//! No tag ever carries two attributes of the same name, and names are in lower
//! case.
use vstd::prelude::*;

use crate::entities::{longest_reference, references};
use crate::text::is_ascii_uppercase;
use crate::token::{distinct_names, ParseErrorKind, Position, TagModel, TokenKindModel};
use crate::tokenizer::model::{DoctypeIdentifierKind, ExternalState, State, TokenizerModel};
use crate::tokenizer::run::start;

verus! {

/// No ASCII letter of the text is in upper case.
pub open spec fn in_lower_case(text: Seq<char>) -> bool {
    forall|i: int| 0 <= i < text.len() ==> !is_ascii_uppercase(#[trigger] text[i])
}

/// The attributes of the tag have distinct names, and its name and theirs are in
/// lower case.
pub open spec fn tag_in_order(tag: TagModel) -> bool {
    &&& distinct_names(tag.attributes)
    &&& in_lower_case(tag.name)
    &&& forall|i: int|
        0 <= i < tag.attributes.len() ==> in_lower_case((#[trigger] tag.attributes[i]).name)
}

/// A token that is no tag, or a tag in order.
pub open spec fn token_in_order(kind: TokenKindModel) -> bool {
    match kind {
        TokenKindModel::StartTag(tag) => tag_in_order(tag),
        TokenKindModel::EndTag(tag) => tag_in_order(tag),
        _ => true,
    }
}

impl TokenizerModel {
    /// The tag being read, and every tag that waits to be given out, is in order;
    /// the attribute name being read is in lower case.
    pub open spec fn tags_in_order(self) -> bool {
        &&& self.current_tag matches Some(tag) ==> tag_in_order(tag)
        &&& in_lower_case(self.current_attribute_name)
        &&& forall|i: int|
            0 <= i < self.pending.len() ==> token_in_order((#[trigger] self.pending[i]).kind)
    }
}

proof fn keeps_emit_character(t: TokenizerModel, c: char, position: Position)
    requires
        t.tags_in_order(),
    ensures
        t.emit_character(c, position).tags_in_order(),
{
}

proof fn keeps_flush_character(t: TokenizerModel, c: char, position: Position)
    requires
        t.tags_in_order(),
    ensures
        t.flush_character(c, position).tags_in_order(),
{
}

proof fn keeps_flush_input(t: TokenizerModel, from: int, to: int)
    requires
        t.tags_in_order(),
    ensures
        t.flush_input(from, to).tags_in_order(),
    decreases to - from,
{
    if from < to {
        keeps_flush_character(t, t.chars[from], t.positions[from]);
        keeps_flush_input(t.flush_character(t.chars[from], t.positions[from]), from + 1, to);
    }
}

proof fn keeps_flush_text(t: TokenizerModel, text: Seq<char>, position: Position)
    requires
        t.tags_in_order(),
    ensures
        t.flush_text(text, position).tags_in_order(),
    decreases text.len(),
{
    if text.len() > 0 {
        keeps_flush_character(t, text[0], position);
        keeps_flush_text(t.flush_character(text[0], position), text.drop_first(), position);
    }
}

proof fn keeps_emit_buffer(t: TokenizerModel, text: Seq<char>, at: int)
    requires
        t.tags_in_order(),
    ensures
        t.emit_buffer(text, at).tags_in_order(),
    decreases text.len(),
{
    if text.len() > 0 {
        let next = t.index_after(at);
        keeps_emit_character(t, text[0], t.positions[next]);
        keeps_emit_buffer(
            t.emit_character(text[0], t.positions[next]),
            text.drop_first(),
            next,
        );
    }
}

proof fn keeps_emit_brackets(t: TokenizerModel)
    requires
        t.tags_in_order(),
    ensures
        t.emit_brackets().tags_in_order(),
    decreases t.pending_brackets.len(),
{
    if t.pending_brackets.len() > 0 {
        keeps_emit_brackets(t.emit_oldest_bracket());
    }
}

proof fn keeps_abandon_reference(t: TokenizerModel, ch: Option<char>)
    requires
        t.tags_in_order(),
    ensures
        t.abandon_reference(ch).tags_in_order(),
{
    let u = t.unread(ch);
    keeps_flush_input(u, u.reference_start, u.index);
}

proof fn keeps_named_reference(t: TokenizerModel, ch: Option<char>)
    requires
        t.tags_in_order(),
    ensures
        t.unread(ch).named_reference().tags_in_order(),
{
    let u = t.unread(ch);
    let text = u.chars.skip(u.index);
    let table = references(text[0]);
    if u.index < u.chars.len() {
        match longest_reference(table, text) {
            Some(i) => {
                let end = TokenizerModel { index: u.index + table[i].0@.len(), ..u };
                let position = u.positions[u.reference_start];
                keeps_flush_input(end, end.reference_start, end.index);
                keeps_flush_text(end, table[i].1@, position);
                keeps_flush_text(
                    end.error(ParseErrorKind::MissingSemicolonAfterCharacterReference, position),
                    table[i].1@,
                    position,
                );
            },
            None => {},
        }
    }
}

proof fn keeps_data_state(t: TokenizerModel, ch: Option<char>, position: Position)
    requires
        t.tags_in_order(),
    ensures
        t.data_state(ch, position).tags_in_order(),
{
    reveal(TokenizerModel::data_state);
    if ch is Some {
        keeps_emit_character(t, ch->0, position);
    }
}

proof fn keeps_tag_open_state(t: TokenizerModel, ch: Option<char>, position: Position)
    requires
        t.tags_in_order(),
    ensures
        t.tag_open_state(ch, position).tags_in_order(),
{
    reveal(TokenizerModel::tag_open_state);
}

proof fn keeps_end_tag_open_state(t: TokenizerModel, ch: Option<char>, position: Position)
    requires
        t.tags_in_order(),
    ensures
        t.end_tag_open_state(ch, position).tags_in_order(),
{
    reveal(TokenizerModel::end_tag_open_state);
}

proof fn keeps_tag_name_state(t: TokenizerModel, ch: Option<char>, position: Position)
    requires
        t.tags_in_order(),
    ensures
        t.tag_name_state(ch, position).tags_in_order(),
{
    reveal(TokenizerModel::tag_name_state);
}

proof fn keeps_before_attribute_name_state(t: TokenizerModel, ch: Option<char>, position: Position)
    requires
        t.tags_in_order(),
    ensures
        t.before_attribute_name_state(ch, position).tags_in_order(),
{
    reveal(TokenizerModel::before_attribute_name_state);
}

proof fn keeps_attribute_name_state(t: TokenizerModel, ch: Option<char>, position: Position)
    requires
        t.tags_in_order(),
    ensures
        t.attribute_name_state(ch, position).tags_in_order(),
{
    reveal(TokenizerModel::attribute_name_state);
}

proof fn keeps_after_attribute_name_state(t: TokenizerModel, ch: Option<char>, position: Position)
    requires
        t.tags_in_order(),
    ensures
        t.after_attribute_name_state(ch, position).tags_in_order(),
{
    reveal(TokenizerModel::after_attribute_name_state);
}

proof fn keeps_before_attribute_value_state(t: TokenizerModel, ch: Option<char>, position: Position)
    requires
        t.tags_in_order(),
    ensures
        t.before_attribute_value_state(ch, position).tags_in_order(),
{
    reveal(TokenizerModel::before_attribute_value_state);
}

proof fn keeps_attribute_value_quoted_state(
    t: TokenizerModel,
    ch: Option<char>,
    position: Position,
    quote: char,
    state: State,
)
    requires
        t.tags_in_order(),
    ensures
        t.attribute_value_quoted_state(ch, position, quote, state).tags_in_order(),
{
    reveal(TokenizerModel::attribute_value_quoted_state);
}

proof fn keeps_attribute_value_unquoted_state(
    t: TokenizerModel,
    ch: Option<char>,
    position: Position,
)
    requires
        t.tags_in_order(),
    ensures
        t.attribute_value_unquoted_state(ch, position).tags_in_order(),
{
    reveal(TokenizerModel::attribute_value_unquoted_state);
}

proof fn keeps_after_attribute_value_quoted_state(
    t: TokenizerModel,
    ch: Option<char>,
    position: Position,
)
    requires
        t.tags_in_order(),
    ensures
        t.after_attribute_value_quoted_state(ch, position).tags_in_order(),
{
    reveal(TokenizerModel::after_attribute_value_quoted_state);
}

proof fn keeps_self_closing_start_tag_state(t: TokenizerModel, ch: Option<char>, position: Position)
    requires
        t.tags_in_order(),
    ensures
        t.self_closing_start_tag_state(ch, position).tags_in_order(),
{
    reveal(TokenizerModel::self_closing_start_tag_state);
}

proof fn keeps_character_reference_state(t: TokenizerModel, ch: Option<char>, position: Position)
    requires
        t.tags_in_order(),
    ensures
        t.character_reference_state(ch, position).tags_in_order(),
{
    reveal(TokenizerModel::character_reference_state);
    keeps_abandon_reference(t, ch);
}

proof fn keeps_ambiguous_ampersand_state(t: TokenizerModel, ch: Option<char>, position: Position)
    requires
        t.tags_in_order(),
    ensures
        t.ambiguous_ampersand_state(ch, position).tags_in_order(),
{
    reveal(TokenizerModel::ambiguous_ampersand_state);
}

proof fn keeps_numeric_character_reference_state(
    t: TokenizerModel,
    ch: Option<char>,
    position: Position,
)
    requires
        t.tags_in_order(),
    ensures
        t.numeric_character_reference_state(ch, position).tags_in_order(),
{
    reveal(TokenizerModel::numeric_character_reference_state);
    let e = t.clear_code().error(
        ParseErrorKind::AbsenceOfDigitsInNumericCharacterReference,
        position,
    );
    keeps_abandon_reference(e, ch);
}

proof fn keeps_hexadecimal_character_reference_start_state(
    t: TokenizerModel,
    ch: Option<char>,
    position: Position,
)
    requires
        t.tags_in_order(),
    ensures
        t.hexadecimal_character_reference_start_state(ch, position).tags_in_order(),
{
    reveal(TokenizerModel::hexadecimal_character_reference_start_state);
    keeps_abandon_reference(
        t.error(ParseErrorKind::AbsenceOfDigitsInNumericCharacterReference, position),
        ch,
    );
}

proof fn keeps_hexadecimal_character_reference_state(
    t: TokenizerModel,
    ch: Option<char>,
    position: Position,
)
    requires
        t.tags_in_order(),
    ensures
        t.hexadecimal_character_reference_state(ch, position).tags_in_order(),
{
    reveal(TokenizerModel::hexadecimal_character_reference_state);
}

proof fn keeps_decimal_character_reference_state(
    t: TokenizerModel,
    ch: Option<char>,
    position: Position,
)
    requires
        t.tags_in_order(),
    ensures
        t.decimal_character_reference_state(ch, position).tags_in_order(),
{
    reveal(TokenizerModel::decimal_character_reference_state);
}

proof fn keeps_numeric_character_reference_end_state(
    t: TokenizerModel,
    ch: Option<char>,
    position: Position,
)
    requires
        t.tags_in_order(),
    ensures
        t.numeric_character_reference_end_state(ch, position).tags_in_order(),
{
    reveal(TokenizerModel::numeric_character_reference_end_state);
}

proof fn keeps_bogus_comment_state(t: TokenizerModel, ch: Option<char>, position: Position)
    requires
        t.tags_in_order(),
    ensures
        t.bogus_comment_state(ch, position).tags_in_order(),
{
    reveal(TokenizerModel::bogus_comment_state);
}

proof fn keeps_comment_start_state(t: TokenizerModel, ch: Option<char>, position: Position)
    requires
        t.tags_in_order(),
    ensures
        t.comment_start_state(ch, position).tags_in_order(),
{
    reveal(TokenizerModel::comment_start_state);
}

proof fn keeps_comment_start_dash_state(t: TokenizerModel, ch: Option<char>, position: Position)
    requires
        t.tags_in_order(),
    ensures
        t.comment_start_dash_state(ch, position).tags_in_order(),
{
    reveal(TokenizerModel::comment_start_dash_state);
}

proof fn keeps_comment_state(t: TokenizerModel, ch: Option<char>, position: Position)
    requires
        t.tags_in_order(),
    ensures
        t.comment_state(ch, position).tags_in_order(),
{
    reveal(TokenizerModel::comment_state);
}

proof fn keeps_comment_less_than_sign_state(t: TokenizerModel, ch: Option<char>, position: Position)
    requires
        t.tags_in_order(),
    ensures
        t.comment_less_than_sign_state(ch, position).tags_in_order(),
{
    reveal(TokenizerModel::comment_less_than_sign_state);
}

proof fn keeps_comment_less_than_sign_bang_state(
    t: TokenizerModel,
    ch: Option<char>,
    position: Position,
)
    requires
        t.tags_in_order(),
    ensures
        t.comment_less_than_sign_bang_state(ch, position).tags_in_order(),
{
    reveal(TokenizerModel::comment_less_than_sign_bang_state);
}

proof fn keeps_comment_less_than_sign_bang_dash_state(
    t: TokenizerModel,
    ch: Option<char>,
    position: Position,
)
    requires
        t.tags_in_order(),
    ensures
        t.comment_less_than_sign_bang_dash_state(ch, position).tags_in_order(),
{
    reveal(TokenizerModel::comment_less_than_sign_bang_dash_state);
}

proof fn keeps_comment_less_than_sign_bang_dash_dash_state(
    t: TokenizerModel,
    ch: Option<char>,
    position: Position,
)
    requires
        t.tags_in_order(),
    ensures
        t.comment_less_than_sign_bang_dash_dash_state(ch, position).tags_in_order(),
{
    reveal(TokenizerModel::comment_less_than_sign_bang_dash_dash_state);
}

proof fn keeps_comment_end_dash_state(t: TokenizerModel, ch: Option<char>, position: Position)
    requires
        t.tags_in_order(),
    ensures
        t.comment_end_dash_state(ch, position).tags_in_order(),
{
    reveal(TokenizerModel::comment_end_dash_state);
}

proof fn keeps_comment_end_state(t: TokenizerModel, ch: Option<char>, position: Position)
    requires
        t.tags_in_order(),
    ensures
        t.comment_end_state(ch, position).tags_in_order(),
{
    reveal(TokenizerModel::comment_end_state);
}

proof fn keeps_comment_end_bang_state(t: TokenizerModel, ch: Option<char>, position: Position)
    requires
        t.tags_in_order(),
    ensures
        t.comment_end_bang_state(ch, position).tags_in_order(),
{
    reveal(TokenizerModel::comment_end_bang_state);
}

proof fn keeps_doctype_state(t: TokenizerModel, ch: Option<char>, position: Position)
    requires
        t.tags_in_order(),
    ensures
        t.doctype_state(ch, position).tags_in_order(),
{
    reveal(TokenizerModel::doctype_state);
}

proof fn keeps_before_doctype_name_state(t: TokenizerModel, ch: Option<char>, position: Position)
    requires
        t.tags_in_order(),
    ensures
        t.before_doctype_name_state(ch, position).tags_in_order(),
{
    reveal(TokenizerModel::before_doctype_name_state);
}

proof fn keeps_doctype_name_state(t: TokenizerModel, ch: Option<char>, position: Position)
    requires
        t.tags_in_order(),
    ensures
        t.doctype_name_state(ch, position).tags_in_order(),
{
    reveal(TokenizerModel::doctype_name_state);
}

proof fn keeps_after_doctype_name_state(t: TokenizerModel, ch: Option<char>, position: Position)
    requires
        t.tags_in_order(),
    ensures
        t.after_doctype_name_state(ch, position).tags_in_order(),
{
    reveal(TokenizerModel::after_doctype_name_state);
    reveal_strlit("PUBLIC");
    reveal_strlit("SYSTEM");
}

proof fn keeps_before_doctype_identifier_state(
    t: TokenizerModel,
    ch: Option<char>,
    position: Position,
    after_whitespace: State,
    kind: DoctypeIdentifierKind,
    double: State,
    single: State,
)
    requires
        t.tags_in_order(),
    ensures
        t.before_doctype_identifier_state(
            ch,
            position,
            after_whitespace,
            kind,
            double,
            single,
        ).tags_in_order(),
{
    reveal(TokenizerModel::before_doctype_identifier_state);
}

proof fn keeps_doctype_identifier_quoted_state(
    t: TokenizerModel,
    ch: Option<char>,
    position: Position,
    quote: char,
    kind: DoctypeIdentifierKind,
    after: State,
)
    requires
        t.tags_in_order(),
    ensures
        t.doctype_identifier_quoted_state(ch, position, quote, kind, after).tags_in_order(),
{
    reveal(TokenizerModel::doctype_identifier_quoted_state);
}

proof fn keeps_after_doctype_public_identifier_state(
    t: TokenizerModel,
    ch: Option<char>,
    position: Position,
)
    requires
        t.tags_in_order(),
    ensures
        t.after_doctype_public_identifier_state(ch, position).tags_in_order(),
{
    reveal(TokenizerModel::after_doctype_public_identifier_state);
}

proof fn keeps_between_doctype_identifiers_state(
    t: TokenizerModel,
    ch: Option<char>,
    position: Position,
)
    requires
        t.tags_in_order(),
    ensures
        t.between_doctype_identifiers_state(ch, position).tags_in_order(),
{
    reveal(TokenizerModel::between_doctype_identifiers_state);
}

proof fn keeps_after_doctype_system_identifier_state(
    t: TokenizerModel,
    ch: Option<char>,
    position: Position,
)
    requires
        t.tags_in_order(),
    ensures
        t.after_doctype_system_identifier_state(ch, position).tags_in_order(),
{
    reveal(TokenizerModel::after_doctype_system_identifier_state);
}

proof fn keeps_bogus_doctype_rest_state(t: TokenizerModel, ch: Option<char>, position: Position)
    requires
        t.tags_in_order(),
    ensures
        t.bogus_doctype_rest_state(ch, position).tags_in_order(),
{
    reveal(TokenizerModel::bogus_doctype_rest_state);
}

proof fn keeps_processing_instruction_open_state(
    t: TokenizerModel,
    ch: Option<char>,
    position: Position,
)
    requires
        t.tags_in_order(),
    ensures
        t.processing_instruction_open_state(ch, position).tags_in_order(),
{
    reveal(TokenizerModel::processing_instruction_open_state);
}

proof fn keeps_processing_instruction_target_state(
    t: TokenizerModel,
    ch: Option<char>,
    position: Position,
)
    requires
        t.tags_in_order(),
    ensures
        t.processing_instruction_target_state(ch, position).tags_in_order(),
{
    reveal(TokenizerModel::processing_instruction_target_state);
}

proof fn keeps_after_processing_instruction_target_state(
    t: TokenizerModel,
    ch: Option<char>,
    position: Position,
)
    requires
        t.tags_in_order(),
    ensures
        t.after_processing_instruction_target_state(ch, position).tags_in_order(),
{
    reveal(TokenizerModel::after_processing_instruction_target_state);
}

proof fn keeps_processing_instruction_data_state(
    t: TokenizerModel,
    ch: Option<char>,
    position: Position,
)
    requires
        t.tags_in_order(),
    ensures
        t.processing_instruction_data_state(ch, position).tags_in_order(),
{
    reveal(TokenizerModel::processing_instruction_data_state);
}

proof fn keeps_processing_instruction_questionable_state(
    t: TokenizerModel,
    ch: Option<char>,
    position: Position,
)
    requires
        t.tags_in_order(),
    ensures
        t.processing_instruction_questionable_state(ch, position).tags_in_order(),
{
    reveal(TokenizerModel::processing_instruction_questionable_state);
}

proof fn keeps_rcdata_state(t: TokenizerModel, ch: Option<char>, position: Position)
    requires
        t.tags_in_order(),
    ensures
        t.rcdata_state(ch, position).tags_in_order(),
{
    reveal(TokenizerModel::rcdata_state);
    if ch is Some {
        keeps_emit_character(t, ch->0, position);
    }
}

proof fn keeps_raw_text_state(
    t: TokenizerModel,
    ch: Option<char>,
    position: Position,
    less_than_sign: State,
)
    requires
        t.tags_in_order(),
    ensures
        t.raw_text_state(ch, position, less_than_sign).tags_in_order(),
{
    reveal(TokenizerModel::raw_text_state);
    if ch is Some {
        keeps_emit_character(t, ch->0, position);
    }
}

proof fn keeps_text_less_than_sign_state(
    t: TokenizerModel,
    ch: Option<char>,
    position: Position,
    end_tag_open: State,
    text: State,
)
    requires
        t.tags_in_order(),
    ensures
        t.text_less_than_sign_state(ch, position, end_tag_open, text).tags_in_order(),
{
    reveal(TokenizerModel::text_less_than_sign_state);
}

proof fn keeps_text_end_tag_open_state(
    t: TokenizerModel,
    ch: Option<char>,
    position: Position,
    end_tag_name: State,
    text: State,
)
    requires
        t.tags_in_order(),
    ensures
        t.text_end_tag_open_state(ch, position, end_tag_name, text).tags_in_order(),
{
    reveal(TokenizerModel::text_end_tag_open_state);
}

proof fn keeps_text_end_tag_name_state(
    t: TokenizerModel,
    ch: Option<char>,
    position: Position,
    text: State,
)
    requires
        t.tags_in_order(),
    ensures
        t.text_end_tag_name_state(ch, position, text).tags_in_order(),
{
    reveal(TokenizerModel::text_end_tag_name_state);
    keeps_emit_buffer(t.emit_less_than().emit_slash(), t.end_tag_buffer, t.slash_index);
}

proof fn keeps_plain_text_state(t: TokenizerModel, ch: Option<char>, position: Position)
    requires
        t.tags_in_order(),
    ensures
        t.plain_text_state(ch, position).tags_in_order(),
{
    reveal(TokenizerModel::plain_text_state);
    if ch is Some {
        keeps_emit_character(t, ch->0, position);
    }
}

proof fn keeps_script_data_less_than_sign_state(
    t: TokenizerModel,
    ch: Option<char>,
    position: Position,
)
    requires
        t.tags_in_order(),
    ensures
        t.script_data_less_than_sign_state(ch, position).tags_in_order(),
{
    reveal(TokenizerModel::script_data_less_than_sign_state);
}

proof fn keeps_script_data_escape_start_state(
    t: TokenizerModel,
    ch: Option<char>,
    position: Position,
    dash: State,
)
    requires
        t.tags_in_order(),
    ensures
        t.script_data_escape_start_state(ch, position, dash).tags_in_order(),
{
    reveal(TokenizerModel::script_data_escape_start_state);
}

proof fn keeps_script_data_escaped_state(t: TokenizerModel, ch: Option<char>, position: Position)
    requires
        t.tags_in_order(),
    ensures
        t.script_data_escaped_state(ch, position).tags_in_order(),
{
    reveal(TokenizerModel::script_data_escaped_state);
    if ch is Some {
        keeps_emit_character(t, ch->0, position);
    }
}

proof fn keeps_script_data_escaped_dash_state(
    t: TokenizerModel,
    ch: Option<char>,
    position: Position,
)
    requires
        t.tags_in_order(),
    ensures
        t.script_data_escaped_dash_state(ch, position).tags_in_order(),
{
    reveal(TokenizerModel::script_data_escaped_dash_state);
    if ch is Some {
        keeps_emit_character(t, ch->0, position);
    }
}

proof fn keeps_script_data_escaped_dash_dash_state(
    t: TokenizerModel,
    ch: Option<char>,
    position: Position,
)
    requires
        t.tags_in_order(),
    ensures
        t.script_data_escaped_dash_dash_state(ch, position).tags_in_order(),
{
    reveal(TokenizerModel::script_data_escaped_dash_dash_state);
    if ch is Some {
        keeps_emit_character(t, ch->0, position);
    }
}

proof fn keeps_script_data_escaped_less_than_sign_state(
    t: TokenizerModel,
    ch: Option<char>,
    position: Position,
)
    requires
        t.tags_in_order(),
    ensures
        t.script_data_escaped_less_than_sign_state(ch, position).tags_in_order(),
{
    reveal(TokenizerModel::script_data_escaped_less_than_sign_state);
}

proof fn keeps_script_data_double_escape_state(
    t: TokenizerModel,
    ch: Option<char>,
    position: Position,
    script: State,
    other: State,
)
    requires
        t.tags_in_order(),
    ensures
        t.script_data_double_escape_state(ch, position, script, other).tags_in_order(),
{
    reveal(TokenizerModel::script_data_double_escape_state);
}

proof fn keeps_script_data_double_escaped_state(
    t: TokenizerModel,
    ch: Option<char>,
    position: Position,
)
    requires
        t.tags_in_order(),
    ensures
        t.script_data_double_escaped_state(ch, position).tags_in_order(),
{
    reveal(TokenizerModel::script_data_double_escaped_state);
    if ch is Some {
        keeps_emit_character(t, ch->0, position);
    }
}

proof fn keeps_script_data_double_escaped_dash_state(
    t: TokenizerModel,
    ch: Option<char>,
    position: Position,
)
    requires
        t.tags_in_order(),
    ensures
        t.script_data_double_escaped_dash_state(ch, position).tags_in_order(),
{
    reveal(TokenizerModel::script_data_double_escaped_dash_state);
    if ch is Some {
        keeps_emit_character(t, ch->0, position);
    }
}

proof fn keeps_script_data_double_escaped_dash_dash_state(
    t: TokenizerModel,
    ch: Option<char>,
    position: Position,
)
    requires
        t.tags_in_order(),
    ensures
        t.script_data_double_escaped_dash_dash_state(ch, position).tags_in_order(),
{
    reveal(TokenizerModel::script_data_double_escaped_dash_dash_state);
    if ch is Some {
        keeps_emit_character(t, ch->0, position);
    }
}

proof fn keeps_script_data_double_escaped_less_than_sign_state(
    t: TokenizerModel,
    ch: Option<char>,
    position: Position,
)
    requires
        t.tags_in_order(),
    ensures
        t.script_data_double_escaped_less_than_sign_state(ch, position).tags_in_order(),
{
    reveal(TokenizerModel::script_data_double_escaped_less_than_sign_state);
}

proof fn keeps_cdata_section_state(t: TokenizerModel, ch: Option<char>, position: Position)
    requires
        t.tags_in_order(),
    ensures
        t.cdata_section_state(ch, position).tags_in_order(),
{
    reveal(TokenizerModel::cdata_section_state);
    if ch is Some {
        keeps_emit_character(t, ch->0, position);
    }
}

proof fn keeps_cdata_section_bracket_state(t: TokenizerModel, ch: Option<char>, position: Position)
    requires
        t.tags_in_order(),
    ensures
        t.cdata_section_bracket_state(ch, position).tags_in_order(),
{
    reveal(TokenizerModel::cdata_section_bracket_state);
}

proof fn keeps_cdata_section_end_state(t: TokenizerModel, ch: Option<char>, position: Position)
    requires
        t.tags_in_order(),
    ensures
        t.cdata_section_end_state(ch, position).tags_in_order(),
{
    reveal(TokenizerModel::cdata_section_end_state);
    keeps_emit_brackets(t);
}

/// Every step keeps the tags in order.
pub proof fn lemma_step_keeps_tags_in_order(
    t: TokenizerModel,
    ch: Option<char>,
    position: Position,
)
    requires
        t.tags_in_order(),
    ensures
        t.step(ch, position).tags_in_order(),
{
    reveal(TokenizerModel::step);
    match t.state {
        State::Data => keeps_data_state(t, ch, position),
        State::TagOpen => keeps_tag_open_state(t, ch, position),
        State::EndTagOpen => keeps_end_tag_open_state(t, ch, position),
        State::TagName => keeps_tag_name_state(t, ch, position),
        State::BeforeAttributeName => keeps_before_attribute_name_state(t, ch, position),
        State::AttributeName => keeps_attribute_name_state(t, ch, position),
        State::AfterAttributeName => keeps_after_attribute_name_state(t, ch, position),
        State::BeforeAttributeValue => keeps_before_attribute_value_state(t, ch, position),
        State::AttributeValueDoubleQuoted => {
            keeps_attribute_value_quoted_state(
                t,
                ch,
                position,
                '"',
                State::AttributeValueDoubleQuoted,
            )
        },
        State::AttributeValueSingleQuoted => {
            keeps_attribute_value_quoted_state(
                t,
                ch,
                position,
                '\'',
                State::AttributeValueSingleQuoted,
            )
        },
        State::AttributeValueUnquoted => keeps_attribute_value_unquoted_state(t, ch, position),
        State::AfterAttributeValueQuoted => {
            keeps_after_attribute_value_quoted_state(t, ch, position)
        },
        State::SelfClosingStartTag => keeps_self_closing_start_tag_state(t, ch, position),
        State::CharacterReference => keeps_character_reference_state(t, ch, position),
        State::NamedCharacterReference => keeps_named_reference(t, ch),
        State::AmbiguousAmpersand => keeps_ambiguous_ampersand_state(t, ch, position),
        State::NumericCharacterReference => {
            keeps_numeric_character_reference_state(t, ch, position)
        },
        State::HexadecimalCharacterReferenceStart => {
            keeps_hexadecimal_character_reference_start_state(t, ch, position)
        },
        State::HexadecimalCharacterReference => {
            keeps_hexadecimal_character_reference_state(t, ch, position)
        },
        State::DecimalCharacterReference => {
            keeps_decimal_character_reference_state(t, ch, position)
        },
        State::NumericCharacterReferenceEnd => {
            keeps_numeric_character_reference_end_state(t, ch, position)
        },
        State::MarkupDeclarationOpen => {
            reveal_strlit("--");
        },
        State::BogusComment => keeps_bogus_comment_state(t, ch, position),
        State::CommentStart => keeps_comment_start_state(t, ch, position),
        State::CommentStartDash => keeps_comment_start_dash_state(t, ch, position),
        State::Comment => keeps_comment_state(t, ch, position),
        State::CommentLessThanSign => keeps_comment_less_than_sign_state(t, ch, position),
        State::CommentLessThanSignBang => keeps_comment_less_than_sign_bang_state(t, ch, position),
        State::CommentLessThanSignBangDash => {
            keeps_comment_less_than_sign_bang_dash_state(t, ch, position)
        },
        State::CommentLessThanSignBangDashDash => {
            keeps_comment_less_than_sign_bang_dash_dash_state(t, ch, position)
        },
        State::CommentEndDash => keeps_comment_end_dash_state(t, ch, position),
        State::CommentEnd => keeps_comment_end_state(t, ch, position),
        State::CommentEndBang => keeps_comment_end_bang_state(t, ch, position),
        State::Doctype => keeps_doctype_state(t, ch, position),
        State::BeforeDoctypeName => keeps_before_doctype_name_state(t, ch, position),
        State::DoctypeName => keeps_doctype_name_state(t, ch, position),
        State::AfterDoctypeName => keeps_after_doctype_name_state(t, ch, position),
        State::AfterDoctypePublicKeyword => {
            keeps_before_doctype_identifier_state(
                t,
                ch,
                position,
                State::BeforeDoctypePublicIdentifier,
                DoctypeIdentifierKind::Public,
                State::DoctypePublicIdentifierDoubleQuoted,
                State::DoctypePublicIdentifierSingleQuoted,
            )
        },
        State::BeforeDoctypePublicIdentifier => {
            keeps_before_doctype_identifier_state(
                t,
                ch,
                position,
                State::BeforeDoctypePublicIdentifier,
                DoctypeIdentifierKind::Public,
                State::DoctypePublicIdentifierDoubleQuoted,
                State::DoctypePublicIdentifierSingleQuoted,
            )
        },
        State::DoctypePublicIdentifierDoubleQuoted => {
            keeps_doctype_identifier_quoted_state(
                t,
                ch,
                position,
                '"',
                DoctypeIdentifierKind::Public,
                State::AfterDoctypePublicIdentifier,
            )
        },
        State::DoctypePublicIdentifierSingleQuoted => {
            keeps_doctype_identifier_quoted_state(
                t,
                ch,
                position,
                '\'',
                DoctypeIdentifierKind::Public,
                State::AfterDoctypePublicIdentifier,
            )
        },
        State::AfterDoctypePublicIdentifier => {
            keeps_after_doctype_public_identifier_state(t, ch, position)
        },
        State::BetweenDoctypePublicAndSystemIdentifiers => {
            keeps_between_doctype_identifiers_state(t, ch, position)
        },
        State::AfterDoctypeSystemKeyword => {
            keeps_before_doctype_identifier_state(
                t,
                ch,
                position,
                State::BeforeDoctypeSystemIdentifier,
                DoctypeIdentifierKind::System,
                State::DoctypeSystemIdentifierDoubleQuoted,
                State::DoctypeSystemIdentifierSingleQuoted,
            )
        },
        State::BeforeDoctypeSystemIdentifier => {
            keeps_before_doctype_identifier_state(
                t,
                ch,
                position,
                State::BeforeDoctypeSystemIdentifier,
                DoctypeIdentifierKind::System,
                State::DoctypeSystemIdentifierDoubleQuoted,
                State::DoctypeSystemIdentifierSingleQuoted,
            )
        },
        State::DoctypeSystemIdentifierDoubleQuoted => {
            keeps_doctype_identifier_quoted_state(
                t,
                ch,
                position,
                '"',
                DoctypeIdentifierKind::System,
                State::AfterDoctypeSystemIdentifier,
            )
        },
        State::DoctypeSystemIdentifierSingleQuoted => {
            keeps_doctype_identifier_quoted_state(
                t,
                ch,
                position,
                '\'',
                DoctypeIdentifierKind::System,
                State::AfterDoctypeSystemIdentifier,
            )
        },
        State::AfterDoctypeSystemIdentifier => {
            keeps_after_doctype_system_identifier_state(t, ch, position)
        },
        State::BogusDoctype => keeps_bogus_doctype_rest_state(t, ch, position),
        State::ProcessingInstructionOpen => {
            keeps_processing_instruction_open_state(t, ch, position)
        },
        State::ProcessingInstructionTarget => {
            keeps_processing_instruction_target_state(t, ch, position)
        },
        State::AfterProcessingInstructionTarget => {
            keeps_after_processing_instruction_target_state(t, ch, position)
        },
        State::ProcessingInstructionData => {
            keeps_processing_instruction_data_state(t, ch, position)
        },
        State::ProcessingInstructionQuestionable => {
            keeps_processing_instruction_questionable_state(t, ch, position)
        },
        State::RcData => keeps_rcdata_state(t, ch, position),
        State::RcDataLessThanSign => {
            keeps_text_less_than_sign_state(t, ch, position, State::RcDataEndTagOpen, State::RcData)
        },
        State::RcDataEndTagOpen => {
            keeps_text_end_tag_open_state(t, ch, position, State::RcDataEndTagName, State::RcData)
        },
        State::RcDataEndTagName => keeps_text_end_tag_name_state(t, ch, position, State::RcData),
        State::RawText => keeps_raw_text_state(t, ch, position, State::RawTextLessThanSign),
        State::RawTextLessThanSign => {
            keeps_text_less_than_sign_state(
                t,
                ch,
                position,
                State::RawTextEndTagOpen,
                State::RawText,
            )
        },
        State::RawTextEndTagOpen => {
            keeps_text_end_tag_open_state(t, ch, position, State::RawTextEndTagName, State::RawText)
        },
        State::RawTextEndTagName => keeps_text_end_tag_name_state(t, ch, position, State::RawText),
        State::PlainText => keeps_plain_text_state(t, ch, position),
        State::ScriptData => keeps_raw_text_state(t, ch, position, State::ScriptDataLessThanSign),
        State::ScriptDataLessThanSign => keeps_script_data_less_than_sign_state(t, ch, position),
        State::ScriptDataEndTagOpen => {
            keeps_text_end_tag_open_state(
                t,
                ch,
                position,
                State::ScriptDataEndTagName,
                State::ScriptData,
            )
        },
        State::ScriptDataEndTagName => {
            keeps_text_end_tag_name_state(t, ch, position, State::ScriptData)
        },
        State::ScriptDataEscapeStart => {
            keeps_script_data_escape_start_state(t, ch, position, State::ScriptDataEscapeStartDash)
        },
        State::ScriptDataEscapeStartDash => {
            keeps_script_data_escape_start_state(t, ch, position, State::ScriptDataEscapedDashDash)
        },
        State::ScriptDataEscaped => keeps_script_data_escaped_state(t, ch, position),
        State::ScriptDataEscapedDash => keeps_script_data_escaped_dash_state(t, ch, position),
        State::ScriptDataEscapedDashDash => {
            keeps_script_data_escaped_dash_dash_state(t, ch, position)
        },
        State::ScriptDataEscapedLessThanSign => {
            keeps_script_data_escaped_less_than_sign_state(t, ch, position)
        },
        State::ScriptDataEscapedEndTagOpen => {
            keeps_text_end_tag_open_state(
                t,
                ch,
                position,
                State::ScriptDataEscapedEndTagName,
                State::ScriptDataEscaped,
            )
        },
        State::ScriptDataEscapedEndTagName => {
            keeps_text_end_tag_name_state(t, ch, position, State::ScriptDataEscaped)
        },
        State::ScriptDataDoubleEscapeStart => {
            keeps_script_data_double_escape_state(
                t,
                ch,
                position,
                State::ScriptDataDoubleEscaped,
                State::ScriptDataEscaped,
            )
        },
        State::ScriptDataDoubleEscaped => keeps_script_data_double_escaped_state(t, ch, position),
        State::ScriptDataDoubleEscapedDash => {
            keeps_script_data_double_escaped_dash_state(t, ch, position)
        },
        State::ScriptDataDoubleEscapedDashDash => {
            keeps_script_data_double_escaped_dash_dash_state(t, ch, position)
        },
        State::ScriptDataDoubleEscapedLessThanSign => {
            keeps_script_data_double_escaped_less_than_sign_state(t, ch, position)
        },
        State::ScriptDataDoubleEscapeEnd => {
            keeps_script_data_double_escape_state(
                t,
                ch,
                position,
                State::ScriptDataEscaped,
                State::ScriptDataDoubleEscaped,
            )
        },
        State::CdataSection => keeps_cdata_section_state(t, ch, position),
        State::CdataSectionBracket => keeps_cdata_section_bracket_state(t, ch, position),
        State::CdataSectionEnd => keeps_cdata_section_end_state(t, ch, position),
    }
}

/// Reading up to the next token keeps the tags in order.
proof fn keeps_run(t: TokenizerModel)
    requires
        t.tags_in_order(),
    ensures
        t.run().tags_in_order(),
    decreases t.remaining(),
{
    if t.pending.len() == 0 {
        lemma_step_keeps_tags_in_order(t.consume(), t.peek(), t.positions[t.index]);
        let next = t.advance();
        if next.pending.len() == 0 && 0 <= next.remaining() < t.remaining() {
            keeps_run(next);
        }
    }
}

/// No tag that is given out carries two attributes of the same name, and its name
/// and theirs are in lower case.
pub proof fn lemma_tags_in_order(t: TokenizerModel)
    requires
        t.tags_in_order(),
    ensures
        t.next().0 matches Some(token) ==> token_in_order(token.kind),
        t.next().1.tags_in_order(),
{
    keeps_run(t);
    let ready = t.run();
    if ready.pending.len() > 0 {
        let after = ready.take_token();
        assert forall|i: int| 0 <= i < after.pending.len() implies token_in_order(
            (#[trigger] after.pending[i]).kind,
        ) by {
            assert(after.pending[i] == ready.pending[i + 1]);
        }
    }
}

/// What the tree builder tells the tokenizer changes no tag.
pub proof fn lemma_feedback_keeps_tags_in_order(
    t: TokenizerModel,
    state: ExternalState,
    in_foreign_content: bool,
)
    requires
        t.tags_in_order(),
    ensures
        t.switch_to(state).tags_in_order(),
        t.set_in_foreign_content(in_foreign_content).tags_in_order(),
{
}

/// At the start of a source there are no tags yet.
pub proof fn lemma_start_in_order(source: Seq<char>)
    ensures
        start(source).tags_in_order(),
{
}

} // verus!
