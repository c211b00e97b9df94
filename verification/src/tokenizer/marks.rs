//! Every token starts at a place of the source, and one that is no character starts
//! at a `<`.
use vstd::prelude::*;

use crate::entities::{lemma_longest_reference, longest_reference, references};
use crate::token::{ParseError, ParseErrorKind, Position, TokenModel};
use crate::tokenizer::model::{DoctypeIdentifierKind, ExternalState, State, TokenizerModel};
use crate::tokenizer::order::{role, Role};
use crate::tokenizer::progress::{
    lemma_emit_buffer, lemma_flush_input, lemma_flush_text, lemma_step,
};
use crate::tokenizer::run::{lemma_run, start};
use crate::tokenizer::source::{
    lemma_source_lengths, source_chars, source_positions, start_of_source,
};

verus! {

/// The characters of a source, with the positions where they start and that of the
/// end of the source.
pub struct Places {
    pub chars: Seq<char>,
    pub positions: Seq<Position>,
}

/// The places of a source.
pub open spec fn places_of(source: Seq<char>) -> Places {
    Places { chars: source_chars(source), positions: source_positions(source) }
}

impl Places {
    /// A character of the source starts at the position, or the source ends there.
    #[verifier::opaque]
    pub open spec fn holds(self, position: Position) -> bool {
        self.positions.contains(position)
    }

    /// A `<` stands at the position.
    #[verifier::opaque]
    pub open spec fn holds_markup(self, position: Position) -> bool {
        exists|i: int|
            0 <= i < self.chars.len() && i < self.positions.len() && #[trigger] self.positions[i]
                == position && self.chars[i] == '<'
    }
}

/// A token that starts where its kind says.
pub open spec fn token_marked(source: Places, token: TokenModel) -> bool {
    &&& source.holds(token.position)
    &&& token.kind.is_markup() ==> source.holds_markup(token.position)
}

/// Every error is at a place of the source.
pub open spec fn errors_placed(source: Places, errors: Seq<ParseError>) -> bool {
    forall|i: int| 0 <= i < errors.len() ==> source.holds((#[trigger] errors[i]).position)
}

impl TokenizerModel {
    /// The tokenizer is in a piece of markup.
    pub open spec fn in_markup(self) -> bool {
        match role(self.state) {
            Role::Text | Role::Bracket | Role::Brackets => false,
            Role::Reference | Role::Ampersand => self.reference_in_attribute(),
            _ => true,
        }
    }

    /// What waits, what is held back and what was reported is at places of the
    /// source, and what is read as markup starts at a `<`.
    pub open spec fn marked(self, source: Places) -> bool {
        &&& forall|i: int| 0 <= i < self.positions.len() ==> source.holds(
            #[trigger] self.positions[i],
        )
        &&& source.holds(self.current_tag_start)
        &&& self.in_markup() ==> source.holds_markup(self.current_tag_start)
        &&& forall|i: int|
            0 <= i < self.pending_brackets.len() ==> source.holds(
                #[trigger] self.pending_brackets[i],
            )
        &&& forall|i: int|
            0 <= i < self.pending.len() ==> token_marked(source, #[trigger] self.pending[i])
        &&& errors_placed(source, self.errors)
    }

    /// The same, after the character `ch` at `position` was read.
    pub open spec fn read_marked(
        self,
        source: Places,
        ch: Option<char>,
        position: Position,
    ) -> bool {
        &&& self.has_read(ch)
        &&& self.marked(source)
        &&& source.holds(position)
        &&& ch == Some('<') ==> source.holds_markup(position)
    }
}

proof fn marks_emit(t: TokenizerModel, source: Places, c: char, position: Position)
    requires
        t.marked(source),
        source.holds(position),
    ensures
        t.emit_character(c, position).marked(source),
{
}

proof fn marks_flush(t: TokenizerModel, source: Places, c: char, position: Position)
    requires
        t.marked(source),
        source.holds(position),
    ensures
        t.flush_character(c, position).marked(source),
{
}

proof fn marks_flush_input(t: TokenizerModel, source: Places, from: int, to: int)
    requires
        t.marked(source),
        0 <= from,
        to <= t.positions.len(),
    ensures
        t.flush_input(from, to).marked(source),
    decreases to - from,
{
    if from < to {
        marks_flush(t, source, t.chars[from], t.positions[from]);
        marks_flush_input(
            t.flush_character(t.chars[from], t.positions[from]),
            source,
            from + 1,
            to,
        );
    }
}

proof fn marks_flush_text(
    t: TokenizerModel,
    source: Places,
    text: Seq<char>,
    position: Position,
)
    requires
        t.marked(source),
        source.holds(position),
    ensures
        t.flush_text(text, position).marked(source),
    decreases text.len(),
{
    if text.len() > 0 {
        marks_flush(t, source, text[0], position);
        marks_flush_text(
            t.flush_character(text[0], position),
            source,
            text.drop_first(),
            position,
        );
    }
}

proof fn marks_emit_buffer(t: TokenizerModel, source: Places, text: Seq<char>, at: int)
    requires
        t.marked(source),
        t.positions.len() == t.chars.len() + 1,
        0 <= at <= t.chars.len(),
    ensures
        t.emit_buffer(text, at).marked(source),
    decreases text.len(),
{
    if text.len() > 0 {
        let next = t.index_after(at);
        marks_emit(t, source, text[0], t.positions[next]);
        marks_emit_buffer(
            t.emit_character(text[0], t.positions[next]),
            source,
            text.drop_first(),
            next,
        );
    }
}

proof fn marks_emit_brackets(t: TokenizerModel, source: Places)
    requires
        t.marked(source),
    ensures
        t.emit_brackets().marked(source),
        t.emit_oldest_bracket().marked(source),
    decreases t.pending_brackets.len(),
{
    if t.pending_brackets.len() > 0 {
        let rest = TokenizerModel { pending_brackets: t.pending_brackets.drop_first(), ..t };
        assert(rest.marked(source));
        marks_emit(rest, source, ']', t.pending_brackets[0]);
        marks_emit_brackets(t.emit_oldest_bracket(), source);
    }
}

proof fn marks_abandon_reference(t: TokenizerModel, source: Places, ch: Option<char>)
    requires
        t.marked(source),
        t.has_read(ch),
        role(t.state) is Reference,
    ensures
        t.abandon_reference(ch).marked(source),
{
    let u = t.unread(ch);
    lemma_flush_input(u, u.reference_start, u.index);
    marks_flush_input(u, source, u.reference_start, u.index);
}

proof fn marks_named_reference(t: TokenizerModel, source: Places, ch: Option<char>)
    requires
        t.marked(source),
        t.has_read(ch),
        t.state is NamedCharacterReference,
    ensures
        t.unread(ch).named_reference().marked(source),
{
    let u = t.unread(ch);
    let text = u.chars.skip(u.index);
    let table = references(text[0]);
    let position = u.positions[u.reference_start];
    marks_flush(u, source, '&', position);
    if u.index < u.chars.len() {
        match longest_reference(table, text) {
            Some(i) => {
                lemma_longest_reference(table, text);
                let end = TokenizerModel { index: u.index + table[i].0@.len(), ..u };
                let error = end.error(
                    ParseErrorKind::MissingSemicolonAfterCharacterReference,
                    position,
                );
                lemma_flush_input(end, end.reference_start, end.index);
                lemma_flush_text(end, table[i].1@, position);
                lemma_flush_text(error, table[i].1@, position);
                marks_flush_input(end, source, end.reference_start, end.index);
                marks_flush_text(end, source, table[i].1@, position);
                marks_flush_text(error, source, table[i].1@, position);
            },
            None => {},
        }
    }
}

proof fn marks_markup_declaration(t: TokenizerModel, source: Places, ch: Option<char>)
    requires
        t.marked(source),
        t.has_read(ch),
        t.state is MarkupDeclarationOpen,
    ensures
        t.unread(ch).markup_declaration().marked(source),
{
    let u = t.unread(ch);
    let after = u.skip_input("[CDATA["@.len() as int);
    assert(source.holds(u.positions[u.index]));
    if u.looking_at(u.index, "[CDATA["@) {
        assert(source.holds(after.positions[after.index]));
    }
}

proof fn marks_data_state(
    t: TokenizerModel,
    source: Places,
    ch: Option<char>,
    position: Position,
)
    requires
        t.read_marked(source, ch, position),
        t.state is Data,
    ensures
        t.data_state(ch, position).marked(source),
{
    reveal(TokenizerModel::data_state);
    if ch is Some {
        marks_emit(t, source, ch->0, position);
    }
}

proof fn marks_tag_open_state(
    t: TokenizerModel,
    source: Places,
    ch: Option<char>,
    position: Position,
)
    requires
        t.read_marked(source, ch, position),
        t.state is TagOpen,
    ensures
        t.tag_open_state(ch, position).marked(source),
{
    reveal(TokenizerModel::tag_open_state);
}

proof fn marks_end_tag_open_state(
    t: TokenizerModel,
    source: Places,
    ch: Option<char>,
    position: Position,
)
    requires
        t.read_marked(source, ch, position),
        t.state is EndTagOpen,
    ensures
        t.end_tag_open_state(ch, position).marked(source),
{
    reveal(TokenizerModel::end_tag_open_state);
}

proof fn marks_tag_name_state(
    t: TokenizerModel,
    source: Places,
    ch: Option<char>,
    position: Position,
)
    requires
        t.read_marked(source, ch, position),
        t.state is TagName,
    ensures
        t.tag_name_state(ch, position).marked(source),
{
    reveal(TokenizerModel::tag_name_state);
}

proof fn marks_before_attribute_name_state(
    t: TokenizerModel,
    source: Places,
    ch: Option<char>,
    position: Position,
)
    requires
        t.read_marked(source, ch, position),
        t.state is BeforeAttributeName,
    ensures
        t.before_attribute_name_state(ch, position).marked(source),
{
    reveal(TokenizerModel::before_attribute_name_state);
}

proof fn marks_attribute_name_state(
    t: TokenizerModel,
    source: Places,
    ch: Option<char>,
    position: Position,
)
    requires
        t.read_marked(source, ch, position),
        t.state is AttributeName,
    ensures
        t.attribute_name_state(ch, position).marked(source),
{
    reveal(TokenizerModel::attribute_name_state);
}

proof fn marks_after_attribute_name_state(
    t: TokenizerModel,
    source: Places,
    ch: Option<char>,
    position: Position,
)
    requires
        t.read_marked(source, ch, position),
        t.state is AfterAttributeName,
    ensures
        t.after_attribute_name_state(ch, position).marked(source),
{
    reveal(TokenizerModel::after_attribute_name_state);
}

proof fn marks_before_attribute_value_state(
    t: TokenizerModel,
    source: Places,
    ch: Option<char>,
    position: Position,
)
    requires
        t.read_marked(source, ch, position),
        t.state is BeforeAttributeValue,
    ensures
        t.before_attribute_value_state(ch, position).marked(source),
{
    reveal(TokenizerModel::before_attribute_value_state);
}

proof fn marks_attribute_value_quoted_state(
    t: TokenizerModel,
    source: Places,
    ch: Option<char>,
    position: Position,
    quote: char,
    state: State,
)
    requires
        t.read_marked(source, ch, position),
        (t.state is AttributeValueDoubleQuoted && quote == '"'
            && state == State::AttributeValueDoubleQuoted)
            || (t.state is AttributeValueSingleQuoted && quote == '\''
            && state == State::AttributeValueSingleQuoted),
    ensures
        t.attribute_value_quoted_state(ch, position, quote, state).marked(source),
{
    reveal(TokenizerModel::attribute_value_quoted_state);
}

proof fn marks_attribute_value_unquoted_state(
    t: TokenizerModel,
    source: Places,
    ch: Option<char>,
    position: Position,
)
    requires
        t.read_marked(source, ch, position),
        t.state is AttributeValueUnquoted,
    ensures
        t.attribute_value_unquoted_state(ch, position).marked(source),
{
    reveal(TokenizerModel::attribute_value_unquoted_state);
}

proof fn marks_after_attribute_value_quoted_state(
    t: TokenizerModel,
    source: Places,
    ch: Option<char>,
    position: Position,
)
    requires
        t.read_marked(source, ch, position),
        t.state is AfterAttributeValueQuoted,
    ensures
        t.after_attribute_value_quoted_state(ch, position).marked(source),
{
    reveal(TokenizerModel::after_attribute_value_quoted_state);
}

proof fn marks_self_closing_start_tag_state(
    t: TokenizerModel,
    source: Places,
    ch: Option<char>,
    position: Position,
)
    requires
        t.read_marked(source, ch, position),
        t.state is SelfClosingStartTag,
    ensures
        t.self_closing_start_tag_state(ch, position).marked(source),
{
    reveal(TokenizerModel::self_closing_start_tag_state);
}

proof fn marks_character_reference_state(
    t: TokenizerModel,
    source: Places,
    ch: Option<char>,
    position: Position,
)
    requires
        t.read_marked(source, ch, position),
        t.state is CharacterReference,
    ensures
        t.character_reference_state(ch, position).marked(source),
{
    reveal(TokenizerModel::character_reference_state);
    marks_abandon_reference(t, source, ch);
}

proof fn marks_ambiguous_ampersand_state(
    t: TokenizerModel,
    source: Places,
    ch: Option<char>,
    position: Position,
)
    requires
        t.read_marked(source, ch, position),
        t.state is AmbiguousAmpersand,
    ensures
        t.ambiguous_ampersand_state(ch, position).marked(source),
{
    reveal(TokenizerModel::ambiguous_ampersand_state);
}

proof fn marks_numeric_character_reference_state(
    t: TokenizerModel,
    source: Places,
    ch: Option<char>,
    position: Position,
)
    requires
        t.read_marked(source, ch, position),
        t.state is NumericCharacterReference,
    ensures
        t.numeric_character_reference_state(ch, position).marked(source),
{
    reveal(TokenizerModel::numeric_character_reference_state);
    let kind = ParseErrorKind::AbsenceOfDigitsInNumericCharacterReference;
    marks_abandon_reference(t.clear_code().error(kind, position), source, ch);
}

proof fn marks_hexadecimal_character_reference_start_state(
    t: TokenizerModel,
    source: Places,
    ch: Option<char>,
    position: Position,
)
    requires
        t.read_marked(source, ch, position),
        t.state is HexadecimalCharacterReferenceStart,
    ensures
        t.hexadecimal_character_reference_start_state(ch, position).marked(source),
{
    reveal(TokenizerModel::hexadecimal_character_reference_start_state);
    let kind = ParseErrorKind::AbsenceOfDigitsInNumericCharacterReference;
    marks_abandon_reference(t.error(kind, position), source, ch);
}

proof fn marks_hexadecimal_character_reference_state(
    t: TokenizerModel,
    source: Places,
    ch: Option<char>,
    position: Position,
)
    requires
        t.read_marked(source, ch, position),
        t.state is HexadecimalCharacterReference,
    ensures
        t.hexadecimal_character_reference_state(ch, position).marked(source),
{
    reveal(TokenizerModel::hexadecimal_character_reference_state);
}

proof fn marks_decimal_character_reference_state(
    t: TokenizerModel,
    source: Places,
    ch: Option<char>,
    position: Position,
)
    requires
        t.read_marked(source, ch, position),
        t.state is DecimalCharacterReference,
    ensures
        t.decimal_character_reference_state(ch, position).marked(source),
{
    reveal(TokenizerModel::decimal_character_reference_state);
}

proof fn marks_numeric_character_reference_end_state(
    t: TokenizerModel,
    source: Places,
    ch: Option<char>,
    position: Position,
)
    requires
        t.read_marked(source, ch, position),
        t.state is NumericCharacterReferenceEnd,
    ensures
        t.numeric_character_reference_end_state(ch, position).marked(source),
{
    reveal(TokenizerModel::numeric_character_reference_end_state);
    assert(source.holds(t.positions[t.reference_start]));
}

proof fn marks_bogus_comment_state(
    t: TokenizerModel,
    source: Places,
    ch: Option<char>,
    position: Position,
)
    requires
        t.read_marked(source, ch, position),
        t.state is BogusComment,
    ensures
        t.bogus_comment_state(ch, position).marked(source),
{
    reveal(TokenizerModel::bogus_comment_state);
}

proof fn marks_comment_start_state(
    t: TokenizerModel,
    source: Places,
    ch: Option<char>,
    position: Position,
)
    requires
        t.read_marked(source, ch, position),
        t.state is CommentStart,
    ensures
        t.comment_start_state(ch, position).marked(source),
{
    reveal(TokenizerModel::comment_start_state);
}

proof fn marks_comment_start_dash_state(
    t: TokenizerModel,
    source: Places,
    ch: Option<char>,
    position: Position,
)
    requires
        t.read_marked(source, ch, position),
        t.state is CommentStartDash,
    ensures
        t.comment_start_dash_state(ch, position).marked(source),
{
    reveal(TokenizerModel::comment_start_dash_state);
}

proof fn marks_comment_state(
    t: TokenizerModel,
    source: Places,
    ch: Option<char>,
    position: Position,
)
    requires
        t.read_marked(source, ch, position),
        t.state is Comment,
    ensures
        t.comment_state(ch, position).marked(source),
{
    reveal(TokenizerModel::comment_state);
}

proof fn marks_comment_less_than_sign_state(
    t: TokenizerModel,
    source: Places,
    ch: Option<char>,
    position: Position,
)
    requires
        t.read_marked(source, ch, position),
        t.state is CommentLessThanSign,
    ensures
        t.comment_less_than_sign_state(ch, position).marked(source),
{
    reveal(TokenizerModel::comment_less_than_sign_state);
}

proof fn marks_comment_less_than_sign_bang_state(
    t: TokenizerModel,
    source: Places,
    ch: Option<char>,
    position: Position,
)
    requires
        t.read_marked(source, ch, position),
        t.state is CommentLessThanSignBang,
    ensures
        t.comment_less_than_sign_bang_state(ch, position).marked(source),
{
    reveal(TokenizerModel::comment_less_than_sign_bang_state);
}

proof fn marks_comment_less_than_sign_bang_dash_state(
    t: TokenizerModel,
    source: Places,
    ch: Option<char>,
    position: Position,
)
    requires
        t.read_marked(source, ch, position),
        t.state is CommentLessThanSignBangDash,
    ensures
        t.comment_less_than_sign_bang_dash_state(ch, position).marked(source),
{
    reveal(TokenizerModel::comment_less_than_sign_bang_dash_state);
}

proof fn marks_comment_less_than_sign_bang_dash_dash_state(
    t: TokenizerModel,
    source: Places,
    ch: Option<char>,
    position: Position,
)
    requires
        t.read_marked(source, ch, position),
        t.state is CommentLessThanSignBangDashDash,
    ensures
        t.comment_less_than_sign_bang_dash_dash_state(ch, position).marked(source),
{
    reveal(TokenizerModel::comment_less_than_sign_bang_dash_dash_state);
}

proof fn marks_comment_end_dash_state(
    t: TokenizerModel,
    source: Places,
    ch: Option<char>,
    position: Position,
)
    requires
        t.read_marked(source, ch, position),
        t.state is CommentEndDash,
    ensures
        t.comment_end_dash_state(ch, position).marked(source),
{
    reveal(TokenizerModel::comment_end_dash_state);
}

proof fn marks_comment_end_state(
    t: TokenizerModel,
    source: Places,
    ch: Option<char>,
    position: Position,
)
    requires
        t.read_marked(source, ch, position),
        t.state is CommentEnd,
    ensures
        t.comment_end_state(ch, position).marked(source),
{
    reveal(TokenizerModel::comment_end_state);
}

proof fn marks_comment_end_bang_state(
    t: TokenizerModel,
    source: Places,
    ch: Option<char>,
    position: Position,
)
    requires
        t.read_marked(source, ch, position),
        t.state is CommentEndBang,
    ensures
        t.comment_end_bang_state(ch, position).marked(source),
{
    reveal(TokenizerModel::comment_end_bang_state);
}

proof fn marks_doctype_state(
    t: TokenizerModel,
    source: Places,
    ch: Option<char>,
    position: Position,
)
    requires
        t.read_marked(source, ch, position),
        t.state is Doctype,
    ensures
        t.doctype_state(ch, position).marked(source),
{
    reveal(TokenizerModel::doctype_state);
}

proof fn marks_before_doctype_name_state(
    t: TokenizerModel,
    source: Places,
    ch: Option<char>,
    position: Position,
)
    requires
        t.read_marked(source, ch, position),
        t.state is BeforeDoctypeName,
    ensures
        t.before_doctype_name_state(ch, position).marked(source),
{
    reveal(TokenizerModel::before_doctype_name_state);
}

proof fn marks_doctype_name_state(
    t: TokenizerModel,
    source: Places,
    ch: Option<char>,
    position: Position,
)
    requires
        t.read_marked(source, ch, position),
        t.state is DoctypeName,
    ensures
        t.doctype_name_state(ch, position).marked(source),
{
    reveal(TokenizerModel::doctype_name_state);
}

proof fn marks_after_doctype_name_state(
    t: TokenizerModel,
    source: Places,
    ch: Option<char>,
    position: Position,
)
    requires
        t.read_marked(source, ch, position),
        t.state is AfterDoctypeName,
    ensures
        t.after_doctype_name_state(ch, position).marked(source),
{
    reveal(TokenizerModel::after_doctype_name_state);
}

proof fn marks_before_doctype_identifier_state(
    t: TokenizerModel,
    source: Places,
    ch: Option<char>,
    position: Position,
    after_whitespace: State,
    kind: DoctypeIdentifierKind,
    double: State,
    single: State,
)
    requires
        t.read_marked(source, ch, position),
        (t.state is AfterDoctypePublicKeyword
            && after_whitespace == State::BeforeDoctypePublicIdentifier
            && kind == DoctypeIdentifierKind::Public
            && double == State::DoctypePublicIdentifierDoubleQuoted
            && single == State::DoctypePublicIdentifierSingleQuoted)
            || (t.state is BeforeDoctypePublicIdentifier
            && after_whitespace == State::BeforeDoctypePublicIdentifier
            && kind == DoctypeIdentifierKind::Public
            && double == State::DoctypePublicIdentifierDoubleQuoted
            && single == State::DoctypePublicIdentifierSingleQuoted)
            || (t.state is AfterDoctypeSystemKeyword
            && after_whitespace == State::BeforeDoctypeSystemIdentifier
            && kind == DoctypeIdentifierKind::System
            && double == State::DoctypeSystemIdentifierDoubleQuoted
            && single == State::DoctypeSystemIdentifierSingleQuoted)
            || (t.state is BeforeDoctypeSystemIdentifier
            && after_whitespace == State::BeforeDoctypeSystemIdentifier
            && kind == DoctypeIdentifierKind::System
            && double == State::DoctypeSystemIdentifierDoubleQuoted
            && single == State::DoctypeSystemIdentifierSingleQuoted),
    ensures
        t.before_doctype_identifier_state(
            ch,
            position,
            after_whitespace,
            kind,
            double,
            single,
        ).marked(source),
{
    reveal(TokenizerModel::before_doctype_identifier_state);
}

proof fn marks_doctype_identifier_quoted_state(
    t: TokenizerModel,
    source: Places,
    ch: Option<char>,
    position: Position,
    quote: char,
    kind: DoctypeIdentifierKind,
    after: State,
)
    requires
        t.read_marked(source, ch, position),
        (t.state is DoctypePublicIdentifierDoubleQuoted && quote == '"'
            && kind == DoctypeIdentifierKind::Public
            && after == State::AfterDoctypePublicIdentifier)
            || (t.state is DoctypePublicIdentifierSingleQuoted && quote == '\''
            && kind == DoctypeIdentifierKind::Public
            && after == State::AfterDoctypePublicIdentifier)
            || (t.state is DoctypeSystemIdentifierDoubleQuoted && quote == '"'
            && kind == DoctypeIdentifierKind::System
            && after == State::AfterDoctypeSystemIdentifier)
            || (t.state is DoctypeSystemIdentifierSingleQuoted && quote == '\''
            && kind == DoctypeIdentifierKind::System
            && after == State::AfterDoctypeSystemIdentifier),
    ensures
        t.doctype_identifier_quoted_state(ch, position, quote, kind, after).marked(source),
{
    reveal(TokenizerModel::doctype_identifier_quoted_state);
}

proof fn marks_after_doctype_public_identifier_state(
    t: TokenizerModel,
    source: Places,
    ch: Option<char>,
    position: Position,
)
    requires
        t.read_marked(source, ch, position),
        t.state is AfterDoctypePublicIdentifier,
    ensures
        t.after_doctype_public_identifier_state(ch, position).marked(source),
{
    reveal(TokenizerModel::after_doctype_public_identifier_state);
}

proof fn marks_between_doctype_identifiers_state(
    t: TokenizerModel,
    source: Places,
    ch: Option<char>,
    position: Position,
)
    requires
        t.read_marked(source, ch, position),
        t.state is BetweenDoctypePublicAndSystemIdentifiers,
    ensures
        t.between_doctype_identifiers_state(ch, position).marked(source),
{
    reveal(TokenizerModel::between_doctype_identifiers_state);
}

proof fn marks_after_doctype_system_identifier_state(
    t: TokenizerModel,
    source: Places,
    ch: Option<char>,
    position: Position,
)
    requires
        t.read_marked(source, ch, position),
        t.state is AfterDoctypeSystemIdentifier,
    ensures
        t.after_doctype_system_identifier_state(ch, position).marked(source),
{
    reveal(TokenizerModel::after_doctype_system_identifier_state);
}

proof fn marks_bogus_doctype_rest_state(
    t: TokenizerModel,
    source: Places,
    ch: Option<char>,
    position: Position,
)
    requires
        t.read_marked(source, ch, position),
        t.state is BogusDoctype,
    ensures
        t.bogus_doctype_rest_state(ch, position).marked(source),
{
    reveal(TokenizerModel::bogus_doctype_rest_state);
}

proof fn marks_processing_instruction_open_state(
    t: TokenizerModel,
    source: Places,
    ch: Option<char>,
    position: Position,
)
    requires
        t.read_marked(source, ch, position),
        t.state is ProcessingInstructionOpen,
    ensures
        t.processing_instruction_open_state(ch, position).marked(source),
{
    reveal(TokenizerModel::processing_instruction_open_state);
}

proof fn marks_processing_instruction_target_state(
    t: TokenizerModel,
    source: Places,
    ch: Option<char>,
    position: Position,
)
    requires
        t.read_marked(source, ch, position),
        t.state is ProcessingInstructionTarget,
    ensures
        t.processing_instruction_target_state(ch, position).marked(source),
{
    reveal(TokenizerModel::processing_instruction_target_state);
}

proof fn marks_after_processing_instruction_target_state(
    t: TokenizerModel,
    source: Places,
    ch: Option<char>,
    position: Position,
)
    requires
        t.read_marked(source, ch, position),
        t.state is AfterProcessingInstructionTarget,
    ensures
        t.after_processing_instruction_target_state(ch, position).marked(source),
{
    reveal(TokenizerModel::after_processing_instruction_target_state);
}

proof fn marks_processing_instruction_data_state(
    t: TokenizerModel,
    source: Places,
    ch: Option<char>,
    position: Position,
)
    requires
        t.read_marked(source, ch, position),
        t.state is ProcessingInstructionData,
    ensures
        t.processing_instruction_data_state(ch, position).marked(source),
{
    reveal(TokenizerModel::processing_instruction_data_state);
}

proof fn marks_processing_instruction_questionable_state(
    t: TokenizerModel,
    source: Places,
    ch: Option<char>,
    position: Position,
)
    requires
        t.read_marked(source, ch, position),
        t.state is ProcessingInstructionQuestionable,
    ensures
        t.processing_instruction_questionable_state(ch, position).marked(source),
{
    reveal(TokenizerModel::processing_instruction_questionable_state);
}

proof fn marks_rcdata_state(
    t: TokenizerModel,
    source: Places,
    ch: Option<char>,
    position: Position,
)
    requires
        t.read_marked(source, ch, position),
        t.state is RcData,
    ensures
        t.rcdata_state(ch, position).marked(source),
{
    reveal(TokenizerModel::rcdata_state);
    if ch is Some {
        marks_emit(t, source, ch->0, position);
    }
}

proof fn marks_raw_text_state(
    t: TokenizerModel,
    source: Places,
    ch: Option<char>,
    position: Position,
    less_than_sign: State,
)
    requires
        t.read_marked(source, ch, position),
        (t.state is RawText && less_than_sign == State::RawTextLessThanSign)
            || (t.state is ScriptData && less_than_sign == State::ScriptDataLessThanSign),
    ensures
        t.raw_text_state(ch, position, less_than_sign).marked(source),
{
    reveal(TokenizerModel::raw_text_state);
    if ch is Some {
        marks_emit(t, source, ch->0, position);
    }
}

proof fn marks_text_less_than_sign_state(
    t: TokenizerModel,
    source: Places,
    ch: Option<char>,
    position: Position,
    end_tag_open: State,
    text: State,
)
    requires
        t.read_marked(source, ch, position),
        (t.state is RcDataLessThanSign && end_tag_open == State::RcDataEndTagOpen
            && text == State::RcData)
            || (t.state is RawTextLessThanSign && end_tag_open == State::RawTextEndTagOpen
            && text == State::RawText),
    ensures
        t.text_less_than_sign_state(ch, position, end_tag_open, text).marked(source),
{
    reveal(TokenizerModel::text_less_than_sign_state);
}

proof fn marks_text_end_tag_open_state(
    t: TokenizerModel,
    source: Places,
    ch: Option<char>,
    position: Position,
    end_tag_name: State,
    text: State,
)
    requires
        t.read_marked(source, ch, position),
        (t.state is RcDataEndTagOpen && end_tag_name == State::RcDataEndTagName
            && text == State::RcData)
            || (t.state is RawTextEndTagOpen && end_tag_name == State::RawTextEndTagName
            && text == State::RawText)
            || (t.state is ScriptDataEndTagOpen && end_tag_name == State::ScriptDataEndTagName
            && text == State::ScriptData)
            || (t.state is ScriptDataEscapedEndTagOpen
            && end_tag_name == State::ScriptDataEscapedEndTagName
            && text == State::ScriptDataEscaped),
    ensures
        t.text_end_tag_open_state(ch, position, end_tag_name, text).marked(source),
{
    reveal(TokenizerModel::text_end_tag_open_state);
}

proof fn marks_text_end_tag_name_state(
    t: TokenizerModel,
    source: Places,
    ch: Option<char>,
    position: Position,
    text: State,
)
    requires
        t.read_marked(source, ch, position),
        (t.state is RcDataEndTagName && text == State::RcData)
            || (t.state is RawTextEndTagName && text == State::RawText)
            || (t.state is ScriptDataEndTagName && text == State::ScriptData)
            || (t.state is ScriptDataEscapedEndTagName && text == State::ScriptDataEscaped),
    ensures
        t.text_end_tag_name_state(ch, position, text).marked(source),
{
    reveal(TokenizerModel::text_end_tag_name_state);
    let start = t.emit_less_than().emit_slash();
    lemma_emit_buffer(start, t.end_tag_buffer, t.slash_index);
    marks_emit_buffer(start, source, t.end_tag_buffer, t.slash_index);
}

proof fn marks_plain_text_state(
    t: TokenizerModel,
    source: Places,
    ch: Option<char>,
    position: Position,
)
    requires
        t.read_marked(source, ch, position),
        t.state is PlainText,
    ensures
        t.plain_text_state(ch, position).marked(source),
{
    reveal(TokenizerModel::plain_text_state);
    if ch is Some {
        marks_emit(t, source, ch->0, position);
    }
}

proof fn marks_script_data_less_than_sign_state(
    t: TokenizerModel,
    source: Places,
    ch: Option<char>,
    position: Position,
)
    requires
        t.read_marked(source, ch, position),
        t.state is ScriptDataLessThanSign,
    ensures
        t.script_data_less_than_sign_state(ch, position).marked(source),
{
    reveal(TokenizerModel::script_data_less_than_sign_state);
}

proof fn marks_script_data_escape_start_state(
    t: TokenizerModel,
    source: Places,
    ch: Option<char>,
    position: Position,
    dash: State,
)
    requires
        t.read_marked(source, ch, position),
        (t.state is ScriptDataEscapeStart && dash == State::ScriptDataEscapeStartDash)
            || (t.state is ScriptDataEscapeStartDash && dash == State::ScriptDataEscapedDashDash),
    ensures
        t.script_data_escape_start_state(ch, position, dash).marked(source),
{
    reveal(TokenizerModel::script_data_escape_start_state);
}

proof fn marks_script_data_escaped_state(
    t: TokenizerModel,
    source: Places,
    ch: Option<char>,
    position: Position,
)
    requires
        t.read_marked(source, ch, position),
        t.state is ScriptDataEscaped,
    ensures
        t.script_data_escaped_state(ch, position).marked(source),
{
    reveal(TokenizerModel::script_data_escaped_state);
    if ch is Some {
        marks_emit(t, source, ch->0, position);
    }
}

proof fn marks_script_data_escaped_dash_state(
    t: TokenizerModel,
    source: Places,
    ch: Option<char>,
    position: Position,
)
    requires
        t.read_marked(source, ch, position),
        t.state is ScriptDataEscapedDash,
    ensures
        t.script_data_escaped_dash_state(ch, position).marked(source),
{
    reveal(TokenizerModel::script_data_escaped_dash_state);
    if ch is Some {
        marks_emit(t, source, ch->0, position);
    }
}

proof fn marks_script_data_escaped_dash_dash_state(
    t: TokenizerModel,
    source: Places,
    ch: Option<char>,
    position: Position,
)
    requires
        t.read_marked(source, ch, position),
        t.state is ScriptDataEscapedDashDash,
    ensures
        t.script_data_escaped_dash_dash_state(ch, position).marked(source),
{
    reveal(TokenizerModel::script_data_escaped_dash_dash_state);
    if ch is Some {
        marks_emit(t, source, ch->0, position);
    }
}

proof fn marks_script_data_escaped_less_than_sign_state(
    t: TokenizerModel,
    source: Places,
    ch: Option<char>,
    position: Position,
)
    requires
        t.read_marked(source, ch, position),
        t.state is ScriptDataEscapedLessThanSign,
    ensures
        t.script_data_escaped_less_than_sign_state(ch, position).marked(source),
{
    reveal(TokenizerModel::script_data_escaped_less_than_sign_state);
}

proof fn marks_script_data_double_escape_state(
    t: TokenizerModel,
    source: Places,
    ch: Option<char>,
    position: Position,
    script: State,
    other: State,
)
    requires
        t.read_marked(source, ch, position),
        (t.state is ScriptDataDoubleEscapeStart && script == State::ScriptDataDoubleEscaped
            && other == State::ScriptDataEscaped)
            || (t.state is ScriptDataDoubleEscapeEnd && script == State::ScriptDataEscaped
            && other == State::ScriptDataDoubleEscaped),
    ensures
        t.script_data_double_escape_state(ch, position, script, other).marked(source),
{
    reveal(TokenizerModel::script_data_double_escape_state);
}

proof fn marks_script_data_double_escaped_state(
    t: TokenizerModel,
    source: Places,
    ch: Option<char>,
    position: Position,
)
    requires
        t.read_marked(source, ch, position),
        t.state is ScriptDataDoubleEscaped,
    ensures
        t.script_data_double_escaped_state(ch, position).marked(source),
{
    reveal(TokenizerModel::script_data_double_escaped_state);
    if ch is Some {
        marks_emit(t, source, ch->0, position);
    }
}

proof fn marks_script_data_double_escaped_dash_state(
    t: TokenizerModel,
    source: Places,
    ch: Option<char>,
    position: Position,
)
    requires
        t.read_marked(source, ch, position),
        t.state is ScriptDataDoubleEscapedDash,
    ensures
        t.script_data_double_escaped_dash_state(ch, position).marked(source),
{
    reveal(TokenizerModel::script_data_double_escaped_dash_state);
    if ch is Some {
        marks_emit(t, source, ch->0, position);
    }
}

proof fn marks_script_data_double_escaped_dash_dash_state(
    t: TokenizerModel,
    source: Places,
    ch: Option<char>,
    position: Position,
)
    requires
        t.read_marked(source, ch, position),
        t.state is ScriptDataDoubleEscapedDashDash,
    ensures
        t.script_data_double_escaped_dash_dash_state(ch, position).marked(source),
{
    reveal(TokenizerModel::script_data_double_escaped_dash_dash_state);
    if ch is Some {
        marks_emit(t, source, ch->0, position);
    }
}

proof fn marks_script_data_double_escaped_less_than_sign_state(
    t: TokenizerModel,
    source: Places,
    ch: Option<char>,
    position: Position,
)
    requires
        t.read_marked(source, ch, position),
        t.state is ScriptDataDoubleEscapedLessThanSign,
    ensures
        t.script_data_double_escaped_less_than_sign_state(ch, position).marked(source),
{
    reveal(TokenizerModel::script_data_double_escaped_less_than_sign_state);
}

proof fn marks_cdata_section_state(
    t: TokenizerModel,
    source: Places,
    ch: Option<char>,
    position: Position,
)
    requires
        t.read_marked(source, ch, position),
        t.state is CdataSection,
    ensures
        t.cdata_section_state(ch, position).marked(source),
{
    reveal(TokenizerModel::cdata_section_state);
    if ch is Some {
        marks_emit(t, source, ch->0, position);
    }
}

proof fn marks_cdata_section_bracket_state(
    t: TokenizerModel,
    source: Places,
    ch: Option<char>,
    position: Position,
)
    requires
        t.read_marked(source, ch, position),
        t.state is CdataSectionBracket,
    ensures
        t.cdata_section_bracket_state(ch, position).marked(source),
{
    reveal(TokenizerModel::cdata_section_bracket_state);
}

proof fn marks_cdata_section_end_state(
    t: TokenizerModel,
    source: Places,
    ch: Option<char>,
    position: Position,
)
    requires
        t.read_marked(source, ch, position),
        t.state is CdataSectionEnd,
    ensures
        t.cdata_section_end_state(ch, position).marked(source),
{
    reveal(TokenizerModel::cdata_section_end_state);
    marks_emit_brackets(t, source);
}

/// Every step keeps everything at its place.
pub proof fn lemma_step_keeps_marks(
    t: TokenizerModel,
    source: Places,
    ch: Option<char>,
    position: Position,
)
    requires
        t.read_marked(source, ch, position),
    ensures
        t.step(ch, position).marked(source),
{
    reveal(TokenizerModel::step);
    match t.state {
        State::Data => marks_data_state(t, source, ch, position),
        State::TagOpen => marks_tag_open_state(t, source, ch, position),
        State::EndTagOpen => marks_end_tag_open_state(t, source, ch, position),
        State::TagName => marks_tag_name_state(t, source, ch, position),
        State::BeforeAttributeName => marks_before_attribute_name_state(t, source, ch, position),
        State::AttributeName => marks_attribute_name_state(t, source, ch, position),
        State::AfterAttributeName => marks_after_attribute_name_state(t, source, ch, position),
        State::BeforeAttributeValue => marks_before_attribute_value_state(t, source, ch, position),
        State::AttributeValueDoubleQuoted => {
            marks_attribute_value_quoted_state(t, source, ch, position,
                '"',
                State::AttributeValueDoubleQuoted,
            )
        },
        State::AttributeValueSingleQuoted => {
            marks_attribute_value_quoted_state(t, source, ch, position,
                '\'',
                State::AttributeValueSingleQuoted,
            )
        },
        State::AttributeValueUnquoted => {
            marks_attribute_value_unquoted_state(t, source, ch, position)
        },
        State::AfterAttributeValueQuoted => {
            marks_after_attribute_value_quoted_state(t, source, ch, position)
        },
        State::SelfClosingStartTag => marks_self_closing_start_tag_state(t, source, ch, position),
        State::CharacterReference => marks_character_reference_state(t, source, ch, position),
        State::NamedCharacterReference => marks_named_reference(t, source, ch),
        State::AmbiguousAmpersand => marks_ambiguous_ampersand_state(t, source, ch, position),
        State::NumericCharacterReference => {
            marks_numeric_character_reference_state(t, source, ch, position)
        },
        State::HexadecimalCharacterReferenceStart => {
            marks_hexadecimal_character_reference_start_state(t, source, ch, position)
        },
        State::HexadecimalCharacterReference => {
            marks_hexadecimal_character_reference_state(t, source, ch, position)
        },
        State::DecimalCharacterReference => {
            marks_decimal_character_reference_state(t, source, ch, position)
        },
        State::NumericCharacterReferenceEnd => {
            marks_numeric_character_reference_end_state(t, source, ch, position)
        },
        State::MarkupDeclarationOpen => {
            marks_markup_declaration(t, source, ch);
        },
        State::BogusComment => marks_bogus_comment_state(t, source, ch, position),
        State::CommentStart => marks_comment_start_state(t, source, ch, position),
        State::CommentStartDash => marks_comment_start_dash_state(t, source, ch, position),
        State::Comment => marks_comment_state(t, source, ch, position),
        State::CommentLessThanSign => marks_comment_less_than_sign_state(t, source, ch, position),
        State::CommentLessThanSignBang => {
            marks_comment_less_than_sign_bang_state(t, source, ch, position)
        },
        State::CommentLessThanSignBangDash => {
            marks_comment_less_than_sign_bang_dash_state(t, source, ch, position)
        },
        State::CommentLessThanSignBangDashDash => {
            marks_comment_less_than_sign_bang_dash_dash_state(t, source, ch, position)
        },
        State::CommentEndDash => marks_comment_end_dash_state(t, source, ch, position),
        State::CommentEnd => marks_comment_end_state(t, source, ch, position),
        State::CommentEndBang => marks_comment_end_bang_state(t, source, ch, position),
        State::Doctype => marks_doctype_state(t, source, ch, position),
        State::BeforeDoctypeName => marks_before_doctype_name_state(t, source, ch, position),
        State::DoctypeName => marks_doctype_name_state(t, source, ch, position),
        State::AfterDoctypeName => marks_after_doctype_name_state(t, source, ch, position),
        State::AfterDoctypePublicKeyword => {
            marks_before_doctype_identifier_state(t, source, ch, position,
                State::BeforeDoctypePublicIdentifier,
                DoctypeIdentifierKind::Public,
                State::DoctypePublicIdentifierDoubleQuoted,
                State::DoctypePublicIdentifierSingleQuoted,
            )
        },
        State::BeforeDoctypePublicIdentifier => {
            marks_before_doctype_identifier_state(t, source, ch, position,
                State::BeforeDoctypePublicIdentifier,
                DoctypeIdentifierKind::Public,
                State::DoctypePublicIdentifierDoubleQuoted,
                State::DoctypePublicIdentifierSingleQuoted,
            )
        },
        State::DoctypePublicIdentifierDoubleQuoted => {
            marks_doctype_identifier_quoted_state(t, source, ch, position,
                '"',
                DoctypeIdentifierKind::Public,
                State::AfterDoctypePublicIdentifier,
            )
        },
        State::DoctypePublicIdentifierSingleQuoted => {
            marks_doctype_identifier_quoted_state(t, source, ch, position,
                '\'',
                DoctypeIdentifierKind::Public,
                State::AfterDoctypePublicIdentifier,
            )
        },
        State::AfterDoctypePublicIdentifier => {
            marks_after_doctype_public_identifier_state(t, source, ch, position)
        },
        State::BetweenDoctypePublicAndSystemIdentifiers => {
            marks_between_doctype_identifiers_state(t, source, ch, position)
        },
        State::AfterDoctypeSystemKeyword => {
            marks_before_doctype_identifier_state(t, source, ch, position,
                State::BeforeDoctypeSystemIdentifier,
                DoctypeIdentifierKind::System,
                State::DoctypeSystemIdentifierDoubleQuoted,
                State::DoctypeSystemIdentifierSingleQuoted,
            )
        },
        State::BeforeDoctypeSystemIdentifier => {
            marks_before_doctype_identifier_state(t, source, ch, position,
                State::BeforeDoctypeSystemIdentifier,
                DoctypeIdentifierKind::System,
                State::DoctypeSystemIdentifierDoubleQuoted,
                State::DoctypeSystemIdentifierSingleQuoted,
            )
        },
        State::DoctypeSystemIdentifierDoubleQuoted => {
            marks_doctype_identifier_quoted_state(t, source, ch, position,
                '"',
                DoctypeIdentifierKind::System,
                State::AfterDoctypeSystemIdentifier,
            )
        },
        State::DoctypeSystemIdentifierSingleQuoted => {
            marks_doctype_identifier_quoted_state(t, source, ch, position,
                '\'',
                DoctypeIdentifierKind::System,
                State::AfterDoctypeSystemIdentifier,
            )
        },
        State::AfterDoctypeSystemIdentifier => {
            marks_after_doctype_system_identifier_state(t, source, ch, position)
        },
        State::BogusDoctype => marks_bogus_doctype_rest_state(t, source, ch, position),
        State::ProcessingInstructionOpen => {
            marks_processing_instruction_open_state(t, source, ch, position)
        },
        State::ProcessingInstructionTarget => {
            marks_processing_instruction_target_state(t, source, ch, position)
        },
        State::AfterProcessingInstructionTarget => {
            marks_after_processing_instruction_target_state(t, source, ch, position)
        },
        State::ProcessingInstructionData => {
            marks_processing_instruction_data_state(t, source, ch, position)
        },
        State::ProcessingInstructionQuestionable => {
            marks_processing_instruction_questionable_state(t, source, ch, position)
        },
        State::RcData => marks_rcdata_state(t, source, ch, position),
        State::RcDataLessThanSign => {
            marks_text_less_than_sign_state(
                t,
                source,
                ch,
                position,
                State::RcDataEndTagOpen,
                State::RcData,
            )
        },
        State::RcDataEndTagOpen => {
            marks_text_end_tag_open_state(
                t,
                source,
                ch,
                position,
                State::RcDataEndTagName,
                State::RcData,
            )
        },
        State::RcDataEndTagName => {
            marks_text_end_tag_name_state(t, source, ch, position, State::RcData)
        },
        State::RawText => marks_raw_text_state(t, source, ch, position, State::RawTextLessThanSign),
        State::RawTextLessThanSign => {
            marks_text_less_than_sign_state(t, source, ch, position,
                State::RawTextEndTagOpen,
                State::RawText,
            )
        },
        State::RawTextEndTagOpen => {
            marks_text_end_tag_open_state(
                t,
                source,
                ch,
                position,
                State::RawTextEndTagName,
                State::RawText,
            )
        },
        State::RawTextEndTagName => {
            marks_text_end_tag_name_state(t, source, ch, position, State::RawText)
        },
        State::PlainText => marks_plain_text_state(t, source, ch, position),
        State::ScriptData => {
            marks_raw_text_state(t, source, ch, position, State::ScriptDataLessThanSign)
        },
        State::ScriptDataLessThanSign => {
            marks_script_data_less_than_sign_state(t, source, ch, position)
        },
        State::ScriptDataEndTagOpen => {
            marks_text_end_tag_open_state(t, source, ch, position,
                State::ScriptDataEndTagName,
                State::ScriptData,
            )
        },
        State::ScriptDataEndTagName => {
            marks_text_end_tag_name_state(t, source, ch, position, State::ScriptData)
        },
        State::ScriptDataEscapeStart => {
            marks_script_data_escape_start_state(
                t,
                source,
                ch,
                position,
                State::ScriptDataEscapeStartDash,
            )
        },
        State::ScriptDataEscapeStartDash => {
            marks_script_data_escape_start_state(
                t,
                source,
                ch,
                position,
                State::ScriptDataEscapedDashDash,
            )
        },
        State::ScriptDataEscaped => marks_script_data_escaped_state(t, source, ch, position),
        State::ScriptDataEscapedDash => {
            marks_script_data_escaped_dash_state(t, source, ch, position)
        },
        State::ScriptDataEscapedDashDash => {
            marks_script_data_escaped_dash_dash_state(t, source, ch, position)
        },
        State::ScriptDataEscapedLessThanSign => {
            marks_script_data_escaped_less_than_sign_state(t, source, ch, position)
        },
        State::ScriptDataEscapedEndTagOpen => {
            marks_text_end_tag_open_state(t, source, ch, position,
                State::ScriptDataEscapedEndTagName,
                State::ScriptDataEscaped,
            )
        },
        State::ScriptDataEscapedEndTagName => {
            marks_text_end_tag_name_state(t, source, ch, position, State::ScriptDataEscaped)
        },
        State::ScriptDataDoubleEscapeStart => {
            marks_script_data_double_escape_state(t, source, ch, position,
                State::ScriptDataDoubleEscaped,
                State::ScriptDataEscaped,
            )
        },
        State::ScriptDataDoubleEscaped => {
            marks_script_data_double_escaped_state(t, source, ch, position)
        },
        State::ScriptDataDoubleEscapedDash => {
            marks_script_data_double_escaped_dash_state(t, source, ch, position)
        },
        State::ScriptDataDoubleEscapedDashDash => {
            marks_script_data_double_escaped_dash_dash_state(t, source, ch, position)
        },
        State::ScriptDataDoubleEscapedLessThanSign => {
            marks_script_data_double_escaped_less_than_sign_state(t, source, ch, position)
        },
        State::ScriptDataDoubleEscapeEnd => {
            marks_script_data_double_escape_state(t, source, ch, position,
                State::ScriptDataEscaped,
                State::ScriptDataDoubleEscaped,
            )
        },
        State::CdataSection => marks_cdata_section_state(t, source, ch, position),
        State::CdataSectionBracket => marks_cdata_section_bracket_state(t, source, ch, position),
        State::CdataSectionEnd => marks_cdata_section_end_state(t, source, ch, position),
    }
}

proof fn marks_run(t: TokenizerModel, source: Places)
    requires
        t.marked(source),
        t.inv(),
        !t.eof_returned,
        t.chars == source.chars,
        t.positions == source.positions,
    ensures
        t.run().marked(source),
    decreases t.remaining(),
{
    if t.pending.len() == 0 {
        let position = t.positions[t.index];
        lemma_step(t.consume(), t.peek(), position);
        assert(t.peek() == Some('<') ==> source.holds_markup(position)) by {
            reveal(Places::holds_markup);
            assert(source.positions[t.index] == position);
        }
        lemma_step_keeps_marks(t.consume(), source, t.peek(), position);
        let next = t.advance();
        if next.pending.len() == 0 && 0 <= next.remaining() < t.remaining() {
            marks_run(next, source);
        }
    }
}

/// A token that is given out starts at a place of the source; unless it is a
/// character or the end of the file, a `<` stands there.
pub proof fn lemma_next_marked(t: TokenizerModel, source: Places)
    requires
        t.marked(source),
        t.inv(),
        t.chars == source.chars,
        t.positions == source.positions,
    ensures
        t.next().1.marked(source),
        t.next().0 matches Some(token) ==> token_marked(source, token),
{
    if !t.eof_returned {
        lemma_run(t);
        marks_run(t, source);
        let ready = t.run();
        let after = ready.take_token();
        assert forall|i: int| 0 <= i < after.pending.len() implies #[trigger] after.pending[i]
            == ready.pending[i + 1] by {}
    }
}

/// What tree construction tells the tokenizer keeps everything at its place.
pub proof fn lemma_feedback_keeps_marks(
    t: TokenizerModel,
    source: Places,
    state: ExternalState,
    in_foreign_content: bool,
)
    requires
        t.marked(source),
    ensures
        t.switch_to(state).marked(source),
        t.set_in_foreign_content(in_foreign_content).marked(source),
{
}

/// At the start of a source nothing is out of place.
pub proof fn lemma_start_marked(source: Seq<char>)
    ensures
        start(source).marked(places_of(source)),
{
    let places = places_of(source);
    reveal(Places::holds);
    lemma_source_lengths(source, start_of_source());
    assert(places.positions[0] == start_of_source().position());
    assert forall|i: int| 0 <= i < places.positions.len() implies places.holds(
        #[trigger] places.positions[i],
    ) by {}
}

} // verus!
