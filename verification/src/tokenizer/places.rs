//! What is read does not depend on byte offsets: two tokenizers that differ in
//! those alone give out the same tokens, at the same lines and columns.
use vstd::prelude::*;

use crate::entities::{lemma_longest_reference, longest_reference, references};
use crate::token::{ParseError, ParseErrorKind, Position, TokenModel};
use crate::tokenizer::model::{DoctypeIdentifierKind, ExternalState, State, TokenizerModel};
use crate::tokenizer::progress::lemma_step;

verus! {

/// The two positions are on the same line, in the same column.
pub open spec fn same_place(a: Position, b: Position) -> bool {
    a.line == b.line && a.column == b.column
}

/// The positions are pairwise in the same place.
pub open spec fn same_places(a: Seq<Position>, b: Seq<Position>) -> bool {
    &&& a.len() == b.len()
    &&& forall|i: int|
        #![trigger a[i]]
        #![trigger b[i]]
        0 <= i < a.len() ==> same_place(a[i], b[i])
}

/// The tokens are pairwise of the same kind, in the same place.
pub open spec fn same_tokens(a: Seq<TokenModel>, b: Seq<TokenModel>) -> bool {
    &&& a.len() == b.len()
    &&& forall|i: int|
        #![trigger a[i]]
        #![trigger b[i]]
        0 <= i < a.len() ==> a[i].kind == b[i].kind && same_place(a[i].position, b[i].position)
}

/// The errors are pairwise of the same kind, in the same place.
pub open spec fn same_errors(a: Seq<ParseError>, b: Seq<ParseError>) -> bool {
    &&& a.len() == b.len()
    &&& forall|i: int|
        #![trigger a[i]]
        #![trigger b[i]]
        0 <= i < a.len() ==> a[i].kind == b[i].kind && same_place(a[i].position, b[i].position)
}

impl TokenizerModel {
    /// The two tokenizers differ in byte offsets at most.
    pub open spec fn alike(self, other: Self) -> bool {
        &&& other == TokenizerModel {
            positions: other.positions,
            current_tag_start: other.current_tag_start,
            pending_brackets: other.pending_brackets,
            pending: other.pending,
            errors: other.errors,
            ..self
        }
        &&& same_places(self.positions, other.positions)
        &&& same_place(self.current_tag_start, other.current_tag_start)
        &&& same_places(self.pending_brackets, other.pending_brackets)
        &&& same_tokens(self.pending, other.pending)
        &&& same_errors(self.errors, other.errors)
    }
}

proof fn alike_emit_character(
    t: TokenizerModel,
    u: TokenizerModel,
    c: char,
    position: Position,
    other: Position,
)
    requires
        t.alike(u),
        same_place(position, other),
    ensures
        t.emit_character(c, position).alike(u.emit_character(c, other)),
{
}

proof fn alike_flush_character(
    t: TokenizerModel,
    u: TokenizerModel,
    c: char,
    position: Position,
    other: Position,
)
    requires
        t.alike(u),
        same_place(position, other),
    ensures
        t.flush_character(c, position).alike(u.flush_character(c, other)),
{
}

proof fn alike_flush_input(t: TokenizerModel, u: TokenizerModel, from: int, to: int)
    requires
        t.alike(u),
        0 <= from,
        to <= t.positions.len(),
    ensures
        t.flush_input(from, to).alike(u.flush_input(from, to)),
    decreases to - from,
{
    if from < to {
        alike_flush_character(t, u, t.chars[from], t.positions[from], u.positions[from]);
        alike_flush_input(
            t.flush_character(t.chars[from], t.positions[from]),
            u.flush_character(u.chars[from], u.positions[from]),
            from + 1,
            to,
        );
    }
}

proof fn alike_flush_text(
    t: TokenizerModel,
    u: TokenizerModel,
    text: Seq<char>,
    position: Position,
    other: Position,
)
    requires
        t.alike(u),
        same_place(position, other),
    ensures
        t.flush_text(text, position).alike(u.flush_text(text, other)),
    decreases text.len(),
{
    if text.len() > 0 {
        alike_flush_character(t, u, text[0], position, other);
        alike_flush_text(
            t.flush_character(text[0], position),
            u.flush_character(text[0], other),
            text.drop_first(),
            position,
            other,
        );
    }
}

proof fn alike_emit_buffer(t: TokenizerModel, u: TokenizerModel, text: Seq<char>, at: int)
    requires
        t.alike(u),
        t.positions.len() == t.chars.len() + 1,
        0 <= at <= t.chars.len(),
    ensures
        t.emit_buffer(text, at).alike(u.emit_buffer(text, at)),
    decreases text.len(),
{
    if text.len() > 0 {
        let next = t.index_after(at);
        alike_emit_character(t, u, text[0], t.positions[next], u.positions[next]);
        alike_emit_buffer(
            t.emit_character(text[0], t.positions[next]),
            u.emit_character(text[0], u.positions[next]),
            text.drop_first(),
            next,
        );
    }
}

proof fn alike_emit_brackets(t: TokenizerModel, u: TokenizerModel)
    requires
        t.alike(u),
    ensures
        t.emit_brackets().alike(u.emit_brackets()),
    decreases t.pending_brackets.len(),
{
    if t.pending_brackets.len() > 0 {
        alike_emit_brackets(t.emit_oldest_bracket(), u.emit_oldest_bracket());
    }
}

proof fn alike_abandon_reference(t: TokenizerModel, u: TokenizerModel, ch: Option<char>)
    requires
        t.alike(u),
        t.wf(),
    ensures
        t.abandon_reference(ch).alike(u.abandon_reference(ch)),
{
    let before = t.unread(ch);
    alike_flush_input(before, u.unread(ch), before.reference_start, before.index);
}

proof fn alike_named_reference(t: TokenizerModel, u: TokenizerModel, ch: Option<char>)
    requires
        t.alike(u),
        t.has_read(ch),
    ensures
        t.unread(ch).named_reference().alike(u.unread(ch).named_reference()),
{
    let v = t.unread(ch);
    let w = u.unread(ch);
    let text = v.chars.skip(v.index);
    let table = references(text[0]);
    let position = v.positions[v.reference_start];
    let other = w.positions[w.reference_start];
    assert(same_place(position, other));
    if v.index < v.chars.len() {
        match longest_reference(table, text) {
            Some(i) => {
                lemma_longest_reference(table, text);
                let kind = ParseErrorKind::MissingSemicolonAfterCharacterReference;
                let name = table[i].1@;
                let end = TokenizerModel { index: v.index + table[i].0@.len(), ..v };
                let there = TokenizerModel { index: w.index + table[i].0@.len(), ..w };
                alike_flush_input(end, there, end.reference_start, end.index);
                alike_flush_text(end, there, name, position, other);
                alike_flush_text(
                    end.error(kind, position),
                    there.error(kind, other),
                    name,
                    position,
                    other,
                );
            },
            None => {},
        }
    }
}

proof fn alike_markup_declaration(t: TokenizerModel, u: TokenizerModel)
    requires
        t.alike(u),
        t.wf(),
    ensures
        t.markup_declaration().alike(u.markup_declaration()),
{
    let after = t.skip_input("[CDATA["@.len() as int);
    let there = u.skip_input("[CDATA["@.len() as int);
    if t.looking_at(t.index, "[CDATA["@) {
        assert(same_place(after.positions[after.index], there.positions[there.index]));
    }
    assert(same_place(t.positions[t.index], u.positions[u.index]));
}

proof fn alike_data_state(
    t: TokenizerModel,
    u: TokenizerModel,
    ch: Option<char>,
    position: Position,
    other: Position,
)
    requires
        t.alike(u),
        t.has_read(ch),
        same_place(position, other),
    ensures
        t.data_state(ch, position).alike(u.data_state(ch, other)),
{
    reveal(TokenizerModel::data_state);
    if ch is Some {
        alike_emit_character(t, u, ch->0, position, other);
    }
}

proof fn alike_tag_open_state(
    t: TokenizerModel,
    u: TokenizerModel,
    ch: Option<char>,
    position: Position,
    other: Position,
)
    requires
        t.alike(u),
        t.has_read(ch),
        same_place(position, other),
    ensures
        t.tag_open_state(ch, position).alike(u.tag_open_state(ch, other)),
{
    reveal(TokenizerModel::tag_open_state);
}

proof fn alike_end_tag_open_state(
    t: TokenizerModel,
    u: TokenizerModel,
    ch: Option<char>,
    position: Position,
    other: Position,
)
    requires
        t.alike(u),
        t.has_read(ch),
        same_place(position, other),
    ensures
        t.end_tag_open_state(ch, position).alike(u.end_tag_open_state(ch, other)),
{
    reveal(TokenizerModel::end_tag_open_state);
}

proof fn alike_tag_name_state(
    t: TokenizerModel,
    u: TokenizerModel,
    ch: Option<char>,
    position: Position,
    other: Position,
)
    requires
        t.alike(u),
        t.has_read(ch),
        same_place(position, other),
    ensures
        t.tag_name_state(ch, position).alike(u.tag_name_state(ch, other)),
{
    reveal(TokenizerModel::tag_name_state);
}

proof fn alike_before_attribute_name_state(
    t: TokenizerModel,
    u: TokenizerModel,
    ch: Option<char>,
    position: Position,
    other: Position,
)
    requires
        t.alike(u),
        t.has_read(ch),
        same_place(position, other),
    ensures
        t.before_attribute_name_state(ch, position).alike(u.before_attribute_name_state(ch, other)),
{
    reveal(TokenizerModel::before_attribute_name_state);
}

proof fn alike_attribute_name_state(
    t: TokenizerModel,
    u: TokenizerModel,
    ch: Option<char>,
    position: Position,
    other: Position,
)
    requires
        t.alike(u),
        t.has_read(ch),
        same_place(position, other),
    ensures
        t.attribute_name_state(ch, position).alike(u.attribute_name_state(ch, other)),
{
    reveal(TokenizerModel::attribute_name_state);
}

proof fn alike_after_attribute_name_state(
    t: TokenizerModel,
    u: TokenizerModel,
    ch: Option<char>,
    position: Position,
    other: Position,
)
    requires
        t.alike(u),
        t.has_read(ch),
        same_place(position, other),
    ensures
        t.after_attribute_name_state(ch, position).alike(u.after_attribute_name_state(ch, other)),
{
    reveal(TokenizerModel::after_attribute_name_state);
}

proof fn alike_before_attribute_value_state(
    t: TokenizerModel,
    u: TokenizerModel,
    ch: Option<char>,
    position: Position,
    other: Position,
)
    requires
        t.alike(u),
        t.has_read(ch),
        same_place(position, other),
    ensures
        t.before_attribute_value_state(ch, position).alike(
            u.before_attribute_value_state(ch, other),
        ),
{
    reveal(TokenizerModel::before_attribute_value_state);
}

proof fn alike_attribute_value_quoted_state(
    t: TokenizerModel,
    u: TokenizerModel,
    ch: Option<char>,
    position: Position,
    other: Position,
    quote: char,
    state: State,
)
    requires
        t.alike(u),
        t.has_read(ch),
        same_place(position, other),
    ensures
        t.attribute_value_quoted_state(ch, position, quote, state).alike(
            u.attribute_value_quoted_state(ch, other, quote, state),
        ),
{
    reveal(TokenizerModel::attribute_value_quoted_state);
}

proof fn alike_attribute_value_unquoted_state(
    t: TokenizerModel,
    u: TokenizerModel,
    ch: Option<char>,
    position: Position,
    other: Position,
)
    requires
        t.alike(u),
        t.has_read(ch),
        same_place(position, other),
    ensures
        t.attribute_value_unquoted_state(ch, position).alike(
            u.attribute_value_unquoted_state(ch, other),
        ),
{
    reveal(TokenizerModel::attribute_value_unquoted_state);
}

proof fn alike_after_attribute_value_quoted_state(
    t: TokenizerModel,
    u: TokenizerModel,
    ch: Option<char>,
    position: Position,
    other: Position,
)
    requires
        t.alike(u),
        t.has_read(ch),
        same_place(position, other),
    ensures
        t.after_attribute_value_quoted_state(ch, position).alike(
            u.after_attribute_value_quoted_state(ch, other),
        ),
{
    reveal(TokenizerModel::after_attribute_value_quoted_state);
}

proof fn alike_self_closing_start_tag_state(
    t: TokenizerModel,
    u: TokenizerModel,
    ch: Option<char>,
    position: Position,
    other: Position,
)
    requires
        t.alike(u),
        t.has_read(ch),
        same_place(position, other),
    ensures
        t.self_closing_start_tag_state(ch, position).alike(
            u.self_closing_start_tag_state(ch, other),
        ),
{
    reveal(TokenizerModel::self_closing_start_tag_state);
}

proof fn alike_character_reference_state(
    t: TokenizerModel,
    u: TokenizerModel,
    ch: Option<char>,
    position: Position,
    other: Position,
)
    requires
        t.alike(u),
        t.has_read(ch),
        same_place(position, other),
    ensures
        t.character_reference_state(ch, position).alike(u.character_reference_state(ch, other)),
{
    reveal(TokenizerModel::character_reference_state);
    alike_abandon_reference(t, u, ch);
}

proof fn alike_ambiguous_ampersand_state(
    t: TokenizerModel,
    u: TokenizerModel,
    ch: Option<char>,
    position: Position,
    other: Position,
)
    requires
        t.alike(u),
        t.has_read(ch),
        same_place(position, other),
    ensures
        t.ambiguous_ampersand_state(ch, position).alike(u.ambiguous_ampersand_state(ch, other)),
{
    reveal(TokenizerModel::ambiguous_ampersand_state);
}

proof fn alike_numeric_character_reference_state(
    t: TokenizerModel,
    u: TokenizerModel,
    ch: Option<char>,
    position: Position,
    other: Position,
)
    requires
        t.alike(u),
        t.has_read(ch),
        same_place(position, other),
    ensures
        t.numeric_character_reference_state(ch, position).alike(
            u.numeric_character_reference_state(ch, other),
        ),
{
    reveal(TokenizerModel::numeric_character_reference_state);
    let kind = ParseErrorKind::AbsenceOfDigitsInNumericCharacterReference;
    alike_abandon_reference(
        t.clear_code().error(kind, position),
        u.clear_code().error(kind, other),
        ch,
    );
}

proof fn alike_hexadecimal_character_reference_start_state(
    t: TokenizerModel,
    u: TokenizerModel,
    ch: Option<char>,
    position: Position,
    other: Position,
)
    requires
        t.alike(u),
        t.has_read(ch),
        same_place(position, other),
    ensures
        t.hexadecimal_character_reference_start_state(ch, position).alike(
            u.hexadecimal_character_reference_start_state(ch, other),
        ),
{
    reveal(TokenizerModel::hexadecimal_character_reference_start_state);
    let kind = ParseErrorKind::AbsenceOfDigitsInNumericCharacterReference;
    alike_abandon_reference(t.error(kind, position), u.error(kind, other), ch);
}

proof fn alike_hexadecimal_character_reference_state(
    t: TokenizerModel,
    u: TokenizerModel,
    ch: Option<char>,
    position: Position,
    other: Position,
)
    requires
        t.alike(u),
        t.has_read(ch),
        same_place(position, other),
    ensures
        t.hexadecimal_character_reference_state(ch, position).alike(
            u.hexadecimal_character_reference_state(ch, other),
        ),
{
    reveal(TokenizerModel::hexadecimal_character_reference_state);
}

proof fn alike_decimal_character_reference_state(
    t: TokenizerModel,
    u: TokenizerModel,
    ch: Option<char>,
    position: Position,
    other: Position,
)
    requires
        t.alike(u),
        t.has_read(ch),
        same_place(position, other),
    ensures
        t.decimal_character_reference_state(ch, position).alike(
            u.decimal_character_reference_state(ch, other),
        ),
{
    reveal(TokenizerModel::decimal_character_reference_state);
}

proof fn alike_numeric_character_reference_end_state(
    t: TokenizerModel,
    u: TokenizerModel,
    ch: Option<char>,
    position: Position,
    other: Position,
)
    requires
        t.alike(u),
        t.has_read(ch),
        same_place(position, other),
    ensures
        t.numeric_character_reference_end_state(ch, position).alike(
            u.numeric_character_reference_end_state(ch, other),
        ),
{
    reveal(TokenizerModel::numeric_character_reference_end_state);
}

proof fn alike_bogus_comment_state(
    t: TokenizerModel,
    u: TokenizerModel,
    ch: Option<char>,
    position: Position,
    other: Position,
)
    requires
        t.alike(u),
        t.has_read(ch),
        same_place(position, other),
    ensures
        t.bogus_comment_state(ch, position).alike(u.bogus_comment_state(ch, other)),
{
    reveal(TokenizerModel::bogus_comment_state);
}

proof fn alike_comment_start_state(
    t: TokenizerModel,
    u: TokenizerModel,
    ch: Option<char>,
    position: Position,
    other: Position,
)
    requires
        t.alike(u),
        t.has_read(ch),
        same_place(position, other),
    ensures
        t.comment_start_state(ch, position).alike(u.comment_start_state(ch, other)),
{
    reveal(TokenizerModel::comment_start_state);
}

proof fn alike_comment_start_dash_state(
    t: TokenizerModel,
    u: TokenizerModel,
    ch: Option<char>,
    position: Position,
    other: Position,
)
    requires
        t.alike(u),
        t.has_read(ch),
        same_place(position, other),
    ensures
        t.comment_start_dash_state(ch, position).alike(u.comment_start_dash_state(ch, other)),
{
    reveal(TokenizerModel::comment_start_dash_state);
}

proof fn alike_comment_state(
    t: TokenizerModel,
    u: TokenizerModel,
    ch: Option<char>,
    position: Position,
    other: Position,
)
    requires
        t.alike(u),
        t.has_read(ch),
        same_place(position, other),
    ensures
        t.comment_state(ch, position).alike(u.comment_state(ch, other)),
{
    reveal(TokenizerModel::comment_state);
}

proof fn alike_comment_less_than_sign_state(
    t: TokenizerModel,
    u: TokenizerModel,
    ch: Option<char>,
    position: Position,
    other: Position,
)
    requires
        t.alike(u),
        t.has_read(ch),
        same_place(position, other),
    ensures
        t.comment_less_than_sign_state(ch, position).alike(
            u.comment_less_than_sign_state(ch, other),
        ),
{
    reveal(TokenizerModel::comment_less_than_sign_state);
}

proof fn alike_comment_less_than_sign_bang_state(
    t: TokenizerModel,
    u: TokenizerModel,
    ch: Option<char>,
    position: Position,
    other: Position,
)
    requires
        t.alike(u),
        t.has_read(ch),
        same_place(position, other),
    ensures
        t.comment_less_than_sign_bang_state(ch, position).alike(
            u.comment_less_than_sign_bang_state(ch, other),
        ),
{
    reveal(TokenizerModel::comment_less_than_sign_bang_state);
}

proof fn alike_comment_less_than_sign_bang_dash_state(
    t: TokenizerModel,
    u: TokenizerModel,
    ch: Option<char>,
    position: Position,
    other: Position,
)
    requires
        t.alike(u),
        t.has_read(ch),
        same_place(position, other),
    ensures
        t.comment_less_than_sign_bang_dash_state(ch, position).alike(
            u.comment_less_than_sign_bang_dash_state(ch, other),
        ),
{
    reveal(TokenizerModel::comment_less_than_sign_bang_dash_state);
}

proof fn alike_comment_less_than_sign_bang_dash_dash_state(
    t: TokenizerModel,
    u: TokenizerModel,
    ch: Option<char>,
    position: Position,
    other: Position,
)
    requires
        t.alike(u),
        t.has_read(ch),
        same_place(position, other),
    ensures
        t.comment_less_than_sign_bang_dash_dash_state(ch, position).alike(
            u.comment_less_than_sign_bang_dash_dash_state(ch, other),
        ),
{
    reveal(TokenizerModel::comment_less_than_sign_bang_dash_dash_state);
}

proof fn alike_comment_end_dash_state(
    t: TokenizerModel,
    u: TokenizerModel,
    ch: Option<char>,
    position: Position,
    other: Position,
)
    requires
        t.alike(u),
        t.has_read(ch),
        same_place(position, other),
    ensures
        t.comment_end_dash_state(ch, position).alike(u.comment_end_dash_state(ch, other)),
{
    reveal(TokenizerModel::comment_end_dash_state);
}

proof fn alike_comment_end_state(
    t: TokenizerModel,
    u: TokenizerModel,
    ch: Option<char>,
    position: Position,
    other: Position,
)
    requires
        t.alike(u),
        t.has_read(ch),
        same_place(position, other),
    ensures
        t.comment_end_state(ch, position).alike(u.comment_end_state(ch, other)),
{
    reveal(TokenizerModel::comment_end_state);
}

proof fn alike_comment_end_bang_state(
    t: TokenizerModel,
    u: TokenizerModel,
    ch: Option<char>,
    position: Position,
    other: Position,
)
    requires
        t.alike(u),
        t.has_read(ch),
        same_place(position, other),
    ensures
        t.comment_end_bang_state(ch, position).alike(u.comment_end_bang_state(ch, other)),
{
    reveal(TokenizerModel::comment_end_bang_state);
}

proof fn alike_doctype_state(
    t: TokenizerModel,
    u: TokenizerModel,
    ch: Option<char>,
    position: Position,
    other: Position,
)
    requires
        t.alike(u),
        t.has_read(ch),
        same_place(position, other),
    ensures
        t.doctype_state(ch, position).alike(u.doctype_state(ch, other)),
{
    reveal(TokenizerModel::doctype_state);
}

proof fn alike_before_doctype_name_state(
    t: TokenizerModel,
    u: TokenizerModel,
    ch: Option<char>,
    position: Position,
    other: Position,
)
    requires
        t.alike(u),
        t.has_read(ch),
        same_place(position, other),
    ensures
        t.before_doctype_name_state(ch, position).alike(u.before_doctype_name_state(ch, other)),
{
    reveal(TokenizerModel::before_doctype_name_state);
}

proof fn alike_doctype_name_state(
    t: TokenizerModel,
    u: TokenizerModel,
    ch: Option<char>,
    position: Position,
    other: Position,
)
    requires
        t.alike(u),
        t.has_read(ch),
        same_place(position, other),
    ensures
        t.doctype_name_state(ch, position).alike(u.doctype_name_state(ch, other)),
{
    reveal(TokenizerModel::doctype_name_state);
}

proof fn alike_after_doctype_name_state(
    t: TokenizerModel,
    u: TokenizerModel,
    ch: Option<char>,
    position: Position,
    other: Position,
)
    requires
        t.alike(u),
        t.has_read(ch),
        same_place(position, other),
    ensures
        t.after_doctype_name_state(ch, position).alike(u.after_doctype_name_state(ch, other)),
{
    reveal(TokenizerModel::after_doctype_name_state);
}

proof fn alike_before_doctype_identifier_state(
    t: TokenizerModel,
    u: TokenizerModel,
    ch: Option<char>,
    position: Position,
    other: Position,
    after_whitespace: State,
    kind: DoctypeIdentifierKind,
    double: State,
    single: State,
)
    requires
        t.alike(u),
        t.has_read(ch),
        same_place(position, other),
    ensures
        t.before_doctype_identifier_state(
            ch,
            position,
            after_whitespace,
            kind,
            double,
            single,
        ).alike(
            u.before_doctype_identifier_state(ch, other, after_whitespace, kind, double, single),
        ),
{
    reveal(TokenizerModel::before_doctype_identifier_state);
}

proof fn alike_doctype_identifier_quoted_state(
    t: TokenizerModel,
    u: TokenizerModel,
    ch: Option<char>,
    position: Position,
    other: Position,
    quote: char,
    kind: DoctypeIdentifierKind,
    after: State,
)
    requires
        t.alike(u),
        t.has_read(ch),
        same_place(position, other),
    ensures
        t.doctype_identifier_quoted_state(ch, position, quote, kind, after).alike(
            u.doctype_identifier_quoted_state(ch, other, quote, kind, after),
        ),
{
    reveal(TokenizerModel::doctype_identifier_quoted_state);
}

proof fn alike_after_doctype_public_identifier_state(
    t: TokenizerModel,
    u: TokenizerModel,
    ch: Option<char>,
    position: Position,
    other: Position,
)
    requires
        t.alike(u),
        t.has_read(ch),
        same_place(position, other),
    ensures
        t.after_doctype_public_identifier_state(ch, position).alike(
            u.after_doctype_public_identifier_state(ch, other),
        ),
{
    reveal(TokenizerModel::after_doctype_public_identifier_state);
}

proof fn alike_between_doctype_identifiers_state(
    t: TokenizerModel,
    u: TokenizerModel,
    ch: Option<char>,
    position: Position,
    other: Position,
)
    requires
        t.alike(u),
        t.has_read(ch),
        same_place(position, other),
    ensures
        t.between_doctype_identifiers_state(ch, position).alike(
            u.between_doctype_identifiers_state(ch, other),
        ),
{
    reveal(TokenizerModel::between_doctype_identifiers_state);
}

proof fn alike_after_doctype_system_identifier_state(
    t: TokenizerModel,
    u: TokenizerModel,
    ch: Option<char>,
    position: Position,
    other: Position,
)
    requires
        t.alike(u),
        t.has_read(ch),
        same_place(position, other),
    ensures
        t.after_doctype_system_identifier_state(ch, position).alike(
            u.after_doctype_system_identifier_state(ch, other),
        ),
{
    reveal(TokenizerModel::after_doctype_system_identifier_state);
}

proof fn alike_bogus_doctype_rest_state(
    t: TokenizerModel,
    u: TokenizerModel,
    ch: Option<char>,
    position: Position,
    other: Position,
)
    requires
        t.alike(u),
        t.has_read(ch),
        same_place(position, other),
    ensures
        t.bogus_doctype_rest_state(ch, position).alike(u.bogus_doctype_rest_state(ch, other)),
{
    reveal(TokenizerModel::bogus_doctype_rest_state);
}

proof fn alike_processing_instruction_open_state(
    t: TokenizerModel,
    u: TokenizerModel,
    ch: Option<char>,
    position: Position,
    other: Position,
)
    requires
        t.alike(u),
        t.has_read(ch),
        same_place(position, other),
    ensures
        t.processing_instruction_open_state(ch, position).alike(
            u.processing_instruction_open_state(ch, other),
        ),
{
    reveal(TokenizerModel::processing_instruction_open_state);
}

proof fn alike_processing_instruction_target_state(
    t: TokenizerModel,
    u: TokenizerModel,
    ch: Option<char>,
    position: Position,
    other: Position,
)
    requires
        t.alike(u),
        t.has_read(ch),
        same_place(position, other),
    ensures
        t.processing_instruction_target_state(ch, position).alike(
            u.processing_instruction_target_state(ch, other),
        ),
{
    reveal(TokenizerModel::processing_instruction_target_state);
}

proof fn alike_after_processing_instruction_target_state(
    t: TokenizerModel,
    u: TokenizerModel,
    ch: Option<char>,
    position: Position,
    other: Position,
)
    requires
        t.alike(u),
        t.has_read(ch),
        same_place(position, other),
    ensures
        t.after_processing_instruction_target_state(ch, position).alike(
            u.after_processing_instruction_target_state(ch, other),
        ),
{
    reveal(TokenizerModel::after_processing_instruction_target_state);
}

proof fn alike_processing_instruction_data_state(
    t: TokenizerModel,
    u: TokenizerModel,
    ch: Option<char>,
    position: Position,
    other: Position,
)
    requires
        t.alike(u),
        t.has_read(ch),
        same_place(position, other),
    ensures
        t.processing_instruction_data_state(ch, position).alike(
            u.processing_instruction_data_state(ch, other),
        ),
{
    reveal(TokenizerModel::processing_instruction_data_state);
}

proof fn alike_processing_instruction_questionable_state(
    t: TokenizerModel,
    u: TokenizerModel,
    ch: Option<char>,
    position: Position,
    other: Position,
)
    requires
        t.alike(u),
        t.has_read(ch),
        same_place(position, other),
    ensures
        t.processing_instruction_questionable_state(ch, position).alike(
            u.processing_instruction_questionable_state(ch, other),
        ),
{
    reveal(TokenizerModel::processing_instruction_questionable_state);
}

proof fn alike_rcdata_state(
    t: TokenizerModel,
    u: TokenizerModel,
    ch: Option<char>,
    position: Position,
    other: Position,
)
    requires
        t.alike(u),
        t.has_read(ch),
        same_place(position, other),
    ensures
        t.rcdata_state(ch, position).alike(u.rcdata_state(ch, other)),
{
    reveal(TokenizerModel::rcdata_state);
    if ch is Some {
        alike_emit_character(t, u, ch->0, position, other);
    }
}

proof fn alike_raw_text_state(
    t: TokenizerModel,
    u: TokenizerModel,
    ch: Option<char>,
    position: Position,
    other: Position,
    less_than_sign: State,
)
    requires
        t.alike(u),
        t.has_read(ch),
        same_place(position, other),
    ensures
        t.raw_text_state(ch, position, less_than_sign).alike(
            u.raw_text_state(ch, other, less_than_sign),
        ),
{
    reveal(TokenizerModel::raw_text_state);
    if ch is Some {
        alike_emit_character(t, u, ch->0, position, other);
    }
}

proof fn alike_text_less_than_sign_state(
    t: TokenizerModel,
    u: TokenizerModel,
    ch: Option<char>,
    position: Position,
    other: Position,
    end_tag_open: State,
    text: State,
)
    requires
        t.alike(u),
        t.has_read(ch),
        same_place(position, other),
    ensures
        t.text_less_than_sign_state(ch, position, end_tag_open, text).alike(
            u.text_less_than_sign_state(ch, other, end_tag_open, text),
        ),
{
    reveal(TokenizerModel::text_less_than_sign_state);
}

proof fn alike_text_end_tag_open_state(
    t: TokenizerModel,
    u: TokenizerModel,
    ch: Option<char>,
    position: Position,
    other: Position,
    end_tag_name: State,
    text: State,
)
    requires
        t.alike(u),
        t.has_read(ch),
        same_place(position, other),
    ensures
        t.text_end_tag_open_state(ch, position, end_tag_name, text).alike(
            u.text_end_tag_open_state(ch, other, end_tag_name, text),
        ),
{
    reveal(TokenizerModel::text_end_tag_open_state);
}

proof fn alike_text_end_tag_name_state(
    t: TokenizerModel,
    u: TokenizerModel,
    ch: Option<char>,
    position: Position,
    other: Position,
    text: State,
)
    requires
        t.alike(u),
        t.has_read(ch),
        same_place(position, other),
    ensures
        t.text_end_tag_name_state(ch, position, text).alike(
            u.text_end_tag_name_state(ch, other, text),
        ),
{
    reveal(TokenizerModel::text_end_tag_name_state);
    alike_emit_buffer(
        t.emit_less_than().emit_slash(),
        u.emit_less_than().emit_slash(),
        t.end_tag_buffer,
        t.slash_index,
    );
}

proof fn alike_plain_text_state(
    t: TokenizerModel,
    u: TokenizerModel,
    ch: Option<char>,
    position: Position,
    other: Position,
)
    requires
        t.alike(u),
        t.has_read(ch),
        same_place(position, other),
    ensures
        t.plain_text_state(ch, position).alike(u.plain_text_state(ch, other)),
{
    reveal(TokenizerModel::plain_text_state);
    if ch is Some {
        alike_emit_character(t, u, ch->0, position, other);
    }
}

proof fn alike_script_data_less_than_sign_state(
    t: TokenizerModel,
    u: TokenizerModel,
    ch: Option<char>,
    position: Position,
    other: Position,
)
    requires
        t.alike(u),
        t.has_read(ch),
        same_place(position, other),
    ensures
        t.script_data_less_than_sign_state(ch, position).alike(
            u.script_data_less_than_sign_state(ch, other),
        ),
{
    reveal(TokenizerModel::script_data_less_than_sign_state);
}

proof fn alike_script_data_escape_start_state(
    t: TokenizerModel,
    u: TokenizerModel,
    ch: Option<char>,
    position: Position,
    other: Position,
    dash: State,
)
    requires
        t.alike(u),
        t.has_read(ch),
        same_place(position, other),
    ensures
        t.script_data_escape_start_state(ch, position, dash).alike(
            u.script_data_escape_start_state(ch, other, dash),
        ),
{
    reveal(TokenizerModel::script_data_escape_start_state);
}

proof fn alike_script_data_escaped_state(
    t: TokenizerModel,
    u: TokenizerModel,
    ch: Option<char>,
    position: Position,
    other: Position,
)
    requires
        t.alike(u),
        t.has_read(ch),
        same_place(position, other),
    ensures
        t.script_data_escaped_state(ch, position).alike(u.script_data_escaped_state(ch, other)),
{
    reveal(TokenizerModel::script_data_escaped_state);
    if ch is Some {
        alike_emit_character(t, u, ch->0, position, other);
    }
}

proof fn alike_script_data_escaped_dash_state(
    t: TokenizerModel,
    u: TokenizerModel,
    ch: Option<char>,
    position: Position,
    other: Position,
)
    requires
        t.alike(u),
        t.has_read(ch),
        same_place(position, other),
    ensures
        t.script_data_escaped_dash_state(ch, position).alike(
            u.script_data_escaped_dash_state(ch, other),
        ),
{
    reveal(TokenizerModel::script_data_escaped_dash_state);
    if ch is Some {
        alike_emit_character(t, u, ch->0, position, other);
    }
}

proof fn alike_script_data_escaped_dash_dash_state(
    t: TokenizerModel,
    u: TokenizerModel,
    ch: Option<char>,
    position: Position,
    other: Position,
)
    requires
        t.alike(u),
        t.has_read(ch),
        same_place(position, other),
    ensures
        t.script_data_escaped_dash_dash_state(ch, position).alike(
            u.script_data_escaped_dash_dash_state(ch, other),
        ),
{
    reveal(TokenizerModel::script_data_escaped_dash_dash_state);
    if ch is Some {
        alike_emit_character(t, u, ch->0, position, other);
    }
}

proof fn alike_script_data_escaped_less_than_sign_state(
    t: TokenizerModel,
    u: TokenizerModel,
    ch: Option<char>,
    position: Position,
    other: Position,
)
    requires
        t.alike(u),
        t.has_read(ch),
        same_place(position, other),
    ensures
        t.script_data_escaped_less_than_sign_state(ch, position).alike(
            u.script_data_escaped_less_than_sign_state(ch, other),
        ),
{
    reveal(TokenizerModel::script_data_escaped_less_than_sign_state);
}

proof fn alike_script_data_double_escape_state(
    t: TokenizerModel,
    u: TokenizerModel,
    ch: Option<char>,
    position: Position,
    other: Position,
    script: State,
    other_state: State,
)
    requires
        t.alike(u),
        t.has_read(ch),
        same_place(position, other),
    ensures
        t.script_data_double_escape_state(ch, position, script, other_state).alike(
            u.script_data_double_escape_state(ch, other, script, other_state),
        ),
{
    reveal(TokenizerModel::script_data_double_escape_state);
}

proof fn alike_script_data_double_escaped_state(
    t: TokenizerModel,
    u: TokenizerModel,
    ch: Option<char>,
    position: Position,
    other: Position,
)
    requires
        t.alike(u),
        t.has_read(ch),
        same_place(position, other),
    ensures
        t.script_data_double_escaped_state(ch, position).alike(
            u.script_data_double_escaped_state(ch, other),
        ),
{
    reveal(TokenizerModel::script_data_double_escaped_state);
    if ch is Some {
        alike_emit_character(t, u, ch->0, position, other);
    }
}

proof fn alike_script_data_double_escaped_dash_state(
    t: TokenizerModel,
    u: TokenizerModel,
    ch: Option<char>,
    position: Position,
    other: Position,
)
    requires
        t.alike(u),
        t.has_read(ch),
        same_place(position, other),
    ensures
        t.script_data_double_escaped_dash_state(ch, position).alike(
            u.script_data_double_escaped_dash_state(ch, other),
        ),
{
    reveal(TokenizerModel::script_data_double_escaped_dash_state);
    if ch is Some {
        alike_emit_character(t, u, ch->0, position, other);
    }
}

proof fn alike_script_data_double_escaped_dash_dash_state(
    t: TokenizerModel,
    u: TokenizerModel,
    ch: Option<char>,
    position: Position,
    other: Position,
)
    requires
        t.alike(u),
        t.has_read(ch),
        same_place(position, other),
    ensures
        t.script_data_double_escaped_dash_dash_state(ch, position).alike(
            u.script_data_double_escaped_dash_dash_state(ch, other),
        ),
{
    reveal(TokenizerModel::script_data_double_escaped_dash_dash_state);
    if ch is Some {
        alike_emit_character(t, u, ch->0, position, other);
    }
}

proof fn alike_script_data_double_escaped_less_than_sign_state(
    t: TokenizerModel,
    u: TokenizerModel,
    ch: Option<char>,
    position: Position,
    other: Position,
)
    requires
        t.alike(u),
        t.has_read(ch),
        same_place(position, other),
    ensures
        t.script_data_double_escaped_less_than_sign_state(ch, position).alike(
            u.script_data_double_escaped_less_than_sign_state(ch, other),
        ),
{
    reveal(TokenizerModel::script_data_double_escaped_less_than_sign_state);
}

proof fn alike_cdata_section_state(
    t: TokenizerModel,
    u: TokenizerModel,
    ch: Option<char>,
    position: Position,
    other: Position,
)
    requires
        t.alike(u),
        t.has_read(ch),
        same_place(position, other),
    ensures
        t.cdata_section_state(ch, position).alike(u.cdata_section_state(ch, other)),
{
    reveal(TokenizerModel::cdata_section_state);
    if ch is Some {
        alike_emit_character(t, u, ch->0, position, other);
    }
}

proof fn alike_cdata_section_bracket_state(
    t: TokenizerModel,
    u: TokenizerModel,
    ch: Option<char>,
    position: Position,
    other: Position,
)
    requires
        t.alike(u),
        t.has_read(ch),
        same_place(position, other),
    ensures
        t.cdata_section_bracket_state(ch, position).alike(u.cdata_section_bracket_state(ch, other)),
{
    reveal(TokenizerModel::cdata_section_bracket_state);
}

proof fn alike_cdata_section_end_state(
    t: TokenizerModel,
    u: TokenizerModel,
    ch: Option<char>,
    position: Position,
    other: Position,
)
    requires
        t.alike(u),
        t.has_read(ch),
        same_place(position, other),
    ensures
        t.cdata_section_end_state(ch, position).alike(u.cdata_section_end_state(ch, other)),
{
    reveal(TokenizerModel::cdata_section_end_state);
    alike_emit_brackets(t, u);
}

/// Every step keeps two such tokenizers alike.
pub proof fn lemma_step_keeps_alike(
    t: TokenizerModel,
    u: TokenizerModel,
    ch: Option<char>,
    position: Position,
    other: Position,
)
    requires
        t.alike(u),
        t.has_read(ch),
        same_place(position, other),
    ensures
        t.step(ch, position).alike(u.step(ch, other)),
{
    reveal(TokenizerModel::step);
    match t.state {
        State::Data => alike_data_state(t, u, ch, position, other),
        State::TagOpen => alike_tag_open_state(t, u, ch, position, other),
        State::EndTagOpen => alike_end_tag_open_state(t, u, ch, position, other),
        State::TagName => alike_tag_name_state(t, u, ch, position, other),
        State::BeforeAttributeName => alike_before_attribute_name_state(t, u, ch, position, other),
        State::AttributeName => alike_attribute_name_state(t, u, ch, position, other),
        State::AfterAttributeName => alike_after_attribute_name_state(t, u, ch, position, other),
        State::BeforeAttributeValue => {
            alike_before_attribute_value_state(t, u, ch, position, other)
        },
        State::AttributeValueDoubleQuoted => {
            alike_attribute_value_quoted_state(t, u, ch, position, other,
                '"',
                State::AttributeValueDoubleQuoted,
            )
        },
        State::AttributeValueSingleQuoted => {
            alike_attribute_value_quoted_state(t, u, ch, position, other,
                '\'',
                State::AttributeValueSingleQuoted,
            )
        },
        State::AttributeValueUnquoted => {
            alike_attribute_value_unquoted_state(t, u, ch, position, other)
        },
        State::AfterAttributeValueQuoted => {
            alike_after_attribute_value_quoted_state(t, u, ch, position, other)
        },
        State::SelfClosingStartTag => alike_self_closing_start_tag_state(t, u, ch, position, other),
        State::CharacterReference => alike_character_reference_state(t, u, ch, position, other),
        State::NamedCharacterReference => alike_named_reference(t, u, ch),
        State::AmbiguousAmpersand => alike_ambiguous_ampersand_state(t, u, ch, position, other),
        State::NumericCharacterReference => {
            alike_numeric_character_reference_state(t, u, ch, position, other)
        },
        State::HexadecimalCharacterReferenceStart => {
            alike_hexadecimal_character_reference_start_state(t, u, ch, position, other)
        },
        State::HexadecimalCharacterReference => {
            alike_hexadecimal_character_reference_state(t, u, ch, position, other)
        },
        State::DecimalCharacterReference => {
            alike_decimal_character_reference_state(t, u, ch, position, other)
        },
        State::NumericCharacterReferenceEnd => {
            alike_numeric_character_reference_end_state(t, u, ch, position, other)
        },
        State::MarkupDeclarationOpen => {
            alike_markup_declaration(t.unread(ch), u.unread(ch));
        },
        State::BogusComment => alike_bogus_comment_state(t, u, ch, position, other),
        State::CommentStart => alike_comment_start_state(t, u, ch, position, other),
        State::CommentStartDash => alike_comment_start_dash_state(t, u, ch, position, other),
        State::Comment => alike_comment_state(t, u, ch, position, other),
        State::CommentLessThanSign => alike_comment_less_than_sign_state(t, u, ch, position, other),
        State::CommentLessThanSignBang => {
            alike_comment_less_than_sign_bang_state(t, u, ch, position, other)
        },
        State::CommentLessThanSignBangDash => {
            alike_comment_less_than_sign_bang_dash_state(t, u, ch, position, other)
        },
        State::CommentLessThanSignBangDashDash => {
            alike_comment_less_than_sign_bang_dash_dash_state(t, u, ch, position, other)
        },
        State::CommentEndDash => alike_comment_end_dash_state(t, u, ch, position, other),
        State::CommentEnd => alike_comment_end_state(t, u, ch, position, other),
        State::CommentEndBang => alike_comment_end_bang_state(t, u, ch, position, other),
        State::Doctype => alike_doctype_state(t, u, ch, position, other),
        State::BeforeDoctypeName => alike_before_doctype_name_state(t, u, ch, position, other),
        State::DoctypeName => alike_doctype_name_state(t, u, ch, position, other),
        State::AfterDoctypeName => alike_after_doctype_name_state(t, u, ch, position, other),
        State::AfterDoctypePublicKeyword => {
            alike_before_doctype_identifier_state(t, u, ch, position, other,
                State::BeforeDoctypePublicIdentifier,
                DoctypeIdentifierKind::Public,
                State::DoctypePublicIdentifierDoubleQuoted,
                State::DoctypePublicIdentifierSingleQuoted,
            )
        },
        State::BeforeDoctypePublicIdentifier => {
            alike_before_doctype_identifier_state(t, u, ch, position, other,
                State::BeforeDoctypePublicIdentifier,
                DoctypeIdentifierKind::Public,
                State::DoctypePublicIdentifierDoubleQuoted,
                State::DoctypePublicIdentifierSingleQuoted,
            )
        },
        State::DoctypePublicIdentifierDoubleQuoted => {
            alike_doctype_identifier_quoted_state(t, u, ch, position, other,
                '"',
                DoctypeIdentifierKind::Public,
                State::AfterDoctypePublicIdentifier,
            )
        },
        State::DoctypePublicIdentifierSingleQuoted => {
            alike_doctype_identifier_quoted_state(t, u, ch, position, other,
                '\'',
                DoctypeIdentifierKind::Public,
                State::AfterDoctypePublicIdentifier,
            )
        },
        State::AfterDoctypePublicIdentifier => {
            alike_after_doctype_public_identifier_state(t, u, ch, position, other)
        },
        State::BetweenDoctypePublicAndSystemIdentifiers => {
            alike_between_doctype_identifiers_state(t, u, ch, position, other)
        },
        State::AfterDoctypeSystemKeyword => {
            alike_before_doctype_identifier_state(t, u, ch, position, other,
                State::BeforeDoctypeSystemIdentifier,
                DoctypeIdentifierKind::System,
                State::DoctypeSystemIdentifierDoubleQuoted,
                State::DoctypeSystemIdentifierSingleQuoted,
            )
        },
        State::BeforeDoctypeSystemIdentifier => {
            alike_before_doctype_identifier_state(t, u, ch, position, other,
                State::BeforeDoctypeSystemIdentifier,
                DoctypeIdentifierKind::System,
                State::DoctypeSystemIdentifierDoubleQuoted,
                State::DoctypeSystemIdentifierSingleQuoted,
            )
        },
        State::DoctypeSystemIdentifierDoubleQuoted => {
            alike_doctype_identifier_quoted_state(t, u, ch, position, other,
                '"',
                DoctypeIdentifierKind::System,
                State::AfterDoctypeSystemIdentifier,
            )
        },
        State::DoctypeSystemIdentifierSingleQuoted => {
            alike_doctype_identifier_quoted_state(t, u, ch, position, other,
                '\'',
                DoctypeIdentifierKind::System,
                State::AfterDoctypeSystemIdentifier,
            )
        },
        State::AfterDoctypeSystemIdentifier => {
            alike_after_doctype_system_identifier_state(t, u, ch, position, other)
        },
        State::BogusDoctype => alike_bogus_doctype_rest_state(t, u, ch, position, other),
        State::ProcessingInstructionOpen => {
            alike_processing_instruction_open_state(t, u, ch, position, other)
        },
        State::ProcessingInstructionTarget => {
            alike_processing_instruction_target_state(t, u, ch, position, other)
        },
        State::AfterProcessingInstructionTarget => {
            alike_after_processing_instruction_target_state(t, u, ch, position, other)
        },
        State::ProcessingInstructionData => {
            alike_processing_instruction_data_state(t, u, ch, position, other)
        },
        State::ProcessingInstructionQuestionable => {
            alike_processing_instruction_questionable_state(t, u, ch, position, other)
        },
        State::RcData => alike_rcdata_state(t, u, ch, position, other),
        State::RcDataLessThanSign => {
            alike_text_less_than_sign_state(
                t,
                u,
                ch,
                position,
                other,
                State::RcDataEndTagOpen,
                State::RcData,
            )
        },
        State::RcDataEndTagOpen => {
            alike_text_end_tag_open_state(
                t,
                u,
                ch,
                position,
                other,
                State::RcDataEndTagName,
                State::RcData,
            )
        },
        State::RcDataEndTagName => {
            alike_text_end_tag_name_state(t, u, ch, position, other, State::RcData)
        },
        State::RawText => {
            alike_raw_text_state(t, u, ch, position, other, State::RawTextLessThanSign)
        },
        State::RawTextLessThanSign => {
            alike_text_less_than_sign_state(t, u, ch, position, other,
                State::RawTextEndTagOpen,
                State::RawText,
            )
        },
        State::RawTextEndTagOpen => {
            alike_text_end_tag_open_state(
                t,
                u,
                ch,
                position,
                other,
                State::RawTextEndTagName,
                State::RawText,
            )
        },
        State::RawTextEndTagName => {
            alike_text_end_tag_name_state(t, u, ch, position, other, State::RawText)
        },
        State::PlainText => alike_plain_text_state(t, u, ch, position, other),
        State::ScriptData => {
            alike_raw_text_state(t, u, ch, position, other, State::ScriptDataLessThanSign)
        },
        State::ScriptDataLessThanSign => {
            alike_script_data_less_than_sign_state(t, u, ch, position, other)
        },
        State::ScriptDataEndTagOpen => {
            alike_text_end_tag_open_state(t, u, ch, position, other,
                State::ScriptDataEndTagName,
                State::ScriptData,
            )
        },
        State::ScriptDataEndTagName => {
            alike_text_end_tag_name_state(t, u, ch, position, other, State::ScriptData)
        },
        State::ScriptDataEscapeStart => {
            alike_script_data_escape_start_state(
                t,
                u,
                ch,
                position,
                other,
                State::ScriptDataEscapeStartDash,
            )
        },
        State::ScriptDataEscapeStartDash => {
            alike_script_data_escape_start_state(
                t,
                u,
                ch,
                position,
                other,
                State::ScriptDataEscapedDashDash,
            )
        },
        State::ScriptDataEscaped => alike_script_data_escaped_state(t, u, ch, position, other),
        State::ScriptDataEscapedDash => {
            alike_script_data_escaped_dash_state(t, u, ch, position, other)
        },
        State::ScriptDataEscapedDashDash => {
            alike_script_data_escaped_dash_dash_state(t, u, ch, position, other)
        },
        State::ScriptDataEscapedLessThanSign => {
            alike_script_data_escaped_less_than_sign_state(t, u, ch, position, other)
        },
        State::ScriptDataEscapedEndTagOpen => {
            alike_text_end_tag_open_state(t, u, ch, position, other,
                State::ScriptDataEscapedEndTagName,
                State::ScriptDataEscaped,
            )
        },
        State::ScriptDataEscapedEndTagName => {
            alike_text_end_tag_name_state(t, u, ch, position, other, State::ScriptDataEscaped)
        },
        State::ScriptDataDoubleEscapeStart => {
            alike_script_data_double_escape_state(t, u, ch, position, other,
                State::ScriptDataDoubleEscaped,
                State::ScriptDataEscaped,
            )
        },
        State::ScriptDataDoubleEscaped => {
            alike_script_data_double_escaped_state(t, u, ch, position, other)
        },
        State::ScriptDataDoubleEscapedDash => {
            alike_script_data_double_escaped_dash_state(t, u, ch, position, other)
        },
        State::ScriptDataDoubleEscapedDashDash => {
            alike_script_data_double_escaped_dash_dash_state(t, u, ch, position, other)
        },
        State::ScriptDataDoubleEscapedLessThanSign => {
            alike_script_data_double_escaped_less_than_sign_state(t, u, ch, position, other)
        },
        State::ScriptDataDoubleEscapeEnd => {
            alike_script_data_double_escape_state(t, u, ch, position, other,
                State::ScriptDataEscaped,
                State::ScriptDataDoubleEscaped,
            )
        },
        State::CdataSection => alike_cdata_section_state(t, u, ch, position, other),
        State::CdataSectionBracket => alike_cdata_section_bracket_state(t, u, ch, position, other),
        State::CdataSectionEnd => alike_cdata_section_end_state(t, u, ch, position, other),
    }
}

proof fn alike_run(t: TokenizerModel, u: TokenizerModel)
    requires
        t.alike(u),
        t.inv(),
    ensures
        t.run().alike(u.run()),
    decreases t.remaining(),
{
    if t.pending.len() == 0 {
        assert(same_place(t.positions[t.index], u.positions[u.index]));
        lemma_step(t.consume(), t.peek(), t.positions[t.index]);
        lemma_step_keeps_alike(
            t.consume(),
            u.consume(),
            t.peek(),
            t.positions[t.index],
            u.positions[u.index],
        );
        let next = t.advance();
        if next.pending.len() == 0 && 0 <= next.remaining() < t.remaining() {
            alike_run(next, u.advance());
        }
    }
}

/// Two tokenizers that differ in byte offsets at most give out tokens that do,
/// and stay alike.
pub proof fn lemma_next_alike(t: TokenizerModel, u: TokenizerModel)
    requires
        t.alike(u),
        t.inv(),
    ensures
        t.next().1.alike(u.next().1),
        match (t.next().0, u.next().0) {
            (Some(a), Some(b)) => a.kind == b.kind && same_place(a.position, b.position),
            (None, None) => true,
            _ => false,
        },
{
    alike_run(t, u);
    let ready = t.run();
    let there = u.run();
    if ready.pending.len() > 0 {
        assert(ready.pending[0].kind == there.pending[0].kind);
        assert(same_tokens(ready.pending.drop_first(), there.pending.drop_first())) by {
            assert forall|i: int| 0 <= i < ready.pending.len() - 1 implies (
            #[trigger] ready.pending.drop_first()[i]).kind == there.pending.drop_first()[i].kind
                && same_place(
                ready.pending.drop_first()[i].position,
                there.pending.drop_first()[i].position,
            ) by {
                assert(ready.pending[i + 1].kind == there.pending[i + 1].kind);
            }
        }
    }
}

/// What tree construction tells both of two such tokenizers keeps them alike.
pub proof fn lemma_feedback_keeps_alike(
    t: TokenizerModel,
    u: TokenizerModel,
    state: ExternalState,
    in_foreign_content: bool,
)
    requires
        t.alike(u),
    ensures
        t.switch_to(state).alike(u.switch_to(state)),
        t.set_in_foreign_content(in_foreign_content).alike(
            u.set_in_foreign_content(in_foreign_content),
        ),
{
}

} // verus!
