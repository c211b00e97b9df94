//! Tokens come out in the order in which they start in the source.
use vstd::prelude::*;

use crate::entities::{lemma_longest_reference, longest_reference, references};
use crate::token::{ParseErrorKind, Position, TokenKindModel, TokenModel};
use crate::tokenizer::model::{DoctypeIdentifierKind, ExternalState, State, TokenizerModel};
use crate::tokenizer::progress::{
    lemma_emit_buffer, lemma_flush_input, lemma_flush_text, lemma_step,
};
use crate::tokenizer::run::lemma_run;

verus! {

/// What a state holds back: where the next token to come out may start.
pub enum Role {
    /// Nothing: whatever comes out starts at the next character or later.
    Text,
    /// A character reference.
    Reference,
    /// The rest of an unknown character reference.
    Ampersand,
    /// What may turn out to be an end tag, before its name.
    EndTagOpen,
    /// What may turn out to be an end tag, in its name.
    EndTagName,
    /// One bracket of a CDATA section.
    Bracket,
    /// Two brackets of a CDATA section.
    Brackets,
    /// A piece of markup.
    Markup,
}

pub open spec fn role(state: State) -> Role {
    match state {
        State::Data
        | State::RcData
        | State::RawText
        | State::PlainText
        | State::ScriptData
        | State::ScriptDataEscapeStart
        | State::ScriptDataEscapeStartDash
        | State::ScriptDataEscaped
        | State::ScriptDataEscapedDash
        | State::ScriptDataEscapedDashDash
        | State::ScriptDataDoubleEscapeStart
        | State::ScriptDataDoubleEscaped
        | State::ScriptDataDoubleEscapedDash
        | State::ScriptDataDoubleEscapedDashDash
        | State::ScriptDataDoubleEscapedLessThanSign
        | State::ScriptDataDoubleEscapeEnd
        | State::CdataSection => Role::Text,
        State::CharacterReference
        | State::NamedCharacterReference
        | State::NumericCharacterReference
        | State::HexadecimalCharacterReferenceStart
        | State::HexadecimalCharacterReference
        | State::DecimalCharacterReference
        | State::NumericCharacterReferenceEnd => Role::Reference,
        State::AmbiguousAmpersand => Role::Ampersand,
        State::EndTagOpen
        | State::RcDataEndTagOpen
        | State::RawTextEndTagOpen
        | State::ScriptDataEndTagOpen
        | State::ScriptDataEscapedEndTagOpen => Role::EndTagOpen,
        State::RcDataEndTagName
        | State::RawTextEndTagName
        | State::ScriptDataEndTagName
        | State::ScriptDataEscapedEndTagName => Role::EndTagName,
        State::CdataSectionBracket => Role::Bracket,
        State::CdataSectionEnd => Role::Brackets,
        _ => Role::Markup,
    }
}

/// The positions are in the order of their byte offsets.
pub open spec fn positions_ascend(positions: Seq<Position>) -> bool {
    forall|i: int, j: int|
        0 <= i <= j < positions.len() ==> (#[trigger] positions[i]).byte_offset <= (
        #[trigger] positions[j]).byte_offset
}

/// The tokens start at `low` or later, each at the start of the one before it or
/// later.
pub open spec fn tokens_ascend(tokens: Seq<TokenModel>, low: int) -> bool {
    &&& forall|i: int|
        0 <= i < tokens.len() ==> low <= (#[trigger] tokens[i]).position.byte_offset
    &&& forall|i: int, j: int|
        0 <= i <= j < tokens.len() ==> (#[trigger] tokens[i]).position.byte_offset <= (
        #[trigger] tokens[j]).position.byte_offset
}

impl TokenizerModel {
    /// The byte offset of a character.
    pub open spec fn offset(self, i: int) -> int {
        self.positions[i].byte_offset as int
    }

    /// No token that is still to be made starts before this offset, when the next
    /// character to be read is the one at `i`.
    pub open spec fn anchor(self, i: int) -> int {
        match role(self.state) {
            Role::Text => self.offset(i),
            Role::Reference => if self.reference_in_attribute() {
                self.current_tag_start.byte_offset as int
            } else {
                self.offset(self.reference_start)
            },
            Role::Ampersand => if self.reference_in_attribute() {
                self.current_tag_start.byte_offset as int
            } else {
                self.offset(i)
            },
            Role::Bracket | Role::Brackets => self.pending_brackets[0].byte_offset as int,
            _ => self.current_tag_start.byte_offset as int,
        }
    }

    /// What is held back stands before the character at `i`.
    pub open spec fn holds_back(self, i: int) -> bool {
        &&& self.anchor(i) <= self.offset(i)
        &&& match role(self.state) {
            Role::EndTagOpen => {
                &&& self.slash_index < i
                &&& self.current_tag_start.byte_offset <= self.offset(self.slash_index)
                &&& self.state is EndTagOpen || self.end_tag_buffer.len() == 0
            },
            Role::EndTagName => {
                &&& self.slash_index + self.end_tag_buffer.len() < i
                &&& self.current_tag_start.byte_offset <= self.offset(self.slash_index)
            },
            _ => true,
        }
        &&& match role(self.state) {
            Role::Bracket => self.pending_brackets.len() == 1,
            Role::Brackets => {
                &&& self.pending_brackets.len() == 2
                &&& self.pending_brackets[0].byte_offset <= self.pending_brackets[1].byte_offset
                &&& self.pending_brackets[1].byte_offset <= self.offset(i)
            },
            _ => self.pending_brackets.len() == 0,
        }
    }

    /// Where the last token that waits starts, or `low`.
    pub open spec fn latest(self, low: int) -> int {
        if self.pending.len() == 0 {
            low
        } else {
            self.pending.last().position.byte_offset as int
        }
    }

    /// The end of the file waits or was given out.
    pub open spec fn ended(self) -> bool {
        self.ends_waiting() || self.eof_returned
    }

    /// A waiting end-of-file token is at the end of the source.
    pub open spec fn eof_at_end(self) -> bool {
        forall|i: int|
            0 <= i < self.pending.len() && (#[trigger] self.pending[i]).kind is Eof
                ==> self.pending[i].position == self.positions[self.chars.len() as int]
    }

    /// The tokens that wait, and all that are still to be made, start at `low` or
    /// later and in order.
    pub open spec fn in_order(self, low: int) -> bool {
        &&& positions_ascend(self.positions)
        &&& tokens_ascend(self.pending, low)
        &&& self.eof_at_end()
        &&& self.ended() || self.holds_back(self.index) && self.latest(low) <= self.anchor(
            self.index,
        )
    }

    /// The same, after the character `ch` at `position` was read.
    pub open spec fn ready(self, low: int, ch: Option<char>, position: Position) -> bool {
        let i = if ch is Some {
            self.index - 1
        } else {
            self.index
        };
        &&& self.has_read(ch)
        &&& positions_ascend(self.positions)
        &&& position == self.positions[i]
        &&& self.holds_back(i)
        &&& low <= self.anchor(i)
    }

    /// Tokens wait in order, the last one at `high` or before.
    pub open spec fn waits(self, low: int, high: int) -> bool {
        &&& tokens_ascend(self.pending, low)
        &&& self.eof_at_end()
        &&& self.latest(low) <= high
        &&& low <= high
    }
}

proof fn orders_emit(t: TokenizerModel, low: int, c: char, position: Position)
    requires
        t.waits(low, position.byte_offset as int),
    ensures
        t.emit_character(c, position).waits(low, position.byte_offset as int),
{
    let next = t.emit_character(c, position);
    assert(next.pending.last().kind == TokenKindModel::Character(c));
    assert forall|i: int, j: int| 0 <= i <= j < next.pending.len() implies (
    #[trigger] next.pending[i]).position.byte_offset <= (
    #[trigger] next.pending[j]).position.byte_offset by {
        if i < t.pending.len() {
            assert(next.pending[i] == t.pending[i]);
            assert(t.pending[i].position.byte_offset <= t.pending.last().position.byte_offset);
            if j < t.pending.len() {
                assert(next.pending[j] == t.pending[j]);
            }
        }
    }
}

proof fn orders_flush(t: TokenizerModel, low: int, c: char, position: Position)
    requires
        t.waits(low, position.byte_offset as int),
    ensures
        t.flush_character(c, position).waits(low, position.byte_offset as int),
{
    orders_emit(t, low, c, position);
}

proof fn orders_flush_input(t: TokenizerModel, low: int, from: int, to: int, high: int)
    requires
        positions_ascend(t.positions),
        t.positions.len() == t.chars.len() + 1,
        0 <= from <= t.chars.len(),
        to <= t.chars.len(),
        t.waits(low, t.offset(from)),
        t.offset(from) <= high,
        from < to ==> t.offset(to) <= high,
    ensures
        t.flush_input(from, to).waits(low, high),
    decreases to - from,
{
    if from < to {
        let next = t.flush_character(t.chars[from], t.positions[from]);
        orders_flush(t, low, t.chars[from], t.positions[from]);
        assert(t.positions[from].byte_offset <= t.positions[from + 1].byte_offset);
        assert(t.positions[from + 1].byte_offset <= t.positions[to].byte_offset);
        orders_flush_input(next, low, from + 1, to, high);
    }
}

proof fn orders_flush_text(t: TokenizerModel, low: int, text: Seq<char>, position: Position)
    requires
        t.waits(low, position.byte_offset as int),
    ensures
        t.flush_text(text, position).waits(low, position.byte_offset as int),
    decreases text.len(),
{
    if text.len() > 0 {
        orders_flush(t, low, text[0], position);
        orders_flush_text(
            t.flush_character(text[0], position),
            low,
            text.drop_first(),
            position,
        );
    }
}

proof fn orders_emit_buffer(t: TokenizerModel, low: int, text: Seq<char>, at: int)
    requires
        positions_ascend(t.positions),
        t.positions.len() == t.chars.len() + 1,
        0 <= at,
        at + text.len() <= t.chars.len(),
        t.waits(low, t.offset(at)),
    ensures
        t.emit_buffer(text, at).waits(low, t.offset(at + text.len())),
    decreases text.len(),
{
    if text.len() > 0 {
        let next = t.emit_character(text[0], t.positions[at + 1]);
        assert(t.positions[at].byte_offset <= t.positions[at + 1].byte_offset);
        orders_emit(t, low, text[0], t.positions[at + 1]);
        orders_emit_buffer(next, low, text.drop_first(), at + 1);
    }
}

proof fn orders_abandon_reference(t: TokenizerModel, low: int, ch: Option<char>)
    requires
        t.ready(low, ch, t.positions[t.unread(ch).index]),
        role(t.state) is Reference,
    ensures
        t.abandon_reference(ch).in_order(low),
{
    let u = t.unread(ch);
    lemma_flush_input(u, u.reference_start, u.index);
    if t.reference_in_attribute() {
        lemma_flush_to_attribute(u, u.reference_start, u.index);
    } else {
        orders_flush_input(u, low, u.reference_start, u.index, u.offset(u.index));
    }
}

/// In an attribute value nothing that is flushed becomes a token.
proof fn lemma_flush_to_attribute(t: TokenizerModel, from: int, to: int)
    requires
        t.reference_in_attribute(),
    ensures
        t.flush_input(from, to).pending == t.pending,
    decreases to - from,
{
    if from < to {
        lemma_flush_to_attribute(
            t.flush_character(t.chars[from], t.positions[from]),
            from + 1,
            to,
        );
    }
}

proof fn lemma_flush_text_to_attribute(t: TokenizerModel, text: Seq<char>, position: Position)
    requires
        t.reference_in_attribute(),
    ensures
        t.flush_text(text, position).pending == t.pending,
    decreases text.len(),
{
    if text.len() > 0 {
        lemma_flush_text_to_attribute(
            t.flush_character(text[0], position),
            text.drop_first(),
            position,
        );
    }
}

proof fn orders_named_reference(t: TokenizerModel, low: int, ch: Option<char>)
    requires
        t.ready(low, ch, t.positions[t.unread(ch).index]),
        t.state is NamedCharacterReference,
    ensures
        t.unread(ch).named_reference().in_order(low),
{
    let u = t.unread(ch);
    let text = u.chars.skip(u.index);
    let table = references(text[0]);
    let position = u.positions[u.reference_start];
    if !t.reference_in_attribute() {
        orders_flush(u, low, '&', position);
    }
    if u.index < u.chars.len() {
        match longest_reference(table, text) {
            Some(i) => {
                lemma_longest_reference(table, text);
                let end = TokenizerModel { index: u.index + table[i].0@.len(), ..u };
                let error = end.error(
                    ParseErrorKind::MissingSemicolonAfterCharacterReference,
                    position,
                );
                assert(u.positions[u.index].byte_offset <= u.positions[end.index].byte_offset);
                lemma_flush_input(end, end.reference_start, end.index);
                lemma_flush_text(end, table[i].1@, position);
                lemma_flush_text(error, table[i].1@, position);
                if t.reference_in_attribute() {
                    lemma_flush_to_attribute(end, end.reference_start, end.index);
                    lemma_flush_text_to_attribute(end, table[i].1@, position);
                    lemma_flush_text_to_attribute(error, table[i].1@, position);
                } else {
                    orders_flush_text(end, low, table[i].1@, position);
                    orders_flush_text(error, low, table[i].1@, position);
                }
            },
            None => {},
        }
    }
}

proof fn orders_markup_declaration(t: TokenizerModel, low: int, ch: Option<char>)
    requires
        t.ready(low, ch, t.positions[t.unread(ch).index]),
        t.state is MarkupDeclarationOpen,
    ensures
        t.unread(ch).markup_declaration().in_order(low),
{
    reveal_strlit("--");
    reveal_strlit("DOCTYPE");
    reveal_strlit("[CDATA[");
}

proof fn orders_data_state(
    t: TokenizerModel,
    low: int,
    ch: Option<char>,
    position: Position,
)
    requires
        t.ready(low, ch, position),
        t.state is Data,
    ensures
        t.data_state(ch, position).in_order(low),
{
    reveal(TokenizerModel::data_state);
    if ch is Some {
        orders_emit(t, low, ch->0, position);
    }
}

proof fn orders_tag_open_state(
    t: TokenizerModel,
    low: int,
    ch: Option<char>,
    position: Position,
)
    requires
        t.ready(low, ch, position),
        t.state is TagOpen,
    ensures
        t.tag_open_state(ch, position).in_order(low),
{
    reveal(TokenizerModel::tag_open_state);
}

proof fn orders_end_tag_open_state(
    t: TokenizerModel,
    low: int,
    ch: Option<char>,
    position: Position,
)
    requires
        t.ready(low, ch, position),
        t.state is EndTagOpen,
    ensures
        t.end_tag_open_state(ch, position).in_order(low),
{
    reveal(TokenizerModel::end_tag_open_state);
}

proof fn orders_tag_name_state(
    t: TokenizerModel,
    low: int,
    ch: Option<char>,
    position: Position,
)
    requires
        t.ready(low, ch, position),
        t.state is TagName,
    ensures
        t.tag_name_state(ch, position).in_order(low),
{
    reveal(TokenizerModel::tag_name_state);
}

proof fn orders_before_attribute_name_state(
    t: TokenizerModel,
    low: int,
    ch: Option<char>,
    position: Position,
)
    requires
        t.ready(low, ch, position),
        t.state is BeforeAttributeName,
    ensures
        t.before_attribute_name_state(ch, position).in_order(low),
{
    reveal(TokenizerModel::before_attribute_name_state);
}

proof fn orders_attribute_name_state(
    t: TokenizerModel,
    low: int,
    ch: Option<char>,
    position: Position,
)
    requires
        t.ready(low, ch, position),
        t.state is AttributeName,
    ensures
        t.attribute_name_state(ch, position).in_order(low),
{
    reveal(TokenizerModel::attribute_name_state);
}

proof fn orders_after_attribute_name_state(
    t: TokenizerModel,
    low: int,
    ch: Option<char>,
    position: Position,
)
    requires
        t.ready(low, ch, position),
        t.state is AfterAttributeName,
    ensures
        t.after_attribute_name_state(ch, position).in_order(low),
{
    reveal(TokenizerModel::after_attribute_name_state);
}

proof fn orders_before_attribute_value_state(
    t: TokenizerModel,
    low: int,
    ch: Option<char>,
    position: Position,
)
    requires
        t.ready(low, ch, position),
        t.state is BeforeAttributeValue,
    ensures
        t.before_attribute_value_state(ch, position).in_order(low),
{
    reveal(TokenizerModel::before_attribute_value_state);
}

proof fn orders_attribute_value_quoted_state(
    t: TokenizerModel,
    low: int,
    ch: Option<char>,
    position: Position,
    quote: char,
    state: State,
)
    requires
        t.ready(low, ch, position),
        (t.state is AttributeValueDoubleQuoted && quote == '"'
            && state == State::AttributeValueDoubleQuoted)
            || (t.state is AttributeValueSingleQuoted && quote == '\''
            && state == State::AttributeValueSingleQuoted),
    ensures
        t.attribute_value_quoted_state(ch, position, quote, state).in_order(low),
{
    reveal(TokenizerModel::attribute_value_quoted_state);
}

proof fn orders_attribute_value_unquoted_state(
    t: TokenizerModel,
    low: int,
    ch: Option<char>,
    position: Position,
)
    requires
        t.ready(low, ch, position),
        t.state is AttributeValueUnquoted,
    ensures
        t.attribute_value_unquoted_state(ch, position).in_order(low),
{
    reveal(TokenizerModel::attribute_value_unquoted_state);
}

proof fn orders_after_attribute_value_quoted_state(
    t: TokenizerModel,
    low: int,
    ch: Option<char>,
    position: Position,
)
    requires
        t.ready(low, ch, position),
        t.state is AfterAttributeValueQuoted,
    ensures
        t.after_attribute_value_quoted_state(ch, position).in_order(low),
{
    reveal(TokenizerModel::after_attribute_value_quoted_state);
}

proof fn orders_self_closing_start_tag_state(
    t: TokenizerModel,
    low: int,
    ch: Option<char>,
    position: Position,
)
    requires
        t.ready(low, ch, position),
        t.state is SelfClosingStartTag,
    ensures
        t.self_closing_start_tag_state(ch, position).in_order(low),
{
    reveal(TokenizerModel::self_closing_start_tag_state);
}

proof fn orders_character_reference_state(
    t: TokenizerModel,
    low: int,
    ch: Option<char>,
    position: Position,
)
    requires
        t.ready(low, ch, position),
        t.state is CharacterReference,
    ensures
        t.character_reference_state(ch, position).in_order(low),
{
    reveal(TokenizerModel::character_reference_state);
    orders_abandon_reference(t, low, ch);
}

proof fn orders_ambiguous_ampersand_state(
    t: TokenizerModel,
    low: int,
    ch: Option<char>,
    position: Position,
)
    requires
        t.ready(low, ch, position),
        t.state is AmbiguousAmpersand,
    ensures
        t.ambiguous_ampersand_state(ch, position).in_order(low),
{
    reveal(TokenizerModel::ambiguous_ampersand_state);
}

proof fn orders_numeric_character_reference_state(
    t: TokenizerModel,
    low: int,
    ch: Option<char>,
    position: Position,
)
    requires
        t.ready(low, ch, position),
        t.state is NumericCharacterReference,
    ensures
        t.numeric_character_reference_state(ch, position).in_order(low),
{
    reveal(TokenizerModel::numeric_character_reference_state);
    let kind = ParseErrorKind::AbsenceOfDigitsInNumericCharacterReference;
    orders_abandon_reference(t.clear_code().error(kind, position), low, ch);
}

proof fn orders_hexadecimal_character_reference_start_state(
    t: TokenizerModel,
    low: int,
    ch: Option<char>,
    position: Position,
)
    requires
        t.ready(low, ch, position),
        t.state is HexadecimalCharacterReferenceStart,
    ensures
        t.hexadecimal_character_reference_start_state(ch, position).in_order(low),
{
    reveal(TokenizerModel::hexadecimal_character_reference_start_state);
    let kind = ParseErrorKind::AbsenceOfDigitsInNumericCharacterReference;
    orders_abandon_reference(t.error(kind, position), low, ch);
}

proof fn orders_hexadecimal_character_reference_state(
    t: TokenizerModel,
    low: int,
    ch: Option<char>,
    position: Position,
)
    requires
        t.ready(low, ch, position),
        t.state is HexadecimalCharacterReference,
    ensures
        t.hexadecimal_character_reference_state(ch, position).in_order(low),
{
    reveal(TokenizerModel::hexadecimal_character_reference_state);
}

proof fn orders_decimal_character_reference_state(
    t: TokenizerModel,
    low: int,
    ch: Option<char>,
    position: Position,
)
    requires
        t.ready(low, ch, position),
        t.state is DecimalCharacterReference,
    ensures
        t.decimal_character_reference_state(ch, position).in_order(low),
{
    reveal(TokenizerModel::decimal_character_reference_state);
}

proof fn orders_numeric_character_reference_end_state(
    t: TokenizerModel,
    low: int,
    ch: Option<char>,
    position: Position,
)
    requires
        t.ready(low, ch, position),
        t.state is NumericCharacterReferenceEnd,
    ensures
        t.numeric_character_reference_end_state(ch, position).in_order(low),
{
    reveal(TokenizerModel::numeric_character_reference_end_state);
}

proof fn orders_bogus_comment_state(
    t: TokenizerModel,
    low: int,
    ch: Option<char>,
    position: Position,
)
    requires
        t.ready(low, ch, position),
        t.state is BogusComment,
    ensures
        t.bogus_comment_state(ch, position).in_order(low),
{
    reveal(TokenizerModel::bogus_comment_state);
}

proof fn orders_comment_start_state(
    t: TokenizerModel,
    low: int,
    ch: Option<char>,
    position: Position,
)
    requires
        t.ready(low, ch, position),
        t.state is CommentStart,
    ensures
        t.comment_start_state(ch, position).in_order(low),
{
    reveal(TokenizerModel::comment_start_state);
}

proof fn orders_comment_start_dash_state(
    t: TokenizerModel,
    low: int,
    ch: Option<char>,
    position: Position,
)
    requires
        t.ready(low, ch, position),
        t.state is CommentStartDash,
    ensures
        t.comment_start_dash_state(ch, position).in_order(low),
{
    reveal(TokenizerModel::comment_start_dash_state);
}

proof fn orders_comment_state(
    t: TokenizerModel,
    low: int,
    ch: Option<char>,
    position: Position,
)
    requires
        t.ready(low, ch, position),
        t.state is Comment,
    ensures
        t.comment_state(ch, position).in_order(low),
{
    reveal(TokenizerModel::comment_state);
}

proof fn orders_comment_less_than_sign_state(
    t: TokenizerModel,
    low: int,
    ch: Option<char>,
    position: Position,
)
    requires
        t.ready(low, ch, position),
        t.state is CommentLessThanSign,
    ensures
        t.comment_less_than_sign_state(ch, position).in_order(low),
{
    reveal(TokenizerModel::comment_less_than_sign_state);
}

proof fn orders_comment_less_than_sign_bang_state(
    t: TokenizerModel,
    low: int,
    ch: Option<char>,
    position: Position,
)
    requires
        t.ready(low, ch, position),
        t.state is CommentLessThanSignBang,
    ensures
        t.comment_less_than_sign_bang_state(ch, position).in_order(low),
{
    reveal(TokenizerModel::comment_less_than_sign_bang_state);
}

proof fn orders_comment_less_than_sign_bang_dash_state(
    t: TokenizerModel,
    low: int,
    ch: Option<char>,
    position: Position,
)
    requires
        t.ready(low, ch, position),
        t.state is CommentLessThanSignBangDash,
    ensures
        t.comment_less_than_sign_bang_dash_state(ch, position).in_order(low),
{
    reveal(TokenizerModel::comment_less_than_sign_bang_dash_state);
}

proof fn orders_comment_less_than_sign_bang_dash_dash_state(
    t: TokenizerModel,
    low: int,
    ch: Option<char>,
    position: Position,
)
    requires
        t.ready(low, ch, position),
        t.state is CommentLessThanSignBangDashDash,
    ensures
        t.comment_less_than_sign_bang_dash_dash_state(ch, position).in_order(low),
{
    reveal(TokenizerModel::comment_less_than_sign_bang_dash_dash_state);
}

proof fn orders_comment_end_dash_state(
    t: TokenizerModel,
    low: int,
    ch: Option<char>,
    position: Position,
)
    requires
        t.ready(low, ch, position),
        t.state is CommentEndDash,
    ensures
        t.comment_end_dash_state(ch, position).in_order(low),
{
    reveal(TokenizerModel::comment_end_dash_state);
}

proof fn orders_comment_end_state(
    t: TokenizerModel,
    low: int,
    ch: Option<char>,
    position: Position,
)
    requires
        t.ready(low, ch, position),
        t.state is CommentEnd,
    ensures
        t.comment_end_state(ch, position).in_order(low),
{
    reveal(TokenizerModel::comment_end_state);
}

proof fn orders_comment_end_bang_state(
    t: TokenizerModel,
    low: int,
    ch: Option<char>,
    position: Position,
)
    requires
        t.ready(low, ch, position),
        t.state is CommentEndBang,
    ensures
        t.comment_end_bang_state(ch, position).in_order(low),
{
    reveal(TokenizerModel::comment_end_bang_state);
}

proof fn orders_doctype_state(
    t: TokenizerModel,
    low: int,
    ch: Option<char>,
    position: Position,
)
    requires
        t.ready(low, ch, position),
        t.state is Doctype,
    ensures
        t.doctype_state(ch, position).in_order(low),
{
    reveal(TokenizerModel::doctype_state);
}

proof fn orders_before_doctype_name_state(
    t: TokenizerModel,
    low: int,
    ch: Option<char>,
    position: Position,
)
    requires
        t.ready(low, ch, position),
        t.state is BeforeDoctypeName,
    ensures
        t.before_doctype_name_state(ch, position).in_order(low),
{
    reveal(TokenizerModel::before_doctype_name_state);
}

proof fn orders_doctype_name_state(
    t: TokenizerModel,
    low: int,
    ch: Option<char>,
    position: Position,
)
    requires
        t.ready(low, ch, position),
        t.state is DoctypeName,
    ensures
        t.doctype_name_state(ch, position).in_order(low),
{
    reveal(TokenizerModel::doctype_name_state);
}

proof fn orders_after_doctype_name_state(
    t: TokenizerModel,
    low: int,
    ch: Option<char>,
    position: Position,
)
    requires
        t.ready(low, ch, position),
        t.state is AfterDoctypeName,
    ensures
        t.after_doctype_name_state(ch, position).in_order(low),
{
    reveal(TokenizerModel::after_doctype_name_state);
    reveal_strlit("PUBLIC");
    reveal_strlit("SYSTEM");
}

proof fn orders_before_doctype_identifier_state(
    t: TokenizerModel,
    low: int,
    ch: Option<char>,
    position: Position,
    after_whitespace: State,
    kind: DoctypeIdentifierKind,
    double: State,
    single: State,
)
    requires
        t.ready(low, ch, position),
        (t.state is AfterDoctypePublicKeyword
            && after_whitespace == State::BeforeDoctypePublicIdentifier
            && kind == DoctypeIdentifierKind::Public
            && double == State::DoctypePublicIdentifierDoubleQuoted
            && single == State::DoctypePublicIdentifierSingleQuoted)
            || (t.state is BeforeDoctypePublicIdentifier
            && after_whitespace == State::BeforeDoctypePublicIdentifier
            && kind == DoctypeIdentifierKind::Public
            && double == State::DoctypePublicIdentifierDoubleQuoted
            && single == State::DoctypePublicIdentifierSingleQuoted)
            || (t.state is AfterDoctypeSystemKeyword
            && after_whitespace == State::BeforeDoctypeSystemIdentifier
            && kind == DoctypeIdentifierKind::System
            && double == State::DoctypeSystemIdentifierDoubleQuoted
            && single == State::DoctypeSystemIdentifierSingleQuoted)
            || (t.state is BeforeDoctypeSystemIdentifier
            && after_whitespace == State::BeforeDoctypeSystemIdentifier
            && kind == DoctypeIdentifierKind::System
            && double == State::DoctypeSystemIdentifierDoubleQuoted
            && single == State::DoctypeSystemIdentifierSingleQuoted),
    ensures
        t.before_doctype_identifier_state(
            ch,
            position,
            after_whitespace,
            kind,
            double,
            single,
        ).in_order(low),
{
    reveal(TokenizerModel::before_doctype_identifier_state);
}

proof fn orders_doctype_identifier_quoted_state(
    t: TokenizerModel,
    low: int,
    ch: Option<char>,
    position: Position,
    quote: char,
    kind: DoctypeIdentifierKind,
    after: State,
)
    requires
        t.ready(low, ch, position),
        (t.state is DoctypePublicIdentifierDoubleQuoted && quote == '"'
            && kind == DoctypeIdentifierKind::Public
            && after == State::AfterDoctypePublicIdentifier)
            || (t.state is DoctypePublicIdentifierSingleQuoted && quote == '\''
            && kind == DoctypeIdentifierKind::Public
            && after == State::AfterDoctypePublicIdentifier)
            || (t.state is DoctypeSystemIdentifierDoubleQuoted && quote == '"'
            && kind == DoctypeIdentifierKind::System
            && after == State::AfterDoctypeSystemIdentifier)
            || (t.state is DoctypeSystemIdentifierSingleQuoted && quote == '\''
            && kind == DoctypeIdentifierKind::System
            && after == State::AfterDoctypeSystemIdentifier),
    ensures
        t.doctype_identifier_quoted_state(ch, position, quote, kind, after).in_order(low),
{
    reveal(TokenizerModel::doctype_identifier_quoted_state);
}

proof fn orders_after_doctype_public_identifier_state(
    t: TokenizerModel,
    low: int,
    ch: Option<char>,
    position: Position,
)
    requires
        t.ready(low, ch, position),
        t.state is AfterDoctypePublicIdentifier,
    ensures
        t.after_doctype_public_identifier_state(ch, position).in_order(low),
{
    reveal(TokenizerModel::after_doctype_public_identifier_state);
}

proof fn orders_between_doctype_identifiers_state(
    t: TokenizerModel,
    low: int,
    ch: Option<char>,
    position: Position,
)
    requires
        t.ready(low, ch, position),
        t.state is BetweenDoctypePublicAndSystemIdentifiers,
    ensures
        t.between_doctype_identifiers_state(ch, position).in_order(low),
{
    reveal(TokenizerModel::between_doctype_identifiers_state);
}

proof fn orders_after_doctype_system_identifier_state(
    t: TokenizerModel,
    low: int,
    ch: Option<char>,
    position: Position,
)
    requires
        t.ready(low, ch, position),
        t.state is AfterDoctypeSystemIdentifier,
    ensures
        t.after_doctype_system_identifier_state(ch, position).in_order(low),
{
    reveal(TokenizerModel::after_doctype_system_identifier_state);
}

proof fn orders_bogus_doctype_rest_state(
    t: TokenizerModel,
    low: int,
    ch: Option<char>,
    position: Position,
)
    requires
        t.ready(low, ch, position),
        t.state is BogusDoctype,
    ensures
        t.bogus_doctype_rest_state(ch, position).in_order(low),
{
    reveal(TokenizerModel::bogus_doctype_rest_state);
}

proof fn orders_processing_instruction_open_state(
    t: TokenizerModel,
    low: int,
    ch: Option<char>,
    position: Position,
)
    requires
        t.ready(low, ch, position),
        t.state is ProcessingInstructionOpen,
    ensures
        t.processing_instruction_open_state(ch, position).in_order(low),
{
    reveal(TokenizerModel::processing_instruction_open_state);
}

proof fn orders_processing_instruction_target_state(
    t: TokenizerModel,
    low: int,
    ch: Option<char>,
    position: Position,
)
    requires
        t.ready(low, ch, position),
        t.state is ProcessingInstructionTarget,
    ensures
        t.processing_instruction_target_state(ch, position).in_order(low),
{
    reveal(TokenizerModel::processing_instruction_target_state);
}

proof fn orders_after_processing_instruction_target_state(
    t: TokenizerModel,
    low: int,
    ch: Option<char>,
    position: Position,
)
    requires
        t.ready(low, ch, position),
        t.state is AfterProcessingInstructionTarget,
    ensures
        t.after_processing_instruction_target_state(ch, position).in_order(low),
{
    reveal(TokenizerModel::after_processing_instruction_target_state);
}

proof fn orders_processing_instruction_data_state(
    t: TokenizerModel,
    low: int,
    ch: Option<char>,
    position: Position,
)
    requires
        t.ready(low, ch, position),
        t.state is ProcessingInstructionData,
    ensures
        t.processing_instruction_data_state(ch, position).in_order(low),
{
    reveal(TokenizerModel::processing_instruction_data_state);
}

proof fn orders_processing_instruction_questionable_state(
    t: TokenizerModel,
    low: int,
    ch: Option<char>,
    position: Position,
)
    requires
        t.ready(low, ch, position),
        t.state is ProcessingInstructionQuestionable,
    ensures
        t.processing_instruction_questionable_state(ch, position).in_order(low),
{
    reveal(TokenizerModel::processing_instruction_questionable_state);
}

proof fn orders_rcdata_state(
    t: TokenizerModel,
    low: int,
    ch: Option<char>,
    position: Position,
)
    requires
        t.ready(low, ch, position),
        t.state is RcData,
    ensures
        t.rcdata_state(ch, position).in_order(low),
{
    reveal(TokenizerModel::rcdata_state);
    if ch is Some {
        orders_emit(t, low, ch->0, position);
    }
}

proof fn orders_raw_text_state(
    t: TokenizerModel,
    low: int,
    ch: Option<char>,
    position: Position,
    less_than_sign: State,
)
    requires
        t.ready(low, ch, position),
        (t.state is RawText && less_than_sign == State::RawTextLessThanSign)
            || (t.state is ScriptData && less_than_sign == State::ScriptDataLessThanSign),
    ensures
        t.raw_text_state(ch, position, less_than_sign).in_order(low),
{
    reveal(TokenizerModel::raw_text_state);
    if ch is Some {
        orders_emit(t, low, ch->0, position);
    }
}

proof fn orders_text_less_than_sign_state(
    t: TokenizerModel,
    low: int,
    ch: Option<char>,
    position: Position,
    end_tag_open: State,
    text: State,
)
    requires
        t.ready(low, ch, position),
        (t.state is RcDataLessThanSign && end_tag_open == State::RcDataEndTagOpen
            && text == State::RcData)
            || (t.state is RawTextLessThanSign && end_tag_open == State::RawTextEndTagOpen
            && text == State::RawText),
    ensures
        t.text_less_than_sign_state(ch, position, end_tag_open, text).in_order(low),
{
    reveal(TokenizerModel::text_less_than_sign_state);
}

proof fn orders_text_end_tag_open_state(
    t: TokenizerModel,
    low: int,
    ch: Option<char>,
    position: Position,
    end_tag_name: State,
    text: State,
)
    requires
        t.ready(low, ch, position),
        (t.state is RcDataEndTagOpen && end_tag_name == State::RcDataEndTagName
            && text == State::RcData)
            || (t.state is RawTextEndTagOpen && end_tag_name == State::RawTextEndTagName
            && text == State::RawText)
            || (t.state is ScriptDataEndTagOpen && end_tag_name == State::ScriptDataEndTagName
            && text == State::ScriptData)
            || (t.state is ScriptDataEscapedEndTagOpen
            && end_tag_name == State::ScriptDataEscapedEndTagName
            && text == State::ScriptDataEscaped),
    ensures
        t.text_end_tag_open_state(ch, position, end_tag_name, text).in_order(low),
{
    reveal(TokenizerModel::text_end_tag_open_state);
}

proof fn orders_text_end_tag_name_state(
    t: TokenizerModel,
    low: int,
    ch: Option<char>,
    position: Position,
    text: State,
)
    requires
        t.ready(low, ch, position),
        (t.state is RcDataEndTagName && text == State::RcData)
            || (t.state is RawTextEndTagName && text == State::RawText)
            || (t.state is ScriptDataEndTagName && text == State::ScriptData)
            || (t.state is ScriptDataEscapedEndTagName && text == State::ScriptDataEscaped),
    ensures
        t.text_end_tag_name_state(ch, position, text).in_order(low),
{
    reveal(TokenizerModel::text_end_tag_name_state);
    let start = t.emit_less_than().emit_slash();
    lemma_emit_buffer(start, t.end_tag_buffer, t.slash_index);
    orders_emit_buffer(start, low, t.end_tag_buffer, t.slash_index);
}

proof fn orders_plain_text_state(
    t: TokenizerModel,
    low: int,
    ch: Option<char>,
    position: Position,
)
    requires
        t.ready(low, ch, position),
        t.state is PlainText,
    ensures
        t.plain_text_state(ch, position).in_order(low),
{
    reveal(TokenizerModel::plain_text_state);
    if ch is Some {
        orders_emit(t, low, ch->0, position);
    }
}

proof fn orders_script_data_less_than_sign_state(
    t: TokenizerModel,
    low: int,
    ch: Option<char>,
    position: Position,
)
    requires
        t.ready(low, ch, position),
        t.state is ScriptDataLessThanSign,
    ensures
        t.script_data_less_than_sign_state(ch, position).in_order(low),
{
    reveal(TokenizerModel::script_data_less_than_sign_state);
}

proof fn orders_script_data_escape_start_state(
    t: TokenizerModel,
    low: int,
    ch: Option<char>,
    position: Position,
    dash: State,
)
    requires
        t.ready(low, ch, position),
        (t.state is ScriptDataEscapeStart && dash == State::ScriptDataEscapeStartDash)
            || (t.state is ScriptDataEscapeStartDash && dash == State::ScriptDataEscapedDashDash),
    ensures
        t.script_data_escape_start_state(ch, position, dash).in_order(low),
{
    reveal(TokenizerModel::script_data_escape_start_state);
}

proof fn orders_script_data_escaped_state(
    t: TokenizerModel,
    low: int,
    ch: Option<char>,
    position: Position,
)
    requires
        t.ready(low, ch, position),
        t.state is ScriptDataEscaped,
    ensures
        t.script_data_escaped_state(ch, position).in_order(low),
{
    reveal(TokenizerModel::script_data_escaped_state);
    if ch is Some {
        orders_emit(t, low, ch->0, position);
    }
}

proof fn orders_script_data_escaped_dash_state(
    t: TokenizerModel,
    low: int,
    ch: Option<char>,
    position: Position,
)
    requires
        t.ready(low, ch, position),
        t.state is ScriptDataEscapedDash,
    ensures
        t.script_data_escaped_dash_state(ch, position).in_order(low),
{
    reveal(TokenizerModel::script_data_escaped_dash_state);
    if ch is Some {
        orders_emit(t, low, ch->0, position);
    }
}

proof fn orders_script_data_escaped_dash_dash_state(
    t: TokenizerModel,
    low: int,
    ch: Option<char>,
    position: Position,
)
    requires
        t.ready(low, ch, position),
        t.state is ScriptDataEscapedDashDash,
    ensures
        t.script_data_escaped_dash_dash_state(ch, position).in_order(low),
{
    reveal(TokenizerModel::script_data_escaped_dash_dash_state);
    if ch is Some {
        orders_emit(t, low, ch->0, position);
    }
}

proof fn orders_script_data_escaped_less_than_sign_state(
    t: TokenizerModel,
    low: int,
    ch: Option<char>,
    position: Position,
)
    requires
        t.ready(low, ch, position),
        t.state is ScriptDataEscapedLessThanSign,
    ensures
        t.script_data_escaped_less_than_sign_state(ch, position).in_order(low),
{
    reveal(TokenizerModel::script_data_escaped_less_than_sign_state);
}

proof fn orders_script_data_double_escape_state(
    t: TokenizerModel,
    low: int,
    ch: Option<char>,
    position: Position,
    script: State,
    other: State,
)
    requires
        t.ready(low, ch, position),
        (t.state is ScriptDataDoubleEscapeStart && script == State::ScriptDataDoubleEscaped
            && other == State::ScriptDataEscaped)
            || (t.state is ScriptDataDoubleEscapeEnd && script == State::ScriptDataEscaped
            && other == State::ScriptDataDoubleEscaped),
    ensures
        t.script_data_double_escape_state(ch, position, script, other).in_order(low),
{
    reveal(TokenizerModel::script_data_double_escape_state);
}

proof fn orders_script_data_double_escaped_state(
    t: TokenizerModel,
    low: int,
    ch: Option<char>,
    position: Position,
)
    requires
        t.ready(low, ch, position),
        t.state is ScriptDataDoubleEscaped,
    ensures
        t.script_data_double_escaped_state(ch, position).in_order(low),
{
    reveal(TokenizerModel::script_data_double_escaped_state);
    if ch is Some {
        orders_emit(t, low, ch->0, position);
    }
}

proof fn orders_script_data_double_escaped_dash_state(
    t: TokenizerModel,
    low: int,
    ch: Option<char>,
    position: Position,
)
    requires
        t.ready(low, ch, position),
        t.state is ScriptDataDoubleEscapedDash,
    ensures
        t.script_data_double_escaped_dash_state(ch, position).in_order(low),
{
    reveal(TokenizerModel::script_data_double_escaped_dash_state);
    if ch is Some {
        orders_emit(t, low, ch->0, position);
    }
}

proof fn orders_script_data_double_escaped_dash_dash_state(
    t: TokenizerModel,
    low: int,
    ch: Option<char>,
    position: Position,
)
    requires
        t.ready(low, ch, position),
        t.state is ScriptDataDoubleEscapedDashDash,
    ensures
        t.script_data_double_escaped_dash_dash_state(ch, position).in_order(low),
{
    reveal(TokenizerModel::script_data_double_escaped_dash_dash_state);
    if ch is Some {
        orders_emit(t, low, ch->0, position);
    }
}

proof fn orders_script_data_double_escaped_less_than_sign_state(
    t: TokenizerModel,
    low: int,
    ch: Option<char>,
    position: Position,
)
    requires
        t.ready(low, ch, position),
        t.state is ScriptDataDoubleEscapedLessThanSign,
    ensures
        t.script_data_double_escaped_less_than_sign_state(ch, position).in_order(low),
{
    reveal(TokenizerModel::script_data_double_escaped_less_than_sign_state);
}

proof fn orders_cdata_section_state(
    t: TokenizerModel,
    low: int,
    ch: Option<char>,
    position: Position,
)
    requires
        t.ready(low, ch, position),
        t.state is CdataSection,
    ensures
        t.cdata_section_state(ch, position).in_order(low),
{
    reveal(TokenizerModel::cdata_section_state);
    if ch is Some {
        orders_emit(t, low, ch->0, position);
    }
}

proof fn orders_cdata_section_bracket_state(
    t: TokenizerModel,
    low: int,
    ch: Option<char>,
    position: Position,
)
    requires
        t.ready(low, ch, position),
        t.state is CdataSectionBracket,
    ensures
        t.cdata_section_bracket_state(ch, position).in_order(low),
{
    reveal(TokenizerModel::cdata_section_bracket_state);
}

proof fn orders_cdata_section_end_state(
    t: TokenizerModel,
    low: int,
    ch: Option<char>,
    position: Position,
)
    requires
        t.ready(low, ch, position),
        t.state is CdataSectionEnd,
    ensures
        t.cdata_section_end_state(ch, position).in_order(low),
{
    reveal(TokenizerModel::cdata_section_end_state);
    let first = t.emit_oldest_bracket();
    assert(first.emit_oldest_bracket().emit_brackets() == first.emit_oldest_bracket());
    assert(first.emit_brackets() == first.emit_oldest_bracket());
    assert(t.emit_brackets() == first.emit_oldest_bracket());
}

/// Every step keeps the tokens in order.
pub proof fn lemma_step_keeps_order(
    t: TokenizerModel,
    low: int,
    ch: Option<char>,
    position: Position,
)
    requires
        t.ready(low, ch, position),
    ensures
        t.step(ch, position).in_order(low),
{
    reveal(TokenizerModel::step);
    match t.state {
        State::Data => orders_data_state(t, low, ch, position),
        State::TagOpen => orders_tag_open_state(t, low, ch, position),
        State::EndTagOpen => orders_end_tag_open_state(t, low, ch, position),
        State::TagName => orders_tag_name_state(t, low, ch, position),
        State::BeforeAttributeName => orders_before_attribute_name_state(t, low, ch, position),
        State::AttributeName => orders_attribute_name_state(t, low, ch, position),
        State::AfterAttributeName => orders_after_attribute_name_state(t, low, ch, position),
        State::BeforeAttributeValue => orders_before_attribute_value_state(t, low, ch, position),
        State::AttributeValueDoubleQuoted => {
            orders_attribute_value_quoted_state(t, low, ch, position,
                '"',
                State::AttributeValueDoubleQuoted,
            )
        },
        State::AttributeValueSingleQuoted => {
            orders_attribute_value_quoted_state(t, low, ch, position,
                '\'',
                State::AttributeValueSingleQuoted,
            )
        },
        State::AttributeValueUnquoted => {
            orders_attribute_value_unquoted_state(t, low, ch, position)
        },
        State::AfterAttributeValueQuoted => {
            orders_after_attribute_value_quoted_state(t, low, ch, position)
        },
        State::SelfClosingStartTag => orders_self_closing_start_tag_state(t, low, ch, position),
        State::CharacterReference => orders_character_reference_state(t, low, ch, position),
        State::NamedCharacterReference => orders_named_reference(t, low, ch),
        State::AmbiguousAmpersand => orders_ambiguous_ampersand_state(t, low, ch, position),
        State::NumericCharacterReference => {
            orders_numeric_character_reference_state(t, low, ch, position)
        },
        State::HexadecimalCharacterReferenceStart => {
            orders_hexadecimal_character_reference_start_state(t, low, ch, position)
        },
        State::HexadecimalCharacterReference => {
            orders_hexadecimal_character_reference_state(t, low, ch, position)
        },
        State::DecimalCharacterReference => {
            orders_decimal_character_reference_state(t, low, ch, position)
        },
        State::NumericCharacterReferenceEnd => {
            orders_numeric_character_reference_end_state(t, low, ch, position)
        },
        State::MarkupDeclarationOpen => {
            orders_markup_declaration(t, low, ch);
        },
        State::BogusComment => orders_bogus_comment_state(t, low, ch, position),
        State::CommentStart => orders_comment_start_state(t, low, ch, position),
        State::CommentStartDash => orders_comment_start_dash_state(t, low, ch, position),
        State::Comment => orders_comment_state(t, low, ch, position),
        State::CommentLessThanSign => orders_comment_less_than_sign_state(t, low, ch, position),
        State::CommentLessThanSignBang => {
            orders_comment_less_than_sign_bang_state(t, low, ch, position)
        },
        State::CommentLessThanSignBangDash => {
            orders_comment_less_than_sign_bang_dash_state(t, low, ch, position)
        },
        State::CommentLessThanSignBangDashDash => {
            orders_comment_less_than_sign_bang_dash_dash_state(t, low, ch, position)
        },
        State::CommentEndDash => orders_comment_end_dash_state(t, low, ch, position),
        State::CommentEnd => orders_comment_end_state(t, low, ch, position),
        State::CommentEndBang => orders_comment_end_bang_state(t, low, ch, position),
        State::Doctype => orders_doctype_state(t, low, ch, position),
        State::BeforeDoctypeName => orders_before_doctype_name_state(t, low, ch, position),
        State::DoctypeName => orders_doctype_name_state(t, low, ch, position),
        State::AfterDoctypeName => orders_after_doctype_name_state(t, low, ch, position),
        State::AfterDoctypePublicKeyword => {
            orders_before_doctype_identifier_state(t, low, ch, position,
                State::BeforeDoctypePublicIdentifier,
                DoctypeIdentifierKind::Public,
                State::DoctypePublicIdentifierDoubleQuoted,
                State::DoctypePublicIdentifierSingleQuoted,
            )
        },
        State::BeforeDoctypePublicIdentifier => {
            orders_before_doctype_identifier_state(t, low, ch, position,
                State::BeforeDoctypePublicIdentifier,
                DoctypeIdentifierKind::Public,
                State::DoctypePublicIdentifierDoubleQuoted,
                State::DoctypePublicIdentifierSingleQuoted,
            )
        },
        State::DoctypePublicIdentifierDoubleQuoted => {
            orders_doctype_identifier_quoted_state(t, low, ch, position,
                '"',
                DoctypeIdentifierKind::Public,
                State::AfterDoctypePublicIdentifier,
            )
        },
        State::DoctypePublicIdentifierSingleQuoted => {
            orders_doctype_identifier_quoted_state(t, low, ch, position,
                '\'',
                DoctypeIdentifierKind::Public,
                State::AfterDoctypePublicIdentifier,
            )
        },
        State::AfterDoctypePublicIdentifier => {
            orders_after_doctype_public_identifier_state(t, low, ch, position)
        },
        State::BetweenDoctypePublicAndSystemIdentifiers => {
            orders_between_doctype_identifiers_state(t, low, ch, position)
        },
        State::AfterDoctypeSystemKeyword => {
            orders_before_doctype_identifier_state(t, low, ch, position,
                State::BeforeDoctypeSystemIdentifier,
                DoctypeIdentifierKind::System,
                State::DoctypeSystemIdentifierDoubleQuoted,
                State::DoctypeSystemIdentifierSingleQuoted,
            )
        },
        State::BeforeDoctypeSystemIdentifier => {
            orders_before_doctype_identifier_state(t, low, ch, position,
                State::BeforeDoctypeSystemIdentifier,
                DoctypeIdentifierKind::System,
                State::DoctypeSystemIdentifierDoubleQuoted,
                State::DoctypeSystemIdentifierSingleQuoted,
            )
        },
        State::DoctypeSystemIdentifierDoubleQuoted => {
            orders_doctype_identifier_quoted_state(t, low, ch, position,
                '"',
                DoctypeIdentifierKind::System,
                State::AfterDoctypeSystemIdentifier,
            )
        },
        State::DoctypeSystemIdentifierSingleQuoted => {
            orders_doctype_identifier_quoted_state(t, low, ch, position,
                '\'',
                DoctypeIdentifierKind::System,
                State::AfterDoctypeSystemIdentifier,
            )
        },
        State::AfterDoctypeSystemIdentifier => {
            orders_after_doctype_system_identifier_state(t, low, ch, position)
        },
        State::BogusDoctype => orders_bogus_doctype_rest_state(t, low, ch, position),
        State::ProcessingInstructionOpen => {
            orders_processing_instruction_open_state(t, low, ch, position)
        },
        State::ProcessingInstructionTarget => {
            orders_processing_instruction_target_state(t, low, ch, position)
        },
        State::AfterProcessingInstructionTarget => {
            orders_after_processing_instruction_target_state(t, low, ch, position)
        },
        State::ProcessingInstructionData => {
            orders_processing_instruction_data_state(t, low, ch, position)
        },
        State::ProcessingInstructionQuestionable => {
            orders_processing_instruction_questionable_state(t, low, ch, position)
        },
        State::RcData => orders_rcdata_state(t, low, ch, position),
        State::RcDataLessThanSign => {
            orders_text_less_than_sign_state(
                t,
                low,
                ch,
                position,
                State::RcDataEndTagOpen,
                State::RcData,
            )
        },
        State::RcDataEndTagOpen => {
            orders_text_end_tag_open_state(
                t,
                low,
                ch,
                position,
                State::RcDataEndTagName,
                State::RcData,
            )
        },
        State::RcDataEndTagName => {
            orders_text_end_tag_name_state(t, low, ch, position, State::RcData)
        },
        State::RawText => orders_raw_text_state(t, low, ch, position, State::RawTextLessThanSign),
        State::RawTextLessThanSign => {
            orders_text_less_than_sign_state(t, low, ch, position,
                State::RawTextEndTagOpen,
                State::RawText,
            )
        },
        State::RawTextEndTagOpen => {
            orders_text_end_tag_open_state(
                t,
                low,
                ch,
                position,
                State::RawTextEndTagName,
                State::RawText,
            )
        },
        State::RawTextEndTagName => {
            orders_text_end_tag_name_state(t, low, ch, position, State::RawText)
        },
        State::PlainText => orders_plain_text_state(t, low, ch, position),
        State::ScriptData => {
            orders_raw_text_state(t, low, ch, position, State::ScriptDataLessThanSign)
        },
        State::ScriptDataLessThanSign => {
            orders_script_data_less_than_sign_state(t, low, ch, position)
        },
        State::ScriptDataEndTagOpen => {
            orders_text_end_tag_open_state(t, low, ch, position,
                State::ScriptDataEndTagName,
                State::ScriptData,
            )
        },
        State::ScriptDataEndTagName => {
            orders_text_end_tag_name_state(t, low, ch, position, State::ScriptData)
        },
        State::ScriptDataEscapeStart => {
            orders_script_data_escape_start_state(
                t,
                low,
                ch,
                position,
                State::ScriptDataEscapeStartDash,
            )
        },
        State::ScriptDataEscapeStartDash => {
            orders_script_data_escape_start_state(
                t,
                low,
                ch,
                position,
                State::ScriptDataEscapedDashDash,
            )
        },
        State::ScriptDataEscaped => orders_script_data_escaped_state(t, low, ch, position),
        State::ScriptDataEscapedDash => orders_script_data_escaped_dash_state(t, low, ch, position),
        State::ScriptDataEscapedDashDash => {
            orders_script_data_escaped_dash_dash_state(t, low, ch, position)
        },
        State::ScriptDataEscapedLessThanSign => {
            orders_script_data_escaped_less_than_sign_state(t, low, ch, position)
        },
        State::ScriptDataEscapedEndTagOpen => {
            orders_text_end_tag_open_state(t, low, ch, position,
                State::ScriptDataEscapedEndTagName,
                State::ScriptDataEscaped,
            )
        },
        State::ScriptDataEscapedEndTagName => {
            orders_text_end_tag_name_state(t, low, ch, position, State::ScriptDataEscaped)
        },
        State::ScriptDataDoubleEscapeStart => {
            orders_script_data_double_escape_state(t, low, ch, position,
                State::ScriptDataDoubleEscaped,
                State::ScriptDataEscaped,
            )
        },
        State::ScriptDataDoubleEscaped => {
            orders_script_data_double_escaped_state(t, low, ch, position)
        },
        State::ScriptDataDoubleEscapedDash => {
            orders_script_data_double_escaped_dash_state(t, low, ch, position)
        },
        State::ScriptDataDoubleEscapedDashDash => {
            orders_script_data_double_escaped_dash_dash_state(t, low, ch, position)
        },
        State::ScriptDataDoubleEscapedLessThanSign => {
            orders_script_data_double_escaped_less_than_sign_state(t, low, ch, position)
        },
        State::ScriptDataDoubleEscapeEnd => {
            orders_script_data_double_escape_state(t, low, ch, position,
                State::ScriptDataEscaped,
                State::ScriptDataDoubleEscaped,
            )
        },
        State::CdataSection => orders_cdata_section_state(t, low, ch, position),
        State::CdataSectionBracket => orders_cdata_section_bracket_state(t, low, ch, position),
        State::CdataSectionEnd => orders_cdata_section_end_state(t, low, ch, position),
    }
}

proof fn orders_run(t: TokenizerModel, low: int)
    requires
        t.in_order(low),
        t.inv(),
        !t.eof_returned,
    ensures
        t.run().in_order(low),
    decreases t.remaining(),
{
    if t.pending.len() == 0 {
        lemma_step(t.consume(), t.peek(), t.positions[t.index]);
        lemma_step_keeps_order(t.consume(), low, t.peek(), t.positions[t.index]);
        let next = t.advance();
        if next.pending.len() == 0 && 0 <= next.remaining() < t.remaining() {
            orders_run(next, low);
        }
    }
}

/// A token that is given out starts at `low` or later, where all that wait or are
/// still to be made do; and from then on all of them start where it starts, or
/// later. The end-of-file token is at the end of the source.
pub proof fn lemma_next_in_order(t: TokenizerModel, low: int)
    requires
        t.in_order(low),
        t.inv(),
    ensures
        match t.next() {
            (Some(token), next) => {
                &&& low <= token.position.byte_offset
                &&& next.in_order(token.position.byte_offset as int)
                &&& token.kind is Eof ==> token.position == t.positions[t.chars.len() as int]
            },
            (None, next) => next.in_order(low),
        },
{
    if !t.eof_returned {
        lemma_run(t);
        orders_run(t, low);
        let ready = t.run();
        let after = ready.take_token();
        let first = ready.pending[0];
        assert forall|i: int| 0 <= i < after.pending.len() implies #[trigger] after.pending[i]
            == ready.pending[i + 1] by {}
        if after.pending.len() > 0 {
            assert(after.pending.last() == ready.pending.last());
        }
    }
}

/// What tree construction tells the tokenizer keeps the tokens in order, as long
/// as no bracket is held back.
pub proof fn lemma_feedback_keeps_order(
    t: TokenizerModel,
    low: int,
    state: ExternalState,
    in_foreign_content: bool,
)
    requires
        t.in_order(low),
        t.pending_brackets.len() == 0,
    ensures
        t.switch_to(state).in_order(low),
        t.set_in_foreign_content(in_foreign_content).in_order(low),
{
}

} // verus!
