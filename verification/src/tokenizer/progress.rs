//! Why reading comes to an end: every step either emits the end of the file or
//! leaves less to do.
use vstd::prelude::*;

use crate::entities::{lemma_longest_reference, longest_reference, references};
use crate::text::is_tag_whitespace;
use crate::token::{ParseErrorKind, Position, TokenModel};
use crate::tokenizer::model::{eof_only_last, DoctypeIdentifierKind, State, TokenizerModel};

verus! {

impl TokenizerModel {
    /// Reading a character token by token: reads the next character, or the end
    /// of the input, in the current state.
    pub open spec fn advance(self) -> Self {
        self.consume().step(self.peek(), self.positions[self.index])
    }

    /// The states that a character reference can interrupt.
    pub open spec fn returns_to_text(self) -> bool {
        ||| self.return_state is Data
        ||| self.return_state is RcData
        ||| self.reference_in_attribute()
    }

    /// How many more times the character `ch` can be read again.
    pub open spec fn rank(self, ch: Option<char>) -> int {
        match self.state {
            State::MarkupDeclarationOpen => 15,
            State::NumericCharacterReference => 13,
            State::CharacterReference | State::HexadecimalCharacterReferenceStart => 12,
            State::HexadecimalCharacterReference | State::DecimalCharacterReference => 11,
            State::NumericCharacterReferenceEnd | State::NamedCharacterReference => 10,
            State::AmbiguousAmpersand => 9,
            State::AfterAttributeValueQuoted | State::SelfClosingStartTag => 4,
            State::BeforeAttributeName | State::ProcessingInstructionOpen => 3,
            State::AttributeName => match ch {
                Some(c) => if is_tag_whitespace(c) || c == '/' || c == '>' {
                    2
                } else {
                    0
                },
                None => 2,
            },
            State::CommentLessThanSignBangDash
            | State::CommentLessThanSignBangDashDash
            | State::ProcessingInstructionTarget
            | State::RcDataEndTagOpen
            | State::RawTextEndTagOpen
            | State::ScriptDataEndTagOpen
            | State::ScriptDataEscapedEndTagOpen
            | State::ScriptDataEscapedLessThanSign => 2,
            State::Data
            | State::TagName
            | State::AttributeValueDoubleQuoted
            | State::AttributeValueSingleQuoted
            | State::AttributeValueUnquoted
            | State::BogusComment
            | State::Comment
            | State::BeforeDoctypeName
            | State::BogusDoctype
            | State::ProcessingInstructionData
            | State::RcData
            | State::RawText
            | State::PlainText
            | State::ScriptData
            | State::ScriptDataEscaped
            | State::ScriptDataDoubleEscaped
            | State::CdataSection => 0,
            _ => 1,
        }
    }

    /// The end of the file is waiting to be given out.
    pub open spec fn ends_waiting(self) -> bool {
        self.pending.len() > 0 && self.pending.last().kind is Eof
    }

    /// What is left to do: it shrinks with every step but that which emits the
    /// end of the file.
    pub open spec fn remaining(self) -> int {
        (self.chars.len() - self.index) * 16 + self.rank(self.peek())
    }

    /// The same, when `ch` has just been read.
    pub open spec fn remaining_with(self, ch: Option<char>) -> int {
        (self.chars.len() - self.index) * 16 + self.rank(ch) + if ch is Some {
            16int
        } else {
            0
        }
    }

    /// A step from `self` that read `ch` leads to `next`: the input is the same,
    /// and either the end of the file came out or less is left to do.
    pub open spec fn stepped(self, ch: Option<char>, next: Self) -> bool {
        &&& next.wf()
        &&& next.returns_to_text()
        &&& next.chars == self.chars
        &&& next.positions == self.positions
        &&& next.eof_returned == self.eof_returned
        &&& next.remaining() < self.remaining_with(ch) || next.ends_waiting()
        &&& eof_only_last(next.pending)
    }

    /// The state right after `ch` was read, with no token waiting.
    pub open spec fn has_read(self, ch: Option<char>) -> bool {
        &&& self.wf()
        &&& self.returns_to_text()
        &&& self.pending.len() == 0
        &&& match ch {
            Some(c) => self.index > 0 && self.chars[self.index - 1] == c,
            None => self.index == self.chars.len(),
        }
    }
}

/// No end-of-file token among the tokens.
pub open spec fn no_eof(tokens: Seq<TokenModel>) -> bool {
    forall|i: int| 0 <= i < tokens.len() ==> !((#[trigger] tokens[i]).kind is Eof)
}

impl TokenizerModel {
    /// `next` differs from `self` only in tokens that were added and in the tag
    /// being read.
    pub open spec fn only_flushed(self, next: Self) -> bool {
        &&& next == TokenizerModel {
            pending: next.pending,
            current_tag: next.current_tag,
            ..self
        }
        &&& no_eof(self.pending) ==> no_eof(next.pending)
        &&& self.pending.len() <= next.pending.len()
    }
}

/// Emitting a character adds one token.
pub(crate) proof fn lemma_emit_character(t: TokenizerModel, c: char, position: Position)
    ensures
        t.emit_character(c, position).pending.len() == t.pending.len() + 1,
        t.only_flushed(t.emit_character(c, position)),
{
}

/// Flushing a character changes nothing but tokens and the tag being read.
pub(crate) proof fn lemma_flush_character(t: TokenizerModel, c: char, position: Position)
    ensures
        t.only_flushed(t.flush_character(c, position)),
{
}

pub(crate) proof fn lemma_flush_input(t: TokenizerModel, from: int, to: int)
    ensures
        t.only_flushed(t.flush_input(from, to)),
    decreases to - from,
{
    if from < to {
        lemma_flush_character(t, t.chars[from], t.positions[from]);
        lemma_flush_input(t.flush_character(t.chars[from], t.positions[from]), from + 1, to);
    }
}

pub(crate) proof fn lemma_flush_text(t: TokenizerModel, text: Seq<char>, position: Position)
    ensures
        t.only_flushed(t.flush_text(text, position)),
    decreases text.len(),
{
    if text.len() > 0 {
        lemma_flush_character(t, text[0], position);
        lemma_flush_text(t.flush_character(text[0], position), text.drop_first(), position);
    }
}

/// Emitting a text changes nothing but tokens.
pub(crate) proof fn lemma_emit_buffer(t: TokenizerModel, text: Seq<char>, at: int)
    ensures
        t.only_flushed(t.emit_buffer(text, at)),
        t.emit_buffer(text, at).current_tag == t.current_tag,
    decreases text.len(),
{
    if text.len() > 0 {
        let next = t.index_after(at);
        let first = t.emit_character(text[0], t.positions[next]);
        lemma_emit_character(t, text[0], t.positions[next]);
        lemma_emit_buffer(first, text.drop_first(), next);
    }
}

proof fn lemma_emit_brackets(t: TokenizerModel)
    ensures
        t.drop_brackets().only_flushed(t.emit_brackets()),
        t.emit_brackets().current_tag == t.current_tag,
    decreases t.pending_brackets.len(),
{
    if t.pending_brackets.len() > 0 {
        lemma_emit_brackets(t.emit_oldest_bracket());
    } else {
        assert(t.drop_brackets() == t);
    }
}

proof fn lemma_abandon_reference(t: TokenizerModel, ch: Option<char>)
    ensures
        t.unread(ch).goto_return().only_flushed(t.abandon_reference(ch)),
{
    let u = t.unread(ch);
    lemma_flush_input(u, u.reference_start, u.index);
}

proof fn lemma_named_reference(t: TokenizerModel, ch: Option<char>)
    requires
        t.has_read(ch),
        t.state is NamedCharacterReference,
    ensures
        t.stepped(ch, t.unread(ch).named_reference()),
{
    let u = t.unread(ch);
    let text = u.chars.skip(u.index);
    let table = references(text[0]);
    if u.index < u.chars.len() {
        match longest_reference(table, text) {
            Some(i) => {
                lemma_longest_reference(table, text);
                let end = TokenizerModel { index: u.index + table[i].0@.len(), ..u };
                let position = u.positions[u.reference_start];
                lemma_flush_input(end, end.reference_start, end.index);
                lemma_flush_text(end, table[i].1@, position);
                lemma_flush_text(
                    end.error(ParseErrorKind::MissingSemicolonAfterCharacterReference, position),
                    table[i].1@,
                    position,
                );
            },
            None => {},
        }
    }
}

proof fn lemma_data_state(t: TokenizerModel, ch: Option<char>, position: Position)
    requires
        t.has_read(ch),
        t.state is Data,
    ensures
        t.stepped(ch, t.data_state(ch, position)),
{
    reveal(TokenizerModel::data_state);
    if ch is Some {
        lemma_emit_character(t, ch->0, position);
    }
}

proof fn lemma_tag_open_state(t: TokenizerModel, ch: Option<char>, position: Position)
    requires
        t.has_read(ch),
        t.state is TagOpen,
    ensures
        t.stepped(ch, t.tag_open_state(ch, position)),
{
    reveal(TokenizerModel::tag_open_state);
}

proof fn lemma_end_tag_open_state(t: TokenizerModel, ch: Option<char>, position: Position)
    requires
        t.has_read(ch),
        t.state is EndTagOpen,
    ensures
        t.stepped(ch, t.end_tag_open_state(ch, position)),
{
    reveal(TokenizerModel::end_tag_open_state);
}

proof fn lemma_tag_name_state(t: TokenizerModel, ch: Option<char>, position: Position)
    requires
        t.has_read(ch),
        t.state is TagName,
    ensures
        t.stepped(ch, t.tag_name_state(ch, position)),
{
    reveal(TokenizerModel::tag_name_state);
}

proof fn lemma_before_attribute_name_state(t: TokenizerModel, ch: Option<char>, position: Position)
    requires
        t.has_read(ch),
        t.state is BeforeAttributeName,
    ensures
        t.stepped(ch, t.before_attribute_name_state(ch, position)),
{
    reveal(TokenizerModel::before_attribute_name_state);
}

proof fn lemma_attribute_name_state(t: TokenizerModel, ch: Option<char>, position: Position)
    requires
        t.has_read(ch),
        t.state is AttributeName,
    ensures
        t.stepped(ch, t.attribute_name_state(ch, position)),
{
    reveal(TokenizerModel::attribute_name_state);
}

proof fn lemma_after_attribute_name_state(t: TokenizerModel, ch: Option<char>, position: Position)
    requires
        t.has_read(ch),
        t.state is AfterAttributeName,
    ensures
        t.stepped(ch, t.after_attribute_name_state(ch, position)),
{
    reveal(TokenizerModel::after_attribute_name_state);
}

proof fn lemma_before_attribute_value_state(t: TokenizerModel, ch: Option<char>, position: Position)
    requires
        t.has_read(ch),
        t.state is BeforeAttributeValue,
    ensures
        t.stepped(ch, t.before_attribute_value_state(ch, position)),
{
    reveal(TokenizerModel::before_attribute_value_state);
}

proof fn lemma_attribute_value_quoted_state(
    t: TokenizerModel,
    ch: Option<char>,
    position: Position,
    quote: char,
    state: State,
)
    requires
        t.has_read(ch),
        (t.state is AttributeValueDoubleQuoted && quote == '"'
            && state == State::AttributeValueDoubleQuoted)
            || (t.state is AttributeValueSingleQuoted && quote == '\''
            && state == State::AttributeValueSingleQuoted),
    ensures
        t.stepped(ch, t.attribute_value_quoted_state(ch, position, quote, state)),
{
    reveal(TokenizerModel::attribute_value_quoted_state);
}

proof fn lemma_attribute_value_unquoted_state(
    t: TokenizerModel,
    ch: Option<char>,
    position: Position,
)
    requires
        t.has_read(ch),
        t.state is AttributeValueUnquoted,
    ensures
        t.stepped(ch, t.attribute_value_unquoted_state(ch, position)),
{
    reveal(TokenizerModel::attribute_value_unquoted_state);
}

proof fn lemma_after_attribute_value_quoted_state(
    t: TokenizerModel,
    ch: Option<char>,
    position: Position,
)
    requires
        t.has_read(ch),
        t.state is AfterAttributeValueQuoted,
    ensures
        t.stepped(ch, t.after_attribute_value_quoted_state(ch, position)),
{
    reveal(TokenizerModel::after_attribute_value_quoted_state);
}

proof fn lemma_self_closing_start_tag_state(t: TokenizerModel, ch: Option<char>, position: Position)
    requires
        t.has_read(ch),
        t.state is SelfClosingStartTag,
    ensures
        t.stepped(ch, t.self_closing_start_tag_state(ch, position)),
{
    reveal(TokenizerModel::self_closing_start_tag_state);
}

proof fn lemma_character_reference_state(t: TokenizerModel, ch: Option<char>, position: Position)
    requires
        t.has_read(ch),
        t.state is CharacterReference,
    ensures
        t.stepped(ch, t.character_reference_state(ch, position)),
{
    reveal(TokenizerModel::character_reference_state);
    lemma_abandon_reference(t, ch);
}

proof fn lemma_ambiguous_ampersand_state(t: TokenizerModel, ch: Option<char>, position: Position)
    requires
        t.has_read(ch),
        t.state is AmbiguousAmpersand,
    ensures
        t.stepped(ch, t.ambiguous_ampersand_state(ch, position)),
{
    reveal(TokenizerModel::ambiguous_ampersand_state);
}

proof fn lemma_numeric_character_reference_state(
    t: TokenizerModel,
    ch: Option<char>,
    position: Position,
)
    requires
        t.has_read(ch),
        t.state is NumericCharacterReference,
    ensures
        t.stepped(ch, t.numeric_character_reference_state(ch, position)),
{
    reveal(TokenizerModel::numeric_character_reference_state);
    let e = t.clear_code().error(
        ParseErrorKind::AbsenceOfDigitsInNumericCharacterReference,
        position,
    );
    lemma_abandon_reference(e, ch);
}

proof fn lemma_hexadecimal_character_reference_start_state(
    t: TokenizerModel,
    ch: Option<char>,
    position: Position,
)
    requires
        t.has_read(ch),
        t.state is HexadecimalCharacterReferenceStart,
    ensures
        t.stepped(ch, t.hexadecimal_character_reference_start_state(ch, position)),
{
    reveal(TokenizerModel::hexadecimal_character_reference_start_state);
    lemma_abandon_reference(
        t.error(ParseErrorKind::AbsenceOfDigitsInNumericCharacterReference, position),
        ch,
    );
}

proof fn lemma_hexadecimal_character_reference_state(
    t: TokenizerModel,
    ch: Option<char>,
    position: Position,
)
    requires
        t.has_read(ch),
        t.state is HexadecimalCharacterReference,
    ensures
        t.stepped(ch, t.hexadecimal_character_reference_state(ch, position)),
{
    reveal(TokenizerModel::hexadecimal_character_reference_state);
}

proof fn lemma_decimal_character_reference_state(
    t: TokenizerModel,
    ch: Option<char>,
    position: Position,
)
    requires
        t.has_read(ch),
        t.state is DecimalCharacterReference,
    ensures
        t.stepped(ch, t.decimal_character_reference_state(ch, position)),
{
    reveal(TokenizerModel::decimal_character_reference_state);
}

proof fn lemma_numeric_character_reference_end_state(
    t: TokenizerModel,
    ch: Option<char>,
    position: Position,
)
    requires
        t.has_read(ch),
        t.state is NumericCharacterReferenceEnd,
    ensures
        t.stepped(ch, t.numeric_character_reference_end_state(ch, position)),
{
    reveal(TokenizerModel::numeric_character_reference_end_state);
}

proof fn lemma_bogus_comment_state(t: TokenizerModel, ch: Option<char>, position: Position)
    requires
        t.has_read(ch),
        t.state is BogusComment,
    ensures
        t.stepped(ch, t.bogus_comment_state(ch, position)),
{
    reveal(TokenizerModel::bogus_comment_state);
}

proof fn lemma_comment_start_state(t: TokenizerModel, ch: Option<char>, position: Position)
    requires
        t.has_read(ch),
        t.state is CommentStart,
    ensures
        t.stepped(ch, t.comment_start_state(ch, position)),
{
    reveal(TokenizerModel::comment_start_state);
}

proof fn lemma_comment_start_dash_state(t: TokenizerModel, ch: Option<char>, position: Position)
    requires
        t.has_read(ch),
        t.state is CommentStartDash,
    ensures
        t.stepped(ch, t.comment_start_dash_state(ch, position)),
{
    reveal(TokenizerModel::comment_start_dash_state);
}

proof fn lemma_comment_state(t: TokenizerModel, ch: Option<char>, position: Position)
    requires
        t.has_read(ch),
        t.state is Comment,
    ensures
        t.stepped(ch, t.comment_state(ch, position)),
{
    reveal(TokenizerModel::comment_state);
}

proof fn lemma_comment_less_than_sign_state(t: TokenizerModel, ch: Option<char>, position: Position)
    requires
        t.has_read(ch),
        t.state is CommentLessThanSign,
    ensures
        t.stepped(ch, t.comment_less_than_sign_state(ch, position)),
{
    reveal(TokenizerModel::comment_less_than_sign_state);
}

proof fn lemma_comment_less_than_sign_bang_state(
    t: TokenizerModel,
    ch: Option<char>,
    position: Position,
)
    requires
        t.has_read(ch),
        t.state is CommentLessThanSignBang,
    ensures
        t.stepped(ch, t.comment_less_than_sign_bang_state(ch, position)),
{
    reveal(TokenizerModel::comment_less_than_sign_bang_state);
}

proof fn lemma_comment_less_than_sign_bang_dash_state(
    t: TokenizerModel,
    ch: Option<char>,
    position: Position,
)
    requires
        t.has_read(ch),
        t.state is CommentLessThanSignBangDash,
    ensures
        t.stepped(ch, t.comment_less_than_sign_bang_dash_state(ch, position)),
{
    reveal(TokenizerModel::comment_less_than_sign_bang_dash_state);
}

proof fn lemma_comment_less_than_sign_bang_dash_dash_state(
    t: TokenizerModel,
    ch: Option<char>,
    position: Position,
)
    requires
        t.has_read(ch),
        t.state is CommentLessThanSignBangDashDash,
    ensures
        t.stepped(ch, t.comment_less_than_sign_bang_dash_dash_state(ch, position)),
{
    reveal(TokenizerModel::comment_less_than_sign_bang_dash_dash_state);
}

proof fn lemma_comment_end_dash_state(t: TokenizerModel, ch: Option<char>, position: Position)
    requires
        t.has_read(ch),
        t.state is CommentEndDash,
    ensures
        t.stepped(ch, t.comment_end_dash_state(ch, position)),
{
    reveal(TokenizerModel::comment_end_dash_state);
}

proof fn lemma_comment_end_state(t: TokenizerModel, ch: Option<char>, position: Position)
    requires
        t.has_read(ch),
        t.state is CommentEnd,
    ensures
        t.stepped(ch, t.comment_end_state(ch, position)),
{
    reveal(TokenizerModel::comment_end_state);
}

proof fn lemma_comment_end_bang_state(t: TokenizerModel, ch: Option<char>, position: Position)
    requires
        t.has_read(ch),
        t.state is CommentEndBang,
    ensures
        t.stepped(ch, t.comment_end_bang_state(ch, position)),
{
    reveal(TokenizerModel::comment_end_bang_state);
}

proof fn lemma_doctype_state(t: TokenizerModel, ch: Option<char>, position: Position)
    requires
        t.has_read(ch),
        t.state is Doctype,
    ensures
        t.stepped(ch, t.doctype_state(ch, position)),
{
    reveal(TokenizerModel::doctype_state);
}

proof fn lemma_before_doctype_name_state(t: TokenizerModel, ch: Option<char>, position: Position)
    requires
        t.has_read(ch),
        t.state is BeforeDoctypeName,
    ensures
        t.stepped(ch, t.before_doctype_name_state(ch, position)),
{
    reveal(TokenizerModel::before_doctype_name_state);
}

proof fn lemma_doctype_name_state(t: TokenizerModel, ch: Option<char>, position: Position)
    requires
        t.has_read(ch),
        t.state is DoctypeName,
    ensures
        t.stepped(ch, t.doctype_name_state(ch, position)),
{
    reveal(TokenizerModel::doctype_name_state);
}

proof fn lemma_after_doctype_name_state(t: TokenizerModel, ch: Option<char>, position: Position)
    requires
        t.has_read(ch),
        t.state is AfterDoctypeName,
    ensures
        t.stepped(ch, t.after_doctype_name_state(ch, position)),
{
    reveal(TokenizerModel::after_doctype_name_state);
    reveal_strlit("PUBLIC");
    reveal_strlit("SYSTEM");
}

proof fn lemma_before_doctype_identifier_state(
    t: TokenizerModel,
    ch: Option<char>,
    position: Position,
    after_whitespace: State,
    kind: DoctypeIdentifierKind,
    double: State,
    single: State,
)
    requires
        t.has_read(ch),
        (t.state is AfterDoctypePublicKeyword
            && after_whitespace == State::BeforeDoctypePublicIdentifier
            && kind == DoctypeIdentifierKind::Public
            && double == State::DoctypePublicIdentifierDoubleQuoted
            && single == State::DoctypePublicIdentifierSingleQuoted)
            || (t.state is BeforeDoctypePublicIdentifier
            && after_whitespace == State::BeforeDoctypePublicIdentifier
            && kind == DoctypeIdentifierKind::Public
            && double == State::DoctypePublicIdentifierDoubleQuoted
            && single == State::DoctypePublicIdentifierSingleQuoted)
            || (t.state is AfterDoctypeSystemKeyword
            && after_whitespace == State::BeforeDoctypeSystemIdentifier
            && kind == DoctypeIdentifierKind::System
            && double == State::DoctypeSystemIdentifierDoubleQuoted
            && single == State::DoctypeSystemIdentifierSingleQuoted)
            || (t.state is BeforeDoctypeSystemIdentifier
            && after_whitespace == State::BeforeDoctypeSystemIdentifier
            && kind == DoctypeIdentifierKind::System
            && double == State::DoctypeSystemIdentifierDoubleQuoted
            && single == State::DoctypeSystemIdentifierSingleQuoted),
    ensures
        t.stepped(
            ch,
            t.before_doctype_identifier_state(ch, position, after_whitespace, kind, double, single),
        ),
{
    reveal(TokenizerModel::before_doctype_identifier_state);
}

proof fn lemma_doctype_identifier_quoted_state(
    t: TokenizerModel,
    ch: Option<char>,
    position: Position,
    quote: char,
    kind: DoctypeIdentifierKind,
    after: State,
)
    requires
        t.has_read(ch),
        (t.state is DoctypePublicIdentifierDoubleQuoted && quote == '"'
            && kind == DoctypeIdentifierKind::Public
            && after == State::AfterDoctypePublicIdentifier)
            || (t.state is DoctypePublicIdentifierSingleQuoted && quote == '\''
            && kind == DoctypeIdentifierKind::Public
            && after == State::AfterDoctypePublicIdentifier)
            || (t.state is DoctypeSystemIdentifierDoubleQuoted && quote == '"'
            && kind == DoctypeIdentifierKind::System
            && after == State::AfterDoctypeSystemIdentifier)
            || (t.state is DoctypeSystemIdentifierSingleQuoted && quote == '\''
            && kind == DoctypeIdentifierKind::System
            && after == State::AfterDoctypeSystemIdentifier),
    ensures
        t.stepped(ch, t.doctype_identifier_quoted_state(ch, position, quote, kind, after)),
{
    reveal(TokenizerModel::doctype_identifier_quoted_state);
}

proof fn lemma_after_doctype_public_identifier_state(
    t: TokenizerModel,
    ch: Option<char>,
    position: Position,
)
    requires
        t.has_read(ch),
        t.state is AfterDoctypePublicIdentifier,
    ensures
        t.stepped(ch, t.after_doctype_public_identifier_state(ch, position)),
{
    reveal(TokenizerModel::after_doctype_public_identifier_state);
}

proof fn lemma_between_doctype_identifiers_state(
    t: TokenizerModel,
    ch: Option<char>,
    position: Position,
)
    requires
        t.has_read(ch),
        t.state is BetweenDoctypePublicAndSystemIdentifiers,
    ensures
        t.stepped(ch, t.between_doctype_identifiers_state(ch, position)),
{
    reveal(TokenizerModel::between_doctype_identifiers_state);
}

proof fn lemma_after_doctype_system_identifier_state(
    t: TokenizerModel,
    ch: Option<char>,
    position: Position,
)
    requires
        t.has_read(ch),
        t.state is AfterDoctypeSystemIdentifier,
    ensures
        t.stepped(ch, t.after_doctype_system_identifier_state(ch, position)),
{
    reveal(TokenizerModel::after_doctype_system_identifier_state);
}

proof fn lemma_bogus_doctype_rest_state(t: TokenizerModel, ch: Option<char>, position: Position)
    requires
        t.has_read(ch),
        t.state is BogusDoctype,
    ensures
        t.stepped(ch, t.bogus_doctype_rest_state(ch, position)),
{
    reveal(TokenizerModel::bogus_doctype_rest_state);
}

proof fn lemma_processing_instruction_open_state(
    t: TokenizerModel,
    ch: Option<char>,
    position: Position,
)
    requires
        t.has_read(ch),
        t.state is ProcessingInstructionOpen,
    ensures
        t.stepped(ch, t.processing_instruction_open_state(ch, position)),
{
    reveal(TokenizerModel::processing_instruction_open_state);
}

proof fn lemma_processing_instruction_target_state(
    t: TokenizerModel,
    ch: Option<char>,
    position: Position,
)
    requires
        t.has_read(ch),
        t.state is ProcessingInstructionTarget,
    ensures
        t.stepped(ch, t.processing_instruction_target_state(ch, position)),
{
    reveal(TokenizerModel::processing_instruction_target_state);
}

proof fn lemma_after_processing_instruction_target_state(
    t: TokenizerModel,
    ch: Option<char>,
    position: Position,
)
    requires
        t.has_read(ch),
        t.state is AfterProcessingInstructionTarget,
    ensures
        t.stepped(ch, t.after_processing_instruction_target_state(ch, position)),
{
    reveal(TokenizerModel::after_processing_instruction_target_state);
}

proof fn lemma_processing_instruction_data_state(
    t: TokenizerModel,
    ch: Option<char>,
    position: Position,
)
    requires
        t.has_read(ch),
        t.state is ProcessingInstructionData,
    ensures
        t.stepped(ch, t.processing_instruction_data_state(ch, position)),
{
    reveal(TokenizerModel::processing_instruction_data_state);
}

proof fn lemma_processing_instruction_questionable_state(
    t: TokenizerModel,
    ch: Option<char>,
    position: Position,
)
    requires
        t.has_read(ch),
        t.state is ProcessingInstructionQuestionable,
    ensures
        t.stepped(ch, t.processing_instruction_questionable_state(ch, position)),
{
    reveal(TokenizerModel::processing_instruction_questionable_state);
}

proof fn lemma_rcdata_state(t: TokenizerModel, ch: Option<char>, position: Position)
    requires
        t.has_read(ch),
        t.state is RcData,
    ensures
        t.stepped(ch, t.rcdata_state(ch, position)),
{
    reveal(TokenizerModel::rcdata_state);
    if ch is Some {
        lemma_emit_character(t, ch->0, position);
    }
}

proof fn lemma_raw_text_state(
    t: TokenizerModel,
    ch: Option<char>,
    position: Position,
    less_than_sign: State,
)
    requires
        t.has_read(ch),
        (t.state is RawText && less_than_sign == State::RawTextLessThanSign)
            || (t.state is ScriptData && less_than_sign == State::ScriptDataLessThanSign),
    ensures
        t.stepped(ch, t.raw_text_state(ch, position, less_than_sign)),
{
    reveal(TokenizerModel::raw_text_state);
    if ch is Some {
        lemma_emit_character(t, ch->0, position);
    }
}

proof fn lemma_text_less_than_sign_state(
    t: TokenizerModel,
    ch: Option<char>,
    position: Position,
    end_tag_open: State,
    text: State,
)
    requires
        t.has_read(ch),
        (t.state is RcDataLessThanSign && end_tag_open == State::RcDataEndTagOpen
            && text == State::RcData)
            || (t.state is RawTextLessThanSign && end_tag_open == State::RawTextEndTagOpen
            && text == State::RawText),
    ensures
        t.stepped(ch, t.text_less_than_sign_state(ch, position, end_tag_open, text)),
{
    reveal(TokenizerModel::text_less_than_sign_state);
}

proof fn lemma_text_end_tag_open_state(
    t: TokenizerModel,
    ch: Option<char>,
    position: Position,
    end_tag_name: State,
    text: State,
)
    requires
        t.has_read(ch),
        (t.state is RcDataEndTagOpen && end_tag_name == State::RcDataEndTagName
            && text == State::RcData)
            || (t.state is RawTextEndTagOpen && end_tag_name == State::RawTextEndTagName
            && text == State::RawText)
            || (t.state is ScriptDataEndTagOpen && end_tag_name == State::ScriptDataEndTagName
            && text == State::ScriptData)
            || (t.state is ScriptDataEscapedEndTagOpen
            && end_tag_name == State::ScriptDataEscapedEndTagName
            && text == State::ScriptDataEscaped),
    ensures
        t.stepped(ch, t.text_end_tag_open_state(ch, position, end_tag_name, text)),
{
    reveal(TokenizerModel::text_end_tag_open_state);
}

proof fn lemma_text_end_tag_name_state(
    t: TokenizerModel,
    ch: Option<char>,
    position: Position,
    text: State,
)
    requires
        t.has_read(ch),
        (t.state is RcDataEndTagName && text == State::RcData)
            || (t.state is RawTextEndTagName && text == State::RawText)
            || (t.state is ScriptDataEndTagName && text == State::ScriptData)
            || (t.state is ScriptDataEscapedEndTagName && text == State::ScriptDataEscaped),
    ensures
        t.stepped(ch, t.text_end_tag_name_state(ch, position, text)),
{
    reveal(TokenizerModel::text_end_tag_name_state);
    lemma_emit_buffer(t.emit_less_than().emit_slash(), t.end_tag_buffer, t.slash_index);
}

proof fn lemma_plain_text_state(t: TokenizerModel, ch: Option<char>, position: Position)
    requires
        t.has_read(ch),
        t.state is PlainText,
    ensures
        t.stepped(ch, t.plain_text_state(ch, position)),
{
    reveal(TokenizerModel::plain_text_state);
    if ch is Some {
        lemma_emit_character(t, ch->0, position);
    }
}

proof fn lemma_script_data_less_than_sign_state(
    t: TokenizerModel,
    ch: Option<char>,
    position: Position,
)
    requires
        t.has_read(ch),
        t.state is ScriptDataLessThanSign,
    ensures
        t.stepped(ch, t.script_data_less_than_sign_state(ch, position)),
{
    reveal(TokenizerModel::script_data_less_than_sign_state);
}

proof fn lemma_script_data_escape_start_state(
    t: TokenizerModel,
    ch: Option<char>,
    position: Position,
    dash: State,
)
    requires
        t.has_read(ch),
        (t.state is ScriptDataEscapeStart && dash == State::ScriptDataEscapeStartDash)
            || (t.state is ScriptDataEscapeStartDash && dash == State::ScriptDataEscapedDashDash),
    ensures
        t.stepped(ch, t.script_data_escape_start_state(ch, position, dash)),
{
    reveal(TokenizerModel::script_data_escape_start_state);
}

proof fn lemma_script_data_escaped_state(t: TokenizerModel, ch: Option<char>, position: Position)
    requires
        t.has_read(ch),
        t.state is ScriptDataEscaped,
    ensures
        t.stepped(ch, t.script_data_escaped_state(ch, position)),
{
    reveal(TokenizerModel::script_data_escaped_state);
    if ch is Some {
        lemma_emit_character(t, ch->0, position);
    }
}

proof fn lemma_script_data_escaped_dash_state(
    t: TokenizerModel,
    ch: Option<char>,
    position: Position,
)
    requires
        t.has_read(ch),
        t.state is ScriptDataEscapedDash,
    ensures
        t.stepped(ch, t.script_data_escaped_dash_state(ch, position)),
{
    reveal(TokenizerModel::script_data_escaped_dash_state);
    if ch is Some {
        lemma_emit_character(t, ch->0, position);
    }
}

proof fn lemma_script_data_escaped_dash_dash_state(
    t: TokenizerModel,
    ch: Option<char>,
    position: Position,
)
    requires
        t.has_read(ch),
        t.state is ScriptDataEscapedDashDash,
    ensures
        t.stepped(ch, t.script_data_escaped_dash_dash_state(ch, position)),
{
    reveal(TokenizerModel::script_data_escaped_dash_dash_state);
    if ch is Some {
        lemma_emit_character(t, ch->0, position);
    }
}

proof fn lemma_script_data_escaped_less_than_sign_state(
    t: TokenizerModel,
    ch: Option<char>,
    position: Position,
)
    requires
        t.has_read(ch),
        t.state is ScriptDataEscapedLessThanSign,
    ensures
        t.stepped(ch, t.script_data_escaped_less_than_sign_state(ch, position)),
{
    reveal(TokenizerModel::script_data_escaped_less_than_sign_state);
}

proof fn lemma_script_data_double_escape_state(
    t: TokenizerModel,
    ch: Option<char>,
    position: Position,
    script: State,
    other: State,
)
    requires
        t.has_read(ch),
        (t.state is ScriptDataDoubleEscapeStart && script == State::ScriptDataDoubleEscaped
            && other == State::ScriptDataEscaped)
            || (t.state is ScriptDataDoubleEscapeEnd && script == State::ScriptDataEscaped
            && other == State::ScriptDataDoubleEscaped),
    ensures
        t.stepped(ch, t.script_data_double_escape_state(ch, position, script, other)),
{
    reveal(TokenizerModel::script_data_double_escape_state);
}

proof fn lemma_script_data_double_escaped_state(
    t: TokenizerModel,
    ch: Option<char>,
    position: Position,
)
    requires
        t.has_read(ch),
        t.state is ScriptDataDoubleEscaped,
    ensures
        t.stepped(ch, t.script_data_double_escaped_state(ch, position)),
{
    reveal(TokenizerModel::script_data_double_escaped_state);
    if ch is Some {
        lemma_emit_character(t, ch->0, position);
    }
}

proof fn lemma_script_data_double_escaped_dash_state(
    t: TokenizerModel,
    ch: Option<char>,
    position: Position,
)
    requires
        t.has_read(ch),
        t.state is ScriptDataDoubleEscapedDash,
    ensures
        t.stepped(ch, t.script_data_double_escaped_dash_state(ch, position)),
{
    reveal(TokenizerModel::script_data_double_escaped_dash_state);
    if ch is Some {
        lemma_emit_character(t, ch->0, position);
    }
}

proof fn lemma_script_data_double_escaped_dash_dash_state(
    t: TokenizerModel,
    ch: Option<char>,
    position: Position,
)
    requires
        t.has_read(ch),
        t.state is ScriptDataDoubleEscapedDashDash,
    ensures
        t.stepped(ch, t.script_data_double_escaped_dash_dash_state(ch, position)),
{
    reveal(TokenizerModel::script_data_double_escaped_dash_dash_state);
    if ch is Some {
        lemma_emit_character(t, ch->0, position);
    }
}

proof fn lemma_script_data_double_escaped_less_than_sign_state(
    t: TokenizerModel,
    ch: Option<char>,
    position: Position,
)
    requires
        t.has_read(ch),
        t.state is ScriptDataDoubleEscapedLessThanSign,
    ensures
        t.stepped(ch, t.script_data_double_escaped_less_than_sign_state(ch, position)),
{
    reveal(TokenizerModel::script_data_double_escaped_less_than_sign_state);
}

proof fn lemma_cdata_section_state(t: TokenizerModel, ch: Option<char>, position: Position)
    requires
        t.has_read(ch),
        t.state is CdataSection,
    ensures
        t.stepped(ch, t.cdata_section_state(ch, position)),
{
    reveal(TokenizerModel::cdata_section_state);
    if ch is Some {
        lemma_emit_character(t, ch->0, position);
    }
}

proof fn lemma_cdata_section_bracket_state(t: TokenizerModel, ch: Option<char>, position: Position)
    requires
        t.has_read(ch),
        t.state is CdataSectionBracket,
    ensures
        t.stepped(ch, t.cdata_section_bracket_state(ch, position)),
{
    reveal(TokenizerModel::cdata_section_bracket_state);
}

proof fn lemma_cdata_section_end_state(t: TokenizerModel, ch: Option<char>, position: Position)
    requires
        t.has_read(ch),
        t.state is CdataSectionEnd,
    ensures
        t.stepped(ch, t.cdata_section_end_state(ch, position)),
{
    reveal(TokenizerModel::cdata_section_end_state);
    lemma_emit_brackets(t);
}

/// Every step keeps the indices in the input and, unless it emits the end of
/// the file, leaves less to do.
pub proof fn lemma_step(t: TokenizerModel, ch: Option<char>, position: Position)
    requires
        t.has_read(ch),
    ensures
        t.stepped(ch, t.step(ch, position)),
{
    reveal(TokenizerModel::step);
    match t.state {
        State::Data => lemma_data_state(t, ch, position),
        State::TagOpen => lemma_tag_open_state(t, ch, position),
        State::EndTagOpen => lemma_end_tag_open_state(t, ch, position),
        State::TagName => lemma_tag_name_state(t, ch, position),
        State::BeforeAttributeName => lemma_before_attribute_name_state(t, ch, position),
        State::AttributeName => lemma_attribute_name_state(t, ch, position),
        State::AfterAttributeName => lemma_after_attribute_name_state(t, ch, position),
        State::BeforeAttributeValue => lemma_before_attribute_value_state(t, ch, position),
        State::AttributeValueDoubleQuoted => {
            lemma_attribute_value_quoted_state(
                t,
                ch,
                position,
                '"',
                State::AttributeValueDoubleQuoted,
            )
        },
        State::AttributeValueSingleQuoted => {
            lemma_attribute_value_quoted_state(
                t,
                ch,
                position,
                '\'',
                State::AttributeValueSingleQuoted,
            )
        },
        State::AttributeValueUnquoted => lemma_attribute_value_unquoted_state(t, ch, position),
        State::AfterAttributeValueQuoted => {
            lemma_after_attribute_value_quoted_state(t, ch, position)
        },
        State::SelfClosingStartTag => lemma_self_closing_start_tag_state(t, ch, position),
        State::CharacterReference => lemma_character_reference_state(t, ch, position),
        State::NamedCharacterReference => lemma_named_reference(t, ch),
        State::AmbiguousAmpersand => lemma_ambiguous_ampersand_state(t, ch, position),
        State::NumericCharacterReference => {
            lemma_numeric_character_reference_state(t, ch, position)
        },
        State::HexadecimalCharacterReferenceStart => {
            lemma_hexadecimal_character_reference_start_state(t, ch, position)
        },
        State::HexadecimalCharacterReference => {
            lemma_hexadecimal_character_reference_state(t, ch, position)
        },
        State::DecimalCharacterReference => {
            lemma_decimal_character_reference_state(t, ch, position)
        },
        State::NumericCharacterReferenceEnd => {
            lemma_numeric_character_reference_end_state(t, ch, position)
        },
        State::MarkupDeclarationOpen => {
            reveal_strlit("--");
        },
        State::BogusComment => lemma_bogus_comment_state(t, ch, position),
        State::CommentStart => lemma_comment_start_state(t, ch, position),
        State::CommentStartDash => lemma_comment_start_dash_state(t, ch, position),
        State::Comment => lemma_comment_state(t, ch, position),
        State::CommentLessThanSign => lemma_comment_less_than_sign_state(t, ch, position),
        State::CommentLessThanSignBang => lemma_comment_less_than_sign_bang_state(t, ch, position),
        State::CommentLessThanSignBangDash => {
            lemma_comment_less_than_sign_bang_dash_state(t, ch, position)
        },
        State::CommentLessThanSignBangDashDash => {
            lemma_comment_less_than_sign_bang_dash_dash_state(t, ch, position)
        },
        State::CommentEndDash => lemma_comment_end_dash_state(t, ch, position),
        State::CommentEnd => lemma_comment_end_state(t, ch, position),
        State::CommentEndBang => lemma_comment_end_bang_state(t, ch, position),
        State::Doctype => lemma_doctype_state(t, ch, position),
        State::BeforeDoctypeName => lemma_before_doctype_name_state(t, ch, position),
        State::DoctypeName => lemma_doctype_name_state(t, ch, position),
        State::AfterDoctypeName => lemma_after_doctype_name_state(t, ch, position),
        State::AfterDoctypePublicKeyword => {
            lemma_before_doctype_identifier_state(
                t,
                ch,
                position,
                State::BeforeDoctypePublicIdentifier,
                DoctypeIdentifierKind::Public,
                State::DoctypePublicIdentifierDoubleQuoted,
                State::DoctypePublicIdentifierSingleQuoted,
            )
        },
        State::BeforeDoctypePublicIdentifier => {
            lemma_before_doctype_identifier_state(
                t,
                ch,
                position,
                State::BeforeDoctypePublicIdentifier,
                DoctypeIdentifierKind::Public,
                State::DoctypePublicIdentifierDoubleQuoted,
                State::DoctypePublicIdentifierSingleQuoted,
            )
        },
        State::DoctypePublicIdentifierDoubleQuoted => {
            lemma_doctype_identifier_quoted_state(
                t,
                ch,
                position,
                '"',
                DoctypeIdentifierKind::Public,
                State::AfterDoctypePublicIdentifier,
            )
        },
        State::DoctypePublicIdentifierSingleQuoted => {
            lemma_doctype_identifier_quoted_state(
                t,
                ch,
                position,
                '\'',
                DoctypeIdentifierKind::Public,
                State::AfterDoctypePublicIdentifier,
            )
        },
        State::AfterDoctypePublicIdentifier => {
            lemma_after_doctype_public_identifier_state(t, ch, position)
        },
        State::BetweenDoctypePublicAndSystemIdentifiers => {
            lemma_between_doctype_identifiers_state(t, ch, position)
        },
        State::AfterDoctypeSystemKeyword => {
            lemma_before_doctype_identifier_state(
                t,
                ch,
                position,
                State::BeforeDoctypeSystemIdentifier,
                DoctypeIdentifierKind::System,
                State::DoctypeSystemIdentifierDoubleQuoted,
                State::DoctypeSystemIdentifierSingleQuoted,
            )
        },
        State::BeforeDoctypeSystemIdentifier => {
            lemma_before_doctype_identifier_state(
                t,
                ch,
                position,
                State::BeforeDoctypeSystemIdentifier,
                DoctypeIdentifierKind::System,
                State::DoctypeSystemIdentifierDoubleQuoted,
                State::DoctypeSystemIdentifierSingleQuoted,
            )
        },
        State::DoctypeSystemIdentifierDoubleQuoted => {
            lemma_doctype_identifier_quoted_state(
                t,
                ch,
                position,
                '"',
                DoctypeIdentifierKind::System,
                State::AfterDoctypeSystemIdentifier,
            )
        },
        State::DoctypeSystemIdentifierSingleQuoted => {
            lemma_doctype_identifier_quoted_state(
                t,
                ch,
                position,
                '\'',
                DoctypeIdentifierKind::System,
                State::AfterDoctypeSystemIdentifier,
            )
        },
        State::AfterDoctypeSystemIdentifier => {
            lemma_after_doctype_system_identifier_state(t, ch, position)
        },
        State::BogusDoctype => lemma_bogus_doctype_rest_state(t, ch, position),
        State::ProcessingInstructionOpen => {
            lemma_processing_instruction_open_state(t, ch, position)
        },
        State::ProcessingInstructionTarget => {
            lemma_processing_instruction_target_state(t, ch, position)
        },
        State::AfterProcessingInstructionTarget => {
            lemma_after_processing_instruction_target_state(t, ch, position)
        },
        State::ProcessingInstructionData => {
            lemma_processing_instruction_data_state(t, ch, position)
        },
        State::ProcessingInstructionQuestionable => {
            lemma_processing_instruction_questionable_state(t, ch, position)
        },
        State::RcData => lemma_rcdata_state(t, ch, position),
        State::RcDataLessThanSign => {
            lemma_text_less_than_sign_state(t, ch, position, State::RcDataEndTagOpen, State::RcData)
        },
        State::RcDataEndTagOpen => {
            lemma_text_end_tag_open_state(t, ch, position, State::RcDataEndTagName, State::RcData)
        },
        State::RcDataEndTagName => lemma_text_end_tag_name_state(t, ch, position, State::RcData),
        State::RawText => lemma_raw_text_state(t, ch, position, State::RawTextLessThanSign),
        State::RawTextLessThanSign => {
            lemma_text_less_than_sign_state(
                t,
                ch,
                position,
                State::RawTextEndTagOpen,
                State::RawText,
            )
        },
        State::RawTextEndTagOpen => {
            lemma_text_end_tag_open_state(t, ch, position, State::RawTextEndTagName, State::RawText)
        },
        State::RawTextEndTagName => lemma_text_end_tag_name_state(t, ch, position, State::RawText),
        State::PlainText => lemma_plain_text_state(t, ch, position),
        State::ScriptData => lemma_raw_text_state(t, ch, position, State::ScriptDataLessThanSign),
        State::ScriptDataLessThanSign => lemma_script_data_less_than_sign_state(t, ch, position),
        State::ScriptDataEndTagOpen => {
            lemma_text_end_tag_open_state(
                t,
                ch,
                position,
                State::ScriptDataEndTagName,
                State::ScriptData,
            )
        },
        State::ScriptDataEndTagName => {
            lemma_text_end_tag_name_state(t, ch, position, State::ScriptData)
        },
        State::ScriptDataEscapeStart => {
            lemma_script_data_escape_start_state(t, ch, position, State::ScriptDataEscapeStartDash)
        },
        State::ScriptDataEscapeStartDash => {
            lemma_script_data_escape_start_state(t, ch, position, State::ScriptDataEscapedDashDash)
        },
        State::ScriptDataEscaped => lemma_script_data_escaped_state(t, ch, position),
        State::ScriptDataEscapedDash => lemma_script_data_escaped_dash_state(t, ch, position),
        State::ScriptDataEscapedDashDash => {
            lemma_script_data_escaped_dash_dash_state(t, ch, position)
        },
        State::ScriptDataEscapedLessThanSign => {
            lemma_script_data_escaped_less_than_sign_state(t, ch, position)
        },
        State::ScriptDataEscapedEndTagOpen => {
            lemma_text_end_tag_open_state(
                t,
                ch,
                position,
                State::ScriptDataEscapedEndTagName,
                State::ScriptDataEscaped,
            )
        },
        State::ScriptDataEscapedEndTagName => {
            lemma_text_end_tag_name_state(t, ch, position, State::ScriptDataEscaped)
        },
        State::ScriptDataDoubleEscapeStart => {
            lemma_script_data_double_escape_state(
                t,
                ch,
                position,
                State::ScriptDataDoubleEscaped,
                State::ScriptDataEscaped,
            )
        },
        State::ScriptDataDoubleEscaped => lemma_script_data_double_escaped_state(t, ch, position),
        State::ScriptDataDoubleEscapedDash => {
            lemma_script_data_double_escaped_dash_state(t, ch, position)
        },
        State::ScriptDataDoubleEscapedDashDash => {
            lemma_script_data_double_escaped_dash_dash_state(t, ch, position)
        },
        State::ScriptDataDoubleEscapedLessThanSign => {
            lemma_script_data_double_escaped_less_than_sign_state(t, ch, position)
        },
        State::ScriptDataDoubleEscapeEnd => {
            lemma_script_data_double_escape_state(
                t,
                ch,
                position,
                State::ScriptDataEscaped,
                State::ScriptDataDoubleEscaped,
            )
        },
        State::CdataSection => lemma_cdata_section_state(t, ch, position),
        State::CdataSectionBracket => lemma_cdata_section_bracket_state(t, ch, position),
        State::CdataSectionEnd => lemma_cdata_section_end_state(t, ch, position),
    }
}

} // verus!
