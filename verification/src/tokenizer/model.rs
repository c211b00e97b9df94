//! The model of the tokenizer: its state as a mathematical value and the small
//! operations that its transitions are made of.
use vstd::prelude::*;

use crate::entities::{longest_reference, references};
use crate::text::{is_ascii_alphanumeric, is_ascii_digit, is_ascii_uppercase, same_ignoring_case};
use crate::token::{
    blank_doctype, has_attribute, plain_tag, AttributeModel, DoctypeModel, ParseError,
    ParseErrorKind, Position, ProcessingInstructionModel, TagModel, TokenKindModel, TokenModel,
};

verus! {

/// The tokenizer's states.
#[derive(Debug, Clone, Copy, PartialEq, Eq, Structural)]
pub enum State {
    Data,
    TagOpen,
    EndTagOpen,
    TagName,
    BeforeAttributeName,
    AttributeName,
    AfterAttributeName,
    BeforeAttributeValue,
    AttributeValueDoubleQuoted,
    AttributeValueSingleQuoted,
    AttributeValueUnquoted,
    AfterAttributeValueQuoted,
    SelfClosingStartTag,
    CharacterReference,
    NamedCharacterReference,
    AmbiguousAmpersand,
    NumericCharacterReference,
    HexadecimalCharacterReferenceStart,
    HexadecimalCharacterReference,
    DecimalCharacterReference,
    NumericCharacterReferenceEnd,
    MarkupDeclarationOpen,
    BogusComment,
    CommentStart,
    CommentStartDash,
    Comment,
    CommentLessThanSign,
    CommentLessThanSignBang,
    CommentLessThanSignBangDash,
    CommentLessThanSignBangDashDash,
    CommentEndDash,
    CommentEnd,
    CommentEndBang,
    Doctype,
    BeforeDoctypeName,
    DoctypeName,
    AfterDoctypeName,
    AfterDoctypePublicKeyword,
    BeforeDoctypePublicIdentifier,
    DoctypePublicIdentifierDoubleQuoted,
    DoctypePublicIdentifierSingleQuoted,
    AfterDoctypePublicIdentifier,
    BetweenDoctypePublicAndSystemIdentifiers,
    AfterDoctypeSystemKeyword,
    BeforeDoctypeSystemIdentifier,
    DoctypeSystemIdentifierDoubleQuoted,
    DoctypeSystemIdentifierSingleQuoted,
    AfterDoctypeSystemIdentifier,
    BogusDoctype,
    ProcessingInstructionOpen,
    ProcessingInstructionTarget,
    AfterProcessingInstructionTarget,
    ProcessingInstructionData,
    ProcessingInstructionQuestionable,
    RcData,
    RcDataLessThanSign,
    RcDataEndTagOpen,
    RcDataEndTagName,
    RawText,
    RawTextLessThanSign,
    RawTextEndTagOpen,
    RawTextEndTagName,
    PlainText,
    ScriptData,
    ScriptDataLessThanSign,
    ScriptDataEndTagOpen,
    ScriptDataEndTagName,
    ScriptDataEscapeStart,
    ScriptDataEscapeStartDash,
    ScriptDataEscaped,
    ScriptDataEscapedDash,
    ScriptDataEscapedDashDash,
    ScriptDataEscapedLessThanSign,
    ScriptDataEscapedEndTagOpen,
    ScriptDataEscapedEndTagName,
    ScriptDataDoubleEscapeStart,
    ScriptDataDoubleEscaped,
    ScriptDataDoubleEscapedDash,
    ScriptDataDoubleEscapedDashDash,
    ScriptDataDoubleEscapedLessThanSign,
    ScriptDataDoubleEscapeEnd,
    CdataSection,
    CdataSectionBracket,
    CdataSectionEnd,
}

/// The states that only tree construction can switch the tokenizer to: which
/// one applies depends on the element that was just inserted. The tokenizer
/// leaves them by itself, at an end tag that fits; it never leaves `PlainText`.
#[derive(Debug, Clone, Copy, PartialEq, Eq, Structural)]
pub enum ExternalState {
    RcData,
    RawText,
    ScriptData,
    PlainText,
}

/// Which of a DOCTYPE's two identifiers is being read.
#[derive(Debug, Clone, Copy, PartialEq, Eq, Structural)]
pub enum DoctypeIdentifierKind {
    Public,
    System,
}

/// Where the characters of the attribute value being read go. The value of a
/// duplicate attribute is read and dropped.
#[derive(Debug, Clone, Copy, PartialEq, Eq, Structural)]
pub enum AttributeValueTarget {
    Index(usize),
    Discarded,
}

/// The model of the tokenizer.
#[verifier::ext_equal]
pub struct TokenizerModel {
    /// The input, with its line breaks normalized.
    pub chars: Seq<char>,
    /// Where each character starts in the source, and where the source ends.
    pub positions: Seq<Position>,
    /// The next character to read.
    pub index: int,
    pub state: State,
    pub current_tag: Option<TagModel>,
    pub current_tag_is_end: bool,
    /// Where the markup being read starts.
    pub current_tag_start: Position,
    /// The `/` of the end tag being read.
    pub slash_index: int,
    pub current_attribute_name: Seq<char>,
    pub attribute_value_target: AttributeValueTarget,
    /// The state to go back to after a character reference.
    pub return_state: State,
    /// The `&` of the character reference being read.
    pub reference_start: int,
    pub reference_code: u32,
    pub current_comment: Seq<char>,
    pub current_doctype: Option<DoctypeModel>,
    pub target_buffer: Seq<char>,
    pub current_instruction: Option<ProcessingInstructionModel>,
    pub last_start_tag_name: Option<Seq<char>>,
    pub end_tag_buffer: Seq<char>,
    pub in_foreign_content: bool,
    pub pending_brackets: Seq<Position>,
    pub pending: Seq<TokenModel>,
    pub eof_returned: bool,
    pub errors: Seq<ParseError>,
}

/// The value of a hexadecimal digit.
pub open spec fn digit_value(c: char) -> int {
    if is_ascii_digit(c) {
        c as int - '0' as int
    } else if is_ascii_uppercase(c) {
        c as int - 'A' as int + 10
    } else {
        c as int - 'a' as int + 10
    }
}

/// A code point that only appears in pairs in UTF-16 text.
#[verifier::allow_in_spec]
pub fn is_surrogate(code: u32) -> bool
    returns
        0xD800 <= code && code <= 0xDFFF,
{
    code >= 0xD800 && code <= 0xDFFF
}

/// A code point set aside from text: U+FDD0 to U+FDEF, and the last two of each
/// plane.
#[verifier::allow_in_spec]
pub fn is_noncharacter(code: u32) -> bool
    returns
        (0xFDD0 <= code && code <= 0xFDEF) || code % 0x10000 >= 0xFFFE,
{
    (code >= 0xFDD0 && code <= 0xFDEF) || code % 0x10000 >= 0xFFFE
}

/// A C0 control, or a code point in U+007F to U+009F.
#[verifier::allow_in_spec]
pub fn is_control(code: u32) -> bool
    returns
        code <= 0x1F || (0x7F <= code && code <= 0x9F),
{
    code <= 0x1F || (code >= 0x7F && code <= 0x9F)
}

/// Tab, line feed, form feed, carriage return or space, by code point.
#[verifier::allow_in_spec]
pub fn is_ascii_whitespace(code: u32) -> bool
    returns
        code == 0x09 || code == 0x0A || code == 0x0C || code == 0x0D || code == 0x20,
{
    code == 0x09 || code == 0x0A || code == 0x0C || code == 0x0D || code == 0x20
}

/// The characters that the numeric references to the C1 controls stand for.
pub const CONTROL_OVERRIDES: [(u32, u32); 27] = [
    (0x80, 0x20AC),
    (0x82, 0x201A),
    (0x83, 0x0192),
    (0x84, 0x201E),
    (0x85, 0x2026),
    (0x86, 0x2020),
    (0x87, 0x2021),
    (0x88, 0x02C6),
    (0x89, 0x2030),
    (0x8A, 0x0160),
    (0x8B, 0x2039),
    (0x8C, 0x0152),
    (0x8E, 0x017D),
    (0x91, 0x2018),
    (0x92, 0x2019),
    (0x93, 0x201C),
    (0x94, 0x201D),
    (0x95, 0x2022),
    (0x96, 0x2013),
    (0x97, 0x2014),
    (0x98, 0x02DC),
    (0x99, 0x2122),
    (0x9A, 0x0161),
    (0x9B, 0x203A),
    (0x9C, 0x0153),
    (0x9E, 0x017E),
    (0x9F, 0x0178),
];

/// The first entry of `table` for `code`, looked for from entry `i` on.
pub open spec fn override_from(table: Seq<(u32, u32)>, code: u32, i: int) -> Option<u32>
    decreases table.len() - i,
{
    if i < 0 || i >= table.len() {
        None
    } else if table[i].0 == code {
        Some(table[i].1)
    } else {
        override_from(table, code, i + 1)
    }
}

/// What a numeric character reference stands for: the parse error it raises, if
/// any, and its code point.
pub open spec fn numeric_reference(code: u32) -> (Option<ParseErrorKind>, u32) {
    if code == 0 {
        (Some(ParseErrorKind::NullCharacterReference), 0xFFFD)
    } else if code > 0x10FFFF {
        (Some(ParseErrorKind::CharacterReferenceOutsideUnicodeRange), 0xFFFD)
    } else if is_surrogate(code) {
        (Some(ParseErrorKind::SurrogateCharacterReference), 0xFFFD)
    } else if is_noncharacter(code) {
        (Some(ParseErrorKind::NoncharacterCharacterReference), code)
    } else if code == 0x0D || (is_control(code) && !is_ascii_whitespace(code)) {
        (
            Some(ParseErrorKind::ControlCharacterReference),
            match override_from(CONTROL_OVERRIDES@, code, 0) {
                Some(c) => c,
                None => code,
            },
        )
    } else {
        (None, code)
    }
}

/// The character with the given code point, or the replacement character where
/// there is none.
pub open spec fn char_or_replacement(code: u32) -> char {
    if code <= 0x10FFFF && !is_surrogate(code) {
        code as char
    } else {
        '\u{FFFD}'
    }
}

/// An entry that is found is an entry of the table.
proof fn lemma_override_from(table: Seq<(u32, u32)>, code: u32, i: int)
    requires
        0 <= i,
    ensures
        override_from(table, code, i) matches Some(c) ==> exists|k: int|
            0 <= k < table.len() && (#[trigger] table[k]).1 == c,
    decreases table.len() - i,
{
    if i < table.len() && table[i].0 != code {
        lemma_override_from(table, code, i + 1);
    }
}

/// A numeric character reference stands for a character other than NUL, which is
/// the one it names wherever it raises no error.
pub proof fn lemma_numeric_reference(code: u32)
    ensures
        ({
            let (error, result) = numeric_reference(code);
            &&& 0 < result <= 0x10FFFF
            &&& !is_surrogate(result)
            &&& char_or_replacement(result) as u32 == result
            &&& error is None ==> result == code
        }),
{
    lemma_override_from(CONTROL_OVERRIDES@, code, 0);
    assert forall|k: int| 0 <= k < CONTROL_OVERRIDES@.len() implies 0x100 < (
    #[trigger] CONTROL_OVERRIDES@[k]).1 < 0xD800 by {}
}

/// An end-of-file token stands at most at the end.
pub open spec fn eof_only_last(tokens: Seq<TokenModel>) -> bool {
    forall|i: int| 0 <= i < tokens.len() - 1 ==> !((#[trigger] tokens[i]).kind is Eof)
}

impl TokenizerModel {
    /// The indices lie in the input.
    pub open spec fn wf(self) -> bool {
        &&& self.positions.len() == self.chars.len() + 1
        &&& 0 <= self.index <= self.chars.len()
        &&& 0 <= self.slash_index <= self.chars.len()
        &&& 0 <= self.reference_start <= self.chars.len()
    }

    /// The next character, or nothing at the end of the input.
    pub open spec fn peek(self) -> Option<char> {
        if self.index < self.chars.len() {
            Some(self.chars[self.index])
        } else {
            None
        }
    }

    /// Where the character after index `i` would be looked for.
    pub open spec fn index_after(self, i: int) -> int {
        if i < self.chars.len() {
            i + 1
        } else {
            i
        }
    }

    /// Steps over the next character.
    pub open spec fn consume(self) -> Self {
        TokenizerModel { index: self.index_after(self.index), ..self }
    }

    pub open spec fn goto(self, state: State) -> Self {
        TokenizerModel { state, ..self }
    }

    /// Steps back over the character just read.
    pub open spec fn unread(self, ch: Option<char>) -> Self {
        TokenizerModel {
            index: if ch is Some && self.index > 0 {
                self.index - 1
            } else {
                self.index
            },
            ..self
        }
    }

    /// Steps back over the character just read, to read it again in `state`.
    pub open spec fn reconsume(self, ch: Option<char>, state: State) -> Self {
        self.unread(ch).goto(state)
    }

    /// Goes back to the state that the character reference interrupted.
    pub open spec fn goto_return(self) -> Self {
        self.goto(self.return_state)
    }

    pub open spec fn error(self, kind: ParseErrorKind, position: Position) -> Self {
        TokenizerModel { errors: self.errors.push(ParseError { kind, position }), ..self }
    }

    pub open spec fn emit(self, kind: TokenKindModel, position: Position) -> Self {
        TokenizerModel { pending: self.pending.push(TokenModel { kind, position }), ..self }
    }

    pub open spec fn emit_character(self, c: char, position: Position) -> Self {
        self.emit(TokenKindModel::Character(c), position)
    }

    pub open spec fn emit_eof(self, position: Position) -> Self {
        self.emit(TokenKindModel::Eof, position)
    }

    /// The character just read starts a piece of markup.
    pub open spec fn set_tag_start(self, position: Position) -> Self {
        TokenizerModel { current_tag_start: position, ..self }
    }

    /// The character just read is the slash of an end tag.
    pub open spec fn set_slash(self) -> Self {
        TokenizerModel {
            slash_index: if self.index > 0 {
                self.index - 1
            } else {
                0
            },
            ..self
        }
    }

    pub open spec fn emit_less_than(self) -> Self {
        self.emit_character('<', self.current_tag_start)
    }

    pub open spec fn emit_slash(self) -> Self {
        self.emit_character('/', self.positions[self.slash_index])
    }

    pub open spec fn start_tag_token(self, is_end: bool) -> Self {
        TokenizerModel {
            current_tag: Some(plain_tag(Seq::empty())),
            current_tag_is_end: is_end,
            ..self
        }
    }

    pub open spec fn push_tag_name(self, c: char) -> Self {
        match self.current_tag {
            Some(tag) => TokenizerModel {
                current_tag: Some(TagModel { name: tag.name.push(c), ..tag }),
                ..self
            },
            None => self,
        }
    }

    pub open spec fn set_self_closing(self) -> Self {
        match self.current_tag {
            Some(tag) => TokenizerModel {
                current_tag: Some(TagModel { self_closing: true, ..tag }),
                ..self
            },
            None => self,
        }
    }

    /// Emits the tag that was read. The name of a start tag is remembered: only
    /// an end tag of that name ends raw text.
    pub open spec fn emit_tag(self) -> Self {
        match self.current_tag {
            None => self,
            Some(tag) => if self.current_tag_is_end {
                TokenizerModel { current_tag: None, ..self }.emit(
                    TokenKindModel::EndTag(tag),
                    self.current_tag_start,
                )
            } else {
                TokenizerModel {
                    current_tag: None,
                    last_start_tag_name: Some(tag.name),
                    ..self
                }.emit(TokenKindModel::StartTag(tag), self.current_tag_start)
            },
        }
    }

    pub open spec fn close_tag(self) -> Self {
        self.goto(State::Data).emit_tag()
    }

    pub open spec fn clear_attribute_name(self) -> Self {
        TokenizerModel { current_attribute_name: Seq::empty(), ..self }
    }

    pub open spec fn push_attribute_name(self, c: char) -> Self {
        TokenizerModel { current_attribute_name: self.current_attribute_name.push(c), ..self }
    }

    /// Adds an attribute with the name that was read to the tag, unless the tag
    /// has one of that name already: the earlier one wins.
    pub open spec fn commit_attribute_name(self, position: Position) -> Self {
        let name = self.current_attribute_name;
        match self.current_tag {
            None => self.clear_attribute_name(),
            Some(tag) => if has_attribute(tag.attributes, name) {
                TokenizerModel {
                    attribute_value_target: AttributeValueTarget::Discarded,
                    ..self
                }.clear_attribute_name().error(ParseErrorKind::DuplicateAttribute, position)
            } else {
                TokenizerModel {
                    current_tag: Some(
                        TagModel {
                            attributes: tag.attributes.push(
                                AttributeModel { name, value: Seq::empty() },
                            ),
                            ..tag
                        },
                    ),
                    attribute_value_target: AttributeValueTarget::Index(
                        tag.attributes.len() as usize,
                    ),
                    ..self
                }.clear_attribute_name()
            },
        }
    }

    pub open spec fn push_attribute_value(self, c: char) -> Self {
        match (self.current_tag, self.attribute_value_target) {
            (Some(tag), AttributeValueTarget::Index(i)) => if i < tag.attributes.len() {
                let attribute = tag.attributes[i as int];
                TokenizerModel {
                    current_tag: Some(
                        TagModel {
                            attributes: tag.attributes.update(
                                i as int,
                                AttributeModel { value: attribute.value.push(c), ..attribute },
                            ),
                            ..tag
                        },
                    ),
                    ..self
                }
            } else {
                self
            },
            _ => self,
        }
    }

    pub open spec fn clear_comment(self) -> Self {
        TokenizerModel { current_comment: Seq::empty(), ..self }
    }

    pub open spec fn push_comment(self, c: char) -> Self {
        TokenizerModel { current_comment: self.current_comment.push(c), ..self }
    }

    pub open spec fn emit_comment(self) -> Self {
        self.clear_comment().emit(
            TokenKindModel::Comment(self.current_comment),
            self.current_tag_start,
        )
    }

    pub open spec fn close_comment(self) -> Self {
        self.goto(State::Data).emit_comment()
    }

    /// The input ends inside a comment.
    pub open spec fn eof_in_comment(self, position: Position) -> Self {
        self.error(ParseErrorKind::EofInComment, position).emit_comment().emit_eof(position)
    }

    pub open spec fn set_doctype(self, doctype: DoctypeModel) -> Self {
        TokenizerModel { current_doctype: Some(doctype), ..self }
    }

    pub open spec fn start_doctype(self, c: char) -> Self {
        self.set_doctype(DoctypeModel { name: Some(seq![c]), ..blank_doctype() })
    }

    pub open spec fn start_doctype_with_quirks(self) -> Self {
        self.set_doctype(DoctypeModel { force_quirks: true, ..blank_doctype() })
    }

    pub open spec fn push_doctype_name(self, c: char) -> Self {
        match self.current_doctype {
            Some(doctype) => match doctype.name {
                Some(name) => self.set_doctype(
                    DoctypeModel { name: Some(name.push(c)), ..doctype },
                ),
                None => self,
            },
            None => self,
        }
    }

    pub open spec fn force_quirks(self) -> Self {
        match self.current_doctype {
            Some(doctype) => self.set_doctype(DoctypeModel { force_quirks: true, ..doctype }),
            None => self,
        }
    }

    /// The identifier is present from here on, and empty so far.
    pub open spec fn start_identifier(self, kind: DoctypeIdentifierKind) -> Self {
        match self.current_doctype {
            Some(doctype) => self.set_doctype(
                match kind {
                    DoctypeIdentifierKind::Public => DoctypeModel {
                        public_identifier: Some(Seq::empty()),
                        ..doctype
                    },
                    DoctypeIdentifierKind::System => DoctypeModel {
                        system_identifier: Some(Seq::empty()),
                        ..doctype
                    },
                },
            ),
            None => self,
        }
    }

    pub open spec fn push_identifier(self, kind: DoctypeIdentifierKind, c: char) -> Self {
        match self.current_doctype {
            Some(doctype) => match kind {
                DoctypeIdentifierKind::Public => match doctype.public_identifier {
                    Some(id) => self.set_doctype(
                        DoctypeModel { public_identifier: Some(id.push(c)), ..doctype },
                    ),
                    None => self,
                },
                DoctypeIdentifierKind::System => match doctype.system_identifier {
                    Some(id) => self.set_doctype(
                        DoctypeModel { system_identifier: Some(id.push(c)), ..doctype },
                    ),
                    None => self,
                },
            },
            None => self,
        }
    }

    pub open spec fn emit_doctype(self) -> Self {
        match self.current_doctype {
            Some(doctype) => TokenizerModel { current_doctype: None, ..self }.emit(
                TokenKindModel::Doctype(doctype),
                self.current_tag_start,
            ),
            None => self,
        }
    }

    pub open spec fn close_doctype(self) -> Self {
        self.goto(State::Data).emit_doctype()
    }

    pub open spec fn close_doctype_with_quirks(self) -> Self {
        self.force_quirks().close_doctype()
    }

    /// The input ends inside a DOCTYPE.
    pub open spec fn eof_in_doctype(self, position: Position) -> Self {
        self.error(
            ParseErrorKind::EofInDoctype,
            position,
        ).force_quirks().emit_doctype().emit_eof(position)
    }

    /// Skips the rest of a DOCTYPE that went wrong.
    pub open spec fn bogus_doctype(self, ch: Option<char>) -> Self {
        self.force_quirks().reconsume(ch, State::BogusDoctype)
    }

    pub open spec fn clear_target(self) -> Self {
        TokenizerModel { target_buffer: Seq::empty(), ..self }
    }

    pub open spec fn push_target(self, c: char) -> Self {
        TokenizerModel { target_buffer: self.target_buffer.push(c), ..self }
    }

    /// What was read as the target of a processing instruction is a comment.
    pub open spec fn target_to_comment(self) -> Self {
        TokenizerModel {
            current_comment: seq!['?'] + self.target_buffer,
            target_buffer: Seq::empty(),
            ..self
        }
    }

    /// The target of a processing instruction is complete.
    pub open spec fn finish_target(self, ch: Option<char>, position: Position) -> Self {
        if same_ignoring_case(self.target_buffer, "xml"@) || same_ignoring_case(
            self.target_buffer,
            "xml-stylesheet"@,
        ) {
            self.error(
                ParseErrorKind::DisallowedProcessingInstructionTarget,
                position,
            ).target_to_comment().reconsume(ch, State::BogusComment)
        } else {
            TokenizerModel {
                current_instruction: Some(
                    ProcessingInstructionModel { target: self.target_buffer, data: Seq::empty() },
                ),
                target_buffer: Seq::empty(),
                ..self
            }.reconsume(ch, State::AfterProcessingInstructionTarget)
        }
    }

    pub open spec fn push_instruction_data(self, c: char) -> Self {
        match self.current_instruction {
            Some(pi) => TokenizerModel {
                current_instruction: Some(
                    ProcessingInstructionModel { data: pi.data.push(c), ..pi },
                ),
                ..self
            },
            None => self,
        }
    }

    pub open spec fn drop_instruction(self) -> Self {
        TokenizerModel { current_instruction: None, ..self }
    }

    pub open spec fn close_instruction(self) -> Self {
        match self.current_instruction {
            Some(pi) => self.goto(State::Data).drop_instruction().emit(
                TokenKindModel::ProcessingInstruction(pi),
                self.current_tag_start,
            ),
            None => self.goto(State::Data),
        }
    }

    pub open spec fn clear_end_tag_buffer(self) -> Self {
        TokenizerModel { end_tag_buffer: Seq::empty(), ..self }
    }

    pub open spec fn push_end_tag_buffer(self, c: char) -> Self {
        TokenizerModel { end_tag_buffer: self.end_tag_buffer.push(c), ..self }
    }

    /// The end tag being read closes the last start tag that was emitted.
    pub open spec fn is_appropriate_end_tag(self) -> bool {
        match self.current_tag {
            Some(tag) => self.last_start_tag_name == Some(tag.name),
            None => false,
        }
    }

    /// Emits the characters of `text` that stand in the input after index `at`.
    pub open spec fn emit_buffer(self, text: Seq<char>, at: int) -> Self
        decreases text.len(),
    {
        if text.len() == 0 {
            self
        } else {
            let next = self.index_after(at);
            self.emit_character(text[0], self.positions[next]).emit_buffer(text.drop_first(), next)
        }
    }

    /// What looked like an end tag is text: its characters are emitted as such.
    pub open spec fn abandon_end_tag(self, ch: Option<char>, text_state: State) -> Self {
        TokenizerModel {
            current_tag: None,
            ..self.emit_less_than().emit_slash().emit_buffer(
                self.end_tag_buffer,
                self.slash_index,
            ).clear_end_tag_buffer().reconsume(ch, text_state)
        }
    }

    pub open spec fn begin_character_reference(self, return_state: State) -> Self {
        TokenizerModel {
            return_state,
            reference_start: if self.index > 0 {
                self.index - 1
            } else {
                0
            },
            state: State::CharacterReference,
            ..self
        }
    }

    /// The reference stands in an attribute value.
    pub open spec fn reference_in_attribute(self) -> bool {
        self.return_state is AttributeValueDoubleQuoted
            || self.return_state is AttributeValueSingleQuoted
            || self.return_state is AttributeValueUnquoted
    }

    /// A character that came out of a reference goes to the attribute value or
    /// becomes a token.
    pub open spec fn flush_character(self, c: char, position: Position) -> Self {
        if self.reference_in_attribute() {
            self.push_attribute_value(c)
        } else {
            self.emit_character(c, position)
        }
    }

    /// Flushes the characters of `text`, all of them at `position`.
    pub open spec fn flush_text(self, text: Seq<char>, position: Position) -> Self
        decreases text.len(),
    {
        if text.len() == 0 {
            self
        } else {
            self.flush_character(text[0], position).flush_text(text.drop_first(), position)
        }
    }

    /// Flushes the input from index `from` up to `to` as it stands.
    pub open spec fn flush_input(self, from: int, to: int) -> Self
        decreases to - from,
    {
        if from >= to {
            self
        } else {
            self.flush_character(self.chars[from], self.positions[from]).flush_input(from + 1, to)
        }
    }

    /// What looked like a character reference is text.
    pub open spec fn flush_attempt(self) -> Self {
        self.flush_input(self.reference_start, self.index)
    }

    pub open spec fn abandon_reference(self, ch: Option<char>) -> Self {
        self.unread(ch).flush_attempt().goto_return()
    }

    pub open spec fn clear_code(self) -> Self {
        TokenizerModel { reference_code: 0, ..self }
    }

    /// Adds a digit to the code of a numeric reference, up to the largest code.
    pub open spec fn push_code_digit(self, base: int, c: char) -> Self {
        let code = self.reference_code * base + digit_value(c);
        TokenizerModel {
            reference_code: if code > u32::MAX {
                u32::MAX
            } else {
                code as u32
            },
            ..self
        }
    }

    /// The code of a numeric reference is complete.
    pub open spec fn finish_numeric_reference(self, ch: Option<char>) -> Self {
        let position = self.positions[self.reference_start];
        let (kind, code) = numeric_reference(self.reference_code);
        let reported = match kind {
            Some(kind) => self.error(kind, position),
            None => self,
        };
        reported.flush_character(char_or_replacement(code), position).unread(ch).goto_return()
    }

    /// No name stands after the ampersand: the ampersand is text, and what
    /// follows it is read again.
    pub open spec fn abandon_name(self) -> Self {
        self.flush_character('&', self.positions[self.reference_start]).goto(
            State::AmbiguousAmpersand,
        )
    }

    /// The named character reference at the current place: the longest name
    /// wins. Where no name stands, nothing of the input is consumed but the
    /// ampersand. In an attribute value, a name without its semicolon that runs on
    /// into a letter, a digit or `=` is text.
    pub open spec fn named_reference(self) -> Self {
        let text = self.chars.skip(self.index);
        let table = references(text[0]);
        if self.index >= self.chars.len() {
            self.abandon_name()
        } else {
            match longest_reference(table, text) {
                Some(i) => {
                    let end = TokenizerModel { index: self.index + table[i].0@.len(), ..self };
                    let closed = end.index > 0 && end.chars[end.index - 1] == ';';
                    let runs_on = match end.peek() {
                        Some(c) => c == '=' || is_ascii_alphanumeric(c),
                        None => false,
                    };
                    let position = self.positions[self.reference_start];
                    if end.reference_in_attribute() && !closed && runs_on {
                        end.flush_attempt().goto_return()
                    } else if closed {
                        end.flush_text(table[i].1@, position).goto_return()
                    } else {
                        end.error(
                            ParseErrorKind::MissingSemicolonAfterCharacterReference,
                            position,
                        ).flush_text(table[i].1@, position).goto_return()
                    }
                },
                None => self.abandon_name(),
            }
        }
    }

    /// The input from index `start` on begins with `literal`.
    pub open spec fn looking_at(self, start: int, literal: Seq<char>) -> bool {
        &&& start + literal.len() <= self.chars.len()
        &&& self.chars.subrange(start, start + literal.len() as int) == literal
    }

    /// The same, up to the case of ASCII letters.
    pub open spec fn looking_at_ignoring_case(self, start: int, literal: Seq<char>) -> bool {
        &&& start + literal.len() <= self.chars.len()
        &&& same_ignoring_case(self.chars.subrange(start, start + literal.len() as int), literal)
    }

    pub open spec fn skip_input(self, n: int) -> Self {
        TokenizerModel { index: self.index + n, ..self }
    }

    /// After `<!`: a comment, a DOCTYPE, a CDATA section or a bogus comment.
    pub open spec fn markup_declaration(self) -> Self {
        if self.looking_at(self.index, "--"@) {
            self.skip_input("--"@.len() as int).clear_comment().goto(State::CommentStart)
        } else if self.looking_at_ignoring_case(self.index, "DOCTYPE"@) {
            self.skip_input("DOCTYPE"@.len() as int).goto(State::Doctype)
        } else if self.looking_at(self.index, "[CDATA["@) {
            let after = self.skip_input("[CDATA["@.len() as int);
            if self.in_foreign_content {
                after.goto(State::CdataSection)
            } else {
                TokenizerModel {
                    current_comment: "[CDATA["@,
                    ..after.error(ParseErrorKind::CdataInHtmlContent, after.positions[after.index])
                }.goto(State::BogusComment)
            }
        } else {
            self.error(
                ParseErrorKind::IncorrectlyOpenedComment,
                self.positions[self.index],
            ).clear_comment().goto(State::BogusComment)
        }
    }

    /// After the name of a DOCTYPE: one of the two keywords, or nothing valid.
    pub open spec fn doctype_keyword(self, ch: Option<char>, position: Position) -> Self {
        let start = if self.index > 0 {
            self.index - 1
        } else {
            0
        };
        if self.looking_at_ignoring_case(start, "PUBLIC"@) {
            TokenizerModel {
                index: start + "PUBLIC"@.len(),
                state: State::AfterDoctypePublicKeyword,
                ..self
            }
        } else if self.looking_at_ignoring_case(start, "SYSTEM"@) {
            TokenizerModel {
                index: start + "SYSTEM"@.len(),
                state: State::AfterDoctypeSystemKeyword,
                ..self
            }
        } else {
            self.error(
                ParseErrorKind::InvalidCharacterSequenceAfterDoctypeName,
                position,
            ).bogus_doctype(ch)
        }
    }

    pub open spec fn push_bracket(self, position: Position) -> Self {
        TokenizerModel { pending_brackets: self.pending_brackets.push(position), ..self }
    }

    /// The newest of the withheld brackets is text.
    pub open spec fn emit_newest_bracket(self) -> Self {
        if self.pending_brackets.len() == 0 {
            self
        } else {
            TokenizerModel {
                pending_brackets: self.pending_brackets.drop_last(),
                ..self
            }.emit_character(']', self.pending_brackets.last())
        }
    }

    /// The oldest of the withheld brackets is text.
    pub open spec fn emit_oldest_bracket(self) -> Self {
        if self.pending_brackets.len() == 0 {
            self
        } else {
            TokenizerModel {
                pending_brackets: self.pending_brackets.drop_first(),
                ..self
            }.emit_character(']', self.pending_brackets[0])
        }
    }

    pub open spec fn drop_brackets(self) -> Self {
        TokenizerModel { pending_brackets: Seq::empty(), ..self }
    }

    /// All the withheld brackets are text, oldest first.
    pub open spec fn emit_brackets(self) -> Self
        decreases self.pending_brackets.len(),
    {
        if self.pending_brackets.len() == 0 {
            self
        } else {
            self.emit_oldest_bracket().emit_brackets()
        }
    }

    /// Whether `<script>` text nests: the name that was read decides.
    pub open spec fn goto_if_script(self, script: State, other: State) -> Self {
        if self.end_tag_buffer == "script"@ {
            self.goto(script)
        } else {
            self.goto(other)
        }
    }
}

} // verus!
