//! The tokenizer itself: its state and the small operations that its
//! transitions are made of.
use std::collections::VecDeque;

use vstd::prelude::*;

use crate::entities::search_references;
use crate::text::{
    chars_of, eq_ignore_ascii_case, is_ascii_alphanumeric, is_ascii_digit, is_ascii_hexdigit,
    is_ascii_uppercase, lowercase, lowercase_char, str_eq, to_ascii_lowercase,
};
use crate::token::{
    attribute_models, attributes_contain, token_models, Attribute, DoctypeModel, DoctypeToken,
    ParseError, ParseErrorKind, Position, ProcessingInstructionModel, ProcessingInstructionToken,
    TagModel, TagToken, Token, TokenKind,
};
use crate::tokenizer::model::{
    char_or_replacement, is_ascii_whitespace, is_control, is_noncharacter, is_surrogate,
    numeric_reference, override_from, AttributeValueTarget, CONTROL_OVERRIDES,
    DoctypeIdentifierKind, State, TokenizerModel,
};

verus! {

/// `char::from_u32` gives the character with a code point, and nothing for a
/// number that is a surrogate or beyond the last code point.
pub assume_specification[ char::from_u32 ](code: u32) -> (r: Option<char>)
    ensures
        r == (if code <= 0x10FFFF && !(0xD800 <= code && code <= 0xDFFF) {
            Some(code as char)
        } else {
            None
        }),
;

/// The tokenizer. It reads the whole input up front and gives out one token at
/// a time.
pub struct Tokenizer {
    pub chars: Vec<char>,
    pub positions: Vec<Position>,
    pub index: usize,
    pub state: State,
    pub current_tag: Option<TagToken>,
    pub current_tag_is_end: bool,
    pub current_tag_start: Position,
    pub slash_index: usize,
    pub current_attribute_name: String,
    pub attribute_value_target: AttributeValueTarget,
    pub return_state: State,
    pub reference_start: usize,
    pub reference_code: u32,
    pub current_comment: String,
    pub current_doctype: Option<DoctypeToken>,
    pub target_buffer: String,
    pub current_instruction: Option<ProcessingInstructionToken>,
    pub last_start_tag_name: Option<String>,
    pub end_tag_buffer: String,
    pub in_foreign_content: bool,
    pub pending_brackets: Vec<Position>,
    pub pending: VecDeque<Token>,
    pub eof_returned: bool,
    pub errors: Vec<ParseError>,
}

/// The model of an optional tag.
pub open spec fn tag_model(tag: Option<TagToken>) -> Option<TagModel> {
    match tag {
        Some(tag) => Some(tag@),
        None => None,
    }
}

/// The model of an optional DOCTYPE.
pub open spec fn doctype_model(doctype: Option<DoctypeToken>) -> Option<DoctypeModel> {
    match doctype {
        Some(doctype) => Some(doctype@),
        None => None,
    }
}

/// The model of an optional processing instruction.
pub open spec fn instruction_model(
    pi: Option<ProcessingInstructionToken>,
) -> Option<ProcessingInstructionModel> {
    match pi {
        Some(pi) => Some(pi@),
        None => None,
    }
}

impl View for Tokenizer {
    type V = TokenizerModel;

    open spec fn view(&self) -> TokenizerModel {
        TokenizerModel {
            chars: self.chars@,
            positions: self.positions@,
            index: self.index as int,
            state: self.state,
            current_tag: tag_model(self.current_tag),
            current_tag_is_end: self.current_tag_is_end,
            current_tag_start: self.current_tag_start,
            slash_index: self.slash_index as int,
            current_attribute_name: self.current_attribute_name@,
            attribute_value_target: self.attribute_value_target,
            return_state: self.return_state,
            reference_start: self.reference_start as int,
            reference_code: self.reference_code,
            current_comment: self.current_comment@,
            current_doctype: doctype_model(self.current_doctype),
            target_buffer: self.target_buffer@,
            current_instruction: instruction_model(self.current_instruction),
            last_start_tag_name: crate::text::text_of(self.last_start_tag_name),
            end_tag_buffer: self.end_tag_buffer@,
            in_foreign_content: self.in_foreign_content,
            pending_brackets: self.pending_brackets@,
            pending: token_models(self.pending@),
            eof_returned: self.eof_returned,
            errors: self.errors@,
        }
    }
}

impl Tokenizer {
    /// Steps over the next character.
    pub(crate) fn consume(&mut self)
        requires
            old(self)@.wf(),
        ensures
            final(self)@ == old(self)@.consume(),
            final(self)@.wf(),
    {
        if self.index < self.chars.len() {
            self.index = self.index + 1;
        }
    }

    /// Switches to `state`.
    pub(crate) fn goto(&mut self, state: State)
        requires
            old(self)@.wf(),
        ensures
            final(self)@ == old(self)@.goto(state),
            final(self)@.wf(),
    {
        self.state = state;
    }

    /// Steps back over the character just read.
    pub(crate) fn unread(&mut self, ch: Option<char>)
        requires
            old(self)@.wf(),
        ensures
            final(self)@ == old(self)@.unread(ch),
            final(self)@.wf(),
    {
        if ch.is_some() && self.index > 0 {
            self.index = self.index - 1;
        }
    }

    /// Steps back over the character just read, to read it again in `state`.
    pub(crate) fn reconsume(&mut self, ch: Option<char>, state: State)
        requires
            old(self)@.wf(),
        ensures
            final(self)@ == old(self)@.reconsume(ch, state),
            final(self)@.wf(),
    {
        self.unread(ch);
        self.goto(state);
    }

    /// Goes back to the state that a character reference interrupted.
    pub(crate) fn goto_return(&mut self)
        requires
            old(self)@.wf(),
        ensures
            final(self)@ == old(self)@.goto_return(),
            final(self)@.wf(),
    {
        self.state = self.return_state;
    }

    /// Records a parse error.
    pub(crate) fn error(&mut self, kind: ParseErrorKind, position: Position)
        requires
            old(self)@.wf(),
        ensures
            final(self)@ == old(self)@.error(kind, position),
            final(self)@.wf(),
    {
        self.errors.push(ParseError { kind, position });
    }

    /// Makes a token available.
    pub(crate) fn emit(&mut self, kind: TokenKind, position: Position)
        requires
            old(self)@.wf(),
        ensures
            final(self)@ == old(self)@.emit(kind@, position),
            final(self)@.wf(),
    {
        let token = Token { kind, position };
        self.pending.push_back(token);
        assert(token_models(old(self).pending@.push(token)) == token_models(
            old(self).pending@,
        ).push(token@));
    }

    /// Emits a character.
    pub(crate) fn emit_character(&mut self, c: char, position: Position)
        requires
            old(self)@.wf(),
        ensures
            final(self)@ == old(self)@.emit_character(c, position),
            final(self)@.wf(),
    {
        self.emit(TokenKind::Character(c), position);
    }

    /// Emits the end of the file.
    pub(crate) fn emit_eof(&mut self, position: Position)
        requires
            old(self)@.wf(),
        ensures
            final(self)@ == old(self)@.emit_eof(position),
            final(self)@.wf(),
    {
        self.emit(TokenKind::Eof, position);
    }

    /// A piece of markup starts at `position`.
    pub(crate) fn set_tag_start(&mut self, position: Position)
        requires
            old(self)@.wf(),
        ensures
            final(self)@ == old(self)@.set_tag_start(position),
            final(self)@.wf(),
    {
        self.current_tag_start = position;
    }

    /// The character just read is the slash of an end tag.
    pub(crate) fn set_slash(&mut self)
        requires
            old(self)@.wf(),
        ensures
            final(self)@ == old(self)@.set_slash(),
            final(self)@.wf(),
    {
        self.slash_index = if self.index > 0 {
            self.index - 1
        } else {
            0
        };
    }

    /// Emits the `<` that the markup started with.
    pub(crate) fn emit_less_than(&mut self)
        requires
            old(self)@.wf(),
        ensures
            final(self)@ == old(self)@.emit_less_than(),
            final(self)@.wf(),
    {
        self.emit_character('<', self.current_tag_start);
    }

    /// Emits the slash of the end tag.
    pub(crate) fn emit_slash(&mut self)
        requires
            old(self)@.wf(),
        ensures
            final(self)@ == old(self)@.emit_slash(),
            final(self)@.wf(),
    {
        let position = self.positions[self.slash_index];
        self.emit_character('/', position);
    }

    /// Starts a tag.
    pub(crate) fn start_tag_token(&mut self, is_end: bool)
        requires
            old(self)@.wf(),
        ensures
            final(self)@ == old(self)@.start_tag_token(is_end),
            final(self)@.wf(),
    {
        self.current_tag = Some(
            TagToken { name: String::new(), self_closing: false, attributes: Vec::new() },
        );
        self.current_tag_is_end = is_end;
    }

    /// Adds a character to the name of the tag.
    pub(crate) fn push_tag_name(&mut self, c: char)
        requires
            old(self)@.wf(),
        ensures
            final(self)@ == old(self)@.push_tag_name(c),
            final(self)@.wf(),
    {
        match &mut self.current_tag {
            Some(tag) => tag.name.push(c),
            None => {},
        }
    }

    /// Marks the tag as self-closing.
    pub(crate) fn set_self_closing(&mut self)
        requires
            old(self)@.wf(),
        ensures
            final(self)@ == old(self)@.set_self_closing(),
            final(self)@.wf(),
    {
        match &mut self.current_tag {
            Some(tag) => {
                tag.self_closing = true;
            },
            None => {},
        }
    }

    /// Emits the tag that was read.
    pub(crate) fn emit_tag(&mut self)
        requires
            old(self)@.wf(),
        ensures
            final(self)@ == old(self)@.emit_tag(),
            final(self)@.wf(),
    {
        match self.current_tag.take() {
            None => {},
            Some(tag) => {
                if self.current_tag_is_end {
                    self.emit(TokenKind::EndTag(tag), self.current_tag_start);
                } else {
                    self.last_start_tag_name = Some(tag.name.clone());
                    self.emit(TokenKind::StartTag(tag), self.current_tag_start);
                }
            },
        }
    }

    /// Emits the tag and goes back to text.
    pub(crate) fn close_tag(&mut self)
        requires
            old(self)@.wf(),
        ensures
            final(self)@ == old(self)@.close_tag(),
            final(self)@.wf(),
    {
        self.goto(State::Data);
        self.emit_tag();
    }

    /// Starts the name of an attribute.
    pub(crate) fn clear_attribute_name(&mut self)
        requires
            old(self)@.wf(),
        ensures
            final(self)@ == old(self)@.clear_attribute_name(),
            final(self)@.wf(),
    {
        self.current_attribute_name = String::new();
    }

    /// Adds a character to the name of the attribute.
    pub(crate) fn push_attribute_name(&mut self, c: char)
        requires
            old(self)@.wf(),
        ensures
            final(self)@ == old(self)@.push_attribute_name(c),
            final(self)@.wf(),
    {
        self.current_attribute_name.push(c);
    }

    /// Adds an attribute with the name that was read to the tag, or drops it if the
    /// tag has one of that name already.
    pub(crate) fn commit_attribute_name(&mut self, position: Position)
        requires
            old(self)@.wf(),
        ensures
            final(self)@ == old(self)@.commit_attribute_name(position),
            final(self)@.wf(),
    {
        let mut name = String::new();
        std::mem::swap(&mut name, &mut self.current_attribute_name);
        match &mut self.current_tag {
            None => {},
            Some(tag) => {
                if attributes_contain(&tag.attributes, name.as_str()) {
                    self.attribute_value_target = AttributeValueTarget::Discarded;
                    self.error(ParseErrorKind::DuplicateAttribute, position);
                } else {
                    self.attribute_value_target = AttributeValueTarget::Index(
                        tag.attributes.len(),
                    );
                    let attribute = Attribute { name, value: String::new() };
                    let ghost before = tag.attributes@;
                    tag.attributes.push(attribute);
                    assert(attribute_models(before.push(attribute)) == attribute_models(
                        before,
                    ).push(attribute@));
                }
            },
        }
    }

    /// Adds a character to the value of the attribute.
    pub(crate) fn push_attribute_value(&mut self, c: char)
        requires
            old(self)@.wf(),
        ensures
            final(self)@ == old(self)@.push_attribute_value(c),
            final(self)@.wf(),
    {
        match self.attribute_value_target {
            AttributeValueTarget::Index(i) => {
                match &mut self.current_tag {
                    Some(tag) => {
                        if i < tag.attributes.len() {
                            let ghost before = tag.attributes@;
                            tag.attributes[i].value.push(c);
                            assert(attribute_models(tag.attributes@) == attribute_models(
                                before,
                            ).update(i as int, tag.attributes@[i as int]@));
                        }
                    },
                    None => {},
                }
            },
            AttributeValueTarget::Discarded => {},
        }
    }

    /// Starts a comment.
    pub(crate) fn clear_comment(&mut self)
        requires
            old(self)@.wf(),
        ensures
            final(self)@ == old(self)@.clear_comment(),
            final(self)@.wf(),
    {
        self.current_comment = String::new();
    }

    /// Adds a character to the comment.
    pub(crate) fn push_comment(&mut self, c: char)
        requires
            old(self)@.wf(),
        ensures
            final(self)@ == old(self)@.push_comment(c),
            final(self)@.wf(),
    {
        self.current_comment.push(c);
    }

    /// Emits the comment that was read.
    pub(crate) fn emit_comment(&mut self)
        requires
            old(self)@.wf(),
        ensures
            final(self)@ == old(self)@.emit_comment(),
            final(self)@.wf(),
    {
        let mut data = String::new();
        std::mem::swap(&mut data, &mut self.current_comment);
        self.emit(TokenKind::Comment(data), self.current_tag_start);
    }

    /// Emits the comment and goes back to text.
    pub(crate) fn close_comment(&mut self)
        requires
            old(self)@.wf(),
        ensures
            final(self)@ == old(self)@.close_comment(),
            final(self)@.wf(),
    {
        self.goto(State::Data);
        self.emit_comment();
    }

    /// The input ends inside a comment.
    pub(crate) fn eof_in_comment(&mut self, position: Position)
        requires
            old(self)@.wf(),
        ensures
            final(self)@ == old(self)@.eof_in_comment(position),
            final(self)@.wf(),
    {
        self.error(ParseErrorKind::EofInComment, position);
        self.emit_comment();
        self.emit_eof(position);
    }

    /// Starts a DOCTYPE with the first character of its name.
    pub(crate) fn start_doctype(&mut self, c: char)
        requires
            old(self)@.wf(),
        ensures
            final(self)@ == old(self)@.start_doctype(c),
            final(self)@.wf(),
    {
        let mut name = String::new();
        name.push(c);
        assert(name@ == seq![c]);
        self.current_doctype = Some(
            DoctypeToken {
                name: Some(name),
                public_identifier: None,
                system_identifier: None,
                force_quirks: false,
            },
        );
    }

    /// Starts a DOCTYPE that has no name.
    pub(crate) fn start_doctype_with_quirks(&mut self)
        requires
            old(self)@.wf(),
        ensures
            final(self)@ == old(self)@.start_doctype_with_quirks(),
            final(self)@.wf(),
    {
        self.current_doctype = Some(
            DoctypeToken {
                name: None,
                public_identifier: None,
                system_identifier: None,
                force_quirks: true,
            },
        );
    }

    /// Adds a character to the name of the DOCTYPE.
    pub(crate) fn push_doctype_name(&mut self, c: char)
        requires
            old(self)@.wf(),
        ensures
            final(self)@ == old(self)@.push_doctype_name(c),
            final(self)@.wf(),
    {
        match &mut self.current_doctype {
            Some(doctype) => match &mut doctype.name {
                Some(name) => name.push(c),
                None => {},
            },
            None => {},
        }
    }

    /// The DOCTYPE went wrong.
    pub(crate) fn force_quirks(&mut self)
        requires
            old(self)@.wf(),
        ensures
            final(self)@ == old(self)@.force_quirks(),
            final(self)@.wf(),
    {
        match &mut self.current_doctype {
            Some(doctype) => {
                doctype.force_quirks = true;
            },
            None => {},
        }
    }

    /// Starts an identifier of the DOCTYPE.
    pub(crate) fn start_identifier(&mut self, kind: DoctypeIdentifierKind)
        requires
            old(self)@.wf(),
        ensures
            final(self)@ == old(self)@.start_identifier(kind),
            final(self)@.wf(),
    {
        match &mut self.current_doctype {
            Some(doctype) => match kind {
                DoctypeIdentifierKind::Public => {
                    doctype.public_identifier = Some(String::new());
                },
                DoctypeIdentifierKind::System => {
                    doctype.system_identifier = Some(String::new());
                },
            },
            None => {},
        }
    }

    /// Adds a character to an identifier of the DOCTYPE.
    pub(crate) fn push_identifier(&mut self, kind: DoctypeIdentifierKind, c: char)
        requires
            old(self)@.wf(),
        ensures
            final(self)@ == old(self)@.push_identifier(kind, c),
            final(self)@.wf(),
    {
        match &mut self.current_doctype {
            Some(doctype) => match kind {
                DoctypeIdentifierKind::Public => match &mut doctype.public_identifier {
                    Some(id) => id.push(c),
                    None => {},
                },
                DoctypeIdentifierKind::System => match &mut doctype.system_identifier {
                    Some(id) => id.push(c),
                    None => {},
                },
            },
            None => {},
        }
    }

    /// Emits the DOCTYPE that was read.
    pub(crate) fn emit_doctype(&mut self)
        requires
            old(self)@.wf(),
        ensures
            final(self)@ == old(self)@.emit_doctype(),
            final(self)@.wf(),
    {
        match self.current_doctype.take() {
            Some(doctype) => self.emit(TokenKind::Doctype(doctype), self.current_tag_start),
            None => {},
        }
    }

    /// Emits the DOCTYPE and goes back to text.
    pub(crate) fn close_doctype(&mut self)
        requires
            old(self)@.wf(),
        ensures
            final(self)@ == old(self)@.close_doctype(),
            final(self)@.wf(),
    {
        self.goto(State::Data);
        self.emit_doctype();
    }

    /// Emits a DOCTYPE that went wrong and goes back to text.
    pub(crate) fn close_doctype_with_quirks(&mut self)
        requires
            old(self)@.wf(),
        ensures
            final(self)@ == old(self)@.close_doctype_with_quirks(),
            final(self)@.wf(),
    {
        self.force_quirks();
        self.close_doctype();
    }

    /// The input ends inside a DOCTYPE.
    pub(crate) fn eof_in_doctype(&mut self, position: Position)
        requires
            old(self)@.wf(),
        ensures
            final(self)@ == old(self)@.eof_in_doctype(position),
            final(self)@.wf(),
    {
        self.error(ParseErrorKind::EofInDoctype, position);
        self.force_quirks();
        self.emit_doctype();
        self.emit_eof(position);
    }

    /// Skips the rest of a DOCTYPE that went wrong.
    pub(crate) fn bogus_doctype(&mut self, ch: Option<char>)
        requires
            old(self)@.wf(),
        ensures
            final(self)@ == old(self)@.bogus_doctype(ch),
            final(self)@.wf(),
    {
        self.force_quirks();
        self.reconsume(ch, State::BogusDoctype);
    }

    /// Starts the target of a processing instruction.
    pub(crate) fn clear_target(&mut self)
        requires
            old(self)@.wf(),
        ensures
            final(self)@ == old(self)@.clear_target(),
            final(self)@.wf(),
    {
        self.target_buffer = String::new();
    }

    /// Adds a character to the target.
    pub(crate) fn push_target(&mut self, c: char)
        requires
            old(self)@.wf(),
        ensures
            final(self)@ == old(self)@.push_target(c),
            final(self)@.wf(),
    {
        self.target_buffer.push(c);
    }

    /// What was read as a target is a comment.
    pub(crate) fn target_to_comment(&mut self)
        requires
            old(self)@.wf(),
        ensures
            final(self)@ == old(self)@.target_to_comment(),
            final(self)@.wf(),
    {
        let mut comment = String::new();
        comment.push('?');
        comment.append(self.target_buffer.as_str());
        assert(comment@ == seq!['?'] + self.target_buffer@);
        self.current_comment = comment;
        self.target_buffer = String::new();
    }

    /// The target of a processing instruction is complete.
    pub(crate) fn finish_target(&mut self, ch: Option<char>, position: Position)
        requires
            old(self)@.wf(),
        ensures
            final(self)@ == old(self)@.finish_target(ch, position),
            final(self)@.wf(),
    {
        if eq_ignore_ascii_case(self.target_buffer.as_str(), "xml") || eq_ignore_ascii_case(
            self.target_buffer.as_str(),
            "xml-stylesheet",
        ) {
            self.error(ParseErrorKind::DisallowedProcessingInstructionTarget, position);
            self.target_to_comment();
            self.reconsume(ch, State::BogusComment);
        } else {
            let mut target = String::new();
            std::mem::swap(&mut target, &mut self.target_buffer);
            self.current_instruction = Some(
                ProcessingInstructionToken { target, data: String::new() },
            );
            self.reconsume(ch, State::AfterProcessingInstructionTarget);
        }
    }

    /// Adds a character to the data of the processing instruction.
    pub(crate) fn push_instruction_data(&mut self, c: char)
        requires
            old(self)@.wf(),
        ensures
            final(self)@ == old(self)@.push_instruction_data(c),
            final(self)@.wf(),
    {
        match &mut self.current_instruction {
            Some(pi) => pi.data.push(c),
            None => {},
        }
    }

    /// Drops the processing instruction.
    pub(crate) fn drop_instruction(&mut self)
        requires
            old(self)@.wf(),
        ensures
            final(self)@ == old(self)@.drop_instruction(),
            final(self)@.wf(),
    {
        self.current_instruction = None;
    }

    /// Emits the processing instruction and goes back to text.
    pub(crate) fn close_instruction(&mut self)
        requires
            old(self)@.wf(),
        ensures
            final(self)@ == old(self)@.close_instruction(),
            final(self)@.wf(),
    {
        self.goto(State::Data);
        match self.current_instruction.take() {
            Some(pi) => self.emit(TokenKind::ProcessingInstruction(pi), self.current_tag_start),
            None => {},
        }
    }

    /// Starts what may be the name of an end tag.
    pub(crate) fn clear_end_tag_buffer(&mut self)
        requires
            old(self)@.wf(),
        ensures
            final(self)@ == old(self)@.clear_end_tag_buffer(),
            final(self)@.wf(),
    {
        self.end_tag_buffer = String::new();
    }

    /// Adds a character to what may be the name of an end tag.
    pub(crate) fn push_end_tag_buffer(&mut self, c: char)
        requires
            old(self)@.wf(),
        ensures
            final(self)@ == old(self)@.push_end_tag_buffer(c),
            final(self)@.wf(),
    {
        self.end_tag_buffer.push(c);
    }

    /// Starts a character reference.
    pub(crate) fn begin_character_reference(&mut self, return_state: State)
        requires
            old(self)@.wf(),
        ensures
            final(self)@ == old(self)@.begin_character_reference(return_state),
            final(self)@.wf(),
    {
        self.return_state = return_state;
        self.reference_start = if self.index > 0 {
            self.index - 1
        } else {
            0
        };
        self.state = State::CharacterReference;
    }

    /// Puts a character that came out of a reference where it belongs.
    pub(crate) fn flush_character(&mut self, c: char, position: Position)
        requires
            old(self)@.wf(),
        ensures
            final(self)@ == old(self)@.flush_character(c, position),
            final(self)@.wf(),
    {
        if self.reference_in_attribute() {
            self.push_attribute_value(c);
        } else {
            self.emit_character(c, position);
        }
    }

    /// What looked like a character reference is text.
    pub(crate) fn abandon_reference(&mut self, ch: Option<char>)
        requires
            old(self)@.wf(),
        ensures
            final(self)@ == old(self)@.abandon_reference(ch),
            final(self)@.wf(),
    {
        self.unread(ch);
        self.flush_attempt();
        self.goto_return();
    }

    /// Starts the code of a numeric reference.
    pub(crate) fn clear_code(&mut self)
        requires
            old(self)@.wf(),
        ensures
            final(self)@ == old(self)@.clear_code(),
            final(self)@.wf(),
    {
        self.reference_code = 0;
    }

    /// Withholds a bracket.
    pub(crate) fn push_bracket(&mut self, position: Position)
        requires
            old(self)@.wf(),
        ensures
            final(self)@ == old(self)@.push_bracket(position),
            final(self)@.wf(),
    {
        self.pending_brackets.push(position);
    }

    /// The newest of the withheld brackets is text.
    pub(crate) fn emit_newest_bracket(&mut self)
        requires
            old(self)@.wf(),
        ensures
            final(self)@ == old(self)@.emit_newest_bracket(),
            final(self)@.wf(),
    {
        match self.pending_brackets.pop() {
            Some(position) => self.emit_character(']', position),
            None => {},
        }
    }

    /// The oldest of the withheld brackets is text.
    pub(crate) fn emit_oldest_bracket(&mut self)
        requires
            old(self)@.wf(),
        ensures
            final(self)@ == old(self)@.emit_oldest_bracket(),
            final(self)@.wf(),
    {
        if self.pending_brackets.len() > 0 {
            let position = self.pending_brackets.remove(0);
            assert(self.pending_brackets@ == old(self).pending_brackets@.drop_first());
            self.emit_character(']', position);
        }
    }

    /// The withheld brackets end a section.
    pub(crate) fn drop_brackets(&mut self)
        requires
            old(self)@.wf(),
        ensures
            final(self)@ == old(self)@.drop_brackets(),
            final(self)@.wf(),
    {
        self.pending_brackets = Vec::new();
    }

    /// Switches to `script` if the name that was read is that of a script.
    pub(crate) fn goto_if_script(&mut self, script: State, other: State)
        requires
            old(self)@.wf(),
        ensures
            final(self)@ == old(self)@.goto_if_script(script, other),
            final(self)@.wf(),
    {
        if str_eq(self.end_tag_buffer.as_str(), "script") {
            self.goto(script);
        } else {
            self.goto(other);
        }
    }

    /// Whether the reference stands in an attribute value.
    fn reference_in_attribute(&self) -> (r: bool)
        ensures
            r == self@.reference_in_attribute(),
    {
        matches!(self.return_state, State::AttributeValueDoubleQuoted)
            || matches!(self.return_state, State::AttributeValueSingleQuoted)
            || matches!(self.return_state, State::AttributeValueUnquoted)
    }

    /// Whether the end tag being read closes the last start tag.
    pub(crate) fn is_appropriate_end_tag(&self) -> (r: bool)
        ensures
            r == self@.is_appropriate_end_tag(),
    {
        match &self.current_tag {
            Some(tag) => crate::text::text_is(&self.last_start_tag_name, tag.name.as_str()),
            None => false,
        }
    }

    /// What looked like an end tag is text.
    pub(crate) fn abandon_end_tag(&mut self, ch: Option<char>, text_state: State)
        requires
            old(self)@.wf(),
        ensures
            final(self)@ == old(self)@.abandon_end_tag(ch, text_state),
            final(self)@.wf(),
    {
        self.emit_less_than();
        self.emit_slash();
        let buffer = chars_of(self.end_tag_buffer.as_str());
        let ghost start = self@;
        let mut at: usize = self.slash_index;
        let mut i: usize = 0;
        proof {
            assert(buffer@.skip(0) == buffer@);
        }
        while i < buffer.len()
            invariant
                0 <= i <= buffer@.len(),
                self@.wf(),
                0 <= at <= self@.chars.len(),
                self@.emit_buffer(buffer@.skip(i as int), at as int) == start.emit_buffer(
                    buffer@,
                    start.slash_index,
                ),
                start.only_flushed(self@),
            decreases buffer@.len() - i,
        {
            if at < self.chars.len() {
                at = at + 1;
            }
            let ghost before = self@;
            let position = self.positions[at];
            self.emit_character(buffer[i], position);
            proof {
                assert(buffer@.skip(i as int).drop_first() == buffer@.skip(i + 1));
                crate::tokenizer::progress::lemma_emit_character(
                    before,
                    buffer@[i as int],
                    position,
                );
            }
            i = i + 1;
        }
        self.clear_end_tag_buffer();
        self.current_tag = None;
        self.reconsume(ch, text_state);
        proof {
            crate::tokenizer::progress::lemma_emit_buffer(start, buffer@, start.slash_index);
        }
    }

    /// Flushes the characters of `text`, all of them at `position`.
    fn flush_text(&mut self, text: &str, position: Position)
        requires
            old(self)@.wf(),
        ensures
            final(self)@ == old(self)@.flush_text(text@, position),
            final(self)@.wf(),
    {
        let chars = chars_of(text);
        let mut i: usize = 0;
        proof {
            assert(chars@.skip(0) == chars@);
        }
        while i < chars.len()
            invariant
                0 <= i <= chars@.len(),
                self@.wf(),
                self@.flush_text(chars@.skip(i as int), position) == old(self)@.flush_text(
                    chars@,
                    position,
                ),
            decreases chars@.len() - i,
        {
            self.flush_character(chars[i], position);
            assert(chars@.skip(i as int).drop_first() == chars@.skip(i + 1));
            i = i + 1;
        }
    }

    /// Flushes the input since the `&` as it stands.
    fn flush_attempt(&mut self)
        requires
            old(self)@.wf(),
        ensures
            final(self)@ == old(self)@.flush_attempt(),
            final(self)@.wf(),
    {
        let ghost start = self@;
        let end: usize = self.index;
        let mut i: usize = self.reference_start;
        while i < end
            invariant
                self@.wf(),
                end <= self@.chars.len(),
                self@.chars == start.chars,
                self@.positions == start.positions,
                self@.flush_input(i as int, end as int) == start.flush_attempt(),
            decreases end - i,
        {
            let ghost before = self@;
            let c = self.chars[i];
            let position = self.positions[i];
            self.flush_character(c, position);
            proof {
                crate::tokenizer::progress::lemma_flush_character(before, c, position);
            }
            i = i + 1;
        }
    }

    /// Adds a digit to the code of a numeric reference, up to the largest code.
    pub(crate) fn push_code_digit(&mut self, base: u32, c: char)
        requires
            old(self)@.wf(),
            base == 10 || base == 16,
            is_ascii_hexdigit(c),
        ensures
            final(self)@ == old(self)@.push_code_digit(base as int, c),
            final(self)@.wf(),
    {
        let digit: u32 = if is_ascii_digit(c) {
            c as u32 - '0' as u32
        } else if is_ascii_uppercase(c) {
            c as u32 - 'A' as u32 + 10
        } else {
            c as u32 - 'a' as u32 + 10
        };
        self.reference_code = append_digit(self.reference_code, base, digit);
    }

    /// The code of a numeric reference is complete.
    pub(crate) fn finish_numeric_reference(&mut self, ch: Option<char>)
        requires
            old(self)@.wf(),
        ensures
            final(self)@ == old(self)@.finish_numeric_reference(ch),
            final(self)@.wf(),
    {
        let position = self.positions[self.reference_start];
        let c = self.resolve_numeric_character_reference_code(position);
        self.flush_character(c, position);
        self.unread(ch);
        self.goto_return();
    }

    /// The character that the code of a numeric reference stands for; the
    /// errors it raises are recorded.
    fn resolve_numeric_character_reference_code(&mut self, position: Position) -> (r: char)
        requires
            old(self)@.wf(),
        ensures
            final(self)@.wf(),
            ({
                let (kind, code) = numeric_reference(old(self)@.reference_code);
                &&& r == char_or_replacement(code)
                &&& final(self)@ == match kind {
                    Some(kind) => old(self)@.error(kind, position),
                    None => old(self)@,
                }
            }),
    {
        let code: u32 = self.reference_code;
        let resolved: u32 = if code == 0 {
            self.error(ParseErrorKind::NullCharacterReference, position);
            0xFFFD
        } else if code > 0x10FFFF {
            self.error(ParseErrorKind::CharacterReferenceOutsideUnicodeRange, position);
            0xFFFD
        } else if is_surrogate(code) {
            self.error(ParseErrorKind::SurrogateCharacterReference, position);
            0xFFFD
        } else if is_noncharacter(code) {
            self.error(ParseErrorKind::NoncharacterCharacterReference, position);
            code
        } else if code == 0x0D || (is_control(code) && !is_ascii_whitespace(code)) {
            self.error(ParseErrorKind::ControlCharacterReference, position);
            match windows_1252_override(code) {
                Some(c) => c,
                None => code,
            }
        } else {
            code
        };
        match char::from_u32(resolved) {
            Some(c) => c,
            None => '\u{FFFD}',
        }
    }

    /// No name stands after the ampersand: the ampersand is text.
    fn abandon_name(&mut self)
        requires
            old(self)@.wf(),
        ensures
            final(self)@ == old(self)@.abandon_name(),
            final(self)@.wf(),
    {
        let position = self.positions[self.reference_start];
        self.flush_character('&', position);
        self.goto(State::AmbiguousAmpersand);
    }

    /// The named character reference at the current place.
    pub(crate) fn named_reference(&mut self)
        requires
            old(self)@.wf(),
        ensures
            final(self)@ == old(self)@.named_reference(),
            final(self)@.wf(),
    {
        if self.index >= self.chars.len() {
            self.abandon_name();
            return;
        }
        match search_references(&self.chars, self.index) {
            Some((length, text)) => {
                self.index = self.index + length;
                let closed = self.index > 0 && self.chars[self.index - 1] == ';';
                let runs_on = if self.index < self.chars.len() {
                    let next = self.chars[self.index];
                    next == '=' || is_ascii_alphanumeric(next)
                } else {
                    false
                };
                let position = self.positions[self.reference_start];
                if self.reference_in_attribute() && !closed && runs_on {
                    self.flush_attempt();
                    self.goto_return();
                } else {
                    if !closed {
                        self.error(
                            ParseErrorKind::MissingSemicolonAfterCharacterReference,
                            position,
                        );
                    }
                    self.flush_text(text, position);
                    self.goto_return();
                }
            },
            None => {
                self.abandon_name();
            },
        }
    }

    /// Whether the input from index `start` on begins with `literal`.
    fn looking_at(&self, start: usize, literal: &str) -> (r: bool)
        requires
            self@.wf(),
            start <= self@.chars.len(),
        ensures
            r == self@.looking_at(start as int, literal@),
    {
        let expected = chars_of(literal);
        let length: usize = self.chars.len();
        if expected.len() > length - start {
            return false;
        }
        let ghost window = self@.chars.subrange(start as int, start + literal@.len() as int);
        let mut i: usize = 0;
        while i < expected.len()
            invariant
                self@.wf(),
                length == self@.chars.len(),
                expected@ == literal@,
                start + literal@.len() <= self@.chars.len(),
                window == self@.chars.subrange(start as int, start + literal@.len() as int),
                0 <= i <= literal@.len(),
                forall|j: int| 0 <= j < i ==> window[j] == literal@[j],
            decreases literal@.len() - i,
        {
            assert(window[i as int] == self@.chars[start + i]);
            if self.chars[start + i] != expected[i] {
                return false;
            }
            i = i + 1;
        }
        assert(window == literal@);
        true
    }

    /// The same, up to the case of ASCII letters.
    fn looking_at_ignoring_case(&self, start: usize, literal: &str) -> (r: bool)
        requires
            self@.wf(),
            start <= self@.chars.len(),
        ensures
            r == self@.looking_at_ignoring_case(start as int, literal@),
    {
        let expected = chars_of(literal);
        let length: usize = self.chars.len();
        if expected.len() > length - start {
            return false;
        }
        let ghost window = self@.chars.subrange(start as int, start + literal@.len() as int);
        let mut i: usize = 0;
        while i < expected.len()
            invariant
                self@.wf(),
                length == self@.chars.len(),
                expected@ == literal@,
                start + literal@.len() <= self@.chars.len(),
                window == self@.chars.subrange(start as int, start + literal@.len() as int),
                0 <= i <= literal@.len(),
                forall|j: int|
                    0 <= j < i ==> lowercase_char(#[trigger] window[j]) == lowercase_char(
                        literal@[j],
                    ),
            decreases literal@.len() - i,
        {
            assert(window[i as int] == self@.chars[start + i]);
            if to_ascii_lowercase(self.chars[start + i]) != to_ascii_lowercase(expected[i]) {
                assert(lowercase(window)[i as int] != lowercase(literal@)[i as int]);
                return false;
            }
            i = i + 1;
        }
        assert(lowercase(window) == lowercase(literal@));
        true
    }

    /// After `<!`: a comment, a DOCTYPE, a CDATA section or a bogus comment.
    pub(crate) fn markup_declaration(&mut self)
        requires
            old(self)@.wf(),
        ensures
            final(self)@ == old(self)@.markup_declaration(),
            final(self)@.wf(),
    {
        proof {
            reveal_strlit("--");
            reveal_strlit("DOCTYPE");
            reveal_strlit("[CDATA[");
        }
        let length: usize = self.chars.len();
        if self.looking_at(self.index, "--") {
            self.index = self.index + 2;
            self.clear_comment();
            self.goto(State::CommentStart);
        } else if self.looking_at_ignoring_case(self.index, "DOCTYPE") {
            self.index = self.index + 7;
            self.goto(State::Doctype);
        } else if self.looking_at(self.index, "[CDATA[") {
            self.index = self.index + 7;
            if self.in_foreign_content {
                self.goto(State::CdataSection);
            } else {
                let position = self.positions[self.index];
                self.error(ParseErrorKind::CdataInHtmlContent, position);
                self.current_comment = "[CDATA[".to_owned();
                self.goto(State::BogusComment);
            }
        } else {
            let position = self.positions[self.index];
            self.error(ParseErrorKind::IncorrectlyOpenedComment, position);
            self.clear_comment();
            self.goto(State::BogusComment);
        }
    }

    /// After the name of a DOCTYPE: one of the two keywords, or nothing valid.
    pub(crate) fn doctype_keyword(&mut self, ch: Option<char>, position: Position)
        requires
            old(self)@.wf(),
        ensures
            final(self)@ == old(self)@.doctype_keyword(ch, position),
            final(self)@.wf(),
    {
        proof {
            reveal_strlit("PUBLIC");
            reveal_strlit("SYSTEM");
        }
        let length: usize = self.chars.len();
        let start: usize = if self.index > 0 {
            self.index - 1
        } else {
            0
        };
        if self.looking_at_ignoring_case(start, "PUBLIC") {
            self.index = start + 6;
            self.goto(State::AfterDoctypePublicKeyword);
        } else if self.looking_at_ignoring_case(start, "SYSTEM") {
            self.index = start + 6;
            self.goto(State::AfterDoctypeSystemKeyword);
        } else {
            self.error(ParseErrorKind::InvalidCharacterSequenceAfterDoctypeName, position);
            self.bogus_doctype(ch);
        }
    }

    /// All the withheld brackets are text, oldest first.
    pub(crate) fn emit_brackets(&mut self)
        requires
            old(self)@.wf(),
        ensures
            final(self)@ == old(self)@.emit_brackets(),
            final(self)@.wf(),
    {
        while self.pending_brackets.len() > 0
            invariant
                self@.wf(),
                self@.emit_brackets() == old(self)@.emit_brackets(),
            decreases self.pending_brackets@.len(),
        {
            self.emit_oldest_bracket();
        }
    }
}

/// A number with one more digit, up to the largest number.
fn append_digit(code: u32, base: u32, digit: u32) -> (r: u32)
    requires
        base <= 16,
        digit < 16,
    ensures
        r == (if code * base + digit > u32::MAX {
            u32::MAX as int
        } else {
            code * base + digit
        }),
{
    assert(0 <= code * base <= 0xFFFF_FFFF * 16) by (nonlinear_arith)
        requires
            0 <= code <= 0xFFFF_FFFF,
            0 <= base <= 16,
    ;
    let wide: u64 = code as u64 * base as u64 + digit as u64;
    if wide > u32::MAX as u64 {
        u32::MAX
    } else {
        wide as u32
    }
}

/// The character that a numeric reference to a C1 control stands for, where it
/// is not that control.
fn windows_1252_override(code: u32) -> (r: Option<u32>)
    ensures
        r == override_from(CONTROL_OVERRIDES@, code, 0),
{
    let table: &[(u32, u32)] = &CONTROL_OVERRIDES;
    let mut i: usize = 0;
    while i < table.len()
        invariant
            table@ == CONTROL_OVERRIDES@,
            0 <= i <= table@.len(),
            override_from(table@, code, i as int) == override_from(CONTROL_OVERRIDES@, code, 0),
        decreases table@.len() - i,
    {
        if table[i].0 == code {
            return Some(table[i].1);
        }
        i = i + 1;
    }
    None
}

} // verus!
