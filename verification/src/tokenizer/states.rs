//! The states of the tokenizer at work.
use vstd::prelude::*;

use crate::text::{
    is_ascii_alphabetic, is_ascii_alphanumeric, is_ascii_digit, is_ascii_hexdigit,
    is_ascii_lowercase, is_ascii_uppercase, is_tag_whitespace, to_ascii_lowercase,
};
use crate::token::{ParseErrorKind, Position};
use crate::tokenizer::machine::Tokenizer;
use crate::tokenizer::model::{DoctypeIdentifierKind, State, TokenizerModel};

verus! {

impl Tokenizer {
    /// Text outside of markup.
    fn data_state(&mut self, ch: Option<char>, position: Position)
        requires
            old(self)@.wf(),
        ensures
            final(self)@ == old(self)@.data_state(ch, position),
            final(self)@.wf(),
    {
        proof {
            reveal(TokenizerModel::data_state);
        }
        match ch {
            Some('&') => {
                self.begin_character_reference(State::Data);
            },
            Some('<') => {
                self.set_tag_start(position);
                self.goto(State::TagOpen);
            },
            Some('\0') => {
                self.error(ParseErrorKind::UnexpectedNullCharacter, position);
                self.emit_character('\0', position);
            },
            Some(c) => {
                self.emit_character(c, position);
            },
            None => {
                self.emit_eof(position);
            },
        }
    }

    /// After `<`.
    fn tag_open_state(&mut self, ch: Option<char>, position: Position)
        requires
            old(self)@.wf(),
        ensures
            final(self)@ == old(self)@.tag_open_state(ch, position),
            final(self)@.wf(),
    {
        proof {
            reveal(TokenizerModel::tag_open_state);
        }
        match ch {
            Some('!') => {
                self.goto(State::MarkupDeclarationOpen);
            },
            Some('/') => {
                self.set_slash();
                self.goto(State::EndTagOpen);
            },
            Some(c) if is_ascii_alphabetic(c) => {
                self.start_tag_token(false);
                self.reconsume(ch, State::TagName);
            },
            Some('?') => {
                self.clear_target();
                self.goto(State::ProcessingInstructionOpen);
            },
            Some(_) => {
                self.error(ParseErrorKind::InvalidFirstCharacterOfTagName, position);
                self.emit_less_than();
                self.reconsume(ch, State::Data);
            },
            None => {
                self.error(ParseErrorKind::EofBeforeTagName, position);
                self.emit_less_than();
                self.emit_eof(position);
            },
        }
    }

    /// After `</`.
    fn end_tag_open_state(&mut self, ch: Option<char>, position: Position)
        requires
            old(self)@.wf(),
        ensures
            final(self)@ == old(self)@.end_tag_open_state(ch, position),
            final(self)@.wf(),
    {
        proof {
            reveal(TokenizerModel::end_tag_open_state);
        }
        match ch {
            Some(c) if is_ascii_alphabetic(c) => {
                self.start_tag_token(true);
                self.reconsume(ch, State::TagName);
            },
            Some('>') => {
                self.error(ParseErrorKind::MissingEndTagName, position);
                self.goto(State::Data);
            },
            Some(_) => {
                self.error(ParseErrorKind::InvalidFirstCharacterOfTagName, position);
                self.clear_comment();
                self.reconsume(ch, State::BogusComment);
            },
            None => {
                self.error(ParseErrorKind::EofBeforeTagName, position);
                self.emit_less_than();
                self.emit_slash();
                self.emit_eof(position);
            },
        }
    }

    /// In the name of a tag.
    fn tag_name_state(&mut self, ch: Option<char>, position: Position)
        requires
            old(self)@.wf(),
        ensures
            final(self)@ == old(self)@.tag_name_state(ch, position),
            final(self)@.wf(),
    {
        proof {
            reveal(TokenizerModel::tag_name_state);
        }
        match ch {
            Some(c) if is_tag_whitespace(c) => {
                self.goto(State::BeforeAttributeName);
            },
            Some('/') => {
                self.goto(State::SelfClosingStartTag);
            },
            Some('>') => {
                self.close_tag();
            },
            Some(c) if is_ascii_uppercase(c) => {
                self.push_tag_name(to_ascii_lowercase(c));
            },
            Some('\0') => {
                self.push_tag_name('\u{FFFD}');
            },
            Some(c) => {
                self.push_tag_name(c);
            },
            None => {
                self.error(ParseErrorKind::EofInTag, position);
                self.emit_eof(position);
            },
        }
    }

    /// Between the attributes of a tag.
    fn before_attribute_name_state(&mut self, ch: Option<char>, position: Position)
        requires
            old(self)@.wf(),
        ensures
            final(self)@ == old(self)@.before_attribute_name_state(ch, position),
            final(self)@.wf(),
    {
        proof {
            reveal(TokenizerModel::before_attribute_name_state);
        }
        match ch {
            Some(c) if is_tag_whitespace(c) => {
            },
            Some('/') | Some('>') | None => {
                self.reconsume(ch, State::AfterAttributeName);
            },
            Some('=') => {
                self.error(ParseErrorKind::UnexpectedEqualsSignBeforeAttributeName, position);
                self.clear_attribute_name();
                self.push_attribute_name('=');
                self.goto(State::AttributeName);
            },
            Some(_) => {
                self.clear_attribute_name();
                self.reconsume(ch, State::AttributeName);
            },
        }
    }

    /// In the name of an attribute.
    fn attribute_name_state(&mut self, ch: Option<char>, position: Position)
        requires
            old(self)@.wf(),
        ensures
            final(self)@ == old(self)@.attribute_name_state(ch, position),
            final(self)@.wf(),
    {
        proof {
            reveal(TokenizerModel::attribute_name_state);
        }
        match ch {
            Some(c) if is_tag_whitespace(c) || c == '/' || c == '>' => {
                self.commit_attribute_name(position);
                self.reconsume(ch, State::AfterAttributeName);
            },
            None => {
                self.commit_attribute_name(position);
                self.reconsume(ch, State::AfterAttributeName);
            },
            Some('=') => {
                self.commit_attribute_name(position);
                self.goto(State::BeforeAttributeValue);
            },
            Some(c) if is_ascii_uppercase(c) => {
                self.push_attribute_name(to_ascii_lowercase(c));
            },
            Some('\0') => {
                self.push_attribute_name('\u{FFFD}');
            },
            Some(c) if c == '"' || c == '\'' || c == '<' => {
                self.error(ParseErrorKind::UnexpectedCharacterInAttributeName, position);
                self.push_attribute_name(c);
            },
            Some(c) => {
                self.push_attribute_name(c);
            },
        }
    }

    /// After the name of an attribute.
    fn after_attribute_name_state(&mut self, ch: Option<char>, position: Position)
        requires
            old(self)@.wf(),
        ensures
            final(self)@ == old(self)@.after_attribute_name_state(ch, position),
            final(self)@.wf(),
    {
        proof {
            reveal(TokenizerModel::after_attribute_name_state);
        }
        match ch {
            Some(c) if is_tag_whitespace(c) => {
            },
            Some('/') => {
                self.goto(State::SelfClosingStartTag);
            },
            Some('=') => {
                self.goto(State::BeforeAttributeValue);
            },
            Some('>') => {
                self.close_tag();
            },
            None => {
                self.error(ParseErrorKind::EofInTag, position);
                self.emit_eof(position);
            },
            Some(_) => {
                self.clear_attribute_name();
                self.reconsume(ch, State::AttributeName);
            },
        }
    }

    /// After the `=` of an attribute.
    fn before_attribute_value_state(&mut self, ch: Option<char>, position: Position)
        requires
            old(self)@.wf(),
        ensures
            final(self)@ == old(self)@.before_attribute_value_state(ch, position),
            final(self)@.wf(),
    {
        proof {
            reveal(TokenizerModel::before_attribute_value_state);
        }
        match ch {
            Some(c) if is_tag_whitespace(c) => {
            },
            Some('"') => {
                self.goto(State::AttributeValueDoubleQuoted);
            },
            Some('\'') => {
                self.goto(State::AttributeValueSingleQuoted);
            },
            Some('>') => {
                self.error(ParseErrorKind::MissingAttributeValue, position);
                self.close_tag();
            },
            _ => {
                self.reconsume(ch, State::AttributeValueUnquoted);
            },
        }
    }

    /// In an attribute value between quotation marks.
    fn attribute_value_quoted_state(
        &mut self,
        ch: Option<char>,
        position: Position,
        quote: char,
        state: State,
    )
        requires
            old(self)@.wf(),
        ensures
            final(self)@ == old(self)@.attribute_value_quoted_state(ch, position, quote, state),
            final(self)@.wf(),
    {
        proof {
            reveal(TokenizerModel::attribute_value_quoted_state);
        }
        match ch {
            Some(c) if c == quote => {
                self.goto(State::AfterAttributeValueQuoted);
            },
            Some('&') => {
                self.begin_character_reference(state);
            },
            Some('\0') => {
                self.push_attribute_value('\u{FFFD}');
            },
            Some(c) => {
                self.push_attribute_value(c);
            },
            None => {
                self.error(ParseErrorKind::EofInTag, position);
                self.emit_eof(position);
            },
        }
    }

    /// In an attribute value without quotation marks.
    fn attribute_value_unquoted_state(&mut self, ch: Option<char>, position: Position)
        requires
            old(self)@.wf(),
        ensures
            final(self)@ == old(self)@.attribute_value_unquoted_state(ch, position),
            final(self)@.wf(),
    {
        proof {
            reveal(TokenizerModel::attribute_value_unquoted_state);
        }
        match ch {
            Some(c) if is_tag_whitespace(c) => {
                self.goto(State::BeforeAttributeName);
            },
            Some('&') => {
                self.begin_character_reference(State::AttributeValueUnquoted);
            },
            Some('>') => {
                self.close_tag();
            },
            Some('\0') => {
                self.push_attribute_value('\u{FFFD}');
            },
            Some(c) if c == '"' || c == '\'' || c == '<' || c == '=' || c == '`' => {
                self.error(ParseErrorKind::UnexpectedCharacterInUnquotedAttributeValue, position);
                self.push_attribute_value(c);
            },
            Some(c) => {
                self.push_attribute_value(c);
            },
            None => {
                self.error(ParseErrorKind::EofInTag, position);
                self.emit_eof(position);
            },
        }
    }

    /// After an attribute value between quotation marks.
    fn after_attribute_value_quoted_state(&mut self, ch: Option<char>, position: Position)
        requires
            old(self)@.wf(),
        ensures
            final(self)@ == old(self)@.after_attribute_value_quoted_state(ch, position),
            final(self)@.wf(),
    {
        proof {
            reveal(TokenizerModel::after_attribute_value_quoted_state);
        }
        match ch {
            Some(c) if is_tag_whitespace(c) => {
                self.goto(State::BeforeAttributeName);
            },
            Some('/') => {
                self.goto(State::SelfClosingStartTag);
            },
            Some('>') => {
                self.close_tag();
            },
            None => {
                self.error(ParseErrorKind::EofInTag, position);
                self.emit_eof(position);
            },
            Some(_) => {
                self.error(ParseErrorKind::MissingWhitespaceBetweenAttributes, position);
                self.reconsume(ch, State::BeforeAttributeName);
            },
        }
    }

    /// After the `/` in a tag.
    fn self_closing_start_tag_state(&mut self, ch: Option<char>, position: Position)
        requires
            old(self)@.wf(),
        ensures
            final(self)@ == old(self)@.self_closing_start_tag_state(ch, position),
            final(self)@.wf(),
    {
        proof {
            reveal(TokenizerModel::self_closing_start_tag_state);
        }
        match ch {
            Some('>') => {
                self.set_self_closing();
                self.close_tag();
            },
            None => {
                self.error(ParseErrorKind::EofInTag, position);
                self.emit_eof(position);
            },
            Some(_) => {
                self.error(ParseErrorKind::UnexpectedSolidusInTag, position);
                self.reconsume(ch, State::BeforeAttributeName);
            },
        }
    }

    /// After `&`.
    fn character_reference_state(&mut self, ch: Option<char>, position: Position)
        requires
            old(self)@.wf(),
        ensures
            final(self)@ == old(self)@.character_reference_state(ch, position),
            final(self)@.wf(),
    {
        proof {
            reveal(TokenizerModel::character_reference_state);
        }
        match ch {
            Some(c) if is_ascii_alphanumeric(c) => {
                self.reconsume(ch, State::NamedCharacterReference);
            },
            Some('#') => {
                self.goto(State::NumericCharacterReference);
            },
            _ => {
                self.abandon_reference(ch);
            },
        }
    }

    /// After an unknown name.
    fn ambiguous_ampersand_state(&mut self, ch: Option<char>, position: Position)
        requires
            old(self)@.wf(),
        ensures
            final(self)@ == old(self)@.ambiguous_ampersand_state(ch, position),
            final(self)@.wf(),
    {
        proof {
            reveal(TokenizerModel::ambiguous_ampersand_state);
        }
        match ch {
            Some(c) if is_ascii_alphanumeric(c) => {
                self.flush_character(c, position);
            },
            Some(';') => {
                self.error(ParseErrorKind::UnknownNamedCharacterReference, position);
                self.unread(ch);
                self.goto_return();
            },
            _ => {
                self.unread(ch);
                self.goto_return();
            },
        }
    }

    /// After `&#`.
    fn numeric_character_reference_state(&mut self, ch: Option<char>, position: Position)
        requires
            old(self)@.wf(),
        ensures
            final(self)@ == old(self)@.numeric_character_reference_state(ch, position),
            final(self)@.wf(),
    {
        proof {
            reveal(TokenizerModel::numeric_character_reference_state);
        }
        match ch {
            Some('x') | Some('X') => {
                self.clear_code();
                self.goto(State::HexadecimalCharacterReferenceStart);
            },
            Some(c) if is_ascii_digit(c) => {
                self.clear_code();
                self.reconsume(ch, State::DecimalCharacterReference);
            },
            _ => {
                self.clear_code();
                self.error(ParseErrorKind::AbsenceOfDigitsInNumericCharacterReference, position);
                self.abandon_reference(ch);
            },
        }
    }

    /// After `&#x`.
    fn hexadecimal_character_reference_start_state(&mut self, ch: Option<char>, position: Position)
        requires
            old(self)@.wf(),
        ensures
            final(self)@ == old(self)@.hexadecimal_character_reference_start_state(ch, position),
            final(self)@.wf(),
    {
        proof {
            reveal(TokenizerModel::hexadecimal_character_reference_start_state);
        }
        match ch {
            Some(c) if is_ascii_hexdigit(c) => {
                self.reconsume(ch, State::HexadecimalCharacterReference);
            },
            _ => {
                self.error(ParseErrorKind::AbsenceOfDigitsInNumericCharacterReference, position);
                self.abandon_reference(ch);
            },
        }
    }

    /// In the digits of a hexadecimal reference.
    fn hexadecimal_character_reference_state(&mut self, ch: Option<char>, position: Position)
        requires
            old(self)@.wf(),
        ensures
            final(self)@ == old(self)@.hexadecimal_character_reference_state(ch, position),
            final(self)@.wf(),
    {
        proof {
            reveal(TokenizerModel::hexadecimal_character_reference_state);
        }
        match ch {
            Some(c) if is_ascii_hexdigit(c) => {
                self.push_code_digit(16, c);
            },
            Some(';') => {
                self.goto(State::NumericCharacterReferenceEnd);
            },
            _ => {
                self.error(ParseErrorKind::MissingSemicolonAfterCharacterReference, position);
                self.reconsume(ch, State::NumericCharacterReferenceEnd);
            },
        }
    }

    /// In the digits of a decimal reference.
    fn decimal_character_reference_state(&mut self, ch: Option<char>, position: Position)
        requires
            old(self)@.wf(),
        ensures
            final(self)@ == old(self)@.decimal_character_reference_state(ch, position),
            final(self)@.wf(),
    {
        proof {
            reveal(TokenizerModel::decimal_character_reference_state);
        }
        match ch {
            Some(c) if is_ascii_digit(c) => {
                self.push_code_digit(10, c);
            },
            Some(';') => {
                self.goto(State::NumericCharacterReferenceEnd);
            },
            _ => {
                self.error(ParseErrorKind::MissingSemicolonAfterCharacterReference, position);
                self.reconsume(ch, State::NumericCharacterReferenceEnd);
            },
        }
    }

    /// After the digits of a numeric reference.
    fn numeric_character_reference_end_state(&mut self, ch: Option<char>, position: Position)
        requires
            old(self)@.wf(),
        ensures
            final(self)@ == old(self)@.numeric_character_reference_end_state(ch, position),
            final(self)@.wf(),
    {
        proof {
            reveal(TokenizerModel::numeric_character_reference_end_state);
        }
        match ch {
            _ => {
                self.finish_numeric_reference(ch);
            },
        }
    }

    /// In markup that is kept as a comment.
    fn bogus_comment_state(&mut self, ch: Option<char>, position: Position)
        requires
            old(self)@.wf(),
        ensures
            final(self)@ == old(self)@.bogus_comment_state(ch, position),
            final(self)@.wf(),
    {
        proof {
            reveal(TokenizerModel::bogus_comment_state);
        }
        match ch {
            Some('>') => {
                self.close_comment();
            },
            None => {
                self.emit_comment();
                self.emit_eof(position);
            },
            Some('\0') => {
                self.push_comment('\u{FFFD}');
            },
            Some(c) => {
                self.push_comment(c);
            },
        }
    }

    /// After `<!--`.
    fn comment_start_state(&mut self, ch: Option<char>, position: Position)
        requires
            old(self)@.wf(),
        ensures
            final(self)@ == old(self)@.comment_start_state(ch, position),
            final(self)@.wf(),
    {
        proof {
            reveal(TokenizerModel::comment_start_state);
        }
        match ch {
            Some('-') => {
                self.goto(State::CommentStartDash);
            },
            Some('>') => {
                self.error(ParseErrorKind::AbruptClosingOfEmptyComment, position);
                self.close_comment();
            },
            _ => {
                self.reconsume(ch, State::Comment);
            },
        }
    }

    /// After `<!---`.
    fn comment_start_dash_state(&mut self, ch: Option<char>, position: Position)
        requires
            old(self)@.wf(),
        ensures
            final(self)@ == old(self)@.comment_start_dash_state(ch, position),
            final(self)@.wf(),
    {
        proof {
            reveal(TokenizerModel::comment_start_dash_state);
        }
        match ch {
            Some('-') => {
                self.goto(State::CommentEnd);
            },
            Some('>') => {
                self.error(ParseErrorKind::AbruptClosingOfEmptyComment, position);
                self.close_comment();
            },
            None => {
                self.eof_in_comment(position);
            },
            Some(_) => {
                self.push_comment('-');
                self.reconsume(ch, State::Comment);
            },
        }
    }

    /// In a comment.
    fn comment_state(&mut self, ch: Option<char>, position: Position)
        requires
            old(self)@.wf(),
        ensures
            final(self)@ == old(self)@.comment_state(ch, position),
            final(self)@.wf(),
    {
        proof {
            reveal(TokenizerModel::comment_state);
        }
        match ch {
            Some('<') => {
                self.push_comment('<');
                self.goto(State::CommentLessThanSign);
            },
            Some('-') => {
                self.goto(State::CommentEndDash);
            },
            Some('\0') => {
                self.push_comment('\u{FFFD}');
            },
            None => {
                self.eof_in_comment(position);
            },
            Some(c) => {
                self.push_comment(c);
            },
        }
    }

    /// After `<` in a comment.
    fn comment_less_than_sign_state(&mut self, ch: Option<char>, position: Position)
        requires
            old(self)@.wf(),
        ensures
            final(self)@ == old(self)@.comment_less_than_sign_state(ch, position),
            final(self)@.wf(),
    {
        proof {
            reveal(TokenizerModel::comment_less_than_sign_state);
        }
        match ch {
            Some('!') => {
                self.push_comment('!');
                self.goto(State::CommentLessThanSignBang);
            },
            Some('<') => {
                self.push_comment('<');
            },
            _ => {
                self.reconsume(ch, State::Comment);
            },
        }
    }

    /// After `<!` in a comment.
    fn comment_less_than_sign_bang_state(&mut self, ch: Option<char>, position: Position)
        requires
            old(self)@.wf(),
        ensures
            final(self)@ == old(self)@.comment_less_than_sign_bang_state(ch, position),
            final(self)@.wf(),
    {
        proof {
            reveal(TokenizerModel::comment_less_than_sign_bang_state);
        }
        match ch {
            Some('-') => {
                self.goto(State::CommentLessThanSignBangDash);
            },
            _ => {
                self.reconsume(ch, State::Comment);
            },
        }
    }

    /// After `<!-` in a comment.
    fn comment_less_than_sign_bang_dash_state(&mut self, ch: Option<char>, position: Position)
        requires
            old(self)@.wf(),
        ensures
            final(self)@ == old(self)@.comment_less_than_sign_bang_dash_state(ch, position),
            final(self)@.wf(),
    {
        proof {
            reveal(TokenizerModel::comment_less_than_sign_bang_dash_state);
        }
        match ch {
            Some('-') => {
                self.goto(State::CommentLessThanSignBangDashDash);
            },
            _ => {
                self.reconsume(ch, State::CommentEndDash);
            },
        }
    }

    /// After `<!--` in a comment.
    fn comment_less_than_sign_bang_dash_dash_state(&mut self, ch: Option<char>, position: Position)
        requires
            old(self)@.wf(),
        ensures
            final(self)@ == old(self)@.comment_less_than_sign_bang_dash_dash_state(ch, position),
            final(self)@.wf(),
    {
        proof {
            reveal(TokenizerModel::comment_less_than_sign_bang_dash_dash_state);
        }
        match ch {
            Some('>') | None => {
                self.reconsume(ch, State::CommentEnd);
            },
            Some(_) => {
                self.error(ParseErrorKind::NestedComment, position);
                self.reconsume(ch, State::CommentEnd);
            },
        }
    }

    /// After `-` in a comment.
    fn comment_end_dash_state(&mut self, ch: Option<char>, position: Position)
        requires
            old(self)@.wf(),
        ensures
            final(self)@ == old(self)@.comment_end_dash_state(ch, position),
            final(self)@.wf(),
    {
        proof {
            reveal(TokenizerModel::comment_end_dash_state);
        }
        match ch {
            Some('-') => {
                self.goto(State::CommentEnd);
            },
            None => {
                self.eof_in_comment(position);
            },
            Some(_) => {
                self.push_comment('-');
                self.reconsume(ch, State::Comment);
            },
        }
    }

    /// After `--` in a comment.
    fn comment_end_state(&mut self, ch: Option<char>, position: Position)
        requires
            old(self)@.wf(),
        ensures
            final(self)@ == old(self)@.comment_end_state(ch, position),
            final(self)@.wf(),
    {
        proof {
            reveal(TokenizerModel::comment_end_state);
        }
        match ch {
            Some('>') => {
                self.close_comment();
            },
            Some('!') => {
                self.goto(State::CommentEndBang);
            },
            Some('-') => {
                self.push_comment('-');
            },
            None => {
                self.eof_in_comment(position);
            },
            Some(_) => {
                self.push_comment('-');
                self.push_comment('-');
                self.reconsume(ch, State::Comment);
            },
        }
    }

    /// After `--!` in a comment.
    fn comment_end_bang_state(&mut self, ch: Option<char>, position: Position)
        requires
            old(self)@.wf(),
        ensures
            final(self)@ == old(self)@.comment_end_bang_state(ch, position),
            final(self)@.wf(),
    {
        proof {
            reveal(TokenizerModel::comment_end_bang_state);
        }
        match ch {
            Some('-') => {
                self.push_comment('-');
                self.push_comment('-');
                self.push_comment('!');
                self.goto(State::CommentEndDash);
            },
            Some('>') => {
                self.error(ParseErrorKind::IncorrectlyClosedComment, position);
                self.close_comment();
            },
            None => {
                self.eof_in_comment(position);
            },
            Some(_) => {
                self.push_comment('-');
                self.push_comment('-');
                self.push_comment('!');
                self.reconsume(ch, State::Comment);
            },
        }
    }

    /// After `<!DOCTYPE`.
    fn doctype_state(&mut self, ch: Option<char>, position: Position)
        requires
            old(self)@.wf(),
        ensures
            final(self)@ == old(self)@.doctype_state(ch, position),
            final(self)@.wf(),
    {
        proof {
            reveal(TokenizerModel::doctype_state);
        }
        match ch {
            Some(c) if is_tag_whitespace(c) => {
                self.goto(State::BeforeDoctypeName);
            },
            Some('>') => {
                self.reconsume(ch, State::BeforeDoctypeName);
            },
            None => {
                self.error(ParseErrorKind::EofInDoctype, position);
                self.start_doctype_with_quirks();
                self.emit_doctype();
                self.emit_eof(position);
            },
            Some(_) => {
                self.error(ParseErrorKind::MissingWhitespaceBeforeDoctypeName, position);
                self.reconsume(ch, State::BeforeDoctypeName);
            },
        }
    }

    /// Before the name of a DOCTYPE.
    fn before_doctype_name_state(&mut self, ch: Option<char>, position: Position)
        requires
            old(self)@.wf(),
        ensures
            final(self)@ == old(self)@.before_doctype_name_state(ch, position),
            final(self)@.wf(),
    {
        proof {
            reveal(TokenizerModel::before_doctype_name_state);
        }
        match ch {
            Some(c) if is_tag_whitespace(c) => {
            },
            Some(c) if is_ascii_uppercase(c) => {
                self.start_doctype(to_ascii_lowercase(c));
                self.goto(State::DoctypeName);
            },
            Some('\0') => {
                self.start_doctype('\u{FFFD}');
                self.goto(State::DoctypeName);
            },
            Some('>') => {
                self.error(ParseErrorKind::MissingDoctypeName, position);
                self.start_doctype_with_quirks();
                self.close_doctype();
            },
            None => {
                self.error(ParseErrorKind::EofInDoctype, position);
                self.start_doctype_with_quirks();
                self.emit_doctype();
                self.emit_eof(position);
            },
            Some(c) => {
                self.start_doctype(c);
                self.goto(State::DoctypeName);
            },
        }
    }

    /// In the name of a DOCTYPE.
    fn doctype_name_state(&mut self, ch: Option<char>, position: Position)
        requires
            old(self)@.wf(),
        ensures
            final(self)@ == old(self)@.doctype_name_state(ch, position),
            final(self)@.wf(),
    {
        proof {
            reveal(TokenizerModel::doctype_name_state);
        }
        match ch {
            Some(c) if is_tag_whitespace(c) => {
                self.goto(State::AfterDoctypeName);
            },
            Some('>') => {
                self.close_doctype();
            },
            Some(c) if is_ascii_uppercase(c) => {
                self.push_doctype_name(to_ascii_lowercase(c));
            },
            Some('\0') => {
                self.push_doctype_name('\u{FFFD}');
            },
            None => {
                self.eof_in_doctype(position);
            },
            Some(c) => {
                self.push_doctype_name(c);
            },
        }
    }

    /// After the name of a DOCTYPE.
    fn after_doctype_name_state(&mut self, ch: Option<char>, position: Position)
        requires
            old(self)@.wf(),
        ensures
            final(self)@ == old(self)@.after_doctype_name_state(ch, position),
            final(self)@.wf(),
    {
        proof {
            reveal(TokenizerModel::after_doctype_name_state);
        }
        match ch {
            Some(c) if is_tag_whitespace(c) => {
            },
            Some('>') => {
                self.close_doctype();
            },
            None => {
                self.eof_in_doctype(position);
            },
            Some(_) => {
                self.doctype_keyword(ch, position);
            },
        }
    }

    /// Before an identifier of a DOCTYPE.
    fn before_doctype_identifier_state(
        &mut self,
        ch: Option<char>,
        position: Position,
        after_whitespace: State,
        kind: DoctypeIdentifierKind,
        double: State,
        single: State,
    )
        requires
            old(self)@.wf(),
        ensures
            final(self)@ == old(self)@.before_doctype_identifier_state(
                ch,
                position,
                after_whitespace,
                kind,
                double,
                single,
            ),
            final(self)@.wf(),
    {
        proof {
            reveal(TokenizerModel::before_doctype_identifier_state);
        }
        match ch {
            Some(c) if is_tag_whitespace(c) => {
                self.goto(after_whitespace);
            },
            Some('"') => {
                self.start_identifier(kind);
                self.goto(double);
            },
            Some('\'') => {
                self.start_identifier(kind);
                self.goto(single);
            },
            Some('>') => {
                self.close_doctype_with_quirks();
            },
            None => {
                self.eof_in_doctype(position);
            },
            Some(_) => {
                self.bogus_doctype(ch);
            },
        }
    }

    /// In an identifier of a DOCTYPE.
    fn doctype_identifier_quoted_state(
        &mut self,
        ch: Option<char>,
        position: Position,
        quote: char,
        kind: DoctypeIdentifierKind,
        after: State,
    )
        requires
            old(self)@.wf(),
        ensures
            final(self)@ == old(self)@.doctype_identifier_quoted_state(
                ch,
                position,
                quote,
                kind,
                after,
            ),
            final(self)@.wf(),
    {
        proof {
            reveal(TokenizerModel::doctype_identifier_quoted_state);
        }
        match ch {
            Some(c) if c == quote => {
                self.goto(after);
            },
            Some('\0') => {
                self.push_identifier(kind, '\u{FFFD}');
            },
            Some('>') => {
                self.close_doctype_with_quirks();
            },
            None => {
                self.eof_in_doctype(position);
            },
            Some(c) => {
                self.push_identifier(kind, c);
            },
        }
    }

    /// After the public identifier of a DOCTYPE.
    fn after_doctype_public_identifier_state(&mut self, ch: Option<char>, position: Position)
        requires
            old(self)@.wf(),
        ensures
            final(self)@ == old(self)@.after_doctype_public_identifier_state(ch, position),
            final(self)@.wf(),
    {
        proof {
            reveal(TokenizerModel::after_doctype_public_identifier_state);
        }
        match ch {
            Some(c) if is_tag_whitespace(c) => {
                self.goto(State::BetweenDoctypePublicAndSystemIdentifiers);
            },
            Some('>') => {
                self.close_doctype();
            },
            Some('"') => {
                self.error(
                    ParseErrorKind::MissingWhitespaceBetweenDoctypePublicAndSystemIdentifiers,
                    position,
                );
                self.start_identifier(DoctypeIdentifierKind::System);
                self.goto(State::DoctypeSystemIdentifierDoubleQuoted);
            },
            Some('\'') => {
                self.error(
                    ParseErrorKind::MissingWhitespaceBetweenDoctypePublicAndSystemIdentifiers,
                    position,
                );
                self.start_identifier(DoctypeIdentifierKind::System);
                self.goto(State::DoctypeSystemIdentifierSingleQuoted);
            },
            None => {
                self.eof_in_doctype(position);
            },
            Some(_) => {
                self.bogus_doctype(ch);
            },
        }
    }

    /// Between the two identifiers of a DOCTYPE.
    fn between_doctype_identifiers_state(&mut self, ch: Option<char>, position: Position)
        requires
            old(self)@.wf(),
        ensures
            final(self)@ == old(self)@.between_doctype_identifiers_state(ch, position),
            final(self)@.wf(),
    {
        proof {
            reveal(TokenizerModel::between_doctype_identifiers_state);
        }
        match ch {
            Some(c) if is_tag_whitespace(c) => {
            },
            Some('>') => {
                self.close_doctype();
            },
            Some('"') => {
                self.start_identifier(DoctypeIdentifierKind::System);
                self.goto(State::DoctypeSystemIdentifierDoubleQuoted);
            },
            Some('\'') => {
                self.start_identifier(DoctypeIdentifierKind::System);
                self.goto(State::DoctypeSystemIdentifierSingleQuoted);
            },
            None => {
                self.eof_in_doctype(position);
            },
            Some(_) => {
                self.bogus_doctype(ch);
            },
        }
    }

    /// After the system identifier of a DOCTYPE.
    fn after_doctype_system_identifier_state(&mut self, ch: Option<char>, position: Position)
        requires
            old(self)@.wf(),
        ensures
            final(self)@ == old(self)@.after_doctype_system_identifier_state(ch, position),
            final(self)@.wf(),
    {
        proof {
            reveal(TokenizerModel::after_doctype_system_identifier_state);
        }
        match ch {
            Some(c) if is_tag_whitespace(c) => {
            },
            Some('>') => {
                self.close_doctype();
            },
            None => {
                self.eof_in_doctype(position);
            },
            Some(_) => {
                self.error(
                    ParseErrorKind::UnexpectedCharacterAfterDoctypeSystemIdentifier,
                    position,
                );
                self.reconsume(ch, State::BogusDoctype);
            },
        }
    }

    /// In the rest of a DOCTYPE that went wrong.
    fn bogus_doctype_rest_state(&mut self, ch: Option<char>, position: Position)
        requires
            old(self)@.wf(),
        ensures
            final(self)@ == old(self)@.bogus_doctype_rest_state(ch, position),
            final(self)@.wf(),
    {
        proof {
            reveal(TokenizerModel::bogus_doctype_rest_state);
        }
        match ch {
            Some('>') => {
                self.close_doctype();
            },
            None => {
                self.emit_doctype();
                self.emit_eof(position);
            },
            Some(_) => {
            },
        }
    }

    /// After `<?`.
    fn processing_instruction_open_state(&mut self, ch: Option<char>, position: Position)
        requires
            old(self)@.wf(),
        ensures
            final(self)@ == old(self)@.processing_instruction_open_state(ch, position),
            final(self)@.wf(),
    {
        proof {
            reveal(TokenizerModel::processing_instruction_open_state);
        }
        match ch {
            Some(c) if is_ascii_alphabetic(c) || c == '_' => {
                self.reconsume(ch, State::ProcessingInstructionTarget);
            },
            None => {
                self.error(ParseErrorKind::EofInProcessingInstruction, position);
                self.emit_eof(position);
            },
            Some(_) => {
                self.error(
                    ParseErrorKind::InvalidFirstCharacterOfProcessingInstructionTarget,
                    position,
                );
                self.target_to_comment();
                self.reconsume(ch, State::BogusComment);
            },
        }
    }

    /// In the target of a processing instruction.
    fn processing_instruction_target_state(&mut self, ch: Option<char>, position: Position)
        requires
            old(self)@.wf(),
        ensures
            final(self)@ == old(self)@.processing_instruction_target_state(ch, position),
            final(self)@.wf(),
    {
        proof {
            reveal(TokenizerModel::processing_instruction_target_state);
        }
        match ch {
            Some(c) if is_tag_whitespace(c) || c == '?' || c == '>' => {
                self.finish_target(ch, position);
            },
            Some(c) if is_ascii_alphanumeric(c) || c == '-' || c == '_' => {
                self.push_target(c);
            },
            None => {
                self.error(ParseErrorKind::EofInProcessingInstruction, position);
                self.emit_eof(position);
            },
            Some(_) => {
                self.error(ParseErrorKind::InvalidProcessingInstructionTarget, position);
                self.target_to_comment();
                self.reconsume(ch, State::BogusComment);
            },
        }
    }

    /// After the target of a processing instruction.
    fn after_processing_instruction_target_state(&mut self, ch: Option<char>, position: Position)
        requires
            old(self)@.wf(),
        ensures
            final(self)@ == old(self)@.after_processing_instruction_target_state(ch, position),
            final(self)@.wf(),
    {
        proof {
            reveal(TokenizerModel::after_processing_instruction_target_state);
        }
        match ch {
            Some(c) if is_tag_whitespace(c) => {
            },
            _ => {
                self.reconsume(ch, State::ProcessingInstructionData);
            },
        }
    }

    /// In the data of a processing instruction.
    fn processing_instruction_data_state(&mut self, ch: Option<char>, position: Position)
        requires
            old(self)@.wf(),
        ensures
            final(self)@ == old(self)@.processing_instruction_data_state(ch, position),
            final(self)@.wf(),
    {
        proof {
            reveal(TokenizerModel::processing_instruction_data_state);
        }
        match ch {
            Some('?') => {
                self.goto(State::ProcessingInstructionQuestionable);
            },
            Some('>') => {
                self.close_instruction();
            },
            None => {
                self.error(ParseErrorKind::EofInProcessingInstruction, position);
                self.drop_instruction();
                self.emit_eof(position);
            },
            Some(c) => {
                self.push_instruction_data(c);
            },
        }
    }

    /// After `?` in a processing instruction.
    fn processing_instruction_questionable_state(&mut self, ch: Option<char>, position: Position)
        requires
            old(self)@.wf(),
        ensures
            final(self)@ == old(self)@.processing_instruction_questionable_state(ch, position),
            final(self)@.wf(),
    {
        proof {
            reveal(TokenizerModel::processing_instruction_questionable_state);
        }
        match ch {
            Some('>') => {
                self.close_instruction();
            },
            None => {
                self.drop_instruction();
                self.emit_eof(position);
            },
            Some(_) => {
                self.push_instruction_data('?');
                self.reconsume(ch, State::ProcessingInstructionData);
            },
        }
    }

    /// In text with character references.
    fn rcdata_state(&mut self, ch: Option<char>, position: Position)
        requires
            old(self)@.wf(),
        ensures
            final(self)@ == old(self)@.rcdata_state(ch, position),
            final(self)@.wf(),
    {
        proof {
            reveal(TokenizerModel::rcdata_state);
        }
        match ch {
            Some('&') => {
                self.begin_character_reference(State::RcData);
            },
            Some('<') => {
                self.set_tag_start(position);
                self.goto(State::RcDataLessThanSign);
            },
            Some('\0') => {
                self.emit_character('\u{FFFD}', position);
            },
            Some(c) => {
                self.emit_character(c, position);
            },
            None => {
                self.emit_eof(position);
            },
        }
    }

    /// In text without character references.
    fn raw_text_state(&mut self, ch: Option<char>, position: Position, less_than_sign: State)
        requires
            old(self)@.wf(),
        ensures
            final(self)@ == old(self)@.raw_text_state(ch, position, less_than_sign),
            final(self)@.wf(),
    {
        proof {
            reveal(TokenizerModel::raw_text_state);
        }
        match ch {
            Some('<') => {
                self.set_tag_start(position);
                self.goto(less_than_sign);
            },
            Some('\0') => {
                self.emit_character('\u{FFFD}', position);
            },
            Some(c) => {
                self.emit_character(c, position);
            },
            None => {
                self.emit_eof(position);
            },
        }
    }

    /// After `<` in such text.
    fn text_less_than_sign_state(
        &mut self,
        ch: Option<char>,
        position: Position,
        end_tag_open: State,
        text: State,
    )
        requires
            old(self)@.wf(),
        ensures
            final(self)@ == old(self)@.text_less_than_sign_state(ch, position, end_tag_open, text),
            final(self)@.wf(),
    {
        proof {
            reveal(TokenizerModel::text_less_than_sign_state);
        }
        match ch {
            Some('/') => {
                self.clear_end_tag_buffer();
                self.set_slash();
                self.goto(end_tag_open);
            },
            _ => {
                self.emit_less_than();
                self.reconsume(ch, text);
            },
        }
    }

    /// After `</` in such text.
    fn text_end_tag_open_state(
        &mut self,
        ch: Option<char>,
        position: Position,
        end_tag_name: State,
        text: State,
    )
        requires
            old(self)@.wf(),
        ensures
            final(self)@ == old(self)@.text_end_tag_open_state(ch, position, end_tag_name, text),
            final(self)@.wf(),
    {
        proof {
            reveal(TokenizerModel::text_end_tag_open_state);
        }
        match ch {
            Some(c) if is_ascii_alphabetic(c) => {
                self.start_tag_token(true);
                self.reconsume(ch, end_tag_name);
            },
            _ => {
                self.emit_less_than();
                self.emit_slash();
                self.reconsume(ch, text);
            },
        }
    }

    /// In what may be an end tag in such text.
    fn text_end_tag_name_state(&mut self, ch: Option<char>, position: Position, text: State)
        requires
            old(self)@.wf(),
        ensures
            final(self)@ == old(self)@.text_end_tag_name_state(ch, position, text),
            final(self)@.wf(),
    {
        proof {
            reveal(TokenizerModel::text_end_tag_name_state);
        }
        match ch {
            Some(c) if is_tag_whitespace(c) && self.is_appropriate_end_tag() => {
                self.goto(State::BeforeAttributeName);
            },
            Some(c) if c == '/' && self.is_appropriate_end_tag() => {
                self.goto(State::SelfClosingStartTag);
            },
            Some(c) if c == '>' && self.is_appropriate_end_tag() => {
                self.close_tag();
            },
            Some(c) if is_ascii_uppercase(c) => {
                self.push_tag_name(to_ascii_lowercase(c));
                self.push_end_tag_buffer(c);
            },
            Some(c) if is_ascii_lowercase(c) => {
                self.push_tag_name(c);
                self.push_end_tag_buffer(c);
            },
            _ => {
                self.abandon_end_tag(ch, text);
            },
        }
    }

    /// In text that runs to the end of the input.
    fn plain_text_state(&mut self, ch: Option<char>, position: Position)
        requires
            old(self)@.wf(),
        ensures
            final(self)@ == old(self)@.plain_text_state(ch, position),
            final(self)@.wf(),
    {
        proof {
            reveal(TokenizerModel::plain_text_state);
        }
        match ch {
            Some('\0') => {
                self.emit_character('\u{FFFD}', position);
            },
            Some(c) => {
                self.emit_character(c, position);
            },
            None => {
                self.emit_eof(position);
            },
        }
    }

    /// After `<` in a script.
    fn script_data_less_than_sign_state(&mut self, ch: Option<char>, position: Position)
        requires
            old(self)@.wf(),
        ensures
            final(self)@ == old(self)@.script_data_less_than_sign_state(ch, position),
            final(self)@.wf(),
    {
        proof {
            reveal(TokenizerModel::script_data_less_than_sign_state);
        }
        match ch {
            Some('/') => {
                self.clear_end_tag_buffer();
                self.set_slash();
                self.goto(State::ScriptDataEndTagOpen);
            },
            Some('!') => {
                self.emit_less_than();
                self.emit_character('!', position);
                self.goto(State::ScriptDataEscapeStart);
            },
            _ => {
                self.emit_less_than();
                self.reconsume(ch, State::ScriptData);
            },
        }
    }

    /// After `<!` or `<!-` in a script.
    fn script_data_escape_start_state(&mut self, ch: Option<char>, position: Position, dash: State)
        requires
            old(self)@.wf(),
        ensures
            final(self)@ == old(self)@.script_data_escape_start_state(ch, position, dash),
            final(self)@.wf(),
    {
        proof {
            reveal(TokenizerModel::script_data_escape_start_state);
        }
        match ch {
            Some('-') => {
                self.emit_character('-', position);
                self.goto(dash);
            },
            _ => {
                self.reconsume(ch, State::ScriptData);
            },
        }
    }

    /// In the comment-like part of a script.
    fn script_data_escaped_state(&mut self, ch: Option<char>, position: Position)
        requires
            old(self)@.wf(),
        ensures
            final(self)@ == old(self)@.script_data_escaped_state(ch, position),
            final(self)@.wf(),
    {
        proof {
            reveal(TokenizerModel::script_data_escaped_state);
        }
        match ch {
            Some('-') => {
                self.emit_character('-', position);
                self.goto(State::ScriptDataEscapedDash);
            },
            Some('<') => {
                self.set_tag_start(position);
                self.goto(State::ScriptDataEscapedLessThanSign);
            },
            Some('\0') => {
                self.emit_character('\u{FFFD}', position);
            },
            Some(c) => {
                self.emit_character(c, position);
            },
            None => {
                self.error(ParseErrorKind::EofInScriptHtmlCommentLikeText, position);
                self.emit_eof(position);
            },
        }
    }

    /// After `-` in that part.
    fn script_data_escaped_dash_state(&mut self, ch: Option<char>, position: Position)
        requires
            old(self)@.wf(),
        ensures
            final(self)@ == old(self)@.script_data_escaped_dash_state(ch, position),
            final(self)@.wf(),
    {
        proof {
            reveal(TokenizerModel::script_data_escaped_dash_state);
        }
        match ch {
            Some('-') => {
                self.emit_character('-', position);
                self.goto(State::ScriptDataEscapedDashDash);
            },
            Some('<') => {
                self.set_tag_start(position);
                self.goto(State::ScriptDataEscapedLessThanSign);
            },
            Some('\0') => {
                self.emit_character('\u{FFFD}', position);
                self.goto(State::ScriptDataEscaped);
            },
            None => {
                self.emit_eof(position);
            },
            Some(c) => {
                self.emit_character(c, position);
                self.goto(State::ScriptDataEscaped);
            },
        }
    }

    /// After `--` in that part.
    fn script_data_escaped_dash_dash_state(&mut self, ch: Option<char>, position: Position)
        requires
            old(self)@.wf(),
        ensures
            final(self)@ == old(self)@.script_data_escaped_dash_dash_state(ch, position),
            final(self)@.wf(),
    {
        proof {
            reveal(TokenizerModel::script_data_escaped_dash_dash_state);
        }
        match ch {
            Some('-') => {
                self.emit_character('-', position);
            },
            Some('<') => {
                self.set_tag_start(position);
                self.goto(State::ScriptDataEscapedLessThanSign);
            },
            Some('>') => {
                self.emit_character('>', position);
                self.goto(State::ScriptData);
            },
            Some('\0') => {
                self.emit_character('\u{FFFD}', position);
                self.goto(State::ScriptDataEscaped);
            },
            None => {
                self.emit_eof(position);
            },
            Some(c) => {
                self.emit_character(c, position);
                self.goto(State::ScriptDataEscaped);
            },
        }
    }

    /// After `<` in that part.
    fn script_data_escaped_less_than_sign_state(&mut self, ch: Option<char>, position: Position)
        requires
            old(self)@.wf(),
        ensures
            final(self)@ == old(self)@.script_data_escaped_less_than_sign_state(ch, position),
            final(self)@.wf(),
    {
        proof {
            reveal(TokenizerModel::script_data_escaped_less_than_sign_state);
        }
        match ch {
            Some('/') => {
                self.clear_end_tag_buffer();
                self.set_slash();
                self.goto(State::ScriptDataEscapedEndTagOpen);
            },
            Some(c) if is_ascii_alphabetic(c) => {
                self.clear_end_tag_buffer();
                self.emit_less_than();
                self.reconsume(ch, State::ScriptDataDoubleEscapeStart);
            },
            _ => {
                self.emit_less_than();
                self.reconsume(ch, State::ScriptDataEscaped);
            },
        }
    }

    /// In the name of a tag that may nest scripts, or end the nesting.
    fn script_data_double_escape_state(
        &mut self,
        ch: Option<char>,
        position: Position,
        script: State,
        other: State,
    )
        requires
            old(self)@.wf(),
        ensures
            final(self)@ == old(self)@.script_data_double_escape_state(ch, position, script, other),
            final(self)@.wf(),
    {
        proof {
            reveal(TokenizerModel::script_data_double_escape_state);
        }
        match ch {
            Some(c) if is_tag_whitespace(c) || c == '/' || c == '>' => {
                self.goto_if_script(script, other);
                self.emit_character(c, position);
            },
            Some(c) if is_ascii_uppercase(c) => {
                self.push_end_tag_buffer(to_ascii_lowercase(c));
                self.emit_character(c, position);
            },
            Some(c) if is_ascii_lowercase(c) => {
                self.push_end_tag_buffer(c);
                self.emit_character(c, position);
            },
            _ => {
                self.reconsume(ch, other);
            },
        }
    }

    /// In a nested script.
    fn script_data_double_escaped_state(&mut self, ch: Option<char>, position: Position)
        requires
            old(self)@.wf(),
        ensures
            final(self)@ == old(self)@.script_data_double_escaped_state(ch, position),
            final(self)@.wf(),
    {
        proof {
            reveal(TokenizerModel::script_data_double_escaped_state);
        }
        match ch {
            Some('-') => {
                self.emit_character('-', position);
                self.goto(State::ScriptDataDoubleEscapedDash);
            },
            Some('<') => {
                self.emit_character('<', position);
                self.goto(State::ScriptDataDoubleEscapedLessThanSign);
            },
            Some('\0') => {
                self.emit_character('\u{FFFD}', position);
            },
            Some(c) => {
                self.emit_character(c, position);
            },
            None => {
                self.emit_eof(position);
            },
        }
    }

    /// After `-` in a nested script.
    fn script_data_double_escaped_dash_state(&mut self, ch: Option<char>, position: Position)
        requires
            old(self)@.wf(),
        ensures
            final(self)@ == old(self)@.script_data_double_escaped_dash_state(ch, position),
            final(self)@.wf(),
    {
        proof {
            reveal(TokenizerModel::script_data_double_escaped_dash_state);
        }
        match ch {
            Some('-') => {
                self.emit_character('-', position);
                self.goto(State::ScriptDataDoubleEscapedDashDash);
            },
            Some('<') => {
                self.emit_character('<', position);
                self.goto(State::ScriptDataDoubleEscapedLessThanSign);
            },
            Some('\0') => {
                self.emit_character('\u{FFFD}', position);
                self.goto(State::ScriptDataDoubleEscaped);
            },
            None => {
                self.emit_eof(position);
            },
            Some(c) => {
                self.emit_character(c, position);
                self.goto(State::ScriptDataDoubleEscaped);
            },
        }
    }

    /// After `--` in a nested script.
    fn script_data_double_escaped_dash_dash_state(&mut self, ch: Option<char>, position: Position)
        requires
            old(self)@.wf(),
        ensures
            final(self)@ == old(self)@.script_data_double_escaped_dash_dash_state(ch, position),
            final(self)@.wf(),
    {
        proof {
            reveal(TokenizerModel::script_data_double_escaped_dash_dash_state);
        }
        match ch {
            Some('-') => {
                self.emit_character('-', position);
            },
            Some('<') => {
                self.emit_character('<', position);
                self.goto(State::ScriptDataDoubleEscapedLessThanSign);
            },
            Some('>') => {
                self.emit_character('>', position);
                self.goto(State::ScriptData);
            },
            Some('\0') => {
                self.emit_character('\u{FFFD}', position);
                self.goto(State::ScriptDataDoubleEscaped);
            },
            None => {
                self.emit_eof(position);
            },
            Some(c) => {
                self.emit_character(c, position);
                self.goto(State::ScriptDataDoubleEscaped);
            },
        }
    }

    /// After `<` in a nested script.
    fn script_data_double_escaped_less_than_sign_state(
        &mut self,
        ch: Option<char>,
        position: Position,
    )
        requires
            old(self)@.wf(),
        ensures
            final(self)@ == old(self)@.script_data_double_escaped_less_than_sign_state(
                ch,
                position,
            ),
            final(self)@.wf(),
    {
        proof {
            reveal(TokenizerModel::script_data_double_escaped_less_than_sign_state);
        }
        match ch {
            Some('/') => {
                self.clear_end_tag_buffer();
                self.emit_character('/', position);
                self.goto(State::ScriptDataDoubleEscapeEnd);
            },
            _ => {
                self.reconsume(ch, State::ScriptDataDoubleEscaped);
            },
        }
    }

    /// In a CDATA section.
    fn cdata_section_state(&mut self, ch: Option<char>, position: Position)
        requires
            old(self)@.wf(),
        ensures
            final(self)@ == old(self)@.cdata_section_state(ch, position),
            final(self)@.wf(),
    {
        proof {
            reveal(TokenizerModel::cdata_section_state);
        }
        match ch {
            Some(']') => {
                self.push_bracket(position);
                self.goto(State::CdataSectionBracket);
            },
            None => {
                self.error(ParseErrorKind::EofInCdata, position);
                self.emit_eof(position);
            },
            Some(c) => {
                self.emit_character(c, position);
            },
        }
    }

    /// After `]` in a CDATA section.
    fn cdata_section_bracket_state(&mut self, ch: Option<char>, position: Position)
        requires
            old(self)@.wf(),
        ensures
            final(self)@ == old(self)@.cdata_section_bracket_state(ch, position),
            final(self)@.wf(),
    {
        proof {
            reveal(TokenizerModel::cdata_section_bracket_state);
        }
        match ch {
            Some(']') => {
                self.push_bracket(position);
                self.goto(State::CdataSectionEnd);
            },
            _ => {
                self.emit_newest_bracket();
                self.reconsume(ch, State::CdataSection);
            },
        }
    }

    /// After `]]` in a CDATA section.
    fn cdata_section_end_state(&mut self, ch: Option<char>, position: Position)
        requires
            old(self)@.wf(),
        ensures
            final(self)@ == old(self)@.cdata_section_end_state(ch, position),
            final(self)@.wf(),
    {
        proof {
            reveal(TokenizerModel::cdata_section_end_state);
        }
        match ch {
            Some(']') => {
                self.emit_oldest_bracket();
                self.push_bracket(position);
            },
            Some('>') => {
                self.drop_brackets();
                self.goto(State::Data);
            },
            _ => {
                self.emit_brackets();
                self.reconsume(ch, State::CdataSection);
            },
        }
    }

    /// Reads the character `ch`, or the end of the input, in the current state.
    pub fn step(&mut self, ch: Option<char>, position: Position)
        requires
            old(self)@.wf(),
        ensures
            final(self)@ == old(self)@.step(ch, position),
            final(self)@.wf(),
    {
        proof {
            reveal(TokenizerModel::step);
        }
        match self.state {
            State::Data => self.data_state(ch, position),
            State::TagOpen => self.tag_open_state(ch, position),
            State::EndTagOpen => self.end_tag_open_state(ch, position),
            State::TagName => self.tag_name_state(ch, position),
            State::BeforeAttributeName => self.before_attribute_name_state(ch, position),
            State::AttributeName => self.attribute_name_state(ch, position),
            State::AfterAttributeName => self.after_attribute_name_state(ch, position),
            State::BeforeAttributeValue => self.before_attribute_value_state(ch, position),
            State::AttributeValueDoubleQuoted => self.attribute_value_quoted_state(
                ch,
                position,
                '"',
                State::AttributeValueDoubleQuoted,
            ),
            State::AttributeValueSingleQuoted => self.attribute_value_quoted_state(
                ch,
                position,
                '\'',
                State::AttributeValueSingleQuoted,
            ),
            State::AttributeValueUnquoted => self.attribute_value_unquoted_state(ch, position),
            State::AfterAttributeValueQuoted => self.after_attribute_value_quoted_state(
                ch,
                position,
            ),
            State::SelfClosingStartTag => self.self_closing_start_tag_state(ch, position),
            State::CharacterReference => self.character_reference_state(ch, position),
            State::NamedCharacterReference => {
                self.unread(ch);
                self.named_reference();
            },
            State::AmbiguousAmpersand => self.ambiguous_ampersand_state(ch, position),
            State::NumericCharacterReference => self.numeric_character_reference_state(
                ch,
                position,
            ),
            State::HexadecimalCharacterReferenceStart => {
                self.hexadecimal_character_reference_start_state(ch, position)
            },
            State::HexadecimalCharacterReference => self.hexadecimal_character_reference_state(
                ch,
                position,
            ),
            State::DecimalCharacterReference => self.decimal_character_reference_state(
                ch,
                position,
            ),
            State::NumericCharacterReferenceEnd => self.numeric_character_reference_end_state(
                ch,
                position,
            ),
            State::MarkupDeclarationOpen => {
                self.unread(ch);
                self.markup_declaration();
            },
            State::BogusComment => self.bogus_comment_state(ch, position),
            State::CommentStart => self.comment_start_state(ch, position),
            State::CommentStartDash => self.comment_start_dash_state(ch, position),
            State::Comment => self.comment_state(ch, position),
            State::CommentLessThanSign => self.comment_less_than_sign_state(ch, position),
            State::CommentLessThanSignBang => self.comment_less_than_sign_bang_state(ch, position),
            State::CommentLessThanSignBangDash => self.comment_less_than_sign_bang_dash_state(
                ch,
                position,
            ),
            State::CommentLessThanSignBangDashDash => {
                self.comment_less_than_sign_bang_dash_dash_state(ch, position)
            },
            State::CommentEndDash => self.comment_end_dash_state(ch, position),
            State::CommentEnd => self.comment_end_state(ch, position),
            State::CommentEndBang => self.comment_end_bang_state(ch, position),
            State::Doctype => self.doctype_state(ch, position),
            State::BeforeDoctypeName => self.before_doctype_name_state(ch, position),
            State::DoctypeName => self.doctype_name_state(ch, position),
            State::AfterDoctypeName => self.after_doctype_name_state(ch, position),
            State::AfterDoctypePublicKeyword => self.before_doctype_identifier_state(
                ch,
                position,
                State::BeforeDoctypePublicIdentifier,
                DoctypeIdentifierKind::Public,
                State::DoctypePublicIdentifierDoubleQuoted,
                State::DoctypePublicIdentifierSingleQuoted,
            ),
            State::BeforeDoctypePublicIdentifier => self.before_doctype_identifier_state(
                ch,
                position,
                State::BeforeDoctypePublicIdentifier,
                DoctypeIdentifierKind::Public,
                State::DoctypePublicIdentifierDoubleQuoted,
                State::DoctypePublicIdentifierSingleQuoted,
            ),
            State::DoctypePublicIdentifierDoubleQuoted => self.doctype_identifier_quoted_state(
                ch,
                position,
                '"',
                DoctypeIdentifierKind::Public,
                State::AfterDoctypePublicIdentifier,
            ),
            State::DoctypePublicIdentifierSingleQuoted => self.doctype_identifier_quoted_state(
                ch,
                position,
                '\'',
                DoctypeIdentifierKind::Public,
                State::AfterDoctypePublicIdentifier,
            ),
            State::AfterDoctypePublicIdentifier => self.after_doctype_public_identifier_state(
                ch,
                position,
            ),
            State::BetweenDoctypePublicAndSystemIdentifiers => {
                self.between_doctype_identifiers_state(ch, position)
            },
            State::AfterDoctypeSystemKeyword => self.before_doctype_identifier_state(
                ch,
                position,
                State::BeforeDoctypeSystemIdentifier,
                DoctypeIdentifierKind::System,
                State::DoctypeSystemIdentifierDoubleQuoted,
                State::DoctypeSystemIdentifierSingleQuoted,
            ),
            State::BeforeDoctypeSystemIdentifier => self.before_doctype_identifier_state(
                ch,
                position,
                State::BeforeDoctypeSystemIdentifier,
                DoctypeIdentifierKind::System,
                State::DoctypeSystemIdentifierDoubleQuoted,
                State::DoctypeSystemIdentifierSingleQuoted,
            ),
            State::DoctypeSystemIdentifierDoubleQuoted => self.doctype_identifier_quoted_state(
                ch,
                position,
                '"',
                DoctypeIdentifierKind::System,
                State::AfterDoctypeSystemIdentifier,
            ),
            State::DoctypeSystemIdentifierSingleQuoted => self.doctype_identifier_quoted_state(
                ch,
                position,
                '\'',
                DoctypeIdentifierKind::System,
                State::AfterDoctypeSystemIdentifier,
            ),
            State::AfterDoctypeSystemIdentifier => self.after_doctype_system_identifier_state(
                ch,
                position,
            ),
            State::BogusDoctype => self.bogus_doctype_rest_state(ch, position),
            State::ProcessingInstructionOpen => self.processing_instruction_open_state(
                ch,
                position,
            ),
            State::ProcessingInstructionTarget => self.processing_instruction_target_state(
                ch,
                position,
            ),
            State::AfterProcessingInstructionTarget => {
                self.after_processing_instruction_target_state(ch, position)
            },
            State::ProcessingInstructionData => self.processing_instruction_data_state(
                ch,
                position,
            ),
            State::ProcessingInstructionQuestionable => {
                self.processing_instruction_questionable_state(ch, position)
            },
            State::RcData => self.rcdata_state(ch, position),
            State::RcDataLessThanSign => self.text_less_than_sign_state(
                ch,
                position,
                State::RcDataEndTagOpen,
                State::RcData,
            ),
            State::RcDataEndTagOpen => self.text_end_tag_open_state(
                ch,
                position,
                State::RcDataEndTagName,
                State::RcData,
            ),
            State::RcDataEndTagName => self.text_end_tag_name_state(ch, position, State::RcData),
            State::RawText => self.raw_text_state(ch, position, State::RawTextLessThanSign),
            State::RawTextLessThanSign => self.text_less_than_sign_state(
                ch,
                position,
                State::RawTextEndTagOpen,
                State::RawText,
            ),
            State::RawTextEndTagOpen => self.text_end_tag_open_state(
                ch,
                position,
                State::RawTextEndTagName,
                State::RawText,
            ),
            State::RawTextEndTagName => self.text_end_tag_name_state(ch, position, State::RawText),
            State::PlainText => self.plain_text_state(ch, position),
            State::ScriptData => self.raw_text_state(ch, position, State::ScriptDataLessThanSign),
            State::ScriptDataLessThanSign => self.script_data_less_than_sign_state(ch, position),
            State::ScriptDataEndTagOpen => self.text_end_tag_open_state(
                ch,
                position,
                State::ScriptDataEndTagName,
                State::ScriptData,
            ),
            State::ScriptDataEndTagName => self.text_end_tag_name_state(
                ch,
                position,
                State::ScriptData,
            ),
            State::ScriptDataEscapeStart => self.script_data_escape_start_state(
                ch,
                position,
                State::ScriptDataEscapeStartDash,
            ),
            State::ScriptDataEscapeStartDash => self.script_data_escape_start_state(
                ch,
                position,
                State::ScriptDataEscapedDashDash,
            ),
            State::ScriptDataEscaped => self.script_data_escaped_state(ch, position),
            State::ScriptDataEscapedDash => self.script_data_escaped_dash_state(ch, position),
            State::ScriptDataEscapedDashDash => self.script_data_escaped_dash_dash_state(
                ch,
                position,
            ),
            State::ScriptDataEscapedLessThanSign => self.script_data_escaped_less_than_sign_state(
                ch,
                position,
            ),
            State::ScriptDataEscapedEndTagOpen => self.text_end_tag_open_state(
                ch,
                position,
                State::ScriptDataEscapedEndTagName,
                State::ScriptDataEscaped,
            ),
            State::ScriptDataEscapedEndTagName => self.text_end_tag_name_state(
                ch,
                position,
                State::ScriptDataEscaped,
            ),
            State::ScriptDataDoubleEscapeStart => self.script_data_double_escape_state(
                ch,
                position,
                State::ScriptDataDoubleEscaped,
                State::ScriptDataEscaped,
            ),
            State::ScriptDataDoubleEscaped => self.script_data_double_escaped_state(ch, position),
            State::ScriptDataDoubleEscapedDash => self.script_data_double_escaped_dash_state(
                ch,
                position,
            ),
            State::ScriptDataDoubleEscapedDashDash => {
                self.script_data_double_escaped_dash_dash_state(ch, position)
            },
            State::ScriptDataDoubleEscapedLessThanSign => {
                self.script_data_double_escaped_less_than_sign_state(ch, position)
            },
            State::ScriptDataDoubleEscapeEnd => self.script_data_double_escape_state(
                ch,
                position,
                State::ScriptDataEscaped,
                State::ScriptDataDoubleEscaped,
            ),
            State::CdataSection => self.cdata_section_state(ch, position),
            State::CdataSectionBracket => self.cdata_section_bracket_state(ch, position),
            State::CdataSectionEnd => self.cdata_section_end_state(ch, position),
        }
    }
}

} // verus!
