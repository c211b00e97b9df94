//! What the next step does in each state, and what the next token is.
use vstd::prelude::*;

use crate::token::{TokenKindModel, TokenModel};
use crate::tokenizer::model::{DoctypeIdentifierKind, State, TokenizerModel};
use crate::tokenizer::run::lemma_next;
use crate::tokenizer::tags::{lemma_last_step, working};

verus! {

/// The tokenizer is on its way to the next token, and nothing came out yet.
pub open spec fn reading(t: TokenizerModel, base: TokenizerModel) -> bool {
    &&& working(t)
    &&& t.chars == base.chars
    &&& t.positions == base.positions
    &&& t.run() == base.run()
    &&& t.current_tag_start == base.current_tag_start
}

/// The next token is that one, and the tokenizer then stands at the index, in the state,
/// with nothing waiting.
pub open spec fn reads(
    t: TokenizerModel,
    kind: TokenKindModel,
    at: int,
    state: State,
    index: int,
) -> bool {
    &&& t.next().0 == Some(TokenModel { kind, position: t.positions[at] })
    &&& t.next().1.state == state
    &&& t.next().1.index == index
    &&& working(t.next().1)
    &&& t.next().1.chars == t.chars
    &&& t.next().1.positions == t.positions
}

pub proof fn lemma_reads(
    t: TokenizerModel,
    u: TokenizerModel,
    kind: TokenKindModel,
    at: int,
    state: State,
)
    requires
        working(t),
        working(u),
        t.run() == u.run(),
        t.chars == u.chars,
        t.positions == u.positions,
        !(kind is Eof),
        u.advance().pending == seq![TokenModel { kind, position: u.positions[at] }],
        u.advance().state == state,
    ensures
        reads(t, kind, at, state, u.advance().index),
{
    lemma_last_step(u);
    lemma_next(t);
    assert(t.next() == u.next());
    assert(u.advance().pending[0] == TokenModel { kind, position: u.positions[at] });
}

pub proof fn at_data(t: TokenizerModel)
    requires
        t.state is Data,
    ensures
        t.advance() == t.consume().data_state(t.peek(), t.positions[t.index]),
{
    reveal(TokenizerModel::step);
}

pub proof fn at_rc_data(t: TokenizerModel)
    requires
        t.state is RcData,
    ensures
        t.advance() == t.consume().rcdata_state(t.peek(), t.positions[t.index]),
{
    reveal(TokenizerModel::step);
}

pub proof fn at_plain_text(t: TokenizerModel)
    requires
        t.state is PlainText,
    ensures
        t.advance() == t.consume().plain_text_state(t.peek(), t.positions[t.index]),
{
    reveal(TokenizerModel::step);
}

pub proof fn at_cdata_section(t: TokenizerModel)
    requires
        t.state is CdataSection,
    ensures
        t.advance() == t.consume().cdata_section_state(t.peek(), t.positions[t.index]),
{
    reveal(TokenizerModel::step);
}

pub proof fn at_tag_open(t: TokenizerModel)
    requires
        t.state is TagOpen,
    ensures
        t.advance() == t.consume().tag_open_state(t.peek(), t.positions[t.index]),
{
    reveal(TokenizerModel::step);
}

pub proof fn at_comment_start(t: TokenizerModel)
    requires
        t.state is CommentStart,
    ensures
        t.advance() == t.consume().comment_start_state(t.peek(), t.positions[t.index]),
{
    reveal(TokenizerModel::step);
}

pub proof fn at_comment_start_dash(t: TokenizerModel)
    requires
        t.state is CommentStartDash,
    ensures
        t.advance() == t.consume().comment_start_dash_state(t.peek(), t.positions[t.index]),
{
    reveal(TokenizerModel::step);
}

pub proof fn at_comment(t: TokenizerModel)
    requires
        t.state is Comment,
    ensures
        t.advance() == t.consume().comment_state(t.peek(), t.positions[t.index]),
{
    reveal(TokenizerModel::step);
}

pub proof fn at_comment_less_than_sign(t: TokenizerModel)
    requires
        t.state is CommentLessThanSign,
    ensures
        t.advance() == t.consume().comment_less_than_sign_state(t.peek(), t.positions[t.index]),
{
    reveal(TokenizerModel::step);
}

pub proof fn at_comment_end_dash(t: TokenizerModel)
    requires
        t.state is CommentEndDash,
    ensures
        t.advance() == t.consume().comment_end_dash_state(t.peek(), t.positions[t.index]),
{
    reveal(TokenizerModel::step);
}

pub proof fn at_comment_end(t: TokenizerModel)
    requires
        t.state is CommentEnd,
    ensures
        t.advance() == t.consume().comment_end_state(t.peek(), t.positions[t.index]),
{
    reveal(TokenizerModel::step);
}

pub proof fn at_raw_text(t: TokenizerModel)
    requires
        t.state is RawText || t.state is ScriptData,
    ensures
        t.advance() == t.consume().raw_text_state(
            t.peek(),
            t.positions[t.index],
            if t.state is RawText {
                State::RawTextLessThanSign
            } else {
                State::ScriptDataLessThanSign
            },
        ),
{
    reveal(TokenizerModel::step);
}

pub proof fn at_markup_declaration_open(t: TokenizerModel)
    requires
        t.state is MarkupDeclarationOpen,
    ensures
        t.advance() == t.consume().unread(t.peek()).markup_declaration(),
{
    reveal(TokenizerModel::step);
}

pub proof fn at_doctype(t: TokenizerModel)
    requires
        t.state is Doctype,
    ensures
        t.advance() == t.consume().doctype_state(t.peek(), t.positions[t.index]),
{
    reveal(TokenizerModel::step);
}

pub proof fn at_before_doctype_name(t: TokenizerModel)
    requires
        t.state is BeforeDoctypeName,
    ensures
        t.advance() == t.consume().before_doctype_name_state(t.peek(), t.positions[t.index]),
{
    reveal(TokenizerModel::step);
}

pub proof fn at_doctype_name(t: TokenizerModel)
    requires
        t.state is DoctypeName,
    ensures
        t.advance() == t.consume().doctype_name_state(t.peek(), t.positions[t.index]),
{
    reveal(TokenizerModel::step);
}

pub proof fn at_after_doctype_name(t: TokenizerModel)
    requires
        t.state is AfterDoctypeName,
    ensures
        t.advance() == t.consume().after_doctype_name_state(t.peek(), t.positions[t.index]),
{
    reveal(TokenizerModel::step);
}

pub proof fn at_after_doctype_public_identifier(t: TokenizerModel)
    requires
        t.state is AfterDoctypePublicIdentifier,
    ensures
        t.advance() == t.consume().after_doctype_public_identifier_state(
            t.peek(),
            t.positions[t.index],
        ),
{
    reveal(TokenizerModel::step);
}

pub proof fn at_between_doctype_public_and_system_identifiers(t: TokenizerModel)
    requires
        t.state is BetweenDoctypePublicAndSystemIdentifiers,
    ensures
        t.advance() == t.consume().between_doctype_identifiers_state(
            t.peek(),
            t.positions[t.index],
        ),
{
    reveal(TokenizerModel::step);
}

pub proof fn at_after_doctype_system_identifier(t: TokenizerModel)
    requires
        t.state is AfterDoctypeSystemIdentifier,
    ensures
        t.advance() == t.consume().after_doctype_system_identifier_state(
            t.peek(),
            t.positions[t.index],
        ),
{
    reveal(TokenizerModel::step);
}

pub proof fn at_processing_instruction_open(t: TokenizerModel)
    requires
        t.state is ProcessingInstructionOpen,
    ensures
        t.advance() == t.consume().processing_instruction_open_state(
            t.peek(),
            t.positions[t.index],
        ),
{
    reveal(TokenizerModel::step);
}

pub proof fn at_processing_instruction_target(t: TokenizerModel)
    requires
        t.state is ProcessingInstructionTarget,
    ensures
        t.advance() == t.consume().processing_instruction_target_state(
            t.peek(),
            t.positions[t.index],
        ),
{
    reveal(TokenizerModel::step);
}

pub proof fn at_after_processing_instruction_target(t: TokenizerModel)
    requires
        t.state is AfterProcessingInstructionTarget,
    ensures
        t.advance() == t.consume().after_processing_instruction_target_state(
            t.peek(),
            t.positions[t.index],
        ),
{
    reveal(TokenizerModel::step);
}

pub proof fn at_processing_instruction_data(t: TokenizerModel)
    requires
        t.state is ProcessingInstructionData,
    ensures
        t.advance() == t.consume().processing_instruction_data_state(
            t.peek(),
            t.positions[t.index],
        ),
{
    reveal(TokenizerModel::step);
}

pub proof fn at_processing_instruction_questionable(t: TokenizerModel)
    requires
        t.state is ProcessingInstructionQuestionable,
    ensures
        t.advance() == t.consume().processing_instruction_questionable_state(
            t.peek(),
            t.positions[t.index],
        ),
{
    reveal(TokenizerModel::step);
}

pub proof fn at_character_reference(t: TokenizerModel)
    requires
        t.state is CharacterReference,
    ensures
        t.advance() == t.consume().character_reference_state(t.peek(), t.positions[t.index]),
{
    reveal(TokenizerModel::step);
}

pub proof fn at_numeric_character_reference(t: TokenizerModel)
    requires
        t.state is NumericCharacterReference,
    ensures
        t.advance() == t.consume().numeric_character_reference_state(
            t.peek(),
            t.positions[t.index],
        ),
{
    reveal(TokenizerModel::step);
}

pub proof fn at_hexadecimal_character_reference_start(t: TokenizerModel)
    requires
        t.state is HexadecimalCharacterReferenceStart,
    ensures
        t.advance() == t.consume().hexadecimal_character_reference_start_state(
            t.peek(),
            t.positions[t.index],
        ),
{
    reveal(TokenizerModel::step);
}

pub proof fn at_hexadecimal_character_reference(t: TokenizerModel)
    requires
        t.state is HexadecimalCharacterReference,
    ensures
        t.advance() == t.consume().hexadecimal_character_reference_state(
            t.peek(),
            t.positions[t.index],
        ),
{
    reveal(TokenizerModel::step);
}

pub proof fn at_decimal_character_reference(t: TokenizerModel)
    requires
        t.state is DecimalCharacterReference,
    ensures
        t.advance() == t.consume().decimal_character_reference_state(
            t.peek(),
            t.positions[t.index],
        ),
{
    reveal(TokenizerModel::step);
}

pub proof fn at_numeric_character_reference_end(t: TokenizerModel)
    requires
        t.state is NumericCharacterReferenceEnd,
    ensures
        t.advance() == t.consume().numeric_character_reference_end_state(
            t.peek(),
            t.positions[t.index],
        ),
{
    reveal(TokenizerModel::step);
}

pub proof fn at_identifier_keyword(t: TokenizerModel, kind: DoctypeIdentifierKind)
    requires
        match kind {
            DoctypeIdentifierKind::Public => t.state is AfterDoctypePublicKeyword || t.state
                is BeforeDoctypePublicIdentifier,
            DoctypeIdentifierKind::System => t.state is AfterDoctypeSystemKeyword || t.state
                is BeforeDoctypeSystemIdentifier,
        },
    ensures
        t.advance() == t.consume().before_doctype_identifier_state(
            t.peek(),
            t.positions[t.index],
            before_identifier(kind),
            kind,
            in_identifier(kind, '"'),
            in_identifier(kind, '\''),
        ),
{
    reveal(TokenizerModel::step);
}

/// The state before an identifier of a document type.
pub open spec fn before_identifier(kind: DoctypeIdentifierKind) -> State {
    match kind {
        DoctypeIdentifierKind::Public => State::BeforeDoctypePublicIdentifier,
        DoctypeIdentifierKind::System => State::BeforeDoctypeSystemIdentifier,
    }
}

/// The state in an identifier of a document type, between such quotation marks.
pub open spec fn in_identifier(kind: DoctypeIdentifierKind, quote: char) -> State {
    match kind {
        DoctypeIdentifierKind::Public => if quote == '"' {
            State::DoctypePublicIdentifierDoubleQuoted
        } else {
            State::DoctypePublicIdentifierSingleQuoted
        },
        DoctypeIdentifierKind::System => if quote == '"' {
            State::DoctypeSystemIdentifierDoubleQuoted
        } else {
            State::DoctypeSystemIdentifierSingleQuoted
        },
    }
}

/// The state after an identifier of a document type.
pub open spec fn after_identifier(kind: DoctypeIdentifierKind) -> State {
    match kind {
        DoctypeIdentifierKind::Public => State::AfterDoctypePublicIdentifier,
        DoctypeIdentifierKind::System => State::AfterDoctypeSystemIdentifier,
    }
}

pub proof fn at_identifier(t: TokenizerModel, kind: DoctypeIdentifierKind, quote: char)
    requires
        quote == '"' || quote == '\'',
        t.state == in_identifier(kind, quote),
    ensures
        t.advance() == t.consume().doctype_identifier_quoted_state(
            t.peek(),
            t.positions[t.index],
            quote,
            kind,
            after_identifier(kind),
        ),
{
    reveal(TokenizerModel::step);
}

pub proof fn at_text_less_than_sign(t: TokenizerModel)
    requires
        t.state is RcDataLessThanSign || t.state is RawTextLessThanSign,
    ensures
        t.state is RcDataLessThanSign ==> t.advance() == t.consume().text_less_than_sign_state(
            t.peek(),
            t.positions[t.index],
            State::RcDataEndTagOpen,
            State::RcData,
        ),
        t.state is RawTextLessThanSign ==> t.advance() == t.consume().text_less_than_sign_state(
            t.peek(),
            t.positions[t.index],
            State::RawTextEndTagOpen,
            State::RawText,
        ),
{
    reveal(TokenizerModel::step);
}

pub proof fn at_text_end_tag_open(t: TokenizerModel)
    requires
        t.state is RcDataEndTagOpen || t.state is RawTextEndTagOpen,
    ensures
        t.state is RcDataEndTagOpen ==> t.advance() == t.consume().text_end_tag_open_state(
            t.peek(),
            t.positions[t.index],
            State::RcDataEndTagName,
            State::RcData,
        ),
        t.state is RawTextEndTagOpen ==> t.advance() == t.consume().text_end_tag_open_state(
            t.peek(),
            t.positions[t.index],
            State::RawTextEndTagName,
            State::RawText,
        ),
{
    reveal(TokenizerModel::step);
}

pub proof fn at_text_end_tag_name(t: TokenizerModel)
    requires
        t.state is RcDataEndTagName || t.state is RawTextEndTagName,
    ensures
        t.advance() == t.consume().text_end_tag_name_state(
            t.peek(),
            t.positions[t.index],
            if t.state is RcDataEndTagName {
                State::RcData
            } else {
                State::RawText
            },
        ),
{
    reveal(TokenizerModel::step);
}

pub proof fn at_tag_name(t: TokenizerModel)
    requires
        t.state is TagName,
    ensures
        t.advance() == t.consume().tag_name_state(t.peek(), t.positions[t.index]),
{
    reveal(TokenizerModel::step);
}

pub proof fn at_end_tag_open(t: TokenizerModel)
    requires
        t.state is EndTagOpen,
    ensures
        t.advance() == t.consume().end_tag_open_state(t.peek(), t.positions[t.index]),
{
    reveal(TokenizerModel::step);
}

pub proof fn at_attribute_name(t: TokenizerModel)
    requires
        t.state is AttributeName,
    ensures
        t.advance() == t.consume().attribute_name_state(t.peek(), t.positions[t.index]),
{
    reveal(TokenizerModel::step);
}

pub proof fn at_before_attribute_name(t: TokenizerModel)
    requires
        t.state is BeforeAttributeName,
    ensures
        t.advance() == t.consume().before_attribute_name_state(t.peek(), t.positions[t.index]),
{
    reveal(TokenizerModel::step);
}

pub proof fn at_after_attribute_name(t: TokenizerModel)
    requires
        t.state is AfterAttributeName,
    ensures
        t.advance() == t.consume().after_attribute_name_state(t.peek(), t.positions[t.index]),
{
    reveal(TokenizerModel::step);
}

pub proof fn at_before_attribute_value(t: TokenizerModel)
    requires
        t.state is BeforeAttributeValue,
    ensures
        t.advance() == t.consume().before_attribute_value_state(t.peek(), t.positions[t.index]),
{
    reveal(TokenizerModel::step);
}

pub proof fn at_after_attribute_value_quoted(t: TokenizerModel)
    requires
        t.state is AfterAttributeValueQuoted,
    ensures
        t.advance() == t.consume().after_attribute_value_quoted_state(
            t.peek(),
            t.positions[t.index],
        ),
{
    reveal(TokenizerModel::step);
}

pub proof fn at_attribute_value_unquoted(t: TokenizerModel)
    requires
        t.state is AttributeValueUnquoted,
    ensures
        t.advance() == t.consume().attribute_value_unquoted_state(t.peek(), t.positions[t.index]),
{
    reveal(TokenizerModel::step);
}

pub proof fn at_self_closing_start_tag(t: TokenizerModel)
    requires
        t.state is SelfClosingStartTag,
    ensures
        t.advance() == t.consume().self_closing_start_tag_state(t.peek(), t.positions[t.index]),
{
    reveal(TokenizerModel::step);
}

pub proof fn at_attribute_value_quoted(t: TokenizerModel)
    requires
        t.state is AttributeValueDoubleQuoted || t.state is AttributeValueSingleQuoted,
    ensures
        t.advance() == t.consume().attribute_value_quoted_state(
            t.peek(),
            t.positions[t.index],
            if t.state is AttributeValueDoubleQuoted {
                '"'
            } else {
                '\''
            },
            t.state,
        ),
{
    reveal(TokenizerModel::step);
}

} // verus!
