//! Tokens, source positions and parse errors, with the mathematical model of
//! each token.
use vstd::prelude::*;

use crate::text::{clone_text, str_eq, text_of};

verus! {

/// Where something starts in the source text.
#[derive(Debug, Clone, Copy, PartialEq, Eq, Structural)]
pub struct Position {
    /// One-based line number.
    pub line: u32,
    /// One-based column number, counted in characters.
    pub column: u32,
    /// Zero-based byte offset.
    pub byte_offset: usize,
}

/// A point where the source departs from the grammar. Parsing always goes on
/// after one of these.
#[derive(Debug, Clone, Copy, PartialEq, Eq, Structural)]
pub struct ParseError {
    pub kind: ParseErrorKind,
    pub position: Position,
}

/// Which departure from the grammar was met.
#[derive(Debug, Clone, Copy, PartialEq, Eq, Structural)]
#[non_exhaustive]
pub enum ParseErrorKind {
    // Markup declarations and comments.
    CdataInHtmlContent,
    IncorrectlyOpenedComment,
    AbruptClosingOfEmptyComment,
    NestedComment,
    IncorrectlyClosedComment,
    EofInComment,
    // Tags and attributes.
    InvalidFirstCharacterOfTagName,
    EofBeforeTagName,
    MissingEndTagName,
    EofInTag,
    DuplicateAttribute,
    UnexpectedNullCharacter,
    UnexpectedCharacterInAttributeName,
    MissingAttributeValue,
    UnexpectedCharacterInUnquotedAttributeValue,
    MissingWhitespaceBetweenAttributes,
    UnexpectedSolidusInTag,
    UnexpectedEqualsSignBeforeAttributeName,
    // Character references.
    UnknownNamedCharacterReference,
    AbsenceOfDigitsInNumericCharacterReference,
    MissingSemicolonAfterCharacterReference,
    NullCharacterReference,
    CharacterReferenceOutsideUnicodeRange,
    SurrogateCharacterReference,
    NoncharacterCharacterReference,
    ControlCharacterReference,
    // DOCTYPE.
    MissingWhitespaceBeforeDoctypeName,
    MissingDoctypeName,
    InvalidCharacterSequenceAfterDoctypeName,
    MissingWhitespaceBetweenDoctypePublicAndSystemIdentifiers,
    UnexpectedCharacterAfterDoctypeSystemIdentifier,
    EofInDoctype,
    // Processing instructions.
    EofInProcessingInstruction,
    InvalidFirstCharacterOfProcessingInstructionTarget,
    InvalidProcessingInstructionTarget,
    DisallowedProcessingInstructionTarget,
    // Text content.
    EofInScriptHtmlCommentLikeText,
    EofInCdata,
    // Tree construction.
    ImpliedEndTagWithUnclosedElements,
    EndTagPWithoutPInButtonScope,
    StrayEndTag,
    StrayStartTag,
    EndTagBr,
    NonVoidHtmlElementStartTagWithTrailingSolidus,
    EofWithUnclosedElements,
    EofInTextMode,
    StartTagImage,
    NestedForm,
    NestedFormattingElement,
    MisnestedFormattingElement,
    FormattingElementNotInScope,
    StartTagTableInTable,
    MisplacedTokenInTable,
    NonSpaceCharactersInTable,
    StrayEndTagInTable,
    TokenAfterBody,
    StrayDoctype,
}

/// One `name=value` pair of a tag.
#[derive(Debug, Clone, PartialEq, Eq)]
pub struct Attribute {
    pub name: String,
    pub value: String,
}

/// A start or end tag.
#[derive(Debug, Clone, PartialEq, Eq)]
pub struct TagToken {
    pub name: String,
    pub self_closing: bool,
    pub attributes: Vec<Attribute>,
}

/// A DOCTYPE.
#[derive(Debug, Clone, PartialEq, Eq)]
pub struct DoctypeToken {
    pub name: Option<String>,
    pub public_identifier: Option<String>,
    pub system_identifier: Option<String>,
    pub force_quirks: bool,
}

/// A processing instruction: its target and its data.
#[derive(Debug, Clone, PartialEq, Eq)]
pub struct ProcessingInstructionToken {
    pub target: String,
    pub data: String,
}

/// What the tokenizer emits.
#[derive(Debug, Clone, PartialEq, Eq)]
pub enum TokenKind {
    Doctype(DoctypeToken),
    StartTag(TagToken),
    EndTag(TagToken),
    Comment(String),
    ProcessingInstruction(ProcessingInstructionToken),
    /// A single character; runs of them become text nodes later.
    Character(char),
    Eof,
}

/// A token and where it starts.
#[derive(Debug, Clone, PartialEq, Eq)]
pub struct Token {
    pub kind: TokenKind,
    pub position: Position,
}

/// The model of [`Attribute`].
#[verifier::ext_equal]
pub struct AttributeModel {
    pub name: Seq<char>,
    pub value: Seq<char>,
}

/// The model of [`TagToken`].
#[verifier::ext_equal]
pub struct TagModel {
    pub name: Seq<char>,
    pub self_closing: bool,
    pub attributes: Seq<AttributeModel>,
}

/// The model of [`DoctypeToken`].
#[verifier::ext_equal]
pub struct DoctypeModel {
    pub name: Option<Seq<char>>,
    pub public_identifier: Option<Seq<char>>,
    pub system_identifier: Option<Seq<char>>,
    pub force_quirks: bool,
}

/// The model of [`ProcessingInstructionToken`].
#[verifier::ext_equal]
pub struct ProcessingInstructionModel {
    pub target: Seq<char>,
    pub data: Seq<char>,
}

/// The model of [`TokenKind`].
#[verifier::ext_equal]
pub enum TokenKindModel {
    Doctype(DoctypeModel),
    StartTag(TagModel),
    EndTag(TagModel),
    Comment(Seq<char>),
    ProcessingInstruction(ProcessingInstructionModel),
    Character(char),
    Eof,
}

impl TokenKindModel {
    /// A piece of markup, as opposed to a character or the end of the file.
    pub open spec fn is_markup(self) -> bool {
        !(self is Character) && !(self is Eof)
    }
}

/// The model of [`Token`].
#[verifier::ext_equal]
pub struct TokenModel {
    pub kind: TokenKindModel,
    pub position: Position,
}

impl View for Attribute {
    type V = AttributeModel;

    open spec fn view(&self) -> AttributeModel {
        AttributeModel { name: self.name@, value: self.value@ }
    }
}

/// The models of a list of attributes.
pub open spec fn attribute_models(attributes: Seq<Attribute>) -> Seq<AttributeModel> {
    Seq::new(attributes.len(), |i: int| attributes[i]@)
}

impl View for TagToken {
    type V = TagModel;

    open spec fn view(&self) -> TagModel {
        TagModel {
            name: self.name@,
            self_closing: self.self_closing,
            attributes: attribute_models(self.attributes@),
        }
    }
}

impl View for DoctypeToken {
    type V = DoctypeModel;

    open spec fn view(&self) -> DoctypeModel {
        DoctypeModel {
            name: text_of(self.name),
            public_identifier: text_of(self.public_identifier),
            system_identifier: text_of(self.system_identifier),
            force_quirks: self.force_quirks,
        }
    }
}

impl View for ProcessingInstructionToken {
    type V = ProcessingInstructionModel;

    open spec fn view(&self) -> ProcessingInstructionModel {
        ProcessingInstructionModel { target: self.target@, data: self.data@ }
    }
}

impl View for TokenKind {
    type V = TokenKindModel;

    open spec fn view(&self) -> TokenKindModel {
        match *self {
            TokenKind::Doctype(d) => TokenKindModel::Doctype(d@),
            TokenKind::StartTag(t) => TokenKindModel::StartTag(t@),
            TokenKind::EndTag(t) => TokenKindModel::EndTag(t@),
            TokenKind::Comment(c) => TokenKindModel::Comment(c@),
            TokenKind::ProcessingInstruction(p) => TokenKindModel::ProcessingInstruction(p@),
            TokenKind::Character(c) => TokenKindModel::Character(c),
            TokenKind::Eof => TokenKindModel::Eof,
        }
    }
}

impl View for Token {
    type V = TokenModel;

    open spec fn view(&self) -> TokenModel {
        TokenModel { kind: self.kind@, position: self.position }
    }
}

/// The models of a list of tokens.
pub open spec fn token_models(tokens: Seq<Token>) -> Seq<TokenModel> {
    Seq::new(tokens.len(), |i: int| tokens[i]@)
}

/// A DOCTYPE with nothing known of it.
pub open spec fn blank_doctype() -> DoctypeModel {
    DoctypeModel {
        name: None,
        public_identifier: None,
        system_identifier: None,
        force_quirks: false,
    }
}

/// A tag with a name and nothing else.
pub open spec fn plain_tag(name: Seq<char>) -> TagModel {
    TagModel { name, self_closing: false, attributes: Seq::empty() }
}

/// `name` is the name of an attribute of the list.
pub open spec fn has_attribute(attributes: Seq<AttributeModel>, name: Seq<char>) -> bool {
    exists|i: int| 0 <= i < attributes.len() && (#[trigger] attributes[i]).name == name
}

/// No two attributes of the list have the same name.
pub open spec fn distinct_names(attributes: Seq<AttributeModel>) -> bool {
    forall|i: int, j: int|
        0 <= i < j < attributes.len() ==> (#[trigger] attributes[i]).name != (
        #[trigger] attributes[j]).name
}

impl Attribute {
    /// A copy of the attribute.
    pub fn duplicate(&self) -> (r: Self)
        ensures
            r@ == self@,
    {
        Attribute { name: self.name.clone(), value: self.value.clone() }
    }
}

/// A copy of a list of attributes.
pub fn duplicate_attributes(attributes: &Vec<Attribute>) -> (r: Vec<Attribute>)
    ensures
        attribute_models(r@) == attribute_models(attributes@),
{
    let mut out: Vec<Attribute> = Vec::new();
    let mut i: usize = 0;
    while i < attributes.len()
        invariant
            0 <= i <= attributes@.len(),
            out@.len() == i,
            forall|j: int| 0 <= j < i ==> (#[trigger] out@[j])@ == attributes@[j]@,
        decreases attributes@.len() - i,
    {
        out.push(attributes[i].duplicate());
        i = i + 1;
    }
    out
}

/// Whether a list of attributes holds one with the given name.
pub fn attributes_contain(attributes: &Vec<Attribute>, name: &str) -> (r: bool)
    ensures
        r == has_attribute(attribute_models(attributes@), name@),
{
    let mut i: usize = 0;
    while i < attributes.len()
        invariant
            0 <= i <= attributes@.len(),
            forall|j: int| 0 <= j < i ==> (#[trigger] attributes@[j]).name@ != name@,
        decreases attributes@.len() - i,
    {
        if str_eq(attributes[i].name.as_str(), name) {
            assert(attribute_models(attributes@)[i as int].name == name@);
            return true;
        }
        i = i + 1;
    }
    assert forall|j: int| 0 <= j < attributes@.len() implies (#[trigger] attribute_models(
        attributes@,
    )[j]).name != name@ by {
        assert(attributes@[j].name@ != name@);
    }
    false
}

impl TagToken {
    /// A copy of the tag.
    pub fn duplicate(&self) -> (r: Self)
        ensures
            r@ == self@,
    {
        TagToken {
            name: self.name.clone(),
            self_closing: self.self_closing,
            attributes: duplicate_attributes(&self.attributes),
        }
    }

    /// A tag with a name and nothing else.
    pub fn named(name: &str) -> (r: Self)
        ensures
            r@ == plain_tag(name@),
    {
        TagToken { name: name.to_owned(), self_closing: false, attributes: Vec::new() }
    }

    /// A copy of the tag under another name.
    pub fn renamed(&self, name: &str) -> (r: Self)
        ensures
            r@ == (TagModel { name: name@, ..self@ }),
    {
        TagToken {
            name: name.to_owned(),
            self_closing: self.self_closing,
            attributes: duplicate_attributes(&self.attributes),
        }
    }
}

impl Default for DoctypeToken {
    fn default() -> (r: Self)
        ensures
            r@ == blank_doctype(),
    {
        DoctypeToken {
            name: None,
            public_identifier: None,
            system_identifier: None,
            force_quirks: false,
        }
    }
}

impl DoctypeToken {
    /// A copy of the DOCTYPE.
    pub fn duplicate(&self) -> (r: Self)
        ensures
            r@ == self@,
    {
        DoctypeToken {
            name: clone_text(&self.name),
            public_identifier: clone_text(&self.public_identifier),
            system_identifier: clone_text(&self.system_identifier),
            force_quirks: self.force_quirks,
        }
    }
}

} // verus!
