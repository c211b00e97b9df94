//! Document types, processing instructions and numeric character references that are
//! written down are read back.
use vstd::prelude::*;

use crate::text::{
    is_ascii_alphabetic, is_ascii_alphanumeric, is_ascii_digit, is_ascii_hexdigit,
    is_tag_whitespace, lowercase, lowercase_char, same_ignoring_case,
};
use crate::token::{
    plain_tag, DoctypeModel, Position, ProcessingInstructionModel, TokenKindModel, TokenModel,
};
use crate::tokenizer::dispatch::{
    after_identifier, at_after_doctype_name, at_after_doctype_public_identifier,
    at_after_doctype_system_identifier, at_after_processing_instruction_target,
    at_before_doctype_name, at_between_doctype_public_and_system_identifiers,
    at_character_reference, at_data, at_decimal_character_reference, at_doctype, at_doctype_name,
    at_hexadecimal_character_reference, at_hexadecimal_character_reference_start, at_identifier,
    at_identifier_keyword, at_markup_declaration_open, at_numeric_character_reference,
    at_numeric_character_reference_end, at_processing_instruction_data,
    at_processing_instruction_open, at_processing_instruction_questionable,
    at_processing_instruction_target, at_raw_text, at_rc_data, at_tag_open, at_text_end_tag_name,
    at_text_end_tag_open, at_text_less_than_sign, before_identifier, in_identifier, lemma_reads,
    reading, reads,
};
use crate::tokenizer::model::{
    char_or_replacement, digit_value, lemma_numeric_reference, numeric_reference,
    DoctypeIdentifierKind, State, TokenizerModel,
};
use crate::tokenizer::tags::{
    ahead, lemma_ahead_rest, lemma_ahead_split, lemma_lowercase_cons, lemma_silent_step, working,
};
use crate::tokenizer::writing::read_declaration;

verus! {

// ---- Document types ----

/// A character that can stand in the name of a document type.
pub open spec fn doctype_name_char(c: char) -> bool {
    !is_tag_whitespace(c) && c != '>' && c != '\0'
}

/// A character that can stand in an identifier between such quotation marks.
pub open spec fn identifier_char(quote: char, c: char) -> bool {
    c != quote && c != '>' && c != '\0'
}

/// The identifiers of a document type, as they are written.
pub enum Identifiers {
    Neither,
    System { system: Seq<char> },
    Public { public: Seq<char> },
    Both { public: Seq<char>, system: Seq<char> },
}

/// An identifier between quotation marks.
pub open spec fn quoted(quote: char, text: Seq<char>) -> Seq<char> {
    seq![quote] + text + seq![quote]
}

/// What stands after the name of a document type.
pub open spec fn identifiers_text(identifiers: Identifiers, quote: char) -> Seq<char> {
    match identifiers {
        Identifiers::Neither => Seq::empty(),
        Identifiers::System { system } => seq![' ', 'S', 'Y', 'S', 'T', 'E', 'M', ' '] + quoted(
            quote,
            system,
        ),
        Identifiers::Public { public } => seq![' ', 'P', 'U', 'B', 'L', 'I', 'C', ' '] + quoted(
            quote,
            public,
        ),
        Identifiers::Both { public, system } => seq![' ', 'P', 'U', 'B', 'L', 'I', 'C', ' ']
            + quoted(quote, public) + seq![' '] + quoted(quote, system),
    }
}

/// The identifiers can be written between such quotation marks.
pub open spec fn identifiers_fit(identifiers: Identifiers, quote: char) -> bool {
    &&& quote == '"' || quote == '\''
    &&& match identifiers {
        Identifiers::Neither => true,
        Identifiers::System { system } => identifier_fits(system, quote),
        Identifiers::Public { public } => identifier_fits(public, quote),
        Identifiers::Both { public, system } => identifier_fits(public, quote) && identifier_fits(
            system,
            quote,
        ),
    }
}

pub open spec fn identifier_fits(text: Seq<char>, quote: char) -> bool {
    forall|i: int| 0 <= i < text.len() ==> identifier_char(quote, #[trigger] text[i])
}

/// The document type with that name and those identifiers.
pub open spec fn doctype_read(name: Seq<char>, identifiers: Identifiers) -> DoctypeModel {
    DoctypeModel {
        name: Some(lowercase(name)),
        public_identifier: match identifiers {
            Identifiers::Public { public } => Some(public),
            Identifiers::Both { public, .. } => Some(public),
            _ => None,
        },
        system_identifier: match identifiers {
            Identifiers::System { system } => Some(system),
            Identifiers::Both { system, .. } => Some(system),
            _ => None,
        },
        force_quirks: false,
    }
}

/// A document type is being read.
spec fn in_doctype(t: TokenizerModel, base: TokenizerModel, doctype: DoctypeModel) -> bool {
    reading(t, base) && t.current_doctype == Some(doctype)
}

/// The keyword and the space after it.
proof fn read_doctype_keyword(t: TokenizerModel, keyword: Seq<char>) -> (u: TokenizerModel)
    requires
        reading(t, t),
        t.state is MarkupDeclarationOpen,
        ahead(t.chars, t.index, keyword + seq![' ']),
        same_ignoring_case(keyword, "DOCTYPE"@),
    ensures
        reading(u, t),
        u.state is BeforeDoctypeName,
        u.index == t.index + 8,
{
    at_markup_declaration_open(t);
    reveal_strlit("--");
    reveal_strlit("DOCTYPE");
    lemma_ahead_split(t.chars, t.index, keyword, seq![' ']);
    assert(lowercase(keyword).len() == lowercase("DOCTYPE"@).len());
    assert(keyword.len() == 7);
    assert(t.chars.subrange(t.index, t.index + 7) =~= keyword);
    assert(t.chars[t.index + 0] == keyword[0]);
    assert(!t.looking_at(t.index, "--"@)) by {
        if t.looking_at(t.index, "--"@) {
            assert(t.chars.subrange(t.index, t.index + 2)[0] == "--"@[0]);
            assert(t.chars[t.index] == '-');
            assert(lowercase(keyword)[0] == lowercase("DOCTYPE"@)[0]);
        }
    }
    assert(t.looking_at_ignoring_case(t.index, "DOCTYPE"@));
    lemma_silent_step(t);
    let a = t.advance();
    assert(t.chars[t.index + 7 + 0] == seq![' '][0]);
    reveal(TokenizerModel::doctype_state);
    at_doctype(a);
    lemma_silent_step(a);
    a.advance()
}

proof fn read_doctype_name(
    t: TokenizerModel,
    base: TokenizerModel,
    doctype: DoctypeModel,
    read: Seq<char>,
    name: Seq<char>,
) -> (u: TokenizerModel)
    requires
        in_doctype(t, base, doctype),
        t.state is DoctypeName,
        doctype.name == Some(read),
        ahead(t.chars, t.index, name),
        forall|i: int| 0 <= i < name.len() ==> doctype_name_char(#[trigger] name[i]),
    ensures
        in_doctype(u, base, DoctypeModel { name: Some(read + lowercase(name)), ..doctype }),
        u.state is DoctypeName,
        u.index == t.index + name.len(),
    decreases name.len(),
{
    if name.len() == 0 {
        assert(read + lowercase(name) == read);
        t
    } else {
        lemma_ahead_rest(t.chars, t.index, name);
        assert(doctype_name_char(name[0]));
        reveal(TokenizerModel::doctype_name_state);
        at_doctype_name(t);
        lemma_silent_step(t);
        let v = t.advance();
        let next = read.push(lowercase_char(name[0]));
        let longer = DoctypeModel { name: Some(next), ..doctype };
        assert(v.current_doctype == Some(longer));
        let rest = name.drop_first();
        assert forall|i: int| 0 <= i < rest.len() implies doctype_name_char(#[trigger] rest[i]) by {
            assert(rest[i] == name[i + 1]);
        }
        let u = read_doctype_name(v, base, longer, next, rest);
        lemma_lowercase_cons(name);
        assert(next + lowercase(rest) == read + lowercase(name));
        u
    }
}

/// The whole name.
proof fn read_name(t: TokenizerModel, base: TokenizerModel, name: Seq<char>) -> (u: TokenizerModel)
    requires
        reading(t, base),
        t.state is BeforeDoctypeName,
        name.len() > 0,
        ahead(t.chars, t.index, name),
        forall|i: int| 0 <= i < name.len() ==> doctype_name_char(#[trigger] name[i]),
    ensures
        in_doctype(u, base, doctype_read(name, Identifiers::Neither)),
        u.state is DoctypeName,
        u.index == t.index + name.len(),
{
    lemma_ahead_rest(t.chars, t.index, name);
    assert(doctype_name_char(name[0]));
    reveal(TokenizerModel::before_doctype_name_state);
    at_before_doctype_name(t);
    lemma_silent_step(t);
    let v = t.advance();
    let first = seq![lowercase_char(name[0])];
    let doctype = DoctypeModel {
        name: Some(first),
        ..doctype_read(name, Identifiers::Neither)
    };
    assert(v.current_doctype == Some(doctype));
    let rest = name.drop_first();
    assert forall|i: int| 0 <= i < rest.len() implies doctype_name_char(#[trigger] rest[i]) by {
        assert(rest[i] == name[i + 1]);
    }
    let u = read_doctype_name(v, base, doctype, first, rest);
    lemma_lowercase_cons(name);
    u
}

/// The document type with another identifier.
spec fn with_identifier(
    doctype: DoctypeModel,
    kind: DoctypeIdentifierKind,
    text: Seq<char>,
) -> DoctypeModel {
    match kind {
        DoctypeIdentifierKind::Public => DoctypeModel { public_identifier: Some(text), ..doctype },
        DoctypeIdentifierKind::System => DoctypeModel { system_identifier: Some(text), ..doctype },
    }
}

proof fn read_identifier(
    t: TokenizerModel,
    base: TokenizerModel,
    doctype: DoctypeModel,
    kind: DoctypeIdentifierKind,
    quote: char,
    read: Seq<char>,
    text: Seq<char>,
) -> (u: TokenizerModel)
    requires
        in_doctype(t, base, with_identifier(doctype, kind, read)),
        quote == '"' || quote == '\'',
        t.state == in_identifier(kind, quote),
        ahead(t.chars, t.index, text + seq![quote]),
        identifier_fits(text, quote),
    ensures
        in_doctype(u, base, with_identifier(doctype, kind, read + text)),
        u.state == after_identifier(kind),
        u.index == t.index + text.len() + 1,
    decreases text.len(),
{
    reveal(TokenizerModel::doctype_identifier_quoted_state);
    at_identifier(t, kind, quote);
    lemma_ahead_rest(t.chars, t.index, text + seq![quote]);
    if text.len() == 0 {
        assert((text + seq![quote])[0] == quote);
        assert(read + text == read);
        lemma_silent_step(t);
        t.advance()
    } else {
        assert((text + seq![quote])[0] == text[0]);
        assert(identifier_char(quote, text[0]));
        lemma_silent_step(t);
        let v = t.advance();
        let next = read.push(text[0]);
        assert(v.current_doctype == Some(with_identifier(doctype, kind, next)));
        let rest = text.drop_first();
        assert((text + seq![quote]).drop_first() == rest + seq![quote]);
        assert forall|i: int| 0 <= i < rest.len() implies identifier_char(
            quote,
            #[trigger] rest[i],
        ) by {
            assert(rest[i] == text[i + 1]);
        }
        let u = read_identifier(v, base, doctype, kind, quote, next, rest);
        assert(next + rest == read + text);
        u
    }
}

/// A keyword with the space before it and the identifier after it.
proof fn read_keyword_and_identifier(
    t: TokenizerModel,
    base: TokenizerModel,
    doctype: DoctypeModel,
    kind: DoctypeIdentifierKind,
    quote: char,
    text: Seq<char>,
) -> (u: TokenizerModel)
    requires
        in_doctype(t, base, doctype),
        t.state is DoctypeName,
        quote == '"' || quote == '\'',
        identifier_fits(text, quote),
        ahead(
            t.chars,
            t.index,
            (match kind {
                DoctypeIdentifierKind::Public => seq![' ', 'P', 'U', 'B', 'L', 'I', 'C', ' '],
                DoctypeIdentifierKind::System => seq![' ', 'S', 'Y', 'S', 'T', 'E', 'M', ' '],
            }) + quoted(quote, text),
        ),
    ensures
        in_doctype(u, base, with_identifier(doctype, kind, text)),
        u.state == after_identifier(kind),
        u.index == t.index + 10 + text.len(),
{
    let keyword = match kind {
        DoctypeIdentifierKind::Public => seq![' ', 'P', 'U', 'B', 'L', 'I', 'C', ' '],
        DoctypeIdentifierKind::System => seq![' ', 'S', 'Y', 'S', 'T', 'E', 'M', ' '],
    };
    lemma_ahead_split(t.chars, t.index, keyword, quoted(quote, text));
    let a = read_keyword(t, base, doctype, kind, keyword);
    assert(quoted(quote, text) == seq![quote] + (text + seq![quote]));
    lemma_ahead_split(t.chars, t.index + 8, seq![quote], text + seq![quote]);
    assert(t.chars[t.index + 8 + 0] == seq![quote][0]);
    let b = open_identifier(a, base, doctype, kind, quote);
    let u = read_identifier(b, base, doctype, kind, quote, Seq::empty(), text);
    assert(Seq::<char>::empty() + text == text);
    u
}

/// The quotation mark before an identifier.
proof fn open_identifier(
    t: TokenizerModel,
    base: TokenizerModel,
    doctype: DoctypeModel,
    kind: DoctypeIdentifierKind,
    quote: char,
) -> (u: TokenizerModel)
    requires
        in_doctype(t, base, doctype),
        t.state == before_identifier(kind),
        quote == '"' || quote == '\'',
        t.index < t.chars.len(),
        t.chars[t.index] == quote,
    ensures
        in_doctype(u, base, with_identifier(doctype, kind, Seq::empty())),
        u.state == in_identifier(kind, quote),
        u.index == t.index + 1,
{
    reveal(TokenizerModel::before_doctype_identifier_state);
    at_identifier_keyword(t, kind);
    lemma_silent_step(t);
    t.advance()
}

/// A keyword with a space before it and one after it.
proof fn read_keyword(
    t: TokenizerModel,
    base: TokenizerModel,
    doctype: DoctypeModel,
    kind: DoctypeIdentifierKind,
    keyword: Seq<char>,
) -> (u: TokenizerModel)
    requires
        in_doctype(t, base, doctype),
        t.state is DoctypeName,
        keyword == (match kind {
            DoctypeIdentifierKind::Public => seq![' ', 'P', 'U', 'B', 'L', 'I', 'C', ' '],
            DoctypeIdentifierKind::System => seq![' ', 'S', 'Y', 'S', 'T', 'E', 'M', ' '],
        }),
        ahead(t.chars, t.index, keyword),
    ensures
        in_doctype(u, base, doctype),
        u.state == before_identifier(kind),
        u.index == t.index + 8,
{
    assert(t.chars[t.index + 0] == keyword[0]);
    assert(t.chars[t.index + 1] == keyword[1]);
    assert(t.chars[t.index + 7] == keyword[7]);
    reveal(TokenizerModel::doctype_name_state);
    at_doctype_name(t);
    lemma_silent_step(t);
    let a = t.advance();
    let b = read_word(a, base, doctype, kind, keyword);
    reveal(TokenizerModel::before_doctype_identifier_state);
    at_identifier_keyword(b, kind);
    lemma_silent_step(b);
    b.advance()
}

/// The keyword alone.
proof fn read_word(
    t: TokenizerModel,
    base: TokenizerModel,
    doctype: DoctypeModel,
    kind: DoctypeIdentifierKind,
    keyword: Seq<char>,
) -> (u: TokenizerModel)
    requires
        in_doctype(t, base, doctype),
        t.state is AfterDoctypeName,
        t.index >= 1,
        keyword == (match kind {
            DoctypeIdentifierKind::Public => seq![' ', 'P', 'U', 'B', 'L', 'I', 'C', ' '],
            DoctypeIdentifierKind::System => seq![' ', 'S', 'Y', 'S', 'T', 'E', 'M', ' '],
        }),
        ahead(t.chars, t.index - 1, keyword),
    ensures
        in_doctype(u, base, doctype),
        u.state == (match kind {
            DoctypeIdentifierKind::Public => State::AfterDoctypePublicKeyword,
            DoctypeIdentifierKind::System => State::AfterDoctypeSystemKeyword,
        }),
        u.index == t.index + 6,
{
    reveal_strlit("PUBLIC");
    reveal_strlit("SYSTEM");
    assert(t.chars[t.index - 1 + 1] == keyword[1]);
    assert(t.chars[t.index - 1 + 2] == keyword[2]);
    assert(t.chars[t.index - 1 + 3] == keyword[3]);
    assert(t.chars[t.index - 1 + 4] == keyword[4]);
    assert(t.chars[t.index - 1 + 5] == keyword[5]);
    assert(t.chars[t.index - 1 + 6] == keyword[6]);
    let word = t.chars.subrange(t.index, t.index + 6);
    match kind {
        DoctypeIdentifierKind::Public => {
            assert(word =~= "PUBLIC"@);
        },
        DoctypeIdentifierKind::System => {
            assert(word =~= "SYSTEM"@);
            assert(lowercase(word)[0] == 's');
            assert(lowercase("PUBLIC"@)[0] == 'p');
        },
    }
    reveal(TokenizerModel::after_doctype_name_state);
    at_after_doctype_name(t);
    assert(!is_tag_whitespace(t.chars[t.index]) && t.chars[t.index] != '>');
    lemma_silent_step(t);
    t.advance()
}

/// The system identifier after the public one.
proof fn read_second_identifier(
    t: TokenizerModel,
    base: TokenizerModel,
    doctype: DoctypeModel,
    quote: char,
    text: Seq<char>,
) -> (u: TokenizerModel)
    requires
        in_doctype(t, base, doctype),
        t.state is AfterDoctypePublicIdentifier,
        quote == '"' || quote == '\'',
        identifier_fits(text, quote),
        ahead(t.chars, t.index, seq![' '] + quoted(quote, text)),
    ensures
        in_doctype(u, base, with_identifier(doctype, DoctypeIdentifierKind::System, text)),
        u.state is AfterDoctypeSystemIdentifier,
        u.index == t.index + 3 + text.len(),
{
    lemma_ahead_split(t.chars, t.index, seq![' '], quoted(quote, text));
    assert(t.chars[t.index + 0] == seq![' '][0]);
    reveal(TokenizerModel::after_doctype_public_identifier_state);
    at_after_doctype_public_identifier(t);
    lemma_silent_step(t);
    let a = t.advance();
    assert(quoted(quote, text) == seq![quote] + (text + seq![quote]));
    lemma_ahead_split(t.chars, t.index + 1, seq![quote], text + seq![quote]);
    assert(t.chars[t.index + 1 + 0] == seq![quote][0]);
    reveal(TokenizerModel::between_doctype_identifiers_state);
    at_between_doctype_public_and_system_identifiers(a);
    lemma_silent_step(a);
    let b = a.advance();
    let kind = DoctypeIdentifierKind::System;
    let u = read_identifier(b, base, doctype, kind, quote, Seq::empty(), text);
    assert(Seq::<char>::empty() + text == text);
    u
}

/// What stands after the name.
proof fn read_identifiers(
    t: TokenizerModel,
    base: TokenizerModel,
    name: Seq<char>,
    identifiers: Identifiers,
    quote: char,
) -> (u: TokenizerModel)
    requires
        in_doctype(t, base, doctype_read(name, Identifiers::Neither)),
        t.state is DoctypeName,
        identifiers_fit(identifiers, quote),
        ahead(t.chars, t.index, identifiers_text(identifiers, quote)),
    ensures
        in_doctype(u, base, doctype_read(name, identifiers)),
        u.state is DoctypeName || u.state is AfterDoctypePublicIdentifier || u.state
            is AfterDoctypeSystemIdentifier,
        u.index == t.index + identifiers_text(identifiers, quote).len(),
{
    let doctype = doctype_read(name, Identifiers::Neither);
    match identifiers {
        Identifiers::Neither => t,
        Identifiers::System { system } => read_keyword_and_identifier(
            t,
            base,
            doctype,
            DoctypeIdentifierKind::System,
            quote,
            system,
        ),
        Identifiers::Public { public } => read_keyword_and_identifier(
            t,
            base,
            doctype,
            DoctypeIdentifierKind::Public,
            quote,
            public,
        ),
        Identifiers::Both { public, system } => {
            let keyword = seq![' ', 'P', 'U', 'B', 'L', 'I', 'C', ' '];
            let first = keyword + quoted(quote, public);
            let second = seq![' '] + quoted(quote, system);
            assert(identifiers_text(identifiers, quote) == first + second);
            lemma_ahead_split(t.chars, t.index, first, second);
            let kind = DoctypeIdentifierKind::Public;
            let a = read_keyword_and_identifier(t, base, doctype, kind, quote, public);
            read_second_identifier(a, base, with_identifier(doctype, kind, public), quote, system)
        },
    }
}

/// A document type in the source is the next token, from the place of its `<` on: its name
/// in lower case, and its identifiers as they are written; there is no other.
pub proof fn lemma_doctype_is_read(
    t: TokenizerModel,
    keyword: Seq<char>,
    name: Seq<char>,
    identifiers: Identifiers,
    quote: char,
)
    requires
        working(t),
        t.state is Data,
        same_ignoring_case(keyword, "DOCTYPE"@),
        name.len() > 0,
        forall|i: int| 0 <= i < name.len() ==> doctype_name_char(#[trigger] name[i]),
        identifiers_fit(identifiers, quote),
        ahead(
            t.chars,
            t.index,
            seq!['<', '!'] + keyword + seq![' '] + name + identifiers_text(identifiers, quote)
                + seq!['>'],
        ),
    ensures
        reads(
            t,
            TokenKindModel::Doctype(doctype_read(name, identifiers)),
            t.index,
            State::Data,
            t.index + 11 + name.len() + identifiers_text(identifiers, quote).len(),
        ),
{
    let chars = t.chars;
    let i = t.index;
    let opening = seq!['<', '!'];
    let word = keyword + seq![' '];
    let more = identifiers_text(identifiers, quote);
    let closing = seq!['>'];
    assert(opening + keyword + seq![' '] + name + more + closing == opening + (word + (name + (more
        + closing))));
    lemma_ahead_split(chars, i, opening, word + (name + (more + closing)));
    lemma_ahead_split(chars, i + 2, word, name + (more + closing));
    assert(word.len() == 8) by {
        reveal_strlit("DOCTYPE");
        assert(lowercase(keyword).len() == lowercase("DOCTYPE"@).len());
    }
    lemma_ahead_split(chars, i + 10, name, more + closing);
    let j = i + 10 + name.len();
    lemma_ahead_split(chars, j, more, closing);
    assert(chars[j + more.len() + 0] == closing[0]);
    let a = read_declaration(t);
    let b = read_doctype_keyword(a, keyword);
    let c = read_name(b, a, name);
    let d = read_identifiers(c, a, name, identifiers, quote);
    let kind = TokenKindModel::Doctype(doctype_read(name, identifiers));
    let token = TokenModel { kind, position: t.positions[i] };
    lemma_doctype_closes(d, a, doctype_read(name, identifiers));
    assert(d.pending.push(token) =~= seq![token]);
    lemma_reads(t, d, kind, i, State::Data);
}

/// The `>` of a document type.
proof fn lemma_doctype_closes(t: TokenizerModel, base: TokenizerModel, doctype: DoctypeModel)
    requires
        in_doctype(t, base, doctype),
        t.state is DoctypeName || t.state is AfterDoctypePublicIdentifier || t.state
            is AfterDoctypeSystemIdentifier,
        t.index < t.chars.len(),
        t.chars[t.index] == '>',
    ensures
        t.advance().pending == t.pending.push(
            TokenModel {
                kind: TokenKindModel::Doctype(doctype),
                position: base.current_tag_start,
            },
        ),
        t.advance().state is Data,
        t.advance().index == t.index + 1,
{
    if t.state is DoctypeName {
        reveal(TokenizerModel::doctype_name_state);
        at_doctype_name(t);
    } else if t.state is AfterDoctypePublicIdentifier {
        reveal(TokenizerModel::after_doctype_public_identifier_state);
        at_after_doctype_public_identifier(t);
    } else {
        reveal(TokenizerModel::after_doctype_system_identifier_state);
        at_after_doctype_system_identifier(t);
    }
}

// ---- Processing instructions ----

/// A name that can be the target of a processing instruction.
pub open spec fn instruction_target(target: Seq<char>) -> bool {
    &&& target.len() > 0
    &&& is_ascii_alphabetic(target[0]) || target[0] == '_'
    &&& forall|i: int| 0 <= i < target.len() ==> target_char(#[trigger] target[i])
    &&& !same_ignoring_case(target, "xml"@)
    &&& !same_ignoring_case(target, "xml-stylesheet"@)
}

pub open spec fn target_char(c: char) -> bool {
    is_ascii_alphanumeric(c) || c == '-' || c == '_'
}

/// A text that can be the data of a processing instruction.
pub open spec fn instruction_data(data: Seq<char>) -> bool {
    &&& forall|i: int| 0 <= i < data.len() ==> #[trigger] data[i] != '?' && data[i] != '>'
    &&& data.len() > 0 ==> !is_tag_whitespace(data[0])
}

proof fn read_target(t: TokenizerModel, base: TokenizerModel, target: Seq<char>) -> (u:
    TokenizerModel)
    requires
        reading(t, base),
        t.state is ProcessingInstructionTarget,
        ahead(t.chars, t.index, target),
        forall|i: int| 0 <= i < target.len() ==> target_char(#[trigger] target[i]),
    ensures
        reading(u, base),
        u.state is ProcessingInstructionTarget,
        u.index == t.index + target.len(),
        u.target_buffer == t.target_buffer + target,
    decreases target.len(),
{
    if target.len() == 0 {
        assert(t.target_buffer + target == t.target_buffer);
        t
    } else {
        lemma_ahead_rest(t.chars, t.index, target);
        assert(target_char(target[0]));
        reveal(TokenizerModel::processing_instruction_target_state);
        at_processing_instruction_target(t);
        lemma_silent_step(t);
        let v = t.advance();
        let rest = target.drop_first();
        assert forall|i: int| 0 <= i < rest.len() implies target_char(#[trigger] rest[i]) by {
            assert(rest[i] == target[i + 1]);
        }
        let u = read_target(v, base, rest);
        assert(t.target_buffer.push(target[0]) + rest == t.target_buffer + target);
        u
    }
}

proof fn read_instruction_data(
    t: TokenizerModel,
    base: TokenizerModel,
    pi: ProcessingInstructionModel,
    data: Seq<char>,
) -> (u: TokenizerModel)
    requires
        reading(t, base),
        t.state is ProcessingInstructionData,
        t.current_instruction == Some(pi),
        ahead(t.chars, t.index, data),
        forall|i: int| 0 <= i < data.len() ==> #[trigger] data[i] != '?' && data[i] != '>',
    ensures
        reading(u, base),
        u.state is ProcessingInstructionData,
        u.index == t.index + data.len(),
        u.current_instruction == Some(ProcessingInstructionModel { data: pi.data + data, ..pi }),
    decreases data.len(),
{
    if data.len() == 0 {
        assert(pi.data + data == pi.data);
        t
    } else {
        lemma_ahead_rest(t.chars, t.index, data);
        reveal(TokenizerModel::processing_instruction_data_state);
        at_processing_instruction_data(t);
        assert(data[0] != '?' && data[0] != '>');
        lemma_silent_step(t);
        let v = t.advance();
        let next = ProcessingInstructionModel { data: pi.data.push(data[0]), ..pi };
        let rest = data.drop_first();
        assert forall|i: int| 0 <= i < rest.len() implies #[trigger] rest[i] != '?' && rest[i]
            != '>' by {
            assert(rest[i] == data[i + 1]);
        }
        let u = read_instruction_data(v, base, next, rest);
        assert(next.data + rest == pi.data + data);
        u
    }
}

/// The start of a processing instruction.
proof fn open_instruction(t: TokenizerModel) -> (u: TokenizerModel)
    requires
        working(t),
        t.state is Data,
        ahead(t.chars, t.index, seq!['<', '?']),
        t.index + 2 < t.chars.len(),
        is_ascii_alphabetic(t.chars[t.index + 2]) || t.chars[t.index + 2] == '_',
    ensures
        reading(u, u),
        u.run() == t.run(),
        u.chars == t.chars,
        u.positions == t.positions,
        u.current_tag_start == t.positions[t.index],
        u.state is ProcessingInstructionTarget,
        u.target_buffer.len() == 0,
        u.index == t.index + 2,
{
    let text = seq!['<', '?'];
    assert(t.chars[t.index + 0] == text[0]);
    assert(t.chars[t.index + 1] == text[1]);
    reveal(TokenizerModel::data_state);
    reveal(TokenizerModel::tag_open_state);
    reveal(TokenizerModel::processing_instruction_open_state);
    at_data(t);
    lemma_silent_step(t);
    let a = t.advance();
    at_tag_open(a);
    lemma_silent_step(a);
    let b = a.advance();
    at_processing_instruction_open(b);
    lemma_silent_step(b);
    b.advance()
}

/// The space after the target.
proof fn close_target(t: TokenizerModel, base: TokenizerModel, target: Seq<char>) -> (u:
    TokenizerModel)
    requires
        reading(t, base),
        t.state is ProcessingInstructionTarget,
        t.target_buffer == target,
        !same_ignoring_case(target, "xml"@),
        !same_ignoring_case(target, "xml-stylesheet"@),
        t.index + 1 < t.chars.len(),
        t.chars[t.index] == ' ',
        !is_tag_whitespace(t.chars[t.index + 1]),
    ensures
        reading(u, base),
        u.state is ProcessingInstructionData,
        u.index == t.index + 1,
        u.current_instruction == Some(
            ProcessingInstructionModel { target, data: Seq::empty() },
        ),
{
    reveal(TokenizerModel::processing_instruction_target_state);
    reveal(TokenizerModel::after_processing_instruction_target_state);
    at_processing_instruction_target(t);
    lemma_silent_step(t);
    let a = t.advance();
    at_after_processing_instruction_target(a);
    lemma_silent_step(a);
    let b = a.advance();
    at_after_processing_instruction_target(b);
    lemma_silent_step(b);
    b.advance()
}

/// A processing instruction in the source is the next token, from the place of its `<` on,
/// with the target and the data that are written.
pub proof fn lemma_instruction_is_read(t: TokenizerModel, target: Seq<char>, data: Seq<char>)
    requires
        working(t),
        t.state is Data,
        instruction_target(target),
        instruction_data(data),
        ahead(t.chars, t.index, seq!['<', '?'] + target + seq![' '] + data + seq!['?', '>']),
    ensures
        reads(
            t,
            TokenKindModel::ProcessingInstruction(ProcessingInstructionModel { target, data }),
            t.index,
            State::Data,
            t.index + 5 + target.len() + data.len(),
        ),
{
    let chars = t.chars;
    let i = t.index;
    let opening = seq!['<', '?'];
    let closing = seq!['?', '>'];
    assert(opening + target + seq![' '] + data + closing == opening + (target + (seq![' '] + (data
        + closing))));
    lemma_ahead_split(chars, i, opening, target + (seq![' '] + (data + closing)));
    lemma_ahead_split(chars, i + 2, target, seq![' '] + (data + closing));
    let j = i + 2 + target.len();
    lemma_ahead_split(chars, j, seq![' '], data + closing);
    lemma_ahead_split(chars, j + 1, data, closing);
    let k = j + 1 + data.len();
    assert(chars[i + 2 + 0] == target[0]);
    assert(chars[j + 0] == seq![' '][0]);
    assert(chars[k + 0] == closing[0]);
    assert(chars[k + 1] == closing[1]);
    if data.len() > 0 {
        assert(chars[j + 1 + 0] == data[0]);
    }
    let a = open_instruction(t);
    let b = read_target(a, a, target);
    assert(b.target_buffer =~= target);
    let c = close_target(b, a, target);
    let blank = ProcessingInstructionModel { target, data: Seq::empty() };
    let d = read_instruction_data(c, a, blank, data);
    assert(Seq::<char>::empty() + data == data);
    let pi = ProcessingInstructionModel { target, data };
    assert(d.current_instruction == Some(pi));
    let e = read_question_mark(d, a, pi);
    let kind = TokenKindModel::ProcessingInstruction(pi);
    let token = TokenModel { kind, position: t.positions[i] };
    reveal(TokenizerModel::processing_instruction_questionable_state);
    at_processing_instruction_questionable(e);
    assert(e.advance().pending == e.pending.push(token));
    assert(e.pending.push(token) =~= seq![token]);
    lemma_reads(t, e, kind, i, State::Data);
}

proof fn read_question_mark(
    t: TokenizerModel,
    base: TokenizerModel,
    pi: ProcessingInstructionModel,
) -> (u: TokenizerModel)
    requires
        reading(t, base),
        t.state is ProcessingInstructionData,
        t.current_instruction == Some(pi),
        t.index < t.chars.len(),
        t.chars[t.index] == '?',
    ensures
        reading(u, base),
        u.state is ProcessingInstructionQuestionable,
        u.current_instruction == Some(pi),
        u.index == t.index + 1,
{
    reveal(TokenizerModel::processing_instruction_data_state);
    at_processing_instruction_data(t);
    lemma_silent_step(t);
    t.advance()
}

// ---- Numeric character references ----

/// A digit of a numeric reference.
pub open spec fn reference_digit(hexadecimal: bool, c: char) -> bool {
    if hexadecimal {
        is_ascii_hexdigit(c)
    } else {
        is_ascii_digit(c)
    }
}

/// The number that digits stand for, after those that stand for `high`.
pub open spec fn number_from(hexadecimal: bool, high: int, digits: Seq<char>) -> int
    decreases digits.len(),
{
    if digits.len() == 0 {
        high
    } else {
        let base: int = if hexadecimal {
            16
        } else {
            10
        };
        number_from(hexadecimal, high * base + digit_value(digits[0]), digits.drop_first())
    }
}

/// A code point that a numeric reference can stand for without an error.
pub open spec fn plain_code(code: int) -> bool {
    ||| 0x20 <= code < 0x7F
    ||| 0xA0 <= code < 0xD800
    ||| 0xE000 <= code < 0xFDD0
    ||| 0xFDF0 <= code <= 0x10FFFF && code % 0x10000 < 0xFFFE
}

proof fn lemma_number_grows(hexadecimal: bool, high: int, digits: Seq<char>)
    requires
        0 <= high,
        forall|i: int| 0 <= i < digits.len() ==> reference_digit(hexadecimal, #[trigger] digits[i]),
    ensures
        high <= number_from(hexadecimal, high, digits),
    decreases digits.len(),
{
    if digits.len() > 0 {
        assert(reference_digit(hexadecimal, digits[0]));
        assert(0 <= digit_value(digits[0]));
        let base: int = if hexadecimal {
            16
        } else {
            10
        };
        let rest = digits.drop_first();
        assert forall|i: int| 0 <= i < rest.len() implies reference_digit(
            hexadecimal,
            #[trigger] rest[i],
        ) by {
            assert(rest[i] == digits[i + 1]);
        }
        assert(high <= high * base + digit_value(digits[0]));
        lemma_number_grows(hexadecimal, high * base + digit_value(digits[0]), rest);
    }
}

/// A reference is being read.
spec fn in_reference(t: TokenizerModel, base: TokenizerModel) -> bool {
    &&& working(t)
    &&& t.chars == base.chars
    &&& t.positions == base.positions
    &&& t.run() == base.run()
    &&& t.return_state == base.state
    &&& t.reference_start == base.index
}

proof fn read_digits(
    t: TokenizerModel,
    base: TokenizerModel,
    hexadecimal: bool,
    digits: Seq<char>,
) -> (u: TokenizerModel)
    requires
        in_reference(t, base),
        t.state == if hexadecimal {
            State::HexadecimalCharacterReference
        } else {
            State::DecimalCharacterReference
        },
        ahead(t.chars, t.index, digits),
        forall|i: int| 0 <= i < digits.len() ==> reference_digit(hexadecimal, #[trigger] digits[i]),
        number_from(hexadecimal, t.reference_code as int, digits) <= u32::MAX,
    ensures
        in_reference(u, base),
        u.state == t.state,
        u.index == t.index + digits.len(),
        u.reference_code == number_from(hexadecimal, t.reference_code as int, digits),
    decreases digits.len(),
{
    if digits.len() == 0 {
        t
    } else {
        lemma_ahead_rest(t.chars, t.index, digits);
        assert(reference_digit(hexadecimal, digits[0]));
        let rest = digits.drop_first();
        assert forall|i: int| 0 <= i < rest.len() implies reference_digit(
            hexadecimal,
            #[trigger] rest[i],
        ) by {
            assert(rest[i] == digits[i + 1]);
        }
        if hexadecimal {
            lemma_number_grows(true, t.reference_code * 16 + digit_value(digits[0]), rest);
            reveal(TokenizerModel::hexadecimal_character_reference_state);
            at_hexadecimal_character_reference(t);
        } else {
            lemma_number_grows(false, t.reference_code * 10 + digit_value(digits[0]), rest);
            reveal(TokenizerModel::decimal_character_reference_state);
            at_decimal_character_reference(t);
        }
        lemma_silent_step(t);
        read_digits(t.advance(), base, hexadecimal, rest)
    }
}

/// The ampersand and the number sign, and the `x` of a hexadecimal reference.
proof fn open_reference(t: TokenizerModel, hexadecimal: bool) -> (u: TokenizerModel)
    requires
        working(t),
        t.state is Data || t.state is RcData,
        ahead(
            t.chars,
            t.index,
            (if hexadecimal {
                seq!['&', '#', 'x']
            } else {
                seq!['&', '#']
            }),
        ),
        ({
            let at = t.index + (if hexadecimal {
                3int
            } else {
                2
            });
            at < t.chars.len() && reference_digit(hexadecimal, t.chars[at])
        }),
    ensures
        in_reference(u, t),
        u.state == if hexadecimal {
            State::HexadecimalCharacterReference
        } else {
            State::DecimalCharacterReference
        },
        u.reference_code == 0,
        u.index == t.index + (if hexadecimal {
            3int
        } else {
            2
        }),
{
    let text = if hexadecimal {
        seq!['&', '#', 'x']
    } else {
        seq!['&', '#']
    };
    assert(t.chars[t.index + 0] == text[0]);
    assert(t.chars[t.index + 1] == text[1]);
    if t.state is Data {
        reveal(TokenizerModel::data_state);
        at_data(t);
    } else {
        reveal(TokenizerModel::rcdata_state);
        at_rc_data(t);
    }
    lemma_silent_step(t);
    let a = t.advance();
    reveal(TokenizerModel::character_reference_state);
    at_character_reference(a);
    lemma_silent_step(a);
    let b = a.advance();
    reveal(TokenizerModel::numeric_character_reference_state);
    at_numeric_character_reference(b);
    if hexadecimal {
        assert(t.chars[t.index + 2] == text[2]);
        lemma_silent_step(b);
        let c = b.advance();
        reveal(TokenizerModel::hexadecimal_character_reference_start_state);
        at_hexadecimal_character_reference_start(c);
        lemma_silent_step(c);
        c.advance()
    } else {
        lemma_silent_step(b);
        b.advance()
    }
}

/// The semicolon of a reference.
proof fn close_reference(t: TokenizerModel, base: TokenizerModel) -> (u: TokenizerModel)
    requires
        in_reference(t, base),
        t.state is HexadecimalCharacterReference || t.state is DecimalCharacterReference,
        t.index < t.chars.len(),
        t.chars[t.index] == ';',
    ensures
        in_reference(u, base),
        u.state is NumericCharacterReferenceEnd,
        u.reference_code == t.reference_code,
        u.index == t.index + 1,
{
    if t.state is HexadecimalCharacterReference {
        reveal(TokenizerModel::hexadecimal_character_reference_state);
        at_hexadecimal_character_reference(t);
    } else {
        reveal(TokenizerModel::decimal_character_reference_state);
        at_decimal_character_reference(t);
    }
    lemma_silent_step(t);
    t.advance()
}

/// A numeric character reference in a text is the character with that code point, at the
/// place of the ampersand, whether its digits are decimal or hexadecimal.
pub proof fn lemma_number_is_read(t: TokenizerModel, hexadecimal: bool, digits: Seq<char>)
    requires
        working(t),
        t.state is Data || t.state is RcData,
        digits.len() > 0,
        forall|i: int| 0 <= i < digits.len() ==> reference_digit(hexadecimal, #[trigger] digits[i]),
        plain_code(number_from(hexadecimal, 0, digits)),
        ahead(
            t.chars,
            t.index,
            (if hexadecimal {
                seq!['&', '#', 'x']
            } else {
                seq!['&', '#']
            }) + digits + seq![';'],
        ),
    ensures
        ({
            let c = char_or_replacement(number_from(hexadecimal, 0, digits) as u32);
            &&& c as int == number_from(hexadecimal, 0, digits)
            &&& reads(
                t,
                TokenKindModel::Character(c),
                t.index,
                t.state,
                t.index + digits.len() + (if hexadecimal {
                    4int
                } else {
                    3
                }),
            )
        }),
{
    let chars = t.chars;
    let i = t.index;
    let opening = if hexadecimal {
        seq!['&', '#', 'x']
    } else {
        seq!['&', '#']
    };
    assert(opening + digits + seq![';'] == opening + (digits + seq![';']));
    lemma_ahead_split(chars, i, opening, digits + seq![';']);
    let j = i + opening.len();
    lemma_ahead_split(chars, j, digits, seq![';']);
    let k = j + digits.len();
    assert(chars[j + 0] == digits[0]);
    assert(chars[k + 0] == seq![';'][0]);
    let a = open_reference(t, hexadecimal);
    let b = read_digits(a, t, hexadecimal, digits);
    let d = close_reference(b, t);
    let code = number_from(hexadecimal, 0, digits) as u32;
    assert(d.reference_code == code);
    lemma_numeric_reference(code);
    assert(numeric_reference(code).0 is None);
    let c = char_or_replacement(code);
    reveal(TokenizerModel::numeric_character_reference_end_state);
    at_numeric_character_reference_end(d);
    lemma_one_character(d, c, t.positions[i]);
    assert(!d.reference_in_attribute());
    lemma_reads(t, d, TokenKindModel::Character(c), i, t.state);
}

proof fn lemma_one_character(t: TokenizerModel, c: char, position: Position)
    requires
        t.pending.len() == 0,
    ensures
        t.pending.push(TokenModel { kind: TokenKindModel::Character(c), position }) == seq![
            TokenModel { kind: TokenKindModel::Character(c), position },
        ],
{
    let token = TokenModel { kind: TokenKindModel::Character(c), position };
    assert(t.pending.push(token) =~= seq![token]);
}

// ---- The end of text that holds no markup ----

/// An end tag is being read in a text.
spec fn in_end_tag(t: TokenizerModel, base: TokenizerModel, name: Seq<char>) -> bool {
    &&& working(t)
    &&& t.chars == base.chars
    &&& t.positions == base.positions
    &&& t.run() == base.run()
    &&& t.state == if base.state is RcData {
        State::RcDataEndTagName
    } else {
        State::RawTextEndTagName
    }
    &&& t.current_tag == Some(plain_tag(name))
    &&& t.current_tag_is_end
    &&& t.current_tag_start == base.positions[base.index]
    &&& t.last_start_tag_name == base.last_start_tag_name
}

proof fn read_end_tag_name(
    t: TokenizerModel,
    base: TokenizerModel,
    read: Seq<char>,
    name: Seq<char>,
) -> (u: TokenizerModel)
    requires
        in_end_tag(t, base, read),
        ahead(t.chars, t.index, name),
        forall|i: int| 0 <= i < name.len() ==> is_ascii_alphabetic(#[trigger] name[i]),
    ensures
        in_end_tag(u, base, read + lowercase(name)),
        u.index == t.index + name.len(),
    decreases name.len(),
{
    if name.len() == 0 {
        assert(read + lowercase(name) == read);
        t
    } else {
        lemma_ahead_rest(t.chars, t.index, name);
        assert(is_ascii_alphabetic(name[0]));
        reveal(TokenizerModel::text_end_tag_name_state);
        at_text_end_tag_name(t);
        lemma_silent_step(t);
        let v = t.advance();
        let next = read.push(lowercase_char(name[0]));
        let rest = name.drop_first();
        assert forall|i: int| 0 <= i < rest.len() implies is_ascii_alphabetic(
            #[trigger] rest[i],
        ) by {
            assert(rest[i] == name[i + 1]);
        }
        let u = read_end_tag_name(v, base, next, rest);
        lemma_lowercase_cons(name);
        assert(next + lowercase(rest) == read + lowercase(name));
        u
    }
}

/// The `<` and the slash of an end tag in a text.
proof fn open_end_tag(t: TokenizerModel) -> (u: TokenizerModel)
    requires
        working(t),
        t.state is RcData || t.state is RawText,
        ahead(t.chars, t.index, seq!['<', '/']),
        t.index + 2 < t.chars.len(),
        is_ascii_alphabetic(t.chars[t.index + 2]),
    ensures
        in_end_tag(u, t, Seq::empty()),
        u.index == t.index + 2,
{
    let text = seq!['<', '/'];
    assert(t.chars[t.index + 0] == text[0]);
    assert(t.chars[t.index + 1] == text[1]);
    if t.state is RcData {
        reveal(TokenizerModel::rcdata_state);
        at_rc_data(t);
    } else {
        reveal(TokenizerModel::raw_text_state);
        at_raw_text(t);
    }
    lemma_silent_step(t);
    let a = t.advance();
    reveal(TokenizerModel::text_less_than_sign_state);
    at_text_less_than_sign(a);
    lemma_silent_step(a);
    let b = a.advance();
    reveal(TokenizerModel::text_end_tag_open_state);
    at_text_end_tag_open(b);
    lemma_silent_step(b);
    b.advance()
}

/// Text that holds no markup ends at the end tag of the element that it is in: that end
/// tag is the next token, from the place of its `<` on.
pub proof fn lemma_text_ends(t: TokenizerModel, name: Seq<char>)
    requires
        working(t),
        t.state is RcData || t.state is RawText,
        name.len() > 0,
        forall|i: int| 0 <= i < name.len() ==> is_ascii_alphabetic(#[trigger] name[i]),
        t.last_start_tag_name == Some(lowercase(name)),
        ahead(t.chars, t.index, seq!['<', '/'] + name + seq!['>']),
    ensures
        reads(
            t,
            TokenKindModel::EndTag(plain_tag(lowercase(name))),
            t.index,
            State::Data,
            t.index + name.len() + 3,
        ),
{
    let chars = t.chars;
    let i = t.index;
    let opening = seq!['<', '/'];
    assert(opening + name + seq!['>'] == opening + (name + seq!['>']));
    lemma_ahead_split(chars, i, opening, name + seq!['>']);
    lemma_ahead_split(chars, i + 2, name, seq!['>']);
    let j = i + 2 + name.len();
    assert(chars[i + 2 + 0] == name[0]);
    assert(chars[j + 0] == seq!['>'][0]);
    let a = open_end_tag(t);
    let b = read_end_tag_name(a, t, Seq::empty(), name);
    assert(Seq::<char>::empty() + lowercase(name) == lowercase(name));
    let kind = TokenKindModel::EndTag(plain_tag(lowercase(name)));
    let token = TokenModel { kind, position: t.positions[i] };
    reveal(TokenizerModel::text_end_tag_name_state);
    at_text_end_tag_name(b);
    assert(b.advance().pending == b.pending.push(token));
    assert(b.pending.push(token) =~= seq![token]);
    lemma_reads(t, b, kind, i, State::Data);
}

} // verus!
