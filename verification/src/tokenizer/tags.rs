//! A tag that is written down is read back: its name, its attributes and their values
//! come out as they stand in the source.
use vstd::prelude::*;

use crate::text::{is_ascii_alphabetic, is_tag_whitespace, lowercase, lowercase_char};
use crate::token::{has_attribute, plain_tag, AttributeModel, TagModel, TokenKindModel, TokenModel};
use crate::tokenizer::dispatch::{
    at_after_attribute_name, at_after_attribute_value_quoted, at_attribute_name,
    at_attribute_value_quoted, at_attribute_value_unquoted, at_before_attribute_name,
    at_before_attribute_value, at_data, at_end_tag_open, at_self_closing_start_tag, at_tag_name,
    at_tag_open,
};
use crate::tokenizer::model::{AttributeValueTarget, State, TokenizerModel};
use crate::tokenizer::progress::lemma_step;

verus! {

// ---- Tags as they are written ----

/// How the value of an attribute is written.
pub enum Quoting {
    /// Between quotation marks.
    Double,
    /// Between apostrophes.
    Single,
    /// With nothing around it.
    Bare,
    /// There is none, and no equals sign.
    Missing,
}

/// An attribute as it is written in a tag.
pub struct WrittenAttribute {
    pub name: Seq<char>,
    pub value: Seq<char>,
    pub quoting: Quoting,
}

/// The characters of an attribute.
pub open spec fn attribute_text(a: WrittenAttribute) -> Seq<char> {
    match a.quoting {
        Quoting::Double => a.name + seq!['=', '"'] + a.value + seq!['"'],
        Quoting::Single => a.name + seq!['=', '\''] + a.value + seq!['\''],
        Quoting::Bare => a.name + seq!['='] + a.value,
        Quoting::Missing => a.name,
    }
}

/// The characters of the attributes, each after a space.
pub open spec fn attributes_text(attributes: Seq<WrittenAttribute>) -> Seq<char>
    decreases attributes.len(),
{
    if attributes.len() == 0 {
        Seq::empty()
    } else {
        seq![' '] + attribute_text(attributes[0]) + attributes_text(attributes.drop_first())
    }
}

/// The characters of a tag.
pub open spec fn tag_text(
    end: bool,
    name: Seq<char>,
    attributes: Seq<WrittenAttribute>,
    self_closing: bool,
) -> Seq<char> {
    (if end {
        seq!['<', '/']
    } else {
        seq!['<']
    }) + name + attributes_text(attributes) + (if self_closing {
        seq![' ', '/', '>']
    } else {
        seq!['>']
    })
}

/// A character that can stand in the name of a tag.
pub open spec fn tag_name_char(c: char) -> bool {
    !is_tag_whitespace(c) && c != '/' && c != '>' && c != '\0'
}

/// A character that can stand in the name of an attribute.
pub open spec fn attribute_name_char(c: char) -> bool {
    tag_name_char(c) && c != '='
}

/// A character that can stand in a value that is written that way.
pub open spec fn value_char(quoting: Quoting, c: char) -> bool {
    &&& c != '&'
    &&& c != '\0'
    &&& match quoting {
        Quoting::Double => c != '"',
        Quoting::Single => c != '\'',
        Quoting::Bare => !is_tag_whitespace(c) && c != '>',
        Quoting::Missing => false,
    }
}

/// An attribute that can be written that way.
pub open spec fn writable(a: WrittenAttribute) -> bool {
    &&& a.name.len() > 0
    &&& forall|i: int| 0 <= i < a.name.len() ==> attribute_name_char(#[trigger] a.name[i])
    &&& forall|i: int| 0 <= i < a.value.len() ==> value_char(a.quoting, #[trigger] a.value[i])
    &&& a.quoting is Bare ==> a.value.len() > 0 && a.value[0] != '"' && a.value[0] != '\''
}

/// A name that can be written as that of a tag.
pub open spec fn writable_name(name: Seq<char>) -> bool {
    &&& name.len() > 0
    &&& is_ascii_alphabetic(name[0])
    &&& forall|i: int| 0 <= i < name.len() ==> tag_name_char(#[trigger] name[i])
}

/// The attributes that a tag has: the first of each name, in the order in which they
/// are written, with their names in lower case and their values as they stand.
pub open spec fn attributes_read(
    read: Seq<AttributeModel>,
    attributes: Seq<WrittenAttribute>,
) -> Seq<AttributeModel>
    decreases attributes.len(),
{
    if attributes.len() == 0 {
        read
    } else {
        let name = lowercase(attributes[0].name);
        let read = if has_attribute(read, name) {
            read
        } else {
            read.push(AttributeModel { name, value: attributes[0].value })
        };
        attributes_read(read, attributes.drop_first())
    }
}

// ---- One step at a time ----

/// The characters from index `i` on begin with the text.
pub open spec fn ahead(chars: Seq<char>, i: int, text: Seq<char>) -> bool {
    &&& 0 <= i
    &&& i + text.len() <= chars.len()
    &&& forall|k: int| 0 <= k < text.len() ==> chars[i + k] == #[trigger] text[k]
}

pub proof fn lemma_ahead_split(chars: Seq<char>, i: int, a: Seq<char>, b: Seq<char>)
    requires
        ahead(chars, i, a + b),
    ensures
        ahead(chars, i, a),
        ahead(chars, i + a.len(), b),
{
    assert forall|k: int| 0 <= k < a.len() implies chars[i + k] == #[trigger] a[k] by {
        assert((a + b)[k] == a[k]);
    }
    assert forall|k: int| 0 <= k < b.len() implies chars[i + a.len() + k] == #[trigger] b[k] by {
        assert((a + b)[a.len() + k] == b[k]);
    }
}

/// A tokenizer at work, with no token waiting.
pub open spec fn working(t: TokenizerModel) -> bool {
    t.inv() && t.pending.len() == 0 && !t.eof_returned
}

/// A step that makes no token comes before the next token.
pub proof fn lemma_silent_step(t: TokenizerModel)
    requires
        working(t),
        t.advance().pending.len() == 0,
    ensures
        working(t.advance()),
        t.run() == t.advance().run(),
        t.advance().chars == t.chars,
        t.advance().positions == t.positions,
{
    lemma_step(t.consume(), t.peek(), t.positions[t.index]);
}

/// A step that makes tokens is the last before the next token.
pub proof fn lemma_last_step(t: TokenizerModel)
    requires
        working(t),
        t.advance().pending.len() > 0,
    ensures
        t.run() == t.advance(),
        t.next().0 == Some(t.advance().pending[0]),
        t.next().1 == t.advance().take_token(),
{
}

/// A tag is being read, and nothing came out yet.
spec fn in_tag(t: TokenizerModel, base: TokenizerModel, tag: TagModel) -> bool {
    &&& working(t)
    &&& t.chars == base.chars
    &&& t.positions == base.positions
    &&& t.run() == base.run()
    &&& t.current_tag == Some(tag)
    &&& t.current_tag_is_end == base.current_tag_is_end
    &&& t.current_tag_start == base.current_tag_start
}

// ---- Names ----

pub proof fn lemma_lowercase_cons(s: Seq<char>)
    requires
        s.len() > 0,
    ensures
        lowercase(s) == seq![lowercase_char(s[0])] + lowercase(s.drop_first()),
{
    assert(lowercase(s) =~= seq![lowercase_char(s[0])] + lowercase(s.drop_first()));
}

/// What is left of a text after its first character.
pub proof fn lemma_ahead_rest(chars: Seq<char>, i: int, text: Seq<char>)
    requires
        ahead(chars, i, text),
        text.len() > 0,
    ensures
        chars[i] == text[0],
        ahead(chars, i + 1, text.drop_first()),
{
    assert(text == seq![text[0]] + text.drop_first());
    lemma_ahead_split(chars, i, seq![text[0]], text.drop_first());
    assert(seq![text[0]][0] == text[0]);
    assert(chars[i + 0] == text[0]);
}

proof fn read_tag_name(
    t: TokenizerModel,
    base: TokenizerModel,
    tag: TagModel,
    name: Seq<char>,
) -> (u: TokenizerModel)
    requires
        in_tag(t, base, tag),
        t.state is TagName,
        ahead(t.chars, t.index, name),
        forall|i: int| 0 <= i < name.len() ==> tag_name_char(#[trigger] name[i]),
    ensures
        in_tag(u, base, TagModel { name: tag.name + lowercase(name), ..tag }),
        u.state is TagName,
        u.index == t.index + name.len(),
    decreases name.len(),
{
    if name.len() == 0 {
        assert(tag.name + lowercase(name) == tag.name);
        t
    } else {
        at_tag_name(t);
        reveal(TokenizerModel::tag_name_state);
        lemma_ahead_rest(t.chars, t.index, name);
        assert(tag_name_char(name[0]));
        lemma_silent_step(t);
        let v = t.advance();
        let next = TagModel { name: tag.name.push(lowercase_char(name[0])), ..tag };
        assert(v.current_tag == Some(next));
        assert forall|i: int| 0 <= i < name.drop_first().len() implies tag_name_char(
            #[trigger] name.drop_first()[i],
        ) by {
            assert(name.drop_first()[i] == name[i + 1]);
        }
        let u = read_tag_name(v, base, next, name.drop_first());
        lemma_lowercase_cons(name);
        assert(next.name + lowercase(name.drop_first()) == tag.name + lowercase(name));
        u
    }
}

proof fn read_attribute_name(
    t: TokenizerModel,
    base: TokenizerModel,
    tag: TagModel,
    name: Seq<char>,
) -> (u: TokenizerModel)
    requires
        in_tag(t, base, tag),
        t.state is AttributeName,
        ahead(t.chars, t.index, name),
        forall|i: int| 0 <= i < name.len() ==> attribute_name_char(#[trigger] name[i]),
    ensures
        in_tag(u, base, tag),
        u.state is AttributeName,
        u.index == t.index + name.len(),
        u.current_attribute_name == t.current_attribute_name + lowercase(name),
    decreases name.len(),
{
    if name.len() == 0 {
        assert(t.current_attribute_name + lowercase(name) == t.current_attribute_name);
        t
    } else {
        at_attribute_name(t);
        reveal(TokenizerModel::attribute_name_state);
        lemma_ahead_rest(t.chars, t.index, name);
        assert(attribute_name_char(name[0]));
        lemma_silent_step(t);
        let v = t.advance();
        assert forall|i: int| 0 <= i < name.drop_first().len() implies attribute_name_char(
            #[trigger] name.drop_first()[i],
        ) by {
            assert(name.drop_first()[i] == name[i + 1]);
        }
        let u = read_attribute_name(v, base, tag, name.drop_first());
        lemma_lowercase_cons(name);
        assert(v.current_attribute_name + lowercase(name.drop_first())
            == t.current_attribute_name + lowercase(name));
        u
    }
}

// ---- Values ----

/// The tag with more at the end of the value being read.
spec fn with_more(tag: TagModel, target: AttributeValueTarget, text: Seq<char>) -> TagModel {
    match target {
        AttributeValueTarget::Index(i) => if i < tag.attributes.len() {
            let attribute = tag.attributes[i as int];
            TagModel {
                attributes: tag.attributes.update(
                    i as int,
                    AttributeModel { value: attribute.value + text, ..attribute },
                ),
                ..tag
            }
        } else {
            tag
        },
        AttributeValueTarget::Discarded => tag,
    }
}

proof fn lemma_with_more(tag: TagModel, target: AttributeValueTarget, text: Seq<char>)
    ensures
        text.len() == 0 ==> with_more(tag, target, text) == tag,
        text.len() > 0 ==> with_more(
            with_more(tag, target, seq![text[0]]),
            target,
            text.drop_first(),
        ) == with_more(tag, target, text),
{
    match target {
        AttributeValueTarget::Index(i) => {
            if i < tag.attributes.len() {
                let attribute = tag.attributes[i as int];
                if text.len() == 0 {
                    assert(attribute.value + text == attribute.value);
                    assert(with_more(tag, target, text).attributes =~= tag.attributes);
                } else {
                    assert(attribute.value + seq![text[0]] + text.drop_first() == attribute.value
                        + text);
                    assert(with_more(
                        with_more(tag, target, seq![text[0]]),
                        target,
                        text.drop_first(),
                    ).attributes =~= with_more(tag, target, text).attributes);
                }
            }
        },
        AttributeValueTarget::Discarded => {},
    }
}

/// The state in which such a value is read.
spec fn value_state(quoting: Quoting) -> State {
    match quoting {
        Quoting::Double => State::AttributeValueDoubleQuoted,
        Quoting::Single => State::AttributeValueSingleQuoted,
        _ => State::AttributeValueUnquoted,
    }
}

proof fn read_value(
    t: TokenizerModel,
    base: TokenizerModel,
    tag: TagModel,
    quoting: Quoting,
    value: Seq<char>,
) -> (u: TokenizerModel)
    requires
        in_tag(t, base, tag),
        !(quoting is Missing),
        t.state == value_state(quoting),
        ahead(t.chars, t.index, value),
        forall|i: int| 0 <= i < value.len() ==> value_char(quoting, #[trigger] value[i]),
    ensures
        in_tag(u, base, with_more(tag, t.attribute_value_target, value)),
        u.state == t.state,
        u.index == t.index + value.len(),
        u.attribute_value_target == t.attribute_value_target,
    decreases value.len(),
{
    lemma_with_more(tag, t.attribute_value_target, value);
    if value.len() == 0 {
        t
    } else {
        if quoting is Bare {
            at_attribute_value_unquoted(t);
            reveal(TokenizerModel::attribute_value_unquoted_state);
        } else {
            at_attribute_value_quoted(t);
            reveal(TokenizerModel::attribute_value_quoted_state);
        }
        lemma_ahead_rest(t.chars, t.index, value);
        assert(value_char(quoting, value[0]));
        lemma_silent_step(t);
        let v = t.advance();
        let next = with_more(tag, t.attribute_value_target, seq![value[0]]);
        assert(v.current_tag == Some(next)) by {
            match t.attribute_value_target {
                AttributeValueTarget::Index(i) => {
                    if i < tag.attributes.len() {
                        let attribute = tag.attributes[i as int];
                        assert(attribute.value.push(value[0]) == attribute.value + seq![value[0]]);
                    }
                },
                AttributeValueTarget::Discarded => {},
            }
        }
        assert forall|i: int| 0 <= i < value.drop_first().len() implies value_char(
            quoting,
            #[trigger] value.drop_first()[i],
        ) by {
            assert(value.drop_first()[i] == value[i + 1]);
        }
        read_value(v, base, next, quoting, value.drop_first())
    }
}

// ---- Attributes ----

/// Between two attributes: after a name, after a value, or at the end of a value with
/// nothing around it.
spec fn between(t: TokenizerModel) -> bool {
    ||| t.state is TagName
    ||| t.state is AfterAttributeName
    ||| t.state is AfterAttributeValueQuoted
    ||| t.state is AttributeValueUnquoted
}

/// The space before an attribute.
proof fn read_space(t: TokenizerModel, base: TokenizerModel, tag: TagModel) -> (u: TokenizerModel)
    requires
        in_tag(t, base, tag),
        between(t),
        t.index < t.chars.len(),
        t.chars[t.index] == ' ',
    ensures
        in_tag(u, base, tag),
        u.state is BeforeAttributeName || u.state is AfterAttributeName,
        u.index == t.index + 1,
{
    match t.state {
        State::TagName => {
            at_tag_name(t);
            reveal(TokenizerModel::tag_name_state);
        },
        State::AfterAttributeName => {
            at_after_attribute_name(t);
            reveal(TokenizerModel::after_attribute_name_state);
        },
        State::AfterAttributeValueQuoted => {
            at_after_attribute_value_quoted(t);
            reveal(TokenizerModel::after_attribute_value_quoted_state);
        },
        State::AttributeValueUnquoted => {
            at_attribute_value_unquoted(t);
            reveal(TokenizerModel::attribute_value_unquoted_state);
        },
        _ => {},
    }
    lemma_silent_step(t);
    t.advance()
}

/// The tag with one more attribute, if it is the first of its name.
spec fn with_attribute(tag: TagModel, name: Seq<char>, value: Seq<char>) -> TagModel {
    if has_attribute(tag.attributes, name) {
        tag
    } else {
        TagModel { attributes: tag.attributes.push(AttributeModel { name, value }), ..tag }
    }
}

/// Where the value of a new attribute goes.
spec fn target_for(tag: TagModel, name: Seq<char>) -> AttributeValueTarget {
    if has_attribute(tag.attributes, name) {
        AttributeValueTarget::Discarded
    } else {
        AttributeValueTarget::Index(tag.attributes.len() as usize)
    }
}

proof fn lemma_attribute_value(tag: TagModel, name: Seq<char>, value: Seq<char>)
    requires
        tag.attributes.len() <= usize::MAX,
    ensures
        with_more(with_attribute(tag, name, Seq::empty()), target_for(tag, name), value)
            == with_attribute(tag, name, value),
{
    if !has_attribute(tag.attributes, name) {
        let empty = AttributeModel { name, value: Seq::empty() };
        assert(Seq::<char>::empty() + value == value);
        assert(tag.attributes.push(empty).update(
            tag.attributes.len() as int,
            AttributeModel { name, value },
        ) =~= tag.attributes.push(AttributeModel { name, value }));
    }
}

/// The name of an attribute, up to its first character.
proof fn begin_attribute(t: TokenizerModel, base: TokenizerModel, tag: TagModel) -> (u:
    TokenizerModel)
    requires
        in_tag(t, base, tag),
        t.state is BeforeAttributeName || t.state is AfterAttributeName,
        t.index < t.chars.len(),
        attribute_name_char(t.chars[t.index]),
    ensures
        in_tag(u, base, tag),
        u.state is AttributeName,
        u.index == t.index,
        u.current_attribute_name == Seq::<char>::empty(),
{
    if t.state is BeforeAttributeName {
        at_before_attribute_name(t);
        reveal(TokenizerModel::before_attribute_name_state);
    } else {
        at_after_attribute_name(t);
        reveal(TokenizerModel::after_attribute_name_state);
    }
    lemma_silent_step(t);
    t.advance()
}

/// The end of the name of an attribute.
proof fn end_attribute_name(t: TokenizerModel, base: TokenizerModel, tag: TagModel) -> (u:
    TokenizerModel)
    requires
        in_tag(t, base, tag),
        t.state is AttributeName,
        t.index < t.chars.len(),
        t.chars[t.index] == '=' || t.chars[t.index] == ' ' || t.chars[t.index] == '>',
    ensures
        in_tag(u, base, with_attribute(tag, t.current_attribute_name, Seq::empty())),
        u.attribute_value_target == target_for(tag, t.current_attribute_name),
        t.chars[t.index] == '=' ==> u.state is BeforeAttributeValue && u.index == t.index + 1,
        t.chars[t.index] != '=' ==> u.state is AfterAttributeName && u.index == t.index,
{
    at_attribute_name(t);
    reveal(TokenizerModel::attribute_name_state);
    lemma_silent_step(t);
    t.advance()
}

/// The mark that begins a value, if there is one.
proof fn begin_value(
    t: TokenizerModel,
    base: TokenizerModel,
    tag: TagModel,
    quoting: Quoting,
) -> (u: TokenizerModel)
    requires
        in_tag(t, base, tag),
        t.state is BeforeAttributeValue,
        t.index < t.chars.len(),
        match quoting {
            Quoting::Double => t.chars[t.index] == '"',
            Quoting::Single => t.chars[t.index] == '\'',
            Quoting::Bare => value_char(quoting, t.chars[t.index]) && t.chars[t.index] != '"'
                && t.chars[t.index] != '\'',
            Quoting::Missing => false,
        },
    ensures
        in_tag(u, base, tag),
        u.state == value_state(quoting),
        u.attribute_value_target == t.attribute_value_target,
        u.index == if quoting is Bare {
            t.index
        } else {
            t.index + 1
        },
{
    at_before_attribute_value(t);
    reveal(TokenizerModel::before_attribute_value_state);
    lemma_silent_step(t);
    t.advance()
}

/// The mark that ends a value.
proof fn end_value(
    t: TokenizerModel,
    base: TokenizerModel,
    tag: TagModel,
    quoting: Quoting,
) -> (u: TokenizerModel)
    requires
        in_tag(t, base, tag),
        t.state == value_state(quoting),
        t.index < t.chars.len(),
        quoting is Double && t.chars[t.index] == '"' || quoting is Single && t.chars[t.index]
            == '\'',
    ensures
        in_tag(u, base, tag),
        u.state is AfterAttributeValueQuoted,
        u.index == t.index + 1,
{
    at_attribute_value_quoted(t);
    reveal(TokenizerModel::attribute_value_quoted_state);
    lemma_silent_step(t);
    t.advance()
}

/// One attribute, with what follows it.
proof fn read_attribute(
    t: TokenizerModel,
    base: TokenizerModel,
    tag: TagModel,
    a: WrittenAttribute,
) -> (u: TokenizerModel)
    requires
        in_tag(t, base, tag),
        tag.attributes.len() <= usize::MAX,
        t.state is BeforeAttributeName || t.state is AfterAttributeName,
        writable(a),
        ahead(t.chars, t.index, attribute_text(a)),
        t.index + attribute_text(a).len() < t.chars.len(),
        t.chars[t.index + attribute_text(a).len()] == ' ' || t.chars[t.index + attribute_text(
            a,
        ).len()] == '>',
    ensures
        in_tag(u, base, with_attribute(tag, lowercase(a.name), a.value)),
        between(u),
        u.index == t.index + attribute_text(a).len(),
{
    let i = t.index;
    let name = lowercase(a.name);
    let chars = t.chars;
    let n = a.name.len();
    let m = a.value.len();
    let with = with_attribute(tag, name, Seq::empty());
    match a.quoting {
        Quoting::Double | Quoting::Single => {
            let mark = if a.quoting is Double {
                '"'
            } else {
                '\''
            };
            let opening = seq!['=', mark];
            assert(attribute_text(a) == a.name + (opening + (a.value + seq![mark])));
            lemma_ahead_split(chars, i, a.name, opening + (a.value + seq![mark]));
            lemma_ahead_split(chars, i + n, opening, a.value + seq![mark]);
            lemma_ahead_split(chars, i + n + 2, a.value, seq![mark]);
            assert(chars[i + n + 0] == opening[0]);
            assert(chars[i + n + 1] == opening[1]);
            assert(chars[i + n + 2 + m + 0] == seq![mark][0]);
        },
        Quoting::Bare => {
            assert(attribute_text(a) == a.name + (seq!['='] + a.value));
            lemma_ahead_split(chars, i, a.name, seq!['='] + a.value);
            lemma_ahead_split(chars, i + n, seq!['='], a.value);
            assert(chars[i + n + 0] == seq!['='][0]);
            assert(chars[i + n + 1 + 0] == a.value[0]);
            assert(value_char(a.quoting, a.value[0]));
        },
        Quoting::Missing => {
            assert(m == 0) by {
                if m > 0 {
                    assert(value_char(a.quoting, a.value[0]));
                }
            }
            assert(a.value == Seq::<char>::empty());
        },
    }
    assert(attribute_name_char(a.name[0]));
    assert(chars[i + 0] == a.name[0]);
    let b = begin_attribute(t, base, tag);
    let c = read_attribute_name(b, base, tag, a.name);
    assert(c.current_attribute_name == name);
    let d = end_attribute_name(c, base, tag);
    lemma_attribute_value(tag, name, a.value);
    match a.quoting {
        Quoting::Double | Quoting::Single => {
            let e = begin_value(d, base, with, a.quoting);
            let f = read_value(e, base, with, a.quoting, a.value);
            end_value(f, base, with_attribute(tag, name, a.value), a.quoting)
        },
        Quoting::Bare => {
            let e = begin_value(d, base, with, a.quoting);
            read_value(e, base, with, a.quoting, a.value)
        },
        Quoting::Missing => d,
    }
}

proof fn read_attributes(
    t: TokenizerModel,
    base: TokenizerModel,
    tag: TagModel,
    attributes: Seq<WrittenAttribute>,
) -> (u: TokenizerModel)
    requires
        in_tag(t, base, tag),
        tag.attributes.len() + attributes.len() <= usize::MAX,
        between(t),
        forall|i: int| 0 <= i < attributes.len() ==> writable(#[trigger] attributes[i]),
        ahead(t.chars, t.index, attributes_text(attributes)),
        t.index + attributes_text(attributes).len() < t.chars.len(),
        t.chars[t.index + attributes_text(attributes).len()] == ' ' || t.chars[t.index
            + attributes_text(attributes).len()] == '>',
    ensures
        in_tag(
            u,
            base,
            TagModel { attributes: attributes_read(tag.attributes, attributes), ..tag },
        ),
        between(u),
        u.index == t.index + attributes_text(attributes).len(),
    decreases attributes.len(),
{
    if attributes.len() == 0 {
        t
    } else {
        let a = attributes[0];
        let rest = attributes.drop_first();
        let text = attribute_text(a);
        let more = attributes_text(rest);
        assert(writable(a));
        assert(attributes_text(attributes) == seq![' '] + (text + more));
        lemma_ahead_split(t.chars, t.index, seq![' '], text + more);
        lemma_ahead_split(t.chars, t.index + 1, text, more);
        assert(t.chars[t.index + 0] == seq![' '][0]);
        let b = read_space(t, base, tag);
        let end = t.index + 1 + text.len();
        assert(t.chars[end] == ' ' || t.chars[end] == '>') by {
            if rest.len() > 0 {
                let tail = attribute_text(rest[0]) + attributes_text(rest.drop_first());
                assert(more == seq![' '] + tail);
                assert(more[0] == ' ');
                assert(t.chars[end + 0] == more[0]);
            }
        }
        let c = read_attribute(b, base, tag, a);
        let next = with_attribute(tag, lowercase(a.name), a.value);
        assert forall|i: int| 0 <= i < rest.len() implies writable(#[trigger] rest[i]) by {
            assert(rest[i] == attributes[i + 1]);
        }
        read_attributes(c, base, next, rest)
    }
}

// ---- Whole tags ----

/// The beginning of a tag, up to its name.
proof fn begin_tag(t: TokenizerModel, end: bool) -> (u: TokenizerModel)
    requires
        working(t),
        t.state is Data,
        ahead(
            t.chars,
            t.index,
            if end {
                seq!['<', '/']
            } else {
                seq!['<']
            },
        ),
        t.index + (if end {
            2int
        } else {
            1
        }) < t.chars.len(),
        is_ascii_alphabetic(
            t.chars[t.index + (if end {
                2int
            } else {
                1
            })],
        ),
    ensures
        in_tag(u, u, plain_tag(Seq::empty())),
        u.run() == t.run(),
        u.chars == t.chars,
        u.positions == t.positions,
        u.current_tag_is_end == end,
        u.current_tag_start == t.positions[t.index],
        u.state is TagName,
        u.index == t.index + (if end {
            2int
        } else {
            1
        }),
{
    at_data(t);
    reveal(TokenizerModel::data_state);
    reveal(TokenizerModel::tag_open_state);
    reveal(TokenizerModel::end_tag_open_state);
    let text = if end {
        seq!['<', '/']
    } else {
        seq!['<']
    };
    assert(t.chars[t.index + 0] == text[0]);
    lemma_silent_step(t);
    let a = t.advance();
    at_tag_open(a);
    if end {
        assert(t.chars[t.index + 1] == text[1]);
        lemma_silent_step(a);
        let b = a.advance();
        at_end_tag_open(b);
        lemma_silent_step(b);
        b.advance()
    } else {
        lemma_silent_step(a);
        a.advance()
    }
}

/// The `>` of a tag.
proof fn lemma_close(t: TokenizerModel, base: TokenizerModel, tag: TagModel)
    requires
        in_tag(t, base, tag),
        between(t) || t.state is SelfClosingStartTag,
        t.index < t.chars.len(),
        t.chars[t.index] == '>',
    ensures
        ({
            let whole = if t.state is SelfClosingStartTag {
                TagModel { self_closing: true, ..tag }
            } else {
                tag
            };
            let kind = if base.current_tag_is_end {
                TokenKindModel::EndTag(whole)
            } else {
                TokenKindModel::StartTag(whole)
            };
            let r = t.next();
            &&& r.0 == Some(TokenModel { kind, position: base.current_tag_start })
            &&& r.1.state is Data
            &&& r.1.index == t.index + 1
            &&& r.1.pending.len() == 0
        }),
{
    match t.state {
        State::TagName => {
            at_tag_name(t);
            reveal(TokenizerModel::tag_name_state);
        },
        State::AfterAttributeName => {
            at_after_attribute_name(t);
            reveal(TokenizerModel::after_attribute_name_state);
        },
        State::AfterAttributeValueQuoted => {
            at_after_attribute_value_quoted(t);
            reveal(TokenizerModel::after_attribute_value_quoted_state);
        },
        State::AttributeValueUnquoted => {
            at_attribute_value_unquoted(t);
            reveal(TokenizerModel::attribute_value_unquoted_state);
        },
        State::SelfClosingStartTag => {
            at_self_closing_start_tag(t);
            reveal(TokenizerModel::self_closing_start_tag_state);
        },
        _ => {},
    }
    lemma_last_step(t);
}

/// The space and the slash before the `>` of a self-closing tag.
proof fn read_slash(t: TokenizerModel, base: TokenizerModel, tag: TagModel) -> (u: TokenizerModel)
    requires
        in_tag(t, base, tag),
        between(t),
        ahead(t.chars, t.index, seq![' ', '/', '>']),
    ensures
        in_tag(u, base, tag),
        u.state is SelfClosingStartTag,
        u.index == t.index + 2,
{
    let text = seq![' ', '/', '>'];
    assert(t.chars[t.index + 0] == text[0]);
    assert(t.chars[t.index + 1] == text[1]);
    let a = read_space(t, base, tag);
    reveal(TokenizerModel::after_attribute_name_state);
    if a.state is BeforeAttributeName {
        at_before_attribute_name(a);
        reveal(TokenizerModel::before_attribute_name_state);
    } else {
        at_after_attribute_name(a);
    }
    lemma_silent_step(a);
    let b = a.advance();
    if a.state is BeforeAttributeName {
        at_after_attribute_name(b);
        lemma_silent_step(b);
        b.advance()
    } else {
        b
    }
}

/// A tag in the source is the next token, from the place of its `<` on. Its name is the
/// written one in lower case. Its attributes are those that are written, in their order,
/// each with its name in lower case and its value character by character; of two with
/// the same name the first counts. After it the tokenizer stands right behind its `>`.
pub proof fn lemma_tag_is_read(
    t: TokenizerModel,
    end: bool,
    name: Seq<char>,
    attributes: Seq<WrittenAttribute>,
    self_closing: bool,
)
    requires
        t.inv(),
        t.pending.len() == 0,
        !t.eof_returned,
        t.state is Data,
        writable_name(name),
        attributes.len() <= usize::MAX,
        forall|i: int| 0 <= i < attributes.len() ==> writable(#[trigger] attributes[i]),
        ahead(t.chars, t.index, tag_text(end, name, attributes, self_closing)),
    ensures
        ({
            let tag = TagModel {
                name: lowercase(name),
                self_closing,
                attributes: attributes_read(Seq::empty(), attributes),
            };
            let kind = if end {
                TokenKindModel::EndTag(tag)
            } else {
                TokenKindModel::StartTag(tag)
            };
            let r = t.next();
            &&& r.0 == Some(TokenModel { kind, position: t.positions[t.index] })
            &&& r.1.state is Data
            &&& r.1.index == t.index + tag_text(end, name, attributes, self_closing).len()
            &&& r.1.pending.len() == 0
        }),
{
    let opening = if end {
        seq!['<', '/']
    } else {
        seq!['<']
    };
    let closing = if self_closing {
        seq![' ', '/', '>']
    } else {
        seq!['>']
    };
    let more = attributes_text(attributes);
    let i = t.index;
    let chars = t.chars;
    assert(tag_text(end, name, attributes, self_closing) == opening + (name + (more + closing)));
    lemma_ahead_split(chars, i, opening, name + (more + closing));
    let j = i + opening.len();
    lemma_ahead_split(chars, j, name, more + closing);
    let k = j + name.len();
    lemma_ahead_split(chars, k, more, closing);
    let l = k + more.len();
    assert(chars[j + 0] == name[0]);
    assert(chars[l + 0] == closing[0]);
    let a = begin_tag(t, end);
    let b = read_tag_name(a, a, plain_tag(Seq::empty()), name);
    let named = TagModel { name: lowercase(name), ..plain_tag(Seq::empty()) };
    assert(Seq::<char>::empty() + lowercase(name) == lowercase(name));
    let c = read_attributes(b, a, named, attributes);
    let tag = TagModel { attributes: attributes_read(Seq::empty(), attributes), ..named };
    let d = if self_closing {
        assert(chars[l + 2] == closing[2]);
        read_slash(c, a, tag)
    } else {
        c
    };
    lemma_close(d, a, tag);
    assert(t.next() == d.next());
}

/// An attribute whose name no other has is in the tag with the value that is written.
pub proof fn lemma_value_is_read(attributes: Seq<WrittenAttribute>, k: int)
    requires
        0 <= k < attributes.len(),
        forall|i: int|
            0 <= i < attributes.len() && i != k ==> lowercase((#[trigger] attributes[i]).name)
                != lowercase(attributes[k].name),
    ensures
        attributes_read(Seq::empty(), attributes).contains(
            AttributeModel {
                name: lowercase(attributes[k].name),
                value: attributes[k].value,
            },
        ),
{
    lemma_value_kept(Seq::empty(), attributes, k);
}

/// What was read stays.
proof fn lemma_read_stays(
    read: Seq<AttributeModel>,
    attributes: Seq<WrittenAttribute>,
    i: int,
)
    requires
        0 <= i < read.len(),
    ensures
        i < attributes_read(read, attributes).len(),
        attributes_read(read, attributes)[i] == read[i],
    decreases attributes.len(),
{
    if attributes.len() > 0 {
        let name = lowercase(attributes[0].name);
        let next = if has_attribute(read, name) {
            read
        } else {
            read.push(AttributeModel { name, value: attributes[0].value })
        };
        lemma_read_stays(next, attributes.drop_first(), i);
    }
}

proof fn lemma_value_kept(
    read: Seq<AttributeModel>,
    attributes: Seq<WrittenAttribute>,
    k: int,
)
    requires
        0 <= k < attributes.len(),
        !has_attribute(read, lowercase(attributes[k].name)),
        forall|i: int|
            0 <= i < attributes.len() && i != k ==> lowercase((#[trigger] attributes[i]).name)
                != lowercase(attributes[k].name),
    ensures
        attributes_read(read, attributes).contains(
            AttributeModel {
                name: lowercase(attributes[k].name),
                value: attributes[k].value,
            },
        ),
    decreases attributes.len(),
{
    let name = lowercase(attributes[0].name);
    let rest = attributes.drop_first();
    let added = AttributeModel { name, value: attributes[0].value };
    let next = if has_attribute(read, name) {
        read
    } else {
        read.push(added)
    };
    if k == 0 {
        lemma_read_stays(next, rest, read.len() as int);
    } else {
        assert(rest[k - 1] == attributes[k]);
        assert(lowercase(attributes[0].name) != lowercase(attributes[k].name));
        assert(!has_attribute(next, lowercase(attributes[k].name))) by {
            if has_attribute(next, lowercase(attributes[k].name)) {
                let j = choose|j: int|
                    0 <= j < next.len() && (#[trigger] next[j]).name == lowercase(
                        attributes[k].name,
                    );
                if j < read.len() {
                    assert(read[j] == next[j]);
                }
            }
        }
        assert forall|i: int| 0 <= i < rest.len() && i != k - 1 implies lowercase(
            (#[trigger] rest[i]).name,
        ) != lowercase(rest[k - 1].name) by {
            assert(rest[i] == attributes[i + 1]);
        }
        lemma_value_kept(next, rest, k - 1);
    }
}

} // verus!
