//! Characters and strings: ASCII classes, comparisons and the few string
//! operations that the rest of the library builds on.
use vstd::prelude::*;

verus! {

/// `String::push` appends one character at the end of the string and leaves the
/// characters before it as they were.
pub assume_specification[ String::push ](s: &mut String, c: char)
    ensures
        final(s)@ == old(s)@.push(c),
;

/// An ASCII upper case letter.
#[verifier::allow_in_spec]
pub fn is_ascii_uppercase(c: char) -> bool
    returns
        'A' <= c && c <= 'Z',
{
    c >= 'A' && c <= 'Z'
}

/// An ASCII lower case letter.
#[verifier::allow_in_spec]
pub fn is_ascii_lowercase(c: char) -> bool
    returns
        'a' <= c && c <= 'z',
{
    c >= 'a' && c <= 'z'
}

/// An ASCII letter.
#[verifier::allow_in_spec]
pub fn is_ascii_alphabetic(c: char) -> bool
    returns
        is_ascii_uppercase(c) || is_ascii_lowercase(c),
{
    is_ascii_uppercase(c) || is_ascii_lowercase(c)
}

/// An ASCII decimal digit.
#[verifier::allow_in_spec]
pub fn is_ascii_digit(c: char) -> bool
    returns
        '0' <= c && c <= '9',
{
    c >= '0' && c <= '9'
}

/// An ASCII letter or digit.
#[verifier::allow_in_spec]
pub fn is_ascii_alphanumeric(c: char) -> bool
    returns
        is_ascii_alphabetic(c) || is_ascii_digit(c),
{
    is_ascii_alphabetic(c) || is_ascii_digit(c)
}

/// A digit, or one of the letters `a` to `f` in either case.
#[verifier::allow_in_spec]
pub fn is_ascii_hexdigit(c: char) -> bool
    returns
        is_ascii_digit(c) || ('A' <= c && c <= 'F') || ('a' <= c && c <= 'f'),
{
    is_ascii_digit(c) || (c >= 'A' && c <= 'F') || (c >= 'a' && c <= 'f')
}

/// Tab, line feed, form feed or space: the characters that separate the parts
/// of a tag.
#[verifier::allow_in_spec]
pub fn is_tag_whitespace(c: char) -> bool
    returns
        c == '\t' || c == '\n' || c == '\x0C' || c == ' ',
{
    c == '\t' || c == '\n' || c == '\x0C' || c == ' '
}

/// The five whitespace characters that the insertion modes tell apart from
/// other text.
#[verifier::allow_in_spec]
pub fn is_whitespace(c: char) -> bool
    returns
        c == '\t' || c == '\n' || c == '\x0C' || c == '\r' || c == ' ',
{
    c == '\t' || c == '\n' || c == '\x0C' || c == '\r' || c == ' '
}

/// An ASCII upper case letter turned into its lower case form; any other
/// character unchanged.
pub open spec fn lowercase_char(c: char) -> char {
    if is_ascii_uppercase(c) {
        (c as u32 + 32) as char
    } else {
        c
    }
}

/// Every character of a text in ASCII lower case.
pub open spec fn lowercase(s: Seq<char>) -> Seq<char> {
    s.map_values(|c: char| lowercase_char(c))
}

/// Two texts that differ at most in the case of ASCII letters.
pub open spec fn same_ignoring_case(a: Seq<char>, b: Seq<char>) -> bool {
    lowercase(a) == lowercase(b)
}

/// A text that begins with `prefix`, up to the case of ASCII letters.
pub open spec fn has_prefix_ignoring_case(value: Seq<char>, prefix: Seq<char>) -> bool {
    prefix.len() <= value.len() && same_ignoring_case(value.take(prefix.len() as int), prefix)
}

/// `name` is one of the strings of `list`.
pub open spec fn listed(list: Seq<&'static str>, name: Seq<char>) -> bool {
    exists|i: int| 0 <= i < list.len() && (#[trigger] list[i])@ == name
}

/// `value` begins, up to the case of ASCII letters, with a string of `list`.
pub open spec fn some_prefix_listed(list: Seq<&'static str>, value: Seq<char>) -> bool {
    exists|i: int| 0 <= i < list.len() && has_prefix_ignoring_case(value, (#[trigger] list[i])@)
}

/// `value` equals, up to the case of ASCII letters, a string of `list`.
pub open spec fn listed_ignoring_case(list: Seq<&'static str>, value: Seq<char>) -> bool {
    exists|i: int| 0 <= i < list.len() && same_ignoring_case(value, (#[trigger] list[i])@)
}

/// The ASCII lower case form of a character.
pub fn to_ascii_lowercase(c: char) -> (r: char)
    ensures
        r == lowercase_char(c),
{
    if is_ascii_uppercase(c) {
        let byte: u8 = c as u8 + 32;
        byte as char
    } else {
        c
    }
}

/// Equality of two strings, character by character.
pub fn str_eq(a: &str, b: &str) -> (r: bool)
    ensures
        r == (a@ == b@),
{
    let mut x = a.chars();
    let mut y = b.chars();
    let ghost mut k: int = 0;
    loop
        invariant
            0 <= k <= a@.len(),
            k <= b@.len(),
            a@.take(k) == b@.take(k),
            vstd::std_specs::iter::IteratorSpec::remaining(&x) == a@.skip(k),
            vstd::std_specs::iter::IteratorSpec::remaining(&y) == b@.skip(k),
        decreases a@.len() - k,
    {
        let p = x.next();
        let q = y.next();
        match (p, q) {
            (None, None) => {
                assert(a@.take(k) == a@);
                assert(b@.take(k) == b@);
                return true;
            },
            (Some(c), Some(d)) => {
                assert(a@[k] == c && b@[k] == d);
                if c != d {
                    return false;
                }
                proof {
                    assert(a@.take(k + 1) == a@.take(k).push(c));
                    assert(b@.take(k + 1) == b@.take(k).push(c));
                    assert(a@.skip(k).drop_first() == a@.skip(k + 1));
                    assert(b@.skip(k).drop_first() == b@.skip(k + 1));
                    k = k + 1;
                }
            },
            _ => {
                return false;
            },
        }
    }
}

/// The characters of a string, in order.
pub fn chars_of(s: &str) -> (r: Vec<char>)
    ensures
        r@ == s@,
{
    let mut iter = s.chars();
    let mut out: Vec<char> = Vec::new();
    let ghost mut k: int = 0;
    loop
        invariant
            0 <= k <= s@.len(),
            out@ == s@.take(k),
            vstd::std_specs::iter::IteratorSpec::remaining(&iter) == s@.skip(k),
        decreases s@.len() - k,
    {
        match iter.next() {
            None => {
                assert(s@.take(k) == s@);
                return out;
            },
            Some(c) => {
                assert(s@[k] == c);
                out.push(c);
                proof {
                    assert(s@.take(k + 1) == s@.take(k).push(c));
                    assert(s@.skip(k).drop_first() == s@.skip(k + 1));
                    k = k + 1;
                }
            },
        }
    }
}

/// `value` begins with `prefix`, up to the case of ASCII letters.
pub fn starts_with_ignore_ascii_case(value: &str, prefix: &str) -> (r: bool)
    ensures
        r == has_prefix_ignoring_case(value@, prefix@),
{
    let mut x = value.chars();
    let mut y = prefix.chars();
    let ghost mut k: int = 0;
    loop
        invariant
            0 <= k <= value@.len(),
            k <= prefix@.len(),
            lowercase(value@.take(k)) == lowercase(prefix@.take(k)),
            vstd::std_specs::iter::IteratorSpec::remaining(&x) == value@.skip(k),
            vstd::std_specs::iter::IteratorSpec::remaining(&y) == prefix@.skip(k),
        decreases value@.len() - k,
    {
        let p = x.next();
        let q = y.next();
        match (p, q) {
            (_, None) => {
                assert(prefix@.take(k) == prefix@);
                return true;
            },
            (Some(c), Some(d)) => {
                assert(value@[k] == c && prefix@[k] == d);
                if to_ascii_lowercase(c) != to_ascii_lowercase(d) {
                    assert(lowercase(value@.take(prefix@.len() as int))[k] == lowercase_char(c)
                        || prefix@.len() > value@.len());
                    assert(lowercase(prefix@)[k] == lowercase_char(d));
                    return false;
                }
                proof {
                    assert(value@.take(k + 1) == value@.take(k).push(c));
                    assert(prefix@.take(k + 1) == prefix@.take(k).push(d));
                    assert(lowercase(value@.take(k + 1)) == lowercase(value@.take(k)).push(
                        lowercase_char(c),
                    ));
                    assert(lowercase(prefix@.take(k + 1)) == lowercase(prefix@.take(k)).push(
                        lowercase_char(d),
                    ));
                    assert(value@.skip(k).drop_first() == value@.skip(k + 1));
                    assert(prefix@.skip(k).drop_first() == prefix@.skip(k + 1));
                    k = k + 1;
                }
            },
            (None, Some(_)) => {
                return false;
            },
        }
    }
}

/// Equality of two strings, up to the case of ASCII letters.
pub fn eq_ignore_ascii_case(a: &str, b: &str) -> (r: bool)
    ensures
        r == same_ignoring_case(a@, b@),
{
    let forward = starts_with_ignore_ascii_case(a, b);
    let backward = starts_with_ignore_ascii_case(b, a);
    proof {
        assert(lowercase(a@).len() == a@.len());
        assert(lowercase(b@).len() == b@.len());
        assert(a@.take(a@.len() as int) == a@);
        assert(b@.take(b@.len() as int) == b@);
    }
    forward && backward
}

/// `name` is one of the strings of `list`.
pub fn one_of(list: &[&'static str], name: &str) -> (r: bool)
    ensures
        r == listed(list@, name@),
{
    let mut i: usize = 0;
    while i < list.len()
        invariant
            0 <= i <= list@.len(),
            forall|j: int| 0 <= j < i ==> (#[trigger] list@[j])@ != name@,
        decreases list@.len() - i,
    {
        if str_eq(list[i], name) {
            return true;
        }
        i = i + 1;
    }
    false
}

/// `value` begins with a string of `list`, up to the case of ASCII letters.
pub fn starts_with_one_of(list: &[&'static str], value: &str) -> (r: bool)
    ensures
        r == some_prefix_listed(list@, value@),
{
    let mut i: usize = 0;
    while i < list.len()
        invariant
            0 <= i <= list@.len(),
            forall|j: int|
                0 <= j < i ==> !has_prefix_ignoring_case(value@, (#[trigger] list@[j])@),
        decreases list@.len() - i,
    {
        if starts_with_ignore_ascii_case(value, list[i]) {
            return true;
        }
        i = i + 1;
    }
    false
}

/// `value` equals a string of `list`, up to the case of ASCII letters.
pub fn one_of_ignore_ascii_case(list: &[&'static str], value: &str) -> (r: bool)
    ensures
        r == listed_ignoring_case(list@, value@),
{
    let mut i: usize = 0;
    while i < list.len()
        invariant
            0 <= i <= list@.len(),
            forall|j: int| 0 <= j < i ==> !same_ignoring_case(value@, (#[trigger] list@[j])@),
        decreases list@.len() - i,
    {
        if eq_ignore_ascii_case(value, list[i]) {
            return true;
        }
        i = i + 1;
    }
    false
}

/// The text of an optional string.
pub open spec fn text_of(s: Option<String>) -> Option<Seq<char>> {
    match s {
        Some(s) => Some(s@),
        None => None,
    }
}

/// A copy of an optional string.
pub fn clone_text(s: &Option<String>) -> (r: Option<String>)
    ensures
        text_of(r) == text_of(*s),
{
    match s {
        Some(s) => Some(s.clone()),
        None => None,
    }
}

/// Equality of two optional strings.
pub fn text_eq(a: &Option<String>, b: &Option<String>) -> (r: bool)
    ensures
        r == (text_of(*a) == text_of(*b)),
{
    match (a, b) {
        (Some(a), Some(b)) => str_eq(a.as_str(), b.as_str()),
        (None, None) => true,
        _ => false,
    }
}

/// An optional string that is present and equal to `value`.
pub fn text_is(s: &Option<String>, value: &str) -> (r: bool)
    ensures
        r == (text_of(*s) == Some(value@)),
{
    match s {
        Some(s) => str_eq(s.as_str(), value),
        None => false,
    }
}

} // verus!
