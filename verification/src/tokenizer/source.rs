//! The source text as the tokenizer reads it: line breaks normalized, every
//! character with its position.
use vstd::prelude::*;
use vstd::utf8::{encode_scalar, encode_utf8};

use crate::token::Position;
use crate::tokenizer::places::{same_place, same_places};

verus! {

/// A place of the source while it is read: the next character of the text, its
/// line and column (both from one) and its byte offset.
pub struct Place {
    pub index: int,
    pub line: int,
    pub column: int,
    pub byte: int,
}

/// The place where the source starts.
pub open spec fn start_of_source() -> Place {
    Place { index: 0, line: 1, column: 1, byte: 0 }
}

/// The number of bytes of a character in UTF-8.
pub open spec fn utf8_length(c: char) -> int {
    if (c as u32) < 0x80 {
        1
    } else if (c as u32) < 0x800 {
        2
    } else if (c as u32) < 0x10000 {
        3
    } else {
        4
    }
}

/// A carriage return is read as a line feed.
pub open spec fn read_as(c: char) -> char {
    if c == '\r' {
        '\n'
    } else {
        c
    }
}

/// The line feed after a carriage return is part of the same line break.
pub open spec fn skips_line_feed(s: Seq<char>, i: int) -> bool {
    s[i] == '\r' && i + 1 < s.len() && s[i + 1] == '\n'
}

impl Place {
    /// The place after the character, or the two-character line break, that
    /// stands here.
    pub open spec fn after(self, s: Seq<char>) -> Place {
        let skip = skips_line_feed(s, self.index);
        let index = self.index + if skip {
            2int
        } else {
            1
        };
        let byte = self.byte + utf8_length(s[self.index]) + if skip {
            1int
        } else {
            0
        };
        if read_as(s[self.index]) == '\n' {
            Place { index, line: self.line + 1, column: 1, byte }
        } else {
            Place { index, line: self.line, column: self.column + 1, byte }
        }
    }

    pub open spec fn position(self) -> Position {
        Position {
            line: self.line as u32,
            column: self.column as u32,
            byte_offset: self.byte as usize,
        }
    }
}

/// The characters read from `place` on.
pub open spec fn chars_from(s: Seq<char>, place: Place) -> Seq<char>
    decreases s.len() - place.index,
{
    if place.index < 0 || place.index >= s.len() {
        Seq::empty()
    } else {
        seq![read_as(s[place.index])] + chars_from(s, place.after(s))
    }
}

/// The positions of those characters, and of the end of the source.
pub open spec fn positions_from(s: Seq<char>, place: Place) -> Seq<Position>
    decreases s.len() - place.index,
{
    if place.index < 0 || place.index >= s.len() {
        seq![place.position()]
    } else {
        seq![place.position()] + positions_from(s, place.after(s))
    }
}

/// No line and no column from `place` on is too large to be counted.
pub open spec fn countable_from(s: Seq<char>, place: Place) -> bool
    decreases s.len() - place.index,
{
    &&& place.line <= u32::MAX
    &&& place.column <= u32::MAX
    &&& 0 <= place.index < s.len() ==> countable_from(s, place.after(s))
}

/// No line and no column of the source is too large to be counted. A source
/// with fewer characters than the largest number is always countable.
pub open spec fn countable(s: Seq<char>) -> bool {
    s.len() < u32::MAX || countable_from(s, start_of_source())
}

/// The characters that the tokenizer reads.
pub open spec fn source_chars(s: Seq<char>) -> Seq<char> {
    chars_from(s, start_of_source())
}

/// Where each of them starts, and where the source ends.
pub open spec fn source_positions(s: Seq<char>) -> Seq<Position> {
    positions_from(s, start_of_source())
}

proof fn lemma_short_is_countable(s: Seq<char>, place: Place)
    requires
        0 <= place.index <= s.len() < u32::MAX,
        place.line <= place.index + 1,
        place.column <= place.index + 1,
    ensures
        countable_from(s, place),
    decreases s.len() - place.index,
{
    if place.index < s.len() {
        lemma_short_is_countable(s, place.after(s));
    }
}

proof fn lemma_utf8_length(c: char)
    ensures
        encode_scalar(c as u32).len() == utf8_length(c),
{
    vstd::utf8::char_is_scalar(c);
}

/// The byte length of a text is that of its first character and that of the
/// rest.
proof fn lemma_bytes_split(s: Seq<char>, i: int)
    requires
        0 <= i < s.len(),
    ensures
        encode_utf8(s.skip(i)).len() == utf8_length(s[i]) + encode_utf8(s.skip(i + 1)).len(),
{
    assert(s.skip(i).drop_first() == s.skip(i + 1));
    lemma_utf8_length(s[i]);
}

/// The number of bytes of a character in UTF-8.
fn utf8_length_of(c: char) -> (r: usize)
    ensures
        r == utf8_length(c),
{
    let code: u32 = c as u32;
    if code < 0x80 {
        1
    } else if code < 0x800 {
        2
    } else if code < 0x10000 {
        3
    } else {
        4
    }
}

/// Reads the source: its characters with line breaks normalized, and their
/// positions.
pub fn read_source(input: &str) -> (r: (Vec<char>, Vec<Position>))
    requires
        countable(input@),
    ensures
        r.0@ == source_chars(input@),
        r.1@ == source_positions(input@),
{
    let source = crate::text::chars_of(input);
    let total: usize = input.as_bytes().len();
    let ghost s = input@;
    let mut chars: Vec<char> = Vec::new();
    let mut positions: Vec<Position> = Vec::new();
    let mut i: usize = 0;
    let mut line: u32 = 1;
    let mut column: u32 = 1;
    let mut byte: usize = 0;
    let ghost mut place = start_of_source();
    proof {
        if s.len() < u32::MAX {
            lemma_short_is_countable(s, place);
        }
        assert(s.skip(0) == s);
    }
    while i < source.len()
        invariant
            source@ == s,
            0 <= i <= s.len(),
            place.index == i,
            place.line == line,
            place.column == column,
            place.byte == byte,
            countable_from(s, place),
            total == encode_utf8(s).len(),
            byte + encode_utf8(s.skip(i as int)).len() == total,
            chars@ + chars_from(s, place) == source_chars(s),
            positions@ + positions_from(s, place) == source_positions(s),
        decreases s.len() - i,
    {
        let c = source[i];
        let ghost before = place;
        proof {
            lemma_bytes_split(s, i as int);
            if skips_line_feed(s, i as int) {
                lemma_bytes_split(s, i + 1);
            }
            assert(countable_from(s, place.after(s)));
            assert(chars_from(s, place) == seq![read_as(c)] + chars_from(s, place.after(s)));
            assert(positions_from(s, place) == seq![place.position()] + positions_from(
                s,
                place.after(s),
            ));
        }
        let skip = c == '\r' && i + 1 < source.len() && source[i + 1] == '\n';
        let emitted = if c == '\r' {
            '\n'
        } else {
            c
        };
        positions.push(Position { line, column, byte_offset: byte });
        chars.push(emitted);
        assert(chars@ + chars_from(s, before.after(s)) == source_chars(s));
        assert(positions@ + positions_from(s, before.after(s)) == source_positions(s));
        byte = byte + utf8_length_of(c);
        if skip {
            byte = byte + 1;
            i = i + 2;
        } else {
            i = i + 1;
        }
        if emitted == '\n' {
            line = line + 1;
            column = 1;
        } else {
            column = column + 1;
        }
        proof {
            place = before.after(s);
        }
    }
    positions.push(Position { line, column, byte_offset: total });
    proof {
        assert(s.skip(i as int) == Seq::<char>::empty());
        assert(encode_utf8(s.skip(i as int)).len() == 0);
        assert(chars@ == source_chars(s));
        assert(positions@ == source_positions(s));
    }
    (chars, positions)
}

/// There is one more position than there are characters.
pub proof fn lemma_source_lengths(s: Seq<char>, place: Place)
    requires
        0 <= place.index,
    ensures
        positions_from(s, place).len() == chars_from(s, place).len() + 1,
    decreases s.len() - place.index,
{
    if place.index < s.len() {
        lemma_source_lengths(s, place.after(s));
    }
}

/// The tokenizer never reads a carriage return.
pub proof fn lemma_no_carriage_return(s: Seq<char>, place: Place)
    requires
        0 <= place.index,
    ensures
        !chars_from(s, place).contains('\r'),
    decreases s.len() - place.index,
{
    if place.index < s.len() {
        lemma_no_carriage_return(s, place.after(s));
        let rest = chars_from(s, place.after(s));
        assert forall|i: int| 0 <= i < chars_from(s, place).len() implies chars_from(s, place)[i]
            != '\r' by {
            if i > 0 {
                assert(chars_from(s, place)[i] == rest[i - 1]);
                assert(rest.contains(rest[i - 1]));
            }
        }
    }
}

/// Later positions have larger byte offsets: positions are in source order.
pub proof fn lemma_positions_increase(s: Seq<char>, place: Place, i: int, j: int)
    requires
        0 <= place.index <= s.len(),
        0 <= place.byte,
        place.byte + encode_utf8(s.skip(place.index)).len() <= usize::MAX,
        0 <= i < j < positions_from(s, place).len(),
    ensures
        positions_from(s, place)[i].byte_offset < positions_from(s, place)[j].byte_offset,
        positions_from(s, place)[i].byte_offset >= place.byte,
    decreases s.len() - place.index,
{
    if place.index < s.len() {
        let next = place.after(s);
        lemma_bytes_split(s, place.index);
        if skips_line_feed(s, place.index) {
            lemma_bytes_split(s, place.index + 1);
        }
        let rest = positions_from(s, next);
        assert(positions_from(s, place) == seq![place.position()] + rest);
        if i > 0 {
            lemma_positions_increase(s, next, i - 1, j - 1);
        } else if j - 1 > 0 {
            lemma_positions_increase(s, next, 0, j - 1);
        } else {
            assert(rest[0] == next.position());
        }
    }
}

/// The text with every line break as one line feed: a carriage return, with the
/// line feed after it if there is one, becomes a line feed.
pub open spec fn normalized(s: Seq<char>) -> Seq<char>
    decreases s.len(),
{
    if s.len() == 0 {
        Seq::empty()
    } else if skips_line_feed(s, 0) {
        seq!['\n'] + normalized(s.skip(2))
    } else {
        seq![read_as(s[0])] + normalized(s.skip(1))
    }
}

/// The tokenizer reads a source as its normalized text.
pub proof fn lemma_reads_normalized(s: Seq<char>, place: Place)
    requires
        0 <= place.index <= s.len(),
    ensures
        chars_from(s, place) == normalized(s.skip(place.index)),
    decreases s.len() - place.index,
{
    if place.index < s.len() {
        let next = place.after(s);
        let rest = s.skip(place.index);
        lemma_reads_normalized(s, next);
        assert(rest.skip(next.index - place.index) == s.skip(next.index));
        assert(skips_line_feed(rest, 0) == skips_line_feed(s, place.index));
    }
}

/// A text without a carriage return is normalized already.
pub proof fn lemma_normalized_stays(s: Seq<char>)
    requires
        !s.contains('\r'),
    ensures
        normalized(s) == s,
    decreases s.len(),
{
    if s.len() > 0 {
        let rest = s.skip(1);
        assert(s.contains(s[0]));
        assert forall|i: int| 0 <= i < rest.len() implies rest[i] != '\r' by {
            assert(s.contains(s[i + 1]));
        }
        lemma_normalized_stays(rest);
        assert(seq![s[0]] + rest == s);
    }
}

/// A source and its normalized text are read on the same lines and in the same
/// columns.
pub proof fn lemma_normalized_places(s: Seq<char>, n: Seq<char>, place: Place, other: Place)
    requires
        0 <= place.index <= s.len(),
        0 <= other.index <= n.len(),
        n.skip(other.index) == normalized(s.skip(place.index)),
        !n.contains('\r'),
        place.line == other.line,
        place.column == other.column,
    ensures
        same_places(positions_from(s, place), positions_from(n, other)),
    decreases s.len() - place.index,
{
    let rest = s.skip(place.index);
    let text = n.skip(other.index);
    if place.index < s.len() {
        let next = place.after(s);
        let there = other.after(n);
        assert(skips_line_feed(rest, 0) == skips_line_feed(s, place.index));
        assert(rest.skip(next.index - place.index) == s.skip(next.index));
        let tail = normalized(s.skip(next.index));
        assert(text == seq![read_as(s[place.index])] + tail);
        assert(text.len() > 0);
        assert(n[other.index] == text[0]);
        assert(n.contains(n[other.index]));
        assert(n.skip(there.index) == text.skip(1));
        assert(text.skip(1) == tail);
        lemma_normalized_places(s, n, next, there);
        let a = positions_from(s, next);
        let b = positions_from(n, there);
        assert(positions_from(s, place) == seq![place.position()] + a);
        assert(positions_from(n, other) == seq![other.position()] + b);
        assert forall|i: int| 0 <= i < a.len() + 1 implies same_place(
            #[trigger] (seq![place.position()] + a)[i],
            (seq![other.position()] + b)[i],
        ) by {
            if i > 0 {
                assert(same_place(a[i - 1], b[i - 1]));
            }
        }
    } else {
        assert(rest.len() == 0);
        assert(text.len() == 0);
    }
}

/// The source is as many bytes long as the position of its end says.
pub proof fn lemma_end_of_source(s: Seq<char>, place: Place)
    requires
        0 <= place.index <= s.len(),
        0 <= place.byte,
        place.byte + encode_utf8(s.skip(place.index)).len() <= usize::MAX,
    ensures
        positions_from(s, place).last().byte_offset == place.byte + encode_utf8(
            s.skip(place.index),
        ).len(),
    decreases s.len() - place.index,
{
    if place.index < s.len() {
        let next = place.after(s);
        lemma_bytes_split(s, place.index);
        if skips_line_feed(s, place.index) {
            lemma_bytes_split(s, place.index + 1);
        }
        lemma_end_of_source(s, next);
        lemma_source_lengths(s, next);
    } else {
        assert(s.skip(place.index) == Seq::<char>::empty());
        assert(encode_utf8(s.skip(place.index)).len() == 0);
    }
}

} // verus!
