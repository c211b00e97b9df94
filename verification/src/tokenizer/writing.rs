//! Text and comments that are written down are read back.
use vstd::prelude::*;

use crate::token::{Position, TokenKindModel, TokenModel};
use crate::tokenizer::dispatch::{
    at_cdata_section, at_comment, at_comment_end, at_comment_end_dash, at_comment_less_than_sign,
    at_comment_start, at_comment_start_dash, at_data, at_markup_declaration_open, at_plain_text,
    at_raw_text, at_rc_data, at_tag_open, lemma_reads, reading, reads,
};
use crate::tokenizer::model::{State, TokenizerModel};
use crate::tokenizer::tags::{
    ahead, lemma_ahead_rest, lemma_ahead_split, lemma_silent_step, working,
};

verus! {

// ---- Text ----

/// A character that stands for itself where text is read in that state.
pub open spec fn text_char(state: State, c: char) -> bool {
    match state {
        State::Data | State::RcData => c != '&' && c != '<' && c != '\0',
        State::RawText | State::ScriptData => c != '<' && c != '\0',
        State::PlainText => c != '\0',
        State::CdataSection => c != ']',
        _ => false,
    }
}

/// What comes out for one character.
proof fn lemma_emitted(t: TokenizerModel, c: char, position: Position)
    requires
        t.pending.len() == 0,
    ensures
        t.emit_character(c, position).pending == seq![
            TokenModel { kind: TokenKindModel::Character(c), position },
        ],
{
    let token = TokenModel { kind: TokenKindModel::Character(c), position };
    assert(t.emit_character(c, position).pending == t.pending.push(token));
    assert(t.pending.push(token) =~= seq![token]);
}

/// A character of a text is the next token, at its own place.
pub proof fn lemma_character_is_read(t: TokenizerModel)
    requires
        working(t),
        t.index < t.chars.len(),
        text_char(t.state, t.chars[t.index]),
    ensures
        reads(
            t,
            TokenKindModel::Character(t.chars[t.index]),
            t.index,
            t.state,
            t.index + 1,
        ),
{
    let kind = TokenKindModel::Character(t.chars[t.index]);
    assert(t.advance() == t.consume().emit_character(t.chars[t.index], t.positions[t.index])) by {
        match t.state {
            State::Data => {
                reveal(TokenizerModel::data_state);
                at_data(t);
            },
            State::RcData => {
                reveal(TokenizerModel::rcdata_state);
                at_rc_data(t);
            },
            State::PlainText => {
                reveal(TokenizerModel::plain_text_state);
                at_plain_text(t);
            },
            State::CdataSection => {
                reveal(TokenizerModel::cdata_section_state);
                at_cdata_section(t);
            },
            _ => {
                reveal(TokenizerModel::raw_text_state);
                at_raw_text(t);
            },
        }
    }
    lemma_emitted(t.consume(), t.chars[t.index], t.positions[t.index]);
    lemma_reads(t, t, kind, t.index, t.state);
}

/// The tokenizer after `n` tokens.
pub open spec fn later(t: TokenizerModel, n: nat) -> TokenizerModel
    decreases n,
{
    if n == 0 {
        t
    } else {
        later(t.next().1, (n - 1) as nat)
    }
}

/// A text is read character by character: the tokens are its characters in their order,
/// each at its own place, and nothing else.
pub proof fn lemma_text_is_read(t: TokenizerModel, text: Seq<char>)
    requires
        working(t),
        ahead(t.chars, t.index, text),
        forall|k: int| 0 <= k < text.len() ==> text_char(t.state, #[trigger] text[k]),
    ensures
        forall|k: int|
            0 <= k < text.len() ==> (#[trigger] later(t, k as nat)).next().0 == Some(
                TokenModel {
                    kind: TokenKindModel::Character(text[k]),
                    position: t.positions[t.index + k],
                },
            ),
        working(later(t, text.len())),
        later(t, text.len()).index == t.index + text.len(),
        later(t, text.len()).state == t.state,
    decreases text.len(),
{
    if text.len() > 0 {
        lemma_ahead_rest(t.chars, t.index, text);
        lemma_character_is_read(t);
        let u = t.next().1;
        let rest = text.drop_first();
        assert forall|k: int| 0 <= k < rest.len() implies text_char(
            u.state,
            #[trigger] rest[k],
        ) by {
            assert(rest[k] == text[k + 1]);
        }
        lemma_text_is_read(u, rest);
        assert forall|k: int| 0 <= k < text.len() implies (#[trigger] later(t, k as nat)).next().0
            == Some(
            TokenModel {
                kind: TokenKindModel::Character(text[k]),
                position: t.positions[t.index + k],
            },
        ) by {
            if k > 0 {
                assert(later(t, k as nat) == later(u, (k - 1) as nat));
                assert(rest[k - 1] == text[k]);
            } else {
                assert(later(t, 0) == t);
            }
        }
        assert(later(t, text.len()) == later(u, rest.len()));
    } else {
        assert(later(t, 0) == t);
    }
}

// ---- Comments ----

/// A text that can stand in a comment as it is.
pub open spec fn comment_data(data: Seq<char>) -> bool {
    &&& forall|i: int| 0 <= i < data.len() ==> #[trigger] data[i] != '\0'
    &&& data.len() > 0 ==> data[0] != '>' && data[0] != '-' && data.last() != '-'
    &&& forall|i: int|
        0 <= i < data.len() - 1 ==> !(#[trigger] data[i] == '-' && data[i + 1] == '-') && !(data[i]
            == '<' && data[i + 1] == '!')
}

/// The characters of a comment that were read: a dash that may belong to its end counts.
spec fn comment_so_far(t: TokenizerModel) -> Seq<char> {
    if t.state is CommentEndDash {
        t.current_comment.push('-')
    } else {
        t.current_comment
    }
}

spec fn in_comment(t: TokenizerModel, base: TokenizerModel) -> bool {
    &&& reading(t, base)
    &&& t.state is Comment || t.state is CommentLessThanSign || t.state is CommentEndDash
}

/// What may come next after the last character of a comment.
spec fn goes_on(t: TokenizerModel, c: char) -> bool {
    &&& c != '\0'
    &&& t.state is CommentEndDash ==> c != '-'
    &&& t.state is CommentLessThanSign ==> c != '!'
}

/// From the place after a `<` or a dash to the same place among ordinary text.
proof fn read_on(t: TokenizerModel, base: TokenizerModel) -> (u: TokenizerModel)
    requires
        in_comment(t, base),
        t.index < t.chars.len(),
        goes_on(t, t.chars[t.index]),
        t.state is CommentLessThanSign ==> t.chars[t.index] != '<',
    ensures
        in_comment(u, base),
        u.state is Comment,
        u.index == t.index,
        u.current_comment == comment_so_far(t),
{
    if t.state is Comment {
        t
    } else {
        if t.state is CommentLessThanSign {
            reveal(TokenizerModel::comment_less_than_sign_state);
            at_comment_less_than_sign(t);
        } else {
            reveal(TokenizerModel::comment_end_dash_state);
            at_comment_end_dash(t);
        }
        lemma_silent_step(t);
        t.advance()
    }
}

proof fn read_comment_char(t: TokenizerModel, base: TokenizerModel) -> (u: TokenizerModel)
    requires
        in_comment(t, base),
        t.index < t.chars.len(),
        goes_on(t, t.chars[t.index]),
    ensures
        in_comment(u, base),
        u.index == t.index + 1,
        comment_so_far(u) == comment_so_far(t).push(t.chars[t.index]),
        u.state is CommentEndDash <==> t.chars[t.index] == '-',
        u.state is CommentLessThanSign <==> t.chars[t.index] == '<',
{
    if t.state is CommentLessThanSign && t.chars[t.index] == '<' {
        reveal(TokenizerModel::comment_less_than_sign_state);
        at_comment_less_than_sign(t);
        lemma_silent_step(t);
        t.advance()
    } else {
        let v = read_on(t, base);
        reveal(TokenizerModel::comment_state);
        at_comment(v);
        lemma_silent_step(v);
        v.advance()
    }
}

proof fn read_comment(t: TokenizerModel, base: TokenizerModel, data: Seq<char>) -> (u:
    TokenizerModel)
    requires
        in_comment(t, base),
        ahead(t.chars, t.index, data),
        data.len() > 0 ==> goes_on(t, data[0]),
        forall|i: int| 0 <= i < data.len() ==> #[trigger] data[i] != '\0',
        forall|i: int|
            0 <= i < data.len() - 1 ==> !(#[trigger] data[i] == '-' && data[i + 1] == '-') && !(
            data[i] == '<' && data[i + 1] == '!'),
    ensures
        in_comment(u, base),
        u.index == t.index + data.len(),
        comment_so_far(u) == comment_so_far(t) + data,
        data.len() > 0 ==> (u.state is CommentEndDash <==> data.last() == '-'),
        data.len() == 0 ==> u == t,
    decreases data.len(),
{
    if data.len() == 0 {
        assert(comment_so_far(t) + data == comment_so_far(t));
        t
    } else {
        lemma_ahead_rest(t.chars, t.index, data);
        let v = read_comment_char(t, base);
        let rest = data.drop_first();
        if rest.len() > 0 {
            assert(rest[0] == data[1]);
            assert(data[0] != '-' || data[1] != '-');
            assert(data[1] != '\0');
        }
        assert forall|i: int| 0 <= i < rest.len() implies #[trigger] rest[i] != '\0' by {
            assert(rest[i] == data[i + 1]);
        }
        assert forall|i: int| 0 <= i < rest.len() - 1 implies !(#[trigger] rest[i] == '-' && rest[i
            + 1] == '-') && !(rest[i] == '<' && rest[i + 1] == '!') by {
            assert(rest[i] == data[i + 1]);
            assert(rest[i + 1] == data[i + 1 + 1]);
        }
        let u = read_comment(v, base, rest);
        assert(comment_so_far(t).push(data[0]) + rest == comment_so_far(t) + data);
        u
    }
}

/// The start of a piece of markup, up to its third character.
pub proof fn read_declaration(t: TokenizerModel) -> (u: TokenizerModel)
    requires
        working(t),
        t.state is Data,
        ahead(t.chars, t.index, seq!['<', '!']),
    ensures
        reading(u, u),
        u.run() == t.run(),
        u.chars == t.chars,
        u.positions == t.positions,
        u.current_tag_start == t.positions[t.index],
        u.state is MarkupDeclarationOpen,
        u.index == t.index + 2,
{
    reveal(TokenizerModel::data_state);
    reveal(TokenizerModel::tag_open_state);
    let text = seq!['<', '!'];
    assert(t.chars[t.index + 0] == text[0]);
    assert(t.chars[t.index + 1] == text[1]);
    at_data(t);
    lemma_silent_step(t);
    let a = t.advance();
    at_tag_open(a);
    lemma_silent_step(a);
    a.advance()
}

/// A comment in the source is the next token, from the place of its `<` on, with the text
/// that stands between `<!--` and `-->`.
pub proof fn lemma_comment_is_read(t: TokenizerModel, data: Seq<char>)
    requires
        working(t),
        t.state is Data,
        comment_data(data),
        ahead(t.chars, t.index, seq!['<', '!', '-', '-'] + data + seq!['-', '-', '>']),
    ensures
        reads(t, TokenKindModel::Comment(data), t.index, State::Data, t.index + data.len() + 7),
{
    let chars = t.chars;
    let i = t.index;
    let opening = seq!['<', '!'];
    let dashes = seq!['-', '-'];
    let closing = seq!['-', '-', '>'];
    assert(seq!['<', '!', '-', '-'] + data + closing == opening + (dashes + (data + closing)));
    lemma_ahead_split(chars, i, opening, dashes + (data + closing));
    lemma_ahead_split(chars, i + 2, dashes, data + closing);
    lemma_ahead_split(chars, i + 4, data, closing);
    let j = i + 4 + data.len();
    assert(chars[j + 0] == closing[0]);
    assert(chars[j + 1] == closing[1]);
    assert(chars[j + 2] == closing[2]);
    let a = read_declaration(t);
    let b = read_comment_start(a);
    let end = if data.len() == 0 {
        read_no_comment(b, a)
    } else {
        assert(chars[i + 4 + 0] == data[0]);
        let c = read_first(b, a);
        let e = read_comment(c, a, data);
        assert(Seq::<char>::empty() + data == data);
        assert(comment_so_far(c) == Seq::<char>::empty());
        read_comment_end(e, a)
    };
    assert(end.current_comment =~= data);
    assert(end.state is CommentEnd && end.index == j + 2);
    let kind = TokenKindModel::Comment(data);
    reveal(TokenizerModel::comment_end_state);
    at_comment_end(end);
    assert(end.advance().pending =~= seq![TokenModel { kind, position: t.positions[i] }]);
    lemma_reads(t, end, kind, i, State::Data);
}

/// A comment with text in it.
proof fn read_first(t: TokenizerModel, base: TokenizerModel) -> (u: TokenizerModel)
    requires
        reading(t, base),
        t.state is CommentStart,
        t.index < t.chars.len(),
        t.chars[t.index] != '-',
        t.chars[t.index] != '>',
    ensures
        in_comment(u, base),
        u.state is Comment,
        u.index == t.index,
        u.current_comment == t.current_comment,
{
    reveal(TokenizerModel::comment_start_state);
    at_comment_start(t);
    lemma_silent_step(t);
    t.advance()
}

/// A comment with nothing in it.
proof fn read_no_comment(t: TokenizerModel, base: TokenizerModel) -> (u: TokenizerModel)
    requires
        reading(t, base),
        t.state is CommentStart,
        t.index + 2 <= t.chars.len(),
        t.chars[t.index] == '-',
        t.chars[t.index + 1] == '-',
    ensures
        reading(u, base),
        u.state is CommentEnd,
        u.index == t.index + 2,
        u.current_comment == t.current_comment,
{
    reveal(TokenizerModel::comment_start_state);
    reveal(TokenizerModel::comment_start_dash_state);
    at_comment_start(t);
    lemma_silent_step(t);
    let a = t.advance();
    at_comment_start_dash(a);
    lemma_silent_step(a);
    a.advance()
}

proof fn read_comment_start(t: TokenizerModel) -> (u: TokenizerModel)
    requires
        reading(t, t),
        t.state is MarkupDeclarationOpen,
        ahead(t.chars, t.index, seq!['-', '-']),
    ensures
        reading(u, t),
        u.state is CommentStart,
        u.index == t.index + 2,
        u.current_comment.len() == 0,
{
    at_markup_declaration_open(t);
    reveal_strlit("--");
    let dashes = seq!['-', '-'];
    assert(t.chars[t.index + 0] == dashes[0]);
    assert(t.chars[t.index + 1] == dashes[1]);
    assert(t.chars.subrange(t.index, t.index + 2) =~= "--"@);
    assert(t.looking_at(t.index, "--"@));
    lemma_silent_step(t);
    t.advance()
}

/// The two dashes after the text of a comment.
proof fn read_comment_end(t: TokenizerModel, base: TokenizerModel) -> (u: TokenizerModel)
    requires
        in_comment(t, base),
        !(t.state is CommentEndDash),
        t.index + 2 <= t.chars.len(),
        t.chars[t.index] == '-',
        t.chars[t.index + 1] == '-',
    ensures
        reading(u, base),
        u.state is CommentEnd,
        u.index == t.index + 2,
        u.current_comment == t.current_comment,
{
    let a = read_on(t, base);
    reveal(TokenizerModel::comment_state);
    reveal(TokenizerModel::comment_end_dash_state);
    at_comment(a);
    lemma_silent_step(a);
    let b = a.advance();
    at_comment_end_dash(b);
    lemma_silent_step(b);
    b.advance()
}

} // verus!
