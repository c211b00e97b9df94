//! The whole stream of tokens of a source, and what holds of it.
use vstd::prelude::*;
use vstd::utf8::encode_utf8;

use crate::token::{ParseError, TokenModel};
use crate::tokenizer::model::TokenizerModel;
use crate::tokenizer::order::{lemma_next_in_order, tokens_ascend};
use crate::tokenizer::places::{lemma_next_alike, same_errors, same_tokens};
use crate::tokenizer::run::{lemma_next, lemma_start, start};
use crate::tokenizer::source::{
    lemma_end_of_source, lemma_no_carriage_return, lemma_normalized_places, lemma_normalized_stays,
    lemma_positions_increase, lemma_reads_normalized, normalized, source_chars, start_of_source,
};

verus! {

/// The tokens still to come, and the tokenizer after the last of them, when it is
/// told nothing meanwhile.
pub open spec fn stream(t: TokenizerModel) -> (Seq<TokenModel>, TokenizerModel)
    decreases t.phase(), t.remaining(), t.pending.len(),
    when t.inv()
    via stream_comes_to_an_end
{
    match t.next() {
        (None, last) => (Seq::empty(), last),
        (Some(token), next) => {
            let (tokens, last) = stream(next);
            (seq![token] + tokens, last)
        },
    }
}

#[via_fn]
proof fn stream_comes_to_an_end(t: TokenizerModel) {
    lemma_next(t);
}

/// The tokens of a source.
pub open spec fn tokens_of(source: Seq<char>) -> Seq<TokenModel> {
    stream(start(source)).0
}

/// The errors that the tokenizer finds in a source.
pub open spec fn tokenizer_errors_of(source: Seq<char>) -> Seq<ParseError> {
    stream(start(source)).1.errors
}

proof fn alike_stream(t: TokenizerModel, u: TokenizerModel)
    requires
        t.alike(u),
        t.inv(),
        u.inv(),
    ensures
        same_tokens(stream(t).0, stream(u).0),
        stream(t).1.alike(stream(u).1),
    decreases t.phase(), t.remaining(), t.pending.len(),
{
    lemma_next(t);
    lemma_next(u);
    lemma_next_alike(t, u);
    match (t.next(), u.next()) {
        ((Some(a), next), (Some(b), there)) => {
            alike_stream(next, there);
            let x = stream(next).0;
            let y = stream(there).0;
            assert(stream(t).0 == seq![a] + x);
            assert(stream(u).0 == seq![b] + y);
            assert forall|i: int| 0 <= i < x.len() + 1 implies (#[trigger] (seq![a] + x)[i]).kind
                == (seq![b] + y)[i].kind by {
                if i > 0 {
                    assert(x[i - 1].kind == y[i - 1].kind);
                }
            }
        },
        _ => {},
    }
}

/// How its line breaks are written does not matter to a source: with each of
/// them written as one line feed it gives tokens of the same kinds, on the same
/// lines and in the same columns, and errors of the same kinds at the same
/// places, in the same order. Only byte offsets may differ.
pub proof fn lemma_line_breaks(source: Seq<char>)
    ensures
        same_tokens(tokens_of(source), tokens_of(normalized(source))),
        same_errors(tokenizer_errors_of(source), tokenizer_errors_of(normalized(source))),
{
    let text = normalized(source);
    let place = start_of_source();
    assert(source.skip(0) == source);
    assert(text.skip(0) == text);
    lemma_reads_normalized(source, place);
    lemma_reads_normalized(text, place);
    lemma_no_carriage_return(source, place);
    lemma_normalized_stays(text);
    lemma_normalized_places(source, text, place, place);
    assert(source_chars(source) == source_chars(text));
    lemma_start(source);
    lemma_start(text);
    alike_stream(start(source), start(text));
}

proof fn lemma_stream_ends(t: TokenizerModel)
    requires
        t.inv(),
    ensures
        !t.eof_returned ==> {
            &&& stream(t).0.len() > 0
            &&& stream(t).0.last().kind is Eof
            &&& forall|i: int|
                0 <= i < stream(t).0.len() - 1 ==> !((#[trigger] stream(t).0[i]).kind is Eof)
        },
        t.eof_returned ==> stream(t).0.len() == 0,
        stream(t).1.inv(),
        stream(t).1.next() == (None::<TokenModel>, stream(t).1),
    decreases t.phase(), t.remaining(), t.pending.len(),
{
    lemma_next(t);
    match t.next() {
        (Some(token), next) => {
            lemma_stream_ends(next);
            let rest = stream(next).0;
            assert(stream(t).0 == seq![token] + rest);
            assert forall|i: int| 0 <= i < stream(t).0.len() - 1 implies !((
            #[trigger] stream(t).0[i]).kind is Eof) by {
                if i > 0 {
                    assert(stream(t).0[i] == rest[i - 1]);
                }
            }
            if rest.len() > 0 {
                assert(stream(t).0.last() == rest.last());
            }
        },
        (None, _) => {},
    }
}

/// Every source gives finitely many tokens. Exactly one of them is an end-of-file
/// token, and it is the last; after it the tokenizer gives out nothing.
pub proof fn lemma_one_end_of_file(source: Seq<char>)
    ensures
        tokens_of(source).len() > 0,
        tokens_of(source).last().kind is Eof,
        forall|i: int|
            0 <= i < tokens_of(source).len() - 1 ==> !((#[trigger] tokens_of(source)[i]).kind
                is Eof),
        stream(start(source)).1.next() == (None::<TokenModel>, stream(start(source)).1),
{
    lemma_start(source);
    lemma_stream_ends(start(source));
}

proof fn lemma_stream_in_order(t: TokenizerModel, low: int)
    requires
        t.inv(),
        t.in_order(low),
    ensures
        tokens_ascend(stream(t).0, low),
        forall|i: int|
            0 <= i < stream(t).0.len() && (#[trigger] stream(t).0[i]).kind is Eof ==> stream(
                t,
            ).0[i].position == t.positions[t.chars.len() as int],
    decreases t.phase(), t.remaining(), t.pending.len(),
{
    lemma_next(t);
    lemma_next_in_order(t, low);
    match t.next() {
        (Some(token), next) => {
            lemma_stream_in_order(next, token.position.byte_offset as int);
            let rest = stream(next).0;
            let all = stream(t).0;
            assert(all == seq![token] + rest);
            assert forall|i: int| 0 <= i < all.len() implies #[trigger] all[i] == (if i > 0 {
                rest[i - 1]
            } else {
                token
            }) by {}
        },
        (None, _) => {},
    }
}

/// Tokens come out in the order in which they start: no byte offset is smaller
/// than the one before it. The offset of the end-of-file token, which is the last
/// one, is the length of the source in bytes.
pub proof fn lemma_offsets(source: Seq<char>)
    requires
        encode_utf8(source).len() <= usize::MAX,
    ensures
        tokens_ascend(tokens_of(source), 0),
        tokens_of(source).last().kind is Eof,
        tokens_of(source).last().position.byte_offset == encode_utf8(source).len(),
{
    let t = start(source);
    let place = start_of_source();
    assert(source.skip(0) == source);
    lemma_start(source);
    lemma_end_of_source(source, place);
    assert forall|i: int, j: int| 0 <= i <= j < t.positions.len() implies (
    #[trigger] t.positions[i]).byte_offset <= (#[trigger] t.positions[j]).byte_offset by {
        if i < j {
            lemma_positions_increase(source, place, i, j);
        }
    }
    lemma_stream_in_order(t, 0);
    lemma_one_end_of_file(source);
}

} // verus!
