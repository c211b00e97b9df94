//! What becomes of an ampersand after which a name stands.
use vstd::prelude::*;

use crate::entities::{longest_reference, references};
use crate::text::is_ascii_alphanumeric;
use crate::token::{ParseErrorKind, Position, TokenKindModel, TokenModel};
use crate::tokenizer::dispatch::{at_character_reference, at_data, at_rc_data};
use crate::tokenizer::model::{State, TokenizerModel};
use crate::tokenizer::tags::{lemma_last_step, lemma_silent_step, working};

verus! {

/// Where no known name stands after an ampersand, the ampersand alone is flushed,
/// and nothing after it is consumed.
pub proof fn lemma_unknown_name(t: TokenizerModel)
    requires
        t.wf(),
        t.index < t.chars.len(),
        longest_reference(references(t.chars[t.index]), t.chars.skip(t.index)) is None,
    ensures
        t.named_reference() == t.flush_character('&', t.positions[t.reference_start]).goto(
            State::AmbiguousAmpersand,
        ),
        t.named_reference().index == t.index,
{
    assert(t.chars.skip(t.index)[0] == t.chars[t.index]);
}

/// After such an ampersand, ASCII letters and digits are flushed as they stand, one
/// by one. Any other character, or the end of the input, ends the name: nothing is
/// flushed, and the character is read again in the state that the ampersand
/// interrupted. A semicolon is reported.
pub proof fn lemma_rest_of_unknown_name(t: TokenizerModel, ch: Option<char>, position: Position)
    requires
        t.state is AmbiguousAmpersand,
    ensures
        t.step(ch, position) == match ch {
            Some(c) => if is_ascii_alphanumeric(c) {
                t.flush_character(c, position)
            } else if c == ';' {
                t.error(ParseErrorKind::UnknownNamedCharacterReference, position).reconsume(
                    ch,
                    t.return_state,
                )
            } else {
                t.reconsume(ch, t.return_state)
            },
            None => t.reconsume(ch, t.return_state),
        },
{
    reveal(TokenizerModel::step);
    reveal(TokenizerModel::ambiguous_ampersand_state);
}

/// The token for a character.
pub open spec fn character_at(c: char, position: Position) -> TokenModel {
    TokenModel { kind: TokenKindModel::Character(c), position }
}

/// From an index on, the tokens are the characters of a text, all of them at one position.
pub open spec fn spells(
    tokens: Seq<TokenModel>,
    from: nat,
    text: Seq<char>,
    position: Position,
) -> bool {
    &&& tokens.len() == from + text.len()
    &&& forall|k: int|
        0 <= k < text.len() ==> tokens[from + k] == character_at(#[trigger] text[k], position)
}

/// Flushing a text outside of attribute values makes a token of each of its characters, in
/// their order, and changes nothing else.
pub proof fn lemma_flush_text(t: TokenizerModel, text: Seq<char>, position: Position)
    requires
        !t.reference_in_attribute(),
    ensures
        ({
            let u = t.flush_text(text, position);
            &&& u == TokenizerModel { pending: u.pending, ..t }
            &&& spells(u.pending, t.pending.len(), text, position)
            &&& forall|k: int|
                0 <= k < t.pending.len() ==> #[trigger] u.pending[k] == t.pending[k]
        }),
    decreases text.len(),
{
    if text.len() > 0 {
        let u = t.flush_character(text[0], position);
        let rest = text.drop_first();
        lemma_flush_text(u, rest, position);
        let w = u.flush_text(rest, position);
        assert(u.pending == t.pending.push(character_at(text[0], position)));
        assert(w.pending[t.pending.len() as int] == u.pending[t.pending.len() as int]);
        assert forall|k: int| 0 <= k < text.len() implies w.pending[t.pending.len() + k]
            == character_at(#[trigger] text[k], position) by {
            if k > 0 {
                assert(rest[k - 1] == text[k]);
            }
        }
        assert forall|k: int| 0 <= k < t.pending.len() implies #[trigger] w.pending[k]
            == t.pending[k] by {
            assert(u.pending[k] == t.pending[k]);
        }
    }
}

/// Where a known name stands after an ampersand in a text, the next tokens are the
/// characters that the longest such name stands for, in their order, at the place of the
/// ampersand, and the text goes on after the name.
pub proof fn lemma_known_name(t: TokenizerModel, i: int)
    requires
        working(t),
        t.state is Data || t.state is RcData,
        t.index + 1 < t.chars.len(),
        t.chars[t.index] == '&',
        is_ascii_alphanumeric(t.chars[t.index + 1]),
        longest_reference(references(t.chars[t.index + 1]), t.chars.skip(t.index + 1)) == Some(i),
        references(t.chars[t.index + 1])[i].1@.len() > 0,
    ensures
        ({
            let (name, text) = references(t.chars[t.index + 1])[i];
            &&& spells(t.run().pending, 0, text@, t.positions[t.index])
            &&& t.run().state == t.state
            &&& t.run().index == t.index + 1 + name@.len()
            &&& t.next().0 == Some(t.run().pending[0])
        }),
{
    if t.state is Data {
        reveal(TokenizerModel::data_state);
        at_data(t);
    } else {
        reveal(TokenizerModel::rcdata_state);
        at_rc_data(t);
    }
    lemma_silent_step(t);
    let a = t.advance();
    reveal(TokenizerModel::character_reference_state);
    at_character_reference(a);
    lemma_silent_step(a);
    let b = a.advance();
    at_named_character_reference(b);
    let (name, text) = references(t.chars[t.index + 1])[i];
    assert(b.chars.skip(b.index)[0] == b.chars[b.index]);
    let end = TokenizerModel { index: b.index + name@.len(), ..b };
    lemma_flush_text(end, text@, t.positions[t.index]);
    lemma_flush_text(
        end.error(
            ParseErrorKind::MissingSemicolonAfterCharacterReference,
            t.positions[t.index],
        ),
        text@,
        t.positions[t.index],
    );
    lemma_last_step(b);
}

proof fn at_named_character_reference(t: TokenizerModel)
    requires
        t.state is NamedCharacterReference,
        0 <= t.index < t.chars.len(),
    ensures
        t.advance() == t.named_reference(),
{
    reveal(TokenizerModel::step);
    assert(t.consume().unread(t.peek()) == t);
}

} // verus!
