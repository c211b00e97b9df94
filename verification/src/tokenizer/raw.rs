//! Text that holds no markup comes out as it stands in the source.
use vstd::prelude::*;

use crate::token::{Position, TokenKindModel, TokenModel};
use crate::tokenizer::model::{State, TokenizerModel};
use crate::tokenizer::references::character_at;

verus! {

/// The states in which text is read that holds no markup.
pub open spec fn raw_state(state: State) -> bool {
    match state {
        State::RcData
        | State::RcDataLessThanSign
        | State::RcDataEndTagOpen
        | State::RcDataEndTagName
        | State::RawText
        | State::RawTextLessThanSign
        | State::RawTextEndTagOpen
        | State::RawTextEndTagName
        | State::PlainText
        | State::ScriptData
        | State::ScriptDataLessThanSign
        | State::ScriptDataEndTagOpen
        | State::ScriptDataEndTagName
        | State::ScriptDataEscapeStart
        | State::ScriptDataEscapeStartDash
        | State::ScriptDataEscaped
        | State::ScriptDataEscapedDash
        | State::ScriptDataEscapedDashDash
        | State::ScriptDataEscapedLessThanSign
        | State::ScriptDataEscapedEndTagOpen
        | State::ScriptDataEscapedEndTagName
        | State::ScriptDataDoubleEscapeStart
        | State::ScriptDataDoubleEscaped
        | State::ScriptDataDoubleEscapedDash
        | State::ScriptDataDoubleEscapedDashDash
        | State::ScriptDataDoubleEscapedLessThanSign
        | State::ScriptDataDoubleEscapeEnd => true,
        _ => false,
    }
}

/// What was read of the text and did not come out yet: it may be the beginning of an end
/// tag.
pub open spec fn withheld(t: TokenizerModel) -> Seq<char> {
    match t.state {
        State::RcDataLessThanSign
        | State::RawTextLessThanSign
        | State::ScriptDataLessThanSign
        | State::ScriptDataEscapedLessThanSign => seq!['<'],
        State::RcDataEndTagOpen
        | State::RawTextEndTagOpen
        | State::ScriptDataEndTagOpen
        | State::ScriptDataEscapedEndTagOpen => seq!['<', '/'],
        State::RcDataEndTagName
        | State::RawTextEndTagName
        | State::ScriptDataEndTagName
        | State::ScriptDataEscapedEndTagName => seq!['<', '/'] + t.end_tag_buffer,
        _ => Seq::empty(),
    }
}

/// Nothing of the name of an end tag was read before its first letter.
pub open spec fn ready(t: TokenizerModel) -> bool {
    withheld(t) == seq!['<', '/'] ==> t.end_tag_buffer.len() == 0
}

/// How a character of such a text comes out.
pub open spec fn kept(c: char) -> char {
    if c == '\0' {
        '\u{FFFD}'
    } else {
        c
    }
}

/// What was withheld, and the character that was read since.
pub open spec fn owed(t: TokenizerModel, u: TokenizerModel) -> Seq<char> {
    if u.index == t.index {
        withheld(t)
    } else {
        withheld(t).push(kept(t.chars[t.index]))
    }
}

/// The tokens are followed by the characters of a text.
pub open spec fn adds(before: Seq<TokenModel>, after: Seq<TokenModel>, text: Seq<char>) -> bool {
    &&& after.len() == before.len() + text.len()
    &&& forall|k: int| 0 <= k < before.len() ==> #[trigger] after[k] == before[k]
    &&& forall|k: int|
        0 <= k < text.len() ==> after[before.len() + k].kind == TokenKindModel::Character(
            #[trigger] text[k],
        )
}

/// What comes out and what is still withheld is what was withheld and the character that
/// was read, if one was.
pub open spec fn conserved(t: TokenizerModel, u: TokenizerModel) -> bool {
    &&& u.index == t.index || u.index == t.index + 1
    &&& exists|text: Seq<char>| #[trigger]
        adds(t.pending, u.pending, text) && text + withheld(u) == owed(t, u)
}

proof fn lemma_conserved(t: TokenizerModel, u: TokenizerModel, text: Seq<char>)
    requires
        u.index == t.index || u.index == t.index + 1,
        adds(t.pending, u.pending, text),
        text + withheld(u) =~= owed(t, u),
    ensures
        conserved(t, u),
{
}

/// One character more.
proof fn lemma_emit(t: TokenizerModel, c: char, position: Position)
    ensures
        adds(t.pending, t.emit_character(c, position).pending, seq![c]),
{
    let u = t.emit_character(c, position);
    assert(u.pending == t.pending.push(character_at(c, position)));
    assert(seq![c][0] == c);
}

proof fn lemma_emit_buffer(t: TokenizerModel, text: Seq<char>, at: int)
    ensures
        ({
            let u = t.emit_buffer(text, at);
            &&& u == TokenizerModel { pending: u.pending, ..t }
            &&& adds(t.pending, u.pending, text)
        }),
    decreases text.len(),
{
    if text.len() > 0 {
        let next = t.index_after(at);
        let v = t.emit_character(text[0], t.positions[next]);
        lemma_emit(t, text[0], t.positions[next]);
        assert(seq![text[0]][0] == text[0]);
        let rest = text.drop_first();
        lemma_emit_buffer(v, rest, next);
        let u = v.emit_buffer(rest, next);
        assert forall|k: int| 0 <= k < t.pending.len() implies #[trigger] u.pending[k]
            == t.pending[k] by {
            assert(u.pending[k] == v.pending[k]);
        }
        assert forall|k: int| 0 <= k < text.len() implies u.pending[t.pending.len() + k].kind
            == TokenKindModel::Character(#[trigger] text[k]) by {
            if k > 0 {
                assert(rest[k - 1] == text[k]);
            } else {
                assert(u.pending[t.pending.len() as int] == v.pending[t.pending.len() as int]);
            }
        }
    }
}

/// An end tag that was none.
proof fn lemma_abandoned(t: TokenizerModel, state: State)
    requires
        withheld(t) == seq!['<', '/'] + t.end_tag_buffer,
        0 <= t.index < t.chars.len(),
        withheld(t.goto(state)).len() == 0,
    ensures
        conserved(t, t.consume().abandon_end_tag(t.peek(), state)),
{
    let v = t.consume();
    let a = v.emit_less_than().emit_slash();
    lemma_emit_buffer(a, v.end_tag_buffer, v.slash_index);
    let u = v.abandon_end_tag(t.peek(), state);
    let b = a.emit_buffer(v.end_tag_buffer, v.slash_index);
    let text = seq!['<', '/'] + t.end_tag_buffer;
    assert(u.pending == b.pending);
    assert forall|k: int| 0 <= k < t.pending.len() implies #[trigger] u.pending[k]
        == t.pending[k] by {
        assert(b.pending[k] == a.pending[k]);
    }
    assert forall|k: int| 0 <= k < text.len() implies u.pending[t.pending.len() + k].kind
        == TokenKindModel::Character(#[trigger] text[k]) by {
        if k < 2 {
            assert(b.pending[t.pending.len() + k] == a.pending[t.pending.len() + k]);
        } else {
            assert(text[k] == t.end_tag_buffer[k - 2]);
            assert(b.pending[a.pending.len() + (k - 2)].kind == TokenKindModel::Character(
                v.end_tag_buffer[k - 2],
            ));
        }
    }
    lemma_conserved(t, u, text);
}

proof fn keeps_rc_data(t: TokenizerModel)
    requires
        t.state is RcData,
        0 <= t.index < t.chars.len(),
        ready(t),
        raw_state(t.advance().state),
    ensures
        conserved(t, t.advance()),
        ready(t.advance()),
{
    reveal(TokenizerModel::rcdata_state);
    lemma_emit(t.consume(), t.chars[t.index], t.positions[t.index]);
    let u = t.consume().rcdata_state(t.peek(), t.positions[t.index]);
    assert(t.advance() == u) by {
        reveal(TokenizerModel::step);
    }
    if raw_state(u.state) {
        let total = owed(t, u);
        let text = total.take(total.len() - withheld(u).len());
        assert(adds(t.pending, u.pending, text));
        lemma_conserved(t, u, text);
    }
}

proof fn keeps_rc_data_less_than_sign(t: TokenizerModel)
    requires
        t.state is RcDataLessThanSign,
        0 <= t.index < t.chars.len(),
        ready(t),
        raw_state(t.advance().state),
    ensures
        conserved(t, t.advance()),
        ready(t.advance()),
{
    reveal(TokenizerModel::text_less_than_sign_state);
    lemma_emit(t.consume(), t.chars[t.index], t.positions[t.index]);
    let u = t.consume().text_less_than_sign_state(
        t.peek(),
        t.positions[t.index],
        State::RcDataEndTagOpen,
        State::RcData,
    );
    assert(t.advance() == u) by {
        reveal(TokenizerModel::step);
    }
    if raw_state(u.state) {
        let total = owed(t, u);
        let text = total.take(total.len() - withheld(u).len());
        assert(adds(t.pending, u.pending, text));
        lemma_conserved(t, u, text);
    }
}

proof fn keeps_rc_data_end_tag_open(t: TokenizerModel)
    requires
        t.state is RcDataEndTagOpen,
        0 <= t.index < t.chars.len(),
        ready(t),
        raw_state(t.advance().state),
    ensures
        conserved(t, t.advance()),
        ready(t.advance()),
{
    reveal(TokenizerModel::text_end_tag_open_state);
    lemma_emit(t.consume(), t.chars[t.index], t.positions[t.index]);
    let u = t.consume().text_end_tag_open_state(
        t.peek(),
        t.positions[t.index],
        State::RcDataEndTagName,
        State::RcData,
    );
    assert(t.advance() == u) by {
        reveal(TokenizerModel::step);
    }
    let a = t.consume().emit_less_than();
    lemma_emit(t.consume(), '<', t.current_tag_start);
    lemma_emit(a, '/', t.positions[t.slash_index]);
    if u.state is RcData {
        let text = seq!['<', '/'];
        assert(u.pending == a.emit_slash().pending);
        assert(adds(t.pending, u.pending, text)) by {
            assert(seq!['<'][0] == '<' && seq!['/'][0] == '/');
        }
        lemma_conserved(t, u, text);
    } else {
        assert(adds(t.pending, u.pending, Seq::empty()));
        assert(u.end_tag_buffer =~= Seq::<char>::empty());
        lemma_conserved(t, u, Seq::empty());
    }
}

proof fn keeps_rc_data_end_tag_name(t: TokenizerModel)
    requires
        t.state is RcDataEndTagName,
        0 <= t.index < t.chars.len(),
        ready(t),
        raw_state(t.advance().state),
    ensures
        conserved(t, t.advance()),
        ready(t.advance()),
{
    reveal(TokenizerModel::text_end_tag_name_state);
    lemma_emit(t.consume(), t.chars[t.index], t.positions[t.index]);
    let u = t.consume().text_end_tag_name_state(t.peek(), t.positions[t.index], State::RcData);
    assert(t.advance() == u) by {
        reveal(TokenizerModel::step);
    }
    let c = t.chars[t.index];
    if u == t.consume().abandon_end_tag(t.peek(), State::RcData) {
        lemma_abandoned(t, State::RcData);
    } else if raw_state(u.state) {
        assert(adds(t.pending, u.pending, Seq::empty()));
        assert(Seq::<char>::empty() + withheld(u) =~= owed(t, u));
        lemma_conserved(t, u, Seq::empty());
    }
}

proof fn keeps_raw_text(t: TokenizerModel)
    requires
        t.state is RawText,
        0 <= t.index < t.chars.len(),
        ready(t),
        raw_state(t.advance().state),
    ensures
        conserved(t, t.advance()),
        ready(t.advance()),
{
    reveal(TokenizerModel::raw_text_state);
    lemma_emit(t.consume(), t.chars[t.index], t.positions[t.index]);
    let u = t.consume().raw_text_state(t.peek(), t.positions[t.index], State::RawTextLessThanSign);
    assert(t.advance() == u) by {
        reveal(TokenizerModel::step);
    }
    if raw_state(u.state) {
        let total = owed(t, u);
        let text = total.take(total.len() - withheld(u).len());
        assert(adds(t.pending, u.pending, text));
        lemma_conserved(t, u, text);
    }
}

proof fn keeps_raw_text_less_than_sign(t: TokenizerModel)
    requires
        t.state is RawTextLessThanSign,
        0 <= t.index < t.chars.len(),
        ready(t),
        raw_state(t.advance().state),
    ensures
        conserved(t, t.advance()),
        ready(t.advance()),
{
    reveal(TokenizerModel::text_less_than_sign_state);
    lemma_emit(t.consume(), t.chars[t.index], t.positions[t.index]);
    let u = t.consume().text_less_than_sign_state(
        t.peek(),
        t.positions[t.index],
        State::RawTextEndTagOpen,
        State::RawText,
    );
    assert(t.advance() == u) by {
        reveal(TokenizerModel::step);
    }
    if raw_state(u.state) {
        let total = owed(t, u);
        let text = total.take(total.len() - withheld(u).len());
        assert(adds(t.pending, u.pending, text));
        lemma_conserved(t, u, text);
    }
}

proof fn keeps_raw_text_end_tag_open(t: TokenizerModel)
    requires
        t.state is RawTextEndTagOpen,
        0 <= t.index < t.chars.len(),
        ready(t),
        raw_state(t.advance().state),
    ensures
        conserved(t, t.advance()),
        ready(t.advance()),
{
    reveal(TokenizerModel::text_end_tag_open_state);
    lemma_emit(t.consume(), t.chars[t.index], t.positions[t.index]);
    let u = t.consume().text_end_tag_open_state(
        t.peek(),
        t.positions[t.index],
        State::RawTextEndTagName,
        State::RawText,
    );
    assert(t.advance() == u) by {
        reveal(TokenizerModel::step);
    }
    let a = t.consume().emit_less_than();
    lemma_emit(t.consume(), '<', t.current_tag_start);
    lemma_emit(a, '/', t.positions[t.slash_index]);
    if u.state is RawText {
        let text = seq!['<', '/'];
        assert(u.pending == a.emit_slash().pending);
        assert(adds(t.pending, u.pending, text)) by {
            assert(seq!['<'][0] == '<' && seq!['/'][0] == '/');
        }
        lemma_conserved(t, u, text);
    } else {
        assert(adds(t.pending, u.pending, Seq::empty()));
        assert(u.end_tag_buffer =~= Seq::<char>::empty());
        lemma_conserved(t, u, Seq::empty());
    }
}

proof fn keeps_raw_text_end_tag_name(t: TokenizerModel)
    requires
        t.state is RawTextEndTagName,
        0 <= t.index < t.chars.len(),
        ready(t),
        raw_state(t.advance().state),
    ensures
        conserved(t, t.advance()),
        ready(t.advance()),
{
    reveal(TokenizerModel::text_end_tag_name_state);
    lemma_emit(t.consume(), t.chars[t.index], t.positions[t.index]);
    let u = t.consume().text_end_tag_name_state(t.peek(), t.positions[t.index], State::RawText);
    assert(t.advance() == u) by {
        reveal(TokenizerModel::step);
    }
    let c = t.chars[t.index];
    if u == t.consume().abandon_end_tag(t.peek(), State::RawText) {
        lemma_abandoned(t, State::RawText);
    } else if raw_state(u.state) {
        assert(adds(t.pending, u.pending, Seq::empty()));
        assert(Seq::<char>::empty() + withheld(u) =~= owed(t, u));
        lemma_conserved(t, u, Seq::empty());
    }
}

proof fn keeps_plain_text(t: TokenizerModel)
    requires
        t.state is PlainText,
        0 <= t.index < t.chars.len(),
        ready(t),
        raw_state(t.advance().state),
    ensures
        conserved(t, t.advance()),
        ready(t.advance()),
{
    reveal(TokenizerModel::plain_text_state);
    lemma_emit(t.consume(), t.chars[t.index], t.positions[t.index]);
    let u = t.consume().plain_text_state(t.peek(), t.positions[t.index]);
    assert(t.advance() == u) by {
        reveal(TokenizerModel::step);
    }
    if raw_state(u.state) {
        let total = owed(t, u);
        let text = total.take(total.len() - withheld(u).len());
        assert(adds(t.pending, u.pending, text));
        lemma_conserved(t, u, text);
    }
}

proof fn keeps_script_data(t: TokenizerModel)
    requires
        t.state is ScriptData,
        0 <= t.index < t.chars.len(),
        ready(t),
        raw_state(t.advance().state),
    ensures
        conserved(t, t.advance()),
        ready(t.advance()),
{
    reveal(TokenizerModel::raw_text_state);
    lemma_emit(t.consume(), t.chars[t.index], t.positions[t.index]);
    let u = t.consume().raw_text_state(
        t.peek(),
        t.positions[t.index],
        State::ScriptDataLessThanSign,
    );
    assert(t.advance() == u) by {
        reveal(TokenizerModel::step);
    }
    if raw_state(u.state) {
        let total = owed(t, u);
        let text = total.take(total.len() - withheld(u).len());
        assert(adds(t.pending, u.pending, text));
        lemma_conserved(t, u, text);
    }
}

proof fn keeps_script_data_less_than_sign(t: TokenizerModel)
    requires
        t.state is ScriptDataLessThanSign,
        0 <= t.index < t.chars.len(),
        ready(t),
        raw_state(t.advance().state),
    ensures
        conserved(t, t.advance()),
        ready(t.advance()),
{
    reveal(TokenizerModel::script_data_less_than_sign_state);
    lemma_emit(t.consume(), t.chars[t.index], t.positions[t.index]);
    let u = t.consume().script_data_less_than_sign_state(t.peek(), t.positions[t.index]);
    assert(t.advance() == u) by {
        reveal(TokenizerModel::step);
    }
    if raw_state(u.state) {
        let total = owed(t, u);
        let text = total.take(total.len() - withheld(u).len());
        assert(adds(t.pending, u.pending, text));
        lemma_conserved(t, u, text);
    }
}

proof fn keeps_script_data_end_tag_open(t: TokenizerModel)
    requires
        t.state is ScriptDataEndTagOpen,
        0 <= t.index < t.chars.len(),
        ready(t),
        raw_state(t.advance().state),
    ensures
        conserved(t, t.advance()),
        ready(t.advance()),
{
    reveal(TokenizerModel::text_end_tag_open_state);
    lemma_emit(t.consume(), t.chars[t.index], t.positions[t.index]);
    let u = t.consume().text_end_tag_open_state(
        t.peek(),
        t.positions[t.index],
        State::ScriptDataEndTagName,
        State::ScriptData,
    );
    assert(t.advance() == u) by {
        reveal(TokenizerModel::step);
    }
    let a = t.consume().emit_less_than();
    lemma_emit(t.consume(), '<', t.current_tag_start);
    lemma_emit(a, '/', t.positions[t.slash_index]);
    if u.state is ScriptData {
        let text = seq!['<', '/'];
        assert(u.pending == a.emit_slash().pending);
        assert(adds(t.pending, u.pending, text)) by {
            assert(seq!['<'][0] == '<' && seq!['/'][0] == '/');
        }
        lemma_conserved(t, u, text);
    } else {
        assert(adds(t.pending, u.pending, Seq::empty()));
        assert(u.end_tag_buffer =~= Seq::<char>::empty());
        lemma_conserved(t, u, Seq::empty());
    }
}

proof fn keeps_script_data_end_tag_name(t: TokenizerModel)
    requires
        t.state is ScriptDataEndTagName,
        0 <= t.index < t.chars.len(),
        ready(t),
        raw_state(t.advance().state),
    ensures
        conserved(t, t.advance()),
        ready(t.advance()),
{
    reveal(TokenizerModel::text_end_tag_name_state);
    lemma_emit(t.consume(), t.chars[t.index], t.positions[t.index]);
    let u = t.consume().text_end_tag_name_state(t.peek(), t.positions[t.index], State::ScriptData);
    assert(t.advance() == u) by {
        reveal(TokenizerModel::step);
    }
    let c = t.chars[t.index];
    if u == t.consume().abandon_end_tag(t.peek(), State::ScriptData) {
        lemma_abandoned(t, State::ScriptData);
    } else if raw_state(u.state) {
        assert(adds(t.pending, u.pending, Seq::empty()));
        assert(Seq::<char>::empty() + withheld(u) =~= owed(t, u));
        lemma_conserved(t, u, Seq::empty());
    }
}

proof fn keeps_script_data_escape_start(t: TokenizerModel)
    requires
        t.state is ScriptDataEscapeStart,
        0 <= t.index < t.chars.len(),
        ready(t),
        raw_state(t.advance().state),
    ensures
        conserved(t, t.advance()),
        ready(t.advance()),
{
    reveal(TokenizerModel::script_data_escape_start_state);
    lemma_emit(t.consume(), t.chars[t.index], t.positions[t.index]);
    let u = t.consume().script_data_escape_start_state(
        t.peek(),
        t.positions[t.index],
        State::ScriptDataEscapeStartDash,
    );
    assert(t.advance() == u) by {
        reveal(TokenizerModel::step);
    }
    if raw_state(u.state) {
        let total = owed(t, u);
        let text = total.take(total.len() - withheld(u).len());
        assert(adds(t.pending, u.pending, text));
        lemma_conserved(t, u, text);
    }
}

proof fn keeps_script_data_escape_start_dash(t: TokenizerModel)
    requires
        t.state is ScriptDataEscapeStartDash,
        0 <= t.index < t.chars.len(),
        ready(t),
        raw_state(t.advance().state),
    ensures
        conserved(t, t.advance()),
        ready(t.advance()),
{
    reveal(TokenizerModel::script_data_escape_start_state);
    lemma_emit(t.consume(), t.chars[t.index], t.positions[t.index]);
    let u = t.consume().script_data_escape_start_state(
        t.peek(),
        t.positions[t.index],
        State::ScriptDataEscapedDashDash,
    );
    assert(t.advance() == u) by {
        reveal(TokenizerModel::step);
    }
    if raw_state(u.state) {
        let total = owed(t, u);
        let text = total.take(total.len() - withheld(u).len());
        assert(adds(t.pending, u.pending, text));
        lemma_conserved(t, u, text);
    }
}

proof fn keeps_script_data_escaped(t: TokenizerModel)
    requires
        t.state is ScriptDataEscaped,
        0 <= t.index < t.chars.len(),
        ready(t),
        raw_state(t.advance().state),
    ensures
        conserved(t, t.advance()),
        ready(t.advance()),
{
    reveal(TokenizerModel::script_data_escaped_state);
    lemma_emit(t.consume(), t.chars[t.index], t.positions[t.index]);
    let u = t.consume().script_data_escaped_state(t.peek(), t.positions[t.index]);
    assert(t.advance() == u) by {
        reveal(TokenizerModel::step);
    }
    if raw_state(u.state) {
        let total = owed(t, u);
        let text = total.take(total.len() - withheld(u).len());
        assert(adds(t.pending, u.pending, text));
        lemma_conserved(t, u, text);
    }
}

proof fn keeps_script_data_escaped_dash(t: TokenizerModel)
    requires
        t.state is ScriptDataEscapedDash,
        0 <= t.index < t.chars.len(),
        ready(t),
        raw_state(t.advance().state),
    ensures
        conserved(t, t.advance()),
        ready(t.advance()),
{
    reveal(TokenizerModel::script_data_escaped_dash_state);
    lemma_emit(t.consume(), t.chars[t.index], t.positions[t.index]);
    let u = t.consume().script_data_escaped_dash_state(t.peek(), t.positions[t.index]);
    assert(t.advance() == u) by {
        reveal(TokenizerModel::step);
    }
    if raw_state(u.state) {
        let total = owed(t, u);
        let text = total.take(total.len() - withheld(u).len());
        assert(adds(t.pending, u.pending, text));
        lemma_conserved(t, u, text);
    }
}

proof fn keeps_script_data_escaped_dash_dash(t: TokenizerModel)
    requires
        t.state is ScriptDataEscapedDashDash,
        0 <= t.index < t.chars.len(),
        ready(t),
        raw_state(t.advance().state),
    ensures
        conserved(t, t.advance()),
        ready(t.advance()),
{
    reveal(TokenizerModel::script_data_escaped_dash_dash_state);
    lemma_emit(t.consume(), t.chars[t.index], t.positions[t.index]);
    let u = t.consume().script_data_escaped_dash_dash_state(t.peek(), t.positions[t.index]);
    assert(t.advance() == u) by {
        reveal(TokenizerModel::step);
    }
    if raw_state(u.state) {
        let total = owed(t, u);
        let text = total.take(total.len() - withheld(u).len());
        assert(adds(t.pending, u.pending, text));
        lemma_conserved(t, u, text);
    }
}

proof fn keeps_script_data_escaped_less_than_sign(t: TokenizerModel)
    requires
        t.state is ScriptDataEscapedLessThanSign,
        0 <= t.index < t.chars.len(),
        ready(t),
        raw_state(t.advance().state),
    ensures
        conserved(t, t.advance()),
        ready(t.advance()),
{
    reveal(TokenizerModel::script_data_escaped_less_than_sign_state);
    lemma_emit(t.consume(), t.chars[t.index], t.positions[t.index]);
    let u = t.consume().script_data_escaped_less_than_sign_state(t.peek(), t.positions[t.index]);
    assert(t.advance() == u) by {
        reveal(TokenizerModel::step);
    }
    if raw_state(u.state) {
        let total = owed(t, u);
        let text = total.take(total.len() - withheld(u).len());
        assert(adds(t.pending, u.pending, text));
        lemma_conserved(t, u, text);
    }
}

proof fn keeps_script_data_escaped_end_tag_open(t: TokenizerModel)
    requires
        t.state is ScriptDataEscapedEndTagOpen,
        0 <= t.index < t.chars.len(),
        ready(t),
        raw_state(t.advance().state),
    ensures
        conserved(t, t.advance()),
        ready(t.advance()),
{
    reveal(TokenizerModel::text_end_tag_open_state);
    lemma_emit(t.consume(), t.chars[t.index], t.positions[t.index]);
    let u = t.consume().text_end_tag_open_state(
        t.peek(),
        t.positions[t.index],
        State::ScriptDataEscapedEndTagName,
        State::ScriptDataEscaped,
    );
    assert(t.advance() == u) by {
        reveal(TokenizerModel::step);
    }
    let a = t.consume().emit_less_than();
    lemma_emit(t.consume(), '<', t.current_tag_start);
    lemma_emit(a, '/', t.positions[t.slash_index]);
    if u.state is ScriptDataEscaped {
        let text = seq!['<', '/'];
        assert(u.pending == a.emit_slash().pending);
        assert(adds(t.pending, u.pending, text)) by {
            assert(seq!['<'][0] == '<' && seq!['/'][0] == '/');
        }
        lemma_conserved(t, u, text);
    } else {
        assert(adds(t.pending, u.pending, Seq::empty()));
        assert(u.end_tag_buffer =~= Seq::<char>::empty());
        lemma_conserved(t, u, Seq::empty());
    }
}

proof fn keeps_script_data_escaped_end_tag_name(t: TokenizerModel)
    requires
        t.state is ScriptDataEscapedEndTagName,
        0 <= t.index < t.chars.len(),
        ready(t),
        raw_state(t.advance().state),
    ensures
        conserved(t, t.advance()),
        ready(t.advance()),
{
    reveal(TokenizerModel::text_end_tag_name_state);
    lemma_emit(t.consume(), t.chars[t.index], t.positions[t.index]);
    let u = t.consume().text_end_tag_name_state(
        t.peek(),
        t.positions[t.index],
        State::ScriptDataEscaped,
    );
    assert(t.advance() == u) by {
        reveal(TokenizerModel::step);
    }
    let c = t.chars[t.index];
    if u == t.consume().abandon_end_tag(t.peek(), State::ScriptDataEscaped) {
        lemma_abandoned(t, State::ScriptDataEscaped);
    } else if raw_state(u.state) {
        assert(adds(t.pending, u.pending, Seq::empty()));
        assert(Seq::<char>::empty() + withheld(u) =~= owed(t, u));
        lemma_conserved(t, u, Seq::empty());
    }
}

proof fn keeps_script_data_double_escape_start(t: TokenizerModel)
    requires
        t.state is ScriptDataDoubleEscapeStart,
        0 <= t.index < t.chars.len(),
        ready(t),
        raw_state(t.advance().state),
    ensures
        conserved(t, t.advance()),
        ready(t.advance()),
{
    reveal(TokenizerModel::script_data_double_escape_state);
    lemma_emit(t.consume(), t.chars[t.index], t.positions[t.index]);
    let u = t.consume().script_data_double_escape_state(
        t.peek(),
        t.positions[t.index],
        State::ScriptDataDoubleEscaped,
        State::ScriptDataEscaped,
    );
    assert(t.advance() == u) by {
        reveal(TokenizerModel::step);
    }
    if raw_state(u.state) {
        let total = owed(t, u);
        let text = total.take(total.len() - withheld(u).len());
        assert(adds(t.pending, u.pending, text));
        lemma_conserved(t, u, text);
    }
}

proof fn keeps_script_data_double_escaped(t: TokenizerModel)
    requires
        t.state is ScriptDataDoubleEscaped,
        0 <= t.index < t.chars.len(),
        ready(t),
        raw_state(t.advance().state),
    ensures
        conserved(t, t.advance()),
        ready(t.advance()),
{
    reveal(TokenizerModel::script_data_double_escaped_state);
    lemma_emit(t.consume(), t.chars[t.index], t.positions[t.index]);
    let u = t.consume().script_data_double_escaped_state(t.peek(), t.positions[t.index]);
    assert(t.advance() == u) by {
        reveal(TokenizerModel::step);
    }
    if raw_state(u.state) {
        let total = owed(t, u);
        let text = total.take(total.len() - withheld(u).len());
        assert(adds(t.pending, u.pending, text));
        lemma_conserved(t, u, text);
    }
}

proof fn keeps_script_data_double_escaped_dash(t: TokenizerModel)
    requires
        t.state is ScriptDataDoubleEscapedDash,
        0 <= t.index < t.chars.len(),
        ready(t),
        raw_state(t.advance().state),
    ensures
        conserved(t, t.advance()),
        ready(t.advance()),
{
    reveal(TokenizerModel::script_data_double_escaped_dash_state);
    lemma_emit(t.consume(), t.chars[t.index], t.positions[t.index]);
    let u = t.consume().script_data_double_escaped_dash_state(t.peek(), t.positions[t.index]);
    assert(t.advance() == u) by {
        reveal(TokenizerModel::step);
    }
    if raw_state(u.state) {
        let total = owed(t, u);
        let text = total.take(total.len() - withheld(u).len());
        assert(adds(t.pending, u.pending, text));
        lemma_conserved(t, u, text);
    }
}

proof fn keeps_script_data_double_escaped_dash_dash(t: TokenizerModel)
    requires
        t.state is ScriptDataDoubleEscapedDashDash,
        0 <= t.index < t.chars.len(),
        ready(t),
        raw_state(t.advance().state),
    ensures
        conserved(t, t.advance()),
        ready(t.advance()),
{
    reveal(TokenizerModel::script_data_double_escaped_dash_dash_state);
    lemma_emit(t.consume(), t.chars[t.index], t.positions[t.index]);
    let u = t.consume().script_data_double_escaped_dash_dash_state(t.peek(), t.positions[t.index]);
    assert(t.advance() == u) by {
        reveal(TokenizerModel::step);
    }
    if raw_state(u.state) {
        let total = owed(t, u);
        let text = total.take(total.len() - withheld(u).len());
        assert(adds(t.pending, u.pending, text));
        lemma_conserved(t, u, text);
    }
}

proof fn keeps_script_data_double_escaped_less_than_sign(t: TokenizerModel)
    requires
        t.state is ScriptDataDoubleEscapedLessThanSign,
        0 <= t.index < t.chars.len(),
        ready(t),
        raw_state(t.advance().state),
    ensures
        conserved(t, t.advance()),
        ready(t.advance()),
{
    reveal(TokenizerModel::script_data_double_escaped_less_than_sign_state);
    lemma_emit(t.consume(), t.chars[t.index], t.positions[t.index]);
    let u = t.consume().script_data_double_escaped_less_than_sign_state(
        t.peek(),
        t.positions[t.index],
    );
    assert(t.advance() == u) by {
        reveal(TokenizerModel::step);
    }
    if raw_state(u.state) {
        let total = owed(t, u);
        let text = total.take(total.len() - withheld(u).len());
        assert(adds(t.pending, u.pending, text));
        lemma_conserved(t, u, text);
    }
}

proof fn keeps_script_data_double_escape_end(t: TokenizerModel)
    requires
        t.state is ScriptDataDoubleEscapeEnd,
        0 <= t.index < t.chars.len(),
        ready(t),
        raw_state(t.advance().state),
    ensures
        conserved(t, t.advance()),
        ready(t.advance()),
{
    reveal(TokenizerModel::script_data_double_escape_state);
    lemma_emit(t.consume(), t.chars[t.index], t.positions[t.index]);
    let u = t.consume().script_data_double_escape_state(
        t.peek(),
        t.positions[t.index],
        State::ScriptDataEscaped,
        State::ScriptDataDoubleEscaped,
    );
    assert(t.advance() == u) by {
        reveal(TokenizerModel::step);
    }
    if raw_state(u.state) {
        let total = owed(t, u);
        let text = total.take(total.len() - withheld(u).len());
        assert(adds(t.pending, u.pending, text));
        lemma_conserved(t, u, text);
    }
}

/// Text that holds no markup comes out as it stands in the source: whatever a step does
/// that does not leave the text, what comes out, with what is still withheld, is what was
/// withheld, with the character that was read. Only for a NUL a replacement character
/// stands.
pub proof fn lemma_text_conserved(t: TokenizerModel)
    requires
        raw_state(t.state),
        0 <= t.index < t.chars.len(),
        ready(t),
        raw_state(t.advance().state),
    ensures
        conserved(t, t.advance()),
        ready(t.advance()),
{
    match t.state {
        State::RcData => keeps_rc_data(t),
        State::RcDataLessThanSign => keeps_rc_data_less_than_sign(t),
        State::RcDataEndTagOpen => keeps_rc_data_end_tag_open(t),
        State::RcDataEndTagName => keeps_rc_data_end_tag_name(t),
        State::RawText => keeps_raw_text(t),
        State::RawTextLessThanSign => keeps_raw_text_less_than_sign(t),
        State::RawTextEndTagOpen => keeps_raw_text_end_tag_open(t),
        State::RawTextEndTagName => keeps_raw_text_end_tag_name(t),
        State::PlainText => keeps_plain_text(t),
        State::ScriptData => keeps_script_data(t),
        State::ScriptDataLessThanSign => keeps_script_data_less_than_sign(t),
        State::ScriptDataEndTagOpen => keeps_script_data_end_tag_open(t),
        State::ScriptDataEndTagName => keeps_script_data_end_tag_name(t),
        State::ScriptDataEscapeStart => keeps_script_data_escape_start(t),
        State::ScriptDataEscapeStartDash => keeps_script_data_escape_start_dash(t),
        State::ScriptDataEscaped => keeps_script_data_escaped(t),
        State::ScriptDataEscapedDash => keeps_script_data_escaped_dash(t),
        State::ScriptDataEscapedDashDash => keeps_script_data_escaped_dash_dash(t),
        State::ScriptDataEscapedLessThanSign => keeps_script_data_escaped_less_than_sign(t),
        State::ScriptDataEscapedEndTagOpen => keeps_script_data_escaped_end_tag_open(t),
        State::ScriptDataEscapedEndTagName => keeps_script_data_escaped_end_tag_name(t),
        State::ScriptDataDoubleEscapeStart => keeps_script_data_double_escape_start(t),
        State::ScriptDataDoubleEscaped => keeps_script_data_double_escaped(t),
        State::ScriptDataDoubleEscapedDash => keeps_script_data_double_escaped_dash(t),
        State::ScriptDataDoubleEscapedDashDash => keeps_script_data_double_escaped_dash_dash(t),
        State::ScriptDataDoubleEscapedLessThanSign => {
            keeps_script_data_double_escaped_less_than_sign(t)
        },
        State::ScriptDataDoubleEscapeEnd => keeps_script_data_double_escape_end(t),
        _ => {},
    }
}

} // verus!
