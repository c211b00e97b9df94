//! Running the tokenizer: from the input to the stream of tokens.
use std::collections::VecDeque;

use vstd::prelude::*;

use crate::token::{token_models, ParseError, Position, Token, TokenKind, TokenModel};
use crate::tokenizer::machine::Tokenizer;
use crate::tokenizer::model::{
    eof_only_last, AttributeValueTarget, ExternalState, State, TokenizerModel,
};
use crate::tokenizer::progress::lemma_step;
use crate::tokenizer::source::{
    countable, lemma_source_lengths, read_source, source_chars, source_positions, start_of_source,
};

verus! {

/// The state that tree construction asks for.
pub open spec fn content_state(state: ExternalState) -> State {
    match state {
        ExternalState::RcData => State::RcData,
        ExternalState::RawText => State::RawText,
        ExternalState::ScriptData => State::ScriptData,
        ExternalState::PlainText => State::PlainText,
    }
}

/// The tokenizer before it has read anything of a source.
pub open spec fn start(source: Seq<char>) -> TokenizerModel {
    let origin = Position { line: 1, column: 1, byte_offset: 0 };
    TokenizerModel {
        chars: source_chars(source),
        positions: source_positions(source),
        index: 0,
        state: State::Data,
        current_tag: None,
        current_tag_is_end: false,
        current_tag_start: origin,
        slash_index: 0,
        current_attribute_name: Seq::empty(),
        attribute_value_target: AttributeValueTarget::Discarded,
        return_state: State::Data,
        reference_start: 0,
        reference_code: 0,
        current_comment: Seq::empty(),
        current_doctype: None,
        target_buffer: Seq::empty(),
        current_instruction: None,
        last_start_tag_name: None,
        end_tag_buffer: Seq::empty(),
        in_foreign_content: false,
        pending_brackets: Seq::empty(),
        pending: Seq::empty(),
        eof_returned: false,
        errors: Seq::empty(),
    }
}

impl TokenizerModel {
    /// What holds of the tokenizer at all times: its indices lie in the input,
    /// a waiting end-of-file token is the last one waiting, and nothing waits
    /// once it has been given out.
    pub open spec fn inv(self) -> bool {
        &&& self.wf()
        &&& self.returns_to_text()
        &&& eof_only_last(self.pending)
        &&& self.eof_returned ==> self.pending.len() == 0
    }

    /// Steps until a token is waiting.
    pub open spec fn run(self) -> Self
        decreases self.remaining(),
    {
        if self.pending.len() > 0 {
            self
        } else {
            let next = self.advance();
            if next.pending.len() == 0 && 0 <= next.remaining() < self.remaining() {
                next.run()
            } else {
                next
            }
        }
    }

    /// Takes the first waiting token.
    pub open spec fn take_token(self) -> Self {
        TokenizerModel {
            pending: self.pending.drop_first(),
            eof_returned: self.eof_returned || self.pending[0].kind is Eof,
            ..self
        }
    }

    /// The next token, and the tokenizer after it was taken.
    pub open spec fn next(self) -> (Option<TokenModel>, Self) {
        if self.pending.len() == 0 && self.eof_returned {
            (None, self)
        } else {
            let ready = self.run();
            if ready.pending.len() == 0 {
                (None, ready)
            } else {
                (Some(ready.pending[0]), ready.take_token())
            }
        }
    }

    /// How far the tokenizer is: at work, with the end of the file waiting, or
    /// done.
    pub open spec fn phase(self) -> int {
        if self.eof_returned {
            0
        } else if self.ends_waiting() {
            1
        } else {
            2
        }
    }

    /// `next` is nearer to the end of the stream of tokens.
    pub open spec fn nearer_to_end(self, next: Self) -> bool {
        ||| next.phase() < self.phase()
        ||| next.phase() == self.phase() && next.remaining() < self.remaining()
        ||| next.phase() == self.phase() && next.remaining() == self.remaining()
            && next.pending.len() < self.pending.len()
    }

    /// The tokenizer with the state that tree construction asks for.
    pub open spec fn switch_to(self, state: ExternalState) -> Self {
        self.goto(content_state(state))
    }

    pub open spec fn set_in_foreign_content(self, in_foreign_content: bool) -> Self {
        TokenizerModel { in_foreign_content, ..self }
    }
}

/// A step from a state of the tokenizer with nothing waiting.
proof fn lemma_advance(t: TokenizerModel)
    requires
        t.inv(),
        t.pending.len() == 0,
    ensures
        t.advance().wf(),
        t.advance().returns_to_text(),
        t.advance().chars == t.chars,
        t.advance().positions == t.positions,
        t.advance().eof_returned == t.eof_returned,
        eof_only_last(t.advance().pending),
        0 <= t.advance().remaining(),
        t.advance().remaining() < t.remaining() || t.advance().ends_waiting(),
{
    let read = t.consume();
    lemma_step(read, t.peek(), t.positions[t.index]);
}

/// Running the tokenizer always makes a token available.
pub proof fn lemma_run(t: TokenizerModel)
    requires
        t.inv(),
        !t.eof_returned,
    ensures
        t.run().inv(),
        t.run().pending.len() > 0,
        t.run().eof_returned == t.eof_returned,
        t.run().chars == t.chars,
        t.run().positions == t.positions,
        t.pending.len() > 0 ==> t.run() == t,
        t.pending.len() == 0 ==> t.run().remaining() < t.remaining() || t.run().ends_waiting(),
    decreases t.remaining(),
{
    if t.pending.len() == 0 {
        lemma_advance(t);
        let next = t.advance();
        if next.pending.len() == 0 {
            lemma_run(next);
        }
    }
}

/// The tokenizer gives out a token as long as it has not given out the end of
/// the file, and nothing after that; and every token brings it nearer to the
/// end.
pub proof fn lemma_next(t: TokenizerModel)
    requires
        t.inv(),
    ensures
        t.next().1.inv(),
        t.next().0 is None <==> t.eof_returned,
        t.next().0 is None ==> t.next().1 == t,
        t.next().0 is Some ==> t.nearer_to_end(t.next().1) && t.next().1.eof_returned == (
        t.next().0->0.kind is Eof),
        t.next().1.chars == t.chars,
        t.next().1.positions == t.positions,
{
    if !t.eof_returned {
        lemma_run(t);
        let ready = t.run();
        let after = ready.take_token();
        assert(eof_only_last(after.pending)) by {
            assert forall|i: int| 0 <= i < after.pending.len() - 1 implies !((
            #[trigger] after.pending[i]).kind is Eof) by {
                assert(after.pending[i] == ready.pending[i + 1]);
            }
        }
        if ready.pending.len() > 1 {
            assert(!(ready.pending[0].kind is Eof));
            assert(after.pending.last() == ready.pending.last());
        }
    }
}

/// Exactly one end-of-file token comes out, and it is the last token: after it
/// the tokenizer gives out nothing, however often it is asked.
pub proof fn lemma_eof_is_last(t: TokenizerModel)
    requires
        t.inv(),
        t.next().0 matches Some(token) && token.kind is Eof,
    ensures
        t.next().1.next() == (None::<TokenModel>, t.next().1),
{
    lemma_next(t);
    lemma_next(t.next().1);
}

/// Switching states and setting the foreign-content flag keep what holds of the
/// tokenizer and do not take it further from the end.
pub proof fn lemma_feedback(t: TokenizerModel, state: ExternalState, in_foreign_content: bool)
    requires
        t.inv(),
    ensures
        t.switch_to(state).inv(),
        t.switch_to(state).phase() == t.phase(),
        t.switch_to(state).remaining() <= t.remaining(),
        t.set_in_foreign_content(in_foreign_content).inv(),
        t.set_in_foreign_content(in_foreign_content).phase() == t.phase(),
        t.set_in_foreign_content(in_foreign_content).remaining() == t.remaining(),
{
}

/// What a new tokenizer starts from holds together.
pub proof fn lemma_start(source: Seq<char>)
    ensures
        start(source).inv(),
{
    lemma_source_lengths(source, start_of_source());
}

impl Tokenizer {
    /// A tokenizer for `input`, at its beginning. Line breaks are normalized:
    /// a carriage return, with a line feed after it or not, is read as one
    /// line feed. Positions count in the input as it is.
    pub fn new(input: &str) -> (r: Self)
        requires
            countable(input@),
        ensures
            r@ == start(input@),
            r@.inv(),
    {
        let (chars, positions) = read_source(input);
        let origin = Position { line: 1, column: 1, byte_offset: 0 };
        let r = Tokenizer {
            chars,
            positions,
            index: 0,
            state: State::Data,
            current_tag: None,
            current_tag_is_end: false,
            current_tag_start: origin,
            slash_index: 0,
            current_attribute_name: String::new(),
            attribute_value_target: AttributeValueTarget::Discarded,
            return_state: State::Data,
            reference_start: 0,
            reference_code: 0,
            current_comment: String::new(),
            current_doctype: None,
            target_buffer: String::new(),
            current_instruction: None,
            last_start_tag_name: None,
            end_tag_buffer: String::new(),
            in_foreign_content: false,
            pending_brackets: Vec::new(),
            pending: VecDeque::new(),
            eof_returned: false,
            errors: Vec::new(),
        };
        proof {
            assert(token_models(r.pending@) == Seq::<TokenModel>::empty());
            lemma_start(input@);
        }
        r
    }

    /// Takes the parse errors recorded so far, in the order in which they were
    /// met.
    pub fn take_errors(&mut self) -> (r: Vec<ParseError>)
        ensures
            r@ == old(self)@.errors,
            final(self)@ == (TokenizerModel { errors: Seq::empty(), ..old(self)@ }),
    {
        let mut errors: Vec<ParseError> = Vec::new();
        std::mem::swap(&mut errors, &mut self.errors);
        errors
    }

    /// Switches to the state that tree construction asks for, after the element
    /// that calls for it was inserted.
    pub fn switch_to(&mut self, state: ExternalState)
        ensures
            final(self)@ == old(self)@.switch_to(state),
    {
        self.state = match state {
            ExternalState::RcData => State::RcData,
            ExternalState::RawText => State::RawText,
            ExternalState::ScriptData => State::ScriptData,
            ExternalState::PlainText => State::PlainText,
        };
    }

    /// Tells the tokenizer whether the current node is in a foreign namespace.
    pub fn set_in_foreign_content(&mut self, in_foreign_content: bool)
        ensures
            final(self)@ == old(self)@.set_in_foreign_content(in_foreign_content),
    {
        self.in_foreign_content = in_foreign_content;
    }

    /// Steps until a token is waiting.
    fn run_until_token(&mut self)
        requires
            old(self)@.inv(),
            !old(self)@.eof_returned,
        ensures
            final(self)@ == old(self)@.run(),
            final(self)@.inv(),
            final(self)@.pending.len() > 0,
    {
        while self.pending.len() == 0
            invariant
                self@.inv(),
                !self@.eof_returned,
                self@.run() == old(self)@.run(),
            decreases self@.remaining(),
        {
            let ghost before = self@;
            proof {
                lemma_advance(before);
                lemma_run(before);
            }
            let position = self.positions[self.index];
            let ch = if self.index < self.chars.len() {
                Some(self.chars[self.index])
            } else {
                None
            };
            self.consume();
            self.step(ch, position);
            assert(self@ == before.advance());
            if self.pending.len() > 0 {
                return;
            }
        }
    }

    /// The next token, or nothing after the end-of-file token.
    pub fn next(&mut self) -> (r: Option<Token>)
        requires
            old(self)@.inv(),
        ensures
            final(self)@ == old(self)@.next().1,
            final(self)@.inv(),
            match r {
                Some(token) => old(self)@.next().0 == Some(token@),
                None => old(self)@.next().0 is None,
            },
    {
        proof {
            lemma_next(old(self)@);
        }
        if self.pending.len() == 0 && self.eof_returned {
            return None;
        }
        self.run_until_token();
        let ghost ready = self@;
        let ghost waiting = self.pending@;
        match self.pending.pop_front() {
            Some(token) => {
                if matches!(token.kind, TokenKind::Eof) {
                    self.eof_returned = true;
                }
                proof {
                    assert(ready.pending[0] == waiting[0]@);
                    assert(token_models(self.pending@) == ready.pending.drop_first());
                    assert(self@ == ready.take_token());
                }
                Some(token)
            },
            None => None,
        }
    }
}

} // verus!
