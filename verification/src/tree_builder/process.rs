//! Handling one token from start to end.
use vstd::prelude::*;

use crate::document::arena::Document;
use crate::token::{ParseError, ParseErrorKind, Position, TokenKind, TokenKindModel};
use crate::tokenizer::model::ExternalState;
use crate::tree_builder::builder::TreeBuilder;
use crate::tree_builder::model::{BuilderModel, TokenOutcome};
use crate::tree_builder::progress::{phase, rank};

verus! {

impl BuilderModel {
    /// The token is used up after finitely many steps: each one that does not
    /// use it up makes the measure smaller.
    pub open spec fn settles(self, kind: TokenKindModel) -> bool
        decreases
                phase(self.insertion_mode, kind),
                self.open_tables(),
                self.open_elements.len() + rank(self.insertion_mode, kind),
    {
        match self.step(kind) {
            (_, TokenOutcome::Consumed(_)) => true,
            (next, TokenOutcome::Reprocess) => self.advances(next, kind) && next.settles(kind),
        }
    }

    /// The steps for a token, until it is used up. Also tells the state that the
    /// tokenizer has to switch to.
    pub open spec fn run(self, kind: TokenKindModel) -> (Self, Option<ExternalState>)
        decreases
                phase(self.insertion_mode, kind),
                self.open_tables(),
                self.open_elements.len() + rank(self.insertion_mode, kind),
    {
        match self.step(kind) {
            (next, TokenOutcome::Consumed(state)) => (next, state),
            (next, TokenOutcome::Reprocess) => if self.advances(next, kind) {
                next.run(kind)
            } else {
                (next, None)
            },
        }
    }

    /// What holds at the start of a token. Only the token just after a start tag
    /// can be the line feed that the start tag makes disappear.
    pub open spec fn begin_token(self, position: Position) -> Self {
        BuilderModel {
            token_position: position,
            self_closing_acknowledged: false,
            skip_next_line_feed: false,
            ..self
        }
    }

    /// A token was a start tag with a self-closing flag that means nothing.
    pub open spec fn flag_unacknowledged(self, kind: TokenKindModel) -> bool {
        kind matches TokenKindModel::StartTag(tag) && tag.self_closing
            && !self.self_closing_acknowledged
    }

    /// Handles a token. Also tells the state that the tokenizer has to switch to.
    #[verifier::opaque]
    pub open spec fn process(
        self,
        kind: TokenKindModel,
        position: Position,
    ) -> (Self, Option<ExternalState>) {
        if self.drops_line_feed(kind) {
            (self.begin_token(position), None)
        } else {
            let (t, state) = self.begin_token(position).run(kind);
            if t.flag_unacknowledged(kind) {
                (t.error(ParseErrorKind::NonVoidHtmlElementStartTagWithTrailingSolidus), state)
            } else {
                (t, state)
            }
        }
    }

    /// Everything that is still open is closed.
    pub open spec fn stop(self) -> Self {
        self.pop_to(0)
    }
}

/// A line feed that comes right after the start tag that makes it disappear changes
/// nothing, and the next one is kept. To any other token it makes no difference that
/// such a start tag came before it.
pub proof fn lemma_dropped_line_feed(t: BuilderModel, kind: TokenKindModel, position: Position)
    ensures
        t.drops_line_feed(kind) ==> t.process(kind, position) == (
            t.begin_token(position),
            None::<ExternalState>,
        ),
        !t.drops_line_feed(kind) ==> t.process(kind, position) == t.set_skip_next_line_feed(
            false,
        ).process(kind, position),
        !t.begin_token(position).drops_line_feed(kind),
{
    reveal(BuilderModel::process);
}

impl TreeBuilder {
    /// One step for a token: the rules for foreign content, or those of the
    /// insertion mode.
    fn step(&mut self, kind: &TokenKind) -> (r: TokenOutcome)
        requires
            old(self).wf(),
        ensures
            final(self).wf(),
            (final(self)@, r) == old(self)@.step(kind@),
            r is Reprocess ==> old(self)@.advances(final(self)@, kind@),
    {
        if self.should_process_as_foreign_content(kind) {
            self.process_token_foreign_content(kind)
        } else {
            self.by_mode(kind)
        }
    }

    /// The steps for a token, until it is used up.
    fn run(&mut self, kind: &TokenKind) -> (r: Option<ExternalState>)
        requires
            old(self).wf(),
        ensures
            final(self).wf(),
            (final(self)@, r) == old(self)@.run(kind@),
            old(self)@.settles(kind@),
        decreases
                phase(old(self)@.insertion_mode, kind@),
                old(self)@.open_tables(),
                old(self)@.open_elements.len() + rank(old(self)@.insertion_mode, kind@),
    {
        match self.step(kind) {
            TokenOutcome::Consumed(state) => state,
            TokenOutcome::Reprocess => self.run(kind),
        }
    }

    /// Handles a token; tells the state that the tokenizer has to switch to, if
    /// any.
    pub fn process_token(&mut self, kind: &TokenKind, position: Position) -> (r: Option<
        ExternalState,
    >)
        requires
            old(self).wf(),
        ensures
            final(self).wf(),
            (final(self)@, r) == old(self)@.process(kind@, position),
            old(self)@.drops_line_feed(kind@) || old(self)@.begin_token(position).settles(kind@),
    {
        proof {
            reveal(BuilderModel::process);
            reveal(TreeBuilder::wf);
            reveal(BuilderModel::sound);
        }
        let dropped = self.drops_line_feed(kind);
        self.token_position = position;
        self.self_closing_acknowledged = false;
        self.skip_next_line_feed = false;
        if dropped {
            return None;
        }
        let state = self.run(kind);
        if let TokenKind::StartTag(tag) = kind {
            if tag.self_closing && !self.self_closing_acknowledged {
                self.error(ParseErrorKind::NonVoidHtmlElementStartTagWithTrailingSolidus);
            }
        }
        state
    }

    /// Handles a token by the rules before the `html` element.
    pub fn process_token_before_html(&mut self, kind: &TokenKind, position: Position) -> (r:
        TokenOutcome)
        requires
            old(self).wf(),
        ensures
            final(self).wf(),
            (final(self)@, r) == old(self)@.at(position).before_html(kind@),
    {
        self.at(position);
        self.before_html(kind)
    }

    /// Handles a token by the rules before the `head` element.
    pub fn process_token_before_head(&mut self, kind: &TokenKind, position: Position) -> (r:
        TokenOutcome)
        requires
            old(self).wf(),
        ensures
            final(self).wf(),
            (final(self)@, r) == old(self)@.at(position).before_head(kind@),
    {
        self.at(position);
        self.before_head(kind)
    }

    /// Handles a token by the rules between the `head` and the `body` element.
    pub fn process_token_after_head(&mut self, kind: &TokenKind, position: Position) -> (r:
        TokenOutcome)
        requires
            old(self).wf(),
        ensures
            final(self).wf(),
            (final(self)@, r) == old(self)@.at(position).after_head(kind@),
    {
        self.at(position);
        self.after_head(kind)
    }

    /// Closes everything that is still open.
    pub fn stop_parsing(&mut self)
        requires
            old(self).wf(),
        ensures
            final(self).wf(),
            final(self)@ == old(self)@.stop(),
            final(self)@.open_elements.len() == 0,
    {
        self.pop_to(0);
    }

    /// Hands over the errors found so far.
    pub fn take_errors(&mut self) -> (r: Vec<ParseError>)
        requires
            old(self).wf(),
        ensures
            final(self).wf(),
            r@ == old(self)@.errors,
            final(self)@ == (BuilderModel { errors: Seq::empty(), ..old(self)@ }),
    {
        proof {
            reveal(TreeBuilder::wf);
            reveal(BuilderModel::sound);
        }
        let mut errors: Vec<ParseError> = Vec::new();
        std::mem::swap(&mut errors, &mut self.errors);
        errors
    }

    /// Hands over the document.
    pub fn into_document(self) -> (r: Document)
        requires
            self.wf(),
        ensures
            r.wf(),
            r@ == self@.document,
    {
        proof {
            reveal(TreeBuilder::wf);
        }
        self.document
    }
}

} // verus!
