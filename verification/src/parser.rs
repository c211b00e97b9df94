//! Driving the tokenizer and the tree builder: from the source text to a
//! document.
use vstd::prelude::*;

use crate::document::arena::Document;
use crate::document::model::{DocumentModel, NodeId};
use crate::errors::{in_document_order, lemma_document_order_permutes, merge_errors};
use crate::token::ParseError;
use crate::tokenizer::machine::Tokenizer;
use crate::tokenizer::marks::{
    errors_placed, lemma_feedback_keeps_marks, lemma_next_marked, lemma_start_marked, places_of,
    Places,
};
use crate::tokenizer::model::{ExternalState, TokenizerModel};
use crate::tokenizer::run::{lemma_feedback, lemma_next, start};
use crate::tokenizer::source::{countable, lemma_source_lengths, start_of_source};
use crate::tree_builder::builder::{new_builder, TreeBuilder};
use crate::tree_builder::completeness::{
    lemma_new_builder_held, lemma_process_keeps_structure, lemma_stop_keeps_complete,
};
use crate::tree_builder::elements::one_document_node;
use crate::tree_builder::model::BuilderModel;
use crate::tree_builder::origins_rules::{
    all_written, lemma_all_written, lemma_new_builder_recorded, lemma_process_traced,
};
use crate::tree_builder::placement::{node_placed, placed_in};
use crate::tree_builder::placement_rules::{
    keeps_places_stop, lemma_new_builder_placed, lemma_process_keeps_places,
};
use crate::tree_builder::structure::complete;

verus! {

/// What [`parse`] returns: the document, which is always complete, and every
/// point where the source departs from the grammar, in document order.
#[derive(Debug)]
pub struct ParseResult {
    pub document: Document,
    pub errors: Vec<ParseError>,
}

/// What the tree builder tells the tokenizer after a token: the state to switch
/// to, if any, and whether it is in foreign content.
pub open spec fn told(
    tokenizer: TokenizerModel,
    state: Option<ExternalState>,
    in_foreign_content: bool,
) -> TokenizerModel {
    let switched = match state {
        Some(state) => tokenizer.switch_to(state),
        None => tokenizer,
    };
    switched.set_in_foreign_content(in_foreign_content)
}

/// Both stages after the tree builder has handled every token that is left.
pub open spec fn drive(tokenizer: TokenizerModel, builder: BuilderModel) -> (
    TokenizerModel,
    BuilderModel,
)
    decreases tokenizer.phase(), tokenizer.remaining(), tokenizer.pending.len(),
    when tokenizer.inv()
    via drive_comes_to_an_end
{
    match tokenizer.next() {
        (None, last) => (last, builder),
        (Some(token), next) => {
            let (built, state) = builder.process(token.kind, token.position);
            drive(told(next, state, built.in_foreign_content()), built)
        },
    }
}

#[via_fn]
proof fn drive_comes_to_an_end(tokenizer: TokenizerModel, builder: BuilderModel) {
    lemma_next(tokenizer);
    match tokenizer.next() {
        (None, _) => {},
        (Some(token), next) => {
            let (built, state) = builder.process(token.kind, token.position);
            lemma_told(tokenizer, next, state, built.in_foreign_content());
        },
    }
}

/// Telling the tokenizer something takes it no further from the end.
proof fn lemma_told(
    before: TokenizerModel,
    next: TokenizerModel,
    state: Option<ExternalState>,
    in_foreign_content: bool,
)
    requires
        next.inv(),
        before.nearer_to_end(next),
    ensures
        told(next, state, in_foreign_content).inv(),
        before.nearer_to_end(told(next, state, in_foreign_content)),
        0 <= told(next, state, in_foreign_content).remaining(),
        told(next, state, in_foreign_content).eof_returned == next.eof_returned,
{
    match state {
        Some(state) => {
            lemma_feedback(next, state, in_foreign_content);
            lemma_feedback(next.switch_to(state), state, in_foreign_content);
        },
        None => {
            lemma_feedback(next, ExternalState::RcData, in_foreign_content);
        },
    }
}

/// Telling the tokenizer something keeps everything at its place.
proof fn lemma_told_marked(
    next: TokenizerModel,
    places: Places,
    state: Option<ExternalState>,
    in_foreign_content: bool,
)
    requires
        next.marked(places),
    ensures
        told(next, state, in_foreign_content).marked(places),
{
    match state {
        Some(state) => {
            lemma_feedback_keeps_marks(next, places, state, in_foreign_content);
            lemma_feedback_keeps_marks(next.switch_to(state), places, state, in_foreign_content);
        },
        None => {
            lemma_feedback_keeps_marks(next, places, ExternalState::RcData, in_foreign_content);
        },
    }
}

/// What is in place in a tree builder is in place in its document.
proof fn lemma_placed(builder: BuilderModel, places: Places)
    requires
        builder.placed(places, false),
        one_document_node(builder.document),
        builder.document.has(builder.document.root),
    ensures
        placed_in(builder.document, places),
        errors_placed(places, builder.errors),
{
    reveal(BuilderModel::placed);
    let d = builder.document;
    assert forall|id: NodeId| d.has(id) implies node_placed(#[trigger] d.node(id), places) by {
        assert(node_placed(d.nodes[id.index as int], places));
    }
    assert(node_placed(d.node(d.root), places));
}

/// Putting errors into document order moves none of them to another place.
proof fn lemma_order_keeps_places(
    all: Seq<ParseError>,
    sorted: Seq<ParseError>,
    places: Places,
)
    requires
        in_document_order(all, sorted),
        errors_placed(places, all),
    ensures
        errors_placed(places, sorted),
{
    broadcast use vstd::seq_lib::group_to_multiset_ensures;

    lemma_document_order_permutes(all, sorted);
    assert forall|i: int| 0 <= i < sorted.len() implies places.holds(
        (#[trigger] sorted[i]).position,
    ) by {
        assert(sorted.contains(sorted[i]));
        assert(sorted.to_multiset().count(sorted[i]) > 0);
        assert(all.contains(sorted[i]));
    }
}

/// Both stages at the end of a source.
#[verifier::opaque]
pub open spec fn finished(source: Seq<char>) -> (TokenizerModel, BuilderModel) {
    let (tokenizer, builder) = drive(start(source), new_builder());
    (tokenizer, builder.stop())
}

/// The document that a source stands for.
pub open spec fn document_of(source: Seq<char>) -> DocumentModel {
    finished(source).1.document
}

/// The errors in a source: first those of the tokenizer, then those of the tree
/// builder, each in the order it found them in.
pub open spec fn errors_of(source: Seq<char>) -> Seq<ParseError> {
    finished(source).0.errors + finished(source).1.errors
}

/// Parses a source text into a document. This never fails: the document is
/// complete however many errors the source has.
pub fn parse(input: &str) -> (r: ParseResult)
    requires
        countable(input@),
    ensures
        r.document.wf(),
        one_document_node(r.document@),
        r.document@ == document_of(input@),
        complete(r.document@),
        placed_in(r.document@, places_of(input@)),
        all_written(r.document@),
        errors_placed(places_of(input@), r.errors@),
        in_document_order(errors_of(input@), r.errors@),
{
    proof {
        reveal(finished);
    }
    let mut tokenizer = Tokenizer::new(input);
    let mut builder = TreeBuilder::new();
    let ghost result = drive(tokenizer@, builder@);
    let ghost places = places_of(input@);
    proof {
        lemma_start_marked(input@);
        lemma_source_lengths(input@, start_of_source());
        assert(places.positions[0] == builder@.token_position);
        lemma_new_builder_placed(places);
        lemma_new_builder_held();
        lemma_new_builder_recorded();
    }
    loop
        invariant_except_break
            tokenizer@.inv(),
            builder.wf(),
            drive(tokenizer@, builder@) == result,
        invariant
            tokenizer@.chars == places.chars,
            tokenizer@.positions == places.positions,
            tokenizer@.marked(places),
            builder@.placed(places, false),
            builder@.held(),
            builder@.recorded(),
            tokenizer@.eof_returned && builder@.small() ==> complete(builder@.document),
        ensures
            builder.wf(),
            tokenizer@.eof_returned,
            (tokenizer@, builder@) == result,
        decreases tokenizer@.phase(), tokenizer@.remaining(), tokenizer@.pending.len(),
    {
        let ghost before = tokenizer@;
        proof {
            lemma_next(before);
            lemma_next_marked(before, places);
        }
        match tokenizer.next() {
            Some(token) => {
                let ghost next = tokenizer@;
                let ghost handled = builder@;
                let state = builder.process_token(&token.kind, token.position);
                let in_foreign_content = builder.is_in_foreign_content();
                proof {
                    lemma_told(before, next, state, in_foreign_content);
                    lemma_told_marked(next, places, state, in_foreign_content);
                    lemma_process_keeps_places(handled, token@.kind, token@.position, places);
                    lemma_process_keeps_structure(handled, token@.kind, token@.position);
                    lemma_process_traced(handled, token@.kind, token@.position);
                }
                if let Some(state) = state {
                    tokenizer.switch_to(state);
                }
                tokenizer.set_in_foreign_content(in_foreign_content);
            },
            None => {
                break ;
            },
        }
    }
    proof {
        keeps_places_stop(builder@, places, false);
        lemma_stop_keeps_complete(builder@);
    }
    let ghost last = builder@;
    builder.stop_parsing();
    proof {
        reveal(TreeBuilder::wf);
        reveal(BuilderModel::sound);
        builder.document.lemma_wf();
        lemma_all_written(last);
        lemma_placed(builder@, places);
        assert(errors_placed(places, tokenizer@.errors + builder@.errors));
    }
    let tokenizer_errors = tokenizer.take_errors();
    let builder_errors = builder.take_errors();
    let errors = merge_errors(&tokenizer_errors, &builder_errors);
    proof {
        lemma_order_keeps_places(errors_of(input@), errors@, places);
    }
    ParseResult { document: builder.into_document(), errors }
}

} // verus!
