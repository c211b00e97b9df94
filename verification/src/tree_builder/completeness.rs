//! Every token keeps the structure of the document, and after the last one the document
//! is complete.
use vstd::prelude::*;

use crate::document::model::NodeId;
use crate::tree_builder::builder::new_builder;
use crate::token::{ParseErrorKind, Position, TokenKindModel};

use crate::tree_builder::frame::{element_children, inside, kin, kin_of};
use crate::tree_builder::model::{BuilderModel, InsertionMode, TokenOutcome};
use crate::tree_builder::modes::foreign::{foreign_end, ForeignEnd};
use crate::tree_builder::parts::lemma_part_names;
use crate::tree_builder::structure::{complete, part_at};
use crate::tree_builder::structure_closing::{live_is_held, live_pop};
use crate::tree_builder::structure_framed::{lemma_child_inside, lemma_complete_kept};
use crate::tree_builder::structure_head::{
    held_after_after_frameset, held_after_frameset, held_after_head, held_before_head,
    held_before_html, held_in_frameset, held_in_head, held_in_head_noscript, held_initial,
    held_text,
};
use crate::tree_builder::structure_rules::{
    held_in_body, lemma_in_body_eof_complete, lemma_in_template_eof_complete,
};
use crate::tree_builder::structure_steps::{
    lemma_frame_pop_to, lemma_live_pop_to, live_char_here, live_error, live_insert_node,
    live_set_frameset_ok,
};
use crate::tree_builder::structure_tables::{
    held_after_after_body, held_after_body, held_in_caption, held_in_cell, held_in_column_group,
    held_in_row, held_in_table, held_in_table_body, held_in_table_text, held_in_template,
    lemma_after_body_complete, lemma_foreign_end, lemma_foreign_loose, live_insert_alike_here,
    live_pop_out_of_foreign_content,
};
use crate::tree_builder::progress::{phase, rank};

verus! {

/// Modes in which the rules of the body, of tables or of templates apply.
pub open spec fn live_mode(mode: InsertionMode) -> bool {
    match mode {
        InsertionMode::InBody
        | InsertionMode::InTable
        | InsertionMode::InTableText
        | InsertionMode::InCaption
        | InsertionMode::InColumnGroup
        | InsertionMode::InTableBody
        | InsertionMode::InRow
        | InsertionMode::InCell
        | InsertionMode::InTemplate
        | InsertionMode::AfterBody
        | InsertionMode::AfterAfterBody => true,
        _ => false,
    }
}

proof fn lemma_held_is_live(t: BuilderModel)
    requires
        t.held(),
        live_mode(t.insertion_mode),
    ensures
        t.live(),
{
    reveal(BuilderModel::held);
    reveal(BuilderModel::live);
}

/// The rules of the insertion mode keep the structure.
pub proof fn held_by_mode(t: BuilderModel, kind: TokenKindModel)
    requires
        t.held(),
    ensures
        t.by_mode(kind).0.held(),
{
    reveal(BuilderModel::by_mode);
    if live_mode(t.insertion_mode) {
        lemma_held_is_live(t);
    }
    match t.insertion_mode {
        InsertionMode::Initial => held_initial(t, kind),
        InsertionMode::BeforeHtml => held_before_html(t, kind),
        InsertionMode::BeforeHead => held_before_head(t, kind),
        InsertionMode::InHead => held_in_head(t, kind),
        InsertionMode::InHeadNoscript => held_in_head_noscript(t, kind),
        InsertionMode::AfterHead => held_after_head(t, kind),
        InsertionMode::InBody => held_in_body(t, kind),
        InsertionMode::Text => held_text(t, kind),
        InsertionMode::InTable => held_in_table(t, kind),
        InsertionMode::InTableText => held_in_table_text(t, kind),
        InsertionMode::InCaption => held_in_caption(t, kind),
        InsertionMode::InColumnGroup => held_in_column_group(t, kind),
        InsertionMode::InTableBody => held_in_table_body(t, kind),
        InsertionMode::InRow => held_in_row(t, kind),
        InsertionMode::InCell => held_in_cell(t, kind),
        InsertionMode::InTemplate => held_in_template(t, kind),
        InsertionMode::AfterBody => held_after_body(t, kind),
        InsertionMode::InFrameset => held_in_frameset(t, kind),
        InsertionMode::AfterFrameset => held_after_frameset(t, kind),
        InsertionMode::AfterAfterBody => held_after_after_body(t, kind),
        InsertionMode::AfterAfterFrameset => held_after_after_frameset(t, kind),
    }
}

/// Foreign elements are open only where the rules of the body apply.
proof fn lemma_foreign_is_live(t: BuilderModel)
    requires
        t.held(),
        t.in_foreign_content(),
    ensures
        t.live(),
{
    reveal(BuilderModel::held);
    reveal(BuilderModel::live);
    if t.small() {
        let n = t.open_elements.len() - 1;
        assert(t.open_elements.last() == t.open_elements[n]);
        if t.framed() {
            assert(inside(t.document, t.open_elements[n]));
        } else if t.headless() {
            assert(part_at(t.document, t.open_elements, 0) is Html);
        } else if t.sturdy() && t.fits() {
            assert(part_at(t.document, t.open_elements, 0) is Html);
            assert(t.insertion_mode is InHead ==> part_at(t.document, t.open_elements, 1) is Head);
        }
    }
}

/// The rules of foreign content keep the structure.
pub proof fn held_in_foreign(t: BuilderModel, kind: TokenKindModel)
    requires
        t.held(),
        t.in_foreign_content(),
    ensures
        t.in_foreign(kind).0.held(),
{
    broadcast use {
        live_char_here,
        live_error,
        live_insert_alike_here,
        live_insert_node,
        live_is_held,
        live_pop,
        live_pop_out_of_foreign_content,
        live_set_frameset_ok,
    };

    reveal(BuilderModel::in_foreign);
    lemma_foreign_is_live(t);
    let u = t.pop_out_of_foreign_content();
    assert(u.live());
    assert(u.held());
    held_by_mode(u, kind);
    held_by_mode(t, kind);
    match kind {
        TokenKindModel::EndTag(tag) => {
            let d = t.document;
            let stack = t.open_elements;
            lemma_foreign_end(d, stack, tag.name);
            match foreign_end(d, stack, tag.name) {
                ForeignEnd::Closes(i) => {
                    if t.small() {
                        lemma_foreign_loose(t, i);
                    }
                    lemma_live_pop_to(t, i);
                    assert(t.pop_to(i).live());
                },
                _ => {},
            }
        },
        _ => {},
    }
}

/// Every step for a token keeps the structure.
pub proof fn held_step(t: BuilderModel, kind: TokenKindModel)
    requires
        t.held(),
    ensures
        t.step(kind).0.held(),
{
    if t.goes_to_foreign_content(kind) {
        assert(t.in_foreign_content()) by {
            reveal(BuilderModel::goes_to_foreign_content);
        }
        held_in_foreign(t, kind);
    } else {
        held_by_mode(t, kind);
    }
}

/// When the end of the source is used up, the document is complete.
pub proof fn lemma_end_is_complete(t: BuilderModel)
    requires
        t.held(),
        t.step(TokenKindModel::Eof).1 is Consumed,
    ensures
        ({
            let u = t.step(TokenKindModel::Eof).0;
            u.small() ==> complete(u.document)
        }),
{
    let kind = TokenKindModel::Eof;
    let u = t.step(kind).0;
    assert(!t.goes_to_foreign_content(kind)) by {
        reveal(BuilderModel::goes_to_foreign_content);
    }
    reveal(BuilderModel::by_mode);
    if live_mode(t.insertion_mode) {
        lemma_held_is_live(t);
    }
    match t.insertion_mode {
        InsertionMode::Initial => {
            reveal(BuilderModel::initial);
            reveal(BuilderModel::initial_anything_else);
        },
        InsertionMode::BeforeHtml => {
            reveal(BuilderModel::before_html);
            reveal(BuilderModel::before_html_anything_else);
        },
        InsertionMode::BeforeHead => {
            reveal(BuilderModel::before_head);
            reveal(BuilderModel::before_head_anything_else);
        },
        InsertionMode::InHead => {
            reveal(BuilderModel::in_head);
            reveal(BuilderModel::in_head_anything_else);
        },
        InsertionMode::InHeadNoscript => {
            reveal(BuilderModel::in_head_noscript);
            reveal(BuilderModel::in_head_noscript_anything_else);
        },
        InsertionMode::AfterHead => {
            reveal(BuilderModel::after_head);
            reveal(BuilderModel::after_head_anything_else);
        },
        InsertionMode::Text => {
            reveal(BuilderModel::text);
        },
        InsertionMode::InTableText => {
            reveal(BuilderModel::in_table_text);
        },
        InsertionMode::InBody => {
            reveal(BuilderModel::in_body);
            lemma_in_body_eof_complete(t);
        },
        InsertionMode::InTable => {
            reveal(BuilderModel::in_table);
            lemma_in_body_eof_complete(t);
        },
        InsertionMode::InTableBody => {
            reveal(BuilderModel::in_table_body);
            reveal(BuilderModel::in_table);
            lemma_in_body_eof_complete(t);
        },
        InsertionMode::InRow => {
            reveal(BuilderModel::in_row);
            reveal(BuilderModel::in_table);
            lemma_in_body_eof_complete(t);
        },
        InsertionMode::InCaption => {
            reveal(BuilderModel::in_caption);
            reveal(BuilderModel::in_body);
            lemma_in_body_eof_complete(t);
        },
        InsertionMode::InCell => {
            reveal(BuilderModel::in_cell);
            reveal(BuilderModel::in_body);
            lemma_in_body_eof_complete(t);
        },
        InsertionMode::InColumnGroup => {
            reveal(BuilderModel::in_column_group);
            lemma_in_body_eof_complete(t);
        },
        InsertionMode::InTemplate => {
            reveal(BuilderModel::in_template);
            lemma_in_template_eof_complete(t);
        },
        InsertionMode::AfterBody => {
            reveal(BuilderModel::after_body);
            if t.small() {
                lemma_after_body_complete(t);
            }
        },
        InsertionMode::AfterAfterBody => {
            reveal(BuilderModel::after_after_body);
            if t.small() {
                lemma_after_body_complete(t);
            }
        },
        InsertionMode::InFrameset => {
            reveal(BuilderModel::in_frameset);
            reveal(BuilderModel::held);
        },
        InsertionMode::AfterFrameset => {
            reveal(BuilderModel::after_frameset);
            reveal(BuilderModel::held);
        },
        InsertionMode::AfterAfterFrameset => {
            reveal(BuilderModel::after_after_frameset);
            reveal(BuilderModel::held);
        },
    }
}

/// What the steps for one token do: the structure is kept, and after the end of the
/// source the document is complete.
pub proof fn held_run(t: BuilderModel, kind: TokenKindModel)
    requires
        t.held(),
        t.settles(kind),
    ensures
        t.run(kind).0.held(),
        kind is Eof && t.run(kind).0.small() ==> complete(t.run(kind).0.document),
    decreases
            phase(t.insertion_mode, kind),
            t.open_tables(),
            t.open_elements.len() + rank(t.insertion_mode, kind),
{
    held_step(t, kind);
    match t.step(kind) {
        (next, TokenOutcome::Consumed(_)) => {
            if kind is Eof {
                lemma_end_is_complete(t);
            }
        },
        (next, TokenOutcome::Reprocess) => {
            held_run(next, kind);
        },
    }
}

/// Every token keeps the structure of the document, and the end of the source makes it
/// complete.
pub proof fn lemma_process_keeps_structure(
    t: BuilderModel,
    kind: TokenKindModel,
    position: Position,
)
    requires
        t.held(),
        t.drops_line_feed(kind) || t.begin_token(position).settles(kind),
    ensures
        t.process(kind, position).0.held(),
        kind is Eof && t.process(kind, position).0.small() ==> complete(
            t.process(kind, position).0.document,
        ),
{
    reveal(BuilderModel::process);
    let u = t.begin_token(position);
    assert(u.held()) by {
        reveal(BuilderModel::held);
    }
    if !t.drops_line_feed(kind) {
        held_run(u, kind);
        let v = u.run(kind).0;
        assert(v.error(
            ParseErrorKind::NonVoidHtmlElementStartTagWithTrailingSolidus,
        ).held()) by {
            reveal(BuilderModel::held);
        }
    }
}

/// A tree builder that has seen no token holds nothing but the document node.
pub proof fn lemma_new_builder_held()
    ensures
        new_builder().held(),
{
    reveal(BuilderModel::held);
    let t = new_builder();
    let d = t.document;
    assert(d.children(d.root) == Seq::<NodeId>::empty());
    assert(element_children(d, d.root) == Seq::<NodeId>::empty()) by {
        reveal(Seq::filter);
    }
    assert forall|id: NodeId| inside(d, id) implies #[trigger] kin_of(d, id) by {
        assert(d.children(id) == Seq::<NodeId>::empty());
    }
    assert(t.unborn());
}

/// Stopping keeps the document complete.
pub proof fn lemma_stop_keeps_complete(t: BuilderModel)
    requires
        t.held(),
        t.small() ==> complete(t.document),
    ensures
        t.stop().small() ==> complete(t.stop().document),
{
    let d = t.document;
    let html = element_children(d, d.root)[0];
    lemma_frame_pop_to(t, html, 0);
    if t.stop().small() {
        assert(kin(d) && forall|i: int|
            0 <= i < t.open_elements.len() ==> inside(d, #[trigger] t.open_elements[i])) by {
            reveal(BuilderModel::held);
        }
        lemma_child_inside(d, d.root, 0);
        lemma_part_names();
        lemma_complete_kept(d, t.stop().document);
    }
}

} // verus!
