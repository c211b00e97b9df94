//! Where nodes and errors come from: what a tree builder does leaves every position
//! at a place of the source.
use vstd::prelude::*;

use crate::document::model::{merged, without, DocumentModel, KindModel, NodeId, NodeModel};
use crate::token::{
    AttributeModel, DoctypeModel, ParseErrorKind, Position, ProcessingInstructionModel, TagModel,
};
use crate::tokenizer::marks::{errors_placed, Places};
use crate::tree_builder::adoption::{appended_all, last_formatting_named};
use crate::tree_builder::elements::Group;
use crate::tree_builder::formatting::{after_last_marker, FormattingEntry};
use crate::tree_builder::model::{
    closed_from, element_for, formatting_index_from, formatting_named, tag_for, without_formatting,
    without_node, BuilderModel, InsertionLocation, InsertionMode,
};
use crate::tree_builder::names::HTML_NAMESPACE;
use crate::tree_builder::quirks::QuirksMode;
use crate::tree_builder::select::{
    after_pop, copied_into, descendants, detached_all, first_selectedcontent, nearest_select,
};
use crate::tree_builder::stack::{index_from, special_after};

verus! {

/// Every one of the ids is small enough to name a node.
pub open spec fn ids_below(ids: Seq<NodeId>, n: nat) -> bool {
    forall|i: int| 0 <= i < ids.len() ==> (#[trigger] ids[i]).index < n
}

/// A node that is at a place of the source, or nowhere: text at any place, other
/// nodes at a `<`, and the document node nowhere.
pub open spec fn node_placed(node: NodeModel, source: Places) -> bool {
    match node.position {
        Some(position) => {
            &&& source.holds(position)
            &&& node.kind is Text || source.holds_markup(position)
            &&& !(node.kind is Document)
        },
        None => true,
    }
}

/// Every node of the document is at a place of the source, or nowhere.
pub open spec fn document_placed(d: DocumentModel, source: Places) -> bool {
    forall|i: int|
        0 <= i < d.nodes.len() ==> node_placed(#[trigger] d.nodes[i], source) && ids_below(
            d.nodes[i].children,
            d.nodes.len(),
        )
}

/// Every node of the document is at a place of the source, or nowhere; the document
/// node is nowhere.
pub open spec fn placed_in(d: DocumentModel, source: Places) -> bool {
    &&& forall|id: NodeId| d.has(id) ==> node_placed(#[trigger] d.node(id), source)
    &&& d.node(d.root).position is None
}

impl BuilderModel {
    /// Every node, error and withheld character is at a place of the source, and so
    /// is the current token; where it is known to be markup, at a `<`.
    #[verifier::opaque]
    pub open spec fn placed(self, source: Places, markup: bool) -> bool {
        &&& document_placed(self.document, source)
        &&& ids_below(self.open_elements, self.document.nodes.len())
        &&& self.head_element_pointer matches Some(head) ==> head.index
            < self.document.nodes.len()
        &&& source.holds(self.token_position)
        &&& markup ==> source.holds_markup(self.token_position)
        &&& forall|i: int|
            0 <= i < self.pending_table_character_tokens.len() ==> source.holds(
                (#[trigger] self.pending_table_character_tokens[i]).1,
            )
        &&& errors_placed(source, self.errors)
    }
}

proof fn keeps_places_new_node(
    d: DocumentModel,
    kind: KindModel,
    position: Option<Position>,
    source: Places,
)
    requires
        document_placed(d, source),
        position matches Some(q) ==> source.holds(q) && (kind is Text || source.holds_markup(q))
            && !(kind is Document),
    ensures
        document_placed(d.new_node(kind, position), source),
        d.next_id().index < d.new_node(kind, position).nodes.len() == d.nodes.len() + 1,
{
    let e = d.new_node(kind, position);
    assert forall|i: int| 0 <= i < e.nodes.len() implies node_placed(#[trigger] e.nodes[i], source)
        && ids_below(e.nodes[i].children, e.nodes.len()) by {
        if i < d.nodes.len() {
            assert(e.nodes[i] == d.nodes[i]);
        }
    }
}

proof fn keeps_places_with_node(d: DocumentModel, id: NodeId, node: NodeModel, source: Places)
    requires
        document_placed(d, source),
        id.index < d.nodes.len() ==> node_placed(node, source) && ids_below(
            node.children,
            d.nodes.len(),
        ),
    ensures
        document_placed(d.with_node(id, node), source),
        d.with_node(id, node).nodes.len() == d.nodes.len(),
{
}

proof fn keeps_places_remove(d: DocumentModel, id: NodeId, source: Places)
    requires
        document_placed(d, source),
    ensures
        document_placed(d.remove(id), source),
        d.remove(id).nodes.len() == d.nodes.len(),
{
    match d.parent(id) {
        Some(p) => {
            let children = without(d.children(p), id);
            let node = NodeModel { children, ..d.node(p) };
            keeps_places_with_node(d, p, node, source);
            let e = d.with_children(p, children);
            let child = NodeModel { parent: None, ..e.node(id) };
            keeps_places_with_node(e, id, child, source);
        },
        None => {},
    }
}

proof fn keeps_places_insert_before(
    d: DocumentModel,
    parent: NodeId,
    reference: Option<NodeId>,
    id: NodeId,
    source: Places,
)
    requires
        document_placed(d, source),
        id.index < d.nodes.len(),
    ensures
        document_placed(d.insert_before(parent, reference, id), source),
        d.insert_before(parent, reference, id).nodes.len() == d.nodes.len(),
{
    keeps_places_remove(d, id, source);
    let e = d.remove(id);
    let at = e.place(parent, reference);
    let children = e.children(parent).insert(at, id);
    let node = NodeModel { children, ..e.node(parent) };
    keeps_places_with_node(e, parent, node, source);
    let f = e.with_children(parent, children);
    let child = NodeModel { parent: Some(parent), ..f.node(id) };
    keeps_places_with_node(f, id, child, source);
}

proof fn keeps_places_push_text(d: DocumentModel, id: NodeId, c: char, source: Places)
    requires
        document_placed(d, source),
    ensures
        document_placed(d.push_text(id, c), source),
        d.push_text(id, c).nodes.len() == d.nodes.len(),
{
    match d.kind(id) {
        KindModel::Text { content } => {
            let kind = KindModel::Text { content: content.push(c) };
            keeps_places_with_node(d, id, NodeModel { kind, ..d.node(id) }, source);
        },
        _ => {},
    }
}

proof fn keeps_places_merge_attributes_of(
    d: DocumentModel,
    id: NodeId,
    attributes: Seq<AttributeModel>,
    source: Places,
)
    requires
        document_placed(d, source),
    ensures
        document_placed(d.merge_attributes(id, attributes), source),
        d.merge_attributes(id, attributes).nodes.len() == d.nodes.len(),
{
    match d.kind(id) {
        KindModel::Element { name, namespace, attributes: own } => {
            let kind = KindModel::Element { name, namespace, attributes: merged(own, attributes) };
            keeps_places_with_node(d, id, NodeModel { kind, ..d.node(id) }, source);
        },
        _ => {},
    }
}

proof fn keeps_places_detached_all(d: DocumentModel, ids: Seq<NodeId>, source: Places)
    requires
        document_placed(d, source),
    ensures
        document_placed(detached_all(d, ids), source),
        detached_all(d, ids).nodes.len() == d.nodes.len(),
    decreases ids.len(),
{
    if ids.len() > 0 {
        keeps_places_remove(d, ids[0], source);
        keeps_places_detached_all(d.remove(ids[0]), ids.drop_first(), source);
    }
}

proof fn keeps_places_copied_into(
    d: DocumentModel,
    ids: Seq<NodeId>,
    parent: NodeId,
    depth: nat,
    source: Places,
)
    requires
        document_placed(d, source),
        ids_below(ids, d.nodes.len()),
    ensures
        document_placed(copied_into(d, ids, parent, depth), source),
        copied_into(d, ids, parent, depth).nodes.len() >= d.nodes.len(),
    decreases depth, ids.len(),
{
    if depth > 0 && ids.len() > 0 {
        let below = d.children(ids[0]);
        let copy = d.next_id();
        let kind = d.kind(ids[0]);
        let position = d.node(ids[0]).position;
        let e = d.new_node(kind, position);
        assert(node_placed(d.nodes[ids[0].index as int], source));
        keeps_places_new_node(d, kind, position, source);
        keeps_places_insert_before(e, parent, None, copy, source);
        let f = e.append_child(parent, copy);
        keeps_places_copied_into(f, below, copy, (depth - 1) as nat, source);
        let g = copied_into(f, below, copy, (depth - 1) as nat);
        keeps_places_copied_into(g, ids.drop_first(), parent, depth, source);
    }
}

proof fn keeps_places_after_pop(d: DocumentModel, node: NodeId, source: Places)
    requires
        document_placed(d, source),
        node.index < d.nodes.len(),
    ensures
        document_placed(after_pop(d, node), source),
        after_pop(d, node).nodes.len() >= d.nodes.len(),
{
    reveal(after_pop);
    match nearest_select(d, node, d.nodes.len()) {
        Some(select) => {
            match first_selectedcontent(d, descendants(d, select), 0) {
                Some(target) => {
                    let e = detached_all(d, d.children(target));
                    keeps_places_detached_all(d, d.children(target), source);
                    assert(ids_below(e.nodes[node.index as int].children, e.nodes.len()));
                    keeps_places_copied_into(
                        e,
                        e.children(node),
                        target,
                        e.nodes.len(),
                        source,
                    );
                },
                None => {},
            }
        },
        None => {},
    }
}

proof fn keeps_places_appended_all(
    d: DocumentModel,
    ids: Seq<NodeId>,
    parent: NodeId,
    source: Places,
)
    requires
        document_placed(d, source),
        ids_below(ids, d.nodes.len()),
    ensures
        document_placed(appended_all(d, ids, parent), source),
        appended_all(d, ids, parent).nodes.len() == d.nodes.len(),
    decreases ids.len(),
{
    if ids.len() > 0 {
        keeps_places_insert_before(d, parent, None, ids[0], source);
        keeps_places_appended_all(d.append_child(parent, ids[0]), ids.drop_first(), parent, source);
    }
}

/// Making an element gives it the next name, and changes nothing but the document.
pub proof fn lemma_created_nodes(
    t: BuilderModel,
    tag: TagModel,
    namespace: Seq<char>,
    position: Option<Position>,
)
    ensures
        ({
            let u = t.create_element(tag, namespace, position);
            &&& u == BuilderModel { document: u.document, ..t }
            &&& t.document.next_id().index < u.document.nodes.len()
            &&& t.document.nodes.len() < u.document.nodes.len()
        }),
{
    reveal(BuilderModel::create_element);
}

pub proof fn lemma_index_from(stack: Seq<NodeId>, node: NodeId, i: int)
    requires
        0 <= i,
    ensures
        index_from(stack, node, i) matches Some(k) ==> i <= k < stack.len() && stack[k] == node,
    decreases stack.len() - i,
{
    if i < stack.len() && stack[i] != node {
        lemma_index_from(stack, node, i + 1);
    }
}

pub proof fn lemma_special_after(d: DocumentModel, stack: Seq<NodeId>, i: int)
    ensures
        special_after(d, stack, i) matches Some(k) ==> i < k < stack.len(),
    decreases stack.len() - i,
{
    if i + 1 < stack.len() {
        lemma_special_after(d, stack, i + 1);
    }
}

proof fn keeps_places_new_node_at(
    t: BuilderModel,
    kind: KindModel,
    position: Option<Position>,
    location: InsertionLocation,
    source: Places,
    markup: bool,
)
    requires
        t.placed(source, markup),
        position matches Some(q) ==> source.holds(q) && source.holds_markup(q),
        !(kind is Document),
    ensures
        t.new_node_at(kind, position, location).placed(source, markup),
{
    reveal(BuilderModel::placed);
    let d = t.document.new_node(kind, position);
    keeps_places_new_node(t.document, kind, position, source);
    keeps_places_insert_before(
        d,
        location.parent,
        location.before,
        t.document.next_id(),
        source,
    );
}

proof fn keeps_places_adopt_up(
    t: BuilderModel,
    top: int,
    i: int,
    block: NodeId,
    last: NodeId,
    bookmark: int,
    steps: int,
    source: Places,
    markup: bool,
)
    requires
        t.placed(source, markup),
        0 <= top,
        i < t.open_elements.len(),
        last.index < t.document.nodes.len(),
    ensures
        ({
            let (u, end, mark) = t.adopt_up(top, i, block, last, bookmark, steps);
            &&& u.placed(source, markup)
            &&& end.index < u.document.nodes.len()
            &&& t.document.nodes.len() <= u.document.nodes.len()
        }),
    decreases i - top,
{
    if i > top {
        let node = t.open_elements[i];
        let active = formatting_index_from(t.formatting, node, 0);
        let v = if steps >= 3 {
            BuilderModel { formatting: without_formatting(t.formatting, node), ..t }
        } else {
            t
        };
        let next = match active {
            Some(k) => if steps >= 3 && k < bookmark {
                bookmark - 1
            } else {
                bookmark
            },
            None => bookmark,
        };
        assert(v.placed(source, markup)) by {
            reveal(BuilderModel::placed);
        }
        match formatting_index_from(v.formatting, node, 0) {
            None => {
                let w = BuilderModel { open_elements: v.open_elements.remove(i), ..v };
                assert(w.placed(source, markup)) by {
                    reveal(BuilderModel::placed);
                }
                keeps_places_adopt_up(
                    w,
                    top,
                    i - 1,
                    block,
                    last,
                    next,
                    steps + 1,
                    source,
                    markup,
                );
            },
            Some(k) => {
                let copy = v.document.next_id();
                let tag = tag_for(v.document.kind(node));
                let u = v.create_element(tag, HTML_NAMESPACE@, None);
                keeps_places_create_element(v, tag, HTML_NAMESPACE@, None, source, markup);
                lemma_created_nodes(v, tag, HTML_NAMESPACE@, None);
                let w = BuilderModel {
                    document: u.document.append_child(copy, last),
                    formatting: u.formatting.update(k, FormattingEntry::Element(copy)),
                    open_elements: u.open_elements.update(i, copy),
                    ..u
                };
                assert(w.placed(source, markup) && w.document.nodes.len()
                    == u.document.nodes.len()) by {
                    reveal(BuilderModel::placed);
                    keeps_places_insert_before(u.document, copy, None, last, source);
                }
                keeps_places_adopt_up(
                    w,
                    top,
                    i - 1,
                    block,
                    copy,
                    if last == block {
                        k + 1
                    } else {
                        next
                    },
                    steps + 1,
                    source,
                    markup,
                );
            },
        }
    }
}

proof fn keeps_places_replant(
    t: BuilderModel,
    node: NodeId,
    location: InsertionLocation,
    source: Places,
    markup: bool,
)
    requires
        t.placed(source, markup),
        node.index < t.document.nodes.len(),
    ensures
        t.replant(node, location).placed(source, markup),
        t.replant(node, location).document.nodes.len() == t.document.nodes.len(),
{
    reveal(BuilderModel::placed);
    keeps_places_remove(t.document, node, source);
    let d = t.document.remove(node);
    keeps_places_insert_before(d, location.parent, location.before, node, source);
}

proof fn keeps_places_replace_formatting_element(
    t: BuilderModel,
    formatting: NodeId,
    block: NodeId,
    bookmark: int,
    source: Places,
    markup: bool,
)
    requires
        t.placed(source, markup),
        block.index < t.document.nodes.len(),
    ensures
        t.replace_formatting_element(formatting, block, bookmark).placed(source, markup),
{
    let copy = t.document.next_id();
    let tag = tag_for(t.document.kind(formatting));
    let u = t.create_element(tag, HTML_NAMESPACE@, None);
    keeps_places_create_element(t, tag, HTML_NAMESPACE@, None, source, markup);
    lemma_created_nodes(t, tag, HTML_NAMESPACE@, None);
    reveal(BuilderModel::placed);
    let children = u.document.children(block);
    assert(ids_below(u.document.nodes[block.index as int].children, u.document.nodes.len()));
    keeps_places_insert_before(u.document, block, None, copy, source);
    let d = u.document.append_child(block, copy);
    keeps_places_appended_all(d, children, copy, source);
    let stack = without_node(u.open_elements, formatting);
    lemma_index_from(u.open_elements, formatting, 0);
    lemma_index_from(stack, block, 0);
    assert(ids_below(stack, u.document.nodes.len()));
}

pub broadcast proof fn keeps_places_error(
    t: BuilderModel,
    kind: ParseErrorKind,
    source: Places,
    markup: bool,
)
    requires
        t.placed(source, markup),
    ensures
        #[trigger] t.error(kind).placed(source, markup),
{
    broadcast use keeps_places_error_at;

    reveal(BuilderModel::placed);
}

pub broadcast proof fn keeps_places_error_at(
    t: BuilderModel,
    kind: ParseErrorKind,
    position: Position,
    source: Places,
    markup: bool,
)
    requires
        t.placed(source, markup),
        source.holds(position),
    ensures
        #[trigger] t.error_at(kind, position).placed(source, markup),
{
    reveal(BuilderModel::placed);
}

pub broadcast proof fn keeps_places_set_mode(
    t: BuilderModel,
    mode: InsertionMode,
    source: Places,
    markup: bool,
)
    requires
        t.placed(source, markup),
    ensures
        #[trigger] t.set_mode(mode).placed(source, markup),
{
    reveal(BuilderModel::placed);
}

pub broadcast proof fn keeps_places_suspend_mode(
    t: BuilderModel,
    mode: InsertionMode,
    source: Places,
    markup: bool,
)
    requires
        t.placed(source, markup),
    ensures
        #[trigger] t.suspend_mode(mode).placed(source, markup),
{
    reveal(BuilderModel::placed);
}

pub broadcast proof fn keeps_places_resume_mode(
    t: BuilderModel,
    source: Places,
    markup: bool,
)
    requires
        t.placed(source, markup),
    ensures
        #[trigger] t.resume_mode().placed(source, markup),
{
    reveal(BuilderModel::placed);
}

pub broadcast proof fn keeps_places_set_frameset_ok(
    t: BuilderModel,
    value: bool,
    source: Places,
    markup: bool,
)
    requires
        t.placed(source, markup),
    ensures
        #[trigger] t.set_frameset_ok(value).placed(source, markup),
{
    reveal(BuilderModel::placed);
}

pub broadcast proof fn keeps_places_set_skip_next_line_feed(
    t: BuilderModel,
    value: bool,
    source: Places,
    markup: bool,
)
    requires
        t.placed(source, markup),
    ensures
        #[trigger] t.set_skip_next_line_feed(value).placed(source, markup),
{
    reveal(BuilderModel::placed);
}

pub broadcast proof fn keeps_places_set_foster_parenting(
    t: BuilderModel,
    value: bool,
    source: Places,
    markup: bool,
)
    requires
        t.placed(source, markup),
    ensures
        #[trigger] t.set_foster_parenting(value).placed(source, markup),
{
    reveal(BuilderModel::placed);
}

pub broadcast proof fn keeps_places_set_quirks_mode(
    t: BuilderModel,
    mode: QuirksMode,
    source: Places,
    markup: bool,
)
    requires
        t.placed(source, markup),
    ensures
        #[trigger] t.set_quirks_mode(mode).placed(source, markup),
{
    reveal(BuilderModel::placed);
}

pub broadcast proof fn keeps_places_acknowledge_self_closing(
    t: BuilderModel,
    source: Places,
    markup: bool,
)
    requires
        t.placed(source, markup),
    ensures
        #[trigger] t.acknowledge_self_closing().placed(source, markup),
{
    reveal(BuilderModel::placed);
}

pub broadcast proof fn keeps_places_push_template_mode(
    t: BuilderModel,
    mode: InsertionMode,
    source: Places,
    markup: bool,
)
    requires
        t.placed(source, markup),
    ensures
        #[trigger] t.push_template_mode(mode).placed(source, markup),
{
    reveal(BuilderModel::placed);
}

pub broadcast proof fn keeps_places_pop_template_mode(
    t: BuilderModel,
    source: Places,
    markup: bool,
)
    requires
        t.placed(source, markup),
    ensures
        #[trigger] t.pop_template_mode().placed(source, markup),
{
    reveal(BuilderModel::placed);
}

pub broadcast proof fn keeps_places_reset_mode(
    t: BuilderModel,
    source: Places,
    markup: bool,
)
    requires
        t.placed(source, markup),
    ensures
        #[trigger] t.reset_mode().placed(source, markup),
{
    broadcast use keeps_places_set_mode;

}

pub broadcast proof fn keeps_places_remember_head(
    t: BuilderModel,
    source: Places,
    markup: bool,
)
    requires
        t.placed(source, markup),
    ensures
        #[trigger] t.remember_head().placed(source, markup),
{
    reveal(BuilderModel::placed);
}

pub broadcast proof fn keeps_places_remember_form(
    t: BuilderModel,
    source: Places,
    markup: bool,
)
    requires
        t.placed(source, markup),
    ensures
        #[trigger] t.remember_form().placed(source, markup),
{
    reveal(BuilderModel::placed);
}

pub broadcast proof fn keeps_places_forget_form(
    t: BuilderModel,
    source: Places,
    markup: bool,
)
    requires
        t.placed(source, markup),
    ensures
        #[trigger] t.forget_form().placed(source, markup),
{
    reveal(BuilderModel::placed);
}

pub broadcast proof fn keeps_places_pop(
    t: BuilderModel,
    source: Places,
    markup: bool,
)
    requires
        t.placed(source, markup),
    ensures
        #[trigger] t.pop().placed(source, markup),
{
    reveal(BuilderModel::placed);
    if t.open_elements.len() > 0 {
        keeps_places_after_pop(t.document, t.open_elements.last(), source);
    }
}

pub broadcast proof fn keeps_places_pop_to(
    t: BuilderModel,
    n: int,
    source: Places,
    markup: bool,
)
    requires
        t.placed(source, markup),
    ensures
        #[trigger] t.pop_to(n).placed(source, markup),
    decreases t.open_elements.len(),
{
    reveal(BuilderModel::pop_to);
    if t.open_elements.len() > 0 && t.open_elements.len() > n {
        keeps_places_pop(t, source, markup);
        keeps_places_pop_to(t.pop(), n, source, markup);
    }
}

pub broadcast proof fn keeps_places_pop_until(
    t: BuilderModel,
    name: Seq<char>,
    source: Places,
    markup: bool,
)
    requires
        t.placed(source, markup),
    ensures
        #[trigger] t.pop_until(name).placed(source, markup),
{
    broadcast use keeps_places_pop_to;

}

pub broadcast proof fn keeps_places_pop_until_one_of(
    t: BuilderModel,
    group: Group,
    source: Places,
    markup: bool,
)
    requires
        t.placed(source, markup),
    ensures
        #[trigger] t.pop_until_one_of(group).placed(source, markup),
{
    broadcast use keeps_places_pop_to;

}

pub broadcast proof fn keeps_places_clear_back_to(
    t: BuilderModel,
    group: Group,
    source: Places,
    markup: bool,
)
    requires
        t.placed(source, markup),
    ensures
        #[trigger] t.clear_back_to(group).placed(source, markup),
{
    broadcast use keeps_places_pop_to;

}

pub broadcast proof fn keeps_places_generate_implied_end_tags(
    t: BuilderModel,
    exclude: Option<Seq<char>>,
    source: Places,
    markup: bool,
)
    requires
        t.placed(source, markup),
    ensures
        #[trigger] t.generate_implied_end_tags(exclude).placed(source, markup),
{
    broadcast use keeps_places_pop_to;

}

pub broadcast proof fn keeps_places_generate_implied_end_tags_thoroughly(
    t: BuilderModel,
    source: Places,
    markup: bool,
)
    requires
        t.placed(source, markup),
    ensures
        #[trigger] t.generate_implied_end_tags_thoroughly().placed(source, markup),
{
    broadcast use keeps_places_pop_to;

}

pub broadcast proof fn keeps_places_close_element(
    t: BuilderModel,
    name: Seq<char>,
    exclude: Option<Seq<char>>,
    source: Places,
    markup: bool,
)
    requires
        t.placed(source, markup),
    ensures
        #[trigger] t.close_element(name, exclude).placed(source, markup),
{
    broadcast use {
        keeps_places_generate_implied_end_tags,
        keeps_places_error,
        keeps_places_pop_until,
    };

    reveal(BuilderModel::close_element);
}

pub broadcast proof fn keeps_places_push_head(
    t: BuilderModel,
    source: Places,
    markup: bool,
)
    requires
        t.placed(source, markup),
    ensures
        #[trigger] t.push_head().placed(source, markup),
{
    reveal(BuilderModel::placed);
}

pub broadcast proof fn keeps_places_remove_head(
    t: BuilderModel,
    source: Places,
    markup: bool,
)
    requires
        t.placed(source, markup),
    ensures
        #[trigger] t.remove_head().placed(source, markup),
{
    reveal(BuilderModel::placed);
    match t.head_element_pointer {
        Some(head) => {
            lemma_index_from(t.open_elements, head, 0);
        },
        None => {},
    }
}

pub broadcast proof fn keeps_places_remove_form(
    t: BuilderModel,
    source: Places,
    markup: bool,
)
    requires
        t.placed(source, markup),
    ensures
        #[trigger] t.remove_form().placed(source, markup),
{
    reveal(BuilderModel::placed);
    match t.form_element_pointer {
        Some(form) => {
            lemma_index_from(t.open_elements, form, 0);
        },
        None => {},
    }
}

pub broadcast proof fn keeps_places_create_element(
    t: BuilderModel,
    tag: TagModel,
    namespace: Seq<char>,
    position: Option<Position>,
    source: Places,
    markup: bool,
)
    requires
        t.placed(source, markup),
        position matches Some(q) ==> source.holds_markup(q) && source.holds(q),
    ensures
        #[trigger] t.create_element(tag, namespace, position).placed(source, markup),
{
    reveal(BuilderModel::placed);
    reveal(BuilderModel::create_element);
    let kind = element_for(tag, namespace);
    let d = t.document.new_node(kind, position);
    keeps_places_new_node(t.document, kind, position, source);
    let e = d.new_node(KindModel::DocumentFragment, None);
    keeps_places_new_node(d, KindModel::DocumentFragment, None, source);
    keeps_places_insert_before(e, t.document.next_id(), None, d.next_id(), source);
}

pub broadcast proof fn keeps_places_insert_foreign_element(
    t: BuilderModel,
    tag: TagModel,
    namespace: Seq<char>,
    position: Option<Position>,
    source: Places,
    markup: bool,
)
    requires
        t.placed(source, markup),
        position matches Some(q) ==> source.holds_markup(q) && source.holds(q),
    ensures
        #[trigger] t.insert_foreign_element(tag, namespace, position).placed(source, markup),
{
    reveal(BuilderModel::insert_foreign_element);
    let location = t.location(None);
    let element = t.document.next_id();
    let u = t.create_element(tag, namespace, position);
    keeps_places_create_element(t, tag, namespace, position, source, markup);
    lemma_created_nodes(t, tag, namespace, position);
    reveal(BuilderModel::placed);
    keeps_places_insert_before(u.document, location.parent, location.before, element, source);
}

pub broadcast proof fn keeps_places_insert_html_element(
    t: BuilderModel,
    tag: TagModel,
    position: Option<Position>,
    source: Places,
    markup: bool,
)
    requires
        t.placed(source, markup),
        position matches Some(q) ==> source.holds_markup(q) && source.holds(q),
    ensures
        #[trigger] t.insert_html_element(tag, position).placed(source, markup),
{
    broadcast use keeps_places_insert_foreign_element;

}

pub broadcast proof fn keeps_places_insert_here(
    t: BuilderModel,
    tag: TagModel,
    source: Places,
    markup: bool,
)
    requires
        t.placed(source, markup),
        markup,
    ensures
        #[trigger] t.insert_here(tag).placed(source, markup),
{
    broadcast use keeps_places_insert_html_element;

    reveal(BuilderModel::placed);
}

pub broadcast proof fn keeps_places_insert_root_element(
    t: BuilderModel,
    tag: TagModel,
    position: Option<Position>,
    source: Places,
    markup: bool,
)
    requires
        t.placed(source, markup),
        position matches Some(q) ==> source.holds_markup(q) && source.holds(q),
    ensures
        #[trigger] t.insert_root_element(tag, position).placed(source, markup),
{
    reveal(BuilderModel::insert_root_element);
    let element = t.document.next_id();
    let u = t.create_element(tag, HTML_NAMESPACE@, position);
    keeps_places_create_element(t, tag, HTML_NAMESPACE@, position, source, markup);
    lemma_created_nodes(t, tag, HTML_NAMESPACE@, position);
    reveal(BuilderModel::placed);
    keeps_places_insert_before(u.document, u.document.root, None, element, source);
}

pub broadcast proof fn keeps_places_insert_text_element(
    t: BuilderModel,
    tag: TagModel,
    position: Option<Position>,
    source: Places,
    markup: bool,
)
    requires
        t.placed(source, markup),
        position matches Some(q) ==> source.holds_markup(q) && source.holds(q),
    ensures
        #[trigger] t.insert_text_element(tag, position).placed(source, markup),
{
    broadcast use {keeps_places_insert_html_element, keeps_places_suspend_mode};

}

pub broadcast proof fn keeps_places_insert_character(
    t: BuilderModel,
    c: char,
    position: Option<Position>,
    source: Places,
    markup: bool,
)
    requires
        t.placed(source, markup),
        position matches Some(q) ==> source.holds(q),
    ensures
        #[trigger] t.insert_character(c, position).placed(source, markup),
{
    reveal(BuilderModel::insert_character);
    reveal(BuilderModel::placed);
    let location = t.location(None);
    let kind = KindModel::Text { content: seq![c] };
    let d = t.document.new_node(kind, position);
    match t.node_before(location) {
        Some(node) => {
            keeps_places_push_text(t.document, node, c, source);
        },
        None => {},
    }
    keeps_places_new_node(t.document, kind, position, source);
    keeps_places_insert_before(
        d,
        location.parent,
        location.before,
        t.document.next_id(),
        source,
    );
}

pub broadcast proof fn keeps_places_insert_node(
    t: BuilderModel,
    kind: KindModel,
    position: Option<Position>,
    source: Places,
    markup: bool,
)
    requires
        t.placed(source, markup),
        position matches Some(q) ==> source.holds_markup(q) && source.holds(q),
        !(kind is Document),
    ensures
        #[trigger] t.insert_node(kind, position).placed(source, markup),
{
    reveal(BuilderModel::insert_node);
    keeps_places_new_node_at(t, kind, position, t.location(None), source, markup);
}

pub broadcast proof fn keeps_places_insert_comment(
    t: BuilderModel,
    data: Seq<char>,
    position: Option<Position>,
    source: Places,
    markup: bool,
)
    requires
        t.placed(source, markup),
        position matches Some(q) ==> source.holds_markup(q) && source.holds(q),
    ensures
        #[trigger] t.insert_comment(data, position).placed(source, markup),
{
    broadcast use keeps_places_insert_node;

}

pub broadcast proof fn keeps_places_insert_processing_instruction(
    t: BuilderModel,
    target: Seq<char>,
    data: Seq<char>,
    position: Option<Position>,
    source: Places,
    markup: bool,
)
    requires
        t.placed(source, markup),
        position matches Some(q) ==> source.holds_markup(q) && source.holds(q),
    ensures
        #[trigger] t.insert_processing_instruction(target, data, position).placed(source, markup),
{
    broadcast use keeps_places_insert_node;

}

pub broadcast proof fn keeps_places_append_to_document(
    t: BuilderModel,
    kind: KindModel,
    source: Places,
    markup: bool,
)
    requires
        t.placed(source, markup),
        markup,
        !(kind is Document),
    ensures
        #[trigger] t.append_to_document(kind).placed(source, markup),
{
    reveal(BuilderModel::append_to_document);
    reveal(BuilderModel::placed);
    let location = InsertionLocation { parent: t.document.root, before: None };
    keeps_places_new_node_at(t, kind, Some(t.token_position), location, source, markup);
}

pub broadcast proof fn keeps_places_append_to_html(
    t: BuilderModel,
    kind: KindModel,
    source: Places,
    markup: bool,
)
    requires
        t.placed(source, markup),
        markup,
        !(kind is Document),
    ensures
        #[trigger] t.append_to_html(kind).placed(source, markup),
{
    reveal(BuilderModel::append_to_html);
    reveal(BuilderModel::placed);
    let location = InsertionLocation {
        parent: if t.open_elements.len() == 0 {
            t.document.root
        } else {
            t.open_elements[0]
        },
        before: None,
    };
    keeps_places_new_node_at(t, kind, Some(t.token_position), location, source, markup);
}

pub broadcast proof fn keeps_places_merge_attributes(
    t: BuilderModel,
    n: int,
    tag: TagModel,
    source: Places,
    markup: bool,
)
    requires
        t.placed(source, markup),
        markup,
    ensures
        #[trigger] t.merge_attributes(n, tag).placed(source, markup),
{
    reveal(BuilderModel::merge_attributes);
    reveal(BuilderModel::placed);
    if n < t.open_elements.len() {
        keeps_places_merge_attributes_of(t.document, t.open_elements[n], tag.attributes, source);
    }
}

pub broadcast proof fn keeps_places_detach_second(
    t: BuilderModel,
    source: Places,
    markup: bool,
)
    requires
        t.placed(source, markup),
    ensures
        #[trigger] t.detach_second().placed(source, markup),
{
    reveal(BuilderModel::detach_second);
    reveal(BuilderModel::placed);
    if t.open_elements.len() > 1 {
        keeps_places_remove(t.document, t.open_elements[1], source);
    }
}

pub broadcast proof fn keeps_places_push_formatting(
    t: BuilderModel,
    source: Places,
    markup: bool,
)
    requires
        t.placed(source, markup),
    ensures
        #[trigger] t.push_formatting().placed(source, markup),
{
    reveal(BuilderModel::placed);
    reveal(BuilderModel::push_formatting);
}

pub broadcast proof fn keeps_places_push_marker(
    t: BuilderModel,
    source: Places,
    markup: bool,
)
    requires
        t.placed(source, markup),
    ensures
        #[trigger] t.push_marker().placed(source, markup),
{
    reveal(BuilderModel::placed);
}

pub broadcast proof fn keeps_places_clear_to_marker(
    t: BuilderModel,
    source: Places,
    markup: bool,
)
    requires
        t.placed(source, markup),
    ensures
        #[trigger] t.clear_to_marker().placed(source, markup),
{
    reveal(BuilderModel::placed);
}

pub broadcast proof fn keeps_places_reopen(
    t: BuilderModel,
    i: int,
    source: Places,
    markup: bool,
)
    requires
        t.placed(source, markup),
    ensures
        #[trigger] t.reopen(i).placed(source, markup),
{
    reveal(BuilderModel::placed);
    match t.formatting[i] {
        FormattingEntry::Element(node) => {
            keeps_places_insert_html_element(
                t,
                tag_for(t.document.kind(node)),
                None,
                source,
                markup,
            );
        },
        FormattingEntry::Marker => {},
    }
}

pub proof fn keeps_places_reopen_from(
    t: BuilderModel,
    i: int,
    n: int,
    source: Places,
    markup: bool,
)
    requires
        t.placed(source, markup),
    ensures
        t.reopen_from(i, n).placed(source, markup),
    decreases n - i,
{
    if i < n {
        keeps_places_reopen(t, i, source, markup);
        keeps_places_reopen_from(t.reopen(i), i + 1, n, source, markup);
    }
}

pub broadcast proof fn keeps_places_reconstruct_formatting(
    t: BuilderModel,
    source: Places,
    markup: bool,
)
    requires
        t.placed(source, markup),
    ensures
        #[trigger] t.reconstruct_formatting().placed(source, markup),
{
    reveal(BuilderModel::reconstruct_formatting);
    keeps_places_reopen_from(
        t,
        closed_from(t.formatting, t.open_elements),
        t.formatting.len() as int,
        source,
        markup,
    );
}

pub broadcast proof fn keeps_places_char_here(
    t: BuilderModel,
    c: char,
    source: Places,
    markup: bool,
)
    requires
        t.placed(source, markup),
    ensures
        #[trigger] t.char_here(c).placed(source, markup),
{
    broadcast use keeps_places_insert_character;

    reveal(BuilderModel::placed);
}

pub broadcast proof fn keeps_places_comment_here(
    t: BuilderModel,
    data: Seq<char>,
    source: Places,
    markup: bool,
)
    requires
        t.placed(source, markup),
        markup,
    ensures
        #[trigger] t.comment_here(data).placed(source, markup),
{
    broadcast use keeps_places_insert_comment;

    reveal(BuilderModel::placed);
}

pub broadcast proof fn keeps_places_instruction_here(
    t: BuilderModel,
    pi: ProcessingInstructionModel,
    source: Places,
    markup: bool,
)
    requires
        t.placed(source, markup),
        markup,
    ensures
        #[trigger] t.instruction_here(pi).placed(source, markup),
{
    broadcast use keeps_places_insert_processing_instruction;

    reveal(BuilderModel::placed);
}

pub broadcast proof fn keeps_places_comment_to_document(
    t: BuilderModel,
    data: Seq<char>,
    source: Places,
    markup: bool,
)
    requires
        t.placed(source, markup),
        markup,
    ensures
        #[trigger] t.comment_to_document(data).placed(source, markup),
{
    broadcast use keeps_places_append_to_document;

}

pub broadcast proof fn keeps_places_instruction_to_document(
    t: BuilderModel,
    pi: ProcessingInstructionModel,
    source: Places,
    markup: bool,
)
    requires
        t.placed(source, markup),
        markup,
    ensures
        #[trigger] t.instruction_to_document(pi).placed(source, markup),
{
    broadcast use keeps_places_append_to_document;

}

pub broadcast proof fn keeps_places_comment_to_html(
    t: BuilderModel,
    data: Seq<char>,
    source: Places,
    markup: bool,
)
    requires
        t.placed(source, markup),
        markup,
    ensures
        #[trigger] t.comment_to_html(data).placed(source, markup),
{
    broadcast use keeps_places_append_to_html;

}

pub broadcast proof fn keeps_places_instruction_to_html(
    t: BuilderModel,
    pi: ProcessingInstructionModel,
    source: Places,
    markup: bool,
)
    requires
        t.placed(source, markup),
        markup,
    ensures
        #[trigger] t.instruction_to_html(pi).placed(source, markup),
{
    broadcast use keeps_places_append_to_html;

}

pub broadcast proof fn keeps_places_insert_doctype(
    t: BuilderModel,
    doctype: DoctypeModel,
    source: Places,
    markup: bool,
)
    requires
        t.placed(source, markup),
        markup,
    ensures
        #[trigger] t.insert_doctype(doctype).placed(source, markup),
{
    broadcast use keeps_places_append_to_document;

    reveal(BuilderModel::insert_doctype);
}

pub broadcast proof fn keeps_places_insert_foreign_here(
    t: BuilderModel,
    tag: TagModel,
    namespace: Seq<char>,
    source: Places,
    markup: bool,
)
    requires
        t.placed(source, markup),
        markup,
    ensures
        #[trigger] t.insert_foreign_here(tag, namespace).placed(source, markup),
{
    broadcast use keeps_places_insert_foreign_element;

    reveal(BuilderModel::placed);
}

pub broadcast proof fn keeps_places_insert_text_here(
    t: BuilderModel,
    tag: TagModel,
    source: Places,
    markup: bool,
)
    requires
        t.placed(source, markup),
        markup,
    ensures
        #[trigger] t.insert_text_here(tag).placed(source, markup),
{
    broadcast use keeps_places_insert_text_element;

    reveal(BuilderModel::placed);
}

pub broadcast proof fn keeps_places_close_list_item(
    t: BuilderModel,
    definition: bool,
    source: Places,
    markup: bool,
)
    requires
        t.placed(source, markup),
    ensures
        #[trigger] t.close_list_item(definition).placed(source, markup),
{
    broadcast use keeps_places_close_element;

    reveal(BuilderModel::close_list_item);
}

pub broadcast proof fn keeps_places_close_active_anchor(
    t: BuilderModel,
    tag: TagModel,
    source: Places,
    markup: bool,
)
    requires
        t.placed(source, markup),
        markup,
    ensures
        #[trigger] t.close_active_anchor(tag).placed(source, markup),
{
    broadcast use {keeps_places_error, keeps_places_adoption_agency};

    reveal(BuilderModel::close_active_anchor);
    reveal(BuilderModel::placed);
    let u = t.error(ParseErrorKind::NestedFormattingElement).adoption_agency(tag);
    assert(u.placed(source, markup));
    match formatting_named(t.document, t.formatting, "a"@, after_last_marker(t.formatting)) {
        Some(node) => {
            lemma_index_from(u.open_elements, node, 0);
        },
        None => {},
    }
}

pub broadcast proof fn keeps_places_hold_back(
    t: BuilderModel,
    c: char,
    source: Places,
    markup: bool,
)
    requires
        t.placed(source, markup),
    ensures
        #[trigger] t.hold_back(c).placed(source, markup),
{
    reveal(BuilderModel::placed);
}

pub broadcast proof fn keeps_places_forget_held_back(
    t: BuilderModel,
    source: Places,
    markup: bool,
)
    requires
        t.placed(source, markup),
    ensures
        #[trigger] t.forget_held_back().placed(source, markup),
{
    reveal(BuilderModel::placed);
}

pub broadcast proof fn keeps_places_at(
    t: BuilderModel,
    position: Position,
    source: Places,
    markup: bool,
)
    requires
        t.placed(source, markup),
        source.holds(position),
        markup ==> source.holds_markup(position),
    ensures
        #[trigger] t.at(position).placed(source, markup),
{
    reveal(BuilderModel::placed);
}

pub broadcast proof fn keeps_places_any_other_end_tag(
    t: BuilderModel,
    tag: TagModel,
    source: Places,
    markup: bool,
)
    requires
        t.placed(source, markup),
        markup,
    ensures
        #[trigger] t.any_other_end_tag(tag).placed(source, markup),
{
    broadcast use {keeps_places_error, keeps_places_generate_implied_end_tags, keeps_places_pop_to};

    reveal(BuilderModel::any_other_end_tag);
}

pub proof fn keeps_places_adopt(
    t: BuilderModel,
    formatting: NodeId,
    top: int,
    b: int,
    source: Places,
    markup: bool,
)
    requires
        t.placed(source, markup),
        0 <= top < b < t.open_elements.len(),
    ensures
        t.adopt(formatting, top, b).placed(source, markup),
{
    reveal(BuilderModel::adopt);
    reveal(BuilderModel::placed);
    let block = t.open_elements[b];
    let above = if top > 0 {
        t.open_elements[top - 1]
    } else {
        t.document.root
    };
    let bookmark = match formatting_index_from(t.formatting, formatting, 0) {
        Some(k) => k,
        None => 0,
    };
    keeps_places_adopt_up(t, top, b - 1, block, block, bookmark, 0, source, markup);
    let (u, last, mark) = t.adopt_up(top, b - 1, block, block, bookmark, 0);
    keeps_places_replant(u, last, u.location(Some(above)), source, markup);
    let v = u.replant(last, u.location(Some(above)));
    keeps_places_replace_formatting_element(v, formatting, block, mark, source, markup);
}

pub broadcast proof fn keeps_places_adoption_round(
    t: BuilderModel,
    tag: TagModel,
    source: Places,
    markup: bool,
)
    requires
        t.placed(source, markup),
        markup,
    ensures
        #[trigger] t.adoption_round(tag).0.placed(source, markup),
{
    broadcast use {keeps_places_any_other_end_tag, keeps_places_error, keeps_places_pop_to};

    reveal(BuilderModel::adoption_round);
    match last_formatting_named(t.document, t.formatting, tag.name) {
        Some(node) => {
            let u = if t.current_node() == Some(node) {
                t
            } else {
                t.error(ParseErrorKind::MisnestedFormattingElement)
            };
            assert(t.error(ParseErrorKind::StrayEndTag).placed(source, markup));
            assert(u.placed(source, markup));
            match index_from(t.open_elements, node, 0) {
                Some(top) => {
                    lemma_index_from(t.open_elements, node, 0);
                    lemma_special_after(u.document, u.open_elements, top);
                    match special_after(u.document, u.open_elements, top) {
                        Some(b) => {
                            keeps_places_adopt(u, node, top, b, source, markup);
                        },
                        None => {
                            assert(u.pop_to(top).placed(source, markup));
                        },
                    }
                },
                None => {},
            }
            reveal(BuilderModel::placed);
        },
        None => {},
    }
}

pub proof fn keeps_places_adoption_rounds(
    t: BuilderModel,
    tag: TagModel,
    n: nat,
    source: Places,
    markup: bool,
)
    requires
        t.placed(source, markup),
        markup,
    ensures
        t.adoption_rounds(tag, n).placed(source, markup),
    decreases n,
{
    if n > 0 {
        keeps_places_adoption_round(t, tag, source, markup);
        let (u, more) = t.adoption_round(tag);
        if more {
            keeps_places_adoption_rounds(u, tag, (n - 1) as nat, source, markup);
        }
    }
}

pub broadcast proof fn keeps_places_adoption_agency(
    t: BuilderModel,
    tag: TagModel,
    source: Places,
    markup: bool,
)
    requires
        t.placed(source, markup),
        markup,
    ensures
        #[trigger] t.adoption_agency(tag).placed(source, markup),
{
    broadcast use keeps_places_pop;

    reveal(BuilderModel::adoption_agency);
    keeps_places_adoption_rounds(t, tag, 8, source, markup);
}

} // verus!
