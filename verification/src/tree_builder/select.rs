//! Mirroring the chosen `option` of a `select` into its `selectedcontent`
//! element, which happens when the `option` is popped off the stack of open
//! elements.
use vstd::prelude::*;

use crate::document::arena::Document;
use crate::document::laws::lemma_leaf_is_no_ancestor;
use crate::document::model::{
    element_attributes_contain, element_has_attribute, DocumentModel, KindModel, NodeId, NodeKind,
};
use crate::text::clone_text;
use crate::tree_builder::elements::{
    html_name, lemma_insert_keeps_tags, lemma_new_node_keeps_tags, lemma_one_document_node_kept,
    lemma_remove_keeps_tags, lemma_tags_kept_twice, node_is_html, one_document_node, tags_kept,
};
use crate::tree_builder::formatting::copy_attributes;

verus! {

/// An element with an attribute of that name.
pub open spec fn kind_has_attribute(kind: KindModel, name: Seq<char>) -> bool {
    match kind {
        KindModel::Element { attributes, .. } => element_has_attribute(attributes, name),
        _ => false,
    }
}

/// The nearest `select` element above a node, at most `steps` steps away.
pub open spec fn nearest_select(d: DocumentModel, id: NodeId, steps: nat) -> Option<NodeId>
    decreases steps,
{
    if steps == 0 {
        None
    } else {
        match d.parent(id) {
            None => None,
            Some(p) => if html_name(d.kind(p)) == Some("select"@) {
                Some(p)
            } else {
                nearest_select(d, p, (steps - 1) as nat)
            },
        }
    }
}

/// The given nodes and what is below them, in tree order, down to `depth`
/// levels.
pub open spec fn in_tree_order(d: DocumentModel, ids: Seq<NodeId>, depth: nat) -> Seq<NodeId>
    decreases depth, ids.len(),
{
    if depth == 0 || ids.len() == 0 {
        Seq::empty()
    } else {
        seq![ids[0]] + in_tree_order(d, d.children(ids[0]), (depth - 1) as nat) + in_tree_order(
            d,
            ids.drop_first(),
            depth,
        )
    }
}

/// Everything below a node, in tree order.
pub open spec fn descendants(d: DocumentModel, id: NodeId) -> Seq<NodeId> {
    in_tree_order(d, d.children(id), d.nodes.len())
}

/// An `option` element with, or without, the attribute of that name.
pub open spec fn is_option_with(
    d: DocumentModel,
    id: NodeId,
    name: Seq<char>,
    present: bool,
) -> bool {
    html_name(d.kind(id)) == Some("option"@) && kind_has_attribute(d.kind(id), name) == present
}

/// The last `option` that is marked as selected.
pub open spec fn last_selected(d: DocumentModel, ids: Seq<NodeId>) -> Option<NodeId>
    decreases ids.len(),
{
    if ids.len() == 0 {
        None
    } else if is_option_with(d, ids.last(), "selected"@, true) {
        Some(ids.last())
    } else {
        last_selected(d, ids.drop_last())
    }
}

/// The first `option` from index `i` on that is not disabled.
pub open spec fn first_enabled(d: DocumentModel, ids: Seq<NodeId>, i: int) -> Option<NodeId>
    decreases ids.len() - i,
{
    if i < 0 || i >= ids.len() {
        None
    } else if is_option_with(d, ids[i], "disabled"@, false) {
        Some(ids[i])
    } else {
        first_enabled(d, ids, i + 1)
    }
}

/// The first `selectedcontent` element from index `i` on.
pub open spec fn first_selectedcontent(
    d: DocumentModel,
    ids: Seq<NodeId>,
    i: int,
) -> Option<NodeId>
    decreases ids.len() - i,
{
    if i < 0 || i >= ids.len() {
        None
    } else if html_name(d.kind(ids[i])) == Some("selectedcontent"@) {
        Some(ids[i])
    } else {
        first_selectedcontent(d, ids, i + 1)
    }
}

/// The `option` that a `select` shows: the last one marked as selected, or else
/// the first that is not disabled.
pub open spec fn chosen_option(d: DocumentModel, ids: Seq<NodeId>) -> Option<NodeId> {
    match last_selected(d, ids) {
        Some(id) => Some(id),
        None => first_enabled(d, ids, 0),
    }
}

/// The document with the given nodes detached, one after the other.
pub open spec fn detached_all(d: DocumentModel, ids: Seq<NodeId>) -> DocumentModel
    decreases ids.len(),
{
    if ids.len() == 0 {
        d
    } else {
        detached_all(d.remove(ids[0]), ids.drop_first())
    }
}

/// The document with copies of the given nodes, and of what is below them down
/// to `depth` levels, appended to `parent`.
pub open spec fn copied_into(
    d: DocumentModel,
    ids: Seq<NodeId>,
    parent: NodeId,
    depth: nat,
) -> DocumentModel
    decreases depth, ids.len(),
{
    if depth == 0 || ids.len() == 0 {
        d
    } else {
        let below = d.children(ids[0]);
        let copy = d.next_id();
        let e = d.new_node(d.kind(ids[0]), d.node(ids[0]).position).append_child(parent, copy);
        copied_into(
            copied_into(e, below, copy, (depth - 1) as nat),
            ids.drop_first(),
            parent,
            depth,
        )
    }
}

/// The document after a node was popped off the stack of open elements: where it
/// is the chosen `option` of its `select`, its contents are mirrored into the
/// first `selectedcontent` element.
#[verifier::opaque]
pub open spec fn after_pop(d: DocumentModel, node: NodeId) -> DocumentModel {
    if html_name(d.kind(node)) != Some("option"@) {
        d
    } else {
        match nearest_select(d, node, d.nodes.len()) {
            None => d,
            Some(select) => {
                let below = descendants(d, select);
                if kind_has_attribute(d.kind(select), "multiple"@) || chosen_option(d, below)
                    != Some(node) {
                    d
                } else {
                    match first_selectedcontent(d, below, 0) {
                        None => d,
                        Some(target) => {
                            let e = detached_all(d, d.children(target));
                            copied_into(e, e.children(node), target, e.nodes.len())
                        },
                    }
                }
            },
        }
    }
}

/// Every one of the ids names a node.
pub open spec fn all_nodes(d: DocumentModel, ids: Seq<NodeId>) -> bool {
    forall|i: int| 0 <= i < ids.len() ==> d.has(#[trigger] ids[i])
}

/// None of the ids names the document node.
pub open spec fn without_root(d: DocumentModel, ids: Seq<NodeId>) -> bool {
    forall|i: int| 0 <= i < ids.len() ==> #[trigger] ids[i] != d.root
}

/// Whether a node is an element with an attribute of that name.
fn node_has_attribute(document: &Document, node: NodeId, name: &str) -> (r: bool)
    requires
        document.wf(),
        document@.has(node),
    ensures
        r == kind_has_attribute(document@.kind(node), name@),
{
    match &document.node(node).kind {
        NodeKind::Element { attributes, .. } => element_attributes_contain(attributes, name),
        _ => false,
    }
}

/// A copy of what a node holds.
fn copy_kind(kind: &NodeKind) -> (r: NodeKind)
    ensures
        r@ == kind@,
{
    match kind {
        NodeKind::Document => NodeKind::Document,
        NodeKind::DocumentFragment => NodeKind::DocumentFragment,
        NodeKind::Element { name, namespace, attributes } => NodeKind::Element {
            name: name.clone(),
            namespace: clone_text(namespace),
            attributes: copy_attributes(attributes),
        },
        NodeKind::Text { content } => NodeKind::Text { content: content.clone() },
        NodeKind::Comment { content } => NodeKind::Comment { content: content.clone() },
        NodeKind::ProcessingInstruction { target, data } => NodeKind::ProcessingInstruction {
            target: target.clone(),
            data: data.clone(),
        },
        NodeKind::Doctype { name, public_identifier, system_identifier } => NodeKind::Doctype {
            name: clone_text(name),
            public_identifier: clone_text(public_identifier),
            system_identifier: clone_text(system_identifier),
        },
    }
}

/// Finds the nearest `select` element above a node.
fn find_select(document: &Document, node: NodeId, steps: usize) -> (r: Option<NodeId>)
    requires
        document.wf(),
        document@.has(node),
    ensures
        r == nearest_select(document@, node, steps as nat),
        r matches Some(p) ==> document@.has(p),
{
    let mut left: usize = steps;
    let mut current = node;
    while left > 0
        invariant
            document.wf(),
            document@.has(current),
            nearest_select(document@, current, left as nat) == nearest_select(
                document@,
                node,
                steps as nat,
            ),
        decreases left,
    {
        left = left - 1;
        match document.parent(current) {
            None => {
                return None;
            },
            Some(p) => {
                if node_is_html(document, p, "select") {
                    return Some(p);
                }
                current = p;
            },
        }
    }
    None
}

/// Lists the children of a node.
fn children_of(document: &Document, node: NodeId) -> (r: Vec<NodeId>)
    requires
        document.wf(),
        document@.has(node),
    ensures
        r@ == document@.children(node),
        all_nodes(document@, r@),
        document@.parent(document@.root) is None ==> without_root(document@, r@),
{
    proof {
        document.lemma_wf();
        assert(document@.family(node));
    }
    document.children(node).collect()
}

/// Lists the given nodes and what is below them, in tree order.
fn collect_in_tree_order(
    document: &Document,
    ids: &Vec<NodeId>,
    depth: usize,
    out: &mut Vec<NodeId>,
)
    requires
        document.wf(),
        all_nodes(document@, ids@),
        all_nodes(document@, old(out)@),
    ensures
        final(out)@ == old(out)@ + in_tree_order(document@, ids@, depth as nat),
        all_nodes(document@, final(out)@),
    decreases depth,
{
    if depth == 0 {
        assert(out@ + Seq::<NodeId>::empty() == out@);
        return;
    }
    let ghost d = document@;
    let ghost start = out@;
    let ghost all = ids@;
    let mut i: usize = 0;
    assert(all.skip(0) == all);
    while i < ids.len()
        invariant
            depth > 0,
            document.wf(),
            d == document@,
            all == ids@,
            all_nodes(d, all),
            all_nodes(d, out@),
            0 <= i <= all.len(),
            out@ + in_tree_order(d, all.skip(i as int), depth as nat) == start + in_tree_order(
                d,
                all,
                depth as nat,
            ),
        decreases all.len() - i,
    {
        let id = ids[i];
        let ghost before = out@;
        let ghost rest = in_tree_order(d, all.skip(i + 1), depth as nat);
        proof {
            assert(d.has(all[i as int]));
            assert(all.skip(i as int)[0] == id);
            assert(all.skip(i as int).drop_first() == all.skip(i + 1));
        }
        let below = children_of(document, id);
        out.push(id);
        collect_in_tree_order(document, &below, depth - 1, out);
        proof {
            let under = in_tree_order(d, d.children(id), (depth - 1) as nat);
            assert(out@ == before.push(id) + under);
            assert(out@ + rest == before + (seq![id] + under + rest));
        }
        i = i + 1;
    }
    proof {
        assert(all.skip(i as int) == Seq::<NodeId>::empty());
        assert(out@ + Seq::<NodeId>::empty() == out@);
    }
}

/// Finds the `option` that a `select` shows.
fn find_chosen(document: &Document, ids: &Vec<NodeId>) -> (r: Option<NodeId>)
    requires
        document.wf(),
        all_nodes(document@, ids@),
    ensures
        r == chosen_option(document@, ids@),
{
    let ghost d = document@;
    let ghost all = ids@;
    let mut i: usize = ids.len();
    assert(all.take(i as int) == all);
    while i > 0
        invariant
            document.wf(),
            d == document@,
            all == ids@,
            all_nodes(d, all),
            0 <= i <= all.len(),
            last_selected(d, all.take(i as int)) == last_selected(d, all),
        decreases i,
    {
        proof {
            assert(all.take(i as int).last() == all[i - 1]);
            assert(all.take(i as int).drop_last() == all.take(i - 1));
            assert(d.has(all[i - 1]));
        }
        i = i - 1;
        if node_is_html(document, ids[i], "option") && node_has_attribute(
            document,
            ids[i],
            "selected",
        ) {
            return Some(ids[i]);
        }
    }
    i = 0;
    while i < ids.len()
        invariant
            document.wf(),
            d == document@,
            all == ids@,
            all_nodes(d, all),
            last_selected(d, all) is None,
            0 <= i <= all.len(),
            first_enabled(d, all, i as int) == first_enabled(d, all, 0),
        decreases all.len() - i,
    {
        assert(d.has(all[i as int]));
        if node_is_html(document, ids[i], "option") && !node_has_attribute(
            document,
            ids[i],
            "disabled",
        ) {
            return Some(ids[i]);
        }
        i = i + 1;
    }
    None
}

/// Finds the first `selectedcontent` element.
fn find_selectedcontent(document: &Document, ids: &Vec<NodeId>) -> (r: Option<NodeId>)
    requires
        document.wf(),
        all_nodes(document@, ids@),
    ensures
        r == first_selectedcontent(document@, ids@, 0),
        r matches Some(id) ==> document@.has(id),
{
    let mut i: usize = 0;
    while i < ids.len()
        invariant
            document.wf(),
            all_nodes(document@, ids@),
            0 <= i <= ids@.len(),
            first_selectedcontent(document@, ids@, i as int) == first_selectedcontent(
                document@,
                ids@,
                0,
            ),
        decreases ids@.len() - i,
    {
        assert(document@.has(ids@[i as int]));
        if node_is_html(document, ids[i], "selectedcontent") {
            return Some(ids[i]);
        }
        i = i + 1;
    }
    None
}

/// Detaches the given nodes, one after the other.
fn detach_all(document: &mut Document, ids: &Vec<NodeId>)
    requires
        old(document).wf(),
        all_nodes(old(document)@, ids@),
        without_root(old(document)@, ids@),
    ensures
        final(document).wf(),
        final(document)@ == detached_all(old(document)@, ids@),
        final(document)@.nodes.len() == old(document)@.nodes.len(),
        tags_kept(old(document)@, final(document)@),
{
    let ghost start = document@;
    let ghost all = ids@;
    let mut i: usize = 0;
    assert(all.skip(0) == all);
    while i < ids.len()
        invariant
            document.wf(),
            all == ids@,
            all_nodes(document@, all),
            without_root(document@, all),
            0 <= i <= all.len(),
            detached_all(document@, all.skip(i as int)) == detached_all(start, all),
            document@.nodes.len() == start.nodes.len(),
            tags_kept(start, document@),
        decreases all.len() - i,
    {
        let ghost before = document@;
        proof {
            document.lemma_wf();
            assert(before.has(all[i as int]));
            assert(all.skip(i as int)[0] == all[i as int]);
            assert(all.skip(i as int).drop_first() == all.skip(i + 1));
            lemma_remove_keeps_tags(before, all[i as int]);
        }
        document.remove(ids[i]);
        proof {
            lemma_tags_kept_twice(start, before, document@);
            assert forall|j: int| 0 <= j < all.len() implies document@.has(#[trigger] all[j]) by {
                assert(before.has(all[j]));
            }
        }
        i = i + 1;
    }
    assert(all.skip(i as int).len() == 0);
}

/// Appends copies of the given nodes, and of what is below them, to `parent`.
fn copy_into(document: &mut Document, ids: &Vec<NodeId>, parent: NodeId, depth: usize)
    requires
        old(document).wf(),
        old(document)@.has(parent),
        one_document_node(old(document)@),
        all_nodes(old(document)@, ids@),
        without_root(old(document)@, ids@),
    ensures
        final(document).wf(),
        final(document)@ == copied_into(old(document)@, ids@, parent, depth as nat),
        tags_kept(old(document)@, final(document)@),
    decreases depth,
{
    if depth == 0 {
        return;
    }
    let ghost start = document@;
    let ghost all = ids@;
    let mut i: usize = 0;
    assert(all.skip(0) == all);
    while i < ids.len()
        invariant
            depth > 0,
            document.wf(),
            document@.has(parent),
            one_document_node(document@),
            all == ids@,
            all_nodes(document@, all),
            without_root(document@, all),
            0 <= i <= all.len(),
            copied_into(document@, all.skip(i as int), parent, depth as nat) == copied_into(
                start,
                all,
                parent,
                depth as nat,
            ),
            tags_kept(start, document@),
        decreases all.len() - i,
    {
        let id = ids[i];
        let ghost before = document@;
        proof {
            document.lemma_wf();
            assert(before.has(all[i as int]));
            assert(all.skip(i as int)[0] == id);
            assert(all.skip(i as int).drop_first() == all.skip(i + 1));
        }
        let below = children_of(document, id);
        let kind = copy_kind(&document.node(id).kind);
        let position = document.node(id).position;
        let copy = document.new_node(kind, position);
        let ghost added = document@;
        proof {
            document.lemma_wf();
            lemma_new_node_keeps_tags(before, kind@, position);
            lemma_leaf_is_no_ancestor(added, copy, parent);
            lemma_insert_keeps_tags(added, parent, None, copy);
            lemma_one_document_node_kept(before, added);
        }
        document.append_child(parent, copy);
        let ghost placed = document@;
        proof {
            lemma_one_document_node_kept(added, placed);
        }
        assert forall|j: int| 0 <= j < below@.len() implies placed.has(#[trigger] below@[j]) by {
            assert(before.has(below@[j]));
        }
        copy_into(document, &below, copy, depth - 1);
        proof {
            lemma_one_document_node_kept(placed, document@);
            lemma_tags_kept_twice(start, before, added);
            lemma_tags_kept_twice(start, added, placed);
            lemma_tags_kept_twice(start, placed, document@);
            assert forall|j: int| 0 <= j < all.len() implies document@.has(#[trigger] all[j]) by {
                assert(before.has(all[j]));
            }
        }
        i = i + 1;
    }
    assert(all.skip(i as int).len() == 0);
}

/// What happens when a node is popped off the stack of open elements.
pub fn node_popped(document: &mut Document, node: NodeId)
    requires
        old(document).wf(),
        old(document)@.has(node),
        one_document_node(old(document)@),
    ensures
        final(document).wf(),
        final(document)@ == after_pop(old(document)@, node),
        tags_kept(old(document)@, final(document)@),
{
    proof {
        reveal(after_pop);
    }
    if !node_is_html(document, node, "option") {
        return;
    }
    let size: usize = document.size();
    let select = match find_select(document, node, size) {
        Some(select) => select,
        None => {
            return;
        },
    };
    let ghost d = document@;
    let top = children_of(document, select);
    let mut below: Vec<NodeId> = Vec::new();
    collect_in_tree_order(document, &top, size, &mut below);
    assert(Seq::<NodeId>::empty() + descendants(d, select) == descendants(d, select));
    if node_has_attribute(document, select, "multiple") {
        return;
    }
    match find_chosen(document, &below) {
        Some(chosen) => {
            if chosen != node {
                return;
            }
        },
        None => {
            return;
        },
    }
    let target = match find_selectedcontent(document, &below) {
        Some(target) => target,
        None => {
            return;
        },
    };
    let gone = children_of(document, target);
    proof {
        document.lemma_wf();
    }
    detach_all(document, &gone);
    let ghost e = document@;
    proof {
        lemma_one_document_node_kept(d, e);
    }
    let contents = children_of(document, node);
    copy_into(document, &contents, target, size);
    proof {
        lemma_tags_kept_twice(d, e, document@);
    }
}

} // verus!
