//! The frame of a document: the element children of the document node and of the
//! `html` element, and which changes of the document leave them alone.
use vstd::prelude::*;

use crate::document::model::{detached, merged, without, DocumentModel, KindModel, NodeId};
use crate::token::{AttributeModel, Position};
use crate::tree_builder::adoption::appended_all;
use crate::tree_builder::elements::{html_name, tag_of};
use crate::tree_builder::select::{
    after_pop, chosen_option, copied_into, descendants, detached_all, first_selectedcontent,
    in_tree_order, kind_has_attribute, nearest_select,
};

verus! {

/// The id is small enough to name a node.
pub open spec fn inside(d: DocumentModel, id: NodeId) -> bool {
    id.index < d.nodes.len()
}

/// The children of a node name it as their parent, and its parent has it as a child.
pub open spec fn kin_of(d: DocumentModel, id: NodeId) -> bool {
    &&& d.children(id).no_duplicates()
    &&& forall|i: int|
        0 <= i < d.children(id).len() ==> inside(d, #[trigger] d.children(id)[i]) && d.parent(
            d.children(id)[i],
        ) == Some(id)
    &&& match d.parent(id) {
        Some(p) => inside(d, p) && d.children(p).contains(id),
        None => true,
    }
}

/// Parents and children agree everywhere.
pub open spec fn kin(d: DocumentModel) -> bool {
    &&& d.nodes.len() <= usize::MAX
    &&& inside(d, d.root)
    &&& d.kind(d.root) is Document
    &&& forall|id: NodeId| inside(d, id) ==> #[trigger] kin_of(d, id)
}

/// Tells elements from other nodes.
pub open spec fn is_element(d: DocumentModel) -> spec_fn(NodeId) -> bool {
    |id: NodeId| d.kind(id) is Element
}

/// The children of a node that are elements.
pub open spec fn element_children(d: DocumentModel, id: NodeId) -> Seq<NodeId> {
    d.children(id).filter(is_element(d))
}

/// The second document has the nodes of the first, its elements keep their names,
/// and the document node and the `html` element keep their element children.
pub open spec fn frame_kept(d: DocumentModel, e: DocumentModel, html: NodeId) -> bool {
    &&& kin(e)
    &&& e.root == d.root
    &&& d.nodes.len() <= e.nodes.len()
    &&& forall|id: NodeId| inside(d, id) ==> tag_of(#[trigger] e.kind(id)) == tag_of(d.kind(id))
    &&& element_children(e, d.root) == element_children(d, d.root)
    &&& element_children(e, html) == element_children(d, html)
}

pub proof fn lemma_frame_kept_twice(
    d: DocumentModel,
    e: DocumentModel,
    f: DocumentModel,
    html: NodeId,
)
    requires
        frame_kept(d, e, html),
        frame_kept(e, f, html),
    ensures
        frame_kept(d, f, html),
{
    assert forall|id: NodeId| inside(d, id) implies tag_of(#[trigger] f.kind(id)) == tag_of(
        d.kind(id),
    ) by {
        assert(tag_of(e.kind(id)) == tag_of(d.kind(id)));
    }
}

/// Which children are elements depends on their names alone.
pub proof fn lemma_same_elements(list: Seq<NodeId>, d: DocumentModel, e: DocumentModel)
    requires
        forall|i: int|
            0 <= i < list.len() ==> tag_of(e.kind(#[trigger] list[i])) == tag_of(d.kind(list[i])),
    ensures
        list.filter(is_element(e)) == list.filter(is_element(d)),
    decreases list.len(),
{
    reveal(Seq::filter);
    if list.len() > 0 {
        let rest = list.drop_last();
        assert forall|i: int| 0 <= i < rest.len() implies tag_of(e.kind(#[trigger] rest[i]))
            == tag_of(d.kind(rest[i])) by {
            assert(rest[i] == list[i]);
        }
        lemma_same_elements(rest, d, e);
        let last = list[list.len() - 1];
        assert(tag_of(e.kind(last)) == tag_of(d.kind(last)));
    }
}

/// A node that is no element does not count among elements.
pub proof fn lemma_filter_other(list: Seq<NodeId>, at: int, id: NodeId, d: DocumentModel)
    requires
        0 <= at <= list.len(),
        !(d.kind(id) is Element),
    ensures
        list.insert(at, id).filter(is_element(d)) == list.filter(is_element(d)),
{
    let pred = is_element(d);
    let before = list.take(at);
    let after = list.skip(at);
    assert(list.insert(at, id) == before.push(id) + after);
    assert(list == before + after);
    Seq::filter_distributes_over_add(before.push(id), after, pred);
    Seq::filter_distributes_over_add(before, after, pred);
    before.lemma_filter_push(id, pred);
}

/// An element child is a child, and a child that is an element is an element child.
pub proof fn lemma_element_child(d: DocumentModel, parent: NodeId, id: NodeId)
    requires
        kin(d),
        inside(d, parent),
        inside(d, id),
    ensures
        element_children(d, parent).contains(id) <==> d.parent(id) == Some(parent) && d.kind(id)
            is Element,
{
    let list = d.children(parent);
    let pred = is_element(d);
    assert(kin_of(d, parent));
    assert(kin_of(d, id));
    if d.parent(id) == Some(parent) && d.kind(id) is Element {
        let i = choose|i: int| 0 <= i < list.len() && list[i] == id;
        list.lemma_filter_contains(pred, i);
        assert(pred(list[i]));
    }
    if element_children(d, parent).contains(id) {
        let k = choose|k: int|
            0 <= k < list.filter(pred).len() && list.filter(pred)[k] == id;
        list.lemma_filter_pred(pred, k);
        list.lemma_filter_contains_rev(pred, id);
        let i = choose|i: int| 0 <= i < list.len() && list[i] == id;
        assert(d.parent(d.children(parent)[i]) == Some(parent));
    }
}

pub proof fn lemma_frame_new_node(
    d: DocumentModel,
    kind: KindModel,
    position: Option<Position>,
    html: NodeId,
)
    requires
        kin(d),
        inside(d, html),
        d.nodes.len() < usize::MAX,
    ensures
        ({
            let e = d.new_node(kind, position);
            &&& frame_kept(d, e, html)
            &&& inside(e, d.next_id())
            &&& !inside(d, d.next_id())
            &&& e.node(d.next_id()) == detached(kind, position)
            &&& e.nodes.len() == d.nodes.len() + 1
            &&& forall|id: NodeId| inside(d, id) ==> #[trigger] e.node(id) == d.node(id)
        }),
{
    let e = d.new_node(kind, position);
    assert forall|id: NodeId| inside(d, id) implies #[trigger] e.node(id) == d.node(id) by {}
    assert forall|id: NodeId| inside(e, id) implies #[trigger] kin_of(e, id) by {
        if inside(d, id) {
            assert(kin_of(d, id));
            assert(e.node(id) == d.node(id));
            assert forall|i: int| 0 <= i < e.children(id).len() implies inside(
                e,
                #[trigger] e.children(id)[i],
            ) && e.parent(e.children(id)[i]) == Some(id) by {
                assert(inside(d, d.children(id)[i]));
                assert(e.node(d.children(id)[i]) == d.node(d.children(id)[i]));
            }
            match d.parent(id) {
                Some(p) => {
                    assert(e.node(p) == d.node(p));
                },
                None => {},
            }
        } else {
            assert(id == d.next_id());
        }
    }
    assert(e.node(d.root) == d.node(d.root));
    assert forall|id: NodeId| inside(d, id) implies tag_of(#[trigger] e.kind(id)) == tag_of(
        d.kind(id),
    ) by {
        assert(e.node(id) == d.node(id));
    }
    lemma_frame_of_children(d, e, d.root);
    lemma_frame_of_children(d, e, html);
}

/// A node with the same children, of the same names, has the same element children.
proof fn lemma_frame_of_children(d: DocumentModel, e: DocumentModel, id: NodeId)
    requires
        kin(d),
        inside(d, id),
        e.children(id) == d.children(id),
        forall|other: NodeId|
            inside(d, other) ==> tag_of(#[trigger] e.kind(other)) == tag_of(d.kind(other)),
    ensures
        element_children(e, id) == element_children(d, id),
{
    assert(kin_of(d, id));
    let list = d.children(id);
    assert forall|i: int| 0 <= i < list.len() implies tag_of(e.kind(#[trigger] list[i])) == tag_of(
        d.kind(list[i]),
    ) by {
        assert(inside(d, d.children(id)[i]));
    }
    lemma_same_elements(list, d, e);
}

/// Detaching a node keeps parents and children in agreement.
pub proof fn lemma_kin_remove(d: DocumentModel, id: NodeId)
    requires
        kin(d),
        inside(d, id),
    ensures
        ({
            let e = d.remove(id);
            &&& kin(e)
            &&& e.root == d.root
            &&& e.nodes.len() == d.nodes.len()
            &&& e.parent(id) is None
            &&& forall|other: NodeId| inside(d, other) ==> #[trigger] e.kind(other) == d.kind(other)
            &&& forall|other: NodeId|
                inside(d, other) && other != id ==> #[trigger] e.parent(other) == d.parent(other)
            &&& forall|other: NodeId|
                inside(d, other) && d.parent(id) != Some(other) ==> #[trigger] e.children(other)
                    == d.children(other)
            &&& d.parent(id) matches Some(p) ==> e.children(p) == without(d.children(p), id)
        }),
{
    assert(kin_of(d, id));
    match d.parent(id) {
        Some(p) => {
            let e = d.remove(id);
            let list = d.children(p);
            let shorter = without(list, id);
            let at = list.index_of(id);
            assert(kin_of(d, p));
            assert(list[at] == id);
            assert(e.children(p) == shorter);
            assert forall|other: NodeId| inside(e, other) implies #[trigger] kin_of(e, other) by {
                assert(kin_of(d, other));
                if other == p {
                    assert forall|i: int| 0 <= i < shorter.len() implies inside(
                        e,
                        #[trigger] shorter[i],
                    ) && e.parent(shorter[i]) == Some(p) && shorter[i] != id by {
                        let k = if i < at {
                            i
                        } else {
                            i + 1
                        };
                        assert(shorter[i] == list[k]);
                        assert(inside(d, d.children(p)[k]));
                    }
                } else {
                    assert forall|i: int| 0 <= i < e.children(other).len() implies inside(
                        e,
                        #[trigger] e.children(other)[i],
                    ) && e.parent(e.children(other)[i]) == Some(other) by {
                        assert(inside(d, d.children(other)[i]));
                    }
                }
                if other != id {
                    match d.parent(other) {
                        Some(q) => {
                            if q == p {
                                let k = choose|k: int| 0 <= k < list.len() && list[k] == other;
                                if k < at {
                                    assert(shorter[k] == other);
                                } else {
                                    assert(shorter[k - 1] == other);
                                }
                            } else {
                                assert(e.children(q) == d.children(q));
                            }
                        },
                        None => {},
                    }
                }
            }
        },
        None => {},
    }
}

/// Detaching a node that is no child of the frame leaves the frame alone.
pub proof fn lemma_frame_remove(d: DocumentModel, id: NodeId, html: NodeId)
    requires
        kin(d),
        inside(d, html),
        inside(d, id),
        d.parent(id) != Some(d.root),
        d.parent(id) != Some(html),
    ensures
        frame_kept(d, d.remove(id), html),
{
    let e = d.remove(id);
    lemma_kin_remove(d, id);
    assert(e.children(d.root) == d.children(d.root));
    assert(e.children(html) == d.children(html));
    lemma_frame_of_children(d, e, d.root);
    lemma_frame_of_children(d, e, html);
}

/// Inserting a node keeps parents and children in agreement.
pub proof fn lemma_kin_insert(
    d: DocumentModel,
    parent: NodeId,
    reference: Option<NodeId>,
    id: NodeId,
)
    requires
        kin(d),
        inside(d, parent),
        inside(d, id),
    ensures
        ({
            let e = d.remove(id);
            let f = d.insert_before(parent, reference, id);
            &&& kin(f)
            &&& f.root == d.root
            &&& f.nodes.len() == d.nodes.len()
            &&& f.parent(id) == Some(parent)
            &&& 0 <= e.place(parent, reference) <= e.children(parent).len()
            &&& f.children(parent) == e.children(parent).insert(e.place(parent, reference), id)
            &&& forall|other: NodeId| inside(d, other) ==> #[trigger] f.kind(other) == d.kind(other)
            &&& forall|other: NodeId|
                inside(d, other) && other != id ==> #[trigger] f.parent(other) == d.parent(other)
            &&& forall|other: NodeId|
                inside(d, other) && other != parent ==> #[trigger] f.children(other)
                    == e.children(other)
        }),
{
    lemma_kin_remove(d, id);
    let e = d.remove(id);
    let f = d.insert_before(parent, reference, id);
    let at = e.place(parent, reference);
    let list = e.children(parent);
    let longer = list.insert(at, id);
    assert(kin_of(e, parent));
    assert(!list.contains(id)) by {
        if list.contains(id) {
            let k = choose|k: int| 0 <= k < list.len() && list[k] == id;
            assert(e.parent(e.children(parent)[k]) == Some(parent));
        }
    }
    assert(f.children(parent) == longer);
    assert forall|other: NodeId| inside(f, other) implies #[trigger] kin_of(f, other) by {
        assert(kin_of(e, other));
        if other == parent {
            assert forall|i: int| 0 <= i < longer.len() implies inside(f, #[trigger] longer[i])
                && f.parent(longer[i]) == Some(parent) by {
                if i < at {
                    assert(longer[i] == list[i]);
                    assert(inside(e, e.children(parent)[i]));
                } else if i > at {
                    assert(longer[i] == list[i - 1]);
                    assert(inside(e, e.children(parent)[i - 1]));
                }
            }
            assert forall|i: int, j: int| 0 <= i < j < longer.len() implies longer[i]
                != longer[j] by {
                let a = if i < at {
                    i
                } else {
                    i - 1
                };
                let b = if j < at {
                    j
                } else {
                    j - 1
                };
                if i != at {
                    assert(longer[i] == list[a]);
                }
                if j != at {
                    assert(longer[j] == list[b]);
                }
            }
        } else {
            assert(f.children(other) == e.children(other));
            assert forall|i: int| 0 <= i < f.children(other).len() implies inside(
                f,
                #[trigger] f.children(other)[i],
            ) && f.parent(f.children(other)[i]) == Some(other) by {
                assert(inside(e, e.children(other)[i]));
            }
        }
        if other == id {
            assert(longer[at] == id);
        } else {
            match e.parent(other) {
                Some(q) => {
                    if q == parent {
                        let k = choose|k: int| 0 <= k < list.len() && list[k] == other;
                        if k < at {
                            assert(longer[k] == other);
                        } else {
                            assert(longer[k + 1] == other);
                        }
                    } else {
                        assert(f.children(q) == e.children(q));
                    }
                },
                None => {},
            }
        }
    }
}

/// Inserting leaves the frame alone where nothing is taken out of it and nothing, or
/// no element, is put into it.
pub proof fn lemma_frame_insert(
    d: DocumentModel,
    parent: NodeId,
    reference: Option<NodeId>,
    id: NodeId,
    html: NodeId,
)
    requires
        kin(d),
        inside(d, html),
        inside(d, parent),
        inside(d, id),
        d.parent(id) != Some(d.root),
        d.parent(id) != Some(html),
        !(d.kind(id) is Element) || parent != d.root && parent != html,
    ensures
        frame_kept(d, d.insert_before(parent, reference, id), html),
{
    let e = d.remove(id);
    let f = d.insert_before(parent, reference, id);
    lemma_kin_remove(d, id);
    lemma_kin_insert(d, parent, reference, id);
    lemma_frame_remove(d, id, html);
    assert forall|other: NodeId| inside(d, other) implies tag_of(#[trigger] f.kind(other))
        == tag_of(d.kind(other)) by {}
    assert forall|frame: NodeId| frame == d.root || frame == html implies #[trigger]
        element_children(f, frame) == element_children(d, frame) by {
        assert(e.children(frame) == d.children(frame));
        if frame == parent {
            let at = e.place(parent, reference);
            let list = d.children(frame);
            lemma_filter_other(list, at, id, d);
            let longer = list.insert(at, id);
            assert(kin_of(f, frame));
            assert forall|i: int| 0 <= i < longer.len() implies tag_of(f.kind(#[trigger] longer[i]))
                == tag_of(d.kind(longer[i])) by {
                assert(inside(f, f.children(frame)[i]));
            }
            lemma_same_elements(longer, d, f);
        } else {
            assert(f.children(frame) == d.children(frame));
            lemma_frame_of_children(d, f, frame);
        }
    }
    assert(element_children(f, d.root) == element_children(d, d.root));
    assert(element_children(f, html) == element_children(d, html));
}

/// An element appended to a node becomes the last of its element children.
pub proof fn lemma_append_element(d: DocumentModel, parent: NodeId, id: NodeId)
    requires
        kin(d),
        inside(d, parent),
        inside(d, id),
        d.parent(id) is None,
        d.kind(id) is Element,
    ensures
        ({
            let f = d.append_child(parent, id);
            &&& element_children(f, parent) == element_children(d, parent).push(id)
            &&& forall|other: NodeId|
                inside(d, other) && other != parent ==> #[trigger] element_children(f, other)
                    == element_children(d, other)
        }),
{
    let f = d.append_child(parent, id);
    lemma_kin_insert(d, parent, None, id);
    assert(d.remove(id) == d);
    let list = d.children(parent);
    let longer = list.push(id);
    assert(list.insert(list.len() as int, id) == longer);
    assert(kin_of(f, parent));
    assert forall|i: int| 0 <= i < longer.len() implies tag_of(f.kind(#[trigger] longer[i]))
        == tag_of(d.kind(longer[i])) by {
        assert(inside(f, f.children(parent)[i]));
    }
    lemma_same_elements(longer, d, f);
    list.lemma_filter_push(id, is_element(d));
    assert forall|other: NodeId| inside(d, other) && other != parent implies #[trigger]
        element_children(f, other) == element_children(d, other) by {
        assert(f.children(other) == d.children(other));
        lemma_frame_of_children(d, f, other);
    }
}

/// A node that is changed in what it holds, but not in its name, leaves the frame
/// alone.
proof fn lemma_frame_with_kind(d: DocumentModel, id: NodeId, kind: KindModel, html: NodeId)
    requires
        kin(d),
        inside(d, html),
        tag_of(kind) == tag_of(d.kind(id)),
        kind is Document <==> d.kind(id) is Document,
    ensures
        frame_kept(d, d.with_kind(id, kind), html),
{
    let e = d.with_kind(id, kind);
    assert forall|other: NodeId| inside(e, other) implies #[trigger] kin_of(e, other) by {
        assert(kin_of(d, other));
        assert forall|i: int| 0 <= i < e.children(other).len() implies inside(
            e,
            #[trigger] e.children(other)[i],
        ) && e.parent(e.children(other)[i]) == Some(other) by {
            assert(inside(d, d.children(other)[i]));
        }
    }
    lemma_frame_of_children(d, e, d.root);
    lemma_frame_of_children(d, e, html);
}

pub proof fn lemma_frame_push_text(d: DocumentModel, id: NodeId, c: char, html: NodeId)
    requires
        kin(d),
        inside(d, html),
    ensures
        frame_kept(d, d.push_text(id, c), html),
{
    match d.kind(id) {
        KindModel::Text { content } => {
            lemma_frame_with_kind(d, id, KindModel::Text { content: content.push(c) }, html);
        },
        _ => {},
    }
}

pub proof fn lemma_frame_merge(
    d: DocumentModel,
    id: NodeId,
    attributes: Seq<AttributeModel>,
    html: NodeId,
)
    requires
        kin(d),
        inside(d, html),
    ensures
        frame_kept(d, d.merge_attributes(id, attributes), html),
{
    match d.kind(id) {
        KindModel::Element { name, namespace, attributes: own } => {
            let kind = KindModel::Element { name, namespace, attributes: merged(own, attributes) };
            lemma_frame_with_kind(d, id, kind, html);
        },
        _ => {},
    }
}

/// Detaching the children of another node leaves the frame alone.
pub proof fn lemma_frame_detached_all(
    d: DocumentModel,
    ids: Seq<NodeId>,
    parent: NodeId,
    html: NodeId,
)
    requires
        kin(d),
        inside(d, html),
        parent != d.root,
        parent != html,
        ids.no_duplicates(),
        forall|i: int|
            0 <= i < ids.len() ==> inside(d, #[trigger] ids[i]) && d.parent(ids[i]) == Some(parent),
    ensures
        frame_kept(d, detached_all(d, ids), html),
        detached_all(d, ids).nodes.len() == d.nodes.len(),
    decreases ids.len(),
{
    if ids.len() > 0 {
        let e = d.remove(ids[0]);
        let rest = ids.drop_first();
        lemma_kin_remove(d, ids[0]);
        lemma_frame_remove(d, ids[0], html);
        assert forall|i: int| 0 <= i < rest.len() implies inside(e, #[trigger] rest[i])
            && e.parent(rest[i]) == Some(parent) by {
            assert(rest[i] == ids[i + 1]);
        }
        lemma_frame_detached_all(e, rest, parent, html);
        lemma_frame_kept_twice(d, e, detached_all(e, rest), html);
    }
}

/// Moving the children of another node leaves the frame alone.
pub proof fn lemma_frame_appended_all(
    d: DocumentModel,
    ids: Seq<NodeId>,
    old_parent: NodeId,
    parent: NodeId,
    html: NodeId,
)
    requires
        kin(d),
        inside(d, html),
        inside(d, parent),
        old_parent != d.root,
        old_parent != html,
        parent != d.root,
        parent != html,
        ids.no_duplicates(),
        forall|i: int|
            0 <= i < ids.len() ==> inside(d, #[trigger] ids[i]) && d.parent(ids[i]) == Some(
                old_parent,
            ),
    ensures
        frame_kept(d, appended_all(d, ids, parent), html),
        appended_all(d, ids, parent).nodes.len() == d.nodes.len(),
    decreases ids.len(),
{
    if ids.len() > 0 {
        let e = d.append_child(parent, ids[0]);
        let rest = ids.drop_first();
        lemma_kin_insert(d, parent, None, ids[0]);
        lemma_frame_insert(d, parent, None, ids[0], html);
        assert forall|i: int| 0 <= i < rest.len() implies inside(e, #[trigger] rest[i])
            && e.parent(rest[i]) == Some(old_parent) by {
            assert(rest[i] == ids[i + 1]);
        }
        lemma_frame_appended_all(e, rest, old_parent, parent, html);
        lemma_frame_kept_twice(d, e, appended_all(e, rest, parent), html);
    }
}

/// Copying adds nodes.
proof fn lemma_copied_length(d: DocumentModel, ids: Seq<NodeId>, parent: NodeId, depth: nat)
    ensures
        d.nodes.len() <= copied_into(d, ids, parent, depth).nodes.len(),
        depth > 0 && ids.len() > 0 ==> d.nodes.len() < copied_into(
            d,
            ids,
            parent,
            depth,
        ).nodes.len(),
    decreases depth, ids.len(),
{
    if depth > 0 && ids.len() > 0 {
        let below = d.children(ids[0]);
        let copy = d.next_id();
        let e = d.new_node(d.kind(ids[0]), d.node(ids[0]).position).append_child(parent, copy);
        lemma_copied_length(e, below, copy, (depth - 1) as nat);
        let f = copied_into(e, below, copy, (depth - 1) as nat);
        lemma_copied_length(f, ids.drop_first(), parent, depth);
    }
}

/// Copying into another node leaves the frame alone.
proof fn lemma_frame_copied_into(
    d: DocumentModel,
    ids: Seq<NodeId>,
    parent: NodeId,
    depth: nat,
    html: NodeId,
)
    requires
        kin(d),
        inside(d, html),
        inside(d, parent),
        parent != d.root,
        parent != html,
        forall|i: int| 0 <= i < ids.len() ==> inside(d, #[trigger] ids[i]),
        copied_into(d, ids, parent, depth).nodes.len() <= usize::MAX,
    ensures
        frame_kept(d, copied_into(d, ids, parent, depth), html),
    decreases depth, ids.len(),
{
    if depth > 0 && ids.len() > 0 {
        lemma_copied_length(d, ids, parent, depth);
        let below = d.children(ids[0]);
        let copy = d.next_id();
        let kind = d.kind(ids[0]);
        let position = d.node(ids[0]).position;
        let e = d.new_node(kind, position);
        assert(kin_of(d, ids[0]));
        lemma_frame_new_node(d, kind, position, html);
        lemma_kin_insert(e, parent, None, copy);
        lemma_frame_insert(e, parent, None, copy, html);
        let f = e.append_child(parent, copy);
        lemma_frame_kept_twice(d, e, f, html);
        let g = copied_into(f, below, copy, (depth - 1) as nat);
        let rest = ids.drop_first();
        lemma_copied_length(f, below, copy, (depth - 1) as nat);
        lemma_copied_length(g, rest, parent, depth);
        assert forall|i: int| 0 <= i < below.len() implies inside(f, #[trigger] below[i]) by {
            assert(inside(d, d.children(ids[0])[i]));
        }
        lemma_frame_copied_into(f, below, copy, (depth - 1) as nat, html);
        lemma_frame_kept_twice(d, f, g, html);
        assert forall|i: int| 0 <= i < rest.len() implies inside(g, #[trigger] rest[i]) by {
            assert(rest[i] == ids[i + 1]);
        }
        lemma_frame_copied_into(g, rest, parent, depth, html);
        lemma_frame_kept_twice(d, g, copied_into(g, rest, parent, depth), html);
    }
}

proof fn lemma_tree_order_inside(d: DocumentModel, ids: Seq<NodeId>, depth: nat)
    requires
        kin(d),
        forall|i: int| 0 <= i < ids.len() ==> inside(d, #[trigger] ids[i]),
    ensures
        forall|i: int|
            0 <= i < in_tree_order(d, ids, depth).len() ==> inside(
                d,
                #[trigger] in_tree_order(d, ids, depth)[i],
            ),
    decreases depth, ids.len(),
{
    if depth > 0 && ids.len() > 0 {
        let below = d.children(ids[0]);
        assert(kin_of(d, ids[0]));
        assert forall|i: int| 0 <= i < below.len() implies inside(d, #[trigger] below[i]) by {
            assert(inside(d, d.children(ids[0])[i]));
        }
        lemma_tree_order_inside(d, below, (depth - 1) as nat);
        let rest = ids.drop_first();
        assert forall|i: int| 0 <= i < rest.len() implies inside(d, #[trigger] rest[i]) by {
            assert(rest[i] == ids[i + 1]);
        }
        lemma_tree_order_inside(d, rest, depth);
        let a = seq![ids[0]];
        let b = in_tree_order(d, below, (depth - 1) as nat);
        let c = in_tree_order(d, rest, depth);
        assert forall|i: int| 0 <= i < (a + b + c).len() implies inside(
            d,
            #[trigger] (a + b + c)[i],
        ) by {
            if i == 0 {
                assert((a + b + c)[i] == ids[0]);
            } else if i < 1 + b.len() {
                assert((a + b + c)[i] == b[i - 1]);
            } else {
                assert((a + b + c)[i] == c[i - 1 - b.len()]);
            }
        }
    }
}

proof fn lemma_nearest_select_inside(d: DocumentModel, id: NodeId, steps: nat)
    requires
        kin(d),
        inside(d, id),
    ensures
        nearest_select(d, id, steps) matches Some(select) ==> inside(d, select),
    decreases steps,
{
    if steps > 0 {
        assert(kin_of(d, id));
        match d.parent(id) {
            Some(p) => {
                lemma_nearest_select_inside(d, p, (steps - 1) as nat);
            },
            None => {},
        }
    }
}

proof fn lemma_first_selectedcontent(d: DocumentModel, ids: Seq<NodeId>, i: int)
    requires
        0 <= i,
    ensures
        first_selectedcontent(d, ids, i) matches Some(target) ==> ids.contains(target)
            && html_name(d.kind(target)) == Some("selectedcontent"@),
    decreases ids.len() - i,
{
    if i < ids.len() {
        lemma_first_selectedcontent(d, ids, i + 1);
        assert(ids.contains(ids[i]));
    }
}

/// Mirroring adds nodes.
pub proof fn lemma_after_pop_length(d: DocumentModel, node: NodeId)
    ensures
        d.nodes.len() <= after_pop(d, node).nodes.len(),
{
    reveal(after_pop);
    match nearest_select(d, node, d.nodes.len()) {
        Some(select) => {
            match first_selectedcontent(d, descendants(d, select), 0) {
                Some(target) => {
                    let e = detached_all(d, d.children(target));
                    lemma_detached_length(d, d.children(target));
                    lemma_copied_length(e, e.children(node), target, e.nodes.len());
                },
                None => {},
            }
        },
        None => {},
    }
}

proof fn lemma_detached_length(d: DocumentModel, ids: Seq<NodeId>)
    ensures
        detached_all(d, ids).nodes.len() == d.nodes.len(),
    decreases ids.len(),
{
    if ids.len() > 0 {
        lemma_detached_length(d.remove(ids[0]), ids.drop_first());
    }
}

/// What happens when a node is popped leaves the frame alone.
pub proof fn lemma_frame_after_pop(d: DocumentModel, node: NodeId, html: NodeId)
    requires
        kin(d),
        inside(d, html),
        inside(d, node),
        html_name(d.kind(html)) == Some("html"@),
        after_pop(d, node).nodes.len() <= usize::MAX,
    ensures
        frame_kept(d, after_pop(d, node), html),
{
    reveal(after_pop);
    reveal_strlit("html");
    reveal_strlit("selectedcontent");
    assert("html"@.len() == 4);
    assert("selectedcontent"@.len() == 15);
    lemma_nearest_select_inside(d, node, d.nodes.len());
    match nearest_select(d, node, d.nodes.len()) {
        Some(select) => {
            let below = descendants(d, select);
            lemma_first_selectedcontent(d, below, 0);
            assert(kin_of(d, select));
            assert forall|i: int| 0 <= i < d.children(select).len() implies inside(
                d,
                #[trigger] d.children(select)[i],
            ) by {}
            lemma_tree_order_inside(d, d.children(select), d.nodes.len());
            match first_selectedcontent(d, below, 0) {
                Some(target) => {
                    let k = choose|k: int| 0 <= k < below.len() && below[k] == target;
                    assert(inside(d, below[k]));
                    assert(kin_of(d, target));
                    lemma_frame_detached_all(d, d.children(target), target, html);
                    let e = detached_all(d, d.children(target));
                    assert(kin_of(e, node));
                    if html_name(d.kind(node)) == Some("option"@) && !(kind_has_attribute(
                        d.kind(select),
                        "multiple"@,
                    ) || chosen_option(d, below) != Some(node)) {
                        lemma_frame_copied_into(
                            e,
                            e.children(node),
                            target,
                            e.nodes.len(),
                            html,
                        );
                        lemma_frame_kept_twice(d, e, after_pop(d, node), html);
                    }
                },
                None => {},
            }
        },
        None => {},
    }
}

} // verus!
