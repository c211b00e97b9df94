//! What opening the active formatting elements again does, and what it leaves
//! alone.
use vstd::prelude::*;

use crate::document::laws::{
    lemma_can_still_insert, lemma_insert_before, lemma_leaf_is_no_ancestor, lemma_new_name,
    lemma_new_node,
};
use crate::document::model::{detached, DocumentModel, KindModel, NodeId, NodeModel};
use crate::token::{Position, TagModel};
use crate::tree_builder::elements::{
    lemma_insert_keeps_tags, lemma_new_node_keeps_tags, lemma_tags_kept_twice, tags_kept,
};
use crate::tree_builder::formatting::FormattingEntry;
use crate::tree_builder::laws::lemma_location_exists;
use crate::tree_builder::model::{closed_from, element_for, is_closed, tag_for, BuilderModel};
use crate::tree_builder::names::HTML_NAMESPACE;
use crate::tree_builder::soundness::{
    lemma_no_new_ancestor, lemma_sound_push, lemma_sound_with, lemma_sound_with_formatting,
};

verus! {

/// The entries from `closed_from` on are all closed, and no larger part at the
/// end of the list is.
pub proof fn lemma_closed_from(entries: Seq<FormattingEntry>, stack: Seq<NodeId>)
    ensures
        0 <= closed_from(entries, stack) <= entries.len(),
        forall|j: int|
            closed_from(entries, stack) <= j < entries.len() ==> is_closed(
                #[trigger] entries[j],
                stack,
            ),
        closed_from(entries, stack) > 0 ==> !is_closed(
            entries[closed_from(entries, stack) - 1],
            stack,
        ),
    decreases entries.len(),
{
    if entries.len() > 0 && is_closed(entries.last(), stack) {
        let rest = entries.drop_last();
        lemma_closed_from(rest, stack);
        assert forall|j: int| closed_from(rest, stack) <= j < entries.len() implies is_closed(
            #[trigger] entries[j],
            stack,
        ) by {
            if j < rest.len() {
                assert(rest[j] == entries[j]);
            }
        }
    }
}

proof fn lemma_reopen(t: BuilderModel, i: int)
    requires
        0 <= i < t.formatting.len(),
        t.formatting[i] is Element,
    ensures
        t.reopen(i).open_elements == t.open_elements.push(t.document.next_id()),
        t.reopen(i).formatting == t.formatting.update(
            i,
            FormattingEntry::Element(t.document.next_id()),
        ),
{
    reveal(BuilderModel::insert_foreign_element);
    reveal(BuilderModel::create_element);
}

/// What opening the entries `i` to `n` again does to the stack and the list: the
/// stack grows by one element for each of them, in their order, and each of them
/// is taken over by its element. Nothing else changes place or is removed.
pub proof fn lemma_reopen_from(t: BuilderModel, i: int, n: int)
    requires
        0 <= i <= n <= t.formatting.len(),
        forall|j: int| i <= j < n ==> #[trigger] t.formatting[j] is Element,
    ensures
        ({
            let r = t.reopen_from(i, n);
            let m = t.open_elements.len();
            &&& r.open_elements.len() == m + (n - i)
            &&& forall|j: int|
                0 <= j < m ==> #[trigger] r.open_elements[j] == t.open_elements[j]
            &&& r.formatting.len() == t.formatting.len()
            &&& forall|j: int|
                0 <= j < t.formatting.len() ==> #[trigger] r.formatting[j] == (if i <= j < n {
                    FormattingEntry::Element(r.open_elements[m + j - i])
                } else {
                    t.formatting[j]
                })
        }),
    decreases n - i,
{
    if i < n {
        lemma_reopen(t, i);
        let next = t.reopen(i);
        lemma_reopen_from(next, i + 1, n);
        let r = t.reopen_from(i, n);
        let m = t.open_elements.len();
        assert(next.open_elements[m as int] == r.open_elements[m as int]);
        assert forall|j: int| 0 <= j < m implies #[trigger] r.open_elements[j]
            == t.open_elements[j] by {
            assert(r.open_elements[j] == next.open_elements[j]);
        }
    }
}

/// Tells the nodes of `d` from others.
pub open spec fn nodes_of(d: DocumentModel) -> spec_fn(NodeId) -> bool {
    |id: NodeId| d.has(id)
}

/// `e` is `d` with nodes added: every node of `d` is what it was, where it was, and
/// stands in the same order among the others.
pub open spec fn grown(d: DocumentModel, e: DocumentModel) -> bool {
    &&& e.root == d.root
    &&& d.nodes.len() <= e.nodes.len()
    &&& forall|id: NodeId|
        d.has(id) ==> {
            &&& (#[trigger] e.node(id)).kind == d.node(id).kind
            &&& e.node(id).position == d.node(id).position
            &&& e.node(id).parent == d.node(id).parent
            &&& e.node(id).children.filter(nodes_of(d)) == d.node(id).children
        }
}

proof fn lemma_filter_all(list: Seq<NodeId>, d: DocumentModel)
    requires
        forall|i: int| 0 <= i < list.len() ==> d.has(#[trigger] list[i]),
    ensures
        list.filter(nodes_of(d)) == list,
    decreases list.len(),
{
    reveal(Seq::filter);
    if list.len() > 0 {
        let rest = list.drop_last();
        assert forall|i: int| 0 <= i < rest.len() implies d.has(#[trigger] rest[i]) by {
            assert(rest[i] == list[i]);
        }
        lemma_filter_all(rest, d);
        assert(d.has(list[list.len() - 1]));
        assert(list == rest.push(list.last()));
    }
}

proof fn lemma_filter_insert(list: Seq<NodeId>, at: int, id: NodeId, d: DocumentModel)
    requires
        0 <= at <= list.len(),
        !d.has(id),
    ensures
        list.insert(at, id).filter(nodes_of(d)) == list.filter(nodes_of(d)),
{
    let pred = nodes_of(d);
    let before = list.take(at);
    let after = list.skip(at);
    assert(list.insert(at, id) == before.push(id) + after);
    assert(list == before + after);
    Seq::filter_distributes_over_add(before.push(id), after, pred);
    Seq::filter_distributes_over_add(before, after, pred);
    before.lemma_filter_push(id, pred);
}

/// Every document is itself with nothing added.
proof fn lemma_grown_not(d: DocumentModel)
    requires
        d.wf(),
    ensures
        grown(d, d),
{
    assert forall|id: NodeId| d.has(id) implies (#[trigger] d.node(id)).children.filter(nodes_of(d))
        == d.node(id).children by {
        assert(d.family(id));
        let list = d.node(id).children;
        assert forall|i: int| 0 <= i < list.len() implies d.has(#[trigger] list[i]) by {
            assert(d.has(d.children(id)[i]));
        }
        lemma_filter_all(list, d);
    }
}

proof fn lemma_grown_by_node(
    d: DocumentModel,
    e: DocumentModel,
    kind: KindModel,
    position: Option<Position>,
)
    requires
        d.wf(),
        grown(d, e),
        e.wf(),
        e.nodes.len() < usize::MAX,
    ensures
        grown(d, e.new_node(kind, position)),
        e.new_node(kind, position).node(e.next_id()) == detached(kind, position),
{
    let f = e.new_node(kind, position);
    lemma_new_node(e, kind, position);
    assert forall|id: NodeId| d.has(id) implies #[trigger] f.node(id) == e.node(id) by {
        assert(e.has(id));
    }
}

proof fn lemma_grown_by_insertion(
    d: DocumentModel,
    e: DocumentModel,
    parent: NodeId,
    reference: Option<NodeId>,
    id: NodeId,
)
    requires
        d.wf(),
        grown(d, e),
        e.wf(),
        e.can_insert(parent, reference, id),
        !d.has(id),
        e.parent(id) is None,
    ensures
        grown(d, e.insert_before(parent, reference, id)),
        e.insert_before(parent, reference, id).node(id) == (NodeModel {
            parent: Some(parent),
            ..e.node(id)
        }),
{
    lemma_can_still_insert(e, parent, reference, id);
    let f = e.insert_before(parent, reference, id);
    let at = e.place(parent, reference);
    assert(e.remove(id) == e);
    assert forall|other: NodeId| d.has(other) implies {
        &&& (#[trigger] f.node(other)).kind == d.node(other).kind
        &&& f.node(other).position == d.node(other).position
        &&& f.node(other).parent == d.node(other).parent
        &&& f.node(other).children.filter(nodes_of(d)) == d.node(other).children
    } by {
        assert(e.node(other).kind == d.node(other).kind);
        if other == parent {
            lemma_filter_insert(e.children(parent), at, id, d);
        }
    }
}

/// The element that is made for a tag is new, and nothing else changes.
proof fn lemma_created(d: DocumentModel, t: BuilderModel, tag: TagModel, namespace: Seq<char>)
    requires
        d.wf(),
        grown(d, t.document),
        t.document.wf(),
        t.document.nodes.len() + 2 < usize::MAX,
    ensures
        ({
            let e = t.create_element(tag, namespace, None).document;
            let element = t.document.next_id();
            &&& e.wf()
            &&& grown(d, e)
            &&& tags_kept(t.document, e)
            &&& t.document.nodes.len() < e.nodes.len() <= t.document.nodes.len() + 2
            &&& e.has(element)
            &&& e.kind(element) == element_for(tag, namespace)
            &&& e.node(element).position is None
            &&& e.parent(element) is None
            &&& forall|id: NodeId|
                t.document.has(id) ==> #[trigger] e.node(id) == t.document.node(id)
        }),
{
    reveal(BuilderModel::create_element);
    let c = t.document;
    let kind = element_for(tag, namespace);
    let element = c.next_id();
    let e = c.new_node(kind, None);
    lemma_new_node(c, kind, None);
    lemma_new_node_keeps_tags(c, kind, None);
    lemma_new_name(c);
    lemma_grown_by_node(d, c, kind, None);
    if namespace == HTML_NAMESPACE@ && tag.name == "template"@ {
        let contents = e.next_id();
        let f = e.new_node(KindModel::DocumentFragment, None);
        lemma_new_node(e, KindModel::DocumentFragment, None);
        lemma_new_node_keeps_tags(e, KindModel::DocumentFragment, None);
        lemma_new_name(e);
        lemma_grown_by_node(d, e, KindModel::DocumentFragment, None);
        assert(f.node(element) == e.node(element));
        lemma_leaf_is_no_ancestor(f, contents, element);
        lemma_insert_before(f, element, None, contents);
        lemma_insert_keeps_tags(f, element, None, contents);
        lemma_grown_by_insertion(d, f, element, None, contents);
        let g = f.append_child(element, contents);
        lemma_tags_kept_twice(c, e, f);
        lemma_tags_kept_twice(c, f, g);
        assert(f.remove(contents) == f);
        assert(g.node(element).kind == f.node(element).kind);
        assert(g.parent(element) == f.parent(element));
        assert forall|id: NodeId| c.has(id) implies #[trigger] g.node(id) == c.node(id) by {
            assert(e.node(id) == c.node(id));
            assert(f.node(id) == e.node(id));
        }
    }
}

/// An HTML element with the name and the attributes of another one.
pub open spec fn like(kind: KindModel) -> KindModel {
    element_for(tag_for(kind), HTML_NAMESPACE@)
}

/// The parent that an element gets when it is inserted now. The document node takes
/// no second child.
pub open spec fn parent_for_element(t: BuilderModel) -> Option<NodeId> {
    let place = t.location(None).parent;
    if place == t.document.root && t.document.children(place).len() > 0 {
        None
    } else {
        Some(place)
    }
}

/// `element` of `e` was not in `d`. It is like `node` there, has no position, and was
/// inserted when the tree builder was at `t`.
pub open spec fn is_copy(
    d: DocumentModel,
    node: NodeId,
    t: BuilderModel,
    e: DocumentModel,
    element: NodeId,
) -> bool {
    &&& !d.has(element)
    &&& e.has(element)
    &&& e.kind(element) == like(d.kind(node))
    &&& e.node(element).position is None
    &&& e.parent(element) == parent_for_element(t)
}

/// What opening one entry again does to the tree: it adds an element like that of
/// the entry, at the place that a node goes to now.
proof fn lemma_reopen_in_tree(d: DocumentModel, t: BuilderModel, i: int)
    requires
        d.wf(),
        grown(d, t.document),
        t.document.wf(),
        t.sound(),
        t.document.nodes.len() + 2 < usize::MAX,
        0 <= i < t.formatting.len(),
        t.formatting[i] is Element,
    ensures
        ({
            let r = t.reopen(i);
            let element = t.document.next_id();
            &&& r.document.wf()
            &&& r.sound()
            &&& grown(d, r.document)
            &&& r.document.nodes.len() <= t.document.nodes.len() + 2
            &&& !t.document.has(element) && r.document.has(element)
            &&& r.document.kind(element) == like(t.document.kind(t.formatting[i]->0))
            &&& r.document.node(element).position is None
            &&& r.document.parent(element) == parent_for_element(t)
        }),
{
    reveal(BuilderModel::insert_foreign_element);
    let c = t.document;
    let tag = tag_for(c.kind(t.formatting[i]->0));
    let element = c.next_id();
    let location = t.location(None);
    lemma_location_exists(t);
    lemma_new_name(c);
    lemma_created(d, t, tag, HTML_NAMESPACE@);
    let made = t.create_element(tag, HTML_NAMESPACE@, None);
    let e = made.document;
    assert(made == BuilderModel { document: e, ..t }) by {
        reveal(BuilderModel::create_element);
    }
    lemma_sound_with(t, e);
    assert forall|id: NodeId| c.has(id) implies #[trigger] e.parent(id) == c.parent(id) by {
        assert(e.node(id) == c.node(id));
    }
    assert(e.node(location.parent) == c.node(location.parent));
    lemma_no_new_ancestor(c, e, element, location.parent);
    match location.before {
        Some(before) => {
            assert(e.parent(before) == c.parent(before));
        },
        None => {},
    }
    assert(e.can_insert(location.parent, location.before, element));
    lemma_insert_before(e, location.parent, location.before, element);
    lemma_insert_keeps_tags(e, location.parent, location.before, element);
    lemma_grown_by_insertion(d, e, location.parent, location.before, element);
    let placed = made.insert_element_at(element, location);
    let f = e.insert_before(location.parent, location.before, element);
    lemma_sound_with(made, f);
    assert(placed == made || placed == BuilderModel { document: f, ..made });
    lemma_sound_push(placed, element);
    let opened = BuilderModel { open_elements: placed.open_elements.push(element), ..placed };
    lemma_sound_with_formatting(opened, i, element);
}

/// Opening the active formatting elements again adds to the stack one element
/// for each closed entry at the end of the list, in the order of the entries,
/// which takes over its entry. The rest of the stack and of the list stays as it
/// is. Where nothing is closed, nothing happens at all.
pub proof fn lemma_reconstruct(t: BuilderModel)
    ensures
        ({
            let r = t.reconstruct_formatting();
            let k = closed_from(t.formatting, t.open_elements);
            let m = t.open_elements.len();
            &&& r.open_elements.len() == m + (t.formatting.len() - k)
            &&& r.open_elements.take(m as int) == t.open_elements
            &&& r.formatting.len() == t.formatting.len()
            &&& r.formatting.take(k) == t.formatting.take(k)
            &&& forall|j: int|
                k <= j < t.formatting.len() ==> #[trigger] r.formatting[j]
                    == FormattingEntry::Element(r.open_elements[m + j - k])
            &&& k == t.formatting.len() ==> r == t
        }),
{
    reveal(BuilderModel::reconstruct_formatting);
    let k = closed_from(t.formatting, t.open_elements);
    lemma_closed_from(t.formatting, t.open_elements);
    assert forall|j: int| k <= j < t.formatting.len() implies #[trigger] t.formatting[j] is Element
        by {
        assert(is_closed(t.formatting[j], t.open_elements));
    }
    lemma_reopen_from(t, k, t.formatting.len() as int);
}

proof fn lemma_reopen_from_in_tree(d: DocumentModel, t: BuilderModel, i: int, n: int)
    requires
        d.wf(),
        grown(d, t.document),
        t.document.wf(),
        t.sound(),
        0 <= i <= n <= t.formatting.len(),
        t.document.nodes.len() + 2 * (n - i) < usize::MAX,
        forall|j: int| i <= j < n ==> #[trigger] t.formatting[j] is Element,
    ensures
        ({
            let r = t.reopen_from(i, n);
            let m = t.open_elements.len();
            &&& grown(d, r.document)
            &&& forall|j: int|
                i <= j < n ==> is_copy(
                    t.document,
                    #[trigger] t.formatting[j]->0,
                    t.reopen_from(i, j),
                    r.document,
                    r.open_elements[m + j - i],
                )
        }),
    decreases n - i,
{
    if i < n {
        let next = t.reopen(i);
        let r = t.reopen_from(i, n);
        let m = t.open_elements.len();
        let element = t.document.next_id();
        lemma_reopen(t, i);
        lemma_grown_not(t.document);
        lemma_reopen_in_tree(t.document, t, i);
        lemma_reopen_in_tree(d, t, i);
        lemma_grown_not(next.document);
        lemma_reopen_from_in_tree(d, next, i + 1, n);
        lemma_reopen_from_in_tree(next.document, next, i + 1, n);
        lemma_reopen_from(next, i + 1, n);
        assert(next.open_elements[m as int] == r.open_elements[m as int]);
        assert forall|j: int| i <= j < n implies is_copy(
            t.document,
            #[trigger] t.formatting[j]->0,
            t.reopen_from(i, j),
            r.document,
            r.open_elements[m + j - i],
        ) by {
            if j == i {
                assert(t.reopen_from(i, i) == t);
                assert(r.document.node(element).kind == next.document.node(element).kind);
                assert(r.open_elements[m + j - i] == element);
            } else {
                let node = t.formatting[j]->0;
                assert(t.reopen_from(i, j) == next.reopen_from(i + 1, j));
                assert(m + j - i == next.open_elements.len() + j - (i + 1));
                assert(next.formatting[j] == t.formatting[j]);
                assert(t.document.has(node)) by {
                    reveal(BuilderModel::sound);
                    assert(t.formatting[j] == FormattingEntry::Element(node));
                }
                assert(next.document.node(node).kind == t.document.node(node).kind);
            }
        }
    }
}

/// Opening the active formatting elements again puts into the tree, for each closed
/// entry at the end of the list, a new HTML element with the name and the attributes
/// of the one that the entry had and without a position, one after the other, at the
/// place that a node goes to at that point. No node that was there before is moved,
/// removed or changed.
pub proof fn lemma_reconstruct_in_tree(t: BuilderModel)
    requires
        t.document.wf(),
        t.sound(),
        t.document.nodes.len() + 2 * t.formatting.len() < usize::MAX,
    ensures
        ({
            let r = t.reconstruct_formatting();
            let k = closed_from(t.formatting, t.open_elements);
            let m = t.open_elements.len();
            &&& grown(t.document, r.document)
            &&& forall|j: int|
                k <= j < t.formatting.len() ==> is_copy(
                    t.document,
                    #[trigger] t.formatting[j]->0,
                    t.reopen_from(k, j),
                    r.document,
                    r.open_elements[m + j - k],
                )
        }),
{
    reveal(BuilderModel::reconstruct_formatting);
    let k = closed_from(t.formatting, t.open_elements);
    lemma_closed_from(t.formatting, t.open_elements);
    assert forall|j: int| k <= j < t.formatting.len() implies #[trigger] t.formatting[j] is Element
        by {
        assert(is_closed(t.formatting[j], t.open_elements));
    }
    lemma_grown_not(t.document);
    lemma_reopen_from_in_tree(t.document, t, k, t.formatting.len() as int);
}

/// Opening the active formatting elements again a second time changes nothing.
pub proof fn lemma_reconstruct_twice(t: BuilderModel)
    ensures
        t.reconstruct_formatting().reconstruct_formatting() == t.reconstruct_formatting(),
{
    let r = t.reconstruct_formatting();
    let k = closed_from(t.formatting, t.open_elements);
    lemma_closed_from(t.formatting, t.open_elements);
    lemma_reconstruct(t);
    if k < t.formatting.len() {
        let last = t.formatting.len() - 1;
        let node = r.open_elements[t.open_elements.len() + last - k];
        assert(r.formatting[last] == FormattingEntry::Element(node));
        assert(r.open_elements.contains(node));
        assert(closed_from(r.formatting, r.open_elements) == r.formatting.len());
    }
    lemma_reconstruct(r);
}

} // verus!
