//! What holds of every document, and what each change to one does.
use vstd::prelude::*;

use crate::document::model::{
    element_has_attribute, empty_document, merged, plain_attribute, ranked, DocumentModel,
    ElementAttribute, KindModel, NodeId,
};
use crate::token::{AttributeModel, Position};

verus! {

/// The document without content is a forest.
pub proof fn lemma_empty_document()
    ensures
        empty_document().wf(),
{
    let d = empty_document();
    let rank = |id: NodeId| 0int;
    assert(ranked(d.nodes, rank));
    assert forall|id: NodeId| d.has(id) implies #[trigger] d.family(id) by {
        assert(id.index == 1);
    }
}

/// No node is its own parent.
pub proof fn lemma_not_own_parent(d: DocumentModel, id: NodeId)
    requires
        d.wf(),
        d.has(id),
    ensures
        d.parent(id) != Some(id),
{
    let rank = choose|rank: spec_fn(NodeId) -> int| ranked(d.nodes, rank);
    assert(ranked(d.nodes, rank));
    assert(d.nodes[id.index as int] == d.node(id));
}

/// Adding a node keeps the document a forest.
pub proof fn lemma_new_node(d: DocumentModel, kind: KindModel, position: Option<Position>)
    requires
        d.wf(),
        d.nodes.len() < usize::MAX,
    ensures
        d.new_node(kind, position).wf(),
        d.new_node(kind, position).has(d.next_id()),
        forall|id: NodeId|
            d.has(id) ==> #[trigger] d.new_node(kind, position).node(id) == d.node(id),
{
    let e = d.new_node(kind, position);
    let rank = choose|rank: spec_fn(NodeId) -> int| ranked(d.nodes, rank);
    assert(ranked(d.nodes, rank));
    let new_rank = |id: NodeId|
        if id.index < d.nodes.len() {
            rank(id)
        } else {
            0
        };
    assert(ranked(e.nodes, new_rank)) by {
        assert forall|i: usize| 0 <= i < e.nodes.len() implies match (#[trigger] e.nodes[i as int]).parent {
            Some(p) => 0 <= new_rank(p) < new_rank(NodeId { index: i }),
            None => 0 <= new_rank(NodeId { index: i }),
        } by {
            if i < d.nodes.len() {
                assert(e.nodes[i as int] == d.nodes[i as int]);
                if i > 0 {
                    assert(d.family(NodeId { index: i }));
                }
            }
        }
    }
    assert forall|id: NodeId| e.has(id) implies #[trigger] e.family(id) by {
        if d.has(id) {
            assert(d.family(id));
            assert(e.node(id) == d.node(id));
            assert forall|i: int| 0 <= i < e.children(id).len() implies e.has(
                #[trigger] e.children(id)[i],
            ) && e.parent(e.children(id)[i]) == Some(id) by {
                assert(d.has(d.children(id)[i]));
                assert(e.node(d.children(id)[i]) == d.node(d.children(id)[i]));
            }
        }
    }
}

/// Detaching a node keeps the document a forest.
pub proof fn lemma_remove(d: DocumentModel, id: NodeId)
    requires
        d.wf(),
        d.has(id),
    ensures
        d.remove(id).wf(),
        d.remove(id).nodes.len() == d.nodes.len(),
        d.remove(id).root == d.root,
        d.remove(id).parent(id) is None,
        forall|other: NodeId|
            d.has(other) ==> (#[trigger] d.remove(id).node(other)).kind == d.node(other).kind,
        forall|other: NodeId|
            d.has(other) && other != id ==> #[trigger] d.remove(id).parent(other) == d.parent(
                other,
            ),
{
    assert(d.family(id));
    match d.parent(id) {
        None => {},
        Some(p) => {
            let e = d.remove(id);
            let list = d.children(p);
            let at = list.index_of(id);
            assert(d.family(p));
            lemma_not_own_parent(d, id);
            assert(list[at] == id);
            let rank = choose|rank: spec_fn(NodeId) -> int| ranked(d.nodes, rank);
            assert(ranked(d.nodes, rank));
            assert(ranked(e.nodes, rank)) by {
                assert forall|i: usize| 0 <= i < e.nodes.len() implies match (
                #[trigger] e.nodes[i as int]).parent {
                    Some(p) => 0 <= rank(p) < rank(NodeId { index: i }),
                    None => 0 <= rank(NodeId { index: i }),
                } by {
                    assert(d.nodes[i as int].parent is Some || d.nodes[i as int].parent is None);
                }
            }
            assert(e.children(p) == list.remove(at));
            assert forall|other: NodeId| e.has(other) implies #[trigger] e.family(other) by {
                assert(d.family(other));
                if other == p {
                    assert forall|i: int, j: int|
                        0 <= i < j < e.children(p).len() implies e.children(p)[i] != e.children(
                        p,
                    )[j] by {
                        let a = if i < at {
                            i
                        } else {
                            i + 1
                        };
                        let b = if j < at {
                            j
                        } else {
                            j + 1
                        };
                        assert(list[a] != list[b]);
                    }
                    assert forall|i: int| 0 <= i < e.children(p).len() implies e.has(
                        #[trigger] e.children(p)[i],
                    ) && e.parent(e.children(p)[i]) == Some(p) by {
                        let a = if i < at {
                            i
                        } else {
                            i + 1
                        };
                        assert(e.children(p)[i] == list[a]);
                        assert(d.has(list[a]));
                        assert(list[a] != list[at]);
                    }
                } else {
                    assert(e.children(other) == d.children(other));
                    assert forall|i: int| 0 <= i < e.children(other).len() implies e.has(
                        #[trigger] e.children(other)[i],
                    ) && e.parent(e.children(other)[i]) == Some(other) by {
                        assert(d.has(d.children(other)[i]));
                        assert(d.parent(d.children(other)[i]) == Some(other));
                    }
                }
                match e.parent(other) {
                    Some(q) => {
                        assert(other != id);
                        assert(d.children(q).contains(other));
                        if q == p {
                            let j = choose|j: int| 0 <= j < list.len() && list[j] == other;
                            let k = if j < at {
                                j
                            } else {
                                j - 1
                            };
                            assert(e.children(p)[k] == other);
                        }
                    },
                    None => {},
                }
            }
        },
    }
}

/// A node is an inclusive ancestor of itself, and otherwise of the nodes whose
/// parent it is an inclusive ancestor of.
pub proof fn lemma_ancestor_step(d: DocumentModel, a: NodeId, id: NodeId)
    ensures
        d.is_inclusive_ancestor(a, id) <==> a == id || match d.parent(id) {
            Some(p) => d.is_inclusive_ancestor(a, p),
            None => false,
        },
{
    if a == id {
        assert(d.ancestor(id, 0) == Some(a));
    }
    match d.parent(id) {
        Some(p) => {
            if d.is_inclusive_ancestor(a, p) {
                let k = choose|k: nat| d.ancestor(p, k) == Some(a);
                assert(d.ancestor(id, k + 1) == Some(a));
            }
            if d.is_inclusive_ancestor(a, id) && a != id {
                let k = choose|k: nat| d.ancestor(id, k) == Some(a);
                assert(d.ancestor(p, (k - 1) as nat) == Some(a));
            }
        },
        None => {
            if d.is_inclusive_ancestor(a, id) {
                let k = choose|k: nat| d.ancestor(id, k) == Some(a);
                assert(k == 0);
            }
        },
    }
}

/// A node whose descendants do not hold `id` is no ancestor of anything that
/// stays where it is when `id` is detached.
proof fn lemma_ancestors_without(d: DocumentModel, id: NodeId, other: NodeId, k: nat)
    requires
        d.wf(),
        d.has(id),
        d.has(other),
        !d.is_inclusive_ancestor(id, other),
    ensures
        d.remove(id).ancestor(other, k) == d.ancestor(other, k),
    decreases k,
{
    lemma_remove(d, id);
    lemma_ancestor_step(d, id, other);
    if k > 0 {
        assert(d.family(other));
        assert(d.remove(id).parent(other) == d.parent(other));
        match d.parent(other) {
            Some(p) => lemma_ancestors_without(d, id, p, (k - 1) as nat),
            None => {},
        }
    }
}

/// After a node was detached, it can be inserted wherever it could be before.
pub proof fn lemma_can_still_insert(
    d: DocumentModel,
    parent: NodeId,
    reference: Option<NodeId>,
    id: NodeId,
)
    requires
        d.wf(),
        d.can_insert(parent, reference, id),
    ensures
        d.remove(id).wf(),
        d.remove(id).parent(id) is None,
        d.remove(id).can_insert(parent, reference, id),
        parent != id,
        0 <= d.remove(id).place(parent, reference) <= d.remove(id).children(parent).len(),
        reference matches Some(r) ==> d.remove(id).place(parent, reference) < d.remove(
            id,
        ).children(parent).len() && d.remove(id).children(parent)[d.remove(id).place(
            parent,
            reference,
        )] == r,
{
    let e = d.remove(id);
    lemma_remove(d, id);
    lemma_ancestor_step(d, id, parent);
    if e.is_inclusive_ancestor(id, parent) {
        let k = choose|k: nat| e.ancestor(parent, k) == Some(id);
        lemma_ancestors_without(d, id, parent, k);
        assert(d.ancestor(parent, k) == Some(id));
    }
    match reference {
        Some(r) => {
            assert(e.parent(r) == d.parent(r));
            assert(e.family(r));
            assert(e.children(parent).contains(r));
        },
        None => {},
    }
}

/// The ranks of the nodes when `id` is put under `parent`.
proof fn lemma_attach_ranked(e: DocumentModel, parent: NodeId, at: int, id: NodeId)
    requires
        e.wf(),
        e.has(parent),
        e.has(id),
        e.parent(id) is None,
        !e.is_inclusive_ancestor(id, parent),
        0 <= at <= e.children(parent).len(),
    ensures
        exists|rank: spec_fn(NodeId) -> int| ranked(e.attach(parent, at, id).nodes, rank),
{
    let f = e.attach(parent, at, id);
    let rank = choose|rank: spec_fn(NodeId) -> int| ranked(e.nodes, rank);
    assert(ranked(e.nodes, rank));
    let new_rank = |other: NodeId|
        if e.is_inclusive_ancestor(id, other) {
            rank(other) + rank(parent) + 1
        } else {
            rank(other)
        };
    lemma_ancestor_step(e, id, parent);
    assert(e.nodes[parent.index as int] == e.node(parent));
    assert(e.nodes[id.index as int] == e.node(id));
    assert(0 <= rank(parent));
    assert forall|i: usize| 0 <= i < f.nodes.len() implies match (#[trigger] f.nodes[i as int]).parent {
        Some(p) => 0 <= new_rank(p) < new_rank(NodeId { index: i }),
        None => 0 <= new_rank(NodeId { index: i }),
    } by {
        let other = NodeId { index: i };
        assert(e.nodes[i as int] == e.node(other));
        lemma_ancestor_step(e, id, other);
        if other == id {
            assert(f.nodes[i as int].parent == Some(parent));
        } else {
            assert(f.nodes[i as int].parent == e.nodes[i as int].parent);
        }
    }
    assert(ranked(f.nodes, new_rank));
}

/// The family of `parent` when `id` is put among its children.
proof fn lemma_attach_family(e: DocumentModel, parent: NodeId, at: int, id: NodeId)
    requires
        e.wf(),
        e.has(parent),
        e.has(id),
        e.parent(id) is None,
        parent != id,
        0 <= at <= e.children(parent).len(),
    ensures
        e.attach(parent, at, id).family(parent),
        !e.children(parent).contains(id),
        forall|other: NodeId|
            e.children(parent).contains(other) ==> #[trigger] e.attach(parent, at, id).children(
                parent,
            ).contains(other),
{
    let f = e.attach(parent, at, id);
    let list = e.children(parent);
    let longer = list.insert(at, id);
    assert(e.family(parent));
    assert(!list.contains(id)) by {
        if list.contains(id) {
            let k = choose|k: int| 0 <= k < list.len() && list[k] == id;
            assert(e.parent(e.children(parent)[k]) == Some(parent));
        }
    }
    assert(f.children(parent) == longer);
    assert forall|i: int, j: int| 0 <= i < j < longer.len() implies longer[i] != longer[j] by {
        let a = if i < at {
            i
        } else {
            i - 1
        };
        let b = if j < at {
            j
        } else {
            j - 1
        };
        if i != at {
            assert(longer[i] == list[a]);
            assert(list.contains(list[a]));
        }
        if j != at {
            assert(longer[j] == list[b]);
            assert(list.contains(list[b]));
        }
    }
    assert forall|i: int| 0 <= i < longer.len() implies f.has(#[trigger] longer[i]) && f.parent(
        longer[i],
    ) == Some(parent) by {
        if i != at {
            let a = if i < at {
                i
            } else {
                i - 1
            };
            assert(longer[i] == list[a]);
            assert(e.has(e.children(parent)[a]));
            assert(list.contains(list[a]));
        }
    }
    assert forall|other: NodeId| list.contains(other) implies #[trigger] f.children(
        parent,
    ).contains(other) by {
        let j = choose|j: int| 0 <= j < list.len() && list[j] == other;
        let k = if j < at {
            j
        } else {
            j + 1
        };
        assert(longer[k] == other);
    }
    lemma_not_own_parent(e, parent);
    match f.parent(parent) {
        Some(q) => {
            assert(e.children(q).contains(parent));
        },
        None => {},
    }
}

/// Putting a detached node under another keeps the document a forest.
proof fn lemma_attach(e: DocumentModel, parent: NodeId, at: int, id: NodeId)
    requires
        e.wf(),
        e.has(parent),
        e.has(id),
        e.parent(id) is None,
        !e.is_inclusive_ancestor(id, parent),
        0 <= at <= e.children(parent).len(),
    ensures
        e.attach(parent, at, id).wf(),
{
    let f = e.attach(parent, at, id);
    lemma_ancestor_step(e, id, parent);
    lemma_attach_ranked(e, parent, at, id);
    lemma_attach_family(e, parent, at, id);
    assert forall|other: NodeId| f.has(other) implies #[trigger] f.family(other) by {
        assert(e.family(other));
        if other != parent {
            assert(f.children(other) == e.children(other));
            assert forall|i: int| 0 <= i < f.children(other).len() implies f.has(
                #[trigger] f.children(other)[i],
            ) && f.parent(f.children(other)[i]) == Some(other) by {
                assert(e.has(e.children(other)[i]));
                assert(e.parent(e.children(other)[i]) == Some(other));
            }
            match f.parent(other) {
                Some(q) => {
                    if other == id {
                        assert(f.children(parent)[at] == id);
                    } else {
                        assert(e.children(q).contains(other));
                        if q != parent {
                            assert(f.children(q) == e.children(q));
                        }
                    }
                },
                None => {},
            }
        }
    }
}

/// Moving a node keeps the document a forest, changes the parent of that node
/// only, and changes no kind of node.
pub proof fn lemma_insert_before(
    d: DocumentModel,
    parent: NodeId,
    reference: Option<NodeId>,
    id: NodeId,
)
    requires
        d.wf(),
        d.can_insert(parent, reference, id),
    ensures
        d.insert_before(parent, reference, id).wf(),
        d.insert_before(parent, reference, id).parent(id) == Some(parent),
        d.insert_before(parent, reference, id).nodes.len() == d.nodes.len(),
        d.insert_before(parent, reference, id).root == d.root,
        forall|other: NodeId|
            d.has(other) ==> (#[trigger] d.insert_before(parent, reference, id).node(other)).kind
                == d.node(other).kind,
        forall|other: NodeId|
            d.has(other) && other != id ==> #[trigger] d.insert_before(
                parent,
                reference,
                id,
            ).parent(other) == d.parent(other),
{
    let e = d.remove(id);
    lemma_remove(d, id);
    lemma_can_still_insert(d, parent, reference, id);
    lemma_attach(e, parent, e.place(parent, reference), id);
    assert forall|other: NodeId| d.has(other) implies (#[trigger] d.insert_before(
        parent,
        reference,
        id,
    ).node(other)).kind == d.node(other).kind by {
        assert(e.node(other).kind == d.node(other).kind);
    }
    assert forall|other: NodeId| d.has(other) && other != id implies #[trigger] d.insert_before(
        parent,
        reference,
        id,
    ).parent(other) == d.parent(other) by {
        assert(e.parent(other) == d.parent(other));
    }
}

/// Changing what a node holds keeps the document a forest.
pub proof fn lemma_with_kind(d: DocumentModel, id: NodeId, kind: KindModel)
    requires
        d.wf(),
        d.has(id),
    ensures
        d.with_kind(id, kind).wf(),
{
    let e = d.with_kind(id, kind);
    let rank = choose|rank: spec_fn(NodeId) -> int| ranked(d.nodes, rank);
    assert(ranked(d.nodes, rank));
    assert(ranked(e.nodes, rank)) by {
        assert forall|i: usize| 0 <= i < e.nodes.len() implies match (
        #[trigger] e.nodes[i as int]).parent {
            Some(p) => 0 <= rank(p) < rank(NodeId { index: i }),
            None => 0 <= rank(NodeId { index: i }),
        } by {
            assert(e.nodes[i as int].parent == d.nodes[i as int].parent);
        }
    }
    assert forall|other: NodeId| e.has(other) implies #[trigger] e.family(other) by {
        assert(d.family(other));
        assert(e.children(other) == d.children(other));
        assert forall|i: int| 0 <= i < e.children(other).len() implies e.has(
            #[trigger] e.children(other)[i],
        ) && e.parent(e.children(other)[i]) == Some(other) by {
            assert(d.has(d.children(other)[i]));
        }
    }
}

/// A node without children is an ancestor of no other node.
pub proof fn lemma_leaf_is_no_ancestor(d: DocumentModel, leaf: NodeId, other: NodeId)
    requires
        d.wf(),
        d.has(leaf),
        d.has(other),
        d.children(leaf).len() == 0,
        leaf != other,
    ensures
        !d.is_inclusive_ancestor(leaf, other),
{
    if d.is_inclusive_ancestor(leaf, other) {
        let k = choose|k: nat| d.ancestor(other, k) == Some(leaf);
        lemma_leaf_not_above(d, leaf, other, k);
    }
}

proof fn lemma_leaf_not_above(d: DocumentModel, leaf: NodeId, other: NodeId, k: nat)
    requires
        d.wf(),
        d.has(other),
        d.children(leaf).len() == 0,
        leaf != other,
    ensures
        d.ancestor(other, k) != Some(leaf),
    decreases k,
{
    assert(d.family(other));
    if k > 0 {
        match d.parent(other) {
            Some(p) => {
                assert(p != leaf);
                lemma_leaf_not_above(d, leaf, p, (k - 1) as nat);
            },
            None => {},
        }
    }
}

/// Detaching a node that was appended undoes the appending.
pub proof fn lemma_remove_undoes_append(d: DocumentModel, parent: NodeId, id: NodeId)
    requires
        d.wf(),
        d.can_insert(parent, None, id),
        d.parent(id) is None,
    ensures
        d.append_child(parent, id).remove(id) == d,
{
    let list = d.children(parent);
    let at = list.len() as int;
    lemma_ancestor_step(d, id, parent);
    lemma_attach_family(d, parent, at, id);
    let f = d.append_child(parent, id);
    let longer = list.insert(at, id);
    assert(f.children(parent) == longer);
    assert(longer[at] == id);
    assert(longer.contains(id));
    let i = longer.index_of(id);
    assert(longer[i] == id);
    if i < at {
        assert(list.contains(list[i]));
    }
    assert(longer.remove(at) == list);
    assert(f.remove(id).nodes =~= d.nodes) by {
        assert forall|j: int| 0 <= j < d.nodes.len() implies f.remove(id).nodes[j]
            == d.nodes[j] by {
            if j == parent.index {
                assert(f.remove(id).nodes[j].children == list);
            }
        }
    }
}

/// Moving a node takes it out of the children of its old parent and leaves the
/// children of all other nodes alone.
pub proof fn lemma_insert_moves(
    d: DocumentModel,
    parent: NodeId,
    reference: Option<NodeId>,
    id: NodeId,
    other: NodeId,
)
    requires
        d.wf(),
        d.can_insert(parent, reference, id),
        d.has(other),
        other != parent,
    ensures
        d.insert_before(parent, reference, id).children(other) == if d.parent(id) == Some(other) {
            d.children(other).remove(d.children(other).index_of(id))
        } else {
            d.children(other)
        },
{
    lemma_can_still_insert(d, parent, reference, id);
    lemma_not_own_parent(d, id);
    assert(d.family(id));
    let e = d.remove(id);
    assert(e.children(other) == if d.parent(id) == Some(other) {
        d.children(other).remove(d.children(other).index_of(id))
    } else {
        d.children(other)
    });
}

/// The next node gets a name that no node has.
pub proof fn lemma_new_name(d: DocumentModel)
    requires
        d.wf(),
    ensures
        !d.has(d.next_id()),
{
}

/// Adding the attributes of a tag keeps those that were there, in their places,
/// and gives the element every name of the tag.
pub proof fn lemma_merged(own: Seq<ElementAttribute>, added: Seq<AttributeModel>)
    ensures
        own.is_prefix_of(merged(own, added)),
        forall|i: int|
            0 <= i < added.len() ==> element_has_attribute(
                merged(own, added),
                (#[trigger] added[i]).name,
            ),
    decreases added.len(),
{
    if added.len() > 0 {
        let first = added[0];
        let rest = added.drop_first();
        let next = if element_has_attribute(own, first.name) {
            own
        } else {
            own.push(plain_attribute(first))
        };
        lemma_merged(next, rest);
        let all = merged(own, added);
        assert(all == merged(next, rest));
        assert(element_has_attribute(next, first.name)) by {
            if !element_has_attribute(own, first.name) {
                assert(next[own.len() as int].name == first.name);
            }
        }
        let k = choose|k: int| 0 <= k < next.len() && (#[trigger] next[k]).name == first.name;
        assert(all[k].name == first.name);
        assert forall|i: int| 0 <= i < added.len() implies element_has_attribute(
            all,
            (#[trigger] added[i]).name,
        ) by {
            if i > 0 {
                assert(rest[i - 1] == added[i]);
            }
        }
    }
}

/// Adding the attributes of a tag keeps the names of an element's attributes
/// distinct.
pub proof fn lemma_merged_names_distinct(own: Seq<ElementAttribute>, added: Seq<AttributeModel>)
    requires
        element_names_distinct(own),
    ensures
        element_names_distinct(merged(own, added)),
    decreases added.len(),
{
    if added.len() > 0 {
        if element_has_attribute(own, added[0].name) {
            lemma_merged_names_distinct(own, added.drop_first());
        } else {
            let next = own.push(plain_attribute(added[0]));
            assert forall|i: int, j: int| 0 <= i < j < next.len() implies (
            #[trigger] next[i]).name != (#[trigger] next[j]).name by {
                assert(next[i] == own[i]);
                if j < own.len() {
                    assert(next[j] == own[j]);
                }
            }
            lemma_merged_names_distinct(next, added.drop_first());
        }
    }
}

/// No two attributes of the list have the same name.
pub open spec fn element_names_distinct(attributes: Seq<ElementAttribute>) -> bool {
    forall|i: int, j: int|
        0 <= i < j < attributes.len() ==> (#[trigger] attributes[i]).name != (
        #[trigger] attributes[j]).name
}

} // verus!
