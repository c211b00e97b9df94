//! The arena behind a document: nodes that name their parent, first and last
//! child and their siblings.
use vstd::prelude::*;

use crate::document::model::{
    empty_document, merge_attribute_lists, ranked, DocumentModel, NodeId, NodeKind, NodeModel,
};
use crate::token::{attribute_models, Attribute as TokenAttribute, Position};

verus! {

/// A node of a document: what it is, where it starts in the source (nothing for
/// the document node and for nodes that no source text stands for), and its
/// links.
#[derive(Debug, Clone)]
pub struct Node {
    pub kind: NodeKind,
    pub position: Option<Position>,
    pub parent: Option<NodeId>,
    pub first_child: Option<NodeId>,
    pub last_child: Option<NodeId>,
    pub next_sibling: Option<NodeId>,
    pub prev_sibling: Option<NodeId>,
}

/// A document tree.
#[derive(Debug)]
pub struct Document {
    nodes: Vec<Node>,
    root: NodeId,
}

/// The first of a list, if it has one.
spec fn first_of(list: Seq<NodeId>) -> Option<NodeId> {
    if list.len() == 0 {
        None
    } else {
        Some(list[0])
    }
}

/// The last of a list, if it has one.
spec fn last_of(list: Seq<NodeId>) -> Option<NodeId> {
    if list.len() == 0 {
        None
    } else {
        Some(list.last())
    }
}

/// The member of a list before index `i`.
spec fn before(list: Seq<NodeId>, i: int) -> Option<NodeId> {
    if i > 0 {
        Some(list[i - 1])
    } else {
        None
    }
}

/// The member of a list after index `i`.
spec fn after(list: Seq<NodeId>, i: int) -> Option<NodeId> {
    if i + 1 < list.len() {
        Some(list[i + 1])
    } else {
        None
    }
}

/// The links of node `p` and of its children agree with the list of its
/// children.
spec fn linked_at(nodes: Seq<Node>, list: Seq<NodeId>, p: int) -> bool {
    &&& nodes[p].first_child == first_of(list)
    &&& nodes[p].last_child == last_of(list)
    &&& forall|i: int|
        0 <= i < list.len() ==> 1 <= (#[trigger] list[i]).index < nodes.len()
            && nodes[list[i].index as int].prev_sibling == before(list, i)
            && nodes[list[i].index as int].next_sibling == after(list, i)
}

/// A node without a parent has no siblings.
spec fn alone(nodes: Seq<Node>, c: int) -> bool {
    nodes[c].parent is None ==> nodes[c].prev_sibling is None && nodes[c].next_sibling is None
}

/// All links agree with the lists of children.
spec fn linked(nodes: Seq<Node>, kids: Seq<Seq<NodeId>>) -> bool {
    &&& kids.len() == nodes.len()
    &&& forall|p: int| 0 <= p < nodes.len() ==> #[trigger] linked_at(nodes, kids[p], p)
    &&& forall|c: int| 0 <= c < nodes.len() ==> #[trigger] alone(nodes, c)
}

/// The lists of children that the links describe.
spec fn kids_of(nodes: Seq<Node>) -> Seq<Seq<NodeId>> {
    choose|kids: Seq<Seq<NodeId>>| linked(nodes, kids)
}

/// The models of the nodes.
spec fn node_models(nodes: Seq<Node>, kids: Seq<Seq<NodeId>>) -> Seq<NodeModel> {
    Seq::new(
        nodes.len(),
        |i: int|
            NodeModel {
                kind: nodes[i].kind@,
                position: nodes[i].position,
                parent: nodes[i].parent,
                children: kids[i],
            },
    )
}

proof fn lemma_same_list(nodes: Seq<Node>, a: Seq<NodeId>, b: Seq<NodeId>, p: int, n: int)
    requires
        linked_at(nodes, a, p),
        linked_at(nodes, b, p),
        0 <= n <= a.len(),
    ensures
        n <= b.len(),
        a.take(n) == b.take(n),
    decreases n,
{
    if n > 0 {
        lemma_same_list(nodes, a, b, p, n - 1);
        if n == 1 {
            assert(a[0] == b[0]);
        } else {
            assert(a.take(n - 1)[n - 2] == b.take(n - 1)[n - 2]);
            assert(a[n - 2] == b[n - 2]);
            assert(after(a, n - 2) == after(b, n - 2));
        }
        assert(a.take(n) == a.take(n - 1).push(a[n - 1]));
        assert(b.take(n) == b.take(n - 1).push(b[n - 1]));
    }
}

/// The links describe one list of children only.
proof fn lemma_kids_unique(nodes: Seq<Node>, kids: Seq<Seq<NodeId>>)
    requires
        linked(nodes, kids),
    ensures
        kids_of(nodes) == kids,
{
    let other = kids_of(nodes);
    assert(linked(nodes, other));
    assert forall|p: int| 0 <= p < nodes.len() implies other[p] == kids[p] by {
        assert(linked_at(nodes, kids[p], p));
        assert(linked_at(nodes, other[p], p));
        lemma_same_list(nodes, kids[p], other[p], p, kids[p].len() as int);
        lemma_same_list(nodes, other[p], kids[p], p, other[p].len() as int);
        assert(kids[p].take(kids[p].len() as int) == kids[p]);
        assert(other[p].take(other[p].len() as int) == other[p]);
    }
    assert(other =~= kids);
}

/// What detaching entry `i` of the list of children of `parent` makes of node
/// `c`.
spec fn unlinked(nodes: Seq<Node>, list: Seq<NodeId>, parent: NodeId, i: int, c: int) -> Node {
    let n = nodes[c];
    let own = c == list[i].index;
    Node {
        kind: n.kind,
        position: n.position,
        parent: if own {
            None
        } else {
            n.parent
        },
        first_child: if c == parent.index && i == 0 {
            after(list, i)
        } else {
            n.first_child
        },
        last_child: if c == parent.index && i == list.len() - 1 {
            before(list, i)
        } else {
            n.last_child
        },
        next_sibling: if own {
            None
        } else if before(list, i) == Some(NodeId { index: c as usize }) {
            after(list, i)
        } else {
            n.next_sibling
        },
        prev_sibling: if own {
            None
        } else if after(list, i) == Some(NodeId { index: c as usize }) {
            before(list, i)
        } else {
            n.prev_sibling
        },
    }
}

/// A child, its siblings and its parent are different nodes.
proof fn lemma_siblings(
    d: DocumentModel,
    nodes: Seq<Node>,
    kids: Seq<Seq<NodeId>>,
    node: NodeId,
    parent: NodeId,
    i: int,
)
    requires
        d.wf(),
        d.has(node),
        d.nodes == node_models(nodes, kids),
        linked(nodes, kids),
        d.parent(node) == Some(parent),
        i == kids[parent.index as int].index_of(node),
    ensures
        d.has(parent),
        parent != node,
        ({
            let list = kids[parent.index as int];
            &&& 0 <= i < list.len()
            &&& list[i] == node
            &&& nodes[node.index as int].prev_sibling == before(list, i)
            &&& nodes[node.index as int].next_sibling == after(list, i)
            &&& i > 0 ==> d.has(list[i - 1]) && list[i - 1] != node && list[i - 1] != parent
            &&& i + 1 < list.len() ==> d.has(list[i + 1]) && list[i + 1] != node && list[i + 1]
                != parent && (i > 0 ==> list[i + 1] != list[i - 1])
        }),
{
    let list = kids[parent.index as int];
    assert(d.family(node));
    assert(d.family(parent));
    assert(list == d.children(parent));
    assert(list[i] == node);
    assert(linked_at(nodes, list, parent.index as int));
    crate::document::laws::lemma_not_own_parent(d, node);
    if i > 0 {
        crate::document::laws::lemma_not_own_parent(d, list[i - 1]);
    }
    if i + 1 < list.len() {
        crate::document::laws::lemma_not_own_parent(d, list[i + 1]);
    }
}

/// The list that an entry was taken out of is linked.
#[verifier::rlimit(40)]
#[verifier::spinoff_prover]
proof fn lemma_shorter_list_linked(
    old_nodes: Seq<Node>,
    nodes: Seq<Node>,
    list: Seq<NodeId>,
    parent: NodeId,
    i: int,
)
    requires
        list.no_duplicates(),
        linked_at(old_nodes, list, parent.index as int),
        0 <= i < list.len(),
        parent.index < old_nodes.len(),
        nodes == Seq::new(old_nodes.len(), |c: int| unlinked(old_nodes, list, parent, i, c)),
    ensures
        linked_at(nodes, list.remove(i), parent.index as int),
{
    let shorter = list.remove(i);
    assert forall|j: int| 0 <= j < shorter.len() implies 1 <= (#[trigger] shorter[j]).index
        < nodes.len() && nodes[shorter[j].index as int].prev_sibling == before(shorter, j)
        && nodes[shorter[j].index as int].next_sibling == after(shorter, j) by {
        let from = if j < i {
            j
        } else {
            j + 1
        };
        assert(shorter[j] == list[from]);
        assert(list[from] != list[i]);
        if i > 0 && from != i - 1 {
            assert(list[from] != list[i - 1]);
        }
        if i + 1 < list.len() && from != i + 1 {
            assert(list[from] != list[i + 1]);
        }
        assert(old_nodes[list[from].index as int].prev_sibling == before(list, from));
        assert(old_nodes[list[from].index as int].next_sibling == after(list, from));
    }
}

/// A list stays linked where none of its members is a neighbour of the entry
/// that was taken out of another list.
proof fn lemma_other_list_linked(
    old_nodes: Seq<Node>,
    nodes: Seq<Node>,
    list: Seq<NodeId>,
    parent: NodeId,
    i: int,
    other: Seq<NodeId>,
    q: int,
)
    requires
        linked_at(old_nodes, other, q),
        0 <= i < list.len(),
        0 <= q < old_nodes.len(),
        q != parent.index,
        forall|j: int| 0 <= j < other.len() ==> !list.contains(#[trigger] other[j]),
        nodes == Seq::new(old_nodes.len(), |c: int| unlinked(old_nodes, list, parent, i, c)),
    ensures
        linked_at(nodes, other, q),
{
    assert forall|j: int| 0 <= j < other.len() implies 1 <= (#[trigger] other[j]).index
        < nodes.len() && nodes[other[j].index as int].prev_sibling == before(other, j)
        && nodes[other[j].index as int].next_sibling == after(other, j) by {
        assert(list.contains(list[i]));
        if i > 0 {
            assert(list.contains(list[i - 1]));
        }
        if i + 1 < list.len() {
            assert(list.contains(list[i + 1]));
        }
    }
}

proof fn lemma_unlinked(
    d: DocumentModel,
    old_nodes: Seq<Node>,
    kids: Seq<Seq<NodeId>>,
    nodes: Seq<Node>,
    node: NodeId,
    parent: NodeId,
    i: int,
)
    requires
        d.wf(),
        d.has(node),
        d.nodes == node_models(old_nodes, kids),
        linked(old_nodes, kids),
        d.parent(node) == Some(parent),
        i == kids[parent.index as int].index_of(node),
        nodes == Seq::new(
            old_nodes.len(),
            |c: int| unlinked(old_nodes, kids[parent.index as int], parent, i, c),
        ),
    ensures
        linked(
            nodes,
            kids.update(parent.index as int, kids[parent.index as int].remove(i)),
        ),
{
    let p = parent.index as int;
    let list = kids[p];
    let new_kids = kids.update(p, list.remove(i));
    lemma_siblings(d, old_nodes, kids, node, parent, i);
    assert(d.family(parent));
    assert(list == d.children(parent));
    assert forall|q: int| 0 <= q < nodes.len() implies #[trigger] linked_at(
        nodes,
        new_kids[q],
        q,
    ) by {
        assert(linked_at(old_nodes, kids[q], q));
        if q == p {
            lemma_shorter_list_linked(old_nodes, nodes, list, parent, i);
        } else {
            lemma_disjoint_lists(d, parent, q);
            assert(kids[q] == d.nodes[q].children);
            lemma_other_list_linked(old_nodes, nodes, list, parent, i, kids[q], q);
        }
    }
    assert forall|c: int| 0 <= c < nodes.len() implies #[trigger] alone(nodes, c) by {
        assert(alone(old_nodes, c));
        if i > 0 {
            assert(d.parent(list[i - 1]) == Some(parent));
        }
        if i + 1 < list.len() {
            assert(d.parent(list[i + 1]) == Some(parent));
        }
    }
}

/// Different nodes have different children.
proof fn lemma_disjoint_lists(d: DocumentModel, parent: NodeId, q: int)
    requires
        d.wf(),
        d.has(parent),
        0 <= q < d.nodes.len(),
        q != parent.index,
    ensures
        forall|j: int|
            0 <= j < d.nodes[q].children.len() ==> !d.children(parent).contains(
                #[trigger] d.nodes[q].children[j],
            ),
{
    assert(d.family(parent));
    if q > 0 {
        let id = NodeId { index: q as usize };
        assert(d.family(id));
        assert(d.children(id) == d.nodes[q].children);
        assert forall|j: int| 0 <= j < d.nodes[q].children.len() implies !d.children(
            parent,
        ).contains(#[trigger] d.nodes[q].children[j]) by {
            assert(d.parent(d.children(id)[j]) == Some(id));
            if d.children(parent).contains(d.nodes[q].children[j]) {
                let k = choose|k: int|
                    0 <= k < d.children(parent).len() && d.children(parent)[k]
                        == d.nodes[q].children[j];
                assert(d.parent(d.children(parent)[k]) == Some(parent));
            }
        }
    }
}

/// What inserting `node` at place `at` of the list of children of `parent`
/// makes of node `c`.
spec fn relinked(
    nodes: Seq<Node>,
    list: Seq<NodeId>,
    parent: NodeId,
    at: int,
    node: NodeId,
    c: int,
) -> Node {
    let n = nodes[c];
    let own = c == node.index;
    let left = before(list, at);
    let right = if at < list.len() {
        Some(list[at])
    } else {
        None
    };
    Node {
        kind: n.kind,
        position: n.position,
        parent: if own {
            Some(parent)
        } else {
            n.parent
        },
        first_child: if c == parent.index && at == 0 {
            Some(node)
        } else {
            n.first_child
        },
        last_child: if c == parent.index && at == list.len() {
            Some(node)
        } else {
            n.last_child
        },
        next_sibling: if own {
            right
        } else if left == Some(NodeId { index: c as usize }) {
            Some(node)
        } else {
            n.next_sibling
        },
        prev_sibling: if own {
            left
        } else if right == Some(NodeId { index: c as usize }) {
            Some(node)
        } else {
            n.prev_sibling
        },
    }
}

/// The list that an entry was put into is linked.
#[verifier::rlimit(40)]
#[verifier::spinoff_prover]
proof fn lemma_longer_list_linked(
    old_nodes: Seq<Node>,
    nodes: Seq<Node>,
    list: Seq<NodeId>,
    parent: NodeId,
    at: int,
    node: NodeId,
)
    requires
        list.no_duplicates(),
        !list.contains(node),
        linked_at(old_nodes, list, parent.index as int),
        0 <= at <= list.len(),
        parent.index < old_nodes.len(),
        1 <= node.index < old_nodes.len(),
        nodes == Seq::new(old_nodes.len(), |c: int| relinked(old_nodes, list, parent, at, node, c)),
    ensures
        linked_at(nodes, list.insert(at, node), parent.index as int),
{
    let longer = list.insert(at, node);
    assert forall|j: int| 0 <= j < longer.len() implies 1 <= (#[trigger] longer[j]).index
        < nodes.len() && nodes[longer[j].index as int].prev_sibling == before(longer, j)
        && nodes[longer[j].index as int].next_sibling == after(longer, j) by {
        if j != at {
            let from = if j < at {
                j
            } else {
                j - 1
            };
            assert(longer[j] == list[from]);
            assert(list.contains(list[from]));
            if at > 0 && from != at - 1 {
                assert(list[from] != list[at - 1]);
            }
            if at < list.len() && from != at {
                assert(list[from] != list[at]);
            }
            assert(old_nodes[list[from].index as int].prev_sibling == before(list, from));
            assert(old_nodes[list[from].index as int].next_sibling == after(list, from));
        }
    }
}

/// A list stays linked where none of its members is the entry that was put into
/// another list or a neighbour of it.
proof fn lemma_other_list_still_linked(
    old_nodes: Seq<Node>,
    nodes: Seq<Node>,
    list: Seq<NodeId>,
    parent: NodeId,
    at: int,
    node: NodeId,
    other: Seq<NodeId>,
    q: int,
)
    requires
        linked_at(old_nodes, other, q),
        0 <= at <= list.len(),
        0 <= q < old_nodes.len(),
        q != parent.index,
        !other.contains(node),
        forall|j: int| 0 <= j < other.len() ==> !list.contains(#[trigger] other[j]),
        nodes == Seq::new(old_nodes.len(), |c: int| relinked(old_nodes, list, parent, at, node, c)),
    ensures
        linked_at(nodes, other, q),
{
    assert forall|j: int| 0 <= j < other.len() implies 1 <= (#[trigger] other[j]).index
        < nodes.len() && nodes[other[j].index as int].prev_sibling == before(other, j)
        && nodes[other[j].index as int].next_sibling == after(other, j) by {
        assert(other.contains(other[j]));
        if at > 0 {
            assert(list.contains(list[at - 1]));
        }
        if at < list.len() {
            assert(list.contains(list[at]));
        }
    }
}

proof fn lemma_relinked(
    d: DocumentModel,
    old_nodes: Seq<Node>,
    kids: Seq<Seq<NodeId>>,
    nodes: Seq<Node>,
    parent: NodeId,
    at: int,
    node: NodeId,
)
    requires
        d.wf(),
        d.has(node),
        d.has(parent),
        d.nodes == node_models(old_nodes, kids),
        linked(old_nodes, kids),
        d.parent(node) is None,
        0 <= at <= kids[parent.index as int].len(),
        nodes == Seq::new(
            old_nodes.len(),
            |c: int| relinked(old_nodes, kids[parent.index as int], parent, at, node, c),
        ),
    ensures
        linked(
            nodes,
            kids.update(parent.index as int, kids[parent.index as int].insert(at, node)),
        ),
{
    let p = parent.index as int;
    let list = kids[p];
    let new_kids = kids.update(p, list.insert(at, node));
    assert(d.family(parent));
    assert(list == d.children(parent));
    assert forall|q: int| 0 <= q < nodes.len() implies #[trigger] linked_at(
        nodes,
        new_kids[q],
        q,
    ) by {
        assert(linked_at(old_nodes, kids[q], q));
        assert(kids[q] == d.nodes[q].children);
        lemma_orphan_in_no_list(d, node, q);
        if q == p {
            lemma_longer_list_linked(old_nodes, nodes, list, parent, at, node);
        } else {
            lemma_disjoint_lists(d, parent, q);
            lemma_other_list_still_linked(old_nodes, nodes, list, parent, at, node, kids[q], q);
        }
    }
    assert forall|c: int| 0 <= c < nodes.len() implies #[trigger] alone(nodes, c) by {
        assert(alone(old_nodes, c));
        if at > 0 {
            assert(d.parent(list[at - 1]) == Some(parent));
        }
        if at < list.len() {
            assert(d.parent(list[at]) == Some(parent));
        }
    }
}

/// A node without a parent is nobody's child.
proof fn lemma_orphan_in_no_list(d: DocumentModel, node: NodeId, q: int)
    requires
        d.wf(),
        d.has(node),
        d.parent(node) is None,
        0 <= q < d.nodes.len(),
    ensures
        !d.nodes[q].children.contains(node),
{
    if q > 0 && d.nodes[q].children.contains(node) {
        let id = NodeId { index: q as usize };
        assert(d.family(id));
        let k = choose|k: int| 0 <= k < d.children(id).len() && d.children(id)[k] == node;
        assert(d.parent(d.children(id)[k]) == Some(id));
    }
}

impl Document {
    spec fn kids(&self) -> Seq<Seq<NodeId>> {
        kids_of(self.nodes@)
    }

    /// The links of the nodes agree with each other, and the document is a
    /// forest.
    pub closed spec fn wf(&self) -> bool {
        &&& linked(self.nodes@, self.kids())
        &&& self@.wf()
    }
}

impl View for Document {
    type V = DocumentModel;

    closed spec fn view(&self) -> DocumentModel {
        DocumentModel { nodes: node_models(self.nodes@, self.kids()), root: self.root }
    }
}

impl Node {
    fn new(kind: NodeKind, position: Option<Position>) -> (r: Self)
        ensures
            r.kind == kind,
            r.position == position,
            r.parent is None,
            r.first_child is None,
            r.last_child is None,
            r.next_sibling is None,
            r.prev_sibling is None,
    {
        Node {
            kind,
            position,
            parent: None,
            first_child: None,
            last_child: None,
            next_sibling: None,
            prev_sibling: None,
        }
    }
}

impl Document {
    /// A document that holds nothing but its own node.
    pub fn new() -> (r: Self)
        ensures
            r.wf(),
            r@ == empty_document(),
    {
        let placeholder = Node::new(NodeKind::Document, None);
        let root_node = Node::new(NodeKind::Document, None);
        let mut nodes: Vec<Node> = Vec::new();
        nodes.push(placeholder);
        nodes.push(root_node);
        let r = Document { nodes, root: NodeId { index: 1 } };
        proof {
            let kids = seq![Seq::<NodeId>::empty(), Seq::<NodeId>::empty()];
            assert(linked(r.nodes@, kids));
            lemma_kids_unique(r.nodes@, kids);
            assert(r@.nodes =~= empty_document().nodes);
            crate::document::laws::lemma_empty_document();
        }
        r
    }

    /// The model of a well-formed document is a forest.
    pub proof fn lemma_wf(&self)
        requires
            self.wf(),
        ensures
            self@.wf(),
    {
    }

    /// How many entries the table of nodes has.
    pub fn size(&self) -> (r: usize)
        ensures
            r == self@.nodes.len(),
    {
        self.nodes.len()
    }

    /// The document node.
    pub fn root(&self) -> (r: NodeId)
        ensures
            r == self@.root,
    {
        self.root
    }

    /// The links of a node are those that the lists of children describe.
    proof fn lemma_links(&self, id: NodeId)
        requires
            self.wf(),
            self@.has(id),
        ensures
            self.nodes@[id.index as int].first_child == self@.first_child(id),
            self.nodes@[id.index as int].last_child == self@.last_child(id),
            self.nodes@[id.index as int].prev_sibling == self@.prev_sibling(id),
            self.nodes@[id.index as int].next_sibling == self@.next_sibling(id),
    {
        assert(self@.family(id));
        assert(linked_at(self.nodes@, self.kids()[id.index as int], id.index as int));
        assert(alone(self.nodes@, id.index as int));
        match self@.parent(id) {
            Some(p) => {
                assert(linked_at(self.nodes@, self.kids()[p.index as int], p.index as int));
                assert(self@.family(p));
                let i = self@.children(p).index_of(id);
                assert(self@.children(p)[i] == id);
            },
            None => {},
        }
    }

    /// A node.
    pub fn node(&self, id: NodeId) -> (r: &Node)
        requires
            self.wf(),
            self@.has(id),
        ensures
            r.kind@ == self@.kind(id),
            r.position == self@.node(id).position,
            r.parent == self@.parent(id),
            r.first_child == self@.first_child(id),
            r.last_child == self@.last_child(id),
            r.prev_sibling == self@.prev_sibling(id),
            r.next_sibling == self@.next_sibling(id),
    {
        proof {
            self.lemma_links(id);
        }
        &self.nodes[id.index]
    }

    /// The parent of a node.
    pub fn parent(&self, id: NodeId) -> (r: Option<NodeId>)
        requires
            self.wf(),
            self@.has(id),
        ensures
            r == self@.parent(id),
            r matches Some(p) ==> self@.has(p),
    {
        proof {
            assert(self@.family(id));
        }
        self.nodes[id.index].parent
    }

    /// The last child of a node.
    pub fn last_child(&self, id: NodeId) -> (r: Option<NodeId>)
        requires
            self.wf(),
            self@.has(id),
        ensures
            r == self@.last_child(id),
            r matches Some(c) ==> self@.has(c),
    {
        proof {
            self.lemma_links(id);
            assert(self@.family(id));
        }
        self.nodes[id.index].last_child
    }

    /// The sibling before a node.
    pub fn prev_sibling(&self, id: NodeId) -> (r: Option<NodeId>)
        requires
            self.wf(),
            self@.has(id),
        ensures
            r == self@.prev_sibling(id),
            r matches Some(c) ==> self@.has(c),
    {
        proof {
            self.lemma_links(id);
            assert(self@.family(id));
            match self@.parent(id) {
                Some(p) => {
                    assert(linked_at(self.nodes@, self.kids()[p.index as int], p.index as int));
                    assert(self@.family(p));
                    let i = self@.children(p).index_of(id);
                    assert(self@.children(p)[i] == id);
                },
                None => {},
            }
        }
        self.nodes[id.index].prev_sibling
    }

    /// Adds a node that is attached nowhere, and gives its name.
    pub fn new_node(&mut self, kind: NodeKind, position: Option<Position>) -> (r: NodeId)
        requires
            old(self).wf(),
        ensures
            final(self).wf(),
            final(self)@ == old(self)@.new_node(kind@, position),
            r == old(self)@.next_id(),
            final(self)@.has(r),
    {
        let index: usize = self.nodes.len();
        let ghost old_nodes = self.nodes@;
        let ghost kids = self.kids();
        let node = Node::new(kind, position);
        self.nodes.push(node);
        let length: usize = self.nodes.len();
        proof {
            let new_kids = kids.push(Seq::<NodeId>::empty());
            assert forall|p: int| 0 <= p < self.nodes@.len() implies #[trigger] linked_at(
                self.nodes@,
                new_kids[p],
                p,
            ) by {
                if p < old_nodes.len() {
                    assert(linked_at(old_nodes, kids[p], p));
                }
            }
            assert forall|c: int| 0 <= c < self.nodes@.len() implies #[trigger] alone(
                self.nodes@,
                c,
            ) by {
                if c < old_nodes.len() {
                    assert(alone(old_nodes, c));
                }
            }
            lemma_kids_unique(self.nodes@, new_kids);
            assert(self@.nodes =~= old(self)@.new_node(kind@, position).nodes);
            crate::document::laws::lemma_new_node(old(self)@, kind@, position);
        }
        NodeId { index }
    }

    /// Detaches a node from its parent, if it has one.
    pub fn remove(&mut self, node: NodeId)
        requires
            old(self).wf(),
            old(self)@.has(node),
        ensures
            final(self).wf(),
            final(self)@ == old(self)@.remove(node),
    {
        let parent = match self.nodes[node.index].parent {
            None => {
                return;
            },
            Some(parent) => parent,
        };
        let ghost old_nodes = self.nodes@;
        let ghost kids = self.kids();
        let ghost list = kids[parent.index as int];
        let ghost i = list.index_of(node);
        proof {
            lemma_siblings(self@, old_nodes, kids, node, parent, i);
        }
        let previous_sibling = self.nodes[node.index].prev_sibling;
        let next_sibling = self.nodes[node.index].next_sibling;
        match previous_sibling {
            Some(previous_sibling) => {
                self.nodes[previous_sibling.index].next_sibling = next_sibling;
            },
            None => {
                self.nodes[parent.index].first_child = next_sibling;
            },
        }
        match next_sibling {
            Some(next_sibling) => {
                self.nodes[next_sibling.index].prev_sibling = previous_sibling;
            },
            None => {
                self.nodes[parent.index].last_child = previous_sibling;
            },
        }
        self.nodes[node.index].parent = None;
        self.nodes[node.index].prev_sibling = None;
        self.nodes[node.index].next_sibling = None;
        proof {
            assert(self.nodes@ =~= Seq::new(
                old_nodes.len(),
                |c: int| unlinked(old_nodes, list, parent, i, c),
            ));
            lemma_unlinked(old(self)@, old_nodes, kids, self.nodes@, node, parent, i);
            let new_kids = kids.update(parent.index as int, list.remove(i));
            lemma_kids_unique(self.nodes@, new_kids);
            assert(self@.nodes =~= old(self)@.remove(node).nodes);
            crate::document::laws::lemma_remove(old(self)@, node);
        }
    }
}

impl Document {
    /// Moves a node to before `reference` under `parent`, or to the end of the
    /// children of `parent`. The node is detached from its old parent first.
    pub fn insert_before(&mut self, parent: NodeId, reference: Option<NodeId>, new_node: NodeId)
        requires
            old(self).wf(),
            old(self)@.can_insert(parent, reference, new_node),
        ensures
            final(self).wf(),
            final(self)@ == old(self)@.insert_before(parent, reference, new_node),
    {
        self.remove(new_node);
        let ghost d = self@;
        let ghost old_nodes = self.nodes@;
        let ghost kids = self.kids();
        let ghost list = kids[parent.index as int];
        let ghost at = d.place(parent, reference);
        proof {
            crate::document::laws::lemma_can_still_insert(
                old(self)@,
                parent,
                reference,
                new_node,
            );
            assert(list == d.children(parent));
            assert(linked_at(old_nodes, list, parent.index as int));
            assert(alone(old_nodes, new_node.index as int));
            assert(d.family(parent));
            lemma_orphan_in_no_list(d, new_node, parent.index as int);
            if at > 0 {
                assert(list.contains(list[at - 1]));
                crate::document::laws::lemma_not_own_parent(d, list[at - 1]);
            }
            if at < list.len() {
                assert(list.contains(list[at]));
                crate::document::laws::lemma_not_own_parent(d, list[at]);
            }
        }
        match reference {
            None => {
                let previous_last_child = self.nodes[parent.index].last_child;
                self.nodes[new_node.index].parent = Some(parent);
                self.nodes[new_node.index].prev_sibling = previous_last_child;
                match previous_last_child {
                    Some(previous_last_child) => {
                        self.nodes[previous_last_child.index].next_sibling = Some(new_node);
                    },
                    None => {
                        self.nodes[parent.index].first_child = Some(new_node);
                    },
                }
                self.nodes[parent.index].last_child = Some(new_node);
                assert(self.nodes@ =~= Seq::new(
                    old_nodes.len(),
                    |c: int| relinked(old_nodes, list, parent, at, new_node, c),
                ));
            },
            Some(reference) => {
                assert(list[at] == reference);
                let previous_sibling = self.nodes[reference.index].prev_sibling;
                assert(previous_sibling == before(list, at));
                self.nodes[new_node.index].parent = Some(parent);
                self.nodes[new_node.index].next_sibling = Some(reference);
                self.nodes[new_node.index].prev_sibling = previous_sibling;
                self.nodes[reference.index].prev_sibling = Some(new_node);
                match previous_sibling {
                    Some(previous_sibling) => {
                        self.nodes[previous_sibling.index].next_sibling = Some(new_node);
                    },
                    None => {
                        self.nodes[parent.index].first_child = Some(new_node);
                    },
                }
                assert(self.nodes@ =~= Seq::new(
                    old_nodes.len(),
                    |c: int| relinked(old_nodes, list, parent, at, new_node, c),
                ));
            },
        }
        proof {
            lemma_relinked(d, old_nodes, kids, self.nodes@, parent, at, new_node);
            let new_kids = kids.update(parent.index as int, list.insert(at, new_node));
            lemma_kids_unique(self.nodes@, new_kids);
            assert(self@.nodes =~= old(self)@.insert_before(parent, reference, new_node).nodes);
            crate::document::laws::lemma_insert_before(old(self)@, parent, reference, new_node);
        }
    }

    /// Moves a node to the end of the children of `parent`.
    pub fn append_child(&mut self, parent: NodeId, child: NodeId)
        requires
            old(self).wf(),
            old(self)@.can_insert(parent, None, child),
        ensures
            final(self).wf(),
            final(self)@ == old(self)@.append_child(parent, child),
    {
        self.insert_before(parent, None, child);
    }

    /// Whether `ancestor` is `node` itself or one of its ancestors.
    pub fn is_inclusive_ancestor(&self, ancestor: NodeId, node: NodeId) -> (r: bool)
        requires
            self.wf(),
            self@.has(node),
        ensures
            r == self@.is_inclusive_ancestor(ancestor, node),
    {
        let ghost rank = choose|rank: spec_fn(NodeId) -> int| ranked(self@.nodes, rank);
        let mut current: NodeId = node;
        loop
            invariant
                self.wf(),
                self@.has(current),
                ranked(self@.nodes, rank),
                self@.is_inclusive_ancestor(ancestor, node) == self@.is_inclusive_ancestor(
                    ancestor,
                    current,
                ),
            decreases rank(current),
        {
            proof {
                assert(self@.family(current));
                assert(self@.nodes[current.index as int] == self@.node(current));
                crate::document::laws::lemma_ancestor_step(self@, ancestor, current);
            }
            if current == ancestor {
                return true;
            }
            match self.nodes[current.index].parent {
                Some(parent) => {
                    assert(self@.nodes[parent.index as int] == self@.node(parent));
                    current = parent;
                },
                None => {
                    return false;
                },
            }
        }
    }
}

impl Document {
    /// Adds a character to a text node.
    pub fn push_text(&mut self, id: NodeId, c: char)
        requires
            old(self).wf(),
            old(self)@.has(id),
        ensures
            final(self).wf(),
            final(self)@ == old(self)@.push_text(id, c),
    {
        let ghost old_nodes = self.nodes@;
        let ghost kids = self.kids();
        match &mut self.nodes[id.index].kind {
            NodeKind::Text { content } => {
                content.push(c);
            },
            _ => {},
        }
        proof {
            lemma_kind_changed(old_nodes, self.nodes@, kids, id);
            lemma_kids_unique(self.nodes@, kids);
            assert(self@.nodes =~= old(self)@.push_text(id, c).nodes);
            crate::document::laws::lemma_with_kind(old(self)@, id, self@.kind(id));
        }
    }

    /// Adds the attributes of a tag to an element, but for those whose name the
    /// element has already.
    pub fn merge_attributes(&mut self, id: NodeId, attributes: &Vec<TokenAttribute>)
        requires
            old(self).wf(),
            old(self)@.has(id),
        ensures
            final(self).wf(),
            final(self)@ == old(self)@.merge_attributes(id, attribute_models(attributes@)),
    {
        let ghost old_nodes = self.nodes@;
        let ghost kids = self.kids();
        match &mut self.nodes[id.index].kind {
            NodeKind::Element { attributes: own, .. } => {
                merge_attribute_lists(own, attributes);
            },
            _ => {},
        }
        proof {
            lemma_kind_changed(old_nodes, self.nodes@, kids, id);
            lemma_kids_unique(self.nodes@, kids);
            assert(self@.nodes =~= old(self)@.merge_attributes(
                id,
                attribute_models(attributes@),
            ).nodes);
            crate::document::laws::lemma_with_kind(old(self)@, id, self@.kind(id));
        }
    }

    /// The children of a node, in document order.
    pub fn children(&self, id: NodeId) -> (r: Children<'_>)
        requires
            self.wf(),
            self@.has(id),
        ensures
            r.wf(),
            r.remaining() == self@.children(id),
            r.in_document(self@),
    {
        proof {
            assert(linked_at(self.nodes@, self.kids()[id.index as int], id.index as int));
            assert(self@.family(id));
            let list = self@.children(id);
            if list.len() > 0 {
                assert(list.contains(list[0]));
                assert(list[list.index_of(list[0])] == list[0]);
                assert(list.skip(0) == list);
            }
        }
        Children { document: self, next: self.nodes[id.index].first_child }
    }
}

impl Default for Document {
    fn default() -> (r: Self)
        ensures
            r.wf(),
            r@ == empty_document(),
    {
        Document::new()
    }
}

/// Changing the kind of one node changes no links.
proof fn lemma_kind_changed(
    old_nodes: Seq<Node>,
    nodes: Seq<Node>,
    kids: Seq<Seq<NodeId>>,
    id: NodeId,
)
    requires
        linked(old_nodes, kids),
        id.index < old_nodes.len(),
        nodes == old_nodes.update(
            id.index as int,
            (Node { kind: nodes[id.index as int].kind, ..old_nodes[id.index as int] }),
        ),
    ensures
        linked(nodes, kids),
{
    assert forall|p: int| 0 <= p < nodes.len() implies #[trigger] linked_at(
        nodes,
        kids[p],
        p,
    ) by {
        assert(linked_at(old_nodes, kids[p], p));
    }
    assert forall|c: int| 0 <= c < nodes.len() implies #[trigger] alone(nodes, c) by {
        assert(alone(old_nodes, c));
    }
}

/// Goes through the children of a node, in document order.
pub struct Children<'a> {
    document: &'a Document,
    next: Option<NodeId>,
}

impl<'a> Children<'a> {
    /// The next child is a child of some node of the document.
    pub closed spec fn wf(&self) -> bool {
        &&& self.document.wf()
        &&& self.next matches Some(n) ==> self.document@.has(n) && self.document@.parent(n) is Some
    }

    /// The children still to come.
    pub closed spec fn remaining(&self) -> Seq<NodeId> {
        match self.next {
            Some(n) => match self.document@.parent(n) {
                Some(p) => self.document@.children(p).skip(
                    self.document@.children(p).index_of(n),
                ),
                None => Seq::empty(),
            },
            None => Seq::empty(),
        }
    }

    /// The document whose nodes these are.
    pub closed spec fn in_document(&self, d: DocumentModel) -> bool {
        self.document@ == d
    }

    /// The next child.
    pub fn next(&mut self) -> (r: Option<NodeId>)
        requires
            old(self).wf(),
        ensures
            final(self).wf(),
            forall|d: DocumentModel| old(self).in_document(d) ==> final(self).in_document(d),
            match r {
                Some(c) => old(self).remaining().len() > 0 && c == old(self).remaining()[0]
                    && final(self).remaining() == old(self).remaining().drop_first(),
                None => old(self).remaining().len() == 0 && final(self).remaining().len() == 0,
            },
    {
        match self.next {
            Some(current) => {
                let ghost d = self.document@;
                proof {
                    let p = d.parent(current)->0;
                    let list = d.children(p);
                    assert(d.family(current));
                    assert(d.family(p));
                    let i = list.index_of(current);
                    assert(list[i] == current);
                    assert(linked_at(
                        self.document.nodes@,
                        self.document.kids()[p.index as int],
                        p.index as int,
                    ));
                    if i + 1 < list.len() {
                        let following = list[i + 1];
                        assert(d.parent(following) == Some(p));
                        assert(list.contains(following));
                        assert(list[list.index_of(following)] == following);
                        assert(list.index_of(following) == i + 1);
                        assert(list.skip(i).drop_first() == list.skip(i + 1));
                    } else {
                        assert(list.skip(i).drop_first() == Seq::<NodeId>::empty());
                    }
                }
                self.next = self.document.nodes[current.index].next_sibling;
                Some(current)
            },
            None => None,
        }
    }

    /// The children still to come, as a list.
    pub fn collect(self) -> (r: Vec<NodeId>)
        requires
            self.wf(),
        ensures
            r@ == self.remaining(),
    {
        let mut rest = self;
        let mut out: Vec<NodeId> = Vec::new();
        loop
            invariant
                rest.wf(),
                out@ + rest.remaining() == self.remaining(),
            decreases rest.remaining().len(),
        {
            let ghost before = rest.remaining();
            let ghost had = out@;
            match rest.next() {
                Some(child) => {
                    out.push(child);
                    assert(had + before == out@ + before.drop_first());
                },
                None => {
                    assert(out@ == self.remaining());
                    return out;
                },
            }
        }
    }

    /// The number of children still to come.
    pub fn count(self) -> (r: usize)
        requires
            self.wf(),
        ensures
            r == self.remaining().len(),
    {
        self.collect().len()
    }
}

} // verus!
