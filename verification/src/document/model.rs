//! The model of a document: every node with its parent and the list of its
//! children.
use vstd::prelude::*;

use crate::text::{str_eq, text_of};
use crate::token::{attribute_models, Attribute as TokenAttribute, AttributeModel, Position};

verus! {

/// Names a node of a document. Index zero is never given out.
#[derive(Debug, Clone, Copy, PartialEq, Eq, Hash, Structural)]
pub struct NodeId {
    pub index: usize,
}

/// An attribute of an element, with the namespace that foreign content gives
/// some attributes.
#[derive(Debug, Clone, PartialEq, Eq)]
pub struct Attribute {
    pub name: String,
    pub value: String,
    pub namespace: Option<String>,
}

/// What a node is, and what it holds.
#[derive(Debug, Clone, PartialEq, Eq)]
pub enum NodeKind {
    /// The document node, of which there is exactly one.
    Document,
    /// The contents of a `template` element.
    DocumentFragment,
    /// An element.
    Element { name: String, namespace: Option<String>, attributes: Vec<Attribute> },
    /// A run of text.
    Text { content: String },
    /// A comment.
    Comment { content: String },
    /// A processing instruction.
    ProcessingInstruction { target: String, data: String },
    /// A document type.
    Doctype {
        name: Option<String>,
        public_identifier: Option<String>,
        system_identifier: Option<String>,
    },
}

/// The model of [`Attribute`].
#[verifier::ext_equal]
pub struct ElementAttribute {
    pub name: Seq<char>,
    pub value: Seq<char>,
    pub namespace: Option<Seq<char>>,
}

/// The model of [`NodeKind`].
#[verifier::ext_equal]
pub enum KindModel {
    Document,
    DocumentFragment,
    Element { name: Seq<char>, namespace: Option<Seq<char>>, attributes: Seq<ElementAttribute> },
    Text { content: Seq<char> },
    Comment { content: Seq<char> },
    ProcessingInstruction { target: Seq<char>, data: Seq<char> },
    Doctype {
        name: Option<Seq<char>>,
        public_identifier: Option<Seq<char>>,
        system_identifier: Option<Seq<char>>,
    },
}

impl View for Attribute {
    type V = ElementAttribute;

    open spec fn view(&self) -> ElementAttribute {
        ElementAttribute {
            name: self.name@,
            value: self.value@,
            namespace: text_of(self.namespace),
        }
    }
}

/// The models of a list of attributes.
pub open spec fn element_attributes(attributes: Seq<Attribute>) -> Seq<ElementAttribute> {
    Seq::new(attributes.len(), |i: int| attributes[i]@)
}

impl View for NodeKind {
    type V = KindModel;

    open spec fn view(&self) -> KindModel {
        match *self {
            NodeKind::Document => KindModel::Document,
            NodeKind::DocumentFragment => KindModel::DocumentFragment,
            NodeKind::Element { name, namespace, attributes } => KindModel::Element {
                name: name@,
                namespace: text_of(namespace),
                attributes: element_attributes(attributes@),
            },
            NodeKind::Text { content } => KindModel::Text { content: content@ },
            NodeKind::Comment { content } => KindModel::Comment { content: content@ },
            NodeKind::ProcessingInstruction { target, data } => KindModel::ProcessingInstruction {
                target: target@,
                data: data@,
            },
            NodeKind::Doctype { name, public_identifier, system_identifier } => KindModel::Doctype {
                name: text_of(name),
                public_identifier: text_of(public_identifier),
                system_identifier: text_of(system_identifier),
            },
        }
    }
}

/// An attribute of a tag as an attribute of an element: it is in no namespace.
pub open spec fn plain_attribute(attribute: AttributeModel) -> ElementAttribute {
    ElementAttribute { name: attribute.name, value: attribute.value, namespace: None }
}

impl Attribute {
    /// An attribute of a tag as an attribute of an element.
    pub fn from_token(attribute: &TokenAttribute) -> (r: Self)
        ensures
            r@ == plain_attribute(attribute@),
    {
        Attribute { name: attribute.name.clone(), value: attribute.value.clone(), namespace: None }
    }

    /// A copy of the attribute.
    pub fn duplicate(&self) -> (r: Self)
        ensures
            r@ == self@,
    {
        Attribute {
            name: self.name.clone(),
            value: self.value.clone(),
            namespace: crate::text::clone_text(&self.namespace),
        }
    }
}

/// Whether a list of attributes holds one with the given name.
pub fn element_attributes_contain(attributes: &Vec<Attribute>, name: &str) -> (r: bool)
    ensures
        r == element_has_attribute(element_attributes(attributes@), name@),
{
    let mut i: usize = 0;
    while i < attributes.len()
        invariant
            0 <= i <= attributes@.len(),
            forall|j: int| 0 <= j < i ==> (#[trigger] attributes@[j]).name@ != name@,
        decreases attributes@.len() - i,
    {
        if str_eq(attributes[i].name.as_str(), name) {
            assert(element_attributes(attributes@)[i as int].name == name@);
            return true;
        }
        i = i + 1;
    }
    assert forall|j: int| 0 <= j < attributes@.len() implies (#[trigger] element_attributes(
        attributes@,
    )[j]).name != name@ by {
        assert(attributes@[j].name@ != name@);
    }
    false
}

/// Adds the attributes of a tag to those of an element, but for those whose
/// name is there already.
pub fn merge_attribute_lists(own: &mut Vec<Attribute>, added: &Vec<TokenAttribute>)
    ensures
        element_attributes(final(own)@) == merged(
            element_attributes(old(own)@),
            attribute_models(added@),
        ),
{
    let ghost models = attribute_models(added@);
    let ghost start = element_attributes(own@);
    let mut i: usize = 0;
    assert(models.skip(0) == models);
    while i < added.len()
        invariant
            models == attribute_models(added@),
            0 <= i <= added@.len(),
            merged(element_attributes(own@), models.skip(i as int)) == merged(start, models),
        decreases added@.len() - i,
    {
        let ghost before = own@;
        assert(models.skip(i as int)[0] == added@[i as int]@);
        assert(models.skip(i as int).drop_first() == models.skip(i + 1));
        if !element_attributes_contain(own, added[i].name.as_str()) {
            let attribute = Attribute::from_token(&added[i]);
            own.push(attribute);
            assert(element_attributes(own@) == element_attributes(before).push(attribute@));
        }
        i = i + 1;
    }
}

impl vstd::std_specs::convert::FromSpecImpl<TokenAttribute> for Attribute {
    open spec fn obeys_from_spec() -> bool {
        true
    }

    open spec fn from_spec(attribute: TokenAttribute) -> Self {
        Attribute { name: attribute.name, value: attribute.value, namespace: None }
    }
}

impl From<TokenAttribute> for Attribute {
    fn from(attribute: TokenAttribute) -> (r: Self) {
        Attribute { name: attribute.name, value: attribute.value, namespace: None }
    }
}

/// `name` is the name of an attribute of the list.
pub open spec fn element_has_attribute(
    attributes: Seq<ElementAttribute>,
    name: Seq<char>,
) -> bool {
    exists|i: int| 0 <= i < attributes.len() && (#[trigger] attributes[i]).name == name
}

/// The attributes of an element after those of a tag were added: an attribute
/// whose name is there already is left out.
pub open spec fn merged(
    own: Seq<ElementAttribute>,
    added: Seq<AttributeModel>,
) -> Seq<ElementAttribute>
    decreases added.len(),
{
    if added.len() == 0 {
        own
    } else if element_has_attribute(own, added[0].name) {
        merged(own, added.drop_first())
    } else {
        merged(own.push(plain_attribute(added[0])), added.drop_first())
    }
}

/// The model of a node.
#[verifier::ext_equal]
pub struct NodeModel {
    pub kind: KindModel,
    pub position: Option<Position>,
    pub parent: Option<NodeId>,
    pub children: Seq<NodeId>,
}

/// The model of a document: its nodes by index, and the document node.
#[verifier::ext_equal]
pub struct DocumentModel {
    pub nodes: Seq<NodeModel>,
    pub root: NodeId,
}

/// A node of the given kind that is not attached anywhere.
pub open spec fn detached(kind: KindModel, position: Option<Position>) -> NodeModel {
    NodeModel { kind, position, parent: None, children: Seq::empty() }
}

/// Parents rank lower than their children.
pub open spec fn ranked(nodes: Seq<NodeModel>, rank: spec_fn(NodeId) -> int) -> bool {
    forall|i: usize|
        0 <= i < nodes.len() ==> match (#[trigger] nodes[i as int]).parent {
            Some(p) => 0 <= rank(p) < rank(NodeId { index: i }),
            None => 0 <= rank(NodeId { index: i }),
        }
}

/// The list without a node.
pub open spec fn without(list: Seq<NodeId>, id: NodeId) -> Seq<NodeId> {
    if list.contains(id) {
        list.remove(list.index_of(id))
    } else {
        list
    }
}

impl DocumentModel {
    /// `id` names a node of the document.
    pub open spec fn has(self, id: NodeId) -> bool {
        1 <= id.index < self.nodes.len()
    }

    pub open spec fn node(self, id: NodeId) -> NodeModel {
        self.nodes[id.index as int]
    }

    pub open spec fn kind(self, id: NodeId) -> KindModel {
        self.node(id).kind
    }

    pub open spec fn parent(self, id: NodeId) -> Option<NodeId> {
        self.node(id).parent
    }

    pub open spec fn children(self, id: NodeId) -> Seq<NodeId> {
        self.node(id).children
    }

    pub open spec fn first_child(self, id: NodeId) -> Option<NodeId> {
        if self.children(id).len() == 0 {
            None
        } else {
            Some(self.children(id)[0])
        }
    }

    pub open spec fn last_child(self, id: NodeId) -> Option<NodeId> {
        if self.children(id).len() == 0 {
            None
        } else {
            Some(self.children(id).last())
        }
    }

    /// The child of the same parent just before a node.
    pub open spec fn prev_sibling(self, id: NodeId) -> Option<NodeId> {
        match self.parent(id) {
            Some(p) => {
                let i = self.children(p).index_of(id);
                if i > 0 {
                    Some(self.children(p)[i - 1])
                } else {
                    None
                }
            },
            None => None,
        }
    }

    /// The child of the same parent just after a node.
    pub open spec fn next_sibling(self, id: NodeId) -> Option<NodeId> {
        match self.parent(id) {
            Some(p) => {
                let i = self.children(p).index_of(id);
                if i + 1 < self.children(p).len() {
                    Some(self.children(p)[i + 1])
                } else {
                    None
                }
            },
            None => None,
        }
    }

    /// The children of `id` name it as their parent, and no other node does.
    pub open spec fn family(self, id: NodeId) -> bool {
        &&& self.children(id).no_duplicates()
        &&& forall|i: int|
            0 <= i < self.children(id).len() ==> self.has(#[trigger] self.children(id)[i])
                && self.parent(self.children(id)[i]) == Some(id)
        &&& match self.parent(id) {
            Some(p) => self.has(p) && self.children(p).contains(id),
            None => true,
        }
    }

    /// The document is a forest: children and parents agree, and no node is its
    /// own ancestor.
    pub open spec fn wf(self) -> bool {
        &&& self.has(self.root)
        &&& self.nodes.len() <= usize::MAX
        &&& self.nodes[0].parent is None && self.nodes[0].children.len() == 0
        &&& forall|id: NodeId| self.has(id) ==> #[trigger] self.family(id)
        &&& exists|rank: spec_fn(NodeId) -> int| ranked(self.nodes, rank)
    }

    /// The node `k` steps above `id`.
    pub open spec fn ancestor(self, id: NodeId, k: nat) -> Option<NodeId>
        decreases k,
    {
        if k == 0 {
            Some(id)
        } else {
            match self.parent(id) {
                Some(p) => self.ancestor(p, (k - 1) as nat),
                None => None,
            }
        }
    }

    /// `a` is `id` itself or one of its ancestors.
    pub open spec fn is_inclusive_ancestor(self, a: NodeId, id: NodeId) -> bool {
        exists|k: nat| self.ancestor(id, k) == Some(a)
    }

    pub open spec fn with_node(self, id: NodeId, node: NodeModel) -> Self {
        if id.index < self.nodes.len() {
            DocumentModel { nodes: self.nodes.update(id.index as int, node), ..self }
        } else {
            self
        }
    }

    pub open spec fn with_kind(self, id: NodeId, kind: KindModel) -> Self {
        self.with_node(id, NodeModel { kind, ..self.node(id) })
    }

    pub open spec fn with_children(self, id: NodeId, children: Seq<NodeId>) -> Self {
        self.with_node(id, NodeModel { children, ..self.node(id) })
    }

    pub open spec fn with_parent(self, id: NodeId, parent: Option<NodeId>) -> Self {
        self.with_node(id, NodeModel { parent, ..self.node(id) })
    }

    /// The name that the next new node gets.
    pub open spec fn next_id(self) -> NodeId {
        NodeId { index: self.nodes.len() as usize }
    }

    /// The document with one more node, attached nowhere.
    pub open spec fn new_node(self, kind: KindModel, position: Option<Position>) -> Self {
        DocumentModel { nodes: self.nodes.push(detached(kind, position)), ..self }
    }

    /// The document with a node detached from its parent.
    pub open spec fn remove(self, id: NodeId) -> Self {
        match self.parent(id) {
            None => self,
            Some(p) => self.with_children(p, without(self.children(p), id)).with_parent(id, None),
        }
    }

    /// The place among the children of `parent` that is before `reference`, or
    /// the end.
    pub open spec fn place(self, parent: NodeId, reference: Option<NodeId>) -> int {
        match reference {
            Some(r) => if self.children(parent).contains(r) {
                self.children(parent).index_of(r)
            } else {
                self.children(parent).len() as int
            },
            None => self.children(parent).len() as int,
        }
    }

    /// The document with a node moved to before `reference` under `parent`, or
    /// to the end.
    pub open spec fn insert_before(
        self,
        parent: NodeId,
        reference: Option<NodeId>,
        id: NodeId,
    ) -> Self {
        let free = self.remove(id);
        free.attach(parent, free.place(parent, reference), id)
    }

    /// The document with a detached node put at place `at` among the children of
    /// `parent`.
    pub open spec fn attach(self, parent: NodeId, at: int, id: NodeId) -> Self {
        self.with_children(parent, self.children(parent).insert(at, id)).with_parent(
            id,
            Some(parent),
        )
    }

    pub open spec fn append_child(self, parent: NodeId, id: NodeId) -> Self {
        self.insert_before(parent, None, id)
    }

    /// The document with a character added to a text node.
    pub open spec fn push_text(self, id: NodeId, c: char) -> Self {
        match self.kind(id) {
            KindModel::Text { content } => self.with_kind(
                id,
                KindModel::Text { content: content.push(c) },
            ),
            _ => self,
        }
    }

    /// The document with the attributes of a tag added to an element, but for
    /// those whose name the element has already.
    pub open spec fn merge_attributes(self, id: NodeId, attributes: Seq<AttributeModel>) -> Self {
        match self.kind(id) {
            KindModel::Element { name, namespace, attributes: own } => self.with_kind(
                id,
                KindModel::Element { name, namespace, attributes: merged(own, attributes) },
            ),
            _ => self,
        }
    }

    /// A move that keeps the document a forest.
    pub open spec fn can_insert(
        self,
        parent: NodeId,
        reference: Option<NodeId>,
        id: NodeId,
    ) -> bool {
        &&& self.has(parent)
        &&& self.has(id)
        &&& !self.is_inclusive_ancestor(id, parent)
        &&& match reference {
            Some(r) => self.has(r) && r != id && self.parent(r) == Some(parent),
            None => true,
        }
    }
}

/// The document that holds nothing but its own node.
pub open spec fn empty_document() -> DocumentModel {
    DocumentModel {
        nodes: seq![detached(KindModel::Document, None), detached(KindModel::Document, None)],
        root: NodeId { index: 1 },
    }
}

} // verus!
