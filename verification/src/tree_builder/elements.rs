//! Questions about single elements: their names, their groups and the part they
//! play for scopes and foreign content.
use vstd::prelude::*;

use crate::document::arena::Document;
use crate::document::laws::{lemma_insert_before, lemma_new_node, lemma_remove};
use crate::document::model::{
    element_attributes, Attribute, DocumentModel, ElementAttribute, KindModel, NodeId, NodeKind,
};
use crate::token::Position;
use crate::text::{eq_ignore_ascii_case, same_ignoring_case, str_eq, text_is};
use crate::tree_builder::names::{
    in_cells, in_default_scope, in_foster_targets, in_headings, in_implied_end_tags,
    in_implied_end_tags_thoroughly, in_list_item_scope, in_mathml_boundaries, in_mathml_text,
    in_may_stay_open, in_special, in_svg_boundaries, in_table_body_context, in_table_context,
    in_table_row_context, in_table_scope, in_table_sections, in_table_text_parents, is_cells,
    is_default_scope, is_foster_targets, is_headings, is_implied_end_tags,
    is_implied_end_tags_thoroughly, is_list_item_scope, is_mathml_boundaries, is_mathml_text,
    is_may_stay_open, is_special, is_svg_boundaries, is_table_body_context, is_table_context,
    is_table_row_context, is_table_scope, is_table_sections, is_table_text_parents, HTML_NAMESPACE,
    MATHML_NAMESPACE, SVG_NAMESPACE,
};

verus! {

/// A group of HTML elements that the rules treat alike.
#[derive(Debug, Clone, Copy, PartialEq, Eq, Structural)]
pub enum Group {
    Headings,
    Cells,
    TableContext,
    TableBodyContext,
    TableRowContext,
    TableSections,
    TableTextParents,
    FosterTargets,
    MayStayOpen,
    ImpliedEndTags,
    ImpliedEndTagsThoroughly,
}

/// How far a search up the stack of open elements reaches.
#[derive(Debug, Clone, Copy, PartialEq, Eq, Structural)]
pub enum Scope {
    Default,
    ListItem,
    Button,
    Table,
}

/// `name` is the name of an element of the group.
pub open spec fn in_group(name: Seq<char>, group: Group) -> bool {
    match group {
        Group::Headings => in_headings(name),
        Group::Cells => in_cells(name),
        Group::TableContext => in_table_context(name),
        Group::TableBodyContext => in_table_body_context(name),
        Group::TableRowContext => in_table_row_context(name),
        Group::TableSections => in_table_sections(name),
        Group::TableTextParents => in_table_text_parents(name),
        Group::FosterTargets => in_foster_targets(name),
        Group::MayStayOpen => in_may_stay_open(name),
        Group::ImpliedEndTags => in_implied_end_tags(name),
        Group::ImpliedEndTagsThoroughly => in_implied_end_tags_thoroughly(name),
    }
}

/// The namespace and name of an element; nothing for other nodes.
pub open spec fn tag_of(kind: KindModel) -> Option<(Option<Seq<char>>, Seq<char>)> {
    match kind {
        KindModel::Element { name, namespace, .. } => Some((namespace, name)),
        _ => None,
    }
}

/// An element with the given namespace and name.
pub open spec fn is_element_named(kind: KindModel, namespace: Seq<char>, name: Seq<char>) -> bool {
    tag_of(kind) == Some((Some(namespace), name))
}

/// The name of an HTML element; nothing for other nodes.
pub open spec fn html_name(kind: KindModel) -> Option<Seq<char>> {
    match tag_of(kind) {
        Some((Some(namespace), name)) => if namespace == HTML_NAMESPACE@ {
            Some(name)
        } else {
            None
        },
        _ => None,
    }
}

/// There is exactly one document node, and it is in no other node.
pub open spec fn one_document_node(d: DocumentModel) -> bool {
    &&& d.kind(d.root) is Document
    &&& d.parent(d.root) is None
    &&& forall|id: NodeId| d.has(id) && #[trigger] d.kind(id) is Document ==> id == d.root
}

/// The second document has every node of the first, every element keeps its
/// namespace and name, and the document node stays alone and where it is.
pub open spec fn tags_kept(d: DocumentModel, e: DocumentModel) -> bool {
    &&& e.root == d.root
    &&& e.nodes.len() >= d.nodes.len()
    &&& e.parent(d.root) == d.parent(d.root)
    &&& forall|id: NodeId|
        e.has(id) ==> (#[trigger] e.kind(id) is Document <==> d.has(id) && d.kind(id) is Document)
    &&& forall|id: NodeId| d.has(id) ==> tag_of(#[trigger] e.kind(id)) == tag_of(d.kind(id))
}

/// A new node changes no tag.
pub proof fn lemma_new_node_keeps_tags(
    d: DocumentModel,
    kind: KindModel,
    position: Option<Position>,
)
    requires
        d.wf(),
        d.nodes.len() < usize::MAX,
        !(kind is Document),
    ensures
        tags_kept(d, d.new_node(kind, position)),
        d.new_node(kind, position).kind(d.next_id()) == kind,
        d.new_node(kind, position).children(d.next_id()).len() == 0,
        d.new_node(kind, position).parent(d.next_id()) is None,
{
    lemma_new_node(d, kind, position);
    let e = d.new_node(kind, position);
    assert forall|id: NodeId| d.has(id) implies tag_of(#[trigger] e.kind(id)) == tag_of(
        d.kind(id),
    ) by {
        assert(e.node(id) == d.node(id));
    }
    assert forall|id: NodeId| e.has(id) implies (#[trigger] e.kind(id) is Document <==> d.has(id)
        && d.kind(id) is Document) by {
        if d.has(id) {
            assert(e.node(id) == d.node(id));
        }
    }
    assert(e.node(d.root) == d.node(d.root));
}

/// Moving a node other than the document node changes no tag.
pub proof fn lemma_insert_keeps_tags(
    d: DocumentModel,
    parent: NodeId,
    reference: Option<NodeId>,
    id: NodeId,
)
    requires
        d.wf(),
        d.can_insert(parent, reference, id),
        id != d.root,
    ensures
        tags_kept(d, d.insert_before(parent, reference, id)),
        d.insert_before(parent, reference, id).nodes.len() == d.nodes.len(),
{
    lemma_insert_before(d, parent, reference, id);
    let e = d.insert_before(parent, reference, id);
    assert forall|other: NodeId| d.has(other) implies tag_of(#[trigger] e.kind(other)) == tag_of(
        d.kind(other),
    ) by {
        assert(e.node(other).kind == d.node(other).kind);
    }
    assert forall|other: NodeId| e.has(other) implies (#[trigger] e.kind(other) is Document
        <==> d.has(other) && d.kind(other) is Document) by {
        assert(e.node(other).kind == d.node(other).kind);
    }
    assert(e.parent(d.root) == d.parent(d.root));
}

/// Detaching a node other than the document node changes no tag.
pub proof fn lemma_remove_keeps_tags(d: DocumentModel, id: NodeId)
    requires
        d.wf(),
        d.has(id),
        id != d.root,
    ensures
        tags_kept(d, d.remove(id)),
        d.remove(id).nodes.len() == d.nodes.len(),
{
    lemma_remove(d, id);
    let e = d.remove(id);
    assert forall|other: NodeId| d.has(other) implies tag_of(#[trigger] e.kind(other)) == tag_of(
        d.kind(other),
    ) by {
        assert(e.node(other).kind == d.node(other).kind);
    }
    assert forall|other: NodeId| e.has(other) implies (#[trigger] e.kind(other) is Document
        <==> d.has(other) && d.kind(other) is Document) by {
        assert(e.node(other).kind == d.node(other).kind);
    }
    assert(e.parent(d.root) == d.parent(d.root));
}

/// Keeping tags carries over.
pub proof fn lemma_tags_kept_twice(d: DocumentModel, e: DocumentModel, f: DocumentModel)
    requires
        tags_kept(d, e),
        tags_kept(e, f),
    ensures
        tags_kept(d, f),
{
    assert forall|id: NodeId| d.has(id) implies tag_of(#[trigger] f.kind(id)) == tag_of(
        d.kind(id),
    ) by {
        assert(tag_of(e.kind(id)) == tag_of(d.kind(id)));
    }
    assert forall|id: NodeId| f.has(id) implies (#[trigger] f.kind(id) is Document <==> d.has(id)
        && d.kind(id) is Document) by {
        if e.has(id) {
            assert(e.kind(id) is Document <==> d.has(id) && d.kind(id) is Document);
        }
    }
}

/// Where tags are kept, there still is exactly one document node.
pub proof fn lemma_one_document_node_kept(d: DocumentModel, e: DocumentModel)
    requires
        d.has(d.root),
        one_document_node(d),
        tags_kept(d, e),
    ensures
        one_document_node(e),
{
    assert(e.kind(e.root) is Document);
}

/// An HTML element of the group.
pub open spec fn kind_in_group(kind: KindModel, group: Group) -> bool {
    match html_name(kind) {
        Some(name) => in_group(name, group),
        None => false,
    }
}

/// An element that ends a search in the given scope.
#[verifier::opaque]
pub open spec fn bounds_scope(kind: KindModel, scope: Scope) -> bool {
    match kind {
        KindModel::Element { name, namespace, .. } => if namespace == Some(HTML_NAMESPACE@) {
            match scope {
                Scope::Default => in_default_scope(name),
                Scope::ListItem => in_default_scope(name) || in_list_item_scope(name),
                Scope::Button => in_default_scope(name) || name == "button"@,
                Scope::Table => in_table_scope(name),
            }
        } else if scope is Table {
            false
        } else {
            (namespace == Some(MATHML_NAMESPACE@) && in_mathml_boundaries(name)) || (namespace
                == Some(SVG_NAMESPACE@) && in_svg_boundaries(name))
        },
        _ => false,
    }
}

/// A special element.
#[verifier::opaque]
pub open spec fn special_kind(kind: KindModel) -> bool {
    match kind {
        KindModel::Element { name, namespace, .. } => {
            ||| namespace == Some(HTML_NAMESPACE@) && in_special(name)
            ||| namespace == Some(MATHML_NAMESPACE@) && in_mathml_boundaries(name)
            ||| namespace == Some(SVG_NAMESPACE@) && in_svg_boundaries(name)
        },
        _ => false,
    }
}

/// An element of MathML that holds text as HTML does.
#[verifier::opaque]
pub open spec fn mathml_text_integration_point(kind: KindModel) -> bool {
    match kind {
        KindModel::Element { name, namespace, .. } => namespace == Some(MATHML_NAMESPACE@)
            && in_mathml_text(name),
        _ => false,
    }
}

/// An attribute that says that an `annotation-xml` element holds HTML.
pub open spec fn says_html(attribute: ElementAttribute) -> bool {
    attribute.name == "encoding"@ && (same_ignoring_case(attribute.value, "text/html"@)
        || same_ignoring_case(attribute.value, "application/xhtml+xml"@))
}

/// Some attribute of the list says that its element holds HTML.
pub open spec fn some_attribute_says_html(attributes: Seq<ElementAttribute>) -> bool {
    exists|i: int| 0 <= i < attributes.len() && says_html(#[trigger] attributes[i])
}

/// A foreign element that holds HTML.
#[verifier::opaque]
pub open spec fn html_integration_point(kind: KindModel) -> bool {
    match kind {
        KindModel::Element { name, namespace, attributes } => {
            ||| namespace == Some(MATHML_NAMESPACE@) && name == "annotation-xml"@
                && some_attribute_says_html(attributes)
            ||| namespace == Some(SVG_NAMESPACE@) && (name == "foreignObject"@ || name == "desc"@
                || name == "title"@)
        },
        _ => false,
    }
}

/// Whether a name is that of an element of the group.
pub fn is_in_group(name: &str, group: Group) -> (r: bool)
    ensures
        r == in_group(name@, group),
{
    match group {
        Group::Headings => is_headings(name),
        Group::Cells => is_cells(name),
        Group::TableContext => is_table_context(name),
        Group::TableBodyContext => is_table_body_context(name),
        Group::TableRowContext => is_table_row_context(name),
        Group::TableSections => is_table_sections(name),
        Group::TableTextParents => is_table_text_parents(name),
        Group::FosterTargets => is_foster_targets(name),
        Group::MayStayOpen => is_may_stay_open(name),
        Group::ImpliedEndTags => is_implied_end_tags(name),
        Group::ImpliedEndTagsThoroughly => is_implied_end_tags_thoroughly(name),
    }
}

/// Whether a node is an element with the given namespace and name.
pub fn node_is(document: &Document, node: NodeId, namespace: &str, name: &str) -> (r: bool)
    requires
        document.wf(),
        document@.has(node),
    ensures
        r == is_element_named(document@.kind(node), namespace@, name@),
{
    match &document.node(node).kind {
        NodeKind::Element { name: own, namespace: own_namespace, .. } => {
            text_is(own_namespace, namespace) && str_eq(own.as_str(), name)
        },
        _ => false,
    }
}

/// Whether a node is an HTML element with the given name.
pub fn node_is_html(document: &Document, node: NodeId, name: &str) -> (r: bool)
    requires
        document.wf(),
        document@.has(node),
    ensures
        r == (html_name(document@.kind(node)) == Some(name@)),
{
    node_is(document, node, HTML_NAMESPACE, name)
}

/// Whether a node is an element in the HTML namespace.
pub fn node_in_html_namespace(document: &Document, node: NodeId) -> (r: bool)
    requires
        document.wf(),
        document@.has(node),
    ensures
        r == (html_name(document@.kind(node)) is Some),
{
    match &document.node(node).kind {
        NodeKind::Element { namespace, .. } => text_is(namespace, HTML_NAMESPACE),
        _ => false,
    }
}

/// Whether a node is an HTML element of the group.
pub fn node_in_group(document: &Document, node: NodeId, group: Group) -> (r: bool)
    requires
        document.wf(),
        document@.has(node),
    ensures
        r == kind_in_group(document@.kind(node), group),
{
    match &document.node(node).kind {
        NodeKind::Element { name, namespace, .. } => {
            text_is(namespace, HTML_NAMESPACE) && is_in_group(name.as_str(), group)
        },
        _ => false,
    }
}

/// Whether a node ends a search in the given scope.
pub fn node_bounds_scope(document: &Document, node: NodeId, scope: Scope) -> (r: bool)
    requires
        document.wf(),
        document@.has(node),
    ensures
        r == bounds_scope(document@.kind(node), scope),
{
    proof {
        reveal(bounds_scope);
    }
    match &document.node(node).kind {
        NodeKind::Element { name, namespace, .. } => {
            let name = name.as_str();
            if text_is(namespace, HTML_NAMESPACE) {
                match scope {
                    Scope::Default => is_default_scope(name),
                    Scope::ListItem => is_default_scope(name) || is_list_item_scope(name),
                    Scope::Button => is_default_scope(name) || str_eq(name, "button"),
                    Scope::Table => is_table_scope(name),
                }
            } else if matches!(scope, Scope::Table) {
                false
            } else {
                (text_is(namespace, MATHML_NAMESPACE) && is_mathml_boundaries(name)) || (text_is(
                    namespace,
                    SVG_NAMESPACE,
                ) && is_svg_boundaries(name))
            }
        },
        _ => false,
    }
}

/// Whether a node is a special element.
pub fn is_special_node(document: &Document, node: NodeId) -> (r: bool)
    requires
        document.wf(),
        document@.has(node),
    ensures
        r == special_kind(document@.kind(node)),
{
    proof {
        reveal(special_kind);
    }
    match &document.node(node).kind {
        NodeKind::Element { name, namespace, .. } => {
            let name = name.as_str();
            (text_is(namespace, HTML_NAMESPACE) && is_special(name)) || (text_is(
                namespace,
                MATHML_NAMESPACE,
            ) && is_mathml_boundaries(name)) || (text_is(namespace, SVG_NAMESPACE)
                && is_svg_boundaries(name))
        },
        _ => false,
    }
}

/// Whether a node is a MathML text integration point.
pub fn is_mathml_text_integration_point(document: &Document, node: NodeId) -> (r: bool)
    requires
        document.wf(),
        document@.has(node),
    ensures
        r == mathml_text_integration_point(document@.kind(node)),
{
    proof {
        reveal(mathml_text_integration_point);
    }
    match &document.node(node).kind {
        NodeKind::Element { name, namespace, .. } => {
            text_is(namespace, MATHML_NAMESPACE) && is_mathml_text(name.as_str())
        },
        _ => false,
    }
}

/// Whether some attribute says that an element holds HTML.
fn some_says_html(attributes: &Vec<Attribute>) -> (r: bool)
    ensures
        r == some_attribute_says_html(element_attributes(attributes@)),
{
    let mut i: usize = 0;
    while i < attributes.len()
        invariant
            0 <= i <= attributes@.len(),
            forall|j: int|
                0 <= j < i ==> !says_html(#[trigger] element_attributes(attributes@)[j]),
        decreases attributes@.len() - i,
    {
        assert(element_attributes(attributes@)[i as int] == attributes@[i as int]@);
        if str_eq(attributes[i].name.as_str(), "encoding") && (eq_ignore_ascii_case(
            attributes[i].value.as_str(),
            "text/html",
        ) || eq_ignore_ascii_case(attributes[i].value.as_str(), "application/xhtml+xml")) {
            return true;
        }
        i = i + 1;
    }
    false
}

/// Whether a node is an HTML integration point.
pub fn is_html_integration_point(document: &Document, node: NodeId) -> (r: bool)
    requires
        document.wf(),
        document@.has(node),
    ensures
        r == html_integration_point(document@.kind(node)),
{
    proof {
        reveal(html_integration_point);
    }
    match &document.node(node).kind {
        NodeKind::Element { name, namespace, attributes } => {
            let name = name.as_str();
            if text_is(namespace, MATHML_NAMESPACE) && str_eq(name, "annotation-xml") {
                if some_says_html(attributes) {
                    return true;
                }
            }
            text_is(namespace, SVG_NAMESPACE) && (str_eq(name, "foreignObject") || str_eq(
                name,
                "desc",
            ) || str_eq(name, "title"))
        },
        _ => false,
    }
}

} // verus!
