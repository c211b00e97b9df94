//! How foreign elements and their attributes are spelled, and what the elements that tags
//! make have of their tags.
use vstd::prelude::*;

use crate::document::model::{ElementAttribute, KindModel, NodeId};
use crate::token::{AttributeModel, TagModel, TokenKindModel};
use crate::tree_builder::elements::{html_integration_point, mathml_text_integration_point, tag_of};
use crate::tree_builder::frame::{inside, kin, lemma_frame_new_node, lemma_kin_insert};
use crate::tree_builder::model::{attributes_for, element_for, foreign_attribute, BuilderModel};
use crate::tree_builder::modes::foreign::breaks_out;
use crate::tree_builder::names::{
    entry_from, foreign_attribute_namespace, mathml_attribute, svg_attribute, svg_tag,
    FOREIGN_ATTRIBUTE_NAMESPACES, HTML_NAMESPACE, MATHML_ATTRIBUTES, MATHML_NAMESPACE,
    SVG_ATTRIBUTES, SVG_NAMESPACE, SVG_TAG_NAMES,
};
use crate::tree_builder::select::after_pop;

verus! {

/// The text is the second member of an entry whose first member is the key.
pub open spec fn listed(
    table: Seq<(&'static str, &'static str)>,
    key: Seq<char>,
    text: Seq<char>,
) -> bool {
    exists|i: int|
        0 <= i < table.len() && (#[trigger] table[i]).0@ == key && table[i].1@ == text
}

/// No entry has the key for its first member.
pub open spec fn unlisted(table: Seq<(&'static str, &'static str)>, key: Seq<char>) -> bool {
    forall|i: int| 0 <= i < table.len() ==> (#[trigger] table[i]).0@ != key
}

/// The spelling of a name: what the table has for it, or else the name itself.
pub open spec fn spelled_by(
    table: Seq<(&'static str, &'static str)>,
    key: Seq<char>,
    text: Seq<char>,
) -> bool {
    listed(table, key, text) || unlisted(table, key) && text == key
}

/// An attribute of a foreign element: the name of the attribute of the tag in its spelling,
/// the same value, and the namespace that such names have.
pub open spec fn attribute_alike(
    attribute: ElementAttribute,
    written: AttributeModel,
    spellings: Seq<(&'static str, &'static str)>,
) -> bool {
    &&& spelled_by(spellings, written.name, attribute.name)
    &&& attribute.value == written.value
    &&& match attribute.namespace {
        Some(namespace) => listed(
            FOREIGN_ATTRIBUTE_NAMESPACES@,
            attribute.name,
            namespace,
        ),
        None => unlisted(FOREIGN_ATTRIBUTE_NAMESPACES@, attribute.name),
    }
}

/// The attributes of a foreign element are those of the tag, one for one.
pub open spec fn attributes_alike(
    attributes: Seq<ElementAttribute>,
    written: Seq<AttributeModel>,
    spellings: Seq<(&'static str, &'static str)>,
) -> bool {
    &&& attributes.len() == written.len()
    &&& forall|i: int|
        0 <= i < attributes.len() ==> attribute_alike(
            #[trigger] attributes[i],
            written[i],
            spellings,
        )
}

/// An SVG element for a tag: the name and the names of the attributes as SVG spells
/// them, and the values as they are in the tag.
pub open spec fn svg_element_for(kind: KindModel, tag: TagModel) -> bool {
    &&& kind matches KindModel::Element { name, namespace, attributes }
    &&& namespace == Some(SVG_NAMESPACE@)
    &&& spelled_by(SVG_TAG_NAMES@, tag.name, name)
    &&& attributes_alike(attributes, tag.attributes, SVG_ATTRIBUTES@)
}

/// A MathML element for a tag: the name of the tag, the names of the attributes as MathML
/// spells them, and the values as they are in the tag.
pub open spec fn mathml_element_for(kind: KindModel, tag: TagModel) -> bool {
    &&& kind matches KindModel::Element { name, namespace, attributes }
    &&& namespace == Some(MATHML_NAMESPACE@)
    &&& name == tag.name
    &&& attributes_alike(attributes, tag.attributes, MATHML_ATTRIBUTES@)
}

/// An HTML element for a tag: its name, and its attributes as they are in the tag.
pub open spec fn html_element_for(kind: KindModel, tag: TagModel) -> bool {
    &&& kind matches KindModel::Element { name, namespace, attributes }
    &&& namespace == Some(HTML_NAMESPACE@)
    &&& name == tag.name
    &&& attributes.len() == tag.attributes.len()
    &&& forall|i: int|
        0 <= i < attributes.len() ==> (#[trigger] attributes[i]).name == tag.attributes[i].name
            && attributes[i].value == tag.attributes[i].value && attributes[i].namespace is None
}

proof fn lemma_entry_from(table: Seq<(&'static str, &'static str)>, key: Seq<char>, i: int)
    requires
        0 <= i,
    ensures
        match entry_from(table, key, i) {
            Some(text) => listed(table, key, text),
            None => forall|k: int| i <= k < table.len() ==> (#[trigger] table[k]).0@ != key,
        },
    decreases table.len() - i,
{
    if i < table.len() {
        if table[i].0@ == key {
            assert(listed(table, key, table[i].1@));
        } else {
            lemma_entry_from(table, key, i + 1);
        }
    }
}

/// The three namespaces are different.
pub proof fn lemma_namespaces_differ()
    ensures
        HTML_NAMESPACE@ != SVG_NAMESPACE@,
        HTML_NAMESPACE@ != MATHML_NAMESPACE@,
        SVG_NAMESPACE@ != MATHML_NAMESPACE@,
{
    reveal_strlit("http://www.w3.org/1999/xhtml");
    reveal_strlit("http://www.w3.org/2000/svg");
    reveal_strlit("http://www.w3.org/1998/Math/MathML");
    assert(HTML_NAMESPACE@.len() == 28);
    assert(SVG_NAMESPACE@.len() == 26);
    assert(MATHML_NAMESPACE@.len() == 34);
}

proof fn lemma_namespace_alike(name: Seq<char>)
    ensures
        match foreign_attribute_namespace(name) {
            Some(namespace) => listed(FOREIGN_ATTRIBUTE_NAMESPACES@, name, namespace),
            None => unlisted(FOREIGN_ATTRIBUTE_NAMESPACES@, name),
        },
{
    reveal(foreign_attribute_namespace);
    lemma_entry_from(FOREIGN_ATTRIBUTE_NAMESPACES@, name, 0);
}

/// An element that is made from a tag has the name of the tag and its attributes: in HTML
/// as they are, in SVG and MathML as those spell them.
pub proof fn lemma_made_for_tag(tag: TagModel)
    ensures
        html_element_for(element_for(tag, HTML_NAMESPACE@), tag),
        mathml_element_for(element_for(tag, MATHML_NAMESPACE@), tag),
        element_for(tag, SVG_NAMESPACE@) matches KindModel::Element { name, namespace, attributes }
            && name == tag.name && namespace == Some(SVG_NAMESPACE@) && attributes_alike(
            attributes,
            tag.attributes,
            SVG_ATTRIBUTES@,
        ),
{
    lemma_namespaces_differ();
    reveal(attributes_for);
    lemma_foreign_attributes(tag.attributes, SVG_NAMESPACE@);
    lemma_foreign_attributes(tag.attributes, MATHML_NAMESPACE@);
}

/// How the names of attributes are spelled in a namespace.
pub open spec fn spellings(namespace: Seq<char>) -> Seq<(&'static str, &'static str)> {
    if namespace == SVG_NAMESPACE@ {
        SVG_ATTRIBUTES@
    } else if namespace == MATHML_NAMESPACE@ {
        MATHML_ATTRIBUTES@
    } else {
        Seq::empty()
    }
}

/// The attributes of a foreign element are those of its tag.
pub proof fn lemma_foreign_attributes(attributes: Seq<AttributeModel>, namespace: Seq<char>)
    requires
        namespace != HTML_NAMESPACE@,
    ensures
        attributes_alike(
            attributes_for(attributes, namespace),
            attributes,
            spellings(namespace),
        ),
{
    lemma_namespaces_differ();
    reveal(attributes_for);
    reveal(svg_attribute);
    reveal(mathml_attribute);
    let made = attributes_for(attributes, namespace);
    assert forall|i: int| 0 <= i < made.len() implies attribute_alike(
        #[trigger] made[i],
        attributes[i],
        spellings(namespace),
    ) by {
        assert(made[i] == foreign_attribute(attributes[i], namespace));
        lemma_entry_from(SVG_ATTRIBUTES@, attributes[i].name, 0);
        lemma_entry_from(MATHML_ATTRIBUTES@, attributes[i].name, 0);
        lemma_namespace_alike(made[i].name);
    }
}

/// A name that SVG spells in its own way is in its table.
pub proof fn lemma_svg_tag(name: Seq<char>)
    ensures
        svg_tag(name) matches Some(text) ==> listed(SVG_TAG_NAMES@, name, text),
{
    reveal(svg_tag);
    lemma_entry_from(SVG_TAG_NAMES@, name, 0);
}

/// What a start tag does in a foreign element: a new element is the last child of the
/// current node, at the position of the tag, and open unless the tag closes itself. No
/// other node changes.
proof fn lemma_foreign_child(t: BuilderModel, tag: TagModel, namespace: Seq<char>)
    requires
        kin(t.document),
        t.document.nodes.len() < usize::MAX,
        t.open_elements.len() > 0,
        inside(t.document, t.open_elements.last()),
        tag_of(t.current_kind()) matches Some((Some(own), _)) && own == namespace,
        namespace != HTML_NAMESPACE@,
    ensures
        ({
            let current = t.open_elements.last();
            let u = t.insert_foreign_here(tag, namespace);
            let id = t.document.next_id();
            &&& u == BuilderModel {
                document: u.document,
                open_elements: t.open_elements.push(id),
                ..t
            }
            &&& !inside(t.document, id)
            &&& u.document.kind(id) == element_for(tag, namespace)
            &&& u.document.node(id).position == Some(t.token_position)
            &&& u.document.children(current) == t.document.children(current).push(id)
            &&& u.document.kind(current) == t.document.kind(current)
            &&& forall|other: NodeId|
                inside(t.document, other) && other != current ==> #[trigger] u.document.node(other)
                    == t.document.node(other)
        }),
{
    reveal(BuilderModel::insert_foreign_element);
    reveal(BuilderModel::create_element);
    reveal(BuilderModel::location);
    let d = t.document;
    let current = t.open_elements.last();
    let id = d.next_id();
    let kind = element_for(tag, namespace);
    let e = d.new_node(kind, Some(t.token_position));
    lemma_frame_new_node(d, kind, Some(t.token_position), d.root);
    assert(e.node(current) == d.node(current));
    assert(t.location(None).parent == current && t.location(None).before is None);
    assert(current != d.root);
    lemma_kin_insert(e, current, None, id);
    let f = e.append_child(current, id);
    assert(e.remove(id) == e);
    assert(d.children(current).insert(d.children(current).len() as int, id)
        == d.children(current).push(id));
    assert forall|other: NodeId| inside(d, other) && other != current implies #[trigger] f.node(
        other,
    ) == d.node(other) by {
        assert(e.node(other) == d.node(other));
    }
}

/// A start tag in an SVG element makes a child of it that is an SVG element: whatever
/// attributes the tag has, the name is as SVG spells it, and so are the names of the
/// attributes, with the values and the order of the tag. The element is at the position of
/// the tag, and open unless the tag closes itself. No other node changes.
pub proof fn lemma_svg_child(t: BuilderModel, tag: TagModel)
    requires
        kin(t.document),
        t.document.nodes.len() < usize::MAX,
        t.open_elements.len() > 0,
        inside(t.document, t.open_elements.last()),
        tag_of(t.current_kind()) matches Some((Some(own), _)) && own == SVG_NAMESPACE@,
        !html_integration_point(t.current_kind()),
        !breaks_out(tag),
    ensures
        ({
            let current = t.open_elements.last();
            let u = t.step(TokenKindModel::StartTag(tag)).0;
            let id = t.document.next_id();
            &&& !inside(t.document, id)
            &&& svg_element_for(u.document.kind(id), tag)
            &&& u.document.node(id).position == Some(t.token_position)
            &&& u.document.children(current) == t.document.children(current).push(id)
            &&& u.document.kind(current) == t.document.kind(current)
            &&& forall|other: NodeId|
                inside(t.document, other) && other != current ==> #[trigger] u.document.node(other)
                    == t.document.node(other)
            &&& tag.self_closing ==> u.open_elements == t.open_elements
            &&& !tag.self_closing ==> u.open_elements == t.open_elements.push(id)
        }),
{
    reveal(BuilderModel::goes_to_foreign_content);
    reveal(mathml_text_integration_point);
    reveal(BuilderModel::in_foreign);
    reveal(BuilderModel::insert_alike_here);
    reveal(after_pop);
    reveal(svg_tag);
    lemma_namespaces_differ();
    lemma_entry_from(SVG_TAG_NAMES@, tag.name, 0);
    let spelled = match svg_tag(tag.name) {
        Some(name) => TagModel { name, ..tag },
        None => tag,
    };
    lemma_made_for_tag(spelled);
    lemma_foreign_child(t, spelled, SVG_NAMESPACE@);
    assert(t.current_namespace() == SVG_NAMESPACE@);
    assert(t.goes_to_foreign_content(TokenKindModel::StartTag(tag)));
    let v = t.insert_foreign_here(spelled, SVG_NAMESPACE@).acknowledge_self_closing();
    assert(t.step(TokenKindModel::StartTag(tag)).0 == if tag.self_closing {
        v.pop()
    } else {
        v
    });
    assert(svg_element_for(v.document.kind(t.document.next_id()), tag));
    assert(t.open_elements.push(t.document.next_id()).drop_last() == t.open_elements);
}

/// A start tag in a MathML element that is not read as HTML makes a child of it that is a
/// MathML element, with the name of the tag and the attributes of the tag as MathML spells
/// them. The element is at the position of the tag, and open unless the tag closes itself.
/// No other node changes.
pub proof fn lemma_mathml_child(t: BuilderModel, tag: TagModel)
    requires
        kin(t.document),
        t.document.nodes.len() < usize::MAX,
        t.open_elements.len() > 0,
        inside(t.document, t.open_elements.last()),
        tag_of(t.current_kind()) matches Some((Some(own), _)) && own == MATHML_NAMESPACE@,
        t.goes_to_foreign_content(TokenKindModel::StartTag(tag)),
        !breaks_out(tag),
    ensures
        ({
            let current = t.open_elements.last();
            let u = t.step(TokenKindModel::StartTag(tag)).0;
            let id = t.document.next_id();
            &&& !inside(t.document, id)
            &&& mathml_element_for(u.document.kind(id), tag)
            &&& u.document.node(id).position == Some(t.token_position)
            &&& u.document.children(current) == t.document.children(current).push(id)
            &&& u.document.kind(current) == t.document.kind(current)
            &&& forall|other: NodeId|
                inside(t.document, other) && other != current ==> #[trigger] u.document.node(other)
                    == t.document.node(other)
            &&& tag.self_closing ==> u.open_elements == t.open_elements
            &&& !tag.self_closing ==> u.open_elements == t.open_elements.push(id)
        }),
{
    reveal(BuilderModel::in_foreign);
    reveal(BuilderModel::insert_alike_here);
    reveal(after_pop);
    lemma_namespaces_differ();
    lemma_made_for_tag(tag);
    lemma_foreign_child(t, tag, MATHML_NAMESPACE@);
    assert(t.open_elements.push(t.document.next_id()).drop_last() == t.open_elements);
}

} // verus!
