//! The steps of a tree builder that put nodes into the document.
use vstd::prelude::*;

use crate::document::laws::{
    lemma_insert_before, lemma_leaf_is_no_ancestor, lemma_new_name, lemma_new_node,
};
use crate::document::model::{Attribute, KindModel, NodeId, NodeKind};
use crate::text::str_eq;
use crate::token::{Attribute as TokenAttribute, AttributeModel, Position, TagToken};
use crate::tokenizer::model::ExternalState;
use crate::tree_builder::builder::TreeBuilder;
use crate::tree_builder::elements::{
    lemma_insert_keeps_tags, lemma_new_node_keeps_tags, lemma_remove_keeps_tags,
    lemma_tags_kept_twice, node_in_group, node_is_html, tag_of, tags_kept, Group,
};
use crate::tree_builder::formatting::{with_formatting, FormattingEntry};
use crate::tree_builder::model::{
    attributes_for, closed_from, element_for, foreign_attribute, foreign_attribute_name, is_closed,
    tag_for, template_contents, BuilderModel, GenericTextElementKind, InsertionLocation,
    InsertionMode,
};
use crate::tree_builder::names::{
    foreign_attribute_namespace_of, mathml_attribute_of, svg_attribute_of, HTML_NAMESPACE,
    MATHML_NAMESPACE, SVG_NAMESPACE,
};
use crate::tree_builder::soundness::{
    lemma_no_new_ancestor, lemma_sound_push, lemma_sound_with, lemma_sound_with_formatting,
    lemma_tables_push,
};
use crate::tree_builder::stack::lemma_last_named;

verus! {

/// The name of a foreign attribute, in the spelling of its namespace.
fn adjusted_attribute_name(name: &String, namespace: &str) -> (r: String)
    ensures
        r@ == foreign_attribute_name(name@, namespace@),
{
    let adjusted = if str_eq(namespace, MATHML_NAMESPACE) {
        mathml_attribute_of(name.as_str())
    } else if str_eq(namespace, SVG_NAMESPACE) {
        svg_attribute_of(name.as_str())
    } else {
        None
    };
    match adjusted {
        Some(adjusted) => adjusted.to_owned(),
        None => name.clone(),
    }
}

/// An attribute of a foreign element.
fn adjusted_attribute(attribute: &TokenAttribute, namespace: &str) -> (r: Attribute)
    ensures
        r@ == foreign_attribute(attribute@, namespace@),
{
    let name = adjusted_attribute_name(&attribute.name, namespace);
    let attribute_namespace = match foreign_attribute_namespace_of(name.as_str()) {
        Some(namespace) => Some(namespace.to_owned()),
        None => None,
    };
    Attribute { name, value: attribute.value.clone(), namespace: attribute_namespace }
}

/// The attributes of an element made from a tag.
fn element_attributes_for(tag: &TagToken, namespace: &str) -> (r: Vec<Attribute>)
    ensures
        crate::document::model::element_attributes(r@) == attributes_for(
            tag@.attributes,
            namespace@,
        ),
{
    proof {
        reveal(attributes_for);
    }
    let html = str_eq(namespace, HTML_NAMESPACE);
    let mut attributes: Vec<Attribute> = Vec::new();
    let mut i: usize = 0;
    while i < tag.attributes.len()
        invariant
            html == (namespace@ == HTML_NAMESPACE@),
            0 <= i <= tag.attributes@.len(),
            attributes@.len() == i,
            forall|j: int|
                0 <= j < i ==> (#[trigger] attributes@[j])@ == attributes_for(
                    tag@.attributes,
                    namespace@,
                )[j],
        decreases tag.attributes@.len() - i,
    {
        proof {
            reveal(attributes_for);
            assert(tag@.attributes[i as int] == tag.attributes@[i as int]@);
        }
        if html {
            attributes.push(Attribute::from_token(&tag.attributes[i]));
        } else {
            attributes.push(adjusted_attribute(&tag.attributes[i], namespace));
        }
        i = i + 1;
    }
    attributes
}

impl TreeBuilder {
    /// The tag that an element could have been made from.
    pub fn tag_token_for(&self, node: NodeId) -> (r: TagToken)
        requires
            self.wf(),
            self@.document.has(node),
        ensures
            r@ == tag_for(self@.document.kind(node)),
    {
        proof {
            reveal(TreeBuilder::wf);
        }
        match &self.document.node(node).kind {
            NodeKind::Element { name, attributes, .. } => {
                let mut copies: Vec<TokenAttribute> = Vec::new();
                let mut i: usize = 0;
                while i < attributes.len()
                    invariant
                        0 <= i <= attributes@.len(),
                        copies@.len() == i,
                        forall|j: int|
                            0 <= j < i ==> (#[trigger] copies@[j])@ == (AttributeModel {
                                name: attributes@[j].name@,
                                value: attributes@[j].value@,
                            }),
                    decreases attributes@.len() - i,
                {
                    copies.push(
                        TokenAttribute {
                            name: attributes[i].name.clone(),
                            value: attributes[i].value.clone(),
                        },
                    );
                    i = i + 1;
                }
                let tag = TagToken { name: name.clone(), self_closing: false, attributes: copies };
                assert(tag@.attributes == tag_for(self@.document.kind(node)).attributes);
                tag
            },
            _ => TagToken { name: String::new(), self_closing: false, attributes: Vec::new() },
        }
    }

    // ---- Places in the document ----

    /// Where a node goes that must not stand in a table.
    fn foster_parenting_location(&self) -> (r: InsertionLocation)
        requires
            self.wf(),
        ensures
            r == self@.foster_location(),
            self@.place_exists(r),
    {
        proof {
            reveal(TreeBuilder::wf);
            reveal(BuilderModel::sound);
            self.document.lemma_wf();
            lemma_last_named(self@.document, self@.open_elements, "template"@);
            lemma_last_named(self@.document, self@.open_elements, "table"@);
        }
        let last_template = self.open_elements.last_matching(&self.document, "template");
        let last_table = self.open_elements.last_matching(&self.document, "table");
        if let Some(i) = last_template {
            let in_template = match last_table {
                Some(j) => i > j,
                None => true,
            };
            if in_template {
                assert(self@.document.has(self.open_elements.entries@[i as int]));
                return InsertionLocation { parent: self.open_elements.entries[i], before: None };
            }
        }
        match last_table {
            None => match self.open_elements.topmost() {
                Some(node) => {
                    assert(self@.document.has(self.open_elements.entries@[0]));
                    InsertionLocation { parent: node, before: None }
                },
                None => InsertionLocation { parent: self.document.root(), before: None },
            },
            Some(j) => {
                let table = self.open_elements.entries[j];
                assert(self@.document.has(self.open_elements.entries@[j as int]));
                match self.document.parent(table) {
                    Some(parent) => InsertionLocation { parent, before: Some(table) },
                    None => if j == 0 {
                        InsertionLocation { parent: self.document.root(), before: None }
                    } else {
                        assert(self@.document.has(self.open_elements.entries@[j - 1]));
                        InsertionLocation {
                            parent: self.open_elements.entries[j - 1],
                            before: None,
                        }
                    },
                }
            },
        }
    }

    /// The contents of a template element.
    fn contents_of(&self, node: NodeId) -> (r: Option<NodeId>)
        requires
            self.wf(),
            self@.document.has(node),
        ensures
            r == template_contents(self@.document, node),
            r matches Some(contents) ==> self@.document.has(contents),
    {
        proof {
            reveal(TreeBuilder::wf);
            self.document.lemma_wf();
            assert(self@.document.family(node));
        }
        if !node_is_html(&self.document, node, "template") {
            return None;
        }
        let mut children = self.document.children(node);
        match children.next() {
            Some(child) => {
                assert(child == self@.document.children(node)[0]);
                if matches!(self.document.node(child).kind, NodeKind::DocumentFragment) {
                    Some(child)
                } else {
                    None
                }
            },
            None => None,
        }
    }

    /// The appropriate place for inserting a node into the given one, or into
    /// the current node.
    pub fn appropriate_place_for_inserting_a_node(&self, override_target: Option<NodeId>) -> (r:
        InsertionLocation)
        requires
            self.wf(),
            override_target matches Some(target) ==> self@.document.has(target),
        ensures
            r == self@.location(override_target),
            self@.place_exists(r),
    {
        proof {
            reveal(BuilderModel::location);
            reveal(TreeBuilder::wf);
            self.document.lemma_wf();
        }
        let target = match override_target {
            Some(target) => target,
            None => match self.current_node() {
                Some(node) => node,
                None => self.document.root(),
            },
        };
        let location = if self.foster_parenting && node_in_group(
            &self.document,
            target,
            Group::FosterTargets,
        ) {
            self.foster_parenting_location()
        } else {
            InsertionLocation { parent: target, before: None }
        };
        match self.contents_of(location.parent) {
            Some(contents) => InsertionLocation { parent: contents, before: None },
            None => location,
        }
    }

    // ---- Insertion ----

    /// Makes an element for a tag; it is attached nowhere yet.
    pub fn create_element_for_token(
        &mut self,
        tag: &TagToken,
        namespace: &str,
        position: Option<Position>,
    ) -> (r: NodeId)
        requires
            old(self).wf(),
        ensures
            final(self).wf(),
            final(self)@ == old(self)@.create_element(tag@, namespace@, position),
            r == old(self)@.document.next_id(),
            !old(self)@.document.has(r),
            final(self)@.document.has(r),
            final(self)@.document.parent(r) is None,
            tag_of(final(self)@.document.kind(r)) == Some((Some(namespace@), tag@.name)),
            tags_kept(old(self)@.document, final(self)@.document),
            forall|id: NodeId|
                old(self)@.document.has(id) ==> #[trigger] final(self)@.document.parent(id)
                    == old(self)@.document.parent(id),
            final(self)@.open_tables() == old(self)@.open_tables(),
    {
        proof {
            reveal(TreeBuilder::wf);
            reveal(BuilderModel::create_element);
            self.document.lemma_wf();
            lemma_new_name(self.document@);
        }
        let ghost before = self@;
        let ghost d = self.document@;
        let attributes = element_attributes_for(tag, namespace);
        let kind = NodeKind::Element {
            name: tag.name.clone(),
            namespace: Some(namespace.to_owned()),
            attributes,
        };
        let ghost made = kind@;
        let element = self.document.new_node(kind, position);
        let ghost e = self.document@;
        proof {
            assert(made == element_for(tag@, namespace@));
            self.document.lemma_wf();
            lemma_new_node(d, made, position);
            lemma_new_node_keeps_tags(d, made, position);
            assert forall|id: NodeId| d.has(id) implies #[trigger] e.parent(id) == d.parent(id) by {
                assert(e.node(id) == d.node(id));
            }
            lemma_sound_with(before, e);
        }
        if str_eq(namespace, HTML_NAMESPACE) && str_eq(tag.name.as_str(), "template") {
            let contents = self.document.new_node(NodeKind::DocumentFragment, None);
            let ghost f = self.document@;
            proof {
                self.document.lemma_wf();
                lemma_new_node(e, KindModel::DocumentFragment, None);
                lemma_new_node_keeps_tags(e, KindModel::DocumentFragment, None);
                lemma_new_name(e);
                lemma_leaf_is_no_ancestor(f, contents, element);
                lemma_insert_before(f, element, None, contents);
                lemma_insert_keeps_tags(f, element, None, contents);
            }
            self.document.append_child(element, contents);
            proof {
                let g = self.document@;
                lemma_tags_kept_twice(d, e, f);
                lemma_tags_kept_twice(d, f, g);
                assert(tag_of(f.kind(element)) == tag_of(e.kind(element)));
                assert(tag_of(g.kind(element)) == tag_of(f.kind(element)));
                assert(f.node(element) == e.node(element));
                assert(g.parent(element) == f.parent(element));
                assert forall|id: NodeId| d.has(id) implies #[trigger] g.parent(id) == d.parent(
                    id,
                ) by {
                    assert(e.node(id) == d.node(id));
                    assert(f.node(id) == e.node(id));
                    assert(g.parent(id) == f.parent(id));
                }
                lemma_sound_with(before, g);
            }
        }
        element
    }

    /// Puts an element at a place, unless the place is in the document node and
    /// something stands there already.
    pub fn insert_element_at_adjusted_insertion_location(
        &mut self,
        element: NodeId,
        location: InsertionLocation,
    )
        requires
            old(self).wf(),
            old(self)@.document.can_insert(location.parent, location.before, element),
            tag_of(old(self)@.document.kind(element)) is Some,
        ensures
            final(self).wf(),
            final(self)@ == old(self)@.insert_element_at(element, location),
            tags_kept(old(self)@.document, final(self)@.document),
            final(self)@.open_tables() == old(self)@.open_tables(),
    {
        proof {
            reveal(TreeBuilder::wf);
            reveal(BuilderModel::sound);
            self.document.lemma_wf();
            lemma_insert_keeps_tags(
                self@.document,
                location.parent,
                location.before,
                element,
            );
            lemma_sound_with(
                self@,
                self@.document.insert_before(location.parent, location.before, element),
            );
        }
        if location.parent == self.document.root() {
            match self.document.last_child(location.parent) {
                Some(_) => {
                    return;
                },
                None => {},
            }
        }
        self.document.insert_before(location.parent, location.before, element);
    }

    /// Inserts an element for a tag, and opens it.
    pub fn insert_foreign_element(
        &mut self,
        tag: &TagToken,
        namespace: &str,
        position: Option<Position>,
    ) -> (r: NodeId)
        requires
            old(self).wf(),
        ensures
            final(self).wf(),
            final(self)@ == old(self)@.insert_foreign_element(tag@, namespace@, position),
            r == old(self)@.document.next_id(),
            final(self)@.open_elements == old(self)@.open_elements.push(r),
            tag_of(final(self)@.document.kind(r)) == Some((Some(namespace@), tag@.name)),
            final(self)@.formatting == old(self)@.formatting,
            final(self)@.open_tables() == old(self)@.open_tables() || tag@.name == "table"@
                || tag@.name == "template"@,
    {
        proof {
            reveal(BuilderModel::insert_foreign_element);
            reveal(BuilderModel::create_element);
        }
        let ghost start = self@;
        let location = self.appropriate_place_for_inserting_a_node(None);
        proof {
            reveal(TreeBuilder::wf);
            self.document.lemma_wf();
        }
        let element = self.create_element_for_token(tag, namespace, position);
        let ghost made = self@;
        proof {
            lemma_no_new_ancestor(start.document, made.document, element, location.parent);
            match location.before {
                Some(before) => {
                    assert(made.document.parent(before) == start.document.parent(before));
                },
                None => {},
            }
        }
        self.insert_element_at_adjusted_insertion_location(element, location);
        let ghost placed = self@;
        proof {
            reveal(TreeBuilder::wf);
            assert(tag_of(placed.document.kind(element)) == tag_of(made.document.kind(element)));
            lemma_sound_push(placed, element);
            lemma_tables_push(placed.document, placed.open_elements, element);
        }
        self.open_elements.push(element);
        element
    }

    /// Inserts an HTML element for a tag, and opens it.
    pub fn insert_html_element(&mut self, tag: &TagToken, position: Option<Position>) -> (r: NodeId)
        requires
            old(self).wf(),
        ensures
            final(self).wf(),
            final(self)@ == old(self)@.insert_html_element(tag@, position),
            r == old(self)@.document.next_id(),
            final(self)@.open_elements == old(self)@.open_elements.push(r),
            tag_of(final(self)@.document.kind(r)) == Some((Some(HTML_NAMESPACE@), tag@.name)),
            final(self)@.formatting == old(self)@.formatting,
            final(self)@.open_tables() == old(self)@.open_tables() || tag@.name == "table"@
                || tag@.name == "template"@,
    {
        self.insert_foreign_element(tag, HTML_NAMESPACE, position)
    }

    /// Inserts an HTML element at the position of the current token.
    pub fn insert_here(&mut self, tag: &TagToken)
        requires
            old(self).wf(),
        ensures
            final(self).wf(),
            final(self)@ == old(self)@.insert_here(tag@),
    {
        let position = Some(self.token_position);
        self.insert_html_element(tag, position);
    }

    /// Inserts the `html` element into the document, and opens it.
    pub fn insert_root_element(&mut self, tag: &TagToken, position: Option<Position>)
        requires
            old(self).wf(),
        ensures
            final(self).wf(),
            final(self)@ == old(self)@.insert_root_element(tag@, position),
            final(self)@.open_elements.len() == old(self)@.open_elements.len() + 1,
            final(self)@.open_tables() == old(self)@.open_tables() || tag@.name == "table"@
                || tag@.name == "template"@,
    {
        proof {
            reveal(BuilderModel::insert_root_element);
            reveal(BuilderModel::create_element);
            reveal(TreeBuilder::wf);
            self.document.lemma_wf();
        }
        let ghost start = self@;
        let element = self.create_element_for_token(tag, HTML_NAMESPACE, position);
        let ghost made = self@;
        let root = self.document.root();
        proof {
            reveal(TreeBuilder::wf);
            self.document.lemma_wf();
            lemma_no_new_ancestor(start.document, made.document, element, root);
            lemma_insert_keeps_tags(made.document, root, None, element);
            lemma_sound_with(made, made.document.append_child(root, element));
        }
        self.document.append_child(root, element);
        let ghost placed = self@;
        proof {
            assert(tag_of(placed.document.kind(element)) == tag_of(made.document.kind(element)));
            lemma_sound_push(placed, element);
            lemma_tables_push(placed.document, placed.open_elements, element);
        }
        self.open_elements.push(element);
    }

    /// Inserts an element whose contents are text; tells how they are to be
    /// tokenized.
    pub fn generic_text_element_parsing_algorithm(
        &mut self,
        tag: &TagToken,
        kind: GenericTextElementKind,
        position: Option<Position>,
    ) -> (r: (NodeId, ExternalState))
        requires
            old(self).wf(),
        ensures
            final(self).wf(),
            final(self)@ == old(self)@.insert_text_element(tag@, position),
            r.0 == old(self)@.document.next_id(),
            r.1 == text_state(kind),
    {
        let element = self.insert_html_element(tag, position);
        self.suspend_mode(InsertionMode::Text);
        let state = match kind {
            GenericTextElementKind::RawText => ExternalState::RawText,
            GenericTextElementKind::Rcdata => ExternalState::RcData,
            GenericTextElementKind::Script => ExternalState::ScriptData,
        };
        (element, state)
    }

    /// Puts a new node at a place.
    fn put_node(
        &mut self,
        kind: NodeKind,
        position: Option<Position>,
        location: InsertionLocation,
    )
        requires
            old(self).wf(),
            old(self)@.place_exists(location),
            !(kind@ is Document),
        ensures
            final(self).wf(),
            final(self)@ == old(self)@.new_node_at(kind@, position, location),
    {
        proof {
            reveal(TreeBuilder::wf);
            self.document.lemma_wf();
            lemma_new_name(self.document@);
        }
        let ghost before = self@;
        let ghost d = self.document@;
        let ghost made = kind@;
        let node = self.document.new_node(kind, position);
        let ghost e = self.document@;
        proof {
            self.document.lemma_wf();
            lemma_new_node(d, made, position);
            lemma_new_node_keeps_tags(d, made, position);
            lemma_leaf_is_no_ancestor(e, node, location.parent);
            match location.before {
                Some(reference) => {
                    assert(e.node(reference) == d.node(reference));
                },
                None => {},
            }
            lemma_insert_keeps_tags(e, location.parent, location.before, node);
            lemma_tags_kept_twice(
                d,
                e,
                e.insert_before(location.parent, location.before, node),
            );
            lemma_sound_with(before, e.insert_before(location.parent, location.before, node));
        }
        self.document.insert_before(location.parent, location.before, node);
    }

    /// Inserts a character: it joins the text before it, if there is any.
    pub fn insert_character(&mut self, c: char, position: Option<Position>)
        requires
            old(self).wf(),
        ensures
            final(self).wf(),
            final(self)@ == old(self)@.insert_character(c, position),
    {
        proof {
            reveal(BuilderModel::insert_character);
        }
        let location = self.appropriate_place_for_inserting_a_node(None);
        if location.parent == self.document.root() {
            return;
        }
        proof {
            reveal(TreeBuilder::wf);
            self.document.lemma_wf();
            assert(self@.document.family(location.parent));
        }
        let node_immediately_before = match location.before {
            Some(before) => self.document.prev_sibling(before),
            None => self.document.last_child(location.parent),
        };
        assert(node_immediately_before == self@.node_before(location));
        if let Some(node) = node_immediately_before {
            let joins = matches!(self.document.node(node).kind, NodeKind::Text { .. });
            if joins {
                let ghost before = self@;
                self.document.push_text(node, c);
                proof {
                    let d = before.document;
                    let e = self.document@;
                    assert forall|id: NodeId| d.has(id) implies tag_of(#[trigger] e.kind(id))
                        == tag_of(d.kind(id)) by {}
                    lemma_sound_with(before, e);
                }
                return;
            }
        }
        let mut content = String::new();
        content.push(c);
        assert(content@ == seq![c]);
        self.put_node(NodeKind::Text { content }, position, location);
    }

    /// Inserts a comment.
    pub fn insert_comment(&mut self, data: String, position: Option<Position>)
        requires
            old(self).wf(),
        ensures
            final(self).wf(),
            final(self)@ == old(self)@.insert_comment(data@, position),
    {
        proof {
            reveal(BuilderModel::insert_node);
        }
        let location = self.appropriate_place_for_inserting_a_node(None);
        self.put_node(NodeKind::Comment { content: data }, position, location);
    }

    /// Inserts a processing instruction.
    pub fn insert_processing_instruction(
        &mut self,
        target: String,
        data: String,
        position: Option<Position>,
    )
        requires
            old(self).wf(),
        ensures
            final(self).wf(),
            final(self)@ == old(self)@.insert_processing_instruction(target@, data@, position),
    {
        proof {
            reveal(BuilderModel::insert_node);
        }
        let location = self.appropriate_place_for_inserting_a_node(None);
        self.put_node(NodeKind::ProcessingInstruction { target, data }, position, location);
    }

    /// Appends a node to the document node.
    pub fn append_to_document(&mut self, kind: NodeKind)
        requires
            old(self).wf(),
            !(kind@ is Document),
        ensures
            final(self).wf(),
            final(self)@ == old(self)@.append_to_document(kind@),
    {
        proof {
            reveal(BuilderModel::append_to_document);
            reveal(TreeBuilder::wf);
            self.document.lemma_wf();
        }
        let location = InsertionLocation { parent: self.document.root(), before: None };
        let position = Some(self.token_position);
        self.put_node(kind, position, location);
    }

    /// Appends a node to the `html` element.
    pub fn append_to_html(&mut self, kind: NodeKind)
        requires
            old(self).wf(),
            !(kind@ is Document),
        ensures
            final(self).wf(),
            final(self)@ == old(self)@.append_to_html(kind@),
    {
        proof {
            reveal(BuilderModel::append_to_html);
            reveal(TreeBuilder::wf);
            reveal(BuilderModel::sound);
            self.document.lemma_wf();
        }
        let parent = match self.open_elements.topmost() {
            Some(node) => {
                assert(self@.document.has(self@.open_elements[0]));
                node
            },
            None => self.document.root(),
        };
        let position = Some(self.token_position);
        self.put_node(kind, position, InsertionLocation { parent, before: None });
    }

    /// Adds the attributes of a tag that are not there yet to the `n`th open
    /// element.
    pub fn merge_attributes(&mut self, n: usize, tag: &TagToken)
        requires
            old(self).wf(),
        ensures
            final(self).wf(),
            final(self)@ == old(self)@.merge_attributes(n as int, tag@),
    {
        proof {
            reveal(BuilderModel::merge_attributes);
            reveal(TreeBuilder::wf);
            reveal(BuilderModel::sound);
            self.document.lemma_wf();
        }
        if n < self.open_elements.entries.len() {
            let ghost before = self@;
            let node = self.open_elements.entries[n];
            assert(self@.document.has(self@.open_elements[n as int]));
            self.document.merge_attributes(node, &tag.attributes);
            proof {
                let d = before.document;
                let e = self.document@;
                assert forall|id: NodeId| d.has(id) implies tag_of(#[trigger] e.kind(id))
                    == tag_of(d.kind(id)) by {}
                lemma_sound_with(before, e);
            }
        }
    }

    /// Detaches the second open element from its parent.
    pub fn detach_second(&mut self)
        requires
            old(self).wf(),
        ensures
            final(self).wf(),
            final(self)@ == old(self)@.detach_second(),
    {
        proof {
            reveal(BuilderModel::detach_second);
            reveal(TreeBuilder::wf);
            reveal(BuilderModel::sound);
            self.document.lemma_wf();
        }
        if self.open_elements.entries.len() > 1 {
            let node = self.open_elements.entries[1];
            proof {
                assert(self@.document.has(self@.open_elements[1]));
                lemma_remove_keeps_tags(self@.document, node);
                lemma_sound_with(self@, self@.document.remove(node));
            }
            self.document.remove(node);
        }
    }

    // ---- Active formatting elements ----

    /// Adds the current node to the list of active formatting elements.
    pub fn push_formatting(&mut self)
        requires
            old(self).wf(),
        ensures
            final(self).wf(),
            final(self)@ == old(self)@.push_formatting(),
    {
        proof {
            reveal(BuilderModel::push_formatting);
        }
        match self.current_node() {
            Some(node) => {
                proof {
                    reveal(TreeBuilder::wf);
                    reveal(BuilderModel::sound);
                }
                let ghost before = self@;
                self.active_formatting_elements.push(&self.document, node);
                proof {
                    lemma_formatting_added(before, node);
                }
            },
            None => {},
        }
    }

    /// Whether an entry has to be opened again.
    fn entry_is_closed(&self, i: usize) -> (r: bool)
        requires
            i < self.active_formatting_elements.entries@.len(),
        ensures
            r == is_closed(self@.formatting[i as int], self@.open_elements),
    {
        match self.active_formatting_elements.entries[i] {
            FormattingEntry::Element(node) => !self.open_elements.contains(node),
            FormattingEntry::Marker => false,
        }
    }

    /// Opens the active formatting elements again that were closed.
    pub fn reconstruct_the_active_formatting_elements(&mut self)
        requires
            old(self).wf(),
        ensures
            final(self).wf(),
            final(self)@ == old(self)@.reconstruct_formatting(),
    {
        proof {
            reveal(BuilderModel::reconstruct_formatting);
        }
        let ghost start = self@;
        let length: usize = self.active_formatting_elements.entries.len();
        let mut i: usize = length;
        assert(start.formatting.take(i as int) == start.formatting);
        while i > 0 && self.entry_is_closed(i - 1)
            invariant
                self.wf(),
                self@ == start,
                length == start.formatting.len(),
                0 <= i <= length,
                closed_from(start.formatting.take(i as int), start.open_elements) == closed_from(
                    start.formatting,
                    start.open_elements,
                ),
            decreases i,
        {
            proof {
                assert(start.formatting.take(i as int).last() == start.formatting[i - 1]);
                assert(start.formatting.take(i as int).drop_last() == start.formatting.take(
                    i - 1,
                ));
            }
            i = i - 1;
        }
        proof {
            if i > 0 {
                assert(start.formatting.take(i as int).last() == start.formatting[i - 1]);
            }
        }
        while i < length
            invariant
                self.wf(),
                self@.formatting.len() == length,
                0 <= i <= length,
                self@.reopen_from(i as int, length as int) == start.reconstruct_formatting(),
            decreases length - i,
        {
            self.reopen(i);
            i = i + 1;
        }
    }

    /// Opens the element of one entry again.
    fn reopen(&mut self, i: usize)
        requires
            old(self).wf(),
            i < old(self)@.formatting.len(),
        ensures
            final(self).wf(),
            final(self)@ == old(self)@.reopen(i as int),
            final(self)@.formatting.len() == old(self)@.formatting.len(),
    {
        match self.active_formatting_elements.entries[i] {
            FormattingEntry::Element(node) => {
                proof {
                    reveal(TreeBuilder::wf);
                    reveal(BuilderModel::sound);
                    assert(self@.formatting[i as int] == FormattingEntry::Element(node));
                }
                let tag = self.tag_token_for(node);
                let element = self.insert_html_element(&tag, None);
                proof {
                    reveal(TreeBuilder::wf);
                    reveal(BuilderModel::sound);
                    assert(self@.open_elements[self@.open_elements.len() - 1] == element);
                    lemma_sound_with_formatting(self@, i as int, element);
                }
                self.active_formatting_elements.entries[i] = FormattingEntry::Element(element);
            },
            FormattingEntry::Marker => {},
        }
    }
}

/// How the contents of a text element are tokenized.
pub open spec fn text_state(kind: GenericTextElementKind) -> ExternalState {
    match kind {
        GenericTextElementKind::RawText => ExternalState::RawText,
        GenericTextElementKind::Rcdata => ExternalState::RcData,
        GenericTextElementKind::Script => ExternalState::ScriptData,
    }
}

/// One more active formatting element keeps the builder sound.
proof fn lemma_formatting_added(t: BuilderModel, node: NodeId)
    requires
        t.sound(),
        t.document.has(node),
        tag_of(t.document.kind(node)) is Some,
    ensures
        (BuilderModel {
            formatting: with_formatting(t.document, t.formatting, node),
            ..t
        }).sound(),
{
    let start = crate::tree_builder::formatting::after_last_marker(t.formatting);
    crate::tree_builder::formatting::lemma_after_last_marker(t.formatting);
    crate::tree_builder::formatting::lemma_first_alike(t.document, t.formatting, start, node);
    let many = crate::tree_builder::formatting::count_alike(t.document, t.formatting, start, node)
        >= 3;
    let k = crate::tree_builder::formatting::first_alike(t.document, t.formatting, start, node);
    let kept = if many {
        crate::tree_builder::soundness::lemma_sound_without_formatting(t, k);
        BuilderModel { formatting: t.formatting.remove(k), ..t }
    } else {
        t
    };
    let n = kept.formatting.len() as int;
    lemma_sound_with_formatting(kept, n, node);
    assert(kept.formatting.insert(n, FormattingEntry::Element(node)) == kept.formatting.push(
        FormattingEntry::Element(node),
    ));
}

} // verus!
