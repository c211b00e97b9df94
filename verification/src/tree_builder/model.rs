//! The model of a tree builder, and what each of its elementary steps does.
use vstd::prelude::*;

use crate::document::model::{plain_attribute, DocumentModel, ElementAttribute, KindModel, NodeId};
use crate::token::{AttributeModel, ParseError, ParseErrorKind, Position, TagModel, TokenKindModel};
use crate::tokenizer::model::ExternalState;
use crate::tree_builder::elements::{
    html_name, kind_in_group, one_document_node, tag_of, Group, Scope,
};
use crate::tree_builder::formatting::{
    all_formatting, cleared_to_marker, with_formatting, FormattingEntry,
};
use crate::tree_builder::names::{
    foreign_attribute_namespace, mathml_attribute, svg_attribute, HTML_NAMESPACE, MATHML_NAMESPACE,
    SVG_NAMESPACE,
};
use crate::tree_builder::quirks::QuirksMode;
use crate::tree_builder::select::after_pop;
use crate::tree_builder::stack::{
    all_elements, group_in_scope, in_scope, index_from, last_in_group, last_named,
    length_without_implied, node_in_scope,
};

verus! {

/// Which rules the next token is handled by.
#[derive(Debug, Clone, Copy, PartialEq, Eq, Structural)]
pub enum InsertionMode {
    Initial,
    BeforeHtml,
    BeforeHead,
    InHead,
    InHeadNoscript,
    AfterHead,
    InBody,
    Text,
    InTable,
    InTableText,
    InCaption,
    InColumnGroup,
    InTableBody,
    InRow,
    InCell,
    InTemplate,
    AfterBody,
    InFrameset,
    AfterFrameset,
    AfterAfterBody,
    AfterAfterFrameset,
}

/// How the contents of a text element are tokenized.
#[derive(Debug, Clone, Copy, PartialEq, Eq, Structural)]
pub enum GenericTextElementKind {
    RawText,
    Rcdata,
    Script,
}

/// What became of a token: it was used up, and the tokenizer may have to switch
/// its state, or the rules of the new insertion mode are to handle it.
#[derive(Debug, Clone, Copy, PartialEq, Eq, Structural)]
pub enum TokenOutcome {
    Consumed(Option<ExternalState>),
    Reprocess,
}

/// Where a node goes: before one of the children of a node, or after the last.
#[derive(Debug, Clone, Copy, PartialEq, Eq, Structural)]
pub struct InsertionLocation {
    pub parent: NodeId,
    pub before: Option<NodeId>,
}

/// The model of a tree builder.
#[verifier::ext_equal]
pub struct BuilderModel {
    pub document: DocumentModel,
    pub open_elements: Seq<NodeId>,
    pub formatting: Seq<FormattingEntry>,
    pub foster_parenting: bool,
    pub insertion_mode: InsertionMode,
    pub original_insertion_mode: Option<InsertionMode>,
    pub template_insertion_modes: Seq<InsertionMode>,
    pub quirks_mode: QuirksMode,
    pub head_element_pointer: Option<NodeId>,
    pub form_element_pointer: Option<NodeId>,
    pub frameset_ok: bool,
    pub skip_next_line_feed: bool,
    pub pending_table_character_tokens: Seq<(char, Position)>,
    pub token_position: Position,
    pub self_closing_acknowledged: bool,
    pub errors: Seq<ParseError>,
}

/// An element pointer points to an element.
pub open spec fn points_to_element(d: DocumentModel, pointer: Option<NodeId>) -> bool {
    match pointer {
        Some(node) => d.has(node) && tag_of(d.kind(node)) is Some,
        None => true,
    }
}

/// A mode that is not only left by going back to another.
pub open spec fn can_resume(mode: InsertionMode) -> bool {
    !(mode is Text) && !(mode is InTableText)
}

/// The name of a foreign attribute, in the spelling of its namespace.
pub open spec fn foreign_attribute_name(name: Seq<char>, namespace: Seq<char>) -> Seq<char> {
    let adjusted = if namespace == MATHML_NAMESPACE@ {
        mathml_attribute(name)
    } else if namespace == SVG_NAMESPACE@ {
        svg_attribute(name)
    } else {
        None
    };
    match adjusted {
        Some(adjusted) => adjusted,
        None => name,
    }
}

/// An attribute of a foreign element.
pub open spec fn foreign_attribute(
    attribute: AttributeModel,
    namespace: Seq<char>,
) -> ElementAttribute {
    let name = foreign_attribute_name(attribute.name, namespace);
    ElementAttribute {
        name,
        value: attribute.value,
        namespace: foreign_attribute_namespace(name),
    }
}

/// The attributes of an element made from a tag.
#[verifier::opaque]
pub open spec fn attributes_for(
    attributes: Seq<AttributeModel>,
    namespace: Seq<char>,
) -> Seq<ElementAttribute> {
    if namespace == HTML_NAMESPACE@ {
        Seq::new(attributes.len(), |i: int| plain_attribute(attributes[i]))
    } else {
        Seq::new(attributes.len(), |i: int| foreign_attribute(attributes[i], namespace))
    }
}

/// The element that a tag stands for.
pub open spec fn element_for(tag: TagModel, namespace: Seq<char>) -> KindModel {
    KindModel::Element {
        name: tag.name,
        namespace: Some(namespace),
        attributes: attributes_for(tag.attributes, namespace),
    }
}

/// The tag that an element could have been made from.
pub open spec fn tag_for(kind: KindModel) -> TagModel {
    match kind {
        KindModel::Element { name, attributes, .. } => TagModel {
            name,
            self_closing: false,
            attributes: Seq::new(
                attributes.len(),
                |i: int| AttributeModel { name: attributes[i].name, value: attributes[i].value },
            ),
        },
        _ => TagModel { name: Seq::empty(), self_closing: false, attributes: Seq::empty() },
    }
}

/// The contents of a template element: the fragment that is its first child.
pub open spec fn template_contents(d: DocumentModel, node: NodeId) -> Option<NodeId> {
    if html_name(d.kind(node)) == Some("template"@) && d.children(node).len() > 0 && d.kind(
        d.children(node)[0],
    ) is DocumentFragment {
        Some(d.children(node)[0])
    } else {
        None
    }
}

/// Whether an entry has to be opened again.
pub open spec fn is_closed(entry: FormattingEntry, stack: Seq<NodeId>) -> bool {
    match entry {
        FormattingEntry::Element(node) => !stack.contains(node),
        FormattingEntry::Marker => false,
    }
}

/// The entries from this index on have to be opened again.
pub open spec fn closed_from(entries: Seq<FormattingEntry>, stack: Seq<NodeId>) -> int
    decreases entries.len(),
{
    if entries.len() > 0 && is_closed(entries.last(), stack) {
        closed_from(entries.drop_last(), stack)
    } else {
        entries.len() as int
    }
}

/// Where an element stands in the list of active formatting elements, looked
/// for from index `i` on.
pub open spec fn formatting_index_from(
    entries: Seq<FormattingEntry>,
    node: NodeId,
    i: int,
) -> Option<int>
    decreases entries.len() - i,
{
    if i < 0 || i >= entries.len() {
        None
    } else if entries[i] == FormattingEntry::Element(node) {
        Some(i)
    } else {
        formatting_index_from(entries, node, i + 1)
    }
}

/// The list without the first entry for an element.
pub open spec fn without_formatting(
    entries: Seq<FormattingEntry>,
    node: NodeId,
) -> Seq<FormattingEntry> {
    match formatting_index_from(entries, node, 0) {
        Some(i) => entries.remove(i),
        None => entries,
    }
}

/// The stack without the first entry for an element.
pub open spec fn without_node(stack: Seq<NodeId>, node: NodeId) -> Seq<NodeId> {
    match index_from(stack, node, 0) {
        Some(i) => stack.remove(i),
        None => stack,
    }
}

/// The first element of that name after the last marker, from index `i` on.
pub open spec fn formatting_named(
    d: DocumentModel,
    entries: Seq<FormattingEntry>,
    name: Seq<char>,
    i: int,
) -> Option<NodeId>
    decreases entries.len() - i,
{
    if i < 0 || i >= entries.len() {
        None
    } else {
        match entries[i] {
            FormattingEntry::Element(node) => if html_name(d.kind(node)) == Some(name) {
                Some(node)
            } else {
                formatting_named(d, entries, name, i + 1)
            },
            FormattingEntry::Marker => formatting_named(d, entries, name, i + 1),
        }
    }
}

/// The insertion mode that an open element calls for, if any. `last` is set for
/// the first element of the stack.
pub open spec fn mode_of_element(
    name: Seq<char>,
    last: bool,
    template_mode: InsertionMode,
    head_seen: bool,
) -> Option<InsertionMode> {
    if !last && (name == "td"@ || name == "th"@) {
        Some(InsertionMode::InCell)
    } else if name == "tr"@ {
        Some(InsertionMode::InRow)
    } else if name == "tbody"@ || name == "thead"@ || name == "tfoot"@ {
        Some(InsertionMode::InTableBody)
    } else if name == "caption"@ {
        Some(InsertionMode::InCaption)
    } else if name == "colgroup"@ {
        Some(InsertionMode::InColumnGroup)
    } else if name == "table"@ {
        Some(InsertionMode::InTable)
    } else if name == "template"@ {
        Some(template_mode)
    } else if !last && name == "head"@ {
        Some(InsertionMode::InHead)
    } else if name == "body"@ {
        Some(InsertionMode::InBody)
    } else if name == "frameset"@ {
        Some(InsertionMode::InFrameset)
    } else if name == "html"@ {
        if head_seen {
            Some(InsertionMode::AfterHead)
        } else {
            Some(InsertionMode::BeforeHead)
        }
    } else {
        None
    }
}

/// The insertion mode that the stack of open elements calls for: that of the
/// lowest element that calls for one.
pub open spec fn mode_for_stack(
    d: DocumentModel,
    stack: Seq<NodeId>,
    template_mode: InsertionMode,
    head_seen: bool,
) -> InsertionMode
    decreases stack.len(),
{
    if stack.len() == 0 {
        InsertionMode::InBody
    } else {
        let called_for = match html_name(d.kind(stack.last())) {
            Some(name) => mode_of_element(name, stack.len() == 1, template_mode, head_seen),
            None => None,
        };
        match called_for {
            Some(mode) => mode,
            None => mode_for_stack(d, stack.drop_last(), template_mode, head_seen),
        }
    }
}

impl BuilderModel {
    /// The stack of open elements, the list of active formatting elements and
    /// the element pointers name elements of the document, and the template
    /// insertion modes are modes that can be gone back to. There is exactly one
    /// document node.
    #[verifier::opaque]
    pub open spec fn sound(self) -> bool {
        &&& self.document.has(self.document.root)
        &&& one_document_node(self.document)
        &&& all_elements(self.document, self.open_elements)
        &&& all_formatting(self.document, self.formatting)
        &&& points_to_element(self.document, self.head_element_pointer)
        &&& points_to_element(self.document, self.form_element_pointer)
        &&& forall|i: int|
            0 <= i < self.template_insertion_modes.len() ==> can_resume(
                #[trigger] self.template_insertion_modes[i],
            )
    }

    // ---- Questions ----

    /// The current node.
    pub open spec fn current_node(self) -> Option<NodeId> {
        if self.open_elements.len() == 0 {
            None
        } else {
            Some(self.open_elements.last())
        }
    }

    /// What the current node is; the document itself where nothing is open.
    pub open spec fn current_kind(self) -> KindModel {
        match self.current_node() {
            Some(node) => self.document.kind(node),
            None => KindModel::Document,
        }
    }

    /// The current node is an HTML element of that name.
    pub open spec fn current_is(self, name: Seq<char>) -> bool {
        html_name(self.current_kind()) == Some(name)
    }

    /// The current node is an HTML element of the group.
    pub open spec fn current_in(self, group: Group) -> bool {
        kind_in_group(self.current_kind(), group)
    }

    /// An element of that name is in the given scope.
    pub open spec fn in_specific_scope(self, name: Seq<char>, scope: Scope) -> bool {
        in_scope(self.document, self.open_elements, name, scope)
    }

    /// An element of the group is in the given scope.
    pub open spec fn group_in_specific_scope(self, group: Group, scope: Scope) -> bool {
        group_in_scope(self.document, self.open_elements, group, scope)
    }

    /// A template element is open.
    pub open spec fn has_template(self) -> bool {
        last_named(self.document, self.open_elements, "template"@) is Some
    }

    /// The `form` element pointer points to an element in scope.
    pub open spec fn form_in_scope(self) -> bool {
        match self.form_element_pointer {
            Some(node) => node_in_scope(self.document, self.open_elements, node),
            None => false,
        }
    }

    /// The `form` element pointer points to the current node.
    pub open spec fn form_is_current(self) -> bool {
        self.form_element_pointer is Some && self.form_element_pointer == self.current_node()
    }

    /// The second open element is a `body`.
    pub open spec fn second_is_body(self) -> bool {
        self.open_elements.len() > 1 && html_name(self.document.kind(self.open_elements[1]))
            == Some("body"@)
    }

    /// The second open element was not written in the source.
    pub open spec fn second_is_implied(self) -> bool {
        self.open_elements.len() > 1 && self.document.node(self.open_elements[1]).position is None
    }

    /// The token is a line feed that the start tag just before it makes disappear.
    pub open spec fn drops_line_feed(self, kind: TokenKindModel) -> bool {
        self.skip_next_line_feed && kind == TokenKindModel::Character('\n')
    }

    /// The current node is an element outside the HTML namespace.
    pub open spec fn in_foreign_content(self) -> bool {
        self.open_elements.len() > 0 && html_name(self.current_kind()) is None
    }

    // ---- Errors, modes and flags ----

    /// One more error, at the position of the current token.
    pub open spec fn error(self, kind: ParseErrorKind) -> Self {
        self.error_at(kind, self.token_position)
    }

    /// One more error.
    pub open spec fn error_at(self, kind: ParseErrorKind, position: Position) -> Self {
        BuilderModel { errors: self.errors.push(ParseError { kind, position }), ..self }
    }

    pub open spec fn set_mode(self, mode: InsertionMode) -> Self {
        BuilderModel { insertion_mode: mode, ..self }
    }

    /// Remembers the insertion mode, and goes to another.
    pub open spec fn suspend_mode(self, mode: InsertionMode) -> Self {
        BuilderModel {
            original_insertion_mode: Some(self.insertion_mode),
            insertion_mode: mode,
            ..self
        }
    }

    /// Goes back to the insertion mode that was remembered. One that is itself
    /// only left by going back is never gone back to.
    pub open spec fn resume_mode(self) -> Self {
        BuilderModel {
            insertion_mode: match self.original_insertion_mode {
                Some(mode) => if can_resume(mode) {
                    mode
                } else {
                    InsertionMode::InBody
                },
                None => InsertionMode::InBody,
            },
            original_insertion_mode: None,
            ..self
        }
    }

    pub open spec fn set_frameset_ok(self, value: bool) -> Self {
        BuilderModel { frameset_ok: value, ..self }
    }

    pub open spec fn set_skip_next_line_feed(self, value: bool) -> Self {
        BuilderModel { skip_next_line_feed: value, ..self }
    }

    pub open spec fn set_foster_parenting(self, value: bool) -> Self {
        BuilderModel { foster_parenting: value, ..self }
    }

    pub open spec fn set_quirks_mode(self, mode: QuirksMode) -> Self {
        BuilderModel { quirks_mode: mode, ..self }
    }

    /// The self-closing flag of the tag is in order.
    pub open spec fn acknowledge_self_closing(self) -> Self {
        BuilderModel { self_closing_acknowledged: true, ..self }
    }

    pub open spec fn push_template_mode(self, mode: InsertionMode) -> Self {
        BuilderModel {
            template_insertion_modes: self.template_insertion_modes.push(mode),
            ..self
        }
    }

    pub open spec fn pop_template_mode(self) -> Self {
        if self.template_insertion_modes.len() == 0 {
            self
        } else {
            BuilderModel {
                template_insertion_modes: self.template_insertion_modes.drop_last(),
                ..self
            }
        }
    }

    /// The innermost template insertion mode.
    pub open spec fn template_mode(self) -> InsertionMode {
        if self.template_insertion_modes.len() == 0 {
            InsertionMode::InBody
        } else {
            self.template_insertion_modes.last()
        }
    }

    /// Sets the insertion mode to what the stack of open elements calls for.
    pub open spec fn reset_mode(self) -> Self {
        self.set_mode(
            mode_for_stack(
                self.document,
                self.open_elements,
                self.template_mode(),
                self.head_element_pointer is Some,
            ),
        )
    }

    /// Makes the current node the `head` element.
    pub open spec fn remember_head(self) -> Self {
        BuilderModel { head_element_pointer: self.current_node(), ..self }
    }

    /// Makes the current node the `form` element.
    pub open spec fn remember_form(self) -> Self {
        BuilderModel { form_element_pointer: self.current_node(), ..self }
    }

    pub open spec fn forget_form(self) -> Self {
        BuilderModel { form_element_pointer: None, ..self }
    }

    // ---- The stack of open elements ----

    /// Pops the current node.
    pub open spec fn pop(self) -> Self {
        if self.open_elements.len() == 0 {
            self
        } else {
            BuilderModel {
                open_elements: self.open_elements.drop_last(),
                document: after_pop(self.document, self.open_elements.last()),
                ..self
            }
        }
    }

    /// Pops nodes until `n` are left.
    #[verifier::opaque]
    pub open spec fn pop_to(self, n: int) -> Self
        decreases self.open_elements.len(),
    {
        if self.open_elements.len() == 0 || self.open_elements.len() <= n {
            self
        } else {
            self.pop().pop_to(n)
        }
    }

    /// Pops nodes until an HTML element of that name was popped.
    pub open spec fn pop_until(self, name: Seq<char>) -> Self {
        match last_named(self.document, self.open_elements, name) {
            Some(i) => self.pop_to(i),
            None => self.pop_to(0),
        }
    }

    /// Pops nodes until an HTML element of the group was popped.
    pub open spec fn pop_until_one_of(self, group: Group) -> Self {
        match last_in_group(self.document, self.open_elements, group) {
            Some(i) => self.pop_to(i),
            None => self.pop_to(0),
        }
    }

    /// Pops nodes until the current node is an HTML element of the group.
    pub open spec fn clear_back_to(self, group: Group) -> Self {
        match last_in_group(self.document, self.open_elements, group) {
            Some(i) => self.pop_to(i + 1),
            None => self.pop_to(0),
        }
    }

    /// Pops the elements whose end tags are implied; one called `exclude` stays.
    pub open spec fn generate_implied_end_tags(self, exclude: Option<Seq<char>>) -> Self {
        self.pop_to(
            length_without_implied(
                self.document,
                self.open_elements,
                Group::ImpliedEndTags,
                exclude,
            ),
        )
    }

    /// Pops the elements whose end tags are implied at the end of a template.
    pub open spec fn generate_implied_end_tags_thoroughly(self) -> Self {
        self.pop_to(
            length_without_implied(
                self.document,
                self.open_elements,
                Group::ImpliedEndTagsThoroughly,
                None,
            ),
        )
    }

    /// Closes everything up to an element of that name, with an error if more
    /// than implied end tags is missing; an element called `exclude` is not
    /// closed by an implied end tag.
    #[verifier::opaque]
    pub open spec fn close_element(self, name: Seq<char>, exclude: Option<Seq<char>>) -> Self {
        let t = self.generate_implied_end_tags(exclude);
        let t = if t.current_is(name) {
            t
        } else {
            t.error(ParseErrorKind::ImpliedEndTagWithUnclosedElements)
        };
        t.pop_until(name)
    }

    /// Opens the `head` element again.
    pub open spec fn push_head(self) -> Self {
        match self.head_element_pointer {
            Some(head) => BuilderModel { open_elements: self.open_elements.push(head), ..self },
            None => self,
        }
    }

    /// Takes the `head` element off the stack, wherever it stands.
    pub open spec fn remove_head(self) -> Self {
        match self.head_element_pointer {
            Some(head) => BuilderModel {
                open_elements: without_node(self.open_elements, head),
                ..self
            },
            None => self,
        }
    }

    /// Takes the `form` element off the stack, wherever it stands.
    pub open spec fn remove_form(self) -> Self {
        match self.form_element_pointer {
            Some(form) => BuilderModel {
                open_elements: without_node(self.open_elements, form),
                ..self
            },
            None => self,
        }
    }

    // ---- Places in the document ----

    /// Where a node goes that must not stand in a table.
    pub open spec fn foster_location(self) -> InsertionLocation {
        let stack = self.open_elements;
        let template = last_named(self.document, stack, "template"@);
        let table = last_named(self.document, stack, "table"@);
        let in_template = match (template, table) {
            (Some(i), Some(j)) => i > j,
            (Some(_), None) => true,
            _ => false,
        };
        if in_template {
            InsertionLocation { parent: stack[template->0], before: None }
        } else {
            match table {
                None => InsertionLocation {
                    parent: if stack.len() == 0 {
                        self.document.root
                    } else {
                        stack[0]
                    },
                    before: None,
                },
                Some(j) => match self.document.parent(stack[j]) {
                    Some(parent) => InsertionLocation { parent, before: Some(stack[j]) },
                    None => InsertionLocation {
                        parent: if j == 0 {
                            self.document.root
                        } else {
                            stack[j - 1]
                        },
                        before: None,
                    },
                },
            }
        }
    }

    /// A place in a template element is a place in its contents.
    pub open spec fn within_template(self, location: InsertionLocation) -> InsertionLocation {
        match template_contents(self.document, location.parent) {
            Some(contents) => InsertionLocation { parent: contents, before: None },
            None => location,
        }
    }

    /// The appropriate place for inserting a node into the given one, or into
    /// the current node.
    #[verifier::opaque]
    pub open spec fn location(self, target: Option<NodeId>) -> InsertionLocation {
        let target = match target {
            Some(target) => target,
            None => match self.current_node() {
                Some(node) => node,
                None => self.document.root,
            },
        };
        let location = if self.foster_parenting && kind_in_group(
            self.document.kind(target),
            Group::FosterTargets,
        ) {
            self.foster_location()
        } else {
            InsertionLocation { parent: target, before: None }
        };
        self.within_template(location)
    }

    // ---- Insertion ----

    /// Makes an element for a tag; it is attached nowhere yet. A template gets
    /// its contents.
    #[verifier::opaque]
    pub open spec fn create_element(
        self,
        tag: TagModel,
        namespace: Seq<char>,
        position: Option<Position>,
    ) -> Self {
        let element = self.document.next_id();
        let d = self.document.new_node(element_for(tag, namespace), position);
        BuilderModel {
            document: if namespace == HTML_NAMESPACE@ && tag.name == "template"@ {
                d.new_node(KindModel::DocumentFragment, None).append_child(element, d.next_id())
            } else {
                d
            },
            ..self
        }
    }

    /// Puts an element at a place, unless the place is in the document node and
    /// something stands there already.
    pub open spec fn insert_element_at(
        self,
        element: NodeId,
        location: InsertionLocation,
    ) -> Self {
        if location.parent == self.document.root && self.document.children(location.parent).len()
            > 0 {
            self
        } else {
            BuilderModel {
                document: self.document.insert_before(location.parent, location.before, element),
                ..self
            }
        }
    }

    /// Inserts an element for a tag, and opens it.
    #[verifier::opaque]
    pub open spec fn insert_foreign_element(
        self,
        tag: TagModel,
        namespace: Seq<char>,
        position: Option<Position>,
    ) -> Self {
        let location = self.location(None);
        let element = self.document.next_id();
        let t = self.create_element(tag, namespace, position).insert_element_at(element, location);
        BuilderModel { open_elements: t.open_elements.push(element), ..t }
    }

    /// Inserts an HTML element for a tag, and opens it.
    pub open spec fn insert_html_element(self, tag: TagModel, position: Option<Position>) -> Self {
        self.insert_foreign_element(tag, HTML_NAMESPACE@, position)
    }

    /// Inserts an HTML element at the position of the current token.
    pub open spec fn insert_here(self, tag: TagModel) -> Self {
        self.insert_html_element(tag, Some(self.token_position))
    }

    /// Inserts the `html` element into the document, and opens it.
    #[verifier::opaque]
    pub open spec fn insert_root_element(self, tag: TagModel, position: Option<Position>) -> Self {
        let element = self.document.next_id();
        let t = self.create_element(tag, HTML_NAMESPACE@, position);
        BuilderModel {
            document: t.document.append_child(t.document.root, element),
            open_elements: t.open_elements.push(element),
            ..t
        }
    }

    /// Inserts an element whose contents are text.
    pub open spec fn insert_text_element(
        self,
        tag: TagModel,
        position: Option<Position>,
    ) -> Self {
        self.insert_html_element(tag, position).suspend_mode(InsertionMode::Text)
    }

    /// The node right before a place.
    pub open spec fn node_before(self, location: InsertionLocation) -> Option<NodeId> {
        let siblings = self.document.children(location.parent);
        let i = match location.before {
            Some(before) => siblings.index_of(before),
            None => siblings.len() as int,
        };
        if i > 0 {
            Some(siblings[i - 1])
        } else {
            None
        }
    }

    /// Puts a new node at a place.
    pub open spec fn new_node_at(
        self,
        kind: KindModel,
        position: Option<Position>,
        location: InsertionLocation,
    ) -> Self {
        let node = self.document.next_id();
        BuilderModel {
            document: self.document.new_node(kind, position).insert_before(
                location.parent,
                location.before,
                node,
            ),
            ..self
        }
    }

    /// Inserts a character: it joins the text before it, if there is any. The
    /// document node takes no text.
    #[verifier::opaque]
    pub open spec fn insert_character(self, c: char, position: Option<Position>) -> Self {
        let location = self.location(None);
        if location.parent == self.document.root {
            self
        } else {
            match self.node_before(location) {
                Some(node) => if self.document.kind(node) is Text {
                    BuilderModel { document: self.document.push_text(node, c), ..self }
                } else {
                    self.new_node_at(KindModel::Text { content: seq![c] }, position, location)
                },
                None => self.new_node_at(
                    KindModel::Text { content: seq![c] },
                    position,
                    location,
                ),
            }
        }
    }

    /// Inserts a node that is neither an element nor text.
    #[verifier::opaque]
    pub open spec fn insert_node(self, kind: KindModel, position: Option<Position>) -> Self {
        self.new_node_at(kind, position, self.location(None))
    }

    pub open spec fn insert_comment(self, data: Seq<char>, position: Option<Position>) -> Self {
        self.insert_node(KindModel::Comment { content: data }, position)
    }

    pub open spec fn insert_processing_instruction(
        self,
        target: Seq<char>,
        data: Seq<char>,
        position: Option<Position>,
    ) -> Self {
        self.insert_node(KindModel::ProcessingInstruction { target, data }, position)
    }

    /// Appends a node to the document node.
    #[verifier::opaque]
    pub open spec fn append_to_document(self, kind: KindModel) -> Self {
        self.new_node_at(
            kind,
            Some(self.token_position),
            InsertionLocation { parent: self.document.root, before: None },
        )
    }

    /// Appends a node to the `html` element.
    #[verifier::opaque]
    pub open spec fn append_to_html(self, kind: KindModel) -> Self {
        self.new_node_at(
            kind,
            Some(self.token_position),
            InsertionLocation {
                parent: if self.open_elements.len() == 0 {
                    self.document.root
                } else {
                    self.open_elements[0]
                },
                before: None,
            },
        )
    }

    /// Adds the attributes of a tag that are not there yet to the `n`th open
    /// element.
    #[verifier::opaque]
    pub open spec fn merge_attributes(self, n: int, tag: TagModel) -> Self {
        if n < self.open_elements.len() {
            BuilderModel {
                document: self.document.merge_attributes(self.open_elements[n], tag.attributes),
                ..self
            }
        } else {
            self
        }
    }

    /// Detaches the second open element from its parent.
    #[verifier::opaque]
    pub open spec fn detach_second(self) -> Self {
        if self.open_elements.len() > 1 {
            BuilderModel { document: self.document.remove(self.open_elements[1]), ..self }
        } else {
            self
        }
    }

    // ---- Active formatting elements ----

    /// Adds the current node to the list of active formatting elements.
    #[verifier::opaque]
    pub open spec fn push_formatting(self) -> Self {
        match self.current_node() {
            Some(node) => BuilderModel {
                formatting: with_formatting(self.document, self.formatting, node),
                ..self
            },
            None => self,
        }
    }

    pub open spec fn push_marker(self) -> Self {
        BuilderModel { formatting: self.formatting.push(FormattingEntry::Marker), ..self }
    }

    pub open spec fn clear_to_marker(self) -> Self {
        BuilderModel { formatting: cleared_to_marker(self.formatting), ..self }
    }

    /// Opens the element of one entry again.
    pub open spec fn reopen(self, i: int) -> Self {
        match self.formatting[i] {
            FormattingEntry::Element(node) => {
                let t = self.insert_html_element(tag_for(self.document.kind(node)), None);
                BuilderModel {
                    formatting: t.formatting.update(
                        i,
                        FormattingEntry::Element(t.open_elements.last()),
                    ),
                    ..t
                }
            },
            FormattingEntry::Marker => self,
        }
    }

    /// Opens the elements of the entries `i` to `n` again.
    pub open spec fn reopen_from(self, i: int, n: int) -> Self
        decreases n - i,
    {
        if i >= n {
            self
        } else {
            self.reopen(i).reopen_from(i + 1, n)
        }
    }

    /// Opens the active formatting elements again that were closed.
    #[verifier::opaque]
    pub open spec fn reconstruct_formatting(self) -> Self {
        self.reopen_from(
            closed_from(self.formatting, self.open_elements),
            self.formatting.len() as int,
        )
    }
}

} // verus!
