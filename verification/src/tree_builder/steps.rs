//! The larger steps that the rules of the insertion modes are made of.
use vstd::prelude::*;

use crate::document::model::{DocumentModel, KindModel, NodeId, NodeKind};
use crate::text::{eq_ignore_ascii_case, is_whitespace, same_ignoring_case, str_eq, text_of};
use crate::token::{
    AttributeModel, DoctypeModel, DoctypeToken, ParseErrorKind, Position,
    ProcessingInstructionModel, ProcessingInstructionToken, TagModel, TagToken,
};
use crate::tree_builder::builder::TreeBuilder;
use crate::tree_builder::elements::{
    html_name, is_special_node, kind_in_group, node_in_group, node_is_html, special_kind, Group,
};
use crate::tree_builder::formatting::{after_last_marker, FormattingEntry};
use crate::tree_builder::model::{
    formatting_named, without_formatting, without_node, BuilderModel, InsertionMode,
};
use crate::tree_builder::names::{
    in_list_item_stop_exceptions, is_list_item_stop_exceptions, HTML_NAMESPACE,
};

verus! {

/// The first attribute of that name.
pub open spec fn attribute_value(
    attributes: Seq<AttributeModel>,
    name: Seq<char>,
) -> Option<Seq<char>>
    decreases attributes.len(),
{
    if attributes.len() == 0 {
        None
    } else if attributes[0].name == name {
        Some(attributes[0].value)
    } else {
        attribute_value(attributes.drop_first(), name)
    }
}

/// The tag is of an `input` that is not shown.
#[verifier::opaque]
pub open spec fn is_hidden(tag: TagModel) -> bool {
    match attribute_value(tag.attributes, "type"@) {
        Some(value) => same_ignoring_case(value, "hidden"@),
        None => false,
    }
}

/// An empty string where there is none.
pub open spec fn or_empty(text: Option<Seq<char>>) -> Option<Seq<char>> {
    match text {
        Some(text) => Some(text),
        None => Some(Seq::empty()),
    }
}

/// The node for a DOCTYPE.
pub open spec fn doctype_kind(doctype: DoctypeModel) -> KindModel {
    KindModel::Doctype {
        name: or_empty(doctype.name),
        public_identifier: or_empty(doctype.public_identifier),
        system_identifier: or_empty(doctype.system_identifier),
    }
}

/// The document node has a DOCTYPE or an element already.
pub open spec fn has_doctype_or_element(d: DocumentModel) -> bool {
    exists|i: int|
        0 <= i < d.children(d.root).len() && {
            let kind = d.kind(#[trigger] d.children(d.root)[i]);
            kind is Doctype || kind is Element
        }
}

/// The name of the list item that a new one closes: the lowest that is open,
/// unless a special element other than `address`, `div` and `p` stands below it.
pub open spec fn item_to_close(
    d: DocumentModel,
    stack: Seq<NodeId>,
    definition: bool,
) -> Option<Seq<char>>
    decreases stack.len(),
{
    if stack.len() == 0 {
        None
    } else {
        let kind = d.kind(stack.last());
        if !definition && html_name(kind) == Some("li"@) {
            Some("li"@)
        } else if definition && html_name(kind) == Some("dd"@) {
            Some("dd"@)
        } else if definition && html_name(kind) == Some("dt"@) {
            Some("dt"@)
        } else if special_kind(kind) && !(html_name(kind) matches Some(name)
            && in_list_item_stop_exceptions(name)) {
            None
        } else {
            item_to_close(d, stack.drop_last(), definition)
        }
    }
}

/// Some pending character is not white space; tells the position of the first.
pub open spec fn first_visible(tokens: Seq<(char, Position)>, i: int) -> Option<Position>
    decreases tokens.len() - i,
{
    if i < 0 || i >= tokens.len() {
        None
    } else if !is_whitespace(tokens[i].0) {
        Some(tokens[i].1)
    } else {
        first_visible(tokens, i + 1)
    }
}

impl BuilderModel {
    /// Some open element must be closed by an end tag.
    #[verifier::opaque]
    pub open spec fn unclosed_elements(self) -> bool {
        exists|i: int|
            0 <= i < self.open_elements.len() && !kind_in_group(
                self.document.kind(#[trigger] self.open_elements[i]),
                Group::MayStayOpen,
            )
    }

    pub open spec fn char_here(self, c: char) -> Self {
        self.insert_character(c, Some(self.token_position))
    }

    pub open spec fn comment_here(self, data: Seq<char>) -> Self {
        self.insert_comment(data, Some(self.token_position))
    }

    pub open spec fn instruction_here(self, pi: ProcessingInstructionModel) -> Self {
        self.insert_processing_instruction(pi.target, pi.data, Some(self.token_position))
    }

    pub open spec fn comment_to_document(self, data: Seq<char>) -> Self {
        self.append_to_document(KindModel::Comment { content: data })
    }

    pub open spec fn instruction_to_document(self, pi: ProcessingInstructionModel) -> Self {
        self.append_to_document(
            KindModel::ProcessingInstruction { target: pi.target, data: pi.data },
        )
    }

    pub open spec fn comment_to_html(self, data: Seq<char>) -> Self {
        self.append_to_html(KindModel::Comment { content: data })
    }

    pub open spec fn instruction_to_html(self, pi: ProcessingInstructionModel) -> Self {
        self.append_to_html(
            KindModel::ProcessingInstruction { target: pi.target, data: pi.data },
        )
    }

    /// Puts a DOCTYPE into the document, unless it has one or an element.
    #[verifier::opaque]
    pub open spec fn insert_doctype(self, doctype: DoctypeModel) -> Self {
        if has_doctype_or_element(self.document) {
            self
        } else {
            self.append_to_document(doctype_kind(doctype))
        }
    }

    /// Inserts a foreign element at the position of the current token.
    pub open spec fn insert_foreign_here(self, tag: TagModel, namespace: Seq<char>) -> Self {
        self.insert_foreign_element(tag, namespace, Some(self.token_position))
    }

    /// Inserts an element whose contents are text, at the position of the
    /// current token.
    pub open spec fn insert_text_here(self, tag: TagModel) -> Self {
        self.insert_text_element(tag, Some(self.token_position))
    }

    /// Closes the list item that a new one closes.
    #[verifier::opaque]
    pub open spec fn close_list_item(self, definition: bool) -> Self {
        match item_to_close(self.document, self.open_elements, definition) {
            Some(name) => self.close_element(name, Some(name)),
            None => self,
        }
    }

    /// Closes an `a` element that is still active, with an error.
    #[verifier::opaque]
    pub open spec fn close_active_anchor(self, tag: TagModel) -> Self {
        match formatting_named(
            self.document,
            self.formatting,
            "a"@,
            after_last_marker(self.formatting),
        ) {
            None => self,
            Some(node) => {
                let t = self.error(ParseErrorKind::NestedFormattingElement).adoption_agency(tag);
                BuilderModel {
                    formatting: without_formatting(t.formatting, node),
                    open_elements: without_node(t.open_elements, node),
                    ..t
                }
            },
        }
    }

    /// Holds back a character until the run it is in has ended.
    pub open spec fn hold_back(self, c: char) -> Self {
        BuilderModel {
            pending_table_character_tokens: self.pending_table_character_tokens.push(
                (c, self.token_position),
            ),
            ..self
        }
    }

    pub open spec fn forget_held_back(self) -> Self {
        BuilderModel { pending_table_character_tokens: Seq::empty(), ..self }
    }

    /// With the position of the current token set.
    pub open spec fn at(self, position: Position) -> Self {
        BuilderModel { token_position: position, ..self }
    }
}

/// Whether the tag is of an `input` that is not shown.
pub fn tag_is_hidden(tag: &TagToken) -> (r: bool)
    ensures
        r == is_hidden(tag@),
{
    proof {
        reveal(is_hidden);
    }
    let ghost all = tag@.attributes;
    let mut i: usize = 0;
    assert(all.skip(0) == all);
    while i < tag.attributes.len()
        invariant
            all == tag@.attributes,
            0 <= i <= all.len(),
            attribute_value(all.skip(i as int), "type"@) == attribute_value(all, "type"@),
        decreases all.len() - i,
    {
        proof {
            reveal(is_hidden);
            assert(all.skip(i as int)[0] == tag.attributes@[i as int]@);
            assert(all.skip(i as int).drop_first() == all.skip(i + 1));
        }
        if str_eq(tag.attributes[i].name.as_str(), "type") {
            return eq_ignore_ascii_case(tag.attributes[i].value.as_str(), "hidden");
        }
        i = i + 1;
    }
    false
}

/// A copy of a text, empty where there is none.
fn text_or_empty(text: &Option<String>) -> (r: Option<String>)
    ensures
        text_of(r) == or_empty(text_of(*text)),
{
    match text {
        Some(text) => Some(text.clone()),
        None => Some(String::new()),
    }
}

impl TreeBuilder {
    /// Whether some open element must be closed by an end tag.
    pub fn unclosed_elements(&self) -> (r: bool)
        requires
            self.wf(),
        ensures
            r == self@.unclosed_elements(),
    {
        proof {
            reveal(BuilderModel::unclosed_elements);
        }
        let mut i: usize = 0;
        while i < self.open_elements.entries.len()
            invariant
                self.wf(),
                0 <= i <= self@.open_elements.len(),
                forall|j: int|
                    0 <= j < i ==> kind_in_group(
                        self@.document.kind(#[trigger] self@.open_elements[j]),
                        Group::MayStayOpen,
                    ),
            decreases self@.open_elements.len() - i,
        {
            proof {
                reveal(BuilderModel::unclosed_elements);
                reveal(TreeBuilder::wf);
                reveal(BuilderModel::sound);
                assert(self@.document.has(self@.open_elements[i as int]));
            }
            if !node_in_group(&self.document, self.open_elements.entries[i], Group::MayStayOpen) {
                return true;
            }
            i = i + 1;
        }
        false
    }

    /// Inserts a character at the position of the current token.
    pub fn char_here(&mut self, c: char)
        requires
            old(self).wf(),
        ensures
            final(self).wf(),
            final(self)@ == old(self)@.char_here(c),
    {
        let position = Some(self.token_position);
        self.insert_character(c, position);
    }

    /// Inserts a comment at the position of the current token.
    pub fn comment_here(&mut self, data: &String)
        requires
            old(self).wf(),
        ensures
            final(self).wf(),
            final(self)@ == old(self)@.comment_here(data@),
    {
        let position = Some(self.token_position);
        self.insert_comment(data.clone(), position);
    }

    /// Inserts a processing instruction at the position of the current token.
    pub fn instruction_here(&mut self, pi: &ProcessingInstructionToken)
        requires
            old(self).wf(),
        ensures
            final(self).wf(),
            final(self)@ == old(self)@.instruction_here(pi@),
    {
        let position = Some(self.token_position);
        self.insert_processing_instruction(pi.target.clone(), pi.data.clone(), position);
    }

    /// Appends a comment to the document node.
    pub fn comment_to_document(&mut self, data: &String)
        requires
            old(self).wf(),
        ensures
            final(self).wf(),
            final(self)@ == old(self)@.comment_to_document(data@),
    {
        self.append_to_document(NodeKind::Comment { content: data.clone() });
    }

    /// Appends a processing instruction to the document node.
    pub fn instruction_to_document(&mut self, pi: &ProcessingInstructionToken)
        requires
            old(self).wf(),
        ensures
            final(self).wf(),
            final(self)@ == old(self)@.instruction_to_document(pi@),
    {
        self.append_to_document(
            NodeKind::ProcessingInstruction { target: pi.target.clone(), data: pi.data.clone() },
        );
    }

    /// Appends a comment to the `html` element.
    pub fn comment_to_html(&mut self, data: &String)
        requires
            old(self).wf(),
        ensures
            final(self).wf(),
            final(self)@ == old(self)@.comment_to_html(data@),
    {
        self.append_to_html(NodeKind::Comment { content: data.clone() });
    }

    /// Appends a processing instruction to the `html` element.
    pub fn instruction_to_html(&mut self, pi: &ProcessingInstructionToken)
        requires
            old(self).wf(),
        ensures
            final(self).wf(),
            final(self)@ == old(self)@.instruction_to_html(pi@),
    {
        self.append_to_html(
            NodeKind::ProcessingInstruction { target: pi.target.clone(), data: pi.data.clone() },
        );
    }

    /// Whether the document node has a DOCTYPE or an element already.
    fn has_doctype_or_element(&self) -> (r: bool)
        requires
            self.wf(),
        ensures
            r == has_doctype_or_element(self@.document),
    {
        proof {
            reveal(TreeBuilder::wf);
            self.document.lemma_wf();
            assert(self@.document.family(self@.document.root));
        }
        let root = self.document.root();
        let children = self.document.children(root).collect();
        let mut i: usize = 0;
        while i < children.len()
            invariant
                self.document.wf(),
                root == self@.document.root,
                children@ == self@.document.children(root),
                self@.document.family(root),
                0 <= i <= children@.len(),
                forall|j: int|
                    0 <= j < i ==> {
                        let kind = self@.document.kind(
                            #[trigger] self@.document.children(root)[j],
                        );
                        !(kind is Doctype) && !(kind is Element)
                    },
            decreases children@.len() - i,
        {
            assert(self@.document.has(self@.document.children(root)[i as int]));
            if matches!(
                self.document.node(children[i]).kind,
                NodeKind::Doctype { .. } | NodeKind::Element { .. }
            ) {
                return true;
            }
            i = i + 1;
        }
        false
    }

    /// Puts a DOCTYPE into the document, unless it has one or an element.
    pub fn insert_doctype(&mut self, doctype: &DoctypeToken)
        requires
            old(self).wf(),
        ensures
            final(self).wf(),
            final(self)@ == old(self)@.insert_doctype(doctype@),
    {
        proof {
            reveal(BuilderModel::insert_doctype);
        }
        if !self.has_doctype_or_element() {
            self.append_to_document(
                NodeKind::Doctype {
                    name: text_or_empty(&doctype.name),
                    public_identifier: text_or_empty(&doctype.public_identifier),
                    system_identifier: text_or_empty(&doctype.system_identifier),
                },
            );
        }
    }

    /// Inserts a foreign element at the position of the current token.
    pub fn insert_foreign_here(&mut self, tag: &TagToken, namespace: &str)
        requires
            old(self).wf(),
        ensures
            final(self).wf(),
            final(self)@ == old(self)@.insert_foreign_here(tag@, namespace@),
    {
        let position = Some(self.token_position);
        self.insert_foreign_element(tag, namespace, position);
    }

    /// Inserts an element whose contents are text, at the position of the
    /// current token.
    pub fn insert_text_here(&mut self, tag: &TagToken)
        requires
            old(self).wf(),
        ensures
            final(self).wf(),
            final(self)@ == old(self)@.insert_text_here(tag@),
    {
        let position = Some(self.token_position);
        self.insert_html_element(tag, position);
        self.suspend_mode(InsertionMode::Text);
    }

    /// Finds the list item that a new one closes.
    fn find_item_to_close(&self, definition: bool) -> (r: Option<&'static str>)
        requires
            self.wf(),
        ensures
            match r {
                Some(name) => item_to_close(self@.document, self@.open_elements, definition)
                    == Some(name@),
                None => item_to_close(self@.document, self@.open_elements, definition) is None,
            },
    {
        let ghost d = self@.document;
        let ghost stack = self@.open_elements;
        let mut i: usize = self.open_elements.entries.len();
        assert(stack.take(i as int) == stack);
        while i > 0
            invariant
                self.wf(),
                d == self@.document,
                stack == self@.open_elements,
                0 <= i <= stack.len(),
                item_to_close(d, stack.take(i as int), definition) == item_to_close(
                    d,
                    stack,
                    definition,
                ),
            decreases i,
        {
            proof {
                reveal(TreeBuilder::wf);
                reveal(BuilderModel::sound);
                assert(stack.take(i as int).last() == stack[i - 1]);
                assert(stack.take(i as int).drop_last() == stack.take(i - 1));
                assert(d.has(stack[i - 1]));
            }
            i = i - 1;
            let node = self.open_elements.entries[i];
            if !definition && node_is_html(&self.document, node, "li") {
                return Some("li");
            }
            if definition && node_is_html(&self.document, node, "dd") {
                return Some("dd");
            }
            if definition && node_is_html(&self.document, node, "dt") {
                return Some("dt");
            }
            if is_special_node(&self.document, node) && !self.may_surround_item(node) {
                return None;
            }
        }
        None
    }

    /// Whether a node is an `address`, a `div` or a `p`.
    fn may_surround_item(&self, node: NodeId) -> (r: bool)
        requires
            self.wf(),
            self@.document.has(node),
        ensures
            r == (html_name(self@.document.kind(node)) matches Some(name)
                && in_list_item_stop_exceptions(name)),
    {
        proof {
            reveal(TreeBuilder::wf);
        }
        match &self.document.node(node).kind {
            NodeKind::Element { name, namespace, .. } => {
                crate::text::text_is(namespace, HTML_NAMESPACE) && is_list_item_stop_exceptions(
                    name.as_str(),
                )
            },
            _ => false,
        }
    }

    /// Closes the list item that a new one closes.
    pub fn close_list_item(&mut self, definition: bool)
        requires
            old(self).wf(),
        ensures
            final(self).wf(),
            final(self)@ == old(self)@.close_list_item(definition),
    {
        proof {
            reveal(BuilderModel::close_list_item);
        }
        match self.find_item_to_close(definition) {
            Some(name) => {
                self.close_element(name, Some(name));
            },
            None => {},
        }
    }

    /// Finds the first active `a` element after the last marker.
    fn find_active_anchor(&self) -> (r: Option<NodeId>)
        requires
            self.wf(),
        ensures
            r == formatting_named(
                self@.document,
                self@.formatting,
                "a"@,
                after_last_marker(self@.formatting),
            ),
    {
        let start: usize = self.active_formatting_elements.last_marker_end();
        let mut i: usize = start;
        while i < self.active_formatting_elements.entries.len()
            invariant
                self.wf(),
                start == after_last_marker(self@.formatting),
                start <= i <= self@.formatting.len(),
                formatting_named(self@.document, self@.formatting, "a"@, i as int)
                    == formatting_named(self@.document, self@.formatting, "a"@, start as int),
            decreases self@.formatting.len() - i,
        {
            match self.active_formatting_elements.entries[i] {
                FormattingEntry::Element(node) => {
                    proof {
                        reveal(TreeBuilder::wf);
                        reveal(BuilderModel::sound);
                        assert(self@.formatting[i as int] == FormattingEntry::Element(node));
                    }
                    if node_is_html(&self.document, node, "a") {
                        return Some(node);
                    }
                },
                FormattingEntry::Marker => {},
            }
            i = i + 1;
        }
        None
    }

    /// Closes an `a` element that is still active, with an error.
    pub fn close_active_anchor(&mut self, tag: &TagToken)
        requires
            old(self).wf(),
        ensures
            final(self).wf(),
            final(self)@ == old(self)@.close_active_anchor(tag@),
    {
        proof {
            reveal(BuilderModel::close_active_anchor);
        }
        match self.find_active_anchor() {
            Some(node) => {
                self.error(ParseErrorKind::NestedFormattingElement);
                self.adoption_agency_algorithm(tag);
                self.remove_from_formatting(node);
                self.remove_from_stack(node);
            },
            None => {},
        }
    }

    /// Holds back a character until the run it is in has ended.
    pub fn hold_back(&mut self, c: char)
        requires
            old(self).wf(),
        ensures
            final(self).wf(),
            final(self)@ == old(self)@.hold_back(c),
    {
        proof {
            reveal(TreeBuilder::wf);
            reveal(BuilderModel::sound);
        }
        self.pending_table_character_tokens.push((c, self.token_position));
    }

    /// Forgets the characters that were held back.
    pub fn forget_held_back(&mut self)
        requires
            old(self).wf(),
        ensures
            final(self).wf(),
            final(self)@ == old(self)@.forget_held_back(),
    {
        proof {
            reveal(TreeBuilder::wf);
            reveal(BuilderModel::sound);
        }
        self.pending_table_character_tokens = Vec::new();
    }

    /// Sets the position of the current token.
    pub fn at(&mut self, position: Position)
        requires
            old(self).wf(),
        ensures
            final(self).wf(),
            final(self)@ == old(self)@.at(position),
    {
        proof {
            reveal(TreeBuilder::wf);
            reveal(BuilderModel::sound);
        }
        self.token_position = position;
    }
}

} // verus!
