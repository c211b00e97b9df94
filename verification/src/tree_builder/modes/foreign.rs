//! The rules in foreign content, and the choice between them and the rules of
//! the insertion mode.
use vstd::prelude::*;

use crate::document::model::{DocumentModel, NodeId, NodeKind};
use crate::text::{eq_ignore_ascii_case, is_whitespace, same_ignoring_case, str_eq};
use crate::token::{AttributeModel, ParseErrorKind, TagModel, TagToken, TokenKind, TokenKindModel};
use crate::tree_builder::builder::TreeBuilder;
use crate::tree_builder::elements::{
    html_integration_point, html_name, is_element_named, is_html_integration_point,
    is_mathml_text_integration_point, mathml_text_integration_point, node_in_html_namespace,
    node_is, tag_of,
};
use crate::tree_builder::model::{BuilderModel, InsertionMode, TokenOutcome};
use crate::tree_builder::names::{
    in_font_attributes, in_foreign_breakout, is_font_attributes, is_foreign_breakout, svg_tag,
    svg_tag_of, HTML_NAMESPACE, MATHML_NAMESPACE, SVG_NAMESPACE,
};

verus! {

/// Some attribute is one of a `font` element's own.
pub open spec fn has_font_attribute(attributes: Seq<AttributeModel>) -> bool {
    exists|i: int|
        0 <= i < attributes.len() && in_font_attributes((#[trigger] attributes[i]).name)
}

/// A start tag that ends foreign content.
#[verifier::opaque]
pub open spec fn breaks_out(tag: TagModel) -> bool {
    in_foreign_breakout(tag.name) || (tag.name == "font"@ && has_font_attribute(tag.attributes))
}

/// How many entries are left when the foreign elements at the end of the stack
/// are popped, down to an integration point or an HTML element.
pub open spec fn length_without_foreign(d: DocumentModel, stack: Seq<NodeId>) -> int
    decreases stack.len(),
{
    if stack.len() == 0 {
        0
    } else {
        let kind = d.kind(stack.last());
        if mathml_text_integration_point(kind) || html_integration_point(kind) || html_name(
            kind,
        ) is Some {
            stack.len() as int
        } else {
            length_without_foreign(d, stack.drop_last())
        }
    }
}

/// What an end tag in foreign content does.
pub enum ForeignEnd {
    /// Nothing.
    Ignored,
    /// It closes the element at this index, and everything below it.
    Closes(int),
    /// The rules of the insertion mode are to handle it.
    Html,
}

/// What an end tag in foreign content does: it closes the lowest element of its
/// name, in whatever case, unless an HTML element stands below it.
pub open spec fn foreign_end(d: DocumentModel, stack: Seq<NodeId>, name: Seq<char>) -> ForeignEnd
    decreases stack.len(),
{
    if stack.len() <= 1 {
        ForeignEnd::Ignored
    } else if tag_of(d.kind(stack.last())) matches Some(tag) && same_ignoring_case(tag.1, name) {
        ForeignEnd::Closes(stack.len() - 1)
    } else if html_name(d.kind(stack[stack.len() - 2])) is Some {
        ForeignEnd::Html
    } else {
        foreign_end(d, stack.drop_last(), name)
    }
}

impl BuilderModel {
    /// The rules for foreign content are to handle the token.
    #[verifier::opaque]
    pub open spec fn goes_to_foreign_content(self, kind: TokenKindModel) -> bool {
        let current = self.current_kind();
        let as_html = match kind {
            TokenKindModel::StartTag(tag) => {
                ||| mathml_text_integration_point(current) && tag.name != "mglyph"@ && tag.name
                    != "malignmark"@
                ||| is_element_named(current, MATHML_NAMESPACE@, "annotation-xml"@) && tag.name
                    == "svg"@
                ||| html_integration_point(current)
            },
            TokenKindModel::Character(_) => mathml_text_integration_point(current)
                || html_integration_point(current),
            TokenKindModel::Eof => true,
            _ => false,
        };
        self.in_foreign_content() && !as_html
    }

    /// Closes foreign elements, down to an integration point or an HTML element.
    pub open spec fn pop_out_of_foreign_content(self) -> Self {
        self.pop_to(length_without_foreign(self.document, self.open_elements))
    }

    /// The namespace of the current node.
    pub open spec fn current_namespace(self) -> Seq<char> {
        match tag_of(self.current_kind()) {
            Some((Some(namespace), _)) => namespace,
            _ => HTML_NAMESPACE@,
        }
    }

    /// Inserts an element of the current node's namespace.
    #[verifier::opaque]
    pub open spec fn insert_alike_here(self, tag: TagModel) -> Self {
        let namespace = self.current_namespace();
        let tag = match svg_tag(tag.name) {
            Some(name) => if namespace == SVG_NAMESPACE@ {
                TagModel { name, ..tag }
            } else {
                tag
            },
            None => tag,
        };
        let t = self.insert_foreign_here(tag, namespace).acknowledge_self_closing();
        if tag.self_closing {
            t.pop()
        } else {
            t
        }
    }

    /// The rules in foreign content.
    #[verifier::opaque]
    pub open spec fn in_foreign(self, kind: TokenKindModel) -> (Self, TokenOutcome) {
        let done = TokenOutcome::Consumed(None);
        match kind {
            TokenKindModel::Character(c) => if c == '\0' {
                (self.char_here('\u{FFFD}'), done)
            } else if is_whitespace(c) {
                (self.char_here(c), done)
            } else {
                (self.char_here(c).set_frameset_ok(false), done)
            },
            TokenKindModel::Comment(data) => (self.comment_here(data), done),
            TokenKindModel::ProcessingInstruction(pi) => (self.instruction_here(pi), done),
            TokenKindModel::Doctype(_) => (self.error(ParseErrorKind::StrayDoctype), done),
            TokenKindModel::StartTag(tag) => if breaks_out(tag) {
                self.pop_out_of_foreign_content().by_mode(kind)
            } else {
                (self.insert_alike_here(tag), done)
            },
            TokenKindModel::EndTag(tag) => if tag.name == "br"@ || tag.name == "p"@ {
                self.pop_out_of_foreign_content().by_mode(kind)
            } else if tag.name == "script"@ && is_element_named(
                self.current_kind(),
                SVG_NAMESPACE@,
                "script"@,
            ) {
                (self.pop(), done)
            } else {
                match foreign_end(self.document, self.open_elements, tag.name) {
                    ForeignEnd::Ignored => (self, done),
                    ForeignEnd::Closes(i) => (self.pop_to(i), done),
                    ForeignEnd::Html => self.by_mode(kind),
                }
            },
            TokenKindModel::Eof => (self, done),
        }
    }

    /// The rules of the insertion mode.
    #[verifier::opaque]
    pub open spec fn by_mode(self, kind: TokenKindModel) -> (Self, TokenOutcome) {
        match self.insertion_mode {
            InsertionMode::Initial => self.initial(kind),
            InsertionMode::BeforeHtml => self.before_html(kind),
            InsertionMode::BeforeHead => self.before_head(kind),
            InsertionMode::InHead => self.in_head(kind),
            InsertionMode::InHeadNoscript => self.in_head_noscript(kind),
            InsertionMode::AfterHead => self.after_head(kind),
            InsertionMode::InBody => self.in_body(kind),
            InsertionMode::Text => self.text(kind),
            InsertionMode::InTable => self.in_table(kind),
            InsertionMode::InTableText => self.in_table_text(kind),
            InsertionMode::InCaption => self.in_caption(kind),
            InsertionMode::InColumnGroup => self.in_column_group(kind),
            InsertionMode::InTableBody => self.in_table_body(kind),
            InsertionMode::InRow => self.in_row(kind),
            InsertionMode::InCell => self.in_cell(kind),
            InsertionMode::InTemplate => self.in_template(kind),
            InsertionMode::AfterBody => self.after_body(kind),
            InsertionMode::InFrameset => self.in_frameset(kind),
            InsertionMode::AfterFrameset => self.after_frameset(kind),
            InsertionMode::AfterAfterBody => self.after_after_body(kind),
            InsertionMode::AfterAfterFrameset => self.after_after_frameset(kind),
        }
    }

    /// The rules for a token: those for foreign content, or those of the
    /// insertion mode.
    pub open spec fn step(self, kind: TokenKindModel) -> (Self, TokenOutcome) {
        if self.goes_to_foreign_content(kind) {
            self.in_foreign(kind)
        } else {
            self.by_mode(kind)
        }
    }
}

/// Whether some attribute of a tag is one of a `font` element's own.
fn tag_has_font_attribute(tag: &TagToken) -> (r: bool)
    ensures
        r == has_font_attribute(tag@.attributes),
{
    let mut i: usize = 0;
    while i < tag.attributes.len()
        invariant
            0 <= i <= tag.attributes@.len(),
            forall|j: int|
                0 <= j < i ==> !in_font_attributes((#[trigger] tag@.attributes[j]).name),
        decreases tag.attributes@.len() - i,
    {
        assert(tag@.attributes[i as int].name == tag.attributes@[i as int].name@);
        if is_font_attributes(tag.attributes[i].name.as_str()) {
            return true;
        }
        i = i + 1;
    }
    false
}

/// Whether a start tag ends foreign content.
fn tag_breaks_out(tag: &TagToken) -> (r: bool)
    ensures
        r == breaks_out(tag@),
{
    proof {
        reveal(breaks_out);
    }
    is_foreign_breakout(tag.name.as_str()) || (str_eq(tag.name.as_str(), "font")
        && tag_has_font_attribute(tag))
}

impl TreeBuilder {
    /// Whether the rules for foreign content are to handle the token.
    pub fn should_process_as_foreign_content(&self, kind: &TokenKind) -> (r: bool)
        requires
            self.wf(),
        ensures
            r == self@.goes_to_foreign_content(kind@),
    {
        proof {
            reveal(BuilderModel::goes_to_foreign_content);
        }
        if !self.is_in_foreign_content() {
            return false;
        }
        let node = match self.current_node() {
            Some(node) => node,
            None => {
                return false;
            },
        };
        proof {
            reveal(TreeBuilder::wf);
        }
        let document = &self.document;
        match kind {
            TokenKind::StartTag(tag) => {
                let name = tag.name.as_str();
                !((is_mathml_text_integration_point(document, node) && !str_eq(name, "mglyph")
                    && !str_eq(name, "malignmark")) || (node_is(
                    document,
                    node,
                    MATHML_NAMESPACE,
                    "annotation-xml",
                ) && str_eq(name, "svg")) || is_html_integration_point(document, node))
            },
            TokenKind::Character(_) => !(is_mathml_text_integration_point(document, node)
                || is_html_integration_point(document, node)),
            TokenKind::Eof => false,
            _ => true,
        }
    }

    /// Closes foreign elements, down to an integration point or an HTML element.
    fn pop_out_of_foreign_content(&mut self)
        requires
            old(self).wf(),
        ensures
            final(self).wf(),
            final(self)@ == old(self)@.pop_out_of_foreign_content(),
            old(self)@.opens_nothing(final(self)@),
            final(self)@.insertion_mode == old(self)@.insertion_mode,
    {
        let ghost d = self@.document;
        let ghost stack = self@.open_elements;
        let mut i: usize = self.open_elements.entries.len();
        assert(stack.take(i as int) == stack);
        while i > 0 && self.is_foreign_entry(i - 1)
            invariant
                self.wf(),
                self@ == old(self)@,
                d == self@.document,
                stack == self@.open_elements,
                0 <= i <= stack.len(),
                length_without_foreign(d, stack.take(i as int)) == length_without_foreign(
                    d,
                    stack,
                ),
            decreases i,
        {
            proof {
                assert(stack.take(i as int).last() == stack[i - 1]);
                assert(stack.take(i as int).drop_last() == stack.take(i - 1));
            }
            i = i - 1;
        }
        proof {
            if i > 0 {
                assert(stack.take(i as int).last() == stack[i - 1]);
            }
        }
        self.pop_to(i);
    }

    /// Whether an open element is foreign, and no integration point.
    fn is_foreign_entry(&self, i: usize) -> (r: bool)
        requires
            self.wf(),
            i < self@.open_elements.len(),
        ensures
            ({
                let kind = self@.document.kind(self@.open_elements[i as int]);
                r == !(mathml_text_integration_point(kind) || html_integration_point(kind)
                    || html_name(kind) is Some)
            }),
    {
        proof {
            reveal(TreeBuilder::wf);
            reveal(BuilderModel::sound);
            assert(self@.document.has(self@.open_elements[i as int]));
        }
        let node = self.open_elements.entries[i];
        !(is_mathml_text_integration_point(&self.document, node) || is_html_integration_point(
            &self.document,
            node,
        ) || node_in_html_namespace(&self.document, node))
    }

    /// The namespace of the current node.
    fn current_namespace(&self) -> (r: String)
        requires
            self.wf(),
        ensures
            r@ == self@.current_namespace(),
    {
        match self.current_node() {
            Some(node) => {
                proof {
                    reveal(TreeBuilder::wf);
                }
                match &self.document.node(node).kind {
                    NodeKind::Element { namespace: Some(namespace), .. } => namespace.clone(),
                    _ => HTML_NAMESPACE.to_owned(),
                }
            },
            None => HTML_NAMESPACE.to_owned(),
        }
    }

    /// Inserts an element of the current node's namespace.
    fn insert_alike_here(&mut self, tag: &TagToken)
        requires
            old(self).wf(),
        ensures
            final(self).wf(),
            final(self)@ == old(self)@.insert_alike_here(tag@),
    {
        proof {
            reveal(BuilderModel::insert_alike_here);
        }
        let namespace = self.current_namespace();
        let mut adjusted = tag.duplicate();
        if let Some(name) = svg_tag_of(tag.name.as_str()) {
            if str_eq(namespace.as_str(), SVG_NAMESPACE) {
                adjusted = tag.renamed(name);
            }
        }
        self.insert_foreign_here(&adjusted, namespace.as_str());
        self.acknowledge_self_closing();
        if adjusted.self_closing {
            self.pop();
        }
    }

    /// Whether the name of an open element is the given one, in whatever case.
    fn entry_is_called(&self, i: usize, name: &str) -> (r: bool)
        requires
            self.wf(),
            i < self@.open_elements.len(),
        ensures
            r == (tag_of(self@.document.kind(self@.open_elements[i as int])) matches Some(tag)
                && same_ignoring_case(tag.1, name@)),
    {
        proof {
            reveal(TreeBuilder::wf);
            reveal(BuilderModel::sound);
            assert(self@.document.has(self@.open_elements[i as int]));
        }
        match &self.document.node(self.open_elements.entries[i]).kind {
            NodeKind::Element { name: own, .. } => eq_ignore_ascii_case(own.as_str(), name),
            _ => false,
        }
    }

    /// Handles an end tag in foreign content; tells whether the rules of the
    /// insertion mode are to handle it.
    fn close_foreign_element(&mut self, tag: &TagToken) -> (r: bool)
        requires
            old(self).wf(),
        ensures
            final(self).wf(),
            match foreign_end(old(self)@.document, old(self)@.open_elements, tag@.name) {
                ForeignEnd::Ignored => final(self)@ == old(self)@ && !r,
                ForeignEnd::Closes(i) => final(self)@ == old(self)@.pop_to(i) && !r,
                ForeignEnd::Html => final(self)@ == old(self)@ && r,
            },
    {
        let ghost d = self@.document;
        let ghost stack = self@.open_elements;
        let mut i: usize = self.open_elements.entries.len();
        assert(stack.take(i as int) == stack);
        while i > 1
            invariant
                self.wf(),
                self@ == old(self)@,
                d == self@.document,
                stack == self@.open_elements,
                0 <= i <= stack.len(),
                foreign_end(d, stack.take(i as int), tag@.name) == foreign_end(
                    d,
                    stack,
                    tag@.name,
                ),
            decreases i,
        {
            proof {
                reveal(TreeBuilder::wf);
                reveal(BuilderModel::sound);
                assert(stack.take(i as int).last() == stack[i - 1]);
                assert(stack.take(i as int)[i - 2] == stack[i - 2]);
                assert(stack.take(i as int).drop_last() == stack.take(i - 1));
                assert(d.has(stack[i - 2]));
            }
            i = i - 1;
            if self.entry_is_called(i, tag.name.as_str()) {
                self.pop_to(i);
                return false;
            }
            if node_in_html_namespace(&self.document, self.open_elements.entries[i - 1]) {
                return true;
            }
        }
        false
    }

    /// Whether the current node is a `script` element of SVG.
    fn current_node_is_svg_script(&self) -> (r: bool)
        requires
            self.wf(),
        ensures
            r == is_element_named(self@.current_kind(), SVG_NAMESPACE@, "script"@),
    {
        match self.current_node() {
            Some(node) => {
                proof {
                    reveal(TreeBuilder::wf);
                }
                node_is(&self.document, node, SVG_NAMESPACE, "script")
            },
            None => false,
        }
    }

    /// The rules in foreign content.
    pub fn process_token_foreign_content(&mut self, kind: &TokenKind) -> (r: TokenOutcome)
        requires
            old(self).wf(),
        ensures
            final(self).wf(),
            (final(self)@, r) == old(self)@.in_foreign(kind@),
            r is Reprocess ==> old(self)@.advances(final(self)@, kind@),
    {
        proof {
            reveal(BuilderModel::in_foreign);
        }
        match kind {
            TokenKind::Character(c) => {
                let c = *c;
                if c == '\0' {
                    self.char_here('\u{FFFD}');
                } else if is_whitespace(c) {
                    self.char_here(c);
                } else {
                    self.char_here(c);
                    self.set_frameset_ok(false);
                }
            },
            TokenKind::Comment(data) => {
                self.comment_here(data);
            },
            TokenKind::ProcessingInstruction(pi) => {
                self.instruction_here(pi);
            },
            TokenKind::Doctype(_) => {
                self.error(ParseErrorKind::StrayDoctype);
            },
            TokenKind::StartTag(tag) => {
                if tag_breaks_out(tag) {
                    self.pop_out_of_foreign_content();
                    return self.by_mode(kind);
                }
                self.insert_alike_here(tag);
            },
            TokenKind::EndTag(tag) => {
                let name = tag.name.as_str();
                if str_eq(name, "br") || str_eq(name, "p") {
                    self.pop_out_of_foreign_content();
                    return self.by_mode(kind);
                }
                if str_eq(name, "script") && self.current_node_is_svg_script() {
                    self.pop();
                } else if self.close_foreign_element(tag) {
                    return self.by_mode(kind);
                }
            },
            TokenKind::Eof => {},
        }
        TokenOutcome::Consumed(None)
    }

    /// The rules of the insertion mode.
    pub fn by_mode(&mut self, kind: &TokenKind) -> (r: TokenOutcome)
        requires
            old(self).wf(),
        ensures
            final(self).wf(),
            (final(self)@, r) == old(self)@.by_mode(kind@),
            r is Reprocess ==> old(self)@.advances(final(self)@, kind@),
    {
        proof {
            reveal(BuilderModel::by_mode);
        }
        match self.insertion_mode {
            InsertionMode::Initial => self.initial(kind),
            InsertionMode::BeforeHtml => self.before_html(kind),
            InsertionMode::BeforeHead => self.before_head(kind),
            InsertionMode::InHead => self.in_head(kind),
            InsertionMode::InHeadNoscript => self.in_head_noscript(kind),
            InsertionMode::AfterHead => self.after_head(kind),
            InsertionMode::InBody => self.in_body(kind),
            InsertionMode::Text => self.text(kind),
            InsertionMode::InTable => self.in_table(kind),
            InsertionMode::InTableText => self.in_table_text(kind),
            InsertionMode::InCaption => self.in_caption(kind),
            InsertionMode::InColumnGroup => self.in_column_group(kind),
            InsertionMode::InTableBody => self.in_table_body(kind),
            InsertionMode::InRow => self.in_row(kind),
            InsertionMode::InCell => self.in_cell(kind),
            InsertionMode::InTemplate => self.in_template(kind),
            InsertionMode::AfterBody => self.after_body(kind),
            InsertionMode::InFrameset => self.in_frameset(kind),
            InsertionMode::AfterFrameset => self.after_frameset(kind),
            InsertionMode::AfterAfterBody => self.after_after_body(kind),
            InsertionMode::AfterAfterFrameset => self.after_after_frameset(kind),
        }
    }
}

} // verus!
