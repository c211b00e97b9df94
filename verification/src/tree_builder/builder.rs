//! The tree builder: its state, what it can be asked, and the steps that work on
//! its modes, its flags and its stack of open elements.
use vstd::prelude::*;

use crate::document::arena::Document;
use crate::document::model::{empty_document, NodeId};
use crate::token::{ParseError, ParseErrorKind, Position, TokenKind};
use crate::tree_builder::elements::{
    html_name, node_in_group, node_in_html_namespace, node_is_html, tag_of, tags_kept, Group, Scope,
};
use crate::tree_builder::formatting::{lemma_after_last_marker, ActiveFormattingElements};
use crate::tree_builder::model::{
    can_resume, mode_for_stack, mode_of_element, without_node, BuilderModel, InsertionMode,
};
use crate::tree_builder::quirks::QuirksMode;
use crate::tree_builder::select::node_popped;
use crate::tree_builder::soundness::{
    is_table_or_template, lemma_fewer_tables, lemma_sound_push, lemma_sound_take, lemma_sound_with,
    lemma_sound_without, lemma_tables_kept,
};
use crate::tree_builder::stack::{last_named, lemma_last_named, OpenElementsStack};

verus! {

/// Builds a document from tokens.
pub struct TreeBuilder {
    pub document: Document,
    pub open_elements: OpenElementsStack,
    pub active_formatting_elements: ActiveFormattingElements,
    pub foster_parenting: bool,
    pub insertion_mode: InsertionMode,
    pub original_insertion_mode: Option<InsertionMode>,
    pub template_insertion_modes: Vec<InsertionMode>,
    pub quirks_mode: QuirksMode,
    pub head_element_pointer: Option<NodeId>,
    pub form_element_pointer: Option<NodeId>,
    pub frameset_ok: bool,
    pub skip_next_line_feed: bool,
    pub pending_table_character_tokens: Vec<(char, Position)>,
    pub token_position: Position,
    pub self_closing_acknowledged: bool,
    pub errors: Vec<ParseError>,
}

impl View for TreeBuilder {
    type V = BuilderModel;

    open spec fn view(&self) -> BuilderModel {
        BuilderModel {
            document: self.document@,
            open_elements: self.open_elements.entries@,
            formatting: self.active_formatting_elements.entries@,
            foster_parenting: self.foster_parenting,
            insertion_mode: self.insertion_mode,
            original_insertion_mode: self.original_insertion_mode,
            template_insertion_modes: self.template_insertion_modes@,
            quirks_mode: self.quirks_mode,
            head_element_pointer: self.head_element_pointer,
            form_element_pointer: self.form_element_pointer,
            frameset_ok: self.frameset_ok,
            skip_next_line_feed: self.skip_next_line_feed,
            pending_table_character_tokens: self.pending_table_character_tokens@,
            token_position: self.token_position,
            self_closing_acknowledged: self.self_closing_acknowledged,
            errors: self.errors@,
        }
    }
}

/// A builder that has seen no token.
pub open spec fn new_builder() -> BuilderModel {
    BuilderModel {
        document: empty_document(),
        open_elements: Seq::empty(),
        formatting: Seq::empty(),
        foster_parenting: false,
        insertion_mode: InsertionMode::Initial,
        original_insertion_mode: None,
        template_insertion_modes: Seq::empty(),
        quirks_mode: QuirksMode::NoQuirks,
        head_element_pointer: None,
        form_element_pointer: None,
        frameset_ok: true,
        skip_next_line_feed: false,
        pending_table_character_tokens: Seq::empty(),
        token_position: Position { line: 1, column: 1, byte_offset: 0 },
        self_closing_acknowledged: false,
        errors: Seq::empty(),
    }
}

impl TreeBuilder {
    /// The document is a forest, and the lists of the builder name elements of
    /// it.
    #[verifier::opaque]
    pub open spec fn wf(&self) -> bool {
        &&& self.document.wf()
        &&& self@.sound()
    }

    /// A builder that has seen no token.
    pub fn new() -> (r: Self)
        ensures
            r.wf(),
            r@ == new_builder(),
    {
        let builder = TreeBuilder {
            document: Document::new(),
            open_elements: OpenElementsStack::new(),
            active_formatting_elements: ActiveFormattingElements::new(),
            foster_parenting: false,
            insertion_mode: InsertionMode::Initial,
            original_insertion_mode: None,
            template_insertion_modes: Vec::new(),
            quirks_mode: QuirksMode::NoQuirks,
            head_element_pointer: None,
            form_element_pointer: None,
            frameset_ok: true,
            skip_next_line_feed: false,
            pending_table_character_tokens: Vec::new(),
            token_position: Position { line: 1, column: 1, byte_offset: 0 },
            self_closing_acknowledged: false,
            errors: Vec::new(),
        };
        proof {
            reveal(TreeBuilder::wf);
            reveal(BuilderModel::sound);
        }
        builder
    }

    // ---- Questions ----

    /// The current node.
    pub fn current_node(&self) -> (r: Option<NodeId>)
        requires
            self.wf(),
        ensures
            r == self@.current_node(),
            r matches Some(node) ==> self@.document.has(node) && tag_of(
                self@.document.kind(node),
            ) is Some,
    {
        proof {
            reveal(TreeBuilder::wf);
            reveal(BuilderModel::sound);
        }
        assert(self.open_elements.entries@.len() > 0 ==> self@.document.has(
            self.open_elements.entries@[self.open_elements.entries@.len() - 1],
        ));
        self.open_elements.current_node()
    }

    /// Whether the current node is an HTML element of that name.
    pub fn current_is(&self, name: &str) -> (r: bool)
        requires
            self.wf(),
        ensures
            r == self@.current_is(name@),
    {
        proof {
            reveal(TreeBuilder::wf);
            reveal(BuilderModel::sound);
        }
        match self.current_node() {
            Some(node) => node_is_html(&self.document, node, name),
            None => false,
        }
    }

    /// Whether the current node is an HTML element of the group.
    pub fn current_in(&self, group: Group) -> (r: bool)
        requires
            self.wf(),
        ensures
            r == self@.current_in(group),
    {
        proof {
            reveal(TreeBuilder::wf);
            reveal(BuilderModel::sound);
        }
        match self.current_node() {
            Some(node) => node_in_group(&self.document, node, group),
            None => false,
        }
    }

    /// Whether an element of that name is in the given scope.
    pub fn in_specific_scope(&self, name: &str, scope: Scope) -> (r: bool)
        requires
            self.wf(),
        ensures
            r == self@.in_specific_scope(name@, scope),
    {
        proof {
            reveal(TreeBuilder::wf);
            reveal(BuilderModel::sound);
        }
        self.open_elements.has_element_in_specific_scope(&self.document, name, scope)
    }

    /// Whether an element of the group is in the given scope.
    pub fn group_in_specific_scope(&self, group: Group, scope: Scope) -> (r: bool)
        requires
            self.wf(),
        ensures
            r == self@.group_in_specific_scope(group, scope),
    {
        proof {
            reveal(TreeBuilder::wf);
            reveal(BuilderModel::sound);
        }
        self.open_elements.has_group_in_scope(&self.document, group, scope)
    }

    /// Whether a template element is open.
    pub fn has_template(&self) -> (r: bool)
        requires
            self.wf(),
        ensures
            r == self@.has_template(),
    {
        proof {
            reveal(TreeBuilder::wf);
            reveal(BuilderModel::sound);
        }
        match self.open_elements.last_matching(&self.document, "template") {
            Some(_) => true,
            None => false,
        }
    }

    /// Whether the `form` element pointer points to an element in scope.
    pub fn form_in_scope(&self) -> (r: bool)
        requires
            self.wf(),
        ensures
            r == self@.form_in_scope(),
    {
        proof {
            reveal(TreeBuilder::wf);
            reveal(BuilderModel::sound);
        }
        match self.form_element_pointer {
            Some(node) => self.open_elements.has_node_in_scope(&self.document, node),
            None => false,
        }
    }

    /// Whether the `form` element pointer points to the current node.
    pub fn form_is_current(&self) -> (r: bool)
        requires
            self.wf(),
        ensures
            r == self@.form_is_current(),
    {
        proof {
            reveal(TreeBuilder::wf);
            reveal(BuilderModel::sound);
        }
        match (self.form_element_pointer, self.open_elements.current_node()) {
            (Some(form), Some(node)) => form == node,
            _ => false,
        }
    }

    /// Whether the second open element is a `body`.
    pub fn second_is_body(&self) -> (r: bool)
        requires
            self.wf(),
        ensures
            r == self@.second_is_body(),
    {
        proof {
            reveal(TreeBuilder::wf);
            reveal(BuilderModel::sound);
        }
        if self.open_elements.entries.len() > 1 {
            assert(self@.document.has(self.open_elements.entries@[1]));
            node_is_html(&self.document, self.open_elements.entries[1], "body")
        } else {
            false
        }
    }

    /// Whether the second open element was not written in the source.
    pub fn second_is_implied(&self) -> (r: bool)
        requires
            self.wf(),
        ensures
            r == self@.second_is_implied(),
    {
        proof {
            reveal(TreeBuilder::wf);
            reveal(BuilderModel::sound);
        }
        if self.open_elements.entries.len() > 1 {
            let second = self.open_elements.entries[1];
            assert(self@.open_elements[1] == second);
            self.document.node(second).position.is_none()
        } else {
            false
        }
    }

    /// Whether the token is a line feed that the start tag just before it makes
    /// disappear.
    pub fn drops_line_feed(&self, kind: &TokenKind) -> (r: bool)
        requires
            self.wf(),
        ensures
            r == self@.drops_line_feed(kind@),
    {
        match kind {
            TokenKind::Character(c) => self.skip_next_line_feed && *c == '\n',
            _ => false,
        }
    }

    /// Whether the current node is an element outside the HTML namespace.
    pub fn is_in_foreign_content(&self) -> (r: bool)
        requires
            self.wf(),
        ensures
            r == self@.in_foreign_content(),
    {
        proof {
            reveal(TreeBuilder::wf);
            reveal(BuilderModel::sound);
        }
        match self.current_node() {
            Some(node) => !node_in_html_namespace(&self.document, node),
            None => false,
        }
    }

    // ---- Errors, modes and flags ----

    /// Notes an error at the position of the current token.
    pub fn error(&mut self, kind: ParseErrorKind)
        requires
            old(self).wf(),
        ensures
            final(self).wf(),
            final(self)@ == old(self)@.error(kind),
    {
        proof {
            reveal(TreeBuilder::wf);
            reveal(BuilderModel::sound);
        }
        self.errors.push(ParseError { kind, position: self.token_position });
    }

    /// Notes an error.
    pub fn error_at(&mut self, kind: ParseErrorKind, position: Position)
        requires
            old(self).wf(),
        ensures
            final(self).wf(),
            final(self)@ == old(self)@.error_at(kind, position),
    {
        proof {
            reveal(TreeBuilder::wf);
            reveal(BuilderModel::sound);
        }
        self.errors.push(ParseError { kind, position });
    }

    /// Goes to another insertion mode.
    pub fn set_mode(&mut self, mode: InsertionMode)
        requires
            old(self).wf(),
        ensures
            final(self).wf(),
            final(self)@ == old(self)@.set_mode(mode),
    {
        proof {
            reveal(TreeBuilder::wf);
            reveal(BuilderModel::sound);
        }
        self.insertion_mode = mode;
    }

    /// Remembers the insertion mode, and goes to another.
    pub fn suspend_mode(&mut self, mode: InsertionMode)
        requires
            old(self).wf(),
        ensures
            final(self).wf(),
            final(self)@ == old(self)@.suspend_mode(mode),
    {
        proof {
            reveal(TreeBuilder::wf);
            reveal(BuilderModel::sound);
        }
        self.original_insertion_mode = Some(self.insertion_mode);
        self.insertion_mode = mode;
    }

    /// Goes back to the insertion mode that was remembered.
    pub fn resume_mode(&mut self)
        requires
            old(self).wf(),
        ensures
            final(self).wf(),
            final(self)@ == old(self)@.resume_mode(),
    {
        proof {
            reveal(TreeBuilder::wf);
            reveal(BuilderModel::sound);
        }
        self.insertion_mode = match self.original_insertion_mode {
            Some(mode) => if matches!(mode, InsertionMode::Text | InsertionMode::InTableText) {
                InsertionMode::InBody
            } else {
                mode
            },
            None => InsertionMode::InBody,
        };
        self.original_insertion_mode = None;
    }

    /// Sets whether a `frameset` may still replace the `body`.
    pub fn set_frameset_ok(&mut self, value: bool)
        requires
            old(self).wf(),
        ensures
            final(self).wf(),
            final(self)@ == old(self)@.set_frameset_ok(value),
    {
        proof {
            reveal(TreeBuilder::wf);
            reveal(BuilderModel::sound);
        }
        self.frameset_ok = value;
    }

    /// Sets whether a line feed that comes next is dropped.
    pub fn set_skip_next_line_feed(&mut self, value: bool)
        requires
            old(self).wf(),
        ensures
            final(self).wf(),
            final(self)@ == old(self)@.set_skip_next_line_feed(value),
    {
        proof {
            reveal(TreeBuilder::wf);
            reveal(BuilderModel::sound);
        }
        self.skip_next_line_feed = value;
    }

    /// Sets whether nodes are kept out of tables.
    pub fn set_foster_parenting(&mut self, value: bool)
        requires
            old(self).wf(),
        ensures
            final(self).wf(),
            final(self)@ == old(self)@.set_foster_parenting(value),
    {
        proof {
            reveal(TreeBuilder::wf);
            reveal(BuilderModel::sound);
        }
        self.foster_parenting = value;
    }

    /// Sets the quirks mode.
    pub fn set_quirks_mode(&mut self, mode: QuirksMode)
        requires
            old(self).wf(),
        ensures
            final(self).wf(),
            final(self)@ == old(self)@.set_quirks_mode(mode),
    {
        proof {
            reveal(TreeBuilder::wf);
            reveal(BuilderModel::sound);
        }
        self.quirks_mode = mode;
    }

    /// Notes that the self-closing flag of the tag is in order.
    pub fn acknowledge_self_closing(&mut self)
        requires
            old(self).wf(),
        ensures
            final(self).wf(),
            final(self)@ == old(self)@.acknowledge_self_closing(),
    {
        proof {
            reveal(TreeBuilder::wf);
            reveal(BuilderModel::sound);
        }
        self.self_closing_acknowledged = true;
    }

    /// Enters a template insertion mode.
    pub fn push_template_mode(&mut self, mode: InsertionMode)
        requires
            old(self).wf(),
            can_resume(mode),
        ensures
            final(self).wf(),
            final(self)@ == old(self)@.push_template_mode(mode),
    {
        proof {
            reveal(TreeBuilder::wf);
            reveal(BuilderModel::sound);
        }
        self.template_insertion_modes.push(mode);
    }

    /// Leaves the innermost template insertion mode.
    pub fn pop_template_mode(&mut self)
        requires
            old(self).wf(),
        ensures
            final(self).wf(),
            final(self)@ == old(self)@.pop_template_mode(),
    {
        proof {
            reveal(TreeBuilder::wf);
            reveal(BuilderModel::sound);
        }
        self.template_insertion_modes.pop();
    }

    /// Makes the current node the `head` element.
    pub fn remember_head(&mut self)
        requires
            old(self).wf(),
        ensures
            final(self).wf(),
            final(self)@ == old(self)@.remember_head(),
    {
        proof {
            reveal(TreeBuilder::wf);
            reveal(BuilderModel::sound);
        }
        self.head_element_pointer = self.current_node();
    }

    /// Makes the current node the `form` element.
    pub fn remember_form(&mut self)
        requires
            old(self).wf(),
        ensures
            final(self).wf(),
            final(self)@ == old(self)@.remember_form(),
    {
        proof {
            reveal(TreeBuilder::wf);
            reveal(BuilderModel::sound);
        }
        self.form_element_pointer = self.current_node();
    }

    /// Forgets the `form` element.
    pub fn forget_form(&mut self)
        requires
            old(self).wf(),
        ensures
            final(self).wf(),
            final(self)@ == old(self)@.forget_form(),
    {
        proof {
            reveal(TreeBuilder::wf);
            reveal(BuilderModel::sound);
        }
        self.form_element_pointer = None;
    }

    /// Adds a marker to the list of active formatting elements.
    pub fn push_marker(&mut self)
        requires
            old(self).wf(),
        ensures
            final(self).wf(),
            final(self)@ == old(self)@.push_marker(),
    {
        proof {
            reveal(TreeBuilder::wf);
            reveal(BuilderModel::sound);
        }
        let ghost entries = self.active_formatting_elements.entries@;
        self.active_formatting_elements.push_marker();
        assert forall|i: int|
            0 <= i < entries.len() implies self.active_formatting_elements.entries@[i]
            == #[trigger] entries[i] by {}
    }

    /// Clears the list of active formatting elements up to the last marker.
    pub fn clear_to_marker(&mut self)
        requires
            old(self).wf(),
        ensures
            final(self).wf(),
            final(self)@ == old(self)@.clear_to_marker(),
    {
        proof {
            reveal(TreeBuilder::wf);
            reveal(BuilderModel::sound);
        }
        proof {
            lemma_after_last_marker(self.active_formatting_elements.entries@);
        }
        let ghost entries = self.active_formatting_elements.entries@;
        self.active_formatting_elements.clear_up_to_last_marker();
        assert forall|i: int|
            0 <= i < self.active_formatting_elements.entries@.len() implies
            #[trigger] self.active_formatting_elements.entries@[i] == entries[i] by {}
    }

    /// The innermost template insertion mode.
    fn template_mode(&self) -> (r: InsertionMode)
        ensures
            r == self@.template_mode(),
    {
        if self.template_insertion_modes.len() == 0 {
            InsertionMode::InBody
        } else {
            self.template_insertion_modes[self.template_insertion_modes.len() - 1]
        }
    }

    /// Sets the insertion mode to what the stack of open elements calls for.
    pub fn reset_mode(&mut self)
        requires
            old(self).wf(),
        ensures
            final(self).wf(),
            final(self)@ == old(self)@.reset_mode(),
            can_resume(final(self)@.insertion_mode),
    {
        proof {
            reveal(TreeBuilder::wf);
            reveal(BuilderModel::sound);
        }
        let template_mode = self.template_mode();
        assert(can_resume(template_mode)) by {
            if self@.template_insertion_modes.len() > 0 {
                assert(can_resume(
                    self@.template_insertion_modes[self@.template_insertion_modes.len() - 1],
                ));
            }
        }
        let head_seen = match self.head_element_pointer {
            Some(_) => true,
            None => false,
        };
        let ghost d = self.document@;
        let ghost stack = self.open_elements.entries@;
        let mut i: usize = self.open_elements.entries.len();
        assert(stack.take(i as int) == stack);
        while i > 0
            invariant
                self.wf(),
                self@ == old(self)@,
                d == self.document@,
                stack == self.open_elements.entries@,
                template_mode == self@.template_mode(),
                can_resume(template_mode),
                head_seen == (self.head_element_pointer is Some),
                0 <= i <= stack.len(),
                mode_for_stack(d, stack.take(i as int), template_mode, head_seen)
                    == mode_for_stack(d, stack, template_mode, head_seen),
            decreases i,
        {
            proof {
                reveal(TreeBuilder::wf);
                reveal(BuilderModel::sound);
                assert(stack.take(i as int).last() == stack[i - 1]);
                assert(stack.take(i as int).drop_last() == stack.take(i - 1));
                assert(d.has(stack[i - 1]));
            }
            i = i - 1;
            match self.mode_called_for(
                self.open_elements.entries[i],
                i == 0,
                template_mode,
                head_seen,
            ) {
                Some(mode) => {
                    self.insertion_mode = mode;
                    return;
                },
                None => {},
            }
        }
        proof {
            reveal(TreeBuilder::wf);
            reveal(BuilderModel::sound);
        }
        self.insertion_mode = InsertionMode::InBody;
    }

    /// The insertion mode that an open element calls for, if any.
    fn mode_called_for(
        &self,
        node: NodeId,
        last: bool,
        template_mode: InsertionMode,
        head_seen: bool,
    ) -> (r: Option<InsertionMode>)
        requires
            self.wf(),
            self@.document.has(node),
        ensures
            r == match html_name(self@.document.kind(node)) {
                Some(name) => mode_of_element(name, last, template_mode, head_seen),
                None => None,
            },
    {
        proof {
            reveal(TreeBuilder::wf);
        }
        let document = &self.document;
        if !last && (node_is_html(document, node, "td") || node_is_html(document, node, "th")) {
            Some(InsertionMode::InCell)
        } else if node_is_html(document, node, "tr") {
            Some(InsertionMode::InRow)
        } else if node_is_html(document, node, "tbody") || node_is_html(document, node, "thead")
            || node_is_html(document, node, "tfoot") {
            Some(InsertionMode::InTableBody)
        } else if node_is_html(document, node, "caption") {
            Some(InsertionMode::InCaption)
        } else if node_is_html(document, node, "colgroup") {
            Some(InsertionMode::InColumnGroup)
        } else if node_is_html(document, node, "table") {
            Some(InsertionMode::InTable)
        } else if node_is_html(document, node, "template") {
            Some(template_mode)
        } else if !last && node_is_html(document, node, "head") {
            Some(InsertionMode::InHead)
        } else if node_is_html(document, node, "body") {
            Some(InsertionMode::InBody)
        } else if node_is_html(document, node, "frameset") {
            Some(InsertionMode::InFrameset)
        } else if node_is_html(document, node, "html") {
            if head_seen {
                Some(InsertionMode::AfterHead)
            } else {
                Some(InsertionMode::BeforeHead)
            }
        } else {
            None
        }
    }

    // ---- The stack of open elements ----

    /// Pops the current node.
    pub fn pop(&mut self)
        requires
            old(self).wf(),
        ensures
            final(self).wf(),
            final(self)@ == old(self)@.pop(),
            old(self)@.opens_nothing(final(self)@),
            tags_kept(old(self)@.document, final(self)@.document),
            final(self)@.insertion_mode == old(self)@.insertion_mode,
    {
        proof {
            reveal(TreeBuilder::wf);
            reveal(BuilderModel::sound);
        }
        let ghost before = self@;
        match self.open_elements.pop() {
            Some(node) => {
                proof {
                    let n = before.open_elements.len() - 1;
                    assert(before.document.has(before.open_elements[n]));
                    assert(before.open_elements.take(n) == before.open_elements.drop_last());
                    lemma_sound_take(before, n);
                    lemma_fewer_tables(before.document, before.open_elements, n);
                }
                let ghost middle = self@;
                node_popped(&mut self.document, node);
                proof {
                    lemma_sound_with(middle, self.document@);
                }
            },
            None => {},
        }
    }

    /// Pops nodes until `n` are left.
    pub fn pop_to(&mut self, n: usize)
        requires
            old(self).wf(),
        ensures
            final(self).wf(),
            final(self)@ == old(self)@.pop_to(n as int),
            old(self)@.opens_nothing(final(self)@),
            tags_kept(old(self)@.document, final(self)@.document),
            final(self)@.insertion_mode == old(self)@.insertion_mode,
            final(self)@.open_elements == old(self)@.open_elements.take(
                if n < old(self)@.open_elements.len() {
                    n as int
                } else {
                    old(self)@.open_elements.len() as int
                },
            ),
    {
        let ghost start = self@;
        proof {
            reveal(BuilderModel::pop_to);
            assert(start.open_elements.take(start.open_elements.len() as int)
                == start.open_elements);
        }
        while self.open_elements.entries.len() > n
            invariant
                self.wf(),
                self@.pop_to(n as int) == start.pop_to(n as int),
                start.opens_nothing(self@),
                tags_kept(start.document, self@.document),
                self@.insertion_mode == start.insertion_mode,
                self@.open_elements == start.open_elements.take(
                    self@.open_elements.len() as int,
                ),
                n < start.open_elements.len() ==> n <= self@.open_elements.len(),
                n >= start.open_elements.len() ==> self@.open_elements == start.open_elements,
            decreases self@.open_elements.len(),
        {
            proof {
                reveal(BuilderModel::pop_to);
            }
            let ghost before = self@;
            self.pop();
            proof {
                crate::tree_builder::elements::lemma_tags_kept_twice(
                    start.document,
                    before.document,
                    self@.document,
                );
                assert(start.open_elements.take(before.open_elements.len() as int).drop_last()
                    == start.open_elements.take(self@.open_elements.len() as int));
            }
        }
    }

    /// Pops nodes until an HTML element of that name was popped.
    pub fn pop_until(&mut self, name: &str)
        requires
            old(self).wf(),
        ensures
            final(self).wf(),
            final(self)@ == old(self)@.pop_until(name@),
            old(self)@.opens_nothing(final(self)@),
            (name@ == "table"@ || name@ == "template"@) && last_named(
                old(self)@.document,
                old(self)@.open_elements,
                name@,
            ) is Some ==> final(self)@.open_tables() < old(self)@.open_tables(),
    {
        proof {
            reveal(TreeBuilder::wf);
            reveal(BuilderModel::sound);
        }
        match self.open_elements.last_matching(&self.document, name) {
            Some(i) => {
                proof {
                    lemma_last_named(self@.document, self@.open_elements, name@);
                    lemma_fewer_tables(self@.document, self@.open_elements, i as int);
                }
                self.pop_to(i);
                proof {
                    lemma_popped_tables(*old(self), *self, i as int);
                }
            },
            None => {
                self.pop_to(0);
            },
        }
    }

    /// Pops nodes until an HTML element of the group was popped.
    pub fn pop_until_one_of(&mut self, group: Group)
        requires
            old(self).wf(),
        ensures
            final(self).wf(),
            final(self)@ == old(self)@.pop_until_one_of(group),
            old(self)@.opens_nothing(final(self)@),
    {
        proof {
            reveal(TreeBuilder::wf);
            reveal(BuilderModel::sound);
        }
        match self.open_elements.last_of_group(&self.document, group) {
            Some(i) => {
                self.pop_to(i);
            },
            None => {
                self.pop_to(0);
            },
        }
    }

    /// Pops nodes until the current node is an HTML element of the group.
    pub fn clear_back_to(&mut self, group: Group)
        requires
            old(self).wf(),
        ensures
            final(self).wf(),
            final(self)@ == old(self)@.clear_back_to(group),
            old(self)@.opens_nothing(final(self)@),
    {
        proof {
            reveal(TreeBuilder::wf);
            reveal(BuilderModel::sound);
        }
        match self.open_elements.last_of_group(&self.document, group) {
            Some(i) => {
                let length: usize = self.open_elements.entries.len();
                assert(i < length);
                self.pop_to(i + 1);
            },
            None => {
                self.pop_to(0);
            },
        }
    }

    /// Pops the elements whose end tags are implied; one called `exclude` stays.
    pub fn generate_implied_end_tags(&mut self, exclude: Option<&str>)
        requires
            old(self).wf(),
        ensures
            final(self).wf(),
            final(self)@ == old(self)@.generate_implied_end_tags(
                match exclude {
                    Some(name) => Some(name@),
                    None => None,
                },
            ),
            old(self)@.opens_nothing(final(self)@),
    {
        proof {
            reveal(TreeBuilder::wf);
            reveal(BuilderModel::sound);
        }
        let length: usize = self.open_elements.implied_end_tags_length(
            &self.document,
            Group::ImpliedEndTags,
            exclude,
        );
        self.pop_to(length);
    }

    /// Pops the elements whose end tags are implied at the end of a template.
    pub fn generate_implied_end_tags_thoroughly(&mut self)
        requires
            old(self).wf(),
        ensures
            final(self).wf(),
            final(self)@ == old(self)@.generate_implied_end_tags_thoroughly(),
            old(self)@.opens_nothing(final(self)@),
    {
        proof {
            reveal(TreeBuilder::wf);
            reveal(BuilderModel::sound);
        }
        let length: usize = self.open_elements.implied_end_tags_length(
            &self.document,
            Group::ImpliedEndTagsThoroughly,
            None,
        );
        self.pop_to(length);
    }

    /// Closes everything up to an element of that name, with an error if more
    /// than implied end tags is missing; an element called `exclude` is not
    /// closed by an implied end tag.
    pub fn close_element(&mut self, name: &str, exclude: Option<&str>)
        requires
            old(self).wf(),
        ensures
            final(self).wf(),
            final(self)@ == old(self)@.close_element(
                name@,
                match exclude {
                    Some(name) => Some(name@),
                    None => None,
                },
            ),
            old(self)@.opens_nothing(final(self)@),
    {
        proof {
            reveal(BuilderModel::close_element);
        }
        self.generate_implied_end_tags(exclude);
        if !self.current_is(name) {
            self.error(ParseErrorKind::ImpliedEndTagWithUnclosedElements);
        }
        self.pop_until(name);
    }

    /// Opens the `head` element again.
    pub fn push_head(&mut self)
        requires
            old(self).wf(),
        ensures
            final(self).wf(),
            final(self)@ == old(self)@.push_head(),
    {
        proof {
            reveal(TreeBuilder::wf);
            reveal(BuilderModel::sound);
        }
        match self.head_element_pointer {
            Some(head) => {
                proof {
                    lemma_sound_push(self@, head);
                }
                self.open_elements.push(head);
            },
            None => {},
        }
    }

    /// Takes an element off the stack, wherever it stands.
    pub fn remove_from_stack(&mut self, node: NodeId)
        requires
            old(self).wf(),
        ensures
            final(self).wf(),
            final(self)@ == (BuilderModel {
                open_elements: without_node(old(self)@.open_elements, node),
                ..old(self)@
            }),
    {
        proof {
            reveal(TreeBuilder::wf);
            reveal(BuilderModel::sound);
        }
        match self.open_elements.index_of(node) {
            Some(i) => {
                proof {
                    lemma_sound_without(self@, i as int);
                }
                self.open_elements.entries.remove(i);
            },
            None => {},
        }
    }

    /// Takes the `head` element off the stack, wherever it stands.
    pub fn remove_head(&mut self)
        requires
            old(self).wf(),
        ensures
            final(self).wf(),
            final(self)@ == old(self)@.remove_head(),
    {
        match self.head_element_pointer {
            Some(head) => self.remove_from_stack(head),
            None => {},
        }
    }

    /// Takes the `form` element off the stack, wherever it stands.
    pub fn remove_form(&mut self)
        requires
            old(self).wf(),
        ensures
            final(self).wf(),
            final(self)@ == old(self)@.remove_form(),
    {
        match self.form_element_pointer {
            Some(form) => self.remove_from_stack(form),
            None => {},
        }
    }
}

/// Popping a `table` or a `template` leaves fewer of them open.
proof fn lemma_popped_tables(before: TreeBuilder, after: TreeBuilder, n: int)
    requires
        before.wf(),
        0 <= n < before@.open_elements.len(),
        tags_kept(before@.document, after@.document),
        after@.open_elements == before@.open_elements.take(n),
    ensures
        is_table_or_template(before@.document.kind(before@.open_elements[n]))
            ==> after@.open_tables() < before@.open_tables(),
{
    reveal(TreeBuilder::wf);
    lemma_sound_take(before@, n);
    reveal(BuilderModel::sound);
    lemma_tables_kept(before@.document, after@.document, after@.open_elements);
    lemma_fewer_tables(before@.document, before@.open_elements, n);
}

} // verus!
