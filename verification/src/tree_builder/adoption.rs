//! Closing formatting elements that are not properly nested: the adoption
//! agency algorithm, and the end tags that have no rule of their own.
use vstd::prelude::*;

use crate::document::laws::{lemma_ancestor_step, lemma_insert_before, lemma_remove};
use crate::document::model::{ranked, DocumentModel, NodeId, NodeKind};
use crate::text::str_eq;
use crate::token::{ParseErrorKind, TagModel, TagToken};
use crate::tree_builder::builder::TreeBuilder;
use crate::tree_builder::elements::{
    html_name, is_special_node, lemma_insert_keeps_tags, lemma_remove_keeps_tags,
    lemma_tags_kept_twice, node_is_html, special_kind, tag_of, tags_kept,
};
use crate::tree_builder::formatting::FormattingEntry;
use crate::tree_builder::model::{
    formatting_index_from, tag_for, without_formatting, without_node, BuilderModel,
    InsertionLocation,
};
use crate::tree_builder::names::HTML_NAMESPACE;
use crate::tree_builder::soundness::{
    lemma_no_new_ancestor, lemma_sound_with, lemma_sound_with_formatting, lemma_sound_with_node,
    lemma_sound_without, lemma_sound_without_formatting,
};
use crate::tree_builder::stack::{index_from, is_called, node_in_scope, special_after};

verus! {

/// The index of the element that an end tag closes: the lowest of that name,
/// unless a special element stands below it.
pub open spec fn closed_by_end_tag(
    d: DocumentModel,
    stack: Seq<NodeId>,
    name: Seq<char>,
) -> Option<int>
    decreases stack.len(),
{
    if stack.len() == 0 {
        None
    } else if html_name(d.kind(stack.last())) == Some(name) {
        Some(stack.len() - 1)
    } else if special_kind(d.kind(stack.last())) {
        None
    } else {
        closed_by_end_tag(d, stack.drop_last(), name)
    }
}

/// The last active formatting element of that name after the last marker.
pub open spec fn last_formatting_named(
    d: DocumentModel,
    entries: Seq<FormattingEntry>,
    name: Seq<char>,
) -> Option<NodeId>
    decreases entries.len(),
{
    if entries.len() == 0 {
        None
    } else {
        match entries.last() {
            FormattingEntry::Marker => None,
            FormattingEntry::Element(node) => if is_called(d, node, Some(name)) {
                Some(node)
            } else {
                last_formatting_named(d, entries.drop_last(), name)
            },
        }
    }
}

/// Some child of the node is an element.
pub open spec fn has_element_child(d: DocumentModel, node: NodeId) -> bool {
    exists|i: int|
        0 <= i < d.children(node).len() && d.kind(#[trigger] d.children(node)[i]) is Element
}

/// The document with the given nodes appended to `parent`, one after the other.
pub open spec fn appended_all(
    d: DocumentModel,
    ids: Seq<NodeId>,
    parent: NodeId,
) -> DocumentModel
    decreases ids.len(),
{
    if ids.len() == 0 {
        d
    } else {
        appended_all(d.append_child(parent, ids[0]), ids.drop_first(), parent)
    }
}

impl BuilderModel {
    /// What an end tag without a rule of its own does.
    #[verifier::opaque]
    pub open spec fn any_other_end_tag(self, tag: TagModel) -> Self {
        match closed_by_end_tag(self.document, self.open_elements, tag.name) {
            None => self.error(ParseErrorKind::StrayEndTag),
            Some(i) => {
                let t = self.generate_implied_end_tags(Some(tag.name));
                let t = if t.open_elements.len() == i + 1 {
                    t
                } else {
                    t.error(ParseErrorKind::ImpliedEndTagWithUnclosedElements)
                };
                t.pop_to(i)
            },
        }
    }

    /// The walk up the stack, from index `i` to the formatting element at index
    /// `top`: every element on the way that is an active formatting element is
    /// replaced by a copy that takes what was below it, every other leaves the
    /// stack. From the fourth step on no element stays active. Also tells the
    /// topmost copy, and the place in the list of active formatting elements for
    /// what replaces the formatting element.
    pub open spec fn adopt_up(
        self,
        top: int,
        i: int,
        block: NodeId,
        last: NodeId,
        bookmark: int,
        steps: int,
    ) -> (Self, NodeId, int)
        decreases i - top,
    {
        if i <= top {
            (self, last, bookmark)
        } else {
            let node = self.open_elements[i];
            let active = formatting_index_from(self.formatting, node, 0);
            let t = if steps >= 3 {
                BuilderModel { formatting: without_formatting(self.formatting, node), ..self }
            } else {
                self
            };
            let bookmark = match active {
                Some(k) => if steps >= 3 && k < bookmark {
                    bookmark - 1
                } else {
                    bookmark
                },
                None => bookmark,
            };
            match formatting_index_from(t.formatting, node, 0) {
                None => BuilderModel { open_elements: t.open_elements.remove(i), ..t }.adopt_up(
                    top,
                    i - 1,
                    block,
                    last,
                    bookmark,
                    steps + 1,
                ),
                Some(k) => {
                    let copy = t.document.next_id();
                    let u = t.create_element(
                        tag_for(t.document.kind(node)),
                        HTML_NAMESPACE@,
                        None,
                    );
                    BuilderModel {
                        document: u.document.append_child(copy, last),
                        formatting: u.formatting.update(k, FormattingEntry::Element(copy)),
                        open_elements: u.open_elements.update(i, copy),
                        ..u
                    }.adopt_up(
                        top,
                        i - 1,
                        block,
                        copy,
                        if last == block {
                            k + 1
                        } else {
                            bookmark
                        },
                        steps + 1,
                    )
                },
            }
        }
    }

    /// Moves a node to a place, where the document allows it; otherwise the node
    /// is only detached.
    pub open spec fn replant(self, node: NodeId, location: InsertionLocation) -> Self {
        let d = self.document.remove(node);
        let fits = {
            &&& !d.is_inclusive_ancestor(node, location.parent)
            &&& !(d.kind(location.parent) is Document && has_element_child(d, location.parent))
            &&& match location.before {
                Some(before) => d.parent(before) == Some(location.parent),
                None => true,
            }
        };
        BuilderModel {
            document: if fits {
                d.insert_before(location.parent, location.before, node)
            } else {
                d
            },
            ..self
        }
    }

    /// Puts a copy of the formatting element inside the furthest block, around
    /// everything that was in it, and in its stead on the stack and in the list
    /// of active formatting elements.
    pub open spec fn replace_formatting_element(
        self,
        formatting: NodeId,
        block: NodeId,
        bookmark: int,
    ) -> Self {
        let copy = self.document.next_id();
        let t = self.create_element(
            tag_for(self.document.kind(formatting)),
            HTML_NAMESPACE@,
            None,
        );
        let children = t.document.children(block);
        let place = match formatting_index_from(t.formatting, formatting, 0) {
            Some(k) => if k < bookmark {
                bookmark - 1
            } else {
                bookmark
            },
            None => bookmark,
        };
        let stack = without_node(t.open_elements, formatting);
        BuilderModel {
            document: appended_all(t.document.append_child(block, copy), children, copy),
            formatting: without_formatting(t.formatting, formatting).insert(
                place,
                FormattingEntry::Element(copy),
            ),
            open_elements: match index_from(stack, block, 0) {
                Some(k) => stack.insert(k + 1, copy),
                None => stack.push(copy),
            },
            ..t
        }
    }

    /// Adopts: what is in the furthest block at index `b` moves out of the
    /// formatting element at index `top`.
    #[verifier::opaque]
    pub open spec fn adopt(self, formatting: NodeId, top: int, b: int) -> Self {
        let block = self.open_elements[b];
        let above = if top > 0 {
            self.open_elements[top - 1]
        } else {
            self.document.root
        };
        let bookmark = match formatting_index_from(self.formatting, formatting, 0) {
            Some(k) => k,
            None => 0,
        };
        let (t, last, bookmark) = self.adopt_up(top, b - 1, block, block, bookmark, 0);
        t.replant(last, t.location(Some(above))).replace_formatting_element(
            formatting,
            block,
            bookmark,
        )
    }

    /// One round of the algorithm. Also tells whether there is another.
    #[verifier::opaque]
    pub open spec fn adoption_round(self, tag: TagModel) -> (Self, bool) {
        match last_formatting_named(self.document, self.formatting, tag.name) {
            None => (self.any_other_end_tag(tag), false),
            Some(node) => match index_from(self.open_elements, node, 0) {
                None => {
                    let t = self.error(ParseErrorKind::StrayEndTag);
                    (
                        BuilderModel { formatting: without_formatting(t.formatting, node), ..t },
                        false,
                    )
                },
                Some(top) => if !node_in_scope(self.document, self.open_elements, node) {
                    (self.error(ParseErrorKind::FormattingElementNotInScope), false)
                } else {
                    let t = if self.current_node() == Some(node) {
                        self
                    } else {
                        self.error(ParseErrorKind::MisnestedFormattingElement)
                    };
                    match special_after(t.document, t.open_elements, top) {
                        None => {
                            let t = t.pop_to(top);
                            (
                                BuilderModel {
                                    formatting: without_formatting(t.formatting, node),
                                    ..t
                                },
                                false,
                            )
                        },
                        Some(b) => (t.adopt(node, top, b), true),
                    }
                },
            },
        }
    }

    /// At most `n` rounds.
    pub open spec fn adoption_rounds(self, tag: TagModel, n: nat) -> Self
        decreases n,
    {
        if n == 0 {
            self
        } else {
            let (t, more) = self.adoption_round(tag);
            if more {
                t.adoption_rounds(tag, (n - 1) as nat)
            } else {
                t
            }
        }
    }

    /// The adoption agency algorithm, for a start or end tag.
    #[verifier::opaque]
    pub open spec fn adoption_agency(self, tag: TagModel) -> Self {
        let done = match self.current_node() {
            Some(node) => self.current_is(tag.name) && formatting_index_from(
                self.formatting,
                node,
                0,
            ) is None,
            None => false,
        };
        if done {
            self.pop()
        } else {
            self.adoption_rounds(tag, 8)
        }
    }
}

/// What is found in the list of active formatting elements stands there.
pub proof fn lemma_formatting_index_from(entries: Seq<FormattingEntry>, node: NodeId, i: int)
    requires
        0 <= i,
    ensures
        match formatting_index_from(entries, node, i) {
            Some(k) => i <= k < entries.len() && entries[k] == FormattingEntry::Element(node),
            None => forall|k: int| i <= k < entries.len() ==> entries[k]
                != FormattingEntry::Element(node),
        },
    decreases entries.len() - i,
{
    if i < entries.len() && entries[i] != FormattingEntry::Element(node) {
        lemma_formatting_index_from(entries, node, i + 1);
    }
}

/// Ancestors rank no higher than what is below them.
proof fn lemma_ancestor_rank(
    d: DocumentModel,
    rank: spec_fn(NodeId) -> int,
    a: NodeId,
    id: NodeId,
    k: nat,
)
    requires
        d.wf(),
        d.has(id),
        ranked(d.nodes, rank),
        d.ancestor(id, k) == Some(a),
    ensures
        rank(a) <= rank(id),
    decreases k,
{
    if k > 0 {
        assert(d.family(id));
        assert(d.nodes[id.index as int] == d.node(id));
        match d.parent(id) {
            Some(p) => {
                lemma_ancestor_rank(d, rank, a, p, (k - 1) as nat);
            },
            None => {},
        }
    }
}

/// A node is no ancestor of its siblings.
pub proof fn lemma_sibling_is_no_ancestor(
    d: DocumentModel,
    a: NodeId,
    b: NodeId,
    parent: NodeId,
)
    requires
        d.wf(),
        d.has(a),
        d.has(b),
        a != b,
        d.parent(a) == Some(parent),
        d.parent(b) == Some(parent),
    ensures
        !d.is_inclusive_ancestor(a, b),
{
    if d.is_inclusive_ancestor(a, b) {
        lemma_ancestor_step(d, a, b);
        assert(d.is_inclusive_ancestor(a, parent));
        let k = choose|k: nat| d.ancestor(parent, k) == Some(a);
        let rank = choose|rank: spec_fn(NodeId) -> int| ranked(d.nodes, rank);
        assert(d.family(a));
        lemma_ancestor_rank(d, rank, a, parent, k);
        assert(d.nodes[a.index as int] == d.node(a));
    }
}

impl TreeBuilder {
    /// Where an element stands in the list of active formatting elements.
    fn formatting_index(&self, node: NodeId) -> (r: Option<usize>)
        ensures
            match r {
                Some(i) => formatting_index_from(self@.formatting, node, 0) == Some(i as int) && i
                    < self@.formatting.len(),
                None => formatting_index_from(self@.formatting, node, 0) is None,
            },
    {
        let mut i: usize = 0;
        while i < self.active_formatting_elements.entries.len()
            invariant
                0 <= i <= self@.formatting.len(),
                formatting_index_from(self@.formatting, node, i as int) == formatting_index_from(
                    self@.formatting,
                    node,
                    0,
                ),
            decreases self@.formatting.len() - i,
        {
            if self.active_formatting_elements.entries[i] == FormattingEntry::Element(node) {
                return Some(i);
            }
            i = i + 1;
        }
        None
    }

    /// Takes an element out of the list of active formatting elements.
    pub fn remove_from_formatting(&mut self, node: NodeId)
        requires
            old(self).wf(),
        ensures
            final(self).wf(),
            final(self)@ == (BuilderModel {
                formatting: without_formatting(old(self)@.formatting, node),
                ..old(self)@
            }),
    {
        match self.formatting_index(node) {
            Some(i) => {
                proof {
                    reveal(TreeBuilder::wf);
                    lemma_sound_without_formatting(self@, i as int);
                }
                self.active_formatting_elements.entries.remove(i);
            },
            None => {},
        }
    }

    /// Handles an end tag without a rule of its own.
    pub fn any_other_end_tag_in_body(&mut self, tag: &TagToken)
        requires
            old(self).wf(),
        ensures
            final(self).wf(),
            final(self)@ == old(self)@.any_other_end_tag(tag@),
    {
        proof {
            reveal(BuilderModel::any_other_end_tag);
        }
        let ghost d = self@.document;
        let ghost stack = self@.open_elements;
        let mut i: usize = self.open_elements.entries.len();
        assert(stack.take(i as int) == stack);
        while i > 0
            invariant
                self.wf(),
                self@ == old(self)@,
                d == self@.document,
                stack == self@.open_elements,
                0 <= i <= stack.len(),
                closed_by_end_tag(d, stack.take(i as int), tag@.name) == closed_by_end_tag(
                    d,
                    stack,
                    tag@.name,
                ),
            decreases i,
        {
            proof {
                reveal(BuilderModel::any_other_end_tag);
                reveal(TreeBuilder::wf);
                reveal(BuilderModel::sound);
                assert(stack.take(i as int).last() == stack[i - 1]);
                assert(stack.take(i as int).drop_last() == stack.take(i - 1));
                assert(d.has(stack[i - 1]));
            }
            i = i - 1;
            let node = self.open_elements.entries[i];
            if node_is_html(&self.document, node, tag.name.as_str()) {
                self.generate_implied_end_tags(Some(tag.name.as_str()));
                if self.open_elements.entries.len() == 0 || self.open_elements.entries.len() - 1
                    != i {
                    self.error(ParseErrorKind::ImpliedEndTagWithUnclosedElements);
                }
                self.pop_to(i);
                return;
            }
            if is_special_node(&self.document, node) {
                self.error(ParseErrorKind::StrayEndTag);
                return;
            }
        }
        self.error(ParseErrorKind::StrayEndTag);
    }

    /// Finds the last active formatting element of that name after the last
    /// marker.
    fn last_formatting_element(&self, name: &str) -> (r: Option<NodeId>)
        requires
            self.wf(),
        ensures
            r == last_formatting_named(self@.document, self@.formatting, name@),
            r matches Some(node) ==> self@.document.has(node) && tag_of(
                self@.document.kind(node),
            ) is Some,
    {
        let ghost d = self@.document;
        let ghost entries = self@.formatting;
        let mut i: usize = self.active_formatting_elements.entries.len();
        assert(entries.take(i as int) == entries);
        while i > 0
            invariant
                self.wf(),
                d == self@.document,
                entries == self@.formatting,
                0 <= i <= entries.len(),
                last_formatting_named(d, entries.take(i as int), name@) == last_formatting_named(
                    d,
                    entries,
                    name@,
                ),
            decreases i,
        {
            proof {
                reveal(TreeBuilder::wf);
                reveal(BuilderModel::sound);
                assert(entries.take(i as int).last() == entries[i - 1]);
                assert(entries.take(i as int).drop_last() == entries.take(i - 1));
            }
            i = i - 1;
            match self.active_formatting_elements.entries[i] {
                FormattingEntry::Marker => {
                    return None;
                },
                FormattingEntry::Element(node) => {
                    let called = match &self.document.node(node).kind {
                        NodeKind::Element { name: own, .. } => str_eq(own.as_str(), name),
                        _ => false,
                    };
                    if called {
                        return Some(node);
                    }
                },
            }
        }
        None
    }

    /// Walks up the stack from index `b - 1` to the formatting element at index
    /// `top`.
    fn adopt_up(&mut self, top: usize, b: usize, block: NodeId, bookmark: usize) -> (r: (
        NodeId,
        usize,
    ))
        requires
            old(self).wf(),
            top < b < old(self)@.open_elements.len(),
            old(self)@.document.has(block),
            tag_of(old(self)@.document.kind(block)) is Some,
            bookmark <= old(self)@.formatting.len(),
        ensures
            final(self).wf(),
            (final(self)@, r.0, r.1 as int) == old(self)@.adopt_up(
                top as int,
                b - 1,
                block,
                block,
                bookmark as int,
                0,
            ),
            final(self)@.document.has(r.0),
            tag_of(final(self)@.document.kind(r.0)) is Some,
            r.1 <= final(self)@.formatting.len(),
            tags_kept(old(self)@.document, final(self)@.document),
    {
        let ghost start = self@;
        let mut i: usize = b - 1;
        let mut last = block;
        let mut bookmark = bookmark;
        let mut steps: usize = 0;
        let ghost result = start.adopt_up(
            top as int,
            b - 1,
            block,
            block,
            bookmark as int,
            0,
        );
        while i > top
            invariant
                self.wf(),
                start.document.has(block),
                self@.document.has(last),
                tag_of(self@.document.kind(last)) is Some,
                top <= i < self@.open_elements.len(),
                i < b,
                steps == b - 1 - i,
                bookmark <= self@.formatting.len(),
                self@.adopt_up(
                    top as int,
                    i as int,
                    block,
                    last,
                    bookmark as int,
                    steps as int,
                ) == result,
                tags_kept(start.document, self@.document),
            decreases i,
        {
            let ghost before = self@;
            let node = self.open_elements.entries[i];
            proof {
                reveal(TreeBuilder::wf);
                reveal(BuilderModel::sound);
                assert(self@.document.has(self@.open_elements[i as int]));
                lemma_formatting_index_from(self@.formatting, node, 0);
            }
            if steps >= 3 {
                match self.formatting_index(node) {
                    Some(k) => {
                        if k < bookmark {
                            bookmark = bookmark - 1;
                        }
                    },
                    None => {},
                }
                self.remove_from_formatting(node);
            }
            let ghost kept = self@;
            match self.formatting_index(node) {
                None => {
                    proof {
                        reveal(TreeBuilder::wf);
                        lemma_sound_without(self@, i as int);
                    }
                    self.open_elements.entries.remove(i);
                },
                Some(k) => {
                    let first = last == block;
                    let length: usize = self.active_formatting_elements.entries.len();
                    assert(k < length);
                    last = self.copy_element_around(node, i, k, last);
                    proof {
                        lemma_tags_kept_twice(start.document, before.document, self@.document);
                    }
                    if first {
                        bookmark = k + 1;
                    }
                },
            }
            i = i - 1;
            steps = steps + 1;
        }
        (last, bookmark)
    }

    /// Replaces an active formatting element by a copy, around `last`.
    fn copy_element_around(&mut self, node: NodeId, i: usize, k: usize, last: NodeId) -> (r: NodeId)
        requires
            old(self).wf(),
            old(self)@.document.has(node),
            old(self)@.document.has(last),
            tag_of(old(self)@.document.kind(last)) is Some,
            i < old(self)@.open_elements.len(),
            k < old(self)@.formatting.len(),
        ensures
            final(self).wf(),
            r == old(self)@.document.next_id(),
            ({
                let u = old(self)@.create_element(
                    tag_for(old(self)@.document.kind(node)),
                    HTML_NAMESPACE@,
                    None,
                );
                final(self)@ == (BuilderModel {
                    document: u.document.append_child(r, last),
                    formatting: u.formatting.update(k as int, FormattingEntry::Element(r)),
                    open_elements: u.open_elements.update(i as int, r),
                    ..u
                })
            }),
            final(self)@.document.has(r),
            tag_of(final(self)@.document.kind(r)) is Some,
            final(self)@.open_elements.len() == old(self)@.open_elements.len(),
            final(self)@.formatting.len() == old(self)@.formatting.len(),
            tags_kept(old(self)@.document, final(self)@.document),
    {
        proof {
            reveal(BuilderModel::create_element);
        }
        let ghost start = self@;
        let tag = self.tag_token_for(node);
        let copy = self.create_element_for_token(&tag, HTML_NAMESPACE, None);
        let ghost made = self@;
        proof {
            reveal(TreeBuilder::wf);
            reveal(BuilderModel::sound);
            self.document.lemma_wf();
            assert(tag_of(made.document.kind(last)) == tag_of(start.document.kind(last)));
            lemma_ancestor_step(made.document, last, copy);
            lemma_insert_before(made.document, copy, None, last);
            lemma_insert_keeps_tags(made.document, copy, None, last);
            let placed = made.document.append_child(copy, last);
            lemma_tags_kept_twice(start.document, made.document, placed);
            assert(tag_of(placed.kind(copy)) == tag_of(made.document.kind(copy)));
            lemma_sound_with(made, placed);
            let t = BuilderModel { document: placed, ..made };
            lemma_sound_with_formatting(t, k as int, copy);
            let t = BuilderModel {
                formatting: t.formatting.update(k as int, FormattingEntry::Element(copy)),
                ..t
            };
            lemma_sound_with_node(t, i as int, copy);
        }
        self.document.append_child(copy, last);
        self.active_formatting_elements.entries[k] = FormattingEntry::Element(copy);
        self.open_elements.entries[i] = copy;
        copy
    }

    /// Whether some child of a node is an element.
    fn has_element_child(&self, node: NodeId) -> (r: bool)
        requires
            self.wf(),
            self@.document.has(node),
        ensures
            r == has_element_child(self@.document, node),
    {
        proof {
            reveal(TreeBuilder::wf);
            self.document.lemma_wf();
            assert(self@.document.family(node));
        }
        let children = self.document.children(node).collect();
        let mut i: usize = 0;
        while i < children.len()
            invariant
                self.document.wf(),
                children@ == self@.document.children(node),
                self@.document.family(node),
                0 <= i <= children@.len(),
                forall|j: int|
                    0 <= j < i ==> !(self@.document.kind(
                        #[trigger] self@.document.children(node)[j],
                    ) is Element),
            decreases children@.len() - i,
        {
            assert(self@.document.has(self@.document.children(node)[i as int]));
            if matches!(self.document.node(children[i]).kind, NodeKind::Element { .. }) {
                return true;
            }
            i = i + 1;
        }
        false
    }

    /// Moves a node to a place, where the document allows it.
    fn replant(&mut self, node: NodeId, location: InsertionLocation)
        requires
            old(self).wf(),
            old(self)@.document.has(node),
            tag_of(old(self)@.document.kind(node)) is Some,
            old(self)@.place_exists(location),
        ensures
            final(self).wf(),
            final(self)@ == old(self)@.replant(node, location),
            tags_kept(old(self)@.document, final(self)@.document),
    {
        proof {
            reveal(TreeBuilder::wf);
            reveal(BuilderModel::sound);
            self.document.lemma_wf();
            lemma_remove(self.document@, node);
            lemma_remove_keeps_tags(self.document@, node);
            lemma_sound_with(self@, self.document@.remove(node));
        }
        let ghost start = self@;
        self.document.remove(node);
        let ghost removed = self@;
        let before_fits = match location.before {
            Some(before) => match self.document.parent(before) {
                Some(parent) => parent == location.parent,
                None => false,
            },
            None => true,
        };
        let in_full_document = matches!(
            self.document.node(location.parent).kind,
            NodeKind::Document
        ) && self.has_element_child(location.parent);
        if before_fits && !in_full_document && !self.document.is_inclusive_ancestor(
            node,
            location.parent,
        ) {
            proof {
                self.document.lemma_wf();
                lemma_insert_keeps_tags(
                    removed.document,
                    location.parent,
                    location.before,
                    node,
                );
                let placed = removed.document.insert_before(
                    location.parent,
                    location.before,
                    node,
                );
                lemma_tags_kept_twice(start.document, removed.document, placed);
                lemma_sound_with(removed, placed);
            }
            self.document.insert_before(location.parent, location.before, node);
        }
    }

    /// Appends the children of a node, given as a list, to one of them.
    fn move_children(&mut self, children: &Vec<NodeId>, block: NodeId, copy: NodeId)
        requires
            old(self).wf(),
            old(self)@.document.has(copy),
            old(self)@.document.parent(copy) == Some(block),
            children@.no_duplicates(),
            !children@.contains(copy),
            forall|j: int|
                0 <= j < children@.len() ==> old(self)@.document.has(#[trigger] children@[j])
                    && old(self)@.document.parent(children@[j]) == Some(block),
        ensures
            final(self).wf(),
            final(self)@ == (BuilderModel {
                document: appended_all(old(self)@.document, children@, copy),
                ..old(self)@
            }),
            tags_kept(old(self)@.document, final(self)@.document),
    {
        let ghost start = self@;
        let ghost all = children@;
        let mut i: usize = 0;
        assert(all.skip(0) == all);
        while i < children.len()
            invariant
                self.wf(),
                all == children@,
                all.no_duplicates(),
                !all.contains(copy),
                self@.document.has(copy),
                self@.document.parent(copy) == Some(block),
                0 <= i <= all.len(),
                forall|j: int|
                    i <= j < all.len() ==> self@.document.has(#[trigger] all[j])
                        && self@.document.parent(all[j]) == Some(block),
                appended_all(self@.document, all.skip(i as int), copy) == appended_all(
                    start.document,
                    all,
                    copy,
                ),
                self@ == (BuilderModel { document: self@.document, ..start }),
                tags_kept(start.document, self@.document),
            decreases all.len() - i,
        {
            let child = children[i];
            let ghost before = self@;
            let ghost after = before.document.append_child(copy, child);
            proof {
                reveal(TreeBuilder::wf);
                reveal(BuilderModel::sound);
                self.document.lemma_wf();
                assert(all[i as int] == child);
                assert(all.skip(i as int)[0] == child);
                assert(all.skip(i as int).drop_first() == all.skip(i + 1));
                lemma_sibling_is_no_ancestor(before.document, child, copy, block);
                lemma_insert_before(before.document, copy, None, child);
                lemma_insert_keeps_tags(before.document, copy, None, child);
                lemma_tags_kept_twice(start.document, before.document, after);
                lemma_sound_with(before, after);
            }
            self.document.append_child(copy, child);
            proof {
                assert(after.parent(copy) == before.document.parent(copy));
                assert forall|j: int| i < j < all.len() implies self@.document.has(
                    #[trigger] all[j],
                ) && self@.document.parent(all[j]) == Some(block) by {
                    assert(all[j] != child);
                    assert(before.document.has(all[j]));
                    assert(after.parent(all[j]) == before.document.parent(all[j]));
                }
            }
            i = i + 1;
        }
        assert(all.skip(i as int).len() == 0);
    }

    /// Puts a copy of the formatting element inside the furthest block, and in
    /// its stead on the lists.
    fn replace_formatting_element(&mut self, formatting: NodeId, block: NodeId, bookmark: usize)
        requires
            old(self).wf(),
            old(self)@.document.has(formatting),
            old(self)@.document.has(block),
            bookmark <= old(self)@.formatting.len(),
        ensures
            final(self).wf(),
            final(self)@ == old(self)@.replace_formatting_element(
                formatting,
                block,
                bookmark as int,
            ),
    {
        proof {
            reveal(BuilderModel::create_element);
            reveal(TreeBuilder::wf);
            self.document.lemma_wf();
        }
        let ghost start = self@;
        let tag = self.tag_token_for(formatting);
        let copy = self.create_element_for_token(&tag, HTML_NAMESPACE, None);
        let ghost made = self@;
        proof {
            reveal(TreeBuilder::wf);
            self.document.lemma_wf();
            assert(made.document.family(block));
        }
        let children = self.document.children(block).collect();
        let ghost placed = made.document.append_child(block, copy);
        proof {
            lemma_no_new_ancestor(start.document, made.document, copy, block);
            lemma_insert_before(made.document, block, None, copy);
            lemma_insert_keeps_tags(made.document, block, None, copy);
            lemma_sound_with(made, placed);
            assert(!children@.contains(copy)) by {
                if children@.contains(copy) {
                    let j = choose|j: int| 0 <= j < children@.len() && children@[j] == copy;
                    assert(made.document.parent(made.document.children(block)[j]) == Some(block));
                }
            }
            assert forall|j: int| 0 <= j < children@.len() implies placed.has(
                #[trigger] children@[j],
            ) && placed.parent(children@[j]) == Some(block) by {
                assert(made.document.has(made.document.children(block)[j]));
                assert(placed.parent(children@[j]) == made.document.parent(children@[j]));
            }
        }
        self.document.append_child(block, copy);
        self.move_children(&children, block, copy);
        let ghost moved = self@;
        proof {
            assert(tag_of(placed.kind(copy)) == tag_of(made.document.kind(copy)));
            assert(tag_of(moved.document.kind(copy)) == tag_of(placed.kind(copy)));
            lemma_formatting_index_from(moved.formatting, formatting, 0);
        }
        let place: usize = match self.formatting_index(formatting) {
            Some(k) => if k < bookmark {
                bookmark - 1
            } else {
                bookmark
            },
            None => bookmark,
        };
        self.remove_from_formatting(formatting);
        proof {
            reveal(TreeBuilder::wf);
            lemma_sound_with_formatting(self@, place as int, copy);
        }
        self.active_formatting_elements.entries.insert(
            place,
            FormattingEntry::Element(copy),
        );
        self.remove_from_stack(formatting);
        match self.open_elements.index_of(block) {
            Some(k) => {
                proof {
                    reveal(TreeBuilder::wf);
                    lemma_sound_with_node(self@, k + 1, copy);
                }
                let length: usize = self.open_elements.entries.len();
                assert(k < length);
                self.open_elements.entries.insert(k + 1, copy);
            },
            None => {
                proof {
                    reveal(TreeBuilder::wf);
                    crate::tree_builder::soundness::lemma_sound_push(self@, copy);
                }
                self.open_elements.push(copy);
            },
        }
    }

    /// Moves what is in the furthest block at index `b` out of the formatting
    /// element at index `top`.
    fn adopt(&mut self, formatting: NodeId, top: usize, b: usize)
        requires
            old(self).wf(),
            old(self)@.document.has(formatting),
            top < b < old(self)@.open_elements.len(),
        ensures
            final(self).wf(),
            final(self)@ == old(self)@.adopt(formatting, top as int, b as int),
    {
        proof {
            reveal(BuilderModel::adopt);
            reveal(TreeBuilder::wf);
            reveal(BuilderModel::sound);
            self.document.lemma_wf();
        }
        let ghost start = self@;
        let block = self.open_elements.entries[b];
        assert(start.document.has(start.open_elements[b as int]));
        let above = if top > 0 {
            assert(start.document.has(start.open_elements[top - 1]));
            self.open_elements.entries[top - 1]
        } else {
            self.document.root()
        };
        let bookmark: usize = match self.formatting_index(formatting) {
            Some(k) => k,
            None => 0,
        };
        let (last, bookmark) = self.adopt_up(top, b, block, bookmark);
        let location = self.appropriate_place_for_inserting_a_node(Some(above));
        self.replant(last, location);
        self.replace_formatting_element(formatting, block, bookmark);
    }

    /// Whether a formatting element is in scope.
    fn formatting_in_scope(&self, node: NodeId) -> (r: bool)
        requires
            self.wf(),
        ensures
            r == node_in_scope(self@.document, self@.open_elements, node),
    {
        proof {
            reveal(TreeBuilder::wf);
            reveal(BuilderModel::sound);
        }
        self.open_elements.has_node_in_scope(&self.document, node)
    }

    /// One round of the adoption agency algorithm; tells whether there is
    /// another.
    fn adoption_round(&mut self, tag: &TagToken) -> (r: bool)
        requires
            old(self).wf(),
        ensures
            final(self).wf(),
            (final(self)@, r) == old(self)@.adoption_round(tag@),
    {
        proof {
            reveal(BuilderModel::adoption_round);
        }
        let formatting = match self.last_formatting_element(tag.name.as_str()) {
            Some(node) => node,
            None => {
                self.any_other_end_tag_in_body(tag);
                return false;
            },
        };
        let top: usize = match self.open_elements.index_of(formatting) {
            Some(top) => top,
            None => {
                self.error(ParseErrorKind::StrayEndTag);
                self.remove_from_formatting(formatting);
                return false;
            },
        };
        if !self.formatting_in_scope(formatting) {
            self.error(ParseErrorKind::FormattingElementNotInScope);
            return false;
        }
        let is_current = match self.open_elements.current_node() {
            Some(node) => node == formatting,
            None => false,
        };
        if !is_current {
            self.error(ParseErrorKind::MisnestedFormattingElement);
        }
        proof {
            reveal(TreeBuilder::wf);
            reveal(BuilderModel::sound);
        }
        match self.open_elements.topmost_special_element_below(&self.document, top) {
            Some(b) => {
                self.adopt(formatting, top, b);
                true
            },
            None => {
                self.pop_to(top);
                self.remove_from_formatting(formatting);
                false
            },
        }
    }

    /// The adoption agency algorithm, for a start or end tag.
    pub fn adoption_agency_algorithm(&mut self, tag: &TagToken)
        requires
            old(self).wf(),
        ensures
            final(self).wf(),
            final(self)@ == old(self)@.adoption_agency(tag@),
    {
        proof {
            reveal(BuilderModel::adoption_agency);
        }
        let ghost start = self@;
        if let Some(node) = self.current_node() {
            let active = match self.formatting_index(node) {
                Some(_) => true,
                None => false,
            };
            if !active && self.current_is(tag.name.as_str()) {
                self.pop();
                return;
            }
        }
        let mut left: usize = 8;
        while left > 0
            invariant
                self.wf(),
                self@.adoption_rounds(tag@, left as nat) == start.adoption_rounds(tag@, 8),
                old(self)@.adoption_agency(tag@) == start.adoption_rounds(tag@, 8),
            decreases left,
        {
            left = left - 1;
            if !self.adoption_round(tag) {
                return;
            }
        }
    }
}

} // verus!
