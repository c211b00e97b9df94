//! The stack of open elements: what it can be asked, given the document that
//! its elements stand in.
use vstd::prelude::*;

use crate::document::arena::Document;
use crate::document::model::{DocumentModel, NodeId, NodeKind};
use crate::text::str_eq;
use crate::tree_builder::elements::{
    bounds_scope, html_name, is_special_node, kind_in_group, node_bounds_scope, node_in_group,
    node_is_html, special_kind, tag_of, Group, Scope,
};

verus! {

/// The stack of open elements. It grows downwards: its last entry is the
/// current node, its first the `html` element.
#[derive(Debug)]
pub struct OpenElementsStack {
    pub entries: Vec<NodeId>,
}

/// Every entry is an element of the document.
pub open spec fn all_elements(d: DocumentModel, stack: Seq<NodeId>) -> bool {
    forall|i: int|
        0 <= i < stack.len() ==> d.has(#[trigger] stack[i]) && tag_of(d.kind(stack[i])) is Some
}

/// No entry after `i` ends a search in the given scope.
pub open spec fn clear_below(d: DocumentModel, stack: Seq<NodeId>, i: int, scope: Scope) -> bool {
    forall|j: int| i < j < stack.len() ==> !bounds_scope(d.kind(#[trigger] stack[j]), scope)
}

/// An HTML element of that name can be reached from the current node without
/// passing the bounds of the scope.
#[verifier::opaque]
pub open spec fn in_scope(
    d: DocumentModel,
    stack: Seq<NodeId>,
    name: Seq<char>,
    scope: Scope,
) -> bool {
    exists|i: int|
        0 <= i < stack.len() && html_name(d.kind(#[trigger] stack[i])) == Some(name)
            && clear_below(d, stack, i, scope)
}

/// The same, for any element of a group.
#[verifier::opaque]
pub open spec fn group_in_scope(
    d: DocumentModel,
    stack: Seq<NodeId>,
    group: Group,
    scope: Scope,
) -> bool {
    exists|i: int|
        0 <= i < stack.len() && kind_in_group(d.kind(#[trigger] stack[i]), group) && clear_below(
            d,
            stack,
            i,
            scope,
        )
}

/// The same, for one given element.
#[verifier::opaque]
pub open spec fn node_in_scope(d: DocumentModel, stack: Seq<NodeId>, node: NodeId) -> bool {
    exists|i: int|
        0 <= i < stack.len() && #[trigger] stack[i] == node && clear_below(
            d,
            stack,
            i,
            Scope::Default,
        )
}

/// The index of the last HTML element of that name.
pub open spec fn last_named(d: DocumentModel, stack: Seq<NodeId>, name: Seq<char>) -> Option<int>
    decreases stack.len(),
{
    if stack.len() == 0 {
        None
    } else if html_name(d.kind(stack.last())) == Some(name) {
        Some(stack.len() - 1)
    } else {
        last_named(d, stack.drop_last(), name)
    }
}

/// The index of the last HTML element of the group.
pub open spec fn last_in_group(d: DocumentModel, stack: Seq<NodeId>, group: Group) -> Option<int>
    decreases stack.len(),
{
    if stack.len() == 0 {
        None
    } else if kind_in_group(d.kind(stack.last()), group) {
        Some(stack.len() - 1)
    } else {
        last_in_group(d, stack.drop_last(), group)
    }
}

/// The name of an element is `name`, whatever its namespace.
pub open spec fn is_called(d: DocumentModel, node: NodeId, name: Option<Seq<char>>) -> bool {
    match (tag_of(d.kind(node)), name) {
        (Some(tag), Some(name)) => tag.1 == name,
        _ => false,
    }
}

/// How many entries are left when those whose end tags are implied are popped;
/// an element called `exclude` stays.
pub open spec fn length_without_implied(
    d: DocumentModel,
    stack: Seq<NodeId>,
    group: Group,
    exclude: Option<Seq<char>>,
) -> int
    decreases stack.len(),
{
    if stack.len() > 0 && !is_called(d, stack.last(), exclude) && kind_in_group(
        d.kind(stack.last()),
        group,
    ) {
        length_without_implied(d, stack.drop_last(), group, exclude)
    } else {
        stack.len() as int
    }
}

/// The index of the first special element after index `i`.
pub open spec fn special_after(d: DocumentModel, stack: Seq<NodeId>, i: int) -> Option<int>
    decreases stack.len() - i,
{
    if i + 1 >= stack.len() {
        None
    } else if special_kind(d.kind(stack[i + 1])) {
        Some(i + 1)
    } else {
        special_after(d, stack, i + 1)
    }
}

/// The index at which a node stands for the first time, looked for from index
/// `i` on.
pub open spec fn index_from(stack: Seq<NodeId>, node: NodeId, i: int) -> Option<int>
    decreases stack.len() - i,
{
    if i < 0 || i >= stack.len() {
        None
    } else if stack[i] == node {
        Some(i)
    } else {
        index_from(stack, node, i + 1)
    }
}

/// Where the last element of a name is.
pub proof fn lemma_last_named(d: DocumentModel, stack: Seq<NodeId>, name: Seq<char>)
    ensures
        match last_named(d, stack, name) {
            Some(i) => 0 <= i < stack.len() && html_name(d.kind(stack[i])) == Some(name),
            None => forall|i: int|
                0 <= i < stack.len() ==> html_name(d.kind(#[trigger] stack[i])) != Some(name),
        },
    decreases stack.len(),
{
    if stack.len() > 0 && html_name(d.kind(stack.last())) != Some(name) {
        lemma_last_named(d, stack.drop_last(), name);
        if last_named(d, stack.drop_last(), name) is None {
            assert forall|i: int| 0 <= i < stack.len() implies html_name(
                d.kind(#[trigger] stack[i]),
            ) != Some(name) by {
                if i < stack.len() - 1 {
                    assert(stack.drop_last()[i] == stack[i]);
                }
            }
        }
    }
}

/// Popping the implied end tags leaves part of the stack, and what it leaves
/// has none at its end.
pub proof fn lemma_length_without_implied(
    d: DocumentModel,
    stack: Seq<NodeId>,
    group: Group,
    exclude: Option<Seq<char>>,
)
    ensures
        0 <= length_without_implied(d, stack, group, exclude) <= stack.len(),
        ({
            let n = length_without_implied(d, stack, group, exclude);
            length_without_implied(d, stack.take(n), group, exclude) == n
        }),
    decreases stack.len(),
{
    assert(stack.take(stack.len() as int) == stack);
    if stack.len() > 0 && !is_called(d, stack.last(), exclude) && kind_in_group(
        d.kind(stack.last()),
        group,
    ) {
        lemma_length_without_implied(d, stack.drop_last(), group, exclude);
        let n = length_without_implied(d, stack.drop_last(), group, exclude);
        assert(stack.drop_last().take(n) == stack.take(n));
    }
}

/// What is in button scope or in list item scope is in scope.
pub proof fn lemma_scopes_nest(d: DocumentModel, stack: Seq<NodeId>, name: Seq<char>)
    ensures
        in_scope(d, stack, name, Scope::Button) ==> in_scope(d, stack, name, Scope::Default),
        in_scope(d, stack, name, Scope::ListItem) ==> in_scope(d, stack, name, Scope::Default),
{
    reveal(in_scope);
    reveal(bounds_scope);
    assert forall|i: int, scope: Scope|
        (scope is Button || scope is ListItem) && #[trigger] clear_below(
            d,
            stack,
            i,
            scope,
        ) implies clear_below(d, stack, i, Scope::Default) by {
        assert forall|j: int| i < j < stack.len() implies !bounds_scope(
            d.kind(#[trigger] stack[j]),
            Scope::Default,
        ) by {
            assert(!bounds_scope(d.kind(stack[j]), scope));
        }
    }
}

/// An element that is in scope is on the stack.
pub proof fn lemma_in_scope_is_open(
    d: DocumentModel,
    stack: Seq<NodeId>,
    name: Seq<char>,
    scope: Scope,
)
    requires
        in_scope(d, stack, name, scope),
    ensures
        last_named(d, stack, name) is Some,
{
    reveal(in_scope);
    lemma_last_named(d, stack, name);
}

impl OpenElementsStack {
    /// An empty stack.
    pub fn new() -> (r: Self)
        ensures
            r.entries@ == Seq::<NodeId>::empty(),
    {
        OpenElementsStack { entries: Vec::new() }
    }

    /// Puts a node on the stack.
    pub fn push(&mut self, node: NodeId)
        ensures
            final(self).entries@ == old(self).entries@.push(node),
    {
        self.entries.push(node);
    }

    /// Takes the current node off the stack.
    pub fn pop(&mut self) -> (r: Option<NodeId>)
        ensures
            match r {
                Some(node) => old(self).entries@.len() > 0 && node == old(self).entries@.last()
                    && final(self).entries@ == old(self).entries@.drop_last(),
                None => old(self).entries@.len() == 0 && final(self).entries@
                    == old(self).entries@,
            },
    {
        self.entries.pop()
    }

    /// The current node.
    pub fn current_node(&self) -> (r: Option<NodeId>)
        ensures
            r == (if self.entries@.len() == 0 {
                None
            } else {
                Some(self.entries@.last())
            }),
    {
        if self.entries.len() == 0 {
            None
        } else {
            Some(self.entries[self.entries.len() - 1])
        }
    }

    /// The first node of the stack.
    pub fn topmost(&self) -> (r: Option<NodeId>)
        ensures
            r == (if self.entries@.len() == 0 {
                None
            } else {
                Some(self.entries@[0])
            }),
    {
        if self.entries.len() == 0 {
            None
        } else {
            Some(self.entries[0])
        }
    }

    /// Where a node stands on the stack.
    pub fn index_of(&self, node: NodeId) -> (r: Option<usize>)
        ensures
            match r {
                Some(i) => index_from(self.entries@, node, 0) == Some(i as int) && i
                    < self.entries@.len() && self.entries@[i as int] == node,
                None => index_from(self.entries@, node, 0) is None && !self.entries@.contains(node),
            },
    {
        let mut i: usize = 0;
        while i < self.entries.len()
            invariant
                0 <= i <= self.entries@.len(),
                index_from(self.entries@, node, i as int) == index_from(self.entries@, node, 0),
                forall|j: int| 0 <= j < i ==> self.entries@[j] != node,
            decreases self.entries@.len() - i,
        {
            if self.entries[i] == node {
                return Some(i);
            }
            i = i + 1;
        }
        None
    }

    /// Whether a node is on the stack.
    pub fn contains(&self, node: NodeId) -> (r: bool)
        ensures
            r == self.entries@.contains(node),
    {
        match self.index_of(node) {
            Some(_) => true,
            None => false,
        }
    }

    /// Whether an HTML element of that name is in the given scope.
    pub fn has_element_in_specific_scope(
        &self,
        document: &Document,
        name: &str,
        scope: Scope,
    ) -> (r: bool)
        requires
            document.wf(),
            all_elements(document@, self.entries@),
        ensures
            r == in_scope(document@, self.entries@, name@, scope),
    {
        proof {
            reveal(in_scope);
        }
        let ghost d = document@;
        let ghost stack = self.entries@;
        let mut i: usize = self.entries.len();
        while i > 0
            invariant
                document.wf(),
                d == document@,
                stack == self.entries@,
                all_elements(d, stack),
                0 <= i <= stack.len(),
                clear_below(d, stack, i - 1, scope),
                forall|j: int|
                    i <= j < stack.len() ==> html_name(d.kind(#[trigger] stack[j])) != Some(name@),
            decreases i,
        {
            proof {
                reveal(in_scope);
            }
            i = i - 1;
            let node = self.entries[i];
            assert(d.has(stack[i as int]));
            if node_is_html(document, node, name) {
                return true;
            }
            if node_bounds_scope(document, node, scope) {
                assert forall|k: int|
                    0 <= k < stack.len() && html_name(d.kind(#[trigger] stack[k])) == Some(
                        name@,
                    ) implies !clear_below(d, stack, k, scope) by {
                    assert(k < i);
                    assert(bounds_scope(d.kind(stack[i as int]), scope));
                }
                return false;
            }
        }
        false
    }

    /// Whether an HTML element of that name is in scope.
    pub fn has_element_in_scope(&self, document: &Document, name: &str) -> (r: bool)
        requires
            document.wf(),
            all_elements(document@, self.entries@),
        ensures
            r == in_scope(document@, self.entries@, name@, Scope::Default),
    {
        self.has_element_in_specific_scope(document, name, Scope::Default)
    }

    /// Whether an HTML element of that name is in list item scope.
    pub fn has_element_in_list_item_scope(&self, document: &Document, name: &str) -> (r: bool)
        requires
            document.wf(),
            all_elements(document@, self.entries@),
        ensures
            r == in_scope(document@, self.entries@, name@, Scope::ListItem),
    {
        self.has_element_in_specific_scope(document, name, Scope::ListItem)
    }

    /// Whether an HTML element of that name is in button scope.
    pub fn has_element_in_button_scope(&self, document: &Document, name: &str) -> (r: bool)
        requires
            document.wf(),
            all_elements(document@, self.entries@),
        ensures
            r == in_scope(document@, self.entries@, name@, Scope::Button),
    {
        self.has_element_in_specific_scope(document, name, Scope::Button)
    }

    /// Whether an HTML element of that name is in table scope.
    pub fn has_element_in_table_scope(&self, document: &Document, name: &str) -> (r: bool)
        requires
            document.wf(),
            all_elements(document@, self.entries@),
        ensures
            r == in_scope(document@, self.entries@, name@, Scope::Table),
    {
        self.has_element_in_specific_scope(document, name, Scope::Table)
    }

    /// Whether an element of a group is in the given scope.
    pub fn has_group_in_scope(&self, document: &Document, group: Group, scope: Scope) -> (r: bool)
        requires
            document.wf(),
            all_elements(document@, self.entries@),
        ensures
            r == group_in_scope(document@, self.entries@, group, scope),
    {
        proof {
            reveal(group_in_scope);
        }
        let ghost d = document@;
        let ghost stack = self.entries@;
        let mut i: usize = self.entries.len();
        while i > 0
            invariant
                document.wf(),
                d == document@,
                stack == self.entries@,
                all_elements(d, stack),
                0 <= i <= stack.len(),
                clear_below(d, stack, i - 1, scope),
                forall|j: int|
                    i <= j < stack.len() ==> !kind_in_group(d.kind(#[trigger] stack[j]), group),
            decreases i,
        {
            proof {
                reveal(group_in_scope);
            }
            i = i - 1;
            let node = self.entries[i];
            assert(d.has(stack[i as int]));
            if node_in_group(document, node, group) {
                return true;
            }
            if node_bounds_scope(document, node, scope) {
                assert forall|k: int|
                    0 <= k < stack.len() && kind_in_group(
                        d.kind(#[trigger] stack[k]),
                        group,
                    ) implies !clear_below(d, stack, k, scope) by {
                    assert(k < i);
                    assert(bounds_scope(d.kind(stack[i as int]), scope));
                }
                return false;
            }
        }
        false
    }

    /// Whether a given element is in scope.
    pub fn has_node_in_scope(&self, document: &Document, target: NodeId) -> (r: bool)
        requires
            document.wf(),
            all_elements(document@, self.entries@),
        ensures
            r == node_in_scope(document@, self.entries@, target),
    {
        proof {
            reveal(node_in_scope);
        }
        let ghost d = document@;
        let ghost stack = self.entries@;
        let mut i: usize = self.entries.len();
        while i > 0
            invariant
                document.wf(),
                d == document@,
                stack == self.entries@,
                all_elements(d, stack),
                0 <= i <= stack.len(),
                clear_below(d, stack, i - 1, Scope::Default),
                forall|j: int| i <= j < stack.len() ==> #[trigger] stack[j] != target,
            decreases i,
        {
            proof {
                reveal(node_in_scope);
            }
            i = i - 1;
            let node = self.entries[i];
            assert(d.has(stack[i as int]));
            if node == target {
                return true;
            }
            if node_bounds_scope(document, node, Scope::Default) {
                assert forall|k: int|
                    0 <= k < stack.len() && #[trigger] stack[k] == target implies !clear_below(
                    d,
                    stack,
                    k,
                    Scope::Default,
                ) by {
                    assert(k < i);
                    assert(bounds_scope(d.kind(stack[i as int]), Scope::Default));
                }
                return false;
            }
        }
        false
    }

    /// Where the last HTML element of that name stands.
    pub fn last_matching(&self, document: &Document, name: &str) -> (r: Option<usize>)
        requires
            document.wf(),
            all_elements(document@, self.entries@),
        ensures
            match r {
                Some(i) => last_named(document@, self.entries@, name@) == Some(i as int) && i
                    < self.entries@.len(),
                None => last_named(document@, self.entries@, name@) is None,
            },
    {
        let ghost d = document@;
        let ghost stack = self.entries@;
        let mut i: usize = self.entries.len();
        proof {
            assert(stack.take(i as int) == stack);
        }
        while i > 0
            invariant
                document.wf(),
                d == document@,
                stack == self.entries@,
                all_elements(d, stack),
                0 <= i <= stack.len(),
                last_named(d, stack.take(i as int), name@) == last_named(d, stack, name@),
            decreases i,
        {
            proof {
                assert(stack.take(i as int).last() == stack[i - 1]);
                assert(stack.take(i as int).drop_last() == stack.take(i - 1));
                assert(d.has(stack[i - 1]));
            }
            i = i - 1;
            if node_is_html(document, self.entries[i], name) {
                return Some(i);
            }
        }
        None
    }

    /// Where the last HTML element of a group stands.
    pub fn last_of_group(&self, document: &Document, group: Group) -> (r: Option<usize>)
        requires
            document.wf(),
            all_elements(document@, self.entries@),
        ensures
            match r {
                Some(i) => last_in_group(document@, self.entries@, group) == Some(i as int) && i
                    < self.entries@.len(),
                None => last_in_group(document@, self.entries@, group) is None,
            },
    {
        let ghost d = document@;
        let ghost stack = self.entries@;
        let mut i: usize = self.entries.len();
        proof {
            assert(stack.take(i as int) == stack);
        }
        while i > 0
            invariant
                document.wf(),
                d == document@,
                stack == self.entries@,
                all_elements(d, stack),
                0 <= i <= stack.len(),
                last_in_group(d, stack.take(i as int), group) == last_in_group(d, stack, group),
            decreases i,
        {
            proof {
                assert(stack.take(i as int).last() == stack[i - 1]);
                assert(stack.take(i as int).drop_last() == stack.take(i - 1));
                assert(d.has(stack[i - 1]));
            }
            i = i - 1;
            if node_in_group(document, self.entries[i], group) {
                return Some(i);
            }
        }
        None
    }

    /// Where the first special element after index `start` stands.
    pub fn topmost_special_element_below(&self, document: &Document, start: usize) -> (r: Option<
        usize,
    >)
        requires
            document.wf(),
            all_elements(document@, self.entries@),
            start < self.entries@.len(),
        ensures
            match r {
                Some(i) => special_after(document@, self.entries@, start as int) == Some(i as int)
                    && start < i < self.entries@.len(),
                None => special_after(document@, self.entries@, start as int) is None,
            },
    {
        let mut i: usize = start;
        while i < self.entries.len() - 1
            invariant
                document.wf(),
                all_elements(document@, self.entries@),
                start <= i < self.entries@.len(),
                special_after(document@, self.entries@, i as int) == special_after(
                    document@,
                    self.entries@,
                    start as int,
                ),
            decreases self.entries@.len() - i,
        {
            i = i + 1;
            assert(document@.has(self.entries@[i as int]));
            if is_special_node(document, self.entries[i]) {
                return Some(i);
            }
        }
        None
    }

    /// How many entries are left when those whose end tags are implied are
    /// popped.
    pub fn implied_end_tags_length(
        &self,
        document: &Document,
        group: Group,
        exclude: Option<&str>,
    ) -> (r: usize)
        requires
            document.wf(),
            all_elements(document@, self.entries@),
        ensures
            r == length_without_implied(
                document@,
                self.entries@,
                group,
                match exclude {
                    Some(name) => Some(name@),
                    None => None,
                },
            ),
            r <= self.entries@.len(),
    {
        let ghost d = document@;
        let ghost stack = self.entries@;
        let ghost name = match exclude {
            Some(name) => Some(name@),
            None => None,
        };
        let mut i: usize = self.entries.len();
        proof {
            assert(stack.take(i as int) == stack);
        }
        while i > 0
            invariant
                document.wf(),
                d == document@,
                stack == self.entries@,
                all_elements(d, stack),
                0 <= i <= stack.len(),
                name == match exclude {
                    Some(name) => Some(name@),
                    None => None,
                },
                length_without_implied(d, stack.take(i as int), group, name)
                    == length_without_implied(d, stack, group, name),
            decreases i,
        {
            proof {
                assert(stack.take(i as int).last() == stack[i - 1]);
                assert(stack.take(i as int).drop_last() == stack.take(i - 1));
                assert(d.has(stack[i - 1]));
            }
            let node = self.entries[i - 1];
            let excluded = match exclude {
                Some(name) => match &document.node(node).kind {
                    NodeKind::Element { name: own, .. } => str_eq(own.as_str(), name),
                    _ => false,
                },
                None => false,
            };
            if excluded || !node_in_group(document, node, group) {
                return i;
            }
            i = i - 1;
        }
        0
    }

    /// Pops the elements whose end tags are implied; an element called `exclude`
    /// stays.
    pub fn generate_implied_end_tags(&mut self, document: &Document, exclude: Option<&str>)
        requires
            document.wf(),
            all_elements(document@, old(self).entries@),
        ensures
            final(self).entries@ == old(self).entries@.take(
                length_without_implied(
                    document@,
                    old(self).entries@,
                    Group::ImpliedEndTags,
                    match exclude {
                        Some(name) => Some(name@),
                        None => None,
                    },
                ),
            ),
    {
        let length: usize = self.implied_end_tags_length(document, Group::ImpliedEndTags, exclude);
        self.entries.truncate(length);
        assert(self.entries@ == old(self).entries@.take(length as int));
    }

    /// Pops the elements whose end tags are implied at the end of a template.
    pub fn generate_implied_end_tags_thoroughly(&mut self, document: &Document)
        requires
            document.wf(),
            all_elements(document@, old(self).entries@),
        ensures
            final(self).entries@ == old(self).entries@.take(
                length_without_implied(
                    document@,
                    old(self).entries@,
                    Group::ImpliedEndTagsThoroughly,
                    None,
                ),
            ),
    {
        let length: usize = self.implied_end_tags_length(
            document,
            Group::ImpliedEndTagsThoroughly,
            None,
        );
        self.entries.truncate(length);
        assert(self.entries@ == old(self).entries@.take(length as int));
    }
}

} // verus!
