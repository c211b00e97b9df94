//! The steps of a tree builder keep the structure of the document.
use vstd::prelude::*;

use crate::document::model::{DocumentModel, KindModel, NodeId};
use crate::token::{ParseErrorKind, Position, TagModel};
use crate::tree_builder::elements::{bounds_scope, html_name, kind_in_group, tag_of, Group, Scope};
use crate::tree_builder::formatting::{
    after_last_marker, cleared_to_marker, count_alike, first_alike, lemma_after_last_marker,
    lemma_first_alike, with_formatting, FormattingEntry,
};
use crate::tree_builder::frame::{
    element_children, frame_kept, inside, kin, kin_of, lemma_after_pop_length, lemma_element_child,
    lemma_frame_after_pop, lemma_frame_insert, lemma_frame_kept_twice, lemma_frame_merge,
    lemma_frame_new_node, lemma_frame_push_text,
};
use crate::tree_builder::model::{
    closed_from, element_for, tag_for, template_contents, BuilderModel, InsertionLocation,
};
use crate::tree_builder::names::{in_implied_end_tags, HTML_NAMESPACE};
use crate::tree_builder::parts::{
    lemma_other_names_4, lemma_part_bounds, lemma_part_groups, lemma_part_named, part_named,
    part_of, Part,
};
use crate::tree_builder::stack::{
    clear_below, in_scope, is_called, last_in_group, last_named, lemma_last_named,
    length_without_implied,
};
use crate::tree_builder::structure::{
    context_fits, entry_fits, formatting_fits, holds_part, inner_fits, lemma_lists_kept,
    lemma_live_changed, lemma_live_document, lemma_stack_kept_take, lemma_stack_push,
    lemma_stack_take, lemma_templates_kept, loose_from, part_at, rooted, stack_fits, structural,
};

verus! {

// ---- Popping ----

/// Popping one element changes no more than the stack and what mirrors an `option`.
pub proof fn lemma_frame_pop(t: BuilderModel, html: NodeId)
    requires
        t.open_elements.len() > 0,
    ensures
        t.document.nodes.len() <= t.pop().document.nodes.len(),
        t.pop() == (BuilderModel {
            document: t.pop().document,
            open_elements: t.open_elements.drop_last(),
            ..t
        }),
        t.pop().small() && kin(t.document) && inside(t.document, html) && inside(
            t.document,
            t.open_elements.last(),
        ) && part_of(t.document.kind(html)) is Html ==> frame_kept(
            t.document,
            t.pop().document,
            html,
        ),
{
    let d = t.document;
    lemma_after_pop_length(d, t.open_elements.last());
    if t.pop().small() && kin(d) && inside(d, html) && inside(d, t.open_elements.last())
        && part_of(d.kind(html)) is Html {
        reveal(part_named);
        lemma_frame_after_pop(d, t.open_elements.last(), html);
    }
}

/// Popping to a length does the same, again and again.
pub proof fn lemma_frame_pop_to(t: BuilderModel, html: NodeId, n: int)
    requires
        0 <= n <= t.open_elements.len(),
    ensures
        t.document.nodes.len() <= t.pop_to(n).document.nodes.len(),
        t.pop_to(n) == (BuilderModel {
            document: t.pop_to(n).document,
            open_elements: t.open_elements.take(n),
            ..t
        }),
        t.pop_to(n).small() && kin(t.document) && inside(t.document, html) && part_of(
            t.document.kind(html),
        ) is Html && (forall|i: int|
            0 <= i < t.open_elements.len() ==> inside(t.document, #[trigger] t.open_elements[i]))
            ==> frame_kept(t.document, t.pop_to(n).document, html),
    decreases t.open_elements.len(),
{
    reveal(BuilderModel::pop_to);
    let stack = t.open_elements;
    if stack.len() > n {
        let u = t.pop();
        lemma_frame_pop(t, html);
        lemma_frame_pop_to(u, html, n);
        assert(stack.drop_last().take(n) == stack.take(n));
        if t.pop_to(n).small() && kin(t.document) && inside(t.document, html) && part_of(
            t.document.kind(html),
        ) is Html && (forall|i: int|
            0 <= i < stack.len() ==> inside(t.document, #[trigger] stack[i])) {
            assert(inside(t.document, stack[stack.len() - 1]));
            assert(tag_of(u.document.kind(html)) == tag_of(t.document.kind(html)));
            assert forall|i: int| 0 <= i < u.open_elements.len() implies inside(
                u.document,
                #[trigger] u.open_elements[i],
            ) by {
                assert(inside(t.document, stack[i]));
            }
            lemma_frame_kept_twice(t.document, u.document, t.pop_to(n).document, html);
        }
    } else {
        assert(stack.take(n) == stack);
        if kin(t.document) {
            assert(frame_kept(t.document, t.document, html));
        }
    }
}

/// Popping what is loose keeps the structure.
pub proof fn lemma_live_pop_to(t: BuilderModel, n: int)
    requires
        t.live(),
        0 <= n <= t.open_elements.len(),
        t.small() ==> loose_from(t.document, t.open_elements, n),
    ensures
        t.pop_to(n).live(),
{
    let u = t.pop_to(n);
    lemma_frame_pop_to(t, t.open_elements[0], n);
    if u.small() {
        assert(t.sturdy() && rooted(t.document, t.open_elements)) by {
            reveal(BuilderModel::live);
        }
        assert forall|i: int| 0 <= i < t.open_elements.len() implies inside(
            t.document,
            #[trigger] t.open_elements[i],
        ) by {}
        lemma_lists_kept(t, u.document, t.open_elements[0]);
        lemma_stack_take(u.document, t.open_elements, t.head(), n);
        lemma_stack_kept_take(t.document, t.open_elements, n);
        assert forall|i: int| 0 <= i < u.open_elements.len() implies tag_of(
            u.document.kind(#[trigger] u.open_elements[i]),
        ) == tag_of(t.document.kind(u.open_elements[i])) by {
            assert(u.open_elements[i] == t.open_elements[i]);
        }
        lemma_templates_kept(t.document, u.document, u.open_elements);
        lemma_live_changed(t, u);
    } else {
        reveal(BuilderModel::live);
    }
}

/// Popping one element that is loose keeps the structure.
pub proof fn lemma_live_pop(t: BuilderModel)
    requires
        t.live(),
        t.small() ==> t.open_elements.len() >= 3 && !structural(
            part_at(t.document, t.open_elements, t.open_elements.len() - 1),
        ),
    ensures
        t.pop().live(),
{
    if t.open_elements.len() > 0 {
        let n = t.open_elements.len() - 1;
        assert(t.pop_to(n) == t.pop()) by {
            reveal_with_fuel(BuilderModel::pop_to, 2);
        }
        if t.small() {
            lemma_live_pop_to(t, n);
        } else {
            lemma_frame_pop(t, t.open_elements[0]);
            reveal(BuilderModel::live);
        }
    }
}

// ---- Reaching elements on the stack ----

impl BuilderModel {
    /// An element of that name is open, and neither a table nor a template in it.
    pub open spec fn reaches(self, name: Seq<char>) -> bool {
        exists|i: int| #[trigger] self.reaches_at(name, i)
    }

    pub open spec fn reaches_at(self, name: Seq<char>, i: int) -> bool {
        &&& 0 <= i < self.open_elements.len()
        &&& html_name(self.document.kind(self.open_elements[i])) == Some(name)
        &&& nothing_above(self.document, self.open_elements, i)
    }
}

/// No table, no template and no `html` element stands after the entry.
pub open spec fn nothing_above(d: DocumentModel, stack: Seq<NodeId>, i: int) -> bool {
    forall|j: int|
        i < j < stack.len() ==> !(#[trigger] part_at(d, stack, j) is Table) && !(part_at(
            d,
            stack,
            j,
        ) is Template) && !(part_at(d, stack, j) is Html)
}

/// What is in scope can be reached.
pub broadcast proof fn lemma_in_scope_reaches(t: BuilderModel, name: Seq<char>, scope: Scope)
    requires
        #[trigger] t.in_specific_scope(name, scope),
    ensures
        t.reaches(name),
{
    reveal(in_scope);
    let d = t.document;
    let stack = t.open_elements;
    let i = choose|i: int|
        0 <= i < stack.len() && html_name(d.kind(#[trigger] stack[i])) == Some(name)
            && clear_below(d, stack, i, scope);
    lemma_clear_below(d, stack, i, scope);
    assert(t.reaches_at(name, i));
}

/// An error changes nothing of that.
pub broadcast proof fn lemma_error_reaches(t: BuilderModel, kind: ParseErrorKind, name: Seq<char>)
    requires
        t.reaches(name),
    ensures
        #[trigger] t.error(kind).reaches(name),
{
    let i = choose|i: int| #[trigger] t.reaches_at(name, i);
    assert(t.error(kind).reaches_at(name, i));
}

pub proof fn lemma_clear_below(d: DocumentModel, stack: Seq<NodeId>, i: int, scope: Scope)
    requires
        clear_below(d, stack, i, scope),
    ensures
        nothing_above(d, stack, i),
{
    assert forall|j: int| i < j < stack.len() implies !(#[trigger] part_at(d, stack, j) is Table)
        && !(part_at(d, stack, j) is Template) && !(part_at(d, stack, j) is Html) by {
        assert(!bounds_scope(d.kind(stack[j]), scope));
        lemma_part_bounds(d.kind(stack[j]), scope);
    }
}

/// Above an element that is no part, and with no table or template above it, nothing
/// holds the structure together.
pub proof fn lemma_loose(d: DocumentModel, stack: Seq<NodeId>, head: NodeId, i: int, j: int)
    requires
        stack_fits(d, stack, head),
        2 <= i <= j < stack.len(),
        !structural(part_at(d, stack, i)),
        nothing_above(d, stack, i),
    ensures
        !structural(part_at(d, stack, j)),
    decreases j,
{
    if i < j {
        lemma_loose(d, stack, head, i, j - 1);
        assert(inner_fits(d, stack, j));
        assert(!(part_at(d, stack, j) is Table));
    }
}

pub proof fn lemma_loose_from(t: BuilderModel, i: int)
    requires
        t.small(),
        t.live(),
        0 <= i < t.open_elements.len(),
        part_at(t.document, t.open_elements, i) is Other,
        nothing_above(t.document, t.open_elements, i),
    ensures
        loose_from(t.document, t.open_elements, i),
{
    reveal(BuilderModel::live);
    let d = t.document;
    let stack = t.open_elements;
    assert(i >= 2);
    assert forall|j: int| i <= j < stack.len() implies !structural(
        #[trigger] part_at(d, stack, j),
    ) by {
        lemma_loose(d, stack, t.head(), i, j);
    }
}

/// The last element of a name stands no lower than any other.
pub proof fn lemma_last_named_is_last(
    d: DocumentModel,
    stack: Seq<NodeId>,
    name: Seq<char>,
    i: int,
)
    requires
        0 <= i < stack.len(),
        html_name(d.kind(stack[i])) == Some(name),
    ensures
        last_named(d, stack, name) matches Some(k) && i <= k < stack.len() && html_name(
            d.kind(stack[k]),
        ) == Some(name),
    decreases stack.len(),
{
    if html_name(d.kind(stack.last())) != Some(name) {
        assert(stack.drop_last()[i] == stack[i]);
        lemma_last_named_is_last(d, stack.drop_last(), name, i);
        let k = last_named(d, stack.drop_last(), name)->0;
        assert(stack.drop_last()[k] == stack[k]);
    }
}

/// The same, for the elements of a group.
pub proof fn lemma_last_in_group_is_last(
    d: DocumentModel,
    stack: Seq<NodeId>,
    group: Group,
    i: int,
)
    requires
        0 <= i < stack.len(),
        kind_in_group(d.kind(stack[i]), group),
    ensures
        last_in_group(d, stack, group) matches Some(k) && i <= k < stack.len() && kind_in_group(
            d.kind(stack[k]),
            group,
        ) && forall|j: int|
            k < j < stack.len() ==> !kind_in_group(d.kind(#[trigger] stack[j]), group),
    decreases stack.len(),
{
    if !kind_in_group(d.kind(stack.last()), group) {
        let rest = stack.drop_last();
        assert(rest[i] == stack[i]);
        lemma_last_in_group_is_last(d, rest, group, i);
        let k = last_in_group(d, rest, group)->0;
        assert(rest[k] == stack[k]);
        assert forall|j: int| k < j < stack.len() implies !kind_in_group(
            d.kind(#[trigger] stack[j]),
            group,
        ) by {
            if j < rest.len() {
                assert(rest[j] == stack[j]);
            }
        }
    }
}

/// Popping up to an element that can be reached keeps the structure.
pub broadcast proof fn live_pop_until(t: BuilderModel, name: Seq<char>)
    requires
        t.live(),
        t.reaches(name),
        part_named(name) is Other,
    ensures
        #[trigger] t.pop_until(name).live(),
{
    let i = choose|i: int| #[trigger] t.reaches_at(name, i);
    lemma_last_named_is_last(t.document, t.open_elements, name, i);
    let k = last_named(t.document, t.open_elements, name)->0;
    if t.small() {
        assert(nothing_above(t.document, t.open_elements, k)) by {
            assert forall|j: int| k < j < t.open_elements.len() implies !(#[trigger] part_at(
                t.document,
                t.open_elements,
                j,
            ) is Table) && !(part_at(t.document, t.open_elements, j) is Template) && !(part_at(
                t.document,
                t.open_elements,
                j,
            ) is Html) by {}
        }
        lemma_loose_from(t, k);
    }
    lemma_live_pop_to(t, k);
}

/// What the implied end tags pop.
pub proof fn lemma_implied(
    d: DocumentModel,
    stack: Seq<NodeId>,
    group: Group,
    exclude: Option<Seq<char>>,
)
    ensures
        ({
            let n = length_without_implied(d, stack, group, exclude);
            &&& 0 <= n <= stack.len()
            &&& forall|i: int|
                n <= i < stack.len() ==> kind_in_group(d.kind(#[trigger] stack[i]), group)
                    && !is_called(d, stack[i], exclude)
        }),
    decreases stack.len(),
{
    if stack.len() > 0 && !is_called(d, stack.last(), exclude) && kind_in_group(
        d.kind(stack.last()),
        group,
    ) {
        let rest = stack.drop_last();
        lemma_implied(d, rest, group, exclude);
        let n = length_without_implied(d, stack, group, exclude);
        assert forall|i: int| n <= i < stack.len() implies kind_in_group(
            d.kind(#[trigger] stack[i]),
            group,
        ) && !is_called(d, stack[i], exclude) by {
            if i < rest.len() {
                assert(rest[i] == stack[i]);
            }
        }
    }
}

proof fn lemma_implied_is_loose(t: BuilderModel, exclude: Option<Seq<char>>)
    requires
        t.small(),
        t.live(),
    ensures
        ({
            let n = length_without_implied(
                t.document,
                t.open_elements,
                Group::ImpliedEndTags,
                exclude,
            );
            0 <= n <= t.open_elements.len() && loose_from(t.document, t.open_elements, n)
        }),
{
    reveal(BuilderModel::live);
    let d = t.document;
    let stack = t.open_elements;
    lemma_implied(d, stack, Group::ImpliedEndTags, exclude);
    let n = length_without_implied(d, stack, Group::ImpliedEndTags, exclude);
    assert forall|i: int| n <= i < stack.len() implies part_at(d, stack, i) is Other by {
        assert(kind_in_group(d.kind(stack[i]), Group::ImpliedEndTags));
        lemma_part_groups(d.kind(stack[i]));
    }
    assert forall|i: int| n <= i < stack.len() implies !structural(
        #[trigger] part_at(d, stack, i),
    ) by {}
    assert(n > 1);
}

/// The end tags that are implied keep the structure.
pub broadcast proof fn live_generate_implied_end_tags(
    t: BuilderModel,
    exclude: Option<Seq<char>>,
)
    requires
        t.live(),
    ensures
        #[trigger] t.generate_implied_end_tags(exclude).live(),
{
    lemma_implied(t.document, t.open_elements, Group::ImpliedEndTags, exclude);
    let n = length_without_implied(
        t.document,
        t.open_elements,
        Group::ImpliedEndTags,
        exclude,
    );
    if t.small() {
        lemma_implied_is_loose(t, exclude);
    }
    lemma_live_pop_to(t, n);
}

/// What can be reached can still be reached after implied end tags, unless its own
/// is one of them.
pub proof fn lemma_reaches_after_implied(
    t: BuilderModel,
    name: Seq<char>,
    exclude: Option<Seq<char>>,
)
    requires
        t.live(),
        t.reaches(name),
        !in_implied_end_tags(name) || exclude == Some(name),
        t.generate_implied_end_tags(exclude).small(),
    ensures
        t.generate_implied_end_tags(exclude).reaches(name),
{
    let d = t.document;
    let stack = t.open_elements;
    let u = t.generate_implied_end_tags(exclude);
    let n = length_without_implied(d, stack, Group::ImpliedEndTags, exclude);
    lemma_implied(d, stack, Group::ImpliedEndTags, exclude);
    lemma_frame_pop_to(t, stack[0], n);
    assert(t.sturdy()) by {
        reveal(BuilderModel::live);
    }
    let i = choose|i: int| #[trigger] t.reaches_at(name, i);
    assert(i < n) by {
        if i >= n {
            assert(kind_in_group(d.kind(stack[i]), Group::ImpliedEndTags));
        }
    }
    assert forall|j: int| 0 <= j < stack.len() implies inside(d, #[trigger] stack[j]) by {}
    assert forall|j: int| 0 <= j < n implies tag_of(u.document.kind(#[trigger] u.open_elements[j]))
        == tag_of(d.kind(stack[j])) by {
        assert(u.open_elements[j] == stack[j]);
        assert(inside(d, stack[j]));
    }
    assert(u.open_elements[i] == stack[i]);
    assert forall|j: int| i < j < u.open_elements.len() implies !(#[trigger] part_at(
        u.document,
        u.open_elements,
        j,
    ) is Table) && !(part_at(u.document, u.open_elements, j) is Template) && !(part_at(
        u.document,
        u.open_elements,
        j,
    ) is Html) by {
        assert(u.open_elements[j] == stack[j]);
        assert(!(part_at(d, stack, j) is Table));
    }
    assert(u.reaches_at(name, i));
}

/// Closing an element that can be reached keeps the structure.
pub broadcast proof fn live_close_element(
    t: BuilderModel,
    name: Seq<char>,
    exclude: Option<Seq<char>>,
)
    requires
        t.live(),
        t.small() ==> t.reaches(name),
        part_named(name) is Other,
        !in_implied_end_tags(name) || exclude == Some(name),
    ensures
        #[trigger] t.close_element(name, exclude).live(),
{
    reveal(BuilderModel::close_element);
    let u = t.generate_implied_end_tags(exclude);
    let v = if u.current_is(name) {
        u
    } else {
        u.error(ParseErrorKind::ImpliedEndTagWithUnclosedElements)
    };
    live_generate_implied_end_tags(t, exclude);
    lemma_implied(t.document, t.open_elements, Group::ImpliedEndTags, exclude);
    lemma_frame_pop_to(
        t,
        t.open_elements[0],
        length_without_implied(t.document, t.open_elements, Group::ImpliedEndTags, exclude),
    );
    live_error(u, ParseErrorKind::ImpliedEndTagWithUnclosedElements);
    if u.small() {
        lemma_reaches_after_implied(t, name, exclude);
        let i = choose|i: int| #[trigger] u.reaches_at(name, i);
        assert(v.reaches_at(name, i));
        live_pop_until(v, name);
    } else {
        lemma_pop_until_length(v, name);
        reveal(BuilderModel::live);
    }
}

pub proof fn lemma_pop_until_length(t: BuilderModel, name: Seq<char>)
    ensures
        t.document.nodes.len() <= t.pop_until(name).document.nodes.len(),
{
    lemma_last_named(t.document, t.open_elements, name);
    match last_named(t.document, t.open_elements, name) {
        Some(k) => {
            lemma_frame_pop_to(t, t.open_elements[0], k);
        },
        None => {
            lemma_frame_pop_to(t, t.open_elements[0], 0);
        },
    }
}

// ---- Flags and lists ----

pub broadcast proof fn live_error(t: BuilderModel, kind: ParseErrorKind)
    requires
        t.live(),
    ensures
        #[trigger] t.error(kind).live(),
{
    reveal(BuilderModel::live);
}

pub broadcast proof fn live_error_at(t: BuilderModel, kind: ParseErrorKind, position: Position)
    requires
        t.live(),
    ensures
        #[trigger] t.error_at(kind, position).live(),
{
    reveal(BuilderModel::live);
}

pub broadcast proof fn live_set_frameset_ok(t: BuilderModel, value: bool)
    requires
        t.live(),
    ensures
        #[trigger] t.set_frameset_ok(value).live(),
{
    reveal(BuilderModel::live);
}

pub broadcast proof fn live_set_skip_next_line_feed(t: BuilderModel, value: bool)
    requires
        t.live(),
    ensures
        #[trigger] t.set_skip_next_line_feed(value).live(),
{
    reveal(BuilderModel::live);
}

pub broadcast proof fn live_set_foster_parenting(t: BuilderModel, value: bool)
    requires
        t.live(),
    ensures
        #[trigger] t.set_foster_parenting(value).live(),
{
    reveal(BuilderModel::live);
}

pub broadcast proof fn live_acknowledge_self_closing(t: BuilderModel)
    requires
        t.live(),
    ensures
        #[trigger] t.acknowledge_self_closing().live(),
{
    reveal(BuilderModel::live);
}

pub broadcast proof fn live_forget_form(t: BuilderModel)
    requires
        t.live(),
    ensures
        #[trigger] t.forget_form().live(),
{
    reveal(BuilderModel::live);
}

pub broadcast proof fn live_hold_back(t: BuilderModel, c: char)
    requires
        t.live(),
    ensures
        #[trigger] t.hold_back(c).live(),
{
    reveal(BuilderModel::live);
}

pub broadcast proof fn live_forget_held_back(t: BuilderModel)
    requires
        t.live(),
    ensures
        #[trigger] t.forget_held_back().live(),
{
    reveal(BuilderModel::live);
}

pub broadcast proof fn live_at(t: BuilderModel, position: Position)
    requires
        t.live(),
    ensures
        #[trigger] t.at(position).live(),
{
    reveal(BuilderModel::live);
}

/// A change of the list of active formatting elements alone.
pub proof fn lemma_live_formatting(t: BuilderModel, entries: Seq<FormattingEntry>)
    requires
        t.live(),
        t.small() ==> formatting_fits(t.document, entries),
    ensures
        (BuilderModel { formatting: entries, ..t }).live(),
{
    reveal(BuilderModel::live);
}

pub broadcast proof fn live_push_marker(t: BuilderModel)
    requires
        t.live(),
    ensures
        #[trigger] t.push_marker().live(),
{
    reveal(BuilderModel::live);
    let entries = t.formatting.push(FormattingEntry::Marker);
    if t.small() {
        assert forall|i: int| 0 <= i < entries.len() implies entry_fits(
            t.document,
            #[trigger] entries[i],
        ) by {
            if i < t.formatting.len() {
                assert(entry_fits(t.document, t.formatting[i]));
            }
        }
    }
    lemma_live_formatting(t, entries);
}

pub broadcast proof fn live_clear_to_marker(t: BuilderModel)
    requires
        t.live(),
    ensures
        #[trigger] t.clear_to_marker().live(),
{
    reveal(BuilderModel::live);
    lemma_after_last_marker(t.formatting);
    let entries = cleared_to_marker(t.formatting);
    if t.small() {
        assert forall|i: int| 0 <= i < entries.len() implies entry_fits(
            t.document,
            #[trigger] entries[i],
        ) by {
            assert(entry_fits(t.document, t.formatting[i]));
        }
    }
    lemma_live_formatting(t, entries);
}

/// The current node becomes an active formatting element.
pub broadcast proof fn live_push_formatting(t: BuilderModel)
    requires
        t.live(),
        t.small() ==> t.current_is_plain(),
    ensures
        #[trigger] t.push_formatting().live(),
{
    reveal(BuilderModel::live);
    reveal(BuilderModel::push_formatting);
    match t.current_node() {
        Some(node) => {
            let start = after_last_marker(t.formatting);
            lemma_after_last_marker(t.formatting);
            lemma_first_alike(t.document, t.formatting, start, node);
            let entries = with_formatting(t.document, t.formatting, node);
            if t.small() {
                let k = first_alike(t.document, t.formatting, start, node);
                let many = count_alike(t.document, t.formatting, start, node) >= 3;
                assert forall|i: int| 0 <= i < entries.len() implies entry_fits(
                    t.document,
                    #[trigger] entries[i],
                ) by {
                    if i < entries.len() - 1 {
                        let j = if many && i >= k {
                            i + 1
                        } else {
                            i
                        };
                        assert(entries[i] == t.formatting[j]);
                        assert(entry_fits(t.document, t.formatting[j]));
                    }
                }
            }
            lemma_live_formatting(t, entries);
        },
        None => {},
    }
}

impl BuilderModel {
    /// The current node is an HTML element that plays no part.
    pub open spec fn current_is_plain(self) -> bool {
        &&& self.open_elements.len() >= 3
        &&& inside(self.document, self.open_elements.last())
        &&& html_name(self.document.kind(self.open_elements.last())) matches Some(name)
            && part_named(name) is Other
    }
}

/// The current node becomes the `form` element.
pub broadcast proof fn live_remember_form(t: BuilderModel)
    requires
        t.live(),
        t.small() ==> t.current_is_plain(),
    ensures
        #[trigger] t.remember_form().live(),
{
    reveal(BuilderModel::live);
}

// ---- Places ----

/// Nothing goes into the document node or the `html` element itself.
pub proof fn lemma_location(t: BuilderModel, target: Option<NodeId>)
    requires
        t.small(),
        t.sturdy(),
        t.open_elements.len() >= 2,
        target matches Some(node) ==> exists|k: int|
            1 <= k < t.open_elements.len() && #[trigger] t.open_elements[k] == node,
    ensures
        inside(t.document, t.location(target).parent),
        t.location(target).parent != t.document.root,
        t.location(target).parent != t.open_elements[0],
{
    reveal(BuilderModel::location);
    let d = t.document;
    let stack = t.open_elements;
    let k = match target {
        Some(node) => choose|k: int| 1 <= k < stack.len() && #[trigger] stack[k] == node,
        None => stack.len() - 1,
    };
    let node = stack[k];
    assert(inside(d, node));
    assert(tag_of(d.kind(node)) is Some);
    let outer = if t.foster_parenting && kind_in_group(d.kind(node), Group::FosterTargets) {
        t.foster_location()
    } else {
        InsertionLocation { parent: node, before: None }
    };
    assert(inside(d, outer.parent) && outer.parent != d.root && outer.parent != stack[0]) by {
        if t.foster_parenting && kind_in_group(d.kind(node), Group::FosterTargets) {
            lemma_part_groups(d.kind(node));
            lemma_foster(t, k);
        }
    }
    match template_contents(d, outer.parent) {
        Some(contents) => {
            assert(kin_of(d, outer.parent));
            assert(contents == d.children(outer.parent)[0]);
            assert(tag_of(d.kind(stack[0])) is Some);
        },
        None => {},
    }
}

/// Where a table or a part of one is open, so is a table or a template.
pub proof fn lemma_grounded(d: DocumentModel, stack: Seq<NodeId>, head: NodeId, k: int)
    requires
        stack_fits(d, stack, head),
        1 <= k < stack.len(),
        structural(part_at(d, stack, k)),
    ensures
        holds_part(d, stack, Part::Table) || holds_part(d, stack, Part::Template),
    decreases k,
{
    if !(part_at(d, stack, k) is Table) && !(part_at(d, stack, k) is Template) {
        assert(k >= 2);
        assert(inner_fits(d, stack, k));
        assert(context_fits(part_at(d, stack, k), part_at(d, stack, k - 1)));
        assert(structural(part_at(d, stack, k - 1)));
        lemma_grounded(d, stack, head, k - 1);
    }
}

proof fn lemma_foster(t: BuilderModel, k: int)
    requires
        t.small(),
        t.sturdy(),
        1 <= k < t.open_elements.len(),
        structural(part_at(t.document, t.open_elements, k)),
    ensures
        inside(t.document, t.foster_location().parent),
        t.foster_location().parent != t.document.root,
        t.foster_location().parent != t.open_elements[0],
{
    let d = t.document;
    let stack = t.open_elements;
    lemma_grounded(d, stack, t.head(), k);
    lemma_last_named(d, stack, "template"@);
    lemma_last_named(d, stack, "table"@);
    lemma_part_named("template"@);
    lemma_part_named("table"@);
    assert forall|i: int| 0 <= i < stack.len() implies (part_at(d, stack, i) is Table <==> html_name(
        d.kind(#[trigger] stack[i]),
    ) == Some("table"@)) && (part_at(d, stack, i) is Template <==> html_name(d.kind(stack[i]))
        == Some("template"@)) by {
        match html_name(d.kind(stack[i])) {
            Some(name) => {
                lemma_part_named(name);
            },
            None => {},
        }
    }
    assert forall|i: int| 0 <= i < stack.len() implies inside(d, #[trigger] stack[i]) && tag_of(
        d.kind(stack[i]),
    ) is Some by {}
    match last_named(d, stack, "template"@) {
        Some(i) => {
            assert(part_at(d, stack, i) is Template);
            assert(inside(d, stack[i]));
        },
        None => {
            assert(holds_part(d, stack, Part::Table));
        },
    }
    match last_named(d, stack, "table"@) {
        Some(j) => {
            assert(part_at(d, stack, j) is Table);
            assert(j >= 2);
            assert(inside(d, stack[j]));
            assert(inside(d, stack[j - 1]));
            assert(kin_of(d, stack[j]));
            match d.parent(stack[j]) {
                Some(p) => {
                    lemma_element_child(d, p, stack[j]);
                    if p == stack[0] || p == d.root {
                        let list = element_children(d, p);
                        assert(list.contains(stack[j]));
                        let x = choose|x: int| 0 <= x < list.len() && list[x] == stack[j];
                    }
                },
                None => {},
            }
        },
        None => {},
    }
}

// ---- Insertion ----

/// What inserting an element does to the stack and to the names of nodes.
pub proof fn lemma_inserted(
    t: BuilderModel,
    tag: TagModel,
    namespace: Seq<char>,
    position: Option<Position>,
)
    requires
        namespace != HTML_NAMESPACE@ || !(part_named(tag.name) is Template),
    ensures
        ({
            let u = t.insert_foreign_element(tag, namespace, position);
            &&& u == BuilderModel {
                document: u.document,
                open_elements: t.open_elements.push(t.document.next_id()),
                ..t
            }
            &&& u.document.nodes.len() == t.document.nodes.len() + 1
        }),
{
    reveal(BuilderModel::insert_foreign_element);
    reveal(BuilderModel::create_element);
    lemma_part_named(tag.name);
}

/// The new element is what the tag says.
pub proof fn lemma_inserted_kind(
    t: BuilderModel,
    tag: TagModel,
    namespace: Seq<char>,
    position: Option<Position>,
)
    requires
        namespace != HTML_NAMESPACE@ || !(part_named(tag.name) is Template),
        t.document.nodes.len() < usize::MAX,
    ensures
        ({
            let u = t.insert_foreign_element(tag, namespace, position);
            let id = t.document.next_id();
            &&& u.document.kind(id) == element_for(tag, namespace)
            &&& inside(u.document, id)
            &&& namespace == HTML_NAMESPACE@ ==> html_name(u.document.kind(id)) == Some(tag.name)
            &&& namespace != HTML_NAMESPACE@ ==> part_of(u.document.kind(id)) is Other
        }),
{
    reveal(BuilderModel::insert_foreign_element);
    reveal(BuilderModel::create_element);
    lemma_part_named(tag.name);
}

/// Inserting an element that plays no part, or a table, keeps the structure.
pub broadcast proof fn live_insert_foreign_element(
    t: BuilderModel,
    tag: TagModel,
    namespace: Seq<char>,
    position: Option<Position>,
)
    requires
        t.live(),
        namespace != HTML_NAMESPACE@ || part_named(tag.name) is Other || part_named(tag.name)
            is Table,
    ensures
        #[trigger] t.insert_foreign_element(tag, namespace, position).live(),
{
    let u = t.insert_foreign_element(tag, namespace, position);
    lemma_inserted(t, tag, namespace, position);
    if u.small() {
        assert(t.sturdy() && rooted(t.document, t.open_elements)) by {
            reveal(BuilderModel::live);
        }
        let html = t.open_elements[0];
        lemma_inserted_frame(t, tag, namespace, position, html);
        lemma_inserted_kind(t, tag, namespace, position);
        lemma_lists_kept(t, u.document, html);
        let id = t.document.next_id();
        assert(!t.open_elements.contains(id));
        lemma_stack_push(t.document, u.document, t.open_elements, t.head(), id);
        lemma_live_changed(t, u);
    } else {
        reveal(BuilderModel::live);
    }
}

/// Inserting an element leaves the frame alone.
pub proof fn lemma_inserted_frame(
    t: BuilderModel,
    tag: TagModel,
    namespace: Seq<char>,
    position: Option<Position>,
    html: NodeId,
)
    requires
        namespace != HTML_NAMESPACE@ || !(part_named(tag.name) is Template),
        t.document.nodes.len() < usize::MAX,
        t.sturdy(),
        t.open_elements.len() >= 2,
        html == t.open_elements[0],
    ensures
        frame_kept(
            t.document,
            t.insert_foreign_element(tag, namespace, position).document,
            html,
        ),
        !inside(t.document, t.document.next_id()),
{
    reveal(BuilderModel::insert_foreign_element);
    reveal(BuilderModel::create_element);
    lemma_part_named(tag.name);
    lemma_location(t, None);
    let d = t.document;
    assert(inside(d, html));
    let kind = element_for(tag, namespace);
    let e = d.new_node(kind, position);
    let location = t.location(None);
    lemma_frame_new_node(d, kind, position, html);
    lemma_frame_insert(e, location.parent, location.before, d.next_id(), html);
    lemma_frame_kept_twice(
        d,
        e,
        e.insert_before(location.parent, location.before, d.next_id()),
        html,
    );
}

pub broadcast proof fn live_insert_html_element(
    t: BuilderModel,
    tag: TagModel,
    position: Option<Position>,
)
    requires
        t.live(),
        part_named(tag.name) is Other || part_named(tag.name) is Table,
    ensures
        #[trigger] t.insert_html_element(tag, position).live(),
        part_named(tag.name) is Other ==> t.insert_html_element(tag, position).small()
            ==> t.insert_html_element(tag, position).current_is_plain(),
{
    live_insert_foreign_element(t, tag, HTML_NAMESPACE@, position);
    lemma_inserted(t, tag, HTML_NAMESPACE@, position);
    let u = t.insert_html_element(tag, position);
    if u.small() {
        lemma_inserted_kind(t, tag, HTML_NAMESPACE@, position);
        reveal(BuilderModel::live);
    }
}

pub broadcast proof fn live_insert_here(t: BuilderModel, tag: TagModel)
    requires
        t.live(),
        part_named(tag.name) is Other || part_named(tag.name) is Table,
    ensures
        #[trigger] t.insert_here(tag).live(),
        part_named(tag.name) is Other ==> t.insert_here(tag).small() ==> t.insert_here(
            tag,
        ).current_is_plain(),
{
    live_insert_html_element(t, tag, Some(t.token_position));
}

pub broadcast proof fn live_insert_foreign_here(
    t: BuilderModel,
    tag: TagModel,
    namespace: Seq<char>,
)
    requires
        t.live(),
        namespace != HTML_NAMESPACE@,
    ensures
        #[trigger] t.insert_foreign_here(tag, namespace).live(),
        t.insert_foreign_here(tag, namespace).small() ==> t.insert_foreign_here(
            tag,
            namespace,
        ).open_elements.len() >= 3 && part_at(
            t.insert_foreign_here(tag, namespace).document,
            t.insert_foreign_here(tag, namespace).open_elements,
            t.insert_foreign_here(tag, namespace).open_elements.len() - 1,
        ) is Other,
{
    let position = Some(t.token_position);
    live_insert_foreign_element(t, tag, namespace, position);
    lemma_inserted(t, tag, namespace, position);
    let u = t.insert_foreign_here(tag, namespace);
    if u.small() {
        lemma_inserted_kind(t, tag, namespace, position);
        reveal(BuilderModel::live);
    }
}

/// A node that is no element goes anywhere without harm.
pub proof fn lemma_live_new_node_at(
    t: BuilderModel,
    kind: KindModel,
    position: Option<Position>,
    location: InsertionLocation,
)
    requires
        t.live(),
        !(kind is Element),
        t.small() ==> inside(t.document, location.parent),
    ensures
        t.new_node_at(kind, position, location).live(),
{
    let u = t.new_node_at(kind, position, location);
    let d = t.document;
    if u.small() {
        assert(t.sturdy()) by {
            reveal(BuilderModel::live);
        }
        let html = t.open_elements[0];
        assert(inside(d, html));
        let e = d.new_node(kind, position);
        lemma_frame_new_node(d, kind, position, html);
        lemma_frame_insert(e, location.parent, location.before, d.next_id(), html);
        lemma_frame_kept_twice(d, e, u.document, html);
        lemma_live_document(t, u);
    } else {
        reveal(BuilderModel::live);
    }
}

pub broadcast proof fn live_insert_character(t: BuilderModel, c: char, position: Option<Position>)
    requires
        t.live(),
    ensures
        #[trigger] t.insert_character(c, position).live(),
{
    reveal(BuilderModel::insert_character);
    let location = t.location(None);
    if t.small() {
        assert(t.sturdy() && t.open_elements.len() >= 2) by {
            reveal(BuilderModel::live);
        }
        lemma_location(t, None);
    }
    lemma_live_new_node_at(t, KindModel::Text { content: seq![c] }, position, location);
    match t.node_before(location) {
        Some(node) => {
            let u = BuilderModel { document: t.document.push_text(node, c), ..t };
            if u.small() {
                assert(t.sturdy()) by {
                    reveal(BuilderModel::live);
                }
                assert(inside(t.document, t.open_elements[0]));
                lemma_frame_push_text(t.document, node, c, t.open_elements[0]);
                lemma_live_document(t, u);
            } else {
                reveal(BuilderModel::live);
            }
        },
        None => {},
    }
}

pub broadcast proof fn live_char_here(t: BuilderModel, c: char)
    requires
        t.live(),
    ensures
        #[trigger] t.char_here(c).live(),
{
    live_insert_character(t, c, Some(t.token_position));
}

pub broadcast proof fn live_insert_node(
    t: BuilderModel,
    kind: KindModel,
    position: Option<Position>,
)
    requires
        t.live(),
        !(kind is Element),
    ensures
        #[trigger] t.insert_node(kind, position).live(),
{
    reveal(BuilderModel::insert_node);
    if t.small() {
        assert(t.sturdy() && t.open_elements.len() >= 2) by {
            reveal(BuilderModel::live);
        }
        lemma_location(t, None);
    }
    lemma_live_new_node_at(t, kind, position, t.location(None));
}

pub broadcast proof fn live_append_to_document(t: BuilderModel, kind: KindModel)
    requires
        t.live(),
        !(kind is Element),
    ensures
        #[trigger] t.append_to_document(kind).live(),
{
    reveal(BuilderModel::append_to_document);
    let location = InsertionLocation { parent: t.document.root, before: None };
    assert(t.small() ==> inside(t.document, t.document.root)) by {
        reveal(BuilderModel::live);
    }
    lemma_live_new_node_at(t, kind, Some(t.token_position), location);
}

pub broadcast proof fn live_append_to_html(t: BuilderModel, kind: KindModel)
    requires
        t.live(),
        !(kind is Element),
    ensures
        #[trigger] t.append_to_html(kind).live(),
{
    reveal(BuilderModel::append_to_html);
    let location = InsertionLocation {
        parent: if t.open_elements.len() == 0 {
            t.document.root
        } else {
            t.open_elements[0]
        },
        before: None,
    };
    assert(t.small() ==> inside(t.document, location.parent)) by {
        reveal(BuilderModel::live);
    }
    lemma_live_new_node_at(t, kind, Some(t.token_position), location);
}

pub broadcast proof fn live_merge_attributes(t: BuilderModel, n: int, tag: TagModel)
    requires
        t.live(),
    ensures
        #[trigger] t.merge_attributes(n, tag).live(),
{
    reveal(BuilderModel::merge_attributes);
    let u = t.merge_attributes(n, tag);
    if n < t.open_elements.len() {
        if u.small() {
            assert(t.sturdy()) by {
                reveal(BuilderModel::live);
            }
            assert(inside(t.document, t.open_elements[0]));
            lemma_frame_merge(t.document, t.open_elements[n], tag.attributes, t.open_elements[0]);
            lemma_live_document(t, u);
        } else {
            reveal(BuilderModel::live);
        }
    }
}

// ---- Active formatting elements ----

/// Opening an active formatting element again keeps the structure.
pub proof fn live_reopen(t: BuilderModel, i: int)
    requires
        t.live(),
        0 <= i < t.formatting.len(),
    ensures
        t.reopen(i).live(),
        t.reopen(i).formatting.len() == t.formatting.len(),
{
    match t.formatting[i] {
        FormattingEntry::Element(node) => {
            let tag = tag_for(t.document.kind(node));
            let u = t.insert_html_element(tag, None);
            assert(t.small() ==> part_named(tag.name) is Other) by {
                reveal(BuilderModel::live);
                if t.small() {
                    assert(entry_fits(t.document, t.formatting[i]));
                }
            }
            if t.small() {
                live_insert_html_element(t, tag, None);
                lemma_inserted(t, tag, HTML_NAMESPACE@, None);
                let entries = u.formatting.update(
                    i,
                    FormattingEntry::Element(u.open_elements.last()),
                );
                if u.small() {
                    reveal(BuilderModel::live);
                    assert forall|j: int| 0 <= j < entries.len() implies entry_fits(
                        u.document,
                        #[trigger] entries[j],
                    ) by {
                        if j != i {
                            assert(entry_fits(u.document, u.formatting[j]));
                        }
                    }
                }
                lemma_live_formatting(u, entries);
            } else {
                reveal(BuilderModel::insert_foreign_element);
                reveal(BuilderModel::create_element);
                reveal(BuilderModel::live);
            }
        },
        FormattingEntry::Marker => {},
    }
}

proof fn live_reopen_from(t: BuilderModel, i: int, n: int)
    requires
        t.live(),
        0 <= i,
        n <= t.formatting.len(),
    ensures
        t.reopen_from(i, n).live(),
    decreases n - i,
{
    if i < n {
        live_reopen(t, i);
        live_reopen_from(t.reopen(i), i + 1, n);
    }
}

pub proof fn lemma_closed_from_range(entries: Seq<FormattingEntry>, stack: Seq<NodeId>)
    ensures
        0 <= closed_from(entries, stack) <= entries.len(),
    decreases entries.len(),
{
    if entries.len() > 0 {
        lemma_closed_from_range(entries.drop_last(), stack);
    }
}

pub broadcast proof fn live_reconstruct_formatting(t: BuilderModel)
    requires
        t.live(),
    ensures
        #[trigger] t.reconstruct_formatting().live(),
{
    reveal(BuilderModel::reconstruct_formatting);
    lemma_closed_from_range(t.formatting, t.open_elements);
    live_reopen_from(
        t,
        closed_from(t.formatting, t.open_elements),
        t.formatting.len() as int,
    );
}

// ---- Shared steps ----

pub broadcast proof fn live_insert_active(t: BuilderModel, tag: TagModel)
    requires
        t.live(),
        part_named(tag.name) is Other,
    ensures
        #[trigger] t.insert_active(tag).live(),
        t.insert_active(tag).small() ==> t.insert_active(tag).current_is_plain(),
{
    reveal(BuilderModel::insert_active);
    live_reconstruct_formatting(t);
    live_insert_here(t.reconstruct_formatting(), tag);
}

/// Popping the element that was just inserted.
pub proof fn live_insert_and_pop(t: BuilderModel, tag: TagModel)
    requires
        t.live(),
        part_named(tag.name) is Other,
    ensures
        t.insert_here(tag).pop().live(),
{
    live_insert_here(t, tag);
    let u = t.insert_here(tag);
    lemma_live_pop(u);
}

pub broadcast proof fn live_insert_closed(t: BuilderModel, tag: TagModel)
    requires
        t.live(),
        part_named(tag.name) is Other,
    ensures
        #[trigger] t.insert_closed(tag).live(),
{
    reveal(BuilderModel::insert_closed);
    live_insert_and_pop(t, tag);
    live_acknowledge_self_closing(t.insert_here(tag).pop());
}

pub broadcast proof fn live_insert_void(t: BuilderModel, tag: TagModel)
    requires
        t.live(),
        part_named(tag.name) is Other,
    ensures
        #[trigger] t.insert_void(tag).live(),
{
    reveal(BuilderModel::insert_void);
    live_reconstruct_formatting(t);
    let u = t.reconstruct_formatting();
    live_insert_and_pop(u, tag);
    live_acknowledge_self_closing(u.insert_here(tag).pop());
    live_set_frameset_ok(u.insert_here(tag).pop().acknowledge_self_closing(), false);
}

pub broadcast proof fn live_close_p(t: BuilderModel)
    requires
        t.live(),
    ensures
        #[trigger] t.close_p().live(),
{
    broadcast use lemma_in_scope_reaches;

    reveal(BuilderModel::close_p);
    lemma_other_names_4();
    if t.in_specific_scope("p"@, Scope::Button) {
        live_close_element(t, "p"@, Some("p"@));
    }
}

} // verus!
