//! Closing elements by name keeps the structure of the document.
use vstd::prelude::*;

use crate::document::model::{DocumentModel, NodeId};
use crate::token::{ParseErrorKind, TagModel};
use crate::tree_builder::elements::{html_name, kind_in_group, tag_of, Group, Scope};
use crate::tree_builder::frame::frame_kept;
use crate::tree_builder::model::{BuilderModel, InsertionMode};
use crate::tree_builder::names::in_implied_end_tags;
use crate::tree_builder::parts::{
    lemma_headings_not_implied, lemma_implied_end_tags, lemma_list_item_stop_exceptions,
    lemma_other_names_1, lemma_part_bounds, lemma_part_groups, lemma_part_named, part_named,
    part_of, Part,
};
use crate::tree_builder::stack::{
    clear_below, group_in_scope, last_in_group, last_named, lemma_last_named,
    length_without_implied,
};
use crate::tree_builder::steps::item_to_close;
use crate::tree_builder::structure::{holds_part, mode_fits, part_at, rooted};
use crate::tree_builder::structure_modes::{
    can_open, lemma_clear_back, lemma_cut, lemma_last_in_group_range, lemma_leave, lemma_pop_is_cut,
    lemma_sturdy_document, lemma_template_left, lemma_template_opened, lemma_text_opened,
};
use crate::tree_builder::structure_steps::{
    lemma_clear_below, lemma_frame_pop, lemma_frame_pop_to, lemma_implied,
    lemma_last_in_group_is_last, lemma_last_named_is_last, lemma_live_pop, lemma_live_pop_to,
    lemma_loose_from, lemma_pop_until_length, lemma_reaches_after_implied, live_clear_to_marker,
    live_close_element, live_error, live_generate_implied_end_tags, live_pop_until, nothing_above,
};

verus! {

/// Popping a current node that plays no part.
pub broadcast proof fn live_pop(t: BuilderModel)
    requires
        t.live(),
        t.small() ==> part_of(t.current_kind()) is Other,
    ensures
        #[trigger] t.pop().live(),
{
    if t.small() {
        reveal(BuilderModel::live);
        let n = t.open_elements.len() - 1;
        assert(part_at(t.document, t.open_elements, n) is Other);
    }
    lemma_live_pop(t);
}

/// What comes between tokens holds where the rules of the body apply.
pub broadcast proof fn live_is_held(t: BuilderModel)
    requires
        t.live(),
    ensures
        #[trigger] t.held(),
{
    reveal(BuilderModel::live);
    reveal(BuilderModel::held);
}

pub broadcast proof fn held_set_frameset_ok(t: BuilderModel, value: bool)
    requires
        t.held(),
    ensures
        #[trigger] t.set_frameset_ok(value).held(),
{
    reveal(BuilderModel::held);
}

pub broadcast proof fn held_set_skip_next_line_feed(t: BuilderModel, value: bool)
    requires
        t.held(),
    ensures
        #[trigger] t.set_skip_next_line_feed(value).held(),
{
    reveal(BuilderModel::held);
}

pub broadcast proof fn held_set_foster_parenting(t: BuilderModel, value: bool)
    requires
        t.held(),
    ensures
        #[trigger] t.set_foster_parenting(value).held(),
{
    reveal(BuilderModel::held);
}

// ---- Items ----

proof fn lemma_item_to_close(d: DocumentModel, stack: Seq<NodeId>, definition: bool)
    ensures
        item_to_close(d, stack, definition) matches Some(name) ==> (name == "li"@ || name == "dd"@
            || name == "dt"@) && exists|i: int| #[trigger] bare_above(d, stack, i, name),
    decreases stack.len(),
{
    if stack.len() > 0 {
        let kind = d.kind(stack.last());
        let rest = stack.drop_last();
        let n = stack.len() - 1;
        lemma_part_bounds(kind, Scope::Default);
        match html_name(kind) {
            Some(name) => {
                lemma_list_item_stop_exceptions(name);
                assert(bare_above(d, stack, n, name));
            },
            None => {},
        }
        lemma_item_to_close(d, rest, definition);
        match item_to_close(d, rest, definition) {
            Some(name) => {
                let i = choose|i: int| #[trigger] bare_above(d, rest, i, name);
                assert(rest[i] == stack[i]);
                if part_of(kind) is Other {
                    assert forall|j: int| i < j < stack.len() implies #[trigger] part_at(
                        d,
                        stack,
                        j,
                    ) is Other by {
                        if j < rest.len() {
                            assert(part_at(d, rest, j) is Other);
                            assert(rest[j] == stack[j]);
                        }
                    }
                    assert(bare_above(d, stack, i, name));
                }
            },
            None => {},
        }
    }
}

/// An element of that name, with elements above it that play no part.
spec fn bare_above(d: DocumentModel, stack: Seq<NodeId>, i: int, name: Seq<char>) -> bool {
    &&& 0 <= i < stack.len()
    &&& html_name(d.kind(stack[i])) == Some(name)
    &&& forall|j: int| i < j < stack.len() ==> #[trigger] part_at(d, stack, j) is Other
}

pub broadcast proof fn live_close_list_item(t: BuilderModel, definition: bool)
    requires
        t.live(),
    ensures
        #[trigger] t.close_list_item(definition).live(),
{
    reveal(BuilderModel::close_list_item);
    lemma_item_to_close(t.document, t.open_elements, definition);
    lemma_other_names_1();
    match item_to_close(t.document, t.open_elements, definition) {
        Some(name) => {
            let i = choose|i: int| #[trigger] bare_above(t.document, t.open_elements, i, name);
            assert(t.reaches_at(name, i)) by {
                assert forall|j: int| i < j < t.open_elements.len() implies !(#[trigger] part_at(
                    t.document,
                    t.open_elements,
                    j,
                ) is Table) && !(part_at(t.document, t.open_elements, j) is Template) && !(part_at(
                    t.document,
                    t.open_elements,
                    j,
                ) is Html) by {
                    assert(part_at(t.document, t.open_elements, j) is Other);
                }
            }
            live_close_element(t, name, Some(name));
        },
        None => {},
    }
}

/// Implied end tags, and then everything up to an element.
pub proof fn live_implied_and_pop(t: BuilderModel, name: Seq<char>)
    requires
        t.live(),
        t.small() ==> t.reaches(name),
        part_named(name) is Other,
        !in_implied_end_tags(name),
    ensures
        t.generate_implied_end_tags(None).pop_until(name).live(),
{
    let u = t.generate_implied_end_tags(None);
    live_generate_implied_end_tags(t, None);
    lemma_implied_length(t);
    if u.small() {
        lemma_reaches_after_implied(t, name, None);
        live_pop_until(u, name);
    } else {
        lemma_pop_until_length(u, name);
        reveal(BuilderModel::live);
    }
}

pub proof fn lemma_implied_length(t: BuilderModel)
    ensures
        t.document.nodes.len() <= t.generate_implied_end_tags(None).document.nodes.len(),
        t.generate_implied_end_tags(None).insertion_mode == t.insertion_mode,
{
    lemma_implied(t.document, t.open_elements, Group::ImpliedEndTags, None);
    lemma_frame_pop_to(
        t,
        t.open_elements[0],
        length_without_implied(t.document, t.open_elements, Group::ImpliedEndTags, None),
    );
}

proof fn lemma_group_length(t: BuilderModel, group: Group)
    ensures
        t.document.nodes.len() <= t.pop_until_one_of(group).document.nodes.len(),
    decreases t.open_elements.len(),
{
    lemma_last_in_group_range(t.document, t.open_elements, group);
    match last_in_group(t.document, t.open_elements, group) {
        Some(k) => {
            lemma_frame_pop_to(t, t.open_elements[0], k);
        },
        None => {
            lemma_frame_pop_to(t, t.open_elements[0], 0);
        },
    }
}

/// An element of a group in scope can be reached.
pub proof fn lemma_group_reaches(t: BuilderModel, group: Group, scope: Scope) -> (i: int)
    requires
        t.group_in_specific_scope(group, scope),
    ensures
        0 <= i < t.open_elements.len(),
        kind_in_group(t.document.kind(t.open_elements[i]), group),
        nothing_above(t.document, t.open_elements, i),
{
    reveal(group_in_scope);
    let d = t.document;
    let stack = t.open_elements;
    let i = choose|i: int|
        0 <= i < stack.len() && kind_in_group(d.kind(#[trigger] stack[i]), group)
            && clear_below(d, stack, i, scope);
    lemma_clear_below(d, stack, i, scope);
    i
}

/// The end tag of a heading closes any heading.
pub proof fn live_close_heading(t: BuilderModel, kind: ParseErrorKind, wrong: bool)
    requires
        t.live(),
        t.group_in_specific_scope(Group::Headings, Scope::Default),
    ensures
        ({
            let u = t.generate_implied_end_tags(None);
            let v = if wrong {
                u.error(kind)
            } else {
                u
            };
            v.pop_until_one_of(Group::Headings).live()
        }),
{
    let u = t.generate_implied_end_tags(None);
    let v = if wrong {
        u.error(kind)
    } else {
        u
    };
    live_generate_implied_end_tags(t, None);
    live_error(u, kind);
    lemma_implied_length(t);
    lemma_group_length(v, Group::Headings);
    if u.small() {
        let d = t.document;
        let i = lemma_group_reaches(t, Group::Headings, Scope::Default);
        let name = html_name(d.kind(t.open_elements[i]))->0;
        lemma_headings_not_implied(name);
        assert(t.reaches_at(name, i));
        lemma_reaches_after_implied(t, name, None);
        let j = choose|j: int| #[trigger] u.reaches_at(name, j);
        lemma_last_in_group_is_last(v.document, v.open_elements, Group::Headings, j);
        let k = last_in_group(v.document, v.open_elements, Group::Headings)->0;
        lemma_part_groups(v.document.kind(v.open_elements[k]));
        assert(nothing_above(v.document, v.open_elements, k)) by {
            assert forall|m: int| k < m < v.open_elements.len() implies !(#[trigger] part_at(
                v.document,
                v.open_elements,
                m,
            ) is Table) && !(part_at(v.document, v.open_elements, m) is Template) && !(part_at(
                v.document,
                v.open_elements,
                m,
            ) is Html) by {
                assert(!(part_at(u.document, u.open_elements, m) is Table));
            }
        }
        lemma_loose_from(v, k);
        lemma_live_pop_to(v, k);
    } else {
        reveal(BuilderModel::live);
    }
}

// ---- Changes of the mode ----

/// Another mode that fits the stack.
pub proof fn live_set_mode(t: BuilderModel, mode: InsertionMode)
    requires
        t.live(),
        t.small() ==> mode_fits(t.document, t.open_elements, t.head(), mode),
        t.small() ==> !(mode is InTableText),
    ensures
        t.set_mode(mode).live(),
{
    reveal(BuilderModel::live);
    if t.small() {
        lemma_same_frame(t);
        lemma_sturdy_document(t, t.set_mode(mode));
    }
}

pub proof fn lemma_same_frame(t: BuilderModel)
    requires
        t.sturdy(),
    ensures
        frame_kept(t.document, t.document, t.open_elements[0]),
{
}

/// Elements with text for contents.
pub broadcast proof fn held_insert_text_here(t: BuilderModel, tag: TagModel)
    requires
        t.live(),
        !(t.insertion_mode is InTableText),
        part_named(tag.name) is Other,
    ensures
        #[trigger] t.insert_text_here(tag).held(),
{
    reveal(BuilderModel::held);
    assert(t.small() ==> can_open(t, Part::Other) && mode_fits(
        t.document,
        t.open_elements,
        t.head(),
        t.insertion_mode,
    )) by {
        reveal(BuilderModel::live);
    }
    lemma_text_opened(t, tag, Some(t.token_position));
}

/// A template in the body, in a table or in another template.
pub broadcast proof fn held_begin_template(t: BuilderModel, tag: TagModel)
    requires
        t.live(),
        tag.name == "template"@,
    ensures
        #[trigger] t.begin_template(tag).held(),
{
    assert(t.small() ==> can_open(t, Part::Template) && rooted(t.document, t.open_elements)) by {
        reveal(BuilderModel::live);
    }
    lemma_template_opened(t, tag);
    let u = t.begin_template(tag);
    reveal(BuilderModel::held);
    if u.small() {
        let n = t.open_elements.len() as int;
        lemma_part_named(tag.name);
        assert(part_at(u.document, u.open_elements, n) is Template);
        assert(part_at(u.document, u.open_elements, 1) == part_at(t.document, t.open_elements, 1));
        if n >= 3 {
            assert(part_at(u.document, u.open_elements, 2) == part_at(
                t.document,
                t.open_elements,
                2,
            ));
        }
        assert(holds_part(u.document, u.open_elements, Part::Template));
    }
}

/// The end of a template.
pub broadcast proof fn held_end_template(t: BuilderModel)
    requires
        t.live(),
    ensures
        #[trigger] t.end_template().held(),
{
    reveal(BuilderModel::end_template);
    if !t.has_template() {
        live_error(t, ParseErrorKind::StrayEndTag);
        live_is_held(t.error(ParseErrorKind::StrayEndTag));
    } else {
        let d = t.document;
        let stack = t.open_elements;
        let u = t.generate_implied_end_tags_thoroughly();
        let group = Group::ImpliedEndTagsThoroughly;
        let n = length_without_implied(d, stack, group, None);
        lemma_implied(d, stack, group, None);
        let v = if !u.current_is("template"@) {
            u.error(ParseErrorKind::ImpliedEndTagWithUnclosedElements)
        } else {
            u
        };
        lemma_frame_pop_to(t, stack[0], n);
        if u.small() {
            assert(t.sturdy() && rooted(d, stack)) by {
                reveal(BuilderModel::live);
            }
            assert forall|i: int| n <= i < stack.len() implies !(#[trigger] part_at(d, stack, i)
                is Template) && !(part_at(d, stack, i) is Html) && !(part_at(d, stack, i) is Head)
                && !(part_at(d, stack, i) is Body) by {
                assert(kind_in_group(d.kind(stack[i]), group));
                lemma_part_groups(d.kind(stack[i]));
            }
            assert(n >= 2) by {
                if n <= 1 {
                    assert(!(part_at(d, stack, 1) is Template));
                }
            }
            if stack.len() >= 3 && part_at(d, stack, 2) is Template {
                assert(n >= 3);
            }
            lemma_cut(t, n);
            assert(part_at(u.document, u.open_elements, 1) == part_at(d, stack, 1));
            if n >= 3 {
                assert(part_at(u.document, u.open_elements, 2) == part_at(d, stack, 2));
            }
            let k = last_named(d, stack, "template"@)->0;
            lemma_last_named(d, stack, "template"@);
            lemma_part_named("template"@);
            assert(part_at(d, stack, k) is Template);
            assert(k < n);
            assert(u.open_elements[k] == stack[k]);
            assert(tag_of(u.document.kind(u.open_elements[k])) == tag_of(d.kind(stack[k])));
            lemma_last_named_is_last(v.document, v.open_elements, "template"@, k);
            assert(v.sturdy());
            lemma_template_left(v);
        } else {
            reveal(BuilderModel::leave_template);
            reveal(BuilderModel::held);
            lemma_pop_until_length(v, "template"@);
        }
    }
}

// ---- Tables ----

/// A caption or a cell is closed.
pub proof fn live_close_part(t: BuilderModel, name: Seq<char>, mode: InsertionMode)
    requires
        t.live(),
        t.small() ==> t.reaches(name),
        match part_named(name) {
            Part::Caption => mode is InTable,
            Part::Cell => mode is InRow,
            _ => false,
        },
    ensures
        t.close_element(name, None).clear_to_marker().set_mode(mode).live(),
{
    reveal(BuilderModel::close_element);
    lemma_implied_end_tags(name);
    let u = t.generate_implied_end_tags(None);
    let v = if u.current_is(name) {
        u
    } else {
        u.error(ParseErrorKind::ImpliedEndTagWithUnclosedElements)
    };
    live_generate_implied_end_tags(t, None);
    lemma_implied_length(t);
    live_error(u, ParseErrorKind::ImpliedEndTagWithUnclosedElements);
    lemma_pop_until_length(v, name);
    if u.small() {
        lemma_reaches_after_implied(t, name, None);
        let i = choose|i: int| #[trigger] u.reaches_at(name, i);
        lemma_last_named_is_last(v.document, v.open_elements, name, i);
        let k = last_named(v.document, v.open_elements, name)->0;
        assert(v.sturdy() && rooted(v.document, v.open_elements)) by {
            reveal(BuilderModel::live);
        }
        assert(part_at(v.document, v.open_elements, k) == part_named(name));
        lemma_leave(v, k, mode);
        live_clear_to_marker(v.pop_to(k).set_mode(mode));
        assert(v.pop_to(k).set_mode(mode).clear_to_marker() == v.pop_until(
            name,
        ).clear_to_marker().set_mode(mode));
    } else {
        reveal(BuilderModel::live);
    }
}

/// The open cell is closed.
pub broadcast proof fn live_close_cell(t: BuilderModel)
    requires
        t.live(),
        t.insertion_mode is InCell,
    ensures
        #[trigger] t.close_cell().live(),
{
    reveal(BuilderModel::close_cell);
    let u = t.generate_implied_end_tags(None);
    let v = if !u.current_in(Group::Cells) {
        u.error(ParseErrorKind::ImpliedEndTagWithUnclosedElements)
    } else {
        u
    };
    live_generate_implied_end_tags(t, None);
    lemma_implied_length(t);
    live_error(u, ParseErrorKind::ImpliedEndTagWithUnclosedElements);
    lemma_group_length(v, Group::Cells);
    if v.small() {
        assert(v.sturdy() && rooted(v.document, v.open_elements) && holds_part(
            v.document,
            v.open_elements,
            Part::Cell,
        )) by {
            reveal(BuilderModel::live);
        }
        let i = choose|i: int|
            1 <= i < v.open_elements.len() && #[trigger] part_at(v.document, v.open_elements, i)
                == Part::Cell;
        lemma_part_groups(v.document.kind(v.open_elements[i]));
        lemma_last_in_group_is_last(v.document, v.open_elements, Group::Cells, i);
        let k = last_in_group(v.document, v.open_elements, Group::Cells)->0;
        lemma_part_groups(v.document.kind(v.open_elements[k]));
        lemma_leave(v, k, InsertionMode::InRow);
        let w = v.pop_to(k).set_mode(InsertionMode::InRow);
        live_clear_to_marker(w);
        assert(w.clear_to_marker() == v.pop_until_one_of(Group::Cells).clear_to_marker().set_mode(
            InsertionMode::InRow,
        ));
    } else {
        reveal(BuilderModel::live);
    }
}

/// A section or a row is closed, and what is open in it.
pub proof fn live_leave_context(t: BuilderModel, group: Group, i: int, mode: InsertionMode)
    requires
        t.live(),
        t.small() ==> 1 <= i < t.open_elements.len() && nothing_above(
            t.document,
            t.open_elements,
            i,
        ),
        match group {
            Group::TableBodyContext => mode is InTable && (t.small() ==> part_at(
                t.document,
                t.open_elements,
                i,
            ) is Section),
            Group::TableRowContext => mode is InTableBody && (t.small() ==> part_at(
                t.document,
                t.open_elements,
                i,
            ) is Row),
            _ => false,
        },
    ensures
        t.clear_back_to(group).pop().set_mode(mode).live(),
{
    let d = t.document;
    let stack = t.open_elements;
    if t.small() {
        lemma_part_groups(d.kind(stack[i]));
    }
    lemma_clear_back(t, group, i);
    let u = t.clear_back_to(group);
    if u.small() {
        let n = u.open_elements.len() as int;
        lemma_part_groups(d.kind(stack[n - 1]));
        assert(!(part_at(d, stack, n - 1) is Template) && !(part_at(d, stack, n - 1) is Html)) by {
            if n - 1 > i {
                assert(!(part_at(d, stack, n - 1) is Table));
            }
        }
        lemma_pop_is_cut(u);
        lemma_leave(u, n - 1, mode);
    } else {
        if u.open_elements.len() > 0 {
            lemma_frame_pop(u, u.open_elements[0]);
        }
        reveal(BuilderModel::live);
    }
}

/// A column group is closed.
pub proof fn live_leave_columns(t: BuilderModel)
    requires
        t.live(),
        t.current_is("colgroup"@),
    ensures
        t.pop().set_mode(InsertionMode::InTable).live(),
{
    lemma_part_named("colgroup"@);
    if t.small() {
        assert(t.sturdy() && rooted(t.document, t.open_elements)) by {
            reveal(BuilderModel::live);
        }
        let n = t.open_elements.len() as int;
        assert(part_at(t.document, t.open_elements, n - 1) is Columns);
        lemma_pop_is_cut(t);
        lemma_leave(t, n - 1, InsertionMode::InTable);
    } else {
        lemma_frame_pop(t, t.open_elements[0]);
        reveal(BuilderModel::live);
    }
}

} // verus!
