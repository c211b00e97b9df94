//! The insertion mode and the structure of the document change together.
use vstd::prelude::*;

use crate::document::model::{DocumentModel, KindModel, NodeId};
use crate::token::{Position, TagModel};
use crate::tree_builder::elements::{html_name, kind_in_group, tag_of, Group};
use crate::tree_builder::formatting::{cleared_to_marker, lemma_after_last_marker, FormattingEntry};
use crate::tree_builder::frame::{
    frame_kept, inside, lemma_frame_insert, lemma_frame_kept_twice, lemma_frame_new_node,
    lemma_kin_insert,
};
use crate::tree_builder::model::{element_for, mode_for_stack, BuilderModel, InsertionMode};
use crate::tree_builder::names::HTML_NAMESPACE;
use crate::tree_builder::parts::{lemma_part_groups, lemma_part_named, part_named, Part};
use crate::tree_builder::stack::{last_in_group, last_named, lemma_last_named};
use crate::tree_builder::structure::{
    bodied, entry_fits, formatting_fits, holds_part, inner_fits, lemma_lists_kept, lemma_stack_push,
    lemma_stack_take, lemma_templates_kept, lemma_templates_push, lemma_templates_take, may_follow,
    mode_fits, part_at, rooted, stack_fits, template_mode_fits, templates,
};
use crate::tree_builder::structure_adoption::lemma_move_length;
use crate::tree_builder::structure_steps::{
    lemma_frame_pop_to, lemma_inserted, lemma_inserted_frame, lemma_inserted_kind,
    lemma_last_in_group_is_last, lemma_location,
};

verus! {

// ---- The same stack, in a changed document ----

/// Where elements keep their names, a mode that fitted the stack still does.
pub proof fn lemma_mode_same(
    d: DocumentModel,
    e: DocumentModel,
    stack: Seq<NodeId>,
    head: NodeId,
    mode: InsertionMode,
)
    requires
        forall|i: int|
            0 <= i < stack.len() ==> tag_of(
                e.kind(#[trigger] stack[i]),
            ) == tag_of(d.kind(stack[i])),
    ensures
        mode_fits(d, stack, head, mode) ==> mode_fits(e, stack, head, mode),
        rooted(d, stack) ==> rooted(e, stack),
{
    assert forall|i: int| 0 <= i < stack.len() implies #[trigger] part_at(e, stack, i) == part_at(
        d,
        stack,
        i,
    ) by {
        assert(tag_of(e.kind(stack[i])) == tag_of(d.kind(stack[i])));
    }
    if stack.len() >= 3 {
        assert(tag_of(e.kind(stack[2])) == tag_of(d.kind(stack[2])));
    }
    assert forall|part: Part| #[trigger] holds_part(d, stack, part) implies holds_part(
        e,
        stack,
        part,
    ) by {
        let i = choose|i: int| 1 <= i < stack.len() && #[trigger] part_at(d, stack, i) == part;
        assert(part_at(e, stack, i) == part);
    }
    if stack.len() >= 2 {
        assert(part_at(e, stack, 1) == part_at(d, stack, 1));
    }
    if stack.len() >= 3 {
        assert(part_at(e, stack, 2) == part_at(d, stack, 2));
    }
}

/// Two tree builders that differ in the document and in what does not count here.
pub open spec fn same_lists(t: BuilderModel, u: BuilderModel) -> bool {
    &&& u.open_elements == t.open_elements
    &&& u.formatting == t.formatting
    &&& u.form_element_pointer == t.form_element_pointer
    &&& u.head_element_pointer == t.head_element_pointer
    &&& u.template_insertion_modes == t.template_insertion_modes
}

/// A change of the document that leaves the frame alone.
pub proof fn lemma_sturdy_document(t: BuilderModel, u: BuilderModel)
    requires
        t.sturdy(),
        frame_kept(t.document, u.document, t.open_elements[0]),
        same_lists(t, u),
    ensures
        u.sturdy(),
        u.insertion_mode == t.insertion_mode && u.original_insertion_mode
            == t.original_insertion_mode && t.fits() ==> u.fits(),
{
    let d = t.document;
    let e = u.document;
    let stack = t.open_elements;
    lemma_lists_kept(t, e, stack[0]);
    assert(tag_of(e.kind(t.head())) == tag_of(d.kind(t.head())));
    lemma_mode_same(d, e, stack, t.head(), t.insertion_mode);
    if stack.len() >= 2 {
        assert(tag_of(e.kind(stack[1])) == tag_of(d.kind(stack[1])));
    }
    match t.original_insertion_mode {
        Some(mode) => {
            lemma_mode_same(d, e, stack, t.head(), mode);
            if stack.len() > 0 {
                let rest = stack.drop_last();
                assert forall|i: int| 0 <= i < rest.len() implies tag_of(e.kind(#[trigger] rest[i]))
                    == tag_of(d.kind(rest[i])) by {
                    assert(rest[i] == stack[i]);
                }
                lemma_mode_same(d, e, rest, t.head(), mode);
                let last = stack[stack.len() - 1];
                assert(tag_of(e.kind(last)) == tag_of(d.kind(last)));
            }
        },
        None => {},
    }
}

// ---- A shorter stack ----

/// The stack is cut, but not below the `body` element.
pub proof fn lemma_cut(t: BuilderModel, n: int)
    requires
        t.small() ==> t.sturdy(),
        1 <= n <= t.open_elements.len(),
        t.small() && bodied(t.document, t.open_elements) ==> n >= 2,
    ensures
        ({
            let u = t.pop_to(n);
            &&& u == BuilderModel {
                document: u.document,
                open_elements: t.open_elements.take(n),
                ..t
            }
            &&& t.document.nodes.len() <= u.document.nodes.len()
            &&& u.small() ==> {
                &&& u.sturdy()
                &&& bodied(u.document, u.open_elements) == bodied(t.document, t.open_elements)
                &&& forall|i: int| 0 <= i < n ==> #[trigger] u.open_elements[i] == t.open_elements[i]
                &&& forall|i: int|
                    0 <= i < n ==> tag_of(u.document.kind(#[trigger] u.open_elements[i])) == tag_of(
                        t.document.kind(t.open_elements[i]),
                    )
                &&& forall|i: int|
                    0 <= i < n ==> #[trigger] part_at(u.document, u.open_elements, i) == part_at(
                        t.document,
                        t.open_elements,
                        i,
                    )
                &&& templates(u.document, u.open_elements) <= templates(
                    t.document,
                    t.open_elements,
                )
                &&& n < t.open_elements.len() && part_at(t.document, t.open_elements, n)
                    is Template ==> templates(u.document, u.open_elements) < templates(
                    t.document,
                    t.open_elements,
                )
            }
        }),
{
    let u = t.pop_to(n);
    let d = t.document;
    let e = u.document;
    let stack = t.open_elements;
    lemma_frame_pop_to(t, stack[0], n);
    if u.small() {
        assert forall|i: int| 0 <= i < stack.len() implies inside(d, #[trigger] stack[i]) by {}
        lemma_lists_kept(t, e, stack[0]);
        lemma_stack_take(e, stack, t.head(), n);
        assert forall|i: int| 0 <= i < n implies #[trigger] u.open_elements[i] == stack[i] by {}
        assert forall|i: int| 0 <= i < n implies tag_of(e.kind(#[trigger] u.open_elements[i]))
            == tag_of(d.kind(stack[i])) by {
            assert(u.open_elements[i] == stack[i]);
            assert(tag_of(e.kind(stack[i])) == tag_of(d.kind(stack[i])));
        }
        assert forall|i: int| 0 <= i < n implies #[trigger] part_at(e, u.open_elements, i)
            == part_at(d, stack, i) by {
            assert(tag_of(e.kind(u.open_elements[i])) == tag_of(d.kind(stack[i])));
        }
        lemma_templates_take(d, stack, n);
        let shorter = stack.take(n);
        assert forall|i: int| 0 <= i < shorter.len() implies tag_of(e.kind(#[trigger] shorter[i]))
            == tag_of(d.kind(shorter[i])) by {
            assert(shorter[i] == u.open_elements[i]);
        }
        lemma_templates_kept(d, e, shorter);
        assert(tag_of(e.kind(t.head())) == tag_of(d.kind(t.head())));
        assert(u.open_elements[0] == stack[0]);
        if n >= 2 {
            assert(u.open_elements[1] == stack[1]);
            assert(part_at(e, u.open_elements, 1) == part_at(d, stack, 1));
        }
    }
}

/// The same, by one entry.
pub proof fn lemma_pop_is_cut(t: BuilderModel)
    requires
        t.open_elements.len() > 0,
    ensures
        t.pop() == t.pop_to(t.open_elements.len() - 1),
{
    reveal_with_fuel(BuilderModel::pop_to, 2);
}

// ---- A longer stack ----

/// What an element needs to be opened in the current node.
pub open spec fn can_open(t: BuilderModel, part: Part) -> bool {
    &&& t.sturdy()
    &&& t.open_elements.len() >= 2
    &&& t.open_elements.len() == 2 ==> !(part_at(t.document, t.open_elements, 1) is Other)
    &&& may_follow(
        part,
        part_at(t.document, t.open_elements, t.open_elements.len() - 1),
    )
}

/// What is known of the tree builder after an element was opened.
pub open spec fn opened(t: BuilderModel, u: BuilderModel, name: Seq<char>) -> bool {
    let n = t.open_elements.len() as int;
    &&& u.open_elements.len() == n + 1
    &&& inside(u.document, u.open_elements[n])
    &&& html_name(u.document.kind(u.open_elements[n])) == Some(name)
    &&& part_at(u.document, u.open_elements, n) == part_named(name)
    &&& bodied(u.document, u.open_elements) == bodied(t.document, t.open_elements)
    &&& forall|i: int| 0 <= i < n ==> #[trigger] u.open_elements[i] == t.open_elements[i]
    &&& forall|i: int|
        0 <= i < n ==> tag_of(u.document.kind(#[trigger] t.open_elements[i])) == tag_of(
            t.document.kind(t.open_elements[i]),
        )
    &&& forall|i: int|
        0 <= i < n ==> #[trigger] part_at(u.document, u.open_elements, i) == part_at(
            t.document,
            t.open_elements,
            i,
        )
}

/// An element other than a template is opened.
pub proof fn lemma_opened(t: BuilderModel, tag: TagModel, position: Option<Position>)
    requires
        t.small() ==> can_open(t, part_named(tag.name)),
        !(part_named(tag.name) is Template),
    ensures
        ({
            let u = t.insert_html_element(tag, position);
            &&& u == BuilderModel {
                document: u.document,
                open_elements: t.open_elements.push(t.document.next_id()),
                ..t
            }
            &&& t.document.nodes.len() <= u.document.nodes.len()
            &&& u.small() ==> u.sturdy() && opened(t, u, tag.name) && templates(
                u.document,
                u.open_elements,
            ) == templates(t.document, t.open_elements)
        }),
{
    let u = t.insert_html_element(tag, position);
    lemma_inserted(t, tag, HTML_NAMESPACE@, position);
    if u.small() {
        let html = t.open_elements[0];
        let id = t.document.next_id();
        lemma_inserted_frame(t, tag, HTML_NAMESPACE@, position, html);
        lemma_inserted_kind(t, tag, HTML_NAMESPACE@, position);
        lemma_lists_kept(t, u.document, html);
        assert(!t.open_elements.contains(id));
        lemma_stack_push(t.document, u.document, t.open_elements, t.head(), id);
        lemma_templates_push(u.document, t.open_elements, id);
        lemma_opened_parts(t, u);
    }
}

proof fn lemma_opened_parts(t: BuilderModel, u: BuilderModel)
    requires
        t.sturdy(),
        t.open_elements.len() >= 2,
        u.open_elements.len() == t.open_elements.len() + 1,
        forall|i: int|
            0 <= i < t.open_elements.len() ==> #[trigger] u.open_elements[i]
                == t.open_elements[i],
        forall|i: int|
            0 <= i < t.open_elements.len() ==> tag_of(
                u.document.kind(#[trigger] t.open_elements[i]),
            )
                == tag_of(t.document.kind(t.open_elements[i])),
        inside(t.document, t.head()),
        frame_kept(t.document, u.document, t.open_elements[0]),
    ensures
        forall|i: int|
            0 <= i < t.open_elements.len() ==> #[trigger] part_at(u.document, u.open_elements, i)
                == part_at(t.document, t.open_elements, i),
        bodied(u.document, u.open_elements) == bodied(t.document, t.open_elements),
        tag_of(u.document.kind(t.head())) == tag_of(t.document.kind(t.head())),
{
    assert forall|i: int| 0 <= i < t.open_elements.len() implies #[trigger] part_at(
        u.document,
        u.open_elements,
        i,
    ) == part_at(t.document, t.open_elements, i) by {
        assert(u.open_elements[i] == t.open_elements[i]);
        assert(tag_of(u.document.kind(t.open_elements[i])) == tag_of(
            t.document.kind(t.open_elements[i]),
        ));
    }
    assert(part_at(u.document, u.open_elements, 1) == part_at(t.document, t.open_elements, 1));
}

/// An element with text for contents is opened.
pub proof fn lemma_text_opened(t: BuilderModel, tag: TagModel, position: Option<Position>)
    requires
        t.small() ==> can_open(t, Part::Other) && mode_fits(
            t.document,
            t.open_elements,
            t.head(),
            t.insertion_mode,
        ),
        part_named(tag.name) is Other,
    ensures
        ({
            let u = t.insert_text_element(tag, position);
            u.small() ==> u.sturdy() && u.fits()
        }),
{
    let v = t.insert_html_element(tag, position);
    let u = t.insert_text_element(tag, position);
    lemma_opened(t, tag, position);
    if u.small() {
        assert(u.open_elements.drop_last() == t.open_elements);
        lemma_sturdy_document(v, u);
        lemma_mode_same(
            t.document,
            u.document,
            t.open_elements,
            t.head(),
            t.insertion_mode,
        );
    }
}

// ---- Templates ----

/// A template goes where any element could.
#[verifier::rlimit(40)]
proof fn lemma_template_inserted(t: BuilderModel, tag: TagModel, position: Option<Position>)
    requires
        t.small() ==> can_open(t, Part::Template),
        tag.name == "template"@,
    ensures
        ({
            let u = t.insert_html_element(tag, position);
            &&& u == BuilderModel {
                document: u.document,
                open_elements: t.open_elements.push(t.document.next_id()),
                ..t
            }
            &&& t.document.nodes.len() <= u.document.nodes.len()
            &&& u.small() ==> {
                &&& opened(t, u, tag.name)
                &&& frame_kept(t.document, u.document, t.open_elements[0])
                &&& stack_fits(u.document, u.open_elements, t.head())
                &&& formatting_fits(u.document, u.formatting)
                &&& templates(u.document, u.open_elements) == templates(
                    t.document,
                    t.open_elements,
                ) + 1
            }
        }),
{
    reveal(BuilderModel::insert_foreign_element);
    reveal(BuilderModel::create_element);
    let d = t.document;
    let u = t.insert_html_element(tag, position);
    let html = t.open_elements[0];
    let id = d.next_id();
    let location = t.location(None);
    let kind = element_for(tag, HTML_NAMESPACE@);
    let e = d.new_node(kind, position);
    let f = e.new_node(KindModel::DocumentFragment, None);
    let g = f.append_child(id, e.next_id());
    lemma_move_length(f, id, None, e.next_id());
    lemma_move_length(g, location.parent, location.before, id);
    lemma_part_named(tag.name);
    if u.small() {
        lemma_location(t, None);
        assert(inside(d, html));
        lemma_frame_new_node(d, kind, position, html);
        lemma_frame_new_node(e, KindModel::DocumentFragment, None, html);
        lemma_frame_kept_twice(d, e, f, html);
        assert(f.node(id) == e.node(id));
        lemma_frame_insert(f, id, None, e.next_id(), html);
        lemma_kin_insert(f, id, None, e.next_id());
        lemma_frame_kept_twice(d, f, g, html);
        assert(g.parent(id) is None);
        lemma_frame_insert(g, location.parent, location.before, id, html);
        lemma_kin_insert(g, location.parent, location.before, id);
        lemma_frame_kept_twice(d, g, u.document, html);
        assert(u.document.kind(id) == kind);
        lemma_lists_kept(t, u.document, html);
        assert(!t.open_elements.contains(id));
        lemma_stack_push(d, u.document, t.open_elements, t.head(), id);
        lemma_templates_push(u.document, t.open_elements, id);
        lemma_opened_parts(t, u);
    }
}

/// A template is opened.
pub proof fn lemma_template_opened(t: BuilderModel, tag: TagModel)
    requires
        t.small() ==> can_open(t, Part::Template),
        tag.name == "template"@,
    ensures
        ({
            let u = t.begin_template(tag);
            &&& u.small() ==> t.small() && u.sturdy() && opened(t, u, tag.name)
            &&& u.insertion_mode is InTemplate
            &&& u.head_element_pointer == t.head_element_pointer
            &&& u.open_elements == t.open_elements.push(t.document.next_id())
        }),
{
    reveal(BuilderModel::begin_template);
    let position = Some(t.token_position);
    let v = t.insert_html_element(tag, position);
    let u = t.begin_template(tag);
    lemma_template_inserted(t, tag, position);
    if u.small() {
        let entries = v.formatting.push(FormattingEntry::Marker);
        assert(u.formatting == entries);
        assert forall|i: int| 0 <= i < entries.len() implies entry_fits(
            u.document,
            #[trigger] entries[i],
        ) by {
            if i < v.formatting.len() {
                assert(entry_fits(v.document, v.formatting[i]));
            }
        }
        lemma_lists_kept(t, u.document, t.open_elements[0]);
        let modes = t.template_insertion_modes.push(InsertionMode::InTemplate);
        assert(u.template_insertion_modes == modes);
        assert forall|i: int| 0 <= i < modes.len() implies template_mode_fits(
            #[trigger] modes[i],
        ) by {
            if i < t.template_insertion_modes.len() {
                assert(template_mode_fits(t.template_insertion_modes[i]));
            }
        }
        assert(tag_of(u.document.kind(t.head())) == tag_of(t.document.kind(t.head())));
    }
}

/// Where the stack is what some mode needs, resetting finds one that it fits.
pub proof fn lemma_reset(t: BuilderModel, n: int)
    requires
        t.sturdy(),
        1 <= n <= t.open_elements.len(),
        t.open_elements.len() == 1 || rooted(t.document, t.open_elements)
            || t.open_elements.len() == 2 && t.open_elements[1] == t.head(),
        n == 1 ==> t.open_elements.len() == 1,
        n == 2 && part_at(t.document, t.open_elements, 1) is Head ==> t.open_elements.len() == 2,
    ensures
        mode_fits(
            t.document,
            t.open_elements,
            t.head(),
            mode_for_stack(
                t.document,
                t.open_elements.take(n),
                t.template_mode(),
                t.head_element_pointer is Some,
            ),
        ),
    decreases n,
{
    let d = t.document;
    let stack = t.open_elements;
    let shorter = stack.take(n);
    assert(shorter.last() == stack[n - 1]);
    assert(template_mode_fits(t.template_mode())) by {
        if t.template_insertion_modes.len() > 0 {
            let k = t.template_insertion_modes.len() - 1;
            assert(template_mode_fits(t.template_insertion_modes[k]));
        }
    }
    if n >= 2 {
        assert(shorter.drop_last() == stack.take(n - 1));
        let part = part_at(d, stack, n - 1);
        assert(holds_part(d, stack, part));
        if n >= 3 {
            assert(inner_fits(d, stack, n - 1));
        }
        match html_name(d.kind(stack[n - 1])) {
            Some(name) => {
                lemma_part_named(name);
                if part is Other {
                    lemma_reset(t, n - 1);
                }
            },
            None => {
                lemma_reset(t, n - 1);
            },
        }
    } else {
        match html_name(d.kind(stack[0])) {
            Some(name) => {
                lemma_part_named(name);
            },
            None => {},
        }
    }
}

/// The insertion mode is reset.
pub proof fn lemma_reset_mode(t: BuilderModel)
    requires
        t.sturdy(),
        t.open_elements.len() == 1 || rooted(t.document, t.open_elements)
            || t.open_elements.len() == 2 && t.open_elements[1] == t.head(),
    ensures
        t.reset_mode().sturdy(),
        t.reset_mode().fits(),
        rooted(t.document, t.open_elements) ==> rooted(
            t.reset_mode().document,
            t.reset_mode().open_elements,
        ) && !(t.reset_mode().insertion_mode is Text),
{
    let n = t.open_elements.len() as int;
    assert(t.open_elements.take(n) == t.open_elements);
    lemma_reset(t, n);
    lemma_sturdy_document(t, t.reset_mode());
}

/// A template is left.
#[verifier::rlimit(40)]
pub proof fn lemma_template_left(t: BuilderModel)
    requires
        t.small() ==> t.sturdy() && rooted(t.document, t.open_elements),
        t.has_template(),
    ensures
        t.leave_template().held(),
{
    reveal(BuilderModel::leave_template);
    reveal(BuilderModel::held);
    let d = t.document;
    let stack = t.open_elements;
    let k = last_named(d, stack, "template"@)->0;
    lemma_last_named(d, stack, "template"@);
    lemma_part_named("template"@);
    let u = t.pop_until("template"@);
    lemma_frame_pop_to(t, stack[0], k);
    if u.small() {
        assert(part_at(d, stack, k) is Template);
        assert(k >= 1);
        lemma_cut(t, k);
        let v = u.clear_to_marker().pop_template_mode();
        assert(v.sturdy()) by {
            lemma_cleared(u);
            let w = u.clear_to_marker();
            if w.template_insertion_modes.len() > 0 {
                let modes = w.template_insertion_modes.drop_last();
                assert forall|i: int| 0 <= i < modes.len() implies template_mode_fits(
                    #[trigger] modes[i],
                ) by {
                    assert(template_mode_fits(w.template_insertion_modes[i]));
                }
            }
        }
        assert(v.open_elements == stack.take(k));
        assert(k >= 2 ==> part_at(v.document, v.open_elements, 1) == part_at(d, stack, 1));
        assert(k >= 3 ==> part_at(v.document, v.open_elements, 2) == part_at(d, stack, 2));
        assert(k >= 2 ==> v.open_elements[1] == stack[1]);
        lemma_reset_mode(v);
    }
}

/// Fewer active formatting elements.
pub proof fn lemma_cleared(t: BuilderModel)
    requires
        t.sturdy(),
    ensures
        t.clear_to_marker().sturdy(),
{
    let entries = cleared_to_marker(t.formatting);
    lemma_after_last_marker(t.formatting);
    assert forall|i: int| 0 <= i < entries.len() implies entry_fits(
        t.document,
        #[trigger] entries[i],
    ) by {
        assert(entry_fits(t.document, t.formatting[i]));
    }
}

// ---- Tables ----

/// The stack is cleared back to a table, a part of one or a template.
pub proof fn lemma_clear_back(t: BuilderModel, group: Group, i: int)
    requires
        t.live(),
        group is TableContext || group is TableBodyContext || group is TableRowContext,
        t.small() ==> 1 <= i < t.open_elements.len() && kind_in_group(
            t.document.kind(t.open_elements[i]),
            group,
        ),
    ensures
        ({
            let u = t.clear_back_to(group);
            let n = u.open_elements.len() as int;
            &&& t.document.nodes.len() <= u.document.nodes.len()
            &&& u.small() ==> {
                &&& u.sturdy()
                &&& rooted(u.document, u.open_elements)
                &&& i < n
                &&& u == BuilderModel {
                    document: u.document,
                    open_elements: t.open_elements.take(n),
                    ..t
                }
                &&& n <= t.open_elements.len()
                &&& part_at(u.document, u.open_elements, n - 1) == part_at(
                    t.document,
                    t.open_elements,
                    n - 1,
                )
                &&& kind_in_group(t.document.kind(t.open_elements[n - 1]), group)
            }
        }),
{
    let d = t.document;
    let stack = t.open_elements;
    let u = t.clear_back_to(group);
    if t.small() {
        reveal(BuilderModel::live);
        lemma_last_in_group_is_last(d, stack, group, i);
        let k = last_in_group(d, stack, group)->0;
        assert(k >= 2 || part_at(d, stack, 1) is Template) by {
            lemma_part_groups(d.kind(stack[k]));
        }
        assert(part_at(d, stack, 1) is Head ==> k >= 2);
        lemma_cut(t, k + 1);
        if u.small() {
            assert(part_at(u.document, u.open_elements, 1) == part_at(d, stack, 1));
            if k >= 2 {
                assert(part_at(u.document, u.open_elements, 2) == part_at(d, stack, 2));
            }
        }
    } else {
        lemma_last_in_group_range(d, stack, group);
        match last_in_group(d, stack, group) {
            Some(k) => {
                lemma_frame_pop_to(t, stack[0], k + 1);
            },
            None => {
                lemma_frame_pop_to(t, stack[0], 0);
            },
        }
    }
}

pub proof fn lemma_last_in_group_range(d: DocumentModel, stack: Seq<NodeId>, group: Group)
    ensures
        last_in_group(d, stack, group) matches Some(k) ==> 0 <= k < stack.len(),
    decreases stack.len(),
{
    if stack.len() > 0 {
        lemma_last_in_group_range(d, stack.drop_last(), group);
    }
}

/// A part of a table is opened.
pub proof fn lemma_enter(
    t: BuilderModel,
    tag: TagModel,
    position: Option<Position>,
    mode: InsertionMode,
)
    requires
        t.small() ==> t.sturdy() && rooted(t.document, t.open_elements) && may_follow(
            part_named(tag.name),
            part_at(t.document, t.open_elements, t.open_elements.len() - 1),
        ),
        match part_named(tag.name) {
            Part::Caption => mode is InCaption,
            Part::Columns => mode is InColumnGroup,
            Part::Section => mode is InTableBody,
            Part::Row => mode is InRow,
            Part::Cell => mode is InCell,
            Part::Table => mode is InTable,
            _ => false,
        },
    ensures
        t.insert_html_element(tag, position).set_mode(mode).live(),
{
    reveal(BuilderModel::live);
    lemma_opened(t, tag, position);
    let v = t.insert_html_element(tag, position);
    let u = v.set_mode(mode);
    if u.small() {
        lemma_sturdy_document(v, u);
        let n = t.open_elements.len() as int;
        assert(part_at(u.document, u.open_elements, n) == part_named(tag.name));
        assert(holds_part(u.document, u.open_elements, part_named(tag.name)));
        assert(part_at(u.document, u.open_elements, 1) == part_at(t.document, t.open_elements, 1));
        if n >= 3 {
            assert(part_at(u.document, u.open_elements, 2) == part_at(
                t.document,
                t.open_elements,
                2,
            ));
        }
    }
}

/// A part of a table is closed: the stack is cut where one stands.
pub proof fn lemma_leave(t: BuilderModel, k: int, mode: InsertionMode)
    requires
        t.small() ==> {
            &&& t.sturdy()
            &&& rooted(t.document, t.open_elements)
            &&& 0 <= k < t.open_elements.len()
            &&& match part_at(t.document, t.open_elements, k) {
                Part::Caption | Part::Columns | Part::Section => mode is InTable,
                Part::Row => mode is InTableBody,
                Part::Cell => mode is InRow,
                _ => false,
            }
        },
    ensures
        t.small() ==> t.pop_to(k).set_mode(mode).live(),
        t.small() ==> t.pop_to(k).small() ==> t.pop_to(k).sturdy(),
{
    reveal(BuilderModel::live);
    if t.small() {
        let d = t.document;
        let stack = t.open_elements;
        assert(k >= 2);
        assert(inner_fits(d, stack, k));
        lemma_cut(t, k);
        let v = t.pop_to(k);
        let u = v.set_mode(mode);
        if u.small() {
            lemma_sturdy_document(v, u);
            assert(part_at(u.document, v.open_elements, k - 1) == part_at(d, stack, k - 1));
            assert(part_at(u.document, v.open_elements, 1) == part_at(d, stack, 1));
            if k >= 3 {
                assert(part_at(u.document, v.open_elements, 2) == part_at(d, stack, 2));
            }
            assert(holds_part(u.document, u.open_elements, part_at(d, stack, k - 1)));
        }
    }
}

} // verus!
