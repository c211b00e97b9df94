//! The end tags that close or rearrange elements keep the structure of the document.
use vstd::prelude::*;

use crate::document::model::{DocumentModel, KindModel, NodeId};
use crate::token::{ParseErrorKind, TagModel};
use crate::tree_builder::adoption::{
    appended_all, closed_by_end_tag, last_formatting_named, lemma_formatting_index_from,
};
use crate::tree_builder::copies::{
    adopted_copy, contents_kept, lemma_adopt_up_contents, lemma_adopted_copy,
    lemma_contents_kept_twice, lemma_created, lemma_replant_contents,
};
use crate::tree_builder::elements::{html_name, special_kind, tag_of, Group, Scope};
use crate::tree_builder::formatting::{after_last_marker, lemma_after_last_marker, FormattingEntry};
use crate::tree_builder::frame::{
    element_children, frame_kept, inside, kin, kin_of, lemma_element_child,
    lemma_frame_appended_all, lemma_frame_insert, lemma_frame_kept_twice, lemma_frame_new_node,
    lemma_frame_remove, lemma_kin_insert, lemma_kin_remove,
};
use crate::tree_builder::model::{
    element_for, formatting_index_from, formatting_named, tag_for, without_formatting, without_node,
    BuilderModel, InsertionLocation,
};
use crate::tree_builder::names::HTML_NAMESPACE;
use crate::tree_builder::parts::{lemma_part_bounds, lemma_part_named, part_named, part_of};
use crate::tree_builder::stack::{
    clear_below, index_from, is_called, length_without_implied, node_in_scope, special_after,
};
use crate::tree_builder::structure::{
    entry_fits, formatting_fits, inner_fits, lemma_lists_kept, lemma_live_changed,
    lemma_live_document, lemma_stack_take, lemma_templates_insert, lemma_templates_remove,
    lemma_templates_take, loose_from, part_at, rooted, stack_fits, stack_kept, structural,
};
use crate::tree_builder::structure_steps::{
    lemma_clear_below, lemma_frame_pop_to, lemma_implied, lemma_live_formatting, lemma_live_pop,
    lemma_live_pop_to, lemma_location, lemma_loose_from, live_error, live_generate_implied_end_tags,
    nothing_above,
};
use crate::tree_builder::placement::lemma_special_after;

verus! {

// ---- Stacks with one entry less, another, or more ----

/// An entry that plays no part leaves the stack. A part of a table never stands right
/// above such an entry.
proof fn lemma_stack_remove(d: DocumentModel, stack: Seq<NodeId>, head: NodeId, i: int)
    requires
        stack_fits(d, stack, head),
        2 <= i < stack.len(),
        part_at(d, stack, i) is Other,
    ensures
        stack_fits(d, stack.remove(i), head),
        stack_kept(d, d, stack, stack.remove(i)),
{
    let shorter = stack.remove(i);
    assert(shorter[0] == stack[0]);
    assert(shorter[1] == stack[1]);
    assert forall|j: int| 0 <= j < shorter.len() implies inside(d, #[trigger] shorter[j])
        && (tag_of(d.kind(shorter[j])) matches Some(tag) && tag.0 is Some) by {
        assert(shorter[j] == stack[if j < i {
            j
        } else {
            j + 1
        }]);
    }
    assert forall|j: int| 2 <= j < shorter.len() implies #[trigger] inner_fits(d, shorter, j) by {
        if j < i {
            assert(inner_fits(d, stack, j));
            assert(shorter[j] == stack[j]);
            assert(shorter[j - 1] == stack[j - 1]);
        } else {
            assert(inner_fits(d, stack, j + 1));
            assert(shorter[j] == stack[j + 1]);
            if j > i {
                assert(shorter[j - 1] == stack[j]);
            }
        }
    }
    assert forall|j: int|
        1 <= j < stack.len() && structural(#[trigger] part_at(d, stack, j)) implies exists|k: int|
        1 <= k < shorter.len() && #[trigger] shorter[k] == stack[j] by {
        let k = if j < i {
            j
        } else {
            j - 1
        };
        assert(shorter[k] == stack[j]);
    }
    if stack.len() >= 3 && part_at(d, stack, 2) is Template {
        assert(shorter[2] == stack[2]);
    }
    lemma_templates_remove(d, stack, i);
}

/// An entry that plays no part joins the stack.
proof fn lemma_stack_insert(d: DocumentModel, stack: Seq<NodeId>, head: NodeId, i: int, id: NodeId)
    requires
        stack_fits(d, stack, head),
        stack.len() >= 2,
        !(part_at(d, stack, 1) is Other),
        2 <= i <= stack.len(),
        loose_from(d, stack, i),
        !stack.contains(id),
        inside(d, id),
        tag_of(d.kind(id)) matches Some(tag) && tag.0 is Some,
        part_of(d.kind(id)) is Other,
    ensures
        stack_fits(d, stack.insert(i, id), head),
        stack_kept(d, d, stack, stack.insert(i, id)),
{
    let longer = stack.insert(i, id);
    assert(longer[0] == stack[0]);
    assert(longer[1] == stack[1]);
    assert forall|j: int| 0 <= j < longer.len() implies inside(d, #[trigger] longer[j])
        && (tag_of(d.kind(longer[j])) matches Some(tag) && tag.0 is Some) by {
        if j != i {
            assert(longer[j] == stack[if j < i {
                j
            } else {
                j - 1
            }]);
        }
    }
    assert forall|j: int| 2 <= j < longer.len() implies #[trigger] inner_fits(d, longer, j) by {
        if j < i {
            assert(inner_fits(d, stack, j));
            assert(longer[j] == stack[j]);
            assert(longer[j - 1] == stack[j - 1]);
        } else if j == i {
            assert(longer[j] == id);
        } else {
            assert(inner_fits(d, stack, j - 1));
            assert(longer[j] == stack[j - 1]);
            assert(!structural(part_at(d, stack, j - 1)));
        }
    }
    assert forall|j: int|
        1 <= j < stack.len() && structural(#[trigger] part_at(d, stack, j)) implies exists|k: int|
        1 <= k < longer.len() && #[trigger] longer[k] == stack[j] by {
        assert(j < i);
        assert(longer[j] == stack[j]);
    }
    if stack.len() >= 3 && part_at(d, stack, 2) is Template {
        assert(i > 2);
        assert(longer[2] == stack[2]);
    }
    lemma_templates_insert(d, stack, i, id);
    assert(longer.no_duplicates()) by {
        assert forall|x: int, y: int|
            0 <= x < longer.len() && 0 <= y < longer.len() && x != y implies longer[x]
            != longer[y] by {
            let a = if x < i {
                x
            } else {
                x - 1
            };
            let b = if y < i {
                y
            } else {
                y - 1
            };
            if x != i {
                assert(longer[x] == stack[a]);
            }
            if y != i {
                assert(longer[y] == stack[b]);
            }
        }
    }
}

/// There are no fewer nodes, and the elements among the old ones keep their names.
pub open spec fn names_kept(t: BuilderModel, u: BuilderModel) -> bool {
    &&& t.document.nodes.len() <= u.document.nodes.len()
    &&& u.small() ==> forall|id: NodeId|
        inside(t.document, id) ==> tag_of(#[trigger] u.document.kind(id)) == tag_of(
            t.document.kind(id),
        )
}

/// A change of the stack alone.
proof fn lemma_live_stack(t: BuilderModel, stack: Seq<NodeId>)
    requires
        t.live(),
        t.small() ==> stack_fits(t.document, stack, t.head()) && stack_kept(
            t.document,
            t.document,
            t.open_elements,
            stack,
        ),
    ensures
        (BuilderModel { open_elements: stack, ..t }).live(),
{
    let u = BuilderModel { open_elements: stack, ..t };
    if t.small() {
        assert(t.sturdy()) by {
            reveal(BuilderModel::live);
        }
        assert(frame_kept(t.document, t.document, t.open_elements[0]));
        lemma_live_changed(t, u);
    } else {
        reveal(BuilderModel::live);
    }
}

/// A change of the document that leaves the frame alone, and of nothing else.
proof fn lemma_live_kept(t: BuilderModel, e: DocumentModel)
    requires
        t.live(),
        t.document.nodes.len() <= e.nodes.len(),
        e.nodes.len() <= usize::MAX ==> frame_kept(t.document, e, t.open_elements[0]),
    ensures
        (BuilderModel { document: e, ..t }).live(),
{
    let u = BuilderModel { document: e, ..t };
    if u.small() {
        lemma_live_document(t, u);
    } else {
        reveal(BuilderModel::live);
    }
}

/// Fewer active formatting elements.
pub proof fn live_without_formatting(t: BuilderModel, node: NodeId)
    requires
        t.live(),
    ensures
        (BuilderModel { formatting: without_formatting(t.formatting, node), ..t }).live(),
{
    let entries = without_formatting(t.formatting, node);
    lemma_formatting_index_from(t.formatting, node, 0);
    if t.small() {
        reveal(BuilderModel::live);
        assert forall|i: int| 0 <= i < entries.len() implies entry_fits(
            t.document,
            #[trigger] entries[i],
        ) by {
            match formatting_index_from(t.formatting, node, 0) {
                Some(k) => {
                    let j = if i < k {
                        i
                    } else {
                        i + 1
                    };
                    assert(entries[i] == t.formatting[j]);
                    assert(entry_fits(t.document, t.formatting[j]));
                },
                None => {
                    assert(entry_fits(t.document, t.formatting[i]));
                },
            }
        }
    }
    lemma_live_formatting(t, entries);
}

// ---- Elements that play no part ----

/// An element that plays no part is a child neither of the document node nor of the
/// `html` element.
pub proof fn lemma_other_is_below(t: BuilderModel, id: NodeId)
    requires
        t.sturdy(),
        inside(t.document, id),
        tag_of(t.document.kind(id)) is Some,
        part_of(t.document.kind(id)) is Other,
    ensures
        t.document.parent(id) != Some(t.document.root),
        t.document.parent(id) != Some(t.open_elements[0]),
{
    let d = t.document;
    let html = t.open_elements[0];
    assert(inside(d, html));
    lemma_element_child(d, d.root, id);
    lemma_element_child(d, html, id);
    if d.parent(id) == Some(d.root) {
        assert(seq![html].contains(id));
    }
    if d.parent(id) == Some(html) {
        let list = element_children(d, html);
        let k = choose|k: int| 0 <= k < list.len() && list[k] == id;
    }
}

/// How many nodes there are after nodes moved.
pub proof fn lemma_move_length(d: DocumentModel, parent: NodeId, before: Option<NodeId>, id: NodeId)
    ensures
        d.remove(id).nodes.len() == d.nodes.len(),
        d.insert_before(parent, before, id).nodes.len() == d.nodes.len(),
{
}

pub proof fn lemma_appended_all_length(d: DocumentModel, ids: Seq<NodeId>, parent: NodeId)
    ensures
        appended_all(d, ids, parent).nodes.len() == d.nodes.len(),
    decreases ids.len(),
{
    if ids.len() > 0 {
        lemma_move_length(d, parent, None, ids[0]);
        lemma_appended_all_length(d.append_child(parent, ids[0]), ids.drop_first(), parent);
    }
}

/// A node that is made for a tag and attached nowhere.
pub proof fn live_create_element(t: BuilderModel, tag: TagModel)
    requires
        t.live(),
        t.small() ==> part_named(tag.name) is Other,
    ensures
        ({
            let u = t.create_element(tag, HTML_NAMESPACE@, None);
            let id = t.document.next_id();
            &&& u.live()
            &&& u == BuilderModel { document: u.document, ..t }
            &&& u.document.nodes.len() > t.document.nodes.len()
            &&& u.small() ==> {
                &&& !inside(t.document, id)
                &&& inside(u.document, id)
                &&& u.document.kind(id) == element_for(tag, HTML_NAMESPACE@)
                &&& u.document.parent(id) is None
                &&& html_name(u.document.kind(id)) == Some(tag.name)
                &&& forall|other: NodeId| inside(
                    t.document,
                    other,
                ) ==> #[trigger] u.document.node(other)
                    == t.document.node(other)
            }
        }),
{
    reveal(BuilderModel::create_element);
    lemma_part_named(tag.name);
    let d = t.document;
    let u = t.create_element(tag, HTML_NAMESPACE@, None);
    if u.small() {
        assert(t.sturdy()) by {
            reveal(BuilderModel::live);
        }
        assert(inside(d, t.open_elements[0]));
        lemma_frame_new_node(d, element_for(tag, HTML_NAMESPACE@), None, t.open_elements[0]);
    } else if tag.name == "template"@ {
        let e = d.new_node(element_for(tag, HTML_NAMESPACE@), None);
        let f = e.new_node(KindModel::DocumentFragment, None);
        lemma_move_length(f, d.next_id(), None, e.next_id());
    }
    lemma_live_kept(t, u.document);
}

// ---- The adoption agency ----

/// What the first entries of the stack are, while elements above them change.
#[verifier::opaque]
spec fn same_below(t: BuilderModel, u: BuilderModel, top: int) -> bool {
    &&& top < t.open_elements.len()
    &&& top < u.open_elements.len()
    &&& forall|j: int| 0 <= j <= top ==> #[trigger] u.open_elements[j] == t.open_elements[j]
    &&& t.document.nodes.len() <= u.document.nodes.len()
    &&& forall|id: NodeId|
        inside(t.document, id) ==> tag_of(#[trigger] u.document.kind(id)) == tag_of(
            t.document.kind(id),
        )
}

/// An element that plays no part, and a node of the document.
spec fn plain_element(d: DocumentModel, id: NodeId) -> bool {
    inside(d, id) && (html_name(d.kind(id)) is Some || tag_of(d.kind(id)) is Some) && part_of(
        d.kind(id),
    ) is Other
}

proof fn lemma_same_below_twice(t: BuilderModel, u: BuilderModel, v: BuilderModel, top: int)
    requires
        same_below(t, u, top),
        same_below(u, v, top),
    ensures
        same_below(t, v, top),
{
    reveal(same_below);
    assert forall|j: int| 0 <= j <= top implies #[trigger] v.open_elements[j]
        == t.open_elements[j] by {
        assert(v.open_elements[j] == u.open_elements[j]);
    }
    assert forall|id: NodeId| inside(t.document, id) implies tag_of(#[trigger] v.document.kind(id))
        == tag_of(t.document.kind(id)) by {
        assert(tag_of(u.document.kind(id)) == tag_of(t.document.kind(id)));
    }
}

proof fn lemma_same_below_again(t: BuilderModel, u: BuilderModel, v: BuilderModel, top: int)
    requires
        same_below(u, v, top),
        u.open_elements == t.open_elements,
        u.document == t.document,
    ensures
        same_below(t, v, top),
{
    reveal(same_below);
}

/// An element between the formatting element and the block leaves the stack.
proof fn live_adopt_drop(t: BuilderModel, top: int, i: int)
    requires
        t.live(),
        0 <= top < i < t.open_elements.len(),
        t.small() ==> loose_from(t.document, t.open_elements, top),
    ensures
        ({
            let u = BuilderModel { open_elements: t.open_elements.remove(i), ..t };
            &&& u.live()
            &&& t.small() ==> same_below(t, u, top) && loose_from(
                u.document,
                u.open_elements,
                top,
            )
        }),
{
    reveal(same_below);
    let stack = t.open_elements.remove(i);
    let d = t.document;
    if t.small() {
        assert(t.sturdy() && rooted(d, t.open_elements)) by {
            reveal(BuilderModel::live);
        }
        assert(inner_fits(d, t.open_elements, i));
        assert(!structural(part_at(d, t.open_elements, i)));
        lemma_stack_remove(d, t.open_elements, t.head(), i);
        assert forall|j: int| top <= j < stack.len() implies !structural(
            #[trigger] part_at(d, stack, j),
        ) by {
            let k = if j < i {
                j
            } else {
                j + 1
            };
            assert(stack[j] == t.open_elements[k]);
            assert(!structural(part_at(d, t.open_elements, k)));
        }
    }
    lemma_live_stack(t, stack);
}

/// An element between the formatting element and the block is replaced in the stack.
proof fn live_adopt_swap(t: BuilderModel, top: int, i: int, copy: NodeId)
    requires
        t.live(),
        0 <= top < i < t.open_elements.len(),
        t.small() ==> {
            &&& loose_from(t.document, t.open_elements, top)
            &&& plain_element(t.document, copy)
            &&& html_name(t.document.kind(copy)) is Some
            &&& !t.open_elements.contains(copy)
        },
    ensures
        ({
            let u = BuilderModel { open_elements: t.open_elements.update(i, copy), ..t };
            &&& u.live()
            &&& t.small() ==> same_below(t, u, top) && loose_from(
                u.document,
                u.open_elements,
                top,
            )
        }),
{
    reveal(same_below);
    let d = t.document;
    let stack = t.open_elements.update(i, copy);
    let shorter = t.open_elements.remove(i);
    live_adopt_drop(t, top, i);
    if t.small() {
        let u = BuilderModel { open_elements: shorter, ..t };
        assert(t.sturdy() && rooted(d, t.open_elements)) by {
            reveal(BuilderModel::live);
        }
        assert(u.sturdy() && rooted(d, shorter)) by {
            reveal(BuilderModel::live);
        }
        assert(inner_fits(d, t.open_elements, i));
        assert(!structural(part_at(d, t.open_elements, i)));
        lemma_stack_remove(d, t.open_elements, t.head(), i);
        assert(!shorter.contains(copy)) by {
            assert forall|j: int| 0 <= j < shorter.len() implies #[trigger] shorter[j] != copy by {
                let m = if j < i {
                    j
                } else {
                    j + 1
                };
                assert(shorter[j] == t.open_elements[m]);
            }
        }
        assert(loose_from(d, shorter, i)) by {
            assert forall|j: int| i <= j < shorter.len() implies !structural(
                #[trigger] part_at(d, shorter, j),
            ) by {}
        }
        lemma_stack_insert(d, shorter, t.head(), i, copy);
        assert(shorter.insert(i, copy) == stack);
        lemma_stack_kept_twice(d, t.open_elements, shorter, stack);
        assert forall|j: int| top <= j < stack.len() implies !structural(
            #[trigger] part_at(d, stack, j),
        ) by {
            if j != i {
                assert(stack[j] == t.open_elements[j]);
                assert(!structural(part_at(d, t.open_elements, j)));
            }
        }
    }
    lemma_live_stack(t, stack);
}

/// An active formatting element between the formatting element and the block is
/// replaced by a copy, which takes what was adopted so far.
#[verifier::rlimit(60)]
proof fn live_adopt_copy(t: BuilderModel, top: int, i: int, k: int, last: NodeId)
    requires
        t.live(),
        0 <= top < i < t.open_elements.len(),
        0 <= k < t.formatting.len(),
        t.formatting[k] == FormattingEntry::Element(t.open_elements[i]),
        t.small() ==> loose_from(t.document, t.open_elements, top) && plain_element(
            t.document,
            last,
        ),
    ensures
        ({
            let copy = t.document.next_id();
            let u = t.create_element(
                tag_for(t.document.kind(t.open_elements[i])),
                HTML_NAMESPACE@,
                None,
            );
            let x = BuilderModel {
                document: u.document.append_child(copy, last),
                formatting: u.formatting.update(k, FormattingEntry::Element(copy)),
                open_elements: u.open_elements.update(i, copy),
                ..u
            };
            &&& x.live()
            &&& t.document.nodes.len() <= x.document.nodes.len()
            &&& x.formatting.len() == t.formatting.len()
            &&& x.open_elements.len() == t.open_elements.len()
            &&& x.small() ==> same_below(t, x, top) && loose_from(
                x.document,
                x.open_elements,
                top,
            ) && plain_element(x.document, copy)
        }),
{
    let node = t.open_elements[i];
    let tag = tag_for(t.document.kind(node));
    let copy = t.document.next_id();
    let u = t.create_element(tag, HTML_NAMESPACE@, None);
    assert(t.small() ==> t.sturdy() && part_named(tag.name) is Other) by {
        reveal(BuilderModel::live);
        if t.small() {
            assert(entry_fits(t.document, t.formatting[k]));
        }
    }
    live_create_element(t, tag);
    let e = u.document.append_child(copy, last);
    lemma_move_length(u.document, copy, None, last);
    let v = BuilderModel { document: e, ..u };
    if v.small() {
        assert(u.sturdy()) by {
            reveal(BuilderModel::live);
        }
        assert(u.document.node(last) == t.document.node(last));
        lemma_other_is_below(u, last);
        assert(inside(t.document, t.open_elements[0]));
        assert(inside(u.document, u.open_elements[0]));
        assert(copy != u.document.root && copy != u.open_elements[0]);
        lemma_frame_insert(u.document, copy, None, last, u.open_elements[0]);
        assert(tag_of(e.kind(copy)) == tag_of(u.document.kind(copy)));
    }
    lemma_live_kept(u, e);
    let entries = v.formatting.update(k, FormattingEntry::Element(copy));
    let w = BuilderModel { formatting: entries, ..v };
    if v.small() {
        assert(formatting_fits(e, v.formatting)) by {
            reveal(BuilderModel::live);
        }
        assert forall|j: int| 0 <= j < entries.len() implies entry_fits(
            e,
            #[trigger] entries[j],
        ) by {
            if j != k {
                assert(entry_fits(e, v.formatting[j]));
            }
        }
    }
    lemma_live_formatting(v, entries);
    if v.small() {
        assert forall|id: NodeId| inside(t.document, id) implies tag_of(#[trigger] e.kind(id))
            == tag_of(t.document.kind(id)) by {
            assert(u.document.node(id) == t.document.node(id));
            assert(tag_of(e.kind(id)) == tag_of(u.document.kind(id)));
        }
        lemma_kept_loose(t, w, top);
        assert(!w.open_elements.contains(copy)) by {
            assert forall|j: int| 0 <= j < w.open_elements.len() implies #[trigger] w.open_elements[j]
                != copy by {
                assert(inside(t.document, t.open_elements[j]));
            }
        }
        assert(same_below(t, w, top)) by {
            reveal(same_below);
        }
    }
    live_adopt_swap(w, top, i, copy);
    if v.small() {
        let x = BuilderModel { open_elements: w.open_elements.update(i, copy), ..w };
        lemma_same_below_twice(t, w, x, top);
    }
}

/// Nothing from the formatting element on holds the structure together, and what is
/// adopted next plays no part.
#[verifier::opaque]
spec fn adoptable(t: BuilderModel, top: int, last: NodeId) -> bool {
    t.small() ==> loose_from(t.document, t.open_elements, top) && plain_element(t.document, last)
}

/// What a round of adoption keeps.
#[verifier::opaque]
spec fn adopts(t: BuilderModel, u: BuilderModel, top: int) -> bool {
    &&& t.document.nodes.len() <= u.document.nodes.len()
    &&& u.small() ==> same_below(t, u, top)
}

proof fn lemma_adopts_twice(
    t: BuilderModel,
    a: BuilderModel,
    u: BuilderModel,
    v: BuilderModel,
    top: int,
)
    requires
        a.open_elements == t.open_elements,
        a.document == t.document,
        adopts(a, u, top),
        adopts(u, v, top),
    ensures
        adopts(t, v, top),
{
    reveal(adopts);
    if v.small() {
        lemma_same_below_twice(a, u, v, top);
        lemma_same_below_again(t, a, v, top);
    }
}

proof fn live_adopt_drop_next(t: BuilderModel, top: int, i: int, last: NodeId)
    requires
        t.live(),
        0 <= top < i < t.open_elements.len(),
        adoptable(t, top, last),
    ensures
        ({
            let u = BuilderModel { open_elements: t.open_elements.remove(i), ..t };
            u.live() && adopts(t, u, top) && adoptable(u, top, last)
        }),
{
    reveal(adopts);
    reveal(adoptable);
    live_adopt_drop(t, top, i);
}

proof fn live_adopt_copy_next(t: BuilderModel, top: int, i: int, k: int, last: NodeId)
    requires
        t.live(),
        0 <= top < i < t.open_elements.len(),
        0 <= k < t.formatting.len(),
        t.formatting[k] == FormattingEntry::Element(t.open_elements[i]),
        adoptable(t, top, last),
    ensures
        ({
            let x = adopt_copied(t, i, k, last);
            &&& x.live()
            &&& adopts(t, x, top)
            &&& adoptable(x, top, t.document.next_id())
            &&& x.formatting.len() == t.formatting.len()
            &&& x.open_elements.len() == t.open_elements.len()
        }),
{
    reveal(adopts);
    reveal(adoptable);
    live_adopt_copy(t, top, i, k, last);
}

/// The tree builder after one active formatting element was replaced by a copy.
spec fn adopt_copied(t: BuilderModel, i: int, k: int, last: NodeId) -> BuilderModel {
    let copy = t.document.next_id();
    let u = t.create_element(
        tag_for(t.document.kind(t.open_elements[i])),
        HTML_NAMESPACE@,
        None,
    );
    BuilderModel {
        document: u.document.append_child(copy, last),
        formatting: u.formatting.update(k, FormattingEntry::Element(copy)),
        open_elements: u.open_elements.update(i, copy),
        ..u
    }
}

/// One round of adoption, unrolled.
proof fn lemma_adopt_up_unrolled(
    t: BuilderModel,
    a: BuilderModel,
    top: int,
    i: int,
    block: NodeId,
    last: NodeId,
    bookmark: int,
    mark: int,
    steps: int,
)
    requires
        top < i,
        a == if steps >= 3 {
            BuilderModel {
                formatting: without_formatting(t.formatting, t.open_elements[i]),
                ..t
            }
        } else {
            t
        },
        mark == match formatting_index_from(t.formatting, t.open_elements[i], 0) {
            Some(k) => if steps >= 3 && k < bookmark {
                bookmark - 1
            } else {
                bookmark
            },
            None => bookmark,
        },
    ensures
        t.adopt_up(top, i, block, last, bookmark, steps) == match formatting_index_from(
            a.formatting,
            t.open_elements[i],
            0,
        ) {
            None => BuilderModel { open_elements: a.open_elements.remove(i), ..a }.adopt_up(
                top,
                i - 1,
                block,
                last,
                mark,
                steps + 1,
            ),
            Some(k) => adopt_copied(a, i, k, last).adopt_up(
                top,
                i - 1,
                block,
                a.document.next_id(),
                if last == block {
                    k + 1
                } else {
                    mark
                },
                steps + 1,
            ),
        },
{
}

proof fn live_adopt_up(
    t: BuilderModel,
    top: int,
    i: int,
    block: NodeId,
    last: NodeId,
    bookmark: int,
    steps: int,
)
    requires
        t.live(),
        0 <= top < t.open_elements.len(),
        i < t.open_elements.len(),
        0 <= bookmark <= t.formatting.len(),
        adoptable(t, top, last),
    ensures
        adopted(t, top, t.adopt_up(top, i, block, last, bookmark, steps)),
    decreases i - top, 1int,
{
    if i > top {
        let node = t.open_elements[i];
        let active = formatting_index_from(t.formatting, node, 0);
        let a = if steps >= 3 {
            BuilderModel { formatting: without_formatting(t.formatting, node), ..t }
        } else {
            t
        };
        let mark = match active {
            Some(k) => if steps >= 3 && k < bookmark {
                bookmark - 1
            } else {
                bookmark
            },
            None => bookmark,
        };
        assert(a.live() && adoptable(a, top, last) && 0 <= mark <= a.formatting.len()) by {
            reveal(adoptable);
            live_without_formatting(t, node);
            lemma_formatting_index_from(t.formatting, node, 0);
        }
        lemma_adopt_up_unrolled(t, a, top, i, block, last, bookmark, mark, steps);
        live_adopt_up_from(t, a, top, i, block, last, mark, steps);
    } else {
        assert(adopted(t, top, (t, last, bookmark))) by {
            reveal(adopts);
            reveal(same_below);
        }
    }
}

/// What is known after the rounds of adoption.
spec fn adopted(t: BuilderModel, top: int, r: (BuilderModel, NodeId, int)) -> bool {
    &&& r.0.live()
    &&& adopts(t, r.0, top)
    &&& adoptable(r.0, top, r.1)
    &&& 0 <= r.2 <= r.0.formatting.len()
}

proof fn live_adopt_up_from(
    t: BuilderModel,
    a: BuilderModel,
    top: int,
    i: int,
    block: NodeId,
    last: NodeId,
    mark: int,
    steps: int,
)
    requires
        a.live(),
        a.open_elements == t.open_elements,
        a.document == t.document,
        0 <= top < i < a.open_elements.len(),
        0 <= mark <= a.formatting.len(),
        adoptable(a, top, last),
    ensures
        adopted(
            t,
            top,
            match formatting_index_from(a.formatting, t.open_elements[i], 0) {
                None => BuilderModel { open_elements: a.open_elements.remove(i), ..a }.adopt_up(
                    top,
                    i - 1,
                    block,
                    last,
                    mark,
                    steps + 1,
                ),
                Some(k) => adopt_copied(a, i, k, last).adopt_up(
                    top,
                    i - 1,
                    block,
                    a.document.next_id(),
                    if last == block {
                        k + 1
                    } else {
                        mark
                    },
                    steps + 1,
                ),
            },
        ),
    decreases i - top, 0int,
{
    let node = a.open_elements[i];
    assert(formatting_index_from(a.formatting, node, 0) matches Some(k) ==> 0 <= k
        < a.formatting.len() && a.formatting[k] == FormattingEntry::Element(node)) by {
        lemma_formatting_index_from(a.formatting, node, 0);
    }
    match formatting_index_from(a.formatting, node, 0) {
        None => {
            let b = BuilderModel { open_elements: a.open_elements.remove(i), ..a };
            live_adopt_drop_next(a, top, i, last);
            live_adopt_up(b, top, i - 1, block, last, mark, steps + 1);
            let y = b.adopt_up(top, i - 1, block, last, mark, steps + 1);
            lemma_adopts_twice(t, a, b, y.0, top);
        },
        Some(k) => {
            let x = adopt_copied(a, i, k, last);
            let copy = a.document.next_id();
            live_adopt_copy_next(a, top, i, k, last);
            let next = if last == block {
                k + 1
            } else {
                mark
            };
            live_adopt_up(x, top, i - 1, block, copy, next, steps + 1);
            let y = x.adopt_up(top, i - 1, block, copy, next, steps + 1);
            lemma_adopts_twice(t, a, x, y.0, top);
        },
    }
}

/// The same entries under the same names are still loose.
proof fn lemma_kept_loose(t: BuilderModel, u: BuilderModel, top: int)
    requires
        t.sturdy(),
        u.open_elements == t.open_elements,
        forall|id: NodeId|
            inside(t.document, id) ==> tag_of(#[trigger] u.document.kind(id)) == tag_of(
                t.document.kind(id),
            ),
        loose_from(t.document, t.open_elements, top),
    ensures
        loose_from(u.document, u.open_elements, top),
{
    assert forall|j: int| top <= j < u.open_elements.len() implies !structural(
        #[trigger] part_at(u.document, u.open_elements, j),
    ) by {
        assert(inside(t.document, t.open_elements[j]));
        assert(!structural(part_at(t.document, t.open_elements, j)));
    }
}

/// What is kept twice is kept.
proof fn lemma_stack_kept_twice(d: DocumentModel, a: Seq<NodeId>, b: Seq<NodeId>, c: Seq<NodeId>)
    requires
        stack_kept(d, d, a, b),
        stack_kept(d, d, b, c),
    ensures
        stack_kept(d, d, a, c),
{
    assert forall|i: int| 1 <= i < a.len() && structural(
        #[trigger] part_at(d, a, i),
    ) implies exists|
        j: int,
    | 1 <= j < c.len() && #[trigger] c[j] == a[i] by {
        let k = choose|k: int| 1 <= k < b.len() && #[trigger] b[k] == a[i];
        assert(structural(part_at(d, b, k)));
        let j = choose|j: int| 1 <= j < c.len() && #[trigger] c[j] == b[k];
        assert(c[j] == a[i]);
    }
}

proof fn live_replant(t: BuilderModel, node: NodeId, location: InsertionLocation)
    requires
        t.live(),
        t.small() ==> plain_element(t.document, node) && inside(t.document, location.parent)
            && location.parent != t.document.root && location.parent != t.open_elements[0],
    ensures
        t.replant(node, location).live(),
        t.replant(node, location).document.nodes.len() == t.document.nodes.len(),
        t.small() ==> frame_kept(
            t.document,
            t.replant(node, location).document,
            t.open_elements[0],
        ),
{
    let u = t.replant(node, location);
    let d = t.document;
    let e = d.remove(node);
    let html = t.open_elements[0];
    lemma_move_length(d, location.parent, location.before, node);
    lemma_move_length(e, location.parent, location.before, node);
    if t.small() {
        assert(t.sturdy()) by {
            reveal(BuilderModel::live);
        }
        assert(inside(d, html));
        lemma_other_is_below(t, node);
        lemma_kin_remove(d, node);
        lemma_frame_remove(d, node, html);
        lemma_frame_insert(e, location.parent, location.before, node, html);
        lemma_frame_kept_twice(
            d,
            e,
            e.insert_before(location.parent, location.before, node),
            html,
        );
    }
    lemma_live_kept(t, u.document);
}

#[verifier::rlimit(60)]
#[verifier::spinoff_prover]
proof fn live_replace_formatting_element(
    t: BuilderModel,
    formatting: NodeId,
    top: int,
    block: NodeId,
    bookmark: int,
)
    requires
        t.live(),
        0 <= bookmark <= t.formatting.len(),
        t.small() ==> {
            &&& 0 <= top < t.open_elements.len()
            &&& t.open_elements[top] == formatting
            &&& loose_from(t.document, t.open_elements, top)
            &&& html_name(t.document.kind(formatting)) is Some
            &&& plain_element(t.document, formatting)
            &&& plain_element(t.document, block)
            &&& forall|j: int| 0 <= j < top ==> t.open_elements[j] != block
        },
    ensures
        t.replace_formatting_element(formatting, block, bookmark).live(),
        names_kept(t, t.replace_formatting_element(formatting, block, bookmark)),
{
    let tag = tag_for(t.document.kind(formatting));
    let copy = t.document.next_id();
    lemma_formatting_index_from(t.formatting, formatting, 0);
    let u = t.create_element(tag, HTML_NAMESPACE@, None);
    live_create_element(t, tag);
    let children = u.document.children(block);
    let place = match formatting_index_from(u.formatting, formatting, 0) {
        Some(k) => if k < bookmark {
            bookmark - 1
        } else {
            bookmark
        },
        None => bookmark,
    };
    let e = u.document.append_child(block, copy);
    let f = appended_all(e, children, copy);
    lemma_move_length(u.document, block, None, copy);
    lemma_appended_all_length(e, children, copy);
    let r = t.replace_formatting_element(formatting, block, bookmark);
    if f.nodes.len() <= usize::MAX {
        assert(u.sturdy()) by {
            reveal(BuilderModel::live);
        }
        assert(t.sturdy() && rooted(t.document, t.open_elements)) by {
            reveal(BuilderModel::live);
        }
        let html = u.open_elements[0];
        assert(inside(t.document, html));
        assert(u.document.node(block) == t.document.node(block));
        assert(u.document.node(html) == t.document.node(html));
        assert(block != u.document.root && block != html && copy != u.document.root && copy
            != html);
        lemma_frame_insert(u.document, block, None, copy, html);
        lemma_kin_insert(u.document, block, None, copy);
        assert(kin_of(u.document, block));
        assert forall|i: int| 0 <= i < children.len() implies inside(e, #[trigger] children[i])
            && e.parent(children[i]) == Some(block) by {
            assert(inside(u.document, u.document.children(block)[i]));
            assert(u.document.parent(children[i]) == Some(block));
            assert(children[i] != copy);
        }
        lemma_frame_appended_all(e, children, block, copy, html);
        lemma_frame_kept_twice(u.document, e, f, html);
    }
    lemma_live_kept(u, f);
    let v = BuilderModel { document: f, ..u };
    live_without_formatting(v, formatting);
    let kept = without_formatting(v.formatting, formatting);
    let w = BuilderModel { formatting: kept, ..v };
    let entries = kept.insert(place, FormattingEntry::Element(copy));
    let x = BuilderModel { formatting: entries, ..w };
    if f.nodes.len() <= usize::MAX {
        assert(tag_of(f.kind(copy)) == tag_of(u.document.kind(copy)));
        assert(formatting_fits(f, kept)) by {
            reveal(BuilderModel::live);
        }
        lemma_formatting_insert(f, kept, place, copy);
    }
    lemma_live_formatting(w, entries);
    let stack = without_node(t.open_elements, formatting);
    if f.nodes.len() <= usize::MAX {
        assert(x.sturdy() && rooted(x.document, x.open_elements)) by {
            reveal(BuilderModel::live);
        }
        assert(t.open_elements[top] == formatting);
        lemma_index_found(t.open_elements, formatting, 0);
        assert(stack == t.open_elements.remove(top));
        assert forall|id: NodeId| inside(t.document, id) implies tag_of(#[trigger] f.kind(id))
            == tag_of(t.document.kind(id)) by {
            assert(u.document.node(id) == t.document.node(id));
            assert(tag_of(f.kind(id)) == tag_of(u.document.kind(id)));
        }
        lemma_kept_loose(t, x, top);
        assert(inner_fits(f, x.open_elements, top));
        assert(!structural(part_at(f, x.open_elements, top)));
        lemma_stack_remove(f, x.open_elements, x.head(), top);
        assert forall|j: int| top <= j < stack.len() implies !structural(
            #[trigger] part_at(f, stack, j),
        ) by {
            assert(stack[j] == x.open_elements[j + 1]);
            assert(!structural(part_at(f, x.open_elements, j + 1)));
        }
        lemma_index_found(stack, block, 0);
        let k = match index_from(stack, block, 0) {
            Some(k) => k + 1,
            None => stack.len() as int,
        };
        assert(k >= top) by {
            match index_from(stack, block, 0) {
                Some(m) => {
                    if m < top {
                        assert(stack[m] == t.open_elements[m]);
                    }
                },
                None => {},
            }
        }
        assert(!stack.contains(copy)) by {
            assert forall|j: int| 0 <= j < stack.len() implies #[trigger] stack[j] != copy by {
                let m = if j < top {
                    j
                } else {
                    j + 1
                };
                assert(stack[j] == t.open_elements[m]);
                assert(inside(t.document, t.open_elements[m]));
            }
        }
        assert(stack[1] == x.open_elements[1]);
        lemma_stack_insert(f, stack, x.head(), k, copy);
        lemma_stack_kept_twice(f, x.open_elements, stack, stack.insert(k, copy));
        assert(r.open_elements == stack.insert(k, copy));
    }
    lemma_live_stack(x, r.open_elements);
    assert(r == (BuilderModel { open_elements: r.open_elements, ..x }));
}

/// A node of the stack has an index.
pub proof fn lemma_index_found(stack: Seq<NodeId>, node: NodeId, i: int)
    requires
        0 <= i,
    ensures
        match index_from(stack, node, i) {
            Some(k) => i <= k < stack.len() && stack[k] == node,
            None => forall|k: int| i <= k < stack.len() ==> #[trigger] stack[k] != node,
        },
    decreases stack.len() - i,
{
    if i < stack.len() && stack[i] != node {
        lemma_index_found(stack, node, i + 1);
    }
}

proof fn lemma_formatting_insert(
    d: DocumentModel,
    entries: Seq<FormattingEntry>,
    place: int,
    id: NodeId,
)
    requires
        formatting_fits(d, entries),
        entry_fits(d, FormattingEntry::Element(id)),
        0 <= place <= entries.len(),
    ensures
        formatting_fits(d, entries.insert(place, FormattingEntry::Element(id))),
{
    let longer = entries.insert(place, FormattingEntry::Element(id));
    assert forall|i: int| 0 <= i < longer.len() implies entry_fits(d, #[trigger] longer[i]) by {
        if i != place {
            let j = if i < place {
                i
            } else {
                i - 1
            };
            assert(longer[i] == entries[j]);
            assert(entry_fits(d, entries[j]));
        }
    }
}


#[verifier::rlimit(60)]
#[verifier::spinoff_prover]
proof fn live_adopt(t: BuilderModel, formatting: NodeId, top: int, b: int)
    requires
        t.live(),
        0 <= top < b < t.open_elements.len(),
        t.small() ==> {
            &&& t.open_elements[top] == formatting
            &&& loose_from(t.document, t.open_elements, top)
            &&& html_name(t.document.kind(formatting)) is Some
            &&& plain_element(t.document, formatting)
        },
    ensures
        t.adopt(formatting, top, b).live(),
        names_kept(t, t.adopt(formatting, top, b)),
        t.adopt(formatting, top, b).small() ==> adopted_copy(
            t.document,
            t.adopt(formatting, top, b).document,
            formatting,
            t.open_elements[b],
        ),
{
    reveal(BuilderModel::adopt);
    reveal(same_below);
    let block = t.open_elements[b];
    let above = if top > 0 {
        t.open_elements[top - 1]
    } else {
        t.document.root
    };
    let bookmark = match formatting_index_from(t.formatting, formatting, 0) {
        Some(k) => k,
        None => 0,
    };
    lemma_formatting_index_from(t.formatting, formatting, 0);
    assert(t.small() ==> t.sturdy() && plain_element(t.document, block)) by {
        if t.small() {
            reveal(BuilderModel::live);
            assert(inside(t.document, block));
            assert(!structural(part_at(t.document, t.open_elements, b)));
            assert(inner_fits(t.document, t.open_elements, b));
        }
    }
    assert(adoptable(t, top, block)) by {
        reveal(adoptable);
    }
    live_adopt_up(t, top, b - 1, block, block, bookmark, 0);
    reveal(adopts);
    reveal(adoptable);
    let (u, last, mark) = t.adopt_up(top, b - 1, block, block, bookmark, 0);
    let location = u.location(Some(above));
    if u.small() {
        assert(u.sturdy() && rooted(u.document, u.open_elements)) by {
            reveal(BuilderModel::live);
        }
        assert(u.open_elements[top - 1] == t.open_elements[top - 1]);
        lemma_location(u, Some(above));
    }
    live_replant(u, last, location);
    let v = u.replant(last, location);
    if v.small() {
        assert(v.open_elements[top] == formatting) by {
            assert(u.open_elements[top] == t.open_elements[top]);
        }
        assert forall|id: NodeId| inside(t.document, id) implies tag_of(
            #[trigger] v.document.kind(id),
        ) == tag_of(t.document.kind(id)) by {
            assert(tag_of(u.document.kind(id)) == tag_of(t.document.kind(id)));
        }
        assert(tag_of(v.document.kind(formatting)) == tag_of(t.document.kind(formatting)));
        assert(tag_of(v.document.kind(block)) == tag_of(t.document.kind(block)));
        lemma_kept_loose(u, v, top);
        assert forall|j: int| 0 <= j < top implies v.open_elements[j] != block by {
            assert(u.open_elements[j] == t.open_elements[j]);
        }
    }
    assert(v.open_elements == u.open_elements);
    live_replace_formatting_element(v, formatting, top, block, mark);
    let w = v.replace_formatting_element(formatting, block, mark);
    if w.small() {
        assert(contents_kept(t.document, v.document)) by {
            lemma_adopt_up_contents(t, top, b - 1, block, block, bookmark, 0);
            lemma_replant_contents(u, last, location);
            lemma_contents_kept_twice(t.document, u.document, v.document);
        }
        lemma_replaced_length(v, formatting, block, mark);
        assert(kin(v.document)) by {
            reveal(BuilderModel::live);
        }
        lemma_adopted_copy(t.document, v, formatting, block, mark);
    }
}

/// Replacing the formatting element takes no node away.
proof fn lemma_replaced_length(
    t: BuilderModel,
    formatting: NodeId,
    block: NodeId,
    bookmark: int,
)
    ensures
        t.document.nodes.len() <= t.replace_formatting_element(
            formatting,
            block,
            bookmark,
        ).document.nodes.len(),
{
    let copy = t.document.next_id();
    let tag = tag_for(t.document.kind(formatting));
    let u = t.create_element(tag, HTML_NAMESPACE@, None);
    lemma_created(t, tag, HTML_NAMESPACE@, None);
    lemma_move_length(u.document, block, None, copy);
    lemma_appended_all_length(
        u.document.append_child(block, copy),
        u.document.children(block),
        copy,
    );
}

pub broadcast proof fn live_any_other_end_tag(t: BuilderModel, tag: TagModel)
    requires
        t.live(),
        !(part_named(tag.name) is Html),
        !(part_named(tag.name) is Body),
        !(part_named(tag.name) is Template),
        !structural(part_named(tag.name)) || t.insertion_mode is InBody || t.insertion_mode
            is InCaption,
    ensures
        #[trigger] t.any_other_end_tag(tag).live(),
        names_kept(t, t.any_other_end_tag(tag)),
{
    reveal(BuilderModel::any_other_end_tag);
    let d = t.document;
    let stack = t.open_elements;
    lemma_closed_by_end_tag(d, stack, tag.name);
    match closed_by_end_tag(d, stack, tag.name) {
        None => {
            live_error(t, ParseErrorKind::StrayEndTag);
        },
        Some(i) => {
            let u = t.generate_implied_end_tags(Some(tag.name));
            live_generate_implied_end_tags(t, Some(tag.name));
            let v = if u.open_elements.len() == i + 1 {
                u
            } else {
                u.error(ParseErrorKind::ImpliedEndTagWithUnclosedElements)
            };
            live_error(u, ParseErrorKind::ImpliedEndTagWithUnclosedElements);
            lemma_implied(d, stack, Group::ImpliedEndTags, Some(tag.name));
            let n = length_without_implied(d, stack, Group::ImpliedEndTags, Some(tag.name));
            lemma_frame_pop_to(t, stack[0], n);
            assert(i < n) by {
                if n <= i {
                    assert(!is_called(d, stack[i], Some(tag.name)));
                }
            }
            if u.small() {
                assert(t.sturdy() && rooted(d, stack)) by {
                    reveal(BuilderModel::live);
                }
                assert(u.sturdy() && rooted(u.document, u.open_elements)) by {
                    reveal(BuilderModel::live);
                }
                assert(u.open_elements[i] == stack[i]);
                assert forall|j: int| 0 <= j < stack.len() implies inside(
                    d,
                    #[trigger] stack[j],
                ) by {}
                assert forall|j: int| i <= j < u.open_elements.len() implies (j == i || part_at(
                    u.document,
                    u.open_elements,
                    j,
                ) is Other) && #[trigger] part_at(u.document, u.open_elements, j) == part_at(
                    d,
                    stack,
                    j,
                ) by {
                    assert(u.open_elements[j] == stack[j]);
                    assert(inside(d, stack[j]));
                    assert(tag_of(u.document.kind(stack[j])) == tag_of(d.kind(stack[j])));
                    if j > i {
                        lemma_part_bounds(d.kind(stack[j]), Scope::Default);
                    }
                }
                assert(part_at(u.document, u.open_elements, i) == part_named(tag.name));
                assert(i >= 2) by {
                    if i == 1 {
                        assert(part_at(u.document, u.open_elements, 1) is Head);
                        assert(part_at(u.document, u.open_elements, 2) is Template);
                    }
                }
                if !structural(part_named(tag.name)) {
                    assert(loose_from(v.document, v.open_elements, i));
                }
            }
            lemma_pop_to_names(t, n);
            lemma_pop_to_names(v, i);
            if !structural(part_named(tag.name)) || !u.small() {
                lemma_live_pop_to(v, i);
            } else {
                lemma_live_pop_shallow(v, i);
            }
        },
    }
}

/// Popping keeps names.
pub proof fn lemma_pop_to_names(t: BuilderModel, n: int)
    requires
        t.live(),
        0 <= n <= t.open_elements.len(),
    ensures
        names_kept(t, t.pop_to(n)),
{
    reveal(BuilderModel::live);
    lemma_frame_pop_to(t, t.open_elements[0], n);
    if t.pop_to(n).small() {
        assert forall|j: int| 0 <= j < t.open_elements.len() implies inside(
            t.document,
            #[trigger] t.open_elements[j],
        ) by {}
    }
}

/// In modes that need nothing of tables, all that is above the body or the outermost
/// template may go.
pub proof fn lemma_live_pop_shallow(t: BuilderModel, n: int)
    requires
        t.live(),
        t.small(),
        t.insertion_mode is InBody || t.insertion_mode is InCaption || t.insertion_mode
            is InColumnGroup,
        2 <= n <= t.open_elements.len(),
        t.open_elements.len() >= 3 && part_at(t.document, t.open_elements, 2) is Template ==> n
            >= 3,
    ensures
        t.pop_to(n).live(),
{
    let u = t.pop_to(n);
    let d = t.document;
    let stack = t.open_elements;
    lemma_frame_pop_to(t, stack[0], n);
    reveal(BuilderModel::live);
    if u.small() {
        assert forall|i: int| 0 <= i < stack.len() implies inside(d, #[trigger] stack[i]) by {}
        lemma_lists_kept(t, u.document, stack[0]);
        lemma_stack_take(u.document, stack, t.head(), n);
        assert forall|i: int| 0 <= i < n implies #[trigger] u.open_elements[i] == stack[i] by {}
        assert(u.open_elements[0] == stack[0] && u.open_elements[1] == stack[1]);
        assert(tag_of(u.document.kind(stack[1])) == tag_of(d.kind(stack[1])));
        if stack.len() >= 3 && n >= 3 {
            assert(u.open_elements[2] == stack[2]);
            assert(tag_of(u.document.kind(stack[2])) == tag_of(d.kind(stack[2])));
        }
        lemma_templates_take(u.document, stack, n);
        assert(tag_of(u.document.kind(t.head())) == tag_of(d.kind(t.head())));
    }
}

proof fn lemma_closed_by_end_tag(d: DocumentModel, stack: Seq<NodeId>, name: Seq<char>)
    ensures
        closed_by_end_tag(d, stack, name) matches Some(i) ==> 0 <= i < stack.len() && html_name(
            d.kind(stack[i]),
        ) == Some(name) && forall|j: int|
            i < j < stack.len() ==> !special_kind(d.kind(#[trigger] stack[j])),
    decreases stack.len(),
{
    if stack.len() > 0 && html_name(d.kind(stack.last())) != Some(name) && !special_kind(
        d.kind(stack.last()),
    ) {
        let rest = stack.drop_last();
        lemma_closed_by_end_tag(d, rest, name);
        match closed_by_end_tag(d, rest, name) {
            Some(i) => {
                assert(rest[i] == stack[i]);
                assert forall|j: int| i < j < stack.len() implies !special_kind(
                    d.kind(#[trigger] stack[j]),
                ) by {
                    if j < rest.len() {
                        assert(rest[j] == stack[j]);
                    }
                }
            },
            None => {},
        }
    }
}

pub proof fn lemma_last_formatting_named(
    d: DocumentModel,
    entries: Seq<FormattingEntry>,
    name: Seq<char>,
)
    ensures
        last_formatting_named(d, entries, name) matches Some(node) ==> is_called(
            d,
            node,
            Some(name),
        ) && exists|i: int|
            0 <= i < entries.len() && #[trigger] entries[i] == FormattingEntry::Element(node),
    decreases entries.len(),
{
    if entries.len() > 0 {
        let rest = entries.drop_last();
        lemma_last_formatting_named(d, rest, name);
        match entries.last() {
            FormattingEntry::Marker => {},
            FormattingEntry::Element(node) => {
                assert(entries[entries.len() - 1] == FormattingEntry::Element(node));
                if !is_called(d, node, Some(name)) {
                    match last_formatting_named(d, rest, name) {
                        Some(other) => {
                            let i = choose|i: int|
                                0 <= i < rest.len() && #[trigger] rest[i]
                                    == FormattingEntry::Element(other);
                            assert(entries[i] == FormattingEntry::Element(other));
                        },
                        None => {},
                    }
                }
            },
        }
    }
}

pub proof fn live_adoption_round(t: BuilderModel, tag: TagModel)
    requires
        t.live(),
        part_named(tag.name) is Other,
    ensures
        t.adoption_round(tag).0.live(),
        names_kept(t, t.adoption_round(tag).0),
        t.adoption_round(tag).1 && t.adoption_round(tag).0.small() ==> exists|
            formatting: NodeId,
            b: int,
        |
            0 <= b < t.open_elements.len() && html_name(t.document.kind(formatting)) == Some(
                tag.name,
            ) && t.formatting.contains(FormattingEntry::Element(formatting))
                && #[trigger] adopted_copy(
                t.document,
                t.adoption_round(tag).0.document,
                formatting,
                t.open_elements[b],
            ),
{
    reveal(BuilderModel::adoption_round);
    lemma_last_formatting_named(t.document, t.formatting, tag.name);
    match last_formatting_named(t.document, t.formatting, tag.name) {
        None => {
            live_any_other_end_tag(t, tag);
        },
        Some(node) => {
            lemma_index_found(t.open_elements, node, 0);
            match index_from(t.open_elements, node, 0) {
                None => {
                    let u = t.error(ParseErrorKind::StrayEndTag);
                    live_error(t, ParseErrorKind::StrayEndTag);
                    live_without_formatting(u, node);
                },
                Some(top) => {
                    live_error(t, ParseErrorKind::FormattingElementNotInScope);
                    live_error(t, ParseErrorKind::MisnestedFormattingElement);
                    let u = if t.current_node() == Some(node) {
                        t
                    } else {
                        t.error(ParseErrorKind::MisnestedFormattingElement)
                    };
                    if node_in_scope(t.document, t.open_elements, node) {
                        if t.small() {
                            lemma_reachable_node(t, node, top);
                            let k = choose|k: int|
                                0 <= k < t.formatting.len() && #[trigger] t.formatting[k]
                                    == FormattingEntry::Element(node);
                            assert(entry_fits(t.document, t.formatting[k])) by {
                                reveal(BuilderModel::live);
                            }
                            lemma_loose_from(t, top);
                        }
                        lemma_special_after(u.document, u.open_elements, top);
                        match special_after(u.document, u.open_elements, top) {
                            None => {
                                lemma_pop_to_names(u, top);
                                lemma_live_pop_to(u, top);
                                live_without_formatting(u.pop_to(top), node);
                            },
                            Some(b) => {
                                live_adopt(u, node, top, b);
                                assert(u.document == t.document);
                                assert(t.formatting.contains(FormattingEntry::Element(node)));
                                if u.adopt(node, top, b).small() {
                                    assert(t.small()) by {
                                        reveal(adopted_copy);
                                    }
                                    assert(html_name(t.document.kind(node)) == Some(tag.name));
                                    assert(adopted_copy(
                                        t.document,
                                        t.adoption_round(tag).0.document,
                                        node,
                                        t.open_elements[b],
                                    ));
                                }
                            },
                        }
                    }
                },
            }
        },
    }
}

/// A node in scope, at its index.
proof fn lemma_reachable_node(t: BuilderModel, node: NodeId, top: int)
    requires
        t.small(),
        t.live(),
        node_in_scope(t.document, t.open_elements, node),
        0 <= top < t.open_elements.len(),
        t.open_elements[top] == node,
    ensures
        nothing_above(t.document, t.open_elements, top),
{
    reveal(node_in_scope);
    reveal(BuilderModel::live);
    let i = choose|i: int|
        0 <= i < t.open_elements.len() && #[trigger] t.open_elements[i] == node && clear_below(
            t.document,
            t.open_elements,
            i,
            Scope::Default,
        );
    assert(i == top);
    lemma_clear_below(t.document, t.open_elements, i, Scope::Default);
}

proof fn live_adoption_rounds(t: BuilderModel, tag: TagModel, n: nat)
    requires
        t.live(),
        part_named(tag.name) is Other,
    ensures
        t.adoption_rounds(tag, n).live(),
        names_kept(t, t.adoption_rounds(tag, n)),
    decreases n,
{
    if n > 0 {
        live_adoption_round(t, tag);
        let (u, more) = t.adoption_round(tag);
        if more {
            live_adoption_rounds(u, tag, (n - 1) as nat);
        }
    }
}

pub broadcast proof fn live_adoption_agency(t: BuilderModel, tag: TagModel)
    requires
        t.live(),
        part_named(tag.name) is Other,
    ensures
        #[trigger] t.adoption_agency(tag).live(),
        names_kept(t, t.adoption_agency(tag)),
{
    reveal(BuilderModel::adoption_agency);
    if t.current_is(tag.name) {
        if t.small() && t.open_elements.len() > 0 {
            reveal(BuilderModel::live);
            let n = t.open_elements.len() - 1;
            assert(part_at(t.document, t.open_elements, n) is Other);
        }
        lemma_live_pop(t);
        if t.open_elements.len() > 0 {
            let n = t.open_elements.len() - 1;
            lemma_pop_to_names(t, n);
            assert(t.pop_to(n) == t.pop()) by {
                reveal_with_fuel(BuilderModel::pop_to, 2);
            }
        }
    }
    live_adoption_rounds(t, tag, 8);
}

/// An element that plays no part leaves the stack, wherever it stands, with nothing
/// but such elements above it.
proof fn live_without_node(t: BuilderModel, node: NodeId)
    requires
        t.live(),
        t.small() ==> part_of(t.document.kind(node)) is Other,
    ensures
        (BuilderModel { open_elements: without_node(t.open_elements, node), ..t }).live(),
{
    let stack = t.open_elements;
    lemma_index_found(stack, node, 0);
    if t.small() {
        match index_from(stack, node, 0) {
            Some(i) => {
                reveal(BuilderModel::live);
                assert(part_at(t.document, stack, i) is Other);
                assert(i >= 2);
                lemma_stack_remove(t.document, stack, t.head(), i);
            },
            None => {
                assert(t.sturdy() && rooted(t.document, stack)) by {
                    reveal(BuilderModel::live);
                }
                lemma_stack_same(t.document, stack);
            },
        }
    }
    lemma_live_stack(t, without_node(stack, node));
}

proof fn lemma_stack_same(d: DocumentModel, stack: Seq<NodeId>)
    requires
        stack.len() >= 2,
    ensures
        stack_kept(d, d, stack, stack),
{
    assert forall|i: int|
        1 <= i < stack.len() && structural(#[trigger] part_at(d, stack, i)) implies exists|j: int|
        1 <= j < stack.len() && #[trigger] stack[j] == stack[i] by {
        assert(stack[i] == stack[i]);
    }
}

pub broadcast proof fn live_remove_form(t: BuilderModel)
    requires
        t.live(),
    ensures
        #[trigger] t.remove_form().live(),
{
    match t.form_element_pointer {
        Some(form) => {
            assert(t.small() ==> part_of(t.document.kind(form)) is Other) by {
                reveal(BuilderModel::live);
            }
            live_without_node(t, form);
        },
        None => {},
    }
}

proof fn lemma_formatting_named(
    d: DocumentModel,
    entries: Seq<FormattingEntry>,
    name: Seq<char>,
    i: int,
)
    ensures
        formatting_named(d, entries, name, i) matches Some(node) ==> exists|k: int|
            0 <= k < entries.len() && #[trigger] entries[k] == FormattingEntry::Element(node),
    decreases entries.len() - i,
{
    if 0 <= i < entries.len() {
        lemma_formatting_named(d, entries, name, i + 1);
    }
}

pub broadcast proof fn live_close_active_anchor(t: BuilderModel, tag: TagModel)
    requires
        t.live(),
        part_named(tag.name) is Other,
    ensures
        #[trigger] t.close_active_anchor(tag).live(),
{
    reveal(BuilderModel::close_active_anchor);
    let start = after_last_marker(t.formatting);
    lemma_after_last_marker(t.formatting);
    lemma_formatting_named(t.document, t.formatting, "a"@, start);
    match formatting_named(t.document, t.formatting, "a"@, start) {
        None => {},
        Some(node) => {
            let u = t.error(ParseErrorKind::NestedFormattingElement);
            let v = u.adoption_agency(tag);
            live_error(t, ParseErrorKind::NestedFormattingElement);
            live_adoption_agency(u, tag);
            live_without_formatting(v, node);
            let w = BuilderModel {
                formatting: without_formatting(v.formatting, node),
                ..v
            };
            assert(w.small() ==> part_of(w.document.kind(node)) is Other) by {
                if w.small() {
                    reveal(BuilderModel::live);
                    let k = choose|k: int|
                        0 <= k < t.formatting.len() && #[trigger] t.formatting[k]
                            == FormattingEntry::Element(node);
                    assert(entry_fits(t.document, t.formatting[k]));
                    assert(tag_of(w.document.kind(node)) == tag_of(t.document.kind(node)));
                }
            }
            live_without_node(w, node);
        },
    }
}

} // verus!
