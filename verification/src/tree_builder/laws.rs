//! Laws that relate several steps of a tree builder.
use vstd::prelude::*;

use crate::document::laws::{
    lemma_can_still_insert, lemma_insert_before, lemma_insert_moves, lemma_leaf_is_no_ancestor,
    lemma_new_name, lemma_new_node, lemma_not_own_parent,
};
use crate::document::model::{ranked, DocumentModel, KindModel, NodeId};
use crate::token::{Position, TagModel};
use crate::tree_builder::elements::{
    kind_in_group, lemma_insert_keeps_tags, lemma_new_node_keeps_tags, lemma_tags_kept_twice,
    tag_of, tags_kept, Group,
};
use crate::tree_builder::model::{template_contents, BuilderModel, InsertionLocation};
use crate::tree_builder::soundness::lemma_sound_with;
use crate::tree_builder::stack::{all_elements, last_named, lemma_last_named};

verus! {

/// An element that is inserted and popped leaves the stack of open elements as
/// it was.
pub proof fn lemma_pop_undoes_insert(
    t: BuilderModel,
    tag: TagModel,
    namespace: Seq<char>,
    position: Option<Position>,
)
    ensures
        t.insert_foreign_element(tag, namespace, position).pop().open_elements == t.open_elements,
{
    reveal(BuilderModel::insert_foreign_element);
    reveal(BuilderModel::create_element);
    let after = t.insert_foreign_element(tag, namespace, position);
    assert(after.open_elements.drop_last() == t.open_elements);
}

/// Popping to a length leaves that many nodes, in their places.
pub proof fn lemma_pop_to(t: BuilderModel, n: int)
    requires
        0 <= n <= t.open_elements.len(),
    ensures
        t.pop_to(n).open_elements == t.open_elements.take(n),
    decreases t.open_elements.len(),
{
    reveal(BuilderModel::pop_to);
    if n == t.open_elements.len() {
        assert(t.open_elements.take(n) == t.open_elements);
    } else {
        lemma_pop_to(t.pop(), n);
        assert(t.open_elements.drop_last().take(n) == t.open_elements.take(n));
    }
}

/// Everything is closed at the end.
pub proof fn lemma_stop_closes_everything(t: BuilderModel)
    ensures
        t.stop().open_elements.len() == 0,
{
    lemma_pop_to(t, 0);
}

/// The last element of a name depends on the tags alone.
proof fn lemma_last_named_kept(
    d: DocumentModel,
    e: DocumentModel,
    stack: Seq<NodeId>,
    name: Seq<char>,
)
    requires
        all_elements(d, stack),
        tags_kept(d, e),
    ensures
        last_named(e, stack, name) == last_named(d, stack, name),
    decreases stack.len(),
{
    if stack.len() > 0 {
        assert(d.has(stack[stack.len() - 1]));
        assert(tag_of(e.kind(stack.last())) == tag_of(d.kind(stack.last())));
        assert forall|i: int| 0 <= i < stack.drop_last().len() implies d.has(
            #[trigger] stack.drop_last()[i],
        ) && tag_of(d.kind(stack.drop_last()[i])) is Some by {
            assert(stack[i] == stack.drop_last()[i]);
        }
        lemma_last_named_kept(d, e, stack.drop_last(), name);
    }
}

/// The place that a node goes to, before a template's contents are looked for.
pub open spec fn outer_location(t: BuilderModel) -> InsertionLocation {
    let target = match t.current_node() {
        Some(node) => node,
        None => t.document.root,
    };
    if t.foster_parenting && kind_in_group(t.document.kind(target), Group::FosterTargets) {
        t.foster_location()
    } else {
        InsertionLocation { parent: target, before: None }
    }
}

/// The place that a node goes to is in the document.
pub proof fn lemma_location_exists(t: BuilderModel)
    requires
        t.document.wf(),
        t.sound(),
    ensures
        t.location(None) == t.within_template(outer_location(t)),
        t.place_exists(outer_location(t)),
        t.place_exists(t.location(None)),
{
    reveal(BuilderModel::location);
    reveal(BuilderModel::sound);
    let d = t.document;
    let stack = t.open_elements;
    lemma_last_named(d, stack, "template"@);
    lemma_last_named(d, stack, "table"@);
    assert forall|i: int| 0 <= i < stack.len() implies d.has(#[trigger] stack[i]) && d.family(
        stack[i],
    ) by {}
    if stack.len() > 0 {
        assert(d.has(stack[0]));
        assert(d.has(stack[stack.len() - 1]));
    }
    match last_named(d, stack, "template"@) {
        Some(i) => {
            assert(d.has(stack[i]));
        },
        None => {},
    }
    match last_named(d, stack, "table"@) {
        Some(j) => {
            assert(d.has(stack[j]));
            assert(d.family(stack[j]));
            if j > 0 {
                assert(d.has(stack[j - 1]));
            }
        },
        None => {},
    }
    let outer = outer_location(t);
    assert(t.place_exists(outer));
    assert(d.family(outer.parent));
}

/// Where only the children of one place change, by one that is no template's
/// contents, the next node goes to the same place.
proof fn lemma_same_location(t: BuilderModel, e: DocumentModel)
    requires
        t.document.wf(),
        t.sound(),
        tags_kept(t.document, e),
        forall|id: NodeId| t.document.has(id) ==> #[trigger] e.parent(id) == t.document.parent(id),
        forall|id: NodeId|
            t.document.has(id) ==> (#[trigger] e.kind(id) is DocumentFragment) == (t.document.kind(
                id,
            ) is DocumentFragment),
        forall|id: NodeId|
            t.document.has(id) && id != t.location(None).parent ==> #[trigger] e.children(id)
                == t.document.children(id),
        ({
            let parent = t.location(None).parent;
            e.children(parent).len() > 0 ==> e.children(parent)[0] == t.document.children(
                parent,
            )[0] && t.document.children(parent).len() > 0 || !(e.kind(
                e.children(parent)[0],
            ) is DocumentFragment)
        }),
    ensures
        (BuilderModel { document: e, ..t }).location(None) == t.location(None),
{
    let d = t.document;
    let u = BuilderModel { document: e, ..t };
    let stack = t.open_elements;
    lemma_location_exists(t);
    let outer = outer_location(t);
    assert(outer_location(u) == outer) by {
        reveal(BuilderModel::sound);
        lemma_last_named(d, stack, "table"@);
        lemma_last_named_kept(d, e, stack, "template"@);
        lemma_last_named_kept(d, e, stack, "table"@);
        match last_named(d, stack, "table"@) {
            Some(j) => {
                assert(d.has(stack[j]));
                assert(e.parent(stack[j]) == d.parent(stack[j]));
            },
            None => {},
        }
        let target = match t.current_node() {
            Some(node) => node,
            None => d.root,
        };
        if stack.len() > 0 {
            assert(d.has(stack[stack.len() - 1]));
        }
        assert(d.has(target));
        assert(tag_of(e.kind(target)) == tag_of(d.kind(target)));
    }
    assert(template_contents(e, outer.parent) == template_contents(d, outer.parent)) by {
        assert(d.has(outer.parent));
        assert(d.family(outer.parent));
        assert(tag_of(e.kind(outer.parent)) == tag_of(d.kind(outer.parent)));
        match template_contents(d, outer.parent) {
            Some(contents) => {
                assert(d.has(d.children(outer.parent)[0]));
                lemma_not_own_parent(d, contents);
                assert(contents != outer.parent);
                assert(e.children(outer.parent) == d.children(outer.parent));
                assert(e.kind(contents) is DocumentFragment);
            },
            None => {
                assert(t.location(None) == outer);
                if e.children(outer.parent).len() > 0 && d.children(outer.parent).len() > 0
                    && e.children(outer.parent)[0] == d.children(outer.parent)[0] {
                    let first = d.children(outer.parent)[0];
                    assert(d.has(d.children(outer.parent)[0]));
                    assert(e.kind(first) is DocumentFragment == d.kind(first) is DocumentFragment);
                }
            },
        }
    }
    reveal(BuilderModel::location);
}

/// The text right before a place.
pub open spec fn text_at(t: BuilderModel, location: InsertionLocation) -> Seq<char> {
    match t.node_before(location) {
        Some(node) => match t.document.kind(node) {
            KindModel::Text { content } => content,
            _ => Seq::empty(),
        },
        None => Seq::empty(),
    }
}

/// Nothing changes in the document but text right before a place: every node is what and
/// where it was, but for text that stood there, and the place gets at most one new node.
pub open spec fn only_text_changes(
    d: DocumentModel,
    e: DocumentModel,
    location: InsertionLocation,
) -> bool {
    &&& e.root == d.root
    &&& d.nodes.len() <= e.nodes.len() <= d.nodes.len() + 1
    &&& forall|id: NodeId|
        d.has(id) && !(d.kind(id) is Text) && id != location.parent ==> #[trigger] e.node(id)
            == d.node(id)
    &&& forall|id: NodeId|
        d.has(id) && d.kind(id) is Text && id != location.parent ==> (#[trigger] e.node(
            id,
        )).kind is Text
            && e.node(id).position == d.node(id).position && e.node(id).parent == d.node(id).parent
            && e.node(id).children == d.node(id).children
    &&& e.kind(location.parent) == d.kind(location.parent)
    &&& e.node(location.parent).position == d.node(location.parent).position
    &&& e.parent(location.parent) == d.parent(location.parent)
    &&& e.nodes.len() == d.nodes.len() ==> e.children(location.parent) == d.children(
        location.parent,
    )
    &&& e.nodes.len() > d.nodes.len() ==> e.kind(d.next_id()) is Text && e.children(
        location.parent,
    ) == d.children(location.parent).insert(d.place(location.parent, location.before), d.next_id())
}

/// A longer text is as well in its place.
proof fn lemma_push_text_wf(d: DocumentModel, id: NodeId, c: char)
    requires
        d.wf(),
        d.has(id),
    ensures
        d.push_text(id, c).wf(),
{
    let e = d.push_text(id, c);
    assert forall|other: NodeId| d.has(other) implies #[trigger] e.family(other) by {
        assert(d.family(other));
        assert(e.children(other) == d.children(other));
        assert(e.parent(other) == d.parent(other));
        assert forall|i: int| 0 <= i < e.children(other).len() implies e.has(
            #[trigger] e.children(other)[i],
        ) && e.parent(e.children(other)[i]) == Some(other) by {
            assert(d.has(d.children(other)[i]));
            assert(e.parent(e.children(other)[i]) == d.parent(d.children(other)[i]));
        }
    }
    let rank = choose|rank: spec_fn(NodeId) -> int| ranked(d.nodes, rank);
    assert(ranked(e.nodes, rank)) by {
        assert forall|i: usize| 0 <= i < e.nodes.len() implies match (
        #[trigger] e.nodes[i as int]).parent {
            Some(p) => 0 <= rank(p) < rank(NodeId { index: i }),
            None => 0 <= rank(NodeId { index: i }),
        } by {
            assert(e.nodes[i as int].parent == d.nodes[i as int].parent);
        }
    }
}

/// A character that is inserted becomes the end of the text right before the
/// place where it went, and nothing else changes.
pub proof fn lemma_character_inserted(t: BuilderModel, c: char, position: Option<Position>)
    requires
        t.document.wf(),
        t.sound(),
        t.document.nodes.len() < usize::MAX,
        t.location(None).parent != t.document.root,
    ensures
        ({
            let after = t.insert_character(c, position);
            &&& after == BuilderModel { document: after.document, ..t }
            &&& after.document.root == t.document.root
            &&& after.location(None) == t.location(None)
            &&& after.document.wf()
            &&& after.sound()
            &&& text_at(after, t.location(None)) == text_at(t, t.location(None)).push(c)
            &&& only_text_changes(t.document, after.document, t.location(None))
            &&& (after.document.nodes.len() == t.document.nodes.len()) == (t.node_before(
                t.location(None),
            ) matches Some(node) && t.document.kind(node) is Text)
            &&& after.node_before(after.location(None)) matches Some(node) && after.document.kind(
                node,
            ) matches KindModel::Text { content } && content.len() > 0 && content.last() == c
        }),
{
    reveal(BuilderModel::insert_character);
    lemma_location_exists(t);
    let location = t.location(None);
    let d = t.document;
    let parent = location.parent;
    let after = t.insert_character(c, position);
    let e = after.document;
    assert(d.family(parent));
    let joins = match t.node_before(location) {
        Some(node) => d.kind(node) is Text,
        None => false,
    };
    if joins {
        let node = t.node_before(location)->0;
        assert(e == d.push_text(node, c));
        assert(d.has(node) && d.parent(node) == Some(parent)) by {
            let siblings = d.children(parent);
            let i = match location.before {
                Some(before) => {
                    assert(d.family(before));
                    assert(siblings.contains(before));
                    siblings.index_of(before)
                },
                None => siblings.len() as int,
            };
            assert(d.has(d.children(parent)[i - 1]));
        }
        assert forall|id: NodeId| d.has(id) implies tag_of(#[trigger] e.kind(id)) == tag_of(
            d.kind(id),
        ) by {}
        lemma_same_location(t, e);
        assert(after.node_before(location) == t.node_before(location));
        lemma_push_text_wf(d, node, c);
        lemma_sound_with(t, e);
        lemma_not_own_parent(d, node);
        assert(parent != node);
        assert(text_at(after, location) == text_at(t, location).push(c));
        assert(only_text_changes(d, e, location));
    } else {
        let kind = KindModel::Text { content: seq![c] };
        let node = d.next_id();
        let f = d.new_node(kind, position);
        lemma_new_name(d);
        lemma_new_node(d, kind, position);
        lemma_new_node_keeps_tags(d, kind, position);
        assert forall|id: NodeId| d.has(id) implies #[trigger] f.children(id) == d.children(id)
            && f.parent(id) == d.parent(id) && f.kind(id) == d.kind(id) by {
            assert(f.node(id) == d.node(id));
        }
        lemma_leaf_is_no_ancestor(f, node, parent);
        match location.before {
            Some(before) => {
                assert(f.children(before) == d.children(before));
            },
            None => {},
        }
        assert(f.can_insert(parent, location.before, node));
        lemma_can_still_insert(f, parent, location.before, node);
        lemma_insert_before(f, parent, location.before, node);
        lemma_insert_keeps_tags(f, parent, location.before, node);
        lemma_tags_kept_twice(d, f, e);
        assert(e == f.insert_before(parent, location.before, node));
        assert(f.remove(node) == f);
        let at = f.place(parent, location.before);
        assert(f.children(parent) == d.children(parent));
        assert(e.children(parent) == f.children(parent).insert(at, node));
        assert forall|id: NodeId| d.has(id) implies #[trigger] e.parent(id) == d.parent(id) by {
            assert(f.children(id) == d.children(id));
            assert(e.parent(id) == f.parent(id));
        }
        assert forall|id: NodeId| d.has(id) implies (#[trigger] e.kind(id) is DocumentFragment) == (
        d.kind(id) is DocumentFragment) by {
            assert(f.children(id) == d.children(id));
            assert(e.node(id).kind == f.node(id).kind);
        }
        assert forall|id: NodeId| d.has(id) && id != parent implies #[trigger] e.children(id)
            == d.children(id) by {
            lemma_insert_moves(f, parent, location.before, node, id);
            assert(f.children(id) == d.children(id));
        }
        assert(e.kind(node) == kind) by {
            assert(e.node(node).kind == f.node(node).kind);
        }
        lemma_same_location(t, e);
        assert(e.children(parent)[at] == node);
        assert(after.node_before(location) == Some(node)) by {
            assert(e.family(parent));
            match location.before {
                Some(before) => {
                    assert(f.children(parent)[at] == before);
                    assert(e.children(parent)[at + 1] == before);
                    assert(e.children(parent).contains(before));
                    let k = e.children(parent).index_of(before);
                    assert(e.children(parent)[k] == before);
                    assert(k == at + 1);
                },
                None => {},
            }
        }
        lemma_sound_with(t, e);
        assert forall|id: NodeId| d.has(id) && id != parent implies #[trigger] e.node(id) == d.node(
            id,
        ) by {
            assert(f.node(id) == d.node(id));
            assert(e.children(id) == d.children(id));
            assert(e.parent(id) == d.parent(id));
            assert(id != node);
        }
        assert(e.node(parent).position == d.node(parent).position) by {
            assert(f.node(parent) == d.node(parent));
        }
        assert(d.place(parent, location.before) == at);
        assert(Seq::<char>::empty().push(c) == seq![c]);
        assert(text_at(after, location) == text_at(t, location).push(c));
        assert(only_text_changes(d, e, location));
    }
}

/// A run of characters is one text node: a character that follows another one
/// joins it, and no node is made for it.
pub proof fn lemma_characters_join(
    t: BuilderModel,
    c: char,
    position: Option<Position>,
    d: char,
    next_position: Option<Position>,
)
    requires
        t.document.wf(),
        t.sound(),
        t.document.nodes.len() < usize::MAX,
        t.location(None).parent != t.document.root,
    ensures
        ({
            let first = t.insert_character(c, position);
            let second = first.insert_character(d, next_position);
            exists|node: NodeId|
                first.document.kind(node) matches KindModel::Text { content } && content.len() > 0
                    && content.last() == c && second == (BuilderModel {
                    document: #[trigger] first.document.push_text(node, d),
                    ..first
                })
        }),
{
    lemma_character_inserted(t, c, position);
    let first = t.insert_character(c, position);
    let second = first.insert_character(d, next_position);
    reveal(BuilderModel::insert_character);
    let node = first.node_before(first.location(None))->0;
    assert(second == (BuilderModel { document: first.document.push_text(node, d), ..first }));
}

} // verus!
