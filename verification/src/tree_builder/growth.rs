//! Where new nodes go, and what end tags close.
use vstd::prelude::*;

use crate::document::model::{DocumentModel, KindModel, NodeId};
use crate::text::is_whitespace;
use crate::token::{ParseErrorKind, Position, TagModel, TokenKindModel};
use crate::tree_builder::adoption::closed_by_end_tag;
use crate::tree_builder::copies::{contents_kept, lemma_created, lemma_moves_keep_contents};
use crate::tree_builder::elements::{html_name, special_kind, Group};
use crate::tree_builder::frame::{inside, kin, lemma_frame_new_node, lemma_kin_insert};
use crate::tree_builder::laws::{lemma_character_inserted, lemma_pop_to, only_text_changes, text_at};
use crate::tree_builder::model::{closed_from, element_for, BuilderModel, InsertionLocation};
use crate::tree_builder::names::HTML_NAMESPACE;
use crate::tree_builder::spelling::{html_element_for, lemma_made_for_tag};
use crate::tree_builder::stack::length_without_implied;

verus! {

/// One new node stands at a place, and no other node changes but the one it is in, which
/// gets it as a child.
pub open spec fn one_more(
    t: BuilderModel,
    u: BuilderModel,
    kind: KindModel,
    position: Option<Position>,
    place: InsertionLocation,
) -> bool {
    let d = t.document;
    let e = u.document;
    let id = d.next_id();
    &&& !inside(d, id)
    &&& e.nodes.len() == d.nodes.len() + 1
    &&& e.root == d.root
    &&& e.kind(id) == kind
    &&& e.node(id).position == position
    &&& e.parent(id) == Some(place.parent)
    &&& e.children(id).len() == 0
    &&& e.children(place.parent) == d.children(place.parent).insert(
        d.place(place.parent, place.before),
        id,
    )
    &&& e.kind(place.parent) == d.kind(place.parent)
    &&& e.node(place.parent).position == d.node(place.parent).position
    &&& e.parent(place.parent) == d.parent(place.parent)
    &&& forall|other: NodeId|
        inside(d, other) && other != place.parent ==> #[trigger] e.node(other) == d.node(other)
}

/// A new node that is put at a place.
proof fn lemma_node_put(
    t: BuilderModel,
    kind: KindModel,
    position: Option<Position>,
    place: InsertionLocation,
)
    requires
        kin(t.document),
        t.document.nodes.len() < usize::MAX,
        inside(t.document, place.parent),
    ensures
        one_more(
            t,
            BuilderModel {
                document: t.document.new_node(kind, position).insert_before(
                    place.parent,
                    place.before,
                    t.document.next_id(),
                ),
                ..t
            },
            kind,
            position,
            place,
        ),
{
    let d = t.document;
    let id = d.next_id();
    let e = d.new_node(kind, position);
    lemma_frame_new_node(d, kind, position, d.root);
    lemma_kin_insert(e, place.parent, place.before, id);
    let f = e.insert_before(place.parent, place.before, id);
    assert(e.remove(id) == e);
    assert(e.node(place.parent) == d.node(place.parent));
    assert(e.place(place.parent, place.before) == d.place(place.parent, place.before));
    assert forall|other: NodeId| inside(
        d,
        other,
    ) && other != place.parent implies #[trigger] f.node(
        other,
    ) == d.node(other) by {
        assert(e.node(other) == d.node(other));
    }
}

/// An element that is inserted for a tag is made from the tag, stands at the place where
/// nodes go, and is open. No other node changes but the one it is in.
pub proof fn lemma_element_placed(t: BuilderModel, tag: TagModel, position: Option<Position>)
    requires
        kin(t.document),
        t.document.nodes.len() < usize::MAX,
        inside(t.document, t.location(None).parent),
        t.location(None).parent != t.document.root,
        tag.name != "template"@,
    ensures
        ({
            let u = t.insert_html_element(tag, position);
            let id = t.document.next_id();
            &&& one_more(t, u, u.document.kind(id), position, t.location(None))
            &&& html_element_for(u.document.kind(id), tag)
            &&& u == BuilderModel {
                document: u.document,
                open_elements: t.open_elements.push(id),
                ..t
            }
        }),
{
    reveal(BuilderModel::insert_foreign_element);
    reveal(BuilderModel::create_element);
    lemma_node_put(t, element_for(tag, HTML_NAMESPACE@), position, t.location(None));
    lemma_made_for_tag(tag);
}

/// The element that a start tag opens where it stands is made from the tag and at the
/// position of the tag.
pub proof fn lemma_opened(t: BuilderModel, tag: TagModel)
    requires
        t.insert_here(tag).document.nodes.len() <= usize::MAX,
    ensures
        ({
            let u = t.insert_here(tag);
            let id = u.open_elements.last();
            &&& u.open_elements == t.open_elements.push(id)
            &&& !inside(t.document, id)
            &&& html_element_for(u.document.kind(id), tag)
            &&& u.document.node(id).position == Some(t.token_position)
        }),
{
    reveal(BuilderModel::insert_foreign_element);
    let position = Some(t.token_position);
    let location = t.location(None);
    let id = t.document.next_id();
    let v = t.create_element(tag, HTML_NAMESPACE@, position);
    assert(v == (BuilderModel { document: v.document, ..t })) by {
        reveal(BuilderModel::create_element);
    }
    lemma_created(t, tag, HTML_NAMESPACE@, position);
    lemma_moves_keep_contents(v.document, location.parent, location.before, id);
    lemma_made_for_tag(tag);
    let u = t.insert_here(tag);
    assert(contents_kept(v.document, u.document));
    assert(u.document.nodes[id.index as int].kind == v.document.nodes[id.index as int].kind);
}

proof fn lemma_reopening_keeps_position(t: BuilderModel, i: int, n: int)
    ensures
        t.reopen_from(i, n).token_position == t.token_position,
        t.document.nodes.len() <= t.reopen_from(i, n).document.nodes.len(),
    decreases n - i,
{
    if i < n {
        reveal(BuilderModel::insert_foreign_element);
        reveal(BuilderModel::create_element);
        lemma_reopening_keeps_position(t.reopen(i), i + 1, n);
    }
}

/// So is the element that a start tag opens after formatting elements were opened again.
pub proof fn lemma_opened_active(t: BuilderModel, tag: TagModel)
    requires
        t.insert_active(tag).document.nodes.len() <= usize::MAX,
    ensures
        ({
            let u = t.insert_active(tag);
            let id = u.open_elements.last();
            &&& u.open_elements.len() > 0
            &&& !inside(t.document, id)
            &&& html_element_for(u.document.kind(id), tag)
            &&& u.document.node(id).position == Some(t.token_position)
        }),
{
    reveal(BuilderModel::insert_active);
    reveal(BuilderModel::reconstruct_formatting);
    let from = closed_from(t.formatting, t.open_elements);
    let r = t.reconstruct_formatting();
    lemma_reopening_keeps_position(t, from, t.formatting.len() as int);
    lemma_opened(r, tag);
}

/// A comment that is inserted stands at the place where nodes go, with its text. No other
/// node changes but the one it is in.
pub proof fn lemma_comment_placed(t: BuilderModel, data: Seq<char>, position: Option<Position>)
    requires
        kin(t.document),
        t.document.nodes.len() < usize::MAX,
        inside(t.document, t.location(None).parent),
    ensures
        ({
            let u = t.insert_comment(data, position);
            &&& one_more(t, u, KindModel::Comment { content: data }, position, t.location(None))
            &&& u == BuilderModel { document: u.document, ..t }
        }),
{
    reveal(BuilderModel::insert_node);
    lemma_node_put(t, KindModel::Comment { content: data }, position, t.location(None));
}

/// Unless it must not stand in a table, a node goes to the end of the current node.
pub proof fn lemma_current_place(t: BuilderModel)
    requires
        t.open_elements.len() > 0,
        !(t.foster_parenting && t.current_in(Group::FosterTargets)),
        html_name(t.current_kind()) != Some("template"@),
    ensures
        t.location(None) == (InsertionLocation { parent: t.open_elements.last(), before: None }),
{
    reveal(BuilderModel::location);
}

/// A character in the body joins the text at the place where nodes go, whatever it is. Only
/// a NUL is left out. Nothing else changes in the document, and the stack stays.
pub proof fn lemma_body_text(t: BuilderModel, c: char)
    requires
        t.document.wf(),
        t.sound(),
        t.document.nodes.len() < usize::MAX,
        t.location(None).parent != t.document.root,
        closed_from(t.formatting, t.open_elements) == t.formatting.len(),
    ensures
        ({
            let u = t.in_body(TokenKindModel::Character(c)).0;
            let place = t.location(None);
            &&& c != '\0' ==> text_at(u, place) == text_at(t, place).push(c) && only_text_changes(
                t.document,
                u.document,
                place,
            )
            &&& c == '\0' ==> u.document == t.document
            &&& u.open_elements == t.open_elements
            &&& u.formatting == t.formatting
            &&& u.frameset_ok == (t.frameset_ok && (c == '\0' || is_whitespace(c)))
        }),
{
    reveal(BuilderModel::in_body);
    reveal(BuilderModel::in_body_char);
    if c != '\0' {
        assert(t.reconstruct_formatting() == t) by {
            reveal(BuilderModel::reconstruct_formatting);
        }
        lemma_character_inserted(t, c, Some(t.token_position));
        let w = t.insert_character(c, Some(t.token_position));
        let u = t.in_body(TokenKindModel::Character(c)).0;
        assert(u.document == w.document);
        assert(text_at(u, t.location(None)) == text_at(w, t.location(None)));
    }
}

/// The element that an end tag without a rule of its own closes is the lowest of its name
/// that has no special element below it.
pub proof fn lemma_closed_by_end_tag(t: BuilderModel, name: Seq<char>, i: int)
    requires
        0 <= i < t.open_elements.len(),
        html_name(t.document.kind(t.open_elements[i])) == Some(name),
        forall|j: int|
            i < j < t.open_elements.len() ==> html_name(
                t.document.kind(#[trigger] t.open_elements[j]),
            ) != Some(name) && !special_kind(t.document.kind(t.open_elements[j])),
    ensures
        closed_by_end_tag(t.document, t.open_elements, name) == Some(i),
    decreases t.open_elements.len(),
{
    let stack = t.open_elements;
    if i < stack.len() - 1 {
        let u = BuilderModel { open_elements: stack.drop_last(), ..t };
        assert(html_name(t.document.kind(stack[stack.len() - 1])) != Some(name));
        assert forall|j: int| i < j < u.open_elements.len() implies html_name(
            u.document.kind(#[trigger] u.open_elements[j]),
        ) != Some(name) && !special_kind(u.document.kind(u.open_elements[j])) by {
            assert(u.open_elements[j] == stack[j]);
        }
        lemma_closed_by_end_tag(u, name, i);
    }
}

proof fn lemma_implied_stops(d: DocumentModel, stack: Seq<NodeId>, name: Seq<char>, i: int)
    requires
        0 <= i < stack.len(),
        html_name(d.kind(stack[i])) == Some(name),
    ensures
        i < length_without_implied(d, stack, Group::ImpliedEndTags, Some(name)) <= stack.len(),
    decreases stack.len(),
{
    if i < stack.len() - 1 {
        lemma_implied_stops(d, stack.drop_last(), name, i);
    }
}

/// An end tag without a rule of its own closes the lowest element of its name and whatever
/// is in it, where nothing special is in it: the stack ends right above that element.
pub proof fn lemma_end_tag_closes(t: BuilderModel, tag: TagModel, i: int)
    requires
        0 <= i < t.open_elements.len(),
        html_name(t.document.kind(t.open_elements[i])) == Some(tag.name),
        forall|j: int|
            i < j < t.open_elements.len() ==> html_name(
                t.document.kind(#[trigger] t.open_elements[j]),
            ) != Some(tag.name) && !special_kind(t.document.kind(t.open_elements[j])),
    ensures
        t.any_other_end_tag(tag).open_elements == t.open_elements.take(i),
{
    reveal(BuilderModel::any_other_end_tag);
    lemma_closed_by_end_tag(t, tag.name, i);
    lemma_implied_stops(t.document, t.open_elements, tag.name, i);
    let n = length_without_implied(
        t.document,
        t.open_elements,
        Group::ImpliedEndTags,
        Some(tag.name),
    );
    let u = t.generate_implied_end_tags(Some(tag.name));
    lemma_pop_to(t, n);
    assert(u.open_elements == t.open_elements.take(n));
    let v = u.error(ParseErrorKind::ImpliedEndTagWithUnclosedElements);
    lemma_pop_to(u, i);
    lemma_pop_to(v, i);
    assert(t.open_elements.take(n).take(i) == t.open_elements.take(i));
}

/// A character in an element that holds nothing but text joins the text at the end of that
/// element. Nothing else changes in the document, and the stack stays.
pub proof fn lemma_raw_text(t: BuilderModel, c: char)
    requires
        t.document.wf(),
        t.sound(),
        t.document.nodes.len() < usize::MAX,
        t.location(None).parent != t.document.root,
    ensures
        ({
            let u = t.text(TokenKindModel::Character(c)).0;
            let place = t.location(None);
            &&& text_at(u, place) == text_at(t, place).push(c)
            &&& only_text_changes(t.document, u.document, place)
            &&& u.open_elements == t.open_elements
        }),
{
    reveal(BuilderModel::text);
    lemma_character_inserted(t, c, Some(t.token_position));
}

/// A character in a foreign element joins the text at the place where nodes go; for a NUL a
/// replacement character does. Nothing else changes in the document, and the stack stays.
pub proof fn lemma_foreign_text(t: BuilderModel, c: char)
    requires
        t.document.wf(),
        t.sound(),
        t.document.nodes.len() < usize::MAX,
        t.location(None).parent != t.document.root,
    ensures
        ({
            let u = t.in_foreign(TokenKindModel::Character(c)).0;
            let place = t.location(None);
            &&& text_at(u, place) == text_at(t, place).push(
                if c == '\0' {
                    '\u{FFFD}'
                } else {
                    c
                },
            )
            &&& only_text_changes(t.document, u.document, place)
            &&& u.open_elements == t.open_elements
        }),
{
    reveal(BuilderModel::in_foreign);
    let kept = if c == '\0' {
        '\u{FFFD}'
    } else {
        c
    };
    lemma_character_inserted(t, kept, Some(t.token_position));
    let w = t.insert_character(kept, Some(t.token_position));
    let u = t.in_foreign(TokenKindModel::Character(c)).0;
    assert(u.document == w.document);
    assert(text_at(u, t.location(None)) == text_at(w, t.location(None)));
}

} // verus!
