//! The outermost elements of a document, and documents with a `frameset` element.
use vstd::prelude::*;

use crate::document::model::{without, DocumentModel, KindModel, NodeId};
use crate::token::{ParseErrorKind, Position, TagModel};
use crate::tree_builder::elements::{html_name, tag_of};
use crate::tree_builder::formatting::FormattingEntry;
use crate::tree_builder::frame::{
    element_children, frame_kept, inside, is_element, kin, kin_of, lemma_append_element,
    lemma_frame_after_pop, lemma_frame_insert, lemma_frame_kept_twice, lemma_frame_merge,
    lemma_frame_new_node, lemma_frame_push_text, lemma_kin_insert, lemma_kin_remove,
    lemma_same_elements,
};
use crate::tree_builder::model::{
    closed_from, element_for, tag_for, BuilderModel, InsertionLocation, InsertionMode,
};
use crate::tree_builder::names::HTML_NAMESPACE;
use crate::tree_builder::parts::{lemma_part_groups, lemma_part_named, part_named, part_of};
use crate::tree_builder::structure::{bodied, complete, entry_fits, formatting_fits, structural};
use crate::tree_builder::structure_adoption::lemma_move_length;
use crate::tree_builder::structure_steps::{
    lemma_closed_from_range, lemma_frame_pop, lemma_frame_pop_to, lemma_inserted,
    lemma_inserted_kind,
};

verus! {

/// Element children are nodes of the document.
pub proof fn lemma_child_inside(d: DocumentModel, parent: NodeId, k: int)
    requires
        kin(d),
        inside(d, parent),
        0 <= k < element_children(d, parent).len(),
    ensures
        inside(d, element_children(d, parent)[k]),
        d.parent(element_children(d, parent)[k]) == Some(parent),
{
    let list = d.children(parent);
    let pred = is_element(d);
    let id = list.filter(pred)[k];
    assert(kin_of(d, parent));
    assert(list.filter(pred).contains(id));
    list.lemma_filter_contains_rev(pred, id);
    let i = choose|i: int| 0 <= i < list.len() && list[i] == id;
    assert(inside(d, d.children(parent)[i]));
}

/// A document whose frame is kept stays complete.
pub proof fn lemma_complete_kept(d: DocumentModel, e: DocumentModel)
    requires
        kin(d),
        complete(d),
        frame_kept(d, e, element_children(d, d.root)[0]),
    ensures
        complete(e),
{
    let html = element_children(d, d.root)[0];
    lemma_child_inside(d, d.root, 0);
    lemma_child_inside(d, html, 0);
    lemma_child_inside(d, html, 1);
    assert(tag_of(e.kind(html)) == tag_of(d.kind(html)));
    let a = element_children(d, html)[0];
    let b = element_children(d, html)[1];
    assert(tag_of(e.kind(a)) == tag_of(d.kind(a)));
    assert(tag_of(e.kind(b)) == tag_of(d.kind(b)));
}

impl BuilderModel {
    /// The document is complete, and nothing of a table or a template is open.
    #[verifier::opaque]
    pub open spec fn framing(self) -> bool {
        self.small() ==> self.framed()
    }
}

/// A change of the document that leaves the frame alone, and a stack with no new entries.
proof fn lemma_framing_document(t: BuilderModel, u: BuilderModel)
    requires
        t.framing(),
        t.small(),
        frame_kept(t.document, u.document, element_children(t.document, t.document.root)[0]),
        u.formatting == t.formatting,
        u.insertion_mode == t.insertion_mode,
        u.original_insertion_mode == t.original_insertion_mode,
        forall|i: int|
            0 <= i < u.open_elements.len() ==> t.open_elements.contains(
                #[trigger] u.open_elements[i],
            ),
    ensures
        u.framing(),
{
    reveal(BuilderModel::framing);
    let d = t.document;
    let e = u.document;
    lemma_complete_kept(d, e);
    assert forall|i: int| 0 <= i < u.open_elements.len() implies inside(
        e,
        #[trigger] u.open_elements[i],
    ) && html_name(e.kind(u.open_elements[i])) is Some && !structural(
        part_of(e.kind(u.open_elements[i])),
    ) by {
        assert(t.open_elements.contains(u.open_elements[i]));
        let j = choose|j: int|
            0 <= j < t.open_elements.len() && t.open_elements[j] == u.open_elements[i];
        assert(inside(d, t.open_elements[j]));
        assert(tag_of(e.kind(t.open_elements[j])) == tag_of(d.kind(t.open_elements[j])));
    }
    assert forall|i: int| 0 <= i < u.formatting.len() implies entry_fits(
        e,
        #[trigger] u.formatting[i],
    ) by {
        assert(entry_fits(d, t.formatting[i]));
        match t.formatting[i] {
            FormattingEntry::Element(node) => {
                assert(tag_of(e.kind(node)) == tag_of(d.kind(node)));
            },
            FormattingEntry::Marker => {},
        }
    }
}

/// Where nothing of a table or a template is open, new nodes go into the current node.
pub proof fn lemma_plain_location(t: BuilderModel)
    requires
        t.open_elements.len() > 0 ==> !structural(part_of(t.current_kind())),
        t.document.kind(t.document.root) is Document,
    ensures
        t.location(None) == (InsertionLocation {
            parent: if t.open_elements.len() == 0 {
                t.document.root
            } else {
                t.open_elements.last()
            },
            before: None,
        }),
{
    reveal(BuilderModel::location);
    lemma_part_groups(t.current_kind());
    lemma_part_groups(t.document.kind(t.document.root));
    lemma_part_named("template"@);
}

proof fn lemma_framing_location(t: BuilderModel)
    requires
        t.framing(),
        t.small(),
    ensures
        inside(t.document, t.location(None).parent),
        t.location(None) == (InsertionLocation {
            parent: if t.open_elements.len() == 0 {
                t.document.root
            } else {
                t.open_elements.last()
            },
            before: None,
        }),
{
    reveal(BuilderModel::framing);
    if t.open_elements.len() > 0 {
        assert(inside(t.document, t.open_elements[t.open_elements.len() - 1]));
    }
    lemma_plain_location(t);
}

pub broadcast proof fn framing_error(t: BuilderModel, kind: ParseErrorKind)
    requires
        t.framing(),
    ensures
        #[trigger] t.error(kind).framing(),
{
    reveal(BuilderModel::framing);
}

pub broadcast proof fn framing_set_frameset_ok(t: BuilderModel, value: bool)
    requires
        t.framing(),
    ensures
        #[trigger] t.set_frameset_ok(value).framing(),
{
    reveal(BuilderModel::framing);
}

pub broadcast proof fn framing_acknowledge_self_closing(t: BuilderModel)
    requires
        t.framing(),
    ensures
        #[trigger] t.acknowledge_self_closing().framing(),
{
    reveal(BuilderModel::framing);
}

/// A node that is no element.
proof fn framing_new_node_at(
    t: BuilderModel,
    kind: KindModel,
    position: Option<Position>,
    location: InsertionLocation,
)
    requires
        t.framing(),
        !(kind is Element),
        t.small() ==> inside(t.document, location.parent),
    ensures
        t.new_node_at(kind, position, location).framing(),
{
    let d = t.document;
    let u = t.new_node_at(kind, position, location);
    let e = d.new_node(kind, position);
    lemma_move_length(e, location.parent, location.before, d.next_id());
    if u.small() {
        assert(kin(d) && complete(d)) by {
            reveal(BuilderModel::framing);
        }
        let html = element_children(d, d.root)[0];
        lemma_child_inside(d, d.root, 0);
        lemma_frame_new_node(d, kind, position, html);
        lemma_frame_insert(e, location.parent, location.before, d.next_id(), html);
        lemma_frame_kept_twice(d, e, u.document, html);
        lemma_framing_document(t, u);
    } else {
        reveal(BuilderModel::framing);
    }
}

pub broadcast proof fn framing_insert_node(
    t: BuilderModel,
    kind: KindModel,
    position: Option<Position>,
)
    requires
        t.framing(),
        !(kind is Element),
    ensures
        #[trigger] t.insert_node(kind, position).framing(),
{
    reveal(BuilderModel::insert_node);
    if t.small() {
        lemma_framing_location(t);
    }
    framing_new_node_at(t, kind, position, t.location(None));
}

pub broadcast proof fn framing_append_to_document(t: BuilderModel, kind: KindModel)
    requires
        t.framing(),
        !(kind is Element),
    ensures
        #[trigger] t.append_to_document(kind).framing(),
{
    reveal(BuilderModel::append_to_document);
    assert(t.small() ==> inside(t.document, t.document.root)) by {
        reveal(BuilderModel::framing);
    }
    framing_new_node_at(
        t,
        kind,
        Some(t.token_position),
        InsertionLocation { parent: t.document.root, before: None },
    );
}

pub broadcast proof fn framing_insert_character(
    t: BuilderModel,
    c: char,
    position: Option<Position>,
)
    requires
        t.framing(),
    ensures
        #[trigger] t.insert_character(c, position).framing(),
{
    reveal(BuilderModel::insert_character);
    let location = t.location(None);
    if t.small() {
        lemma_framing_location(t);
    }
    framing_new_node_at(t, KindModel::Text { content: seq![c] }, position, location);
    match t.node_before(location) {
        Some(node) => {
            let u = BuilderModel { document: t.document.push_text(node, c), ..t };
            if u.small() {
                assert(kin(t.document) && complete(t.document)) by {
                    reveal(BuilderModel::framing);
                }
                lemma_child_inside(t.document, t.document.root, 0);
                lemma_frame_push_text(
                    t.document,
                    node,
                    c,
                    element_children(t.document, t.document.root)[0],
                );
                lemma_framing_document(t, u);
            } else {
                reveal(BuilderModel::framing);
            }
        },
        None => {},
    }
}

pub broadcast proof fn framing_merge_attributes(t: BuilderModel, n: int, tag: TagModel)
    requires
        t.framing(),
    ensures
        #[trigger] t.merge_attributes(n, tag).framing(),
{
    reveal(BuilderModel::merge_attributes);
    let u = t.merge_attributes(n, tag);
    if n < t.open_elements.len() {
        if u.small() {
            assert(kin(t.document) && complete(t.document)) by {
                reveal(BuilderModel::framing);
            }
            let html = element_children(t.document, t.document.root)[0];
            lemma_child_inside(t.document, t.document.root, 0);
            lemma_frame_merge(t.document, t.open_elements[n], tag.attributes, html);
            lemma_framing_document(t, u);
        } else {
            reveal(BuilderModel::framing);
        }
    }
}

pub broadcast proof fn framing_pop(t: BuilderModel)
    requires
        t.framing(),
    ensures
        #[trigger] t.pop().framing(),
{
    let u = t.pop();
    if t.open_elements.len() > 0 {
        lemma_frame_pop(t, t.open_elements[0]);
        if u.small() {
            assert(kin(t.document) && complete(t.document) && inside(
                t.document,
                t.open_elements[t.open_elements.len() - 1],
            )) by {
                reveal(BuilderModel::framing);
            }
            let html = element_children(t.document, t.document.root)[0];
            lemma_child_inside(t.document, t.document.root, 0);
            lemma_frame_after_pop(t.document, t.open_elements.last(), html);
            assert forall|i: int| 0 <= i < u.open_elements.len() implies t.open_elements.contains(
                #[trigger] u.open_elements[i],
            ) by {
                assert(t.open_elements[i] == u.open_elements[i]);
            }
            lemma_framing_document(t, u);
        } else {
            reveal(BuilderModel::framing);
        }
    }
}

/// An element is appended to the current node.
#[verifier::rlimit(40)]
pub proof fn lemma_element_appended(t: BuilderModel, tag: TagModel, position: Option<Position>)
    requires
        kin(t.document),
        t.document.nodes.len() < usize::MAX,
        t.open_elements.len() > 0 ==> inside(t.document, t.open_elements.last()) && !structural(
            part_of(t.current_kind()),
        ) && t.open_elements.last() != t.document.root,
        t.open_elements.len() == 0 ==> t.document.children(t.document.root).len() > 0,
        !(part_named(tag.name) is Template),
    ensures
        ({
            let d = t.document;
            let u = t.insert_html_element(tag, position);
            let id = d.next_id();
            let e = u.document;
            &&& u == BuilderModel { document: e, open_elements: t.open_elements.push(id), ..t }
            &&& kin(e)
            &&& e.root == d.root
            &&& e.nodes.len() == d.nodes.len() + 1
            &&& inside(e, id)
            &&& !inside(d, id)
            &&& e.kind(id) == element_for(tag, HTML_NAMESPACE@)
            &&& html_name(e.kind(id)) == Some(tag.name)
            &&& forall|other: NodeId| inside(d, other) ==> #[trigger] e.kind(other) == d.kind(other)
            &&& forall|other: NodeId|
                inside(
                    d,
                    other,
                ) ==> #[trigger] element_children(e, other) == if t.open_elements.len()
                    > 0 && other == t.open_elements.last() {
                    element_children(d, other).push(id)
                } else {
                    element_children(d, other)
                }
        }),
{
    reveal(BuilderModel::insert_foreign_element);
    reveal(BuilderModel::create_element);
    lemma_part_named(tag.name);
    let d = t.document;
    let kind = element_for(tag, HTML_NAMESPACE@);
    let id = d.next_id();
    lemma_plain_location(t);
    assert forall|other: NodeId| inside(d, other) implies #[trigger] element_children(
        d.new_node(kind, position),
        other,
    ) == element_children(d, other) by {
        lemma_frame_new_node(d, kind, position, other);
    }
    lemma_frame_new_node(d, kind, position, d.root);
    let e = d.new_node(kind, position);
    assert forall|other: NodeId| inside(d, other) implies #[trigger] e.kind(other) == d.kind(
        other,
    ) by {
        assert(e.node(other) == d.node(other));
    }
    if t.open_elements.len() > 0 {
        let parent = t.open_elements.last();
        lemma_append_element(e, parent, id);
        lemma_kin_insert(e, parent, None, id);
        let f = e.append_child(parent, id);
        assert forall|other: NodeId| inside(d, other) implies #[trigger] element_children(f, other)
            == if other == parent {
            element_children(d, other).push(id)
        } else {
            element_children(d, other)
        } by {
            assert(element_children(e, other) == element_children(d, other));
        }
    } else {
        assert(e.node(d.root) == d.node(d.root));
    }
}

/// An element that is no table, part of one or template.
pub broadcast proof fn framing_insert_html_element(
    t: BuilderModel,
    tag: TagModel,
    position: Option<Position>,
)
    requires
        t.framing(),
        !structural(part_named(tag.name)),
    ensures
        #[trigger] t.insert_html_element(tag, position).framing(),
{
    let u = t.insert_html_element(tag, position);
    let d = t.document;
    lemma_inserted(t, tag, HTML_NAMESPACE@, position);
    reveal(BuilderModel::framing);
    if u.small() {
        let html = element_children(d, d.root)[0];
        let n = t.open_elements.len() as int;
        if n > 0 {
            assert(inside(d, t.open_elements[n - 1]));
            assert(html_name(d.kind(t.open_elements[n - 1])) is Some);
        } else {
            if d.children(d.root).len() == 0 {
                assert(d.children(d.root) == Seq::<NodeId>::empty());
                assert(element_children(d, d.root).len() == 0) by {
                    reveal(Seq::filter);
                }
            }
        }
        lemma_element_appended(t, tag, position);
        let e = u.document;
        lemma_child_inside(d, d.root, 0);
        lemma_child_inside(d, html, 0);
        lemma_child_inside(d, html, 1);
        assert(inside(d, d.root));
        assert(element_children(e, d.root) == element_children(d, d.root));
        assert(element_children(e, html).len() >= 2);
        assert(element_children(e, html)[0] == element_children(d, html)[0]);
        assert(element_children(e, html)[1] == element_children(d, html)[1]);
        assert(complete(e));
        assert forall|i: int| 0 <= i < u.open_elements.len() implies inside(
            e,
            #[trigger] u.open_elements[i],
        ) && html_name(e.kind(u.open_elements[i])) is Some && !structural(
            part_of(e.kind(u.open_elements[i])),
        ) by {
            if i < n {
                assert(u.open_elements[i] == t.open_elements[i]);
                assert(inside(d, t.open_elements[i]));
                assert(e.kind(t.open_elements[i]) == d.kind(t.open_elements[i]));
            }
        }
        assert forall|i: int| 0 <= i < u.formatting.len() implies entry_fits(
            e,
            #[trigger] u.formatting[i],
        ) by {
            assert(entry_fits(d, t.formatting[i]));
            match t.formatting[i] {
                FormattingEntry::Element(node) => {
                    assert(e.kind(node) == d.kind(node));
                },
                FormattingEntry::Marker => {},
            }
        }
    }
}

proof fn framing_reopen_from(t: BuilderModel, i: int, n: int)
    requires
        t.framing(),
        0 <= i,
        n <= t.formatting.len(),
    ensures
        t.reopen_from(i, n).framing(),
    decreases n - i,
{
    if i < n {
        let u = t.reopen(i);
        match t.formatting[i] {
            FormattingEntry::Element(node) => {
                let tag = tag_for(t.document.kind(node));
                let v = t.insert_html_element(tag, None);
                if t.small() {
                    assert(entry_fits(t.document, t.formatting[i])) by {
                        reveal(BuilderModel::framing);
                    }
                    framing_insert_html_element(t, tag, None);
                    lemma_inserted(t, tag, HTML_NAMESPACE@, None);
                    assert(u.framing()) by {
                        reveal(BuilderModel::framing);
                        if v.small() {
                            let k = v.open_elements.len() - 1;
                            lemma_reopened_kind(t, tag);
                            assert forall|j: int| 0 <= j < u.formatting.len() implies entry_fits(
                                u.document,
                                #[trigger] u.formatting[j],
                            ) by {
                                if j != i {
                                    assert(entry_fits(v.document, v.formatting[j]));
                                }
                            }
                        }
                    }
                } else {
                    reveal(BuilderModel::insert_foreign_element);
                    reveal(BuilderModel::create_element);
                    reveal(BuilderModel::framing);
                }
                assert(u.formatting.len() == t.formatting.len()) by {
                    reveal(BuilderModel::insert_foreign_element);
                    reveal(BuilderModel::create_element);
                }
            },
            FormattingEntry::Marker => {},
        }
        framing_reopen_from(u, i + 1, n);
    }
}

proof fn lemma_reopened_kind(t: BuilderModel, tag: TagModel)
    requires
        t.document.nodes.len() < usize::MAX,
        part_named(tag.name) is Other,
    ensures
        ({
            let v = t.insert_html_element(tag, None);
            let id = v.open_elements.last();
            inside(v.document, id) && html_name(v.document.kind(id)) == Some(tag.name)
        }),
{
    lemma_inserted_kind(t, tag, HTML_NAMESPACE@, None);
    lemma_inserted(t, tag, HTML_NAMESPACE@, None);
}

pub broadcast proof fn framing_reconstruct_formatting(t: BuilderModel)
    requires
        t.framing(),
    ensures
        #[trigger] t.reconstruct_formatting().framing(),
{
    reveal(BuilderModel::reconstruct_formatting);
    lemma_closed_from_range(t.formatting, t.open_elements);
    framing_reopen_from(
        t,
        closed_from(t.formatting, t.open_elements),
        t.formatting.len() as int,
    );
}

// ---- The second element of the `html` element ----

/// The `html` element is open alone, and holds the `head` element alone.
pub open spec fn headed(t: BuilderModel, head: NodeId) -> bool {
    let d = t.document;
    &&& kin(d)
    &&& t.open_elements.len() == 1
    &&& inside(d, t.open_elements[0])
    &&& part_of(d.kind(t.open_elements[0])) is Html
    &&& inside(d, head)
    &&& part_of(d.kind(head)) is Head
    &&& element_children(d, d.root) == seq![t.open_elements[0]]
    &&& element_children(d, t.open_elements[0]) == seq![head]
    &&& formatting_fits(d, t.formatting)
}

/// A `frameset` element becomes the second element.
pub proof fn lemma_frameset_begins(t: BuilderModel, head: NodeId, tag: TagModel)
    requires
        t.small() ==> headed(t, head),
        tag.name == "frameset"@,
    ensures
        t.insert_here(tag).set_mode(InsertionMode::InFrameset).held(),
{
    reveal(BuilderModel::held);
    let position = Some(t.token_position);
    let v = t.insert_here(tag);
    let u = v.set_mode(InsertionMode::InFrameset);
    lemma_part_named(tag.name);
    lemma_inserted(t, tag, HTML_NAMESPACE@, position);
    if u.small() {
        let d = t.document;
        let html = t.open_elements[0];
        match html_name(d.kind(html)) {
            Some(name) => {
                lemma_part_named(name);
            },
            None => {},
        }
        match html_name(d.kind(head)) {
            Some(name) => {
                lemma_part_named(name);
            },
            None => {},
        }
        lemma_element_appended(t, tag, position);
        let e = u.document;
        let id = d.next_id();
        assert(inside(d, d.root));
        assert(element_children(e, d.root) == element_children(d, d.root));
        assert(element_children(e, html) == seq![head].push(id));
        assert(e.kind(html) == d.kind(html));
        assert(e.kind(head) == d.kind(head));
        assert(complete(e));
        assert forall|i: int| 0 <= i < u.open_elements.len() implies inside(
            e,
            #[trigger] u.open_elements[i],
        ) && html_name(e.kind(u.open_elements[i])) is Some && !structural(
            part_of(e.kind(u.open_elements[i])),
        ) by {
            if i == 0 {
                assert(u.open_elements[i] == html);
            } else {
                assert(u.open_elements[i] == id);
            }
        }
        assert forall|i: int| 0 <= i < u.formatting.len() implies entry_fits(
            e,
            #[trigger] u.formatting[i],
        ) by {
            assert(entry_fits(d, t.formatting[i]));
            match t.formatting[i] {
                FormattingEntry::Element(node) => {
                    assert(e.kind(node) == d.kind(node));
                },
                FormattingEntry::Marker => {},
            }
        }
        assert(u.framed());
    }
}

/// One of two leaves the list.
proof fn lemma_without_second(list: Seq<NodeId>, d: DocumentModel, a: NodeId, b: NodeId)
    requires
        list.no_duplicates(),
        list.filter(is_element(d)) == seq![a, b],
        a != b,
    ensures
        without(list, b).filter(is_element(d)) == seq![a],
{
    let pred = is_element(d);
    let kept = list.filter(pred);
    assert(kept[1] == b);
    assert(kept.contains(b));
    list.lemma_filter_contains_rev(pred, b);
    list.lemma_filter_pred(pred, 1);
    let at = list.index_of(b);
    let before = list.take(at);
    let after = list.skip(at + 1);
    assert(list == before.push(b) + after);
    assert(without(list, b) == before + after);
    Seq::filter_distributes_over_add(before.push(b), after, pred);
    Seq::filter_distributes_over_add(before, after, pred);
    before.lemma_filter_push(b, pred);
    let x = before.filter(pred);
    let y = after.filter(pred);
    assert(kept == x.push(b) + y);
    assert(x.len() + y.len() == 1);
    if x.len() == 0 {
        assert(kept[0] == b);
    }
    assert(y.len() == 0);
    assert(kept[0] == x[0]);
    assert(x + y == seq![a]);
}

/// A `frameset` element takes the place of the `body` element.
#[verifier::rlimit(40)]
pub proof fn held_frameset_in_body(t: BuilderModel, tag: TagModel)
    requires
        t.live(),
        t.second_is_body(),
        tag.name == "frameset"@,
    ensures
        t.detach_second().pop_to(1).insert_here(tag).set_mode(InsertionMode::InFrameset).held(),
{
    reveal(BuilderModel::detach_second);
    let u = t.detach_second();
    let v = u.pop_to(1);
    let d = t.document;
    let e = u.document;
    let html = t.open_elements[0];
    let body = t.open_elements[1];
    lemma_move_length(d, html, None, body);
    lemma_frame_pop_to(u, html, 1);
    if v.small() {
        assert(t.sturdy()) by {
            reveal(BuilderModel::live);
        }
        lemma_part_named("body"@);
        assert(bodied(d, t.open_elements));
        assert(inside(d, html) && inside(d, body));
        lemma_child_inside(d, html, 1);
        lemma_kin_remove(d, body);
        assert(kin_of(d, html));
        lemma_without_second(d.children(html), d, t.head(), body);
        lemma_same_elements(e.children(html), d, e);
        assert(e.children(d.root) == d.children(d.root)) by {
            assert(html != d.root);
        }
        assert(kin_of(d, d.root));
        assert forall|i: int| 0 <= i < e.children(d.root).len() implies tag_of(
            e.kind(#[trigger] e.children(d.root)[i]),
        ) == tag_of(d.kind(e.children(d.root)[i])) by {
            assert(inside(d, d.children(d.root)[i]));
        }
        lemma_same_elements(e.children(d.root), d, e);
        assert(element_children(e, html) == seq![t.head()]);
        assert(element_children(e, d.root) == seq![html]);
        assert forall|i: int| 0 <= i < u.open_elements.len() implies inside(
            e,
            #[trigger] u.open_elements[i],
        ) by {
            assert(inside(d, t.open_elements[i]));
        }
        assert(frame_kept(e, v.document, html));
        assert(v.open_elements[0] == html);
        assert(tag_of(v.document.kind(html)) == tag_of(e.kind(html)));
        assert(tag_of(v.document.kind(t.head())) == tag_of(e.kind(t.head())));
        assert forall|i: int| 0 <= i < v.formatting.len() implies entry_fits(
            v.document,
            #[trigger] v.formatting[i],
        ) by {
            assert(entry_fits(d, t.formatting[i]));
            match t.formatting[i] {
                FormattingEntry::Element(node) => {
                    assert(e.kind(node) == d.kind(node));
                    assert(tag_of(v.document.kind(node)) == tag_of(e.kind(node)));
                },
                FormattingEntry::Marker => {},
            }
        }
        assert(headed(v, t.head()));
    }
    lemma_frameset_begins(v, t.head(), tag);
}

} // verus!
