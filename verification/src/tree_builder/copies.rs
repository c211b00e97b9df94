//! The elements that stand for formatting elements elsewhere in the tree are like them.
use vstd::prelude::*;

use crate::document::model::{detached, without, DocumentModel, KindModel, NodeId};
use crate::token::{Position, TagModel};
use crate::tree_builder::adoption::appended_all;
use crate::tree_builder::elements::html_name;
use crate::tree_builder::formatting::FormattingEntry;
use crate::tree_builder::frame::{
    inside, kin, kin_of, lemma_frame_new_node, lemma_kin_insert, lemma_kin_remove,
};
use crate::tree_builder::model::{
    attributes_for, element_for, formatting_index_from, tag_for, without_formatting, BuilderModel,
    InsertionLocation,
};
use crate::tree_builder::names::HTML_NAMESPACE;
use crate::tree_builder::parts::part_named;
use crate::tree_builder::stack::is_called;
use crate::tree_builder::structure_adoption::{
    lemma_appended_all_length, lemma_move_length, live_adoption_round,
};

verus! {

// ---- Copies ----

/// An HTML element with the name of another element and with its attributes: the same
/// names and values in the same order.
pub open spec fn copy_of(copy: KindModel, original: KindModel) -> bool {
    match (copy, original) {
        (
            KindModel::Element { name: a, namespace: b, attributes: c },
            KindModel::Element { name: x, namespace: y, attributes: z },
        ) => {
            &&& a == x
            &&& b == Some(HTML_NAMESPACE@)
            &&& c.len() == z.len()
            &&& forall|i: int|
                0 <= i < c.len() ==> (#[trigger] c[i]).name == z[i].name && c[i].value
                    == z[i].value && c[i].namespace is None
        },
        _ => false,
    }
}

/// An element whose attributes are in no namespace, as those of HTML elements are.
pub open spec fn plainly_attributed(kind: KindModel) -> bool {
    kind matches KindModel::Element { attributes, .. } ==> forall|i: int|
        0 <= i < attributes.len() ==> (#[trigger] attributes[i]).namespace is None
}

/// A copy of an HTML element is the same in every respect.
pub proof fn lemma_copy_is_equal(copy: KindModel, original: KindModel)
    requires
        copy_of(copy, original),
        html_name(original) is Some,
        plainly_attributed(original),
    ensures
        copy == original,
{
    match (copy, original) {
        (
            KindModel::Element { attributes: c, .. },
            KindModel::Element { attributes: z, .. },
        ) => {
            assert forall|i: int| 0 <= i < c.len() implies c[i] == z[i] by {
                assert(c[i].name == z[i].name);
                assert(z[i].namespace is None);
            }
            assert(c =~= z);
        },
        _ => {},
    }
}

/// An element made from the tag of another is a copy of it.
pub proof fn lemma_made_copy(original: KindModel)
    requires
        original is Element,
    ensures
        copy_of(element_for(tag_for(original), HTML_NAMESPACE@), original),
{
    reveal(attributes_for);
}

// ---- Moves ----

/// The second document has the nodes of the first, each with what it is and where it
/// came from.
pub open spec fn contents_kept(d: DocumentModel, e: DocumentModel) -> bool {
    &&& e.root == d.root
    &&& d.nodes.len() <= e.nodes.len()
    &&& forall|i: int|
        0 <= i < d.nodes.len() ==> (#[trigger] e.nodes[i]).kind == d.nodes[i].kind
            && e.nodes[i].position == d.nodes[i].position
}

pub proof fn lemma_contents_kept_twice(d: DocumentModel, e: DocumentModel, f: DocumentModel)
    requires
        contents_kept(d, e),
        contents_kept(e, f),
    ensures
        contents_kept(d, f),
{
    assert forall|i: int| 0 <= i < d.nodes.len() implies (#[trigger] f.nodes[i]).kind
        == d.nodes[i].kind && f.nodes[i].position == d.nodes[i].position by {
        assert(e.nodes[i].kind == d.nodes[i].kind);
    }
}

/// Moving nodes changes none.
pub proof fn lemma_moves_keep_contents(
    d: DocumentModel,
    parent: NodeId,
    before: Option<NodeId>,
    id: NodeId,
)
    ensures
        contents_kept(d, d.remove(id)),
        d.remove(id).nodes.len() == d.nodes.len(),
        contents_kept(d, d.insert_before(parent, before, id)),
        d.insert_before(parent, before, id).nodes.len() == d.nodes.len(),
{
}

/// A new node leaves the others alone.
pub proof fn lemma_new_node_keeps_contents(
    d: DocumentModel,
    kind: KindModel,
    position: Option<Position>,
)
    ensures
        contents_kept(d, d.new_node(kind, position)),
        d.new_node(kind, position).nodes.len() == d.nodes.len() + 1,
        d.new_node(kind, position).nodes[d.nodes.len() as int] == detached(kind, position),
{
}

/// A new element is what its tag says, and leaves the others alone.
pub proof fn lemma_created(
    t: BuilderModel,
    tag: TagModel,
    namespace: Seq<char>,
    position: Option<Position>,
)
    ensures
        ({
            let e = t.create_element(tag, namespace, position).document;
            let id = t.document.next_id();
            &&& contents_kept(t.document, e)
            &&& t.document.nodes.len() < e.nodes.len() <= t.document.nodes.len() + 2
            &&& e.nodes.len() <= usize::MAX ==> e.kind(id) == element_for(tag, namespace)
                && e.node(id).position == position
        }),
{
    reveal(BuilderModel::create_element);
    let d = t.document;
    let e = d.new_node(element_for(tag, namespace), position);
    let f = e.new_node(KindModel::DocumentFragment, None);
    lemma_new_node_keeps_contents(d, element_for(tag, namespace), position);
    lemma_new_node_keeps_contents(e, KindModel::DocumentFragment, None);
    lemma_moves_keep_contents(f, d.next_id(), None, e.next_id());
    lemma_contents_kept_twice(d, e, f);
    lemma_contents_kept_twice(d, f, f.append_child(d.next_id(), e.next_id()));
    assert(e.nodes[d.nodes.len() as int].kind == element_for(tag, namespace));
    assert(f.nodes[d.nodes.len() as int].kind == element_for(tag, namespace));
}

/// Parents and children agree after an element was made.
proof fn lemma_created_kin(
    t: BuilderModel,
    tag: TagModel,
    namespace: Seq<char>,
    position: Option<Position>,
)
    requires
        kin(t.document),
        t.create_element(tag, namespace, position).document.nodes.len() <= usize::MAX,
    ensures
        ({
            let e = t.create_element(tag, namespace, position).document;
            let id = t.document.next_id();
            &&& kin(e)
            &&& inside(e, id)
            &&& !inside(t.document, id)
            &&& e.parent(id) is None
            &&& forall|other: NodeId| inside(t.document, other) ==> #[trigger] e.node(other)
                == t.document.node(other)
        }),
{
    reveal(BuilderModel::create_element);
    let d = t.document;
    let id = d.next_id();
    let kind = element_for(tag, namespace);
    let e = d.new_node(kind, position);
    lemma_frame_new_node(d, kind, position, d.root);
    if namespace == HTML_NAMESPACE@ && tag.name == "template"@ {
        let f = e.new_node(KindModel::DocumentFragment, None);
        lemma_frame_new_node(e, KindModel::DocumentFragment, None, e.root);
        assert(f.node(id) == e.node(id));
        lemma_kin_insert(f, id, None, e.next_id());
        let g = f.append_child(id, e.next_id());
        assert(f.node(e.next_id()).parent is None);
        assert forall|other: NodeId| inside(d, other) implies #[trigger] g.node(other) == d.node(
            other,
        ) by {
            assert(e.node(other) == d.node(other));
            assert(f.node(other) == e.node(other));
            assert(other != id && other != e.next_id());
        }
        assert(g.parent(id) == f.parent(id));
    }
}

// ---- The copy inside the furthest block ----

/// The children of one node become those of another, in their order.
proof fn lemma_children_moved(d: DocumentModel, ids: Seq<NodeId>, block: NodeId, copy: NodeId)
    requires
        kin(d),
        inside(d, block),
        inside(d, copy),
        block != copy,
        d.children(block) == ids.push(copy),
    ensures
        ({
            let e = appended_all(d, ids, copy);
            &&& kin(e)
            &&& e.nodes.len() == d.nodes.len()
            &&& e.children(block) == seq![copy]
            &&& e.children(copy) == d.children(copy) + ids
            &&& contents_kept(d, e)
        }),
    decreases ids.len(),
{
    if ids.len() == 0 {
        assert(ids.push(copy) == seq![copy]);
        assert(d.children(copy) + ids == d.children(copy));
    } else {
        let id = ids[0];
        let rest = ids.drop_first();
        assert(kin_of(d, block));
        assert(d.children(block)[0] == id);
        assert(d.children(block)[ids.len() as int] == copy);
        assert(inside(d, id) && d.parent(id) == Some(block));
        assert(id != copy);
        lemma_kin_remove(d, id);
        lemma_kin_insert(d, copy, None, id);
        lemma_moves_keep_contents(d, copy, None, id);
        let e = d.append_child(copy, id);
        let f = d.remove(id);
        assert(without(d.children(block), id) == rest.push(copy)) by {
            let list = d.children(block);
            assert(list.contains(id));
            let k = list.index_of(id);
            assert(list[k] == id);
            assert(k == 0);
            assert(list.remove(0) =~= rest.push(copy));
        }
        assert(f.children(copy) == d.children(copy));
        assert(e.children(copy) == d.children(copy).push(id));
        assert(e.children(block) == rest.push(copy));
        lemma_children_moved(e, rest, block, copy);
        assert(d.children(copy).push(id) + rest == d.children(copy) + ids);
        lemma_contents_kept_twice(d, e, appended_all(e, rest, copy));
    }
}

/// The element that takes the place of the formatting element inside the block is a
/// copy of it: the same name, and the same attributes with the same values. It was not
/// written in the source. It is the only child of the block, and has the children that
/// the block had.
pub proof fn lemma_formatting_element_replaced(
    t: BuilderModel,
    formatting: NodeId,
    block: NodeId,
    bookmark: int,
)
    requires
        kin(t.document),
        t.replace_formatting_element(formatting, block, bookmark).document.nodes.len()
            <= usize::MAX,
        inside(t.document, block),
        inside(t.document, formatting),
        t.document.kind(formatting) is Element,
    ensures
        ({
            let u = t.replace_formatting_element(formatting, block, bookmark);
            let copy = u.document.children(block)[0];
            &&& u.document.children(block) == seq![copy]
            &&& !inside(t.document, copy)
            &&& copy_of(u.document.kind(copy), t.document.kind(formatting))
            &&& u.document.node(copy).position is None
            &&& !is_called(t.document, formatting, Some("template"@))
                ==> u.document.children(copy) == t.document.children(block)
            &&& contents_kept(t.document, u.document)
        }),
{
    let tag = tag_for(t.document.kind(formatting));
    let copy = t.document.next_id();
    let v = t.create_element(tag, HTML_NAMESPACE@, None);
    lemma_move_length(v.document, block, None, copy);
    lemma_appended_all_length(
        v.document.append_child(block, copy),
        v.document.children(block),
        copy,
    );
    lemma_created(t, tag, HTML_NAMESPACE@, None);
    lemma_created_kin(t, tag, HTML_NAMESPACE@, None);
    lemma_made_copy(t.document.kind(formatting));
    let d = v.document;
    let children = d.children(block);
    assert(d.node(block) == t.document.node(block));
    lemma_kin_insert(d, block, None, copy);
    lemma_moves_keep_contents(d, block, None, copy);
    let e = d.append_child(block, copy);
    assert(d.remove(copy) == d);
    assert(children.insert(children.len() as int, copy) == children.push(copy));
    lemma_children_moved(e, children, block, copy);
    let f = appended_all(e, children, copy);
    lemma_contents_kept_twice(t.document, d, e);
    lemma_contents_kept_twice(t.document, e, f);
    lemma_contents_kept_twice(d, e, f);
    assert(f.nodes[copy.index as int].kind == d.nodes[copy.index as int].kind);
    assert(seq![copy][0] == copy);
    if !is_called(t.document, formatting, Some("template"@)) {
        lemma_no_contents(t, tag);
        assert(e.children(copy) == d.children(copy));
        assert(Seq::<NodeId>::empty() + children == children);
    }
}

/// A new element other than a template has no children.
proof fn lemma_no_contents(t: BuilderModel, tag: TagModel)
    requires
        t.create_element(tag, HTML_NAMESPACE@, None).document.nodes.len() <= usize::MAX,
        tag.name != "template"@,
    ensures
        t.create_element(tag, HTML_NAMESPACE@, None).document.children(t.document.next_id())
            == Seq::<NodeId>::empty(),
{
    reveal(BuilderModel::create_element);
}

// ---- A whole round ----

/// Elements that are adopted on the way keep what every node is.
pub proof fn lemma_adopt_up_contents(
    t: BuilderModel,
    top: int,
    i: int,
    block: NodeId,
    last: NodeId,
    bookmark: int,
    steps: int,
)
    ensures
        contents_kept(
            t.document,
            t.adopt_up(top, i, block, last, bookmark, steps).0.document,
        ),
    decreases i - top,
{
    if i > top {
        let node = t.open_elements[i];
        let a = if steps >= 3 {
            BuilderModel { formatting: without_formatting(t.formatting, node), ..t }
        } else {
            t
        };
        let mark = match formatting_index_from(t.formatting, node, 0) {
            Some(k) => if steps >= 3 && k < bookmark {
                bookmark - 1
            } else {
                bookmark
            },
            None => bookmark,
        };
        match formatting_index_from(a.formatting, node, 0) {
            None => {
                let b = BuilderModel { open_elements: a.open_elements.remove(i), ..a };
                lemma_adopt_up_contents(b, top, i - 1, block, last, mark, steps + 1);
            },
            Some(k) => {
                let copy = a.document.next_id();
                let tag = tag_for(a.document.kind(node));
                let u = a.create_element(tag, HTML_NAMESPACE@, None);
                lemma_created(a, tag, HTML_NAMESPACE@, None);
                lemma_moves_keep_contents(u.document, copy, None, last);
                let b = BuilderModel {
                    document: u.document.append_child(copy, last),
                    formatting: u.formatting.update(k, FormattingEntry::Element(copy)),
                    open_elements: u.open_elements.update(i, copy),
                    ..u
                };
                lemma_contents_kept_twice(t.document, u.document, b.document);
                let next = if last == block {
                    k + 1
                } else {
                    mark
                };
                lemma_adopt_up_contents(b, top, i - 1, block, copy, next, steps + 1);
                let r = b.adopt_up(top, i - 1, block, copy, next, steps + 1);
                lemma_contents_kept_twice(t.document, b.document, r.0.document);
            },
        }
    }
}

/// Moving a node to its place keeps what every node is.
pub proof fn lemma_replant_contents(t: BuilderModel, node: NodeId, location: InsertionLocation)
    ensures
        contents_kept(t.document, t.replant(node, location).document),
{
    let d = t.document;
    let e = d.remove(node);
    lemma_moves_keep_contents(d, location.parent, location.before, node);
    lemma_moves_keep_contents(e, location.parent, location.before, node);
    lemma_contents_kept_twice(d, e, e.insert_before(location.parent, location.before, node));
}

/// The block has exactly one child: a new element, not written in the source, that is a
/// copy of the formatting element. Every node is what it was.
#[verifier::opaque]
pub open spec fn adopted_copy(
    d: DocumentModel,
    e: DocumentModel,
    formatting: NodeId,
    block: NodeId,
) -> bool {
    let copy = e.children(block)[0];
    &&& e.children(block) == seq![copy]
    &&& !inside(d, copy)
    &&& copy_of(e.kind(copy), d.kind(formatting))
    &&& e.node(copy).position is None
    &&& contents_kept(d, e)
}

/// Adopting ends with a copy of the formatting element in the furthest block.
pub proof fn lemma_adopted_copy(
    d: DocumentModel,
    v: BuilderModel,
    formatting: NodeId,
    block: NodeId,
    bookmark: int,
)
    requires
        contents_kept(d, v.document),
        kin(v.document),
        v.replace_formatting_element(formatting, block, bookmark).document.nodes.len()
            <= usize::MAX,
        inside(d, formatting),
        inside(d, block),
        d.kind(formatting) is Element,
    ensures
        adopted_copy(
            d,
            v.replace_formatting_element(formatting, block, bookmark).document,
            formatting,
            block,
        ),
{
    reveal(adopted_copy);
    assert(v.document.nodes[formatting.index as int].kind
        == d.nodes[formatting.index as int].kind);
    lemma_formatting_element_replaced(v, formatting, block, bookmark);
    lemma_contents_kept_twice(
        d,
        v.document,
        v.replace_formatting_element(formatting, block, bookmark).document,
    );
}

/// When a tag makes a round of adoption and asks for another, some active formatting
/// element of its name has a copy inside a block of the stack: one new element, alone in
/// the block, with the name of the formatting element, in the HTML namespace, with the
/// same attributes with the same values in the same order.
pub proof fn lemma_adoption_copies(t: BuilderModel, tag: TagModel)
    requires
        t.live(),
        part_named(tag.name) is Other,
        t.adoption_round(tag).1,
        t.adoption_round(tag).0.small(),
    ensures
        ({
            let e = t.adoption_round(tag).0.document;
            exists|formatting: NodeId, block: NodeId|
                {
                    &&& html_name(t.document.kind(formatting)) == Some(tag.name)
                    &&& t.formatting.contains(FormattingEntry::Element(formatting))
                    &&& t.open_elements.contains(block)
                    &&& #[trigger] e.children(block).len() == 1
                    &&& !inside(t.document, e.children(block)[0])
                    &&& copy_of(
                        e.kind(e.children(block)[0]),
                        #[trigger] t.document.kind(formatting),
                    )
                    &&& plainly_attributed(t.document.kind(formatting)) ==> e.kind(
                        e.children(block)[0],
                    ) == t.document.kind(formatting)
                    &&& e.node(e.children(block)[0]).position is None
                }
        }),
{
    live_adoption_round(t, tag);
    let e = t.adoption_round(tag).0.document;
    let (formatting, b) = choose|formatting: NodeId, b: int|
        0 <= b < t.open_elements.len() && html_name(t.document.kind(formatting)) == Some(tag.name)
            && t.formatting.contains(FormattingEntry::Element(formatting))
            && #[trigger] adopted_copy(t.document, e, formatting, t.open_elements[b]);
    let block = t.open_elements[b];
    reveal(adopted_copy);
    let copy = e.children(block)[0];
    assert(seq![copy].len() == 1);
    if plainly_attributed(t.document.kind(formatting)) {
        lemma_copy_is_equal(e.kind(copy), t.document.kind(formatting));
    }
}

} // verus!
