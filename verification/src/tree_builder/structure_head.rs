//! The rules for what comes before the `body` element, for text and for documents with
//! a `frameset` element keep the structure of the document.
use vstd::prelude::*;

use crate::document::model::{DocumentModel, KindModel, NodeId};
use crate::token::{plain_tag, ParseErrorKind, Position, TagModel, TokenKindModel};
use crate::tree_builder::elements::{tag_of, Group};
use crate::tree_builder::formatting::FormattingEntry;
use crate::tree_builder::frame::{
    element_children, frame_kept, inside, lemma_append_element, lemma_frame_insert,
    lemma_frame_kept_twice, lemma_frame_merge, lemma_frame_new_node, lemma_frame_push_text,
    lemma_kin_insert,
};
use crate::tree_builder::model::{element_for, BuilderModel, InsertionLocation, InsertionMode};
use crate::tree_builder::names::{
    in_head_content, in_head_noscript_content, in_head_void, HTML_NAMESPACE,
};
use crate::tree_builder::parts::{
    lemma_head_content, lemma_head_void, lemma_other_names_4, lemma_other_names_5, lemma_part_named,
    part_named, Part,
};
use crate::tree_builder::stack::{index_from, last_named, lemma_last_named, length_without_implied};
use crate::tree_builder::steps::doctype_kind;
use crate::tree_builder::structure::{
    bodied, entry_fits, form_fits, formatting_fits, frameset_mode, holds_part, inner_fits,
    lemma_templates_push, lemma_templates_remove, mode_fits, part_at, stack_fits, templates,
};
use crate::tree_builder::structure_adoption::{lemma_index_found, lemma_move_length};
use crate::tree_builder::structure_framed::{
    framing_acknowledge_self_closing, framing_append_to_document, framing_error,
    framing_insert_character, framing_insert_html_element, framing_insert_node,
    framing_merge_attributes, framing_pop, framing_reconstruct_formatting, framing_set_frameset_ok,
    headed, lemma_element_appended, lemma_frameset_begins, lemma_plain_location,
};
use crate::tree_builder::structure_modes::{
    can_open, lemma_cut, lemma_mode_same, lemma_opened, lemma_pop_is_cut, lemma_sturdy_document,
    lemma_template_opened, lemma_text_opened,
};
use crate::tree_builder::structure_steps::{
    lemma_frame_pop, lemma_frame_pop_to, lemma_implied, lemma_inserted, lemma_location,
    lemma_pop_until_length,
};

verus! {

// ---- Steps that change no more than the document ----

impl BuilderModel {
    /// The stack is what the insertion mode needs.
    #[verifier::opaque]
    pub open spec fn steady(self) -> bool {
        self.small() ==> self.sturdy() && self.fits()
    }
}

pub broadcast proof fn steady_is_held(t: BuilderModel)
    requires
        t.steady(),
    ensures
        #[trigger] t.held(),
{
    reveal(BuilderModel::steady);
    reveal(BuilderModel::held);
}

pub broadcast proof fn framing_is_held(t: BuilderModel)
    requires
        t.framing(),
    ensures
        #[trigger] t.held(),
{
    reveal(BuilderModel::framing);
    reveal(BuilderModel::held);
}

pub broadcast proof fn steady_error(t: BuilderModel, kind: ParseErrorKind)
    requires
        t.steady(),
    ensures
        #[trigger] t.error(kind).steady(),
{
    reveal(BuilderModel::steady);
}

/// Where nodes go is in the document.
proof fn lemma_steady_location(t: BuilderModel)
    requires
        t.small(),
        t.sturdy(),
    ensures
        inside(t.document, t.location(None).parent),
{
    if t.open_elements.len() >= 2 {
        lemma_location(t, None);
    } else {
        assert(part_at(t.document, t.open_elements, 0) is Html);
        assert(inside(t.document, t.open_elements[0]));
        lemma_plain_location(t);
    }
}

proof fn steady_new_node_at(
    t: BuilderModel,
    kind: KindModel,
    position: Option<Position>,
    location: InsertionLocation,
)
    requires
        t.steady(),
        !(kind is Element),
        t.small() ==> inside(t.document, location.parent),
    ensures
        t.new_node_at(kind, position, location).steady(),
{
    reveal(BuilderModel::steady);
    let u = t.new_node_at(kind, position, location);
    let d = t.document;
    let e = d.new_node(kind, position);
    lemma_move_length(e, location.parent, location.before, d.next_id());
    if u.small() {
        let html = t.open_elements[0];
        assert(inside(d, html));
        lemma_frame_new_node(d, kind, position, html);
        lemma_frame_insert(e, location.parent, location.before, d.next_id(), html);
        lemma_frame_kept_twice(d, e, u.document, html);
        lemma_sturdy_document(t, u);
    }
}

pub broadcast proof fn steady_insert_node(
    t: BuilderModel,
    kind: KindModel,
    position: Option<Position>,
)
    requires
        t.steady(),
        !(kind is Element),
    ensures
        #[trigger] t.insert_node(kind, position).steady(),
{
    reveal(BuilderModel::insert_node);
    if t.small() {
        assert(t.sturdy()) by {
            reveal(BuilderModel::steady);
        }
        lemma_steady_location(t);
    }
    steady_new_node_at(t, kind, position, t.location(None));
}

pub broadcast proof fn steady_insert_character(
    t: BuilderModel,
    c: char,
    position: Option<Position>,
)
    requires
        t.steady(),
    ensures
        #[trigger] t.insert_character(c, position).steady(),
{
    reveal(BuilderModel::insert_character);
    let location = t.location(None);
    if t.small() {
        assert(t.sturdy()) by {
            reveal(BuilderModel::steady);
        }
        lemma_steady_location(t);
    }
    steady_new_node_at(t, KindModel::Text { content: seq![c] }, position, location);
    match t.node_before(location) {
        Some(node) => {
            let u = BuilderModel { document: t.document.push_text(node, c), ..t };
            assert(u.steady()) by {
                reveal(BuilderModel::steady);
                if u.small() {
                    assert(inside(t.document, t.open_elements[0]));
                    lemma_frame_push_text(t.document, node, c, t.open_elements[0]);
                    lemma_sturdy_document(t, u);
                }
            }
        },
        None => {},
    }
}

pub broadcast proof fn steady_merge_attributes(t: BuilderModel, n: int, tag: TagModel)
    requires
        t.steady(),
    ensures
        #[trigger] t.merge_attributes(n, tag).steady(),
{
    reveal(BuilderModel::merge_attributes);
    reveal(BuilderModel::steady);
    let u = t.merge_attributes(n, tag);
    if n < t.open_elements.len() && u.small() {
        assert(inside(t.document, t.open_elements[0]));
        lemma_frame_merge(t.document, t.open_elements[n], tag.attributes, t.open_elements[0]);
        lemma_sturdy_document(t, u);
    }
}

proof fn steady_html_in_body(t: BuilderModel, tag: TagModel)
    requires
        t.steady(),
    ensures
        t.html_in_body(tag).0.steady(),
{
    broadcast use {steady_error, steady_merge_attributes};

    reveal(BuilderModel::html_in_body);
}

// ---- Before the `html` element ----

/// A node that is no element joins the document node.
proof fn lemma_unborn_document(t: BuilderModel, kind: KindModel)
    requires
        t.small() ==> t.unborn(),
        !(kind is Element),
    ensures
        ({
            let u = t.append_to_document(kind);
            u.small() ==> u.unborn() && u.insertion_mode == t.insertion_mode
        }),
{
    reveal(BuilderModel::append_to_document);
    let d = t.document;
    let e = d.new_node(kind, Some(t.token_position));
    lemma_move_length(e, d.root, None, d.next_id());
    if t.append_to_document(kind).small() {
        lemma_frame_new_node(d, kind, Some(t.token_position), d.root);
        lemma_frame_insert(e, d.root, None, d.next_id(), d.root);
        lemma_frame_kept_twice(d, e, t.append_to_document(kind).document, d.root);
    }
}

/// The `html` element is made.
proof fn held_insert_root_element(t: BuilderModel, tag: TagModel, position: Option<Position>)
    requires
        t.small() ==> t.unborn(),
        tag.name == "html"@,
    ensures
        t.insert_root_element(tag, position).set_mode(InsertionMode::BeforeHead).held(),
{
    reveal(BuilderModel::held);
    reveal(BuilderModel::insert_root_element);
    reveal(BuilderModel::create_element);
    lemma_part_named(tag.name);
    let d = t.document;
    let kind = element_for(tag, HTML_NAMESPACE@);
    let e = d.new_node(kind, position);
    let id = d.next_id();
    let u = t.insert_root_element(tag, position).set_mode(InsertionMode::BeforeHead);
    lemma_move_length(e, d.root, None, id);
    if u.small() {
        lemma_frame_new_node(d, kind, position, d.root);
        assert(e.node(d.root) == d.node(d.root));
        lemma_append_element(e, d.root, id);
        lemma_kin_insert(e, d.root, None, id);
        assert(e.children(id) == Seq::<NodeId>::empty());
        assert(element_children(e, id) == Seq::<NodeId>::empty()) by {
            reveal(Seq::filter);
        }
        assert(element_children(u.document, id) == element_children(e, id));
        assert(element_children(u.document, d.root) == seq![id]);
        assert(u.document.kind(id) == kind);
        assert(u.open_elements[0] == id);
        assert(u.headless());
    }
}

pub proof fn held_initial(t: BuilderModel, kind: TokenKindModel)
    requires
        t.held(),
        t.insertion_mode is Initial,
    ensures
        t.initial(kind).0.held(),
{
    reveal(BuilderModel::initial);
    reveal(BuilderModel::initial_anything_else);
    reveal(BuilderModel::insert_doctype);
    reveal(BuilderModel::held);
    assert(t.small() ==> t.unborn());
    match kind {
        TokenKindModel::Comment(data) => {
            lemma_unborn_document(t, KindModel::Comment { content: data });
        },
        TokenKindModel::ProcessingInstruction(pi) => {
            lemma_unborn_document(
                t,
                KindModel::ProcessingInstruction { target: pi.target, data: pi.data },
            );
        },
        TokenKindModel::Doctype(doctype) => {
            lemma_unborn_document(t, doctype_kind(doctype));
        },
        _ => {},
    }
}

pub proof fn held_before_html(t: BuilderModel, kind: TokenKindModel)
    requires
        t.held(),
        t.insertion_mode is BeforeHtml,
    ensures
        t.before_html(kind).0.held(),
{
    reveal(BuilderModel::before_html);
    reveal(BuilderModel::before_html_anything_else);
    assert(t.small() ==> t.unborn()) by {
        reveal(BuilderModel::held);
    }
    held_insert_root_element(t, plain_tag("html"@), None);
    match kind {
        TokenKindModel::Comment(data) => {
            lemma_unborn_document(t, KindModel::Comment { content: data });
            reveal(BuilderModel::held);
        },
        TokenKindModel::ProcessingInstruction(pi) => {
            lemma_unborn_document(
                t,
                KindModel::ProcessingInstruction { target: pi.target, data: pi.data },
            );
            reveal(BuilderModel::held);
        },
        TokenKindModel::StartTag(tag) => {
            if tag.name == "html"@ {
                held_insert_root_element(t, tag, Some(t.token_position));
            }
        },
        _ => {
            reveal(BuilderModel::held);
        },
    }
}

// ---- Before the `head` element ----

proof fn lemma_headless_kept(t: BuilderModel, u: BuilderModel)
    requires
        t.headless(),
        frame_kept(t.document, u.document, t.open_elements[0]),
        u == (BuilderModel { document: u.document, errors: u.errors, ..t }),
    ensures
        u.headless(),
{
    let html = t.open_elements[0];
    assert(tag_of(u.document.kind(html)) == tag_of(t.document.kind(html)));
}

proof fn lemma_headless_node(t: BuilderModel, kind: KindModel, position: Option<Position>)
    requires
        t.small() ==> t.headless(),
        !(kind is Element),
    ensures
        ({
            let u = t.insert_node(kind, position);
            u.small() ==> u.headless()
        }),
{
    reveal(BuilderModel::insert_node);
    let d = t.document;
    let e = d.new_node(kind, position);
    let u = t.insert_node(kind, position);
    let location = t.location(None);
    lemma_move_length(e, location.parent, location.before, d.next_id());
    if u.small() {
        let html = t.open_elements[0];
        lemma_plain_location(t);
        lemma_frame_new_node(d, kind, position, html);
        lemma_frame_insert(e, location.parent, location.before, d.next_id(), html);
        lemma_frame_kept_twice(d, e, u.document, html);
        lemma_headless_kept(t, u);
    }
}

/// The `head` element is made.
#[verifier::rlimit(40)]
proof fn held_insert_head(t: BuilderModel, tag: TagModel, position: Option<Position>)
    requires
        t.small() ==> t.headless(),
        tag.name == "head"@,
    ensures
        t.insert_html_element(tag, position).remember_head().set_mode(
            InsertionMode::InHead,
        ).held(),
{
    reveal(BuilderModel::held);
    lemma_part_named(tag.name);
    let d = t.document;
    let id = d.next_id();
    let v = t.insert_html_element(tag, position);
    let u = v.remember_head().set_mode(InsertionMode::InHead);
    lemma_inserted(t, tag, HTML_NAMESPACE@, position);
    if u.small() {
        let html = t.open_elements[0];
        assert(d.kind(html) != d.kind(d.root));
        lemma_element_appended(t, tag, position);
        let e = u.document;
        assert(e.kind(html) == d.kind(html));
        assert(inside(d, d.root));
        assert(element_children(e, d.root) == element_children(d, d.root));
        assert(element_children(e, html) == seq![id]);
        assert(u.open_elements[0] == html);
        assert(u.open_elements[1] == id);
        let one = Seq::<NodeId>::empty().push(html);
        assert(u.open_elements == one.push(id));
        lemma_templates_push(e, Seq::<NodeId>::empty(), html);
        lemma_templates_push(e, one, id);
        assert(templates(e, Seq::<NodeId>::empty()) == 0) by {
            reveal(Seq::filter);
        }
        assert(part_at(e, u.open_elements, 0) is Html);
        assert(part_at(e, u.open_elements, 1) is Head);
        assert(u.sturdy());
    }
}

pub proof fn held_before_head(t: BuilderModel, kind: TokenKindModel)
    requires
        t.held(),
        t.insertion_mode is BeforeHead,
    ensures
        t.before_head(kind).0.held(),
{
    reveal(BuilderModel::before_head);
    reveal(BuilderModel::before_head_anything_else);
    reveal(BuilderModel::html_in_body);
    reveal(BuilderModel::merge_attributes);
    assert(t.small() ==> t.headless()) by {
        reveal(BuilderModel::held);
    }
    held_insert_head(t, plain_tag("head"@), None);
    match kind {
        TokenKindModel::Comment(data) => {
            lemma_headless_node(
                t,
                KindModel::Comment { content: data },
                Some(t.token_position),
            );
            reveal(BuilderModel::held);
        },
        TokenKindModel::ProcessingInstruction(pi) => {
            lemma_headless_node(
                t,
                KindModel::ProcessingInstruction { target: pi.target, data: pi.data },
                Some(t.token_position),
            );
            reveal(BuilderModel::held);
        },
        TokenKindModel::StartTag(tag) => {
            if tag.name == "html"@ {
                let u = t.html_in_body(tag).0;
                if u.small() {
                    lemma_frame_merge(
                        t.document,
                        t.open_elements[0],
                        tag.attributes,
                        t.open_elements[0],
                    );
                    lemma_headless_kept(t, u);
                }
                reveal(BuilderModel::held);
            } else if tag.name == "head"@ {
                held_insert_head(t, tag, Some(t.token_position));
            }
        },
        _ => {
            reveal(BuilderModel::held);
        },
    }
}

// ---- In the `head` element ----

/// An element without contents is opened and closed.
proof fn steady_insert_closed(t: BuilderModel, tag: TagModel)
    requires
        t.small() ==> can_open(t, Part::Other) && mode_fits(
            t.document,
            t.open_elements,
            t.head(),
            t.insertion_mode,
        ),
        part_named(tag.name) is Other,
    ensures
        t.insert_closed(tag).steady(),
        t.insert_closed(tag).open_elements == t.open_elements,
        t.insert_closed(tag).head_element_pointer == t.head_element_pointer,
        t.insert_closed(tag).insertion_mode == t.insertion_mode,
        t.insert_closed(tag).small() ==> t.small(),
{
    reveal(BuilderModel::insert_closed);
    reveal(BuilderModel::steady);
    let v = t.insert_here(tag);
    let w = v.pop();
    let u = t.insert_closed(tag);
    lemma_opened(t, tag, Some(t.token_position));
    lemma_pop_is_cut(v);
    lemma_frame_pop(v, v.open_elements[0]);
    let n = t.open_elements.len() as int;
    assert(v.open_elements.take(n) == t.open_elements);
    assert(v.open_elements.drop_last() == t.open_elements);
    if u.small() {
        lemma_cut(v, n);
        lemma_sturdy_document(w, u);
        assert forall|i: int| 0 <= i < t.open_elements.len() implies tag_of(
            u.document.kind(#[trigger] t.open_elements[i]),
        ) == tag_of(t.document.kind(t.open_elements[i])) by {
            assert(w.open_elements[i] == t.open_elements[i]);
            assert(v.open_elements[i] == t.open_elements[i]);
            assert(tag_of(w.document.kind(w.open_elements[i])) == tag_of(
                v.document.kind(v.open_elements[i]),
            ));
        }
        lemma_mode_same(
            t.document,
            u.document,
            t.open_elements,
            t.head(),
            t.insertion_mode,
        );
    }
}

/// What belongs into the head, in the head or in a `noscript` element in it.
proof fn held_head_content_in_head(t: BuilderModel, tag: TagModel)
    requires
        t.steady(),
        t.insertion_mode is InHead && in_head_content(tag.name) || t.insertion_mode
            is InHeadNoscript && in_head_noscript_content(tag.name),
    ensures
        t.head_content(tag).0.held(),
{
    broadcast use steady_is_held;

    reveal(BuilderModel::head_content);
    lemma_head_content(tag.name);
    lemma_head_void(tag.name);
    lemma_other_names_4();
    lemma_part_named(tag.name);
    assert(t.small() ==> can_open(t, Part::Other) && can_open(t, Part::Template) && mode_fits(
        t.document,
        t.open_elements,
        t.head(),
        t.insertion_mode,
    )) by {
        reveal(BuilderModel::steady);
    }
    if in_head_void(tag.name) {
        steady_insert_closed(t, tag);
    } else if tag.name == "template"@ {
        lemma_template_opened(t, tag);
        let u = t.begin_template(tag);
        assert(u.steady()) by {
            reveal(BuilderModel::steady);
            if u.small() {
                assert(part_at(u.document, u.open_elements, 1) == part_at(
                    t.document,
                    t.open_elements,
                    1,
                ));
                assert(part_at(u.document, u.open_elements, 2) is Template);
                assert(holds_part(u.document, u.open_elements, Part::Template));
            }
        }
    } else {
        lemma_text_opened(t, tag, Some(t.token_position));
        assert(t.insert_text_here(tag).steady()) by {
            reveal(BuilderModel::steady);
        }
    }
}

/// The stack is cut down to its first elements.
proof fn steady_cut(t: BuilderModel, n: int, mode: InsertionMode)
    requires
        t.steady(),
        n == 1 && t.insertion_mode is InHead && mode is AfterHead || n == 2 && t.insertion_mode
            is InHeadNoscript && mode is InHead,
    ensures
        t.pop().set_mode(mode).steady(),
{
    reveal(BuilderModel::steady);
    if t.open_elements.len() > 0 {
        lemma_frame_pop(t, t.open_elements[0]);
        if t.pop().small() {
            lemma_pop_is_cut(t);
            lemma_cut(t, n);
            let u = t.pop();
            lemma_sturdy_document(u, u.set_mode(mode));
            if n == 2 {
                assert(u.open_elements[1] == t.open_elements[1]);
            }
        }
    }
}

/// No template is open in the head or after it.
proof fn lemma_no_template(t: BuilderModel)
    requires
        t.small() ==> t.sturdy() && t.fits(),
        t.insertion_mode is InHead || t.insertion_mode is AfterHead,
        t.small(),
    ensures
        !t.has_template(),
{
    lemma_last_named(t.document, t.open_elements, "template"@);
    lemma_part_named("template"@);
    match last_named(t.document, t.open_elements, "template"@) {
        Some(k) => {
            assert(part_at(t.document, t.open_elements, k) is Template);
            assert(part_at(t.document, t.open_elements, 0) is Html);
        },
        None => {},
    }
}

/// The end of a template where none is open.
proof fn held_stray_template_end(t: BuilderModel)
    requires
        t.steady(),
        t.insertion_mode is InHead || t.insertion_mode is AfterHead,
    ensures
        t.end_template().held(),
{
    broadcast use {steady_is_held, steady_error};

    reveal(BuilderModel::end_template);
    if t.small() {
        assert(t.sturdy() && t.fits()) by {
            reveal(BuilderModel::steady);
        }
        lemma_no_template(t);
    } else {
        lemma_end_template_length(t);
        reveal(BuilderModel::held);
    }
}

proof fn lemma_end_template_length(t: BuilderModel)
    ensures
        t.document.nodes.len() <= t.end_template().document.nodes.len(),
{
    reveal(BuilderModel::end_template);
    reveal(BuilderModel::leave_template);
    if t.has_template() {
        let d = t.document;
        let stack = t.open_elements;
        let group = Group::ImpliedEndTagsThoroughly;
        let n = length_without_implied(d, stack, group, None);
        lemma_implied(d, stack, group, None);
        lemma_frame_pop_to(t, stack[0], n);
        let u = t.generate_implied_end_tags_thoroughly();
        let v = if !u.current_is("template"@) {
            u.error(ParseErrorKind::ImpliedEndTagWithUnclosedElements)
        } else {
            u
        };
        lemma_pop_until_length(v, "template"@);
    }
}

pub proof fn held_in_head(t: BuilderModel, kind: TokenKindModel)
    requires
        t.held(),
        t.insertion_mode is InHead,
    ensures
        t.in_head(kind).0.held(),
{
    broadcast use {steady_is_held, steady_error, steady_insert_node, steady_insert_character};

    reveal(BuilderModel::in_head);
    reveal(BuilderModel::in_head_start);
    reveal(BuilderModel::in_head_end);
    reveal(BuilderModel::in_head_anything_else);
    assert(t.steady()) by {
        reveal(BuilderModel::held);
        reveal(BuilderModel::steady);
    }
    steady_cut(t, 1, InsertionMode::AfterHead);
    held_stray_template_end(t);
    match kind {
        TokenKindModel::StartTag(tag) => {
            steady_html_in_body(t, tag);
            if in_head_content(tag.name) {
                held_head_content_in_head(t, tag);
            } else if tag.name == "noscript"@ {
                held_noscript(t, tag);
            }
        },
        _ => {},
    }
}

/// A `noscript` element in the head.
proof fn held_noscript(t: BuilderModel, tag: TagModel)
    requires
        t.steady(),
        t.insertion_mode is InHead,
        tag.name == "noscript"@,
    ensures
        t.insert_here(tag).set_mode(InsertionMode::InHeadNoscript).held(),
{
    lemma_other_names_4();
    assert(t.small() ==> can_open(t, Part::Other) && t.fits()) by {
        reveal(BuilderModel::steady);
    }
    lemma_opened(t, tag, Some(t.token_position));
    let v = t.insert_here(tag);
    let u = v.set_mode(InsertionMode::InHeadNoscript);
    reveal(BuilderModel::held);
    if u.small() {
        lemma_sturdy_document(v, u);
        assert(v.open_elements[1] == t.open_elements[1]);
    }
}

pub proof fn held_in_head_noscript(t: BuilderModel, kind: TokenKindModel)
    requires
        t.held(),
        t.insertion_mode is InHeadNoscript,
    ensures
        t.in_head_noscript(kind).0.held(),
{
    broadcast use {steady_is_held, steady_error, steady_insert_node, steady_insert_character};

    reveal(BuilderModel::in_head_noscript);
    reveal(BuilderModel::in_head_noscript_anything_else);
    assert(t.steady()) by {
        reveal(BuilderModel::held);
        reveal(BuilderModel::steady);
    }
    steady_cut(t, 2, InsertionMode::InHead);
    match kind {
        TokenKindModel::StartTag(tag) => {
            steady_html_in_body(t, tag);
            if in_head_noscript_content(tag.name) {
                held_head_content_in_head(t, tag);
            }
        },
        _ => {},
    }
}


// ---- After the `head` element ----

/// The `body` element is made.
#[verifier::rlimit(40)]
proof fn live_insert_body(t: BuilderModel, tag: TagModel, position: Option<Position>)
    requires
        t.steady(),
        t.insertion_mode is AfterHead,
        tag.name == "body"@,
    ensures
        t.insert_html_element(tag, position).set_mode(InsertionMode::InBody).steady(),
{
    reveal(BuilderModel::steady);
    lemma_part_named(tag.name);
    let d = t.document;
    let id = d.next_id();
    let u = t.insert_html_element(tag, position).set_mode(InsertionMode::InBody);
    lemma_inserted(t, tag, HTML_NAMESPACE@, position);
    if u.small() {
        let html = t.open_elements[0];
        assert(inside(d, html));
        assert(part_at(d, t.open_elements, 0) is Html);
        assert(d.kind(html) != d.kind(d.root));
        lemma_element_appended(t, tag, position);
        let e = u.document;
        assert(e.kind(html) == d.kind(html));
        assert(e.kind(t.head()) == d.kind(t.head()));
        assert(inside(d, d.root));
        assert(element_children(e, d.root) == element_children(d, d.root));
        assert(element_children(e, html) == seq![t.head(), id]);
        assert(u.open_elements[0] == html);
        assert(u.open_elements[1] == id);
        assert(part_at(e, u.open_elements, 0) is Html);
        assert(part_at(e, u.open_elements, 1) is Body);
        lemma_formatting_same(d, e, t);
        assert(u.sturdy());
    }
}

proof fn lemma_formatting_same(d: DocumentModel, e: DocumentModel, t: BuilderModel)
    requires
        formatting_fits(d, t.formatting),
        form_fits(d, t.form_element_pointer),
        forall|id: NodeId| inside(d, id) ==> #[trigger] e.kind(id) == d.kind(id),
        d.nodes.len() <= e.nodes.len(),
    ensures
        formatting_fits(e, t.formatting),
        form_fits(e, t.form_element_pointer),
{
    assert forall|i: int| 0 <= i < t.formatting.len() implies entry_fits(
        e,
        #[trigger] t.formatting[i],
    ) by {
        assert(entry_fits(d, t.formatting[i]));
        match t.formatting[i] {
            FormattingEntry::Element(node) => {
                assert(e.kind(node) == d.kind(node));
            },
            FormattingEntry::Marker => {},
        }
    }
    match t.form_element_pointer {
        Some(node) => {
            assert(e.kind(node) == d.kind(node));
        },
        None => {},
    }
}

/// The `head` element is open again.
proof fn lemma_head_pushed(t: BuilderModel)
    requires
        t.small() ==> t.sturdy() && t.open_elements.len() == 1,
    ensures
        ({
            let u = t.push_head();
            &&& u == BuilderModel { open_elements: u.open_elements, ..t }
            &&& t.small() ==> {
                &&& u.sturdy()
                &&& u.open_elements == t.open_elements.push(t.head())
                &&& can_open(u, Part::Other)
                &&& can_open(u, Part::Template)
                &&& part_at(u.document, u.open_elements, 1) is Head
                &&& mode_fits(u.document, u.open_elements, u.head(), InsertionMode::InHead)
            }
        }),
{
    if t.small() {
        let u = t.push_head();
        let d = t.document;
        assert(u.open_elements[0] == t.open_elements[0]);
        assert(u.open_elements[1] == t.head());
        assert(part_at(d, t.open_elements, 0) is Html);
        assert(inside(d, t.open_elements[0]));
        lemma_templates_push(d, t.open_elements, t.head());
        assert(part_at(d, u.open_elements, 1) is Head);
        assert(u.sturdy());
    }
}

/// The `head` element leaves the stack, from below one other element or none.
proof fn lemma_head_removed(t: BuilderModel)
    requires
        t.sturdy(),
        2 <= t.open_elements.len() <= 3,
        t.open_elements[1] == t.head(),
        t.open_elements.len() == 3 ==> part_at(t.document, t.open_elements, 2) is Other || part_at(
            t.document,
            t.open_elements,
            2,
        ) is Template,
    ensures
        ({
            let u = t.remove_head();
            &&& u == BuilderModel { open_elements: t.open_elements.remove(1), ..t }
            &&& u.sturdy()
            &&& u.open_elements[0] == t.open_elements[0]
        }),
{
    let d = t.document;
    let stack = t.open_elements;
    let u = t.remove_head();
    lemma_index_found(stack, t.head(), 0);
    assert(part_at(d, stack, 0) is Html);
    let k = index_from(stack, t.head(), 0)->0;
    assert(stack[1] == t.head());
    assert(k == 1);
    let shorter = stack.remove(1);
    assert(u.open_elements == shorter);
    assert(shorter[0] == stack[0]);
    lemma_templates_remove(d, stack, 1);
    assert(inside(d, stack[0]));
    if stack.len() == 3 {
        assert(shorter[1] == stack[2]);
        assert(inside(d, stack[2]));
        assert(inner_fits(d, stack, 2));
    }
    assert forall|i: int| 0 <= i < shorter.len() implies inside(d, #[trigger] shorter[i])
        && (tag_of(d.kind(shorter[i])) matches Some(tag) && tag.0 is Some) by {
        if i == 0 {
            assert(shorter[0] == stack[0]);
        } else {
            assert(shorter[1] == stack[2]);
        }
    }
    assert(stack_fits(d, shorter, t.head()));
    assert(u.sturdy());
}

/// What belongs into the head goes there even after it.
#[verifier::rlimit(40)]
proof fn held_late_head_content(t: BuilderModel, tag: TagModel)
    requires
        t.steady(),
        t.insertion_mode is AfterHead,
        in_head_content(tag.name),
    ensures
        t.push_head().head_content(tag).0.remove_head().held(),
{
    reveal(BuilderModel::head_content);
    lemma_head_content(tag.name);
    lemma_head_void(tag.name);
    lemma_other_names_4();
    lemma_part_named(tag.name);
    assert(t.small() ==> t.sturdy() && t.open_elements.len() == 1) by {
        reveal(BuilderModel::steady);
    }
    lemma_head_pushed(t);
    let v = t.push_head();
    reveal(BuilderModel::held);
    if in_head_void(tag.name) {
        let at = v.set_mode(InsertionMode::InHead);
        if t.small() {
            lemma_same_head(v, at);
        }
        steady_insert_closed(at, tag);
        let w = v.insert_closed(tag);
        lemma_closed_alike(v, at, tag);
        if w.small() {
            assert(at.insert_closed(tag).sturdy()) by {
                reveal(BuilderModel::steady);
            }
            lemma_same_head(at.insert_closed(tag), w);
            lemma_head_removed(w);
            assert(w.remove_head().fits());
        }
    } else if tag.name == "template"@ {
        lemma_template_opened(v, tag);
        let w = v.begin_template(tag);
        if w.small() {
            assert(w.open_elements[1] == v.open_elements[1]);
            lemma_head_removed(w);
            let u = w.remove_head();
            assert(u.open_elements[1] == w.open_elements[2]);
            assert(part_at(u.document, u.open_elements, 1) is Template);
            assert(holds_part(u.document, u.open_elements, Part::Template));
            assert(u.fits());
        }
    } else {
        lemma_opened(v, tag, Some(v.token_position));
        let w = v.insert_here(tag);
        let x = v.insert_text_here(tag);
        if x.small() {
            assert(w.open_elements[1] == v.open_elements[1]);
            lemma_same_head(w, x);
            lemma_head_removed(x);
            let u = x.remove_head();
            assert(u.open_elements[1] == x.open_elements[2]);
            assert(part_at(w.document, w.open_elements, 2) is Other);
            assert(part_at(u.document, u.open_elements, 1) is Other);
            assert(u.open_elements.drop_last().len() == 1);
            assert(u.fits());
        }
    }
}

/// Only the mode and what does not count here differ.
proof fn lemma_same_head(t: BuilderModel, u: BuilderModel)
    requires
        t.sturdy(),
        u.document == t.document,
        u.open_elements == t.open_elements,
        u.formatting == t.formatting,
        u.form_element_pointer == t.form_element_pointer,
        u.head_element_pointer == t.head_element_pointer,
        u.template_insertion_modes == t.template_insertion_modes,
    ensures
        u.sturdy(),
{
}

/// What is inserted does not depend on the mode.
proof fn lemma_closed_alike(t: BuilderModel, u: BuilderModel, tag: TagModel)
    requires
        u == t.set_mode(u.insertion_mode),
    ensures
        u.insert_closed(tag) == t.insert_closed(tag).set_mode(u.insertion_mode),
        t.insert_closed(tag).insertion_mode == t.insertion_mode,
{
    reveal(BuilderModel::insert_closed);
    reveal(BuilderModel::insert_foreign_element);
    reveal(BuilderModel::create_element);
    reveal(BuilderModel::location);
}

pub proof fn held_after_head(t: BuilderModel, kind: TokenKindModel)
    requires
        t.held(),
        t.insertion_mode is AfterHead,
    ensures
        t.after_head(kind).0.held(),
{
    broadcast use {steady_is_held, steady_error, steady_insert_node, steady_insert_character};

    reveal(BuilderModel::after_head);
    reveal(BuilderModel::after_head_anything_else);
    assert(t.steady()) by {
        reveal(BuilderModel::held);
        reveal(BuilderModel::steady);
    }
    live_insert_body(t, plain_tag("body"@), None);
    held_stray_template_end(t);
    match kind {
        TokenKindModel::StartTag(tag) => {
            steady_html_in_body(t, tag);
            if tag.name == "body"@ {
                live_insert_body(t, tag, Some(t.token_position));
            } else if tag.name == "frameset"@ {
                assert(t.small() ==> headed(t, t.head())) by {
                    reveal(BuilderModel::steady);
                    if t.small() {
                        assert(part_at(t.document, t.open_elements, 0) is Html);
                        assert(inside(t.document, t.open_elements[0]));
                    }
                }
                lemma_frameset_begins(t, t.head(), tag);
            } else if in_head_content(tag.name) {
                held_late_head_content(t, tag);
            }
        },
        _ => {},
    }
}

// ---- Text ----

pub proof fn held_text(t: BuilderModel, kind: TokenKindModel)
    requires
        t.held(),
        t.insertion_mode is Text,
    ensures
        t.text(kind).0.held(),
{
    broadcast use {
        steady_is_held,
        steady_error,
        steady_insert_character,
        framing_is_held,
        framing_error,
        framing_insert_character,
    };

    reveal(BuilderModel::text);
    assert(t.steady() || t.framing()) by {
        reveal(BuilderModel::held);
        reveal(BuilderModel::steady);
        reveal(BuilderModel::framing);
    }
    let u = t.error(ParseErrorKind::EofInTextMode);
    if t.steady() {
        held_text_end(t);
        held_text_end(u);
    } else {
        held_framed_text_end(t);
        held_framed_text_end(u);
    }
}

/// The element with text for contents is closed.
proof fn held_text_end(t: BuilderModel)
    requires
        t.steady(),
        t.insertion_mode is Text,
    ensures
        t.pop().resume_mode().held(),
{
    reveal(BuilderModel::held);
    reveal(BuilderModel::steady);
    if t.open_elements.len() > 0 {
        lemma_frame_pop(t, t.open_elements[0]);
    }
    let v = t.pop();
    let u = v.resume_mode();
    if v.small() {
        let n = t.open_elements.len() - 1;
        lemma_pop_is_cut(t);
        assert(bodied(t.document, t.open_elements) ==> n >= 2);
        lemma_cut(t, n);
        lemma_same_head(v, u);
        assert(v.open_elements == t.open_elements.drop_last());
        assert forall|i: int| 0 <= i < v.open_elements.len() implies tag_of(
            v.document.kind(#[trigger] v.open_elements[i]),
        ) == tag_of(t.document.kind(v.open_elements[i])) by {
            assert(v.open_elements[i] == t.open_elements[i]);
        }
        lemma_mode_same(
            t.document,
            v.document,
            v.open_elements,
            t.head(),
            t.original_insertion_mode->0,
        );
    }
}

proof fn held_framed_text_end(t: BuilderModel)
    requires
        t.framing(),
        t.insertion_mode is Text,
    ensures
        t.pop().resume_mode().held(),
{
    framing_pop(t);
    reveal(BuilderModel::framing);
    reveal(BuilderModel::held);
    if t.open_elements.len() > 0 {
        lemma_frame_pop(t, t.open_elements[0]);
    }
}

// ---- Framesets ----

proof fn framing_html_in_body(t: BuilderModel, tag: TagModel)
    requires
        t.framing(),
    ensures
        t.html_in_body(tag).0.framing(),
{
    broadcast use {framing_error, framing_merge_attributes};

    reveal(BuilderModel::html_in_body);
}

/// Another mode of documents with a `frameset` element.
proof fn framing_set_mode(t: BuilderModel, mode: InsertionMode)
    requires
        t.framing(),
        frameset_mode(mode),
    ensures
        t.set_mode(mode).framing(),
{
    reveal(BuilderModel::framing);
}

/// A `noframes` element.
proof fn held_noframes(t: BuilderModel, tag: TagModel)
    requires
        t.framing(),
        frameset_mode(t.insertion_mode),
        tag.name == "noframes"@,
    ensures
        t.head_content(tag).0.held(),
{
    broadcast use {
        framing_is_held,
        framing_insert_html_element,
        framing_pop,
        framing_acknowledge_self_closing,
    };

    reveal(BuilderModel::head_content);
    reveal(BuilderModel::insert_closed);
    lemma_other_names_4();
    let v = t.insert_here(tag);
    assert(v.framing());
    lemma_inserted(t, tag, HTML_NAMESPACE@, Some(t.token_position));
    assert(t.insert_text_here(tag).framing()) by {
        reveal(BuilderModel::framing);
    }
}

pub proof fn held_in_frameset(t: BuilderModel, kind: TokenKindModel)
    requires
        t.held(),
        t.insertion_mode is InFrameset,
    ensures
        t.in_frameset(kind).0.held(),
{
    broadcast use {
        framing_acknowledge_self_closing,
        framing_error,
        framing_insert_character,
        framing_insert_html_element,
        framing_insert_node,
        framing_is_held,
        framing_pop,
    };

    reveal(BuilderModel::in_frameset);
    reveal(BuilderModel::insert_closed);
    assert(t.framing()) by {
        reveal(BuilderModel::held);
        reveal(BuilderModel::framing);
    }
    lemma_part_named("frameset"@);
    lemma_other_names_5();
    framing_set_mode(t.pop(), InsertionMode::AfterFrameset);
    match kind {
        TokenKindModel::StartTag(tag) => {
            framing_html_in_body(t, tag);
            if tag.name == "noframes"@ {
                held_noframes(t, tag);
            }
        },
        _ => {},
    }
}

pub proof fn held_after_frameset(t: BuilderModel, kind: TokenKindModel)
    requires
        t.held(),
        t.insertion_mode is AfterFrameset,
    ensures
        t.after_frameset(kind).0.held(),
{
    broadcast use {framing_error, framing_insert_character, framing_insert_node, framing_is_held};

    reveal(BuilderModel::after_frameset);
    assert(t.framing()) by {
        reveal(BuilderModel::held);
        reveal(BuilderModel::framing);
    }
    framing_set_mode(t, InsertionMode::AfterAfterFrameset);
    match kind {
        TokenKindModel::StartTag(tag) => {
            framing_html_in_body(t, tag);
            if tag.name == "noframes"@ {
                held_noframes(t, tag);
            }
        },
        _ => {},
    }
}

pub proof fn held_after_after_frameset(t: BuilderModel, kind: TokenKindModel)
    requires
        t.held(),
        t.insertion_mode is AfterAfterFrameset,
    ensures
        t.after_after_frameset(kind).0.held(),
{
    broadcast use {
        framing_append_to_document,
        framing_error,
        framing_insert_character,
        framing_is_held,
        framing_reconstruct_formatting,
        framing_set_frameset_ok,
    };

    reveal(BuilderModel::after_after_frameset);
    reveal(BuilderModel::in_body_char);
    assert(t.framing()) by {
        reveal(BuilderModel::held);
        reveal(BuilderModel::framing);
    }
    match kind {
        TokenKindModel::StartTag(tag) => {
            framing_html_in_body(t, tag);
            if tag.name == "noframes"@ {
                held_noframes(t, tag);
            }
        },
        _ => {},
    }
}

} // verus!
