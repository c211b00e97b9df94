//! The rules for the contents of the `body` element, of tables and of templates keep the
//! structure of the document.
use vstd::prelude::*;

use crate::token::{plain_tag, ParseErrorKind, TagModel, TokenKindModel};
use crate::tree_builder::elements::{html_name, Group, Scope};
use crate::tree_builder::model::{closed_from, BuilderModel, InsertionMode};
use crate::tree_builder::names::{
    in_closable, in_formatting, in_head_content, in_headings, in_in_table_head_content, in_marked,
    HTML_NAMESPACE, MATHML_NAMESPACE, SVG_NAMESPACE,
};
use crate::tree_builder::parts::{
    lemma_blocks, lemma_closable, lemma_closable_not_implied, lemma_formatting,
    lemma_formatting_all, lemma_head_content, lemma_head_void, lemma_headings, lemma_marked,
    lemma_marked_not_implied, lemma_misplaced, lemma_not_implied, lemma_other_names_1,
    lemma_other_names_2, lemma_other_names_3, lemma_other_names_4, lemma_part_groups,
    lemma_part_named, lemma_silent_void, lemma_void, part_named, part_of,
};
use crate::tree_builder::structure::{
    bodied, complete, inner_fits, lemma_bodied_is_complete, lemma_templates_counted, part_at,
    rooted, structural,
};
use crate::tree_builder::structure_adoption::{
    live_adoption_agency, live_any_other_end_tag, live_close_active_anchor, live_remove_form,
};
use crate::tree_builder::structure_closing::{
    held_begin_template, held_end_template, held_insert_text_here, held_set_foster_parenting,
    held_set_frameset_ok, held_set_skip_next_line_feed, live_close_cell, live_close_heading,
    live_close_list_item, live_implied_and_pop, live_is_held, live_pop, live_set_mode,
};
use crate::tree_builder::structure_framed::held_frameset_in_body;
use crate::tree_builder::structure_modes::{lemma_enter, lemma_template_left};
use crate::tree_builder::structure_steps::{
    lemma_error_reaches, lemma_in_scope_reaches, lemma_inserted, lemma_inserted_kind,
    lemma_last_named_is_last, live_acknowledge_self_closing, live_append_to_document,
    live_append_to_html, live_at, live_char_here, live_clear_to_marker, live_close_element,
    live_close_p, live_error, live_error_at, live_forget_form, live_forget_held_back,
    live_generate_implied_end_tags, live_hold_back, live_insert_active, live_insert_closed,
    live_insert_foreign_here, live_insert_here, live_insert_html_element, live_insert_node,
    live_insert_void, live_merge_attributes, live_pop_until, live_push_formatting, live_push_marker,
    live_reconstruct_formatting, live_remember_form, live_set_foster_parenting,
    live_set_frameset_ok, live_set_skip_next_line_feed,
};

verus! {

broadcast use {
    lemma_error_reaches,
    lemma_in_scope_reaches,
    held_begin_template,
    held_end_template,
    held_insert_text_here,
    held_set_foster_parenting,
    held_set_frameset_ok,
    held_set_skip_next_line_feed,
    live_acknowledge_self_closing,
    live_adoption_agency,
    live_any_other_end_tag,
    live_append_to_document,
    live_append_to_html,
    live_at,
    live_char_here,
    live_clear_to_marker,
    live_close_active_anchor,
    live_close_cell,
    live_close_element,
    live_close_list_item,
    live_close_p,
    live_error,
    live_error_at,
    live_forget_form,
    live_forget_held_back,
    live_generate_implied_end_tags,
    live_hold_back,
    live_insert_active,
    live_insert_closed,
    live_insert_foreign_here,
    live_insert_here,
    live_insert_html_element,
    live_insert_node,
    live_insert_void,
    live_is_held,
    live_merge_attributes,
    live_pop,
    live_pop_until,
    live_push_formatting,
    live_push_marker,
    live_reconstruct_formatting,
    live_remember_form,
    live_remove_form,
    live_set_foster_parenting,
    live_set_frameset_ok,
    live_set_skip_next_line_feed,
};

// ---- The insertion mode through some steps ----

proof fn lemma_reopen_mode(t: BuilderModel, i: int, n: int)
    ensures
        t.reopen_from(i, n).insertion_mode == t.insertion_mode,
    decreases n - i,
{
    if i < n {
        reveal(BuilderModel::insert_foreign_element);
        reveal(BuilderModel::create_element);
        lemma_reopen_mode(t.reopen(i), i + 1, n);
    }
}

proof fn lemma_reconstruct_mode(t: BuilderModel)
    ensures
        t.reconstruct_formatting().insertion_mode == t.insertion_mode,
{
    reveal(BuilderModel::reconstruct_formatting);
    lemma_reopen_mode(
        t,
        closed_from(t.formatting, t.open_elements),
        t.formatting.len() as int,
    );
}

proof fn lemma_pop_to_mode(t: BuilderModel, n: int)
    ensures
        t.pop_to(n).insertion_mode == t.insertion_mode,
    decreases t.open_elements.len(),
{
    reveal(BuilderModel::pop_to);
    if t.open_elements.len() > 0 && t.open_elements.len() > n {
        lemma_pop_to_mode(t.pop(), n);
    }
}

proof fn lemma_close_p_mode(t: BuilderModel)
    ensures
        t.close_p().insertion_mode == t.insertion_mode,
{
    reveal(BuilderModel::close_p);
    reveal(BuilderModel::close_element);
    assert forall|u: BuilderModel, n: int| (#[trigger] u.pop_to(n)).insertion_mode
        == u.insertion_mode by {
        lemma_pop_to_mode(u, n);
    }
}

pub proof fn lemma_in_body_char_mode(t: BuilderModel, c: char)
    ensures
        t.in_body_char(c).0.insertion_mode == t.insertion_mode,
        t.char_here(c).insertion_mode == t.insertion_mode,
{
    reveal(BuilderModel::in_body_char);
    reveal(BuilderModel::insert_character);
    lemma_reconstruct_mode(t);
}

// ---- The body ----

pub broadcast proof fn live_in_body_char(t: BuilderModel, c: char)
    requires
        t.live(),
    ensures
        #[trigger] t.in_body_char(c).0.live(),
{
    reveal(BuilderModel::in_body_char);
}

pub broadcast proof fn live_html_in_body(t: BuilderModel, tag: TagModel)
    requires
        t.live(),
    ensures
        #[trigger] t.html_in_body(tag).0.live(),
{
    reveal(BuilderModel::html_in_body);
}

pub broadcast proof fn held_head_content(t: BuilderModel, tag: TagModel)
    requires
        t.live(),
        !(t.insertion_mode is InTableText),
        in_head_content(tag.name) || in_in_table_head_content(tag.name),
    ensures
        #[trigger] t.head_content(tag).0.held(),
{
    reveal(BuilderModel::head_content);
    lemma_head_content(tag.name);
    lemma_head_void(tag.name);
    lemma_other_names_4();
}

pub broadcast proof fn held_in_template_eof(t: BuilderModel)
    requires
        t.live(),
    ensures
        #[trigger] t.in_template_eof().0.held(),
{
    reveal(BuilderModel::in_template_eof);
    let u = t.error(ParseErrorKind::EofWithUnclosedElements);
    if u.has_template() {
        assert(u.small() ==> u.sturdy() && rooted(u.document, u.open_elements)) by {
            reveal(BuilderModel::live);
        }
        lemma_template_left(u);
    }
}

pub broadcast proof fn held_in_body_eof(t: BuilderModel)
    requires
        t.live(),
    ensures
        #[trigger] t.in_body_eof().0.held(),
{
    broadcast use held_in_template_eof;

    reveal(BuilderModel::in_body_eof);
}

/// Where no template is open, the `body` element is.
proof fn lemma_complete_without_template(t: BuilderModel)
    requires
        t.live(),
        t.small(),
        !t.has_template() || t.template_insertion_modes.len() == 0,
    ensures
        complete(t.document),
{
    reveal(BuilderModel::live);
    let d = t.document;
    let stack = t.open_elements;
    if !bodied(d, stack) {
        let k = if part_at(d, stack, 1) is Template {
            1int
        } else {
            2int
        };
        assert(part_at(d, stack, k) is Template);
        match html_name(d.kind(stack[k])) {
            Some(name) => {
                lemma_part_named(name);
                lemma_last_named_is_last(d, stack, "template"@, k);
            },
            None => {},
        }
        lemma_templates_counted(d, stack, k);
    }
    lemma_bodied_is_complete(t);
}

/// At the end of the source the document is complete.
pub proof fn lemma_in_body_eof_complete(t: BuilderModel)
    requires
        t.live(),
        t.in_body_eof().1 is Consumed,
    ensures
        t.in_body_eof().0.small() ==> complete(t.in_body_eof().0.document),
{
    reveal(BuilderModel::in_body_eof);
    reveal(BuilderModel::in_template_eof);
    if t.small() && (!t.has_template() || t.template_insertion_modes.len() == 0) {
        lemma_complete_without_template(t);
    }
}

/// The same, in a template.
pub proof fn lemma_in_template_eof_complete(t: BuilderModel)
    requires
        t.live(),
        t.in_template_eof().1 is Consumed,
    ensures
        t.in_template_eof().0.small() ==> complete(t.in_template_eof().0.document),
{
    reveal(BuilderModel::in_template_eof);
    if t.small() && !t.has_template() {
        lemma_complete_without_template(t);
    }
}

pub broadcast proof fn held_in_body_start(t: BuilderModel, tag: TagModel)
    requires
        t.live(),
        !(t.insertion_mode is InTableText),
    ensures
        #[trigger] t.in_body_start(tag).0.held(),
{
    broadcast use {live_html_in_body, held_head_content, held_start_of_block};

    reveal(BuilderModel::in_body_start);
    lemma_head_content(tag.name);
    lemma_part_named(tag.name);
    if tag.name == "frameset"@ {
        let u = t.error(ParseErrorKind::StrayStartTag);
        if u.second_is_body() {
            held_frameset_in_body(u, tag);
        }
    }
}

/// No start tag of an outermost element.
pub open spec fn inner_name(name: Seq<char>) -> bool {
    let part = part_named(name);
    !(part is Html || part is Body || part is Frameset || part is Template)
}

pub broadcast proof fn held_start_of_block(t: BuilderModel, tag: TagModel)
    requires
        t.live(),
        !(t.insertion_mode is InTableText),
        inner_name(tag.name),
    ensures
        #[trigger] t.start_of_block(tag).0.held(),
{
    broadcast use held_start_of_formatting;

    reveal(BuilderModel::start_of_block);
    lemma_blocks(tag.name);
    lemma_headings(tag.name);
    lemma_other_names_1();
    lemma_part_groups(t.close_p().current_kind());
}

pub broadcast proof fn held_start_of_formatting(t: BuilderModel, tag: TagModel)
    requires
        t.live(),
        !(t.insertion_mode is InTableText),
        inner_name(tag.name),
    ensures
        #[trigger] t.start_of_formatting(tag).0.held(),
{
    broadcast use held_start_of_void;

    reveal(BuilderModel::start_of_formatting);
    lemma_other_names_1();
    lemma_other_names_2();
    lemma_formatting(tag.name);
    lemma_marked(tag.name);
    lemma_not_implied();
    lemma_part_named(tag.name);
    if t.in_specific_scope("button"@, Scope::Default) {
        live_implied_and_pop(t, "button"@);
    }
    if tag.name == "button"@ || tag.name == "a"@ {
        assert(t.start_of_formatting(tag).0.held());
    } else if in_formatting(tag.name) || tag.name == "nobr"@ {
        assert(t.start_of_formatting(tag).0.held());
    } else if tag.name != "table"@ {
        assert(t.start_of_formatting(tag).0.held());
    }
    if tag.name == "table"@ {
        let u = if !(t.quirks_mode is Quirks) {
            t.close_p()
        } else {
            t
        };
        assert(u.live());
        assert(u.small() ==> u.sturdy() && rooted(u.document, u.open_elements)) by {
            reveal(BuilderModel::live);
        }
        lemma_enter(u, tag, Some(u.token_position), InsertionMode::InTable);
        let v = u.insert_here(tag).set_mode(InsertionMode::InTable);
        assert(v.live());
        assert(v.set_frameset_ok(false).live());
        assert(v.set_frameset_ok(false) == u.insert_here(tag).set_frameset_ok(false).set_mode(
            InsertionMode::InTable,
        ));
    }
}

pub broadcast proof fn held_start_of_void(t: BuilderModel, tag: TagModel)
    requires
        t.live(),
        !(t.insertion_mode is InTableText),
        inner_name(tag.name),
        !(part_named(tag.name) is Table),
    ensures
        #[trigger] t.start_of_void(tag).0.held(),
{
    broadcast use held_start_of_control;

    reveal(BuilderModel::start_of_void);
    lemma_void(tag.name);
    lemma_silent_void(tag.name);
    lemma_other_names_2();
    lemma_other_names_3();
    lemma_close_p_mode(t);
    lemma_reconstruct_mode(t.close_p());
}

/// The other namespaces are not that of HTML.
proof fn lemma_foreign_namespaces()
    ensures
        MATHML_NAMESPACE@ != HTML_NAMESPACE@,
        SVG_NAMESPACE@ != HTML_NAMESPACE@,
{
    reveal_strlit("http://www.w3.org/1999/xhtml");
    reveal_strlit("http://www.w3.org/2000/svg");
    reveal_strlit("http://www.w3.org/1998/Math/MathML");
    assert(HTML_NAMESPACE@.len() == 28);
    assert(SVG_NAMESPACE@.len() == 26);
    assert(MATHML_NAMESPACE@.len() == 34);
}

/// A foreign element is opened, and closed again where its tag is self-closing.
pub proof fn lemma_foreign_opened(t: BuilderModel, tag: TagModel, namespace: Seq<char>)
    requires
        t.live(),
        namespace != HTML_NAMESPACE@,
    ensures
        t.insert_foreign_here(tag, namespace).acknowledge_self_closing().live(),
        t.insert_foreign_here(tag, namespace).acknowledge_self_closing().pop().live(),
{
    live_insert_foreign_here(t, tag, namespace);
    let u = t.insert_foreign_here(tag, namespace);
    let v = u.acknowledge_self_closing();
    if v.small() {
        let n = u.open_elements.len() - 1;
        assert(u.open_elements.last() == u.open_elements[n]);
        assert(part_of(v.current_kind()) is Other);
    }
    live_pop(v);
}

pub broadcast proof fn held_start_of_control(t: BuilderModel, tag: TagModel)
    requires
        t.live(),
        !(t.insertion_mode is InTableText),
        inner_name(tag.name),
        !(part_named(tag.name) is Table),
    ensures
        #[trigger] t.start_of_control(tag).0.held(),
{
    reveal(BuilderModel::start_of_control);
    lemma_other_names_3();
    lemma_part_named(tag.name);
    lemma_misplaced();
    lemma_foreign_namespaces();
    let u = t.reconstruct_formatting();
    if tag.name == "math"@ {
        lemma_foreign_opened(u, tag, MATHML_NAMESPACE@);
    } else if tag.name == "svg"@ {
        lemma_foreign_opened(u, tag, SVG_NAMESPACE@);
    }
}

/// The end tag of a template or of an element that plays no part, or in a mode that
/// needs nothing of tables.
pub open spec fn may_end(t: BuilderModel, name: Seq<char>) -> bool {
    !structural(part_named(name)) || part_named(name) is Template || t.insertion_mode is InBody
        || t.insertion_mode is InCaption
}

pub broadcast proof fn held_in_body_end(t: BuilderModel, tag: TagModel)
    requires
        t.live(),
        may_end(t, tag.name),
    ensures
        #[trigger] t.in_body_end(tag).0.held(),
{
    broadcast use {live_end_of_form, live_end_of_other};

    reveal(BuilderModel::in_body_end);
    lemma_part_named(tag.name);
    lemma_closable(tag.name);
    if tag.name == "body"@ || tag.name == "html"@ {
        if t.in_specific_scope("body"@, Scope::Default) {
            if t.small() {
                lemma_part_named("body"@);
                reveal(BuilderModel::live);
                let i = choose|i: int| #[trigger] t.reaches_at("body"@, i);
                assert(part_at(t.document, t.open_elements, i) is Body);
                if i >= 2 {
                    assert(inner_fits(t.document, t.open_elements, i));
                }
                assert(i == 1);
            }
            live_set_mode(t, InsertionMode::AfterBody);
        }
    } else if in_closable(tag.name) {
        lemma_closable_not_implied(tag.name);
    }
}

pub broadcast proof fn live_end_of_form(t: BuilderModel)
    requires
        t.live(),
    ensures
        #[trigger] t.end_of_form().0.live(),
{
    reveal(BuilderModel::end_of_form);
    lemma_other_names_1();
    lemma_not_implied();
}

pub broadcast proof fn live_end_of_other(t: BuilderModel, tag: TagModel)
    requires
        t.live(),
        may_end(t, tag.name),
        !(part_named(tag.name) is Html),
        !(part_named(tag.name) is Body),
        !(part_named(tag.name) is Template),
    ensures
        #[trigger] t.end_of_other(tag).0.live(),
{
    reveal(BuilderModel::end_of_other);
    lemma_other_names_1();
    lemma_other_names_4();
    lemma_headings(tag.name);
    lemma_formatting_all(tag.name);
    lemma_marked(tag.name);
    if tag.name == "p"@ && !t.in_specific_scope("p"@, Scope::Button) {
        let u = t.error(ParseErrorKind::EndTagPWithoutPInButtonScope);
        let v = u.insert_html_element(plain_tag("p"@), None);
        if v.small() {
            let n = v.open_elements.len() - 1;
            live_insert_html_element(u, plain_tag("p"@), None);
            lemma_inserted(
                u,
                plain_tag("p"@),
                HTML_NAMESPACE@,
                None,
            );
            lemma_inserted_kind(
                u,
                plain_tag("p"@),
                HTML_NAMESPACE@,
                None,
            );
            assert(v.reaches_at("p"@, n));
        }
    }
    if in_headings(tag.name) && t.group_in_specific_scope(
        Group::Headings,
        Scope::Default,
    ) {
        let u = t.generate_implied_end_tags(None);
        live_close_heading(
            t,
            ParseErrorKind::ImpliedEndTagWithUnclosedElements,
            !u.current_is(tag.name),
        );
    }
    if in_marked(tag.name) {
        lemma_marked_not_implied(tag.name);
    }
}

pub broadcast proof fn held_in_body(t: BuilderModel, kind: TokenKindModel)
    requires
        t.live(),
        !(t.insertion_mode is InTableText),
        kind matches TokenKindModel::EndTag(tag) ==> may_end(t, tag.name),
    ensures
        #[trigger] t.in_body(kind).0.held(),
{
    broadcast use {live_in_body_char, held_in_body_start, held_in_body_end, held_in_body_eof};

    reveal(BuilderModel::in_body);
}

} // verus!
