//! The rules of the insertion modes put every node where its token allows it.
use vstd::prelude::*;

use crate::document::model::{DocumentModel, ElementAttribute, KindModel, NodeId};
use crate::token::{AttributeModel, ParseErrorKind, Position, TagModel, TokenKindModel};
use crate::tree_builder::builder::new_builder;
use crate::tree_builder::model::{attributes_for, element_for, BuilderModel, TokenOutcome};
use crate::tree_builder::names::{HTML_NAMESPACE, SVG_TAG_NAMES};
use crate::tree_builder::origins::{
    alike, copied, extends, implied_name, lemma_text_as_it_is, node_traced, sort_of,
    traces_acknowledge_self_closing, traces_adoption_agency, traces_any_other_end_tag, traces_at,
    traces_char_here, traces_clear_back_to, traces_clear_to_marker, traces_close_active_anchor,
    traces_close_element, traces_close_list_item, traces_comment_here, traces_comment_to_document,
    traces_comment_to_html, traces_detach_second, traces_error, traces_error_at, traces_forget_form,
    traces_forget_held_back, traces_generate_implied_end_tags,
    traces_generate_implied_end_tags_thoroughly, traces_hold_back, traces_insert_doctype,
    traces_insert_foreign_here, traces_insert_here, traces_insert_html_element,
    traces_insert_root_element, traces_insert_text_here, traces_instruction_here,
    traces_instruction_to_document, traces_instruction_to_html, traces_merge_attributes, traces_pop,
    traces_pop_template_mode, traces_pop_to, traces_pop_until, traces_pop_until_one_of,
    traces_push_formatting, traces_push_head, traces_push_marker, traces_push_template_mode,
    traces_reconstruct_formatting, traces_remember_form, traces_remember_head, traces_remove_form,
    traces_remove_head, traces_reset_mode, traces_resume_mode, traces_set_foster_parenting,
    traces_set_frameset_ok, traces_set_mode, traces_set_quirks_mode, traces_set_skip_next_line_feed,
    traces_suspend_mode, written, Origin, Sort,
};
use crate::tree_builder::placement::ids_below;
use crate::tree_builder::placement_rules::lemma_first_visible;
use crate::tree_builder::progress::{phase, rank};
use crate::tree_builder::spelling::{
    attribute_alike, lemma_foreign_attributes, lemma_svg_tag, listed, spellings,
};
use crate::tree_builder::steps::first_visible;

verus! {

pub broadcast proof fn traces_close_p(
    t: BuilderModel,
    origin: Origin,
    markup: bool,
)
    requires
        t.traced(origin, markup),
    ensures
        #[trigger] t.close_p().traced(origin, markup),
{
    broadcast use traces_close_element;

    reveal(BuilderModel::close_p);
}

pub broadcast proof fn traces_insert_void(
    t: BuilderModel,
    tag: TagModel,
    origin: Origin,
    markup: bool,
)
    requires
        t.traced(origin, markup),
        markup,
        origin.makes(tag),
    ensures
        #[trigger] t.insert_void(tag).traced(origin, markup),
{
    broadcast use {
        traces_reconstruct_formatting,
        traces_insert_here,
        traces_pop,
        traces_acknowledge_self_closing,
        traces_set_frameset_ok,
    };

    reveal(BuilderModel::insert_void);
}

pub broadcast proof fn traces_insert_active(
    t: BuilderModel,
    tag: TagModel,
    origin: Origin,
    markup: bool,
)
    requires
        t.traced(origin, markup),
        markup,
        origin.makes(tag),
    ensures
        #[trigger] t.insert_active(tag).traced(origin, markup),
{
    broadcast use {traces_reconstruct_formatting, traces_insert_here};

    reveal(BuilderModel::insert_active);
}

pub broadcast proof fn traces_insert_closed(
    t: BuilderModel,
    tag: TagModel,
    origin: Origin,
    markup: bool,
)
    requires
        t.traced(origin, markup),
        markup,
        origin.makes(tag),
    ensures
        #[trigger] t.insert_closed(tag).traced(origin, markup),
{
    broadcast use {
        traces_insert_here,
        traces_pop,
        traces_acknowledge_self_closing,
    };

    reveal(BuilderModel::insert_closed);
}

pub broadcast proof fn traces_close_cell(
    t: BuilderModel,
    origin: Origin,
    markup: bool,
)
    requires
        t.traced(origin, markup),
    ensures
        #[trigger] t.close_cell().traced(origin, markup),
{
    broadcast use {
        traces_generate_implied_end_tags,
        traces_error,
        traces_pop_until_one_of,
        traces_clear_to_marker,
        traces_set_mode,
    };

    reveal(BuilderModel::close_cell);
}

pub broadcast proof fn traces_close_caption(
    t: BuilderModel,
    origin: Origin,
    markup: bool,
)
    requires
        t.traced(origin, markup),
    ensures
        #[trigger] t.close_caption().traced(origin, markup),
{
    broadcast use {traces_close_element, traces_clear_to_marker, traces_set_mode};

    reveal(BuilderModel::close_caption);
}

pub broadcast proof fn traces_begin_template(
    t: BuilderModel,
    tag: TagModel,
    origin: Origin,
    markup: bool,
)
    requires
        t.traced(origin, markup),
        markup,
        origin.makes(tag),
    ensures
        #[trigger] t.begin_template(tag).traced(origin, markup),
{
    broadcast use {
        traces_insert_here,
        traces_push_marker,
        traces_set_frameset_ok,
        traces_set_mode,
        traces_push_template_mode,
    };

    reveal(BuilderModel::begin_template);
}

pub broadcast proof fn traces_leave_template(
    t: BuilderModel,
    origin: Origin,
    markup: bool,
)
    requires
        t.traced(origin, markup),
    ensures
        #[trigger] t.leave_template().traced(origin, markup),
{
    broadcast use {
        traces_pop_until,
        traces_clear_to_marker,
        traces_pop_template_mode,
        traces_reset_mode,
    };

    reveal(BuilderModel::leave_template);
}

pub broadcast proof fn traces_end_template(
    t: BuilderModel,
    origin: Origin,
    markup: bool,
)
    requires
        t.traced(origin, markup),
    ensures
        #[trigger] t.end_template().traced(origin, markup),
{
    broadcast use {
        traces_error,
        traces_generate_implied_end_tags_thoroughly,
        traces_leave_template,
    };

    reveal(BuilderModel::end_template);
}

pub broadcast proof fn traces_html_in_body(
    t: BuilderModel,
    tag: TagModel,
    origin: Origin,
    markup: bool,
)
    requires
        t.traced(origin, markup),
        markup,
        origin.kind == TokenKindModel::StartTag(tag),
        tag.name == "html"@,
    ensures
        #[trigger] t.html_in_body(tag).0.traced(origin, markup),
{
    broadcast use {traces_error, traces_merge_attributes};

    reveal(BuilderModel::html_in_body);
}

pub broadcast proof fn traces_initial(
    t: BuilderModel,
    kind: TokenKindModel,
    origin: Origin,
    markup: bool,
)
    requires
        t.traced(origin, markup),
        kind.is_markup() ==> markup,
        origin.kind == kind,
    ensures
        #[trigger] t.initial(kind).0.traced(origin, markup),
{
    broadcast use {
        traces_initial_anything_else,
        traces_comment_to_document,
        traces_instruction_to_document,
        traces_insert_doctype,
        traces_set_quirks_mode,
        traces_set_mode,
    };

    reveal(BuilderModel::initial);
}

pub broadcast proof fn traces_initial_anything_else(
    t: BuilderModel,
    origin: Origin,
    markup: bool,
)
    requires
        t.traced(origin, markup),
    ensures
        #[trigger] t.initial_anything_else().0.traced(origin, markup),
{
    broadcast use {traces_set_quirks_mode, traces_set_mode};

    reveal(BuilderModel::initial_anything_else);
}

pub broadcast proof fn traces_before_html(
    t: BuilderModel,
    kind: TokenKindModel,
    origin: Origin,
    markup: bool,
)
    requires
        t.traced(origin, markup),
        kind.is_markup() ==> markup,
        origin.kind == kind,
    ensures
        #[trigger] t.before_html(kind).0.traced(origin, markup),
{
    broadcast use {
        traces_before_html_anything_else,
        traces_comment_to_document,
        traces_instruction_to_document,
        traces_error,
        traces_insert_root_element,
        traces_set_mode,
    };

    reveal(BuilderModel::traced);
    reveal(BuilderModel::before_html);
}

pub broadcast proof fn traces_before_html_anything_else(
    t: BuilderModel,
    origin: Origin,
    markup: bool,
)
    requires
        t.traced(origin, markup),
    ensures
        #[trigger] t.before_html_anything_else().0.traced(origin, markup),
{
    broadcast use {traces_insert_root_element, traces_set_mode};

    reveal(BuilderModel::before_html_anything_else);
}

pub broadcast proof fn traces_before_head(
    t: BuilderModel,
    kind: TokenKindModel,
    origin: Origin,
    markup: bool,
)
    requires
        t.traced(origin, markup),
        kind.is_markup() ==> markup,
        origin.kind == kind,
    ensures
        #[trigger] t.before_head(kind).0.traced(origin, markup),
{
    broadcast use {
        traces_before_head_anything_else,
        traces_comment_here,
        traces_instruction_here,
        traces_error,
        traces_html_in_body,
        traces_insert_here,
        traces_remember_head,
        traces_set_mode,
    };

    reveal(BuilderModel::before_head);
}

pub broadcast proof fn traces_before_head_anything_else(
    t: BuilderModel,
    origin: Origin,
    markup: bool,
)
    requires
        t.traced(origin, markup),
    ensures
        #[trigger] t.before_head_anything_else().0.traced(origin, markup),
{
    broadcast use {
        traces_insert_html_element,
        traces_remember_head,
        traces_set_mode,
    };

    reveal(BuilderModel::before_head_anything_else);
}

pub broadcast proof fn traces_in_head(
    t: BuilderModel,
    kind: TokenKindModel,
    origin: Origin,
    markup: bool,
)
    requires
        t.traced(origin, markup),
        kind.is_markup() ==> markup,
        origin.kind == kind,
    ensures
        #[trigger] t.in_head(kind).0.traced(origin, markup),
{
    broadcast use {
        traces_char_here,
        traces_in_head_anything_else,
        traces_comment_here,
        traces_instruction_here,
        traces_error,
        traces_in_head_start,
        traces_in_head_end,
    };

    reveal(BuilderModel::in_head);
}

pub broadcast proof fn traces_in_head_start(
    t: BuilderModel,
    tag: TagModel,
    origin: Origin,
    markup: bool,
)
    requires
        t.traced(origin, markup),
        markup,
        origin.kind == TokenKindModel::StartTag(tag),
    ensures
        #[trigger] t.in_head_start(tag).0.traced(origin, markup),
{
    broadcast use {
        traces_html_in_body,
        traces_head_content,
        traces_insert_here,
        traces_set_mode,
        traces_error,
        traces_in_head_anything_else,
    };

    reveal(BuilderModel::in_head_start);
}

pub broadcast proof fn traces_head_content(
    t: BuilderModel,
    tag: TagModel,
    origin: Origin,
    markup: bool,
)
    requires
        t.traced(origin, markup),
        markup,
        origin.kind == TokenKindModel::StartTag(tag),
    ensures
        #[trigger] t.head_content(tag).0.traced(origin, markup),
{
    broadcast use {
        traces_insert_closed,
        traces_insert_text_here,
        traces_begin_template,
    };

    reveal(BuilderModel::head_content);
}

pub broadcast proof fn traces_in_head_end(
    t: BuilderModel,
    tag: TagModel,
    origin: Origin,
    markup: bool,
)
    requires
        t.traced(origin, markup),
        markup,
        origin.kind == TokenKindModel::EndTag(tag),
    ensures
        #[trigger] t.in_head_end(tag).0.traced(origin, markup),
{
    broadcast use {
        traces_pop,
        traces_set_mode,
        traces_in_head_anything_else,
        traces_end_template,
        traces_error,
    };

    reveal(BuilderModel::in_head_end);
}

pub broadcast proof fn traces_in_head_anything_else(
    t: BuilderModel,
    origin: Origin,
    markup: bool,
)
    requires
        t.traced(origin, markup),
    ensures
        #[trigger] t.in_head_anything_else().0.traced(origin, markup),
{
    broadcast use {traces_pop, traces_set_mode};

    reveal(BuilderModel::in_head_anything_else);
}

pub broadcast proof fn traces_in_head_noscript(
    t: BuilderModel,
    kind: TokenKindModel,
    origin: Origin,
    markup: bool,
)
    requires
        t.traced(origin, markup),
        kind.is_markup() ==> markup,
        origin.kind == kind,
    ensures
        #[trigger] t.in_head_noscript(kind).0.traced(origin, markup),
{
    broadcast use {
        traces_char_here,
        traces_in_head_noscript_anything_else,
        traces_comment_here,
        traces_instruction_here,
        traces_error,
        traces_html_in_body,
        traces_head_content,
        traces_pop,
        traces_set_mode,
    };

    reveal(BuilderModel::in_head_noscript);
}

pub broadcast proof fn traces_in_head_noscript_anything_else(
    t: BuilderModel,
    origin: Origin,
    markup: bool,
)
    requires
        t.traced(origin, markup),
    ensures
        #[trigger] t.in_head_noscript_anything_else().0.traced(origin, markup),
{
    broadcast use {traces_pop, traces_set_mode};

    reveal(BuilderModel::in_head_noscript_anything_else);
}

pub broadcast proof fn traces_after_head(
    t: BuilderModel,
    kind: TokenKindModel,
    origin: Origin,
    markup: bool,
)
    requires
        t.traced(origin, markup),
        kind.is_markup() ==> markup,
        origin.kind == kind,
    ensures
        #[trigger] t.after_head(kind).0.traced(origin, markup),
{
    broadcast use {
        traces_char_here,
        traces_after_head_anything_else,
        traces_comment_here,
        traces_instruction_here,
        traces_error,
        traces_html_in_body,
        traces_insert_here,
        traces_set_mode,
        traces_push_head,
        traces_head_content,
        traces_remove_head,
        traces_end_template,
    };

    reveal(BuilderModel::after_head);
}

pub broadcast proof fn traces_after_head_anything_else(
    t: BuilderModel,
    origin: Origin,
    markup: bool,
)
    requires
        t.traced(origin, markup),
    ensures
        #[trigger] t.after_head_anything_else().0.traced(origin, markup),
{
    broadcast use {traces_insert_html_element, traces_set_mode};

    reveal(BuilderModel::after_head_anything_else);
}

pub broadcast proof fn traces_in_body(
    t: BuilderModel,
    kind: TokenKindModel,
    origin: Origin,
    markup: bool,
)
    requires
        t.traced(origin, markup),
        kind.is_markup() ==> markup,
        origin.kind == kind,
    ensures
        #[trigger] t.in_body(kind).0.traced(origin, markup),
{
    broadcast use {
        traces_in_body_char,
        traces_comment_here,
        traces_instruction_here,
        traces_error,
        traces_in_body_start,
        traces_in_body_end,
        traces_in_body_eof,
    };

    reveal(BuilderModel::in_body);
}

pub broadcast proof fn traces_in_body_char(
    t: BuilderModel,
    c: char,
    origin: Origin,
    markup: bool,
)
    requires
        t.traced(origin, markup),
        origin.brings(c),
    ensures
        #[trigger] t.in_body_char(c).0.traced(origin, markup),
{
    broadcast use {
        traces_reconstruct_formatting,
        traces_char_here,
        traces_set_frameset_ok,
    };

    reveal(BuilderModel::in_body_char);
}

pub broadcast proof fn traces_in_body_eof(
    t: BuilderModel,
    origin: Origin,
    markup: bool,
)
    requires
        t.traced(origin, markup),
    ensures
        #[trigger] t.in_body_eof().0.traced(origin, markup),
{
    broadcast use {traces_error, traces_in_template_eof};

    reveal(BuilderModel::in_body_eof);
}

pub broadcast proof fn traces_in_template_eof(
    t: BuilderModel,
    origin: Origin,
    markup: bool,
)
    requires
        t.traced(origin, markup),
    ensures
        #[trigger] t.in_template_eof().0.traced(origin, markup),
{
    broadcast use {traces_error, traces_leave_template};

    reveal(BuilderModel::in_template_eof);
}

pub broadcast proof fn traces_in_body_start(
    t: BuilderModel,
    tag: TagModel,
    origin: Origin,
    markup: bool,
)
    requires
        t.traced(origin, markup),
        markup,
        origin.kind == TokenKindModel::StartTag(tag),
    ensures
        #[trigger] t.in_body_start(tag).0.traced(origin, markup),
{
    broadcast use {
        traces_html_in_body,
        traces_head_content,
        traces_error,
        traces_set_frameset_ok,
        traces_merge_attributes,
        traces_detach_second,
        traces_pop_to,
        traces_insert_here,
        traces_set_mode,
        traces_start_of_block,
    };

    reveal(BuilderModel::in_body_start);
}

pub broadcast proof fn traces_start_of_block(
    t: BuilderModel,
    tag: TagModel,
    origin: Origin,
    markup: bool,
)
    requires
        t.traced(origin, markup),
        markup,
        origin.kind == TokenKindModel::StartTag(tag),
    ensures
        #[trigger] t.start_of_block(tag).0.traced(origin, markup),
{
    broadcast use {
        traces_close_p,
        traces_insert_here,
        traces_pop,
        traces_set_skip_next_line_feed,
        traces_set_frameset_ok,
        traces_error,
        traces_remember_form,
        traces_close_list_item,
        traces_start_of_formatting,
    };

    reveal(BuilderModel::start_of_block);
}

pub broadcast proof fn traces_start_of_formatting(
    t: BuilderModel,
    tag: TagModel,
    origin: Origin,
    markup: bool,
)
    requires
        t.traced(origin, markup),
        markup,
        origin.kind == TokenKindModel::StartTag(tag),
    ensures
        #[trigger] t.start_of_formatting(tag).0.traced(origin, markup),
{
    broadcast use {
        traces_generate_implied_end_tags,
        traces_pop_until,
        traces_insert_active,
        traces_set_frameset_ok,
        traces_close_active_anchor,
        traces_push_formatting,
        traces_reconstruct_formatting,
        traces_error,
        traces_adoption_agency,
        traces_insert_here,
        traces_push_marker,
        traces_close_p,
        traces_set_mode,
        traces_start_of_void,
    };

    reveal(BuilderModel::start_of_formatting);
}

pub broadcast proof fn traces_start_of_void(
    t: BuilderModel,
    tag: TagModel,
    origin: Origin,
    markup: bool,
)
    requires
        t.traced(origin, markup),
        markup,
        origin.kind == TokenKindModel::StartTag(tag),
    ensures
        #[trigger] t.start_of_void(tag).0.traced(origin, markup),
{
    broadcast use {
        traces_insert_void,
        traces_pop_until,
        traces_reconstruct_formatting,
        traces_insert_closed,
        traces_set_frameset_ok,
        traces_close_p,
        traces_generate_implied_end_tags,
        traces_error,
        traces_insert_text_here,
        traces_set_skip_next_line_feed,
        traces_start_of_control,
    };

    reveal(BuilderModel::start_of_void);
}

pub broadcast proof fn traces_start_of_control(
    t: BuilderModel,
    tag: TagModel,
    origin: Origin,
    markup: bool,
)
    requires
        t.traced(origin, markup),
        markup,
        origin.kind == TokenKindModel::StartTag(tag),
    ensures
        #[trigger] t.start_of_control(tag).0.traced(origin, markup),
{
    broadcast use {
        traces_error,
        traces_pop_until,
        traces_insert_active,
        traces_set_frameset_ok,
        traces_generate_implied_end_tags,
        traces_pop,
        traces_insert_here,
        traces_reconstruct_formatting,
        traces_insert_foreign_here,
        traces_acknowledge_self_closing,
    };

    reveal(BuilderModel::start_of_control);
}

pub broadcast proof fn traces_in_body_end(
    t: BuilderModel,
    tag: TagModel,
    origin: Origin,
    markup: bool,
)
    requires
        t.traced(origin, markup),
        markup,
        origin.kind == TokenKindModel::EndTag(tag),
    ensures
        #[trigger] t.in_body_end(tag).0.traced(origin, markup),
{
    broadcast use {
        traces_end_template,
        traces_error,
        traces_set_mode,
        traces_close_element,
        traces_end_of_form,
        traces_end_of_other,
    };

    reveal(BuilderModel::in_body_end);
}

pub broadcast proof fn traces_end_of_form(
    t: BuilderModel,
    origin: Origin,
    markup: bool,
)
    requires
        t.traced(origin, markup),
    ensures
        #[trigger] t.end_of_form().0.traced(origin, markup),
{
    broadcast use {
        traces_error,
        traces_close_element,
        traces_forget_form,
        traces_generate_implied_end_tags,
        traces_remove_form,
    };

    reveal(BuilderModel::end_of_form);
}

pub broadcast proof fn traces_end_of_other(
    t: BuilderModel,
    tag: TagModel,
    origin: Origin,
    markup: bool,
)
    requires
        t.traced(origin, markup),
        markup,
        origin.kind == TokenKindModel::EndTag(tag),
    ensures
        #[trigger] t.end_of_other(tag).0.traced(origin, markup),
{
    broadcast use {
        traces_error,
        traces_insert_html_element,
        traces_close_element,
        traces_generate_implied_end_tags,
        traces_pop_until_one_of,
        traces_adoption_agency,
        traces_clear_to_marker,
        traces_insert_void,
        traces_any_other_end_tag,
    };

    reveal(BuilderModel::end_of_other);
}

pub broadcast proof fn traces_text(
    t: BuilderModel,
    kind: TokenKindModel,
    origin: Origin,
    markup: bool,
)
    requires
        t.traced(origin, markup),
        kind.is_markup() ==> markup,
        origin.kind == kind,
    ensures
        #[trigger] t.text(kind).0.traced(origin, markup),
{
    broadcast use {
        traces_char_here,
        traces_error,
        traces_pop,
        traces_resume_mode,
    };

    reveal(BuilderModel::text);
}

pub broadcast proof fn traces_in_table(
    t: BuilderModel,
    kind: TokenKindModel,
    origin: Origin,
    markup: bool,
)
    requires
        t.traced(origin, markup),
        kind.is_markup() ==> markup,
        origin.kind == kind,
    ensures
        #[trigger] t.in_table(kind).0.traced(origin, markup),
{
    broadcast use {
        traces_forget_held_back,
        traces_suspend_mode,
        traces_error,
        traces_set_foster_parenting,
        traces_in_body_char,
        traces_comment_here,
        traces_instruction_here,
        traces_in_table_start,
        traces_in_table_end,
        traces_in_body_eof,
    };

    reveal(BuilderModel::in_table);
}

pub broadcast proof fn traces_in_table_start(
    t: BuilderModel,
    tag: TagModel,
    origin: Origin,
    markup: bool,
)
    requires
        t.traced(origin, markup),
        markup,
        origin.kind == TokenKindModel::StartTag(tag),
    ensures
        #[trigger] t.in_table_start(tag).0.traced(origin, markup),
{
    broadcast use {
        traces_clear_back_to,
        traces_push_marker,
        traces_insert_here,
        traces_set_mode,
        traces_insert_html_element,
        traces_error,
        traces_pop_until,
        traces_reset_mode,
        traces_head_content,
        traces_insert_closed,
        traces_set_foster_parenting,
        traces_in_body_start,
        traces_remember_form,
        traces_pop,
    };

    reveal(BuilderModel::in_table_start);
}

pub broadcast proof fn traces_in_table_end(
    t: BuilderModel,
    tag: TagModel,
    origin: Origin,
    markup: bool,
)
    requires
        t.traced(origin, markup),
        markup,
        origin.kind == TokenKindModel::EndTag(tag),
    ensures
        #[trigger] t.in_table_end(tag).0.traced(origin, markup),
{
    broadcast use {
        traces_error,
        traces_pop_until,
        traces_reset_mode,
        traces_end_template,
        traces_set_foster_parenting,
        traces_in_body_end,
    };

    reveal(BuilderModel::in_table_end);
}

pub broadcast proof fn traces_in_table_text(
    t: BuilderModel,
    kind: TokenKindModel,
    origin: Origin,
    markup: bool,
)
    requires
        t.traced(origin, markup),
        kind.is_markup() ==> markup,
        origin.kind == kind,
    ensures
        #[trigger] t.in_table_text(kind).0.traced(origin, markup),
{
    broadcast use {
        traces_hold_back,
        traces_release_held_back,
        traces_resume_mode,
    };

    reveal(BuilderModel::in_table_text);
}

pub broadcast proof fn traces_in_caption(
    t: BuilderModel,
    kind: TokenKindModel,
    origin: Origin,
    markup: bool,
)
    requires
        t.traced(origin, markup),
        kind.is_markup() ==> markup,
        origin.kind == kind,
    ensures
        #[trigger] t.in_caption(kind).0.traced(origin, markup),
{
    broadcast use {
        traces_error,
        traces_close_caption,
        traces_in_body_start,
        traces_in_body_end,
        traces_in_body,
    };

    reveal(BuilderModel::in_caption);
}

pub broadcast proof fn traces_in_column_group(
    t: BuilderModel,
    kind: TokenKindModel,
    origin: Origin,
    markup: bool,
)
    requires
        t.traced(origin, markup),
        kind.is_markup() ==> markup,
        origin.kind == kind,
    ensures
        #[trigger] t.in_column_group(kind).0.traced(origin, markup),
{
    broadcast use {
        traces_char_here,
        traces_leave_column_group,
        traces_comment_here,
        traces_instruction_here,
        traces_error,
        traces_html_in_body,
        traces_insert_closed,
        traces_begin_template,
        traces_pop,
        traces_set_mode,
        traces_end_template,
        traces_in_body_eof,
    };

    reveal(BuilderModel::in_column_group);
}

pub broadcast proof fn traces_in_table_body(
    t: BuilderModel,
    kind: TokenKindModel,
    origin: Origin,
    markup: bool,
)
    requires
        t.traced(origin, markup),
        kind.is_markup() ==> markup,
        origin.kind == kind,
    ensures
        #[trigger] t.in_table_body(kind).0.traced(origin, markup),
{
    broadcast use {
        traces_clear_back_to,
        traces_insert_here,
        traces_set_mode,
        traces_insert_html_element,
        traces_error,
        traces_leave_table_body,
        traces_in_table_start,
        traces_pop,
        traces_in_table_end,
        traces_in_table,
    };

    reveal(BuilderModel::in_table_body);
}

pub broadcast proof fn traces_leave_table_body(
    t: BuilderModel,
    origin: Origin,
    markup: bool,
)
    requires
        t.traced(origin, markup),
    ensures
        #[trigger] t.leave_table_body().0.traced(origin, markup),
{
    broadcast use {traces_clear_back_to, traces_pop, traces_set_mode};

    reveal(BuilderModel::leave_table_body);
}

pub broadcast proof fn traces_in_row(
    t: BuilderModel,
    kind: TokenKindModel,
    origin: Origin,
    markup: bool,
)
    requires
        t.traced(origin, markup),
        kind.is_markup() ==> markup,
        origin.kind == kind,
    ensures
        #[trigger] t.in_row(kind).0.traced(origin, markup),
{
    broadcast use {
        traces_clear_back_to,
        traces_insert_here,
        traces_set_mode,
        traces_push_marker,
        traces_error,
        traces_leave_row,
        traces_in_table_start,
        traces_pop,
        traces_in_table_end,
        traces_in_table,
    };

    reveal(BuilderModel::in_row);
}

pub broadcast proof fn traces_leave_row(
    t: BuilderModel,
    origin: Origin,
    markup: bool,
)
    requires
        t.traced(origin, markup),
    ensures
        #[trigger] t.leave_row().0.traced(origin, markup),
{
    broadcast use {traces_clear_back_to, traces_pop, traces_set_mode};

    reveal(BuilderModel::leave_row);
}

pub broadcast proof fn traces_in_cell(
    t: BuilderModel,
    kind: TokenKindModel,
    origin: Origin,
    markup: bool,
)
    requires
        t.traced(origin, markup),
        kind.is_markup() ==> markup,
        origin.kind == kind,
    ensures
        #[trigger] t.in_cell(kind).0.traced(origin, markup),
{
    broadcast use {
        traces_close_cell,
        traces_in_body_start,
        traces_error,
        traces_close_element,
        traces_clear_to_marker,
        traces_set_mode,
        traces_in_body_end,
        traces_in_body,
    };

    reveal(BuilderModel::in_cell);
}

pub broadcast proof fn traces_leave_column_group(
    t: BuilderModel,
    kind: ParseErrorKind,
    origin: Origin,
    markup: bool,
)
    requires
        t.traced(origin, markup),
    ensures
        #[trigger] t.leave_column_group(kind).0.traced(origin, markup),
{
    broadcast use {traces_error, traces_pop, traces_set_mode};

    reveal(BuilderModel::leave_column_group);
}

pub proof fn traces_insert_held_back(
    t: BuilderModel,
    tokens: Seq<(char, Position)>,
    i: int,
    foster: bool,
    origin: Origin,
    markup: bool,
)
    requires
        t.traced(origin, markup),
        !markup,
        forall|j: int|
            0 <= j < tokens.len() ==> origin.holds((#[trigger] tokens[j]).1) && origin.brings(
                tokens[j].0,
            ),
    ensures
        t.insert_held_back(tokens, i, foster).traced(origin, markup),
    decreases tokens.len() - i,
{
    broadcast use {
        traces_at,
        traces_set_foster_parenting,
        traces_in_body_char,
        traces_char_here,
    };

    if 0 <= i < tokens.len() {
        assert(origin.holds(tokens[i].1));
        let u = t.at(tokens[i].1);
        let v = if foster {
            u.set_foster_parenting(true).in_body_char(tokens[i].0).0.set_foster_parenting(false)
        } else {
            u.char_here(tokens[i].0)
        };
        assert(v.traced(origin, markup));
        traces_insert_held_back(v, tokens, i + 1, foster, origin, markup);
    }
}

pub broadcast proof fn traces_release_held_back(
    t: BuilderModel,
    origin: Origin,
    markup: bool,
)
    requires
        t.traced(origin, markup),
    ensures
        #[trigger] t.release_held_back().traced(origin, markup),
{
    reveal(BuilderModel::release_held_back);
    let tokens = t.pending_table_character_tokens;
    let u = t.forget_held_back();
    assert(u.traced(origin, false)) by {
        reveal(BuilderModel::traced);
    }
    assert(forall|i: int|
        0 <= i < tokens.len() ==> origin.holds((#[trigger] tokens[i]).1) && origin.brings(
            tokens[i].0,
        )) by {
        reveal(BuilderModel::traced);
    }
    let v = match first_visible(tokens, 0) {
        Some(position) => {
            lemma_first_visible(tokens, 0);
            let w = u.error_at(ParseErrorKind::NonSpaceCharactersInTable, position);
            traces_error_at(
                u,
                ParseErrorKind::NonSpaceCharactersInTable,
                position,
                origin,
                false,
            );
            traces_insert_held_back(w, tokens, 0, true, origin, false);
            w.insert_held_back(tokens, 0, true)
        },
        None => {
            traces_insert_held_back(u, tokens, 0, false, origin, false);
            u.insert_held_back(tokens, 0, false)
        },
    };
    assert(v.traced(origin, false));
    reveal(BuilderModel::traced);
}

pub broadcast proof fn traces_in_template(
    t: BuilderModel,
    kind: TokenKindModel,
    origin: Origin,
    markup: bool,
)
    requires
        t.traced(origin, markup),
        kind.is_markup() ==> markup,
        origin.kind == kind,
    ensures
        #[trigger] t.in_template(kind).0.traced(origin, markup),
{
    broadcast use {
        traces_head_content,
        traces_pop_template_mode,
        traces_push_template_mode,
        traces_set_mode,
        traces_end_template,
        traces_error,
        traces_in_template_eof,
        traces_in_body,
    };

    reveal(BuilderModel::in_template);
}

pub broadcast proof fn traces_after_body(
    t: BuilderModel,
    kind: TokenKindModel,
    origin: Origin,
    markup: bool,
)
    requires
        t.traced(origin, markup),
        kind.is_markup() ==> markup,
        origin.kind == kind,
    ensures
        #[trigger] t.after_body(kind).0.traced(origin, markup),
{
    broadcast use {
        traces_in_body_char,
        traces_back_to_body,
        traces_comment_to_html,
        traces_instruction_to_html,
        traces_error,
        traces_html_in_body,
        traces_set_mode,
    };

    reveal(BuilderModel::after_body);
}

pub broadcast proof fn traces_back_to_body(
    t: BuilderModel,
    origin: Origin,
    markup: bool,
)
    requires
        t.traced(origin, markup),
    ensures
        #[trigger] t.back_to_body().0.traced(origin, markup),
{
    broadcast use {traces_error, traces_set_mode};

    reveal(BuilderModel::back_to_body);
}

pub broadcast proof fn traces_after_after_body(
    t: BuilderModel,
    kind: TokenKindModel,
    origin: Origin,
    markup: bool,
)
    requires
        t.traced(origin, markup),
        kind.is_markup() ==> markup,
        origin.kind == kind,
    ensures
        #[trigger] t.after_after_body(kind).0.traced(origin, markup),
{
    broadcast use {
        traces_in_body_char,
        traces_back_to_body,
        traces_comment_to_document,
        traces_instruction_to_document,
        traces_error,
        traces_html_in_body,
    };

    reveal(BuilderModel::after_after_body);
}

pub broadcast proof fn traces_in_frameset(
    t: BuilderModel,
    kind: TokenKindModel,
    origin: Origin,
    markup: bool,
)
    requires
        t.traced(origin, markup),
        kind.is_markup() ==> markup,
        origin.kind == kind,
    ensures
        #[trigger] t.in_frameset(kind).0.traced(origin, markup),
{
    broadcast use {
        traces_char_here,
        traces_comment_here,
        traces_instruction_here,
        traces_error,
        traces_html_in_body,
        traces_insert_here,
        traces_insert_closed,
        traces_head_content,
        traces_pop,
        traces_set_mode,
    };

    reveal(BuilderModel::in_frameset);
}

pub broadcast proof fn traces_after_frameset(
    t: BuilderModel,
    kind: TokenKindModel,
    origin: Origin,
    markup: bool,
)
    requires
        t.traced(origin, markup),
        kind.is_markup() ==> markup,
        origin.kind == kind,
    ensures
        #[trigger] t.after_frameset(kind).0.traced(origin, markup),
{
    broadcast use {
        traces_char_here,
        traces_comment_here,
        traces_instruction_here,
        traces_error,
        traces_html_in_body,
        traces_head_content,
        traces_set_mode,
    };

    reveal(BuilderModel::after_frameset);
}

pub broadcast proof fn traces_after_after_frameset(
    t: BuilderModel,
    kind: TokenKindModel,
    origin: Origin,
    markup: bool,
)
    requires
        t.traced(origin, markup),
        kind.is_markup() ==> markup,
        origin.kind == kind,
    ensures
        #[trigger] t.after_after_frameset(kind).0.traced(origin, markup),
{
    broadcast use {
        traces_in_body_char,
        traces_comment_to_document,
        traces_instruction_to_document,
        traces_error,
        traces_html_in_body,
        traces_head_content,
    };

    reveal(BuilderModel::after_after_frameset);
}

pub broadcast proof fn traces_pop_out_of_foreign_content(
    t: BuilderModel,
    origin: Origin,
    markup: bool,
)
    requires
        t.traced(origin, markup),
    ensures
        #[trigger] t.pop_out_of_foreign_content().traced(origin, markup),
{
    broadcast use traces_pop_to;

}

pub broadcast proof fn traces_insert_alike_here(
    t: BuilderModel,
    tag: TagModel,
    origin: Origin,
    markup: bool,
)
    requires
        t.traced(origin, markup),
        markup,
        origin.kind == TokenKindModel::StartTag(tag),
    ensures
        #[trigger] t.insert_alike_here(tag).traced(origin, markup),
{
    broadcast use {
        traces_insert_foreign_here,
        traces_acknowledge_self_closing,
        traces_pop,
    };

    reveal(BuilderModel::insert_alike_here);
}

pub broadcast proof fn traces_in_foreign(
    t: BuilderModel,
    kind: TokenKindModel,
    origin: Origin,
    markup: bool,
)
    requires
        t.traced(origin, markup),
        kind.is_markup() ==> markup,
        origin.kind == kind,
    ensures
        #[trigger] t.in_foreign(kind).0.traced(origin, markup),
{
    broadcast use {
        traces_char_here,
        traces_set_frameset_ok,
        traces_comment_here,
        traces_instruction_here,
        traces_error,
        traces_pop_out_of_foreign_content,
        traces_by_mode,
        traces_insert_alike_here,
        traces_pop,
        traces_pop_to,
    };

    reveal(BuilderModel::in_foreign);
}

pub broadcast proof fn traces_by_mode(
    t: BuilderModel,
    kind: TokenKindModel,
    origin: Origin,
    markup: bool,
)
    requires
        t.traced(origin, markup),
        kind.is_markup() ==> markup,
        origin.kind == kind,
    ensures
        #[trigger] t.by_mode(kind).0.traced(origin, markup),
{
    broadcast use {
        traces_initial,
        traces_before_html,
        traces_before_head,
        traces_in_head,
        traces_in_head_noscript,
        traces_after_head,
        traces_in_body,
        traces_text,
        traces_in_table,
        traces_in_table_text,
        traces_in_caption,
        traces_in_column_group,
        traces_in_table_body,
        traces_in_row,
        traces_in_cell,
        traces_in_template,
        traces_after_body,
        traces_in_frameset,
        traces_after_frameset,
        traces_after_after_body,
        traces_after_after_frameset,
    };

    reveal(BuilderModel::by_mode);
}

pub broadcast proof fn traces_step(
    t: BuilderModel,
    kind: TokenKindModel,
    origin: Origin,
    markup: bool,
)
    requires
        t.traced(origin, markup),
        kind.is_markup() ==> markup,
        origin.kind == kind,
    ensures
        #[trigger] t.step(kind).0.traced(origin, markup),
{
    broadcast use {traces_in_foreign, traces_by_mode};

}

pub proof fn traces_run(
    t: BuilderModel,
    kind: TokenKindModel,
    origin: Origin,
    markup: bool,
)
    requires
        t.traced(origin, markup),
        kind.is_markup() ==> markup,
        origin.kind == kind,
    ensures
        t.run(kind).0.traced(origin, markup),
    decreases
            phase(t.insertion_mode, kind),
            t.open_tables(),
            t.open_elements.len() + rank(t.insertion_mode, kind),
{
    traces_step(t, kind, origin, markup);
    match t.step(kind) {
        (next, TokenOutcome::Reprocess) => {
            if t.advances(next, kind) {
                traces_run(next, kind, origin, markup);
            }
        },
        _ => {},
    }
}

/// What a token finds.
pub open spec fn origin_of(t: BuilderModel, kind: TokenKindModel, position: Position) -> Origin {
    Origin {
        kind,
        nodes: t.document.nodes,
        position,
        held: t.pending_table_character_tokens,
    }
}

impl BuilderModel {
    /// Every element that is at no position is of a name that needs no tag, or another
    /// element of its name is at one; comments, text and the like are all at one.
    pub open spec fn recorded(self) -> bool {
        self.traced(origin_of(self, TokenKindModel::Eof, self.token_position), false)
    }
}

/// Handling a token puts every node where the token allows it.
pub proof fn lemma_process_traced(t: BuilderModel, kind: TokenKindModel, position: Position)
    requires
        t.recorded(),
    ensures
        t.process(kind, position).0.traced(origin_of(t, kind, position), false),
        t.process(kind, position).0.recorded(),
{
    reveal(BuilderModel::process);
    let origin = origin_of(t, kind, position);
    let u = t.begin_token(position);
    let markup = kind.is_markup();
    assert(u.traced(origin, markup)) by {
        reveal(BuilderModel::traced);
        assert(u.pending_table_character_tokens == origin.held);
        assert forall|i: int|
            0 <= i < u.pending_table_character_tokens.len() implies origin.holds(
            (#[trigger] u.pending_table_character_tokens[i]).1,
        ) && origin.brings(u.pending_table_character_tokens[i].0) by {
            assert(origin.held[i].0 == u.pending_table_character_tokens[i].0);
        }
        assert forall|i: int| 0 <= i < u.document.nodes.len() implies #[trigger] node_traced(
            u.document,
            i,
            origin,
        ) && ids_below(u.document.nodes[i].children, u.document.nodes.len()) by {
            assert(node_traced(t.document, i, origin_of(t, TokenKindModel::Eof, t.token_position)));
            lemma_text_as_it_is(t.document.nodes[i].kind, i, origin);
        }
    }
    traces_run(u, kind, origin, markup);
    let v = u.run(kind).0;
    traces_error(
        v,
        ParseErrorKind::NonVoidHtmlElementStartTagWithTrailingSolidus,
        origin,
        markup,
    );
    let w = t.process(kind, position).0;
    assert(w.traced(origin, false)) by {
        reveal(BuilderModel::traced);
    }
    lemma_recorded_after(w, origin);
}

/// Whatever a token allowed is on record for the next.
proof fn lemma_recorded_after(t: BuilderModel, origin: Origin)
    requires
        t.traced(origin, false),
    ensures
        t.recorded(),
{
    reveal(BuilderModel::traced);
    let next = origin_of(t, TokenKindModel::Eof, t.token_position);
    assert forall|i: int| 0 <= i < t.document.nodes.len() implies #[trigger] node_traced(
        t.document,
        i,
        next,
    ) && ids_below(t.document.nodes[i].children, t.document.nodes.len()) by {
        assert(node_traced(t.document, i, origin));
        lemma_text_as_it_is(t.document.nodes[i].kind, i, next);
    }
    assert forall|i: int| 0 <= i < t.pending_table_character_tokens.len() implies next.holds(
        (#[trigger] t.pending_table_character_tokens[i]).1,
    ) && next.brings(t.pending_table_character_tokens[i].0) by {
        assert(next.held[i].1 == t.pending_table_character_tokens[i].1);
    }
}

/// A new tree builder has nothing but the document node, which is at no position.
pub proof fn lemma_new_builder_recorded()
    ensures
        new_builder().recorded(),
{
    reveal(BuilderModel::traced);
}

/// Every comment, processing instruction, document type and text is at a position. An
/// element that is at none is of a name that needs no tag, or another element of its name
/// is at one.
pub open spec fn all_written(d: DocumentModel) -> bool {
    forall|id: NodeId|
        d.has(id) && (#[trigger] d.node(id)).position is None ==> match sort_of(d.node(id).kind) {
            Sort::Document | Sort::Fragment => true,
            Sort::Element { name } => implied_name(name) || written(d, name),
            _ => false,
        }
}

/// At the end everything is on record.
pub proof fn lemma_all_written(t: BuilderModel)
    requires
        t.recorded(),
        t.stop().document.nodes.len() <= usize::MAX,
    ensures
        all_written(t.stop().document),
{
    let origin = origin_of(t, TokenKindModel::Eof, t.token_position);
    traces_pop_to(t, 0, origin, false);
    let d = t.stop().document;
    reveal(BuilderModel::traced);
    assert forall|id: NodeId| d.has(id) && (#[trigger] d.node(id)).position
        is None implies match sort_of(d.node(id).kind) {
        Sort::Document | Sort::Fragment => true,
        Sort::Element { name } => implied_name(name) || written(d, name),
        _ => false,
    } by {
        assert(node_traced(d, id.index as int, origin));
    }
}

/// The attributes of an element are those of the tag it is made from: in their order, with
/// the same values, in HTML with the same names and elsewhere as they are spelled there.
pub open spec fn attributes_from(
    attributes: Seq<ElementAttribute>,
    namespace: Seq<char>,
    written: Seq<AttributeModel>,
) -> bool {
    &&& written.len() <= attributes.len()
    &&& forall|i: int|
        0 <= i < written.len() ==> if namespace == HTML_NAMESPACE@ {
            (#[trigger] attributes[i]).name == written[i].name && attributes[i].value
                == written[i].value && attributes[i].namespace is None
        } else {
            attribute_alike(attributes[i], written[i], spellings(namespace))
        }
}

/// An element without attributes.
pub open spec fn no_attributes(kind: KindModel) -> bool {
    kind matches KindModel::Element { attributes, .. } && attributes.len() == 0
}

/// A node that comes from a token: a comment with its text, a processing instruction with
/// its target and its data, a document type with its name and its identifiers, and an
/// element with the name and all the attributes of its tag. Only an `image` element is
/// called otherwise, and an SVG element as SVG spells it; only an `html` or a `body` element
/// can have more attributes; and only the end tag of a `br` element makes an element.
pub open spec fn comes_from(kind: KindModel, token: TokenKindModel) -> bool {
    match (token, kind) {
        (TokenKindModel::Comment(data), KindModel::Comment { content }) => content == data,
        (
            TokenKindModel::ProcessingInstruction(pi),
            KindModel::ProcessingInstruction { target, data },
        ) => target == pi.target && data == pi.data,
        (
            TokenKindModel::Doctype(doctype),
            KindModel::Doctype { name, public_identifier, system_identifier },
        ) => {
            &&& doctype.name is Some ==> name == doctype.name
            &&& doctype.public_identifier is Some ==> public_identifier
                == doctype.public_identifier
            &&& doctype.system_identifier is Some ==> system_identifier
                == doctype.system_identifier
        },
        (
            TokenKindModel::StartTag(tag),
            KindModel::Element { name, namespace: Some(namespace), attributes },
        ) => {
            &&& name == tag.name || tag.name == "image"@ && name == "img"@ || listed(
                SVG_TAG_NAMES@,
                tag.name,
                name,
            )
            &&& attributes_from(attributes, namespace, tag.attributes)
            &&& tag.name != "html"@ && tag.name != "body"@ ==> attributes.len()
                == tag.attributes.len()
        },
        (
            TokenKindModel::EndTag(tag),
            KindModel::Element { name, attributes, .. },
        ) => tag.name == "br"@ && name == "br"@ && attributes.len() == 0,
        _ => false,
    }
}

/// A node that a token stands for comes from it.
proof fn lemma_comes_from(origin: Origin, kind: KindModel)
    requires
        origin.stands_for(kind),
    ensures
        comes_from(kind, origin.kind),
{
    reveal(Origin::stands_for);
    match kind {
        KindModel::Element { name, namespace, attributes } => {
            let (tag, ns) = choose|tag: TagModel, ns: Seq<char>| #[trigger] origin.makes(tag)
                && extends(kind, #[trigger] element_for(tag, ns), origin.merges());
            let made = attributes_for(tag.attributes, ns);
            assert(made.len() == tag.attributes.len()) by {
                reveal(attributes_for);
            }
            assert(attributes_from(attributes, ns, tag.attributes)) by {
                assert(made.is_prefix_of(attributes));
                if ns == HTML_NAMESPACE@ {
                    reveal(attributes_for);
                } else {
                    lemma_foreign_attributes(tag.attributes, ns);
                }
                assert forall|i: int| 0 <= i < tag.attributes.len() implies if ns
                    == HTML_NAMESPACE@ {
                    (#[trigger] attributes[i]).name == tag.attributes[i].name
                        && attributes[i].value == tag.attributes[i].value
                        && attributes[i].namespace is None
                } else {
                    attribute_alike(attributes[i], tag.attributes[i], spellings(ns))
                } by {
                    assert(made[i] == attributes[i]);
                }
            }
            match origin.kind {
                TokenKindModel::StartTag(own) => {
                    lemma_svg_tag(own.name);
                },
                _ => {},
            }
        },
        _ => {},
    }
}

/// Handling a token moves no node to another position and gives no element another name.
/// Every node that it adds comes from the token and is at its position, with these
/// exceptions: text is at the position of the token or where its characters were held
/// back; what is like a node that was there may be where that one is; and an element may be
/// at no position if it is one that needs no tag, with no attributes, or if it is a copy of
/// an element that was there or that is at a position, with the same attributes. Only a tag
/// whose attributes are added to an element that is there can change the last.
pub proof fn lemma_token_origin(
    t: BuilderModel,
    kind: TokenKindModel,
    position: Position,
    id: NodeId,
)
    requires
        t.recorded(),
        t.process(kind, position).0.document.nodes.len() <= usize::MAX,
        id.index < t.process(kind, position).0.document.nodes.len(),
    ensures
        ({
            let d = t.document;
            let node = t.process(kind, position).0.document.node(id);
            let sort = sort_of(node.kind);
            if id.index < d.nodes.len() {
                node.position == d.node(id).position && sort == sort_of(d.node(id).kind)
            } else {
                match node.position {
                    Some(q) => {
                        ||| q == position && (sort is Text || comes_from(node.kind, kind))
                        ||| sort is Text && exists|i: int|
                            0 <= i < t.pending_table_character_tokens.len() && (
                            #[trigger] t.pending_table_character_tokens[i]).1 == q
                        ||| exists|i: int|
                            0 <= i < d.nodes.len() && sort_of((#[trigger] d.nodes[i]).kind) == sort
                                && d.nodes[i].position == Some(q)
                    },
                    None => match sort {
                        Sort::Document | Sort::Fragment => true,
                        Sort::Element { name } => {
                            let e = t.process(kind, position).0.document;
                            &&& implied_name(name) || written(e, name)
                            &&& {
                                ||| origin_of(t, kind, position).merges()
                                ||| implied_name(name) && no_attributes(node.kind)
                                ||| exists|i: int|
                                    0 <= i < e.nodes.len() && (i < d.nodes.len()
                                        || e.nodes[i].position is Some) && alike(
                                        node.kind,
                                        (#[trigger] e.nodes[i]).kind,
                                    )
                            }
                        },
                        _ => false,
                    },
                }
            }
        }),
{
    lemma_process_traced(t, kind, position);
    reveal(BuilderModel::traced);
    reveal(Origin::had);
    reveal(copied);
    let e = t.process(kind, position).0.document;
    let origin = origin_of(t, kind, position);
    assert(node_traced(e, id.index as int, origin));
    if origin.stands_for(e.kind(id)) {
        lemma_comes_from(origin, e.kind(id));
    }
}

/// A token takes no character from a text and changes none: it can only add characters, its
/// own or those that were held back, at the end. New text holds nothing but such characters,
/// unless it is like a text that was there, again with nothing but such characters after it.
/// For a NUL a replacement character may stand.
pub proof fn lemma_text_origin(
    t: BuilderModel,
    kind: TokenKindModel,
    position: Position,
    id: NodeId,
    content: Seq<char>,
)
    requires
        t.recorded(),
        id.index < t.process(kind, position).0.document.nodes.len(),
        t.process(kind, position).0.document.kind(id) == (KindModel::Text { content }),
    ensures
        ({
            let origin = origin_of(t, kind, position);
            if id.index < t.document.nodes.len() {
                t.document.kind(id) matches KindModel::Text { content: before }
                    && before.is_prefix_of(content) && forall|k: int|
                    before.len() <= k < content.len() ==> origin.brings(#[trigger] content[k])
            } else {
                ||| forall|k: int| 0 <= k < content.len() ==> origin.brings(#[trigger] content[k])
                ||| exists|i: int|
                    0 <= i < t.document.nodes.len() && origin.continues(
                        (#[trigger] t.document.nodes[i]).kind,
                        content,
                    )
            }
        }),
{
    lemma_process_traced(t, kind, position);
    reveal(BuilderModel::traced);
    reveal(Origin::spells);
    let e = t.process(kind, position).0.document;
    assert(node_traced(e, id.index as int, origin_of(t, kind, position)));
}

/// The first element of a name comes from its tag: where a token adds an element whose name
/// needs a tag and that no element had, an element of that name comes from the token and is
/// at its position, and none is at another.
pub proof fn lemma_first_of_its_name(
    t: BuilderModel,
    kind: TokenKindModel,
    position: Position,
    id: NodeId,
    name: Seq<char>,
)
    requires
        t.recorded(),
        t.process(kind, position).0.document.nodes.len() <= usize::MAX,
        t.document.nodes.len() <= id.index < t.process(kind, position).0.document.nodes.len(),
        sort_of(t.process(kind, position).0.document.kind(id)) == (Sort::Element { name }),
        !implied_name(name),
        forall|i: int|
            0 <= i < t.document.nodes.len() ==> sort_of((#[trigger] t.document.nodes[i]).kind) != (
            Sort::Element { name }),
    ensures
        ({
            let e = t.process(kind, position).0.document;
            &&& exists|i: int|
                0 <= i < e.nodes.len() && sort_of((#[trigger] e.nodes[i]).kind) == (Sort::Element {
                    name,
                }) && e.nodes[i].position == Some(position) && comes_from(e.nodes[i].kind, kind)
            &&& e.node(id).position matches Some(q) ==> q == position
        }),
{
    let e = t.process(kind, position).0.document;
    lemma_token_origin(t, kind, position, id);
    match e.node(id).position {
        Some(q) => {
            assert(e.nodes[id.index as int].position == Some(position));
        },
        None => {
            reveal(written);
            let i = choose|i: int|
                0 <= i < e.nodes.len() && sort_of((#[trigger] e.nodes[i]).kind) == (Sort::Element {
                    name,
                }) && e.nodes[i].position is Some;
            let other = NodeId { index: i as usize };
            lemma_token_origin(t, kind, position, other);
            if i < t.document.nodes.len() {
                assert(sort_of(t.document.nodes[i].kind) == (Sort::Element { name }));
            }
            assert(e.nodes[i].position == Some(position) && comes_from(e.nodes[i].kind, kind));
        },
    }
}

} // verus!
