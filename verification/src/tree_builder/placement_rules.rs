//! The rules of the insertion modes leave every position at a place of the source.
use vstd::prelude::*;

use crate::token::{ParseErrorKind, Position, TagModel, TokenKindModel};
use crate::tokenizer::marks::Places;
use crate::tree_builder::builder::new_builder;
use crate::tree_builder::model::{BuilderModel, TokenOutcome};
use crate::tree_builder::placement::{
    keeps_places_acknowledge_self_closing, keeps_places_adoption_agency,
    keeps_places_any_other_end_tag, keeps_places_at, keeps_places_char_here,
    keeps_places_clear_back_to, keeps_places_clear_to_marker, keeps_places_close_active_anchor,
    keeps_places_close_element, keeps_places_close_list_item, keeps_places_comment_here,
    keeps_places_comment_to_document, keeps_places_comment_to_html, keeps_places_detach_second,
    keeps_places_error, keeps_places_error_at, keeps_places_forget_form,
    keeps_places_forget_held_back, keeps_places_generate_implied_end_tags,
    keeps_places_generate_implied_end_tags_thoroughly, keeps_places_hold_back,
    keeps_places_insert_doctype, keeps_places_insert_foreign_here, keeps_places_insert_here,
    keeps_places_insert_html_element, keeps_places_insert_root_element,
    keeps_places_insert_text_here, keeps_places_instruction_here,
    keeps_places_instruction_to_document, keeps_places_instruction_to_html,
    keeps_places_merge_attributes, keeps_places_pop, keeps_places_pop_template_mode,
    keeps_places_pop_to, keeps_places_pop_until, keeps_places_pop_until_one_of,
    keeps_places_push_formatting, keeps_places_push_head, keeps_places_push_marker,
    keeps_places_push_template_mode, keeps_places_reconstruct_formatting,
    keeps_places_remember_form, keeps_places_remember_head, keeps_places_remove_form,
    keeps_places_remove_head, keeps_places_reset_mode, keeps_places_resume_mode,
    keeps_places_set_foster_parenting, keeps_places_set_frameset_ok, keeps_places_set_mode,
    keeps_places_set_quirks_mode, keeps_places_set_skip_next_line_feed, keeps_places_suspend_mode,
};
use crate::tree_builder::progress::{phase, rank};
use crate::tree_builder::steps::first_visible;

verus! {

pub proof fn lemma_first_visible(tokens: Seq<(char, Position)>, i: int)
    requires
        0 <= i,
    ensures
        first_visible(tokens, i) matches Some(position) ==> exists|j: int|
            0 <= j < tokens.len() && (#[trigger] tokens[j]).1 == position,
    decreases tokens.len() - i,
{
    if i < tokens.len() {
        lemma_first_visible(tokens, i + 1);
        assert(tokens[i].1 == tokens[i].1);
    }
}

pub broadcast proof fn keeps_places_close_p(
    t: BuilderModel,
    source: Places,
    markup: bool,
)
    requires
        t.placed(source, markup),
    ensures
        #[trigger] t.close_p().placed(source, markup),
{
    broadcast use keeps_places_close_element;

    reveal(BuilderModel::close_p);
}

pub broadcast proof fn keeps_places_insert_void(
    t: BuilderModel,
    tag: TagModel,
    source: Places,
    markup: bool,
)
    requires
        t.placed(source, markup),
        markup,
    ensures
        #[trigger] t.insert_void(tag).placed(source, markup),
{
    broadcast use {
        keeps_places_reconstruct_formatting,
        keeps_places_insert_here,
        keeps_places_pop,
        keeps_places_acknowledge_self_closing,
        keeps_places_set_frameset_ok,
    };

    reveal(BuilderModel::insert_void);
}

pub broadcast proof fn keeps_places_insert_active(
    t: BuilderModel,
    tag: TagModel,
    source: Places,
    markup: bool,
)
    requires
        t.placed(source, markup),
        markup,
    ensures
        #[trigger] t.insert_active(tag).placed(source, markup),
{
    broadcast use {keeps_places_reconstruct_formatting, keeps_places_insert_here};

    reveal(BuilderModel::insert_active);
}

pub broadcast proof fn keeps_places_insert_closed(
    t: BuilderModel,
    tag: TagModel,
    source: Places,
    markup: bool,
)
    requires
        t.placed(source, markup),
        markup,
    ensures
        #[trigger] t.insert_closed(tag).placed(source, markup),
{
    broadcast use {
        keeps_places_insert_here,
        keeps_places_pop,
        keeps_places_acknowledge_self_closing,
    };

    reveal(BuilderModel::insert_closed);
}

pub broadcast proof fn keeps_places_close_cell(
    t: BuilderModel,
    source: Places,
    markup: bool,
)
    requires
        t.placed(source, markup),
    ensures
        #[trigger] t.close_cell().placed(source, markup),
{
    broadcast use {
        keeps_places_generate_implied_end_tags,
        keeps_places_error,
        keeps_places_pop_until_one_of,
        keeps_places_clear_to_marker,
        keeps_places_set_mode,
    };

    reveal(BuilderModel::close_cell);
}

pub broadcast proof fn keeps_places_close_caption(
    t: BuilderModel,
    source: Places,
    markup: bool,
)
    requires
        t.placed(source, markup),
    ensures
        #[trigger] t.close_caption().placed(source, markup),
{
    broadcast use {keeps_places_close_element, keeps_places_clear_to_marker, keeps_places_set_mode};

    reveal(BuilderModel::close_caption);
}

pub broadcast proof fn keeps_places_begin_template(
    t: BuilderModel,
    tag: TagModel,
    source: Places,
    markup: bool,
)
    requires
        t.placed(source, markup),
        markup,
    ensures
        #[trigger] t.begin_template(tag).placed(source, markup),
{
    broadcast use {
        keeps_places_insert_here,
        keeps_places_push_marker,
        keeps_places_set_frameset_ok,
        keeps_places_set_mode,
        keeps_places_push_template_mode,
    };

    reveal(BuilderModel::begin_template);
}

pub broadcast proof fn keeps_places_leave_template(
    t: BuilderModel,
    source: Places,
    markup: bool,
)
    requires
        t.placed(source, markup),
    ensures
        #[trigger] t.leave_template().placed(source, markup),
{
    broadcast use {
        keeps_places_pop_until,
        keeps_places_clear_to_marker,
        keeps_places_pop_template_mode,
        keeps_places_reset_mode,
    };

    reveal(BuilderModel::leave_template);
}

pub broadcast proof fn keeps_places_end_template(
    t: BuilderModel,
    source: Places,
    markup: bool,
)
    requires
        t.placed(source, markup),
    ensures
        #[trigger] t.end_template().placed(source, markup),
{
    broadcast use {
        keeps_places_error,
        keeps_places_generate_implied_end_tags_thoroughly,
        keeps_places_leave_template,
    };

    reveal(BuilderModel::end_template);
}

pub broadcast proof fn keeps_places_html_in_body(
    t: BuilderModel,
    tag: TagModel,
    source: Places,
    markup: bool,
)
    requires
        t.placed(source, markup),
        markup,
    ensures
        #[trigger] t.html_in_body(tag).0.placed(source, markup),
{
    broadcast use {keeps_places_error, keeps_places_merge_attributes};

    reveal(BuilderModel::html_in_body);
}

pub broadcast proof fn keeps_places_initial(
    t: BuilderModel,
    kind: TokenKindModel,
    source: Places,
    markup: bool,
)
    requires
        t.placed(source, markup),
        kind.is_markup() ==> markup,
    ensures
        #[trigger] t.initial(kind).0.placed(source, markup),
{
    broadcast use {
        keeps_places_initial_anything_else,
        keeps_places_comment_to_document,
        keeps_places_instruction_to_document,
        keeps_places_insert_doctype,
        keeps_places_set_quirks_mode,
        keeps_places_set_mode,
    };

    reveal(BuilderModel::initial);
}

pub broadcast proof fn keeps_places_initial_anything_else(
    t: BuilderModel,
    source: Places,
    markup: bool,
)
    requires
        t.placed(source, markup),
    ensures
        #[trigger] t.initial_anything_else().0.placed(source, markup),
{
    broadcast use {keeps_places_set_quirks_mode, keeps_places_set_mode};

    reveal(BuilderModel::initial_anything_else);
}

pub broadcast proof fn keeps_places_before_html(
    t: BuilderModel,
    kind: TokenKindModel,
    source: Places,
    markup: bool,
)
    requires
        t.placed(source, markup),
        kind.is_markup() ==> markup,
    ensures
        #[trigger] t.before_html(kind).0.placed(source, markup),
{
    broadcast use {
        keeps_places_before_html_anything_else,
        keeps_places_comment_to_document,
        keeps_places_instruction_to_document,
        keeps_places_error,
        keeps_places_insert_root_element,
        keeps_places_set_mode,
    };

    reveal(BuilderModel::placed);
    reveal(BuilderModel::before_html);
}

pub broadcast proof fn keeps_places_before_html_anything_else(
    t: BuilderModel,
    source: Places,
    markup: bool,
)
    requires
        t.placed(source, markup),
    ensures
        #[trigger] t.before_html_anything_else().0.placed(source, markup),
{
    broadcast use {keeps_places_insert_root_element, keeps_places_set_mode};

    reveal(BuilderModel::before_html_anything_else);
}

pub broadcast proof fn keeps_places_before_head(
    t: BuilderModel,
    kind: TokenKindModel,
    source: Places,
    markup: bool,
)
    requires
        t.placed(source, markup),
        kind.is_markup() ==> markup,
    ensures
        #[trigger] t.before_head(kind).0.placed(source, markup),
{
    broadcast use {
        keeps_places_before_head_anything_else,
        keeps_places_comment_here,
        keeps_places_instruction_here,
        keeps_places_error,
        keeps_places_html_in_body,
        keeps_places_insert_here,
        keeps_places_remember_head,
        keeps_places_set_mode,
    };

    reveal(BuilderModel::before_head);
}

pub broadcast proof fn keeps_places_before_head_anything_else(
    t: BuilderModel,
    source: Places,
    markup: bool,
)
    requires
        t.placed(source, markup),
    ensures
        #[trigger] t.before_head_anything_else().0.placed(source, markup),
{
    broadcast use {
        keeps_places_insert_html_element,
        keeps_places_remember_head,
        keeps_places_set_mode,
    };

    reveal(BuilderModel::before_head_anything_else);
}

pub broadcast proof fn keeps_places_in_head(
    t: BuilderModel,
    kind: TokenKindModel,
    source: Places,
    markup: bool,
)
    requires
        t.placed(source, markup),
        kind.is_markup() ==> markup,
    ensures
        #[trigger] t.in_head(kind).0.placed(source, markup),
{
    broadcast use {
        keeps_places_char_here,
        keeps_places_in_head_anything_else,
        keeps_places_comment_here,
        keeps_places_instruction_here,
        keeps_places_error,
        keeps_places_in_head_start,
        keeps_places_in_head_end,
    };

    reveal(BuilderModel::in_head);
}

pub broadcast proof fn keeps_places_in_head_start(
    t: BuilderModel,
    tag: TagModel,
    source: Places,
    markup: bool,
)
    requires
        t.placed(source, markup),
        markup,
    ensures
        #[trigger] t.in_head_start(tag).0.placed(source, markup),
{
    broadcast use {
        keeps_places_html_in_body,
        keeps_places_head_content,
        keeps_places_insert_here,
        keeps_places_set_mode,
        keeps_places_error,
        keeps_places_in_head_anything_else,
    };

    reveal(BuilderModel::in_head_start);
}

pub broadcast proof fn keeps_places_head_content(
    t: BuilderModel,
    tag: TagModel,
    source: Places,
    markup: bool,
)
    requires
        t.placed(source, markup),
        markup,
    ensures
        #[trigger] t.head_content(tag).0.placed(source, markup),
{
    broadcast use {
        keeps_places_insert_closed,
        keeps_places_insert_text_here,
        keeps_places_begin_template,
    };

    reveal(BuilderModel::head_content);
}

pub broadcast proof fn keeps_places_in_head_end(
    t: BuilderModel,
    tag: TagModel,
    source: Places,
    markup: bool,
)
    requires
        t.placed(source, markup),
        markup,
    ensures
        #[trigger] t.in_head_end(tag).0.placed(source, markup),
{
    broadcast use {
        keeps_places_pop,
        keeps_places_set_mode,
        keeps_places_in_head_anything_else,
        keeps_places_end_template,
        keeps_places_error,
    };

    reveal(BuilderModel::in_head_end);
}

pub broadcast proof fn keeps_places_in_head_anything_else(
    t: BuilderModel,
    source: Places,
    markup: bool,
)
    requires
        t.placed(source, markup),
    ensures
        #[trigger] t.in_head_anything_else().0.placed(source, markup),
{
    broadcast use {keeps_places_pop, keeps_places_set_mode};

    reveal(BuilderModel::in_head_anything_else);
}

pub broadcast proof fn keeps_places_in_head_noscript(
    t: BuilderModel,
    kind: TokenKindModel,
    source: Places,
    markup: bool,
)
    requires
        t.placed(source, markup),
        kind.is_markup() ==> markup,
    ensures
        #[trigger] t.in_head_noscript(kind).0.placed(source, markup),
{
    broadcast use {
        keeps_places_char_here,
        keeps_places_in_head_noscript_anything_else,
        keeps_places_comment_here,
        keeps_places_instruction_here,
        keeps_places_error,
        keeps_places_html_in_body,
        keeps_places_head_content,
        keeps_places_pop,
        keeps_places_set_mode,
    };

    reveal(BuilderModel::in_head_noscript);
}

pub broadcast proof fn keeps_places_in_head_noscript_anything_else(
    t: BuilderModel,
    source: Places,
    markup: bool,
)
    requires
        t.placed(source, markup),
    ensures
        #[trigger] t.in_head_noscript_anything_else().0.placed(source, markup),
{
    broadcast use {keeps_places_pop, keeps_places_set_mode};

    reveal(BuilderModel::in_head_noscript_anything_else);
}

pub broadcast proof fn keeps_places_after_head(
    t: BuilderModel,
    kind: TokenKindModel,
    source: Places,
    markup: bool,
)
    requires
        t.placed(source, markup),
        kind.is_markup() ==> markup,
    ensures
        #[trigger] t.after_head(kind).0.placed(source, markup),
{
    broadcast use {
        keeps_places_char_here,
        keeps_places_after_head_anything_else,
        keeps_places_comment_here,
        keeps_places_instruction_here,
        keeps_places_error,
        keeps_places_html_in_body,
        keeps_places_insert_here,
        keeps_places_set_mode,
        keeps_places_push_head,
        keeps_places_head_content,
        keeps_places_remove_head,
        keeps_places_end_template,
    };

    reveal(BuilderModel::after_head);
}

pub broadcast proof fn keeps_places_after_head_anything_else(
    t: BuilderModel,
    source: Places,
    markup: bool,
)
    requires
        t.placed(source, markup),
    ensures
        #[trigger] t.after_head_anything_else().0.placed(source, markup),
{
    broadcast use {keeps_places_insert_html_element, keeps_places_set_mode};

    reveal(BuilderModel::after_head_anything_else);
}

pub broadcast proof fn keeps_places_in_body(
    t: BuilderModel,
    kind: TokenKindModel,
    source: Places,
    markup: bool,
)
    requires
        t.placed(source, markup),
        kind.is_markup() ==> markup,
    ensures
        #[trigger] t.in_body(kind).0.placed(source, markup),
{
    broadcast use {
        keeps_places_in_body_char,
        keeps_places_comment_here,
        keeps_places_instruction_here,
        keeps_places_error,
        keeps_places_in_body_start,
        keeps_places_in_body_end,
        keeps_places_in_body_eof,
    };

    reveal(BuilderModel::in_body);
}

pub broadcast proof fn keeps_places_in_body_char(
    t: BuilderModel,
    c: char,
    source: Places,
    markup: bool,
)
    requires
        t.placed(source, markup),
    ensures
        #[trigger] t.in_body_char(c).0.placed(source, markup),
{
    broadcast use {
        keeps_places_reconstruct_formatting,
        keeps_places_char_here,
        keeps_places_set_frameset_ok,
    };

    reveal(BuilderModel::in_body_char);
}

pub broadcast proof fn keeps_places_in_body_eof(
    t: BuilderModel,
    source: Places,
    markup: bool,
)
    requires
        t.placed(source, markup),
    ensures
        #[trigger] t.in_body_eof().0.placed(source, markup),
{
    broadcast use {keeps_places_error, keeps_places_in_template_eof};

    reveal(BuilderModel::in_body_eof);
}

pub broadcast proof fn keeps_places_in_template_eof(
    t: BuilderModel,
    source: Places,
    markup: bool,
)
    requires
        t.placed(source, markup),
    ensures
        #[trigger] t.in_template_eof().0.placed(source, markup),
{
    broadcast use {keeps_places_error, keeps_places_leave_template};

    reveal(BuilderModel::in_template_eof);
}

pub broadcast proof fn keeps_places_in_body_start(
    t: BuilderModel,
    tag: TagModel,
    source: Places,
    markup: bool,
)
    requires
        t.placed(source, markup),
        markup,
    ensures
        #[trigger] t.in_body_start(tag).0.placed(source, markup),
{
    broadcast use {
        keeps_places_html_in_body,
        keeps_places_head_content,
        keeps_places_error,
        keeps_places_set_frameset_ok,
        keeps_places_merge_attributes,
        keeps_places_detach_second,
        keeps_places_pop_to,
        keeps_places_insert_here,
        keeps_places_set_mode,
        keeps_places_start_of_block,
    };

    reveal(BuilderModel::in_body_start);
}

pub broadcast proof fn keeps_places_start_of_block(
    t: BuilderModel,
    tag: TagModel,
    source: Places,
    markup: bool,
)
    requires
        t.placed(source, markup),
        markup,
    ensures
        #[trigger] t.start_of_block(tag).0.placed(source, markup),
{
    broadcast use {
        keeps_places_close_p,
        keeps_places_insert_here,
        keeps_places_pop,
        keeps_places_set_skip_next_line_feed,
        keeps_places_set_frameset_ok,
        keeps_places_error,
        keeps_places_remember_form,
        keeps_places_close_list_item,
        keeps_places_start_of_formatting,
    };

    reveal(BuilderModel::start_of_block);
}

pub broadcast proof fn keeps_places_start_of_formatting(
    t: BuilderModel,
    tag: TagModel,
    source: Places,
    markup: bool,
)
    requires
        t.placed(source, markup),
        markup,
    ensures
        #[trigger] t.start_of_formatting(tag).0.placed(source, markup),
{
    broadcast use {
        keeps_places_generate_implied_end_tags,
        keeps_places_pop_until,
        keeps_places_insert_active,
        keeps_places_set_frameset_ok,
        keeps_places_close_active_anchor,
        keeps_places_push_formatting,
        keeps_places_reconstruct_formatting,
        keeps_places_error,
        keeps_places_adoption_agency,
        keeps_places_insert_here,
        keeps_places_push_marker,
        keeps_places_close_p,
        keeps_places_set_mode,
        keeps_places_start_of_void,
    };

    reveal(BuilderModel::start_of_formatting);
}

pub broadcast proof fn keeps_places_start_of_void(
    t: BuilderModel,
    tag: TagModel,
    source: Places,
    markup: bool,
)
    requires
        t.placed(source, markup),
        markup,
    ensures
        #[trigger] t.start_of_void(tag).0.placed(source, markup),
{
    broadcast use {
        keeps_places_insert_void,
        keeps_places_pop_until,
        keeps_places_reconstruct_formatting,
        keeps_places_insert_closed,
        keeps_places_set_frameset_ok,
        keeps_places_close_p,
        keeps_places_generate_implied_end_tags,
        keeps_places_error,
        keeps_places_insert_text_here,
        keeps_places_set_skip_next_line_feed,
        keeps_places_start_of_control,
    };

    reveal(BuilderModel::start_of_void);
}

pub broadcast proof fn keeps_places_start_of_control(
    t: BuilderModel,
    tag: TagModel,
    source: Places,
    markup: bool,
)
    requires
        t.placed(source, markup),
        markup,
    ensures
        #[trigger] t.start_of_control(tag).0.placed(source, markup),
{
    broadcast use {
        keeps_places_error,
        keeps_places_pop_until,
        keeps_places_insert_active,
        keeps_places_set_frameset_ok,
        keeps_places_generate_implied_end_tags,
        keeps_places_pop,
        keeps_places_insert_here,
        keeps_places_reconstruct_formatting,
        keeps_places_insert_foreign_here,
        keeps_places_acknowledge_self_closing,
    };

    reveal(BuilderModel::start_of_control);
}

pub broadcast proof fn keeps_places_in_body_end(
    t: BuilderModel,
    tag: TagModel,
    source: Places,
    markup: bool,
)
    requires
        t.placed(source, markup),
        markup,
    ensures
        #[trigger] t.in_body_end(tag).0.placed(source, markup),
{
    broadcast use {
        keeps_places_end_template,
        keeps_places_error,
        keeps_places_set_mode,
        keeps_places_close_element,
        keeps_places_end_of_form,
        keeps_places_end_of_other,
    };

    reveal(BuilderModel::in_body_end);
}

pub broadcast proof fn keeps_places_end_of_form(
    t: BuilderModel,
    source: Places,
    markup: bool,
)
    requires
        t.placed(source, markup),
    ensures
        #[trigger] t.end_of_form().0.placed(source, markup),
{
    broadcast use {
        keeps_places_error,
        keeps_places_close_element,
        keeps_places_forget_form,
        keeps_places_generate_implied_end_tags,
        keeps_places_remove_form,
    };

    reveal(BuilderModel::end_of_form);
}

pub broadcast proof fn keeps_places_end_of_other(
    t: BuilderModel,
    tag: TagModel,
    source: Places,
    markup: bool,
)
    requires
        t.placed(source, markup),
        markup,
    ensures
        #[trigger] t.end_of_other(tag).0.placed(source, markup),
{
    broadcast use {
        keeps_places_error,
        keeps_places_insert_html_element,
        keeps_places_close_element,
        keeps_places_generate_implied_end_tags,
        keeps_places_pop_until_one_of,
        keeps_places_adoption_agency,
        keeps_places_clear_to_marker,
        keeps_places_insert_void,
        keeps_places_any_other_end_tag,
    };

    reveal(BuilderModel::end_of_other);
}

pub broadcast proof fn keeps_places_text(
    t: BuilderModel,
    kind: TokenKindModel,
    source: Places,
    markup: bool,
)
    requires
        t.placed(source, markup),
        kind.is_markup() ==> markup,
    ensures
        #[trigger] t.text(kind).0.placed(source, markup),
{
    broadcast use {
        keeps_places_char_here,
        keeps_places_error,
        keeps_places_pop,
        keeps_places_resume_mode,
    };

    reveal(BuilderModel::text);
}

pub broadcast proof fn keeps_places_in_table(
    t: BuilderModel,
    kind: TokenKindModel,
    source: Places,
    markup: bool,
)
    requires
        t.placed(source, markup),
        kind.is_markup() ==> markup,
    ensures
        #[trigger] t.in_table(kind).0.placed(source, markup),
{
    broadcast use {
        keeps_places_forget_held_back,
        keeps_places_suspend_mode,
        keeps_places_error,
        keeps_places_set_foster_parenting,
        keeps_places_in_body_char,
        keeps_places_comment_here,
        keeps_places_instruction_here,
        keeps_places_in_table_start,
        keeps_places_in_table_end,
        keeps_places_in_body_eof,
    };

    reveal(BuilderModel::in_table);
}

pub broadcast proof fn keeps_places_in_table_start(
    t: BuilderModel,
    tag: TagModel,
    source: Places,
    markup: bool,
)
    requires
        t.placed(source, markup),
        markup,
    ensures
        #[trigger] t.in_table_start(tag).0.placed(source, markup),
{
    broadcast use {
        keeps_places_clear_back_to,
        keeps_places_push_marker,
        keeps_places_insert_here,
        keeps_places_set_mode,
        keeps_places_insert_html_element,
        keeps_places_error,
        keeps_places_pop_until,
        keeps_places_reset_mode,
        keeps_places_head_content,
        keeps_places_insert_closed,
        keeps_places_set_foster_parenting,
        keeps_places_in_body_start,
        keeps_places_remember_form,
        keeps_places_pop,
    };

    reveal(BuilderModel::in_table_start);
}

pub broadcast proof fn keeps_places_in_table_end(
    t: BuilderModel,
    tag: TagModel,
    source: Places,
    markup: bool,
)
    requires
        t.placed(source, markup),
        markup,
    ensures
        #[trigger] t.in_table_end(tag).0.placed(source, markup),
{
    broadcast use {
        keeps_places_error,
        keeps_places_pop_until,
        keeps_places_reset_mode,
        keeps_places_end_template,
        keeps_places_set_foster_parenting,
        keeps_places_in_body_end,
    };

    reveal(BuilderModel::in_table_end);
}

pub broadcast proof fn keeps_places_in_table_text(
    t: BuilderModel,
    kind: TokenKindModel,
    source: Places,
    markup: bool,
)
    requires
        t.placed(source, markup),
        kind.is_markup() ==> markup,
    ensures
        #[trigger] t.in_table_text(kind).0.placed(source, markup),
{
    broadcast use {
        keeps_places_hold_back,
        keeps_places_release_held_back,
        keeps_places_resume_mode,
    };

    reveal(BuilderModel::in_table_text);
}

pub broadcast proof fn keeps_places_in_caption(
    t: BuilderModel,
    kind: TokenKindModel,
    source: Places,
    markup: bool,
)
    requires
        t.placed(source, markup),
        kind.is_markup() ==> markup,
    ensures
        #[trigger] t.in_caption(kind).0.placed(source, markup),
{
    broadcast use {
        keeps_places_error,
        keeps_places_close_caption,
        keeps_places_in_body_start,
        keeps_places_in_body_end,
        keeps_places_in_body,
    };

    reveal(BuilderModel::in_caption);
}

pub broadcast proof fn keeps_places_in_column_group(
    t: BuilderModel,
    kind: TokenKindModel,
    source: Places,
    markup: bool,
)
    requires
        t.placed(source, markup),
        kind.is_markup() ==> markup,
    ensures
        #[trigger] t.in_column_group(kind).0.placed(source, markup),
{
    broadcast use {
        keeps_places_char_here,
        keeps_places_leave_column_group,
        keeps_places_comment_here,
        keeps_places_instruction_here,
        keeps_places_error,
        keeps_places_html_in_body,
        keeps_places_insert_closed,
        keeps_places_begin_template,
        keeps_places_pop,
        keeps_places_set_mode,
        keeps_places_end_template,
        keeps_places_in_body_eof,
    };

    reveal(BuilderModel::in_column_group);
}

pub broadcast proof fn keeps_places_in_table_body(
    t: BuilderModel,
    kind: TokenKindModel,
    source: Places,
    markup: bool,
)
    requires
        t.placed(source, markup),
        kind.is_markup() ==> markup,
    ensures
        #[trigger] t.in_table_body(kind).0.placed(source, markup),
{
    broadcast use {
        keeps_places_clear_back_to,
        keeps_places_insert_here,
        keeps_places_set_mode,
        keeps_places_insert_html_element,
        keeps_places_error,
        keeps_places_leave_table_body,
        keeps_places_in_table_start,
        keeps_places_pop,
        keeps_places_in_table_end,
        keeps_places_in_table,
    };

    reveal(BuilderModel::in_table_body);
}

pub broadcast proof fn keeps_places_leave_table_body(
    t: BuilderModel,
    source: Places,
    markup: bool,
)
    requires
        t.placed(source, markup),
    ensures
        #[trigger] t.leave_table_body().0.placed(source, markup),
{
    broadcast use {keeps_places_clear_back_to, keeps_places_pop, keeps_places_set_mode};

    reveal(BuilderModel::leave_table_body);
}

pub broadcast proof fn keeps_places_in_row(
    t: BuilderModel,
    kind: TokenKindModel,
    source: Places,
    markup: bool,
)
    requires
        t.placed(source, markup),
        kind.is_markup() ==> markup,
    ensures
        #[trigger] t.in_row(kind).0.placed(source, markup),
{
    broadcast use {
        keeps_places_clear_back_to,
        keeps_places_insert_here,
        keeps_places_set_mode,
        keeps_places_push_marker,
        keeps_places_error,
        keeps_places_leave_row,
        keeps_places_in_table_start,
        keeps_places_pop,
        keeps_places_in_table_end,
        keeps_places_in_table,
    };

    reveal(BuilderModel::in_row);
}

pub broadcast proof fn keeps_places_leave_row(
    t: BuilderModel,
    source: Places,
    markup: bool,
)
    requires
        t.placed(source, markup),
    ensures
        #[trigger] t.leave_row().0.placed(source, markup),
{
    broadcast use {keeps_places_clear_back_to, keeps_places_pop, keeps_places_set_mode};

    reveal(BuilderModel::leave_row);
}

pub broadcast proof fn keeps_places_in_cell(
    t: BuilderModel,
    kind: TokenKindModel,
    source: Places,
    markup: bool,
)
    requires
        t.placed(source, markup),
        kind.is_markup() ==> markup,
    ensures
        #[trigger] t.in_cell(kind).0.placed(source, markup),
{
    broadcast use {
        keeps_places_close_cell,
        keeps_places_in_body_start,
        keeps_places_error,
        keeps_places_close_element,
        keeps_places_clear_to_marker,
        keeps_places_set_mode,
        keeps_places_in_body_end,
        keeps_places_in_body,
    };

    reveal(BuilderModel::in_cell);
}

pub broadcast proof fn keeps_places_leave_column_group(
    t: BuilderModel,
    kind: ParseErrorKind,
    source: Places,
    markup: bool,
)
    requires
        t.placed(source, markup),
    ensures
        #[trigger] t.leave_column_group(kind).0.placed(source, markup),
{
    broadcast use {keeps_places_error, keeps_places_pop, keeps_places_set_mode};

    reveal(BuilderModel::leave_column_group);
}

pub proof fn keeps_places_insert_held_back(
    t: BuilderModel,
    tokens: Seq<(char, Position)>,
    i: int,
    foster: bool,
    source: Places,
    markup: bool,
)
    requires
        t.placed(source, markup),
        !markup,
        forall|j: int| 0 <= j < tokens.len() ==> source.holds((#[trigger] tokens[j]).1),
    ensures
        t.insert_held_back(tokens, i, foster).placed(source, markup),
    decreases tokens.len() - i,
{
    broadcast use {
        keeps_places_at,
        keeps_places_set_foster_parenting,
        keeps_places_in_body_char,
        keeps_places_char_here,
    };

    if 0 <= i < tokens.len() {
        assert(source.holds(tokens[i].1));
        let u = t.at(tokens[i].1);
        let v = if foster {
            u.set_foster_parenting(true).in_body_char(tokens[i].0).0.set_foster_parenting(false)
        } else {
            u.char_here(tokens[i].0)
        };
        assert(v.placed(source, markup));
        keeps_places_insert_held_back(v, tokens, i + 1, foster, source, markup);
    }
}

pub broadcast proof fn keeps_places_release_held_back(
    t: BuilderModel,
    source: Places,
    markup: bool,
)
    requires
        t.placed(source, markup),
    ensures
        #[trigger] t.release_held_back().placed(source, markup),
{
    reveal(BuilderModel::release_held_back);
    let tokens = t.pending_table_character_tokens;
    let u = t.forget_held_back();
    assert(u.placed(source, false)) by {
        reveal(BuilderModel::placed);
    }
    assert(forall|i: int| 0 <= i < tokens.len() ==> source.holds((#[trigger] tokens[i]).1)) by {
        reveal(BuilderModel::placed);
    }
    let v = match first_visible(tokens, 0) {
        Some(position) => {
            lemma_first_visible(tokens, 0);
            let w = u.error_at(ParseErrorKind::NonSpaceCharactersInTable, position);
            keeps_places_error_at(
                u,
                ParseErrorKind::NonSpaceCharactersInTable,
                position,
                source,
                false,
            );
            keeps_places_insert_held_back(w, tokens, 0, true, source, false);
            w.insert_held_back(tokens, 0, true)
        },
        None => {
            keeps_places_insert_held_back(u, tokens, 0, false, source, false);
            u.insert_held_back(tokens, 0, false)
        },
    };
    assert(v.placed(source, false));
    reveal(BuilderModel::placed);
}

pub broadcast proof fn keeps_places_in_template(
    t: BuilderModel,
    kind: TokenKindModel,
    source: Places,
    markup: bool,
)
    requires
        t.placed(source, markup),
        kind.is_markup() ==> markup,
    ensures
        #[trigger] t.in_template(kind).0.placed(source, markup),
{
    broadcast use {
        keeps_places_head_content,
        keeps_places_pop_template_mode,
        keeps_places_push_template_mode,
        keeps_places_set_mode,
        keeps_places_end_template,
        keeps_places_error,
        keeps_places_in_template_eof,
        keeps_places_in_body,
    };

    reveal(BuilderModel::in_template);
}

pub broadcast proof fn keeps_places_after_body(
    t: BuilderModel,
    kind: TokenKindModel,
    source: Places,
    markup: bool,
)
    requires
        t.placed(source, markup),
        kind.is_markup() ==> markup,
    ensures
        #[trigger] t.after_body(kind).0.placed(source, markup),
{
    broadcast use {
        keeps_places_in_body_char,
        keeps_places_back_to_body,
        keeps_places_comment_to_html,
        keeps_places_instruction_to_html,
        keeps_places_error,
        keeps_places_html_in_body,
        keeps_places_set_mode,
    };

    reveal(BuilderModel::after_body);
}

pub broadcast proof fn keeps_places_back_to_body(
    t: BuilderModel,
    source: Places,
    markup: bool,
)
    requires
        t.placed(source, markup),
    ensures
        #[trigger] t.back_to_body().0.placed(source, markup),
{
    broadcast use {keeps_places_error, keeps_places_set_mode};

    reveal(BuilderModel::back_to_body);
}

pub broadcast proof fn keeps_places_after_after_body(
    t: BuilderModel,
    kind: TokenKindModel,
    source: Places,
    markup: bool,
)
    requires
        t.placed(source, markup),
        kind.is_markup() ==> markup,
    ensures
        #[trigger] t.after_after_body(kind).0.placed(source, markup),
{
    broadcast use {
        keeps_places_in_body_char,
        keeps_places_back_to_body,
        keeps_places_comment_to_document,
        keeps_places_instruction_to_document,
        keeps_places_error,
        keeps_places_html_in_body,
    };

    reveal(BuilderModel::after_after_body);
}

pub broadcast proof fn keeps_places_in_frameset(
    t: BuilderModel,
    kind: TokenKindModel,
    source: Places,
    markup: bool,
)
    requires
        t.placed(source, markup),
        kind.is_markup() ==> markup,
    ensures
        #[trigger] t.in_frameset(kind).0.placed(source, markup),
{
    broadcast use {
        keeps_places_char_here,
        keeps_places_comment_here,
        keeps_places_instruction_here,
        keeps_places_error,
        keeps_places_html_in_body,
        keeps_places_insert_here,
        keeps_places_insert_closed,
        keeps_places_head_content,
        keeps_places_pop,
        keeps_places_set_mode,
    };

    reveal(BuilderModel::in_frameset);
}

pub broadcast proof fn keeps_places_after_frameset(
    t: BuilderModel,
    kind: TokenKindModel,
    source: Places,
    markup: bool,
)
    requires
        t.placed(source, markup),
        kind.is_markup() ==> markup,
    ensures
        #[trigger] t.after_frameset(kind).0.placed(source, markup),
{
    broadcast use {
        keeps_places_char_here,
        keeps_places_comment_here,
        keeps_places_instruction_here,
        keeps_places_error,
        keeps_places_html_in_body,
        keeps_places_head_content,
        keeps_places_set_mode,
    };

    reveal(BuilderModel::after_frameset);
}

pub broadcast proof fn keeps_places_after_after_frameset(
    t: BuilderModel,
    kind: TokenKindModel,
    source: Places,
    markup: bool,
)
    requires
        t.placed(source, markup),
        kind.is_markup() ==> markup,
    ensures
        #[trigger] t.after_after_frameset(kind).0.placed(source, markup),
{
    broadcast use {
        keeps_places_in_body_char,
        keeps_places_comment_to_document,
        keeps_places_instruction_to_document,
        keeps_places_error,
        keeps_places_html_in_body,
        keeps_places_head_content,
    };

    reveal(BuilderModel::after_after_frameset);
}

pub broadcast proof fn keeps_places_pop_out_of_foreign_content(
    t: BuilderModel,
    source: Places,
    markup: bool,
)
    requires
        t.placed(source, markup),
    ensures
        #[trigger] t.pop_out_of_foreign_content().placed(source, markup),
{
    broadcast use keeps_places_pop_to;

}

pub broadcast proof fn keeps_places_insert_alike_here(
    t: BuilderModel,
    tag: TagModel,
    source: Places,
    markup: bool,
)
    requires
        t.placed(source, markup),
        markup,
    ensures
        #[trigger] t.insert_alike_here(tag).placed(source, markup),
{
    broadcast use {
        keeps_places_insert_foreign_here,
        keeps_places_acknowledge_self_closing,
        keeps_places_pop,
    };

    reveal(BuilderModel::insert_alike_here);
}

pub broadcast proof fn keeps_places_in_foreign(
    t: BuilderModel,
    kind: TokenKindModel,
    source: Places,
    markup: bool,
)
    requires
        t.placed(source, markup),
        kind.is_markup() ==> markup,
    ensures
        #[trigger] t.in_foreign(kind).0.placed(source, markup),
{
    broadcast use {
        keeps_places_char_here,
        keeps_places_set_frameset_ok,
        keeps_places_comment_here,
        keeps_places_instruction_here,
        keeps_places_error,
        keeps_places_pop_out_of_foreign_content,
        keeps_places_by_mode,
        keeps_places_insert_alike_here,
        keeps_places_pop,
        keeps_places_pop_to,
    };

    reveal(BuilderModel::in_foreign);
}

pub broadcast proof fn keeps_places_by_mode(
    t: BuilderModel,
    kind: TokenKindModel,
    source: Places,
    markup: bool,
)
    requires
        t.placed(source, markup),
        kind.is_markup() ==> markup,
    ensures
        #[trigger] t.by_mode(kind).0.placed(source, markup),
{
    broadcast use {
        keeps_places_initial,
        keeps_places_before_html,
        keeps_places_before_head,
        keeps_places_in_head,
        keeps_places_in_head_noscript,
        keeps_places_after_head,
        keeps_places_in_body,
        keeps_places_text,
        keeps_places_in_table,
        keeps_places_in_table_text,
        keeps_places_in_caption,
        keeps_places_in_column_group,
        keeps_places_in_table_body,
        keeps_places_in_row,
        keeps_places_in_cell,
        keeps_places_in_template,
        keeps_places_after_body,
        keeps_places_in_frameset,
        keeps_places_after_frameset,
        keeps_places_after_after_body,
        keeps_places_after_after_frameset,
    };

    reveal(BuilderModel::by_mode);
}

pub broadcast proof fn keeps_places_step(
    t: BuilderModel,
    kind: TokenKindModel,
    source: Places,
    markup: bool,
)
    requires
        t.placed(source, markup),
        kind.is_markup() ==> markup,
    ensures
        #[trigger] t.step(kind).0.placed(source, markup),
{
    broadcast use {keeps_places_in_foreign, keeps_places_by_mode};

}

pub proof fn keeps_places_run(
    t: BuilderModel,
    kind: TokenKindModel,
    source: Places,
    markup: bool,
)
    requires
        t.placed(source, markup),
        kind.is_markup() ==> markup,
    ensures
        t.run(kind).0.placed(source, markup),
    decreases
            phase(t.insertion_mode, kind),
            t.open_tables(),
            t.open_elements.len() + rank(t.insertion_mode, kind),
{
    keeps_places_step(t, kind, source, markup);
    match t.step(kind) {
        (next, TokenOutcome::Reprocess) => {
            if t.advances(next, kind) {
                keeps_places_run(next, kind, source, markup);
            }
        },
        _ => {},
    }
}

pub broadcast proof fn keeps_places_stop(
    t: BuilderModel,
    source: Places,
    markup: bool,
)
    requires
        t.placed(source, markup),
    ensures
        #[trigger] t.stop().placed(source, markup),
{
    broadcast use keeps_places_pop_to;

}

/// Handling a token leaves every position at a place of the source.
pub proof fn lemma_process_keeps_places(
    t: BuilderModel,
    kind: TokenKindModel,
    position: Position,
    source: Places,
)
    requires
        t.placed(source, false),
        source.holds(position),
        kind.is_markup() ==> source.holds_markup(position),
    ensures
        t.process(kind, position).0.placed(source, false),
{
    reveal(BuilderModel::process);
    let u = t.begin_token(position);
    let markup = kind.is_markup();
    assert(u.placed(source, markup)) by {
        reveal(BuilderModel::placed);
    }
    keeps_places_run(u, kind, source, markup);
    let v = u.run(kind).0;
    keeps_places_error(
        v,
        ParseErrorKind::NonVoidHtmlElementStartTagWithTrailingSolidus,
        source,
        markup,
    );
    reveal(BuilderModel::placed);
}

/// A new tree builder has nothing out of place.
pub proof fn lemma_new_builder_placed(source: Places)
    requires
        source.holds(new_builder().token_position),
    ensures
        new_builder().placed(source, false),
{
    reveal(BuilderModel::placed);
}

} // verus!
