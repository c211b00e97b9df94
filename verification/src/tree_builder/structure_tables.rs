//! The rules for tables, for templates, for foreign content and for what follows the
//! `body` element keep the structure of the document.
use vstd::prelude::*;

use crate::document::model::{DocumentModel, NodeId};
use crate::token::{plain_tag, ParseErrorKind, Position, TagModel, TokenKindModel};
use crate::tree_builder::elements::{html_name, tag_of, Group, Scope};
use crate::tree_builder::model::{BuilderModel, InsertionMode};
use crate::tree_builder::modes::foreign::{foreign_end, length_without_foreign, ForeignEnd};
use crate::tree_builder::names::{
    in_cells, in_table_sections, svg_tag, HTML_NAMESPACE, SVG_NAMESPACE,
};
use crate::tree_builder::parts::{
    lemma_cells, lemma_misplaced, lemma_other_names_1, lemma_other_names_2, lemma_other_names_4,
    lemma_part_groups, lemma_part_named, lemma_part_names, lemma_table_sections, part_named,
    part_of, Part,
};
use crate::tree_builder::stack::last_named;
use crate::tree_builder::steps::first_visible;
use crate::tree_builder::structure::{
    complete, entry_fits, holds_part, inner_fits, lemma_bodied_is_complete, loose_from, mode_fits,
    part_at, rooted, structural, template_mode_fits,
};
use crate::tree_builder::structure_closing::{
    held_begin_template, held_end_template, held_set_foster_parenting, lemma_group_reaches,
    live_close_cell, live_close_part, live_is_held, live_leave_columns, live_leave_context,
    live_pop, live_set_mode,
};
use crate::tree_builder::structure_modes::{
    lemma_clear_back, lemma_cut, lemma_enter, lemma_reset_mode,
};
use crate::tree_builder::structure_rules::{
    held_head_content, held_in_body, held_in_body_end, held_in_body_eof, held_in_body_start,
    held_in_template_eof, lemma_foreign_opened, lemma_in_body_char_mode, live_html_in_body,
    live_in_body_char,
};
use crate::tree_builder::structure_steps::{
    lemma_error_reaches, lemma_frame_pop, lemma_grounded, lemma_in_scope_reaches,
    lemma_last_named_is_last, lemma_live_pop_to, lemma_pop_until_length, live_append_to_document,
    live_append_to_html, live_at, live_char_here, live_error, live_error_at, live_forget_held_back,
    live_hold_back, live_insert_closed, live_insert_here, live_insert_node, live_push_marker,
    live_remember_form, live_set_foster_parenting, live_set_frameset_ok,
};

verus! {

broadcast use {
    lemma_error_reaches,
    lemma_in_scope_reaches,
    held_begin_template,
    held_end_template,
    held_head_content,
    held_in_body,
    held_in_body_end,
    held_in_body_eof,
    held_in_body_start,
    held_in_template_eof,
    held_set_foster_parenting,
    live_append_to_document,
    live_append_to_html,
    live_at,
    live_char_here,
    live_close_cell,
    live_error,
    live_error_at,
    live_forget_held_back,
    live_hold_back,
    live_html_in_body,
    live_in_body_char,
    live_insert_closed,
    live_insert_here,
    live_insert_node,
    live_is_held,
    live_pop,
    live_push_marker,
    live_remember_form,
    live_set_foster_parenting,
    live_set_frameset_ok,
};

// ---- Clearing the stack ----

/// The modes of tables.
pub open spec fn table_mode(mode: InsertionMode) -> bool {
    mode is InTable || mode is InTableBody || mode is InRow
}

/// What is left when the stack is cleared.
spec fn cleared(u: BuilderModel, part: Part) -> bool {
    let n = u.open_elements.len() - 1;
    u.small() ==> {
        &&& u.sturdy()
        &&& rooted(u.document, u.open_elements)
        &&& part_at(u.document, u.open_elements, n) == part || part_at(
            u.document,
            u.open_elements,
            n,
        ) is Template
    }
}

/// The stack is cleared back to what the mode says is there.
proof fn lemma_cleared_back(t: BuilderModel, group: Group)
    requires
        t.live(),
        match group {
            Group::TableContext => table_mode(t.insertion_mode),
            Group::TableBodyContext => t.insertion_mode is InTableBody,
            Group::TableRowContext => t.insertion_mode is InRow,
            _ => false,
        },
    ensures
        cleared(
            t.clear_back_to(group),
            match group {
                Group::TableContext => Part::Table,
                Group::TableBodyContext => Part::Section,
                _ => Part::Row,
            },
        ),
{
    let d = t.document;
    let stack = t.open_elements;
    let own = match group {
        Group::TableContext => Part::Table,
        Group::TableBodyContext => Part::Section,
        _ => Part::Row,
    };
    let i = if t.small() {
        assert(t.sturdy() && rooted(d, stack) && mode_fits(
            d,
            stack,
            t.head(),
            t.insertion_mode,
        )) by {
            reveal(BuilderModel::live);
        }
        if group is TableContext && !holds_part(d, stack, Part::Table) && !holds_part(
            d,
            stack,
            Part::Template,
        ) {
            let part = if t.insertion_mode is InTableBody {
                Part::Section
            } else {
                Part::Row
            };
            let k = choose|k: int|
                1 <= k < stack.len() && #[trigger] part_at(d, stack, k) == part;
            lemma_grounded(d, stack, t.head(), k);
        }
        let part = if holds_part(d, stack, own) {
            own
        } else {
            Part::Template
        };
        assert(holds_part(d, stack, part));
        let i = choose|i: int| 1 <= i < stack.len() && #[trigger] part_at(d, stack, i) == part;
        lemma_part_groups(d.kind(stack[i]));
        i
    } else {
        0int
    };
    lemma_clear_back(t, group, i);
    let u = t.clear_back_to(group);
    if u.small() {
        let n = u.open_elements.len() as int;
        lemma_part_groups(d.kind(stack[n - 1]));
        if n - 1 >= 2 {
            assert(inner_fits(d, stack, n - 1));
        }
        assert(!(part_at(d, stack, n - 1) is Html));
    }
}

proof fn lemma_cleared_marker(u: BuilderModel, part: Part)
    requires
        cleared(u, part),
    ensures
        cleared(u.push_marker(), part),
{
    if u.small() {
        let v = u.push_marker();
        assert forall|i: int| 0 <= i < v.formatting.len() implies entry_fits(
            v.document,
            #[trigger] v.formatting[i],
        ) by {
            if i < u.formatting.len() {
                assert(entry_fits(u.document, u.formatting[i]));
            }
        }
    }
}

/// A part of a table is opened where the stack was cleared.
proof fn live_enter(
    u: BuilderModel,
    outer: Part,
    tag: TagModel,
    position: Option<Position>,
    mode: InsertionMode,
)
    requires
        cleared(u, outer),
        match part_named(tag.name) {
            Part::Caption => outer is Table && mode is InCaption,
            Part::Columns => outer is Table && mode is InColumnGroup,
            Part::Section => outer is Table && mode is InTableBody,
            Part::Row => outer is Section && mode is InRow,
            Part::Cell => outer is Row && mode is InCell,
            _ => false,
        },
    ensures
        u.insert_html_element(tag, position).set_mode(mode).live(),
{
    lemma_enter(u, tag, position, mode);
}

/// A table is closed.
proof fn live_close_table(t: BuilderModel)
    requires
        t.live(),
        t.reaches("table"@),
    ensures
        t.pop_until("table"@).reset_mode().live(),
{
    let d = t.document;
    let stack = t.open_elements;
    lemma_part_names();
    let i = choose|i: int| #[trigger] t.reaches_at("table"@, i);
    lemma_last_named_is_last(d, stack, "table"@, i);
    let k = last_named(d, stack, "table"@)->0;
    let u = t.pop_until("table"@);
    lemma_pop_until_length(t, "table"@);
    if u.small() {
        assert(t.sturdy() && rooted(d, stack)) by {
            reveal(BuilderModel::live);
        }
        assert(part_at(d, stack, k) is Table);
        assert(k >= 2);
        lemma_cut(t, k);
        assert(part_at(u.document, u.open_elements, 1) == part_at(d, stack, 1));
        if k >= 3 {
            assert(part_at(u.document, u.open_elements, 2) == part_at(d, stack, 2));
        }
        lemma_reset_mode(u);
    }
    reveal(BuilderModel::live);
}

// ---- The modes of tables ----

pub broadcast proof fn held_in_table_start(t: BuilderModel, tag: TagModel)
    requires
        t.live(),
        table_mode(t.insertion_mode),
    ensures
        #[trigger] t.in_table_start(tag).0.held(),
{
    reveal(BuilderModel::in_table_start);
    let here = Some(t.token_position);
    let u = t.clear_back_to(Group::TableContext);
    lemma_cleared_back(t, Group::TableContext);
    lemma_cleared_marker(u, Part::Table);
    lemma_part_names();
    lemma_table_sections(tag.name);
    lemma_other_names_1();
    lemma_other_names_2();
    lemma_clear_position(t, Group::TableContext);
    if tag.name == "caption"@ {
        live_enter(u.push_marker(), Part::Table, tag, here, InsertionMode::InCaption);
    } else if tag.name == "colgroup"@ {
        live_enter(u, Part::Table, tag, here, InsertionMode::InColumnGroup);
    } else if tag.name == "col"@ {
        live_enter(u, Part::Table, plain_tag("colgroup"@), None, InsertionMode::InColumnGroup);
    } else if in_table_sections(tag.name) {
        live_enter(u, Part::Table, tag, here, InsertionMode::InTableBody);
    } else if tag.name == "td"@ || tag.name == "th"@ || tag.name == "tr"@ {
        live_enter(u, Part::Table, plain_tag("tbody"@), None, InsertionMode::InTableBody);
    } else if tag.name == "table"@ {
        let v = t.error(ParseErrorKind::StartTagTableInTable);
        if v.in_specific_scope("table"@, Scope::Table) {
            live_close_table(v);
        }
    } else if tag.name == "form"@ {
        let v = t.error(ParseErrorKind::MisplacedTokenInTable);
        live_insert_here(v, tag);
        let w = v.insert_here(tag).remember_form();
        assert(w.live());
        assert(w.small() ==> part_of(w.current_kind()) is Other);
    }
}

/// Clearing the stack leaves the position of the token alone.
proof fn lemma_clear_position(t: BuilderModel, group: Group)
    ensures
        t.clear_back_to(group).token_position == t.token_position,
{
    assert forall|n: int| (#[trigger] t.pop_to(n)).token_position == t.token_position by {
        lemma_pop_to_position(t, n);
    }
}

proof fn lemma_pop_to_position(t: BuilderModel, n: int)
    ensures
        t.pop_to(n).token_position == t.token_position,
    decreases t.open_elements.len(),
{
    reveal(BuilderModel::pop_to);
    if t.open_elements.len() > 0 && t.open_elements.len() > n {
        lemma_pop_to_position(t.pop(), n);
    }
}

pub broadcast proof fn held_in_table_end(t: BuilderModel, tag: TagModel)
    requires
        t.live(),
        table_mode(t.insertion_mode),
    ensures
        #[trigger] t.in_table_end(tag).0.held(),
{
    reveal(BuilderModel::in_table_end);
    lemma_part_named(tag.name);
    lemma_misplaced();
    if tag.name == "table"@ && t.in_specific_scope("table"@, Scope::Table) {
        live_close_table(t);
    }
}

pub broadcast proof fn held_in_table(t: BuilderModel, kind: TokenKindModel)
    requires
        t.live(),
        table_mode(t.insertion_mode),
    ensures
        #[trigger] t.in_table(kind).0.held(),
{
    broadcast use {held_in_table_start, held_in_table_end};

    reveal(BuilderModel::in_table);
    let u = t.forget_held_back().suspend_mode(InsertionMode::InTableText);
    assert(u.live()) by {
        reveal(BuilderModel::live);
    }
}

proof fn live_insert_held_back(
    t: BuilderModel,
    tokens: Seq<(char, Position)>,
    i: int,
    foster: bool,
)
    requires
        t.live(),
    ensures
        t.insert_held_back(tokens, i, foster).live(),
        t.insert_held_back(tokens, i, foster).insertion_mode == t.insertion_mode,
    decreases tokens.len() - i,
{
    if 0 <= i < tokens.len() {
        let u = t.at(tokens[i].1);
        let c = tokens[i].0;
        lemma_in_body_char_mode(u, c);
        lemma_in_body_char_mode(u.set_foster_parenting(true), c);
        let v = if foster {
            u.set_foster_parenting(true).in_body_char(c).0.set_foster_parenting(false)
        } else {
            u.char_here(c)
        };
        assert(v.live());
        live_insert_held_back(v, tokens, i + 1, foster);
    }
}

pub proof fn held_in_table_text(t: BuilderModel, kind: TokenKindModel)
    requires
        t.live(),
        t.insertion_mode is InTableText,
    ensures
        t.in_table_text(kind).0.held(),
{
    reveal(BuilderModel::in_table_text);
    reveal(BuilderModel::release_held_back);
    let tokens = t.pending_table_character_tokens;
    let u = t.forget_held_back();
    match first_visible(tokens, 0) {
        Some(position) => {
            live_insert_held_back(
                u.error_at(ParseErrorKind::NonSpaceCharactersInTable, position),
                tokens,
                0,
                true,
            );
        },
        None => {
            live_insert_held_back(u, tokens, 0, false);
        },
    }
    let v = t.release_held_back();
    assert(v.live());
    assert(v.resume_mode().live()) by {
        reveal(BuilderModel::live);
    }
}

/// The caption is closed.
proof fn live_close_caption(t: BuilderModel)
    requires
        t.live(),
        t.in_specific_scope("caption"@, Scope::Table),
    ensures
        t.close_caption().live(),
{
    reveal(BuilderModel::close_caption);
    lemma_part_names();
    live_close_part(t, "caption"@, InsertionMode::InTable);
}

pub proof fn held_in_caption(t: BuilderModel, kind: TokenKindModel)
    requires
        t.live(),
        t.insertion_mode is InCaption,
    ensures
        t.in_caption(kind).0.held(),
{
    reveal(BuilderModel::in_caption);
    if t.in_specific_scope("caption"@, Scope::Table) {
        live_close_caption(t);
    }
}

pub proof fn held_in_column_group(t: BuilderModel, kind: TokenKindModel)
    requires
        t.live(),
        t.insertion_mode is InColumnGroup,
    ensures
        t.in_column_group(kind).0.held(),
{
    reveal(BuilderModel::in_column_group);
    reveal(BuilderModel::leave_column_group);
    lemma_other_names_4();
    if t.current_is("colgroup"@) {
        live_leave_columns(t);
    }
}

pub proof fn held_in_table_body(t: BuilderModel, kind: TokenKindModel)
    requires
        t.live(),
        t.insertion_mode is InTableBody,
    ensures
        t.in_table_body(kind).0.held(),
{
    broadcast use {held_in_table_start, held_in_table_end, held_in_table};

    reveal(BuilderModel::in_table_body);
    reveal(BuilderModel::leave_table_body);
    let u = t.clear_back_to(Group::TableBodyContext);
    lemma_cleared_back(t, Group::TableBodyContext);
    lemma_clear_position(t, Group::TableBodyContext);
    lemma_part_names();
    if t.group_in_specific_scope(Group::TableSections, Scope::Table) {
        let i = lemma_group_reaches(t, Group::TableSections, Scope::Table);
        lemma_part_groups(t.document.kind(t.open_elements[i]));
        assert(t.small() ==> i >= 1) by {
            reveal(BuilderModel::live);
        }
        live_leave_context(t, Group::TableBodyContext, i, InsertionMode::InTable);
    }
    match kind {
        TokenKindModel::StartTag(tag) => {
            if tag.name == "tr"@ {
                live_enter(
                    u,
                    Part::Section,
                    tag,
                    Some(t.token_position),
                    InsertionMode::InRow,
                );
            } else if tag.name == "th"@ || tag.name == "td"@ {
                live_enter(u, Part::Section, plain_tag("tr"@), None, InsertionMode::InRow);
            }
        },
        TokenKindModel::EndTag(tag) => {
            lemma_table_sections(tag.name);
            if in_table_sections(tag.name) && t.in_specific_scope(tag.name, Scope::Table) {
                let i = choose|i: int| #[trigger] t.reaches_at(tag.name, i);
                assert(t.small() ==> i >= 1) by {
                    reveal(BuilderModel::live);
                }
                live_leave_context(t, Group::TableBodyContext, i, InsertionMode::InTable);
            }
        },
        _ => {},
    }
}

/// The open row is closed.
proof fn live_leave_row(t: BuilderModel)
    requires
        t.live(),
        t.in_specific_scope("tr"@, Scope::Table),
    ensures
        t.clear_back_to(Group::TableRowContext).pop().set_mode(InsertionMode::InTableBody).live(),
{
    lemma_part_names();
    let i = choose|i: int| #[trigger] t.reaches_at("tr"@, i);
    assert(t.small() ==> i >= 1) by {
        reveal(BuilderModel::live);
    }
    live_leave_context(t, Group::TableRowContext, i, InsertionMode::InTableBody);
}

pub proof fn held_in_row(t: BuilderModel, kind: TokenKindModel)
    requires
        t.live(),
        t.insertion_mode is InRow,
    ensures
        t.in_row(kind).0.held(),
{
    broadcast use {held_in_table_start, held_in_table_end, held_in_table};

    reveal(BuilderModel::in_row);
    reveal(BuilderModel::leave_row);
    let u = t.clear_back_to(Group::TableRowContext);
    lemma_cleared_back(t, Group::TableRowContext);
    lemma_clear_position(t, Group::TableRowContext);
    lemma_part_names();
    if t.in_specific_scope("tr"@, Scope::Table) {
        live_leave_row(t);
    }
    match kind {
        TokenKindModel::StartTag(tag) => {
            if tag.name == "th"@ || tag.name == "td"@ {
                live_enter(u, Part::Row, tag, Some(t.token_position), InsertionMode::InCell);
            }
        },
        _ => {},
    }
}

pub proof fn held_in_cell(t: BuilderModel, kind: TokenKindModel)
    requires
        t.live(),
        t.insertion_mode is InCell,
    ensures
        t.in_cell(kind).0.held(),
{
    reveal(BuilderModel::in_cell);
    match kind {
        TokenKindModel::EndTag(tag) => {
            lemma_cells(tag.name);
            lemma_part_named(tag.name);
            lemma_misplaced();
            if in_cells(tag.name) && t.in_specific_scope(tag.name, Scope::Table) {
                live_close_part(t, tag.name, InsertionMode::InRow);
            }
        },
        _ => {},
    }
}

// ---- Templates, and after the body ----

/// A template is in another mode.
proof fn live_template_mode(t: BuilderModel, mode: InsertionMode)
    requires
        t.live(),
        t.insertion_mode is InTemplate,
        template_mode_fits(mode),
    ensures
        t.pop_template_mode().push_template_mode(mode).set_mode(mode).live(),
{
    reveal(BuilderModel::live);
    let u = t.pop_template_mode().push_template_mode(mode).set_mode(mode);
    if t.small() {
        let modes = u.template_insertion_modes;
        assert forall|i: int| 0 <= i < modes.len() implies template_mode_fits(
            #[trigger] modes[i],
        ) by {
            if i < modes.len() - 1 {
                assert(template_mode_fits(t.template_insertion_modes[i]));
            }
        }
        assert(u.sturdy());
    }
}

pub proof fn held_in_template(t: BuilderModel, kind: TokenKindModel)
    requires
        t.live(),
        t.insertion_mode is InTemplate,
    ensures
        t.in_template(kind).0.held(),
{
    reveal(BuilderModel::in_template);
    live_template_mode(t, InsertionMode::InTable);
    live_template_mode(t, InsertionMode::InColumnGroup);
    live_template_mode(t, InsertionMode::InTableBody);
    live_template_mode(t, InsertionMode::InRow);
    live_template_mode(t, InsertionMode::InBody);
}

/// The body is gone back to.
proof fn live_back_to_body(t: BuilderModel)
    requires
        t.live(),
    ensures
        t.back_to_body().0.live(),
{
    reveal(BuilderModel::back_to_body);
    let u = t.error(ParseErrorKind::TokenAfterBody);
    assert(u.small() ==> mode_fits(
        u.document,
        u.open_elements,
        u.head(),
        InsertionMode::InBody,
    )) by {
        reveal(BuilderModel::live);
    }
    live_set_mode(u, InsertionMode::InBody);
}

pub proof fn held_after_body(t: BuilderModel, kind: TokenKindModel)
    requires
        t.live(),
        t.insertion_mode is AfterBody,
    ensures
        t.after_body(kind).0.held(),
{
    reveal(BuilderModel::after_body);
    live_back_to_body(t);
    assert(t.small() ==> mode_fits(
        t.document,
        t.open_elements,
        t.head(),
        InsertionMode::AfterAfterBody,
    )) by {
        reveal(BuilderModel::live);
    }
    live_set_mode(t, InsertionMode::AfterAfterBody);
}

pub proof fn held_after_after_body(t: BuilderModel, kind: TokenKindModel)
    requires
        t.live(),
        t.insertion_mode is AfterAfterBody,
    ensures
        t.after_after_body(kind).0.held(),
{
    reveal(BuilderModel::after_after_body);
    live_back_to_body(t);
}

/// After the body the document is complete.
pub proof fn lemma_after_body_complete(t: BuilderModel)
    requires
        t.live(),
        t.small(),
        t.insertion_mode is AfterBody || t.insertion_mode is AfterAfterBody,
    ensures
        complete(t.document),
{
    reveal(BuilderModel::live);
    lemma_bodied_is_complete(t);
}

// ---- Foreign content ----

proof fn lemma_length_without_foreign(d: DocumentModel, stack: Seq<NodeId>)
    ensures
        ({
            let n = length_without_foreign(d, stack);
            &&& 0 <= n <= stack.len()
            &&& forall|i: int| n <= i < stack.len() ==> html_name(
                d.kind(#[trigger] stack[i]),
            ) is None
        }),
    decreases stack.len(),
{
    if stack.len() > 0 {
        let rest = stack.drop_last();
        lemma_length_without_foreign(d, rest);
        let n = length_without_foreign(d, stack);
        assert forall|i: int| n <= i < stack.len() implies html_name(
            d.kind(#[trigger] stack[i]),
        ) is None by {
            if i < rest.len() {
                assert(rest[i] == stack[i]);
            }
        }
    }
}

/// Entries outside HTML are loose.
pub proof fn lemma_foreign_loose(t: BuilderModel, n: int)
    requires
        t.live(),
        t.small(),
        0 <= n <= t.open_elements.len(),
        forall|i: int|
            n <= i < t.open_elements.len() ==> html_name(
                t.document.kind(#[trigger] t.open_elements[i]),
            ) is None,
    ensures
        loose_from(t.document, t.open_elements, n),
{
    reveal(BuilderModel::live);
    let d = t.document;
    let stack = t.open_elements;
    assert(!(part_at(d, stack, 1) is Other));
    assert(n >= 2) by {
        if n <= 1 {
            assert(html_name(d.kind(stack[1])) is None);
        }
    }
    assert forall|i: int| n <= i < stack.len() implies !structural(
        #[trigger] part_at(d, stack, i),
    ) by {
        assert(html_name(d.kind(stack[i])) is None);
    }
}

pub proof fn lemma_foreign_end(d: DocumentModel, stack: Seq<NodeId>, name: Seq<char>)
    requires
        stack.len() > 0,
        html_name(d.kind(stack.last())) is None,
    ensures
        foreign_end(d, stack, name) matches ForeignEnd::Closes(n) ==> 0 <= n < stack.len()
            && forall|i: int|
            n <= i < stack.len() ==> html_name(d.kind(#[trigger] stack[i])) is None,
    decreases stack.len(),
{
    if stack.len() > 1 && html_name(d.kind(stack[stack.len() - 2])) is None {
        let rest = stack.drop_last();
        assert(rest.last() == stack[stack.len() - 2]);
        lemma_foreign_end(d, rest, name);
        match foreign_end(d, rest, name) {
            ForeignEnd::Closes(n) => {
                assert forall|i: int| n <= i < stack.len() implies html_name(
                    d.kind(#[trigger] stack[i]),
                ) is None by {
                    if i < rest.len() {
                        assert(rest[i] == stack[i]);
                    }
                }
            },
            _ => {},
        }
    }
}

pub broadcast proof fn live_pop_out_of_foreign_content(t: BuilderModel)
    requires
        t.live(),
    ensures
        #[trigger] t.pop_out_of_foreign_content().live(),
{
    let n = length_without_foreign(t.document, t.open_elements);
    lemma_length_without_foreign(t.document, t.open_elements);
    if t.small() {
        lemma_foreign_loose(t, n);
    }
    lemma_live_pop_to(t, n);
}

pub broadcast proof fn live_insert_alike_here(t: BuilderModel, tag: TagModel)
    requires
        t.live(),
        t.in_foreign_content(),
    ensures
        #[trigger] t.insert_alike_here(tag).live(),
{
    reveal(BuilderModel::insert_alike_here);
    let namespace = t.current_namespace();
    let named = match svg_tag(tag.name) {
        Some(name) => if namespace == SVG_NAMESPACE@ {
            TagModel { name, ..tag }
        } else {
            tag
        },
        None => tag,
    };
    if t.small() {
        assert(namespace != HTML_NAMESPACE@) by {
            reveal(BuilderModel::live);
            let n = t.open_elements.len() - 1;
            assert(inside_tag(t, n));
        }
        lemma_foreign_opened(t, named, namespace);
    } else {
        reveal(BuilderModel::insert_foreign_element);
        reveal(BuilderModel::create_element);
        reveal(BuilderModel::live);
        let u = t.insert_foreign_here(named, namespace).acknowledge_self_closing();
        lemma_frame_pop(u, u.open_elements[0]);
    }
}

/// An open element has a namespace.
spec fn inside_tag(t: BuilderModel, n: int) -> bool {
    tag_of(t.document.kind(t.open_elements[n])) matches Some(tag) && tag.0 is Some
}

} // verus!
