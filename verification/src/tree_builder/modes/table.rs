//! The rules in tables.
use vstd::prelude::*;

use crate::text::{is_whitespace, str_eq};
use crate::token::{
    plain_tag, ParseErrorKind, Position, TagModel, TagToken, TokenKind, TokenKindModel,
};
use crate::tree_builder::builder::TreeBuilder;
use crate::tree_builder::elements::{Group, Scope};
use crate::tree_builder::model::{BuilderModel, InsertionMode, TokenOutcome};
use crate::tree_builder::names::{
    in_cell_closing_ends, in_cells, in_in_caption_ignored_ends, in_in_cell_ignored_ends,
    in_in_row_ignored_ends, in_in_table_body_ignored_ends, in_in_table_head_content,
    in_in_table_ignored_ends, in_row_closers, in_section_closers, in_table_parts, in_table_sections,
    is_cell_closing_ends, is_cells, is_in_caption_ignored_ends, is_in_cell_ignored_ends,
    is_in_row_ignored_ends, is_in_table_body_ignored_ends, is_in_table_head_content,
    is_in_table_ignored_ends, is_row_closers, is_section_closers, is_table_parts, is_table_sections,
};
use crate::tree_builder::progress::{comes_to_table, lemma_names_differ};
use crate::tree_builder::stack::lemma_in_scope_is_open;
use crate::tree_builder::steps::{first_visible, is_hidden, tag_is_hidden};

verus! {

impl BuilderModel {
    /// The rules in a `table` element.
    #[verifier::opaque]
    pub open spec fn in_table(self, kind: TokenKindModel) -> (Self, TokenOutcome) {
        match kind {
            TokenKindModel::Character(c) => {
                if self.current_in(Group::TableTextParents) {
                    let t = self.forget_held_back().suspend_mode(InsertionMode::InTableText);
                    (t, TokenOutcome::Reprocess)
                } else {
                    let t = self.error(ParseErrorKind::MisplacedTokenInTable);
                    let t = t.set_foster_parenting(true);
                    let (t, r) = t.in_body_char(c);
                    (t.set_foster_parenting(false), r)
                }
            },
            TokenKindModel::Comment(data) => {
                (self.comment_here(data), TokenOutcome::Consumed(None))
            },
            TokenKindModel::ProcessingInstruction(pi) => {
                (self.instruction_here(pi), TokenOutcome::Consumed(None))
            },
            TokenKindModel::Doctype(_) => {
                (self.error(ParseErrorKind::StrayDoctype), TokenOutcome::Consumed(None))
            },
            TokenKindModel::StartTag(tag) => self.in_table_start(tag),
            TokenKindModel::EndTag(tag) => self.in_table_end(tag),
            TokenKindModel::Eof => self.in_body_eof(),
        }
    }

    /// The rules for start tags in a `table` element.
    #[verifier::opaque]
    pub open spec fn in_table_start(self, tag: TagModel) -> (Self, TokenOutcome) {
        if tag.name == "caption"@ {
            let t = self.clear_back_to(Group::TableContext).push_marker().insert_here(tag);
            (t.set_mode(InsertionMode::InCaption), TokenOutcome::Consumed(None))
        } else if tag.name == "colgroup"@ {
            let t = self.clear_back_to(Group::TableContext).insert_here(tag);
            (t.set_mode(InsertionMode::InColumnGroup), TokenOutcome::Consumed(None))
        } else if tag.name == "col"@ {
            let t = self.clear_back_to(Group::TableContext);
            let t = t.insert_html_element(plain_tag("colgroup"@), None);
            (t.set_mode(InsertionMode::InColumnGroup), TokenOutcome::Reprocess)
        } else if in_table_sections(tag.name) {
            let t = self.clear_back_to(Group::TableContext).insert_here(tag);
            (t.set_mode(InsertionMode::InTableBody), TokenOutcome::Consumed(None))
        } else if tag.name == "td"@ || tag.name == "th"@ || tag.name == "tr"@ {
            let t = self.clear_back_to(Group::TableContext);
            let t = t.insert_html_element(plain_tag("tbody"@), None);
            (t.set_mode(InsertionMode::InTableBody), TokenOutcome::Reprocess)
        } else if tag.name == "table"@ {
            let t = self.error(ParseErrorKind::StartTagTableInTable);
            if !t.in_specific_scope("table"@, Scope::Table) {
                (t, TokenOutcome::Consumed(None))
            } else {
                (t.pop_until("table"@).reset_mode(), TokenOutcome::Reprocess)
            }
        } else if in_in_table_head_content(tag.name) {
            self.head_content(tag)
        } else if tag.name == "input"@ {
            let t = self.error(ParseErrorKind::MisplacedTokenInTable);
            if is_hidden(tag) {
                (t.insert_closed(tag), TokenOutcome::Consumed(None))
            } else {
                let t = t.set_foster_parenting(true);
                let (t, r) = t.in_body_start(tag);
                (t.set_foster_parenting(false), r)
            }
        } else if tag.name == "form"@ {
            let t = self.error(ParseErrorKind::MisplacedTokenInTable);
            if t.has_template() || t.form_element_pointer is Some {
                (t, TokenOutcome::Consumed(None))
            } else {
                (t.insert_here(tag).remember_form().pop(), TokenOutcome::Consumed(None))
            }
        } else {
            let t = self.error(ParseErrorKind::MisplacedTokenInTable).set_foster_parenting(true);
            let (t, r) = t.in_body_start(tag);
            (t.set_foster_parenting(false), r)
        }
    }

    /// The rules for end tags in a `table` element.
    #[verifier::opaque]
    pub open spec fn in_table_end(self, tag: TagModel) -> (Self, TokenOutcome) {
        if tag.name == "table"@ {
            if !self.in_specific_scope("table"@, Scope::Table) {
                (self.error(ParseErrorKind::StrayEndTagInTable), TokenOutcome::Consumed(None))
            } else {
                (self.pop_until("table"@).reset_mode(), TokenOutcome::Consumed(None))
            }
        } else if in_in_table_ignored_ends(tag.name) {
            (self.error(ParseErrorKind::StrayEndTagInTable), TokenOutcome::Consumed(None))
        } else if tag.name == "template"@ {
            (self.end_template(), TokenOutcome::Consumed(None))
        } else {
            let t = self.error(ParseErrorKind::MisplacedTokenInTable).set_foster_parenting(true);
            let (t, r) = t.in_body_end(tag);
            (t.set_foster_parenting(false), r)
        }
    }

    /// The rules in a run of characters in a table.
    #[verifier::opaque]
    pub open spec fn in_table_text(self, kind: TokenKindModel) -> (Self, TokenOutcome) {
        match kind {
            TokenKindModel::Character(c) => {
                if c == '\0' {
                    (self, TokenOutcome::Consumed(None))
                } else {
                    (self.hold_back(c), TokenOutcome::Consumed(None))
                }
            },
            _ => (self.release_held_back().resume_mode(), TokenOutcome::Reprocess),
        }
    }

    /// The rules in a table caption.
    #[verifier::opaque]
    pub open spec fn in_caption(self, kind: TokenKindModel) -> (Self, TokenOutcome) {
        match kind {
            TokenKindModel::StartTag(tag) => {
                if in_table_parts(tag.name) {
                    if !self.in_specific_scope("caption"@, Scope::Table) {
                        let t = self.error(ParseErrorKind::MisplacedTokenInTable);
                        (t, TokenOutcome::Consumed(None))
                    } else {
                        (self.close_caption(), TokenOutcome::Reprocess)
                    }
                } else {
                    self.in_body_start(tag)
                }
            },
            TokenKindModel::EndTag(tag) => {
                if tag.name == "caption"@ {
                    if !self.in_specific_scope("caption"@, Scope::Table) {
                        let t = self.error(ParseErrorKind::StrayEndTagInTable);
                        (t, TokenOutcome::Consumed(None))
                    } else {
                        (self.close_caption(), TokenOutcome::Consumed(None))
                    }
                } else if tag.name == "table"@ {
                    if !self.in_specific_scope("caption"@, Scope::Table) {
                        let t = self.error(ParseErrorKind::StrayEndTagInTable);
                        (t, TokenOutcome::Consumed(None))
                    } else {
                        (self.close_caption(), TokenOutcome::Reprocess)
                    }
                } else if in_in_caption_ignored_ends(tag.name) {
                    (self.error(ParseErrorKind::StrayEndTagInTable), TokenOutcome::Consumed(None))
                } else {
                    self.in_body_end(tag)
                }
            },
            _ => self.in_body(kind),
        }
    }

    /// The rules in a column group.
    #[verifier::opaque]
    pub open spec fn in_column_group(self, kind: TokenKindModel) -> (Self, TokenOutcome) {
        match kind {
            TokenKindModel::Character(c) => {
                if is_whitespace(c) {
                    (self.char_here(c), TokenOutcome::Consumed(None))
                } else {
                    self.leave_column_group(ParseErrorKind::MisplacedTokenInTable)
                }
            },
            TokenKindModel::Comment(data) => {
                (self.comment_here(data), TokenOutcome::Consumed(None))
            },
            TokenKindModel::ProcessingInstruction(pi) => {
                (self.instruction_here(pi), TokenOutcome::Consumed(None))
            },
            TokenKindModel::Doctype(_) => {
                (self.error(ParseErrorKind::StrayDoctype), TokenOutcome::Consumed(None))
            },
            TokenKindModel::StartTag(tag) => {
                if tag.name == "html"@ {
                    self.html_in_body(tag)
                } else if tag.name == "col"@ {
                    (self.insert_closed(tag), TokenOutcome::Consumed(None))
                } else if tag.name == "template"@ {
                    (self.begin_template(tag), TokenOutcome::Consumed(None))
                } else {
                    self.leave_column_group(ParseErrorKind::MisplacedTokenInTable)
                }
            },
            TokenKindModel::EndTag(tag) => {
                if tag.name == "colgroup"@ {
                    if !self.current_is("colgroup"@) {
                        let t = self.error(ParseErrorKind::StrayEndTagInTable);
                        (t, TokenOutcome::Consumed(None))
                    } else {
                        (self.pop().set_mode(InsertionMode::InTable), TokenOutcome::Consumed(None))
                    }
                } else if tag.name == "col"@ {
                    (self.error(ParseErrorKind::StrayEndTagInTable), TokenOutcome::Consumed(None))
                } else if tag.name == "template"@ {
                    (self.end_template(), TokenOutcome::Consumed(None))
                } else {
                    self.leave_column_group(ParseErrorKind::StrayEndTagInTable)
                }
            },
            TokenKindModel::Eof => self.in_body_eof(),
        }
    }

    /// The rules in a table section.
    #[verifier::opaque]
    pub open spec fn in_table_body(self, kind: TokenKindModel) -> (Self, TokenOutcome) {
        match kind {
            TokenKindModel::StartTag(tag) => {
                if tag.name == "tr"@ {
                    let t = self.clear_back_to(Group::TableBodyContext).insert_here(tag);
                    (t.set_mode(InsertionMode::InRow), TokenOutcome::Consumed(None))
                } else if tag.name == "th"@ || tag.name == "td"@ {
                    let t = self.clear_back_to(Group::TableBodyContext);
                    let t = t.insert_html_element(plain_tag("tr"@), None);
                    (t.set_mode(InsertionMode::InRow), TokenOutcome::Reprocess)
                } else if in_section_closers(tag.name) {
                    if !self.group_in_specific_scope(Group::TableSections, Scope::Table) {
                        let t = self.error(ParseErrorKind::MisplacedTokenInTable);
                        (t, TokenOutcome::Consumed(None))
                    } else {
                        self.leave_table_body()
                    }
                } else {
                    self.in_table_start(tag)
                }
            },
            TokenKindModel::EndTag(tag) => {
                if in_table_sections(tag.name) {
                    if !self.in_specific_scope(tag.name, Scope::Table) {
                        let t = self.error(ParseErrorKind::StrayEndTagInTable);
                        (t, TokenOutcome::Consumed(None))
                    } else {
                        let t = self.clear_back_to(Group::TableBodyContext).pop();
                        (t.set_mode(InsertionMode::InTable), TokenOutcome::Consumed(None))
                    }
                } else if tag.name == "table"@ {
                    if !self.group_in_specific_scope(Group::TableSections, Scope::Table) {
                        let t = self.error(ParseErrorKind::StrayEndTagInTable);
                        (t, TokenOutcome::Consumed(None))
                    } else {
                        self.leave_table_body()
                    }
                } else if in_in_table_body_ignored_ends(tag.name) {
                    (self.error(ParseErrorKind::StrayEndTagInTable), TokenOutcome::Consumed(None))
                } else {
                    self.in_table_end(tag)
                }
            },
            _ => self.in_table(kind),
        }
    }

    /// Closes a table section.
    #[verifier::opaque]
    pub open spec fn leave_table_body(self) -> (Self, TokenOutcome) {
        let t = self.clear_back_to(Group::TableBodyContext).pop().set_mode(InsertionMode::InTable);
        (t, TokenOutcome::Reprocess)
    }

    /// The rules in a table row.
    #[verifier::opaque]
    pub open spec fn in_row(self, kind: TokenKindModel) -> (Self, TokenOutcome) {
        match kind {
            TokenKindModel::StartTag(tag) => {
                if tag.name == "th"@ || tag.name == "td"@ {
                    let t = self.clear_back_to(Group::TableRowContext).insert_here(tag);
                    (t.set_mode(InsertionMode::InCell).push_marker(), TokenOutcome::Consumed(None))
                } else if in_row_closers(tag.name) {
                    if !self.in_specific_scope("tr"@, Scope::Table) {
                        let t = self.error(ParseErrorKind::MisplacedTokenInTable);
                        (t, TokenOutcome::Consumed(None))
                    } else {
                        self.leave_row()
                    }
                } else {
                    self.in_table_start(tag)
                }
            },
            TokenKindModel::EndTag(tag) => {
                if tag.name == "tr"@ {
                    if !self.in_specific_scope("tr"@, Scope::Table) {
                        let t = self.error(ParseErrorKind::StrayEndTagInTable);
                        (t, TokenOutcome::Consumed(None))
                    } else {
                        let t = self.clear_back_to(Group::TableRowContext).pop();
                        (t.set_mode(InsertionMode::InTableBody), TokenOutcome::Consumed(None))
                    }
                } else if tag.name == "table"@ {
                    if !self.in_specific_scope("tr"@, Scope::Table) {
                        let t = self.error(ParseErrorKind::StrayEndTagInTable);
                        (t, TokenOutcome::Consumed(None))
                    } else {
                        self.leave_row()
                    }
                } else if in_table_sections(tag.name) {
                    if !self.in_specific_scope(tag.name, Scope::Table) {
                        let t = self.error(ParseErrorKind::StrayEndTagInTable);
                        (t, TokenOutcome::Consumed(None))
                    } else {
                        if !self.in_specific_scope("tr"@, Scope::Table) {
                            (self, TokenOutcome::Consumed(None))
                        } else {
                            self.leave_row()
                        }
                    }
                } else if in_in_row_ignored_ends(tag.name) {
                    (self.error(ParseErrorKind::StrayEndTagInTable), TokenOutcome::Consumed(None))
                } else {
                    self.in_table_end(tag)
                }
            },
            _ => self.in_table(kind),
        }
    }

    /// Closes a table row.
    #[verifier::opaque]
    pub open spec fn leave_row(self) -> (Self, TokenOutcome) {
        let t = self.clear_back_to(Group::TableRowContext).pop();
        (t.set_mode(InsertionMode::InTableBody), TokenOutcome::Reprocess)
    }

    /// The rules in a table cell.
    #[verifier::opaque]
    pub open spec fn in_cell(self, kind: TokenKindModel) -> (Self, TokenOutcome) {
        match kind {
            TokenKindModel::StartTag(tag) => {
                if in_table_parts(tag.name) {
                    (self.close_cell(), TokenOutcome::Reprocess)
                } else {
                    self.in_body_start(tag)
                }
            },
            TokenKindModel::EndTag(tag) => {
                if in_cells(tag.name) {
                    if !self.in_specific_scope(tag.name, Scope::Table) {
                        let t = self.error(ParseErrorKind::StrayEndTagInTable);
                        (t, TokenOutcome::Consumed(None))
                    } else {
                        let t = self.close_element(tag.name, None).clear_to_marker();
                        (t.set_mode(InsertionMode::InRow), TokenOutcome::Consumed(None))
                    }
                } else if in_in_cell_ignored_ends(tag.name) {
                    (self.error(ParseErrorKind::StrayEndTagInTable), TokenOutcome::Consumed(None))
                } else if in_cell_closing_ends(tag.name) {
                    if !self.in_specific_scope(tag.name, Scope::Table) {
                        let t = self.error(ParseErrorKind::StrayEndTagInTable);
                        (t, TokenOutcome::Consumed(None))
                    } else {
                        (self.close_cell(), TokenOutcome::Reprocess)
                    }
                } else {
                    self.in_body_end(tag)
                }
            },
            _ => self.in_body(kind),
        }
    }

    /// Closes a column group, with an error of the given kind where none is the
    /// current node.
    #[verifier::opaque]
    pub open spec fn leave_column_group(self, kind: ParseErrorKind) -> (Self, TokenOutcome) {
        if !self.current_is("colgroup"@) {
            (self.error(kind), TokenOutcome::Consumed(None))
        } else {
            (self.pop().set_mode(InsertionMode::InTable), TokenOutcome::Reprocess)
        }
    }

    /// Inserts characters that were held back, from the `i`th on. Where one of
    /// them is not white space, none of them goes into the table.
    pub open spec fn insert_held_back(
        self,
        tokens: Seq<(char, Position)>,
        i: int,
        foster: bool,
    ) -> Self
        decreases tokens.len() - i,
    {
        if i < 0 || i >= tokens.len() {
            self
        } else {
            let t = self.at(tokens[i].1);
            let t = if foster {
                t.set_foster_parenting(true).in_body_char(tokens[i].0).0.set_foster_parenting(false)
            } else {
                t.char_here(tokens[i].0)
            };
            t.insert_held_back(tokens, i + 1, foster)
        }
    }

    /// Inserts the characters that were held back, with an error if one of them
    /// is not white space.
    #[verifier::opaque]
    pub open spec fn release_held_back(self) -> Self {
        let tokens = self.pending_table_character_tokens;
        let t = self.forget_held_back();
        let t = match first_visible(tokens, 0) {
            Some(position) => t.error_at(
                ParseErrorKind::NonSpaceCharactersInTable,
                position,
            ).insert_held_back(tokens, 0, true),
            None => t.insert_held_back(tokens, 0, false),
        };
        t.at(self.token_position)
    }
}

impl TreeBuilder {
    /// The rules in a `table` element.
    pub fn in_table(&mut self, kind: &TokenKind) -> (r: TokenOutcome)
        requires
            old(self).wf(),
        ensures
            final(self).wf(),
            (final(self)@, r) == old(self)@.in_table(kind@),
            comes_to_table(old(self)@.insertion_mode, kind@) && r is Reprocess
                ==> old(self)@.advances(final(self)@, kind@),
    {
        proof {
            reveal(BuilderModel::in_table);
            lemma_names_differ();
        }
        match kind {
            TokenKind::Character(c) => {
                let c = *c;
                if self.current_in(Group::TableTextParents) {
                    self.forget_held_back();
                    self.suspend_mode(InsertionMode::InTableText);
                    return TokenOutcome::Reprocess;
                }
                self.error(ParseErrorKind::MisplacedTokenInTable);
                self.set_foster_parenting(true);
                let r = self.in_body_char(c);
                self.set_foster_parenting(false);
                r
            },
            TokenKind::Comment(data) => {
                self.comment_here(data);
                TokenOutcome::Consumed(None)
            },
            TokenKind::ProcessingInstruction(pi) => {
                self.instruction_here(pi);
                TokenOutcome::Consumed(None)
            },
            TokenKind::Doctype(_) => {
                self.error(ParseErrorKind::StrayDoctype);
                TokenOutcome::Consumed(None)
            },
            TokenKind::StartTag(tag) => self.in_table_start(tag),
            TokenKind::EndTag(tag) => self.in_table_end(tag),
            TokenKind::Eof => self.in_body_eof(),
        }
    }

    /// The rules for start tags in a `table` element.
    pub fn in_table_start(&mut self, tag: &TagToken) -> (r: TokenOutcome)
        requires
            old(self).wf(),
        ensures
            final(self).wf(),
            (final(self)@, r) == old(self)@.in_table_start(tag@),
            comes_to_table(
                old(self)@.insertion_mode,
                TokenKindModel::StartTag(tag@),
            ) && r is Reprocess
                ==> old(self)@.advances(final(self)@, TokenKindModel::StartTag(tag@)),
    {
        proof {
            reveal(BuilderModel::in_table_start);
            lemma_names_differ();
        }
        if str_eq(tag.name.as_str(), "caption") {
            self.clear_back_to(Group::TableContext);
            self.push_marker();
            self.insert_here(tag);
            self.set_mode(InsertionMode::InCaption);
            TokenOutcome::Consumed(None)
        } else if str_eq(tag.name.as_str(), "colgroup") {
            self.clear_back_to(Group::TableContext);
            self.insert_here(tag);
            self.set_mode(InsertionMode::InColumnGroup);
            TokenOutcome::Consumed(None)
        } else if str_eq(tag.name.as_str(), "col") {
            self.clear_back_to(Group::TableContext);
            self.insert_html_element(&TagToken::named("colgroup"), None);
            self.set_mode(InsertionMode::InColumnGroup);
            TokenOutcome::Reprocess
        } else if is_table_sections(tag.name.as_str()) {
            self.clear_back_to(Group::TableContext);
            self.insert_here(tag);
            self.set_mode(InsertionMode::InTableBody);
            TokenOutcome::Consumed(None)
        } else if str_eq(tag.name.as_str(), "td") || str_eq(tag.name.as_str(), "th")
            || str_eq(tag.name.as_str(), "tr") {
            self.clear_back_to(Group::TableContext);
            self.insert_html_element(&TagToken::named("tbody"), None);
            self.set_mode(InsertionMode::InTableBody);
            TokenOutcome::Reprocess
        } else if str_eq(tag.name.as_str(), "table") {
            self.error(ParseErrorKind::StartTagTableInTable);
            if !self.in_specific_scope("table", Scope::Table) {
                return TokenOutcome::Consumed(None);
            }
            proof {
                lemma_in_scope_is_open(self@.document, self@.open_elements, "table"@, Scope::Table);
            }
            self.pop_until("table");
            self.reset_mode();
            TokenOutcome::Reprocess
        } else if is_in_table_head_content(tag.name.as_str()) {
            self.head_content(tag)
        } else if str_eq(tag.name.as_str(), "input") {
            self.error(ParseErrorKind::MisplacedTokenInTable);
            if tag_is_hidden(tag) {
                self.insert_closed(tag);
                return TokenOutcome::Consumed(None);
            }
            self.set_foster_parenting(true);
            let r = self.in_body_start(tag);
            self.set_foster_parenting(false);
            r
        } else if str_eq(tag.name.as_str(), "form") {
            self.error(ParseErrorKind::MisplacedTokenInTable);
            if self.has_template() || self.form_element_pointer.is_some() {
                return TokenOutcome::Consumed(None);
            }
            self.insert_here(tag);
            self.remember_form();
            self.pop();
            TokenOutcome::Consumed(None)
        } else {
            self.error(ParseErrorKind::MisplacedTokenInTable);
            self.set_foster_parenting(true);
            let r = self.in_body_start(tag);
            self.set_foster_parenting(false);
            r
        }
    }

    /// The rules for end tags in a `table` element.
    pub fn in_table_end(&mut self, tag: &TagToken) -> (r: TokenOutcome)
        requires
            old(self).wf(),
        ensures
            final(self).wf(),
            (final(self)@, r) == old(self)@.in_table_end(tag@),
            comes_to_table(
                old(self)@.insertion_mode,
                TokenKindModel::EndTag(tag@),
            ) && r is Reprocess
                ==> old(self)@.advances(final(self)@, TokenKindModel::EndTag(tag@)),
    {
        proof {
            reveal(BuilderModel::in_table_end);
        }
        if str_eq(tag.name.as_str(), "table") {
            if !self.in_specific_scope("table", Scope::Table) {
                self.error(ParseErrorKind::StrayEndTagInTable);
                return TokenOutcome::Consumed(None);
            }
            self.pop_until("table");
            self.reset_mode();
            TokenOutcome::Consumed(None)
        } else if is_in_table_ignored_ends(tag.name.as_str()) {
            self.error(ParseErrorKind::StrayEndTagInTable);
            TokenOutcome::Consumed(None)
        } else if str_eq(tag.name.as_str(), "template") {
            self.end_template();
            TokenOutcome::Consumed(None)
        } else {
            self.error(ParseErrorKind::MisplacedTokenInTable);
            self.set_foster_parenting(true);
            let r = self.in_body_end(tag);
            self.set_foster_parenting(false);
            r
        }
    }

    /// The rules in a run of characters in a table.
    pub fn in_table_text(&mut self, kind: &TokenKind) -> (r: TokenOutcome)
        requires
            old(self).wf(),
        ensures
            final(self).wf(),
            (final(self)@, r) == old(self)@.in_table_text(kind@),
            old(self)@.insertion_mode is InTableText && r is Reprocess ==> old(self)@.advances(
                final(self)@,
                kind@,
            ),
    {
        proof {
            reveal(BuilderModel::in_table_text);
        }
        match kind {
            TokenKind::Character(c) => {
                let c = *c;
                if c == '\0' {
                    return TokenOutcome::Consumed(None);
                }
                self.hold_back(c);
                TokenOutcome::Consumed(None)
            },
            _ => {
                self.release_held_back();
                self.resume_mode();
                TokenOutcome::Reprocess
            },
        }
    }

    /// The rules in a table caption.
    pub fn in_caption(&mut self, kind: &TokenKind) -> (r: TokenOutcome)
        requires
            old(self).wf(),
        ensures
            final(self).wf(),
            (final(self)@, r) == old(self)@.in_caption(kind@),
            old(self)@.insertion_mode is InCaption && r is Reprocess ==> old(self)@.advances(
                final(self)@,
                kind@,
            ),
    {
        proof {
            reveal(BuilderModel::in_caption);
        }
        match kind {
            TokenKind::StartTag(tag) => {
                if is_table_parts(tag.name.as_str()) {
                    if !self.in_specific_scope("caption", Scope::Table) {
                        self.error(ParseErrorKind::MisplacedTokenInTable);
                        return TokenOutcome::Consumed(None);
                    }
                    self.close_caption();
                    return TokenOutcome::Reprocess;
                }
                self.in_body_start(tag)
            },
            TokenKind::EndTag(tag) => {
                if str_eq(tag.name.as_str(), "caption") {
                    if !self.in_specific_scope("caption", Scope::Table) {
                        self.error(ParseErrorKind::StrayEndTagInTable);
                        return TokenOutcome::Consumed(None);
                    }
                    self.close_caption();
                    TokenOutcome::Consumed(None)
                } else if str_eq(tag.name.as_str(), "table") {
                    if !self.in_specific_scope("caption", Scope::Table) {
                        self.error(ParseErrorKind::StrayEndTagInTable);
                        return TokenOutcome::Consumed(None);
                    }
                    self.close_caption();
                    TokenOutcome::Reprocess
                } else if is_in_caption_ignored_ends(tag.name.as_str()) {
                    self.error(ParseErrorKind::StrayEndTagInTable);
                    TokenOutcome::Consumed(None)
                } else {
                    self.in_body_end(tag)
                }
            },
            _ => self.in_body(kind),
        }
    }

    /// The rules in a column group.
    pub fn in_column_group(&mut self, kind: &TokenKind) -> (r: TokenOutcome)
        requires
            old(self).wf(),
        ensures
            final(self).wf(),
            (final(self)@, r) == old(self)@.in_column_group(kind@),
            old(self)@.insertion_mode is InColumnGroup && r is Reprocess ==> old(self)@.advances(
                final(self)@,
                kind@,
            ),
    {
        proof {
            reveal(BuilderModel::in_column_group);
        }
        match kind {
            TokenKind::Character(c) => {
                let c = *c;
                if is_whitespace(c) {
                    self.char_here(c);
                    return TokenOutcome::Consumed(None);
                }
                self.leave_column_group(ParseErrorKind::MisplacedTokenInTable)
            },
            TokenKind::Comment(data) => {
                self.comment_here(data);
                TokenOutcome::Consumed(None)
            },
            TokenKind::ProcessingInstruction(pi) => {
                self.instruction_here(pi);
                TokenOutcome::Consumed(None)
            },
            TokenKind::Doctype(_) => {
                self.error(ParseErrorKind::StrayDoctype);
                TokenOutcome::Consumed(None)
            },
            TokenKind::StartTag(tag) => {
                if str_eq(tag.name.as_str(), "html") {
                    self.html_in_body(tag)
                } else if str_eq(tag.name.as_str(), "col") {
                    self.insert_closed(tag);
                    TokenOutcome::Consumed(None)
                } else if str_eq(tag.name.as_str(), "template") {
                    self.begin_template(tag);
                    TokenOutcome::Consumed(None)
                } else {
                    self.leave_column_group(ParseErrorKind::MisplacedTokenInTable)
                }
            },
            TokenKind::EndTag(tag) => {
                if str_eq(tag.name.as_str(), "colgroup") {
                    if !self.current_is("colgroup") {
                        self.error(ParseErrorKind::StrayEndTagInTable);
                        return TokenOutcome::Consumed(None);
                    }
                    self.pop();
                    self.set_mode(InsertionMode::InTable);
                    TokenOutcome::Consumed(None)
                } else if str_eq(tag.name.as_str(), "col") {
                    self.error(ParseErrorKind::StrayEndTagInTable);
                    TokenOutcome::Consumed(None)
                } else if str_eq(tag.name.as_str(), "template") {
                    self.end_template();
                    TokenOutcome::Consumed(None)
                } else {
                    self.leave_column_group(ParseErrorKind::StrayEndTagInTable)
                }
            },
            TokenKind::Eof => self.in_body_eof(),
        }
    }

    /// The rules in a table section.
    pub fn in_table_body(&mut self, kind: &TokenKind) -> (r: TokenOutcome)
        requires
            old(self).wf(),
        ensures
            final(self).wf(),
            (final(self)@, r) == old(self)@.in_table_body(kind@),
            old(self)@.insertion_mode is InTableBody && r is Reprocess ==> old(self)@.advances(
                final(self)@,
                kind@,
            ),
    {
        proof {
            reveal(BuilderModel::in_table_body);
            lemma_names_differ();
        }
        match kind {
            TokenKind::StartTag(tag) => {
                if str_eq(tag.name.as_str(), "tr") {
                    self.clear_back_to(Group::TableBodyContext);
                    self.insert_here(tag);
                    self.set_mode(InsertionMode::InRow);
                    TokenOutcome::Consumed(None)
                } else if str_eq(tag.name.as_str(), "th") || str_eq(tag.name.as_str(), "td") {
                    self.clear_back_to(Group::TableBodyContext);
                    self.insert_html_element(&TagToken::named("tr"), None);
                    self.set_mode(InsertionMode::InRow);
                    TokenOutcome::Reprocess
                } else if is_section_closers(tag.name.as_str()) {
                    if !self.group_in_specific_scope(Group::TableSections, Scope::Table) {
                        self.error(ParseErrorKind::MisplacedTokenInTable);
                        return TokenOutcome::Consumed(None);
                    }
                    self.leave_table_body()
                } else {
                    self.in_table_start(tag)
                }
            },
            TokenKind::EndTag(tag) => {
                if is_table_sections(tag.name.as_str()) {
                    if !self.in_specific_scope(tag.name.as_str(), Scope::Table) {
                        self.error(ParseErrorKind::StrayEndTagInTable);
                        return TokenOutcome::Consumed(None);
                    }
                    self.clear_back_to(Group::TableBodyContext);
                    self.pop();
                    self.set_mode(InsertionMode::InTable);
                    TokenOutcome::Consumed(None)
                } else if str_eq(tag.name.as_str(), "table") {
                    if !self.group_in_specific_scope(Group::TableSections, Scope::Table) {
                        self.error(ParseErrorKind::StrayEndTagInTable);
                        return TokenOutcome::Consumed(None);
                    }
                    self.leave_table_body()
                } else if is_in_table_body_ignored_ends(tag.name.as_str()) {
                    self.error(ParseErrorKind::StrayEndTagInTable);
                    TokenOutcome::Consumed(None)
                } else {
                    self.in_table_end(tag)
                }
            },
            _ => self.in_table(kind),
        }
    }

    /// Closes a table section.
    pub fn leave_table_body(&mut self) -> (r: TokenOutcome)
        requires
            old(self).wf(),
        ensures
            final(self).wf(),
            (final(self)@, r) == old(self)@.leave_table_body(),
            final(self)@.insertion_mode is InTable && old(self)@.opens_nothing(final(self)@),
    {
        proof {
            reveal(BuilderModel::leave_table_body);
        }
        self.clear_back_to(Group::TableBodyContext);
        self.pop();
        self.set_mode(InsertionMode::InTable);
        TokenOutcome::Reprocess
    }

    /// The rules in a table row.
    pub fn in_row(&mut self, kind: &TokenKind) -> (r: TokenOutcome)
        requires
            old(self).wf(),
        ensures
            final(self).wf(),
            (final(self)@, r) == old(self)@.in_row(kind@),
            old(self)@.insertion_mode is InRow && r is Reprocess ==> old(self)@.advances(
                final(self)@,
                kind@,
            ),
    {
        proof {
            reveal(BuilderModel::in_row);
            lemma_names_differ();
        }
        match kind {
            TokenKind::StartTag(tag) => {
                if str_eq(tag.name.as_str(), "th") || str_eq(tag.name.as_str(), "td") {
                    self.clear_back_to(Group::TableRowContext);
                    self.insert_here(tag);
                    self.set_mode(InsertionMode::InCell);
                    self.push_marker();
                    TokenOutcome::Consumed(None)
                } else if is_row_closers(tag.name.as_str()) {
                    if !self.in_specific_scope("tr", Scope::Table) {
                        self.error(ParseErrorKind::MisplacedTokenInTable);
                        return TokenOutcome::Consumed(None);
                    }
                    self.leave_row()
                } else {
                    self.in_table_start(tag)
                }
            },
            TokenKind::EndTag(tag) => {
                if str_eq(tag.name.as_str(), "tr") {
                    if !self.in_specific_scope("tr", Scope::Table) {
                        self.error(ParseErrorKind::StrayEndTagInTable);
                        return TokenOutcome::Consumed(None);
                    }
                    self.clear_back_to(Group::TableRowContext);
                    self.pop();
                    self.set_mode(InsertionMode::InTableBody);
                    TokenOutcome::Consumed(None)
                } else if str_eq(tag.name.as_str(), "table") {
                    if !self.in_specific_scope("tr", Scope::Table) {
                        self.error(ParseErrorKind::StrayEndTagInTable);
                        return TokenOutcome::Consumed(None);
                    }
                    self.leave_row()
                } else if is_table_sections(tag.name.as_str()) {
                    if !self.in_specific_scope(tag.name.as_str(), Scope::Table) {
                        self.error(ParseErrorKind::StrayEndTagInTable);
                        return TokenOutcome::Consumed(None);
                    }
                    if !self.in_specific_scope("tr", Scope::Table) {
                        return TokenOutcome::Consumed(None);
                    }
                    self.leave_row()
                } else if is_in_row_ignored_ends(tag.name.as_str()) {
                    self.error(ParseErrorKind::StrayEndTagInTable);
                    TokenOutcome::Consumed(None)
                } else {
                    self.in_table_end(tag)
                }
            },
            _ => self.in_table(kind),
        }
    }

    /// Closes a table row.
    pub fn leave_row(&mut self) -> (r: TokenOutcome)
        requires
            old(self).wf(),
        ensures
            final(self).wf(),
            (final(self)@, r) == old(self)@.leave_row(),
            final(self)@.insertion_mode is InTableBody && old(self)@.opens_nothing(final(self)@),
    {
        proof {
            reveal(BuilderModel::leave_row);
        }
        self.clear_back_to(Group::TableRowContext);
        self.pop();
        self.set_mode(InsertionMode::InTableBody);
        TokenOutcome::Reprocess
    }

    /// The rules in a table cell.
    pub fn in_cell(&mut self, kind: &TokenKind) -> (r: TokenOutcome)
        requires
            old(self).wf(),
        ensures
            final(self).wf(),
            (final(self)@, r) == old(self)@.in_cell(kind@),
            old(self)@.insertion_mode is InCell && r is Reprocess ==> old(self)@.advances(
                final(self)@,
                kind@,
            ),
    {
        proof {
            reveal(BuilderModel::in_cell);
        }
        match kind {
            TokenKind::StartTag(tag) => {
                if is_table_parts(tag.name.as_str()) {
                    self.close_cell();
                    return TokenOutcome::Reprocess;
                }
                self.in_body_start(tag)
            },
            TokenKind::EndTag(tag) => {
                if is_cells(tag.name.as_str()) {
                    if !self.in_specific_scope(tag.name.as_str(), Scope::Table) {
                        self.error(ParseErrorKind::StrayEndTagInTable);
                        return TokenOutcome::Consumed(None);
                    }
                    self.close_element(tag.name.as_str(), None);
                    self.clear_to_marker();
                    self.set_mode(InsertionMode::InRow);
                    TokenOutcome::Consumed(None)
                } else if is_in_cell_ignored_ends(tag.name.as_str()) {
                    self.error(ParseErrorKind::StrayEndTagInTable);
                    TokenOutcome::Consumed(None)
                } else if is_cell_closing_ends(tag.name.as_str()) {
                    if !self.in_specific_scope(tag.name.as_str(), Scope::Table) {
                        self.error(ParseErrorKind::StrayEndTagInTable);
                        return TokenOutcome::Consumed(None);
                    }
                    self.close_cell();
                    TokenOutcome::Reprocess
                } else {
                    self.in_body_end(tag)
                }
            },
            _ => self.in_body(kind),
        }
    }

    /// Closes a column group, with an error of the given kind where none is the
    /// current node.
    pub fn leave_column_group(&mut self, kind: ParseErrorKind) -> (r: TokenOutcome)
        requires
            old(self).wf(),
        ensures
            final(self).wf(),
            (final(self)@, r) == old(self)@.leave_column_group(kind),
            r is Reprocess ==> final(self)@.insertion_mode is InTable && old(self)@.opens_nothing(
                final(self)@,
            ),
    {
        proof {
            reveal(BuilderModel::leave_column_group);
        }
        if !self.current_is("colgroup") {
            self.error(kind);
            TokenOutcome::Consumed(None)
        } else {
            self.pop();
            self.set_mode(InsertionMode::InTable);
            TokenOutcome::Reprocess
        }
    }

    /// Inserts the characters that were held back, with an error if one of them
    /// is not white space.
    pub fn release_held_back(&mut self)
        requires
            old(self).wf(),
        ensures
            final(self).wf(),
            final(self)@ == old(self)@.release_held_back(),
    {
        proof {
            reveal(BuilderModel::release_held_back);
        }
        let ghost start = self@;
        let position = self.token_position;
        let mut tokens: Vec<(char, Position)> = Vec::new();
        std::mem::swap(&mut tokens, &mut self.pending_table_character_tokens);
        proof {
            reveal(TreeBuilder::wf);
            reveal(BuilderModel::sound);
        }
        assert(self@ == start.forget_held_back());
        let ghost all = tokens@;
        let mut visible: Option<Position> = None;
        let mut i: usize = 0;
        while i < tokens.len() && visible.is_none()
            invariant
                all == tokens@,
                0 <= i <= all.len(),
                match visible {
                    Some(position) => first_visible(all, 0) == Some(position),
                    None => first_visible(all, i as int) == first_visible(all, 0),
                },
            decreases all.len() - i,
        {
            if !is_whitespace(tokens[i].0) {
                visible = Some(tokens[i].1);
            }
            i = i + 1;
        }
        let foster = visible.is_some();
        if let Some(position) = visible {
            self.error_at(ParseErrorKind::NonSpaceCharactersInTable, position);
        }
        let ghost ready = self@;
        i = 0;
        while i < tokens.len()
            invariant
                self.wf(),
                all == tokens@,
                0 <= i <= all.len(),
                self@.insert_held_back(all, i as int, foster) == ready.insert_held_back(
                    all,
                    0,
                    foster,
                ),
            decreases all.len() - i,
        {
            self.at(tokens[i].1);
            if foster {
                self.set_foster_parenting(true);
                self.in_body_char(tokens[i].0);
                self.set_foster_parenting(false);
            } else {
                self.char_here(tokens[i].0);
            }
            i = i + 1;
        }
        self.at(position);
    }
}

} // verus!
