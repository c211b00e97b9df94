//! The rules in templates, in framesets and after the `body` element.
use vstd::prelude::*;

use crate::text::{is_whitespace, str_eq};
use crate::token::{ParseErrorKind, TokenKind, TokenKindModel};
use crate::tree_builder::builder::TreeBuilder;
use crate::tree_builder::model::{BuilderModel, InsertionMode, TokenOutcome};
use crate::tree_builder::names::{
    in_head_content, in_template_table_parts, is_head_content, is_template_table_parts,
};

verus! {

impl BuilderModel {
    /// The rules in the contents of a template.
    #[verifier::opaque]
    pub open spec fn in_template(self, kind: TokenKindModel) -> (Self, TokenOutcome) {
        match kind {
            TokenKindModel::StartTag(tag) => {
                if in_head_content(tag.name) {
                    self.head_content(tag)
                } else if in_template_table_parts(tag.name) {
                    let t = self.pop_template_mode().push_template_mode(InsertionMode::InTable);
                    (t.set_mode(InsertionMode::InTable), TokenOutcome::Reprocess)
                } else if tag.name == "col"@ {
                    let t = self.pop_template_mode();
                    let t = t.push_template_mode(InsertionMode::InColumnGroup);
                    (t.set_mode(InsertionMode::InColumnGroup), TokenOutcome::Reprocess)
                } else if tag.name == "tr"@ {
                    let t = self.pop_template_mode().push_template_mode(InsertionMode::InTableBody);
                    (t.set_mode(InsertionMode::InTableBody), TokenOutcome::Reprocess)
                } else if tag.name == "td"@ || tag.name == "th"@ {
                    let t = self.pop_template_mode().push_template_mode(InsertionMode::InRow);
                    (t.set_mode(InsertionMode::InRow), TokenOutcome::Reprocess)
                } else {
                    let t = self.pop_template_mode().push_template_mode(InsertionMode::InBody);
                    (t.set_mode(InsertionMode::InBody), TokenOutcome::Reprocess)
                }
            },
            TokenKindModel::EndTag(tag) => {
                if tag.name == "template"@ {
                    (self.end_template(), TokenOutcome::Consumed(None))
                } else {
                    (self.error(ParseErrorKind::StrayEndTag), TokenOutcome::Consumed(None))
                }
            },
            TokenKindModel::Eof => self.in_template_eof(),
            _ => self.in_body(kind),
        }
    }

    /// The rules after the `body` element.
    #[verifier::opaque]
    pub open spec fn after_body(self, kind: TokenKindModel) -> (Self, TokenOutcome) {
        match kind {
            TokenKindModel::Character(c) => {
                if is_whitespace(c) {
                    self.in_body_char(c)
                } else {
                    self.back_to_body()
                }
            },
            TokenKindModel::Comment(data) => {
                (self.comment_to_html(data), TokenOutcome::Consumed(None))
            },
            TokenKindModel::ProcessingInstruction(pi) => {
                (self.instruction_to_html(pi), TokenOutcome::Consumed(None))
            },
            TokenKindModel::Doctype(_) => {
                (self.error(ParseErrorKind::StrayDoctype), TokenOutcome::Consumed(None))
            },
            TokenKindModel::StartTag(tag) => {
                if tag.name == "html"@ {
                    self.html_in_body(tag)
                } else {
                    self.back_to_body()
                }
            },
            TokenKindModel::EndTag(tag) => {
                if tag.name == "html"@ {
                    (self.set_mode(InsertionMode::AfterAfterBody), TokenOutcome::Consumed(None))
                } else {
                    self.back_to_body()
                }
            },
            TokenKindModel::Eof => (self, TokenOutcome::Consumed(None)),
        }
    }

    /// Goes back to the rules of the `body` element, with an error.
    #[verifier::opaque]
    pub open spec fn back_to_body(self) -> (Self, TokenOutcome) {
        let t = self.error(ParseErrorKind::TokenAfterBody).set_mode(InsertionMode::InBody);
        (t, TokenOutcome::Reprocess)
    }

    /// The rules after the `html` element.
    #[verifier::opaque]
    pub open spec fn after_after_body(self, kind: TokenKindModel) -> (Self, TokenOutcome) {
        match kind {
            TokenKindModel::Character(c) => {
                if is_whitespace(c) {
                    self.in_body_char(c)
                } else {
                    self.back_to_body()
                }
            },
            TokenKindModel::Comment(data) => {
                (self.comment_to_document(data), TokenOutcome::Consumed(None))
            },
            TokenKindModel::ProcessingInstruction(pi) => {
                (self.instruction_to_document(pi), TokenOutcome::Consumed(None))
            },
            TokenKindModel::Doctype(_) => {
                (self.error(ParseErrorKind::StrayDoctype), TokenOutcome::Consumed(None))
            },
            TokenKindModel::StartTag(tag) => {
                if tag.name == "html"@ {
                    self.html_in_body(tag)
                } else {
                    self.back_to_body()
                }
            },
            TokenKindModel::EndTag(_) => self.back_to_body(),
            TokenKindModel::Eof => (self, TokenOutcome::Consumed(None)),
        }
    }

    /// The rules in a `frameset` element.
    #[verifier::opaque]
    pub open spec fn in_frameset(self, kind: TokenKindModel) -> (Self, TokenOutcome) {
        match kind {
            TokenKindModel::Character(c) => {
                let t = if is_whitespace(c) {
                    self.char_here(c)
                } else {
                    self
                };
                (t, TokenOutcome::Consumed(None))
            },
            TokenKindModel::Comment(data) => {
                (self.comment_here(data), TokenOutcome::Consumed(None))
            },
            TokenKindModel::ProcessingInstruction(pi) => {
                (self.instruction_here(pi), TokenOutcome::Consumed(None))
            },
            TokenKindModel::Doctype(_) => {
                (self.error(ParseErrorKind::StrayDoctype), TokenOutcome::Consumed(None))
            },
            TokenKindModel::StartTag(tag) => {
                if tag.name == "html"@ {
                    self.html_in_body(tag)
                } else if tag.name == "frameset"@ {
                    (self.insert_here(tag), TokenOutcome::Consumed(None))
                } else if tag.name == "frame"@ {
                    (self.insert_closed(tag), TokenOutcome::Consumed(None))
                } else if tag.name == "noframes"@ {
                    self.head_content(tag)
                } else {
                    (self.error(ParseErrorKind::StrayStartTag), TokenOutcome::Consumed(None))
                }
            },
            TokenKindModel::EndTag(tag) => {
                if tag.name == "frameset"@ && self.open_elements.len() > 1 {
                    let t = self.pop();
                    let t = if !t.current_is("frameset"@) {
                        t.set_mode(InsertionMode::AfterFrameset)
                    } else {
                        t
                    };
                    (t, TokenOutcome::Consumed(None))
                } else {
                    (self.error(ParseErrorKind::StrayEndTag), TokenOutcome::Consumed(None))
                }
            },
            TokenKindModel::Eof => {
                let t = if self.open_elements.len() > 1 {
                    self.error(ParseErrorKind::EofWithUnclosedElements)
                } else {
                    self
                };
                (t, TokenOutcome::Consumed(None))
            },
        }
    }

    /// The rules after a `frameset` element.
    #[verifier::opaque]
    pub open spec fn after_frameset(self, kind: TokenKindModel) -> (Self, TokenOutcome) {
        match kind {
            TokenKindModel::Character(c) => {
                let t = if is_whitespace(c) {
                    self.char_here(c)
                } else {
                    self
                };
                (t, TokenOutcome::Consumed(None))
            },
            TokenKindModel::Comment(data) => {
                (self.comment_here(data), TokenOutcome::Consumed(None))
            },
            TokenKindModel::ProcessingInstruction(pi) => {
                (self.instruction_here(pi), TokenOutcome::Consumed(None))
            },
            TokenKindModel::Doctype(_) => {
                (self.error(ParseErrorKind::StrayDoctype), TokenOutcome::Consumed(None))
            },
            TokenKindModel::StartTag(tag) => {
                if tag.name == "html"@ {
                    self.html_in_body(tag)
                } else if tag.name == "noframes"@ {
                    self.head_content(tag)
                } else {
                    (self.error(ParseErrorKind::StrayStartTag), TokenOutcome::Consumed(None))
                }
            },
            TokenKindModel::EndTag(tag) => {
                if tag.name == "html"@ {
                    (self.set_mode(InsertionMode::AfterAfterFrameset), TokenOutcome::Consumed(None))
                } else {
                    (self.error(ParseErrorKind::StrayEndTag), TokenOutcome::Consumed(None))
                }
            },
            TokenKindModel::Eof => (self, TokenOutcome::Consumed(None)),
        }
    }

    /// The rules after the `html` element of a frameset document.
    #[verifier::opaque]
    pub open spec fn after_after_frameset(self, kind: TokenKindModel) -> (Self, TokenOutcome) {
        match kind {
            TokenKindModel::Character(c) => {
                if is_whitespace(c) {
                    self.in_body_char(c)
                } else {
                    (self, TokenOutcome::Consumed(None))
                }
            },
            TokenKindModel::Comment(data) => {
                (self.comment_to_document(data), TokenOutcome::Consumed(None))
            },
            TokenKindModel::ProcessingInstruction(pi) => {
                (self.instruction_to_document(pi), TokenOutcome::Consumed(None))
            },
            TokenKindModel::Doctype(_) => {
                (self.error(ParseErrorKind::StrayDoctype), TokenOutcome::Consumed(None))
            },
            TokenKindModel::StartTag(tag) => {
                if tag.name == "html"@ {
                    self.html_in_body(tag)
                } else if tag.name == "noframes"@ {
                    self.head_content(tag)
                } else {
                    (self.error(ParseErrorKind::StrayStartTag), TokenOutcome::Consumed(None))
                }
            },
            TokenKindModel::EndTag(_) => {
                (self.error(ParseErrorKind::StrayEndTag), TokenOutcome::Consumed(None))
            },
            TokenKindModel::Eof => (self, TokenOutcome::Consumed(None)),
        }
    }
}

impl TreeBuilder {
    /// The rules in the contents of a template.
    pub fn in_template(&mut self, kind: &TokenKind) -> (r: TokenOutcome)
        requires
            old(self).wf(),
        ensures
            final(self).wf(),
            (final(self)@, r) == old(self)@.in_template(kind@),
            old(self)@.insertion_mode is InTemplate && r is Reprocess ==> old(self)@.advances(
                final(self)@,
                kind@,
            ),
    {
        proof {
            reveal(BuilderModel::in_template);
        }
        match kind {
            TokenKind::StartTag(tag) => {
                if is_head_content(tag.name.as_str()) {
                    self.head_content(tag)
                } else if is_template_table_parts(tag.name.as_str()) {
                    self.pop_template_mode();
                    self.push_template_mode(InsertionMode::InTable);
                    self.set_mode(InsertionMode::InTable);
                    TokenOutcome::Reprocess
                } else if str_eq(tag.name.as_str(), "col") {
                    self.pop_template_mode();
                    self.push_template_mode(InsertionMode::InColumnGroup);
                    self.set_mode(InsertionMode::InColumnGroup);
                    TokenOutcome::Reprocess
                } else if str_eq(tag.name.as_str(), "tr") {
                    self.pop_template_mode();
                    self.push_template_mode(InsertionMode::InTableBody);
                    self.set_mode(InsertionMode::InTableBody);
                    TokenOutcome::Reprocess
                } else if str_eq(tag.name.as_str(), "td") || str_eq(tag.name.as_str(), "th") {
                    self.pop_template_mode();
                    self.push_template_mode(InsertionMode::InRow);
                    self.set_mode(InsertionMode::InRow);
                    TokenOutcome::Reprocess
                } else {
                    self.pop_template_mode();
                    self.push_template_mode(InsertionMode::InBody);
                    self.set_mode(InsertionMode::InBody);
                    TokenOutcome::Reprocess
                }
            },
            TokenKind::EndTag(tag) => {
                if str_eq(tag.name.as_str(), "template") {
                    self.end_template();
                    return TokenOutcome::Consumed(None);
                }
                self.error(ParseErrorKind::StrayEndTag);
                TokenOutcome::Consumed(None)
            },
            TokenKind::Eof => self.in_template_eof(),
            _ => self.in_body(kind),
        }
    }

    /// The rules after the `body` element.
    pub fn after_body(&mut self, kind: &TokenKind) -> (r: TokenOutcome)
        requires
            old(self).wf(),
        ensures
            final(self).wf(),
            (final(self)@, r) == old(self)@.after_body(kind@),
            old(self)@.insertion_mode is AfterBody && r is Reprocess ==> old(self)@.advances(
                final(self)@,
                kind@,
            ),
    {
        proof {
            reveal(BuilderModel::after_body);
        }
        match kind {
            TokenKind::Character(c) => {
                let c = *c;
                if is_whitespace(c) {
                    return self.in_body_char(c);
                }
                self.back_to_body()
            },
            TokenKind::Comment(data) => {
                self.comment_to_html(data);
                TokenOutcome::Consumed(None)
            },
            TokenKind::ProcessingInstruction(pi) => {
                self.instruction_to_html(pi);
                TokenOutcome::Consumed(None)
            },
            TokenKind::Doctype(_) => {
                self.error(ParseErrorKind::StrayDoctype);
                TokenOutcome::Consumed(None)
            },
            TokenKind::StartTag(tag) => {
                if str_eq(tag.name.as_str(), "html") {
                    return self.html_in_body(tag);
                }
                self.back_to_body()
            },
            TokenKind::EndTag(tag) => {
                if str_eq(tag.name.as_str(), "html") {
                    self.set_mode(InsertionMode::AfterAfterBody);
                    return TokenOutcome::Consumed(None);
                }
                self.back_to_body()
            },
            TokenKind::Eof => TokenOutcome::Consumed(None),
        }
    }

    /// Goes back to the rules of the `body` element, with an error.
    pub fn back_to_body(&mut self) -> (r: TokenOutcome)
        requires
            old(self).wf(),
        ensures
            final(self).wf(),
            (final(self)@, r) == old(self)@.back_to_body(),
            final(self)@.insertion_mode is InBody && old(self)@.opens_nothing(final(self)@),
    {
        proof {
            reveal(BuilderModel::back_to_body);
        }
        self.error(ParseErrorKind::TokenAfterBody);
        self.set_mode(InsertionMode::InBody);
        TokenOutcome::Reprocess
    }

    /// The rules after the `html` element.
    pub fn after_after_body(&mut self, kind: &TokenKind) -> (r: TokenOutcome)
        requires
            old(self).wf(),
        ensures
            final(self).wf(),
            (final(self)@, r) == old(self)@.after_after_body(kind@),
            old(self)@.insertion_mode is AfterAfterBody && r is Reprocess ==> old(self)@.advances(
                final(self)@,
                kind@,
            ),
    {
        proof {
            reveal(BuilderModel::after_after_body);
        }
        match kind {
            TokenKind::Character(c) => {
                let c = *c;
                if is_whitespace(c) {
                    return self.in_body_char(c);
                }
                self.back_to_body()
            },
            TokenKind::Comment(data) => {
                self.comment_to_document(data);
                TokenOutcome::Consumed(None)
            },
            TokenKind::ProcessingInstruction(pi) => {
                self.instruction_to_document(pi);
                TokenOutcome::Consumed(None)
            },
            TokenKind::Doctype(_) => {
                self.error(ParseErrorKind::StrayDoctype);
                TokenOutcome::Consumed(None)
            },
            TokenKind::StartTag(tag) => {
                if str_eq(tag.name.as_str(), "html") {
                    return self.html_in_body(tag);
                }
                self.back_to_body()
            },
            TokenKind::EndTag(_) => self.back_to_body(),
            TokenKind::Eof => TokenOutcome::Consumed(None),
        }
    }

    /// The rules in a `frameset` element.
    pub fn in_frameset(&mut self, kind: &TokenKind) -> (r: TokenOutcome)
        requires
            old(self).wf(),
        ensures
            final(self).wf(),
            (final(self)@, r) == old(self)@.in_frameset(kind@),
            r is Consumed,
    {
        proof {
            reveal(BuilderModel::in_frameset);
        }
        match kind {
            TokenKind::Character(c) => {
                let c = *c;
                if is_whitespace(c) {
                    self.char_here(c);
                }
                TokenOutcome::Consumed(None)
            },
            TokenKind::Comment(data) => {
                self.comment_here(data);
                TokenOutcome::Consumed(None)
            },
            TokenKind::ProcessingInstruction(pi) => {
                self.instruction_here(pi);
                TokenOutcome::Consumed(None)
            },
            TokenKind::Doctype(_) => {
                self.error(ParseErrorKind::StrayDoctype);
                TokenOutcome::Consumed(None)
            },
            TokenKind::StartTag(tag) => {
                if str_eq(tag.name.as_str(), "html") {
                    self.html_in_body(tag)
                } else if str_eq(tag.name.as_str(), "frameset") {
                    self.insert_here(tag);
                    TokenOutcome::Consumed(None)
                } else if str_eq(tag.name.as_str(), "frame") {
                    self.insert_closed(tag);
                    TokenOutcome::Consumed(None)
                } else if str_eq(tag.name.as_str(), "noframes") {
                    self.head_content(tag)
                } else {
                    self.error(ParseErrorKind::StrayStartTag);
                    TokenOutcome::Consumed(None)
                }
            },
            TokenKind::EndTag(tag) => {
                if str_eq(tag.name.as_str(), "frameset") && self.open_elements.entries.len() > 1 {
                    self.pop();
                    if !self.current_is("frameset") {
                        self.set_mode(InsertionMode::AfterFrameset);
                    }
                    return TokenOutcome::Consumed(None);
                }
                self.error(ParseErrorKind::StrayEndTag);
                TokenOutcome::Consumed(None)
            },
            TokenKind::Eof => {
                if self.open_elements.entries.len() > 1 {
                    self.error(ParseErrorKind::EofWithUnclosedElements);
                }
                TokenOutcome::Consumed(None)
            },
        }
    }

    /// The rules after a `frameset` element.
    pub fn after_frameset(&mut self, kind: &TokenKind) -> (r: TokenOutcome)
        requires
            old(self).wf(),
        ensures
            final(self).wf(),
            (final(self)@, r) == old(self)@.after_frameset(kind@),
            r is Consumed,
    {
        proof {
            reveal(BuilderModel::after_frameset);
        }
        match kind {
            TokenKind::Character(c) => {
                let c = *c;
                if is_whitespace(c) {
                    self.char_here(c);
                }
                TokenOutcome::Consumed(None)
            },
            TokenKind::Comment(data) => {
                self.comment_here(data);
                TokenOutcome::Consumed(None)
            },
            TokenKind::ProcessingInstruction(pi) => {
                self.instruction_here(pi);
                TokenOutcome::Consumed(None)
            },
            TokenKind::Doctype(_) => {
                self.error(ParseErrorKind::StrayDoctype);
                TokenOutcome::Consumed(None)
            },
            TokenKind::StartTag(tag) => {
                if str_eq(tag.name.as_str(), "html") {
                    self.html_in_body(tag)
                } else if str_eq(tag.name.as_str(), "noframes") {
                    self.head_content(tag)
                } else {
                    self.error(ParseErrorKind::StrayStartTag);
                    TokenOutcome::Consumed(None)
                }
            },
            TokenKind::EndTag(tag) => {
                if str_eq(tag.name.as_str(), "html") {
                    self.set_mode(InsertionMode::AfterAfterFrameset);
                    return TokenOutcome::Consumed(None);
                }
                self.error(ParseErrorKind::StrayEndTag);
                TokenOutcome::Consumed(None)
            },
            TokenKind::Eof => TokenOutcome::Consumed(None),
        }
    }

    /// The rules after the `html` element of a frameset document.
    pub fn after_after_frameset(&mut self, kind: &TokenKind) -> (r: TokenOutcome)
        requires
            old(self).wf(),
        ensures
            final(self).wf(),
            (final(self)@, r) == old(self)@.after_after_frameset(kind@),
            r is Consumed,
    {
        proof {
            reveal(BuilderModel::after_after_frameset);
        }
        match kind {
            TokenKind::Character(c) => {
                let c = *c;
                if is_whitespace(c) {
                    return self.in_body_char(c);
                }
                TokenOutcome::Consumed(None)
            },
            TokenKind::Comment(data) => {
                self.comment_to_document(data);
                TokenOutcome::Consumed(None)
            },
            TokenKind::ProcessingInstruction(pi) => {
                self.instruction_to_document(pi);
                TokenOutcome::Consumed(None)
            },
            TokenKind::Doctype(_) => {
                self.error(ParseErrorKind::StrayDoctype);
                TokenOutcome::Consumed(None)
            },
            TokenKind::StartTag(tag) => {
                if str_eq(tag.name.as_str(), "html") {
                    self.html_in_body(tag)
                } else if str_eq(tag.name.as_str(), "noframes") {
                    self.head_content(tag)
                } else {
                    self.error(ParseErrorKind::StrayStartTag);
                    TokenOutcome::Consumed(None)
                }
            },
            TokenKind::EndTag(_) => {
                self.error(ParseErrorKind::StrayEndTag);
                TokenOutcome::Consumed(None)
            },
            TokenKind::Eof => TokenOutcome::Consumed(None),
        }
    }
}

} // verus!
