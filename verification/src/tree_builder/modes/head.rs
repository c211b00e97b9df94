//! The rules up to the `body` element.
use vstd::prelude::*;

use crate::text::{is_whitespace, str_eq};
use crate::token::{plain_tag, ParseErrorKind, TagModel, TagToken, TokenKind, TokenKindModel};
use crate::tokenizer::model::ExternalState;
use crate::tree_builder::builder::TreeBuilder;
use crate::tree_builder::model::{BuilderModel, InsertionMode, TokenOutcome};
use crate::tree_builder::names::{
    in_head_content, in_head_noscript_content, in_head_void, is_head_content,
    is_head_noscript_content, is_head_void,
};
use crate::tree_builder::progress::lemma_names_differ;
use crate::tree_builder::quirks::{determine_quirks_mode, quirks_mode_of, QuirksMode};

verus! {

impl BuilderModel {
    /// An `html` start tag where one is open already: its attributes are added to the
    /// open element.
    #[verifier::opaque]
    pub open spec fn html_in_body(self, tag: TagModel) -> (Self, TokenOutcome) {
        let t = self.error(ParseErrorKind::StrayStartTag);
        let t = if !t.has_template() {
            t.merge_attributes(0, tag)
        } else {
            t
        };
        (t, TokenOutcome::Consumed(None))
    }

    /// The rules before anything was seen.
    #[verifier::opaque]
    pub open spec fn initial(self, kind: TokenKindModel) -> (Self, TokenOutcome) {
        match kind {
            TokenKindModel::Character(c) => {
                if is_whitespace(c) {
                    (self, TokenOutcome::Consumed(None))
                } else {
                    self.initial_anything_else()
                }
            },
            TokenKindModel::Comment(data) => {
                (self.comment_to_document(data), TokenOutcome::Consumed(None))
            },
            TokenKindModel::ProcessingInstruction(pi) => {
                (self.instruction_to_document(pi), TokenOutcome::Consumed(None))
            },
            TokenKindModel::Doctype(doctype) => {
                let t = self.insert_doctype(doctype).set_quirks_mode(quirks_mode_of(doctype));
                (t.set_mode(InsertionMode::BeforeHtml), TokenOutcome::Consumed(None))
            },
            _ => self.initial_anything_else(),
        }
    }

    /// The rules for a document without a DOCTYPE.
    #[verifier::opaque]
    pub open spec fn initial_anything_else(self) -> (Self, TokenOutcome) {
        let t = self.set_quirks_mode(QuirksMode::Quirks).set_mode(InsertionMode::BeforeHtml);
        (t, TokenOutcome::Reprocess)
    }

    /// The rules before the `html` element.
    #[verifier::opaque]
    pub open spec fn before_html(self, kind: TokenKindModel) -> (Self, TokenOutcome) {
        match kind {
            TokenKindModel::Character(c) => {
                if is_whitespace(c) {
                    (self, TokenOutcome::Consumed(None))
                } else {
                    self.before_html_anything_else()
                }
            },
            TokenKindModel::Comment(data) => {
                (self.comment_to_document(data), TokenOutcome::Consumed(None))
            },
            TokenKindModel::ProcessingInstruction(pi) => {
                (self.instruction_to_document(pi), TokenOutcome::Consumed(None))
            },
            TokenKindModel::Doctype(_) => {
                (self.error(ParseErrorKind::StrayDoctype), TokenOutcome::Consumed(None))
            },
            TokenKindModel::StartTag(tag) => {
                if tag.name == "html"@ {
                    let t = self.insert_root_element(tag, Some(self.token_position));
                    (t.set_mode(InsertionMode::BeforeHead), TokenOutcome::Consumed(None))
                } else {
                    self.before_html_anything_else()
                }
            },
            TokenKindModel::EndTag(tag) => {
                if tag.name == "head"@ || tag.name == "body"@ || tag.name == "html"@
                    || tag.name == "br"@ {
                    self.before_html_anything_else()
                } else {
                    (self.error(ParseErrorKind::StrayEndTag), TokenOutcome::Consumed(None))
                }
            },
            TokenKindModel::Eof => self.before_html_anything_else(),
        }
    }

    /// Implies the `html` element.
    #[verifier::opaque]
    pub open spec fn before_html_anything_else(self) -> (Self, TokenOutcome) {
        let t = self.insert_root_element(plain_tag("html"@), None);
        (t.set_mode(InsertionMode::BeforeHead), TokenOutcome::Reprocess)
    }

    /// The rules before the `head` element.
    #[verifier::opaque]
    pub open spec fn before_head(self, kind: TokenKindModel) -> (Self, TokenOutcome) {
        match kind {
            TokenKindModel::Character(c) => {
                if is_whitespace(c) {
                    (self, TokenOutcome::Consumed(None))
                } else {
                    self.before_head_anything_else()
                }
            },
            TokenKindModel::Comment(data) => {
                (self.comment_here(data), TokenOutcome::Consumed(None))
            },
            TokenKindModel::ProcessingInstruction(pi) => {
                (self.instruction_here(pi), TokenOutcome::Consumed(None))
            },
            TokenKindModel::Doctype(_) => {
                (self.error(ParseErrorKind::StrayDoctype), TokenOutcome::Consumed(None))
            },
            TokenKindModel::StartTag(tag) => {
                if tag.name == "html"@ {
                    self.html_in_body(tag)
                } else {
                    if tag.name == "head"@ {
                        let t = self.insert_here(tag).remember_head();
                        (t.set_mode(InsertionMode::InHead), TokenOutcome::Consumed(None))
                    } else {
                        self.before_head_anything_else()
                    }
                }
            },
            TokenKindModel::EndTag(tag) => {
                if tag.name == "head"@ || tag.name == "body"@ || tag.name == "html"@
                    || tag.name == "br"@ {
                    self.before_head_anything_else()
                } else {
                    (self.error(ParseErrorKind::StrayEndTag), TokenOutcome::Consumed(None))
                }
            },
            TokenKindModel::Eof => self.before_head_anything_else(),
        }
    }

    /// Implies the `head` element.
    #[verifier::opaque]
    pub open spec fn before_head_anything_else(self) -> (Self, TokenOutcome) {
        let t = self.insert_html_element(plain_tag("head"@), None).remember_head();
        (t.set_mode(InsertionMode::InHead), TokenOutcome::Reprocess)
    }

    /// The rules in the `head` element.
    #[verifier::opaque]
    pub open spec fn in_head(self, kind: TokenKindModel) -> (Self, TokenOutcome) {
        match kind {
            TokenKindModel::Character(c) => {
                if is_whitespace(c) {
                    (self.char_here(c), TokenOutcome::Consumed(None))
                } else {
                    self.in_head_anything_else()
                }
            },
            TokenKindModel::Comment(data) => {
                (self.comment_here(data), TokenOutcome::Consumed(None))
            },
            TokenKindModel::ProcessingInstruction(pi) => {
                (self.instruction_here(pi), TokenOutcome::Consumed(None))
            },
            TokenKindModel::Doctype(_) => {
                (self.error(ParseErrorKind::StrayDoctype), TokenOutcome::Consumed(None))
            },
            TokenKindModel::StartTag(tag) => self.in_head_start(tag),
            TokenKindModel::EndTag(tag) => self.in_head_end(tag),
            TokenKindModel::Eof => self.in_head_anything_else(),
        }
    }

    /// The rules for start tags in the `head` element.
    #[verifier::opaque]
    pub open spec fn in_head_start(self, tag: TagModel) -> (Self, TokenOutcome) {
        if tag.name == "html"@ {
            self.html_in_body(tag)
        } else if in_head_content(tag.name) {
            self.head_content(tag)
        } else if tag.name == "noscript"@ {
            let t = self.insert_here(tag).set_mode(InsertionMode::InHeadNoscript);
            (t, TokenOutcome::Consumed(None))
        } else if tag.name == "head"@ {
            (self.error(ParseErrorKind::StrayStartTag), TokenOutcome::Consumed(None))
        } else {
            self.in_head_anything_else()
        }
    }

    /// The rules for start tags of what belongs into the `head` element.
    #[verifier::opaque]
    pub open spec fn head_content(self, tag: TagModel) -> (Self, TokenOutcome) {
        if in_head_void(tag.name) {
            (self.insert_closed(tag), TokenOutcome::Consumed(None))
        } else if tag.name == "title"@ {
            (self.insert_text_here(tag), TokenOutcome::Consumed(Some(ExternalState::RcData)))
        } else if tag.name == "noframes"@ || tag.name == "style"@ {
            (self.insert_text_here(tag), TokenOutcome::Consumed(Some(ExternalState::RawText)))
        } else if tag.name == "script"@ {
            (self.insert_text_here(tag), TokenOutcome::Consumed(Some(ExternalState::ScriptData)))
        } else {
            (self.begin_template(tag), TokenOutcome::Consumed(None))
        }
    }

    /// The rules for end tags in the `head` element.
    #[verifier::opaque]
    pub open spec fn in_head_end(self, tag: TagModel) -> (Self, TokenOutcome) {
        if tag.name == "head"@ {
            (self.pop().set_mode(InsertionMode::AfterHead), TokenOutcome::Consumed(None))
        } else if tag.name == "body"@ || tag.name == "html"@ || tag.name == "br"@ {
            self.in_head_anything_else()
        } else if tag.name == "template"@ {
            (self.end_template(), TokenOutcome::Consumed(None))
        } else {
            (self.error(ParseErrorKind::StrayEndTag), TokenOutcome::Consumed(None))
        }
    }

    /// Closes the `head` element.
    #[verifier::opaque]
    pub open spec fn in_head_anything_else(self) -> (Self, TokenOutcome) {
        (self.pop().set_mode(InsertionMode::AfterHead), TokenOutcome::Reprocess)
    }

    /// The rules in a `noscript` element of the head.
    #[verifier::opaque]
    pub open spec fn in_head_noscript(self, kind: TokenKindModel) -> (Self, TokenOutcome) {
        match kind {
            TokenKindModel::Character(c) => {
                if is_whitespace(c) {
                    (self.char_here(c), TokenOutcome::Consumed(None))
                } else {
                    self.in_head_noscript_anything_else()
                }
            },
            TokenKindModel::Comment(data) => {
                (self.comment_here(data), TokenOutcome::Consumed(None))
            },
            TokenKindModel::ProcessingInstruction(pi) => {
                (self.instruction_here(pi), TokenOutcome::Consumed(None))
            },
            TokenKindModel::Doctype(_) => {
                (self.error(ParseErrorKind::StrayDoctype), TokenOutcome::Consumed(None))
            },
            TokenKindModel::StartTag(tag) => {
                if tag.name == "html"@ {
                    self.html_in_body(tag)
                } else if in_head_noscript_content(tag.name) {
                    self.head_content(tag)
                } else if tag.name == "head"@ || tag.name == "noscript"@ {
                    (self.error(ParseErrorKind::StrayStartTag), TokenOutcome::Consumed(None))
                } else {
                    self.in_head_noscript_anything_else()
                }
            },
            TokenKindModel::EndTag(tag) => {
                if tag.name == "noscript"@ {
                    (self.pop().set_mode(InsertionMode::InHead), TokenOutcome::Consumed(None))
                } else if tag.name == "br"@ {
                    self.in_head_noscript_anything_else()
                } else {
                    (self.error(ParseErrorKind::StrayEndTag), TokenOutcome::Consumed(None))
                }
            },
            TokenKindModel::Eof => self.in_head_noscript_anything_else(),
        }
    }

    /// Closes the `noscript` element.
    #[verifier::opaque]
    pub open spec fn in_head_noscript_anything_else(self) -> (Self, TokenOutcome) {
        (self.pop().set_mode(InsertionMode::InHead), TokenOutcome::Reprocess)
    }

    /// The rules between the `head` and the `body` element.
    #[verifier::opaque]
    pub open spec fn after_head(self, kind: TokenKindModel) -> (Self, TokenOutcome) {
        match kind {
            TokenKindModel::Character(c) => {
                if is_whitespace(c) {
                    (self.char_here(c), TokenOutcome::Consumed(None))
                } else {
                    self.after_head_anything_else()
                }
            },
            TokenKindModel::Comment(data) => {
                (self.comment_here(data), TokenOutcome::Consumed(None))
            },
            TokenKindModel::ProcessingInstruction(pi) => {
                (self.instruction_here(pi), TokenOutcome::Consumed(None))
            },
            TokenKindModel::Doctype(_) => {
                (self.error(ParseErrorKind::StrayDoctype), TokenOutcome::Consumed(None))
            },
            TokenKindModel::StartTag(tag) => {
                if tag.name == "html"@ {
                    self.html_in_body(tag)
                } else if tag.name == "body"@ {
                    let t = self.insert_here(tag).set_mode(InsertionMode::InBody);
                    (t, TokenOutcome::Consumed(None))
                } else if tag.name == "frameset"@ {
                    let t = self.insert_here(tag).set_mode(InsertionMode::InFrameset);
                    (t, TokenOutcome::Consumed(None))
                } else if in_head_content(tag.name) {
                    let t = self.push_head();
                    let (t, r) = t.head_content(tag);
                    (t.remove_head(), r)
                } else if tag.name == "head"@ {
                    (self.error(ParseErrorKind::StrayStartTag), TokenOutcome::Consumed(None))
                } else {
                    self.after_head_anything_else()
                }
            },
            TokenKindModel::EndTag(tag) => {
                if tag.name == "template"@ {
                    (self.end_template(), TokenOutcome::Consumed(None))
                } else if tag.name == "body"@ || tag.name == "html"@ || tag.name == "br"@ {
                    self.after_head_anything_else()
                } else {
                    (self.error(ParseErrorKind::StrayEndTag), TokenOutcome::Consumed(None))
                }
            },
            TokenKindModel::Eof => self.after_head_anything_else(),
        }
    }

    /// Implies the `body` element.
    #[verifier::opaque]
    pub open spec fn after_head_anything_else(self) -> (Self, TokenOutcome) {
        let t = self.insert_html_element(plain_tag("body"@), None).set_mode(InsertionMode::InBody);
        (t, TokenOutcome::Reprocess)
    }
}

impl TreeBuilder {
    /// An `html` start tag where one is open already: its attributes are added to the
    /// open element.
    pub fn html_in_body(&mut self, tag: &TagToken) -> (r: TokenOutcome)
        requires
            old(self).wf(),
        ensures
            final(self).wf(),
            (final(self)@, r) == old(self)@.html_in_body(tag@),
            r is Consumed,
    {
        proof {
            reveal(BuilderModel::html_in_body);
        }
        self.error(ParseErrorKind::StrayStartTag);
        if !self.has_template() {
            self.merge_attributes(0, tag);
        }
        TokenOutcome::Consumed(None)
    }

    /// The rules before anything was seen.
    pub fn initial(&mut self, kind: &TokenKind) -> (r: TokenOutcome)
        requires
            old(self).wf(),
        ensures
            final(self).wf(),
            (final(self)@, r) == old(self)@.initial(kind@),
            old(self)@.insertion_mode is Initial && r is Reprocess ==> old(self)@.advances(
                final(self)@,
                kind@,
            ),
    {
        proof {
            reveal(BuilderModel::initial);
        }
        match kind {
            TokenKind::Character(c) => {
                let c = *c;
                if is_whitespace(c) {
                    return TokenOutcome::Consumed(None);
                }
                self.initial_anything_else()
            },
            TokenKind::Comment(data) => {
                self.comment_to_document(data);
                TokenOutcome::Consumed(None)
            },
            TokenKind::ProcessingInstruction(pi) => {
                self.instruction_to_document(pi);
                TokenOutcome::Consumed(None)
            },
            TokenKind::Doctype(doctype) => {
                self.insert_doctype(doctype);
                self.set_quirks_mode(determine_quirks_mode(doctype));
                self.set_mode(InsertionMode::BeforeHtml);
                TokenOutcome::Consumed(None)
            },
            _ => self.initial_anything_else(),
        }
    }

    /// The rules for a document without a DOCTYPE.
    pub fn initial_anything_else(&mut self) -> (r: TokenOutcome)
        requires
            old(self).wf(),
        ensures
            final(self).wf(),
            (final(self)@, r) == old(self)@.initial_anything_else(),
            final(self)@.insertion_mode is BeforeHtml && old(self)@.opens_nothing(final(self)@),
    {
        proof {
            reveal(BuilderModel::initial_anything_else);
        }
        self.set_quirks_mode(QuirksMode::Quirks);
        self.set_mode(InsertionMode::BeforeHtml);
        TokenOutcome::Reprocess
    }

    /// The rules before the `html` element.
    pub fn before_html(&mut self, kind: &TokenKind) -> (r: TokenOutcome)
        requires
            old(self).wf(),
        ensures
            final(self).wf(),
            (final(self)@, r) == old(self)@.before_html(kind@),
            old(self)@.insertion_mode is BeforeHtml && r is Reprocess ==> old(self)@.advances(
                final(self)@,
                kind@,
            ),
    {
        proof {
            reveal(BuilderModel::before_html);
        }
        match kind {
            TokenKind::Character(c) => {
                let c = *c;
                if is_whitespace(c) {
                    return TokenOutcome::Consumed(None);
                }
                self.before_html_anything_else()
            },
            TokenKind::Comment(data) => {
                self.comment_to_document(data);
                TokenOutcome::Consumed(None)
            },
            TokenKind::ProcessingInstruction(pi) => {
                self.instruction_to_document(pi);
                TokenOutcome::Consumed(None)
            },
            TokenKind::Doctype(_) => {
                self.error(ParseErrorKind::StrayDoctype);
                TokenOutcome::Consumed(None)
            },
            TokenKind::StartTag(tag) => {
                if str_eq(tag.name.as_str(), "html") {
                    let position = Some(self.token_position);
                    self.insert_root_element(tag, position);
                    self.set_mode(InsertionMode::BeforeHead);
                    return TokenOutcome::Consumed(None);
                }
                self.before_html_anything_else()
            },
            TokenKind::EndTag(tag) => {
                if str_eq(tag.name.as_str(), "head") || str_eq(tag.name.as_str(), "body")
                    || str_eq(tag.name.as_str(), "html") || str_eq(tag.name.as_str(), "br") {
                    return self.before_html_anything_else();
                }
                self.error(ParseErrorKind::StrayEndTag);
                TokenOutcome::Consumed(None)
            },
            TokenKind::Eof => self.before_html_anything_else(),
        }
    }

    /// Implies the `html` element.
    pub fn before_html_anything_else(&mut self) -> (r: TokenOutcome)
        requires
            old(self).wf(),
        ensures
            final(self).wf(),
            (final(self)@, r) == old(self)@.before_html_anything_else(),
            final(self)@.insertion_mode is BeforeHead && final(self)@.open_elements.len()
                <= old(self)@.open_elements.len() + 1 && final(self)@.open_tables()
                == old(self)@.open_tables(),
    {
        proof {
            reveal(BuilderModel::before_html_anything_else);
            lemma_names_differ();
        }
        self.insert_root_element(&TagToken::named("html"), None);
        self.set_mode(InsertionMode::BeforeHead);
        TokenOutcome::Reprocess
    }

    /// The rules before the `head` element.
    pub fn before_head(&mut self, kind: &TokenKind) -> (r: TokenOutcome)
        requires
            old(self).wf(),
        ensures
            final(self).wf(),
            (final(self)@, r) == old(self)@.before_head(kind@),
            old(self)@.insertion_mode is BeforeHead && r is Reprocess ==> old(self)@.advances(
                final(self)@,
                kind@,
            ),
    {
        proof {
            reveal(BuilderModel::before_head);
        }
        match kind {
            TokenKind::Character(c) => {
                let c = *c;
                if is_whitespace(c) {
                    return TokenOutcome::Consumed(None);
                }
                self.before_head_anything_else()
            },
            TokenKind::Comment(data) => {
                self.comment_here(data);
                TokenOutcome::Consumed(None)
            },
            TokenKind::ProcessingInstruction(pi) => {
                self.instruction_here(pi);
                TokenOutcome::Consumed(None)
            },
            TokenKind::Doctype(_) => {
                self.error(ParseErrorKind::StrayDoctype);
                TokenOutcome::Consumed(None)
            },
            TokenKind::StartTag(tag) => {
                if str_eq(tag.name.as_str(), "html") {
                    return self.html_in_body(tag);
                }
                if str_eq(tag.name.as_str(), "head") {
                    self.insert_here(tag);
                    self.remember_head();
                    self.set_mode(InsertionMode::InHead);
                    return TokenOutcome::Consumed(None);
                }
                self.before_head_anything_else()
            },
            TokenKind::EndTag(tag) => {
                if str_eq(tag.name.as_str(), "head") || str_eq(tag.name.as_str(), "body")
                    || str_eq(tag.name.as_str(), "html") || str_eq(tag.name.as_str(), "br") {
                    return self.before_head_anything_else();
                }
                self.error(ParseErrorKind::StrayEndTag);
                TokenOutcome::Consumed(None)
            },
            TokenKind::Eof => self.before_head_anything_else(),
        }
    }

    /// Implies the `head` element.
    pub fn before_head_anything_else(&mut self) -> (r: TokenOutcome)
        requires
            old(self).wf(),
        ensures
            final(self).wf(),
            (final(self)@, r) == old(self)@.before_head_anything_else(),
            final(self)@.insertion_mode is InHead && final(self)@.open_elements.len()
                <= old(self)@.open_elements.len() + 1 && final(self)@.open_tables()
                == old(self)@.open_tables(),
    {
        proof {
            reveal(BuilderModel::before_head_anything_else);
            lemma_names_differ();
        }
        self.insert_html_element(&TagToken::named("head"), None);
        self.remember_head();
        self.set_mode(InsertionMode::InHead);
        TokenOutcome::Reprocess
    }

    /// The rules in the `head` element.
    pub fn in_head(&mut self, kind: &TokenKind) -> (r: TokenOutcome)
        requires
            old(self).wf(),
        ensures
            final(self).wf(),
            (final(self)@, r) == old(self)@.in_head(kind@),
            old(self)@.insertion_mode is InHead && r is Reprocess ==> old(self)@.advances(
                final(self)@,
                kind@,
            ),
    {
        proof {
            reveal(BuilderModel::in_head);
        }
        match kind {
            TokenKind::Character(c) => {
                let c = *c;
                if is_whitespace(c) {
                    self.char_here(c);
                    return TokenOutcome::Consumed(None);
                }
                self.in_head_anything_else()
            },
            TokenKind::Comment(data) => {
                self.comment_here(data);
                TokenOutcome::Consumed(None)
            },
            TokenKind::ProcessingInstruction(pi) => {
                self.instruction_here(pi);
                TokenOutcome::Consumed(None)
            },
            TokenKind::Doctype(_) => {
                self.error(ParseErrorKind::StrayDoctype);
                TokenOutcome::Consumed(None)
            },
            TokenKind::StartTag(tag) => self.in_head_start(tag),
            TokenKind::EndTag(tag) => self.in_head_end(tag),
            TokenKind::Eof => self.in_head_anything_else(),
        }
    }

    /// The rules for start tags in the `head` element.
    pub fn in_head_start(&mut self, tag: &TagToken) -> (r: TokenOutcome)
        requires
            old(self).wf(),
        ensures
            final(self).wf(),
            (final(self)@, r) == old(self)@.in_head_start(tag@),
            r is Reprocess ==> final(self)@.insertion_mode is AfterHead && old(self)@.opens_nothing(
                final(self)@,
            ),
    {
        proof {
            reveal(BuilderModel::in_head_start);
        }
        if str_eq(tag.name.as_str(), "html") {
            self.html_in_body(tag)
        } else if is_head_content(tag.name.as_str()) {
            self.head_content(tag)
        } else if str_eq(tag.name.as_str(), "noscript") {
            self.insert_here(tag);
            self.set_mode(InsertionMode::InHeadNoscript);
            TokenOutcome::Consumed(None)
        } else if str_eq(tag.name.as_str(), "head") {
            self.error(ParseErrorKind::StrayStartTag);
            TokenOutcome::Consumed(None)
        } else {
            self.in_head_anything_else()
        }
    }

    /// The rules for start tags of what belongs into the `head` element.
    pub fn head_content(&mut self, tag: &TagToken) -> (r: TokenOutcome)
        requires
            old(self).wf(),
        ensures
            final(self).wf(),
            (final(self)@, r) == old(self)@.head_content(tag@),
            r is Consumed,
    {
        proof {
            reveal(BuilderModel::head_content);
        }
        if is_head_void(tag.name.as_str()) {
            self.insert_closed(tag);
            TokenOutcome::Consumed(None)
        } else if str_eq(tag.name.as_str(), "title") {
            self.insert_text_here(tag);
            TokenOutcome::Consumed(Some(ExternalState::RcData))
        } else if str_eq(tag.name.as_str(), "noframes") || str_eq(tag.name.as_str(), "style") {
            self.insert_text_here(tag);
            TokenOutcome::Consumed(Some(ExternalState::RawText))
        } else if str_eq(tag.name.as_str(), "script") {
            self.insert_text_here(tag);
            TokenOutcome::Consumed(Some(ExternalState::ScriptData))
        } else {
            self.begin_template(tag);
            TokenOutcome::Consumed(None)
        }
    }

    /// The rules for end tags in the `head` element.
    pub fn in_head_end(&mut self, tag: &TagToken) -> (r: TokenOutcome)
        requires
            old(self).wf(),
        ensures
            final(self).wf(),
            (final(self)@, r) == old(self)@.in_head_end(tag@),
            r is Reprocess ==> final(self)@.insertion_mode is AfterHead && old(self)@.opens_nothing(
                final(self)@,
            ),
    {
        proof {
            reveal(BuilderModel::in_head_end);
        }
        if str_eq(tag.name.as_str(), "head") {
            self.pop();
            self.set_mode(InsertionMode::AfterHead);
            TokenOutcome::Consumed(None)
        } else if str_eq(tag.name.as_str(), "body") || str_eq(tag.name.as_str(), "html")
            || str_eq(tag.name.as_str(), "br") {
            self.in_head_anything_else()
        } else if str_eq(tag.name.as_str(), "template") {
            self.end_template();
            TokenOutcome::Consumed(None)
        } else {
            self.error(ParseErrorKind::StrayEndTag);
            TokenOutcome::Consumed(None)
        }
    }

    /// Closes the `head` element.
    pub fn in_head_anything_else(&mut self) -> (r: TokenOutcome)
        requires
            old(self).wf(),
        ensures
            final(self).wf(),
            (final(self)@, r) == old(self)@.in_head_anything_else(),
            final(self)@.insertion_mode is AfterHead && old(self)@.opens_nothing(
                final(self)@,
            ),
    {
        proof {
            reveal(BuilderModel::in_head_anything_else);
        }
        self.pop();
        self.set_mode(InsertionMode::AfterHead);
        TokenOutcome::Reprocess
    }

    /// The rules in a `noscript` element of the head.
    pub fn in_head_noscript(&mut self, kind: &TokenKind) -> (r: TokenOutcome)
        requires
            old(self).wf(),
        ensures
            final(self).wf(),
            (final(self)@, r) == old(self)@.in_head_noscript(kind@),
            old(self)@.insertion_mode is InHeadNoscript && r is Reprocess ==> old(self)@.advances(
                final(self)@,
                kind@,
            ),
    {
        proof {
            reveal(BuilderModel::in_head_noscript);
        }
        match kind {
            TokenKind::Character(c) => {
                let c = *c;
                if is_whitespace(c) {
                    self.char_here(c);
                    return TokenOutcome::Consumed(None);
                }
                self.in_head_noscript_anything_else()
            },
            TokenKind::Comment(data) => {
                self.comment_here(data);
                TokenOutcome::Consumed(None)
            },
            TokenKind::ProcessingInstruction(pi) => {
                self.instruction_here(pi);
                TokenOutcome::Consumed(None)
            },
            TokenKind::Doctype(_) => {
                self.error(ParseErrorKind::StrayDoctype);
                TokenOutcome::Consumed(None)
            },
            TokenKind::StartTag(tag) => {
                if str_eq(tag.name.as_str(), "html") {
                    self.html_in_body(tag)
                } else if is_head_noscript_content(tag.name.as_str()) {
                    self.head_content(tag)
                } else if str_eq(tag.name.as_str(), "head")
                    || str_eq(tag.name.as_str(), "noscript") {
                    self.error(ParseErrorKind::StrayStartTag);
                    TokenOutcome::Consumed(None)
                } else {
                    self.in_head_noscript_anything_else()
                }
            },
            TokenKind::EndTag(tag) => {
                if str_eq(tag.name.as_str(), "noscript") {
                    self.pop();
                    self.set_mode(InsertionMode::InHead);
                    TokenOutcome::Consumed(None)
                } else if str_eq(tag.name.as_str(), "br") {
                    self.in_head_noscript_anything_else()
                } else {
                    self.error(ParseErrorKind::StrayEndTag);
                    TokenOutcome::Consumed(None)
                }
            },
            TokenKind::Eof => self.in_head_noscript_anything_else(),
        }
    }

    /// Closes the `noscript` element.
    pub fn in_head_noscript_anything_else(&mut self) -> (r: TokenOutcome)
        requires
            old(self).wf(),
        ensures
            final(self).wf(),
            (final(self)@, r) == old(self)@.in_head_noscript_anything_else(),
            final(self)@.insertion_mode is InHead && old(self)@.opens_nothing(
                final(self)@,
            ),
    {
        proof {
            reveal(BuilderModel::in_head_noscript_anything_else);
        }
        self.pop();
        self.set_mode(InsertionMode::InHead);
        TokenOutcome::Reprocess
    }

    /// The rules between the `head` and the `body` element.
    pub fn after_head(&mut self, kind: &TokenKind) -> (r: TokenOutcome)
        requires
            old(self).wf(),
        ensures
            final(self).wf(),
            (final(self)@, r) == old(self)@.after_head(kind@),
            old(self)@.insertion_mode is AfterHead && r is Reprocess ==> old(self)@.advances(
                final(self)@,
                kind@,
            ),
    {
        proof {
            reveal(BuilderModel::after_head);
        }
        match kind {
            TokenKind::Character(c) => {
                let c = *c;
                if is_whitespace(c) {
                    self.char_here(c);
                    return TokenOutcome::Consumed(None);
                }
                self.after_head_anything_else()
            },
            TokenKind::Comment(data) => {
                self.comment_here(data);
                TokenOutcome::Consumed(None)
            },
            TokenKind::ProcessingInstruction(pi) => {
                self.instruction_here(pi);
                TokenOutcome::Consumed(None)
            },
            TokenKind::Doctype(_) => {
                self.error(ParseErrorKind::StrayDoctype);
                TokenOutcome::Consumed(None)
            },
            TokenKind::StartTag(tag) => {
                if str_eq(tag.name.as_str(), "html") {
                    self.html_in_body(tag)
                } else if str_eq(tag.name.as_str(), "body") {
                    self.insert_here(tag);
                    self.set_mode(InsertionMode::InBody);
                    TokenOutcome::Consumed(None)
                } else if str_eq(tag.name.as_str(), "frameset") {
                    self.insert_here(tag);
                    self.set_mode(InsertionMode::InFrameset);
                    TokenOutcome::Consumed(None)
                } else if is_head_content(tag.name.as_str()) {
                    self.push_head();
                    let r = self.head_content(tag);
                    self.remove_head();
                    r
                } else if str_eq(tag.name.as_str(), "head") {
                    self.error(ParseErrorKind::StrayStartTag);
                    TokenOutcome::Consumed(None)
                } else {
                    self.after_head_anything_else()
                }
            },
            TokenKind::EndTag(tag) => {
                if str_eq(tag.name.as_str(), "template") {
                    self.end_template();
                    TokenOutcome::Consumed(None)
                } else if str_eq(tag.name.as_str(), "body") || str_eq(tag.name.as_str(), "html")
                    || str_eq(tag.name.as_str(), "br") {
                    self.after_head_anything_else()
                } else {
                    self.error(ParseErrorKind::StrayEndTag);
                    TokenOutcome::Consumed(None)
                }
            },
            TokenKind::Eof => self.after_head_anything_else(),
        }
    }

    /// Implies the `body` element.
    pub fn after_head_anything_else(&mut self) -> (r: TokenOutcome)
        requires
            old(self).wf(),
        ensures
            final(self).wf(),
            (final(self)@, r) == old(self)@.after_head_anything_else(),
            final(self)@.insertion_mode is InBody && final(self)@.open_elements.len()
                <= old(self)@.open_elements.len() + 1 && final(self)@.open_tables()
                == old(self)@.open_tables(),
    {
        proof {
            reveal(BuilderModel::after_head_anything_else);
            lemma_names_differ();
        }
        self.insert_html_element(&TagToken::named("body"), None);
        self.set_mode(InsertionMode::InBody);
        TokenOutcome::Reprocess
    }
}

} // verus!
