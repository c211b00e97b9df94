//! The rules in the `body` element, and in elements whose contents are text.
use vstd::prelude::*;

use crate::text::{is_whitespace, str_eq};
use crate::token::{plain_tag, ParseErrorKind, TagModel, TagToken, TokenKind, TokenKindModel};
use crate::tokenizer::model::ExternalState;
use crate::tree_builder::builder::TreeBuilder;
use crate::tree_builder::elements::{Group, Scope};
use crate::tree_builder::model::{BuilderModel, InsertionMode, TokenOutcome};
use crate::tree_builder::names::{
    in_blocks, in_closable, in_formatting, in_formatting_all, in_head_content, in_headings,
    in_marked, in_misplaced_in_body, in_silent_void, in_void, is_blocks, is_closable, is_formatting,
    is_formatting_all, is_head_content, is_headings, is_marked, is_misplaced_in_body,
    is_silent_void, is_void, MATHML_NAMESPACE, SVG_NAMESPACE,
};
use crate::tree_builder::quirks::QuirksMode;
use crate::tree_builder::steps::{is_hidden, tag_is_hidden};

verus! {

impl BuilderModel {
    /// The rules in the `body` element.
    #[verifier::opaque]
    pub open spec fn in_body(self, kind: TokenKindModel) -> (Self, TokenOutcome) {
        match kind {
            TokenKindModel::Character(c) => self.in_body_char(c),
            TokenKindModel::Comment(data) => {
                (self.comment_here(data), TokenOutcome::Consumed(None))
            },
            TokenKindModel::ProcessingInstruction(pi) => {
                (self.instruction_here(pi), TokenOutcome::Consumed(None))
            },
            TokenKindModel::Doctype(_) => {
                (self.error(ParseErrorKind::StrayDoctype), TokenOutcome::Consumed(None))
            },
            TokenKindModel::StartTag(tag) => self.in_body_start(tag),
            TokenKindModel::EndTag(tag) => self.in_body_end(tag),
            TokenKindModel::Eof => self.in_body_eof(),
        }
    }

    /// The rules for characters in the `body` element.
    #[verifier::opaque]
    pub open spec fn in_body_char(self, c: char) -> (Self, TokenOutcome) {
        if c == '\0' {
            (self, TokenOutcome::Consumed(None))
        } else {
            let t = self.reconstruct_formatting().char_here(c);
            let t = if !is_whitespace(c) {
                t.set_frameset_ok(false)
            } else {
                t
            };
            (t, TokenOutcome::Consumed(None))
        }
    }

    /// The rules for the end of the input in the `body` element.
    #[verifier::opaque]
    pub open spec fn in_body_eof(self) -> (Self, TokenOutcome) {
        if self.template_insertion_modes.len() == 0 {
            let t = if self.unclosed_elements() {
                self.error(ParseErrorKind::EofWithUnclosedElements)
            } else {
                self
            };
            (t, TokenOutcome::Consumed(None))
        } else {
            self.in_template_eof()
        }
    }

    /// The rules for the end of the input in a template.
    #[verifier::opaque]
    pub open spec fn in_template_eof(self) -> (Self, TokenOutcome) {
        if !self.has_template() {
            (self, TokenOutcome::Consumed(None))
        } else {
            let t = self.error(ParseErrorKind::EofWithUnclosedElements).leave_template();
            (t, TokenOutcome::Reprocess)
        }
    }

    /// The rules for start tags in the `body` element.
    #[verifier::opaque]
    pub open spec fn in_body_start(self, tag: TagModel) -> (Self, TokenOutcome) {
        if tag.name == "html"@ {
            self.html_in_body(tag)
        } else if in_head_content(tag.name) {
            self.head_content(tag)
        } else if tag.name == "body"@ {
            let t = self.error(ParseErrorKind::StrayStartTag);
            let t = if t.second_is_body() && !t.has_template() {
                t.set_frameset_ok(false).merge_attributes(1, tag)
            } else {
                t
            };
            (t, TokenOutcome::Consumed(None))
        } else if tag.name == "frameset"@ {
            let t = self.error(ParseErrorKind::StrayStartTag);
            let t = if t.second_is_body() && t.second_is_implied() && t.frameset_ok {
                let t = t.detach_second().pop_to(1).insert_here(tag);
                t.set_mode(InsertionMode::InFrameset)
            } else {
                t
            };
            (t, TokenOutcome::Consumed(None))
        } else {
            self.start_of_block(tag)
        }
    }

    /// The rules for start tags of blocks.
    #[verifier::opaque]
    pub open spec fn start_of_block(self, tag: TagModel) -> (Self, TokenOutcome) {
        if in_blocks(tag.name) {
            (self.close_p().insert_here(tag), TokenOutcome::Consumed(None))
        } else if in_headings(tag.name) {
            let t = self.close_p();
            let t = if t.current_in(Group::Headings) {
                t.pop()
            } else {
                t
            };
            (t.insert_here(tag), TokenOutcome::Consumed(None))
        } else if tag.name == "pre"@ || tag.name == "listing"@ {
            let t = self.close_p().insert_here(tag).set_skip_next_line_feed(true);
            (t.set_frameset_ok(false), TokenOutcome::Consumed(None))
        } else if tag.name == "form"@ {
            if self.form_element_pointer is Some && !self.has_template() {
                (self.error(ParseErrorKind::NestedForm), TokenOutcome::Consumed(None))
            } else {
                let t = self.close_p().insert_here(tag);
                let t = if !t.has_template() {
                    t.remember_form()
                } else {
                    t
                };
                (t, TokenOutcome::Consumed(None))
            }
        } else if tag.name == "li"@ {
            let t = self.set_frameset_ok(false).close_list_item(false).close_p().insert_here(tag);
            (t, TokenOutcome::Consumed(None))
        } else if tag.name == "dd"@ || tag.name == "dt"@ {
            let t = self.set_frameset_ok(false).close_list_item(true).close_p().insert_here(tag);
            (t, TokenOutcome::Consumed(None))
        } else if tag.name == "plaintext"@ {
            let t = self.close_p().insert_here(tag);
            (t, TokenOutcome::Consumed(Some(ExternalState::PlainText)))
        } else {
            self.start_of_formatting(tag)
        }
    }

    /// The rules for start tags of formatting elements and the like.
    #[verifier::opaque]
    pub open spec fn start_of_formatting(self, tag: TagModel) -> (Self, TokenOutcome) {
        if tag.name == "button"@ {
            let t = if self.in_specific_scope("button"@, Scope::Default) {
                self.generate_implied_end_tags(None).pop_until("button"@)
            } else {
                self
            };
            (t.insert_active(tag).set_frameset_ok(false), TokenOutcome::Consumed(None))
        } else if tag.name == "a"@ {
            let t = self.close_active_anchor(tag).insert_active(tag).push_formatting();
            (t, TokenOutcome::Consumed(None))
        } else if in_formatting(tag.name) {
            (self.insert_active(tag).push_formatting(), TokenOutcome::Consumed(None))
        } else if tag.name == "nobr"@ {
            let t = self.reconstruct_formatting();
            let t = if t.in_specific_scope("nobr"@, Scope::Default) {
                let t = t.error(ParseErrorKind::NestedFormattingElement).adoption_agency(tag);
                t.reconstruct_formatting()
            } else {
                t
            };
            (t.insert_here(tag).push_formatting(), TokenOutcome::Consumed(None))
        } else if in_marked(tag.name) {
            let t = self.insert_active(tag).push_marker().set_frameset_ok(false);
            (t, TokenOutcome::Consumed(None))
        } else if tag.name == "table"@ {
            let t = if !(self.quirks_mode is Quirks) {
                self.close_p()
            } else {
                self
            };
            let t = t.insert_here(tag).set_frameset_ok(false).set_mode(InsertionMode::InTable);
            (t, TokenOutcome::Consumed(None))
        } else {
            self.start_of_void(tag)
        }
    }

    /// The rules for start tags of elements without contents, or with text only.
    #[verifier::opaque]
    pub open spec fn start_of_void(self, tag: TagModel) -> (Self, TokenOutcome) {
        if in_void(tag.name) {
            (self.insert_void(tag), TokenOutcome::Consumed(None))
        } else if tag.name == "input"@ {
            let t = if self.in_specific_scope("select"@, Scope::Default) {
                self.pop_until("select"@)
            } else {
                self
            };
            let t = t.reconstruct_formatting().insert_closed(tag);
            let t = if !is_hidden(tag) {
                t.set_frameset_ok(false)
            } else {
                t
            };
            (t, TokenOutcome::Consumed(None))
        } else if in_silent_void(tag.name) {
            (self.insert_closed(tag), TokenOutcome::Consumed(None))
        } else if tag.name == "hr"@ {
            let t = self.close_p();
            let t = if t.in_specific_scope("select"@, Scope::Default) {
                t.generate_implied_end_tags(None)
            } else {
                t
            };
            (t.insert_closed(tag).set_frameset_ok(false), TokenOutcome::Consumed(None))
        } else if tag.name == "image"@ {
            let t = self.error(ParseErrorKind::StartTagImage);
            (t.insert_void((TagModel { name: "img"@, ..tag })), TokenOutcome::Consumed(None))
        } else if tag.name == "textarea"@ {
            let t = self.insert_text_here(tag).set_skip_next_line_feed(true).set_frameset_ok(false);
            (t, TokenOutcome::Consumed(Some(ExternalState::RcData)))
        } else if tag.name == "xmp"@ {
            let t = self.close_p().reconstruct_formatting().set_frameset_ok(false);
            (t.insert_text_here(tag), TokenOutcome::Consumed(Some(ExternalState::RawText)))
        } else if tag.name == "iframe"@ {
            let t = self.set_frameset_ok(false).insert_text_here(tag);
            (t, TokenOutcome::Consumed(Some(ExternalState::RawText)))
        } else if tag.name == "noembed"@ {
            (self.insert_text_here(tag), TokenOutcome::Consumed(Some(ExternalState::RawText)))
        } else {
            self.start_of_control(tag)
        }
    }

    /// The rules for start tags of controls, of ruby and of foreign elements, and for
    /// all that have no rule of their own.
    #[verifier::opaque]
    pub open spec fn start_of_control(self, tag: TagModel) -> (Self, TokenOutcome) {
        if tag.name == "select"@ {
            if self.in_specific_scope("select"@, Scope::Default) {
                let t = self.error(ParseErrorKind::StrayStartTag).pop_until("select"@);
                (t, TokenOutcome::Consumed(None))
            } else {
                (self.insert_active(tag).set_frameset_ok(false), TokenOutcome::Consumed(None))
            }
        } else if tag.name == "option"@ {
            let t = if self.in_specific_scope("select"@, Scope::Default) {
                self.generate_implied_end_tags(Some("optgroup"@))
            } else if self.current_is("option"@) {
                self.pop()
            } else {
                self
            };
            (t.insert_active(tag), TokenOutcome::Consumed(None))
        } else if tag.name == "optgroup"@ {
            let t = if self.in_specific_scope("select"@, Scope::Default) {
                self.generate_implied_end_tags(None)
            } else if self.current_is("option"@) {
                self.pop()
            } else {
                self
            };
            (t.insert_active(tag), TokenOutcome::Consumed(None))
        } else if tag.name == "rb"@ || tag.name == "rtc"@ {
            let t = if self.in_specific_scope("ruby"@, Scope::Default) {
                self.generate_implied_end_tags(None)
            } else {
                self
            };
            (t.insert_here(tag), TokenOutcome::Consumed(None))
        } else if tag.name == "rp"@ || tag.name == "rt"@ {
            let t = if self.in_specific_scope("ruby"@, Scope::Default) {
                self.generate_implied_end_tags(Some("rtc"@))
            } else {
                self
            };
            (t.insert_here(tag), TokenOutcome::Consumed(None))
        } else if tag.name == "math"@ {
            let t = self.reconstruct_formatting().insert_foreign_here(tag, MATHML_NAMESPACE@);
            let t = t.acknowledge_self_closing();
            let t = if tag.self_closing {
                t.pop()
            } else {
                t
            };
            (t, TokenOutcome::Consumed(None))
        } else if tag.name == "svg"@ {
            let t = self.reconstruct_formatting().insert_foreign_here(tag, SVG_NAMESPACE@);
            let t = t.acknowledge_self_closing();
            let t = if tag.self_closing {
                t.pop()
            } else {
                t
            };
            (t, TokenOutcome::Consumed(None))
        } else if in_misplaced_in_body(tag.name) {
            (self.error(ParseErrorKind::StrayStartTag), TokenOutcome::Consumed(None))
        } else {
            (self.insert_active(tag), TokenOutcome::Consumed(None))
        }
    }

    /// The rules for end tags in the `body` element.
    #[verifier::opaque]
    pub open spec fn in_body_end(self, tag: TagModel) -> (Self, TokenOutcome) {
        if tag.name == "template"@ {
            (self.end_template(), TokenOutcome::Consumed(None))
        } else if tag.name == "body"@ {
            if !self.in_specific_scope("body"@, Scope::Default) {
                (self.error(ParseErrorKind::StrayEndTag), TokenOutcome::Consumed(None))
            } else {
                (self.set_mode(InsertionMode::AfterBody), TokenOutcome::Consumed(None))
            }
        } else if tag.name == "html"@ {
            if !self.in_specific_scope("body"@, Scope::Default) {
                (self.error(ParseErrorKind::StrayEndTag), TokenOutcome::Consumed(None))
            } else {
                (self.set_mode(InsertionMode::AfterBody), TokenOutcome::Reprocess)
            }
        } else if in_closable(tag.name) {
            if !self.in_specific_scope(tag.name, Scope::Default) {
                (self.error(ParseErrorKind::StrayEndTag), TokenOutcome::Consumed(None))
            } else {
                (self.close_element(tag.name, None), TokenOutcome::Consumed(None))
            }
        } else if tag.name == "form"@ {
            self.end_of_form()
        } else {
            self.end_of_other(tag)
        }
    }

    /// The rules for the end tag of a form.
    #[verifier::opaque]
    pub open spec fn end_of_form(self) -> (Self, TokenOutcome) {
        if self.has_template() {
            if !self.in_specific_scope("form"@, Scope::Default) {
                (self.error(ParseErrorKind::StrayEndTag), TokenOutcome::Consumed(None))
            } else {
                (self.close_element("form"@, None), TokenOutcome::Consumed(None))
            }
        } else {
            if !self.form_in_scope() {
                let t = self.forget_form().error(ParseErrorKind::StrayEndTag);
                (t, TokenOutcome::Consumed(None))
            } else {
                let t = self.generate_implied_end_tags(None);
                let t = if !t.form_is_current() {
                    t.error(ParseErrorKind::ImpliedEndTagWithUnclosedElements)
                } else {
                    t
                };
                (t.remove_form().forget_form(), TokenOutcome::Consumed(None))
            }
        }
    }

    /// The rules for the end tags of paragraphs, list items, headings and formatting
    /// elements, and for all that have no rule of their own.
    #[verifier::opaque]
    pub open spec fn end_of_other(self, tag: TagModel) -> (Self, TokenOutcome) {
        if tag.name == "p"@ {
            let t = if !self.in_specific_scope("p"@, Scope::Button) {
                let t = self.error(ParseErrorKind::EndTagPWithoutPInButtonScope);
                t.insert_html_element(plain_tag("p"@), None)
            } else {
                self
            };
            (t.close_element("p"@, Some("p"@)), TokenOutcome::Consumed(None))
        } else if tag.name == "li"@ {
            if !self.in_specific_scope("li"@, Scope::ListItem) {
                (self.error(ParseErrorKind::StrayEndTag), TokenOutcome::Consumed(None))
            } else {
                (self.close_element("li"@, Some("li"@)), TokenOutcome::Consumed(None))
            }
        } else if tag.name == "dd"@ || tag.name == "dt"@ {
            if !self.in_specific_scope(tag.name, Scope::Default) {
                (self.error(ParseErrorKind::StrayEndTag), TokenOutcome::Consumed(None))
            } else {
                (self.close_element(tag.name, Some(tag.name)), TokenOutcome::Consumed(None))
            }
        } else if in_headings(tag.name) {
            if !self.group_in_specific_scope(Group::Headings, Scope::Default) {
                (self.error(ParseErrorKind::StrayEndTag), TokenOutcome::Consumed(None))
            } else {
                let t = self.generate_implied_end_tags(None);
                let t = if !t.current_is(tag.name) {
                    t.error(ParseErrorKind::ImpliedEndTagWithUnclosedElements)
                } else {
                    t
                };
                (t.pop_until_one_of(Group::Headings), TokenOutcome::Consumed(None))
            }
        } else if in_formatting_all(tag.name) {
            (self.adoption_agency(tag), TokenOutcome::Consumed(None))
        } else if in_marked(tag.name) {
            if !self.in_specific_scope(tag.name, Scope::Default) {
                (self.error(ParseErrorKind::StrayEndTag), TokenOutcome::Consumed(None))
            } else {
                (self.close_element(tag.name, None).clear_to_marker(), TokenOutcome::Consumed(None))
            }
        } else if tag.name == "br"@ {
            let t = self.error(ParseErrorKind::EndTagBr).insert_void(plain_tag("br"@));
            (t, TokenOutcome::Consumed(None))
        } else {
            (self.any_other_end_tag(tag), TokenOutcome::Consumed(None))
        }
    }

    /// The rules in an element whose contents are text.
    #[verifier::opaque]
    pub open spec fn text(self, kind: TokenKindModel) -> (Self, TokenOutcome) {
        match kind {
            TokenKindModel::Character(c) => (self.char_here(c), TokenOutcome::Consumed(None)),
            TokenKindModel::Eof => {
                let t = self.error(ParseErrorKind::EofInTextMode).pop().resume_mode();
                (t, TokenOutcome::Reprocess)
            },
            TokenKindModel::EndTag(_) => (self.pop().resume_mode(), TokenOutcome::Consumed(None)),
            _ => (self, TokenOutcome::Consumed(None)),
        }
    }
}

impl TreeBuilder {
    /// The rules in the `body` element.
    pub fn in_body(&mut self, kind: &TokenKind) -> (r: TokenOutcome)
        requires
            old(self).wf(),
        ensures
            final(self).wf(),
            (final(self)@, r) == old(self)@.in_body(kind@),
            r is Reprocess ==> old(self)@.closes_a_table(final(self)@) || old(self)@.leaves_body(
                final(self)@,
                kind@,
            ),
    {
        proof {
            reveal(BuilderModel::in_body);
        }
        match kind {
            TokenKind::Character(c) => {
                let c = *c;
                self.in_body_char(c)
            },
            TokenKind::Comment(data) => {
                self.comment_here(data);
                TokenOutcome::Consumed(None)
            },
            TokenKind::ProcessingInstruction(pi) => {
                self.instruction_here(pi);
                TokenOutcome::Consumed(None)
            },
            TokenKind::Doctype(_) => {
                self.error(ParseErrorKind::StrayDoctype);
                TokenOutcome::Consumed(None)
            },
            TokenKind::StartTag(tag) => self.in_body_start(tag),
            TokenKind::EndTag(tag) => self.in_body_end(tag),
            TokenKind::Eof => self.in_body_eof(),
        }
    }

    /// The rules for characters in the `body` element.
    pub fn in_body_char(&mut self, c: char) -> (r: TokenOutcome)
        requires
            old(self).wf(),
        ensures
            final(self).wf(),
            (final(self)@, r) == old(self)@.in_body_char(c),
            r is Consumed,
    {
        proof {
            reveal(BuilderModel::in_body_char);
        }
        if c == '\0' {
            return TokenOutcome::Consumed(None);
        }
        self.reconstruct_the_active_formatting_elements();
        self.char_here(c);
        if !is_whitespace(c) {
            self.set_frameset_ok(false);
        }
        TokenOutcome::Consumed(None)
    }

    /// The rules for the end of the input in the `body` element.
    pub fn in_body_eof(&mut self) -> (r: TokenOutcome)
        requires
            old(self).wf(),
        ensures
            final(self).wf(),
            (final(self)@, r) == old(self)@.in_body_eof(),
            r is Reprocess ==> old(self)@.closes_a_table(final(self)@),
    {
        proof {
            reveal(BuilderModel::in_body_eof);
        }
        if self.template_insertion_modes.len() == 0 {
            if self.unclosed_elements() {
                self.error(ParseErrorKind::EofWithUnclosedElements);
            }
            TokenOutcome::Consumed(None)
        } else {
            self.in_template_eof()
        }
    }

    /// The rules for the end of the input in a template.
    pub fn in_template_eof(&mut self) -> (r: TokenOutcome)
        requires
            old(self).wf(),
        ensures
            final(self).wf(),
            (final(self)@, r) == old(self)@.in_template_eof(),
            r is Reprocess ==> old(self)@.closes_a_table(final(self)@),
    {
        proof {
            reveal(BuilderModel::in_template_eof);
        }
        if !self.has_template() {
            TokenOutcome::Consumed(None)
        } else {
            self.error(ParseErrorKind::EofWithUnclosedElements);
            self.leave_template();
            TokenOutcome::Reprocess
        }
    }

    /// The rules for start tags in the `body` element.
    pub fn in_body_start(&mut self, tag: &TagToken) -> (r: TokenOutcome)
        requires
            old(self).wf(),
        ensures
            final(self).wf(),
            (final(self)@, r) == old(self)@.in_body_start(tag@),
            r is Consumed,
    {
        proof {
            reveal(BuilderModel::in_body_start);
        }
        if str_eq(tag.name.as_str(), "html") {
            self.html_in_body(tag)
        } else if is_head_content(tag.name.as_str()) {
            self.head_content(tag)
        } else if str_eq(tag.name.as_str(), "body") {
            self.error(ParseErrorKind::StrayStartTag);
            if self.second_is_body() && !self.has_template() {
                self.set_frameset_ok(false);
                self.merge_attributes(1, tag);
            }
            TokenOutcome::Consumed(None)
        } else if str_eq(tag.name.as_str(), "frameset") {
            self.error(ParseErrorKind::StrayStartTag);
            if self.second_is_body() && self.second_is_implied() && self.frameset_ok {
                self.detach_second();
                self.pop_to(1);
                self.insert_here(tag);
                self.set_mode(InsertionMode::InFrameset);
            }
            TokenOutcome::Consumed(None)
        } else {
            self.start_of_block(tag)
        }
    }

    /// The rules for start tags of blocks.
    pub fn start_of_block(&mut self, tag: &TagToken) -> (r: TokenOutcome)
        requires
            old(self).wf(),
        ensures
            final(self).wf(),
            (final(self)@, r) == old(self)@.start_of_block(tag@),
            r is Consumed,
    {
        proof {
            reveal(BuilderModel::start_of_block);
        }
        if is_blocks(tag.name.as_str()) {
            self.close_p();
            self.insert_here(tag);
            TokenOutcome::Consumed(None)
        } else if is_headings(tag.name.as_str()) {
            self.close_p();
            if self.current_in(Group::Headings) {
                self.pop();
            }
            self.insert_here(tag);
            TokenOutcome::Consumed(None)
        } else if str_eq(tag.name.as_str(), "pre") || str_eq(tag.name.as_str(), "listing") {
            self.close_p();
            self.insert_here(tag);
            self.set_skip_next_line_feed(true);
            self.set_frameset_ok(false);
            TokenOutcome::Consumed(None)
        } else if str_eq(tag.name.as_str(), "form") {
            if self.form_element_pointer.is_some() && !self.has_template() {
                self.error(ParseErrorKind::NestedForm);
                return TokenOutcome::Consumed(None);
            }
            self.close_p();
            self.insert_here(tag);
            if !self.has_template() {
                self.remember_form();
            }
            TokenOutcome::Consumed(None)
        } else if str_eq(tag.name.as_str(), "li") {
            self.set_frameset_ok(false);
            self.close_list_item(false);
            self.close_p();
            self.insert_here(tag);
            TokenOutcome::Consumed(None)
        } else if str_eq(tag.name.as_str(), "dd") || str_eq(tag.name.as_str(), "dt") {
            self.set_frameset_ok(false);
            self.close_list_item(true);
            self.close_p();
            self.insert_here(tag);
            TokenOutcome::Consumed(None)
        } else if str_eq(tag.name.as_str(), "plaintext") {
            self.close_p();
            self.insert_here(tag);
            TokenOutcome::Consumed(Some(ExternalState::PlainText))
        } else {
            self.start_of_formatting(tag)
        }
    }

    /// The rules for start tags of formatting elements and the like.
    pub fn start_of_formatting(&mut self, tag: &TagToken) -> (r: TokenOutcome)
        requires
            old(self).wf(),
        ensures
            final(self).wf(),
            (final(self)@, r) == old(self)@.start_of_formatting(tag@),
            r is Consumed,
    {
        proof {
            reveal(BuilderModel::start_of_formatting);
        }
        if str_eq(tag.name.as_str(), "button") {
            if self.in_specific_scope("button", Scope::Default) {
                self.generate_implied_end_tags(None);
                self.pop_until("button");
            }
            self.insert_active(tag);
            self.set_frameset_ok(false);
            TokenOutcome::Consumed(None)
        } else if str_eq(tag.name.as_str(), "a") {
            self.close_active_anchor(tag);
            self.insert_active(tag);
            self.push_formatting();
            TokenOutcome::Consumed(None)
        } else if is_formatting(tag.name.as_str()) {
            self.insert_active(tag);
            self.push_formatting();
            TokenOutcome::Consumed(None)
        } else if str_eq(tag.name.as_str(), "nobr") {
            self.reconstruct_the_active_formatting_elements();
            if self.in_specific_scope("nobr", Scope::Default) {
                self.error(ParseErrorKind::NestedFormattingElement);
                self.adoption_agency_algorithm(tag);
                self.reconstruct_the_active_formatting_elements();
            }
            self.insert_here(tag);
            self.push_formatting();
            TokenOutcome::Consumed(None)
        } else if is_marked(tag.name.as_str()) {
            self.insert_active(tag);
            self.push_marker();
            self.set_frameset_ok(false);
            TokenOutcome::Consumed(None)
        } else if str_eq(tag.name.as_str(), "table") {
            if !matches!(self.quirks_mode, QuirksMode::Quirks) {
                self.close_p();
            }
            self.insert_here(tag);
            self.set_frameset_ok(false);
            self.set_mode(InsertionMode::InTable);
            TokenOutcome::Consumed(None)
        } else {
            self.start_of_void(tag)
        }
    }

    /// The rules for start tags of elements without contents, or with text only.
    pub fn start_of_void(&mut self, tag: &TagToken) -> (r: TokenOutcome)
        requires
            old(self).wf(),
        ensures
            final(self).wf(),
            (final(self)@, r) == old(self)@.start_of_void(tag@),
            r is Consumed,
    {
        proof {
            reveal(BuilderModel::start_of_void);
        }
        if is_void(tag.name.as_str()) {
            self.insert_void(tag);
            TokenOutcome::Consumed(None)
        } else if str_eq(tag.name.as_str(), "input") {
            if self.in_specific_scope("select", Scope::Default) {
                self.pop_until("select");
            }
            self.reconstruct_the_active_formatting_elements();
            self.insert_closed(tag);
            if !tag_is_hidden(tag) {
                self.set_frameset_ok(false);
            }
            TokenOutcome::Consumed(None)
        } else if is_silent_void(tag.name.as_str()) {
            self.insert_closed(tag);
            TokenOutcome::Consumed(None)
        } else if str_eq(tag.name.as_str(), "hr") {
            self.close_p();
            if self.in_specific_scope("select", Scope::Default) {
                self.generate_implied_end_tags(None);
            }
            self.insert_closed(tag);
            self.set_frameset_ok(false);
            TokenOutcome::Consumed(None)
        } else if str_eq(tag.name.as_str(), "image") {
            self.error(ParseErrorKind::StartTagImage);
            self.insert_void(&tag.renamed("img"));
            TokenOutcome::Consumed(None)
        } else if str_eq(tag.name.as_str(), "textarea") {
            self.insert_text_here(tag);
            self.set_skip_next_line_feed(true);
            self.set_frameset_ok(false);
            TokenOutcome::Consumed(Some(ExternalState::RcData))
        } else if str_eq(tag.name.as_str(), "xmp") {
            self.close_p();
            self.reconstruct_the_active_formatting_elements();
            self.set_frameset_ok(false);
            self.insert_text_here(tag);
            TokenOutcome::Consumed(Some(ExternalState::RawText))
        } else if str_eq(tag.name.as_str(), "iframe") {
            self.set_frameset_ok(false);
            self.insert_text_here(tag);
            TokenOutcome::Consumed(Some(ExternalState::RawText))
        } else if str_eq(tag.name.as_str(), "noembed") {
            self.insert_text_here(tag);
            TokenOutcome::Consumed(Some(ExternalState::RawText))
        } else {
            self.start_of_control(tag)
        }
    }

    /// The rules for start tags of controls, of ruby and of foreign elements, and for
    /// all that have no rule of their own.
    pub fn start_of_control(&mut self, tag: &TagToken) -> (r: TokenOutcome)
        requires
            old(self).wf(),
        ensures
            final(self).wf(),
            (final(self)@, r) == old(self)@.start_of_control(tag@),
            r is Consumed,
    {
        proof {
            reveal(BuilderModel::start_of_control);
        }
        if str_eq(tag.name.as_str(), "select") {
            if self.in_specific_scope("select", Scope::Default) {
                self.error(ParseErrorKind::StrayStartTag);
                self.pop_until("select");
                return TokenOutcome::Consumed(None);
            }
            self.insert_active(tag);
            self.set_frameset_ok(false);
            TokenOutcome::Consumed(None)
        } else if str_eq(tag.name.as_str(), "option") {
            if self.in_specific_scope("select", Scope::Default) {
                self.generate_implied_end_tags(Some("optgroup"));
            } else if self.current_is("option") {
                self.pop();
            }
            self.insert_active(tag);
            TokenOutcome::Consumed(None)
        } else if str_eq(tag.name.as_str(), "optgroup") {
            if self.in_specific_scope("select", Scope::Default) {
                self.generate_implied_end_tags(None);
            } else if self.current_is("option") {
                self.pop();
            }
            self.insert_active(tag);
            TokenOutcome::Consumed(None)
        } else if str_eq(tag.name.as_str(), "rb") || str_eq(tag.name.as_str(), "rtc") {
            if self.in_specific_scope("ruby", Scope::Default) {
                self.generate_implied_end_tags(None);
            }
            self.insert_here(tag);
            TokenOutcome::Consumed(None)
        } else if str_eq(tag.name.as_str(), "rp") || str_eq(tag.name.as_str(), "rt") {
            if self.in_specific_scope("ruby", Scope::Default) {
                self.generate_implied_end_tags(Some("rtc"));
            }
            self.insert_here(tag);
            TokenOutcome::Consumed(None)
        } else if str_eq(tag.name.as_str(), "math") {
            self.reconstruct_the_active_formatting_elements();
            self.insert_foreign_here(tag, MATHML_NAMESPACE);
            self.acknowledge_self_closing();
            if tag.self_closing {
                self.pop();
            }
            TokenOutcome::Consumed(None)
        } else if str_eq(tag.name.as_str(), "svg") {
            self.reconstruct_the_active_formatting_elements();
            self.insert_foreign_here(tag, SVG_NAMESPACE);
            self.acknowledge_self_closing();
            if tag.self_closing {
                self.pop();
            }
            TokenOutcome::Consumed(None)
        } else if is_misplaced_in_body(tag.name.as_str()) {
            self.error(ParseErrorKind::StrayStartTag);
            TokenOutcome::Consumed(None)
        } else {
            self.insert_active(tag);
            TokenOutcome::Consumed(None)
        }
    }

    /// The rules for end tags in the `body` element.
    pub fn in_body_end(&mut self, tag: &TagToken) -> (r: TokenOutcome)
        requires
            old(self).wf(),
        ensures
            final(self).wf(),
            (final(self)@, r) == old(self)@.in_body_end(tag@),
            r is Reprocess ==> old(self)@.leaves_body(final(self)@, TokenKindModel::EndTag(tag@)),
    {
        proof {
            reveal(BuilderModel::in_body_end);
        }
        if str_eq(tag.name.as_str(), "template") {
            self.end_template();
            TokenOutcome::Consumed(None)
        } else if str_eq(tag.name.as_str(), "body") {
            if !self.in_specific_scope("body", Scope::Default) {
                self.error(ParseErrorKind::StrayEndTag);
                return TokenOutcome::Consumed(None);
            }
            self.set_mode(InsertionMode::AfterBody);
            TokenOutcome::Consumed(None)
        } else if str_eq(tag.name.as_str(), "html") {
            if !self.in_specific_scope("body", Scope::Default) {
                self.error(ParseErrorKind::StrayEndTag);
                return TokenOutcome::Consumed(None);
            }
            self.set_mode(InsertionMode::AfterBody);
            TokenOutcome::Reprocess
        } else if is_closable(tag.name.as_str()) {
            if !self.in_specific_scope(tag.name.as_str(), Scope::Default) {
                self.error(ParseErrorKind::StrayEndTag);
                return TokenOutcome::Consumed(None);
            }
            self.close_element(tag.name.as_str(), None);
            TokenOutcome::Consumed(None)
        } else if str_eq(tag.name.as_str(), "form") {
            self.end_of_form()
        } else {
            self.end_of_other(tag)
        }
    }

    /// The rules for the end tag of a form.
    pub fn end_of_form(&mut self) -> (r: TokenOutcome)
        requires
            old(self).wf(),
        ensures
            final(self).wf(),
            (final(self)@, r) == old(self)@.end_of_form(),
            r is Consumed,
    {
        proof {
            reveal(BuilderModel::end_of_form);
        }
        if self.has_template() {
            if !self.in_specific_scope("form", Scope::Default) {
                self.error(ParseErrorKind::StrayEndTag);
                return TokenOutcome::Consumed(None);
            }
            self.close_element("form", None);
            TokenOutcome::Consumed(None)
        } else {
            if !self.form_in_scope() {
                self.forget_form();
                self.error(ParseErrorKind::StrayEndTag);
                return TokenOutcome::Consumed(None);
            }
            self.generate_implied_end_tags(None);
            if !self.form_is_current() {
                self.error(ParseErrorKind::ImpliedEndTagWithUnclosedElements);
            }
            self.remove_form();
            self.forget_form();
            TokenOutcome::Consumed(None)
        }
    }

    /// The rules for the end tags of paragraphs, list items, headings and formatting
    /// elements, and for all that have no rule of their own.
    pub fn end_of_other(&mut self, tag: &TagToken) -> (r: TokenOutcome)
        requires
            old(self).wf(),
        ensures
            final(self).wf(),
            (final(self)@, r) == old(self)@.end_of_other(tag@),
            r is Consumed,
    {
        proof {
            reveal(BuilderModel::end_of_other);
        }
        if str_eq(tag.name.as_str(), "p") {
            if !self.in_specific_scope("p", Scope::Button) {
                self.error(ParseErrorKind::EndTagPWithoutPInButtonScope);
                self.insert_html_element(&TagToken::named("p"), None);
            }
            self.close_element("p", Some("p"));
            TokenOutcome::Consumed(None)
        } else if str_eq(tag.name.as_str(), "li") {
            if !self.in_specific_scope("li", Scope::ListItem) {
                self.error(ParseErrorKind::StrayEndTag);
                return TokenOutcome::Consumed(None);
            }
            self.close_element("li", Some("li"));
            TokenOutcome::Consumed(None)
        } else if str_eq(tag.name.as_str(), "dd") || str_eq(tag.name.as_str(), "dt") {
            if !self.in_specific_scope(tag.name.as_str(), Scope::Default) {
                self.error(ParseErrorKind::StrayEndTag);
                return TokenOutcome::Consumed(None);
            }
            self.close_element(tag.name.as_str(), Some(tag.name.as_str()));
            TokenOutcome::Consumed(None)
        } else if is_headings(tag.name.as_str()) {
            if !self.group_in_specific_scope(Group::Headings, Scope::Default) {
                self.error(ParseErrorKind::StrayEndTag);
                return TokenOutcome::Consumed(None);
            }
            self.generate_implied_end_tags(None);
            if !self.current_is(tag.name.as_str()) {
                self.error(ParseErrorKind::ImpliedEndTagWithUnclosedElements);
            }
            self.pop_until_one_of(Group::Headings);
            TokenOutcome::Consumed(None)
        } else if is_formatting_all(tag.name.as_str()) {
            self.adoption_agency_algorithm(tag);
            TokenOutcome::Consumed(None)
        } else if is_marked(tag.name.as_str()) {
            if !self.in_specific_scope(tag.name.as_str(), Scope::Default) {
                self.error(ParseErrorKind::StrayEndTag);
                return TokenOutcome::Consumed(None);
            }
            self.close_element(tag.name.as_str(), None);
            self.clear_to_marker();
            TokenOutcome::Consumed(None)
        } else if str_eq(tag.name.as_str(), "br") {
            self.error(ParseErrorKind::EndTagBr);
            self.insert_void(&TagToken::named("br"));
            TokenOutcome::Consumed(None)
        } else {
            self.any_other_end_tag_in_body(tag);
            TokenOutcome::Consumed(None)
        }
    }

    /// The rules in an element whose contents are text.
    pub fn text(&mut self, kind: &TokenKind) -> (r: TokenOutcome)
        requires
            old(self).wf(),
        ensures
            final(self).wf(),
            (final(self)@, r) == old(self)@.text(kind@),
            old(self)@.insertion_mode is Text && r is Reprocess ==> old(self)@.advances(
                final(self)@,
                kind@,
            ),
    {
        proof {
            reveal(BuilderModel::text);
        }
        match kind {
            TokenKind::Character(c) => {
                let c = *c;
                self.char_here(c);
                TokenOutcome::Consumed(None)
            },
            TokenKind::Eof => {
                self.error(ParseErrorKind::EofInTextMode);
                self.pop();
                self.resume_mode();
                TokenOutcome::Reprocess
            },
            TokenKind::EndTag(_) => {
                self.pop();
                self.resume_mode();
                TokenOutcome::Consumed(None)
            },
            _ => TokenOutcome::Consumed(None),
        }
    }
}

} // verus!
