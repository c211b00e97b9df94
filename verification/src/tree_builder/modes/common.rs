//! Steps that the rules of several insertion modes share.
use vstd::prelude::*;

use crate::token::{ParseErrorKind, TagModel, TagToken};
use crate::tree_builder::builder::TreeBuilder;
use crate::tree_builder::elements::{Group, Scope};
use crate::tree_builder::model::{BuilderModel, InsertionMode};

verus! {

impl BuilderModel {
    /// Closes a `p` element that is in button scope.
    #[verifier::opaque]
    pub open spec fn close_p(self) -> Self {
        if self.in_specific_scope("p"@, Scope::Button) {
            self.close_element("p"@, Some("p"@))
        } else {
            self
        }
    }

    /// Inserts an element that has no contents, after opening the active formatting
    /// elements again.
    #[verifier::opaque]
    pub open spec fn insert_void(self, tag: TagModel) -> Self {
        let t = self.reconstruct_formatting().insert_here(tag).pop().acknowledge_self_closing();
        t.set_frameset_ok(false)
    }

    /// Inserts an element after opening the active formatting elements again.
    #[verifier::opaque]
    pub open spec fn insert_active(self, tag: TagModel) -> Self {
        self.reconstruct_formatting().insert_here(tag)
    }

    /// Inserts an element that has no contents.
    #[verifier::opaque]
    pub open spec fn insert_closed(self, tag: TagModel) -> Self {
        self.insert_here(tag).pop().acknowledge_self_closing()
    }

    /// Closes a table cell.
    #[verifier::opaque]
    pub open spec fn close_cell(self) -> Self {
        let t = self.generate_implied_end_tags(None);
        let t = if !t.current_in(Group::Cells) {
            t.error(ParseErrorKind::ImpliedEndTagWithUnclosedElements)
        } else {
            t
        };
        t.pop_until_one_of(Group::Cells).clear_to_marker().set_mode(InsertionMode::InRow)
    }

    /// Closes a table caption.
    #[verifier::opaque]
    pub open spec fn close_caption(self) -> Self {
        let t = self.close_element("caption"@, None).clear_to_marker();
        t.set_mode(InsertionMode::InTable)
    }

    /// Opens a template.
    #[verifier::opaque]
    pub open spec fn begin_template(self, tag: TagModel) -> Self {
        let t = self.insert_here(tag).push_marker().set_frameset_ok(false);
        t.set_mode(InsertionMode::InTemplate).push_template_mode(InsertionMode::InTemplate)
    }

    /// Leaves an open template.
    #[verifier::opaque]
    pub open spec fn leave_template(self) -> Self {
        self.pop_until("template"@).clear_to_marker().pop_template_mode().reset_mode()
    }

    /// Closes a template, with an error if more than implied end tags is missing or
    /// if none is open.
    #[verifier::opaque]
    pub open spec fn end_template(self) -> Self {
        if !self.has_template() {
            self.error(ParseErrorKind::StrayEndTag)
        } else {
            let t = self.generate_implied_end_tags_thoroughly();
            let t = if !t.current_is("template"@) {
                t.error(ParseErrorKind::ImpliedEndTagWithUnclosedElements)
            } else {
                t
            };
            t.leave_template()
        }
    }
}

impl TreeBuilder {
    /// Closes a `p` element that is in button scope.
    pub fn close_p(&mut self)
        requires
            old(self).wf(),
        ensures
            final(self).wf(),
            final(self)@ == old(self)@.close_p(),
            old(self)@.opens_nothing(final(self)@),
    {
        proof {
            reveal(BuilderModel::close_p);
        }
        if self.in_specific_scope("p", Scope::Button) {
            self.close_element("p", Some("p"));
        }
    }

    /// Inserts an element that has no contents, after opening the active formatting
    /// elements again.
    pub fn insert_void(&mut self, tag: &TagToken)
        requires
            old(self).wf(),
        ensures
            final(self).wf(),
            final(self)@ == old(self)@.insert_void(tag@),
    {
        proof {
            reveal(BuilderModel::insert_void);
        }
        self.reconstruct_the_active_formatting_elements();
        self.insert_here(tag);
        self.pop();
        self.acknowledge_self_closing();
        self.set_frameset_ok(false);
    }

    /// Inserts an element after opening the active formatting elements again.
    pub fn insert_active(&mut self, tag: &TagToken)
        requires
            old(self).wf(),
        ensures
            final(self).wf(),
            final(self)@ == old(self)@.insert_active(tag@),
    {
        proof {
            reveal(BuilderModel::insert_active);
        }
        self.reconstruct_the_active_formatting_elements();
        self.insert_here(tag);
    }

    /// Inserts an element that has no contents.
    pub fn insert_closed(&mut self, tag: &TagToken)
        requires
            old(self).wf(),
        ensures
            final(self).wf(),
            final(self)@ == old(self)@.insert_closed(tag@),
    {
        proof {
            reveal(BuilderModel::insert_closed);
        }
        self.insert_here(tag);
        self.pop();
        self.acknowledge_self_closing();
    }

    /// Closes a table cell.
    pub fn close_cell(&mut self)
        requires
            old(self).wf(),
        ensures
            final(self).wf(),
            final(self)@ == old(self)@.close_cell(),
            old(self)@.opens_nothing(final(self)@),
            final(self)@.insertion_mode is InRow,
    {
        proof {
            reveal(BuilderModel::close_cell);
        }
        self.generate_implied_end_tags(None);
        if !self.current_in(Group::Cells) {
            self.error(ParseErrorKind::ImpliedEndTagWithUnclosedElements);
        }
        self.pop_until_one_of(Group::Cells);
        self.clear_to_marker();
        self.set_mode(InsertionMode::InRow);
    }

    /// Closes a table caption.
    pub fn close_caption(&mut self)
        requires
            old(self).wf(),
        ensures
            final(self).wf(),
            final(self)@ == old(self)@.close_caption(),
            old(self)@.opens_nothing(final(self)@),
            final(self)@.insertion_mode is InTable,
    {
        proof {
            reveal(BuilderModel::close_caption);
        }
        self.close_element("caption", None);
        self.clear_to_marker();
        self.set_mode(InsertionMode::InTable);
    }

    /// Opens a template.
    pub fn begin_template(&mut self, tag: &TagToken)
        requires
            old(self).wf(),
        ensures
            final(self).wf(),
            final(self)@ == old(self)@.begin_template(tag@),
    {
        proof {
            reveal(BuilderModel::begin_template);
        }
        self.insert_here(tag);
        self.push_marker();
        self.set_frameset_ok(false);
        self.set_mode(InsertionMode::InTemplate);
        self.push_template_mode(InsertionMode::InTemplate);
    }

    /// Leaves an open template.
    pub fn leave_template(&mut self)
        requires
            old(self).wf(),
        ensures
            final(self).wf(),
            final(self)@ == old(self)@.leave_template(),
            old(self)@.has_template() ==> old(self)@.closes_a_table(final(self)@),
    {
        proof {
            reveal(BuilderModel::leave_template);
        }
        self.pop_until("template");
        self.clear_to_marker();
        self.pop_template_mode();
        self.reset_mode();
    }

    /// Closes a template, with an error if more than implied end tags is missing or
    /// if none is open.
    pub fn end_template(&mut self)
        requires
            old(self).wf(),
        ensures
            final(self).wf(),
            final(self)@ == old(self)@.end_template(),
    {
        proof {
            reveal(BuilderModel::end_template);
        }
        if !self.has_template() {
            self.error(ParseErrorKind::StrayEndTag);
        } else {
            self.generate_implied_end_tags_thoroughly();
            if !self.current_is("template") {
                self.error(ParseErrorKind::ImpliedEndTagWithUnclosedElements);
            }
            self.leave_template();
        }
    }
}

} // verus!
