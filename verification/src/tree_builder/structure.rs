//! What the stack of open elements and the insertion mode say about the document:
//! which of its outer elements are there, and that the rules do not lose them.
use vstd::prelude::*;

use crate::document::model::{DocumentModel, NodeId};
use crate::tree_builder::elements::{html_name, tag_of};
use crate::tree_builder::formatting::FormattingEntry;
use crate::tree_builder::frame::{element_children, frame_kept, inside, kin};
use crate::tree_builder::model::{BuilderModel, InsertionMode};
use crate::tree_builder::parts::{part_named, part_of, Part};

verus! {

/// The document node has exactly one element child, which is an `html` element. The
/// first of its own element children is a `head`, the second a `body` or a
/// `frameset`.
pub open spec fn complete(d: DocumentModel) -> bool {
    let top = element_children(d, d.root);
    let below = element_children(d, top[0]);
    &&& top.len() == 1
    &&& html_name(d.kind(top[0])) == Some("html"@)
    &&& below.len() >= 2
    &&& html_name(d.kind(below[0])) == Some("head"@)
    &&& html_name(d.kind(below[1])) == Some("body"@) || html_name(d.kind(below[1])) == Some(
        "frameset"@,
    )
}

/// The part that an entry of the stack plays.
pub open spec fn part_at(d: DocumentModel, stack: Seq<NodeId>, i: int) -> Part {
    part_of(d.kind(stack[i]))
}

/// Where in the stack a part of a table may stand.
pub open spec fn context_fits(inner: Part, outer: Part) -> bool {
    match inner {
        Part::Caption | Part::Columns | Part::Section => outer is Table || outer is Template,
        Part::Row => outer is Section || outer is Template,
        Part::Cell => outer is Row || outer is Template,
        _ => true,
    }
}

/// A table, a part of one, or a template.
pub open spec fn structural(part: Part) -> bool {
    match part {
        Part::Template
        | Part::Table
        | Part::Caption
        | Part::Columns
        | Part::Section
        | Part::Row
        | Part::Cell => true,
        _ => false,
    }
}

/// An element of the stack below the two outermost.
pub open spec fn inner_fits(d: DocumentModel, stack: Seq<NodeId>, i: int) -> bool {
    &&& match part_at(d, stack, i) {
        Part::Html | Part::Head | Part::Body | Part::Frameset => false,
        _ => true,
    }
    &&& context_fits(part_at(d, stack, i), part_at(d, stack, i - 1))
}

/// The second element of the stack.
pub open spec fn second_fits(d: DocumentModel, stack: Seq<NodeId>, head: NodeId) -> bool {
    match part_at(d, stack, 1) {
        Part::Head => stack[1] == head,
        Part::Body | Part::Template => true,
        Part::Other => stack.len() == 2,
        _ => false,
    }
}

/// The stack begins with an `html` element, and its elements stand where they can.
pub open spec fn stack_fits(d: DocumentModel, stack: Seq<NodeId>, head: NodeId) -> bool {
    &&& stack.len() >= 1
    &&& stack.no_duplicates()
    &&& forall|i: int|
        0 <= i < stack.len() ==> inside(d, #[trigger] stack[i]) && (tag_of(d.kind(stack[i]))
            matches Some(tag) && tag.0 is Some)
    &&& part_at(d, stack, 0) is Html
    &&& stack.len() >= 2 ==> second_fits(d, stack, head)
    &&& forall|i: int| 2 <= i < stack.len() ==> #[trigger] inner_fits(d, stack, i)
}

/// The second element of the stack is the `body` element.
pub open spec fn bodied(d: DocumentModel, stack: Seq<NodeId>) -> bool {
    stack.len() >= 2 && part_at(d, stack, 1) is Body
}

/// The stack holds more than the outermost elements: it is in the `body` element or
/// in a template.
pub open spec fn rooted(d: DocumentModel, stack: Seq<NodeId>) -> bool {
    ||| bodied(d, stack)
    ||| stack.len() >= 2 && part_at(d, stack, 1) is Template
    ||| stack.len() >= 3 && part_at(d, stack, 1) is Head && part_at(d, stack, 2) is Template
}

/// Some element of the stack plays the part.
pub open spec fn holds_part(d: DocumentModel, stack: Seq<NodeId>, part: Part) -> bool {
    exists|i: int| 1 <= i < stack.len() && #[trigger] part_at(d, stack, i) == part
}

/// Tells templates from other nodes.
pub open spec fn is_template(d: DocumentModel) -> spec_fn(NodeId) -> bool {
    |id: NodeId| part_of(d.kind(id)) is Template
}

/// How many templates are open.
pub open spec fn templates(d: DocumentModel, stack: Seq<NodeId>) -> nat {
    stack.filter(is_template(d)).len()
}

/// Active formatting elements play no part.
pub open spec fn entry_fits(d: DocumentModel, entry: FormattingEntry) -> bool {
    match entry {
        FormattingEntry::Element(node) => inside(d, node) && (html_name(d.kind(node)) matches Some(
            name,
        ) && part_named(name) is Other),
        FormattingEntry::Marker => true,
    }
}

pub open spec fn formatting_fits(d: DocumentModel, entries: Seq<FormattingEntry>) -> bool {
    forall|i: int| 0 <= i < entries.len() ==> entry_fits(d, #[trigger] entries[i])
}

pub open spec fn form_fits(d: DocumentModel, form: Option<NodeId>) -> bool {
    form matches Some(node) ==> inside(d, node) && part_of(d.kind(node)) is Other
}

/// A mode that a template can be in.
pub open spec fn template_mode_fits(mode: InsertionMode) -> bool {
    match mode {
        InsertionMode::InTemplate
        | InsertionMode::InTable
        | InsertionMode::InColumnGroup
        | InsertionMode::InTableBody
        | InsertionMode::InRow
        | InsertionMode::InBody => true,
        _ => false,
    }
}

/// The stack is what the insertion mode needs.
pub open spec fn mode_fits(
    d: DocumentModel,
    stack: Seq<NodeId>,
    head: NodeId,
    mode: InsertionMode,
) -> bool {
    match mode {
        InsertionMode::InHead => stack.len() == 2 && stack[1] == head,
        InsertionMode::InHeadNoscript => stack.len() == 3 && stack[1] == head && part_at(
            d,
            stack,
            2,
        ) is Other && html_name(d.kind(stack[2])) is Some,
        InsertionMode::AfterHead => stack.len() == 1,
        InsertionMode::InBody | InsertionMode::InCaption | InsertionMode::InColumnGroup => rooted(
            d,
            stack,
        ),
        InsertionMode::InTemplate => rooted(d, stack) && holds_part(d, stack, Part::Template),
        InsertionMode::InTable => rooted(d, stack) && (holds_part(d, stack, Part::Table)
            || holds_part(d, stack, Part::Template)),
        InsertionMode::InTableBody => rooted(d, stack) && (holds_part(d, stack, Part::Section)
            || holds_part(d, stack, Part::Template)),
        InsertionMode::InRow => rooted(d, stack) && (holds_part(d, stack, Part::Row) || holds_part(
            d,
            stack,
            Part::Template,
        )),
        InsertionMode::InCell => rooted(d, stack) && holds_part(d, stack, Part::Cell),
        InsertionMode::AfterBody | InsertionMode::AfterAfterBody => bodied(d, stack),
        _ => false,
    }
}

impl BuilderModel {
    pub open spec fn small(self) -> bool {
        self.document.nodes.len() <= usize::MAX
    }

    pub open spec fn head(self) -> NodeId {
        self.head_element_pointer->0
    }

    /// The `html` element and the `head` element are there, and so is the `body`
    /// element where it is open.
    pub open spec fn sturdy(self) -> bool {
        let d = self.document;
        let stack = self.open_elements;
        &&& kin(d)
        &&& self.head_element_pointer is Some
        &&& inside(d, self.head())
        &&& part_of(d.kind(self.head())) is Head
        &&& stack_fits(d, stack, self.head())
        &&& element_children(d, d.root) == seq![stack[0]]
        &&& element_children(d, stack[0]) == if bodied(d, stack) {
            seq![self.head(), stack[1]]
        } else {
            seq![self.head()]
        }
        &&& formatting_fits(d, self.formatting)
        &&& form_fits(d, self.form_element_pointer)
        &&& forall|i: int|
            0 <= i < self.template_insertion_modes.len() ==> template_mode_fits(
                #[trigger] self.template_insertion_modes[i],
            )
        &&& bodied(d, stack) || templates(d, stack) <= self.template_insertion_modes.len()
    }

    /// The stack is what the insertion mode, and the one to go back to, need.
    pub open spec fn fits(self) -> bool {
        let d = self.document;
        let stack = self.open_elements;
        match self.insertion_mode {
            InsertionMode::Text => {
                &&& stack.len() >= 2
                &&& part_at(d, stack, stack.len() - 1) is Other
                &&& html_name(d.kind(stack.last())) is Some
                &&& self.original_insertion_mode is Some
                &&& mode_fits(
                    d,
                    stack.drop_last(),
                    self.head(),
                    self.original_insertion_mode->0,
                )
            },
            InsertionMode::InTableText => {
                &&& self.original_insertion_mode matches Some(mode) && (mode is InTable || mode
                    is InTableBody || mode is InRow)
                &&& mode_fits(d, stack, self.head(), self.original_insertion_mode->0)
            },
            mode => mode_fits(d, stack, self.head(), mode),
        }
    }

    /// The rules of the `body` element, of tables or of templates apply.
    #[verifier::opaque]
    pub open spec fn live(self) -> bool {
        self.small() ==> {
            &&& self.sturdy()
            &&& rooted(self.document, self.open_elements)
            &&& self.fits()
            &&& !(self.insertion_mode is Text)
        }
    }

    /// Nothing but what comes before the `html` element is there.
    pub open spec fn unborn(self) -> bool {
        &&& kin(self.document)
        &&& self.open_elements.len() == 0
        &&& self.formatting.len() == 0
        &&& self.template_insertion_modes.len() == 0
        &&& self.form_element_pointer is None
        &&& self.head_element_pointer is None
        &&& element_children(self.document, self.document.root) == Seq::<NodeId>::empty()
        &&& self.insertion_mode is Initial || self.insertion_mode is BeforeHtml
    }

    /// The `html` element is there, and no element in it.
    pub open spec fn headless(self) -> bool {
        let d = self.document;
        &&& kin(d)
        &&& self.open_elements.len() == 1
        &&& inside(d, self.open_elements[0])
        &&& part_at(d, self.open_elements, 0) is Html
        &&& tag_of(d.kind(self.open_elements[0])) matches Some(tag) && tag.0 is Some
        &&& self.formatting.len() == 0
        &&& self.template_insertion_modes.len() == 0
        &&& self.form_element_pointer is None
        &&& self.head_element_pointer is None
        &&& element_children(d, d.root) == seq![self.open_elements[0]]
        &&& element_children(d, self.open_elements[0]) == Seq::<NodeId>::empty()
        &&& self.insertion_mode is BeforeHead
    }

    /// The document is complete, with a `frameset` element.
    pub open spec fn framed(self) -> bool {
        &&& kin(self.document)
        &&& complete(self.document)
        &&& framed_stack(self.document, self.open_elements)
        &&& formatting_fits(self.document, self.formatting)
        &&& match self.insertion_mode {
            InsertionMode::Text => self.original_insertion_mode matches Some(mode)
                && frameset_mode(mode),
            mode => frameset_mode(mode),
        }
    }

    /// What holds between tokens: the document has as much of its frame as the
    /// insertion mode needs.
    #[verifier::opaque]
    pub open spec fn held(self) -> bool {
        self.small() ==> {
            ||| self.unborn()
            ||| self.headless()
            ||| self.sturdy() && self.fits()
            ||| self.framed()
        }
    }
}

/// The stack of a document with a `frameset` element holds HTML elements, and no table,
/// part of one or template.
pub open spec fn framed_stack(d: DocumentModel, stack: Seq<NodeId>) -> bool {
    forall|i: int|
        0 <= i < stack.len() ==> inside(d, #[trigger] stack[i]) && html_name(d.kind(stack[i]))
            is Some && !structural(part_of(d.kind(stack[i])))
}

/// A mode of a document with a `frameset` element.
pub open spec fn frameset_mode(mode: InsertionMode) -> bool {
    mode is InFrameset || mode is AfterFrameset || mode is AfterAfterFrameset
}

/// In the `body` element the document is complete.
pub proof fn lemma_bodied_is_complete(t: BuilderModel)
    requires
        t.sturdy(),
        bodied(t.document, t.open_elements),
    ensures
        complete(t.document),
{
    reveal(part_named);
    let d = t.document;
    assert(html_name(d.kind(t.open_elements[0])) == Some("html"@));
    assert(html_name(d.kind(t.head())) == Some("head"@));
    assert(html_name(d.kind(t.open_elements[1])) == Some("body"@));
}

// ---- Counting templates ----

pub proof fn lemma_templates_kept(d: DocumentModel, e: DocumentModel, stack: Seq<NodeId>)
    requires
        forall|i: int|
            0 <= i < stack.len() ==> tag_of(
                e.kind(#[trigger] stack[i]),
            ) == tag_of(d.kind(stack[i])),
    ensures
        templates(e, stack) == templates(d, stack),
    decreases stack.len(),
{
    reveal(Seq::filter);
    if stack.len() > 0 {
        let rest = stack.drop_last();
        assert forall|i: int| 0 <= i < rest.len() implies tag_of(e.kind(#[trigger] rest[i]))
            == tag_of(d.kind(rest[i])) by {
            assert(rest[i] == stack[i]);
        }
        lemma_templates_kept(d, e, rest);
        let last = stack[stack.len() - 1];
        assert(tag_of(e.kind(last)) == tag_of(d.kind(last)));
    }
}

pub proof fn lemma_templates_add(d: DocumentModel, a: Seq<NodeId>, b: Seq<NodeId>)
    ensures
        templates(d, a + b) == templates(d, a) + templates(d, b),
{
    Seq::filter_distributes_over_add(a, b, is_template(d));
}

pub proof fn lemma_templates_push(d: DocumentModel, stack: Seq<NodeId>, id: NodeId)
    ensures
        templates(d, stack.push(id)) == templates(d, stack) + if part_of(d.kind(id))
            is Template {
            1nat
        } else {
            0
        },
{
    stack.lemma_filter_push(id, is_template(d));
}

pub proof fn lemma_templates_take(d: DocumentModel, stack: Seq<NodeId>, n: int)
    requires
        0 <= n <= stack.len(),
    ensures
        templates(d, stack.take(n)) <= templates(d, stack),
        n < stack.len() && part_at(d, stack, n) is Template ==> templates(d, stack.take(n))
            < templates(d, stack),
{
    assert(stack == stack.take(n) + stack.skip(n));
    lemma_templates_add(d, stack.take(n), stack.skip(n));
    if n < stack.len() {
        assert(stack.skip(n) == seq![stack[n]] + stack.skip(n + 1));
        lemma_templates_add(d, seq![stack[n]], stack.skip(n + 1));
        assert(seq![stack[n]] == Seq::<NodeId>::empty().push(stack[n]));
        lemma_templates_push(d, Seq::<NodeId>::empty(), stack[n]);
    }
}

pub proof fn lemma_templates_remove(d: DocumentModel, stack: Seq<NodeId>, i: int)
    requires
        0 <= i < stack.len(),
    ensures
        templates(d, stack.remove(i)) <= templates(d, stack),
{
    assert(stack.remove(i) == stack.take(i) + stack.skip(i + 1));
    assert(stack == stack.take(i + 1) + stack.skip(i + 1));
    lemma_templates_add(d, stack.take(i), stack.skip(i + 1));
    lemma_templates_add(d, stack.take(i + 1), stack.skip(i + 1));
    assert(stack.take(i + 1) == stack.take(i).push(stack[i]));
    lemma_templates_push(d, stack.take(i), stack[i]);
}

pub proof fn lemma_templates_insert(d: DocumentModel, stack: Seq<NodeId>, i: int, id: NodeId)
    requires
        0 <= i <= stack.len(),
        !(part_of(d.kind(id)) is Template),
    ensures
        templates(d, stack.insert(i, id)) == templates(d, stack),
{
    assert(stack.insert(i, id) == stack.take(i).push(id) + stack.skip(i));
    assert(stack == stack.take(i) + stack.skip(i));
    lemma_templates_add(d, stack.take(i).push(id), stack.skip(i));
    lemma_templates_add(d, stack.take(i), stack.skip(i));
    lemma_templates_push(d, stack.take(i), id);
}

/// Where a template is open, one is counted.
pub proof fn lemma_templates_counted(d: DocumentModel, stack: Seq<NodeId>, i: int)
    requires
        0 <= i < stack.len(),
        part_at(d, stack, i) is Template,
    ensures
        templates(d, stack) >= 1,
{
    lemma_templates_take(d, stack, i);
}

// ---- Changes that keep the structure ----

/// The elements of the first stack that the structure rests on are on the second,
/// and the second has no more templates.
pub open spec fn stack_kept(
    d: DocumentModel,
    e: DocumentModel,
    old_stack: Seq<NodeId>,
    stack: Seq<NodeId>,
) -> bool {
    &&& stack.len() >= 2
    &&& old_stack.len() >= 2
    &&& stack[0] == old_stack[0]
    &&& stack[1] == old_stack[1]
    &&& old_stack.len() >= 3 && part_at(d, old_stack, 2) is Template ==> stack.len() >= 3
        && stack[2] == old_stack[2]
    &&& forall|i: int|
        1 <= i < old_stack.len() && structural(#[trigger] part_at(d, old_stack, i)) ==> exists|
            j: int|
            1 <= j < stack.len() && #[trigger] stack[j] == old_stack[i]
    &&& templates(e, stack) <= templates(d, old_stack)
}

proof fn lemma_holds_part_kept(
    d: DocumentModel,
    e: DocumentModel,
    old_stack: Seq<NodeId>,
    stack: Seq<NodeId>,
    part: Part,
)
    requires
        stack_kept(d, e, old_stack, stack),
        forall|i: int| 0 <= i < old_stack.len() ==> inside(d, #[trigger] old_stack[i]),
        forall|id: NodeId| inside(d, id) ==> tag_of(#[trigger] e.kind(id)) == tag_of(d.kind(id)),
        structural(part),
        holds_part(d, old_stack, part),
    ensures
        holds_part(e, stack, part),
{
    let i = choose|i: int| 1 <= i < old_stack.len() && #[trigger] part_at(d, old_stack, i) == part;
    assert(structural(part_at(d, old_stack, i)));
    let j = choose|j: int| 1 <= j < stack.len() && #[trigger] stack[j] == old_stack[i];
    assert(inside(d, old_stack[i]));
    assert(tag_of(e.kind(old_stack[i])) == tag_of(d.kind(old_stack[i])));
    assert(part_at(e, stack, j) == part);
}

proof fn lemma_mode_kept(
    d: DocumentModel,
    e: DocumentModel,
    old_stack: Seq<NodeId>,
    stack: Seq<NodeId>,
    head: NodeId,
    mode: InsertionMode,
)
    requires
        stack_kept(d, e, old_stack, stack),
        forall|i: int| 0 <= i < old_stack.len() ==> inside(d, #[trigger] old_stack[i]),
        forall|id: NodeId| inside(d, id) ==> tag_of(#[trigger] e.kind(id)) == tag_of(d.kind(id)),
        rooted(d, old_stack),
        part_of(d.kind(head)) is Head,
        mode_fits(d, old_stack, head, mode),
    ensures
        rooted(e, stack),
        bodied(e, stack) == bodied(d, old_stack),
        mode_fits(e, stack, head, mode),
{
    assert(inside(d, old_stack[1]));
    assert(tag_of(e.kind(old_stack[1])) == tag_of(d.kind(old_stack[1])));
    if old_stack.len() >= 3 {
        assert(inside(d, old_stack[2]));
        assert(tag_of(e.kind(old_stack[2])) == tag_of(d.kind(old_stack[2])));
    }
    if holds_part(d, old_stack, Part::Template) {
        lemma_holds_part_kept(d, e, old_stack, stack, Part::Template);
    }
    if holds_part(d, old_stack, Part::Table) {
        lemma_holds_part_kept(d, e, old_stack, stack, Part::Table);
    }
    if holds_part(d, old_stack, Part::Section) {
        lemma_holds_part_kept(d, e, old_stack, stack, Part::Section);
    }
    if holds_part(d, old_stack, Part::Row) {
        lemma_holds_part_kept(d, e, old_stack, stack, Part::Row);
    }
    if holds_part(d, old_stack, Part::Cell) {
        lemma_holds_part_kept(d, e, old_stack, stack, Part::Cell);
    }
}

/// A change of the document that leaves the frame alone, with a change of the stack
/// that loses nothing of the structure.
pub proof fn lemma_live_changed(t: BuilderModel, u: BuilderModel)
    requires
        t.small(),
        t.live(),
        frame_kept(t.document, u.document, t.open_elements[0]),
        u.head_element_pointer == t.head_element_pointer,
        u.insertion_mode == t.insertion_mode,
        u.original_insertion_mode == t.original_insertion_mode,
        u.template_insertion_modes == t.template_insertion_modes,
        stack_fits(u.document, u.open_elements, u.head()),
        stack_kept(t.document, u.document, t.open_elements, u.open_elements),
        formatting_fits(u.document, u.formatting),
        form_fits(u.document, u.form_element_pointer),
    ensures
        u.live(),
{
    reveal(BuilderModel::live);
    let d = t.document;
    let e = u.document;
    let mode = if t.insertion_mode is InTableText {
        t.original_insertion_mode->0
    } else {
        t.insertion_mode
    };
    lemma_mode_kept(d, e, t.open_elements, u.open_elements, t.head(), mode);
    assert(tag_of(e.kind(t.head())) == tag_of(d.kind(t.head())));
}

/// What the rest of a tree builder needs, where only names of nodes count.
pub proof fn lemma_lists_kept(t: BuilderModel, e: DocumentModel, html: NodeId)
    requires
        t.sturdy(),
        frame_kept(t.document, e, html),
    ensures
        stack_fits(e, t.open_elements, t.head()),
        formatting_fits(e, t.formatting),
        form_fits(e, t.form_element_pointer),
        templates(e, t.open_elements) == templates(t.document, t.open_elements),
        forall|i: int|
            0 <= i < t.open_elements.len() ==> tag_of(e.kind(#[trigger] t.open_elements[i]))
                == tag_of(t.document.kind(t.open_elements[i])),
{
    let d = t.document;
    let stack = t.open_elements;
    assert forall|i: int| 0 <= i < stack.len() implies tag_of(
        e.kind(#[trigger] stack[i]),
    ) == tag_of(
        d.kind(stack[i]),
    ) by {
        assert(inside(d, stack[i]));
    }
    lemma_templates_kept(d, e, stack);
    assert forall|i: int| 2 <= i < stack.len() implies #[trigger] inner_fits(e, stack, i) by {
        assert(inner_fits(d, stack, i));
        assert(tag_of(e.kind(stack[i])) == tag_of(d.kind(stack[i])));
        assert(tag_of(e.kind(stack[i - 1])) == tag_of(d.kind(stack[i - 1])));
    }
    assert(tag_of(e.kind(stack[0])) == tag_of(d.kind(stack[0])));
    if stack.len() >= 2 {
        assert(tag_of(e.kind(stack[1])) == tag_of(d.kind(stack[1])));
    }
    assert forall|i: int| 0 <= i < t.formatting.len() implies entry_fits(
        e,
        #[trigger] t.formatting[i],
    ) by {
        assert(entry_fits(d, t.formatting[i]));
        match t.formatting[i] {
            FormattingEntry::Element(node) => {
                assert(tag_of(e.kind(node)) == tag_of(d.kind(node)));
            },
            FormattingEntry::Marker => {},
        }
    }
    match t.form_element_pointer {
        Some(node) => {
            assert(tag_of(e.kind(node)) == tag_of(d.kind(node)));
        },
        None => {},
    }
}

/// A change of the document alone that leaves the frame alone.
pub proof fn lemma_live_document(t: BuilderModel, u: BuilderModel)
    requires
        t.small(),
        t.live(),
        frame_kept(t.document, u.document, t.open_elements[0]),
        u.open_elements == t.open_elements,
        u.formatting == t.formatting,
        u.form_element_pointer == t.form_element_pointer,
        u.head_element_pointer == t.head_element_pointer,
        u.insertion_mode == t.insertion_mode,
        u.original_insertion_mode == t.original_insertion_mode,
        u.template_insertion_modes == t.template_insertion_modes,
    ensures
        u.live(),
{
    reveal(BuilderModel::live);
    lemma_lists_kept(t, u.document, t.open_elements[0]);
    lemma_live_changed(t, u);
}

/// An element of the one part may be opened in one of the other.
pub open spec fn may_follow(inner: Part, outer: Part) -> bool {
    &&& !(inner is Html || inner is Head || inner is Body || inner is Frameset)
    &&& context_fits(inner, outer)
}

/// A new entry at the end of the stack.
pub proof fn lemma_stack_push(
    d: DocumentModel,
    e: DocumentModel,
    stack: Seq<NodeId>,
    head: NodeId,
    id: NodeId,
)
    requires
        stack_fits(e, stack, head),
        forall|i: int|
            0 <= i < stack.len() ==> tag_of(
                e.kind(#[trigger] stack[i]),
            ) == tag_of(d.kind(stack[i])),
        stack.len() >= 2,
        stack.len() == 2 ==> !(part_at(e, stack, 1) is Other),
        !stack.contains(id),
        inside(e, id),
        tag_of(e.kind(id)) matches Some(tag) && tag.0 is Some,
        may_follow(part_of(e.kind(id)), part_at(e, stack, stack.len() - 1)),
    ensures
        stack_fits(e, stack.push(id), head),
        !(part_of(e.kind(id)) is Template) ==> stack_kept(d, e, stack, stack.push(id)),
{
    let longer = stack.push(id);
    assert forall|i: int| 2 <= i < longer.len() implies #[trigger] inner_fits(e, longer, i) by {
        if i < stack.len() {
            assert(inner_fits(e, stack, i));
            assert(longer[i] == stack[i]);
            assert(longer[i - 1] == stack[i - 1]);
        } else {
            assert(longer[i] == id);
        }
    }
    assert forall|i: int| 0 <= i < longer.len() implies inside(e, #[trigger] longer[i]) && (tag_of(
        e.kind(longer[i]),
    ) matches Some(tag) && tag.0 is Some) by {
        if i < stack.len() {
            assert(longer[i] == stack[i]);
        }
    }
    assert(longer[0] == stack[0]);
    assert(longer[1] == stack[1]);
    lemma_templates_push(e, stack, id);
    lemma_templates_kept(d, e, stack);
    assert forall|i: int|
        1 <= i < stack.len() && structural(#[trigger] part_at(d, stack, i)) implies exists|j: int|
        1 <= j < longer.len() && #[trigger] longer[j] == stack[i] by {
        assert(longer[i] == stack[i]);
    }
}

/// The first entries of the stack.
pub proof fn lemma_stack_take(d: DocumentModel, stack: Seq<NodeId>, head: NodeId, n: int)
    requires
        stack_fits(d, stack, head),
        1 <= n <= stack.len(),
    ensures
        stack_fits(d, stack.take(n), head),
{
    let shorter = stack.take(n);
    assert forall|i: int| 2 <= i < n implies #[trigger] inner_fits(d, shorter, i) by {
        assert(inner_fits(d, stack, i));
        assert(shorter[i] == stack[i]);
        assert(shorter[i - 1] == stack[i - 1]);
    }
    assert(shorter[0] == stack[0]);
    if n >= 2 {
        assert(shorter[1] == stack[1]);
    }
    assert forall|i: int| 0 <= i < n implies inside(d, #[trigger] shorter[i]) && (tag_of(
        d.kind(shorter[i]),
    ) matches Some(tag) && tag.0 is Some) by {
        assert(shorter[i] == stack[i]);
    }
}

/// Nothing from the `n`th entry on holds the structure together.
pub open spec fn loose_from(d: DocumentModel, stack: Seq<NodeId>, n: int) -> bool {
    &&& 2 <= n
    &&& forall|i: int|
        n <= i < stack.len() ==> !structural(#[trigger] part_at(d, stack, i))
}

pub proof fn lemma_stack_kept_take(d: DocumentModel, stack: Seq<NodeId>, n: int)
    requires
        loose_from(d, stack, n),
        n <= stack.len(),
    ensures
        stack_kept(d, d, stack, stack.take(n)),
{
    let shorter = stack.take(n);
    assert(shorter[0] == stack[0]);
    assert(shorter[1] == stack[1]);
    if stack.len() >= 3 && part_at(d, stack, 2) is Template {
        assert(n > 2);
        assert(shorter[2] == stack[2]);
    }
    lemma_templates_take(d, stack, n);
    assert forall|i: int|
        1 <= i < stack.len() && structural(#[trigger] part_at(d, stack, i)) implies exists|j: int|
        1 <= j < shorter.len() && #[trigger] shorter[j] == stack[i] by {
        assert(i < n);
        assert(shorter[i] == stack[i]);
    }
}

} // verus!
