//! Which token a node comes from: what a tree builder makes of a token is at the position
//! of the token, and what it makes of its own accord is at none.
use vstd::prelude::*;

use crate::document::laws::lemma_merged;
use crate::document::model::{
    merged, without, DocumentModel, ElementAttribute, KindModel, NodeId, NodeModel,
};
use crate::token::{
    plain_tag, AttributeModel, DoctypeModel, ParseErrorKind, Position, ProcessingInstructionModel,
    TagModel, TokenKindModel,
};
use crate::tree_builder::adoption::{
    appended_all, last_formatting_named, lemma_formatting_index_from,
};
use crate::tree_builder::copies::{
    contents_kept, copy_of, lemma_adopt_up_contents, lemma_contents_kept_twice, lemma_created,
    lemma_made_copy, lemma_replant_contents,
};
use crate::tree_builder::elements::Group;
use crate::tree_builder::formatting::{
    after_last_marker, cleared_to_marker, count_alike, first_alike, lemma_after_last_marker,
    lemma_first_alike, with_formatting, FormattingEntry,
};
use crate::tree_builder::model::{
    attributes_for, closed_from, element_for, formatting_index_from, formatting_named, tag_for,
    without_formatting, without_node, BuilderModel, InsertionLocation, InsertionMode,
};
use crate::tree_builder::names::{svg_tag, HTML_NAMESPACE};
use crate::tree_builder::placement::{
    ids_below, lemma_created_nodes, lemma_index_from, lemma_special_after,
};
use crate::tree_builder::quirks::QuirksMode;
use crate::tree_builder::select::{
    after_pop, copied_into, descendants, detached_all, first_selectedcontent, nearest_select,
};
use crate::tree_builder::stack::{index_from, special_after};
use crate::tree_builder::steps::doctype_kind;
use crate::tree_builder::structure_adoption::lemma_last_formatting_named;

verus! {

/// What the origin of a node depends on.
pub enum Sort {
    Document,
    Fragment,
    Element { name: Seq<char> },
    Text,
    Other,
}

pub open spec fn sort_of(kind: KindModel) -> Sort {
    match kind {
        KindModel::Document => Sort::Document,
        KindModel::DocumentFragment => Sort::Fragment,
        KindModel::Element { name, .. } => Sort::Element { name },
        KindModel::Text { .. } => Sort::Text,
        _ => Sort::Other,
    }
}

/// The names of the elements that are made without a tag of their own.
pub open spec fn implied_name(name: Seq<char>) -> bool {
    ||| name == "html"@
    ||| name == "head"@
    ||| name == "body"@
    ||| name == "p"@
    ||| name == "colgroup"@
    ||| name == "tbody"@
    ||| name == "tr"@
}

/// An element of that name is at some position.
#[verifier::opaque]
pub open spec fn written(d: DocumentModel, name: Seq<char>) -> bool {
    exists|i: int|
        0 <= i < d.nodes.len() && sort_of((#[trigger] d.nodes[i]).kind) == (Sort::Element { name })
            && d.nodes[i].position is Some
}

/// An element may be made from that tag at no position: no tag has to be there for it and
/// it has no attributes, or the tag is that of an element that is there.
pub open spec fn fits(d: DocumentModel, tag: TagModel) -> bool {
    d.nodes.len() <= usize::MAX ==> {
        ||| implied_name(tag.name) && tag.attributes.len() == 0
        ||| exists|id: NodeId| #[trigger] names_element(d, id) && tag == tag_for(d.kind(id))
    }
}

/// A node of that sort may be at no position.
pub open spec fn unwritten(d: DocumentModel, sort: Sort) -> bool {
    match sort {
        Sort::Document | Sort::Fragment => true,
        Sort::Element { name } => d.nodes.len() <= usize::MAX ==> implied_name(name) || written(
            d,
            name,
        ),
        _ => d.nodes.len() > usize::MAX,
    }
}

/// A token and the place it comes from, and what was there before it.
pub struct Origin {
    pub kind: TokenKindModel,
    pub nodes: Seq<NodeModel>,
    pub position: Position,
    pub held: Seq<(char, Position)>,
}

impl Origin {
    /// The position of the token, or of a character that was held back.
    pub open spec fn holds(self, position: Position) -> bool {
        position == self.position || exists|i: int|
            0 <= i < self.held.len() && (#[trigger] self.held[i]).1 == position
    }

    /// The position of the token.
    pub open spec fn holds_markup(self, position: Position) -> bool {
        position == self.position
    }

    /// A node of that sort was at the position before.
    #[verifier::opaque]
    pub open spec fn had(self, sort: Sort, position: Position) -> bool {
        exists|i: int|
            0 <= i < self.nodes.len() && sort_of((#[trigger] self.nodes[i]).kind) == sort
                && self.nodes[i].position == Some(position)
    }

    /// The character is that of the token, or was held back. For a NUL a replacement
    /// character may stand.
    pub open spec fn brings(self, c: char) -> bool {
        ||| self.kind == TokenKindModel::Character(c)
        ||| self.kind == TokenKindModel::Character('\0') && c == '\u{FFFD}'
        ||| exists|i: int| 0 <= i < self.held.len() && (#[trigger] self.held[i]).0 == c
    }

    /// The text of a node with characters of the token after it.
    pub open spec fn continues(self, old_kind: KindModel, content: Seq<char>) -> bool {
        &&& old_kind matches KindModel::Text { content: before }
        &&& before.is_prefix_of(content)
        &&& forall|k: int| before.len() <= k < content.len() ==> self.brings(#[trigger] content[k])
    }

    /// A text that the token may leave in a new node: its characters, after those of a text
    /// that was there or alone.
    #[verifier::opaque]
    pub open spec fn spells(self, content: Seq<char>) -> bool {
        ||| forall|k: int| 0 <= k < content.len() ==> self.brings(#[trigger] content[k])
        ||| exists|i: int|
            0 <= i < self.nodes.len() && self.continues((#[trigger] self.nodes[i]).kind, content)
    }

    /// An element may be made from that tag: from the start tag itself, from one for an
    /// `image` element that is made an `img` element, from one in the spelling of SVG, and
    /// from the end tag of a `br` element.
    pub open spec fn makes(self, tag: TagModel) -> bool {
        match self.kind {
            TokenKindModel::StartTag(own) => {
                &&& tag.attributes == own.attributes
                &&& tag.name == own.name || own.name == "image"@ && tag.name == "img"@ || svg_tag(
                    own.name,
                ) == Some(tag.name)
            },
            TokenKindModel::EndTag(own) => own.name == "br"@ && tag == plain_tag("br"@),
            _ => false,
        }
    }

    /// The token is a tag whose attributes can be added to those of an element.
    pub open spec fn merges(self) -> bool {
        self.kind matches TokenKindModel::StartTag(own) && (own.name == "html"@ || own.name
            == "body"@)
    }

    /// A node that the token stands for.
    #[verifier::opaque]
    pub open spec fn stands_for(self, kind: KindModel) -> bool {
        match kind {
            KindModel::Element { .. } => exists|tag: TagModel, namespace: Seq<char>| #[trigger]
                self.makes(tag) && extends(
                    kind,
                    #[trigger] element_for(tag, namespace),
                    self.merges(),
                ),
            KindModel::Comment { content } => self.kind == TokenKindModel::Comment(content),
            KindModel::ProcessingInstruction { target, data } => self.kind
                == TokenKindModel::ProcessingInstruction(
                ProcessingInstructionModel { target, data },
            ),
            KindModel::Doctype { .. } => self.kind matches TokenKindModel::Doctype(doctype)
                && kind == doctype_kind(doctype),
            _ => false,
        }
    }

    /// A new node may be at the position: text at that of the token or of a character that
    /// was held back, other nodes that the token stands for at that of the token; and a
    /// node that is like one that was there before, where that one is.
    pub open spec fn allows(self, kind: KindModel, position: Position) -> bool {
        ||| self.had(sort_of(kind), position)
        ||| kind is Text && self.holds(position)
        ||| self.holds_markup(position) && self.stands_for(kind)
    }
}

/// The element is the second one; where attributes can be added, it may have more of them
/// at the end.
pub open spec fn extends(kind: KindModel, made: KindModel, more: bool) -> bool {
    ||| kind == made
    ||| more && match (kind, made) {
        (
            KindModel::Element { name: a, namespace: b, attributes: c },
            KindModel::Element { name: x, namespace: y, attributes: z },
        ) => a == x && b == y && z.is_prefix_of(c),
        _ => false,
    }
}

/// An element stays one that the token stands for when attributes are added to it.
proof fn lemma_still_stands(
    origin: Origin,
    kind: KindModel,
    attributes: Seq<ElementAttribute>,
)
    requires
        origin.merges(),
        origin.stands_for(kind),
        kind matches KindModel::Element { attributes: own, .. } && own.is_prefix_of(attributes),
    ensures
        kind matches KindModel::Element { name, namespace, .. } && origin.stands_for(
            KindModel::Element { name, namespace, attributes },
        ),
{
    reveal(Origin::stands_for);
    let (tag, namespace) = choose|tag: TagModel, namespace: Seq<char>| #[trigger]
        origin.makes(tag) && extends(kind, #[trigger] element_for(tag, namespace), origin.merges());
    match (kind, element_for(tag, namespace)) {
        (
            KindModel::Element { name, namespace: own, attributes: c },
            KindModel::Element { attributes: z, .. },
        ) => {
            let longer = KindModel::Element { name, namespace: own, attributes };
            assert(z.is_prefix_of(attributes)) by {
                assert(z.is_prefix_of(c));
                assert(c.is_prefix_of(attributes));
            }
            assert(extends(longer, element_for(tag, namespace), origin.merges()));
            assert(origin.makes(tag));
        },
        _ => {},
    }
}

/// An element that is made from a tag of the token.
proof fn lemma_stands_for(origin: Origin, tag: TagModel, namespace: Seq<char>)
    requires
        origin.makes(tag),
    ensures
        origin.stands_for(element_for(tag, namespace)),
{
    reveal(Origin::stands_for);
    assert(extends(element_for(tag, namespace), element_for(tag, namespace), origin.merges()));
}

/// The first element is the second one or a copy of it.
pub open spec fn alike(kind: KindModel, original: KindModel) -> bool {
    kind == original || copy_of(kind, original)
}

/// The element is like one that was there before or that is at some position.
#[verifier::opaque]
pub open spec fn copied(d: DocumentModel, origin: Origin, kind: KindModel) -> bool {
    exists|i: int|
        0 <= i < d.nodes.len() && (i < origin.nodes.len() || d.nodes[i].position is Some) && alike(
            kind,
            (#[trigger] d.nodes[i]).kind,
        )
}

/// A new element may be at no position: it is one that needs no tag, and has no attributes;
/// or it is a copy of another. Only where attributes are added they may be others.
pub open spec fn stands_alone(d: DocumentModel, origin: Origin, kind: KindModel) -> bool {
    ||| d.nodes.len() > usize::MAX
    ||| origin.merges()
    ||| kind matches KindModel::Element { name, attributes, .. } && implied_name(name)
        && attributes.len() == 0
    ||| copied(d, origin, kind)
}

/// The text of a node is what it was with characters of the token after it; that of a new
/// node is one that the token may leave.
pub open spec fn text_traced(kind: KindModel, i: int, origin: Origin) -> bool {
    kind matches KindModel::Text { content } ==> if i < origin.nodes.len() {
        origin.continues(origin.nodes[i].kind, content)
    } else {
        origin.spells(content)
    }
}

/// The second node is the first one, an element like it, or a text like it with a character
/// of the token after it.
pub open spec fn text_next(origin: Origin, kind: KindModel, next: KindModel) -> bool {
    ||| next == kind
    ||| !(next is Text)
    ||| match (kind, next) {
        (
            KindModel::Text { content: before },
            KindModel::Text { content },
        ) => content.len() == before.len() + 1 && content == before.push(content.last())
            && origin.brings(content.last()),
        _ => false,
    }
}

/// A text is itself with nothing after it.
pub proof fn lemma_text_as_it_is(kind: KindModel, i: int, origin: Origin)
    requires
        0 <= i < origin.nodes.len(),
        origin.nodes[i].kind == kind,
    ensures
        text_traced(kind, i, origin),
{
    match kind {
        KindModel::Text { content } => {
            assert(content.subrange(0, content.len() as int) =~= content);
        },
        _ => {},
    }
}

/// One more character of the token.
proof fn lemma_text_next(origin: Origin, i: int, kind: KindModel, next: KindModel)
    requires
        text_traced(kind, i, origin),
        text_next(origin, kind, next),
    ensures
        text_traced(next, i, origin),
{
    if next is Text && next != kind {
        match (kind, next) {
            (KindModel::Text { content: before }, KindModel::Text { content }) => {
                if i < origin.nodes.len() {
                    lemma_continues(origin, origin.nodes[i].kind, before, content);
                } else {
                    reveal(Origin::spells);
                    if forall|k: int| 0 <= k < before.len() ==> origin.brings(
                        #[trigger] before[k],
                    ) {
                        assert forall|k: int| 0 <= k < content.len() implies origin.brings(
                            #[trigger] content[k],
                        ) by {
                            if k < before.len() {
                                assert(content[k] == before[k]);
                            } else {
                                assert(content[k] == content.last());
                            }
                        }
                    } else {
                        let j = choose|j: int|
                            0 <= j < origin.nodes.len() && origin.continues(
                                (#[trigger] origin.nodes[j]).kind,
                                before,
                            );
                        lemma_continues(origin, origin.nodes[j].kind, before, content);
                    }
                }
            },
            _ => {},
        }
    }
}

proof fn lemma_continues(
    origin: Origin,
    old_kind: KindModel,
    before: Seq<char>,
    content: Seq<char>,
)
    requires
        origin.continues(old_kind, before),
        content.len() == before.len() + 1,
        content == before.push(content.last()),
        origin.brings(content.last()),
    ensures
        origin.continues(old_kind, content),
{
    match old_kind {
        KindModel::Text { content: first } => {
            assert(first.is_prefix_of(content)) by {
                assert(first.is_prefix_of(before));
                assert(before.is_prefix_of(content));
            }
            assert forall|k: int| first.len() <= k < content.len() implies origin.brings(
                #[trigger] content[k],
            ) by {
                if k < before.len() {
                    assert(content[k] == before[k]);
                } else {
                    assert(content[k] == content.last());
                }
            }
        },
        _ => {},
    }
}

/// A node that is where it may be: one that was there before where it was, and a new one
/// where the token allows it.
pub open spec fn node_traced(d: DocumentModel, i: int, origin: Origin) -> bool {
    let sort = sort_of(d.nodes[i].kind);
    &&& i < origin.nodes.len() ==> d.nodes[i].position == origin.nodes[i].position && sort
        == sort_of(origin.nodes[i].kind)
    &&& text_traced(d.nodes[i].kind, i, origin)
    &&& match d.nodes[i].position {
        Some(position) => i >= origin.nodes.len() ==> origin.allows(d.nodes[i].kind, position),
        None => unwritten(d, sort) && (i >= origin.nodes.len() && sort is Element ==> stands_alone(
            d,
            origin,
            d.nodes[i].kind,
        )),
    }
}

/// Every node of the document is where it may be.
pub open spec fn document_traced(d: DocumentModel, origin: Origin) -> bool {
    &&& origin.nodes.len() <= d.nodes.len()
    &&& forall|i: int|
        0 <= i < d.nodes.len() ==> #[trigger] node_traced(d, i, origin) && ids_below(
            d.nodes[i].children,
            d.nodes.len(),
        )
}

/// The id names an element.
pub open spec fn names_element(d: DocumentModel, id: NodeId) -> bool {
    id.index < d.nodes.len() && sort_of(d.nodes[id.index as int].kind) is Element
}

/// The entry names an element, or none.
pub open spec fn entry_names(d: DocumentModel, entry: FormattingEntry) -> bool {
    match entry {
        FormattingEntry::Element(node) => names_element(d, node),
        FormattingEntry::Marker => true,
    }
}

/// Every entry names an element, or none.
pub open spec fn entries_name(d: DocumentModel, formatting: Seq<FormattingEntry>) -> bool {
    forall|i: int| 0 <= i < formatting.len() ==> entry_names(d, #[trigger] formatting[i])
}

/// The lists name elements.
pub open spec fn lists_elements(
    d: DocumentModel,
    stack: Seq<NodeId>,
    formatting: Seq<FormattingEntry>,
    head: Option<NodeId>,
) -> bool {
    &&& forall|i: int| 0 <= i < stack.len() ==> names_element(d, #[trigger] stack[i])
    &&& entries_name(d, formatting)
    &&& head matches Some(node) ==> names_element(d, node)
}

impl BuilderModel {
    /// Every node is where it may be, and the lists name elements. The current token is at
    /// a position where text may be; where it is known to be markup, at that of the token.
    #[verifier::opaque]
    pub open spec fn traced(self, origin: Origin, markup: bool) -> bool {
        &&& document_traced(self.document, origin)
        &&& ids_below(self.open_elements, self.document.nodes.len())
        &&& self.head_element_pointer matches Some(head) ==> head.index
            < self.document.nodes.len()
        &&& origin.holds(self.token_position)
        &&& markup ==> origin.holds_markup(self.token_position)
        &&& forall|i: int|
            0 <= i < self.pending_table_character_tokens.len() ==> origin.holds(
                (#[trigger] self.pending_table_character_tokens[i]).1,
            ) && origin.brings(self.pending_table_character_tokens[i].0)
        &&& self.document.nodes.len() <= usize::MAX ==> lists_elements(
            self.document,
            self.open_elements,
            self.formatting,
            self.head_element_pointer,
        )
    }
}

/// The second document has the nodes of the first, of the same sort and at the same place.
pub open spec fn follows(d: DocumentModel, e: DocumentModel) -> bool {
    &&& d.nodes.len() <= e.nodes.len()
    &&& forall|i: int|
        0 <= i < d.nodes.len() ==> sort_of((#[trigger] e.nodes[i]).kind) == sort_of(
            d.nodes[i].kind,
        ) && e.nodes[i].position == d.nodes[i].position
}

proof fn lemma_follows_twice(d: DocumentModel, e: DocumentModel, f: DocumentModel)
    requires
        follows(d, e),
        follows(e, f),
    ensures
        follows(d, f),
{
    assert forall|i: int| 0 <= i < d.nodes.len() implies sort_of((#[trigger] f.nodes[i]).kind)
        == sort_of(d.nodes[i].kind) && f.nodes[i].position == d.nodes[i].position by {
        assert(sort_of(e.nodes[i].kind) == sort_of(d.nodes[i].kind));
    }
}

/// What may be at no position still may.
proof fn lemma_unwritten_kept(d: DocumentModel, e: DocumentModel, sort: Sort)
    requires
        follows(d, e),
        unwritten(d, sort),
    ensures
        unwritten(e, sort),
{
    reveal(written);
    match sort {
        Sort::Element { name } => {
            if e.nodes.len() <= usize::MAX && !implied_name(name) {
                let i = choose|i: int|
                    0 <= i < d.nodes.len() && sort_of((#[trigger] d.nodes[i]).kind) == (
                    Sort::Element { name }) && d.nodes[i].position is Some;
                assert(sort_of(e.nodes[i].kind) == (Sort::Element { name }));
            }
        },
        _ => {},
    }
}

/// Elements stay what they are.
pub open spec fn elements_kept(d: DocumentModel, e: DocumentModel) -> bool {
    forall|i: int|
        0 <= i < d.nodes.len() && d.nodes[i].kind is Element ==> (#[trigger] e.nodes[i]).kind
            == d.nodes[i].kind
}

/// What may stand alone still may.
proof fn lemma_alone_kept(d: DocumentModel, e: DocumentModel, origin: Origin, kind: KindModel)
    requires
        follows(d, e),
        origin.merges() || elements_kept(d, e),
        kind is Element,
        stands_alone(d, origin, kind),
    ensures
        stands_alone(e, origin, kind),
{
    reveal(copied);
    if !origin.merges() && e.nodes.len() <= usize::MAX && copied(d, origin, kind) {
        let i = choose|i: int|
            0 <= i < d.nodes.len() && (i < origin.nodes.len() || d.nodes[i].position is Some)
                && alike(kind, (#[trigger] d.nodes[i]).kind);
        assert(e.nodes[i].kind == d.nodes[i].kind);
    }
}

/// The lists still name elements.
proof fn lemma_lists_kept(d: DocumentModel, e: DocumentModel, t: BuilderModel)
    requires
        follows(d, e),
        lists_elements(d, t.open_elements, t.formatting, t.head_element_pointer),
    ensures
        lists_elements(e, t.open_elements, t.formatting, t.head_element_pointer),
{
    assert forall|i: int| 0 <= i < t.open_elements.len() implies names_element(
        e,
        #[trigger] t.open_elements[i],
    ) by {
        assert(names_element(d, t.open_elements[i]));
    }
    assert forall|i: int| 0 <= i < t.formatting.len() implies entry_names(
        e,
        #[trigger] t.formatting[i],
    ) by {
        assert(entry_names(d, t.formatting[i]));
    }
}

/// The same nodes with other relatives are where they were.
proof fn lemma_traced_kept(d: DocumentModel, e: DocumentModel, origin: Origin)
    requires
        document_traced(d, origin),
        follows(d, e),
        e.nodes.len() == d.nodes.len(),
        forall|i: int|
            0 <= i < e.nodes.len() ==> ids_below((#[trigger] e.nodes[i]).children, e.nodes.len())
                && (origin.stands_for(d.nodes[i].kind) ==> origin.stands_for(e.nodes[i].kind))
                && text_next(origin, d.nodes[i].kind, e.nodes[i].kind),
        origin.merges() || elements_kept(d, e),
    ensures
        document_traced(e, origin),
{
    assert forall|i: int| 0 <= i < e.nodes.len() implies #[trigger] node_traced(e, i, origin) by {
        assert(node_traced(d, i, origin));
        assert(sort_of(e.nodes[i].kind) == sort_of(d.nodes[i].kind));
        lemma_text_next(origin, i, d.nodes[i].kind, e.nodes[i].kind);
        if e.nodes[i].position is None {
            lemma_unwritten_kept(d, e, sort_of(e.nodes[i].kind));
            if i >= origin.nodes.len() && d.nodes[i].kind is Element {
                if !origin.merges() {
                    assert(e.nodes[i].kind == d.nodes[i].kind);
                    lemma_alone_kept(d, e, origin, d.nodes[i].kind);
                }
            }
        }
    }
}

/// An element that is named has a tag that fits.
proof fn lemma_named_fits(d: DocumentModel, id: NodeId)
    requires
        d.nodes.len() <= usize::MAX ==> names_element(d, id),
    ensures
        fits(d, tag_for(d.kind(id))),
{
}

/// A copy of a copy is a copy.
proof fn lemma_alike_twice(a: KindModel, b: KindModel, c: KindModel)
    requires
        alike(a, b),
        alike(b, c),
    ensures
        alike(a, c),
{
    if copy_of(a, b) && copy_of(b, c) {
        match (a, b, c) {
            (
                KindModel::Element { attributes: x, .. },
                KindModel::Element { attributes: y, .. },
                KindModel::Element { attributes: z, .. },
            ) => {
                assert forall|i: int| 0 <= i < x.len() implies (#[trigger] x[i]).name == z[i].name
                    && x[i].value == z[i].value && x[i].namespace is None by {
                    assert(y[i].name == z[i].name);
                }
            },
            _ => {},
        }
    }
}

/// What fits may be at no position.
proof fn lemma_fits(d: DocumentModel, tag: TagModel, origin: Origin)
    requires
        document_traced(d, origin),
        fits(d, tag),
    ensures
        unwritten(d, Sort::Element { name: tag.name }),
        stands_alone(d, origin, element_for(tag, HTML_NAMESPACE@)),
{
    if d.nodes.len() <= usize::MAX {
        reveal(written);
        reveal(copied);
        reveal(attributes_for);
        let made = element_for(tag, HTML_NAMESPACE@);
        if !(implied_name(tag.name) && tag.attributes.len() == 0) {
            let id = choose|id: NodeId| #[trigger]
                names_element(d, id) && tag == tag_for(d.kind(id));
            let i = id.index as int;
            assert(node_traced(d, i, origin));
            assert(sort_of(d.nodes[i].kind) == (Sort::Element { name: tag.name }));
            lemma_made_copy(d.kind(id));
            assert(alike(made, d.nodes[i].kind));
            if i >= origin.nodes.len() && d.nodes[i].position is None && !origin.merges() {
                if copied(d, origin, d.nodes[i].kind) {
                    let j = choose|j: int|
                        0 <= j < d.nodes.len() && (j < origin.nodes.len() || d.nodes[j].position
                            is Some) && alike(d.nodes[i].kind, (#[trigger] d.nodes[j]).kind);
                    lemma_alike_twice(made, d.nodes[i].kind, d.nodes[j].kind);
                    assert(alike(made, d.nodes[j].kind));
                }
            }
        }
    }
}

proof fn traces_new_node(
    d: DocumentModel,
    kind: KindModel,
    position: Option<Position>,
    origin: Origin,
)
    requires
        document_traced(d, origin),
        position matches Some(q) ==> origin.allows(kind, q),
        kind matches KindModel::Text { content } ==> origin.spells(content),
        position is None ==> unwritten(d, sort_of(kind)) && (kind is Element ==> stands_alone(
            d,
            origin,
            kind,
        )),
    ensures
        document_traced(d.new_node(kind, position), origin),
        follows(d, d.new_node(kind, position)),
        d.next_id().index < d.new_node(kind, position).nodes.len() == d.nodes.len() + 1,
{
    let e = d.new_node(kind, position);
    assert(follows(d, e));
    assert(elements_kept(d, e));
    assert forall|i: int| 0 <= i < e.nodes.len() implies #[trigger] node_traced(e, i, origin)
        && ids_below(e.nodes[i].children, e.nodes.len()) by {
        if i < d.nodes.len() {
            assert(e.nodes[i] == d.nodes[i]);
            assert(node_traced(d, i, origin));
        }
        if e.nodes[i].position is None {
            lemma_unwritten_kept(d, e, sort_of(e.nodes[i].kind));
            if i >= origin.nodes.len() && e.nodes[i].kind is Element {
                lemma_alone_kept(d, e, origin, e.nodes[i].kind);
            }
        }
    }
}

proof fn traces_with_node(d: DocumentModel, id: NodeId, node: NodeModel, origin: Origin)
    requires
        document_traced(d, origin),
        id.index < d.nodes.len() ==> sort_of(node.kind) == sort_of(d.node(id).kind)
            && node.position == d.node(id).position && ids_below(node.children, d.nodes.len())
            && (origin.stands_for(d.node(id).kind) ==> origin.stands_for(node.kind)) && text_next(
            origin,
            d.node(id).kind,
            node.kind,
        ) && (origin.merges() || (d.node(id).kind is Element ==> node.kind == d.node(id).kind)),
    ensures
        document_traced(d.with_node(id, node), origin),
        follows(d, d.with_node(id, node)),
        d.with_node(id, node).nodes.len() == d.nodes.len(),
{
    let e = d.with_node(id, node);
    assert forall|i: int| 0 <= i < e.nodes.len() implies ids_below(
        (#[trigger] e.nodes[i]).children,
        e.nodes.len(),
    ) && (origin.stands_for(d.nodes[i].kind) ==> origin.stands_for(e.nodes[i].kind)) && text_next(
        origin,
        d.nodes[i].kind,
        e.nodes[i].kind,
    ) by {
        assert(node_traced(d, i, origin));
    }
    lemma_traced_kept(d, e, origin);
}

proof fn traces_remove(d: DocumentModel, id: NodeId, origin: Origin)
    requires
        document_traced(d, origin),
    ensures
        document_traced(d.remove(id), origin),
        follows(d, d.remove(id)),
        d.remove(id).nodes.len() == d.nodes.len(),
{
    match d.parent(id) {
        Some(p) => {
            let children = without(d.children(p), id);
            let node = NodeModel { children, ..d.node(p) };
            if p.index < d.nodes.len() {
                assert(node_traced(d, p.index as int, origin));
            }
            traces_with_node(d, p, node, origin);
            let e = d.with_children(p, children);
            let child = NodeModel { parent: None, ..e.node(id) };
            if id.index < e.nodes.len() {
                assert(node_traced(e, id.index as int, origin));
            }
            traces_with_node(e, id, child, origin);
            lemma_follows_twice(d, e, d.remove(id));
        },
        None => {},
    }
}

proof fn traces_insert_before(
    d: DocumentModel,
    parent: NodeId,
    reference: Option<NodeId>,
    id: NodeId,
    origin: Origin,
)
    requires
        document_traced(d, origin),
        id.index < d.nodes.len(),
    ensures
        document_traced(d.insert_before(parent, reference, id), origin),
        follows(d, d.insert_before(parent, reference, id)),
        d.insert_before(parent, reference, id).nodes.len() == d.nodes.len(),
{
    traces_remove(d, id, origin);
    let e = d.remove(id);
    let at = e.place(parent, reference);
    let children = e.children(parent).insert(at, id);
    let node = NodeModel { children, ..e.node(parent) };
    if parent.index < e.nodes.len() {
        assert(node_traced(e, parent.index as int, origin));
    }
    traces_with_node(e, parent, node, origin);
    let f = e.with_children(parent, children);
    let child = NodeModel { parent: Some(parent), ..f.node(id) };
    assert(node_traced(f, id.index as int, origin));
    traces_with_node(f, id, child, origin);
    let g = d.insert_before(parent, reference, id);
    lemma_follows_twice(d, e, f);
    lemma_follows_twice(d, f, g);
}

proof fn traces_push_text(d: DocumentModel, id: NodeId, c: char, origin: Origin)
    requires
        document_traced(d, origin),
        origin.brings(c),
    ensures
        document_traced(d.push_text(id, c), origin),
        follows(d, d.push_text(id, c)),
        d.push_text(id, c).nodes.len() == d.nodes.len(),
{
    match d.kind(id) {
        KindModel::Text { content } => {
            let kind = KindModel::Text { content: content.push(c) };
            reveal(Origin::stands_for);
            if id.index < d.nodes.len() {
                assert(node_traced(d, id.index as int, origin));
            }
            traces_with_node(d, id, NodeModel { kind, ..d.node(id) }, origin);
        },
        _ => {},
    }
}

proof fn traces_merge_attributes_of(
    d: DocumentModel,
    id: NodeId,
    attributes: Seq<AttributeModel>,
    origin: Origin,
)
    requires
        document_traced(d, origin),
        origin.merges(),
    ensures
        document_traced(d.merge_attributes(id, attributes), origin),
        follows(d, d.merge_attributes(id, attributes)),
        d.merge_attributes(id, attributes).nodes.len() == d.nodes.len(),
{
    match d.kind(id) {
        KindModel::Element { name, namespace, attributes: own } => {
            let kind = KindModel::Element { name, namespace, attributes: merged(own, attributes) };
            lemma_merged(own, attributes);
            if origin.stands_for(d.kind(id)) {
                lemma_still_stands(origin, d.kind(id), merged(own, attributes));
            }
            if id.index < d.nodes.len() {
                assert(node_traced(d, id.index as int, origin));
            }
            traces_with_node(d, id, NodeModel { kind, ..d.node(id) }, origin);
        },
        _ => {},
    }
}

proof fn traces_detached_all(d: DocumentModel, ids: Seq<NodeId>, origin: Origin)
    requires
        document_traced(d, origin),
    ensures
        document_traced(detached_all(d, ids), origin),
        follows(d, detached_all(d, ids)),
        detached_all(d, ids).nodes.len() == d.nodes.len(),
    decreases ids.len(),
{
    if ids.len() > 0 {
        let e = d.remove(ids[0]);
        traces_remove(d, ids[0], origin);
        traces_detached_all(e, ids.drop_first(), origin);
        lemma_follows_twice(d, e, detached_all(e, ids.drop_first()));
    }
}

proof fn traces_copied_into(
    d: DocumentModel,
    ids: Seq<NodeId>,
    parent: NodeId,
    depth: nat,
    origin: Origin,
)
    requires
        document_traced(d, origin),
        ids_below(ids, d.nodes.len()),
    ensures
        document_traced(copied_into(d, ids, parent, depth), origin),
        follows(d, copied_into(d, ids, parent, depth)),
        copied_into(d, ids, parent, depth).nodes.len() >= d.nodes.len(),
    decreases depth, ids.len(),
{
    if depth > 0 && ids.len() > 0 {
        let below = d.children(ids[0]);
        let copy = d.next_id();
        let kind = d.kind(ids[0]);
        let position = d.node(ids[0]).position;
        let e = d.new_node(kind, position);
        assert(node_traced(d, ids[0].index as int, origin));
        assert(kind matches KindModel::Text { content } ==> origin.spells(content)) by {
            reveal(Origin::spells);
            if ids[0].index < origin.nodes.len() {
                let old_kind = origin.nodes[ids[0].index as int].kind;
                assert(kind matches KindModel::Text { content } ==> origin.continues(
                    old_kind,
                    content,
                ));
            }
        }
        if position is None && kind is Element {
            reveal(copied);
            if ids[0].index < origin.nodes.len() {
                assert(alike(kind, d.nodes[ids[0].index as int].kind));
                assert(copied(d, origin, kind));
            }
        }
        assert(position matches Some(q) ==> origin.allows(kind, q)) by {
            reveal(Origin::had);
            if ids[0].index < origin.nodes.len() {
                assert(origin.nodes[ids[0].index as int].position == position);
            }
        }
        traces_new_node(d, kind, position, origin);
        traces_insert_before(e, parent, None, copy, origin);
        let f = e.append_child(parent, copy);
        lemma_follows_twice(d, e, f);
        traces_copied_into(f, below, copy, (depth - 1) as nat, origin);
        let g = copied_into(f, below, copy, (depth - 1) as nat);
        lemma_follows_twice(d, f, g);
        traces_copied_into(g, ids.drop_first(), parent, depth, origin);
        lemma_follows_twice(d, g, copied_into(g, ids.drop_first(), parent, depth));
    }
}

proof fn traces_after_pop(d: DocumentModel, node: NodeId, origin: Origin)
    requires
        document_traced(d, origin),
        node.index < d.nodes.len(),
    ensures
        document_traced(after_pop(d, node), origin),
        follows(d, after_pop(d, node)),
        after_pop(d, node).nodes.len() >= d.nodes.len(),
{
    reveal(after_pop);
    match nearest_select(d, node, d.nodes.len()) {
        Some(select) => {
            match first_selectedcontent(d, descendants(d, select), 0) {
                Some(target) => {
                    let e = detached_all(d, d.children(target));
                    traces_detached_all(d, d.children(target), origin);
                    assert(node_traced(e, node.index as int, origin));
                    traces_copied_into(e, e.children(node), target, e.nodes.len(), origin);
                    lemma_follows_twice(
                        d,
                        e,
                        copied_into(e, e.children(node), target, e.nodes.len()),
                    );
                },
                None => {},
            }
        },
        None => {},
    }
}

proof fn traces_appended_all(
    d: DocumentModel,
    ids: Seq<NodeId>,
    parent: NodeId,
    origin: Origin,
)
    requires
        document_traced(d, origin),
        ids_below(ids, d.nodes.len()),
    ensures
        document_traced(appended_all(d, ids, parent), origin),
        follows(d, appended_all(d, ids, parent)),
        appended_all(d, ids, parent).nodes.len() == d.nodes.len(),
    decreases ids.len(),
{
    if ids.len() > 0 {
        let e = d.append_child(parent, ids[0]);
        traces_insert_before(d, parent, None, ids[0], origin);
        traces_appended_all(e, ids.drop_first(), parent, origin);
        lemma_follows_twice(d, e, appended_all(e, ids.drop_first(), parent));
    }
}

/// The list without an entry names elements.
proof fn lemma_entries_kept(d: DocumentModel, entries: Seq<FormattingEntry>, node: NodeId)
    requires
        entries_name(d, entries),
    ensures
        entries_name(d, without_formatting(entries, node)),
{
    let kept = without_formatting(entries, node);
    lemma_formatting_index_from(entries, node, 0);
    assert forall|i: int| 0 <= i < kept.len() implies entry_names(d, #[trigger] kept[i]) by {
        let j = match formatting_index_from(entries, node, 0) {
            Some(k) => if i < k {
                i
            } else {
                i + 1
            },
            None => i,
        };
        assert(kept[i] == entries[j]);
    }
}

/// One entry less.
proof fn traces_without_formatting(
    t: BuilderModel,
    node: NodeId,
    origin: Origin,
    markup: bool,
)
    requires
        t.traced(origin, markup),
    ensures
        (BuilderModel { formatting: without_formatting(t.formatting, node), ..t }).traced(
            origin,
            markup,
        ),
{
    reveal(BuilderModel::traced);
    if t.document.nodes.len() <= usize::MAX {
        lemma_entries_kept(t.document, t.formatting, node);
    }
}

/// Another document in the same builder.
proof fn traces_document(t: BuilderModel, e: DocumentModel, origin: Origin, markup: bool)
    requires
        t.traced(origin, markup),
        document_traced(e, origin),
        follows(t.document, e),
    ensures
        (BuilderModel { document: e, ..t }).traced(origin, markup),
{
    reveal(BuilderModel::traced);
    if e.nodes.len() <= usize::MAX {
        lemma_lists_kept(t.document, e, t);
    }
}

proof fn traces_new_node_at(
    t: BuilderModel,
    kind: KindModel,
    position: Option<Position>,
    location: InsertionLocation,
    origin: Origin,
    markup: bool,
)
    requires
        t.traced(origin, markup),
        position matches Some(q) && origin.holds(q) && origin.holds_markup(q),
        !(kind is Document),
        origin.stands_for(kind),
    ensures
        t.new_node_at(kind, position, location).traced(origin, markup),
{
    let d = t.document.new_node(kind, position);
    let e = d.insert_before(location.parent, location.before, t.document.next_id());
    assert(document_traced(e, origin) && follows(t.document, e)) by {
        reveal(BuilderModel::traced);
        reveal(Origin::stands_for);
        traces_new_node(t.document, kind, position, origin);
        traces_insert_before(
            d,
            location.parent,
            location.before,
            t.document.next_id(),
            origin,
        );
        lemma_follows_twice(t.document, d, e);
    }
    traces_document(t, e, origin, markup);
}

#[verifier::rlimit(60)]
#[verifier::spinoff_prover]
proof fn traces_adopt_up(
    t: BuilderModel,
    top: int,
    i: int,
    block: NodeId,
    last: NodeId,
    bookmark: int,
    steps: int,
    origin: Origin,
    markup: bool,
)
    requires
        t.traced(origin, markup),
        0 <= top,
        i < t.open_elements.len(),
        last.index < t.document.nodes.len(),
        0 <= bookmark <= t.formatting.len(),
    ensures
        ({
            let (u, end, mark) = t.adopt_up(top, i, block, last, bookmark, steps);
            &&& u.traced(origin, markup)
            &&& end.index < u.document.nodes.len()
            &&& 0 <= mark <= u.formatting.len()
            &&& t.document.nodes.len() <= u.document.nodes.len()
        }),
    decreases i - top,
{
    if i > top {
        let node = t.open_elements[i];
        let active = formatting_index_from(t.formatting, node, 0);
        let v = if steps >= 3 {
            BuilderModel { formatting: without_formatting(t.formatting, node), ..t }
        } else {
            t
        };
        let next = match active {
            Some(k) => if steps >= 3 && k < bookmark {
                bookmark - 1
            } else {
                bookmark
            },
            None => bookmark,
        };
        traces_without_formatting(t, node, origin, markup);
        lemma_formatting_index_from(t.formatting, node, 0);
        lemma_formatting_index_from(v.formatting, node, 0);
        match formatting_index_from(v.formatting, node, 0) {
            None => {
                let w = BuilderModel { open_elements: v.open_elements.remove(i), ..v };
                assert(w.traced(origin, markup)) by {
                    reveal(BuilderModel::traced);
                }
                traces_adopt_up(
                    w,
                    top,
                    i - 1,
                    block,
                    last,
                    next,
                    steps + 1,
                    origin,
                    markup,
                );
            },
            Some(k) => {
                let copy = v.document.next_id();
                let tag = tag_for(v.document.kind(node));
                let u = v.create_element(tag, HTML_NAMESPACE@, None);
                assert(fits(v.document, tag)) by {
                    reveal(BuilderModel::traced);
                    lemma_formatting_index_from(v.formatting, node, 0);
                    lemma_named_fits(v.document, node);
                }
                traces_create_element(v, tag, HTML_NAMESPACE@, None, origin, markup);
                lemma_created_nodes(v, tag, HTML_NAMESPACE@, None);
                lemma_created_element(v, tag, HTML_NAMESPACE@, None);
                let w = BuilderModel {
                    document: u.document.append_child(copy, last),
                    formatting: u.formatting.update(k, FormattingEntry::Element(copy)),
                    open_elements: u.open_elements.update(i, copy),
                    ..u
                };
                assert(w.traced(origin, markup) && w.document.nodes.len()
                    == u.document.nodes.len()) by {
                    reveal(BuilderModel::traced);
                    traces_insert_before(u.document, copy, None, last, origin);
                    traces_document(u, w.document, origin, markup);
                }
                traces_adopt_up(
                    w,
                    top,
                    i - 1,
                    block,
                    copy,
                    if last == block {
                        k + 1
                    } else {
                        next
                    },
                    steps + 1,
                    origin,
                    markup,
                );
            },
        }
    }
}

proof fn traces_replant(
    t: BuilderModel,
    node: NodeId,
    location: InsertionLocation,
    origin: Origin,
    markup: bool,
)
    requires
        t.traced(origin, markup),
        node.index < t.document.nodes.len(),
    ensures
        t.replant(node, location).traced(origin, markup),
        t.replant(node, location).document.nodes.len() == t.document.nodes.len(),
{
    let d = t.document.remove(node);
    let e = d.insert_before(location.parent, location.before, node);
    assert(document_traced(d, origin) && follows(t.document, d) && document_traced(e, origin)
        && follows(t.document, e)) by {
        reveal(BuilderModel::traced);
        traces_remove(t.document, node, origin);
        traces_insert_before(d, location.parent, location.before, node, origin);
        lemma_follows_twice(t.document, d, e);
    }
    traces_document(t, d, origin, markup);
    traces_document(t, e, origin, markup);
    assert(d.nodes.len() == t.document.nodes.len() && e.nodes.len() == t.document.nodes.len());
}

proof fn traces_replace_formatting_element(
    t: BuilderModel,
    formatting: NodeId,
    block: NodeId,
    bookmark: int,
    origin: Origin,
    markup: bool,
)
    requires
        t.traced(origin, markup),
        block.index < t.document.nodes.len(),
        fits(t.document, tag_for(t.document.kind(formatting))),
        0 <= bookmark <= t.formatting.len(),
    ensures
        t.replace_formatting_element(formatting, block, bookmark).traced(origin, markup),
{
    let copy = t.document.next_id();
    let tag = tag_for(t.document.kind(formatting));
    let u = t.create_element(tag, HTML_NAMESPACE@, None);
    traces_create_element(t, tag, HTML_NAMESPACE@, None, origin, markup);
    lemma_created_nodes(t, tag, HTML_NAMESPACE@, None);
    lemma_created_element(t, tag, HTML_NAMESPACE@, None);
    let children = u.document.children(block);
    let d = u.document.append_child(block, copy);
    let e = appended_all(d, children, copy);
    assert(document_traced(e, origin) && follows(u.document, e) && e.nodes.len()
        == u.document.nodes.len()) by {
        reveal(BuilderModel::traced);
        assert(node_traced(u.document, block.index as int, origin));
        traces_insert_before(u.document, block, None, copy, origin);
        traces_appended_all(d, children, copy, origin);
        lemma_follows_twice(u.document, d, e);
    }
    traces_document(u, e, origin, markup);
    reveal(BuilderModel::traced);
    let v = BuilderModel { document: e, ..u };
    let r = t.replace_formatting_element(formatting, block, bookmark);
    let stack = without_node(u.open_elements, formatting);
    lemma_index_from(u.open_elements, formatting, 0);
    lemma_index_from(stack, block, 0);
    assert(ids_below(stack, u.document.nodes.len()));
    if e.nodes.len() <= usize::MAX {
        assert(names_element(e, copy)) by {
            assert(sort_of(e.nodes[copy.index as int].kind) == sort_of(
                u.document.nodes[copy.index as int].kind,
            ));
        }
        lemma_entries_kept(e, v.formatting, formatting);
        lemma_formatting_index_from(v.formatting, formatting, 0);
        let kept = without_formatting(v.formatting, formatting);
        let place = match formatting_index_from(v.formatting, formatting, 0) {
            Some(k) => if k < bookmark {
                bookmark - 1
            } else {
                bookmark
            },
            None => bookmark,
        };
        assert(r.formatting == kept.insert(place, FormattingEntry::Element(copy)));
        assert forall|i: int| 0 <= i < r.formatting.len() implies entry_names(
            e,
            #[trigger] r.formatting[i],
        ) by {
            if i < place {
                assert(r.formatting[i] == kept[i]);
            } else if i > place {
                assert(r.formatting[i] == kept[i - 1]);
            }
        }
        assert forall|i: int| 0 <= i < stack.len() implies names_element(
            e,
            #[trigger] stack[i],
        ) by {
            let j = match index_from(u.open_elements, formatting, 0) {
                Some(k) => if i < k {
                    i
                } else {
                    i + 1
                },
                None => i,
            };
            assert(stack[i] == v.open_elements[j]);
        }
        let at = match index_from(stack, block, 0) {
            Some(k) => k + 1,
            None => stack.len() as int,
        };
        assert(r.open_elements == stack.insert(at, copy));
        assert forall|i: int| 0 <= i < r.open_elements.len() implies names_element(
            e,
            #[trigger] r.open_elements[i],
        ) by {
            if i < at {
                assert(r.open_elements[i] == stack[i]);
            } else if i > at {
                assert(r.open_elements[i] == stack[i - 1]);
            }
        }
    }
}

pub broadcast proof fn traces_error(
    t: BuilderModel,
    kind: ParseErrorKind,
    origin: Origin,
    markup: bool,
)
    requires
        t.traced(origin, markup),
    ensures
        #[trigger] t.error(kind).traced(origin, markup),
{
    broadcast use traces_error_at;

    reveal(BuilderModel::traced);
}

pub broadcast proof fn traces_error_at(
    t: BuilderModel,
    kind: ParseErrorKind,
    position: Position,
    origin: Origin,
    markup: bool,
)
    requires
        t.traced(origin, markup),
        origin.holds(position),
    ensures
        #[trigger] t.error_at(kind, position).traced(origin, markup),
{
    reveal(BuilderModel::traced);
}

pub broadcast proof fn traces_set_mode(
    t: BuilderModel,
    mode: InsertionMode,
    origin: Origin,
    markup: bool,
)
    requires
        t.traced(origin, markup),
    ensures
        #[trigger] t.set_mode(mode).traced(origin, markup),
{
    reveal(BuilderModel::traced);
}

pub broadcast proof fn traces_suspend_mode(
    t: BuilderModel,
    mode: InsertionMode,
    origin: Origin,
    markup: bool,
)
    requires
        t.traced(origin, markup),
    ensures
        #[trigger] t.suspend_mode(mode).traced(origin, markup),
{
    reveal(BuilderModel::traced);
}

pub broadcast proof fn traces_resume_mode(
    t: BuilderModel,
    origin: Origin,
    markup: bool,
)
    requires
        t.traced(origin, markup),
    ensures
        #[trigger] t.resume_mode().traced(origin, markup),
{
    reveal(BuilderModel::traced);
}

pub broadcast proof fn traces_set_frameset_ok(
    t: BuilderModel,
    value: bool,
    origin: Origin,
    markup: bool,
)
    requires
        t.traced(origin, markup),
    ensures
        #[trigger] t.set_frameset_ok(value).traced(origin, markup),
{
    reveal(BuilderModel::traced);
}

pub broadcast proof fn traces_set_skip_next_line_feed(
    t: BuilderModel,
    value: bool,
    origin: Origin,
    markup: bool,
)
    requires
        t.traced(origin, markup),
    ensures
        #[trigger] t.set_skip_next_line_feed(value).traced(origin, markup),
{
    reveal(BuilderModel::traced);
}

pub broadcast proof fn traces_set_foster_parenting(
    t: BuilderModel,
    value: bool,
    origin: Origin,
    markup: bool,
)
    requires
        t.traced(origin, markup),
    ensures
        #[trigger] t.set_foster_parenting(value).traced(origin, markup),
{
    reveal(BuilderModel::traced);
}

pub broadcast proof fn traces_set_quirks_mode(
    t: BuilderModel,
    mode: QuirksMode,
    origin: Origin,
    markup: bool,
)
    requires
        t.traced(origin, markup),
    ensures
        #[trigger] t.set_quirks_mode(mode).traced(origin, markup),
{
    reveal(BuilderModel::traced);
}

pub broadcast proof fn traces_acknowledge_self_closing(
    t: BuilderModel,
    origin: Origin,
    markup: bool,
)
    requires
        t.traced(origin, markup),
    ensures
        #[trigger] t.acknowledge_self_closing().traced(origin, markup),
{
    reveal(BuilderModel::traced);
}

pub broadcast proof fn traces_push_template_mode(
    t: BuilderModel,
    mode: InsertionMode,
    origin: Origin,
    markup: bool,
)
    requires
        t.traced(origin, markup),
    ensures
        #[trigger] t.push_template_mode(mode).traced(origin, markup),
{
    reveal(BuilderModel::traced);
}

pub broadcast proof fn traces_pop_template_mode(
    t: BuilderModel,
    origin: Origin,
    markup: bool,
)
    requires
        t.traced(origin, markup),
    ensures
        #[trigger] t.pop_template_mode().traced(origin, markup),
{
    reveal(BuilderModel::traced);
}

pub broadcast proof fn traces_reset_mode(
    t: BuilderModel,
    origin: Origin,
    markup: bool,
)
    requires
        t.traced(origin, markup),
    ensures
        #[trigger] t.reset_mode().traced(origin, markup),
{
    broadcast use traces_set_mode;

}

pub broadcast proof fn traces_remember_head(
    t: BuilderModel,
    origin: Origin,
    markup: bool,
)
    requires
        t.traced(origin, markup),
    ensures
        #[trigger] t.remember_head().traced(origin, markup),
{
    reveal(BuilderModel::traced);
}

pub broadcast proof fn traces_remember_form(
    t: BuilderModel,
    origin: Origin,
    markup: bool,
)
    requires
        t.traced(origin, markup),
    ensures
        #[trigger] t.remember_form().traced(origin, markup),
{
    reveal(BuilderModel::traced);
}

pub broadcast proof fn traces_forget_form(
    t: BuilderModel,
    origin: Origin,
    markup: bool,
)
    requires
        t.traced(origin, markup),
    ensures
        #[trigger] t.forget_form().traced(origin, markup),
{
    reveal(BuilderModel::traced);
}

pub broadcast proof fn traces_pop(
    t: BuilderModel,
    origin: Origin,
    markup: bool,
)
    requires
        t.traced(origin, markup),
    ensures
        #[trigger] t.pop().traced(origin, markup),
{
    if t.open_elements.len() > 0 {
        let e = after_pop(t.document, t.open_elements.last());
        assert(document_traced(e, origin) && follows(t.document, e)) by {
            reveal(BuilderModel::traced);
            traces_after_pop(t.document, t.open_elements.last(), origin);
        }
        traces_document(t, e, origin, markup);
        reveal(BuilderModel::traced);
    }
}

pub broadcast proof fn traces_pop_to(
    t: BuilderModel,
    n: int,
    origin: Origin,
    markup: bool,
)
    requires
        t.traced(origin, markup),
    ensures
        #[trigger] t.pop_to(n).traced(origin, markup),
    decreases t.open_elements.len(),
{
    reveal(BuilderModel::pop_to);
    if t.open_elements.len() > 0 && t.open_elements.len() > n {
        traces_pop(t, origin, markup);
        traces_pop_to(t.pop(), n, origin, markup);
    }
}

pub broadcast proof fn traces_pop_until(
    t: BuilderModel,
    name: Seq<char>,
    origin: Origin,
    markup: bool,
)
    requires
        t.traced(origin, markup),
    ensures
        #[trigger] t.pop_until(name).traced(origin, markup),
{
    broadcast use traces_pop_to;

}

pub broadcast proof fn traces_pop_until_one_of(
    t: BuilderModel,
    group: Group,
    origin: Origin,
    markup: bool,
)
    requires
        t.traced(origin, markup),
    ensures
        #[trigger] t.pop_until_one_of(group).traced(origin, markup),
{
    broadcast use traces_pop_to;

}

pub broadcast proof fn traces_clear_back_to(
    t: BuilderModel,
    group: Group,
    origin: Origin,
    markup: bool,
)
    requires
        t.traced(origin, markup),
    ensures
        #[trigger] t.clear_back_to(group).traced(origin, markup),
{
    broadcast use traces_pop_to;

}

pub broadcast proof fn traces_generate_implied_end_tags(
    t: BuilderModel,
    exclude: Option<Seq<char>>,
    origin: Origin,
    markup: bool,
)
    requires
        t.traced(origin, markup),
    ensures
        #[trigger] t.generate_implied_end_tags(exclude).traced(origin, markup),
{
    broadcast use traces_pop_to;

}

pub broadcast proof fn traces_generate_implied_end_tags_thoroughly(
    t: BuilderModel,
    origin: Origin,
    markup: bool,
)
    requires
        t.traced(origin, markup),
    ensures
        #[trigger] t.generate_implied_end_tags_thoroughly().traced(origin, markup),
{
    broadcast use traces_pop_to;

}

pub broadcast proof fn traces_close_element(
    t: BuilderModel,
    name: Seq<char>,
    exclude: Option<Seq<char>>,
    origin: Origin,
    markup: bool,
)
    requires
        t.traced(origin, markup),
    ensures
        #[trigger] t.close_element(name, exclude).traced(origin, markup),
{
    broadcast use {
        traces_generate_implied_end_tags,
        traces_error,
        traces_pop_until,
    };

    reveal(BuilderModel::close_element);
}

pub broadcast proof fn traces_push_head(
    t: BuilderModel,
    origin: Origin,
    markup: bool,
)
    requires
        t.traced(origin, markup),
    ensures
        #[trigger] t.push_head().traced(origin, markup),
{
    reveal(BuilderModel::traced);
}

pub broadcast proof fn traces_remove_head(
    t: BuilderModel,
    origin: Origin,
    markup: bool,
)
    requires
        t.traced(origin, markup),
    ensures
        #[trigger] t.remove_head().traced(origin, markup),
{
    reveal(BuilderModel::traced);
    match t.head_element_pointer {
        Some(head) => {
            lemma_index_from(t.open_elements, head, 0);
        },
        None => {},
    }
}

pub broadcast proof fn traces_remove_form(
    t: BuilderModel,
    origin: Origin,
    markup: bool,
)
    requires
        t.traced(origin, markup),
    ensures
        #[trigger] t.remove_form().traced(origin, markup),
{
    reveal(BuilderModel::traced);
    match t.form_element_pointer {
        Some(form) => {
            lemma_index_from(t.open_elements, form, 0);
        },
        None => {},
    }
}

pub broadcast proof fn traces_create_element(
    t: BuilderModel,
    tag: TagModel,
    namespace: Seq<char>,
    position: Option<Position>,
    origin: Origin,
    markup: bool,
)
    requires
        t.traced(origin, markup),
        position matches Some(q) ==> origin.holds_markup(q) && origin.holds(q),
        position is None ==> fits(t.document, tag),
        position is None ==> namespace == HTML_NAMESPACE@,
        position is Some ==> origin.makes(tag),
    ensures
        #[trigger] t.create_element(tag, namespace, position).traced(origin, markup),
{
    reveal(BuilderModel::create_element);
    let kind = element_for(tag, namespace);
    let d = t.document.new_node(kind, position);
    let e = d.new_node(KindModel::DocumentFragment, None);
    let f = e.append_child(t.document.next_id(), d.next_id());
    assert(document_traced(d, origin) && document_traced(f, origin) && follows(t.document, d)
        && follows(t.document, f)) by {
        reveal(BuilderModel::traced);
        if position is Some {
            lemma_stands_for(origin, tag, namespace);
        } else {
            lemma_fits(t.document, tag, origin);
        }
        traces_new_node(t.document, kind, position, origin);
        traces_new_node(d, KindModel::DocumentFragment, None, origin);
        traces_insert_before(e, t.document.next_id(), None, d.next_id(), origin);
        lemma_follows_twice(t.document, d, e);
        lemma_follows_twice(t.document, e, f);
    }
    traces_document(t, d, origin, markup);
    traces_document(t, f, origin, markup);
}

pub broadcast proof fn traces_insert_foreign_element(
    t: BuilderModel,
    tag: TagModel,
    namespace: Seq<char>,
    position: Option<Position>,
    origin: Origin,
    markup: bool,
)
    requires
        t.traced(origin, markup),
        position matches Some(q) ==> origin.holds_markup(q) && origin.holds(q),
        position is None ==> fits(t.document, tag),
        position is None ==> namespace == HTML_NAMESPACE@,
        position is Some ==> origin.makes(tag),
    ensures
        #[trigger] t.insert_foreign_element(tag, namespace, position).traced(origin, markup),
{
    reveal(BuilderModel::insert_foreign_element);
    let location = t.location(None);
    let element = t.document.next_id();
    let u = t.create_element(tag, namespace, position);
    traces_create_element(t, tag, namespace, position, origin, markup);
    lemma_created_nodes(t, tag, namespace, position);
    lemma_created_element(t, tag, namespace, position);
    let e = u.document.insert_before(location.parent, location.before, element);
    assert(document_traced(e, origin) && follows(u.document, e) && e.nodes.len()
        == u.document.nodes.len()) by {
        reveal(BuilderModel::traced);
        traces_insert_before(u.document, location.parent, location.before, element, origin);
    }
    traces_document(u, e, origin, markup);
    reveal(BuilderModel::traced);
    assert(e.nodes.len() <= usize::MAX ==> sort_of(e.nodes[element.index as int].kind)
        == sort_of(u.document.nodes[element.index as int].kind));
}

pub broadcast proof fn traces_insert_html_element(
    t: BuilderModel,
    tag: TagModel,
    position: Option<Position>,
    origin: Origin,
    markup: bool,
)
    requires
        t.traced(origin, markup),
        position matches Some(q) ==> origin.holds_markup(q) && origin.holds(q),
        position is None ==> fits(t.document, tag),
        position is Some ==> origin.makes(tag),
    ensures
        #[trigger] t.insert_html_element(tag, position).traced(origin, markup),
{
    broadcast use traces_insert_foreign_element;

}

pub broadcast proof fn traces_insert_here(
    t: BuilderModel,
    tag: TagModel,
    origin: Origin,
    markup: bool,
)
    requires
        t.traced(origin, markup),
        markup,
        origin.makes(tag),
    ensures
        #[trigger] t.insert_here(tag).traced(origin, markup),
{
    broadcast use traces_insert_html_element;

    reveal(BuilderModel::traced);
}

pub broadcast proof fn traces_insert_root_element(
    t: BuilderModel,
    tag: TagModel,
    position: Option<Position>,
    origin: Origin,
    markup: bool,
)
    requires
        t.traced(origin, markup),
        position matches Some(q) ==> origin.holds_markup(q) && origin.holds(q),
        position is None ==> fits(t.document, tag),
        position is Some ==> origin.makes(tag),
    ensures
        #[trigger] t.insert_root_element(tag, position).traced(origin, markup),
{
    reveal(BuilderModel::insert_root_element);
    let element = t.document.next_id();
    let u = t.create_element(tag, HTML_NAMESPACE@, position);
    traces_create_element(t, tag, HTML_NAMESPACE@, position, origin, markup);
    lemma_created_nodes(t, tag, HTML_NAMESPACE@, position);
    lemma_created_element(t, tag, HTML_NAMESPACE@, position);
    let e = u.document.append_child(u.document.root, element);
    assert(document_traced(e, origin) && follows(u.document, e) && e.nodes.len()
        == u.document.nodes.len()) by {
        reveal(BuilderModel::traced);
        traces_insert_before(u.document, u.document.root, None, element, origin);
    }
    traces_document(u, e, origin, markup);
    reveal(BuilderModel::traced);
    assert(e.nodes.len() <= usize::MAX ==> sort_of(e.nodes[element.index as int].kind)
        == sort_of(u.document.nodes[element.index as int].kind));
}

pub broadcast proof fn traces_insert_text_element(
    t: BuilderModel,
    tag: TagModel,
    position: Option<Position>,
    origin: Origin,
    markup: bool,
)
    requires
        t.traced(origin, markup),
        position matches Some(q) ==> origin.holds_markup(q) && origin.holds(q),
        position is None ==> fits(t.document, tag),
        position is Some ==> origin.makes(tag),
    ensures
        #[trigger] t.insert_text_element(tag, position).traced(origin, markup),
{
    broadcast use {traces_insert_html_element, traces_suspend_mode};

}

pub broadcast proof fn traces_insert_character(
    t: BuilderModel,
    c: char,
    position: Option<Position>,
    origin: Origin,
    markup: bool,
)
    requires
        t.traced(origin, markup),
        position matches Some(q) ==> origin.holds(q),
        position is Some,
        origin.brings(c),
    ensures
        #[trigger] t.insert_character(c, position).traced(origin, markup),
{
    reveal(BuilderModel::insert_character);
    let location = t.location(None);
    let kind = KindModel::Text { content: seq![c] };
    let d = t.document.new_node(kind, position);
    let e = d.insert_before(location.parent, location.before, t.document.next_id());
    assert(document_traced(e, origin) && follows(t.document, e)) by {
        reveal(BuilderModel::traced);
        reveal(Origin::spells);
        assert(seq![c][0] == c);
        traces_new_node(t.document, kind, position, origin);
        traces_insert_before(
            d,
            location.parent,
            location.before,
            t.document.next_id(),
            origin,
        );
        lemma_follows_twice(t.document, d, e);
    }
    traces_document(t, e, origin, markup);
    match t.node_before(location) {
        Some(node) => {
            let f = t.document.push_text(node, c);
            assert(document_traced(f, origin) && follows(t.document, f)) by {
                reveal(BuilderModel::traced);
                traces_push_text(t.document, node, c, origin);
            }
            traces_document(t, f, origin, markup);
        },
        None => {},
    }
}

pub broadcast proof fn traces_insert_node(
    t: BuilderModel,
    kind: KindModel,
    position: Option<Position>,
    origin: Origin,
    markup: bool,
)
    requires
        t.traced(origin, markup),
        position matches Some(q) ==> origin.holds_markup(q) && origin.holds(q),
        !(kind is Document),
        position is Some,
        origin.stands_for(kind),
    ensures
        #[trigger] t.insert_node(kind, position).traced(origin, markup),
{
    reveal(BuilderModel::insert_node);
    traces_new_node_at(t, kind, position, t.location(None), origin, markup);
}

pub broadcast proof fn traces_insert_comment(
    t: BuilderModel,
    data: Seq<char>,
    position: Option<Position>,
    origin: Origin,
    markup: bool,
)
    requires
        t.traced(origin, markup),
        position matches Some(q) ==> origin.holds_markup(q) && origin.holds(q),
        position is Some,
        origin.kind == TokenKindModel::Comment(data),
    ensures
        #[trigger] t.insert_comment(data, position).traced(origin, markup),
{
    broadcast use traces_insert_node;

    reveal(Origin::stands_for);
}

pub broadcast proof fn traces_insert_processing_instruction(
    t: BuilderModel,
    target: Seq<char>,
    data: Seq<char>,
    position: Option<Position>,
    origin: Origin,
    markup: bool,
)
    requires
        t.traced(origin, markup),
        position matches Some(q) ==> origin.holds_markup(q) && origin.holds(q),
        position is Some,
        origin.kind == TokenKindModel::ProcessingInstruction(
            ProcessingInstructionModel { target, data },
        ),
    ensures
        #[trigger] t.insert_processing_instruction(target, data, position).traced(origin, markup),
{
    broadcast use traces_insert_node;

    reveal(Origin::stands_for);
}

pub broadcast proof fn traces_append_to_document(
    t: BuilderModel,
    kind: KindModel,
    origin: Origin,
    markup: bool,
)
    requires
        t.traced(origin, markup),
        markup,
        !(kind is Document),
        origin.stands_for(kind),
    ensures
        #[trigger] t.append_to_document(kind).traced(origin, markup),
{
    reveal(BuilderModel::append_to_document);
    reveal(BuilderModel::traced);
    let location = InsertionLocation { parent: t.document.root, before: None };
    traces_new_node_at(t, kind, Some(t.token_position), location, origin, markup);
}

pub broadcast proof fn traces_append_to_html(
    t: BuilderModel,
    kind: KindModel,
    origin: Origin,
    markup: bool,
)
    requires
        t.traced(origin, markup),
        markup,
        !(kind is Document),
        origin.stands_for(kind),
    ensures
        #[trigger] t.append_to_html(kind).traced(origin, markup),
{
    reveal(BuilderModel::append_to_html);
    reveal(BuilderModel::traced);
    let location = InsertionLocation {
        parent: if t.open_elements.len() == 0 {
            t.document.root
        } else {
            t.open_elements[0]
        },
        before: None,
    };
    traces_new_node_at(t, kind, Some(t.token_position), location, origin, markup);
}

pub broadcast proof fn traces_merge_attributes(
    t: BuilderModel,
    n: int,
    tag: TagModel,
    origin: Origin,
    markup: bool,
)
    requires
        t.traced(origin, markup),
        markup,
        origin.kind == TokenKindModel::StartTag(tag),
        tag.name == "html"@ || tag.name == "body"@,
    ensures
        #[trigger] t.merge_attributes(n, tag).traced(origin, markup),
{
    reveal(BuilderModel::merge_attributes);
    if n < t.open_elements.len() {
        let e = t.document.merge_attributes(t.open_elements[n], tag.attributes);
        assert(document_traced(e, origin) && follows(t.document, e)) by {
            reveal(BuilderModel::traced);
            traces_merge_attributes_of(
                t.document,
                t.open_elements[n],
                tag.attributes,
                origin,
            );
        }
        traces_document(t, e, origin, markup);
    }
}

pub broadcast proof fn traces_detach_second(
    t: BuilderModel,
    origin: Origin,
    markup: bool,
)
    requires
        t.traced(origin, markup),
    ensures
        #[trigger] t.detach_second().traced(origin, markup),
{
    reveal(BuilderModel::detach_second);
    if t.open_elements.len() > 1 {
        let e = t.document.remove(t.open_elements[1]);
        assert(document_traced(e, origin) && follows(t.document, e)) by {
            reveal(BuilderModel::traced);
            traces_remove(t.document, t.open_elements[1], origin);
        }
        traces_document(t, e, origin, markup);
    }
}

pub broadcast proof fn traces_push_formatting(
    t: BuilderModel,
    origin: Origin,
    markup: bool,
)
    requires
        t.traced(origin, markup),
    ensures
        #[trigger] t.push_formatting().traced(origin, markup),
{
    reveal(BuilderModel::traced);
    reveal(BuilderModel::push_formatting);
    match t.current_node() {
        Some(node) => {
            let d = t.document;
            let start = after_last_marker(t.formatting);
            lemma_after_last_marker(t.formatting);
            lemma_first_alike(d, t.formatting, start, node);
            let entries = with_formatting(d, t.formatting, node);
            if d.nodes.len() <= usize::MAX {
                let k = first_alike(d, t.formatting, start, node);
                let many = count_alike(d, t.formatting, start, node) >= 3;
                assert forall|i: int| 0 <= i < entries.len() implies entry_names(
                    d,
                    #[trigger] entries[i],
                ) by {
                    if i < entries.len() - 1 {
                        let j = if many && i >= k {
                            i + 1
                        } else {
                            i
                        };
                        assert(entries[i] == t.formatting[j]);
                    }
                }
            }
        },
        None => {},
    }
}

pub broadcast proof fn traces_push_marker(
    t: BuilderModel,
    origin: Origin,
    markup: bool,
)
    requires
        t.traced(origin, markup),
    ensures
        #[trigger] t.push_marker().traced(origin, markup),
{
    reveal(BuilderModel::traced);
    let entries = t.formatting.push(FormattingEntry::Marker);
    if t.document.nodes.len() <= usize::MAX {
        assert forall|i: int| 0 <= i < entries.len() implies entry_names(
            t.document,
            #[trigger] entries[i],
        ) by {
            if i < t.formatting.len() {
                assert(entries[i] == t.formatting[i]);
            }
        }
    }
}

pub broadcast proof fn traces_clear_to_marker(
    t: BuilderModel,
    origin: Origin,
    markup: bool,
)
    requires
        t.traced(origin, markup),
    ensures
        #[trigger] t.clear_to_marker().traced(origin, markup),
{
    reveal(BuilderModel::traced);
    lemma_after_last_marker(t.formatting);
    let entries = cleared_to_marker(t.formatting);
    if t.document.nodes.len() <= usize::MAX {
        assert forall|i: int| 0 <= i < entries.len() implies entry_names(
            t.document,
            #[trigger] entries[i],
        ) by {
            assert(entries[i] == t.formatting[i]);
        }
    }
}

pub broadcast proof fn traces_reopen(
    t: BuilderModel,
    i: int,
    origin: Origin,
    markup: bool,
)
    requires
        t.traced(origin, markup),
        0 <= i < t.formatting.len(),
    ensures
        #[trigger] t.reopen(i).traced(origin, markup),
{
    reveal(BuilderModel::traced);
    match t.formatting[i] {
        FormattingEntry::Element(node) => {
            lemma_named_fits(t.document, node);
            lemma_inserted_stack(t, tag_for(t.document.kind(node)), None);
            traces_insert_html_element(
                t,
                tag_for(t.document.kind(node)),
                None,
                origin,
                markup,
            );
        },
        FormattingEntry::Marker => {},
    }
}

pub proof fn traces_reopen_from(
    t: BuilderModel,
    i: int,
    n: int,
    origin: Origin,
    markup: bool,
)
    requires
        t.traced(origin, markup),
        0 <= i,
        n <= t.formatting.len(),
    ensures
        t.reopen_from(i, n).traced(origin, markup),
    decreases n - i,
{
    if i < n {
        traces_reopen(t, i, origin, markup);
        assert(t.reopen(i).formatting.len() == t.formatting.len()) by {
            match t.formatting[i] {
                FormattingEntry::Element(node) => {
                    lemma_inserted_stack(t, tag_for(t.document.kind(node)), None);
                },
                FormattingEntry::Marker => {},
            }
        }
        traces_reopen_from(t.reopen(i), i + 1, n, origin, markup);
    }
}

pub broadcast proof fn traces_reconstruct_formatting(
    t: BuilderModel,
    origin: Origin,
    markup: bool,
)
    requires
        t.traced(origin, markup),
    ensures
        #[trigger] t.reconstruct_formatting().traced(origin, markup),
{
    reveal(BuilderModel::reconstruct_formatting);
    lemma_closed_from(t.formatting, t.open_elements);
    traces_reopen_from(
        t,
        closed_from(t.formatting, t.open_elements),
        t.formatting.len() as int,
        origin,
        markup,
    );
}

pub broadcast proof fn traces_char_here(
    t: BuilderModel,
    c: char,
    origin: Origin,
    markup: bool,
)
    requires
        t.traced(origin, markup),
        origin.brings(c),
    ensures
        #[trigger] t.char_here(c).traced(origin, markup),
{
    broadcast use traces_insert_character;

    reveal(BuilderModel::traced);
}

pub broadcast proof fn traces_comment_here(
    t: BuilderModel,
    data: Seq<char>,
    origin: Origin,
    markup: bool,
)
    requires
        t.traced(origin, markup),
        markup,
        origin.kind == TokenKindModel::Comment(data),
    ensures
        #[trigger] t.comment_here(data).traced(origin, markup),
{
    broadcast use traces_insert_comment;

    reveal(BuilderModel::traced);
}

pub broadcast proof fn traces_instruction_here(
    t: BuilderModel,
    pi: ProcessingInstructionModel,
    origin: Origin,
    markup: bool,
)
    requires
        t.traced(origin, markup),
        markup,
        origin.kind == TokenKindModel::ProcessingInstruction(pi),
    ensures
        #[trigger] t.instruction_here(pi).traced(origin, markup),
{
    broadcast use traces_insert_processing_instruction;

    reveal(BuilderModel::traced);
}

pub broadcast proof fn traces_comment_to_document(
    t: BuilderModel,
    data: Seq<char>,
    origin: Origin,
    markup: bool,
)
    requires
        t.traced(origin, markup),
        markup,
        origin.kind == TokenKindModel::Comment(data),
    ensures
        #[trigger] t.comment_to_document(data).traced(origin, markup),
{
    broadcast use traces_append_to_document;

    reveal(Origin::stands_for);
}

pub broadcast proof fn traces_instruction_to_document(
    t: BuilderModel,
    pi: ProcessingInstructionModel,
    origin: Origin,
    markup: bool,
)
    requires
        t.traced(origin, markup),
        markup,
        origin.kind == TokenKindModel::ProcessingInstruction(pi),
    ensures
        #[trigger] t.instruction_to_document(pi).traced(origin, markup),
{
    broadcast use traces_append_to_document;

    reveal(Origin::stands_for);
}

pub broadcast proof fn traces_comment_to_html(
    t: BuilderModel,
    data: Seq<char>,
    origin: Origin,
    markup: bool,
)
    requires
        t.traced(origin, markup),
        markup,
        origin.kind == TokenKindModel::Comment(data),
    ensures
        #[trigger] t.comment_to_html(data).traced(origin, markup),
{
    broadcast use traces_append_to_html;

    reveal(Origin::stands_for);
}

pub broadcast proof fn traces_instruction_to_html(
    t: BuilderModel,
    pi: ProcessingInstructionModel,
    origin: Origin,
    markup: bool,
)
    requires
        t.traced(origin, markup),
        markup,
        origin.kind == TokenKindModel::ProcessingInstruction(pi),
    ensures
        #[trigger] t.instruction_to_html(pi).traced(origin, markup),
{
    broadcast use traces_append_to_html;

    reveal(Origin::stands_for);
}

pub broadcast proof fn traces_insert_doctype(
    t: BuilderModel,
    doctype: DoctypeModel,
    origin: Origin,
    markup: bool,
)
    requires
        t.traced(origin, markup),
        markup,
        origin.kind == TokenKindModel::Doctype(doctype),
    ensures
        #[trigger] t.insert_doctype(doctype).traced(origin, markup),
{
    broadcast use traces_append_to_document;

    reveal(BuilderModel::insert_doctype);

    reveal(Origin::stands_for);
}

pub broadcast proof fn traces_insert_foreign_here(
    t: BuilderModel,
    tag: TagModel,
    namespace: Seq<char>,
    origin: Origin,
    markup: bool,
)
    requires
        t.traced(origin, markup),
        markup,
        origin.makes(tag),
    ensures
        #[trigger] t.insert_foreign_here(tag, namespace).traced(origin, markup),
{
    broadcast use traces_insert_foreign_element;

    reveal(BuilderModel::traced);
}

pub broadcast proof fn traces_insert_text_here(
    t: BuilderModel,
    tag: TagModel,
    origin: Origin,
    markup: bool,
)
    requires
        t.traced(origin, markup),
        markup,
        origin.makes(tag),
    ensures
        #[trigger] t.insert_text_here(tag).traced(origin, markup),
{
    broadcast use traces_insert_text_element;

    reveal(BuilderModel::traced);
}

pub broadcast proof fn traces_close_list_item(
    t: BuilderModel,
    definition: bool,
    origin: Origin,
    markup: bool,
)
    requires
        t.traced(origin, markup),
    ensures
        #[trigger] t.close_list_item(definition).traced(origin, markup),
{
    broadcast use traces_close_element;

    reveal(BuilderModel::close_list_item);
}

pub broadcast proof fn traces_close_active_anchor(
    t: BuilderModel,
    tag: TagModel,
    origin: Origin,
    markup: bool,
)
    requires
        t.traced(origin, markup),
        markup,
        origin.kind == TokenKindModel::StartTag(tag),
    ensures
        #[trigger] t.close_active_anchor(tag).traced(origin, markup),
{
    broadcast use {traces_error, traces_adoption_agency};

    reveal(BuilderModel::close_active_anchor);
    reveal(BuilderModel::traced);
    let u = t.error(ParseErrorKind::NestedFormattingElement).adoption_agency(tag);
    assert(u.traced(origin, markup));
    match formatting_named(t.document, t.formatting, "a"@, after_last_marker(t.formatting)) {
        Some(node) => {
            lemma_index_from(u.open_elements, node, 0);
            traces_without_formatting(u, node, origin, markup);
        },
        None => {},
    }
}

pub broadcast proof fn traces_hold_back(
    t: BuilderModel,
    c: char,
    origin: Origin,
    markup: bool,
)
    requires
        t.traced(origin, markup),
        origin.brings(c),
    ensures
        #[trigger] t.hold_back(c).traced(origin, markup),
{
    reveal(BuilderModel::traced);
}

pub broadcast proof fn traces_forget_held_back(
    t: BuilderModel,
    origin: Origin,
    markup: bool,
)
    requires
        t.traced(origin, markup),
    ensures
        #[trigger] t.forget_held_back().traced(origin, markup),
{
    reveal(BuilderModel::traced);
}

pub broadcast proof fn traces_at(
    t: BuilderModel,
    position: Position,
    origin: Origin,
    markup: bool,
)
    requires
        t.traced(origin, markup),
        origin.holds(position),
        markup ==> origin.holds_markup(position),
    ensures
        #[trigger] t.at(position).traced(origin, markup),
{
    reveal(BuilderModel::traced);
}

pub broadcast proof fn traces_any_other_end_tag(
    t: BuilderModel,
    tag: TagModel,
    origin: Origin,
    markup: bool,
)
    requires
        t.traced(origin, markup),
        markup,
    ensures
        #[trigger] t.any_other_end_tag(tag).traced(origin, markup),
{
    broadcast use {traces_error, traces_generate_implied_end_tags, traces_pop_to};

    reveal(BuilderModel::any_other_end_tag);
}

pub proof fn traces_adopt(
    t: BuilderModel,
    formatting: NodeId,
    top: int,
    b: int,
    origin: Origin,
    markup: bool,
)
    requires
        t.traced(origin, markup),
        0 <= top < b < t.open_elements.len(),
        formatting.index < t.document.nodes.len(),
        sort_of(t.document.kind(formatting)) is Element,
    ensures
        t.adopt(formatting, top, b).traced(origin, markup),
{
    reveal(BuilderModel::adopt);
    reveal(BuilderModel::traced);
    let block = t.open_elements[b];
    let above = if top > 0 {
        t.open_elements[top - 1]
    } else {
        t.document.root
    };
    let bookmark = match formatting_index_from(t.formatting, formatting, 0) {
        Some(k) => k,
        None => 0,
    };
    lemma_formatting_index_from(t.formatting, formatting, 0);
    traces_adopt_up(t, top, b - 1, block, block, bookmark, 0, origin, markup);
    let (u, last, mark) = t.adopt_up(top, b - 1, block, block, bookmark, 0);
    traces_replant(u, last, u.location(Some(above)), origin, markup);
    let v = u.replant(last, u.location(Some(above)));
    lemma_adopt_up_contents(t, top, b - 1, block, block, bookmark, 0);
    lemma_replant_contents(u, last, u.location(Some(above)));
    lemma_contents_kept_twice(t.document, u.document, v.document);
    assert(contents_kept(t.document, v.document));
    assert(v.document.nodes[formatting.index as int].kind
        == t.document.nodes[formatting.index as int].kind);
    lemma_named_fits(v.document, formatting);
    traces_replace_formatting_element(v, formatting, block, mark, origin, markup);
}

pub broadcast proof fn traces_adoption_round(
    t: BuilderModel,
    tag: TagModel,
    origin: Origin,
    markup: bool,
)
    requires
        t.traced(origin, markup),
        markup,
    ensures
        #[trigger] t.adoption_round(tag).0.traced(origin, markup),
{
    broadcast use {traces_any_other_end_tag, traces_error, traces_pop_to};

    reveal(BuilderModel::adoption_round);
    match last_formatting_named(t.document, t.formatting, tag.name) {
        Some(node) => {
            let u = if t.current_node() == Some(node) {
                t
            } else {
                t.error(ParseErrorKind::MisnestedFormattingElement)
            };
            assert(t.error(ParseErrorKind::StrayEndTag).traced(origin, markup));
            assert(u.traced(origin, markup));
            traces_without_formatting(
                t.error(ParseErrorKind::StrayEndTag),
                node,
                origin,
                markup,
            );
            lemma_last_formatting_named(t.document, t.formatting, tag.name);
            match index_from(t.open_elements, node, 0) {
                Some(top) => {
                    lemma_index_from(t.open_elements, node, 0);
                    lemma_special_after(u.document, u.open_elements, top);
                    match special_after(u.document, u.open_elements, top) {
                        Some(b) => {
                            assert(node.index < u.document.nodes.len()) by {
                                reveal(BuilderModel::traced);
                                assert(u.open_elements[top] == node);
                            }
                            traces_adopt(u, node, top, b, origin, markup);
                        },
                        None => {
                            assert(u.pop_to(top).traced(origin, markup));
                            traces_without_formatting(u.pop_to(top), node, origin, markup);
                        },
                    }
                },
                None => {},
            }
        },
        None => {},
    }
}

pub proof fn traces_adoption_rounds(
    t: BuilderModel,
    tag: TagModel,
    n: nat,
    origin: Origin,
    markup: bool,
)
    requires
        t.traced(origin, markup),
        markup,
    ensures
        t.adoption_rounds(tag, n).traced(origin, markup),
    decreases n,
{
    if n > 0 {
        traces_adoption_round(t, tag, origin, markup);
        let (u, more) = t.adoption_round(tag);
        if more {
            traces_adoption_rounds(u, tag, (n - 1) as nat, origin, markup);
        }
    }
}

pub broadcast proof fn traces_adoption_agency(
    t: BuilderModel,
    tag: TagModel,
    origin: Origin,
    markup: bool,
)
    requires
        t.traced(origin, markup),
        markup,
    ensures
        #[trigger] t.adoption_agency(tag).traced(origin, markup),
{
    broadcast use traces_pop;

    reveal(BuilderModel::adoption_agency);
    traces_adoption_rounds(t, tag, 8, origin, markup);
}

/// A new element is an element, and everything that was there is still there.
proof fn lemma_created_element(
    t: BuilderModel,
    tag: TagModel,
    namespace: Seq<char>,
    position: Option<Position>,
)
    ensures
        ({
            let e = t.create_element(tag, namespace, position).document;
            e.nodes.len() <= usize::MAX ==> names_element(e, t.document.next_id())
        }),
{
    lemma_created(t, tag, namespace, position);
}

/// Inserting an element opens it, and changes no other list.
proof fn lemma_inserted_stack(t: BuilderModel, tag: TagModel, position: Option<Position>)
    ensures
        ({
            let u = t.insert_html_element(tag, position);
            &&& u.open_elements == t.open_elements.push(t.document.next_id())
            &&& u.formatting == t.formatting
        }),
{
    reveal(BuilderModel::insert_foreign_element);
    reveal(BuilderModel::create_element);
}

proof fn lemma_closed_from(entries: Seq<FormattingEntry>, stack: Seq<NodeId>)
    ensures
        0 <= closed_from(entries, stack) <= entries.len(),
    decreases entries.len(),
{
    if entries.len() > 0 {
        lemma_closed_from(entries.drop_last(), stack);
    }
}

} // verus!
