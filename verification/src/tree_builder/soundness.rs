//! What the steps of a tree builder keep: the names on its lists stay names of
//! elements, and popping opens nothing.
use vstd::prelude::*;

use crate::document::model::{DocumentModel, KindModel, NodeId};
use crate::tree_builder::elements::{html_name, lemma_one_document_node_kept, tag_of, tags_kept};
use crate::tree_builder::formatting::{all_formatting, FormattingEntry};
use crate::tree_builder::model::{BuilderModel, InsertionLocation};
use crate::tree_builder::stack::all_elements;

verus! {

/// A `table` or a `template` element.
pub open spec fn is_table_or_template(kind: KindModel) -> bool {
    html_name(kind) == Some("table"@) || html_name(kind) == Some("template"@)
}

/// How many `table` and `template` elements are on the stack.
pub open spec fn tables(d: DocumentModel, stack: Seq<NodeId>) -> nat
    decreases stack.len(),
{
    if stack.len() == 0 {
        0
    } else {
        tables(d, stack.drop_last()) + if is_table_or_template(d.kind(stack.last())) {
            1nat
        } else {
            0
        }
    }
}

impl BuilderModel {
    /// How many `table` and `template` elements are open.
    pub open spec fn open_tables(self) -> nat {
        tables(self.document, self.open_elements)
    }

    /// Nothing was opened on the way to `next`.
    pub open spec fn opens_nothing(self, next: Self) -> bool {
        &&& next.open_elements.len() <= self.open_elements.len()
        &&& next.open_tables() <= self.open_tables()
    }

    /// The place is in a node of the document, and before one of its children.
    pub open spec fn place_exists(self, location: InsertionLocation) -> bool {
        &&& self.document.has(location.parent)
        &&& match location.before {
            Some(before) => self.document.has(before) && self.document.parent(before) == Some(
                location.parent,
            ),
            None => true,
        }
    }
}

/// Keeping the tags keeps the count.
pub proof fn lemma_tables_kept(d: DocumentModel, e: DocumentModel, stack: Seq<NodeId>)
    requires
        all_elements(d, stack),
        tags_kept(d, e),
    ensures
        tables(e, stack) == tables(d, stack),
    decreases stack.len(),
{
    if stack.len() > 0 {
        assert(d.has(stack[stack.len() - 1]));
        assert(tag_of(e.kind(stack.last())) == tag_of(d.kind(stack.last())));
        assert(all_elements(d, stack.drop_last())) by {
            assert forall|i: int| 0 <= i < stack.len() - 1 implies d.has(
                #[trigger] stack.drop_last()[i],
            ) && tag_of(d.kind(stack.drop_last()[i])) is Some by {
                assert(stack[i] == stack.drop_last()[i]);
            }
        }
        lemma_tables_kept(d, e, stack.drop_last());
    }
}

/// Part of the stack holds no more of them, and fewer where one is left out.
pub proof fn lemma_fewer_tables(d: DocumentModel, stack: Seq<NodeId>, n: int)
    requires
        0 <= n <= stack.len(),
    ensures
        tables(d, stack.take(n)) <= tables(d, stack),
        n < stack.len() && is_table_or_template(d.kind(stack[n])) ==> tables(d, stack.take(n))
            < tables(d, stack),
    decreases stack.len(),
{
    if n == stack.len() {
        assert(stack.take(n) == stack);
    } else {
        lemma_fewer_tables(d, stack.drop_last(), n);
        assert(stack.drop_last().take(n) == stack.take(n));
        if n < stack.len() - 1 {
            assert(stack.drop_last()[n] == stack[n]);
        }
    }
}

/// Opening an element adds it to the count.
pub proof fn lemma_tables_push(d: DocumentModel, stack: Seq<NodeId>, node: NodeId)
    ensures
        tables(d, stack.push(node)) == tables(d, stack) + (if is_table_or_template(d.kind(node)) {
            1nat
        } else {
            0
        }),
{
    assert(stack.push(node).drop_last() == stack);
}

/// What is an element stays one.
pub proof fn lemma_elements_kept(d: DocumentModel, e: DocumentModel, stack: Seq<NodeId>)
    requires
        all_elements(d, stack),
        tags_kept(d, e),
    ensures
        all_elements(e, stack),
{
    assert forall|i: int| 0 <= i < stack.len() implies e.has(#[trigger] stack[i]) && tag_of(
        e.kind(stack[i]),
    ) is Some by {
        assert(d.has(stack[i]));
        assert(tag_of(e.kind(stack[i])) == tag_of(d.kind(stack[i])));
    }
}

/// What is an active formatting element stays an element.
pub proof fn lemma_formatting_kept(
    d: DocumentModel,
    e: DocumentModel,
    entries: Seq<FormattingEntry>,
)
    requires
        all_formatting(d, entries),
        tags_kept(d, e),
    ensures
        all_formatting(e, entries),
{
    assert forall|i: int| 0 <= i < entries.len() implies match #[trigger] entries[i] {
        FormattingEntry::Element(node) => e.has(node) && tag_of(e.kind(node)) is Some,
        FormattingEntry::Marker => true,
    } by {
        match entries[i] {
            FormattingEntry::Element(node) => {
                assert(d.has(node));
                assert(tag_of(e.kind(node)) == tag_of(d.kind(node)));
            },
            FormattingEntry::Marker => {},
        }
    }
}

/// A document that keeps the tags keeps the builder sound.
pub proof fn lemma_sound_with(t: BuilderModel, e: DocumentModel)
    requires
        t.sound(),
        tags_kept(t.document, e),
    ensures
        (BuilderModel { document: e, ..t }).sound(),
        (BuilderModel { document: e, ..t }).open_tables() == t.open_tables(),
{
    reveal(BuilderModel::sound);
    lemma_one_document_node_kept(t.document, e);
    lemma_elements_kept(t.document, e, t.open_elements);
    lemma_tables_kept(t.document, e, t.open_elements);
    lemma_formatting_kept(t.document, e, t.formatting);
    match t.head_element_pointer {
        Some(node) => {
            assert(tag_of(e.kind(node)) == tag_of(t.document.kind(node)));
        },
        None => {},
    }
    match t.form_element_pointer {
        Some(node) => {
            assert(tag_of(e.kind(node)) == tag_of(t.document.kind(node)));
        },
        None => {},
    }
}

/// Opening an element of the document keeps the builder sound.
pub proof fn lemma_sound_push(t: BuilderModel, node: NodeId)
    requires
        t.sound(),
        t.document.has(node),
        tag_of(t.document.kind(node)) is Some,
    ensures
        (BuilderModel { open_elements: t.open_elements.push(node), ..t }).sound(),
{
    reveal(BuilderModel::sound);
    let stack = t.open_elements.push(node);
    assert forall|i: int| 0 <= i < stack.len() implies t.document.has(#[trigger] stack[i])
        && tag_of(t.document.kind(stack[i])) is Some by {
        if i < t.open_elements.len() {
            assert(stack[i] == t.open_elements[i]);
        }
    }
}

/// Part of the stack keeps the builder sound.
pub proof fn lemma_sound_take(t: BuilderModel, n: int)
    requires
        t.sound(),
        0 <= n <= t.open_elements.len(),
    ensures
        (BuilderModel { open_elements: t.open_elements.take(n), ..t }).sound(),
{
    reveal(BuilderModel::sound);
    let stack = t.open_elements.take(n);
    assert forall|i: int| 0 <= i < stack.len() implies t.document.has(#[trigger] stack[i])
        && tag_of(t.document.kind(stack[i])) is Some by {
        assert(stack[i] == t.open_elements[i]);
    }
}

/// The stack without one of its entries keeps the builder sound.
pub proof fn lemma_sound_without(t: BuilderModel, k: int)
    requires
        t.sound(),
        0 <= k < t.open_elements.len(),
    ensures
        (BuilderModel { open_elements: t.open_elements.remove(k), ..t }).sound(),
{
    reveal(BuilderModel::sound);
    let stack = t.open_elements.remove(k);
    assert forall|i: int| 0 <= i < stack.len() implies t.document.has(#[trigger] stack[i])
        && tag_of(t.document.kind(stack[i])) is Some by {
        if i < k {
            assert(stack[i] == t.open_elements[i]);
        } else {
            assert(stack[i] == t.open_elements[i + 1]);
        }
    }
}

/// The list of active formatting elements without one of its entries keeps the
/// builder sound.
pub proof fn lemma_sound_without_formatting(t: BuilderModel, k: int)
    requires
        t.sound(),
        0 <= k < t.formatting.len(),
    ensures
        (BuilderModel { formatting: t.formatting.remove(k), ..t }).sound(),
{
    reveal(BuilderModel::sound);
    let entries = t.formatting.remove(k);
    assert forall|i: int| 0 <= i < entries.len() implies match #[trigger] entries[i] {
        FormattingEntry::Element(node) => t.document.has(node) && tag_of(
            t.document.kind(node),
        ) is Some,
        FormattingEntry::Marker => true,
    } by {
        if i < k {
            assert(entries[i] == t.formatting[i]);
        } else {
            assert(entries[i] == t.formatting[i + 1]);
        }
    }
}

/// One more active formatting element, in place of another or between two,
/// keeps the builder sound.
pub proof fn lemma_sound_with_formatting(t: BuilderModel, k: int, node: NodeId)
    requires
        t.sound(),
        0 <= k <= t.formatting.len(),
        t.document.has(node),
        tag_of(t.document.kind(node)) is Some,
    ensures
        (BuilderModel {
            formatting: t.formatting.insert(k, FormattingEntry::Element(node)),
            ..t
        }).sound(),
        k < t.formatting.len() ==> (BuilderModel {
            formatting: t.formatting.update(k, FormattingEntry::Element(node)),
            ..t
        }).sound(),
{
    reveal(BuilderModel::sound);
    let inserted = t.formatting.insert(k, FormattingEntry::Element(node));
    let updated = t.formatting.update(k, FormattingEntry::Element(node));
    assert(all_formatting(t.document, inserted)) by {
        assert forall|i: int| 0 <= i < inserted.len() implies match #[trigger] inserted[i] {
            FormattingEntry::Element(node) => t.document.has(node) && tag_of(
                t.document.kind(node),
            ) is Some,
            FormattingEntry::Marker => true,
        } by {
            if i < k {
                assert(inserted[i] == t.formatting[i]);
            } else if i > k {
                assert(inserted[i] == t.formatting[i - 1]);
            }
        }
    }
    if k < t.formatting.len() {
        assert(all_formatting(t.document, updated)) by {
            assert forall|i: int| 0 <= i < updated.len() implies match #[trigger] updated[i] {
                FormattingEntry::Element(node) => t.document.has(node) && tag_of(
                    t.document.kind(node),
                ) is Some,
                FormattingEntry::Marker => true,
            } by {
                if i != k {
                    assert(updated[i] == t.formatting[i]);
                }
            }
        }
    }
}

/// One more element on the stack, in place of another or between two, keeps the
/// builder sound.
pub proof fn lemma_sound_with_node(t: BuilderModel, k: int, node: NodeId)
    requires
        t.sound(),
        0 <= k <= t.open_elements.len(),
        t.document.has(node),
        tag_of(t.document.kind(node)) is Some,
    ensures
        (BuilderModel { open_elements: t.open_elements.insert(k, node), ..t }).sound(),
        k < t.open_elements.len() ==> (BuilderModel {
            open_elements: t.open_elements.update(k, node),
            ..t
        }).sound(),
{
    reveal(BuilderModel::sound);
    let inserted = t.open_elements.insert(k, node);
    let updated = t.open_elements.update(k, node);
    assert(all_elements(t.document, inserted)) by {
        assert forall|i: int| 0 <= i < inserted.len() implies t.document.has(
            #[trigger] inserted[i],
        ) && tag_of(t.document.kind(inserted[i])) is Some by {
            if i < k {
                assert(inserted[i] == t.open_elements[i]);
            } else if i > k {
                assert(inserted[i] == t.open_elements[i - 1]);
            }
        }
    }
    if k < t.open_elements.len() {
        assert(all_elements(t.document, updated)) by {
            assert forall|i: int| 0 <= i < updated.len() implies t.document.has(
                #[trigger] updated[i],
            ) && tag_of(t.document.kind(updated[i])) is Some by {
                if i != k {
                    assert(updated[i] == t.open_elements[i]);
                }
            }
        }
    }
}

/// Where the nodes of `d` keep their parents, they keep their ancestors: none of
/// them is new.
pub proof fn lemma_no_new_ancestor(d: DocumentModel, e: DocumentModel, fresh: NodeId, id: NodeId)
    requires
        d.wf(),
        d.has(id),
        !d.has(fresh),
        forall|other: NodeId| d.has(other) ==> #[trigger] e.parent(other) == d.parent(other),
    ensures
        !e.is_inclusive_ancestor(fresh, id),
{
    if e.is_inclusive_ancestor(fresh, id) {
        let k = choose|k: nat| e.ancestor(id, k) == Some(fresh);
        lemma_ancestors_are_old(d, e, id, k);
    }
}

proof fn lemma_ancestors_are_old(d: DocumentModel, e: DocumentModel, id: NodeId, k: nat)
    requires
        d.wf(),
        d.has(id),
        forall|other: NodeId| d.has(other) ==> #[trigger] e.parent(other) == d.parent(other),
    ensures
        e.ancestor(id, k) matches Some(a) ==> d.has(a),
    decreases k,
{
    if k > 0 {
        assert(e.parent(id) == d.parent(id));
        assert(d.family(id));
        match d.parent(id) {
            Some(p) => {
                lemma_ancestors_are_old(d, e, p, (k - 1) as nat);
            },
            None => {},
        }
    }
}

} // verus!
