//! The list of active formatting elements, with its markers and its limit of
//! three alike entries.
use vstd::prelude::*;

use crate::document::arena::Document;
use crate::document::model::{
    element_attributes, Attribute, DocumentModel, ElementAttribute, KindModel, NodeId, NodeKind,
};
use crate::text::{str_eq, text_eq};
use crate::tree_builder::elements::tag_of;

verus! {

/// An entry of the list of active formatting elements.
#[derive(Debug, Clone, Copy, PartialEq, Eq, Structural)]
pub enum FormattingEntry {
    Marker,
    Element(NodeId),
}

/// The list of active formatting elements.
#[derive(Debug)]
pub struct ActiveFormattingElements {
    pub entries: Vec<FormattingEntry>,
}

/// Every entry that is no marker is an element of the document.
pub open spec fn all_formatting(d: DocumentModel, entries: Seq<FormattingEntry>) -> bool {
    forall|i: int|
        0 <= i < entries.len() ==> match #[trigger] entries[i] {
            FormattingEntry::Element(node) => d.has(node) && tag_of(d.kind(node)) is Some,
            FormattingEntry::Marker => true,
        }
}

/// Two elements are alike: they have the same name, the same namespace and, in
/// whatever order, the same attributes.
#[verifier::opaque]
pub open spec fn alike(a: KindModel, b: KindModel) -> bool {
    match (a, b) {
        (
            KindModel::Element { name: a, namespace: ns_a, attributes: attributes_a },
            KindModel::Element { name: b, namespace: ns_b, attributes: attributes_b },
        ) => a == b && ns_a == ns_b && attributes_a.to_multiset() == attributes_b.to_multiset(),
        _ => false,
    }
}

/// An entry that is an element alike to the given one.
pub open spec fn entry_alike(d: DocumentModel, entry: FormattingEntry, element: NodeId) -> bool {
    match entry {
        FormattingEntry::Element(node) => alike(d.kind(node), d.kind(element)),
        FormattingEntry::Marker => false,
    }
}

/// The entries after the last marker start here.
pub open spec fn after_last_marker(entries: Seq<FormattingEntry>) -> int
    decreases entries.len(),
{
    if entries.len() == 0 || entries.last() is Marker {
        entries.len() as int
    } else {
        after_last_marker(entries.drop_last())
    }
}

/// How many entries from index `i` on are alike to the given element.
pub open spec fn count_alike(
    d: DocumentModel,
    entries: Seq<FormattingEntry>,
    i: int,
    element: NodeId,
) -> nat
    decreases entries.len() - i,
{
    if i < 0 || i >= entries.len() {
        0
    } else {
        count_alike(d, entries, i + 1, element) + if entry_alike(d, entries[i], element) {
            1nat
        } else {
            0
        }
    }
}

/// The first entry from index `i` on that is alike to the given element.
pub open spec fn first_alike(
    d: DocumentModel,
    entries: Seq<FormattingEntry>,
    i: int,
    element: NodeId,
) -> int
    decreases entries.len() - i,
{
    if i < 0 || i >= entries.len() || entry_alike(d, entries[i], element) {
        i
    } else {
        first_alike(d, entries, i + 1, element)
    }
}

/// The list with an element added: where three alike ones stand after the last
/// marker already, the earliest of them makes room.
pub open spec fn with_formatting(
    d: DocumentModel,
    entries: Seq<FormattingEntry>,
    element: NodeId,
) -> Seq<FormattingEntry> {
    let start = after_last_marker(entries);
    let kept = if count_alike(d, entries, start, element) >= 3 {
        entries.remove(first_alike(d, entries, start, element))
    } else {
        entries
    };
    kept.push(FormattingEntry::Element(element))
}

/// The list without the last marker and what follows it.
pub open spec fn cleared_to_marker(entries: Seq<FormattingEntry>) -> Seq<FormattingEntry> {
    let start = after_last_marker(entries);
    if start == 0 {
        Seq::empty()
    } else {
        entries.take(start - 1)
    }
}

/// No more than three entries after the last marker are alike to any element.
pub open spec fn at_most_three_alike(d: DocumentModel, entries: Seq<FormattingEntry>) -> bool {
    forall|element: NodeId|
        (#[trigger] count_alike(d, entries, after_last_marker(entries), element)) <= 3
}

/// Behind the last marker there is none.
pub proof fn lemma_after_last_marker(entries: Seq<FormattingEntry>)
    ensures
        0 <= after_last_marker(entries) <= entries.len(),
        forall|i: int|
            after_last_marker(entries) <= i < entries.len() ==> !(#[trigger] entries[i] is Marker),
        after_last_marker(entries) > 0 ==> entries[after_last_marker(entries) - 1] is Marker,
    decreases entries.len(),
{
    if entries.len() > 0 && !(entries.last() is Marker) {
        lemma_after_last_marker(entries.drop_last());
        assert forall|i: int|
            after_last_marker(entries) <= i < entries.len() implies !(#[trigger] entries[
        i] is Marker) by {
            if i < entries.len() - 1 {
                assert(entries[i] == entries.drop_last()[i]);
            }
        }
    }
}

/// Where some entry is alike, the first one is found.
pub proof fn lemma_first_alike(
    d: DocumentModel,
    entries: Seq<FormattingEntry>,
    i: int,
    element: NodeId,
)
    requires
        0 <= i <= entries.len(),
    ensures
        i <= first_alike(d, entries, i, element) <= entries.len(),
        count_alike(d, entries, i, element) > 0 ==> first_alike(d, entries, i, element)
            < entries.len() && entry_alike(
            d,
            entries[first_alike(d, entries, i, element)],
            element,
        ),
    decreases entries.len() - i,
{
    if i < entries.len() && !entry_alike(d, entries[i], element) {
        lemma_first_alike(d, entries, i + 1, element);
    }
}

/// Being alike is symmetric and transitive.
pub proof fn lemma_alike_is_an_equivalence(a: KindModel, b: KindModel, c: KindModel)
    ensures
        tag_of(a) is Some ==> alike(a, a),
        alike(a, b) == alike(b, a),
        alike(a, b) && alike(b, c) ==> alike(a, c),
{
    reveal(alike);
}

proof fn lemma_count_after_push(
    d: DocumentModel,
    entries: Seq<FormattingEntry>,
    i: int,
    entry: FormattingEntry,
    x: NodeId,
)
    requires
        0 <= i <= entries.len(),
    ensures
        count_alike(d, entries.push(entry), i, x) == count_alike(d, entries, i, x) + (if entry_alike(
            d,
            entry,
            x,
        ) {
            1nat
        } else {
            0
        }),
    decreases entries.len() - i,
{
    reveal_with_fuel(count_alike, 2);
    if i < entries.len() {
        assert(entries.push(entry)[i] == entries[i]);
        lemma_count_after_push(d, entries, i + 1, entry, x);
    }
}

proof fn lemma_count_after_remove(
    d: DocumentModel,
    entries: Seq<FormattingEntry>,
    i: int,
    k: int,
    x: NodeId,
)
    requires
        0 <= i <= entries.len(),
        0 <= k < entries.len(),
    ensures
        i <= k ==> count_alike(d, entries, i, x) == count_alike(d, entries.remove(k), i, x) + (if entry_alike(
            d,
            entries[k],
            x,
        ) {
            1nat
        } else {
            0
        }),
        i > k ==> count_alike(d, entries, i, x) == count_alike(d, entries.remove(k), i - 1, x),
    decreases entries.len() - i,
{
    if i < entries.len() {
        lemma_count_after_remove(d, entries, i + 1, k, x);
        if i < k {
            assert(entries.remove(k)[i] == entries[i]);
        } else if i > k {
            assert(entries.remove(k)[i - 1] == entries[i]);
        }
    }
}

proof fn lemma_marker_after_push(entries: Seq<FormattingEntry>, element: NodeId)
    ensures
        after_last_marker(entries.push(FormattingEntry::Element(element))) == after_last_marker(
            entries,
        ),
{
    assert(entries.push(FormattingEntry::Element(element)).drop_last() == entries);
}

proof fn lemma_marker_after_remove(entries: Seq<FormattingEntry>, k: int)
    requires
        after_last_marker(entries) <= k < entries.len(),
    ensures
        after_last_marker(entries.remove(k)) == after_last_marker(entries),
    decreases entries.len(),
{
    lemma_after_last_marker(entries);
    if !(entries.last() is Marker) {
        if k == entries.len() - 1 {
            assert(entries.remove(k) == entries.drop_last());
        } else {
            lemma_marker_after_remove(entries.drop_last(), k);
            assert(entries.remove(k).drop_last() == entries.drop_last().remove(k));
            assert(entries.remove(k).last() == entries.last());
        }
    }
}

/// Adding an element never leaves more than three alike ones after the last
/// marker.
pub proof fn lemma_at_most_three_alike(
    d: DocumentModel,
    entries: Seq<FormattingEntry>,
    element: NodeId,
)
    requires
        at_most_three_alike(d, entries),
    ensures
        at_most_three_alike(d, with_formatting(d, entries, element)),
{
    let start = after_last_marker(entries);
    let added = FormattingEntry::Element(element);
    let after = with_formatting(d, entries, element);
    lemma_after_last_marker(entries);
    lemma_first_alike(d, entries, start, element);
    let k = first_alike(d, entries, start, element);
    assert forall|x: NodeId|
        (#[trigger] count_alike(d, after, after_last_marker(after), x)) <= 3 by {
        assert(count_alike(d, entries, start, x) <= 3);
        lemma_alike_is_an_equivalence(d.kind(element), d.kind(x), d.kind(x));
        if count_alike(d, entries, start, element) >= 3 {
            let kept = entries.remove(k);
            lemma_marker_after_remove(entries, k);
            lemma_marker_after_push(kept, element);
            lemma_count_after_remove(d, entries, start, k, x);
            lemma_count_after_push(d, kept, start, added, x);
            lemma_same_count(d, entries, start, element, x);
            match entries[k] {
                FormattingEntry::Element(node) => {
                    lemma_alike_is_an_equivalence(d.kind(node), d.kind(element), d.kind(x));
                },
                FormattingEntry::Marker => {},
            }
        } else {
            lemma_marker_after_push(entries, element);
            lemma_count_after_push(d, entries, start, added, x);
            lemma_same_count(d, entries, start, element, x);
        }
    }
}

/// Alike elements are alike to equally many entries.
proof fn lemma_same_count(
    d: DocumentModel,
    entries: Seq<FormattingEntry>,
    i: int,
    a: NodeId,
    b: NodeId,
)
    requires
        0 <= i <= entries.len(),
    ensures
        alike(d.kind(a), d.kind(b)) ==> count_alike(d, entries, i, a) == count_alike(
            d,
            entries,
            i,
            b,
        ),
    decreases entries.len() - i,
{
    if i < entries.len() {
        lemma_same_count(d, entries, i + 1, a, b);
        match entries[i] {
            FormattingEntry::Element(node) => {
                lemma_alike_is_an_equivalence(d.kind(node), d.kind(a), d.kind(b));
                lemma_alike_is_an_equivalence(d.kind(node), d.kind(b), d.kind(a));
                lemma_alike_is_an_equivalence(d.kind(a), d.kind(b), d.kind(a));
            },
            FormattingEntry::Marker => {},
        }
    }
}

/// Clearing up to the last marker takes back a marker and everything that was
/// put after it.
pub proof fn lemma_clear_takes_back(
    entries: Seq<FormattingEntry>,
    added: Seq<FormattingEntry>,
)
    requires
        forall|i: int| 0 <= i < added.len() ==> !(#[trigger] added[i] is Marker),
    ensures
        cleared_to_marker(entries.push(FormattingEntry::Marker) + added) == entries,
    decreases added.len(),
{
    let all = entries.push(FormattingEntry::Marker) + added;
    if added.len() == 0 {
        assert(all == entries.push(FormattingEntry::Marker));
        assert(all.take(all.len() - 1) == entries);
    } else {
        assert forall|i: int| 0 <= i < added.drop_last().len() implies !(#[trigger] added.drop_last()[
        i] is Marker) by {
            assert(added[i] == added.drop_last()[i]);
        }
        lemma_clear_takes_back(entries, added.drop_last());
        let less = entries.push(FormattingEntry::Marker) + added.drop_last();
        assert(all.drop_last() == less);
        lemma_after_last_marker(less);
        let start = after_last_marker(less);
        assert(all.last() == added.last());
        if start > 0 {
            assert(all.take(start - 1) == less.take(start - 1));
        }
    }
}

/// Whether two attributes are the same.
fn same_attribute(a: &Attribute, b: &Attribute) -> (r: bool)
    ensures
        r == (a@ == b@),
{
    str_eq(a.name.as_str(), b.name.as_str()) && text_eq(&a.namespace, &b.namespace) && str_eq(
        a.value.as_str(),
        b.value.as_str(),
    )
}

/// Where an attribute stands in a list.
fn index_of_attribute(list: &Vec<Attribute>, attribute: &Attribute) -> (r: Option<usize>)
    ensures
        match r {
            Some(i) => i < list@.len() && list@[i as int]@ == attribute@,
            None => !element_attributes(list@).contains(attribute@),
        },
{
    let mut i: usize = 0;
    while i < list.len()
        invariant
            0 <= i <= list@.len(),
            forall|j: int| 0 <= j < i ==> element_attributes(list@)[j] != attribute@,
        decreases list@.len() - i,
    {
        if same_attribute(&list[i], attribute) {
            return Some(i);
        }
        i = i + 1;
    }
    None
}

/// A copy of a list of attributes.
pub fn copy_attributes(list: &Vec<Attribute>) -> (r: Vec<Attribute>)
    ensures
        element_attributes(r@) == element_attributes(list@),
{
    let mut copy: Vec<Attribute> = Vec::new();
    let mut i: usize = 0;
    while i < list.len()
        invariant
            0 <= i <= list@.len(),
            copy@.len() == i,
            forall|j: int| 0 <= j < i ==> (#[trigger] copy@[j])@ == list@[j]@,
        decreases list@.len() - i,
    {
        copy.push(list[i].duplicate());
        i = i + 1;
    }
    copy
}

/// Part of a sequence holds nothing more often than the whole.
proof fn lemma_prefix_counts(s: Seq<ElementAttribute>, n: int, x: ElementAttribute)
    requires
        0 <= n <= s.len(),
    ensures
        s.take(n).to_multiset().count(x) <= s.to_multiset().count(x),
{
    vstd::seq_lib::lemma_multiset_commutative(s.take(n), s.skip(n));
    assert(s.take(n) + s.skip(n) == s);
}

/// Whether two lists hold the same attributes, in whatever order.
fn same_attributes(a: &Vec<Attribute>, b: &Vec<Attribute>) -> (r: bool)
    ensures
        r == (element_attributes(a@).to_multiset() == element_attributes(b@).to_multiset()),
{
    let ghost x = element_attributes(a@);
    let ghost y = element_attributes(b@);
    proof {
        x.to_multiset_ensures();
        y.to_multiset_ensures();
    }
    if a.len() != b.len() {
        return false;
    }
    let mut rest = copy_attributes(b);
    let mut i: usize = 0;
    proof {
        assert(x.take(0) == Seq::<ElementAttribute>::empty());
        x.take(0).to_multiset_ensures();
        assert(x.take(0).to_multiset() =~= vstd::multiset::Multiset::empty());
    }
    while i < a.len()
        invariant
            x == element_attributes(a@),
            y == element_attributes(b@),
            x.len() == y.len(),
            0 <= i <= x.len(),
            rest@.len() == y.len() - i,
            x.take(i as int).to_multiset().add(element_attributes(rest@).to_multiset())
                == y.to_multiset(),
        decreases x.len() - i,
    {
        let ghost left = element_attributes(rest@);
        let ghost taken = x.take(i as int);
        let ghost wanted = x[i as int];
        proof {
            taken.to_multiset_ensures();
            left.to_multiset_ensures();
            assert(x.take(i + 1) == taken.push(wanted));
        }
        match index_of_attribute(&rest, &a[i]) {
            Some(k) => {
                let ghost before = rest@;
                rest.remove(k);
                proof {
                    assert(element_attributes(rest@) == left.remove(k as int));
                    assert(left[k as int] == wanted);
                    assert(x.take(i + 1).to_multiset().add(
                        element_attributes(rest@).to_multiset(),
                    ) =~= y.to_multiset());
                }
            },
            None => {
                proof {
                    lemma_prefix_counts(x, i + 1, wanted);
                    assert(left.to_multiset().count(wanted) == 0);
                    assert(y.to_multiset().count(wanted) == taken.to_multiset().count(wanted));
                }
                return false;
            },
        }
        i = i + 1;
    }
    proof {
        assert(x.take(i as int) == x);
        assert(element_attributes(rest@) == Seq::<ElementAttribute>::empty());
        element_attributes(rest@).to_multiset_ensures();
        assert(x.to_multiset() =~= y.to_multiset());
    }
    true
}

/// Whether two elements are alike.
pub fn elements_match_for_noahs_ark(document: &Document, a: NodeId, b: NodeId) -> (r: bool)
    requires
        document.wf(),
        document@.has(a),
        document@.has(b),
    ensures
        r == alike(document@.kind(a), document@.kind(b)),
{
    proof {
        reveal(alike);
    }
    match (&document.node(a).kind, &document.node(b).kind) {
        (
            NodeKind::Element { name: a, namespace: ns_a, attributes: attributes_a },
            NodeKind::Element { name: b, namespace: ns_b, attributes: attributes_b },
        ) => str_eq(a.as_str(), b.as_str()) && text_eq(ns_a, ns_b) && same_attributes(
            attributes_a,
            attributes_b,
        ),
        _ => false,
    }
}

impl ActiveFormattingElements {
    /// An empty list.
    pub fn new() -> (r: Self)
        ensures
            r.entries@ == Seq::<FormattingEntry>::empty(),
    {
        ActiveFormattingElements { entries: Vec::new() }
    }

    /// Adds a marker.
    pub fn push_marker(&mut self)
        ensures
            final(self).entries@ == old(self).entries@.push(FormattingEntry::Marker),
    {
        self.entries.push(FormattingEntry::Marker);
    }

    /// Where the entries after the last marker start.
    pub fn last_marker_end(&self) -> (r: usize)
        ensures
            r == after_last_marker(self.entries@),
            r <= self.entries@.len(),
    {
        let mut i: usize = self.entries.len();
        assert(self.entries@.take(i as int) == self.entries@);
        while i > 0
            invariant
                0 <= i <= self.entries@.len(),
                after_last_marker(self.entries@.take(i as int)) == after_last_marker(self.entries@),
            decreases i,
        {
            assert(self.entries@.take(i as int).drop_last() == self.entries@.take(i - 1));
            assert(self.entries@.take(i as int).last() == self.entries@[i - 1]);
            if matches!(self.entries[i - 1], FormattingEntry::Marker) {
                return i;
            }
            i = i - 1;
        }
        0
    }

    /// Adds an element; where three alike ones stand after the last marker
    /// already, the earliest of them is taken out.
    pub fn push(&mut self, document: &Document, element: NodeId)
        requires
            document.wf(),
            document@.has(element),
            all_formatting(document@, old(self).entries@),
        ensures
            final(self).entries@ == with_formatting(document@, old(self).entries@, element),
    {
        let ghost d = document@;
        let ghost entries = self.entries@;
        let start: usize = self.last_marker_end();
        let length: usize = self.entries.len();
        let mut first: usize = length;
        let mut found: usize = 0;
        let mut i: usize = length;
        while i > start
            invariant
                document.wf(),
                d == document@,
                d.has(element),
                entries == self.entries@,
                all_formatting(d, entries),
                start <= i <= entries.len(),
                length == entries.len(),
                found <= length - i,
                found == count_alike(d, entries, i as int, element),
                first == first_alike(d, entries, i as int, element),
            decreases i,
        {
            i = i - 1;
            let same = match self.entries[i] {
                FormattingEntry::Element(node) => {
                    assert(d.has(node)) by {
                        assert(entries[i as int] == FormattingEntry::Element(node));
                    }
                    elements_match_for_noahs_ark(document, node, element)
                },
                FormattingEntry::Marker => false,
            };
            if same {
                found = found + 1;
                first = i;
            }
        }
        proof {
            lemma_first_alike(d, entries, start as int, element);
        }
        if found >= 3 {
            self.entries.remove(first);
        }
        self.entries.push(FormattingEntry::Element(element));
    }

    /// Takes out the last marker and everything after it.
    pub fn clear_up_to_last_marker(&mut self)
        ensures
            final(self).entries@ == cleared_to_marker(old(self).entries@),
    {
        let start: usize = self.last_marker_end();
        if start == 0 {
            self.entries.truncate(0);
        } else {
            self.entries.truncate(start - 1);
        }
        assert(self.entries@ == cleared_to_marker(old(self).entries@));
    }
}

} // verus!
