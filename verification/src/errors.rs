//! Putting the errors of the two stages into document order.
use vstd::prelude::*;

use crate::token::ParseError;

verus! {

/// The errors at one byte offset, in the order they stand in.
pub open spec fn at_offset(errors: Seq<ParseError>, offset: usize) -> Seq<ParseError>
    decreases errors.len(),
{
    if errors.len() == 0 {
        Seq::empty()
    } else if errors.last().position.byte_offset == offset {
        at_offset(errors.drop_last(), offset).push(errors.last())
    } else {
        at_offset(errors.drop_last(), offset)
    }
}

/// No error stands before one with a smaller byte offset.
pub open spec fn by_offset(errors: Seq<ParseError>) -> bool {
    forall|i: int, j: int|
        0 <= i <= j < errors.len() ==> (#[trigger] errors[i]).position.byte_offset <= (
        #[trigger] errors[j]).position.byte_offset
}

/// `sorted` holds the errors of `all` by byte offset; those at the same offset
/// keep their order.
pub open spec fn in_document_order(all: Seq<ParseError>, sorted: Seq<ParseError>) -> bool {
    &&& by_offset(sorted)
    &&& forall|offset: usize| #[trigger] at_offset(sorted, offset) == at_offset(all, offset)
}

/// The errors at an offset of two lists in a row.
pub proof fn lemma_at_offset_add(a: Seq<ParseError>, b: Seq<ParseError>, offset: usize)
    ensures
        at_offset(a + b, offset) == at_offset(a, offset) + at_offset(b, offset),
    decreases b.len(),
{
    if b.len() == 0 {
        assert(a + b == a);
        assert(at_offset(a, offset) + at_offset(b, offset) == at_offset(a, offset));
    } else {
        lemma_at_offset_add(a, b.drop_last(), offset);
        assert((a + b).drop_last() == a + b.drop_last());
        assert((a + b).last() == b.last());
        if b.last().position.byte_offset == offset {
            assert((at_offset(a, offset) + at_offset(b.drop_last(), offset)).push(b.last())
                == at_offset(a, offset) + at_offset(b.drop_last(), offset).push(b.last()));
        }
    }
}

/// Where no error is at an offset, there are none at it.
proof fn lemma_none_at_offset(errors: Seq<ParseError>, offset: usize)
    requires
        forall|i: int|
            0 <= i < errors.len() ==> (#[trigger] errors[i]).position.byte_offset != offset,
    ensures
        at_offset(errors, offset) == Seq::<ParseError>::empty(),
    decreases errors.len(),
{
    if errors.len() > 0 {
        assert(errors[errors.len() - 1].position.byte_offset != offset);
        assert forall|i: int| 0 <= i < errors.drop_last().len() implies (
        #[trigger] errors.drop_last()[i]).position.byte_offset != offset by {
            assert(errors[i] == errors.drop_last()[i]);
        }
        lemma_none_at_offset(errors.drop_last(), offset);
    }
}

/// What one error adds to the errors at an offset.
proof fn lemma_at_offset_push(errors: Seq<ParseError>, error: ParseError, offset: usize)
    ensures
        at_offset(errors.push(error), offset) == if error.position.byte_offset == offset {
            at_offset(errors, offset).push(error)
        } else {
            at_offset(errors, offset)
        },
{
    assert(errors.push(error).drop_last() == errors);
}

/// Document order leaves no choice.
pub proof fn lemma_document_order_is_unique(
    all: Seq<ParseError>,
    a: Seq<ParseError>,
    b: Seq<ParseError>,
)
    requires
        in_document_order(all, a),
        in_document_order(all, b),
    ensures
        a == b,
{
    lemma_same_order(a, b);
}

proof fn lemma_same_order(a: Seq<ParseError>, b: Seq<ParseError>)
    requires
        by_offset(a),
        by_offset(b),
        forall|offset: usize| #[trigger] at_offset(a, offset) == at_offset(b, offset),
    ensures
        a == b,
    decreases a.len() + b.len(),
{
    if a.len() == 0 && b.len() == 0 {
        assert(a == b);
    } else {
        lemma_last_is_greatest(a, b);
        lemma_last_is_greatest(b, a);
        let x = a.last();
        let offset = x.position.byte_offset;
        assert(at_offset(a, offset) == at_offset(b, offset));
        assert(at_offset(a, offset).last() == at_offset(b, offset).last());
        assert(x == b.last());
        assert forall|o: usize| #[trigger] at_offset(a.drop_last(), o) == at_offset(
            b.drop_last(),
            o,
        ) by {
            assert(at_offset(a, o) == at_offset(b, o));
            if o == offset {
                assert(at_offset(a, o).drop_last() == at_offset(a.drop_last(), o));
                assert(at_offset(b, o).drop_last() == at_offset(b.drop_last(), o));
            }
        }
        lemma_by_offset_shorter(a);
        lemma_by_offset_shorter(b);
        lemma_same_order(a.drop_last(), b.drop_last());
        assert(a == a.drop_last().push(x));
        assert(b == b.drop_last().push(x));
    }
}

proof fn lemma_by_offset_shorter(a: Seq<ParseError>)
    requires
        by_offset(a),
        a.len() > 0,
    ensures
        by_offset(a.drop_last()),
{
    let s = a.drop_last();
    assert forall|i: int, j: int| 0 <= i <= j < s.len() implies (
    #[trigger] s[i]).position.byte_offset <= (#[trigger] s[j]).position.byte_offset by {
        assert(s[i] == a[i] && s[j] == a[j]);
    }
}

/// Of two lists with the same errors at every offset, one is as long as the
/// other, as far as the last error goes: it is not beyond the other's last.
proof fn lemma_last_is_greatest(a: Seq<ParseError>, b: Seq<ParseError>)
    requires
        by_offset(a),
        by_offset(b),
        a.len() > 0 || b.len() > 0,
        forall|offset: usize| #[trigger] at_offset(a, offset) == at_offset(b, offset),
    ensures
        a.len() > 0,
        b.len() > 0,
        a.last().position.byte_offset <= b.last().position.byte_offset,
{
    if a.len() > 0 {
        let offset = a.last().position.byte_offset;
        assert(at_offset(a, offset) == at_offset(b, offset));
        assert(at_offset(a, offset).len() > 0);
        if b.len() == 0 || b.last().position.byte_offset < offset {
            assert forall|i: int| 0 <= i < b.len() implies (
            #[trigger] b[i]).position.byte_offset != offset by {
                assert(b[i].position.byte_offset <= b[b.len() - 1].position.byte_offset);
            }
            lemma_none_at_offset(b, offset);
        }
    } else {
        let offset = b.last().position.byte_offset;
        assert(at_offset(a, offset) == at_offset(b, offset));
        assert(at_offset(b, offset).len() > 0);
    }
}

/// An error stands as often in a list as among the errors at its offset.
proof fn lemma_counted_at_offset(errors: Seq<ParseError>, error: ParseError)
    ensures
        errors.to_multiset().count(error) == at_offset(
            errors,
            error.position.byte_offset,
        ).to_multiset().count(error),
    decreases errors.len(),
{
    broadcast use vstd::seq_lib::group_to_multiset_ensures;

    let offset = error.position.byte_offset;
    if errors.len() > 0 {
        let last = errors.last();
        lemma_counted_at_offset(errors.drop_last(), error);
        assert(errors == errors.drop_last().push(last));
        assert(errors.to_multiset() == errors.drop_last().to_multiset().insert(last));
        if last.position.byte_offset == offset {
            assert(at_offset(errors, offset).to_multiset() == at_offset(
                errors.drop_last(),
                offset,
            ).to_multiset().insert(last));
        }
    }
}

/// Document order loses no error and adds none.
pub proof fn lemma_document_order_permutes(all: Seq<ParseError>, sorted: Seq<ParseError>)
    requires
        in_document_order(all, sorted),
    ensures
        sorted.to_multiset() == all.to_multiset(),
{
    assert forall|error: ParseError| #[trigger]
        sorted.to_multiset().count(error) == all.to_multiset().count(error) by {
        lemma_counted_at_offset(all, error);
        lemma_counted_at_offset(sorted, error);
    }
    assert(sorted.to_multiset() =~= all.to_multiset());
}

/// Puts one more error into a list in document order, behind all that are not
/// beyond it.
fn insert_error(errors: &mut Vec<ParseError>, error: ParseError)
    requires
        by_offset(old(errors)@),
    ensures
        in_document_order(old(errors)@.push(error), final(errors)@),
{
    let ghost before = errors@;
    let offset: usize = error.position.byte_offset;
    let mut i: usize = errors.len();
    while i > 0 && errors[i - 1].position.byte_offset > offset
        invariant
            errors@ == before,
            0 <= i <= before.len(),
            offset == error.position.byte_offset,
            by_offset(before),
            forall|j: int|
                i <= j < before.len() ==> (#[trigger] before[j]).position.byte_offset > offset,
        decreases i,
    {
        i = i - 1;
    }
    errors.insert(i, error);
    proof {
        let k = i as int;
        let front = before.take(k);
        let back = before.skip(k);
        assert(front + back == before);
        assert(errors@ == front.push(error) + back);
        assert forall|o: usize| #[trigger] at_offset(errors@, o) == at_offset(
            before.push(error),
            o,
        ) by {
            lemma_at_offset_add(front.push(error), back, o);
            lemma_at_offset_add(front, back, o);
            lemma_at_offset_push(front, error, o);
            lemma_at_offset_push(before, error, o);
            if o == offset {
                assert forall|j: int| 0 <= j < back.len() implies (
                #[trigger] back[j]).position.byte_offset != o by {
                    assert(back[j] == before[k + j]);
                }
                lemma_none_at_offset(back, o);
                assert(at_offset(front, o) + at_offset(back, o) == at_offset(front, o));
                assert(at_offset(front.push(error), o) + at_offset(back, o) == at_offset(
                    front.push(error),
                    o,
                ));
            }
        }
        let after = errors@;
        assert forall|x: int, y: int| 0 <= x <= y < after.len() implies (
        #[trigger] after[x]).position.byte_offset <= (#[trigger] after[y]).position.byte_offset by {
            let p = if x < k {
                x
            } else {
                x - 1
            };
            let q = if y < k {
                y
            } else {
                y - 1
            };
            if x != k {
                assert(after[x] == before[p]);
            }
            if y != k {
                assert(after[y] == before[q]);
            }
            if y == k && x < k {
                assert(before[p].position.byte_offset <= before[k - 1].position.byte_offset);
            }
        }
    }
}

/// Puts errors into document order.
fn sort_errors(errors: &Vec<ParseError>) -> (r: Vec<ParseError>)
    ensures
        in_document_order(errors@, r@),
{
    let mut sorted: Vec<ParseError> = Vec::new();
    let mut i: usize = 0;
    while i < errors.len()
        invariant
            0 <= i <= errors@.len(),
            in_document_order(errors@.take(i as int), sorted@),
        decreases errors@.len() - i,
    {
        let ghost before = sorted@;
        insert_error(&mut sorted, errors[i]);
        proof {
            let error = errors@[i as int];
            assert(errors@.take(i + 1) == errors@.take(i as int).push(error));
            assert forall|o: usize| #[trigger] at_offset(sorted@, o) == at_offset(
                errors@.take(i + 1),
                o,
            ) by {
                assert(at_offset(sorted@, o) == at_offset(before.push(error), o));
                assert(at_offset(before, o) == at_offset(errors@.take(i as int), o));
                lemma_at_offset_push(before, error, o);
                lemma_at_offset_push(errors@.take(i as int), error, o);
            }
        }
        i = i + 1;
    }
    assert(errors@.take(i as int) == errors@);
    sorted
}

/// Merges two lists in document order; at the same offset the errors of the
/// first come first.
fn merge(a: &Vec<ParseError>, b: &Vec<ParseError>) -> (r: Vec<ParseError>)
    requires
        by_offset(a@),
        by_offset(b@),
    ensures
        in_document_order(a@ + b@, r@),
{
    let mut out: Vec<ParseError> = Vec::new();
    let mut i: usize = 0;
    let mut j: usize = 0;
    proof {
        assert(a@.take(0) + b@.take(0) == Seq::<ParseError>::empty());
    }
    while i < a.len() || j < b.len()
        invariant
            by_offset(a@),
            by_offset(b@),
            0 <= i <= a@.len(),
            0 <= j <= b@.len(),
            in_document_order(a@.take(i as int) + b@.take(j as int), out@),
            forall|x: int, y: int|
                0 <= x < out@.len() && i <= y < a@.len() ==> (
                #[trigger] out@[x]).position.byte_offset <= (
                #[trigger] a@[y]).position.byte_offset,
            forall|x: int, y: int|
                0 <= x < out@.len() && j <= y < b@.len() ==> (
                #[trigger] out@[x]).position.byte_offset <= (
                #[trigger] b@[y]).position.byte_offset,
            forall|x: int, y: int|
                0 <= x < j && i <= y < a@.len() ==> (#[trigger] b@[x]).position.byte_offset < (
                #[trigger] a@[y]).position.byte_offset,
        decreases a@.len() - i + b@.len() - j,
    {
        let ghost before = out@;
        let ghost left = a@.take(i as int);
        let ghost right = b@.take(j as int);
        let from_a = j >= b.len() || (i < a.len() && a[i].position.byte_offset
            <= b[j].position.byte_offset);
        if from_a {
            let ghost error = a@[i as int];
            out.push(a[i]);
            i = i + 1;
            proof {
                assert(a@.take(i as int) == left.push(error));
                assert forall|o: usize| #[trigger] at_offset(out@, o) == at_offset(
                    a@.take(i as int) + b@.take(j as int),
                    o,
                ) by {
                    assert(at_offset(before, o) == at_offset(left + right, o));
                    lemma_at_offset_push(before, error, o);
                    lemma_at_offset_push(left, error, o);
                    lemma_at_offset_add(left, right, o);
                    lemma_at_offset_add(left.push(error), right, o);
                    if o == error.position.byte_offset {
                        assert forall|x: int| 0 <= x < right.len() implies (
                        #[trigger] right[x]).position.byte_offset != o by {
                            assert(right[x] == b@[x]);
                        }
                        lemma_none_at_offset(right, o);
                        assert(at_offset(left, o) + at_offset(right, o) == at_offset(left, o));
                        assert(at_offset(left.push(error), o) + at_offset(right, o) == at_offset(
                            left.push(error),
                            o,
                        ));
                    }
                }
            }
        } else {
            let ghost error = b@[j as int];
            out.push(b[j]);
            j = j + 1;
            proof {
                assert(b@.take(j as int) == right.push(error));
                assert forall|o: usize| #[trigger] at_offset(out@, o) == at_offset(
                    a@.take(i as int) + b@.take(j as int),
                    o,
                ) by {
                    assert(at_offset(before, o) == at_offset(left + right, o));
                    lemma_at_offset_push(before, error, o);
                    lemma_at_offset_push(left + right, error, o);
                    assert((left + right).push(error) == left + right.push(error));
                }
            }
        }
    }
    proof {
        assert(a@.take(i as int) == a@);
        assert(b@.take(j as int) == b@);
    }
    out
}

/// Puts the errors of two stages into document order; at the same offset those
/// of the first stage come first.
pub fn merge_errors(first: &Vec<ParseError>, second: &Vec<ParseError>) -> (r: Vec<ParseError>)
    ensures
        in_document_order(first@ + second@, r@),
{
    let a = sort_errors(first);
    let b = sort_errors(second);
    let merged = merge(&a, &b);
    assert forall|o: usize| #[trigger] at_offset(merged@, o) == at_offset(
        first@ + second@,
        o,
    ) by {
        assert(at_offset(merged@, o) == at_offset(a@ + b@, o));
        assert(at_offset(a@, o) == at_offset(first@, o));
        assert(at_offset(b@, o) == at_offset(second@, o));
        lemma_at_offset_add(a@, b@, o);
        lemma_at_offset_add(first@, second@, o);
    }
    merged
}

} // verus!
