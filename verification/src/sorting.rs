//! Sorting of attribute codes, and what it means for codes to be in order.

use vstd::prelude::*;

verus! {

/// Each code is at most the codes after it.
pub open spec fn nondecreasing(codes: Seq<i16>) -> bool {
    forall|i: int, j: int| 0 <= i <= j < codes.len() ==> codes[i] <= codes[j]
}

/// Each code is less than the codes after it: the codes are in order and none occurs twice.
pub open spec fn ascending(codes: Seq<i16>) -> bool {
    forall|i: int, j: int| 0 <= i < j < codes.len() ==> codes[i] < codes[j]
}

/// Two lists of codes in ascending order that hold the same codes are the same list.
pub proof fn lemma_ascending_unique(first: Seq<i16>, second: Seq<i16>)
    requires
        ascending(first),
        ascending(second),
        first.to_set() == second.to_set(),
    ensures
        first == second,
    decreases first.len(),
{
    if first.len() == 0 {
        if second.len() > 0 {
            assert(second.to_set().contains(second[0]));
        }
        assert(first =~= second);
    } else {
        // Each list ends with the greatest code of the set.
        assert(first.to_set().contains(first.last()));
        assert(second.contains(first.last()));
        assert(second.to_set().contains(second.last()));
        assert(first.contains(second.last()));
        assert(first.last() == second.last());
        let shorter_first = first.drop_last();
        let shorter_second = second.drop_last();
        lemma_drop_greatest(first, second);
        lemma_drop_greatest(second, first);
        assert(shorter_first.to_set() =~= shorter_second.to_set());
        lemma_ascending_unique(shorter_first, shorter_second);
        assert(first =~= shorter_first.push(first.last()));
        assert(second =~= shorter_second.push(second.last()));
    }
}

/// Of two lists of codes in ascending order that hold the same codes and end with the
/// same code, each code of the first but the last is a code of the second but the last.
proof fn lemma_drop_greatest(first: Seq<i16>, second: Seq<i16>)
    requires
        ascending(first),
        ascending(second),
        first.to_set() == second.to_set(),
        first.len() > 0,
        second.len() > 0,
        first.last() == second.last(),
    ensures
        forall|code: i16|
            first.drop_last().to_set().contains(code) ==> second.drop_last().to_set().contains(
                code,
            ),
{
    assert forall|code: i16| first.drop_last().to_set().contains(code) implies second.drop_last()
        .to_set().contains(code) by {
        let i = choose|i: int| 0 <= i < first.drop_last().len() && first.drop_last()[i] == code;
        assert(first[i] == code);
        assert(first.to_set().contains(code));
        assert(second.contains(code));
        let j = choose|j: int| 0 <= j < second.len() && second[j] == code;
        assert(second.drop_last()[j] == code);
    }
}

/// Among codes in ascending order none occurs twice.
pub proof fn lemma_ascending_no_duplicates(codes: Seq<i16>)
    requires
        ascending(codes),
    ensures
        codes.no_duplicates(),
{
}

/// Sorting codes of which none occurs twice gives the same codes in ascending order.
pub proof fn lemma_sorted_distinct(codes: Seq<i16>, sorted: Seq<i16>)
    requires
        codes.no_duplicates(),
        nondecreasing(sorted),
        sorted.to_multiset() == codes.to_multiset(),
    ensures
        ascending(sorted),
        sorted.to_set() == codes.to_set(),
{
    broadcast use vstd::seq_lib::group_to_multiset_ensures;

    codes.lemma_multiset_has_no_duplicates();
    sorted.lemma_multiset_has_no_duplicates_conv();
    assert forall|code: i16| sorted.to_set().contains(code) == codes.to_set().contains(code) by {
        assert(sorted.contains(code) <==> sorted.to_multiset().count(code) > 0);
        assert(codes.contains(code) <==> codes.to_multiset().count(code) > 0);
    }
    assert(sorted.to_set() =~= codes.to_set());
}

/// Merges two ordered lists of codes into one ordered list that holds the codes of both.
fn merge(left: &Vec<i16>, right: &Vec<i16>) -> (merged: Vec<i16>)
    requires
        nondecreasing(left@),
        nondecreasing(right@),
    ensures
        nondecreasing(merged@),
        merged@.to_multiset() == left@.to_multiset().add(right@.to_multiset()),
{
    broadcast use vstd::multiset::group_multiset_axioms;

    let mut merged: Vec<i16> = Vec::new();
    let mut i: usize = 0;
    let mut j: usize = 0;
    proof {
        assert(merged@ =~= left@.take(0) + right@.take(0));
        vstd::seq_lib::lemma_multiset_commutative(left@.take(0), right@.take(0));
    }
    while i < left.len() || j < right.len()
        invariant
            i <= left.len(),
            j <= right.len(),
            nondecreasing(left@),
            nondecreasing(right@),
            nondecreasing(merged@),
            merged@.to_multiset() == left@.take(i as int).to_multiset().add(
                right@.take(j as int).to_multiset(),
            ),
            forall|k: int| 0 <= k < merged.len() && i < left.len() ==> merged[k] <= left[i as int],
            forall|k: int|
                0 <= k < merged.len() && j < right.len() ==> merged[k] <= right[j as int],
        decreases left.len() - i + right.len() - j,
    {
        let ghost before = merged@;
        let ghost taken_left = left@.take(i as int);
        let ghost taken_right = right@.take(j as int);
        let from_left = j >= right.len() || (i < left.len() && left[i] <= right[j]);
        if from_left {
            let code: i16 = left[i];
            merged.push(code);
            i += 1;
            proof {
                assert(left@.take(i as int) =~= taken_left.push(code));
                vstd::seq_lib::to_multiset_build(before, code);
                vstd::seq_lib::to_multiset_build(taken_left, code);
            }
        } else {
            let code: i16 = right[j];
            merged.push(code);
            j += 1;
            proof {
                assert(right@.take(j as int) =~= taken_right.push(code));
                vstd::seq_lib::to_multiset_build(before, code);
                vstd::seq_lib::to_multiset_build(taken_right, code);
            }
        }
        assert(merged@.to_multiset() =~= left@.take(i as int).to_multiset().add(
            right@.take(j as int).to_multiset(),
        ));
    }
    assert(left@.take(i as int) =~= left@);
    assert(right@.take(j as int) =~= right@);
    merged
}

/// Copies the codes at the positions from `start` up to `end`, in their order.
fn copy_range(codes: &Vec<i16>, start: usize, end: usize) -> (part: Vec<i16>)
    requires
        start <= end <= codes.len(),
    ensures
        part@ == codes@.subrange(start as int, end as int),
{
    let mut part: Vec<i16> = Vec::new();
    let mut i: usize = start;
    while i < end
        invariant
            start <= i <= end <= codes.len(),
            part@ == codes@.subrange(start as int, i as int),
        decreases end - i,
    {
        part.push(codes[i]);
        i += 1;
    }
    part
}

/// Sorts codes: the result holds each code as often as `codes` does, in order.
pub(crate) fn sort_codes(codes: Vec<i16>) -> (sorted: Vec<i16>)
    ensures
        nondecreasing(sorted@),
        sorted@.to_multiset() == codes@.to_multiset(),
    decreases codes.len(),
{
    let n: usize = codes.len();
    if n <= 1 {
        return codes;
    }
    let middle: usize = n / 2;
    let left = copy_range(&codes, 0, middle);
    let right = copy_range(&codes, middle, n);
    proof {
        assert(codes@ =~= left@ + right@);
        vstd::seq_lib::lemma_multiset_commutative(left@, right@);
    }
    let left = sort_codes(left);
    let right = sort_codes(right);
    merge(&left, &right)
}

} // verus!
