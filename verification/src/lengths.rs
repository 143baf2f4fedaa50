//! Order statistics over a collection of read lengths.
//!
//! Every function that needs the lengths in order sorts the caller's slice in
//! place; callers that need the lengths as they came copy them first.

use vstd::prelude::*;

verus! {

/// The lengths are in ascending order.
pub open spec fn ascending(s: Seq<i64>) -> bool {
    forall|i: int, j: int| 0 <= i <= j < s.len() ==> s[i] <= s[j]
}

/// The sum of all lengths, as a mathematical integer.
pub open spec fn sum(s: Seq<i64>) -> int
    decreases s.len(),
{
    if s.len() == 0 {
        0
    } else {
        sum(s.drop_last()) + s.last()
    }
}

/// Position of the `q`-th quartile in a sorted collection of `len` values:
/// a quarter, a half, or a quarter plus a half of the count, each rounded
/// down. No interpolation takes place, so the value is an approximation of
/// the statistical quartile for small or even-sized collections.
pub open spec fn quartile_index(len: int, q: int) -> int {
    if q == 1 {
        len / 4
    } else if q == 2 {
        len / 2
    } else {
        len / 4 + len / 2
    }
}

/// Sorts the slice with `<[i64]>::sort_unstable` of the standard library. Its
/// documentation promises an ascending order; that the elements are kept,
/// each as often as it occurred, is what sorting means there.
#[verifier::external_body]
pub(crate) fn sort_ascending(numbers: &mut [i64])
    ensures
        ascending(final(numbers)@),
        final(numbers)@.to_multiset() == old(numbers)@.to_multiset(),
{
    numbers.sort_unstable();
}

/// Reads the `q`-th quartile off lengths that are already in ascending order.
pub fn quartile_of_sorted(sorted: &[i64], q: i8) -> (value: i64)
    requires
        1 <= q <= 3,
        sorted@.len() > 0,
    ensures
        value == sorted@[quartile_index(sorted@.len() as int, q as int)],
{
    let n: usize = sorted.len();
    if q == 1 {
        sorted[n / 4]
    } else if q == 2 {
        sorted[n / 2]
    } else {
        sorted[n / 4 + n / 2]
    }
}

/// Sorts the lengths ascending and returns quartile `q` of them, or 0 when
/// there are none.
pub fn quartiles(numbers: &mut [i64], q: i8) -> (value: i64)
    requires
        1 <= q <= 3,
    ensures
        ascending(final(numbers)@),
        final(numbers)@.to_multiset() == old(numbers)@.to_multiset(),
        old(numbers)@.len() == 0 ==> value == 0,
        old(numbers)@.len() > 0 ==> value == final(numbers)@[quartile_index(
            old(numbers)@.len() as int,
            q as int,
        )],
{
    sort_ascending(numbers);
    proof {
        old(numbers)@.to_multiset_ensures();
        numbers@.to_multiset_ensures();
    }
    if numbers.len() == 0 {
        0
    } else {
        quartile_of_sorted(numbers, q)
    }
}

/// The cumulative sum of the lengths up to and including position `k`.
pub open spec fn running_total(s: Seq<i64>, k: int) -> int {
    sum(s.take(k + 1))
}

/// `k` is where a cumulative scan of `s` stops for `threshold`: the first
/// position whose running total strictly exceeds the threshold, or the last
/// position when no running total does.
pub open spec fn is_nx_index(s: Seq<i64>, threshold: int, k: int) -> bool {
    &&& 0 <= k < s.len()
    &&& forall|j: int| 0 <= j < k ==> #[trigger] running_total(s, j) <= threshold
    &&& (running_total(s, k) > threshold || k == s.len() - 1)
}

/// Every length is zero or more.
pub open spec fn non_negative(s: Seq<i64>) -> bool {
    forall|i: int| 0 <= i < s.len() ==> #[trigger] s[i] >= 0
}

/// `low` is the least element of a non-empty `s`; of an empty one it is the
/// largest 64-bit value.
pub open spec fn is_shortest(s: Seq<i64>, low: i64) -> bool {
    if s.len() == 0 {
        low == i64::MAX
    } else {
        s.contains(low) && forall|i: int| 0 <= i < s.len() ==> low <= #[trigger] s[i]
    }
}

/// `high` is the greatest element of a non-empty `s`; of an empty one it is 0.
pub open spec fn is_longest(s: Seq<i64>, high: i64) -> bool {
    if s.len() == 0 {
        high == 0
    } else {
        s.contains(high) && forall|i: int| 0 <= i < s.len() ==> #[trigger] s[i] <= high
    }
}

/// Every element of a collection occurs in each of its reorderings.
pub proof fn lemma_member_of_permutation(a: Seq<i64>, b: Seq<i64>, i: int)
    requires
        a.to_multiset() == b.to_multiset(),
        0 <= i < b.len(),
    ensures
        a.contains(b[i]),
{
    a.to_multiset_ensures();
    b.to_multiset_ensures();
    assert(b.contains(b[i]));
    assert(a.to_multiset().count(b[i]) > 0);
}

/// Order leaves the least and the greatest element, and the sign of the
/// elements, as they are.
pub proof fn lemma_extremes_of_permutation(a: Seq<i64>, b: Seq<i64>, low: i64, high: i64)
    requires
        a.to_multiset() == b.to_multiset(),
    ensures
        a.len() == b.len(),
        is_shortest(a, low) ==> is_shortest(b, low),
        is_longest(a, high) ==> is_longest(b, high),
        non_negative(a) ==> non_negative(b),
{
    a.to_multiset_ensures();
    b.to_multiset_ensures();
    assert forall|i: int| 0 <= i < b.len() implies (is_shortest(a, low) ==> low <= #[trigger] b[i])
        && (is_longest(a, high) ==> b[i] <= high) && (non_negative(a) ==> b[i] >= 0) by {
        lemma_member_of_permutation(a, b, i);
        let j = choose|j: int| 0 <= j < a.len() && a[j] == b[i];
        assert(a[j] == b[i]);
    }
    if a.len() > 0 {
        if is_shortest(a, low) {
            assert(a.to_multiset().count(low) > 0);
        }
        if is_longest(a, high) {
            assert(a.to_multiset().count(high) > 0);
        }
    }
}

/// A sum of `i64` values stays within the count times the range of one value.
pub proof fn lemma_sum_bounds(s: Seq<i64>)
    ensures
        -0x8000_0000_0000_0000 * s.len() <= sum(s) <= 0x7fff_ffff_ffff_ffff * s.len(),
    decreases s.len(),
{
    if s.len() > 0 {
        lemma_sum_bounds(s.drop_last());
    }
}

/// Taking one more element adds that element to the sum.
pub proof fn lemma_sum_take_next(s: Seq<i64>, i: int)
    requires
        0 <= i < s.len(),
    ensures
        sum(s.take(i + 1)) == sum(s.take(i)) + s[i],
{
    assert(s.take(i + 1).drop_last() =~= s.take(i));
}

/// Removing one element lowers the sum by that element.
pub proof fn lemma_sum_remove(s: Seq<i64>, i: int)
    requires
        0 <= i < s.len(),
    ensures
        sum(s) == sum(s.remove(i)) + s[i],
    decreases s.len(),
{
    if i == s.len() - 1 {
        assert(s.remove(i) =~= s.drop_last());
    } else {
        lemma_sum_remove(s.drop_last(), i);
        assert(s.remove(i).drop_last() =~= s.drop_last().remove(i));
    }
}

/// The sum does not depend on the order of the lengths: two collections with
/// the same elements, each as often, have the same sum.
pub proof fn lemma_sum_of_permutation(a: Seq<i64>, b: Seq<i64>)
    requires
        a.to_multiset() == b.to_multiset(),
    ensures
        sum(a) == sum(b),
    decreases a.len(),
{
    a.to_multiset_ensures();
    b.to_multiset_ensures();
    if a.len() > 0 {
        let x = a.last();
        assert(a.contains(x));
        assert(b.to_multiset().count(x) > 0);
        let j = choose|j: int| 0 <= j < b.len() && b[j] == x;
        assert(a.drop_last() =~= a.remove(a.len() - 1));
        lemma_sum_remove(b, j);
        lemma_sum_of_permutation(a.drop_last(), b.remove(j));
    }
}

/// The sum of all lengths. The accumulator is wide enough for any slice.
pub fn total(numbers: &[i64]) -> (t: i128)
    ensures
        t == sum(numbers@),
{
    let n: usize = numbers.len();
    let mut acc: i128 = 0;
    let mut i: usize = 0;
    while i < n
        invariant
            i <= n,
            n == numbers@.len(),
            acc == sum(numbers@.take(i as int)),
        decreases n - i,
    {
        proof {
            lemma_sum_bounds(numbers@.take(i as int));
            lemma_sum_take_next(numbers@, i as int);
        }
        acc = acc + numbers[i] as i128;
        i = i + 1;
    }
    assert(numbers@.take(n as int) =~= numbers@);
    acc
}

/// Scans lengths that are already in ascending order and returns the one at
/// which the running total first exceeds `threshold`; the last one when the
/// running total never does.
pub fn nx_of_sorted(sorted: &[i64], threshold: i128) -> (value: i64)
    requires
        sorted@.len() > 0,
    ensures
        exists|k: int| is_nx_index(sorted@, threshold as int, k) && value == sorted@[k],
{
    let n: usize = sorted.len();
    let mut acc: i128 = 0;
    let mut i: usize = 0;
    while i < n
        invariant
            i <= n,
            n == sorted@.len(),
            n > 0,
            acc == sum(sorted@.take(i as int)),
            forall|j: int| 0 <= j < i ==> #[trigger] running_total(sorted@, j) <= threshold,
        decreases n - i,
    {
        proof {
            lemma_sum_bounds(sorted@.take(i as int));
            lemma_sum_take_next(sorted@, i as int);
        }
        acc = acc + sorted[i] as i128;
        if acc > threshold {
            assert(is_nx_index(sorted@, threshold as int, i as int));
            return sorted[i];
        }
        i = i + 1;
    }
    assert(is_nx_index(sorted@, threshold as int, n - 1));
    sorted[n - 1]
}

/// Sorts the lengths ascending and returns the generalised NX length for
/// `threshold`, a number of bases: the wanted fraction of the sum of all
/// lengths, half of it for the N50. The result is the length at which the
/// running total of the sorted lengths first exceeds the threshold. When no
/// running total exceeds it the longest length is returned, and 0 when there
/// are no lengths at all.
pub fn get_nx(numbers: &mut [i64], threshold: i128) -> (value: i64)
    ensures
        ascending(final(numbers)@),
        final(numbers)@.to_multiset() == old(numbers)@.to_multiset(),
        old(numbers)@.len() == 0 ==> value == 0,
        old(numbers)@.len() > 0 ==> exists|k: int|
            is_nx_index(final(numbers)@, threshold as int, k) && value == final(numbers)@[k],
{
    sort_ascending(numbers);
    proof {
        old(numbers)@.to_multiset_ensures();
        numbers@.to_multiset_ensures();
    }
    if numbers.len() == 0 {
        0
    } else {
        nx_of_sorted(numbers, threshold)
    }
}

/// With the sum of all lengths as threshold, the generalised NX of
/// non-negative lengths is the longest of them: no running total exceeds the
/// whole, so the scan over the sorted lengths ends on the last one.
pub proof fn lemma_nx_of_whole_is_longest(before: Seq<i64>, after: Seq<i64>, k: int)
    requires
        non_negative(before),
        ascending(after),
        after.to_multiset() == before.to_multiset(),
        is_nx_index(after, sum(before), k),
    ensures
        k == after.len() - 1,
        is_longest(before, after[k]),
{
    lemma_sum_of_permutation(before, after);
    lemma_extremes_of_permutation(before, after, 0, 0);
    lemma_running_total_monotone(after, k, after.len() - 1);
    assert(after.take(after.len() as int) =~= after);
    assert(is_longest(after, after[k]));
    lemma_extremes_of_permutation(after, before, 0, after[k]);
}

/// With a threshold below the shortest length, the generalised NX is the
/// shortest length: the scan over the sorted lengths stops at once. For
/// positive lengths this covers threshold 0, which is what a fraction of less
/// than one base of the whole comes to. The same holds, for any threshold,
/// when all lengths are equal. It does not hold of the lengths 0, 7, 0, 9 at
/// threshold 0: there the scan passes over the empty reads and stops at 7.
pub proof fn lemma_nx_below_shortest_is_shortest(
    before: Seq<i64>,
    after: Seq<i64>,
    threshold: int,
    k: int,
)
    requires
        ascending(after),
        after.to_multiset() == before.to_multiset(),
        is_nx_index(after, threshold, k),
        threshold < after[0] || after[after.len() - 1] == after[0],
    ensures
        after[k] == after[0],
        is_shortest(before, after[k]),
{
    assert(after.take(1).drop_last() =~= Seq::<i64>::empty());
    assert(running_total(after, 0) == after[0]) by {
        assert(sum(after.take(1).drop_last()) == 0);
    }
    if threshold < after[0] {
        if k > 0 {
            assert(running_total(after, 0) <= threshold);
        }
    }
    assert(is_shortest(after, after[0]));
    lemma_extremes_of_permutation(after, before, after[0], 0);
}

/// Running totals of non-negative lengths never fall.
pub proof fn lemma_running_total_monotone(s: Seq<i64>, i: int, j: int)
    requires
        non_negative(s),
        0 <= i <= j < s.len(),
    ensures
        running_total(s, i) <= running_total(s, j),
    decreases j - i,
{
    if i < j {
        lemma_running_total_monotone(s, i, j - 1);
        lemma_sum_take_next(s, j);
    }
}

} // verus!
