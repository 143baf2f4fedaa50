//! Counts over the bytes of one read: quality bytes at or above a floor, and
//! ambiguous bases in the sequence.
//!
//! Quality bytes are Phred scores in the +33 encoding, so a score threshold
//! `t` corresponds to the byte floor `33 + t`.

use vstd::prelude::*;

verus! {

/// Offset between a Phred score and the byte that encodes it.
pub const PHRED_OFFSET: u8 = 33;

/// Number of quality bytes that are at least `floor`.
pub open spec fn count_at_or_above(q: Seq<u8>, floor: u8) -> nat
    decreases q.len(),
{
    if q.len() == 0 {
        0
    } else {
        count_at_or_above(q.drop_last(), floor) + if q.last() >= floor {
            1nat
        } else {
            0nat
        }
    }
}

/// The byte stands for a base that could not be called: `N` or `n`.
pub open spec fn is_ambiguous(base: u8) -> bool {
    base == 78 || base == 110
}

/// Number of ambiguous bases in a sequence.
pub open spec fn count_ambiguous(seq: Seq<u8>) -> nat
    decreases seq.len(),
{
    if seq.len() == 0 {
        0
    } else {
        count_ambiguous(seq.drop_last()) + if is_ambiguous(seq.last()) {
            1nat
        } else {
            0nat
        }
    }
}

/// No more bytes reach the floor than there are bytes.
pub proof fn lemma_count_at_or_above_bounded(q: Seq<u8>, floor: u8)
    ensures
        count_at_or_above(q, floor) <= q.len(),
    decreases q.len(),
{
    if q.len() > 0 {
        lemma_count_at_or_above_bounded(q.drop_last(), floor);
    }
}

/// No more bases are ambiguous than there are bases.
pub proof fn lemma_count_ambiguous_bounded(seq: Seq<u8>)
    ensures
        count_ambiguous(seq) <= seq.len(),
    decreases seq.len(),
{
    if seq.len() > 0 {
        lemma_count_ambiguous_bounded(seq.drop_last());
    }
}

/// Raising the floor never raises the count, and so never the result of
/// [`get_qual_bases`] or the yield of a read: every byte that reaches the
/// higher floor reaches the lower one too.
pub proof fn lemma_count_at_or_above_monotone(q: Seq<u8>, low: u8, high: u8)
    requires
        low <= high,
    ensures
        count_at_or_above(q, high) <= count_at_or_above(q, low),
    decreases q.len(),
{
    if q.len() > 0 {
        lemma_count_at_or_above_monotone(q.drop_last(), low, high);
    }
}

/// Counts the quality bytes that are at least `floor`, at full width.
pub fn qual_bases(q: &[u8], floor: u8) -> (n: usize)
    ensures
        n == count_at_or_above(q@, floor),
{
    let len: usize = q.len();
    let mut n: usize = 0;
    let mut i: usize = 0;
    while i < len
        invariant
            i <= len,
            len == q@.len(),
            n <= i,
            n == count_at_or_above(q@.take(i as int), floor),
        decreases len - i,
    {
        assert(q@.take(i + 1).drop_last() =~= q@.take(i as int));
        if q[i] >= floor {
            n = n + 1;
        }
        i = i + 1;
    }
    assert(q@.take(len as int) =~= q@);
    n
}

/// Counts the ambiguous bases of a sequence, at full width.
pub fn n_bases(seq: &[u8]) -> (n: usize)
    ensures
        n == count_ambiguous(seq@),
{
    let len: usize = seq.len();
    let mut n: usize = 0;
    let mut i: usize = 0;
    while i < len
        invariant
            i <= len,
            len == seq@.len(),
            n <= i,
            n == count_ambiguous(seq@.take(i as int)),
        decreases len - i,
    {
        assert(seq@.take(i + 1).drop_last() =~= seq@.take(i as int));
        if seq[i] == 78u8 || seq[i] == 110u8 {
            n = n + 1;
        }
        i = i + 1;
    }
    assert(seq@.take(len as int) =~= seq@);
    n
}

/// Number of bases whose quality byte is `qx` or higher. The count has to fit
/// the result type, which it does for every read of fewer than 2^63 bases.
pub fn get_qual_bases(q: &[u8], qx: u8) -> (n: i64)
    requires
        count_at_or_above(q@, qx) <= i64::MAX,
    ensures
        n == count_at_or_above(q@, qx),
{
    qual_bases(q, qx) as i64
}

/// Number of `N` or `n` bases in a sequence. The count has to fit the result
/// type, which it does for every read of fewer than 2^63 bases.
pub fn get_n_bases(seq: &[u8]) -> (n: i64)
    requires
        count_ambiguous(seq@) <= i64::MAX,
    ensures
        n == count_ambiguous(seq@),
{
    n_bases(seq) as i64
}

} // verus!
