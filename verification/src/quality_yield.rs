//! Quality yield: the share of all bases of a file whose Phred score reaches
//! a threshold.

use crate::error::FastqError;
use crate::quality::count_at_or_above;
use crate::quality::lemma_count_at_or_above_bounded;
use crate::quality::lemma_count_at_or_above_monotone;
use crate::quality::qual_bases;
use crate::quality::PHRED_OFFSET;
use crate::record::Record;
use vstd::prelude::*;

verus! {

/// Lowest Phred score that a yield may be asked for.
pub const MIN_YIELD_THRESHOLD: u8 = 8;

/// Highest Phred score that a yield may be asked for.
pub const MAX_YIELD_THRESHOLD: u8 = 60;

/// Number of quality bytes in a list of quality strings.
pub open spec fn total_bases(quals: Seq<Seq<u8>>) -> nat
    decreases quals.len(),
{
    if quals.len() == 0 {
        0
    } else {
        total_bases(quals.drop_last()) + quals.last().len()
    }
}

/// Number of quality bytes at or above `floor` in a list of quality strings.
pub open spec fn total_at_or_above(quals: Seq<Seq<u8>>, floor: u8) -> nat
    decreases quals.len(),
{
    if quals.len() == 0 {
        0
    } else {
        total_at_or_above(quals.drop_last(), floor) + count_at_or_above(quals.last(), floor)
    }
}

/// Counts, over the reads of one file, all bases and those whose quality
/// reaches the threshold. The yield in percent is 100 times the second count
/// over the first.
pub struct YieldCounter {
    /// Phred score that a base has to reach.
    pub threshold: u8,
    /// Bases seen so far.
    pub bases: u64,
    /// Bases seen so far whose score reaches the threshold.
    pub passing: u64,
    /// The quality strings of the reads seen so far.
    pub seen: Ghost<Seq<Seq<u8>>>,
}

impl YieldCounter {
    /// The quality byte that stands for the threshold.
    pub open spec fn floor(&self) -> u8 {
        (PHRED_OFFSET + self.threshold) as u8
    }

    /// The threshold is in range and the counts are those of the reads seen.
    pub open spec fn wf(&self) -> bool {
        &&& MIN_YIELD_THRESHOLD <= self.threshold <= MAX_YIELD_THRESHOLD
        &&& self.bases == total_bases(self.seen@)
        &&& self.passing == total_at_or_above(self.seen@, self.floor())
    }

    /// A counter at the start of a file. A threshold outside 8 to 60 is
    /// refused.
    pub fn new(threshold: u8) -> (r: Result<YieldCounter, FastqError>)
        ensures
            MIN_YIELD_THRESHOLD <= threshold <= MAX_YIELD_THRESHOLD <==> r.is_ok(),
            r matches Ok(c) ==> c.wf() && c.threshold == threshold && c.seen@.len() == 0 && c.bases
                == 0 && c.passing == 0,
            r matches Err(e) ==> e == (FastqError::InvalidArgument {
                value: threshold as i64,
                low: MIN_YIELD_THRESHOLD as i64,
                high: MAX_YIELD_THRESHOLD as i64,
            }),
    {
        if threshold < MIN_YIELD_THRESHOLD || threshold > MAX_YIELD_THRESHOLD {
            Err(
                FastqError::InvalidArgument {
                    value: threshold as i64,
                    low: MIN_YIELD_THRESHOLD as i64,
                    high: MAX_YIELD_THRESHOLD as i64,
                },
            )
        } else {
            Ok(YieldCounter { threshold, bases: 0, passing: 0, seen: Ghost(Seq::empty()) })
        }
    }

    /// Takes one more read into the counts. The number of bases has to stay
    /// within 64 bits.
    pub fn observe(&mut self, record: &Record)
        requires
            old(self).wf(),
            record@.wf(),
            old(self).bases + record@.len() <= u64::MAX,
        ensures
            final(self).wf(),
            final(self).threshold == old(self).threshold,
            final(self).seen@ == old(self).seen@.push(record@.quality),
            final(self).bases == old(self).bases + record@.len(),
            final(self).passing == old(self).passing + count_at_or_above(
                record@.quality,
                old(self).floor(),
            ),
    {
        let floor: u8 = PHRED_OFFSET + self.threshold;
        let len: usize = record.quality.len();
        let passing: usize = qual_bases(record.quality.as_slice(), floor);
        proof {
            lemma_count_at_or_above_bounded(record@.quality, floor);
            lemma_passing_bounded(self.seen@, floor);
            assert(self.seen@.push(record@.quality).drop_last() =~= self.seen@);
        }
        self.bases = self.bases + len as u64;
        self.passing = self.passing + passing as u64;
        self.seen = Ghost(self.seen@.push(record@.quality));
    }
}

/// No more bases reach the floor than there are bases.
pub proof fn lemma_passing_bounded(quals: Seq<Seq<u8>>, floor: u8)
    ensures
        total_at_or_above(quals, floor) <= total_bases(quals),
    decreases quals.len(),
{
    if quals.len() > 0 {
        lemma_passing_bounded(quals.drop_last(), floor);
        lemma_count_at_or_above_bounded(quals.last(), floor);
    }
}

/// Raising the floor never raises the number of bases that reach it.
pub proof fn lemma_passing_monotone(quals: Seq<Seq<u8>>, low: u8, high: u8)
    requires
        low <= high,
    ensures
        total_at_or_above(quals, high) <= total_at_or_above(quals, low),
    decreases quals.len(),
{
    if quals.len() > 0 {
        lemma_passing_monotone(quals.drop_last(), low, high);
        lemma_count_at_or_above_monotone(quals.last(), low, high);
    }
}

/// The yield of a file never rises with the threshold: of two counters that
/// have seen the same reads, the one with the higher threshold has counted
/// the same bases and no more passing ones, so its quotient is no larger.
pub proof fn lemma_yield_never_rises(lower: YieldCounter, higher: YieldCounter)
    requires
        lower.wf(),
        higher.wf(),
        lower.seen@ == higher.seen@,
        lower.threshold <= higher.threshold,
    ensures
        higher.bases == lower.bases,
        higher.passing <= lower.passing,
        lower.passing <= lower.bases,
        higher.passing * lower.bases <= lower.passing * higher.bases,
{
    lemma_passing_monotone(lower.seen@, lower.floor(), higher.floor());
    lemma_passing_bounded(lower.seen@, lower.floor());
    assert(higher.passing * lower.bases <= lower.passing * higher.bases) by (nonlinear_arith)
        requires
            higher.bases == lower.bases,
            higher.passing <= lower.passing,
    ;
}

} // verus!
