//! The running summary of one file of reads, and what it comes to once the
//! last read has been seen.

use crate::lengths::ascending;
use crate::lengths::is_longest;
use crate::lengths::is_nx_index;
use crate::lengths::is_shortest;
use crate::lengths::lemma_extremes_of_permutation;
use crate::lengths::lemma_sum_bounds;
use crate::lengths::lemma_sum_of_permutation;
use crate::lengths::non_negative;
use crate::lengths::nx_of_sorted;
use crate::lengths::quartile_index;
use crate::lengths::quartile_of_sorted;
use crate::lengths::sort_ascending;
use crate::lengths::sum;
use crate::quality::count_ambiguous;
use crate::quality::count_at_or_above;
use crate::quality::lemma_count_ambiguous_bounded;
use crate::quality::lemma_count_at_or_above_bounded;
use crate::quality::lemma_count_at_or_above_monotone;
use crate::quality::n_bases;
use crate::quality::qual_bases;
use crate::record::Record;
use vstd::prelude::*;

verus! {

/// Quality byte of Phred score 20.
pub const Q20_FLOOR: u8 = 53;

/// Quality byte of Phred score 30.
pub const Q30_FLOOR: u8 = 63;

/// Counters over the reads of one file seen so far, and their lengths in the
/// order in which the reads came.
#[derive(Clone, Debug, PartialEq, Eq)]
pub struct RunningStats {
    /// Number of reads.
    pub reads: u64,
    /// Number of bases, the sum of all read lengths.
    pub bases: i128,
    /// Number of ambiguous bases.
    pub n_bases: i128,
    /// Number of bases with a Phred score of 20 or more.
    pub qual_at_or_above_20: i128,
    /// Number of bases with a Phred score of 30 or more.
    pub qual_at_or_above_30: i128,
    /// Shortest read length, `i64::MAX` before the first read.
    pub min_len: i64,
    /// Longest read length, 0 before the first read.
    pub max_len: i64,
    /// The length of every read.
    pub lengths: Vec<i64>,
}

/// What the counters of one file come to. The mean length and the two quality
/// percentages are quotients of these numbers.
#[derive(Clone, Copy, Debug, PartialEq, Eq, Structural)]
pub struct Summary {
    /// Number of reads.
    pub reads: u64,
    /// Number of bases.
    pub bases: i128,
    /// Number of ambiguous bases.
    pub n_bases: i128,
    /// Shortest read length; 0 for a file without reads.
    pub min_len: i64,
    /// Longest read length; 0 for a file without reads.
    pub max_len: i64,
    /// First quartile of the read lengths; 0 for a file without reads.
    pub q1: i64,
    /// Second quartile of the read lengths; 0 for a file without reads.
    pub q2: i64,
    /// Third quartile of the read lengths; 0 for a file without reads.
    pub q3: i64,
    /// N50 of the read lengths; 0 for a file without reads.
    pub n50: i64,
    /// Number of bases with a Phred score of 20 or more.
    pub qual_at_or_above_20: i128,
    /// Number of bases with a Phred score of 30 or more.
    pub qual_at_or_above_30: i128,
}

impl RunningStats {
    /// The counters agree with the lengths: as many reads as lengths, as many
    /// bases as the lengths sum to, the extremes taken from the lengths, and
    /// no count of bases of a kind above the count of all bases.
    pub open spec fn wf(&self) -> bool {
        &&& self.reads == self.lengths@.len()
        &&& self.bases == sum(self.lengths@)
        &&& non_negative(self.lengths@)
        &&& is_shortest(self.lengths@, self.min_len)
        &&& is_longest(self.lengths@, self.max_len)
        &&& 0 <= self.n_bases <= self.bases
        &&& 0 <= self.qual_at_or_above_30 <= self.qual_at_or_above_20 <= self.bases
    }

    /// The summary of no reads at all.
    pub fn new() -> (stats: RunningStats)
        ensures
            stats.wf(),
            stats.lengths@.len() == 0,
            stats.n_bases == 0,
            stats.qual_at_or_above_20 == 0,
            stats.qual_at_or_above_30 == 0,
    {
        RunningStats {
            reads: 0,
            bases: 0,
            n_bases: 0,
            qual_at_or_above_20: 0,
            qual_at_or_above_30: 0,
            min_len: i64::MAX,
            max_len: 0,
            lengths: Vec::new(),
        }
    }

    /// Takes one more read into the summary.
    pub fn observe(&mut self, record: &Record)
        requires
            old(self).wf(),
            record@.wf(),
        ensures
            final(self).wf(),
            final(self).lengths@ == old(self).lengths@.push(record@.len() as i64),
            final(self).reads == old(self).reads + 1,
            final(self).bases == old(self).bases + record@.len(),
            final(self).bases == sum(final(self).lengths@),
            final(self).n_bases == old(self).n_bases + count_ambiguous(record@.sequence),
            final(self).qual_at_or_above_20 == old(self).qual_at_or_above_20 + count_at_or_above(
                record@.quality,
                Q20_FLOOR,
            ),
            final(self).qual_at_or_above_30 == old(self).qual_at_or_above_30 + count_at_or_above(
                record@.quality,
                Q30_FLOOR,
            ),
            final(self).min_len == if record@.len() < old(self).min_len {
                record@.len() as i64
            } else {
                old(self).min_len
            },
            final(self).max_len == if record@.len() > old(self).max_len {
                record@.len() as i64
            } else {
                old(self).max_len
            },
    {
        let len: i64 = record.sequence.len() as i64;
        let ambiguous: usize = n_bases(record.sequence.as_slice());
        let q20: usize = qual_bases(record.quality.as_slice(), Q20_FLOOR);
        let q30: usize = qual_bases(record.quality.as_slice(), Q30_FLOOR);
        let ghost before = self.lengths@;
        self.lengths.push(len);
        proof {
            let after = self.lengths@;
            assert(after.drop_last() =~= before);
            lemma_sum_bounds(after);
            lemma_count_ambiguous_bounded(record@.sequence);
            lemma_count_at_or_above_bounded(record@.quality, Q20_FLOOR);
            lemma_count_at_or_above_monotone(record@.quality, Q20_FLOOR, Q30_FLOOR);
            assert(after[after.len() - 1] == len);
            assert forall|i: int| 0 <= i < after.len() implies #[trigger] after[i] >= 0 by {
                if i < before.len() {
                    assert(after[i] == before[i]);
                }
            }
        }
        self.reads = self.lengths.len() as u64;
        self.bases = self.bases + len as i128;
        self.n_bases = self.n_bases + ambiguous as i128;
        self.qual_at_or_above_20 = self.qual_at_or_above_20 + q20 as i128;
        self.qual_at_or_above_30 = self.qual_at_or_above_30 + q30 as i128;
        if len < self.min_len {
            self.min_len = len;
        }
        if len > self.max_len {
            self.max_len = len;
        }
        proof {
            let after = self.lengths@;
            let low = self.min_len;
            let high = self.max_len;
            assert forall|i: int| 0 <= i < after.len() implies low <= #[trigger] after[i] by {
                if i < before.len() {
                    assert(after[i] == before[i]);
                }
            }
            assert forall|i: int| 0 <= i < after.len() implies #[trigger] after[i] <= high by {
                if i < before.len() {
                    assert(after[i] == before[i]);
                }
            }
            if low == len {
                assert(after[after.len() - 1] == low);
            } else {
                let j = choose|j: int| 0 <= j < before.len() && before[j] == low;
                assert(after[j] == low);
            }
            if high == len {
                assert(after[after.len() - 1] == high);
            } else {
                let j = choose|j: int| 0 <= j < before.len() && before[j] == high;
                assert(after[j] == high);
            }
        }
    }

    /// Closes the pass: puts the lengths in ascending order and reads the
    /// quartiles and the N50 off them. The N50 is the length at which the
    /// running total of the sorted lengths first exceeds half of all bases.
    /// A file without reads gives 0 for every length statistic.
    pub fn summary(&mut self) -> (s: Summary)
        requires
            old(self).wf(),
        ensures
            final(self).wf(),
            ascending(final(self).lengths@),
            final(self).lengths@.to_multiset() == old(self).lengths@.to_multiset(),
            final(self).reads == old(self).reads,
            final(self).bases == old(self).bases,
            final(self).bases == sum(final(self).lengths@),
            final(self).n_bases == old(self).n_bases,
            final(self).qual_at_or_above_20 == old(self).qual_at_or_above_20,
            final(self).qual_at_or_above_30 == old(self).qual_at_or_above_30,
            final(self).min_len == old(self).min_len,
            final(self).max_len == old(self).max_len,
            s.reads == old(self).reads,
            s.bases == old(self).bases,
            s.n_bases == old(self).n_bases,
            s.qual_at_or_above_20 == old(self).qual_at_or_above_20,
            s.qual_at_or_above_30 == old(self).qual_at_or_above_30,
            s.max_len == old(self).max_len,
            old(self).reads == 0 ==> s.min_len == 0 && s.q1 == 0 && s.q2 == 0 && s.q3 == 0 && s.n50
                == 0,
            old(self).reads > 0 ==> {
                let sorted = final(self).lengths@;
                let n = sorted.len() as int;
                &&& s.min_len == old(self).min_len
                &&& s.q1 == sorted[quartile_index(n, 1)]
                &&& s.q2 == sorted[quartile_index(n, 2)]
                &&& s.q3 == sorted[quartile_index(n, 3)]
                &&& exists|k: int|
                    is_nx_index(sorted, old(self).bases as int / 2, k) && s.n50 == sorted[k]
            },
    {
        sort_ascending(self.lengths.as_mut_slice());
        proof {
            lemma_sum_of_permutation(old(self).lengths@, self.lengths@);
            lemma_extremes_of_permutation(
                old(self).lengths@,
                self.lengths@,
                self.min_len,
                self.max_len,
            );
            old(self).lengths@.to_multiset_ensures();
            self.lengths@.to_multiset_ensures();
        }
        if self.lengths.len() == 0 {
            Summary {
                reads: self.reads,
                bases: self.bases,
                n_bases: self.n_bases,
                min_len: 0,
                max_len: self.max_len,
                q1: 0,
                q2: 0,
                q3: 0,
                n50: 0,
                qual_at_or_above_20: self.qual_at_or_above_20,
                qual_at_or_above_30: self.qual_at_or_above_30,
            }
        } else {
            let sorted = self.lengths.as_slice();
            Summary {
                reads: self.reads,
                bases: self.bases,
                n_bases: self.n_bases,
                min_len: self.min_len,
                max_len: self.max_len,
                q1: quartile_of_sorted(sorted, 1),
                q2: quartile_of_sorted(sorted, 2),
                q3: quartile_of_sorted(sorted, 3),
                n50: nx_of_sorted(sorted, self.bases / 2),
                qual_at_or_above_20: self.qual_at_or_above_20,
                qual_at_or_above_30: self.qual_at_or_above_30,
            }
        }
    }
}

} // verus!
