//! Order-preserving subsampling: every `stride`-th read is kept.

use crate::error::FastqError;
use vstd::prelude::*;

verus! {

/// Walks along the reads of a file and picks every `stride`-th one.
pub struct Subsampler {
    /// Distance between two reads that are kept.
    pub stride: u64,
    /// Reads passed over since the last one that was kept.
    pub seen: u64,
    /// Number of reads stepped over so far.
    pub position: Ghost<nat>,
}

impl Subsampler {
    /// The counter stays below the stride and tells how far the walk is past
    /// the last multiple of the stride.
    pub open spec fn wf(&self) -> bool {
        &&& self.stride >= 1
        &&& self.seen < self.stride
        &&& self.seen == self.position@ % (self.stride as nat)
    }

    /// A subsampler at the start of a file. A stride of 0 is refused.
    pub fn new(stride: u64) -> (r: Result<Subsampler, FastqError>)
        ensures
            stride >= 1 <==> r.is_ok(),
            r matches Ok(s) ==> s.wf() && s.stride == stride && s.position@ == 0,
            r matches Err(e) ==> e == (FastqError::InvalidArgument {
                value: 0,
                low: 1,
                high: i64::MAX,
            }),
    {
        if stride == 0 {
            Err(FastqError::InvalidArgument { value: 0, low: 1, high: i64::MAX })
        } else {
            proof {
                vstd::arithmetic::div_mod::lemma_small_mod(0, stride as nat);
            }
            Ok(Subsampler { stride, seen: 0, position: Ghost(0) })
        }
    }

    /// Steps to the next read and says whether it is kept: the reads at the
    /// positions `stride`, `2 * stride`, and so on, counted from 1, are.
    pub fn step(&mut self) -> (keep: bool)
        requires
            old(self).wf(),
        ensures
            final(self).wf(),
            final(self).stride == old(self).stride,
            final(self).position@ == old(self).position@ + 1,
            keep <==> final(self).position@ % (old(self).stride as nat) == 0,
    {
        proof {
            lemma_next_remainder(self.position@ as int, self.stride as int);
        }
        self.position = Ghost((self.position@ + 1) as nat);
        if self.seen + 1 == self.stride {
            self.seen = 0;
            true
        } else {
            self.seen = self.seen + 1;
            false
        }
    }
}

/// The remainder of the next number: one more, or 0 where that reaches the
/// divisor.
pub proof fn lemma_next_remainder(p: int, s: int)
    requires
        p >= 0,
        s >= 1,
    ensures
        (p + 1) % s == if p % s + 1 == s {
            0
        } else {
            p % s + 1
        },
{
    let q = p / s;
    let r = p % s;
    vstd::arithmetic::div_mod::lemma_fundamental_div_mod(p, s);
    vstd::arithmetic::div_mod::lemma_mod_bound(p, s);
    if r + 1 == s {
        assert(p + 1 == (q + 1) * s + 0) by (nonlinear_arith)
            requires
                p == s * q + r,
                r + 1 == s,
        ;
        vstd::arithmetic::div_mod::lemma_fundamental_div_mod_converse(p + 1, s, q + 1, 0);
    } else {
        assert(p + 1 == q * s + (r + 1)) by (nonlinear_arith)
            requires
                p == s * q + r,
        ;
        vstd::arithmetic::div_mod::lemma_fundamental_div_mod_converse(p + 1, s, q, r + 1);
    }
}

} // verus!
