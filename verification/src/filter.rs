//! Filters that keep or drop a read by its length or by its mean quality.
//!
//! Both are given on the command line as one signed integer: a value of zero
//! or more keeps the reads above it, a negative value keeps the reads below
//! its magnitude. Here the sign is resolved once, into a variant.

use crate::error::FastqError;
use crate::record::Record;
use vstd::prelude::*;

verus! {

/// Largest magnitude of a mean-quality bound.
pub const MAX_QUALITY_BOUND: i32 = 60;

/// Keeps reads by their number of bases.
#[derive(Clone, Copy, Debug, PartialEq, Eq, Structural)]
pub enum LengthFilter {
    /// Keeps the reads with strictly more bases than the bound.
    KeepLongerThan(u32),
    /// Keeps the reads with strictly fewer bases than the bound.
    KeepShorterThan(u32),
}

impl LengthFilter {
    /// The filter that a signed argument stands for.
    pub open spec fn of_signed(x: i32) -> LengthFilter {
        if x >= 0 {
            LengthFilter::KeepLongerThan(x as u32)
        } else {
            LengthFilter::KeepShorterThan((-x) as u32)
        }
    }

    /// Whether a read of `len` bases is kept.
    pub open spec fn accepts(self, len: nat) -> bool {
        match self {
            LengthFilter::KeepLongerThan(bound) => len > bound,
            LengthFilter::KeepShorterThan(bound) => len < bound,
        }
    }

    /// Resolves the sign of the argument.
    pub fn from_signed(x: i32) -> (filter: LengthFilter)
        ensures
            filter == LengthFilter::of_signed(x),
    {
        if x >= 0 {
            LengthFilter::KeepLongerThan(x as u32)
        } else {
            LengthFilter::KeepShorterThan((-(x as i64)) as u32)
        }
    }

    /// Whether the filter keeps the record.
    pub fn keeps(&self, record: &Record) -> (keep: bool)
        ensures
            keep == self.accepts(record@.len()),
    {
        let len: usize = record.sequence.len();
        match self {
            LengthFilter::KeepLongerThan(bound) => len > *bound as usize,
            LengthFilter::KeepShorterThan(bound) => len < *bound as usize,
        }
    }
}

/// The sign convention of the length filter, in one line: an argument of zero
/// or more keeps a read that is longer than it, a negative one keeps a read
/// that is shorter than its magnitude.
pub proof fn lemma_length_filter_sign_rule(x: i32, len: nat)
    ensures
        LengthFilter::of_signed(x).accepts(len) <==> (x >= 0 && len > x) || (x < 0 && len < -x),
{
}

/// How the mean quality of a read stands to the bound of a filter. The mean
/// is a real number; the caller compares it with the bound and hands in the
/// outcome.
#[derive(Clone, Copy, Debug, PartialEq, Eq, Structural)]
pub enum Standing {
    /// The mean quality is strictly below the bound.
    Below,
    /// The mean quality is neither below nor above the bound.
    Level,
    /// The mean quality is strictly above the bound.
    Above,
}

/// Keeps reads by their mean quality.
#[derive(Clone, Copy, Debug, PartialEq, Eq, Structural)]
pub enum QualityFilter {
    /// Keeps the reads whose mean quality is strictly above the bound.
    KeepBetterThan(u8),
    /// Keeps the reads whose mean quality is strictly below the bound.
    KeepWorseThan(u8),
}

impl QualityFilter {
    /// The filter that a signed argument within the range stands for.
    pub open spec fn of_signed(q: i32) -> QualityFilter {
        if q >= 0 {
            QualityFilter::KeepBetterThan(q as u8)
        } else {
            QualityFilter::KeepWorseThan((-q) as u8)
        }
    }

    /// Resolves the sign of the argument, and refuses one whose magnitude is
    /// above 60.
    pub fn from_signed(q: i32) -> (r: Result<QualityFilter, FastqError>)
        ensures
            -MAX_QUALITY_BOUND <= q <= MAX_QUALITY_BOUND <==> r.is_ok(),
            r matches Ok(filter) ==> filter == QualityFilter::of_signed(q),
            r matches Err(e) ==> e == (FastqError::InvalidArgument {
                value: q as i64,
                low: -MAX_QUALITY_BOUND as i64,
                high: MAX_QUALITY_BOUND as i64,
            }),
    {
        if q < -MAX_QUALITY_BOUND || q > MAX_QUALITY_BOUND {
            Err(
                FastqError::InvalidArgument {
                    value: q as i64,
                    low: -MAX_QUALITY_BOUND as i64,
                    high: MAX_QUALITY_BOUND as i64,
                },
            )
        } else if q >= 0 {
            Ok(QualityFilter::KeepBetterThan(q as u8))
        } else {
            Ok(QualityFilter::KeepWorseThan((-q) as u8))
        }
    }

    /// Whether a read whose mean quality stands so to the bound is kept.
    pub open spec fn accepts(self, standing: Standing) -> bool {
        match self {
            QualityFilter::KeepBetterThan(_) => standing == Standing::Above,
            QualityFilter::KeepWorseThan(_) => standing == Standing::Below,
        }
    }

    /// Whether the filter keeps a read whose mean quality stands so to the
    /// bound.
    pub fn keeps(&self, standing: Standing) -> (keep: bool)
        ensures
            keep == self.accepts(standing),
    {
        match self {
            QualityFilter::KeepBetterThan(_) => match standing {
                Standing::Above => true,
                _ => false,
            },
            QualityFilter::KeepWorseThan(_) => match standing {
                Standing::Below => true,
                _ => false,
            },
        }
    }

    /// The bound that the mean quality of a read is compared with.
    pub fn bound(&self) -> (b: u8)
        ensures
            b == match *self {
                QualityFilter::KeepBetterThan(bound) => bound,
                QualityFilter::KeepWorseThan(bound) => bound,
            },
    {
        match self {
            QualityFilter::KeepBetterThan(bound) => *bound,
            QualityFilter::KeepWorseThan(bound) => *bound,
        }
    }
}

} // verus!
