//! The operators that rewrite a file read by read: each looks at one read and
//! either writes it out, whole or shortened, or drops it.

use crate::error::FastqError;
use crate::filter::LengthFilter;
use crate::pattern::any_matches;
use crate::pattern::pattern_matches;
use crate::pattern::IdPattern;
use crate::pattern::IdPatternSet;
use crate::record::Record;
use crate::sample::Subsampler;
use vstd::prelude::*;
use vstd::utf8::encode_utf8;

verus! {

/// One operator, with its argument.
pub enum Transform {
    /// Keeps the reads that a length filter accepts.
    FilterLength(LengthFilter),
    /// Removes so many bases from the start of every read.
    TrimFront(usize),
    /// Removes so many bases from the end of every read.
    TrimTail(usize),
    /// Keeps the reads whose identifier matches the pattern.
    MatchId(IdPattern),
    /// Keeps the reads whose identifier matches one of the patterns.
    MatchAnyId(IdPatternSet),
    /// Keeps every read at a multiple of the stride.
    Subsample(Subsampler),
}

impl Transform {
    /// What the operator holds is in order: the state that a subsampler
    /// carries from read to read, and the way a pattern was compiled.
    pub open spec fn wf(&self) -> bool {
        match self {
            Transform::Subsample(s) => s.wf(),
            Transform::MatchId(p) => p.wf(),
            Transform::MatchAnyId(p) => p.wf(),
            _ => true,
        }
    }

    /// What the operator, in the state it is in, makes of a read: the read to
    /// write out, nothing for a read that is dropped, or the reason why the
    /// read cannot be handled.
    pub open spec fn outcome(&self, record: Record) -> Result<Option<Seq<u8>>, FastqError> {
        let whole = record@.fastq();
        match self {
            Transform::FilterLength(f) => Ok(
                if f.accepts(record@.len()) {
                    Some(whole)
                } else {
                    None
                },
            ),
            Transform::TrimFront(n) => if *n <= record@.len() {
                Ok(Some(record@.trim_front(*n as int).fastq()))
            } else {
                Err(FastqError::TrimExceedsLength)
            },
            Transform::TrimTail(n) => if *n <= record@.len() {
                Ok(Some(record@.trim_tail(*n as int).fastq()))
            } else {
                Err(FastqError::TrimExceedsLength)
            },
            Transform::MatchId(p) => Ok(
                if pattern_matches(p.source(), record@.id) {
                    Some(whole)
                } else {
                    None
                },
            ),
            Transform::MatchAnyId(p) => Ok(
                if any_matches(p.sources(), encode_utf8(record@.id)) {
                    Some(whole)
                } else {
                    None
                },
            ),
            Transform::Subsample(s) => Ok(
                if (s.position@ + 1) % (s.stride as nat) == 0 {
                    Some(whole)
                } else {
                    None
                },
            ),
        }
    }

    /// The operator after it has handled one read: only the subsampler
    /// changes, by one step.
    pub open spec fn stepped(&self, after: &Transform) -> bool {
        match self {
            Transform::Subsample(s) => after matches Transform::Subsample(t) && t.stride
                == s.stride && t.position@ == s.position@ + 1,
            _ => *after == *self,
        }
    }

    /// Applies the operator to one read.
    pub fn apply(&mut self, record: &Record) -> (out: Result<Option<Vec<u8>>, FastqError>)
        requires
            old(self).wf(),
            record@.wf(),
        ensures
            final(self).wf(),
            old(self).stepped(final(self)),
            match old(self).outcome(*record) {
                Ok(Some(text)) => out matches Ok(Some(written)) && written@ == text,
                Ok(None) => out matches Ok(None),
                Err(e) => out matches Err(f) && f == e,
            },
    {
        match self {
            Transform::FilterLength(f) => Ok(record.emit_when(f.keeps(record))),
            Transform::TrimFront(n) => match record.trim_front(*n) {
                Ok(trimmed) => Ok(Some(trimmed.to_fastq())),
                Err(e) => Err(e),
            },
            Transform::TrimTail(n) => match record.trim_tail(*n) {
                Ok(trimmed) => Ok(Some(trimmed.to_fastq())),
                Err(e) => Err(e),
            },
            Transform::MatchId(p) => Ok(record.emit_when(p.selects(record))),
            Transform::MatchAnyId(p) => Ok(record.emit_when(p.selects(record))),
            Transform::Subsample(s) => {
                let keep = s.step();
                Ok(record.emit_when(keep))
            },
        }
    }
}

} // verus!
