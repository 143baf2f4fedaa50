//! One sequencing read, the two trims that shorten it, and its textual form.

use crate::error::FastqError;
use vstd::prelude::*;
use vstd::slice::slice_subrange;
use vstd::slice::slice_to_vec;
use vstd::utf8::encode_utf8;

verus! {

/// One read: identifier, optional description, bases and their qualities.
#[derive(Clone, Debug, PartialEq, Eq)]
pub struct Record {
    /// First whitespace-delimited token of the header line.
    pub id: String,
    /// Rest of the header line, when there is one.
    pub description: Option<String>,
    /// Nucleotide symbols.
    pub sequence: Vec<u8>,
    /// Phred+33 quality bytes, one per base.
    pub quality: Vec<u8>,
}

/// The mathematical content of a [`Record`].
pub struct RecordView {
    pub id: Seq<char>,
    pub description: Option<Seq<char>>,
    pub sequence: Seq<u8>,
    pub quality: Seq<u8>,
}

impl RecordView {
    /// Each base has its quality byte, and the length fits a signed 64-bit
    /// counter.
    pub open spec fn wf(self) -> bool {
        &&& self.sequence.len() == self.quality.len()
        &&& self.sequence.len() <= i64::MAX
    }

    /// Number of bases.
    pub open spec fn len(self) -> nat {
        self.sequence.len()
    }

    /// The record without its first `n` bases and qualities.
    pub open spec fn trim_front(self, n: int) -> RecordView {
        RecordView {
            sequence: self.sequence.subrange(n, self.sequence.len() as int),
            quality: self.quality.subrange(n, self.quality.len() as int),
            ..self
        }
    }

    /// The record without its last `n` bases and qualities.
    pub open spec fn trim_tail(self, n: int) -> RecordView {
        RecordView {
            sequence: self.sequence.subrange(0, self.sequence.len() - n),
            quality: self.quality.subrange(0, self.quality.len() - n),
            ..self
        }
    }

    /// The header line without its line break: `@`, the identifier and, when
    /// there is a description, a blank and the description.
    pub open spec fn header(self) -> Seq<u8> {
        match self.description {
            Some(d) => seq![64u8] + encode_utf8(self.id) + seq![32u8] + encode_utf8(d),
            None => seq![64u8] + encode_utf8(self.id),
        }
    }

    /// The four lines of the record, each ended by a line break: header,
    /// bases, the separator `+`, qualities.
    pub open spec fn fastq(self) -> Seq<u8> {
        self.header() + seq![10u8] + self.sequence + seq![10u8, 43u8, 10u8] + self.quality
            + seq![10u8]
    }
}

impl View for Record {
    type V = RecordView;

    open spec fn view(&self) -> RecordView {
        RecordView {
            id: self.id@,
            description: match self.description {
                Some(d) => Some(d@),
                None => None,
            },
            sequence: self.sequence@,
            quality: self.quality@,
        }
    }
}

/// Appends `bytes` to `out`.
fn append(out: &mut Vec<u8>, bytes: &[u8])
    ensures
        final(out)@ == old(out)@ + bytes@,
{
    let n: usize = bytes.len();
    let mut i: usize = 0;
    while i < n
        invariant
            i <= n,
            n == bytes@.len(),
            out@ == old(out)@ + bytes@.take(i as int),
        decreases n - i,
    {
        out.push(bytes[i]);
        assert(bytes@.take(i + 1) =~= bytes@.take(i as int).push(bytes@[i as int]));
        i = i + 1;
    }
    assert(bytes@.take(n as int) =~= bytes@);
}

/// A copy of an optional description.
fn copy_description(description: &Option<String>) -> (copy: Option<String>)
    ensures
        copy == *description,
{
    match description {
        Some(d) => Some(d.clone()),
        None => None,
    }
}

impl Record {
    /// Builds a record, refusing one whose quality string does not have one
    /// byte per base.
    pub fn new(
        id: String,
        description: Option<String>,
        sequence: Vec<u8>,
        quality: Vec<u8>,
    ) -> (r: Result<Record, FastqError>)
        requires
            sequence@.len() <= i64::MAX,
        ensures
            sequence@.len() == quality@.len() <==> r.is_ok(),
            r matches Ok(record) ==> record.id == id && record.description == description
                && record.sequence == sequence && record.quality == quality && record@.wf(),
            r matches Err(e) ==> e == FastqError::MalformedRecord,
    {
        if sequence.len() == quality.len() {
            Ok(Record { id, description, sequence, quality })
        } else {
            Err(FastqError::MalformedRecord)
        }
    }

    /// Number of bases.
    pub fn len(&self) -> (n: usize)
        ensures
            n == self@.len(),
    {
        self.sequence.len()
    }

    /// The record without its first `n` bases and their qualities. A trim
    /// longer than the record is refused, and so nothing is emitted for it.
    pub fn trim_front(&self, n: usize) -> (r: Result<Record, FastqError>)
        requires
            self@.wf(),
        ensures
            n <= self@.len() <==> r.is_ok(),
            r matches Ok(record) ==> record@ == self@.trim_front(n as int) && record@.wf(),
            r matches Err(e) ==> e == FastqError::TrimExceedsLength,
    {
        let len: usize = self.sequence.len();
        if n > len {
            return Err(FastqError::TrimExceedsLength);
        }
        let sequence = slice_to_vec(slice_subrange(self.sequence.as_slice(), n, len));
        let quality = slice_to_vec(slice_subrange(self.quality.as_slice(), n, len));
        Ok(
            Record {
                id: self.id.clone(),
                description: copy_description(&self.description),
                sequence,
                quality,
            },
        )
    }

    /// The record without its last `n` bases and their qualities. A trim
    /// longer than the record is refused, and so nothing is emitted for it.
    pub fn trim_tail(&self, n: usize) -> (r: Result<Record, FastqError>)
        requires
            self@.wf(),
        ensures
            n <= self@.len() <==> r.is_ok(),
            r matches Ok(record) ==> record@ == self@.trim_tail(n as int) && record@.wf(),
            r matches Err(e) ==> e == FastqError::TrimExceedsLength,
    {
        let len: usize = self.sequence.len();
        if n > len {
            return Err(FastqError::TrimExceedsLength);
        }
        let sequence = slice_to_vec(slice_subrange(self.sequence.as_slice(), 0, len - n));
        let quality = slice_to_vec(slice_subrange(self.quality.as_slice(), 0, len - n));
        Ok(
            Record {
                id: self.id.clone(),
                description: copy_description(&self.description),
                sequence,
                quality,
            },
        )
    }

    /// The record as FASTQ text.
    pub fn to_fastq(&self) -> (text: Vec<u8>)
        ensures
            text@ == self@.fastq(),
    {
        let mut text: Vec<u8> = Vec::new();
        text.push(64u8);
        append(&mut text, self.id.as_str().as_bytes());
        match &self.description {
            Some(d) => {
                text.push(32u8);
                append(&mut text, d.as_str().as_bytes());
            },
            None => {},
        }
        assert(text@ =~= self@.header());
        text.push(10u8);
        append(&mut text, self.sequence.as_slice());
        text.push(10u8);
        text.push(43u8);
        text.push(10u8);
        append(&mut text, self.quality.as_slice());
        text.push(10u8);
        assert(text@ =~= self@.fastq());
        text
    }

    /// Writes the record out when `keep` holds: the text of the record for a
    /// record that an operator lets through, nothing for one that it drops.
    pub fn emit_when(&self, keep: bool) -> (out: Option<Vec<u8>>)
        ensures
            keep <==> out.is_some(),
            out matches Some(text) ==> text@ == self@.fastq(),
    {
        if keep {
            Some(self.to_fastq())
        } else {
            None
        }
    }
}

/// Trimming nothing, at either end, gives the record back unchanged.
pub proof fn lemma_trim_nothing_is_identity(r: RecordView)
    ensures
        r.trim_front(0) == r,
        r.trim_tail(0) == r,
{
    assert(r.sequence.subrange(0, r.sequence.len() as int) =~= r.sequence);
    assert(r.quality.subrange(0, r.quality.len() as int) =~= r.quality);
}

} // verus!
