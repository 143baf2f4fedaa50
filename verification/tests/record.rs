use faster::error::FastqError;
use faster::record::Record;

fn read(id: &str, description: Option<&str>, sequence: &str, quality: &str) -> Record {
    Record::new(
        id.to_string(),
        description.map(|d| d.to_string()),
        sequence.as_bytes().to_vec(),
        quality.as_bytes().to_vec(),
    )
    .unwrap()
}

#[test]
fn new_keeps_the_fields() {
    let r = read("r1", Some("lane=2"), "ACGT", "IIII");
    assert_eq!(r.id, "r1");
    assert_eq!(r.description, Some("lane=2".to_string()));
    assert_eq!(r.sequence, b"ACGT".to_vec());
    assert_eq!(r.quality, b"IIII".to_vec());
    assert_eq!(r.len(), 4);
}

#[test]
fn new_refuses_a_length_mismatch() {
    let r = Record::new("r1".to_string(), None, b"ACGT".to_vec(), b"III".to_vec());
    assert_eq!(r, Err(FastqError::MalformedRecord));
    let r = Record::new("r1".to_string(), None, Vec::new(), b"I".to_vec());
    assert_eq!(r, Err(FastqError::MalformedRecord));
}

#[test]
fn new_accepts_an_empty_read() {
    let r = Record::new("r1".to_string(), None, Vec::new(), Vec::new());
    assert!(r.is_ok());
    assert_eq!(r.unwrap().len(), 0);
}

#[test]
fn trim_by_zero_is_the_identity() {
    let r = read("r1", Some("first read"), "ACGTAC", "ABCDEF");
    assert_eq!(r.trim_front(0), Ok(r.clone()));
    assert_eq!(r.trim_tail(0), Ok(r.clone()));
    let bare = read("r2", None, "", "");
    assert_eq!(bare.trim_front(0), Ok(bare.clone()));
    assert_eq!(bare.trim_tail(0), Ok(bare.clone()));
}

#[test]
fn trim_front_removes_the_first_bases() {
    let r = read("r1", Some("d"), "ACGTAC", "ABCDEF");
    let t = r.trim_front(2).unwrap();
    assert_eq!(t, read("r1", Some("d"), "GTAC", "CDEF"));
}

#[test]
fn trim_tail_removes_the_last_bases() {
    let r = read("r1", None, "ACGTAC", "ABCDEF");
    let t = r.trim_tail(2).unwrap();
    assert_eq!(t, read("r1", None, "ACGT", "ABCD"));
}

#[test]
fn trim_of_the_whole_read_leaves_it_empty() {
    let r = read("r1", None, "ACGT", "ABCD");
    assert_eq!(r.trim_front(4), Ok(read("r1", None, "", "")));
    assert_eq!(r.trim_tail(4), Ok(read("r1", None, "", "")));
}

#[test]
fn trim_beyond_the_read_is_refused() {
    let r = read("r1", None, "ACGT", "ABCD");
    assert_eq!(r.trim_front(5), Err(FastqError::TrimExceedsLength));
    assert_eq!(r.trim_tail(5), Err(FastqError::TrimExceedsLength));
    assert_eq!(r.trim_front(usize::MAX), Err(FastqError::TrimExceedsLength));
}

#[test]
fn fastq_text_with_description() {
    let r = read("r1", Some("lane=2 tile=7"), "ACGT", "II5!");
    assert_eq!(r.to_fastq(), b"@r1 lane=2 tile=7\nACGT\n+\nII5!\n".to_vec());
}

#[test]
fn fastq_text_without_description() {
    let r = read("r1", None, "ACGT", "II5!");
    assert_eq!(r.to_fastq(), b"@r1\nACGT\n+\nII5!\n".to_vec());
}

#[test]
fn fastq_text_of_a_non_ascii_identifier() {
    let r = read("r\u{e9}", None, "A", "I");
    assert_eq!(r.to_fastq(), "@r\u{e9}\nA\n+\nI\n".as_bytes().to_vec());
}

#[test]
fn emit_when_writes_or_drops() {
    let r = read("r1", None, "ACGT", "IIII");
    assert_eq!(r.emit_when(true), Some(b"@r1\nACGT\n+\nIIII\n".to_vec()));
    assert_eq!(r.emit_when(false), None);
}
