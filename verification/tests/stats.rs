use faster::lengths::total;
use faster::quality_yield::YieldCounter;
use faster::record::Record;
use faster::stats::RunningStats;
use faster::stats::Summary;

const LENGTHS: [usize; 10] = [3500, 165, 3000, 249, 2017, 1000, 3000, 1500, 2500, 2000];

fn read_of(len: usize, base: u8, quality: u8) -> Record {
    Record::new("r".to_string(), None, vec![base; len], vec![quality; len]).unwrap()
}

fn ten_reads() -> RunningStats {
    let mut stats = RunningStats::new();
    for len in LENGTHS {
        stats.observe(&read_of(len, b'A', b'I'));
    }
    stats
}

// The ten reads are made up here; only their count, their total, their
// shortest length and the length 249 are taken from a real file.
#[test]
fn table_counters_of_ten_made_up_reads() {
    let mut stats = ten_reads();
    let s = stats.summary();
    let row = format!("{}\t{}\t{}\t{}", s.reads, s.bases, s.n_bases, s.min_len);
    assert!(row.contains("10\t18931\t0\t165"));
}

#[test]
fn length_listing_of_ten_made_up_reads() {
    let mut lines = String::new();
    for len in LENGTHS {
        lines.push_str(&format!("{}\n", read_of(len, b'A', b'I').len()));
    }
    assert!(lines.contains("249"));
}

#[test]
fn summary_of_ten_reads() {
    let mut stats = ten_reads();
    let s = stats.summary();
    assert_eq!(
        s,
        Summary {
            reads: 10,
            bases: 18931,
            n_bases: 0,
            min_len: 165,
            max_len: 3500,
            q1: 1000,
            q2: 2017,
            q3: 3000,
            n50: 3000,
            qual_at_or_above_20: 18931,
            qual_at_or_above_30: 18931,
        }
    );
}

#[test]
fn bases_agree_with_the_sum_of_lengths() {
    let mut stats = RunningStats::new();
    assert_eq!(stats.bases, total(&stats.lengths));
    for len in LENGTHS {
        stats.observe(&read_of(len, b'C', b'5'));
        assert_eq!(stats.bases, total(&stats.lengths));
        assert_eq!(stats.reads as usize, stats.lengths.len());
    }
    stats.summary();
    assert_eq!(stats.bases, total(&stats.lengths));
    assert_eq!(stats.bases, 18931);
}

#[test]
fn observe_counts_one_read() {
    let mut stats = RunningStats::new();
    let r = Record::new("r".to_string(), None, b"ACNNgtn".to_vec(), b"!5?I5+I".to_vec()).unwrap();
    stats.observe(&r);
    assert_eq!(stats.reads, 1);
    assert_eq!(stats.bases, 7);
    assert_eq!(stats.n_bases, 3);
    assert_eq!(stats.qual_at_or_above_20, 5);
    assert_eq!(stats.qual_at_or_above_30, 3);
    assert_eq!(stats.min_len, 7);
    assert_eq!(stats.max_len, 7);
    assert_eq!(stats.lengths, vec![7]);
}

#[test]
fn observe_tracks_the_extremes() {
    let mut stats = RunningStats::new();
    assert_eq!(stats.min_len, i64::MAX);
    assert_eq!(stats.max_len, 0);
    stats.observe(&read_of(5, b'A', b'I'));
    stats.observe(&read_of(2, b'N', b'!'));
    stats.observe(&read_of(9, b'A', b'>'));
    assert_eq!(stats.min_len, 2);
    assert_eq!(stats.max_len, 9);
    assert_eq!(stats.lengths, vec![5, 2, 9]);
    assert_eq!(stats.n_bases, 2);
    assert_eq!(stats.qual_at_or_above_20, 14);
    assert_eq!(stats.qual_at_or_above_30, 5);
}

#[test]
fn summary_sorts_the_lengths() {
    let mut stats = RunningStats::new();
    stats.observe(&read_of(5, b'A', b'I'));
    stats.observe(&read_of(2, b'A', b'I'));
    stats.observe(&read_of(9, b'A', b'I'));
    let s = stats.summary();
    assert_eq!(stats.lengths, vec![2, 5, 9]);
    assert_eq!((s.q1, s.q2, s.q3), (2, 5, 5));
    assert_eq!(s.n50, 9);
    assert_eq!(stats.reads, 3);
    assert_eq!(stats.bases, 16);
}

#[test]
fn summary_of_an_empty_file() {
    let mut stats = RunningStats::new();
    let s = stats.summary();
    assert_eq!(
        s,
        Summary {
            reads: 0,
            bases: 0,
            n_bases: 0,
            min_len: 0,
            max_len: 0,
            q1: 0,
            q2: 0,
            q3: 0,
            n50: 0,
            qual_at_or_above_20: 0,
            qual_at_or_above_30: 0,
        }
    );
}

#[test]
fn summary_of_empty_reads_only() {
    let mut stats = RunningStats::new();
    stats.observe(&read_of(0, b'A', b'I'));
    stats.observe(&read_of(0, b'A', b'I'));
    let s = stats.summary();
    assert_eq!(s.reads, 2);
    assert_eq!(s.bases, 0);
    assert_eq!((s.min_len, s.max_len, s.q1, s.q2, s.q3, s.n50), (0, 0, 0, 0, 0, 0));
}

#[test]
fn yield_counts_bases_at_the_threshold() {
    let mut c = YieldCounter::new(20).unwrap();
    let r = Record::new("r".to_string(), None, b"ACGTACG".to_vec(), b"!5?I5+I".to_vec()).unwrap();
    c.observe(&r);
    assert_eq!((c.bases, c.passing), (7, 5));
    c.observe(&read_of(3, b'A', b'4'));
    assert_eq!((c.bases, c.passing), (10, 5));
    c.observe(&read_of(4, b'A', b'5'));
    assert_eq!((c.bases, c.passing), (14, 9));
}

#[test]
fn yield_threshold_range() {
    assert!(YieldCounter::new(8).is_ok());
    assert!(YieldCounter::new(60).is_ok());
    assert_eq!(YieldCounter::new(8).unwrap().threshold, 8);
    let low = YieldCounter::new(7);
    assert!(matches!(
        low,
        Err(faster::error::FastqError::InvalidArgument { value: 7, low: 8, high: 60 })
    ));
    let high = YieldCounter::new(61);
    assert!(matches!(
        high,
        Err(faster::error::FastqError::InvalidArgument { value: 61, low: 8, high: 60 })
    ));
}

#[test]
fn yield_never_rises_with_the_threshold() {
    let reads = [
        Record::new("a".to_string(), None, b"ACGTACGT".to_vec(), b"!+5?IIJ)".to_vec()).unwrap(),
        Record::new("b".to_string(), None, b"ACG".to_vec(), b"*4>".to_vec()).unwrap(),
        Record::new("c".to_string(), None, b"".to_vec(), b"".to_vec()).unwrap(),
        read_of(12, b'G', b'F'),
    ];
    let mut last: Option<(u64, u64)> = None;
    let mut threshold: u8 = 8;
    while threshold <= 60 {
        let mut c = YieldCounter::new(threshold).unwrap();
        for r in &reads {
            c.observe(r);
        }
        assert_eq!(c.bases, 23);
        if let Some((bases, passing)) = last {
            assert_eq!(c.bases, bases);
            assert!(c.passing <= passing);
        }
        last = Some((c.bases, c.passing));
        threshold += 1;
    }
    assert_eq!(last, Some((23, 0)));
}
