use parquet_forward::byte_ranges::{
    coalesce_ranges, page_byte_range, scanned_bytes, total_scanned_bytes,
};
use parquet_forward::error::ForwardReadError;
use std::ops::Range;

fn sample() -> Vec<Range<u64>> {
    vec![10..20, 20..25, 26..30, 28..29, 40..50, 40..45]
}

#[test]
fn no_gap_merges_touching_ranges_only() {
    assert_eq!(coalesce_ranges(sample(), 0), vec![10..25, 26..30, 40..50]);
}

#[test]
fn gap_merges_near_ranges() {
    assert_eq!(coalesce_ranges(sample(), 1), vec![10..30, 40..50]);
    assert_eq!(coalesce_ranges(sample(), 9), vec![10..30, 40..50]);
    assert_eq!(coalesce_ranges(sample(), 10), vec![10..50]);
}

#[test]
fn largest_gap_covers_everything() {
    assert_eq!(coalesce_ranges(sample(), u64::MAX), vec![10..50]);
    assert_eq!(
        coalesce_ranges(vec![0..1, u64::MAX - 1..u64::MAX], u64::MAX),
        vec![0..u64::MAX]
    );
    assert!(coalesce_ranges(vec![], u64::MAX).is_empty());
}

#[test]
fn gap_near_the_last_byte_saturates() {
    assert_eq!(
        coalesce_ranges(vec![5..u64::MAX - 1, u64::MAX..u64::MAX], 3),
        vec![5..u64::MAX]
    );
}

#[test]
fn coalescing_again_changes_nothing() {
    for gap in [0, 1, 5, 10, u64::MAX] {
        let once = coalesce_ranges(sample(), gap);
        assert_eq!(coalesce_ranges(once.clone(), gap), once);
    }
}

#[test]
fn coalesced_ranges_keep_each_range_and_stay_apart() {
    for gap in [0, 1, 5, 10] {
        let merged = coalesce_ranges(sample(), gap);
        assert!(merged.len() <= sample().len());
        for range in sample() {
            assert!(merged
                .iter()
                .any(|wide| wide.start <= range.start && range.end <= wide.end));
        }
        for pair in merged.windows(2) {
            assert!(pair[0].end + gap < pair[1].start);
        }
    }
}

#[test]
fn exact_ranges_hold_no_other_bytes() {
    let merged = coalesce_ranges(sample(), 0);
    for byte in 0..60 {
        let wanted = sample().iter().any(|range| range.contains(&byte));
        assert_eq!(merged.iter().any(|range| range.contains(&byte)), wanted);
    }
}

#[test]
fn scanned_bytes_are_counted() {
    assert_eq!(scanned_bytes(&(5..12)), Some(7));
    assert_eq!(scanned_bytes(&(5..5)), Some(0));
    let backward = Range { start: 5, end: 4 };
    assert_eq!(scanned_bytes(&backward), None);
    assert_eq!(total_scanned_bytes(&sample()), Some(10 + 5 + 4 + 1 + 10 + 5));
    assert_eq!(total_scanned_bytes(&vec![]), Some(0));
    assert_eq!(total_scanned_bytes(&vec![1..2, backward.clone()]), None);
    assert_eq!(total_scanned_bytes(&vec![0..u64::MAX, 0..1]), None);
    assert_eq!(total_scanned_bytes(&vec![0..u64::MAX, 0..1, backward]), None);
    assert_eq!(total_scanned_bytes(&vec![0..u64::MAX, 7..7]), Some(u64::MAX));
}

#[test]
fn page_bytes_lie_within_the_file() {
    for start in 0..8 {
        for length in 0..8 {
            match page_byte_range(start, length, 9) {
                Ok(range) => assert_eq!(range, start..start + length as u64),
                Err(_) => assert!(start + length as u64 > 9),
            }
        }
    }
    assert_eq!(page_byte_range(10, 5, 15), Ok(10..15));
    assert_eq!(page_byte_range(15, 0, 15), Ok(15..15));
    assert_eq!(
        page_byte_range(10, 6, 15),
        Err(ForwardReadError::ByteRangeBeyondFile {
            start: 10,
            end: 16,
            file_len: 15
        })
    );
    assert_eq!(
        page_byte_range(u64::MAX, 1, u64::MAX),
        Err(ForwardReadError::ByteRangeOverflow)
    );
}
