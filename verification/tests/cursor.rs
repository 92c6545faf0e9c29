use parquet_forward::cursor::{
    BatchRead, BatchStep, DecoderReply, DecoderRequest, ForwardCursor, RangeStep,
};
use parquet_forward::error::ForwardReadError;
use parquet_forward::pages::{PageSpan, PageStatistics, RowGroupPages};
use parquet_forward::projection::ProjectedPages;

/// Pages `0..3`, `3..6`, `6..8` and `8..11`, `11..12`; those named in `null_pages` are all null.
fn cursor(null_pages: &[usize]) -> ForwardCursor {
    let group = |num_rows: i64, starts: &[i64], first_page: usize| RowGroupPages {
        num_rows,
        locations: Some(
            starts
                .iter()
                .map(|start| PageSpan {
                    offset: *start,
                    compressed_page_size: 1,
                    first_row_index: *start,
                })
                .collect(),
        ),
        statistics: Some(
            (0..starts.len())
                .map(|page| PageStatistics {
                    is_null_page: null_pages.contains(&(first_page + page)),
                    null_count: None,
                })
                .collect(),
        ),
    };
    let groups = vec![group(8, &[0, 3, 6], 0), group(4, &[0, 3], 3)];
    let plan = ProjectedPages::from_row_groups(0, false, &groups).unwrap().unwrap();
    ForwardCursor::new(plan, 12).unwrap()
}

/// A decoder that serves every request, at most `limit` rows in one batch.
struct Decoder {
    at: usize,
    limit: usize,
    rows: Vec<(usize, bool)>,
}

impl Decoder {
    fn new(limit: usize) -> Self {
        Decoder { at: 0, limit, rows: Vec::new() }
    }

    fn serve(&mut self, read: &BatchRead) -> DecoderReply {
        match read.request {
            DecoderRequest::Skip { rows } => {
                self.at += rows;
                DecoderReply::Skipped { rows }
            }
            DecoderRequest::Decode { rows } => {
                let rows = rows.min(self.limit);
                for row in self.at..self.at + rows {
                    self.rows.push((row, false));
                }
                self.at += rows;
                DecoderReply::Decoded { rows }
            }
            DecoderRequest::Nulls { rows } => {
                for row in read.target_row..read.target_row + rows {
                    self.rows.push((row, true));
                }
                DecoderReply::NullsBuilt
            }
        }
    }
}

fn run_range(
    cursor: &mut ForwardCursor,
    decoder: &mut Decoder,
    target_row: usize,
    max_rows: usize,
) -> Result<bool, ForwardReadError> {
    let Some(mut read) = cursor.read_range_at(target_row, max_rows)? else {
        return Ok(false);
    };
    loop {
        let reply = decoder.serve(&read.batch);
        match cursor.advance_range(read, reply)? {
            RangeStep::Ask { read: next } => read = next,
            RangeStep::Done => return Ok(true),
        }
    }
}

fn run_batch(
    cursor: &mut ForwardCursor,
    decoder: &mut Decoder,
    target_row: usize,
    max_rows: usize,
) -> Result<Option<usize>, ForwardReadError> {
    let Some(mut read) = cursor.read_batch_at(target_row, max_rows)? else {
        return Ok(None);
    };
    loop {
        let reply = decoder.serve(&read);
        match cursor.advance_batch(read, reply)? {
            BatchStep::Ask { read: next } => read = next,
            BatchStep::Done { rows } => return Ok(Some(rows)),
        }
    }
}

#[test]
fn row_count_must_fit() {
    let plan = || ProjectedPages::from_row_groups(0, false, &vec![]).unwrap().unwrap();
    assert_eq!(
        ForwardCursor::new(plan(), -1).unwrap_err(),
        ForwardReadError::FileRowCount
    );
    let empty = ForwardCursor::new(plan(), 0).unwrap();
    assert_eq!(empty.row_count(), 0);
    assert_eq!(empty.read_batch_at(0, 5), Ok(None));
    assert_eq!(empty.read_range_at(0, 0), Ok(None));
}

#[test]
fn pages_are_measured_by_row() {
    let cursor = cursor(&[]);
    assert_eq!(cursor.page_row_count(4), Ok(3));
    assert_eq!(cursor.rows_remaining_in_page(4), Ok(2));
    assert_eq!(cursor.page_row_count(7), Ok(2));
    assert_eq!(cursor.rows_remaining_in_page(7), Ok(1));
    let fault = ForwardReadError::RowNotIndexed { row: 12 };
    assert_eq!(cursor.page_row_count(12), Err(fault));
    assert_eq!(cursor.rows_remaining_in_page(12), Err(fault));
}

#[test]
fn seeks_are_checked_in_order() {
    let mut cursor = cursor(&[]);
    let mut decoder = Decoder::new(100);
    assert_eq!(run_batch(&mut cursor, &mut decoder, 4, 1), Ok(Some(1)));
    assert_eq!(cursor.next_row(), 5);
    assert_eq!(
        cursor.read_batch_at(13, 1),
        Err(ForwardReadError::BeyondRowCount { row: 13, row_count: 12 })
    );
    assert_eq!(
        cursor.read_batch_at(4, 1),
        Err(ForwardReadError::BackwardSeek { position: 5, row: 4 })
    );
    assert_eq!(cursor.read_batch_at(12, 0), Ok(None));
    assert_eq!(cursor.read_batch_at(5, 0), Err(ForwardReadError::ZeroBatchSize));
    assert_eq!(cursor.read_range_at(5, 0), Err(ForwardReadError::ZeroBatchSize));
    assert_eq!(cursor.next_row(), 5);
}

#[test]
fn batches_end_with_their_page() {
    let mut cursor = cursor(&[]);
    let mut decoder = Decoder::new(100);
    assert_eq!(run_batch(&mut cursor, &mut decoder, 1, 100), Ok(Some(2)));
    assert_eq!(cursor.next_row(), 3);
    assert_eq!(run_batch(&mut cursor, &mut decoder, 6, 1), Ok(Some(1)));
    assert_eq!(decoder.rows, vec![(1, false), (2, false), (6, false)]);
    assert_eq!(cursor.next_row(), 7);
    assert_eq!(cursor.position(), 7);
}

#[test]
fn null_pages_are_skipped_whole_and_delivered_in_parts() {
    let mut cursor = cursor(&[1]);
    let mut decoder = Decoder::new(100);
    assert_eq!(run_batch(&mut cursor, &mut decoder, 4, 1), Ok(Some(1)));
    assert_eq!(cursor.next_row(), 5);
    assert_eq!(cursor.position(), 6);
    assert_eq!(
        cursor.read_batch_at(5, 9).unwrap().unwrap().request,
        DecoderRequest::Nulls { rows: 1 }
    );
    assert_eq!(run_batch(&mut cursor, &mut decoder, 5, 9), Ok(Some(1)));
    assert_eq!(run_batch(&mut cursor, &mut decoder, 6, 9), Ok(Some(2)));
    assert_eq!(
        decoder.rows,
        vec![(4, true), (5, true), (6, false), (7, false)]
    );
}

#[test]
fn ranges_deliver_every_row_once() {
    for null_pages in [vec![], vec![1], vec![0, 3], vec![0, 1, 2, 3, 4]] {
        for limit in [1, 2, 100] {
            for target in 0..12 {
                for max in [1, 2, 5, 12, usize::MAX] {
                    let mut cursor = cursor(&null_pages);
                    let mut decoder = Decoder::new(limit);
                    assert_eq!(run_range(&mut cursor, &mut decoder, target, max), Ok(true));
                    let end = target.saturating_add(max).min(12);
                    let expected: Vec<(usize, bool)> = (target..end)
                        .map(|row| {
                            let page = [3, 6, 8, 11, 12].iter().position(|last| row < *last);
                            (row, null_pages.contains(&page.unwrap()))
                        })
                        .collect();
                    assert_eq!(decoder.rows, expected);
                    assert_eq!(cursor.next_row(), end);
                    assert_eq!(cursor.position(), decoder.at);
                }
            }
        }
    }
}

#[test]
fn position_is_the_page_end_while_nulls_are_read_in_parts() {
    let mut cursor = cursor(&[1]);
    let mut decoder = Decoder::new(100);
    run_batch(&mut cursor, &mut decoder, 3, 1).unwrap();
    assert_eq!(cursor.position(), 6);
    assert_eq!(cursor.next_row(), 4);
    run_batch(&mut cursor, &mut decoder, 4, 1).unwrap();
    assert_eq!(cursor.position(), 6);
    assert_eq!(cursor.next_row(), 5);
    run_batch(&mut cursor, &mut decoder, 7, 1).unwrap();
    assert_eq!(cursor.position(), 8);
    assert_eq!(cursor.next_row(), 8);
}

#[test]
fn split_ranges_deliver_the_same_rows() {
    for null_pages in [vec![], vec![1, 2], vec![0, 4]] {
        for target in 0..10 {
            for first in 1..12 - target {
                for more in 1..=12 - target - first {
                    let mut whole = cursor(&null_pages);
                    let mut all = Decoder::new(2);
                    run_range(&mut whole, &mut all, target, first + more).unwrap();
                    let mut parts = cursor(&null_pages);
                    let mut some = Decoder::new(3);
                    run_range(&mut parts, &mut some, target, first).unwrap();
                    run_range(&mut parts, &mut some, target + first, more).unwrap();
                    assert_eq!(some.rows, all.rows);
                }
            }
        }
    }
}

#[test]
fn ranges_end_within_a_file_that_its_pages_overrun() {
    let groups = vec![RowGroupPages {
        num_rows: 5,
        locations: Some(vec![PageSpan {
            offset: 0,
            compressed_page_size: 1,
            first_row_index: 0,
        }]),
        statistics: None,
    }];
    let plan = ProjectedPages::from_row_groups(0, false, &groups).unwrap().unwrap();
    let mut cursor = ForwardCursor::new(plan, 3).unwrap();
    let mut decoder = Decoder::new(100);
    assert_eq!(run_range(&mut cursor, &mut decoder, 0, 3), Ok(true));
    assert_eq!(decoder.rows, vec![(0, false), (1, false), (2, false)]);
    assert_eq!(cursor.next_row(), 3);
}

#[test]
fn ranges_go_on_where_the_last_one_ended() {
    let mut cursor = cursor(&[1, 3]);
    let mut decoder = Decoder::new(2);
    let mut target = 0;
    while run_range(&mut cursor, &mut decoder, target, 5).unwrap() {
        assert!(cursor.next_row() > target);
        target = cursor.next_row();
    }
    let rows: Vec<usize> = decoder.rows.iter().map(|row| row.0).collect();
    assert_eq!(rows, (0..12).collect::<Vec<usize>>());
}

#[test]
fn wrong_skips_are_refused() {
    let mut cursor = cursor(&[2]);
    let read = cursor.read_batch_at(2, 1).unwrap().unwrap();
    assert_eq!(read.request, DecoderRequest::Skip { rows: 2 });
    assert_eq!(
        cursor.advance_batch(read, DecoderReply::Skipped { rows: 1 }),
        Err(ForwardReadError::Skip { requested: 2, skipped: 1 })
    );
    let read = cursor.read_batch_at(6, 1).unwrap().unwrap();
    assert_eq!(read.request, DecoderRequest::Skip { rows: 8 });
    assert_eq!(
        cursor.advance_batch(read, DecoderReply::Skipped { rows: 9 }),
        Err(ForwardReadError::NullPageSkip { requested: 8, skipped: 9 })
    );
    assert_eq!(cursor.next_row(), 0);
    assert_eq!(cursor.position(), 0);
}

#[test]
fn exhausted_decoder_is_reported() {
    let mut cursor = cursor(&[]);
    let read = cursor.read_batch_at(2, 1).unwrap().unwrap();
    let BatchStep::Ask { read } =
        cursor.advance_batch(read, DecoderReply::Skipped { rows: 2 }).unwrap()
    else {
        panic!("the batch is not decoded yet");
    };
    assert_eq!(read.request, DecoderRequest::Decode { rows: 1 });
    assert_eq!(
        cursor.advance_batch(read, DecoderReply::Exhausted),
        Err(ForwardReadError::Exhausted { row: 2 })
    );
    assert_eq!(cursor.next_row(), 0);
    assert_eq!(cursor.position(), 2);
}

#[test]
fn dropped_batch_is_read_again_from_where_the_decoder_stands() {
    for null_pages in [vec![], vec![1]] {
        let mut cursor = cursor(&null_pages);
        let mut decoder = Decoder::new(100);
        let read = cursor.read_batch_at(4, 5).unwrap().unwrap();
        let reply = decoder.serve(&read);
        cursor.advance_batch(read, reply).unwrap();
        assert_eq!(cursor.position(), decoder.at);
        assert_eq!(cursor.next_row(), 0);

        assert_eq!(run_batch(&mut cursor, &mut decoder, 4, 5), Ok(Some(2)));
        let null = !null_pages.is_empty();
        assert_eq!(decoder.rows, vec![(4, null), (5, null)]);
        assert_eq!(cursor.position(), decoder.at);
        assert_eq!(cursor.next_row(), 6);
    }
}

#[test]
fn position_follows_the_decoder_at_every_request() {
    let mut cursor = cursor(&[1, 3]);
    let mut decoder = Decoder::new(2);
    let mut read = cursor.read_range_at(1, 11).unwrap().unwrap();
    loop {
        let reply = decoder.serve(&read.batch);
        let step = cursor.advance_range(read, reply).unwrap();
        assert_eq!(cursor.position(), decoder.at);
        match step {
            RangeStep::Ask { read: next } => read = next,
            RangeStep::Done => break,
        }
    }
    assert_eq!(cursor.next_row(), 12);
}

#[test]
fn abandoned_null_page_leaves_the_decoder_ahead() {
    let mut cursor = cursor(&[1]);
    let read = cursor.read_batch_at(4, 1).unwrap().unwrap();
    cursor.advance_batch(read, DecoderReply::Skipped { rows: 6 }).unwrap();
    assert_eq!(
        cursor.read_batch_at(1, 1),
        Err(ForwardReadError::DecoderAhead { physical_position: 6, row: 1 })
    );
}

#[test]
fn empty_batches_make_no_progress() {
    let mut cursor = cursor(&[]);
    let mut read = cursor.read_range_at(0, 6).unwrap().unwrap();
    let mut replies = vec![
        DecoderReply::Decoded { rows: 0 },
        DecoderReply::Skipped { rows: 0 },
        DecoderReply::Decoded { rows: 0 },
        DecoderReply::Skipped { rows: 0 },
    ];
    let fault = loop {
        match cursor.advance_range(read, replies.pop().unwrap()) {
            Ok(RangeStep::Ask { read: next }) => read = next,
            Ok(RangeStep::Done) => panic!("no row was read"),
            Err(fault) => break fault,
        }
    };
    assert_eq!(fault, ForwardReadError::NoProgress { row: 0 });
    assert!(replies.is_empty());
}

#[test]
fn range_fails_where_no_page_holds_its_next_row() {
    let groups = vec![RowGroupPages {
        num_rows: 2,
        locations: Some(vec![PageSpan {
            offset: 0,
            compressed_page_size: 1,
            first_row_index: 0,
        }]),
        statistics: None,
    }];
    let plan = ProjectedPages::from_row_groups(0, false, &groups).unwrap().unwrap();
    let mut cursor = ForwardCursor::new(plan, 4).unwrap();
    let mut decoder = Decoder::new(100);
    assert_eq!(
        run_range(&mut cursor, &mut decoder, 1, 3),
        Err(ForwardReadError::RowNotIndexed { row: 2 })
    );
    assert_eq!(cursor.next_row(), 2);
}
