//! Byte ranges of a file: coalescing, counting and bounds.

use crate::error::ForwardReadError;
use std::ops::Range;
use vstd::prelude::*;

verus! {

/// Whether byte `byte` lies in `range`.
pub open spec fn holds_byte(range: Range<u64>, byte: int) -> bool {
    range.start <= byte < range.end
}

/// Whether byte `byte` lies in one of `ranges`.
pub open spec fn covers(ranges: Seq<Range<u64>>, byte: int) -> bool {
    exists|i: int| 0 <= i < ranges.len() && holds_byte(#[trigger] ranges[i], byte)
}

/// Whether no range starts before an earlier one.
pub open spec fn sorted_by_start(ranges: Seq<Range<u64>>) -> bool {
    forall|i: int, j: int|
        0 <= i <= j < ranges.len() ==> (#[trigger] ranges[i]).start <= (#[trigger] ranges[j]).start
}

/// Whether no range ends before it starts.
pub open spec fn all_forward(ranges: Seq<Range<u64>>) -> bool {
    forall|i: int| 0 <= i < ranges.len() ==> (#[trigger] ranges[i]).start <= ranges[i].end
}

/// Whether a range that starts at `start` is close enough to one that ends at `end` to be merged
/// into it.
pub open spec fn within_gap(end: u64, start: u64, max_gap: u64) -> bool {
    start <= end + max_gap
}

/// The ranges merged one after the other: each range either extends the last merged range or
/// starts a new one.
pub open spec fn coalesced(ranges: Seq<Range<u64>>, max_gap: u64) -> Seq<Range<u64>>
    decreases ranges.len(),
{
    if ranges.len() == 0 {
        Seq::empty()
    } else {
        let merged = coalesced(ranges.drop_last(), max_gap);
        let range = ranges.last();
        if merged.len() > 0 && within_gap(merged.last().end, range.start, max_gap) {
            merged.drop_last().push(
                Range {
                    start: merged.last().start,
                    end: if range.end >= merged.last().end {
                        range.end
                    } else {
                        merged.last().end
                    },
                },
            )
        } else {
            merged.push(range)
        }
    }
}

/// Coalesces sorted ranges whose gap is at most `max_gap` bytes.
///
/// Storage decides the trade-off: local files can use `max_gap = 0` (exact reads), remote object
/// stores can use a large gap or fetch the covering range, while decoding stays limited to the
/// logical selection either way.
pub fn coalesce_ranges(ranges: Vec<Range<u64>>, max_gap: u64) -> (merged: Vec<Range<u64>>)
    ensures
        merged@ == coalesced(ranges@, max_gap),
{
    let mut merged: Vec<Range<u64>> = Vec::new();
    for i in 0..ranges.len()
        invariant
            merged@ == coalesced(ranges@.take(i as int), max_gap),
    {
        proof {
            assert(ranges@.take(i + 1).drop_last() =~= ranges@.take(i as int));
            assert(ranges@.take(i + 1).last() == ranges@[i as int]);
        }
        let start = ranges[i].start;
        let end = ranges[i].end;
        let count = merged.len();
        if count > 0 && start <= merged[count - 1].end.saturating_add(max_gap) {
            let last_start = merged[count - 1].start;
            let last_end = merged[count - 1].end;
            let wider = if end >= last_end {
                end
            } else {
                last_end
            };
            let ghost before = merged@;
            merged.set(count - 1, Range { start: last_start, end: wider });
            assert(merged@ =~= before.drop_last().push(Range { start: last_start, end: wider }));
        } else {
            merged.push(Range { start, end });
        }
    }
    assert(ranges@.take(ranges@.len() as int) =~= ranges@);
    merged
}

/// The number of bytes in a range, if it does not end before it starts.
pub fn scanned_bytes(range: &Range<u64>) -> (bytes: Option<u64>)
    ensures
        bytes is Some <==> range.start <= range.end,
        bytes matches Some(bytes) ==> bytes == range.end - range.start,
{
    if range.start <= range.end {
        Some(range.end - range.start)
    } else {
        None
    }
}

/// The sum of the lengths of some ranges.
pub open spec fn total_length(ranges: Seq<Range<u64>>) -> int
    decreases ranges.len(),
{
    if ranges.len() == 0 {
        0
    } else {
        total_length(ranges.drop_last()) + ranges.last().end - ranges.last().start
    }
}

/// The number of bytes in some ranges together, if none ends before it starts and the sum fits
/// in `u64`.
pub fn total_scanned_bytes(ranges: &Vec<Range<u64>>) -> (bytes: Option<u64>)
    ensures
        bytes is Some <==> all_forward(ranges@) && total_length(ranges@) <= u64::MAX,
        bytes matches Some(bytes) ==> bytes == total_length(ranges@),
{
    let mut total: Option<u64> = Some(0);
    for i in 0..ranges.len()
        invariant
            all_forward(ranges@.take(i as int)),
            total matches Some(total) ==> total == total_length(ranges@.take(i as int)),
            total is None ==> total_length(ranges@.take(i as int)) > u64::MAX,
    {
        proof {
            assert(ranges@.take(i + 1).drop_last() =~= ranges@.take(i as int));
            assert(ranges@.take(i + 1).last() == ranges@[i as int]);
        }
        match scanned_bytes(&ranges[i]) {
            Some(bytes) => {
                total = match total {
                    Some(total) => total.checked_add(bytes),
                    None => None,
                };
                assert(all_forward(ranges@.take(i + 1))) by {
                    assert forall|j: int| 0 <= j < i + 1 implies (#[trigger] ranges@.take(
                        i + 1,
                    )[j]).start <= ranges@.take(i + 1)[j].end by {
                        if j < i {
                            assert(ranges@.take(i as int)[j] == ranges@[j]);
                        }
                    }
                }
            },
            None => {
                return None;
            },
        }
    }
    assert(ranges@.take(ranges@.len() as int) =~= ranges@);
    total
}

/// The bytes of a page of `length` bytes at `start`, or why they do not lie within the file.
pub open spec fn page_bytes(start: u64, length: usize, file_len: u64) -> Result<
    Range<u64>,
    ForwardReadError,
> {
    if start + length > u64::MAX {
        Err(ForwardReadError::ByteRangeOverflow)
    } else if start + length > file_len {
        Err(
            ForwardReadError::ByteRangeBeyondFile {
                start,
                end: (start + length) as u64,
                file_len,
            },
        )
    } else {
        Ok(Range { start, end: (start + length) as u64 })
    }
}

/// The bytes of a page, where they lie within the file.
pub fn page_byte_range(start: u64, length: usize, file_len: u64) -> (range: Result<
    Range<u64>,
    ForwardReadError,
>)
    ensures
        range == page_bytes(start, length, file_len),
{
    match start.checked_add(length as u64) {
        None => Err(ForwardReadError::ByteRangeOverflow),
        Some(end) => if end > file_len {
            Err(ForwardReadError::ByteRangeBeyondFile { start, end, file_len })
        } else {
            Ok(Range { start, end })
        },
    }
}

/// Bytes that are requested for a page lie within the file, are as many as asked for, and start
/// where asked for; and every page that lies within the file is requested.
pub proof fn requested_bytes_lie_within_file(start: u64, length: usize, file_len: u64)
    ensures
        page_bytes(start, length, file_len) is Ok <==> start + length <= file_len,
        page_bytes(start, length, file_len) matches Ok(range) ==> range.start == start
            && range.end - range.start == length && range.end <= file_len,
{
}

/// Whether the ranges follow each other at more than `max_gap` bytes.
pub open spec fn separated(ranges: Seq<Range<u64>>, max_gap: u64) -> bool {
    forall|i: int, j: int|
        0 <= i < j < ranges.len() ==> (#[trigger] ranges[i]).end + max_gap < (
        #[trigger] ranges[j]).start
}

/// Whether a byte lies between the end of one of `ranges` and the start of another that is at
/// most `max_gap` bytes away.
pub open spec fn in_small_gap(ranges: Seq<Range<u64>>, max_gap: u64, byte: int) -> bool {
    exists|i: int, j: int|
        0 <= i < ranges.len() && 0 <= j < ranges.len() && (#[trigger] ranges[i]).end <= byte < (
        #[trigger] ranges[j]).start && ranges[j].start <= ranges[i].end + max_gap
}

/// The last merged range starts no later than the last range.
proof fn lemma_last_start(ranges: Seq<Range<u64>>, max_gap: u64)
    requires
        sorted_by_start(ranges),
        ranges.len() > 0,
    ensures
        coalesced(ranges, max_gap).len() > 0,
        coalesced(ranges, max_gap).last().start <= ranges.last().start,
    decreases ranges.len(),
{
    let earlier = ranges.drop_last();
    if earlier.len() > 0 {
        lemma_last_start(earlier, max_gap);
        assert(earlier.last() == ranges[ranges.len() - 2]);
        assert(ranges[ranges.len() - 2].start <= ranges[ranges.len() - 1].start);
    } else {
        assert(coalesced(earlier, max_gap).len() == 0);
    }
}

/// Coalesced ranges run forward, follow each other in order, and lie more than `max_gap` bytes
/// apart.
pub proof fn coalesced_ranges_are_apart(ranges: Seq<Range<u64>>, max_gap: u64)
    requires
        sorted_by_start(ranges),
        all_forward(ranges),
    ensures
        all_forward(coalesced(ranges, max_gap)),
        sorted_by_start(coalesced(ranges, max_gap)),
        separated(coalesced(ranges, max_gap), max_gap),
    decreases ranges.len(),
{
    if ranges.len() > 0 {
        let earlier = ranges.drop_last();
        let range = ranges.last();
        let merged = coalesced(earlier, max_gap);
        let all = coalesced(ranges, max_gap);
        coalesced_ranges_are_apart(earlier, max_gap);
        if earlier.len() > 0 {
            lemma_last_start(earlier, max_gap);
            assert(earlier.last() == ranges[ranges.len() - 2]);
        }
        assert forall|i: int, j: int| 0 <= i < j < all.len() implies (#[trigger] all[i]).end
            + max_gap < (#[trigger] all[j]).start by {
            assert(all[i] == merged[i]);
            if j < merged.len() {
                assert(all[j].start == merged[j].start);
            } else if i < merged.len() - 1 {
                assert(merged[i].end + max_gap < merged.last().start);
            }
        }
        assert forall|i: int| 0 <= i < all.len() implies (#[trigger] all[i]).start <= all[i].end by {
            if i < merged.len() {
                assert(all[i].start == merged[i].start);
            }
        }
        assert forall|i: int, j: int| 0 <= i <= j < all.len() implies (#[trigger] all[i]).start <= (
        #[trigger] all[j]).start by {
            if i < j {
                assert(all[i].end + max_gap < all[j].start);
            }
        }
    }
}

/// Coalescing never grows the number of ranges, and loses all of them only where there are none.
pub proof fn coalescing_never_adds_ranges(ranges: Seq<Range<u64>>, max_gap: u64)
    ensures
        coalesced(ranges, max_gap).len() <= ranges.len(),
        ranges.len() > 0 ==> coalesced(ranges, max_gap).len() > 0,
    decreases ranges.len(),
{
    if ranges.len() > 0 {
        coalescing_never_adds_ranges(ranges.drop_last(), max_gap);
    }
}

/// Each range lies within a single coalesced range.
pub proof fn coalesced_ranges_keep_ranges(ranges: Seq<Range<u64>>, max_gap: u64, i: int)
    requires
        sorted_by_start(ranges),
        0 <= i < ranges.len(),
    ensures
        exists|k: int|
            0 <= k < coalesced(ranges, max_gap).len() && (#[trigger] coalesced(
                ranges,
                max_gap,
            )[k]).start <= ranges[i].start && ranges[i].end <= coalesced(ranges, max_gap)[k].end,
    decreases ranges.len(),
{
    let earlier = ranges.drop_last();
    let merged = coalesced(earlier, max_gap);
    let all = coalesced(ranges, max_gap);
    if i < earlier.len() {
        assert(earlier[i] == ranges[i]);
        coalesced_ranges_keep_ranges(earlier, max_gap, i);
        let k = choose|k: int|
            0 <= k < merged.len() && (#[trigger] merged[k]).start <= earlier[i].start
                && earlier[i].end <= merged[k].end;
        assert(all[k].start <= ranges[i].start && ranges[i].end <= all[k].end);
    } else {
        if earlier.len() > 0 {
            lemma_last_start(earlier, max_gap);
            assert(earlier.last() == ranges[ranges.len() - 2]);
        }
        let k = all.len() - 1;
        assert(all[k].start <= ranges[i].start && ranges[i].end <= all[k].end);
    }
}

/// Every byte of the ranges is a byte of the coalesced ranges.
pub proof fn coalesced_ranges_keep_bytes(ranges: Seq<Range<u64>>, max_gap: u64, byte: int)
    requires
        sorted_by_start(ranges),
        covers(ranges, byte),
    ensures
        covers(coalesced(ranges, max_gap), byte),
{
    let i = choose|i: int| 0 <= i < ranges.len() && holds_byte(#[trigger] ranges[i], byte);
    coalesced_ranges_keep_ranges(ranges, max_gap, i);
    let all = coalesced(ranges, max_gap);
    let k = choose|k: int|
        0 <= k < all.len() && (#[trigger] all[k]).start <= ranges[i].start && ranges[i].end
            <= all[k].end;
    assert(holds_byte(all[k], byte));
}

/// A coalesced range starts where one of the ranges starts and ends where one of them ends.
pub proof fn coalesced_ranges_keep_bounds(ranges: Seq<Range<u64>>, max_gap: u64, k: int)
    requires
        0 <= k < coalesced(ranges, max_gap).len(),
    ensures
        exists|i: int|
            0 <= i < ranges.len() && (#[trigger] ranges[i]).start == coalesced(
                ranges,
                max_gap,
            )[k].start,
        exists|i: int|
            0 <= i < ranges.len() && (#[trigger] ranges[i]).end == coalesced(
                ranges,
                max_gap,
            )[k].end,
    decreases ranges.len(),
{
    let earlier = ranges.drop_last();
    let merged = coalesced(earlier, max_gap);
    let all = coalesced(ranges, max_gap);
    let last = ranges.len() - 1;
    if k < merged.len() {
        coalesced_ranges_keep_bounds(earlier, max_gap, k);
        let i = choose|i: int|
            0 <= i < earlier.len() && (#[trigger] earlier[i]).start == merged[k].start;
        assert(ranges[i].start == all[k].start);
        let j = choose|i: int|
            0 <= i < earlier.len() && (#[trigger] earlier[i]).end == merged[k].end;
        assert(ranges[j].end == merged[k].end);
        assert(ranges[last].end == all[k].end || ranges[j].end == all[k].end);
    } else {
        assert(ranges[last].start == all[k].start && ranges[last].end == all[k].end);
    }
}

/// Every byte of the coalesced ranges is a byte of the ranges, or lies in a gap between them of
/// at most `max_gap` bytes.
pub proof fn coalesced_ranges_add_small_gaps(ranges: Seq<Range<u64>>, max_gap: u64, byte: int)
    requires
        covers(coalesced(ranges, max_gap), byte),
    ensures
        covers(ranges, byte) || in_small_gap(ranges, max_gap, byte),
    decreases ranges.len(),
{
    let earlier = ranges.drop_last();
    let range = ranges.last();
    let last = ranges.len() - 1;
    let merged = coalesced(earlier, max_gap);
    let all = coalesced(ranges, max_gap);
    let k = choose|k: int| 0 <= k < all.len() && holds_byte(#[trigger] all[k], byte);
    if k < merged.len() && holds_byte(merged[k], byte) {
        coalesced_ranges_add_small_gaps(earlier, max_gap, byte);
        if covers(earlier, byte) {
            let i = choose|i: int| 0 <= i < earlier.len() && holds_byte(#[trigger] earlier[i], byte);
            assert(holds_byte(ranges[i], byte));
        } else {
            let (i, j) = choose|i: int, j: int|
                0 <= i < earlier.len() && 0 <= j < earlier.len() && (#[trigger] earlier[i]).end
                    <= byte < (#[trigger] earlier[j]).start && earlier[j].start <= earlier[i].end
                    + max_gap;
            assert(ranges[i].end <= byte < ranges[j].start && ranges[j].start <= ranges[i].end
                + max_gap);
        }
    } else if holds_byte(range, byte) {
        assert(holds_byte(ranges[last], byte));
    } else {
        coalesced_ranges_keep_bounds(earlier, max_gap, merged.len() - 1);
        let i = choose|i: int|
            0 <= i < earlier.len() && (#[trigger] earlier[i]).end == merged.last().end;
        assert(ranges[i].end <= byte < ranges[last].start && ranges[last].start <= ranges[i].end
            + max_gap);
    }
}

/// Without gaps, coalescing reads exactly the bytes of the ranges.
pub proof fn exact_coalescing_keeps_bytes(ranges: Seq<Range<u64>>, byte: int)
    requires
        sorted_by_start(ranges),
    ensures
        covers(coalesced(ranges, 0), byte) <==> covers(ranges, byte),
{
    if covers(ranges, byte) {
        coalesced_ranges_keep_bytes(ranges, 0, byte);
    }
    if covers(coalesced(ranges, 0), byte) {
        coalesced_ranges_add_small_gaps(ranges, 0, byte);
    }
}

/// Ranges that lie more than `max_gap` bytes apart are not coalesced.
pub proof fn separated_ranges_stay(ranges: Seq<Range<u64>>, max_gap: u64)
    requires
        separated(ranges, max_gap),
    ensures
        coalesced(ranges, max_gap) == ranges,
    decreases ranges.len(),
{
    if ranges.len() > 0 {
        let earlier = ranges.drop_last();
        separated_ranges_stay(earlier, max_gap);
        if earlier.len() > 0 {
            assert(earlier.last() == ranges[ranges.len() - 2]);
            assert(ranges[ranges.len() - 2].end + max_gap < ranges[ranges.len() - 1].start);
        }
        assert(coalesced(ranges, max_gap) =~= ranges);
    } else {
        assert(coalesced(ranges, max_gap) =~= ranges);
    }
}

/// Coalescing coalesced ranges again changes nothing.
pub proof fn coalescing_twice_changes_nothing(ranges: Seq<Range<u64>>, max_gap: u64)
    requires
        sorted_by_start(ranges),
        all_forward(ranges),
    ensures
        coalesced(coalesced(ranges, max_gap), max_gap) == coalesced(ranges, max_gap),
{
    coalesced_ranges_are_apart(ranges, max_gap);
    separated_ranges_stay(coalesced(ranges, max_gap), max_gap);
}

/// With the largest gap, any number of ranges becomes one.
pub proof fn largest_gap_gives_one_range(ranges: Seq<Range<u64>>)
    requires
        ranges.len() > 0,
    ensures
        coalesced(ranges, u64::MAX).len() == 1,
        coalesced(ranges, u64::MAX)[0].start == ranges[0].start,
    decreases ranges.len(),
{
    let earlier = ranges.drop_last();
    if earlier.len() > 0 {
        largest_gap_gives_one_range(earlier);
    } else {
        assert(coalesced(earlier, u64::MAX).len() == 0);
    }
}

/// One more range either starts a new merged range, where it starts more than `max_gap` bytes
/// behind the end of the last one, or widens the last one to its own end; all others stay.
pub proof fn one_more_range_widens_the_last_or_stands_alone(
    ranges: Seq<Range<u64>>,
    range: Range<u64>,
    max_gap: u64,
)
    ensures
        ({
            let before = coalesced(ranges, max_gap);
            let after = coalesced(ranges.push(range), max_gap);
            let last = before[before.len() - 1];
            let joins = before.len() > 0 && range.start - last.end <= max_gap;
            &&& coalesced(Seq::empty(), max_gap).len() == 0
            &&& !joins ==> after == before.push(range)
            &&& joins ==> {
                &&& after.len() == before.len()
                &&& forall|k: int| 0 <= k < before.len() - 1 ==> #[trigger] after[k] == before[k]
                &&& after[before.len() - 1].start == last.start
                &&& range.end <= after[before.len() - 1].end
                &&& last.end <= after[before.len() - 1].end
                &&& after[before.len() - 1].end == range.end || after[before.len() - 1].end
                    == last.end
            }
        }),
{
    assert(ranges.push(range).drop_last() =~= ranges);
}

/// Bytes are counted once for each range: none for no ranges, and one more range adds its length.
pub proof fn lengths_are_added_up(ranges: Seq<Range<u64>>, range: Range<u64>)
    ensures
        total_length(Seq::empty()) == 0,
        total_length(ranges.push(range)) == total_length(ranges) + (range.end - range.start),
{
    assert(ranges.push(range).drop_last() =~= ranges);
}

/// A request is refused for a page whose end no `u64` counts, else for one that ends behind the
/// file, and the error then tells where.
pub proof fn requests_are_refused_behind_the_file(start: u64, length: usize, file_len: u64)
    ensures
        start + length > u64::MAX <==> page_bytes(start, length, file_len) == Err::<
            Range<u64>,
            ForwardReadError,
        >(ForwardReadError::ByteRangeOverflow),
        file_len < start + length <= u64::MAX ==> (page_bytes(start, length, file_len) matches Err(
            ForwardReadError::ByteRangeBeyondFile { start: from, end: to, file_len: len },
        ) && from == start && to == start + length && len == file_len),
{
}

/// Ranges run forward exactly where each of them ends at or behind its start.
pub proof fn forward_ranges_end_behind_their_starts(ranges: Seq<Range<u64>>)
    ensures
        all_forward(ranges) <==> forall|i: int|
            0 <= i < ranges.len() ==> (#[trigger] ranges[i]).start <= ranges[i].end,
{
}

/// A range that does not end before it starts is as long as the bytes that are counted for it, and
/// for no other are any counted.
pub proof fn counted_bytes_are_the_ranges_own(range: Range<u64>, bytes: Option<u64>)
    requires
        call_ensures(scanned_bytes, (&range,), bytes),
    ensures
        bytes is Some <==> range.start <= range.end,
        bytes is Some ==> range.start + bytes->0 == range.end,
{
}

} // verus!
