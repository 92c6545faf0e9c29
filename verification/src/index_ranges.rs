//! Where the page indexes of a selection lie in the file.

use crate::key::PageIndexKey;
use crate::selection::PageIndexSelection;
use parquet::file::metadata::{ColumnChunkMetaData, ParquetMetaData};
use std::ops::Range;
use vstd::prelude::*;

verus! {

/// Whether the footer describes the column chunk that `key` stands for.
pub open spec fn describes(footer: ParquetMetaData, key: PageIndexKey) -> bool {
    let row_groups = crate::footer::row_groups_of(footer);
    key.row_group_index < row_groups.len() && key.column_index < crate::footer::chunks_in(
        row_groups[key.row_group_index as int],
    ).len()
}

/// What the footer says of the column chunk that `key` stands for.
pub open spec fn chunk_at(footer: ParquetMetaData, key: PageIndexKey) -> ColumnChunkMetaData {
    crate::footer::chunks_in(
        crate::footer::row_groups_of(footer)[key.row_group_index as int],
    )[key.column_index as int]
}

/// A signed 64-bit integer read as an unsigned one.
pub open spec fn unsigned(value: int) -> int {
    if value < 0 {
        value + 0x1_0000_0000_0000_0000
    } else {
        value
    }
}

/// Where an index ends whose start and size are given, if both are.
pub open spec fn recorded_end(start: Option<i64>, size: Option<i32>) -> int {
    match (start, size) {
        (Some(start), Some(size)) => unsigned(start as int) + unsigned(size as int),
        _ => 0,
    }
}

/// The byte range of an index whose start and size are given, if both are.
pub open spec fn recorded_range(start: Option<i64>, size: Option<i32>) -> Option<Range<u64>> {
    match (start, size) {
        (Some(start), Some(_)) => Some(
            Range {
                start: unsigned(start as int) as u64,
                end: recorded_end(Some(start), size) as u64,
            },
        ),
        _ => None,
    }
}

/// The two kinds of page index.
#[derive(Debug, Clone, Copy, PartialEq, Eq, Structural)]
pub enum IndexKind {
    /// Per-page statistics.
    Column,
    /// Page locations.
    Offset,
}

/// The byte range of the index that the footer records for `key`, if it records one.
pub open spec fn index_range(footer: ParquetMetaData, kind: IndexKind, key: PageIndexKey) -> Option<
    Range<u64>,
> {
    let chunk = chunk_at(footer, key);
    match kind {
        IndexKind::Column => recorded_range(
            crate::footer::column_index_start(chunk),
            crate::footer::column_index_size(chunk),
        ),
        IndexKind::Offset => recorded_range(
            crate::footer::offset_index_start(chunk),
            crate::footer::offset_index_size(chunk),
        ),
    }
}

/// Where the index ends that the footer records for `key`.
pub open spec fn index_end(footer: ParquetMetaData, kind: IndexKind, key: PageIndexKey) -> int {
    let chunk = chunk_at(footer, key);
    match kind {
        IndexKind::Column => recorded_end(
            crate::footer::column_index_start(chunk),
            crate::footer::column_index_size(chunk),
        ),
        IndexKind::Offset => recorded_end(
            crate::footer::offset_index_start(chunk),
            crate::footer::offset_index_size(chunk),
        ),
    }
}

/// Whether the footer describes every column chunk of `keys`, and every index that it records
/// for them ends at a `u64` offset.
pub open spec fn locates(footer: ParquetMetaData, kind: IndexKind, keys: Set<PageIndexKey>) -> bool {
    forall|key: PageIndexKey| #[trigger]
        keys.contains(key) ==> describes(footer, key) && index_end(footer, kind, key) <= u64::MAX
}

/// The keys whose index lies at `range`.
pub open spec fn keys_at(
    footer: ParquetMetaData,
    kind: IndexKind,
    keys: Set<PageIndexKey>,
    range: Range<u64>,
) -> Set<PageIndexKey> {
    keys.filter(|key: PageIndexKey| index_range(footer, kind, key) == Some(range))
}

/// The keys that the footer records an index for.
pub open spec fn recorded_keys(
    footer: ParquetMetaData,
    kind: IndexKind,
    keys: Set<PageIndexKey>,
) -> Set<PageIndexKey> {
    keys.filter(|key: PageIndexKey| index_range(footer, kind, key) is Some)
}

/// The entries of a selection that are of the given kind.
pub open spec fn entries_of(selection: crate::selection::IndexSelection, kind: IndexKind) -> Set<
    PageIndexKey,
> {
    match kind {
        IndexKind::Column => selection.column_indexes,
        IndexKind::Offset => selection.offset_indexes,
    }
}

/// Whether the footer locates every entry of a selection.
pub open spec fn locates_selection(
    footer: ParquetMetaData,
    selection: crate::selection::IndexSelection,
) -> bool {
    &&& locates(footer, IndexKind::Column, selection.column_indexes)
    &&& locates(footer, IndexKind::Offset, selection.offset_indexes)
}

/// Whether `ranges` holds the range of each index that the footer records for an entry of a
/// selection, once for each such entry and nothing else, in the order of the ranges' starts.
pub open spec fn lists_ranges(
    footer: ParquetMetaData,
    selection: crate::selection::IndexSelection,
    ranges: Seq<Range<u64>>,
) -> bool {
    &&& crate::byte_ranges::sorted_by_start(ranges)
    &&& forall|range: Range<u64>| #[trigger]
        ranges.to_multiset().count(range) == keys_at(
            footer,
            IndexKind::Column,
            selection.column_indexes,
            range,
        ).len() + keys_at(footer, IndexKind::Offset, selection.offset_indexes, range).len()
    &&& ranges.len() == recorded_keys(footer, IndexKind::Column, selection.column_indexes).len()
        + recorded_keys(footer, IndexKind::Offset, selection.offset_indexes).len()
}

/// `slice::sort_by_key` reorders the ranges so that their starts ascend.
#[verifier::external_body]
fn sort_by_start(ranges: &mut Vec<Range<u64>>)
    ensures
        final(ranges)@.to_multiset() == old(ranges)@.to_multiset(),
        crate::byte_ranges::sorted_by_start(final(ranges)@),
{
    ranges.sort_by_key(|range| range.start);
}

/// The byte range of an index whose start and size are given; `Some(None)` where one of them is
/// not, and `None` where the range ends past the last `u64` offset.
fn range_from(start: Option<i64>, size: Option<i32>) -> (range: Option<Option<Range<u64>>>)
    ensures
        range is Some <==> recorded_end(start, size) <= u64::MAX,
        range matches Some(range) ==> range == recorded_range(start, size),
{
    match (start, size) {
        (Some(start), Some(size)) => {
            assert(start < 0 ==> start as u64 == start + 0x1_0000_0000_0000_0000) by (bit_vector);
            assert(size < 0 ==> size as u64 == size + 0x1_0000_0000_0000_0000) by (bit_vector);
            let first = start as u64;
            let length = size as u64;
            match first.checked_add(length) {
                Some(end) => Some(Some(Range { start: first, end })),
                None => None,
            }
        },
        _ => Some(None),
    }
}

/// The byte range of the index that the footer records for `key`; `Some(None)` where it records
/// none, and `None` where it does not describe the column chunk or the range ends past the last
/// `u64` offset.
fn locate(footer: &ParquetMetaData, kind: IndexKind, key: PageIndexKey) -> (range: Option<
    Option<Range<u64>>,
>)
    ensures
        range is Some <==> describes(*footer, key) && index_end(*footer, kind, key) <= u64::MAX,
        range matches Some(range) ==> range == index_range(*footer, kind, key),
{
    let row_groups = footer.row_groups();
    if key.row_group_index >= row_groups.len() {
        return None;
    }
    let chunks = row_groups[key.row_group_index].columns();
    if key.column_index >= chunks.len() {
        return None;
    }
    let chunk = &chunks[key.column_index];
    match kind {
        IndexKind::Column => range_from(chunk.column_index_offset(), chunk.column_index_length()),
        IndexKind::Offset => range_from(chunk.offset_index_offset(), chunk.offset_index_length()),
    }
}

/// A new key adds one to the number of keys with its range, and nothing to any other.
proof fn lemma_keys_at(
    footer: ParquetMetaData,
    kind: IndexKind,
    keys: Set<PageIndexKey>,
    key: PageIndexKey,
    range: Range<u64>,
)
    requires
        keys.finite(),
        !keys.contains(key),
    ensures
        keys_at(footer, kind, keys.insert(key), range).len() == keys_at(
            footer,
            kind,
            keys,
            range,
        ).len() + if index_range(footer, kind, key) == Some(range) {
            1nat
        } else {
            0
        },
        recorded_keys(footer, kind, keys.insert(key)).len() == recorded_keys(
            footer,
            kind,
            keys,
        ).len() + if index_range(footer, kind, key) is Some {
            1nat
        } else {
            0
        },
{
    let recorded = recorded_keys(footer, kind, keys);
    assert(recorded.subset_of(keys));
    vstd::set_lib::lemma_set_subset_finite(keys, recorded);
    if index_range(footer, kind, key) is Some {
        assert(recorded_keys(footer, kind, keys.insert(key)) =~= recorded.insert(key));
    } else {
        assert(recorded_keys(footer, kind, keys.insert(key)) =~= recorded);
    }
    let some = keys_at(footer, kind, keys, range);
    let more = keys_at(footer, kind, keys.insert(key), range);
    assert(some.subset_of(keys));
    vstd::set_lib::lemma_set_subset_finite(keys, some);
    if index_range(footer, kind, key) == Some(range) {
        assert(more =~= some.insert(key));
    } else {
        assert(more =~= some);
    }
}

/// Appends the ranges of the indexes of `keys`. Returns whether the footer locates all of them.
fn push_ranges(
    footer: &ParquetMetaData,
    kind: IndexKind,
    keys: &Vec<PageIndexKey>,
    ranges: &mut Vec<Range<u64>>,
) -> (located: bool)
    requires
        keys@.no_duplicates(),
    ensures
        located == locates(*footer, kind, keys@.to_set()),
        located ==> forall|range: Range<u64>| #[trigger]
            final(ranges)@.to_multiset().count(range) == old(ranges)@.to_multiset().count(range)
                + keys_at(*footer, kind, keys@.to_set(), range).len(),
        located ==> final(ranges)@.len() == old(ranges)@.len() + recorded_keys(
            *footer,
            kind,
            keys@.to_set(),
        ).len(),
{
    proof {
        assert(recorded_keys(*footer, kind, keys@.take(0).to_set()) =~= Set::empty());
        assert forall|range: Range<u64>|
            keys_at(*footer, kind, #[trigger] keys@.take(0).to_set(), range).len() == 0 by {
            assert(keys_at(*footer, kind, keys@.take(0).to_set(), range) =~= Set::empty());
        }
    }
    for i in 0..keys.len()
        invariant
            keys@.no_duplicates(),
            locates(*footer, kind, keys@.take(i as int).to_set()),
            forall|range: Range<u64>| #[trigger]
                ranges@.to_multiset().count(range) == old(ranges)@.to_multiset().count(range)
                    + keys_at(*footer, kind, keys@.take(i as int).to_set(), range).len(),
            ranges@.len() == old(ranges)@.len() + recorded_keys(
                *footer,
                kind,
                keys@.take(i as int).to_set(),
            ).len(),
    {
        let key = keys[i];
        let ghost some = keys@.take(i as int);
        proof {
            assert(keys@.take(i + 1) =~= some.push(key));
            some.lemma_push_to_set_commute(key);
            vstd::seq_lib::seq_to_set_is_finite(some);
            assert(!some.to_set().contains(key));
            assert(keys@.to_set().contains(key));
            assert forall|range: Range<u64>|
                keys_at(*footer, kind, #[trigger] some.to_set().insert(key), range).len()
                    == keys_at(*footer, kind, some.to_set(), range).len() + if index_range(
                    *footer,
                    kind,
                    key,
                ) == Some(range) {
                    1nat
                } else {
                    0
                } by {
                lemma_keys_at(*footer, kind, some.to_set(), key, range);
            }
            lemma_keys_at(*footer, kind, some.to_set(), key, Range { start: 0, end: 0 });
        }
        match locate(footer, kind, key) {
            None => {
                return false;
            },
            Some(None) => {},
            Some(Some(range)) => {
                let ghost before = ranges@;
                ranges.push(range);
                proof {
                    vstd::seq_lib::to_multiset_build(before, range);
                }
            },
        }
    }
    assert(keys@.take(keys@.len() as int) =~= keys@);
    true
}

/// Computes the byte ranges needed to load the page indexes in `selection`, using the index
/// locations recorded in the footer.
///
/// The logical selection determines *which entries* to decode, while the caller decides *which
/// bytes* to fetch (exact ranges, coalesced ranges, or one covering range). Entries whose footer
/// locations are absent do not exist in the file and produce no range.
///
/// Returns `None` where the footer does not describe a selected column chunk, or where a range
/// ends past the last `u64` offset.
pub fn checked_required_ranges(footer: &ParquetMetaData, selection: &PageIndexSelection) -> (ranges:
    Option<Vec<Range<u64>>>)
    ensures
        ranges is Some <==> locates_selection(*footer, selection@),
        ranges matches Some(ranges) ==> lists_ranges(*footer, selection@, ranges@),
{
    let mut ranges: Vec<Range<u64>> = Vec::new();
    let column_keys = selection.column_indexes().to_vec();
    let offset_keys = selection.offset_indexes().to_vec();
    proof {
        broadcast use vstd::seq_lib::group_to_multiset_ensures;

        assert forall|range: Range<u64>| #[trigger]
            ranges@.to_multiset().count(range) == 0 by {
            assert(!ranges@.contains(range));
        }
    }
    if !push_ranges(footer, IndexKind::Column, &column_keys, &mut ranges) {
        return None;
    }
    if !push_ranges(footer, IndexKind::Offset, &offset_keys, &mut ranges) {
        return None;
    }
    let ghost unsorted = ranges@;
    sort_by_start(&mut ranges);
    proof {
        unsorted.to_multiset_ensures();
        ranges@.to_multiset_ensures();
    }
    Some(ranges)
}

/// Computes the byte ranges needed to load the page indexes in `selection`, all of which the
/// footer locates; see [`checked_required_ranges`].
pub fn required_ranges(footer: &ParquetMetaData, selection: &PageIndexSelection) -> (ranges: Vec<
    Range<u64>,
>)
    requires
        locates_selection(*footer, selection@),
    ensures
        lists_ranges(*footer, selection@, ranges@),
{
    match checked_required_ranges(footer, selection) {
        Some(ranges) => ranges,
        None => vstd::pervasive::unreached(),
    }
}

/// The range of every index that the footer records for a selected entry is among the required
/// ranges.
pub proof fn recorded_entries_have_ranges(
    footer: ParquetMetaData,
    selection: crate::selection::IndexSelection,
    ranges: Seq<Range<u64>>,
    kind: IndexKind,
    key: PageIndexKey,
)
    requires
        lists_ranges(footer, selection, ranges),
        selection.column_indexes.finite(),
        selection.offset_indexes.finite(),
        entries_of(selection, kind).contains(key),
        index_range(footer, kind, key) is Some,
    ensures
        ranges.contains(index_range(footer, kind, key)->0),
{
    let range = index_range(footer, kind, key)->0;
    let keys = keys_at(footer, kind, entries_of(selection, kind), range);
    vstd::set_lib::lemma_set_subset_finite(entries_of(selection, kind), keys);
    assert(keys.contains(key));
    assert(keys.len() > 0);
    ranges.to_multiset_ensures();
    assert(ranges.to_multiset().count(range) > 0);
}

/// Every required range is the range of an index that the footer records for a selected entry.
pub proof fn ranges_belong_to_entries(
    footer: ParquetMetaData,
    selection: crate::selection::IndexSelection,
    ranges: Seq<Range<u64>>,
    i: int,
)
    requires
        lists_ranges(footer, selection, ranges),
        0 <= i < ranges.len(),
    ensures
        exists|kind: IndexKind, key: PageIndexKey| #[trigger]
            entries_of(selection, kind).contains(key) && index_range(footer, kind, key) == Some(
                ranges[i],
            ),
{
    let range = ranges[i];
    let columns = keys_at(footer, IndexKind::Column, selection.column_indexes, range);
    ranges.to_multiset_ensures();
    assert(ranges.contains(range));
    assert(ranges.to_multiset().count(range) > 0);
    let kind = if columns.len() > 0 {
        IndexKind::Column
    } else {
        IndexKind::Offset
    };
    let keys = keys_at(footer, kind, entries_of(selection, kind), range);
    if forall|key: PageIndexKey| !keys.contains(key) {
        assert(keys =~= Set::empty());
    }
    let key = choose|key: PageIndexKey| keys.contains(key);
    assert(entries_of(selection, kind).contains(key));
}

/// Whether a range is the one that a recorded offset and length stand for, both read as unsigned
/// 64-bit integers.
pub open spec fn is_recorded(start: Option<i64>, size: Option<i32>, range: Range<u64>) -> bool {
    &&& start is Some
    &&& size is Some
    &&& range.start == if start->0 < 0 {
        start->0 + 0x1_0000_0000_0000_0000
    } else {
        start->0 as int
    }
    &&& range.end - range.start == if size->0 < 0 {
        size->0 + 0x1_0000_0000_0000_0000
    } else {
        size->0 as int
    }
}

/// Whether a range is that of the column index that the footer records for `key`.
pub open spec fn is_column_range(footer: ParquetMetaData, key: PageIndexKey, range: Range<u64>) -> bool {
    let chunk = crate::footer::chunks_in(
        crate::footer::row_groups_of(footer)[key.row_group_index as int],
    )[key.column_index as int];
    is_recorded(
        crate::footer::column_index_start(chunk),
        crate::footer::column_index_size(chunk),
        range,
    )
}

/// Whether a range is that of the offset index that the footer records for `key`.
pub open spec fn is_offset_range(footer: ParquetMetaData, key: PageIndexKey, range: Range<u64>) -> bool {
    let chunk = crate::footer::chunks_in(
        crate::footer::row_groups_of(footer)[key.row_group_index as int],
    )[key.column_index as int];
    is_recorded(
        crate::footer::offset_index_start(chunk),
        crate::footer::offset_index_size(chunk),
        range,
    )
}

/// A range that ends at a `u64` offset is the recorded one exactly where it starts at the recorded
/// offset and is as long as the recorded length.
proof fn lemma_recorded(start: Option<i64>, size: Option<i32>, range: Range<u64>)
    requires
        recorded_end(start, size) <= u64::MAX,
    ensures
        recorded_range(start, size) == Some(range) <==> is_recorded(start, size, range),
        recorded_range(start, size) is Some <==> start is Some && size is Some,
{
}

/// The required ranges start at the recorded offsets and are as long as the recorded lengths:
/// each range is required as often as it is that of a selected column index or offset index.
pub proof fn required_ranges_are_the_recorded_ones(
    footer: ParquetMetaData,
    selection: crate::selection::IndexSelection,
    ranges: Seq<Range<u64>>,
    range: Range<u64>,
)
    requires
        locates_selection(footer, selection),
        lists_ranges(footer, selection, ranges),
    ensures
        ranges.to_multiset().count(range) == selection.column_indexes.filter(
            |key: PageIndexKey| is_column_range(footer, key, range),
        ).len() + selection.offset_indexes.filter(
            |key: PageIndexKey| is_offset_range(footer, key, range),
        ).len(),
{
    assert forall|key: PageIndexKey| selection.column_indexes.contains(key) implies index_range(
        footer,
        IndexKind::Column,
        key,
    ) == Some(range) <==> is_column_range(footer, key, range) by {
        let chunk = chunk_at(footer, key);
        lemma_recorded(
            crate::footer::column_index_start(chunk),
            crate::footer::column_index_size(chunk),
            range,
        );
    }
    assert forall|key: PageIndexKey| selection.offset_indexes.contains(key) implies index_range(
        footer,
        IndexKind::Offset,
        key,
    ) == Some(range) <==> is_offset_range(footer, key, range) by {
        let chunk = chunk_at(footer, key);
        lemma_recorded(
            crate::footer::offset_index_start(chunk),
            crate::footer::offset_index_size(chunk),
            range,
        );
    }
    assert(keys_at(footer, IndexKind::Column, selection.column_indexes, range)
        =~= selection.column_indexes.filter(
        |key: PageIndexKey| is_column_range(footer, key, range),
    ));
    assert(keys_at(footer, IndexKind::Offset, selection.offset_indexes, range)
        =~= selection.offset_indexes.filter(
        |key: PageIndexKey| is_offset_range(footer, key, range),
    ));
}

/// A selected column index whose offset and length the footer records is fetched whole: one of the
/// required ranges starts at that offset and is as long as that length.
pub proof fn column_index_is_fetched_whole(
    footer: ParquetMetaData,
    selection: crate::selection::IndexSelection,
    ranges: Seq<Range<u64>>,
    key: PageIndexKey,
    offset: i64,
    length: i32,
) -> (i: int)
    requires
        lists_ranges(footer, selection, ranges),
        selection.column_indexes.finite(),
        selection.offset_indexes.finite(),
        selection.column_indexes.contains(key),
        ({
            let chunk = crate::footer::chunks_in(
                crate::footer::row_groups_of(footer)[key.row_group_index as int],
            )[key.column_index as int];
            &&& crate::footer::column_index_start(chunk) == Some(offset)
            &&& crate::footer::column_index_size(chunk) == Some(length)
        }),
        0 <= offset,
        0 <= length,
    ensures
        0 <= i < ranges.len(),
        ranges[i].start == offset,
        ranges[i].end - ranges[i].start == length,
{
    recorded_entries_have_ranges(footer, selection, ranges, IndexKind::Column, key);
    let range = index_range(footer, IndexKind::Column, key)->0;
    choose|i: int| 0 <= i < ranges.len() && ranges[i] == range
}

/// A selected offset index whose offset and length the footer records is fetched whole: one of the
/// required ranges starts at that offset and is as long as that length.
pub proof fn offset_index_is_fetched_whole(
    footer: ParquetMetaData,
    selection: crate::selection::IndexSelection,
    ranges: Seq<Range<u64>>,
    key: PageIndexKey,
    offset: i64,
    length: i32,
) -> (i: int)
    requires
        lists_ranges(footer, selection, ranges),
        selection.column_indexes.finite(),
        selection.offset_indexes.finite(),
        selection.offset_indexes.contains(key),
        ({
            let chunk = crate::footer::chunks_in(
                crate::footer::row_groups_of(footer)[key.row_group_index as int],
            )[key.column_index as int];
            &&& crate::footer::offset_index_start(chunk) == Some(offset)
            &&& crate::footer::offset_index_size(chunk) == Some(length)
        }),
        0 <= offset,
        0 <= length,
    ensures
        0 <= i < ranges.len(),
        ranges[i].start == offset,
        ranges[i].end - ranges[i].start == length,
{
    recorded_entries_have_ranges(footer, selection, ranges, IndexKind::Offset, key);
    let range = index_range(footer, IndexKind::Offset, key)->0;
    choose|i: int| 0 <= i < ranges.len() && ranges[i] == range
}

/// There are as many required ranges as selected indexes whose offset and length the footer
/// records both, and no range starts before an earlier one.
pub proof fn required_ranges_are_counted_and_sorted(
    footer: ParquetMetaData,
    selection: crate::selection::IndexSelection,
    ranges: Seq<Range<u64>>,
    i: int,
    j: int,
)
    requires
        lists_ranges(footer, selection, ranges),
    ensures
        ranges.len() == selection.column_indexes.filter(
            |key: PageIndexKey|
                {
                    let chunk = crate::footer::chunks_in(
                        crate::footer::row_groups_of(footer)[key.row_group_index as int],
                    )[key.column_index as int];
                    crate::footer::column_index_start(chunk) is Some
                        && crate::footer::column_index_size(chunk) is Some
                },
        ).len() + selection.offset_indexes.filter(
            |key: PageIndexKey|
                {
                    let chunk = crate::footer::chunks_in(
                        crate::footer::row_groups_of(footer)[key.row_group_index as int],
                    )[key.column_index as int];
                    crate::footer::offset_index_start(chunk) is Some
                        && crate::footer::offset_index_size(chunk) is Some
                },
        ).len(),
        0 <= i <= j < ranges.len() ==> ranges[i].start <= ranges[j].start,
{
    let columns = selection.column_indexes.filter(
        |key: PageIndexKey|
            {
                let chunk = crate::footer::chunks_in(
                    crate::footer::row_groups_of(footer)[key.row_group_index as int],
                )[key.column_index as int];
                crate::footer::column_index_start(chunk) is Some
                    && crate::footer::column_index_size(chunk) is Some
            },
    );
    let offsets = selection.offset_indexes.filter(
        |key: PageIndexKey|
            {
                let chunk = crate::footer::chunks_in(
                    crate::footer::row_groups_of(footer)[key.row_group_index as int],
                )[key.column_index as int];
                crate::footer::offset_index_start(chunk) is Some
                    && crate::footer::offset_index_size(chunk) is Some
            },
    );
    assert(recorded_keys(footer, IndexKind::Column, selection.column_indexes) =~= columns);
    assert(recorded_keys(footer, IndexKind::Offset, selection.offset_indexes) =~= offsets);
}

/// Whether a recorded offset and length, read as unsigned integers, lead past the last `u64`.
pub open spec fn leads_past(start: Option<i64>, size: Option<i32>) -> bool {
    start is Some && size is Some && (if start->0 < 0 {
        start->0 + 0x1_0000_0000_0000_0000
    } else {
        start->0 as int
    }) + (if size->0 < 0 {
        size->0 + 0x1_0000_0000_0000_0000
    } else {
        size->0 as int
    }) > u64::MAX
}

/// Ranges are required exactly where the footer has each selected row group and column, and none
/// of their indexes leads past the last `u64` offset.
pub proof fn ranges_are_required_where_located(
    footer: ParquetMetaData,
    selection: crate::selection::IndexSelection,
)
    ensures
        locates_selection(footer, selection) <==> (forall|key: PageIndexKey| #[trigger]
            selection.column_indexes.contains(key) ==> {
                let groups = crate::footer::row_groups_of(footer);
                let chunks = crate::footer::chunks_in(groups[key.row_group_index as int]);
                let chunk = chunks[key.column_index as int];
                &&& key.row_group_index < groups.len()
                &&& key.column_index < chunks.len()
                &&& !leads_past(
                    crate::footer::column_index_start(chunk),
                    crate::footer::column_index_size(chunk),
                )
            }) && (forall|key: PageIndexKey| #[trigger]
            selection.offset_indexes.contains(key) ==> {
                let groups = crate::footer::row_groups_of(footer);
                let chunks = crate::footer::chunks_in(groups[key.row_group_index as int]);
                let chunk = chunks[key.column_index as int];
                &&& key.row_group_index < groups.len()
                &&& key.column_index < chunks.len()
                &&& !leads_past(
                    crate::footer::offset_index_start(chunk),
                    crate::footer::offset_index_size(chunk),
                )
            }),
{
    assert forall|key: PageIndexKey| #[trigger] selection.column_indexes.contains(key) implies (
    describes(footer, key) && index_end(footer, IndexKind::Column, key) <= u64::MAX) == {
        let groups = crate::footer::row_groups_of(footer);
        let chunks = crate::footer::chunks_in(groups[key.row_group_index as int]);
        let chunk = chunks[key.column_index as int];
        &&& key.row_group_index < groups.len()
        &&& key.column_index < chunks.len()
        &&& !leads_past(
            crate::footer::column_index_start(chunk),
            crate::footer::column_index_size(chunk),
        )
    } by {}
    assert forall|key: PageIndexKey| #[trigger] selection.offset_indexes.contains(key) implies (
    describes(footer, key) && index_end(footer, IndexKind::Offset, key) <= u64::MAX) == {
        let groups = crate::footer::row_groups_of(footer);
        let chunks = crate::footer::chunks_in(groups[key.row_group_index as int]);
        let chunk = chunks[key.column_index as int];
        &&& key.row_group_index < groups.len()
        &&& key.column_index < chunks.len()
        &&& !leads_past(
            crate::footer::offset_index_start(chunk),
            crate::footer::offset_index_size(chunk),
        )
    } by {}
}

} // verus!
