//! What planned pages are, in terms of the offset and column indexes that they are planned from.

use crate::error::ForwardReadError;
use crate::pages::{ChunkPages, PageSpan, PageStatistics, ParquetForwardPage, RowGroupPages};
use vstd::prelude::*;

verus! {

/// The sum of the row counts of some row groups.
pub open spec fn row_total(chunks: Seq<ChunkPages>) -> int {
    chunks.fold_left(0int, |total: int, chunk: ChunkPages| total + chunk.num_rows)
}

/// The sum of the compressed sizes of some pages.
pub open spec fn size_total(locations: Seq<PageSpan>) -> int {
    locations.fold_left(0int, |total: int, span: PageSpan| total + span.compressed_page_size)
}

/// Whether row groups and their pages are few enough to be numbered in `usize`.
pub open spec fn countable(chunks: Seq<ChunkPages>) -> bool {
    &&& chunks.len() <= usize::MAX
    &&& forall|g: int|
        0 <= g < chunks.len() && (#[trigger] chunks[g]).locations is Some
            ==> chunks[g].locations->0.len() <= usize::MAX
}

/// The row of its row group behind page `k`.
pub open spec fn next_start(chunk: ChunkPages, k: int) -> int {
    if k + 1 < chunk.locations->0.len() {
        chunk.locations->0[k + 1].first_row_index as int
    } else {
        chunk.num_rows as int
    }
}

/// Whether an OffsetIndex divides a row group into non-empty pages.
pub open spec fn soundly_indexed(chunk: ChunkPages, repeated: bool) -> bool {
    &&& 0 <= chunk.num_rows <= usize::MAX
    &&& chunk.num_rows == 0 || {
        &&& chunk.locations is Some
        &&& chunk.locations->0.len() > 0
        &&& repeated || forall|k: int|
            0 <= k < chunk.locations->0.len() ==> 0 <= (
            #[trigger] chunk.locations->0[k]).first_row_index < next_start(chunk, k)
                <= chunk.num_rows
    }
}

/// A row group's mathematical value has its row count, its page locations and its statistics.
pub proof fn row_groups_keep_their_fields(groups: Seq<RowGroupPages>, g: int)
    requires
        0 <= g < groups.len(),
    ensures
        crate::pages::chunks_of(groups).len() == groups.len(),
        crate::pages::chunks_of(groups)[g].num_rows == groups[g].num_rows,
        groups[g].locations matches Some(locations) ==> crate::pages::chunks_of(groups)[g].locations
            == Some(locations@),
        groups[g].locations is None ==> crate::pages::chunks_of(groups)[g].locations is None,
        groups[g].statistics matches Some(statistics) ==> crate::pages::chunks_of(
            groups,
        )[g].statistics == Some(statistics@),
        groups[g].statistics is None ==> crate::pages::chunks_of(groups)[g].statistics is None,
{
}

/// The rows in front of a row group are those of the row groups before it.
pub proof fn rows_before_are_summed(chunks: Seq<ChunkPages>, count: int)
    requires
        0 <= count <= chunks.len(),
    ensures
        crate::pages::rows_before(chunks, count) == row_total(chunks.take(count)),
    decreases count,
{
    if count > 0 {
        rows_before_are_summed(chunks, count - 1);
        assert(chunks.take(count).drop_last() =~= chunks.take(count - 1));
    }
}

/// Row groups without negative row counts have no more rows in front than behind.
proof fn lemma_row_total_grows(chunks: Seq<ChunkPages>, count: int)
    requires
        0 <= count <= chunks.len(),
        forall|g: int| 0 <= g < chunks.len() ==> 0 <= (#[trigger] chunks[g]).num_rows,
    ensures
        0 <= row_total(chunks.take(count)) <= row_total(chunks),
    decreases chunks.len(),
{
    if count == chunks.len() {
        assert(chunks.take(count) =~= chunks);
        if count > 0 {
            assert(chunks.drop_last().take(count - 1) =~= chunks.drop_last());
            lemma_row_total_grows(chunks.drop_last(), count - 1);
        }
    } else {
        assert(chunks.drop_last().take(count) =~= chunks.take(count));
        lemma_row_total_grows(chunks.drop_last(), count);
    }
}

/// Every row can be planned where the row groups together have no more rows than `usize` counts.
pub proof fn countable_rows_are_addressable(
    chunks: Seq<ChunkPages>,
    column: usize,
    repeated: bool,
)
    requires
        forall|g: int| 0 <= g < chunks.len() ==> 0 <= (#[trigger] chunks[g]).num_rows,
        row_total(chunks) <= usize::MAX,
    ensures
        crate::pages::rows_addressable(chunks, column, repeated),
{
    assert forall|count: int|
        0 <= count <= chunks.len() && (#[trigger] crate::pages::planned(
            chunks,
            column,
            repeated,
            count,
        )) is Ok implies crate::pages::rows_before(chunks, count) <= usize::MAX by {
        rows_before_are_summed(chunks, count);
        lemma_row_total_grows(chunks, count);
    }
}

/// Planning stops for want of row indexes exactly where some of the first row groups can be
/// planned and together have more rows than `usize` counts.
pub proof fn addressable_rows_are_countable(
    chunks: Seq<ChunkPages>,
    column: usize,
    repeated: bool,
)
    ensures
        crate::pages::rows_addressable(chunks, column, repeated) <==> forall|count: int|
            0 <= count <= chunks.len() && (#[trigger] crate::pages::planned(
                chunks,
                column,
                repeated,
                count,
            )) is Ok ==> row_total(chunks.take(count)) <= usize::MAX,
{
    assert forall|count: int| 0 <= count <= chunks.len() implies crate::pages::rows_before(
        chunks,
        count,
    ) == row_total(chunks.take(count)) by {
        rows_before_are_summed(chunks, count);
    }
}

/// A planned page of a flat column is what the indexes of its row group record of it: it lies
/// where its location says, its rows reach from the one that its location names to the next
/// location's or to the end of the row group, its null count is that of its statistics, and it is
/// all null exactly where its statistics mark it so or its null count is its row count.
pub proof fn planned_page_mirrors_indexes(
    chunks: Seq<ChunkPages>,
    column: usize,
    count: int,
    i: int,
)
    requires
        countable(chunks),
        0 <= count <= chunks.len(),
        crate::pages::rows_addressable(chunks, column, false),
        crate::pages::planned(chunks, column, false, count) is Ok,
        0 <= i < crate::pages::planned(chunks, column, false, count)->Ok_0.len(),
    ensures
        ({
            let page = crate::pages::planned(chunks, column, false, count)->Ok_0[i];
            let g = page.row_group_index as int;
            let k = page.page_index as int;
            let chunk = chunks[g];
            let locations = chunk.locations->0;
            let marked = chunk.statistics is Some && k < chunk.statistics->0.len()
                && chunk.statistics->0[k].is_null_page;
            &&& g < count
            &&& chunk.num_rows > 0
            &&& chunk.locations is Some
            &&& k < locations.len()
            &&& page.file_offset == locations[k].offset
            &&& page.compressed_size == locations[k].compressed_page_size
            &&& page.first_row == row_total(chunks.take(g)) + locations[k].first_row_index
            &&& page.row_count > 0
            &&& page.row_count == (if k + 1 < locations.len() {
                locations[k + 1].first_row_index as int
            } else {
                chunk.num_rows as int
            }) - locations[k].first_row_index
            &&& chunk.statistics is Some && k < chunk.statistics->0.len() ==> page.null_count
                == chunk.statistics->0[k].null_count
            &&& chunk.statistics is None || k >= chunk.statistics->0.len()
                ==> page.null_count is None
            &&& page.all_null <==> marked || (page.null_count matches Some(nulls) && nulls
                == page.row_count)
        }),
    decreases count,
{
    let base = crate::pages::rows_before(chunks, count - 1);
    let chunk = chunks[count - 1];
    let earlier = crate::pages::planned(chunks, column, false, count - 1)->Ok_0;
    let later = chunk.plan(count - 1, column, false, base)->Ok_0;
    let pages = crate::pages::planned(chunks, column, false, count)->Ok_0;
    assert(pages == earlier + later);
    if i < earlier.len() {
        planned_page_mirrors_indexes(chunks, column, count - 1, i);
        assert(pages[i] == earlier[i]);
    } else {
        let k = i - earlier.len();
        let total = chunk.locations->0.len() as int;
        crate::pages::planned_pages_in_order(chunks, column, false, count - 1);
        crate::pages::lemma_planned_pages(chunk, count - 1, base, total);
        assert(chunk.page_fault(count - 1, k) is None);
        assert(crate::pages::rows_before(chunks, count) <= usize::MAX);
        assert(pages[i] == chunk.page(count - 1, base, k));
        rows_before_are_summed(chunks, count - 1);
    }
}

/// Every page of every non-empty row group of a flat column is planned.
pub proof fn every_page_is_planned(
    chunks: Seq<ChunkPages>,
    column: usize,
    count: int,
    g: int,
    k: int,
) -> (i: int)
    requires
        countable(chunks),
        0 <= count <= chunks.len(),
        crate::pages::planned(chunks, column, false, count) is Ok,
        0 <= g < count,
        chunks[g].num_rows > 0,
        0 <= k < chunks[g].locations->0.len(),
    ensures
        0 <= i < crate::pages::planned(chunks, column, false, count)->Ok_0.len(),
        crate::pages::planned(chunks, column, false, count)->Ok_0[i].row_group_index == g,
        crate::pages::planned(chunks, column, false, count)->Ok_0[i].page_index == k,
    decreases count,
{
    let base = crate::pages::rows_before(chunks, count - 1);
    let chunk = chunks[count - 1];
    let earlier = crate::pages::planned(chunks, column, false, count - 1)->Ok_0;
    let later = chunk.plan(count - 1, column, false, base)->Ok_0;
    let pages = crate::pages::planned(chunks, column, false, count)->Ok_0;
    assert(pages == earlier + later);
    if g < count - 1 {
        let i = every_page_is_planned(chunks, column, count - 1, g, k);
        assert(pages[i] == earlier[i]);
        i
    } else {
        let total = chunk.locations->0.len() as int;
        crate::pages::lemma_planned_pages(chunk, count - 1, base, total);
        assert(chunk.page_fault(count - 1, k) is None);
        assert(pages[earlier.len() + k] == chunk.page(count - 1, base, k));
        earlier.len() + k
    }
}

/// A repeated column has one planned page for each non-empty row group: it stands for all rows of
/// the row group, lies where the first data page does, is as large as the data pages together
/// (or `i32::MAX`, where that does not fit), and counts no nulls.
pub proof fn planned_group_mirrors_indexes(
    chunks: Seq<ChunkPages>,
    column: usize,
    count: int,
    i: int,
)
    requires
        countable(chunks),
        0 <= count <= chunks.len(),
        crate::pages::rows_addressable(chunks, column, true),
        crate::pages::planned(chunks, column, true, count) is Ok,
        0 <= i < crate::pages::planned(chunks, column, true, count)->Ok_0.len(),
    ensures
        ({
            let page = crate::pages::planned(chunks, column, true, count)->Ok_0[i];
            let g = page.row_group_index as int;
            let chunk = chunks[g];
            let locations = chunk.locations->0;
            &&& g < count
            &&& chunk.num_rows > 0
            &&& chunk.locations is Some
            &&& locations.len() > 0
            &&& page.page_index == 0
            &&& page.first_row == row_total(chunks.take(g))
            &&& page.row_count == chunk.num_rows
            &&& page.file_offset == locations[0].offset
            &&& locations.len() <= 0xffff_ffff ==> page.compressed_size == if i32::MIN
                <= size_total(locations) <= i32::MAX {
                size_total(locations)
            } else {
                i32::MAX as int
            }
            &&& page.null_count is None
            &&& !page.all_null
        }),
    decreases count,
{
    let base = crate::pages::rows_before(chunks, count - 1);
    let chunk = chunks[count - 1];
    let earlier = crate::pages::planned(chunks, column, true, count - 1)->Ok_0;
    let later = chunk.plan(count - 1, column, true, base)->Ok_0;
    let pages = crate::pages::planned(chunks, column, true, count)->Ok_0;
    assert(pages == earlier + later);
    if i < earlier.len() {
        planned_group_mirrors_indexes(chunks, column, count - 1, i);
        assert(pages[i] == earlier[i]);
    } else {
        crate::pages::planned_pages_in_order(chunks, column, true, count - 1);
        assert(crate::pages::rows_before(chunks, count) <= usize::MAX);
        assert(pages[i] == chunk.whole_group(count - 1, base));
        rows_before_are_summed(chunks, count - 1);
        if chunk.locations->0.len() <= 0xffff_ffff {
            lemma_size_total(chunk.locations->0);
        }
    }
}

/// Few sizes add up to their sum.
proof fn lemma_size_total(locations: Seq<PageSpan>)
    requires
        locations.len() <= 0xffff_ffff,
    ensures
        crate::pages::total_size(locations) == Some(size_total(locations)),
        i32::MIN * locations.len() <= size_total(locations) <= i32::MAX * locations.len(),
    decreases locations.len(),
{
    if locations.len() > 0 {
        lemma_size_total(locations.drop_last());
    }
}

/// Every non-empty row group of a repeated column is planned.
pub proof fn every_group_is_planned(
    chunks: Seq<ChunkPages>,
    column: usize,
    count: int,
    g: int,
) -> (i: int)
    requires
        countable(chunks),
        0 <= count <= chunks.len(),
        crate::pages::planned(chunks, column, true, count) is Ok,
        0 <= g < count,
        chunks[g].num_rows > 0,
    ensures
        0 <= i < crate::pages::planned(chunks, column, true, count)->Ok_0.len(),
        crate::pages::planned(chunks, column, true, count)->Ok_0[i].row_group_index == g,
    decreases count,
{
    let base = crate::pages::rows_before(chunks, count - 1);
    let chunk = chunks[count - 1];
    let earlier = crate::pages::planned(chunks, column, true, count - 1)->Ok_0;
    let later = chunk.plan(count - 1, column, true, base)->Ok_0;
    let pages = crate::pages::planned(chunks, column, true, count)->Ok_0;
    assert(pages == earlier + later);
    if g < count - 1 {
        let i = every_group_is_planned(chunks, column, count - 1, g);
        assert(pages[i] == earlier[i]);
        i
    } else {
        assert(pages[earlier.len() as int] == later[0]);
        earlier.len() as int
    }
}

/// Planned pages have rows, and no page starts before an earlier one ends.
pub proof fn planned_pages_follow_each_other(
    chunks: Seq<ChunkPages>,
    column: usize,
    repeated: bool,
    count: int,
    i: int,
    j: int,
)
    requires
        0 <= count <= chunks.len(),
        crate::pages::rows_addressable(chunks, column, repeated),
        crate::pages::planned(chunks, column, repeated, count) is Ok,
        0 <= i < j < crate::pages::planned(chunks, column, repeated, count)->Ok_0.len(),
    ensures
        ({
            let pages = crate::pages::planned(chunks, column, repeated, count)->Ok_0;
            &&& 0 < pages[i].row_count
            &&& 0 < pages[j].row_count
            &&& pages[i].first_row + pages[i].row_count <= pages[j].first_row
            &&& pages[j].first_row + pages[j].row_count <= row_total(chunks.take(count))
        }),
{
    crate::pages::planned_pages_in_order(chunks, column, repeated, count);
    rows_before_are_summed(chunks, count);
}

/// Planning a row group succeeds exactly where its OffsetIndex divides it into pages.
proof fn lemma_plan_succeeds(
    chunk: ChunkPages,
    row_group: int,
    column: usize,
    repeated: bool,
    base: int,
)
    ensures
        chunk.plan(row_group, column, repeated, base) is Ok <==> soundly_indexed(chunk, repeated),
{
    if 0 < chunk.num_rows && !repeated && chunk.locations is Some {
        let total = chunk.locations->0.len() as int;
        if chunk.pages(row_group, base, total) is Ok {
            crate::pages::lemma_planned_pages(chunk, row_group, base, total);
            assert forall|k: int| 0 <= k < total implies 0 <= (
            #[trigger] chunk.locations->0[k]).first_row_index < next_start(chunk, k)
                <= chunk.num_rows by {
                assert(chunk.page_fault(row_group, k) is None);
            }
        }
        if soundly_indexed(chunk, repeated) {
            lemma_sound_pages(chunk, row_group, base, total);
        }
    }
}

/// The pages of a soundly indexed row group have no fault.
proof fn lemma_sound_pages(chunk: ChunkPages, row_group: int, base: int, count: int)
    requires
        soundly_indexed(chunk, false),
        0 < chunk.num_rows,
        count <= chunk.locations->0.len(),
    ensures
        chunk.pages(row_group, base, count) is Ok,
    decreases count,
{
    if count > 0 {
        lemma_sound_pages(chunk, row_group, base, count - 1);
        assert(chunk.locations->0[count - 1].first_row_index < next_start(chunk, count - 1));
    }
}

/// Planning succeeds exactly where each row group has a row count that `usize` holds, and each
/// non-empty one has an OffsetIndex that (but for repeated columns) divides it into non-empty
/// pages.
pub proof fn planning_succeeds_where_soundly_indexed(
    chunks: Seq<ChunkPages>,
    column: usize,
    repeated: bool,
    count: int,
)
    requires
        0 <= count <= chunks.len(),
    ensures
        crate::pages::planned(chunks, column, repeated, count) is Ok <==> forall|g: int|
            0 <= g < count ==> soundly_indexed(#[trigger] chunks[g], repeated),
    decreases count,
{
    if count > 0 {
        planning_succeeds_where_soundly_indexed(chunks, column, repeated, count - 1);
        lemma_plan_succeeds(
            chunks[count - 1],
            count - 1,
            column,
            repeated,
            crate::pages::rows_before(chunks, count - 1),
        );
        if forall|g: int| 0 <= g < count - 1 ==> soundly_indexed(#[trigger] chunks[g], repeated) {
        } else {
            let g = choose|g: int|
                0 <= g < count - 1 && !soundly_indexed(#[trigger] chunks[g], repeated);
            assert(!soundly_indexed(chunks[g], repeated));
        }
    }
}

/// Whether the first `count` pages of a row group are not empty and lie within it.
pub open spec fn pages_are_sound(chunk: ChunkPages, count: int) -> bool {
    forall|k: int|
        0 <= k < count ==> 0 <= (#[trigger] chunk.locations->0[k]).first_row_index < next_start(
            chunk,
            k,
        ) <= chunk.num_rows
}

/// Whether an error says what is wrong with a row group, and where pages are, with the first of
/// them.
pub open spec fn tells_fault(
    fault: ForwardReadError,
    chunk: ChunkPages,
    g: int,
    column: usize,
    repeated: bool,
) -> bool {
    let locations = chunk.locations->0;
    match fault {
        ForwardReadError::RowGroupRowCount { row_group } => row_group == g && !(0 <= chunk.num_rows
            <= usize::MAX),
        ForwardReadError::ChunkOffsetIndex { row_group, column: missing } => row_group == g
            && missing == column && chunk.num_rows > 0 && (chunk.locations is None
            || locations.len() == 0),
        ForwardReadError::PageFirstRow { row_group, page } => row_group == g && !repeated && page
            < locations.len() && !(0 <= locations[page as int].first_row_index <= usize::MAX)
            && pages_are_sound(chunk, page - 1),
        ForwardReadError::PageRowRange { first_row, end_row, row_group } => row_group == g
            && !repeated && (first_row >= end_row || end_row > chunk.num_rows) && exists|k: int|
            0 <= k < locations.len() && first_row == (#[trigger] locations[k]).first_row_index
                && end_row == next_start(chunk, k) && pages_are_sound(chunk, k),
        _ => false,
    }
}

/// A fault among the first pages is one of their rows.
proof fn lemma_pages_fault(chunk: ChunkPages, g: int, column: usize, base: int, count: int)
    requires
        0 <= g <= usize::MAX,
        0 < chunk.num_rows <= usize::MAX,
        chunk.locations is Some,
        0 <= count <= chunk.locations->0.len() <= usize::MAX,
        chunk.pages(g, base, count) is Err,
    ensures
        tells_fault(chunk.pages(g, base, count)->Err_0, chunk, g, column, false),
    decreases count,
{
    if chunk.pages(g, base, count - 1) is Err {
        lemma_pages_fault(chunk, g, column, base, count - 1);
    } else {
        let k = count - 1;
        crate::pages::lemma_planned_pages(chunk, g, base, k);
        assert forall|j: int| 0 <= j < k implies 0 <= (
        #[trigger] chunk.locations->0[j]).first_row_index < next_start(chunk, j)
            <= chunk.num_rows by {
            assert(chunk.page_fault(g, j) is None);
        }
        assert(pages_are_sound(chunk, k));
        assert(chunk.locations->0[k].first_row_index == chunk.page_start(k));
        assert(next_start(chunk, k) == chunk.page_end(k));
    }
}

/// Where planning fails, it tells what is wrong with the first row group that cannot be planned.
pub proof fn planning_tells_first_fault(
    chunks: Seq<ChunkPages>,
    column: usize,
    repeated: bool,
    count: int,
) -> (g: int)
    requires
        countable(chunks),
        0 <= count <= chunks.len(),
        crate::pages::planned(chunks, column, repeated, count) is Err,
    ensures
        0 <= g < count,
        crate::pages::planned(chunks, column, repeated, g) is Ok,
        !soundly_indexed(chunks[g], repeated),
        tells_fault(
            crate::pages::planned(chunks, column, repeated, count)->Err_0,
            chunks[g],
            g,
            column,
            repeated,
        ),
    decreases count,
{
    if crate::pages::planned(chunks, column, repeated, count - 1) is Err {
        planning_tells_first_fault(chunks, column, repeated, count - 1)
    } else {
        let g = count - 1;
        let chunk = chunks[g];
        let base = crate::pages::rows_before(chunks, g);
        lemma_plan_succeeds(chunk, g, column, repeated, base);
        if 0 < chunk.num_rows <= usize::MAX && chunk.locations is Some && chunk.locations->0.len()
            > 0 && !repeated {
            lemma_pages_fault(chunk, g, column, base, chunk.locations->0.len() as int);
        }
        g
    }
}

/// The page that is found for a row is the one whose rows it is among, and none is found for a row
/// that is among no page's.
pub proof fn row_is_found_in_its_page(pages: Seq<ParquetForwardPage>, row: int, i: int)
    requires
        forall|a: int, b: int|
            0 <= a < b < pages.len() ==> (#[trigger] pages[a]).first_row + pages[a].row_count <= (
            #[trigger] pages[b]).first_row,
    ensures
        0 <= i < pages.len() && pages[i].first_row <= row < pages[i].first_row + pages[i].row_count
            ==> crate::pages::page_of(pages, row) == Some(pages[i]),
        (forall|a: int|
            0 <= a < pages.len() ==> !((#[trigger] pages[a]).first_row <= row < pages[a].first_row
                + pages[a].row_count)) <==> crate::pages::page_of(pages, row) is None,
{
    if 0 <= i < pages.len() && pages[i].first_row <= row < pages[i].first_row + pages[i].row_count {
        assert(crate::pages::holds_row(pages[i], row));
    }
    assert forall|a: int| 0 <= a < pages.len() implies crate::pages::holds_row(
        #[trigger] pages[a],
        row,
    ) == (pages[a].first_row <= row < pages[a].first_row + pages[a].row_count) by {}
}

/// A page's statistics that mark it as null or count as many nulls as it has rows make it all
/// null, and no others do.
pub proof fn page_with_values_is_not_null(
    chunks: Seq<ChunkPages>,
    column: usize,
    count: int,
    i: int,
    statistics: PageStatistics,
)
    requires
        countable(chunks),
        0 <= count <= chunks.len(),
        crate::pages::rows_addressable(chunks, column, false),
        crate::pages::planned(chunks, column, false, count) is Ok,
        0 <= i < crate::pages::planned(chunks, column, false, count)->Ok_0.len(),
        ({
            let page = crate::pages::planned(chunks, column, false, count)->Ok_0[i];
            let chunk = chunks[page.row_group_index as int];
            &&& chunk.statistics is Some
            &&& page.page_index < chunk.statistics->0.len()
            &&& statistics == chunk.statistics->0[page.page_index as int]
        }),
    ensures
        ({
            let page = crate::pages::planned(chunks, column, false, count)->Ok_0[i];
            &&& !statistics.is_null_page && (statistics.null_count matches Some(nulls) && nulls
                < page.row_count) ==> !page.all_null
            &&& !statistics.is_null_page && statistics.null_count is None ==> !page.all_null
            &&& statistics.is_null_page ==> page.all_null
            &&& (statistics.null_count matches Some(nulls) && nulls == page.row_count)
                ==> page.all_null
        }),
{
    planned_page_mirrors_indexes(chunks, column, count, i);
}

} // verus!
