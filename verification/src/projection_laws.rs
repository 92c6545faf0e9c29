//! What the pages of a projected column are, in terms of the footer that they are planned from.

use crate::error::ForwardReadError;
use crate::projection::LeafPlan;
use parquet::arrow::ProjectionMask;
use parquet::file::metadata::ParquetMetaData;
use vstd::prelude::*;

verus! {

/// The number of leaf columns of a file.
pub open spec fn width(metadata: ParquetMetaData) -> int {
    crate::footer::leaves_of(
        crate::footer::schema_of(crate::footer::file_metadata_of(metadata)),
    ).len() as int
}

/// Whether a mask includes a leaf column: it has no flags, or the column's flag is set.
pub open spec fn includes(mask: ProjectionMask, leaf: int) -> bool {
    crate::footer::mask_flags(mask) matches Some(flags) ==> flags[leaf]
}

/// The leaf columns that a mask includes, in order.
pub open spec fn included(mask: ProjectionMask, count: int) -> Seq<int> {
    Seq::new(count as nat, |leaf: int| leaf).filter(|leaf: int| includes(mask, leaf))
}

/// Whether a footer's tables are small enough to be numbered in `usize`.
pub open spec fn footer_fits(metadata: ParquetMetaData, column: usize) -> bool {
    crate::page_laws::countable(crate::projection::column_chunks(metadata, column))
}

/// The leaf columns that a projection counts are those that the mask includes.
pub proof fn counted_leaves_are_included(mask: ProjectionMask, count: int)
    requires
        0 <= count <= usize::MAX,
    ensures
        crate::projection::selected_leaves(mask, count).len() == included(mask, count).len(),
        forall|i: int|
            0 <= i < included(mask, count).len() ==> crate::projection::selected_leaves(
                mask,
                count,
            )[i] == #[trigger] included(mask, count)[i],
    decreases count,
{
    reveal(Seq::filter);
    if count > 0 {
        counted_leaves_are_included(mask, count - 1);
        let all = Seq::new(count as nat, |leaf: int| leaf);
        assert(all.drop_last() =~= Seq::new((count - 1) as nat, |leaf: int| leaf));
    }
}

/// What is read of a column is what the footer records of that column: the chunk of row group `g`
/// has the row group's row count, the locations of the OffsetIndex entry at that row group and
/// column, and the statistics of the ColumnIndex entry there, if that has any.
pub proof fn column_chunk_mirrors_footer(metadata: ParquetMetaData, column: usize, g: int)
    requires
        0 <= g < crate::footer::row_groups_of(metadata).len(),
    ensures
        crate::projection::column_chunks(metadata, column).len() == crate::footer::row_groups_of(
            metadata,
        ).len(),
        ({
            let chunk = crate::projection::column_chunks(metadata, column)[g];
            let offsets = crate::footer::offset_index_of(metadata);
            let columns = crate::footer::column_index_of(metadata);
            let c = column as int;
            let located = offsets is Some && g < offsets->0.len() && c < offsets->0[g].len();
            let described = columns is Some && g < columns->0.len() && c < columns->0[g].len()
                && !crate::footer::is_placeholder(columns->0[g][c]);
            let locations = crate::footer::page_locations_in(offsets->0[g][c]);
            &&& chunk.num_rows == crate::footer::row_group_row_count(
                crate::footer::row_groups_of(metadata)[g],
            )
            &&& chunk.locations is Some <==> located
            &&& located ==> chunk.locations->0.len() == locations.len()
            &&& located ==> forall|k: int|
                0 <= k < locations.len() ==> #[trigger] chunk.locations->0[k]
                    == crate::footer::span_of(locations[k])
            &&& chunk.statistics is Some <==> described
            &&& described && crate::footer::indexed_pages(columns->0[g][c]) <= usize::MAX ==> {
                &&& chunk.statistics->0.len() == crate::footer::indexed_pages(columns->0[g][c])
                &&& forall|k: int|
                    0 <= k < chunk.statistics->0.len() ==> (
                    #[trigger] chunk.statistics->0[k]).null_count
                        == crate::footer::indexed_null_count(columns->0[g][c], k as usize)
                        && chunk.statistics->0[k].is_null_page == crate::footer::indexed_null_page(
                        columns->0[g][c],
                        k as usize,
                    )
            }
        }),
{
}

/// A planned page of flat leaf column `c` carries the statistics of its own column: its null count
/// and its all-null mark are those that the ColumnIndex entry of its row group and of `c` has for
/// it, and it has none where there is no such entry.
pub proof fn planned_statistics_are_the_columns_own(
    metadata: ParquetMetaData,
    column: usize,
    i: int,
)
    requires
        footer_fits(metadata, column),
        crate::pages::rows_addressable(
            crate::projection::column_chunks(metadata, column),
            column,
            false,
        ),
        crate::projection::planned_column(metadata, column, false) is Ok,
        0 <= i < crate::projection::planned_column(metadata, column, false)->Ok_0.len(),
    ensures
        ({
            let page = crate::projection::planned_column(metadata, column, false)->Ok_0[i];
            let g = page.row_group_index as int;
            let k = page.page_index;
            let c = column as int;
            let offsets = crate::footer::offset_index_of(metadata);
            let columns = crate::footer::column_index_of(metadata);
            let entry = columns->0[g][c];
            let described = columns is Some && g < columns->0.len() && c < columns->0[g].len()
                && !crate::footer::is_placeholder(entry);
            let locations = crate::footer::page_locations_in(offsets->0[g][c]);
            let span = crate::footer::span_of(locations[k as int]);
            let next = crate::footer::span_of(locations[k + 1]);
            let pages = crate::footer::indexed_pages(entry);
            &&& g < crate::footer::row_groups_of(metadata).len()
            &&& offsets is Some && g < offsets->0.len() && c < offsets->0[g].len()
            &&& k < locations.len()
            &&& page.file_offset == span.offset
            &&& page.compressed_size == span.compressed_page_size
            &&& page.row_count == (if k + 1 < locations.len() {
                next.first_row_index as int
            } else {
                crate::footer::row_group_row_count(
                    crate::footer::row_groups_of(metadata)[g],
                ) as int
            }) - span.first_row_index
            &&& described && k < pages <= usize::MAX ==> {
                &&& page.null_count == crate::footer::indexed_null_count(entry, k)
                &&& page.all_null <==> crate::footer::indexed_null_page(entry, k) || (
                page.null_count matches Some(nulls) && nulls == page.row_count)
            }
            &&& !described ==> page.null_count is None && !page.all_null
            &&& described && pages <= k ==> page.null_count is None && !page.all_null
        }),
{
    let chunks = crate::projection::column_chunks(metadata, column);
    crate::page_laws::planned_page_mirrors_indexes(chunks, column, chunks.len() as int, i);
    let page = crate::projection::planned_column(metadata, column, false)->Ok_0[i];
    column_chunk_mirrors_footer(metadata, column, page.row_group_index as int);
}

/// The plan for a column goes by that column's index entries alone: two footers with the same row
/// counts and the same entries for it have the same plan for it, whatever they record of others.
pub proof fn other_columns_leave_plan_unchanged(
    one: ParquetMetaData,
    other: ParquetMetaData,
    column: usize,
    repeated: bool,
)
    requires
        crate::footer::row_groups_of(one).len() == crate::footer::row_groups_of(other).len(),
        forall|g: int|
            0 <= g < crate::footer::row_groups_of(one).len() ==> crate::footer::row_group_row_count(
                #[trigger] crate::footer::row_groups_of(one)[g],
            ) == crate::footer::row_group_row_count(crate::footer::row_groups_of(other)[g]),
        crate::footer::offset_index_of(one) is Some,
        crate::footer::offset_index_of(other) is Some,
        crate::footer::column_index_of(one) is Some,
        crate::footer::column_index_of(other) is Some,
        forall|g: int|
            0 <= g < crate::footer::row_groups_of(one).len() ==> {
                let a = (#[trigger] crate::footer::offset_index_of(one)->0[g]);
                let b = crate::footer::offset_index_of(other)->0[g];
                &&& g < crate::footer::offset_index_of(one)->0.len()
                &&& g < crate::footer::offset_index_of(other)->0.len()
                &&& column < a.len() && column < b.len()
                &&& a[column as int] == b[column as int]
            },
        forall|g: int|
            0 <= g < crate::footer::row_groups_of(one).len() ==> {
                let a = (#[trigger] crate::footer::column_index_of(one)->0[g]);
                let b = crate::footer::column_index_of(other)->0[g];
                &&& g < crate::footer::column_index_of(one)->0.len()
                &&& g < crate::footer::column_index_of(other)->0.len()
                &&& column < a.len() && column < b.len()
                &&& a[column as int] == b[column as int]
            },
    ensures
        crate::projection::planned_column(one, column, repeated)
            == crate::projection::planned_column(other, column, repeated),
{
    let a = crate::projection::column_chunks(one, column);
    let b = crate::projection::column_chunks(other, column);
    assert forall|g: int| 0 <= g < a.len() implies a[g] == b[g] by {
        assert(crate::footer::row_group_row_count(crate::footer::row_groups_of(one)[g])
            == crate::footer::row_group_row_count(crate::footer::row_groups_of(other)[g]));
        assert(crate::footer::offset_index_of(one)->0[g][column as int]
            == crate::footer::offset_index_of(other)->0[g][column as int]);
        assert(crate::footer::column_index_of(one)->0[g][column as int]
            == crate::footer::column_index_of(other)->0[g][column as int]);
    }
    assert(a =~= b);
}

/// A projection succeeds exactly where its mask includes one leaf column, the footer has an
/// OffsetIndex, and the pages of that column can be planned; it then plans those pages of that
/// column, which is repeated where its repetition level is positive.
pub proof fn projection_plans_the_included_column(metadata: ParquetMetaData, mask: ProjectionMask)
    requires
        width(metadata) <= usize::MAX,
    ensures
        ({
            let result = crate::projection::projected(metadata, mask);
            let leaves = included(mask, width(metadata));
            let leaf = leaves[0] as usize;
            let descriptor = crate::footer::leaves_of(
                crate::footer::schema_of(crate::footer::file_metadata_of(metadata)),
            )[leaf as int];
            let repeated = crate::footer::repetition_level(*descriptor) > 0;
            let planned = crate::projection::planned_column(metadata, leaf, repeated);
            &&& leaves.len() != 1 ==> result == Err::<LeafPlan, ForwardReadError>(
                ForwardReadError::ProjectedColumnCount { count: leaves.len() as usize },
            )
            &&& leaves.len() == 1 && crate::footer::offset_index_of(metadata) is None ==> result
                == Err::<LeafPlan, ForwardReadError>(ForwardReadError::NoOffsetIndex)
            &&& leaves.len() == 1 && crate::footer::offset_index_of(metadata) is Some ==> {
                &&& planned is Ok <==> result is Ok
                &&& planned is Ok ==> result->Ok_0.leaf_column == leaf && result->Ok_0.repeated
                    == repeated && result->Ok_0.pages == planned->Ok_0
                &&& planned is Err ==> result->Err_0 == planned->Err_0
            }
        }),
{
    counted_leaves_are_included(mask, width(metadata));
    let leaves = included(mask, width(metadata));
    if leaves.len() == 1 {
        assert(leaves[0] == crate::projection::selected_leaves(mask, width(metadata))[0]);
    }
}

/// The plan for a column is planned from all of its row groups.
pub proof fn column_plan_covers_all_row_groups(
    metadata: ParquetMetaData,
    column: usize,
    repeated: bool,
)
    ensures
        crate::projection::planned_column(metadata, column, repeated) == crate::pages::planned(
            crate::projection::column_chunks(metadata, column),
            column,
            repeated,
            crate::footer::row_groups_of(metadata).len() as int,
        ),
{
}

/// A projection fails for want of row indexes only where it gets as far as the rows of the one
/// included column, and those cannot be indexed.
pub proof fn projection_addresses_the_included_column(
    metadata: ParquetMetaData,
    mask: ProjectionMask,
)
    requires
        width(metadata) <= usize::MAX,
    ensures
        ({
            let leaves = included(mask, width(metadata));
            let leaf = leaves[0] as usize;
            let descriptor = crate::footer::leaves_of(
                crate::footer::schema_of(crate::footer::file_metadata_of(metadata)),
            )[leaf as int];
            let chunks = crate::projection::column_chunks(metadata, leaf);
            crate::projection::projection_addressable(metadata, mask) <==> (leaves.len() == 1
                && crate::footer::offset_index_of(metadata) is Some
                ==> crate::pages::rows_addressable(
                chunks,
                leaf,
                crate::footer::repetition_level(*descriptor) > 0,
            ))
        }),
{
    counted_leaves_are_included(mask, width(metadata));
    let leaves = included(mask, width(metadata));
    if leaves.len() == 1 {
        assert(leaves[0] == crate::projection::selected_leaves(mask, width(metadata))[0]);
    }
}

/// A mask fits a file exactly where it has no flags or one for each leaf column at least.
pub proof fn fitting_mask_has_flags(metadata: ParquetMetaData, mask: ProjectionMask)
    ensures
        crate::projection::mask_fits(mask, metadata) <==> (crate::footer::mask_flags(mask) is None
            || width(metadata) <= crate::footer::mask_flags(mask)->0.len()),
{
}

/// A mask that is made for some leaf columns includes those and no others.
pub proof fn selected_leaves_are_included(
    metadata: ParquetMetaData,
    leaves: Vec<usize>,
    mask: Option<ProjectionMask>,
    leaf: int,
)
    requires
        call_ensures(crate::projection::select_leaves, (&metadata, leaves), mask),
        0 <= leaf < width(metadata) <= usize::MAX,
    ensures
        mask is Some <==> forall|i: int|
            0 <= i < leaves@.len() ==> #[trigger] leaves@[i] < width(metadata),
        mask matches Some(mask) ==> (includes(mask, leaf) <==> leaves@.contains(leaf as usize)),
{
    if mask is Some {
        assert(crate::projection::selects(mask->0, leaf) == includes(mask->0, leaf));
    }
}

/// A row of a page with values, as the ColumnIndex entry of its column tells, is never read as a
/// null: its batch is decoded.
pub proof fn page_with_values_is_decoded(
    metadata: ParquetMetaData,
    column: usize,
    state: crate::cursor::CursorState,
    target_row: usize,
    max_rows: usize,
    i: int,
)
    requires
        footer_fits(metadata, column),
        crate::pages::rows_addressable(
            crate::projection::column_chunks(metadata, column),
            column,
            false,
        ),
        crate::projection::planned_column(metadata, column, false) is Ok,
        state.plan.pages == crate::projection::planned_column(metadata, column, false)->Ok_0,
        crate::delivery::in_order(state),
        crate::cursor_laws::row_in_page(state, target_row as int, i),
        crate::cursor::batch_start(state, target_row, max_rows) is Ok,
        crate::cursor::batch_start(state, target_row, max_rows)->Ok_0 is Some,
        ({
            let page = state.plan.pages[i];
            let entry = crate::footer::column_index_of(
                metadata,
            )->0[page.row_group_index as int][column as int];
            let k = page.page_index;
            &&& crate::footer::column_index_of(metadata) is Some
            &&& page.row_group_index < crate::footer::column_index_of(metadata)->0.len()
            &&& column < crate::footer::column_index_of(
                metadata,
            )->0[page.row_group_index as int].len()
            &&& !crate::footer::is_placeholder(entry)
            &&& k < crate::footer::indexed_pages(entry) <= usize::MAX
            &&& !crate::footer::indexed_null_page(entry, k)
            &&& crate::footer::indexed_null_count(entry, k) matches Some(nulls) ==> nulls
                < page.row_count
        }),
    ensures
        ({
            let read = crate::cursor::batch_start(state, target_row, max_rows)->Ok_0->0;
            let step = crate::cursor::batch_step(
                state,
                read,
                crate::cursor::DecoderReply::Skipped { rows: read.request->Skip_rows },
            ).1;
            &&& !state.plan.pages[i].all_null
            &&& read.request is Skip
            &&& step is Ok && step->Ok_0 is Ask
            &&& step->Ok_0->Ask_read.request is Decode
        }),
{
    planned_statistics_are_the_columns_own(metadata, column, i);
    crate::cursor_laws::page_decides_how_it_is_delivered(state, target_row, max_rows, i);
    crate::page_laws::row_is_found_in_its_page(state.plan.pages, target_row as int, i);
}

} // verus!
