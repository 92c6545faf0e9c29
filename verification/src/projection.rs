//! The logical pages of the one leaf column that a projection selects from a file.

use crate::error::ForwardReadError;
use crate::footer::{
    lacks_statistics, loaded_column_index, loaded_offset_index, mask_of_leaves, page_span,
};
use crate::pages::{
    checked_plan_pages, PageSpan, PageStatistics, ParquetForwardPage, RowGroupPages,
};
use parquet::arrow::ProjectionMask;
use parquet::file::metadata::ParquetMetaData;
use parquet::file::page_index::column_index::ColumnIndexMetaData;
use parquet::file::page_index::offset_index::OffsetIndexMetaData;
use vstd::prelude::*;

verus! {

/// The page locations that a chunk's OffsetIndex entry holds.
pub open spec fn spans_in(index: OffsetIndexMetaData) -> Seq<PageSpan> {
    Seq::new(
        crate::footer::page_locations_in(index).len(),
        |page: int| crate::footer::span_of(crate::footer::page_locations_in(index)[page]),
    )
}

/// The page statistics that a chunk's ColumnIndex entry holds; `None` for the placeholder.
pub open spec fn statistics_in(index: ColumnIndexMetaData) -> Option<Seq<PageStatistics>> {
    if crate::footer::is_placeholder(index) {
        None
    } else {
        Some(
            Seq::new(
                crate::footer::indexed_pages(index) as usize as nat,
                |page: int|
                    PageStatistics {
                        is_null_page: crate::footer::indexed_null_page(index, page as usize),
                        null_count: crate::footer::indexed_null_count(index, page as usize),
                    },
            ),
        )
    }
}

/// The entry of a table at a row group and column, where it has one.
pub open spec fn entry_at<T>(table: Option<Seq<Seq<T>>>, row_group: int, column: int) -> Option<T> {
    match table {
        Some(rows) if row_group < rows.len() && column < rows[row_group].len() => Some(
            rows[row_group][column],
        ),
        _ => None,
    }
}

/// What the footer records of the chunks of leaf column `column`, row group by row group.
pub open spec fn column_chunks(metadata: ParquetMetaData, column: usize) -> Seq<
    crate::pages::ChunkPages,
> {
    Seq::new(
        crate::footer::row_groups_of(metadata).len(),
        |row_group: int|
            crate::pages::ChunkPages {
                num_rows: crate::footer::row_group_row_count(
                    crate::footer::row_groups_of(metadata)[row_group],
                ),
                locations: match entry_at(
                    crate::footer::offset_index_of(metadata),
                    row_group,
                    column as int,
                ) {
                    Some(index) => Some(spans_in(index)),
                    None => None,
                },
                statistics: match entry_at(
                    crate::footer::column_index_of(metadata),
                    row_group,
                    column as int,
                ) {
                    Some(index) => statistics_in(index),
                    None => None,
                },
            },
    )
}

/// Reads the page locations of an OffsetIndex entry.
fn read_spans(index: &OffsetIndexMetaData) -> (spans: Vec<PageSpan>)
    ensures
        spans@ == spans_in(*index),
{
    let locations = index.page_locations();
    let mut spans: Vec<PageSpan> = Vec::new();
    for page in 0..locations.len()
        invariant
            locations@ == crate::footer::page_locations_in(*index),
            spans@ == spans_in(*index).take(page as int),
    {
        spans.push(page_span(&locations[page]));
        assert(spans@ =~= spans_in(*index).take(page + 1));
    }
    assert(spans@ =~= spans_in(*index));
    spans
}

/// Reads the page statistics of a ColumnIndex entry.
fn read_statistics(index: &ColumnIndexMetaData) -> (statistics: Option<Vec<PageStatistics>>)
    ensures
        match statistics {
            Some(statistics) => statistics_in(*index) == Some(statistics@),
            None => statistics_in(*index) is None,
        },
{
    if lacks_statistics(index) {
        return None;
    }
    let pages = index.num_pages() as usize;
    let mut statistics: Vec<PageStatistics> = Vec::new();
    for page in 0..pages
        invariant
            !crate::footer::is_placeholder(*index),
            pages == crate::footer::indexed_pages(*index) as usize,
            statistics@ == statistics_in(*index)->0.take(page as int),
    {
        statistics.push(
            PageStatistics {
                is_null_page: index.is_null_page(page),
                null_count: index.null_count(page),
            },
        );
        assert(statistics@ =~= statistics_in(*index)->0.take(page + 1));
    }
    assert(statistics@ =~= statistics_in(*index)->0);
    Some(statistics)
}

/// Reads what the footer records of the chunks of leaf column `column`.
pub fn read_column_chunks(metadata: &ParquetMetaData, column: usize) -> (groups: Vec<RowGroupPages>)
    ensures
        crate::pages::chunks_of(groups@) == column_chunks(*metadata, column),
{
    let row_groups = metadata.row_groups();
    let offset_index = loaded_offset_index(metadata);
    let column_index = loaded_column_index(metadata);
    let mut groups: Vec<RowGroupPages> = Vec::new();
    for row_group in 0..row_groups.len()
        invariant
            row_groups@ == crate::footer::row_groups_of(*metadata),
            crate::footer::offset_index_of(*metadata) == (match offset_index {
                Some(index) => Some(crate::footer::rows_of(index@)),
                None => None,
            }),
            crate::footer::column_index_of(*metadata) == (match column_index {
                Some(index) => Some(crate::footer::rows_of(index@)),
                None => None,
            }),
            crate::pages::chunks_of(groups@) == column_chunks(*metadata, column).take(
                row_group as int,
            ),
    {
        let locations = match offset_index {
            Some(index) => if row_group < index.len() && column < index[row_group].len() {
                Some(read_spans(&index[row_group][column]))
            } else {
                None
            },
            None => None,
        };
        let statistics = match column_index {
            Some(index) => if row_group < index.len() && column < index[row_group].len() {
                read_statistics(&index[row_group][column])
            } else {
                None
            },
            None => None,
        };
        let ghost before = groups@;
        groups.push(
            RowGroupPages { num_rows: row_groups[row_group].num_rows(), locations, statistics },
        );
        proof {
            let chunk = column_chunks(*metadata, column)[row_group as int];
            assert(groups@.last()@.locations == chunk.locations);
            assert(groups@.last()@.statistics == chunk.statistics);
            assert(crate::pages::chunks_of(groups@) =~= crate::pages::chunks_of(before).push(
                groups@.last()@,
            ));
            assert(crate::pages::chunks_of(groups@) =~= column_chunks(*metadata, column).take(
                row_group + 1,
            ));
        }
    }
    assert(crate::pages::chunks_of(groups@) =~= column_chunks(*metadata, column));
    groups
}

/// The leaf columns of a file.
pub open spec fn schema_in(metadata: ParquetMetaData) -> parquet::schema::types::SchemaDescriptor {
    crate::footer::schema_of(crate::footer::file_metadata_of(metadata))
}

/// The number of leaf columns of a file.
pub open spec fn leaf_count(metadata: ParquetMetaData) -> nat {
    crate::footer::leaves_of(schema_in(metadata)).len()
}

/// Whether a mask says of each of a file's leaf columns if it is selected.
pub open spec fn mask_fits(mask: ProjectionMask, metadata: ParquetMetaData) -> bool {
    crate::footer::mask_flags(mask) matches Some(flags) ==> leaf_count(metadata) <= flags.len()
}

/// Whether a mask selects leaf column `leaf`.
pub open spec fn selects(mask: ProjectionMask, leaf: int) -> bool {
    match crate::footer::mask_flags(mask) {
        Some(flags) => flags[leaf],
        None => true,
    }
}

/// The selected ones among the first `count` leaf columns, in order.
pub open spec fn selected_leaves(mask: ProjectionMask, count: int) -> Seq<usize>
    decreases count,
{
    if count <= 0 {
        Seq::empty()
    } else if selects(mask, count - 1) {
        selected_leaves(mask, count - 1).push((count - 1) as usize)
    } else {
        selected_leaves(mask, count - 1)
    }
}

/// Whether a leaf column belongs to a repeated field.
pub open spec fn is_repeated_leaf(metadata: ParquetMetaData, leaf: usize) -> bool {
    crate::footer::repetition_level(
        *crate::footer::leaves_of(schema_in(metadata))[leaf as int],
    ) > 0
}

/// The leaf column that a projection plans pages for.
pub struct LeafPlan {
    pub leaf_column: usize,
    pub repeated: bool,
    pub pages: Seq<ParquetForwardPage>,
}

/// The pages of the one leaf column that the mask selects, or why there are none.
pub open spec fn projected(metadata: ParquetMetaData, mask: ProjectionMask) -> Result<
    LeafPlan,
    ForwardReadError,
> {
    let leaves = selected_leaves(mask, leaf_count(metadata) as int);
    if leaves.len() != 1 {
        Err(ForwardReadError::ProjectedColumnCount { count: leaves.len() as usize })
    } else if crate::footer::offset_index_of(metadata) is None {
        Err(ForwardReadError::NoOffsetIndex)
    } else {
        let leaf_column = leaves[0];
        let repeated = is_repeated_leaf(metadata, leaf_column);
        match planned_column(metadata, leaf_column, repeated) {
            Ok(pages) => Ok(LeafPlan { leaf_column, repeated, pages }),
            Err(fault) => Err(fault),
        }
    }
}

/// The pages of leaf column `column`, or why there are none.
pub open spec fn planned_column(metadata: ParquetMetaData, column: usize, repeated: bool) -> Result<
    Seq<ParquetForwardPage>,
    ForwardReadError,
> {
    crate::pages::planned(
        column_chunks(metadata, column),
        column,
        repeated,
        column_chunks(metadata, column).len() as int,
    )
}

/// Whether every row that the projection can plan has a `usize` index.
pub open spec fn projection_addressable(metadata: ParquetMetaData, mask: ProjectionMask) -> bool {
    let leaves = selected_leaves(mask, leaf_count(metadata) as int);
    leaves.len() == 1 && crate::footer::offset_index_of(metadata) is Some
        ==> crate::pages::rows_addressable(
        column_chunks(metadata, leaves[0]),
        leaves[0],
        is_repeated_leaf(metadata, leaves[0]),
    )
}

/// The planned pages of one projected leaf column.
#[derive(Debug)]
pub struct ProjectedPages {
    leaf_column: usize,
    repeated: bool,
    pages: Vec<ParquetForwardPage>,
}

impl View for ProjectedPages {
    type V = LeafPlan;

    closed spec fn view(&self) -> LeafPlan {
        LeafPlan { leaf_column: self.leaf_column, repeated: self.repeated, pages: self.pages@ }
    }
}

impl ProjectedPages {
    /// The pages are not empty, do not overlap, and come in row order.
    #[verifier::type_invariant]
    pub closed spec fn in_order(self) -> bool {
        crate::pages::pages_in_order(self.pages@, usize::MAX as int)
    }

    /// Plans the pages of leaf column `leaf_column` from what the footer records of its chunks.
    ///
    /// Returns `None` where a row that can be planned has no `usize` index.
    pub fn from_row_groups(leaf_column: usize, repeated: bool, groups: &Vec<RowGroupPages>) -> (plan:
        Option<Result<ProjectedPages, ForwardReadError>>)
        ensures
            plan is Some <==> crate::pages::rows_addressable(
                crate::pages::chunks_of(groups@),
                leaf_column,
                repeated,
            ),
            plan matches Some(Ok(plan)) ==> plan@.leaf_column == leaf_column && plan@.repeated
                == repeated && crate::pages::planned(
                crate::pages::chunks_of(groups@),
                leaf_column,
                repeated,
                groups@.len() as int,
            ) == Ok::<Seq<ParquetForwardPage>, ForwardReadError>(plan@.pages),
            plan matches Some(Err(fault)) ==> crate::pages::planned(
                crate::pages::chunks_of(groups@),
                leaf_column,
                repeated,
                groups@.len() as int,
            ) == Err::<Seq<ParquetForwardPage>, ForwardReadError>(fault),
    {
        match checked_plan_pages(leaf_column, repeated, groups) {
            Some(Ok(pages)) => {
                proof {
                    crate::pages::planned_pages_in_order(
                        crate::pages::chunks_of(groups@),
                        leaf_column,
                        repeated,
                        groups@.len() as int,
                    );
                }
                Some(Ok(ProjectedPages { leaf_column, repeated, pages }))
            },
            Some(Err(fault)) => Some(Err(fault)),
            None => None,
        }
    }

    /// The projected leaf column.
    pub fn leaf_column(&self) -> (column: usize)
        ensures
            column == self@.leaf_column,
    {
        self.leaf_column
    }

    /// Whether the projected leaf column belongs to a repeated field.
    pub fn is_repeated(&self) -> (repeated: bool)
        ensures
            repeated == self@.repeated,
    {
        self.repeated
    }

    /// The planned pages, in row order.
    pub fn pages(&self) -> (pages: &Vec<ParquetForwardPage>)
        ensures
            pages@ == self@.pages,
            crate::pages::pages_in_order(pages@, usize::MAX as int),
    {
        proof {
            use_type_invariant(self);
        }
        &self.pages
    }

    /// The page that holds `row`.
    pub fn page_at(&self, row: usize) -> (page: Result<&ParquetForwardPage, ForwardReadError>)
        ensures
            match page {
                Ok(page) => crate::pages::page_of(self@.pages, row as int) == Some(*page)
                    && crate::pages::holds_row(*page, row as int) && crate::pages::end_of(*page)
                    <= usize::MAX,
                Err(fault) => crate::pages::page_of(self@.pages, row as int) is None && fault == (
                ForwardReadError::RowNotIndexed { row }),
            },
    {
        proof {
            use_type_invariant(self);
        }
        let mut low: usize = 0;
        let mut high = self.pages.len();
        while low < high
            invariant
                crate::pages::pages_in_order(self.pages@, usize::MAX as int),
                low <= high <= self.pages@.len(),
                forall|i: int| 0 <= i < low ==> crate::pages::end_of(#[trigger] self.pages@[i]) <= row,
                forall|i: int|
                    high <= i < self.pages@.len() ==> row < crate::pages::end_of(
                        #[trigger] self.pages@[i],
                    ),
            decreases high - low,
        {
            let middle = low + (high - low) / 2;
            let page = &self.pages[middle];
            if page.first_row + page.row_count <= row {
                low = middle + 1;
            } else {
                high = middle;
            }
        }
        if low < self.pages.len() && self.pages[low].first_row <= row {
            proof {
                crate::pages::one_page_holds_row(
                    self.pages@,
                    usize::MAX as int,
                    row as int,
                    low as int,
                );
            }
            Ok(&self.pages[low])
        } else {
            proof {
                assert forall|i: int| 0 <= i < self.pages@.len() implies !crate::pages::holds_row(
                    #[trigger] self.pages@[i],
                    row as int,
                ) by {
                    if low < i {
                        assert(crate::pages::end_of(self.pages@[low as int])
                            <= self.pages@[i].first_row);
                    }
                }
            }
            Err(ForwardReadError::RowNotIndexed { row })
        }
    }
}

/// Plans the pages of the one leaf column that `projection` selects.
///
/// The projection must select exactly one leaf column, and that column must have an OffsetIndex
/// for every non-empty row group.
///
/// Returns `None` where a row that can be planned has no `usize` index.
pub fn checked_projected_pages(metadata: &ParquetMetaData, projection: &ProjectionMask) -> (plan:
    Option<Result<ProjectedPages, ForwardReadError>>)
    requires
        mask_fits(*projection, *metadata),
    ensures
        plan is Some <==> projection_addressable(*metadata, *projection),
        plan matches Some(Ok(plan)) ==> projected(*metadata, *projection) == Ok::<
            LeafPlan,
            ForwardReadError,
        >(plan@),
        plan matches Some(Err(fault)) ==> projected(*metadata, *projection) == Err::<
            LeafPlan,
            ForwardReadError,
        >(fault),
{
    let schema = metadata.file_metadata().schema_descr();
    let columns = schema.num_columns();
    let mut leaves: Vec<usize> = Vec::new();
    for leaf in 0..columns
        invariant
            mask_fits(*projection, *metadata),
            columns == leaf_count(*metadata),
            leaves@ == selected_leaves(*projection, leaf as int),
    {
        if projection.leaf_included(leaf) {
            leaves.push(leaf);
        }
    }
    if leaves.len() != 1 {
        return Some(Err(ForwardReadError::ProjectedColumnCount { count: leaves.len() }));
    }
    let leaf_column = leaves[0];
    proof {
        lemma_selected_leaves(*projection, columns as int, 0);
    }
    let repeated = schema.column(leaf_column).max_rep_level() > 0;
    if loaded_offset_index(metadata).is_none() {
        return Some(Err(ForwardReadError::NoOffsetIndex));
    }
    let groups = read_column_chunks(metadata, leaf_column);
    assert(groups@.len() == crate::pages::chunks_of(groups@).len());
    ProjectedPages::from_row_groups(leaf_column, repeated, &groups)
}

/// A selected leaf column is one of the leaf columns.
proof fn lemma_selected_leaves(mask: ProjectionMask, count: int, i: int)
    requires
        0 <= i < selected_leaves(mask, count).len(),
        count <= usize::MAX,
    ensures
        0 <= selected_leaves(mask, count)[i] < count,
        selects(mask, selected_leaves(mask, count)[i] as int),
    decreases count,
{
    if i < selected_leaves(mask, count - 1).len() {
        lemma_selected_leaves(mask, count - 1, i);
    }
}

/// Plans the pages of the one leaf column that `projection` selects, in a file whose rows all
/// have `usize` indexes; see [`checked_projected_pages`].
pub fn projected_pages(metadata: &ParquetMetaData, projection: &ProjectionMask) -> (plan: Result<
    ProjectedPages,
    ForwardReadError,
>)
    requires
        mask_fits(*projection, *metadata),
        projection_addressable(*metadata, *projection),
    ensures
        match plan {
            Ok(plan) => projected(*metadata, *projection) == Ok::<LeafPlan, ForwardReadError>(plan@),
            Err(fault) => projected(*metadata, *projection) == Err::<LeafPlan, ForwardReadError>(
                fault,
            ),
        },
{
    match checked_projected_pages(metadata, projection) {
        Some(plan) => plan,
        None => vstd::pervasive::unreached(),
    }
}

/// Makes the mask that selects the given leaf columns of a file, or returns `None` where one of
/// them is out of range.
pub fn select_leaves(metadata: &ParquetMetaData, leaves: Vec<usize>) -> (mask: Option<
    ProjectionMask,
>)
    ensures
        mask is Some <==> forall|i: int|
            0 <= i < leaves@.len() ==> #[trigger] leaves@[i] < leaf_count(*metadata),
        mask matches Some(mask) ==> {
            &&& mask_fits(mask, *metadata)
            &&& forall|leaf: int|
                0 <= leaf < leaf_count(*metadata) ==> (#[trigger] selects(mask, leaf)
                    <==> leaves@.contains(leaf as usize))
        },
{
    let schema = metadata.file_metadata().schema_descr();
    let columns = schema.num_columns();
    for i in 0..leaves.len()
        invariant
            columns == leaf_count(*metadata),
            forall|j: int| 0 <= j < i ==> #[trigger] leaves@[j] < leaf_count(*metadata),
    {
        if leaves[i] >= columns {
            return None;
        }
    }
    Some(mask_of_leaves(schema, leaves))
}

} // verus!
