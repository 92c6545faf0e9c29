//! The logical pages of one projected leaf column, planned from its OffsetIndex.

use crate::error::ForwardReadError;
use vstd::prelude::*;

verus! {

/// OffsetIndex and ColumnIndex information for one projected data page.
#[derive(Debug, Clone, Copy, PartialEq, Eq, Structural)]
pub struct ParquetForwardPage {
    pub row_group_index: usize,
    pub page_index: usize,
    pub first_row: usize,
    pub row_count: usize,
    pub file_offset: i64,
    pub compressed_size: i32,
    pub null_count: Option<i64>,
    pub all_null: bool,
}

/// Where one data page lies in the file, and which row of its row group it starts at.
#[derive(Debug, Clone, Copy, PartialEq, Eq, Structural)]
pub struct PageSpan {
    pub offset: i64,
    pub compressed_page_size: i32,
    pub first_row_index: i64,
}

/// What the ColumnIndex records of the nulls in one data page.
#[derive(Debug, Clone, Copy, PartialEq, Eq, Structural)]
pub struct PageStatistics {
    pub is_null_page: bool,
    pub null_count: Option<i64>,
}

/// What the footer records of one row group's chunk of the projected column.
#[derive(Debug)]
pub struct RowGroupPages {
    /// The row group's row count.
    pub num_rows: i64,
    /// The chunk's page locations, where the OffsetIndex has an entry for it.
    pub locations: Option<Vec<PageSpan>>,
    /// The chunk's page statistics, where the ColumnIndex has an entry for it.
    pub statistics: Option<Vec<PageStatistics>>,
}

/// The mathematical value of a [`RowGroupPages`].
pub struct ChunkPages {
    pub num_rows: i64,
    pub locations: Option<Seq<PageSpan>>,
    pub statistics: Option<Seq<PageStatistics>>,
}

impl View for RowGroupPages {
    type V = ChunkPages;

    open spec fn view(&self) -> ChunkPages {
        ChunkPages {
            num_rows: self.num_rows,
            locations: match self.locations {
                Some(locations) => Some(locations@),
                None => None,
            },
            statistics: match self.statistics {
                Some(statistics) => Some(statistics@),
                None => None,
            },
        }
    }
}

/// The mathematical values of a sequence of row groups.
pub open spec fn chunks_of(groups: Seq<RowGroupPages>) -> Seq<ChunkPages> {
    groups.map_values(|group: RowGroupPages| group@)
}

/// Whether `value` can be a `usize`.
pub open spec fn is_usize(value: int) -> bool {
    0 <= value <= usize::MAX
}

impl ChunkPages {
    /// The row of the row group at which page `page` starts.
    pub open spec fn page_start(self, page: int) -> int {
        self.locations->0[page].first_row_index as int
    }

    /// The row of the row group at which page `page` ends: where the next page starts, and for
    /// the last page the end of the row group.
    pub open spec fn page_end(self, page: int) -> int {
        if page + 1 < self.locations->0.len() {
            self.page_start(page + 1)
        } else {
            self.num_rows as int
        }
    }

    /// The statistics of page `page`, where the ColumnIndex has some.
    pub open spec fn page_statistics(self, page: int) -> Option<PageStatistics> {
        match self.statistics {
            Some(statistics) if page < statistics.len() => Some(statistics[page]),
            _ => None,
        }
    }

    /// The null count of page `page`, where the ColumnIndex has one.
    pub open spec fn page_null_count(self, page: int) -> Option<i64> {
        match self.page_statistics(page) {
            Some(statistics) => statistics.null_count,
            None => None,
        }
    }

    /// Whether page `page` holds nulls only: it is marked as a null page, or its null count is
    /// its row count.
    pub open spec fn page_is_all_null(self, page: int) -> bool {
        ||| self.page_statistics(page) matches Some(statistics) && statistics.is_null_page
        ||| self.page_null_count(page) matches Some(count) && count == self.page_end(page)
            - self.page_start(page)
    }

    /// What is wrong with the rows that the OffsetIndex gives page `page`, if anything is.
    pub open spec fn page_fault(self, row_group: int, page: int) -> Option<ForwardReadError> {
        let start = self.page_start(page);
        let end = self.page_end(page);
        if !is_usize(start) {
            Some(
                ForwardReadError::PageFirstRow {
                    row_group: row_group as usize,
                    page: page as usize,
                },
            )
        } else if !is_usize(end) {
            Some(
                ForwardReadError::PageFirstRow {
                    row_group: row_group as usize,
                    page: (page + 1) as usize,
                },
            )
        } else if start >= end || end > self.num_rows {
            Some(
                ForwardReadError::PageRowRange {
                    first_row: start as usize,
                    end_row: end as usize,
                    row_group: row_group as usize,
                },
            )
        } else {
            None
        }
    }

    /// The logical page for data page `page`, in a row group that starts at file row `base`.
    pub open spec fn page(self, row_group: int, base: int, page: int) -> ParquetForwardPage {
        ParquetForwardPage {
            row_group_index: row_group as usize,
            page_index: page as usize,
            first_row: (base + self.page_start(page)) as usize,
            row_count: (self.page_end(page) - self.page_start(page)) as usize,
            file_offset: self.locations->0[page].offset,
            compressed_size: self.locations->0[page].compressed_page_size,
            null_count: self.page_null_count(page),
            all_null: self.page_is_all_null(page),
        }
    }

    /// The logical pages for the first `count` data pages, or the first of their faults.
    pub open spec fn pages(self, row_group: int, base: int, count: int) -> Result<
        Seq<ParquetForwardPage>,
        ForwardReadError,
    >
        decreases count,
    {
        if count <= 0 {
            Ok(Seq::empty())
        } else {
            match self.pages(row_group, base, count - 1) {
                Err(fault) => Err(fault),
                Ok(pages) => match self.page_fault(row_group, count - 1) {
                    Some(fault) => Err(fault),
                    None => Ok(pages.push(self.page(row_group, base, count - 1))),
                },
            }
        }
    }

    /// The one logical page that stands for a whole row group of a repeated column.
    pub open spec fn whole_group(self, row_group: int, base: int) -> ParquetForwardPage {
        ParquetForwardPage {
            row_group_index: row_group as usize,
            page_index: 0,
            first_row: base as usize,
            row_count: self.num_rows as usize,
            file_offset: self.locations->0[0].offset,
            compressed_size: saturated_size(self.locations->0),
            null_count: None,
            all_null: false,
        }
    }

    /// The logical pages of the row group, or why it has none.
    pub open spec fn plan(
        self,
        row_group: int,
        column: usize,
        repeated: bool,
        base: int,
    ) -> Result<Seq<ParquetForwardPage>, ForwardReadError> {
        if !is_usize(self.num_rows as int) {
            Err(ForwardReadError::RowGroupRowCount { row_group: row_group as usize })
        } else if self.num_rows == 0 {
            Ok(Seq::empty())
        } else if self.locations is None || self.locations->0.len() == 0 {
            Err(ForwardReadError::ChunkOffsetIndex { row_group: row_group as usize, column })
        } else if repeated {
            Ok(seq![self.whole_group(row_group, base)])
        } else {
            self.pages(row_group, base, self.locations->0.len() as int)
        }
    }
}

/// The sum of the pages' compressed sizes, if no partial sum leaves the range of `i64`.
pub open spec fn total_size(locations: Seq<PageSpan>) -> Option<int>
    decreases locations.len(),
{
    if locations.len() == 0 {
        Some(0)
    } else {
        match total_size(locations.drop_last()) {
            Some(total) if i64::MIN <= total + locations.last().compressed_page_size
                <= i64::MAX => Some(total + locations.last().compressed_page_size),
            _ => None,
        }
    }
}

/// The sum of the pages' compressed sizes, or `i32::MAX` where that does not fit in `i32`.
pub open spec fn saturated_size(locations: Seq<PageSpan>) -> i32 {
    match total_size(locations) {
        Some(total) if i32::MIN <= total <= i32::MAX => total as i32,
        _ => i32::MAX,
    }
}

/// The number of rows in the first `count` row groups.
pub open spec fn rows_before(chunks: Seq<ChunkPages>, count: int) -> int
    decreases count,
{
    if count <= 0 {
        0
    } else {
        rows_before(chunks, count - 1) + chunks[count - 1].num_rows
    }
}

/// The logical pages of the first `count` row groups, in file order, or the first fault.
pub open spec fn planned(
    chunks: Seq<ChunkPages>,
    column: usize,
    repeated: bool,
    count: int,
) -> Result<Seq<ParquetForwardPage>, ForwardReadError>
    decreases count,
{
    if count <= 0 {
        Ok(Seq::empty())
    } else {
        match planned(chunks, column, repeated, count - 1) {
            Err(fault) => Err(fault),
            Ok(pages) => match chunks[count - 1].plan(
                count - 1,
                column,
                repeated,
                rows_before(chunks, count - 1),
            ) {
                Err(fault) => Err(fault),
                Ok(more) => Ok(pages + more),
            },
        }
    }
}

/// Whether every row of the row groups that can be planned has a `usize` index.
pub open spec fn rows_addressable(chunks: Seq<ChunkPages>, column: usize, repeated: bool) -> bool {
    forall|count: int|
        0 <= count <= chunks.len() && (#[trigger] planned(chunks, column, repeated, count)) is Ok
            ==> rows_before(chunks, count) <= usize::MAX
}

/// Converts a row count or row index of the footer.
pub(crate) fn to_usize(value: i64) -> (converted: Option<usize>)
    ensures
        converted is Some <==> is_usize(value as int),
        converted matches Some(converted) ==> converted == value,
{
    if value < 0 {
        return None;
    }
    let wide = value as u64;
    if wide > usize::MAX as u64 {
        None
    } else {
        Some(wide as usize)
    }
}

/// Adds up the compressed sizes of a chunk's pages.
fn chunk_size(locations: &Vec<PageSpan>) -> (size: i32)
    ensures
        size == saturated_size(locations@),
{
    let mut total: Option<i64> = Some(0);
    for i in 0..locations.len()
        invariant
            total_size(locations@.take(i as int)) == (match total {
                Some(total) => Some(total as int),
                None => None,
            }),
    {
        assert(locations@.take(i + 1).drop_last() =~= locations@.take(i as int));
        total =
        match total {
            Some(total) => total.checked_add(locations[i].compressed_page_size as i64),
            None => None,
        };
    }
    assert(locations@.take(locations@.len() as int) =~= locations@);
    match total {
        Some(total) => if i32::MIN as i64 <= total && total <= i32::MAX as i64 {
            total as i32
        } else {
            i32::MAX
        },
        None => i32::MAX,
    }
}

/// Where the first `count` pages have no fault, none of them has one.
pub(crate) proof fn lemma_planned_pages(chunk: ChunkPages, row_group: int, base: int, count: int)
    requires
        0 <= count,
        chunk.pages(row_group, base, count) is Ok,
    ensures
        chunk.pages(row_group, base, count)->Ok_0.len() == count,
        forall|page: int|
            0 <= page < count ==> {
                &&& (#[trigger] chunk.page_fault(row_group, page)) is None
                &&& chunk.pages(row_group, base, count)->Ok_0[page] == chunk.page(
                    row_group,
                    base,
                    page,
                )
            },
    decreases count,
{
    if count > 0 {
        lemma_planned_pages(chunk, row_group, base, count - 1);
    }
}

/// A fault among the first pages is the fault of the whole chunk.
proof fn lemma_fault_stays(chunk: ChunkPages, row_group: int, base: int, count: int, total: int)
    requires
        count <= total,
        chunk.pages(row_group, base, count) is Err,
    ensures
        chunk.pages(row_group, base, total) == chunk.pages(row_group, base, count),
    decreases total,
{
    if count < total {
        lemma_fault_stays(chunk, row_group, base, count, total - 1);
    }
}

/// The rows of page `page`, or what is wrong with them.
fn page_rows(
    row_group: usize,
    num_rows: usize,
    locations: &Vec<PageSpan>,
    page: usize,
    chunk: Ghost<ChunkPages>,
) -> (rows: Result<(usize, usize), ForwardReadError>)
    requires
        page < locations@.len(),
        chunk@.locations == Some(locations@),
        chunk@.num_rows == num_rows,
    ensures
        match rows {
            Ok((start, end)) => chunk@.page_fault(row_group as int, page as int) is None && start
                == chunk@.page_start(page as int) && end == chunk@.page_end(page as int),
            Err(fault) => chunk@.page_fault(row_group as int, page as int) == Some(fault),
        },
{
    let count = locations.len();
    let start = match to_usize(locations[page].first_row_index) {
        Some(start) => start,
        None => return Err(ForwardReadError::PageFirstRow { row_group, page }),
    };
    let end = if page + 1 < count {
        match to_usize(locations[page + 1].first_row_index) {
            Some(end) => end,
            None => return Err(ForwardReadError::PageFirstRow { row_group, page: page + 1 }),
        }
    } else {
        num_rows
    };
    if start >= end || end > num_rows {
        return Err(ForwardReadError::PageRowRange { first_row: start, end_row: end, row_group });
    }
    Ok((start, end))
}

/// The first fault among a chunk's pages, wherever its row group starts.
fn first_fault(
    row_group: usize,
    num_rows: usize,
    locations: &Vec<PageSpan>,
    chunk: Ghost<ChunkPages>,
    base: Ghost<int>,
) -> (fault: Option<ForwardReadError>)
    requires
        chunk@.locations == Some(locations@),
        chunk@.num_rows == num_rows,
    ensures
        match fault {
            Some(fault) => chunk@.pages(row_group as int, base@, locations@.len() as int) == Err::<
                Seq<ParquetForwardPage>,
                ForwardReadError,
            >(fault),
            None => chunk@.pages(row_group as int, base@, locations@.len() as int) is Ok,
        },
{
    for page in 0..locations.len()
        invariant
            chunk@.locations == Some(locations@),
            chunk@.num_rows == num_rows,
            chunk@.pages(row_group as int, base@, page as int) is Ok,
    {
        if let Err(fault) = page_rows(row_group, num_rows, locations, page, chunk) {
            proof {
                lemma_fault_stays(
                    chunk@,
                    row_group as int,
                    base@,
                    page + 1,
                    locations@.len() as int,
                );
            }
            return Some(fault);
        }
    }
    None
}

/// Appends the logical pages of a chunk whose pages have no fault.
fn push_pages(
    row_group: usize,
    base: usize,
    num_rows: usize,
    locations: &Vec<PageSpan>,
    group: &RowGroupPages,
    pages: &mut Vec<ParquetForwardPage>,
)
    requires
        group@.locations == Some(locations@),
        group@.num_rows == num_rows,
        base + num_rows <= usize::MAX,
        group@.pages(row_group as int, base as int, locations@.len() as int) is Ok,
    ensures
        final(pages)@ == old(pages)@ + group@.pages(
            row_group as int,
            base as int,
            locations@.len() as int,
        )->Ok_0,
{
    let ghost before = pages@;
    let ghost all = group@.pages(row_group as int, base as int, locations@.len() as int)->Ok_0;
    proof {
        lemma_planned_pages(group@, row_group as int, base as int, locations@.len() as int);
    }
    for page in 0..locations.len()
        invariant
            group@.locations == Some(locations@),
            group@.num_rows == num_rows,
            base + num_rows <= usize::MAX,
            all.len() == locations@.len(),
            forall|i: int|
                0 <= i < all.len() ==> {
                    &&& (#[trigger] group@.page_fault(row_group as int, i)) is None
                    &&& all[i] == group@.page(row_group as int, base as int, i)
                },
            pages@ == before + all.take(page as int),
    {
        assert(group@.page_fault(row_group as int, page as int) is None);
        if let Ok((start, end)) = page_rows(row_group, num_rows, locations, page, Ghost(group@)) {
            let statistics = match &group.statistics {
                Some(statistics) => if page < statistics.len() {
                    Some(statistics[page])
                } else {
                    None
                },
                None => None,
            };
            let null_count = match statistics {
                Some(statistics) => statistics.null_count,
                None => None,
            };
            let marked_null = match statistics {
                Some(statistics) => statistics.is_null_page,
                None => false,
            };
            let counted_null = match null_count {
                Some(count) => count == (end - start) as i64,
                None => false,
            };
            pages.push(
                ParquetForwardPage {
                    row_group_index: row_group,
                    page_index: page,
                    first_row: base + start,
                    row_count: end - start,
                    file_offset: locations[page].offset,
                    compressed_size: locations[page].compressed_page_size,
                    null_count,
                    all_null: marked_null || counted_null,
                },
            );
            assert(pages@.last() == all[page as int]);
            assert(pages@ =~= before + all.take(page + 1));
        }
    }
    assert(all.take(locations@.len() as int) =~= all);
}

/// Appends the logical pages of one row group that starts at file row `base`, and returns the
/// row at which the next row group starts, or `None` where that has no `usize` index.
fn plan_group(
    row_group: usize,
    column: usize,
    repeated: bool,
    group: &RowGroupPages,
    base: usize,
    pages: &mut Vec<ParquetForwardPage>,
) -> (next: Option<Result<usize, ForwardReadError>>)
    ensures
        match next {
            Some(Ok(next)) => {
                &&& group@.plan(row_group as int, column, repeated, base as int) is Ok
                &&& final(pages)@ == old(pages)@ + group@.plan(
                    row_group as int,
                    column,
                    repeated,
                    base as int,
                )->Ok_0
                &&& next == base + group.num_rows
            },
            Some(Err(fault)) => group@.plan(row_group as int, column, repeated, base as int)
                == Err::<Seq<ParquetForwardPage>, ForwardReadError>(fault),
            None => group@.plan(row_group as int, column, repeated, base as int) is Ok && base
                + group.num_rows > usize::MAX,
        },
{
    let num_rows = match to_usize(group.num_rows) {
        Some(num_rows) => num_rows,
        None => return Some(Err(ForwardReadError::RowGroupRowCount { row_group })),
    };
    if num_rows == 0 {
        assert(pages@ =~= old(pages)@ + Seq::<ParquetForwardPage>::empty());
        return Some(Ok(base));
    }
    let locations = match &group.locations {
        Some(locations) => locations,
        None => return Some(Err(ForwardReadError::ChunkOffsetIndex { row_group, column })),
    };
    if locations.len() == 0 {
        return Some(Err(ForwardReadError::ChunkOffsetIndex { row_group, column }));
    }
    if repeated {
        let next = match base.checked_add(num_rows) {
            Some(next) => next,
            None => return None,
        };
        pages.push(
            ParquetForwardPage {
                row_group_index: row_group,
                page_index: 0,
                first_row: base,
                row_count: num_rows,
                file_offset: locations[0].offset,
                compressed_size: chunk_size(locations),
                null_count: None,
                all_null: false,
            },
        );
        assert(pages@ =~= old(pages)@ + seq![group@.whole_group(row_group as int, base as int)]);
        return Some(Ok(next));
    }
    if let Some(fault) = first_fault(
        row_group,
        num_rows,
        locations,
        Ghost(group@),
        Ghost(base as int),
    ) {
        return Some(Err(fault));
    }
    let next = match base.checked_add(num_rows) {
        Some(next) => next,
        None => return None,
    };
    push_pages(row_group, base, num_rows, locations, group, pages);
    Some(Ok(next))
}

/// A fault among the first row groups is the fault of the whole file.
proof fn lemma_group_fault_stays(
    chunks: Seq<ChunkPages>,
    column: usize,
    repeated: bool,
    count: int,
    total: int,
)
    requires
        count <= total,
        planned(chunks, column, repeated, count) is Err,
    ensures
        planned(chunks, column, repeated, total) == planned(chunks, column, repeated, count),
    decreases total,
{
    if count < total {
        lemma_group_fault_stays(chunks, column, repeated, count, total - 1);
    }
}

/// Plans the logical pages of one projected leaf column, row group by row group.
///
/// Repeated values can span data-page boundaries, and consecutive page locations may therefore
/// name the same first row. A repeated column gets one page per row group instead of pretending
/// that page boundaries are record boundaries.
///
/// Returns `None` where a row that can be planned has no `usize` index.
pub fn checked_plan_pages(column: usize, repeated: bool, groups: &Vec<RowGroupPages>) -> (plan:
    Option<Result<Vec<ParquetForwardPage>, ForwardReadError>>)
    ensures
        plan is Some <==> rows_addressable(chunks_of(groups@), column, repeated),
        plan matches Some(Ok(pages)) ==> planned(
            chunks_of(groups@),
            column,
            repeated,
            groups@.len() as int,
        ) == Ok::<Seq<ParquetForwardPage>, ForwardReadError>(pages@),
        plan matches Some(Err(fault)) ==> planned(
            chunks_of(groups@),
            column,
            repeated,
            groups@.len() as int,
        ) == Err::<Seq<ParquetForwardPage>, ForwardReadError>(fault),
{
    let ghost chunks = chunks_of(groups@);
    let mut pages: Vec<ParquetForwardPage> = Vec::new();
    let mut base: usize = 0;
    for row_group in 0..groups.len()
        invariant
            chunks == chunks_of(groups@),
            planned(chunks, column, repeated, row_group as int) == Ok::<
                Seq<ParquetForwardPage>,
                ForwardReadError,
            >(pages@),
            base == rows_before(chunks, row_group as int),
            forall|count: int|
                0 <= count <= row_group && (#[trigger] planned(chunks, column, repeated, count)) is Ok
                    ==> rows_before(chunks, count) <= usize::MAX,
    {
        let group = &groups[row_group];
        assert(chunks[row_group as int] == group@);
        match plan_group(row_group, column, repeated, group, base, &mut pages) {
            Some(Ok(next)) => {
                base = next;
            },
            Some(Err(fault)) => {
                proof {
                    assert(planned(chunks, column, repeated, row_group + 1) is Err);
                    assert forall|count: int|
                        0 <= count <= chunks.len() && (#[trigger] planned(
                            chunks,
                            column,
                            repeated,
                            count,
                        )) is Ok implies rows_before(chunks, count) <= usize::MAX by {
                        if count > row_group {
                            lemma_group_fault_stays(chunks, column, repeated, row_group + 1, count);
                        }
                    }
                    lemma_group_fault_stays(
                        chunks,
                        column,
                        repeated,
                        row_group + 1,
                        chunks.len() as int,
                    );
                }
                return Some(Err(fault));
            },
            None => {
                assert(planned(chunks, column, repeated, row_group + 1) is Ok);
                return None;
            },
        }
    }
    Some(Ok(pages))
}

/// The row behind the last row of `page`.
pub open spec fn end_of(page: ParquetForwardPage) -> int {
    page.first_row + page.row_count
}

/// Whether `page` holds file row `row`.
pub open spec fn holds_row(page: ParquetForwardPage, row: int) -> bool {
    page.first_row <= row < end_of(page)
}

/// Whether the pages are non-empty, lie before file row `rows`, and follow each other without
/// overlapping.
pub open spec fn pages_in_order(pages: Seq<ParquetForwardPage>, rows: int) -> bool {
    &&& forall|i: int|
        0 <= i < pages.len() ==> 0 < (#[trigger] pages[i]).row_count && end_of(pages[i]) <= rows
    &&& forall|i: int, j: int|
        0 <= i < j < pages.len() ==> end_of(#[trigger] pages[i]) <= (#[trigger] pages[j]).first_row
}

/// The pages of one row group follow each other within the row group, and each ends where the
/// next one starts.
proof fn lemma_chunk_in_order(
    chunk: ChunkPages,
    row_group: int,
    column: usize,
    repeated: bool,
    base: int,
)
    requires
        0 <= base,
        base + chunk.num_rows <= usize::MAX,
        chunk.plan(row_group, column, repeated, base) is Ok,
    ensures
        chunk.num_rows >= 0,
        pages_in_order(
            chunk.plan(row_group, column, repeated, base)->Ok_0,
            base + chunk.num_rows,
        ),
        forall|i: int|
            0 <= i < chunk.plan(row_group, column, repeated, base)->Ok_0.len() ==> base <= (
            #[trigger] chunk.plan(row_group, column, repeated, base)->Ok_0[i]).first_row,
{
    let pages = chunk.plan(row_group, column, repeated, base)->Ok_0;
    if chunk.num_rows > 0 && !repeated {
        let count = chunk.locations->0.len() as int;
        lemma_planned_pages(chunk, row_group, base, count);
        assert forall|i: int| 0 <= i < pages.len() implies {
            &&& 0 < (#[trigger] pages[i]).row_count
            &&& pages[i].first_row == base + chunk.page_start(i)
            &&& end_of(pages[i]) == base + chunk.page_end(i)
            &&& end_of(pages[i]) <= base + chunk.num_rows
        } by {
            assert(chunk.page_fault(row_group, i) is None);
        }
        assert forall|i: int, j: int| 0 <= i < j < pages.len() implies end_of(#[trigger] pages[i])
            <= (#[trigger] pages[j]).first_row by {
            lemma_starts_ascend(chunk, row_group, i + 1, j);
        }
        assert forall|i: int| 0 <= i < pages.len() implies base <= (#[trigger] pages[i]).first_row by {
            assert(chunk.page_fault(row_group, i) is None);
        }
    }
}

/// The pages of a chunk without faults start at ascending rows.
proof fn lemma_starts_ascend(chunk: ChunkPages, row_group: int, i: int, j: int)
    requires
        0 <= i <= j < chunk.locations->0.len(),
        forall|page: int|
            0 <= page < chunk.locations->0.len() ==> (#[trigger] chunk.page_fault(row_group, page)) is None,
    ensures
        chunk.page_start(i) <= chunk.page_start(j),
    decreases j - i,
{
    if i < j {
        assert(chunk.page_fault(row_group, i) is None);
        lemma_starts_ascend(chunk, row_group, i + 1, j);
    }
}

/// Planned pages are never empty, never overlap, and come in row order.
pub proof fn planned_pages_in_order(
    chunks: Seq<ChunkPages>,
    column: usize,
    repeated: bool,
    count: int,
)
    requires
        0 <= count <= chunks.len(),
        rows_addressable(chunks, column, repeated),
        planned(chunks, column, repeated, count) is Ok,
    ensures
        0 <= rows_before(chunks, count) <= usize::MAX,
        pages_in_order(
            planned(chunks, column, repeated, count)->Ok_0,
            rows_before(chunks, count),
        ),
    decreases count,
{
    if count > 0 {
        planned_pages_in_order(chunks, column, repeated, count - 1);
        let base = rows_before(chunks, count - 1);
        let earlier = planned(chunks, column, repeated, count - 1)->Ok_0;
        let later = chunks[count - 1].plan(count - 1, column, repeated, base)->Ok_0;
        assert(rows_before(chunks, count) <= usize::MAX);
        lemma_chunk_in_order(chunks[count - 1], count - 1, column, repeated, base);
        let pages = planned(chunks, column, repeated, count)->Ok_0;
        assert(pages == earlier + later);
        assert forall|i: int, j: int| 0 <= i < j < pages.len() implies end_of(#[trigger] pages[i])
            <= (#[trigger] pages[j]).first_row by {
            if i < earlier.len() && j >= earlier.len() {
                assert(pages[i] == earlier[i]);
                assert(pages[j] == later[j - earlier.len()]);
            } else if i >= earlier.len() {
                assert(pages[i] == later[i - earlier.len()]);
                assert(pages[j] == later[j - earlier.len()]);
            }
        }
        assert forall|i: int| 0 <= i < pages.len() implies 0 < (#[trigger] pages[i]).row_count
            && end_of(pages[i]) <= rows_before(chunks, count) by {
            if i < earlier.len() {
                assert(pages[i] == earlier[i]);
            } else {
                assert(pages[i] == later[i - earlier.len()]);
            }
        }
    }
}

/// Where every non-empty row group of a flat column has its first page at its first row, and
/// for every repeated column, the planned pages hold every row of the file.
pub proof fn planned_pages_hold_every_row(
    chunks: Seq<ChunkPages>,
    column: usize,
    repeated: bool,
    count: int,
    row: int,
)
    requires
        0 <= count <= chunks.len(),
        rows_addressable(chunks, column, repeated),
        planned(chunks, column, repeated, count) is Ok,
        repeated || forall|i: int|
            0 <= i < count && (#[trigger] chunks[i]).num_rows > 0 ==> chunks[i].page_start(0) == 0,
        0 <= row < rows_before(chunks, count),
    ensures
        exists|i: int|
            0 <= i < planned(chunks, column, repeated, count)->Ok_0.len() && holds_row(
                #[trigger] planned(chunks, column, repeated, count)->Ok_0[i],
                row,
            ),
    decreases count,
{
    planned_pages_in_order(chunks, column, repeated, count - 1);
    let base = rows_before(chunks, count - 1);
    let chunk = chunks[count - 1];
    let earlier = planned(chunks, column, repeated, count - 1)->Ok_0;
    let later = chunk.plan(count - 1, column, repeated, base)->Ok_0;
    let pages = planned(chunks, column, repeated, count)->Ok_0;
    assert(pages == earlier + later);
    if row < base {
        planned_pages_hold_every_row(chunks, column, repeated, count - 1, row);
        let i = choose|i: int| 0 <= i < earlier.len() && holds_row(#[trigger] earlier[i], row);
        assert(pages[i] == earlier[i]);
    } else {
        assert(rows_before(chunks, count) <= usize::MAX);
        let i = if repeated {
            0
        } else {
            let total = chunk.locations->0.len() as int;
            lemma_planned_pages(chunk, count - 1, base, total);
            lemma_page_of_row(chunk, count - 1, row - base, total)
        };
        if !repeated {
            assert(chunk.page_fault(count - 1, i) is None);
        }
        assert(holds_row(later[i], row));
        assert(pages[earlier.len() + i] == later[i]);
    }
}

/// Finds the page, among the first `count` pages of a chunk without faults, that holds `row`.
proof fn lemma_page_of_row(chunk: ChunkPages, row_group: int, row: int, count: int) -> (page: int)
    requires
        0 < count <= chunk.locations->0.len(),
        forall|page: int|
            0 <= page < chunk.locations->0.len() ==> (#[trigger] chunk.page_fault(row_group, page)) is None,
        chunk.page_start(0) == 0,
        0 <= row < chunk.page_end(count - 1),
    ensures
        0 <= page < count,
        chunk.page_start(page) <= row < chunk.page_end(page),
    decreases count,
{
    if chunk.page_start(count - 1) <= row {
        count - 1
    } else {
        lemma_page_of_row(chunk, row_group, row, count - 1)
    }
}

/// The page that holds file row `row`, if there is one.
pub open spec fn page_of(pages: Seq<ParquetForwardPage>, row: int) -> Option<ParquetForwardPage> {
    if exists|i: int| 0 <= i < pages.len() && holds_row(#[trigger] pages[i], row) {
        Some(pages[choose|i: int| 0 <= i < pages.len() && holds_row(#[trigger] pages[i], row)])
    } else {
        None
    }
}

/// At most one of the pages in order holds a row.
pub proof fn one_page_holds_row(pages: Seq<ParquetForwardPage>, rows: int, row: int, i: int)
    requires
        pages_in_order(pages, rows),
        0 <= i < pages.len(),
        holds_row(pages[i], row),
    ensures
        page_of(pages, row) == Some(pages[i]),
        forall|j: int| 0 <= j < pages.len() && holds_row(#[trigger] pages[j], row) ==> i == j,
{
}

} // verus!
