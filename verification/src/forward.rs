//! A forward-only, page-lazy batch reader over one projected leaf column.

use crate::cursor::{BatchRead, BatchStep, DecoderReply, ForwardCursor, RangeRead, RangeStep};
use crate::error::ForwardReadError;
use crate::pages::ParquetForwardPage;
use crate::projection::checked_projected_pages;
use parquet::arrow::ProjectionMask;
use parquet::file::metadata::ParquetMetaData;
use std::sync::Arc;
use vstd::prelude::*;

verus! {

/// The mathematical value of a [`ParquetForwardBatchReader`].
pub struct ForwardReaderState {
    /// Where the reader stands.
    pub cursor: crate::cursor::CursorState,
    /// The footer that the reader was opened with.
    pub metadata: ParquetMetaData,
}

/// The state of a reader that has just been opened, or why it cannot be.
pub open spec fn opened(metadata: ParquetMetaData, projection: ProjectionMask) -> Result<
    ForwardReaderState,
    ForwardReadError,
> {
    let num_rows = crate::footer::file_row_count(crate::footer::file_metadata_of(metadata));
    match crate::projection::projected(metadata, projection) {
        Err(fault) => Err(fault),
        Ok(plan) => if crate::pages::is_usize(num_rows as int) {
            Ok(
                ForwardReaderState {
                    cursor: crate::cursor::CursorState {
                        physical_position: 0,
                        next_row: 0,
                        row_count: num_rows as usize,
                        plan,
                    },
                    metadata,
                },
            )
        } else {
            Err(ForwardReadError::FileRowCount)
        },
    }
}

/// The batch size that a decoder is built with: the requested one, but at least one row.
pub fn decoder_batch_size(batch_size: usize) -> (size: usize)
    ensures
        size == if batch_size == 0 {
            1
        } else {
            batch_size
        },
{
    if batch_size == 0 {
        1
    } else {
        batch_size
    }
}

/// A forward-only, page-lazy Parquet batch reader.
///
/// The reader does not need to know the wanted rows when it is created. [`Self::read_batch_at`]
/// and [`Self::read_range_at`] tell a retained decoder what to skip and what to decode, so that
/// complete pages between the current position and the requested row are skipped without being
/// fetched or decoded.
///
/// The projected column must have an OffsetIndex for every non-empty row group, so that complete
/// page ranges can be requested and the full compressed column chunk is never buffered.
pub struct ParquetForwardBatchReader {
    cursor: ForwardCursor,
    metadata: Arc<ParquetMetaData>,
}

impl View for ParquetForwardBatchReader {
    type V = ForwardReaderState;

    closed spec fn view(&self) -> ForwardReaderState {
        ForwardReaderState { cursor: self.cursor@, metadata: *self.metadata }
    }
}

impl ParquetForwardBatchReader {
    /// Opens a reader at the first row of the file.
    ///
    /// Returns `None` where a row that can be planned has no `usize` index.
    pub fn checked_try_new(metadata: Arc<ParquetMetaData>, projection: &ProjectionMask) -> (reader:
        Option<Result<ParquetForwardBatchReader, ForwardReadError>>)
        requires
            crate::projection::mask_fits(*projection, *metadata),
        ensures
            reader is Some <==> crate::projection::projection_addressable(*metadata, *projection),
            reader matches Some(Ok(reader)) ==> opened(*metadata, *projection) == Ok::<
                ForwardReaderState,
                ForwardReadError,
            >(reader@) && reader@.cursor.row_count == crate::footer::file_row_count(
                crate::footer::file_metadata_of(*metadata),
            ),
            reader matches Some(Err(fault)) ==> opened(*metadata, *projection) == Err::<
                ForwardReaderState,
                ForwardReadError,
            >(fault),
    {
        match checked_projected_pages(&*metadata, projection) {
            None => None,
            Some(Err(fault)) => Some(Err(fault)),
            Some(Ok(plan)) => {
                let num_rows = metadata.file_metadata().num_rows();
                match ForwardCursor::new(plan, num_rows) {
                    Ok(cursor) => Some(Ok(ParquetForwardBatchReader { cursor, metadata })),
                    Err(fault) => Some(Err(fault)),
                }
            },
        }
    }

    /// Opens a reader at the first row of a file whose rows all have `usize` indexes; see
    /// [`Self::checked_try_new`].
    pub fn try_new(metadata: Arc<ParquetMetaData>, projection: &ProjectionMask) -> (reader: Result<
        ParquetForwardBatchReader,
        ForwardReadError,
    >)
        requires
            crate::projection::mask_fits(*projection, *metadata),
            crate::projection::projection_addressable(*metadata, *projection),
        ensures
            match reader {
                Ok(reader) => opened(*metadata, *projection) == Ok::<
                    ForwardReaderState,
                    ForwardReadError,
                >(reader@) && reader@.cursor.row_count == crate::footer::file_row_count(
                    crate::footer::file_metadata_of(*metadata),
                ),
                Err(fault) => opened(*metadata, *projection) == Err::<
                    ForwardReaderState,
                    ForwardReadError,
                >(fault),
            },
    {
        match Self::checked_try_new(metadata, projection) {
            Some(reader) => reader,
            None => vstd::pervasive::unreached(),
        }
    }

    /// Starts a read of the batch at `target_row`; see [`ForwardCursor::read_batch_at`].
    pub fn read_batch_at(&self, target_row: usize, max_rows: usize) -> (read: Result<
        Option<BatchRead>,
        ForwardReadError,
    >)
        ensures
            read == crate::cursor::batch_start(self@.cursor, target_row, max_rows),
    {
        self.cursor.read_batch_at(target_row, max_rows)
    }

    /// Goes on with a read of one batch after the decoder's reply.
    pub fn advance_batch(&mut self, read: BatchRead, reply: DecoderReply) -> (step: Result<
        BatchStep,
        ForwardReadError,
    >)
        requires
            crate::cursor::answers(read.request, reply),
            crate::cursor::batch_addressable(read, reply),
        ensures
            (final(self)@.cursor, step) == crate::cursor::batch_step(old(self)@.cursor, read, reply),
            final(self)@.metadata == old(self)@.metadata,
    {
        self.cursor.advance_batch(read, reply)
    }

    /// Starts a read of up to `max_rows` rows from `target_row`, across page and row-group
    /// boundaries.
    pub fn read_range_at(&self, target_row: usize, max_rows: usize) -> (read: Result<
        Option<RangeRead>,
        ForwardReadError,
    >)
        ensures
            read == crate::cursor::range_start(self@.cursor, target_row, max_rows),
    {
        self.cursor.read_range_at(target_row, max_rows)
    }

    /// Goes on with a read of a row range after the decoder's reply.
    pub fn advance_range(&mut self, read: RangeRead, reply: DecoderReply) -> (step: Result<
        RangeStep,
        ForwardReadError,
    >)
        requires
            crate::cursor::answers(read.batch.request, reply),
            crate::cursor::batch_addressable(read.batch, reply),
        ensures
            (final(self)@.cursor, step) == crate::cursor::range_step(old(self)@.cursor, read, reply),
            final(self)@.metadata == old(self)@.metadata,
    {
        self.cursor.advance_range(read, reply)
    }

    /// Current physical row position of the retained decoder.
    ///
    /// It differs from [`Self::next_row`] while an all-null page is read in parts, since the decoder
    /// is skipped to the end of such a page before any of its rows is delivered, and once a read is
    /// dropped after its skip.
    pub fn position(&self) -> (position: usize)
        ensures
            position == self@.cursor.physical_position,
    {
        self.cursor.position()
    }

    /// The row behind the last row that was read: the first one that can still be read.
    pub fn next_row(&self) -> (row: usize)
        ensures
            row == self@.cursor.next_row,
    {
        self.cursor.next_row()
    }

    /// Total rows in the Parquet file.
    pub fn row_count(&self) -> (rows: usize)
        ensures
            rows == self@.cursor.row_count,
    {
        self.cursor.row_count()
    }

    /// Number of physical rows in the page containing `target_row`.
    pub fn page_row_count(&self, target_row: usize) -> (rows: Result<usize, ForwardReadError>)
        ensures
            rows == (match crate::pages::page_of(self@.cursor.plan.pages, target_row as int) {
                Some(page) => Ok::<usize, ForwardReadError>(page.row_count),
                None => Err(ForwardReadError::RowNotIndexed { row: target_row }),
            }),
    {
        self.cursor.page_row_count(target_row)
    }

    /// Number of physical rows from `target_row` through the end of its page.
    pub fn rows_remaining_in_page(&self, target_row: usize) -> (rows: Result<
        usize,
        ForwardReadError,
    >)
        ensures
            match rows {
                Ok(rows) => crate::pages::page_of(
                    self@.cursor.plan.pages,
                    target_row as int,
                ) matches Some(page) && rows == crate::pages::end_of(page) - target_row,
                Err(fault) => crate::pages::page_of(
                    self@.cursor.plan.pages,
                    target_row as int,
                ) is None && fault == (ForwardReadError::RowNotIndexed { row: target_row }),
            },
    {
        self.cursor.rows_remaining_in_page(target_row)
    }

    /// Page metadata for the projected leaf column.
    pub fn pages(&self) -> (pages: &Vec<ParquetForwardPage>)
        ensures
            pages@ == self@.cursor.plan.pages,
            crate::pages::pages_in_order(pages@, usize::MAX as int),
    {
        self.cursor.plan().pages()
    }

    /// Parquet metadata containing the OffsetIndex and ColumnIndex.
    pub fn metadata(&self) -> (metadata: &ParquetMetaData)
        ensures
            *metadata == self@.metadata,
    {
        &*self.metadata
    }

    /// Projected Parquet leaf-column index.
    pub fn projected_leaf_column(&self) -> (column: usize)
        ensures
            column == self@.cursor.plan.leaf_column,
    {
        self.cursor.plan().leaf_column()
    }

    /// Whether the projected leaf belongs to a repeated Parquet field.
    pub fn is_repeated(&self) -> (repeated: bool)
        ensures
            repeated == self@.cursor.plan.repeated,
    {
        self.cursor.plan().is_repeated()
    }
}

/// A reader opens exactly where the projected pages can be planned and `usize` holds the row count
/// that the footer records for the file. It then stands at the first row of a file of that many
/// rows, with those pages and that footer.
pub proof fn opened_reader_counts_the_files_rows(
    metadata: ParquetMetaData,
    projection: ProjectionMask,
)
    ensures
        ({
            let recorded = crate::footer::file_row_count(
                crate::footer::file_metadata_of(metadata),
            );
            let plan = crate::projection::projected(metadata, projection);
            let reader = opened(metadata, projection);
            &&& reader is Ok <==> plan is Ok && 0 <= recorded <= usize::MAX
            &&& reader is Ok ==> {
                &&& reader->Ok_0.cursor.row_count == recorded
                &&& reader->Ok_0.cursor.next_row == 0
                &&& reader->Ok_0.cursor.physical_position == 0
                &&& reader->Ok_0.cursor.plan == plan->Ok_0
                &&& reader->Ok_0.metadata == metadata
            }
            &&& plan is Err ==> reader->Err_0 == plan->Err_0
            &&& plan is Ok && !(0 <= recorded <= usize::MAX) ==> reader->Err_0
                == ForwardReadError::FileRowCount
        }),
{
}

/// Where the row count that the footer records for the file is the sum of its row groups' and no
/// row group of a flat column has rows in front of its first page, a newly opened reader can read
/// every row that the footer records: its pages are in order within the file, each row lies in one
/// of them, and the decoder has passed none.
pub proof fn opened_reader_covers_file(metadata: ParquetMetaData, projection: ProjectionMask)
    requires
        crate::projection::projection_addressable(metadata, projection),
        opened(metadata, projection) is Ok,
        ({
            let plan = opened(metadata, projection)->Ok_0.cursor.plan;
            let chunks = crate::projection::column_chunks(metadata, plan.leaf_column);
            &&& crate::footer::file_row_count(crate::footer::file_metadata_of(metadata))
                == crate::page_laws::row_total(chunks)
            &&& plan.repeated || forall|g: int|
                0 <= g < chunks.len() && (#[trigger] chunks[g]).num_rows > 0
                    ==> chunks[g].locations->0[0].first_row_index == 0
        }),
    ensures
        ({
            let recorded = crate::footer::file_row_count(
                crate::footer::file_metadata_of(metadata),
            );
            let state = opened(metadata, projection)->Ok_0.cursor;
            &&& state.row_count == recorded
            &&& crate::delivery::within_file(state)
            &&& crate::delivery::aligned(state)
            &&& crate::delivery::indexed(state, 0, recorded as int)
            &&& forall|row: int|
                0 <= row < recorded ==> #[trigger] crate::cursor_laws::row_has_page(state, row)
        }),
{
    let state = opened(metadata, projection)->Ok_0.cursor;
    let column = state.plan.leaf_column;
    let repeated = state.plan.repeated;
    let chunks = crate::projection::column_chunks(metadata, column);
    let count = chunks.len() as int;
    crate::page_laws::rows_before_are_summed(chunks, count);
    assert(chunks.take(count) =~= chunks);
    crate::pages::planned_pages_in_order(chunks, column, repeated, count);
    assert forall|row: int| 0 <= row < state.row_count implies (#[trigger] crate::pages::page_of(
        state.plan.pages,
        row,
    )) is Some && crate::cursor_laws::row_has_page(state, row) by {
        crate::pages::planned_pages_hold_every_row(chunks, column, repeated, count, row);
        let i = choose|i: int|
            0 <= i < state.plan.pages.len() && crate::pages::holds_row(
                #[trigger] state.plan.pages[i],
                row,
            );
        assert(crate::cursor_laws::row_in_page(state, row, i));
    }
    assert forall|row: int| 0 <= row < state.row_count implies #[trigger] crate::cursor_laws::row_has_page(
        state,
        row,
    ) by {
        assert(crate::pages::page_of(state.plan.pages, row) is Some);
    }
}

/// Readers that are opened with the same footer and projection stand alike, wherever their bytes
/// come from, and start every read alike.
pub proof fn readers_open_alike(
    metadata: ParquetMetaData,
    projection: ProjectionMask,
    one: ParquetForwardBatchReader,
    other: ParquetForwardBatchReader,
    target_row: usize,
    max_rows: usize,
)
    requires
        opened(metadata, projection) == Ok::<ForwardReaderState, ForwardReadError>(one@),
        opened(metadata, projection) == Ok::<ForwardReaderState, ForwardReadError>(other@),
    ensures
        one@ == other@,
        crate::cursor::batch_start(one@.cursor, target_row, max_rows)
            == crate::cursor::batch_start(other@.cursor, target_row, max_rows),
        crate::cursor::range_start(one@.cursor, target_row, max_rows)
            == crate::cursor::range_start(other@.cursor, target_row, max_rows),
{
}

/// A decoder is built for batches of at least one row, and of as many rows as asked for where that
/// is at least one.
pub proof fn decoder_batches_have_rows(batch_size: usize, size: usize)
    requires
        call_ensures(decoder_batch_size, (batch_size,), size),
    ensures
        size >= 1,
        size >= batch_size,
        size == 1 || size == batch_size,
{
}

/// What is left of a page from a row on, and the rows in front of it there, are the rows of the
/// page; and both are told exactly for the rows that a page has.
pub proof fn rows_of_a_page_are_told(
    reader: ParquetForwardBatchReader,
    target_row: usize,
    count: Result<usize, ForwardReadError>,
    remaining: Result<usize, ForwardReadError>,
    i: int,
)
    requires
        crate::delivery::in_order(reader@.cursor),
        call_ensures(ParquetForwardBatchReader::page_row_count, (&reader, target_row), count),
        call_ensures(
            ParquetForwardBatchReader::rows_remaining_in_page,
            (&reader, target_row),
            remaining,
        ),
    ensures
        count is Ok <==> crate::cursor_laws::row_has_page(reader@.cursor, target_row as int),
        remaining is Ok <==> crate::cursor_laws::row_has_page(reader@.cursor, target_row as int),
        count is Err ==> count->Err_0 == (ForwardReadError::RowNotIndexed { row: target_row }),
        remaining is Err ==> remaining->Err_0 == (ForwardReadError::RowNotIndexed {
            row: target_row,
        }),
        crate::cursor_laws::row_in_page(reader@.cursor, target_row as int, i) ==> {
            let page = reader@.cursor.plan.pages[i];
            &&& count->Ok_0 == page.row_count
            &&& target_row + remaining->Ok_0 == page.first_row + page.row_count
        },
{
    let state = reader@.cursor;
    let pages = state.plan.pages;
    let row = target_row as int;
    crate::page_laws::row_is_found_in_its_page(pages, row, i);
    if crate::cursor_laws::row_has_page(state, row) {
        let j = choose|j: int| #[trigger] crate::cursor_laws::row_in_page(state, row, j);
        crate::page_laws::row_is_found_in_its_page(pages, row, j);
    } else {
        assert forall|a: int| 0 <= a < pages.len() implies !((#[trigger] pages[a]).first_row <= row
            < pages[a].first_row + pages[a].row_count) by {
            assert(!crate::cursor_laws::row_in_page(state, row, a));
        }
    }
}

} // verus!
