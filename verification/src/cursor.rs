//! The row cursor of a forward read.
//!
//! A [`ForwardCursor`] decides; a decoder does the work. A read starts with a request to the
//! decoder, and each reply leads to the next request, to the end of the read, or to an error. A
//! read that the decoder fails is simply dropped: the cursor knows which row the decoder stands at
//! after each request that it has served.

use crate::error::ForwardReadError;
use crate::pages::to_usize;
use crate::projection::ProjectedPages;
use vstd::prelude::*;

verus! {

/// What a read asks of the decoder next.
#[derive(Debug, Clone, Copy, PartialEq, Eq, Structural)]
pub enum DecoderRequest {
    /// Skip this many rows.
    Skip { rows: usize },
    /// Decode a batch of at most this many rows.
    Decode { rows: usize },
    /// Build a batch of this many nulls.
    Nulls { rows: usize },
}

/// What the decoder did.
#[derive(Debug, Clone, Copy, PartialEq, Eq, Structural)]
pub enum DecoderReply {
    /// It skipped this many rows.
    Skipped { rows: usize },
    /// It decoded a batch of this many rows.
    Decoded { rows: usize },
    /// It has no more rows to decode.
    Exhausted,
    /// It built the batch of nulls.
    NullsBuilt,
}

/// A read of one batch that waits for the decoder.
#[derive(Debug, Clone, Copy, PartialEq, Eq, Structural)]
pub struct BatchRead {
    /// The first row of the batch.
    pub target_row: usize,
    /// The number of rows that the batch may have.
    pub rows: usize,
    /// The row behind the page that holds the batch.
    pub page_end: usize,
    /// Whether that page holds nulls only.
    pub all_null: bool,
    /// What the decoder has to do next.
    pub request: DecoderRequest,
}

/// How a read of one batch goes on.
#[derive(Debug, Clone, Copy, PartialEq, Eq, Structural)]
pub enum BatchStep {
    /// The decoder has to do more.
    Ask { read: BatchRead },
    /// The batch is complete, with this many rows.
    Done { rows: usize },
}

/// A read of a row range that waits for the decoder.
#[derive(Debug, Clone, Copy, PartialEq, Eq, Structural)]
pub struct RangeRead {
    /// The row behind the range.
    pub end: usize,
    /// Whether the pending batch is the range's first one.
    pub first: bool,
    /// The pending batch.
    pub batch: BatchRead,
}

/// How a read of a row range goes on.
#[derive(Debug, Clone, Copy, PartialEq, Eq, Structural)]
pub enum RangeStep {
    /// The decoder has to do more.
    Ask { read: RangeRead },
    /// The batches read so far make up the range.
    Done,
}

/// The mathematical value of a [`ForwardCursor`].
pub struct CursorState {
    /// The row that the decoder stands at.
    pub physical_position: usize,
    /// The row behind the last row that was read.
    pub next_row: usize,
    /// The number of rows in the file.
    pub row_count: usize,
    /// The projected leaf column and its pages.
    pub plan: crate::projection::LeafPlan,
}

/// Whether a reply answers a request.
pub open spec fn answers(request: DecoderRequest, reply: DecoderReply) -> bool {
    match request {
        DecoderRequest::Skip { .. } => reply is Skipped,
        DecoderRequest::Decode { .. } => reply is Decoded || reply is Exhausted,
        DecoderRequest::Nulls { .. } => reply is NullsBuilt,
    }
}

/// The smaller of two integers.
pub open spec fn smaller(a: int, b: int) -> int {
    if a <= b {
        a
    } else {
        b
    }
}

/// How a read of the batch at `target_row` starts.
///
/// The batch ends where its page ends. The decoder skips an all-null page as a whole, before
/// any of its rows is delivered; in front of any other page it skips to the target row.
pub open spec fn batch_start(state: CursorState, target_row: usize, max_rows: usize) -> Result<
    Option<BatchRead>,
    ForwardReadError,
> {
    if target_row > state.row_count {
        Err(ForwardReadError::BeyondRowCount { row: target_row, row_count: state.row_count })
    } else if target_row < state.next_row {
        Err(ForwardReadError::BackwardSeek { position: state.next_row, row: target_row })
    } else if target_row == state.row_count {
        Ok(None)
    } else if max_rows == 0 {
        Err(ForwardReadError::ZeroBatchSize)
    } else {
        match crate::pages::page_of(state.plan.pages, target_row as int) {
            None => Err(ForwardReadError::RowNotIndexed { row: target_row }),
            Some(page) => {
                let page_end = crate::pages::end_of(page);
                let rows = smaller(max_rows as int, page_end - target_row) as usize;
                let read = BatchRead {
                    target_row,
                    rows,
                    page_end: page_end as usize,
                    all_null: page.all_null,
                    request: DecoderRequest::Nulls { rows },
                };
                if page.all_null && state.physical_position >= page_end {
                    Ok(Some(read))
                } else if page.all_null {
                    Ok(
                        Some(
                            BatchRead {
                                request: DecoderRequest::Skip {
                                    rows: (page_end - state.physical_position) as usize,
                                },
                                ..read
                            },
                        ),
                    )
                } else if target_row < state.physical_position {
                    Err(
                        ForwardReadError::DecoderAhead {
                            physical_position: state.physical_position,
                            row: target_row,
                        },
                    )
                } else {
                    Ok(
                        Some(
                            BatchRead {
                                request: DecoderRequest::Skip {
                                    rows: (target_row - state.physical_position) as usize,
                                },
                                ..read
                            },
                        ),
                    )
                }
            },
        }
    }
}

/// How a read of one batch goes on after a reply: the cursor's new state, and what comes next.
pub open spec fn batch_step(state: CursorState, read: BatchRead, reply: DecoderReply) -> (
    CursorState,
    Result<BatchStep, ForwardReadError>,
) {
    match (read.request, reply) {
        (
            DecoderRequest::Skip { rows: requested },
            DecoderReply::Skipped { rows: skipped },
        ) => if skipped != requested && read.all_null {
            (state, Err(ForwardReadError::NullPageSkip { requested, skipped }))
        } else if skipped != requested {
            (state, Err(ForwardReadError::Skip { requested, skipped }))
        } else if read.all_null {
            (
                CursorState { physical_position: read.page_end, ..state },
                Ok(
                    BatchStep::Ask {
                        read: BatchRead {
                            request: DecoderRequest::Nulls { rows: read.rows },
                            ..read
                        },
                    },
                ),
            )
        } else {
            (
                CursorState { physical_position: read.target_row, ..state },
                Ok(
                    BatchStep::Ask {
                        read: BatchRead {
                            request: DecoderRequest::Decode { rows: read.rows },
                            ..read
                        },
                    },
                ),
            )
        },
        (_, DecoderReply::Decoded { rows }) => (
            CursorState {
                physical_position: (read.target_row + rows) as usize,
                next_row: (read.target_row + rows) as usize,
                ..state
            },
            Ok(BatchStep::Done { rows }),
        ),
        (_, DecoderReply::NullsBuilt) => (
            CursorState { next_row: (read.target_row + read.rows) as usize, ..state },
            Ok(BatchStep::Done { rows: read.rows }),
        ),
        _ => (state, Err(ForwardReadError::Exhausted { row: read.target_row })),
    }
}

/// How a read of up to `max_rows` rows from `target_row` starts.
pub open spec fn range_start(state: CursorState, target_row: usize, max_rows: usize) -> Result<
    Option<RangeRead>,
    ForwardReadError,
> {
    match batch_start(state, target_row, max_rows) {
        Err(fault) => Err(fault),
        Ok(None) => Ok(None),
        Ok(Some(batch)) => Ok(
            Some(
                RangeRead {
                    end: smaller(target_row + max_rows, state.row_count as int) as usize,
                    first: true,
                    batch,
                },
            ),
        ),
    }
}

/// How a read of a row range goes on after a reply: the cursor's new state, and what comes next.
pub open spec fn range_step(state: CursorState, read: RangeRead, reply: DecoderReply) -> (
    CursorState,
    Result<RangeStep, ForwardReadError>,
) {
    let (next, step) = batch_step(state, read.batch, reply);
    match step {
        Err(fault) => (next, Err(fault)),
        Ok(BatchStep::Ask { read: batch }) => (
            next,
            Ok(RangeStep::Ask { read: RangeRead { batch, ..read } }),
        ),
        Ok(BatchStep::Done { rows }) => if rows == 0 && !read.first {
            (next, Err(ForwardReadError::NoProgress { row: read.batch.target_row }))
        } else if next.next_row >= read.end {
            (next, Ok(RangeStep::Done))
        } else {
            match batch_start(next, next.next_row, (read.end - next.next_row) as usize) {
                Err(fault) => (next, Err(fault)),
                Ok(None) => (next, Err(ForwardReadError::Exhausted { row: next.next_row })),
                Ok(Some(batch)) => (
                    next,
                    Ok(RangeStep::Ask { read: RangeRead { first: false, batch, ..read } }),
                ),
            }
        },
    }
}

/// Whether the rows that a batch can end at have `usize` indexes.
pub open spec fn batch_addressable(read: BatchRead, reply: DecoderReply) -> bool {
    match reply {
        DecoderReply::Decoded { rows } => read.target_row + rows <= usize::MAX,
        DecoderReply::NullsBuilt => read.target_row + read.rows <= usize::MAX,
        _ => true,
    }
}

/// Where a forward read stands in its file.
#[derive(Debug)]
pub struct ForwardCursor {
    physical_position: usize,
    next_row: usize,
    row_count: usize,
    plan: ProjectedPages,
}

impl View for ForwardCursor {
    type V = CursorState;

    closed spec fn view(&self) -> CursorState {
        CursorState {
            physical_position: self.physical_position,
            next_row: self.next_row,
            row_count: self.row_count,
            plan: self.plan@,
        }
    }
}

impl ForwardCursor {
    /// Starts at the first row of a file with the given pages and row count.
    pub fn new(plan: ProjectedPages, num_rows: i64) -> (cursor: Result<
        ForwardCursor,
        ForwardReadError,
    >)
        ensures
            match cursor {
                Ok(cursor) => crate::pages::is_usize(num_rows as int) && cursor@ == (CursorState {
                    physical_position: 0,
                    next_row: 0,
                    row_count: num_rows as usize,
                    plan: plan@,
                }),
                Err(fault) => !crate::pages::is_usize(num_rows as int) && fault
                    == ForwardReadError::FileRowCount,
            },
    {
        match to_usize(num_rows) {
            Some(row_count) => Ok(
                ForwardCursor { physical_position: 0, next_row: 0, row_count, plan },
            ),
            None => Err(ForwardReadError::FileRowCount),
        }
    }

    /// Current physical row position of the decoder.
    ///
    /// It differs from [`Self::next_row`] while an all-null page is read in parts, since the decoder
    /// is skipped to the end of such a page before any of its rows is delivered, and once a read is
    /// dropped after its skip.
    pub fn position(&self) -> (position: usize)
        ensures
            position == self@.physical_position,
    {
        self.physical_position
    }

    /// The row behind the last row that was read: the first one that can still be read.
    pub fn next_row(&self) -> (row: usize)
        ensures
            row == self@.next_row,
    {
        self.next_row
    }

    /// Total rows in the Parquet file.
    pub fn row_count(&self) -> (rows: usize)
        ensures
            rows == self@.row_count,
    {
        self.row_count
    }

    /// The projected leaf column and its pages.
    pub fn plan(&self) -> (plan: &ProjectedPages)
        ensures
            plan@ == self@.plan,
    {
        &self.plan
    }

    /// Number of rows in the page that holds `target_row`.
    pub fn page_row_count(&self, target_row: usize) -> (rows: Result<usize, ForwardReadError>)
        ensures
            rows == (match crate::pages::page_of(self@.plan.pages, target_row as int) {
                Some(page) => Ok::<usize, ForwardReadError>(page.row_count),
                None => Err(ForwardReadError::RowNotIndexed { row: target_row }),
            }),
    {
        match self.plan.page_at(target_row) {
            Ok(page) => Ok(page.row_count),
            Err(fault) => Err(fault),
        }
    }

    /// Number of rows from `target_row` to the end of its page.
    pub fn rows_remaining_in_page(&self, target_row: usize) -> (rows: Result<
        usize,
        ForwardReadError,
    >)
        ensures
            match rows {
                Ok(rows) => crate::pages::page_of(self@.plan.pages, target_row as int) matches Some(
                    page,
                ) && rows == crate::pages::end_of(page) - target_row,
                Err(fault) => crate::pages::page_of(self@.plan.pages, target_row as int) is None
                    && fault == (ForwardReadError::RowNotIndexed { row: target_row }),
            },
    {
        match self.plan.page_at(target_row) {
            Ok(page) => Ok(page.first_row + page.row_count - target_row),
            Err(fault) => Err(fault),
        }
    }

    /// Starts a read of the batch at `target_row`.
    ///
    /// Returns `None` at the end of the file. Backward seeks and rows beyond the end of the file
    /// return an error.
    pub fn read_batch_at(&self, target_row: usize, max_rows: usize) -> (read: Result<
        Option<BatchRead>,
        ForwardReadError,
    >)
        ensures
            read == batch_start(self@, target_row, max_rows),
    {
        if target_row > self.row_count {
            return Err(
                ForwardReadError::BeyondRowCount { row: target_row, row_count: self.row_count },
            );
        }
        if target_row < self.next_row {
            return Err(
                ForwardReadError::BackwardSeek { position: self.next_row, row: target_row },
            );
        }
        if target_row == self.row_count {
            return Ok(None);
        }
        if max_rows == 0 {
            return Err(ForwardReadError::ZeroBatchSize);
        }
        let page = match self.plan.page_at(target_row) {
            Ok(page) => page,
            Err(fault) => return Err(fault),
        };
        let page_end = page.first_row + page.row_count;
        let remaining = page_end - target_row;
        let rows = if max_rows <= remaining {
            max_rows
        } else {
            remaining
        };
        let request = if page.all_null {
            if self.physical_position < page_end {
                DecoderRequest::Skip { rows: page_end - self.physical_position }
            } else {
                DecoderRequest::Nulls { rows }
            }
        } else {
            if target_row < self.physical_position {
                return Err(
                    ForwardReadError::DecoderAhead {
                        physical_position: self.physical_position,
                        row: target_row,
                    },
                );
            }
            DecoderRequest::Skip { rows: target_row - self.physical_position }
        };
        Ok(Some(BatchRead { target_row, rows, page_end, all_null: page.all_null, request }))
    }

    /// Goes on with a read of one batch after the decoder's reply.
    pub fn advance_batch(&mut self, read: BatchRead, reply: DecoderReply) -> (step: Result<
        BatchStep,
        ForwardReadError,
    >)
        requires
            answers(read.request, reply),
            batch_addressable(read, reply),
        ensures
            (final(self)@, step) == batch_step(old(self)@, read, reply),
    {
        match reply {
            DecoderReply::Skipped { rows: skipped } => {
                let requested = match read.request {
                    DecoderRequest::Skip { rows } => rows,
                    _ => vstd::pervasive::unreached(),
                };
                if skipped != requested {
                    return if read.all_null {
                        Err(ForwardReadError::NullPageSkip { requested, skipped })
                    } else {
                        Err(ForwardReadError::Skip { requested, skipped })
                    };
                }
                let request = if read.all_null {
                    self.physical_position = read.page_end;
                    DecoderRequest::Nulls { rows: read.rows }
                } else {
                    self.physical_position = read.target_row;
                    DecoderRequest::Decode { rows: read.rows }
                };
                Ok(
                    BatchStep::Ask {
                        read: BatchRead {
                            target_row: read.target_row,
                            rows: read.rows,
                            page_end: read.page_end,
                            all_null: read.all_null,
                            request,
                        },
                    },
                )
            },
            DecoderReply::Decoded { rows } => {
                self.physical_position = read.target_row + rows;
                self.next_row = self.physical_position;
                Ok(BatchStep::Done { rows })
            },
            DecoderReply::Exhausted => Err(ForwardReadError::Exhausted { row: read.target_row }),
            DecoderReply::NullsBuilt => {
                self.next_row = read.target_row + read.rows;
                Ok(BatchStep::Done { rows: read.rows })
            },
        }
    }

    /// Starts a read of up to `max_rows` rows from `target_row`, across page and row-group
    /// boundaries.
    pub fn read_range_at(&self, target_row: usize, max_rows: usize) -> (read: Result<
        Option<RangeRead>,
        ForwardReadError,
    >)
        ensures
            read == range_start(self@, target_row, max_rows),
    {
        match self.read_batch_at(target_row, max_rows) {
            Err(fault) => Err(fault),
            Ok(None) => Ok(None),
            Ok(Some(batch)) => {
                let wanted = target_row.saturating_add(max_rows);
                let end = if wanted <= self.row_count {
                    wanted
                } else {
                    self.row_count
                };
                Ok(Some(RangeRead { end, first: true, batch }))
            },
        }
    }

    /// Goes on with a read of a row range after the decoder's reply.
    pub fn advance_range(&mut self, read: RangeRead, reply: DecoderReply) -> (step: Result<
        RangeStep,
        ForwardReadError,
    >)
        requires
            answers(read.batch.request, reply),
            batch_addressable(read.batch, reply),
        ensures
            (final(self)@, step) == range_step(old(self)@, read, reply),
    {
        match self.advance_batch(read.batch, reply) {
            Err(fault) => Err(fault),
            Ok(BatchStep::Ask { read: batch }) => Ok(
                RangeStep::Ask { read: RangeRead { end: read.end, first: read.first, batch } },
            ),
            Ok(BatchStep::Done { rows }) => {
                if rows == 0 && !read.first {
                    return Err(ForwardReadError::NoProgress { row: read.batch.target_row });
                }
                let next_row = self.next_row;
                if next_row >= read.end {
                    return Ok(RangeStep::Done);
                }
                match self.read_batch_at(next_row, read.end - next_row) {
                    Err(fault) => Err(fault),
                    Ok(None) => Err(ForwardReadError::Exhausted { row: next_row }),
                    Ok(Some(batch)) => Ok(
                        RangeStep::Ask { read: RangeRead { end: read.end, first: false, batch } },
                    ),
                }
            },
        }
    }
}

} // verus!
