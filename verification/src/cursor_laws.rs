//! What reads ask of a decoder and how they end, in terms of the rows and pages that they are for.

use crate::cursor::{
    BatchRead, BatchStep, CursorState, DecoderReply, DecoderRequest, RangeRead, RangeStep,
};
use crate::delivery::BatchSizes;
use crate::error::ForwardReadError;
use vstd::prelude::*;

verus! {

/// Whether row `row` is among the rows of page `i`.
pub open spec fn row_in_page(state: CursorState, row: int, i: int) -> bool {
    let pages = state.plan.pages;
    0 <= i < pages.len() && pages[i].first_row <= row < pages[i].first_row + pages[i].row_count
}

/// Whether row `row` is among the rows of some page.
pub open spec fn row_has_page(state: CursorState, row: int) -> bool {
    exists|i: int| #[trigger] row_in_page(state, row, i)
}

/// The page that is found for a row of page `i` is page `i`.
proof fn lemma_found(state: CursorState, row: int, i: int)
    requires
        crate::delivery::in_order(state),
        row_in_page(state, row, i),
    ensures
        crate::pages::page_of(state.plan.pages, row) == Some(state.plan.pages[i]),
        state.plan.pages[i].first_row + state.plan.pages[i].row_count <= usize::MAX,
{
    crate::page_laws::row_is_found_in_its_page(state.plan.pages, row, i);
}

/// A batch is refused for a row past the file, for a row before the next one, for an empty batch
/// and for a row without a page, in this order; and at the end of the file there is none.
pub proof fn batch_is_refused_where_it_cannot_be_read(
    state: CursorState,
    target_row: usize,
    max_rows: usize,
)
    requires
        crate::delivery::in_order(state),
    ensures
        ({
            let start = crate::cursor::batch_start(state, target_row, max_rows);
            let past = target_row > state.row_count;
            let back = target_row < state.next_row;
            let ends = target_row == state.row_count;
            &&& past <==> start == Err::<Option<BatchRead>, ForwardReadError>(
                ForwardReadError::BeyondRowCount { row: target_row, row_count: state.row_count },
            )
            &&& !past && back <==> start == Err::<Option<BatchRead>, ForwardReadError>(
                ForwardReadError::BackwardSeek { position: state.next_row, row: target_row },
            )
            &&& !past && !back && ends <==> start == Ok::<Option<BatchRead>, ForwardReadError>(
                None,
            )
            &&& !past && !back && !ends && max_rows == 0 <==> start == Err::<
                Option<BatchRead>,
                ForwardReadError,
            >(ForwardReadError::ZeroBatchSize)
            &&& !past && !back && !ends && max_rows > 0 && !row_has_page(
                state,
                target_row as int,
            ) <==> start == Err::<
                Option<BatchRead>,
                ForwardReadError,
            >(ForwardReadError::RowNotIndexed { row: target_row })
        }),
{
    let pages = state.plan.pages;
    let row = target_row as int;
    crate::page_laws::row_is_found_in_its_page(pages, row, 0);
    if !row_has_page(state, row) {
        assert forall|a: int| 0 <= a < pages.len() implies !((#[trigger] pages[a]).first_row <= row
            < pages[a].first_row + pages[a].row_count) by {
            assert(!row_in_page(state, row, a));
        }
    } else {
        let i = choose|i: int| #[trigger] row_in_page(state, row, i);
        lemma_found(state, row, i);
    }
}

/// A batch is for as many rows as are asked for, but for none behind its page, whether the page
/// holds values or nulls only. Its first request leads the decoder to the batch, or to the end of
/// a page of nulls, where it does not stand there already; and it fails only where the decoder
/// has passed a row of a page with values.
pub proof fn batch_asks_for_the_rows_of_its_page(
    state: CursorState,
    target_row: usize,
    max_rows: usize,
    i: int,
)
    requires
        crate::delivery::in_order(state),
        row_in_page(state, target_row as int, i),
        state.next_row <= target_row < state.row_count,
        0 < max_rows,
    ensures
        ({
            let page = state.plan.pages[i];
            let end = page.first_row + page.row_count;
            let start = crate::cursor::batch_start(state, target_row, max_rows);
            let read = start->Ok_0->0;
            let passed = !page.all_null && target_row < state.physical_position;
            &&& passed <==> start is Err
            &&& passed ==> start == Err::<Option<BatchRead>, ForwardReadError>(
                ForwardReadError::DecoderAhead {
                    physical_position: state.physical_position,
                    row: target_row,
                },
            )
            &&& !passed ==> {
                &&& start->Ok_0 is Some
                &&& read.target_row == target_row
                &&& read.page_end == end
                &&& read.all_null == page.all_null
                &&& read.rows == if target_row + max_rows <= end {
                    max_rows as int
                } else {
                    end - target_row
                }
                &&& match read.request {
                    DecoderRequest::Skip { rows } => state.physical_position + rows
                        == if page.all_null {
                        end
                    } else {
                        target_row as int
                    } && (page.all_null ==> rows > 0),
                    DecoderRequest::Nulls { rows } => page.all_null && rows == read.rows
                        && state.physical_position >= end,
                    DecoderRequest::Decode { .. } => false,
                }
            }
        }),
{
    lemma_found(state, target_row as int, i);
}

/// A row range ends at the asked row or at the end of the file, whichever comes first, and starts
/// as a batch of as many rows does.
pub proof fn range_ends_as_asked(state: CursorState, target_row: usize, max_rows: usize)
    ensures
        ({
            let start = crate::cursor::range_start(state, target_row, max_rows);
            let batch = crate::cursor::batch_start(state, target_row, max_rows);
            &&& start is Ok <==> batch is Ok
            &&& batch is Err ==> start->Err_0 == batch->Err_0
            &&& batch is Ok ==> (start->Ok_0 is Some <==> batch->Ok_0 is Some)
            &&& batch is Ok && batch->Ok_0 is Some ==> start->Ok_0->0.batch == batch->Ok_0->0
                && start->Ok_0->0.first && start->Ok_0->0.end == if target_row + max_rows
                <= state.row_count {
                target_row + max_rows
            } else {
                state.row_count as int
            }
        }),
{
}

/// A skip is accepted exactly where as many rows were skipped as asked for, else the error tells
/// both counts. The decoder then stands at the batch, or at the end of its page of nulls, and the
/// batch's rows are asked for: decoded, or as nulls.
pub proof fn skip_leads_to_the_batch(state: CursorState, read: BatchRead, skipped: usize)
    requires
        read.request is Skip,
    ensures
        ({
            let requested = read.request->Skip_rows;
            let (next, step) = crate::cursor::batch_step(
                state,
                read,
                DecoderReply::Skipped { rows: skipped },
            );
            let more = step->Ok_0->Ask_read;
            &&& step is Ok <==> skipped == requested
            &&& skipped != requested ==> next == state && step->Err_0 == if read.all_null {
                ForwardReadError::NullPageSkip { requested, skipped }
            } else {
                ForwardReadError::Skip { requested, skipped }
            }
            &&& skipped == requested ==> {
                &&& step->Ok_0 is Ask
                &&& more.target_row == read.target_row
                &&& more.rows == read.rows
                &&& more.page_end == read.page_end
                &&& more.all_null == read.all_null
                &&& read.all_null ==> more.request == (DecoderRequest::Nulls { rows: read.rows })
                &&& !read.all_null ==> more.request == (DecoderRequest::Decode { rows: read.rows })
                &&& next.physical_position == if read.all_null {
                    read.page_end
                } else {
                    read.target_row
                }
                &&& next.next_row == state.next_row
                &&& next.row_count == state.row_count
                &&& next.plan == state.plan
            }
        }),
{
}

/// A batch that was decoded or built is complete: the next row is the one behind it, and a decoder
/// that decoded it stands there. One that the decoder has no rows for fails at its first row.
pub proof fn batch_ends_behind_its_rows(state: CursorState, read: BatchRead, reply: DecoderReply)
    requires
        crate::cursor::answers(read.request, reply),
        crate::cursor::batch_addressable(read, reply),
        !(read.request is Skip),
    ensures
        ({
            let (next, step) = crate::cursor::batch_step(state, read, reply);
            &&& next.row_count == state.row_count
            &&& next.plan == state.plan
            &&& reply matches DecoderReply::Decoded { rows } ==> step == Ok::<
                BatchStep,
                ForwardReadError,
            >(BatchStep::Done { rows }) && next.next_row == read.target_row + rows
                && next.physical_position == read.target_row + rows
            &&& reply is NullsBuilt ==> step == Ok::<BatchStep, ForwardReadError>(
                BatchStep::Done { rows: read.rows },
            ) && next.next_row == read.target_row + read.rows && next.physical_position
                == state.physical_position
            &&& reply is Exhausted ==> next == state && step == Err::<BatchStep, ForwardReadError>(
                ForwardReadError::Exhausted { row: read.target_row },
            )
        }),
{
}

/// A range goes on exactly where its batch does, fails where that fails or brings no row after
/// the first batch, and is done exactly where its batch brought it to its end. Before that, it
/// goes on with a batch of all the missing rows at the next row.
pub proof fn range_goes_on_to_its_end(state: CursorState, read: RangeRead, reply: DecoderReply)
    ensures
        ({
            let (after, batch) = crate::cursor::batch_step(state, read.batch, reply);
            let (next, step) = crate::cursor::range_step(state, read, reply);
            let more = step->Ok_0->Ask_read;
            let missing = (read.end - after.next_row) as usize;
            let start = crate::cursor::batch_start(after, after.next_row, missing);
            &&& next == after
            &&& batch is Err ==> step is Err && step->Err_0 == batch->Err_0
            &&& batch matches Ok(BatchStep::Ask { read: pending }) ==> step is Ok && step->Ok_0 is Ask
                && more.batch == pending && more.end == read.end && more.first == read.first
            &&& batch matches Ok(BatchStep::Done { rows }) ==> {
                let stuck = rows == 0 && !read.first;
                &&& stuck ==> step == Err::<RangeStep, ForwardReadError>(
                    ForwardReadError::NoProgress { row: read.batch.target_row },
                )
                &&& !stuck && after.next_row >= read.end <==> step == Ok::<
                    RangeStep,
                    ForwardReadError,
                >(RangeStep::Done)
                &&& !stuck && after.next_row < read.end && start is Err ==> step is Err
                    && step->Err_0 == start->Err_0
                &&& !stuck && after.next_row < read.end && start is Ok && start->Ok_0 is None
                    ==> step == Err::<RangeStep, ForwardReadError>(
                    ForwardReadError::Exhausted { row: after.next_row },
                )
                &&& !stuck && after.next_row < read.end && start is Ok && start->Ok_0 is Some
                    ==> step is Ok && step->Ok_0 is Ask && more.batch == start->Ok_0->0 && more.end
                    == read.end && !more.first
            }
        }),
{
}

/// A batch of a page with values is decoded, and only a batch of an all-null page is one of nulls.
pub proof fn page_decides_how_it_is_delivered(
    state: CursorState,
    target_row: usize,
    max_rows: usize,
    i: int,
)
    requires
        crate::delivery::in_order(state),
        row_in_page(state, target_row as int, i),
        crate::cursor::batch_start(state, target_row, max_rows) is Ok,
        crate::cursor::batch_start(state, target_row, max_rows)->Ok_0 is Some,
    ensures
        ({
            let page = state.plan.pages[i];
            let read = crate::cursor::batch_start(state, target_row, max_rows)->Ok_0->0;
            let step = crate::cursor::batch_step(
                state,
                read,
                DecoderReply::Skipped { rows: read.request->Skip_rows },
            ).1;
            &&& read.request is Nulls ==> page.all_null
            &&& read.request is Skip ==> step is Ok && step->Ok_0 is Ask
            &&& read.request is Skip ==> (step->Ok_0->Ask_read.request is Nulls <==> page.all_null)
            &&& read.request is Skip ==> (step->Ok_0->Ask_read.request is Decode
                <==> !page.all_null)
        }),
{
    lemma_found(state, target_row as int, i);
}

/// What a faithful decoder replies answers the request, and its rows have `usize` indexes.
pub proof fn faithful_replies_are_accepted(state: CursorState, read: BatchRead, sizes: BatchSizes)
    requires
        crate::delivery::decodes_some(sizes),
        crate::delivery::asks_from_position(state, read),
    ensures
        ({
            let reply = crate::delivery::faithful_reply(
                read.request,
                state.physical_position as int,
                sizes,
            );
            &&& crate::cursor::answers(read.request, reply)
            &&& crate::cursor::batch_addressable(read, reply)
        }),
{
    assert(0 < sizes(state.physical_position as int, read.rows as int) <= read.rows);
}

/// A reply answers a request exactly where it is of the same sort.
pub proof fn replies_answer_their_requests(rows: usize, reply: DecoderReply)
    ensures
        crate::cursor::answers(DecoderRequest::Skip { rows }, reply) <==> reply is Skipped,
        crate::cursor::answers(DecoderRequest::Decode { rows }, reply) <==> reply is Decoded
            || reply is Exhausted,
        crate::cursor::answers(DecoderRequest::Nulls { rows }, reply) <==> reply is NullsBuilt,
{
}

/// A batch ends at a row that `usize` counts unless its own rows reach further.
pub proof fn batches_end_at_countable_rows(read: BatchRead, reply: DecoderReply)
    ensures
        crate::cursor::batch_addressable(read, reply) <==> {
            &&& reply matches DecoderReply::Decoded { rows } ==> read.target_row + rows
                <= usize::MAX
            &&& reply is NullsBuilt ==> read.target_row + read.rows <= usize::MAX
        },
{
}

/// With a decoder that decodes all the rows that it is asked for, a batch ends where the asked
/// rows or the page end, whichever comes first, and brings each row up to there.
pub proof fn whole_batch_is_delivered(
    state: CursorState,
    target_row: usize,
    max_rows: usize,
    sizes: BatchSizes,
    i: int,
)
    requires
        crate::delivery::in_order(state),
        crate::delivery::ready(state, target_row as int),
        row_in_page(state, target_row as int, i),
        state.next_row <= target_row < state.row_count,
        0 < max_rows,
        forall|at: int, rows: int| #[trigger] sizes(at, rows) == rows,
    ensures
        ({
            let page = state.plan.pages[i];
            let page_end = page.first_row + page.row_count;
            let end = if target_row + max_rows <= page_end {
                target_row + max_rows
            } else {
                page_end
            };
            let read = crate::cursor::batch_start(state, target_row, max_rows)->Ok_0->0;
            let run = crate::delivery::batch_run(
                state,
                read,
                state.physical_position as int,
                sizes,
                2,
            );
            &&& run.outcome == Some(Ok::<usize, ForwardReadError>((end - target_row) as usize))
            &&& run.state.next_row == end
            &&& run.rows == Seq::new((end - target_row) as nat, |k: int| target_row + k)
            &&& run.state.physical_position == if page.all_null {
                page_end
            } else {
                end
            }
        }),
{
    lemma_found(state, target_row as int, i);
    reveal_with_fuel(crate::delivery::batch_run, 3);
    let page = state.plan.pages[i];
    let page_end = page.first_row + page.row_count;
    let end = if target_row + max_rows <= page_end {
        target_row + max_rows
    } else {
        page_end
    };
    let read = crate::cursor::batch_start(state, target_row, max_rows)->Ok_0->0;
    assert(sizes(target_row as int, read.rows as int) == read.rows);
    let run = crate::delivery::batch_run(state, read, state.physical_position as int, sizes, 2);
    assert(run.rows =~= Seq::new((end - target_row) as nat, |k: int| target_row + k));
}

/// A range read brings each row from the target row to the asked one, or to the end of the file,
/// once and in order, and the next row is then the one behind them.
pub proof fn range_brings_the_asked_rows(
    state: CursorState,
    target_row: usize,
    max_rows: usize,
    sizes: BatchSizes,
)
    requires
        crate::delivery::in_order(state),
        crate::delivery::ready(state, target_row as int),
        crate::delivery::decodes_some(sizes),
        crate::delivery::ends_in_file(state, target_row, max_rows),
        state.next_row <= target_row < state.row_count,
        0 < max_rows,
        forall|row: int|
            target_row <= row < state.row_count && row < target_row + max_rows
                ==> #[trigger] row_has_page(state, row),
    ensures
        ({
            let end = if target_row + max_rows <= state.row_count {
                target_row + max_rows
            } else {
                state.row_count as int
            };
            let run = crate::delivery::range_read(state, target_row, max_rows, sizes);
            &&& run.outcome == Some(Ok::<(), ForwardReadError>(()))
            &&& run.rows == Seq::new((end - target_row) as nat, |k: int| target_row + k)
            &&& run.state.next_row == end
        }),
{
    let end = crate::delivery::range_end(state, target_row, max_rows);
    assert forall|row: int| target_row <= row < end implies (#[trigger] crate::pages::page_of(
        state.plan.pages,
        row,
    )) is Some by {
        assert(row_has_page(state, row));
        let i = choose|i: int| #[trigger] row_in_page(state, row, i);
        lemma_found(state, row, i);
    }
    crate::delivery::range_delivers_every_row(state, target_row, max_rows, sizes);
    let run = crate::delivery::range_read(state, target_row, max_rows, sizes);
    assert(run.rows =~= Seq::new((end - target_row) as nat, |k: int| target_row + k));
}

/// A new cursor stands at the first row of a file of as many rows as it is told, and there is one
/// for every row count that `usize` holds.
pub proof fn new_cursor_stands_at_the_first_row(
    plan: crate::projection::ProjectedPages,
    num_rows: i64,
    cursor: Result<crate::cursor::ForwardCursor, ForwardReadError>,
)
    requires
        call_ensures(crate::cursor::ForwardCursor::new, (plan, num_rows), cursor),
    ensures
        cursor is Ok <==> 0 <= num_rows <= usize::MAX,
        cursor matches Ok(cursor) ==> {
            &&& cursor@.row_count == num_rows
            &&& cursor@.next_row == 0
            &&& cursor@.physical_position == 0
            &&& cursor@.plan == plan@
        },
        cursor matches Err(fault) ==> fault == ForwardReadError::FileRowCount,
{
}

} // verus!
