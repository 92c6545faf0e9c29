//! What forward reads promise of the rows that they deliver.

use crate::cursor::{
    BatchRead, BatchStep, CursorState, DecoderReply, DecoderRequest, RangeRead, RangeStep,
};
use crate::error::ForwardReadError;
use vstd::prelude::*;

verus! {

/// Whether the decoder has not passed a row that is to be read: it does not stand behind it, or
/// only because it has skipped the all-null page around it.
pub open spec fn ready(state: CursorState, row: int) -> bool {
    state.physical_position <= row || (crate::pages::page_of(state.plan.pages, row) matches Some(
        page,
    ) && page.all_null && crate::pages::end_of(page) == state.physical_position)
}

/// Whether the decoder has not passed any row that can still be read.
pub open spec fn aligned(state: CursorState) -> bool {
    ready(state, state.next_row as int)
}

/// Whether every row of `start..end` lies in a page.
pub open spec fn indexed(state: CursorState, start: int, end: int) -> bool {
    forall|row: int|
        start <= row < end ==> (#[trigger] crate::pages::page_of(state.plan.pages, row)) is Some
}

/// Whether the cursor's pages are non-empty and follow each other without overlapping.
pub open spec fn in_order(state: CursorState) -> bool {
    crate::pages::pages_in_order(state.plan.pages, usize::MAX as int)
}

/// Whether the cursor's pages are in order and lie within the file.
pub open spec fn within_file(state: CursorState) -> bool {
    crate::pages::pages_in_order(state.plan.pages, state.row_count as int)
}

/// The row behind the range that a read of up to `max_rows` rows from `target_row` is for.
pub open spec fn range_end(state: CursorState, target_row: usize, max_rows: usize) -> int {
    crate::cursor::smaller(target_row + max_rows, state.row_count as int)
}

/// Whether a read of up to `max_rows` rows from `target_row` cannot reach behind the file: it asks
/// for no row there, or its first page does not reach there.
pub open spec fn ends_in_file(state: CursorState, target_row: usize, max_rows: usize) -> bool {
    target_row + max_rows <= state.row_count || (crate::pages::page_of(
        state.plan.pages,
        target_row as int,
    ) matches Some(page) && crate::pages::end_of(page) <= state.row_count)
}

/// How many of the rows that it is asked for a decoder that stands at some row decodes.
pub type BatchSizes = spec_fn(int, int) -> int;

/// Whether a decoder decodes at least one row, and no more than it is asked for.
pub open spec fn decodes_some(sizes: BatchSizes) -> bool {
    forall|at: int, rows: int| rows > 0 ==> 0 < #[trigger] sizes(at, rows) <= rows
}

/// What a faithful decoder that stands at row `at` replies to a request.
pub open spec fn faithful_reply(request: DecoderRequest, at: int, sizes: BatchSizes) -> DecoderReply {
    match request {
        DecoderRequest::Skip { rows } => DecoderReply::Skipped { rows },
        DecoderRequest::Decode { rows } => DecoderReply::Decoded {
            rows: sizes(at, rows as int) as usize,
        },
        DecoderRequest::Nulls { .. } => DecoderReply::NullsBuilt,
    }
}

/// The row that a faithful decoder stands at after it has served a request.
pub open spec fn faithful_move(request: DecoderRequest, at: int, sizes: BatchSizes) -> int {
    match request {
        DecoderRequest::Skip { rows } => at + rows,
        DecoderRequest::Decode { rows } => at + sizes(at, rows as int),
        DecoderRequest::Nulls { .. } => at,
    }
}

/// The rows `start..end`.
pub open spec fn row_range(start: int, end: int) -> Seq<int> {
    Seq::new((end - start) as nat, |i: int| start + i)
}

/// The rows of the file that a faithful decoder hands over when it serves a request: those that
/// it decodes, or those of an all-null page that a batch of nulls stands for.
pub open spec fn faithful_rows(read: BatchRead, at: int, sizes: BatchSizes) -> Seq<int> {
    match read.request {
        DecoderRequest::Skip { .. } => Seq::empty(),
        DecoderRequest::Decode { rows } => row_range(at, at + sizes(at, rows as int)),
        DecoderRequest::Nulls { rows } => row_range(
            read.target_row as int,
            read.target_row + rows,
        ),
    }
}

/// How a read of a row range goes on after the reply of a faithful decoder that stands at row
/// `at`.
#[verifier::opaque]
pub open spec fn faithful_step(state: CursorState, read: RangeRead, at: int, sizes: BatchSizes) -> (
    CursorState,
    Result<RangeStep, ForwardReadError>,
) {
    crate::cursor::range_step(state, read, faithful_reply(read.batch.request, at, sizes))
}

/// What a read of a row range comes to.
pub struct RangeRun {
    /// The cursor's last state.
    pub state: CursorState,
    /// The row that the decoder stands at in the end.
    pub at: int,
    /// The rows that were handed over.
    pub rows: Seq<int>,
    /// How the read ended, if it did.
    pub outcome: Option<Result<(), ForwardReadError>>,
}

/// What a read of a row range comes to within `steps` replies of a faithful decoder that stands
/// at row `at`.
pub open spec fn range_run(
    state: CursorState,
    read: RangeRead,
    at: int,
    sizes: BatchSizes,
    steps: nat,
) -> RangeRun
    decreases steps,
{
    if steps == 0 {
        RangeRun { state, at, rows: Seq::empty(), outcome: None }
    } else {
        let rows = faithful_rows(read.batch, at, sizes);
        let moved = faithful_move(read.batch.request, at, sizes);
        let (next, step) = faithful_step(state, read, at, sizes);
        match step {
            Err(fault) => RangeRun { state: next, at: moved, rows, outcome: Some(Err(fault)) },
            Ok(RangeStep::Done) => RangeRun { state: next, at: moved, rows, outcome: Some(Ok(())) },
            Ok(RangeStep::Ask { read: more }) => {
                let rest = range_run(next, more, moved, sizes, (steps - 1) as nat);
                RangeRun { rows: rows + rest.rows, ..rest }
            },
        }
    }
}

/// What a read of up to `max_rows` rows from `target_row` comes to with a faithful decoder that
/// stands where the cursor takes it to stand, within two replies for each row.
pub open spec fn range_read(
    state: CursorState,
    target_row: usize,
    max_rows: usize,
    sizes: BatchSizes,
) -> RangeRun {
    let at = state.physical_position as int;
    match crate::cursor::range_start(state, target_row, max_rows) {
        Err(fault) => RangeRun { state, at, rows: Seq::empty(), outcome: Some(Err(fault)) },
        Ok(None) => RangeRun { state, at, rows: Seq::empty(), outcome: Some(Ok(())) },
        Ok(Some(read)) => range_run(
            state,
            read,
            at,
            sizes,
            (2 * (range_end(state, target_row, max_rows) - target_row)) as nat,
        ),
    }
}

/// Whether a pending batch and a decoder that stands at row `at` fit the cursor's state.
spec fn on_track(state: CursorState, read: BatchRead, end: int, at: int) -> bool {
    let target = read.target_row as int;
    let page = crate::pages::page_of(state.plan.pages, target)->0;
    &&& crate::pages::page_of(state.plan.pages, target) is Some
    &&& state.next_row <= target < end
    &&& 0 < read.rows
    &&& read.rows <= end - target
    &&& read.rows <= read.page_end - target
    &&& read.page_end == crate::pages::end_of(page)
    &&& read.all_null == page.all_null
    &&& match read.request {
        DecoderRequest::Skip { rows } => at == state.physical_position && at + rows == if page.all_null {
            read.page_end as int
        } else {
            target
        },
        DecoderRequest::Decode { rows } => at == state.physical_position && at == target && rows
            == read.rows && !page.all_null,
        DecoderRequest::Nulls { rows } => at == state.physical_position && at == read.page_end
            && rows == read.rows && page.all_null,
    }
}

/// A page that holds a row is one of the pages, and holds its other rows too.
proof fn lemma_page_of(state: CursorState, row: int, other: int)
    requires
        in_order(state),
        crate::pages::page_of(state.plan.pages, row) is Some,
        crate::pages::holds_row(crate::pages::page_of(state.plan.pages, row)->0, other),
    ensures
        crate::pages::page_of(state.plan.pages, other) == crate::pages::page_of(
            state.plan.pages,
            row,
        ),
{
    let pages = state.plan.pages;
    let i = choose|i: int| 0 <= i < pages.len() && crate::pages::holds_row(#[trigger] pages[i], row);
    crate::pages::one_page_holds_row(pages, usize::MAX as int, row, i);
    crate::pages::one_page_holds_row(pages, usize::MAX as int, other, i);
}

/// A page that holds a row holds it, and ends at a `usize` row.
proof fn lemma_holds(state: CursorState, row: int)
    requires
        in_order(state),
        crate::pages::page_of(state.plan.pages, row) is Some,
    ensures
        crate::pages::holds_row(crate::pages::page_of(state.plan.pages, row)->0, row),
        crate::pages::end_of(crate::pages::page_of(state.plan.pages, row)->0) <= usize::MAX,
{
    let pages = state.plan.pages;
    let i = choose|i: int| 0 <= i < pages.len() && crate::pages::holds_row(#[trigger] pages[i], row);
    crate::pages::one_page_holds_row(pages, usize::MAX as int, row, i);
}

/// A read of an indexed row that the decoder has not passed starts on track to any `end` that the
/// batch does not pass.
proof fn lemma_start(state: CursorState, target_row: usize, max_rows: usize, end: int)
    requires
        in_order(state),
        ready(state, target_row as int),
        state.next_row <= target_row < state.row_count,
        0 < max_rows,
        crate::pages::page_of(state.plan.pages, target_row as int) is Some,
        target_row + max_rows <= end || crate::pages::end_of(
            crate::pages::page_of(state.plan.pages, target_row as int)->0,
        ) <= end,
    ensures
        crate::cursor::batch_start(state, target_row, max_rows) matches Ok(Some(read))
            && read.target_row == target_row && on_track(
            state,
            read,
            end,
            state.physical_position as int,
        ) && !(read.request is Decode),
{
    lemma_holds(state, target_row as int);
}

/// The requests that a read on track still takes at most.
spec fn steps_left(read: RangeRead) -> int {
    2 * (read.end - read.batch.target_row) - if read.batch.request is Skip {
        0int
    } else {
        1
    }
}

/// After a skip, a read on track asks for the rows of the same batch.
proof fn lemma_skip(state: CursorState, read: RangeRead, at: int, sizes: BatchSizes)
    requires
        in_order(state),
        on_track(state, read.batch, read.end as int, at),
        read.batch.request is Skip,
    ensures
        ({
            let request = read.batch.request;
            let (next, step) = faithful_step(state, read, at, sizes);
            &&& step is Ok && step->Ok_0 is Ask
            &&& step->Ok_0->Ask_read.end == read.end
            &&& step->Ok_0->Ask_read.batch.target_row == read.batch.target_row
            &&& !(step->Ok_0->Ask_read.batch.request is Skip)
            &&& next == CursorState { physical_position: next.physical_position, ..state }
            &&& on_track(
                next,
                step->Ok_0->Ask_read.batch,
                read.end as int,
                faithful_move(request, at, sizes),
            )
        }),
{
    reveal(faithful_step);
}

/// After the rows of a batch, a read on track is done, or starts its next batch where the last one
/// ended, or fails because no page holds that row.
proof fn lemma_batch(state: CursorState, read: RangeRead, at: int, sizes: BatchSizes)
    requires
        in_order(state),
        decodes_some(sizes),
        read.end <= state.row_count,
        on_track(state, read.batch, read.end as int, at),
        !(read.batch.request is Skip),
    ensures
        ({
            let request = read.batch.request;
            let (next, step) = faithful_step(state, read, at, sizes);
            let moved = faithful_move(request, at, sizes);
            &&& read.batch.target_row < next.next_row <= read.end
            &&& indexed(state, read.batch.target_row as int, next.next_row as int)
            &&& faithful_rows(read.batch, at, sizes) == row_range(
                read.batch.target_row as int,
                next.next_row as int,
            )
            &&& next == CursorState {
                physical_position: next.physical_position,
                next_row: next.next_row,
                ..state
            }
            &&& moved == next.physical_position
            &&& aligned(next)
            &&& next.next_row == read.end ==> step == Ok::<RangeStep, ForwardReadError>(
                RangeStep::Done,
            )
            &&& next.next_row < read.end && crate::pages::page_of(
                state.plan.pages,
                next.next_row as int,
            ) is None ==> step is Err
            &&& next.next_row < read.end && crate::pages::page_of(
                state.plan.pages,
                next.next_row as int,
            ) is Some ==> step is Ok && step->Ok_0 is Ask && step->Ok_0->Ask_read.end == read.end
                && step->Ok_0->Ask_read.batch.target_row == next.next_row && on_track(
                next,
                step->Ok_0->Ask_read.batch,
                read.end as int,
                moved,
            )
        }),
{
    reveal(faithful_step);
    let batch = read.batch;
    let target = batch.target_row as int;
    lemma_holds(state, target);
    if batch.request is Decode {
        assert(0 < sizes(at, batch.rows as int) <= batch.rows);
    }
    let (after, done) = crate::cursor::batch_step(
        state,
        batch,
        faithful_reply(batch.request, at, sizes),
    );
    assert(target < after.next_row <= read.end);
    assert(done is Ok && done->Ok_0 is Done && done->Ok_0->Done_rows > 0);
    if after.next_row < batch.page_end {
        lemma_page_of(state, target, after.next_row as int);
    }
    assert(aligned(after));
    assert forall|row: int| target <= row < after.next_row implies (
    #[trigger] crate::pages::page_of(state.plan.pages, row)) is Some by {
        lemma_page_of(state, target, row);
    }
    if after.next_row < read.end && crate::pages::page_of(
        state.plan.pages,
        after.next_row as int,
    ) is Some {
        lemma_start(
            after,
            after.next_row,
            (read.end - after.next_row) as usize,
            read.end as int,
        );
    }
}

/// A faithful decoder brings a read on track to its end.
proof fn lemma_run(state: CursorState, read: RangeRead, at: int, sizes: BatchSizes, steps: nat)
    requires
        in_order(state),
        decodes_some(sizes),
        read.end <= state.row_count,
        on_track(state, read.batch, read.end as int, at),
        indexed(state, read.batch.target_row as int, read.end as int),
        steps >= steps_left(read),
    ensures
        ({
            let run = range_run(state, read, at, sizes, steps);
            &&& run.outcome == Some(Ok::<(), ForwardReadError>(()))
            &&& run.rows == row_range(read.batch.target_row as int, read.end as int)
            &&& run.state == CursorState {
                physical_position: run.state.physical_position,
                next_row: read.end,
                ..state
            }
            &&& run.at == run.state.physical_position
            &&& aligned(run.state)
        }),
    decreases steps,
{
    let request = read.batch.request;
    let target = read.batch.target_row as int;
    let moved = faithful_move(request, at, sizes);
    let rows = faithful_rows(read.batch, at, sizes);
    let (next, step) = faithful_step(state, read, at, sizes);
    if request is Skip {
        lemma_skip(state, read, at, sizes);
        let more = step->Ok_0->Ask_read;
        lemma_run(next, more, moved, sizes, (steps - 1) as nat);
        assert(rows + range_run(next, more, moved, sizes, (steps - 1) as nat).rows =~= row_range(
            target,
            read.end as int,
        ));
    } else {
        lemma_batch(state, read, at, sizes);
        if next.next_row < read.end {
            assert(crate::pages::page_of(state.plan.pages, next.next_row as int) is Some);
            let more = step->Ok_0->Ask_read;
            lemma_run(next, more, moved, sizes, (steps - 1) as nat);
            assert(rows + range_run(next, more, moved, sizes, (steps - 1) as nat).rows
                =~= row_range(target, read.end as int));
        }
    }
}

/// A read on track that succeeds has a page for each of its rows.
proof fn lemma_run_indexed(
    state: CursorState,
    read: RangeRead,
    at: int,
    sizes: BatchSizes,
    steps: nat,
)
    requires
        in_order(state),
        decodes_some(sizes),
        read.end <= state.row_count,
        on_track(state, read.batch, read.end as int, at),
        range_run(state, read, at, sizes, steps).outcome == Some(Ok::<(), ForwardReadError>(())),
    ensures
        indexed(state, read.batch.target_row as int, read.end as int),
    decreases steps,
{
    let request = read.batch.request;
    let moved = faithful_move(request, at, sizes);
    let (next, step) = faithful_step(state, read, at, sizes);
    if request is Skip {
        lemma_skip(state, read, at, sizes);
        lemma_run_indexed(next, step->Ok_0->Ask_read, moved, sizes, (steps - 1) as nat);
    } else {
        lemma_batch(state, read, at, sizes);
        if next.next_row < read.end {
            assert(crate::pages::page_of(state.plan.pages, next.next_row as int) is Some);
            lemma_run_indexed(next, step->Ok_0->Ask_read, moved, sizes, (steps - 1) as nat);
        }
    }
}

/// A read of a row range delivers each row of the range once and in order, whatever page and
/// row-group boundaries lie in it and however the decoder sizes its batches, and leaves the
/// cursor behind the range. No decoder that serves its requests makes it fail, and it takes at
/// most two requests for each row.
pub proof fn range_delivers_every_row(
    state: CursorState,
    target_row: usize,
    max_rows: usize,
    sizes: BatchSizes,
)
    requires
        in_order(state),
        ready(state, target_row as int),
        decodes_some(sizes),
        state.next_row <= target_row < state.row_count,
        0 < max_rows,
        indexed(state, target_row as int, range_end(state, target_row, max_rows)),
        ends_in_file(state, target_row, max_rows),
    ensures
        ({
            let end = range_end(state, target_row, max_rows);
            let run = range_read(state, target_row, max_rows, sizes);
            &&& run.outcome == Some(Ok::<(), ForwardReadError>(()))
            &&& run.rows == row_range(target_row as int, end)
            &&& run.state.next_row == end
            &&& run.state.row_count == state.row_count
            &&& run.state.plan == state.plan
            &&& run.at == run.state.physical_position
            &&& aligned(run.state)
        }),
{
    let end = range_end(state, target_row, max_rows);
    assert(crate::pages::page_of(state.plan.pages, target_row as int) is Some);
    lemma_start(state, target_row, max_rows, end);
    let read = crate::cursor::range_start(state, target_row, max_rows)->Ok_0->0;
    lemma_run(
        state,
        read,
        state.physical_position as int,
        sizes,
        (2 * (end - target_row)) as nat,
    );
}

/// A read of a row range succeeds exactly where each row of the range lies in a page.
pub proof fn range_succeeds_where_indexed(
    state: CursorState,
    target_row: usize,
    max_rows: usize,
    sizes: BatchSizes,
)
    requires
        in_order(state),
        ready(state, target_row as int),
        decodes_some(sizes),
        state.next_row <= target_row < state.row_count,
        0 < max_rows,
        ends_in_file(state, target_row, max_rows),
    ensures
        range_read(state, target_row, max_rows, sizes).outcome == Some(
            Ok::<(), ForwardReadError>(()),
        ) <==> indexed(state, target_row as int, range_end(state, target_row, max_rows)),
{
    let end = range_end(state, target_row, max_rows);
    if indexed(state, target_row as int, end) {
        range_delivers_every_row(state, target_row, max_rows, sizes);
    }
    if range_read(state, target_row, max_rows, sizes).outcome == Some(
        Ok::<(), ForwardReadError>(()),
    ) {
        assert(crate::pages::page_of(state.plan.pages, target_row as int) is Some);
        lemma_start(state, target_row, max_rows, end);
        lemma_run_indexed(
            state,
            crate::cursor::range_start(state, target_row, max_rows)->Ok_0->0,
            state.physical_position as int,
            sizes,
            (2 * (end - target_row)) as nat,
        );
    }
}

/// A row range that is read in two parts delivers the rows of the range that is read at once,
/// whichever reader of the file reads it and however their decoders size their batches.
pub proof fn split_range_delivers_the_same(
    whole: CursorState,
    parts: CursorState,
    target_row: usize,
    first_rows: usize,
    more_rows: usize,
    sizes: BatchSizes,
    first_sizes: BatchSizes,
    more_sizes: BatchSizes,
)
    requires
        in_order(whole),
        ready(whole, target_row as int),
        ready(parts, target_row as int),
        parts.plan == whole.plan,
        parts.row_count == whole.row_count,
        whole.next_row <= target_row,
        parts.next_row <= target_row,
        0 < first_rows,
        0 < more_rows,
        target_row + first_rows + more_rows <= whole.row_count,
        indexed(whole, target_row as int, target_row + first_rows + more_rows),
        decodes_some(sizes),
        decodes_some(first_sizes),
        decodes_some(more_sizes),
    ensures
        ({
            let all = range_read(whole, target_row, (first_rows + more_rows) as usize, sizes);
            let first = range_read(parts, target_row, first_rows, first_sizes);
            let more = range_read(
                first.state,
                (target_row + first_rows) as usize,
                more_rows,
                more_sizes,
            );
            &&& all.outcome == Some(Ok::<(), ForwardReadError>(()))
            &&& first.outcome == Some(Ok::<(), ForwardReadError>(()))
            &&& more.outcome == Some(Ok::<(), ForwardReadError>(()))
            &&& first.at == first.state.physical_position
            &&& all.rows == first.rows + more.rows
        }),
{
    let start = target_row as int;
    let middle = target_row + first_rows;
    let end = middle + more_rows;
    range_delivers_every_row(whole, target_row, (first_rows + more_rows) as usize, sizes);
    range_delivers_every_row(parts, target_row, first_rows, first_sizes);
    let first = range_read(parts, target_row, first_rows, first_sizes);
    range_delivers_every_row(first.state, middle as usize, more_rows, more_sizes);
    assert(row_range(start, end) =~= row_range(start, middle) + row_range(middle, end));
}

/// What a read of one batch comes to.
pub struct BatchRun {
    /// The cursor's last state.
    pub state: CursorState,
    /// The row that the decoder stands at in the end.
    pub at: int,
    /// The rows that were handed over.
    pub rows: Seq<int>,
    /// How the read ended, if it did.
    pub outcome: Option<Result<usize, ForwardReadError>>,
}

/// What a read of one batch comes to within `steps` replies of a faithful decoder that stands at
/// row `at`.
pub open spec fn batch_run(
    state: CursorState,
    read: BatchRead,
    at: int,
    sizes: BatchSizes,
    steps: nat,
) -> BatchRun
    decreases steps,
{
    if steps == 0 {
        BatchRun { state, at, rows: Seq::empty(), outcome: None }
    } else {
        let rows = faithful_rows(read, at, sizes);
        let moved = faithful_move(read.request, at, sizes);
        let (next, step) = crate::cursor::batch_step(
            state,
            read,
            faithful_reply(read.request, at, sizes),
        );
        match step {
            Err(fault) => BatchRun { state: next, at: moved, rows, outcome: Some(Err(fault)) },
            Ok(BatchStep::Done { rows: count }) => BatchRun {
                state: next,
                at: moved,
                rows,
                outcome: Some(Ok(count)),
            },
            Ok(BatchStep::Ask { read: more }) => {
                let rest = batch_run(next, more, moved, sizes, (steps - 1) as nat);
                BatchRun { rows: rows + rest.rows, ..rest }
            },
        }
    }
}

/// A read of the batch at an indexed row delivers rows from that row on, at least one, none
/// beyond the row's page and no more than asked for, and leaves the cursor behind them. The
/// decoder then stands behind them too, or at the end of the page where that is all null. No
/// decoder that serves its requests makes it fail, and it takes at most two requests.
pub proof fn batch_delivers_rows(
    state: CursorState,
    target_row: usize,
    max_rows: usize,
    sizes: BatchSizes,
)
    requires
        in_order(state),
        ready(state, target_row as int),
        decodes_some(sizes),
        state.next_row <= target_row < state.row_count,
        0 < max_rows,
        crate::pages::page_of(state.plan.pages, target_row as int) is Some,
    ensures
        ({
            let start = crate::cursor::batch_start(state, target_row, max_rows);
            let page = crate::pages::page_of(state.plan.pages, target_row as int)->0;
            let run = batch_run(state, start->Ok_0->0, state.physical_position as int, sizes, 2);
            &&& start is Ok && start->Ok_0 is Some
            &&& run.outcome == Some(Ok::<usize, ForwardReadError>(run.rows.len() as usize))
            &&& run.rows == row_range(target_row as int, run.state.next_row as int)
            &&& target_row < run.state.next_row <= target_row + max_rows
            &&& run.state.next_row <= crate::pages::end_of(page)
            &&& page.all_null ==> run.state.next_row == crate::cursor::smaller(
                target_row + max_rows,
                crate::pages::end_of(page),
            )
            &&& run.state.physical_position == if page.all_null {
                crate::pages::end_of(page)
            } else {
                run.state.next_row as int
            }
            &&& run.state.row_count == state.row_count
            &&& run.state.plan == state.plan
            &&& run.at == run.state.physical_position
            &&& aligned(run.state)
        }),
{
    reveal_with_fuel(batch_run, 3);
    lemma_holds(state, target_row as int);
    lemma_start(state, target_row, max_rows, target_row + max_rows);
    let page = crate::pages::page_of(state.plan.pages, target_row as int)->0;
    let rows = crate::cursor::smaller(max_rows as int, crate::pages::end_of(page) - target_row);
    let read = crate::cursor::batch_start(state, target_row, max_rows)->Ok_0->0;
    assert(0 < sizes(target_row as int, rows) <= rows);
    let run = batch_run(state, read, state.physical_position as int, sizes, 2);
    assert(run.rows =~= row_range(target_row as int, run.state.next_row as int));
    if run.state.next_row < crate::pages::end_of(page) {
        lemma_page_of(state, target_row as int, run.state.next_row as int);
    }
}

/// An aligned decoder has not passed any row from the next one on.
pub proof fn aligned_cursor_is_ready(state: CursorState, row: int)
    requires
        in_order(state),
        aligned(state),
        state.next_row <= row,
    ensures
        ready(state, row),
{
    if state.physical_position > row {
        lemma_holds(state, state.next_row as int);
        lemma_page_of(state, state.next_row as int, row);
    }
}

/// Whether a pending batch's request goes by the row that the cursor takes the decoder to stand
/// at: a skip leads from there to the batch or to the end of its all-null page, and a batch is
/// decoded from there.
pub open spec fn asks_from_position(state: CursorState, read: BatchRead) -> bool {
    &&& 0 < read.rows
    &&& read.target_row + read.rows <= usize::MAX
    &&& match read.request {
        DecoderRequest::Skip { rows } => state.physical_position + rows == if read.all_null {
            read.page_end
        } else {
            read.target_row
        },
        DecoderRequest::Decode { rows } => state.physical_position == read.target_row && rows
            == read.rows,
        DecoderRequest::Nulls { rows } => rows == read.rows,
    }
}

/// A batch starts with a request that goes by the row that the decoder stands at.
pub proof fn batches_start_from_position(state: CursorState, target_row: usize, max_rows: usize)
    requires
        in_order(state),
        crate::cursor::batch_start(state, target_row, max_rows) is Ok,
        crate::cursor::batch_start(state, target_row, max_rows)->Ok_0 is Some,
    ensures
        asks_from_position(
            state,
            crate::cursor::batch_start(state, target_row, max_rows)->Ok_0->0,
        ),
{
    lemma_holds(state, target_row as int);
}

/// A decoder that stands at the cursor's physical position and serves the request of a batch
/// stands at the physical position again, so the batch may be dropped at any point; and the next
/// request goes by that position too.
pub proof fn served_batch_keeps_position(state: CursorState, read: BatchRead, sizes: BatchSizes)
    requires
        decodes_some(sizes),
        asks_from_position(state, read),
    ensures
        ({
            let at = state.physical_position as int;
            let (next, step) = crate::cursor::batch_step(
                state,
                read,
                faithful_reply(read.request, at, sizes),
            );
            &&& step is Ok
            &&& next.physical_position == faithful_move(read.request, at, sizes)
            &&& step matches Ok(BatchStep::Ask { read: more }) ==> asks_from_position(next, more)
        }),
{
    assert(0 < sizes(state.physical_position as int, read.rows as int) <= read.rows);
}

/// A decoder that stands at the cursor's physical position and serves the request of a range
/// stands at the physical position again, so the range may be dropped at any point, even where it
/// then fails; and the next request goes by that position too.
pub proof fn served_range_keeps_position(state: CursorState, read: RangeRead, sizes: BatchSizes)
    requires
        in_order(state),
        decodes_some(sizes),
        asks_from_position(state, read.batch),
    ensures
        ({
            let at = state.physical_position as int;
            let request = read.batch.request;
            let (next, step) = crate::cursor::range_step(
                state,
                read,
                faithful_reply(request, at, sizes),
            );
            &&& next.physical_position == faithful_move(request, at, sizes)
            &&& step matches Ok(RangeStep::Ask { read: more }) ==> asks_from_position(
                next,
                more.batch,
            )
        }),
{
    served_batch_keeps_position(state, read.batch, sizes);
    let (next, step) = crate::cursor::batch_step(
        state,
        read.batch,
        faithful_reply(read.batch.request, state.physical_position as int, sizes),
    );
    if next.next_row < read.end {
        let max_rows = (read.end - next.next_row) as usize;
        let start = crate::cursor::batch_start(next, next.next_row, max_rows);
        if start is Ok && start->Ok_0 is Some {
            batches_start_from_position(next, next.next_row, max_rows);
        }
    }
}

/// A batch that is dropped after its skip can be read again, and delivers the same rows then.
pub proof fn dropped_batch_is_read_again(
    state: CursorState,
    target_row: usize,
    max_rows: usize,
    sizes: BatchSizes,
)
    requires
        in_order(state),
        ready(state, target_row as int),
        decodes_some(sizes),
        state.next_row <= target_row < state.row_count,
        0 < max_rows,
        crate::pages::page_of(state.plan.pages, target_row as int) is Some,
        crate::cursor::batch_start(state, target_row, max_rows)->Ok_0->0.request is Skip,
    ensures
        ({
            let at = state.physical_position as int;
            let read = crate::cursor::batch_start(state, target_row, max_rows)->Ok_0->0;
            let next = crate::cursor::batch_step(
                state,
                read,
                faithful_reply(read.request, at, sizes),
            ).0;
            let again = crate::cursor::batch_start(next, target_row, max_rows);
            &&& next.next_row == state.next_row
            &&& ready(next, target_row as int)
            &&& again is Ok && again->Ok_0 is Some
            &&& batch_run(next, again->Ok_0->0, next.physical_position as int, sizes, 2)
                == batch_run(state, read, at, sizes, 2)
        }),
{
    reveal_with_fuel(batch_run, 3);
    lemma_holds(state, target_row as int);
    lemma_start(state, target_row, max_rows, target_row + max_rows);
    let at = state.physical_position as int;
    let read = crate::cursor::batch_start(state, target_row, max_rows)->Ok_0->0;
    let next = crate::cursor::batch_step(state, read, faithful_reply(read.request, at, sizes)).0;
    lemma_start(next, target_row, max_rows, target_row + max_rows);
    let again = crate::cursor::batch_start(next, target_row, max_rows)->Ok_0->0;
    assert(0 < sizes(target_row as int, read.rows as int) <= read.rows);
    let one = batch_run(state, read, at, sizes, 2);
    let other = batch_run(next, again, next.physical_position as int, sizes, 2);
    assert(one.rows =~= other.rows);
}

/// A new cursor is aligned.
pub proof fn first_row_is_aligned(state: CursorState)
    requires
        state.physical_position == 0,
        state.next_row == 0,
    ensures
        aligned(state),
{
}

/// A reply that fails a batch changes nothing in the cursor.
pub proof fn failed_batch_keeps_cursor(state: CursorState, read: BatchRead, reply: DecoderReply)
    requires
        crate::cursor::answers(read.request, reply),
        crate::cursor::batch_step(state, read, reply).1 is Err,
    ensures
        crate::cursor::batch_step(state, read, reply).0 == state,
{
}

/// A partly read all-null page is read on without the decoder.
pub proof fn null_page_is_read_on(state: CursorState, target_row: usize, max_rows: usize)
    requires
        in_order(state),
        state.next_row <= target_row < state.row_count,
        0 < max_rows,
        crate::pages::page_of(state.plan.pages, target_row as int) matches Some(page)
            && page.all_null && state.physical_position == crate::pages::end_of(page),
    ensures
        ({
            let start = crate::cursor::batch_start(state, target_row, max_rows);
            let rows = crate::cursor::smaller(
                max_rows as int,
                state.physical_position - target_row,
            ) as usize;
            let (next, step) = crate::cursor::batch_step(
                state,
                start->Ok_0->0,
                DecoderReply::NullsBuilt,
            );
            &&& start is Ok && start->Ok_0 is Some
            &&& start->Ok_0->0.request == (DecoderRequest::Nulls { rows })
            &&& step == Ok::<BatchStep, ForwardReadError>(BatchStep::Done { rows })
            &&& next == CursorState { next_row: (target_row + rows) as usize, ..state }
        }),
{
    lemma_holds(state, target_row as int);
}

/// Whether a pending batch lies at or behind the next row, and the decoder does not have to go
/// back for it.
pub open spec fn lies_ahead(state: CursorState, read: BatchRead) -> bool {
    &&& state.next_row <= read.target_row
    &&& match read.request {
        DecoderRequest::Nulls { .. } => true,
        DecoderRequest::Decode { .. } => state.physical_position <= read.target_row,
        DecoderRequest::Skip { .. } => state.physical_position <= if read.all_null {
            read.page_end
        } else {
            read.target_row
        },
    }
}

/// A batch starts at or behind the next row, and ahead of the decoder.
pub proof fn batches_start_ahead(state: CursorState, target_row: usize, max_rows: usize)
    requires
        in_order(state),
        crate::cursor::batch_start(state, target_row, max_rows) is Ok,
        crate::cursor::batch_start(state, target_row, max_rows)->Ok_0 is Some,
    ensures
        lies_ahead(state, crate::cursor::batch_start(state, target_row, max_rows)->Ok_0->0),
{
    lemma_holds(state, target_row as int);
}

/// Neither the decoder nor the next row ever goes back while a batch is read, whatever the
/// decoder replies, the batch stays ahead of them until it is complete, and the file and its
/// pages stay the same.
pub proof fn batch_never_goes_back(state: CursorState, read: BatchRead, reply: DecoderReply)
    requires
        lies_ahead(state, read),
        crate::cursor::answers(read.request, reply),
        crate::cursor::batch_addressable(read, reply),
    ensures
        ({
            let (next, step) = crate::cursor::batch_step(state, read, reply);
            &&& state.next_row <= next.next_row
            &&& state.physical_position <= next.physical_position
            &&& next.row_count == state.row_count
            &&& next.plan == state.plan
            &&& step matches Ok(BatchStep::Ask { read: more }) ==> lies_ahead(next, more)
            &&& step matches Ok(BatchStep::Done { rows }) ==> next.next_row == read.target_row
                + rows
        }),
{
}

/// Neither the decoder nor the next row ever goes back while a row range is read, whatever the
/// decoder replies, the pending batch stays ahead of them, and the file and its pages stay the
/// same.
pub proof fn range_never_goes_back(state: CursorState, read: RangeRead, reply: DecoderReply)
    requires
        in_order(state),
        lies_ahead(state, read.batch),
        crate::cursor::answers(read.batch.request, reply),
        crate::cursor::batch_addressable(read.batch, reply),
    ensures
        ({
            let (next, step) = crate::cursor::range_step(state, read, reply);
            &&& state.next_row <= next.next_row
            &&& state.physical_position <= next.physical_position
            &&& next.row_count == state.row_count
            &&& next.plan == state.plan
            &&& step matches Ok(RangeStep::Ask { read: more }) ==> lies_ahead(next, more.batch)
                && more.end == read.end
            &&& step == Ok::<RangeStep, ForwardReadError>(RangeStep::Done) ==> next.next_row
                >= read.end
        }),
{
    batch_never_goes_back(state, read.batch, reply);
    let (next, step) = crate::cursor::batch_step(state, read.batch, reply);
    if next.next_row < read.end {
        let max_rows = (read.end - next.next_row) as usize;
        let start = crate::cursor::batch_start(next, next.next_row, max_rows);
        if start is Ok && start->Ok_0 is Some {
            batches_start_ahead(next, next.next_row, max_rows);
        }
    }
}

} // verus!
