//! Reasons for which planning or advancing a forward read fails.

use vstd::prelude::*;

verus! {

/// Why a forward read cannot be planned or cannot go on.
#[derive(Debug, Clone, Copy, PartialEq, Eq, Structural)]
pub enum ForwardReadError {
    /// The projection does not select exactly one leaf column.
    ProjectedColumnCount { count: usize },
    /// The metadata holds no OffsetIndex at all.
    NoOffsetIndex,
    /// A row group's row count is negative or does not fit in `usize`.
    RowGroupRowCount { row_group: usize },
    /// A non-empty row group has no page locations for the projected column.
    ChunkOffsetIndex { row_group: usize, column: usize },
    /// A page's first row is negative or does not fit in `usize`.
    PageFirstRow { row_group: usize, page: usize },
    /// A page is empty or reaches past the end of its row group.
    PageRowRange { first_row: usize, end_row: usize, row_group: usize },
    /// The file's row count is negative or does not fit in `usize`.
    FileRowCount,
    /// The requested row lies past the end of the file.
    BeyondRowCount { row: usize, row_count: usize },
    /// The requested row lies before the first one that can still be read.
    BackwardSeek { position: usize, row: usize },
    /// A batch of zero rows was requested.
    ZeroBatchSize,
    /// No page holds the requested row.
    RowNotIndexed { row: usize },
    /// The decoder skipped another number of rows than an all-null page needs.
    NullPageSkip { requested: usize, skipped: usize },
    /// The decoder has already passed a row that has to be decoded.
    DecoderAhead { physical_position: usize, row: usize },
    /// The decoder skipped another number of rows than it was asked to.
    Skip { requested: usize, skipped: usize },
    /// The decoder ended before the requested row.
    Exhausted { row: usize },
    /// The decoder returned an empty batch.
    NoProgress { row: usize },
    /// A page header was to be read without an OffsetIndex.
    PageHeaderScan { start: u64 },
    /// The end of a byte range does not fit in `u64`.
    ByteRangeOverflow,
    /// A byte range reaches past the end of the file.
    ByteRangeBeyondFile { start: u64, end: u64, file_len: u64 },
}

/// The character of a decimal digit.
pub open spec fn digit(value: int) -> char {
    (48 + value) as char
}

/// A number in decimal notation.
pub open spec fn decimal(value: nat) -> Seq<char>
    decreases value,
{
    if value < 10 {
        seq![digit(value as int)]
    } else {
        decimal(value / 10).push(digit((value % 10) as int))
    }
}

/// What an error says.
pub open spec fn message_text(error: ForwardReadError) -> Seq<char> {
    match error {
        ForwardReadError::ProjectedColumnCount { count } => "ParquetForwardBatchReader requires exactly one projected leaf column, got "@ + decimal(count as nat),
        ForwardReadError::NoOffsetIndex => "ParquetForwardBatchReader requires an OffsetIndex"@,
        ForwardReadError::RowGroupRowCount { row_group } => "negative row count for row group "@ + decimal(row_group as nat),
        ForwardReadError::ChunkOffsetIndex { row_group, column } => "OffsetIndex missing for row group "@ + decimal(row_group as nat) + ", column "@ + decimal(column as nat),
        ForwardReadError::PageFirstRow { row_group, page } => "negative first row for row group "@ + decimal(row_group as nat) + ", page "@ + decimal(page as nat),
        ForwardReadError::PageRowRange { first_row, end_row, row_group } => "invalid OffsetIndex row range "@ + decimal(first_row as nat) + ".."@ + decimal(end_row as nat) + " for row group "@ + decimal(row_group as nat),
        ForwardReadError::FileRowCount => "Parquet row count does not fit in usize"@,
        ForwardReadError::BeyondRowCount { row, row_count } => "row "@ + decimal(row as nat) + " is beyond Parquet row count "@ + decimal(row_count as nat),
        ForwardReadError::BackwardSeek { position, row } => "backward seek from "@ + decimal(position as nat) + " to "@ + decimal(row as nat) + " is not supported"@,
        ForwardReadError::ZeroBatchSize => "forward batch size must be greater than zero"@,
        ForwardReadError::RowNotIndexed { row } => "OffsetIndex does not contain row "@ + decimal(row as nat),
        ForwardReadError::NullPageSkip { requested, skipped } => "requested all-null page skip of "@ + decimal(requested as nat) + " rows but skipped "@ + decimal(skipped as nat),
        ForwardReadError::DecoderAhead { physical_position, row } => "physical reader is at "@ + decimal(physical_position as nat) + " before non-null row "@ + decimal(row as nat),
        ForwardReadError::Skip { requested, skipped } => "requested skip of "@ + decimal(requested as nat) + " rows but skipped "@ + decimal(skipped as nat),
        ForwardReadError::Exhausted { row } => "Parquet reader exhausted before row "@ + decimal(row as nat),
        ForwardReadError::NoProgress { row } => "Parquet reader made no progress at row "@ + decimal(row as nat),
        ForwardReadError::PageHeaderScan { start } => "page-header scanning at byte "@ + decimal(start as nat) + " is disabled; an OffsetIndex is required"@,
        ForwardReadError::ByteRangeOverflow => "page range overflow"@,
        ForwardReadError::ByteRangeBeyondFile { start, end, file_len } => "page range "@ + decimal(start as nat) + ".."@ + decimal(end as nat) + " exceeds file length "@ + decimal(file_len as nat),
    }
}

/// The text of a decimal digit.
fn digit_text(value: u64) -> (text: &'static str)
    requires
        value < 10,
    ensures
        text@ == seq![digit(value as int)],
{
    proof {
        reveal_strlit("0");
        reveal_strlit("1");
        reveal_strlit("2");
        reveal_strlit("3");
        reveal_strlit("4");
        reveal_strlit("5");
        reveal_strlit("6");
        reveal_strlit("7");
        reveal_strlit("8");
        reveal_strlit("9");
    }
    let text = match value {
        0 => "0",
        1 => "1",
        2 => "2",
        3 => "3",
        4 => "4",
        5 => "5",
        6 => "6",
        7 => "7",
        8 => "8",
        _ => "9",
    };
    assert(text@ =~= seq![digit(value as int)]);
    text
}

/// Appends a number in decimal notation.
fn push_decimal(text: &mut String, value: u64)
    ensures
        final(text)@ == old(text)@ + decimal(value as nat),
    decreases value,
{
    if value >= 10 {
        push_decimal(text, value / 10);
    }
    text.append(digit_text(value % 10));
    assert(text@ =~= old(text)@ + decimal(value as nat));
}

impl ForwardReadError {
    /// What the error says.
    pub fn message(&self) -> (text: String)
        ensures
            text@ == message_text(*self),
    {
        match self {
            ForwardReadError::ProjectedColumnCount { count } => {
                let mut text = "ParquetForwardBatchReader requires exactly one projected leaf column, got ".to_owned();
                push_decimal(&mut text, *count as u64);
                text
            },
            ForwardReadError::NoOffsetIndex => "ParquetForwardBatchReader requires an OffsetIndex".to_owned(),
            ForwardReadError::RowGroupRowCount { row_group } => {
                let mut text = "negative row count for row group ".to_owned();
                push_decimal(&mut text, *row_group as u64);
                text
            },
            ForwardReadError::ChunkOffsetIndex { row_group, column } => {
                let mut text = "OffsetIndex missing for row group ".to_owned();
                push_decimal(&mut text, *row_group as u64);
                text.append(", column ");
                push_decimal(&mut text, *column as u64);
                text
            },
            ForwardReadError::PageFirstRow { row_group, page } => {
                let mut text = "negative first row for row group ".to_owned();
                push_decimal(&mut text, *row_group as u64);
                text.append(", page ");
                push_decimal(&mut text, *page as u64);
                text
            },
            ForwardReadError::PageRowRange { first_row, end_row, row_group } => {
                let mut text = "invalid OffsetIndex row range ".to_owned();
                push_decimal(&mut text, *first_row as u64);
                text.append("..");
                push_decimal(&mut text, *end_row as u64);
                text.append(" for row group ");
                push_decimal(&mut text, *row_group as u64);
                text
            },
            ForwardReadError::FileRowCount => "Parquet row count does not fit in usize".to_owned(),
            ForwardReadError::BeyondRowCount { row, row_count } => {
                let mut text = "row ".to_owned();
                push_decimal(&mut text, *row as u64);
                text.append(" is beyond Parquet row count ");
                push_decimal(&mut text, *row_count as u64);
                text
            },
            ForwardReadError::BackwardSeek { position, row } => {
                let mut text = "backward seek from ".to_owned();
                push_decimal(&mut text, *position as u64);
                text.append(" to ");
                push_decimal(&mut text, *row as u64);
                text.append(" is not supported");
                text
            },
            ForwardReadError::ZeroBatchSize => "forward batch size must be greater than zero".to_owned(),
            ForwardReadError::RowNotIndexed { row } => {
                let mut text = "OffsetIndex does not contain row ".to_owned();
                push_decimal(&mut text, *row as u64);
                text
            },
            ForwardReadError::NullPageSkip { requested, skipped } => {
                let mut text = "requested all-null page skip of ".to_owned();
                push_decimal(&mut text, *requested as u64);
                text.append(" rows but skipped ");
                push_decimal(&mut text, *skipped as u64);
                text
            },
            ForwardReadError::DecoderAhead { physical_position, row } => {
                let mut text = "physical reader is at ".to_owned();
                push_decimal(&mut text, *physical_position as u64);
                text.append(" before non-null row ");
                push_decimal(&mut text, *row as u64);
                text
            },
            ForwardReadError::Skip { requested, skipped } => {
                let mut text = "requested skip of ".to_owned();
                push_decimal(&mut text, *requested as u64);
                text.append(" rows but skipped ");
                push_decimal(&mut text, *skipped as u64);
                text
            },
            ForwardReadError::Exhausted { row } => {
                let mut text = "Parquet reader exhausted before row ".to_owned();
                push_decimal(&mut text, *row as u64);
                text
            },
            ForwardReadError::NoProgress { row } => {
                let mut text = "Parquet reader made no progress at row ".to_owned();
                push_decimal(&mut text, *row as u64);
                text
            },
            ForwardReadError::PageHeaderScan { start } => {
                let mut text = "page-header scanning at byte ".to_owned();
                push_decimal(&mut text, *start);
                text.append(" is disabled; an OffsetIndex is required");
                text
            },
            ForwardReadError::ByteRangeOverflow => "page range overflow".to_owned(),
            ForwardReadError::ByteRangeBeyondFile { start, end, file_len } => {
                let mut text = "page range ".to_owned();
                push_decimal(&mut text, *start);
                text.append("..");
                push_decimal(&mut text, *end);
                text.append(" exceeds file length ");
                push_decimal(&mut text, *file_len);
                text
            },
        }
    }
}

/// The number that a text of decimal digits stands for.
pub open spec fn number_in(text: Seq<char>) -> int {
    text.fold_left(0int, |value: int, c: char| 10 * value + (c as int - '0' as int))
}

/// The decimal notation of a number consists of digits, reads as that number, and has no needless
/// zero in front.
pub proof fn decimal_reads_as_its_number(value: nat)
    ensures
        decimal(value).len() > 0,
        forall|i: int| 0 <= i < decimal(value).len() ==> '0' <= #[trigger] decimal(value)[i] <= '9',
        number_in(decimal(value)) == value,
        value >= 10 ==> decimal(value)[0] != '0',
        value < 10 ==> decimal(value).len() == 1,
        value > 0 ==> decimal(value)[0] != '0',
    decreases value,
{
    reveal_with_fuel(Seq::fold_left, 2);
    if value >= 10 {
        decimal_reads_as_its_number(value / 10);
        let text = decimal(value);
        assert(text.drop_last() =~= decimal(value / 10));
        assert forall|i: int| 0 <= i < text.len() implies '0' <= #[trigger] text[i] <= '9' by {
            if i < text.len() - 1 {
                assert(text[i] == decimal(value / 10)[i]);
            }
        }
    } else {
        assert(decimal(value).drop_last() =~= Seq::empty());
    }
}

/// Different numbers have different decimal notations.
pub proof fn decimals_tell_numbers_apart(one: nat, other: nat)
    requires
        decimal(one) == decimal(other),
    ensures
        one == other,
{
    decimal_reads_as_its_number(one);
    decimal_reads_as_its_number(other);
}

/// What each error says, whatever numbers it tells: a fixed text around the decimal notation of the
/// numbers.
pub proof fn errors_tell_their_numbers(
    count: usize,
    row_group: usize,
    column: usize,
    page: usize,
    first_row: usize,
    end_row: usize,
    row: usize,
    row_count: usize,
    position: usize,
    requested: usize,
    skipped: usize,
    physical_position: usize,
    start: u64,
    end: u64,
    file_len: u64,
)
    ensures
        message_text(ForwardReadError::ProjectedColumnCount { count }) == "ParquetForwardBatchReader requires exactly one projected leaf column, got "@ + decimal(count as nat),
        message_text(ForwardReadError::NoOffsetIndex) == "ParquetForwardBatchReader requires an OffsetIndex"@,
        message_text(ForwardReadError::RowGroupRowCount { row_group }) == "negative row count for row group "@ + decimal(row_group as nat),
        message_text(ForwardReadError::ChunkOffsetIndex { row_group, column }) == "OffsetIndex missing for row group "@ + decimal(row_group as nat) + ", column "@ + decimal(column as nat),
        message_text(ForwardReadError::PageFirstRow { row_group, page }) == "negative first row for row group "@ + decimal(row_group as nat) + ", page "@ + decimal(page as nat),
        message_text(ForwardReadError::PageRowRange { first_row, end_row, row_group }) == "invalid OffsetIndex row range "@ + decimal(first_row as nat) + ".."@ + decimal(end_row as nat) + " for row group "@ + decimal(row_group as nat),
        message_text(ForwardReadError::FileRowCount) == "Parquet row count does not fit in usize"@,
        message_text(ForwardReadError::BeyondRowCount { row, row_count }) == "row "@ + decimal(row as nat) + " is beyond Parquet row count "@ + decimal(row_count as nat),
        message_text(ForwardReadError::BackwardSeek { position, row }) == "backward seek from "@ + decimal(position as nat) + " to "@ + decimal(row as nat) + " is not supported"@,
        message_text(ForwardReadError::ZeroBatchSize) == "forward batch size must be greater than zero"@,
        message_text(ForwardReadError::RowNotIndexed { row }) == "OffsetIndex does not contain row "@ + decimal(row as nat),
        message_text(ForwardReadError::NullPageSkip { requested, skipped }) == "requested all-null page skip of "@ + decimal(requested as nat) + " rows but skipped "@ + decimal(skipped as nat),
        message_text(ForwardReadError::DecoderAhead { physical_position, row }) == "physical reader is at "@ + decimal(physical_position as nat) + " before non-null row "@ + decimal(row as nat),
        message_text(ForwardReadError::Skip { requested, skipped }) == "requested skip of "@ + decimal(requested as nat) + " rows but skipped "@ + decimal(skipped as nat),
        message_text(ForwardReadError::Exhausted { row }) == "Parquet reader exhausted before row "@ + decimal(row as nat),
        message_text(ForwardReadError::NoProgress { row }) == "Parquet reader made no progress at row "@ + decimal(row as nat),
        message_text(ForwardReadError::PageHeaderScan { start }) == "page-header scanning at byte "@ + decimal(start as nat) + " is disabled; an OffsetIndex is required"@,
        message_text(ForwardReadError::ByteRangeOverflow) == "page range overflow"@,
        message_text(ForwardReadError::ByteRangeBeyondFile { start, end, file_len })
            == "page range "@ + decimal(start as nat) + ".."@ + decimal(end as nat)
            + " exceeds file length "@ + decimal(file_len as nat),
{
}

} // verus!
