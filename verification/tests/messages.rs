use parquet_forward::error::ForwardReadError;

#[test]
fn planning_errors_say_what_is_wrong() {
    let cases = [
        (
            ForwardReadError::ProjectedColumnCount { count: 0 },
            "ParquetForwardBatchReader requires exactly one projected leaf column, got 0",
        ),
        (
            ForwardReadError::NoOffsetIndex,
            "ParquetForwardBatchReader requires an OffsetIndex",
        ),
        (
            ForwardReadError::RowGroupRowCount { row_group: 3 },
            "negative row count for row group 3",
        ),
        (
            ForwardReadError::ChunkOffsetIndex { row_group: 10, column: 7 },
            "OffsetIndex missing for row group 10, column 7",
        ),
        (
            ForwardReadError::PageFirstRow { row_group: 1, page: 99 },
            "negative first row for row group 1, page 99",
        ),
        (
            ForwardReadError::PageRowRange { first_row: 5, end_row: 4, row_group: 100 },
            "invalid OffsetIndex row range 5..4 for row group 100",
        ),
        (
            ForwardReadError::FileRowCount,
            "Parquet row count does not fit in usize",
        ),
    ];
    for (error, text) in cases {
        assert_eq!(error.message(), text);
    }
}

#[test]
fn reading_errors_say_what_is_wrong() {
    let cases = [
        (
            ForwardReadError::BeyondRowCount { row: 21, row_count: 20 },
            "row 21 is beyond Parquet row count 20",
        ),
        (
            ForwardReadError::BackwardSeek { position: 8, row: 2 },
            "backward seek from 8 to 2 is not supported",
        ),
        (
            ForwardReadError::ZeroBatchSize,
            "forward batch size must be greater than zero",
        ),
        (
            ForwardReadError::RowNotIndexed { row: 12 },
            "OffsetIndex does not contain row 12",
        ),
        (
            ForwardReadError::NullPageSkip { requested: 3, skipped: 2 },
            "requested all-null page skip of 3 rows but skipped 2",
        ),
        (
            ForwardReadError::DecoderAhead { physical_position: 6, row: 4 },
            "physical reader is at 6 before non-null row 4",
        ),
        (
            ForwardReadError::Skip { requested: 30, skipped: 0 },
            "requested skip of 30 rows but skipped 0",
        ),
        (
            ForwardReadError::Exhausted { row: 1234567890 },
            "Parquet reader exhausted before row 1234567890",
        ),
        (
            ForwardReadError::NoProgress { row: 11 },
            "Parquet reader made no progress at row 11",
        ),
    ];
    for (error, text) in cases {
        assert_eq!(error.message(), text);
    }
}

#[test]
fn byte_range_errors_say_what_is_wrong() {
    let cases = [
        (
            ForwardReadError::PageHeaderScan { start: u64::MAX },
            "page-header scanning at byte 18446744073709551615 is disabled; an OffsetIndex is required",
        ),
        (ForwardReadError::ByteRangeOverflow, "page range overflow"),
        (
            ForwardReadError::ByteRangeBeyondFile { start: 10, end: 16, file_len: 15 },
            "page range 10..16 exceeds file length 15",
        ),
    ];
    for (error, text) in cases {
        assert_eq!(error.message(), text);
    }
}
