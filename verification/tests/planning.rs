use parquet_forward::error::ForwardReadError;
use parquet_forward::pages::{
    checked_plan_pages, PageSpan, PageStatistics, ParquetForwardPage, RowGroupPages,
};
use parquet_forward::projection::ProjectedPages;

fn plan_pages(
    column: usize,
    repeated: bool,
    groups: &Vec<RowGroupPages>,
) -> Result<Vec<ParquetForwardPage>, ForwardReadError> {
    checked_plan_pages(column, repeated, groups).unwrap()
}

fn span(first_row_index: i64) -> PageSpan {
    PageSpan {
        offset: 100 + first_row_index,
        compressed_page_size: 10,
        first_row_index,
    }
}

fn group(num_rows: i64, starts: &[i64]) -> RowGroupPages {
    RowGroupPages {
        num_rows,
        locations: Some(starts.iter().map(|start| span(*start)).collect()),
        statistics: None,
    }
}

fn page(
    row_group_index: usize,
    page_index: usize,
    first_row: usize,
    row_count: usize,
    offset: i64,
) -> ParquetForwardPage {
    ParquetForwardPage {
        row_group_index,
        page_index,
        first_row,
        row_count,
        file_offset: offset,
        compressed_size: 10,
        null_count: None,
        all_null: false,
    }
}

#[test]
fn pages_of_all_row_groups_follow_each_other() {
    let groups = vec![group(8, &[0, 3, 6]), group(0, &[]), group(5, &[0, 4])];
    let pages = plan_pages(0, false, &groups).unwrap();
    assert_eq!(
        pages,
        vec![
            page(0, 0, 0, 3, 100),
            page(0, 1, 3, 3, 103),
            page(0, 2, 6, 2, 106),
            page(2, 0, 8, 4, 100),
            page(2, 1, 12, 1, 104),
        ]
    );
    for pair in pages.windows(2) {
        assert!(pair[0].first_row + pair[0].row_count <= pair[1].first_row);
    }
}

#[test]
fn repeated_columns_have_one_page_per_row_group() {
    let groups = vec![group(8, &[0, 0, 6]), group(4, &[0])];
    let pages = plan_pages(3, true, &groups).unwrap();
    assert_eq!(
        pages,
        vec![
            ParquetForwardPage { compressed_size: 30, ..page(0, 0, 0, 8, 100) },
            page(1, 0, 8, 4, 100),
        ]
    );
}

#[test]
fn compressed_sizes_saturate() {
    let mut wide = group(2, &[0, 1]);
    wide.locations = Some(vec![
        PageSpan { offset: 4, compressed_page_size: i32::MAX, first_row_index: 0 },
        PageSpan { offset: 5, compressed_page_size: 1, first_row_index: 1 },
    ]);
    let pages = plan_pages(0, true, &vec![wide]).unwrap();
    assert_eq!(pages[0].compressed_size, i32::MAX);
    let mut negative = group(2, &[0, 1]);
    negative.locations = Some(vec![
        PageSpan { offset: 4, compressed_page_size: i32::MIN, first_row_index: 0 },
        PageSpan { offset: 5, compressed_page_size: -1, first_row_index: 1 },
    ]);
    let pages = plan_pages(0, true, &vec![negative]).unwrap();
    assert_eq!(pages[0].compressed_size, i32::MAX);
}

#[test]
fn null_pages_are_told_by_mark_or_count() {
    let mut nulls = group(9, &[0, 3, 6]);
    nulls.statistics = Some(vec![
        PageStatistics { is_null_page: true, null_count: None },
        PageStatistics { is_null_page: false, null_count: Some(3) },
        PageStatistics { is_null_page: false, null_count: Some(2) },
    ]);
    let pages = plan_pages(0, false, &vec![nulls]).unwrap();
    let told: Vec<(bool, Option<i64>)> =
        pages.iter().map(|page| (page.all_null, page.null_count)).collect();
    assert_eq!(told, vec![(true, None), (true, Some(3)), (false, Some(2))]);
}

#[test]
fn pages_without_statistics_are_not_null() {
    let mut short = group(6, &[0, 3]);
    short.statistics = Some(vec![PageStatistics { is_null_page: true, null_count: Some(3) }]);
    let pages = plan_pages(0, false, &vec![short]).unwrap();
    assert!(pages[0].all_null);
    assert!(!pages[1].all_null);
    assert_eq!(pages[1].null_count, None);
}

#[test]
fn negative_row_count_is_refused() {
    assert_eq!(
        plan_pages(0, false, &vec![group(1, &[0]), group(-1, &[0])]),
        Err(ForwardReadError::RowGroupRowCount { row_group: 1 })
    );
}

#[test]
fn missing_offset_index_is_refused() {
    let refused = Err(ForwardReadError::ChunkOffsetIndex { row_group: 0, column: 6 });
    assert_eq!(plan_pages(6, false, &vec![group(1, &[])]), refused);
    assert_eq!(plan_pages(6, true, &vec![group(1, &[])]), refused);
    let absent = RowGroupPages { num_rows: 1, locations: None, statistics: None };
    assert_eq!(plan_pages(6, false, &vec![absent]), refused);
    let empty = RowGroupPages { num_rows: 0, locations: None, statistics: None };
    assert_eq!(plan_pages(6, false, &vec![empty]), Ok(vec![]));
}

#[test]
fn page_rows_must_ascend_within_the_row_group() {
    assert_eq!(
        plan_pages(0, false, &vec![group(5, &[-1, 2])]),
        Err(ForwardReadError::PageFirstRow { row_group: 0, page: 0 })
    );
    assert_eq!(
        plan_pages(0, false, &vec![group(5, &[0, -2])]),
        Err(ForwardReadError::PageFirstRow { row_group: 0, page: 1 })
    );
    assert_eq!(
        plan_pages(0, false, &vec![group(5, &[0, 2, 2])]),
        Err(ForwardReadError::PageRowRange { first_row: 2, end_row: 2, row_group: 0 })
    );
    assert_eq!(
        plan_pages(0, false, &vec![group(5, &[0, 6])]),
        Err(ForwardReadError::PageRowRange { first_row: 0, end_row: 6, row_group: 0 })
    );
    assert_eq!(
        plan_pages(0, false, &vec![group(5, &[5])]),
        Err(ForwardReadError::PageRowRange { first_row: 5, end_row: 5, row_group: 0 })
    );
}

#[test]
fn rows_past_the_last_index_are_not_planned() {
    let groups = vec![group(i64::MAX, &[0]), group(i64::MAX, &[0]), group(2, &[0])];
    assert!(checked_plan_pages(0, false, &groups).is_none());
    let groups = vec![group(i64::MAX, &[0]), group(i64::MAX, &[0]), group(-1, &[0])];
    assert_eq!(
        checked_plan_pages(0, false, &groups),
        Some(Err(ForwardReadError::RowGroupRowCount { row_group: 2 }))
    );
}

#[test]
fn each_row_is_found_in_its_page() {
    let groups = vec![group(8, &[1, 3, 6]), group(5, &[0, 4])];
    let plan = ProjectedPages::from_row_groups(2, false, &groups).unwrap().unwrap();
    assert_eq!(plan.leaf_column(), 2);
    assert!(!plan.is_repeated());
    assert_eq!(plan.pages().len(), 5);
    assert_eq!(
        plan.page_at(0),
        Err(ForwardReadError::RowNotIndexed { row: 0 })
    );
    for row in 1..13 {
        let page = plan.page_at(row).unwrap();
        assert!(page.first_row <= row && row < page.first_row + page.row_count);
        assert_eq!(
            plan.pages()
                .iter()
                .filter(|page| page.first_row <= row && row < page.first_row + page.row_count)
                .count(),
            1
        );
    }
    assert_eq!(
        plan.page_at(13),
        Err(ForwardReadError::RowNotIndexed { row: 13 })
    );
}
