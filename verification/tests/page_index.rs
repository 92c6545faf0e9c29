use arrow::array::{ArrayRef, Int32Array, RecordBatch};
use arrow_schema::{DataType, Field, Schema};
use bytes::Bytes;
use parquet::arrow::ArrowWriter;
use parquet::file::metadata::{PageIndexPolicy, ParquetMetaData, ParquetMetaDataReader};
use parquet::file::page_index::column_index::ColumnIndexMetaData;
use parquet::file::page_index::offset_index::{OffsetIndexMetaData, PageLocation};
use parquet::file::properties::WriterProperties;
use parquet_forward::byte_ranges::coalesce_ranges;
use parquet_forward::index_ranges::{checked_required_ranges, required_ranges};
use parquet_forward::indexes::{CachedPageIndexes, PageIndexProvider};
use parquet_forward::key::PageIndexKey;
use parquet_forward::key_set::PageIndexKeySet;
use parquet_forward::metadata_cache::CachedParquetMetaData;
use parquet_forward::selection::PageIndexSelection;
use std::sync::Arc;

/// Writes a Parquet file with columns `a`, `b`, `c` and two row groups of four rows each.
fn write_parquet_file() -> Bytes {
    let schema = Arc::new(Schema::new(vec![
        Field::new("a", DataType::Int32, false),
        Field::new("b", DataType::Int32, false),
        Field::new("c", DataType::Int32, false),
    ]));
    let props = WriterProperties::builder()
        .set_max_row_group_row_count(Some(4))
        .build();
    let mut buf = Vec::new();
    let mut writer = ArrowWriter::try_new(&mut buf, Arc::clone(&schema), Some(props)).unwrap();
    let column =
        |base: i32| -> ArrayRef { Arc::new(Int32Array::from_iter_values(base..base + 8)) };
    let batch =
        RecordBatch::try_new(schema, vec![column(0), column(100), column(200)]).unwrap();
    writer.write(&batch).unwrap();
    writer.close().unwrap();
    Bytes::from(buf)
}

fn read_metadata(file: &Bytes, policy: PageIndexPolicy) -> ParquetMetaData {
    ParquetMetaDataReader::new()
        .with_page_index_policy(policy)
        .parse_and_finish(file)
        .unwrap()
}

/// Decodes the file's page indexes and copies only the entries in `selection`.
fn decode_selected_page_indexes(
    file: &Bytes,
    selection: &PageIndexSelection,
) -> CachedPageIndexes {
    let full = read_metadata(file, PageIndexPolicy::Required);
    let column_index = full.column_index().unwrap();
    let offset_index = full.offset_index().unwrap();

    let mut decoded = CachedPageIndexes::new();
    for key in selection.column_indexes().to_vec() {
        decoded = decoded.with_column_index(
            key,
            Arc::new(column_index[key.row_group_index][key.column_index].clone()),
        );
    }
    for key in selection.offset_indexes().to_vec() {
        decoded = decoded.with_offset_index(
            key,
            Arc::new(offset_index[key.row_group_index][key.column_index].clone()),
        );
    }
    decoded
}

fn key_set(keys: &[PageIndexKey]) -> PageIndexKeySet {
    let mut set = PageIndexKeySet::new();
    for key in keys {
        set.insert(*key);
    }
    set
}

fn offset_index_with(pages: usize) -> OffsetIndexMetaData {
    let file = write_parquet_file();
    let full = read_metadata(&file, PageIndexPolicy::Required);
    let mut index = full.offset_index().unwrap()[0][0].clone();
    index.page_locations = (0..pages)
        .map(|page| PageLocation {
            offset: page as i64,
            compressed_page_size: 1,
            first_row_index: page as i64,
        })
        .collect();
    index
}

#[test]
fn reports_only_uncached_entries_as_missing() {
    let cached_column_key = PageIndexKey::new(1, 2);
    let missing_column_key = PageIndexKey::new(1, 3);
    let missing_offset_key = PageIndexKey::new(1, 4);
    let selection = PageIndexSelection::new()
        .with_column_index(cached_column_key)
        .with_column_index(missing_column_key)
        .with_offset_index(missing_offset_key);

    let cached = CachedPageIndexes::new()
        .with_column_index(cached_column_key, Arc::new(ColumnIndexMetaData::NONE));
    let missing = cached.missing(&selection);

    assert!(!missing.column_indexes().contains(&cached_column_key));
    assert!(missing.column_indexes().contains(&missing_column_key));
    assert!(missing.offset_indexes().contains(&missing_offset_key));
}

#[test]
fn extend_retains_existing_entries_and_adds_new_entries() {
    let first_key = PageIndexKey::new(0, 1);
    let second_key = PageIndexKey::new(2, 3);
    let mut cached = CachedPageIndexes::new()
        .with_column_index(first_key, Arc::new(ColumnIndexMetaData::NONE));

    cached.extend(
        CachedPageIndexes::new()
            .with_column_index(second_key, Arc::new(ColumnIndexMetaData::NONE)),
    );

    assert!(cached.column_index(&first_key).is_some());
    assert!(cached.column_index(&second_key).is_some());
}

/// The flow of `SELECT a, c FROM t WHERE a > 5` through selection, cache and provider.
#[test]
fn scan_plan_is_consumed_into_selection_cache_and_provider() {
    let file = write_parquet_file();

    let footer = Arc::new(read_metadata(&file, PageIndexPolicy::Skip));
    assert_eq!(footer.num_row_groups(), 2);
    assert!(footer.column_index().is_none());

    let selection = PageIndexSelection::for_scan(vec![1], &[0], &[0, 2]);

    let exact = required_ranges(&footer, &selection);
    assert_eq!(exact.len(), 3);
    assert_eq!(coalesce_ranges(exact, u64::MAX).len(), 1);

    let mut entry = CachedParquetMetaData::new(Arc::clone(&footer));

    let mut indexes = entry.page_indexes_for(&selection);
    let missing = indexes.missing(&selection);
    assert_eq!(missing, selection, "first query misses everything");
    let decoded = decode_selected_page_indexes(&file, &missing);
    entry.merge_page_indexes(decoded.clone());
    indexes.extend(decoded);

    let second_selection = PageIndexSelection::for_scan(vec![1], &[0], &[0, 1]);
    let second_missing = entry
        .page_indexes_for(&second_selection)
        .missing(&second_selection);
    assert_eq!(second_missing.column_indexes().len(), 0);
    assert_eq!(
        second_missing.offset_indexes(),
        &key_set(&[PageIndexKey::new(1, 1)])
    );

    let provider: &dyn PageIndexProvider = &indexes;
    assert!(provider.column_index(1, 0).is_some());
    assert!(provider.offset_index(1, 2).is_some());
    assert!(provider.column_index(0, 0).is_none());
    assert!(provider.offset_index(1, 1).is_none());
    assert!(footer.column_index().is_none());
    assert!(footer.offset_index().is_none());
}

#[test]
fn key_holds_its_indexes() {
    let key = PageIndexKey::new(7, usize::MAX);
    assert_eq!(key.row_group_index, 7);
    assert_eq!(key.column_index, usize::MAX);
    assert_ne!(key, PageIndexKey::new(usize::MAX, 7));
}

#[test]
fn key_set_keeps_distinct_keys() {
    let keys = [
        PageIndexKey::new(0, 1),
        PageIndexKey::new(1, 0),
        PageIndexKey::new(usize::MAX, usize::MAX),
        PageIndexKey::new(usize::MAX, 0),
    ];
    let mut set = PageIndexKeySet::new();
    assert!(set.is_empty());
    for key in keys {
        assert!(set.insert(key));
        assert!(!set.insert(key));
    }
    assert_eq!(set.len(), 4);
    assert!(!set.is_empty());
    assert!(!set.contains(&PageIndexKey::new(0, 0)));
    let listed = set.to_vec();
    assert_eq!(listed.len(), 4);
    for key in keys {
        assert!(set.contains(&key));
        assert!(listed.contains(&key));
    }
    let copy = set.clone();
    assert_eq!(copy, set);
    assert_ne!(copy, PageIndexKeySet::default());
    assert_ne!(key_set(&keys[0..2]), key_set(&keys[1..3]));
}

#[test]
fn selection_starts_empty_and_compares_by_entries() {
    let key = PageIndexKey::new(3, 4);
    let empty = PageIndexSelection::new();
    assert!(empty.is_empty());
    assert_eq!(empty, PageIndexSelection::default());
    let column = PageIndexSelection::new().with_column_index(key);
    let offset = PageIndexSelection::new().with_offset_index(key);
    assert!(!column.is_empty());
    assert!(!offset.is_empty());
    assert_ne!(column, offset);
    assert_eq!(column.clone(), column);
    assert_eq!(
        PageIndexSelection::from_keys(key_set(&[key]), PageIndexKeySet::new()),
        column
    );
}

#[test]
fn scan_needs_offsets_of_predicate_and_projection() {
    let selection = PageIndexSelection::for_scan(vec![2, 5, 2], &[1], &[3, 1]);
    assert_eq!(
        selection.column_indexes(),
        &key_set(&[PageIndexKey::new(2, 1), PageIndexKey::new(5, 1)])
    );
    assert_eq!(
        selection.offset_indexes(),
        &key_set(&[
            PageIndexKey::new(2, 1),
            PageIndexKey::new(2, 3),
            PageIndexKey::new(5, 1),
            PageIndexKey::new(5, 3),
        ])
    );
    assert!(PageIndexSelection::for_scan(vec![], &[1], &[2]).is_empty());
    assert!(PageIndexSelection::for_scan(vec![1], &[], &[]).is_empty());
}

#[test]
fn resolved_selection_is_what_the_cache_holds() {
    let file = write_parquet_file();
    let footer = Arc::new(read_metadata(&file, PageIndexPolicy::Skip));
    let mut entry = CachedParquetMetaData::new(footer);
    let earlier = PageIndexSelection::for_scan(vec![0], &[1], &[]);
    entry.merge_page_indexes(decode_selected_page_indexes(&file, &earlier));

    let selection = PageIndexSelection::for_scan(vec![0, 1], &[1], &[2]);
    let mut taken = entry.page_indexes_for(&selection);
    assert_eq!(taken.len(), 2);
    let missing = taken.missing(&selection);
    let decoded = decode_selected_page_indexes(&file, &missing);
    assert_eq!(decoded.len(), 4);
    entry.merge_page_indexes(decoded.clone());
    taken.extend(decoded);

    assert!(entry.page_indexes_for(&selection).missing(&selection).is_empty());
    assert!(taken.missing(&selection).is_empty());
    let cached = entry.page_indexes_for(&selection);
    assert_eq!(cached.len(), taken.len());
    for key in selection.offset_indexes().to_vec() {
        assert!(Arc::ptr_eq(
            cached.offset_index(&key).unwrap(),
            taken.offset_index(&key).unwrap()
        ));
    }
}

#[test]
fn merged_entries_replace_cached_ones() {
    let key = PageIndexKey::new(0, 0);
    let old = Arc::new(offset_index_with(1));
    let new = Arc::new(offset_index_with(2));
    let mut indexes = CachedPageIndexes::default().with_offset_index(key, Arc::clone(&old));
    indexes.extend(CachedPageIndexes::new());
    assert!(Arc::ptr_eq(indexes.offset_index(&key).unwrap(), &old));
    indexes.extend(CachedPageIndexes::new().with_offset_index(key, Arc::clone(&new)));
    assert!(Arc::ptr_eq(indexes.offset_index(&key).unwrap(), &new));
    assert_eq!(indexes.len(), 1);
    assert_eq!(indexes.checked_len(), Some(1));
}

#[test]
fn merging_never_makes_entries_missing() {
    let selection = PageIndexSelection::for_scan(vec![0, 1], &[0], &[1]);
    let index = Arc::new(offset_index_with(1));
    let mut indexes = CachedPageIndexes::new()
        .with_offset_index(PageIndexKey::new(0, 0), Arc::clone(&index));
    let before = indexes.missing(&selection);
    indexes.extend(
        CachedPageIndexes::new()
            .with_offset_index(PageIndexKey::new(1, 1), Arc::clone(&index))
            .with_offset_index(PageIndexKey::new(7, 7), index),
    );
    let after = indexes.missing(&selection);
    for key in after.offset_indexes().to_vec() {
        assert!(before.offset_indexes().contains(&key));
    }
    assert_eq!(before.offset_indexes().len(), 3);
    assert_eq!(after.offset_indexes().len(), 2);
    assert_eq!(after.column_indexes(), before.column_indexes());
}

#[test]
fn subset_shares_the_selected_entries() {
    let kept = PageIndexKey::new(0, 0);
    let left = PageIndexKey::new(0, 1);
    let index = Arc::new(offset_index_with(1));
    let indexes = CachedPageIndexes::new()
        .with_offset_index(kept, Arc::clone(&index))
        .with_offset_index(left, Arc::clone(&index));
    let selection = PageIndexSelection::new()
        .with_offset_index(kept)
        .with_offset_index(PageIndexKey::new(9, 9));
    let subset = indexes.subset(&selection);
    assert_eq!(subset.len(), 1);
    assert!(Arc::ptr_eq(subset.offset_index(&kept).unwrap(), &index));
    assert!(subset.offset_index(&left).is_none());
    assert_eq!(subset.missing(&selection), indexes.missing(&selection));
    assert_eq!(Arc::strong_count(&index), 4);
}

#[test]
fn memory_estimate_counts_entries_and_pages() {
    let indexes = CachedPageIndexes::new();
    assert!(indexes.is_empty());
    assert_eq!(indexes.memory_estimate(), 0);

    let offset_base = std::mem::size_of::<OffsetIndexMetaData>();
    let per_page = std::mem::size_of::<PageLocation>();
    let indexes = indexes
        .with_offset_index(PageIndexKey::new(0, 0), Arc::new(offset_index_with(3)))
        .with_offset_index(PageIndexKey::new(0, 1), Arc::new(offset_index_with(0)));
    assert!(!indexes.is_empty());
    assert_eq!(indexes.memory_estimate(), 2 * offset_base + 3 * per_page);

    let file = write_parquet_file();
    let full = read_metadata(&file, PageIndexPolicy::Required);
    let column_index = full.column_index().unwrap()[0][0].clone();
    assert_eq!(column_index.num_pages(), 1);
    let indexes =
        indexes.with_column_index(PageIndexKey::new(0, 0), Arc::new(column_index));
    assert_eq!(
        indexes.checked_memory_estimate(),
        Some(
            2 * offset_base
                + 3 * per_page
                + std::mem::size_of::<ColumnIndexMetaData>()
                + 64
        )
    );
}

#[test]
fn placeholder_has_no_memory_estimate() {
    let indexes = CachedPageIndexes::new()
        .with_column_index(PageIndexKey::new(0, 0), Arc::new(ColumnIndexMetaData::NONE));
    assert_eq!(indexes.checked_memory_estimate(), None);
}

#[test]
fn required_ranges_are_the_recorded_ones_in_order() {
    let file = write_parquet_file();
    let footer = read_metadata(&file, PageIndexPolicy::Skip);
    let selection = PageIndexSelection::for_scan(vec![0, 1], &[2], &[0]);
    let ranges = checked_required_ranges(&footer, &selection).unwrap();
    let mut expected = Vec::new();
    for row_group in 0..2 {
        let chunk = footer.row_group(row_group).column(2);
        let start = chunk.column_index_offset().unwrap() as u64;
        expected.push(start..start + chunk.column_index_length().unwrap() as u64);
        for column in [0, 2] {
            let chunk = footer.row_group(row_group).column(column);
            let start = chunk.offset_index_offset().unwrap() as u64;
            expected.push(start..start + chunk.offset_index_length().unwrap() as u64);
        }
    }
    expected.sort_by_key(|range| range.start);
    assert_eq!(ranges, expected);
    assert!(expected.windows(2).any(|pair| pair[0].start < pair[1].start));
}

#[test]
fn undescribed_chunks_have_no_ranges() {
    let file = write_parquet_file();
    let footer = read_metadata(&file, PageIndexPolicy::Skip);
    let beyond_groups = PageIndexSelection::for_scan(vec![2], &[0], &[]);
    assert_eq!(checked_required_ranges(&footer, &beyond_groups), None);
    let beyond_columns = PageIndexSelection::for_scan(vec![1], &[], &[3]);
    assert_eq!(checked_required_ranges(&footer, &beyond_columns), None);
    let nothing = PageIndexSelection::new();
    assert_eq!(checked_required_ranges(&footer, &nothing), Some(vec![]));
}

#[test]
fn chunks_without_an_index_produce_no_range() {
    let schema = Arc::new(Schema::new(vec![Field::new("a", DataType::Int32, false)]));
    let props = WriterProperties::builder()
        .set_offset_index_disabled(true)
        .set_statistics_enabled(parquet::file::properties::EnabledStatistics::None)
        .build();
    let mut buf = Vec::new();
    let mut writer = ArrowWriter::try_new(&mut buf, Arc::clone(&schema), Some(props)).unwrap();
    let batch = RecordBatch::try_new(
        schema,
        vec![Arc::new(Int32Array::from_iter_values(0..4))],
    )
    .unwrap();
    writer.write(&batch).unwrap();
    writer.close().unwrap();
    let footer = read_metadata(&Bytes::from(buf), PageIndexPolicy::Skip);
    let selection = PageIndexSelection::for_scan(vec![0], &[0], &[0]);
    assert_eq!(checked_required_ranges(&footer, &selection), Some(vec![]));
}

#[test]
fn cache_entry_describes_its_footer() {
    let file = write_parquet_file();
    let bare = Arc::new(read_metadata(&file, PageIndexPolicy::Skip));
    let entry = CachedParquetMetaData::new(Arc::clone(&bare));
    assert!(Arc::ptr_eq(entry.parquet_metadata(), &bare));
    assert_eq!(
        entry.extra_info(),
        vec![("page_index".to_string(), "false".to_string())]
    );
    let full = Arc::new(read_metadata(&file, PageIndexPolicy::Required));
    let entry = CachedParquetMetaData::new(full);
    assert_eq!(
        entry.extra_info(),
        vec![("page_index".to_string(), "true".to_string())]
    );
}

#[test]
fn cache_entry_counts_footer_and_page_indexes() {
    let file = write_parquet_file();
    let footer = Arc::new(read_metadata(&file, PageIndexPolicy::Skip));
    let mut entry = CachedParquetMetaData::new(Arc::clone(&footer));
    assert_eq!(entry.memory_size(), Some(footer.memory_size()));
    assert!(
        footer.memory_size()
            >= std::mem::size_of::<ParquetMetaData>()
                + 2 * std::mem::size_of::<parquet::file::metadata::RowGroupMetaData>()
    );
    assert_eq!(entry.memory_with_footer(10), Some(10));
    let selection = PageIndexSelection::for_scan(vec![1], &[0], &[2]);
    let decoded = decode_selected_page_indexes(&file, &selection);
    let estimate = decoded.memory_estimate();
    entry.merge_page_indexes(decoded);
    assert!(estimate > 0);
    assert_eq!(entry.memory_with_footer(10), Some(10 + estimate));
    assert_eq!(entry.memory_with_footer(usize::MAX), None);
    assert_eq!(entry.memory_size(), Some(footer.memory_size() + estimate));
    entry.merge_page_indexes(
        CachedPageIndexes::new()
            .with_column_index(PageIndexKey::new(0, 0), Arc::new(ColumnIndexMetaData::NONE)),
    );
    assert_eq!(entry.memory_size(), None);
}
