use arrow::array::{new_null_array, Array, Int32Array};
use arrow::compute::concat_batches;
use arrow::datatypes::{DataType, Field, Schema};
use arrow::record_batch::{RecordBatch, RecordBatchReader};
use bytes::Bytes;
use parquet::arrow::arrow_reader::{
    ArrowReaderMetadata, ArrowReaderOptions, ParquetRecordBatchReader,
    ParquetRecordBatchReaderBuilder,
};
use parquet::arrow::{ArrowWriter, ProjectionMask};
use parquet::file::metadata::{PageIndexPolicy, ParquetMetaData, ParquetMetaDataReader};
use parquet::file::properties::WriterProperties;
use parquet_forward::cursor::{DecoderReply, DecoderRequest, RangeStep};
use parquet_forward::error::ForwardReadError;
use parquet_forward::forward::{decoder_batch_size, ParquetForwardBatchReader};
use parquet_forward::projection::select_leaves;
use std::sync::Arc;

/// A forward reader over a file in memory, together with the decoder that serves it.
struct FileReader {
    file: Bytes,
    metadata: Arc<ParquetMetaData>,
    projection: ProjectionMask,
    reader: ParquetForwardBatchReader,
    at: usize,
}

impl FileReader {
    fn decoder(&self, offset: usize, limit: usize) -> ParquetRecordBatchReader {
        let arrow_metadata =
            ArrowReaderMetadata::try_new(Arc::clone(&self.metadata), ArrowReaderOptions::new())
                .unwrap();
        ParquetRecordBatchReaderBuilder::new_with_metadata(
            self.file.clone(),
            arrow_metadata,
        )
        .with_projection(self.projection.clone())
        .with_batch_size(decoder_batch_size(limit))
        .with_offset(offset)
        .with_limit(limit)
        .build()
        .unwrap()
    }

    fn read_range_at(
        &mut self,
        target_row: usize,
        max_rows: usize,
    ) -> Result<Option<RecordBatch>, ForwardReadError> {
        let Some(mut read) = self.reader.read_range_at(target_row, max_rows)? else {
            return Ok(None);
        };
        let mut batches = Vec::new();
        loop {
            let reply = match read.batch.request {
                DecoderRequest::Skip { rows } => {
                    self.at += rows;
                    DecoderReply::Skipped { rows }
                }
                DecoderRequest::Decode { rows } => {
                    match self.decoder(self.at, rows).next() {
                        Some(batch) => {
                            let batch = batch.unwrap();
                            self.at += batch.num_rows();
                            batches.push(batch);
                            DecoderReply::Decoded { rows: batches.last().unwrap().num_rows() }
                        }
                        None => DecoderReply::Exhausted,
                    }
                }
                DecoderRequest::Nulls { rows } => {
                    let schema = self.decoder(0, 1).schema();
                    let columns = schema
                        .fields()
                        .iter()
                        .map(|field| new_null_array(field.data_type(), rows))
                        .collect();
                    batches.push(RecordBatch::try_new(schema, columns).unwrap());
                    DecoderReply::NullsBuilt
                }
            };
            match self.reader.advance_range(read, reply)? {
                RangeStep::Ask { read: next } => read = next,
                RangeStep::Done => break,
            }
        }
        Ok(Some(concat_batches(&batches[0].schema(), &batches).unwrap()))
    }
}

fn write_file(schema: Schema, columns: Vec<Arc<dyn Array>>, properties: WriterProperties) -> Bytes {
    let schema = Arc::new(schema);
    let batch = RecordBatch::try_new(Arc::clone(&schema), columns).unwrap();
    let mut file = Vec::new();
    let mut writer = ArrowWriter::try_new(&mut file, schema, Some(properties)).unwrap();
    writer.write(&batch).unwrap();
    writer.close().unwrap();
    Bytes::from(file)
}

fn read_metadata(file: &Bytes, policy: PageIndexPolicy) -> Arc<ParquetMetaData> {
    Arc::new(
        ParquetMetaDataReader::new()
            .with_page_index_policy(policy)
            .parse_and_finish(file)
            .unwrap(),
    )
}

fn open(file: Bytes) -> FileReader {
    let metadata = read_metadata(&file, PageIndexPolicy::Required);
    let projection = ProjectionMask::leaves(metadata.file_metadata().schema_descr(), [0]);
    let reader = ParquetForwardBatchReader::try_new(Arc::clone(&metadata), &projection).unwrap();
    FileReader { file, metadata, projection, reader, at: 0 }
}

fn test_reader() -> FileReader {
    let schema = Schema::new(vec![Field::new("value", DataType::Int32, false)]);
    let properties = WriterProperties::builder()
        .set_max_row_group_row_count(Some(8))
        .set_data_page_row_count_limit(3)
        .set_offset_index_disabled(false)
        .build();
    open(write_file(
        schema,
        vec![Arc::new(Int32Array::from_iter_values(0..20))],
        properties,
    ))
}

fn small_pages() -> WriterProperties {
    WriterProperties::builder()
        .set_max_row_group_row_count(Some(8))
        .set_data_page_row_count_limit(3)
        .set_write_batch_size(3)
        .build()
}

fn nullable_reader() -> FileReader {
    let schema = Schema::new(vec![Field::new("value", DataType::Int32, true)]);
    let values: Vec<Option<i32>> =
        (0..20).map(|row| if (3..6).contains(&row) { None } else { Some(row) }).collect();
    open(write_file(schema, vec![Arc::new(Int32Array::from(values))], small_pages()))
}

fn values(batch: &RecordBatch) -> Vec<i32> {
    batch
        .column(0)
        .as_any()
        .downcast_ref::<Int32Array>()
        .unwrap()
        .values()
        .to_vec()
}

fn optional_values(batch: &RecordBatch) -> Vec<Option<i32>> {
    batch
        .column(0)
        .as_any()
        .downcast_ref::<Int32Array>()
        .unwrap()
        .iter()
        .collect()
}

#[test]
fn read_range_crosses_page_boundary() {
    let batch = test_reader().read_range_at(2, 4).unwrap().unwrap();
    assert_eq!(values(&batch), vec![2, 3, 4, 5]);
}

#[test]
fn read_range_crosses_row_group_boundary() {
    let batch = test_reader().read_range_at(6, 5).unwrap().unwrap();
    assert_eq!(values(&batch), vec![6, 7, 8, 9, 10]);
}

#[test]
fn opened_reader_stands_at_the_first_row() {
    let reader = nullable_reader();
    assert_eq!(reader.reader.next_row(), 0);
    assert_eq!(reader.reader.position(), 0);
    assert_eq!(reader.reader.row_count(), 20);
    assert_eq!(reader.reader.projected_leaf_column(), 0);
    assert!(!reader.reader.is_repeated());
    assert_eq!(reader.reader.metadata().num_row_groups(), 3);
    assert_eq!(
        reader.reader.metadata().file_metadata().num_rows(),
        reader.metadata.file_metadata().num_rows()
    );
}

#[test]
fn pages_follow_the_offset_index() {
    let reader = nullable_reader();
    let rows: Vec<(usize, usize, usize)> = reader
        .reader
        .pages()
        .iter()
        .map(|page| (page.row_group_index, page.first_row, page.row_count))
        .collect();
    assert_eq!(
        rows,
        vec![(0, 0, 3), (0, 3, 3), (0, 6, 2), (1, 8, 3), (1, 11, 3), (1, 14, 2), (2, 16, 3), (2, 19, 1)]
    );
    let offset_index = reader.metadata.offset_index().unwrap();
    let page = &reader.reader.pages()[4];
    let location = &offset_index[1][0].page_locations[1];
    assert_eq!(page.page_index, 1);
    assert_eq!(page.file_offset, location.offset);
    assert_eq!(page.compressed_size, location.compressed_page_size);
    assert_eq!(reader.reader.page_row_count(15), Ok(2));
    assert_eq!(reader.reader.rows_remaining_in_page(15), Ok(1));
    assert_eq!(
        reader.reader.page_row_count(20),
        Err(ForwardReadError::RowNotIndexed { row: 20 })
    );
}

#[test]
fn null_counts_come_from_the_column_index() {
    let reader = nullable_reader();
    let pages = reader.reader.pages();
    assert!(pages[1].all_null);
    assert_eq!(pages[1].null_count, Some(3));
    assert!(!pages[0].all_null);
    assert_eq!(pages[0].null_count, Some(0));
}

#[test]
fn null_pages_are_read_as_nulls() {
    let mut reader = nullable_reader();
    let batch = reader.read_range_at(2, 6).unwrap().unwrap();
    assert_eq!(
        optional_values(&batch),
        vec![Some(2), None, None, None, Some(6), Some(7)]
    );
    let batch = reader.read_range_at(8, 100).unwrap().unwrap();
    assert_eq!(
        optional_values(&batch),
        (8..20).map(Some).collect::<Vec<Option<i32>>>()
    );
    assert_eq!(reader.read_range_at(20, 1), Ok(None));
}

#[test]
fn opened_reader_reads_the_whole_file() {
    let batch = test_reader().read_range_at(0, usize::MAX).unwrap().unwrap();
    assert_eq!(values(&batch), (0..20).collect::<Vec<i32>>());
    let mut reader = nullable_reader();
    let mut rows = Vec::new();
    while let Some(batch) = reader.read_range_at(reader.reader.next_row(), 7).unwrap() {
        rows.extend(optional_values(&batch));
    }
    let expected: Vec<Option<i32>> =
        (0..20).map(|row| if (3..6).contains(&row) { None } else { Some(row) }).collect();
    assert_eq!(rows, expected);
}

#[test]
fn batches_are_read_one_page_at_a_time() {
    let mut reader = nullable_reader();
    let read = reader.reader.read_batch_at(9, 10).unwrap().unwrap();
    assert_eq!(read.rows, 2);
    assert_eq!(read.request, DecoderRequest::Skip { rows: 9 });
    let step = reader.reader.advance_batch(read, DecoderReply::Skipped { rows: 9 }).unwrap();
    let parquet_forward::cursor::BatchStep::Ask { read } = step else {
        panic!("the batch is not decoded yet");
    };
    assert_eq!(read.request, DecoderRequest::Decode { rows: 2 });
    let step = reader.reader.advance_batch(read, DecoderReply::Decoded { rows: 2 });
    assert_eq!(step, Ok(parquet_forward::cursor::BatchStep::Done { rows: 2 }));
    assert_eq!(reader.reader.next_row(), 11);
    assert_eq!(reader.reader.position(), 11);
}

#[test]
fn earlier_rows_cannot_be_read_again() {
    let mut reader = test_reader();
    reader.read_range_at(2, 4).unwrap();
    assert_eq!(
        reader.read_range_at(3, 1).unwrap_err(),
        ForwardReadError::BackwardSeek { position: 6, row: 3 }
    );
    let batch = reader.read_range_at(6, 2).unwrap().unwrap();
    assert_eq!(values(&batch), vec![6, 7]);
}

#[test]
fn position_is_that_of_the_decoder() {
    let mut reader = nullable_reader();
    let batch = reader.read_range_at(3, 1).unwrap().unwrap();
    assert_eq!(optional_values(&batch), vec![None]);
    assert_eq!(reader.reader.next_row(), 4);
    assert_eq!(reader.reader.position(), 6);
    assert_eq!(reader.at, 6);
    let batch = reader.read_range_at(4, 3).unwrap().unwrap();
    assert_eq!(optional_values(&batch), vec![None, None, Some(6)]);
    assert_eq!(reader.reader.next_row(), 7);
    assert_eq!(reader.reader.position(), 7);
}

#[test]
fn readers_of_one_footer_open_alike() {
    let one = nullable_reader();
    let other =
        ParquetForwardBatchReader::try_new(Arc::clone(&one.metadata), &one.projection).unwrap();
    assert_eq!(one.reader.row_count(), other.row_count());
    assert_eq!(one.reader.pages(), other.pages());
    assert_eq!(one.reader.projected_leaf_column(), other.projected_leaf_column());
    assert_eq!(one.reader.position(), other.position());
    assert_eq!(one.reader.read_range_at(2, 9), other.read_range_at(2, 9));
}

#[test]
fn exactly_one_leaf_column_is_read() {
    let schema = Schema::new(vec![
        Field::new("a", DataType::Int32, false),
        Field::new("b", DataType::Int32, false),
    ]);
    let column = || -> Arc<dyn Array> { Arc::new(Int32Array::from_iter_values(0..4)) };
    let file = write_file(schema, vec![column(), column()], small_pages());
    let metadata = read_metadata(&file, PageIndexPolicy::Required);
    for (leaves, count) in [(vec![], 0), (vec![0, 1], 2)] {
        let mask = select_leaves(&metadata, leaves).unwrap();
        let fault = ParquetForwardBatchReader::try_new(Arc::clone(&metadata), &mask).err();
        assert_eq!(fault, Some(ForwardReadError::ProjectedColumnCount { count }));
    }
    let fault =
        ParquetForwardBatchReader::try_new(Arc::clone(&metadata), &ProjectionMask::all()).err();
    assert_eq!(fault, Some(ForwardReadError::ProjectedColumnCount { count: 2 }));
    assert!(select_leaves(&metadata, vec![2]).is_none());

    let mask = select_leaves(&metadata, vec![1, 1]).unwrap();
    assert!(!mask.leaf_included(0));
    assert!(mask.leaf_included(1));
    let reader = ParquetForwardBatchReader::checked_try_new(metadata, &mask).unwrap().unwrap();
    assert_eq!(reader.projected_leaf_column(), 1);
    assert_eq!(reader.pages().len(), 2);
}

#[test]
fn offset_index_is_required() {
    let schema = Schema::new(vec![Field::new("a", DataType::Int32, false)]);
    let file = write_file(
        schema,
        vec![Arc::new(Int32Array::from_iter_values(0..4))],
        small_pages(),
    );
    let metadata = read_metadata(&file, PageIndexPolicy::Skip);
    let mask = select_leaves(&metadata, vec![0]).unwrap();
    let fault = ParquetForwardBatchReader::try_new(metadata, &mask).err();
    assert_eq!(fault, Some(ForwardReadError::NoOffsetIndex));
}

#[test]
fn repeated_columns_have_one_region_per_row_group() {
    let mut builder =
        arrow::array::ListBuilder::new(arrow::array::Int32Builder::new());
    for row in 0..20 {
        for value in 0..row % 5 {
            builder.values().append_value(value);
        }
        builder.append(true);
    }
    let lists = builder.finish();
    let schema = Schema::new(vec![Field::new("lists", lists.data_type().clone(), true)]);
    let reader = open(write_file(schema, vec![Arc::new(lists)], small_pages()));
    assert!(reader.reader.is_repeated());
    let rows: Vec<(usize, usize, usize, bool, Option<i64>)> = reader
        .reader
        .pages()
        .iter()
        .map(|page| {
            (page.row_group_index, page.first_row, page.row_count, page.all_null, page.null_count)
        })
        .collect();
    assert_eq!(
        rows,
        vec![(0, 0, 8, false, None), (1, 8, 8, false, None), (2, 16, 4, false, None)]
    );
    let locations = &reader.metadata.offset_index().unwrap()[0][0].page_locations;
    let total: i32 = locations.iter().map(|location| location.compressed_page_size).sum();
    assert_eq!(reader.reader.pages()[0].compressed_size, total);
    assert_eq!(reader.reader.pages()[0].file_offset, locations[0].offset);
}

#[test]
fn decoder_batches_hold_at_least_one_row() {
    assert_eq!(decoder_batch_size(0), 1);
    assert_eq!(decoder_batch_size(1), 1);
    assert_eq!(decoder_batch_size(20), 20);
}
