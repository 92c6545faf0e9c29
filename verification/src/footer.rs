//! What this crate reads of the `parquet` crate's footer metadata.
//!
//! Everything in this module is believed rather than proved: the types of the `parquet` crate are
//! opaque here, each getter's result has a name, and each contract says that the getter returns
//! what the name stands for.

use crate::pages::PageSpan;
use parquet::arrow::ProjectionMask;
use parquet::file::metadata::{
    ColumnChunkMetaData, FileMetaData, ParquetMetaData, RowGroupMetaData,
};
use parquet::file::page_index::column_index::ColumnIndexMetaData;
use parquet::file::page_index::offset_index::{OffsetIndexMetaData, PageLocation};
use parquet::schema::types::{ColumnDescriptor, SchemaDescriptor};
use std::sync::Arc;
use vstd::prelude::*;

verus! {

/// The parsed footer of a Parquet file.
#[verifier::external_type_specification]
#[verifier::external_body]
pub struct ExParquetMetaData(ParquetMetaData);

/// The file-level part of a footer.
#[verifier::external_type_specification]
#[verifier::external_body]
pub struct ExFileMetaData(FileMetaData);

/// The leaf columns of a file.
#[verifier::external_type_specification]
#[verifier::external_body]
pub struct ExSchemaDescriptor(SchemaDescriptor);

/// One leaf column of a file.
#[verifier::external_type_specification]
#[verifier::external_body]
pub struct ExColumnDescriptor(ColumnDescriptor);

/// The part of a footer that describes one row group.
#[verifier::external_type_specification]
#[verifier::external_body]
pub struct ExRowGroupMetaData(RowGroupMetaData);

/// The part of a footer that describes one column chunk.
#[verifier::external_type_specification]
#[verifier::external_body]
pub struct ExColumnChunkMetaData(ColumnChunkMetaData);

/// The decoded OffsetIndex of one column chunk.
#[verifier::external_type_specification]
#[verifier::external_body]
pub struct ExOffsetIndexMetaData(OffsetIndexMetaData);

/// The location of one data page.
#[verifier::external_type_specification]
#[verifier::external_body]
pub struct ExPageLocation(PageLocation);

/// The decoded ColumnIndex of one column chunk.
#[verifier::external_type_specification]
#[verifier::external_body]
pub struct ExColumnIndexMetaData(ColumnIndexMetaData);

/// A selection of leaf columns.
#[verifier::external_type_specification]
#[verifier::external_body]
pub struct ExProjectionMask(ProjectionMask);

/// The file-level part of the footer.
pub uninterp spec fn file_metadata_of(metadata: ParquetMetaData) -> FileMetaData;

/// The row groups that the footer lists, in file order.
pub uninterp spec fn row_groups_of(metadata: ParquetMetaData) -> Seq<RowGroupMetaData>;

/// The loaded OffsetIndex entries, by row group and leaf column.
pub uninterp spec fn offset_index_of(metadata: ParquetMetaData) -> Option<
    Seq<Seq<OffsetIndexMetaData>>,
>;

/// The loaded ColumnIndex entries, by row group and leaf column.
pub uninterp spec fn column_index_of(metadata: ParquetMetaData) -> Option<
    Seq<Seq<ColumnIndexMetaData>>,
>;

/// The row count that the footer records for the file.
pub uninterp spec fn file_row_count(file: FileMetaData) -> i64;

/// The leaf columns of the file.
pub uninterp spec fn schema_of(file: FileMetaData) -> SchemaDescriptor;

/// The leaf columns that a schema lists, in order.
pub uninterp spec fn leaves_of(schema: SchemaDescriptor) -> Seq<Arc<ColumnDescriptor>>;

/// The maximum repetition level of a leaf column.
pub uninterp spec fn repetition_level(column: ColumnDescriptor) -> i16;

/// The row count that the footer records for a row group.
pub uninterp spec fn row_group_row_count(row_group: RowGroupMetaData) -> i64;

/// The column chunks of a row group, in leaf-column order.
pub uninterp spec fn chunks_in(row_group: RowGroupMetaData) -> Seq<ColumnChunkMetaData>;

/// Where the footer says that a chunk's ColumnIndex starts.
pub uninterp spec fn column_index_start(chunk: ColumnChunkMetaData) -> Option<i64>;

/// How long the footer says that a chunk's ColumnIndex is.
pub uninterp spec fn column_index_size(chunk: ColumnChunkMetaData) -> Option<i32>;

/// Where the footer says that a chunk's OffsetIndex starts.
pub uninterp spec fn offset_index_start(chunk: ColumnChunkMetaData) -> Option<i64>;

/// How long the footer says that a chunk's OffsetIndex is.
pub uninterp spec fn offset_index_size(chunk: ColumnChunkMetaData) -> Option<i32>;

/// The page locations that a chunk's OffsetIndex holds, in page order.
pub uninterp spec fn page_locations_in(index: OffsetIndexMetaData) -> Seq<PageLocation>;

/// The fields of a page location.
pub uninterp spec fn span_of(location: PageLocation) -> PageSpan;

/// Whether a ColumnIndex entry is the placeholder for a chunk without page statistics.
pub uninterp spec fn is_placeholder(index: ColumnIndexMetaData) -> bool;

/// The number of pages that a ColumnIndex entry has statistics of.
pub uninterp spec fn indexed_pages(index: ColumnIndexMetaData) -> u64;

/// The null count that a ColumnIndex entry has for a page.
pub uninterp spec fn indexed_null_count(index: ColumnIndexMetaData, page: usize) -> Option<i64>;

/// Whether a ColumnIndex entry marks a page as holding nulls only.
pub uninterp spec fn indexed_null_page(index: ColumnIndexMetaData, page: usize) -> bool;

/// Which leaf columns a mask selects, one flag for each; `None` where it selects all of them.
pub uninterp spec fn mask_flags(mask: ProjectionMask) -> Option<Seq<bool>>;

/// The contents of the rows of a table.
pub open spec fn rows_of<T>(table: Seq<Vec<T>>) -> Seq<Seq<T>> {
    table.map_values(|row: Vec<T>| row@)
}

/// The bytes of a footer struct and of the row groups that it lists.
pub open spec fn least_footer_bytes(metadata: ParquetMetaData) -> nat {
    vstd::layout::size_of::<ParquetMetaData>() + row_groups_of(metadata).len()
        * vstd::layout::size_of::<RowGroupMetaData>()
}

/// `ParquetMetaData::file_metadata` returns the file-level part of the footer.
pub assume_specification[ ParquetMetaData::file_metadata ](metadata: &ParquetMetaData) -> (file:
    &FileMetaData)
    ensures
        *file == file_metadata_of(*metadata),
;

/// `ParquetMetaData::row_groups` returns the row groups of the footer.
pub assume_specification[ ParquetMetaData::row_groups ](metadata: &ParquetMetaData) -> (row_groups:
    &[RowGroupMetaData])
    ensures
        row_groups@ == row_groups_of(*metadata),
;

/// `ParquetMetaData::offset_index` returns the loaded OffsetIndex entries, if any are loaded.
#[verifier::external_body]
pub(crate) fn loaded_offset_index(metadata: &ParquetMetaData) -> (index: Option<
    &Vec<Vec<OffsetIndexMetaData>>,
>)
    ensures
        match index {
            Some(index) => offset_index_of(*metadata) == Some(rows_of(index@)),
            None => offset_index_of(*metadata) is None,
        },
{
    metadata.offset_index()
}

/// `ParquetMetaData::column_index` returns the loaded ColumnIndex entries, if any are loaded.
#[verifier::external_body]
pub(crate) fn loaded_column_index(metadata: &ParquetMetaData) -> (index: Option<
    &Vec<Vec<ColumnIndexMetaData>>,
>)
    ensures
        match index {
            Some(index) => column_index_of(*metadata) == Some(rows_of(index@)),
            None => column_index_of(*metadata) is None,
        },
{
    metadata.column_index()
}

/// `ParquetMetaData::memory_size` estimates the bytes that a footer holds: those of the struct
/// itself and of the row groups that it lists, and what else it has on the heap. The rest goes by
/// what was allocated, so no more is promised of it.
pub assume_specification[ ParquetMetaData::memory_size ](metadata: &ParquetMetaData) -> (bytes: usize)
    ensures
        bytes >= least_footer_bytes(*metadata),
;

/// `FileMetaData::num_rows` returns the recorded row count of the file.
pub assume_specification[ FileMetaData::num_rows ](file: &FileMetaData) -> (rows: i64)
    ensures
        rows == file_row_count(*file),
;

/// `FileMetaData::schema_descr` returns the leaf columns of the file.
pub assume_specification[ FileMetaData::schema_descr ](file: &FileMetaData) -> (schema:
    &SchemaDescriptor)
    ensures
        *schema == schema_of(*file),
;

/// `SchemaDescriptor::num_columns` returns the number of leaf columns.
pub assume_specification[ SchemaDescriptor::num_columns ](schema: &SchemaDescriptor) -> (columns:
    usize)
    ensures
        columns == leaves_of(*schema).len(),
;

/// `SchemaDescriptor::column` returns the leaf column at an index, which must be in range.
pub assume_specification[ SchemaDescriptor::column ](schema: &SchemaDescriptor, i: usize) -> (column:
    Arc<ColumnDescriptor>)
    requires
        i < leaves_of(*schema).len(),
    ensures
        column == leaves_of(*schema)[i as int],
;

/// `ColumnDescriptor::max_rep_level` returns the maximum repetition level of a leaf column.
pub assume_specification[ ColumnDescriptor::max_rep_level ](column: &ColumnDescriptor) -> (level:
    i16)
    ensures
        level == repetition_level(*column),
;

/// `RowGroupMetaData::num_rows` returns the recorded row count of a row group.
pub assume_specification[ RowGroupMetaData::num_rows ](row_group: &RowGroupMetaData) -> (rows: i64)
    ensures
        rows == row_group_row_count(*row_group),
;

/// `RowGroupMetaData::columns` returns the column chunks of a row group.
pub assume_specification[ RowGroupMetaData::columns ](row_group: &RowGroupMetaData) -> (chunks:
    &[ColumnChunkMetaData])
    ensures
        chunks@ == chunks_in(*row_group),
;

/// `ColumnChunkMetaData::column_index_offset` returns the recorded start of the ColumnIndex.
pub assume_specification[ ColumnChunkMetaData::column_index_offset ](
    chunk: &ColumnChunkMetaData,
) -> (offset: Option<i64>)
    ensures
        offset == column_index_start(*chunk),
;

/// `ColumnChunkMetaData::column_index_length` returns the recorded size of the ColumnIndex.
pub assume_specification[ ColumnChunkMetaData::column_index_length ](
    chunk: &ColumnChunkMetaData,
) -> (length: Option<i32>)
    ensures
        length == column_index_size(*chunk),
;

/// `ColumnChunkMetaData::offset_index_offset` returns the recorded start of the OffsetIndex.
pub assume_specification[ ColumnChunkMetaData::offset_index_offset ](
    chunk: &ColumnChunkMetaData,
) -> (offset: Option<i64>)
    ensures
        offset == offset_index_start(*chunk),
;

/// `ColumnChunkMetaData::offset_index_length` returns the recorded size of the OffsetIndex.
pub assume_specification[ ColumnChunkMetaData::offset_index_length ](
    chunk: &ColumnChunkMetaData,
) -> (length: Option<i32>)
    ensures
        length == offset_index_size(*chunk),
;

/// `OffsetIndexMetaData::page_locations` returns the page locations, in page order.
pub assume_specification[ OffsetIndexMetaData::page_locations ](
    index: &OffsetIndexMetaData,
) -> (locations: &Vec<PageLocation>)
    ensures
        locations@ == page_locations_in(*index),
;

/// `ColumnIndexMetaData::num_pages` returns the number of pages that have statistics. It panics
/// on the placeholder.
pub assume_specification[ ColumnIndexMetaData::num_pages ](index: &ColumnIndexMetaData) -> (pages:
    u64)
    requires
        !is_placeholder(*index),
    ensures
        pages == indexed_pages(*index),
;

/// `ColumnIndexMetaData::null_count` returns the null count of a page, which must have
/// statistics. It panics on the placeholder.
pub assume_specification[ ColumnIndexMetaData::null_count ](
    index: &ColumnIndexMetaData,
    idx: usize,
) -> (count: Option<i64>)
    requires
        !is_placeholder(*index),
        idx < indexed_pages(*index),
    ensures
        count == indexed_null_count(*index, idx),
;

/// `ColumnIndexMetaData::is_null_page` returns whether a page, which must have statistics, is
/// marked as holding nulls only. It panics on the placeholder.
pub assume_specification[ ColumnIndexMetaData::is_null_page ](
    index: &ColumnIndexMetaData,
    idx: usize,
) -> (null: bool)
    requires
        !is_placeholder(*index),
        idx < indexed_pages(*index),
    ensures
        null == indexed_null_page(*index, idx),
;

/// `ProjectionMask::leaf_included` returns whether a mask selects a leaf column, which must have
/// a flag unless the mask selects all columns.
pub assume_specification[ ProjectionMask::leaf_included ](
    mask: &ProjectionMask,
    leaf_idx: usize,
) -> (included: bool)
    requires
        mask_flags(*mask) matches Some(flags) ==> leaf_idx < flags.len(),
    ensures
        included == match mask_flags(*mask) {
            Some(flags) => flags[leaf_idx as int],
            None => true,
        },
;

/// Reads the three fields of a `PageLocation`.
#[verifier::external_body]
pub(crate) fn page_span(location: &PageLocation) -> (span: PageSpan)
    ensures
        span == span_of(*location),
{
    PageSpan {
        offset: location.offset,
        compressed_page_size: location.compressed_page_size,
        first_row_index: location.first_row_index,
    }
}

/// Tells `ColumnIndexMetaData::NONE` from the other variants.
#[verifier::external_body]
pub(crate) fn lacks_statistics(index: &ColumnIndexMetaData) -> (lacking: bool)
    ensures
        lacking == is_placeholder(*index),
{
    matches!(index, ColumnIndexMetaData::NONE)
}

/// `ProjectionMask::leaves` makes a mask with a flag for every leaf column of the schema, set
/// for the given ones, which must be in range.
#[verifier::external_body]
pub(crate) fn mask_of_leaves(schema: &SchemaDescriptor, leaves: Vec<usize>) -> (mask:
    ProjectionMask)
    requires
        forall|i: int| 0 <= i < leaves@.len() ==> #[trigger] leaves@[i] < leaves_of(*schema).len(),
    ensures
        mask_flags(mask) == Some(
            Seq::new(leaves_of(*schema).len(), |i: int| leaves@.contains(i as usize)),
        ),
{
    ProjectionMask::leaves(schema, leaves)
}

} // verus!
