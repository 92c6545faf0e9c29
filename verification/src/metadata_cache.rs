//! A footer that is cached together with its decoded page indexes.

use crate::footer::{loaded_column_index, loaded_offset_index};
use crate::indexes::CachedPageIndexes;
use crate::selection::PageIndexSelection;
use parquet::file::metadata::ParquetMetaData;
use std::sync::Arc;
use vstd::prelude::*;

verus! {

/// The mathematical value of a [`CachedParquetMetaData`].
pub struct CacheEntry {
    pub metadata: Arc<ParquetMetaData>,
    pub page_indexes: crate::indexes::IndexEntries,
}

impl CacheEntry {
    /// The bytes that the entry is taken to hold, for a footer that holds `footer_bytes`; `None`
    /// where the estimate fails or does not fit in `usize`.
    pub open spec fn memory(self, footer_bytes: usize) -> Option<usize> {
        if self.page_indexes.has_placeholder() || footer_bytes + self.page_indexes.memory()
            > usize::MAX {
            None
        } else {
            Some((footer_bytes + self.page_indexes.memory()) as usize)
        }
    }
}

/// Whether the footer carries both of its page indexes itself.
pub open spec fn has_page_index(metadata: ParquetMetaData) -> bool {
    crate::footer::column_index_of(metadata) is Some && crate::footer::offset_index_of(
        metadata,
    ) is Some
}

/// A cached footer and the page indexes that were decoded for it.
///
/// Both share one cache entry: they are admitted, accounted for and evicted together. The shared
/// footer itself is never changed.
pub struct CachedParquetMetaData {
    metadata: Arc<ParquetMetaData>,
    page_indexes: CachedPageIndexes,
}

impl View for CachedParquetMetaData {
    type V = CacheEntry;

    closed spec fn view(&self) -> CacheEntry {
        CacheEntry { metadata: self.metadata, page_indexes: self.page_indexes@ }
    }
}

impl CachedParquetMetaData {
    /// Creates an entry for a footer, with no page indexes.
    pub fn new(metadata: Arc<ParquetMetaData>) -> (entry: Self)
        ensures
            entry@ == (CacheEntry {
                metadata,
                page_indexes: crate::indexes::IndexEntries::empty(),
            }),
    {
        Self { metadata, page_indexes: CachedPageIndexes::new() }
    }

    /// Returns the footer.
    pub fn parquet_metadata(&self) -> (metadata: &Arc<ParquetMetaData>)
        ensures
            *metadata == self@.metadata,
    {
        &self.metadata
    }

    /// Returns the cached page indexes that `selection` selects.
    pub fn page_indexes_for(&self, selection: &PageIndexSelection) -> (indexes: CachedPageIndexes)
        ensures
            indexes@ == self@.page_indexes.subset(selection@),
    {
        self.page_indexes.subset(selection)
    }

    /// Adds decoded page indexes to the entry.
    pub fn merge_page_indexes(&mut self, decoded: CachedPageIndexes)
        ensures
            final(self)@ == (CacheEntry {
                page_indexes: old(self)@.page_indexes.extended(decoded@),
                ..old(self)@
            }),
    {
        self.page_indexes.extend(decoded);
    }

    /// The bytes that the entry is taken to hold, for a footer that holds `footer_bytes`.
    pub fn memory_with_footer(&self, footer_bytes: usize) -> (bytes: Option<usize>)
        ensures
            bytes == self@.memory(footer_bytes),
    {
        match self.page_indexes.checked_memory_estimate() {
            Some(bytes) => footer_bytes.checked_add(bytes),
            None => None,
        }
    }

    /// The bytes that the entry is taken to hold: the footer's own estimate and that of the
    /// page indexes.
    pub fn memory_size(&self) -> (bytes: Option<usize>)
        ensures
            exists|footer_bytes: usize|
                call_ensures(ParquetMetaData::memory_size, (&*self@.metadata,), footer_bytes)
                    && footer_bytes >= crate::footer::least_footer_bytes(*self@.metadata) && bytes
                    == #[trigger] self@.memory(footer_bytes),
    {
        let footer_bytes = self.metadata.memory_size();
        self.memory_with_footer(footer_bytes)
    }

    /// Describes the entry: whether its footer carries both page indexes.
    pub fn extra_info(&self) -> (info: Vec<(String, String)>)
        ensures
            info@.len() == 1,
            info@[0].0@ == "page_index"@,
            info@[0].1@ == if has_page_index(*self@.metadata) {
                "true"@
            } else {
                "false"@
            },
    {
        let page_index = loaded_column_index(&*self.metadata).is_some() && loaded_offset_index(
            &*self.metadata,
        ).is_some();
        let value = if page_index {
            "true".to_owned()
        } else {
            "false".to_owned()
        };
        let mut info: Vec<(String, String)> = Vec::new();
        info.push(("page_index".to_owned(), value));
        info
    }
}

/// An entry holds the bytes of its footer and those of its page indexes, where these have an
/// estimate and `usize` holds the sum.
pub proof fn entry_holds_footer_and_page_indexes(entry: CacheEntry, footer_bytes: usize)
    ensures
        entry.memory(footer_bytes) is Some <==> !entry.page_indexes.has_placeholder()
            && footer_bytes + entry.page_indexes.memory() <= usize::MAX,
        entry.page_indexes.memory() >= 0 ==> (entry.memory(footer_bytes) matches Some(bytes)
            ==> bytes - footer_bytes == entry.page_indexes.memory()),
{
}

/// A footer carries its page indexes exactly where both kinds are loaded.
pub proof fn page_index_needs_both_kinds(metadata: ParquetMetaData)
    ensures
        has_page_index(metadata) <==> crate::footer::column_index_of(metadata) is Some
            && crate::footer::offset_index_of(metadata) is Some,
{
}

} // verus!
