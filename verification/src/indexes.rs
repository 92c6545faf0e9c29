//! A sparse collection of decoded page-index entries.

use crate::footer::lacks_statistics;
use crate::key::PageIndexKey;
use crate::key_map::PageIndexMap;
use crate::selection::PageIndexSelection;
use parquet::file::page_index::column_index::ColumnIndexMetaData;
use parquet::file::page_index::offset_index::{OffsetIndexMetaData, PageLocation};
use std::sync::Arc;
use vstd::prelude::*;

verus! {

/// The mathematical value of a [`CachedPageIndexes`].
#[verifier::ext_equal]
pub struct IndexEntries {
    pub column_indexes: Map<PageIndexKey, Arc<ColumnIndexMetaData>>,
    pub offset_indexes: Map<PageIndexKey, Arc<OffsetIndexMetaData>>,
}

impl IndexEntries {
    /// No entries.
    pub open spec fn empty() -> IndexEntries {
        IndexEntries { column_indexes: Map::empty(), offset_indexes: Map::empty() }
    }

    /// The number of entries.
    pub open spec fn len(self) -> nat {
        self.column_indexes.dom().len() + self.offset_indexes.dom().len()
    }

    /// The part of `selection` that is not among the entries.
    pub open spec fn missing(
        self,
        selection: crate::selection::IndexSelection,
    ) -> crate::selection::IndexSelection {
        crate::selection::IndexSelection {
            column_indexes: selection.column_indexes.difference(self.column_indexes.dom()),
            offset_indexes: selection.offset_indexes.difference(self.offset_indexes.dom()),
        }
    }

    /// The entries that `selection` selects.
    pub open spec fn subset(self, selection: crate::selection::IndexSelection) -> IndexEntries {
        IndexEntries {
            column_indexes: self.column_indexes.restrict(selection.column_indexes),
            offset_indexes: self.offset_indexes.restrict(selection.offset_indexes),
        }
    }

    /// These entries and those of `other`, which win where both have a key.
    pub open spec fn extended(self, other: IndexEntries) -> IndexEntries {
        IndexEntries {
            column_indexes: self.column_indexes.union_prefer_right(other.column_indexes),
            offset_indexes: self.offset_indexes.union_prefer_right(other.offset_indexes),
        }
    }

    /// Whether some column-index entry is the placeholder for a chunk without page statistics.
    pub open spec fn has_placeholder(self) -> bool {
        exists|key: PageIndexKey| #[trigger]
            self.column_indexes.contains_key(key) && crate::footer::is_placeholder(
                *self.column_indexes[key],
            )
    }

    /// The estimated number of bytes that the entries hold.
    pub open spec fn memory(self) -> int {
        total_over(self.offset_indexes.dom(), offset_sizes(self.offset_indexes)) + total_over(
            self.column_indexes.dom(),
            column_sizes(self.column_indexes),
        )
    }
}

/// The bytes that the statistics of one page are taken to hold.
pub const STATISTICS_BYTES_PER_PAGE: usize = 64;

/// The estimated number of bytes that an offset index holds.
pub open spec fn offset_index_bytes(index: OffsetIndexMetaData) -> int {
    vstd::layout::size_of::<OffsetIndexMetaData>() as int + crate::footer::page_locations_in(
        index,
    ).len() * vstd::layout::size_of::<PageLocation>()
}

/// The estimated number of bytes that a column index holds.
pub open spec fn column_index_bytes(index: ColumnIndexMetaData) -> int {
    vstd::layout::size_of::<ColumnIndexMetaData>() + crate::footer::indexed_pages(index)
        * STATISTICS_BYTES_PER_PAGE
}

/// The estimated size of each offset index.
pub open spec fn offset_sizes(indexes: Map<PageIndexKey, Arc<OffsetIndexMetaData>>) -> spec_fn(
    PageIndexKey,
) -> int {
    |key: PageIndexKey| offset_index_bytes(*indexes[key])
}

/// The estimated size of each column index.
pub open spec fn column_sizes(indexes: Map<PageIndexKey, Arc<ColumnIndexMetaData>>) -> spec_fn(
    PageIndexKey,
) -> int {
    |key: PageIndexKey| column_index_bytes(*indexes[key])
}

/// The sum of the sizes of some keys.
pub open spec fn total_over(keys: Set<PageIndexKey>, sizes: spec_fn(PageIndexKey) -> int) -> int
    decreases keys.len(),
{
    if keys.finite() && keys.len() > 0 {
        let key = keys.choose();
        sizes(key) + total_over(keys.remove(key), sizes)
    } else {
        0
    }
}

/// A new key adds its size to the sum.
proof fn lemma_total_insert(
    keys: Set<PageIndexKey>,
    sizes: spec_fn(PageIndexKey) -> int,
    key: PageIndexKey,
)
    requires
        keys.finite(),
        !keys.contains(key),
    ensures
        total_over(keys.insert(key), sizes) == total_over(keys, sizes) + sizes(key),
    decreases keys.len(),
{
    let all = keys.insert(key);
    let first = all.choose();
    assert(all.contains(key));
    assert(all.len() == keys.len() + 1);
    assert(all.contains(first));
    if first == key {
        assert(all.remove(key) =~= keys);
    } else {
        let rest = keys.remove(first);
        assert(all.remove(first) =~= rest.insert(key));
        assert(rest.insert(first) =~= keys);
        lemma_total_insert(rest, sizes, key);
        lemma_total_insert(rest, sizes, first);
    }
}

/// The sum over the first keys of a list goes up by each key's size.
proof fn lemma_total_prefix(
    keys: Seq<PageIndexKey>,
    sizes: spec_fn(PageIndexKey) -> int,
    count: int,
)
    requires
        keys.no_duplicates(),
        0 <= count < keys.len(),
    ensures
        total_over(keys.take(count + 1).to_set(), sizes) == total_over(
            keys.take(count).to_set(),
            sizes,
        ) + sizes(keys[count]),
{
    let some = keys.take(count);
    assert(keys.take(count + 1) =~= some.push(keys[count]));
    some.lemma_push_to_set_commute(keys[count]);
    vstd::seq_lib::seq_to_set_is_finite(some);
    assert(!some.to_set().contains(keys[count]));
    lemma_total_insert(some.to_set(), sizes, keys[count]);
}

/// The sum over the first keys of a list is no larger than the sum over all of them.
proof fn lemma_total_grows(keys: Seq<PageIndexKey>, sizes: spec_fn(PageIndexKey) -> int, count: int)
    requires
        keys.no_duplicates(),
        0 <= count <= keys.len(),
        forall|i: int| 0 <= i < keys.len() ==> 0 <= #[trigger] sizes(keys[i]),
    ensures
        total_over(keys.take(count).to_set(), sizes) <= total_over(keys.to_set(), sizes),
    decreases keys.len() - count,
{
    if count < keys.len() {
        assert(0 <= sizes(keys[count]));
        lemma_total_prefix(keys, sizes, count);
        lemma_total_grows(keys, sizes, count + 1);
    } else {
        assert(keys.take(count) =~= keys);
    }
}

/// `total + base + pages * per_page`, where that fits in `usize`.
fn add_entry(total: usize, base: usize, pages: u64, per_page: usize) -> (sum: Option<usize>)
    ensures
        sum is Some <==> total + base + pages * per_page <= usize::MAX,
        sum matches Some(sum) ==> sum == total + base + pages * per_page,
{
    assert(pages * per_page <= 0xffff_ffff_ffff_ffff * 0xffff_ffff_ffff_ffff) by (nonlinear_arith)
        requires
            0 <= pages <= 0xffff_ffff_ffff_ffff,
            0 <= per_page <= 0xffff_ffff_ffff_ffff,
    ;
    let wide: u128 = (pages as u128) * (per_page as u128);
    if wide > usize::MAX as u128 {
        return None;
    }
    match total.checked_add(base) {
        Some(sum) => sum.checked_add(wide as usize),
        None => None,
    }
}

/// Serves decoded page-index entries by row group and leaf column.
///
/// Cells that were not requested (pruned row groups, unprojected columns) are `None`, and
/// consumers fall back conservatively.
pub trait PageIndexProvider {
    /// The column index that the provider has for a key.
    spec fn column_cell(&self, key: PageIndexKey) -> Option<ColumnIndexMetaData>;

    /// The offset index that the provider has for a key.
    spec fn offset_cell(&self, key: PageIndexKey) -> Option<OffsetIndexMetaData>;

    /// The decoded column index of a column chunk, if present.
    fn column_index(&self, row_group_index: usize, column_index: usize) -> (index: Option<
        &ColumnIndexMetaData,
    >)
        ensures
            match index {
                Some(index) => self.column_cell(PageIndexKey { row_group_index, column_index })
                    == Some(*index),
                None => self.column_cell(PageIndexKey { row_group_index, column_index }) is None,
            },
    ;

    /// The decoded offset index of a column chunk, if present.
    fn offset_index(&self, row_group_index: usize, column_index: usize) -> (index: Option<
        &OffsetIndexMetaData,
    >)
        ensures
            match index {
                Some(index) => self.offset_cell(PageIndexKey { row_group_index, column_index })
                    == Some(*index),
                None => self.offset_cell(PageIndexKey { row_group_index, column_index }) is None,
            },
    ;
}

/// A sparse collection of decoded page-index entries.
///
/// Entries not present have not been supplied by the cache; the Parquet footer remains the source
/// of truth for whether an index exists in the file.
#[derive(Debug)]
pub struct CachedPageIndexes {
    column_indexes: PageIndexMap<ColumnIndexMetaData>,
    offset_indexes: PageIndexMap<OffsetIndexMetaData>,
}

impl View for CachedPageIndexes {
    type V = IndexEntries;

    closed spec fn view(&self) -> IndexEntries {
        IndexEntries {
            column_indexes: self.column_indexes@,
            offset_indexes: self.offset_indexes@,
        }
    }
}

impl CachedPageIndexes {
    /// Creates an empty collection.
    pub fn new() -> (indexes: Self)
        ensures
            indexes@ == IndexEntries::empty(),
    {
        Self { column_indexes: PageIndexMap::new(), offset_indexes: PageIndexMap::new() }
    }

    /// Adds a decoded column index.
    pub fn with_column_index(self, key: PageIndexKey, index: Arc<ColumnIndexMetaData>) -> (indexes:
        Self)
        ensures
            indexes@ == (IndexEntries {
                column_indexes: self@.column_indexes.insert(key, index),
                ..self@
            }),
    {
        let mut indexes = self;
        indexes.column_indexes.insert(key, index);
        indexes
    }

    /// Adds a decoded offset index.
    pub fn with_offset_index(self, key: PageIndexKey, index: Arc<OffsetIndexMetaData>) -> (indexes:
        Self)
        ensures
            indexes@ == (IndexEntries {
                offset_indexes: self@.offset_indexes.insert(key, index),
                ..self@
            }),
    {
        let mut indexes = self;
        indexes.offset_indexes.insert(key, index);
        indexes
    }

    /// Returns a decoded column index, if present.
    pub fn column_index(&self, key: &PageIndexKey) -> (index: Option<&Arc<ColumnIndexMetaData>>)
        ensures
            match index {
                Some(index) => self@.column_indexes.contains_key(*key) && self@.column_indexes[*key]
                    == *index,
                None => !self@.column_indexes.contains_key(*key),
            },
    {
        self.column_indexes.get(key)
    }

    /// Returns a decoded offset index, if present.
    pub fn offset_index(&self, key: &PageIndexKey) -> (index: Option<&Arc<OffsetIndexMetaData>>)
        ensures
            match index {
                Some(index) => self@.offset_indexes.contains_key(*key) && self@.offset_indexes[*key]
                    == *index,
                None => !self@.offset_indexes.contains_key(*key),
            },
    {
        self.offset_indexes.get(key)
    }

    /// Returns the subset of `selection` not present in this collection.
    pub fn missing(&self, selection: &PageIndexSelection) -> (missing: PageIndexSelection)
        ensures
            missing@ == self@.missing(selection@),
    {
        PageIndexSelection::from_keys(
            self.column_indexes.missing(selection.column_indexes()),
            self.offset_indexes.missing(selection.offset_indexes()),
        )
    }

    /// Returns the subset of this collection matching `selection`.
    pub fn subset(&self, selection: &PageIndexSelection) -> (subset: CachedPageIndexes)
        ensures
            subset@ == self@.subset(selection@),
    {
        CachedPageIndexes {
            column_indexes: self.column_indexes.select(selection.column_indexes()),
            offset_indexes: self.offset_indexes.select(selection.offset_indexes()),
        }
    }

    /// Returns the number of decoded entries (column plus offset indexes), where that fits in
    /// `usize`.
    pub fn checked_len(&self) -> (len: Option<usize>)
        ensures
            self@.column_indexes.dom().finite(),
            self@.offset_indexes.dom().finite(),
            len is Some <==> self@.len() <= usize::MAX,
            len matches Some(len) ==> len == self@.len(),
    {
        self.column_indexes.len().checked_add(self.offset_indexes.len())
    }

    /// Returns the number of decoded entries (column plus offset indexes).
    pub fn len(&self) -> (len: usize)
        requires
            self@.len() <= usize::MAX,
        ensures
            self@.column_indexes.dom().finite(),
            self@.offset_indexes.dom().finite(),
            len == self@.len(),
    {
        self.column_indexes.len() + self.offset_indexes.len()
    }

    /// Returns `true` if no entries are present.
    pub fn is_empty(&self) -> (empty: bool)
        ensures
            empty == (self@ == IndexEntries::empty()),
    {
        self.column_indexes.is_empty() && self.offset_indexes.is_empty()
    }

    /// Rough estimate of the heap memory held by the decoded entries, used for cache memory
    /// accounting: each entry counts for itself and for each of its pages.
    ///
    /// Returns `None` where an entry is the placeholder for a chunk without page statistics, or
    /// where the estimate does not fit in `usize`.
    pub fn checked_memory_estimate(&self) -> (bytes: Option<usize>)
        ensures
            bytes is Some <==> !self@.has_placeholder() && self@.memory() <= usize::MAX,
            bytes matches Some(bytes) ==> bytes == self@.memory(),
    {
        let mut total: usize = 0;
        let offset_keys = self.offset_indexes.keys();
        let column_keys = self.column_indexes.keys();
        let ghost offset_sizes = offset_sizes(self@.offset_indexes);
        let ghost column_sizes = column_sizes(self@.column_indexes);
        proof {
            assert forall|i: int| 0 <= i < offset_keys@.len() implies 0
                <= #[trigger] offset_sizes(offset_keys@[i]) by {
                lemma_entry_bytes(*self@.offset_indexes[offset_keys@[i]]);
            }
            assert(offset_keys@.take(0).to_set() =~= Set::<PageIndexKey>::empty());
            assert(column_keys@.take(0).to_set() =~= Set::<PageIndexKey>::empty());
            lemma_total_grows(offset_keys@, offset_sizes, 0);
            lemma_total_grows(column_keys@, column_sizes, 0);
        }
        let mut fits = true;
        for i in 0..offset_keys.len()
            invariant
                offset_keys@.no_duplicates(),
                offset_keys@.to_set() == self@.offset_indexes.dom(),
                offset_sizes == crate::indexes::offset_sizes(self@.offset_indexes),
                forall|i: int|
                    0 <= i < offset_keys@.len() ==> 0 <= #[trigger] offset_sizes(offset_keys@[i]),
                fits ==> total == total_over(offset_keys@.take(i as int).to_set(), offset_sizes),
                !fits ==> total_over(offset_keys@.to_set(), offset_sizes) > usize::MAX,
        {
            let key = offset_keys[i];
            assert(offset_keys@.to_set().contains(key));
            if let Some(index) = self.offset_indexes.get(&key) {
                proof {
                    lemma_total_prefix(offset_keys@, offset_sizes, i as int);
                    lemma_total_grows(offset_keys@, offset_sizes, i + 1);
                }
                match add_entry(
                    total,
                    std::mem::size_of::<OffsetIndexMetaData>(),
                    index.page_locations().len() as u64,
                    std::mem::size_of::<PageLocation>(),
                ) {
                    Some(sum) => {
                        total = sum;
                    },
                    None => {
                        fits = false;
                    },
                }
            }
        }
        let ghost offset_total = total_over(offset_keys@.to_set(), offset_sizes);
        assert(offset_keys@.take(offset_keys@.len() as int) =~= offset_keys@);
        for i in 0..column_keys.len()
            invariant
                column_keys@.no_duplicates(),
                column_keys@.to_set() == self@.column_indexes.dom(),
                column_sizes == crate::indexes::column_sizes(self@.column_indexes),
                offset_total >= 0,
                offset_total == total_over(
                    self@.offset_indexes.dom(),
                    crate::indexes::offset_sizes(self@.offset_indexes),
                ),
                fits ==> total == offset_total + total_over(
                    column_keys@.take(i as int).to_set(),
                    column_sizes,
                ),
                !fits ==> offset_total + total_over(column_keys@.to_set(), column_sizes)
                    > usize::MAX,
                forall|j: int|
                    0 <= j < i ==> !crate::footer::is_placeholder(
                        *self@.column_indexes[#[trigger] column_keys@[j]],
                    ),
        {
            let key = column_keys[i];
            assert(column_keys@.to_set().contains(key));
            if let Some(index) = self.column_indexes.get(&key) {
                if lacks_statistics(&**index) {
                    assert(self@.column_indexes.contains_key(key));
                    return None;
                }
                proof {
                    lemma_total_prefix(column_keys@, column_sizes, i as int);
                    lemma_total_grows(column_keys@, column_sizes, i + 1);
                }
                match add_entry(
                    total,
                    std::mem::size_of::<ColumnIndexMetaData>(),
                    index.num_pages(),
                    STATISTICS_BYTES_PER_PAGE,
                ) {
                    Some(sum) => {
                        total = sum;
                    },
                    None => {
                        fits = false;
                    },
                }
            }
        }
        proof {
            assert(column_keys@.take(column_keys@.len() as int) =~= column_keys@);
            assert forall|key: PageIndexKey| #[trigger]
                self@.column_indexes.contains_key(key) implies !crate::footer::is_placeholder(
                *self@.column_indexes[key],
            ) by {
                assert(column_keys@.to_set().contains(key));
            }
        }
        if fits {
            Some(total)
        } else {
            None
        }
    }

    /// Rough estimate of the heap memory held by the decoded entries, none of which is a
    /// placeholder; see [`Self::checked_memory_estimate`].
    pub fn memory_estimate(&self) -> (bytes: usize)
        requires
            !self@.has_placeholder(),
            self@.memory() <= usize::MAX,
        ensures
            bytes == self@.memory(),
    {
        match self.checked_memory_estimate() {
            Some(bytes) => bytes,
            None => vstd::pervasive::unreached(),
        }
    }

    /// Merges another sparse collection into this one.
    pub fn extend(&mut self, other: Self)
        ensures
            final(self)@ == old(self)@.extended(other@),
    {
        self.column_indexes.absorb(other.column_indexes);
        self.offset_indexes.absorb(other.offset_indexes);
    }
}

/// An entry's estimated size is not negative.
proof fn lemma_entry_bytes(index: OffsetIndexMetaData)
    ensures
        0 <= offset_index_bytes(index),
{
    let pages = crate::footer::page_locations_in(index).len();
    let per_page = vstd::layout::size_of::<PageLocation>();
    assert(0 <= pages * per_page) by (nonlinear_arith)
        requires
            0 <= pages,
            0 <= per_page,
    ;
}

impl PageIndexProvider for CachedPageIndexes {
    open spec fn column_cell(&self, key: PageIndexKey) -> Option<ColumnIndexMetaData> {
        if self@.column_indexes.contains_key(key) {
            Some(*self@.column_indexes[key])
        } else {
            None
        }
    }

    open spec fn offset_cell(&self, key: PageIndexKey) -> Option<OffsetIndexMetaData> {
        if self@.offset_indexes.contains_key(key) {
            Some(*self@.offset_indexes[key])
        } else {
            None
        }
    }

    fn column_index(&self, row_group_index: usize, column_index: usize) -> Option<
        &ColumnIndexMetaData,
    > {
        match self.column_indexes.get(&PageIndexKey::new(row_group_index, column_index)) {
            Some(index) => Some(&**index),
            None => None,
        }
    }

    fn offset_index(&self, row_group_index: usize, column_index: usize) -> Option<
        &OffsetIndexMetaData,
    > {
        match self.offset_indexes.get(&PageIndexKey::new(row_group_index, column_index)) {
            Some(index) => Some(&**index),
            None => None,
        }
    }
}

impl Clone for CachedPageIndexes {
    fn clone(&self) -> (copy: Self)
        ensures
            copy@ == self@,
    {
        CachedPageIndexes {
            column_indexes: self.column_indexes.clone(),
            offset_indexes: self.offset_indexes.clone(),
        }
    }
}

impl Default for CachedPageIndexes {
    fn default() -> (indexes: Self)
        ensures
            indexes@ == IndexEntries::empty(),
    {
        CachedPageIndexes::new()
    }
}

/// An empty collection misses everything that is selected.
pub proof fn empty_collection_misses_everything(selection: crate::selection::IndexSelection)
    ensures
        IndexEntries::empty().missing(selection) == selection,
{
    assert(IndexEntries::empty().missing(selection) =~= selection);
}

/// A collection from which a selection was taken and the taken part miss the same entries of the
/// selection.
pub proof fn subset_misses_the_same(
    entries: IndexEntries,
    selection: crate::selection::IndexSelection,
)
    ensures
        entries.subset(selection).missing(selection) == entries.missing(selection),
{
    assert(entries.subset(selection).missing(selection) =~= entries.missing(selection));
}

/// Once the missing entries are merged, nothing of the selection is missing any more.
pub proof fn merged_entries_are_not_missing(
    entries: IndexEntries,
    selection: crate::selection::IndexSelection,
    decoded: IndexEntries,
)
    requires
        entries.missing(selection).column_indexes.subset_of(decoded.column_indexes.dom()),
        entries.missing(selection).offset_indexes.subset_of(decoded.offset_indexes.dom()),
    ensures
        entries.extended(decoded).missing(selection)
            == crate::selection::IndexSelection::empty(),
{
    let missing = entries.missing(selection);
    assert forall|key: PageIndexKey| selection.column_indexes.contains(key) implies entries.extended(
        decoded,
    ).column_indexes.contains_key(key) by {
        if !entries.column_indexes.contains_key(key) {
            assert(missing.column_indexes.contains(key));
        }
    }
    assert forall|key: PageIndexKey| selection.offset_indexes.contains(key) implies entries.extended(
        decoded,
    ).offset_indexes.contains_key(key) by {
        if !entries.offset_indexes.contains_key(key) {
            assert(missing.offset_indexes.contains(key));
        }
    }
    assert(entries.extended(decoded).missing(selection)
        =~= crate::selection::IndexSelection::empty());
}

/// Merging never makes an entry missing.
pub proof fn merging_never_adds_missing(
    entries: IndexEntries,
    selection: crate::selection::IndexSelection,
    other: IndexEntries,
)
    ensures
        entries.extended(other).missing(selection).column_indexes.subset_of(
            entries.missing(selection).column_indexes,
        ),
        entries.extended(other).missing(selection).offset_indexes.subset_of(
            entries.missing(selection).offset_indexes,
        ),
{
}

/// Merging keeps every entry that the other collection does not have, and takes the others from
/// it.
pub proof fn merging_keeps_and_adds(entries: IndexEntries, other: IndexEntries, key: PageIndexKey)
    ensures
        entries.extended(other).column_indexes.contains_key(key) <==> (
        entries.column_indexes.contains_key(key) || other.column_indexes.contains_key(key)),
        other.column_indexes.contains_key(key) ==> entries.extended(other).column_indexes[key]
            == other.column_indexes[key],
        entries.column_indexes.contains_key(key) && !other.column_indexes.contains_key(key)
            ==> entries.extended(other).column_indexes[key] == entries.column_indexes[key],
        entries.extended(other).offset_indexes.contains_key(key) <==> (
        entries.offset_indexes.contains_key(key) || other.offset_indexes.contains_key(key)),
        other.offset_indexes.contains_key(key) ==> entries.extended(other).offset_indexes[key]
            == other.offset_indexes[key],
        entries.offset_indexes.contains_key(key) && !other.offset_indexes.contains_key(key)
            ==> entries.extended(other).offset_indexes[key] == entries.offset_indexes[key],
{
}

/// Resolving a selection through a cache: take what is cached, decode exactly what is missing,
/// and merge it both into the cache and into what was taken. What was taken is then what the
/// cache holds of the selection, and the cache misses nothing of it.
pub proof fn resolved_selection_matches_cache(
    cache: IndexEntries,
    selection: crate::selection::IndexSelection,
    decoded: IndexEntries,
)
    requires
        decoded.column_indexes.dom() == cache.subset(selection).missing(selection).column_indexes,
        decoded.offset_indexes.dom() == cache.subset(selection).missing(selection).offset_indexes,
    ensures
        cache.subset(selection).extended(decoded) == cache.extended(decoded).subset(selection),
        cache.extended(decoded).missing(selection) == crate::selection::IndexSelection::empty(),
{
    subset_misses_the_same(cache, selection);
    merged_entries_are_not_missing(cache, selection, decoded);
    let taken = cache.subset(selection).extended(decoded);
    let cached = cache.extended(decoded).subset(selection);
    let missing = cache.missing(selection);
    assert forall|key: PageIndexKey|
        decoded.column_indexes.contains_key(key) implies selection.column_indexes.contains(key) by {
        assert(missing.column_indexes.contains(key));
    }
    assert forall|key: PageIndexKey|
        decoded.offset_indexes.contains_key(key) implies selection.offset_indexes.contains(key) by {
        assert(missing.offset_indexes.contains(key));
    }
    assert(taken.column_indexes =~= cached.column_indexes);
    assert(taken.offset_indexes =~= cached.offset_indexes);
}

/// Of a collection that misses nothing of a selection, the selected part serves exactly the
/// selected cells.
pub proof fn resolved_cells_are_the_selected_ones(
    entries: IndexEntries,
    selection: crate::selection::IndexSelection,
)
    requires
        entries.missing(selection) == crate::selection::IndexSelection::empty(),
    ensures
        entries.subset(selection).column_indexes.dom() == selection.column_indexes,
        entries.subset(selection).offset_indexes.dom() == selection.offset_indexes,
{
    let missing = entries.missing(selection);
    assert forall|key: PageIndexKey|
        selection.column_indexes.contains(key) implies entries.column_indexes.contains_key(key) by {
        assert(!missing.column_indexes.contains(key));
    }
    assert forall|key: PageIndexKey|
        selection.offset_indexes.contains(key) implies entries.offset_indexes.contains_key(key) by {
        assert(!missing.offset_indexes.contains(key));
    }
    assert(entries.subset(selection).column_indexes.dom() =~= selection.column_indexes);
    assert(entries.subset(selection).offset_indexes.dom() =~= selection.offset_indexes);
}

/// An empty collection holds no memory.
pub proof fn empty_collection_holds_no_memory()
    ensures
        IndexEntries::empty().memory() == 0,
{
}

/// A sum depends only on the sizes of the keys that it is taken over.
proof fn lemma_total_same(
    keys: Set<PageIndexKey>,
    sizes: spec_fn(PageIndexKey) -> int,
    others: spec_fn(PageIndexKey) -> int,
)
    requires
        keys.finite(),
        forall|key: PageIndexKey| keys.contains(key) ==> #[trigger] sizes(key) == others(key),
    ensures
        total_over(keys, sizes) == total_over(keys, others),
    decreases keys.len(),
{
    if keys.len() > 0 {
        let key = keys.choose();
        assert(keys.contains(key));
        lemma_total_same(keys.remove(key), sizes, others);
    }
}

/// A new column index adds its own size and 64 bytes for each of its pages to the memory estimate.
pub proof fn new_column_index_adds_memory(
    entries: IndexEntries,
    key: PageIndexKey,
    index: Arc<ColumnIndexMetaData>,
)
    requires
        entries.column_indexes.dom().finite(),
        !entries.column_indexes.contains_key(key),
    ensures
        (IndexEntries {
            column_indexes: entries.column_indexes.insert(key, index),
            ..entries
        }).memory() == entries.memory() + vstd::layout::size_of::<ColumnIndexMetaData>()
            + crate::footer::indexed_pages(*index) * 64,
{
    let before = entries.column_indexes;
    let after = before.insert(key, index);
    lemma_total_insert(before.dom(), column_sizes(after), key);
    lemma_total_same(before.dom(), column_sizes(before), column_sizes(after));
    assert(after.dom() =~= before.dom().insert(key));
}

/// A new offset index adds its own size and that of its page locations to the memory estimate.
pub proof fn new_offset_index_adds_memory(
    entries: IndexEntries,
    key: PageIndexKey,
    index: Arc<OffsetIndexMetaData>,
)
    requires
        entries.offset_indexes.dom().finite(),
        !entries.offset_indexes.contains_key(key),
    ensures
        (IndexEntries {
            offset_indexes: entries.offset_indexes.insert(key, index),
            ..entries
        }).memory() == entries.memory() + vstd::layout::size_of::<OffsetIndexMetaData>()
            + crate::footer::page_locations_in(*index).len() * vstd::layout::size_of::<
            PageLocation,
        >(),
{
    let before = entries.offset_indexes;
    let after = before.insert(key, index);
    lemma_total_insert(before.dom(), offset_sizes(after), key);
    lemma_total_same(before.dom(), offset_sizes(before), offset_sizes(after));
    assert(after.dom() =~= before.dom().insert(key));
}

/// An entry is missing exactly where it is selected and not in the collection.
pub proof fn missing_entries_are_selected_and_absent(
    entries: IndexEntries,
    selection: crate::selection::IndexSelection,
    key: PageIndexKey,
)
    ensures
        entries.missing(selection).column_indexes.contains(key)
            <==> selection.column_indexes.contains(key) && !entries.column_indexes.dom().contains(
            key,
        ),
        entries.missing(selection).offset_indexes.contains(key)
            <==> selection.offset_indexes.contains(key) && !entries.offset_indexes.dom().contains(
            key,
        ),
{
}

/// A subset has exactly the entries of the collection that are selected, as they are there.
pub proof fn subset_keeps_selected_entries(
    entries: IndexEntries,
    selection: crate::selection::IndexSelection,
    key: PageIndexKey,
)
    ensures
        entries.subset(selection).column_indexes.dom().contains(key)
            <==> entries.column_indexes.dom().contains(key) && selection.column_indexes.contains(
            key,
        ),
        entries.subset(selection).offset_indexes.dom().contains(key)
            <==> entries.offset_indexes.dom().contains(key) && selection.offset_indexes.contains(
            key,
        ),
        entries.subset(selection).column_indexes.dom().contains(key) ==> entries.subset(
            selection,
        ).column_indexes[key] == entries.column_indexes[key],
        entries.subset(selection).offset_indexes.dom().contains(key) ==> entries.subset(
            selection,
        ).offset_indexes[key] == entries.offset_indexes[key],
{
}

/// A collection counts its column indexes and its offset indexes, each once: an empty one has
/// none, and a new entry adds one.
pub proof fn entries_are_counted_once(
    entries: IndexEntries,
    key: PageIndexKey,
    column: Arc<ColumnIndexMetaData>,
    offset: Arc<OffsetIndexMetaData>,
)
    requires
        entries.column_indexes.dom().finite(),
        entries.offset_indexes.dom().finite(),
    ensures
        IndexEntries::empty().len() == 0,
        !entries.column_indexes.dom().contains(key) ==> (IndexEntries {
            column_indexes: entries.column_indexes.insert(key, column),
            offset_indexes: entries.offset_indexes,
        }).len() == entries.len() + 1,
        entries.column_indexes.dom().contains(key) ==> (IndexEntries {
            column_indexes: entries.column_indexes.insert(key, column),
            offset_indexes: entries.offset_indexes,
        }).len() == entries.len(),
        !entries.offset_indexes.dom().contains(key) ==> (IndexEntries {
            column_indexes: entries.column_indexes,
            offset_indexes: entries.offset_indexes.insert(key, offset),
        }).len() == entries.len() + 1,
        entries.offset_indexes.dom().contains(key) ==> (IndexEntries {
            column_indexes: entries.column_indexes,
            offset_indexes: entries.offset_indexes.insert(key, offset),
        }).len() == entries.len(),
{
    assert(entries.column_indexes.insert(key, column).dom()
        =~= entries.column_indexes.dom().insert(key));
    assert(entries.offset_indexes.insert(key, offset).dom()
        =~= entries.offset_indexes.dom().insert(key));
}

/// No entries are none at all, of either kind.
pub proof fn empty_collection_has_no_entries(key: PageIndexKey)
    ensures
        !IndexEntries::empty().column_indexes.dom().contains(key),
        !IndexEntries::empty().offset_indexes.dom().contains(key),
{
}

/// A collection has a placeholder exactly where one of its column indexes is one.
pub proof fn placeholders_are_column_indexes(entries: IndexEntries)
    ensures
        entries.has_placeholder() <==> exists|key: PageIndexKey| #[trigger]
            entries.column_indexes.dom().contains(key) && crate::footer::is_placeholder(
                *entries.column_indexes[key],
            ),
{
    if exists|key: PageIndexKey| #[trigger]
        entries.column_indexes.dom().contains(key) && crate::footer::is_placeholder(
            *entries.column_indexes[key],
        ) {
        let key = choose|key: PageIndexKey| #[trigger]
            entries.column_indexes.dom().contains(key) && crate::footer::is_placeholder(
                *entries.column_indexes[key],
            );
        assert(entries.column_indexes.contains_key(key));
    }
}

/// A collection serves the entry that it has for a cell, and none where it has none.
pub proof fn cells_are_the_entries(indexes: CachedPageIndexes, key: PageIndexKey)
    ensures
        indexes.column_cell(key) is Some <==> indexes@.column_indexes.dom().contains(key),
        indexes.column_cell(key) matches Some(index) ==> index == *indexes@.column_indexes[key],
        indexes.offset_cell(key) is Some <==> indexes@.offset_indexes.dom().contains(key),
        indexes.offset_cell(key) matches Some(index) ==> index == *indexes@.offset_indexes[key],
{
}

} // verus!
