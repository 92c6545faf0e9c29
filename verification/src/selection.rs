//! Which page-index entries a Parquet scan needs.

use crate::key::PageIndexKey;
use crate::key_set::PageIndexKeySet;
use vstd::prelude::*;

verus! {

/// The mathematical value of a [`PageIndexSelection`].
#[verifier::ext_equal]
pub struct IndexSelection {
    pub column_indexes: Set<PageIndexKey>,
    pub offset_indexes: Set<PageIndexKey>,
}

impl IndexSelection {
    /// The selection of nothing.
    pub open spec fn empty() -> IndexSelection {
        IndexSelection { column_indexes: Set::empty(), offset_indexes: Set::empty() }
    }
}

/// The keys of the given columns in the given row groups.
pub open spec fn keys_of(row_groups: Seq<usize>, columns: Seq<usize>) -> Set<PageIndexKey> {
    Set::new(
        |key: PageIndexKey|
            row_groups.contains(key.row_group_index) && columns.contains(key.column_index),
    )
}

/// Page-index entries required by a Parquet scan.
///
/// Column-index and offset-index selections are independent because page pruning needs column
/// indexes only for predicate columns, while applying the resulting row selection requires offset
/// indexes for all projected columns.
#[derive(Debug)]
pub struct PageIndexSelection {
    column_indexes: PageIndexKeySet,
    offset_indexes: PageIndexKeySet,
}

impl View for PageIndexSelection {
    type V = IndexSelection;

    closed spec fn view(&self) -> IndexSelection {
        IndexSelection {
            column_indexes: self.column_indexes@,
            offset_indexes: self.offset_indexes@,
        }
    }
}

impl PageIndexSelection {
    /// Creates an empty selection.
    pub fn new() -> (selection: Self)
        ensures
            selection@ == IndexSelection::empty(),
    {
        Self { column_indexes: PageIndexKeySet::new(), offset_indexes: PageIndexKeySet::new() }
    }

    /// Creates the selection of the given column-index and offset-index entries.
    pub fn from_keys(column_indexes: PageIndexKeySet, offset_indexes: PageIndexKeySet) -> (selection:
        Self)
        ensures
            selection@ == (IndexSelection {
                column_indexes: column_indexes@,
                offset_indexes: offset_indexes@,
            }),
    {
        Self { column_indexes, offset_indexes }
    }

    /// Adds a column-index entry to this selection.
    pub fn with_column_index(self, key: PageIndexKey) -> (selection: Self)
        ensures
            selection@ == (IndexSelection {
                column_indexes: self@.column_indexes.insert(key),
                ..self@
            }),
    {
        let mut selection = self;
        selection.column_indexes.insert(key);
        selection
    }

    /// Adds an offset-index entry to this selection.
    pub fn with_offset_index(self, key: PageIndexKey) -> (selection: Self)
        ensures
            selection@ == (IndexSelection {
                offset_indexes: self@.offset_indexes.insert(key),
                ..self@
            }),
    {
        let mut selection = self;
        selection.offset_indexes.insert(key);
        selection
    }

    /// Returns the selected column-index entries.
    pub fn column_indexes(&self) -> (keys: &PageIndexKeySet)
        ensures
            keys@ == self@.column_indexes,
    {
        &self.column_indexes
    }

    /// Returns the selected offset-index entries.
    pub fn offset_indexes(&self) -> (keys: &PageIndexKeySet)
        ensures
            keys@ == self@.offset_indexes,
    {
        &self.offset_indexes
    }

    /// Returns `true` if no page-index entries are selected.
    pub fn is_empty(&self) -> (empty: bool)
        ensures
            empty == (self@ == IndexSelection::empty()),
    {
        self.column_indexes.is_empty() && self.offset_indexes.is_empty()
    }

    /// Builds the selection for a scan after footer-based row-group pruning.
    ///
    /// - `surviving_row_groups`: row groups remaining in the access plan.
    /// - `predicate_leaf_columns`: physical leaf columns referenced by the page-pruning
    ///   predicate. These need **column indexes** (min/max/null statistics per page) to evaluate
    ///   the predicate, and **offset indexes** to convert matching pages into row ranges.
    /// - `projected_leaf_columns`: physical leaf columns read by the decoder, including columns
    ///   decoded by pushed-down row filters. These need **offset indexes** so the resulting row
    ///   selection can be applied while reading, but no column indexes.
    pub fn for_scan(
        surviving_row_groups: Vec<usize>,
        predicate_leaf_columns: &[usize],
        projected_leaf_columns: &[usize],
    ) -> (selection: Self)
        ensures
            selection@.column_indexes == keys_of(surviving_row_groups@, predicate_leaf_columns@),
            selection@.offset_indexes == keys_of(
                surviving_row_groups@,
                predicate_leaf_columns@ + projected_leaf_columns@,
            ),
            forall|key: PageIndexKey| #[trigger]
                selection@.column_indexes.contains(key) <==> surviving_row_groups@.contains(
                    key.row_group_index,
                ) && predicate_leaf_columns@.contains(key.column_index),
            forall|key: PageIndexKey| #[trigger]
                selection@.offset_indexes.contains(key) <==> surviving_row_groups@.contains(
                    key.row_group_index,
                ) && (predicate_leaf_columns@.contains(key.column_index)
                    || projected_leaf_columns@.contains(key.column_index)),
    {
        let mut column_indexes = PageIndexKeySet::new();
        let mut offset_indexes = PageIndexKeySet::new();
        insert_keys(&mut column_indexes, &surviving_row_groups, predicate_leaf_columns);
        insert_keys(&mut offset_indexes, &surviving_row_groups, predicate_leaf_columns);
        insert_keys(&mut offset_indexes, &surviving_row_groups, projected_leaf_columns);
        proof {
            let predicate = predicate_leaf_columns@;
            let projected = projected_leaf_columns@;
            assert forall|column: usize|
                (predicate + projected).contains(column) == (predicate.contains(column)
                    || projected.contains(column)) by {
                if predicate.contains(column) {
                    let i = choose|i: int| 0 <= i < predicate.len() && predicate[i] == column;
                    assert((predicate + projected)[i] == column);
                }
                if projected.contains(column) {
                    let i = choose|i: int| 0 <= i < projected.len() && projected[i] == column;
                    assert((predicate + projected)[predicate.len() + i] == column);
                }
            }
            assert(column_indexes@ =~= keys_of(surviving_row_groups@, predicate));
            assert(offset_indexes@ =~= keys_of(surviving_row_groups@, predicate + projected));
        }
        Self { column_indexes, offset_indexes }
    }
}

/// Adds the keys of the given columns in the given row groups.
fn insert_keys(keys: &mut PageIndexKeySet, row_groups: &Vec<usize>, columns: &[usize])
    ensures
        final(keys)@ == old(keys)@.union(keys_of(row_groups@, columns@)),
{
    for i in 0..row_groups.len()
        invariant
            keys@ == old(keys)@.union(keys_of(row_groups@.take(i as int), columns@)),
    {
        let row_group = row_groups[i];
        let ghost before = keys@;
        for j in 0..columns.len()
            invariant
                keys@ == before.union(keys_of(seq![row_group], columns@.take(j as int))),
        {
            keys.insert(PageIndexKey::new(row_group, columns[j]));
            proof {
                let some = columns@.take(j as int);
                let more = columns@.take(j + 1);
                assert(more =~= some.push(columns@[j as int]));
                broadcast use vstd::seq_lib::group_seq_properties;

                assert(seq![row_group].contains(row_group)) by {
                    assert(seq![row_group][0] == row_group);
                }
                assert(keys@ =~= before.union(keys_of(seq![row_group], more)));
            }
        }
        proof {
            let some = row_groups@.take(i as int);
            let more = row_groups@.take(i + 1);
            assert(columns@.take(columns@.len() as int) =~= columns@);
            assert(more =~= some.push(row_group));
            broadcast use vstd::seq_lib::group_seq_properties;

            assert(seq![row_group].contains(row_group)) by {
                assert(seq![row_group][0] == row_group);
            }
            assert(keys@ =~= old(keys)@.union(keys_of(more, columns@)));
        }
    }
    assert(row_groups@.take(row_groups@.len() as int) =~= row_groups@);
}

impl Clone for PageIndexSelection {
    fn clone(&self) -> (copy: Self)
        ensures
            copy@ == self@,
    {
        PageIndexSelection {
            column_indexes: self.column_indexes.clone(),
            offset_indexes: self.offset_indexes.clone(),
        }
    }
}

impl Default for PageIndexSelection {
    fn default() -> (selection: Self)
        ensures
            selection@ == IndexSelection::empty(),
    {
        PageIndexSelection::new()
    }
}

impl PartialEq for PageIndexSelection {
    fn eq(&self, other: &Self) -> (equal: bool) {
        self.column_indexes == other.column_indexes && self.offset_indexes == other.offset_indexes
    }
}

impl vstd::std_specs::cmp::PartialEqSpecImpl for PageIndexSelection {
    open spec fn obeys_eq_spec() -> bool {
        true
    }

    open spec fn eq_spec(&self, other: &Self) -> bool {
        self@ == other@
    }
}

impl Eq for PageIndexSelection {

}

/// A scan that needs the column index of a chunk needs its offset index too, and needs neither
/// of a chunk in a row group that did not survive.
pub proof fn scan_offsets_cover_columns(
    row_groups: Seq<usize>,
    predicate: Seq<usize>,
    projected: Seq<usize>,
    key: PageIndexKey,
)
    ensures
        keys_of(row_groups, predicate).contains(key) ==> keys_of(
            row_groups,
            predicate + projected,
        ).contains(key),
        keys_of(row_groups, projected).contains(key) ==> keys_of(
            row_groups,
            predicate + projected,
        ).contains(key),
        !row_groups.contains(key.row_group_index) ==> !keys_of(
            row_groups,
            predicate + projected,
        ).contains(key),
{
    let column = key.column_index;
    if predicate.contains(column) {
        let i = choose|i: int| 0 <= i < predicate.len() && predicate[i] == column;
        assert((predicate + projected)[i] == column);
    }
    if projected.contains(column) {
        let i = choose|i: int| 0 <= i < projected.len() && projected[i] == column;
        assert((predicate + projected)[predicate.len() + i] == column);
    }
}

/// The keys of some columns in some row groups are those whose row group is one of the row groups
/// and whose column is one of the columns, in either list where there are two.
pub proof fn keys_pair_row_groups_with_columns(
    row_groups: Seq<usize>,
    columns: Seq<usize>,
    more: Seq<usize>,
    key: PageIndexKey,
)
    ensures
        keys_of(row_groups, columns).contains(key) <==> row_groups.contains(key.row_group_index)
            && columns.contains(key.column_index),
        keys_of(row_groups, columns + more).contains(key) <==> row_groups.contains(
            key.row_group_index,
        ) && (columns.contains(key.column_index) || more.contains(key.column_index)),
{
    scan_offsets_cover_columns(row_groups, columns, more, key);
}

/// The selection of nothing selects no entry.
pub proof fn empty_selection_selects_nothing(key: PageIndexKey)
    ensures
        !IndexSelection::empty().column_indexes.contains(key),
        !IndexSelection::empty().offset_indexes.contains(key),
{
}

} // verus!
