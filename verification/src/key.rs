//! Identity of one Parquet column chunk, and its encoding as a single integer.

use vstd::prelude::*;

verus! {

/// Identifies one Parquet column chunk within a file.
#[derive(Debug, Clone, Copy, PartialEq, Eq, Hash, Structural)]
pub struct PageIndexKey {
    /// Zero-based row-group index.
    pub row_group_index: usize,
    /// Zero-based physical Parquet leaf-column index.
    pub column_index: usize,
}

impl PageIndexKey {
    /// Creates a new page-index key.
    pub fn new(row_group_index: usize, column_index: usize) -> (key: Self)
        ensures
            key.row_group_index == row_group_index,
            key.column_index == column_index,
    {
        Self { row_group_index, column_index }
    }
}

/// One more than the largest column index that a code can hold.
pub const COLUMN_SPAN: u128 = 0x1_0000_0000_0000_0000;

/// The integer that stands for `key` in the hash tables of this crate.
pub open spec fn key_code(key: PageIndexKey) -> u128 {
    (key.row_group_index * COLUMN_SPAN + key.column_index) as u128
}

/// The key that `code` stands for.
pub open spec fn code_key(code: u128) -> PageIndexKey {
    PageIndexKey {
        row_group_index: (code / COLUMN_SPAN) as usize,
        column_index: (code % COLUMN_SPAN) as usize,
    }
}

/// Whether some key has the code `code`.
pub open spec fn is_key_code(code: u128) -> bool {
    code / COLUMN_SPAN <= usize::MAX && code % COLUMN_SPAN <= usize::MAX
}

/// Decoding a key's code gives the key back, so distinct keys have distinct codes.
pub proof fn lemma_code_of_key(key: PageIndexKey)
    ensures
        key.row_group_index * COLUMN_SPAN + key.column_index <= u128::MAX,
        is_key_code(key_code(key)),
        code_key(key_code(key)) == key,
{
    let r = key.row_group_index as int;
    let c = key.column_index as int;
    let whole = r * COLUMN_SPAN + c;
    assert(0 <= whole <= u128::MAX);
    assert(whole / COLUMN_SPAN as int == r);
    assert(whole % COLUMN_SPAN as int == c);
}

/// Encoding the key of a valid code gives the code back.
pub proof fn lemma_key_of_code(code: u128)
    requires
        is_key_code(code),
    ensures
        key_code(code_key(code)) == code,
{
    let r = code / COLUMN_SPAN;
    let c = code % COLUMN_SPAN;
    assert(r * COLUMN_SPAN + c == code);
}

/// Encodes a key.
pub(crate) fn encode_key(key: &PageIndexKey) -> (code: u128)
    ensures
        code == key_code(*key),
{
    proof {
        lemma_code_of_key(*key);
    }
    (key.row_group_index as u128) * COLUMN_SPAN + (key.column_index as u128)
}

/// Decodes a key.
pub(crate) fn decode_key(code: u128) -> (key: PageIndexKey)
    requires
        is_key_code(code),
    ensures
        key == code_key(code),
{
    PageIndexKey {
        row_group_index: (code / COLUMN_SPAN) as usize,
        column_index: (code % COLUMN_SPAN) as usize,
    }
}

} // verus!
