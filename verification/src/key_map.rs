//! A sparse map from page-index keys to shared values.

use crate::key::{decode_key, encode_key, PageIndexKey};
use crate::key_set::PageIndexKeySet;
use std::collections::HashMap;
use std::sync::Arc;
use vstd::prelude::*;

verus! {

/// `Arc::clone` makes another handle to the same value.
#[verifier::external_body]
fn share<T>(value: &Arc<T>) -> (handle: Arc<T>)
    ensures
        handle == *value,
{
    Arc::clone(value)
}

/// A map from [`PageIndexKey`]s to shared values.
///
/// The keys are hashed by their integer codes; the map's view is keyed by the keys themselves.
#[derive(Debug)]
#[verifier::reject_recursive_types(T)]
pub struct PageIndexMap<T> {
    entries: HashMap<u128, Arc<T>>,
}

impl<T> View for PageIndexMap<T> {
    type V = Map<PageIndexKey, Arc<T>>;

    closed spec fn view(&self) -> Map<PageIndexKey, Arc<T>> {
        Map::new(
            |key: PageIndexKey| self.entries@.contains_key(crate::key::key_code(key)),
            |key: PageIndexKey| self.entries@[crate::key::key_code(key)],
        )
    }
}

impl<T> PageIndexMap<T> {
    /// Every code in the table is the code of a key.
    #[verifier::type_invariant]
    spec fn holds_key_codes(self) -> bool {
        forall|code: u128| #[trigger]
            self.entries@.contains_key(code) ==> crate::key::is_key_code(code)
    }

    proof fn lemma_view_size(&self)
        requires
            self.holds_key_codes(),
        ensures
            self@.dom().finite(),
            self@.dom().len() == self.entries@.dom().len(),
    {
        let codes = self.entries@.dom();
        let keys = self@.dom();
        let decode = |code: u128| crate::key::code_key(code);
        assert forall|key: PageIndexKey| keys.contains(key) implies codes.map(decode).contains(
            key,
        ) by {
            crate::key::lemma_code_of_key(key);
            assert(decode(crate::key::key_code(key)) == key);
        }
        assert forall|key: PageIndexKey| codes.map(decode).contains(key) implies keys.contains(
            key,
        ) by {
            let code = choose|code: u128| codes.contains(code) && decode(code) == key;
            assert(self.entries@.contains_key(code));
            crate::key::lemma_key_of_code(code);
        }
        assert(codes.map(decode) =~= keys);
        assert forall|a: u128, b: u128|
            codes.contains(a) && codes.contains(b) && decode(a) == decode(b) implies a == b by {
            assert(self.entries@.contains_key(a) && self.entries@.contains_key(b));
            crate::key::lemma_key_of_code(a);
            crate::key::lemma_key_of_code(b);
        }
        vstd::set_lib::lemma_map_size(codes, keys, decode);
    }

    /// Creates an empty map.
    pub fn new() -> (map: Self)
        ensures
            map@ == Map::<PageIndexKey, Arc<T>>::empty(),
    {
        let map = Self { entries: HashMap::new() };
        assert(map@ =~= Map::<PageIndexKey, Arc<T>>::empty());
        map
    }

    /// Maps `key` to `value`, replacing what it was mapped to.
    pub fn insert(&mut self, key: PageIndexKey, value: Arc<T>)
        ensures
            final(self)@ == old(self)@.insert(key, value),
    {
        proof {
            use_type_invariant(&*self);
        }
        let mut entries: HashMap<u128, Arc<T>> = HashMap::new();
        std::mem::swap(&mut entries, &mut self.entries);
        let code = encode_key(&key);
        entries.insert(code, value);
        proof {
            crate::key::lemma_code_of_key(key);
        }
        self.entries = entries;
        proof {
            assert forall|other: PageIndexKey| crate::key::key_code(other) == code implies other
                == key by {
                crate::key::lemma_code_of_key(other);
            }
            assert(final(self)@ =~= old(self)@.insert(key, value));
        }
    }

    /// The value that `key` is mapped to.
    pub fn get(&self, key: &PageIndexKey) -> (value: Option<&Arc<T>>)
        ensures
            match value {
                Some(value) => self@.contains_key(*key) && self@[*key] == *value,
                None => !self@.contains_key(*key),
            },
    {
        self.entries.get(&encode_key(key))
    }

    /// Whether `key` is mapped to a value.
    pub fn contains_key(&self, key: &PageIndexKey) -> (found: bool)
        ensures
            found == self@.contains_key(*key),
    {
        self.entries.contains_key(&encode_key(key))
    }

    /// The number of entries.
    pub fn len(&self) -> (len: usize)
        ensures
            self@.dom().finite(),
            len == self@.dom().len(),
    {
        proof {
            use_type_invariant(self);
            self.lemma_view_size();
        }
        self.entries.len()
    }

    /// Whether the map has no entries.
    pub fn is_empty(&self) -> (empty: bool)
        ensures
            empty == (self@ == Map::<PageIndexKey, Arc<T>>::empty()),
    {
        proof {
            use_type_invariant(self);
            self.lemma_view_size();
            if self.entries@.is_empty() {
                assert(self@.dom().len() == 0);
                assert(self@ =~= Map::<PageIndexKey, Arc<T>>::empty());
            }
            if self@ == Map::<PageIndexKey, Arc<T>>::empty() {
                assert(self.entries@.dom().len() == 0);
            }
        }
        self.entries.is_empty()
    }

    /// The keys, each once, in no particular order.
    pub fn keys(&self) -> (keys: Vec<PageIndexKey>)
        ensures
            keys@.no_duplicates(),
            keys@.to_set() == self@.dom(),
    {
        proof {
            use_type_invariant(self);
        }
        let mut keys: Vec<PageIndexKey> = Vec::new();
        let ghost codes: Seq<u128> = vstd::std_specs::iter::IteratorSpec::remaining(
            &self.entries.keys(),
        ).unref();
        for code in iter: self.entries.keys()
            invariant
                self.holds_key_codes(),
                iter.seq().unref() == codes,
                codes.no_duplicates(),
                codes.to_set() == self.entries@.dom(),
                keys@.len() == iter.index(),
                forall|i: int|
                    0 <= i < keys@.len() ==> #[trigger] keys@[i] == crate::key::code_key(codes[i]),
        {
            assert(codes[iter.index()] == *code);
            assert(codes.to_set().contains(*code));
            assert(self.entries@.contains_key(*code));
            keys.push(decode_key(*code));
        }
        proof {
            assert forall|i: int| 0 <= i < codes.len() implies crate::key::key_code(
                crate::key::code_key(#[trigger] codes[i]),
            ) == codes[i] by {
                assert(codes.to_set().contains(codes[i]));
                assert(self.entries@.contains_key(codes[i]));
                crate::key::lemma_key_of_code(codes[i]);
            }
            assert forall|key: PageIndexKey| keys@.contains(key) implies self@.contains_key(key) by {
                let i = choose|i: int| 0 <= i < keys@.len() && keys@[i] == key;
                assert(codes.to_set().contains(codes[i]));
            }
            assert forall|key: PageIndexKey| self@.contains_key(key) implies keys@.contains(key) by {
                let code = crate::key::key_code(key);
                assert(codes.to_set().contains(code));
                let i = choose|i: int| 0 <= i < codes.len() && codes[i] == code;
                crate::key::lemma_code_of_key(key);
                assert(keys@[i] == key);
            }
            assert(keys@.to_set() =~= self@.dom());
        }
        keys
    }

    /// The keys of `wanted` that are not mapped to a value.
    pub fn missing(&self, wanted: &PageIndexKeySet) -> (missing: PageIndexKeySet)
        ensures
            missing@ == wanted@.difference(self@.dom()),
    {
        let keys = wanted.to_vec();
        let mut missing = PageIndexKeySet::new();
        for i in 0..keys.len()
            invariant
                missing@ == keys@.take(i as int).to_set().difference(self@.dom()),
        {
            let ghost before = missing@;
            if !self.contains_key(&keys[i]) {
                missing.insert(keys[i]);
            }
            proof {
                assert(keys@.take(i + 1) =~= keys@.take(i as int).push(keys@[i as int]));
                keys@.take(i as int).lemma_push_to_set_commute(keys@[i as int]);
                assert(missing@ =~= keys@.take(i + 1).to_set().difference(self@.dom()));
            }
        }
        assert(keys@.take(keys@.len() as int) =~= keys@);
        missing
    }

    /// The entries whose keys are in `wanted`.
    pub fn select(&self, wanted: &PageIndexKeySet) -> (selected: Self)
        ensures
            selected@ == self@.restrict(wanted@),
    {
        let keys = wanted.to_vec();
        let mut selected = Self::new();
        for i in 0..keys.len()
            invariant
                selected@ == self@.restrict(keys@.take(i as int).to_set()),
        {
            if let Some(value) = self.get(&keys[i]) {
                selected.insert(keys[i], share(value));
            }
            proof {
                assert(keys@.take(i + 1) =~= keys@.take(i as int).push(keys@[i as int]));
                keys@.take(i as int).lemma_push_to_set_commute(keys@[i as int]);
                assert(selected@ =~= self@.restrict(keys@.take(i + 1).to_set()));
            }
        }
        assert(keys@.take(keys@.len() as int) =~= keys@);
        selected
    }

    /// Adds every entry of `other`, which wins where both maps have a key.
    pub fn absorb(&mut self, other: Self)
        ensures
            final(self)@ == old(self)@.union_prefer_right(other@),
    {
        let keys = other.keys();
        for i in 0..keys.len()
            invariant
                keys@.to_set() == other@.dom(),
                self@ == old(self)@.union_prefer_right(
                    other@.restrict(keys@.take(i as int).to_set()),
                ),
        {
            proof {
                assert(keys@.to_set().contains(keys@[i as int]));
            }
            if let Some(value) = other.get(&keys[i]) {
                self.insert(keys[i], share(value));
            }
            proof {
                assert(keys@.take(i + 1) =~= keys@.take(i as int).push(keys@[i as int]));
                keys@.take(i as int).lemma_push_to_set_commute(keys@[i as int]);
                assert(self@ =~= old(self)@.union_prefer_right(
                    other@.restrict(keys@.take(i + 1).to_set()),
                ));
            }
        }
        proof {
            assert(keys@.take(keys@.len() as int) =~= keys@);
            assert(other@.restrict(keys@.to_set()) =~= other@);
        }
    }
}

impl<T> Clone for PageIndexMap<T> {
    fn clone(&self) -> (copy: Self)
        ensures
            copy@ == self@,
    {
        let keys = self.keys();
        let mut copy = Self::new();
        for i in 0..keys.len()
            invariant
                copy@ == self@.restrict(keys@.take(i as int).to_set()),
        {
            if let Some(value) = self.get(&keys[i]) {
                copy.insert(keys[i], share(value));
            }
            proof {
                assert(keys@.take(i + 1) =~= keys@.take(i as int).push(keys@[i as int]));
                keys@.take(i as int).lemma_push_to_set_commute(keys@[i as int]);
                assert(copy@ =~= self@.restrict(keys@.take(i + 1).to_set()));
            }
        }
        proof {
            assert(keys@.take(keys@.len() as int) =~= keys@);
            assert(self@.restrict(keys@.to_set()) =~= self@);
        }
        copy
    }
}

} // verus!
