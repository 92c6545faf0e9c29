//! A set of page-index keys.

use crate::key::{decode_key, encode_key, PageIndexKey};
use std::collections::HashSet;
use vstd::prelude::*;

verus! {

/// A set of [`PageIndexKey`]s.
///
/// The keys are hashed by their integer codes; the set's view is the set of keys themselves.
#[derive(Debug)]
pub struct PageIndexKeySet {
    codes: HashSet<u128>,
}

impl View for PageIndexKeySet {
    type V = Set<PageIndexKey>;

    closed spec fn view(&self) -> Set<PageIndexKey> {
        Set::new(|key: PageIndexKey| self.codes@.contains(crate::key::key_code(key)))
    }
}

impl PageIndexKeySet {
    /// The table is finite, and every code in it is the code of a key.
    #[verifier::type_invariant]
    spec fn holds_key_codes(self) -> bool {
        &&& self.codes@.finite()
        &&& forall|code: u128| #[trigger]
            self.codes@.contains(code) ==> crate::key::is_key_code(code)
    }

    proof fn lemma_view_size(&self)
        requires
            self.holds_key_codes(),
        ensures
            self@.finite(),
            self@.len() == self.codes@.len(),
            self@.is_empty() <==> self.codes@.is_empty(),
    {
        let decode = |code: u128| crate::key::code_key(code);
        assert forall|key: PageIndexKey| self@.contains(key) implies self.codes@.map(
            decode,
        ).contains(key) by {
            crate::key::lemma_code_of_key(key);
            assert(decode(crate::key::key_code(key)) == key);
        }
        assert forall|key: PageIndexKey| self.codes@.map(decode).contains(
            key,
        ) implies self@.contains(key) by {
            let code = choose|code: u128| self.codes@.contains(code) && decode(code) == key;
            crate::key::lemma_key_of_code(code);
        }
        assert(self.codes@.map(decode) =~= self@);
        assert forall|a: u128, b: u128|
            self.codes@.contains(a) && self.codes@.contains(b) && decode(a) == decode(
                b,
            ) implies a == b by {
            crate::key::lemma_key_of_code(a);
            crate::key::lemma_key_of_code(b);
        }
        vstd::set_lib::lemma_map_size(self.codes@, self@, decode);
        if self@.is_empty() {
            assert(self@.len() == 0);
        }
    }

    /// Creates an empty set.
    pub fn new() -> (set: Self)
        ensures
            set@ == Set::<PageIndexKey>::empty(),
    {
        let set = Self { codes: HashSet::new() };
        assert(set@ =~= Set::<PageIndexKey>::empty());
        set
    }

    /// Adds `key`; returns whether it was absent.
    pub fn insert(&mut self, key: PageIndexKey) -> (added: bool)
        ensures
            final(self)@ == old(self)@.insert(key),
            added == !old(self)@.contains(key),
    {
        proof {
            use_type_invariant(&*self);
        }
        let mut codes: HashSet<u128> = HashSet::new();
        std::mem::swap(&mut codes, &mut self.codes);
        let ghost before = codes@;
        let code = encode_key(&key);
        let added = codes.insert(code);
        proof {
            crate::key::lemma_code_of_key(key);
        }
        self.codes = codes;
        proof {
            assert forall|other: PageIndexKey| crate::key::key_code(other) == code implies other
                == key by {
                crate::key::lemma_code_of_key(other);
            }
            assert(final(self)@ =~= old(self)@.insert(key));
        }
        added
    }

    /// Whether `key` is in the set.
    pub fn contains(&self, key: &PageIndexKey) -> (found: bool)
        ensures
            found == self@.contains(*key),
    {
        self.codes.contains(&encode_key(key))
    }

    /// The number of keys.
    pub fn len(&self) -> (len: usize)
        ensures
            self@.finite(),
            len == self@.len(),
    {
        proof {
            use_type_invariant(self);
            self.lemma_view_size();
        }
        self.codes.len()
    }

    /// Whether the set has no keys.
    pub fn is_empty(&self) -> (empty: bool)
        ensures
            empty == (self@ == Set::<PageIndexKey>::empty()),
    {
        proof {
            use_type_invariant(self);
            self.lemma_view_size();
        }
        self.codes.is_empty()
    }

    /// The keys, each once, in no particular order.
    pub fn to_vec(&self) -> (keys: Vec<PageIndexKey>)
        ensures
            keys@.no_duplicates(),
            keys@.to_set() == self@,
    {
        proof {
            use_type_invariant(self);
        }
        let mut keys: Vec<PageIndexKey> = Vec::new();
        let ghost codes: Seq<u128> = vstd::std_specs::iter::IteratorSpec::remaining(
            &self.codes.iter(),
        ).unref();
        for code in iter: self.codes.iter()
            invariant
                self.holds_key_codes(),
                iter.seq().unref() == codes,
                codes.no_duplicates(),
                codes.to_set() == self.codes@,
                keys@.len() == iter.index(),
                forall|i: int|
                    0 <= i < keys@.len() ==> #[trigger] keys@[i] == crate::key::code_key(codes[i]),
        {
            assert(codes[iter.index()] == *code);
            assert(self.codes@.contains(*code));
            keys.push(decode_key(*code));
        }
        proof {
            assert forall|i: int, j: int| 0 <= i < j < keys@.len() implies keys@[i] != keys@[j] by {
                assert(codes.to_set().contains(codes[i]) && codes.to_set().contains(codes[j]));
                crate::key::lemma_key_of_code(codes[i]);
                crate::key::lemma_key_of_code(codes[j]);
            }
            assert forall|key: PageIndexKey| keys@.contains(key) implies self@.contains(key) by {
                let i = choose|i: int| 0 <= i < keys@.len() && keys@[i] == key;
                assert(codes.to_set().contains(codes[i]));
                crate::key::lemma_key_of_code(codes[i]);
            }
            assert forall|key: PageIndexKey| self@.contains(key) implies keys@.contains(key) by {
                let code = crate::key::key_code(key);
                assert(codes.to_set().contains(code));
                let i = choose|i: int| 0 <= i < codes.len() && codes[i] == code;
                crate::key::lemma_code_of_key(key);
                assert(keys@[i] == key);
            }
            assert(keys@.to_set() =~= self@);
        }
        keys
    }
}

impl Clone for PageIndexKeySet {
    fn clone(&self) -> (copy: Self)
        ensures
            copy@ == self@,
    {
        let keys = self.to_vec();
        let mut copy = PageIndexKeySet::new();
        for i in 0..keys.len()
            invariant
                copy@ == keys@.take(i as int).to_set(),
        {
            copy.insert(keys[i]);
            proof {
                assert(keys@.take(i + 1) =~= keys@.take(i as int).push(keys@[i as int]));
                keys@.take(i as int).lemma_push_to_set_commute(keys@[i as int]);
            }
        }
        assert(keys@.take(keys@.len() as int) =~= keys@);
        copy
    }
}

impl PartialEq for PageIndexKeySet {
    fn eq(&self, other: &Self) -> (equal: bool) {
        if self.len() != other.len() {
            return false;
        }
        let keys = self.to_vec();
        for i in 0..keys.len()
            invariant
                keys@.to_set() == self@,
                forall|j: int| 0 <= j < i ==> other@.contains(#[trigger] keys@[j]),
        {
            if !other.contains(&keys[i]) {
                assert(keys@.to_set().contains(keys@[i as int]));
                return false;
            }
        }
        proof {
            assert forall|key: PageIndexKey| self@.contains(key) implies other@.contains(key) by {
                assert(keys@.to_set().contains(key));
            }
            vstd::set_lib::lemma_subset_equality(self@, other@);
        }
        true
    }
}

impl vstd::std_specs::cmp::PartialEqSpecImpl for PageIndexKeySet {
    open spec fn obeys_eq_spec() -> bool {
        true
    }

    open spec fn eq_spec(&self, other: &Self) -> bool {
        self@ == other@
    }
}

impl Eq for PageIndexKeySet {

}

impl Default for PageIndexKeySet {
    fn default() -> (set: Self)
        ensures
            set@ == Set::<PageIndexKey>::empty(),
    {
        PageIndexKeySet::new()
    }
}

} // verus!
