//! A table from names to values that can also list its names.

use crate::text::{lemma_texts_push, texts};
use vstd::hash_map::StringHashMap;
use vstd::prelude::*;

verus! {

/// The characters of each string slice of `v`.
pub open spec fn slices(v: Seq<&str>) -> Seq<Seq<char>> {
    v.map_values(|s: &str| s@)
}

/// Mapping to characters goes through `push`.
pub proof fn lemma_slices_push(v: Seq<&str>, s: &str)
    ensures
        slices(v.push(s)) == slices(v).push(s@),
{
    assert(slices(v.push(s)) =~= slices(v).push(s@));
}

/// A map keyed by strings, together with the list of its keys.
///
/// Its view is the map from the characters of each key to the value. A key
/// that is inserted again keeps its place in the list and takes the new
/// value.
#[verifier::reject_recursive_types(V)]
pub struct NameMap<V> {
    map: StringHashMap<V>,
    keys: Vec<String>,
}

impl<V> View for NameMap<V> {
    type V = Map<Seq<char>, V>;

    closed spec fn view(&self) -> Map<Seq<char>, V> {
        self.map@
    }
}

impl<V> NameMap<V> {
    /// The list holds each key of the map once and nothing else.
    #[verifier::type_invariant]
    spec fn well_formed(&self) -> bool {
        &&& texts(self.keys@).no_duplicates()
        &&& forall|k: Seq<char>| self.map@.contains_key(k) <==> texts(self.keys@).contains(k)
    }

    /// The table without entries.
    pub fn new() -> (r: Self)
        ensures
            r@ == Map::<Seq<char>, V>::empty(),
    {
        NameMap { map: StringHashMap::new(), keys: Vec::new() }
    }

    /// Sets the value of `key`, whether or not the table held it.
    pub fn insert(&mut self, key: String, value: V)
        ensures
            final(self)@ == old(self)@.insert(key@, value),
    {
        let mut taken = NameMap::new();
        std::mem::swap(self, &mut taken);
        proof {
            use_type_invariant(&taken);
        }
        let NameMap { mut map, mut keys } = taken;
        let ghost before = texts(keys@);
        let ghost held = map@;
        if !map.contains_key(key.as_str()) {
            keys.push(key.clone());
            proof {
                lemma_texts_push(old(self).keys@, key);
                assert(!before.contains(key@));
            }
        }
        map.insert(key, value);
        proof {
            let after = texts(keys@);
            assert forall|k: Seq<char>| map@.contains_key(k) <==> after.contains(k) by {
                if before.contains(k) {
                    let i = choose|i: int| 0 <= i < before.len() && before[i] == k;
                    assert(after[i] == k);
                }
                if k == key@ && !held.contains_key(k) {
                    assert(after[before.len() as int] == k);
                }
            }
        }
        *self = NameMap { map, keys };
    }

    /// The value of `key`, if the table holds it.
    pub fn get(&self, key: &str) -> (r: Option<&V>)
        ensures
            r == (if self@.contains_key(key@) {
                Some(&self@[key@])
            } else {
                None
            }),
    {
        self.map.get(key)
    }

    /// Whether the table holds `key`.
    pub fn contains_key(&self, key: &str) -> (r: bool)
        ensures
            r == self@.contains_key(key@),
    {
        self.map.contains_key(key)
    }

    /// The keys of the table, each once, in no order that callers may rely on.
    pub fn keys(&self) -> (r: Vec<&str>)
        ensures
            slices(r@).no_duplicates(),
            slices(r@).to_set() == self@.dom(),
    {
        proof {
            use_type_invariant(self);
        }
        let mut r: Vec<&str> = Vec::new();
        let mut i: usize = 0;
        while i < self.keys.len()
            invariant
                i <= self.keys.len(),
                slices(r@) == texts(self.keys@).take(i as int),
            decreases self.keys.len() - i,
        {
            let ghost listed = r@;
            let key: &str = self.keys[i].as_str();
            r.push(key);
            proof {
                lemma_slices_push(listed, key);
                assert(texts(self.keys@).take(i + 1) =~= texts(self.keys@).take(i as int).push(
                    self.keys[i as int]@,
                ));
            }
            i = i + 1;
        }
        proof {
            assert(texts(self.keys@).take(self.keys.len() as int) == texts(self.keys@));
            assert forall|k: Seq<char>| slices(r@).to_set().contains(k) <==> self@.dom().contains(
                k,
            ) by {}
            assert(slices(r@).to_set() =~= self@.dom());
        }
        r
    }
}

} // verus!
