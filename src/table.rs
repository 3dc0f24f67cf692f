//! A string-keyed table that remembers the order in which keys first arrived,
//! so that its contents can be listed as well as looked up.
use vstd::hash_map::StringHashMap;
use vstd::prelude::*;

verus! {

/// The views of a sequence of strings.
pub open spec fn string_views(s: Seq<String>) -> Seq<Seq<char>> {
    s.map_values(|x: String| x@)
}

#[verifier::reject_recursive_types(T)]
pub struct KeyedTable<T> {
    map: StringHashMap<T>,
    order: Vec<String>,
}

impl<T> View for KeyedTable<T> {
    type V = Map<Seq<char>, T>;

    closed spec fn view(&self) -> Map<Seq<char>, T> {
        self.map@
    }
}

impl<T> KeyedTable<T> {
    /// Each key once, in the order it was first inserted.
    pub closed spec fn key_order(&self) -> Seq<Seq<char>> {
        string_views(self.order@)
    }

    /// The listed keys are exactly the keys of the table, each once.
    pub open spec fn wf(&self) -> bool {
        &&& self.key_order().no_duplicates()
        &&& forall|k: Seq<char>|
            #![trigger self@.contains_key(k)]
            #![trigger self.key_order().contains(k)]
            self@.contains_key(k) <==> self.key_order().contains(k)
    }

    pub fn new() -> (r: Self)
        ensures
            r.wf(),
            r@ == Map::<Seq<char>, T>::empty(),
            r.key_order() == Seq::<Seq<char>>::empty(),
    {
        let r = KeyedTable { map: StringHashMap::new(), order: Vec::new() };
        assert(r.key_order() =~= Seq::<Seq<char>>::empty());
        r
    }

    /// Inserts `value` under `key`, replacing what was there.
    pub fn insert(&mut self, key: String, value: T)
        requires
            old(self).wf(),
        ensures
            final(self).wf(),
            final(self)@ == old(self)@.insert(key@, value),
            final(self).key_order() == if old(self)@.contains_key(key@) {
                old(self).key_order()
            } else {
                old(self).key_order().push(key@)
            },
    {
        let ghost old_order = self.key_order();
        let present = self.map.contains_key(key.as_str());
        if !present {
            let copy = key.clone();
            self.order.push(copy);
            assert(self.key_order() =~= old_order.push(key@));
            assert forall|i: int, j: int|
                0 <= i < self.key_order().len() && 0 <= j < self.key_order().len() && i != j
                implies self.key_order()[i] != self.key_order()[j] by {
                if i == old_order.len() as int {
                    assert(old_order.contains(old_order[j]));
                    assert(old(self)@.contains_key(old_order[j]));
                } else if j == old_order.len() as int {
                    assert(old_order.contains(old_order[i]));
                    assert(old(self)@.contains_key(old_order[i]));
                }
            }
        }
        self.map.insert(key, value);
        assert forall|k: Seq<char>|
            self@.contains_key(k) <==> #[trigger] self.key_order().contains(k) by {
            assert(old(self)@.contains_key(k) <==> old_order.contains(k));
            assert(old(self)@.contains_key(key@) <==> old_order.contains(key@));
            if !present {
                if k == key@ {
                    assert(self.key_order()[old_order.len() as int] == k);
                } else {
                    if old_order.contains(k) {
                        let j = choose|j: int| 0 <= j < old_order.len() && old_order[j] == k;
                        assert(self.key_order()[j] == k);
                    }
                    if self.key_order().contains(k) {
                        let j = choose|j: int|
                            0 <= j < self.key_order().len() && self.key_order()[j] == k;
                        assert(old_order[j] == k);
                    }
                }
            }
        }
    }

    pub fn get(&self, key: &str) -> (r: Option<&T>)
        ensures
            match r {
                Some(v) => self@.contains_key(key@) && *v == self@[key@],
                None => !self@.contains_key(key@),
            },
    {
        self.map.get(key)
    }

    /// Number of keys.
    pub fn len(&self) -> (r: usize)
        requires
            self.wf(),
        ensures
            r == self.key_order().len(),
            r == self@.len(),
    {
        proof {
            self.lemma_len();
        }
        self.order.len()
    }

    /// The `i`-th key in first-insertion order.
    pub fn key_at(&self, i: usize) -> (r: &String)
        requires
            i < self.key_order().len(),
        ensures
            r@ == self.key_order()[i as int],
    {
        &self.order[i]
    }

    /// The number of keys agrees with the size of the table.
    pub proof fn lemma_len(&self)
        requires
            self.wf(),
        ensures
            self@.dom() == self.key_order().to_set(),
            self@.dom().len() == self.key_order().len(),
    {
        assert(self@.dom() =~= self.key_order().to_set());
        self.key_order().unique_seq_to_set();
    }
}

} // verus!
