//! A table from names to values in which the first definition of a name wins.
use vstd::prelude::*;

verus! {

/// Names bound to values. A name, once bound, keeps its value: binding it
/// again changes nothing.
pub struct Table<V: Copy> {
    keys: Vec<String>,
    values: Vec<V>,
    contents: Ghost<Map<Seq<char>, V>>,
}

impl<V: Copy> View for Table<V> {
    type V = Map<Seq<char>, V>;

    closed spec fn view(&self) -> Map<Seq<char>, V> {
        self.contents@
    }
}

impl<V: Copy> Table<V> {
    #[verifier::type_invariant]
    spec fn well_formed(&self) -> bool {
        &&& self.keys@.len() == self.values@.len()
        &&& forall|i: int|
            0 <= i < self.keys@.len() ==> #[trigger] self.contents@.contains_key(self.keys@[i]@)
                && self.contents@[self.keys@[i]@] == self.values@[i]
        &&& forall|k: Seq<char>|
            #[trigger] self.contents@.contains_key(k) ==> exists|i: int|
                0 <= i < self.keys@.len() && #[trigger] self.keys@[i]@ == k
    }

    /// An empty table.
    pub fn new() -> (r: Table<V>)
        ensures
            r@ == Map::<Seq<char>, V>::empty(),
    {
        Table { keys: Vec::new(), values: Vec::new(), contents: Ghost(Map::empty()) }
    }

    /// The position of `key`, if it is bound.
    fn find(&self, key: &String) -> (r: Option<usize>)
        ensures
            match r {
                Some(i) => i < self.values@.len() && self@.contains_key(key@) && self@[key@]
                    == self.values@[i as int],
                None => !self@.contains_key(key@),
            },
    {
        proof {
            use_type_invariant(self);
        }
        let mut i: usize = 0;
        while i < self.keys.len()
            invariant
                self.well_formed(),
                i <= self.keys@.len(),
                forall|j: int| 0 <= j < i ==> self.keys@[j]@ != key@,
            decreases self.keys@.len() - i,
        {
            if self.keys[i] == *key {
                return Some(i);
            }
            i = i + 1;
        }
        None
    }

    /// The value bound to `key`, if any.
    pub fn get(&self, key: &String) -> (r: Option<V>)
        ensures
            r == (if self@.contains_key(key@) {
                Some(self@[key@])
            } else {
                None::<V>
            }),
    {
        match self.find(key) {
            Some(i) => Some(self.values[i]),
            None => None,
        }
    }

    /// Whether `key` is bound.
    pub fn contains(&self, key: &String) -> (r: bool)
        ensures
            r == self@.contains_key(key@),
    {
        self.find(key).is_some()
    }

    /// Binds `key` to `value` unless `key` is bound already.
    pub fn define(&mut self, key: String, value: V)
        ensures
            final(self)@ == (if old(self)@.contains_key(key@) {
                old(self)@
            } else {
                old(self)@.insert(key@, value)
            }),
    {
        if self.contains(&key) {
            return;
        }
        proof {
            use_type_invariant(&*self);
        }
        let ghost k = key@;
        let mut taken = Table::new();
        core::mem::swap(self, &mut taken);
        proof {
            use_type_invariant(&taken);
        }
        let Table { mut keys, mut values, contents } = taken;
        let ghost n = keys@.len();
        let ghost old_keys = keys@;
        keys.push(key);
        values.push(value);
        let ghost m = contents@.insert(k, value);
        assert(keys@[n as int]@ == k);
        assert forall|i: int| 0 <= i < keys@.len() implies #[trigger] m.contains_key(keys@[i]@)
            && m[keys@[i]@] == values@[i] by {
            if i < n {
                assert(keys@[i] == old_keys[i]);
                assert(contents@.contains_key(old_keys[i]@));
            }
        }
        assert forall|j: Seq<char>| #[trigger] m.contains_key(j) implies exists|i: int|
            0 <= i < keys@.len() && #[trigger] keys@[i]@ == j by {
            if j == k {
                assert(keys@[n as int]@ == j);
            } else {
                assert(contents@.contains_key(j));
                let i = choose|i: int| 0 <= i < old_keys.len() && #[trigger] old_keys[i]@ == j;
                assert(keys@[i]@ == j);
            }
        }
        *self = Table { keys, values, contents: Ghost(m) };
    }
}

} // verus!
