//! The variable environment: values by name, where names differ only in case
//! name the same variable.

use vstd::prelude::*;
use crate::text::{chars_of, lowercase, same_chars, to_lowercase};

verus! {

/// The map from lower-cased names to values that the keys and values
/// `keys[..n]`, `values[..n]` spell out.
pub open spec fn map_of<V>(keys: Seq<Seq<char>>, values: Seq<V>, n: int) -> Map<Seq<char>, V>
    decreases n,
{
    if n <= 0 {
        Map::empty()
    } else {
        map_of(keys, values, n - 1).insert(keys[n - 1], values[n - 1])
    }
}

pub open spec fn distinct(keys: Seq<Seq<char>>) -> bool {
    forall|i: int, j: int| 0 <= i < j < keys.len() ==> keys[i] != keys[j]
}

proof fn lemma_map_of<V>(keys: Seq<Seq<char>>, values: Seq<V>, n: int)
    requires
        0 <= n <= keys.len(),
        n <= values.len(),
        distinct(keys),
    ensures
        forall|k: Seq<char>| #[trigger]
            map_of(keys, values, n).contains_key(k) <==> exists|i: int|
                0 <= i < n && keys[i] == k,
        forall|i: int|
            0 <= i < n ==> #[trigger] map_of(keys, values, n)[keys[i]] == values[i],
    decreases n,
{
    if n > 0 {
        lemma_map_of(keys, values, n - 1);
        assert forall|k: Seq<char>| #[trigger]
            map_of(keys, values, n).contains_key(k) <==> exists|i: int|
                0 <= i < n && keys[i] == k by {
            if map_of(keys, values, n).contains_key(k) && k != keys[n - 1] {
                assert(map_of(keys, values, n - 1).contains_key(k));
                let i = choose|i: int| 0 <= i < n - 1 && keys[i] == k;
                assert(0 <= i < n && keys[i] == k);
            }
            if k == keys[n - 1] {
                assert(0 <= n - 1 < n && keys[n - 1] == k);
            }
            if exists|i: int| 0 <= i < n && keys[i] == k {
                let i = choose|i: int| 0 <= i < n && keys[i] == k;
                if i < n - 1 {
                    assert(map_of(keys, values, n - 1).contains_key(k));
                }
            }
        }
        assert forall|i: int| 0 <= i < n implies #[trigger] map_of(keys, values, n)[keys[i]]
            == values[i] by {
            if i < n - 1 {
                assert(keys[i] != keys[n - 1]);
                assert(map_of(keys, values, n - 1)[keys[i]] == values[i]);
            }
        }
    }
}

proof fn lemma_map_of_prefix<V>(keys: Seq<Seq<char>>, values: Seq<V>, keys2: Seq<Seq<char>>, values2: Seq<V>, n: int)
    requires
        0 <= n <= keys.len(),
        n <= keys2.len(),
        n <= values.len(),
        n <= values2.len(),
        keys.take(n) == keys2.take(n),
        values.take(n) == values2.take(n),
    ensures
        map_of(keys, values, n) == map_of(keys2, values2, n),
    decreases n,
{
    if n > 0 {
        assert(keys.take(n - 1) =~= keys2.take(n - 1));
        assert(values.take(n - 1) =~= values2.take(n - 1));
        assert(keys[n - 1] == keys.take(n)[n - 1]);
        assert(keys2[n - 1] == keys2.take(n)[n - 1]);
        assert(values[n - 1] == values.take(n)[n - 1]);
        assert(values2[n - 1] == values2.take(n)[n - 1]);
        lemma_map_of_prefix(keys, values, keys2, values2, n - 1);
    }
}

/// Values by name. Names are compared by their lower-case form.
pub struct VariableManager<V> {
    keys: Vec<Vec<char>>,
    values: Vec<V>,
}

impl<V> VariableManager<V> {
    pub closed spec fn key_seqs(&self) -> Seq<Seq<char>> {
        self.keys@.map_values(|k: Vec<char>| k@)
    }

    /// The variables, by lower-cased name.
    pub closed spec fn view(&self) -> Map<Seq<char>, V> {
        map_of(self.key_seqs(), self.values@, self.keys.len() as int)
    }

    pub closed spec fn wf(&self) -> bool {
        &&& self.keys.len() == self.values.len()
        &&& distinct(self.key_seqs())
    }

    /// An empty environment.
    pub fn new() -> (r: Self)
        ensures
            r.wf(),
            r.view() == Map::<Seq<char>, V>::empty(),
    {
        VariableManager { keys: Vec::new(), values: Vec::new() }
    }

    fn find(&self, key: &Vec<char>) -> (r: Option<usize>)
        requires
            self.wf(),
        ensures
            match r {
                Some(i) => i < self.keys.len() && self.key_seqs()[i as int] == key@,
                None => forall|i: int| 0 <= i < self.keys.len() ==> self.key_seqs()[i] != key@,
            },
    {
        let mut i: usize = 0;
        while i < self.keys.len()
            invariant
                i <= self.keys.len(),
                forall|j: int| 0 <= j < i ==> self.key_seqs()[j] != key@,
            decreases self.keys.len() - i,
        {
            if same_chars(&self.keys[i], key) {
                return Some(i);
            }
            i += 1;
        }
        None
    }

    /// The value of `name`, if it is set.
    pub fn lookup(&self, name: &str) -> (r: Option<&V>)
        requires
            self.wf(),
        ensures
            match r {
                Some(v) => self.view().contains_key(lowercase(name@)) && *v == self.view()[lowercase(
                    name@,
                )],
                None => !self.view().contains_key(lowercase(name@)),
            },
    {
        let key = chars_of(to_lowercase(name).as_str());
        proof {
            lemma_map_of(self.key_seqs(), self.values@, self.keys.len() as int);
        }
        match self.find(&key) {
            Some(i) => Some(&self.values[i]),
            None => None,
        }
    }

    /// Sets `name` to `value`, replacing what it held.
    pub fn set(&mut self, name: &str, value: V)
        requires
            old(self).wf(),
        ensures
            final(self).wf(),
            final(self).view() == old(self).view().insert(lowercase(name@), value),
    {
        let key = chars_of(to_lowercase(name).as_str());
        let ghost ks = self.key_seqs();
        let ghost vs = self.values@;
        let ghost n = self.keys.len() as int;
        proof {
            lemma_map_of(ks, vs, n);
        }
        match self.find(&key) {
            Some(i) => {
                self.values.set(i, value);
                proof {
                    assert(self.key_seqs() == ks);
                    lemma_map_of(ks, self.values@, n);
                    assert(self.view() =~= old(self).view().insert(key@, value));
                }
            },
            None => {
                let ghost k = key@;
                self.keys.push(key);
                self.values.push(value);
                proof {
                    assert(self.key_seqs() =~= ks.push(k));
                    assert(distinct(self.key_seqs()));
                    assert(ks.push(k).take(n) =~= ks.take(n));
                    assert(self.values@.take(n) =~= vs.take(n));
                    lemma_map_of_prefix(self.key_seqs(), self.values@, ks, vs, n);
                    assert(self.view() =~= old(self).view().insert(k, value));
                }
            },
        }
    }

    /// Forgets every variable.
    pub fn clear(&mut self)
        ensures
            final(self).wf(),
            final(self).view() == Map::<Seq<char>, V>::empty(),
    {
        self.keys.clear();
        self.values.clear();
    }
}

} // verus!
