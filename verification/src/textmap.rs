//! Maps from strings to values, kept in the order of their keys.

use vstd::prelude::*;
use crate::order::{lemma_lex_irreflexive, slot, strictly_sorted};
use crate::text::{chars_of, views};

verus! {

/// The map that sends each key to the value at its index.
pub open spec fn pairs_map<W>(keys: Seq<Seq<char>>, values: Seq<W>) -> Map<Seq<char>, W> {
    Map::new(|k: Seq<char>| keys.contains(k), |k: Seq<char>| values[keys.index_of(k)])
}

/// The views of a sequence of values.
pub open spec fn value_views<V: View>(values: Seq<V>) -> Seq<V::V> {
    Seq::new(values.len(), |i: int| values[i]@)
}

/// In a strictly sorted sequence no string stands twice.
pub proof fn lemma_sorted_distinct(rows: Seq<Seq<char>>, i: int, j: int)
    requires
        strictly_sorted(rows),
        0 <= i < rows.len(),
        0 <= j < rows.len(),
        rows[i] == rows[j],
    ensures
        i == j,
{
    lemma_lex_irreflexive(rows[i]);
    if i < j {
        assert(lex_less_at(rows, i, j));
    } else if j < i {
        assert(lex_less_at(rows, j, i));
    }
}

/// Whether the row at `i` comes before the row at `j`.
spec fn lex_less_at(rows: Seq<Seq<char>>, i: int, j: int) -> bool {
    crate::text::lex_less(rows[i], rows[j])
}

/// A map from strings to values.
#[derive(Debug, PartialEq, Eq)]
pub struct TextMap<V> {
    keys: Vec<Vec<char>>,
    values: Vec<V>,
}

impl<V: View> View for TextMap<V> {
    type V = Map<Seq<char>, V::V>;

    closed spec fn view(&self) -> Map<Seq<char>, V::V> {
        pairs_map(views(self.keys@), value_views(self.values@))
    }
}

/// A copy of each row.
fn copy_rows(rows: &Vec<Vec<char>>) -> (r: Vec<Vec<char>>)
    ensures
        views(r@) == views(rows@),
{
    let mut r: Vec<Vec<char>> = Vec::new();
    let mut i: usize = 0;
    while i < rows.len()
        invariant
            i <= rows.len(),
            views(r@) == views(rows@).take(i as int),
        decreases rows.len() - i,
    {
        let row = crate::text::slice(&rows[i], 0, rows[i].len());
        assert(row@ =~= rows@[i as int]@);
        let ghost before = views(r@);
        r.push(row);
        assert(views(r@) =~= before.push(row@));
        assert(views(rows@).take(i + 1) =~= views(rows@).take(i as int).push(rows@[i as int]@));
        i += 1;
    }
    assert(views(rows@).take(rows.len() as int) =~= views(rows@));
    r
}

impl<V: View + Clone> Clone for TextMap<V> {
    /// A map with the same keys; each value is a clone of the value that the
    /// key has here.
    fn clone(&self) -> (r: Self)
        ensures
            r@.dom() == self@.dom(),
    {
        proof {
            use_type_invariant(self);
        }
        let keys = copy_rows(&self.keys);
        let mut values: Vec<V> = Vec::new();
        let mut i: usize = 0;
        while i < self.values.len()
            invariant
                i <= self.values.len(),
                values.len() == i,
            decreases self.values.len() - i,
        {
            values.push(self.values[i].clone());
            i += 1;
        }
        assert(views(keys@).len() == views(self.keys@).len());
        let r = TextMap { keys, values };
        assert(r@.dom() =~= self@.dom());
        r
    }
}

impl<V> TextMap<V> {
    #[verifier::type_invariant]
    spec fn well_formed(self) -> bool {
        &&& self.keys.len() == self.values.len()
        &&& strictly_sorted(views(self.keys@))
    }
}

impl<V: View> TextMap<V> {
    /// The empty map.
    pub fn new() -> (r: Self)
        ensures
            r@ == Map::<Seq<char>, V::V>::empty(),
    {
        let r = TextMap { keys: Vec::new(), values: Vec::new() };
        assert(r@ =~= Map::<Seq<char>, V::V>::empty());
        r
    }

    /// The number of keys. They are in strict order, and they are the keys of
    /// the map.
    pub fn len(&self) -> (n: usize)
        ensures
            n == self@.dom().len(),
            n == self.keys().len(),
            self@.dom().finite(),
            strictly_sorted(self.keys()),
            forall|k: Seq<char>| self.keys().contains(k) <==> self@.contains_key(k),
    {
        proof {
            use_type_invariant(self);
            lemma_domain_size(views(self.keys@), value_views(self.values@));
        }
        self.keys.len()
    }

    /// Whether there is no key.
    pub fn is_empty(&self) -> (b: bool)
        ensures
            b == (self@ == Map::<Seq<char>, V::V>::empty()),
    {
        proof {
            use_type_invariant(self);
            if self.keys.len() > 0 {
                assert(views(self.keys@).contains(views(self.keys@)[0]));
                assert(self@.contains_key(views(self.keys@)[0]));
            } else {
                assert(self@ =~= Map::<Seq<char>, V::V>::empty());
            }
        }
        self.keys.len() == 0
    }

    /// The value of `key`, where it has one.
    pub fn get(&self, key: &str) -> (r: Option<&V>)
        ensures
            match r {
                Some(v) => self@.contains_key(key@) && self@[key@] == v@,
                None => !self@.contains_key(key@),
            },
    {
        proof {
            use_type_invariant(self);
        }
        let k = chars_of(key);
        let (i, found) = slot(&self.keys, &k);
        if found {
            proof {
                let rows = views(self.keys@);
                assert(rows[i as int] == key@);
                lemma_sorted_distinct(rows, i as int, rows.index_of(key@));
            }
            Some(&self.values[i])
        } else {
            None
        }
    }

    /// Whether `key` has a value.
    pub fn contains_key(&self, key: &str) -> (b: bool)
        ensures
            b == self@.contains_key(key@),
    {
        self.get(key).is_some()
    }

    /// Sets the value of `key` to `value`.
    pub fn insert(&mut self, key: String, value: V)
        ensures
            final(self)@ == old(self)@.insert(key@, value@),
    {
        proof {
            use_type_invariant(&*self);
        }
        let mut taken: TextMap<V> = TextMap::new();
        core::mem::swap(self, &mut taken);
        let TextMap { mut keys, mut values } = taken;
        let k = chars_of(key.as_str());
        let ghost keys0 = views(keys@);
        let ghost vals0 = value_views(values@);
        let (i, found) = slot(&keys, &k);
        if found {
            values.set(i, value);
            proof {
                let vals1 = value_views(values@);
                assert(vals1 =~= vals0.update(i as int, value@));
                assert(keys0[i as int] == key@);
                assert forall|x: Seq<char>| keys0.contains(x) implies #[trigger] pairs_map(
                    keys0,
                    vals1,
                )[x] == pairs_map(keys0, vals0).insert(key@, value@)[x] by {
                    if x == key@ {
                        lemma_sorted_distinct(keys0, i as int, keys0.index_of(x));
                    } else {
                        assert(keys0.index_of(x) != i);
                    }
                }
                assert(pairs_map(keys0, vals1) =~= pairs_map(keys0, vals0).insert(key@, value@));
            }
        } else {
            keys.insert(i, k);
            values.insert(i, value);
            proof {
                let keys1 = views(keys@);
                let vals1 = value_views(values@);
                assert(keys1 =~= keys0.insert(i as int, key@));
                assert(vals1 =~= vals0.insert(i as int, value@));
                assert forall|p: int, q: int| 0 <= p < q < keys1.len() implies crate::text::lex_less(
                    #[trigger] keys1[p],
                    #[trigger] keys1[q],
                ) by {
                    if q < i {
                        assert(crate::text::lex_less(keys0[p], keys0[q]));
                    } else if q == i {
                        assert(crate::text::lex_less(keys0[p], key@));
                    } else if p < i {
                        assert(crate::text::lex_less(keys0[p], keys0[q - 1]));
                    } else if p == i {
                        assert(crate::text::lex_less(key@, keys0[q - 1]));
                    } else {
                        assert(crate::text::lex_less(keys0[p - 1], keys0[q - 1]));
                    }
                }
                assert forall|x: Seq<char>| keys1.contains(x) <==> (keys0.contains(x) || x
                    == key@) by {
                    if keys1.contains(x) {
                        let m = choose|m: int| 0 <= m < keys1.len() && keys1[m] == x;
                        if m < i {
                            assert(keys0[m] == x);
                        } else if m > i {
                            assert(keys0[m - 1] == x);
                        }
                    }
                    if keys0.contains(x) {
                        let m = choose|m: int| 0 <= m < keys0.len() && keys0[m] == x;
                        if m < i {
                            assert(keys1[m] == x);
                        } else {
                            assert(keys1[m + 1] == x);
                        }
                    }
                    if x == key@ {
                        assert(keys1[i as int] == x);
                    }
                }
                assert forall|x: Seq<char>| keys1.contains(x) implies #[trigger] pairs_map(
                    keys1,
                    vals1,
                )[x] == pairs_map(keys0, vals0).insert(key@, value@)[x] by {
                    let m1 = keys1.index_of(x);
                    if x == key@ {
                        lemma_sorted_distinct(keys1, i as int, m1);
                    } else {
                        let m0 = keys0.index_of(x);
                        if m0 < i {
                            assert(keys1[m0] == x);
                            lemma_sorted_distinct(keys1, m0, m1);
                        } else {
                            assert(keys1[m0 + 1] == x);
                            lemma_sorted_distinct(keys1, m0 + 1, m1);
                        }
                    }
                }
                assert(pairs_map(keys1, vals1) =~= pairs_map(keys0, vals0).insert(key@, value@));
            }
        }
        *self = TextMap { keys, values };
    }

    /// The keys, in their order.
    pub closed spec fn keys(&self) -> Seq<Seq<char>> {
        views(self.keys@)
    }

    /// The key at index `i` in the order of the keys.
    pub fn key_at(&self, i: usize) -> (r: String)
        requires
            i < self.keys().len(),
        ensures
            r@ == self.keys()[i as int],
    {
        crate::text::text_of(&self.keys[i])
    }

    /// The value of the key at index `i` in the order of the keys.
    pub fn value_at(&self, i: usize) -> (r: &V)
        requires
            i < self.keys().len(),
        ensures
            self@.contains_key(self.keys()[i as int]),
            r@ == self@[self.keys()[i as int]],
    {
        proof {
            use_type_invariant(self);
            let rows = views(self.keys@);
            assert(rows.contains(rows[i as int]));
            lemma_sorted_distinct(rows, i as int, rows.index_of(rows[i as int]));
        }
        &self.values[i]
    }

    /// Removes every key.
    pub fn clear(&mut self)
        ensures
            final(self)@ == Map::<Seq<char>, V::V>::empty(),
    {
        *self = TextMap::new();
    }

}

/// A map over distinct keys has as many entries as there are keys.
proof fn lemma_domain_size<W>(keys: Seq<Seq<char>>, values: Seq<W>)
    requires
        strictly_sorted(keys),
    ensures
        pairs_map(keys, values).dom().finite(),
        pairs_map(keys, values).dom().len() == keys.len(),
{
    assert forall|i: int, j: int| 0 <= i < keys.len() && 0 <= j < keys.len() && i != j implies keys[i]
        != keys[j] by {
        if keys[i] == keys[j] {
            lemma_sorted_distinct(keys, i, j);
        }
    }
    assert(keys.no_duplicates());
    keys.unique_seq_to_set();
    assert(pairs_map(keys, values).dom() =~= keys.to_set());
}

} // verus!
