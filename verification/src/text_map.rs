//! A map from text to values, kept in key order.

use vstd::prelude::*;
use vstd::string::*;
use vstd::utf8::*;

use crate::text::{
    is_before, lemma_before_irreflexive, lemma_before_total, lemma_before_transitive,
    lemma_encoding_is_injective, same_text, text_before,
};

verus! {

/// Whether each key sorts before the next ones.
pub open spec fn ascending(keys: Seq<Seq<char>>) -> bool {
    forall|i: int, j: int|
        0 <= i < j < keys.len() ==> text_before(#[trigger] keys[i], #[trigger] keys[j])
}

/// A map from text to values. No key occurs twice, and keys are walked in
/// ascending order.
#[derive(Debug)]
pub struct TextMap<V> {
    keys: Vec<String>,
    values: Vec<V>,
}

impl<V> TextMap<V> {
    /// The keys, in order.
    pub closed spec fn order(self) -> Seq<Seq<char>> {
        Seq::new(self.keys@.len(), |i: int| self.keys@[i]@)
    }

    /// Keys ascend, and each has a value.
    pub closed spec fn valid(self) -> bool {
        &&& self.keys@.len() == self.values@.len()
        &&& ascending(self.order())
    }
}

impl<V> View for TextMap<V> {
    type V = Map<Seq<char>, V>;

    closed spec fn view(&self) -> Map<Seq<char>, V> {
        Map::new(
            |k: Seq<char>| self.order().contains(k),
            |k: Seq<char>| self.values@[self.order().index_of(k)],
        )
    }
}

proof fn lemma_ascending_distinct(keys: Seq<Seq<char>>)
    requires
        ascending(keys),
    ensures
        keys.no_duplicates(),
{
    assert forall|i: int, j: int| 0 <= i < keys.len() && 0 <= j < keys.len() && i != j implies keys[i]
        != keys[j] by {
        lemma_before_irreflexive(encode_utf8(keys[i]));
        if i < j {
            assert(text_before(keys[i], keys[j]));
        } else {
            assert(text_before(keys[j], keys[i]));
        }
    }
}

proof fn lemma_index_of(keys: Seq<Seq<char>>, i: int)
    requires
        ascending(keys),
        0 <= i < keys.len(),
    ensures
        keys.contains(keys[i]),
        keys.index_of(keys[i]) == i,
{
    lemma_ascending_distinct(keys);
    let k = keys.index_of(keys[i]);
    assert(keys.contains(keys[i]));
    assert(0 <= k < keys.len() && keys[k] == keys[i]);
}

impl<V> TextMap<V> {
    /// What holds of every valid map: the keys in order are exactly the keys of
    /// the map.
    pub proof fn lemma_order(self)
        requires
            self.valid(),
        ensures
            ascending(self.order()),
            self.order().no_duplicates(),
            forall|k: Seq<char>| #[trigger] self@.dom().contains(k) <==> self.order().contains(k),
    {
        lemma_ascending_distinct(self.order());
    }

    /// An empty map.
    pub fn new() -> (r: Self)
        ensures
            r.valid(),
            r@ == Map::<Seq<char>, V>::empty(),
            r.order() == Seq::<Seq<char>>::empty(),
    {
        let r = TextMap { keys: Vec::new(), values: Vec::new() };
        proof {
            assert(r.order() =~= Seq::<Seq<char>>::empty());
            assert(r@ =~= Map::<Seq<char>, V>::empty());
        }
        r
    }

    /// The number of keys.
    pub fn len(&self) -> (r: usize)
        ensures
            r == self.order().len(),
    {
        self.keys.len()
    }

    /// The key at a place in the order.
    pub fn key_at(&self, i: usize) -> (r: &str)
        requires
            self.valid(),
            i < self.order().len(),
        ensures
            r@ == self.order()[i as int],
            self@.dom().contains(r@),
    {
        proof {
            lemma_index_of(self.order(), i as int);
        }
        self.keys[i].as_str()
    }

    /// The value at a place in the order.
    pub fn value_at(&self, i: usize) -> (r: &V)
        requires
            self.valid(),
            i < self.order().len(),
        ensures
            self@.dom().contains(self.order()[i as int]),
            *r == self@[self.order()[i as int]],
    {
        proof {
            lemma_index_of(self.order(), i as int);
        }
        &self.values[i]
    }

    /// Where `key` stands, or where it would.
    fn locate(&self, key: &str) -> (r: (usize, bool))
        requires
            self.valid(),
        ensures
            r.0 <= self.order().len(),
            r.1 == self@.dom().contains(key@),
            r.1 ==> r.0 < self.order().len() && self.order()[r.0 as int] == key@,
            !r.1 ==> {
                &&& forall|i: int|
                    0 <= i < r.0 ==> text_before(#[trigger] self.order()[i], key@)
                &&& forall|i: int|
                    r.0 <= i < self.order().len() ==> text_before(key@, #[trigger] self.order()[i])
            },
    {
        let ghost order = self.order();
        let mut i: usize = 0;
        while i < self.keys.len() && is_before(self.keys[i].as_str(), key)
            invariant
                i <= self.keys@.len(),
                order == self.order(),
                order.len() == self.keys@.len(),
                forall|k: int| 0 <= k < i ==> text_before(#[trigger] order[k], key@),
            decreases self.keys@.len() - i,
        {
            proof {
                assert(order[i as int] == self.keys@[i as int]@);
            }
            i += 1;
        }
        let found = i < self.keys.len() && same_text(self.keys[i].as_str(), key);
        proof {
            if i < order.len() {
                assert(order[i as int] == self.keys@[i as int]@);
            }
            if found {
                lemma_index_of(order, i as int);
            } else {
                assert forall|k: int| i <= k < order.len() implies text_before(
                    key@,
                    #[trigger] order[k],
                ) by {
                    let a = encode_utf8(key@);
                    let b = encode_utf8(order[i as int]);
                    lemma_before_total(a, b);
                    if a == b {
                        lemma_encoding_is_injective(key@, order[i as int]);
                    }
                    assert(text_before(key@, order[i as int]));
                    if k > i {
                        assert(text_before(order[i as int], order[k]));
                        lemma_before_transitive(a, b, encode_utf8(order[k]));
                    }
                }
                assert forall|k: int| 0 <= k < order.len() implies #[trigger] order[k] != key@ by {
                    lemma_before_irreflexive(encode_utf8(key@));
                    if k < i {
                        assert(text_before(order[k], key@));
                    } else {
                        assert(text_before(key@, order[k]));
                    }
                }
                assert(!order.contains(key@));
            }
        }
        (i, found)
    }

    /// The value of `key`, if it has one.
    pub fn get(&self, key: &str) -> (r: Option<&V>)
        requires
            self.valid(),
        ensures
            match r {
                Some(v) => self@.dom().contains(key@) && *v == self@[key@],
                None => !self@.dom().contains(key@),
            },
    {
        let (i, found) = self.locate(key);
        if found {
            proof {
                lemma_index_of(self.order(), i as int);
            }
            Some(&self.values[i])
        } else {
            None
        }
    }

    /// Give `key` a value, in place of any it had.
    pub fn insert(&mut self, key: &str, value: V)
        requires
            old(self).valid(),
        ensures
            final(self).valid(),
            final(self)@ == old(self)@.insert(key@, value),
    {
        let (i, found) = self.locate(key);
        let ghost before = *self;
        let ghost order = self.order();
        if found {
            self.values.set(i, value);
            proof {
                assert(self.order() =~= order);
                assert forall|k: Seq<char>| order.contains(k) && k != key@ implies self@[k]
                    == before@[k] by {
                    let n = order.index_of(k);
                    assert(0 <= n < order.len() && order[n] == k);
                    lemma_index_of(order, n);
                    assert(n != i);
                }
                lemma_index_of(order, i as int);
                assert(self@ =~= before@.insert(key@, value));
            }
        } else {
            self.keys.insert(i, key.to_owned());
            self.values.insert(i, value);
            proof {
                let now = self.order();
                assert(now =~= order.insert(i as int, key@));
                assert forall|a: int, b: int| 0 <= a < b < now.len() implies text_before(
                    #[trigger] now[a],
                    #[trigger] now[b],
                ) by {
                    if a < i && b > i {
                        assert(text_before(order[a], order[b - 1]));
                    } else if a < i && b < i {
                        assert(text_before(order[a], order[b]));
                    } else if a > i {
                        assert(text_before(order[a - 1], order[b - 1]));
                    }
                }
                assert forall|k: Seq<char>| now.contains(k) <==> order.contains(k) || k == key@ by {
                    if order.contains(k) {
                        let n = order.index_of(k);
                        if n < i {
                            assert(now[n] == k);
                        } else {
                            assert(now[n + 1] == k);
                        }
                    }
                    assert(now[i as int] == key@);
                    if now.contains(k) && k != key@ {
                        let n = now.index_of(k);
                        if n < i {
                            assert(order[n] == k);
                        } else {
                            assert(order[n - 1] == k);
                        }
                    }
                }
                assert forall|k: Seq<char>| order.contains(k) implies self@[k] == before@[k] by {
                    let n = order.index_of(k);
                    lemma_index_of(order, n);
                    if n < i {
                        assert(now[n] == k);
                        lemma_index_of(now, n);
                    } else {
                        assert(now[n + 1] == k);
                        lemma_index_of(now, n + 1);
                    }
                }
                lemma_index_of(now, i as int);
                assert(!order.contains(key@));
                assert(self@ =~= before@.insert(key@, value));
            }
        }
    }
}

} // verus!
