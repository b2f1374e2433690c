//! A small map from names to values that keeps the order of insertion.

use vstd::prelude::*;
use crate::text::same_text;

verus! {

/// Values under distinct names.
pub struct Registry<V> {
    keys: Vec<String>,
    values: Vec<V>,
}

/// The names of a list of strings.
pub open spec fn names(keys: Seq<String>) -> Seq<Seq<char>> {
    Seq::new(keys.len(), |i: int| keys[i]@)
}

/// The map from the names of one list to the values of another, position by
/// position.
pub open spec fn zipped<V>(keys: Seq<Seq<char>>, values: Seq<V>) -> Map<Seq<char>, V> {
    Map::new(
        |key: Seq<char>| keys.contains(key),
        |key: Seq<char>| values[keys.index_of(key)],
    )
}

proof fn lemma_index<V>(keys: Seq<Seq<char>>, values: Seq<V>, i: int)
    requires
        keys.no_duplicates(),
        keys.len() == values.len(),
        0 <= i < keys.len(),
    ensures
        zipped(keys, values).contains_key(keys[i]),
        zipped(keys, values)[keys[i]] == values[i],
        keys.index_of(keys[i]) == i,
{
    assert(keys.contains(keys[i]));
    let j = keys.index_of(keys[i]);
    assert(keys[j] == keys[i]);
}

proof fn lemma_updated<V>(keys: Seq<Seq<char>>, values: Seq<V>, i: int)
    requires
        keys.no_duplicates(),
        keys.len() == values.len(),
        0 <= i < keys.len(),
    ensures
        forall|value: V|
            zipped(keys, #[trigger] values.update(i, value)) == zipped(keys, values).insert(
                keys[i],
                value,
            ),
{
    assert forall|value: V|
        zipped(keys, #[trigger] values.update(i, value)) == zipped(keys, values).insert(
            keys[i],
            value,
        ) by {
        let after = values.update(i, value);
        let new = zipped(keys, after);
        let wanted = zipped(keys, values).insert(keys[i], value);
        assert(keys.contains(keys[i]));
        assert forall|other: Seq<char>| #[trigger] new.contains_key(other) implies new[other]
            == wanted[other] by {
            let j = keys.index_of(other);
            lemma_index(keys, after, j);
            lemma_index(keys, values, j);
            lemma_index(keys, values, i);
        }
        assert(new =~= wanted);
    }
}

impl<V> View for Registry<V> {
    type V = Map<Seq<char>, V>;

    closed spec fn view(&self) -> Map<Seq<char>, V> {
        zipped(names(self.keys@), self.values@)
    }
}

impl<V> Registry<V> {
    /// Each name stands once, with one value.
    pub closed spec fn wf(&self) -> bool {
        &&& self.keys@.len() == self.values@.len()
        &&& names(self.keys@).no_duplicates()
    }

    /// The names in the order in which they came.
    pub closed spec fn order(&self) -> Seq<Seq<char>> {
        names(self.keys@)
    }

    /// The values in the order of their names.
    pub closed spec fn items(&self) -> Seq<V> {
        self.values@
    }

    /// Names and values stand side by side.
    pub proof fn lemma_items(&self)
        requires
            self.wf(),
        ensures
            self.order().len() == self.items().len(),
            self.order().no_duplicates(),
            self@ == zipped(self.order(), self.items()),
            forall|i: int|
                0 <= i < self.order().len() ==> self@.contains_key(#[trigger] self.order()[i])
                    && self@[self.order()[i]] == self.items()[i],
            forall|key: Seq<char>| #[trigger]
                self@.contains_key(key) ==> self.order().contains(key),
    {
        assert forall|i: int| 0 <= i < self.order().len() implies self@.contains_key(
            #[trigger] self.order()[i],
        ) && self@[self.order()[i]] == self.items()[i] by {
            lemma_index(self.order(), self.items(), i);
        }
    }

    /// A registry without names.
    pub fn new() -> (registry: Self)
        ensures
            registry.wf(),
            registry@ == Map::<Seq<char>, V>::empty(),
            registry.order() == Seq::<Seq<char>>::empty(),
    {
        let registry = Registry { keys: Vec::new(), values: Vec::new() };
        assert(registry@ =~= Map::<Seq<char>, V>::empty());
        assert(registry.order() =~= Seq::<Seq<char>>::empty());
        registry
    }

    /// How many names there are.
    pub fn len(&self) -> (len: usize)
        requires
            self.wf(),
        ensures
            len == self.order().len(),
    {
        self.keys.len()
    }

    /// The name at a position.
    pub fn key_at(&self, i: usize) -> (key: &String)
        requires
            self.wf(),
            i < self.order().len(),
        ensures
            key@ == self.order()[i as int],
    {
        &self.keys[i]
    }

    /// The value at a position.
    pub fn value_at(&self, i: usize) -> (value: &V)
        requires
            self.wf(),
            i < self.order().len(),
        ensures
            *value == self.items()[i as int],
    {
        &self.values[i]
    }

    /// The position of a name.
    pub fn position(&self, key: &str) -> (found: Option<usize>)
        requires
            self.wf(),
        ensures
            found is Some <==> self@.contains_key(key@),
            found matches Some(i) ==> i < self.order().len() && self.order()[i as int] == key@
                && self@[key@] == self.items()[i as int],
    {
        let mut i: usize = 0;
        while i < self.keys.len()
            invariant
                self.wf(),
                i <= self.keys@.len(),
                forall|j: int| 0 <= j < i ==> #[trigger] self.keys@[j]@ != key@,
            decreases self.keys@.len() - i,
        {
            if same_text(self.keys[i].as_str(), key) {
                proof {
                    lemma_index(names(self.keys@), self.values@, i as int);
                }
                return Some(i);
            }
            i += 1;
        }
        proof {
            assert forall|j: int| 0 <= j < self.order().len() implies #[trigger] self.order()[j]
                != key@ by {
                assert(self.keys@[j]@ == self.order()[j]);
            }
        }
        None
    }

    /// Whether a name is there.
    pub fn contains(&self, key: &str) -> (found: bool)
        requires
            self.wf(),
        ensures
            found == self@.contains_key(key@),
    {
        self.position(key).is_some()
    }

    /// The value under a name.
    pub fn get(&self, key: &str) -> (value: Option<&V>)
        requires
            self.wf(),
        ensures
            value is Some <==> self@.contains_key(key@),
            value matches Some(v) ==> *v == self@[key@],
    {
        match self.position(key) {
            Some(i) => Some(&self.values[i]),
            None => None,
        }
    }

    /// Exchanges the value at a position with another one.
    pub fn swap_at(&mut self, i: usize, value: &mut V)
        requires
            old(self).wf(),
            i < old(self).order().len(),
        ensures
            final(self).wf(),
            final(self).order() == old(self).order(),
            final(self).items() == old(self).items().update(i as int, *old(value)),
            final(self)@ == old(self)@.insert(old(self).order()[i as int], *old(value)),
            *final(value) == old(self).items()[i as int],
    {
        let ghost keys = names(self.keys@);
        let ghost before = self.values@;
        std::mem::swap(value, &mut self.values[i]);
        proof {
            let given = *old(value);
            assert(self.values@ =~= before.update(i as int, given));
            let key = keys[i as int];
            assert(keys.contains(key));
            assert forall|other: Seq<char>| #[trigger] zipped(keys, self.values@).contains_key(
                other,
            ) implies zipped(keys, self.values@)[other] == zipped(keys, before).insert(
                key,
                given,
            )[other] by {
                let j = keys.index_of(other);
                lemma_index(keys, self.values@, j);
                lemma_index(keys, before, j);
                lemma_index(keys, before, i as int);
            }
            assert(zipped(keys, self.values@) =~= zipped(keys, before).insert(key, given));
        }
    }

    /// The value at a position, to be changed in place.
    pub fn value_mut(&mut self, i: usize) -> (value: &mut V)
        requires
            old(self).wf(),
            i < old(self).order().len(),
        ensures
            *value == old(self).items()[i as int],
            final(self).wf(),
            final(self).order() == old(self).order(),
            final(self).items() == old(self).items().update(i as int, *final(value)),
            final(self)@ == old(self)@.insert(old(self).order()[i as int], *final(value)),
    {
        proof {
            lemma_updated(names(self.keys@), self.values@, i as int);
        }
        &mut self.values[i]
    }

    /// Puts a value under a name, and hands back the one that was there.
    pub fn insert(&mut self, key: &str, value: V) -> (previous: Option<V>)
        requires
            old(self).wf(),
        ensures
            final(self).wf(),
            final(self)@ == old(self)@.insert(key@, value),
            previous is Some <==> old(self)@.contains_key(key@),
            previous matches Some(v) ==> v == old(self)@[key@],
            final(self).order() == if old(self)@.contains_key(key@) {
                old(self).order()
            } else {
                old(self).order().push(key@)
            },
    {
        match self.position(key) {
            Some(i) => {
                let mut slot = value;
                let ghost keys = names(self.keys@);
                let ghost before = self.values@;
                std::mem::swap(&mut slot, &mut self.values[i]);
                proof {
                    assert(self.values@ =~= before.update(i as int, value));
                    assert forall|other: Seq<char>| #[trigger] zipped(
                        keys,
                        self.values@,
                    ).contains_key(other) implies zipped(keys, self.values@)[other] == zipped(
                        keys,
                        before,
                    ).insert(key@, value)[other] by {
                        let j = keys.index_of(other);
                        lemma_index(keys, self.values@, j);
                        lemma_index(keys, before, j);
                        lemma_index(keys, before, i as int);
                    }
                    assert(keys[i as int] == key@);
                    assert(zipped(keys, self.values@) =~= zipped(keys, before).insert(key@, value));
                }
                Some(slot)
            },
            None => {
                let ghost keys = names(self.keys@);
                let ghost before = self.values@;
                self.keys.push(key.to_owned());
                self.values.push(value);
                proof {
                    let more = names(self.keys@);
                    assert(more =~= keys.push(key@));
                    assert(!keys.contains(key@));
                    assert(more.no_duplicates()) by {
                        assert forall|a: int, b: int|
                            0 <= a < more.len() && 0 <= b < more.len() && a != b implies more[a]
                            != more[b] by {
                            if a == keys.len() {
                                assert(keys.contains(more[b]));
                            } else if b == keys.len() {
                                assert(keys.contains(more[a]));
                            }
                        }
                    }
                    lemma_index(more, self.values@, keys.len() as int);
                    let new = zipped(more, self.values@);
                    let old_map = zipped(keys, before);
                    assert forall|other: Seq<char>| #[trigger] new.dom().contains(other)
                        == old_map.insert(key@, value).dom().contains(other) by {
                        if keys.contains(other) {
                            assert(more[keys.index_of(other)] == other);
                        } else if more.contains(other) {
                            let j = more.index_of(other);
                            if j < keys.len() {
                                assert(keys[j] == other);
                            }
                        }
                    }
                    assert forall|other: Seq<char>| #[trigger]
                        new.dom().contains(other) implies new[other] == old_map.insert(
                        key@,
                        value,
                    )[other] by {
                        if keys.contains(other) {
                            let j = keys.index_of(other);
                            assert(more[j] == other);
                            lemma_index(more, self.values@, j);
                            lemma_index(keys, before, j);
                        } else if more.contains(other) {
                            let j = more.index_of(other);
                            if j < keys.len() {
                                assert(keys[j] == other);
                            }
                        }
                    }
                    assert(zipped(more, self.values@) =~= zipped(keys, before).insert(key@, value));
                }
                None
            },
        }
    }

    /// Takes a name out with its value.
    pub fn remove(&mut self, key: &str) -> (previous: Option<V>)
        requires
            old(self).wf(),
        ensures
            final(self).wf(),
            final(self)@ == old(self)@.remove(key@),
            previous is Some <==> old(self)@.contains_key(key@),
            previous matches Some(v) ==> v == old(self)@[key@],
            final(self).order() == if old(self)@.contains_key(key@) {
                old(self).order().remove(old(self).order().index_of(key@))
            } else {
                old(self).order()
            },
    {
        match self.position(key) {
            Some(i) => {
                let ghost keys = names(self.keys@);
                let ghost before = self.values@;
                let _ = self.keys.remove(i);
                let value = self.values.remove(i);
                proof {
                    let less = names(self.keys@);
                    lemma_index(keys, before, i as int);
                    assert(less =~= keys.remove(i as int));
                    assert(less.no_duplicates()) by {
                        assert forall|a: int, b: int|
                            0 <= a < less.len() && 0 <= b < less.len() && a != b implies less[a]
                            != less[b] by {
                            let a0 = if a < i {
                                a
                            } else {
                                a + 1
                            };
                            let b0 = if b < i {
                                b
                            } else {
                                b + 1
                            };
                            assert(less[a] == keys[a0] && less[b] == keys[b0]);
                        }
                    }
                    let new = zipped(less, self.values@);
                    let old_map = zipped(keys, before);
                    assert forall|other: Seq<char>| #[trigger] new.dom().contains(other)
                        == old_map.remove(key@).dom().contains(other) by {
                        if less.contains(other) {
                            let j = less.index_of(other);
                            let j0 = if j < i {
                                j
                            } else {
                                j + 1
                            };
                            assert(less[j] == keys[j0]);
                            assert(keys[i as int] == key@);
                        } else if keys.contains(other) && other != key@ {
                            let j0 = keys.index_of(other);
                            let j = if j0 < i {
                                j0
                            } else {
                                j0 - 1
                            };
                            assert(less[j] == other);
                        }
                    }
                    assert forall|other: Seq<char>| #[trigger]
                        new.dom().contains(other) implies new[other] == old_map.remove(
                        key@,
                    )[other] by {
                        if less.contains(other) {
                            let j = less.index_of(other);
                            let j0 = if j < i {
                                j
                            } else {
                                j + 1
                            };
                            assert(less[j] == keys[j0]);
                            assert(keys[j0] == other);
                            lemma_index(less, self.values@, j);
                            lemma_index(keys, before, j0);
                        } else if keys.contains(other) && other != key@ {
                            let j0 = keys.index_of(other);
                            let j = if j0 < i {
                                j0
                            } else {
                                j0 - 1
                            };
                            assert(less[j] == other);
                        }
                    }
                    assert(zipped(less, self.values@) =~= zipped(keys, before).remove(key@));
                }
                Some(value)
            },
            None => {
                assert(self@ =~= old(self)@.remove(key@));
                None
            },
        }
    }
}

} // verus!
