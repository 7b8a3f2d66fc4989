//! A map from names to values, in the order of the names.

use vstd::prelude::*;

use crate::text::text_at_most;

verus! {

/// A map from names to values. Each name occurs once, and entries are kept in the order of their
/// names.
#[derive(Debug)]
pub struct NameMap<V> {
    names: Vec<String>,
    values: Vec<V>,
}

/// The names of a sequence, one after the other, in strictly ascending order.
pub open spec fn ascending(names: Seq<Seq<char>>) -> bool {
    forall|i: int, j: int|
        0 <= i < j < names.len() ==> crate::text::text_lt(#[trigger] names[i], #[trigger] names[j])
}

/// The map that pairs each name with the value in the same place.
spec fn paired<T>(names: Seq<Seq<char>>, values: Seq<T>) -> Map<Seq<char>, T> {
    Map::new(|name: Seq<char>| names.contains(name), |name: Seq<char>| values[names.index_of(name)])
}

impl<V> NameMap<V> {
    /// The names of the entries, in order.
    pub closed spec fn names_in_order(self) -> Seq<Seq<char>> {
        self.names@.map_values(|name: String| name@)
    }

    #[verifier::type_invariant]
    spec fn well_formed(self) -> bool {
        &&& self.names@.len() == self.values@.len()
        &&& ascending(self.names_in_order())
    }
}

impl<V: View> View for NameMap<V> {
    type V = Map<Seq<char>, V::V>;

    closed spec fn view(&self) -> Map<Seq<char>, V::V> {
        paired(self.names_in_order(), self.values@.map_values(|value: V| value@))
    }
}

/// Strictly ascending names are all different, so each has one place.
proof fn lemma_place(names: Seq<Seq<char>>, place: int)
    requires
        ascending(names),
        0 <= place < names.len(),
    ensures
        names.contains(names[place]),
        names.index_of(names[place]) == place,
{
    let found = names.index_of(names[place]);
    assert(names.contains(names[place]));
    assert(0 <= found < names.len() && names[found] == names[place]);
    if found < place {
        assert(crate::text::text_lt(names[found], names[place]));
    }
    if place < found {
        assert(crate::text::text_lt(names[place], names[found]));
    }
}

/// A name put in its place among ascending names leaves them ascending, and pairs them as the map
/// does after an insertion.
proof fn lemma_insert<T>(names: Seq<Seq<char>>, values: Seq<T>, place: int, name: Seq<char>, value: T)
    requires
        ascending(names),
        names.len() == values.len(),
        0 <= place <= names.len(),
        forall|i: int| 0 <= i < place ==> crate::text::text_lt(#[trigger] names[i], name),
        forall|i: int|
            place <= i < names.len() ==> crate::text::text_lt(name, #[trigger] names[i]),
    ensures
        ascending(names.insert(place, name)),
        !names.contains(name),
        paired(names.insert(place, name), values.insert(place, value)) == paired(
            names,
            values,
        ).insert(name, value),
{
    let new_names = names.insert(place, name);
    let new_values = values.insert(place, value);
    assert(ascending(new_names)) by {
        assert forall|i: int, j: int| 0 <= i < j < new_names.len() implies crate::text::text_lt(
            #[trigger] new_names[i],
            #[trigger] new_names[j],
        ) by {
            let old_i = if i < place { i } else { i - 1 };
            let old_j = if j < place { j } else { j - 1 };
            if i != place {
                assert(new_names[i] == names[old_i]);
            }
            if j != place {
                assert(new_names[j] == names[old_j]);
            }
        }
    }
    let before = paired(names, values).insert(name, value);
    let after = paired(new_names, new_values);
    assert forall|key: Seq<char>| after.contains_key(key) == #[trigger] before.contains_key(key) by {
        if key == name {
            assert(new_names[place] == name);
        } else if names.contains(key) {
            let old_place = names.index_of(key);
            let new_place = if old_place < place { old_place } else { old_place + 1 };
            assert(new_names[new_place] == key);
        } else if new_names.contains(key) {
            let new_place = new_names.index_of(key);
            let old_place = if new_place < place { new_place } else { new_place - 1 };
            assert(names[old_place] == key);
        }
    }
    assert forall|key: Seq<char>| before.contains_key(key) implies after[key]
        == #[trigger] before[key] by {
        if key == name {
            lemma_place(new_names, place);
        } else {
            let old_place = names.index_of(key);
            let new_place = if old_place < place { old_place } else { old_place + 1 };
            assert(names[old_place] == key);
            assert(new_names[new_place] == key);
            lemma_place(new_names, new_place);
        }
    }
    assert(after =~= before);
}

impl<V: View> NameMap<V> {
    /// An empty map.
    pub fn new() -> (map: Self)
        ensures
            map@ == Map::<Seq<char>, V::V>::empty(),
    {
        let map = NameMap { names: Vec::new(), values: Vec::new() };
        assert(map@ =~= Map::<Seq<char>, V::V>::empty());
        map
    }

    /// Where `name` stands, or where it would have to be inserted.
    fn place(&self, name: &str) -> (result: (bool, usize))
        ensures
            result.1 <= self.names@.len(),
            result.0 ==> result.1 < self.names@.len() && self.names_in_order()[result.1 as int] == name@,
            !result.0 ==> {
                &&& forall|i: int|
                    0 <= i < result.1 ==> crate::text::text_lt(#[trigger] self.names_in_order()[i], name@)
                &&& forall|i: int|
                    result.1 <= i < self.names@.len() ==> crate::text::text_lt(
                        name@,
                        #[trigger] self.names_in_order()[i],
                    )
            },
    {
        proof {
            use_type_invariant(self);
        }
        let ghost names = self.names_in_order();
        let mut low: usize = 0;
        let mut high: usize = self.names.len();
        while low < high
            invariant
                names == self.names_in_order(),
                ascending(names),
                low <= high <= self.names@.len(),
                forall|i: int| 0 <= i < low ==> crate::text::text_lt(#[trigger] names[i], name@),
                forall|i: int|
                    high <= i < names.len() ==> crate::text::text_lt(name@, #[trigger] names[i]),
            decreases high - low,
        {
            let middle: usize = low + (high - low) / 2;
            assert(names[middle as int] == self.names@[middle as int]@);
            if !text_at_most(name, self.names[middle].as_str()) {
                proof {
                    crate::text::text_le_total(name@, names[middle as int]);
                    crate::text::text_le_reflexive(name@);
                    assert forall|i: int| 0 <= i < middle + 1 implies crate::text::text_lt(
                        #[trigger] names[i],
                        name@,
                    ) by {
                        if i < middle {
                            crate::text::text_le_transitive(names[i], names[middle as int], name@);
                            if names[i] == name@ {
                                crate::text::text_le_antisymmetric(names[i], names[middle as int]);
                            }
                        }
                    }
                }
                low = middle + 1;
            } else if text_at_most(self.names[middle].as_str(), name) {
                proof {
                    crate::text::text_le_antisymmetric(name@, names[middle as int]);
                }
                return (true, middle);
            } else {
                proof {
                    crate::text::text_le_reflexive(name@);
                    assert forall|i: int| middle <= i < names.len() implies crate::text::text_lt(
                        name@,
                        #[trigger] names[i],
                    ) by {
                        if middle < i {
                            crate::text::text_le_transitive(name@, names[middle as int], names[i]);
                            if names[i] == name@ {
                                crate::text::text_le_antisymmetric(names[i], names[middle as int]);
                            }
                        }
                    }
                }
                high = middle;
            }
        }
        (false, low)
    }

    /// The value of a name.
    pub fn get(&self, name: &str) -> (result: Option<&V>)
        ensures
            match result {
                Some(value) => self@.contains_key(name@) && value@ == self@[name@],
                None => !self@.contains_key(name@),
            },
    {
        proof {
            use_type_invariant(self);
        }
        let (found, place) = self.place(name);
        if found {
            proof {
                lemma_place(self.names_in_order(), place as int);
            }
            Some(&self.values[place])
        } else {
            None
        }
    }

    /// The value of a name, to be changed in place.
    pub fn get_mut(&mut self, name: &str) -> (result: Option<&mut V>)
        ensures
            match result {
                Some(value) => {
                    &&& old(self)@.contains_key(name@)
                    &&& value@ == old(self)@[name@]
                    &&& final(self)@ == old(self)@.insert(name@, final(value)@)
                },
                None => !old(self)@.contains_key(name@) && final(self)@ == old(self)@,
            },
    {
        proof {
            use_type_invariant(&*self);
        }
        let (found, place) = self.place(name);
        if found {
            proof {
                lemma_place(self.names_in_order(), place as int);
            }
            Some(&mut self.values[place])
        } else {
            None
        }
    }

    /// Whether a name has a value.
    pub fn contains_key(&self, name: &str) -> (result: bool)
        ensures
            result == self@.contains_key(name@),
    {
        self.get(name).is_some()
    }

    /// Gives a name its value, in place of the value that it had.
    pub fn insert(&mut self, name: String, value: V)
        ensures
            final(self)@ == old(self)@.insert(name@, value@),
    {
        proof {
            use_type_invariant(&*self);
        }
        let (found, place) = self.place(name.as_str());
        let ghost old_names = self.names_in_order();
        let ghost old_values = self.values@.map_values(|value: V| value@);
        if found {
            proof {
                lemma_place(old_names, place as int);
            }
            self.values[place] = value;
            assert(self@ =~= old(self)@.insert(name@, value@));
        } else {
            proof {
                lemma_insert(old_names, old_values, place as int, name@, value@);
            }
            let mut map = NameMap { names: Vec::new(), values: Vec::new() };
            std::mem::swap(self, &mut map);
            let NameMap { mut names, mut values } = map;
            names.insert(place, name);
            values.insert(place, value);
            assert(names@.map_values(|name: String| name@) =~= old_names.insert(
                place as int,
                name@,
            ));
            assert(values@.map_values(|value: V| value@) =~= old_values.insert(
                place as int,
                value@,
            ));
            *self = NameMap { names, values };
        }
    }

    /// The number of entries. The names stand in ascending order, and are those that have a value.
    pub fn len(&self) -> (result: usize)
        ensures
            result == self.names_in_order().len(),
            ascending(self.names_in_order()),
            forall|name: Seq<char>|
                self@.contains_key(name) <==> #[trigger] self.names_in_order().contains(name),
    {
        proof {
            use_type_invariant(self);
        }
        self.names.len()
    }

    /// Whether no name has a value.
    pub fn is_empty(&self) -> (result: bool)
        ensures
            result == (self@ == Map::<Seq<char>, V::V>::empty()),
    {
        proof {
            use_type_invariant(self);
            if self.names@.len() == 0 {
                assert(self@ =~= Map::<Seq<char>, V::V>::empty());
            } else {
                assert(self.names_in_order().contains(self.names_in_order()[0]));
                assert(self@.contains_key(self.names_in_order()[0]));
            }
        }
        self.names.len() == 0
    }

    /// The entry in a place: its name and its value.
    pub fn entry(&self, place: usize) -> (result: (&String, &V))
        requires
            place < self.names_in_order().len(),
        ensures
            result.0@ == self.names_in_order()[place as int],
            self@.contains_key(result.0@),
            result.1@ == self@[result.0@],
    {
        proof {
            use_type_invariant(self);
            lemma_place(self.names_in_order(), place as int);
        }
        (&self.names[place], &self.values[place])
    }
}

} // verus!
