//! Point entities (spawners, lights, pickups ...) with free-form string
//! properties.

use vstd::prelude::*;
use crate::ids::{is_random_uuid, new_random_id};
use crate::types::Vec3;

verus! {

/// The key/value pairs of `entries`, taken by their character sequences.
pub open spec fn pair_views(entries: Seq<(String, String)>) -> Seq<(Seq<char>, Seq<char>)> {
    entries.map_values(|e: (String, String)| (e.0@, e.1@))
}

/// No key occurs twice in `pairs`.
pub open spec fn keys_distinct(pairs: Seq<(Seq<char>, Seq<char>)>) -> bool {
    forall|i: int, j: int|
        0 <= i < pairs.len() && 0 <= j < pairs.len() && i != j ==> #[trigger] pairs[i].0
            != #[trigger] pairs[j].0
}

/// The value paired with `key`, searching from the most recent entry.
pub open spec fn lookup(pairs: Seq<(Seq<char>, Seq<char>)>, key: Seq<char>) -> Option<Seq<char>>
    decreases pairs.len(),
{
    if pairs.len() == 0 {
        None
    } else if pairs.last().0 == key {
        Some(pairs.last().1)
    } else {
        lookup(pairs.drop_last(), key)
    }
}

/// The map that a list of distinct key/value pairs stands for.
pub open spec fn pairs_map(pairs: Seq<(Seq<char>, Seq<char>)>) -> Map<Seq<char>, Seq<char>> {
    Map::new(|k: Seq<char>| lookup(pairs, k) is Some, |k: Seq<char>| lookup(pairs, k)->0)
}

/// Where `key` stands at position `i` of a list without repeated keys,
/// looking it up gives the value at `i`.
pub proof fn lemma_lookup_at(pairs: Seq<(Seq<char>, Seq<char>)>, key: Seq<char>, i: int)
    requires
        keys_distinct(pairs),
        0 <= i < pairs.len(),
        pairs[i].0 == key,
    ensures
        lookup(pairs, key) == Some(pairs[i].1),
    decreases pairs.len(),
{
    if i != pairs.len() - 1 {
        assert(pairs[pairs.len() - 1].0 != pairs[i].0);
        let shorter = pairs.drop_last();
        assert(keys_distinct(shorter)) by {
            assert forall|a: int, b: int|
                0 <= a < shorter.len() && 0 <= b < shorter.len() && a != b implies #[trigger] shorter[a].0
                != #[trigger] shorter[b].0 by {
                assert(shorter[a] == pairs[a] && shorter[b] == pairs[b]);
            }
        }
        assert(shorter[i] == pairs[i]);
        lemma_lookup_at(shorter, key, i);
    }
}

/// Looking up a key that no pair carries gives nothing.
pub proof fn lemma_lookup_absent(pairs: Seq<(Seq<char>, Seq<char>)>, key: Seq<char>)
    requires
        forall|i: int| 0 <= i < pairs.len() ==> #[trigger] pairs[i].0 != key,
    ensures
        lookup(pairs, key) is None,
    decreases pairs.len(),
{
    if pairs.len() > 0 {
        let shorter = pairs.drop_last();
        assert(pairs[pairs.len() - 1].0 != key);
        assert forall|i: int| 0 <= i < shorter.len() implies #[trigger] shorter[i].0 != key by {
            assert(shorter[i] == pairs[i]);
        }
        lemma_lookup_absent(shorter, key);
    }
}

/// What reading the property `key` of a property map gives.
pub open spec fn property_value(props: Map<Seq<char>, Seq<char>>, key: Seq<char>) -> Option<Seq<char>> {
    if props.contains_key(key) {
        Some(props[key])
    } else {
        None
    }
}

/// The property map after the property `key` is set to `value`.
pub open spec fn with_property(
    props: Map<Seq<char>, Seq<char>>,
    key: Seq<char>,
    value: Seq<char>,
) -> Map<Seq<char>, Seq<char>> {
    props.insert(key, value)
}

/// The property map after the properties `writes[0]`, `writes[1]`, ... are
/// set, in that order.
pub open spec fn with_properties(
    props: Map<Seq<char>, Seq<char>>,
    writes: Seq<(Seq<char>, Seq<char>)>,
) -> Map<Seq<char>, Seq<char>>
    decreases writes.len(),
{
    if writes.len() == 0 {
        props
    } else {
        with_property(with_properties(props, writes.drop_last()), writes.last().0, writes.last().1)
    }
}

/// Setting properties under other keys does not change what `key` reads.
pub proof fn law_other_writes_keep_reading(
    props: Map<Seq<char>, Seq<char>>,
    writes: Seq<(Seq<char>, Seq<char>)>,
    key: Seq<char>,
)
    requires
        forall|i: int| 0 <= i < writes.len() ==> #[trigger] writes[i].0 != key,
    ensures
        property_value(with_properties(props, writes), key) == property_value(props, key),
    decreases writes.len(),
{
    if writes.len() > 0 {
        let earlier = writes.drop_last();
        assert forall|i: int| 0 <= i < earlier.len() implies #[trigger] earlier[i].0 != key by {
            assert(earlier[i] == writes[i]);
        }
        assert(writes.last().0 != key);
        law_other_writes_keep_reading(props, earlier, key);
    }
}

/// After a property is set, reading it gives the value written, however many
/// properties under other keys are set afterwards.
pub proof fn law_get_after_set(
    before: Map<Seq<char>, Seq<char>>,
    key: Seq<char>,
    value: Seq<char>,
    later: Seq<(Seq<char>, Seq<char>)>,
)
    requires
        forall|i: int| 0 <= i < later.len() ==> #[trigger] later[i].0 != key,
    ensures
        property_value(with_properties(with_property(before, key, value), later), key) == Some(value),
{
    law_other_writes_keep_reading(with_property(before, key, value), later, key);
}

/// On a fresh entity, a property that was never set reads as absent.
pub proof fn law_unset_property_is_absent(writes: Seq<(Seq<char>, Seq<char>)>, key: Seq<char>)
    requires
        forall|i: int| 0 <= i < writes.len() ==> #[trigger] writes[i].0 != key,
    ensures
        property_value(with_properties(Map::<Seq<char>, Seq<char>>::empty(), writes), key) is None,
{
    law_other_writes_keep_reading(Map::<Seq<char>, Seq<char>>::empty(), writes, key);
}

/// Setting one property leaves every other property as it was, set or not.
pub proof fn law_set_keeps_other_keys(
    before: Map<Seq<char>, Seq<char>>,
    key: Seq<char>,
    value: Seq<char>,
    other: Seq<char>,
)
    requires
        other != key,
    ensures
        property_value(with_property(before, key, value), other) == property_value(before, other),
{
}

/// Setting a property twice is the same as setting it once to the second
/// value.
pub proof fn law_last_set_wins(
    before: Map<Seq<char>, Seq<char>>,
    key: Seq<char>,
    first: Seq<char>,
    second: Seq<char>,
)
    ensures
        with_property(with_property(before, key, first), key, second) == with_property(before, key, second),
{
    assert(with_property(with_property(before, key, first), key, second) =~= with_property(before, key, second));
}

/// The string properties of an entity: a map from keys to values, kept as a
/// list of pairs in which no key occurs twice.
#[derive(Debug)]
pub struct Properties {
    entries: Vec<(String, String)>,
}

impl Properties {
    #[verifier::type_invariant]
    closed spec fn distinct_keys(self) -> bool {
        keys_distinct(pair_views(self.entries@))
    }

    /// The pairs, by their character sequences, in the order they were added.
    pub closed spec fn pairs(self) -> Seq<(Seq<char>, Seq<char>)> {
        pair_views(self.entries@)
    }
}

impl Clone for Properties {
    /// A copy holding the same pairs in the same order.
    fn clone(&self) -> (c: Properties)
        ensures
            c@ == self@,
            c.pairs() == self.pairs(),
    {
        proof {
            use_type_invariant(self);
        }
        let mut entries: Vec<(String, String)> = Vec::new();
        let n = self.entries.len();
        let mut i: usize = 0;
        while i < n
            invariant
                n == self.entries.len(),
                0 <= i <= n,
                entries.len() == i,
                pair_views(entries@) =~= pair_views(self.entries@).take(i as int),
            decreases n - i,
        {
            let key = self.entries[i].0.clone();
            let value = self.entries[i].1.clone();
            assert(key@ == self.entries@[i as int].0@ && value@ == self.entries@[i as int].1@);
            let ghost prev = entries@;
            entries.push((key, value));
            assert forall|j: int| 0 <= j < i implies #[trigger] pair_views(entries@)[j] == pair_views(self.entries@)[j] by {
                assert(entries@[j] == prev[j]);
                assert(pair_views(prev)[j] == pair_views(self.entries@).take(i as int)[j]);
            }
            assert(pair_views(entries@) =~= pair_views(self.entries@).take(i + 1));
            i = i + 1;
        }
        assert(pair_views(self.entries@).take(n as int) =~= pair_views(self.entries@));
        Properties { entries }
    }
}

impl View for Properties {
    type V = Map<Seq<char>, Seq<char>>;

    closed spec fn view(&self) -> Map<Seq<char>, Seq<char>> {
        pairs_map(pair_views(self.entries@))
    }
}

impl Properties {
    /// No properties.
    pub fn new() -> (p: Properties)
        ensures
            p@ == Map::<Seq<char>, Seq<char>>::empty(),
    {
        let p = Properties { entries: Vec::new() };
        assert(p@ =~= Map::<Seq<char>, Seq<char>>::empty());
        p
    }

    /// Sets `key` to `value`. A key that is already set keeps its place in
    /// the list of pairs and gets the new value; a new key is added at the end.
    pub fn insert(&mut self, key: String, value: String)
        ensures
            final(self)@ == with_property(old(self)@, key@, value@),
            forall|i: int|
                0 <= i < old(self).pairs().len() && #[trigger] old(self).pairs()[i].0 == key@
                    ==> final(self).pairs() == old(self).pairs().update(i, (key@, value@)),
            (forall|i: int| 0 <= i < old(self).pairs().len() ==> #[trigger] old(self).pairs()[i].0 != key@)
                ==> final(self).pairs() == old(self).pairs().push((key@, value@)),
    {
        proof {
            use_type_invariant(&*self);
        }
        let ghost old_pairs = pair_views(old(self).entries@);
        let mut entries: Vec<(String, String)> = Vec::new();
        std::mem::swap(&mut entries, &mut self.entries);
        assert(pair_views(entries@) == old_pairs);
        let n = entries.len();
        let mut i: usize = 0;
        while i < n
            invariant
                n == entries.len(),
                0 <= i <= n,
                pair_views(entries@) == old_pairs,
                old_pairs == pair_views(old(self).entries@),
                keys_distinct(old_pairs),
                forall|j: int| 0 <= j < i ==> #[trigger] old_pairs[j].0 != key@,
            decreases n - i,
        {
            if entries[i].0 == key {
                let ghost at = i as int;
                let ghost k = key@;
                let ghost v = value@;
                assert(old_pairs[at].0 == k);
                entries.set(i, (key, value));
                let ghost new_pairs = pair_views(entries@);
                assert(new_pairs =~= old_pairs.update(at, (k, v)));
                assert(keys_distinct(new_pairs)) by {
                    assert forall|a: int, b: int|
                        0 <= a < new_pairs.len() && 0 <= b < new_pairs.len() && a != b implies #[trigger] new_pairs[a].0
                        != #[trigger] new_pairs[b].0 by {
                        assert(new_pairs[a].0 == old_pairs[a].0);
                        assert(new_pairs[b].0 == old_pairs[b].0);
                    }
                }
                proof {
                    Self::lemma_map_after_update(old_pairs, new_pairs, at, k, v);
                    assert forall|q: int| 0 <= q < old_pairs.len() && #[trigger] old_pairs[q].0 == k implies q
                        == at by {
                        if q != at {
                            assert(old_pairs[q].0 != old_pairs[at].0);
                        }
                    }
                }
                self.entries = entries;
                return;
            }
            i = i + 1;
        }
        let ghost k = key@;
        let ghost v = value@;
        entries.push((key, value));
        let ghost new_pairs = pair_views(entries@);
        assert(new_pairs =~= old_pairs.push((k, v)));
        assert(keys_distinct(new_pairs)) by {
            assert forall|a: int, b: int|
                0 <= a < new_pairs.len() && 0 <= b < new_pairs.len() && a != b implies #[trigger] new_pairs[a].0
                != #[trigger] new_pairs[b].0 by {
                if a < n && b < n {
                    assert(new_pairs[a] == old_pairs[a] && new_pairs[b] == old_pairs[b]);
                } else if a < n {
                    assert(new_pairs[a] == old_pairs[a]);
                } else {
                    assert(new_pairs[b] == old_pairs[b]);
                }
            }
        }
        proof {
            Self::lemma_map_after_push(old_pairs, new_pairs, k, v);
        }
        self.entries = entries;
    }

    proof fn lemma_map_after_update(
        old_pairs: Seq<(Seq<char>, Seq<char>)>,
        new_pairs: Seq<(Seq<char>, Seq<char>)>,
        at: int,
        k: Seq<char>,
        v: Seq<char>,
    )
        requires
            keys_distinct(old_pairs),
            keys_distinct(new_pairs),
            0 <= at < old_pairs.len(),
            old_pairs[at].0 == k,
            new_pairs == old_pairs.update(at, (k, v)),
        ensures
            pairs_map(new_pairs) == pairs_map(old_pairs).insert(k, v),
    {
        assert forall|q: Seq<char>| #[trigger] lookup(new_pairs, q) == (if q == k {
            Some(v)
        } else {
            lookup(old_pairs, q)
        }) by {
            if q == k {
                lemma_lookup_at(new_pairs, q, at);
            } else if exists|j: int| 0 <= j < old_pairs.len() && #[trigger] old_pairs[j].0 == q {
                let j = choose|j: int| 0 <= j < old_pairs.len() && #[trigger] old_pairs[j].0 == q;
                lemma_lookup_at(old_pairs, q, j);
                assert(new_pairs[j] == old_pairs[j]);
                lemma_lookup_at(new_pairs, q, j);
            } else {
                lemma_lookup_absent(old_pairs, q);
                assert forall|j: int| 0 <= j < new_pairs.len() implies #[trigger] new_pairs[j].0 != q by {
                    assert(new_pairs[j].0 == old_pairs[j].0);
                }
                lemma_lookup_absent(new_pairs, q);
            }
        }
        assert(pairs_map(new_pairs) =~= pairs_map(old_pairs).insert(k, v));
    }

    proof fn lemma_map_after_push(
        old_pairs: Seq<(Seq<char>, Seq<char>)>,
        new_pairs: Seq<(Seq<char>, Seq<char>)>,
        k: Seq<char>,
        v: Seq<char>,
    )
        requires
            new_pairs == old_pairs.push((k, v)),
        ensures
            pairs_map(new_pairs) == pairs_map(old_pairs).insert(k, v),
    {
        assert forall|q: Seq<char>| #[trigger] lookup(new_pairs, q) == (if q == k {
            Some(v)
        } else {
            lookup(old_pairs, q)
        }) by {
            assert(new_pairs.drop_last() =~= old_pairs);
        }
        assert(pairs_map(new_pairs) =~= pairs_map(old_pairs).insert(k, v));
    }

    /// How many properties are set; the pairs list every property exactly
    /// once, and nothing else.
    pub fn len(&self) -> (n: usize)
        ensures
            n == self.pairs().len(),
            keys_distinct(self.pairs()),
            self@ == pairs_map(self.pairs()),
    {
        proof {
            use_type_invariant(self);
        }
        self.entries.len()
    }

    /// The `i`-th property in the order the keys were first set.
    pub fn pair_at(&self, i: usize) -> (kv: (&String, &String))
        requires
            i < self.pairs().len(),
        ensures
            (kv.0@, kv.1@) == self.pairs()[i as int],
    {
        (&self.entries[i].0, &self.entries[i].1)
    }

    /// The value of `key`, if it has one.
    pub fn get(&self, key: &str) -> (r: Option<&String>)
        ensures
            match r {
                Some(v) => self@.contains_key(key@) && v@ == self@[key@],
                None => !self@.contains_key(key@),
            },
    {
        proof {
            use_type_invariant(self);
        }
        let ghost pairs = pair_views(self.entries@);
        let wanted = String::from_str(key);
        let n = self.entries.len();
        let mut i: usize = 0;
        while i < n
            invariant
                n == self.entries.len(),
                0 <= i <= n,
                pairs == pair_views(self.entries@),
                wanted@ == key@,
                keys_distinct(pairs),
                forall|j: int| 0 <= j < i ==> #[trigger] pairs[j].0 != key@,
            decreases n - i,
        {
            if self.entries[i].0 == wanted {
                proof {
                    lemma_lookup_at(pairs, key@, i as int);
                }
                return Some(&self.entries[i].1);
            }
            i = i + 1;
        }
        proof {
            lemma_lookup_absent(pairs, key@);
        }
        None
    }
}

/// A point entity of some class, placed on a layer and optionally in a group.
#[derive(Debug)]
pub struct Entity {
    pub id: u128,
    pub class: String,
    pub position: Vec3,
    pub properties: Properties,
    pub layer_id: u128,
    pub group_id: Option<u128>,
}

/// `a` and `b` describe the same entity.
pub open spec fn same_entity(a: Entity, b: Entity) -> bool {
    &&& a.id == b.id
    &&& a.class@ == b.class@
    &&& a.position == b.position
    &&& a.properties@ == b.properties@
    &&& a.layer_id == b.layer_id
    &&& a.group_id == b.group_id
}

impl Clone for Entity {
    /// A copy with the same identifier, class, position, properties and
    /// placement.
    fn clone(&self) -> (c: Entity)
        ensures
            same_entity(*self, c),
    {
        Entity {
            id: self.id,
            class: self.class.clone(),
            position: self.position,
            properties: self.properties.clone(),
            layer_id: self.layer_id,
            group_id: self.group_id,
        }
    }
}

impl Entity {
    /// A fresh entity of `class` at `position` on `layer_id`, without
    /// properties and in no group, under a new random identifier.
    pub fn new(class: &str, position: Vec3, layer_id: u128) -> (e: Entity)
        ensures
            is_random_uuid(e.id),
            e.class@ == class@,
            e.position == position,
            e.properties@ == Map::<Seq<char>, Seq<char>>::empty(),
            e.layer_id == layer_id,
            e.group_id is None,
    {
        Entity {
            id: new_random_id(),
            class: String::from_str(class),
            position,
            properties: Properties::new(),
            layer_id,
            group_id: None,
        }
    }

    /// Sets the property `key` to `value`; every other property, and every
    /// other field, stays as it was. A key already set keeps its place in the
    /// list of pairs; a new key is added at the end.
    pub fn set_property(&mut self, key: &str, value: &str)
        ensures
            final(self).properties@ == with_property(old(self).properties@, key@, value@),
            forall|i: int|
                0 <= i < old(self).properties.pairs().len() && #[trigger] old(self).properties.pairs()[i].0
                    == key@ ==> final(self).properties.pairs() == old(self).properties.pairs().update(
                    i,
                    (key@, value@),
                ),
            (forall|i: int|
                0 <= i < old(self).properties.pairs().len() ==> #[trigger] old(self).properties.pairs()[i].0
                    != key@) ==> final(self).properties.pairs() == old(self).properties.pairs().push(
                (key@, value@),
            ),
            final(self).id == old(self).id,
            final(self).class == old(self).class,
            final(self).position == old(self).position,
            final(self).layer_id == old(self).layer_id,
            final(self).group_id == old(self).group_id,
    {
        self.properties.insert(String::from_str(key), String::from_str(value));
    }

    /// The value of the property `key`, if it is set.
    pub fn get_property(&self, key: &str) -> (r: Option<&String>)
        ensures
            match r {
                Some(v) => property_value(self.properties@, key@) == Some(v@),
                None => property_value(self.properties@, key@) is None,
            },
    {
        self.properties.get(key)
    }
}

} // verus!
