//! The stores that carry transferable objects past serialization.
//!
//! A transferable value (an `ArrayBuffer`, say) cannot go through the
//! serializer. While a message is serialized, each such value is put in a
//! store under its id, and the serialized data holds only the id. The
//! store's contents travel beside the data; on the receiving side they fill
//! a lookup store, from which deserialization takes each value back by its
//! id.

use crate::ids::{successor, unique_id, IdCounter};
use std::collections::HashMap;
use vstd::prelude::*;
use vstd::std_specs::hash::spec_keys_iter;
use vstd::std_specs::iter::IteratorSpec;

verus! {

/// The serialization store: for each id, the value to send and the
/// underlying object to transfer with the message.
pub struct TransferStore<V> {
    entries: HashMap<u64, (V, V)>,
}

/// `entries` lists every entry of `m` once, with its id.
pub open spec fn lists_entries<V>(m: Map<u64, (V, V)>, entries: Seq<(u64, V, V)>) -> bool {
    &&& entries.len() == m.dom().len()
    &&& forall|i: int|
        0 <= i < entries.len() ==> m.contains_key((#[trigger] entries[i]).0) && m[entries[i].0] == (
            entries[i].1,
            entries[i].2,
        )
    &&& forall|i: int, j: int|
        0 <= i < j < entries.len() ==> (#[trigger] entries[i]).0 != (#[trigger] entries[j]).0
    &&& forall|id: u64| m.contains_key(id) ==> exists|i: int| 0 <= i < entries.len() && (#[trigger] entries[i]).0 == id
}

impl<V> View for TransferStore<V> {
    type V = Map<u64, (V, V)>;

    /// The value and the underlying object stored under each id.
    closed spec fn view(&self) -> Map<u64, (V, V)> {
        self.entries@
    }
}

impl<V> TransferStore<V> {
    /// An empty store.
    pub fn new() -> (store: Self)
        ensures
            store@ == Map::<u64, (V, V)>::empty(),
    {
        TransferStore { entries: HashMap::new() }
    }

    /// Empties the store.
    pub fn clear(&mut self)
        ensures
            final(self)@ == Map::<u64, (V, V)>::empty(),
    {
        self.entries.clear();
    }

    /// Stores a value and its underlying object under an id; a value stored
    /// earlier under the same id is replaced.
    pub fn insert(&mut self, id: u64, value: V, underlying: V)
        ensures
            final(self)@ == old(self)@.insert(id, (value, underlying)),
    {
        broadcast use vstd::std_specs::hash::group_hash_axioms;

        self.entries.insert(id, (value, underlying));
    }

    /// The number of stored values.
    pub fn len(&self) -> (n: usize)
        ensures
            n == self@.len(),
    {
        broadcast use vstd::std_specs::hash::group_hash_axioms;

        self.entries.len()
    }

    /// Takes every entry out of the store, which is left empty. Each id
    /// comes once, in no particular order.
    pub fn take(&mut self) -> (entries: Vec<(u64, V, V)>)
        ensures
            final(self)@ == Map::<u64, (V, V)>::empty(),
            lists_entries(old(self)@, entries@),
    {
        broadcast use vstd::std_specs::hash::group_hash_axioms;

        let mut map: HashMap<u64, (V, V)> = HashMap::new();
        core::mem::swap(&mut map, &mut self.entries);
        let ghost orig = map@;
        let mut keys: Vec<u64> = Vec::new();
        let ghost all = spec_keys_iter(&map).remaining().unref();
        for k in it: map.keys()
            invariant
                keys@.len() == it.index(),
                it.seq().unref() == all,
                forall|i: int| 0 <= i < keys@.len() ==> keys@[i] == all[i],
            ensures
                keys@ =~= all,
        {
            keys.push(*k);
        }
        let n = keys.len();
        let mut entries: Vec<(u64, V, V)> = Vec::new();
        for i in 0..n
            invariant
                n == keys@.len(),
                keys@.no_duplicates(),
                keys@.to_set() == orig.dom(),
                entries@.len() == i,
                forall|j: int|
                    0 <= j < i ==> (#[trigger] entries@[j]).0 == keys@[j] && orig[keys@[j]] == (
                        entries@[j].1,
                        entries@[j].2,
                    ),
                forall|j: int|
                    i <= j < n ==> map@.contains_key(#[trigger] keys@[j]) && map@[keys@[j]]
                        == orig[keys@[j]],
        {
            let k = keys[i];
            match map.remove(&k) {
                Some(pair) => {
                    let (value, underlying) = pair;
                    entries.push((k, value, underlying));
                },
                None => {
                    assert(false);
                },
            }
            assert forall|j: int| i + 1 <= j < n implies map@.contains_key(
                #[trigger] keys@[j],
            ) && map@[keys@[j]] == orig[keys@[j]] by {
                assert(keys@[j] != keys@[i as int]);
            }
        }
        proof {
            assert forall|id: u64| orig.contains_key(id) implies exists|i: int|
                0 <= i < entries@.len() && (#[trigger] entries@[i]).0 == id by {
                assert(keys@.to_set().contains(id));
                let i = choose|i: int| 0 <= i < keys@.len() && keys@[i] == id;
                assert(entries@[i].0 == id);
            }
            assert forall|i: int| 0 <= i < entries@.len() implies orig.contains_key(
                (#[trigger] entries@[i]).0,
            ) && orig[entries@[i].0] == (entries@[i].1, entries@[i].2) by {
                assert(keys@.to_set().contains(keys@[i]));
            }
            keys@.unique_seq_to_set();
        }
        entries
    }
}

/// The map that a list of `(id, value)` pairs gives, a later pair winning
/// over an earlier one with the same id.
pub open spec fn map_of<V>(pairs: Seq<(u64, V)>) -> Map<u64, V>
    decreases pairs.len(),
{
    if pairs.len() == 0 {
        Map::empty()
    } else {
        map_of(pairs.drop_last()).insert(pairs.last().0, pairs.last().1)
    }
}

/// The `(id, value)` pairs of a list of store entries, without the
/// underlying objects.
pub open spec fn sent_values<V>(entries: Seq<(u64, V, V)>) -> Seq<(u64, V)> {
    entries.map_values(|e: (u64, V, V)| (e.0, e.1))
}

/// The lookup store on the receiving side: for each id, the value that was
/// sent under it.
pub struct LookupStore<V> {
    values: HashMap<u64, V>,
}

impl<V> View for LookupStore<V> {
    type V = Map<u64, V>;

    /// The value sent under each id.
    closed spec fn view(&self) -> Map<u64, V> {
        self.values@
    }
}

impl<V> LookupStore<V> {
    /// An empty store.
    pub fn new() -> (store: Self)
        ensures
            store@ == Map::<u64, V>::empty(),
    {
        LookupStore { values: HashMap::new() }
    }

    /// Replaces the contents of the store with the values that arrived with
    /// a message.
    pub fn fill(&mut self, pairs: Vec<(u64, V)>)
        ensures
            final(self)@ == map_of(pairs@),
    {
        broadcast use vstd::std_specs::hash::group_hash_axioms;

        let mut values: HashMap<u64, V> = HashMap::new();
        let ghost all = pairs@;
        let mut pairs = pairs;
        let mut rest: Vec<(u64, V)> = Vec::new();
        // reverse, so that the pairs can be moved out in their order
        while pairs.len() > 0
            invariant
                all == pairs@ + rest@.reverse(),
            decreases pairs.len(),
        {
            let p = pairs.pop().unwrap();
            let ghost before = rest@;
            rest.push(p);
            proof {
                assert(rest@.reverse() =~= seq![p] + before.reverse());
            }
        }
        assert(rest@.reverse() =~= all);
        let n = rest.len();
        let mut i: usize = 0;
        while i < n
            invariant
                n == all.len(),
                i <= n,
                rest@.len() == n - i,
                forall|k: int| 0 <= k < n - i ==> #[trigger] rest@[k] == all[n - 1 - k],
                values@ == map_of(all.take(i as int)),
            decreases n - i,
        {
            let (id, value) = rest.pop().unwrap();
            assert((id, value) == all[i as int]);
            values.insert(id, value);
            proof {
                assert(all.take(i + 1).drop_last() =~= all.take(i as int));
            }
            i = i + 1;
        }
        assert(all.take(n as int) =~= all);
        self.values = values;
    }

    /// The value sent under an id, if any.
    pub fn get(&self, id: u64) -> (r: Option<&V>)
        ensures
            match r {
                Some(v) => self@.contains_key(id) && *v == self@[id],
                None => !self@.contains_key(id),
            },
    {
        broadcast use vstd::std_specs::hash::group_hash_axioms;

        self.values.get(&id)
    }

    /// Empties the store, so that it holds on to nothing after a message.
    pub fn clear(&mut self)
        ensures
            final(self)@ == Map::<u64, V>::empty(),
    {
        self.values.clear();
    }
}

/// A list of pairs with distinct ids maps each id to its value, and holds
/// no other id.
pub proof fn lemma_map_of_distinct<V>(pairs: Seq<(u64, V)>)
    requires
        forall|i: int, j: int| 0 <= i < j < pairs.len() ==> (#[trigger] pairs[i]).0 != (#[trigger] pairs[j]).0,
    ensures
        forall|i: int|
            0 <= i < pairs.len() ==> map_of(pairs).contains_key((#[trigger] pairs[i]).0) && map_of(
                pairs,
            )[pairs[i].0] == pairs[i].1,
        forall|id: u64|
            #[trigger] map_of(pairs).contains_key(id) ==> exists|i: int|
                0 <= i < pairs.len() && (#[trigger] pairs[i]).0 == id,
    decreases pairs.len(),
{
    if pairs.len() > 0 {
        let init = pairs.drop_last();
        assert forall|i: int, j: int| 0 <= i < j < init.len() implies (#[trigger] init[i]).0 != (
        #[trigger] init[j]).0 by {
            assert(init[i] == pairs[i] && init[j] == pairs[j]);
        }
        lemma_map_of_distinct(init);
        let last = pairs.len() - 1;
        assert forall|i: int|
            0 <= i < pairs.len() implies map_of(pairs).contains_key((#[trigger] pairs[i]).0) && map_of(
            pairs,
        )[pairs[i].0] == pairs[i].1 by {
            if i < last {
                assert(init[i] == pairs[i]);
                assert(pairs[i].0 != pairs[last].0);
            }
        }
        assert forall|id: u64| #[trigger] map_of(pairs).contains_key(id) implies exists|i: int|
            0 <= i < pairs.len() && (#[trigger] pairs[i]).0 == id by {
            if id != pairs[last].0 {
                assert(map_of(init).contains_key(id));
                let i = choose|i: int| 0 <= i < init.len() && (#[trigger] init[i]).0 == id;
                assert(pairs[i] == init[i]);
            }
        }
    }
}

/// What the sending side stored is what the receiving side looks up: once
/// the entries taken from the serialization store have filled the lookup
/// store, each id gives back the value stored under it, and no other id
/// gives anything.
pub proof fn lemma_transfer_roundtrip<V>(sent: Map<u64, (V, V)>, entries: Seq<(u64, V, V)>)
    requires
        lists_entries(sent, entries),
    ensures
        map_of(sent_values(entries)) == sent.map_values(|p: (V, V)| p.0),
{
    let pairs = sent_values(entries);
    assert forall|i: int, j: int| 0 <= i < j < pairs.len() implies (#[trigger] pairs[i]).0 != (
    #[trigger] pairs[j]).0 by {
        assert(pairs[i].0 == entries[i].0 && pairs[j].0 == entries[j].0);
    }
    lemma_map_of_distinct(pairs);
    let got = map_of(pairs);
    let want = sent.map_values(|p: (V, V)| p.0);
    assert forall|id: u64| got.contains_key(id) <==> want.contains_key(id) by {
        if got.contains_key(id) {
            let i = choose|i: int| 0 <= i < pairs.len() && (#[trigger] pairs[i]).0 == id;
            assert(entries[i].0 == id);
        }
        if sent.contains_key(id) {
            let i = choose|i: int| 0 <= i < entries.len() && (#[trigger] entries[i]).0 == id;
            assert(pairs[i].0 == id);
        }
    }
    assert forall|id: u64| #[trigger] got.contains_key(id) implies got[id] == want[id] by {
        let i = choose|i: int| 0 <= i < pairs.len() && (#[trigger] pairs[i]).0 == id;
        assert(entries[i].0 == id);
        assert(got[pairs[i].0] == pairs[i].1);
    }
    assert(got =~= want);
}

/// The store of underlying objects met while one message is serialized,
/// with the id that tells this store apart from any other.
pub struct SerStore<V> {
    store: Vec<V>,
    store_id: u64,
}

impl<V> SerStore<V> {
    /// The underlying objects collected so far, in order.
    pub closed spec fn objects(&self) -> Seq<V> {
        self.store@
    }

    /// The id of the store.
    pub closed spec fn spec_store_id(&self) -> u64 {
        self.store_id
    }

    /// An empty store, with a fresh id from the counter.
    pub fn new(counter: &mut IdCounter) -> (store: Self)
        ensures
            store.objects() == Seq::<V>::empty(),
            store.spec_store_id() == old(counter)@,
            final(counter)@ == successor(old(counter)@),
    {
        SerStore { store: Vec::new(), store_id: unique_id(counter) }
    }

    /// The id of the store.
    pub fn store_id(&self) -> (id: u64)
        ensures
            id == self.spec_store_id(),
    {
        self.store_id
    }

    /// Adds the underlying objects of one transferable value.
    pub fn extend(&mut self, objects: Vec<V>)
        ensures
            final(self).objects() == old(self).objects() + objects@,
            final(self).spec_store_id() == old(self).spec_store_id(),
    {
        let mut objects = objects;
        self.store.append(&mut objects);
    }

    /// The underlying objects collected, in order.
    pub fn into_objects(self) -> (objects: Vec<V>)
        ensures
            objects@ == self.objects(),
    {
        self.store
    }
}


/// Filling a lookup store with pairs that repeat an id keeps the value of
/// the last pair with that id.
pub proof fn lemma_map_of_last_wins<V>(pairs: Seq<(u64, V)>, i: int)
    requires
        0 <= i < pairs.len(),
        forall|j: int| i < j < pairs.len() ==> (#[trigger] pairs[j]).0 != pairs[i].0,
    ensures
        map_of(pairs).contains_key(pairs[i].0),
        map_of(pairs)[pairs[i].0] == pairs[i].1,
    decreases pairs.len(),
{
    if i < pairs.len() - 1 {
        let init = pairs.drop_last();
        assert forall|j: int| i < j < init.len() implies (#[trigger] init[j]).0 != init[i].0 by {
            assert(init[j] == pairs[j]);
        }
        lemma_map_of_last_wins(init, i);
        assert(pairs.last().0 != pairs[i].0);
    }
}
} // verus!
