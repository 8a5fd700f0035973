//! A keyed table whose entries are evicted once they are idle and nothing
//! refers to them any more.

use crate::managed_ptr::ManagedPtr;
use crate::types::Timeval;
use std::collections::hash_map::Entry;
use std::collections::HashMap;
use std::hash::Hash;
use vstd::prelude::*;
use vstd::std_specs::hash::{obeys_key_model, OccupiedEntrySpecFns};
use vstd::std_specs::iter::IteratorSpec;

verus! {

broadcast use vstd::std_specs::hash::group_hash_axioms;

/// What a table has to know of its entries: when an entry was last seen and
/// how many holders refer to it.
pub trait LifetimeItem: Sized {
    /// When the item was last seen.
    spec fn last_seen(&self) -> Timeval;

    /// How many holders refer to the item.
    spec fn refs(&self) -> u32;

    /// The same item with another reference count.
    spec fn with_refs(&self, refs: u32) -> Self;

    /// The reference count is a part of the item that can be exchanged
    /// without touching the rest.
    proof fn lemma_with_refs(&self, refs: u32)
        ensures
            self.with_refs(refs).refs() == refs,
            self.with_refs(refs).last_seen() == self.last_seen(),
            self.with_refs(self.refs()) == *self,
    ;

    fn get_last_seen(&self) -> (t: Timeval)
        ensures
            t == self.last_seen(),
    ;

    /// Access to the reference count. Nothing but the count changes by what
    /// is written through the reference.
    fn get_refs(&mut self) -> (refs: &mut u32)
        ensures
            *refs == old(self).refs(),
            *final(self) == old(self).with_refs(*final(refs)),
    ;

    /// One more holder. The count has to be below its limit.
    fn inc_refs(&mut self)
        requires
            old(self).refs() < u32::MAX,
        ensures
            *final(self) == old(self).with_refs((old(self).refs() + 1) as u32),
    {
        let refs = self.get_refs();
        *refs = *refs + 1;
    }

    /// One holder less. A count of zero stays zero.
    fn dec_refs(&mut self)
        ensures
            *final(self) == old(self).with_refs(released(old(self).refs())),
    {
        let refs = self.get_refs();
        if *refs > 0 {
            *refs = *refs - 1;
        }
    }
}

/// A reference count after one release.
pub open spec fn released(refs: u32) -> u32 {
    if refs > 0 { (refs - 1) as u32 } else { 0 }
}

/// An entry may be evicted once nothing refers to it and more than `timeout`
/// whole seconds have passed since it was last seen.
pub open spec fn expired<V: LifetimeItem>(item: V, now: Timeval, timeout: i64) -> bool {
    item.refs() == 0 && now.sec - item.last_seen().sec > timeout
}

/// The keys of the entries of `items` that may be evicted at `now`.
pub open spec fn expired_in<K, V: LifetimeItem>(items: Map<K, V>, now: Timeval, timeout: i64) -> Set<
    K,
> {
    Set::new(|k: K| items.contains_key(k) && expired(items[k], now, timeout))
}

/// The idle threshold is exclusive: an entry that has been idle for exactly
/// the timeout stays, and so does every entry that something refers to; an
/// entry that nothing refers to goes as soon as it has been idle for longer.
pub proof fn lemma_idle_boundary<V: LifetimeItem>(item: V, now: Timeval, timeout: i64)
    ensures
        now.sec - item.last_seen().sec == timeout ==> !expired(item, now, timeout),
        item.refs() > 0 ==> !expired(item, now, timeout),
        item.refs() == 0 && now.sec - item.last_seen().sec > timeout ==> expired(
            item,
            now,
            timeout,
        ),
{
}

/// What a purge at `now` does to each entry: it goes exactly if it is due,
/// and an entry that stays is not changed.
pub proof fn lemma_purge_entry<K, V: LifetimeItem>(items: Map<K, V>, now: Timeval, timeout: i64, k: K)
    requires
        items.contains_key(k),
    ensures
        items.remove_keys(expired_in(items, now, timeout)).contains_key(k) <==> !expired(
            items[k],
            now,
            timeout,
        ),
        !expired(items[k], now, timeout) ==> items.remove_keys(expired_in(items, now, timeout))[k]
            == items[k],
{
}

/// `evicted` lists the entries that `before` holds under `keys`: each of them
/// once, with the item that was stored under its key.
pub open spec fn lists_entries<K, V>(evicted: Seq<(K, V)>, before: Map<K, V>, keys: Set<K>) -> bool {
    &&& forall|i: int, j: int| 0 <= i < j < evicted.len() ==> evicted[i].0 != evicted[j].0
    &&& forall|i: int|
        0 <= i < evicted.len() ==> keys.contains(#[trigger] evicted[i].0) && evicted[i].1
            == before[evicted[i].0]
    &&& forall|k: K| keys.contains(k) ==> has_key(evicted, k)
}

/// One of the listed entries has the key `k`.
pub open spec fn has_key<K, V>(evicted: Seq<(K, V)>, k: K) -> bool {
    exists|i: int| 0 <= i < evicted.len() && #[trigger] evicted[i].0 == k
}

pub struct GenericHash<K, V> {
    items: HashMap<K, ManagedPtr<V>>,
    idle_timeout: i64,
}

impl<K, V> GenericHash<K, V> {
    /// The entries of the table.
    pub closed spec fn view(&self) -> Map<K, V> {
        Map::new(|k: K| self.items@.contains_key(k), |k: K| self.items@[k]@)
    }

    /// The idle timeout, in seconds, that the table was made with.
    pub closed spec fn idle_timeout(&self) -> i64 {
        self.idle_timeout
    }

    /// The keys of the table behave as keys of a hash table should.
    pub closed spec fn wf(&self) -> bool {
        obeys_key_model::<K>()
    }

    /// A table has finitely many entries.
    pub proof fn lemma_finite(&self)
        ensures
            self@.dom().finite(),
    {
        assert(self@.dom() =~= self.items@.dom());
    }
}

impl<K: Eq + Hash + Copy, V: LifetimeItem> GenericHash<K, V> {
    /// The keys whose entries are due for eviction at `now`.
    pub open spec fn expired_keys(&self, now: Timeval) -> Set<K> {
        expired_in(self@, now, self.idle_timeout())
    }

    pub fn new(idle_timeout: i64) -> (table: GenericHash<K, V>)
        requires
            obeys_key_model::<K>(),
        ensures
            table.wf(),
            table@ == Map::<K, V>::empty(),
            table.idle_timeout() == idle_timeout,
    {
        let table = GenericHash { items: HashMap::new(), idle_timeout: idle_timeout };
        assert(table@ =~= Map::<K, V>::empty());
        table
    }

    /// The entry under `k`; where there is none yet, the item that
    /// `item_builder` makes is stored under `k` first. What is written through
    /// the returned reference is what the table holds under `k` afterwards.
    pub fn or_insert<F: FnOnce() -> V>(&mut self, k: K, item_builder: F) -> (item: &mut V)
        requires
            old(self).wf(),
            call_requires(item_builder, ()),
        ensures
            old(self)@.contains_key(k) ==> *item == old(self)@[k],
            !old(self)@.contains_key(k) ==> call_ensures(item_builder, (), *item),
            final(self)@ == old(self)@.insert(k, *final(item)),
            final(self).wf(),
            final(self).idle_timeout() == old(self).idle_timeout(),
    {
        let slot = match self.items.entry(k) {
            Entry::Occupied(o) => o.into_mut(),
            Entry::Vacant(v) => v.insert(ManagedPtr::new(Box::new(item_builder()))),
        };
        slot.get_mut()
    }

    /// Read access to the entry under `k`.
    pub fn get(&self, k: &K) -> (item: Option<&V>)
        requires
            self.wf(),
        ensures
            match item {
                Some(v) => self@.contains_key(*k) && *v == self@[*k],
                None => !self@.contains_key(*k),
            },
    {
        match self.items.get(k) {
            Some(slot) => Some(slot.get()),
            None => None,
        }
    }

    /// Write access to the entry under `k`.
    pub fn get_mut(&mut self, k: &K) -> (item: Option<&mut V>)
        requires
            old(self).wf(),
        ensures
            match item {
                Some(v) => old(self)@.contains_key(*k) && *v == old(self)@[*k] && final(self)@
                    == old(self)@.insert(*k, *final(v)),
                None => !old(self)@.contains_key(*k) && final(self)@ == old(self)@,
            },
            final(self).wf(),
            final(self).idle_timeout() == old(self).idle_timeout(),
    {
        match self.items.entry(*k) {
            Entry::Occupied(o) => Some(o.into_mut().get_mut()),
            Entry::Vacant(_) => None,
        }
    }

    /// The keys of all entries, each once, in no particular order.
    pub fn keys(&self) -> (keys: Vec<K>)
        requires
            self.wf(),
        ensures
            keys@.no_duplicates(),
            forall|k: K| keys@.contains(k) <==> self@.contains_key(k),
    {
        let mut keys: Vec<K> = Vec::new();
        for k in it: self.items.keys()
            invariant
                self.wf(),
                keys@.len() == it.index(),
                forall|i: int| 0 <= i < keys@.len() ==> keys@[i] == *it.seq()[i],
        {
            keys.push(*k);
        }
        proof {
            let all = self.items.keys().remaining();
            assert(keys@ =~= all.unref());
            assert forall|i: int, j: int| 0 <= i < j < keys@.len() implies keys@[i] != keys@[j] by {
                assert(all[i] != all[j]);
            }
            assert(all.unref().to_set() == self.items@.dom());
            assert forall|k: K| keys@.contains(k) <==> self@.contains_key(k) by {
                assert(keys@.to_set().contains(k) == self.items@.dom().contains(k));
            }
        }
        keys
    }

    /// Evicts every entry that nothing refers to and that has been idle for
    /// more than the timeout, going by the whole seconds of `now`. All other
    /// entries stay as they are. The evicted entries are handed to the caller.
    pub fn purge_idle(&mut self, now: &Timeval) -> (evicted: Vec<(K, V)>)
        requires
            old(self).wf(),
        ensures
            final(self).wf(),
            final(self).idle_timeout() == old(self).idle_timeout(),
            final(self)@ == old(self)@.remove_keys(old(self).expired_keys(*now)),
            lists_entries(evicted@, old(self)@, old(self).expired_keys(*now)),
    {
        let ghost before = self@;
        let ghost due = self.expired_keys(*now);
        let timeout = self.idle_timeout;
        let keys = self.keys();
        let mut evicted: Vec<(K, V)> = Vec::new();
        let mut i: usize = 0;
        while i < keys.len()
            invariant
                self.wf(),
                self.idle_timeout() == timeout,
                due == Set::new(|k: K| before.contains_key(k) && expired(before[k], *now, timeout)),
                keys@.no_duplicates(),
                forall|k: K| keys@.contains(k) <==> before.contains_key(k),
                0 <= i <= keys.len(),
                forall|k: K|
                    #![trigger self@.contains_key(k)]
                    #![trigger before.contains_key(k)]
                    self@.contains_key(k) <==> before.contains_key(k) && !(keys@.take(
                        i as int,
                    ).contains(k) && due.contains(k)),
                forall|k: K| #[trigger] self@.contains_key(k) ==> self@[k] == before[k],
                forall|m: int, n: int| 0 <= m < n < evicted.len() ==> evicted[m].0 != evicted[n].0,
                forall|n: int|
                    0 <= n < evicted.len() ==> due.contains(#[trigger] evicted[n].0) && keys@.take(
                        i as int,
                    ).contains(evicted[n].0) && evicted[n].1 == before[evicted[n].0],
                forall|k: K|
                    keys@.take(i as int).contains(k) && due.contains(k) ==> has_key(evicted@, k),
            decreases keys.len() - i,
        {
            let k = keys[i];
            let ghost done = keys@.take(i as int);
            let ghost listed = evicted@;
            proof {
                assert(keys@.contains(k));
                assert(!done.contains(k)) by {
                    if done.contains(k) {
                        let j = choose|j: int| 0 <= j < done.len() && done[j] == k;
                        assert(keys@[j] == keys@[i as int]);
                    }
                }
                assert(keys@.take(i + 1) =~= done.push(k));
                assert forall|x: K| done.push(k).contains(x) <==> done.contains(x) || x == k by {
                    if done.contains(x) {
                        let j = choose|j: int| 0 <= j < done.len() && done[j] == x;
                        assert(done.push(k)[j] == x);
                    }
                    if x == k {
                        assert(done.push(k)[done.len() as int] == x);
                    }
                }
            }
            let ghost prev = self@;
            proof {
                assert(before.contains_key(k));
                assert(prev.contains_key(k));
                assert(self.items@.contains_key(k));
            }
            match self.items.entry(k) {
                Entry::Occupied(mut slot) => {
                    let ghost item0 = slot.value()@;
                    let item = slot.get_mut().get_mut();
                    let refs: u32 = *item.get_refs();
                    let last_seen = item.get_last_seen();
                    proof {
                        item0.lemma_with_refs(item0.refs());
                        assert(prev[k] == item0);
                        assert(slot.value()@ == item0);
                        assert(item0 == before[k]);
                    }
                    if refs == 0 && now.seconds_since(last_seen) > timeout as i128 {
                        evicted.push((k, slot.remove().free()));
                        proof {
                            assert(due.contains(k));
                            assert(self@ =~= prev.remove(k));
                            assert forall|x: K| self@.contains_key(x) <==> before.contains_key(x)
                                && !(keys@.take(i + 1).contains(x) && due.contains(x)) by {
                                assert(prev.contains_key(x) <==> before.contains_key(x) && !(
                                done.contains(x) && due.contains(x)));
                            }
                            assert(evicted@[listed.len() as int].0 == k);
                            assert forall|x: K|
                                keys@.take(i + 1).contains(x) && due.contains(x) implies has_key(
                                evicted@,
                                x,
                            ) by {
                                if x != k {
                                    let n = choose|n: int|
                                        0 <= n < listed.len() && #[trigger] listed[n].0 == x;
                                    assert(evicted@[n].0 == x);
                                }
                            }
                        }
                    } else {
                        proof {
                            assert(!due.contains(k));
                            assert(self@ =~= prev);
                            assert forall|x: K| self@.contains_key(x) <==> before.contains_key(x)
                                && !(keys@.take(i + 1).contains(x) && due.contains(x)) by {
                                assert(prev.contains_key(x) <==> before.contains_key(x) && !(
                                done.contains(x) && due.contains(x)));
                            }
                        }
                    }
                },
                Entry::Vacant(_) => {
                    proof {
                        assert(false);
                    }
                },
            }
            i = i + 1;
        }
        proof {
            assert(keys@.take(keys.len() as int) =~= keys@);
            assert forall|x: K| self@.contains_key(x) <==> before.remove_keys(due).contains_key(
                x,
            ) by {
                assert(self@.contains_key(x) <==> before.contains_key(x) && !(keys@.contains(x)
                    && due.contains(x)));
            }
            assert(self@ =~= before.remove_keys(due));
        }
        evicted
    }

    /// How many entries the table holds.
    pub fn len(&self) -> (n: usize)
        requires
            self.wf(),
        ensures
            n == self@.len(),
    {
        assert(self@.dom() =~= self.items@.dom());
        self.items.len()
    }
}

} // verus!
