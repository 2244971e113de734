use crate::models::{EsiKillmail, EsiKillmailView};
use std::collections::HashMap;
use vstd::prelude::*;

verus! {

broadcast use vstd::std_specs::hash::group_hash_axioms;

/// `wider` holds every key of `narrower` with the value it has there.
pub open spec fn extends<V>(wider: Map<i32, V>, narrower: Map<i32, V>) -> bool {
    forall|k: i32| #[trigger]
        narrower.contains_key(k) ==> wider.contains_key(k) && wider[k] == narrower[k]
}

/// Write-once insertion: a key that is present keeps its value.
pub open spec fn put_once<V>(m: Map<i32, V>, key: i32, value: V) -> Map<i32, V> {
    if m.contains_key(key) {
        m
    } else {
        m.insert(key, value)
    }
}

/// Detail records by event identifier. Entries are written once and never
/// leave.
pub struct DetailCache {
    entries: HashMap<i32, EsiKillmail>,
}

impl View for DetailCache {
    type V = Map<i32, EsiKillmailView>;

    closed spec fn view(&self) -> Map<i32, EsiKillmailView> {
        Map::new(|k: i32| self.entries@.contains_key(k), |k: i32| self.entries@[k]@)
    }
}

impl DetailCache {
    pub fn new() -> (r: DetailCache)
        ensures
            r@ == Map::<i32, EsiKillmailView>::empty(),
    {
        let r = DetailCache { entries: HashMap::new() };
        assert(r@ =~= Map::<i32, EsiKillmailView>::empty());
        r
    }

    pub fn contains(&self, id: i32) -> (r: bool)
        ensures
            r == self@.contains_key(id),
    {
        self.entries.contains_key(&id)
    }

    pub fn get(&self, id: i32) -> (r: Option<&EsiKillmail>)
        ensures
            match r {
                Some(detail) => self@.contains_key(id) && detail@ == self@[id],
                None => !self@.contains_key(id),
            },
    {
        self.entries.get(&id)
    }

    /// Stores `detail` under `id` unless `id` already has a record, and says
    /// whether it stored.
    pub fn put(&mut self, id: i32, detail: EsiKillmail) -> (stored: bool)
        ensures
            final(self)@ == put_once(old(self)@, id, detail@),
            extends(final(self)@, old(self)@),
            stored == !old(self)@.contains_key(id),
    {
        if self.entries.contains_key(&id) {
            false
        } else {
            self.entries.insert(id, detail);
            assert(self@ =~= put_once(old(self)@, id, detail@));
            true
        }
    }
}

/// Display names by entity identifier. Entries are written once and never
/// leave.
pub struct NameCache {
    entries: HashMap<i32, String>,
}

impl View for NameCache {
    type V = Map<i32, Seq<char>>;

    closed spec fn view(&self) -> Map<i32, Seq<char>> {
        Map::new(|k: i32| self.entries@.contains_key(k), |k: i32| self.entries@[k]@)
    }
}

impl NameCache {
    pub fn new() -> (r: NameCache)
        ensures
            r@ == Map::<i32, Seq<char>>::empty(),
    {
        let r = NameCache { entries: HashMap::new() };
        assert(r@ =~= Map::<i32, Seq<char>>::empty());
        r
    }

    pub fn contains(&self, id: i32) -> (r: bool)
        ensures
            r == self@.contains_key(id),
    {
        self.entries.contains_key(&id)
    }

    pub fn get(&self, id: i32) -> (r: Option<&String>)
        ensures
            match r {
                Some(name) => self@.contains_key(id) && name@ == self@[id],
                None => !self@.contains_key(id),
            },
    {
        self.entries.get(&id)
    }

    /// Stores `name` under `id` unless `id` already has a name, and says
    /// whether it stored.
    pub fn put(&mut self, id: i32, name: String) -> (stored: bool)
        ensures
            final(self)@ == put_once(old(self)@, id, name@),
            extends(final(self)@, old(self)@),
            stored == !old(self)@.contains_key(id),
    {
        if self.entries.contains_key(&id) {
            false
        } else {
            self.entries.insert(id, name);
            assert(self@ =~= put_once(old(self)@, id, name@));
            true
        }
    }
}

/// A write-once insertion keeps every entry that was there.
pub proof fn lemma_put_once_extends<V>(m: Map<i32, V>, key: i32, value: V)
    ensures
        extends(put_once(m, key, value), m),
        put_once(m, key, value).contains_key(key),
        put_once(put_once(m, key, value), key, value) == put_once(m, key, value),
{
}

/// Growing is transitive.
pub proof fn lemma_extends_transitive<V>(a: Map<i32, V>, b: Map<i32, V>, c: Map<i32, V>)
    requires
        extends(a, b),
        extends(b, c),
    ensures
        extends(a, c),
{
}

} // verus!
