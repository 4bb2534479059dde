//! The storage backend: a versioned upsert/list store over tenant-scoped
//! record identities. The store's state is modelled as a map from
//! `(tenant, key)` to the stored value, version and timestamps; every
//! operation's contract is stated against that map.

use vstd::prelude::*;
use vstd::pervasive::VecAdditionalExecFns;
use crate::record::KeyValue;
use crate::strutil::{spec_starts_with_ci, opt_str_view};

verus! {

/// Stored state of one record, as specifications see it.
#[verifier::ext_equal]
pub struct RecordModel {
    /// The stored bytes; absent for a nullable tombstone.
    pub value: Option<Seq<u8>>,
    /// Caller-assigned version, last writer wins.
    pub version: i64,
    /// Backend timestamp of the first write for this identity.
    pub created: int,
    /// Backend timestamp of the latest write for this identity.
    pub updated: int,
}

/// The whole store, as specifications see it: one record per
/// `(tenant, key)` identity.
pub type StoreModel = Map<(Seq<char>, Seq<char>), RecordModel>;

/// One persisted record: tenant, key, nullable value, version and the
/// backend-set timestamps.
#[derive(Debug, Clone, PartialEq, Eq)]
pub struct VssItem {
    pub store_id: String,
    pub key: String,
    pub value: Option<Vec<u8>>,
    pub version: i64,
    /// Backend-set timestamp of the first write; zero until the store writes it.
    pub created_date: i64,
    /// Backend-set timestamp of the latest write; zero until the store writes it.
    pub updated_date: i64,
}

/// The tenant-scoped identity of a record.
pub open spec fn ident(it: VssItem) -> (Seq<char>, Seq<char>) {
    (it.store_id@, it.key@)
}

impl View for VssItem {
    type V = RecordModel;

    open spec fn view(&self) -> RecordModel {
        RecordModel {
            value: match self.value {
                Some(v) => Some(v@),
                None => None,
            },
            version: self.version,
            created: self.created_date as int,
            updated: self.updated_date as int,
        }
    }
}

impl VssItem {
    /// Builds a persisted record from a caller-supplied one; timestamps are
    /// backend-owned and start at zero until a write sets them.
    pub fn from_kv(store_id: &str, kv: KeyValue) -> (r: Self)
        ensures
            r.store_id@ == store_id@,
            r.key@ == kv.key@,
            r.value matches Some(v) && v@ == kv.value@,
            r.version == kv.version,
            r@.value == Some(kv.value@),
            r@.version == kv.version,
            r@.created == 0,
            r@.updated == 0,
    {
        VssItem {
            store_id: store_id.to_owned(),
            key: kv.key,
            value: Some(kv.value),
            version: kv.version,
            created_date: 0,
            updated_date: 0,
        }
    }

    /// Hands the record back to a caller; a record without a value yields
    /// nothing.
    pub fn into_kv(self) -> (r: Option<KeyValue>)
        ensures
            match r {
                Some(kv) => {
                    &&& self@.value == Some(kv.value@)
                    &&& kv.key@ == self.key@
                    &&& kv.version == self.version
                },
                None => self@.value is None,
            },
    {
        match self.value {
            Some(value) => Some(KeyValue { key: self.key, value, version: self.version }),
            None => None,
        }
    }
}

/// No two records share an identity.
pub open spec fn unique_idents(s: Seq<VssItem>) -> bool {
    forall|i: int, j: int| 0 <= i < j < s.len() ==> ident(s[i]) != ident(s[j])
}

/// The map a sequence of records denotes.
pub open spec fn map_of(s: Seq<VssItem>) -> StoreModel
    decreases s.len(),
{
    if s.len() == 0 {
        Map::empty()
    } else {
        map_of(s.drop_last()).insert(ident(s.last()), s.last()@)
    }
}

/// A record's identity is in the denoted map exactly when some record of the
/// sequence carries it.
proof fn lemma_map_of_absent(s: Seq<VssItem>, p: (Seq<char>, Seq<char>))
    requires
        forall|i: int| 0 <= i < s.len() ==> ident(#[trigger] s[i]) != p,
    ensures
        !map_of(s).contains_key(p),
    decreases s.len(),
{
    if s.len() > 0 {
        lemma_map_of_absent(s.drop_last(), p);
    }
}

/// Under uniqueness, the denoted map sends each record's identity to that
/// record's stored state.
proof fn lemma_map_of_index(s: Seq<VssItem>, i: int)
    requires
        unique_idents(s),
        0 <= i < s.len(),
    ensures
        map_of(s).contains_key(ident(s[i])),
        map_of(s)[ident(s[i])] == s[i]@,
    decreases s.len(),
{
    if i == s.len() - 1 {
    } else {
        assert(unique_idents(s.drop_last()));
        lemma_map_of_index(s.drop_last(), i);
        assert(ident(s[i]) != ident(s.last()));
    }
}

/// Every identity in the denoted map is some record's identity.
proof fn lemma_map_of_covered(s: Seq<VssItem>, p: (Seq<char>, Seq<char>))
    requires
        map_of(s).contains_key(p),
    ensures
        exists|i: int| 0 <= i < s.len() && ident(#[trigger] s[i]) == p,
    decreases s.len(),
{
    if s.len() > 0 {
        if ident(s.last()) == p {
            assert(ident(s[s.len() - 1]) == p);
        } else {
            lemma_map_of_covered(s.drop_last(), p);
            let i = choose|i: int|
                0 <= i < s.drop_last().len() && ident(#[trigger] s.drop_last()[i]) == p;
            assert(ident(s[i]) == p);
        }
    }
}

/// Appending a fresh record inserts it into the denoted map.
proof fn lemma_map_of_push(s: Seq<VssItem>, it: VssItem)
    ensures
        map_of(s.push(it)) == map_of(s).insert(ident(it), it@),
{
    assert(s.push(it).drop_last() =~= s);
    assert(s.push(it).last() == it);
}

/// Replacing a record in place, identity unchanged, updates its entry in the
/// denoted map.
proof fn lemma_map_of_update(s: Seq<VssItem>, i: int, it: VssItem)
    requires
        unique_idents(s),
        0 <= i < s.len(),
        ident(it) == ident(s[i]),
    ensures
        map_of(s.update(i, it)) == map_of(s).insert(ident(it), it@),
    decreases s.len(),
{
    let t = s.update(i, it);
    if i == s.len() - 1 {
        assert(t.drop_last() =~= s.drop_last());
        assert(t.last() == it);
    } else {
        assert(t.drop_last() =~= s.drop_last().update(i, it));
        assert(t.last() == s.last());
        assert(unique_idents(s.drop_last()));
        assert(s.drop_last()[i] == s[i]);
        lemma_map_of_update(s.drop_last(), i, it);
        assert(ident(it) != ident(s.last()));
        assert(map_of(t) == map_of(s.drop_last()).insert(ident(it), it@).insert(
            ident(s.last()),
            s.last()@,
        ));
        assert(map_of(s.drop_last()).insert(ident(it), it@).insert(ident(s.last()), s.last()@)
            =~= map_of(s.drop_last()).insert(ident(s.last()), s.last()@).insert(ident(it), it@));
    }
}

/// One entry of a batch write, as specifications see it.
#[verifier::ext_equal]
pub struct BatchEntry {
    pub store_id: Seq<char>,
    pub key: Seq<char>,
    pub value: Option<Seq<u8>>,
    pub version: i64,
}

/// The batch entry a persisted record stands for on the multi-tenant write
/// path: an absent value stays absent, a tombstone distinct from a
/// zero-length one.
pub open spec fn entry_of_item(it: VssItem) -> BatchEntry {
    BatchEntry {
        store_id: it.store_id@,
        key: it.key@,
        value: match it.value {
            Some(v) => Some(v@),
            None => None,
        },
        version: it.version,
    }
}

/// The batch entry a caller-supplied record stands for under an ambient
/// tenant.
pub open spec fn entry_of_kv(t: Seq<char>, kv: KeyValue) -> BatchEntry {
    BatchEntry { store_id: t, key: kv.key@, value: Some(kv.value@), version: kv.version }
}

/// A whole batch applied in order: for one key the last entry wins; every
/// entry carries the batch's timestamp.
pub open spec fn spec_put_batch(m: StoreModel, entries: Seq<BatchEntry>, now: int) -> StoreModel
    decreases entries.len(),
{
    if entries.len() == 0 {
        m
    } else {
        let e = entries.last();
        spec_upsert(
            spec_put_batch(m, entries.drop_last(), now),
            e.store_id,
            e.key,
            e.value,
            e.version,
            now,
        )
    }
}

/// The bytes a nullable value stands for.
pub open spec fn opt_bytes_view(v: Option<Vec<u8>>) -> Option<Seq<u8>> {
    match v {
        Some(b) => Some(b@),
        None => None,
    }
}

/// A key passes an optional ASCII-case-insensitive prefix filter.
pub open spec fn spec_prefix_sel(prefix: Option<Seq<char>>, k: Seq<char>) -> bool {
    match prefix {
        None => true,
        Some(p) => spec_starts_with_ci(k, p),
    }
}

/// The index of the record under `(store_id, key)` in a record sequence, if
/// any.
fn find_in(items: &Vec<VssItem>, store_id: &str, key: &str) -> (r: Option<usize>)
    ensures
        match r {
            Some(i) => i < items@.len() && ident(items@[i as int]) == (store_id@, key@),
            None => forall|i: int|
                0 <= i < items@.len() ==> ident(#[trigger] items@[i]) != (store_id@, key@),
        },
{
    let mut i: usize = 0;
    while i < items.len()
        invariant
            i <= items@.len(),
            forall|j: int| 0 <= j < i ==> ident(#[trigger] items@[j]) != (store_id@, key@),
        decreases items@.len() - i,
    {
        let it = &items[i];
        if crate::strutil::str_eq(it.store_id.as_str(), store_id) && crate::strutil::str_eq(
            it.key.as_str(),
            key,
        ) {
            return Some(i);
        }
        i = i + 1;
    }
    None
}

/// Applies one upsert to a record sequence, keeping identities unique and
/// the denoted map in step with `spec_upsert`.
fn upsert_in(
    items: &mut Vec<VssItem>,
    store_id: &str,
    key: &str,
    value: Option<Vec<u8>>,
    version: i64,
    now: i64,
)
    requires
        unique_idents(old(items)@),
    ensures
        unique_idents(final(items)@),
        map_of(final(items)@) == spec_upsert(
            map_of(old(items)@),
            store_id@,
            key@,
            opt_bytes_view(value),
            version,
            now as int,
        ),
{
    let found = find_in(items, store_id, key);
    let created = match found {
        Some(i) => {
            proof {
                lemma_map_of_index(items@, i as int);
            }
            items[i].created_date
        },
        None => {
            proof {
                lemma_map_of_absent(items@, (store_id@, key@));
            }
            now
        },
    };
    let item = VssItem {
        store_id: store_id.to_owned(),
        key: key.to_owned(),
        value,
        version,
        created_date: created,
        updated_date: now,
    };
    match found {
        Some(i) => {
            proof {
                lemma_map_of_update(items@, i as int, item);
                let updated = items@.update(i as int, item);
                assert forall|x: int, y: int| 0 <= x < y < updated.len() implies ident(
                    updated[x],
                ) != ident(updated[y]) by {
                    assert(ident(updated[x]) == ident(items@[x]));
                    assert(ident(updated[y]) == ident(items@[y]));
                }
            }
            items.set(i, item);
        },
        None => {
            proof {
                lemma_map_of_push(items@, item);
                let pushed = items@.push(item);
                assert forall|x: int, y: int| 0 <= x < y < pushed.len() implies ident(pushed[x])
                    != ident(pushed[y]) by {
                    if y < pushed.len() - 1 {
                        assert(ident(pushed[x]) == ident(items@[x]));
                        assert(ident(pushed[y]) == ident(items@[y]));
                    } else {
                        assert(ident(pushed[x]) == ident(items@[x]));
                        assert(ident(pushed[y]) == (store_id@, key@));
                    }
                }
            }
            items.push(item);
        },
    }
}

/// The record under one identity, if any.
pub open spec fn spec_get(m: StoreModel, t: Seq<char>, k: Seq<char>) -> Option<RecordModel> {
    if m.contains_key((t, k)) {
        Some(m[(t, k)])
    } else {
        None
    }
}

/// One versioned upsert: the value and version are replaced, the update
/// timestamp is set, and the creation timestamp is kept from the first write
/// for this identity.
pub open spec fn spec_upsert(
    m: StoreModel,
    t: Seq<char>,
    k: Seq<char>,
    value: Option<Seq<u8>>,
    version: i64,
    now: int,
) -> StoreModel {
    m.insert(
        (t, k),
        RecordModel {
            value,
            version,
            created: if m.contains_key((t, k)) {
                m[(t, k)].created
            } else {
                now
            },
            updated: now,
        },
    )
}

/// The store: records under unique tenant-scoped identities, plus a logical
/// write clock that stands in for the backend's timestamp source.
pub struct MemStore {
    items: Vec<VssItem>,
    clock: i64,
}

impl View for MemStore {
    type V = StoreModel;

    closed spec fn view(&self) -> StoreModel {
        map_of(self.items@)
    }
}

/// The write clock after one more write: it advances by one until it
/// saturates.
pub open spec fn spec_next_tick(t: int) -> int {
    if t < i64::MAX {
        t + 1
    } else {
        t
    }
}

/// The storage capability set: versioned upsert, transactional batch writes,
/// get, list-by-prefix, and the administrative clear. A backend's state is
/// one record per `(tenant, key)` identity, and every write carries the
/// backend's own timestamp, never the caller's.
pub trait VssBackend: Sized {
    /// The backend's state, as specifications see it.
    spec fn model(&self) -> StoreModel;

    /// The logical timestamp the next write will carry.
    spec fn tick(&self) -> int;

    /// Returns the current record under `(store_id, key)`, or nothing; a
    /// missing identity is not an error.
    fn get_item(&self, store_id: &str, key: &str) -> (r: Option<VssItem>)
        ensures
            match r {
                Some(it) => {
                    &&& spec_get(self.model(), store_id@, key@) == Some(it@)
                    &&& it.store_id@ == store_id@
                    &&& it.key@ == key@
                },
                None => spec_get(self.model(), store_id@, key@) is None,
            },
    ;

    /// Replaces the whole record under `(store_id, key)`: last writer wins,
    /// the creation timestamp survives from the first write.
    fn put_item(&mut self, store_id: &str, key: &str, value: &[u8], version: i64)
        ensures
            final(self).model() == spec_upsert(
                old(self).model(),
                store_id@,
                key@,
                Some(value@),
                version,
                old(self).tick(),
            ),
            final(self).tick() == spec_next_tick(old(self).tick()),
    ;

    /// Writes a batch that may span tenants, in order, all in one step: a
    /// record without a value is stored as a tombstone. Every record shares
    /// the batch's timestamp.
    fn put_items(&mut self, items: Vec<VssItem>)
        ensures
            final(self).model() == spec_put_batch(
                old(self).model(),
                items@.map_values(|it: VssItem| entry_of_item(it)),
                old(self).tick(),
            ),
            final(self).tick() == spec_next_tick(old(self).tick()),
    ;

    /// Writes a batch scoped to one tenant, in order, all in one step. Every
    /// record shares the batch's timestamp.
    fn put_items_in_store(&mut self, store_id: &str, items: Vec<KeyValue>)
        ensures
            final(self).model() == spec_put_batch(
                old(self).model(),
                items@.map_values(|kv: KeyValue| entry_of_kv(store_id@, kv)),
                old(self).tick(),
            ),
            final(self).tick() == spec_next_tick(old(self).tick()),
    ;

    /// Returns every key of the tenant, optionally narrowed to those whose
    /// key starts with the prefix up to ASCII case, each with its current
    /// version: exactly that subset, each key once.
    fn list_key_versions(&self, store_id: &str, prefix: Option<&str>) -> (r: Vec<(String, i64)>)
        ensures
            forall|x: int| 0 <= x < r@.len() ==> {
                &&& self.model().contains_key((store_id@, #[trigger] r@[x].0@))
                &&& self.model()[(store_id@, r@[x].0@)].version == r@[x].1
                &&& spec_prefix_sel(opt_str_view(prefix), r@[x].0@)
            },
            forall|p: (Seq<char>, Seq<char>)|
                #[trigger] self.model().contains_key(p) && p.0 == store_id@ && spec_prefix_sel(
                    opt_str_view(prefix),
                    p.1,
                ) ==> exists|x: int| 0 <= x < r@.len() && #[trigger] r@[x].0@ == p.1,
            forall|x: int, y: int| 0 <= x < y < r@.len() ==> r@[x].0@ != r@[y].0@,
    ;

    /// Destructively removes every record; administrative only, never
    /// reachable from an authenticated endpoint.
    fn clear_database(&mut self)
        ensures
            final(self).model() == Map::<(Seq<char>, Seq<char>), RecordModel>::empty(),
            final(self).tick() == old(self).tick(),
    ;
}

impl MemStore {
    #[verifier::type_invariant]
    spec fn wf(self) -> bool {
        unique_idents(self.items@)
    }

    /// An empty store.
    pub fn new() -> (s: Self)
        ensures
            s@ == Map::<(Seq<char>, Seq<char>), RecordModel>::empty(),
            s.tick() == 0,
    {
        let s = MemStore { items: Vec::new(), clock: 0 };
        proof {
            assert(s@ =~= Map::<(Seq<char>, Seq<char>), RecordModel>::empty());
        }
        s
    }

    /// Copy of one persisted record.
    fn clone_item(it: &VssItem) -> (r: VssItem)
        ensures
            r.store_id@ == it.store_id@,
            r.key@ == it.key@,
            r@ == it@,
            r.version == it.version,
    {
        let value = match &it.value {
            Some(v) => Some(crate::record::copy_bytes(v)),
            None => None,
        };
        let r = VssItem {
            store_id: it.store_id.clone(),
            key: it.key.clone(),
            value,
            version: it.version,
            created_date: it.created_date,
            updated_date: it.updated_date,
        };
        proof {
            assert(r@ =~= it@);
        }
        r
    }

}

impl VssBackend for MemStore {
    open spec fn model(&self) -> StoreModel {
        self@
    }

    closed spec fn tick(&self) -> int {
        self.clock as int
    }

    fn clear_database(&mut self) {
        self.items = Vec::new();
        proof {
            assert(self@ =~= Map::<(Seq<char>, Seq<char>), RecordModel>::empty());
        }
    }

    fn put_item(&mut self, store_id: &str, key: &str, value: &[u8], version: i64) {
        proof {
            use_type_invariant(&*self);
        }
        let now = self.clock;
        let mut items: Vec<VssItem> = Vec::new();
        std::mem::swap(&mut items, &mut self.items);
        upsert_in(&mut items, store_id, key, Some(vstd::slice::slice_to_vec(value)), version, now);
        self.items = items;
        if self.clock < i64::MAX {
            self.clock = self.clock + 1;
        }
    }

    fn put_items(&mut self, items: Vec<VssItem>) {
        proof {
            use_type_invariant(&*self);
        }
        let ghost entries = items@.map_values(|it: VssItem| entry_of_item(it));
        let ghost m0 = self@;
        let now = self.clock;
        let mut stored: Vec<VssItem> = Vec::new();
        std::mem::swap(&mut stored, &mut self.items);
        let mut i: usize = 0;
        while i < items.len()
            invariant
                i <= items@.len(),
                entries == items@.map_values(|it: VssItem| entry_of_item(it)),
                unique_idents(stored@),
                map_of(stored@) == spec_put_batch(m0, entries.take(i as int), now as int),
            decreases items@.len() - i,
        {
            let it = &items[i];
            let value = match &it.value {
                Some(v) => Some(crate::record::copy_bytes(v)),
                None => None,
            };
            upsert_in(&mut stored, it.store_id.as_str(), it.key.as_str(), value, it.version, now);
            proof {
                assert(entries.take(i + 1).drop_last() =~= entries.take(i as int));
                assert(entries.take(i + 1).last() == entries[i as int]);
            }
            i = i + 1;
        }
        proof {
            assert(entries.take(items@.len() as int) =~= entries);
        }
        self.items = stored;
        if self.clock < i64::MAX {
            self.clock = self.clock + 1;
        }
    }

    fn put_items_in_store(&mut self, store_id: &str, items: Vec<KeyValue>) {
        proof {
            use_type_invariant(&*self);
        }
        let ghost entries = items@.map_values(|kv: KeyValue| entry_of_kv(store_id@, kv));
        let ghost m0 = self@;
        let now = self.clock;
        let mut stored: Vec<VssItem> = Vec::new();
        std::mem::swap(&mut stored, &mut self.items);
        let mut i: usize = 0;
        while i < items.len()
            invariant
                i <= items@.len(),
                entries == items@.map_values(|kv: KeyValue| entry_of_kv(store_id@, kv)),
                unique_idents(stored@),
                map_of(stored@) == spec_put_batch(m0, entries.take(i as int), now as int),
            decreases items@.len() - i,
        {
            let kv = &items[i];
            let value = Some(crate::record::copy_bytes(&kv.value));
            upsert_in(&mut stored, store_id, kv.key.as_str(), value, kv.version, now);
            proof {
                assert(entries.take(i + 1).drop_last() =~= entries.take(i as int));
                assert(entries.take(i + 1).last() == entries[i as int]);
            }
            i = i + 1;
        }
        proof {
            assert(entries.take(items@.len() as int) =~= entries);
        }
        self.items = stored;
        if self.clock < i64::MAX {
            self.clock = self.clock + 1;
        }
    }

    fn list_key_versions(&self, store_id: &str, prefix: Option<&str>) -> (r: Vec<(String, i64)>) {
        proof {
            use_type_invariant(&*self);
        }
        let mut r: Vec<(String, i64)> = Vec::new();
        let mut i: usize = 0;
        while i < self.items.len()
            invariant
                i <= self.items@.len(),
                unique_idents(self.items@),
                self@ == map_of(self.items@),
                forall|x: int| 0 <= x < r@.len() ==> {
                    &&& self@.contains_key((store_id@, #[trigger] r@[x].0@))
                    &&& self@[(store_id@, r@[x].0@)].version == r@[x].1
                    &&& spec_prefix_sel(opt_str_view(prefix), r@[x].0@)
                },
                forall|x: int| #![trigger r@[x]]
                    0 <= x < r@.len() ==> exists|j: int|
                        0 <= j < i && ident(#[trigger] self.items@[j]) == (store_id@, r@[x].0@),
                forall|j: int|
                    0 <= j < i && ident(#[trigger] self.items@[j]).0 == store_id@
                        && spec_prefix_sel(opt_str_view(prefix), ident(self.items@[j]).1) ==> exists|x: int|
                        0 <= x < r@.len() && #[trigger] r@[x].0@ == ident(self.items@[j]).1,
                forall|x: int, y: int| 0 <= x < y < r@.len() ==> r@[x].0@ != r@[y].0@,
            decreases self.items@.len() - i,
        {
            let it = &self.items[i];
            let tenant_matches = crate::strutil::str_eq(it.store_id.as_str(), store_id);
            let prefix_matches = match prefix {
                None => true,
                Some(p) => crate::strutil::starts_with_ci(it.key.as_str(), p),
            };
            if tenant_matches && prefix_matches {
                proof {
                    lemma_map_of_index(self.items@, i as int);
                    assert forall|x: int| 0 <= x < r@.len() implies r@[x].0@ != it.key@ by {
                        if r@[x].0@ == it.key@ {
                            let j = choose|j: int|
                                0 <= j < i && ident(#[trigger] self.items@[j]) == (
                                    store_id@,
                                    r@[x].0@,
                                );
                            assert(ident(self.items@[j]) == ident(self.items@[i as int]));
                        }
                    }
                }
                let ghost old_r = r@;
                r.push((it.key.clone(), it.version));
                proof {
                    assert(r@[old_r.len() as int].0@ == it.key@);
                    assert forall|j: int|
                        0 <= j <= i && ident(#[trigger] self.items@[j]).0 == store_id@
                            && spec_prefix_sel(opt_str_view(prefix), ident(self.items@[j]).1) implies exists|
                        x: int,
                    |
                        0 <= x < r@.len() && #[trigger] r@[x].0@ == ident(self.items@[j]).1 by {
                        if j < i {
                            let x = choose|x: int|
                                0 <= x < old_r.len() && #[trigger] old_r[x].0@ == ident(
                                    self.items@[j],
                                ).1;
                            assert(r@[x].0@ == ident(self.items@[j]).1);
                        } else {
                            assert(r@[old_r.len() as int].0@ == ident(self.items@[j]).1);
                        }
                    }
                }
            }
            i = i + 1;
        }
        proof {
            assert forall|p: (Seq<char>, Seq<char>)|
                #[trigger] self@.contains_key(p) && p.0 == store_id@ && spec_prefix_sel(
                    opt_str_view(prefix),
                    p.1,
                ) implies exists|x: int| 0 <= x < r@.len() && #[trigger] r@[x].0@ == p.1 by {
                lemma_map_of_covered(self.items@, p);
                let j = choose|j: int|
                    0 <= j < self.items@.len() && ident(#[trigger] self.items@[j]) == p;
                assert(ident(self.items@[j]).0 == store_id@);
            }
        }
        r
    }

    fn get_item(&self, store_id: &str, key: &str) -> (r: Option<VssItem>) {
        proof {
            use_type_invariant(&*self);
        }
        match find_in(&self.items, store_id, key) {
            Some(i) => {
                proof {
                    lemma_map_of_index(self.items@, i as int);
                }
                Some(Self::clone_item(&self.items[i]))
            },
            None => {
                proof {
                    lemma_map_of_absent(self.items@, (store_id@, key@));
                }
                None
            },
        }
    }
}

/// The last entry of a batch that names one identity, if any.
pub open spec fn spec_last_entry_for(
    entries: Seq<BatchEntry>,
    t: Seq<char>,
    k: Seq<char>,
) -> Option<BatchEntry>
    decreases entries.len(),
{
    if entries.len() == 0 {
        None
    } else if entries.last().store_id == t && entries.last().key == k {
        Some(entries.last())
    } else {
        spec_last_entry_for(entries.drop_last(), t, k)
    }
}

/// What one identity holds after a batch: for one key the batch's last entry
/// wins, whatever came before it in the batch; an identity the batch never
/// names keeps its record, so the order of entries for distinct keys is
/// immaterial.
pub proof fn lemma_batch_last_write_wins(
    m: StoreModel,
    entries: Seq<BatchEntry>,
    now: int,
    t: Seq<char>,
    k: Seq<char>,
)
    ensures
        match spec_last_entry_for(entries, t, k) {
            None => spec_get(spec_put_batch(m, entries, now), t, k) == spec_get(m, t, k),
            Some(e) => spec_get(spec_put_batch(m, entries, now), t, k) == Some(
                RecordModel {
                    value: e.value,
                    version: e.version,
                    created: if m.contains_key((t, k)) {
                        m[(t, k)].created
                    } else {
                        now
                    },
                    updated: now,
                },
            ),
        },
    decreases entries.len(),
{
    if entries.len() > 0 {
        lemma_batch_last_write_wins(m, entries.drop_last(), now, t, k);
    }
}

/// A sequence of batches laid end to end, in the order they are applied.
pub open spec fn spec_concat_batches(batches: Seq<Seq<BatchEntry>>) -> Seq<BatchEntry>
    decreases batches.len(),
{
    if batches.len() == 0 {
        Seq::empty()
    } else {
        spec_concat_batches(batches.drop_last()) + batches.last()
    }
}

/// Several batches applied one after another, each with its own timestamp.
pub open spec fn spec_apply_batches(
    m: StoreModel,
    batches: Seq<Seq<BatchEntry>>,
    nows: Seq<int>,
) -> StoreModel
    decreases batches.len(),
{
    if batches.len() == 0 {
        m
    } else {
        spec_put_batch(
            spec_apply_batches(m, batches.drop_last(), nows.drop_last()),
            batches.last(),
            nows.last(),
        )
    }
}

/// The last entry for one identity across a concatenation comes from the
/// second part when it names the identity, else from the first.
proof fn lemma_last_entry_concat(a: Seq<BatchEntry>, b: Seq<BatchEntry>, t: Seq<char>, k: Seq<char>)
    ensures
        spec_last_entry_for(a + b, t, k) == match spec_last_entry_for(b, t, k) {
            Some(e) => Some(e),
            None => spec_last_entry_for(a, t, k),
        },
    decreases b.len(),
{
    if b.len() == 0 {
        assert(a + b =~= a);
    } else {
        assert((a + b).last() == b.last());
        if !(b.last().store_id == t && b.last().key == k) {
            assert((a + b).drop_last() =~= a + b.drop_last());
            lemma_last_entry_concat(a, b.drop_last(), t, k);
        }
    }
}

/// What a whole run persists: applying its batches one after another, in
/// order, leaves each identity with the value and version of the last entry
/// across all batches that names it — repeats of one identity are
/// deduplicated, the last wins — and an identity no batch names keeps its
/// record.
pub proof fn lemma_run_persists_last_entry(
    m: StoreModel,
    batches: Seq<Seq<BatchEntry>>,
    nows: Seq<int>,
    t: Seq<char>,
    k: Seq<char>,
)
    requires
        batches.len() == nows.len(),
    ensures
        match spec_last_entry_for(spec_concat_batches(batches), t, k) {
            Some(e) => spec_get(spec_apply_batches(m, batches, nows), t, k) matches Some(rec)
                && rec.value == e.value && rec.version == e.version,
            None => spec_get(spec_apply_batches(m, batches, nows), t, k) == spec_get(m, t, k),
        },
    decreases batches.len(),
{
    if batches.len() > 0 {
        lemma_run_persists_last_entry(m, batches.drop_last(), nows.drop_last(), t, k);
        let prior = spec_apply_batches(m, batches.drop_last(), nows.drop_last());
        lemma_batch_last_write_wins(prior, batches.last(), nows.last(), t, k);
        lemma_last_entry_concat(spec_concat_batches(batches.drop_last()), batches.last(), t, k);
    }
}

/// Round trip: a put followed by a get on the same identity returns a record
/// with exactly the written value and version.
pub proof fn lemma_put_get_round_trip(
    m: StoreModel,
    t: Seq<char>,
    k: Seq<char>,
    value: Option<Seq<u8>>,
    version: i64,
    now: int,
)
    ensures
        ({
            let r = spec_get(spec_upsert(m, t, k, value, version, now), t, k);
            &&& r is Some
            &&& r->Some_0.value == value
            &&& r->Some_0.version == version
            &&& r->Some_0.updated == now
        }),
{
}

/// Tenant isolation: a write under one tenant is invisible to a get scoped
/// to any other tenant, and leaves every other identity's record unchanged,
/// so a list scoped to another tenant is unchanged as well.
pub proof fn lemma_tenant_isolation(
    m: StoreModel,
    t1: Seq<char>,
    k1: Seq<char>,
    value: Option<Seq<u8>>,
    version: i64,
    now: int,
    t2: Seq<char>,
    k2: Seq<char>,
)
    requires
        t1 != t2,
    ensures
        spec_get(spec_upsert(m, t1, k1, value, version, now), t2, k2) == spec_get(m, t2, k2),
{
}

/// Full-replace upsert: writing the same identity twice leaves exactly one
/// record for it, carrying the second write's value and version and the
/// creation timestamp of the first write.
pub proof fn lemma_second_write_replaces(
    m: StoreModel,
    t: Seq<char>,
    k: Seq<char>,
    v1: Option<Seq<u8>>,
    ver1: i64,
    now1: int,
    v2: Option<Seq<u8>>,
    ver2: i64,
    now2: int,
)
    requires
        !m.contains_key((t, k)),
    ensures
        ({
            let m1 = spec_upsert(m, t, k, v1, ver1, now1);
            let m2 = spec_upsert(m1, t, k, v2, ver2, now2);
            &&& m2.dom() == m1.dom()
            &&& spec_get(m2, t, k) == Some(
                RecordModel { value: v2, version: ver2, created: now1, updated: now2 },
            )
        }),
{
    let m1 = spec_upsert(m, t, k, v1, ver1, now1);
    let m2 = spec_upsert(m1, t, k, v2, ver2, now2);
    assert(m2.dom() =~= m1.dom());
    assert(spec_get(m2, t, k)->Some_0 =~= RecordModel {
        value: v2,
        version: ver2,
        created: now1,
        updated: now2,
    });
}

} // verus!
