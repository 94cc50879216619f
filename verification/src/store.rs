//! The expiring key-value store.
//!
//! Entries live in a concurrent hash map from the `dashmap` crate; the map
//! is reached only through a small set of trusted wrappers whose contracts
//! describe the contents as a `Map<Seq<u8>, (Seq<u8>, Option<u64>)>`:
//! key bytes to (value bytes, optional absolute expiry in milliseconds).

use vstd::prelude::*;
use crate::is_expired;
use crate::spec_is_expired;

verus! {

#[verifier::external_type_specification]
#[verifier::external_body]
#[verifier::reject_recursive_types(K)]
#[verifier::reject_recursive_types(V)]
#[verifier::reject_recursive_types(S)]
pub struct ExDashMap<K, V, S>(dashmap::DashMap<K, V, S>);

/// The contents of the underlying concurrent map, as a mathematical map
/// from key bytes to (value bytes, optional expiry instant in ms).
pub uninterp spec fn kv_contents(
    m: dashmap::DashMap<Vec<u8>, (Vec<u8>, Option<u64>)>,
) -> Map<Seq<u8>, (Seq<u8>, Option<u64>)>;

/// Relies on dashmap::DashMap::new: a freshly created map is empty.
#[verifier::external_body]
fn kv_new() -> (m: dashmap::DashMap<Vec<u8>, (Vec<u8>, Option<u64>)>)
    ensures
        kv_contents(m) =~= Map::empty(),
{
    dashmap::DashMap::new()
}

/// Relies on dashmap::DashMap::insert: maps the key to the new value,
/// replacing any previous entry for that key.
#[verifier::external_body]
fn kv_insert(
    m: &mut dashmap::DashMap<Vec<u8>, (Vec<u8>, Option<u64>)>,
    k: Vec<u8>,
    v: Vec<u8>,
    expires_at: Option<u64>,
)
    ensures
        kv_contents(*final(m)) == kv_contents(*old(m)).insert(k@, (v@, expires_at)),
{
    m.insert(k, (v, expires_at));
}

/// Relies on dashmap::DashMap::get: returns the entry stored under the key,
/// if any. The entry is cloned out of the map's guard.
#[verifier::external_body]
fn kv_get(
    m: &dashmap::DashMap<Vec<u8>, (Vec<u8>, Option<u64>)>,
    k: &[u8],
) -> (r: Option<(Vec<u8>, Option<u64>)>)
    ensures
        match r {
            Some(e) => kv_contents(*m).contains_key(k@) && kv_contents(*m)[k@] == (e.0@, e.1),
            None => !kv_contents(*m).contains_key(k@),
        },
{
    m.get(k).map(|e| e.value().clone())
}

/// Relies on dashmap::DashMap::remove: removes the entry stored under the
/// key and reports whether one was there.
#[verifier::external_body]
fn kv_remove(m: &mut dashmap::DashMap<Vec<u8>, (Vec<u8>, Option<u64>)>, k: &[u8]) -> (r: bool)
    ensures
        kv_contents(*final(m)) == kv_contents(*old(m)).remove(k@),
        r == kv_contents(*old(m)).contains_key(k@),
{
    m.remove(k).is_some()
}

/// Relies on dashmap::DashMap::iter: visits every entry exactly once
/// (the map holds each key once; with the map borrowed here, no
/// concurrent mutation changes the set of entries mid-walk).
/// The order of the pairs is unspecified.
#[verifier::external_body]
fn kv_entries(
    m: &dashmap::DashMap<Vec<u8>, (Vec<u8>, Option<u64>)>,
) -> (r: Vec<(Vec<u8>, (Vec<u8>, Option<u64>))>)
    ensures
        forall|i: int, j: int| 0 <= i < j < r@.len() ==> r@[i].0@ != r@[j].0@,
        forall|i: int|
            0 <= i < r@.len() ==> kv_contents(*m).contains_key(#[trigger] r@[i].0@)
                && kv_contents(*m)[r@[i].0@] == (r@[i].1.0@, r@[i].1.1),
        forall|k: Seq<u8>|
            kv_contents(*m).contains_key(k) ==> exists|i: int|
                0 <= i < r@.len() && #[trigger] r@[i].0@ == k,
{
    m.iter().map(|e| (e.key().clone(), e.value().clone())).collect()
}

/// The absolute expiry instant, in milliseconds, for an entry stored at
/// `now_ms` with a time-to-live of `ex_seconds` seconds. Saturates at the
/// top of the clock's range instead of wrapping.
pub open spec fn spec_expiry_ms(now_ms: u64, ex_seconds: u64) -> u64 {
    if now_ms + ex_seconds * 1000 <= u64::MAX {
        (now_ms + ex_seconds * 1000) as u64
    } else {
        u64::MAX
    }
}

/// The expiry field an entry gets when stored at `now_ms` with the given
/// optional time-to-live.
pub open spec fn spec_expiry_opt(now_ms: u64, ex_seconds: Option<u64>) -> Option<u64> {
    match ex_seconds {
        Some(s) => Some(spec_expiry_ms(now_ms, s)),
        None => None,
    }
}

fn expiry_ms(now_ms: u64, ex_seconds: u64) -> (t: u64)
    ensures
        t == spec_expiry_ms(now_ms, ex_seconds),
{
    let ttl_ms: u64 = if ex_seconds <= u64::MAX / 1000 {
        ex_seconds * 1000
    } else {
        u64::MAX
    };
    now_ms.saturating_add(ttl_ms)
}


/// The value `get` yields: the stored value when the key is present
/// and not expired, absent otherwise.
pub open spec fn spec_get_result(
    m: Map<Seq<u8>, (Seq<u8>, Option<u64>)>,
    k: Seq<u8>,
    now_ms: u64,
) -> Option<Seq<u8>> {
    if m.contains_key(k) && !spec_is_expired(m[k].1, now_ms) {
        Some(m[k].0)
    } else {
        None
    }
}

/// The store after a read (`get` or `ttl`): unchanged, except that an
/// entry found expired is removed.
pub open spec fn spec_read_post(
    m: Map<Seq<u8>, (Seq<u8>, Option<u64>)>,
    k: Seq<u8>,
    now_ms: u64,
) -> Map<Seq<u8>, (Seq<u8>, Option<u64>)> {
    if m.contains_key(k) && spec_is_expired(m[k].1, now_ms) {
        m.remove(k)
    } else {
        m
    }
}

/// The store after `set`.
pub open spec fn spec_set_post(
    m: Map<Seq<u8>, (Seq<u8>, Option<u64>)>,
    k: Seq<u8>,
    v: Seq<u8>,
    ex_seconds: Option<u64>,
    now_ms: u64,
) -> Map<Seq<u8>, (Seq<u8>, Option<u64>)> {
    m.insert(k, (v, spec_expiry_opt(now_ms, ex_seconds)))
}

/// Whether `del` removes something: the key was present, expired or not.
pub open spec fn spec_del_result(m: Map<Seq<u8>, (Seq<u8>, Option<u64>)>, k: Seq<u8>) -> bool {
    m.contains_key(k)
}

/// The store after `del`.
pub open spec fn spec_del_post(
    m: Map<Seq<u8>, (Seq<u8>, Option<u64>)>,
    k: Seq<u8>,
) -> Map<Seq<u8>, (Seq<u8>, Option<u64>)> {
    m.remove(k)
}

/// Whether `expire` finds its key: present, expired or not.
pub open spec fn spec_expire_result(m: Map<Seq<u8>, (Seq<u8>, Option<u64>)>, k: Seq<u8>) -> bool {
    m.contains_key(k)
}

/// The store after `expire`: the key's expiry overwritten when present,
/// nothing created when absent.
pub open spec fn spec_expire_post(
    m: Map<Seq<u8>, (Seq<u8>, Option<u64>)>,
    k: Seq<u8>,
    ex_seconds: u64,
    now_ms: u64,
) -> Map<Seq<u8>, (Seq<u8>, Option<u64>)> {
    if m.contains_key(k) {
        m.insert(k, (m[k].0, Some(spec_expiry_ms(now_ms, ex_seconds))))
    } else {
        m
    }
}

/// The value `ttl` yields: -2 when absent or expired, -1 when present
/// without expiry, else the whole seconds remaining, rounded down.
pub open spec fn spec_ttl_result(
    m: Map<Seq<u8>, (Seq<u8>, Option<u64>)>,
    k: Seq<u8>,
    now_ms: u64,
) -> int {
    if !m.contains_key(k) || spec_is_expired(m[k].1, now_ms) {
        -2
    } else {
        match m[k].1 {
            None => -1,
            Some(t) => ((t - now_ms) as int) / 1000,
        }
    }
}

/// A mapping from keys to values with optional per-key expiry.
///
/// The abstract state, `self@`, is a map from key bytes to
/// (value bytes, optional absolute expiry in milliseconds). An entry whose
/// expiry is at or before the current instant is logically absent: reads
/// treat it as missing and remove it as a side effect.
pub struct Store {
    map: dashmap::DashMap<Vec<u8>, (Vec<u8>, Option<u64>)>,
}

impl View for Store {
    type V = Map<Seq<u8>, (Seq<u8>, Option<u64>)>;

    closed spec fn view(&self) -> Map<Seq<u8>, (Seq<u8>, Option<u64>)> {
        kv_contents(self.map)
    }
}

impl Store {
    /// The store's key set is always finite (it grows one insertion at a time).
    pub open spec fn wf(self) -> bool {
        self@.dom().finite()
    }

    pub fn new() -> (s: Store)
        ensures
            s@ == Map::<Seq<u8>, (Seq<u8>, Option<u64>)>::empty(),
            s.wf(),
    {
        let s = Store { map: kv_new() };
        s
    }

    /// Unconditionally inserts or overwrites the entry for `key`. With a
    /// time-to-live the entry expires `ex_seconds` seconds from `now_ms`;
    /// without one it never expires.
    pub fn set(&mut self, key: Vec<u8>, value: Vec<u8>, ex_seconds: Option<u64>, now_ms: u64)
        requires
            old(self).wf(),
        ensures
            final(self)@ == spec_set_post(old(self)@, key@, value@, ex_seconds, now_ms),
            final(self).wf(),
    {
        let expires_at = match ex_seconds {
            Some(s) => Some(expiry_ms(now_ms, s)),
            None => None,
        };
        kv_insert(&mut self.map, key, value, expires_at);
    }

    /// Returns the value stored under `key` if it is present and not
    /// expired. An entry found expired is removed as a side effect and
    /// reported as absent, so stale data is never returned.
    pub fn get(&mut self, key: &[u8], now_ms: u64) -> (r: Option<Vec<u8>>)
        requires
            old(self).wf(),
        ensures
            final(self).wf(),
            final(self)@ == spec_read_post(old(self)@, key@, now_ms),
            match r {
                Some(v) => spec_get_result(old(self)@, key@, now_ms) == Some(v@),
                None => spec_get_result(old(self)@, key@, now_ms) is None,
            },
    {
        match kv_get(&self.map, key) {
            None => None,
            Some(e) => {
                if is_expired(e.1, now_ms) {
                    kv_remove(&mut self.map, key);
                    None
                } else {
                    Some(e.0)
                }
            },
        }
    }

    /// Removes the entry for `key` if there is one (expired or not) and
    /// reports whether something was removed.
    pub fn del(&mut self, key: &[u8]) -> (removed: bool)
        requires
            old(self).wf(),
        ensures
            final(self).wf(),
            removed == spec_del_result(old(self)@, key@),
            final(self)@ == spec_del_post(old(self)@, key@),
    {
        kv_remove(&mut self.map, key)
    }

    /// If `key` is present (expired or not), sets its expiry to
    /// `ex_seconds` seconds from `now_ms`, overwriting any prior expiry,
    /// and returns true; otherwise returns false and creates nothing.
    pub fn expire(&mut self, key: &[u8], ex_seconds: u64, now_ms: u64) -> (existed: bool)
        requires
            old(self).wf(),
        ensures
            final(self).wf(),
            existed == spec_expire_result(old(self)@, key@),
            final(self)@ == spec_expire_post(old(self)@, key@, ex_seconds, now_ms),
    {
        match kv_get(&self.map, key) {
            None => false,
            Some(e) => {
                let t = expiry_ms(now_ms, ex_seconds);
                let k: Vec<u8> = vstd::slice::slice_to_vec(key);
                kv_insert(&mut self.map, k, e.0, Some(t));
                true
            },
        }
    }

    /// The remaining time-to-live of `key` at `now_ms`:
    /// -2 if absent (an entry found expired is removed as a side effect),
    /// -1 if present with no expiry, and otherwise the whole seconds
    /// remaining, rounded down.
    pub fn ttl(&mut self, key: &[u8], now_ms: u64) -> (r: i64)
        requires
            old(self).wf(),
        ensures
            final(self).wf(),
            final(self)@ == spec_read_post(old(self)@, key@, now_ms),
            r as int == spec_ttl_result(old(self)@, key@, now_ms),
    {
        match kv_get(&self.map, key) {
            None => -2,
            Some(e) => {
                if is_expired(e.1, now_ms) {
                    kv_remove(&mut self.map, key);
                    -2
                } else {
                    match e.1 {
                        None => -1,
                        Some(t) => {
                            let remaining_ms: u64 = t - now_ms;
                            proof {
                                assert((remaining_ms / 1000) as int <= u64::MAX as int / 1000);
                            }
                            (remaining_ms / 1000) as i64
                        },
                    }
                }
            },
        }
    }

    /// Removes every entry whose expiry is at or before `now_ms` and
    /// returns how many were removed: exactly the number of expired keys.
    /// Entries without an expiry are never touched.
    #[verifier::rlimit(60)]
    pub fn remove_expired_batch(&mut self, now_ms: u64) -> (n: usize)
        requires
            old(self).wf(),
        ensures
            final(self).wf(),
            final(self)@ == old(self)@.remove_keys(spec_expired_keys(old(self)@, now_ms)),
            n == spec_expired_keys(old(self)@, now_ms).len(),
    {
        let ghost m0 = self@;
        let entries = kv_entries(&self.map);
        let mut n: usize = 0;
        let ghost mut removed: Set<Seq<u8>> = Set::empty();
        let mut i: usize = 0;
        proof {
            assert(self@ =~= m0.remove_keys(removed));
        }
        while i < entries.len()
            invariant
                i <= entries@.len(),
                n <= i,
                forall|a: int, b: int|
                    0 <= a < b < entries@.len() ==> entries@[a].0@ != entries@[b].0@,
                forall|q: int|
                    0 <= q < entries@.len() ==> m0.contains_key(#[trigger] entries@[q].0@)
                        && m0[entries@[q].0@] == (entries@[q].1.0@, entries@[q].1.1),
                forall|k: Seq<u8>|
                    m0.contains_key(k) ==> exists|q: int|
                        0 <= q < entries@.len() && #[trigger] entries@[q].0@ == k,
                self@ == m0.remove_keys(removed),
                removed.finite(),
                n == removed.len(),
                forall|k: Seq<u8>|
                    #[trigger] removed.contains(k) ==> exists|q: int|
                        0 <= q < i && #[trigger] entries@[q].0@ == k
                            && spec_is_expired(entries@[q].1.1, now_ms),
                forall|q: int|
                    0 <= q < i && spec_is_expired(#[trigger] entries@[q].1.1, now_ms)
                        ==> removed.contains(entries@[q].0@),
            decreases entries@.len() - i,
        {
            let ghost i0 = i as int;
            if is_expired(entries[i].1.1, now_ms) {
                let ghost k = entries@[i0].0@;
                proof {
                    if removed.contains(k) {
                        let q = choose|q: int|
                            0 <= q < i0 && #[trigger] entries@[q].0@ == k
                                && spec_is_expired(entries@[q].1.1, now_ms);
                        assert(entries@[q].0@ != entries@[i0].0@);
                    }
                    assert(!removed.contains(k));
                }
                kv_remove(&mut self.map, entries[i].0.as_slice());
                n += 1;
                proof {
                    removed = removed.insert(k);
                    assert(self@ =~= m0.remove_keys(removed));
                }
            }
            i += 1;
        }
        proof {
            let ex = spec_expired_keys(m0, now_ms);
            assert forall|k: Seq<u8>| removed.contains(k) implies ex.contains(k) by {
                let q = choose|q: int|
                    0 <= q < entries@.len() && #[trigger] entries@[q].0@ == k
                        && spec_is_expired(entries@[q].1.1, now_ms);
            }
            assert forall|k: Seq<u8>| ex.contains(k) implies removed.contains(k) by {
                let q = choose|q: int|
                    0 <= q < entries@.len() && #[trigger] entries@[q].0@ == k;
                assert(spec_is_expired(entries@[q].1.1, now_ms));
            }
            assert(removed =~= ex);
            assert(self@.dom() =~= m0.dom().difference(ex));
        }
        n
    }
}

/// The set of keys of `m` whose entry is expired at `now_ms`.
pub open spec fn spec_expired_keys(
    m: Map<Seq<u8>, (Seq<u8>, Option<u64>)>,
    now_ms: u64,
) -> Set<Seq<u8>> {
    m.dom().filter(|k: Seq<u8>| spec_is_expired(m[k].1, now_ms))
}

} // verus!
