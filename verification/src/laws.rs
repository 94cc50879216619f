//! Laws of the store: how the operations compose, stated over the
//! store's abstract model and proved once for all keys, values and
//! instants.

use vstd::prelude::*;
use crate::spec_is_expired;
use crate::store::spec_del_post;
use crate::store::spec_del_result;
use crate::store::spec_expire_post;
use crate::store::spec_expire_result;
use crate::store::spec_expired_keys;
use crate::store::spec_expiry_ms;
use crate::store::spec_get_result;
use crate::store::spec_read_post;
use crate::store::spec_set_post;
use crate::store::spec_ttl_result;

verus! {

/// After `set(k, v, none)`, `get(k)` returns `v` and `ttl(k)` returns
/// -1, at any later instant: an entry without expiry never lapses.
pub proof fn lemma_set_no_ttl_then_get(
    m: Map<Seq<u8>, (Seq<u8>, Option<u64>)>,
    k: Seq<u8>,
    v: Seq<u8>,
    now1: u64,
    now2: u64,
)
    ensures
        spec_get_result(spec_set_post(m, k, v, None, now1), k, now2) == Some(v),
        spec_ttl_result(spec_set_post(m, k, v, None, now1), k, now2) == -1,
        spec_read_post(spec_set_post(m, k, v, None, now1), k, now2) == spec_set_post(
            m,
            k,
            v,
            None,
            now1,
        ),
{
}

/// Immediately after `set(k, v, t)` with a positive time-to-live, the
/// remaining ttl is between 0 and t.
pub proof fn lemma_set_with_ttl(
    m: Map<Seq<u8>, (Seq<u8>, Option<u64>)>,
    k: Seq<u8>,
    v: Seq<u8>,
    t: u64,
    now: u64,
)
    requires
        1 <= t,
        now < u64::MAX,
    ensures
        0 <= spec_ttl_result(spec_set_post(m, k, v, Some(t), now), k, now) <= t,
{
    let m2 = spec_set_post(m, k, v, Some(t), now);
    let e = spec_expiry_ms(now, t);
    assert(m2[k].1 == Some(e));
    assert(t * 1000 >= 1000) by (nonlinear_arith)
        requires
            t >= 1,
    ;
    assert(e > now);
    let remaining = (e - now) as int;
    if now + t * 1000 <= u64::MAX {
        assert(remaining == t * 1000);
        assert((t * 1000) as int / 1000 == t) by (nonlinear_arith)
            requires
                1 <= t <= u64::MAX,
        ;
    } else {
        assert(remaining < t * 1000);
        assert(remaining / 1000 <= t) by (nonlinear_arith)
            requires
                0 <= remaining < t * 1000,
        ;
    }
}

/// Once more than t seconds have passed since `set(k, v, t)`, the key
/// has lapsed: `get(k)` is absent and `ttl(k)` is -2.
pub proof fn lemma_set_with_ttl_lapses(
    m: Map<Seq<u8>, (Seq<u8>, Option<u64>)>,
    k: Seq<u8>,
    v: Seq<u8>,
    t: u64,
    now: u64,
    later: u64,
)
    requires
        now + t * 1000 <= u64::MAX,
        later >= now + t * 1000,
    ensures
        spec_get_result(spec_set_post(m, k, v, Some(t), now), k, later) is None,
        spec_ttl_result(spec_set_post(m, k, v, Some(t), now), k, later) == -2,
{
    let m2 = spec_set_post(m, k, v, Some(t), now);
    assert(spec_is_expired(m2[k].1, later));
}

/// `del(k)` on an absent key reports nothing removed; on a present key
/// it reports a removal, and afterwards `get(k)` is absent and a second
/// `del(k)` reports nothing removed, at any instant.
pub proof fn lemma_del(m: Map<Seq<u8>, (Seq<u8>, Option<u64>)>, k: Seq<u8>, now: u64)
    ensures
        spec_del_result(m, k) == m.contains_key(k),
        spec_get_result(spec_del_post(m, k), k, now) is None,
        !spec_del_result(spec_del_post(m, k), k),
{
}

/// `expire(k, t)` on an absent key reports failure and creates nothing;
/// on a present key it reports success and overwrites the expiry with
/// t seconds from now, keeping the value.
pub proof fn lemma_expire(
    m: Map<Seq<u8>, (Seq<u8>, Option<u64>)>,
    k: Seq<u8>,
    t: u64,
    now: u64,
)
    ensures
        spec_expire_result(m, k) == m.contains_key(k),
        !m.contains_key(k) ==> spec_expire_post(m, k, t, now) == m,
        m.contains_key(k) ==> {
            let m2 = spec_expire_post(m, k, t, now);
            &&& m2.contains_key(k)
            &&& m2[k].0 == m[k].0
            &&& m2[k].1 == Some(spec_expiry_ms(now, t))
        },
{
}

/// The sweep never touches a key without expiry: such an entry is
/// still there afterwards, unchanged.
pub proof fn lemma_sweep_spares_unexpiring(
    m: Map<Seq<u8>, (Seq<u8>, Option<u64>)>,
    k: Seq<u8>,
    now: u64,
)
    requires
        m.contains_key(k),
        m[k].1 is None,
    ensures
        m.remove_keys(spec_expired_keys(m, now)).contains_key(k),
        m.remove_keys(spec_expired_keys(m, now))[k] == m[k],
{
    assert(!spec_expired_keys(m, now).contains(k));
}

/// The sweep removes exactly the keys expired at its observation
/// instant: an expired key is gone, any other key keeps its entry.
pub proof fn lemma_sweep_exact(m: Map<Seq<u8>, (Seq<u8>, Option<u64>)>, k: Seq<u8>, now: u64)
    ensures
        m.contains_key(k) && spec_is_expired(m[k].1, now) ==> !m.remove_keys(
            spec_expired_keys(m, now),
        ).contains_key(k),
        m.contains_key(k) && !spec_is_expired(m[k].1, now) ==> m.remove_keys(
            spec_expired_keys(m, now),
        ).contains_key(k) && m.remove_keys(spec_expired_keys(m, now))[k] == m[k],
{
}

/// Writes to distinct keys are independent: a `set` on one key leaves
/// every other key's entry exactly as it was.
pub proof fn lemma_set_independent_keys(
    m: Map<Seq<u8>, (Seq<u8>, Option<u64>)>,
    k1: Seq<u8>,
    k2: Seq<u8>,
    v: Seq<u8>,
    ex_seconds: Option<u64>,
    now: u64,
)
    requires
        k1 != k2,
    ensures
        spec_set_post(m, k1, v, ex_seconds, now).contains_key(k2) == m.contains_key(k2),
        m.contains_key(k2) ==> spec_set_post(m, k1, v, ex_seconds, now)[k2] == m[k2],
        spec_set_post(m, k1, v, ex_seconds, now).contains_key(k1),
        spec_get_result(spec_set_post(m, k1, v, ex_seconds, now), k2, now) == spec_get_result(
            m,
            k2,
            now,
        ),
{
}

} // verus!
