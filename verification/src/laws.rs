//! The library's laws: proof functions stating how the composed caches
//! behave over whole sequences of operations. Each law is phrased over the
//! spec-level step functions (`create_step` and friends), which the cache
//! operations' own contracts equate with their outcomes.

use vstd::prelude::*;

use crate::cache::{create_step, delete_step, read_step, update_step};
use crate::co_located_fifo_cache::{FifoModel, lemma_remove_to_set};
use crate::errors::{ErrorKind, ErrorView, no_existing_value_error_view, size_message};
use crate::eviction_policy::{CacheOp, PolicyModel};
use crate::hash_map_key_value_store::{distinct_keys, keys_of, lemma_pairs_map_dom,
    lemma_pairs_map_index, lemma_pairs_map_len, lemma_pairs_map_push, lemma_pairs_map_remove,
    pairs_map};
use crate::max_size_eviction_policy::MaxSizeModel;

verus! {

broadcast use vstd::set::group_set_axioms;

/// The policy bookkeeping and store contents after creating each of
/// `entries` in order, through the hook-dispatch protocol.
pub open spec fn run_creates<M: PolicyModel>(
    p: M,
    m: Map<Seq<u8>, Seq<u8>>,
    entries: Seq<(Seq<u8>, Seq<u8>)>,
) -> (M, Map<Seq<u8>, Seq<u8>>)
    decreases entries.len(),
{
    if entries.len() == 0 {
        (p, m)
    } else {
        let (p1, m1, r) = create_step(p, m, entries[0].0, entries[0].1);
        run_creates(p1, m1, entries.drop_first())
    }
}

/// Whether every create in the run succeeds.
pub open spec fn run_creates_ok<M: PolicyModel>(
    p: M,
    m: Map<Seq<u8>, Seq<u8>>,
    entries: Seq<(Seq<u8>, Seq<u8>)>,
) -> bool
    decreases entries.len(),
{
    if entries.len() == 0 {
        true
    } else {
        let (p1, m1, r) = create_step(p, m, entries[0].0, entries[0].1);
        r is Ok && run_creates_ok(p1, m1, entries.drop_first())
    }
}

/// A run over `entries` followed by one more create is the run over
/// `entries` with the create appended.
pub proof fn lemma_run_creates_snoc<M: PolicyModel>(
    p: M,
    m: Map<Seq<u8>, Seq<u8>>,
    entries: Seq<(Seq<u8>, Seq<u8>)>,
    entry: (Seq<u8>, Seq<u8>),
)
    ensures
        ({
            let (p1, m1) = run_creates(p, m, entries);
            let (p2, m2, r) = create_step(p1, m1, entry.0, entry.1);
            &&& run_creates(p, m, entries.push(entry)) == (p2, m2)
            &&& run_creates_ok(p, m, entries.push(entry)) == (run_creates_ok(p, m, entries)
                && r is Ok)
        }),
    decreases entries.len(),
{
    let whole = entries.push(entry);
    if entries.len() == 0 {
        let (p2, m2, r) = create_step(p, m, entry.0, entry.1);
        assert(whole[0] == entry);
        assert(whole.drop_first() =~= Seq::<(Seq<u8>, Seq<u8>)>::empty());
        assert(run_creates(p, m, whole) == run_creates(p2, m2, whole.drop_first()));
        assert(run_creates(p2, m2, whole.drop_first()) == (p2, m2));
        assert(run_creates(p, m, entries) == (p, m));
        assert(run_creates_ok(p, m, whole) == (r is Ok && run_creates_ok(
            p2,
            m2,
            whole.drop_first(),
        )));
        assert(run_creates_ok(p2, m2, whole.drop_first()));
        assert(run_creates_ok(p, m, entries));
    } else {
        let (ph, mh, rh) = create_step(p, m, entries[0].0, entries[0].1);
        assert(whole[0] == entries[0]);
        assert(whole.drop_first() =~= entries.drop_first().push(entry));
        assert(run_creates(p, m, whole) == run_creates(ph, mh, whole.drop_first()));
        assert(run_creates_ok(p, m, whole) == (rh is Ok && run_creates_ok(
            ph,
            mh,
            whole.drop_first(),
        )));
        assert(run_creates(p, m, entries) == run_creates(ph, mh, entries.drop_first()));
        assert(run_creates_ok(p, m, entries) == (rh is Ok && run_creates_ok(
            ph,
            mh,
            entries.drop_first(),
        )));
        lemma_run_creates_snoc(ph, mh, entries.drop_first(), entry);
    }
}

/// Under admission control with room for all of them, creates of distinct
/// fresh keys all succeed: the policy is untouched, each new key holds its
/// value, the old entries keep theirs, and the size grows by exactly the
/// number of creates.
pub proof fn lemma_max_size_fill(
    p: MaxSizeModel,
    m: Map<Seq<u8>, Seq<u8>>,
    entries: Seq<(Seq<u8>, Seq<u8>)>,
)
    requires
        m.dom().finite(),
        distinct_keys(entries),
        forall|i: int| 0 <= i < entries.len() ==> !m.contains_key(#[trigger] entries[i].0),
        m.dom().len() + entries.len() <= p.max_size,
    ensures
        ({
            let (p1, m1) = run_creates(p, m, entries);
            &&& p1 == p
            &&& run_creates_ok(p, m, entries)
            &&& m1.dom().finite()
            &&& m1.dom().len() == m.dom().len() + entries.len()
            &&& forall|k: Seq<u8>|
                m.contains_key(k) ==> #[trigger] m1.contains_key(k) && m1[k] == m[k]
            &&& forall|i: int|
                0 <= i < entries.len() ==> m1.contains_key(#[trigger] entries[i].0)
                    && m1[entries[i].0] == entries[i].1
        }),
    decreases entries.len(),
{
    if entries.len() == 0 {
    } else {
        let e = entries[0];
        let rest = entries.drop_first();
        let (p1, m1, r) = create_step(p, m, e.0, e.1);
        assert(p.veto(CacheOp::Create, e.0, m) is None);
        assert(m1 == m.insert(e.0, e.1));
        assert(m1.dom() =~= m.dom().insert(e.0));
        assert(p1 == p);
        assert(r is Ok);
        assert(distinct_keys(rest)) by {
            assert(forall|x: int, y: int|
                0 <= x < y < rest.len() ==> rest[x] == entries[x + 1] && rest[y] == entries[y + 1]);
        }
        assert(forall|i: int| 0 <= i < rest.len() ==> rest[i] == entries[i + 1]);
        assert(forall|i: int| 0 <= i < rest.len() ==> !m1.contains_key(#[trigger] rest[i].0)) by {
            assert(forall|i: int|
                0 <= i < rest.len() ==> #[trigger] rest[i].0 == entries[i + 1].0 && entries[i
                    + 1].0 != e.0);
        }
        lemma_max_size_fill(p1, m1, rest);
        let (pf, mf) = run_creates(p1, m1, rest);
        assert(run_creates(p, m, entries) == run_creates(p1, m1, rest));
        assert(run_creates_ok(p, m, entries) == (r is Ok && run_creates_ok(p1, m1, rest)));
        assert(m1.dom().len() == m.dom().len() + 1);
        assert(mf.dom().len() == m.dom().len() + entries.len());
        assert(m1.contains_key(e.0) && m1[e.0] == e.1);
        assert(mf.contains_key(e.0) && mf[e.0] == e.1);
        assert forall|i: int|
            0 <= i < entries.len() implies mf.contains_key(#[trigger] entries[i].0)
            && mf[entries[i].0] == entries[i].1 by {
            if i > 0 {
                assert(rest[i - 1] == entries[i]);
                assert(mf.contains_key(rest[i - 1].0) && mf[rest[i - 1].0] == rest[i - 1].1);
            }
        }
        assert forall|k: Seq<u8>| m.contains_key(k) implies #[trigger] mf.contains_key(k)
            && mf[k] == m[k] by {
            assert(m1.contains_key(k) && m1[k] == m[k]);
        }
    }
}

/// Under admission control at capacity `n`, any `n` creates with distinct
/// keys from an empty store all succeed and fill the store; the next create
/// is refused with kind `Size` and a message citing the configured limit
/// `n` and the observed size `n`, and neither the store nor the policy
/// changes.
pub proof fn lemma_max_size_overflow_refused(
    entries: Seq<(Seq<u8>, Seq<u8>)>,
    extra: (Seq<u8>, Seq<u8>),
)
    requires
        distinct_keys(entries),
    ensures
        ({
            let n = entries.len();
            let p0 = MaxSizeModel { max_size: n };
            let m0 = Map::<Seq<u8>, Seq<u8>>::empty();
            let (p1, m1) = run_creates(p0, m0, entries);
            let (p2, m2, r) = create_step(p1, m1, extra.0, extra.1);
            &&& run_creates_ok(p0, m0, entries)
            &&& m1.dom().len() == n
            &&& r == Err::<Option<Seq<u8>>, ErrorView>(
                ErrorView { kind: ErrorKind::Size, message: size_message(n, n) },
            )
            &&& p2 == p1
            &&& m2 == m1
        }),
{
    let n = entries.len();
    let p0 = MaxSizeModel { max_size: n };
    let m0 = Map::<Seq<u8>, Seq<u8>>::empty();
    assert(m0.dom() =~= Set::empty());
    lemma_max_size_fill(p0, m0, entries);
}

/// An admitted create under admission control is read back: the value just
/// stored is returned by a following read of the same key.
pub proof fn lemma_create_then_read_max_size(
    p: MaxSizeModel,
    m: Map<Seq<u8>, Seq<u8>>,
    key: Seq<u8>,
    value: Seq<u8>,
)
    ensures
        ({
            let (p1, m1, r) = create_step(p, m, key, value);
            r is Ok ==> read_step(p1, m1, key) == Ok::<Option<Seq<u8>>, ErrorView>(Some(value))
        }),
{
}

/// An admitted create under the FIFO policy is read back: the value just
/// stored is returned by a following read of the same key.
pub proof fn lemma_create_then_read_fifo(
    p: FifoModel,
    m: Map<Seq<u8>, Seq<u8>>,
    key: Seq<u8>,
    value: Seq<u8>,
)
    ensures
        ({
            let (p1, m1, r) = create_step(p, m, key, value);
            r is Ok ==> read_step(p1, m1, key) == Ok::<Option<Seq<u8>>, ErrorView>(Some(value))
        }),
{
}

/// Updating a never-created key under admission control fails with
/// `NoExistingValue`, nothing changes, and a following read of that key
/// still returns none.
pub proof fn lemma_update_absent_max_size(
    p: MaxSizeModel,
    m: Map<Seq<u8>, Seq<u8>>,
    key: Seq<u8>,
    value: Seq<u8>,
)
    requires
        !m.contains_key(key),
    ensures
        ({
            let (p1, m1, r) = update_step(p, m, key, value);
            &&& r == Err::<Option<Seq<u8>>, ErrorView>(no_existing_value_error_view())
            &&& p1 == p
            &&& m1 == m
            &&& read_step(p1, m1, key) == Ok::<Option<Seq<u8>>, ErrorView>(None)
        }),
{
}

/// Updating a never-created key under the FIFO policy fails with
/// `NoExistingValue`, nothing changes, and a following read of that key
/// still returns none.
pub proof fn lemma_update_absent_fifo(
    p: FifoModel,
    m: Map<Seq<u8>, Seq<u8>>,
    key: Seq<u8>,
    value: Seq<u8>,
)
    requires
        !m.contains_key(key),
    ensures
        ({
            let (p1, m1, r) = update_step(p, m, key, value);
            &&& r == Err::<Option<Seq<u8>>, ErrorView>(no_existing_value_error_view())
            &&& p1 == p
            &&& m1 == m
            &&& read_step(p1, m1, key) == Ok::<Option<Seq<u8>>, ErrorView>(None)
        }),
{
    assert(p.pre_step(CacheOp::Update, key, m) == p);
    assert(p.post_step(CacheOp::Update, key, m) == p);
}

/// Deleting a live key under admission control removes the entry and
/// returns its value: a following read of the key returns none, and the
/// size decreases by exactly one.
pub proof fn lemma_delete_removes_max_size(p: MaxSizeModel, m: Map<Seq<u8>, Seq<u8>>, key: Seq<u8>)
    requires
        m.dom().finite(),
        m.contains_key(key),
    ensures
        ({
            let (p1, m1, r) = delete_step(p, m, key);
            &&& r == Ok::<Option<Seq<u8>>, ErrorView>(Some(m[key]))
            &&& p1 == p
            &&& m1 == m.remove(key)
            &&& m1.dom().len() == m.dom().len() - 1
            &&& read_step(p1, m1, key) == Ok::<Option<Seq<u8>>, ErrorView>(None)
        }),
{
    assert(m.remove(key).dom() =~= m.dom().remove(key));
}

/// Deleting a live key under the FIFO policy removes the entry and returns
/// its value: a following read of the key returns none, the size decreases
/// by exactly one, and the key leaves the policy's queue.
pub proof fn lemma_delete_removes_fifo(p: FifoModel, m: Map<Seq<u8>, Seq<u8>>, key: Seq<u8>)
    requires
        p.inv(m),
        m.contains_key(key),
    ensures
        ({
            let (p1, m1, r) = delete_step(p, m, key);
            &&& r == Ok::<Option<Seq<u8>>, ErrorView>(Some(m[key]))
            &&& p1 == (FifoModel { max_size: p.max_size, queue: p.queue.remove_value(key) })
            &&& m1 == m.remove(key)
            &&& m1.dom().len() == m.dom().len() - 1
            &&& read_step(p1, m1, key) == Ok::<Option<Seq<u8>>, ErrorView>(None)
        }),
{
    assert(m.remove(key).dom() =~= m.dom().remove(key));
    assert(p.queue.to_set().contains(key));
    p.queue.index_of_first_ensures(key);
    let i = p.queue.index_of_first(key).unwrap();
    lemma_remove_to_set(p.queue, i);
    let q1 = p.queue.remove(i);
    assert(q1 == p.queue.remove_value(key));
    assert(!q1.contains(key));
    q1.index_of_first_ensures(key);
    assert(q1.remove_value(key) == q1);
}

/// The entries still live after running creates under a FIFO policy of the
/// given capacity: the newest `capacity` of them (all of them, if they
/// fit).
pub open spec fn fifo_window(entries: Seq<(Seq<u8>, Seq<u8>)>, capacity: nat) -> Seq<
    (Seq<u8>, Seq<u8>),
> {
    if entries.len() <= capacity {
        entries
    } else {
        entries.skip(entries.len() - capacity)
    }
}

/// Running creates with distinct keys from an empty store under a FIFO
/// policy keeps exactly the newest entries that fit: the queue holds their
/// keys, oldest first, the store holds their values, and every create
/// succeeds.
pub proof fn lemma_fifo_run(entries: Seq<(Seq<u8>, Seq<u8>)>, capacity: nat)
    requires
        capacity >= 1,
        distinct_keys(entries),
    ensures
        ({
            let p0 = FifoModel { max_size: capacity, queue: Seq::<Seq<u8>>::empty() };
            let m0 = Map::<Seq<u8>, Seq<u8>>::empty();
            let w = fifo_window(entries, capacity);
            &&& run_creates(p0, m0, entries) == (
                FifoModel { max_size: capacity, queue: keys_of(w) },
                pairs_map(w),
            )
            &&& run_creates_ok(p0, m0, entries)
        }),
    decreases entries.len(),
{
    let p0 = FifoModel { max_size: capacity, queue: Seq::<Seq<u8>>::empty() };
    let m0 = Map::<Seq<u8>, Seq<u8>>::empty();
    if entries.len() == 0 {
        assert(keys_of(fifo_window(entries, capacity)) =~= Seq::<Seq<u8>>::empty());
        assert(run_creates(p0, m0, entries) == (p0, m0));
        assert(run_creates_ok(p0, m0, entries));
    } else {
        let s = entries.drop_last();
        let e = entries.last();
        let off: int = if s.len() <= capacity { 0 } else { s.len() - capacity };
        assert(forall|i: int| 0 <= i < s.len() ==> s[i] == entries[i]);
        assert(distinct_keys(s)) by {
            assert(forall|x: int, y: int|
                0 <= x < y < s.len() ==> s[x] == entries[x] && s[y] == entries[y]);
        }
        lemma_fifo_run(s, capacity);
        assert(entries =~= s.push(e));
        lemma_run_creates_snoc(p0, m0, s, e);
        let ws = fifo_window(s, capacity);
        let ps = FifoModel { max_size: capacity, queue: keys_of(ws) };
        let ms = pairs_map(ws);
        assert(run_creates(p0, m0, s) == (ps, ms));
        assert(forall|i: int| 0 <= i < ws.len() ==> ws[i] == entries[i + off]);
        assert(distinct_keys(ws)) by {
            assert(forall|x: int, y: int|
                0 <= x < y < ws.len() ==> ws[x] == entries[x + off] && ws[y] == entries[y + off]);
        }
        lemma_pairs_map_dom(ws);
        lemma_pairs_map_len(ws);
        assert(forall|i: int| 0 <= i < ws.len() ==> keys_of(ws)[i] == ws[i].0);
        assert(e == entries[entries.len() - 1]);
        assert(!pairs_map(ws).contains_key(e.0)) by {
            if pairs_map(ws).contains_key(e.0) {
                let i = choose|i: int| 0 <= i < ws.len() && ws[i].0 == e.0;
                assert(entries[i + off].0 == entries[entries.len() - 1].0);
                assert(i + off < s.len());
            }
        }
        assert(!keys_of(ws).contains(e.0)) by {
            if keys_of(ws).contains(e.0) {
                let i = choose|i: int| 0 <= i < keys_of(ws).len() && keys_of(ws)[i] == e.0;
                assert(ws[i].0 == e.0);
                assert(pairs_map(ws).contains_key(e.0));
            }
        }
        let (p2, m2, r) = create_step(ps, ms, e.0, e.1);
        assert(ps.veto(CacheOp::Create, e.0, ms) is None);
        let w = fifo_window(entries, capacity);
        if s.len() < capacity {
            // No eviction: the store still has room.
            assert(ms.dom().len() < capacity);
            assert(ps.pre_step(CacheOp::Create, e.0, ms) == ps);
            assert(ps.pre_store(CacheOp::Create, e.0, ms) == ms);
            lemma_pairs_map_push(ws, e.0, e.1);
            assert(ws == s);
            assert(w == entries);
            assert(m2 == pairs_map(s.push(e)));
            assert(m2 == pairs_map(w));
            assert(p2.queue == keys_of(ws).push(e.0));
            assert(keys_of(s.push(e)) =~= keys_of(s).push(e.0));
            assert(p2.queue == keys_of(w));
        } else {
            // At capacity: the oldest key is evicted first.
            assert(ws.len() == capacity);
            assert(ms.dom().len() == capacity);
            assert(ps.pre_store(CacheOp::Create, e.0, ms) == ms.remove(ps.queue.first()));
            assert(ps.queue.first() == ws[0].0);
            lemma_pairs_map_remove(ws, 0);
            assert(ws.remove(0) =~= ws.drop_first());
            assert(ms.remove(ws[0].0) == pairs_map(ws.drop_first()));
            let q1 = keys_of(ws).drop_first();
            assert(q1 =~= keys_of(ws.drop_first()));
            assert(!q1.contains(e.0)) by {
                if q1.contains(e.0) {
                    let i = choose|i: int| 0 <= i < q1.len() && q1[i] == e.0;
                    assert(keys_of(ws)[i + 1] == e.0);
                    assert(keys_of(ws).contains(e.0));
                }
            }
            lemma_pairs_map_push(ws.drop_first(), e.0, e.1);
            assert(m2 == pairs_map(ws.drop_first().push(e)));
            assert(p2.queue == q1.push(e.0));
            assert(keys_of(ws.drop_first().push(e)) =~= q1.push(e.0));
            assert(w =~= ws.drop_first().push(e)) by {
                assert(w.len() == capacity);
                assert(ws.drop_first().push(e).len() == capacity);
                assert(forall|i: int|
                    0 <= i < capacity - 1 ==> ws.drop_first().push(e)[i] == ws[i + 1]
                        && ws[i + 1] == entries[i + 1 + off]);
                assert(forall|i: int|
                    0 <= i < capacity ==> w[i] == entries[i + entries.len() - capacity]);
                assert(ws.drop_first().push(e)[capacity - 1] == e);
            }
            assert(m2 == pairs_map(w));
            assert(p2.queue == keys_of(w));
        }
        assert(r is Ok);
        assert(run_creates(p0, m0, entries) == run_creates(p0, m0, s.push(e)));
        assert(run_creates(p0, m0, entries) == (p2, m2));
        assert(p2 == (FifoModel { max_size: capacity, queue: keys_of(w) }));
        assert(run_creates_ok(p0, m0, entries));
    }
}

/// Under a FIFO policy of capacity `n`, creating more than `n` entries
/// with distinct keys from an empty store always succeeds: afterwards the
/// size is exactly `n`, a read of the oldest key returns none (it was
/// evicted), and a read of each of the newest `n` keys returns its value.
pub proof fn lemma_fifo_evicts_oldest(entries: Seq<(Seq<u8>, Seq<u8>)>, capacity: nat)
    requires
        capacity >= 1,
        entries.len() > capacity,
        distinct_keys(entries),
    ensures
        ({
            let p0 = FifoModel { max_size: capacity, queue: Seq::<Seq<u8>>::empty() };
            let m0 = Map::<Seq<u8>, Seq<u8>>::empty();
            let (p1, m1) = run_creates(p0, m0, entries);
            &&& run_creates_ok(p0, m0, entries)
            &&& m1.dom().len() == capacity
            &&& read_step(p1, m1, entries[0].0) == Ok::<Option<Seq<u8>>, ErrorView>(None)
            &&& forall|i: int|
                entries.len() - capacity <= i < entries.len() ==> read_step(
                    p1,
                    m1,
                    #[trigger] entries[i].0,
                ) == Ok::<Option<Seq<u8>>, ErrorView>(Some(entries[i].1))
        }),
{
    lemma_fifo_run(entries, capacity);
    let w = fifo_window(entries, capacity);
    let off = entries.len() - capacity;
    assert(forall|i: int| 0 <= i < w.len() ==> w[i] == entries[i + off]);
    assert(distinct_keys(w)) by {
        assert(forall|x: int, y: int|
            0 <= x < y < w.len() ==> w[x] == entries[x + off] && w[y] == entries[y + off]);
    }
    lemma_pairs_map_dom(w);
    lemma_pairs_map_len(w);
    assert(!pairs_map(w).contains_key(entries[0].0)) by {
        if pairs_map(w).contains_key(entries[0].0) {
            let i = choose|i: int| 0 <= i < w.len() && w[i].0 == entries[0].0;
            assert(entries[i + off].0 == entries[0].0);
            assert(i + off > 0);
        }
    }
    assert forall|i: int| entries.len() - capacity <= i < entries.len() implies read_step(
        run_creates(
            FifoModel { max_size: capacity, queue: Seq::<Seq<u8>>::empty() },
            Map::<Seq<u8>, Seq<u8>>::empty(),
            entries,
        ).0,
        run_creates(
            FifoModel { max_size: capacity, queue: Seq::<Seq<u8>>::empty() },
            Map::<Seq<u8>, Seq<u8>>::empty(),
            entries,
        ).1,
        #[trigger] entries[i].0,
    ) == Ok::<Option<Seq<u8>>, ErrorView>(Some(entries[i].1)) by {
        let j = i - off;
        assert(w[j] == entries[i]);
        lemma_pairs_map_index(w, j);
    }
}

} // verus!
