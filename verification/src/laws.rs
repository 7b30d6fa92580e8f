//! Properties of the library that span several operations.
use vstd::prelude::*;
use crate::daemon::{DaemonStartEvent, DaemonStartPhase, DeamonStatus, start_next, status_of};
use crate::filters::{
    add_to_slot, filter_country, filter_groups, filter_slot, filters_readable, slot_index,
};
use crate::nordvpn::{NordVpnView, rotate_queue};
use crate::proxy::{
    HostMonitorView, ProxyRotationMode, ProxyStateView, RequestCountProxyRotation,
    SchemaCompatibleSystemTime, SystemInstant, TimedProxyRotation, after_call, after_rotation, call_due,
    checked_in, checked_out, distinct_keys, insert_key, key_index, kept, later,
    lemma_key_index, lemma_key_index_found, plus_secs, purged, recorded, remove_key,
    rotation_finished, rotation_started, with_drained,
};

verus! {

/// The queue after `k` rotation steps.
pub open spec fn rotate_times(q: Seq<Seq<char>>, k: nat) -> Seq<Seq<char>>
    decreases k,
{
    if k == 0 {
        q
    } else {
        rotate_queue(rotate_times(q, (k - 1) as nat))
    }
}

proof fn lemma_rotate_times_shape(q: Seq<Seq<char>>, k: nat)
    requires
        q.len() > 0,
    ensures
        rotate_times(q, k) == q.skip((k % q.len()) as int) + q.take((k % q.len()) as int),
    decreases k,
{
    let n = q.len() as int;
    if k == 0 {
        assert(q.skip(0) + q.take(0) =~= q);
    } else {
        lemma_rotate_times_shape(q, (k - 1) as nat);
        let m = (k - 1) % n;
        let p = q.skip(m) + q.take(m);
        assert(p.len() == n);
        assert(p[0] == q[m]);
        if m + 1 < n {
            assert((k as int) % n == m + 1) by (nonlinear_arith)
                requires
                    m == (k - 1) % n,
                    m + 1 < n,
                    k >= 1,
                    n > 0,
            ;
            assert(p.drop_first().push(p[0]) =~= q.skip(m + 1) + q.take(m + 1));
        } else {
            assert((k as int) % n == 0) by (nonlinear_arith)
                requires
                    m == (k - 1) % n,
                    m + 1 == n,
                    k >= 1,
                    n > 0,
            ;
            assert(p.drop_first().push(p[0]) =~= q.skip(0) + q.take(0));
        }
    }
}

/// Rotation walks the filter queue round robin: the `k`-th rotation (from 0)
/// connects with the filter at position `k` modulo the queue's length, and as
/// many rotations as the queue is long restore it.
pub proof fn law_filters_round_robin(q: Seq<Seq<char>>, k: nat)
    requires
        q.len() > 0,
    ensures
        rotate_times(q, k)[0] == q[(k % q.len()) as int],
        rotate_times(q, q.len()) == q,
{
    lemma_rotate_times_shape(q, k);
    lemma_rotate_times_shape(q, q.len());
    assert(q.len() % q.len() == 0) by (nonlinear_arith)
        requires
            q.len() > 0,
    ;
    assert(q.skip(0) + q.take(0) =~= q);
}

/// A rotation leaves the proxy drained until it ends, and it ends back in
/// service exactly when its connect command succeeded.
pub proof fn law_rotation_drains(s: ProxyStateView, client: NordVpnView, succeeded: bool, now: SchemaCompatibleSystemTime)
    ensures
        rotation_started(s, client).drained,
        rotation_finished(rotation_started(s, client), succeeded, now).drained == !succeeded,
        succeeded ==> rotation_finished(rotation_started(s, client), succeeded, now).last_rotation == now,
        !succeeded ==> rotation_finished(rotation_started(s, client), succeeded, now).last_rotation == s.last_rotation,
{
}

/// Draining and then activating an active proxy gives back its state.
pub proof fn law_drain_then_activate(s: ProxyStateView)
    requires
        !s.drained,
    ensures
        with_drained(with_drained(s, true), false) == s,
{
}

/// A host's history never holds more start times than its capacity: a
/// check-in and a purge keep that bound, and a purge only removes times.
pub proof fn law_history_bounded(times: Seq<SchemaCompatibleSystemTime>, capacity: usize, now: SchemaCompatibleSystemTime, retention: Option<u64>)
    requires
        times.len() <= capacity,
    ensures
        recorded(times, capacity, now).len() <= capacity,
        purged(times, now, retention).len() <= times.len(),
        capacity > 0 ==> recorded(times, capacity, now).last() == now,
{
    times.filter_lemma(|t: SchemaCompatibleSystemTime| kept(now, retention, t));
}

/// A check-out after a check-in gives back the count of open connections and
/// leaves one more connection counted over the monitor's lifetime.
pub proof fn law_check_in_out(m: HostMonitorView, now: SchemaCompatibleSystemTime)
    requires
        m.active_connections < u16::MAX,
        m.lifetime_connections < u16::MAX,
    ensures
        checked_out(checked_in(m, now)).active_connections == m.active_connections,
        checked_out(checked_in(m, now)).lifetime_connections == m.lifetime_connections + 1,
        checked_out(checked_in(m, now)).last == Some(now),
{
}

/// The client connection table behaves as a map: after a connection from a
/// peer, the peer's entry holds its start time; removing a peer that was new
/// gives back the table; and neither operation lets a peer appear twice.
pub proof fn law_connection_table<V>(e: Seq<(Seq<char>, V)>, k: Seq<char>, v: V)
    requires
        distinct_keys(e),
    ensures
        key_index(insert_key(e, k, v), k) >= 0,
        insert_key(e, k, v)[key_index(insert_key(e, k, v), k)] == (k, v),
        key_index(e, k) < 0 ==> remove_key(insert_key(e, k, v), k) == e,
        distinct_keys(insert_key(e, k, v)),
        distinct_keys(remove_key(e, k)),
        key_index(remove_key(e, k), k) < 0,
{
    lemma_key_index(e, k);
    let i = key_index(e, k);
    let e2 = insert_key(e, k, v);
    if i < 0 {
        assert(e2[e.len() as int] == (k, v));
        assert forall|j: int| 0 <= j < e.len() implies e2[j].0 != k by {
            assert(e2[j] == e[j]);
        }
        lemma_key_index_found(e2, k, e.len() as int);
        lemma_key_index(e2, k);
        assert(e2.remove(e.len() as int) =~= e);
    } else {
        assert forall|j: int| 0 <= j < i implies e2[j].0 != k by {
            assert(e2[j] == e[j]);
        }
        lemma_key_index_found(e2, k, i);
    }
    let e3 = remove_key(e, k);
    lemma_key_index(e3, k);
    if i >= 0 {
        assert forall|j: int| 0 <= j < e3.len() implies e3[j].0 != k by {
            if j < i {
                assert(e3[j] == e[j]);
            } else {
                assert(e3[j] == e[j + 1]);
            }
        }
    }
    assert forall|a: int, b: int| 0 <= a < b < e3.len() implies e3[a].0 != e3[b].0 by {
        if i >= 0 {
            let a2 = if a < i { a } else { a + 1 };
            let b2 = if b < i { b } else { b + 1 };
            assert(e3[a] == e[a2]);
            assert(e3[b] == e[b2]);
        }
    }
}

/// The policy after `k` rotation checks.
pub open spec fn calls(mode: ProxyRotationMode, k: nat) -> ProxyRotationMode
    decreases k,
{
    if k == 0 {
        mode
    } else {
        after_call(calls(mode, (k - 1) as nat))
    }
}

/// Rotation by request count rotates on every `rotation_count`-th request:
/// from a fresh count, the checks before the `rotation_count`-th find no
/// rotation due, and that one does; a successful rotation starts the count
/// again.
pub proof fn law_request_count_rotation(r: RequestCountProxyRotation, k: nat, now: SystemInstant)
    requires
        r.request_count == 0,
        k < u16::MAX,
    ensures
        calls(ProxyRotationMode::RequestCount(r), k) == ProxyRotationMode::RequestCount(RequestCountProxyRotation { request_count: k as u16, ..r }),
        call_due(calls(ProxyRotationMode::RequestCount(r), k), now) <==> k + 1 >= r.rotation_count,
        after_rotation(calls(ProxyRotationMode::RequestCount(r), k), now) == ProxyRotationMode::RequestCount(RequestCountProxyRotation {
            request_count: 0,
            rotation_count: r.rotation_count,
            last_rotation: now,
        }),
    decreases k,
{
    if k > 0 {
        law_request_count_rotation(r, (k - 1) as nat, now);
    }
}

/// Rotation by time: after a successful rotation at `now`, a check finds a
/// rotation due exactly when it comes later than one interval after `now`,
/// and checks do not change a timed policy.
pub proof fn law_timed_rotation(t: TimedProxyRotation, now: SystemInstant, check: SystemInstant)
    ensures
        call_due(after_rotation(ProxyRotationMode::Timed(t), now), check) <==> later(check, plus_secs(now, t.interval)),
        after_call(ProxyRotationMode::Timed(t)) == ProxyRotationMode::Timed(t),
{
}

/// Manual rotation is never due.
pub proof fn law_manual_rotation(now: SystemInstant)
    ensures
        !call_due(ProxyRotationMode::Manual, now),
{
}

/// The wait after a start ends only when the daemon runs or the clock has
/// reached the deadline; and it does end at a clock reading past the
/// deadline.
pub proof fn law_start_wait_ends(phase: DaemonStartPhase, event: DaemonStartEvent)
    requires
        phase != DaemonStartPhase::Done,
    ensures
        start_next(phase, event) == DaemonStartPhase::Done ==> (event == DaemonStartEvent::Status(DeamonStatus::Running) || (phase matches DaemonStartPhase::CheckClock { deadline } && event matches DaemonStartEvent::Clock(now) && now >= deadline)),
        (phase matches DaemonStartPhase::CheckClock { deadline } && event matches DaemonStartEvent::Clock(now) && now >= deadline) ==> start_next(phase, event) == DaemonStartPhase::Done,
{
}

/// The status command's answer never reports a running daemon: it reads as
/// stopped or unknown.
pub proof fn law_status_never_running(text: Seq<char>)
    ensures
        status_of(text) == DeamonStatus::Stopped || status_of(text) == DeamonStatus::Unknown,
{
}

proof fn lemma_add_keeps(m: Seq<(u16, Seq<Seq<char>>)>, s: u16, c: Seq<char>, s2: u16)
    requires
        slot_index(m, s2) >= 0,
    ensures
        slot_index(add_to_slot(m, s, c), s2) == slot_index(m, s2),
        m[slot_index(m, s2)].1.to_set().subset_of(add_to_slot(m, s, c)[slot_index(m, s2)].1.to_set()),
{
    crate::filters::lemma_slot_index(m, s2);
    let m2 = add_to_slot(m, s, c);
    let j = slot_index(m, s2);
    crate::filters::lemma_slot_index(m, s);
    assert forall|x: int| 0 <= x < j implies m2[x].0 != s2 by {
        assert(m2[x].0 == m[x].0);
    }
    assert(m2[j].0 == s2);
    crate::filters::lemma_slot_index_found(m2, s2, j);
    if slot_index(m, s) >= 0 && slot_index(m, s) == j {
        m[j].1.lemma_push_to_set_commute(c);
    }
}

proof fn lemma_add_lands(m: Seq<(u16, Seq<Seq<char>>)>, s: u16, c: Seq<char>)
    ensures
        slot_index(add_to_slot(m, s, c), s) >= 0,
        add_to_slot(m, s, c)[slot_index(add_to_slot(m, s, c), s)].1.contains(c),
{
    crate::filters::lemma_slot_index(m, s);
    let m2 = add_to_slot(m, s, c);
    let j = slot_index(m, s);
    if j < 0 {
        assert forall|x: int| 0 <= x < m.len() implies m2[x].0 != s by {
            assert(m2[x] == m[x]);
        }
        crate::filters::lemma_slot_index_found(m2, s, m.len() as int);
        assert(m2[m.len() as int].1[0] == c);
    } else {
        assert forall|x: int| 0 <= x < j implies m2[x].0 != s by {
            assert(m2[x] == m[x]);
        }
        crate::filters::lemma_slot_index_found(m2, s, j);
        assert(m2[j].1[m[j].1.len() as int] == c);
    }
}

/// Every filter's country lands in the group of its slot.
pub proof fn law_filters_grouped(fs: Seq<Seq<char>>, i: int)
    requires
        filters_readable(fs),
        0 <= i < fs.len(),
    ensures
        slot_index(filter_groups(fs), filter_slot(fs[i]).unwrap()) >= 0,
        filter_groups(fs)[slot_index(filter_groups(fs), filter_slot(fs[i]).unwrap())].1.contains(filter_country(fs[i])),
    decreases fs.len(),
{
    let prev = fs.drop_last();
    let last = fs.last();
    assert(filter_slot(fs[fs.len() - 1]) is Some);
    let g = filter_groups(prev);
    let s = filter_slot(fs[i]).unwrap();
    if i == fs.len() - 1 {
        lemma_add_lands(g, filter_slot(last).unwrap(), filter_country(last));
    } else {
        assert forall|k: int| 0 <= k < prev.len() implies (#[trigger] filter_slot(prev[k])) is Some by {
            assert(prev[k] == fs[k]);
        }
        assert(prev[i] == fs[i]);
        law_filters_grouped(prev, i);
        lemma_add_keeps(g, filter_slot(last).unwrap(), filter_country(last), s);
        let j = slot_index(g, s);
        assert(g[j].1.to_set().contains(filter_country(fs[i])));
    }
}

} // verus!
