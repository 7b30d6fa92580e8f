//! The proxy's bookkeeping: per-host connection monitors with their bounded
//! histories, the proxy-wide counters, the rotation policies (by time, by
//! request count, or manual) and the drain state around a rotation.
use vstd::prelude::*;
use std::collections::VecDeque;
use std::time::{Duration, SystemTime, SystemTimeError, UNIX_EPOCH};
use crate::text::{owned, string_views};
use crate::nordvpn::{NordVPN, NordVpnCommand, NordVpnView, rotate_queue};

verus! {

/// Largest Unix time, in seconds, that the clock can report (the end of the
/// last year that chrono represents).
pub const CLOCK_MAX_SECS: i64 = 8210266876799;

/// An instant: whole seconds since the Unix epoch and the nanoseconds past
/// them.
#[derive(Debug, Clone, Copy, PartialEq, Eq, Structural)]
pub struct SchemaCompatibleSystemTime {
    pub secs: i64,
    pub nanos: u32,
}

/// The instant in nanoseconds since the Unix epoch.
pub open spec fn instant(t: SchemaCompatibleSystemTime) -> int {
    t.secs * 1_000_000_000 + t.nanos
}

/// Whole seconds of a span of nanoseconds, rounded toward zero (what
/// chrono's `TimeDelta::num_seconds` gives).
pub open spec fn whole_seconds(d: int) -> int {
    if d >= 0 {
        d / 1_000_000_000
    } else {
        -((-d) / 1_000_000_000)
    }
}

/// Whole seconds from `t` to `now`.
pub open spec fn elapsed_secs(now: SchemaCompatibleSystemTime, t: SchemaCompatibleSystemTime) -> int {
    whole_seconds(instant(now) - instant(t))
}


/// What a time that chrono's clock gives can be: seconds up to
/// `CLOCK_MAX_SECS`, nanoseconds below one second.
pub open spec fn clock_reading(t: SchemaCompatibleSystemTime) -> bool {
    &&& t.secs <= CLOCK_MAX_SECS
    &&& t.nanos < 1_000_000_000
}

/// The UTC date and time `secs` seconds and `nanos` nanoseconds from the Unix
/// epoch, as its timestamp and sub-second nanoseconds, if chrono can
/// represent it.
/// Trusted: chrono's `DateTime::from_timestamp`, with `timestamp` and
/// `timestamp_subsec_nanos` of the result. For nanoseconds below one second
/// the date is built whenever its day lies within chrono's years, so for
/// every second from the epoch to `CLOCK_MAX_SECS` (the last second of the
/// last year), and never past it; a built date gives back the seconds and
/// nanoseconds it was built from. Where chrono's earliest date lies is not
/// stated.
#[verifier::external_body]
fn utc_from_timestamp(secs: i64, nanos: u32) -> (r: Option<(i64, u32)>)
    requires
        nanos < 1_000_000_000,
    ensures
        0 <= secs <= CLOCK_MAX_SECS ==> r is Some,
        secs > CLOCK_MAX_SECS ==> r is None,
        r matches Some(p) ==> p == (secs, nanos),
{
    match chrono::DateTime::from_timestamp(secs, nanos) {
        Some(d) => Some((d.timestamp(), d.timestamp_subsec_nanos())),
        None => None,
    }
}

/// The signed 64-bit number that a cast of `s` (below 2^64) gives: `s`
/// itself up to `i64::MAX`, else `s` less 2^64.
pub open spec fn wrapped_i64(s: int) -> int {
    if s <= i64::MAX {
        s
    } else {
        s - 0x1_0000_0000_0000_0000
    }
}

impl SchemaCompatibleSystemTime {
    /// The time, in chrono's UTC, of a reading of the system clock: `None`
    /// before the Unix epoch and past the last year that chrono represents;
    /// else the reading's seconds and nanoseconds.
    pub fn from_reading(reading: SystemInstant) -> (t: Option<Self>)
        requires
            system_reading(reading),
        ensures
            reading.secs < 0 ==> t is None,
            0 <= reading.secs <= CLOCK_MAX_SECS ==> t == Some(SchemaCompatibleSystemTime { secs: reading.secs as i64, nanos: reading.nanos }),
            CLOCK_MAX_SECS < reading.secs <= i64::MAX ==> t is None,
            t matches Some(r) ==> r.secs == wrapped_i64(reading.secs as int) && r.nanos == reading.nanos && clock_reading(r),
    {
        if reading.secs < 0 {
            return None;
        }
        let secs: i64 = if reading.secs <= 0x7fff_ffff_ffff_ffff {
            reading.secs as i64
        } else {
            ((reading.secs - 0x8000_0000_0000_0000) as i64) - 0x7fff_ffff_ffff_ffff - 1
        };
        match utc_from_timestamp(secs, reading.nanos) {
            Some(p) => Some(SchemaCompatibleSystemTime { secs: p.0, nanos: p.1 }),
            None => None,
        }
    }

    /// The current time of the system clock in chrono's UTC: `None` where the
    /// clock reads before the Unix epoch or past the last year that chrono
    /// represents (where chrono's own `Utc::now` panics).
    pub fn now() -> (t: Option<Self>)
        ensures
            t matches Some(r) ==> clock_reading(r),
    {
        SchemaCompatibleSystemTime::from_reading(SystemInstant::now())
    }

    /// Whole seconds from `self` to `now`, rounded toward zero.
    pub fn seconds_until(&self, now: &Self) -> (r: i128)
        ensures
            r == elapsed_secs(*now, *self),
    {
        let d: i128 = (now.secs as i128 - self.secs as i128) * 1_000_000_000 + (now.nanos as i128
            - self.nanos as i128);
        if d >= 0 {
            let q = (d as u128) / 1_000_000_000;
            q as i128
        } else {
            let q = ((-d) as u128) / 1_000_000_000;
            -(q as i128)
        }
    }
}

/// The compact form of a host monitor.
pub struct HostMonitorCompact {
    pub active_connections: u16,
    pub lifetime_connections: u16,
    pub last: Option<SchemaCompatibleSystemTime>,
}

/// The connections to one monitored host: how many are open, how many were
/// made, when the last began, and the start times of the latest ones, at
/// most `capacity` of them.
pub struct HostMonitor {
    pub active_connections: u16,
    pub lifetime_connections: u16,
    pub capacity: usize,
    pub last: Option<SchemaCompatibleSystemTime>,
    pub times: VecDeque<SchemaCompatibleSystemTime>,
}

/// The model of a host monitor.
pub struct HostMonitorView {
    pub active_connections: u16,
    pub lifetime_connections: u16,
    pub capacity: usize,
    pub last: Option<SchemaCompatibleSystemTime>,
    pub times: Seq<SchemaCompatibleSystemTime>,
}

impl View for HostMonitor {
    type V = HostMonitorView;

    open spec fn view(&self) -> HostMonitorView {
        HostMonitorView {
            active_connections: self.active_connections,
            lifetime_connections: self.lifetime_connections,
            capacity: self.capacity,
            last: self.last,
            times: self.times@,
        }
    }
}

/// The retention in seconds that a purge keeps: 60 by default, the value
/// read as a signed 64-bit number.
pub open spec fn retention_secs(retention: Option<u64>) -> int {
    match retention {
        Some(r) => (r as i64) as int,
        None => 60,
    }
}

/// A start time survives a purge at `now` when fewer whole seconds than the
/// retention have passed since it.
pub open spec fn kept(now: SchemaCompatibleSystemTime, retention: Option<u64>, t: SchemaCompatibleSystemTime) -> bool {
    elapsed_secs(now, t) < retention_secs(retention)
}

/// The start times that survive a purge at `now`.
pub open spec fn purged(times: Seq<SchemaCompatibleSystemTime>, now: SchemaCompatibleSystemTime, retention: Option<u64>) -> Seq<SchemaCompatibleSystemTime> {
    times.filter(|t: SchemaCompatibleSystemTime| kept(now, retention, t))
}

/// The history after a connection began at `now`: with a positive capacity,
/// the oldest entry leaves when the history is full, and `now` joins it.
pub open spec fn recorded(times: Seq<SchemaCompatibleSystemTime>, capacity: usize, now: SchemaCompatibleSystemTime) -> Seq<SchemaCompatibleSystemTime> {
    if capacity > 0 {
        if times.len() == capacity {
            times.drop_first().push(now)
        } else {
            times.push(now)
        }
    } else {
        times
    }
}

impl HostMonitor {
    /// The model of a monitor that keeps no history.
    pub open spec fn new_spec() -> HostMonitorView {
        HostMonitorView { active_connections: 0, lifetime_connections: 0, capacity: 0, last: None, times: seq![] }
    }

    /// A monitor that keeps no history.
    pub fn new() -> (r: Self)
        ensures
            r@ == (HostMonitorView { active_connections: 0, lifetime_connections: 0, capacity: 0, last: None, times: seq![] }),
    {
        HostMonitor::new_with_capacity(0)
    }

    /// A monitor that keeps the start times of the latest `capacity`
    /// connections.
    pub fn new_with_capacity(capacity: usize) -> (r: Self)
        ensures
            r@ == (HostMonitorView { active_connections: 0, lifetime_connections: 0, capacity, last: None, times: seq![] }),
    {
        HostMonitor {
            active_connections: 0,
            lifetime_connections: 0,
            capacity,
            last: None,
            times: VecDeque::new(),
        }
    }

    /// Records a connection that begins at `now`.
    pub fn check_in_at(&mut self, now: SchemaCompatibleSystemTime)
        requires
            old(self).active_connections < u16::MAX,
            old(self).lifetime_connections < u16::MAX,
        ensures
            final(self)@ == (HostMonitorView {
                active_connections: (old(self).active_connections + 1) as u16,
                lifetime_connections: (old(self).lifetime_connections + 1) as u16,
                capacity: old(self).capacity,
                last: Some(now),
                times: recorded(old(self)@.times, old(self).capacity, now),
            }),
    {
        self.last = Some(now);
        if self.capacity > 0 {
            if self.times.len() == self.capacity {
                self.times.pop_front();
            }
            self.times.push_back(now);
        }
        self.active_connections = self.active_connections + 1;
        self.lifetime_connections = self.lifetime_connections + 1;
    }

    /// Records a connection that begins now, where the clock can be read
    /// (then `true`); else leaves the monitor as it is (`false`).
    pub fn check_in(&mut self) -> (read: bool)
        requires
            old(self).active_connections < u16::MAX,
            old(self).lifetime_connections < u16::MAX,
        ensures
            !read ==> final(self)@ == old(self)@,
            read ==> exists|now: SchemaCompatibleSystemTime|
                #![trigger recorded(old(self)@.times, old(self).capacity, now)]
                clock_reading(now) && final(self)@ == (HostMonitorView {
                    active_connections: (old(self).active_connections + 1) as u16,
                    lifetime_connections: (old(self).lifetime_connections + 1) as u16,
                    capacity: old(self).capacity,
                    last: Some(now),
                    times: recorded(old(self)@.times, old(self).capacity, now),
                }),
    {
        match SchemaCompatibleSystemTime::now() {
            Some(now) => {
                self.check_in_at(now);
                assert(final(self)@.times == recorded(old(self)@.times, old(self).capacity, now));
                true
            },
            None => false,
        }
    }

    /// Records the end of a connection.
    pub fn check_out(&mut self)
        requires
            old(self).active_connections > 0,
        ensures
            final(self)@ == (HostMonitorView {
                active_connections: (old(self).active_connections - 1) as u16,
                ..old(self)@
            }),
    {
        self.active_connections = self.active_connections - 1;
    }

    /// The counters and the last start time.
    pub fn compact(&self) -> (r: HostMonitorCompact)
        ensures
            r.active_connections == self.active_connections,
            r.lifetime_connections == self.lifetime_connections,
            r.last == self.last,
    {
        HostMonitorCompact {
            active_connections: self.active_connections,
            lifetime_connections: self.lifetime_connections,
            last: self.last,
        }
    }

    /// Drops the start times older than the retention at `now`.
    pub fn purge_at(&mut self, retention: Option<u64>, now: SchemaCompatibleSystemTime)
        ensures
            final(self)@ == (HostMonitorView { times: purged(old(self)@.times, now, retention), ..old(self)@ }),
    {
        let limit: i128 = match retention {
            Some(r) => (r as i64) as i128,
            None => 60,
        };
        let mut kept_times: VecDeque<SchemaCompatibleSystemTime> = VecDeque::new();
        let mut i: usize = 0;
        let ghost old_times = self.times@;
        while i < self.times.len()
            invariant
                self.times@ == old_times,
                i <= old_times.len(),
                limit == retention_secs(retention),
                kept_times@ == purged(old_times.take(i as int), now, retention),
            decreases old_times.len() - i,
        {
            let t = self.times[i];
            proof {
                assert(old_times.take(i + 1).drop_last() =~= old_times.take(i as int));
                reveal_with_fuel(Seq::filter, 1);
            }
            if t.seconds_until(&now) < limit {
                kept_times.push_back(t);
            }
            i = i + 1;
        }
        assert(old_times.take(old_times.len() as int) =~= old_times);
        self.times = kept_times;
    }

    /// Drops the start times older than the retention now, where the clock
    /// can be read (then `true`); else leaves the monitor as it is (`false`).
    pub fn purge(&mut self, retention: Option<u64>) -> (read: bool)
        ensures
            !read ==> final(self)@ == old(self)@,
            read ==> exists|now: SchemaCompatibleSystemTime|
                #![trigger purged(old(self)@.times, now, retention)]
                clock_reading(now) && final(self)@ == (HostMonitorView { times: purged(old(self)@.times, now, retention), ..old(self)@ }),
    {
        match SchemaCompatibleSystemTime::now() {
            Some(now) => {
                self.purge_at(retention, now);
                assert(final(self)@.times == purged(old(self)@.times, now, retention));
                true
            },
            None => false,
        }
    }
}

/// Index of the first entry whose key is `k`, or -1.
pub open spec fn key_index<V>(entries: Seq<(Seq<char>, V)>, k: Seq<char>) -> int
    decreases entries.len(),
{
    if entries.len() == 0 {
        -1
    } else if entries[0].0 == k {
        0
    } else {
        let r = key_index(entries.drop_first(), k);
        if r < 0 {
            -1
        } else {
            r + 1
        }
    }
}

/// The keys of the entries, in order.
pub open spec fn entry_keys<V>(entries: Seq<(Seq<char>, V)>) -> Seq<Seq<char>> {
    entries.map_values(|e: (Seq<char>, V)| e.0)
}

/// No key occurs twice.
pub open spec fn distinct_keys<V>(entries: Seq<(Seq<char>, V)>) -> bool {
    forall|i: int, j: int| 0 <= i < j < entries.len() ==> entries[i].0 != entries[j].0
}

/// `key_index` is -1 or the position of the first entry with the key.
pub proof fn lemma_key_index<V>(entries: Seq<(Seq<char>, V)>, k: Seq<char>)
    ensures
        -1 <= key_index(entries, k) < entries.len(),
        key_index(entries, k) >= 0 ==> entries[key_index(entries, k)].0 == k,
        forall|j: int| 0 <= j < entries.len() && (key_index(entries, k) < 0 || j < key_index(entries, k)) ==> entries[j].0 != k,
    decreases entries.len(),
{
    if entries.len() > 0 && entries[0].0 != k {
        lemma_key_index(entries.drop_first(), k);
        assert forall|j: int| 0 <= j < entries.len() && (key_index(entries, k) < 0 || j < key_index(entries, k)) implies entries[j].0 != k by {
            if j > 0 {
                assert(entries[j] == entries.drop_first()[j - 1]);
            }
        }
    }
}

/// The first entry with a key is where `key_index` finds it.
pub proof fn lemma_key_index_found<V>(entries: Seq<(Seq<char>, V)>, k: Seq<char>, i: int)
    requires
        0 <= i < entries.len(),
        entries[i].0 == k,
        forall|j: int| 0 <= j < i ==> entries[j].0 != k,
    ensures
        key_index(entries, k) == i,
    decreases i,
{
    if i > 0 {
        lemma_key_index_found(entries.drop_first(), k, i - 1);
    }
}

/// A monitored host and its monitor.
pub struct HostEntry {
    pub host: String,
    pub monitor: HostMonitor,
}

/// A monitored host and the compact form of its monitor.
pub struct HostCompactEntry {
    pub host: String,
    pub monitor: HostMonitorCompact,
}

/// The compact form of the proxy monitor.
pub struct ProxyMonitorCompact {
    pub active_connections: u16,
    pub lifetime_connections: u16,
    pub hosts: Vec<HostCompactEntry>,
}

/// The proxy-wide connection counters and the monitors of the watched hosts.
pub struct ProxyMonitor {
    pub active_connections: u16,
    pub lifetime_connections: u16,
    pub hosts: Vec<HostEntry>,
}

/// The model of the proxy monitor.
pub struct ProxyMonitorView {
    pub active_connections: u16,
    pub lifetime_connections: u16,
    pub hosts: Seq<(Seq<char>, HostMonitorView)>,
}

/// The models of the host entries.
pub open spec fn entry_views(v: Seq<HostEntry>) -> Seq<(Seq<char>, HostMonitorView)> {
    v.map_values(|e: HostEntry| (e.host@, e.monitor@))
}

impl View for ProxyMonitor {
    type V = ProxyMonitorView;

    open spec fn view(&self) -> ProxyMonitorView {
        ProxyMonitorView {
            active_connections: self.active_connections,
            lifetime_connections: self.lifetime_connections,
            hosts: entry_views(self.hosts@),
        }
    }
}

/// The host entries with the monitor of `host`, if watched, replaced by `m`.
pub open spec fn update_host(hosts: Seq<(Seq<char>, HostMonitorView)>, host: Seq<char>, m: HostMonitorView) -> Seq<(Seq<char>, HostMonitorView)> {
    let i = key_index(hosts, host);
    if i < 0 {
        hosts
    } else {
        hosts.update(i, (host, m))
    }
}

/// The monitor of `host`, if watched.
pub open spec fn host_monitor(hosts: Seq<(Seq<char>, HostMonitorView)>, host: Seq<char>) -> Option<HostMonitorView> {
    let i = key_index(hosts, host);
    if i < 0 {
        None
    } else {
        Some(hosts[i].1)
    }
}

/// A host monitor after a check-in at `now`.
pub open spec fn checked_in(m: HostMonitorView, now: SchemaCompatibleSystemTime) -> HostMonitorView {
    HostMonitorView {
        active_connections: (m.active_connections + 1) as u16,
        lifetime_connections: (m.lifetime_connections + 1) as u16,
        capacity: m.capacity,
        last: Some(now),
        times: recorded(m.times, m.capacity, now),
    }
}

/// The host entries after a check-in of `host` at `now`.
pub open spec fn hosts_checked_in(hosts: Seq<(Seq<char>, HostMonitorView)>, host: Seq<char>, now: SchemaCompatibleSystemTime) -> Seq<(Seq<char>, HostMonitorView)> {
    match host_monitor(hosts, host) {
        Some(m) => update_host(hosts, host, checked_in(m, now)),
        None => hosts,
    }
}

/// The host entries after each history was purged at `now`.
pub open spec fn hosts_purged(hosts: Seq<(Seq<char>, HostMonitorView)>, now: SchemaCompatibleSystemTime, retention: Option<u64>) -> Seq<(Seq<char>, HostMonitorView)> {
    hosts.map_values(|e: (Seq<char>, HostMonitorView)| (e.0, HostMonitorView { times: purged(e.1.times, now, retention), ..e.1 }))
}

/// A host monitor after a check-out.
pub open spec fn checked_out(m: HostMonitorView) -> HostMonitorView {
    HostMonitorView { active_connections: (m.active_connections - 1) as u16, ..m }
}

/// The check-in of `host` keeps its counters in range.
pub open spec fn host_can_check_in(hosts: Seq<(Seq<char>, HostMonitorView)>, host: Seq<char>) -> bool {
    match host_monitor(hosts, host) {
        Some(m) => m.active_connections < u16::MAX && m.lifetime_connections < u16::MAX,
        None => true,
    }
}

/// The check-out of `host` keeps its counter in range.
pub open spec fn host_can_check_out(hosts: Seq<(Seq<char>, HostMonitorView)>, host: Seq<char>) -> bool {
    match host_monitor(hosts, host) {
        Some(m) => m.active_connections > 0,
        None => true,
    }
}

/// Position of the entry for `host`, if watched.
fn find_host(hosts: &Vec<HostEntry>, host: &String) -> (r: Option<usize>)
    ensures
        match r {
            Some(i) => i < hosts.len() && key_index(entry_views(hosts@), host@) == i,
            None => key_index(entry_views(hosts@), host@) == -1,
        },
{
    let ghost es = entry_views(hosts@);
    let mut i: usize = 0;
    while i < hosts.len()
        invariant
            i <= hosts.len(),
            es == entry_views(hosts@),
            forall|j: int| 0 <= j < i ==> es[j].0 != host@,
        decreases hosts.len() - i,
    {
        if hosts[i].host == *host {
            proof {
                lemma_key_index_found(es, host@, i as int);
            }
            return Some(i);
        }
        i = i + 1;
    }
    proof {
        lemma_key_index(es, host@);
    }
    None
}

impl ProxyMonitor {
    /// A monitor of the given hosts, each once, with monitors that keep no
    /// history.
    pub fn new(monitored_hosts: Vec<String>) -> (r: Self)
        ensures
            r.active_connections == 0,
            r.lifetime_connections == 0,
            distinct_keys(r@.hosts),
            forall|i: int| 0 <= i < r@.hosts.len() ==> #[trigger] r@.hosts[i].1 == HostMonitor::new_spec(),
            entry_keys(r@.hosts).to_set() == string_views(monitored_hosts@).to_set(),
    {
        let mut hosts: Vec<HostEntry> = Vec::new();
        let mut i: usize = 0;
        while i < monitored_hosts.len()
            invariant
                i <= monitored_hosts.len(),
                distinct_keys(entry_views(hosts@)),
                forall|k: int| 0 <= k < hosts@.len() ==> #[trigger] hosts@[k].monitor@ == HostMonitor::new_spec(),
                entry_keys(entry_views(hosts@)).to_set() == string_views(monitored_hosts@.take(i as int)).to_set(),
            decreases monitored_hosts.len() - i,
        {
            let host = monitored_hosts[i].clone();
            let found = find_host(&hosts, &host);
            let ghost before = hosts@;
            let ghost hv = monitored_hosts@[i as int]@;
            proof {
                lemma_key_index(entry_views(hosts@), host@);
                assert(monitored_hosts@.take(i + 1) =~= monitored_hosts@.take(i as int).push(monitored_hosts@[i as int]));
                assert(string_views(monitored_hosts@.take(i + 1)) =~= string_views(monitored_hosts@.take(i as int)).push(hv));
                string_views(monitored_hosts@.take(i as int)).lemma_push_to_set_commute(hv);
            }
            if found.is_none() {
                hosts.push(HostEntry { host, monitor: HostMonitor::new() });
                proof {
                    assert(entry_views(hosts@) =~= entry_views(before).push((hv, HostMonitor::new_spec())));
                    assert(entry_keys(entry_views(hosts@)) =~= entry_keys(entry_views(before)).push(hv));
                    entry_keys(entry_views(before)).lemma_push_to_set_commute(hv);
                }
            } else {
                proof {
                    let k = key_index(entry_views(hosts@), host@);
                    assert(entry_keys(entry_views(hosts@))[k] == hv);
                    assert(entry_keys(entry_views(hosts@)).to_set().contains(hv));
                    assert(entry_keys(entry_views(hosts@)).to_set().insert(hv) =~= entry_keys(entry_views(hosts@)).to_set());
                }
            }
            i = i + 1;
        }
        assert(monitored_hosts@.take(monitored_hosts@.len() as int) =~= monitored_hosts@);
        ProxyMonitor { active_connections: 0, lifetime_connections: 0, hosts }
    }

    /// Records a connection to `host` that begins at `now`: the proxy-wide
    /// counters count it, and so does the monitor of `host` if it is watched.
    pub fn check_in_at(&mut self, host: &str, now: SchemaCompatibleSystemTime)
        requires
            old(self).active_connections < u16::MAX,
            old(self).lifetime_connections < u16::MAX,
            host_can_check_in(old(self)@.hosts, host@),
        ensures
            final(self)@ == (ProxyMonitorView {
                active_connections: (old(self).active_connections + 1) as u16,
                lifetime_connections: (old(self).lifetime_connections + 1) as u16,
                hosts: match host_monitor(old(self)@.hosts, host@) {
                    Some(m) => update_host(old(self)@.hosts, host@, checked_in(m, now)),
                    None => old(self)@.hosts,
                },
            }),
    {
        self.active_connections = self.active_connections + 1;
        self.lifetime_connections = self.lifetime_connections + 1;
        let h = owned(host);
        match find_host(&self.hosts, &h) {
            Some(i) => {
                let ghost before = self.hosts@;
                proof {
                    lemma_key_index(entry_views(before), h@);
                }
                let mut entry = self.hosts.remove(i);
                entry.monitor.check_in_at(now);
                self.hosts.insert(i, entry);
                proof {
                    assert(entry_views(self.hosts@) =~= entry_views(before).update(i as int, (h@, checked_in(before[i as int].monitor@, now))));
                }
            },
            None => {},
        }
    }

    /// Records a connection to `host` that begins now, where the clock can be
    /// read (then `true`); else leaves the monitor as it is (`false`).
    pub fn check_in(&mut self, host: &str) -> (read: bool)
        requires
            old(self).active_connections < u16::MAX,
            old(self).lifetime_connections < u16::MAX,
            host_can_check_in(old(self)@.hosts, host@),
        ensures
            !read ==> final(self)@ == old(self)@,
            read ==> final(self).active_connections == old(self).active_connections + 1,
            read ==> final(self).lifetime_connections == old(self).lifetime_connections + 1,
            read ==> exists|now: SchemaCompatibleSystemTime|
                clock_reading(now) && final(self)@.hosts == #[trigger] hosts_checked_in(old(self)@.hosts, host@, now),
    {
        match SchemaCompatibleSystemTime::now() {
            Some(now) => {
                self.check_in_at(host, now);
                assert(final(self)@.hosts == hosts_checked_in(old(self)@.hosts, host@, now));
                true
            },
            None => false,
        }
    }

    /// Records the end of a connection to `host`.
    pub fn check_out(&mut self, host: &str)
        requires
            old(self).active_connections > 0,
            host_can_check_out(old(self)@.hosts, host@),
        ensures
            final(self)@ == (ProxyMonitorView {
                active_connections: (old(self).active_connections - 1) as u16,
                lifetime_connections: old(self).lifetime_connections,
                hosts: match host_monitor(old(self)@.hosts, host@) {
                    Some(m) => update_host(old(self)@.hosts, host@, checked_out(m)),
                    None => old(self)@.hosts,
                },
            }),
    {
        self.active_connections = self.active_connections - 1;
        let h = owned(host);
        match find_host(&self.hosts, &h) {
            Some(i) => {
                let ghost before = self.hosts@;
                proof {
                    lemma_key_index(entry_views(before), h@);
                }
                let mut entry = self.hosts.remove(i);
                entry.monitor.check_out();
                self.hosts.insert(i, entry);
                proof {
                    assert(entry_views(self.hosts@) =~= entry_views(before).update(i as int, (h@, checked_out(before[i as int].monitor@))));
                }
            },
            None => {},
        }
    }

    /// The counters, and the compact form of each host's monitor.
    pub fn compact(&self) -> (r: ProxyMonitorCompact)
        ensures
            r.active_connections == self.active_connections,
            r.lifetime_connections == self.lifetime_connections,
            r.hosts@.len() == self.hosts@.len(),
            forall|i: int| 0 <= i < r.hosts@.len() ==> {
                &&& #[trigger] r.hosts@[i].host@ == self.hosts@[i].host@
                &&& r.hosts@[i].monitor.active_connections == self.hosts@[i].monitor.active_connections
                &&& r.hosts@[i].monitor.lifetime_connections == self.hosts@[i].monitor.lifetime_connections
                &&& r.hosts@[i].monitor.last == self.hosts@[i].monitor.last
            },
    {
        let mut hosts: Vec<HostCompactEntry> = Vec::new();
        let mut i: usize = 0;
        while i < self.hosts.len()
            invariant
                i <= self.hosts.len(),
                hosts@.len() == i,
                forall|k: int| 0 <= k < i ==> {
                    &&& #[trigger] hosts@[k].host@ == self.hosts@[k].host@
                    &&& hosts@[k].monitor.active_connections == self.hosts@[k].monitor.active_connections
                    &&& hosts@[k].monitor.lifetime_connections == self.hosts@[k].monitor.lifetime_connections
                    &&& hosts@[k].monitor.last == self.hosts@[k].monitor.last
                },
            decreases self.hosts.len() - i,
        {
            hosts.push(HostCompactEntry { host: self.hosts[i].host.clone(), monitor: self.hosts[i].monitor.compact() });
            i = i + 1;
        }
        ProxyMonitorCompact { active_connections: self.active_connections, lifetime_connections: self.lifetime_connections, hosts }
    }

    /// Drops, in each host's history, the start times older than the
    /// retention at `now`.
    pub fn purge_at(&mut self, retention: Option<u64>, now: SchemaCompatibleSystemTime)
        ensures
            final(self).active_connections == old(self).active_connections,
            final(self).lifetime_connections == old(self).lifetime_connections,
            final(self)@.hosts == hosts_purged(old(self)@.hosts, now, retention),
    {
        let ghost before = entry_views(self.hosts@);
        let mut i: usize = 0;
        while i < self.hosts.len()
            invariant
                i <= self.hosts.len(),
                self.active_connections == old(self).active_connections,
                self.lifetime_connections == old(self).lifetime_connections,
                before == entry_views(old(self).hosts@),
                entry_views(self.hosts@).len() == before.len(),
                forall|k: int| 0 <= k < before.len() ==> #[trigger] entry_views(self.hosts@)[k] == if k < i {
                    (before[k].0, HostMonitorView { times: purged(before[k].1.times, now, retention), ..before[k].1 })
                } else {
                    before[k]
                },
            decreases self.hosts.len() - i,
        {
            let ghost cur = self.hosts@;
            let mut entry = self.hosts.remove(i);
            let ghost old_entry = entry;
            entry.monitor.purge_at(retention, now);
            let ghost new_entry = entry;
            self.hosts.insert(i, entry);
            proof {
                assert(entry_views(cur)[i as int] == before[i as int]);
                assert(self.hosts@[i as int] == new_entry);
                assert(entry_views(self.hosts@)[i as int] == (new_entry.host@, new_entry.monitor@));
                assert forall|k: int| 0 <= k < before.len() implies #[trigger] entry_views(self.hosts@)[k] == if k < i + 1 {
                    (before[k].0, HostMonitorView { times: purged(before[k].1.times, now, retention), ..before[k].1 })
                } else {
                    before[k]
                } by {
                    if k != i {
                        assert(self.hosts@[k] == cur[k]);
                        assert(entry_views(cur)[k] == entry_views(self.hosts@)[k]);
                    }
                }
            }
            i = i + 1;
        }
    }

    /// Drops, in each host's history, the start times older than the
    /// retention now, where the clock can be read (then `true`); else leaves
    /// the monitor as it is (`false`).
    pub fn purge(&mut self, retention: Option<u64>) -> (read: bool)
        ensures
            final(self).active_connections == old(self).active_connections,
            final(self).lifetime_connections == old(self).lifetime_connections,
            !read ==> final(self)@ == old(self)@,
            read ==> exists|now: SchemaCompatibleSystemTime|
                clock_reading(now) && final(self)@.hosts == #[trigger] hosts_purged(old(self)@.hosts, now, retention),
    {
        match SchemaCompatibleSystemTime::now() {
            Some(now) => {
                self.purge_at(retention, now);
                true
            },
            None => false,
        }
    }
}

/// The standard library's system clock reading, carried as an opaque value.
#[verifier::external_type_specification]
#[verifier::external_body]
pub struct ExSystemTime(SystemTime);

/// The standard library's error for a reading before the Unix epoch, carried
/// as an opaque value.
#[verifier::external_type_specification]
#[verifier::external_body]
pub struct ExSystemTimeError(SystemTimeError);

/// Reads the system clock.
/// Trusted: std's `SystemTime::now`; nothing is stated of the reading.
#[verifier::external_body]
fn system_time_now() -> (t: SystemTime) {
    SystemTime::now()
}

/// The span from the Unix epoch to `t`.
/// Trusted: std's `SystemTime::duration_since` with `UNIX_EPOCH`: the span
/// after the epoch, or, for a reading before it, an error that holds the span
/// before it. Nothing is stated of the spans or of which case comes.
#[verifier::external_body]
fn since_unix_epoch(t: &SystemTime) -> (r: Result<Duration, SystemTimeError>) {
    t.duration_since(UNIX_EPOCH)
}

/// The span that the error of a reading before the epoch holds.
/// Trusted: std's `SystemTimeError::duration`; nothing is stated of it.
#[verifier::external_body]
fn error_span(e: &SystemTimeError) -> (d: Duration) {
    e.duration()
}

/// The whole seconds of a span.
/// Trusted: std's `Duration::as_secs`; nothing is stated of them.
#[verifier::external_body]
fn span_secs(d: &Duration) -> (s: u64) {
    d.as_secs()
}

/// The nanoseconds of a span past its whole seconds.
/// Trusted: std's `Duration::subsec_nanos`, which its documentation says is
/// always below one billion.
#[verifier::external_body]
fn span_subsec_nanos(d: &Duration) -> (n: u32)
    ensures
        n < 1_000_000_000,
{
    d.subsec_nanos()
}

/// A reading of the system clock: whole seconds from the Unix epoch
/// (negative before it) and the nanoseconds past them.
#[derive(Debug, Clone, Copy, PartialEq, Eq, Structural)]
pub struct SystemInstant {
    pub secs: i128,
    pub nanos: u32,
}

/// `a` is later than `b`, seconds first, then nanoseconds.
pub open spec fn later(a: SystemInstant, b: SystemInstant) -> bool {
    a.secs > b.secs || (a.secs == b.secs && a.nanos > b.nanos)
}

/// The instant in nanoseconds since the Unix epoch.
pub open spec fn system_nanos(t: SystemInstant) -> int {
    t.secs * 1_000_000_000 + t.nanos
}

/// What a reading of the system clock can be: a span of whole seconds that
/// fits in 64 bits before or after the epoch, and the nanoseconds below one
/// second.
pub open spec fn system_reading(t: SystemInstant) -> bool {
    &&& t.nanos < 1_000_000_000
    &&& -(u64::MAX as int) - 1 <= t.secs <= u64::MAX
}

/// The instant `secs` seconds and `nanos` nanoseconds after the epoch, or
/// before it.
pub open spec fn epoch_span(after: bool, secs: u64, nanos: u32) -> SystemInstant {
    if after {
        SystemInstant { secs: secs as i128, nanos }
    } else if nanos == 0 {
        SystemInstant { secs: -(secs as int) as i128, nanos: 0 }
    } else {
        SystemInstant { secs: (-(secs as int) - 1) as i128, nanos: (1_000_000_000 - nanos) as u32 }
    }
}

impl SystemInstant {
    /// The instant `secs` seconds and `nanos` nanoseconds after the Unix
    /// epoch (`after`) or before it.
    pub fn from_epoch_span(after: bool, secs: u64, nanos: u32) -> (t: Self)
        requires
            nanos < 1_000_000_000,
        ensures
            t == epoch_span(after, secs, nanos),
            system_reading(t),
            after ==> system_nanos(t) == secs * 1_000_000_000 + nanos,
            !after ==> system_nanos(t) == -(secs * 1_000_000_000 + nanos),
    {
        if after {
            SystemInstant { secs: secs as i128, nanos }
        } else if nanos == 0 {
            SystemInstant { secs: -(secs as i128), nanos: 0 }
        } else {
            SystemInstant { secs: -(secs as i128) - 1, nanos: 1_000_000_000 - nanos }
        }
    }

    /// The current time of the system clock.
    pub fn now() -> (t: Self)
        ensures
            system_reading(t),
    {
        let reading = system_time_now();
        match since_unix_epoch(&reading) {
            Ok(d) => SystemInstant::from_epoch_span(true, span_secs(&d), span_subsec_nanos(&d)),
            Err(e) => {
                let d = error_span(&e);
                SystemInstant::from_epoch_span(false, span_secs(&d), span_subsec_nanos(&d))
            },
        }
    }
}

/// A rotation every `interval` seconds: the last one, and the earliest time
/// of the next.
pub struct TimedProxyRotation {
    pub interval: u64,
    pub last_rotation: SystemInstant,
    pub next_rotation: SystemInstant,
}

/// `t` moved `secs` seconds ahead.
pub open spec fn plus_secs(t: SystemInstant, secs: u64) -> SystemInstant {
    SystemInstant { secs: (t.secs + secs) as i128, nanos: t.nanos }
}

/// Moving `t` by `secs` seconds stays in the range of the instants' seconds.
pub open spec fn fits_ahead(t: SystemInstant, secs: u64) -> bool {
    t.secs + secs <= i128::MAX
}

fn add_secs(t: SystemInstant, secs: u64) -> (r: SystemInstant)
    requires
        fits_ahead(t, secs),
    ensures
        r == plus_secs(t, secs),
{
    SystemInstant { secs: t.secs + secs as i128, nanos: t.nanos }
}

impl TimedProxyRotation {
    /// A rotation every `interval` seconds, counted from `now`.
    pub fn new_at(interval: u64, now: SystemInstant) -> (r: Self)
        requires
            fits_ahead(now, interval),
        ensures
            r.interval == interval,
            r.last_rotation == now,
            r.next_rotation == plus_secs(now, interval),
    {
        TimedProxyRotation { interval, last_rotation: now, next_rotation: add_secs(now, interval) }
    }

    /// A rotation every `interval` seconds, counted from a reading of the
    /// system clock.
    pub fn new(interval: u64) -> (r: Self)
        ensures
            r.interval == interval,
            system_reading(r.last_rotation),
            r.next_rotation == plus_secs(r.last_rotation, interval),
    {
        let now = SystemInstant::now();
        TimedProxyRotation::new_at(interval, now)
    }
}

/// A rotation after every `rotation_count` requests.
pub struct RequestCountProxyRotation {
    pub request_count: u16,
    pub rotation_count: u16,
    pub last_rotation: SystemInstant,
}

impl RequestCountProxyRotation {
    /// A rotation after every `rotation_count` requests, none counted yet,
    /// the last rotation at `now`.
    pub fn new_at(rotation_count: u16, now: SystemInstant) -> (r: Self)
        ensures
            r.request_count == 0,
            r.rotation_count == rotation_count,
            r.last_rotation == now,
    {
        RequestCountProxyRotation { request_count: 0, rotation_count, last_rotation: now }
    }

    /// A rotation after every `rotation_count` requests, none counted yet,
    /// the last rotation at a reading of the system clock.
    pub fn new(rotation_count: u16) -> (r: Self)
        ensures
            r.request_count == 0,
            r.rotation_count == rotation_count,
            system_reading(r.last_rotation),
    {
        let now = SystemInstant::now();
        RequestCountProxyRotation::new_at(rotation_count, now)
    }
}

/// When the proxy rotates its VPN connection.
pub enum ProxyRotationMode {
    Timed(TimedProxyRotation),
    RequestCount(RequestCountProxyRotation),
    Manual,
}

/// A policy can take one more check: the request counter does not overflow.
pub open spec fn can_call(mode: ProxyRotationMode) -> bool {
    match mode {
        ProxyRotationMode::RequestCount(r) => r.request_count < u16::MAX,
        _ => true,
    }
}

/// Whether a check at `now` finds a rotation due: past the next rotation
/// time, or with the counted requests (this one included) reaching the count;
/// never for manual rotation.
pub open spec fn call_due(mode: ProxyRotationMode, now: SystemInstant) -> bool {
    match mode {
        ProxyRotationMode::Timed(t) => later(now, t.next_rotation),
        ProxyRotationMode::RequestCount(r) => r.request_count + 1 >= r.rotation_count,
        ProxyRotationMode::Manual => false,
    }
}

/// The policy after a check: the request is counted where requests are.
pub open spec fn after_call(mode: ProxyRotationMode) -> ProxyRotationMode {
    match mode {
        ProxyRotationMode::RequestCount(r) => ProxyRotationMode::RequestCount(RequestCountProxyRotation {
            request_count: (r.request_count + 1) as u16,
            ..r
        }),
        _ => mode,
    }
}

/// Recording a rotation at `now` stays in the clock's range.
pub open spec fn can_record(mode: ProxyRotationMode, now: SystemInstant) -> bool {
    match mode {
        ProxyRotationMode::Timed(t) => fits_ahead(now, t.interval),
        _ => true,
    }
}

/// The policy after a successful rotation at `now`: the next timed rotation
/// one interval later, or the request count back to zero.
pub open spec fn after_rotation(mode: ProxyRotationMode, now: SystemInstant) -> ProxyRotationMode {
    match mode {
        ProxyRotationMode::Timed(t) => ProxyRotationMode::Timed(TimedProxyRotation {
            interval: t.interval,
            last_rotation: now,
            next_rotation: plus_secs(now, t.interval),
        }),
        ProxyRotationMode::RequestCount(r) => ProxyRotationMode::RequestCount(RequestCountProxyRotation {
            request_count: 0,
            rotation_count: r.rotation_count,
            last_rotation: now,
        }),
        ProxyRotationMode::Manual => mode,
    }
}

impl ProxyRotationMode {
    /// Checks, at `now`, whether a rotation is due, counting the request
    /// where requests are counted.
    pub fn call(&mut self, now: SystemInstant) -> (due: bool)
        requires
            can_call(*old(self)),
        ensures
            due == call_due(*old(self), now),
            *final(self) == after_call(*old(self)),
    {
        match self {
            ProxyRotationMode::Timed(t) => {
                now.secs > t.next_rotation.secs || (now.secs == t.next_rotation.secs && now.nanos
                    > t.next_rotation.nanos)
            },
            ProxyRotationMode::RequestCount(r) => {
                r.request_count = r.request_count + 1;
                r.request_count >= r.rotation_count
            },
            ProxyRotationMode::Manual => false,
        }
    }

    /// The policy that a rotation interval in seconds selects: manual
    /// rotation for 0, else a rotation every `interval` seconds counted from
    /// a reading of the system clock.
    pub fn for_interval(interval: u16) -> (r: Self)
        ensures
            interval == 0 ==> r is Manual,
            interval > 0 ==> (r matches ProxyRotationMode::Timed(t) && {
                &&& t.interval == interval
                &&& system_reading(t.last_rotation)
                &&& t.next_rotation == plus_secs(t.last_rotation, interval as u64)
            }),
    {
        if interval > 0 {
            ProxyRotationMode::Timed(TimedProxyRotation::new(interval as u64))
        } else {
            ProxyRotationMode::Manual
        }
    }

    /// Records a successful rotation at `now`.
    pub fn rotated(&mut self, now: SystemInstant)
        requires
            can_record(*old(self), now),
        ensures
            *final(self) == after_rotation(*old(self), now),
    {
        match self {
            ProxyRotationMode::Timed(t) => {
                t.last_rotation = now;
                t.next_rotation = add_secs(now, t.interval);
            },
            ProxyRotationMode::RequestCount(r) => {
                r.last_rotation = now;
                r.request_count = 0;
            },
            ProxyRotationMode::Manual => {},
        }
    }
}

impl HostMonitor {
    /// A copy of the monitor.
    pub fn duplicate(&self) -> (r: Self)
        ensures
            r@ == self@,
    {
        let mut times: VecDeque<SchemaCompatibleSystemTime> = VecDeque::new();
        let mut i: usize = 0;
        while i < self.times.len()
            invariant
                i <= self.times@.len(),
                times@ == self.times@.take(i as int),
            decreases self.times.len() - i,
        {
            times.push_back(self.times[i]);
            proof {
                assert(self.times@.take(i + 1) =~= self.times@.take(i as int).push(self.times@[i as int]));
            }
            i = i + 1;
        }
        assert(self.times@.take(self.times@.len() as int) =~= self.times@);
        HostMonitor {
            active_connections: self.active_connections,
            lifetime_connections: self.lifetime_connections,
            capacity: self.capacity,
            last: self.last,
            times,
        }
    }
}

impl ProxyMonitor {
    /// A copy of the monitor.
    pub fn duplicate(&self) -> (r: Self)
        ensures
            r@ == self@,
    {
        let mut hosts: Vec<HostEntry> = Vec::new();
        let mut i: usize = 0;
        while i < self.hosts.len()
            invariant
                i <= self.hosts@.len(),
                entry_views(hosts@) == entry_views(self.hosts@).take(i as int),
            decreases self.hosts.len() - i,
        {
            let ghost before = hosts@;
            hosts.push(HostEntry { host: self.hosts[i].host.clone(), monitor: self.hosts[i].monitor.duplicate() });
            proof {
                assert(entry_views(hosts@) =~= entry_views(before).push(entry_views(self.hosts@)[i as int]));
                assert(entry_views(self.hosts@).take(i + 1) =~= entry_views(self.hosts@).take(i as int).push(entry_views(self.hosts@)[i as int]));
            }
            i = i + 1;
        }
        assert(entry_views(self.hosts@).take(self.hosts@.len() as int) =~= entry_views(self.hosts@));
        ProxyMonitor { active_connections: self.active_connections, lifetime_connections: self.lifetime_connections, hosts }
    }
}

/// A client connection to the proxy, by peer address, and when it began.
pub struct InboundConnection {
    pub peer: String,
    pub since: SchemaCompatibleSystemTime,
}

/// The models of the inbound connections.
pub open spec fn inbound_views(v: Seq<InboundConnection>) -> Seq<(Seq<char>, SchemaCompatibleSystemTime)> {
    v.map_values(|c: InboundConnection| (c.peer@, c.since))
}

/// The entries with `k` bound to `v`: its entry updated if it has one, else
/// a new entry at the end.
pub open spec fn insert_key<V>(entries: Seq<(Seq<char>, V)>, k: Seq<char>, v: V) -> Seq<(Seq<char>, V)> {
    let i = key_index(entries, k);
    if i < 0 {
        entries.push((k, v))
    } else {
        entries.update(i, (k, v))
    }
}

/// The entries without the entry of `k`.
pub open spec fn remove_key<V>(entries: Seq<(Seq<char>, V)>, k: Seq<char>) -> Seq<(Seq<char>, V)> {
    let i = key_index(entries, k);
    if i < 0 {
        entries
    } else {
        entries.remove(i)
    }
}

fn copy_inbound(v: &Vec<InboundConnection>) -> (r: Vec<InboundConnection>)
    ensures
        inbound_views(r@) == inbound_views(v@),
{
    let mut r: Vec<InboundConnection> = Vec::new();
    let mut i: usize = 0;
    while i < v.len()
        invariant
            i <= v@.len(),
            inbound_views(r@) == inbound_views(v@).take(i as int),
        decreases v.len() - i,
    {
        let ghost before = r@;
        r.push(InboundConnection { peer: v[i].peer.clone(), since: v[i].since });
        proof {
            assert(inbound_views(r@) =~= inbound_views(before).push(inbound_views(v@)[i as int]));
            assert(inbound_views(v@).take(i + 1) =~= inbound_views(v@).take(i as int).push(inbound_views(v@)[i as int]));
        }
        i = i + 1;
    }
    assert(inbound_views(v@).take(v@.len() as int) =~= inbound_views(v@));
    r
}

fn find_peer(v: &Vec<InboundConnection>, peer: &String) -> (r: Option<usize>)
    ensures
        match r {
            Some(i) => i < v.len() && key_index(inbound_views(v@), peer@) == i,
            None => key_index(inbound_views(v@), peer@) == -1,
        },
{
    let ghost es = inbound_views(v@);
    let mut i: usize = 0;
    while i < v.len()
        invariant
            i <= v.len(),
            es == inbound_views(v@),
            forall|j: int| 0 <= j < i ==> es[j].0 != peer@,
        decreases v.len() - i,
    {
        if v[i].peer == *peer {
            proof {
                lemma_key_index_found(es, peer@, i as int);
            }
            return Some(i);
        }
        i = i + 1;
    }
    proof {
        lemma_key_index(es, peer@);
    }
    None
}

/// The full report of the proxy's state.
pub struct ProxyStatus {
    pub drained: bool,
    pub inbound_connections: Vec<InboundConnection>,
    pub inflight_connection_count: u16,
    pub inflight_connect_requests: u16,
    pub monitor: ProxyMonitor,
}

/// The compact report of the proxy's state.
pub struct ProxyStatusCompact {
    pub drained: bool,
    pub inbound_connections: Vec<InboundConnection>,
    pub inflight_connections: u16,
    pub inflight_connect_requests: u16,
    pub monitor: ProxyMonitorCompact,
}

/// The (empty) report of a sanitation.
pub struct ProxyStatusSanitizerResult {}

/// The outcome of a rotation and the time of the last successful one.
pub struct ProxyRotateResult {
    pub success: bool,
    pub last_rotation: SchemaCompatibleSystemTime,
}

/// The drain state before and after a change.
pub struct ProxySettingsDrainUpdate {
    pub before: bool,
    pub after: bool,
}

impl ProxySettingsDrainUpdate {
    pub fn new(before: bool, after: bool) -> (r: Self)
        ensures
            r.before == before,
            r.after == after,
    {
        ProxySettingsDrainUpdate { before, after }
    }
}

/// The rotation interval before and after a change.
pub struct ProxySettingsRotationIntervalUpdate {
    pub before: u16,
    pub after: u16,
}

/// The rotation policy, and how often a rotation may retry.
pub struct ProxySetting {
    pub rotation: ProxyRotationMode,
    pub rotation_retries: u8,
}

/// The proxy's state: its VPN client, whether it is drained (refuses new
/// work while the VPN connection changes), its client connections by peer,
/// the in-flight counters, the host monitors, the last rotation and the
/// rotation settings.
pub struct ProxyState {
    pub nordvpn: NordVPN,
    pub drained: bool,
    inbound_connections: Vec<InboundConnection>,
    inflight_connections: u16,
    inflight_connect_requests: u16,
    monitor: ProxyMonitor,
    last_rotation: SchemaCompatibleSystemTime,
    pub settings: ProxySetting,
}

/// The model of the proxy's state.
pub struct ProxyStateView {
    pub nordvpn: NordVpnView,
    pub drained: bool,
    pub inbound: Seq<(Seq<char>, SchemaCompatibleSystemTime)>,
    pub inflight_connections: u16,
    pub inflight_connect_requests: u16,
    pub monitor: ProxyMonitorView,
    pub last_rotation: SchemaCompatibleSystemTime,
    pub rotation: ProxyRotationMode,
    pub rotation_retries: u8,
}

impl View for ProxyState {
    type V = ProxyStateView;

    closed spec fn view(&self) -> ProxyStateView {
        ProxyStateView {
            nordvpn: self.nordvpn@,
            drained: self.drained,
            inbound: inbound_views(self.inbound_connections@),
            inflight_connections: self.inflight_connections,
            inflight_connect_requests: self.inflight_connect_requests,
            monitor: self.monitor@,
            last_rotation: self.last_rotation,
            rotation: self.settings.rotation,
            rotation_retries: self.settings.rotation_retries,
        }
    }
}

impl ProxyMonitor {
    /// Whether a connection to `host` can be counted without overflow.
    pub fn can_check_in(&self, host: &str) -> (b: bool)
        ensures
            b == (self.active_connections < u16::MAX && self.lifetime_connections < u16::MAX
                && host_can_check_in(self@.hosts, host@)),
    {
        if self.active_connections == u16::MAX || self.lifetime_connections == u16::MAX {
            return false;
        }
        let h = owned(host);
        match find_host(&self.hosts, &h) {
            Some(i) => {
                proof {
                    lemma_key_index(entry_views(self.hosts@), h@);
                }
                self.hosts[i].monitor.active_connections < u16::MAX
                    && self.hosts[i].monitor.lifetime_connections < u16::MAX
            },
            None => true,
        }
    }

    /// Whether the end of a connection to `host` can be counted without
    /// underflow.
    pub fn can_check_out(&self, host: &str) -> (b: bool)
        ensures
            b == (self.active_connections > 0 && host_can_check_out(self@.hosts, host@)),
    {
        if self.active_connections == 0 {
            return false;
        }
        let h = owned(host);
        match find_host(&self.hosts, &h) {
            Some(i) => {
                proof {
                    lemma_key_index(entry_views(self.hosts@), h@);
                }
                self.hosts[i].monitor.active_connections > 0
            },
            None => true,
        }
    }
}

impl ProxyState {
    /// Whether a client connection can be counted without overflow.
    pub fn can_add_connection(&self) -> (b: bool)
        ensures
            b == (self@.inflight_connections < u16::MAX),
    {
        self.inflight_connections < u16::MAX
    }

    /// Whether the end of a client connection can be counted: a connection is
    /// in flight and the rotation check's request counter does not overflow.
    pub fn can_remove_connection(&self) -> (b: bool)
        ensures
            b == (self@.inflight_connections > 0 && can_call(self@.rotation)),
    {
        self.inflight_connections > 0 && match &self.settings.rotation {
            ProxyRotationMode::RequestCount(r) => r.request_count < u16::MAX,
            _ => true,
        }
    }

    /// Whether a tunnel request to `host` can be counted without overflow.
    pub fn can_add_connect_request(&self, host: &str) -> (b: bool)
        ensures
            b == (self@.monitor.active_connections < u16::MAX && self@.monitor.lifetime_connections
                < u16::MAX && host_can_check_in(self@.monitor.hosts, host@) && self@.inflight_connect_requests < u16::MAX),
    {
        self.monitor.can_check_in(host) && self.inflight_connect_requests < u16::MAX
    }

    /// Whether the end of a tunnel request to `host` can be counted without
    /// underflow.
    pub fn can_remove_connect_request(&self, host: &str) -> (b: bool)
        ensures
            b == (self@.monitor.active_connections > 0 && host_can_check_out(self@.monitor.hosts, host@)
                && self@.inflight_connect_requests > 0),
    {
        self.monitor.can_check_out(host) && self.inflight_connect_requests > 0
    }

    /// Whether a rotation at `now` can be recorded in the policy without
    /// leaving the clock's range.
    pub fn can_record_rotation(&self, now: SystemInstant) -> (b: bool)
        ensures
            b == can_record(self@.rotation, now),
    {
        match &self.settings.rotation {
            ProxyRotationMode::Timed(t) => now.secs <= i128::MAX - (t.interval as i128),
            _ => true,
        }
    }

    /// A fresh, active proxy state that watches the given hosts, its last
    /// rotation at `now`, and three retries per rotation.
    pub fn new_at(nordvpn: NordVPN, monitored_hosts: Vec<String>, rotation: ProxyRotationMode, now: SchemaCompatibleSystemTime) -> (r: Self)
        ensures
            r@.nordvpn == nordvpn@,
            !r@.drained,
            r@.inbound.len() == 0,
            r@.inflight_connections == 0,
            r@.inflight_connect_requests == 0,
            r@.monitor.active_connections == 0,
            r@.monitor.lifetime_connections == 0,
            distinct_keys(r@.monitor.hosts),
            forall|i: int| 0 <= i < r@.monitor.hosts.len() ==> #[trigger] r@.monitor.hosts[i].1 == HostMonitor::new_spec(),
            entry_keys(r@.monitor.hosts).to_set() == string_views(monitored_hosts@).to_set(),
            r@.last_rotation == now,
            r@.rotation == rotation,
            r@.rotation_retries == 3,
    {
        ProxyState {
            nordvpn,
            drained: false,
            inbound_connections: Vec::new(),
            inflight_connections: 0,
            inflight_connect_requests: 0,
            monitor: ProxyMonitor::new(monitored_hosts),
            last_rotation: now,
            settings: ProxySetting { rotation, rotation_retries: 3 },
        }
    }

    /// A fresh, active proxy state that watches the given hosts, its last
    /// rotation now; `None` where the clock cannot be read.
    pub fn new(nordvpn: NordVPN, monitored_hosts: Vec<String>, rotation: ProxyRotationMode) -> (r: Option<Self>)
        ensures
            r matches Some(r) ==> {
                &&& r@.nordvpn == nordvpn@
                &&& !r@.drained
                &&& r@.inbound.len() == 0
                &&& r@.inflight_connections == 0
                &&& r@.inflight_connect_requests == 0
                &&& r@.monitor.active_connections == 0
                &&& r@.monitor.lifetime_connections == 0
                &&& distinct_keys(r@.monitor.hosts)
                &&& forall|i: int| 0 <= i < r@.monitor.hosts.len() ==> #[trigger] r@.monitor.hosts[i].1 == HostMonitor::new_spec()
                &&& entry_keys(r@.monitor.hosts).to_set() == string_views(monitored_hosts@).to_set()
                &&& clock_reading(r@.last_rotation)
                &&& r@.rotation == rotation
                &&& r@.rotation_retries == 3
            },
    {
        match SchemaCompatibleSystemTime::now() {
            Some(now) => Some(ProxyState::new_at(nordvpn, monitored_hosts, rotation, now)),
            None => None,
        }
    }

    /// The compact report: the drain state, the client connections, the
    /// counters and the compact monitor.
    pub fn compact_status(&self) -> (r: ProxyStatusCompact)
        ensures
            r.drained == self@.drained,
            inbound_views(r.inbound_connections@) == self@.inbound,
            r.inflight_connections == self@.inflight_connections,
            r.inflight_connect_requests == self@.inflight_connect_requests,
            r.monitor.active_connections == self@.monitor.active_connections,
            r.monitor.lifetime_connections == self@.monitor.lifetime_connections,
            r.monitor.hosts@.len() == self@.monitor.hosts.len(),
            forall|i: int| 0 <= i < r.monitor.hosts@.len() ==> {
                &&& #[trigger] r.monitor.hosts@[i].host@ == self@.monitor.hosts[i].0
                &&& r.monitor.hosts@[i].monitor.active_connections == self@.monitor.hosts[i].1.active_connections
                &&& r.monitor.hosts@[i].monitor.lifetime_connections == self@.monitor.hosts[i].1.lifetime_connections
                &&& r.monitor.hosts@[i].monitor.last == self@.monitor.hosts[i].1.last
            },
    {
        let monitor = self.monitor.compact();
        proof {
            assert forall|i: int| 0 <= i < monitor.hosts@.len() implies {
                &&& #[trigger] monitor.hosts@[i].host@ == self@.monitor.hosts[i].0
                &&& monitor.hosts@[i].monitor.active_connections == self@.monitor.hosts[i].1.active_connections
                &&& monitor.hosts@[i].monitor.lifetime_connections == self@.monitor.hosts[i].1.lifetime_connections
                &&& monitor.hosts@[i].monitor.last == self@.monitor.hosts[i].1.last
            } by {
                assert(entry_views(self.monitor.hosts@)[i] == (self.monitor.hosts@[i].host@, self.monitor.hosts@[i].monitor@));
                assert(monitor.hosts@[i].host@ == self.monitor.hosts@[i].host@);
            }
        }
        ProxyStatusCompact {
            drained: self.drained,
            inbound_connections: copy_inbound(&self.inbound_connections),
            inflight_connections: self.inflight_connections,
            inflight_connect_requests: self.inflight_connect_requests,
            monitor,
        }
    }

    /// Drops the host histories' start times older than the retention at
    /// `now`.
    pub fn purge_at(&mut self, retention: Option<u64>, now: SchemaCompatibleSystemTime)
        ensures
            final(self)@ == (ProxyStateView {
                monitor: ProxyMonitorView { hosts: hosts_purged(old(self)@.monitor.hosts, now, retention), ..old(self)@.monitor },
                ..old(self)@
            }),
    {
        self.monitor.purge_at(retention, now);
    }

    /// Drops the host histories' start times older than the retention now,
    /// where the clock can be read (then `true`); else leaves the state as it
    /// is (`false`).
    pub fn purge(&mut self, retention: Option<u64>) -> (read: bool)
        ensures
            !read ==> final(self)@ == old(self)@,
            read ==> exists|now: SchemaCompatibleSystemTime|
                clock_reading(now) && final(self)@ == #[trigger] state_purged(old(self)@, now, retention),
    {
        match SchemaCompatibleSystemTime::now() {
            Some(now) => {
                self.purge_at(retention, now);
                assert(final(self)@ == state_purged(old(self)@, now, retention));
                true
            },
            None => false,
        }
    }

    /// Purges the host histories now, where the clock can be read (then
    /// `true`); else leaves the state as it is (`false`).
    pub fn sanitize(&mut self, retention: Option<u64>) -> (read: bool)
        ensures
            !read ==> final(self)@ == old(self)@,
            read ==> exists|now: SchemaCompatibleSystemTime|
                clock_reading(now) && final(self)@ == #[trigger] state_purged(old(self)@, now, retention),
    {
        self.purge(retention)
    }

    /// The full report: the drain state, the client connections, the counters
    /// and the monitor.
    pub fn status(&self) -> (r: ProxyStatus)
        ensures
            r.drained == self@.drained,
            inbound_views(r.inbound_connections@) == self@.inbound,
            r.inflight_connection_count == self@.inflight_connections,
            r.inflight_connect_requests == self@.inflight_connect_requests,
            r.monitor@ == self@.monitor,
    {
        ProxyStatus {
            drained: self.drained,
            inbound_connections: copy_inbound(&self.inbound_connections),
            inflight_connection_count: self.inflight_connections,
            inflight_connect_requests: self.inflight_connect_requests,
            monitor: self.monitor.duplicate(),
        }
    }

    /// Records a client connection from `peer` that began at `now` and counts
    /// it in flight.
    pub fn add_connection_at(&mut self, peer: String, now: SchemaCompatibleSystemTime)
        requires
            old(self)@.inflight_connections < u16::MAX,
        ensures
            final(self)@ == (ProxyStateView {
                inbound: insert_key(old(self)@.inbound, peer@, now),
                inflight_connections: (old(self)@.inflight_connections + 1) as u16,
                ..old(self)@
            }),
    {
        let ghost before = self.inbound_connections@;
        match find_peer(&self.inbound_connections, &peer) {
            Some(i) => {
                self.inbound_connections.set(i, InboundConnection { peer, since: now });
                proof {
                    assert(inbound_views(self.inbound_connections@) =~= inbound_views(before).update(i as int, (peer@, now)));
                }
            },
            None => {
                self.inbound_connections.push(InboundConnection { peer, since: now });
                proof {
                    assert(inbound_views(self.inbound_connections@) =~= inbound_views(before).push((peer@, now)));
                }
            },
        }
        self.inflight_connections = self.inflight_connections + 1;
    }

    /// Records a client connection from `peer` that begins now, where the
    /// clock can be read (then `true`); else leaves the state as it is
    /// (`false`).
    pub fn add_connection(&mut self, peer: String) -> (read: bool)
        requires
            old(self)@.inflight_connections < u16::MAX,
        ensures
            !read ==> final(self)@ == old(self)@,
            read ==> exists|now: SchemaCompatibleSystemTime|
                clock_reading(now) && final(self)@ == #[trigger] connection_added(old(self)@, peer@, now),
    {
        let ghost p = peer@;
        match SchemaCompatibleSystemTime::now() {
            Some(now) => {
                self.add_connection_at(peer, now);
                assert(final(self)@ == connection_added(old(self)@, p, now));
                true
            },
            None => false,
        }
    }

    /// Forgets the client connection from `peer`, counts one connection less
    /// in flight, and checks at `now` whether a rotation is due (counting the
    /// request where requests are counted). The caller performs a due rotation.
    pub fn remove_connection_at(&mut self, peer: String, now: SystemInstant) -> (due: bool)
        requires
            old(self)@.inflight_connections > 0,
            can_call(old(self)@.rotation),
        ensures
            due == call_due(old(self)@.rotation, now),
            final(self)@ == (ProxyStateView {
                inbound: remove_key(old(self)@.inbound, peer@),
                inflight_connections: (old(self)@.inflight_connections - 1) as u16,
                rotation: after_call(old(self)@.rotation),
                ..old(self)@
            }),
    {
        let ghost before = self.inbound_connections@;
        match find_peer(&self.inbound_connections, &peer) {
            Some(i) => {
                self.inbound_connections.remove(i);
                proof {
                    assert(inbound_views(self.inbound_connections@) =~= inbound_views(before).remove(i as int));
                }
            },
            None => {},
        }
        self.inflight_connections = self.inflight_connections - 1;
        self.settings.rotation.call(now)
    }

    /// Forgets the client connection from `peer` and checks now whether a
    /// rotation is due.
    pub fn remove_connection(&mut self, peer: String) -> (due: bool)
        requires
            old(self)@.inflight_connections > 0,
            can_call(old(self)@.rotation),
        ensures
            exists|now: SystemInstant|
                system_reading(now) && (#[trigger] connection_removed(old(self)@, peer@, now)) == (final(self)@, due),
    {
        let now = SystemInstant::now();
        let ghost p = peer@;
        let due = self.remove_connection_at(peer, now);
        assert(connection_removed(old(self)@, p, now) == (final(self)@, due));
        due
    }

    /// Records a tunnel request to `host` that begins at `now`.
    pub fn add_connect_request_at(&mut self, host: &str, now: SchemaCompatibleSystemTime)
        requires
            old(self)@.monitor.active_connections < u16::MAX,
            old(self)@.monitor.lifetime_connections < u16::MAX,
            host_can_check_in(old(self)@.monitor.hosts, host@),
            old(self)@.inflight_connect_requests < u16::MAX,
        ensures
            final(self)@ == (ProxyStateView {
                monitor: ProxyMonitorView {
                    active_connections: (old(self)@.monitor.active_connections + 1) as u16,
                    lifetime_connections: (old(self)@.monitor.lifetime_connections + 1) as u16,
                    hosts: hosts_checked_in(old(self)@.monitor.hosts, host@, now),
                },
                inflight_connect_requests: (old(self)@.inflight_connect_requests + 1) as u16,
                ..old(self)@
            }),
    {
        self.monitor.check_in_at(host, now);
        self.inflight_connect_requests = self.inflight_connect_requests + 1;
    }

    /// Records a tunnel request to `host` that begins now, where the clock
    /// can be read (then `true`); else leaves the state as it is (`false`).
    pub fn add_connect_request(&mut self, host: &str) -> (read: bool)
        requires
            old(self)@.monitor.active_connections < u16::MAX,
            old(self)@.monitor.lifetime_connections < u16::MAX,
            host_can_check_in(old(self)@.monitor.hosts, host@),
            old(self)@.inflight_connect_requests < u16::MAX,
        ensures
            !read ==> final(self)@ == old(self)@,
            read ==> exists|now: SchemaCompatibleSystemTime|
                clock_reading(now) && final(self)@ == #[trigger] connect_request_added(old(self)@, host@, now),
    {
        match SchemaCompatibleSystemTime::now() {
            Some(now) => {
                self.add_connect_request_at(host, now);
                assert(final(self)@ == connect_request_added(old(self)@, host@, now));
                true
            },
            None => false,
        }
    }

    /// Records the end of a tunnel request to `host`.
    pub fn remove_connect_request(&mut self, host: &str)
        requires
            old(self)@.monitor.active_connections > 0,
            host_can_check_out(old(self)@.monitor.hosts, host@),
            old(self)@.inflight_connect_requests > 0,
        ensures
            final(self)@ == (ProxyStateView {
                monitor: ProxyMonitorView {
                    active_connections: (old(self)@.monitor.active_connections - 1) as u16,
                    lifetime_connections: old(self)@.monitor.lifetime_connections,
                    hosts: match host_monitor(old(self)@.monitor.hosts, host@) {
                        Some(m) => update_host(old(self)@.monitor.hosts, host@, checked_out(m)),
                        None => old(self)@.monitor.hosts,
                    },
                },
                inflight_connect_requests: (old(self)@.inflight_connect_requests - 1) as u16,
                ..old(self)@
            }),
    {
        self.monitor.check_out(host);
        self.inflight_connect_requests = self.inflight_connect_requests - 1;
    }

    /// Takes the proxy out of service.
    pub fn drain(&mut self)
        ensures
            final(self)@ == with_drained(old(self)@, true),
    {
        self.drained = true;
    }

    /// Puts the proxy back in service.
    pub fn activate(&mut self)
        ensures
            final(self)@ == with_drained(old(self)@, false),
    {
        self.drained = false;
    }

    /// Sets the drain state and reports it before and after.
    pub fn set_drained(&mut self, drain: bool) -> (r: ProxySettingsDrainUpdate)
        ensures
            final(self)@ == with_drained(old(self)@, drain),
            r.before == old(self)@.drained,
            r.after == drain,
    {
        let before = self.drained;
        if drain {
            self.drain();
        } else {
            self.activate();
        }
        ProxySettingsDrainUpdate::new(before, self.drained)
    }

    /// The health answer: 200 and "Proxy is up" in service, 503 and "Proxy is
    /// out of service" when drained.
    pub fn health(&self) -> (r: (u16, String))
        ensures
            !self@.drained ==> r.0 == 200 && r.1@ == "Proxy is up"@,
            self@.drained ==> r.0 == 503 && r.1@ == "Proxy is out of service"@,
    {
        if self.drained {
            (503, owned("Proxy is out of service"))
        } else {
            (200, owned("Proxy is up"))
        }
    }

    /// Rotates every `interval` seconds: a timed policy keeps its times and
    /// takes the new interval; any other becomes a timed policy counted from
    /// `now`. Reports the interval before (its low 16 bits; 0 for another
    /// policy) and after.
    pub fn set_rotation_interval_at(&mut self, interval: u16, now: SystemInstant) -> (r: ProxySettingsRotationIntervalUpdate)
        requires
            fits_ahead(now, interval as u64),
        ensures
            r.after == interval,
            final(self)@ == (ProxyStateView {
                rotation: match old(self)@.rotation {
                    ProxyRotationMode::Timed(t) => ProxyRotationMode::Timed(TimedProxyRotation { interval: interval as u64, ..t }),
                    _ => ProxyRotationMode::Timed(TimedProxyRotation {
                        interval: interval as u64,
                        last_rotation: now,
                        next_rotation: plus_secs(now, interval as u64),
                    }),
                },
                ..old(self)@
            }),
            r.before == match old(self)@.rotation {
                ProxyRotationMode::Timed(t) => t.interval as u16,
                _ => 0u16,
            },
    {
        match &mut self.settings.rotation {
            ProxyRotationMode::Timed(t) => {
                let before = t.interval as u16;
                t.interval = interval as u64;
                return ProxySettingsRotationIntervalUpdate { before, after: interval };
            },
            _ => {},
        }
        self.settings.rotation = ProxyRotationMode::Timed(TimedProxyRotation::new_at(interval as u64, now));
        ProxySettingsRotationIntervalUpdate { before: 0, after: interval }
    }

    /// Rotates every `interval` seconds, counting from now for a new timed
    /// policy.
    pub fn set_rotation_interval(&mut self, interval: u16) -> (r: ProxySettingsRotationIntervalUpdate)
        ensures
            r.after == interval,
            exists|now: SystemInstant|
                system_reading(now) && (#[trigger] rotation_interval_set(old(self)@, interval, now)) == (final(self)@, r.before),
    {
        let now = SystemInstant::now();
        let r = self.set_rotation_interval_at(interval, now);
        assert(rotation_interval_set(old(self)@, interval, now) == (final(self)@, r.before));
        r
    }

    /// Starts a rotation: drains the proxy and gives the connect command that
    /// the client's filter queue selects.
    pub fn rotate(&mut self, retries: u8) -> (r: NordVpnCommand)
        ensures
            final(self)@.drained,
            final(self)@ == rotation_started(old(self)@, final(self)@.nordvpn),
            rotated_client(old(self)@.nordvpn, final(self)@.nordvpn, r),
    {
        self.drain();
        self.nordvpn.rotate(retries)
    }

    /// Starts a rotation with the configured number of retries.
    pub fn rotate_default(&mut self) -> (r: NordVpnCommand)
        ensures
            final(self)@ == rotation_started(old(self)@, final(self)@.nordvpn),
            rotated_client(old(self)@.nordvpn, final(self)@.nordvpn, r),
    {
        let retries = self.settings.rotation_retries;
        self.rotate(retries)
    }

    /// Ends a rotation whose connect command succeeded or failed: on success
    /// the rotation time becomes `now` and the proxy returns to service; on
    /// failure the proxy stays drained. Reports the outcome and the last
    /// successful rotation time.
    pub fn finish_rotate(&mut self, succeeded: bool, now: SchemaCompatibleSystemTime) -> (r: Result<ProxyRotateResult, ProxyRotateResult>)
        ensures
            final(self)@ == rotation_finished(old(self)@, succeeded, now),
            succeeded ==> (r matches Ok(o) && o.success && o.last_rotation == now),
            !succeeded ==> (r matches Err(o) && !o.success && o.last_rotation == old(self)@.last_rotation),
    {
        if succeeded {
            self.last_rotation = now;
            self.activate();
            Ok(ProxyRotateResult { success: true, last_rotation: self.last_rotation })
        } else {
            Err(ProxyRotateResult { success: false, last_rotation: self.last_rotation })
        }
    }

    /// Records in the rotation policy a successful rotation at `now`.
    pub fn rotation_completed(&mut self, now: SystemInstant)
        requires
            can_record(old(self)@.rotation, now),
        ensures
            final(self)@ == (ProxyStateView { rotation: after_rotation(old(self)@.rotation, now), ..old(self)@ }),
    {
        self.settings.rotation.rotated(now);
    }
}

/// The state with the given drain state.
pub open spec fn with_drained(s: ProxyStateView, drained: bool) -> ProxyStateView {
    ProxyStateView { drained, ..s }
}

/// The state once a rotation has started: drained, with the client's
/// rotated model.
pub open spec fn rotation_started(s: ProxyStateView, client: NordVpnView) -> ProxyStateView {
    ProxyStateView { drained: true, nordvpn: client, ..s }
}

/// The state once a rotation has ended: on success back in service with the
/// rotation time `now`, on failure unchanged (so still drained).
pub open spec fn rotation_finished(s: ProxyStateView, succeeded: bool, now: SchemaCompatibleSystemTime) -> ProxyStateView {
    if succeeded {
        ProxyStateView { drained: false, last_rotation: now, ..s }
    } else {
        s
    }
}

/// The state after a purge at `now`.
pub open spec fn state_purged(s: ProxyStateView, now: SchemaCompatibleSystemTime, retention: Option<u64>) -> ProxyStateView {
    ProxyStateView { monitor: ProxyMonitorView { hosts: hosts_purged(s.monitor.hosts, now, retention), ..s.monitor }, ..s }
}

/// The state after a client connection from `peer` began at `now`.
pub open spec fn connection_added(s: ProxyStateView, peer: Seq<char>, now: SchemaCompatibleSystemTime) -> ProxyStateView {
    ProxyStateView { inbound: insert_key(s.inbound, peer, now), inflight_connections: (s.inflight_connections + 1) as u16, ..s }
}

/// The state after the client connection from `peer` ended with a rotation
/// check at `now`, and whether a rotation is due.
pub open spec fn connection_removed(s: ProxyStateView, peer: Seq<char>, now: SystemInstant) -> (ProxyStateView, bool) {
    (ProxyStateView {
        inbound: remove_key(s.inbound, peer),
        inflight_connections: (s.inflight_connections - 1) as u16,
        rotation: after_call(s.rotation),
        ..s
    }, call_due(s.rotation, now))
}

/// The state after a tunnel request to `host` began at `now`.
pub open spec fn connect_request_added(s: ProxyStateView, host: Seq<char>, now: SchemaCompatibleSystemTime) -> ProxyStateView {
    ProxyStateView {
        monitor: ProxyMonitorView {
            active_connections: (s.monitor.active_connections + 1) as u16,
            lifetime_connections: (s.monitor.lifetime_connections + 1) as u16,
            hosts: hosts_checked_in(s.monitor.hosts, host, now),
        },
        inflight_connect_requests: (s.inflight_connect_requests + 1) as u16,
        ..s
    }
}

/// The state after the rotation interval was set at `now`, and the interval
/// reported as before.
pub open spec fn rotation_interval_set(s: ProxyStateView, interval: u16, now: SystemInstant) -> (ProxyStateView, u16) {
    (ProxyStateView {
        rotation: match s.rotation {
            ProxyRotationMode::Timed(t) => ProxyRotationMode::Timed(TimedProxyRotation { interval: interval as u64, ..t }),
            _ => ProxyRotationMode::Timed(TimedProxyRotation {
                interval: interval as u64,
                last_rotation: now,
                next_rotation: plus_secs(now, interval as u64),
            }),
        },
        ..s
    }, match s.rotation {
        ProxyRotationMode::Timed(t) => t.interval as u16,
        _ => 0u16,
    })
}

/// The client after a rotation step that gave command `c`: its settings kept,
/// and its filter queue rotated where rotation is enabled and the queue holds
/// filters, the command connecting with the queue's head.
pub open spec fn rotated_client(before: NordVpnView, after: NordVpnView, c: NordVpnCommand) -> bool {
    &&& after.path == before.path
    &&& after.token == before.token
    &&& after.daemon_path == before.daemon_path
    &&& after.dns_lookup == before.dns_lookup
    &&& after.filter_enabled == before.filter_enabled
    &&& if before.filter_enabled && before.filter.len() > 0 {
        &&& (c matches NordVpnCommand::Connect(Some(f)) && f@ == before.filter[0])
        &&& after.filter == rotate_queue(before.filter)
    } else {
        &&& (c matches NordVpnCommand::Connect(None))
        &&& after.filter == before.filter
    }
}

} // verus!
