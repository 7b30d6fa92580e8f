use nordvpn_rs::nordvpn::{NordVPN, NordVpnCommand};
use nordvpn_rs::proxy::{
    HostMonitor, ProxyMonitor, ProxyRotationMode, ProxySettingsDrainUpdate, ProxyState,
    RequestCountProxyRotation, SchemaCompatibleSystemTime, SystemInstant, TimedProxyRotation, CLOCK_MAX_SECS,
};

fn t(secs: i64, nanos: u32) -> SchemaCompatibleSystemTime {
    SchemaCompatibleSystemTime { secs, nanos }
}

fn c(secs: i128, nanos: u32) -> SystemInstant {
    SystemInstant { secs, nanos }
}

fn state(rotation: ProxyRotationMode) -> ProxyState {
    let nordvpn = NordVPN::new("/usr/bin/nordvpn".to_string(), "tok".to_string(), None, None).unwrap();
    ProxyState::new_at(nordvpn, vec!["example.com".to_string(), "other.org".to_string(), "example.com".to_string()], rotation, t(100, 0))
}

#[test]
fn clock_reads_a_valid_time() {
    let now = SchemaCompatibleSystemTime::now().unwrap();
    assert!(now.secs > 1_600_000_000);
    assert!(now.nanos < 1_000_000_000);
}

#[test]
fn elapsed_seconds_round_toward_zero() {
    assert_eq!(t(10, 0).seconds_until(&t(12, 999_999_999)), 2);
    assert_eq!(t(12, 999_999_999).seconds_until(&t(10, 0)), -2);
    assert_eq!(t(10, 500).seconds_until(&t(11, 499)), 0);
    assert_eq!(t(10, 500).seconds_until(&t(11, 500)), 1);
}

#[test]
fn host_history_is_bounded_by_capacity() {
    let mut m = HostMonitor::new_with_capacity(2);
    m.check_in_at(t(1, 0));
    m.check_in_at(t(2, 0));
    m.check_in_at(t(3, 0));
    assert_eq!(m.times.len(), 2);
    assert_eq!(m.times[0], t(2, 0));
    assert_eq!(m.times[1], t(3, 0));
    assert_eq!(m.active_connections, 3);
    assert_eq!(m.lifetime_connections, 3);
    assert_eq!(m.last, Some(t(3, 0)));
    m.check_out();
    assert_eq!(m.active_connections, 2);
    assert_eq!(m.lifetime_connections, 3);
    let c = m.compact();
    assert_eq!(c.active_connections, 2);
    assert_eq!(c.last, Some(t(3, 0)));
}

#[test]
fn host_without_capacity_keeps_no_history() {
    let mut m = HostMonitor::new();
    m.check_in_at(t(1, 0));
    assert_eq!(m.times.len(), 0);
    assert_eq!(m.last, Some(t(1, 0)));
}

#[test]
fn purge_keeps_recent_times() {
    let mut m = HostMonitor::new_with_capacity(5);
    m.check_in_at(t(0, 0));
    m.check_in_at(t(50, 0));
    m.check_in_at(t(100, 0));
    m.purge_at(None, t(110, 0));
    // exactly 60 seconds old is too old for the default retention
    assert_eq!(m.times.len(), 1);
    assert_eq!(m.times[0], t(100, 0));
    m.purge_at(Some(5), t(110, 0));
    assert_eq!(m.times.len(), 0);
    // a retention beyond the signed range reads as negative: nothing survives
    let mut m = HostMonitor::new_with_capacity(1);
    m.check_in_at(t(100, 0));
    m.purge_at(Some(u64::MAX), t(100, 0));
    assert_eq!(m.times.len(), 0);
}

#[test]
fn proxy_monitor_counts_watched_hosts() {
    let mut pm = ProxyMonitor::new(vec!["a.com".to_string(), "b.com".to_string(), "a.com".to_string()]);
    assert_eq!(pm.hosts.len(), 2);
    pm.check_in_at("a.com", t(5, 0));
    pm.check_in_at("c.com", t(6, 0));
    assert_eq!(pm.active_connections, 2);
    assert_eq!(pm.lifetime_connections, 2);
    assert_eq!(pm.hosts[0].host, "a.com");
    assert_eq!(pm.hosts[0].monitor.active_connections, 1);
    assert_eq!(pm.hosts[0].monitor.last, Some(t(5, 0)));
    assert_eq!(pm.hosts[1].monitor.active_connections, 0);
    pm.check_out("a.com");
    assert_eq!(pm.active_connections, 1);
    assert_eq!(pm.hosts[0].monitor.active_connections, 0);
    let c = pm.compact();
    assert_eq!(c.hosts.len(), 2);
    assert_eq!(c.hosts[0].monitor.lifetime_connections, 1);
}

#[test]
fn connections_are_tracked_by_peer() {
    let mut s = state(ProxyRotationMode::Manual);
    s.add_connection_at("1.2.3.4:5".to_string(), t(1, 0));
    s.add_connection_at("1.2.3.4:6".to_string(), t(2, 0));
    s.add_connection_at("1.2.3.4:5".to_string(), t(3, 0));
    let st = s.status();
    assert_eq!(st.inflight_connection_count, 3);
    assert_eq!(st.inbound_connections.len(), 2);
    assert_eq!(st.inbound_connections[0].peer, "1.2.3.4:5");
    assert_eq!(st.inbound_connections[0].since, t(3, 0));
    assert!(!s.remove_connection_at("1.2.3.4:5".to_string(), c(4, 0)));
    let st = s.compact_status();
    assert_eq!(st.inflight_connections, 2);
    assert_eq!(st.inbound_connections.len(), 1);
    assert_eq!(st.inbound_connections[0].peer, "1.2.3.4:6");
}

#[test]
fn connect_requests_reach_the_monitor() {
    let mut s = state(ProxyRotationMode::Manual);
    s.add_connect_request_at("example.com", t(7, 0));
    let st = s.status();
    assert_eq!(st.inflight_connect_requests, 1);
    assert_eq!(st.monitor.active_connections, 1);
    assert_eq!(st.monitor.hosts.len(), 2);
    assert_eq!(st.monitor.hosts[0].monitor.lifetime_connections, 1);
    s.remove_connect_request("example.com");
    let st = s.status();
    assert_eq!(st.inflight_connect_requests, 0);
    assert_eq!(st.monitor.active_connections, 0);
    assert_eq!(st.monitor.hosts[0].monitor.lifetime_connections, 1);
}

#[test]
fn request_count_rotation_every_third_request() {
    let mut s = state(ProxyRotationMode::RequestCount(RequestCountProxyRotation::new_at(3, c(0, 0))));
    for i in 0..3 {
        s.add_connection_at(format!("p{}", i), t(1, 0));
    }
    assert!(!s.remove_connection_at("p0".to_string(), c(2, 0)));
    assert!(!s.remove_connection_at("p1".to_string(), c(3, 0)));
    assert!(s.remove_connection_at("p2".to_string(), c(4, 0)));
    s.rotation_completed(c(5, 0));
    match &s.settings.rotation {
        ProxyRotationMode::RequestCount(r) => {
            assert_eq!(r.request_count, 0);
            assert_eq!(r.last_rotation, c(5, 0));
        }
        _ => panic!("policy changed"),
    }
}

#[test]
fn timed_rotation_after_interval() {
    let mut mode = ProxyRotationMode::Timed(TimedProxyRotation::new_at(60, c(100, 0)));
    assert!(!mode.call(c(160, 0)));
    assert!(mode.call(c(160, 1)));
    mode.rotated(c(200, 0));
    assert!(!mode.call(c(260, 0)));
    assert!(mode.call(c(261, 0)));
    let mut manual = ProxyRotationMode::Manual;
    assert!(!manual.call(c(1_000_000, 0)));
}

#[test]
fn rotation_drains_until_success() {
    let mut s = state(ProxyRotationMode::Manual);
    match s.rotate_default() {
        NordVpnCommand::Connect(None) => {}
        _ => panic!("expected a plain connect"),
    }
    assert!(s.status().drained);
    let failed = s.finish_rotate(false, t(9, 0));
    match failed {
        Err(r) => {
            assert!(!r.success);
            assert_eq!(r.last_rotation, t(100, 0));
        }
        Ok(_) => panic!("expected a failure"),
    }
    assert!(s.status().drained);
    match s.finish_rotate(true, t(10, 0)) {
        Ok(r) => {
            assert!(r.success);
            assert_eq!(r.last_rotation, t(10, 0));
        }
        Err(_) => panic!("expected success"),
    }
    assert!(!s.status().drained);
}

#[test]
fn drain_switch_and_health() {
    let mut s = state(ProxyRotationMode::Manual);
    assert_eq!(s.health(), (200, "Proxy is up".to_string()));
    let u: ProxySettingsDrainUpdate = s.set_drained(true);
    assert!(!u.before);
    assert!(u.after);
    assert_eq!(s.health(), (503, "Proxy is out of service".to_string()));
    s.activate();
    assert!(!s.drained);
    s.drain();
    assert!(s.drained);
}

#[test]
fn rotation_interval_updates() {
    let mut s = state(ProxyRotationMode::Manual);
    let u = s.set_rotation_interval_at(30, c(1000, 0));
    assert_eq!(u.before, 0);
    assert_eq!(u.after, 30);
    match &s.settings.rotation {
        ProxyRotationMode::Timed(r) => {
            assert_eq!(r.interval, 30);
            assert_eq!(r.next_rotation, c(1030, 0));
        }
        _ => panic!("expected a timed policy"),
    }
    let u = s.set_rotation_interval_at(45, c(2000, 0));
    assert_eq!(u.before, 30);
    match &s.settings.rotation {
        ProxyRotationMode::Timed(r) => {
            assert_eq!(r.interval, 45);
            // the next rotation time is kept
            assert_eq!(r.next_rotation, c(1030, 0));
        }
        _ => panic!("expected a timed policy"),
    }
    assert_eq!(s.settings.rotation_retries, 3);
}

#[test]
fn purge_through_state() {
    let mut s = state(ProxyRotationMode::Manual);
    s.add_connect_request_at("example.com", t(7, 0));
    s.purge_at(Some(10), t(100, 0));
    assert!(s.sanitize(None));
    assert_eq!(s.status().monitor.hosts[0].monitor.times.len(), 0);
}

#[test]
fn system_clock_reads_before_and_after_the_epoch() {
    let now = SystemInstant::now();
    assert!(now.secs > 1_600_000_000);
    assert!(now.nanos < 1_000_000_000);
    assert_eq!(SystemInstant::from_epoch_span(true, 5, 250), c(5, 250));
    assert_eq!(SystemInstant::from_epoch_span(false, 5, 0), c(-5, 0));
    assert_eq!(SystemInstant::from_epoch_span(false, 5, 250), c(-6, 999_999_750));
}

#[test]
fn policy_for_an_interval_argument() {
    assert!(matches!(ProxyRotationMode::for_interval(0), ProxyRotationMode::Manual));
    match ProxyRotationMode::for_interval(60) {
        ProxyRotationMode::Timed(t) => {
            assert_eq!(t.interval, 60);
            assert_eq!(t.next_rotation, c(t.last_rotation.secs + 60, t.last_rotation.nanos));
        }
        _ => panic!("expected a timed policy"),
    }
    let r = RequestCountProxyRotation::new(4);
    assert_eq!(r.rotation_count, 4);
    assert!(r.last_rotation.secs > 1_600_000_000);
}

#[test]
fn chrono_time_of_a_reading() {
    assert_eq!(SchemaCompatibleSystemTime::from_reading(c(-1, 0)), None);
    assert_eq!(SchemaCompatibleSystemTime::from_reading(c(1_431_648_000, 7)), Some(t(1_431_648_000, 7)));
    assert_eq!(SchemaCompatibleSystemTime::from_reading(c(0, 0)), Some(t(0, 0)));
    assert_eq!(SchemaCompatibleSystemTime::from_reading(c(CLOCK_MAX_SECS as i128, 999_999_999)), Some(t(CLOCK_MAX_SECS, 999_999_999)));
    assert_eq!(SchemaCompatibleSystemTime::from_reading(c(CLOCK_MAX_SECS as i128 + 1, 0)), None);
}

#[test]
fn monitors_read_the_clock() {
    let mut m = HostMonitor::new_with_capacity(2);
    assert!(m.check_in());
    assert_eq!(m.active_connections, 1);
    assert_eq!(m.times.len(), 1);
    assert!(m.purge(Some(60)));
    assert_eq!(m.times.len(), 1);
    let mut s = state(ProxyRotationMode::Manual);
    assert!(s.add_connection("9.9.9.9:1".to_string()));
    assert!(s.add_connect_request("example.com"));
    assert_eq!(s.status().monitor.hosts[0].monitor.lifetime_connections, 1);
    assert!(s.purge(None));
}
