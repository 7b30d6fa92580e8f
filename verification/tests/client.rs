use nordvpn_rs::daemon::{
    CommandOutput, Daemon, DaemonStartEvent, DaemonStartPhase, DeamonStatus,
};
use nordvpn_rs::nordvpn::{Error, NordVPN, NordVpnCommand, NordVpnSetting};

fn client(filter: Option<Vec<String>>) -> NordVPN {
    NordVPN::new("/usr/bin/nordvpn".to_string(), "tok123".to_string(), filter, None).unwrap()
}

fn answer(status: bool, output: &str) -> CommandOutput {
    CommandOutput { status, output: output.to_string() }
}

#[test]
fn status_report_is_parsed_field_by_field() {
    let text = "Status: Connected\nServer: Germany #1099\nHostname: de1099.nordvpn.com\nIP: 194.233.96.241\nCountry: Germany\nCity: Berlin\nCurrent technology: NORDLYNX\nCurrent protocol: UDP\nPost-quantum VPN: Enabled\nTransfer: 92 B received, 180 B sent\nUptime: 0 seconds\n";
    let s = client(None).status(answer(true, text));
    assert!(s.connected);
    assert_eq!(s.server, "Germany #1099");
    assert_eq!(s.hostname, "de1099.nordvpn.com");
    assert_eq!(s.ip, "194.233.96.241");
    assert_eq!(s.country, "Germany");
    assert_eq!(s.city, "Berlin");
    assert_eq!(s.technology, "NORDLYNX");
    assert_eq!(s.protocol, "UDP");
    assert!(s.post_quantum);
    assert_eq!(s.transfer, "92 B received, 180 B sent");
    assert_eq!(s.uptime, "0 seconds");
}

#[test]
fn status_report_disconnected_and_quirks() {
    let text = "Status: Disconnected\r\nPost-quantum VPN: Disabled\r\nServer: Server: x\nnoise line\nCity: A\nCity: B";
    let s = client(None).status(answer(true, text));
    assert!(!s.connected);
    assert!(!s.post_quantum);
    // every occurrence of the key is removed, as `str::replace` does
    assert_eq!(s.server, "x");
    // a later line overrides an earlier one
    assert_eq!(s.city, "B");
    assert_eq!(s.hostname, "");
}

#[test]
fn status_of_failed_command_is_empty() {
    let s = client(None).status(answer(false, "Status: Connected"));
    assert!(!s.connected);
    assert_eq!(s.server, "");
    assert_eq!(s.uptime, "");
}

#[test]
fn connect_report_success() {
    let c = client(None);
    let text = "Connecting to Germany #1078 (de1078.nordvpn.com)\nYou are connected to Germany #1078 (de1078.nordvpn.com)!\n";
    assert!(c.connect_report_readable(text));
    let r = c.connect(answer(true, text), true);
    let o = match r {
        Ok(o) => o,
        Err(_) => panic!("expected a connection"),
    };
    assert!(o.connected);
    assert_eq!(o.group, "Germany");
    assert_eq!(o.server_id, "#1078");
    assert_eq!(o.server_fqdn, "de1078.nordvpn.com");
    assert_eq!(o.error, None);
}

#[test]
fn connect_report_dns_failure_keeps_the_parsed_fields() {
    let c = client(None);
    let text = "You are connected to Australia #600 (au600.nordvpn.com)!";
    match c.connect(answer(true, text), false) {
        Err(o) => {
            assert!(o.connected);
            assert_eq!(o.group, "Australia");
            assert_eq!(o.server_id, "#600");
            assert_eq!(o.server_fqdn, "au600.nordvpn.com");
            assert_eq!(o.error, Some(Error::DnsLookupFailed));
        }
        Ok(_) => panic!("a failed lookup is an error"),
    }
}

#[test]
fn connect_report_failure_and_parse_failure() {
    let c = client(None);
    let failed = "Connecting to Germany #1087 (de1087.nordvpn.com)\nThe VPN connection has failed. Please check your internet connection and try connecting to the VPN again. If the issue persists, contact our customer support.";
    let o = c.parse_connect_output(failed);
    assert!(!o.connected);
    assert_eq!(o.error, Some(Error::ConnectFailed));
    assert_eq!(o.group, "");
    let o = c.parse_connect_output("something else entirely");
    assert!(!o.connected);
    assert_eq!(o.error, Some(Error::ParseFailed));
    // a connected line without three words cannot be read
    assert!(!c.connect_report_readable("You are connected to Germany"));
}

#[test]
fn connect_command_failure() {
    let c = client(None);
    match c.connect(answer(false, "boom"), true) {
        Err(o) => {
            assert!(!o.connected);
            assert_eq!(o.error, Some(Error::ConnectFailed));
        }
        Ok(_) => panic!("a failed command is an error"),
    }
}

#[test]
fn account_disconnect_login_version() {
    let c = client(None);
    assert_eq!(c.account(answer(true, "Email: a@b")).unwrap(), "Email: a@b");
    assert_eq!(c.account(answer(false, "x")).unwrap_err(), Error::AccountCommandFailed);
    assert!(c.disconnect(answer(true, "")).unwrap().disconnected);
    assert!(!c.disconnect(answer(false, "")).unwrap_err().disconnected);
    assert!(c.login(answer(true, "")));
    assert!(!c.login(answer(false, "")));
    assert_eq!(c.version(answer(false, "3.19.0")), "3.19.0");
}

#[test]
fn command_lines() {
    let c = client(None);
    assert_eq!(c.command_line(&NordVpnCommand::Login), vec!["/usr/bin/nordvpn", "login", "--token", "tok123"]);
    assert_eq!(c.command_line(&NordVpnCommand::Connect(None)), vec!["/usr/bin/nordvpn", "connect"]);
    assert_eq!(c.command_line(&NordVpnCommand::Connect(Some("Germany".to_string()))), vec!["/usr/bin/nordvpn", "connect", "Germany"]);
    assert_eq!(c.command_line(&c.set_lan_discovery(true)), vec!["/usr/bin/nordvpn", "set", "lan-discovery", "true"]);
    assert_eq!(c.command_line(&c.set_virtual_location(false)), vec!["/usr/bin/nordvpn", "set", "virtual-location", "false"]);
    assert_eq!(c.command_line(&NordVpnCommand::ChangeSetting(NordVpnSetting::Analytics, false)), vec!["/usr/bin/nordvpn", "set", "analytics", "false"]);
    assert_eq!(c.logs(10), vec!["tail", "-n", "10", "/var/log/nordvpn/daemon.log"]);
    assert_eq!(c.logs(0), vec!["tail", "-n", "0", "/var/log/nordvpn/daemon.log"]);
    assert_eq!(c.logs(65535)[2], "65535");
    assert_eq!(c.daemon_stop(), vec!["/etc/init.d/nordvpn", "stop"]);
    assert_eq!(c.daemon_restart(Some(30)), vec!["/etc/init.d/nordvpn", "restart"]);
    assert_eq!(c.daemon_status_command(), vec!["/etc/init.d/nordvpn", "status"]);
}

#[test]
fn command_output_trims_errors_only() {
    let c = client(None);
    let o = c.command_output(true, " out \n".to_string(), "err".to_string());
    assert!(o.status);
    assert_eq!(o.output, " out \n");
    let o = c.command_output(false, "out".to_string(), "\t  bad token\n\u{3000}".to_string());
    assert!(!o.status);
    assert_eq!(o.output, "bad token");
}

#[test]
fn rotation_without_filters_connects_plainly() {
    let mut c = client(None);
    match c.rotate(3) {
        NordVpnCommand::Connect(None) => {}
        _ => panic!("expected a plain connect"),
    }
}

#[test]
fn rotation_with_filters_is_disabled() {
    // filters given at construction disable rotation (filter_enabled is false)
    let mut c = client(Some(vec!["Germany".to_string(), "France".to_string(), "Germany".to_string()]));
    match c.rotate(3) {
        NordVpnCommand::Connect(None) => {}
        _ => panic!("expected a plain connect"),
    }
}

#[test]
fn daemon_status_reading() {
    let d = Daemon::new().unwrap();
    let s = d.status(answer(false, "nordvpn is not running"));
    assert_eq!(s.status, DeamonStatus::Stopped);
    assert_eq!(s.output, "nordvpn is not running");
    assert_eq!(d.status(answer(true, "nordvpn is running")).status, DeamonStatus::Unknown);
    assert_eq!(d.command("start"), vec!["/etc/init.d/nordvpn", "start"]);
    let d = Daemon::new_with_path("/x/y".to_string()).unwrap();
    assert_eq!(d.stop(), vec!["/x/y", "stop"]);
    assert_eq!(d.restart(5), vec!["/x/y", "restart"]);
    let w = d.wrap_command(false, "o".to_string(), "e".to_string());
    assert!(!w.status);
    assert_eq!(w.output, "e");
    let w = d.wrap_command(true, "o".to_string(), "e".to_string());
    assert_eq!(w.output, "o");
}

#[test]
fn daemon_start_wait() {
    let d = Daemon::new().unwrap();
    let s = d.start(None);
    assert_eq!(s.command, vec!["/etc/init.d/nordvpn", "start"]);
    assert_eq!(s.phase, DaemonStartPhase::Done);
    let s = d.start(Some(30));
    assert_eq!(s.phase, DaemonStartPhase::FirstStatus { timeout: 30 });
    let p = Daemon::start_step(s.phase, DaemonStartEvent::Status(DeamonStatus::Stopped));
    assert_eq!(p, DaemonStartPhase::SetDeadline { timeout: 30 });
    let p = Daemon::start_step(p, DaemonStartEvent::Clock(1000));
    assert_eq!(p, DaemonStartPhase::CheckClock { deadline: 1030 });
    let p = Daemon::start_step(p, DaemonStartEvent::Clock(1010));
    assert_eq!(p, DaemonStartPhase::PollStatus { deadline: 1030 });
    let q = Daemon::start_step(p, DaemonStartEvent::Status(DeamonStatus::Unknown));
    assert_eq!(q, DaemonStartPhase::CheckClock { deadline: 1030 });
    assert_eq!(Daemon::start_step(q, DaemonStartEvent::Clock(1030)), DaemonStartPhase::Done);
    assert_eq!(Daemon::start_step(p, DaemonStartEvent::Status(DeamonStatus::Running)), DaemonStartPhase::Done);
    let first = DaemonStartPhase::FirstStatus { timeout: 5 };
    assert_eq!(Daemon::start_step(first, DaemonStartEvent::Status(DeamonStatus::Running)), DaemonStartPhase::Done);
}
