//! What the readers of the client's and the daemon's answers give, stated
//! over the answers' lines and characters, and what the command lines name.
use vstd::prelude::*;
use crate::daemon::{DaemonStartEvent, DaemonStartPhase, DeamonStatus, start_next, status_of};
use crate::nordvpn::{
    ConnectView, Error, NordVpnCommand, NordVpnSetting, command_args_spec, connect_lines_readable,
    connect_of_lines, connect_report, connect_report_readable, status_line, status_of_lines,
    status_report,
};
use crate::text::{contains, is_prefix, lines, occurs_at, remove_all, split};

verus! {

/// The marker of the line that reports a connection.
spec fn connected_text() -> Seq<char> {
    "You are connected to "@
}

/// The line with which the client reports a failed connection.
spec fn failed_text() -> Seq<char> {
    "The VPN connection has failed. Please check your internet connection and try connecting to the VPN again. If the issue persists, contact our customer support."@
}

proof fn lemma_first_connected(ls: Seq<Seq<char>>, i: int)
    requires
        0 <= i < ls.len(),
        contains(ls[i], connected_text()),
        forall|j: int| 0 <= j < i ==> !contains(#[trigger] ls[j], connected_text()) && !contains(ls[j], failed_text()),
    ensures
        ({
            let w = split(split(ls[i], connected_text())[1], " "@);
            &&& connect_lines_readable(ls) == (w.len() >= 3)
            &&& w.len() >= 3 ==> connect_of_lines(ls) == (ConnectView {
                connected: true,
                group: w[0],
                server_id: w[1],
                server_fqdn: remove_all(remove_all(w[2], "("@), ")!"@),
                error: None,
            })
        }),
    decreases i,
{
    if i > 0 {
        assert(!contains(ls[0], connected_text()));
        assert forall|j: int| 0 <= j < i - 1 implies !contains(#[trigger] ls.drop_first()[j], connected_text()) && !contains(ls.drop_first()[j], failed_text()) by {
            assert(ls.drop_first()[j] == ls[j + 1]);
        }
        lemma_first_connected(ls.drop_first(), i - 1);
    }
}

proof fn lemma_first_failed(ls: Seq<Seq<char>>, i: int)
    requires
        0 <= i < ls.len(),
        contains(ls[i], failed_text()),
        !contains(ls[i], connected_text()),
        forall|j: int| 0 <= j < i ==> !contains(#[trigger] ls[j], connected_text()) && !contains(ls[j], failed_text()),
    ensures
        connect_lines_readable(ls),
        connect_of_lines(ls) == (ConnectView { connected: false, group: seq![], server_id: seq![], server_fqdn: seq![], error: Some(Error::ConnectFailed) }),
    decreases i,
{
    if i > 0 {
        assert(!contains(ls[0], connected_text()));
        assert forall|j: int| 0 <= j < i - 1 implies !contains(#[trigger] ls.drop_first()[j], connected_text()) && !contains(ls.drop_first()[j], failed_text()) by {
            assert(ls.drop_first()[j] == ls[j + 1]);
        }
        lemma_first_failed(ls.drop_first(), i - 1);
    }
}

proof fn lemma_no_deciding_line(ls: Seq<Seq<char>>)
    requires
        forall|j: int| 0 <= j < ls.len() ==> !contains(#[trigger] ls[j], connected_text()) && !contains(ls[j], failed_text()),
    ensures
        connect_lines_readable(ls),
        connect_of_lines(ls) == (ConnectView { connected: false, group: seq![], server_id: seq![], server_fqdn: seq![], error: Some(Error::ParseFailed) }),
    decreases ls.len(),
{
    if ls.len() > 0 {
        assert(!contains(ls[0], connected_text()));
        assert forall|j: int| 0 <= j < ls.len() - 1 implies !contains(#[trigger] ls.drop_first()[j], connected_text()) && !contains(ls.drop_first()[j], failed_text()) by {
            assert(ls.drop_first()[j] == ls[j + 1]);
        }
        lemma_no_deciding_line(ls.drop_first());
    }
}

/// A connect answer reports a connection where its first line that holds
/// either the connected or the failed marker holds "You are connected to ":
/// the group, the server number and the host name are the first three
/// space-separated words after that marker (the host name without its
/// brackets and exclamation mark), whatever lines come before or after it;
/// and the answer can be read exactly when three such words are there.
pub proof fn law_connect_first_connected_line(text: Seq<char>, i: int)
    requires
        0 <= i < lines(text).len(),
        contains(lines(text)[i], "You are connected to "@),
        forall|j: int| 0 <= j < i ==> !contains(#[trigger] lines(text)[j], "You are connected to "@)
            && !contains(lines(text)[j], "The VPN connection has failed. Please check your internet connection and try connecting to the VPN again. If the issue persists, contact our customer support."@),
    ensures
        ({
            let w = split(split(lines(text)[i], "You are connected to "@)[1], " "@);
            &&& connect_report_readable(text) == (w.len() >= 3)
            &&& w.len() >= 3 ==> connect_report(text) == (ConnectView {
                connected: true,
                group: w[0],
                server_id: w[1],
                server_fqdn: remove_all(remove_all(w[2], "("@), ")!"@),
                error: None,
            })
        }),
{
    lemma_first_connected(lines(text), i);
}

/// A connect answer reports a failed connection where its first line that
/// holds either marker holds only the failed one.
pub proof fn law_connect_first_failed_line(text: Seq<char>, i: int)
    requires
        0 <= i < lines(text).len(),
        contains(lines(text)[i], "The VPN connection has failed. Please check your internet connection and try connecting to the VPN again. If the issue persists, contact our customer support."@),
        !contains(lines(text)[i], "You are connected to "@),
        forall|j: int| 0 <= j < i ==> !contains(#[trigger] lines(text)[j], "You are connected to "@)
            && !contains(lines(text)[j], "The VPN connection has failed. Please check your internet connection and try connecting to the VPN again. If the issue persists, contact our customer support."@),
    ensures
        connect_report_readable(text),
        connect_report(text) == (ConnectView { connected: false, group: seq![], server_id: seq![], server_fqdn: seq![], error: Some(Error::ConnectFailed) }),
{
    lemma_first_failed(lines(text), i);
}

/// A connect answer none of whose lines holds either marker is a parse
/// failure.
pub proof fn law_connect_no_marker(text: Seq<char>)
    requires
        forall|j: int| 0 <= j < lines(text).len() ==> !contains(#[trigger] lines(text)[j], "You are connected to "@)
            && !contains(lines(text)[j], "The VPN connection has failed. Please check your internet connection and try connecting to the VPN again. If the issue persists, contact our customer support."@),
    ensures
        connect_report_readable(text),
        connect_report(text) == (ConnectView { connected: false, group: seq![], server_id: seq![], server_fqdn: seq![], error: Some(Error::ParseFailed) }),
{
    lemma_no_deciding_line(lines(text));
}

/// Index of the last line that starts with `key`, or -1.
pub open spec fn last_keyed(ls: Seq<Seq<char>>, key: Seq<char>) -> int
    decreases ls.len(),
{
    if ls.len() == 0 {
        -1
    } else if is_prefix(key, ls.last()) {
        ls.len() - 1
    } else {
        last_keyed(ls.drop_last(), key)
    }
}

/// The last line that starts with `key`, with the key text removed; empty
/// where no line starts with it.
pub open spec fn keyed_value(ls: Seq<Seq<char>>, key: Seq<char>) -> Seq<char> {
    let i = last_keyed(ls, key);
    if i < 0 {
        seq![]
    } else {
        remove_all(ls[i], key)
    }
}

proof fn lemma_prefix_clash(p: Seq<char>, q: Seq<char>, s: Seq<char>, k: int)
    requires
        0 <= k < p.len(),
        k < q.len(),
        p[k] != q[k],
    ensures
        !(is_prefix(p, s) && is_prefix(q, s)),
{
    if is_prefix(p, s) && is_prefix(q, s) {
        assert(s.subrange(0, p.len() as int)[k] == s[k]);
        assert(s.subrange(0, q.len() as int)[k] == s[k]);
    }
}

proof fn lemma_status_line_fields(acc: crate::nordvpn::StatusView, l: Seq<char>)
    ensures
        status_line(acc, l).server == (if is_prefix("Server: "@, l) { remove_all(l, "Server: "@) } else { acc.server }),
        status_line(acc, l).hostname == (if is_prefix("Hostname: "@, l) { remove_all(l, "Hostname: "@) } else { acc.hostname }),
        status_line(acc, l).ip == (if is_prefix("IP: "@, l) { remove_all(l, "IP: "@) } else { acc.ip }),
        status_line(acc, l).country == (if is_prefix("Country: "@, l) { remove_all(l, "Country: "@) } else { acc.country }),
        status_line(acc, l).city == (if is_prefix("City: "@, l) { remove_all(l, "City: "@) } else { acc.city }),
        status_line(acc, l).technology == (if is_prefix("Current technology: "@, l) { remove_all(l, "Current technology: "@) } else { acc.technology }),
        status_line(acc, l).protocol == (if is_prefix("Current protocol: "@, l) { remove_all(l, "Current protocol: "@) } else { acc.protocol }),
        status_line(acc, l).transfer == (if is_prefix("Transfer: "@, l) { remove_all(l, "Transfer: "@) } else { acc.transfer }),
        status_line(acc, l).uptime == (if is_prefix("Uptime: "@, l) { remove_all(l, "Uptime: "@) } else { acc.uptime }),
        status_line(acc, l).connected == (if is_prefix("Status"@, l) { contains(l, "Connected"@) } else { acc.connected }),
        status_line(acc, l).post_quantum == (if is_prefix("Post-quantum VPN: "@, l) { !contains(l, "Disabled"@) } else { acc.post_quantum }),
{
    reveal_strlit("Status");
    reveal_strlit("Server: ");
    reveal_strlit("Hostname: ");
    reveal_strlit("IP: ");
    reveal_strlit("Country: ");
    reveal_strlit("City: ");
    reveal_strlit("Current technology: ");
    reveal_strlit("Current protocol: ");
    reveal_strlit("Post-quantum VPN: ");
    reveal_strlit("Transfer: ");
    reveal_strlit("Uptime: ");
    lemma_prefix_clash("Status"@, "Server: "@, l, 1);
    lemma_prefix_clash("Status"@, "Hostname: "@, l, 0);
    lemma_prefix_clash("Status"@, "IP: "@, l, 0);
    lemma_prefix_clash("Status"@, "Country: "@, l, 0);
    lemma_prefix_clash("Status"@, "City: "@, l, 0);
    lemma_prefix_clash("Status"@, "Current technology: "@, l, 0);
    lemma_prefix_clash("Status"@, "Current protocol: "@, l, 0);
    lemma_prefix_clash("Status"@, "Post-quantum VPN: "@, l, 0);
    lemma_prefix_clash("Status"@, "Transfer: "@, l, 0);
    lemma_prefix_clash("Status"@, "Uptime: "@, l, 0);
    lemma_prefix_clash("Server: "@, "Hostname: "@, l, 0);
    lemma_prefix_clash("Server: "@, "IP: "@, l, 0);
    lemma_prefix_clash("Server: "@, "Country: "@, l, 0);
    lemma_prefix_clash("Server: "@, "City: "@, l, 0);
    lemma_prefix_clash("Server: "@, "Current technology: "@, l, 0);
    lemma_prefix_clash("Server: "@, "Current protocol: "@, l, 0);
    lemma_prefix_clash("Server: "@, "Post-quantum VPN: "@, l, 0);
    lemma_prefix_clash("Server: "@, "Transfer: "@, l, 0);
    lemma_prefix_clash("Server: "@, "Uptime: "@, l, 0);
    lemma_prefix_clash("Hostname: "@, "IP: "@, l, 0);
    lemma_prefix_clash("Hostname: "@, "Country: "@, l, 0);
    lemma_prefix_clash("Hostname: "@, "City: "@, l, 0);
    lemma_prefix_clash("Hostname: "@, "Current technology: "@, l, 0);
    lemma_prefix_clash("Hostname: "@, "Current protocol: "@, l, 0);
    lemma_prefix_clash("Hostname: "@, "Post-quantum VPN: "@, l, 0);
    lemma_prefix_clash("Hostname: "@, "Transfer: "@, l, 0);
    lemma_prefix_clash("Hostname: "@, "Uptime: "@, l, 0);
    lemma_prefix_clash("IP: "@, "Country: "@, l, 0);
    lemma_prefix_clash("IP: "@, "City: "@, l, 0);
    lemma_prefix_clash("IP: "@, "Current technology: "@, l, 0);
    lemma_prefix_clash("IP: "@, "Current protocol: "@, l, 0);
    lemma_prefix_clash("IP: "@, "Post-quantum VPN: "@, l, 0);
    lemma_prefix_clash("IP: "@, "Transfer: "@, l, 0);
    lemma_prefix_clash("IP: "@, "Uptime: "@, l, 0);
    lemma_prefix_clash("Country: "@, "City: "@, l, 1);
    lemma_prefix_clash("Country: "@, "Current technology: "@, l, 1);
    lemma_prefix_clash("Country: "@, "Current protocol: "@, l, 1);
    lemma_prefix_clash("Country: "@, "Post-quantum VPN: "@, l, 0);
    lemma_prefix_clash("Country: "@, "Transfer: "@, l, 0);
    lemma_prefix_clash("Country: "@, "Uptime: "@, l, 0);
    lemma_prefix_clash("City: "@, "Current technology: "@, l, 1);
    lemma_prefix_clash("City: "@, "Current protocol: "@, l, 1);
    lemma_prefix_clash("City: "@, "Post-quantum VPN: "@, l, 0);
    lemma_prefix_clash("City: "@, "Transfer: "@, l, 0);
    lemma_prefix_clash("City: "@, "Uptime: "@, l, 0);
    lemma_prefix_clash("Current technology: "@, "Current protocol: "@, l, 8);
    lemma_prefix_clash("Current technology: "@, "Post-quantum VPN: "@, l, 0);
    lemma_prefix_clash("Current technology: "@, "Transfer: "@, l, 0);
    lemma_prefix_clash("Current technology: "@, "Uptime: "@, l, 0);
    lemma_prefix_clash("Current protocol: "@, "Post-quantum VPN: "@, l, 0);
    lemma_prefix_clash("Current protocol: "@, "Transfer: "@, l, 0);
    lemma_prefix_clash("Current protocol: "@, "Uptime: "@, l, 0);
    lemma_prefix_clash("Post-quantum VPN: "@, "Transfer: "@, l, 0);
    lemma_prefix_clash("Post-quantum VPN: "@, "Uptime: "@, l, 0);
    lemma_prefix_clash("Transfer: "@, "Uptime: "@, l, 0);
}

proof fn lemma_status_lines_fields(ls: Seq<Seq<char>>)
    ensures
        status_of_lines(ls).server == keyed_value(ls, "Server: "@),
        status_of_lines(ls).hostname == keyed_value(ls, "Hostname: "@),
        status_of_lines(ls).ip == keyed_value(ls, "IP: "@),
        status_of_lines(ls).country == keyed_value(ls, "Country: "@),
        status_of_lines(ls).city == keyed_value(ls, "City: "@),
        status_of_lines(ls).technology == keyed_value(ls, "Current technology: "@),
        status_of_lines(ls).protocol == keyed_value(ls, "Current protocol: "@),
        status_of_lines(ls).transfer == keyed_value(ls, "Transfer: "@),
        status_of_lines(ls).uptime == keyed_value(ls, "Uptime: "@),
        status_of_lines(ls).connected == (last_keyed(ls, "Status"@) >= 0 && contains(ls[last_keyed(ls, "Status"@)], "Connected"@)),
        status_of_lines(ls).post_quantum == (last_keyed(ls, "Post-quantum VPN: "@) >= 0 && !contains(ls[last_keyed(ls, "Post-quantum VPN: "@)], "Disabled"@)),
    decreases ls.len(),
{
    if ls.len() > 0 {
        let p = ls.drop_last();
        lemma_status_lines_fields(p);
        lemma_status_line_fields(status_of_lines(p), ls.last());
        lemma_last_keyed_bounds(p, "Status"@);
        lemma_last_keyed_bounds(p, "Server: "@);
        lemma_last_keyed_bounds(p, "Hostname: "@);
        lemma_last_keyed_bounds(p, "IP: "@);
        lemma_last_keyed_bounds(p, "Country: "@);
        lemma_last_keyed_bounds(p, "City: "@);
        lemma_last_keyed_bounds(p, "Current technology: "@);
        lemma_last_keyed_bounds(p, "Current protocol: "@);
        lemma_last_keyed_bounds(p, "Post-quantum VPN: "@);
        lemma_last_keyed_bounds(p, "Transfer: "@);
        lemma_last_keyed_bounds(p, "Uptime: "@);
    }
}

proof fn lemma_last_keyed_bounds(ls: Seq<Seq<char>>, key: Seq<char>)
    ensures
        -1 <= last_keyed(ls, key) < ls.len(),
        last_keyed(ls, key) >= 0 ==> is_prefix(key, ls[last_keyed(ls, key)]),
    decreases ls.len(),
{
    if ls.len() > 0 && !is_prefix(key, ls.last()) {
        lemma_last_keyed_bounds(ls.drop_last(), key);
    }
}

/// Each field of the connection report comes from the last line of the
/// status answer that starts with the field's key ("Server: ", "Hostname: ",
/// "IP: ", "Country: ", "City: ", "Current technology: ", "Current
/// protocol: ", "Transfer: ", "Uptime: "): that line with the key text
/// removed, the whole rest of the line; empty where no line has the key. The
/// connection flag is whether the last line starting with "Status" says
/// "Connected", and post-quantum whether the last line starting with
/// "Post-quantum VPN: " does not say "Disabled".
pub proof fn law_status_fields(text: Seq<char>)
    ensures
        status_report(text).server == keyed_value(lines(text), "Server: "@),
        status_report(text).hostname == keyed_value(lines(text), "Hostname: "@),
        status_report(text).ip == keyed_value(lines(text), "IP: "@),
        status_report(text).country == keyed_value(lines(text), "Country: "@),
        status_report(text).city == keyed_value(lines(text), "City: "@),
        status_report(text).technology == keyed_value(lines(text), "Current technology: "@),
        status_report(text).protocol == keyed_value(lines(text), "Current protocol: "@),
        status_report(text).transfer == keyed_value(lines(text), "Transfer: "@),
        status_report(text).uptime == keyed_value(lines(text), "Uptime: "@),
        status_report(text).connected == (last_keyed(lines(text), "Status"@) >= 0 && contains(lines(text)[last_keyed(lines(text), "Status"@)], "Connected"@)),
        status_report(text).post_quantum == (last_keyed(lines(text), "Post-quantum VPN: "@) >= 0 && !contains(lines(text)[last_keyed(lines(text), "Post-quantum VPN: "@)], "Disabled"@)),
{
    lemma_status_lines_fields(lines(text));
}

proof fn lemma_remove_absent(s: Seq<char>, p: Seq<char>)
    requires
        p.len() > 0,
        !contains(s, p),
    ensures
        remove_all(s, p) == s,
    decreases s.len(),
{
    if s.len() > 0 {
        if is_prefix(p, s) {
            assert(occurs_at(s, p, 0));
        }
        let t = s.drop_first();
        assert(!contains(t, p)) by {
            if contains(t, p) {
                let k = choose|k: int| occurs_at(t, p, k);
                assert(s.subrange(k + 1, k + 1 + p.len()) =~= t.subrange(k, k + p.len()));
                assert(occurs_at(s, p, k + 1));
            }
        }
        lemma_remove_absent(t, p);
        assert(seq![s[0]] + t =~= s);
    }
}

/// A keyed line gives back exactly the text after its key, spaces included,
/// where that text does not itself hold the key.
pub proof fn law_keyed_line_value(key: Seq<char>, v: Seq<char>)
    requires
        key.len() > 0,
        !contains(v, key),
    ensures
        is_prefix(key, key + v),
        remove_all(key + v, key) == v,
{
    let s = key + v;
    assert(s.subrange(0, key.len() as int) =~= key);
    assert(s.skip(key.len() as int) =~= v);
    lemma_remove_absent(v, key);
}

/// Any status answer of the daemon's script that says "nordvpn is not
/// running" anywhere, whatever comes before or after, reads as stopped; one
/// that does not say it reads as unknown.
pub proof fn law_daemon_not_running(a: Seq<char>, b: Seq<char>, other: Seq<char>)
    requires
        !contains(other, "nordvpn is not running"@),
    ensures
        status_of(a + "nordvpn is not running"@ + b) == DeamonStatus::Stopped,
        status_of(other) == DeamonStatus::Unknown,
{
    let p = "nordvpn is not running"@;
    let s = a + p + b;
    assert(s.subrange(a.len() as int, (a.len() + p.len()) as int) =~= p);
    assert(occurs_at(s, p, a.len() as int));
}

/// Each command passes the client its own arguments; each switch is named by
/// its own command line name, no two alike, followed by "true" or "false".
pub proof fn law_command_arguments(token: Seq<char>, b: bool)
    ensures
        command_args_spec(token, NordVpnCommand::ChangeSetting(NordVpnSetting::Analytics, b)) == seq!["set"@, "analytics"@, if b { "true"@ } else { "false"@ }],
        command_args_spec(token, NordVpnCommand::ChangeSetting(NordVpnSetting::Firewall, b)) == seq!["set"@, "firewall"@, if b { "true"@ } else { "false"@ }],
        command_args_spec(token, NordVpnCommand::ChangeSetting(NordVpnSetting::LanDiscovery, b)) == seq!["set"@, "lan-discovery"@, if b { "true"@ } else { "false"@ }],
        command_args_spec(token, NordVpnCommand::ChangeSetting(NordVpnSetting::Routing, b)) == seq!["set"@, "routing"@, if b { "true"@ } else { "false"@ }],
        command_args_spec(token, NordVpnCommand::ChangeSetting(NordVpnSetting::Tray, b)) == seq!["set"@, "tray"@, if b { "true"@ } else { "false"@ }],
        command_args_spec(token, NordVpnCommand::ChangeSetting(NordVpnSetting::VirtualLocation, b)) == seq!["set"@, "virtual-location"@, if b { "true"@ } else { "false"@ }],
        forall|s1: NordVpnSetting, s2: NordVpnSetting, b1: bool, b2: bool|
            #![trigger command_args_spec(token, NordVpnCommand::ChangeSetting(s1, b1)), command_args_spec(token, NordVpnCommand::ChangeSetting(s2, b2))]
            command_args_spec(token, NordVpnCommand::ChangeSetting(s1, b1)) == command_args_spec(token, NordVpnCommand::ChangeSetting(s2, b2))
                ==> s1 == s2 && b1 == b2,
        command_args_spec(token, NordVpnCommand::Account) == seq!["account"@],
        command_args_spec(token, NordVpnCommand::Disconnect) == seq!["disconnect"@],
        command_args_spec(token, NordVpnCommand::Login) == seq!["login"@, "--token"@, token],
        command_args_spec(token, NordVpnCommand::Status) == seq!["status"@],
        command_args_spec(token, NordVpnCommand::Version) == seq!["version"@],
        command_args_spec(token, NordVpnCommand::Connect(None)) == seq!["connect"@],
{
    reveal_strlit("analytics");
    reveal_strlit("firewall");
    reveal_strlit("lan-discovery");
    reveal_strlit("routing");
    reveal_strlit("tray");
    reveal_strlit("virtual-location");
    reveal_strlit("true");
    reveal_strlit("false");
    assert forall|s1: NordVpnSetting, s2: NordVpnSetting, b1: bool, b2: bool|
        #![trigger command_args_spec(token, NordVpnCommand::ChangeSetting(s1, b1)), command_args_spec(token, NordVpnCommand::ChangeSetting(s2, b2))]
        command_args_spec(token, NordVpnCommand::ChangeSetting(s1, b1)) == command_args_spec(token, NordVpnCommand::ChangeSetting(s2, b2))
            implies s1 == s2 && b1 == b2 by {
        let a1 = command_args_spec(token, NordVpnCommand::ChangeSetting(s1, b1));
        let a2 = command_args_spec(token, NordVpnCommand::ChangeSetting(s2, b2));
        assert(a1[1] == a2[1]);
        assert(a1[2] == a2[2]);
        assert(a1[1].len() == a2[1].len());
        assert(a1[2].len() == a2[2].len());
    }
}

/// The wait after a start lasts the timeout given to it: unless the daemon
/// already runs (then the wait is over), the deadline is the clock reading
/// plus that timeout; before the deadline the status is read again, and the
/// wait ends at the deadline or as soon as the daemon runs, the deadline
/// kept meanwhile.
pub proof fn law_start_deadline(t: u8, s: DeamonStatus, now: u64, later: u64, deadline: u64)
    requires
        now + t <= u64::MAX,
    ensures
        s == DeamonStatus::Running ==> start_next(DaemonStartPhase::FirstStatus { timeout: t }, DaemonStartEvent::Status(s)) == DaemonStartPhase::Done,
        s != DeamonStatus::Running ==> start_next(
            start_next(DaemonStartPhase::FirstStatus { timeout: t }, DaemonStartEvent::Status(s)),
            DaemonStartEvent::Clock(now),
        ) == (DaemonStartPhase::CheckClock { deadline: (now + t) as u64 }),
        later < deadline ==> start_next(DaemonStartPhase::CheckClock { deadline }, DaemonStartEvent::Clock(later)) == (DaemonStartPhase::PollStatus { deadline }),
        later >= deadline ==> start_next(DaemonStartPhase::CheckClock { deadline }, DaemonStartEvent::Clock(later)) == DaemonStartPhase::Done,
        s == DeamonStatus::Running ==> start_next(DaemonStartPhase::PollStatus { deadline }, DaemonStartEvent::Status(s)) == DaemonStartPhase::Done,
        s != DeamonStatus::Running ==> start_next(DaemonStartPhase::PollStatus { deadline }, DaemonStartEvent::Status(s)) == (DaemonStartPhase::CheckClock { deadline }),
{
}

} // verus!
