//! The NordVPN command line client: the command lines that the proxy runs,
//! the reading of their answers (the connect and status reports among them),
//! and the round-robin queue of connection filters.
use vstd::prelude::*;
use std::collections::VecDeque;
use crate::daemon::{CommandOutput, Daemon, DaemonStart, StatusOutput, status_of};
use crate::text::{
    chars_of, contains, contains_exec, is_prefix, lines, lines_exec, owned, remove_all,
    remove_all_exec, split, split_exec, starts_with, string_from_chars, string_views, trim,
    trim_string, views, lemma_split_two,
};

verus! {

/// Why an operation of the client failed.
#[derive(Debug, Clone, Copy, PartialEq, Eq, Structural)]
pub enum Error {
    AccountCommandFailed,
    ConnectFailed,
    DnsLookupFailed,
    FilterDisabled,
    ParseFailed,
}

/// The outcome of a connection attempt.
#[derive(Debug)]
pub struct NordVpnConnectOutput {
    pub connected: bool,
    pub group: String,
    pub server_id: String,
    pub server_fqdn: String,
    pub error: Option<Error>,
}

/// The model of a connection outcome.
pub struct ConnectView {
    pub connected: bool,
    pub group: Seq<char>,
    pub server_id: Seq<char>,
    pub server_fqdn: Seq<char>,
    pub error: Option<Error>,
}

impl View for NordVpnConnectOutput {
    type V = ConnectView;

    open spec fn view(&self) -> ConnectView {
        ConnectView {
            connected: self.connected,
            group: self.group@,
            server_id: self.server_id@,
            server_fqdn: self.server_fqdn@,
            error: self.error,
        }
    }
}

/// The connection report of the client.
#[derive(Debug)]
pub struct NordVpnStatusOutput {
    pub connected: bool,
    pub server: String,
    pub hostname: String,
    pub ip: String,
    pub country: String,
    pub city: String,
    pub technology: String,
    pub protocol: String,
    pub post_quantum: bool,
    pub transfer: String,
    pub uptime: String,
}

/// The model of a connection report.
pub struct StatusView {
    pub connected: bool,
    pub server: Seq<char>,
    pub hostname: Seq<char>,
    pub ip: Seq<char>,
    pub country: Seq<char>,
    pub city: Seq<char>,
    pub technology: Seq<char>,
    pub protocol: Seq<char>,
    pub post_quantum: bool,
    pub transfer: Seq<char>,
    pub uptime: Seq<char>,
}

impl View for NordVpnStatusOutput {
    type V = StatusView;

    open spec fn view(&self) -> StatusView {
        StatusView {
            connected: self.connected,
            server: self.server@,
            hostname: self.hostname@,
            ip: self.ip@,
            country: self.country@,
            city: self.city@,
            technology: self.technology@,
            protocol: self.protocol@,
            post_quantum: self.post_quantum,
            transfer: self.transfer@,
            uptime: self.uptime@,
        }
    }
}

/// The outcome of a disconnection.
#[derive(Debug)]
pub struct NordVpnDisconnectOutput {
    pub disconnected: bool,
}

/// The switches of the client that the proxy sets.
#[derive(Debug, Clone, Copy, PartialEq, Eq, Structural)]
pub enum NordVpnSetting {
    Analytics,
    Firewall,
    LanDiscovery,
    Routing,
    Tray,
    VirtualLocation,
}

/// The commands of the client that the proxy runs.
pub enum NordVpnCommand {
    Account,
    Connect(Option<String>),
    Disconnect,
    Login,
    ChangeSetting(NordVpnSetting, bool),
    Status,
    Version,
}

/// The client binary at `path`, logged in with `token`, with its daemon and
/// the queue of connection filters that rotation walks through.
pub struct NordVPN {
    path: String,
    token: String,
    daemon: Daemon,
    dns_lookup: Option<String>,
    filter_enabled: bool,
    filter: VecDeque<String>,
}

/// The model of a client.
pub struct NordVpnView {
    pub path: Seq<char>,
    pub token: Seq<char>,
    pub daemon_path: Seq<char>,
    pub dns_lookup: Option<Seq<char>>,
    pub filter_enabled: bool,
    pub filter: Seq<Seq<char>>,
}

impl View for NordVPN {
    type V = NordVpnView;

    closed spec fn view(&self) -> NordVpnView {
        NordVpnView {
            path: self.path@,
            token: self.token@,
            daemon_path: self.daemon.path_view(),
            dns_lookup: match self.dns_lookup {
                Some(d) => Some(d@),
                None => None,
            },
            filter_enabled: self.filter_enabled,
            filter: string_views(self.filter@),
        }
    }
}

/// No element occurs twice.
pub open spec fn distinct(s: Seq<Seq<char>>) -> bool {
    forall|i: int, j: int| 0 <= i < j < s.len() ==> s[i] != s[j]
}

/// The name of a switch on the client's command line.
pub open spec fn setting_name(s: NordVpnSetting) -> Seq<char> {
    match s {
        NordVpnSetting::Analytics => "analytics"@,
        NordVpnSetting::Firewall => "firewall"@,
        NordVpnSetting::LanDiscovery => "lan-discovery"@,
        NordVpnSetting::Routing => "routing"@,
        NordVpnSetting::Tray => "tray"@,
        NordVpnSetting::VirtualLocation => "virtual-location"@,
    }
}

/// A boolean as the client reads it.
pub open spec fn bool_text(b: bool) -> Seq<char> {
    if b {
        "true"@
    } else {
        "false"@
    }
}

/// The arguments that a command passes to the client.
pub open spec fn command_args_spec(token: Seq<char>, c: NordVpnCommand) -> Seq<Seq<char>> {
    match c {
        NordVpnCommand::Account => seq!["account"@],
        NordVpnCommand::Connect(None) => seq!["connect"@],
        NordVpnCommand::Connect(Some(f)) => seq!["connect"@, f@],
        NordVpnCommand::Disconnect => seq!["disconnect"@],
        NordVpnCommand::Login => seq!["login"@, "--token"@, token],
        NordVpnCommand::ChangeSetting(s, b) => seq!["set"@, setting_name(s), bool_text(b)],
        NordVpnCommand::Status => seq!["status"@],
        NordVpnCommand::Version => seq!["version"@],
    }
}

/// The text that ends a report of a successful connection line's prefix.
pub open spec fn connected_marker() -> Seq<char> {
    "You are connected to "@
}

/// The line with which the client reports a failed connection.
pub open spec fn failed_marker() -> Seq<char> {
    "The VPN connection has failed. Please check your internet connection and try connecting to the VPN again. If the issue persists, contact our customer support."@
}

/// The space-separated words that follow the first connected marker of a line
/// (up to a second marker, if any).
pub open spec fn connect_words(line: Seq<char>) -> Seq<Seq<char>> {
    split(split(line, connected_marker())[1], " "@)
}

/// A failed connection outcome with the given error.
pub open spec fn connect_failure(e: Error) -> ConnectView {
    ConnectView { connected: false, group: seq![], server_id: seq![], server_fqdn: seq![], error: Some(e) }
}

/// A successful connection outcome read from a connected line: the group,
/// the server number, and the host name without its brackets and the final
/// exclamation mark.
pub open spec fn connected_outcome(line: Seq<char>) -> ConnectView {
    let w = connect_words(line);
    ConnectView {
        connected: true,
        group: w[0],
        server_id: w[1],
        server_fqdn: remove_all(remove_all(w[2], "("@), ")!"@),
        error: None,
    }
}

/// The outcome that the first line naming success or failure gives; a parse
/// failure without such a line.
pub open spec fn connect_of_lines(ls: Seq<Seq<char>>) -> ConnectView
    decreases ls.len(),
{
    if ls.len() == 0 {
        connect_failure(Error::ParseFailed)
    } else if contains(ls[0], connected_marker()) {
        connected_outcome(ls[0])
    } else if contains(ls[0], failed_marker()) {
        connect_failure(Error::ConnectFailed)
    } else {
        connect_of_lines(ls.drop_first())
    }
}

/// The deciding line, if it reports success, names at least three words.
pub open spec fn connect_lines_readable(ls: Seq<Seq<char>>) -> bool
    decreases ls.len(),
{
    if ls.len() == 0 {
        true
    } else if contains(ls[0], connected_marker()) {
        connect_words(ls[0]).len() >= 3
    } else if contains(ls[0], failed_marker()) {
        true
    } else {
        connect_lines_readable(ls.drop_first())
    }
}

/// The outcome that the answer of a connect command reports.
pub open spec fn connect_report(text: Seq<char>) -> ConnectView {
    connect_of_lines(lines(text))
}

/// A connection outcome marked as followed by a failed name lookup.
pub open spec fn lookup_failed(o: ConnectView) -> ConnectView {
    ConnectView { error: Some(Error::DnsLookupFailed), ..o }
}

/// The answer of a connect command can be read.
pub open spec fn connect_report_readable(text: Seq<char>) -> bool {
    connect_lines_readable(lines(text))
}

/// The empty connection report.
pub open spec fn status_default() -> StatusView {
    StatusView {
        connected: false,
        server: seq![],
        hostname: seq![],
        ip: seq![],
        country: seq![],
        city: seq![],
        technology: seq![],
        protocol: seq![],
        post_quantum: false,
        transfer: seq![],
        uptime: seq![],
    }
}

/// One line of a status answer applied to the report read so far: the line's
/// key, by its prefix, selects the field that the line's text (without the
/// key) replaces.
pub open spec fn status_line(acc: StatusView, line: Seq<char>) -> StatusView {
    if is_prefix("Status"@, line) {
        StatusView { connected: contains(line, "Connected"@), ..acc }
    } else if is_prefix("Server: "@, line) {
        StatusView { server: remove_all(line, "Server: "@), ..acc }
    } else if is_prefix("Hostname: "@, line) {
        StatusView { hostname: remove_all(line, "Hostname: "@), ..acc }
    } else if is_prefix("IP: "@, line) {
        StatusView { ip: remove_all(line, "IP: "@), ..acc }
    } else if is_prefix("Country: "@, line) {
        StatusView { country: remove_all(line, "Country: "@), ..acc }
    } else if is_prefix("City: "@, line) {
        StatusView { city: remove_all(line, "City: "@), ..acc }
    } else if is_prefix("Current technology: "@, line) {
        StatusView { technology: remove_all(line, "Current technology: "@), ..acc }
    } else if is_prefix("Current protocol: "@, line) {
        StatusView { protocol: remove_all(line, "Current protocol: "@), ..acc }
    } else if is_prefix("Post-quantum VPN: "@, line) {
        StatusView { post_quantum: !contains(line, "Disabled"@), ..acc }
    } else if is_prefix("Transfer: "@, line) {
        StatusView { transfer: remove_all(line, "Transfer: "@), ..acc }
    } else if is_prefix("Uptime: "@, line) {
        StatusView { uptime: remove_all(line, "Uptime: "@), ..acc }
    } else {
        acc
    }
}

/// The report that a sequence of status lines gives, read in order.
pub open spec fn status_of_lines(ls: Seq<Seq<char>>) -> StatusView
    decreases ls.len(),
{
    if ls.len() == 0 {
        status_default()
    } else {
        status_line(status_of_lines(ls.drop_last()), ls.last())
    }
}

/// The report that the answer of a status command gives.
pub open spec fn status_report(text: Seq<char>) -> StatusView {
    status_of_lines(lines(text))
}

/// The queue after one rotation step: its head moves to the back.
pub open spec fn rotate_queue(q: Seq<Seq<char>>) -> Seq<Seq<char>> {
    if q.len() == 0 {
        q
    } else {
        q.drop_first().push(q[0])
    }
}

fn empty_string() -> (s: String)
    ensures
        s@ == Seq::<char>::empty(),
{
    String::new()
}

fn failure_output(e: Error) -> (r: NordVpnConnectOutput)
    ensures
        r@ == connect_failure(e),
{
    NordVpnConnectOutput {
        connected: false,
        group: empty_string(),
        server_id: empty_string(),
        server_fqdn: empty_string(),
        error: Some(e),
    }
}

/// The outcome read from a line that holds the connected marker, if its words
/// can be read.
fn connected_line(line: &Vec<char>) -> (r: Option<NordVpnConnectOutput>)
    requires
        contains(line@, connected_marker()),
    ensures
        r is Some <==> connect_words(line@).len() >= 3,
        r matches Some(o) ==> o@ == connected_outcome(line@),
{
    let marker = chars_of("You are connected to ");
    proof {
        reveal_strlit("You are connected to ");
        lemma_split_two(line@, marker@);
    }
    let pieces = split_exec(line, &marker);
    assert(views(pieces@)[1] == pieces@[1]@);
    let space = chars_of(" ");
    proof {
        reveal_strlit(" ");
    }
    let words = split_exec(&pieces[1], &space);
    if words.len() < 3 {
        return None;
    }
    assert(views(words@)[0] == words@[0]@);
    assert(views(words@)[1] == words@[1]@);
    assert(views(words@)[2] == words@[2]@);
    let open_bracket = chars_of("(");
    let close_mark = chars_of(")!");
    let fqdn = remove_all_exec(&remove_all_exec(&words[2], &open_bracket), &close_mark);
    Some(NordVpnConnectOutput {
        connected: true,
        group: string_from_chars(words[0].as_slice()),
        server_id: string_from_chars(words[1].as_slice()),
        server_fqdn: string_from_chars(fqdn.as_slice()),
        error: None,
    })
}

/// Reads a connect answer: `None` where its deciding line cannot be read.
fn read_connect_report(text: &str) -> (r: Option<NordVpnConnectOutput>)
    ensures
        r is Some <==> connect_report_readable(text@),
        r matches Some(o) ==> o@ == connect_report(text@),
{
    let chars = chars_of(text);
    let ls = lines_exec(&chars);
    let connected = chars_of("You are connected to ");
    let failed = chars_of(
        "The VPN connection has failed. Please check your internet connection and try connecting to the VPN again. If the issue persists, contact our customer support.",
    );
    let mut i: usize = 0;
    assert(views(ls@).skip(0) =~= views(ls@));
    while i < ls.len()
        invariant
            i <= ls.len(),
            views(ls@) == lines(text@),
            connected@ == connected_marker(),
            failed@ == failed_marker(),
            connect_of_lines(views(ls@).skip(i as int)) == connect_report(text@),
            connect_lines_readable(views(ls@).skip(i as int)) == connect_report_readable(text@),
        decreases ls.len() - i,
    {
        let ghost rest = views(ls@).skip(i as int);
        assert(rest[0] == ls@[i as int]@);
        assert(rest.drop_first() =~= views(ls@).skip(i + 1));
        if contains_exec(&ls[i], &connected) {
            return connected_line(&ls[i]);
        }
        if contains_exec(&ls[i], &failed) {
            return Some(failure_output(Error::ConnectFailed));
        }
        i = i + 1;
    }
    assert(views(ls@).skip(i as int).len() == 0);
    Some(failure_output(Error::ParseFailed))
}

/// The report read so far, with one more status line applied.
fn apply_status_line(acc: &mut NordVpnStatusOutput, line: &Vec<char>)
    ensures
        final(acc)@ == status_line(old(acc)@, line@),
{
    if starts_with(line, &chars_of("Status")) {
        acc.connected = contains_exec(line, &chars_of("Connected"));
    } else if starts_with(line, &chars_of("Server: ")) {
        acc.server = string_from_chars(remove_all_exec(line, &chars_of("Server: ")).as_slice());
    } else if starts_with(line, &chars_of("Hostname: ")) {
        acc.hostname = string_from_chars(remove_all_exec(line, &chars_of("Hostname: ")).as_slice());
    } else if starts_with(line, &chars_of("IP: ")) {
        acc.ip = string_from_chars(remove_all_exec(line, &chars_of("IP: ")).as_slice());
    } else if starts_with(line, &chars_of("Country: ")) {
        acc.country = string_from_chars(remove_all_exec(line, &chars_of("Country: ")).as_slice());
    } else if starts_with(line, &chars_of("City: ")) {
        acc.city = string_from_chars(remove_all_exec(line, &chars_of("City: ")).as_slice());
    } else if starts_with(line, &chars_of("Current technology: ")) {
        acc.technology = string_from_chars(
            remove_all_exec(line, &chars_of("Current technology: ")).as_slice(),
        );
    } else if starts_with(line, &chars_of("Current protocol: ")) {
        acc.protocol = string_from_chars(
            remove_all_exec(line, &chars_of("Current protocol: ")).as_slice(),
        );
    } else if starts_with(line, &chars_of("Post-quantum VPN: ")) {
        acc.post_quantum = !contains_exec(line, &chars_of("Disabled"));
    } else if starts_with(line, &chars_of("Transfer: ")) {
        acc.transfer = string_from_chars(remove_all_exec(line, &chars_of("Transfer: ")).as_slice());
    } else if starts_with(line, &chars_of("Uptime: ")) {
        acc.uptime = string_from_chars(remove_all_exec(line, &chars_of("Uptime: ")).as_slice());
    }
}

fn empty_status() -> (r: NordVpnStatusOutput)
    ensures
        r@ == status_default(),
{
    NordVpnStatusOutput {
        connected: false,
        server: empty_string(),
        hostname: empty_string(),
        ip: empty_string(),
        country: empty_string(),
        city: empty_string(),
        technology: empty_string(),
        protocol: empty_string(),
        post_quantum: false,
        transfer: empty_string(),
        uptime: empty_string(),
    }
}

impl NordVPN {
    /// A client for the binary at `path` with the login `token`. Without
    /// filters, rotation is enabled and walks an empty queue; with filters,
    /// rotation is disabled and the queue holds each filter once.
    pub fn new(path: String, token: String, filter: Option<Vec<String>>, dns_lookup: Option<String>) -> (r: Result<Self, &'static str>)
        ensures
            r matches Ok(n) && {
                &&& n@.path == path@
                &&& n@.token == token@
                &&& n@.daemon_path == "/etc/init.d/nordvpn"@
                &&& n@.dns_lookup == match dns_lookup { Some(d) => Some(d@), None => None::<Seq<char>> }
                &&& n@.filter_enabled == (filter is None)
                &&& distinct(n@.filter)
                &&& match filter {
                    None => n@.filter.len() == 0,
                    Some(v) => n@.filter.to_set() == string_views(v@).to_set(),
                }
            },
    {
        let daemon = match Daemon::new() {
            Ok(d) => d,
            Err(e) => return Err(e),
        };
        let filter_enabled = filter.is_none();
        let mut queue: VecDeque<String> = VecDeque::new();
        match filter {
            None => {
            },
            Some(v) => {
                let mut i: usize = 0;
                while i < v.len()
                    invariant
                        i <= v.len(),
                        distinct(string_views(queue@)),
                        string_views(queue@).to_set() == string_views(v@.take(i as int)).to_set(),
                    decreases v.len() - i,
                {
                    let ghost before = queue@;
                    let mut found = false;
                    let mut k: usize = 0;
                    while k < queue.len()
                        invariant
                            k <= queue.len(),
                            i < v.len(),
                            found <==> exists|j: int| 0 <= j < k && queue@[j]@ == v@[i as int]@,
                        decreases queue.len() - k,
                    {
                        if queue[k] == v[i] {
                            found = true;
                        }
                        k = k + 1;
                    }
                    proof {
                        assert(v@.take(i + 1) =~= v@.take(i as int).push(v@[i as int]));
                        assert(string_views(v@.take(i + 1)) =~= string_views(v@.take(i as int)).push(v@[i as int]@));
                    }
                    if !found {
                        queue.push_back(v[i].clone());
                        proof {
                            assert(string_views(queue@) =~= string_views(before).push(v@[i as int]@));
                            assert(string_views(before).to_set().insert(v@[i as int]@) =~= string_views(before).push(v@[i as int]@).to_set()) by {
                                string_views(before).lemma_push_to_set_commute(v@[i as int]@);
                            }
                            string_views(v@.take(i as int)).lemma_push_to_set_commute(v@[i as int]@);
                        }
                    } else {
                        proof {
                            let j = choose|j: int| 0 <= j < queue@.len() && queue@[j]@ == v@[i as int]@;
                            assert(string_views(before)[j] == v@[i as int]@);
                            string_views(v@.take(i as int)).lemma_push_to_set_commute(v@[i as int]@);
                            assert(string_views(before).to_set().contains(v@[i as int]@));
                            assert(string_views(before).to_set().insert(v@[i as int]@) =~= string_views(before).to_set());
                        }
                    }
                    i = i + 1;
                }
                assert(v@.take(v@.len() as int) =~= v@);
            },
        }
        Ok(NordVPN { path, token, daemon, dns_lookup, filter_enabled, filter: queue })
    }

    /// The command line that runs a command of the client: the binary and the
    /// command's arguments.
    pub fn command_line(&self, command: &NordVpnCommand) -> (argv: Vec<String>)
        ensures
            string_views(argv@) == seq![self@.path] + command_args_spec(self@.token, *command),
    {
        let mut argv: Vec<String> = Vec::new();
        argv.push(self.path.clone());
        match command {
            NordVpnCommand::Account => {
                argv.push(owned("account"));
            },
            NordVpnCommand::Connect(f) => {
                argv.push(owned("connect"));
                match f {
                    Some(f) => {
                        argv.push(f.clone());
                    },
                    None => {},
                }
            },
            NordVpnCommand::Disconnect => {
                argv.push(owned("disconnect"));
            },
            NordVpnCommand::Login => {
                argv.push(owned("login"));
                argv.push(owned("--token"));
                argv.push(self.token.clone());
            },
            NordVpnCommand::ChangeSetting(s, b) => {
                argv.push(owned("set"));
                let name = match s {
                    NordVpnSetting::Analytics => owned("analytics"),
                    NordVpnSetting::Firewall => owned("firewall"),
                    NordVpnSetting::LanDiscovery => owned("lan-discovery"),
                    NordVpnSetting::Routing => owned("routing"),
                    NordVpnSetting::Tray => owned("tray"),
                    NordVpnSetting::VirtualLocation => owned("virtual-location"),
                };
                argv.push(name);
                argv.push(if *b { owned("true") } else { owned("false") });
            },
            NordVpnCommand::Status => {
                argv.push(owned("status"));
            },
            NordVpnCommand::Version => {
                argv.push(owned("version"));
            },
        }
        assert(string_views(argv@) =~= seq![self@.path] + command_args_spec(self@.token, *command));
        argv
    }

    /// What a run of the client reported: its standard output when it
    /// succeeded, its error output without surrounding whitespace when it
    /// failed.
    pub fn command_output(&self, success: bool, stdout: String, stderr: String) -> (r: CommandOutput)
        ensures
            r.status == success,
            r.output@ == if success { stdout@ } else { trim(stderr@) },
    {
        if success {
            CommandOutput { status: true, output: stdout }
        } else {
            CommandOutput { status: false, output: trim_string(stderr.as_str()) }
        }
    }

    /// The account details, from the answer of the account command.
    pub fn account(&self, answer: CommandOutput) -> (r: Result<String, Error>)
        ensures
            answer.status ==> (r matches Ok(s) && s@ == answer.output@),
            !answer.status ==> r == Err::<String, Error>(Error::AccountCommandFailed),
    {
        if answer.status {
            Ok(answer.output)
        } else {
            Err(Error::AccountCommandFailed)
        }
    }

    /// Whether the answer of a connect command can be read: where its deciding
    /// line reports success, that line names the group, the server number and
    /// the host name.
    pub fn connect_report_readable(&self, text: &str) -> (b: bool)
        ensures
            b == connect_report_readable(text@),
    {
        read_connect_report(text).is_some()
    }

    /// The outcome that the answer of a connect command reports: connected to
    /// the group, server and host named on the first line that reports
    /// success; failed where the first deciding line reports failure; a parse
    /// failure where no line decides.
    pub fn parse_connect_output(&self, output: &str) -> (r: NordVpnConnectOutput)
        requires
            connect_report_readable(output@),
        ensures
            r@ == connect_report(output@),
    {
        match read_connect_report(output) {
            Some(o) => o,
            None => failure_output(Error::ParseFailed),
        }
    }

    /// The outcome of a connection attempt, from the answer of the connect
    /// command and, where that succeeded, whether a name could be resolved
    /// afterwards: the reported outcome when both held, the reported outcome
    /// marked as a failed lookup when the lookup failed, and a connection
    /// failure when the command failed.
    pub fn connect(&self, answer: CommandOutput, dns_resolved: bool) -> (r: Result<NordVpnConnectOutput, NordVpnConnectOutput>)
        requires
            answer.status ==> connect_report_readable(answer.output@),
        ensures
            answer.status && dns_resolved ==> (r matches Ok(o) && o@ == connect_report(answer.output@)),
            answer.status && !dns_resolved ==> (r matches Err(o) && o@ == lookup_failed(
                connect_report(answer.output@),
            )),
            !answer.status ==> (r matches Err(o) && o@ == connect_failure(Error::ConnectFailed)),
    {
        if answer.status {
            let parsed = self.parse_connect_output(answer.output.as_str());
            if dns_resolved {
                Ok(parsed)
            } else {
                Err(NordVpnConnectOutput {
                    connected: parsed.connected,
                    group: parsed.group,
                    server_id: parsed.server_id,
                    server_fqdn: parsed.server_fqdn,
                    error: Some(Error::DnsLookupFailed),
                })
            }
        } else {
            Err(failure_output(Error::ConnectFailed))
        }
    }

    /// The outcome of the disconnect command.
    pub fn disconnect(&self, answer: CommandOutput) -> (r: Result<NordVpnDisconnectOutput, NordVpnDisconnectOutput>)
        ensures
            answer.status ==> (r matches Ok(o) && o.disconnected),
            !answer.status ==> (r matches Err(o) && !o.disconnected),
    {
        if answer.status {
            Ok(NordVpnDisconnectOutput { disconnected: true })
        } else {
            Err(NordVpnDisconnectOutput { disconnected: false })
        }
    }

    /// Whether the login command succeeded.
    pub fn login(&self, answer: CommandOutput) -> (r: bool)
        ensures
            r == answer.status,
    {
        answer.status
    }

    /// The daemon's state, from the answer of its status command.
    pub fn daemon_status(&self, answer: CommandOutput) -> (r: StatusOutput)
        ensures
            r.status == status_of(answer.output@),
            r.output@ == answer.output@,
    {
        self.daemon.status(answer)
    }

    /// The client's daemon.
    pub fn daemon(&self) -> (r: &Daemon)
        ensures
            r.path_view() == self@.daemon_path,
    {
        &self.daemon
    }

    /// The command line that asks the daemon for its status.
    pub fn daemon_status_command(&self) -> (argv: Vec<String>)
        ensures
            string_views(argv@) == seq![self@.daemon_path, "status"@],
    {
        self.daemon.status_command()
    }

    /// The command line that restarts the daemon through the standard init
    /// script.
    pub fn daemon_restart(&self, timeout: Option<u8>) -> (argv: Vec<String>)
        ensures
            string_views(argv@) == seq!["/etc/init.d/nordvpn"@, "restart"@],
    {
        let mut argv: Vec<String> = Vec::new();
        argv.push(owned("/etc/init.d/nordvpn"));
        argv.push(owned("restart"));
        assert(string_views(argv@) =~= seq!["/etc/init.d/nordvpn"@, "restart"@]);
        argv
    }

    /// The daemon's start command and the wait that follows it.
    pub fn daemon_start(&self, timeout: Option<u8>) -> (r: DaemonStart)
        ensures
            string_views(r.command@) == seq![self@.daemon_path, "start"@],
            r.phase == match timeout {
                None => crate::daemon::DaemonStartPhase::Done,
                Some(t) => crate::daemon::DaemonStartPhase::FirstStatus { timeout: t },
            },
    {
        self.daemon.start(timeout)
    }

    /// The command line that stops the daemon through the standard init
    /// script.
    pub fn daemon_stop(&self) -> (argv: Vec<String>)
        ensures
            string_views(argv@) == seq!["/etc/init.d/nordvpn"@, "stop"@],
    {
        let mut argv: Vec<String> = Vec::new();
        argv.push(owned("/etc/init.d/nordvpn"));
        argv.push(owned("stop"));
        assert(string_views(argv@) =~= seq!["/etc/init.d/nordvpn"@, "stop"@]);
        argv
    }

    /// The connect command of a rotation. With rotation disabled or an empty
    /// queue, a plain connect; else a connect with the filter at the head of
    /// the queue, which moves to the back.
    pub fn rotate(&mut self, retries: u8) -> (r: NordVpnCommand)
        ensures
            final(self)@.path == old(self)@.path,
            final(self)@.token == old(self)@.token,
            final(self)@.daemon_path == old(self)@.daemon_path,
            final(self)@.dns_lookup == old(self)@.dns_lookup,
            final(self)@.filter_enabled == old(self)@.filter_enabled,
            !old(self)@.filter_enabled || old(self)@.filter.len() == 0 ==> {
                &&& (r matches NordVpnCommand::Connect(None))
                &&& final(self)@.filter == old(self)@.filter
            },
            old(self)@.filter_enabled && old(self)@.filter.len() > 0 ==> {
                &&& (r matches NordVpnCommand::Connect(Some(f)) && f@ == old(self)@.filter[0])
                &&& final(self)@.filter == rotate_queue(old(self)@.filter)
            },
    {
        if !self.filter_enabled || self.filter.len() == 0 {
            return NordVpnCommand::Connect(None);
        }
        let ghost q = self.filter@;
        let head = self.filter.pop_front().unwrap();
        let again = head.clone();
        self.filter.push_back(again);
        proof {
            assert(string_views(self.filter@) =~= rotate_queue(string_views(q)));
        }
        NordVpnCommand::Connect(Some(head))
    }

    /// The command line that shows the last `lines` lines of the daemon's
    /// log.
    pub fn logs(&self, lines: u16) -> (argv: Vec<String>)
        ensures
            string_views(argv@) == seq!["tail"@, "-n"@, crate::filters::decimal_text(lines as nat), "/var/log/nordvpn/daemon.log"@],
    {
        let mut argv: Vec<String> = Vec::new();
        argv.push(owned("tail"));
        argv.push(owned("-n"));
        argv.push(crate::filters::decimal(lines));
        argv.push(owned("/var/log/nordvpn/daemon.log"));
        assert(string_views(argv@) =~= seq!["tail"@, "-n"@, crate::filters::decimal_text(lines as nat), "/var/log/nordvpn/daemon.log"@]);
        argv
    }

    /// The command that sets the analytics switch.
    pub fn set_analytics(&self, enabled: bool) -> (r: NordVpnCommand)
        ensures
            r == NordVpnCommand::ChangeSetting(NordVpnSetting::Analytics, enabled),
    {
        NordVpnCommand::ChangeSetting(NordVpnSetting::Analytics, enabled)
    }

    /// The command that sets the firewall switch.
    pub fn set_firewall(&self, enabled: bool) -> (r: NordVpnCommand)
        ensures
            r == NordVpnCommand::ChangeSetting(NordVpnSetting::Firewall, enabled),
    {
        NordVpnCommand::ChangeSetting(NordVpnSetting::Firewall, enabled)
    }

    /// The command that sets the LAN discovery switch.
    pub fn set_lan_discovery(&self, enabled: bool) -> (r: NordVpnCommand)
        ensures
            r == NordVpnCommand::ChangeSetting(NordVpnSetting::LanDiscovery, enabled),
    {
        NordVpnCommand::ChangeSetting(NordVpnSetting::LanDiscovery, enabled)
    }

    /// The command that sets the routing switch.
    pub fn set_routing(&self, enabled: bool) -> (r: NordVpnCommand)
        ensures
            r == NordVpnCommand::ChangeSetting(NordVpnSetting::Routing, enabled),
    {
        NordVpnCommand::ChangeSetting(NordVpnSetting::Routing, enabled)
    }

    /// The command that sets the tray switch.
    pub fn set_tray(&self, enabled: bool) -> (r: NordVpnCommand)
        ensures
            r == NordVpnCommand::ChangeSetting(NordVpnSetting::Tray, enabled),
    {
        NordVpnCommand::ChangeSetting(NordVpnSetting::Tray, enabled)
    }

    /// The command that sets the virtual location switch.
    pub fn set_virtual_location(&self, enabled: bool) -> (r: NordVpnCommand)
        ensures
            r == NordVpnCommand::ChangeSetting(NordVpnSetting::VirtualLocation, enabled),
    {
        NordVpnCommand::ChangeSetting(NordVpnSetting::VirtualLocation, enabled)
    }

    /// The connection report that the answer of a status command gives: each
    /// known key line sets its field, a later line overriding an earlier one.
    pub fn parse_status_output(&self, output: &str) -> (r: NordVpnStatusOutput)
        ensures
            r@ == status_report(output@),
    {
        let chars = chars_of(output);
        let ls = lines_exec(&chars);
        let mut acc = empty_status();
        let mut i: usize = 0;
        while i < ls.len()
            invariant
                i <= ls.len(),
                views(ls@) == lines(output@),
                acc@ == status_of_lines(views(ls@).take(i as int)),
            decreases ls.len() - i,
        {
            apply_status_line(&mut acc, &ls[i]);
            proof {
                let t = views(ls@).take(i + 1);
                assert(t.drop_last() =~= views(ls@).take(i as int));
                assert(t.last() == ls@[i as int]@);
            }
            i = i + 1;
        }
        assert(views(ls@).take(ls.len() as int) =~= views(ls@));
        acc
    }

    /// The connection report, from the answer of the status command: the
    /// parsed answer when the command succeeded, an empty report otherwise.
    pub fn status(&self, answer: CommandOutput) -> (r: NordVpnStatusOutput)
        ensures
            answer.status ==> r@ == status_report(answer.output@),
            !answer.status ==> r@ == status_default(),
    {
        if answer.status {
            self.parse_status_output(answer.output.as_str())
        } else {
            empty_status()
        }
    }

    /// The version text, from the answer of the version command, whether or
    /// not the command succeeded.
    pub fn version(&self, answer: CommandOutput) -> (r: String)
        ensures
            r@ == answer.output@,
    {
        answer.output
    }
}

} // verus!
