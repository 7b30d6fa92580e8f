//! Supervision of the NordVPN daemon through its init script: the command
//! lines to run, the reading of the script's answers, and the steps of the
//! wait that follows a start.
use vstd::prelude::*;
use crate::text::{chars_of, contains, contains_exec, owned, string_views};

verus! {

/// What a command reported: whether it exited successfully, and the text it
/// answered with.
#[derive(Debug)]
pub struct CommandOutput {
    pub status: bool,
    pub output: String,
}

/// The state of the daemon as read from its init script.
#[derive(Debug, Clone, Copy, PartialEq, Eq, Structural)]
pub enum DeamonStatus {
    Unknown,
    Running,
    Stopped,
    Stopping,
    Starting,
    Restarting,
    Error,
}

/// The daemon's state together with the script's answer.
#[derive(Debug)]
pub struct StatusOutput {
    pub status: DeamonStatus,
    pub output: String,
}

/// The daemon, driven through the init script at `path`.
pub struct Daemon {
    path: String,
}

/// The init script's answer when the daemon is down.
pub open spec fn not_running_text() -> Seq<char> {
    "nordvpn is not running"@
}

/// The state that an answer of the status command reports.
pub open spec fn status_of(output: Seq<char>) -> DeamonStatus {
    if contains(output, not_running_text()) {
        DeamonStatus::Stopped
    } else {
        DeamonStatus::Unknown
    }
}

/// Where the wait after a start stands, and what it needs next.
#[derive(Debug, Clone, Copy, PartialEq, Eq, Structural)]
pub enum DaemonStartPhase {
    /// The wait is over.
    Done,
    /// The daemon's status is to be read once, before the deadline is set;
    /// the wait may last `timeout` seconds.
    FirstStatus { timeout: u8 },
    /// The clock is to be read to set the deadline `timeout` seconds ahead.
    SetDeadline { timeout: u8 },
    /// The clock is to be read and held against `deadline`.
    CheckClock { deadline: u64 },
    /// The daemon's status is to be read; the wait ends at `deadline`.
    PollStatus { deadline: u64 },
}

/// What was observed for a phase of the wait.
#[derive(Debug, Clone, Copy, PartialEq, Eq, Structural)]
pub enum DaemonStartEvent {
    /// The daemon's state was read.
    Status(DeamonStatus),
    /// The clock read this many seconds since the Unix epoch.
    Clock(u64),
}

/// The start command to run and the wait that follows it.
pub struct DaemonStart {
    pub command: Vec<String>,
    pub phase: DaemonStartPhase,
}

/// The event that a phase waits for is of the right kind, and setting the
/// deadline does not overflow the clock's range.
pub open spec fn start_event_fits(phase: DaemonStartPhase, event: DaemonStartEvent) -> bool {
    match phase {
        DaemonStartPhase::Done => false,
        DaemonStartPhase::FirstStatus { .. } => event is Status,
        DaemonStartPhase::SetDeadline { timeout } => match event {
            DaemonStartEvent::Clock(now) => now + timeout <= u64::MAX,
            _ => false,
        },
        DaemonStartPhase::CheckClock { .. } => event is Clock,
        DaemonStartPhase::PollStatus { .. } => event is Status,
    }
}

/// One step of the wait after a start: the status is read once; unless the
/// daemon runs, a deadline is set `timeout` seconds ahead, and the status is
/// read again as long as the clock is before the deadline, until it runs.
pub open spec fn start_next(phase: DaemonStartPhase, event: DaemonStartEvent) -> DaemonStartPhase {
    match (phase, event) {
        (DaemonStartPhase::FirstStatus { timeout }, DaemonStartEvent::Status(s)) => {
            if s == DeamonStatus::Running {
                DaemonStartPhase::Done
            } else {
                DaemonStartPhase::SetDeadline { timeout }
            }
        },
        (DaemonStartPhase::SetDeadline { timeout }, DaemonStartEvent::Clock(now)) => {
            DaemonStartPhase::CheckClock { deadline: (now + timeout) as u64 }
        },
        (DaemonStartPhase::CheckClock { deadline }, DaemonStartEvent::Clock(now)) => {
            if now < deadline {
                DaemonStartPhase::PollStatus { deadline }
            } else {
                DaemonStartPhase::Done
            }
        },
        (DaemonStartPhase::PollStatus { deadline }, DaemonStartEvent::Status(s)) => {
            if s == DeamonStatus::Running {
                DaemonStartPhase::Done
            } else {
                DaemonStartPhase::CheckClock { deadline }
            }
        },
        _ => phase,
    }
}

impl Daemon {
    pub closed spec fn path_view(&self) -> Seq<char> {
        self.path@
    }

    /// The daemon at the standard init script `/etc/init.d/nordvpn`.
    pub fn new() -> (r: Result<Self, &'static str>)
        ensures
            r matches Ok(d) && d.path_view() == "/etc/init.d/nordvpn"@,
    {
        Ok(Daemon { path: owned("/etc/init.d/nordvpn") })
    }

    /// The daemon at the init script `path`.
    pub fn new_with_path(path: String) -> (r: Result<Self, &'static str>)
        ensures
            r matches Ok(d) && d.path_view() == path@,
    {
        Ok(Daemon { path })
    }

    /// The command line that runs the init script with the verb `arg`.
    pub fn command(&self, arg: &str) -> (argv: Vec<String>)
        ensures
            string_views(argv@) == seq![self.path_view(), arg@],
    {
        let mut argv: Vec<String> = Vec::new();
        argv.push(self.path.clone());
        argv.push(owned(arg));
        assert(string_views(argv@) =~= seq![self.path_view(), arg@]);
        argv
    }

    /// What the script reported: its standard output when it succeeded, its
    /// error output when it failed.
    pub fn wrap_command(&self, success: bool, stdout: String, stderr: String) -> (r: CommandOutput)
        ensures
            r.status == success,
            r.output@ == if success { stdout@ } else { stderr@ },
    {
        if success {
            CommandOutput { status: true, output: stdout }
        } else {
            CommandOutput { status: false, output: stderr }
        }
    }

    /// The command line that asks the script for the daemon's status.
    pub fn status_command(&self) -> (argv: Vec<String>)
        ensures
            string_views(argv@) == seq![self.path_view(), "status"@],
    {
        self.command("status")
    }

    /// The daemon's state read from the answer of the status command: stopped
    /// when the answer says that it is not running, unknown otherwise.
    pub fn status(&self, answer: CommandOutput) -> (r: StatusOutput)
        ensures
            r.status == status_of(answer.output@),
            r.output@ == answer.output@,
    {
        let text = chars_of(answer.output.as_str());
        let pattern = chars_of("nordvpn is not running");
        let status = if contains_exec(&text, &pattern) {
            DeamonStatus::Stopped
        } else {
            DeamonStatus::Unknown
        };
        StatusOutput { status, output: answer.output }
    }

    /// The command line that restarts the daemon.
    pub fn restart(&self, timeout: u8) -> (argv: Vec<String>)
        ensures
            string_views(argv@) == seq![self.path_view(), "restart"@],
    {
        self.command("restart")
    }

    /// The command line that starts the daemon, and the wait that follows: none
    /// without a timeout, else a first reading of the status.
    pub fn start(&self, timeout: Option<u8>) -> (r: DaemonStart)
        ensures
            string_views(r.command@) == seq![self.path_view(), "start"@],
            r.phase == match timeout {
                None => DaemonStartPhase::Done,
                Some(t) => DaemonStartPhase::FirstStatus { timeout: t },
            },
    {
        let command = self.command("start");
        let phase = match timeout {
            None => DaemonStartPhase::Done,
            Some(t) => DaemonStartPhase::FirstStatus { timeout: t },
        };
        DaemonStart { command, phase }
    }

    /// The next phase of the wait after a start, given what was observed.
    pub fn start_step(phase: DaemonStartPhase, event: DaemonStartEvent) -> (r: DaemonStartPhase)
        requires
            start_event_fits(phase, event),
        ensures
            r == start_next(phase, event),
    {
        match (phase, event) {
            (DaemonStartPhase::FirstStatus { timeout }, DaemonStartEvent::Status(s)) => {
                if s == DeamonStatus::Running {
                    DaemonStartPhase::Done
                } else {
                    DaemonStartPhase::SetDeadline { timeout }
                }
            },
            (DaemonStartPhase::SetDeadline { timeout }, DaemonStartEvent::Clock(now)) => {
                DaemonStartPhase::CheckClock { deadline: now + timeout as u64 }
            },
            (DaemonStartPhase::CheckClock { deadline }, DaemonStartEvent::Clock(now)) => {
                if now < deadline {
                    DaemonStartPhase::PollStatus { deadline }
                } else {
                    DaemonStartPhase::Done
                }
            },
            (DaemonStartPhase::PollStatus { deadline }, DaemonStartEvent::Status(s)) => {
                if s == DeamonStatus::Running {
                    DaemonStartPhase::Done
                } else {
                    DaemonStartPhase::CheckClock { deadline }
                }
            },
            _ => phase,
        }
    }

    /// The command line that stops the daemon.
    pub fn stop(&self) -> (argv: Vec<String>)
        ensures
            string_views(argv@) == seq![self.path_view(), "stop"@],
    {
        self.command("stop")
    }
}

} // verus!
