//! The daemon's own decisions: whether it may start, what it does about
//! each thing that happens while it runs, and what it cleans up.

use crate::config::{Config, ConfigError};
use crate::manager::{job_names, set_names, synced, JobManager, SyncPlan};
use crate::text::{
    all_digits, chars_of, decimal, decimal_text, decimal_value, parse_decimal, same_chars, slice_of,
    trim, trimmed,
};
use crate::watcher::{FileWatcher, WatchError, WatcherEvent};
use vstd::prelude::*;
use vstd::string::StringExecFns;

verus! {

/// The number that `s` writes: decimal digits, after a sign where there
/// is one. `None` where `s` is anything else.
pub open spec fn signed_value(s: Seq<char>) -> Option<int> {
    if s.len() > 0 && (s[0] == '+' || s[0] == '-') {
        let digits = s.skip(1);
        if digits.len() > 0 && all_digits(digits) {
            Some(
                if s[0] == '-' {
                    -(decimal_value(digits) as int)
                } else {
                    decimal_value(digits) as int
                },
            )
        } else {
            None
        }
    } else if s.len() > 0 && all_digits(s) {
        Some(decimal_value(s) as int)
    } else {
        None
    }
}

/// The process identifier that a PID file with the content `content`
/// names: the number that the content writes, white space around it
/// aside, where that fits 32 bits with a sign.
pub open spec fn pid_in(content: Seq<char>) -> Option<i32> {
    match signed_value(trimmed(content)) {
        Some(v) if i32::MIN <= v <= i32::MAX => Some(v as i32),
        _ => None,
    }
}

/// The process identifier that a PID file with the content `content`
/// names.
pub fn parse_pid(content: &str) -> (pid: Option<i32>)
    ensures
        pid == pid_in(content@),
{
    let text = trim(&chars_of(content));
    if text.len() == 0 {
        return None;
    }
    let signed = text[0] == '+' || text[0] == '-';
    let negative = text[0] == '-';
    let digits = if signed {
        slice_of(&text, 1, text.len())
    } else {
        slice_of(&text, 0, text.len())
    };
    proof {
        if signed {
            assert(digits@ =~= text@.skip(1));
        } else {
            assert(digits@ =~= text@);
            if all_digits(text@) {
                assert(crate::text::is_digit(text@[0]));
            }
        }
    }
    match parse_decimal(&digits) {
        Some(v) => {
            if negative {
                if v <= 2147483648 {
                    Some((0 - (v as i64)) as i32)
                } else {
                    None
                }
            } else {
                if v <= 2147483647 {
                    Some(v as i32)
                } else {
                    None
                }
            }
        },
        None => None,
    }
}

/// Whether the daemon may start.
#[derive(Debug)]
pub enum Claim {
    /// Another daemon runs as this process: refuse to start.
    AlreadyRunning { pid: i32 },
    /// Start. Remove the stale PID file first where `remove_stale` says
    /// so, then write `content` to the PID file.
    Proceed { remove_stale: bool, content: String },
}

/// The message of the refusal to start beside the daemon that runs as the
/// process `pid`.
pub open spec fn already_running(pid: i32) -> Seq<char> {
    "Daemon is already running with PID "@ + (if pid < 0 {
        seq!['-'] + decimal_text((-(pid as int)) as nat)
    } else {
        decimal_text(pid as nat)
    })
}

/// The message of the refusal to start beside the daemon that runs as the
/// process `pid`.
pub fn refusal_message(pid: i32) -> (out: String)
    ensures
        out@ == already_running(pid),
{
    let mut digits: Vec<char> = Vec::new();
    if pid < 0 {
        digits.push('-');
        crate::text::push_decimal(&mut digits, (0 - (pid as i64)) as u64);
    } else {
        crate::text::push_decimal(&mut digits, pid as u64);
    }
    proof {
        if pid < 0 {
            assert(digits@ =~= seq!['-'] + decimal_text((-(pid as int)) as nat));
        } else {
            assert(digits@ =~= decimal_text(pid as nat));
        }
    }
    String::from_str("Daemon is already running with PID ").concat(
        crate::text::string_of(&digits).as_str(),
    )
}

/// Decides whether the daemon may start as the process `own_pid`.
/// `existing` is the content of the PID file where there is one, and
/// `alive` whether the process that it names exists. The daemon refuses
/// to start exactly if the file names a process that is alive, and else
/// claims the file: a file that names a dead process is stale and
/// removed, and the daemon's own identifier is written.
pub fn claim_pid_file(existing: Option<&str>, alive: bool, own_pid: u32) -> (claim: Claim)
    ensures
        match existing {
            Some(content) => match pid_in(content@) {
                Some(pid) => if alive {
                    claim matches Claim::AlreadyRunning { pid: p } && p == pid
                } else {
                    claim matches Claim::Proceed { remove_stale, content: c } && remove_stale && c@
                        == decimal_text(own_pid as nat)
                },
                None => claim matches Claim::Proceed { remove_stale, content: c } && !remove_stale
                    && c@ == decimal_text(own_pid as nat),
            },
            None => claim matches Claim::Proceed { remove_stale, content: c } && !remove_stale && c@
                == decimal_text(own_pid as nat),
        },
{
    let stale = match existing {
        Some(content) => match parse_pid(content) {
            Some(pid) => {
                if alive {
                    return Claim::AlreadyRunning { pid };
                }
                true
            },
            None => false,
        },
        None => false,
    };
    Claim::Proceed { remove_stale: stale, content: decimal(own_pid as u64) }
}

/// Whether a PID file with the content `content` belongs to the process
/// `own_pid`: the content, white space around it aside, is that
/// identifier in decimal digits.
pub open spec fn owned_by(content: Seq<char>, own_pid: u32) -> bool {
    trimmed(content) == decimal_text(own_pid as nat)
}

/// Decides at exit whether to remove the PID file and the socket:
/// exactly if the PID file still belongs to this process. `content` is
/// the content of the PID file, `None` where it cannot be read.
pub fn owns_pid_file(content: Option<&str>, own_pid: u32) -> (remove: bool)
    ensures
        remove == match content {
            Some(c) => owned_by(c@, own_pid),
            None => false,
        },
{
    match content {
        Some(c) => {
            let text = trim(&chars_of(c));
            let own = chars_of(decimal(own_pid as u64).as_str());
            same_chars(&text, &own)
        },
        None => false,
    }
}

/// What happened while the daemon waited.
#[derive(Debug)]
pub enum DaemonEvent {
    /// A client connected.
    Connected,
    /// Accepting a connection failed.
    AcceptFailed,
    /// The process was told to terminate.
    Terminate,
    /// The process was interrupted.
    Interrupt,
    /// The watcher reported an event.
    Watcher(WatcherEvent),
    /// The configuration file changed, or a client asked for a reload.
    ReloadRequested,
    /// Shutdown was signalled inside the process.
    ShutdownSignalled,
}

/// What the daemon does about an event.
#[derive(Debug)]
pub enum LoopStep {
    /// Serve the connection on a task of its own and go on.
    Serve,
    /// Go on.
    Continue,
    /// Hand the file change of the set named `set_name` to the manager
    /// and go on.
    FileChange { set_name: String },
    /// Read the configuration again, go on with `reload`, and go on.
    Reload,
    /// Leave the loop, after signalling shutdown to the whole process
    /// where `signal` says so. On the way out every mount is taken down.
    Stop { signal: bool },
}

/// What a `LoopStep` holds, as mathematical values.
pub enum LoopStepView {
    Serve,
    Continue,
    FileChange { set_name: Seq<char> },
    Reload,
    Stop { signal: bool },
}

impl View for LoopStep {
    type V = LoopStepView;

    open spec fn view(&self) -> LoopStepView {
        match *self {
            LoopStep::Serve => LoopStepView::Serve,
            LoopStep::Continue => LoopStepView::Continue,
            LoopStep::FileChange { set_name } => LoopStepView::FileChange { set_name: set_name@ },
            LoopStep::Reload => LoopStepView::Reload,
            LoopStep::Stop { signal } => LoopStepView::Stop { signal },
        }
    }
}

/// Decides what the daemon does about an event. A signal to terminate or
/// an interrupt stops the daemon and is passed on to the whole process; a
/// shutdown that was signalled inside the process stops it too.
pub fn on_event(event: DaemonEvent) -> (step: LoopStep)
    ensures
        step@ == match event {
            DaemonEvent::Connected => LoopStepView::Serve,
            DaemonEvent::AcceptFailed => LoopStepView::Continue,
            DaemonEvent::Terminate => LoopStepView::Stop { signal: true },
            DaemonEvent::Interrupt => LoopStepView::Stop { signal: true },
            DaemonEvent::Watcher(WatcherEvent::FileChanged { set_name, path }) => LoopStepView::FileChange {
                set_name: set_name@,
            },
            DaemonEvent::ReloadRequested => LoopStepView::Reload,
            DaemonEvent::ShutdownSignalled => LoopStepView::Stop { signal: false },
        },
{
    match event {
        DaemonEvent::Connected => LoopStep::Serve,
        DaemonEvent::AcceptFailed => LoopStep::Continue,
        DaemonEvent::Terminate => LoopStep::Stop { signal: true },
        DaemonEvent::Interrupt => LoopStep::Stop { signal: true },
        DaemonEvent::Watcher(WatcherEvent::FileChanged { set_name, path }) => LoopStep::FileChange {
            set_name,
        },
        DaemonEvent::ReloadRequested => LoopStep::Reload,
        DaemonEvent::ShutdownSignalled => LoopStep::Stop { signal: false },
    }
}

/// What reading the configuration again came to.
pub enum Reload {
    /// The file could not be loaded: the configuration in force stays, and
    /// the reason is logged.
    Kept { reason: String },
    /// The manager took the new configuration. `plan` is what the daemon
    /// has to do for it. `watcher` is the table to watch by from now on,
    /// or why the table in use stays.
    Replaced { plan: SyncPlan, watcher: Result<FileWatcher, WatchError> },
}

/// Takes in the configuration that was read again. A configuration that
/// could not be loaded changes nothing. One that was loaded replaces the
/// manager's, and the watcher is to be started again for its sources.
pub fn reload(manager: &mut JobManager, loaded: Result<Config, ConfigError>) -> (outcome: Reload)
    ensures
        match loaded {
            Ok(config) => {
                &&& outcome is Replaced
                &&& final(manager)@.jobs == synced(old(manager)@.jobs, config@.backup_sets)
                &&& final(manager)@.global_retention == config@.global.retention
                &&& final(manager)@.global_debounce == config@.global.debounce_seconds
                &&& job_names(final(manager)@.jobs) == set_names(config@.backup_sets)
            },
            Err(e) => {
                &&& outcome matches Reload::Kept { reason }
                &&& reason@ == e.message_text()
                &&& final(manager)@ == old(manager)@
            },
        },
{
    match loaded {
        Ok(config) => {
            let plan = manager.sync_config(&config);
            let watcher = FileWatcher::new(&config);
            Reload::Replaced { plan, watcher }
        },
        Err(e) => Reload::Kept { reason: e.message() },
    }
}

} // verus!
