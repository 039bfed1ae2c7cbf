//! The command-line client's decisions: how it follows a backup that it
//! asked for, and how it words what it shows.
//!
//! The client connects, sends and prints itself. What it makes of each
//! response it reads, and the texts of its tables, are decided here.

use crate::config::{BackupSet, BackupSetView};
use crate::ipc::{Response, ResponseData, ResponseDataView, ResponseView};
use crate::ipc::error_codes::{BACKUP_FAILED, RESTIC_ERROR};
use crate::text::{
    chars_of, contains, contains_text, decimal, decimal_text, has_prefix, lines, opt_text, rows,
    split_lines, starts_with, string_of, texts, trim, trimmed,
};
use crate::types::{opt_result, BackupResult, BackupResultView, JobState, Seconds, Timestamp};
use vstd::prelude::*;
use vstd::string::StringExecFns;

verus! {

/// Exit status for a failure that is none of the others.
pub const EXIT_FAILURE: i32 = 1;

/// Exit status for a configuration that is missing or invalid.
pub const EXIT_CONFIG: i32 = 2;

/// Exit status where the daemon is not running.
pub const EXIT_NO_DAEMON: i32 = 3;

/// Exit status for a failure of the engine or of a backup.
pub const EXIT_ENGINE: i32 = 4;

/// Exit status for a failure to mount or unmount.
pub const EXIT_MOUNT: i32 = 5;

/// What the client of a backup request shows.
#[derive(Debug)]
pub enum Notice {
    /// The backup of the set was started.
    Started { set_name: String },
    /// The backup of the set was triggered along with others.
    Triggered { set_name: String },
    /// The backup of the set could not be triggered.
    TriggerFailed { set_name: String, error: String },
    /// The backup of the set is complete.
    Complete { set_name: String, snapshot_id: String, added_bytes: u64, duration_secs: Seconds },
    /// The backup of the set has failed.
    Failed { set_name: String, error: String },
    /// The daemon answered with an error.
    DaemonError { code: String, message: String },
}

/// What a `Notice` holds, as mathematical values.
pub enum NoticeView {
    Started { set_name: Seq<char> },
    Triggered { set_name: Seq<char> },
    TriggerFailed { set_name: Seq<char>, error: Seq<char> },
    Complete {
        set_name: Seq<char>,
        snapshot_id: Seq<char>,
        added_bytes: u64,
        duration_secs: Seconds,
    },
    Failed { set_name: Seq<char>, error: Seq<char> },
    DaemonError { code: Seq<char>, message: Seq<char> },
}

impl View for Notice {
    type V = NoticeView;

    open spec fn view(&self) -> NoticeView {
        match *self {
            Notice::Started { set_name } => NoticeView::Started { set_name: set_name@ },
            Notice::Triggered { set_name } => NoticeView::Triggered { set_name: set_name@ },
            Notice::TriggerFailed { set_name, error } => NoticeView::TriggerFailed {
                set_name: set_name@,
                error: error@,
            },
            Notice::Complete { set_name, snapshot_id, added_bytes, duration_secs } => NoticeView::Complete {
                set_name: set_name@,
                snapshot_id: snapshot_id@,
                added_bytes,
                duration_secs,
            },
            Notice::Failed { set_name, error } => NoticeView::Failed {
                set_name: set_name@,
                error: error@,
            },
            Notice::DaemonError { code, message } => NoticeView::DaemonError {
                code: code@,
                message: message@,
            },
        }
    }
}

/// The views of the notices of `v`, in order.
pub open spec fn notice_views(v: Seq<Notice>) -> Seq<NoticeView> {
    Seq::new(v.len(), |i: int| v[i]@)
}

/// How the client goes on after a response.
#[derive(Clone, Copy, Debug, PartialEq, Eq, Structural)]
pub enum Progress {
    /// Read the next response.
    Wait,
    /// Stop reading: every backup that was waited for has ended, or none
    /// is waited for.
    Finished,
    /// Exit at once with this status.
    Exit { status: i32 },
}

/// What the client makes of one response.
#[derive(Debug)]
pub struct Outcome {
    /// What to show, in order.
    pub notices: Vec<Notice>,
    /// Whether the response concerns this client, so that a client that
    /// prints JSON prints its data.
    pub relevant: bool,
    /// How to go on.
    pub progress: Progress,
}

/// The client's record of the backups it waits for.
#[derive(Debug)]
pub struct BackupWait {
    /// The sets whose backup was started for this client, each once.
    pub expected: Vec<String>,
    /// How many backups of expected sets have ended.
    pub completed: usize,
    /// Whether a backup failed or could not be triggered.
    pub had_failures: bool,
    /// Whether the daemon has answered the request itself.
    pub answered: bool,
}

/// What a `BackupWait` holds, as mathematical values.
pub struct BackupWaitView {
    pub expected: Seq<Seq<char>>,
    pub completed: nat,
    pub had_failures: bool,
    pub answered: bool,
}

impl View for BackupWait {
    type V = BackupWaitView;

    open spec fn view(&self) -> BackupWaitView {
        BackupWaitView {
            expected: texts(self.expected@),
            completed: self.completed as nat,
            had_failures: self.had_failures,
            answered: self.answered,
        }
    }
}

/// The count after `count`, which stops at the largest that the machine
/// holds.
pub open spec fn one_more(count: nat) -> nat {
    if count < usize::MAX {
        count + 1
    } else {
        count
    }
}

/// `names` with `name` added unless it is among them.
pub open spec fn with_name(names: Seq<Seq<char>>, name: Seq<char>) -> Seq<Seq<char>> {
    if names.contains(name) {
        names
    } else {
        names.push(name)
    }
}

/// `names` with each of `more` added unless it is among them.
pub open spec fn with_names(names: Seq<Seq<char>>, more: Seq<Seq<char>>) -> Seq<Seq<char>>
    decreases more.len(),
{
    if more.len() == 0 {
        names
    } else {
        with_name(with_names(names, more.drop_last()), more.last())
    }
}

/// A notice that each of `started` was triggered, in order.
pub open spec fn triggered_notices(started: Seq<Seq<char>>) -> Seq<NoticeView> {
    Seq::new(started.len(), |i: int| NoticeView::Triggered { set_name: started[i] })
}

/// A notice that each of `failed` could not be triggered, in order.
pub open spec fn trigger_failures(failed: Seq<(Seq<char>, Seq<char>)>) -> Seq<NoticeView> {
    Seq::new(
        failed.len(),
        |i: int| NoticeView::TriggerFailed { set_name: failed[i].0, error: failed[i].1 },
    )
}

/// What a step of the wait comes to.
pub struct WaitStep {
    pub wait: BackupWaitView,
    pub notices: Seq<NoticeView>,
    pub relevant: bool,
    pub progress: Progress,
}

impl BackupWaitView {
    /// The wait of a client that has just sent its request.
    pub open spec fn fresh() -> BackupWaitView {
        BackupWaitView { expected: Seq::empty(), completed: 0, had_failures: false, answered: false }
    }

    /// Whether every backup that is waited for has ended.
    pub open spec fn all_ended(self) -> bool {
        self.answered && self.completed >= self.expected.len()
    }

    /// How the client goes on where the response itself did not end the
    /// wait: it stops once the request is answered if it does not wait for
    /// completion, or if no backup was started for it.
    pub open spec fn carry_on(self, no_wait: bool) -> Progress {
        if self.answered && (no_wait || self.expected.len() == 0) {
            Progress::Finished
        } else {
            Progress::Wait
        }
    }

    /// What the client makes of `response`.
    ///
    /// The answer to the request names the sets whose backup was started;
    /// those are the ones waited for. The end of a backup, complete or
    /// failed, counts if it is of such a set, and the wait is over when as
    /// many backups have ended as were started. An error response ends
    /// the client at once: with the engine's status if the engine or the
    /// backup failed, and with the general status else.
    pub open spec fn on_response(self, response: ResponseView, no_wait: bool) -> WaitStep {
        match response {
            ResponseView::Okay(Some(ResponseDataView::BackupStarted { set_name })) => {
                let wait = BackupWaitView {
                    expected: with_name(self.expected, set_name),
                    answered: true,
                    ..self
                };
                WaitStep {
                    wait,
                    notices: seq![NoticeView::Started { set_name }],
                    relevant: true,
                    progress: wait.carry_on(no_wait),
                }
            },
            ResponseView::Okay(Some(ResponseDataView::BackupsTriggered { started, failed })) => {
                let wait = BackupWaitView {
                    expected: with_names(self.expected, started),
                    had_failures: self.had_failures || failed.len() > 0,
                    answered: true,
                    ..self
                };
                WaitStep {
                    wait,
                    notices: triggered_notices(started) + trigger_failures(failed),
                    relevant: true,
                    progress: wait.carry_on(no_wait),
                }
            },
            ResponseView::Okay(
                Some(
                    ResponseDataView::BackupComplete {
                        set_name,
                        snapshot_id,
                        added_bytes,
                        duration_secs,
                    },
                ),
            ) => {
                let counts = self.expected.contains(set_name);
                let wait = if counts {
                    BackupWaitView { completed: one_more(self.completed), ..self }
                } else {
                    self
                };
                WaitStep {
                    wait,
                    notices: if counts {
                        seq![
                            NoticeView::Complete {
                                set_name,
                                snapshot_id,
                                added_bytes,
                                duration_secs,
                            },
                        ]
                    } else {
                        Seq::empty()
                    },
                    relevant: counts,
                    progress: if wait.all_ended() {
                        Progress::Finished
                    } else {
                        wait.carry_on(no_wait)
                    },
                }
            },
            ResponseView::Okay(Some(ResponseDataView::BackupFailed { set_name, error })) => {
                let counts = self.expected.contains(set_name);
                let wait = if counts {
                    BackupWaitView {
                        completed: one_more(self.completed),
                        had_failures: true,
                        ..self
                    }
                } else {
                    self
                };
                WaitStep {
                    wait,
                    notices: if counts {
                        seq![NoticeView::Failed { set_name, error }]
                    } else {
                        Seq::empty()
                    },
                    relevant: counts,
                    progress: if wait.all_ended() {
                        Progress::Finished
                    } else {
                        wait.carry_on(no_wait)
                    },
                }
            },
            ResponseView::Error { code, message } => WaitStep {
                wait: self,
                notices: seq![NoticeView::DaemonError { code, message }],
                relevant: false,
                progress: Progress::Exit {
                    status: if code == RESTIC_ERROR@ || code == BACKUP_FAILED@ {
                        EXIT_ENGINE
                    } else {
                        EXIT_FAILURE
                    },
                },
            },
            _ => WaitStep {
                wait: self,
                notices: Seq::empty(),
                relevant: false,
                progress: self.carry_on(no_wait),
            },
        }
    }

    /// The status that the client exits with once the wait is over: the
    /// engine's if a backup failed or could not be triggered, and success
    /// else.
    pub open spec fn exit_status(self) -> i32 {
        if self.had_failures {
            EXIT_ENGINE
        } else {
            0
        }
    }
}

fn no_notices() -> (out: Vec<Notice>)
    ensures
        notice_views(out@) == Seq::<NoticeView>::empty(),
{
    let out: Vec<Notice> = Vec::new();
    assert(notice_views(out@) =~= Seq::<NoticeView>::empty());
    out
}

fn one_notice(notice: Notice) -> (out: Vec<Notice>)
    ensures
        notice_views(out@) == seq![notice@],
{
    let mut out: Vec<Notice> = Vec::new();
    out.push(notice);
    assert(notice_views(out@) =~= seq![notice@]);
    out
}

fn holds(names: &Vec<String>, name: &String) -> (found: bool)
    ensures
        found == texts(names@).contains(name@),
{
    let mut i: usize = 0;
    while i < names.len()
        invariant
            i <= names.len(),
            forall|k: int| 0 <= k < i ==> texts(names@)[k] != name@,
        decreases names.len() - i,
    {
        assert(texts(names@)[i as int] == names@[i as int]@);
        if names[i] == *name {
            return true;
        }
        i += 1;
    }
    false
}

fn add_name(names: &mut Vec<String>, name: &String)
    ensures
        texts(final(names)@) == with_name(texts(old(names)@), name@),
{
    if !holds(names, name) {
        let ghost before = texts(names@);
        names.push(name.clone());
        assert(texts(names@) =~= before.push(name@));
    }
}

impl BackupWait {
    /// The wait of a client that has just sent its request.
    pub fn new() -> (wait: BackupWait)
        ensures
            wait@ == BackupWaitView::fresh(),
    {
        let wait = BackupWait {
            expected: Vec::new(),
            completed: 0,
            had_failures: false,
            answered: false,
        };
        assert(texts(wait.expected@) =~= Seq::<Seq<char>>::empty());
        wait
    }

    fn carry_on(&self, no_wait: bool) -> (progress: Progress)
        ensures
            progress == self@.carry_on(no_wait),
    {
        if self.answered && (no_wait || self.expected.len() == 0) {
            Progress::Finished
        } else {
            Progress::Wait
        }
    }

    fn after_end(&self, no_wait: bool) -> (progress: Progress)
        ensures
            progress == (if self@.all_ended() {
                Progress::Finished
            } else {
                self@.carry_on(no_wait)
            }),
    {
        if self.answered && self.completed >= self.expected.len() {
            Progress::Finished
        } else {
            self.carry_on(no_wait)
        }
    }

    /// Takes in a response that the client has read. See
    /// `BackupWaitView::on_response`.
    pub fn on_response(&mut self, response: &Response, no_wait: bool) -> (outcome: Outcome)
        ensures
            final(self)@ == old(self)@.on_response(response@, no_wait).wait,
            notice_views(outcome.notices@) == old(self)@.on_response(response@, no_wait).notices,
            outcome.relevant == old(self)@.on_response(response@, no_wait).relevant,
            outcome.progress == old(self)@.on_response(response@, no_wait).progress,
    {
        match response {
            Response::Okay(Some(ResponseData::BackupStarted { set_name })) => {
                add_name(&mut self.expected, set_name);
                self.answered = true;
                Outcome {
                    notices: one_notice(Notice::Started { set_name: set_name.clone() }),
                    relevant: true,
                    progress: self.carry_on(no_wait),
                }
            },
            Response::Okay(Some(ResponseData::BackupsTriggered { started, failed })) => {
                let ghost before = texts(self.expected@);
                let mut notices: Vec<Notice> = Vec::new();
                let mut i: usize = 0;
                assert(texts(started@).take(0) =~= Seq::<Seq<char>>::empty());
                while i < started.len()
                    invariant
                        i <= started.len(),
                        texts(self.expected@) == with_names(before, texts(started@).take(i as int)),
                        notice_views(notices@) =~= triggered_notices(texts(started@)).take(i as int),
                        self.completed == old(self).completed,
                        self.had_failures == old(self).had_failures,
                        self.answered == old(self).answered,
                    decreases started.len() - i,
                {
                    proof {
                        assert(texts(started@).take(i + 1).drop_last() =~= texts(started@).take(
                            i as int,
                        ));
                        assert(texts(started@).take(i + 1).last() == started@[i as int]@);
                    }
                    add_name(&mut self.expected, &started[i]);
                    let ghost so_far = notice_views(notices@);
                    let notice = Notice::Triggered { set_name: started[i].clone() };
                    notices.push(notice);
                    assert(notice_views(notices@) =~= so_far.push(notice@));
                    i += 1;
                }
                assert(texts(started@).take(started.len() as int) =~= texts(started@));
                let ghost head = notice_views(notices@);
                assert(head =~= triggered_notices(texts(started@)));
                let mut k: usize = 0;
                while k < failed.len()
                    invariant
                        k <= failed.len(),
                        notice_views(notices@) =~= head + trigger_failures(
                            crate::ipc::text_pairs(failed@),
                        ).take(k as int),
                    decreases failed.len() - k,
                {
                    let ghost so_far = notice_views(notices@);
                    let notice = Notice::TriggerFailed {
                        set_name: failed[k].0.clone(),
                        error: failed[k].1.clone(),
                    };
                    notices.push(notice);
                    assert(notice_views(notices@) =~= so_far.push(notice@));
                    k += 1;
                }
                assert(trigger_failures(crate::ipc::text_pairs(failed@)).take(failed.len() as int)
                    =~= trigger_failures(crate::ipc::text_pairs(failed@)));
                if failed.len() > 0 {
                    self.had_failures = true;
                }
                self.answered = true;
                Outcome { notices, relevant: true, progress: self.carry_on(no_wait) }
            },
            Response::Okay(
                Some(
                    ResponseData::BackupComplete { set_name, snapshot_id, added_bytes, duration_secs },
                ),
            ) => {
                if holds(&self.expected, set_name) {
                    self.completed = self.completed.saturating_add(1);
                    Outcome {
                        notices: one_notice(
                            Notice::Complete {
                                set_name: set_name.clone(),
                                snapshot_id: snapshot_id.clone(),
                                added_bytes: *added_bytes,
                                duration_secs: *duration_secs,
                            },
                        ),
                        relevant: true,
                        progress: self.after_end(no_wait),
                    }
                } else {
                    Outcome {
                        notices: no_notices(),
                        relevant: false,
                        progress: self.after_end(no_wait),
                    }
                }
            },
            Response::Okay(Some(ResponseData::BackupFailed { set_name, error })) => {
                if holds(&self.expected, set_name) {
                    self.completed = self.completed.saturating_add(1);
                    self.had_failures = true;
                    Outcome {
                        notices: one_notice(
                            Notice::Failed { set_name: set_name.clone(), error: error.clone() },
                        ),
                        relevant: true,
                        progress: self.after_end(no_wait),
                    }
                } else {
                    Outcome {
                        notices: no_notices(),
                        relevant: false,
                        progress: self.after_end(no_wait),
                    }
                }
            },
            Response::Error { code, message } => {
                let engine = *code == String::from_str(RESTIC_ERROR) || *code == String::from_str(
                    BACKUP_FAILED,
                );
                Outcome {
                    notices: one_notice(
                        Notice::DaemonError { code: code.clone(), message: message.clone() },
                    ),
                    relevant: false,
                    progress: Progress::Exit {
                        status: if engine {
                            EXIT_ENGINE
                        } else {
                            EXIT_FAILURE
                        },
                    },
                }
            },
            _ => Outcome {
                notices: no_notices(),
                relevant: false,
                progress: self.carry_on(no_wait),
            },
        }
    }

    /// The status that the client exits with once the wait is over.
    pub fn exit_status(&self) -> (status: i32)
        ensures
            status == self@.exit_status(),
    {
        if self.had_failures {
            EXIT_ENGINE
        } else {
            0
        }
    }
}


/// How creating a repository ended.
#[derive(Debug)]
pub enum InitStatus {
    /// The repository was created.
    Initialized,
    /// There was a repository already.
    AlreadyInitialized,
    /// The engine failed; holds what it wrote to its standard error,
    /// white space around it aside.
    Failed(String),
}

/// Whether what the engine wrote to its standard error says that the
/// repository exists already.
pub open spec fn says_initialized(stderr: Seq<char>) -> bool {
    ||| contains_text(stderr, "repository master key and config already initialized"@)
    ||| contains_text(stderr, "config already initialized"@)
    ||| contains_text(stderr, "config file already exists"@)
}

/// Tells how creating a repository ended from the engine's exit and what
/// it wrote to its standard error.
pub fn init_status(success: bool, stderr: &str) -> (status: InitStatus)
    ensures
        match status {
            InitStatus::Initialized => success,
            InitStatus::AlreadyInitialized => !success && says_initialized(stderr@),
            InitStatus::Failed(reason) => !success && !says_initialized(stderr@) && reason@
                == trimmed(stderr@),
        },
{
    if success {
        return InitStatus::Initialized;
    }
    let text = chars_of(stderr);
    if contains(&text, &chars_of("repository master key and config already initialized"))
        || contains(&text, &chars_of("config already initialized")) || contains(
        &text,
        &chars_of("config file already exists"),
    ) {
        InitStatus::AlreadyInitialized
    } else {
        InitStatus::Failed(string_of(&trim(&text)))
    }
}

/// How the sources of `set` are shown in one cell: the first of them, and
/// how many more there are; `None` where there is none.
pub open spec fn source_summary_text(set: BackupSetView) -> Seq<char> {
    match set.source {
        Some(s) => s,
        None => match set.sources {
            Some(ss) => if ss.len() == 0 {
                "None"@
            } else if ss.len() > 1 {
                ss[0] + " (+"@ + decimal_text((ss.len() - 1) as nat) + " more)"@
            } else {
                ss[0]
            },
            None => "None"@,
        },
    }
}

/// How the sources of `set` are shown in one cell. See
/// `source_summary_text`.
pub fn source_summary(set: &BackupSet) -> (out: String)
    ensures
        out@ == source_summary_text(set@),
{
    match &set.source {
        Some(s) => s.clone(),
        None => match &set.sources {
            Some(ss) => {
                if ss.len() == 0 {
                    String::from_str("None")
                } else {
                    assert(texts(ss@)[0] == ss@[0]@);
                    if ss.len() > 1 {
                        ss[0].clone().concat(" (+").concat(
                            decimal((ss.len() - 1) as u64).as_str(),
                        ).concat(" more)")
                    } else {
                        ss[0].clone()
                    }
                }
            },
            None => String::from_str("None"),
        },
    }
}

/// How many bytes at the end of a log file are read to show its tail.
pub const TAIL_BYTES: u64 = 4096;

/// How many lines of a log file are shown as its tail.
pub const TAIL_LINES: usize = 20;

/// Where in a log file of `size` bytes the reading of its tail starts.
pub fn tail_offset(size: u64) -> (offset: u64)
    ensures
        offset == (if size > TAIL_BYTES {
            size - TAIL_BYTES
        } else {
            0
        }),
{
    if size > TAIL_BYTES {
        size - TAIL_BYTES
    } else {
        0
    }
}

/// The last `limit` of `all`, or all of them where there are fewer.
pub open spec fn last_of(all: Seq<Seq<char>>, limit: nat) -> Seq<Seq<char>> {
    if all.len() > limit {
        all.skip(all.len() - limit)
    } else {
        all
    }
}

/// The lines to show of what was read from `offset` on: the last
/// `TAIL_LINES` lines. Where the reading did not start at the beginning
/// of the file its first line is likely cut and is left out.
pub open spec fn tail_of(content: Seq<char>, offset: u64) -> Seq<Seq<char>> {
    let all = lines(content);
    last_of(
        if offset > 0 && all.len() > 0 {
            all.drop_first()
        } else {
            all
        },
        TAIL_LINES as nat,
    )
}

/// The lines to show of what was read of a log file from `offset` on. See
/// `tail_of`.
pub fn tail_lines(content: &str, offset: u64) -> (out: Vec<String>)
    ensures
        texts(out@) == tail_of(content@, offset),
{
    let all = split_lines(&chars_of(content));
    let first: usize = if offset > 0 && all.len() > 0 {
        1
    } else {
        0
    };
    let count: usize = all.len() - first;
    let start: usize = if count > TAIL_LINES {
        first + (count - TAIL_LINES)
    } else {
        first
    };
    let ghost kept = if offset > 0 && rows(all@).len() > 0 {
        rows(all@).drop_first()
    } else {
        rows(all@)
    };
    assert(kept =~= rows(all@).skip(first as int));
    let ghost wanted = last_of(kept, TAIL_LINES as nat);
    assert(wanted =~= rows(all@).skip(start as int));
    let mut out: Vec<String> = Vec::new();
    let mut i: usize = start;
    while i < all.len()
        invariant
            start <= i <= all.len(),
            texts(out@) =~= rows(all@).subrange(start as int, i as int),
        decreases all.len() - i,
    {
        let ghost so_far = texts(out@);
        let line = string_of(&all[i]);
        out.push(line);
        assert(texts(out@) =~= so_far.push(all@[i as int]@));
        i += 1;
    }
    assert(rows(all@).subrange(start as int, all.len() as int) =~= rows(all@).skip(start as int));
    out
}

/// How the state of a job is shown.
pub open spec fn state_text(state: JobState) -> Seq<char> {
    match state {
        JobState::Idle => "Idle"@,
        JobState::Debouncing { remaining_secs } => "Debounce("@ + decimal_text(
            remaining_secs as nat,
        ) + "s)"@,
        JobState::Running => "Running"@,
        JobState::Error => "Error"@,
    }
}

/// How the state of a job is shown.
pub fn state_label(state: JobState) -> (out: String)
    ensures
        out@ == state_text(state),
{
    match state {
        JobState::Idle => String::from_str("Idle"),
        JobState::Debouncing { remaining_secs } => String::from_str("Debounce(").concat(
            decimal(remaining_secs).as_str(),
        ).concat("s)"),
        JobState::Running => String::from_str("Running"),
        JobState::Error => String::from_str("Error"),
    }
}

/// The whole seconds from `then` to `now`, rounded towards zero and kept
/// within 64 bits.
pub open spec fn seconds_between(now: Timestamp, then: Timestamp) -> i64 {
    let nanos = (now.secs - then.secs) * 1_000_000_000 + (now.nanos - then.nanos);
    let whole = if nanos >= 0 {
        nanos / 1_000_000_000
    } else {
        -((-nanos) / 1_000_000_000)
    };
    if whole > i64::MAX {
        i64::MAX
    } else if whole < i64::MIN {
        i64::MIN
    } else {
        whole as i64
    }
}

/// The whole seconds from `then` to `now`. See `seconds_between`.
pub fn seconds_since(now: Timestamp, then: Timestamp) -> (secs: i64)
    ensures
        secs == seconds_between(now, then),
{
    let nanos: i128 = (now.secs as i128 - then.secs as i128) * 1_000_000_000 + (now.nanos as i128
        - then.nanos as i128);
    let whole: i128 = if nanos >= 0 {
        nanos / 1_000_000_000
    } else {
        -((-nanos) / 1_000_000_000)
    };
    if whole > i64::MAX as i128 {
        i64::MAX
    } else if whole < i64::MIN as i128 {
        i64::MIN
    } else {
        whole as i64
    }
}

/// How the last backup of a set is shown at `now`: how long ago it ended,
/// marked where it failed, and `Never` where there was none.
pub open spec fn last_backup_text(last: Option<BackupResultView>, now: Timestamp) -> Seq<char> {
    match last {
        Some(result) => {
            let ago = crate::display::human_duration(seconds_between(now, result.timestamp));
            if result.success {
                ago
            } else {
                ago + " (fail)"@
            }
        },
        None => "Never"@,
    }
}

/// How the last backup of a set is shown at `now`. See `last_backup_text`.
pub fn last_backup_label(last: &Option<BackupResult>, now: Timestamp) -> (out: String)
    ensures
        out@ == last_backup_text(opt_result(*last), now),
{
    match last {
        Some(result) => {
            let ago = crate::display::format_human_duration(seconds_since(now, result.timestamp));
            if result.success {
                ago
            } else {
                ago.concat(" (fail)")
            }
        },
        None => String::from_str("Never"),
    }
}

/// How a count that may be unknown is shown: its digits, or a dash.
pub fn count_label(count: Option<u64>) -> (out: String)
    ensures
        out@ == (match count {
            Some(n) => decimal_text(n as nat),
            None => "-"@,
        }),
{
    match count {
        Some(n) => decimal(n),
        None => String::from_str("-"),
    }
}

/// How it is shown whether a set is mounted.
pub fn mounted_label(is_mounted: bool) -> (out: String)
    ensures
        out@ == (if is_mounted {
            "Yes"@
        } else {
            "No"@
        }),
{
    if is_mounted {
        String::from_str("Yes")
    } else {
        String::from_str("No")
    }
}


/// The name of the log file that is being written.
pub open spec fn active_log() -> Seq<char> {
    "backutil.log"@
}

/// Whether `a` comes before `b` in the order of a dictionary, or is `b`.
pub open spec fn precedes(a: Seq<char>, b: Seq<char>) -> bool
    decreases a.len(),
{
    if a.len() == 0 {
        true
    } else if b.len() == 0 {
        false
    } else if a[0] != b[0] {
        a[0] < b[0]
    } else {
        precedes(a.drop_first(), b.drop_first())
    }
}

/// Whether `name` names a log file: the one being written, or one that
/// was rotated away and has a date behind that name.
pub open spec fn is_log_name(name: Seq<char>) -> bool {
    has_prefix(name, active_log())
}

/// Whether `latest` is the log file to show among the files named
/// `names`: the one being written where it is there, else the one whose
/// name comes last, and none where no log file is there.
pub open spec fn is_latest_log(names: Seq<Seq<char>>, latest: Option<Seq<char>>) -> bool {
    if names.contains(active_log()) {
        latest == Some(active_log())
    } else {
        match latest {
            Some(name) => {
                &&& names.contains(name)
                &&& is_log_name(name)
                &&& forall|i: int|
                    0 <= i < names.len() && is_log_name(#[trigger] names[i]) ==> precedes(
                        names[i],
                        name,
                    )
            },
            None => forall|i: int| 0 <= i < names.len() ==> !is_log_name(#[trigger] names[i]),
        }
    }
}

proof fn lemma_precedes_transitive(a: Seq<char>, b: Seq<char>, c: Seq<char>)
    requires
        precedes(a, b),
        precedes(b, c),
    ensures
        precedes(a, c),
    decreases a.len(),
{
    if a.len() > 0 && a[0] == b[0] && b[0] == c[0] {
        lemma_precedes_transitive(a.drop_first(), b.drop_first(), c.drop_first());
    }
}

proof fn lemma_precedes_total(a: Seq<char>, b: Seq<char>)
    ensures
        precedes(a, b) || precedes(b, a),
    decreases a.len(),
{
    if a.len() > 0 && b.len() > 0 && a[0] == b[0] {
        lemma_precedes_total(a.drop_first(), b.drop_first());
    }
}

fn comes_before(a: &Vec<char>, b: &Vec<char>) -> (yes: bool)
    ensures
        yes == precedes(a@, b@),
{
    let mut i: usize = 0;
    assert(a@.skip(0) =~= a@);
    assert(b@.skip(0) =~= b@);
    while i < a.len() && i < b.len()
        invariant
            i <= a.len(),
            i <= b.len(),
            precedes(a@, b@) == precedes(a@.skip(i as int), b@.skip(i as int)),
        decreases a.len() - i,
    {
        proof {
            assert(a@.skip(i as int)[0] == a@[i as int]);
            assert(b@.skip(i as int)[0] == b@[i as int]);
            assert(a@.skip(i as int).drop_first() =~= a@.skip(i + 1));
            assert(b@.skip(i as int).drop_first() =~= b@.skip(i + 1));
        }
        if a[i] != b[i] {
            return a[i] < b[i];
        }
        i += 1;
    }
    i == a.len()
}

/// The log file to show among the files named `names`. See
/// `is_latest_log`.
pub fn latest_log(names: &Vec<String>) -> (latest: Option<String>)
    ensures
        is_latest_log(texts(names@), opt_text(latest)),
{
    let active = String::from_str("backutil.log");
    let prefix = chars_of("backutil.log");
    let ghost all = texts(names@);
    if holds(names, &active) {
        return Some(active);
    }
    let mut best: Option<usize> = None;
    let mut i: usize = 0;
    while i < names.len()
        invariant
            i <= names.len(),
            all == texts(names@),
            prefix@ == active_log(),
            match best {
                Some(b) => {
                    &&& b < i
                    &&& is_log_name(all[b as int])
                    &&& forall|k: int|
                        0 <= k < i && is_log_name(#[trigger] all[k]) ==> precedes(
                            all[k],
                            all[b as int],
                        )
                },
                None => forall|k: int| 0 <= k < i ==> !is_log_name(#[trigger] all[k]),
            },
        decreases names.len() - i,
    {
        assert(all[i as int] == names@[i as int]@);
        let name = chars_of(names[i].as_str());
        if starts_with(&name, &prefix) {
            match best {
                Some(b) => {
                    let held = chars_of(names[b].as_str());
                    assert(all[b as int] == names@[b as int]@);
                    if comes_before(&held, &name) {
                        proof {
                            assert forall|k: int|
                                0 <= k < i + 1 && is_log_name(#[trigger] all[k]) implies precedes(
                                all[k],
                                all[i as int],
                            ) by {
                                if k < i {
                                    lemma_precedes_transitive(all[k], all[b as int], all[i as int]);
                                } else {
                                    lemma_precedes_total(all[i as int], all[i as int]);
                                }
                            }
                        }
                        best = Some(i);
                    } else {
                        proof {
                            lemma_precedes_total(all[b as int], all[i as int]);
                        }
                    }
                },
                None => {
                    proof {
                        lemma_precedes_total(all[i as int], all[i as int]);
                    }
                    best = Some(i);
                },
            }
        }
        i += 1;
    }
    match best {
        Some(b) => {
            assert(all[b as int] == names@[b as int]@);
            assert(all.contains(all[b as int]));
            Some(names[b].clone())
        },
        None => None,
    }
}

} // verus!
