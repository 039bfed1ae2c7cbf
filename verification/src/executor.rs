//! The engine adapter: how the backup engine is invoked, and how what it
//! prints and how it exits is read.
//!
//! The engine is a child process that the daemon starts, waits for and, on
//! cancellation, terminates. This module says with which arguments each
//! operation starts it and turns what came back into results.

use crate::config::{BackupSet, BackupSetView, RetentionPolicy};
use crate::json::{contents, instant_of, json_content, json_of, Json};
use crate::mount::{mount_failure, MountStartup};
use crate::text::{
    all_digits, chars_of, contains, contains_text, decimal, decimal_text, decimal_value,
    lemma_pieces_nonempty, lines, opt_text, pieces, rows, split, split_lines, split_words,
    string_of, texts, trim, trimmed, words, Separator,
};
use crate::types::{
    snapshot_views, BackupResult, BackupResultView, Seconds, SnapshotInfo, SnapshotInfoView,
    Timestamp,
};
use vstd::prelude::*;
use vstd::string::StringExecFns;

verus! {

/// Why an operation of the engine gave no result.
#[derive(Debug)]
pub enum EngineError {
    /// The operation was cancelled and the engine terminated.
    Cancelled,
    /// The operation was refused before the engine was started.
    Policy(String),
    /// The engine could not be started, failed, or printed what could not
    /// be read.
    Failed(String),
}

/// What an `EngineError` holds, as mathematical values.
pub enum EngineErrorView {
    Cancelled,
    Policy(Seq<char>),
    Failed(Seq<char>),
}

impl View for EngineError {
    type V = EngineErrorView;

    open spec fn view(&self) -> EngineErrorView {
        match *self {
            EngineError::Cancelled => EngineErrorView::Cancelled,
            EngineError::Policy(m) => EngineErrorView::Policy(m@),
            EngineError::Failed(m) => EngineErrorView::Failed(m@),
        }
    }
}

impl EngineErrorView {
    /// The message of the error as it is shown to users.
    pub open spec fn message(self) -> Seq<char> {
        match self {
            EngineErrorView::Cancelled => "Operation cancelled"@,
            EngineErrorView::Policy(m) => m,
            EngineErrorView::Failed(m) => m,
        }
    }
}

impl EngineError {
    /// The message of the error as it is shown to users.
    pub fn message(&self) -> (out: String)
        ensures
            out@ == self@.message(),
    {
        match self {
            EngineError::Cancelled => String::from_str("Operation cancelled"),
            EngineError::Policy(m) => m.clone(),
            EngineError::Failed(m) => m.clone(),
        }
    }
}

/// How a run of the engine ended.
#[derive(Debug)]
pub enum EngineExit {
    /// The engine ran and exited; `success` says whether with status zero.
    Exited { success: bool, stdout: String, stderr: String },
    /// The engine could not be started.
    NotStarted,
    /// The run was cancelled and the engine terminated.
    Cancelled,
}

/// What an `EngineExit` holds, as mathematical values.
pub enum EngineExitView {
    Exited { success: bool, stdout: Seq<char>, stderr: Seq<char> },
    NotStarted,
    Cancelled,
}

impl View for EngineExit {
    type V = EngineExitView;

    open spec fn view(&self) -> EngineExitView {
        match *self {
            EngineExit::Exited { success, stdout, stderr } => EngineExitView::Exited {
                success,
                stdout: stdout@,
                stderr: stderr@,
            },
            EngineExit::NotStarted => EngineExitView::NotStarted,
            EngineExit::Cancelled => EngineExitView::Cancelled,
        }
    }
}

/// The message for an engine that could not be started.
pub open spec fn not_started() -> Seq<char> {
    "Failed to execute restic"@
}

/// The message for an engine that exited with a failure and wrote
/// `stderr` to its standard error.
pub open spec fn engine_failed(stderr: Seq<char>) -> Seq<char> {
    "Restic error: "@ + stderr
}

impl EngineExitView {
    /// What the engine printed, for an operation that asks for status
    /// zero; else why the operation failed.
    pub open spec fn output(self) -> Result<Seq<char>, EngineErrorView> {
        match self {
            EngineExitView::Exited { success, stdout, stderr } => if success {
                Ok(stdout)
            } else {
                Err(EngineErrorView::Failed(engine_failed(stderr)))
            },
            EngineExitView::NotStarted => Err(EngineErrorView::Failed(not_started())),
            EngineExitView::Cancelled => Err(EngineErrorView::Cancelled),
        }
    }
}

/// The arguments that every operation starts with.
pub open spec fn common_args(
    operation: Seq<char>,
    target: Seq<char>,
    password_file: Seq<char>,
) -> Seq<Seq<char>> {
    seq![operation, "--repo"@, target, "--password-file"@, password_file]
}

/// Each pattern of `excludes` behind an `--exclude` of its own.
pub open spec fn exclude_args(excludes: Seq<Seq<char>>) -> Seq<Seq<char>>
    decreases excludes.len(),
{
    if excludes.len() == 0 {
        Seq::empty()
    } else {
        exclude_args(excludes.drop_last()).push("--exclude"@).push(excludes.last())
    }
}

/// The arguments of a backup of `set`.
pub open spec fn backup_args(set: BackupSetView, password_file: Seq<char>) -> Seq<Seq<char>> {
    common_args("backup"@, set.target, password_file).push("--json"@) + exclude_args(
        set.excludes(),
    ) + set.source_paths()
}

/// The arguments that list the snapshots of the repository at `target`,
/// the most recent `limit` where given.
pub open spec fn snapshots_args(
    target: Seq<char>,
    limit: Option<usize>,
    password_file: Seq<char>,
) -> Seq<Seq<char>> {
    common_args("snapshots"@, target, password_file).push("--json"@) + (match limit {
        Some(n) => seq!["--last"@, decimal_text(n as nat)],
        None => Seq::empty(),
    })
}

/// The keep flag `flag` with its count, where the rule is given.
pub open spec fn keep_args(flag: Seq<char>, count: Option<u32>) -> Seq<Seq<char>> {
    match count {
        Some(n) => seq![flag, decimal_text(n as nat)],
        None => Seq::empty(),
    }
}

/// The arguments that prune the repository at `target` by `policy`.
pub open spec fn prune_args(
    target: Seq<char>,
    policy: RetentionPolicy,
    password_file: Seq<char>,
) -> Seq<Seq<char>> {
    common_args("forget"@, target, password_file).push("--prune"@) + keep_args(
        "--keep-last"@,
        policy.keep_last,
    ) + keep_args("--keep-daily"@, policy.keep_daily) + keep_args(
        "--keep-weekly"@,
        policy.keep_weekly,
    ) + keep_args("--keep-monthly"@, policy.keep_monthly)
}

/// The arguments that mount the repository at `target` on `mountpoint`,
/// showing the snapshot `snapshot` only where one is named.
pub open spec fn mount_args(
    target: Seq<char>,
    snapshot: Option<Seq<char>>,
    mountpoint: Seq<char>,
    password_file: Seq<char>,
) -> Seq<Seq<char>> {
    common_args("mount"@, target, password_file) + (match snapshot {
        Some(id) => seq!["--snapshot"@, id],
        None => Seq::empty(),
    }).push(mountpoint)
}

/// Why a set without a retention policy is not pruned.
pub open spec fn no_policy(name: Seq<char>) -> Seq<char> {
    "Cannot prune set '"@ + name
        + "': no retention policy specified. This would delete all snapshots."@
}

/// Why a set whose retention policy has no keep rule is not pruned.
pub open spec fn no_keep_rule(name: Seq<char>) -> Seq<char> {
    "Cannot prune set '"@ + name
        + "': retention policy has no keep rules. This would delete all snapshots."@
}

/// What a request to prune `set` comes to: the engine's arguments where
/// the set carries a retention policy with at least one keep rule, and a
/// refusal else. Pruning with no keep rule would forget every snapshot.
pub open spec fn prune_request(set: BackupSetView, password_file: Seq<char>) -> Result<
    Seq<Seq<char>>,
    EngineErrorView,
> {
    match set.retention {
        None => Err(EngineErrorView::Policy(no_policy(set.name))),
        Some(policy) => if policy.has_keep_rule() {
            Ok(prune_args(set.target, policy, password_file))
        } else {
            Err(EngineErrorView::Policy(no_keep_rule(set.name)))
        },
    }
}

fn push_text(args: &mut Vec<String>, text: &str)
    ensures
        texts(final(args)@) == texts(old(args)@).push(text@),
{
    args.push(String::from_str(text));
    assert(texts(args@) =~= texts(old(args)@).push(text@));
}

fn push_common(args: &mut Vec<String>, operation: &str, target: &str, password_file: &str)
    requires
        old(args)@.len() == 0,
    ensures
        texts(final(args)@) == common_args(operation@, target@, password_file@),
{
    push_text(args, operation);
    push_text(args, "--repo");
    push_text(args, target);
    push_text(args, "--password-file");
    push_text(args, password_file);
    assert(texts(args@) =~= common_args(operation@, target@, password_file@));
}

fn push_keep(args: &mut Vec<String>, flag: &str, count: Option<u32>)
    ensures
        texts(final(args)@) == texts(old(args)@) + keep_args(flag@, count),
{
    match count {
        Some(n) => {
            push_text(args, flag);
            let digits = decimal(n as u64);
            push_text(args, digits.as_str());
            assert(texts(args@) =~= texts(old(args)@) + keep_args(flag@, count));
        },
        None => {
            assert(texts(args@) =~= texts(old(args)@) + keep_args(flag@, count));
        },
    }
}

/// The adapter of the backup engine.
#[derive(Clone, Copy, Debug)]
pub struct ResticExecutor;

impl Default for ResticExecutor {
    fn default() -> (executor: Self) {
        ResticExecutor
    }
}

impl ResticExecutor {
    /// The adapter. It holds nothing: every operation is told where the
    /// repository and the password file are.
    pub fn new() -> (executor: Self) {
        ResticExecutor
    }

    /// The arguments that make the engine create a repository at `target`.
    pub fn init(&self, target: &str, password_file: &str) -> (args: Vec<String>)
        ensures
            texts(args@) == common_args("init"@, target@, password_file@),
    {
        let mut args: Vec<String> = Vec::new();
        push_common(&mut args, "init", target, password_file);
        args
    }

    /// The arguments that make the engine back up `set`: its excludes, each
    /// behind `--exclude`, then its source directories.
    pub fn backup(&self, set: &BackupSet, password_file: &str) -> (args: Vec<String>)
        ensures
            texts(args@) == backup_args(set@, password_file@),
    {
        let mut args: Vec<String> = Vec::new();
        push_common(&mut args, "backup", set.target.as_str(), password_file);
        push_text(&mut args, "--json");
        let ghost head = texts(args@);
        if let Some(excludes) = &set.exclude {
            let mut i: usize = 0;
            while i < excludes.len()
                invariant
                    i <= excludes.len(),
                    texts(args@) =~= head + exclude_args(texts(excludes@).take(i as int)),
                decreases excludes.len() - i,
            {
                proof {
                    assert(texts(excludes@).take(i + 1).drop_last() =~= texts(excludes@).take(
                        i as int,
                    ));
                }
                push_text(&mut args, "--exclude");
                push_text(&mut args, excludes[i].as_str());
                i += 1;
            }
            assert(texts(excludes@).take(excludes.len() as int) =~= texts(excludes@));
        }
        assert(texts(args@) =~= head + exclude_args(set@.excludes()));
        let ghost middle = texts(args@);
        let sources = set.source_paths();
        let mut k: usize = 0;
        while k < sources.len()
            invariant
                k <= sources.len(),
                texts(args@) =~= middle + texts(sources@).take(k as int),
            decreases sources.len() - k,
        {
            push_text(&mut args, sources[k].as_str());
            k += 1;
        }
        assert(texts(sources@).take(sources.len() as int) =~= texts(sources@));
        args
    }

    /// The arguments that make the engine list the snapshots of the
    /// repository at `target`, the most recent `limit` where given.
    pub fn snapshots(&self, target: &str, limit: Option<usize>, password_file: &str) -> (args: Vec<
        String,
    >)
        ensures
            texts(args@) == snapshots_args(target@, limit, password_file@),
    {
        let mut args: Vec<String> = Vec::new();
        push_common(&mut args, "snapshots", target, password_file);
        push_text(&mut args, "--json");
        if let Some(n) = limit {
            push_text(&mut args, "--last");
            let digits = decimal(n as u64);
            push_text(&mut args, digits.as_str());
        }
        assert(texts(args@) =~= snapshots_args(target@, limit, password_file@));
        args
    }

    /// The arguments that make the engine prune the repository of `set` by
    /// the retention policy that `set` carries, or the refusal to prune: a
    /// set without a policy, or with a policy without a keep rule, is not
    /// pruned, and the engine is then not to be started.
    pub fn prune(&self, set: &BackupSet, password_file: &str) -> (request: Result<
        Vec<String>,
        EngineError,
    >)
        ensures
            match prune_request(set@, password_file@) {
                Ok(args) => request matches Ok(a) && texts(a@) == args,
                Err(e) => request matches Err(r) && r@ == e,
            },
            request is Ok <==> set@.retention is Some && set@.retention->0.has_keep_rule(),
    {
        match set.retention {
            None => Err(
                EngineError::Policy(
                    String::from_str("Cannot prune set '").concat(set.name.as_str()).concat(
                        "': no retention policy specified. This would delete all snapshots.",
                    ),
                ),
            ),
            Some(policy) => {
                if !policy.has_any_rule() {
                    return Err(
                        EngineError::Policy(
                            String::from_str("Cannot prune set '").concat(set.name.as_str()).concat(
                                "': retention policy has no keep rules. This would delete all snapshots.",
                            ),
                        ),
                    );
                }
                let mut args: Vec<String> = Vec::new();
                push_common(&mut args, "forget", set.target.as_str(), password_file);
                push_text(&mut args, "--prune");
                push_keep(&mut args, "--keep-last", policy.keep_last);
                push_keep(&mut args, "--keep-daily", policy.keep_daily);
                push_keep(&mut args, "--keep-weekly", policy.keep_weekly);
                push_keep(&mut args, "--keep-monthly", policy.keep_monthly);
                Ok(args)
            },
        }
    }

    /// The arguments that make the engine mount the repository at `target`
    /// on `mountpoint`.
    pub fn mount(
        &self,
        target: &str,
        snapshot_id: Option<&str>,
        mountpoint: &str,
        password_file: &str,
    ) -> (args: Vec<String>)
        ensures
            texts(args@) == mount_args(
                target@,
                crate::config::opt_str(snapshot_id),
                mountpoint@,
                password_file@,
            ),
    {
        let mut args: Vec<String> = Vec::new();
        push_common(&mut args, "mount", target, password_file);
        if let Some(id) = snapshot_id {
            push_text(&mut args, "--snapshot");
            push_text(&mut args, id);
        }
        push_text(&mut args, mountpoint);
        assert(texts(args@) =~= mount_args(
            target@,
            crate::config::opt_str(snapshot_id),
            mountpoint@,
            password_file@,
        ));
        args
    }
}


/// Ten to the power `k`.
pub open spec fn pow10(k: nat) -> nat
    decreases k,
{
    if k == 0 {
        1
    } else {
        10 * pow10((k - 1) as nat)
    }
}

/// The digits of a fraction beyond this many are not read.
pub const FRACTION_DIGITS: usize = 18;

/// The lower-case form of an ASCII letter; any other character itself.
pub open spec fn lower(c: char) -> char {
    if 'A' <= c <= 'Z' {
        ((c as u8) + 32) as char
    } else {
        c
    }
}

/// `s` with its ASCII letters in lower case.
pub open spec fn lowered(s: Seq<char>) -> Seq<char> {
    Seq::new(s.len(), |i: int| lower(s[i]))
}

/// The number of bytes in one of the unit `unit`, which is read without
/// regard to case: 1024 for `KiB` or `K`, and its powers for `MiB` or `M`,
/// `GiB` or `G`, and `TiB` or `T`. Any other unit counts single bytes.
pub open spec fn unit_bytes(unit: Seq<char>) -> nat {
    let u = lowered(unit);
    if u == seq!['k', 'i', 'b'] || u == seq!['k'] {
        1024
    } else if u == seq!['m', 'i', 'b'] || u == seq!['m'] {
        1024 * 1024
    } else if u == seq!['g', 'i', 'b'] || u == seq!['g'] {
        1024 * 1024 * 1024
    } else if u == seq!['t', 'i', 'b'] || u == seq!['t'] {
        1024 * 1024 * 1024 * 1024
    } else {
        1
    }
}

/// The digits before and after the decimal point of `word`, where `word`
/// is a decimal figure: digits, or digits with one point among or beside
/// them.
pub open spec fn decimal_parts(word: Seq<char>) -> Option<(Seq<char>, Seq<char>)> {
    let ps = pieces(word, Separator::Char('.'));
    if ps.len() == 1 && ps[0].len() > 0 && all_digits(ps[0]) {
        Some((ps[0], Seq::empty()))
    } else if ps.len() == 2 && all_digits(ps[0]) && all_digits(ps[1]) && ps[0].len() + ps[1].len()
        > 0 {
        Some((ps[0], ps[1]))
    } else {
        None
    }
}

/// The whole bytes in the figure `whole.fraction` of units of `unit` bytes.
/// Of the fraction the first `FRACTION_DIGITS` digits are read.
pub open spec fn scaled(whole: Seq<char>, fraction: Seq<char>, unit: nat) -> nat {
    let read = if fraction.len() > FRACTION_DIGITS {
        fraction.take(FRACTION_DIGITS as int)
    } else {
        fraction
    };
    decimal_value(whole) * unit + (decimal_value(read) * unit) / pow10(read.len())
}

/// The size in bytes that `s` states: a decimal figure, and after white
/// space a unit where one is given. A size beyond 64 bits counts as the
/// largest; a text that does not start with a decimal figure counts as
/// zero.
pub open spec fn restic_size(s: Seq<char>) -> u64 {
    let w = words(s);
    if w.len() == 0 {
        0
    } else {
        match decimal_parts(w[0]) {
            None => 0,
            Some((whole, fraction)) => {
                let bytes = scaled(
                    whole,
                    fraction,
                    if w.len() < 2 {
                        1
                    } else {
                        unit_bytes(w[1])
                    },
                );
                if bytes > u64::MAX {
                    u64::MAX
                } else {
                    bytes as u64
                }
            },
        }
    }
}

/// The text that marks the line of a prune report that states the bytes
/// reclaimed.
pub open spec fn reclaimed_marker() -> Seq<char> {
    "total bytes reclaimed:"@
}

/// The bytes reclaimed that the lines of a prune report state: the size
/// between the first and the second colon of the first line that holds the
/// marker; zero where no line does.
pub open spec fn reclaimed_in(report: Seq<Seq<char>>) -> u64
    decreases report.len(),
{
    if report.len() == 0 {
        0
    } else if contains_text(report.first(), reclaimed_marker()) && pieces(
        report.first(),
        Separator::Char(':'),
    ).len() >= 2 {
        restic_size(trimmed(pieces(report.first(), Separator::Char(':'))[1]))
    } else {
        reclaimed_in(report.drop_first())
    }
}

/// The bytes reclaimed that a prune report states.
pub open spec fn reclaimed_bytes(report: Seq<char>) -> u64 {
    reclaimed_in(lines(report))
}

proof fn lemma_pow10_positive(k: nat)
    ensures
        pow10(k) > 0,
    decreases k,
{
    if k > 0 {
        lemma_pow10_positive((k - 1) as nat);
    }
}

/// Digits write a number below ten to the power of their count.
proof fn lemma_digits_below_pow10(s: Seq<char>)
    requires
        all_digits(s),
    ensures
        decimal_value(s) < pow10(s.len()),
    decreases s.len(),
{
    if s.len() > 0 {
        assert(all_digits(s.drop_last())) by {
            assert forall|i: int| 0 <= i < s.drop_last().len() implies crate::text::is_digit(
                #[trigger] s.drop_last()[i],
            ) by {
                assert(s.drop_last()[i] == s[i]);
            }
        }
        lemma_digits_below_pow10(s.drop_last());
        assert(crate::text::is_digit(s[s.len() - 1]));
    }
}

fn is_all_digits(v: &Vec<char>) -> (yes: bool)
    ensures
        yes == all_digits(v@),
{
    let mut i: usize = 0;
    while i < v.len()
        invariant
            i <= v.len(),
            forall|k: int| 0 <= k < i ==> crate::text::is_digit(#[trigger] v@[k]),
        decreases v.len() - i,
    {
        if !('0' <= v[i] && v[i] <= '9') {
            assert(!crate::text::is_digit(v@[i as int]));
            return false;
        }
        i += 1;
    }
    true
}

/// The value of at most eighteen digits.
fn short_value(v: &Vec<char>) -> (value: u64)
    requires
        all_digits(v@),
        v@.len() <= FRACTION_DIGITS,
    ensures
        value == decimal_value(v@),
{
    let mut acc: u64 = 0;
    let mut i: usize = 0;
    while i < v.len()
        invariant
            i <= v.len() <= FRACTION_DIGITS,
            all_digits(v@),
            acc == decimal_value(v@.take(i as int)),
            acc < pow10(i as nat),
        decreases v.len() - i,
    {
        proof {
            assert(v@.take(i + 1).drop_last() =~= v@.take(i as int));
            assert(v@.take(i + 1).last() == v@[i as int]);
            assert(crate::text::is_digit(v@[i as int]));
            lemma_pow10_bound(i as nat);
        }
        let d: u64 = (v[i] as u32 - 48) as u64;
        acc = acc * 10 + d;
        i += 1;
    }
    assert(v@.take(v.len() as int) =~= v@);
    acc
}

/// Ten to a power up to eighteen is at most 10^18.
proof fn lemma_pow10_bound(k: nat)
    requires
        k <= 18,
    ensures
        pow10(k) <= 1_000_000_000_000_000_000,
        k < 18 ==> pow10(k) <= 100_000_000_000_000_000,
    decreases k,
{
    reveal_with_fuel(pow10, 20);
}

fn power_of_ten(k: usize) -> (p: u64)
    requires
        k <= FRACTION_DIGITS,
    ensures
        p == pow10(k as nat),
{
    let mut p: u64 = 1;
    let mut i: usize = 0;
    while i < k
        invariant
            i <= k <= FRACTION_DIGITS,
            p == pow10(i as nat),
        decreases k - i,
    {
        proof {
            lemma_pow10_bound(i as nat);
        }
        p = p * 10;
        i += 1;
    }
    p
}

fn lower_char(c: char) -> (out: char)
    ensures
        out == lower(c),
{
    if 'A' <= c && c <= 'Z' {
        ((c as u8) + 32) as char
    } else {
        c
    }
}

fn lower_all(v: &Vec<char>) -> (out: Vec<char>)
    ensures
        out@ == lowered(v@),
{
    let mut out: Vec<char> = Vec::new();
    let mut i: usize = 0;
    while i < v.len()
        invariant
            i <= v.len(),
            out@ =~= lowered(v@).take(i as int),
        decreases v.len() - i,
    {
        out.push(lower_char(v[i]));
        i += 1;
    }
    assert(lowered(v@).take(v.len() as int) =~= lowered(v@));
    out
}

fn is_word(v: &Vec<char>, a: char, b: char, c: char) -> (yes: bool)
    ensures
        yes == (v@ == seq![a, b, c]),
{
    if v.len() == 3 && v[0] == a && v[1] == b && v[2] == c {
        assert(v@ =~= seq![a, b, c]);
        true
    } else {
        assert(v@ != seq![a, b, c]) by {
            if v@ == seq![a, b, c] {
                assert(seq![a, b, c].len() == 3);
                assert(seq![a, b, c][0] == a);
                assert(seq![a, b, c][1] == b);
                assert(seq![a, b, c][2] == c);
            }
        }
        false
    }
}

fn is_letter(v: &Vec<char>, a: char) -> (yes: bool)
    ensures
        yes == (v@ == seq![a]),
{
    if v.len() == 1 && v[0] == a {
        assert(v@ =~= seq![a]);
        true
    } else {
        assert(v@ != seq![a]) by {
            if v@ == seq![a] {
                assert(seq![a].len() == 1);
                assert(seq![a][0] == a);
            }
        }
        false
    }
}

fn unit_multiplier(unit: &Vec<char>) -> (bytes: u64)
    ensures
        bytes == unit_bytes(unit@),
        1 <= bytes <= 1024 * 1024 * 1024 * 1024,
{
    let u = lower_all(unit);
    if is_word(&u, 'k', 'i', 'b') || is_letter(&u, 'k') {
        1024
    } else if is_word(&u, 'm', 'i', 'b') || is_letter(&u, 'm') {
        1024 * 1024
    } else if is_word(&u, 'g', 'i', 'b') || is_letter(&u, 'g') {
        1024 * 1024 * 1024
    } else if is_word(&u, 't', 'i', 'b') || is_letter(&u, 't') {
        1024 * 1024 * 1024 * 1024
    } else {
        1
    }
}

/// The bytes in the figure `whole.fraction` of units of `unit` bytes, the
/// largest number where they do not fit 64 bits.
fn scale(whole: &Vec<char>, fraction: &Vec<char>, unit: u64) -> (bytes: u64)
    requires
        all_digits(whole@),
        all_digits(fraction@),
        1 <= unit <= 1024 * 1024 * 1024 * 1024,
    ensures
        bytes == (if scaled(whole@, fraction@, unit as nat) > u64::MAX {
            u64::MAX
        } else {
            scaled(whole@, fraction@, unit as nat) as u64
        }),
{
    let read = if fraction.len() > FRACTION_DIGITS {
        crate::text::slice_of(fraction, 0, FRACTION_DIGITS)
    } else {
        crate::text::slice_of(fraction, 0, fraction.len())
    };
    proof {
        assert(read@ =~= (if fraction@.len() > FRACTION_DIGITS {
            fraction@.take(FRACTION_DIGITS as int)
        } else {
            fraction@
        }));
        assert(all_digits(read@)) by {
            assert forall|i: int| 0 <= i < read@.len() implies crate::text::is_digit(
                #[trigger] read@[i],
            ) by {
                assert(read@[i] == fraction@[i]);
            }
        }
        lemma_digits_below_pow10(read@);
        lemma_pow10_bound(read@.len());
        lemma_pow10_positive(read@.len());
    }
    let part: u64 = short_value(&read);
    let divisor: u64 = power_of_ten(read.len());
    assert(part as int * unit as int <= 1_000_000_000_000_000_000 * (1024 * 1024 * 1024 * 1024))
        by (nonlinear_arith)
        requires
            part < 1_000_000_000_000_000_000,
            unit <= 1024 * 1024 * 1024 * 1024,
    ;
    let product: u128 = part as u128 * unit as u128;
    let part_bytes: u128 = product / divisor as u128;
    assert(part as int * unit as int <= 1_000_000_000_000_000_000 * (1024 * 1024 * 1024 * 1024))
        by (nonlinear_arith)
        requires
            part < 1_000_000_000_000_000_000,
            unit <= 1024 * 1024 * 1024 * 1024,
    ;
    assert(part as int * unit as int == decimal_value(read@) * (unit as nat)) by (nonlinear_arith)
        requires
            part == decimal_value(read@),
    ;
    assert(part_bytes == (decimal_value(read@) * (unit as nat)) / pow10(read@.len()));
    assert(part_bytes <= part as int * unit as int) by (nonlinear_arith)
        requires
            part_bytes as int == (part as int * unit as int) / (divisor as int),
            divisor >= 1,
            part as int * unit as int >= 0,
    ;
    match crate::text::parse_decimal(whole) {
        Some(count) => {
            assert(count as int * unit as int <= 0xffff_ffff_ffff_ffff * (1024 * 1024 * 1024 * 1024))
                by (nonlinear_arith)
                requires
                    count <= 0xffff_ffff_ffff_ffff,
                    unit <= 1024 * 1024 * 1024 * 1024,
            ;
            let whole_bytes: u128 = count as u128 * unit as u128;
            assert(whole_bytes == decimal_value(whole@) * (unit as nat)) by (nonlinear_arith)
                requires
                    whole_bytes as int == count as int * unit as int,
                    count == decimal_value(whole@),
            ;
            let total: u128 = whole_bytes + part_bytes;
            if total > u64::MAX as u128 {
                u64::MAX
            } else {
                total as u64
            }
        },
        None => {
            if whole.len() == 0 {
                assert(decimal_value(whole@) == 0);
                assert(decimal_value(whole@) * (unit as nat) == 0) by (nonlinear_arith)
                    requires
                        decimal_value(whole@) == 0,
                ;
                if part_bytes > u64::MAX as u128 {
                    u64::MAX
                } else {
                    part_bytes as u64
                }
            } else {
                assert(decimal_value(whole@) * (unit as nat) > u64::MAX) by (nonlinear_arith)
                    requires
                        decimal_value(whole@) > u64::MAX,
                        unit >= 1,
                ;
                u64::MAX
            }
        },
    }
}

/// The size in bytes that `s` states. See `restic_size`.
pub fn parse_restic_size(s: &str) -> (bytes: u64)
    ensures
        bytes == restic_size(s@),
{
    let text = chars_of(s);
    let w = split_words(&text);
    if w.len() == 0 {
        return 0;
    }
    assert(rows(w@)[0] == w@[0]@);
    let parts = split(&w[0], Separator::Char('.'));
    proof {
        lemma_pieces_nonempty(w@[0]@, Separator::Char('.'));
        assert(rows(parts@)[0] == parts@[0]@);
    }
    let figure_ok = if parts.len() == 1 {
        parts[0].len() > 0 && is_all_digits(&parts[0])
    } else if parts.len() == 2 {
        assert(rows(parts@)[1] == parts@[1]@);
        is_all_digits(&parts[0]) && is_all_digits(&parts[1]) && (parts[0].len() > 0
            || parts[1].len() > 0)
    } else {
        false
    };
    if !figure_ok {
        assert(decimal_parts(w@[0]@) is None);
        return 0;
    }
    let unit: u64 = if w.len() < 2 {
        1
    } else {
        assert(rows(w@)[1] == w@[1]@);
        unit_multiplier(&w[1])
    };
    if parts.len() == 1 {
        let none: Vec<char> = Vec::new();
        assert(none@ =~= Seq::<char>::empty());
        scale(&parts[0], &none, unit)
    } else {
        scale(&parts[0], &parts[1], unit)
    }
}

/// The bytes reclaimed that a prune report states. See `reclaimed_bytes`.
pub fn parse_reclaimed_bytes(stdout: &str) -> (bytes: u64)
    ensures
        bytes == reclaimed_bytes(stdout@),
{
    let text = chars_of(stdout);
    let report = split_lines(&text);
    let marker = chars_of("total bytes reclaimed:");
    let ghost all = rows(report@);
    let mut i: usize = 0;
    assert(all.skip(0) =~= all);
    while i < report.len()
        invariant
            i <= report.len(),
            all == rows(report@),
            all == lines(stdout@),
            marker@ == reclaimed_marker(),
            reclaimed_in(all) == reclaimed_in(all.skip(i as int)),
        decreases report.len() - i,
    {
        proof {
            assert(all.skip(i as int).first() == report@[i as int]@);
            assert(all.skip(i as int).drop_first() =~= all.skip(i + 1));
        }
        if contains(&report[i], &marker) {
            let fields = split(&report[i], Separator::Char(':'));
            assert(rows(fields@).len() == fields.len());
            if fields.len() >= 2 {
                assert(rows(fields@)[1] == fields@[1]@);
                let figure = trim(&fields[1]);
                let figure_text = string_of(&figure);
                let bytes = parse_restic_size(figure_text.as_str());
                assert(bytes == reclaimed_in(all.skip(i as int)));
                return bytes;
            }
        }
        i += 1;
    }
    assert(all.skip(report.len() as int) =~= Seq::<Seq<char>>::empty());
    0
}


/// What a line of the engine's backup output was read as.
#[derive(Debug)]
pub enum LineReading {
    /// Not a summary: not a JSON object, or one whose `message_type` is not
    /// the string `summary`.
    Other,
    /// A summary that lacks a field or holds one of the wrong kind.
    Malformed,
    /// A summary.
    Summary { snapshot_id: String, data_added: u64, total_duration: Seconds },
}

/// What a `LineReading` holds, as mathematical values.
pub enum LineReadingView {
    Other,
    Malformed,
    Summary { snapshot_id: Seq<char>, data_added: u64, total_duration: Seconds },
}

impl View for LineReading {
    type V = LineReadingView;

    open spec fn view(&self) -> LineReadingView {
        match *self {
            LineReading::Other => LineReadingView::Other,
            LineReading::Malformed => LineReadingView::Malformed,
            LineReading::Summary { snapshot_id, data_added, total_duration } => LineReadingView::Summary {
                snapshot_id: snapshot_id@,
                data_added,
                total_duration,
            },
        }
    }
}

/// The views of the readings of `v`, in order.
pub open spec fn reading_views(v: Seq<LineReading>) -> Seq<LineReadingView> {
    Seq::new(v.len(), |i: int| v[i]@)
}

/// The text of the member `key` of `value`, if it has one and that is a
/// string.
pub open spec fn member_string(value: Json, key: Seq<char>) -> Option<Seq<char>> {
    match value.member(key) {
        Some(m) => m.text(),
        None => None,
    }
}

/// The member `key` of `value` as a number without sign, if it has one and
/// that is such a number.
pub open spec fn member_unsigned(value: Json, key: Seq<char>) -> Option<u64> {
    match value.member(key) {
        Some(m) => m.unsigned(),
        None => None,
    }
}

/// What a line of the engine's backup output reads as. A summary is a
/// JSON object whose `message_type` is the string `summary`; it has to
/// hold the string `snapshot_id`, the unsigned integer `data_added` and
/// the number `total_duration`.
pub open spec fn read_summary(line: Seq<char>) -> LineReadingView {
    match json_of(line) {
        Some(doc) => if doc is Object && member_string(doc, "message_type"@) == Some(
            "summary"@,
        ) {
            match (
                member_string(doc, "snapshot_id"@),
                member_unsigned(doc, "data_added"@),
                match doc.member("total_duration"@) {
                    Some(m) => m.number(),
                    None => None,
                },
            ) {
                (Some(snapshot_id), Some(data_added), Some(bits)) => LineReadingView::Summary {
                    snapshot_id,
                    data_added,
                    total_duration: Seconds { bits },
                },
                _ => LineReadingView::Malformed,
            }
        } else {
            LineReadingView::Other
        },
        None => LineReadingView::Other,
    }
}

/// Each line of `output` as it reads.
pub open spec fn read_lines(output: Seq<Seq<char>>) -> Seq<LineReadingView> {
    Seq::new(output.len(), |i: int| read_summary(output[i]))
}

/// The last of the readings that is a summary, well formed or not;
/// `Other` where none is.
pub open spec fn last_summary(readings: Seq<LineReadingView>) -> LineReadingView
    decreases readings.len(),
{
    if readings.len() == 0 {
        LineReadingView::Other
    } else if !(readings.last() is Other) {
        readings.last()
    } else {
        last_summary(readings.drop_last())
    }
}

/// The message of a backup that printed no summary though the engine
/// reported success.
pub open spec fn no_summary() -> Seq<char> {
    "no summary in output"@
}

/// The message of a backup whose summary could not be read.
pub open spec fn bad_summary() -> Seq<char> {
    "Failed to parse restic summary JSON"@
}

/// The result of a backup that failed for the reason `error` at `now`.
pub open spec fn failed_backup(error: Seq<char>, now: Timestamp) -> BackupResultView {
    BackupResultView {
        snapshot_id: Seq::empty(),
        timestamp: now,
        added_bytes: 0,
        duration_secs: Seconds { bits: 0 },
        success: false,
        error_message: Some(error),
    }
}

/// What a backup came to, given how the engine exited, what its output
/// lines read as and what it wrote to its standard error.
///
/// The last summary among the lines is the result. With a summary the
/// backup succeeded, whatever the exit status: the engine reports
/// warnings by a status that is not zero and still writes the snapshot. A
/// summary that cannot be read aborts. Without a summary the backup
/// failed: with what the engine wrote to its standard error where it
/// reported a failure, and for want of a summary else.
pub open spec fn backup_verdict(
    success: bool,
    readings: Seq<LineReadingView>,
    stderr: Seq<char>,
    now: Timestamp,
) -> Result<BackupResultView, EngineErrorView> {
    match last_summary(readings) {
        LineReadingView::Summary { snapshot_id, data_added, total_duration } => Ok(
            BackupResultView {
                snapshot_id,
                timestamp: now,
                added_bytes: data_added,
                duration_secs: total_duration,
                success: true,
                error_message: None,
            },
        ),
        LineReadingView::Malformed => Err(EngineErrorView::Failed(bad_summary())),
        LineReadingView::Other => Ok(
            failed_backup(
                if success {
                    no_summary()
                } else {
                    engine_failed(stderr)
                },
                now,
            ),
        ),
    }
}

/// What a backup came to, given how the run of the engine ended.
pub open spec fn backup_outcome(exit: EngineExitView, now: Timestamp) -> Result<
    BackupResultView,
    EngineErrorView,
> {
    match exit {
        EngineExitView::Exited { success, stdout, stderr } => backup_verdict(
            success,
            read_lines(lines(stdout)),
            stderr,
            now,
        ),
        EngineExitView::NotStarted => Ok(failed_backup(not_started(), now)),
        EngineExitView::Cancelled => Err(EngineErrorView::Cancelled),
    }
}

/// The texts of `values`, if every one of them is a string.
pub open spec fn strings_of(values: Seq<Json>) -> Option<Seq<Seq<char>>>
    decreases values.len(),
{
    if values.len() == 0 {
        Some(Seq::empty())
    } else {
        match (strings_of(values.drop_last()), values.last().text()) {
            (Some(head), Some(text)) => Some(head.push(text)),
            _ => None,
        }
    }
}

/// The texts of the elements of `value`, if it is an array of strings.
pub open spec fn string_list(value: Json) -> Option<Seq<Seq<char>>> {
    match value.items() {
        Some(values) => strings_of(values),
        None => None,
    }
}

/// The tags of the snapshot `value`: none where it has no member `tags`
/// or that is null.
pub open spec fn tags_of(value: Json) -> Option<Seq<Seq<char>>> {
    match value.member("tags"@) {
        Some(tags) => if tags is Null {
            Some(Seq::empty())
        } else {
            string_list(tags)
        },
        None => Some(Seq::empty()),
    }
}

/// The size of the snapshot `value`, where it reports one: the member
/// `total_bytes_processed` of its member `summary`.
pub open spec fn size_of(value: Json) -> Option<u64> {
    match value.member("summary"@) {
        Some(summary) => member_unsigned(summary, "total_bytes_processed"@),
        None => None,
    }
}

/// The snapshot that the JSON value `value` describes, if it describes
/// one: an object with the strings `id` and `short_id`, the instant
/// `time`, the array of strings `paths` and, where given, the array of
/// strings `tags`.
pub open spec fn snapshot_of(value: Json) -> Option<SnapshotInfoView> {
    if !(value is Object) {
        None
    } else {
        match (
            member_string(value, "id"@),
            member_string(value, "short_id"@),
            match member_string(value, "time"@) {
                Some(time) => instant_of(time),
                None => None,
            },
            match value.member("paths"@) {
                Some(paths) => string_list(paths),
                None => None,
            },
            tags_of(value),
        ) {
            (Some(id), Some(short_id), Some(timestamp), Some(paths), Some(tags)) => Some(
                SnapshotInfoView {
                    id,
                    short_id,
                    timestamp,
                    paths,
                    tags,
                    total_bytes: size_of(value),
                },
            ),
            _ => None,
        }
    }
}

/// The snapshots that `values` describe, if every one of them describes
/// one.
pub open spec fn snapshots_of(values: Seq<Json>) -> Option<Seq<SnapshotInfoView>>
    decreases values.len(),
{
    if values.len() == 0 {
        Some(Seq::empty())
    } else {
        match (snapshots_of(values.drop_last()), snapshot_of(values.last())) {
            (Some(head), Some(snapshot)) => Some(head.push(snapshot)),
            _ => None,
        }
    }
}

/// The snapshots that the engine's listing `output` describes, in its
/// order, if it is a JSON array of snapshots.
pub open spec fn snapshot_list(output: Seq<char>) -> Option<Seq<SnapshotInfoView>> {
    match json_of(output) {
        Some(doc) => match doc.items() {
            Some(values) => snapshots_of(values),
            None => None,
        },
        None => None,
    }
}

/// The message of a listing that could not be read.
pub open spec fn bad_listing() -> Seq<char> {
    "Failed to parse restic snapshots JSON"@
}

/// What a listing of snapshots came to, given how the run of the engine
/// ended.
pub open spec fn snapshots_outcome(exit: EngineExitView) -> Result<
    Seq<SnapshotInfoView>,
    EngineErrorView,
> {
    match exit.output() {
        Ok(stdout) => match snapshot_list(stdout) {
            Some(list) => Ok(list),
            None => Err(EngineErrorView::Failed(bad_listing())),
        },
        Err(e) => Err(e),
    }
}

fn field_string(value: &serde_json::Value, key: &str) -> (found: Option<String>)
    ensures
        opt_text(found) == member_string(json_content(*value), key@),
{
    match crate::json::member(value, key) {
        Some(m) => crate::json::string(m),
        None => None,
    }
}

fn field_unsigned(value: &serde_json::Value, key: &str) -> (found: Option<u64>)
    ensures
        found == member_unsigned(json_content(*value), key@),
{
    match crate::json::member(value, key) {
        Some(m) => crate::json::unsigned(m),
        None => None,
    }
}

/// Reads one line of the engine's backup output. See `read_summary`.
pub fn read_line(line: &str) -> (reading: LineReading)
    ensures
        reading@ == read_summary(line@),
{
    let doc = match crate::json::parse(line) {
        Some(doc) => doc,
        None => {
            return LineReading::Other;
        },
    };
    if !crate::json::is_object(&doc) {
        return LineReading::Other;
    }
    let is_summary = match field_string(&doc, "message_type") {
        Some(kind) => kind == String::from_str("summary"),
        None => false,
    };
    if !is_summary {
        return LineReading::Other;
    }
    let snapshot_id = field_string(&doc, "snapshot_id");
    let data_added = field_unsigned(&doc, "data_added");
    let total_duration = match crate::json::member(&doc, "total_duration") {
        Some(m) => crate::json::number(m),
        None => None,
    };
    match (snapshot_id, data_added, total_duration) {
        (Some(snapshot_id), Some(data_added), Some(bits)) => LineReading::Summary {
            snapshot_id,
            data_added,
            total_duration: Seconds { bits },
        },
        _ => LineReading::Malformed,
    }
}

fn failed_result(error: String, now: Timestamp) -> (result: BackupResult)
    ensures
        result@ == failed_backup(error@, now),
{
    BackupResult {
        snapshot_id: String::new(),
        timestamp: now,
        added_bytes: 0,
        duration_secs: Seconds::zero(),
        success: false,
        error_message: Some(error),
    }
}

/// What a backup came to, given how the engine exited, what its output
/// lines read as and what it wrote to its standard error. See
/// `backup_verdict`.
pub fn backup_result(success: bool, readings: &Vec<LineReading>, stderr: &str, now: Timestamp) -> (result:
    Result<BackupResult, EngineError>)
    ensures
        match backup_verdict(success, reading_views(readings@), stderr@, now) {
            Ok(r) => result matches Ok(got) && got@ == r,
            Err(e) => result matches Err(got) && got@ == e,
        },
{
    let ghost all = reading_views(readings@);
    let mut i: usize = readings.len();
    assert(all.take(i as int) =~= all);
    while i > 0
        invariant
            i <= readings.len(),
            all == reading_views(readings@),
            last_summary(all) == last_summary(all.take(i as int)),
        decreases i,
    {
        proof {
            assert(all.take(i as int).last() == readings@[i - 1]@);
            assert(all.take(i as int).drop_last() =~= all.take(i - 1));
        }
        match &readings[i - 1] {
            LineReading::Summary { snapshot_id, data_added, total_duration } => {
                return Ok(
                    BackupResult {
                        snapshot_id: snapshot_id.clone(),
                        timestamp: now,
                        added_bytes: *data_added,
                        duration_secs: *total_duration,
                        success: true,
                        error_message: None,
                    },
                );
            },
            LineReading::Malformed => {
                return Err(
                    EngineError::Failed(String::from_str("Failed to parse restic summary JSON")),
                );
            },
            LineReading::Other => {},
        }
        i -= 1;
    }
    let error = if success {
        String::from_str("no summary in output")
    } else {
        String::from_str("Restic error: ").concat(stderr)
    };
    Ok(failed_result(error, now))
}

fn read_strings(values: &Vec<serde_json::Value>) -> (found: Option<Vec<String>>)
    ensures
        crate::text::opt_texts(found) == strings_of(contents(values@)),
{
    let ghost all = contents(values@);
    let mut out: Vec<String> = Vec::new();
    let mut i: usize = 0;
    assert(all.take(0) =~= Seq::<Json>::empty());
    while i < values.len()
        invariant
            i <= values.len(),
            all == contents(values@),
            strings_of(all.take(i as int)) == Some(texts(out@)),
        decreases values.len() - i,
    {
        proof {
            assert(all.take(i + 1).drop_last() =~= all.take(i as int));
            assert(all.take(i + 1).last() == json_content(values@[i as int]));
        }
        match crate::json::string(&values[i]) {
            Some(text) => {
                let ghost so_far = texts(out@);
                out.push(text);
                assert(texts(out@) =~= so_far.push(text@));
            },
            None => {
                proof {
                    lemma_strings_of_none(all, i + 1);
                }
                return None;
            },
        }
        i += 1;
    }
    assert(all.take(values.len() as int) =~= all);
    Some(out)
}

/// Where a prefix holds a value that is no string, so does the whole.
proof fn lemma_strings_of_none(values: Seq<Json>, k: int)
    requires
        0 <= k <= values.len(),
        strings_of(values.take(k)) is None,
    ensures
        strings_of(values) is None,
    decreases values.len(),
{
    if k < values.len() {
        assert(values.drop_last().take(k) =~= values.take(k));
        lemma_strings_of_none(values.drop_last(), k);
    } else {
        assert(values.take(k) =~= values);
    }
}

/// Where a prefix holds a value that is no snapshot, so does the whole.
proof fn lemma_snapshots_of_none(values: Seq<Json>, k: int)
    requires
        0 <= k <= values.len(),
        snapshots_of(values.take(k)) is None,
    ensures
        snapshots_of(values) is None,
    decreases values.len(),
{
    if k < values.len() {
        assert(values.drop_last().take(k) =~= values.take(k));
        lemma_snapshots_of_none(values.drop_last(), k);
    } else {
        assert(values.take(k) =~= values);
    }
}

fn read_string_list(value: &serde_json::Value) -> (found: Option<Vec<String>>)
    ensures
        crate::text::opt_texts(found) == string_list(json_content(*value)),
{
    match crate::json::items(value) {
        Some(values) => read_strings(values),
        None => None,
    }
}

fn read_snapshot(value: &serde_json::Value) -> (found: Option<SnapshotInfo>)
    ensures
        (match found {
            Some(s) => Some(s@),
            None => None,
        }) == snapshot_of(json_content(*value)),
{
    if !crate::json::is_object(value) {
        return None;
    }
    let id = field_string(value, "id");
    let short_id = field_string(value, "short_id");
    let timestamp = match field_string(value, "time") {
        Some(time) => crate::json::instant(time.as_str()),
        None => None,
    };
    let paths = match crate::json::member(value, "paths") {
        Some(paths) => read_string_list(paths),
        None => None,
    };
    let tags = match crate::json::member(value, "tags") {
        Some(tags) => {
            if crate::json::is_null(tags) {
                let none: Vec<String> = Vec::new();
                assert(texts(none@) =~= Seq::<Seq<char>>::empty());
                Some(none)
            } else {
                read_string_list(tags)
            }
        },
        None => {
            let none: Vec<String> = Vec::new();
            assert(texts(none@) =~= Seq::<Seq<char>>::empty());
            Some(none)
        },
    };
    let total_bytes = match crate::json::member(value, "summary") {
        Some(summary) => field_unsigned(summary, "total_bytes_processed"),
        None => None,
    };
    match (id, short_id, timestamp, paths, tags) {
        (Some(id), Some(short_id), Some(timestamp), Some(paths), Some(tags)) => Some(
            SnapshotInfo { id, short_id, timestamp, paths, tags, total_bytes },
        ),
        _ => None,
    }
}

/// Reads the engine's listing of snapshots. See `snapshot_list`.
pub fn read_snapshots(output: &str) -> (found: Option<Vec<SnapshotInfo>>)
    ensures
        (match found {
            Some(list) => Some(snapshot_views(list@)),
            None => None,
        }) == snapshot_list(output@),
{
    let doc = match crate::json::parse(output) {
        Some(doc) => doc,
        None => {
            return None;
        },
    };
    let values = match crate::json::items(&doc) {
        Some(values) => values,
        None => {
            return None;
        },
    };
    let ghost all = contents(values@);
    let mut out: Vec<SnapshotInfo> = Vec::new();
    let mut i: usize = 0;
    assert(all.take(0) =~= Seq::<Json>::empty());
    assert(snapshot_views(out@) =~= Seq::<SnapshotInfoView>::empty());
    while i < values.len()
        invariant
            i <= values.len(),
            all == contents(values@),
            json_of(output@) == Some(json_content(doc)),
            json_content(doc).items() == Some(all),
            snapshots_of(all.take(i as int)) == Some(snapshot_views(out@)),
        decreases values.len() - i,
    {
        proof {
            assert(all.take(i + 1).drop_last() =~= all.take(i as int));
            assert(all.take(i + 1).last() == json_content(values@[i as int]));
        }
        match read_snapshot(&values[i]) {
            Some(snapshot) => {
                let ghost so_far = snapshot_views(out@);
                out.push(snapshot);
                assert(snapshot_views(out@) =~= so_far.push(snapshot@));
            },
            None => {
                proof {
                    lemma_snapshots_of_none(all, i + 1);
                }
                return None;
            },
        }
        i += 1;
    }
    assert(all.take(values.len() as int) =~= all);
    Some(out)
}

impl EngineExit {
    /// What the engine printed, for an operation that asks for status
    /// zero; else why the operation failed.
    pub fn output(&self) -> (result: Result<&String, EngineError>)
        ensures
            match self@.output() {
                Ok(stdout) => result matches Ok(got) && got@ == stdout,
                Err(e) => result matches Err(got) && got@ == e,
            },
    {
        match self {
            EngineExit::Exited { success, stdout, stderr } => {
                if *success {
                    Ok(stdout)
                } else {
                    Err(
                        EngineError::Failed(
                            String::from_str("Restic error: ").concat(stderr.as_str()),
                        ),
                    )
                }
            },
            EngineExit::NotStarted => Err(
                EngineError::Failed(String::from_str("Failed to execute restic")),
            ),
            EngineExit::Cancelled => Err(EngineError::Cancelled),
        }
    }
}

impl ResticExecutor {
    /// What creating a repository came to: success exactly where the
    /// engine exited with status zero.
    pub fn init_finished(&self, exit: &EngineExit) -> (result: Result<(), EngineError>)
        ensures
            match exit@.output() {
                Ok(_) => result is Ok,
                Err(e) => result matches Err(got) && got@ == e,
            },
    {
        match exit.output() {
            Ok(_) => Ok(()),
            Err(e) => Err(e),
        }
    }

    /// What a backup that ended at `now` came to. See `backup_outcome`.
    pub fn backup_finished(&self, exit: &EngineExit, now: Timestamp) -> (result: Result<
        BackupResult,
        EngineError,
    >)
        ensures
            match backup_outcome(exit@, now) {
                Ok(r) => result matches Ok(got) && got@ == r,
                Err(e) => result matches Err(got) && got@ == e,
            },
    {
        match exit {
            EngineExit::Exited { success, stdout, stderr } => {
                let text = chars_of(stdout.as_str());
                let output = split_lines(&text);
                let ghost wanted = read_lines(lines(stdout@));
                let mut readings: Vec<LineReading> = Vec::new();
                let mut i: usize = 0;
                while i < output.len()
                    invariant
                        i <= output.len(),
                        rows(output@) == lines(stdout@),
                        wanted == read_lines(lines(stdout@)),
                        reading_views(readings@) =~= wanted.take(i as int),
                    decreases output.len() - i,
                {
                    let line = string_of(&output[i]);
                    assert(line@ == rows(output@)[i as int]);
                    let reading = read_line(line.as_str());
                    let ghost so_far = reading_views(readings@);
                    readings.push(reading);
                    assert(reading_views(readings@) =~= so_far.push(reading@));
                    i += 1;
                }
                assert(wanted.take(output.len() as int) =~= wanted);
                backup_result(*success, &readings, stderr.as_str(), now)
            },
            EngineExit::NotStarted => Ok(
                failed_result(String::from_str("Failed to execute restic"), now),
            ),
            EngineExit::Cancelled => Err(EngineError::Cancelled),
        }
    }

    /// What a listing of snapshots came to: the snapshots in the engine's
    /// order. See `snapshots_outcome`.
    pub fn snapshots_finished(&self, exit: &EngineExit) -> (result: Result<
        Vec<SnapshotInfo>,
        EngineError,
    >)
        ensures
            match snapshots_outcome(exit@) {
                Ok(list) => result matches Ok(got) && snapshot_views(got@) == list,
                Err(e) => result matches Err(got) && got@ == e,
            },
    {
        match exit.output() {
            Ok(stdout) => match read_snapshots(stdout.as_str()) {
                Some(list) => Ok(list),
                None => Err(
                    EngineError::Failed(String::from_str("Failed to parse restic snapshots JSON")),
                ),
            },
            Err(e) => Err(e),
        }
    }

    /// What a prune came to: the bytes reclaimed that the engine's report
    /// states, zero where it states none, if the engine exited with status
    /// zero.
    pub fn prune_finished(&self, exit: &EngineExit) -> (result: Result<u64, EngineError>)
        ensures
            match exit@.output() {
                Ok(stdout) => result == Ok::<u64, EngineError>(reclaimed_bytes(stdout)),
                Err(e) => result matches Err(got) && got@ == e,
            },
    {
        match exit.output() {
            Ok(stdout) => Ok(parse_reclaimed_bytes(stdout.as_str())),
            Err(e) => Err(e),
        }
    }

    /// What starting a mount came to, given how the mount process fared
    /// in its startup window: a process that exited with a failure has
    /// failed the mount, with what it wrote to its standard error; any
    /// other is handed on as the mount process.
    pub fn mount_started(&self, startup: &MountStartup) -> (result: Result<(), EngineError>)
        ensures
            match *startup {
                MountStartup::ExitedWithFailure(stderr) => result matches Err(e) && e@
                    == EngineErrorView::Failed(mount_failure(stderr@)),
                _ => result is Ok,
            },
    {
        match startup {
            MountStartup::ExitedWithFailure(stderr) => Err(
                EngineError::Failed(
                    String::from_str("Restic mount failed: ").concat(stderr.as_str()),
                ),
            ),
            _ => Ok(()),
        }
    }
}


/// No summary, no success: a backup none of whose output lines is a
/// summary has failed, for want of a summary where the engine reported
/// success and with the engine's standard error where it did not.
pub proof fn lemma_no_summary_fails(
    success: bool,
    readings: Seq<LineReadingView>,
    stderr: Seq<char>,
    now: Timestamp,
)
    requires
        forall|i: int| 0 <= i < readings.len() ==> #[trigger] readings[i] is Other,
    ensures
        backup_verdict(success, readings, stderr, now) == Ok::<BackupResultView, EngineErrorView>(
            failed_backup(
                if success {
                    no_summary()
                } else {
                    engine_failed(stderr)
                },
                now,
            ),
        ),
    decreases readings.len(),
{
    if readings.len() > 0 {
        assert(readings[readings.len() - 1] is Other);
        assert forall|i: int| 0 <= i < readings.drop_last().len() implies (
        #[trigger] readings.drop_last()[i]) is Other by {
            assert(readings.drop_last()[i] == readings[i]);
        }
        lemma_no_summary_fails(success, readings.drop_last(), stderr, now);
    }
}

/// A summary decides: where the last summary among the output lines of a
/// backup is well formed, the backup has succeeded with what that summary
/// states, whether or not the engine exited with status zero.
pub proof fn lemma_summary_decides(
    success: bool,
    readings: Seq<LineReadingView>,
    stderr: Seq<char>,
    now: Timestamp,
)
    requires
        last_summary(readings) is Summary,
    ensures
        backup_verdict(success, readings, stderr, now) matches Ok(result) && result.success
            && result.error_message is None && result.snapshot_id == last_summary(
            readings,
        )->snapshot_id && result.added_bytes == last_summary(readings)->data_added,
        backup_verdict(success, readings, stderr, now) == backup_verdict(
            !success,
            readings,
            stderr,
            now,
        ),
{
}


/// No keep rule, no prune: a set, taken with the retention policy in force
/// for it, is pruned exactly if that policy exists and has a keep rule.
/// Else the request is refused as a matter of policy, and there are no
/// arguments to start the engine with.
pub proof fn lemma_prune_needs_keep_rule(
    set: BackupSetView,
    global: Option<RetentionPolicy>,
    password_file: Seq<char>,
)
    ensures
        ({
            let request = prune_request(set.with_effective_retention(global), password_file);
            let policy = set.effective_retention(global);
            &&& request is Ok <==> policy is Some && policy->0.has_keep_rule()
            &&& request is Err ==> request->Err_0 is Policy
            &&& request matches Ok(args) ==> args.len() >= 8 && args[0] == "forget"@
        }),
{
    let effective = set.with_effective_retention(global);
    match effective.retention {
        Some(policy) => {
            if policy.has_keep_rule() {
                let head = common_args("forget"@, effective.target, password_file).push("--prune"@);
                assert(head.len() == 6);
                assert(head[0] == "forget"@);
                let args = prune_args(effective.target, policy, password_file);
                assert(keep_args("--keep-last"@, policy.keep_last).len() + keep_args(
                    "--keep-daily"@,
                    policy.keep_daily,
                ).len() + keep_args("--keep-weekly"@, policy.keep_weekly).len() + keep_args(
                    "--keep-monthly"@,
                    policy.keep_monthly,
                ).len() >= 2);
                assert(args[0] == head[0]);
            }
        },
        None => {},
    }
}

} // verus!
