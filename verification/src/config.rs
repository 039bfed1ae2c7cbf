//! The configuration of the daemon: global settings and backup sets, and the
//! rules a configuration has to meet before it is used.

use crate::text::{
    chars_of, has_prefix, opt_text, opt_texts, slice_of, starts_with, string_of, texts,
};
use vstd::prelude::*;
use vstd::string::StringExecFns;

verus! {

/// How many snapshots a prune keeps. A rule that is `None` keeps nothing on
/// its own account.
#[derive(Clone, Copy, Debug, PartialEq, Eq, Structural)]
pub struct RetentionPolicy {
    /// Number of most recent snapshots to keep.
    pub keep_last: Option<u32>,
    /// Number of daily snapshots to keep.
    pub keep_daily: Option<u32>,
    /// Number of weekly snapshots to keep.
    pub keep_weekly: Option<u32>,
    /// Number of monthly snapshots to keep.
    pub keep_monthly: Option<u32>,
}

impl RetentionPolicy {
    /// Whether the policy names at least one keep rule.
    pub open spec fn has_keep_rule(self) -> bool {
        self.keep_last is Some || self.keep_daily is Some || self.keep_weekly is Some
            || self.keep_monthly is Some
    }

    /// Whether the policy names at least one keep rule.
    pub fn has_any_rule(&self) -> (b: bool)
        ensures
            b == self.has_keep_rule(),
    {
        self.keep_last.is_some() || self.keep_daily.is_some() || self.keep_weekly.is_some()
            || self.keep_monthly.is_some()
    }
}

impl Default for RetentionPolicy {
    fn default() -> (p: Self)
        ensures
            p == (RetentionPolicy {
                keep_last: None,
                keep_daily: None,
                keep_weekly: None,
                keep_monthly: None,
            }),
    {
        RetentionPolicy { keep_last: None, keep_daily: None, keep_weekly: None, keep_monthly: None }
    }
}

/// The debounce delay, in seconds, of a configuration that names none.
pub fn default_debounce() -> (d: u64)
    ensures
        d == 60,
{
    60
}

/// Settings shared by all backup sets.
#[derive(Clone, Copy, Debug, PartialEq, Eq, Structural)]
pub struct GlobalConfig {
    /// Seconds to wait after the last detected change before a backup starts.
    pub debounce_seconds: u64,
    /// Retention policy of the sets that name none.
    pub retention: Option<RetentionPolicy>,
}

impl Default for GlobalConfig {
    fn default() -> (g: Self)
        ensures
            g.debounce_seconds == 60,
            g.retention == Some(
                RetentionPolicy {
                    keep_last: Some(10u32),
                    keep_daily: None,
                    keep_weekly: None,
                    keep_monthly: None,
                },
            ),
    {
        GlobalConfig {
            debounce_seconds: default_debounce(),
            retention: Some(
                RetentionPolicy {
                    keep_last: Some(10),
                    keep_daily: None,
                    keep_weekly: None,
                    keep_monthly: None,
                },
            ),
        }
    }
}

/// One named backup: what to watch, where to store it, and how.
#[derive(Debug)]
pub struct BackupSet {
    /// Unique identifier of the set.
    pub name: String,
    /// A single source directory; excludes `sources`.
    pub source: Option<String>,
    /// Several source directories; excludes `source`.
    pub sources: Option<Vec<String>>,
    /// Path of the repository.
    pub target: String,
    /// Glob patterns of the files that are not watched nor stored.
    pub exclude: Option<Vec<String>>,
    /// Debounce delay of this set, in place of the global one.
    pub debounce_seconds: Option<u64>,
    /// Retention policy of this set, in place of the global one.
    pub retention: Option<RetentionPolicy>,
}

/// What a `BackupSet` holds, as mathematical values.
pub struct BackupSetView {
    pub name: Seq<char>,
    pub source: Option<Seq<char>>,
    pub sources: Option<Seq<Seq<char>>>,
    pub target: Seq<char>,
    pub exclude: Option<Seq<Seq<char>>>,
    pub debounce_seconds: Option<u64>,
    pub retention: Option<RetentionPolicy>,
}

impl View for BackupSet {
    type V = BackupSetView;

    open spec fn view(&self) -> BackupSetView {
        BackupSetView {
            name: self.name@,
            source: opt_text(self.source),
            sources: opt_texts(self.sources),
            target: self.target@,
            exclude: opt_texts(self.exclude),
            debounce_seconds: self.debounce_seconds,
            retention: self.retention,
        }
    }
}

/// The elements of an optional list; none where there is no list.
pub open spec fn list_or_empty(o: Option<Seq<Seq<char>>>) -> Seq<Seq<char>> {
    match o {
        Some(v) => v,
        None => Seq::empty(),
    }
}

impl BackupSetView {
    /// All source directories: `source` first, then `sources` in order.
    pub open spec fn source_paths(self) -> Seq<Seq<char>> {
        (match self.source {
            Some(s) => seq![s],
            None => Seq::empty(),
        }) + list_or_empty(self.sources)
    }

    /// The exclusion patterns, none where the set names none.
    pub open spec fn excludes(self) -> Seq<Seq<char>> {
        list_or_empty(self.exclude)
    }

    /// The debounce delay in force: the set's own, else the global one.
    pub open spec fn effective_debounce(self, global: u64) -> u64 {
        match self.debounce_seconds {
            Some(d) => d,
            None => global,
        }
    }

    /// The retention policy in force: the set's own, else the global one.
    pub open spec fn effective_retention(self, global: Option<RetentionPolicy>) -> Option<
        RetentionPolicy,
    > {
        match self.retention {
            Some(p) => Some(p),
            None => global,
        }
    }

    /// The set with the retention policy in force written into it.
    pub open spec fn with_effective_retention(
        self,
        global: Option<RetentionPolicy>,
    ) -> BackupSetView {
        BackupSetView { retention: self.effective_retention(global), ..self }
    }
}

/// A copy of a list of strings.
pub fn clone_texts(v: &Vec<String>) -> (out: Vec<String>)
    ensures
        texts(out@) == texts(v@),
{
    let mut out: Vec<String> = Vec::new();
    let mut i: usize = 0;
    while i < v.len()
        invariant
            i <= v.len(),
            texts(out@) =~= texts(v@).take(i as int),
        decreases v.len() - i,
    {
        let c = v[i].clone();
        let ghost before = texts(out@);
        out.push(c);
        assert(texts(out@) =~= before.push(v@[i as int]@));
        i += 1;
    }
    assert(texts(v@).take(v.len() as int) =~= texts(v@));
    out
}

/// A copy of an optional string.
pub fn clone_opt_text(o: &Option<String>) -> (out: Option<String>)
    ensures
        opt_text(out) == opt_text(*o),
{
    match o {
        Some(s) => Some(s.clone()),
        None => None,
    }
}

/// A copy of an optional list of strings.
pub fn clone_opt_texts(o: &Option<Vec<String>>) -> (out: Option<Vec<String>>)
    ensures
        opt_texts(out) == opt_texts(*o),
{
    match o {
        Some(v) => Some(clone_texts(v)),
        None => None,
    }
}

impl Clone for BackupSet {
    fn clone(&self) -> (out: Self)
        ensures
            out@ == self@,
    {
        BackupSet {
            name: self.name.clone(),
            source: clone_opt_text(&self.source),
            sources: clone_opt_texts(&self.sources),
            target: self.target.clone(),
            exclude: clone_opt_texts(&self.exclude),
            debounce_seconds: self.debounce_seconds,
            retention: self.retention,
        }
    }
}

impl BackupSet {
    /// All source directories: `source` first, then `sources` in order.
    pub fn source_paths(&self) -> (out: Vec<String>)
        ensures
            texts(out@) == self@.source_paths(),
    {
        let mut out: Vec<String> = Vec::new();
        if let Some(s) = &self.source {
            out.push(s.clone());
        }
        assert(texts(out@) =~= match self@.source {
            Some(s) => seq![s],
            None => Seq::empty(),
        });
        let ghost head = texts(out@);
        if let Some(ss) = &self.sources {
            let mut i: usize = 0;
            while i < ss.len()
                invariant
                    i <= ss.len(),
                    texts(out@) =~= head + texts(ss@).take(i as int),
                decreases ss.len() - i,
            {
                let c = ss[i].clone();
                let ghost before = texts(out@);
                out.push(c);
                assert(texts(out@) =~= before.push(ss@[i as int]@));
                i += 1;
            }
            assert(texts(ss@).take(ss.len() as int) =~= texts(ss@));
        }
        assert(texts(out@) =~= self@.source_paths());
        out
    }

    /// The debounce delay in force: the set's own, else the global one.
    pub fn effective_debounce(&self, global: u64) -> (d: u64)
        ensures
            d == self@.effective_debounce(global),
    {
        match self.debounce_seconds {
            Some(d) => d,
            None => global,
        }
    }

    /// A copy of the set that carries the retention policy in force: its
    /// own, else the global one.
    pub fn with_effective_retention(&self, global: Option<RetentionPolicy>) -> (out: BackupSet)
        ensures
            out@ == self@.with_effective_retention(global),
    {
        let mut out = self.clone();
        if out.retention.is_none() {
            out.retention = global;
        }
        out
    }
}


/// Why a configuration could not be loaded.
#[derive(Debug)]
pub enum ConfigError {
    /// The file could not be read; holds the system's message.
    Io(String),
    /// The file is not a configuration document; holds the parser's message.
    Toml(String),
    /// The document breaks a rule; holds which.
    Validation(String),
    /// A field that has to be there is not; holds its name.
    MissingField(String),
}

impl ConfigError {
    /// The message of the error as it is shown to users.
    pub open spec fn message_text(self) -> Seq<char> {
        match self {
            ConfigError::Io(m) => "IO error: "@ + m@,
            ConfigError::Toml(m) => "TOML error: "@ + m@,
            ConfigError::Validation(m) => "Config validation error: "@ + m@,
            ConfigError::MissingField(m) => "Missing required field: "@ + m@,
        }
    }

    /// The message of the error as it is shown to users.
    pub fn message(&self) -> (out: String)
        ensures
            out@ == self.message_text(),
    {
        match self {
            ConfigError::Io(m) => String::from_str("IO error: ").concat(m.as_str()),
            ConfigError::Toml(m) => String::from_str("TOML error: ").concat(m.as_str()),
            ConfigError::Validation(m) => String::from_str("Config validation error: ").concat(
                m.as_str(),
            ),
            ConfigError::MissingField(m) => String::from_str("Missing required field: ").concat(
                m.as_str(),
            ),
        }
    }
}

/// The whole configuration.
#[derive(Debug)]
pub struct Config {
    pub global: GlobalConfig,
    pub backup_sets: Vec<BackupSet>,
}

/// What a `Config` holds, as mathematical values.
pub struct ConfigView {
    pub global: GlobalConfig,
    pub backup_sets: Seq<BackupSetView>,
}

/// The views of the sets of `v`, in order.
pub open spec fn set_views(v: Seq<BackupSet>) -> Seq<BackupSetView> {
    Seq::new(v.len(), |i: int| v[i]@)
}

impl View for Config {
    type V = ConfigView;

    open spec fn view(&self) -> ConfigView {
        ConfigView { global: self.global, backup_sets: set_views(self.backup_sets@) }
    }
}

/// A copy of a list of backup sets.
pub fn clone_sets(v: &Vec<BackupSet>) -> (out: Vec<BackupSet>)
    ensures
        set_views(out@) == set_views(v@),
{
    let mut out: Vec<BackupSet> = Vec::new();
    let mut i: usize = 0;
    while i < v.len()
        invariant
            i <= v.len(),
            set_views(out@) =~= set_views(v@).take(i as int),
        decreases v.len() - i,
    {
        let c = v[i].clone();
        let ghost before = set_views(out@);
        out.push(c);
        assert(set_views(out@) =~= before.push(v@[i as int]@));
        i += 1;
    }
    assert(set_views(v@).take(v.len() as int) =~= set_views(v@));
    out
}

impl Clone for Config {
    fn clone(&self) -> (out: Self)
        ensures
            out@ == self@,
    {
        Config { global: self.global, backup_sets: clone_sets(&self.backup_sets) }
    }
}

/// The text `~/`, which stands for the home directory at the start of a path.
pub open spec fn home_marker() -> Seq<char> {
    seq!['~', '/']
}

/// `path` with a leading `~` replaced by the home directory, where the path
/// starts with `~/` and a home directory is known; else `path` itself.
pub open spec fn expanded_path(path: Seq<char>, home: Option<Seq<char>>) -> Seq<char> {
    match home {
        Some(h) if has_prefix(path, home_marker()) => h + path.skip(1),
        _ => path,
    }
}

/// Each path of `paths` expanded.
pub open spec fn expanded_paths(paths: Seq<Seq<char>>, home: Option<Seq<char>>) -> Seq<Seq<char>> {
    Seq::new(paths.len(), |i: int| expanded_path(paths[i], home))
}

/// `set` with its source and target paths expanded.
pub open spec fn expanded_set(set: BackupSetView, home: Option<Seq<char>>) -> BackupSetView {
    BackupSetView {
        source: match set.source {
            Some(s) => Some(expanded_path(s, home)),
            None => None,
        },
        sources: match set.sources {
            Some(ss) => Some(expanded_paths(ss, home)),
            None => None,
        },
        target: expanded_path(set.target, home),
        ..set
    }
}

/// Every set of `sets` expanded.
pub open spec fn expanded_sets(sets: Seq<BackupSetView>, home: Option<Seq<char>>) -> Seq<
    BackupSetView,
> {
    Seq::new(sets.len(), |i: int| expanded_set(sets[i], home))
}

/// Whether a set before index `i` has the name of the set at `i`.
pub open spec fn name_seen_before(sets: Seq<BackupSetView>, i: int) -> bool {
    exists|j: int| 0 <= j < i && (#[trigger] sets[j]).name == sets[i].name
}

/// The rule that the set at index `i` breaks, as the message reported for it;
/// `None` where it breaks none.
pub open spec fn set_fault(sets: Seq<BackupSetView>, i: int) -> Option<Seq<char>> {
    let s = sets[i];
    if name_seen_before(sets, i) {
        Some("Duplicate backup set name: "@ + s.name)
    } else if s.source is Some && s.sources is Some {
        Some("Set '"@ + s.name + "' cannot have both 'source' and 'sources'"@)
    } else if s.source is None && s.sources is None {
        Some("Set '"@ + s.name + "' must have either 'source' or 'sources'"@)
    } else if s.sources is Some && s.sources->0.len() == 0 {
        Some("Set '"@ + s.name + "' must have at least one source"@)
    } else {
        None
    }
}

/// Whether no set of `sets` breaks a rule: the names are unique, and each set
/// has exactly one of `source` and `sources`, and at least one source.
pub open spec fn sets_valid(sets: Seq<BackupSetView>) -> bool {
    forall|i: int| 0 <= i < sets.len() ==> set_fault(sets, i) is None
}

/// What `validate` does when the home directory is `home`: it leaves a
/// valid configuration with its paths expanded, and reports the first fault
/// of an invalid one, which it leaves as it was.
pub open spec fn validated(
    before: ConfigView,
    home: Option<Seq<char>>,
    after: ConfigView,
    result: Result<(), ConfigError>,
) -> bool {
    if sets_valid(before.backup_sets) {
        &&& result is Ok
        &&& after.global == before.global
        &&& after.backup_sets == expanded_sets(before.backup_sets, home)
    } else {
        &&& after == before
        &&& exists|i: int|
            {
                &&& 0 <= i < before.backup_sets.len()
                &&& forall|j: int| 0 <= j < i ==> set_fault(before.backup_sets, j) is None
                &&& #[trigger] set_fault(before.backup_sets, i) is Some
                &&& result matches Err(ConfigError::Validation(m))
                &&& m@ == set_fault(before.backup_sets, i)->0
            }
    }
}

/// The user's home directory as `directories::BaseDirs::new` finds it and
/// `BaseDirs::home_dir` returns it. It depends on the environment of the
/// process, so nothing is claimed of it.
#[verifier::external_body]
fn home_dir() -> Option<String> {
    match directories::BaseDirs::new() {
        Some(dirs) => Some(dirs.home_dir().to_string_lossy().into_owned()),
        None => None,
    }
}

/// Expands a leading `~/` of `path` to the home directory `home`.
pub fn expand_home_in(path: &str, home: Option<&str>) -> (out: String)
    ensures
        out@ == expanded_path(path@, opt_str(home)),
{
    let p = chars_of(path);
    let mut marker: Vec<char> = Vec::new();
    marker.push('~');
    marker.push('/');
    assert(marker@ =~= home_marker());
    match home {
        Some(h) => {
            if starts_with(&p, &marker) {
                let rest = slice_of(&p, 1, p.len());
                assert(rest@ =~= p@.skip(1));
                let tail = string_of(&rest);
                String::from_str(h).concat(tail.as_str())
            } else {
                String::from_str(path)
            }
        },
        None => String::from_str(path),
    }
}

/// Expands a leading `~/` of `path` to the user's home directory.
pub fn expand_home(path: &str) -> (out: String)
    ensures
        exists|home: Option<Seq<char>>| out@ == expanded_path(path@, home),
{
    let home = home_dir();
    let out = match &home {
        Some(h) => expand_home_in(path, Some(h.as_str())),
        None => expand_home_in(path, None),
    };
    assert(out@ == expanded_path(path@, opt_text(home)));
    out
}

/// The view of an optional string slice.
pub open spec fn opt_str(o: Option<&str>) -> Option<Seq<char>> {
    match o {
        Some(s) => Some(s@),
        None => None,
    }
}

fn expand_all(paths: &Vec<String>, home: Option<&str>) -> (out: Vec<String>)
    ensures
        texts(out@) == expanded_paths(texts(paths@), opt_str(home)),
{
    let mut out: Vec<String> = Vec::new();
    let mut i: usize = 0;
    while i < paths.len()
        invariant
            i <= paths.len(),
            texts(out@) =~= expanded_paths(texts(paths@), opt_str(home)).take(i as int),
        decreases paths.len() - i,
    {
        let e = expand_home_in(paths[i].as_str(), home);
        let ghost before = texts(out@);
        out.push(e);
        assert(texts(out@) =~= before.push(e@));
        i += 1;
    }
    out
}

fn expand_set(set: &BackupSet, home: Option<&str>) -> (out: BackupSet)
    ensures
        out@ == expanded_set(set@, opt_str(home)),
{
    BackupSet {
        name: set.name.clone(),
        source: match &set.source {
            Some(s) => Some(expand_home_in(s.as_str(), home)),
            None => None,
        },
        sources: match &set.sources {
            Some(ss) => Some(expand_all(ss, home)),
            None => None,
        },
        target: expand_home_in(set.target.as_str(), home),
        exclude: clone_opt_texts(&set.exclude),
        debounce_seconds: set.debounce_seconds,
        retention: set.retention,
    }
}

/// The fault of the set at index `i`, if it has one.
fn check_set(sets: &Vec<BackupSet>, i: usize) -> (fault: Option<String>)
    requires
        i < sets.len(),
    ensures
        opt_text(fault) == set_fault(set_views(sets@), i as int),
{
    let set = &sets[i];
    let ghost views = set_views(sets@);
    let mut j: usize = 0;
    while j < i
        invariant
            j <= i < sets.len(),
            *set == sets@[i as int],
            views == set_views(sets@),
            forall|k: int| 0 <= k < j ==> (#[trigger] views[k]).name != views[i as int].name,
        decreases i - j,
    {
        assert(views[j as int].name == sets@[j as int].name@);
        assert(views[i as int].name == set.name@);
        if sets[j].name == set.name {
            assert(name_seen_before(views, i as int));
            return Some(String::from_str("Duplicate backup set name: ").concat(set.name.as_str()));
        }
        j += 1;
    }
    assert(!name_seen_before(views, i as int));
    assert(views[i as int] == set@);
    if set.source.is_some() && set.sources.is_some() {
        return Some(
            String::from_str("Set '").concat(set.name.as_str()).concat(
                "' cannot have both 'source' and 'sources'",
            ),
        );
    }
    if set.source.is_none() && set.sources.is_none() {
        return Some(
            String::from_str("Set '").concat(set.name.as_str()).concat(
                "' must have either 'source' or 'sources'",
            ),
        );
    }
    if let Some(ss) = &set.sources {
        if ss.len() == 0 {
            return Some(
                String::from_str("Set '").concat(set.name.as_str()).concat(
                    "' must have at least one source",
                ),
            );
        }
    }
    None
}

impl Config {
    /// Checks the rules of a configuration and, where it meets them, expands
    /// `~/` at the start of every source and target path to `home`.
    ///
    /// The rules, checked set by set in order: no earlier set has the same
    /// name; the set has exactly one of `source` and `sources`; `sources`,
    /// where given, is not empty. The first fault is reported and the
    /// configuration is then left as it was.
    pub fn validate_in(&mut self, home: Option<&str>) -> (result: Result<(), ConfigError>)
        ensures
            validated(old(self)@, opt_str(home), final(self)@, result),
    {
        let ghost views = set_views(self.backup_sets@);
        let mut i: usize = 0;
        while i < self.backup_sets.len()
            invariant
                i <= self.backup_sets.len(),
                *self == *old(self),
                views == set_views(self.backup_sets@),
                forall|j: int| 0 <= j < i ==> set_fault(views, j) is None,
            decreases self.backup_sets.len() - i,
        {
            match check_set(&self.backup_sets, i) {
                Some(m) => {
                    assert(set_fault(views, i as int) is Some);
                    assert(!sets_valid(views));
                    return Err(ConfigError::Validation(m));
                },
                None => {},
            }
            i += 1;
        }
        assert(sets_valid(views));
        let mut out: Vec<BackupSet> = Vec::new();
        let mut k: usize = 0;
        while k < self.backup_sets.len()
            invariant
                k <= self.backup_sets.len(),
                *self == *old(self),
                views == set_views(self.backup_sets@),
                set_views(out@) =~= expanded_sets(views, opt_str(home)).take(k as int),
            decreases self.backup_sets.len() - k,
        {
            let e = expand_set(&self.backup_sets[k], home);
            let ghost before = set_views(out@);
            out.push(e);
            assert(set_views(out@) =~= before.push(e@));
            k += 1;
        }
        assert(expanded_sets(views, opt_str(home)).take(self.backup_sets.len() as int)
            =~= expanded_sets(views, opt_str(home)));
        self.backup_sets = out;
        Ok(())
    }

    /// Checks the rules of a configuration and, where it meets them, expands
    /// `~/` at the start of every source and target path to the user's home
    /// directory. See `validate_in` for the rules.
    pub fn validate(&mut self) -> (result: Result<(), ConfigError>)
        ensures
            exists|home: Option<Seq<char>>| validated(old(self)@, home, final(self)@, result),
            result is Ok <==> sets_valid(old(self)@.backup_sets),
    {
        let home = home_dir();
        let result = match &home {
            Some(h) => self.validate_in(Some(h.as_str())),
            None => self.validate_in(None),
        };
        assert(validated(old(self)@, opt_text(home), self@, result));
        result
    }
}


/// The characters that a set name is made of: ASCII letters and digits,
/// the underscore and the hyphen.
pub open spec fn is_name_char(c: char) -> bool {
    ('a' <= c <= 'z') || ('A' <= c <= 'Z') || ('0' <= c <= '9') || c == '_' || c == '-'
}

/// Whether `name` can name a backup set: it is not empty and made of name
/// characters only.
pub open spec fn valid_set_name(name: Seq<char>) -> bool {
    name.len() > 0 && forall|i: int| 0 <= i < name.len() ==> is_name_char(#[trigger] name[i])
}

/// Whether `name` can name a backup set. See `valid_set_name`.
pub fn is_valid_set_name(name: &str) -> (valid: bool)
    ensures
        valid == valid_set_name(name@),
{
    let text = chars_of(name);
    if text.len() == 0 {
        return false;
    }
    let mut i: usize = 0;
    while i < text.len()
        invariant
            i <= text.len(),
            text@ == name@,
            forall|k: int| 0 <= k < i ==> is_name_char(#[trigger] text@[k]),
        decreases text.len() - i,
    {
        let c = text[i];
        let fits = ('a' <= c && c <= 'z') || ('A' <= c && c <= 'Z') || ('0' <= c && c <= '9') || c
            == '_' || c == '-';
        if !fits {
            assert(!is_name_char(text@[i as int]));
            return false;
        }
        i += 1;
    }
    true
}

} // verus!
