//! The watcher's table: which source directory belongs to which backup
//! set, which files a set excludes, and to which set, if any, a changed
//! path is reported.
//!
//! Subscribing to the file system and receiving its events is the
//! daemon's part. It hands each changed path to `FileWatcher::handle_event`.

use crate::config::{clone_texts, set_views, BackupSetView, Config};
use crate::glob::{
    glob_accepted, glob_pattern, glob_patterns, globset_built, globset_matches, globset_patterns,
};
use crate::paths::{
    components, file_name, is_absolute, is_under, join_components, path_components, relative_to,
    starts_list,
};
use crate::text::{chars_of, rows, string_of, texts};
use vstd::prelude::*;
use vstd::string::StringExecFns;

verus! {

/// What the watcher reports.
#[derive(Debug)]
pub enum WatcherEvent {
    /// The file at `path`, which belongs to the set named `set_name` and
    /// is not excluded from it, has changed.
    FileChanged { set_name: String, path: String },
}

/// What a `WatcherEvent` holds, as mathematical values.
pub enum WatcherEventView {
    FileChanged { set_name: Seq<char>, path: Seq<char> },
}

impl View for WatcherEvent {
    type V = WatcherEventView;

    open spec fn view(&self) -> WatcherEventView {
        match *self {
            WatcherEvent::FileChanged { set_name, path } => WatcherEventView::FileChanged {
                set_name: set_name@,
                path: path@,
            },
        }
    }
}

/// The view of an optional event.
pub open spec fn opt_event(o: Option<WatcherEvent>) -> Option<WatcherEventView> {
    match o {
        Some(e) => Some(e@),
        None => None,
    }
}

/// Why the watcher's table could not be built.
#[derive(Debug)]
pub enum WatchError {
    /// This exclusion pattern is not a glob.
    InvalidPattern(String),
    /// The exclusion patterns of the set of this name cannot be compiled
    /// together.
    Unbuildable(String),
}

/// What a `WatchError` holds, as mathematical values.
pub enum WatchErrorView {
    InvalidPattern(Seq<char>),
    Unbuildable(Seq<char>),
}

impl View for WatchError {
    type V = WatchErrorView;

    open spec fn view(&self) -> WatchErrorView {
        match *self {
            WatchError::InvalidPattern(p) => WatchErrorView::InvalidPattern(p@),
            WatchError::Unbuildable(n) => WatchErrorView::Unbuildable(n@),
        }
    }
}

impl WatchError {
    /// The message of the error as it is shown to users.
    pub fn message(&self) -> (out: String)
        ensures
            out@ == (match self@ {
                WatchErrorView::InvalidPattern(p) => "Invalid exclusion pattern: "@ + p,
                WatchErrorView::Unbuildable(n) => "Failed to build GlobSet for set "@ + n,
            }),
    {
        match self {
            WatchError::InvalidPattern(p) => String::from_str("Invalid exclusion pattern: ").concat(
                p.as_str(),
            ),
            WatchError::Unbuildable(n) => String::from_str(
                "Failed to build GlobSet for set ",
            ).concat(n.as_str()),
        }
    }
}

/// A watched source directory and the set it belongs to.
pub struct WatchRoot {
    pub root: Seq<char>,
    pub set_name: Seq<char>,
}

/// The exclusion patterns of a set.
pub struct Exclusion {
    pub set_name: Seq<char>,
    pub patterns: Seq<Seq<char>>,
}

/// What a `FileWatcher` holds, as mathematical values.
pub struct FileWatcherView {
    /// The watched directories, in the order of the configuration.
    pub roots: Seq<WatchRoot>,
    /// The exclusion patterns of the sets that name any, in the order of
    /// the configuration.
    pub exclusions: Seq<Exclusion>,
}

/// The source directories of `set` as watched directories.
pub open spec fn set_roots(set: BackupSetView) -> Seq<WatchRoot> {
    Seq::new(
        set.source_paths().len(),
        |i: int| WatchRoot { root: set.source_paths()[i], set_name: set.name },
    )
}

/// The source directories of all of `sets`, in order.
pub open spec fn roots_of(sets: Seq<BackupSetView>) -> Seq<WatchRoot>
    decreases sets.len(),
{
    if sets.len() == 0 {
        Seq::empty()
    } else {
        roots_of(sets.drop_last()) + set_roots(sets.last())
    }
}

/// The exclusion patterns of those of `sets` that name any, in order.
pub open spec fn exclusions_of(sets: Seq<BackupSetView>) -> Seq<Exclusion>
    decreases sets.len(),
{
    if sets.len() == 0 {
        Seq::empty()
    } else {
        match sets.last().exclude {
            Some(patterns) => exclusions_of(sets.drop_last()).push(
                Exclusion { set_name: sets.last().name, patterns },
            ),
            None => exclusions_of(sets.drop_last()),
        }
    }
}

/// Whether every pattern of `patterns` is a glob.
pub open spec fn all_accepted(patterns: Seq<Seq<char>>) -> bool {
    forall|i: int| 0 <= i < patterns.len() ==> glob_accepted(#[trigger] patterns[i])
}

/// What is wrong with the exclusion patterns of `set`: the first of them
/// that is not a glob, or, where all are globs, that they cannot be
/// compiled together. `None` where nothing is wrong.
pub open spec fn exclusion_fault(set: BackupSetView, fault: Option<WatchErrorView>) -> bool {
    match set.exclude {
        None => fault is None,
        Some(patterns) => if !all_accepted(patterns) {
            exists|i: int|
                {
                    &&& 0 <= i < patterns.len()
                    &&& !glob_accepted(#[trigger] patterns[i])
                    &&& forall|j: int| 0 <= j < i ==> glob_accepted(#[trigger] patterns[j])
                    &&& fault == Some(WatchErrorView::InvalidPattern(patterns[i]))
                }
        } else if !globset_built(patterns) {
            fault == Some(WatchErrorView::Unbuildable(set.name))
        } else {
            fault is None
        },
    }
}

/// Whether nothing is wrong with the exclusion patterns of `set`.
pub open spec fn exclusions_sound(set: BackupSetView) -> bool {
    match set.exclude {
        None => true,
        Some(patterns) => all_accepted(patterns) && globset_built(patterns),
    }
}

/// The index of the watched directory that `path` is attributed to: of
/// the directories that `path` lies under the one with the most
/// components, and of several such the last. `None` where `path` lies
/// under none.
pub open spec fn best_root(roots: Seq<WatchRoot>, path: Seq<char>) -> Option<int>
    decreases roots.len(),
{
    if roots.len() == 0 {
        None
    } else {
        let before = best_root(roots.drop_last(), path);
        if is_under(path, roots.last().root) && (before is None || components(
            roots.last().root,
        ).len() >= components(roots[before->0].root).len()) {
            Some(roots.len() - 1)
        } else {
            before
        }
    }
}

/// The exclusion patterns of the set named `name`: those of the last
/// entry of that name. `None` where there is no entry.
pub open spec fn find_exclusion(exclusions: Seq<Exclusion>, name: Seq<char>) -> Option<
    Seq<Seq<char>>,
>
    decreases exclusions.len(),
{
    if exclusions.len() == 0 {
        None
    } else if exclusions.last().set_name == name {
        Some(exclusions.last().patterns)
    } else {
        find_exclusion(exclusions.drop_last(), name)
    }
}

/// Whether the patterns exclude the file at `path` in the watched
/// directory `root`: one of them matches the path as it is, its file
/// name, or the path as seen from `root`.
pub open spec fn excluded(patterns: Seq<Seq<char>>, path: Seq<char>, root: Seq<char>) -> bool {
    ||| globset_matches(patterns, path)
    ||| file_name(path) is Some && globset_matches(patterns, file_name(path)->0)
    ||| relative_to(path, root) is Some && globset_matches(patterns, relative_to(path, root)->0)
}

impl FileWatcherView {
    /// What is reported for a change at `path`, which is a directory if
    /// `is_dir`.
    ///
    /// A change to a directory is not reported. A file is attributed to
    /// the watched directory it lies under, the deepest of several, and is
    /// reported for that directory's set unless the set excludes it.
    pub open spec fn classify(self, path: Seq<char>, is_dir: bool) -> Option<WatcherEventView> {
        if is_dir {
            None
        } else {
            match best_root(self.roots, path) {
                None => None,
                Some(i) => {
                    let at = self.roots[i];
                    match find_exclusion(self.exclusions, at.set_name) {
                        Some(patterns) if excluded(patterns, path, at.root) => None,
                        _ => Some(
                            WatcherEventView::FileChanged { set_name: at.set_name, path },
                        ),
                    }
                },
            }
        }
    }
}

/// The root chosen for a path is one that the path lies under, and no
/// root that the path lies under has more components: a path is
/// attributed by its longest matching prefix.
pub proof fn lemma_best_root_is_longest(roots: Seq<WatchRoot>, path: Seq<char>)
    ensures
        match best_root(roots, path) {
            Some(i) => {
                &&& 0 <= i < roots.len()
                &&& is_under(path, roots[i].root)
                &&& forall|k: int|
                    0 <= k < roots.len() && is_under(path, (#[trigger] roots[k]).root)
                        ==> components(roots[k].root).len() <= components(roots[i].root).len()
            },
            None => forall|k: int| 0 <= k < roots.len() ==> !is_under(path, (#[trigger] roots[k]).root),
        },
    decreases roots.len(),
{
    if roots.len() > 0 {
        let head = roots.drop_last();
        lemma_best_root_is_longest(head, path);
        assert forall|k: int| 0 <= k < head.len() implies head[k] == roots[k] by {}
        match best_root(roots, path) {
            Some(i) => {
                assert forall|k: int|
                    0 <= k < roots.len() && is_under(path, (#[trigger] roots[k]).root) implies components(
                    roots[k].root,
                ).len() <= components(roots[i].root).len() by {
                    if k < head.len() {
                        assert(head[k] == roots[k]);
                    }
                }
            },
            None => {
                assert forall|k: int| 0 <= k < roots.len() implies !is_under(
                    path,
                    (#[trigger] roots[k]).root,
                ) by {
                    if k < head.len() {
                        assert(head[k] == roots[k]);
                    }
                }
            },
        }
    }
}

struct Root {
    root: String,
    set_name: String,
}

struct Matcher {
    set_name: String,
    patterns: Vec<String>,
    globs: globset::GlobSet,
}

/// The watcher's table.
pub struct FileWatcher {
    roots: Vec<Root>,
    matchers: Vec<Matcher>,
}

spec fn root_views(v: Seq<Root>) -> Seq<WatchRoot> {
    Seq::new(v.len(), |i: int| WatchRoot { root: v[i].root@, set_name: v[i].set_name@ })
}

spec fn matcher_views(v: Seq<Matcher>) -> Seq<Exclusion> {
    Seq::new(v.len(), |i: int| Exclusion { set_name: v[i].set_name@, patterns: texts(v[i].patterns@) })
}

spec fn matchers_sound(v: Seq<Matcher>) -> bool {
    forall|i: int| 0 <= i < v.len() ==> globset_patterns((#[trigger] v[i]).globs) == texts(v[i].patterns@)
}

impl View for FileWatcher {
    type V = FileWatcherView;

    closed spec fn view(&self) -> FileWatcherView {
        FileWatcherView {
            roots: root_views(self.roots@),
            exclusions: matcher_views(self.matchers@),
        }
    }
}

/// Compiles the exclusion patterns of one set.
fn compile(set_name: &String, patterns: &Vec<String>) -> (result: Result<Matcher, WatchError>)
    ensures
        match result {
            Ok(m) => {
                &&& all_accepted(texts(patterns@))
                &&& globset_built(texts(patterns@))
                &&& m.set_name@ == set_name@
                &&& texts(m.patterns@) == texts(patterns@)
                &&& globset_patterns(m.globs) == texts(patterns@)
            },
            Err(e) => if !all_accepted(texts(patterns@)) {
                exists|i: int|
                    {
                        &&& 0 <= i < patterns@.len()
                        &&& !glob_accepted(#[trigger] texts(patterns@)[i])
                        &&& forall|j: int| 0 <= j < i ==> glob_accepted(#[trigger] texts(patterns@)[j])
                        &&& e@ == WatchErrorView::InvalidPattern(texts(patterns@)[i])
                    }
            } else {
                !globset_built(texts(patterns@)) && e@ == WatchErrorView::Unbuildable(set_name@)
            },
        },
{
    let ghost wanted = texts(patterns@);
    let mut globs: Vec<globset::Glob> = Vec::new();
    let mut i: usize = 0;
    while i < patterns.len()
        invariant
            i <= patterns.len(),
            wanted == texts(patterns@),
            glob_patterns(globs@) =~= wanted.take(i as int),
            forall|j: int| 0 <= j < i ==> glob_accepted(#[trigger] wanted[j]),
        decreases patterns.len() - i,
    {
        assert(wanted[i as int] == patterns@[i as int]@);
        match crate::glob::new_glob(patterns[i].as_str()) {
            Some(glob) => {
                let ghost so_far = glob_patterns(globs@);
                globs.push(glob);
                assert(glob_patterns(globs@) =~= so_far.push(glob_pattern(glob)));
            },
            None => {
                assert(!all_accepted(wanted));
                return Err(WatchError::InvalidPattern(patterns[i].clone()));
            },
        }
        i += 1;
    }
    assert(wanted.take(patterns.len() as int) =~= wanted);
    assert(all_accepted(wanted));
    match crate::glob::new_globset(&globs) {
        Some(set) => Ok(
            Matcher { set_name: set_name.clone(), patterns: clone_texts(patterns), globs: set },
        ),
        None => Err(WatchError::Unbuildable(set_name.clone())),
    }
}

impl FileWatcher {
    #[verifier::type_invariant]
    spec fn coherent(self) -> bool {
        matchers_sound(self.matchers@)
    }

    /// The table for the sets of `config`: every source directory of every
    /// set is watched for that set, and the exclusion patterns of every
    /// set that names any are compiled. The first set whose patterns are
    /// faulty fails the whole: see `exclusion_fault`.
    pub fn new(config: &Config) -> (result: Result<FileWatcher, WatchError>)
        ensures
            match result {
                Ok(watcher) => {
                    &&& forall|k: int|
                        0 <= k < config@.backup_sets.len() ==> exclusions_sound(
                            #[trigger] config@.backup_sets[k],
                        )
                    &&& watcher@.roots == roots_of(config@.backup_sets)
                    &&& watcher@.exclusions == exclusions_of(config@.backup_sets)
                },
                Err(e) => exists|k: int|
                    {
                        &&& 0 <= k < config@.backup_sets.len()
                        &&& forall|j: int|
                            0 <= j < k ==> exclusions_sound(#[trigger] config@.backup_sets[j])
                        &&& exclusion_fault(#[trigger] config@.backup_sets[k], Some(e@))
                    },
            },
    {
        let ghost sets = config@.backup_sets;
        let mut roots: Vec<Root> = Vec::new();
        let mut matchers: Vec<Matcher> = Vec::new();
        let mut k: usize = 0;
        assert(root_views(roots@) =~= roots_of(sets.take(0)));
        assert(matcher_views(matchers@) =~= exclusions_of(sets.take(0)));
        while k < config.backup_sets.len()
            invariant
                k <= config.backup_sets.len(),
                sets == set_views(config.backup_sets@),
                forall|j: int| 0 <= j < k ==> exclusions_sound(#[trigger] sets[j]),
                root_views(roots@) == roots_of(sets.take(k as int)),
                matcher_views(matchers@) == exclusions_of(sets.take(k as int)),
                matchers_sound(matchers@),
            decreases config.backup_sets.len() - k,
        {
            let set = &config.backup_sets[k];
            proof {
                assert(sets.take(k + 1).drop_last() =~= sets.take(k as int));
                assert(sets.take(k + 1).last() == set@);
                assert(sets[k as int] == set@);
            }
            if let Some(patterns) = &set.exclude {
                match compile(&set.name, patterns) {
                    Ok(matcher) => {
                        let ghost so_far = matcher_views(matchers@);
                        let ghost old_matchers = matchers@;
                        matchers.push(matcher);
                        assert(matcher_views(matchers@) =~= so_far.push(
                            Exclusion { set_name: set@.name, patterns: texts(patterns@) },
                        ));
                        assert forall|i: int| 0 <= i < matchers@.len() implies globset_patterns(
                            (#[trigger] matchers@[i]).globs,
                        ) == texts(matchers@[i].patterns@) by {
                            if i < old_matchers.len() {
                                assert(matchers@[i] == old_matchers[i]);
                            }
                        }
                    },
                    Err(e) => {
                        assert(sets == config@.backup_sets);
                        assert(texts(patterns@) == sets[k as int].exclude->0);
                        assert(exclusion_fault(config@.backup_sets[k as int], Some(e@)));
                        return Err(e);
                    },
                }
            }
            assert(matcher_views(matchers@) == exclusions_of(sets.take(k + 1)));
            let paths = set.source_paths();
            let ghost head = root_views(roots@);
            let mut i: usize = 0;
            while i < paths.len()
                invariant
                    i <= paths.len(),
                    texts(paths@) == set@.source_paths(),
                    root_views(roots@) =~= head + set_roots(set@).take(i as int),
                decreases paths.len() - i,
            {
                let ghost so_far = root_views(roots@);
                roots.push(Root { root: paths[i].clone(), set_name: set.name.clone() });
                assert(root_views(roots@) =~= so_far.push(
                    WatchRoot { root: paths@[i as int]@, set_name: set@.name },
                ));
                assert(set_roots(set@)[i as int] == WatchRoot {
                    root: texts(paths@)[i as int],
                    set_name: set@.name,
                });
                i += 1;
            }
            assert(set_roots(set@).take(paths.len() as int) =~= set_roots(set@));
            k += 1;
        }
        assert(sets.take(config.backup_sets.len() as int) =~= sets);
        Ok(FileWatcher { roots, matchers })
    }

    /// The directories to watch, in the order of the configuration.
    pub fn watch_paths(&self) -> (out: Vec<String>)
        ensures
            out@.len() == self@.roots.len(),
            forall|i: int| 0 <= i < out@.len() ==> (#[trigger] out@[i])@ == self@.roots[i].root,
    {
        let mut out: Vec<String> = Vec::new();
        let mut i: usize = 0;
        while i < self.roots.len()
            invariant
                i <= self.roots.len(),
                out@.len() == i,
                forall|k: int| 0 <= k < i ==> (#[trigger] out@[k])@ == root_views(self.roots@)[k].root,
            decreases self.roots.len() - i,
        {
            out.push(self.roots[i].root.clone());
            i += 1;
        }
        out
    }

    /// What is reported for a change at `path`, which is a directory if
    /// `is_dir`. See `FileWatcherView::classify`.
    pub fn handle_event(&self, path: &str, is_dir: bool) -> (event: Option<WatcherEvent>)
        ensures
            opt_event(event) == self@.classify(path@, is_dir),
    {
        proof {
            use_type_invariant(self);
        }
        if is_dir {
            return None;
        }
        let text = chars_of(path);
        let parts = path_components(&text);
        let absolute = text.len() > 0 && text[0] == '/';
        let ghost all = root_views(self.roots@);
        let mut best: Option<usize> = None;
        let mut best_depth: usize = 0;
        let mut i: usize = 0;
        while i < self.roots.len()
            invariant
                i <= self.roots.len(),
                all == root_views(self.roots@),
                rows(parts@) == components(path@),
                text@ == path@,
                absolute == is_absolute(path@),
                match best {
                    Some(b) => best_root(all.take(i as int), path@) == Some(b as int) && b < i
                        && best_depth == components(all[b as int].root).len(),
                    None => best_root(all.take(i as int), path@) is None,
                },
            decreases self.roots.len() - i,
        {
            proof {
                assert(all.take(i + 1).drop_last() =~= all.take(i as int));
                assert(all.take(i + 1).last() == all[i as int]);
                assert(all[i as int].root == self.roots@[i as int].root@);
                if let Some(b) = best {
                    assert(all.take(i + 1)[b as int] == all[b as int]);
                }
            }
            let root_text = chars_of(self.roots[i].root.as_str());
            let root_parts = path_components(&root_text);
            let root_absolute = root_text.len() > 0 && root_text[0] == '/';
            if absolute == root_absolute && starts_list(&root_parts, &parts) {
                let deeper = match best {
                    Some(_) => root_parts.len() >= best_depth,
                    None => true,
                };
                if deeper {
                    best = Some(i);
                    best_depth = root_parts.len();
                }
            }
            i += 1;
        }
        assert(all.take(self.roots.len() as int) =~= all);
        let at = match best {
            Some(b) => b,
            None => {
                return None;
            },
        };
        let root = &self.roots[at];
        assert(all[at as int] == WatchRoot { root: root.root@, set_name: root.set_name@ });
        let ghost listed = matcher_views(self.matchers@);
        let mut k: usize = self.matchers.len();
        let mut found: Option<usize> = None;
        assert(listed.take(k as int) =~= listed);
        while k > 0 && found.is_none()
            invariant
                k <= self.matchers.len(),
                listed == matcher_views(self.matchers@),
                match found {
                    Some(m) => m < self.matchers.len() && find_exclusion(listed, root.set_name@)
                        == Some(listed[m as int].patterns),
                    None => find_exclusion(listed, root.set_name@) == find_exclusion(
                        listed.take(k as int),
                        root.set_name@,
                    ),
                },
            decreases k,
        {
            proof {
                assert(listed.take(k as int).last() == listed[k - 1]);
                assert(listed.take(k as int).drop_last() =~= listed.take(k - 1));
                assert(listed[k - 1].set_name == self.matchers@[k - 1].set_name@);
            }
            if self.matchers[k - 1].set_name == root.set_name {
                found = Some(k - 1);
            }
            k -= 1;
        }
        if let Some(m) = found {
            let matcher = &self.matchers[m];
            assert(listed[m as int].patterns == texts(matcher.patterns@));
            assert(globset_patterns(matcher.globs) == texts(matcher.patterns@));
            let root_text = chars_of(root.root.as_str());
            let root_parts = path_components(&root_text);
            let mut hit = crate::glob::is_match(&matcher.globs, path);
            if !hit && parts.len() > 0 {
                let last = &parts[parts.len() - 1];
                assert(rows(parts@).last() == last@);
                let parent = last.len() == 2 && last[0] == '.' && last[1] == '.';
                proof {
                    if parent {
                        assert(last@ =~= seq!['.', '.']);
                    } else if last@ == seq!['.', '.'] {
                        assert(seq!['.', '.'].len() == 2);
                        assert(seq!['.', '.'][0] == '.');
                        assert(seq!['.', '.'][1] == '.');
                    }
                }
                if !parent {
                    let name = string_of(last);
                    hit = crate::glob::is_match(&matcher.globs, name.as_str());
                }
            }
            if !hit {
                assert(is_under(path@, root.root@)) by {
                    lemma_best_root_is_longest(all, path@);
                }
                let relative = string_of(&join_components(&parts, root_parts.len()));
                hit = crate::glob::is_match(&matcher.globs, relative.as_str());
            }
            assert(hit == excluded(texts(matcher.patterns@), path@, root.root@));
            if hit {
                return None;
            }
        }
        Some(
            WatcherEvent::FileChanged {
                set_name: root.set_name.clone(),
                path: String::from_str(path),
            },
        )
    }
}

} // verus!
