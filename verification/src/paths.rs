//! Where the daemon keeps its files.
//!
//! Paths are texts with `/` between their components.

use crate::config::{opt_str, valid_set_name};
use crate::text::{
    chars_of, decimal, decimal_text, lines, pieces, rows, same_chars, split, split_lines,
    split_words, string_of, texts, words, Separator,
};
use vstd::prelude::*;
use vstd::string::StringExecFns;

verus! {

/// The name of the application, which names its directories and files.
pub const APPLICATION: &'static str = "backutil";

/// `base` extended by `part`, as `std::path::Path::join` extends a path on
/// Unix: an absolute `part` replaces `base`, and else `part` follows
/// `base`, after a `/` unless `base` is empty or ends in one.
pub open spec fn path_join(base: Seq<char>, part: Seq<char>) -> Seq<char> {
    if part.len() > 0 && part[0] == '/' {
        part
    } else if base.len() == 0 || base.last() == '/' {
        base + part
    } else {
        base + seq!['/'] + part
    }
}

/// Extends the path `base` by `part`.
pub fn join(base: &str, part: &str) -> (out: String)
    ensures
        out@ == path_join(base@, part@),
{
    let b = chars_of(base);
    let p = chars_of(part);
    if p.len() > 0 && p[0] == '/' {
        String::from_str(part)
    } else if b.len() == 0 || b[b.len() - 1] == '/' {
        String::from_str(base).concat(part)
    } else {
        let mut sep: Vec<char> = Vec::new();
        sep.push('/');
        assert(sep@ =~= seq!['/']);
        let slash = string_of(&sep);
        String::from_str(base).concat(slash.as_str()).concat(part)
    }
}

/// The directories of the application.
#[derive(Debug)]
pub struct Dirs {
    /// Where the configuration and the password file are.
    pub config_dir: String,
    /// Where the log and the mounts are.
    pub data_dir: String,
}

/// The home directory to fall back on: `home`, or `/tmp` without one.
pub open spec fn home_or_tmp(home: Option<Seq<char>>) -> Seq<char> {
    match home {
        Some(h) => h,
        None => "/tmp"@,
    }
}

/// The configuration directory to fall back on.
pub open spec fn fallback_config_dir(home: Option<Seq<char>>) -> Seq<char> {
    path_join(path_join(home_or_tmp(home), ".config"@), APPLICATION@)
}

/// The data directory to fall back on.
pub open spec fn fallback_data_dir(home: Option<Seq<char>>) -> Seq<char> {
    path_join(path_join(path_join(home_or_tmp(home), ".local"@), "share"@), APPLICATION@)
}

/// The configuration and the data directory that
/// `directories::ProjectDirs::from` finds for the application named
/// `application`, as `ProjectDirs::config_dir` and `ProjectDirs::data_dir`
/// return them; `None` where it finds no home directory. They depend on
/// the environment of the process, so nothing is claimed of them.
#[verifier::external_body]
fn project_dirs(application: &str) -> Option<(String, String)> {
    match directories::ProjectDirs::from("", "", application) {
        Some(dirs) => Some(
            (
                dirs.config_dir().to_string_lossy().into_owned(),
                dirs.data_dir().to_string_lossy().into_owned(),
            ),
        ),
        None => None,
    }
}

impl Dirs {
    /// The directories, given what the platform's conventions gave and the
    /// home directory of the environment: the directories found, and
    /// without them `.config/backutil` and `.local/share/backutil` under
    /// the home directory, or under `/tmp` without one.
    pub fn resolve(found: Option<(String, String)>, home: Option<&str>) -> (dirs: Dirs)
        ensures
            match found {
                Some((config_dir, data_dir)) => dirs.config_dir@ == config_dir@ && dirs.data_dir@
                    == data_dir@,
                None => dirs.config_dir@ == fallback_config_dir(opt_str(home)) && dirs.data_dir@
                    == fallback_data_dir(opt_str(home)),
            },
    {
        match found {
            Some((config_dir, data_dir)) => Dirs { config_dir, data_dir },
            None => {
                let base = match home {
                    Some(h) => h,
                    None => "/tmp",
                };
                let config = join(join(base, ".config").as_str(), APPLICATION);
                let data = join(
                    join(join(base, ".local").as_str(), "share").as_str(),
                    APPLICATION,
                );
                Dirs { config_dir: config, data_dir: data }
            },
        }
    }

    /// The directories of this process: those that the platform's
    /// conventions give, and without them those under `home`, the home
    /// directory of the environment. What the conventions give depends on
    /// the environment, so the result is whatever `resolve` makes of it.
    pub fn locate(home: Option<&str>) -> (dirs: Dirs) {
        Dirs::resolve(project_dirs(APPLICATION), home)
    }
}

/// The path of the configuration file: `config.toml` in the configuration
/// directory.
pub fn config_path(dirs: &Dirs) -> (out: String)
    ensures
        out@ == path_join(dirs.config_dir@, "config.toml"@),
{
    join(dirs.config_dir.as_str(), "config.toml")
}

/// The path of the configuration file in force: `chosen`, the path that
/// the environment names, and without one the path in the configuration
/// directory.
pub fn active_config_path(dirs: &Dirs, chosen: Option<&str>) -> (out: String)
    ensures
        out@ == match chosen {
            Some(path) => path@,
            None => path_join(dirs.config_dir@, "config.toml"@),
        },
{
    match chosen {
        Some(path) => String::from_str(path),
        None => config_path(dirs),
    }
}

/// The path of the file that holds the password of the repositories:
/// `.repo_password` in the configuration directory.
pub fn password_path(dirs: &Dirs) -> (out: String)
    ensures
        out@ == path_join(dirs.config_dir@, ".repo_password"@),
{
    join(dirs.config_dir.as_str(), ".repo_password")
}

/// The path of the log file: `backutil.log` in the data directory.
pub fn log_path(dirs: &Dirs) -> (out: String)
    ensures
        out@ == path_join(dirs.data_dir@, "backutil.log"@),
{
    join(dirs.data_dir.as_str(), "backutil.log")
}

/// The directory under which repositories are mounted: `mnt` in the data
/// directory.
pub fn mount_base_dir(dirs: &Dirs) -> (out: String)
    ensures
        out@ == path_join(dirs.data_dir@, "mnt"@),
{
    join(dirs.data_dir.as_str(), "mnt")
}

/// The directory on which the repository of the set named `set_name` is
/// mounted.
pub fn mount_path(dirs: &Dirs, set_name: &str) -> (out: String)
    ensures
        out@ == path_join(path_join(dirs.data_dir@, "mnt"@), set_name@),
{
    join(mount_base_dir(dirs).as_str(), set_name)
}

/// The path of a file of the running daemon whose name ends in
/// `extension`: in the runtime directory where the environment names one,
/// and else in `/tmp` with the user's identifier in its name.
pub open spec fn runtime_file(
    runtime_dir: Option<Seq<char>>,
    uid: u32,
    extension: Seq<char>,
) -> Seq<char> {
    match runtime_dir {
        Some(dir) => path_join(dir, APPLICATION@ + extension),
        None => "/tmp/"@ + APPLICATION@ + "-"@ + decimal_text(uid as nat) + extension,
    }
}

fn runtime_path(runtime_dir: Option<&str>, uid: u32, extension: &str) -> (out: String)
    ensures
        out@ == runtime_file(opt_str(runtime_dir), uid, extension@),
{
    match runtime_dir {
        Some(dir) => {
            let name = String::from_str(APPLICATION).concat(extension);
            join(dir, name.as_str())
        },
        None => {
            let digits = decimal(uid as u64);
            String::from_str("/tmp/").concat(APPLICATION).concat("-").concat(
                digits.as_str(),
            ).concat(extension)
        },
    }
}

/// The path of the daemon's socket: `backutil.sock` in `runtime_dir`,
/// the runtime directory that the environment names, and without one
/// `/tmp/backutil-<uid>.sock`.
pub fn socket_path(runtime_dir: Option<&str>, uid: u32) -> (out: String)
    ensures
        out@ == runtime_file(opt_str(runtime_dir), uid, ".sock"@),
{
    runtime_path(runtime_dir, uid, ".sock")
}

/// The path of the daemon's PID file: `backutil.pid` in `runtime_dir`,
/// the runtime directory that the environment names, and without one
/// `/tmp/backutil-<uid>.pid`.
pub fn pid_path(runtime_dir: Option<&str>, uid: u32) -> (out: String)
    ensures
        out@ == runtime_file(opt_str(runtime_dir), uid, ".pid"@),
{
    runtime_path(runtime_dir, uid, ".pid")
}

/// The mount points that the lines `table` of a mount table list: of each
/// line with two words or more, the second.
pub open spec fn listed_in(table: Seq<Seq<char>>) -> Seq<Seq<char>>
    decreases table.len(),
{
    if table.len() == 0 {
        Seq::empty()
    } else if words(table.last()).len() >= 2 {
        listed_in(table.drop_last()).push(words(table.last())[1])
    } else {
        listed_in(table.drop_last())
    }
}

/// The mount points that the kernel's mount table `table` lists, in order.
pub open spec fn mount_points_of(table: Seq<char>) -> Seq<Seq<char>> {
    listed_in(lines(table))
}

/// The mount points that the kernel's mount table `table` lists, in order.
pub fn mount_points(table: &str) -> (out: Vec<String>)
    ensures
        texts(out@) == mount_points_of(table@),
{
    let text = chars_of(table);
    let rows_of_table = split_lines(&text);
    let ghost all = rows(rows_of_table@);
    let mut out: Vec<String> = Vec::new();
    let mut i: usize = 0;
    while i < rows_of_table.len()
        invariant
            i <= rows_of_table.len(),
            all == rows(rows_of_table@),
            texts(out@) =~= listed_in(all.take(i as int)),
        decreases rows_of_table.len() - i,
    {
        proof {
            assert(all.take(i + 1).drop_last() =~= all.take(i as int));
            assert(all.take(i + 1).last() == rows_of_table@[i as int]@);
        }
        let fields = split_words(&rows_of_table[i]);
        if fields.len() >= 2 {
            assert(rows(fields@)[1] == fields@[1]@);
            let ghost so_far = texts(out@);
            let point = string_of(&fields[1]);
            out.push(point);
            assert(texts(out@) =~= so_far.push(fields@[1]@));
        }
        i += 1;
    }
    assert(all.take(rows_of_table.len() as int) =~= all);
    out
}

/// Whether the kernel's mount table `table` lists `path` as a mount point.
pub fn is_mount_point(table: &str, path: &str) -> (listed: bool)
    ensures
        listed == mount_points_of(table@).contains(path@),
{
    let points = mount_points(table);
    let wanted = String::from_str(path);
    let mut i: usize = 0;
    while i < points.len()
        invariant
            i <= points.len(),
            wanted@ == path@,
            texts(points@) == mount_points_of(table@),
            forall|k: int| 0 <= k < i ==> texts(points@)[k] != path@,
        decreases points.len() - i,
    {
        assert(texts(points@)[i as int] == points@[i as int]@);
        if points[i] == wanted {
            assert(mount_points_of(table@)[i as int] == path@);
            return true;
        }
        i += 1;
    }
    false
}


/// Whether `piece`, a text between two `/` of a path, is a component of
/// the path: it is neither empty nor `.`.
pub open spec fn is_component(piece: Seq<char>) -> bool {
    piece.len() > 0 && piece != seq!['.']
}

/// The components among `ps`, in order.
pub open spec fn components_among(ps: Seq<Seq<char>>) -> Seq<Seq<char>>
    decreases ps.len(),
{
    if ps.len() == 0 {
        Seq::empty()
    } else if is_component(ps.last()) {
        components_among(ps.drop_last()).push(ps.last())
    } else {
        components_among(ps.drop_last())
    }
}

/// The components of `path`: the texts between its `/`, without the empty
/// ones and without `.`.
pub open spec fn components(path: Seq<char>) -> Seq<Seq<char>> {
    components_among(pieces(path, Separator::Char('/')))
}

/// Whether `path` starts at the root of the file system.
pub open spec fn is_absolute(path: Seq<char>) -> bool {
    path.len() > 0 && path[0] == '/'
}

/// Whether the list `a` starts the list `b`.
pub open spec fn starts<T>(a: Seq<T>, b: Seq<T>) -> bool {
    a.len() <= b.len() && b.take(a.len() as int) == a
}

/// Whether `path` is `root` or lies below it: both start at the root of
/// the file system or neither does, and the components of `root` start
/// those of `path`.
pub open spec fn is_under(path: Seq<char>, root: Seq<char>) -> bool {
    is_absolute(path) == is_absolute(root) && starts(components(root), components(path))
}

/// The last component of `path`, unless there is none or it is `..`.
pub open spec fn file_name(path: Seq<char>) -> Option<Seq<char>> {
    let c = components(path);
    if c.len() > 0 && c.last() != seq!['.', '.'] {
        Some(c.last())
    } else {
        None
    }
}

/// The components `c` with a `/` between every two of them.
pub open spec fn joined(c: Seq<Seq<char>>) -> Seq<char>
    decreases c.len(),
{
    if c.len() == 0 {
        Seq::empty()
    } else if c.len() == 1 {
        c[0]
    } else {
        joined(c.drop_last()) + seq!['/'] + c.last()
    }
}

/// `path` as seen from `root`: its components after those of `root`,
/// where it is `root` or lies below it.
pub open spec fn relative_to(path: Seq<char>, root: Seq<char>) -> Option<Seq<char>> {
    if is_under(path, root) {
        Some(joined(components(path).skip(components(root).len() as int)))
    } else {
        None
    }
}

/// The components of `path`.
pub fn path_components(path: &Vec<char>) -> (out: Vec<Vec<char>>)
    ensures
        rows(out@) == components(path@),
{
    let ps = split(path, Separator::Char('/'));
    let ghost all = rows(ps@);
    let mut out: Vec<Vec<char>> = Vec::new();
    let mut i: usize = 0;
    while i < ps.len()
        invariant
            i <= ps.len(),
            all == rows(ps@),
            rows(out@) =~= components_among(all.take(i as int)),
        decreases ps.len() - i,
    {
        proof {
            assert(all.take(i + 1).drop_last() =~= all.take(i as int));
            assert(all.take(i + 1).last() == ps@[i as int]@);
        }
        let p = &ps[i];
        let dot = p.len() == 1 && p[0] == '.';
        proof {
            if dot {
                assert(p@ =~= seq!['.']);
            } else if p@ == seq!['.'] {
                assert(seq!['.'].len() == 1);
                assert(seq!['.'][0] == '.');
            }
        }
        if p.len() > 0 && !dot {
            let ghost so_far = rows(out@);
            out.push(p.clone());
            assert(rows(out@) =~= so_far.push(p@));
        }
        i += 1;
    }
    assert(all.take(ps.len() as int) =~= all);
    out
}

/// Whether the list of texts `a` starts the list `b`.
pub fn starts_list(a: &Vec<Vec<char>>, b: &Vec<Vec<char>>) -> (yes: bool)
    ensures
        yes == starts(rows(a@), rows(b@)),
{
    if a.len() > b.len() {
        return false;
    }
    let mut i: usize = 0;
    while i < a.len()
        invariant
            i <= a.len() <= b.len(),
            forall|k: int| 0 <= k < i ==> rows(a@)[k] == rows(b@)[k],
        decreases a.len() - i,
    {
        assert(rows(a@)[i as int] == a@[i as int]@);
        assert(rows(b@)[i as int] == b@[i as int]@);
        if !same_chars(&a[i], &b[i]) {
            assert(rows(b@).take(a.len() as int)[i as int] != rows(a@)[i as int]);
            return false;
        }
        i += 1;
    }
    assert(rows(b@).take(a.len() as int) =~= rows(a@));
    true
}

/// The components of `c` from index `from` on, with a `/` between every
/// two of them.
pub fn join_components(c: &Vec<Vec<char>>, from: usize) -> (out: Vec<char>)
    requires
        from <= c.len(),
    ensures
        out@ == joined(rows(c@).skip(from as int)),
{
    let ghost tail = rows(c@).skip(from as int);
    let mut out: Vec<char> = Vec::new();
    let mut i: usize = from;
    while i < c.len()
        invariant
            from <= i <= c.len(),
            tail == rows(c@).skip(from as int),
            out@ == joined(tail.take(i - from)),
        decreases c.len() - i,
    {
        proof {
            assert(tail.take(i + 1 - from).drop_last() =~= tail.take(i - from));
            assert(tail.take(i + 1 - from).last() == c@[i as int]@);
            if i > from {
                assert(tail.take(i + 1 - from).len() >= 2);
            } else {
                assert(tail.take(i + 1 - from)[0] == c@[i as int]@);
                assert(tail.take(0).len() == 0);
            }
        }
        let ghost before = out@;
        if i > from {
            out.push('/');
        }
        let part = &c[i];
        let ghost head = out@;
        let mut k: usize = 0;
        while k < part.len()
            invariant
                k <= part.len(),
                out@ =~= head + part@.take(k as int),
            decreases part.len() - k,
        {
            out.push(part[k]);
            k += 1;
        }
        assert(part@.take(part.len() as int) =~= part@);
        assert(out@ =~= joined(tail.take(i + 1 - from))) by {
            if i > from {
                assert(head =~= before + seq!['/']);
            } else {
                assert(head =~= Seq::<char>::empty());
            }
        }
        i += 1;
    }
    assert(tail.take(c.len() - from) =~= tail);
    out
}


/// The permission bits that the password file has to have: read and write
/// for its owner and nothing for anybody else.
pub const PASSWORD_FILE_MODE: u32 = 0o600;

/// Whether a password file with the mode `mode` is kept private: its
/// permission bits are exactly `PASSWORD_FILE_MODE`.
pub fn password_mode_ok(mode: u32) -> (ok: bool)
    ensures
        ok == (mode & 0o777 == PASSWORD_FILE_MODE),
{
    mode & 0o777 == PASSWORD_FILE_MODE
}

/// Mount paths stay below the mount base: the mount path of a set with a
/// valid name is the mount base directory, a `/` unless that ends in one,
/// and the name, which holds no `/`. No set name leads out of the base.
pub proof fn lemma_mount_path_below_base(data_dir: Seq<char>, name: Seq<char>)
    requires
        valid_set_name(name),
    ensures
        ({
            let base = path_join(data_dir, "mnt"@);
            let path = path_join(base, name);
            &&& path == base + name || path == base + seq!['/'] + name
            &&& forall|i: int| 0 <= i < name.len() ==> name[i] != '/' && name[i] != '.'
        }),
{
    assert(crate::config::is_name_char(name[0]));
    assert forall|i: int| 0 <= i < name.len() implies name[i] != '/' && name[i] != '.' by {
        assert(crate::config::is_name_char(name[i]));
    }
}


/// The directory that holds `path`: `path` without its last component.
/// `None` where `path` has no component.
pub open spec fn parent_of(path: Seq<char>) -> Option<Seq<char>> {
    let c = components(path);
    if c.len() == 0 {
        None
    } else {
        Some(
            (if is_absolute(path) {
                seq!['/']
            } else {
                Seq::empty()
            }) + joined(c.drop_last()),
        )
    }
}

/// The directory that holds `path`. See `parent_of`.
pub fn parent(path: &str) -> (out: Option<String>)
    ensures
        crate::text::opt_text(out) == parent_of(path@),
{
    let text = chars_of(path);
    let c = path_components(&text);
    if c.len() == 0 {
        return None;
    }
    let mut head: Vec<Vec<char>> = Vec::new();
    let mut i: usize = 0;
    while i + 1 < c.len()
        invariant
            c.len() >= 1,
            i + 1 <= c.len(),
            rows(head@) =~= rows(c@).take(i as int),
        decreases c.len() - i,
    {
        let ghost so_far = rows(head@);
        head.push(c[i].clone());
        assert(rows(head@) =~= so_far.push(c@[i as int]@));
        i += 1;
    }
    assert(rows(c@).take(c.len() - 1) =~= rows(c@).drop_last());
    assert(rows(head@).skip(0) =~= rows(head@));
    let mut out: Vec<char> = Vec::new();
    if text.len() > 0 && text[0] == '/' {
        out.push('/');
    }
    let ghost root = out@;
    let tail = join_components(&head, 0);
    let mut k: usize = 0;
    while k < tail.len()
        invariant
            k <= tail.len(),
            out@ =~= root + tail@.take(k as int),
        decreases tail.len() - k,
    {
        out.push(tail[k]);
        k += 1;
    }
    assert(tail@.take(tail.len() as int) =~= tail@);
    assert(root =~= (if is_absolute(path@) {
        seq!['/']
    } else {
        Seq::empty()
    }));
    Some(string_of(&out))
}

/// The path of the unit file that runs the daemon as a service of the
/// user: `systemd/user/backutil-daemon.service` beside the configuration
/// directory, or under `.config` in the home directory where the
/// configuration directory is held by none.
pub open spec fn unit_path(config_dir: Seq<char>, home: Option<Seq<char>>) -> Seq<char> {
    path_join(
        path_join(
            path_join(
                match parent_of(config_dir) {
                    Some(p) => p,
                    None => path_join(home_or_tmp(home), ".config"@),
                },
                "systemd"@,
            ),
            "user"@,
        ),
        "backutil-daemon.service"@,
    )
}

/// The path of the unit file that runs the daemon as a service of the
/// user. See `unit_path`.
pub fn systemd_unit_path(dirs: &Dirs, home: Option<&str>) -> (out: String)
    ensures
        out@ == unit_path(dirs.config_dir@, opt_str(home)),
{
    let base = match parent(dirs.config_dir.as_str()) {
        Some(p) => p,
        None => join(
            match home {
                Some(h) => h,
                None => "/tmp",
            },
            ".config",
        ),
    };
    join(join(join(base.as_str(), "systemd").as_str(), "user").as_str(), "backutil-daemon.service")
}

} // verus!
