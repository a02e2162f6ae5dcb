//! Staging of an arbitrary program into a container.
//!
//! A program lives with its files in one directory, its app root. That
//! directory is linked into `App` in the root directory of a container, and the
//! program is started from there.

use crate::container::config::{Failure, PsrootError};
use crate::container::env::pairs;
use crate::container::glob::{any_matches, matches_glob};
use crate::container::sandbox::{
    build_command_line, command_line, inside, join_path, joined_path, law_join_goes_below,
};
use crate::paths::{
    beyond, drive_len, file_name, file_name_of, is_name, law_beyond_undoes_join, parent, parent_of,
    rooted, strip_prefix,
};
use crate::text::{
    char_is_alpha, chars_of, concat2, concat3, concat4, contains, decimal, decimal_text,
    lemma_rfind_bounds, literals, occurs, rfind, rfind_char, same, skip, take, texts, to_lowercase, unicode_lower,
};
use vstd::prelude::*;

verus! {

/// The patterns of files that are not staged unless others are given.
pub const DEFAULT_EXCLUDES: [&'static str; 3] = [
    "*.pdb",
    "**/Installer/**",
    "**/*.log",
];

/// The marks of a directory that belongs to Windows itself.
pub const SYSTEM_MARKERS: [&'static str; 4] = [
    "\\windows\\system32",
    "\\windows\\syswow64",
    "\\windows\\system",
    "\\windows\\winsxs",
];

/// Whether a path ends with the directory of Windows.
pub open spec fn is_windows(lowered: Seq<char>) -> bool {
    lowered.len() >= 8 && lowered.skip(lowered.len() - 8) == "\\windows"@
}

/// Whether a path in lower case is the directory of Windows, or lies in one of
/// those that belong to Windows itself.
pub open spec fn system_dir(lowered: Seq<char>) -> bool {
    is_windows(lowered) || exists|i: int|
        0 <= i < 4 && occurs(lowered, #[trigger] literals(SYSTEM_MARKERS@)[i])
}

/// Whether a path in lower case is or lies in a directory of Windows itself,
/// which is not staged as a whole.
pub fn is_system_dir(path_lower: &str) -> (r: bool)
    ensures
        r == system_dir(path_lower@),
{
    let n: usize = chars_of(path_lower).len();
    if n >= 8 {
        let end = skip(path_lower, n - 8);
        if same(end.as_str(), "\\windows") {
            return true;
        }
    }
    let mut i: usize = 0;
    while i < SYSTEM_MARKERS.len()
        invariant
            i <= 4,
            !is_windows(path_lower@),
            forall|j: int| 0 <= j < i ==> !occurs(path_lower@, #[trigger] literals(SYSTEM_MARKERS@)[j]),
        decreases 4 - i,
    {
        let m: &'static str = SYSTEM_MARKERS[i];
        assert(literals(SYSTEM_MARKERS@)[i as int] == m@);
        if contains(path_lower, m) {
            return true;
        }
        i = i + 1;
    }
    false
}

/// Whether a directory with this name, in lower case, holds the programs of the
/// directory above it.
pub open spec fn program_subdir(lowered: Seq<char>) -> bool {
    lowered == "bin"@ || lowered == "app"@
}

/// The app root of a program in the directory `dir`: the directory above it
/// where `dir` only holds the programs, else `dir` itself. A directory of
/// Windows is never left.
pub open spec fn root_of_dir(dir: Seq<char>) -> Seq<char> {
    if system_dir(unicode_lower(dir)) {
        dir
    } else {
        match (file_name(dir), parent(dir)) {
            (Some(name), Some(above)) => if program_subdir(unicode_lower(name)) {
                above
            } else {
                dir
            },
            _ => dir,
        }
    }
}

/// The app root of a program.
pub open spec fn app_root(exe: Seq<char>) -> Seq<char> {
    root_of_dir(
        match parent(exe) {
            Some(d) => d,
            None => exe,
        },
    )
}

/// The app root of a program in `dir`, from what its path and its last name are
/// in lower case.
pub fn choose_app_root(dir: &str, lowered: &str, lowered_name: Option<&str>) -> (r: String)
    ensures
        r@ == (if system_dir(lowered@) {
            dir@
        } else {
            match (lowered_name, parent(dir@)) {
                (Some(name), Some(above)) => if program_subdir(name@) {
                    above
                } else {
                    dir@
                },
                _ => dir@,
            }
        }),
{
    if is_system_dir(lowered) {
        return dir.to_owned();
    }
    if let Some(name) = lowered_name {
        if same(name, "bin") || same(name, "app") {
            if let Some(above) = parent_of(dir) {
                return above;
            }
        }
    }
    dir.to_owned()
}

/// The app root of a program.
pub fn detect_app_root(exe: &str) -> (r: String)
    ensures
        r@ == app_root(exe@),
{
    let dir = match parent_of(exe) {
        Some(d) => d,
        None => exe.to_owned(),
    };
    let lowered = to_lowercase(dir.as_str());
    match file_name_of(dir.as_str()) {
        Some(name) => {
            let lowered_name = to_lowercase(name.as_str());
            choose_app_root(dir.as_str(), lowered.as_str(), Some(lowered_name.as_str()))
        },
        None => choose_app_root(dir.as_str(), lowered.as_str(), None),
    }
}

/// A file name without its extension.
pub open spec fn stem(name: Seq<char>) -> Seq<char> {
    let i = rfind(name, '.');
    if i > 0 {
        name.take(i)
    } else {
        name
    }
}

/// The last name of a path without its extension; empty where there is none.
pub open spec fn file_stem(path: Seq<char>) -> Seq<char> {
    match file_name(path) {
        Some(n) => stem(n),
        None => Seq::empty(),
    }
}

fn file_stem_of(path: &str) -> (s: String)
    ensures
        s@ == file_stem(path@),
{
    match file_name_of(path) {
        Some(n) => {
            let v = chars_of(n.as_str());
            match rfind_char(v.as_slice(), '.') {
                Some(i) => if i > 0 {
                    take(n.as_str(), i)
                } else {
                    n
                },
                None => n,
            }
        },
        None => String::new(),
    }
}

/// What a path holds beyond a directory that it lies in; the whole path where
/// it does not.
pub open spec fn relative(path: Seq<char>, dir: Seq<char>) -> Seq<char> {
    match beyond(path, dir) {
        Some(rest) => rest,
        None => path,
    }
}

/// What a path holds beyond a directory that it lies in.
pub fn relative_to(path: &str, dir: &str) -> (r: String)
    ensures
        r@ == relative(path@, dir@),
{
    match strip_prefix(path, dir) {
        Some(rest) => rest,
        None => path.to_owned(),
    }
}

/// Whether a path goes on from a directory: it has neither a drive nor a root.
pub open spec fn goes_on(path: Seq<char>) -> bool {
    drive_len(path) == 0 && !rooted(path)
}

fn continues(path: &str) -> (r: bool)
    ensures
        r == goes_on(path@),
{
    let v = chars_of(path);
    !(v.len() >= 2 && char_is_alpha(v[0]) && v[1] == ':') && !(v.len() > 0 && (v[0] == '\\' || v[0]
        == '/'))
}

/// The last name of a path; nothing where it has none.
pub open spec fn name_or_nothing(path: Seq<char>) -> Seq<char> {
    match file_name(path) {
        Some(n) => n,
        None => Seq::empty(),
    }
}

/// How a program is staged.
pub struct AppStageConfig {
    pub exe_path: String,
    pub app_root: String,
    pub container_name: String,
    pub args: Vec<String>,
    pub rootfs_base: String,
    pub exclude: Vec<String>,
    pub network: bool,
    /// Further directories of the host, with their names in the root directory.
    pub extra_dirs: Vec<(String, String)>,
}

impl AppStageConfig {
    /// Everything but the arguments is the same.
    pub open spec fn same_but_args(self, o: Self) -> bool {
        self.exe_path == o.exe_path && self.app_root == o.app_root && self.container_name
            == o.container_name && self.rootfs_base == o.rootfs_base && self.exclude == o.exclude
            && self.network == o.network && self.extra_dirs == o.extra_dirs
    }

    /// Everything but the app root is the same.
    pub open spec fn same_but_root(self, o: Self) -> bool {
        self.exe_path == o.exe_path && self.args == o.args && self.container_name
            == o.container_name && self.rootfs_base == o.rootfs_base && self.exclude == o.exclude
            && self.network == o.network && self.extra_dirs == o.extra_dirs
    }

    /// Everything but the further directories is the same.
    pub open spec fn same_but_dirs(self, o: Self) -> bool {
        self.exe_path == o.exe_path && self.app_root == o.app_root && self.container_name
            == o.container_name && self.rootfs_base == o.rootfs_base && self.exclude == o.exclude
            && self.network == o.network && self.args == o.args
    }

    /// Everything but the exclusions is the same.
    pub open spec fn same_but_excludes(self, o: Self) -> bool {
        self.exe_path == o.exe_path && self.app_root == o.app_root && self.container_name
            == o.container_name && self.rootfs_base == o.rootfs_base && self.args == o.args
            && self.network == o.network && self.extra_dirs == o.extra_dirs
    }

    /// How a program is staged where nothing else is asked for.
    pub open spec fn made_for(self, exe: Seq<char>, pid: u32, temp: Seq<char>) -> bool {
        &&& self.exe_path@ == exe
        &&& self.app_root@ == app_root(exe)
        &&& self.container_name@ == file_stem(exe) + "-"@ + decimal(pid as nat)
        &&& self.args@.len() == 0
        &&& self.rootfs_base@ == joined_path(temp, "psroot-containers"@)
        &&& texts(self.exclude@) == literals(DEFAULT_EXCLUDES@)
        &&& self.network
        &&& self.extra_dirs@.len() == 0
    }

    /// How the program at `exe_path` is staged. `exists` and `is_file` say what
    /// is there; the process id and the directory for temporary files give the
    /// container its name and place.
    pub fn from_exe(exe_path: &str, exists: bool, is_file: bool, pid: u32, temp_dir: &str) -> (r:
        Result<AppStageConfig, PsrootError>)
        ensures
            match r {
                Err(e) => (!exists && e@ == Failure::Other("Executable not found: "@ + exe_path@))
                    || (exists && !is_file && e@ == Failure::Other("Not a file: "@ + exe_path@)),
                Ok(c) => exists && is_file && c.made_for(exe_path@, pid, temp_dir@),
            },
    {
        if !exists {
            return Err(PsrootError::Other(concat2("Executable not found: ", exe_path)));
        }
        if !is_file {
            return Err(PsrootError::Other(concat2("Not a file: ", exe_path)));
        }
        let name = file_stem_of(exe_path);
        let id = decimal_text(pid as u128);
        let exclude = vec![
            DEFAULT_EXCLUDES[0].to_owned(),
            DEFAULT_EXCLUDES[1].to_owned(),
            DEFAULT_EXCLUDES[2].to_owned(),
        ];
        assert(texts(exclude@) =~= literals(DEFAULT_EXCLUDES@));
        Ok(
            AppStageConfig {
                exe_path: exe_path.to_owned(),
                app_root: detect_app_root(exe_path),
                container_name: concat3(name.as_str(), "-", id.as_str()),
                args: Vec::new(),
                rootfs_base: join_path(temp_dir, "psroot-containers"),
                exclude,
                network: true,
                extra_dirs: Vec::new(),
            },
        )
    }

    /// The same with other arguments.
    pub fn with_args(self, args: Vec<String>) -> (c: Self)
        ensures
            c.args == args,
            c.same_but_args(self),
    {
        let mut c = self;
        c.args = args;
        c
    }

    /// The same with another app root.
    pub fn with_app_root(self, root: &str) -> (c: Self)
        ensures
            c.app_root@ == root@,
            c.same_but_root(self),
    {
        let mut c = self;
        c.app_root = root.to_owned();
        c
    }

    /// The same with one more directory of the host.
    pub fn with_extra_dir(self, host_path: &str, mount_name: &str) -> (c: Self)
        ensures
            c.extra_dirs@.len() == self.extra_dirs@.len() + 1,
            c.extra_dirs@.drop_last() == self.extra_dirs@,
            c.extra_dirs@.last().0@ == host_path@,
            c.extra_dirs@.last().1@ == mount_name@,
            c.same_but_dirs(self),
    {
        let mut c = self;
        c.extra_dirs.push((host_path.to_owned(), mount_name.to_owned()));
        assert(c.extra_dirs@.drop_last() =~= self.extra_dirs@);
        c
    }

    /// The same with other exclusions.
    pub fn with_excludes(self, excludes: Vec<String>) -> (c: Self)
        ensures
            c.exclude == excludes,
            c.same_but_excludes(self),
    {
        let mut c = self;
        c.exclude = excludes;
        c
    }

    pub open spec fn rootfs(self) -> Seq<char> {
        joined_path(self.rootfs_base@, self.container_name@)
    }

    pub open spec fn app_dir(self) -> Seq<char> {
        joined_path(self.rootfs(), "App"@)
    }

    /// The path of the program below the directory of its files: that which it
    /// has below the app root, or its name alone where it does not lie there.
    pub open spec fn program(self) -> Seq<char> {
        match beyond(self.exe_path@, self.app_root@) {
            Some(rest) => if goes_on(rest) {
                rest
            } else {
                name_or_nothing(self.exe_path@)
            },
            None => name_or_nothing(self.exe_path@),
        }
    }

    pub open spec fn staged_exe(self) -> Seq<char> {
        self.app_dir() + "\\"@ + self.program()
    }

    /// The root directory of the container.
    pub fn rootfs_path(&self) -> (s: String)
        ensures
            s@ == self.rootfs(),
    {
        join_path(self.rootfs_base.as_str(), self.container_name.as_str())
    }

    /// Where the program's files go.
    pub fn staged_app_dir(&self) -> (s: String)
        ensures
            s@ == self.app_dir(),
    {
        let r = self.rootfs_path();
        join_path(r.as_str(), "App")
    }

    /// Where the program is started from: always in the container.
    pub fn staged_exe_path(&self) -> (s: String)
        ensures
            s@ == self.staged_exe(),
            self.app_dir().is_prefix_of(s@),
            self.rootfs().is_prefix_of(s@),
    {
        let d = self.staged_app_dir();
        let p = self.program_path();
        proof {
            law_program_stays_inside(*self);
        }
        concat3(d.as_str(), "\\", p.as_str())
    }

    fn program_path(&self) -> (s: String)
        ensures
            s@ == self.program(),
    {
        if let Some(rest) = strip_prefix(self.exe_path.as_str(), self.app_root.as_str()) {
            if continues(rest.as_str()) {
                return rest;
            }
        }
        match file_name_of(self.exe_path.as_str()) {
            Some(n) => n,
            None => {
                let e = String::new();
                assert(e@ =~= Seq::<char>::empty());
                e
            },
        }
    }

    /// The command line of the staged program.
    pub fn launch_line(&self) -> (s: String)
        ensures
            s@ == command_line(self.staged_exe(), texts(self.args@)),
    {
        let exe = self.staged_exe_path();
        build_command_line(exe.as_str(), &self.args)
    }

    /// The directories of the root directory that are made first.
    pub fn skeleton(&self) -> (v: Vec<String>)
        ensures
            texts(v@) == first_dirs(self.rootfs()),
    {
        let r = self.rootfs_path();
        let users = join_path(r.as_str(), "Users");
        let v = vec![
            join_path(r.as_str(), "App"),
            join_path(users.as_str(), "ContainerUser"),
            join_path(r.as_str(), "Temp"),
        ];
        assert(texts(v@) =~= seq![
            joined_path(self.rootfs(), "App"@),
            joined_path(joined_path(self.rootfs(), "Users"@), "ContainerUser"@),
            joined_path(self.rootfs(), "Temp"@),
        ]);
        v
    }

    /// Where the program alone is staged, if its app root belongs to Windows;
    /// otherwise the whole app root is.
    pub open spec fn alone(self) -> Option<Seq<char>> {
        if system_dir(unicode_lower(self.app_root@)) {
            Some(joined_path(self.app_dir(), file_name(self.exe_path@)->0))
        } else {
            None
        }
    }

    /// Where the program alone is staged, if its app root belongs to Windows;
    /// otherwise the whole app root is.
    pub fn single_file_target(&self) -> (r: Option<String>)
        requires
            file_name(self.exe_path@) is Some,
        ensures
            match r {
                Some(t) => self.alone() == Some(t@),
                None => self.alone() is None,
            },
    {
        let lowered = to_lowercase(self.app_root.as_str());
        if !is_system_dir(lowered.as_str()) {
            return None;
        }
        let d = self.staged_app_dir();
        match file_name_of(self.exe_path.as_str()) {
            Some(n) => Some(join_path(d.as_str(), n.as_str())),
            None => None,
        }
    }
}

/// Why a directory of a container could not be made.
pub fn make_dir_failure(dir: &str, cause: &str) -> (e: PsrootError)
    ensures
        e@ == Failure::Other("create dir "@ + dir@ + ": "@ + cause@),
{
    PsrootError::Other(concat4("create dir ", dir, ": ", cause))
}

/// What is done to run a staged program on a desktop of its own.
pub struct GuiLaunch {
    /// The directories that are made first.
    pub directories: Vec<String>,
    /// Where the program's files go.
    pub app_dir: String,
    /// Further directories of the host, and where their files go.
    pub extra: Vec<(String, String)>,
    /// The name of the desktop.
    pub desktop: String,
    pub command_line: String,
    /// The directory that the program starts in, and that is removed at the
    /// end.
    pub directory: String,
}

/// Further directories of the host, and where their files go.
pub open spec fn extra_targets(root: Seq<char>, dirs: Seq<(Seq<char>, Seq<char>)>) -> Seq<
    (Seq<char>, Seq<char>),
> {
    dirs.map_values(|d: (Seq<char>, Seq<char>)| (d.0, joined_path(root, d.1)))
}

impl GuiLaunch {
    /// What is done for this configuration.
    pub open spec fn launches(&self, config: AppStageConfig) -> bool {
        &&& texts(self.directories@) == first_dirs(config.rootfs())
        &&& self.app_dir@ == config.app_dir()
        &&& pairs(self.extra@) == extra_targets(config.rootfs(), pairs(config.extra_dirs@))
        &&& self.desktop@ == crate::container::desktop::desktop_name(config.container_name@)
        &&& self.command_line@ == command_line(config.staged_exe(), texts(config.args@))
        &&& self.directory@ == config.rootfs()
    }
}

/// What is done to run a staged program on a desktop of its own.
pub fn stage_and_spawn_gui(config: &AppStageConfig) -> (l: GuiLaunch)
    ensures
        l.launches(*config),
{
    let root = config.rootfs_path();
    let ghost all = pairs(config.extra_dirs@);
    let mut extra: Vec<(String, String)> = Vec::new();
    let mut i: usize = 0;
    assert(pairs(extra@) =~= extra_targets(root@, all.take(0)));
    while i < config.extra_dirs.len()
        invariant
            i <= config.extra_dirs.len(),
            all == pairs(config.extra_dirs@),
            pairs(extra@) == extra_targets(root@, all.take(i as int)),
        decreases config.extra_dirs.len() - i,
    {
        let ghost before = extra@;
        let to = join_path(root.as_str(), config.extra_dirs[i].1.as_str());
        let e = (config.extra_dirs[i].0.clone(), to);
        extra.push(e);
        proof {
            assert(pairs(extra@) =~= pairs(before).push((e.0@, e.1@)));
            assert(all.take(i + 1) =~= all.take(i as int).push(all[i as int]));
            assert(extra_targets(root@, all.take(i + 1)) =~= extra_targets(
                root@,
                all.take(i as int),
            ).push((e.0@, e.1@)));
        }
        i = i + 1;
    }
    assert(all.take(all.len() as int) =~= all);
    GuiLaunch {
        directories: config.skeleton(),
        app_dir: config.staged_app_dir(),
        extra,
        desktop: concat2("Psroot-", config.container_name.as_str()),
        command_line: config.launch_line(),
        directory: root,
    }
}

/// The steps of running a staged program to its end. A step that fails ends the
/// run with its error; the steps after it are not taken.
#[derive(Clone, Copy, Debug, PartialEq, Eq, Structural)]
pub enum GuiStep {
    /// The directories of the launch are made.
    MakeDirectories,
    /// The files of the program are staged.
    StageApp,
    /// The files of one of the further directories are staged.
    StageExtra(usize),
    CreateDesktop,
    Start,
    /// The program ends; its exit code is the result.
    Wait,
    /// The root directory is removed, if that can be done.
    RemoveRoot,
}

/// The steps of running a program with `extra` further directories.
pub open spec fn gui_script(extra: nat) -> Seq<GuiStep> {
    seq![GuiStep::MakeDirectories, GuiStep::StageApp] + Seq::new(
        extra,
        |i: int| GuiStep::StageExtra(i as usize),
    ) + seq![GuiStep::CreateDesktop, GuiStep::Start, GuiStep::Wait, GuiStep::RemoveRoot]
}

/// How a staged program is run to its end on a desktop of its own.
pub fn stage_and_run_gui(config: &AppStageConfig) -> (r: (GuiLaunch, Vec<GuiStep>))
    ensures
        r.0.launches(*config),
        r.1@ == gui_script(config.extra_dirs@.len()),
{
    let l = stage_and_spawn_gui(config);
    let n: usize = config.extra_dirs.len();
    let mut v = vec![GuiStep::MakeDirectories, GuiStep::StageApp];
    let mut i: usize = 0;
    while i < n
        invariant
            i <= n,
            v@ == seq![GuiStep::MakeDirectories, GuiStep::StageApp] + Seq::new(
                i as nat,
                |j: int| GuiStep::StageExtra(j as usize),
            ),
        decreases n - i,
    {
        v.push(GuiStep::StageExtra(i));
        i = i + 1;
    }
    v.push(GuiStep::CreateDesktop);
    v.push(GuiStep::Start);
    v.push(GuiStep::Wait);
    v.push(GuiStep::RemoveRoot);
    assert(v@ =~= gui_script(n as nat));
    (l, v)
}

/// Every file is staged before the program is started, and the root directory
/// is removed only after the program has ended.
pub proof fn law_program_runs_on_staged_files(extra: nat, i: int, j: int)
    requires
        0 <= i < gui_script(extra).len(),
        0 <= j < gui_script(extra).len(),
        i < j,
    ensures
        gui_script(extra)[i] == GuiStep::Start ==> gui_script(extra)[j] == GuiStep::Wait
            || gui_script(extra)[j] == GuiStep::RemoveRoot,
        gui_script(extra)[i] != GuiStep::RemoveRoot,
        gui_script(extra)[j] == GuiStep::RemoveRoot ==> gui_script(extra).take(j).contains(
            GuiStep::Wait,
        ),
{
    let s = gui_script(extra);
    if s[j] == GuiStep::RemoveRoot {
        assert(s.take(j)[j - 1] == GuiStep::Wait);
    }
}

/// The staged program lies in the container, whatever its path on the host and
/// its app root are.
pub proof fn law_program_stays_inside(c: AppStageConfig)
    ensures
        c.app_dir().is_prefix_of(c.staged_exe()),
        c.rootfs().is_prefix_of(c.staged_exe()),
{
    reveal_strlit("App");
    let a = c.app_dir();
    let e = c.staged_exe();
    assert(e.subrange(0, a.len() as int) =~= a);
    assert(c.rootfs().is_prefix_of(a)) by {
        assert(a.subrange(0, c.rootfs().len() as int) =~= c.rootfs());
    }
    assert(e.subrange(0, c.rootfs().len() as int) =~= c.rootfs());
}

/// A program whose app root is the directory that holds it is started from the
/// directory `App`, under its own name.
pub proof fn law_staged_under_own_name(c: AppStageConfig, name: Seq<char>)
    requires
        c.exe_path@ == c.app_root@ + "\\"@ + name,
        drive_len(c.app_root@) < c.app_root@.len(),
        is_name(name),
        drive_len(name) == 0,
    ensures
        c.staged_exe() == c.app_dir() + "\\"@ + name,
{
    law_beyond_undoes_join(c.app_root@, name);
}

/// The directories that are made before a program is staged.
pub open spec fn first_dirs(root: Seq<char>) -> Seq<Seq<char>> {
    seq![
        joined_path(root, "App"@),
        joined_path(joined_path(root, "Users"@), "ContainerUser"@),
        joined_path(root, "Temp"@),
    ]
}

/// What staging did.
#[derive(Clone, Copy, Debug, PartialEq, Eq, Structural)]
pub struct StageStats {
    pub files_staged: u64,
    pub hardlinked: u64,
    pub copied: u64,
    pub skipped: u64,
}

impl Default for StageStats {
    fn default() -> (s: Self)
        ensures
            s == (StageStats { files_staged: 0, hardlinked: 0, copied: 0, skipped: 0 }),
    {
        StageStats { files_staged: 0, hardlinked: 0, copied: 0, skipped: 0 }
    }
}

/// What is done with an entry of a directory.
#[derive(Clone, Copy, Debug, PartialEq, Eq, Structural)]
pub enum EntryAction {
    /// It is left out, and counted as such.
    Skip,
    /// A directory: it is made, and its entries are looked at.
    Descend,
    /// A file: it is linked, or copied where that fails.
    Stage,
    /// Neither: it is passed over.
    Ignore,
}

/// What became of an entry.
#[derive(Clone, Copy, Debug, PartialEq, Eq, Structural)]
pub enum Staged {
    Linked,
    Copied,
    Skipped,
}

/// The counts of what staging did, without a limit.
pub struct Tally {
    pub files_staged: nat,
    pub hardlinked: nat,
    pub copied: nat,
    pub skipped: nat,
}

impl Tally {
    /// The counts after one more entry.
    pub open spec fn counted(self, what: Staged) -> Tally {
        match what {
            Staged::Linked => Tally {
                hardlinked: self.hardlinked + 1,
                files_staged: self.files_staged + 1,
                ..self
            },
            Staged::Copied => Tally {
                copied: self.copied + 1,
                files_staged: self.files_staged + 1,
                ..self
            },
            Staged::Skipped => Tally { skipped: self.skipped + 1, ..self },
        }
    }
}

impl View for StageStats {
    type V = Tally;

    open spec fn view(&self) -> Tally {
        Tally {
            files_staged: self.files_staged as nat,
            hardlinked: self.hardlinked as nat,
            copied: self.copied as nat,
            skipped: self.skipped as nat,
        }
    }
}

impl StageStats {
    /// Every staged file was linked or copied.
    pub open spec fn consistent(self) -> bool {
        self.files_staged == self.hardlinked + self.copied
    }

    /// Counts one more entry.
    pub fn record(&mut self, what: Staged)
        requires
            old(self).consistent(),
            old(self).files_staged < u64::MAX,
            old(self).skipped < u64::MAX,
        ensures
            final(self)@ == old(self)@.counted(what),
            final(self).consistent(),
    {
        match what {
            Staged::Linked => {
                self.hardlinked = self.hardlinked + 1;
                self.files_staged = self.files_staged + 1;
            },
            Staged::Copied => {
                self.copied = self.copied + 1;
                self.files_staged = self.files_staged + 1;
            },
            Staged::Skipped => {
                self.skipped = self.skipped + 1;
            },
        }
    }
}

/// A path with slashes in place of backslashes.
pub open spec fn slashed(s: Seq<char>) -> Seq<char> {
    s.map_values(
        |c: char|
            if c == '\\' {
                '/'
            } else {
                c
            },
    )
}

fn with_slashes(s: &str) -> (r: String)
    ensures
        r@ == slashed(s@),
{
    let v = chars_of(s);
    let mut r = String::new();
    let mut i: usize = 0;
    while i < v.len()
        invariant
            v@ == s@,
            i <= v.len(),
            r@ == slashed(s@).take(i as int),
        decreases v.len() - i,
    {
        r.push(
            if v[i] == '\\' {
                '/'
            } else {
                v[i]
            },
        );
        assert(slashed(s@).take(i + 1) =~= slashed(s@).take(i as int).push(slashed(s@)[i as int]));
        i = i + 1;
    }
    assert(slashed(s@).take(s@.len() as int) =~= slashed(s@));
    r
}

/// What is done with an entry: `path` lies in the tree `root`, `sizes` holds the
/// sizes of a file and of what is at its target already, where both are there.
pub open spec fn action_for(
    path: Seq<char>,
    root: Seq<char>,
    excludes: Seq<Seq<char>>,
    is_dir: bool,
    is_file: bool,
    sizes: Option<(u64, u64)>,
) -> EntryAction {
    if any_matches(slashed(relative(path, root)), excludes) {
        EntryAction::Skip
    } else if is_dir {
        EntryAction::Descend
    } else if is_file {
        match sizes {
            Some((a, b)) => if a == b {
                EntryAction::Skip
            } else {
                EntryAction::Stage
            },
            None => EntryAction::Stage,
        }
    } else {
        EntryAction::Ignore
    }
}

/// What is done with an entry of a directory.
pub fn walk_and_stage(
    path: &str,
    root: &str,
    excludes: &Vec<String>,
    is_dir: bool,
    is_file: bool,
    sizes: Option<(u64, u64)>,
) -> (a: EntryAction)
    ensures
        a == action_for(path@, root@, texts(excludes@), is_dir, is_file, sizes),
{
    let rel = relative_to(path, root);
    let rel = with_slashes(rel.as_str());
    if matches_glob(rel.as_str(), excludes) {
        return EntryAction::Skip;
    }
    if is_dir {
        EntryAction::Descend
    } else if is_file {
        match sizes {
            Some((a, b)) => if a == b {
                EntryAction::Skip
            } else {
                EntryAction::Stage
            },
            None => EntryAction::Stage,
        }
    } else {
        EntryAction::Ignore
    }
}

/// An entry that is come across where a tree is staged.
pub struct TreeEntry {
    pub path: Seq<char>,
    pub is_dir: bool,
    pub is_file: bool,
    pub size: u64,
    /// The size of what is at its target, if something is there.
    pub target: Option<u64>,
    /// What becomes of it where it is to be staged.
    pub outcome: Staged,
}

impl TreeEntry {
    pub open spec fn action(self, root: Seq<char>, excludes: Seq<Seq<char>>) -> EntryAction {
        action_for(
            self.path,
            root,
            excludes,
            self.is_dir,
            self.is_file,
            match self.target {
                Some(t) => Some((self.size, t)),
                None => None,
            },
        )
    }

    /// The entry after the tree was staged.
    pub open spec fn after(self, root: Seq<char>, excludes: Seq<Seq<char>>) -> TreeEntry {
        if self.action(root, excludes) == EntryAction::Stage && self.outcome != Staged::Skipped {
            TreeEntry { target: Some(self.size), ..self }
        } else {
            self
        }
    }
}

/// The counts after one more entry was looked at.
pub open spec fn looked_at(
    stats: Tally,
    e: TreeEntry,
    root: Seq<char>,
    excludes: Seq<Seq<char>>,
) -> Tally {
    match e.action(root, excludes) {
        EntryAction::Skip => stats.counted(Staged::Skipped),
        EntryAction::Stage => stats.counted(e.outcome),
        EntryAction::Descend | EntryAction::Ignore => stats,
    }
}

/// The counts after a tree was staged, from the entries that were come across.
pub open spec fn tree_stats(
    entries: Seq<TreeEntry>,
    root: Seq<char>,
    excludes: Seq<Seq<char>>,
) -> Tally
    decreases entries.len(),
{
    if entries.len() == 0 {
        Tally { files_staged: 0, hardlinked: 0, copied: 0, skipped: 0 }
    } else {
        looked_at(
            tree_stats(entries.drop_last(), root, excludes),
            entries.last(),
            root,
            excludes,
        )
    }
}

/// The entries after the tree was staged.
pub open spec fn staged_tree(
    entries: Seq<TreeEntry>,
    root: Seq<char>,
    excludes: Seq<Seq<char>>,
) -> Seq<TreeEntry> {
    entries.map_values(|e: TreeEntry| e.after(root, excludes))
}

/// Staging a tree again, after every file that was not excluded was staged,
/// stages nothing and skips all that was staged or skipped before.
pub proof fn law_staging_again_skips(
    entries: Seq<TreeEntry>,
    root: Seq<char>,
    excludes: Seq<Seq<char>>,
)
    requires
        forall|i: int|
            0 <= i < entries.len() && (#[trigger] entries[i]).action(root, excludes)
                == EntryAction::Stage ==> entries[i].outcome != Staged::Skipped,
    ensures
        ({
            let a = tree_stats(entries, root, excludes);
            let b = tree_stats(staged_tree(entries, root, excludes), root, excludes);
            &&& b.files_staged == 0 && b.hardlinked == 0 && b.copied == 0
            &&& b.skipped == a.files_staged + a.skipped
        }),
    decreases entries.len(),
{
    if entries.len() > 0 {
        let init = entries.drop_last();
        let e = entries.last();
        assert(entries[entries.len() - 1] == e);
        assert forall|i: int| 0 <= i < init.len() && (#[trigger] init[i]).action(root, excludes)
            == EntryAction::Stage implies init[i].outcome != Staged::Skipped by {
            assert(entries[i] == init[i]);
        }
        law_staging_again_skips(init, root, excludes);
        let t = staged_tree(entries, root, excludes);
        assert(t.drop_last() =~= staged_tree(init, root, excludes));
        assert(t.last() == e.after(root, excludes));
    }
}

/// Where an entry of the tree `root` is staged below `target`.
pub fn staged_target(path: &str, root: &str, target: &str) -> (s: String)
    ensures
        s@ == joined_path(target@, relative(path@, root@)),
{
    let rel = relative_to(path, root);
    join_path(target, rel.as_str())
}

/// A program is staged into a directory of its own below the one for temporary
/// files, with the directories that programs expect and the files of the program
/// in `App`.
pub proof fn law_staging_directories(c: AppStageConfig, temp: Seq<char>, exe: Seq<char>, pid: u32)
    requires
        c.made_for(exe, pid, temp),
        goes_on(c.container_name@),
    ensures
        c.exe_path@ == exe,
        c.container_name@ == file_stem(exe) + "-"@ + decimal(pid as nat),
        c.rootfs() == inside(inside(temp) + "psroot-containers"@) + c.container_name@,
        c.app_dir() == inside(c.rootfs()) + "App"@,
        first_dirs(c.rootfs()) == seq![
            inside(c.rootfs()) + "App"@,
            inside(c.rootfs()) + "Users\\ContainerUser"@,
            inside(c.rootfs()) + "Temp"@,
        ],
        texts(c.exclude@) == seq!["*.pdb"@, "**/Installer/**"@, "**/*.log"@],
        c.network,
        c.args@.len() == 0 && c.extra_dirs@.len() == 0,
{
    reveal_strlit("psroot-containers");
    reveal_strlit("App");
    reveal_strlit("Users");
    reveal_strlit("ContainerUser");
    reveal_strlit("Users\\ContainerUser");
    reveal_strlit("Temp");
    let r = c.rootfs();
    let u = joined_path(r, "Users"@);
    law_join_goes_below(temp, "psroot-containers"@);
    law_join_goes_below(c.rootfs_base@, c.container_name@);
    law_join_goes_below(r, "App"@);
    law_join_goes_below(r, "Users"@);
    law_join_goes_below(r, "Temp"@);
    law_join_goes_below(u, "ContainerUser"@);
    assert(u.last() == 's');
    assert(inside(u) + "ContainerUser"@ =~= inside(r) + "Users\\ContainerUser"@);
    assert(literals(DEFAULT_EXCLUDES@) =~= seq!["*.pdb"@, "**/Installer/**"@, "**/*.log"@]);
}

/// A staged program with windows runs from its root directory, on a desktop with
/// its container's name, with the arguments that were given, and further
/// directories of the host lie below the root under their names.
pub proof fn law_gui_launch(l: GuiLaunch, c: AppStageConfig, i: int)
    requires
        l.launches(c),
    ensures
        texts(l.directories@) == first_dirs(c.rootfs()),
        l.app_dir@ == c.app_dir(),
        l.directory@ == c.rootfs(),
        l.desktop@ == "Psroot-"@ + c.container_name@,
        l.command_line@ == command_line(c.staged_exe(), texts(c.args@)),
        pairs(l.extra@).len() == c.extra_dirs@.len(),
        0 <= i < c.extra_dirs@.len() ==> pairs(l.extra@)[i].0 == c.extra_dirs@[i].0@,
        0 <= i < c.extra_dirs@.len() && goes_on(c.extra_dirs@[i].1@) ==> pairs(l.extra@)[i].1
            == inside(c.rootfs()) + c.extra_dirs@[i].1@,
{
    if 0 <= i < c.extra_dirs@.len() {
        law_join_goes_below(c.rootfs(), c.extra_dirs@[i].1@);
    }
}

/// A program that lies in a system directory is staged alone, under its own
/// name; any other with the whole of its directory.
pub proof fn law_system_programs_are_alone(c: AppStageConfig, name: Seq<char>)
    requires
        file_name(c.exe_path@) == Some(name),
        goes_on(name),
    ensures
        c.alone() is Some <==> system_dir(unicode_lower(c.app_root@)),
        c.alone() matches Some(t) ==> t == inside(c.app_dir()) + name,
{
    law_join_goes_below(c.app_dir(), name);
}

/// The steps of running a staged program, for any number of further directories:
/// directories, the program, each further directory, the desktop, the program's
/// run, and the end.
pub proof fn law_gui_steps(extra: nat, i: int)
    ensures
        gui_script(extra).len() == extra + 6,
        gui_script(extra)[0] == GuiStep::MakeDirectories,
        gui_script(extra)[1] == GuiStep::StageApp,
        0 <= i < extra ==> gui_script(extra)[i + 2] == GuiStep::StageExtra(i as usize),
        gui_script(extra)[extra as int + 2] == GuiStep::CreateDesktop,
        gui_script(extra)[extra as int + 3] == GuiStep::Start,
        gui_script(extra)[extra as int + 4] == GuiStep::Wait,
        gui_script(extra)[extra as int + 5] == GuiStep::RemoveRoot,
{
}

/// The system directories of a host are Windows itself and those below it.
pub proof fn law_system_directories(lowered: Seq<char>)
    ensures
        system_dir(lowered) <==> {
            ||| occurs(lowered, "\\windows\\system32"@)
            ||| occurs(lowered, "\\windows\\syswow64"@)
            ||| occurs(lowered, "\\windows\\system"@)
            ||| occurs(lowered, "\\windows\\winsxs"@)
            ||| exists|above: Seq<char>| lowered == #[trigger] (above + "\\windows"@)
        },
{
    let m = literals(SYSTEM_MARKERS@);
    assert(m[0] == "\\windows\\system32"@ && m[1] == "\\windows\\syswow64"@);
    assert(m[2] == "\\windows\\system"@ && m[3] == "\\windows\\winsxs"@);
    reveal_strlit("\\windows");
    if is_windows(lowered) {
        let above = lowered.take(lowered.len() - 8);
        assert(lowered =~= above + "\\windows"@);
    }
    if exists|above: Seq<char>| lowered == #[trigger] (above + "\\windows"@) {
        let above = choose|above: Seq<char>| lowered == #[trigger] (above + "\\windows"@);
        assert(lowered.skip(lowered.len() - 8) =~= "\\windows"@);
    }
}

/// The root of a program is the directory that it lies in, or the one above
/// where that is called `bin` or `app` and is no system directory.
pub proof fn law_app_root(exe: Seq<char>, dir: Seq<char>, name: Seq<char>, above: Seq<char>)
    requires
        parent(exe) == Some(dir),
        file_name(dir) == Some(name),
        parent(dir) == Some(above),
    ensures
        system_dir(unicode_lower(dir)) ==> app_root(exe) == dir,
        !system_dir(unicode_lower(dir)) && (unicode_lower(name) == "bin"@ || unicode_lower(name)
            == "app"@) ==> app_root(exe) == above,
        unicode_lower(name) != "bin"@ && unicode_lower(name) != "app"@ ==> app_root(exe) == dir,
{
}

/// A program's name is that of its file without the extension.
pub proof fn law_stem(name: Seq<char>, extension: Seq<char>)
    requires
        name.len() > 0,
        !extension.contains('.'),
    ensures
        stem(name.push('.') + extension) == name,
        !name.contains('.') ==> stem(name) == name,
{
    let s = name.push('.') + extension;
    lemma_rfind_bounds(s, '.');
    lemma_rfind_bounds(name, '.');
    let i = rfind(s, '.');
    assert(s[name.len() as int] == '.');
    if i > name.len() {
        assert(extension[i - name.len() - 1] == s[i]);
    }
    assert(s.take(name.len() as int) =~= name);
}

/// What is excluded is left out; a directory is entered; a file is staged unless
/// one of its size is there already; and anything else is passed over.
pub proof fn law_entry_actions(
    path: Seq<char>,
    root: Seq<char>,
    excludes: Seq<Seq<char>>,
    a: u64,
    b: u64,
)
    ensures
        ({
            let out = any_matches(slashed(relative(path, root)), excludes);
            &&& forall|d: bool, f: bool, s: Option<(u64, u64)>|
                out ==> #[trigger] action_for(path, root, excludes, d, f, s) == EntryAction::Skip
            &&& !out ==> forall|f: bool, s: Option<(u64, u64)>| #[trigger]
                action_for(path, root, excludes, true, f, s) == EntryAction::Descend
            &&& !out ==> action_for(path, root, excludes, false, true, None) == EntryAction::Stage
            &&& !out && a == b ==> action_for(path, root, excludes, false, true, Some((a, b)))
                == EntryAction::Skip
            &&& !out && a != b ==> action_for(path, root, excludes, false, true, Some((a, b)))
                == EntryAction::Stage
            &&& !out ==> forall|s: Option<(u64, u64)>| #[trigger]
                action_for(path, root, excludes, false, false, s) == EntryAction::Ignore
        }),
{
}

/// Patterns see the path of a file from the root of its tree, with slashes, and
/// the file goes to the same path below the target.
pub proof fn law_paths_are_kept(root: Seq<char>, name: Seq<char>, target: Seq<char>)
    requires
        drive_len(root) < root.len(),
        is_name(name),
        drive_len(name) == 0,
    ensures
        relative(root + "\\"@ + name, root) == name,
        slashed(relative(root + "\\"@ + name, root)) == name,
        joined_path(target, relative(root + "\\"@ + name, root)) == inside(target) + name,
        forall|i: int|
            0 <= i < name.len() ==> #[trigger] slashed(name)[i] == (if name[i] == '\\' {
                '/'
            } else {
                name[i]
            }),
{
    law_beyond_undoes_join(root, name);
    law_join_goes_below(target, name);
    assert(slashed(name) =~= name);
}

/// Every entry is counted once, and a staged file is one that was linked or
/// copied.
pub proof fn law_tally(t: Tally, what: Staged)
    ensures
        t.counted(what).files_staged + t.counted(what).skipped == t.files_staged + t.skipped + 1,
        t.files_staged == t.hardlinked + t.copied ==> t.counted(what).files_staged
            == t.counted(what).hardlinked + t.counted(what).copied,
        t.counted(what).hardlinked == t.hardlinked + 1 <==> what == Staged::Linked,
        t.counted(what).copied == t.copied + 1 <==> what == Staged::Copied,
        t.counted(what).skipped == t.skipped + 1 <==> what == Staged::Skipped,
{
}

} // verus!
