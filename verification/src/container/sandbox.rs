//! The rules of the sandbox: names, capabilities, command lines, and where the
//! paths of the host are seen from inside.

use crate::container::config::{NetworkAccess, VolumeMount};
use crate::paths::{drive_len, is_sep, rooted};
use crate::text::{
    char_is_alpha, char_is_space, chars_of, concat2, concat3, decimal, decimal_text, is_alpha,
    is_ascii_char, is_space, lemma_split_concat, lemma_split_one, occurs, skip, split, split_char, starts_with, take, texts, trim,
    trim_start_of, trimmed, trimmed_start_of,
};
use vstd::prelude::*;
use vstd::string::*;

verus! {

/// What the host offers for isolation.
#[derive(Clone, Copy, Debug, PartialEq, Eq, Structural)]
pub struct IsolationLevel {
    pub appcontainer: bool,
    pub env_sanitized: bool,
    pub bind_filter: bool,
    pub server_silo: bool,
    pub is_admin: bool,
    pub build_number: u32,
}

impl IsolationLevel {
    pub open spec fn tier(self) -> Seq<char> {
        if self.server_silo {
            "Full (Silo + AppContainer + Env)"@
        } else if self.bind_filter {
            "Enhanced (AppContainer + BindFilter + Env)"@
        } else if self.appcontainer {
            "Standard (AppContainer + ProcShim + Env)"@
        } else {
            "Basic (Restricted Token + Env)"@
        }
    }

    /// The name of the level.
    pub fn tier_name(&self) -> (s: &'static str)
        ensures
            s@ == self.tier(),
    {
        if self.server_silo {
            "Full (Silo + AppContainer + Env)"
        } else if self.bind_filter {
            "Enhanced (AppContainer + BindFilter + Env)"
        } else if self.appcontainer {
            "Standard (AppContainer + ProcShim + Env)"
        } else {
            "Basic (Restricted Token + Env)"
        }
    }

    /// The warnings about what is missing, a line each.
    pub open spec fn warnings_text(self) -> Seq<Seq<char>> {
        let build = decimal(self.build_number as nat);
        (if !self.is_admin {
            seq![
                "  ⚠ Non-admin: some isolation features unavailable"@,
                "    Run as Administrator for: bind filter, server silos"@,
            ]
        } else {
            Seq::empty()
        }) + (if !self.appcontainer {
            seq!["  ⚠ AppContainer APIs unavailable — using restricted token fallback"@]
        } else {
            Seq::empty()
        }) + (if self.is_admin && !self.bind_filter {
            seq![
                "  ℹ Bind filter needs Windows 11 24H2+ (build 26100, current: "@ + build
                    + ")"@,
            ]
        } else {
            Seq::empty()
        }) + (if self.is_admin && !self.server_silo {
            seq![
                "  ℹ Server silos need Windows 10 1809+ (build 17763, current: "@ + build
                    + ")"@,
            ]
        } else {
            Seq::empty()
        })
    }

    /// The warnings about what is missing, a line each.
    pub fn print_warnings(&self) -> (v: Vec<String>)
        ensures
            texts(v@) == self.warnings_text(),
    {
        let mut v: Vec<String> = Vec::new();
        let build = decimal_text(self.build_number as u128);
        if !self.is_admin {
            v.push("  ⚠ Non-admin: some isolation features unavailable".to_owned());
            v.push("    Run as Administrator for: bind filter, server silos".to_owned());
        }
        if !self.appcontainer {
            v.push(
                "  ⚠ AppContainer APIs unavailable — using restricted token fallback".to_owned(),
            );
        }
        if self.is_admin && !self.bind_filter {
            v.push(
                concat3(
                    "  ℹ Bind filter needs Windows 11 24H2+ (build 26100, current: ",
                    build.as_str(),
                    ")",
                ),
            );
        }
        if self.is_admin && !self.server_silo {
            v.push(
                concat3(
                    "  ℹ Server silos need Windows 10 1809+ (build 17763, current: ",
                    build.as_str(),
                    ")",
                ),
            );
        }
        assert(texts(v@) =~= self.warnings_text());
        v
    }
}

/// The last but one piece of a path, or `default` where it has only one.
pub open spec fn owner_of(path: Seq<char>, default: Seq<char>) -> Seq<char> {
    let p = split(path, '\\');
    if p.len() >= 2 {
        p[p.len() - 2]
    } else {
        default
    }
}

/// The id of the container that a root directory belongs to: the directory that
/// holds it.
pub fn container_id_of(rootfs: &str, default: &str) -> (id: String)
    ensures
        id@ == owner_of(rootfs@, default@),
{
    let parts = split_char(rootfs, '\\');
    assert(texts(parts@).len() == parts@.len());
    if parts.len() >= 2 {
        assert(texts(parts@)[parts@.len() - 2] == parts@[parts@.len() - 2]@);
        parts[parts.len() - 2].clone()
    } else {
        default.to_owned()
    }
}

/// The number of the right to open outgoing connections.
pub const CAPABILITY_INTERNET_CLIENT: i32 = 86;

/// The number of the right to accept connections too.
pub const CAPABILITY_INTERNET_CLIENT_SERVER: i32 = 87;

/// The number of the right to do so on a private network.
pub const CAPABILITY_PRIVATE_NETWORK: i32 = 88;

/// The rights that a sandboxed process gets on the network.
pub open spec fn network_capabilities(network: NetworkAccess) -> Seq<i32> {
    match network {
        NetworkAccess::Off => Seq::empty(),
        NetworkAccess::Outbound | NetworkAccess::Netstack => seq![CAPABILITY_INTERNET_CLIENT],
        NetworkAccess::Full => seq![
            CAPABILITY_INTERNET_CLIENT,
            CAPABILITY_INTERNET_CLIENT_SERVER,
            CAPABILITY_PRIVATE_NETWORK,
        ],
    }
}

pub fn build_network_capabilities(network: NetworkAccess) -> (v: Vec<i32>)
    ensures
        v@ == network_capabilities(network),
{
    let v: Vec<i32> = match network {
        NetworkAccess::Off => Vec::new(),
        NetworkAccess::Outbound => vec![CAPABILITY_INTERNET_CLIENT],
        NetworkAccess::Netstack => vec![CAPABILITY_INTERNET_CLIENT],
        NetworkAccess::Full => vec![
            CAPABILITY_INTERNET_CLIENT,
            CAPABILITY_INTERNET_CLIENT_SERVER,
            CAPABILITY_PRIVATE_NETWORK,
        ],
    };
    assert(v@ =~= network_capabilities(network));
    v
}

/// Only full access lets a container accept connections.
pub proof fn law_only_full_access_listens(network: NetworkAccess)
    ensures
        network_capabilities(network).contains(CAPABILITY_INTERNET_CLIENT_SERVER)
            <==> network == NetworkAccess::Full,
        network_capabilities(network).contains(CAPABILITY_INTERNET_CLIENT)
            <==> network != NetworkAccess::Off,
{
    let s = network_capabilities(network);
    if network == NetworkAccess::Full {
        assert(s[1] == CAPABILITY_INTERNET_CLIENT_SERVER);
        assert(s[0] == CAPABILITY_INTERNET_CLIENT);
    }
    if network == NetworkAccess::Outbound || network == NetworkAccess::Netstack {
        assert(s[0] == CAPABILITY_INTERNET_CLIENT);
    }
}

/// A backslash before each quotation mark.
pub open spec fn quotes_escaped(s: Seq<char>) -> Seq<char>
    decreases s.len(),
{
    if s.len() == 0 {
        s
    } else if s.last() == '"' {
        quotes_escaped(s.drop_last()).push('\\').push('"')
    } else {
        quotes_escaped(s.drop_last()).push(s.last())
    }
}

/// Whether a string needs quotation marks on a command line.
pub open spec fn needs_quotes(s: Seq<char>) -> bool {
    exists|i: int| 0 <= i < s.len() && (is_space(#[trigger] s[i]) || s[i] == '"')
}

/// A string as it stands on a command line.
pub open spec fn quoted(s: Seq<char>) -> Seq<char> {
    if s.len() == 0 {
        "\"\""@
    } else if needs_quotes(s) {
        seq!['"'] + quotes_escaped(s) + seq!['"']
    } else {
        s
    }
}

/// A string as it stands on a command line.
pub fn quote_arg(s: &str) -> (q: String)
    ensures
        q@ == quoted(s@),
{
    let v = chars_of(s);
    if v.len() == 0 {
        return "\"\"".to_owned();
    }
    let mut needed = false;
    let mut i: usize = 0;
    while i < v.len() && !needed
        invariant
            v@ == s@,
            i <= v.len(),
            needed ==> needs_quotes(s@),
            !needed ==> forall|j: int|
                0 <= j < i ==> !(is_space(#[trigger] s@[j]) || s@[j] == '"'),
        decreases v.len() - i, !needed as int,
    {
        let c: char = v[i];
        assert(c == s@[i as int]);
        if char_is_space(c) || c == '"' {
            needed = true;
        } else {
            i = i + 1;
        }
    }
    if !needed {
        return s.to_owned();
    }
    let mut q = String::new();
    q.push('"');
    let mut k: usize = 0;
    assert(s@.take(0) =~= Seq::<char>::empty());
    assert(q@ =~= seq!['"'] + quotes_escaped(s@.take(0)));
    while k < v.len()
        invariant
            v@ == s@,
            k <= v.len(),
            q@ == seq!['"'] + quotes_escaped(s@.take(k as int)),
        decreases v.len() - k,
    {
        proof {
            let t = s@.take(k + 1);
            assert(t.drop_last() =~= s@.take(k as int));
            assert(t.last() == v[k as int]);
        }
        if v[k] == '"' {
            q.push('\\');
        }
        q.push(v[k]);
        assert(q@ =~= seq!['"'] + quotes_escaped(s@.take(k + 1)));
        k = k + 1;
    }
    assert(s@.take(s@.len() as int) =~= s@);
    q.push('"');
    assert(q@ =~= quoted(s@));
    q
}

/// A program and its arguments as a command line.
pub open spec fn command_line(entry: Seq<char>, args: Seq<Seq<char>>) -> Seq<char>
    decreases args.len(),
{
    if args.len() == 0 {
        quoted(entry)
    } else {
        command_line(entry, args.drop_last()) + " "@ + quoted(args.last())
    }
}

pub fn build_command_line(entry: &str, args: &Vec<String>) -> (line: String)
    ensures
        line@ == command_line(entry@, texts(args@)),
{
    let mut line = quote_arg(entry);
    let ghost all = texts(args@);
    let mut i: usize = 0;
    assert(all.take(0) =~= Seq::<Seq<char>>::empty());
    while i < args.len()
        invariant
            i <= args.len(),
            all == texts(args@),
            line@ == command_line(entry@, all.take(i as int)),
        decreases args.len() - i,
    {
        let q = quote_arg(args[i].as_str());
        line = concat3(line.as_str(), " ", q.as_str());
        proof {
            let t = all.take(i + 1);
            assert(t.drop_last() =~= all.take(i as int));
            assert(t.last() == args[i as int]@);
        }
        i = i + 1;
    }
    assert(all.take(all.len() as int) =~= all);
    line
}

/// The directory that a process starts in: the configured one if it lies in the
/// root directory, else the root's directory for temporary files.
pub open spec fn start_dir(working_directory: Seq<char>, root: Seq<char>) -> Seq<char> {
    if root.is_prefix_of(working_directory) {
        working_directory
    } else {
        root + "\\Temp"@
    }
}

pub fn start_directory(working_directory: &str, root: &str) -> (s: String)
    ensures
        s@ == start_dir(working_directory@, root@),
{
    if starts_with(working_directory, root) {
        working_directory.to_owned()
    } else {
        concat2(root, "\\Temp")
    }
}

/// The drive `drive` with what follows it, or its root where nothing does.
pub open spec fn on_drive(drive: Seq<char>, rest: Seq<char>) -> Seq<char> {
    drive + (if rest.len() == 0 {
        "\\"@
    } else {
        rest
    })
}

/// Where a path of the host is seen when the root directory is drive `C:`.
pub open spec fn seen_in_devicemap(path: Seq<char>, root: Seq<char>) -> Seq<char> {
    if root.is_prefix_of(path) {
        on_drive("C:"@, path.skip(root.len() as int))
    } else {
        path
    }
}

/// Where a path of the host is seen in a silo, in which the root directory is
/// drive `C:` and the directory of the cached shells, `parent`, is drive `P:`.
/// The directory `PSH` in the root directory stands for the cached shell.
pub open spec fn seen_in_silo(
    path: Seq<char>,
    root: Seq<char>,
    cache: Seq<char>,
    parent: Seq<char>,
) -> Seq<char> {
    let psh = root + "\\PSH"@;
    if psh.is_prefix_of(path) {
        let cached = cache + path.skip(psh.len() as int);
        if parent.is_prefix_of(cached) {
            on_drive("P:"@, cached.skip(parent.len() as int))
        } else {
            cached
        }
    } else if parent.is_prefix_of(path) {
        on_drive("P:"@, path.skip(parent.len() as int))
    } else if root.is_prefix_of(path) {
        on_drive("C:"@, path.skip(root.len() as int))
    } else {
        path
    }
}

fn put_on_drive(drive: &str, rest: &str) -> (s: String)
    ensures
        s@ == on_drive(drive@, rest@),
{
    if rest.is_empty() {
        concat2(drive, "\\")
    } else {
        concat2(drive, rest)
    }
}

fn after_prefix(path: &str, prefix: &str) -> (r: Option<String>)
    ensures
        match r {
            Some(s) => prefix@.is_prefix_of(path@) && s@ == path@.skip(prefix@.len() as int),
            None => !prefix@.is_prefix_of(path@),
        },
{
    if starts_with(path, prefix) {
        let n: usize = chars_of(prefix).len();
        Some(skip(path, n))
    } else {
        None
    }
}

pub fn translate_devicemap(path: &str, root: &str) -> (s: String)
    ensures
        s@ == seen_in_devicemap(path@, root@),
{
    match after_prefix(path, root) {
        Some(rest) => put_on_drive("C:", rest.as_str()),
        None => path.to_owned(),
    }
}

pub fn translate_silo(path: &str, root: &str, cache: &str, parent: &str) -> (s: String)
    ensures
        s@ == seen_in_silo(path@, root@, cache@, parent@),
{
    let psh = concat2(root, "\\PSH");
    match after_prefix(path, psh.as_str()) {
        Some(rest) => {
            let cached = concat2(cache, rest.as_str());
            match after_prefix(cached.as_str(), parent) {
                Some(r) => put_on_drive("P:", r.as_str()),
                None => cached,
            }
        },
        None => match after_prefix(path, parent) {
            Some(r) => put_on_drive("P:", r.as_str()),
            None => match after_prefix(path, root) {
                Some(r) => put_on_drive("C:", r.as_str()),
                None => path.to_owned(),
            },
        },
    }
}

/// A path in the root directory is seen on drive `C:`, under the same path from
/// there.
pub proof fn law_root_is_drive_c(root: Seq<char>, rest: Seq<char>)
    requires
        rest.len() > 0,
    ensures
        seen_in_devicemap(root + rest, root) == "C:"@ + rest,
        seen_in_devicemap(root, root) == "C:\\"@,
{
    reveal_strlit("C:");
    reveal_strlit("\\");
    reveal_strlit("C:\\");
    assert(root.is_prefix_of(root + rest)) by {
        assert((root + rest).subrange(0, root.len() as int) =~= root);
    }
    assert((root + rest).skip(root.len() as int) =~= rest);
    assert(root.is_prefix_of(root)) by {
        assert(root.subrange(0, root.len() as int) =~= root);
    }
    assert(root.skip(root.len() as int) =~= Seq::<char>::empty());
    assert("C:"@ + "\\"@ =~= "C:\\"@);
}

/// `r` before, between and behind the characters.
pub open spec fn interspersed(s: Seq<char>, r: Seq<char>) -> Seq<char>
    decreases s.len(),
{
    if s.len() == 0 {
        r
    } else {
        interspersed(s.drop_last(), r).push(s.last()) + r
    }
}

/// `s` with each `p`, taken from the left, replaced by `r`. Where `p` is empty
/// it stands before, between and behind the characters.
pub open spec fn replaced(s: Seq<char>, p: Seq<char>, r: Seq<char>) -> Seq<char>
    decreases s.len(),
{
    if p.len() == 0 {
        interspersed(s, r)
    } else if s.len() == 0 {
        s
    } else if p.is_prefix_of(s) {
        r + replaced(s.skip(p.len() as int), p, r)
    } else {
        seq![s[0]] + replaced(s.skip(1), p, r)
    }
}

/// `s` with each `p` replaced by `r`.
pub fn replace_all(s: &str, p: &str, r: &str) -> (out: String)
    ensures
        out@ == replaced(s@, p@, r@),
{
    let v = chars_of(s);
    let q = chars_of(p);
    let mut out = String::new();
    if q.len() == 0 {
        out.append(r);
        let mut i: usize = 0;
        assert(s@.take(0) =~= Seq::<char>::empty());
        assert(out@ =~= interspersed(s@.take(0), r@));
        while i < v.len()
            invariant
                v@ == s@,
                i <= v.len(),
                out@ == interspersed(s@.take(i as int), r@),
            decreases v.len() - i,
        {
            proof {
                let t = s@.take(i + 1);
                assert(t.drop_last() =~= s@.take(i as int));
                assert(t.last() == v[i as int]);
            }
            out.push(v[i]);
            out.append(r);
            i = i + 1;
        }
        assert(s@.take(s@.len() as int) =~= s@);
        return out;
    }
    let mut i: usize = 0;
    proof {
        assert(s@.skip(0) =~= s@);
        assert(out@ + replaced(s@, p@, r@) =~= replaced(s@, p@, r@));
    }
    while i < v.len()
        invariant
            v@ == s@,
            q@ == p@,
            q.len() > 0,
            i <= v.len(),
            out@ + replaced(s@.skip(i as int), p@, r@) == replaced(s@, p@, r@),
        decreases v.len() - i,
    {
        let ghost rest = s@.skip(i as int);
        let ghost before = out@;
        let here = crate::text::stands_at(v.as_slice(), q.as_slice(), i);
        proof {
            if here {
                assert(rest.subrange(0, p@.len() as int) =~= p@);
            }
            if p@.is_prefix_of(rest) {
                assert(s@.subrange(i as int, i + p@.len()) =~= p@);
            }
        }
        if here {
            out.append(r);
            proof {
                assert(rest.skip(p@.len() as int) =~= s@.skip(i + p@.len()));
                let tail = replaced(s@.skip(i + p@.len()), p@, r@);
                assert(before + r@ + tail =~= before + (r@ + tail));
            }
            i = i + q.len();
        } else {
            out.push(v[i]);
            proof {
                assert(rest.skip(1) =~= s@.skip(i + 1));
                let tail = replaced(s@.skip(i + 1), p@, r@);
                assert(before.push(v[i as int]) + tail =~= before + (seq![v[i as int]] + tail));
            }
            i = i + 1;
        }
    }
    proof {
        assert(s@.skip(i as int) =~= Seq::<char>::empty());
        assert(out@ + Seq::<char>::empty() =~= out@);
    }
    out
}

/// Where a mount goes: a drive of its own, or a place below the root directory.
pub enum BindTarget<T> {
    Drive(T),
    Below(T),
}

impl View for BindTarget<String> {
    type V = BindTarget<Seq<char>>;

    open spec fn view(&self) -> BindTarget<Seq<char>> {
        match self {
            BindTarget::Drive(s) => BindTarget::Drive(s@),
            BindTarget::Below(s) => BindTarget::Below(s@),
        }
    }
}

/// A drive letter with its colon.
pub open spec fn is_drive(s: Seq<char>) -> bool {
    s.len() == 2 && is_alpha(s[0]) && s[1] == ':'
}

/// A drive letter with its colon and one slash.
pub open spec fn is_drive_root(s: Seq<char>) -> bool {
    s.len() == 3 && is_alpha(s[0]) && s[1] == ':' && (s[2] == '\\' || s[2] == '/')
}

/// A path without its drive and the slashes at its start.
pub open spec fn below_drive(s: Seq<char>) -> Seq<char> {
    let rest = if s.len() >= 2 && is_ascii_char(s[0]) && s[1] == ':' {
        s.skip(2)
    } else {
        s
    };
    trim_start_of(trim_start_of(rest, '\\'), '/')
}

/// Where a mount with this path goes.
pub open spec fn bind_target(container_path: Seq<char>) -> BindTarget<Seq<char>> {
    let s = trim(container_path);
    if is_drive(s) || is_drive_root(s) {
        BindTarget::Drive(s.take(2))
    } else {
        BindTarget::Below(below_drive(s))
    }
}

/// A path without its drive and the slashes at its start.
pub fn strip_drive(s: &str) -> (r: String)
    ensures
        r@ == below_drive(s@),
{
    let v = chars_of(s);
    let rest = if v.len() >= 2 && (v[0] as u32) < 0x80 && v[1] == ':' {
        skip(s, 2)
    } else {
        s.to_owned()
    };
    let r = trimmed_start_of(rest.as_str(), '\\');
    trimmed_start_of(r.as_str(), '/')
}

pub fn classify_bind(container_path: &str) -> (t: BindTarget<String>)
    ensures
        t@ == bind_target(container_path@),
{
    let s = trimmed(container_path);
    let v = chars_of(s.as_str());
    let drive = v.len() >= 2 && char_is_alpha(v[0]) && v[1] == ':';
    if drive && (v.len() == 2 || (v.len() == 3 && (v[2] == '\\' || v[2] == '/'))) {
        BindTarget::Drive(take(s.as_str(), 2))
    } else {
        BindTarget::Below(strip_drive(s.as_str()))
    }
}

/// A path joined to a directory, as Windows does it: a path with a drive stands
/// alone, one that begins with a separator takes only the drive of the
/// directory, and no separator is added to a directory that ends with one, is
/// empty, or is a bare drive.
pub open spec fn joined_path(dir: Seq<char>, path: Seq<char>) -> Seq<char> {
    if drive_len(path) > 0 {
        path
    } else if rooted(path) {
        dir.take(drive_len(dir)) + path
    } else if dir.len() == 0 || is_sep(dir.last()) || is_drive(dir) {
        dir + path
    } else {
        dir + "\\"@ + path
    }
}

/// A directory as a path goes on below it: with a backslash, unless it ends with
/// a separator, is empty or is a drive alone.
pub open spec fn inside(dir: Seq<char>) -> Seq<char> {
    if dir.len() == 0 || dir.last() == '\\' || dir.last() == '/' || (dir.len() == 2 && dir[1] == ':'
        && is_alpha(dir[0])) {
        dir
    } else {
        dir.push('\\')
    }
}

/// A path without a drive and without a separator at its start lies below the
/// directory that it is joined to; one with a drive stays as it is, and one with
/// a separator stays on the drive of the directory.
pub proof fn law_join_goes_below(dir: Seq<char>, path: Seq<char>)
    ensures
        !(path.len() >= 2 && is_alpha(path[0]) && path[1] == ':') && !(path.len() > 0 && (path[0]
            == '\\' || path[0] == '/')) ==> joined_path(dir, path) == inside(dir) + path
            && dir.is_prefix_of(joined_path(dir, path)),
        path.len() >= 2 && is_alpha(path[0]) && path[1] == ':' ==> joined_path(dir, path) == path,
        path.len() > 0 && (path[0] == '\\' || path[0] == '/') && dir.len() >= 2 && is_alpha(dir[0])
            && dir[1] == ':' ==> joined_path(dir, path) == dir.take(2) + path,
        path.len() > 0 && (path[0] == '\\' || path[0] == '/') && !(dir.len() >= 2 && is_alpha(dir[0])
            && dir[1] == ':') ==> joined_path(dir, path) == path,
{
    reveal_strlit("\\");
    assert(dir + "\\"@ + path =~= dir.push('\\') + path);
    assert(dir.take(0) + path =~= path);
    let j = joined_path(dir, path);
    if j == dir + path {
        assert(j.take(dir.len() as int) =~= dir);
    }
    if j == dir.push('\\') + path {
        assert(j.take(dir.len() as int) =~= dir);
    }
}

/// A path joined to a directory.
pub fn join_path(dir: &str, path: &str) -> (s: String)
    ensures
        s@ == joined_path(dir@, path@),
{
    let d = chars_of(dir);
    let p = chars_of(path);
    let drive = d.len() >= 2 && char_is_alpha(d[0]) && d[1] == ':';
    if p.len() >= 2 && char_is_alpha(p[0]) && p[1] == ':' {
        path.to_owned()
    } else if p.len() > 0 && (p[0] == '\\' || p[0] == '/') {
        let n: usize = if drive {
            2
        } else {
            0
        };
        let prefix = take(dir, n);
        concat2(prefix.as_str(), path)
    } else if d.len() == 0 || d[d.len() - 1] == '\\' || d[d.len() - 1] == '/' || (drive && d.len()
        == 2) {
        concat2(dir, path)
    } else {
        concat3(dir, "\\", path)
    }
}

/// The drives that the mounts ask for, with the directories of the host.
pub open spec fn bind_drives(volumes: Seq<VolumeMount>) -> Seq<(Seq<char>, Seq<char>)>
    decreases volumes.len(),
{
    if volumes.len() == 0 {
        Seq::empty()
    } else {
        let rest = bind_drives(volumes.drop_last());
        let v = volumes.last();
        match bind_target(v.container_path@) {
            BindTarget::Drive(d) => rest.push((d, v.host_path@)),
            BindTarget::Below(_) => rest,
        }
    }
}

/// The junctions that the mounts ask for below `root`, with their targets.
pub open spec fn bind_junctions(root: Seq<char>, volumes: Seq<VolumeMount>) -> Seq<
    (Seq<char>, Seq<char>),
>
    decreases volumes.len(),
{
    if volumes.len() == 0 {
        Seq::empty()
    } else {
        let rest = bind_junctions(root, volumes.drop_last());
        let v = volumes.last();
        match bind_target(v.container_path@) {
            BindTarget::Drive(_) => rest,
            BindTarget::Below(p) => rest.push((joined_path(root, p), v.host_path@)),
        }
    }
}

/// The drives and the junctions that the mounts ask for.
pub fn plan_binds(root: &str, volumes: &Vec<VolumeMount>) -> (r: (
    Vec<(String, String)>,
    Vec<(String, String)>,
))
    ensures
        crate::container::env::pairs(r.0@) == bind_drives(volumes@),
        crate::container::env::pairs(r.1@) == bind_junctions(root@, volumes@),
{
    let mut drives: Vec<(String, String)> = Vec::new();
    let mut junctions: Vec<(String, String)> = Vec::new();
    let mut i: usize = 0;
    proof {
        assert(volumes@.take(0) =~= Seq::<VolumeMount>::empty());
        assert(crate::container::env::pairs(drives@) =~= Seq::empty());
        assert(crate::container::env::pairs(junctions@) =~= Seq::empty());
    }
    while i < volumes.len()
        invariant
            i <= volumes.len(),
            crate::container::env::pairs(drives@) == bind_drives(volumes@.take(i as int)),
            crate::container::env::pairs(junctions@) == bind_junctions(
                root@,
                volumes@.take(i as int),
            ),
        decreases volumes.len() - i,
    {
        proof {
            let t = volumes@.take(i + 1);
            assert(t.drop_last() =~= volumes@.take(i as int));
            assert(t.last() == volumes[i as int]);
        }
        let host = volumes[i].host_path.clone();
        match classify_bind(volumes[i].container_path.as_str()) {
            BindTarget::Drive(d) => {
                let ghost before = drives@;
                drives.push((d, host));
                assert(crate::container::env::pairs(drives@) =~= crate::container::env::pairs(
                    before,
                ).push((d@, host@)));
            },
            BindTarget::Below(p) => {
                let at = join_path(root, p.as_str());
                let ghost before = junctions@;
                junctions.push((at, host));
                assert(crate::container::env::pairs(junctions@) =~= crate::container::env::pairs(
                    before,
                ).push((at@, host@)));
            },
        }
        i = i + 1;
    }
    assert(volumes@.take(volumes@.len() as int) =~= volumes@);
    (drives, junctions)
}

/// The level of isolation is named after the strongest means that the host has.
pub proof fn law_level_names(l: IsolationLevel)
    ensures
        l.server_silo ==> l.tier() == "Full (Silo + AppContainer + Env)"@,
        !l.server_silo && l.bind_filter ==> l.tier()
            == "Enhanced (AppContainer + BindFilter + Env)"@,
        !l.server_silo && !l.bind_filter && l.appcontainer ==> l.tier()
            == "Standard (AppContainer + ProcShim + Env)"@,
        !l.server_silo && !l.bind_filter && !l.appcontainer ==> l.tier()
            == "Basic (Restricted Token + Env)"@,
{
}

/// The rights on the network by their numbers: none without access, the client
/// right for outgoing connections, and the server and private network rights for
/// full access alone.
pub proof fn law_network_rights(network: NetworkAccess)
    ensures
        network == NetworkAccess::Off ==> network_capabilities(network).len() == 0,
        network == NetworkAccess::Outbound || network == NetworkAccess::Netstack
            ==> network_capabilities(network) == seq![86i32],
        network == NetworkAccess::Full ==> network_capabilities(network) == seq![
            86i32,
            87i32,
            88i32,
        ],
{
}

/// A root directory belongs to the container whose directory holds it.
pub proof fn law_root_tells_its_container(
    dir: Seq<char>,
    id: Seq<char>,
    name: Seq<char>,
    default: Seq<char>,
)
    requires
        !id.contains('\\'),
        !name.contains('\\'),
    ensures
        owner_of(dir + "\\"@ + id + "\\"@ + name, default) == id,
        owner_of(name, default) == default,
{
    reveal_strlit("\\");
    lemma_split_one(id, '\\');
    lemma_split_one(name, '\\');
    lemma_split_concat(dir, '\\', id.push('\\') + name);
    lemma_split_concat(id, '\\', name);
    assert(dir + "\\"@ + id + "\\"@ + name =~= dir.push('\\') + (id.push('\\') + name));
}

/// A string without spaces and quotation marks stands on a command line as it
/// is, an empty one as two quotation marks, and any other between quotation
/// marks, with a backslash before each of its own and nothing else changed.
pub proof fn law_quoting(s: Seq<char>)
    ensures
        s.len() == 0 ==> quoted(s) == seq!['"', '"'],
        s.len() > 0 && (forall|i: int|
            0 <= i < s.len() ==> !is_space(#[trigger] s[i]) && s[i] != '"') ==> quoted(s) == s,
        (exists|i: int| 0 <= i < s.len() && (is_space(#[trigger] s[i]) || s[i] == '"'))
            ==> quoted(s) == seq!['"'] + quotes_escaped(s) + seq!['"'],
        s.contains('"') || quotes_escaped(s) == s,
        forall|i: int|
            0 <= i < quotes_escaped(s).len() && #[trigger] quotes_escaped(s)[i] == '"' ==> i > 0
                && quotes_escaped(s)[i - 1] == '\\',
        !s.contains('\\') ==> quotes_escaped(s).filter(|c: char| c != '\\') == s,
{
    reveal_strlit("\"\"");
    assert("\"\""@ =~= seq!['"', '"']);
    lemma_quotes_escaped(s);
}

proof fn lemma_quotes_escaped(s: Seq<char>)
    ensures
        s.contains('"') || quotes_escaped(s) == s,
        forall|i: int|
            0 <= i < quotes_escaped(s).len() && #[trigger] quotes_escaped(s)[i] == '"' ==> i > 0
                && quotes_escaped(s)[i - 1] == '\\',
        !s.contains('\\') ==> quotes_escaped(s).filter(|c: char| c != '\\') == s,
    decreases s.len(),
{
    reveal(Seq::filter);
    let keep = |c: char| c != '\\';
    if s.len() > 0 {
        let init = s.drop_last();
        let q = quotes_escaped(init);
        let e = quotes_escaped(s);
        lemma_quotes_escaped(init);
        assert(s =~= init.push(s.last()));
        if init.contains('"') {
            let i = choose|i: int| 0 <= i < init.len() && init[i] == '"';
            assert(s[i] == '"');
        }
        if s.last() == '"' {
            assert(s[s.len() - 1] == '"');
            assert(q.push('\\').push('"').drop_last() =~= q.push('\\'));
            assert(q.push('\\').drop_last() =~= q);
            assert(q.push('\\').filter(keep) == q.filter(keep));
            assert(e.filter(keep) == q.push('\\').filter(keep).push('"'));
        } else {
            assert(q.push(s.last()).drop_last() =~= q);
            assert(s.last() != '\\' ==> e.filter(keep) == q.filter(keep).push(s.last()));
        }
        if !s.contains('\\') {
            assert(!init.contains('\\')) by {
                if init.contains('\\') {
                    let i = choose|i: int| 0 <= i < init.len() && init[i] == '\\';
                    assert(s[i] == '\\');
                }
            }
            assert(s[s.len() - 1] != '\\');
        }
    } else {
        assert(s.filter(keep) =~= s);
    }
}

/// A command line is the program and then each argument behind a space, quoted
/// one by one, in their order.
pub proof fn law_command_line(entry: Seq<char>, args: Seq<Seq<char>>, last: Seq<char>)
    ensures
        command_line(entry, Seq::empty()) == quoted(entry),
        command_line(entry, args.push(last)) == command_line(entry, args) + " "@ + quoted(last),
{
    assert(args.push(last).drop_last() =~= args);
}

/// A process in the background starts in its root directory or below it, where
/// it was told to if that lies there, else among the temporary files.
pub proof fn law_starts_inside(working: Seq<char>, root: Seq<char>)
    ensures
        root.is_prefix_of(start_dir(working, root)),
        root.is_prefix_of(working) ==> start_dir(working, root) == working,
        !root.is_prefix_of(working) ==> start_dir(working, root) == root + "\\Temp"@,
{
    assert((root + "\\Temp"@).take(root.len() as int) =~= root);
}

/// In a silo what lies in the root directory is seen on drive `C:`, what lies in
/// the directory of the cached shells on drive `P:`, and `PSH` in the root is
/// the cached shell there.
pub proof fn law_silo_drives(root: Seq<char>, parent: Seq<char>, name: Seq<char>, rest: Seq<char>)
    requires
        rest.len() > 0,
    ensures
        !(root + "\\PSH"@).is_prefix_of(root + rest) && !parent.is_prefix_of(root + rest)
            ==> seen_in_silo(root + rest, root, parent + name, parent) == "C:"@ + rest,
        !(root + "\\PSH"@).is_prefix_of(parent + rest) ==> seen_in_silo(
            parent + rest,
            root,
            parent + name,
            parent,
        ) == "P:"@ + rest,
        seen_in_silo(root + "\\PSH"@ + rest, root, parent + name, parent) == "P:"@ + name + rest,
        !(root + "\\PSH"@).is_prefix_of(rest) && !parent.is_prefix_of(rest) && !root.is_prefix_of(
            rest,
        ) ==> seen_in_silo(rest, root, parent + name, parent) == rest,
        !(root + "\\PSH"@).is_prefix_of(root) && !parent.is_prefix_of(root) ==> seen_in_silo(
            root,
            root,
            parent + name,
            parent,
        ) == "C:\\"@,
{
    reveal_strlit("C:");
    reveal_strlit("\\");
    reveal_strlit("C:\\");
    let psh = root + "\\PSH"@;
    assert((root + rest).take(root.len() as int) =~= root);
    assert((root + rest).skip(root.len() as int) =~= rest);
    assert((parent + rest).take(parent.len() as int) =~= parent);
    assert((parent + rest).skip(parent.len() as int) =~= rest);
    assert((psh + rest).take(psh.len() as int) =~= psh);
    assert((psh + rest).skip(psh.len() as int) =~= rest);
    let cached = parent + name + rest;
    assert(cached.take(parent.len() as int) =~= parent);
    assert(cached.skip(parent.len() as int) =~= name + rest);
    assert("P:"@ + (name + rest) =~= "P:"@ + name + rest);
    assert(root.skip(root.len() as int).len() == 0);
    assert("C:"@ + "\\"@ =~= "C:\\"@);
    assert(root.take(root.len() as int) =~= root);
}

/// Every mount is made, where it was asked for: as a drive of its own, or as a
/// junction below the root directory, with the directory of the host behind it.
pub proof fn law_every_mount_is_made(root: Seq<char>, volumes: Seq<VolumeMount>, i: int)
    requires
        0 <= i < volumes.len(),
    ensures
        match bind_target(volumes[i].container_path@) {
            BindTarget::Drive(d) => bind_drives(volumes).contains((d, volumes[i].host_path@)),
            BindTarget::Below(p) => bind_junctions(root, volumes).contains(
                (joined_path(root, p), volumes[i].host_path@),
            ),
        },
        bind_drives(volumes).len() + bind_junctions(root, volumes).len() == volumes.len(),
    decreases volumes.len(),
{
    let init = volumes.drop_last();
    let a = bind_drives(init);
    let b = bind_junctions(root, init);
    if init.len() > 0 {
        law_every_mount_is_made(root, init, 0);
    }
    if i < init.len() {
        law_every_mount_is_made(root, init, i);
        assert(init[i] == volumes[i]);
        match bind_target(volumes[i].container_path@) {
            BindTarget::Drive(d) => {
                let x = (d, volumes[i].host_path@);
                let k = choose|k: int| 0 <= k < a.len() && a[k] == x;
                assert(bind_drives(volumes)[k] == x);
            },
            BindTarget::Below(p) => {
                let x = (joined_path(root, p), volumes[i].host_path@);
                let k = choose|k: int| 0 <= k < b.len() && b[k] == x;
                assert(bind_junctions(root, volumes)[k] == x);
            },
        }
    } else {
        match bind_target(volumes[i].container_path@) {
            BindTarget::Drive(d) => {
                assert(bind_drives(volumes)[a.len() as int] == (d, volumes[i].host_path@));
            },
            BindTarget::Below(p) => {
                assert(bind_junctions(root, volumes)[b.len() as int] == (
                    joined_path(root, p),
                    volumes[i].host_path@,
                ));
            },
        }
    }
}

/// A path that is a drive alone, with or without a slash, is mounted as that
/// drive; any other below the root, without its drive and the slash behind it.
pub proof fn law_mount_targets(letter: char, name: Seq<char>)
    requires
        is_alpha(letter),
        name.len() > 0,
        name[0] != '\\' && name[0] != '/' && name[0] != ':' && !is_space(name[0]) && !is_space(name.last()),
        !(name.len() >= 2 && name[1] == ':'),
    ensures
        bind_target(seq![letter, ':']) == BindTarget::Drive(seq![letter, ':']),
        bind_target(seq![letter, ':', '\\']) == BindTarget::Drive(seq![letter, ':']),
        bind_target(seq![letter, ':', '/']) == BindTarget::Drive(seq![letter, ':']),
        bind_target(seq![letter, ':', '\\'] + name) == BindTarget::Below(name),
        bind_target(seq!['\\'] + name) == BindTarget::Below(name),
        bind_target(seq!['/'] + name) == BindTarget::Below(name),
        bind_target(name) == BindTarget::Below(name),
{
    lemma_mount_trims(seq![letter, ':']);
    lemma_mount_trims(seq![letter, ':', '\\']);
    lemma_mount_trims(seq![letter, ':', '/']);
    lemma_mount_trims(seq![letter, ':', '\\'] + name);
    lemma_mount_trims(seq!['\\'] + name);
    lemma_mount_trims(seq!['/'] + name);
    lemma_mount_trims(name);
    let d = seq![letter, ':'];
    assert(d.take(2) =~= d);
    assert(seq![letter, ':', '\\'].take(2) =~= d);
    assert(seq![letter, ':', '/'].take(2) =~= d);
    assert((seq![letter, ':', '\\'] + name).skip(2) =~= seq!['\\'] + name);
    assert((seq!['\\'] + name).skip(1) =~= name);
    assert((seq!['/'] + name).skip(1) =~= name);
    assert((seq!['\\'] + name)[1] == name[0]);
    assert((seq!['/'] + name)[1] == name[0]);
    reveal_with_fuel(trim_start_of, 3);
}

proof fn lemma_mount_trims(s: Seq<char>)
    requires
        s.len() > 0,
        !is_space(s[0]),
        !is_space(s.last()),
    ensures
        trim(s) == s,
{
}

/// Replacing changes what it is told to and nothing else: a text without the
/// pattern stays as it is, and the pattern at the start gives way.
pub proof fn law_replaced(s: Seq<char>, p: Seq<char>, r: Seq<char>)
    requires
        p.len() > 0,
    ensures
        !occurs(s, p) ==> replaced(s, p, r) == s,
        replaced(p + s, p, r) == r + replaced(s, p, r),
        !p.is_prefix_of(s) && s.len() > 0 ==> replaced(s, p, r) == seq![s[0]] + replaced(
            s.skip(1),
            p,
            r,
        ),
    decreases s.len(),
{
    assert((p + s).take(p.len() as int) =~= p);
    assert((p + s).skip(p.len() as int) =~= s);
    assert(p.is_prefix_of(p + s));
    if s.len() > 0 && !occurs(s, p) {
        if p.is_prefix_of(s) {
            assert(s.subrange(0, p.len() as int) =~= p);
            assert(crate::text::occurs_at(s, p, 0));
        }
        let t = s.skip(1);
        if occurs(t, p) {
            let i = choose|i: int| #[trigger] crate::text::occurs_at(t, p, i);
            assert(s.subrange(i + 1, i + 1 + p.len()) =~= t.subrange(i, i + p.len()));
            assert(crate::text::occurs_at(s, p, i + 1));
        }
        law_replaced(t, p, r);
        assert(seq![s[0]] + t =~= s);
    }
}

/// The user is warned of each thing that is missing, and of nothing else: rights
/// of an administrator, AppContainers, and to an administrator the bind filter
/// and silos, with the builds that have them.
pub proof fn law_warnings(l: IsolationLevel)
    ensures
        ({
            let w = l.warnings_text();
            let build = decimal(l.build_number as nat);
            let admin: int = if l.is_admin {
                0
            } else {
                2
            };
            let boxes: int = if l.appcontainer {
                0
            } else {
                1
            };
            let filter: int = if l.is_admin && !l.bind_filter {
                1
            } else {
                0
            };
            let silo: int = if l.is_admin && !l.server_silo {
                1
            } else {
                0
            };
            &&& w.len() == admin + boxes + filter + silo
            &&& !l.is_admin ==> w[0] == "  ⚠ Non-admin: some isolation features unavailable"@
                && w[1] == "    Run as Administrator for: bind filter, server silos"@
            &&& !l.appcontainer ==> w[admin]
                == "  ⚠ AppContainer APIs unavailable — using restricted token fallback"@
            &&& l.is_admin && !l.bind_filter ==> w[boxes]
                == "  ℹ Bind filter needs Windows 11 24H2+ (build 26100, current: "@ + build + ")"@
            &&& l.is_admin && !l.server_silo ==> w.last()
                == "  ℹ Server silos need Windows 10 1809+ (build 17763, current: "@ + build + ")"@
        }),
{
}

} // verus!
