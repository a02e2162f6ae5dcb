//! The root directory of a container: what is put there from the host.
//!
//! A plan is a list of operations on files that the caller carries out in
//! order. Directories of the host that are shared become junctions; what is not
//! shared is copied as far as programs need it.

use crate::container::sandbox::{inside, join_path, joined_path, law_join_goes_below};
use crate::text::{
    concat2, concat3, has_char, literals, same, split_char, texts, trim, trimmed,
};
use vstd::prelude::*;
use vstd::utf8::encode_utf8;

verus! {

/// The files of the host's system directory that shells need.
pub const ESSENTIAL_BINARIES: [&'static str; 75] = [
    "ntdll.dll",
    "kernel32.dll",
    "kernelbase.dll",
    "ucrtbase.dll",
    "msvcrt.dll",
    "cmd.exe",
    "conhost.exe",
    "advapi32.dll",
    "sechost.dll",
    "rpcrt4.dll",
    "bcryptprimitives.dll",
    "user32.dll",
    "win32u.dll",
    "gdi32.dll",
    "gdi32full.dll",
    "msvcp_win.dll",
    "combase.dll",
    "oleaut32.dll",
    "shell32.dll",
    "shlwapi.dll",
    "ole32.dll",
    "imm32.dll",
    "ws2_32.dll",
    "nsi.dll",
    "iphlpapi.dll",
    "powershell.exe",
    "netapi32.dll",
    "winhttp.dll",
    "wininet.dll",
    "crypt32.dll",
    "wintrust.dll",
    "bcrypt.dll",
    "ncrypt.dll",
    "setupapi.dll",
    "cfgmgr32.dll",
    "version.dll",
    "wldp.dll",
    "profapi.dll",
    "userenv.dll",
    "whoami.exe",
    "netutils.dll",
    "samlib.dll",
    "samcli.dll",
    "logoncli.dll",
    "sspicli.dll",
    "cryptbase.dll",
    "secur32.dll",
    "schannel.dll",
    "mswsock.dll",
    "dnsapi.dll",
    "winnsi.dll",
    "fwpuclnt.dll",
    "rasadhlp.dll",
    "msv1_0.dll",
    "kerberos.dll",
    "msasn1.dll",
    "cryptsp.dll",
    "rsaenh.dll",
    "dpapi.dll",
    "icu.dll",
    "icuuc.dll",
    "icuin.dll",
    "powrprof.dll",
    "umpdc.dll",
    "winmm.dll",
    "msacm32.dll",
    "comctl32.dll",
    "ncryptsslp.dll",
    "ncryptprov.dll",
    "gpapi.dll",
    "msvcp140.dll",
    "vcruntime140.dll",
    "vcruntime140_1.dll",
    "curl.exe",
    "tar.exe",
];

/// The programs that the tool `rust-bin` brings.
pub const RUST_BIN_ALLOWLIST: [&'static str; 5] = [
    "pstop.exe",
    "psmux.exe",
    "psnet.exe",
    "htop.exe",
    "weathr.exe",
];

/// The shares that the tool `winget` needs.
pub const WINGET_SHARES: [&'static str; 4] = [
    "windows",
    "programfiles",
    "programdata",
    "windowsapps",
];

/// An operation on files.
pub enum RootOp<T> {
    /// Makes a directory and those above it; the plan fails where this does.
    MakeDir(T),
    /// Makes a directory and those above it if it can.
    MakeDirIfPossible(T),
    /// Makes a junction if it can.
    Junction { at: T, target: T },
    /// Copies a file if it is there.
    CopyFile { from: T, to: T },
    /// Copies the translated texts of the essential files, for each language
    /// that has a directory in `from`.
    CopyLocales { from: T, to: T },
    /// Lets processes of low integrity write to a directory, if it is there.
    LowIntegrity(T),
    /// Copies a directory with all that is in it, if it is there.
    CopyTree { from: T, to: T },
    /// The same, going on where a file cannot be read.
    CopyTreeIfPossible { from: T, to: T },
}

pub type RootOpModel = RootOp<Seq<char>>;

impl View for RootOp<String> {
    type V = RootOp<Seq<char>>;

    open spec fn view(&self) -> RootOp<Seq<char>> {
        match self {
            RootOp::MakeDir(a) => RootOp::MakeDir(a@),
            RootOp::MakeDirIfPossible(a) => RootOp::MakeDirIfPossible(a@),
            RootOp::Junction { at, target } => RootOp::Junction { at: at@, target: target@ },
            RootOp::CopyFile { from, to } => RootOp::CopyFile { from: from@, to: to@ },
            RootOp::CopyLocales { from, to } => RootOp::CopyLocales { from: from@, to: to@ },
            RootOp::LowIntegrity(a) => RootOp::LowIntegrity(a@),
            RootOp::CopyTree { from, to } => RootOp::CopyTree { from: from@, to: to@ },
            RootOp::CopyTreeIfPossible { from, to } => RootOp::CopyTreeIfPossible {
                from: from@,
                to: to@,
            },
        }
    }
}

/// What a list of operations holds.
pub open spec fn ops(v: Seq<RootOp<String>>) -> Seq<RootOpModel> {
    Seq::new(v.len(), |i: int| v[i]@)
}

/// The system directories of the host.
pub struct HostDirs<T> {
    pub system_root: T,
    pub program_data: T,
    pub program_files: T,
    pub program_files_x86: T,
}

impl View for HostDirs<String> {
    type V = HostDirs<Seq<char>>;

    open spec fn view(&self) -> HostDirs<Seq<char>> {
        HostDirs {
            system_root: self.system_root@,
            program_data: self.program_data@,
            program_files: self.program_files@,
            program_files_x86: self.program_files_x86@,
        }
    }
}

/// The directories of a host whose environment names none of them.
pub open spec fn usual_dirs() -> HostDirs<Seq<char>> {
    HostDirs {
        system_root: "C:\\Windows"@,
        program_data: "C:\\ProgramData"@,
        program_files: "C:\\Program Files"@,
        program_files_x86: "C:\\Program Files (x86)"@,
    }
}

/// The value, or `default` where there is none.
pub open spec fn or_default(value: Option<Seq<char>>, default: Seq<char>) -> Seq<char> {
    match value {
        Some(v) => v,
        None => default,
    }
}

fn value_or(value: Option<String>, default: &str) -> (s: String)
    ensures
        s@ == or_default(crate::container::config::text_of(value), default@),
{
    match value {
        Some(v) => v,
        None => default.to_owned(),
    }
}

/// The system directories of a host whose environment has these variables.
pub fn host_dirs(
    system_root: Option<String>,
    program_data: Option<String>,
    program_files: Option<String>,
    program_files_x86: Option<String>,
) -> (d: HostDirs<String>)
    ensures
        d@.system_root == or_default(
            crate::container::config::text_of(system_root),
            usual_dirs().system_root,
        ),
        d@.program_data == or_default(
            crate::container::config::text_of(program_data),
            usual_dirs().program_data,
        ),
        d@.program_files == or_default(
            crate::container::config::text_of(program_files),
            usual_dirs().program_files,
        ),
        d@.program_files_x86 == or_default(
            crate::container::config::text_of(program_files_x86),
            usual_dirs().program_files_x86,
        ),
{
    HostDirs {
        system_root: value_or(system_root, "C:\\Windows"),
        program_data: value_or(program_data, "C:\\ProgramData"),
        program_files: value_or(program_files, "C:\\Program Files"),
        program_files_x86: value_or(program_files_x86, "C:\\Program Files (x86)"),
    }
}

/// A host that names none of its directories has them where Windows puts them,
/// and every directory that it names is taken as it is.
pub proof fn law_host_dirs(value: Seq<char>)
    ensures
        usual_dirs().system_root == "C:\\Windows"@,
        usual_dirs().program_data == "C:\\ProgramData"@,
        usual_dirs().program_files == "C:\\Program Files"@,
        usual_dirs().program_files_x86 == "C:\\Program Files (x86)"@,
        forall|d: Seq<char>| #[trigger] or_default(Some(value), d) == value,
        forall|d: Seq<char>| #[trigger] or_default(None, d) == d,
{
}

/// A path of two names below a directory.
pub open spec fn two_below(dir: Seq<char>, a: Seq<char>, b: Seq<char>) -> Seq<char> {
    joined_path(joined_path(dir, a), b)
}

/// The operation, where it is wanted.
pub open spec fn only_if(b: bool, op: RootOpModel) -> Seq<RootOpModel> {
    if b {
        seq![op]
    } else {
        Seq::empty()
    }
}

/// The directories that are made.
pub open spec fn skeleton(root: Seq<char>, shares: Seq<Seq<char>>) -> Seq<RootOpModel> {
    seq![
        RootOp::MakeDir(two_below(root, "Users"@, "ContainerUser"@)),
        RootOp::MakeDir(joined_path(root, "Temp"@)),
    ] + only_if(
        !shares.contains("windows"@),
        RootOp::MakeDir(two_below(root, "Windows"@, "System32"@)),
    ) + only_if(
        !shares.contains("windows"@),
        RootOp::MakeDir(two_below(root, "Windows"@, "Temp"@)),
    ) + only_if(
        !shares.contains("programdata"@),
        RootOp::MakeDir(joined_path(root, "ProgramData"@)),
    )
}

/// The junctions to the shared directories. That of the installed apps lies in
/// the directory of programs, and is made only where that one is not shared.
pub open spec fn share_junctions(
    root: Seq<char>,
    host: HostDirs<Seq<char>>,
    shares: Seq<Seq<char>>,
) -> Seq<RootOpModel> {
    let apps = shares.contains("windowsapps"@) && !shares.contains("programfiles"@);
    only_if(
        shares.contains("windows"@),
        RootOp::Junction { at: joined_path(root, "Windows"@), target: host.system_root },
    ) + only_if(
        shares.contains("programdata"@),
        RootOp::Junction { at: joined_path(root, "ProgramData"@), target: host.program_data },
    ) + only_if(
        shares.contains("programfiles"@),
        RootOp::Junction { at: joined_path(root, "Program Files"@), target: host.program_files },
    ) + only_if(
        shares.contains("programfilesx86"@),
        RootOp::Junction {
            at: joined_path(root, "Program Files (x86)"@),
            target: host.program_files_x86,
        },
    ) + only_if(apps, RootOp::MakeDirIfPossible(joined_path(root, "Program Files"@))) + only_if(
        apps,
        RootOp::Junction {
            at: two_below(root, "Program Files"@, "WindowsApps"@),
            target: joined_path(host.program_files, "WindowsApps"@),
        },
    )
}

/// The copies of the essential files.
pub open spec fn binary_copies(from: Seq<char>, to: Seq<char>, names: Seq<Seq<char>>) -> Seq<
    RootOpModel,
> {
    Seq::new(
        names.len(),
        |i: int|
            RootOp::CopyFile {
                from: joined_path(from, names[i]),
                to: joined_path(to, names[i]),
            },
    )
}

/// What is copied of a Windows that is not shared.
pub open spec fn windows_mirror(root: Seq<char>, host: HostDirs<Seq<char>>) -> Seq<RootOpModel> {
    let from = joined_path(host.system_root, "System32"@);
    let to = two_below(root, "Windows"@, "System32"@);
    binary_copies(from, to, literals(ESSENTIAL_BINARIES@)) + seq![
        RootOp::CopyLocales { from, to },
        RootOp::LowIntegrity(joined_path(root, "Temp"@)),
        RootOp::LowIntegrity(two_below(root, "Windows"@, "Temp"@)),
        RootOp::LowIntegrity(two_below(root, "Users"@, "ContainerUser"@)),
        RootOp::LowIntegrity(joined_path(root, "ProgramData"@)),
        RootOp::CopyTree {
            from: joined_path(host.system_root, "Globalization"@),
            to: two_below(root, "Windows"@, "Globalization"@),
        },
        RootOp::CopyTreeIfPossible {
            from: two_below(host.program_data, "Microsoft"@, "Crypto"@),
            to: joined_path(two_below(root, "ProgramData"@, "Microsoft"@), "Crypto"@),
        },
    ]
}

/// What remains to be done where Windows is shared.
pub open spec fn shared_windows(root: Seq<char>, shares: Seq<Seq<char>>) -> Seq<RootOpModel> {
    seq![
        RootOp::LowIntegrity(joined_path(root, "Temp"@)),
        RootOp::LowIntegrity(two_below(root, "Users"@, "ContainerUser"@)),
    ] + only_if(
        !shares.contains("programdata"@),
        RootOp::LowIntegrity(joined_path(root, "ProgramData"@)),
    )
}

/// How a root directory is prepared.
pub open spec fn root_plan(
    root: Seq<char>,
    host: HostDirs<Seq<char>>,
    shares: Seq<Seq<char>>,
) -> Seq<RootOpModel> {
    skeleton(root, shares) + share_junctions(root, host, shares) + (if shares.contains(
        "windows"@,
    ) {
        shared_windows(root, shares)
    } else {
        windows_mirror(root, host)
    })
}

/// Where Windows is shared nothing of it is copied.
pub proof fn law_shared_windows_is_not_copied(
    root: Seq<char>,
    host: HostDirs<Seq<char>>,
    shares: Seq<Seq<char>>,
    i: int,
)
    requires
        shares.contains("windows"@),
        0 <= i < root_plan(root, host, shares).len(),
    ensures
        !(root_plan(root, host, shares)[i] is CopyFile),
        !(root_plan(root, host, shares)[i] is CopyLocales),
        !(root_plan(root, host, shares)[i] is CopyTree),
        !(root_plan(root, host, shares)[i] is CopyTreeIfPossible),
{
    let a = skeleton(root, shares);
    let b = share_junctions(root, host, shares);
    let c = shared_windows(root, shares);
    let p = root_plan(root, host, shares);
    if i < a.len() {
        assert(p[i] == a[i]);
    } else if i < a.len() + b.len() {
        assert(p[i] == b[i - a.len()]);
    } else {
        assert(p[i] == c[i - a.len() - b.len()]);
    }
}

/// Whether a name goes on below any directory: no drive, and no separator at
/// either end.
spec fn plain(s: Seq<char>) -> bool {
    s.len() > 2 && s[0] != '\\' && s[0] != '/' && s[1] != ':' && s.last() != '\\' && s.last() != '/'
}

proof fn lemma_plain_names()
    ensures
        plain("Users"@),
        plain("ContainerUser"@),
        plain("Temp"@),
        plain("Windows"@),
        plain("System32"@),
        plain("ProgramData"@),
        plain("Program Files"@),
        plain("Program Files (x86)"@),
        plain("WindowsApps"@),
        plain("Globalization"@),
        plain("Microsoft"@),
        plain("Crypto"@),
        plain("bin"@),
{
    reveal_strlit("Users");
    reveal_strlit("ContainerUser");
    reveal_strlit("Temp");
    reveal_strlit("Windows");
    reveal_strlit("System32");
    reveal_strlit("ProgramData");
    reveal_strlit("Program Files");
    reveal_strlit("Program Files (x86)");
    reveal_strlit("WindowsApps");
    reveal_strlit("Globalization");
    reveal_strlit("Microsoft");
    reveal_strlit("Crypto");
    reveal_strlit("bin");
}

proof fn lemma_below(dir: Seq<char>, a: Seq<char>)
    requires
        plain(a),
    ensures
        joined_path(dir, a) == inside(dir) + a,
        inside(joined_path(dir, a)) == inside(dir) + a.push('\\'),
        dir.is_prefix_of(joined_path(dir, a)),
{
    law_join_goes_below(dir, a);
    let j = inside(dir) + a;
    assert(j.last() == a.last());
    assert(j.push('\\') =~= inside(dir) + a.push('\\'));
}

proof fn lemma_two_below(dir: Seq<char>, a: Seq<char>, b: Seq<char>)
    requires
        plain(a),
        plain(b),
    ensures
        two_below(dir, a, b) == inside(dir) + a + "\\"@ + b,
        inside(two_below(dir, a, b)) == inside(dir) + a + "\\"@ + b + "\\"@,
        dir.is_prefix_of(two_below(dir, a, b)),
{
    reveal_strlit("\\");
    let d = joined_path(dir, a);
    lemma_below(dir, a);
    lemma_below(d, b);
    let t = two_below(dir, a, b);
    assert(t =~= inside(dir) + a + "\\"@ + b);
    assert(inside(t) =~= inside(dir) + a + "\\"@ + b + "\\"@);
    assert(t.take(dir.len() as int) =~= d.take(dir.len() as int));
}

/// Where an operation makes, changes or puts something.
pub open spec fn written(op: RootOpModel) -> Seq<char> {
    match op {
        RootOp::MakeDir(p) => p,
        RootOp::MakeDirIfPossible(p) => p,
        RootOp::Junction { at, target } => at,
        RootOp::CopyFile { from, to } => to,
        RootOp::CopyLocales { from, to } => to,
        RootOp::LowIntegrity(p) => p,
        RootOp::CopyTree { from, to } => to,
        RootOp::CopyTreeIfPossible { from, to } => to,
    }
}

/// What an operation reads of the host or leads to there, if anything.
pub open spec fn read_of(op: RootOpModel) -> Option<Seq<char>> {
    match op {
        RootOp::Junction { at, target } => Some(target),
        RootOp::CopyFile { from, to } => Some(from),
        RootOp::CopyLocales { from, to } => Some(from),
        RootOp::CopyTree { from, to } => Some(from),
        RootOp::CopyTreeIfPossible { from, to } => Some(from),
        _ => None,
    }
}

proof fn lemma_essential_names_0()
    ensures
        forall|i: int| 0 <= i < 15 ==> plain(#[trigger] literals(ESSENTIAL_BINARIES@)[i]),
        literals(ESSENTIAL_BINARIES@)[0] == "ntdll.dll"@,
        literals(ESSENTIAL_BINARIES@)[1] == "kernel32.dll"@,
        literals(ESSENTIAL_BINARIES@)[2] == "kernelbase.dll"@,
        literals(ESSENTIAL_BINARIES@)[3] == "ucrtbase.dll"@,
        literals(ESSENTIAL_BINARIES@)[4] == "msvcrt.dll"@,
        literals(ESSENTIAL_BINARIES@)[5] == "cmd.exe"@,
        literals(ESSENTIAL_BINARIES@)[6] == "conhost.exe"@,
        literals(ESSENTIAL_BINARIES@)[7] == "advapi32.dll"@,
        literals(ESSENTIAL_BINARIES@)[8] == "sechost.dll"@,
        literals(ESSENTIAL_BINARIES@)[9] == "rpcrt4.dll"@,
        literals(ESSENTIAL_BINARIES@)[10] == "bcryptprimitives.dll"@,
        literals(ESSENTIAL_BINARIES@)[11] == "user32.dll"@,
        literals(ESSENTIAL_BINARIES@)[12] == "win32u.dll"@,
        literals(ESSENTIAL_BINARIES@)[13] == "gdi32.dll"@,
        literals(ESSENTIAL_BINARIES@)[14] == "gdi32full.dll"@,
{
    reveal_strlit("ntdll.dll");
    reveal_strlit("kernel32.dll");
    reveal_strlit("kernelbase.dll");
    reveal_strlit("ucrtbase.dll");
    reveal_strlit("msvcrt.dll");
    reveal_strlit("cmd.exe");
    reveal_strlit("conhost.exe");
    reveal_strlit("advapi32.dll");
    reveal_strlit("sechost.dll");
    reveal_strlit("rpcrt4.dll");
    reveal_strlit("bcryptprimitives.dll");
    reveal_strlit("user32.dll");
    reveal_strlit("win32u.dll");
    reveal_strlit("gdi32.dll");
    reveal_strlit("gdi32full.dll");
    assert(plain(literals(ESSENTIAL_BINARIES@)[0]));
    assert(plain(literals(ESSENTIAL_BINARIES@)[1]));
    assert(plain(literals(ESSENTIAL_BINARIES@)[2]));
    assert(plain(literals(ESSENTIAL_BINARIES@)[3]));
    assert(plain(literals(ESSENTIAL_BINARIES@)[4]));
    assert(plain(literals(ESSENTIAL_BINARIES@)[5]));
    assert(plain(literals(ESSENTIAL_BINARIES@)[6]));
    assert(plain(literals(ESSENTIAL_BINARIES@)[7]));
    assert(plain(literals(ESSENTIAL_BINARIES@)[8]));
    assert(plain(literals(ESSENTIAL_BINARIES@)[9]));
    assert(plain(literals(ESSENTIAL_BINARIES@)[10]));
    assert(plain(literals(ESSENTIAL_BINARIES@)[11]));
    assert(plain(literals(ESSENTIAL_BINARIES@)[12]));
    assert(plain(literals(ESSENTIAL_BINARIES@)[13]));
    assert(plain(literals(ESSENTIAL_BINARIES@)[14]));
}

proof fn lemma_essential_names_1()
    ensures
        forall|i: int| 15 <= i < 30 ==> plain(#[trigger] literals(ESSENTIAL_BINARIES@)[i]),
        literals(ESSENTIAL_BINARIES@)[15] == "msvcp_win.dll"@,
        literals(ESSENTIAL_BINARIES@)[16] == "combase.dll"@,
        literals(ESSENTIAL_BINARIES@)[17] == "oleaut32.dll"@,
        literals(ESSENTIAL_BINARIES@)[18] == "shell32.dll"@,
        literals(ESSENTIAL_BINARIES@)[19] == "shlwapi.dll"@,
        literals(ESSENTIAL_BINARIES@)[20] == "ole32.dll"@,
        literals(ESSENTIAL_BINARIES@)[21] == "imm32.dll"@,
        literals(ESSENTIAL_BINARIES@)[22] == "ws2_32.dll"@,
        literals(ESSENTIAL_BINARIES@)[23] == "nsi.dll"@,
        literals(ESSENTIAL_BINARIES@)[24] == "iphlpapi.dll"@,
        literals(ESSENTIAL_BINARIES@)[25] == "powershell.exe"@,
        literals(ESSENTIAL_BINARIES@)[26] == "netapi32.dll"@,
        literals(ESSENTIAL_BINARIES@)[27] == "winhttp.dll"@,
        literals(ESSENTIAL_BINARIES@)[28] == "wininet.dll"@,
        literals(ESSENTIAL_BINARIES@)[29] == "crypt32.dll"@,
{
    reveal_strlit("msvcp_win.dll");
    reveal_strlit("combase.dll");
    reveal_strlit("oleaut32.dll");
    reveal_strlit("shell32.dll");
    reveal_strlit("shlwapi.dll");
    reveal_strlit("ole32.dll");
    reveal_strlit("imm32.dll");
    reveal_strlit("ws2_32.dll");
    reveal_strlit("nsi.dll");
    reveal_strlit("iphlpapi.dll");
    reveal_strlit("powershell.exe");
    reveal_strlit("netapi32.dll");
    reveal_strlit("winhttp.dll");
    reveal_strlit("wininet.dll");
    reveal_strlit("crypt32.dll");
    assert(plain(literals(ESSENTIAL_BINARIES@)[15]));
    assert(plain(literals(ESSENTIAL_BINARIES@)[16]));
    assert(plain(literals(ESSENTIAL_BINARIES@)[17]));
    assert(plain(literals(ESSENTIAL_BINARIES@)[18]));
    assert(plain(literals(ESSENTIAL_BINARIES@)[19]));
    assert(plain(literals(ESSENTIAL_BINARIES@)[20]));
    assert(plain(literals(ESSENTIAL_BINARIES@)[21]));
    assert(plain(literals(ESSENTIAL_BINARIES@)[22]));
    assert(plain(literals(ESSENTIAL_BINARIES@)[23]));
    assert(plain(literals(ESSENTIAL_BINARIES@)[24]));
    assert(plain(literals(ESSENTIAL_BINARIES@)[25]));
    assert(plain(literals(ESSENTIAL_BINARIES@)[26]));
    assert(plain(literals(ESSENTIAL_BINARIES@)[27]));
    assert(plain(literals(ESSENTIAL_BINARIES@)[28]));
    assert(plain(literals(ESSENTIAL_BINARIES@)[29]));
}

proof fn lemma_essential_names_2()
    ensures
        forall|i: int| 30 <= i < 45 ==> plain(#[trigger] literals(ESSENTIAL_BINARIES@)[i]),
        literals(ESSENTIAL_BINARIES@)[30] == "wintrust.dll"@,
        literals(ESSENTIAL_BINARIES@)[31] == "bcrypt.dll"@,
        literals(ESSENTIAL_BINARIES@)[32] == "ncrypt.dll"@,
        literals(ESSENTIAL_BINARIES@)[33] == "setupapi.dll"@,
        literals(ESSENTIAL_BINARIES@)[34] == "cfgmgr32.dll"@,
        literals(ESSENTIAL_BINARIES@)[35] == "version.dll"@,
        literals(ESSENTIAL_BINARIES@)[36] == "wldp.dll"@,
        literals(ESSENTIAL_BINARIES@)[37] == "profapi.dll"@,
        literals(ESSENTIAL_BINARIES@)[38] == "userenv.dll"@,
        literals(ESSENTIAL_BINARIES@)[39] == "whoami.exe"@,
        literals(ESSENTIAL_BINARIES@)[40] == "netutils.dll"@,
        literals(ESSENTIAL_BINARIES@)[41] == "samlib.dll"@,
        literals(ESSENTIAL_BINARIES@)[42] == "samcli.dll"@,
        literals(ESSENTIAL_BINARIES@)[43] == "logoncli.dll"@,
        literals(ESSENTIAL_BINARIES@)[44] == "sspicli.dll"@,
{
    reveal_strlit("wintrust.dll");
    reveal_strlit("bcrypt.dll");
    reveal_strlit("ncrypt.dll");
    reveal_strlit("setupapi.dll");
    reveal_strlit("cfgmgr32.dll");
    reveal_strlit("version.dll");
    reveal_strlit("wldp.dll");
    reveal_strlit("profapi.dll");
    reveal_strlit("userenv.dll");
    reveal_strlit("whoami.exe");
    reveal_strlit("netutils.dll");
    reveal_strlit("samlib.dll");
    reveal_strlit("samcli.dll");
    reveal_strlit("logoncli.dll");
    reveal_strlit("sspicli.dll");
    assert(plain(literals(ESSENTIAL_BINARIES@)[30]));
    assert(plain(literals(ESSENTIAL_BINARIES@)[31]));
    assert(plain(literals(ESSENTIAL_BINARIES@)[32]));
    assert(plain(literals(ESSENTIAL_BINARIES@)[33]));
    assert(plain(literals(ESSENTIAL_BINARIES@)[34]));
    assert(plain(literals(ESSENTIAL_BINARIES@)[35]));
    assert(plain(literals(ESSENTIAL_BINARIES@)[36]));
    assert(plain(literals(ESSENTIAL_BINARIES@)[37]));
    assert(plain(literals(ESSENTIAL_BINARIES@)[38]));
    assert(plain(literals(ESSENTIAL_BINARIES@)[39]));
    assert(plain(literals(ESSENTIAL_BINARIES@)[40]));
    assert(plain(literals(ESSENTIAL_BINARIES@)[41]));
    assert(plain(literals(ESSENTIAL_BINARIES@)[42]));
    assert(plain(literals(ESSENTIAL_BINARIES@)[43]));
    assert(plain(literals(ESSENTIAL_BINARIES@)[44]));
}

proof fn lemma_essential_names_3()
    ensures
        forall|i: int| 45 <= i < 60 ==> plain(#[trigger] literals(ESSENTIAL_BINARIES@)[i]),
        literals(ESSENTIAL_BINARIES@)[45] == "cryptbase.dll"@,
        literals(ESSENTIAL_BINARIES@)[46] == "secur32.dll"@,
        literals(ESSENTIAL_BINARIES@)[47] == "schannel.dll"@,
        literals(ESSENTIAL_BINARIES@)[48] == "mswsock.dll"@,
        literals(ESSENTIAL_BINARIES@)[49] == "dnsapi.dll"@,
        literals(ESSENTIAL_BINARIES@)[50] == "winnsi.dll"@,
        literals(ESSENTIAL_BINARIES@)[51] == "fwpuclnt.dll"@,
        literals(ESSENTIAL_BINARIES@)[52] == "rasadhlp.dll"@,
        literals(ESSENTIAL_BINARIES@)[53] == "msv1_0.dll"@,
        literals(ESSENTIAL_BINARIES@)[54] == "kerberos.dll"@,
        literals(ESSENTIAL_BINARIES@)[55] == "msasn1.dll"@,
        literals(ESSENTIAL_BINARIES@)[56] == "cryptsp.dll"@,
        literals(ESSENTIAL_BINARIES@)[57] == "rsaenh.dll"@,
        literals(ESSENTIAL_BINARIES@)[58] == "dpapi.dll"@,
        literals(ESSENTIAL_BINARIES@)[59] == "icu.dll"@,
{
    reveal_strlit("cryptbase.dll");
    reveal_strlit("secur32.dll");
    reveal_strlit("schannel.dll");
    reveal_strlit("mswsock.dll");
    reveal_strlit("dnsapi.dll");
    reveal_strlit("winnsi.dll");
    reveal_strlit("fwpuclnt.dll");
    reveal_strlit("rasadhlp.dll");
    reveal_strlit("msv1_0.dll");
    reveal_strlit("kerberos.dll");
    reveal_strlit("msasn1.dll");
    reveal_strlit("cryptsp.dll");
    reveal_strlit("rsaenh.dll");
    reveal_strlit("dpapi.dll");
    reveal_strlit("icu.dll");
    assert(plain(literals(ESSENTIAL_BINARIES@)[45]));
    assert(plain(literals(ESSENTIAL_BINARIES@)[46]));
    assert(plain(literals(ESSENTIAL_BINARIES@)[47]));
    assert(plain(literals(ESSENTIAL_BINARIES@)[48]));
    assert(plain(literals(ESSENTIAL_BINARIES@)[49]));
    assert(plain(literals(ESSENTIAL_BINARIES@)[50]));
    assert(plain(literals(ESSENTIAL_BINARIES@)[51]));
    assert(plain(literals(ESSENTIAL_BINARIES@)[52]));
    assert(plain(literals(ESSENTIAL_BINARIES@)[53]));
    assert(plain(literals(ESSENTIAL_BINARIES@)[54]));
    assert(plain(literals(ESSENTIAL_BINARIES@)[55]));
    assert(plain(literals(ESSENTIAL_BINARIES@)[56]));
    assert(plain(literals(ESSENTIAL_BINARIES@)[57]));
    assert(plain(literals(ESSENTIAL_BINARIES@)[58]));
    assert(plain(literals(ESSENTIAL_BINARIES@)[59]));
}

proof fn lemma_essential_names_4()
    ensures
        forall|i: int| 60 <= i < 75 ==> plain(#[trigger] literals(ESSENTIAL_BINARIES@)[i]),
        literals(ESSENTIAL_BINARIES@)[60] == "icuuc.dll"@,
        literals(ESSENTIAL_BINARIES@)[61] == "icuin.dll"@,
        literals(ESSENTIAL_BINARIES@)[62] == "powrprof.dll"@,
        literals(ESSENTIAL_BINARIES@)[63] == "umpdc.dll"@,
        literals(ESSENTIAL_BINARIES@)[64] == "winmm.dll"@,
        literals(ESSENTIAL_BINARIES@)[65] == "msacm32.dll"@,
        literals(ESSENTIAL_BINARIES@)[66] == "comctl32.dll"@,
        literals(ESSENTIAL_BINARIES@)[67] == "ncryptsslp.dll"@,
        literals(ESSENTIAL_BINARIES@)[68] == "ncryptprov.dll"@,
        literals(ESSENTIAL_BINARIES@)[69] == "gpapi.dll"@,
        literals(ESSENTIAL_BINARIES@)[70] == "msvcp140.dll"@,
        literals(ESSENTIAL_BINARIES@)[71] == "vcruntime140.dll"@,
        literals(ESSENTIAL_BINARIES@)[72] == "vcruntime140_1.dll"@,
        literals(ESSENTIAL_BINARIES@)[73] == "curl.exe"@,
        literals(ESSENTIAL_BINARIES@)[74] == "tar.exe"@,
{
    reveal_strlit("icuuc.dll");
    reveal_strlit("icuin.dll");
    reveal_strlit("powrprof.dll");
    reveal_strlit("umpdc.dll");
    reveal_strlit("winmm.dll");
    reveal_strlit("msacm32.dll");
    reveal_strlit("comctl32.dll");
    reveal_strlit("ncryptsslp.dll");
    reveal_strlit("ncryptprov.dll");
    reveal_strlit("gpapi.dll");
    reveal_strlit("msvcp140.dll");
    reveal_strlit("vcruntime140.dll");
    reveal_strlit("vcruntime140_1.dll");
    reveal_strlit("curl.exe");
    reveal_strlit("tar.exe");
    assert(plain(literals(ESSENTIAL_BINARIES@)[60]));
    assert(plain(literals(ESSENTIAL_BINARIES@)[61]));
    assert(plain(literals(ESSENTIAL_BINARIES@)[62]));
    assert(plain(literals(ESSENTIAL_BINARIES@)[63]));
    assert(plain(literals(ESSENTIAL_BINARIES@)[64]));
    assert(plain(literals(ESSENTIAL_BINARIES@)[65]));
    assert(plain(literals(ESSENTIAL_BINARIES@)[66]));
    assert(plain(literals(ESSENTIAL_BINARIES@)[67]));
    assert(plain(literals(ESSENTIAL_BINARIES@)[68]));
    assert(plain(literals(ESSENTIAL_BINARIES@)[69]));
    assert(plain(literals(ESSENTIAL_BINARIES@)[70]));
    assert(plain(literals(ESSENTIAL_BINARIES@)[71]));
    assert(plain(literals(ESSENTIAL_BINARIES@)[72]));
    assert(plain(literals(ESSENTIAL_BINARIES@)[73]));
    assert(plain(literals(ESSENTIAL_BINARIES@)[74]));
}

proof fn lemma_essential_names()
    ensures
        literals(ESSENTIAL_BINARIES@).len() == 75,
        forall|i: int| 0 <= i < 75 ==> plain(#[trigger] literals(ESSENTIAL_BINARIES@)[i]),
{
    lemma_essential_names_0();
    lemma_essential_names_1();
    lemma_essential_names_2();
    lemma_essential_names_3();
    lemma_essential_names_4();
}

proof fn lemma_plan_parts(root: Seq<char>, host: HostDirs<Seq<char>>, shares: Seq<Seq<char>>, i: int)
    requires
        0 <= i < root_plan(root, host, shares).len(),
    ensures
        ({
            let p = root_plan(root, host, shares);
            let a = skeleton(root, shares);
            let b = share_junctions(root, host, shares);
            let c = if shares.contains("windows"@) {
                shared_windows(root, shares)
            } else {
                windows_mirror(root, host)
            };
            &&& p.len() == a.len() + b.len() + c.len()
            &&& p[i] == (if i < a.len() {
                a[i]
            } else if i < a.len() + b.len() {
                b[i - a.len()]
            } else {
                c[i - a.len() - b.len()]
            })
        }),
{
}

/// Everything that a root directory is prepared with lies below it, whatever is
/// shared: no operation makes, copies to or changes anything of the host.
pub proof fn law_root_plan_stays_inside(
    root: Seq<char>,
    host: HostDirs<Seq<char>>,
    shares: Seq<Seq<char>>,
    i: int,
)
    requires
        0 <= i < root_plan(root, host, shares).len(),
    ensures
        root.is_prefix_of(written(root_plan(root, host, shares)[i])),
        read_of(root_plan(root, host, shares)[i]) matches Some(from) ==> {
            ||| host.system_root.is_prefix_of(from)
            ||| host.program_data.is_prefix_of(from)
            ||| host.program_files.is_prefix_of(from)
            ||| host.program_files_x86.is_prefix_of(from)
        },
{
    lemma_plan_parts(root, host, shares, i);
    lemma_skeleton_ops(root, shares);
    lemma_junction_ops(root, host, shares);
    lemma_shared_ops(root, shares);
    lemma_mirror_ops(root, host);
}

spec fn stays(root: Seq<char>, host: HostDirs<Seq<char>>, op: RootOpModel) -> bool {
    &&& root.is_prefix_of(written(op))
    &&& read_of(op) matches Some(from) ==> {
        ||| host.system_root.is_prefix_of(from)
        ||| host.program_data.is_prefix_of(from)
        ||| host.program_files.is_prefix_of(from)
        ||| host.program_files_x86.is_prefix_of(from)
    }
}

proof fn lemma_skeleton_ops(root: Seq<char>, shares: Seq<Seq<char>>)
    ensures
        forall|i: int| 0 <= i < skeleton(root, shares).len() ==> {
            let op = #[trigger] skeleton(root, shares)[i];
            &&& op is MakeDir
            &&& root.is_prefix_of(written(op))
        },
{
    lemma_plain_names();
    lemma_two_below(root, "Users"@, "ContainerUser"@);
    lemma_below(root, "Temp"@);
    lemma_two_below(root, "Windows"@, "System32"@);
    lemma_two_below(root, "Windows"@, "Temp"@);
    lemma_below(root, "ProgramData"@);
}

proof fn lemma_junction_ops(root: Seq<char>, host: HostDirs<Seq<char>>, shares: Seq<Seq<char>>)
    ensures
        forall|i: int| 0 <= i < share_junctions(root, host, shares).len() ==> {
            let op = #[trigger] share_junctions(root, host, shares)[i];
            stays(root, host, op) && (op is Junction || op is MakeDirIfPossible)
        },
{
    lemma_plain_names();
    lemma_below(root, "Windows"@);
    lemma_below(root, "ProgramData"@);
    lemma_below(root, "Program Files"@);
    lemma_below(root, "Program Files (x86)"@);
    lemma_two_below(root, "Program Files"@, "WindowsApps"@);
    lemma_below(host.program_files, "WindowsApps"@);
    assert(host.system_root.is_prefix_of(host.system_root));
}

proof fn lemma_shared_ops(root: Seq<char>, shares: Seq<Seq<char>>)
    ensures
        forall|i: int| 0 <= i < shared_windows(root, shares).len() ==> {
            let op = #[trigger] shared_windows(root, shares)[i];
            op is LowIntegrity && root.is_prefix_of(written(op))
        },
{
    lemma_plain_names();
    lemma_two_below(root, "Users"@, "ContainerUser"@);
    lemma_below(root, "Temp"@);
    lemma_below(root, "ProgramData"@);
}

proof fn lemma_prefix_chain(a: Seq<char>, b: Seq<char>, c: Seq<char>)
    requires
        a.is_prefix_of(b),
        b.is_prefix_of(c),
    ensures
        a.is_prefix_of(c),
{
    assert(c.take(a.len() as int) =~= b.take(a.len() as int));
}

proof fn lemma_mirror_ops(root: Seq<char>, host: HostDirs<Seq<char>>)
    ensures
        forall|i: int| 0 <= i < windows_mirror(root, host).len() ==> {
            let op = #[trigger] windows_mirror(root, host)[i];
            stays(root, host, op) && !(op is MakeDir) && !(op is Junction)
        },
{
    let m = windows_mirror(root, host);
    let from = joined_path(host.system_root, "System32"@);
    let to = two_below(root, "Windows"@, "System32"@);
    let names = literals(ESSENTIAL_BINARIES@);
    let copies = binary_copies(from, to, names);
    lemma_essential_names();
    lemma_plain_names();
    lemma_below(host.system_root, "System32"@);
    lemma_two_below(root, "Windows"@, "System32"@);
    lemma_below(root, "Temp"@);
    lemma_two_below(root, "Windows"@, "Temp"@);
    lemma_two_below(root, "Users"@, "ContainerUser"@);
    lemma_below(root, "ProgramData"@);
    lemma_below(host.system_root, "Globalization"@);
    lemma_two_below(root, "Windows"@, "Globalization"@);
    lemma_two_below(host.program_data, "Microsoft"@, "Crypto"@);
    lemma_two_below(root, "ProgramData"@, "Microsoft"@);
    lemma_below(two_below(root, "ProgramData"@, "Microsoft"@), "Crypto"@);
    lemma_prefix_chain(
        root,
        two_below(root, "ProgramData"@, "Microsoft"@),
        joined_path(two_below(root, "ProgramData"@, "Microsoft"@), "Crypto"@),
    );
    assert forall|i: int| 0 <= i < m.len() implies ({
        let op = #[trigger] m[i];
        stays(root, host, op) && !(op is MakeDir) && !(op is Junction)
    }) by {
        if i < 75 {
            assert(m[i] == copies[i]);
            lemma_below(from, names[i]);
            lemma_below(to, names[i]);
            lemma_prefix_chain(host.system_root, from, joined_path(from, names[i]));
            lemma_prefix_chain(root, to, joined_path(to, names[i]));
        }
    }
}

/// What a root directory is prepared with. The user's directory and that for
/// temporary files are always made and open to processes of low integrity. A
/// directory of the host is seen in the root exactly where it is shared; where
/// Windows is not shared, its own is made, with the files that programs need.
pub proof fn law_root_plan_contents(
    root: Seq<char>,
    host: HostDirs<Seq<char>>,
    shares: Seq<Seq<char>>,
)
    ensures
        ({
            let p = root_plan(root, host, shares);
            let r = inside(root);
            let windows = shares.contains("windows"@);
            let data = shares.contains("programdata"@);
            let apps = shares.contains("windowsapps"@) && !shares.contains("programfiles"@);
            &&& p.contains(RootOp::MakeDir(r + "Users\\ContainerUser"@))
            &&& p.contains(RootOp::MakeDir(r + "Temp"@))
            &&& p.contains(RootOp::LowIntegrity(r + "Users\\ContainerUser"@))
            &&& p.contains(RootOp::LowIntegrity(r + "Temp"@))
            &&& !windows ==> p.contains(RootOp::MakeDir(r + "Windows\\System32"@))
            &&& !windows ==> p.contains(RootOp::MakeDir(r + "Windows\\Temp"@))
            &&& !windows ==> p.contains(RootOp::LowIntegrity(r + "Windows\\Temp"@))
            &&& !data ==> p.contains(RootOp::MakeDir(r + "ProgramData"@))
            &&& !windows || !data ==> p.contains(RootOp::LowIntegrity(r + "ProgramData"@))
            &&& !windows ==> p.contains(
                RootOp::CopyLocales {
                    from: inside(host.system_root) + "System32"@,
                    to: r + "Windows\\System32"@,
                },
            )
            &&& !windows ==> p.contains(
                RootOp::CopyTree {
                    from: inside(host.system_root) + "Globalization"@,
                    to: r + "Windows\\Globalization"@,
                },
            )
            &&& !windows ==> p.contains(
                RootOp::CopyTreeIfPossible {
                    from: inside(host.program_data) + "Microsoft\\Crypto"@,
                    to: r + "ProgramData\\Microsoft\\Crypto"@,
                },
            )
            &&& windows ==> p.contains(
                RootOp::Junction { at: r + "Windows"@, target: host.system_root },
            )
            &&& data ==> p.contains(
                RootOp::Junction { at: r + "ProgramData"@, target: host.program_data },
            )
            &&& shares.contains("programfiles"@) ==> p.contains(
                RootOp::Junction { at: r + "Program Files"@, target: host.program_files },
            )
            &&& shares.contains("programfilesx86"@) ==> p.contains(
                RootOp::Junction { at: r + "Program Files (x86)"@, target: host.program_files_x86 },
            )
            &&& apps ==> p.contains(RootOp::MakeDirIfPossible(r + "Program Files"@))
            &&& apps ==> p.contains(
                RootOp::Junction {
                    at: r + "Program Files\\WindowsApps"@,
                    target: inside(host.program_files) + "WindowsApps"@,
                },
            )
        }),
{
    let p = root_plan(root, host, shares);
    let a = skeleton(root, shares);
    let b = share_junctions(root, host, shares);
    let windows = shares.contains("windows"@);
    let data = shares.contains("programdata"@);
    let c = if windows {
        shared_windows(root, shares)
    } else {
        windows_mirror(root, host)
    };
    assert forall|x: RootOpModel| a.contains(x) || b.contains(x) || c.contains(x) implies
        #[trigger] p.contains(x) by {
        if a.contains(x) {
            let i = choose|i: int| 0 <= i < a.len() && a[i] == x;
            assert(p[i] == x);
        } else if b.contains(x) {
            let i = choose|i: int| 0 <= i < b.len() && b[i] == x;
            assert(p[a.len() + i] == x);
        } else {
            let i = choose|i: int| 0 <= i < c.len() && c[i] == x;
            assert(p[a.len() + b.len() + i] == x);
        }
    }
    lemma_skeleton_has(root, shares);
    lemma_junctions_have(root, host, shares);
    lemma_mirror_has(root, host);
    lemma_shared_has(root, shares);
}

proof fn lemma_spelled(root: Seq<char>)
    ensures
        ({
            let r = inside(root);
            &&& two_below(root, "Users"@, "ContainerUser"@) == r + "Users\\ContainerUser"@
            &&& two_below(root, "Windows"@, "System32"@) == r + "Windows\\System32"@
            &&& two_below(root, "Windows"@, "Temp"@) == r + "Windows\\Temp"@
            &&& two_below(root, "Windows"@, "Globalization"@) == r + "Windows\\Globalization"@
            &&& two_below(root, "Microsoft"@, "Crypto"@) == r + "Microsoft\\Crypto"@
            &&& two_below(root, "Program Files"@, "WindowsApps"@) == r
                + "Program Files\\WindowsApps"@
            &&& joined_path(two_below(root, "ProgramData"@, "Microsoft"@), "Crypto"@) == r
                + "ProgramData\\Microsoft\\Crypto"@
        }),
{
    let r = inside(root);
    lemma_plain_names();
    lemma_two_below(root, "Users"@, "ContainerUser"@);
    lemma_two_below(root, "Windows"@, "System32"@);
    lemma_two_below(root, "Windows"@, "Temp"@);
    lemma_two_below(root, "Windows"@, "Globalization"@);
    lemma_two_below(root, "Microsoft"@, "Crypto"@);
    lemma_two_below(root, "Program Files"@, "WindowsApps"@);
    lemma_two_below(root, "ProgramData"@, "Microsoft"@);
    lemma_below(two_below(root, "ProgramData"@, "Microsoft"@), "Crypto"@);
    reveal_strlit("ContainerUser");
    reveal_strlit("Crypto");
    reveal_strlit("Globalization");
    reveal_strlit("Microsoft");
    reveal_strlit("Program Files");
    reveal_strlit("ProgramData");
    reveal_strlit("System32");
    reveal_strlit("Temp");
    reveal_strlit("Users");
    reveal_strlit("Windows");
    reveal_strlit("WindowsApps");
    reveal_strlit("\\");
    reveal_strlit("Users\\ContainerUser");
    reveal_strlit("Windows\\System32");
    reveal_strlit("Windows\\Temp");
    reveal_strlit("Windows\\Globalization");
    reveal_strlit("Microsoft\\Crypto");
    reveal_strlit("Program Files\\WindowsApps");
    reveal_strlit("ProgramData\\Microsoft\\Crypto");
    assert("Users"@ + "\\"@ + "ContainerUser"@ =~= "Users\\ContainerUser"@);
    assert(r + "Users"@ + "\\"@ + "ContainerUser"@ =~= r + ("Users"@ + "\\"@ + "ContainerUser"@));
    assert("Windows"@ + "\\"@ + "System32"@ =~= "Windows\\System32"@);
    assert(r + "Windows"@ + "\\"@ + "System32"@ =~= r + ("Windows"@ + "\\"@ + "System32"@));
    assert("Windows"@ + "\\"@ + "Temp"@ =~= "Windows\\Temp"@);
    assert(r + "Windows"@ + "\\"@ + "Temp"@ =~= r + ("Windows"@ + "\\"@ + "Temp"@));
    assert("Windows"@ + "\\"@ + "Globalization"@ =~= "Windows\\Globalization"@);
    assert(r + "Windows"@ + "\\"@ + "Globalization"@ =~= r + ("Windows"@ + "\\"@ + "Globalization"@));
    assert("Microsoft"@ + "\\"@ + "Crypto"@ =~= "Microsoft\\Crypto"@);
    assert(r + "Microsoft"@ + "\\"@ + "Crypto"@ =~= r + ("Microsoft"@ + "\\"@ + "Crypto"@));
    assert("Program Files"@ + "\\"@ + "WindowsApps"@ =~= "Program Files\\WindowsApps"@);
    assert(r + "Program Files"@ + "\\"@ + "WindowsApps"@ =~= r + ("Program Files"@ + "\\"@ + "WindowsApps"@));
    assert("ProgramData"@ + "\\"@ + "Microsoft"@ + "\\"@ + "Crypto"@
        =~= "ProgramData\\Microsoft\\Crypto"@);
    assert(r + "ProgramData"@ + "\\"@ + "Microsoft"@ + "\\"@ + "Crypto"@ =~= r + (
    "ProgramData"@ + "\\"@ + "Microsoft"@ + "\\"@ + "Crypto"@));
}

proof fn lemma_skeleton_has(root: Seq<char>, shares: Seq<Seq<char>>)
    ensures
        ({
            let a = skeleton(root, shares);
            let r = inside(root);
            let windows = shares.contains("windows"@);
            &&& a.contains(RootOp::MakeDir(r + "Users\\ContainerUser"@))
            &&& a.contains(RootOp::MakeDir(r + "Temp"@))
            &&& !windows ==> a.contains(RootOp::MakeDir(r + "Windows\\System32"@))
            &&& !windows ==> a.contains(RootOp::MakeDir(r + "Windows\\Temp"@))
            &&& !shares.contains("programdata"@) ==> a.contains(
                RootOp::MakeDir(r + "ProgramData"@),
            )
        }),
{
    lemma_spelled(root);
    lemma_plain_names();
    lemma_below(root, "Temp"@);
    lemma_below(root, "ProgramData"@);
    let a = skeleton(root, shares);
    let r = inside(root);
    assert(a[0] == RootOpModel::MakeDir(r + "Users\\ContainerUser"@));
    assert(a[1] == RootOpModel::MakeDir(r + "Temp"@));
    if !shares.contains("windows"@) {
        assert(a[2] == RootOpModel::MakeDir(r + "Windows\\System32"@));
        assert(a[3] == RootOpModel::MakeDir(r + "Windows\\Temp"@));
    }
    if !shares.contains("programdata"@) {
        assert(a.last() == RootOpModel::MakeDir(r + "ProgramData"@));
    }
}

proof fn lemma_has_op(a: Seq<RootOpModel>, b: Seq<RootOpModel>, x: RootOpModel)
    ensures
        (a + b).contains(x) <==> a.contains(x) || b.contains(x),
{
    let s = a + b;
    if a.contains(x) {
        let i = choose|i: int| 0 <= i < a.len() && a[i] == x;
        assert(s[i] == x);
    }
    if b.contains(x) {
        let i = choose|i: int| 0 <= i < b.len() && b[i] == x;
        assert(s[a.len() + i] == x);
    }
}

proof fn lemma_junctions_have(root: Seq<char>, host: HostDirs<Seq<char>>, shares: Seq<Seq<char>>)
    ensures
        ({
            let b = share_junctions(root, host, shares);
            let r = inside(root);
            let apps = shares.contains("windowsapps"@) && !shares.contains("programfiles"@);
            &&& shares.contains("windows"@) ==> b.contains(
                RootOp::Junction { at: r + "Windows"@, target: host.system_root },
            )
            &&& shares.contains("programdata"@) ==> b.contains(
                RootOp::Junction { at: r + "ProgramData"@, target: host.program_data },
            )
            &&& shares.contains("programfiles"@) ==> b.contains(
                RootOp::Junction { at: r + "Program Files"@, target: host.program_files },
            )
            &&& shares.contains("programfilesx86"@) ==> b.contains(
                RootOp::Junction { at: r + "Program Files (x86)"@, target: host.program_files_x86 },
            )
            &&& apps ==> b.contains(RootOp::MakeDirIfPossible(r + "Program Files"@))
            &&& apps ==> b.contains(
                RootOp::Junction {
                    at: r + "Program Files\\WindowsApps"@,
                    target: inside(host.program_files) + "WindowsApps"@,
                },
            )
        }),
{
    lemma_spelled(root);
    lemma_plain_names();
    lemma_below(root, "Windows"@);
    lemma_below(root, "ProgramData"@);
    lemma_below(root, "Program Files"@);
    lemma_below(root, "Program Files (x86)"@);
    lemma_below(host.program_files, "WindowsApps"@);
    let r = inside(root);
    let apps = shares.contains("windowsapps"@) && !shares.contains("programfiles"@);
    let o1 = RootOpModel::Junction { at: r + "Windows"@, target: host.system_root };
    let o2 = RootOpModel::Junction { at: r + "ProgramData"@, target: host.program_data };
    let o3 = RootOpModel::Junction { at: r + "Program Files"@, target: host.program_files };
    let o4 = RootOpModel::Junction {
        at: r + "Program Files (x86)"@,
        target: host.program_files_x86,
    };
    let o5 = RootOpModel::MakeDirIfPossible(r + "Program Files"@);
    let o6 = RootOpModel::Junction {
        at: r + "Program Files\\WindowsApps"@,
        target: inside(host.program_files) + "WindowsApps"@,
    };
    let a1 = only_if(shares.contains("windows"@), o1);
    let a2 = only_if(shares.contains("programdata"@), o2);
    let a3 = only_if(shares.contains("programfiles"@), o3);
    let a4 = only_if(shares.contains("programfilesx86"@), o4);
    let a5 = only_if(apps, o5);
    let a6 = only_if(apps, o6);
    assert(share_junctions(root, host, shares) == a1 + a2 + a3 + a4 + a5 + a6);
    assert(seq![o1][0] == o1 && seq![o2][0] == o2 && seq![o3][0] == o3);
    assert(seq![o4][0] == o4 && seq![o5][0] == o5 && seq![o6][0] == o6);
    assert forall|x: RootOpModel|
        a1.contains(x) || a2.contains(x) || a3.contains(x) || a4.contains(x) || a5.contains(x)
            || a6.contains(x) implies #[trigger] share_junctions(root, host, shares).contains(
        x,
    ) by {
        lemma_has_op(a1, a2, x);
        lemma_has_op(a1 + a2, a3, x);
        lemma_has_op(a1 + a2 + a3, a4, x);
        lemma_has_op(a1 + a2 + a3 + a4, a5, x);
        lemma_has_op(a1 + a2 + a3 + a4 + a5, a6, x);
    }
}

proof fn lemma_mirror_has(root: Seq<char>, host: HostDirs<Seq<char>>)
    ensures
        ({
            let m = windows_mirror(root, host);
            let r = inside(root);
            &&& m.contains(
                RootOp::CopyLocales {
                    from: inside(host.system_root) + "System32"@,
                    to: r + "Windows\\System32"@,
                },
            )
            &&& m.contains(RootOp::LowIntegrity(r + "Temp"@))
            &&& m.contains(RootOp::LowIntegrity(r + "Windows\\Temp"@))
            &&& m.contains(RootOp::LowIntegrity(r + "Users\\ContainerUser"@))
            &&& m.contains(RootOp::LowIntegrity(r + "ProgramData"@))
            &&& m.contains(
                RootOp::CopyTree {
                    from: inside(host.system_root) + "Globalization"@,
                    to: r + "Windows\\Globalization"@,
                },
            )
            &&& m.contains(
                RootOp::CopyTreeIfPossible {
                    from: inside(host.program_data) + "Microsoft\\Crypto"@,
                    to: r + "ProgramData\\Microsoft\\Crypto"@,
                },
            )
        }),
{
    let m = windows_mirror(root, host);
    let r = inside(root);
    lemma_spelled(root);
    lemma_spelled(host.program_data);
    lemma_plain_names();
    lemma_essential_names();
    lemma_below(host.system_root, "System32"@);
    lemma_below(host.system_root, "Globalization"@);
    lemma_below(root, "Temp"@);
    lemma_below(root, "ProgramData"@);
    assert(m[75] == RootOpModel::CopyLocales {
        from: inside(host.system_root) + "System32"@,
        to: r + "Windows\\System32"@,
    });
    assert(m[76] == RootOpModel::LowIntegrity(r + "Temp"@));
    assert(m[77] == RootOpModel::LowIntegrity(r + "Windows\\Temp"@));
    assert(m[78] == RootOpModel::LowIntegrity(r + "Users\\ContainerUser"@));
    assert(m[79] == RootOpModel::LowIntegrity(r + "ProgramData"@));
    assert(m[80] == RootOpModel::CopyTree {
        from: inside(host.system_root) + "Globalization"@,
        to: r + "Windows\\Globalization"@,
    });
    assert(m[81] == RootOpModel::CopyTreeIfPossible {
        from: inside(host.program_data) + "Microsoft\\Crypto"@,
        to: r + "ProgramData\\Microsoft\\Crypto"@,
    });
}

proof fn lemma_shared_has(root: Seq<char>, shares: Seq<Seq<char>>)
    ensures
        ({
            let c = shared_windows(root, shares);
            let r = inside(root);
            &&& c.contains(RootOp::LowIntegrity(r + "Temp"@))
            &&& c.contains(RootOp::LowIntegrity(r + "Users\\ContainerUser"@))
            &&& !shares.contains("programdata"@) ==> c.contains(
                RootOp::LowIntegrity(r + "ProgramData"@),
            )
        }),
{
    let c = shared_windows(root, shares);
    let r = inside(root);
    lemma_spelled(root);
    lemma_plain_names();
    lemma_below(root, "Temp"@);
    lemma_below(root, "ProgramData"@);
    assert(c[0] == RootOpModel::LowIntegrity(r + "Temp"@));
    assert(c[1] == RootOpModel::LowIntegrity(r + "Users\\ContainerUser"@));
    if !shares.contains("programdata"@) {
        assert(c[2] == RootOpModel::LowIntegrity(r + "ProgramData"@));
    }
}

/// A directory of the host is seen in the root only where it is shared, and
/// where Windows is shared nothing is copied; directories are made before
/// anything is put into them.
pub proof fn law_only_shares_are_seen(
    root: Seq<char>,
    host: HostDirs<Seq<char>>,
    shares: Seq<Seq<char>>,
    i: int,
)
    requires
        0 <= i < root_plan(root, host, shares).len(),
    ensures
        ({
            let p = root_plan(root, host, shares);
            let r = inside(root);
            &&& p[i] matches RootOp::Junction { at, target } ==> {
                ||| shares.contains("windows"@) && at == r + "Windows"@ && target
                    == host.system_root
                ||| shares.contains("programdata"@) && at == r + "ProgramData"@ && target
                    == host.program_data
                ||| shares.contains("programfiles"@) && at == r + "Program Files"@ && target
                    == host.program_files
                ||| shares.contains("programfilesx86"@) && at == r + "Program Files (x86)"@
                    && target == host.program_files_x86
                ||| shares.contains("windowsapps"@) && at == r + "Program Files\\WindowsApps"@
                    && target == inside(host.program_files) + "WindowsApps"@
            }
            &&& p[i] is MakeDir ==> forall|j: int| 0 <= j < i ==> #[trigger] p[j] is MakeDir
            &&& shares.contains("windows"@) ==> !(p[i] is CopyFile) && !(p[i] is CopyLocales)
        }),
{
    let p = root_plan(root, host, shares);
    let a = skeleton(root, shares);
    let b = share_junctions(root, host, shares);
    lemma_plan_parts(root, host, shares, i);
    lemma_skeleton_ops(root, shares);
    lemma_junction_ops(root, host, shares);
    lemma_shared_ops(root, shares);
    lemma_mirror_ops(root, host);
    lemma_spelled(root);
    lemma_plain_names();
    lemma_below(root, "Windows"@);
    lemma_below(root, "ProgramData"@);
    lemma_below(root, "Program Files"@);
    lemma_below(root, "Program Files (x86)"@);
    lemma_below(host.program_files, "WindowsApps"@);
    assert forall|j: int| 0 <= j < i && p[i] is MakeDir implies #[trigger] p[j] is MakeDir by {
        lemma_plan_parts(root, host, shares, j);
    }
}

/// The files that shells, the loader, the network and the tools need.
pub open spec fn essential(name: Seq<char>) -> bool {
    ||| name == "ntdll.dll"@
    ||| name == "kernel32.dll"@
    ||| name == "kernelbase.dll"@
    ||| name == "ucrtbase.dll"@
    ||| name == "msvcrt.dll"@
    ||| name == "cmd.exe"@
    ||| name == "conhost.exe"@
    ||| name == "advapi32.dll"@
    ||| name == "sechost.dll"@
    ||| name == "rpcrt4.dll"@
    ||| name == "bcryptprimitives.dll"@
    ||| name == "user32.dll"@
    ||| name == "win32u.dll"@
    ||| name == "gdi32.dll"@
    ||| name == "gdi32full.dll"@
    ||| name == "msvcp_win.dll"@
    ||| name == "combase.dll"@
    ||| name == "oleaut32.dll"@
    ||| name == "shell32.dll"@
    ||| name == "shlwapi.dll"@
    ||| name == "ole32.dll"@
    ||| name == "imm32.dll"@
    ||| name == "ws2_32.dll"@
    ||| name == "nsi.dll"@
    ||| name == "iphlpapi.dll"@
    ||| name == "powershell.exe"@
    ||| name == "netapi32.dll"@
    ||| name == "winhttp.dll"@
    ||| name == "wininet.dll"@
    ||| name == "crypt32.dll"@
    ||| name == "wintrust.dll"@
    ||| name == "bcrypt.dll"@
    ||| name == "ncrypt.dll"@
    ||| name == "setupapi.dll"@
    ||| name == "cfgmgr32.dll"@
    ||| name == "version.dll"@
    ||| name == "wldp.dll"@
    ||| name == "profapi.dll"@
    ||| name == "userenv.dll"@
    ||| name == "whoami.exe"@
    ||| name == "netutils.dll"@
    ||| name == "samlib.dll"@
    ||| name == "samcli.dll"@
    ||| name == "logoncli.dll"@
    ||| name == "sspicli.dll"@
    ||| name == "cryptbase.dll"@
    ||| name == "secur32.dll"@
    ||| name == "schannel.dll"@
    ||| name == "mswsock.dll"@
    ||| name == "dnsapi.dll"@
    ||| name == "winnsi.dll"@
    ||| name == "fwpuclnt.dll"@
    ||| name == "rasadhlp.dll"@
    ||| name == "msv1_0.dll"@
    ||| name == "kerberos.dll"@
    ||| name == "msasn1.dll"@
    ||| name == "cryptsp.dll"@
    ||| name == "rsaenh.dll"@
    ||| name == "dpapi.dll"@
    ||| name == "icu.dll"@
    ||| name == "icuuc.dll"@
    ||| name == "icuin.dll"@
    ||| name == "powrprof.dll"@
    ||| name == "umpdc.dll"@
    ||| name == "winmm.dll"@
    ||| name == "msacm32.dll"@
    ||| name == "comctl32.dll"@
    ||| name == "ncryptsslp.dll"@
    ||| name == "ncryptprov.dll"@
    ||| name == "gpapi.dll"@
    ||| name == "msvcp140.dll"@
    ||| name == "vcruntime140.dll"@
    ||| name == "vcruntime140_1.dll"@
    ||| name == "curl.exe"@
    ||| name == "tar.exe"@
}

proof fn lemma_essential_at(name: Seq<char>) -> (k: int)
    requires
        essential(name),
    ensures
        0 <= k < 75,
        literals(ESSENTIAL_BINARIES@)[k] == name,
{
    lemma_essential_names_0();
    lemma_essential_names_1();
    lemma_essential_names_2();
    lemma_essential_names_3();
    lemma_essential_names_4();
    if name == "ntdll.dll"@ {
        0
    } else if name == "kernel32.dll"@ {
        1
    } else if name == "kernelbase.dll"@ {
        2
    } else if name == "ucrtbase.dll"@ {
        3
    } else if name == "msvcrt.dll"@ {
        4
    } else if name == "cmd.exe"@ {
        5
    } else if name == "conhost.exe"@ {
        6
    } else if name == "advapi32.dll"@ {
        7
    } else if name == "sechost.dll"@ {
        8
    } else if name == "rpcrt4.dll"@ {
        9
    } else if name == "bcryptprimitives.dll"@ {
        10
    } else if name == "user32.dll"@ {
        11
    } else if name == "win32u.dll"@ {
        12
    } else if name == "gdi32.dll"@ {
        13
    } else if name == "gdi32full.dll"@ {
        14
    } else if name == "msvcp_win.dll"@ {
        15
    } else if name == "combase.dll"@ {
        16
    } else if name == "oleaut32.dll"@ {
        17
    } else if name == "shell32.dll"@ {
        18
    } else if name == "shlwapi.dll"@ {
        19
    } else if name == "ole32.dll"@ {
        20
    } else if name == "imm32.dll"@ {
        21
    } else if name == "ws2_32.dll"@ {
        22
    } else if name == "nsi.dll"@ {
        23
    } else if name == "iphlpapi.dll"@ {
        24
    } else if name == "powershell.exe"@ {
        25
    } else if name == "netapi32.dll"@ {
        26
    } else if name == "winhttp.dll"@ {
        27
    } else if name == "wininet.dll"@ {
        28
    } else if name == "crypt32.dll"@ {
        29
    } else if name == "wintrust.dll"@ {
        30
    } else if name == "bcrypt.dll"@ {
        31
    } else if name == "ncrypt.dll"@ {
        32
    } else if name == "setupapi.dll"@ {
        33
    } else if name == "cfgmgr32.dll"@ {
        34
    } else if name == "version.dll"@ {
        35
    } else if name == "wldp.dll"@ {
        36
    } else if name == "profapi.dll"@ {
        37
    } else if name == "userenv.dll"@ {
        38
    } else if name == "whoami.exe"@ {
        39
    } else if name == "netutils.dll"@ {
        40
    } else if name == "samlib.dll"@ {
        41
    } else if name == "samcli.dll"@ {
        42
    } else if name == "logoncli.dll"@ {
        43
    } else if name == "sspicli.dll"@ {
        44
    } else if name == "cryptbase.dll"@ {
        45
    } else if name == "secur32.dll"@ {
        46
    } else if name == "schannel.dll"@ {
        47
    } else if name == "mswsock.dll"@ {
        48
    } else if name == "dnsapi.dll"@ {
        49
    } else if name == "winnsi.dll"@ {
        50
    } else if name == "fwpuclnt.dll"@ {
        51
    } else if name == "rasadhlp.dll"@ {
        52
    } else if name == "msv1_0.dll"@ {
        53
    } else if name == "kerberos.dll"@ {
        54
    } else if name == "msasn1.dll"@ {
        55
    } else if name == "cryptsp.dll"@ {
        56
    } else if name == "rsaenh.dll"@ {
        57
    } else if name == "dpapi.dll"@ {
        58
    } else if name == "icu.dll"@ {
        59
    } else if name == "icuuc.dll"@ {
        60
    } else if name == "icuin.dll"@ {
        61
    } else if name == "powrprof.dll"@ {
        62
    } else if name == "umpdc.dll"@ {
        63
    } else if name == "winmm.dll"@ {
        64
    } else if name == "msacm32.dll"@ {
        65
    } else if name == "comctl32.dll"@ {
        66
    } else if name == "ncryptsslp.dll"@ {
        67
    } else if name == "ncryptprov.dll"@ {
        68
    } else if name == "gpapi.dll"@ {
        69
    } else if name == "msvcp140.dll"@ {
        70
    } else if name == "vcruntime140.dll"@ {
        71
    } else if name == "vcruntime140_1.dll"@ {
        72
    } else if name == "curl.exe"@ {
        73
    } else {
        74
    }
}

/// Where Windows is not shared, each file of the host's system directory that
/// shells, the loader, the network and the tools need is copied to the system
/// directory of the root, under its own name.
pub proof fn law_essential_files_are_copied(
    root: Seq<char>,
    host: HostDirs<Seq<char>>,
    shares: Seq<Seq<char>>,
    name: Seq<char>,
)
    requires
        !shares.contains("windows"@),
    ensures
        root_plan(root, host, shares).contains(
            RootOp::CopyFile {
                from: inside(host.system_root) + "System32\\"@ + name,
                to: inside(root) + "Windows\\System32\\"@ + name,
            },
        ) <== essential(name),
        forall|i: int|
            0 <= i < root_plan(root, host, shares).len() && #[trigger] root_plan(
                root,
                host,
                shares,
            )[i] is CopyFile ==> exists|k: int|
                0 <= k < 75 && root_plan(root, host, shares)[i] == (RootOp::CopyFile {
                    from: inside(host.system_root) + "System32\\"@ + #[trigger] literals(
                        ESSENTIAL_BINARIES@,
                    )[k],
                    to: inside(root) + "Windows\\System32\\"@ + literals(
                        ESSENTIAL_BINARIES@,
                    )[k],
                }),
{
    let p = root_plan(root, host, shares);
    let a = skeleton(root, shares);
    let b = share_junctions(root, host, shares);
    let m = windows_mirror(root, host);
    let n = (a.len() + b.len()) as int;
    let names = literals(ESSENTIAL_BINARIES@);
    lemma_essential_names();
    lemma_skeleton_ops(root, shares);
    lemma_junction_ops(root, host, shares);
    assert forall|k: int| 0 <= k < 75 implies #[trigger] p[n + k] == (RootOpModel::CopyFile {
        from: inside(host.system_root) + "System32\\"@ + names[k],
        to: inside(root) + "Windows\\System32\\"@ + names[k],
    }) by {
        assert(p[n + k] == m[k]);
        lemma_copied(root, host, k);
    }
    assert forall|i: int| 0 <= i < p.len() && #[trigger] p[i] is CopyFile implies exists|k: int|
        0 <= k < 75 && p[i] == (RootOpModel::CopyFile {
            from: inside(host.system_root) + "System32\\"@ + #[trigger] names[k],
            to: inside(root) + "Windows\\System32\\"@ + names[k],
        }) by {
        lemma_plan_parts(root, host, shares, i);
        assert(i >= n);
        assert(p[i] == m[i - n]);
        assert(i - n < 75);
        assert(p[n + (i - n)] is CopyFile);
        assert(names[i - n] == names[i - n]);
    }
    if essential(name) {
        let k = lemma_essential_at(name);
        let copy = RootOpModel::CopyFile {
            from: inside(host.system_root) + "System32\\"@ + name,
            to: inside(root) + "Windows\\System32\\"@ + name,
        };
        assert(p[n + k] == copy);
        assert(n + k < p.len());
    }
}

proof fn lemma_copied(root: Seq<char>, host: HostDirs<Seq<char>>, k: int)
    requires
        0 <= k < 75,
    ensures
        windows_mirror(root, host)[k] == (RootOpModel::CopyFile {
            from: inside(host.system_root) + "System32\\"@ + literals(ESSENTIAL_BINARIES@)[k],
            to: inside(root) + "Windows\\System32\\"@ + literals(ESSENTIAL_BINARIES@)[k],
        }),
{
    let names = literals(ESSENTIAL_BINARIES@);
    let from = joined_path(host.system_root, "System32"@);
    let to = two_below(root, "Windows"@, "System32"@);
    lemma_essential_names();
    lemma_plain_names();
    lemma_spelled(root);
    lemma_below(host.system_root, "System32"@);
    lemma_two_below(root, "Windows"@, "System32"@);
    lemma_below(from, names[k]);
    lemma_below(to, names[k]);
    reveal_strlit("\\");
    reveal_strlit("Windows");
    reveal_strlit("System32");
    reveal_strlit("System32\\");
    reveal_strlit("Windows\\System32\\");
    assert("System32"@.push('\\') =~= "System32\\"@);
    assert("Windows"@ + "\\"@ + "System32"@ + "\\"@ =~= "Windows\\System32\\"@);
    assert(inside(to) =~= inside(root) + ("Windows"@ + "\\"@ + "System32"@ + "\\"@));
    assert(windows_mirror(root, host)[k] == binary_copies(from, to, names)[k]);
}

/// Whether a list holds a string.
pub fn list_has(v: &Vec<String>, s: &str) -> (r: bool)
    ensures
        r == texts(v@).contains(s@),
{
    let mut i: usize = 0;
    while i < v.len()
        invariant
            i <= v.len(),
            forall|j: int| 0 <= j < i ==> texts(v@)[j] != s@,
        decreases v.len() - i,
    {
        if same(v[i].as_str(), s) {
            assert(texts(v@)[i as int] == s@);
            return true;
        }
        i = i + 1;
    }
    false
}

fn push_op(v: &mut Vec<RootOp<String>>, op: RootOp<String>)
    ensures
        ops(final(v)@) == ops(old(v)@).push(op@),
{
    let ghost before = v@;
    v.push(op);
    assert(ops(v@) =~= ops(before).push(op@));
}

fn push_op_if(v: &mut Vec<RootOp<String>>, b: bool, op: RootOp<String>)
    ensures
        ops(final(v)@) == ops(old(v)@) + only_if(b, op@),
{
    let ghost before = v@;
    if b {
        push_op(v, op);
    }
    assert(ops(v@) =~= ops(before) + only_if(b, op@));
}

fn join_two(dir: &str, a: &str, b: &str) -> (s: String)
    ensures
        s@ == two_below(dir@, a@, b@),
{
    let d = join_path(dir, a);
    join_path(d.as_str(), b)
}

fn skeleton_ops(root: &str, windows: bool, data: bool) -> (v: Vec<RootOp<String>>)
    ensures
        forall|shares: Seq<Seq<char>>|
            windows == shares.contains("windows"@) && data == shares.contains("programdata"@)
                ==> ops(v@) == #[trigger] skeleton(root@, shares),
{
    let mut v: Vec<RootOp<String>> = Vec::new();
    assert(ops(v@) =~= Seq::<RootOpModel>::empty());
    push_op(&mut v, RootOp::MakeDir(join_two(root, "Users", "ContainerUser")));
    push_op(&mut v, RootOp::MakeDir(join_path(root, "Temp")));
    push_op_if(&mut v, !windows, RootOp::MakeDir(join_two(root, "Windows", "System32")));
    push_op_if(&mut v, !windows, RootOp::MakeDir(join_two(root, "Windows", "Temp")));
    push_op_if(&mut v, !data, RootOp::MakeDir(join_path(root, "ProgramData")));
    assert forall|shares: Seq<Seq<char>>|
        windows == shares.contains("windows"@) && data == shares.contains(
            "programdata"@,
        ) implies ops(v@) == #[trigger] skeleton(root@, shares) by {
        assert(ops(v@) =~= skeleton(root@, shares));
    }
    v
}

fn junction_ops(root: &str, host: &HostDirs<String>, shares: &Vec<String>) -> (v: Vec<
    RootOp<String>,
>)
    ensures
        ops(v@) == share_junctions(root@, host@, texts(shares@)),
{
    let files = list_has(shares, "programfiles");
    let apps = list_has(shares, "windowsapps") && !files;
    let mut v: Vec<RootOp<String>> = Vec::new();
    assert(ops(v@) =~= Seq::<RootOpModel>::empty());
    push_op_if(
        &mut v,
        list_has(shares, "windows"),
        RootOp::Junction { at: join_path(root, "Windows"), target: host.system_root.clone() },
    );
    push_op_if(
        &mut v,
        list_has(shares, "programdata"),
        RootOp::Junction { at: join_path(root, "ProgramData"), target: host.program_data.clone() },
    );
    push_op_if(
        &mut v,
        files,
        RootOp::Junction {
            at: join_path(root, "Program Files"),
            target: host.program_files.clone(),
        },
    );
    push_op_if(
        &mut v,
        list_has(shares, "programfilesx86"),
        RootOp::Junction {
            at: join_path(root, "Program Files (x86)"),
            target: host.program_files_x86.clone(),
        },
    );
    push_op_if(&mut v, apps, RootOp::MakeDirIfPossible(join_path(root, "Program Files")));
    push_op_if(
        &mut v,
        apps,
        RootOp::Junction {
            at: join_two(root, "Program Files", "WindowsApps"),
            target: join_path(host.program_files.as_str(), "WindowsApps"),
        },
    );
    assert(ops(v@) =~= share_junctions(root@, host@, texts(shares@)));
    v
}

fn mirror_ops(root: &str, host: &HostDirs<String>) -> (v: Vec<RootOp<String>>)
    ensures
        ops(v@) == windows_mirror(root@, host@),
{
    let from = join_path(host.system_root.as_str(), "System32");
    let to = join_two(root, "Windows", "System32");
    let ghost names = literals(ESSENTIAL_BINARIES@);
    let ghost copies = binary_copies(from@, to@, names);
    let mut v: Vec<RootOp<String>> = Vec::new();
    let mut i: usize = 0;
    assert(ops(v@) =~= copies.take(0));
    while i < ESSENTIAL_BINARIES.len()
        invariant
            i <= 75,
            names == literals(ESSENTIAL_BINARIES@),
            copies == binary_copies(from@, to@, names),
            ops(v@) == copies.take(i as int),
        decreases 75 - i,
    {
        let name: &'static str = ESSENTIAL_BINARIES[i];
        assert(names[i as int] == name@);
        push_op(
            &mut v,
            RootOp::CopyFile {
                from: join_path(from.as_str(), name),
                to: join_path(to.as_str(), name),
            },
        );
        assert(copies.take(i + 1) =~= copies.take(i as int).push(copies[i as int]));
        i = i + 1;
    }
    assert(copies.take(75) =~= copies);
    push_op(&mut v, RootOp::CopyLocales { from: from.clone(), to: to.clone() });
    push_op(&mut v, RootOp::LowIntegrity(join_path(root, "Temp")));
    push_op(&mut v, RootOp::LowIntegrity(join_two(root, "Windows", "Temp")));
    push_op(&mut v, RootOp::LowIntegrity(join_two(root, "Users", "ContainerUser")));
    push_op(&mut v, RootOp::LowIntegrity(join_path(root, "ProgramData")));
    push_op(
        &mut v,
        RootOp::CopyTree {
            from: join_path(host.system_root.as_str(), "Globalization"),
            to: join_two(root, "Windows", "Globalization"),
        },
    );
    let crypto = join_two(root, "ProgramData", "Microsoft");
    push_op(
        &mut v,
        RootOp::CopyTreeIfPossible {
            from: join_two(host.program_data.as_str(), "Microsoft", "Crypto"),
            to: join_path(crypto.as_str(), "Crypto"),
        },
    );
    assert(ops(v@) =~= windows_mirror(root@, host@));
    v
}

fn append_ops(v: &mut Vec<RootOp<String>>, w: Vec<RootOp<String>>)
    ensures
        ops(final(v)@) == ops(old(v)@) + ops(w@),
{
    let mut w = w;
    let ghost a = v@;
    let ghost b = w@;
    v.append(&mut w);
    assert(ops(v@) =~= ops(a) + ops(b));
}

/// How a root directory is prepared that shares these directories of the host.
pub fn prepare_rootfs_with_shares(root: &str, host: &HostDirs<String>, shares: &Vec<String>) -> (v:
    Vec<RootOp<String>>)
    ensures
        ops(v@) == root_plan(root@, host@, texts(shares@)),
{
    let windows = list_has(shares, "windows");
    let data = list_has(shares, "programdata");
    let mut v = skeleton_ops(root, windows, data);
    assert(ops(v@) == skeleton(root@, texts(shares@)));
    append_ops(&mut v, junction_ops(root, host, shares));
    if windows {
        let ghost before = ops(v@);
        push_op(&mut v, RootOp::LowIntegrity(join_path(root, "Temp")));
        push_op(&mut v, RootOp::LowIntegrity(join_two(root, "Users", "ContainerUser")));
        push_op_if(&mut v, !data, RootOp::LowIntegrity(join_path(root, "ProgramData")));
        assert(ops(v@) =~= before + shared_windows(root@, texts(shares@)));
    } else {
        append_ops(&mut v, mirror_ops(root, host));
    }
    v
}

/// How a root directory is prepared that shares nothing.
pub fn prepare_rootfs(root: &str, host: &HostDirs<String>) -> (v: Vec<RootOp<String>>)
    ensures
        ops(v@) == root_plan(root@, host@, Seq::empty()),
{
    let none: Vec<String> = Vec::new();
    assert(texts(none@) =~= Seq::<Seq<char>>::empty());
    prepare_rootfs_with_shares(root, host, &none)
}

/// `shares` with what is missing of `needed`, in order.
pub open spec fn with_needed(shares: Seq<Seq<char>>, needed: Seq<Seq<char>>) -> Seq<Seq<char>>
    decreases needed.len(),
{
    if needed.len() == 0 {
        shares
    } else {
        let s = with_needed(shares, needed.drop_last());
        if s.contains(needed.last()) {
            s
        } else {
            s.push(needed.last())
        }
    }
}

/// The shares of a container with these tools: those that were asked for, and
/// what `winget` needs where it is one of the tools.
pub open spec fn implied_shares(shares: Seq<Seq<char>>, tools: Seq<Seq<char>>) -> Seq<Seq<char>> {
    if tools.contains("winget"@) {
        with_needed(shares, literals(WINGET_SHARES@))
    } else {
        shares
    }
}

proof fn lemma_with_needed(shares: Seq<Seq<char>>, needed: Seq<Seq<char>>)
    ensures
        shares.is_prefix_of(with_needed(shares, needed)),
        forall|i: int| 0 <= i < needed.len() ==> with_needed(shares, needed).contains(
            #[trigger] needed[i],
        ),
        forall|x: Seq<char>|
            with_needed(shares, needed).contains(x) ==> shares.contains(x) || needed.contains(x),
    decreases needed.len(),
{
    if needed.len() > 0 {
        let init = needed.drop_last();
        let s = with_needed(shares, init);
        let t = with_needed(shares, needed);
        lemma_with_needed(shares, init);
        assert forall|i: int| 0 <= i < needed.len() implies t.contains(#[trigger] needed[i]) by {
            if i < init.len() {
                assert(init[i] == needed[i]);
                let j = choose|j: int| 0 <= j < s.len() && s[j] == needed[i];
                assert(t[j] == needed[i]);
            } else if !s.contains(needed.last()) {
                assert(t[s.len() as int] == needed[i]);
            }
        }
        assert forall|x: Seq<char>| t.contains(x) implies shares.contains(x) || needed.contains(
            x,
        ) by {
            let j = choose|j: int| 0 <= j < t.len() && t[j] == x;
            if j < s.len() {
                assert(s[j] == x);
                if init.contains(x) {
                    let k = choose|k: int| 0 <= k < init.len() && init[k] == x;
                    assert(needed[k] == x);
                }
            } else {
                assert(needed[needed.len() - 1] == x);
            }
        }
    }
}

/// A container with `winget` shares all four directories that it needs, besides
/// those that were asked for.
pub proof fn law_winget_implies_shares(shares: Seq<Seq<char>>, tools: Seq<Seq<char>>)
    requires
        tools.contains("winget"@),
    ensures
        shares.is_prefix_of(implied_shares(shares, tools)),
        implied_shares(shares, tools).contains("windows"@),
        implied_shares(shares, tools).contains("programfiles"@),
        implied_shares(shares, tools).contains("programdata"@),
        implied_shares(shares, tools).contains("windowsapps"@),
{
    let n = literals(WINGET_SHARES@);
    lemma_with_needed(shares, n);
    assert(n[0] == "windows"@ && n[1] == "programfiles"@ && n[2] == "programdata"@ && n[3]
        == "windowsapps"@);
}

/// Without `winget` a container shares what was asked for and nothing else, and
/// with it nothing but what was asked for and the four.
pub proof fn law_nothing_else_is_shared(shares: Seq<Seq<char>>, tools: Seq<Seq<char>>, x: Seq<char>)
    ensures
        !tools.contains("winget"@) ==> implied_shares(shares, tools) == shares,
        implied_shares(shares, tools).contains(x) ==> shares.contains(x) || x == "windows"@ || x
            == "programfiles"@ || x == "programdata"@ || x == "windowsapps"@,
{
    let n = literals(WINGET_SHARES@);
    lemma_with_needed(shares, n);
    assert(n[0] == "windows"@ && n[1] == "programfiles"@ && n[2] == "programdata"@ && n[3]
        == "windowsapps"@);
}

fn copy_list(v: &Vec<String>) -> (w: Vec<String>)
    ensures
        texts(w@) == texts(v@),
{
    let mut w: Vec<String> = Vec::new();
    let mut i: usize = 0;
    assert(texts(w@) =~= texts(v@).take(0));
    while i < v.len()
        invariant
            i <= v.len(),
            texts(w@) == texts(v@).take(i as int),
        decreases v.len() - i,
    {
        let ghost before = w@;
        let s = v[i].clone();
        w.push(s);
        assert(texts(w@) =~= texts(before).push(s@));
        assert(texts(v@).take(i + 1) =~= texts(v@).take(i as int).push(s@));
        i = i + 1;
    }
    assert(texts(v@).take(v@.len() as int) =~= texts(v@));
    w
}

/// The shares of a container with these tools.
pub fn effective_shares(shares: &Vec<String>, tools: &Vec<String>) -> (out: Vec<String>)
    ensures
        texts(out@) == implied_shares(texts(shares@), texts(tools@)),
{
    let mut out = copy_list(shares);
    if !list_has(tools, "winget") {
        return out;
    }
    let ghost needed = literals(WINGET_SHARES@);
    let mut i: usize = 0;
    assert(needed.take(0) =~= Seq::<Seq<char>>::empty());
    while i < WINGET_SHARES.len()
        invariant
            i <= 4,
            needed == literals(WINGET_SHARES@),
            texts(out@) == with_needed(texts(shares@), needed.take(i as int)),
        decreases 4 - i,
    {
        let n: &'static str = WINGET_SHARES[i];
        proof {
            let t = needed.take(i + 1);
            assert(t.drop_last() =~= needed.take(i as int));
            assert(t.last() == n@);
        }
        if !list_has(&out, n) {
            let ghost before = out@;
            let s = n.to_owned();
            out.push(s);
            assert(texts(out@) =~= texts(before).push(n@));
        }
        i = i + 1;
    }
    assert(needed.take(4) =~= needed);
    out
}

/// The tools that can be put into a container.
#[derive(Clone, Copy, Debug, PartialEq, Eq, Structural)]
pub enum Tool {
    Node,
    Winget,
    RustBin,
    /// An unknown tool is passed over.
    Unknown,
}

/// The tool of a name.
pub open spec fn tool_named(name: Seq<char>) -> Tool {
    if name == "node"@ || name == "nodejs"@ {
        Tool::Node
    } else if name == "winget"@ {
        Tool::Winget
    } else if name == "rust-bin"@ || name == "cargo-bin"@ {
        Tool::RustBin
    } else {
        Tool::Unknown
    }
}

/// Each tool goes by its names, and by no others.
pub proof fn law_tools_by_name(name: Seq<char>)
    ensures
        tool_named(name) == Tool::Node <==> name == "node"@ || name == "nodejs"@,
        tool_named(name) == Tool::Winget <==> name == "winget"@,
        tool_named(name) == Tool::RustBin <==> name == "rust-bin"@ || name == "cargo-bin"@,
{
    reveal_strlit("node");
    reveal_strlit("nodejs");
    reveal_strlit("winget");
    reveal_strlit("rust-bin");
    reveal_strlit("cargo-bin");
    assert("node"@.len() == 4 && "nodejs"@.len() == 6 && "winget"@.len() == 6);
    assert("rust-bin"@.len() == 8 && "cargo-bin"@.len() == 9);
    assert("nodejs"@[0] != "winget"@[0]);
}

pub fn tool_of(name: &str) -> (t: Tool)
    ensures
        t == tool_named(name@),
{
    if same(name, "node") || same(name, "nodejs") {
        Tool::Node
    } else if same(name, "winget") {
        Tool::Winget
    } else if same(name, "rust-bin") || same(name, "cargo-bin") {
        Tool::RustBin
    } else {
        Tool::Unknown
    }
}

/// How a root directory is prepared for a container with these tools and
/// shares, before the tools themselves are put in.
pub fn prepare_rootfs_with_tools_and_shares(
    root: &str,
    host: &HostDirs<String>,
    tools: &Vec<String>,
    shares: &Vec<String>,
) -> (r: (Vec<RootOp<String>>, Vec<Tool>))
    ensures
        ops(r.0@) == root_plan(root@, host@, implied_shares(texts(shares@), texts(tools@))),
        r.1@ == Seq::new(tools@.len(), |i: int| tool_named(tools@[i]@)),
{
    let all = effective_shares(shares, tools);
    let plan = prepare_rootfs_with_shares(root, host, &all);
    let mut v: Vec<Tool> = Vec::new();
    let mut i: usize = 0;
    while i < tools.len()
        invariant
            i <= tools.len(),
            v@ =~= Seq::new(i as nat, |j: int| tool_named(tools@[j]@)),
        decreases tools.len() - i,
    {
        v.push(tool_of(tools[i].as_str()));
        i = i + 1;
    }
    (plan, v)
}

/// The plan of a root directory with tools and no directories of the host but
/// those that the tools need.
pub fn prepare_rootfs_with_tools(root: &str, host: &HostDirs<String>, tools: &Vec<String>) -> (r: (
    Vec<RootOp<String>>,
    Vec<Tool>,
))
    ensures
        ops(r.0@) == root_plan(root@, host@, implied_shares(seq![], texts(tools@))),
        r.1@ == Seq::new(tools@.len(), |i: int| tool_named(tools@[i]@)),
{
    let none: Vec<String> = Vec::new();
    assert(texts(none@) =~= Seq::<Seq<char>>::empty());
    prepare_rootfs_with_tools_and_shares(root, host, tools, &none)
}

/// The arguments with which `icacls` lets processes of low integrity write to a
/// directory and to what will be made in it.
pub open spec fn low_integrity_args(dir: Seq<char>) -> Seq<Seq<char>> {
    seq![dir, "/setintegritylevel"@, "(OI)(CI)low"@]
}

/// The level is set on the directory itself, it is the low one, and it is handed
/// on to files and directories.
pub proof fn law_low_integrity_args(dir: Seq<char>)
    ensures
        low_integrity_args(dir).len() == 3,
        low_integrity_args(dir)[0] == dir,
        low_integrity_args(dir)[1] == "/setintegritylevel"@,
        low_integrity_args(dir)[2] == "(OI)(CI)low"@,
{
}

/// The arguments with which `icacls` lets processes of low integrity write to a
/// directory and to what will be made in it.
pub fn set_low_integrity_dir(dir: &str) -> (v: Vec<String>)
    ensures
        texts(v@) == low_integrity_args(dir@),
{
    let v = vec![dir.to_owned(), "/setintegritylevel".to_owned(), "(OI)(CI)low".to_owned()];
    assert(texts(v@) =~= seq![dir@, "/setintegritylevel"@, "(OI)(CI)low"@]);
    v
}

/// What an entry of a directory is.
#[derive(Clone, Copy, Debug, PartialEq, Eq, Structural)]
pub enum EntryKind {
    Directory,
    File,
    Symlink,
    Other,
}

/// What is done with an entry when a directory is copied.
#[derive(Clone, Copy, Debug, PartialEq, Eq, Structural)]
pub enum CopyStep {
    /// Make the directory and go on in it.
    Enter,
    /// Link the file, or copy it where that fails; `required` tells whether a
    /// failure to copy ends the whole.
    LinkOrCopy { required: bool },
    /// Copy the file if it can be copied.
    CopyIfPossible,
    Skip,
}

/// How a directory is copied.
#[derive(Clone, Copy, Debug, PartialEq, Eq, Structural)]
pub enum CopyMode {
    /// The shell of a container, by links.
    Mirror,
    /// By links, going on after every failure.
    Links,
    /// By copies, going on after every failure.
    Copies,
    /// By copies; whatever is no directory is copied as a file.
    Plain,
}

pub open spec fn copy_step(mode: CopyMode, entry: EntryKind) -> CopyStep {
    match (mode, entry) {
        (_, EntryKind::Directory) => CopyStep::Enter,
        (CopyMode::Plain, _) => CopyStep::CopyIfPossible,
        (CopyMode::Mirror, EntryKind::File) => CopyStep::LinkOrCopy { required: true },
        (CopyMode::Mirror, EntryKind::Symlink) => CopyStep::CopyIfPossible,
        (CopyMode::Links, EntryKind::File) => CopyStep::LinkOrCopy { required: false },
        (CopyMode::Copies, EntryKind::File) => CopyStep::CopyIfPossible,
        _ => CopyStep::Skip,
    }
}

/// Directories are always entered and files are always copied; only a mirror
/// fails where a file cannot be; only copies that take everything for a file,
/// and mirrors, follow a link; and links are made for mirrors and links alone.
pub proof fn law_entries_are_copied(mode: CopyMode, entry: EntryKind)
    ensures
        copy_step(mode, entry) == CopyStep::Enter <==> entry == EntryKind::Directory,
        copy_step(mode, EntryKind::File) != CopyStep::Skip,
        copy_step(mode, entry) == (CopyStep::LinkOrCopy { required: true }) <==> mode
            == CopyMode::Mirror && entry == EntryKind::File,
        copy_step(mode, entry) == (CopyStep::LinkOrCopy { required: false }) <==> mode
            == CopyMode::Links && entry == EntryKind::File,
        copy_step(mode, EntryKind::Symlink) == CopyStep::CopyIfPossible <==> mode
            == CopyMode::Mirror || mode == CopyMode::Plain,
        copy_step(mode, EntryKind::Other) == CopyStep::CopyIfPossible <==> mode == CopyMode::Plain,
        copy_step(mode, EntryKind::File) == CopyStep::CopyIfPossible <==> mode == CopyMode::Copies
            || mode == CopyMode::Plain,
{
}

/// What is done with an entry when a directory is copied.
pub fn copy_entry(mode: CopyMode, entry: EntryKind) -> (s: CopyStep)
    ensures
        s == copy_step(mode, entry),
{
    match (mode, entry) {
        (_, EntryKind::Directory) => CopyStep::Enter,
        (CopyMode::Plain, _) => CopyStep::CopyIfPossible,
        (CopyMode::Mirror, EntryKind::File) => CopyStep::LinkOrCopy { required: true },
        (CopyMode::Mirror, EntryKind::Symlink) => CopyStep::CopyIfPossible,
        (CopyMode::Links, EntryKind::File) => CopyStep::LinkOrCopy { required: false },
        (CopyMode::Copies, EntryKind::File) => CopyStep::CopyIfPossible,
        _ => CopyStep::Skip,
    }
}

/// Whether a name looks like that of a language: it has a hyphen and at most
/// eight bytes.
pub open spec fn locale_name(name: Seq<char>) -> bool {
    name.contains('-') && encode_utf8(name).len() <= 8
}

pub fn is_locale_name(name: &str) -> (b: bool)
    ensures
        b == locale_name(name@),
{
    let v = crate::text::chars_of(name);
    has_char(v.as_slice(), '-') && name.as_bytes().len() <= 8
}

/// The file with the translated texts of a program.
pub fn mui_name(binary: &str) -> (s: String)
    ensures
        s@ == texts_name(binary@),
{
    concat2(binary, ".mui")
}

/// A program's name is kept in that of its texts.
pub open spec fn texts_name(binary: Seq<char>) -> Seq<char> {
    binary + ".mui"@
}

/// The translated texts of a program lie in a file of its name with `.mui`
/// behind it, so those of two programs never meet.
pub proof fn law_texts_name(a: Seq<char>, b: Seq<char>)
    ensures
        texts_name(a) == a + ".mui"@,
        texts_name(a) == texts_name(b) ==> a == b,
{
    let n = ".mui"@.len() as int;
    assert(texts_name(a).take(texts_name(a).len() - n) =~= a);
    assert(texts_name(b).take(texts_name(b).len() - n) =~= b);
}

/// The name of a language has a hyphen, and fits eight bytes.
pub proof fn law_locale_names(name: Seq<char>)
    ensures
        locale_name(name) ==> exists|i: int| 0 <= i < name.len() && name[i] == '-',
        name.contains('-') && encode_utf8(name).len() <= 8 ==> locale_name(name),
        encode_utf8(name).len() > 8 ==> !locale_name(name),
{
}

/// The first line of a text, if it has any.
pub open spec fn first_line(s: Seq<char>) -> Option<Seq<char>> {
    if s.len() == 0 {
        None
    } else {
        Some(crate::text::split(s, '\n')[0])
    }
}

/// The directory of the program that a search printed, if it printed one.
pub open spec fn found_dir(output: Seq<char>) -> Option<Seq<char>> {
    match first_line(output) {
        Some(line) => crate::paths::parent(trim(line)),
        None => None,
    }
}

/// The directory of the program that a search printed, if it printed one.
pub fn node_directory(output: &str) -> (r: Option<String>)
    ensures
        match r {
            Some(d) => found_dir(output@) == Some(d@),
            None => found_dir(output@) is None,
        },
{
    if output.is_empty() {
        return None;
    }
    let parts = split_char(output, '\n');
    assert(texts(parts@).len() > 0);
    assert(texts(parts@)[0] == parts@[0]@);
    let line = trimmed(parts[0].as_str());
    crate::paths::parent_of(line.as_str())
}

/// The profile directory of a user.
pub open spec fn user_profile(user: Seq<char>) -> Seq<char> {
    "C:\\Users\\"@ + user
}

/// Where Windows keeps the alias of `winget` in a profile.
pub open spec fn winget_alias(profile: Seq<char>) -> Seq<char> {
    profile + "\\AppData\\Local\\Microsoft\\WindowsApps\\winget.exe"@
}

/// The script that starts `winget` from PowerShell.
pub open spec fn winget_ps1(profile: Seq<char>) -> Seq<char> {
    "# psroot winget shim - invokes winget via the host's\r\n# AppExecutionAlias so AppXSvc grants package identity\r\n# (required for MRT/PRI resource loading).\r\n$env:USERPROFILE = '"@
        + profile
        + "'\r\n$env:LOCALAPPDATA = $env:USERPROFILE + '\\AppData\\Local'\r\n$env:APPDATA = $env:USERPROFILE + '\\AppData\\Roaming'\r\n$alias = $env:LOCALAPPDATA + '\\Microsoft\\WindowsApps\\winget.exe'\r\n& $alias @args\r\nexit $LASTEXITCODE\r\n"@
}

/// The script that starts `winget` from the command processor.
pub open spec fn winget_cmd(profile: Seq<char>) -> Seq<char> {
    "@echo off\r\nREM psroot winget shim - calls host AppExecutionAlias\r\nset \"USERPROFILE="@
        + profile
        + "\"\r\nset \"LOCALAPPDATA=%USERPROFILE%\\AppData\\Local\"\r\nset \"APPDATA=%USERPROFILE%\\AppData\\Roaming\"\r\n\""@
        + winget_alias(profile) + "\" %*\r\n"@
}

/// Both scripts set the user's own profile before they start the alias that
/// lies in it, and hand on their arguments.
pub proof fn law_winget_scripts(user: Seq<char>)
    ensures
        ({
            let p = user_profile(user);
            &&& p == "C:\\Users\\"@ + user
            &&& winget_alias(p) == p + "\\AppData\\Local\\Microsoft\\WindowsApps\\winget.exe"@
            &&& exists|a: Seq<char>, b: Seq<char>|
                #![trigger a + p + b]
                winget_ps1(p) == a + p + b
                    && b == "'\r\n$env:LOCALAPPDATA = $env:USERPROFILE + '\\AppData\\Local'\r\n$env:APPDATA = $env:USERPROFILE + '\\AppData\\Roaming'\r\n$alias = $env:LOCALAPPDATA + '\\Microsoft\\WindowsApps\\winget.exe'\r\n& $alias @args\r\nexit $LASTEXITCODE\r\n"@
                    && a == "# psroot winget shim - invokes winget via the host's\r\n# AppExecutionAlias so AppXSvc grants package identity\r\n# (required for MRT/PRI resource loading).\r\n$env:USERPROFILE = '"@
            &&& exists|a: Seq<char>, b: Seq<char>|
                #![trigger a + p + b]
                winget_cmd(p) == a + p + b + winget_alias(p) + "\" %*\r\n"@
                    && a == "@echo off\r\nREM psroot winget shim - calls host AppExecutionAlias\r\nset \"USERPROFILE="@
                    && b == "\"\r\nset \"LOCALAPPDATA=%USERPROFILE%\\AppData\\Local\"\r\nset \"APPDATA=%USERPROFILE%\\AppData\\Roaming\"\r\n\""@
        }),
{
    let p = user_profile(user);
    let a1 = "# psroot winget shim - invokes winget via the host's\r\n# AppExecutionAlias so AppXSvc grants package identity\r\n# (required for MRT/PRI resource loading).\r\n$env:USERPROFILE = '"@;
    let b1 = "'\r\n$env:LOCALAPPDATA = $env:USERPROFILE + '\\AppData\\Local'\r\n$env:APPDATA = $env:USERPROFILE + '\\AppData\\Roaming'\r\n$alias = $env:LOCALAPPDATA + '\\Microsoft\\WindowsApps\\winget.exe'\r\n& $alias @args\r\nexit $LASTEXITCODE\r\n"@;
    let a2 = "@echo off\r\nREM psroot winget shim - calls host AppExecutionAlias\r\nset \"USERPROFILE="@;
    let b2 = "\"\r\nset \"LOCALAPPDATA=%USERPROFILE%\\AppData\\Local\"\r\nset \"APPDATA=%USERPROFILE%\\AppData\\Roaming\"\r\n\""@;
    assert(winget_ps1(p) == a1 + p + b1);
    assert(winget_cmd(p) == a2 + p + b2 + winget_alias(p) + "\" %*\r\n"@);
}

/// What is needed to start `winget` in a container: the profile and the alias,
/// both of which must be there, and the two scripts.
pub struct WingetShim {
    pub profile: String,
    pub alias: String,
    pub ps1: String,
    pub cmd: String,
}

/// The scripts that start the host's `winget`, for a user with a name.
pub fn install_winget_shim(user: &str) -> (r: Option<WingetShim>)
    ensures
        match r {
            None => user@.len() == 0,
            Some(w) => {
                &&& user@.len() > 0
                &&& w.profile@ == user_profile(user@)
                &&& w.alias@ == winget_alias(w.profile@)
                &&& w.ps1@ == winget_ps1(w.profile@)
                &&& w.cmd@ == winget_cmd(w.profile@)
            },
        },
{
    if user.is_empty() {
        return None;
    }
    let profile = concat2("C:\\Users\\", user);
    let alias = concat2(
        profile.as_str(),
        "\\AppData\\Local\\Microsoft\\WindowsApps\\winget.exe",
    );
    let ps1 = concat3(
        "# psroot winget shim - invokes winget via the host's\r\n# AppExecutionAlias so AppXSvc grants package identity\r\n# (required for MRT/PRI resource loading).\r\n$env:USERPROFILE = '",
        profile.as_str(),
        "'\r\n$env:LOCALAPPDATA = $env:USERPROFILE + '\\AppData\\Local'\r\n$env:APPDATA = $env:USERPROFILE + '\\AppData\\Roaming'\r\n$alias = $env:LOCALAPPDATA + '\\Microsoft\\WindowsApps\\winget.exe'\r\n& $alias @args\r\nexit $LASTEXITCODE\r\n",
    );
    let head = concat3(
        "@echo off\r\nREM psroot winget shim - calls host AppExecutionAlias\r\nset \"USERPROFILE=",
        profile.as_str(),
        "\"\r\nset \"LOCALAPPDATA=%USERPROFILE%\\AppData\\Local\"\r\nset \"APPDATA=%USERPROFILE%\\AppData\\Roaming\"\r\n\"",
    );
    let cmd = concat3(head.as_str(), alias.as_str(), "\" %*\r\n");
    Some(WingetShim { profile, alias, ps1, cmd })
}

/// Where the user's Rust programs are: the directory `bin` of Cargo's home,
/// which lies in the user's profile unless it is set.
pub open spec fn cargo_bin(
    cargo_home: Option<Seq<char>>,
    user_profile: Option<Seq<char>>,
) -> Seq<char> {
    joined_path(
        match cargo_home {
            Some(h) => h,
            None => or_default(user_profile, "C:\\Users\\Default"@) + "\\.cargo"@,
        },
        "bin"@,
    )
}

/// Programs that Cargo built are looked for in its home, or else below the
/// user's profile, and nowhere else.
pub proof fn law_cargo_bin(home: Seq<char>, profile: Seq<char>, other: Option<Seq<char>>)
    ensures
        cargo_bin(Some(home), other) == inside(home) + "bin"@,
        cargo_bin(None, Some(profile)) == profile + "\\.cargo\\bin"@,
        cargo_bin(None, None) == "C:\\Users\\Default\\.cargo\\bin"@,
{
    lemma_plain_names();
    reveal_strlit("\\.cargo");
    reveal_strlit("\\.cargo\\bin");
    reveal_strlit("bin");
    reveal_strlit("C:\\Users\\Default");
    reveal_strlit("C:\\Users\\Default\\.cargo\\bin");
    lemma_below(home, "bin"@);
    lemma_below(profile + "\\.cargo"@, "bin"@);
    lemma_below("C:\\Users\\Default"@ + "\\.cargo"@, "bin"@);
    assert((profile + "\\.cargo"@).last() == 'o');
    assert(("C:\\Users\\Default"@ + "\\.cargo"@).last() == 'o');
    assert(inside(profile + "\\.cargo"@) + "bin"@ =~= profile + "\\.cargo\\bin"@);
    assert(inside("C:\\Users\\Default"@ + "\\.cargo"@) + "bin"@
        =~= "C:\\Users\\Default\\.cargo\\bin"@);
}

/// Of Cargo's programs exactly the five that are allowed are copied, each under
/// its own name into the directory `bin` of the root.
pub proof fn law_allowed_programs_are_copied(from: Seq<char>, root: Seq<char>, name: Seq<char>)
    ensures
        ({
            let v = binary_copies(from, joined_path(root, "bin"@), literals(RUST_BIN_ALLOWLIST@));
            let r = inside(root) + "bin\\"@;
            &&& v.len() == 5
            &&& v[0] == (RootOp::CopyFile {
                from: inside(from) + "pstop.exe"@,
                to: r + "pstop.exe"@,
            })
            &&& v[1] == (RootOp::CopyFile {
                from: inside(from) + "psmux.exe"@,
                to: r + "psmux.exe"@,
            })
            &&& v[2] == (RootOp::CopyFile {
                from: inside(from) + "psnet.exe"@,
                to: r + "psnet.exe"@,
            })
            &&& v[3] == (RootOp::CopyFile {
                from: inside(from) + "htop.exe"@,
                to: r + "htop.exe"@,
            })
            &&& v[4] == (RootOp::CopyFile {
                from: inside(from) + "weathr.exe"@,
                to: r + "weathr.exe"@,
            })
        }),
{
    let names = literals(RUST_BIN_ALLOWLIST@);
    let to = joined_path(root, "bin"@);
    lemma_plain_names();
    reveal_strlit("bin");
    reveal_strlit("bin\\");
    reveal_strlit("pstop.exe");
    reveal_strlit("psmux.exe");
    reveal_strlit("psnet.exe");
    reveal_strlit("htop.exe");
    reveal_strlit("weathr.exe");
    lemma_below(root, "bin"@);
    assert("bin"@.push('\\') =~= "bin\\"@);
    assert(names[0] == "pstop.exe"@ && names[1] == "psmux.exe"@ && names[2] == "psnet.exe"@);
    assert(names[3] == "htop.exe"@ && names[4] == "weathr.exe"@);
    assert forall|i: int| 0 <= i < 5 implies plain(#[trigger] names[i]) by {}
    lemma_below(from, names[0]);
    lemma_below(from, names[1]);
    lemma_below(from, names[2]);
    lemma_below(from, names[3]);
    lemma_below(from, names[4]);
    lemma_below(to, names[0]);
    lemma_below(to, names[1]);
    lemma_below(to, names[2]);
    lemma_below(to, names[3]);
    lemma_below(to, names[4]);
}

pub fn cargo_bin_directory(cargo_home: Option<String>, user_profile: Option<String>) -> (s: String)
    ensures
        s@ == cargo_bin(
            crate::container::config::text_of(cargo_home),
            crate::container::config::text_of(user_profile),
        ),
{
    let home = match cargo_home {
        Some(h) => h,
        None => {
            let p = value_or(user_profile, "C:\\Users\\Default");
            concat2(p.as_str(), "\\.cargo")
        },
    };
    join_path(home.as_str(), "bin")
}

/// The copies of the allowed programs from `from` to the directory `bin` of the
/// root.
pub fn install_rust_binaries(from: &str, root: &str) -> (v: Vec<RootOp<String>>)
    ensures
        ops(v@) == binary_copies(
            from@,
            joined_path(root@, "bin"@),
            literals(RUST_BIN_ALLOWLIST@),
        ),
{
    let to = join_path(root, "bin");
    let ghost names = literals(RUST_BIN_ALLOWLIST@);
    let ghost copies = binary_copies(from@, to@, names);
    let mut v: Vec<RootOp<String>> = Vec::new();
    let mut i: usize = 0;
    assert(ops(v@) =~= copies.take(0));
    while i < RUST_BIN_ALLOWLIST.len()
        invariant
            i <= 5,
            names == literals(RUST_BIN_ALLOWLIST@),
            copies == binary_copies(from@, to@, names),
            ops(v@) == copies.take(i as int),
        decreases 5 - i,
    {
        let name: &'static str = RUST_BIN_ALLOWLIST[i];
        assert(names[i as int] == name@);
        push_op(
            &mut v,
            RootOp::CopyFile { from: join_path(from, name), to: join_path(to.as_str(), name) },
        );
        assert(copies.take(i + 1) =~= copies.take(i as int).push(copies[i as int]));
        i = i + 1;
    }
    assert(copies.take(5) =~= copies);
    v
}

} // verus!
