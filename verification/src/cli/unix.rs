//! The command line on Unix hosts.

use crate::cli::args::{limits, parse_variables, variables};
use crate::cli::report::push_line;
use crate::cli::sections::signed;
use crate::cli::verdict::{decide, either, fails, passes, Finding, Verdict};
use crate::container::config::{
    mounts, publishes, text_of, ConfigModel, ContainerConfig, Mount, NetworkAccess, PortMapping,
    Publish, ResourceLimits, SecurityProfile, VolumeMount,
};

use crate::container::sandbox::{replace_all, replaced};
use crate::show::{bool_form, bool_text, debug_form, debug_text, join_texts, pad, padded};
use crate::text::{
    chars_of, concat2, concat3, concat4, concat5, contains, decimal, decimal_text, join, occurs,
    parse_number, parsed, same, split, split_char, splitn, splitn_char, texts, trim, trimmed,
};
use vstd::prelude::*;
use vstd::string::*;

verus! {

/// How much a container is kept apart from the host.
#[derive(Clone, Copy, Debug, PartialEq, Eq, Structural)]
pub enum UnixIsolation {
    Minimal,
    Standard,
    Full,
}

pub open spec fn isolation(s: Seq<char>) -> UnixIsolation {
    if s == "minimal"@ {
        UnixIsolation::Minimal
    } else if s == "full"@ {
        UnixIsolation::Full
    } else {
        UnixIsolation::Standard
    }
}

/// The isolation that a word stands for; the usual one for any other word.
pub fn parse_isolation(s: &str) -> (i: UnixIsolation)
    ensures
        i == isolation(s@),
{
    if same(s, "minimal") {
        UnixIsolation::Minimal
    } else if same(s, "full") {
        UnixIsolation::Full
    } else {
        UnixIsolation::Standard
    }
}

pub open spec fn network(s: Seq<char>) -> NetworkAccess {
    if s == "none"@ {
        NetworkAccess::Off
    } else if s == "full"@ {
        NetworkAccess::Full
    } else if s == "netstack"@ {
        NetworkAccess::Netstack
    } else {
        NetworkAccess::Outbound
    }
}

/// The access to the network that a word stands for; outgoing connections for
/// any other word.
pub fn parse_network(s: &str) -> (n: NetworkAccess)
    ensures
        n == network(s@),
{
    if same(s, "none") {
        NetworkAccess::Off
    } else if same(s, "full") {
        NetworkAccess::Full
    } else if same(s, "netstack") {
        NetworkAccess::Netstack
    } else {
        NetworkAccess::Outbound
    }
}

/// The options that several commands share.
#[derive(Clone, Debug)]
pub struct CommonResourceArgs {
    pub cpu: u32,
    pub max_procs: u32,
    pub network: String,
    pub volume: Vec<String>,
    pub env: Vec<String>,
    pub publish: Vec<String>,
    pub name: Option<String>,
    pub rootfs: Option<String>,
    pub publish_addr: String,
}

/// What a volume `HOST:CONTAINER[:ro]` stands for.
pub open spec fn volume(s: Seq<char>) -> Option<Mount> {
    let p = splitn(s, 3, ':');
    if p.len() < 2 {
        None
    } else {
        Some(
            Mount {
                host_path: p[0],
                container_path: p[1],
                read_only: p.len() > 2 && p[2] == "ro"@,
            },
        )
    }
}

/// The volumes of a list, or what is told of the first that is none.
pub open spec fn volumes(list: Seq<Seq<char>>) -> Result<Seq<Mount>, Seq<char>>
    decreases list.len(),
{
    if list.len() == 0 {
        Ok(seq![])
    } else {
        match volumes(list.drop_last()) {
            Err(e) => Err(e),
            Ok(v) => match volume(list.last()) {
                Some(m) => Ok(v.push(m)),
                None => Err("bad volume: "@ + list.last()),
            },
        }
    }
}

proof fn lemma_volumes_error(list: Seq<Seq<char>>, k: int)
    requires
        0 <= k <= list.len(),
        volumes(list.take(k)) is Err,
    ensures
        volumes(list) == volumes(list.take(k)),
    decreases list.len() - k,
{
    if k < list.len() {
        assert(list.take(k + 1).drop_last() =~= list.take(k));
        lemma_volumes_error(list, k + 1);
    } else {
        assert(list.take(k) =~= list);
    }
}

fn parse_volume(s: &str) -> (r: Option<VolumeMount>)
    ensures
        match r {
            Some(m) => volume(s@) == Some(m@),
            None => volume(s@) is None,
        },
{
    let parts = splitn_char(s, 3, ':');
    let ghost p = splitn(s@, 3, ':');
    assert(p.len() == parts@.len());
    if parts.len() < 2 {
        return None;
    }
    proof {
        assert(p[0] == parts@[0]@);
        assert(p[1] == parts@[1]@);
    }
    let read_only = if parts.len() > 2 {
        assert(p[2] == parts@[2]@);
        same(parts[2].as_str(), "ro")
    } else {
        false
    };
    Some(
        VolumeMount {
            host_path: parts[0].clone(),
            container_path: parts[1].clone(),
            read_only,
        },
    )
}

/// The volumes of a list, or what is told of the first that is none.
pub fn parse_volumes(list: &Vec<String>) -> (r: Result<Vec<VolumeMount>, String>)
    ensures
        match r {
            Ok(v) => volumes(texts(list@)) == Ok::<Seq<Mount>, Seq<char>>(mounts(v@)),
            Err(e) => volumes(texts(list@)) == Err::<Seq<Mount>, Seq<char>>(e@),
        },
{
    let mut out: Vec<VolumeMount> = Vec::new();
    let ghost all = texts(list@);
    let mut i: usize = 0;
    proof {
        assert(all.take(0) =~= Seq::<Seq<char>>::empty());
        assert(mounts(out@) =~= Seq::<Mount>::empty());
    }
    while i < list.len()
        invariant
            i <= list.len(),
            all == texts(list@),
            volumes(all.take(i as int)) == Ok::<Seq<Mount>, Seq<char>>(mounts(out@)),
        decreases list.len() - i,
    {
        proof {
            let t = all.take(i + 1);
            assert(t.drop_last() =~= all.take(i as int));
            assert(t.last() == list[i as int]@);
        }
        match parse_volume(list[i].as_str()) {
            Some(m) => {
                let ghost before = out@;
                let ghost mv = m@;
                out.push(m);
                assert(mounts(out@) =~= mounts(before).push(mv));
            },
            None => {
                proof {
                    lemma_volumes_error(all, i + 1);
                }
                return Err(concat2("bad volume: ", list[i].as_str()));
            },
        }
        i = i + 1;
    }
    assert(all.take(all.len() as int) =~= all);
    Ok(out)
}

/// The number of a port; 0 for what is none.
pub open spec fn port(s: Seq<char>) -> u16 {
    match parsed(s, u16::MAX as nat) {
        Some(n) => n as u16,
        None => 0,
    }
}

fn parse_port(s: &str) -> (n: u16)
    ensures
        n == port(s@),
{
    match parse_number(s, u16::MAX as u64) {
        Some(n) => n as u16,
        None => 0,
    }
}

/// The port that `PORT` or `HOST:CONTAINER` publishes at an address.
pub open spec fn published(s: Seq<char>, bind: Seq<char>) -> Publish {
    let p = splitn(s, 2, ':');
    Publish {
        host_bind: bind,
        host_port: port(p[0]),
        container_port: port(p.last()),
        ephemeral_port: None,
        name: None,
    }
}

/// The ports of a list.
pub fn parse_ports(list: &Vec<String>, bind: &str) -> (v: Vec<PortMapping>)
    ensures
        publishes(v@) == Seq::new(list@.len(), |i: int| published(list@[i]@, bind@)),
{
    let mut v: Vec<PortMapping> = Vec::new();
    let ghost all = Seq::new(list@.len(), |i: int| published(list@[i]@, bind@));
    let mut i: usize = 0;
    while i < list.len()
        invariant
            i <= list.len(),
            all == Seq::new(list@.len(), |i: int| published(list@[i]@, bind@)),
            publishes(v@) =~= all.take(i as int),
        decreases list.len() - i,
    {
        let ghost before = v@;
        let parts = splitn_char(list[i].as_str(), 2, ':');
        let ghost p = splitn(list[i as int]@, 2, ':');
        proof {
            assert(p.len() == parts@.len());
            assert(p[0] == parts@[0]@);
            assert(p.last() == parts@.last()@);
        }
        let m = PortMapping {
            host_bind: bind.to_owned(),
            host_port: parse_port(parts[0].as_str()),
            container_port: parse_port(parts[parts.len() - 1].as_str()),
            ephemeral_port: None,
            name: None,
        };
        let ghost mv = m@;
        v.push(m);
        proof {
            assert(publishes(v@) =~= publishes(before).push(mv));
            assert(all.take(i + 1) =~= all.take(i as int).push(all[i as int]));
        }
        i = i + 1;
    }
    assert(all.take(all.len() as int) =~= all);
    v
}

/// The configuration that options ask for, from what their memory was read as.
pub open spec fn config_of(
    c: CommonResourceArgs,
    command: Seq<Seq<char>>,
    memory: Result<u64, Seq<char>>,
) -> Result<ConfigModel, Seq<char>> {
    match memory {
        Err(e) => Err(e),
        Ok(m) => match volumes(texts(c.volume@)) {
            Err(e) => Err(e),
            Ok(v) => Ok(
                ConfigModel {
                    name: text_of(c.name),
                    rootfs_path: match c.rootfs {
                        Some(r) => r@,
                        None => seq![],
                    },
                    command,
                    env: variables(texts(c.env@)),
                    resources: limits(m, c.cpu, c.max_procs),
                    volumes: v,
                    hostname: Some("psroot"@),
                    working_directory: "/home/container"@,
                    silo: false,
                    tools: seq![],
                    shares: seq![],
                    security_profile: SecurityProfile::Default,
                    network: network(c.network@),
                    ports: Seq::new(
                        c.publish@.len(),
                        |i: int| published(c.publish@[i]@, c.publish_addr@),
                    ),
                },
            ),
        },
    }
}

/// The configuration that options ask for, from what their memory was read as.
pub fn build_config(c: &CommonResourceArgs, command: Vec<String>, memory: Result<u64, String>) -> (r:
    Result<ContainerConfig, String>)
    ensures
        ({
            let m = config_of(
                *c,
                texts(command@),
                match memory {
                    Ok(n) => Ok(n),
                    Err(e) => Err(e@),
                },
            );
            match r {
                Ok(x) => m == Ok::<ConfigModel, Seq<char>>(x@),
                Err(e) => m == Err::<ConfigModel, Seq<char>>(e@),
            }
        }),
{
    let memory = match memory {
        Ok(m) => m,
        Err(e) => {
            return Err(e);
        },
    };
    let env = parse_variables(&c.env);
    let volumes = match parse_volumes(&c.volume) {
        Ok(v) => v,
        Err(e) => {
            return Err(e);
        },
    };
    let ports = parse_ports(&c.publish, c.publish_addr.as_str());
    let name = match &c.name {
        Some(n) => Some(n.clone()),
        None => None,
    };
    let rootfs_path = match &c.rootfs {
        Some(r) => r.clone(),
        None => String::new(),
    };
    let x = ContainerConfig {
        name,
        rootfs_path,
        command,
        env,
        resources: ResourceLimits {
            memory,
            cpu_rate: c.cpu,
            max_processes: c.max_procs,
            affinity: 0,
            priority_class: 0,
        },
        volumes,
        hostname: Some("psroot".to_owned()),
        working_directory: "/home/container".to_owned(),
        silo: false,
        tools: Vec::new(),
        shares: Vec::new(),
        security_profile: SecurityProfile::Default,
        network: parse_network(c.network.as_str()),
        ports,
    };
    proof {
        assert(x@.tools =~= Seq::<Seq<char>>::empty());
        assert(x@.shares =~= Seq::<Seq<char>>::empty());
        if c.rootfs is None {
            assert(x@.rootfs_path =~= Seq::<char>::empty());
        }
    }
    Ok(x)
}

/// The command of a container that is created: the one that was given, or the
/// shell.
pub fn create_command(command: Option<String>) -> (v: Vec<String>)
    ensures
        texts(v@) == seq![given_or_shell(text_of(command))],
{
    let c = match command {
        Some(c) => c,
        None => "/bin/sh".to_owned(),
    };
    let ghost cv = c@;
    let v = vec![c];
    assert(texts(v@) =~= seq![cv]);
    v
}

/// The command of a run: the one that was given, or one that says that all is
/// well.
pub fn run_command(command: Vec<String>) -> (v: Vec<String>)
    ensures
        texts(v@) == given_or_greeting(texts(command@)),
{
    if command.len() == 0 {
        let v = vec!["/bin/sh".to_owned(), "-c".to_owned(), "echo psroot ok".to_owned()];
        assert(texts(v@) =~= seq!["/bin/sh"@, "-c"@, "echo psroot ok"@]);
        v
    } else {
        command
    }
}

/// A container as the list shows it.
pub struct UnixContainer {
    pub id: String,
    pub name: Option<String>,
    pub state: String,
    pub command: Vec<String>,
}

/// A row of the list of containers.
pub open spec fn row(c: UnixContainer) -> Seq<char> {
    padded(c.id@, 36) + "  "@ + padded(
        match c.name {
            Some(n) => n@,
            None => ""@,
        },
        12,
    ) + "  "@ + (padded(c.state@, 10) + "  "@ + join(texts(c.command@), " "@))
}

/// The list of containers.
pub open spec fn list_lines(all: Seq<UnixContainer>) -> Seq<Seq<char>> {
    seq![
        padded("ID"@, 36) + "  "@ + padded("NAME"@, 12) + "  "@ + (padded("STATE"@, 10)
            + "  CMD"@),
    ] + Seq::new(all.len(), |i: int| row(all[i]))
}

/// The list of containers.
pub fn cmd_ls(all: &Vec<UnixContainer>) -> (v: Vec<String>)
    ensures
        texts(v@) == list_lines(all@),
{
    let a = pad("ID", 36);
    let b = pad("NAME", 12);
    let c = pad("STATE", 10);
    let tail = concat2(c.as_str(), "  CMD");
    let mut v: Vec<String> = Vec::new();
    v.push(concat5(a.as_str(), "  ", b.as_str(), "  ", tail.as_str()));
    let ghost head = texts(v@);
    let ghost rows = Seq::new(all@.len(), |i: int| row(all@[i]));
    let mut i: usize = 0;
    assert(head + rows.take(0) =~= head);
    while i < all.len()
        invariant
            i <= all.len(),
            rows == Seq::new(all@.len(), |i: int| row(all@[i])),
            texts(v@) == head + rows.take(i as int),
        decreases all.len() - i,
    {
        let id = pad(all[i].id.as_str(), 36);
        let name = match &all[i].name {
            Some(n) => pad(n.as_str(), 12),
            None => pad("", 12),
        };
        let state = pad(all[i].state.as_str(), 10);
        let command = join_texts(&all[i].command, " ");
        let tail = concat3(state.as_str(), "  ", command.as_str());
        push_line(&mut v, concat5(id.as_str(), "  ", name.as_str(), "  ", tail.as_str()));
        assert((head + rows.take(i as int)).push(rows[i as int]) =~= head + rows.take(i + 1));
        i = i + 1;
    }
    proof {
        assert(rows.take(rows.len() as int) =~= rows);
        assert(head =~= seq![
            padded("ID"@, 36) + "  "@ + padded("NAME"@, 12) + "  "@ + (padded("STATE"@, 10)
                + "  CMD"@),
        ]);
    }
    v
}

/// What a Unix host offers.
pub struct UnixCapabilities {
    pub os: String,
    pub is_root: bool,
    pub user_namespaces: bool,
    pub cgroups_v2: bool,
    pub sandbox_exec: bool,
    pub max_isolation: String,
}

pub open spec fn info_lines(c: UnixCapabilities, known: nat) -> Seq<Seq<char>> {
    seq![
        "psroot — Linux + macOS backend"@,
        "  os                : "@ + c.os@,
        "  is_root           : "@ + bool_form(c.is_root),
        "  user_namespaces   : "@ + bool_form(c.user_namespaces),
        "  cgroups_v2        : "@ + bool_form(c.cgroups_v2),
        "  sandbox-exec      : "@ + bool_form(c.sandbox_exec),
        "  max_isolation     : "@ + c.max_isolation@,
        ""@,
        "  containers        : "@ + decimal(known) + " known"@,
    ]
}

/// What the host offers and how many containers are known, a line each.
pub fn cmd_info(c: &UnixCapabilities, known: usize) -> (v: Vec<String>)
    ensures
        texts(v@) == info_lines(*c, known as nat),
{
    let n = decimal_text(known as u128);
    let v = vec![
        "psroot — Linux + macOS backend".to_owned(),
        concat2("  os                : ", c.os.as_str()),
        concat2("  is_root           : ", bool_text(c.is_root)),
        concat2("  user_namespaces   : ", bool_text(c.user_namespaces)),
        concat2("  cgroups_v2        : ", bool_text(c.cgroups_v2)),
        concat2("  sandbox-exec      : ", bool_text(c.sandbox_exec)),
        concat2("  max_isolation     : ", c.max_isolation.as_str()),
        "".to_owned(),
        concat3("  containers        : ", n.as_str(), " known"),
    ];
    assert(texts(v@) =~= info_lines(*c, known as nat));
    v
}

/// What a container on a Unix host has used.
pub struct UnixStats {
    pub state: String,
    pub host_pid: Option<i32>,
    pub exit_code: Option<i32>,
    pub memory_bytes: u64,
    pub cpu_user_us: u64,
}

/// A number that may be missing.
pub open spec fn option_form(n: Option<i32>) -> Seq<char> {
    match n {
        Some(x) => "Some("@ + signed(x) + ")"@,
        None => "None"@,
    }
}

fn option_text(n: Option<i32>) -> (s: String)
    ensures
        s@ == option_form(n),
{
    match n {
        Some(x) => {
            let t = signed_number(x);
            concat3("Some(", t.as_str(), ")")
        },
        None => "None".to_owned(),
    }
}

pub open spec fn stats_lines(s: UnixStats) -> Seq<Seq<char>> {
    seq![
        "state       : "@ + s.state@,
        "host_pid    : "@ + option_form(s.host_pid),
        "exit_code   : "@ + option_form(s.exit_code),
        "memory      : "@ + decimal(s.memory_bytes as nat) + " bytes"@,
        "cpu_user_us : "@ + decimal(s.cpu_user_us as nat),
    ]
}

/// What a container has used, a line each.
pub fn cmd_stats(s: &UnixStats) -> (v: Vec<String>)
    ensures
        texts(v@) == stats_lines(*s),
{
    let pid = option_text(s.host_pid);
    let code = option_text(s.exit_code);
    let memory = decimal_text(s.memory_bytes as u128);
    let time = decimal_text(s.cpu_user_us as u128);
    let v = vec![
        concat2("state       : ", s.state.as_str()),
        concat2("host_pid    : ", pid.as_str()),
        concat2("exit_code   : ", code.as_str()),
        concat3("memory      : ", memory.as_str(), " bytes"),
        concat2("cpu_user_us : ", time.as_str()),
    ];
    assert(texts(v@) =~= stats_lines(*s));
    v
}

/// A word as a script of the shell holds it: between quotation marks, those of
/// its own put outside of them behind a backslash.
pub open spec fn script_word(a: Seq<char>) -> Seq<char> {
    "'"@ + replaced(a, "'"@, "'\\''"@) + "' "@
}

/// The words of a command in a script, one after the other.
pub open spec fn script_words(cmd: Seq<Seq<char>>) -> Seq<char>
    decreases cmd.len(),
{
    if cmd.len() == 0 {
        seq![]
    } else {
        script_words(cmd.drop_last()) + script_word(cmd.last())
    }
}

/// The script that runs a command.
pub open spec fn script(cmd: Seq<Seq<char>>) -> Seq<char> {
    "#!/bin/sh\nexec "@ + script_words(cmd) + "\n"@
}

/// The script that runs a command.
pub fn run_simple(cmd: &Vec<String>) -> (s: String)
    ensures
        s@ == script(texts(cmd@)),
{
    let ghost all = texts(cmd@);
    let mut words = String::new();
    let mut i: usize = 0;
    proof {
        assert(all.take(0) =~= Seq::<Seq<char>>::empty());
        assert(words@ =~= Seq::<char>::empty());
    }
    while i < cmd.len()
        invariant
            i <= cmd.len(),
            all == texts(cmd@),
            words@ == script_words(all.take(i as int)),
        decreases cmd.len() - i,
    {
        proof {
            let t = all.take(i + 1);
            assert(t.drop_last() =~= all.take(i as int));
            assert(t.last() == cmd[i as int]@);
        }
        let q = replace_all(cmd[i].as_str(), "'", "'\\''");
        let w = concat3("'", q.as_str(), "' ");
        words = concat2(words.as_str(), w.as_str());
        i = i + 1;
    }
    assert(all.take(all.len() as int) =~= all);
    concat3("#!/bin/sh\nexec ", words.as_str(), "\n")
}

/// The command that runs a script in a container and keeps its output.
pub fn wrap_script(script: &str, output: &str) -> (v: Vec<String>)
    ensures
        texts(v@) == in_shell("/bin/sh '"@ + script@ + "' > '"@ + output@ + "' 2>&1"@),
{
    let v = vec![
        "/bin/sh".to_owned(),
        "-c".to_owned(),
        concat5("/bin/sh '", script, "' > '", output, "' 2>&1"),
    ];
    assert(texts(v@) =~= seq![
        "/bin/sh"@,
        "-c"@,
        "/bin/sh '"@ + script@ + "' > '"@ + output@ + "' 2>&1"@,
    ]);
    v
}

/// The first word of a script's text and what follows it, by the rules of the
/// shell: inside of quotation marks every character stands for itself, outside
/// of them a backslash makes the next one do so, and a space ends the word.
pub open spec fn shell_word(s: Seq<char>, quoted: bool) -> (Seq<char>, Seq<char>)
    decreases s.len(),
{
    if s.len() == 0 {
        (seq![], s)
    } else if quoted {
        let (w, rest) = shell_word(s.skip(1), s[0] != '\'');
        if s[0] == '\'' {
            (w, rest)
        } else {
            (seq![s[0]] + w, rest)
        }
    } else if s[0] == '\'' {
        shell_word(s.skip(1), true)
    } else if s[0] == '\\' && s.len() > 1 {
        let (w, rest) = shell_word(s.skip(2), false);
        (seq![s[1]] + w, rest)
    } else if s[0] == ' ' {
        (seq![], s.skip(1))
    } else {
        let (w, rest) = shell_word(s.skip(1), false);
        (seq![s[0]] + w, rest)
    }
}

proof fn lemma_shell_body(a: Seq<char>, rest: Seq<char>)
    ensures
        shell_word(replaced(a, "'"@, "'\\''"@) + "' "@ + rest, true) == (a, rest),
    decreases a.len(),
{
    reveal_strlit("'");
    reveal_strlit("'\\''");
    reveal_strlit("' ");
    let r = "'\\''"@;
    let p = "'"@;
    let end = "' "@ + rest;
    if a.len() == 0 {
        let s = replaced(a, p, r) + "' "@ + rest;
        assert(s =~= end);
        assert(end[0] == '\'' && end[1] == ' ');
        let t = end.skip(1);
        assert(t[0] == ' ');
        assert(t.skip(1) =~= rest);
        assert(shell_word(t, false) == (Seq::<char>::empty(), rest));
        assert(shell_word(end, true).0 =~= a);
    } else {
        let b = a.skip(1);
        lemma_shell_body(b, rest);
        let tail = replaced(b, p, r) + "' "@ + rest;
        let s = replaced(a, p, r) + "' "@ + rest;
        assert(p.is_prefix_of(a) <==> a[0] == '\'') by {
            if a[0] == '\'' {
                assert(a.subrange(0, 1) =~= p);
            }
            if p.is_prefix_of(a) {
                assert(a.subrange(0, 1)[0] == p[0]);
            }
        }
        if a[0] == '\'' {
            assert(a.skip(p.len() as int) =~= b);
            assert(s =~= r + tail);
            assert(s[0] == '\'' && s[1] == '\\' && s[2] == '\'' && s[3] == '\'');
            let s1 = s.skip(1);
            assert(s1[0] == '\\' && s1[1] == '\'');
            let s3 = s1.skip(2);
            assert(s3[0] == '\'');
            assert(s3.skip(1) =~= tail);
            assert(shell_word(s3, false) == shell_word(tail, true));
            assert(shell_word(s1, false) == (seq!['\''] + b, rest));
            assert(shell_word(s, true) == shell_word(s1, false));
            assert(seq!['\''] + b =~= a);
        } else {
            assert(s =~= seq![a[0]] + tail);
            assert(s.skip(1) =~= tail);
            assert(s[0] == a[0]);
            assert(shell_word(s, true) == (seq![a[0]] + b, rest));
            assert(seq![a[0]] + b =~= a);
        }
    }
}

/// A word of a script is read back as it was, whatever it holds.
pub proof fn law_script_word_round_trip(a: Seq<char>, rest: Seq<char>)
    ensures
        shell_word(script_word(a) + rest, false) == (a, rest),
{
    reveal_strlit("'");
    lemma_shell_body(a, rest);
    let s = script_word(a) + rest;
    let body = replaced(a, "'"@, "'\\''"@) + "' "@ + rest;
    assert(s[0] == '\'');
    assert(s.skip(1) =~= body);
}

fn signed_number(n: i32) -> (s: String)
    ensures
        s@ == signed(n),
{
    if n < 0 {
        let d = decimal_text((-(n as i64)) as u128);
        concat2("-", d.as_str())
    } else {
        decimal_text(n as u128)
    }
}

/// A container prints what it is told to.
pub fn test_echo(code: i32, out: &str) -> (v: Verdict)
    ensures
        v@ == (Finding {
            passed: echoed(code, out@),
            message: "exit="@ + signed(code) + ", out="@ + debug_form(trim(out@)),
        }),
{
    let c = signed_number(code);
    let t = trimmed(out);
    let d = debug_text(t.as_str());
    Verdict {
        passed: code == 0 && contains(out, "psroot-echo-ok"),
        message: concat4("exit=", c.as_str(), ", out=", d.as_str()),
    }
}

/// A container does not see the user's directory on the host; without one
/// there is nothing to see.
pub fn test_host_home_isolated(home: &str, code: i32, out: &str) -> (v: Verdict)
    ensures
        v@ == if home@.len() == 0 {
            passes("no HOME set; skipped"@)
        } else {
            Finding {
                passed: home_hidden(code, out@),
                message: "out="@ + debug_form(trim(out@)),
            }
        },
{
    if home.is_empty() {
        return Verdict { passed: true, message: "no HOME set; skipped".to_owned() };
    }
    let t = trimmed(out);
    let d = debug_text(t.as_str());
    Verdict {
        passed: code == 0 && !contains(out, "rc=0"),
        message: concat2("out=", d.as_str()),
    }
}

/// The command that looks for the user's directory on the host.
pub fn home_probe(home: &str) -> (v: Vec<String>)
    ensures
        texts(v@) == in_shell(home_listing(home@)),
{
    shell_command(concat3("ls '", home, "' >/dev/null 2>&1; echo rc=$?"))
}

fn shell_command(line: String) -> (v: Vec<String>)
    ensures
        texts(v@) == seq!["/bin/sh"@, "-c"@, line@],
{
    let ghost l = line@;
    let v = vec!["/bin/sh".to_owned(), "-c".to_owned(), line];
    assert(texts(v@) =~= seq!["/bin/sh"@, "-c"@, l]);
    v
}

/// The command that shows the environment of a container.
pub fn env_probe() -> (v: Vec<String>)
    ensures
        texts(v@) == seq![
            "/bin/sh"@,
            "-c"@,
            "echo USER=$USER HOME=$HOME PATH=$PATH PSROOT_CONTAINER_ID=${PSROOT_CONTAINER_ID:-unset}"@,
        ],
{
    shell_command(
        "echo USER=$USER HOME=$HOME PATH=$PATH PSROOT_CONTAINER_ID=${PSROOT_CONTAINER_ID:-unset}".to_owned(),
    )
}

/// The command that writes the memory limit of a container to a file.
pub fn memory_probe(file: &str) -> (v: Vec<String>)
    ensures
        texts(v@) == seq!["/bin/sh"@, "-c"@, "ulimit -v > '"@ + file@ + "' 2>&1"@],
{
    shell_command(concat3("ulimit -v > '", file, "' 2>&1"))
}

/// The command that looks for the network from inside a container.
pub fn network_probe() -> (v: Vec<String>)
    ensures
        texts(v@) == seq![
            "/bin/sh"@,
            "-c"@,
            "command -v curl >/dev/null && curl -s -m 3 -o /dev/null -w '%{http_code}\\n' https://1.1.1.1 || echo NOCURL"@,
        ],
{
    shell_command(
        "command -v curl >/dev/null && curl -s -m 3 -o /dev/null -w '%{http_code}\\n' https://1.1.1.1 || echo NOCURL".to_owned(),
    )
}

/// A program that answers every request on a port.
pub open spec fn server_program(bind: Seq<char>, port: nat) -> Seq<char> {
    "import http.server,socketserver;\nh=http.server.BaseHTTPRequestHandler;\nclass H(h):\n  def do_GET(s):\n    s.send_response(200);s.send_header('X-Psroot','ok');s.end_headers();s.wfile.write(b'PSROOT_PUBLISH_OK')\n  def log_message(s,*a,**k):pass\nsocketserver.TCPServer(('"@
        + bind + "',"@ + decimal(port) + "),H).serve_forever()"@
}

/// The command that runs that program in a container.
pub fn publish_server(python: &str, bind: &str, port: u16) -> (v: Vec<String>)
    ensures
        texts(v@) == seq![python@, "-c"@, server_program(bind@, port as nat)],
{
    let n = decimal_text(port as u128);
    let program = concat5(
        "import http.server,socketserver;\nh=http.server.BaseHTTPRequestHandler;\nclass H(h):\n  def do_GET(s):\n    s.send_response(200);s.send_header('X-Psroot','ok');s.end_headers();s.wfile.write(b'PSROOT_PUBLISH_OK')\n  def log_message(s,*a,**k):pass\nsocketserver.TCPServer(('",
        bind,
        "',",
        n.as_str(),
        "),H).serve_forever()",
    );
    let v = vec![python.to_owned(), "-c".to_owned(), program];
    assert(texts(v@) =~= seq![python@, "-c"@, server_program(bind@, port as nat)]);
    v
}

/// A container has an environment of its own.
pub fn test_env_sanitized(code: i32, out: &str) -> (v: Verdict)
    ensures
        v@ == (Finding {
            passed: sanitized(code, out@),
            message: trim(out@),
        }),
{
    Verdict {
        passed: code == 0 && contains(out, "USER=container") && contains(out, "/home/container")
            && contains(out, "PSROOT_CONTAINER_ID="),
        message: trimmed(out),
    }
}

/// A container of 64 MiB has a limit on its memory, in kibibytes.
pub open spec fn memory_limited(s: Seq<char>) -> bool {
    match parsed(s, u64::MAX as nat) {
        Some(n) => 0 < n <= 70_000,
        None => false,
    }
}

/// A container has the limit on its memory that it was given.
pub fn test_memory_limit(out: &str) -> (v: Verdict)
    ensures
        v@ == (Finding {
            passed: memory_limited(trim(out@)),
            message: "ulimit -v = "@ + trim(out@),
        }),
{
    let t = trimmed(out);
    let ok = match parse_number(t.as_str(), u64::MAX) {
        Some(n) => n > 0 && n <= 70_000,
        None => false,
    };
    Verdict { passed: ok, message: concat2("ulimit -v = ", t.as_str()) }
}

/// A container without a network reaches nothing; without a program to try it
/// with nothing can be told.
pub fn test_network_none(code: i32, out: &str) -> (v: Verdict)
    ensures
        v@ == (Finding {
            passed: offline(trim(out@)),
            message: "code="@ + signed(code) + " out="@ + debug_form(trim(out@)),
        }),
{
    let t = trimmed(out);
    let c = signed_number(code);
    let d = debug_text(t.as_str());
    let v = chars_of(t.as_str());
    let ok = same(t.as_str(), "NOCURL") || !(v.len() > 0 && v[0] == '2');
    Verdict { passed: ok, message: concat4("code=", c.as_str(), " out=", d.as_str()) }
}

/// A container is in the list until it is removed.
pub fn test_lifecycle(listed_before: bool, listed_after: bool) -> (v: Verdict)
    ensures
        v@ == (Finding {
            passed: came_and_went(listed_before, listed_after),
            message: "created="@ + bool_form(listed_before) + ", removed="@ + bool_form(
                !listed_after,
            ),
        }),
{
    Verdict {
        passed: listed_before && !listed_after,
        message: concat4(
            "created=",
            bool_text(listed_before),
            ", removed=",
            bool_text(!listed_after),
        ),
    }
}

/// A server in a container is reached through its published port: `body` is
/// what it answered, if it did.
pub fn test_network_publish(host_port: u16, container_port: u16, body: Option<&str>) -> (v: Verdict)
    ensures
        v@ == match body {
            Some(b) => if served(b@) {
                passes(
                    "host curl 127.0.0.1:"@ + decimal(host_port as nat)
                        + " -> container 127.0.0.1:"@ + decimal(container_port as nat) + (
                    " ok, body="@ + debug_form(b@)),
                )
            } else {
                fails(
                    "did not reach published port "@ + decimal(host_port as nat)
                        + " (container_port="@ + decimal(container_port as nat) + ")"@,
                )
            },
            None => fails(
                "did not reach published port "@ + decimal(host_port as nat)
                    + " (container_port="@ + decimal(container_port as nat) + ")"@,
            ),
        },
{
    let h = decimal_text(host_port as u128);
    let c = decimal_text(container_port as u128);
    if let Some(b) = body {
        if contains(b, "PSROOT_PUBLISH_OK") {
            let d = debug_text(b);
            let tail = concat2(" ok, body=", d.as_str());
            return Verdict {
                passed: true,
                message: concat5(
                    "host curl 127.0.0.1:",
                    h.as_str(),
                    " -> container 127.0.0.1:",
                    c.as_str(),
                    tail.as_str(),
                ),
            };
        }
    }
    Verdict {
        passed: false,
        message: concat5(
            "did not reach published port ",
            h.as_str(),
            " (container_port=",
            c.as_str(),
            ")",
        ),
    }
}

/// A container on a bridge has an address that the host reaches.
pub fn test_network_bridged(assigned: &str, pinged: bool) -> (v: Verdict)
    ensures
        v@ == if assigned@.len() == 0 {
            fails("container did not get a 10.88.x.y IP within 5s"@)
        } else {
            either(
                pinged,
                "container IP="@ + assigned@ + " on psroot0; host->container ping OK"@,
                "container got IP "@ + assigned@ + " but host could not ping it"@,
            )
        },
{
    if assigned.is_empty() {
        return Verdict {
            passed: false,
            message: "container did not get a 10.88.x.y IP within 5s".to_owned(),
        };
    }
    let good = concat3("container IP=", assigned, " on psroot0; host->container ping OK");
    let bad = concat3("container got IP ", assigned, " but host could not ping it");
    decide(pinged, good.as_str(), bad.as_str())
}

/// The lines of a text that are not empty.
pub open spec fn full_lines(parts: Seq<Seq<char>>) -> Seq<Seq<char>>
    decreases parts.len(),
{
    if parts.len() == 0 {
        seq![]
    } else {
        let rest = full_lines(parts.drop_last());
        if parts.last().len() == 0 {
            rest
        } else {
            rest.push(parts.last())
        }
    }
}

/// An output on one line.
pub open spec fn one_line(out: Seq<char>) -> Seq<char> {
    join(full_lines(split(replaced(out, "\r"@, ""@), '\n')), " | "@)
}

fn on_one_line(out: &str) -> (s: String)
    ensures
        s@ == one_line(out@),
{
    let plain = replace_all(out, "\r", "");
    let parts = split_char(plain.as_str(), '\n');
    let ghost all = texts(parts@);
    let mut v: Vec<String> = Vec::new();
    let mut i: usize = 0;
    proof {
        assert(all.take(0) =~= Seq::<Seq<char>>::empty());
        assert(texts(v@) =~= Seq::<Seq<char>>::empty());
    }
    while i < parts.len()
        invariant
            i <= parts.len(),
            all == texts(parts@),
            texts(v@) == full_lines(all.take(i as int)),
        decreases parts.len() - i,
    {
        proof {
            let t = all.take(i + 1);
            assert(t.drop_last() =~= all.take(i as int));
            assert(t.last() == parts[i as int]@);
        }
        if !parts[i].as_str().is_empty() {
            push_line(&mut v, parts[i].clone());
        }
        i = i + 1;
    }
    assert(all.take(all.len() as int) =~= all);
    join_texts(&v, " | ")
}

/// Whether the output of a terminal holds what a container prints there.
pub open spec fn marked(out: Seq<char>) -> bool {
    occurs(out, "MARKER_OK"@) && occurs(out, "USER=container"@) && occurs(out, "ID="@)
}

/// A container runs on a terminal.
pub fn test_tty_shell(exited: bool, code: i32, out: &str) -> (v: Verdict)
    ensures
        v@ == (Finding {
            passed: exited && code == 0 && marked(out@),
            message: "exited="@ + bool_form(exited) + " code="@ + signed(code) + (" saw_marker="@
                + bool_form(marked(out@)) + " output="@ + debug_form(one_line(out@))),
        }),
{
    let saw = contains(out, "MARKER_OK") && contains(out, "USER=container") && contains(out, "ID=");
    let c = signed_number(code);
    let l = on_one_line(out);
    let d = debug_text(l.as_str());
    let tail = concat4(" saw_marker=", bool_text(saw), " output=", d.as_str());
    Verdict {
        passed: exited && code == 0 && saw,
        message: concat5("exited=", bool_text(exited), " code=", c.as_str(), tail.as_str()),
    }
}

/// The line that shows the verdict of a test.
pub open spec fn result_line(name: Seq<char>, f: Finding) -> Seq<char> {
    (if f.passed {
        "[PASS] "@
    } else {
        "[FAIL] "@
    }) + name + " — "@ + f.message
}

/// How many of the findings passed.
pub open spec fn passed_count(f: Seq<Finding>) -> nat
    decreases f.len(),
{
    if f.len() == 0 {
        0
    } else {
        passed_count(f.drop_last()) + if f.last().passed {
            1nat
        } else {
            0nat
        }
    }
}

/// The names and findings of tests.
pub open spec fn named(v: Seq<(String, Verdict)>) -> Seq<Finding> {
    Seq::new(v.len(), |i: int| v[i].1@)
}

/// What is shown of the tests.
pub open spec fn test_lines(v: Seq<(String, Verdict)>) -> Seq<Seq<char>> {
    seq![""@, "psroot test suite"@, "================="@] + Seq::new(
        v.len(),
        |i: int| result_line(v[i].0@, v[i].1@),
    ) + seq![
        ""@,
        "Result: "@ + decimal(passed_count(named(v))) + " passed, "@ + decimal(
            (v.len() - passed_count(named(v))) as nat,
        ) + (" failed, "@ + decimal(v.len()) + " total"@),
    ]
}

proof fn lemma_passed_count(f: Seq<Finding>)
    ensures
        passed_count(f) <= f.len(),
        passed_count(f) == f.len() <==> forall|i: int| 0 <= i < f.len() ==> (#[trigger] f[i]).passed,
    decreases f.len(),
{
    if f.len() > 0 {
        let init = f.drop_last();
        lemma_passed_count(init);
        assert(f[f.len() - 1] == f.last());
        if forall|i: int| 0 <= i < f.len() ==> (#[trigger] f[i]).passed {
            assert forall|i: int| 0 <= i < init.len() implies (#[trigger] init[i]).passed by {
                assert(f[i] == init[i]);
            }
        }
        if passed_count(f) == f.len() {
            assert forall|i: int| 0 <= i < f.len() implies (#[trigger] f[i]).passed by {
                if i < init.len() {
                    assert(f[i] == init[i]);
                }
            }
        }
    }
}

/// What is shown of the tests, and the exit code: 0 where all passed.
pub fn cmd_test(v: &Vec<(String, Verdict)>) -> (r: (Vec<String>, i32))
    ensures
        texts(r.0@) == test_lines(v@),
        r.1 == suite_code(named(v@)),
{
    let ghost all = named(v@);
    let ghost shown = Seq::new(v@.len(), |i: int| result_line(v@[i].0@, v@[i].1@));
    let mut out: Vec<String> = Vec::new();
    out.push("".to_owned());
    out.push("psroot test suite".to_owned());
    out.push("=================".to_owned());
    let ghost head = texts(out@);
    let mut ok: usize = 0;
    let mut i: usize = 0;
    proof {
        assert(all.take(0) =~= Seq::<Finding>::empty());
        assert(head + shown.take(0) =~= head);
        lemma_passed_count(all);
    }
    while i < v.len()
        invariant
            ok <= i <= v.len(),
            all == named(v@),
            shown == Seq::new(v@.len(), |i: int| result_line(v@[i].0@, v@[i].1@)),
            ok == passed_count(all.take(i as int)),
            texts(out@) == head + shown.take(i as int),
        decreases v.len() - i,
    {
        proof {
            let t = all.take(i + 1);
            assert(t.drop_last() =~= all.take(i as int));
            assert(t.last() == v[i as int].1@);
        }
        let mark = if v[i].1.passed {
            ok = ok + 1;
            "[PASS] "
        } else {
            "[FAIL] "
        };
        push_line(&mut out, concat4(mark, v[i].0.as_str(), " — ", v[i].1.message.as_str()));
        assert((head + shown.take(i as int)).push(shown[i as int]) =~= head + shown.take(i + 1));
        i = i + 1;
    }
    proof {
        assert(all.take(all.len() as int) =~= all);
        assert(shown.take(shown.len() as int) =~= shown);
    }
    push_line(&mut out, "".to_owned());
    let a = decimal_text(ok as u128);
    let b = decimal_text((v.len() - ok) as u128);
    let c = decimal_text(v.len() as u128);
    let tail = concat3(" failed, ", c.as_str(), " total");
    push_line(
        &mut out,
        concat5("Result: ", a.as_str(), " passed, ", b.as_str(), tail.as_str()),
    );
    assert(texts(out@) =~= test_lines(v@));
    let code: i32 = if ok == v.len() {
        0
    } else {
        1
    };
    (out, code)
}

/// A command of the shell.
pub open spec fn in_shell(command: Seq<char>) -> Seq<Seq<char>> {
    seq!["/bin/sh"@, "-c"@, command]
}

/// The command that lists a directory and prints whether that succeeded.
pub open spec fn home_listing(home: Seq<char>) -> Seq<char> {
    "ls '"@ + home + "' >/dev/null 2>&1; echo rc=$?"@
}

/// The command of a new container.
pub open spec fn given_or_shell(command: Option<Seq<char>>) -> Seq<char> {
    match command {
        Some(c) => c,
        None => "/bin/sh"@,
    }
}

/// The command that is run where one is given, else a greeting.
pub open spec fn given_or_greeting(command: Seq<Seq<char>>) -> Seq<Seq<char>> {
    if command.len() == 0 {
        in_shell("echo psroot ok"@)
    } else {
        command
    }
}

/// Whether a container printed what it was asked to.
pub open spec fn echoed(code: i32, out: Seq<char>) -> bool {
    code == 0 && occurs(out, "psroot-echo-ok"@)
}

/// Whether the user's directory could not be listed.
pub open spec fn home_hidden(code: i32, out: Seq<char>) -> bool {
    code == 0 && !occurs(out, "rc=0"@)
}

/// Whether a container has variables of its own.
pub open spec fn sanitized(code: i32, out: Seq<char>) -> bool {
    code == 0 && occurs(out, "USER=container"@) && occurs(out, "/home/container"@) && occurs(
        out,
        "PSROOT_CONTAINER_ID="@,
    )
}

/// Whether nothing was reached: no answer that begins with 2 came.
pub open spec fn offline(out: Seq<char>) -> bool {
    out == "NOCURL"@ || !(out.len() > 0 && out[0] == '2')
}

/// Whether a container was listed while it was there, and only then.
pub open spec fn came_and_went(before: bool, after: bool) -> bool {
    before && !after
}

/// Whether the server in the container answered.
pub open spec fn served(body: Seq<char>) -> bool {
    occurs(body, "PSROOT_PUBLISH_OK"@)
}

/// The exit code of the tests.
pub open spec fn suite_code(f: Seq<Finding>) -> i32 {
    if passed_count(f) == f.len() {
        0
    } else {
        1
    }
}

/// The words for isolation and network of a Unix host; any other word means the
/// standard isolation and outgoing connections.
pub proof fn law_unix_words(w: Seq<char>)
    ensures
        isolation(w) == UnixIsolation::Minimal <==> w == "minimal"@,
        isolation(w) == UnixIsolation::Full <==> w == "full"@,
        isolation(w) == UnixIsolation::Standard <==> w != "minimal"@ && w != "full"@,
        network(w) == NetworkAccess::Off <==> w == "none"@,
        network(w) == NetworkAccess::Full <==> w == "full"@,
        network(w) == NetworkAccess::Netstack <==> w == "netstack"@,
        network(w) == NetworkAccess::Outbound <==> w != "none"@ && w != "full"@ && w
            != "netstack"@,
{
    reveal_strlit("minimal");
    reveal_strlit("full");
    reveal_strlit("none");
    reveal_strlit("netstack");
    assert("minimal"@.len() == 7 && "full"@.len() == 4 && "none"@.len() == 4);
    assert("netstack"@.len() == 8);
    assert("full"@[0] != "none"@[0]);
}

/// A mount of a Unix host is given as two paths with a colon between them, and is
/// read-only exactly where `ro` follows behind another.
pub proof fn law_unix_volumes(host: Seq<char>, target: Seq<char>)
    requires
        !host.contains(':'),
        !target.contains(':'),
    ensures
        volume(host + ":"@ + target) == Some(
            Mount { host_path: host, container_path: target, read_only: false },
        ),
        volume(host + ":"@ + target + ":ro"@) == Some(
            Mount { host_path: host, container_path: target, read_only: true },
        ),
        volume(host + ":"@ + target + ":rw"@) == Some(
            Mount { host_path: host, container_path: target, read_only: false },
        ),
        volume(host) is None,
{
    reveal_strlit(":");
    reveal_strlit(":ro");
    reveal_strlit(":rw");
    reveal_strlit("ro");
    assert("ro"@.len() == 2);
    let rw = seq!['r', 'w'];
    lemma_splitn_step(host, 3, target);
    lemma_splitn_one(target, 2);
    lemma_splitn_one(host, 3);
    assert(host + ":"@ + target =~= host.push(':') + target);
    lemma_splitn_step(host, 3, target.push(':') + "ro"@);
    lemma_splitn_step(target, 2, "ro"@);
    assert(host + ":"@ + target + ":ro"@ =~= host.push(':') + (target.push(':') + "ro"@));
    lemma_splitn_step(host, 3, target.push(':') + rw);
    lemma_splitn_step(target, 2, rw);
    assert(host + ":"@ + target + ":rw"@ =~= host.push(':') + (target.push(':') + rw));
    assert(splitn("ro"@, 1, ':') == seq!["ro"@]);
    assert(splitn(rw, 1, ':') == seq![rw]);
    assert(rw[1] != "ro"@[1]);
}

proof fn lemma_splitn_step(head: Seq<char>, n: nat, rest: Seq<char>)
    requires
        !head.contains(':'),
        n >= 2,
    ensures
        splitn(head.push(':') + rest, n, ':') == seq![head] + splitn(rest, (n - 1) as nat, ':'),
{
    let s = head.push(':') + rest;
    assert forall|j: int| 0 <= j < head.len() implies s[j] != ':' by {
        assert(s[j] == head[j]);
    }
    crate::text::lemma_find_is(s, ':', head.len() as int);
    assert(s.take(head.len() as int) =~= head);
    assert(s.skip(head.len() as int + 1) =~= rest);
}

proof fn lemma_splitn_one(s: Seq<char>, n: nat)
    requires
        !s.contains(':'),
        n >= 1,
    ensures
        splitn(s, n, ':') == seq![s],
{
    crate::text::lemma_find_bounds(s, ':');
}

/// A published port of a Unix host is one number for both sides, or two with a
/// colon between them, the host's first.
pub proof fn law_unix_ports(host: u16, container: u16, bind: Seq<char>)
    ensures
        published(decimal(host as nat) + ":"@ + decimal(container as nat), bind).host_port == host,
        published(decimal(host as nat) + ":"@ + decimal(container as nat), bind).container_port
            == container,
        published(decimal(host as nat) + ":"@ + decimal(container as nat), bind).host_bind == bind,
        published(decimal(host as nat), bind).host_port == host,
        published(decimal(host as nat), bind).container_port == host,
{
    reveal_strlit(":");
    let a = decimal(host as nat);
    let b = decimal(container as nat);
    crate::text::law_decimal_round_trip(host as nat);
    crate::text::law_decimal_round_trip(container as nat);
    lemma_splitn_step(a, 2, b);
    lemma_splitn_one(a, 2);
    assert(splitn(b, 1, ':') == seq![b]);
    assert(a + ":"@ + b =~= a.push(':') + b);
}

/// Each argument of a container of a Unix host goes where it belongs.
pub proof fn law_unix_arguments(c: CommonResourceArgs, command: Seq<Seq<char>>, m: u64, e: Seq<char>)
    ensures
        config_of(c, command, Err(e)) == Err::<ConfigModel, Seq<char>>(e),
        volumes(texts(c.volume@)) is Err ==> config_of(c, command, Ok(m)) == Err::<
            ConfigModel,
            Seq<char>,
        >(volumes(texts(c.volume@))->Err_0),
        volumes(texts(c.volume@)) is Ok ==> (config_of(c, command, Ok(m)) matches Ok(x) && x.name
            == text_of(c.name) && x.command == command && x.env == variables(texts(c.env@))
            && x.resources.memory == m && x.resources.cpu_rate == c.cpu && x.resources.max_processes
            == c.max_procs && x.volumes == volumes(texts(c.volume@))->Ok_0 && x.hostname == Some(
            "psroot"@,
        ) && x.working_directory == "/home/container"@ && !x.silo && x.tools.len() == 0
            && x.shares.len() == 0 && x.network == network(c.network@) && x.ports.len()
            == c.publish@.len()),
        volumes(texts(c.volume@)) is Ok ==> (config_of(c, command, Ok(m)) matches Ok(x) && (
        c.rootfs matches Some(r) ==> x.rootfs_path == r@) && (c.rootfs is None
            ==> x.rootfs_path.len() == 0)),
{
}

/// What is run is what was given; where nothing was, a shell or a greeting.
pub proof fn law_unix_commands(c: Seq<char>, v: Seq<Seq<char>>, home: Seq<char>)
    ensures
        given_or_shell(Some(c)) == c,
        given_or_shell(None) == "/bin/sh"@,
        v.len() > 0 ==> given_or_greeting(v) == v,
        v.len() == 0 ==> given_or_greeting(v) == seq!["/bin/sh"@, "-c"@, "echo psroot ok"@],
        in_shell(c) == seq!["/bin/sh"@, "-c"@, c],
        home_listing(home) == "ls '"@ + home + "' >/dev/null 2>&1; echo rc=$?"@,
{
}

/// A script runs its command and nothing else, each word quoted, and the shell
/// reads the words back.
pub proof fn law_script(cmd: Seq<Seq<char>>, last: Seq<char>)
    ensures
        script(cmd) == "#!/bin/sh\nexec "@ + script_words(cmd) + "\n"@,
        script_words(cmd.push(last)) == script_words(cmd) + script_word(last),
        script_words(Seq::empty()) == Seq::<char>::empty(),
{
    assert(cmd.push(last).drop_last() =~= cmd);
}

/// When the tests of a Unix host pass.
pub proof fn law_when_unix_tests_pass(
    code: i32,
    out: Seq<char>,
    n: nat,
    before: bool,
    after: bool,
    f: Seq<Finding>,
)
    ensures
        echoed(code, out) <==> code == 0 && occurs(out, "psroot-echo-ok"@),
        home_hidden(code, out) <==> code == 0 && !occurs(out, "rc=0"@),
        sanitized(code, out) ==> code == 0 && occurs(out, "USER=container"@),
        sanitized(code, out) ==> occurs(out, "/home/container"@) && occurs(
            out,
            "PSROOT_CONTAINER_ID="@,
        ),
        code == 0 && occurs(out, "USER=container"@) && occurs(out, "/home/container"@) && occurs(
            out,
            "PSROOT_CONTAINER_ID="@,
        ) ==> sanitized(code, out),
        memory_limited(decimal(n)) <==> 0 < n <= 70_000,
        out.len() > 0 && out[0] == '2' ==> !offline(out),
        out.len() == 0 || out[0] != '2' ==> offline(out),
        came_and_went(before, after) <==> before && !after,
        served(out) <==> occurs(out, "PSROOT_PUBLISH_OK"@),
        marked(out) <==> occurs(out, "MARKER_OK"@) && occurs(out, "USER=container"@) && occurs(
            out,
            "ID="@,
        ),
        passed_count(f) <= f.len(),
        suite_code(f) == 0 <==> forall|i: int| 0 <= i < f.len() ==> (#[trigger] f[i]).passed,
{
    reveal_strlit("NOCURL");
    crate::text::law_decimal_round_trip(n);
    lemma_passed_count(f);
}

} // verus!
