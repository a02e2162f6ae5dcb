//! The interactive shell: what its options ask for, and what is decided before
//! it starts.

use crate::cli::args::{
    binds, default_config, default_model, limits, network_read, parse_binds, parse_memory,
    parse_network_mode, parse_ports, parse_variable, parse_variables, ports, size_word, variable,
    variables,
};
use crate::cli::quote::{quote_line, quoted_line};
use crate::container::config::{
    mounts, publishes, ConfigModel, ContainerConfig, Failure, Mount, NetworkAccess, PortMapping,
    Publish, PsrootError, ResourceLimits, VolumeMount,
};
use crate::container::env::pairs;
use crate::container::sandbox::{
    below_drive, inside, join_path, joined_path, law_join_goes_below, strip_drive,
};
use crate::text::{
    concat2, concat3, concat5, same, texts, to_lowercase, trim, trimmed, unicode_lower,
    unicode_upper,
};
use vstd::prelude::*;

verus! {

/// The options of an interactive shell.
#[derive(Clone, Debug)]
pub struct ShellArgs {
    pub tool: Vec<String>,
    pub network: String,
    pub memory: String,
    pub cpu: u32,
    pub max_procs: u32,
    pub publish: Vec<String>,
    /// The shell's name in the catalog.
    pub shell: Option<String>,
    pub shell_version: Option<String>,
    pub shell_arg: Vec<String>,
    pub shell_env: Vec<String>,
    pub explain: bool,
    pub no_stage: bool,
    /// The path of a shell that the catalog does not know.
    pub shell_binary: Option<String>,
    pub bind: Vec<String>,
    pub share: Vec<String>,
    pub isolate: String,
}

/// What the options about resources and the network were read as.
pub struct Allowance {
    pub network: NetworkAccess,
    pub memory: u64,
    pub ports: Vec<PortMapping>,
}

/// What an allowance holds.
#[verifier::ext_equal]
pub struct AllowanceModel {
    pub network: NetworkAccess,
    pub memory: u64,
    pub ports: Seq<Publish>,
}

impl View for Allowance {
    type V = AllowanceModel;

    open spec fn view(&self) -> AllowanceModel {
        AllowanceModel {
            network: self.network,
            memory: self.memory,
            ports: publishes(self.ports@),
        }
    }
}

/// What the options about resources and the network are read as, from the word
/// for the network in lower case and the size in upper case; or what is told of
/// the first that is refused.
pub open spec fn allowed(
    a: ShellArgs,
    network: Seq<char>,
    memory: Seq<char>,
) -> Result<AllowanceModel, Failure> {
    if a.shell is Some && a.shell_binary is Some {
        Err(Failure::Other("--shell and --shell-binary are mutually exclusive"@))
    } else {
        match network_read(network) {
            Err(f) => Err(f),
            Ok(n) => match size_word(memory) {
                None => Err(Failure::Other("Invalid memory value"@)),
                Some(m) => match ports(texts(a.publish@)) {
                    Err(f) => Err(f),
                    Ok(p) => Ok(AllowanceModel { network: n, memory: m as u64, ports: p }),
                },
            },
        }
    }
}

/// What the options about resources and the network are read as.
pub fn allowance(a: &ShellArgs) -> (r: Result<Allowance, PsrootError>)
    ensures
        ({
            let m = allowed(*a, unicode_lower(a.network@), unicode_upper(trim(a.memory@)));
            match r {
                Ok(o) => m == Ok::<AllowanceModel, Failure>(o@),
                Err(e) => m == Err::<AllowanceModel, Failure>(e@),
            }
        }),
{
    if a.shell.is_some() && a.shell_binary.is_some() {
        return Err(
            PsrootError::Other("--shell and --shell-binary are mutually exclusive".to_owned()),
        );
    }
    let network = match parse_network_mode(a.network.as_str()) {
        Ok(n) => n,
        Err(e) => {
            return Err(e);
        },
    };
    let memory = match parse_memory(a.memory.as_str()) {
        Ok(n) => n,
        Err(e) => {
            return Err(e);
        },
    };
    match parse_ports(&a.publish) {
        Ok(ports) => Ok(Allowance { network, memory, ports }),
        Err(e) => Err(e),
    }
}

/// The configuration of a container for a shell.
pub open spec fn shell_model(
    a: ShellArgs,
    o: AllowanceModel,
    command: Seq<char>,
    env: Seq<(Seq<char>, Seq<char>)>,
    volumes: Seq<Mount>,
) -> ConfigModel {
    ConfigModel {
        command: seq![command],
        tools: texts(a.tool@),
        shares: texts(a.share@),
        network: o.network,
        ports: o.ports,
        volumes,
        env,
        resources: limits(o.memory, a.cpu, a.max_procs),
        ..default_model()
    }
}

fn copy_texts(v: &Vec<String>) -> (w: Vec<String>)
    ensures
        texts(w@) == texts(v@),
{
    let mut w: Vec<String> = Vec::new();
    let mut i: usize = 0;
    while i < v.len()
        invariant
            i <= v.len(),
            texts(w@) =~= texts(v@).take(i as int),
        decreases v.len() - i,
    {
        let ghost before = w@;
        let s = v[i].clone();
        w.push(s);
        proof {
            assert(texts(w@) =~= texts(before).push(s@));
            assert(texts(v@).take(i + 1) =~= texts(v@).take(i as int).push(v[i as int]@));
        }
        i = i + 1;
    }
    assert(texts(v@).take(v@.len() as int) =~= texts(v@));
    w
}

fn shell_config(
    a: &ShellArgs,
    o: Allowance,
    command: &str,
    env: Vec<(String, String)>,
    volumes: Vec<VolumeMount>,
) -> (c: ContainerConfig)
    ensures
        c@ == shell_model(*a, o@, command@, pairs(env@), mounts(volumes@)),
{
    let mut c = default_config();
    c.command = vec![command.to_owned()];
    c.tools = copy_texts(&a.tool);
    c.shares = copy_texts(&a.share);
    c.network = o.network;
    c.ports = o.ports;
    c.volumes = volumes;
    c.env = env;
    c.resources = ResourceLimits {
        memory: o.memory,
        cpu_rate: a.cpu,
        max_processes: a.max_procs,
        affinity: 0,
        priority_class: 0,
    };
    assert(c@.command =~= seq![command@]);
    c
}

/// A shell by its path.
pub struct LegacyShell {
    pub config: ContainerConfig,
    pub command_line: String,
}

impl LegacyShell {
    /// Whether this starts `path` with the mounts `m`.
    pub open spec fn starts(
        &self,
        a: ShellArgs,
        o: AllowanceModel,
        path: Seq<char>,
        m: Seq<Mount>,
    ) -> bool {
        &&& self.config@ == shell_model(a, o, path, variables(texts(a.shell_env@)), m)
        &&& self.command_line@ == quoted_line(path, texts(a.shell_arg@))
    }
}

/// What is started where a shell is given by its path.
pub fn legacy_shell(a: &ShellArgs, o: Allowance, path: &str) -> (r: Result<
    LegacyShell,
    PsrootError,
>)
    ensures
        match (r, binds(texts(a.bind@))) {
            (Ok(l), Ok(m)) => l.starts(*a, o@, path@, m),
            (Err(e), Err(f)) => e@ == f,
            _ => false,
        },
{
    let volumes = match parse_binds(&a.bind) {
        Ok(v) => v,
        Err(e) => {
            return Err(e);
        },
    };
    let env = parse_variables(&a.shell_env);
    let command_line = quote_line(path, &a.shell_arg);
    Ok(LegacyShell { config: shell_config(a, o, path, env, volumes), command_line })
}

/// The junctions that stand in for mounts where the host has no bind links:
/// below the root directory, whatever their drive.
pub open spec fn stand_ins(root: Seq<char>, m: Seq<Mount>) -> Seq<(Seq<char>, Seq<char>)> {
    Seq::new(
        m.len(),
        |i: int| (joined_path(root, below_drive(trim(m[i].container_path))), m[i].host_path),
    )
}

/// The junctions that stand in for mounts where the host has no bind links.
pub fn legacy_junctions(root: &str, volumes: &Vec<VolumeMount>, bind_filter: bool) -> (v: Vec<
    (String, String),
>)
    ensures
        pairs(v@) == if bind_filter {
            seq![]
        } else {
            stand_ins(root@, mounts(volumes@))
        },
{
    let mut v: Vec<(String, String)> = Vec::new();
    if bind_filter {
        assert(pairs(v@) =~= Seq::<(Seq<char>, Seq<char>)>::empty());
        return v;
    }
    let ghost all = stand_ins(root@, mounts(volumes@));
    let mut i: usize = 0;
    while i < volumes.len()
        invariant
            i <= volumes.len(),
            all == stand_ins(root@, mounts(volumes@)),
            pairs(v@) =~= all.take(i as int),
        decreases volumes.len() - i,
    {
        let ghost before = v@;
        let path = trimmed(volumes[i].container_path.as_str());
        let below = strip_drive(path.as_str());
        let at = join_path(root, below.as_str());
        let e = (at, volumes[i].host_path.clone());
        v.push(e);
        proof {
            assert(pairs(v@) =~= pairs(before).push((e.0@, e.1@)));
            assert(all.take(i + 1) =~= all.take(i as int).push(all[i as int]));
        }
        i = i + 1;
    }
    assert(all.take(all.len() as int) =~= all);
    v
}

/// The variables of a list in their order; what holds no `=` is passed over.
pub open spec fn listed_variables(list: Seq<Seq<char>>) -> Seq<(Seq<char>, Seq<char>)>
    decreases list.len(),
{
    if list.len() == 0 {
        seq![]
    } else {
        let rest = listed_variables(list.drop_last());
        match variable(list.last()) {
            Some(p) => rest.push(p),
            None => rest,
        }
    }
}

fn list_variables(list: &Vec<String>) -> (env: Vec<(String, String)>)
    ensures
        pairs(env@) == listed_variables(texts(list@)),
{
    let mut env: Vec<(String, String)> = Vec::new();
    let ghost all = texts(list@);
    let mut i: usize = 0;
    proof {
        assert(all.take(0) =~= Seq::<Seq<char>>::empty());
        assert(pairs(env@) =~= Seq::<(Seq<char>, Seq<char>)>::empty());
    }
    while i < list.len()
        invariant
            i <= list.len(),
            all == texts(list@),
            pairs(env@) == listed_variables(all.take(i as int)),
        decreases list.len() - i,
    {
        proof {
            let t = all.take(i + 1);
            assert(t.drop_last() =~= all.take(i as int));
            assert(t.last() == list[i as int]@);
        }
        if let Some(p) = parse_variable(list[i].as_str()) {
            let ghost before = env@;
            let ghost pv = (p.0@, p.1@);
            env.push(p);
            assert(pairs(env@) =~= pairs(before).push(pv));
        }
        i = i + 1;
    }
    assert(all.take(all.len() as int) =~= all);
    env
}

/// What the catalog of shells is asked for.
pub struct ShellRequest {
    pub name: String,
    pub args: Vec<String>,
    pub env: Vec<(String, String)>,
}

/// The name of the shell that is asked for: `cmd` where none is.
pub open spec fn shell_name(a: ShellArgs) -> Seq<char> {
    match a.shell {
        Some(s) => s@,
        None => "cmd"@,
    }
}

/// What the catalog of shells is asked for.
pub fn shell_request(a: &ShellArgs) -> (q: ShellRequest)
    ensures
        q.name@ == shell_name(*a),
        texts(q.args@) == texts(a.shell_arg@),
        pairs(q.env@) == listed_variables(texts(a.shell_env@)),
{
    let name = match &a.shell {
        Some(s) => s.clone(),
        None => "cmd".to_owned(),
    };
    ShellRequest { name, args: copy_texts(&a.shell_arg), env: list_variables(&a.shell_env) }
}

/// The directory of a user of the host.
pub open spec fn user_home(user: Seq<char>) -> Seq<char> {
    "C:\\Users\\"@ + user
}

/// Whether a directory of the host is mounted already.
pub open spec fn mounts_host(m: Seq<Mount>, host: Seq<char>) -> bool {
    exists|i: int| 0 <= i < m.len() && (#[trigger] m[i]).host_path == host
}

/// The mounts, and the user's directory under its own path where `winget` is
/// wanted, which looks for its programs there.
pub open spec fn with_home(
    m: Seq<Mount>,
    tools: Seq<Seq<char>>,
    user: Option<Seq<char>>,
    exists_home: bool,
) -> Seq<Mount> {
    match user {
        Some(u) => if tools.contains("winget"@) && u.len() > 0 && exists_home && !mounts_host(
            m,
            user_home(u),
        ) {
            m.push(
                Mount {
                    host_path: user_home(u),
                    container_path: user_home(u),
                    read_only: false,
                },
            )
        } else {
            m
        },
        None => m,
    }
}

fn has_mount(m: &Vec<VolumeMount>, host: &str) -> (b: bool)
    ensures
        b == mounts_host(mounts(m@), host@),
{
    let mut i: usize = 0;
    while i < m.len()
        invariant
            i <= m.len(),
            forall|j: int| 0 <= j < i ==> (#[trigger] mounts(m@)[j]).host_path != host@,
        decreases m.len() - i,
    {
        if same(m[i].host_path.as_str(), host) {
            assert(mounts(m@)[i as int].host_path == host@);
            return true;
        }
        i = i + 1;
    }
    false
}

/// Adds the user's directory to the mounts, where `winget` is wanted.
pub fn bind_home(
    m: &mut Vec<VolumeMount>,
    tools: &Vec<String>,
    user: Option<&str>,
    exists_home: bool,
)
    ensures
        mounts(final(m)@) == with_home(
            mounts(old(m)@),
            texts(tools@),
            match user {
                Some(u) => Some(u@),
                None => None,
            },
            exists_home,
        ),
{
    if let Some(u) = user {
        if crate::container::rootfs::list_has(tools, "winget") && !u.is_empty() && exists_home {
            let home = concat2("C:\\Users\\", u);
            if !has_mount(m, home.as_str()) {
                let ghost before = m@;
                let v = VolumeMount {
                    host_path: home.clone(),
                    container_path: home,
                    read_only: false,
                };
                let ghost vv = v@;
                m.push(v);
                assert(mounts(m@) =~= mounts(before).push(vv));
            }
        }
    }
}

/// What a shell is started from.
pub enum ShellStart {
    /// A shell by its path.
    Legacy(LegacyShell),
    /// A shell of the catalog, with the container made for it.
    Catalog(ShellRequest, ContainerConfig),
}

/// What is told of a version that cannot be read.
pub open spec fn version_refused(v: Seq<char>) -> Failure {
    Failure::Other("Invalid --shell-version '"@ + v + "': use e.g. '>=7.4' or '~7.5'"@)
}

/// What the options of a shell lead to: `version_read` says whether its version
/// could be read, `ready` whether the host was set up for it, and `user` and
/// `exists_home` tell of the host's user.
pub fn cmd_shell(
    a: &ShellArgs,
    version_read: bool,
    ready: Result<(), PsrootError>,
    user: Option<&str>,
    exists_home: bool,
) -> (r: Result<ShellStart, PsrootError>)
    ensures
        match allowed(*a, unicode_lower(a.network@), unicode_upper(trim(a.memory@))) {
            Err(f) => r is Err && r->Err_0@ == f,
            Ok(o) => match a.shell_binary {
                Some(path) => match (r, binds(texts(a.bind@))) {
                    (Ok(ShellStart::Legacy(l)), Ok(m)) => l.starts(*a, o, path@, m),
                    (Err(e), Err(f)) => e@ == f,
                    _ => false,
                },
                None => if a.shell_version is Some && !version_read {
                    r is Err && r->Err_0@ == version_refused(a.shell_version->0@)
                } else if ready is Err {
                    r is Err && r->Err_0 == ready->Err_0
                } else {
                    match (r, binds(texts(a.bind@))) {
                        (Ok(ShellStart::Catalog(q, c)), Ok(m)) => {
                            &&& q.name@ == shell_name(*a)
                            &&& texts(q.args@) == texts(a.shell_arg@)
                            &&& pairs(q.env@) == listed_variables(texts(a.shell_env@))
                            &&& c@ == shell_model(
                                *a,
                                o,
                                "cmd.exe"@,
                                seq![],
                                with_home(
                                    m,
                                    texts(a.tool@),
                                    match user {
                                        Some(u) => Some(u@),
                                        None => None,
                                    },
                                    exists_home,
                                ),
                            )
                        },
                        (Err(e), Err(f)) => e@ == f,
                        _ => false,
                    }
                },
            },
        },
{
    let o = match allowance(a) {
        Ok(o) => o,
        Err(e) => {
            return Err(e);
        },
    };
    if let Some(path) = &a.shell_binary {
        return match legacy_shell(a, o, path.as_str()) {
            Ok(l) => Ok(ShellStart::Legacy(l)),
            Err(e) => Err(e),
        };
    }
    let request = shell_request(a);
    if let Some(v) = &a.shell_version {
        if !version_read {
            return Err(
                PsrootError::Other(
                    concat3(
                        "Invalid --shell-version '",
                        v.as_str(),
                        "': use e.g. '>=7.4' or '~7.5'",
                    ),
                ),
            );
        }
    }
    if let Err(e) = ready {
        return Err(e);
    }
    let mut volumes = match parse_binds(&a.bind) {
        Ok(v) => v,
        Err(e) => {
            return Err(e);
        },
    };
    bind_home(&mut volumes, &a.tool, user, exists_home);
    let env: Vec<(String, String)> = Vec::new();
    assert(pairs(env@) =~= Seq::<(Seq<char>, Seq<char>)>::empty());
    let config = shell_config(a, o, "cmd.exe", env, volumes);
    Ok(ShellStart::Catalog(request, config))
}

/// Why a shell that would have to be staged is not started.
pub open spec fn not_staged(name: Seq<char>) -> Failure {
    Failure::Other(
        "shell '"@ + name + "' is not staged and --no-stage was given. Run `psroot stage "@ + name
            + "` first."@,
    )
}

/// Whether a shell has to be refused because staging it was forbidden: it takes
/// `stage_ops` operations, and its cache is not there.
pub fn check_staged(no_stage: bool, stage_ops: usize, cached: bool, name: &str) -> (r: Result<
    (),
    PsrootError,
>)
    ensures
        match r {
            Ok(_) => !(no_stage && stage_ops > 0 && !cached),
            Err(e) => no_stage && stage_ops > 0 && !cached && e@ == not_staged(name@),
        },
{
    if no_stage && stage_ops > 0 && !cached {
        return Err(
            PsrootError::Other(
                concat5(
                    "shell '",
                    name,
                    "' is not staged and --no-stage was given. Run `psroot stage ",
                    name,
                    "` first.",
                ),
            ),
        );
    }
    Ok(())
}

/// How a shell is isolated.
#[derive(Clone, Copy, Debug, PartialEq, Eq, Structural)]
pub struct Isolation {
    pub silo: bool,
    /// A silo was asked for, and the host has none.
    pub fell_back: bool,
}

/// The isolation that a word in lower case asks for.
pub open spec fn isolation_word(lowered: Seq<char>, server_silo: bool) -> Option<Isolation> {
    if lowered == "full"@ || lowered == "silo"@ {
        Some(Isolation { silo: server_silo, fell_back: !server_silo })
    } else if lowered == "standard"@ || lowered == "appcontainer"@ || lowered == "ac"@ {
        Some(Isolation { silo: false, fell_back: false })
    } else if lowered == "auto"@ || lowered.len() == 0 {
        Some(Isolation { silo: server_silo, fell_back: false })
    } else {
        None
    }
}

pub open spec fn isolation_refused(lowered: Seq<char>) -> Failure {
    Failure::Other("Invalid --isolate '"@ + lowered + "': use auto, standard, or full"@)
}

/// The isolation that a word in lower case asks for.
pub fn isolation_of(lowered: &str, server_silo: bool) -> (r: Result<Isolation, PsrootError>)
    ensures
        match r {
            Ok(i) => isolation_word(lowered@, server_silo) == Some(i),
            Err(e) => isolation_word(lowered@, server_silo) is None && e@ == isolation_refused(
                lowered@,
            ),
        },
{
    if same(lowered, "full") || same(lowered, "silo") {
        Ok(Isolation { silo: server_silo, fell_back: !server_silo })
    } else if same(lowered, "standard") || same(lowered, "appcontainer") || same(lowered, "ac") {
        Ok(Isolation { silo: false, fell_back: false })
    } else if same(lowered, "auto") || lowered.is_empty() {
        Ok(Isolation { silo: server_silo, fell_back: false })
    } else {
        Err(
            PsrootError::Other(
                concat3("Invalid --isolate '", lowered, "': use auto, standard, or full"),
            ),
        )
    }
}

/// The isolation that is asked for, in any case.
pub fn choose_isolation(isolate: &str, server_silo: bool) -> (r: Result<Isolation, PsrootError>)
    ensures
        match r {
            Ok(i) => isolation_word(unicode_lower(isolate@), server_silo) == Some(i),
            Err(e) => isolation_word(unicode_lower(isolate@), server_silo) is None && e@
                == isolation_refused(unicode_lower(isolate@)),
        },
{
    let lowered = to_lowercase(isolate);
    isolation_of(lowered.as_str(), server_silo)
}

/// What is told of the isolation, a line each.
pub open spec fn isolation_lines(i: Isolation) -> Seq<Seq<char>> {
    (if i.fell_back {
        seq![
            "⚠ --isolate full requested but Server Silo not available (need admin + Win10 1809+)"@,
            "  Falling back to AppContainer isolation."@,
        ]
    } else {
        seq![]
    }) + (if i.silo {
        seq![
            "Isolation  : Server Silo (Docker-like virtual filesystem)"@,
            "             C: = rootfs only, P: = shell cache"@,
        ]
    } else {
        seq!["Isolation  : AppContainer (access restricted, host FS visible)"@]
    })
}

/// What is told of the isolation, a line each.
pub fn show_isolation(i: Isolation) -> (v: Vec<String>)
    ensures
        texts(v@) == isolation_lines(i),
{
    let mut v: Vec<String> = Vec::new();
    if i.fell_back {
        v.push(
            "⚠ --isolate full requested but Server Silo not available (need admin + Win10 1809+)".to_owned(),
        );
        v.push("  Falling back to AppContainer isolation.".to_owned());
    }
    if i.silo {
        v.push("Isolation  : Server Silo (Docker-like virtual filesystem)".to_owned());
        v.push("             C: = rootfs only, P: = shell cache".to_owned());
    } else {
        v.push("Isolation  : AppContainer (access restricted, host FS visible)".to_owned());
    }
    assert(texts(v@) =~= isolation_lines(i));
    v
}

/// A shell gets a silo only on a host that has silos, and without being asked
/// gets one exactly there.
pub proof fn law_silo_needs_host(lowered: Seq<char>, server_silo: bool)
    ensures
        match isolation_word(lowered, server_silo) {
            Some(i) => i.silo ==> server_silo,
            None => true,
        },
        isolation_word("auto"@, server_silo) == Some(
            Isolation { silo: server_silo, fell_back: false },
        ),
{
    reveal_strlit("auto");
    reveal_strlit("full");
    reveal_strlit("silo");
    reveal_strlit("standard");
    reveal_strlit("appcontainer");
    reveal_strlit("ac");
    assert("auto"@[0] == 'a' && "full"@[0] == 'f' && "silo"@[0] == 's' && "standard"@[0] == 's');
    assert("appcontainer"@.len() == 12 && "ac"@.len() == 2 && "auto"@.len() == 4);
}

/// The directory of the cached shells: the configured one, or one in the user's
/// directory.
pub open spec fn cache_root(configured: Option<Seq<char>>, profile: Option<Seq<char>>) -> Seq<char> {
    match configured {
        Some(c) => c,
        None => joined_path(
            joined_path(
                joined_path(
                    match profile {
                        Some(p) => p,
                        None => "C:\\Users\\Default"@,
                    },
                    ".psroot"@,
                ),
                "cache"@,
            ),
            "shells"@,
        ),
    }
}

/// The directory of the cached shells.
pub fn cache_root_dir(configured: Option<String>, profile: Option<String>) -> (s: String)
    ensures
        s@ == cache_root(
            crate::container::config::text_of(configured),
            crate::container::config::text_of(profile),
        ),
{
    match configured {
        Some(c) => c,
        None => {
            let home = match profile {
                Some(p) => p,
                None => "C:\\Users\\Default".to_owned(),
            };
            let a = join_path(home.as_str(), ".psroot");
            let b = join_path(a.as_str(), "cache");
            join_path(b.as_str(), "shells")
        },
    }
}

/// A shell is asked for by its name, and is the command processor where none is
/// named; its arguments and variables are those that were given, in their order.
pub proof fn law_shell_is_named(a: ShellArgs, list: Seq<Seq<char>>, last: Seq<char>)
    ensures
        a.shell matches Some(n) ==> shell_name(a) == n@,
        a.shell is None ==> shell_name(a) == "cmd"@,
        variable(last) matches Some(p) ==> listed_variables(list.push(last)) == listed_variables(
            list,
        ).push(p),
        variable(last) is None ==> listed_variables(list.push(last)) == listed_variables(list),
{
    assert(list.push(last).drop_last() =~= list);
}

/// The container of a shell has what was asked for and what every container has.
pub proof fn law_shell_container(
    a: ShellArgs,
    o: AllowanceModel,
    command: Seq<char>,
    env: Seq<(Seq<char>, Seq<char>)>,
    m: Seq<Mount>,
)
    ensures
        ({
            let c = shell_model(a, o, command, env, m);
            &&& c.command == seq![command]
            &&& c.tools == texts(a.tool@)
            &&& c.shares == texts(a.share@)
            &&& c.network == o.network
            &&& c.ports == o.ports
            &&& c.volumes == m
            &&& c.env == env
            &&& c.resources.memory == o.memory
            &&& c.resources.cpu_rate == a.cpu
            &&& c.resources.max_processes == a.max_procs
            &&& c.working_directory == "C:\\"@
            &&& !c.silo
            &&& c.name is None
            &&& c.rootfs_path.len() == 0
        }),
{
}

/// A shell is refused where two ways of naming it are given, and else by the
/// first of network, memory and ports that cannot be read.
pub proof fn law_shell_is_allowed(a: ShellArgs, network: Seq<char>, memory: Seq<char>)
    ensures
        a.shell is Some && a.shell_binary is Some ==> allowed(a, network, memory) == Err::<
            AllowanceModel,
            Failure,
        >(Failure::Other("--shell and --shell-binary are mutually exclusive"@)),
        allowed(a, network, memory) matches Ok(o) ==> network_read(network) == Ok::<
            NetworkAccess,
            Failure,
        >(o.network) && size_word(memory) is Some && (size_word(memory)->0 <= u64::MAX ==> o.memory
            == size_word(memory)->0) && ports(texts(a.publish@)) == Ok::<Seq<Publish>, Failure>(
            o.ports,
        ),
        !(a.shell is Some && a.shell_binary is Some) && network_read(network) is Ok && size_word(
            memory,
        ) is None ==> allowed(a, network, memory) == Err::<AllowanceModel, Failure>(
            Failure::Other("Invalid memory value"@),
        ),
{
}

/// Only for `winget`, and only where it is there and not mounted yet, the user's
/// own profile is mounted, in its own place, so that it can be written to.
pub proof fn law_home_is_for_winget(
    m: Seq<Mount>,
    tools: Seq<Seq<char>>,
    user: Seq<char>,
    exists_home: bool,
)
    ensures
        with_home(m, tools, None, exists_home) == m,
        with_home(m, tools, Some(user), exists_home) != m <==> tools.contains("winget"@)
            && user.len() > 0 && exists_home && !(exists|i: int|
            0 <= i < m.len() && (#[trigger] m[i]).host_path == "C:\\Users\\"@ + user),
        with_home(m, tools, Some(user), exists_home) != m ==> with_home(
            m,
            tools,
            Some(user),
            exists_home,
        ) == m.push(
            Mount {
                host_path: "C:\\Users\\"@ + user,
                container_path: "C:\\Users\\"@ + user,
                read_only: false,
            },
        ),
{
    let w = with_home(m, tools, Some(user), exists_home);
    if w.len() != m.len() {
        assert(w != m);
    }
}

/// The words for the isolation of a shell, and no others. A silo is used where
/// it is asked for or left open, and the host has silos.
pub proof fn law_isolation_words(w: Seq<char>, host: bool)
    ensures
        isolation_word(w, host) is Some <==> w == "full"@ || w == "silo"@ || w == "standard"@ || w
            == "appcontainer"@ || w == "ac"@ || w == "auto"@ || w.len() == 0,
        w == "full"@ || w == "silo"@ ==> isolation_word(w, host) == Some(
            Isolation { silo: host, fell_back: !host },
        ),
        w == "standard"@ || w == "appcontainer"@ || w == "ac"@ ==> isolation_word(w, host) == Some(
            Isolation { silo: false, fell_back: false },
        ),
        w == "auto"@ || w.len() == 0 ==> isolation_word(w, host) == Some(
            Isolation { silo: host, fell_back: false },
        ),
        isolation_refused(w) == Failure::Other(
            "Invalid --isolate '"@ + w + "': use auto, standard, or full"@,
        ),
{
    reveal_strlit("auto");
    reveal_strlit("full");
    reveal_strlit("silo");
    reveal_strlit("standard");
    reveal_strlit("appcontainer");
    reveal_strlit("ac");
    assert("auto"@.len() == 4 && "full"@.len() == 4 && "silo"@.len() == 4 && "ac"@.len() == 2);
    assert("standard"@.len() == 8 && "appcontainer"@.len() == 12);
    assert("auto"@[0] != "full"@[0] && "auto"@[0] != "silo"@[0]);
}

/// Cached shells are kept in the configured directory, or else below the user's
/// profile.
pub proof fn law_cache_directory(
    configured: Seq<char>,
    profile: Seq<char>,
    other: Option<Seq<char>>,
)
    ensures
        cache_root(Some(configured), other) == configured,
        cache_root(None, Some(profile)) == inside(profile) + ".psroot\\cache\\shells"@,
        cache_root(None, None) == "C:\\Users\\Default\\.psroot\\cache\\shells"@,
{
    lemma_cache_below(profile);
    lemma_cache_below("C:\\Users\\Default"@);
    reveal_strlit("C:\\Users\\Default");
    reveal_strlit(".psroot\\cache\\shells");
    reveal_strlit("C:\\Users\\Default\\.psroot\\cache\\shells");
    assert(inside("C:\\Users\\Default"@) + ".psroot\\cache\\shells"@
        =~= "C:\\Users\\Default\\.psroot\\cache\\shells"@);
}

proof fn lemma_cache_below(profile: Seq<char>)
    ensures
        joined_path(joined_path(joined_path(profile, ".psroot"@), "cache"@), "shells"@) == inside(
            profile,
        ) + ".psroot\\cache\\shells"@,
{
    reveal_strlit(".psroot");
    reveal_strlit("cache");
    reveal_strlit("shells");
    reveal_strlit(".psroot\\cache\\shells");
    let a = joined_path(profile, ".psroot"@);
    let b = joined_path(a, "cache"@);
    law_join_goes_below(profile, ".psroot"@);
    law_join_goes_below(a, "cache"@);
    law_join_goes_below(b, "shells"@);
    assert(a.last() == 't');
    assert(b.last() == 'e');
    assert(joined_path(b, "shells"@) =~= inside(profile) + ".psroot\\cache\\shells"@);
}

/// Without the bind filter each mount stands below the root, under its path
/// without the drive, with its directory of the host behind it.
pub proof fn law_stand_ins(root: Seq<char>, m: Seq<Mount>, i: int)
    requires
        0 <= i < m.len(),
    ensures
        stand_ins(root, m).len() == m.len(),
        stand_ins(root, m)[i].0 == joined_path(root, below_drive(trim(m[i].container_path))),
        stand_ins(root, m)[i].1 == m[i].host_path,
{
}

/// A shell that is not staged is refused with its name, and the user is told
/// what its isolation is.
pub proof fn law_shell_messages(name: Seq<char>, version: Seq<char>, i: Isolation)
    ensures
        not_staged(name) == Failure::Other(
            "shell '"@ + name + "' is not staged and --no-stage was given. Run `psroot stage "@
                + name + "` first."@,
        ),
        version_refused(version) == Failure::Other(
            "Invalid --shell-version '"@ + version + "': use e.g. '>=7.4' or '~7.5'"@,
        ),
        i.silo ==> isolation_lines(i).contains(
            "Isolation  : Server Silo (Docker-like virtual filesystem)"@,
        ),
        i.silo ==> isolation_lines(i).last() == "             C: = rootfs only, P: = shell cache"@,
        !i.silo ==> isolation_lines(i).last()
            == "Isolation  : AppContainer (access restricted, host FS visible)"@,
        i.fell_back ==> isolation_lines(i)[0]
            == "⚠ --isolate full requested but Server Silo not available (need admin + Win10 1809+)"@
            && isolation_lines(i)[1] == "  Falling back to AppContainer isolation."@,
        !i.fell_back ==> isolation_lines(i).len() <= 2,
{
    let l = isolation_lines(i);
    if i.silo {
        assert(l[l.len() - 2] == "Isolation  : Server Silo (Docker-like virtual filesystem)"@);
    }
}

} // verus!
