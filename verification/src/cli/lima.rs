//! The command line on macOS, where commands are handed to a virtual machine
//! and published ports are reached through tunnels.

use crate::container::config::text_of;
use crate::text::{
    chars_of, concat2, concat3, concat5, decimal, decimal_text, find, find_char, is_digit,
    parse_number, parsed, same, skip, split, split_char, starts_with, take, texts, trim,
    trim_end_of, trimmed, trimmed_end_of,
};
use vstd::prelude::*;

verus! {

/// The name of the virtual machine where none is configured.
pub const VM_NAME_DEFAULT: &'static str = "psroot";

/// Where the program is in the virtual machine.
pub const VM_PSROOT_BIN: &'static str = "/usr/local/bin/psroot";

/// The name of the virtual machine.
pub fn vm_name(configured: Option<String>) -> (s: String)
    ensures
        s@ == machine(text_of(configured)),
{
    match configured {
        Some(n) => n,
        None => VM_NAME_DEFAULT.to_owned(),
    }
}

/// The user's directory.
pub fn home(configured: Option<String>) -> (s: String)
    ensures
        s@ == match configured {
            Some(h) => h@,
            None => "/tmp"@,
        },
{
    match configured {
        Some(h) => h,
        None => "/tmp".to_owned(),
    }
}

/// Two parts of a path.
pub open spec fn below(dir: Seq<char>, name: Seq<char>) -> Seq<char> {
    if name.len() > 0 && name[0] == '/' {
        name
    } else if dir.len() == 0 || dir.last() == '/' {
        dir + name
    } else {
        dir + "/"@ + name
    }
}

fn join_below(dir: &str, name: &str) -> (s: String)
    ensures
        s@ == below(dir@, name@),
{
    let d = chars_of(dir);
    let n = chars_of(name);
    if n.len() > 0 && n[0] == '/' {
        name.to_owned()
    } else if d.len() == 0 || d[d.len() - 1] == '/' {
        concat2(dir, name)
    } else {
        concat3(dir, "/", name)
    }
}

/// The file that tells how the virtual machine is reached.
pub open spec fn ssh_file(home: Seq<char>, vm: Seq<char>) -> Seq<char> {
    below(below(below(home, ".lima"@), vm), "ssh.config"@)
}

/// The file that tells how the virtual machine is reached.
pub fn ssh_config(home: &str, vm: &str) -> (s: String)
    ensures
        s@ == ssh_file(home@, vm@),
{
    let a = join_below(home, ".lima");
    let b = join_below(a.as_str(), vm);
    join_below(b.as_str(), "ssh.config")
}

/// The status of the virtual machine, from what was printed of it; nothing
/// where there is none.
pub fn vm_status(success: bool, output: &str) -> (r: Option<String>)
    ensures
        match r {
            Some(s) => success && s@ == trim(output@) && s@.len() > 0,
            None => !success || trim(output@).len() == 0,
        },
{
    if !success {
        return None;
    }
    let s = trimmed(output);
    if s.as_str().is_empty() {
        None
    } else {
        Some(s)
    }
}

/// What has to be done before the virtual machine can be used.
#[derive(Clone, Copy, Debug, PartialEq, Eq, Structural)]
pub enum VmStep {
    /// The program that runs it is missing.
    Missing,
    Create,
    Start,
    Ready,
}

/// What has to be done next before the virtual machine can be used. It is made
/// where there is none, and then started where it does not run.
pub fn ensure_vm(available: bool, status: Option<&str>) -> (s: VmStep)
    ensures
        s == vm_step(
            available,
            match status {
                Some(t) => Some(t@),
                None => None,
            },
        ),
{
    if !available {
        return VmStep::Missing;
    }
    match status {
        None => VmStep::Create,
        Some(t) => if same(t, "Running") {
            VmStep::Ready
        } else {
            VmStep::Start
        },
    }
}

/// What follows a prefix.
pub open spec fn behind(s: Seq<char>, prefix: Seq<char>) -> Option<Seq<char>> {
    if prefix.is_prefix_of(s) {
        Some(s.skip(prefix.len() as int))
    } else {
        None
    }
}

fn behind_prefix(s: &str, prefix: &str) -> (r: Option<String>)
    ensures
        match r {
            Some(t) => behind(s@, prefix@) == Some(t@),
            None => behind(s@, prefix@) is None,
        },
{
    if starts_with(s, prefix) {
        let n: usize = chars_of(prefix).len();
        Some(skip(s, n))
    } else {
        None
    }
}

/// The text that an argument gives for a published port, by itself or behind
/// the argument before it.
pub open spec fn publish_value(prev: Option<Seq<char>>, a: Seq<char>) -> Option<Seq<char>> {
    if prev == Some("--publish"@) || prev == Some("-p"@) {
        Some(a)
    } else if behind(a, "--publish="@) is Some {
        behind(a, "--publish="@)
    } else {
        behind(a, "-p="@)
    }
}

/// The two ports of `HOST:CONTAINER`.
pub open spec fn port_pair(s: Seq<char>) -> Option<(u16, u16)> {
    let i = find(s, ':');
    if i < s.len() {
        match (parsed(s.take(i), u16::MAX as nat), parsed(s.skip(i + 1), u16::MAX as nat)) {
            (Some(h), Some(c)) => Some((h as u16, c as u16)),
            _ => None,
        }
    } else {
        None
    }
}

fn parse_pair(s: &str) -> (r: Option<(u16, u16)>)
    ensures
        r == port_pair(s@),
{
    let v = chars_of(s);
    match find_char(v.as_slice(), ':') {
        Some(i) => {
            let h = take(s, i);
            let c = skip(s, i + 1);
            match (
                parse_number(h.as_str(), u16::MAX as u64),
                parse_number(c.as_str(), u16::MAX as u64),
            ) {
                (Some(a), Some(b)) => Some((a as u16, b as u16)),
                _ => None,
            }
        },
        None => None,
    }
}

/// The argument before the `i`th.
pub open spec fn before(argv: Seq<Seq<char>>, i: int) -> Option<Seq<char>> {
    if i == 0 {
        None
    } else {
        Some(argv[i - 1])
    }
}

/// The ports that arguments publish, and the name that they give.
pub open spec fn run_flags(argv: Seq<Seq<char>>) -> (Seq<(u16, u16)>, Option<Seq<char>>)
    decreases argv.len(),
{
    if argv.len() == 0 {
        (seq![], None)
    } else {
        let (pairs, name) = run_flags(argv.drop_last());
        let a = argv.last();
        let prev = before(argv, argv.len() - 1);
        let p = match publish_value(prev, a) {
            Some(v) => port_pair(v),
            None => None,
        };
        (
            match p {
                Some(x) => pairs.push(x),
                None => pairs,
            },
            if prev == Some("--name"@) || prev == Some("-n"@) {
                Some(a)
            } else {
                match behind(a, "--name="@) {
                    Some(n) => Some(n),
                    None => name,
                }
            },
        )
    }
}

/// The ports that arguments publish, and the name that they give.
pub fn extract_run_flags(argv: &Vec<String>) -> (r: (Vec<(u16, u16)>, Option<String>))
    ensures
        (r.0@, text_of(r.1)) == run_flags(texts(argv@)),
{
    let ghost all = texts(argv@);
    let mut pairs: Vec<(u16, u16)> = Vec::new();
    let mut name: Option<String> = None;
    let mut i: usize = 0;
    assert(all.take(0) =~= Seq::<Seq<char>>::empty());
    while i < argv.len()
        invariant
            i <= argv.len(),
            all == texts(argv@),
            (pairs@, text_of(name)) == run_flags(all.take(i as int)),
        decreases argv.len() - i,
    {
        let ghost t = all.take(i + 1);
        proof {
            assert(t.drop_last() =~= all.take(i as int));
            assert(t.last() == argv[i as int]@);
            if i > 0 {
                assert(t[i - 1] == argv[i - 1]@);
            }
        }
        let a = argv[i].as_str();
        let (after_publish, after_name) = if i > 0 {
            let prev = argv[i - 1].as_str();
            (
                same(prev, "--publish") || same(prev, "-p"),
                same(prev, "--name") || same(prev, "-n"),
            )
        } else {
            (false, false)
        };
        let value = if after_publish {
            Some(a.to_owned())
        } else {
            match behind_prefix(a, "--publish=") {
                Some(v) => Some(v),
                None => behind_prefix(a, "-p="),
            }
        };
        assert(text_of(value) == publish_value(before(t, i as int), a@));
        if let Some(v) = value {
            if let Some(p) = parse_pair(v.as_str()) {
                pairs.push(p);
            }
        }
        if after_name {
            name = Some(a.to_owned());
        } else {
            if let Some(n) = behind_prefix(a, "--name=") {
                name = Some(n);
            }
        }
        i = i + 1;
    }
    assert(all.take(all.len() as int) =~= all);
    (pairs, name)
}

/// The arguments that run a command of the program in the virtual machine.
pub open spec fn vm_words(vm: Seq<char>, argv: Seq<Seq<char>>) -> Seq<Seq<char>> {
    seq!["shell"@, "--workdir"@, "/"@, vm, "sudo"@, VM_PSROOT_BIN@] + argv
}

/// The arguments that run a command of the program in the virtual machine.
pub fn vm_exec(vm: &str, argv: &Vec<String>) -> (v: Vec<String>)
    ensures
        texts(v@) == vm_words(vm@, texts(argv@)),
{
    let mut v = vec![
        "shell".to_owned(),
        "--workdir".to_owned(),
        "/".to_owned(),
        vm.to_owned(),
        "sudo".to_owned(),
        VM_PSROOT_BIN.to_owned(),
    ];
    let ghost head = texts(v@);
    let ghost all = texts(argv@);
    let mut i: usize = 0;
    assert(head + all.take(0) =~= head);
    while i < argv.len()
        invariant
            i <= argv.len(),
            all == texts(argv@),
            texts(v@) == head + all.take(i as int),
        decreases argv.len() - i,
    {
        let ghost sofar = v@;
        let s = argv[i].clone();
        v.push(s);
        proof {
            assert(texts(v@) =~= texts(sofar).push(s@));
            assert((head + all.take(i as int)).push(all[i as int]) =~= head + all.take(i + 1));
        }
        i = i + 1;
    }
    proof {
        assert(all.take(all.len() as int) =~= all);
        assert(head =~= seq!["shell"@, "--workdir"@, "/"@, vm@, "sudo"@, VM_PSROOT_BIN@]);
    }
    v
}

/// The address in the last line that begins with a digit.
pub open spec fn last_address(lines: Seq<Seq<char>>) -> Option<Seq<char>>
    decreases lines.len(),
{
    if lines.len() == 0 {
        None
    } else {
        let l = trim_end_of(trim(lines.last()), '\r');
        if l.len() > 0 && is_digit(l[0]) {
            Some(l)
        } else {
            last_address(lines.drop_last())
        }
    }
}

/// The script that prints the addresses of the containers with this name.
pub fn address_script(name: &str) -> (s: String)
    ensures
        s@ == "for f in $(find /root/.local/share/psroot -name container.json 2>/dev/null); do\n            python3 -c \"import sys,json; d=json.load(open(sys.argv[1])); ip=d.get('container_ip'); print(ip) if d.get('name')=='"@
            + name@ + "' and ip else None\" \"$f\" 2>/dev/null\n          done"@,
{
    concat3(
        "for f in $(find /root/.local/share/psroot -name container.json 2>/dev/null); do\n            python3 -c \"import sys,json; d=json.load(open(sys.argv[1])); ip=d.get('container_ip'); print(ip) if d.get('name')=='",
        name,
        "' and ip else None\" \"$f\" 2>/dev/null\n          done",
    )
}

/// The address of a container, from what was printed of it.
pub fn lookup_container_ip(output: &str) -> (r: Option<String>)
    ensures
        match r {
            Some(s) => last_address(split(output@, '\n')) == Some(s@),
            None => last_address(split(output@, '\n')) is None,
        },
{
    let lines = split_char(output, '\n');
    let ghost all = texts(lines@);
    let mut n: usize = lines.len();
    assert(all.take(n as int) =~= all);
    while n > 0
        invariant
            n <= lines.len(),
            all == texts(lines@),
            all == split(output@, '\n'),
            last_address(all) == last_address(all.take(n as int)),
        decreases n,
    {
        let t = trimmed(lines[n - 1].as_str());
        let l = trimmed_end_of(t.as_str(), '\r');
        let c = chars_of(l.as_str());
        proof {
            let p = all.take(n as int);
            assert(p.last() == lines[n - 1]@);
            assert(p.drop_last() =~= all.take(n - 1));
        }
        if c.len() > 0 && c[0] >= '0' && c[0] <= '9' {
            return Some(l);
        }
        n = n - 1;
    }
    assert(all.take(0) =~= Seq::<Seq<char>>::empty());
    None
}

/// What a tunnel forwards.
pub open spec fn forward(host_port: nat, ip: Seq<char>, port: nat) -> Seq<char> {
    decimal(host_port) + ":"@ + ip + ":"@ + decimal(port)
}

/// The arguments that open a tunnel to a port of a container.
pub fn open_tunnel(config: &str, vm: &str, host_port: u16, ip: &str, port: u16) -> (v: Vec<String>)
    ensures
        texts(v@) == tunnel_words(config@, vm@, host_port as nat, ip@, port as nat),
{
    let h = decimal_text(host_port as u128);
    let p = decimal_text(port as u128);
    let v = vec![
        "-F".to_owned(),
        config.to_owned(),
        "-o".to_owned(),
        "ExitOnForwardFailure=yes".to_owned(),
        "-fN".to_owned(),
        "-L".to_owned(),
        concat5(h.as_str(), ":", ip, ":", p.as_str()),
        concat2("lima-", vm),
    ];
    assert(texts(v@) =~= seq![
        "-F"@,
        config@,
        "-o"@,
        "ExitOnForwardFailure=yes"@,
        "-fN"@,
        "-L"@,
        forward(host_port as nat, ip@, port as nat),
        "lima-"@ + vm@,
    ]);
    v
}

/// The pattern of the tunnels to a container.
pub fn tunnel_pattern(ip: &str) -> (s: String)
    ensures
        s@ == "ssh -F .*-L .*:"@ + ip@ + ":"@,
{
    concat3("ssh -F .*-L .*:", ip, ":")
}

/// How a command is handed to the virtual machine.
pub enum Dispatch {
    /// As it is, waiting for it.
    Foreground,
    /// In the background under this name, with tunnels to these ports. Where
    /// the arguments gave no name they get it added.
    Tunnels { pairs: Vec<(u16, u16)>, name: String, argv: Vec<String> },
}

/// Whether a command may publish ports.
pub open spec fn may_publish(argv: Seq<Seq<char>>) -> bool {
    argv.len() > 0 && (argv[0] == "run"@ || argv[0] == "create"@ || argv[0] == "start"@)
}

/// How a command is handed to the virtual machine; `seconds` names a container
/// that has no name.
pub fn dispatch(argv: Vec<String>, seconds: u64) -> (d: Dispatch)
    ensures
        ({
            let all = texts(argv@);
            let (pairs, name) = run_flags(all);
            match d {
                Dispatch::Foreground => !may_publish(all) || pairs.len() == 0,
                Dispatch::Tunnels { pairs: p, name: n, argv: a } => {
                    &&& may_publish(all) && pairs.len() > 0
                    &&& p@ == pairs
                    &&& n@ == match name {
                        Some(x) => x,
                        None => "psroot-"@ + decimal(seconds as nat),
                    }
                    &&& texts(a@) == if name is Some {
                        all
                    } else {
                        all + seq!["--name"@, n@]
                    }
                },
            }
        }),
{
    let ghost all = texts(argv@);
    let publishes = argv.len() > 0 && (same(argv[0].as_str(), "run") || same(
        argv[0].as_str(),
        "create",
    ) || same(argv[0].as_str(), "start"));
    proof {
        if argv@.len() > 0 {
            assert(all[0] == argv@[0]@);
        }
    }
    if !publishes {
        return Dispatch::Foreground;
    }
    let (pairs, name) = extract_run_flags(&argv);
    if pairs.len() == 0 {
        return Dispatch::Foreground;
    }
    match name {
        Some(n) => Dispatch::Tunnels { pairs, name: n, argv },
        None => {
            let d = decimal_text(seconds as u128);
            let n = concat2("psroot-", d.as_str());
            let mut argv = argv;
            argv.push("--name".to_owned());
            argv.push(n.clone());
            assert(texts(argv@) =~= all + seq!["--name"@, n@]);
            Dispatch::Tunnels { pairs, name: n, argv }
        },
    }
}

/// What is done while the address of a container is waited for.
#[derive(Clone, Copy, Debug, PartialEq, Eq, Structural)]
pub enum WaitStep {
    /// The address is there.
    Connect,
    /// The command has ended; so does the waiting, with its exit code.
    Exit(i32),
    Wait,
    /// The time is up; the command goes on without tunnels.
    GiveUp,
}

/// The seconds for which the address of a container is waited for.
pub const ADDRESS_SECONDS: u64 = 30;

/// What is done after `elapsed` seconds of waiting: `exit` is the exit code of
/// the command where it has ended, inside of which nothing stands for an end by
/// a signal.
pub fn wait_step(found: bool, exit: Option<Option<i32>>, elapsed: u64) -> (s: WaitStep)
    ensures
        s == while_waiting(found, exit, elapsed),
{
    if found {
        return WaitStep::Connect;
    }
    match exit {
        Some(c) => match c {
            Some(n) => WaitStep::Exit(n),
            None => WaitStep::Exit(1),
        },
        None => if elapsed >= ADDRESS_SECONDS {
            WaitStep::GiveUp
        } else {
            WaitStep::Wait
        },
    }
}

/// A port that is published by an argument of its own gets a tunnel, whatever
/// came before, unless that was an option that takes this argument as its own.
pub proof fn law_published_port_gets_tunnel(argv: Seq<Seq<char>>, host: u16, port: u16)
    requires
        argv.len() > 0 ==> argv.last() != "--publish"@ && argv.last() != "-p"@,
    ensures
        ({
            let a = "--publish="@ + (decimal(host as nat) + ":"@ + decimal(port as nat));
            run_flags(argv.push(a)).0 == run_flags(argv).0.push((host, port))
        }),
{
    let h = decimal(host as nat);
    let c = decimal(port as nat);
    let v = h + ":"@ + c;
    let a = "--publish="@ + v;
    let all = argv.push(a);
    reveal_strlit(":");
    crate::text::law_decimal_round_trip(host as nat);
    crate::text::law_decimal_round_trip(port as nat);
    assert forall|j: int| 0 <= j < h.len() implies v[j] != ':' by {
        assert(v[j] == h[j]);
        assert(crate::text::is_digit(h[j]));
    }
    assert(v[h.len() as int] == ':');
    crate::text::lemma_find_is(v, ':', h.len() as int);
    assert(v.take(h.len() as int) =~= h);
    assert(v.skip(h.len() as int + 1) =~= c);
    assert(a.subrange(0, "--publish="@.len() as int) =~= "--publish="@);
    assert("--publish="@.is_prefix_of(a));
    assert(a.skip("--publish="@.len() as int) =~= v);
    assert(all.drop_last() =~= argv);
    assert(all.last() == a);
}

/// The name of the machine that containers run in.
pub open spec fn machine(configured: Option<Seq<char>>) -> Seq<char> {
    match configured {
        Some(n) => n,
        None => VM_NAME_DEFAULT@,
    }
}

/// What has to be done before the machine can be used.
pub open spec fn vm_step(available: bool, status: Option<Seq<char>>) -> VmStep {
    if !available {
        VmStep::Missing
    } else {
        match status {
            None => VmStep::Create,
            Some(t) => if t == "Running"@ {
                VmStep::Ready
            } else {
                VmStep::Start
            },
        }
    }
}

/// What is done while the address of a container is waited for.
pub open spec fn while_waiting(found: bool, exit: Option<Option<i32>>, elapsed: u64) -> WaitStep {
    if found {
        WaitStep::Connect
    } else {
        match exit {
            Some(c) => WaitStep::Exit(
                match c {
                    Some(n) => n,
                    None => 1,
                },
            ),
            None => if elapsed >= ADDRESS_SECONDS {
                WaitStep::GiveUp
            } else {
                WaitStep::Wait
            },
        }
    }
}

/// The words that open a tunnel.
pub open spec fn tunnel_words(
    config: Seq<char>,
    vm: Seq<char>,
    host_port: nat,
    ip: Seq<char>,
    port: nat,
) -> Seq<Seq<char>> {
    seq![
        "-F"@,
        config,
        "-o"@,
        "ExitOnForwardFailure=yes"@,
        "-fN"@,
        "-L"@,
        forward(host_port, ip, port),
        "lima-"@ + vm,
    ]
}

/// A machine that is there but does not run is started, one that is missing is
/// made, and one that runs is used as it is; it goes by the configured name.
pub proof fn law_machine(available: bool, status: Seq<char>, name: Seq<char>)
    ensures
        vm_step(false, Some(status)) == VmStep::Missing && vm_step(false, None) == VmStep::Missing,
        vm_step(true, None) == VmStep::Create,
        status == "Running"@ ==> vm_step(true, Some(status)) == VmStep::Ready,
        status != "Running"@ ==> vm_step(true, Some(status)) == VmStep::Start,
        machine(Some(name)) == name,
        machine(None) == "psroot"@,
{
}

/// Once the address is there it is used; a command that ended takes its exit
/// code with it, and 1 where it has none; and the waiting ends after half a
/// minute.
pub proof fn law_waiting_for_address(exit: Option<Option<i32>>, n: i32, elapsed: u64)
    ensures
        while_waiting(true, exit, elapsed) == WaitStep::Connect,
        while_waiting(false, Some(Some(n)), elapsed) == WaitStep::Exit(n),
        while_waiting(false, Some(None), elapsed) == WaitStep::Exit(1),
        elapsed < 30 ==> while_waiting(false, None, elapsed) == WaitStep::Wait,
        elapsed >= 30 ==> while_waiting(false, None, elapsed) == WaitStep::GiveUp,
{
}

/// A command runs in the machine as it was given, through the program there, and
/// a tunnel leads from the host's port to the container's, through the machine's
/// own configuration.
pub proof fn law_machine_commands(
    vm: Seq<char>,
    argv: Seq<Seq<char>>,
    home: Seq<char>,
    host: nat,
    ip: Seq<char>,
    port: nat,
    i: int,
)
    ensures
        vm_words(vm, argv).take(6) == seq![
            "shell"@,
            "--workdir"@,
            "/"@,
            vm,
            "sudo"@,
            "/usr/local/bin/psroot"@,
        ],
        vm_words(vm, argv).skip(6) == argv,
        forward(host, ip, port) == decimal(host) + ":"@ + ip + ":"@ + decimal(port),
        tunnel_words(home, vm, host, ip, port)[1] == home,
        tunnel_words(home, vm, host, ip, port)[6] == forward(host, ip, port),
        tunnel_words(home, vm, host, ip, port)[7] == "lima-"@ + vm,
        tunnel_words(home, vm, host, ip, port)[0] == "-F"@ && tunnel_words(
            home,
            vm,
            host,
            ip,
            port,
        )[5] == "-L"@,
        tunnel_words(home, vm, host, ip, port)[2] == "-o"@ && tunnel_words(
            home,
            vm,
            host,
            ip,
            port,
        )[3] == "ExitOnForwardFailure=yes"@ && tunnel_words(home, vm, host, ip, port)[4] == "-fN"@,
        tunnel_words(home, vm, host, ip, port).len() == 8,
{
    assert(vm_words(vm, argv).take(6) =~= seq![
        "shell"@,
        "--workdir"@,
        "/"@,
        vm,
        "sudo"@,
        "/usr/local/bin/psroot"@,
    ]);
    assert(vm_words(vm, argv).skip(6) =~= argv);
}

/// The configuration for reaching the machine lies below the user's directory,
/// under the machine's name.
pub proof fn law_ssh_file(home: Seq<char>, vm: Seq<char>)
    requires
        home.len() > 0,
        home.last() != '/',
        vm.len() > 0,
        vm[0] != '/',
        vm.last() != '/',
    ensures
        ssh_file(home, vm) == home + "/.lima/"@ + vm + "/ssh.config"@,
{
    reveal_strlit("/");
    reveal_strlit(".lima");
    reveal_strlit("/.lima/");
    reveal_strlit("ssh.config");
    reveal_strlit("/ssh.config");
    let a = below(home, ".lima"@);
    let b = below(a, vm);
    assert(a == home + "/"@ + ".lima"@);
    assert(a.last() == 'a');
    assert(b == a + "/"@ + vm);
    assert(b.last() == vm.last());
    assert(ssh_file(home, vm) == b + "/"@ + "ssh.config"@);
    assert(ssh_file(home, vm) =~= home + "/.lima/"@ + vm + "/ssh.config"@);
}

/// Ports are published with `-p` or `--publish`, and a name is given with `-n` or
/// `--name`, before the value or with an equals sign; only what makes or starts a
/// container publishes.
pub proof fn law_run_flags(argv: Seq<Seq<char>>, last: Seq<char>, value: Seq<char>)
    requires
        argv.len() > 0,
    ensures
        argv.last() == "--name"@ || argv.last() == "-n"@ ==> run_flags(argv.push(last)).1 == Some(
            last,
        ),
        argv.last() != "--name"@ && argv.last() != "-n"@ && last == "--name="@ + value
            ==> run_flags(argv.push(last)).1 == Some(value),
        argv.last() == "-p"@ || argv.last() == "--publish"@ ==> (port_pair(last) matches Some(x)
            ==> run_flags(argv.push(last)).0 == run_flags(argv).0.push(x)),
        argv.last() == "-p"@ || argv.last() == "--publish"@ ==> (port_pair(last) is None
            ==> run_flags(argv.push(last)).0 == run_flags(argv).0),
        may_publish(argv) <==> argv[0] == "run"@ || argv[0] == "create"@ || argv[0] == "start"@,
{
    let all = argv.push(last);
    assert(all.drop_last() =~= argv);
    assert(all[all.len() - 2] == argv.last());
    assert(before(all, all.len() - 1) == Some(argv.last()));
    let p = "--name="@;
    assert((p + value).take(p.len() as int) =~= p);
    assert((p + value).skip(p.len() as int) =~= value);
    assert(p.is_prefix_of(p + value));
}

} // verus!
