use psroot::cli::args::{
    build_config, default_config, network_of, parse_bind_spec, parse_binds, parse_memory,
    parse_network_mode, parse_ports, parse_variable, parse_variables, parse_volume, parse_volumes,
    run_command, size_of_word, CreateArgs,
};
use psroot::cli::escape::{
    dirs_host_documents, probe_command, probe_output, probe_planted, probe_target, probes,
    show_probe, test_sandbox_escape, Probe, Remains, Surroundings,
};
use psroot::cli::explain::{
    cmd_shell_info, cmd_shell_list, cmd_stage, explain_legacy, print_explain, ResolvedShell,
    ShellFound, StageOp, StageOutcome,
};
use psroot::cli::gui::{
    cmd_gui, end_line, filter_args, gui_wait, parse_extra_dir, parse_extra_dirs, wait_line,
};
use psroot::cli::lima;
use psroot::cli::publish::parse_publish;
use psroot::cli::quote::{quote_arg_for_cmdline, quote_line};
use psroot::cli::report::{
    cmd_info, cmd_ls, cmd_setup, cmd_stats, print_shell_banner, setup_result, show_ports,
    show_running_ports, tail_bytes,
};
use psroot::cli::sections::{
    judge_run, test_bind_filter, test_job_object, test_network_isolation, JobSeen, ProgramRun,
};
use psroot::cli::shell::{
    allowance, bind_home, cache_root_dir, check_staged, choose_isolation, cmd_shell,
    isolation_of, legacy_junctions, shell_request, show_isolation, ShellArgs, ShellStart,
};
use psroot::cli::unix;
use psroot::cli::verdict::{
    cmd_test, count_all, show_verdict, skip_line, SectionStep, Tally, Verdict, SECTIONS,
};
use psroot::container::config::{NetworkAccess, PsrootError};
use psroot::container::detect::Capabilities;
use psroot::container::job::ContainerStats;
use psroot::container::lifecycle::{ContainerState, ListEntry, PlanAce};
use psroot::container::sandbox::IsolationLevel;
use psroot::container::setup::all_checks;

fn list(parts: &[&str]) -> Vec<String> {
    parts.iter().map(|s| s.to_string()).collect()
}

fn text(e: PsrootError) -> String {
    match e {
        PsrootError::Other(m) => m,
        _ => panic!("another kind of error"),
    }
}

#[test]
fn path_to_path() {
    let v = parse_bind_spec("C:\\proj:D:\\mnt\\proj").unwrap();
    assert_eq!(v.host_path, "C:\\proj");
    assert_eq!(v.container_path, "D:\\mnt\\proj");
    assert!(!v.read_only);
}

#[test]
fn path_to_drive_letter() {
    let v = parse_bind_spec("C:\\Users\\me:M:").unwrap();
    assert_eq!(v.host_path, "C:\\Users\\me");
    assert_eq!(v.container_path, "M:");
}

#[test]
fn ro_suffix() {
    let v = parse_bind_spec("C:\\proj:C:\\proj:ro").unwrap();
    assert!(v.read_only);
    assert_eq!(v.container_path, "C:\\proj");
}

#[test]
fn bad_binds_are_refused() {
    assert_eq!(
        parse_bind_spec("/proj:C:\\x").err().unwrap(),
        "host path must start with a drive letter (got '/proj:C:\\x')"
    );
    assert_eq!(
        parse_bind_spec("C:\\proj").err().unwrap(),
        "cannot find HOST:CONTAINER separator in 'C:\\proj'"
    );
    assert_eq!(parse_bind_spec("C:\\proj:").err().unwrap(), "empty host or container path");
    let v = parse_bind_spec("C:\\proj:/mnt:rw").unwrap();
    assert_eq!((&v.container_path[..], v.read_only), ("/mnt", false));
    assert_eq!(
        text(parse_binds(&list(&["C:\\a:D:", "C:\\b"])).err().unwrap()),
        "--bind 'C:\\b': cannot find HOST:CONTAINER separator in 'C:\\b'"
    );
    assert_eq!(parse_binds(&list(&["C:\\a:D:"])).ok().unwrap().len(), 1);
}

#[test]
fn variables_are_read() {
    assert_eq!(parse_variable("A=b=c"), Some(("A".to_string(), "b=c".to_string())));
    assert_eq!(parse_variable("A"), None);
    assert_eq!(
        parse_variables(&list(&["A=1", "x", "B=2", "A=3"])),
        vec![("B".to_string(), "2".to_string()), ("A".to_string(), "3".to_string())]
    );
}

#[test]
fn network_modes_are_read() {
    assert_eq!(parse_network_mode("NONE").ok(), Some(NetworkAccess::Off));
    assert_eq!(parse_network_mode("").ok(), Some(NetworkAccess::Off));
    assert_eq!(parse_network_mode("Out").ok(), Some(NetworkAccess::Outbound));
    assert_eq!(parse_network_mode("ALL").ok(), Some(NetworkAccess::Full));
    assert_eq!(parse_network_mode("ns").ok(), Some(NetworkAccess::Netstack));
    assert_eq!(network_of("outbound").ok(), Some(NetworkAccess::Outbound));
    assert_eq!(
        text(parse_network_mode("WiFi").err().unwrap()),
        "Invalid network mode 'wifi': use none, outbound, full, or netstack"
    );
}

#[test]
fn sizes_are_read() {
    assert_eq!(parse_memory("1g").ok(), Some(1 << 30));
    assert_eq!(parse_memory("512M").ok(), Some(512 << 20));
    assert_eq!(parse_memory("7k").ok(), Some(7 << 10));
    assert_eq!(parse_memory("123").ok(), Some(123));
    assert_eq!(size_of_word("2K").ok(), Some(2048));
    assert_eq!(text(parse_memory("x").err().unwrap()), "Invalid memory value");
    assert_eq!(text(parse_memory("99999999999999G").err().unwrap()), "Invalid memory value");
}

#[test]
fn volumes_and_ports_are_read() {
    let v = parse_volume("src:/mnt:ro").unwrap();
    assert_eq!((&v.host_path[..], &v.container_path[..], v.read_only), ("src", "/mnt", true));
    assert!(parse_volume("src").is_none());
    let sides = |s: &str| {
        let v = parse_volume(s).unwrap();
        (v.host_path, v.container_path, v.read_only)
    };
    let is = |h: &str, c: &str, r: bool| (h.to_string(), c.to_string(), r);
    assert_eq!(sides("C:\\foo:D:\\bar"), is("C:\\foo", "D:\\bar", false));
    assert_eq!(sides("C:\\foo:D:\\bar:ro"), is("C:\\foo", "D:\\bar", true));
    assert_eq!(sides("C:\\foo:M:"), is("C:\\foo", "M:", false));
    assert_eq!(sides("C:/foo:/mnt:rw"), is("C:/foo", "/mnt", false));
    assert_eq!(sides("C:\\foo:data"), is("C:\\foo", "data", false));
    assert_eq!(sides("src:D:\\bar:ro"), is("src", "D:\\bar", true));
    assert_eq!(sides("a:b:ro"), is("a", "b", true));
    assert!(parse_volume("C:\\foo").is_none());
    assert_eq!(parse_volumes(&list(&["a:b", "c", "d:e"])).len(), 2);
    let p = parse_publish("8080").unwrap();
    assert_eq!((&p.host_bind[..], p.host_port, p.container_port), ("127.0.0.1", 8080, 8080));
    let p = parse_publish("8080:80").unwrap();
    assert_eq!((p.host_port, p.container_port), (8080, 80));
    let p = parse_publish("0.0.0.0:8080:80").unwrap();
    assert_eq!((&p.host_bind[..], p.ephemeral_port), ("0.0.0.0", None));
    assert!(parse_publish("70000").is_err());
    assert!(parse_publish("a:b:c:d").is_err());
    assert_eq!(parse_ports(&list(&["80", "81:82"])).ok().unwrap().len(), 2);
    assert!(text(parse_ports(&list(&["80", "x"])).err().unwrap()).contains("'x'"));
}

fn create_args() -> CreateArgs {
    CreateArgs {
        name: Some("web".to_string()),
        rootfs: "C:\\r".to_string(),
        memory: "1g".to_string(),
        cpu: 5000,
        max_procs: 7,
        silo: true,
        volume: list(&["src:mnt"]),
        env: list(&["A=1"]),
        workdir: "C:\\w".to_string(),
        tool: list(&["node"]),
        network: "full".to_string(),
        publish: list(&["80"]),
    }
}

#[test]
fn configurations_are_built() {
    let c = build_config(create_args(), list(&["cmd.exe"])).ok().unwrap();
    assert_eq!(c.name, Some("web".to_string()));
    assert_eq!((c.resources.memory, c.resources.cpu_rate, c.resources.max_processes), (1 << 30, 5000, 7));
    assert!(c.silo);
    assert_eq!(c.network, NetworkAccess::Full);
    assert_eq!(c.working_directory, "C:\\w");
    assert_eq!((c.ports.len(), c.volumes.len(), c.env.len()), (1, 1, 1));
    let mut bad = create_args();
    bad.network = "x".to_string();
    assert!(build_config(bad, vec![]).is_err());
    let mut bad = create_args();
    bad.memory = "x".to_string();
    assert_eq!(text(build_config(bad, vec![]).err().unwrap()), "Invalid memory value");
    assert_eq!(default_config().command, list(&["cmd.exe"]));
    assert_eq!(run_command(vec![]), list(&["cmd.exe"]));
    assert_eq!(run_command(list(&["a"])), list(&["a"]));
}

#[test]
fn arguments_survive_the_command_line() {
    assert_eq!(quote_arg_for_cmdline("plain"), "plain");
    assert_eq!(quote_arg_for_cmdline(""), "\"\"");
    assert_eq!(quote_arg_for_cmdline("a b"), "\"a b\"");
    assert_eq!(quote_arg_for_cmdline("a\"b"), "\"a\\\"b\"");
    assert_eq!(quote_arg_for_cmdline("a b\\"), "\"a b\\\\\"");
    assert_eq!(quote_arg_for_cmdline("a\\\"b"), "\"a\\\\\\\"b\"");
    assert_eq!(quote_arg_for_cmdline("C:\\x\\"), "C:\\x\\");
    assert_eq!(quote_line("C:\\my sh.exe", &list(&["-c", "a b"])), "\"C:\\my sh.exe\" -c \"a b\"");
}

fn shell_args() -> ShellArgs {
    ShellArgs {
        tool: vec![],
        network: "OUTBOUND".to_string(),
        memory: "512m".to_string(),
        cpu: 10000,
        max_procs: 100,
        publish: vec![],
        shell: None,
        shell_version: None,
        shell_arg: list(&["-x y"]),
        shell_env: list(&["A=1"]),
        explain: false,
        no_stage: false,
        shell_binary: None,
        bind: vec![],
        share: vec![],
        isolate: "auto".to_string(),
    }
}

#[test]
fn shells_are_started() {
    let a = shell_args();
    let o = allowance(&a).ok().unwrap();
    assert_eq!((o.network, o.memory), (NetworkAccess::Outbound, 512 << 20));
    let q = shell_request(&a);
    assert_eq!(q.name, "cmd");
    assert_eq!(q.args, list(&["-x y"]));
    match cmd_shell(&a, true, Ok(()), None, false) {
        Ok(ShellStart::Catalog(q, c)) => {
            assert_eq!(q.name, "cmd");
            assert_eq!(c.network, NetworkAccess::Outbound);
        }
        _ => panic!("no shell of the catalog"),
    }
    let mut b = shell_args();
    b.shell_binary = Some("C:\\my sh.exe".to_string());
    match cmd_shell(&b, true, Ok(()), None, false) {
        Ok(ShellStart::Legacy(l)) => {
            assert_eq!(l.command_line, "\"C:\\my sh.exe\" \"-x y\"");
            assert_eq!(l.config.env, vec![("A".to_string(), "1".to_string())]);
        }
        _ => panic!("no shell by its path"),
    }
    b.shell = Some("pwsh".to_string());
    assert_eq!(
        text(allowance(&b).err().unwrap()),
        "--shell and --shell-binary are mutually exclusive"
    );
    let mut v = shell_args();
    v.shell_version = Some("x".to_string());
    assert_eq!(
        text(cmd_shell(&v, false, Ok(()), None, false).err().unwrap()),
        "Invalid --shell-version 'x': use e.g. '>=7.4' or '~7.5'"
    );
}

#[test]
fn homes_are_bound_for_winget() {
    let mut m = vec![];
    bind_home(&mut m, &list(&["winget"]), Some("me"), true);
    assert_eq!(m.len(), 1);
    assert_eq!(m[0].host_path, "C:\\Users\\me");
    bind_home(&mut m, &list(&["winget"]), Some("me"), true);
    assert_eq!(m.len(), 1);
    let mut n = vec![];
    bind_home(&mut n, &list(&["node"]), Some("me"), true);
    bind_home(&mut n, &list(&["winget"]), Some("me"), false);
    bind_home(&mut n, &list(&["winget"]), None, true);
    assert_eq!(n.len(), 0);
    assert_eq!(
        legacy_junctions("C:\\r", &m, false),
        vec![("C:\\r\\Users\\me".to_string(), "C:\\Users\\me".to_string())]
    );
    assert_eq!(legacy_junctions("C:\\r", &m, true), vec![]);
}

#[test]
fn isolation_is_chosen() {
    let full = choose_isolation("FULL", true).ok().unwrap();
    assert!(full.silo && !full.fell_back);
    let none = choose_isolation("silo", false).ok().unwrap();
    assert!(!none.silo && none.fell_back);
    assert!(!choose_isolation("ac", true).ok().unwrap().silo);
    assert!(choose_isolation("", true).ok().unwrap().silo);
    assert!(isolation_of("auto", true).ok().unwrap().silo);
    assert_eq!(
        text(choose_isolation("Some", true).err().unwrap()),
        "Invalid --isolate 'some': use auto, standard, or full"
    );
    assert_eq!(
        show_isolation(none),
        vec![
            "⚠ --isolate full requested but Server Silo not available (need admin + Win10 1809+)",
            "  Falling back to AppContainer isolation.",
            "Isolation  : AppContainer (access restricted, host FS visible)",
        ]
    );
    assert!(check_staged(true, 1, false, "pwsh").is_err());
    assert!(check_staged(true, 1, true, "pwsh").is_ok());
    assert!(check_staged(true, 0, false, "pwsh").is_ok());
    assert!(check_staged(false, 1, false, "pwsh").is_ok());
    assert_eq!(cache_root_dir(None, Some("C:\\U".to_string())), "C:\\U\\.psroot\\cache\\shells");
    assert_eq!(cache_root_dir(Some("D:\\c".to_string()), None), "D:\\c");
}

#[test]
fn gui_options_are_read() {
    assert_eq!(filter_args(&list(&["--", "a", "--", "b"])), list(&["a", "b"]));
    assert_eq!(
        parse_extra_dir("C:\\data:data"),
        Some(("C:\\data".to_string(), "data".to_string()))
    );
    let (dirs, told) = parse_extra_dirs(&list(&["C:\\a:b", "plain"]));
    assert_eq!(dirs.len(), 1);
    assert_eq!(
        told,
        vec!["Warning: invalid --extra-dir format 'plain', expected HOST_PATH:MOUNT_NAME"]
    );
    let lines = cmd_gui("a.exe", "C:\\a", "C:\\r", true);
    assert_eq!(lines[3], format!("║  Exe:      {:<46}║", "a.exe"));
    assert_eq!(lines[6], format!("║  Network:  {:<46}║", "enabled"));
    assert_ne!(wait_line(gui_wait(0)), wait_line(gui_wait(5)));
    assert_ne!(end_line(gui_wait(5), true, 0), end_line(gui_wait(5), false, 0));
    assert!(end_line(gui_wait(0), false, 7).contains('7'));
}

fn level() -> IsolationLevel {
    IsolationLevel {
        appcontainer: true,
        env_sanitized: true,
        bind_filter: true,
        server_silo: true,
        is_admin: true,
        build_number: 26100,
    }
}

#[test]
fn the_system_is_described() {
    let c = Capabilities::detect(26100, true);
    assert_eq!(
        cmd_info(&c, &level()),
        vec![
            "Psroot System Capabilities",
            "─────────────────────────────────────",
            "Windows Build:    26100",
            "Administrator:    YES",
            "Job Objects:      ✓",
            "Process Shim:     ✓ (inline hook, zero leaks)",
            "Server Silos:     ✓ (build >= 17763)",
            "Bind Filter:      ✓ (build >= 26100)",
            "VTx Required:     NO (pure kernel primitives)",
            "",
            "Isolation Level:  Full (Silo + AppContainer + Env)",
        ]
    );
    let banner = print_shell_banner("abc", "tail", "full", &level());
    assert_eq!(banner[2], format!("║  Container: {:<37}║", "abc"));
    assert_eq!(banner[8], "");
}

#[test]
fn containers_are_shown() {
    let mut p = parse_publish("8080:80").unwrap();
    p.ephemeral_port = Some(5000);
    let ports = vec![p];
    assert_eq!(show_ports(&ports), "127.0.0.1:8080->80");
    assert_eq!(show_ports(&vec![]), "—");
    assert_eq!(
        show_running_ports(&ports),
        vec!["  Port: 127.0.0.1:8080 -> 127.0.0.1:5000 (container port 80)"]
    );
    let all = vec![ListEntry {
        id: "psroot-1".to_string(),
        status: ContainerState::Running,
        created: "now".to_string(),
        ports,
    }];
    let lines = cmd_ls(&all, None);
    assert_eq!(lines.len(), 3);
    assert_eq!(
        lines[2],
        format!("{:<24} {:<10} {:<20} {}", "psroot-1", "running", "now", "127.0.0.1:8080->80")
    );
    assert_eq!(cmd_ls(&all, Some("created")).len(), 2);
    assert_eq!(cmd_ls(&vec![], None), vec!["No containers"]);
    let s = ContainerStats {
        cpu_user_time: 1,
        cpu_kernel_time: 2,
        process_count: 3,
        total_processes: 4,
        memory_usage: 5 << 20,
        io_read_bytes: 6,
        io_write_bytes: 7,
    };
    assert_eq!(cmd_stats("x", &s)[1], "Memory Usage:   5 MB");
    assert_eq!(cmd_stats("x", &s)[4], "Processes:      3/4");
}

#[test]
fn setup_is_reported() {
    let found = all_checks(&vec![("C:\\".to_string(), false)], "C:\\cache", true);
    let lines = cmd_setup("C:\\cache", &found, true);
    assert_eq!(lines[3], "  [MISSING] C:\\");
    assert_eq!(lines[5], "  [OK    ] C:\\cache");
    assert_eq!(
        lines[7],
        "[dry-run] 1 ACE grant(s) would be applied. Re-run without --dry-run."
    );
    assert_eq!(setup_result(&vec![]), vec!["All prerequisites satisfied. Nothing to do."]);
    assert_eq!(
        setup_result(&list(&["C:\\"]))[0],
        "  + granted ALL APPLICATION PACKAGES on C:\\"
    );
    assert_eq!(
        setup_result(&list(&["SeTcbPrivilege (LSA)"]))[0],
        "  + granted SeTcbPrivilege to current user (LSA)"
    );
    assert_eq!(tail_bytes("abcdef", 4), Some("cdef".to_string()));
    assert_eq!(tail_bytes("ab", 4), Some("ab".to_string()));
    assert_eq!(tail_bytes("a\u{e9}", 1), None);
}

#[test]
fn plans_are_explained() {
    let p = ResolvedShell {
        shell_name: "pwsh".to_string(),
        version: "7.5.0".to_string(),
        cache_dir: "C:\\c".to_string(),
        stage: vec![
            StageOp::EnsureDir { dst: "C:\\c".to_string() },
            StageOp::Junction { src: "a".to_string(), dst: "b".to_string() },
        ],
        aces: vec![PlanAce { path: "C:\\c".to_string(), inherit: true }],
        caps: list(&["internetClient"]),
        entry: "C:\\c\\pwsh.exe".to_string(),
        args: list(&["-x"]),
        cwd: "C:\\".to_string(),
        env: vec![("A".to_string(), "1".to_string())],
    };
    let lines = print_explain(&p);
    assert_eq!(lines[0], "Resolved shell: pwsh@7.5.0");
    assert_eq!(lines[3], "Stage operations (2):");
    assert_eq!(lines[4], "  1. ensure_dir   C:\\c");
    assert_eq!(lines[5], "  2. junction     b -> a");
    assert_eq!(lines[8], "  + AC-SID:RX (inherit) on C:\\c");
    assert!(lines.contains(&"  args: [\"-x\"]".to_string()));
    let mut a = shell_args();
    a.bind = list(&["C:\\a:D:"]);
    let legacy = explain_legacy("sh.exe", &a, "sh.exe -x", "C:\\r");
    assert_eq!(legacy[2], "  args      : [\"-x y\"]");
    assert_eq!(legacy[6], "  binds     : [\"C:\\\\a:D:\"]");
    let o = StageOutcome {
        ops_run: 3,
        ops_skipped: 1,
        cache_hit: true,
        aces: 2,
        cache_dir: "C:\\c".to_string(),
    };
    assert_eq!(cmd_stage("pwsh", "7", "C:\\c", &o)[2], "  ops skipped : 1 (cache hit: true)");
    let shells = cmd_shell_list(&vec![("cmd".to_string(), "".to_string())]);
    assert_eq!(shells[2], format!("{:<14} {}", "cmd", "cmd"));
    let info = cmd_shell_info("cmd", "", &list(&["a", "b"]), 2, &ShellFound::Missing("no".to_string()));
    assert_eq!(
        info,
        vec![
            "Catalog entry : cmd (—)",
            "Aliases       : a, b",
            "Probe rules   : 2",
            "Status        : NOT INSTALLED (no)",
        ]
    );
}

#[test]
fn findings_are_counted() {
    let good = Verdict { passed: true, message: "(fine)".to_string() };
    let bad = Verdict { passed: false, message: "(bad)".to_string() };
    let mut t = Tally::new();
    assert_eq!(t.exit_code(), 0);
    count_all(&mut t, &vec![good]);
    t.skip();
    assert_eq!(t.show()[0], "  RESULTS: 1/1 passed, 0 failed, 1 sections skipped");
    assert_eq!(t.show()[1], "  STATUS: ALL TESTS PASSED ✓");
    t.count(&bad);
    assert_eq!(t.exit_code(), 1);
    assert_eq!(t.show()[1], "  STATUS: SOME TESTS FAILED");
    assert!(show_verdict(&bad).contains("(bad)"));
    assert_eq!(SECTIONS.len(), 13);
    assert_eq!(cmd_test("all", "silo", false, true), SectionStep::Skip);
    assert_eq!(cmd_test("silo", "silo", true, false), SectionStep::Run);
    assert_eq!(cmd_test("bindlink", "silo", true, true), SectionStep::Leave);
    assert_ne!(skip_line("silo"), skip_line("bindlink"));
}

fn surroundings() -> Surroundings {
    Surroundings {
        rootfs: "C:\\r".to_string(),
        temp_dir: "C:\\T\\".to_string(),
        profile: Some("C:\\Users\\me".to_string()),
        appdata: None,
        temp_var: "C:\\T".to_string(),
        username: "me".to_string(),
    }
}

fn remains(target_exists: bool, output: &str) -> Remains {
    Remains { target_exists, output_exists: !output.is_empty(), output: output.to_string() }
}

#[test]
fn probes_are_judged() {
    let s = surroundings();
    assert_eq!(probes().len(), 12);
    assert!(show_probe(Probe::ReadAppData).contains("Cannot read host AppData"));
    assert_eq!(
        dirs_host_documents(Some("C:\\Users\\me")),
        Some("C:\\Users\\me\\Documents\\psroot-escape-test.txt".to_string())
    );
    assert_eq!(
        probe_target(Probe::WriteHostTemp, &s),
        Some("C:\\T\\psroot-escape-test-write.txt".to_string())
    );
    assert_eq!(probe_output(Probe::ListUsers, "C:\\r"), Some("C:\\r\\Temp\\list-users-result.txt".to_string()));
    assert_eq!(
        probe_command(Probe::ListUsers, &s),
        Some("cmd.exe /c dir C:\\Users > \"C:\\r\\Temp\\list-users-result.txt\" 2>&1".to_string())
    );
    assert!(!test_sandbox_escape(Probe::WriteHostTemp, &s, &remains(true, "")).passed);
    assert!(test_sandbox_escape(Probe::WriteHostTemp, &s, &remains(false, "")).passed);
    let planted = probe_planted(Probe::ReadHostTemp).unwrap();
    assert!(!test_sandbox_escape(Probe::ReadHostTemp, &s, &remains(true, planted)).passed);
    let v = test_sandbox_escape(Probe::ReadHostTemp, &s, &remains(true, "odd \"text\"\n"));
    assert!(v.passed);
    assert_eq!(v.message, "(blocked: \"odd \\\"text\\\"\")");
    assert!(!test_sandbox_escape(Probe::ListUsers, &s, &remains(false, "me")).passed);
    assert!(test_sandbox_escape(Probe::WorkingDirectory, &s, &remains(false, "C:\\r\\Temp")).passed);
    assert!(!test_sandbox_escape(Probe::WorkingDirectory, &s, &remains(false, "C:\\")).passed);
}

#[test]
fn sections_are_judged() {
    let seen = JobSeen { pid: 5, total: 1, ended: true, assigned: 2 };
    assert!(test_job_object(&seen).iter().all(|v| v.passed));
    let lost = JobSeen { pid: 5, total: 0, ended: false, assigned: 2 };
    assert!(test_job_object(&lost).iter().any(|v| !v.passed));
    assert!(test_network_isolation(NetworkAccess::Off)[0].passed);
    assert!(test_network_isolation(NetworkAccess::Full).iter().any(|v| !v.passed));
    assert!(!test_bind_filter("x", false, "y").iter().all(|v| v.passed));
    let run = ProgramRun { output: "x".to_string(), success: false, status: "1".to_string() };
    assert!(!judge_run(&run, "x").passed);
}

#[test]
fn unix_options_are_read() {
    assert_eq!(unix::parse_isolation("minimal"), unix::UnixIsolation::Minimal);
    assert_eq!(unix::parse_isolation("full"), unix::UnixIsolation::Full);
    assert_eq!(unix::parse_isolation("else"), unix::UnixIsolation::Standard);
    assert_eq!(unix::parse_network("none"), NetworkAccess::Off);
    assert_eq!(unix::parse_network("else"), NetworkAccess::Outbound);
    assert_eq!(unix::parse_volumes(&list(&["a:b:ro"])).unwrap()[0].read_only, true);
    assert_eq!(unix::parse_volumes(&list(&["a:b", "x"])).err().unwrap(), "bad volume: x");
    let p = unix::parse_ports(&list(&["8080:80", "90", "x"]), "0.0.0.0");
    assert_eq!((p[0].host_port, p[0].container_port), (8080, 80));
    assert_eq!((p[1].host_port, p[1].container_port), (90, 90));
    assert_eq!((p[2].host_port, &p[2].host_bind[..]), (0, "0.0.0.0"));
    let common = unix::CommonResourceArgs {
        cpu: 100,
        max_procs: 5,
        network: "full".to_string(),
        volume: vec![],
        env: list(&["A=1"]),
        publish: list(&["80"]),
        name: None,
        rootfs: None,
        publish_addr: "127.0.0.1".to_string(),
    };
    let c = unix::build_config(&common, list(&["/bin/sh"]), Ok(64)).unwrap();
    assert_eq!(c.hostname, Some("psroot".to_string()));
    assert_eq!(c.working_directory, "/home/container");
    assert_eq!((c.resources.memory, c.ports.len()), (64, 1));
    assert_eq!(
        unix::build_config(&common, vec![], Err("bad".to_string())).err().unwrap(),
        "bad"
    );
}

#[test]
fn script_words_are_quoted() {
    assert_eq!(
        unix::run_simple(&list(&["echo", "it's"])),
        "#!/bin/sh\nexec 'echo' 'it'\\''s' \n"
    );
    assert!(unix::wrap_script("/tmp/s", "/tmp/o").len() > 0);
    assert_eq!(unix::run_command(list(&["a"])), list(&["a"]));
    assert_eq!(unix::create_command(Some("a".to_string())).len() > 0, true);
    let row = unix::cmd_ls(&vec![unix::UnixContainer {
        id: "i".to_string(),
        name: None,
        state: "running".to_string(),
        command: list(&["a", "b"]),
    }]);
    assert_eq!(row[1], format!("{:<36}  {:<12}  {:<10}  a b", "i", "", "running"));
}

#[test]
fn unix_tests_are_judged() {
    assert!(unix::test_memory_limit("65536").passed);
    assert!(!unix::test_memory_limit("unlimited").passed);
    assert!(!unix::test_memory_limit("70001").passed);
    assert!(unix::test_lifecycle(true, false).passed);
    assert!(!unix::test_lifecycle(true, true).passed);
    assert!(unix::test_tty_shell(true, 0, "MARKER_OK USER=container ID=1").passed);
    assert!(!unix::test_tty_shell(true, 0, "MARKER_OK").passed);
    let (lines, code) = unix::cmd_test(&vec![
        ("a".to_string(), Verdict { passed: true, message: "m".to_string() }),
        ("b".to_string(), Verdict { passed: false, message: "n".to_string() }),
    ]);
    assert_eq!(lines[3], "[PASS] a — m");
    assert_eq!(lines[4], "[FAIL] b — n");
    assert_eq!(lines[6], "Result: 1 passed, 1 failed, 2 total");
    assert_eq!(code, 1);
}

#[test]
fn machines_are_prepared() {
    assert_eq!(lima::vm_name(None), "psroot");
    assert_eq!(lima::vm_name(Some("x".to_string())), "x");
    assert_eq!(lima::ssh_config("/Users/me", "psroot"), "/Users/me/.lima/psroot/ssh.config");
    assert_eq!(lima::vm_status(false, "Running"), None);
    assert_eq!(lima::ensure_vm(false, None), lima::VmStep::Missing);
    assert_eq!(lima::ensure_vm(true, None), lima::VmStep::Create);
    assert_eq!(lima::ensure_vm(true, Some("Stopped")), lima::VmStep::Start);
    assert_eq!(lima::ensure_vm(true, Some("Running")), lima::VmStep::Ready);
    assert_eq!(
        lima::vm_exec("vm", &list(&["ls"])),
        list(&["shell", "--workdir", "/", "vm", "sudo", "/usr/local/bin/psroot", "ls"])
    );
    assert_eq!(lima::lookup_container_ip("x\n10.88.0.5\r\n\n"), Some("10.88.0.5".to_string()));
    assert_eq!(lima::lookup_container_ip("none"), None);
    let t = lima::open_tunnel("/c", "vm", 8080, "10.0.0.2", 80);
    assert!(t.contains(&"8080:10.0.0.2:80".to_string()));
    assert!(lima::tunnel_pattern("10.0.0.2").contains("10.0.0.2"));
}

#[test]
fn published_ports_get_tunnels() {
    let argv = list(&["run", "--name", "web", "-p", "8080:80", "--publish=81:82", "sh"]);
    let (pairs, name) = lima::extract_run_flags(&argv);
    assert_eq!(pairs, vec![(8080, 80), (81, 82)]);
    assert_eq!(name, Some("web".to_string()));
    match lima::dispatch(argv, 99) {
        lima::Dispatch::Tunnels { pairs, name, .. } => {
            assert_eq!(pairs.len(), 2);
            assert_eq!(name, "web");
        }
        _ => panic!("no tunnel"),
    }
    assert!(matches!(lima::dispatch(list(&["ls", "-p", "1:2"]), 9), lima::Dispatch::Foreground));
    match lima::dispatch(list(&["run", "-p", "1:2"]), 9) {
        lima::Dispatch::Tunnels { name, argv, .. } => {
            assert!(name.contains('9'));
            assert!(argv.contains(&name));
        }
        _ => panic!("no tunnel"),
    }
    assert_eq!(lima::wait_step(true, None, 0), lima::WaitStep::Connect);
    assert_eq!(lima::wait_step(false, Some(Some(3)), 0), lima::WaitStep::Exit(3));
    assert_eq!(lima::wait_step(false, None, 0), lima::WaitStep::Wait);
    assert_eq!(lima::wait_step(false, None, 31), lima::WaitStep::GiveUp);
}

#[test]
fn unix_host_is_described() {
    let c = unix::UnixCapabilities {
        os: "linux".to_string(),
        is_root: false,
        user_namespaces: true,
        cgroups_v2: true,
        sandbox_exec: false,
        max_isolation: "Standard".to_string(),
    };
    let lines = unix::cmd_info(&c, 3);
    assert_eq!(lines[1], "  os                : linux");
    assert_eq!(lines[2], "  is_root           : false");
    assert_eq!(lines[3], "  user_namespaces   : true");
    assert_eq!(lines[6], "  max_isolation     : Standard");
    assert_eq!(lines[8], "  containers        : 3 known");
    let s = unix::UnixStats {
        state: "Running".to_string(),
        host_pid: Some(41),
        exit_code: None,
        memory_bytes: 4096,
        cpu_user_us: 7,
    };
    assert_eq!(
        unix::cmd_stats(&s),
        list(&[
            "state       : Running",
            "host_pid    : Some(41)",
            "exit_code   : None",
            "memory      : 4096 bytes",
            "cpu_user_us : 7",
        ])
    );
}

#[test]
fn unix_probes_are_shell_commands() {
    assert_eq!(
        unix::memory_probe("/tmp/m"),
        list(&["/bin/sh", "-c", "ulimit -v > '/tmp/m' 2>&1"])
    );
    assert_eq!(unix::env_probe()[..2], list(&["/bin/sh", "-c"])[..]);
    assert!(unix::env_probe()[2].ends_with("${PSROOT_CONTAINER_ID:-unset}"));
    assert!(unix::network_probe()[2].contains("'%{http_code}\\n' https://1.1.1.1"));
    let server = unix::publish_server("/usr/bin/python3", "127.0.0.1", 8765);
    assert_eq!(server[0], "/usr/bin/python3");
    assert!(server[2].ends_with("TCPServer(('127.0.0.1',8765),H).serve_forever()"));
    assert!(lima::address_script("web").contains("d.get('name')=='web' and ip"));
}
