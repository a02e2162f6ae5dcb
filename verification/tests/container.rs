use psroot::container::app_stage::{
    detect_app_root, is_system_dir, make_dir_failure, relative_to, stage_and_run_gui,
    stage_and_spawn_gui, staged_target, walk_and_stage, AppStageConfig, EntryAction, GuiStep,
    StageStats, Staged,
};
use psroot::container::appcontainer::{
    add_loopback_exemption, create_restricted_token, grant_appcontainer_access, grant_args,
    grant_refused, loopback_args, AppContainerProfile, DirEntry, InboundSessions, LoopbackCall,
    ProfileAction, ProfileStage, TokenStep,
};
use psroot::container::bindlink::{
    os_build_number, os_version_string, BindFilter, BindLinkOptions,
};
use psroot::container::config::{
    ContainerConfig, NetworkAccess, PortMapping, PsrootError, ResourceLimits, SecurityProfile,
    VolumeMount,
};
use psroot::container::desktop::{
    build_security_attributes, name_for, DesktopConfig, IsolatedDesktop, ProcessInfo,
};
use psroot::container::detect::Capabilities;
use psroot::container::launch::{
    environment, failure_of, launch_name, process_env, spawn_gui_isolated,
    spawn_gui_isolated_async, spawn_gui_plan, spawn_interactive, spawn_interactive_plan,
    spawn_interactive_plan_devicemap, spawn_interactive_plan_silo, spawn_sandboxed,
    stage_identity, translate_env, LaunchPlan,
};
use psroot::container::lifecycle::{
    assign_ports, container_dir, container_id, env_for_mappings, find_container,
    locate, new_container_id, ports_to_allocate, psroot_root, record_plan, removal_step, Container,
    ContainerState, Found, Host, Known, PlanAce, RemovalStep, Runtime, StateFile,
};
use psroot::container::rootfs::{
    cargo_bin_directory, copy_entry, effective_shares, host_dirs, install_rust_binaries,
    install_winget_shim, is_locale_name, mui_name, node_directory, prepare_rootfs,
    prepare_rootfs_with_shares, prepare_rootfs_with_tools, set_low_integrity_dir, tool_of,
    CopyMode, CopyStep, EntryKind, RootOp, Tool,
};
use psroot::container::sandbox::IsolationLevel;
use psroot::container::setup::{
    all_checks, apply, check_account_has_privilege, check_status, enumerate_fixed_drive_roots, grant_ace,
    grant_failure, path_grants_all_app_packages, require_ready,
};
use psroot::container::spawn::{
    choose_kind, failed_call_name, is_on_desktop, loopback_profile, on_failure, process_flags,
    spawn_script, After, SpawnKind, Step,
};
use psroot::wide::to_wide;

fn config(root: &str, network: NetworkAccess) -> ContainerConfig {
    ContainerConfig {
        name: None,
        rootfs_path: root.to_string(),
        command: vec![],
        env: vec![],
        resources: ResourceLimits::default(),
        volumes: vec![],
        hostname: None,
        working_directory: "C:\\".to_string(),
        silo: false,
        tools: vec![],
        shares: vec![],
        security_profile: SecurityProfile::Default,
        network,
        ports: vec![],
    }
}

fn text(e: PsrootError) -> String {
    match e {
        PsrootError::Other(m) => m,
        _ => panic!("another kind of error"),
    }
}

fn list(parts: &[&str]) -> Vec<String> {
    parts.iter().map(|s| s.to_string()).collect()
}

const ALL_KINDS: [SpawnKind; 9] = [
    SpawnKind::Interactive,
    SpawnKind::GuiIsolated,
    SpawnKind::GuiAsync,
    SpawnKind::GuiPlan,
    SpawnKind::InteractivePlan,
    SpawnKind::Sandboxed,
    SpawnKind::Restricted,
    SpawnKind::Silo,
    SpawnKind::DeviceMap,
];

#[test]
fn environments_are_put_back_by_every_launch() {
    for kind in ALL_KINDS {
        for network in [NetworkAccess::Off, NetworkAccess::Full] {
            let steps = spawn_script(kind, network);
            let applied = steps.iter().filter(|s| **s == Step::ApplyEnv).count();
            let restored = steps.iter().filter(|s| **s == Step::RestoreEnv).count();
            assert_eq!(applied, restored);
        }
    }
}

#[test]
fn loopback_is_opened_for_full_access_alone() {
    let full = spawn_script(SpawnKind::Interactive, NetworkAccess::Full);
    assert!(full.contains(&Step::AddLoopback));
    assert!(full.contains(&Step::RemoveLoopback));
    let off = spawn_script(SpawnKind::Interactive, NetworkAccess::Off);
    assert!(!off.contains(&Step::AddLoopback));
    assert_eq!(
        off,
        vec![
            Step::CreateProfile,
            Step::GrantRoot,
            Step::GrantVolumes,
            Step::Capabilities,
            Step::AttributeList,
            Step::ApplyEnv,
            Step::CreateProcess,
            Step::DeleteAttributes,
            Step::RestoreEnv,
            Step::CheckCreated,
            Step::Wait,
            Step::ExitCode,
            Step::CloseHandles,
            Step::DropProfile,
        ]
    );
}

#[test]
fn failed_launches_clean_up() {
    let (steps, after) =
        on_failure(SpawnKind::Interactive, NetworkAccess::Full, Step::CheckCreated, 2);
    assert_eq!(steps, vec![Step::RemoveLoopback, Step::DropProfile]);
    assert_eq!(after, After::Error);
    let (steps, after) =
        on_failure(SpawnKind::Sandboxed, NetworkAccess::Off, Step::CheckCreated, 2);
    assert_eq!(steps, vec![Step::DropProfile]);
    assert_eq!(after, After::TryInstead(SpawnKind::Restricted));
    let (steps, after) = on_failure(SpawnKind::Silo, NetworkAccess::Off, Step::CreateSilo, 5);
    assert_eq!(steps, vec![Step::RestoreEnv]);
    assert_eq!(after, After::TryInstead(SpawnKind::InteractivePlan));
    let (steps, _) = on_failure(SpawnKind::DeviceMap, NetworkAccess::Off, Step::AssignChild, 5);
    assert_eq!(steps, vec![Step::Terminate, Step::CloseHandles, Step::RestoreEnv]);
}

#[test]
fn launches_need_an_appcontainer() {
    assert_eq!(
        choose_kind(SpawnKind::Interactive, false, false),
        Err("Interactive shell requires AppContainer support")
    );
    assert_eq!(
        choose_kind(SpawnKind::GuiPlan, false, false),
        Err("GUI isolation requires AppContainer support")
    );
    assert_eq!(choose_kind(SpawnKind::Sandboxed, false, false), Ok(SpawnKind::Restricted));
    assert_eq!(choose_kind(SpawnKind::Sandboxed, true, false), Ok(SpawnKind::Sandboxed));
    assert_eq!(choose_kind(SpawnKind::Silo, true, true), Ok(SpawnKind::Silo));
    assert_eq!(choose_kind(SpawnKind::Silo, true, false), Ok(SpawnKind::InteractivePlan));
    assert!(is_on_desktop(SpawnKind::GuiAsync));
    assert!(!is_on_desktop(SpawnKind::Silo));
    assert_eq!(process_flags(SpawnKind::Interactive), (0x80000, true));
    assert_eq!(process_flags(SpawnKind::Sandboxed), (0x8080004, false));
    assert_eq!(process_flags(SpawnKind::Restricted), (0x8000404, false));
    assert_eq!(process_flags(SpawnKind::DeviceMap), (0x404, true));
    assert_eq!(loopback_profile(SpawnKind::GuiPlan, "x"), "psroot.gui.x");
    assert_eq!(loopback_profile(SpawnKind::Interactive, "x"), "psroot.container.x");
    assert_eq!(failed_call_name(SpawnKind::Restricted), "CreateProcessAsUserW");
}

#[test]
fn profiles_are_made_or_found() {
    let mut r = AppContainerProfile::create("abc");
    assert_eq!(r.name, to_wide("psroot.container.abc"));
    match r.next(0, 77) {
        ProfileAction::Finish(Ok(p)) => assert_eq!(p.sid(), 77),
        _ => panic!("no profile"),
    }
    assert_eq!(r.stage, ProfileStage::Finished);
    let mut r = AppContainerProfile::create("abc");
    assert!(matches!(r.next(0x800700b7, 0), ProfileAction::Derive { .. }));
    assert!(matches!(r.next(0, 78), ProfileAction::Finish(Ok(_))));
    let mut r = AppContainerProfile::create("abc");
    assert!(matches!(r.next(0x80070005, 3), ProfileAction::Derive { free: true }));
    assert!(matches!(r.next(0x80070057, 0), ProfileAction::DeleteAndCreate));
    match r.next(0x80070006, 0) {
        ProfileAction::Finish(Err(PsrootError::Hresult { op, code })) => {
            assert_eq!((&op[..], code), ("CreateAppContainerProfile", 0x80070006));
        }
        _ => panic!("the failure got lost"),
    }
    let mut r = AppContainerProfile::create("abc");
    match r.next(0, 0) {
        ProfileAction::Finish(Err(e)) => assert_eq!(text(e), "AppContainer SID is null"),
        _ => panic!("a profile without an identity"),
    }
}

#[test]
fn loopback_sessions_end_with_their_container() {
    assert_eq!(
        loopback_args(LoopbackCall::Add, "psroot.container.x"),
        list(&["LoopbackExempt", "-a", "-n=psroot.container.x"])
    );
    assert_eq!(loopback_args(LoopbackCall::Session, "p")[1], "-is");
    assert_eq!(loopback_args(LoopbackCall::Delete, "p")[1], "-d");
    assert!(add_loopback_exemption(true));
    let mut s = InboundSessions::new();
    assert_eq!(s.register_inbound_session("a", 5), None);
    assert_eq!(s.register_inbound_session("b", 6), None);
    assert_eq!(s.register_inbound_session("a", 7), Some(5));
    assert_eq!(s.kill_inbound_session("a"), Some(7));
    assert_eq!(s.kill_inbound_session("a"), None);
    assert_eq!(s.sessions.len(), 1);
}

#[test]
fn grants_stay_below_the_root() {
    assert_eq!(
        grant_args("C:\\r", "S-1", false),
        list(&["C:\\r", "/grant", "*S-1:(OI)(CI)(F)", "/Q"])
    );
    assert_eq!(
        grant_args("C:\\r", "S-1", true),
        list(&["C:\\r", "/grant", "*S-1:(OI)(CI)(F)", "/T", "/C", "/Q"])
    );
    let dir = DirEntry { symlink: false, directory: true, attributes: 0x10 };
    assert!(grant_appcontainer_access(Some(dir)));
    let junction = DirEntry { symlink: false, directory: true, attributes: 0x410 };
    assert!(!grant_appcontainer_access(Some(junction)));
    let link = DirEntry { symlink: true, directory: true, attributes: 0x10 };
    assert!(!grant_appcontainer_access(Some(link)));
    assert!(text(grant_refused("C:\\r", "denied")).contains("denied"));
    let f = create_restricted_token(TokenStep::Open, 5);
    assert!(!f.close_token && !f.close_restricted);
    assert!(matches!(f.error, PsrootError::Win32 { code: 5, op } if op == "OpenProcessToken"));
    let f = create_restricted_token(TokenStep::SetLevel, 5);
    assert!(f.close_restricted);
}

#[test]
fn launches_carry_their_command() {
    let c = config("C:\\c\\abc\\rootfs", NetworkAccess::Full);
    let l = spawn_interactive("cmd.exe", &c, true).unwrap();
    assert_eq!(l.container_id, "abc");
    assert_eq!(l.loopback, "psroot.container.abc");
    assert_eq!(l.capabilities, vec![86, 87, 88]);
    assert_eq!(l.command_line, to_wide("cmd.exe"));
    assert_eq!(l.desktop, None);
    assert_eq!(
        text(spawn_interactive("cmd.exe", &c, false).unwrap_err()),
        "Interactive shell requires AppContainer support"
    );
    let g = spawn_gui_isolated("app.exe", &c, true).unwrap();
    assert_eq!(g.desktop, Some("WinSta0\\Psroot-abc".to_string()));
    let s = spawn_sandboxed("cmd.exe", &c, false);
    assert_eq!(s.kind, SpawnKind::Restricted);
    assert_eq!(s.capabilities, vec![]);
}

fn plan() -> LaunchPlan {
    LaunchPlan {
        entry: "C:\\c\\abc\\rootfs\\PSH\\pwsh.exe".to_string(),
        args: list(&["-NoLogo"]),
        cwd: "C:\\c\\abc\\rootfs\\Users".to_string(),
        cache_dir: "C:\\cache\\7".to_string(),
        env: vec![],
    }
}

#[test]
fn programs_see_the_root_as_drive_c() {
    let mut c = config("C:\\c\\abc\\rootfs", NetworkAccess::Off);
    c.volumes.push(VolumeMount {
        host_path: "E:\\data".to_string(),
        container_path: "D:".to_string(),
        read_only: false,
    });
    let d = spawn_interactive_plan_devicemap(&plan(), &c);
    assert_eq!(d.command_line, to_wide("C:\\PSH\\pwsh.exe -NoLogo"));
    assert_eq!(d.directory, to_wide("C:\\Users"));
    assert_eq!(d.drives, vec![("D:".to_string(), "E:\\data".to_string())]);
    let s = spawn_interactive_plan_silo(&plan(), &c, true, true).unwrap();
    assert_eq!(s.command_line, to_wide("P:\\7\\pwsh.exe -NoLogo"));
    assert_eq!(s.drives, vec![("P:".to_string(), "C:\\cache".to_string())]);
    let f = spawn_interactive_plan_silo(&plan(), &c, false, true).unwrap();
    assert_eq!(f.kind, SpawnKind::InteractivePlan);
    let i = spawn_interactive_plan(&plan(), &c, true).unwrap();
    assert_eq!(i.command_line, to_wide("C:\\c\\abc\\rootfs\\PSH\\pwsh.exe -NoLogo"));
    let env = vec![("A".to_string(), "C:\\cache\\7;C:\\r\\x".to_string())];
    assert_eq!(translate_env(&env, "C:\\r", Some("C:\\cache"))[0].1, "P:\\7;C:\\x");
    assert_eq!(translate_env(&env, "C:\\r", None)[0].1, "C:\\cache\\7;C:\\x");
}

#[test]
fn processes_get_their_own_variables() {
    let c = config("C:\\c\\abc\\rootfs", NetworkAccess::Off);
    let env = vec![("A".to_string(), "C:\\cache\\7;C:\\c\\abc\\rootfs\\x".to_string())];
    assert_eq!(process_env(SpawnKind::Silo, &plan(), &c, &env)[0].1, "P:\\7;C:\\x");
    assert_eq!(process_env(SpawnKind::DeviceMap, &plan(), &c, &env)[0].1, "C:\\cache\\7;C:\\x");
    let mut block = to_wide("A=C:\\cache\\7;C:\\x");
    block.push(0);
    assert_eq!(environment(SpawnKind::DeviceMap, &c, &env), Some(block));
    assert_eq!(environment(SpawnKind::Interactive, &c, &env), None);
    assert!(environment(SpawnKind::Restricted, &c, &env).is_some());
    assert_eq!(stage_identity(SpawnKind::InteractivePlan, "S-1-2"), "S-1-2");
    assert_eq!(stage_identity(SpawnKind::DeviceMap, "S-1-2"), "S-1-15-2-1");
}

#[test]
fn failed_steps_are_told() {
    let e = failure_of(SpawnKind::DeviceMap, Step::AssignSelf, "no", 5, true).unwrap();
    assert_eq!(
        text(e),
        "ProcessDeviceMap::assign_to_current: no (run psroot elevated; SYSTEM impersonation status: true)"
    );
    assert!(matches!(
        failure_of(SpawnKind::Interactive, Step::CheckCreated, "", 2, false),
        Some(PsrootError::Win32 { code: 2, .. })
    ));
    assert!(failure_of(SpawnKind::Interactive, Step::Wait, "", 2, false).is_none());
    assert!(launch_name(Some(3), 9).contains('3'));
    assert_ne!(launch_name(Some(3), 9), launch_name(None, 9));
}

fn op_texts(v: &[RootOp<String>]) -> Vec<String> {
    v.iter()
        .map(|o| match o {
            RootOp::MakeDir(d) => format!("make {}", d),
            RootOp::MakeDirIfPossible(d) => format!("try make {}", d),
            RootOp::Junction { at, target } => format!("{} -> {}", at, target),
            RootOp::CopyFile { from, to } => format!("copy {} {}", from, to),
            RootOp::CopyLocales { from, to } => format!("locales {} {}", from, to),
            RootOp::LowIntegrity(d) => format!("low {}", d),
            RootOp::CopyTree { from, to } => format!("tree {} {}", from, to),
            RootOp::CopyTreeIfPossible { from, to } => format!("try tree {} {}", from, to),
        })
        .collect()
}

#[test]
fn roots_are_laid_out() {
    let host = host_dirs(None, None, None, None);
    assert_eq!(host.system_root, "C:\\Windows");
    assert_eq!(host.program_files_x86, "C:\\Program Files (x86)");
    let plain = prepare_rootfs("C:\\r", &host);
    let shown = op_texts(&plain);
    assert_eq!(shown[0], "make C:\\r\\Users\\ContainerUser");
    assert_eq!(shown[2], "make C:\\r\\Windows\\System32");
    assert!(shown.iter().any(|s| s.contains("cmd.exe")));
    let shared = prepare_rootfs_with_shares("C:\\r", &host, &list(&["windows", "programfiles"]));
    let shown = op_texts(&shared);
    assert!(!shown.iter().any(|s| s.starts_with("copy")));
    assert!(shown.contains(&"C:\\r\\Windows -> C:\\Windows".to_string()));
    assert!(shown.contains(&"C:\\r\\Program Files -> C:\\Program Files".to_string()));
    assert_eq!(set_low_integrity_dir("C:\\r\\Temp")[0], "C:\\r\\Temp");
}

#[test]
fn winget_brings_its_shares() {
    assert_eq!(effective_shares(&list(&["x"]), &list(&["node"])), list(&["x"]));
    let s = effective_shares(&list(&["windows"]), &list(&["winget"]));
    assert_eq!(s[0], "windows");
    for needed in ["windows", "programfiles", "programdata", "windowsapps"] {
        assert!(s.contains(&needed.to_string()));
    }
    assert_eq!(s.len(), 4);
    assert_eq!(tool_of("nodejs"), Tool::Node);
    assert_eq!(tool_of("cargo-bin"), Tool::RustBin);
    assert_eq!(tool_of("emacs"), Tool::Unknown);
    let host = host_dirs(None, None, None, None);
    let (ops, tools) = prepare_rootfs_with_tools("C:\\r", &host, &list(&["winget", "node"]));
    assert_eq!(tools, vec![Tool::Winget, Tool::Node]);
    assert!(!op_texts(&ops).iter().any(|s| s.starts_with("copy")));
    let shim = install_winget_shim("me").unwrap();
    assert_eq!(shim.profile, "C:\\Users\\me");
    assert_eq!(shim.alias, "C:\\Users\\me\\AppData\\Local\\Microsoft\\WindowsApps\\winget.exe");
    assert!(shim.cmd.starts_with("@echo off\r\n"));
    assert!(shim.cmd.contains("set \"USERPROFILE=C:\\Users\\me\""));
    assert!(shim.ps1.contains("C:\\Users\\me"));
}

#[test]
fn tools_are_located() {
    assert_eq!(
        node_directory("C:\\Program Files\\nodejs\\node.exe\r\nD:\\node.exe\r\n"),
        Some("C:\\Program Files\\nodejs".to_string())
    );
    assert_eq!(node_directory(""), None);
    assert_eq!(cargo_bin_directory(Some("D:\\cargo".to_string()), None), "D:\\cargo\\bin");
    assert_eq!(
        cargo_bin_directory(None, Some("C:\\Users\\me".to_string())),
        "C:\\Users\\me\\.cargo\\bin"
    );
    assert_eq!(cargo_bin_directory(None, None), "C:\\Users\\Default\\.cargo\\bin");
    assert_eq!(install_rust_binaries("D:\\cargo\\bin", "C:\\r").len(), 5);
    assert!(is_locale_name("en-US"));
    assert!(!is_locale_name("drivers"));
    assert!(!is_locale_name("very-long-name"));
    assert_eq!(mui_name("cmd.exe"), "cmd.exe.mui");
    assert_eq!(copy_entry(CopyMode::Mirror, EntryKind::File), CopyStep::LinkOrCopy { required: true });
    assert_eq!(copy_entry(CopyMode::Links, EntryKind::Symlink), CopyStep::Skip);
    assert_eq!(copy_entry(CopyMode::Plain, EntryKind::Directory), CopyStep::Enter);
}

fn app() -> AppStageConfig {
    AppStageConfig::from_exe("C:\\Apps\\Edit\\bin\\edit.exe", true, true, 42, "C:\\T").unwrap()
}

#[test]
fn programs_are_staged_under_their_own_name() {
    let a = app();
    assert_eq!(a.app_root, "C:\\Apps\\Edit");
    assert_eq!(a.container_name, "edit-42");
    assert_eq!(a.exclude.len(), 3);
    let r = a.rootfs_path();
    assert_eq!(a.staged_app_dir(), format!("{}\\App", r));
    assert_eq!(a.staged_exe_path(), format!("{}\\App\\bin\\edit.exe", r));
    let g = stage_and_spawn_gui(&a.with_extra_dir("D:\\data", "data"));
    assert_eq!(g.app_dir, format!("{}\\App", r));
    assert_eq!(g.extra, vec![("D:\\data".to_string(), format!("{}\\data", r))]);
    assert!(AppStageConfig::from_exe("C:\\x.exe", false, false, 1, "C:\\T").is_err());
    assert!(AppStageConfig::from_exe("C:\\x", true, false, 1, "C:\\T").is_err());
}

#[test]
fn staging_options_are_kept() {
    let a = app().with_args(list(&["a b"])).with_app_root("C:\\Apps").with_excludes(list(&["*.tmp"]));
    assert_eq!(a.app_root, "C:\\Apps");
    assert!(a.exclude.contains(&"*.tmp".to_string()));
    assert_eq!(a.staged_exe_path(), format!("{}\\App\\Edit\\bin\\edit.exe", a.rootfs_path()));
    assert!(a.launch_line().ends_with("\"a b\""));
    assert_eq!(a.single_file_target(), None);
    assert!(a.skeleton().contains(&a.staged_app_dir()));
}

#[test]
fn program_directories_are_found() {
    assert_eq!(detect_app_root("C:\\Apps\\Edit\\app\\edit.exe"), "C:\\Apps\\Edit");
    assert_eq!(detect_app_root("C:\\Apps\\Edit\\BIN\\edit.exe"), "C:\\Apps\\Edit");
    assert_eq!(detect_app_root("C:\\Apps\\Edit\\edit.exe"), "C:\\Apps\\Edit");
    assert_eq!(
        detect_app_root("C:\\Windows\\System32\\notepad.exe"),
        "C:\\Windows\\System32"
    );
    assert!(is_system_dir("c:\\windows"));
    assert!(is_system_dir("c:\\windows\\system32"));
    assert!(!is_system_dir("c:\\apps"));
    assert_eq!(relative_to("C:\\a\\b\\c", "C:\\a"), "b\\c");
    assert_eq!(relative_to("D:\\x", "C:\\a"), "D:\\x");
    assert_eq!(relative_to("C:\\app\\x.exe", "c:\\app"), "x.exe");
    assert_eq!(relative_to("C:\\app\\x.exe", "C:/app"), "x.exe");
    assert_eq!(relative_to("C:\\app\\.\\x.exe", "C:\\app\\"), "x.exe");
    assert_eq!(relative_to("C:\\apple\\x.exe", "C:\\app"), "C:\\apple\\x.exe");
    assert_eq!(relative_to("C:\\App\\x.exe", "C:\\app"), "C:\\App\\x.exe");
    assert_eq!(detect_app_root("C:\\a\\bin\\.\\x.exe"), "C:\\a");
    assert!(text(make_dir_failure("C:\\d", "full")).contains("full"));
}

#[test]
fn files_are_staged_once() {
    let ex = list(&["*.pdb"]);
    assert_eq!(
        walk_and_stage("C:\\a\\x.pdb", "C:\\a", &ex, false, true, None),
        EntryAction::Skip
    );
    assert_eq!(walk_and_stage("C:\\a\\d", "C:\\a", &ex, true, false, None), EntryAction::Descend);
    assert_eq!(
        walk_and_stage("C:\\a\\x.exe", "C:\\a", &ex, false, true, Some((5, 5))),
        EntryAction::Skip
    );
    assert_eq!(
        walk_and_stage("C:\\a\\x.exe", "C:\\a", &ex, false, true, Some((5, 6))),
        EntryAction::Stage
    );
    assert_eq!(
        walk_and_stage("C:\\a\\x.exe", "C:\\a", &ex, false, true, None),
        EntryAction::Stage
    );
    assert_eq!(
        walk_and_stage("C:\\a\\pipe", "C:\\a", &ex, false, false, None),
        EntryAction::Ignore
    );
    assert_eq!(staged_target("C:\\a\\d\\x", "C:\\a", "C:\\r\\App"), "C:\\r\\App\\d\\x");
    let mut s = StageStats::default();
    s.record(Staged::Linked);
    s.record(Staged::Copied);
    s.record(Staged::Skipped);
    assert_eq!((s.files_staged, s.hardlinked, s.copied, s.skipped), (2, 1, 1, 1));
}

fn port(inside: u16, chosen: Option<u16>) -> PortMapping {
    PortMapping {
        host_bind: "127.0.0.1".to_string(),
        host_port: inside,
        container_port: inside,
        ephemeral_port: chosen,
        name: None,
    }
}

fn state_file(status: ContainerState) -> StateFile {
    StateFile {
        status,
        created: "now".to_string(),
        pid: None,
        silo_id: None,
        ports: vec![],
        ace_grants_applied: vec![],
        cache_refs: vec![],
    }
}

#[test]
fn containers_live_and_stop() {
    let mut c = Container::create("a", "C:\\P", config("C:\\r", NetworkAccess::Off), "now");
    assert_eq!(c.id(), "a");
    assert_eq!(c.dir, "C:\\P\\containers\\a");
    assert_eq!(c.state(), ContainerState::Created);
    assert!(matches!(c.exec(), Err(PsrootError::InvalidState { .. })));
    assert!(matches!(c.start(false), Ok(Host::Job)));
    c.started(Runtime::Job);
    assert_eq!(c.state(), ContainerState::Running);
    assert!(matches!(c.exec(), Ok(Host::Job)));
    assert!(matches!(c.stats(), Ok(Host::Job)));
    match c.start(false) {
        Err(PsrootError::InvalidState { id, current, expected }) => {
            assert_eq!((&id[..], &current[..], &expected[..]), ("a", "running", "created"));
        }
        _ => panic!("started twice"),
    }
    assert!(matches!(c.remove(false), Err(PsrootError::InvalidState { .. })));
    assert!(c.remove(true).unwrap());
    let (runtime, _) = c.stop();
    assert!(matches!(runtime, Some(Runtime::Job)));
    assert_eq!(c.state(), ContainerState::Stopped);
    assert!(c.start(false).is_err());
    assert!(!c.remove(false).unwrap());
    assert_eq!(c.write_state(None).status, ContainerState::Stopped);
    let back = Container::load("a", "C:\\P", config("C:\\r", NetworkAccess::Off), c.write_state(None));
    assert_eq!(back.state(), ContainerState::Stopped);
    assert_eq!(back.created, "now");
    assert_eq!(ContainerState::Stopped.name(), "stopped");
}

#[test]
fn silos_are_used_where_asked() {
    let mut cfg = config("C:\\r", NetworkAccess::Netstack);
    cfg.silo = true;
    let c = Container::create("a", "C:\\P", cfg, "now");
    assert!(matches!(c.start(true), Ok(Host::Silo)));
    assert!(c.try_start_netstack(true));
    assert!(!c.try_start_netstack(false));
    assert!(Container::try_inject_netstack(true, true));
    assert!(!Container::try_inject_netstack(true, false));
    assert_eq!(c.setup_bind_links(true).len(), 0);
}

#[test]
fn containers_are_listed() {
    let mut with_ports = state_file(ContainerState::Running);
    with_ports.ports.push(port(80, Some(5000)));
    let found = vec![
        Found { name: "a".to_string(), directory: true, state: Some(with_ports) },
        Found { name: "file".to_string(), directory: false, state: Some(state_file(ContainerState::Created)) },
        Found { name: "broken".to_string(), directory: true, state: None },
    ];
    let l = Container::list_with_ports(&found);
    assert_eq!(l.len(), 1);
    assert_eq!((&l[0].id[..], l[0].ports.len()), ("a", 1));
    assert_eq!(
        Container::list(&found),
        vec![("a".to_string(), ContainerState::Running, "now".to_string())]
    );
    let known = vec![
        Known { id: "psroot-1".to_string(), name: Some("web".to_string()) },
        Known { id: "psroot-2".to_string(), name: None },
    ];
    assert_eq!(find_container(&known, "psroot-2"), Some(1));
    assert_eq!(find_container(&known, "web"), Some(0));
    assert_eq!(find_container(&known, "db"), None);
}

#[test]
fn every_port_is_assigned() {
    let ports = vec![port(80, None), port(81, Some(7)), port(82, None)];
    assert_eq!(ports_to_allocate(&ports), 2);
    let out = assign_ports(&ports, &[5000, 5001]);
    assert_eq!(
        out.iter().map(|p| p.ephemeral_port).collect::<Vec<_>>(),
        vec![Some(5000), Some(7), Some(5001)]
    );
    let env = env_for_mappings(&out);
    assert_eq!(env[0], ("PORT".to_string(), "5000".to_string()));
    assert_eq!(env[1], ("PSROOT_PORT_80".to_string(), "5000".to_string()));
    assert_eq!(env[3], ("PSROOT_PORT_82".to_string(), "5001".to_string()));
}

#[test]
fn plans_are_recorded() {
    let mut f = state_file(ContainerState::Created);
    let aces = vec![PlanAce { path: "C:\\cache\\7".to_string(), inherit: true }];
    record_plan(&mut f, &aces, "S-1", "C:\\cache\\7");
    record_plan(&mut f, &vec![], "S-1", "C:\\cache\\7");
    assert_eq!(f.cache_refs, list(&["C:\\cache\\7"]));
    assert_eq!(f.ace_grants_applied.len(), 1);
    assert_eq!(f.ace_grants_applied[0].mask, "RX");
    assert!(f.ace_grants_applied[0].inherit);
}

#[test]
fn containers_have_ids_and_directories() {
    assert_eq!(container_id("01234567-89ab-4cde-8f01-23456789abcd"), "psroot-01234567");
    let a = new_container_id();
    let b = new_container_id();
    assert!(a.starts_with("psroot-"));
    assert_eq!(a.len(), 15);
    assert!(a[7..].chars().all(|c| c.is_ascii_hexdigit() && !c.is_ascii_uppercase()));
    assert_ne!(a, b);
    assert_eq!(psroot_root(Some("D:\\p".to_string()), None), "D:\\p");
    assert_eq!(psroot_root(None, Some("C:\\L".to_string())), "C:\\L\\Psroot");
    assert_eq!(psroot_root(None, None), "C:\\PsrootData\\Psroot");
    assert_eq!(container_dir("C:\\P", "a"), "C:\\P\\containers\\a");
    assert_eq!(removal_step(1, true), RemovalStep::Done);
    assert_eq!(removal_step(1, false), RemovalStep::Retry);
    assert_eq!(removal_step(3, false), RemovalStep::GiveUp);
}

#[test]
fn setup_asks_for_what_is_missing() {
    let drives = vec![("C:\\".to_string(), true), ("D:\\".to_string(), false)];
    let all = all_checks(&drives, "C:\\cache", false);
    assert_eq!(all.len(), 3);
    assert_eq!(all[0].note, "ok");
    assert!(!all[1].has_all_app_packages);
    let found = check_status(&drives, "C:\\cache", false);
    assert_eq!(found.len(), 2);
    assert_eq!((&found[0].path[..], &found[1].path[..]), ("D:\\", "C:\\cache"));
    assert!(found.iter().all(|c| !c.has_all_app_packages));
    assert_eq!(check_status(&drives, "C:\\cache", true).len(), 1);
    let message = text(require_ready(&found).unwrap_err());
    assert!(message.starts_with("psroot setup required (one-time, needs admin):\n  - D:\\ : "));
    assert!(message.ends_with("\nRun (in elevated pwsh):  psroot setup\n"));
    let asked = apply(&drives, "C:\\cache", false);
    assert_eq!(asked.len(), 2);
    assert_eq!((&asked[0].path[..], &asked[0].perms[..], asked[0].recurse), ("D:\\", "(R)", false));
    assert_eq!((&asked[1].perms[..], asked[1].recurse), ("(OI)(CI)(RX)", true));
    let done = vec![("C:\\".to_string(), true), ("D:\\".to_string(), true)];
    assert_eq!(apply(&done, "C:\\cache", true).len(), 0);
    assert!(require_ready(&check_status(&done, "C:\\cache", true)).is_ok());
}

#[test]
fn setup_reads_and_writes_grants() {
    assert!(path_grants_all_app_packages(Some("... ALL APPLICATION PACKAGES:(R)")));
    assert!(path_grants_all_app_packages(Some("S-1-15-2-1:(R)")));
    assert!(!path_grants_all_app_packages(Some("Everyone:(R)")));
    assert!(!path_grants_all_app_packages(None));
    assert_eq!(
        grant_ace("C:\\", "S-1-15-2-1", "(R)", true),
        list(&["C:\\", "/grant", "*S-1-15-2-1:(R)", "/Q", "/T"])
    );
    assert!(text(grant_failure("C:\\", "out", "err")).contains("err"));
    assert_eq!(enumerate_fixed_drive_roots(&['C', 'E']), list(&["C:\\"]));
    assert_eq!(enumerate_fixed_drive_roots(&['D', 'E']), list(&[]));
    let rights = list(&["SeTcbPrivilege"]);
    assert!(check_account_has_privilege(&rights, "setcbprivilege"));
    assert!(!check_account_has_privilege(&rights, "SeDebugPrivilege"));
}

#[test]
fn capabilities_follow_the_build() {
    let c = Capabilities::detect(26100, true);
    assert!(c.bind_filter && c.server_silos && c.job_objects);
    let c = Capabilities::detect(26099, true);
    assert!(!c.bind_filter && c.server_silos);
    let c = Capabilities::detect(17762, true);
    assert!(!c.server_silos);
    let c = Capabilities::detect(26100, false);
    assert!(!c.bind_filter && !c.server_silos);
    let l = IsolationLevel::detect(&c, true);
    assert!(l.appcontainer && l.env_sanitized);
}

#[test]
fn bind_links_come_and_go() {
    let mut f = BindFilter::new();
    assert!(f.is_empty());
    f.create("C:\\v", "D:\\b", Some(0)).unwrap();
    f.create("C:\\w", "D:\\c", Some(0)).unwrap();
    assert!(matches!(
        f.create("C:\\x", "D:\\d", Some(0x80070005)),
        Err(PsrootError::Hresult { code: 0x80070005, .. })
    ));
    assert!(f.create("C:\\x", "D:\\d", None).is_err());
    assert_eq!(f.len(), 2);
    assert!(f.remove("C:\\v", Some(0x80070005)).is_err());
    f.remove("C:\\v", Some(0)).unwrap();
    assert_eq!(f.len(), 1);
    assert_eq!(f.remove_all(true), list(&["C:\\w"]));
    assert!(f.is_empty());
    assert_eq!(BindLinkOptions { read_only: true, merged: true }.flags(), 3);
    assert_eq!(BindLinkOptions::default().flags(), 0);
    assert!(BindFilter::is_available("10.0.26100"));
    assert!(!BindFilter::is_available("10.0.26099"));
    assert_eq!(os_build_number(&os_version_string(10, 0, 22631)), 22631);
    assert_eq!(os_build_number("10.0"), 0);
}

#[test]
fn desktops_hold_their_programs() {
    let named = DesktopConfig { appcontainer_sid: None, name: Some("abc".to_string()) };
    assert_eq!(name_for(&named, "01234567-89ab-4cde-8f01-23456789abcd"), "Psroot-abc");
    let anonymous = DesktopConfig { appcontainer_sid: None, name: None };
    assert_eq!(
        name_for(&anonymous, "01234567-89ab-4cde-8f01-23456789abcd"),
        "Psroot-01234567-89ab-4cde-8f01-23456789abcd"
    );
    let n = IsolatedDesktop::create(&anonymous);
    assert_eq!(n.len(), "Psroot-".len() + 36);
    assert_ne!(n, IsolatedDesktop::create(&anonymous));
    let d = IsolatedDesktop::created(&named, "Psroot-abc".to_string(), 5, 6, 0).unwrap();
    assert_eq!(d.lpdesktop_name(), "WinSta0\\Psroot-abc");
    assert_eq!(d.lpdesktop_wide(), to_wide("WinSta0\\Psroot-abc"));
    assert!(d.is_open());
    let r = d.spawn_process("a.exe", Some("C:\\w"), false, 0x10, true);
    assert_eq!(r.flags, 0x10 | 0x80000);
    assert_eq!(r.desktop, d.lpdesktop_wide());
    assert_eq!(r.working_dir, Some(to_wide("C:\\w")));
    assert!(matches!(
        IsolatedDesktop::created(&named, "Psroot-abc".to_string(), 0, 6, 5),
        Err(PsrootError::Win32 { code: 5, .. })
    ));
    assert!(ProcessInfo::is_running(258));
    assert!(!ProcessInfo::is_running(0));
}

#[test]
fn desktops_are_open_to_three_identities() {
    assert_eq!(
        build_security_attributes("S-1-5-21-7", Some("S-1-15-2-9")),
        "D:P(A;;GA;;;SY)(A;;GA;;;S-1-5-21-7)(A;;GA;;;S-1-15-2-9)"
    );
    assert_eq!(
        build_security_attributes("S-1-5-21-7", None),
        "D:P(A;;GA;;;SY)(A;;GA;;;S-1-5-21-7)"
    );
}

#[test]
fn programs_with_windows_get_a_desktop() {
    let c = config("C:\\c\\abc\\rootfs", NetworkAccess::Full);
    let l = spawn_gui_plan(&plan(), &c, true).unwrap();
    assert_eq!(l.kind, SpawnKind::GuiPlan);
    assert_eq!(l.desktop, Some("WinSta0\\Psroot-abc".to_string()));
    assert_eq!(l.loopback, "psroot.gui.abc");
    assert_eq!(l.directory, to_wide("C:\\c\\abc\\rootfs\\Users"));
    assert!(l.steps.contains(&Step::CreateDesktop));
    let l = spawn_gui_isolated_async("app.exe", &c, true).unwrap();
    assert_eq!(l.kind, SpawnKind::GuiAsync);
    assert!(!l.steps.contains(&Step::Wait));
    assert_eq!(
        text(spawn_gui_plan(&plan(), &c, false).err().unwrap()),
        "GUI isolation requires AppContainer support"
    );
}

#[test]
fn staged_programs_run_to_their_end() {
    let a = app().with_extra_dir("D:\\data", "data").with_extra_dir("D:\\more", "more");
    let (l, steps) = stage_and_run_gui(&a);
    assert_eq!(l.directory, a.rootfs_path());
    assert_eq!(l.desktop, "Psroot-edit-42");
    assert_eq!(
        steps,
        vec![
            GuiStep::MakeDirectories,
            GuiStep::StageApp,
            GuiStep::StageExtra(0),
            GuiStep::StageExtra(1),
            GuiStep::CreateDesktop,
            GuiStep::Start,
            GuiStep::Wait,
            GuiStep::RemoveRoot,
        ]
    );
}

#[test]
fn programs_outside_their_root_stay_inside() {
    let a = AppStageConfig::from_exe("D:\\x.exe", true, true, 7, "C:\\T").unwrap();
    let a = a.with_app_root("C:\\app");
    assert_eq!(a.staged_exe_path(), format!("{}\\x.exe", a.staged_app_dir()));
    assert!(a.staged_exe_path().starts_with(&a.rootfs_path()));
    let b = app().with_app_root("");
    assert_eq!(b.staged_exe_path(), format!("{}\\edit.exe", b.staged_app_dir()));
    let c = app().with_app_root("c:/apps");
    assert_eq!(c.staged_exe_path(), format!("{}\\edit.exe", c.staged_app_dir()));
    let d = app().with_app_root("c:/Apps");
    assert_eq!(d.staged_exe_path(), format!("{}\\Edit\\bin\\edit.exe", d.staged_app_dir()));
}

#[test]
fn staging_again_skips_everything() {
    let ex = list(&["*.pdb"]);
    let sizes = |staged: bool, n: u64| if staged { Some((n, n)) } else { None };
    let walk = |staged: bool| {
        let mut stats = StageStats::default();
        for (path, n) in [("C:\\a\\x.exe", 5), ("C:\\a\\y.dll", 6), ("C:\\a\\z.pdb", 7)] {
            match walk_and_stage(path, "C:\\a", &ex, false, true, sizes(staged, n)) {
                EntryAction::Skip => stats.record(Staged::Skipped),
                EntryAction::Stage => stats.record(Staged::Linked),
                _ => panic!("a file is neither"),
            }
        }
        stats
    };
    let (a, b) = (walk(false), walk(true));
    assert_eq!((a.files_staged, a.skipped), (2, 1));
    assert_eq!((b.files_staged, b.hardlinked, b.copied, b.skipped), (0, 0, 0, 3));
}

#[test]
fn loading_gives_back_what_was_saved() {
    let c = Container::create("abc", "C:\\P", config("", NetworkAccess::Off), "now");
    let file = c.write_state(None);
    let d = Container::load("abc", "C:\\P", c.config, file);
    assert_eq!((d.id(), d.state()), ("abc", ContainerState::Created));
    assert_eq!(d.config().rootfs_path, "C:\\P\\containers\\abc\\rootfs");
    let mut file = d.write_state(None);
    file.status = ContainerState::Running;
    let e = Container::load("abc", "C:\\P", d.config, file);
    assert_eq!(e.state(), ContainerState::Stopped);
    let known = vec![Known { id: "abc".to_string(), name: Some("web".to_string()) }];
    assert_eq!(locate(&known, "web").ok(), Some(0));
    assert!(matches!(locate(&known, "x"), Err(PsrootError::NotFound { id }) if id == "x"));
}
