use psroot::container::config::{NetworkAccess, PsrootError, ResourceLimits, VolumeMount};
use psroot::container::env::{get_var, names_match, remove_var, set_var};
use psroot::container::env_block::{block_entries, build_env_block, build_env_block_w};
use psroot::container::glob::{glob_match, matches_glob, simple_glob};
use psroot::container::job::{
    BasicAccountingInfo, BasicAndIoAccountingInfo, IoCounters, JobObject, JobSetting,
};
use psroot::container::junction::{
    create_volume_guid_junction, junction_fits, junction_names, relative_path, reparse_buffer,
    volume_failure, VolumeStep,
};
use psroot::container::namespace::{
    create_directory, create_directory_named_shadowed, create_directory_shadowed, create_symlink,
    make_object_attributes, open_directory, set_process_device_map, NsObject, NtHandle,
    ProcessDeviceMap, SiloNamespace,
};
use psroot::container::peb::{
    allocated, counted_string_bytes, parameters, parameters_pointer, patch_image_path, written,
};
use psroot::container::sandbox::{
    build_command_line, build_network_capabilities, classify_bind, container_id_of, join_path,
    plan_binds, quote_arg, replace_all, start_directory, strip_drive, translate_devicemap,
    translate_silo, BindTarget, IsolationLevel,
};
use psroot::container::sandbox_env::{
    apply_sandbox_env, apply_sandbox_env_with_plan, hide_host_vars, restore_env,
};

fn vars(list: &[(&str, &str)]) -> Vec<(String, String)> {
    list.iter().map(|(k, v)| (k.to_string(), v.to_string())).collect()
}

fn value(env: &Vec<(String, String)>, name: &str) -> Option<String> {
    get_var(env, name, true)
}

#[test]
fn variables_are_set_and_removed() {
    let mut env = vars(&[("Path", "a"), ("HOME", "h")]);
    assert!(names_match("Path", "PATH", true));
    assert!(!names_match("Path", "PATH", false));
    set_var(&mut env, "PATH", "b", true);
    assert_eq!(value(&env, "path"), Some("b".to_string()));
    assert_eq!(env.len(), 2);
    assert_eq!(get_var(&env, "path", false), None);
    let less = remove_var(&env, "home", true);
    assert_eq!(value(&less, "HOME"), None);
    assert_eq!(value(&less, "PATH"), Some("b".to_string()));
}

#[test]
fn the_host_is_hidden_and_comes_back() {
    let before = vars(&[
        ("Path", "C:\\Windows"),
        ("TEMP", "C:\\Users\\me\\Temp"),
        ("ONEDRIVE", "C:\\Users\\Me\\OneDrive"),
        ("EDITOR", "vim"),
        ("TOOLS", "C:\\PROGRAM FILES\\x"),
        ("INSIDE", "C:\\Users\\me\\box\\data"),
    ]);
    let mut env = before.clone();
    let saved = apply_sandbox_env(
        &mut env,
        "C:\\Users\\me\\box",
        true,
        false,
        &vars(&[("MINE", "1")]),
    );
    assert_eq!(value(&env, "ONEDRIVE"), None);
    assert_eq!(value(&env, "TOOLS"), None);
    assert_eq!(value(&env, "EDITOR"), Some("vim".to_string()));
    assert_eq!(value(&env, "INSIDE"), Some("C:\\Users\\me\\box\\data".to_string()));
    assert_eq!(value(&env, "TEMP"), Some("C:\\Users\\me\\box\\Temp".to_string()));
    assert_eq!(
        value(&env, "PATH"),
        Some("C:\\Users\\me\\box\\Windows\\System32;C:\\Users\\me\\box\\bin".to_string())
    );
    assert_eq!(value(&env, "USERNAME"), Some("ContainerUser".to_string()));
    assert_eq!(value(&env, "MINE"), Some("1".to_string()));
    restore_env(&mut env, &saved);
    for (k, v) in &before {
        assert_eq!(value(&env, k), Some(v.clone()));
    }
    assert_eq!(value(&env, "USERNAME"), None);
    assert_eq!(value(&env, "MINE"), None);
    assert_eq!(env.len(), before.len());
}

#[test]
fn plans_and_spellings_are_undone() {
    let before = vars(&[
        ("PATH", "C:\\host"),
        ("PSModulePath", "C:\\modules"),
        ("MINE", "old"),
        ("EXTRA", "kept"),
    ]);
    let mut env = before.clone();
    let saved = apply_sandbox_env_with_plan(
        &mut env,
        "C:\\box",
        false,
        false,
        &vars(&[("MINE", "1"), ("mine", "2"), ("PATH", "C:\\user"), ("NEW", "3")]),
        &vars(&[
            ("PATH_PREPEND", "C:\\shell"),
            ("PATHEXT_APPEND", ".PS2"),
            ("EXTRA", "other"),
            ("PLANNED", "4"),
            ("PATH_PREPEND", "C:\\more"),
        ]),
    );
    assert_eq!(value(&env, "PATH"), Some("C:\\more;C:\\shell;C:\\user".to_string()));
    assert_eq!(value(&env, "PATHEXT"), Some(".COM;.EXE;.BAT;.CMD;.PS1;.PS2".to_string()));
    assert_eq!(value(&env, "MINE"), Some("2".to_string()));
    assert_eq!(value(&env, "PSModulePath"), None);
    let names: Vec<String> =
        saved.iter().map(|s| s.0.to_lowercase()).filter(|n| n == "psmodulepath").collect();
    assert_eq!(names.len(), 1);
    restore_env(&mut env, &saved);
    for (k, v) in &before {
        assert_eq!(value(&env, k), Some(v.clone()));
    }
    assert_eq!(env.len(), before.len());
}

#[test]
fn only_telling_variables_are_hidden() {
    let mut env = vars(&[("EDITOR", "vim"), ("GOPATH", "x")]);
    let saved = hide_host_vars(&mut env, "C:\\box");
    assert_eq!(env, vars(&[("EDITOR", "vim")]));
    assert!(saved.contains(&("GOPATH".to_string(), Some("x".to_string()))));
    assert!(saved.contains(&("TEMP".to_string(), None)));
}

#[test]
fn a_plan_extends_the_search_path() {
    let mut env = vars(&[]);
    apply_sandbox_env_with_plan(
        &mut env,
        "C:\\box",
        false,
        false,
        &vars(&[]),
        &vars(&[("PATH_PREPEND", "P:\\ps"), ("PATHEXT_APPEND", ".PY"), ("X", "y")]),
    );
    assert_eq!(value(&env, "PATH"), Some("P:\\ps;C:\\box\\Windows\\System32".to_string()));
    assert_eq!(value(&env, "PATHEXT"), Some(".COM;.EXE;.BAT;.CMD;.PS1;.PY".to_string()));
    assert_eq!(value(&env, "X"), Some("y".to_string()));
    assert_eq!(value(&env, "PATH_PREPEND"), None);
}

fn entries(block: &[u16]) -> Vec<String> {
    let text = String::from_utf16(block).unwrap();
    text.trim_end_matches('\0').split('\0').map(|s| s.to_string()).collect()
}

#[test]
fn environment_blocks_are_sorted() {
    let env = vars(&[("zeta", "1"), ("TEMP", "mine"), ("Alpha", "2")]);
    let block = build_env_block(&env, "C:\\r");
    assert_eq!(&block[block.len() - 2..], &[0, 0]);
    assert_eq!(
        entries(&block),
        vec![
            "Alpha=2",
            "PATH=C:\\r\\Windows\\System32;C:\\r\\bin;C:\\r\\nodejs",
            "PATHEXT=.COM;.EXE;.BAT;.CMD;.PS1",
            "SystemDrive=C:",
            "SystemRoot=C:\\r\\Windows",
            "TEMP=mine",
            "TMP=C:\\r\\Temp",
            "USERPROFILE=C:\\r\\Users\\ContainerUser",
            "zeta=1",
        ]
    );
    assert_eq!(block_entries(&env, "C:\\r").len(), 9);
    let plain = build_env_block_w(&vars(&[("b", "1"), ("A", "2")]));
    assert_eq!(entries(&plain), vec!["b=1", "A=2"]);
}

#[test]
fn levels_have_names_and_warnings() {
    let mut l = IsolationLevel {
        appcontainer: true,
        env_sanitized: true,
        bind_filter: false,
        server_silo: false,
        is_admin: false,
        build_number: 22631,
    };
    assert_eq!(l.tier_name(), "Standard (AppContainer + ProcShim + Env)");
    assert_eq!(
        l.print_warnings(),
        vec![
            "  ⚠ Non-admin: some isolation features unavailable",
            "    Run as Administrator for: bind filter, server silos",
        ]
    );
    l.is_admin = true;
    l.server_silo = true;
    assert_eq!(l.tier_name(), "Full (Silo + AppContainer + Env)");
    assert_eq!(
        l.print_warnings(),
        vec!["  ℹ Bind filter needs Windows 11 24H2+ (build 26100, current: 22631)"]
    );
    l.server_silo = false;
    l.bind_filter = true;
    assert_eq!(l.tier_name(), "Enhanced (AppContainer + BindFilter + Env)");
    l.bind_filter = false;
    l.appcontainer = false;
    assert_eq!(l.tier_name(), "Basic (Restricted Token + Env)");
}

#[test]
fn capabilities_follow_the_network() {
    assert_eq!(build_network_capabilities(NetworkAccess::Off), vec![]);
    assert_eq!(build_network_capabilities(NetworkAccess::Outbound), vec![86]);
    assert_eq!(build_network_capabilities(NetworkAccess::Netstack), vec![86]);
    assert_eq!(build_network_capabilities(NetworkAccess::Full), vec![86, 87, 88]);
}

#[test]
fn command_lines_are_quoted() {
    assert_eq!(quote_arg(""), "\"\"");
    assert_eq!(quote_arg("plain"), "plain");
    assert_eq!(quote_arg("two words"), "\"two words\"");
    assert_eq!(quote_arg("a\"b"), "\"a\\\"b\"");
    let args = vec!["-c".to_string(), "say hi".to_string()];
    assert_eq!(build_command_line("C:\\my shell.exe", &args), "\"C:\\my shell.exe\" -c \"say hi\"");
    assert_eq!(container_id_of("C:\\c\\abc\\rootfs", "default"), "abc");
    assert_eq!(container_id_of("rootfs", "default"), "default");
    assert_eq!(replace_all("aXbX", "X", "--"), "a--b--");
    assert_eq!(replace_all("ab", "", "-"), "-a-b-");
}

#[test]
fn paths_are_seen_from_inside() {
    assert_eq!(start_directory("C:\\r\\work", "C:\\r"), "C:\\r\\work");
    assert_eq!(start_directory("C:\\", "C:\\r"), "C:\\r\\Temp");
    assert_eq!(translate_devicemap("C:\\r\\a.exe", "C:\\r"), "C:\\a.exe");
    assert_eq!(translate_devicemap("C:\\r", "C:\\r"), "C:\\");
    assert_eq!(translate_devicemap("D:\\x", "C:\\r"), "D:\\x");
    assert_eq!(
        translate_silo("C:\\r\\PSH\\pwsh.exe", "C:\\r", "C:\\cache\\7", "C:\\cache"),
        "P:\\7\\pwsh.exe"
    );
    assert_eq!(translate_silo("C:\\r\\x", "C:\\r", "C:\\cache\\7", "C:\\cache"), "C:\\x");
    assert_eq!(translate_silo("C:\\cache\\7\\a", "C:\\r", "C:\\cache\\7", "C:\\cache"), "P:\\7\\a");
}

#[test]
fn mounts_become_drives_and_junctions() {
    assert!(matches!(classify_bind(" D: "), BindTarget::Drive(d) if d == "D:"));
    assert!(matches!(classify_bind("d:/"), BindTarget::Drive(d) if d == "d:"));
    assert!(matches!(classify_bind("C:\\src"), BindTarget::Below(p) if p == "src"));
    assert!(matches!(classify_bind("/src/x"), BindTarget::Below(p) if p == "src/x"));
    assert_eq!(strip_drive("C:\\\\a"), "a");
    assert_eq!(join_path("C:\\r", "a"), "C:\\r\\a");
    assert_eq!(join_path("C:\\", "a"), "C:\\a");
    assert_eq!(join_path("C:\\r", "D:\\a"), "D:\\a");
    let mount = |host: &str, inside: &str| VolumeMount {
        host_path: host.to_string(),
        container_path: inside.to_string(),
        read_only: false,
    };
    let (drives, junctions) =
        plan_binds("C:\\r", &vec![mount("E:\\data", "D:"), mount("E:\\src", "C:\\src")]);
    assert_eq!(drives, vars(&[("D:", "E:\\data")]));
    assert_eq!(junctions, vars(&[("C:\\r\\src", "E:\\src")]));
}

#[test]
fn globs_match() {
    assert!(simple_glob("*", "anything"));
    assert!(simple_glob("a?c", "abc"));
    assert!(!simple_glob("a?c", "ac"));
    assert!(simple_glob("*.log", "x.log"));
    assert!(!simple_glob("*.log", "x.txt"));
    assert!(simple_glob("plain", "plain"));
    assert!(!simple_glob("plain", "plainer"));
    assert!(glob_match("*.pdb", "x.pdb"));
    assert!(glob_match("*.pdb", "deep/down/x.pdb"));
    assert!(glob_match("**/*.log", "x.log"));
    assert!(glob_match("**/*.log", "deep/down/x.LOG"));
    assert!(!glob_match("**/*.log", "deep/x.txt"));
    assert!(glob_match("**/Installer/**", "Chrome/Installer/setup.exe"));
    assert!(glob_match("**/Installer/**", "Installer/a/b"));
    assert!(glob_match("**/Installer/**", "Chrome/Installer"));
    assert!(!glob_match("**/Installer/**", "Chrome/Install/setup.exe"));
    assert!(!glob_match("**/Installer/**", "Chrome/MyInstaller/setup.exe"));
    assert!(glob_match("**/", "any/thing"));
    assert!(glob_match("**", "any/thing"));
    assert!(glob_match("a/**/z", "a/z"));
    assert!(glob_match("a/**/z", "a/b/c/z"));
    assert!(glob_match("a/**/z", "b/a/z"));
    assert!(!glob_match("a/**/z", "a/y"));
    assert!(glob_match("**/*.log", "x.log/readme.txt"));
    assert!(glob_match("**/b/c", "a/b/c"));
    assert!(glob_match("**/b.log", "ab.log"));
    assert!(!glob_match("**/b.log", "b.log.txt"));
    assert!(!glob_match("a/b", "a/b"));
    assert!(!glob_match("a/?.txt", "a/b.txt"));
    assert!(!glob_match("a/?.txt", "a/b/c.txt"));
    assert!(glob_match("", ""));
    assert!(!glob_match("", "x"));
    assert!(matches_glob("x.pdb", &vec!["*.log".to_string(), "*.pdb".to_string()]));
    assert!(!matches_glob("x.exe", &vec!["*.log".to_string(), "*.pdb".to_string()]));
}

#[test]
fn junctions_lead_to_their_volume() {
    let guid = "\\\\?\\Volume{12}\\";
    assert_eq!(relative_path("\\\\?\\C:\\data\\x", "C:\\"), "data\\x");
    assert_eq!(relative_path("\\\\?\\D:\\data", "C:\\"), "data");
    let (sub, print) = junction_names(guid, "C:\\", "\\\\?\\C:\\data");
    assert_eq!(sub, "\\??\\Volume{12}\\data");
    assert!(junction_fits(&sub, &print));
    let buf = reparse_buffer(&sub, &print);
    let a = sub.len() as u16 * 2;
    let b = print.len() as u16 * 2;
    assert_eq!(&buf[..4], &[0x03, 0, 0, 0xA0]);
    assert_eq!(&buf[4..6], &(8 + a + 2 + b + 2).to_le_bytes());
    assert_eq!(&buf[8..10], &[0, 0]);
    assert_eq!(&buf[10..12], &a.to_le_bytes());
    assert_eq!(&buf[12..14], &(a + 2).to_le_bytes());
    assert_eq!(&buf[14..16], &b.to_le_bytes());
    assert_eq!(buf.len(), 16 + a as usize + 2 + b as usize + 2);
    assert_eq!(&buf[16..20], &[b'\\', 0, b'?', 0]);
    assert_eq!(create_volume_guid_junction(guid, "C:\\", "\\\\?\\C:\\data"), Some(buf));
    let long = "x".repeat(40000);
    assert!(!junction_fits(&long, ""));
    assert_eq!(create_volume_guid_junction(&long, "C:\\", "C:\\data"), None);
    assert_eq!(
        volume_failure(VolumeStep::Path, "C:\\t", "why"),
        "GetVolumePathNameW('C:\\t') failed"
    );
    assert_eq!(
        volume_failure(VolumeStep::Id, "C:\\t", "why"),
        "GetVolumeNameForVolumeMountPointW failed"
    );
    assert_eq!(volume_failure(VolumeStep::Canonical, "C:\\t", "why"), "canonicalize: why");
}

fn show(o: &NsObject<String>) -> String {
    match o {
        NsObject::Open { name } => format!("open {}", name),
        NsObject::Directory { name, parent } => format!("dir {} {:?}", name, parent),
        NsObject::Link { name, target, parent } => {
            format!("link {} {} {:?}", name, target, parent)
        }
    }
}

#[test]
fn silos_have_a_namespace_of_their_own() {
    let plan = SiloNamespace::build_with_extra_drives(5, "C:\\r", &vars(&[("P:", "C:\\ps")]));
    let shown: Vec<String> = plan.iter().map(show).collect();
    assert_eq!(shown[0], "dir \\Silos None");
    assert_eq!(shown[1], "dir \\Silos\\5 None");
    assert_eq!(shown[6], "link BaseNamedObjects \\Silos\\5\\BaseNamedObjects Some(5)");
    assert_eq!(shown[8], "link C: \\??\\C:\\r Some(7)");
    assert_eq!(shown[9], "link P: \\??\\C:\\ps Some(7)");
    assert_eq!(shown[10], "link NUL \\Device\\Null Some(7)");
    assert_eq!(shown[14], "dir Device Some(1)");
    assert_eq!(shown[15], "link Null \\Device\\Null Some(14)");
    assert_eq!(shown[17], "dir KnownDlls Some(1)");
    assert_eq!(plan.len(), 18);
    assert_eq!(SiloNamespace::build(5, "C:\\r").len(), 17);
    let handles: Vec<NtHandle> = (1..19).map(NtHandle).collect();
    let ns = SiloNamespace::from_handles(handles).unwrap();
    assert_eq!(ns.root_handle(), 2);
    assert_eq!(ns.children.len(), 16);
    assert!(SiloNamespace::from_handles(vec![NtHandle(1)]).is_none());
}

#[test]
fn device_maps_link_through_the_global_directory() {
    let plan = ProcessDeviceMap::build(7, 2, "C:\\r", &vars(&[("D:", "E:\\data")]));
    let shown: Vec<String> = plan.iter().map(show).collect();
    assert_eq!(
        shown,
        vec![
            "open \\GLOBAL??",
            "dir \\BaseNamedObjects\\PsrootDevMap-7-2 None",
            "link C: \\GLOBAL??\\C:\\r Some(1)",
            "link D: \\GLOBAL??\\E:\\data Some(1)",
        ]
    );
    let m = ProcessDeviceMap::from_handles((1..5).map(NtHandle).collect()).unwrap();
    assert_eq!(m.assign_to_process(), 2);
    assert_eq!(m.global.raw(), 1);
    assert_eq!(m.symlinks.len(), 2);
    assert!(matches!(set_process_device_map(0, None), Some(Ok(()))));
    assert!(set_process_device_map(0xC0000004, None).is_none());
    assert!(matches!(set_process_device_map(0xC0000004, Some(0)), Some(Ok(()))));
    match set_process_device_map(0xC0000004, Some(0xC0000022)) {
        Some(Err(PsrootError::Other(m))) => assert_eq!(
            m,
            "NtSetInformationProcess(DeviceMap) [tried len=40 -> 0xc0000004, len=8 -> 0xc0000022]"
        ),
        _ => panic!("the failure got lost"),
    }
}

#[test]
fn object_calls_give_handles_or_errors() {
    let a = make_object_attributes(Some(9), true);
    assert_eq!((a.root_directory, a.attributes), (9, 0x40 | 0x80));
    let a = make_object_attributes(None, false);
    assert_eq!((a.root_directory, a.attributes), (0, 0x40));
    assert_eq!(create_directory(0, 4).unwrap().raw(), 4);
    assert_eq!(create_directory(0x4000_0000, 4).unwrap().raw(), 4);
    assert!(matches!(
        create_directory(0xC0000022, 4),
        Err(PsrootError::Nt { status: 0xC0000022, .. })
    ));
    assert_eq!(create_symlink(0, 4).unwrap().raw(), 4);
    assert!(create_symlink(0xC0000022, 4).is_err());
    assert_eq!(open_directory(0, 4).unwrap().raw(), 4);
    assert!(open_directory(0xC0000034, 4).is_err());
    assert!(create_directory_shadowed(0xC0000022, 4).is_err());
    assert!(create_directory_named_shadowed(0xC0000022, 4).is_err());
}

#[test]
fn images_are_renamed_in_the_process() {
    assert_eq!(parameters_pointer(0, 0x1000).unwrap(), 0x1020);
    match parameters_pointer(-1073741790, 0x1000) {
        Err(PsrootError::Other(m)) => assert_eq!(
            m,
            "NtQueryInformationProcess(ProcessBasicInformation) -> 0xc0000022"
        ),
        _ => panic!("the failure got lost"),
    }
    assert!(parameters_pointer(0, 0).is_err());
    assert_eq!(parameters(0x1020, true, 8, 0x5000, 0).unwrap(), 0x5000);
    match parameters(0x1020, false, 0, 0, 299) {
        Err(PsrootError::Other(m)) => {
            assert_eq!(m, "ReadProcessMemory(@0x1020) failed: win32 err 299")
        }
        _ => panic!("the failure got lost"),
    }
    let patches = patch_image_path("C:\\a", Some("a -x"));
    assert_eq!((patches[0].offset, patches[1].offset), (0x60, 0x70));
    assert_eq!((patches[0].length, patches[0].maximum), (8, 10));
    assert_eq!(patches[0].text, vec![b'C', 0, b':', 0, b'\\', 0, b'a', 0, 0, 0]);
    assert_eq!(patch_image_path("C:\\a", None).len(), 1);
    assert_eq!(
        counted_string_bytes(8, 10, 0x0102030405060708),
        vec![8, 0, 10, 0, 0, 0, 0, 0, 8, 7, 6, 5, 4, 3, 2, 1]
    );
    assert!(allocated(5, 0).is_ok());
    assert!(allocated(0, 8).is_err());
    assert!(written(5, 10, true, 10, 0).is_ok());
    assert!(written(5, 10, true, 9, 0).is_err());
    assert!(written(5, 10, false, 0, 5).is_err());
}

#[test]
fn jobs_get_their_limits() {
    let all = ResourceLimits {
        memory: 1 << 30,
        cpu_rate: 5000,
        max_processes: 10,
        affinity: 3,
        priority_class: 0x20,
    };
    let settings = JobObject::apply_limits(&all);
    assert_eq!(settings.len(), 2);
    match &settings[0] {
        JobSetting::Limits(l) => {
            assert_eq!(l.flags, 0x2000 | 0x200 | 0x8 | 0x10 | 0x20);
            assert_eq!((l.memory, l.processes, l.affinity), (1 << 30, 10, 3));
        }
        _ => panic!("no limits"),
    }
    assert!(matches!(settings[1], JobSetting::CpuRate { flags: 5, rate: 5000 }));
    let usual = ResourceLimits::default();
    assert_eq!(JobObject::apply_limits(&usual).len(), 1);
    let none = ResourceLimits { memory: 0, cpu_rate: 0, max_processes: 0, affinity: 0, priority_class: 0 };
    assert!(matches!(&JobObject::apply_limits(&none)[0], JobSetting::Limits(l) if l.flags == 0x2000));
    assert!(matches!(JobObject::enable_kill_on_close(), JobSetting::Limits(l) if l.flags == 0x2000));
    assert!(matches!(JobObject::set_memory_limit(7), JobSetting::Limits(l) if l.memory == 7));
    assert!(matches!(JobObject::set_process_limit(7), JobSetting::Limits(l) if l.processes == 7));
    assert!(matches!(JobObject::set_cpu_rate(7), JobSetting::CpuRate { rate: 7, .. }));
}

#[test]
fn job_calls_fail_with_their_code() {
    assert_eq!(JobObject::new(4, 0).unwrap().handle(), 4);
    assert!(matches!(JobObject::new(0, 5), Err(PsrootError::Win32 { code: 5, .. })));
    assert!(JobObject::set_info(true, 0).is_ok());
    assert!(matches!(JobObject::set_info(false, 5), Err(PsrootError::Win32 { code: 5, .. })));
    assert!(matches!(JobObject::query_info(false, 6), Err(PsrootError::Win32 { code: 6, .. })));
    assert!(matches!(JobObject::assign_handle(false, 7), Err(PsrootError::Win32 { code: 7, .. })));
    assert!(matches!(JobObject::terminate(false, 8), Err(PsrootError::Win32 { code: 8, .. })));
    let (r, close) = JobObject::assign_pid(0, 87, false, 0);
    assert!(matches!(r, Err(PsrootError::Win32 { code: 87, .. })));
    assert!(!close);
    let (r, close) = JobObject::assign_pid(3, 0, true, 0);
    assert!(r.is_ok() && close);
    let accounts = BasicAndIoAccountingInfo {
        basic: BasicAccountingInfo {
            total_user_time: 100,
            total_kernel_time: 200,
            this_period_user_time: 0,
            this_period_kernel_time: 0,
            total_page_fault_count: 0,
            total_processes: 9,
            active_processes: 2,
            total_terminated_processes: 0,
        },
        io: IoCounters {
            read_operation_count: 0,
            write_operation_count: 0,
            other_operation_count: 0,
            read_transfer_count: 33,
            write_transfer_count: 44,
            other_transfer_count: 0,
        },
    };
    let s = JobObject::query_stats(&accounts, 5555);
    assert_eq!((s.cpu_user_time, s.cpu_kernel_time), (100, 200));
    assert_eq!((s.process_count, s.total_processes, s.memory_usage), (2, 9, 5555));
    assert_eq!((s.io_read_bytes, s.io_write_bytes), (33, 44));
}

#[test]
fn paths_are_joined_as_windows_does() {
    assert_eq!(join_path("C:\\r", "x"), "C:\\r\\x");
    assert_eq!(join_path("C:\\r", "\\x"), "C:\\x");
    assert_eq!(join_path("C:\\r", "/x"), "C:/x");
    assert_eq!(join_path("r", "\\x"), "\\x");
    assert_eq!(join_path("C:\\r", "D:\\x"), "D:\\x");
    assert_eq!(join_path("C:\\r\\", "x"), "C:\\r\\x");
    assert_eq!(join_path("C:", "x"), "C:x");
    assert_eq!(join_path("", "x"), "x");
}
