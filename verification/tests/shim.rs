use psroot::inject::{Action, Event, InjectError, Injection, RemoteCall, Stage};
use psroot::netstack::client::{ClientError, Malformed};
use psroot::netstack::daemon::Call;
use psroot::netstack::iat::{
    ascii_eq_ignore_case, cstr_bytes, find_slots, patch_module, restore_module, strip_nul, Hit,
};
use psroot::netstack::nat_backend::HostAddr;
use psroot::netstack::runtime::{
    default_dll_path, default_procshim_path, loopback_translator, stage_into_rootfs, try_init,
    unique_shm_name, virtual_ip_for, NetstackError, NetstackRuntime,
};
use psroot::netstack::shim::{
    build_entries, hook_bind, hook_closesocket, hook_connect, hook_getpeername, hook_getsockname,
    hook_listen, hook_recv, hook_recvfrom, hook_send, hook_sendto, hook_socket, install,
    is_bypassed, load_original, received, sockaddr_from_raw, socket_done, status_to_wsa,
    write_sockaddr, AddrOut, BypassGuard, Hook, HookStep, InstallError, Originals, ShimState,
    FIRST_FAKE, WSAECONNABORTED, WSAECONNREFUSED, WSAEFAULT, WSAENOBUFS, WSAENOTSOCK,
    WSAEWOULDBLOCK,
};
use psroot::netstack::wire::{SockAddrBytes, StatusCode};

#[test]
fn ascii_cmp_is_case_insensitive() {
    assert!(ascii_eq_ignore_case(b"WS2_32.dll", b"ws2_32.dll"));
    assert!(!ascii_eq_ignore_case(b"ws2_32.dll", b"kernel32.dll"));
}

#[test]
fn strip_nul_removes_trailing() {
    assert_eq!(strip_nul(b"connect\0"), b"connect");
    assert_eq!(strip_nul(b"connect"), b"connect");
}

fn put(image: &mut Vec<u8>, at: usize, bytes: &[u8]) {
    image[at..at + bytes.len()].copy_from_slice(bytes);
}

/// An image that imports `connect`, number 7 and `send` from `WS2_32.dll`, and
/// `send` from another library.
fn sample_image() -> Vec<u8> {
    let mut i = vec![0u8; 1024];
    put(&mut i, 0, b"MZ");
    put(&mut i, 60, &128u32.to_le_bytes());
    put(&mut i, 128, b"PE\0\0");
    put(&mut i, 128 + 144, &400u32.to_le_bytes());
    put(&mut i, 128 + 148, &60u32.to_le_bytes());
    put(&mut i, 400, &500u32.to_le_bytes());
    put(&mut i, 412, &700u32.to_le_bytes());
    put(&mut i, 416, &600u32.to_le_bytes());
    put(&mut i, 420, &560u32.to_le_bytes());
    put(&mut i, 432, &720u32.to_le_bytes());
    put(&mut i, 436, &640u32.to_le_bytes());
    put(&mut i, 500, &740u64.to_le_bytes());
    put(&mut i, 508, &0x8000_0000_0000_0007u64.to_le_bytes());
    put(&mut i, 516, &760u64.to_le_bytes());
    put(&mut i, 560, &760u64.to_le_bytes());
    put(&mut i, 600, &11u64.to_le_bytes());
    put(&mut i, 616, &22u64.to_le_bytes());
    put(&mut i, 700, b"WS2_32.dll\0");
    put(&mut i, 720, b"other.dll\0");
    put(&mut i, 742, b"connect\0");
    put(&mut i, 762, b"send\0");
    i
}

#[test]
fn imports_are_found_by_name() {
    let image = sample_image();
    let hooks = vec![b"send\0".to_vec(), b"connect\0".to_vec()];
    let hits = find_slots(&image, b"ws2_32.dll", &hooks, true);
    assert_eq!(hits, vec![Hit { slot: 600, hook: 1 }, Hit { slot: 616, hook: 0 }]);
    assert_eq!(find_slots(&image, b"kernel32.dll", &hooks, true), vec![]);
    assert_eq!(find_slots(b"MZ", b"ws2_32.dll", &hooks, true), vec![]);
    let mut sizeless = image.clone();
    put(&mut sizeless, 128 + 148, &[0; 4]);
    assert_eq!(find_slots(&sizeless, b"ws2_32.dll", &hooks, true), vec![]);
    assert_eq!(find_slots(&sizeless, b"ws2_32.dll", &hooks, false).len(), 2);
    assert_eq!(cstr_bytes(&image, 742), b"connect".to_vec());
    assert_eq!(cstr_bytes(&image, 5000), Vec::<u8>::new());
}

#[test]
fn restoring_undoes_the_patch() {
    let image = sample_image();
    let hooks = vec![b"send\0".to_vec(), b"connect\0".to_vec()];
    let hits = find_slots(&image, b"ws2_32.dll", &hooks, true);
    let writes = patch_module(&image, &hits, &[1000, 2000]);
    assert_eq!((writes[0].slot, writes[0].before, writes[0].value), (600, 11, 2000));
    assert_eq!((writes[1].slot, writes[1].before, writes[1].value), (616, 22, 1000));
    let back = restore_module(&hits, &[22, 11]);
    assert_eq!(back, vec![(600, 11), (616, 22)]);
}

#[test]
fn all_winsock_functions_are_listed() {
    let entries = build_entries();
    assert_eq!(entries.len(), 11);
    assert_eq!(entries[0], Hook::Socket);
    assert_eq!(entries[0].name(), "socket");
    assert_eq!(entries[10].name(), "recvfrom");
    let mut o = Originals {
        socket: 0,
        connect: 0,
        send: 0,
        recv: 0,
        closesocket: 0,
        bind: 0,
        listen: 0,
        getsockname: 0,
        getpeername: 0,
        sendto: 0,
        recvfrom: 0,
    };
    o.set(Hook::Bind, 77);
    assert_eq!(load_original(o.get(Hook::Bind)), Some(77));
    assert_eq!(load_original(o.get(Hook::Listen)), None);
}

#[test]
fn sockets_get_numbers_of_their_own() {
    let mut st = ShimState::new();
    let a = socket_done(&mut st, Ok(5)).unwrap();
    let b = socket_done(&mut st, Ok(6)).unwrap();
    assert_eq!((a, b), (FIRST_FAKE, FIRST_FAKE + 1));
    assert_eq!(st.lookup(a), Some(5));
    assert_eq!(st.lookup(12), None);
    assert_eq!(socket_done(&mut st, Err(ClientError::Timeout)), Err(WSAENOBUFS));
    assert_eq!(st.forget(a), Some(5));
    assert_eq!(st.lookup(a), None);
    assert_eq!(st.forget(a), None);
}

#[test]
fn bypassed_and_foreign_calls_are_real() {
    let mut st = ShimState::new();
    let s = st.alloc_fake(5);
    assert!(st.has_room());
    let mut g = BypassGuard::outside();
    assert!(!is_bypassed(&g));
    assert!(matches!(hook_send(&st, &g, 99, Some(b"x"), 10), HookStep::Real));
    assert!(matches!(hook_socket(&g, 23, 1, 6), HookStep::Real));
    assert!(matches!(hook_socket(&g, 2, 3, 6), HookStep::Real));
    assert!(matches!(
        hook_socket(&g, 2, 1, -1),
        HookStep::Ask(0, Call::Socket { af: 2, typ: 1, proto: 0xffff_ffff })
    ));
    g.enter();
    assert!(is_bypassed(&g));
    assert!(matches!(hook_socket(&g, 2, 1, 6), HookStep::Real));
    assert!(matches!(hook_send(&st, &g, s, Some(b"x"), 10), HookStep::Real));
    assert!(matches!(hook_closesocket(&mut st, &g, s), HookStep::Real));
    assert_eq!(st.lookup(s), Some(5));
    g.leave();
    assert!(matches!(hook_closesocket(&mut st, &g, s), HookStep::Ask(5, Call::Close)));
    assert_eq!(st.lookup(s), None);
}

#[test]
fn calls_become_requests() {
    let mut st = ShimState::new();
    let s = st.alloc_fake(5);
    assert!(st.has_room());
    let g = BypassGuard::outside();
    let raw = [2, 0, 0x1f, 0x90, 10, 88, 0, 2, 0, 0, 0, 0, 0, 0, 0, 0];
    match hook_connect(&st, &g, s, Some(&raw)) {
        HookStep::Ask(5, Call::Connect { addr }) => {
            assert_eq!((addr.port, &addr.addr[..4]), (8080, &[10u8, 88, 0, 2][..]));
        }
        _ => panic!("no connection is asked for"),
    }
    assert!(matches!(hook_bind(&st, &g, s, Some(&raw)), HookStep::Ask(5, Call::Bind { .. })));
    assert!(matches!(hook_bind(&st, &g, s, None), HookStep::Fail(WSAEFAULT)));
    assert!(matches!(hook_connect(&st, &g, s, Some(&raw[..15])), HookStep::Fail(WSAEFAULT)));
    assert!(matches!(
        hook_listen(&st, &g, s, -3),
        HookStep::Ask(5, Call::Listen { backlog: 0 })
    ));
    match hook_send(&st, &g, s, Some(b"abcdef"), 4) {
        HookStep::Ask(5, Call::Send { data }) => assert_eq!(&data, b"abcd"),
        _ => panic!("nothing is sent"),
    }
    assert!(matches!(hook_send(&st, &g, s, None, 4), HookStep::Fail(WSAEFAULT)));
    assert!(matches!(hook_recv(&st, &g, s, Some(9)), HookStep::Ask(5, Call::Recv { max: 9 })));
    assert!(matches!(hook_recv(&st, &g, s, Some(0)), HookStep::Fail(WSAEFAULT)));
    assert!(matches!(
        hook_recvfrom(&st, &g, s, Some(9)),
        HookStep::Ask(5, Call::RecvFrom { max: 9 })
    ));
    match hook_sendto(&st, &g, s, Some(b"abcdef"), Some(&raw), 30) {
        HookStep::Ask(5, Call::SendTo { addr, data }) => {
            assert_eq!((addr.port, &data[..]), (8080, &b"ab"[..]));
        }
        _ => panic!("no datagram is sent"),
    }
    assert!(matches!(hook_getsockname(&st, &g, s), HookStep::Ask(5, Call::GetSockName)));
    assert!(matches!(hook_getpeername(&st, &g, s), HookStep::Ask(5, Call::GetPeerName)));
    assert_eq!(received(b"abcdef", 4), b"abcd".to_vec());
}

#[test]
fn raw_addresses_come_back() {
    let a = SockAddrBytes::v4([10, 88, 0, 2], 8080);
    match write_sockaddr(&a, Some(16)) {
        AddrOut::Written(bytes, 16) => {
            assert_eq!(&bytes[..8], &[2, 0, 0x1f, 0x90, 10, 88, 0, 2]);
            let back = sockaddr_from_raw(Some(&bytes)).unwrap();
            assert_eq!((back.port, &back.addr[..4]), (8080, &[10u8, 88, 0, 2][..]));
        }
        _ => panic!("the address is not written"),
    }
    assert!(matches!(write_sockaddr(&a, Some(15)), AddrOut::TooSmall(16)));
    assert!(matches!(write_sockaddr(&a, None), AddrOut::NoRoom));
}

#[test]
fn failures_become_winsock_errors() {
    assert_eq!(status_to_wsa(&ClientError::Status(StatusCode::ConnRefused)), WSAECONNREFUSED);
    assert_eq!(status_to_wsa(&ClientError::Status(StatusCode::WouldBlock)), WSAEWOULDBLOCK);
    assert_eq!(status_to_wsa(&ClientError::Status(StatusCode::BadSocket)), WSAENOTSOCK);
    assert_eq!(status_to_wsa(&ClientError::Timeout), WSAECONNABORTED);
    assert_eq!(status_to_wsa(&ClientError::Protocol(Malformed::RingError)), WSAECONNABORTED);
    assert_eq!(install(false, &[0, 2]), Ok(()));
    assert_eq!(install(false, &[0, 0]), Err(InstallError::NoImportsFound));
    assert_eq!(install(true, &[2]), Err(InstallError::AlreadyInstalled));
}

#[test]
fn container_addresses() {
    let h = b"abc".iter().fold(0u32, |h, b| h.wrapping_mul(31).wrapping_add(*b as u32));
    assert_eq!(virtual_ip_for("abc"), [10, 88, 0, (h % 250 + 2) as u8]);
    assert_eq!(virtual_ip_for(""), [10, 88, 0, 2]);
    let own = HostAddr::V4 { ip: [10, 88, 0, 9], port: 80 };
    assert!(matches!(
        loopback_translator([10, 88, 0, 9], &own),
        Some(HostAddr::V4 { ip: [127, 0, 0, 1], port: 80 })
    ));
    assert!(loopback_translator([10, 88, 0, 8], &own).is_none());
    let six = HostAddr::V6 { ip: [0; 16], port: 80, flow: 0, scope: 0 };
    assert!(loopback_translator([10, 88, 0, 9], &six).is_none());
}

#[test]
fn children_attach_to_their_network() {
    let n = NetstackRuntime::spawn(
        "web", "C:\\bin\\psroot_netshim.dll", true, [10, 88, 0, 9], 4096, 12, 3456,
    )
    .unwrap();
    assert_eq!(n.shm_name, "Local\\psroot-ns-web-12-3456");
    assert_eq!(unique_shm_name("web", 12, 3456), n.shm_name);
    assert_eq!(n.virtual_ip(), [10, 88, 0, 9]);
    let env = n.child_env();
    assert_eq!(env[0], ("PSROOT_NS_NAME".to_string(), n.shm_name.clone()));
    assert_eq!(env[1], ("PSROOT_NS_SIZE".to_string(), "4096".to_string()));
    assert!(try_init(Some(&env[0].1), Some(&env[1].1), 4096));
    assert!(!try_init(Some(&env[0].1), Some(&env[1].1), 4097));
    assert!(!try_init(None, Some(&env[1].1), 4096));
    assert!(!try_init(Some(&env[0].1), Some("x"), 4096));
    assert_eq!(n.inject_into().stage, Stage::FindKernel);
    let missing = NetstackRuntime::spawn("web", "C:\\none.dll", false, [1, 2, 3, 4], 1, 1, 1);
    assert_eq!(missing.unwrap_err().message(), "netstack shim DLL not found: C:\\none.dll");
    assert_eq!(NetstackError::Shm("full".to_string()).message(), "netstack SHM: full");
    assert_eq!(
        NetstackError::Inject(InjectError::PathHasNul, "nul".to_string()).message(),
        "netstack inject: nul"
    );
    assert_eq!(default_dll_path("C:\\bin\\psroot.exe"), "C:\\bin\\psroot_netshim.dll");
    assert_eq!(default_procshim_path("C:\\bin\\psroot.exe"), "C:\\bin\\psroot_procshim.dll");
    assert_eq!(
        stage_into_rootfs("C:\\r"),
        "C:\\r\\Windows\\System32\\psroot_procshim.dll"
    );
}

fn run(path: &str, events: &[Event]) -> Action {
    let mut i = Injection::inject_dll(path);
    for e in events {
        let a = i.next(*e);
        if a != Action::Continue {
            return a;
        }
    }
    Action::Continue
}

fn finish(result: Result<(), InjectError>, free_memory: bool, close_thread: bool) -> Action {
    Action::Finish { result, free_memory, close_thread }
}

#[test]
fn injection_runs_through() {
    let d = Event::Done;
    let written = Event::Value { value: 12, code: 0 };
    let loaded = Event::Value { value: 1, code: 0 };
    assert_eq!(run("a.dll", &[d, d, d, written, d, d, loaded]), finish(Ok(()), true, true));
    assert_eq!(
        run("a.dll", &[d, d, d, written, d, d, Event::Value { value: 0, code: 0 }]),
        finish(Err(InjectError::LoadLibraryFailed), true, true)
    );
}

#[test]
fn injection_releases_what_it_took() {
    let d = Event::Done;
    let f = Event::Failed(5);
    let w = Event::Value { value: 12, code: 0 };
    let fails = |call: RemoteCall| Err(InjectError::Win32(call, 5));
    assert_eq!(run("a.dll", &[f]), finish(Err(InjectError::KernelNotLoaded), false, false));
    assert_eq!(run("a.dll", &[d, f]), finish(Err(InjectError::LoadLibraryNotFound), false, false));
    assert_eq!(run("a\0dll", &[d, d]), finish(Err(InjectError::PathHasNul), false, false));
    assert_eq!(run("a.dll", &[d, d, f]), finish(fails(RemoteCall::Allocate), false, false));
    assert_eq!(run("a.dll", &[d, d, d, f]), finish(fails(RemoteCall::Write), true, false));
    assert_eq!(
        run("a.dll", &[d, d, d, Event::Value { value: 11, code: 5 }]),
        finish(fails(RemoteCall::Write), true, false)
    );
    assert_eq!(run("a.dll", &[d, d, d, w, f]), finish(fails(RemoteCall::StartThread), true, false));
    assert_eq!(run("a.dll", &[d, d, d, w, d, f]), finish(fails(RemoteCall::Wait), true, true));
    assert_eq!(
        run("a.dll", &[d, d, d, w, d, d, f]),
        finish(fails(RemoteCall::ExitCode), true, true)
    );
    assert_eq!(RemoteCall::Wait.name(), "WaitForSingleObject");
}
