//! What the shim does with the Winsock calls of a container.
//!
//! A call on a socket that the shim made becomes a request to the daemon; every
//! other call goes to the operating system, and so does every call of a thread
//! that is serving a call already (a thread inside the shim or the daemon uses
//! real sockets itself). The sockets that the shim hands out are numbers that
//! the operating system has never seen.

use crate::netstack::client::ClientError;
use crate::netstack::daemon::{Call, HostCall};
use crate::netstack::wire::{
    addr_v4, SockAddr, SockAddrBytes, StatusCode, AF_INET_V, SOCKADDR_SIZE, SOCK_DGRAM_V,
    SOCK_STREAM_V,
};
use std::collections::HashMap;
use vstd::prelude::*;

verus! {

broadcast use vstd::std_specs::hash::group_hash_axioms;

pub const WSAEFAULT: i32 = 10014;

pub const WSAEINVAL: i32 = 10022;

pub const WSAEWOULDBLOCK: i32 = 10035;

pub const WSAENOTSOCK: i32 = 10038;

pub const WSAEADDRINUSE: i32 = 10048;

pub const WSAEADDRNOTAVAIL: i32 = 10049;

pub const WSAECONNABORTED: i32 = 10053;

pub const WSAECONNRESET: i32 = 10054;

pub const WSAENOBUFS: i32 = 10055;

pub const WSAENOTCONN: i32 = 10057;

pub const WSAECONNREFUSED: i32 = 10061;

/// The size of an IPv4 `SOCKADDR_IN`.
pub const SOCKADDR_IN_SIZE: usize = 16;

/// The first socket number that is handed out, above those of real sockets.
pub const FIRST_FAKE: u64 = 0x1_0000_0000;

/// How deep a thread is inside the shim or the daemon.
#[derive(Clone, Copy, Debug)]
pub struct BypassGuard {
    pub depth: u32,
}

impl BypassGuard {
    /// A thread that is outside.
    pub fn outside() -> (g: Self)
        ensures
            g.depth == 0,
    {
        BypassGuard { depth: 0 }
    }

    /// Goes one deeper.
    pub fn enter(&mut self)
        requires
            old(self).depth < u32::MAX,
        ensures
            final(self).depth == entered(old(self).depth as nat),
    {
        self.depth = self.depth + 1;
    }

    /// Comes back out by one; a thread that is outside stays there.
    pub fn leave(&mut self)
        ensures
            final(self).depth == left(old(self).depth as nat),
    {
        self.depth = self.depth.saturating_sub(1);
    }
}

/// How deep a thread is after it went one deeper.
pub open spec fn entered(depth: nat) -> nat {
    depth + 1
}

/// How deep a thread is after it came back out by one.
pub open spec fn left(depth: nat) -> nat {
    if depth > 0 {
        (depth - 1) as nat
    } else {
        0
    }
}

/// Whether the calls of a thread that is this deep go to the operating system.
pub open spec fn bypassed(depth: nat) -> bool {
    depth > 0
}

/// Whether a thread's calls go to the operating system.
pub fn is_bypassed(guard: &BypassGuard) -> (b: bool)
    ensures
        b == bypassed(guard.depth as nat),
{
    guard.depth > 0
}

/// A guard that a thread made, or one that it let go.
pub struct GuardEvent {
    pub thread: int,
    pub made: bool,
}

/// How deep a thread is after the events.
pub open spec fn depth_after(events: Seq<GuardEvent>, thread: int) -> nat
    decreases events.len(),
{
    if events.len() == 0 {
        0
    } else {
        let before = depth_after(events.drop_last(), thread);
        if events.last().thread != thread {
            before
        } else if events.last().made {
            entered(before)
        } else {
            left(before)
        }
    }
}

/// How many guards a thread has made and not let go.
pub open spec fn guards_alive(events: Seq<GuardEvent>, thread: int) -> int
    decreases events.len(),
{
    if events.len() == 0 {
        0
    } else {
        let before = guards_alive(events.drop_last(), thread);
        if events.last().thread != thread {
            before
        } else if events.last().made {
            before + 1
        } else {
            before - 1
        }
    }
}

/// A thread is bypassed exactly while it has a guard, however its guards follow
/// one another and whatever other threads do. A guard is let go only once.
pub proof fn law_bypassed_while_guarded(events: Seq<GuardEvent>, thread: int)
    requires
        forall|k: int|
            0 <= k <= events.len() ==> guards_alive(#[trigger] events.take(k), thread) >= 0,
    ensures
        depth_after(events, thread) == guards_alive(events, thread),
        bypassed(depth_after(events, thread)) <==> guards_alive(events, thread) > 0,
    decreases events.len(),
{
    assert(events.take(events.len() as int) =~= events);
    if events.len() > 0 {
        let init = events.drop_last();
        assert forall|k: int| 0 <= k <= init.len() implies guards_alive(
            #[trigger] init.take(k),
            thread,
        ) >= 0 by {
            assert(init.take(k) =~= events.take(k));
        }
        law_bypassed_while_guarded(init, thread);
    }
}

/// The Winsock functions that are replaced.
#[derive(Clone, Copy, Debug, PartialEq, Eq, Structural)]
pub enum Hook {
    Socket,
    Connect,
    Send,
    Recv,
    CloseSocket,
    Bind,
    Listen,
    GetSockName,
    GetPeerName,
    SendTo,
    RecvFrom,
}

/// The functions in the order in which they are patched.
pub open spec fn all_hooks() -> Seq<Hook> {
    seq![
        Hook::Socket,
        Hook::Connect,
        Hook::Send,
        Hook::Recv,
        Hook::CloseSocket,
        Hook::Bind,
        Hook::Listen,
        Hook::GetSockName,
        Hook::GetPeerName,
        Hook::SendTo,
        Hook::RecvFrom,
    ]
}

/// Every function that is replaced is patched.
pub proof fn law_all_hooks_listed(h: Hook)
    ensures
        all_hooks().contains(h),
{
    let s = all_hooks();
    match h {
        Hook::Socket => assert(s[0] == h),
        Hook::Connect => assert(s[1] == h),
        Hook::Send => assert(s[2] == h),
        Hook::Recv => assert(s[3] == h),
        Hook::CloseSocket => assert(s[4] == h),
        Hook::Bind => assert(s[5] == h),
        Hook::Listen => assert(s[6] == h),
        Hook::GetSockName => assert(s[7] == h),
        Hook::GetPeerName => assert(s[8] == h),
        Hook::SendTo => assert(s[9] == h),
        Hook::RecvFrom => assert(s[10] == h),
    }
}

/// The functions in the order in which they are patched.
pub fn build_entries() -> (v: Vec<Hook>)
    ensures
        v@ == all_hooks(),
{
    let v = vec![
        Hook::Socket,
        Hook::Connect,
        Hook::Send,
        Hook::Recv,
        Hook::CloseSocket,
        Hook::Bind,
        Hook::Listen,
        Hook::GetSockName,
        Hook::GetPeerName,
        Hook::SendTo,
        Hook::RecvFrom,
    ];
    assert(v@ =~= all_hooks());
    v
}

impl Hook {
    /// The name of the function as Winsock exports it.
    pub open spec fn export(self) -> Seq<char> {
        match self {
            Hook::Socket => "socket"@,
            Hook::Connect => "connect"@,
            Hook::Send => "send"@,
            Hook::Recv => "recv"@,
            Hook::CloseSocket => "closesocket"@,
            Hook::Bind => "bind"@,
            Hook::Listen => "listen"@,
            Hook::GetSockName => "getsockname"@,
            Hook::GetPeerName => "getpeername"@,
            Hook::SendTo => "sendto"@,
            Hook::RecvFrom => "recvfrom"@,
        }
    }

    pub fn name(&self) -> (s: &'static str)
        ensures
            s@ == self.export(),
    {
        match self {
            Hook::Socket => "socket",
            Hook::Connect => "connect",
            Hook::Send => "send",
            Hook::Recv => "recv",
            Hook::CloseSocket => "closesocket",
            Hook::Bind => "bind",
            Hook::Listen => "listen",
            Hook::GetSockName => "getsockname",
            Hook::GetPeerName => "getpeername",
            Hook::SendTo => "sendto",
            Hook::RecvFrom => "recvfrom",
        }
    }

    /// The error of a call that has to go to the operating system while the
    /// original function is not known; closing succeeds without an error.
    pub open spec fn missing(self) -> Option<i32> {
        match self {
            Hook::Socket | Hook::Connect | Hook::Bind | Hook::Listen => Some(WSAEINVAL),
            Hook::Send | Hook::Recv | Hook::SendTo | Hook::RecvFrom => Some(WSAENOTCONN),
            Hook::GetSockName | Hook::GetPeerName => Some(WSAENOTSOCK),
            Hook::CloseSocket => None,
        }
    }

    pub fn missing_original(&self) -> (e: Option<i32>)
        ensures
            e == self.missing(),
    {
        match self {
            Hook::Socket => Some(WSAEINVAL),
            Hook::Connect => Some(WSAEINVAL),
            Hook::Bind => Some(WSAEINVAL),
            Hook::Listen => Some(WSAEINVAL),
            Hook::Send => Some(WSAENOTCONN),
            Hook::Recv => Some(WSAENOTCONN),
            Hook::SendTo => Some(WSAENOTCONN),
            Hook::RecvFrom => Some(WSAENOTCONN),
            Hook::GetSockName => Some(WSAENOTSOCK),
            Hook::GetPeerName => Some(WSAENOTSOCK),
            Hook::CloseSocket => None,
        }
    }
}

/// The addresses of the original functions; 0 where none was recorded.
#[derive(Clone, Copy, Debug)]
pub struct Originals {
    pub socket: usize,
    pub connect: usize,
    pub send: usize,
    pub recv: usize,
    pub closesocket: usize,
    pub bind: usize,
    pub listen: usize,
    pub getsockname: usize,
    pub getpeername: usize,
    pub sendto: usize,
    pub recvfrom: usize,
}

impl Default for Originals {
    fn default() -> (o: Self)
        ensures
            forall|h: Hook| o.slot(h) == 0,
    {
        Originals {
            socket: 0,
            connect: 0,
            send: 0,
            recv: 0,
            closesocket: 0,
            bind: 0,
            listen: 0,
            getsockname: 0,
            getpeername: 0,
            sendto: 0,
            recvfrom: 0,
        }
    }
}

impl Originals {
    pub open spec fn slot(self, h: Hook) -> usize {
        match h {
            Hook::Socket => self.socket,
            Hook::Connect => self.connect,
            Hook::Send => self.send,
            Hook::Recv => self.recv,
            Hook::CloseSocket => self.closesocket,
            Hook::Bind => self.bind,
            Hook::Listen => self.listen,
            Hook::GetSockName => self.getsockname,
            Hook::GetPeerName => self.getpeername,
            Hook::SendTo => self.sendto,
            Hook::RecvFrom => self.recvfrom,
        }
    }

    /// The recorded address of a function, 0 where none was.
    pub fn get(&self, h: Hook) -> (a: usize)
        ensures
            a == self.slot(h),
    {
        match h {
            Hook::Socket => self.socket,
            Hook::Connect => self.connect,
            Hook::Send => self.send,
            Hook::Recv => self.recv,
            Hook::CloseSocket => self.closesocket,
            Hook::Bind => self.bind,
            Hook::Listen => self.listen,
            Hook::GetSockName => self.getsockname,
            Hook::GetPeerName => self.getpeername,
            Hook::SendTo => self.sendto,
            Hook::RecvFrom => self.recvfrom,
        }
    }

    /// Records the address of a function.
    pub fn set(&mut self, h: Hook, address: usize)
        ensures
            final(self).slot(h) == address,
            forall|g: Hook| g != h ==> #[trigger] final(self).slot(g) == old(self).slot(g),
    {
        match h {
            Hook::Socket => self.socket = address,
            Hook::Connect => self.connect = address,
            Hook::Send => self.send = address,
            Hook::Recv => self.recv = address,
            Hook::CloseSocket => self.closesocket = address,
            Hook::Bind => self.bind = address,
            Hook::Listen => self.listen = address,
            Hook::GetSockName => self.getsockname = address,
            Hook::GetPeerName => self.getpeername = address,
            Hook::SendTo => self.sendto = address,
            Hook::RecvFrom => self.recvfrom = address,
        }
    }
}

/// The original function at a recorded address, if one was recorded.
pub fn load_original(slot: usize) -> (f: Option<usize>)
    ensures
        f == (if slot == 0 {
            None::<usize>
        } else {
            Some(slot)
        }),
{
    if slot == 0 {
        None
    } else {
        Some(slot)
    }
}

/// The sockets that the shim has handed out, with the daemon's ids for them.
pub struct ShimState {
    sockets: HashMap<u64, u32>,
    next_fake: u64,
}

impl View for ShimState {
    type V = Map<u64, u32>;

    closed spec fn view(&self) -> Map<u64, u32> {
        self.sockets@
    }
}

impl ShimState {
    /// The next socket number that is handed out.
    pub closed spec fn next(self) -> u64 {
        self.next_fake
    }

    /// Every number that was handed out is below the next one.
    pub open spec fn wf(self) -> bool {
        &&& FIRST_FAKE <= self.next()
        &&& forall|s: u64| #[trigger] self@.contains_key(s) ==> FIRST_FAKE <= s < self.next()
    }

    pub fn new() -> (st: Self)
        ensures
            st.wf(),
            st@ == Map::<u64, u32>::empty(),
            st.next() == FIRST_FAKE,
    {
        ShimState { sockets: HashMap::new(), next_fake: FIRST_FAKE }
    }

    /// Whether a socket number is left to hand out.
    pub fn has_room(&self) -> (r: bool)
        ensures
            r == (self.next() < u64::MAX),
    {
        self.next_fake < u64::MAX
    }

    /// A socket number for the daemon's socket `virt`. It was not handed out
    /// before.
    pub fn alloc_fake(&mut self, virt: u32) -> (s: u64)
        requires
            old(self).wf(),
            old(self).next() < u64::MAX,
        ensures
            final(self).wf(),
            s == old(self).next(),
            final(self).next() == s + 1,
            !old(self)@.contains_key(s),
            final(self)@ == old(self)@.insert(s, virt),
    {
        let s: u64 = self.next_fake;
        self.next_fake = s + 1;
        self.sockets.insert(s, virt);
        proof {
            assert forall|k: u64| #[trigger] self@.contains_key(k) implies FIRST_FAKE <= k
                < self.next() by {
                assert(k == s || old(self)@.contains_key(k));
            }
        }
        s
    }

    /// The daemon's id for a socket, if the shim handed it out.
    pub fn lookup(&self, s: u64) -> (r: Option<u32>)
        ensures
            r == self.virt(s),
    {
        match self.sockets.get(&s) {
            Some(v) => Some(*v),
            None => None,
        }
    }

    /// The daemon's id for a socket.
    pub open spec fn virt(self, s: u64) -> Option<u32> {
        if self@.contains_key(s) {
            Some(self@[s])
        } else {
            None
        }
    }

    /// Forgets a socket.
    pub fn forget(&mut self, s: u64) -> (r: Option<u32>)
        requires
            old(self).wf(),
        ensures
            final(self).wf(),
            r == old(self).virt(s),
            final(self)@ == old(self)@.remove(s),
            final(self).next() == old(self).next(),
    {
        self.sockets.remove(&s)
    }
}

/// What becomes of a Winsock call: `C` is a request to the daemon.
pub enum HookStep<C> {
    /// It goes to the operating system.
    Real,
    /// It fails with this error.
    Fail(i32),
    /// The daemon is asked about its socket.
    Ask(u32, C),
}

pub type ShimStep = HookStep<HostCall>;

impl View for HookStep<HostCall> {
    type V = HookStep<Call<SockAddr, Seq<u8>, Seq<char>>>;

    open spec fn view(&self) -> HookStep<Call<SockAddr, Seq<u8>, Seq<char>>> {
        match self {
            HookStep::Real => HookStep::Real,
            HookStep::Fail(e) => HookStep::Fail(*e),
            HookStep::Ask(s, c) => HookStep::Ask(*s, c@),
        }
    }
}

pub type StepModel = HookStep<Call<SockAddr, Seq<u8>, Seq<char>>>;

/// The daemon's id of the socket of a call that does not go to the operating
/// system.
pub open spec fn routed(state: ShimState, guard: BypassGuard, s: u64) -> Option<u32> {
    if guard.depth > 0 {
        None
    } else {
        state.virt(s)
    }
}

fn route(state: &ShimState, guard: &BypassGuard, s: u64) -> (r: Option<u32>)
    ensures
        r == routed(*state, *guard, s),
{
    if is_bypassed(guard) {
        None
    } else {
        state.lookup(s)
    }
}

/// The unsigned number with the bits of `x`.
pub open spec fn unsigned(x: i32) -> u32 {
    if x >= 0 {
        x as u32
    } else {
        (x + 0x1_0000_0000) as u32
    }
}

/// The step of `socket`: IPv4 stream and datagram sockets are the daemon's.
pub open spec fn opening(depth: u32, af: i32, typ: i32, proto: i32) -> StepModel {
    if depth > 0 || af != AF_INET_V || (typ != SOCK_STREAM_V && typ != SOCK_DGRAM_V) {
        HookStep::Real
    } else {
        HookStep::Ask(0, Call::Socket { af: AF_INET_V, typ: typ as u16, proto: unsigned(proto) })
    }
}

/// `socket`: IPv4 stream and datagram sockets are the daemon's.
pub fn hook_socket(guard: &BypassGuard, af: i32, typ: i32, proto: i32) -> (step: ShimStep)
    ensures
        step@ == opening(guard.depth, af, typ, proto),
{
    if is_bypassed(guard) || af != AF_INET_V as i32 || (typ != SOCK_STREAM_V as i32 && typ
        != SOCK_DGRAM_V as i32) {
        return HookStep::Real;
    }
    let p: u32 = if proto >= 0 {
        proto as u32
    } else {
        (proto as i64 + 0x1_0000_0000) as u32
    };
    HookStep::Ask(0, Call::Socket { af: AF_INET_V, typ: typ as u16, proto: p })
}

/// The socket that a `socket` call returns; the error is the one that it fails
/// with.
pub fn socket_done(state: &mut ShimState, r: Result<u32, ClientError>) -> (s: Result<u64, i32>)
    requires
        old(state).wf(),
        old(state).next() < u64::MAX,
    ensures
        final(state).wf(),
        match r {
            Ok(virt) => {
                &&& s == Ok::<u64, i32>(old(state).next())
                &&& final(state)@ == old(state)@.insert(old(state).next(), virt)
                &&& final(state).next() == old(state).next() + 1
            },
            Err(_) => s == Err::<u64, i32>(WSAENOBUFS) && final(state)@ == old(state)@
                && final(state).next() == old(state).next(),
        },
{
    match r {
        Ok(virt) => Ok(state.alloc_fake(virt)),
        Err(_) => Err(WSAENOBUFS),
    }
}

/// The IPv4 address in a `SOCKADDR_IN`: family low byte first, port high byte
/// first, then the four octets.
pub open spec fn raw_addr(name: Option<Seq<u8>>) -> Option<SockAddr> {
    match name {
        Some(b) => if b.len() >= SOCKADDR_IN_SIZE && b[0] == AF_INET_V && b[1] == 0 {
            Some(addr_v4(b.subrange(4, 8), (256 * b[2] + b[3]) as u16))
        } else {
            None
        },
        None => None,
    }
}

/// The bytes that a caller passed, if it passed any.
pub open spec fn given(name: Option<&[u8]>) -> Option<Seq<u8>> {
    match name {
        Some(b) => Some(b@),
        None => None,
    }
}

/// The IPv4 address in the bytes of a `SOCKADDR` that a caller passed.
pub fn sockaddr_from_raw(name: Option<&[u8]>) -> (a: Option<SockAddrBytes>)
    ensures
        match a {
            Some(v) => raw_addr(given(name)) == Some(v@),
            None => raw_addr(given(name)) is None,
        },
{
    match name {
        None => None,
        Some(b) => {
            if b.len() < SOCKADDR_IN_SIZE {
                return None;
            }
            if b[0] as u16 != AF_INET_V || b[1] != 0 {
                return None;
            }
            let port: u16 = 256 * (b[2] as u16) + b[3] as u16;
            let octets: [u8; 4] = [b[4], b[5], b[6], b[7]];
            assert(octets@ =~= b@.subrange(4, 8));
            Some(SockAddrBytes::v4(octets, port))
        },
    }
}

/// The bytes of the `SOCKADDR_IN` of an address.
pub open spec fn sockaddr_in(a: SockAddr) -> Seq<u8> {
    seq![AF_INET_V as u8, 0u8, (a.port / 256) as u8, (a.port % 256) as u8] + a.addr.take(4)
        + Seq::new(8, |i: int| 0u8)
}

/// An IPv4 address that was written for a caller is read back from the bytes.
pub proof fn law_sockaddr_in_round_trip(octets: Seq<u8>, port: u16)
    requires
        octets.len() == 4,
    ensures
        raw_addr(Some(sockaddr_in(addr_v4(octets, port)))) == Some(addr_v4(octets, port)),
{
    let a = addr_v4(octets, port);
    let b = sockaddr_in(a);
    assert(a.addr.take(4) =~= octets);
    assert(b.subrange(4, 8) =~= octets);
}

/// What is written where a caller asked for an address.
pub enum AddrOut {
    /// Nothing: the caller gave no room. The error is `WSAEFAULT`.
    NoRoom,
    /// Only the size that would be needed. The error is `WSAEFAULT`.
    TooSmall(i32),
    /// The address, with its size.
    Written(Vec<u8>, i32),
}

/// The address for a caller that left room for `room` bytes; `None` where it
/// gave no place for the address or for its size.
pub fn write_sockaddr(addr: &SockAddrBytes, room: Option<i32>) -> (out: AddrOut)
    ensures
        match (room, out) {
            (None, AddrOut::NoRoom) => true,
            (Some(n), AddrOut::TooSmall(needed)) => n < SOCKADDR_IN_SIZE && needed
                == SOCKADDR_IN_SIZE,
            (Some(n), AddrOut::Written(b, size)) => n >= SOCKADDR_IN_SIZE && b@ == sockaddr_in(
                addr@,
            ) && size == SOCKADDR_IN_SIZE,
            _ => false,
        },
{
    match room {
        None => AddrOut::NoRoom,
        Some(n) => {
            if n < SOCKADDR_IN_SIZE as i32 {
                return AddrOut::TooSmall(SOCKADDR_IN_SIZE as i32);
            }
            let b: Vec<u8> = vec![
                AF_INET_V as u8,
                0,
                (addr.port / 256) as u8,
                (addr.port % 256) as u8,
                addr.addr[0],
                addr.addr[1],
                addr.addr[2],
                addr.addr[3],
                0,
                0,
                0,
                0,
                0,
                0,
                0,
                0,
            ];
            assert(b@ =~= sockaddr_in(addr@));
            AddrOut::Written(b, SOCKADDR_IN_SIZE as i32)
        },
    }
}

/// The step of a call that passes an address.
pub open spec fn addressed(virt: Option<u32>, name: Option<Seq<u8>>, connect: bool) -> StepModel {
    match virt {
        None => HookStep::Real,
        Some(v) => match raw_addr(name) {
            None => HookStep::Fail(WSAEFAULT),
            Some(addr) => HookStep::Ask(
                v,
                if connect {
                    Call::Connect { addr }
                } else {
                    Call::Bind { addr }
                },
            ),
        },
    }
}

pub fn hook_connect(state: &ShimState, guard: &BypassGuard, s: u64, name: Option<&[u8]>) -> (step:
    ShimStep)
    ensures
        step@ == addressed(routed(*state, *guard, s), given(name), true),
{
    match route(state, guard, s) {
        None => HookStep::Real,
        Some(virt) => match sockaddr_from_raw(name) {
            None => HookStep::Fail(WSAEFAULT),
            Some(addr) => HookStep::Ask(virt, Call::Connect { addr }),
        },
    }
}

pub fn hook_bind(state: &ShimState, guard: &BypassGuard, s: u64, name: Option<&[u8]>) -> (step:
    ShimStep)
    ensures
        step@ == addressed(routed(*state, *guard, s), given(name), false),
{
    match route(state, guard, s) {
        None => HookStep::Real,
        Some(virt) => match sockaddr_from_raw(name) {
            None => HookStep::Fail(WSAEFAULT),
            Some(addr) => HookStep::Ask(virt, Call::Bind { addr }),
        },
    }
}

/// The step of `listen`: a negative backlog counts as none.
pub open spec fn listening(virt: Option<u32>, backlog: i32) -> StepModel {
    match virt {
        None => HookStep::Real,
        Some(v) => HookStep::Ask(
            v,
            Call::Listen {
                backlog: if backlog >= 0 {
                    backlog as u32
                } else {
                    0
                },
            },
        ),
    }
}

/// `listen`: a negative backlog counts as none.
pub fn hook_listen(state: &ShimState, guard: &BypassGuard, s: u64, backlog: i32) -> (step: ShimStep)
    ensures
        step@ == listening(routed(*state, *guard, s), backlog),
{
    match route(state, guard, s) {
        None => HookStep::Real,
        Some(virt) => {
            let n: u32 = if backlog >= 0 {
                backlog as u32
            } else {
                0
            };
            HookStep::Ask(virt, Call::Listen { backlog: n })
        },
    }
}

/// At most the first `n` bytes.
pub open spec fn head(s: Seq<u8>, n: int) -> Seq<u8> {
    if s.len() <= n {
        s
    } else {
        s.take(n)
    }
}

fn head_of(buf: &[u8], n: usize) -> (v: Vec<u8>)
    ensures
        v@ == head(buf@, n as int),
{
    let end: usize = if buf.len() <= n {
        buf.len()
    } else {
        n
    };
    let mut v: Vec<u8> = Vec::new();
    let mut i: usize = 0;
    while i < end
        invariant
            i <= end <= buf.len(),
            v@ == buf@.take(i as int),
        decreases end - i,
    {
        v.push(buf[i]);
        i = i + 1;
    }
    assert(buf@.take(end as int) =~= head(buf@, n as int));
    v
}

/// The step of `send`: the bytes that fit one message.
pub open spec fn sending(virt: Option<u32>, buf: Option<Seq<u8>>, capacity: int) -> StepModel {
    match virt {
        None => HookStep::Real,
        Some(v) => match buf {
            None => HookStep::Fail(WSAEFAULT),
            Some(b) => HookStep::Ask(v, Call::Send { data: head(b, capacity) }),
        },
    }
}

/// `send`: the bytes that fit one message. `buf` is what the caller passed, or
/// nothing where it passed no buffer or a negative length.
pub fn hook_send(
    state: &ShimState,
    guard: &BypassGuard,
    s: u64,
    buf: Option<&[u8]>,
    capacity: usize,
) -> (step: ShimStep)
    ensures
        step@ == sending(routed(*state, *guard, s), given(buf), capacity as int),
{
    match route(state, guard, s) {
        None => HookStep::Real,
        Some(virt) => match buf {
            None => HookStep::Fail(WSAEFAULT),
            Some(b) => HookStep::Ask(virt, Call::Send { data: head_of(b, capacity) }),
        },
    }
}

/// The step of a call that receives.
pub open spec fn receiving(virt: Option<u32>, len: Option<i32>, from: bool) -> StepModel {
    match virt {
        None => HookStep::Real,
        Some(v) => match len {
            None => HookStep::Fail(WSAEFAULT),
            Some(n) => if n <= 0 {
                HookStep::Fail(WSAEFAULT)
            } else {
                HookStep::Ask(
                    v,
                    if from {
                        Call::RecvFrom { max: n as u32 }
                    } else {
                        Call::Recv { max: n as u32 }
                    },
                )
            },
        },
    }
}

/// `recv` into a buffer of `len` bytes; `None` where the caller passed none.
pub fn hook_recv(state: &ShimState, guard: &BypassGuard, s: u64, len: Option<i32>) -> (step:
    ShimStep)
    ensures
        step@ == receiving(routed(*state, *guard, s), len, false),
{
    match route(state, guard, s) {
        None => HookStep::Real,
        Some(virt) => match len {
            None => HookStep::Fail(WSAEFAULT),
            Some(n) => if n <= 0 {
                HookStep::Fail(WSAEFAULT)
            } else {
                HookStep::Ask(virt, Call::Recv { max: n as u32 })
            },
        },
    }
}

/// `recvfrom` into a buffer of `len` bytes; `None` where the caller passed none.
pub fn hook_recvfrom(state: &ShimState, guard: &BypassGuard, s: u64, len: Option<i32>) -> (step:
    ShimStep)
    ensures
        step@ == receiving(routed(*state, *guard, s), len, true),
{
    match route(state, guard, s) {
        None => HookStep::Real,
        Some(virt) => match len {
            None => HookStep::Fail(WSAEFAULT),
            Some(n) => if n <= 0 {
                HookStep::Fail(WSAEFAULT)
            } else {
                HookStep::Ask(virt, Call::RecvFrom { max: n as u32 })
            },
        },
    }
}

/// What a receiving call copies into a buffer of `len` bytes.
pub fn received(data: &[u8], len: i32) -> (v: Vec<u8>)
    requires
        len > 0,
    ensures
        v@ == head(data@, len as int),
{
    head_of(data, len as usize)
}

/// The step of a call that passes nothing but its socket.
pub open spec fn asking(virt: Option<u32>, call: Call<SockAddr, Seq<u8>, Seq<char>>) -> StepModel {
    match virt {
        None => HookStep::Real,
        Some(v) => HookStep::Ask(v, call),
    }
}

/// The request of such a call.
pub open spec fn bare_call(hook: Hook) -> Call<SockAddr, Seq<u8>, Seq<char>> {
    match hook {
        Hook::CloseSocket => Call::Close,
        Hook::GetSockName => Call::GetSockName,
        _ => Call::GetPeerName,
    }
}

/// `closesocket`: the shim's socket is forgotten before the daemon is asked.
pub fn hook_closesocket(state: &mut ShimState, guard: &BypassGuard, s: u64) -> (step: ShimStep)
    requires
        old(state).wf(),
    ensures
        final(state).wf(),
        final(state)@ == (if guard.depth > 0 {
            old(state)@
        } else {
            old(state)@.remove(s)
        }),
        final(state).next() == old(state).next(),
        step@ == asking(routed(*old(state), *guard, s), bare_call(Hook::CloseSocket)),
{
    if is_bypassed(guard) {
        return HookStep::Real;
    }
    match state.forget(s) {
        None => HookStep::Real,
        Some(virt) => HookStep::Ask(virt, Call::Close),
    }
}

pub fn hook_getsockname(state: &ShimState, guard: &BypassGuard, s: u64) -> (step: ShimStep)
    ensures
        step@ == asking(routed(*state, *guard, s), bare_call(Hook::GetSockName)),
{
    match route(state, guard, s) {
        None => HookStep::Real,
        Some(virt) => HookStep::Ask(virt, Call::GetSockName),
    }
}

pub fn hook_getpeername(state: &ShimState, guard: &BypassGuard, s: u64) -> (step: ShimStep)
    ensures
        step@ == asking(routed(*state, *guard, s), bare_call(Hook::GetPeerName)),
{
    match route(state, guard, s) {
        None => HookStep::Real,
        Some(virt) => HookStep::Ask(virt, Call::GetPeerName),
    }
}

/// The step of `sendto`: the address and the bytes that fit one message with it.
pub open spec fn sending_to(
    virt: Option<u32>,
    buf: Option<Seq<u8>>,
    to: Option<Seq<u8>>,
    capacity: int,
) -> StepModel {
    match virt {
        None => HookStep::Real,
        Some(v) => match (buf, raw_addr(to)) {
            (Some(b), Some(addr)) => HookStep::Ask(
                v,
                Call::SendTo { addr, data: head(b, capacity - SOCKADDR_SIZE) },
            ),
            _ => HookStep::Fail(WSAEFAULT),
        },
    }
}

/// `sendto`: the address and the bytes that fit one message with it.
pub fn hook_sendto(
    state: &ShimState,
    guard: &BypassGuard,
    s: u64,
    buf: Option<&[u8]>,
    to: Option<&[u8]>,
    capacity: usize,
) -> (step: ShimStep)
    requires
        capacity >= SOCKADDR_SIZE,
    ensures
        step@ == sending_to(
            routed(*state, *guard, s),
            given(buf),
            given(to),
            capacity as int,
        ),
{
    match route(state, guard, s) {
        None => HookStep::Real,
        Some(virt) => {
            let b = match buf {
                None => {
                    return HookStep::Fail(WSAEFAULT);
                },
                Some(b) => b,
            };
            match sockaddr_from_raw(to) {
                None => HookStep::Fail(WSAEFAULT),
                Some(addr) => HookStep::Ask(
                    virt,
                    Call::SendTo { addr, data: head_of(b, capacity - SOCKADDR_SIZE) },
                ),
            }
        },
    }
}

/// The Winsock error of a request that failed.
pub open spec fn wsa_error(e: ClientError) -> i32 {
    match e {
        ClientError::Status(StatusCode::ConnRefused) => WSAECONNREFUSED,
        ClientError::Status(StatusCode::ConnReset) => WSAECONNRESET,
        ClientError::Status(StatusCode::WouldBlock) => WSAEWOULDBLOCK,
        ClientError::Status(StatusCode::BadSocket) => WSAENOTSOCK,
        ClientError::Status(StatusCode::NotSupported) => WSAEINVAL,
        ClientError::Status(StatusCode::AddrInUse) => WSAEADDRINUSE,
        ClientError::Status(StatusCode::AddrNotAvail) => WSAEADDRNOTAVAIL,
        _ => WSAECONNABORTED,
    }
}

pub fn status_to_wsa(e: &ClientError) -> (n: i32)
    ensures
        n == wsa_error(*e),
{
    match e {
        ClientError::Status(s) => match s {
            StatusCode::ConnRefused => WSAECONNREFUSED,
            StatusCode::ConnReset => WSAECONNRESET,
            StatusCode::WouldBlock => WSAEWOULDBLOCK,
            StatusCode::BadSocket => WSAENOTSOCK,
            StatusCode::NotSupported => WSAEINVAL,
            StatusCode::AddrInUse => WSAEADDRINUSE,
            StatusCode::AddrNotAvail => WSAEADDRNOTAVAIL,
            _ => WSAECONNABORTED,
        },
        _ => WSAECONNABORTED,
    }
}

/// A thread inside the shim or the daemon never asks the daemon: all its calls
/// go to the operating system.
pub proof fn law_bypassed_calls_are_real(
    state: ShimState,
    guard: BypassGuard,
    s: u64,
    name: Option<Seq<u8>>,
    len: Option<i32>,
)
    requires
        guard.depth > 0,
    ensures
        addressed(routed(state, guard, s), name, true) is Real,
        addressed(routed(state, guard, s), name, false) is Real,
        receiving(routed(state, guard, s), len, true) is Real,
        receiving(routed(state, guard, s), len, false) is Real,
{
}

/// A call on a socket that the shim did not hand out goes to the operating
/// system.
pub proof fn law_foreign_sockets_are_real(
    state: ShimState,
    guard: BypassGuard,
    s: u64,
    name: Option<Seq<u8>>,
    len: Option<i32>,
)
    requires
        state.wf(),
        s < FIRST_FAKE,
    ensures
        addressed(routed(state, guard, s), name, true) is Real,
        addressed(routed(state, guard, s), name, false) is Real,
        receiving(routed(state, guard, s), len, true) is Real,
        receiving(routed(state, guard, s), len, false) is Real,
{
    assert(!state@.contains_key(s));
}

/// Each hook is installed under the name of the Winsock function that it serves,
/// and no other hook is: an import of `send` leads to the hook of `send`.
pub proof fn law_hooks_are_found_by_name(h: Hook)
    ensures
        h.export() == "socket"@ <==> h == Hook::Socket,
        h.export() == "connect"@ <==> h == Hook::Connect,
        h.export() == "send"@ <==> h == Hook::Send,
        h.export() == "recv"@ <==> h == Hook::Recv,
        h.export() == "closesocket"@ <==> h == Hook::CloseSocket,
        h.export() == "bind"@ <==> h == Hook::Bind,
        h.export() == "listen"@ <==> h == Hook::Listen,
        h.export() == "getsockname"@ <==> h == Hook::GetSockName,
        h.export() == "getpeername"@ <==> h == Hook::GetPeerName,
        h.export() == "sendto"@ <==> h == Hook::SendTo,
        h.export() == "recvfrom"@ <==> h == Hook::RecvFrom,
        exists|i: int| 0 <= i < all_hooks().len() && #[trigger] all_hooks()[i] == h,
{
    reveal_strlit("socket");
    reveal_strlit("connect");
    reveal_strlit("send");
    reveal_strlit("recv");
    reveal_strlit("closesocket");
    reveal_strlit("bind");
    reveal_strlit("listen");
    reveal_strlit("getsockname");
    reveal_strlit("getpeername");
    reveal_strlit("sendto");
    reveal_strlit("recvfrom");
    assert("socket"@.len() == 6);
    assert("connect"@.len() == 7);
    assert("send"@.len() == 4);
    assert("recv"@.len() == 4);
    assert("closesocket"@.len() == 11);
    assert("bind"@.len() == 4);
    assert("listen"@.len() == 6);
    assert("getsockname"@.len() == 11);
    assert("getpeername"@.len() == 11);
    assert("sendto"@.len() == 6);
    assert("recvfrom"@.len() == 8);
    law_all_hooks_listed(h);
    let i = choose|i: int| 0 <= i < all_hooks().len() && all_hooks()[i] == h;
    assert(all_hooks()[i] == h);
    assert("send"@[0] != "recv"@[0]);
    assert("bind"@[0] != "send"@[0] && "bind"@[0] != "recv"@[0]);
    assert("socket"@[0] != "listen"@[0]);
    assert("socket"@[1] != "sendto"@[1]);
    assert("listen"@[0] != "sendto"@[0]);
    assert("getsockname"@[3] != "getpeername"@[3]);
    assert("closesocket"@[0] != "getsockname"@[0] && "closesocket"@[0] != "getpeername"@[0]);
}

/// A call of a thread outside, on a socket that the shim handed out, asks the
/// daemon for the same operation on its own socket, with what the caller passed:
/// sending sends, receiving receives, and nothing is cut but what does not fit.
pub proof fn law_calls_keep_their_meaning(
    state: ShimState,
    guard: BypassGuard,
    s: u64,
    name: Seq<u8>,
    data: Seq<u8>,
    capacity: int,
    n: i32,
)
    requires
        guard.depth == 0,
        state@.contains_key(s),
        name.len() >= 16,
        name[0] == 2,
        name[1] == 0,
        28 <= capacity,
        n > 0,
    ensures
        ({
            let v = state@[s];
            let to = addr_v4(name.subrange(4, 8), (256 * name[2] + name[3]) as u16);
            let virt = routed(state, guard, s);
            &&& addressed(virt, Some(name), true) == StepModel::Ask(v, Call::Connect { addr: to })
            &&& addressed(virt, Some(name), false) == StepModel::Ask(v, Call::Bind { addr: to })
            &&& listening(virt, n) == StepModel::Ask(v, Call::Listen { backlog: n as u32 })
            &&& receiving(virt, Some(n), false) == StepModel::Ask(v, Call::Recv { max: n as u32 })
            &&& receiving(virt, Some(n), true) == StepModel::Ask(
                v,
                Call::RecvFrom { max: n as u32 },
            )
            &&& asking(virt, bare_call(Hook::CloseSocket)) == StepModel::Ask(v, Call::Close)
            &&& asking(virt, bare_call(Hook::GetSockName)) == StepModel::Ask(v, Call::GetSockName)
            &&& asking(virt, bare_call(Hook::GetPeerName)) == StepModel::Ask(v, Call::GetPeerName)
            &&& data.len() <= capacity ==> sending(virt, Some(data), capacity) == StepModel::Ask(
                v,
                Call::Send { data },
            )
            &&& data.len() > capacity ==> sending(virt, Some(data), capacity) == StepModel::Ask(
                v,
                Call::Send { data: data.take(capacity) },
            )
            &&& data.len() + 28 <= capacity ==> sending_to(
                virt,
                Some(data),
                Some(name),
                capacity,
            ) == StepModel::Ask(v, Call::SendTo { addr: to, data })
            &&& data.len() + 28 > capacity ==> sending_to(
                virt,
                Some(data),
                Some(name),
                capacity,
            ) == StepModel::Ask(
                v,
                Call::SendTo { addr: to, data: data.take(capacity - 28) },
            )
        }),
{
}

/// Without a buffer, or with an address that is no IPv4 address, a call on a
/// socket of the shim fails with the error for a bad pointer and asks nothing.
pub proof fn law_bad_pointers_fail(virt: u32, name: Seq<u8>, data: Seq<u8>, capacity: int, n: i32)
    requires
        name.len() < 16 || name[0] != 2 || name[1] != 0,
        n <= 0,
    ensures
        addressed(Some(virt), Some(name), true) == StepModel::Fail(10014),
        addressed(Some(virt), Some(name), false) == StepModel::Fail(10014),
        addressed(Some(virt), None, true) == StepModel::Fail(10014),
        addressed(Some(virt), None, false) == StepModel::Fail(10014),
        sending(Some(virt), None, capacity) == StepModel::Fail(10014),
        receiving(Some(virt), Some(n), true) == StepModel::Fail(10014),
        receiving(Some(virt), Some(n), false) == StepModel::Fail(10014),
        receiving(Some(virt), None, true) == StepModel::Fail(10014),
        receiving(Some(virt), None, false) == StepModel::Fail(10014),
        sending_to(Some(virt), None, Some(name), capacity) == StepModel::Fail(10014),
        sending_to(Some(virt), Some(data), Some(name), capacity) == StepModel::Fail(10014),
        sending_to(Some(virt), Some(data), None, capacity) == StepModel::Fail(10014),
        n < 0 ==> listening(Some(virt), n) == StepModel::Ask(virt, Call::Listen { backlog: 0 }),
{
}

/// Exactly the IPv4 stream and datagram sockets of a thread outside are the
/// daemon's, with the type and protocol that were asked for.
pub proof fn law_ipv4_sockets_are_virtual(depth: u32, af: i32, typ: i32, proto: i32)
    ensures
        opening(depth, af, typ, proto) is Ask <==> depth == 0 && af == 2 && (typ == 1 || typ == 2),
        opening(depth, af, typ, proto) is Ask || opening(depth, af, typ, proto) is Real,
        opening(depth, af, typ, proto) matches HookStep::Ask(id, call) ==> id == 0 && (call matches Call::Socket {
            af: a,
            typ: t,
            proto: p,
        } && a == 2 && t == typ && (proto >= 0 ==> p == proto) && (proto < 0 ==> p == proto
            + 0x1_0000_0000)),
{
}

/// A program sees the Winsock error of what befell its request on the host.
pub proof fn law_errors_are_winsock_errors(e: ClientError)
    ensures
        wsa_error(e) == 10061 <==> e == ClientError::Status(StatusCode::ConnRefused),
        wsa_error(e) == 10054 <==> e == ClientError::Status(StatusCode::ConnReset),
        wsa_error(e) == 10035 <==> e == ClientError::Status(StatusCode::WouldBlock),
        wsa_error(e) == 10038 <==> e == ClientError::Status(StatusCode::BadSocket),
        wsa_error(e) == 10022 <==> e == ClientError::Status(StatusCode::NotSupported),
        wsa_error(e) == 10048 <==> e == ClientError::Status(StatusCode::AddrInUse),
        wsa_error(e) == 10049 <==> e == ClientError::Status(StatusCode::AddrNotAvail),
        wsa_error(e) == 10053 || wsa_error(e) == 10061 || wsa_error(e) == 10054 || wsa_error(e)
            == 10035 || wsa_error(e) == 10038 || wsa_error(e) == 10022 || wsa_error(e) == 10048
            || wsa_error(e) == 10049,
{
}

/// Where an original function is not known, its call fails with an error that
/// fits it, but for closing.
pub proof fn law_missing_originals_fail(h: Hook)
    ensures
        h.missing() is None <==> h == Hook::CloseSocket,
        h == Hook::Socket || h == Hook::Connect || h == Hook::Bind || h == Hook::Listen
            ==> h.missing() == Some(10022i32),
        h == Hook::Send || h == Hook::Recv || h == Hook::SendTo || h == Hook::RecvFrom
            ==> h.missing() == Some(10057i32),
        h == Hook::GetSockName || h == Hook::GetPeerName ==> h.missing() == Some(10038i32),
{
}

/// The bytes of an IPv4 address as Winsock lays them out: the family low byte
/// first, the port high byte first, the four octets and eight zeros.
pub proof fn law_sockaddr_in_layout(octets: Seq<u8>, port: u16)
    requires
        octets.len() == 4,
    ensures
        ({
            let b = sockaddr_in(addr_v4(octets, port));
            &&& b.len() == 16
            &&& b[0] == 2 && b[1] == 0
            &&& 256 * b[2] + b[3] == port
            &&& b.subrange(4, 8) == octets
            &&& forall|i: int| 8 <= i < 16 ==> #[trigger] b[i] == 0
        }),
{
    let a = addr_v4(octets, port);
    let b = sockaddr_in(a);
    assert(a.addr.take(4) =~= octets);
    assert(b.subrange(4, 8) =~= octets);
}

/// Why the hooks could not be installed.
#[derive(Clone, Copy, Debug, PartialEq, Eq, Structural)]
pub enum InstallError {
    /// They were installed in this process before.
    AlreadyInstalled,
    /// No module imports any of the functions.
    NoImportsFound,
}

/// The outcome of an installation: `hits` holds, per module, how many imports
/// were patched.
pub fn install(installed: bool, hits: &[usize]) -> (r: Result<(), InstallError>)
    ensures
        r == (if installed {
            Err::<(), InstallError>(InstallError::AlreadyInstalled)
        } else if exists|i: int| 0 <= i < hits.len() && #[trigger] hits[i] > 0 {
            Ok(())
        } else {
            Err(InstallError::NoImportsFound)
        }),
{
    if installed {
        return Err(InstallError::AlreadyInstalled);
    }
    let mut i: usize = 0;
    while i < hits.len()
        invariant
            !installed,
            i <= hits.len(),
            forall|j: int| 0 <= j < i ==> hits[j] == 0,
        decreases hits.len() - i,
    {
        if hits[i] > 0 {
            return Ok(());
        }
        i = i + 1;
    }
    Err(InstallError::NoImportsFound)
}

} // verus!
