//! The backend that reaches the network through sockets of the host.
//!
//! The container sees itself under a virtual IPv4 address: `get_sock_name`
//! reports that address (or nothing, before a socket has one), never the one
//! that the host socket really has. Each operation is in two parts. The first
//! says what is to be done on the host, or that the request fails; the second
//! takes what the host did and says what the container is told. `H` is a socket
//! of the host.

use crate::netstack::socket_table::{SocketTable, TableModel};
use crate::netstack::wire::{
    addr_v4, addr_v6, SockAddr, SockAddrBytes, StatusCode, AF_INET6_V, AF_INET_V, SOCK_DGRAM_V,
    SOCK_STREAM_V,
};
use vstd::prelude::*;

verus! {

/// What a container socket is on the host.
pub enum SockState<H> {
    /// Made, but neither bound nor connected.
    Fresh { af: u16, typ: u16 },
    /// A connection; `peer_virtual` is the address that the container knows the
    /// other end by.
    Stream { stream: H, peer_virtual: SockAddrBytes },
    Listener { listener: H, bind_virtual: SockAddrBytes },
    Dgram { socket: H, bind_virtual: SockAddrBytes },
}

/// The ways in which the host can fail.
#[derive(Clone, Copy, Debug, PartialEq, Eq, Structural)]
pub enum IoKind {
    ConnectionRefused,
    ConnectionReset,
    ConnectionAborted,
    BrokenPipe,
    AddrInUse,
    AddrNotAvailable,
    WouldBlock,
    TimedOut,
    Other,
}

/// What the container is told of a failure of the host.
pub open spec fn io_status(kind: IoKind) -> StatusCode {
    match kind {
        IoKind::ConnectionRefused => StatusCode::ConnRefused,
        IoKind::ConnectionReset | IoKind::ConnectionAborted | IoKind::BrokenPipe =>
            StatusCode::ConnReset,
        IoKind::AddrInUse => StatusCode::AddrInUse,
        IoKind::AddrNotAvailable => StatusCode::AddrNotAvail,
        IoKind::WouldBlock => StatusCode::WouldBlock,
        IoKind::TimedOut | IoKind::Other => StatusCode::HostError,
    }
}

/// What the container is told where no datagram came. That none came in time is
/// told as that none is there yet.
pub open spec fn datagram_status(kind: IoKind) -> StatusCode {
    if kind == IoKind::TimedOut {
        StatusCode::WouldBlock
    } else {
        io_status(kind)
    }
}

pub fn map_io_err(kind: IoKind) -> (s: StatusCode)
    ensures
        s == io_status(kind),
{
    match kind {
        IoKind::ConnectionRefused => StatusCode::ConnRefused,
        IoKind::ConnectionReset => StatusCode::ConnReset,
        IoKind::ConnectionAborted => StatusCode::ConnReset,
        IoKind::BrokenPipe => StatusCode::ConnReset,
        IoKind::AddrInUse => StatusCode::AddrInUse,
        IoKind::AddrNotAvailable => StatusCode::AddrNotAvail,
        IoKind::WouldBlock => StatusCode::WouldBlock,
        IoKind::TimedOut => StatusCode::HostError,
        IoKind::Other => StatusCode::HostError,
    }
}

/// The result of a host operation as the container is told it.
pub fn host_result<T>(r: Result<T, IoKind>) -> (s: Result<T, StatusCode>)
    ensures
        s == (match r {
            Ok(v) => Ok::<T, StatusCode>(v),
            Err(k) => Err(io_status(k)),
        }),
{
    match r {
        Ok(v) => Ok(v),
        Err(k) => Err(map_io_err(k)),
    }
}

/// An address of a socket of the host.
#[derive(Clone, Copy, Debug)]
#[allow(inconsistent_fields)]
pub enum HostAddr {
    V4 { ip: [u8; 4], port: u16 },
    V6 { ip: [u8; 16], port: u16, flow: u32, scope: u32 },
}

/// What a host address holds.
#[verifier::ext_equal]
pub enum HostEndpoint {
    V4 { ip: Seq<u8>, port: u16 },
    V6 { ip: Seq<u8>, port: u16, flow: u32, scope: u32 },
}

impl View for HostAddr {
    type V = HostEndpoint;

    open spec fn view(&self) -> HostEndpoint {
        match self {
            HostAddr::V4 { ip, port } => HostEndpoint::V4 { ip: ip@, port: *port },
            HostAddr::V6 { ip, port, flow, scope } => HostEndpoint::V6 {
                ip: ip@,
                port: *port,
                flow: *flow,
                scope: *scope,
            },
        }
    }
}

/// The host address that a socket address stands for, if it is of a known
/// family.
pub open spec fn host_addr(a: SockAddr) -> Option<HostEndpoint> {
    if a.family == AF_INET_V {
        Some(HostEndpoint::V4 { ip: a.addr.take(4), port: a.port })
    } else if a.family == AF_INET6_V {
        Some(HostEndpoint::V6 { ip: a.addr, port: a.port, flow: a.v6_flow, scope: a.v6_scope })
    } else {
        None
    }
}

/// The socket address of a peer on the host; the flow label is not passed on.
pub open spec fn peer_addr(e: HostEndpoint) -> SockAddr {
    match e {
        HostEndpoint::V4 { ip, port } => addr_v4(ip, port),
        HostEndpoint::V6 { ip, port, flow, scope } => addr_v6(ip, port, 0, scope),
    }
}

pub fn sockaddr_to_std(a: &SockAddrBytes) -> (r: Option<HostAddr>)
    ensures
        match r {
            Some(h) => host_addr(a@) == Some(h@),
            None => host_addr(a@) is None,
        },
{
    if a.family == AF_INET_V {
        let ip: [u8; 4] = [a.addr[0], a.addr[1], a.addr[2], a.addr[3]];
        assert(ip@ =~= a.addr@.take(4));
        Some(HostAddr::V4 { ip, port: a.port })
    } else if a.family == AF_INET6_V {
        Some(HostAddr::V6 { ip: a.addr, port: a.port, flow: a.v6_flow, scope: a.v6_scope })
    } else {
        None
    }
}

pub fn peer_sockaddr(h: &HostAddr) -> (a: SockAddrBytes)
    ensures
        a@ == peer_addr(h@),
{
    match h {
        HostAddr::V4 { ip, port } => SockAddrBytes::v4(*ip, *port),
        HostAddr::V6 { ip, port, flow: _, scope } => SockAddrBytes::v6(*ip, *port, 0, *scope),
    }
}

/// An address is the same again after it went to the host and came back, but
/// for the flow label and what an IPv4 address does not use.
pub proof fn law_host_addr_round_trip(a: SockAddr)
    requires
        a.addr.len() == 16,
        host_addr(a) is Some,
    ensures
        ({
            let b = peer_addr(host_addr(a)->0);
            &&& b.family == a.family
            &&& b.port == a.port
            &&& b.addr.take(4) == a.addr.take(4)
            &&& a.family == AF_INET6_V ==> b.addr == a.addr && b.v6_scope == a.v6_scope
        }),
{
    let b = peer_addr(host_addr(a)->0);
    assert(b.addr.take(4) =~= a.addr.take(4));
}

/// What has to be done for a bind.
#[derive(Clone, Copy, Debug, PartialEq, Eq, Structural)]
pub enum BindNeeds {
    /// Nothing yet: a stream socket is bound when it listens or connects.
    Nothing,
    /// A datagram socket on the loopback address, with a port of the host's
    /// choice.
    Datagram { v6: bool },
}

/// What has to be done for a listen.
#[derive(Clone, Copy, Debug, PartialEq, Eq, Structural)]
pub enum ListenNeeds {
    /// Nothing: the socket listens already.
    Nothing,
    /// A listener on the loopback address, with a port of the host's choice.
    Listener { v6: bool },
}

/// The directions in which a connection is shut down.
#[derive(Clone, Copy, Debug, PartialEq, Eq, Structural)]
pub enum ShutdownSide {
    Read,
    Write,
    Both,
}

/// The name of a socket.
pub enum SockName<'a, H> {
    Known(SockAddrBytes),
    /// The virtual address with the local port of this host socket.
    PortOf(&'a H),
}

/// Whether a socket of this family and type can be made.
pub open spec fn supported(af: u16, typ: u16) -> bool {
    (af == AF_INET_V || af == AF_INET6_V) && (typ == SOCK_STREAM_V || typ == SOCK_DGRAM_V)
}

/// The smaller of the two.
pub open spec fn at_most(max: u32, capacity: usize) -> int {
    if max <= capacity {
        max as int
    } else {
        capacity as int
    }
}

/// The NAT backend of one container.
pub struct NatBackend<H> {
    pub table: SocketTable<SockState<H>>,
    pub virtual_ipv4: [u8; 4],
}

impl<H> NatBackend<H> {
    /// The state of a live socket.
    pub open spec fn state(self, id: u32) -> Option<SockState<H>> {
        if self.table@.live.contains_key(id) {
            Some(self.table@.live[id])
        } else {
            None
        }
    }

    /// Whether `a` is an address of the container itself.
    pub open spec fn own_addr(self, a: SockAddr) -> bool {
        a == addr_v4(self.virtual_ipv4@, a.port)
    }

    /// The table is well formed, and every bound socket is known under the
    /// virtual address.
    pub open spec fn wf(self) -> bool {
        &&& self.table.wf()
        &&& forall|id: u32| #[trigger]
            self.table@.live.contains_key(id) ==> match self.table@.live[id] {
                SockState::Listener { bind_virtual, .. } => self.own_addr(bind_virtual@),
                SockState::Dgram { bind_virtual, .. } => self.own_addr(bind_virtual@),
                _ => true,
            }
    }

    /// Only the state of the socket `id` became `s`.
    pub open spec fn became(self, before: Self, id: u32, s: SockState<H>) -> bool {
        &&& self.virtual_ipv4 == before.virtual_ipv4
        &&& self.table@ == (TableModel { live: before.table@.live.insert(id, s), ..before.table@ })
    }

    pub fn new(virtual_ipv4: [u8; 4]) -> (b: Self)
        ensures
            b.wf(),
            b.virtual_ipv4 == virtual_ipv4,
            b.table@ == TableModel::<SockState<H>>::fresh(),
    {
        NatBackend { table: SocketTable::new(), virtual_ipv4 }
    }

    /// Makes a socket. The table must have an id left.
    pub fn socket(&mut self, af: u16, typ: u16, proto: u32) -> (r: Result<u32, StatusCode>)
        requires
            old(self).wf(),
            old(self).table@.has_room(),
        ensures
            final(self).wf(),
            final(self).virtual_ipv4 == old(self).virtual_ipv4,
            r == (if supported(af, typ) {
                Ok::<u32, StatusCode>(old(self).table@.next_issued())
            } else {
                Err(StatusCode::NotSupported)
            }),
            final(self).table@ == (if supported(af, typ) {
                old(self).table@.insert(SockState::Fresh { af, typ })
            } else {
                old(self).table@
            }),
    {
        if af != AF_INET_V && af != AF_INET6_V {
            return Err(StatusCode::NotSupported);
        }
        if typ != SOCK_STREAM_V && typ != SOCK_DGRAM_V {
            return Err(StatusCode::NotSupported);
        }
        Ok(self.table.insert(SockState::Fresh { af, typ }))
    }

    pub fn bind(&self, socket_id: u32) -> (r: Result<BindNeeds, StatusCode>)
        requires
            self.wf(),
        ensures
            r == bind_needs(self.state(socket_id)),
    {
        match self.table.get(socket_id) {
            None => Err(StatusCode::BadSocket),
            Some(SockState::Fresh { af, typ }) => if *typ == SOCK_DGRAM_V {
                Ok(BindNeeds::Datagram { v6: *af != AF_INET_V })
            } else {
                Ok(BindNeeds::Nothing)
            },
            Some(_) => Err(StatusCode::NotSupported),
        }
    }

    /// Takes the datagram socket of the host, with its port.
    pub fn bound(&mut self, socket_id: u32, host: Result<(H, u16), IoKind>) -> (r: Result<
        (),
        StatusCode,
    >)
        requires
            old(self).wf(),
        ensures
            final(self).wf(),
            match host {
                Err(k) => r == Err::<(), StatusCode>(io_status(k)) && final(self).table@ == old(self).table@ && final(self).virtual_ipv4 == old(self).virtual_ipv4,
                Ok(p) => match old(self).state(socket_id) {
                    None => r == Err::<(), StatusCode>(StatusCode::BadSocket) && final(self).table@
                        == old(self).table@ && final(self).virtual_ipv4 == old(self).virtual_ipv4,
                    Some(_) => {
                        &&& r is Ok
                        &&& exists|a: SockAddrBytes|
                            a@ == addr_v4(old(self).virtual_ipv4@, p.1) && #[trigger] final(self).became(
                                *old(self),
                                socket_id,
                                SockState::Dgram { socket: p.0, bind_virtual: a },
                            )
                    },
                },
            },
    {
        match host {
            Err(k) => Err(map_io_err(k)),
            Ok((socket, port)) => {
                let bind_virtual = SockAddrBytes::v4(self.virtual_ipv4, port);
                let ghost before = *self;
                match self.table.get_mut(socket_id) {
                    None => {
                        return Err(StatusCode::BadSocket);
                    },
                    Some(state) => {
                        *state = SockState::Dgram { socket, bind_virtual };
                    },
                }
                proof {
                    assert(self.became(
                        before,
                        socket_id,
                        SockState::Dgram { socket, bind_virtual },
                    ));
                }
                Ok(())
            },
        }
    }

    /// The address that a connection is asked for.
    pub fn connect(&self, addr: &SockAddrBytes) -> (r: Result<HostAddr, StatusCode>)
        ensures
            match r {
                Ok(h) => host_addr(addr@) == Some(h@),
                Err(s) => host_addr(addr@) is None && s == StatusCode::AddrNotAvail,
            },
    {
        match sockaddr_to_std(addr) {
            Some(h) => Ok(h),
            None => Err(StatusCode::AddrNotAvail),
        }
    }

    /// Takes the connection of the host; the container goes on knowing its peer
    /// under the address that it asked for.
    pub fn connected(
        &mut self,
        socket_id: u32,
        addr: SockAddrBytes,
        host: Result<H, IoKind>,
    ) -> (r: Result<(), StatusCode>)
        requires
            old(self).wf(),
        ensures
            final(self).wf(),
            match host {
                Err(k) => r == Err::<(), StatusCode>(io_status(k)) && final(self).table@ == old(self).table@ && final(self).virtual_ipv4 == old(self).virtual_ipv4,
                Ok(stream) => match old(self).state(socket_id) {
                    None => r == Err::<(), StatusCode>(StatusCode::BadSocket) && final(self).table@
                        == old(self).table@ && final(self).virtual_ipv4 == old(self).virtual_ipv4,
                    Some(_) => r is Ok && final(self).became(
                        *old(self),
                        socket_id,
                        SockState::Stream { stream, peer_virtual: addr },
                    ),
                },
            },
    {
        match host {
            Err(k) => Err(map_io_err(k)),
            Ok(stream) => {
                let ghost before = *self;
                match self.table.get_mut(socket_id) {
                    None => {
                        return Err(StatusCode::BadSocket);
                    },
                    Some(state) => {
                        *state = SockState::Stream { stream, peer_virtual: addr };
                    },
                }
                proof {
                    assert(self.became(
                        before,
                        socket_id,
                        SockState::Stream { stream, peer_virtual: addr },
                    ));
                }
                Ok(())
            },
        }
    }

    pub fn listen(&self, socket_id: u32) -> (r: Result<ListenNeeds, StatusCode>)
        requires
            self.wf(),
        ensures
            r == listen_needs(self.state(socket_id)),
    {
        match self.table.get(socket_id) {
            None => Err(StatusCode::BadSocket),
            Some(SockState::Fresh { af, .. }) => Ok(
                ListenNeeds::Listener { v6: *af != AF_INET_V },
            ),
            Some(SockState::Listener { .. }) => Ok(ListenNeeds::Nothing),
            Some(_) => Err(StatusCode::NotSupported),
        }
    }

    /// Takes the listener of the host, with its port.
    pub fn listening(&mut self, socket_id: u32, host: Result<(H, u16), IoKind>) -> (r: Result<
        (),
        StatusCode,
    >)
        requires
            old(self).wf(),
        ensures
            final(self).wf(),
            match host {
                Err(k) => r == Err::<(), StatusCode>(io_status(k)) && final(self).table@ == old(self).table@ && final(self).virtual_ipv4 == old(self).virtual_ipv4,
                Ok(p) => match old(self).state(socket_id) {
                    None => r == Err::<(), StatusCode>(StatusCode::BadSocket) && final(self).table@
                        == old(self).table@ && final(self).virtual_ipv4 == old(self).virtual_ipv4,
                    Some(_) => {
                        &&& r is Ok
                        &&& exists|a: SockAddrBytes|
                            a@ == addr_v4(old(self).virtual_ipv4@, p.1) && #[trigger] final(self).became(
                                *old(self),
                                socket_id,
                                SockState::Listener { listener: p.0, bind_virtual: a },
                            )
                    },
                },
            },
    {
        match host {
            Err(k) => Err(map_io_err(k)),
            Ok((listener, port)) => {
                let bind_virtual = SockAddrBytes::v4(self.virtual_ipv4, port);
                let ghost before = *self;
                match self.table.get_mut(socket_id) {
                    None => {
                        return Err(StatusCode::BadSocket);
                    },
                    Some(state) => {
                        *state = SockState::Listener { listener, bind_virtual };
                    },
                }
                proof {
                    assert(self.became(
                        before,
                        socket_id,
                        SockState::Listener { listener, bind_virtual },
                    ));
                }
                Ok(())
            },
        }
    }

    /// The listener to accept on.
    pub fn accept(&self, socket_id: u32) -> (r: Result<&H, StatusCode>)
        requires
            self.wf(),
        ensures
            match (r, listener_of(self.state(socket_id))) {
                (Ok(h), Ok(listener)) => *h == listener,
                (Err(s), Err(t)) => s == t,
                _ => false,
            },
    {
        match self.table.get(socket_id) {
            None => Err(StatusCode::BadSocket),
            Some(SockState::Listener { listener, .. }) => Ok(listener),
            Some(_) => Err(StatusCode::NotSupported),
        }
    }

    /// Takes the connection that the host accepted, with its peer.
    pub fn accepted(&mut self, host: Result<(H, HostAddr), IoKind>) -> (r: Result<
        (u32, SockAddrBytes),
        StatusCode,
    >)
        requires
            old(self).wf(),
            old(self).table@.has_room(),
        ensures
            final(self).wf(),
            final(self).virtual_ipv4 == old(self).virtual_ipv4,
            match (host, r) {
                (Err(k), Err(s)) => s == io_status(k) && final(self).table@ == old(self).table@,
                (Ok(p), Ok(q)) => {
                    &&& q.0 == old(self).table@.next_issued()
                    &&& q.1@ == peer_addr(p.1@)
                    &&& final(self).table@ == old(self).table@.insert(
                        SockState::Stream { stream: p.0, peer_virtual: q.1 },
                    )
                },
                _ => false,
            },
    {
        match host {
            Err(k) => Err(map_io_err(k)),
            Ok((stream, peer)) => {
                let peer_virtual = peer_sockaddr(&peer);
                let id: u32 = self.table.insert(SockState::Stream { stream, peer_virtual });
                Ok((id, peer_virtual))
            },
        }
    }

    /// The connection to write to.
    pub fn send(&self, socket_id: u32) -> (r: Result<&H, StatusCode>)
        requires
            self.wf(),
        ensures
            match (r, stream_of(self.state(socket_id))) {
                (Ok(h), Ok(stream)) => *h == stream,
                (Err(s), Err(t)) => s == t,
                _ => false,
            },
    {
        match self.table.get(socket_id) {
            None => Err(StatusCode::BadSocket),
            Some(SockState::Stream { stream, .. }) => Ok(stream),
            Some(_) => Err(StatusCode::NotSupported),
        }
    }

    /// The connection to read from, and how much to read at most: what was
    /// asked for, or what a message holds.
    pub fn recv(&self, socket_id: u32, max: u32, capacity: usize) -> (r: Result<
        (&H, usize),
        StatusCode,
    >)
        requires
            self.wf(),
        ensures
            match (r, stream_of(self.state(socket_id))) {
                (Ok(h), Ok(stream)) => *h.0 == stream && h.1 == at_most(max, capacity),
                (Err(s), Err(t)) => s == t,
                _ => false,
            },
    {
        let stream = match self.send(socket_id) {
            Ok(h) => h,
            Err(s) => {
                return Err(s);
            },
        };
        let wanted: usize = max as usize;
        Ok((stream, if wanted <= capacity {
            wanted
        } else {
            capacity
        }))
    }

    /// Forgets a socket; that there was none is no error.
    pub fn close(&mut self, socket_id: u32)
        requires
            old(self).wf(),
        ensures
            final(self).wf(),
            final(self).virtual_ipv4 == old(self).virtual_ipv4,
            final(self).table@ == old(self).table@.remove(socket_id),
    {
        let _ = self.table.remove(socket_id);
    }

    /// The connection to shut down, and in which direction.
    pub fn shutdown(&self, socket_id: u32, how: u32) -> (r: Result<(&H, ShutdownSide), StatusCode>)
        requires
            self.wf(),
        ensures
            match (r, stream_of(self.state(socket_id))) {
                (Ok(h), Ok(stream)) => *h.0 == stream && h.1 == shutdown_side(how),
                (Err(s), Err(t)) => s == t,
                _ => false,
            },
    {
        let stream = match self.send(socket_id) {
            Ok(h) => h,
            Err(s) => {
                return Err(s);
            },
        };
        let side = match how {
            0 => ShutdownSide::Read,
            1 => ShutdownSide::Write,
            _ => ShutdownSide::Both,
        };
        Ok((stream, side))
    }

    /// The name of a socket.
    pub fn get_sock_name(&self, socket_id: u32) -> (r: Result<SockName<'_, H>, StatusCode>)
        requires
            self.wf(),
        ensures
            match (r, self.state(socket_id)) {
                (Err(s), None) => s == StatusCode::BadSocket,
                (Ok(SockName::Known(a)), Some(SockState::Fresh { .. })) => a@ == addr_v4(
                    seq![0u8, 0, 0, 0],
                    0,
                ),
                (Ok(SockName::PortOf(h)), Some(SockState::Stream { stream, .. })) => *h == stream,
                (Ok(SockName::Known(a)), Some(SockState::Listener { bind_virtual, .. })) => a
                    == bind_virtual && self.own_addr(a@),
                (Ok(SockName::Known(a)), Some(SockState::Dgram { bind_virtual, .. })) => a
                    == bind_virtual && self.own_addr(a@),
                _ => false,
            },
    {
        match self.table.get(socket_id) {
            None => Err(StatusCode::BadSocket),
            Some(SockState::Fresh { .. }) => {
                let zero: [u8; 4] = [0, 0, 0, 0];
                assert(zero@ =~= seq![0u8, 0, 0, 0]);
                Ok(SockName::Known(SockAddrBytes::v4(zero, 0)))
            },
            Some(SockState::Stream { stream, .. }) => Ok(SockName::PortOf(stream)),
            Some(SockState::Listener { bind_virtual, .. }) => Ok(SockName::Known(*bind_virtual)),
            Some(SockState::Dgram { bind_virtual, .. }) => Ok(SockName::Known(*bind_virtual)),
        }
    }

    /// The name of a connection whose host socket has this local port; port 0
    /// where the host cannot tell.
    pub fn stream_name(&self, local_port: Option<u16>) -> (a: SockAddrBytes)
        ensures
            self.own_addr(a@),
            a.port == (match local_port {
                Some(p) => p,
                None => 0,
            }),
    {
        SockAddrBytes::v4(
            self.virtual_ipv4,
            match local_port {
                Some(p) => p,
                None => 0,
            },
        )
    }

    pub fn get_peer_name(&self, socket_id: u32) -> (r: Result<SockAddrBytes, StatusCode>)
        requires
            self.wf(),
        ensures
            r == peer_of(self.state(socket_id)),
    {
        match self.table.get(socket_id) {
            None => Err(StatusCode::BadSocket),
            Some(SockState::Stream { peer_virtual, .. }) => Ok(*peer_virtual),
            Some(_) => Err(StatusCode::NotSupported),
        }
    }

    /// Whether a datagram socket has to be bound before it can send.
    pub fn sendto_binds(&self, socket_id: u32) -> (b: bool)
        requires
            self.wf(),
        ensures
            b == (self.state(socket_id) matches Some(SockState::Fresh { typ, .. }) && typ
                == SOCK_DGRAM_V),
    {
        match self.table.get(socket_id) {
            Some(SockState::Fresh { typ, .. }) => *typ == SOCK_DGRAM_V,
            _ => false,
        }
    }

    /// The datagram socket to send from, and the address that is asked for.
    pub fn sendto(&self, socket_id: u32, addr: &SockAddrBytes) -> (r: Result<
        (&H, HostAddr),
        StatusCode,
    >)
        requires
            self.wf(),
        ensures
            match (r, datagram_of(self.state(socket_id))) {
                (Ok(h), Ok(socket)) => *h.0 == socket && host_addr(addr@) == Some(h.1@),
                (Err(s), Ok(_)) => host_addr(addr@) is None && s == StatusCode::AddrNotAvail,
                (Err(s), Err(t)) => s == t,
                _ => false,
            },
    {
        match self.table.get(socket_id) {
            None => Err(StatusCode::BadSocket),
            Some(SockState::Dgram { socket, .. }) => match sockaddr_to_std(addr) {
                Some(h) => Ok((socket, h)),
                None => Err(StatusCode::AddrNotAvail),
            },
            Some(_) => Err(StatusCode::NotSupported),
        }
    }

    /// The datagram socket to receive on, and how much to receive at most.
    pub fn recvfrom(&self, socket_id: u32, max: u32, capacity: usize) -> (r: Result<
        (&H, usize),
        StatusCode,
    >)
        requires
            self.wf(),
        ensures
            match (r, datagram_of(self.state(socket_id))) {
                (Ok(h), Ok(socket)) => *h.0 == socket && h.1 == at_most(max, capacity),
                (Err(s), Err(t)) => s == t,
                _ => false,
            },
    {
        let wanted: usize = max as usize;
        match self.table.get(socket_id) {
            None => Err(StatusCode::BadSocket),
            Some(SockState::Dgram { socket, .. }) => Ok((socket, if wanted <= capacity {
                wanted
            } else {
                capacity
            })),
            Some(_) => Err(StatusCode::NotSupported),
        }
    }

    /// A datagram of the host with its sender, as the container is told it.
    pub fn received_from(host: Result<(Vec<u8>, HostAddr), IoKind>) -> (r: Result<
        (Vec<u8>, SockAddrBytes),
        StatusCode,
    >)
        ensures
            match (host, r) {
                (Err(k), Err(s)) => s == datagram_status(k),
                (Ok(p), Ok(q)) => q.0 == p.0 && q.1@ == peer_addr(p.1@),
                _ => false,
            },
    {
        match host {
            Err(k) => if k == IoKind::TimedOut {
                Err(StatusCode::WouldBlock)
            } else {
                Err(map_io_err(k))
            },
            Ok((bytes, peer)) => {
                let a = peer_sockaddr(&peer);
                Ok((bytes, a))
            },
        }
    }
}

/// The address that a name is answered with: the first that was found for it.
pub fn to_socket_addrs_best(found: &[HostAddr]) -> (r: Option<SockAddrBytes>)
    ensures
        match r {
            Some(a) => found.len() > 0 && a@ == peer_addr(found[0]@),
            None => found.len() == 0,
        },
{
    if found.len() == 0 {
        None
    } else {
        Some(peer_sockaddr(&found[0]))
    }
}

/// Where a connection really goes: the translated address, if there is one.
pub fn translated(requested: HostAddr, translation: Option<HostAddr>) -> (target: HostAddr)
    ensures
        target == chosen_target(requested, translation),
{
    match translation {
        Some(t) => t,
        None => requested,
    }
}

/// What a number asks to be shut down.
pub open spec fn shutdown_side(how: u32) -> ShutdownSide {
    if how == 0 {
        ShutdownSide::Read
    } else if how == 1 {
        ShutdownSide::Write
    } else {
        ShutdownSide::Both
    }
}

/// Where a connection really goes.
pub open spec fn chosen_target(requested: HostAddr, translation: Option<HostAddr>) -> HostAddr {
    match translation {
        Some(t) => t,
        None => requested,
    }
}

/// The numbers of Winsock: 0 ends receiving, 1 ends sending, 2 both.
pub proof fn law_shutdown_sides(how: u32)
    ensures
        shutdown_side(how) == ShutdownSide::Read <==> how == 0,
        shutdown_side(how) == ShutdownSide::Write <==> how == 1,
        shutdown_side(how) == ShutdownSide::Both <==> how >= 2,
{
}

/// A connection goes where it was translated to, and otherwise where it was
/// asked for.
pub proof fn law_targets(a: HostAddr, b: HostAddr)
    ensures
        chosen_target(a, Some(b)) == b,
        chosen_target(a, None) == a,
{
}

/// A container learns what befell its call on the host: a refused connection is
/// refused, one that broke is reset, and one that has to wait would block; only
/// a datagram that did not come in time counts as one to wait for.
pub proof fn law_host_errors(k: IoKind)
    ensures
        io_status(k) == StatusCode::ConnRefused <==> k == IoKind::ConnectionRefused,
        io_status(k) == StatusCode::ConnReset <==> k == IoKind::ConnectionReset || k
            == IoKind::ConnectionAborted || k == IoKind::BrokenPipe,
        io_status(k) == StatusCode::AddrInUse <==> k == IoKind::AddrInUse,
        io_status(k) == StatusCode::AddrNotAvail <==> k == IoKind::AddrNotAvailable,
        io_status(k) == StatusCode::WouldBlock <==> k == IoKind::WouldBlock,
        io_status(k) == StatusCode::HostError <==> k == IoKind::TimedOut || k == IoKind::Other,
        datagram_status(k) == StatusCode::WouldBlock <==> k == IoKind::WouldBlock || k
            == IoKind::TimedOut,
        k != IoKind::TimedOut ==> datagram_status(k) == io_status(k),
{
}

/// IPv4 and IPv6 addresses are taken as they are, with their port; any other
/// family is refused. Only stream and datagram sockets of the two are made.
pub proof fn law_addresses(a: SockAddr, af: u16, typ: u16)
    ensures
        a.family == 2 ==> host_addr(a) == Some(
            HostEndpoint::V4 { ip: a.addr.take(4), port: a.port },
        ),
        a.family == 23 ==> host_addr(a) == Some(
            HostEndpoint::V6 { ip: a.addr, port: a.port, flow: a.v6_flow, scope: a.v6_scope },
        ),
        host_addr(a) is None <==> a.family != 2 && a.family != 23,
        supported(af, typ) <==> (af == 2 || af == 23) && (typ == 1 || typ == 2),
{
}

/// Never more is read than was asked for, nor than a message holds, and no less
/// than the smaller of the two.
pub proof fn law_read_sizes(max: u32, capacity: usize)
    ensures
        at_most(max, capacity) <= max,
        at_most(max, capacity) <= capacity,
        at_most(max, capacity) == max || at_most(max, capacity) == capacity,
{
}

/// What binding a socket in this state needs of the host.
pub open spec fn bind_needs<H>(state: Option<SockState<H>>) -> Result<BindNeeds, StatusCode> {
    match state {
        None => Err(StatusCode::BadSocket),
        Some(SockState::Fresh { af, typ }) => Ok(
            if typ == SOCK_DGRAM_V {
                BindNeeds::Datagram { v6: af != AF_INET_V }
            } else {
                BindNeeds::Nothing
            },
        ),
        Some(_) => Err(StatusCode::NotSupported),
    }
}

/// What listening on a socket in this state needs of the host.
pub open spec fn listen_needs<H>(state: Option<SockState<H>>) -> Result<ListenNeeds, StatusCode> {
    match state {
        None => Err(StatusCode::BadSocket),
        Some(SockState::Fresh { af, .. }) => Ok(ListenNeeds::Listener { v6: af != AF_INET_V }),
        Some(SockState::Listener { .. }) => Ok(ListenNeeds::Nothing),
        Some(_) => Err(StatusCode::NotSupported),
    }
}

/// The host's listener behind a socket in this state.
pub open spec fn listener_of<H>(state: Option<SockState<H>>) -> Result<H, StatusCode> {
    match state {
        None => Err(StatusCode::BadSocket),
        Some(SockState::Listener { listener, .. }) => Ok(listener),
        Some(_) => Err(StatusCode::NotSupported),
    }
}

/// The host's connection behind a socket in this state.
pub open spec fn stream_of<H>(state: Option<SockState<H>>) -> Result<H, StatusCode> {
    match state {
        None => Err(StatusCode::BadSocket),
        Some(SockState::Stream { stream, .. }) => Ok(stream),
        Some(_) => Err(StatusCode::NotSupported),
    }
}

/// The host's datagram socket behind a socket in this state.
pub open spec fn datagram_of<H>(state: Option<SockState<H>>) -> Result<H, StatusCode> {
    match state {
        None => Err(StatusCode::BadSocket),
        Some(SockState::Dgram { socket, .. }) => Ok(socket),
        Some(_) => Err(StatusCode::NotSupported),
    }
}

/// The address that a socket in this state knows its peer by.
pub open spec fn peer_of<H>(state: Option<SockState<H>>) -> Result<SockAddrBytes, StatusCode> {
    match state {
        None => Err(StatusCode::BadSocket),
        Some(SockState::Stream { peer_virtual, .. }) => Ok(peer_virtual),
        Some(_) => Err(StatusCode::NotSupported),
    }
}

/// What a socket can be used for is decided by what it is: only a listener
/// accepts, only a connection sends, receives and has a peer, only a datagram
/// socket sends and receives datagrams, and only a new one is bound. What it is
/// not for is not supported, and a socket that is not there is a bad one.
pub proof fn law_sockets_by_kind<H>(h: H, a: SockAddrBytes, af: u16, typ: u16)
    ensures
        ({
            let gone = None::<SockState<H>>;
            let fresh = Some(SockState::<H>::Fresh { af, typ });
            let stream = Some(SockState::Stream { stream: h, peer_virtual: a });
            let listener = Some(SockState::Listener { listener: h, bind_virtual: a });
            let dgram = Some(SockState::Dgram { socket: h, bind_virtual: a });
            let bad = StatusCode::BadSocket;
            let not = StatusCode::NotSupported;
            &&& stream_of(stream) == Ok::<H, StatusCode>(h)
            &&& stream_of(fresh) == Err::<H, StatusCode>(not)
            &&& stream_of(listener) == Err::<H, StatusCode>(not)
            &&& stream_of(dgram) == Err::<H, StatusCode>(not)
            &&& stream_of(gone) == Err::<H, StatusCode>(bad)
            &&& listener_of(listener) == Ok::<H, StatusCode>(h)
            &&& listener_of(fresh) == Err::<H, StatusCode>(not)
            &&& listener_of(stream) == Err::<H, StatusCode>(not)
            &&& listener_of(dgram) == Err::<H, StatusCode>(not)
            &&& listener_of(gone) == Err::<H, StatusCode>(bad)
            &&& datagram_of(dgram) == Ok::<H, StatusCode>(h)
            &&& datagram_of(fresh) == Err::<H, StatusCode>(not)
            &&& datagram_of(stream) == Err::<H, StatusCode>(not)
            &&& datagram_of(listener) == Err::<H, StatusCode>(not)
            &&& datagram_of(gone) == Err::<H, StatusCode>(bad)
            &&& peer_of(stream) == Ok::<SockAddrBytes, StatusCode>(a)
            &&& peer_of(fresh) == Err::<SockAddrBytes, StatusCode>(not)
            &&& peer_of(listener) == Err::<SockAddrBytes, StatusCode>(not)
            &&& peer_of(dgram) == Err::<SockAddrBytes, StatusCode>(not)
            &&& peer_of(gone) == Err::<SockAddrBytes, StatusCode>(bad)
            &&& typ == 2 ==> bind_needs(fresh) == Ok::<BindNeeds, StatusCode>(
                BindNeeds::Datagram { v6: af != 2 },
            )
            &&& typ != 2 ==> bind_needs(fresh) == Ok::<BindNeeds, StatusCode>(BindNeeds::Nothing)
            &&& bind_needs(stream) == Err::<BindNeeds, StatusCode>(not)
            &&& bind_needs(listener) == Err::<BindNeeds, StatusCode>(not)
            &&& bind_needs(dgram) == Err::<BindNeeds, StatusCode>(not)
            &&& bind_needs(gone) == Err::<BindNeeds, StatusCode>(bad)
            &&& listen_needs(fresh) == Ok::<ListenNeeds, StatusCode>(
                ListenNeeds::Listener { v6: af != 2 },
            )
            &&& listen_needs(listener) == Ok::<ListenNeeds, StatusCode>(ListenNeeds::Nothing)
            &&& listen_needs(stream) == Err::<ListenNeeds, StatusCode>(not)
            &&& listen_needs(dgram) == Err::<ListenNeeds, StatusCode>(not)
            &&& listen_needs(gone) == Err::<ListenNeeds, StatusCode>(bad)
        }),
{
}

/// The name of a socket that the host bound is the container's own address, never
/// one of the host's.
pub proof fn law_bound_names_are_virtual<H>(b: NatBackend<H>, id: u32)
    requires
        b.wf(),
    ensures
        b.state(id) matches Some(SockState::Listener { bind_virtual, .. }) ==> bind_virtual@.family
            == 2 && bind_virtual@.addr.take(4) == b.virtual_ipv4@,
        b.state(id) matches Some(SockState::Dgram { bind_virtual, .. }) ==> bind_virtual@.family
            == 2 && bind_virtual@.addr.take(4) == b.virtual_ipv4@,
{
    if b.table@.live.contains_key(id) {
        match b.table@.live[id] {
            SockState::Listener { bind_virtual, .. } => {
                assert(bind_virtual@.addr.take(4) =~= b.virtual_ipv4@);
            },
            SockState::Dgram { bind_virtual, .. } => {
                assert(bind_virtual@.addr.take(4) =~= b.virtual_ipv4@);
            },
            _ => {},
        }
    }
}

} // verus!
