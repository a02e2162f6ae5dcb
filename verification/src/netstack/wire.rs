//! The messages that the shim in a container and the daemon on the host
//! exchange.
//!
//! A message is a slot header and at most one slot's worth of bytes. A request
//! names an operation; a reply to it repeats the request's correlation id and
//! carries a status in the place of the operation, 0 for success. A reply that
//! is larger than a slot comes in several messages, all but the last of which
//! have `FLAG_MORE` set.

use vstd::prelude::*;

verus! {

/// Address family of IPv4, as Winsock numbers it.
pub const AF_INET_V: u16 = 2;

/// Address family of IPv6, as Winsock numbers it.
pub const AF_INET6_V: u16 = 23;

/// A stream socket.
pub const SOCK_STREAM_V: u16 = 1;

/// A datagram socket.
pub const SOCK_DGRAM_V: u16 = 2;

/// Set on a reply that another message continues.
pub const FLAG_MORE: u16 = 1;

/// The size of an encoded socket address.
pub const SOCKADDR_SIZE: usize = 28;

/// The version that the daemon answers a greeting with.
pub const PROTOCOL_VERSION: u32 = 1;

/// The operations of a request.
#[derive(Clone, Copy, Debug, PartialEq, Eq, Structural)]
pub enum OpCode {
    Hello,
    Socket,
    Bind,
    Connect,
    Listen,
    Accept,
    Send,
    Recv,
    Close,
    Shutdown,
    GetSockName,
    GetPeerName,
    SetSockOpt,
    GetSockOpt,
    Resolve,
    SendTo,
    RecvFrom,
    Bye,
}

impl OpCode {
    /// The number of an operation on the wire.
    pub open spec fn number(self) -> u16 {
        match self {
            OpCode::Hello => 1,
            OpCode::Socket => 2,
            OpCode::Bind => 3,
            OpCode::Connect => 4,
            OpCode::Listen => 5,
            OpCode::Accept => 6,
            OpCode::Send => 7,
            OpCode::Recv => 8,
            OpCode::Close => 9,
            OpCode::Shutdown => 10,
            OpCode::GetSockName => 11,
            OpCode::GetPeerName => 12,
            OpCode::SetSockOpt => 13,
            OpCode::GetSockOpt => 14,
            OpCode::Resolve => 15,
            OpCode::SendTo => 16,
            OpCode::RecvFrom => 17,
            OpCode::Bye => 18,
        }
    }

    pub fn to_raw(self) -> (n: u16)
        ensures
            n == self.number(),
    {
        match self {
            OpCode::Hello => 1,
            OpCode::Socket => 2,
            OpCode::Bind => 3,
            OpCode::Connect => 4,
            OpCode::Listen => 5,
            OpCode::Accept => 6,
            OpCode::Send => 7,
            OpCode::Recv => 8,
            OpCode::Close => 9,
            OpCode::Shutdown => 10,
            OpCode::GetSockName => 11,
            OpCode::GetPeerName => 12,
            OpCode::SetSockOpt => 13,
            OpCode::GetSockOpt => 14,
            OpCode::Resolve => 15,
            OpCode::SendTo => 16,
            OpCode::RecvFrom => 17,
            OpCode::Bye => 18,
        }
    }

    /// The operation with this number, if there is one.
    pub fn from_raw(raw: u16) -> (op: Option<OpCode>)
        ensures
            match op {
                Some(o) => o.number() == raw,
                None => forall|o: OpCode| #[trigger] o.number() != raw,
            },
    {
        match raw {
            1 => Some(OpCode::Hello),
            2 => Some(OpCode::Socket),
            3 => Some(OpCode::Bind),
            4 => Some(OpCode::Connect),
            5 => Some(OpCode::Listen),
            6 => Some(OpCode::Accept),
            7 => Some(OpCode::Send),
            8 => Some(OpCode::Recv),
            9 => Some(OpCode::Close),
            10 => Some(OpCode::Shutdown),
            11 => Some(OpCode::GetSockName),
            12 => Some(OpCode::GetPeerName),
            13 => Some(OpCode::SetSockOpt),
            14 => Some(OpCode::GetSockOpt),
            15 => Some(OpCode::Resolve),
            16 => Some(OpCode::SendTo),
            17 => Some(OpCode::RecvFrom),
            18 => Some(OpCode::Bye),
            _ => None,
        }
    }
}

/// Why a request failed.
#[derive(Clone, Copy, Debug, PartialEq, Eq, Structural)]
pub enum StatusCode {
    UnknownOp,
    BadSocket,
    WouldBlock,
    ConnRefused,
    NotSupported,
    HostError,
    ConnReset,
    TooLarge,
    AddrInUse,
    AddrNotAvail,
}

impl StatusCode {
    /// The number of a status on the wire; success is 0.
    pub open spec fn number(self) -> u16 {
        match self {
            StatusCode::UnknownOp => 1,
            StatusCode::BadSocket => 2,
            StatusCode::WouldBlock => 3,
            StatusCode::ConnRefused => 4,
            StatusCode::NotSupported => 5,
            StatusCode::HostError => 6,
            StatusCode::ConnReset => 7,
            StatusCode::TooLarge => 8,
            StatusCode::AddrInUse => 9,
            StatusCode::AddrNotAvail => 10,
        }
    }

    pub fn to_raw(self) -> (n: u16)
        ensures
            n == self.number(),
    {
        match self {
            StatusCode::UnknownOp => 1,
            StatusCode::BadSocket => 2,
            StatusCode::WouldBlock => 3,
            StatusCode::ConnRefused => 4,
            StatusCode::NotSupported => 5,
            StatusCode::HostError => 6,
            StatusCode::ConnReset => 7,
            StatusCode::TooLarge => 8,
            StatusCode::AddrInUse => 9,
            StatusCode::AddrNotAvail => 10,
        }
    }
}

/// The status with this number, if there is one.
pub open spec fn status_of(raw: u16) -> Option<StatusCode> {
    match raw {
        1 => Some(StatusCode::UnknownOp),
        2 => Some(StatusCode::BadSocket),
        3 => Some(StatusCode::WouldBlock),
        4 => Some(StatusCode::ConnRefused),
        5 => Some(StatusCode::NotSupported),
        6 => Some(StatusCode::HostError),
        7 => Some(StatusCode::ConnReset),
        8 => Some(StatusCode::TooLarge),
        9 => Some(StatusCode::AddrInUse),
        10 => Some(StatusCode::AddrNotAvail),
        _ => None,
    }
}

pub fn decode_status(raw: u16) -> (status: Option<StatusCode>)
    ensures
        status == status_of(raw),
{
    match raw {
        1 => Some(StatusCode::UnknownOp),
        2 => Some(StatusCode::BadSocket),
        3 => Some(StatusCode::WouldBlock),
        4 => Some(StatusCode::ConnRefused),
        5 => Some(StatusCode::NotSupported),
        6 => Some(StatusCode::HostError),
        7 => Some(StatusCode::ConnReset),
        8 => Some(StatusCode::TooLarge),
        9 => Some(StatusCode::AddrInUse),
        10 => Some(StatusCode::AddrNotAvail),
        _ => None,
    }
}

/// A status is read back from its number.
pub proof fn law_status_round_trip(status: StatusCode)
    ensures
        status_of(status.number()) == Some(status),
        status.number() != 0,
{
}

/// An operation is determined by its number.
pub proof fn law_opcode_numbers_differ(a: OpCode, b: OpCode)
    ensures
        a.number() == b.number() ==> a == b,
{
}

/// The two bytes of a number, low byte first.
pub open spec fn le16(x: u16) -> Seq<u8> {
    seq![(x % 256) as u8, (x / 256) as u8]
}

/// The four bytes of a number, low byte first.
pub open spec fn le32(x: u32) -> Seq<u8> {
    seq![
        (x % 256) as u8,
        (x / 256 % 256) as u8,
        (x / 65536 % 256) as u8,
        (x / 16777216) as u8,
    ]
}

/// The number whose bytes stand at `i`, low byte first.
pub open spec fn le16_at(s: Seq<u8>, i: int) -> u16 {
    (s[i] + 256 * s[i + 1]) as u16
}

/// The number whose bytes stand at `i`, low byte first.
pub open spec fn le32_at(s: Seq<u8>, i: int) -> u32 {
    (s[i] + 256 * s[i + 1] + 65536 * s[i + 2] + 16777216 * s[i + 3]) as u32
}

/// A number is read back from its bytes.
pub proof fn law_le_round_trip(x: u16, y: u32)
    ensures
        le16_at(le16(x), 0) == x,
        le32_at(le32(y), 0) == y,
{
}

/// A socket address as it is sent.
#[derive(Clone, Copy, Debug)]
pub struct SockAddrBytes {
    pub family: u16,
    pub port: u16,
    pub v6_flow: u32,
    pub addr: [u8; 16],
    pub v6_scope: u32,
}

/// What a socket address holds.
#[verifier::ext_equal]
pub struct SockAddr {
    pub family: u16,
    pub port: u16,
    pub v6_flow: u32,
    pub addr: Seq<u8>,
    pub v6_scope: u32,
}

impl View for SockAddrBytes {
    type V = SockAddr;

    open spec fn view(&self) -> SockAddr {
        SockAddr {
            family: self.family,
            port: self.port,
            v6_flow: self.v6_flow,
            addr: self.addr@,
            v6_scope: self.v6_scope,
        }
    }
}

/// The address of an IPv4 socket: the four octets, then zeros.
pub open spec fn addr_v4(octets: Seq<u8>, port: u16) -> SockAddr {
    SockAddr {
        family: AF_INET_V,
        port,
        v6_flow: 0,
        addr: octets + Seq::new(12, |i: int| 0u8),
        v6_scope: 0,
    }
}

/// The address of an IPv6 socket.
pub open spec fn addr_v6(octets: Seq<u8>, port: u16, flow: u32, scope: u32) -> SockAddr {
    SockAddr { family: AF_INET6_V, port, v6_flow: flow, addr: octets, v6_scope: scope }
}

impl SockAddrBytes {
    pub fn v4(o: [u8; 4], port: u16) -> (a: Self)
        ensures
            a@ == addr_v4(o@, port),
    {
        let a = SockAddrBytes {
            family: AF_INET_V,
            port,
            v6_flow: 0,
            addr: [o[0], o[1], o[2], o[3], 0, 0, 0, 0, 0, 0, 0, 0, 0, 0, 0, 0],
            v6_scope: 0,
        };
        assert(a@ =~= addr_v4(o@, port));
        a
    }

    pub fn v6(octets: [u8; 16], port: u16, flow: u32, scope: u32) -> (a: Self)
        ensures
            a@ == addr_v6(octets@, port, flow, scope),
    {
        SockAddrBytes { family: AF_INET6_V, port, v6_flow: flow, addr: octets, v6_scope: scope }
    }
}

/// The bytes of a socket address: family, port, flow, the sixteen address bytes
/// and the scope, numbers low byte first.
pub open spec fn encode_addr(a: SockAddr) -> Seq<u8> {
    le16(a.family) + le16(a.port) + le32(a.v6_flow) + a.addr + le32(a.v6_scope)
}

/// The socket address at the start of `s`, where `s` is long enough for one.
pub open spec fn decode_addr(s: Seq<u8>) -> Option<SockAddr> {
    if s.len() < SOCKADDR_SIZE {
        None
    } else {
        Some(
            SockAddr {
                family: le16_at(s, 0),
                port: le16_at(s, 2),
                v6_flow: le32_at(s, 4),
                addr: s.subrange(8, 24),
                v6_scope: le32_at(s, 24),
            },
        )
    }
}

/// An address is read back from its bytes, whatever follows them.
pub proof fn law_addr_round_trip(a: SockAddr, rest: Seq<u8>)
    requires
        a.addr.len() == 16,
    ensures
        encode_addr(a).len() == SOCKADDR_SIZE,
        decode_addr(encode_addr(a) + rest) == Some(a),
        (encode_addr(a) + rest).skip(SOCKADDR_SIZE as int) == rest,
{
    let s = encode_addr(a) + rest;
    assert(s.subrange(8, 24) =~= a.addr);
    assert(s[0] == le16(a.family)[0] && s[1] == le16(a.family)[1]);
    assert(s[2] == le16(a.port)[0] && s[3] == le16(a.port)[1]);
    assert(s[4] == le32(a.v6_flow)[0] && s[5] == le32(a.v6_flow)[1] && s[6] == le32(a.v6_flow)[2]
        && s[7] == le32(a.v6_flow)[3]);
    assert(s[24] == le32(a.v6_scope)[0] && s[25] == le32(a.v6_scope)[1] && s[26] == le32(
        a.v6_scope,
    )[2] && s[27] == le32(a.v6_scope)[3]);
    law_le_round_trip(a.family, a.v6_flow);
    law_le_round_trip(a.port, a.v6_scope);
    assert(s.skip(28) =~= rest);
}

/// The bytes of a socket address.
pub fn sockaddr_bytes(a: &SockAddrBytes) -> (out: Vec<u8>)
    ensures
        out@ == encode_addr(a@),
{
    let mut out: Vec<u8> = Vec::new();
    push_le16(&mut out, a.family);
    push_le16(&mut out, a.port);
    push_le32(&mut out, a.v6_flow);
    let mut i: usize = 0;
    while i < 16
        invariant
            i <= 16,
            out@ == le16(a.family) + le16(a.port) + le32(a.v6_flow) + a.addr@.take(i as int),
        decreases 16 - i,
    {
        out.push(a.addr[i]);
        assert(a.addr@.take(i + 1) =~= a.addr@.take(i as int).push(a.addr[i as int]));
        i = i + 1;
    }
    assert(a.addr@.take(16) =~= a.addr@);
    push_le32(&mut out, a.v6_scope);
    out
}

/// Appends a number, low byte first.
pub fn push_le16(out: &mut Vec<u8>, x: u16)
    ensures
        final(out)@ == old(out)@ + le16(x),
{
    out.push((x % 256) as u8);
    out.push((x / 256) as u8);
    assert(out@ =~= old(out)@ + le16(x));
}

/// Appends a number, low byte first.
pub fn push_le32(out: &mut Vec<u8>, x: u32)
    ensures
        final(out)@ == old(out)@ + le32(x),
{
    out.push((x % 256) as u8);
    out.push((x / 256 % 256) as u8);
    out.push((x / 65536 % 256) as u8);
    out.push((x / 16777216) as u8);
    assert(out@ =~= old(out)@ + le32(x));
}

/// The number whose bytes stand at `i`, low byte first.
pub fn read_le16(s: &[u8], i: usize) -> (x: u16)
    requires
        i + 2 <= s.len(),
    ensures
        x == le16_at(s@, i as int),
{
    s[i] as u16 + 256 * (s[i + 1] as u16)
}

/// The number whose bytes stand at `i`, low byte first.
pub fn read_le32(s: &[u8], i: usize) -> (x: u32)
    requires
        i + 4 <= s.len(),
    ensures
        x == le32_at(s@, i as int),
{
    s[i] as u32 + 256 * (s[i + 1] as u32) + 65536 * (s[i + 2] as u32) + 16777216 * (s[i
        + 3] as u32)
}

/// The socket address at the start of `data`, if it is long enough.
pub fn parse_sockaddr(data: &[u8]) -> (a: Option<SockAddrBytes>)
    ensures
        match a {
            Some(v) => decode_addr(data@) == Some(v@),
            None => decode_addr(data@) is None,
        },
{
    if data.len() < SOCKADDR_SIZE {
        return None;
    }
    let addr: [u8; 16] = [
        data[8],
        data[9],
        data[10],
        data[11],
        data[12],
        data[13],
        data[14],
        data[15],
        data[16],
        data[17],
        data[18],
        data[19],
        data[20],
        data[21],
        data[22],
        data[23],
    ];
    let a = SockAddrBytes {
        family: read_le16(data, 0),
        port: read_le16(data, 2),
        v6_flow: read_le32(data, 4),
        addr,
        v6_scope: read_le32(data, 24),
    };
    assert(addr@ =~= data@.subrange(8, 24));
    Some(a)
}

/// The header of a message.
#[derive(Clone, Copy, Debug)]
pub struct SlotHeader {
    pub opcode: u16,
    pub flags: u16,
    pub correlation: u32,
    pub socket_id: u32,
    pub args: [u8; 16],
}

/// What a header holds.
#[verifier::ext_equal]
pub struct Header {
    pub opcode: u16,
    pub flags: u16,
    pub correlation: u32,
    pub socket_id: u32,
    pub args: Seq<u8>,
}

impl View for SlotHeader {
    type V = Header;

    open spec fn view(&self) -> Header {
        Header {
            opcode: self.opcode,
            flags: self.flags,
            correlation: self.correlation,
            socket_id: self.socket_id,
            args: self.args@,
        }
    }
}

/// Arguments that are all zero.
pub open spec fn no_args() -> Seq<u8> {
    Seq::new(16, |i: int| 0u8)
}

/// Arguments that hold one number.
pub open spec fn one_arg(n: u32) -> Seq<u8> {
    le32(n) + Seq::new(12, |i: int| 0u8)
}

/// Arguments that describe a socket to be made.
pub open spec fn socket_args(af: u16, typ: u16, proto: u32, flags: u32) -> Seq<u8> {
    le16(af) + le16(typ) + le32(proto) + le32(flags) + Seq::new(4, |i: int| 0u8)
}

/// The header of a request.
pub open spec fn request_header(op: OpCode, correlation: u32, socket_id: u32, args: Seq<u8>) -> Header {
    Header { opcode: op.number(), flags: 0, correlation, socket_id, args }
}

/// The header of a successful reply.
pub open spec fn ok_header(correlation: u32, socket_id: u32, args: Seq<u8>, more: bool) -> Header {
    Header {
        opcode: 0,
        flags: if more {
            FLAG_MORE
        } else {
            0
        },
        correlation,
        socket_id,
        args,
    }
}

/// The header of a reply that reports an error.
pub open spec fn err_header(correlation: u32, status: StatusCode) -> Header {
    Header {
        opcode: status.number(),
        flags: 0,
        correlation,
        socket_id: 0,
        args: no_args(),
    }
}

fn zero_args() -> (a: [u8; 16])
    ensures
        a@ == no_args(),
{
    let a: [u8; 16] = [0, 0, 0, 0, 0, 0, 0, 0, 0, 0, 0, 0, 0, 0, 0, 0];
    assert(a@ =~= no_args());
    a
}

/// Arguments that hold one number.
pub fn pack_u32(n: u32) -> (a: [u8; 16])
    ensures
        a@ == one_arg(n),
{
    let a: [u8; 16] = [
        (n % 256) as u8,
        (n / 256 % 256) as u8,
        (n / 65536 % 256) as u8,
        (n / 16777216) as u8,
        0,
        0,
        0,
        0,
        0,
        0,
        0,
        0,
        0,
        0,
        0,
        0,
    ];
    assert(a@ =~= one_arg(n));
    a
}

/// The number that the arguments hold.
pub fn unpack_u32(a: &[u8; 16]) -> (n: u32)
    ensures
        n == le32_at(a@, 0),
{
    a[0] as u32 + 256 * (a[1] as u32) + 65536 * (a[2] as u32) + 16777216 * (a[3] as u32)
}

/// Arguments that describe a socket to be made.
pub fn pack_socket_args(af: u16, typ: u16, proto: u32, flags: u32) -> (a: [u8; 16])
    ensures
        a@ == socket_args(af, typ, proto, flags),
{
    let a: [u8; 16] = [
        (af % 256) as u8,
        (af / 256) as u8,
        (typ % 256) as u8,
        (typ / 256) as u8,
        (proto % 256) as u8,
        (proto / 256 % 256) as u8,
        (proto / 65536 % 256) as u8,
        (proto / 16777216) as u8,
        (flags % 256) as u8,
        (flags / 256 % 256) as u8,
        (flags / 65536 % 256) as u8,
        (flags / 16777216) as u8,
        0,
        0,
        0,
        0,
    ];
    assert(a@ =~= socket_args(af, typ, proto, flags));
    a
}

/// The socket that the arguments describe: family, type, protocol and flags.
pub fn unpack_socket_args(a: &[u8; 16]) -> (r: (u16, u16, u32, u32))
    ensures
        r.0 == le16_at(a@, 0),
        r.1 == le16_at(a@, 2),
        r.2 == le32_at(a@, 4),
        r.3 == le32_at(a@, 8),
{
    (
        a[0] as u16 + 256 * (a[1] as u16),
        a[2] as u16 + 256 * (a[3] as u16),
        a[4] as u32 + 256 * (a[5] as u32) + 65536 * (a[6] as u32) + 16777216 * (a[7] as u32),
        a[8] as u32 + 256 * (a[9] as u32) + 65536 * (a[10] as u32) + 16777216 * (a[11] as u32),
    )
}

/// Arguments are read back as they were written.
pub proof fn law_args_round_trip(n: u32, af: u16, typ: u16, proto: u32, flags: u32)
    ensures
        one_arg(n).len() == 16,
        le32_at(one_arg(n), 0) == n,
        socket_args(af, typ, proto, flags).len() == 16,
        le16_at(socket_args(af, typ, proto, flags), 0) == af,
        le16_at(socket_args(af, typ, proto, flags), 2) == typ,
        le32_at(socket_args(af, typ, proto, flags), 4) == proto,
        le32_at(socket_args(af, typ, proto, flags), 8) == flags,
{
    law_le_round_trip(af, n);
    law_le_round_trip(typ, proto);
    law_le_round_trip(0, flags);
}

impl SlotHeader {
    /// The header of a request without socket or arguments.
    pub fn new(op: OpCode, correlation: u32) -> (h: Self)
        ensures
            h@ == request_header(op, correlation, 0, no_args()),
    {
        SlotHeader {
            opcode: op.to_raw(),
            flags: 0,
            correlation,
            socket_id: 0,
            args: zero_args(),
        }
    }

    /// The header of a successful reply.
    pub fn reply_ok(correlation: u32, socket_id: u32) -> (h: Self)
        ensures
            h@ == ok_header(correlation, socket_id, no_args(), false),
    {
        SlotHeader { opcode: 0, flags: 0, correlation, socket_id, args: zero_args() }
    }

    /// The header of a reply that reports an error.
    pub fn reply_err(correlation: u32, status: StatusCode) -> (h: Self)
        ensures
            h@ == err_header(correlation, status),
    {
        SlotHeader {
            opcode: status.to_raw(),
            flags: 0,
            correlation,
            socket_id: 0,
            args: zero_args(),
        }
    }

    /// Whether this is the header of a successful reply.
    pub fn is_ok(&self) -> (b: bool)
        ensures
            b == (self.opcode == 0),
    {
        self.opcode == 0
    }

    /// Whether another message continues this one.
    pub fn has_more(&self) -> (b: bool)
        ensures
            b == (self.flags & FLAG_MORE != 0),
    {
        self.flags & FLAG_MORE != 0
    }
}

/// A message.
pub struct Frame {
    pub header: SlotHeader,
    pub data: Vec<u8>,
}

/// What a message holds.
#[verifier::ext_equal]
pub struct Message {
    pub header: Header,
    pub data: Seq<u8>,
}

impl View for Frame {
    type V = Message;

    open spec fn view(&self) -> Message {
        Message { header: self.header@, data: self.data@ }
    }
}

/// What a list of messages holds.
pub open spec fn messages(v: Seq<Frame>) -> Seq<Message> {
    Seq::new(v.len(), |i: int| v[i]@)
}

/// The numbers that requests and errors go by on the wire; 0 is success.
pub proof fn law_wire_numbers(op: OpCode, status: StatusCode)
    ensures
        op == OpCode::Hello ==> op.number() == 1,
        op == OpCode::Socket ==> op.number() == 2,
        op == OpCode::Bind ==> op.number() == 3,
        op == OpCode::Connect ==> op.number() == 4,
        op == OpCode::Listen ==> op.number() == 5,
        op == OpCode::Accept ==> op.number() == 6,
        op == OpCode::Send ==> op.number() == 7,
        op == OpCode::Recv ==> op.number() == 8,
        op == OpCode::Close ==> op.number() == 9,
        op == OpCode::Shutdown ==> op.number() == 10,
        op == OpCode::GetSockName ==> op.number() == 11,
        op == OpCode::GetPeerName ==> op.number() == 12,
        op == OpCode::SetSockOpt ==> op.number() == 13,
        op == OpCode::GetSockOpt ==> op.number() == 14,
        op == OpCode::Resolve ==> op.number() == 15,
        op == OpCode::SendTo ==> op.number() == 16,
        op == OpCode::RecvFrom ==> op.number() == 17,
        op == OpCode::Bye ==> op.number() == 18,
        status == StatusCode::UnknownOp ==> status.number() == 1,
        status == StatusCode::BadSocket ==> status.number() == 2,
        status == StatusCode::WouldBlock ==> status.number() == 3,
        status == StatusCode::ConnRefused ==> status.number() == 4,
        status == StatusCode::NotSupported ==> status.number() == 5,
        status == StatusCode::HostError ==> status.number() == 6,
        status == StatusCode::ConnReset ==> status.number() == 7,
        status == StatusCode::TooLarge ==> status.number() == 8,
        status == StatusCode::AddrInUse ==> status.number() == 9,
        status == StatusCode::AddrNotAvail ==> status.number() == 10,
{
}

/// The numbers of Winsock, and the sizes on the wire.
pub proof fn law_wire_constants()
    ensures
        AF_INET_V == 2 && AF_INET6_V == 23,
        SOCK_STREAM_V == 1 && SOCK_DGRAM_V == 2,
        FLAG_MORE == 1,
        SOCKADDR_SIZE == 2 + 2 + 4 + 16 + 4,
        PROTOCOL_VERSION == 1,
{
}

/// An address as it is made: of its family, with its port and its octets, and
/// with nothing in what its family does not use.
pub proof fn law_addresses_made(octets: Seq<u8>, port: u16, flow: u32, scope: u32)
    requires
        octets.len() == 4,
    ensures
        addr_v4(octets, port).family == 2,
        addr_v4(octets, port).port == port,
        addr_v4(octets, port).addr.len() == 16,
        addr_v4(octets, port).addr.take(4) == octets,
        forall|i: int| 4 <= i < 16 ==> #[trigger] addr_v4(octets, port).addr[i] == 0,
        addr_v4(octets, port).v6_flow == 0 && addr_v4(octets, port).v6_scope == 0,
        addr_v6(octets, port, flow, scope) == (SockAddr {
            family: 23,
            port,
            v6_flow: flow,
            addr: octets,
            v6_scope: scope,
        }),
{
    assert(addr_v4(octets, port).addr.take(4) =~= octets);
}

/// An address on the wire: family, port, flow, octets and scope, numbers low
/// byte first.
pub proof fn law_addr_layout(a: SockAddr)
    requires
        a.addr.len() == 16,
    ensures
        ({
            let b = encode_addr(a);
            &&& b.len() == 28
            &&& b[0] + 256 * b[1] == a.family
            &&& b[2] + 256 * b[3] == a.port
            &&& b.subrange(8, 24) == a.addr
        }),
{
    let b = encode_addr(a);
    assert(b.subrange(8, 24) =~= a.addr);
}

/// A reply bears the number of its request. One that succeeded names its socket
/// and is marked where more follows; one that failed tells its error.
pub proof fn law_reply_headers(
    correlation: u32,
    id: u32,
    args: Seq<u8>,
    more: bool,
    status: StatusCode,
)
    ensures
        ok_header(correlation, id, args, more) == (Header {
            opcode: 0,
            flags: if more {
                1
            } else {
                0
            },
            correlation,
            socket_id: id,
            args,
        }),
        err_header(correlation, status).opcode == status.number(),
        err_header(correlation, status).opcode != 0,
        err_header(correlation, status).correlation == correlation,
        err_header(correlation, status).flags == 0,
        err_header(correlation, status).socket_id == 0,
{
}

} // verus!
