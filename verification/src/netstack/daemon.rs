//! The host side of the protocol: from a request to what the backend is asked,
//! and from what the backend answered to the reply.
//!
//! `Daemon::handle` takes a request apart. Most requests need the backend; the
//! caller asks it and hands the answer to `Daemon::reply`. Every request is
//! answered, and the last message of an answer is the only one without
//! `FLAG_MORE`.

use crate::netstack::wire::{
    decode_addr, encode_addr, err_header, le16_at, le32_at, messages, no_args, ok_header, one_arg,
    pack_u32, parse_sockaddr, sockaddr_bytes, unpack_socket_args, unpack_u32, Frame, Header,
    Message, OpCode, SlotHeader, SockAddr, SockAddrBytes, StatusCode, FLAG_MORE, PROTOCOL_VERSION,
    SOCKADDR_SIZE,
};
use vstd::prelude::*;
use vstd::utf8::{decode_utf8, valid_utf8};

verus! {

/// What a backend is asked. `A` is an address, `B` a run of bytes and `T` a
/// text.
pub enum Call<A, B, T> {
    Socket { af: u16, typ: u16, proto: u32 },
    Bind { addr: A },
    Connect { addr: A },
    Listen { backlog: u32 },
    Accept,
    Send { data: B },
    Recv { max: u32 },
    Close,
    Shutdown { how: u32 },
    GetSockName,
    GetPeerName,
    Resolve { name: T },
    SendTo { addr: A, data: B },
    RecvFrom { max: u32 },
}

/// What a backend answers.
pub enum Answer<A, B> {
    Id(u32),
    Done,
    Accepted(u32, A),
    Count(u32),
    Data(B),
    Addr(A),
    Datagram(B, A),
    Failed(StatusCode),
}

/// What becomes of a request: `F` is a message.
pub enum Handled<F, A, B, T> {
    /// It is answered at once.
    Reply(F),
    /// The backend is asked about the socket of the request.
    Ask(Call<A, B, T>),
    /// It is answered, and the daemon stops.
    Stop(F),
}

pub type HostCall = Call<SockAddrBytes, Vec<u8>, String>;

pub type HostAnswer = Answer<SockAddrBytes, Vec<u8>>;

impl View for Call<SockAddrBytes, Vec<u8>, String> {
    type V = Call<SockAddr, Seq<u8>, Seq<char>>;

    open spec fn view(&self) -> Call<SockAddr, Seq<u8>, Seq<char>> {
        match self {
            Call::Socket { af, typ, proto } => Call::Socket {
                af: *af,
                typ: *typ,
                proto: *proto,
            },
            Call::Bind { addr } => Call::Bind { addr: addr@ },
            Call::Connect { addr } => Call::Connect { addr: addr@ },
            Call::Listen { backlog } => Call::Listen { backlog: *backlog },
            Call::Accept => Call::Accept,
            Call::Send { data } => Call::Send { data: data@ },
            Call::Recv { max } => Call::Recv { max: *max },
            Call::Close => Call::Close,
            Call::Shutdown { how } => Call::Shutdown { how: *how },
            Call::GetSockName => Call::GetSockName,
            Call::GetPeerName => Call::GetPeerName,
            Call::Resolve { name } => Call::Resolve { name: name@ },
            Call::SendTo { addr, data } => Call::SendTo { addr: addr@, data: data@ },
            Call::RecvFrom { max } => Call::RecvFrom { max: *max },
        }
    }
}

impl View for Answer<SockAddrBytes, Vec<u8>> {
    type V = Answer<SockAddr, Seq<u8>>;

    open spec fn view(&self) -> Answer<SockAddr, Seq<u8>> {
        match self {
            Answer::Id(n) => Answer::Id(*n),
            Answer::Done => Answer::Done,
            Answer::Accepted(n, a) => Answer::Accepted(*n, a@),
            Answer::Count(n) => Answer::Count(*n),
            Answer::Data(b) => Answer::Data(b@),
            Answer::Addr(a) => Answer::Addr(a@),
            Answer::Datagram(b, a) => Answer::Datagram(b@, a@),
            Answer::Failed(s) => Answer::Failed(*s),
        }
    }
}

impl View for Handled<Frame, SockAddrBytes, Vec<u8>, String> {
    type V = Handled<Message, SockAddr, Seq<u8>, Seq<char>>;

    open spec fn view(&self) -> Handled<Message, SockAddr, Seq<u8>, Seq<char>> {
        match self {
            Handled::Reply(f) => Handled::Reply(f@),
            Handled::Ask(c) => Handled::Ask(c@),
            Handled::Stop(f) => Handled::Stop(f@),
        }
    }
}

/// A reply that reports an error.
pub open spec fn error_message(correlation: u32, status: StatusCode) -> Message {
    Message { header: err_header(correlation, status), data: Seq::empty() }
}

/// A reply that reports success in one message.
pub open spec fn ok_message(correlation: u32, socket_id: u32, args: Seq<u8>, data: Seq<u8>) -> Message {
    Message { header: ok_header(correlation, socket_id, args, false), data }
}

/// A reply that holds `bytes`, cut into messages of at most `capacity` bytes.
pub open spec fn fragments(correlation: u32, socket_id: u32, bytes: Seq<u8>, capacity: nat) -> Seq<
    Message,
>
    decreases bytes.len(),
{
    if bytes.len() <= capacity || capacity == 0 {
        seq![ok_message(correlation, socket_id, no_args(), bytes)]
    } else {
        seq![
            Message {
                header: ok_header(correlation, socket_id, no_args(), true),
                data: bytes.take(capacity as int),
            },
        ] + fragments(correlation, socket_id, bytes.skip(capacity as int), capacity)
    }
}

/// What becomes of a request with header `h` and the bytes `data`.
pub open spec fn handling(h: Header, data: Seq<u8>) -> Handled<
    Message,
    SockAddr,
    Seq<u8>,
    Seq<char>,
> {
    let c = h.correlation;
    let n = h.opcode;
    if n == OpCode::Hello.number() {
        Handled::Reply(ok_message(c, 0, one_arg(PROTOCOL_VERSION), Seq::empty()))
    } else if n == OpCode::Socket.number() {
        Handled::Ask(
            Call::Socket {
                af: le16_at(h.args, 0),
                typ: le16_at(h.args, 2),
                proto: le32_at(h.args, 4),
            },
        )
    } else if n == OpCode::Bind.number() {
        match decode_addr(data) {
            Some(addr) => Handled::Ask(Call::Bind { addr }),
            None => Handled::Reply(error_message(c, StatusCode::HostError)),
        }
    } else if n == OpCode::Connect.number() {
        match decode_addr(data) {
            Some(addr) => Handled::Ask(Call::Connect { addr }),
            None => Handled::Reply(error_message(c, StatusCode::HostError)),
        }
    } else if n == OpCode::Listen.number() {
        Handled::Ask(Call::Listen { backlog: le32_at(h.args, 0) })
    } else if n == OpCode::Accept.number() {
        Handled::Ask(Call::Accept)
    } else if n == OpCode::Send.number() {
        Handled::Ask(Call::Send { data })
    } else if n == OpCode::Recv.number() {
        Handled::Ask(Call::Recv { max: le32_at(h.args, 0) })
    } else if n == OpCode::Close.number() {
        Handled::Ask(Call::Close)
    } else if n == OpCode::Shutdown.number() {
        Handled::Ask(Call::Shutdown { how: le32_at(h.args, 0) })
    } else if n == OpCode::GetSockName.number() {
        Handled::Ask(Call::GetSockName)
    } else if n == OpCode::GetPeerName.number() {
        Handled::Ask(Call::GetPeerName)
    } else if n == OpCode::SetSockOpt.number() || n == OpCode::GetSockOpt.number() {
        Handled::Reply(ok_message(c, h.socket_id, no_args(), Seq::empty()))
    } else if n == OpCode::Resolve.number() {
        if valid_utf8(data) {
            Handled::Ask(Call::Resolve { name: decode_utf8(data) })
        } else {
            Handled::Reply(error_message(c, StatusCode::HostError))
        }
    } else if n == OpCode::SendTo.number() {
        match decode_addr(data) {
            Some(addr) => Handled::Ask(
                Call::SendTo { addr, data: data.skip(SOCKADDR_SIZE as int) },
            ),
            None => Handled::Reply(error_message(c, StatusCode::HostError)),
        }
    } else if n == OpCode::RecvFrom.number() {
        Handled::Ask(Call::RecvFrom { max: le32_at(h.args, 0) })
    } else if n == OpCode::Bye.number() {
        Handled::Stop(ok_message(c, h.socket_id, no_args(), Seq::empty()))
    } else {
        Handled::Reply(error_message(c, StatusCode::UnknownOp))
    }
}

/// The reply to a request, once the backend has answered. An answer of a kind
/// that the call cannot have is reported as an error of the host, and so is
/// every failure to resolve a name.
pub open spec fn replies(
    correlation: u32,
    socket_id: u32,
    call: Call<SockAddr, Seq<u8>, Seq<char>>,
    answer: Answer<SockAddr, Seq<u8>>,
    capacity: nat,
) -> Seq<Message> {
    let failed = seq![
        error_message(
            correlation,
            match answer {
                Answer::Failed(status) => status,
                _ => StatusCode::HostError,
            },
        ),
    ];
    let none = Seq::<u8>::empty();
    match call {
        Call::Socket { .. } => match answer {
            Answer::Id(id) => seq![ok_message(correlation, id, no_args(), none)],
            _ => failed,
        },
        Call::Bind { .. } | Call::Connect { .. } | Call::Listen { .. } | Call::Close
        | Call::Shutdown { .. } => match answer {
            Answer::Done => seq![ok_message(correlation, socket_id, no_args(), none)],
            _ => failed,
        },
        Call::Accept => match answer {
            Answer::Accepted(id, a) => seq![
                ok_message(correlation, id, no_args(), encode_addr(a)),
            ],
            _ => failed,
        },
        Call::Send { .. } | Call::SendTo { .. } => match answer {
            Answer::Count(n) => seq![ok_message(correlation, socket_id, one_arg(n), none)],
            _ => failed,
        },
        Call::Recv { .. } => match answer {
            Answer::Data(b) => fragments(correlation, socket_id, b, capacity),
            _ => failed,
        },
        Call::GetSockName | Call::GetPeerName => match answer {
            Answer::Addr(a) => seq![
                ok_message(correlation, socket_id, no_args(), encode_addr(a)),
            ],
            _ => failed,
        },
        Call::Resolve { .. } => match answer {
            Answer::Addr(a) => seq![ok_message(correlation, 0, no_args(), encode_addr(a))],
            _ => seq![error_message(correlation, StatusCode::HostError)],
        },
        Call::RecvFrom { .. } => match answer {
            Answer::Datagram(b, a) => fragments(
                correlation,
                socket_id,
                encode_addr(a) + b,
                capacity,
            ),
            _ => failed,
        },
    }
}

/// `std::str::from_utf8`: the text that the bytes encode, where they are UTF-8.
#[verifier::external_body]
fn utf8_text(data: &[u8]) -> (text: Option<String>)
    ensures
        match text {
            Some(s) => valid_utf8(data@) && s@ == decode_utf8(data@),
            None => !valid_utf8(data@),
        },
{
    match std::str::from_utf8(data) {
        Ok(s) => Some(s.to_string()),
        Err(_) => None,
    }
}

/// The bytes of `data` from `from` on.
pub fn bytes_from(data: &[u8], from: usize) -> (out: Vec<u8>)
    requires
        from <= data.len(),
    ensures
        out@ == data@.skip(from as int),
{
    let mut out: Vec<u8> = Vec::new();
    let mut i: usize = from;
    while i < data.len()
        invariant
            from <= i <= data.len(),
            out@ == data@.subrange(from as int, i as int),
        decreases data.len() - i,
    {
        out.push(data[i]);
        i = i + 1;
    }
    assert(data@.subrange(from as int, data@.len() as int) =~= data@.skip(from as int));
    out
}

/// The bytes of `data` from `from` up to `to`.
fn bytes_between(data: &[u8], from: usize, to: usize) -> (out: Vec<u8>)
    requires
        from <= to <= data.len(),
    ensures
        out@ == data@.subrange(from as int, to as int),
{
    let mut out: Vec<u8> = Vec::new();
    let mut i: usize = from;
    while i < to
        invariant
            from <= i <= to <= data.len(),
            out@ == data@.subrange(from as int, i as int),
        decreases to - i,
    {
        out.push(data[i]);
        i = i + 1;
    }
    out
}

/// The header and the value of a reply, from what the backend answered.
pub fn reply_from<T>(correlation: u32, socket_id: u32, result: Result<T, StatusCode>) -> (r: (
    SlotHeader,
    Option<T>,
))
    ensures
        match result {
            Ok(v) => r.0@ == ok_header(correlation, socket_id, no_args(), false) && r.1 == Some(v),
            Err(s) => r.0@ == err_header(correlation, s) && r.1 is None,
        },
{
    match result {
        Ok(v) => (SlotHeader::reply_ok(correlation, socket_id), Some(v)),
        Err(status) => (SlotHeader::reply_err(correlation, status), None),
    }
}

fn error_frame(correlation: u32, status: StatusCode) -> (f: Frame)
    ensures
        f@ == error_message(correlation, status),
{
    let f = Frame { header: SlotHeader::reply_err(correlation, status), data: Vec::new() };
    assert(f.data@ =~= Seq::<u8>::empty());
    f
}

fn ok_frame(correlation: u32, socket_id: u32, data: Vec<u8>) -> (f: Frame)
    ensures
        f@ == ok_message(correlation, socket_id, no_args(), data@),
{
    Frame { header: SlotHeader::reply_ok(correlation, socket_id), data }
}

fn empty_frame(correlation: u32, socket_id: u32) -> (f: Frame)
    ensures
        f@ == ok_message(correlation, socket_id, no_args(), Seq::empty()),
{
    let data: Vec<u8> = Vec::new();
    assert(data@ =~= Seq::<u8>::empty());
    ok_frame(correlation, socket_id, data)
}

fn count_frame(correlation: u32, socket_id: u32, n: u32) -> (f: Frame)
    ensures
        f@ == ok_message(correlation, socket_id, one_arg(n), Seq::empty()),
{
    let mut header = SlotHeader::reply_ok(correlation, socket_id);
    header.args = pack_u32(n);
    let f = Frame { header, data: Vec::new() };
    assert(f.data@ =~= Seq::<u8>::empty());
    f
}

fn one(f: Frame) -> (v: Vec<Frame>)
    ensures
        messages(v@) == seq![f@],
{
    let mut v: Vec<Frame> = Vec::new();
    v.push(f);
    assert(messages(v@) =~= seq![f@]);
    v
}

/// The messages of a reply that holds `bytes`.
fn fragment(correlation: u32, socket_id: u32, bytes: &[u8], capacity: usize) -> (v: Vec<Frame>)
    requires
        capacity > 0,
    ensures
        messages(v@) == fragments(correlation, socket_id, bytes@, capacity as nat),
{
    let mut v: Vec<Frame> = Vec::new();
    let mut start: usize = 0;
    let ghost whole = fragments(correlation, socket_id, bytes@, capacity as nat);
    proof {
        assert(bytes@.skip(0) =~= bytes@);
        assert(messages(v@) + whole =~= whole);
    }
    while bytes.len() - start > capacity
        invariant
            capacity > 0,
            start <= bytes.len(),
            messages(v@) + fragments(
                correlation,
                socket_id,
                bytes@.skip(start as int),
                capacity as nat,
            ) == whole,
        decreases bytes.len() - start,
    {
        let mut header = SlotHeader::reply_ok(correlation, socket_id);
        header.flags = FLAG_MORE;
        let data = bytes_between(bytes, start, start + capacity);
        let f = Frame { header, data };
        let ghost before = v@;
        proof {
            let rest = bytes@.skip(start as int);
            assert(rest.take(capacity as int) =~= f.data@);
            assert(rest.skip(capacity as int) =~= bytes@.skip(start + capacity));
            assert(messages(before.push(f)) =~= messages(before).push(f@));
            assert(messages(before.push(f)) + fragments(
                correlation,
                socket_id,
                bytes@.skip(start + capacity),
                capacity as nat,
            ) =~= messages(before) + fragments(correlation, socket_id, rest, capacity as nat));
        }
        v.push(f);
        start = start + capacity;
    }
    let f = ok_frame(correlation, socket_id, bytes_from(bytes, start));
    let ghost before = v@;
    v.push(f);
    proof {
        assert(messages(v@) =~= messages(before) + seq![f@]);
    }
    v
}

/// The daemon of one container. A slot of its channel holds `capacity` bytes.
pub struct Daemon {
    pub capacity: usize,
}

impl Daemon {
    pub fn new(capacity: usize) -> (d: Self)
        ensures
            d.capacity == capacity,
    {
        Daemon { capacity }
    }

    /// Takes a request apart.
    pub fn handle(&self, hdr: &SlotHeader, data: &[u8]) -> (h: Handled<
        Frame,
        SockAddrBytes,
        Vec<u8>,
        String,
    >)
        ensures
            h@ == handling(hdr@, data@),
    {
        let c: u32 = hdr.correlation;
        let op = match OpCode::from_raw(hdr.opcode) {
            Some(op) => op,
            None => {
                proof {
                    let n = hdr.opcode;
                    assert(n != OpCode::Hello.number());
                    assert(n != OpCode::Socket.number());
                    assert(n != OpCode::Bind.number());
                    assert(n != OpCode::Connect.number());
                    assert(n != OpCode::Listen.number());
                    assert(n != OpCode::Accept.number());
                    assert(n != OpCode::Send.number());
                    assert(n != OpCode::Recv.number());
                    assert(n != OpCode::Close.number());
                    assert(n != OpCode::Shutdown.number());
                    assert(n != OpCode::GetSockName.number());
                    assert(n != OpCode::GetPeerName.number());
                    assert(n != OpCode::SetSockOpt.number());
                    assert(n != OpCode::GetSockOpt.number());
                    assert(n != OpCode::Resolve.number());
                    assert(n != OpCode::SendTo.number());
                    assert(n != OpCode::RecvFrom.number());
                    assert(n != OpCode::Bye.number());
                }
                return Handled::Reply(error_frame(c, StatusCode::UnknownOp));
            },
        };
        match op {
            OpCode::Hello => Handled::Reply(count_frame(c, 0, PROTOCOL_VERSION)),
            OpCode::Socket => {
                let (af, typ, proto, _) = unpack_socket_args(&hdr.args);
                Handled::Ask(Call::Socket { af, typ, proto })
            },
            OpCode::Bind => match parse_sockaddr(data) {
                Some(addr) => Handled::Ask(Call::Bind { addr }),
                None => Handled::Reply(error_frame(c, StatusCode::HostError)),
            },
            OpCode::Connect => match parse_sockaddr(data) {
                Some(addr) => Handled::Ask(Call::Connect { addr }),
                None => Handled::Reply(error_frame(c, StatusCode::HostError)),
            },
            OpCode::Listen => Handled::Ask(Call::Listen { backlog: unpack_u32(&hdr.args) }),
            OpCode::Accept => Handled::Ask(Call::Accept),
            OpCode::Send => {
                assert(data@.skip(0) =~= data@);
                Handled::Ask(Call::Send { data: bytes_from(data, 0) })
            },
            OpCode::Recv => Handled::Ask(Call::Recv { max: unpack_u32(&hdr.args) }),
            OpCode::Close => Handled::Ask(Call::Close),
            OpCode::Shutdown => Handled::Ask(Call::Shutdown { how: unpack_u32(&hdr.args) }),
            OpCode::GetSockName => Handled::Ask(Call::GetSockName),
            OpCode::GetPeerName => Handled::Ask(Call::GetPeerName),
            OpCode::SetSockOpt => Handled::Reply(empty_frame(c, hdr.socket_id)),
            OpCode::GetSockOpt => Handled::Reply(empty_frame(c, hdr.socket_id)),
            OpCode::Resolve => match utf8_text(data) {
                Some(name) => Handled::Ask(Call::Resolve { name }),
                None => Handled::Reply(error_frame(c, StatusCode::HostError)),
            },
            OpCode::SendTo => match parse_sockaddr(data) {
                Some(addr) => Handled::Ask(
                    Call::SendTo { addr, data: bytes_from(data, SOCKADDR_SIZE) },
                ),
                None => Handled::Reply(error_frame(c, StatusCode::HostError)),
            },
            OpCode::RecvFrom => Handled::Ask(Call::RecvFrom { max: unpack_u32(&hdr.args) }),
            OpCode::Bye => Handled::Stop(empty_frame(c, hdr.socket_id)),
        }
    }

    /// The reply to a request that the backend was asked about.
    pub fn reply(&self, hdr: &SlotHeader, call: &HostCall, answer: HostAnswer) -> (v: Vec<Frame>)
        requires
            self.capacity > 0,
        ensures
            messages(v@) == replies(
                hdr.correlation,
                hdr.socket_id,
                call@,
                answer@,
                self.capacity as nat,
            ),
    {
        let c: u32 = hdr.correlation;
        let id: u32 = hdr.socket_id;
        match call {
            Call::Resolve { .. } => match answer {
                Answer::Addr(a) => one(ok_frame(c, 0, sockaddr_bytes(&a))),
                _ => one(error_frame(c, StatusCode::HostError)),
            },
            Call::Socket { .. } => match answer {
                Answer::Id(n) => one(empty_frame(c, n)),
                Answer::Failed(s) => one(error_frame(c, s)),
                _ => one(error_frame(c, StatusCode::HostError)),
            },
            Call::Accept => match answer {
                Answer::Accepted(n, a) => one(ok_frame(c, n, sockaddr_bytes(&a))),
                Answer::Failed(s) => one(error_frame(c, s)),
                _ => one(error_frame(c, StatusCode::HostError)),
            },
            Call::Recv { .. } => match answer {
                Answer::Data(b) => fragment(c, id, b.as_slice(), self.capacity),
                Answer::Failed(s) => one(error_frame(c, s)),
                _ => one(error_frame(c, StatusCode::HostError)),
            },
            Call::RecvFrom { .. } => match answer {
                Answer::Datagram(mut b, a) => {
                    let mut bytes = sockaddr_bytes(&a);
                    bytes.append(&mut b);
                    fragment(c, id, bytes.as_slice(), self.capacity)
                },
                Answer::Failed(s) => one(error_frame(c, s)),
                _ => one(error_frame(c, StatusCode::HostError)),
            },
            Call::Send { .. } | Call::SendTo { .. } => match answer {
                Answer::Count(n) => one(count_frame(c, id, n)),
                Answer::Failed(s) => one(error_frame(c, s)),
                _ => one(error_frame(c, StatusCode::HostError)),
            },
            Call::GetSockName | Call::GetPeerName => match answer {
                Answer::Addr(a) => one(ok_frame(c, id, sockaddr_bytes(&a))),
                Answer::Failed(s) => one(error_frame(c, s)),
                _ => one(error_frame(c, StatusCode::HostError)),
            },
            Call::Bind { .. } | Call::Connect { .. } | Call::Listen { .. } | Call::Close
            | Call::Shutdown { .. } => match answer {
                Answer::Done => one(empty_frame(c, id)),
                Answer::Failed(s) => one(error_frame(c, s)),
                _ => one(error_frame(c, StatusCode::HostError)),
            },
        }
    }
}

} // verus!
