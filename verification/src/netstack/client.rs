//! The container's side of the protocol: requests, and what their replies mean.
//!
//! Each request carries a correlation id of its own, which every message of the
//! reply repeats. An `Exchange` takes the messages of one reply in turn and
//! puts the bytes together again; a message with another correlation id is an
//! error of the protocol.

use crate::netstack::daemon::{
    error_message, fragments, handling, ok_message, replies, Answer, Call, Handled,
};
use crate::netstack::wire::{
    decode_addr, decode_status, encode_addr, err_header, law_addr_round_trip, law_args_round_trip,
    law_status_round_trip, le32_at, no_args, ok_header, one_arg, pack_socket_args, pack_u32,
    parse_sockaddr, request_header, sockaddr_bytes, socket_args, status_of, unpack_u32, Frame,
    Header, Message, OpCode, SlotHeader, SockAddr, SockAddrBytes, StatusCode, FLAG_MORE,
    SOCKADDR_SIZE,
};
use vstd::prelude::*;
use vstd::utf8::{encode_utf8, encode_utf8_decode_utf8, encode_utf8_valid_utf8, valid_utf8};

verus! {

/// Why a request has no result.
#[derive(Clone, Copy, Debug, PartialEq, Eq, Structural)]
pub enum ClientError {
    /// The channel failed.
    Io,
    /// The daemon reported an error.
    Status(StatusCode),
    /// The reply was malformed.
    Protocol(Malformed),
    /// No reply came in time.
    Timeout,
}

/// What was wrong with a reply.
#[derive(Clone, Copy, Debug, PartialEq, Eq, Structural)]
pub enum Malformed {
    RingError,
    CorrelationMismatch,
    BadStatus,
    BadPeer,
    BadSockAddr,
    RecvFromTooShort,
}

impl Malformed {
    pub open spec fn text(self) -> Seq<char> {
        match self {
            Malformed::RingError => "ring error"@,
            Malformed::CorrelationMismatch => "correlation mismatch"@,
            Malformed::BadStatus => "bad status"@,
            Malformed::BadPeer => "bad peer"@,
            Malformed::BadSockAddr => "bad sockaddr"@,
            Malformed::RecvFromTooShort => "recvfrom reply too short"@,
        }
    }

    /// The fault in words.
    pub fn describe(&self) -> (s: &'static str)
        ensures
            s@ == self.text(),
    {
        match self {
            Malformed::RingError => "ring error",
            Malformed::CorrelationMismatch => "correlation mismatch",
            Malformed::BadStatus => "bad status",
            Malformed::BadPeer => "bad peer",
            Malformed::BadSockAddr => "bad sockaddr",
            Malformed::RecvFromTooShort => "recvfrom reply too short",
        }
    }
}

/// A request for `call` on the socket `id`.
pub open spec fn request(
    correlation: u32,
    id: u32,
    call: Call<SockAddr, Seq<u8>, Seq<char>>,
) -> Message {
    match call {
        Call::Socket { af, typ, proto } => Message {
            header: request_header(
                OpCode::Socket,
                correlation,
                0,
                socket_args(af, typ, proto, 0),
            ),
            data: Seq::empty(),
        },
        Call::Bind { addr } => Message {
            header: request_header(OpCode::Bind, correlation, id, no_args()),
            data: encode_addr(addr),
        },
        Call::Connect { addr } => Message {
            header: request_header(OpCode::Connect, correlation, id, no_args()),
            data: encode_addr(addr),
        },
        Call::Listen { backlog } => Message {
            header: request_header(OpCode::Listen, correlation, id, one_arg(backlog)),
            data: Seq::empty(),
        },
        Call::Accept => Message {
            header: request_header(OpCode::Accept, correlation, id, no_args()),
            data: Seq::empty(),
        },
        Call::Send { data } => Message {
            header: request_header(OpCode::Send, correlation, id, no_args()),
            data,
        },
        Call::Recv { max } => Message {
            header: request_header(OpCode::Recv, correlation, id, one_arg(max)),
            data: Seq::empty(),
        },
        Call::Close => Message {
            header: request_header(OpCode::Close, correlation, id, no_args()),
            data: Seq::empty(),
        },
        Call::Shutdown { how } => Message {
            header: request_header(OpCode::Shutdown, correlation, id, one_arg(how)),
            data: Seq::empty(),
        },
        Call::GetSockName => Message {
            header: request_header(OpCode::GetSockName, correlation, id, no_args()),
            data: Seq::empty(),
        },
        Call::GetPeerName => Message {
            header: request_header(OpCode::GetPeerName, correlation, id, no_args()),
            data: Seq::empty(),
        },
        Call::Resolve { name } => Message {
            header: request_header(OpCode::Resolve, correlation, 0, no_args()),
            data: encode_utf8(name),
        },
        Call::SendTo { addr, data } => Message {
            header: request_header(OpCode::SendTo, correlation, id, no_args()),
            data: encode_addr(addr) + data,
        },
        Call::RecvFrom { max } => Message {
            header: request_header(OpCode::RecvFrom, correlation, id, one_arg(max)),
            data: Seq::empty(),
        },
    }
}

/// The state of a reply that is being received.
pub enum Receiving {
    /// The bytes that came so far; more will come.
    Partial(Seq<u8>),
    /// The header of the last message, and all the bytes.
    Complete(Header, Seq<u8>),
    Broken(ClientError),
}

/// The state after one more message of the reply to `correlation`.
pub open spec fn receive(correlation: u32, sofar: Seq<u8>, m: Message) -> Receiving {
    if m.header.correlation != correlation {
        Receiving::Broken(ClientError::Protocol(Malformed::CorrelationMismatch))
    } else if m.header.opcode != 0 {
        match status_of(m.header.opcode) {
            Some(s) => Receiving::Broken(ClientError::Status(s)),
            None => Receiving::Broken(ClientError::Protocol(Malformed::BadStatus)),
        }
    } else if m.header.flags & FLAG_MORE == 0 {
        Receiving::Complete(m.header, sofar + m.data)
    } else {
        Receiving::Partial(sofar + m.data)
    }
}

/// The state after a run of messages; those after the last one are not read.
pub open spec fn receive_all(correlation: u32, sofar: Seq<u8>, ms: Seq<Message>) -> Receiving
    decreases ms.len(),
{
    if ms.len() == 0 {
        Receiving::Partial(sofar)
    } else {
        match receive(correlation, sofar, ms[0]) {
            Receiving::Partial(b) => receive_all(correlation, b, ms.skip(1)),
            other => other,
        }
    }
}

/// What `call` gives, read off the complete reply.
pub open spec fn result(call: Call<SockAddr, Seq<u8>, Seq<char>>, r: Receiving) -> Result<
    Answer<SockAddr, Seq<u8>>,
    ClientError,
> {
    match r {
        Receiving::Partial(_) => Err(ClientError::Timeout),
        Receiving::Broken(e) => Err(e),
        Receiving::Complete(h, data) => match call {
            Call::Socket { .. } => Ok(Answer::Id(h.socket_id)),
            Call::Accept => match decode_addr(data) {
                Some(a) => Ok(Answer::Accepted(h.socket_id, a)),
                None => Err(ClientError::Protocol(Malformed::BadPeer)),
            },
            Call::Send { .. } | Call::SendTo { .. } => Ok(Answer::Count(le32_at(h.args, 0))),
            Call::Recv { .. } => Ok(Answer::Data(data)),
            Call::GetSockName | Call::GetPeerName | Call::Resolve { .. } => match decode_addr(
                data,
            ) {
                Some(a) => Ok(Answer::Addr(a)),
                None => Err(ClientError::Protocol(Malformed::BadSockAddr)),
            },
            Call::RecvFrom { .. } => match decode_addr(data) {
                Some(a) => Ok(Answer::Datagram(data.skip(SOCKADDR_SIZE as int), a)),
                None => Err(ClientError::Protocol(Malformed::RecvFromTooShort)),
            },
            Call::Bind { .. } | Call::Connect { .. } | Call::Listen { .. } | Call::Close
            | Call::Shutdown { .. } => Ok(Answer::Done),
        },
    }
}

/// Whether an address can be sent, that is, has sixteen address bytes.
pub open spec fn sendable(call: Call<SockAddr, Seq<u8>, Seq<char>>) -> bool {
    match call {
        Call::Bind { addr } => addr.addr.len() == 16,
        Call::Connect { addr } => addr.addr.len() == 16,
        Call::SendTo { addr, .. } => addr.addr.len() == 16,
        _ => true,
    }
}

/// Whether an answer is of the kind that the call has.
pub open spec fn fits(
    call: Call<SockAddr, Seq<u8>, Seq<char>>,
    answer: Answer<SockAddr, Seq<u8>>,
) -> bool {
    answer is Failed || match call {
        Call::Socket { .. } => answer is Id,
        Call::Accept => answer matches Answer::Accepted(_, a) && a.addr.len() == 16,
        Call::Send { .. } | Call::SendTo { .. } => answer is Count,
        Call::Recv { .. } => answer is Data,
        Call::GetSockName | Call::GetPeerName | Call::Resolve { .. } => answer matches Answer::Addr(
            a,
        ) && a.addr.len() == 16,
        Call::RecvFrom { .. } => answer matches Answer::Datagram(_, a) && a.addr.len() == 16,
        Call::Bind { .. } | Call::Connect { .. } | Call::Listen { .. } | Call::Close
        | Call::Shutdown { .. } => answer is Done,
    }
}

/// The daemon asks its backend exactly what the client was asked.
pub proof fn law_request_reaches_backend(
    correlation: u32,
    id: u32,
    call: Call<SockAddr, Seq<u8>, Seq<char>>,
)
    requires
        sendable(call),
    ensures
        handling(
            request(correlation, id, call).header,
            request(correlation, id, call).data,
        ) == Handled::<Message, SockAddr, Seq<u8>, Seq<char>>::Ask(call),
{
    match call {
        Call::Socket { af, typ, proto } => {
            law_args_round_trip(0, af, typ, proto, 0);
        },
        Call::Bind { addr } => {
            law_addr_round_trip(addr, Seq::empty());
            assert(encode_addr(addr) + Seq::<u8>::empty() =~= encode_addr(addr));
        },
        Call::Connect { addr } => {
            law_addr_round_trip(addr, Seq::empty());
            assert(encode_addr(addr) + Seq::<u8>::empty() =~= encode_addr(addr));
        },
        Call::Listen { backlog } => {
            law_args_round_trip(backlog, 0, 0, 0, 0);
        },
        Call::Recv { max } => {
            law_args_round_trip(max, 0, 0, 0, 0);
        },
        Call::Shutdown { how } => {
            law_args_round_trip(how, 0, 0, 0, 0);
        },
        Call::RecvFrom { max } => {
            law_args_round_trip(max, 0, 0, 0, 0);
        },
        Call::SendTo { addr, data } => {
            law_addr_round_trip(addr, data);
        },
        Call::Resolve { name } => {
            encode_utf8_valid_utf8(name);
            encode_utf8_decode_utf8(name);
        },
        _ => {},
    }
}

/// A reply that was cut into messages is put together again, whatever the size
/// of a slot.
pub proof fn law_fragments_reassemble(
    correlation: u32,
    id: u32,
    bytes: Seq<u8>,
    capacity: nat,
    sofar: Seq<u8>,
)
    requires
        capacity > 0,
    ensures
        receive_all(correlation, sofar, fragments(correlation, id, bytes, capacity))
            == Receiving::Complete(ok_header(correlation, id, no_args(), false), sofar + bytes),
    decreases bytes.len(),
{
    let ms = fragments(correlation, id, bytes, capacity);
    assert(FLAG_MORE & FLAG_MORE != 0 && 0u16 & FLAG_MORE == 0) by (bit_vector);
    if bytes.len() > capacity {
        let tail = fragments(correlation, id, bytes.skip(capacity as int), capacity);
        law_fragments_reassemble(
            correlation,
            id,
            bytes.skip(capacity as int),
            capacity,
            sofar + bytes.take(capacity as int),
        );
        assert(ms.skip(1) =~= tail);
        assert(sofar + bytes.take(capacity as int) + bytes.skip(capacity as int) =~= sofar + bytes);
    } else {
        assert(ms[0] == ok_message(correlation, id, no_args(), bytes));
    }
}

/// Every message of a cut reply fits a slot, and all but the last announce
/// another one.
pub proof fn law_fragments_fit(correlation: u32, id: u32, bytes: Seq<u8>, capacity: nat, i: int)
    requires
        capacity > 0,
        0 <= i < fragments(correlation, id, bytes, capacity).len(),
    ensures
        fragments(correlation, id, bytes, capacity)[i].data.len() <= capacity,
        fragments(correlation, id, bytes, capacity)[i].header == ok_header(
            correlation,
            id,
            no_args(),
            i < fragments(correlation, id, bytes, capacity).len() - 1,
        ),
    decreases bytes.len(),
{
    let ms = fragments(correlation, id, bytes, capacity);
    if bytes.len() > capacity {
        let tail = fragments(correlation, id, bytes.skip(capacity as int), capacity);
        lemma_fragments_nonempty(correlation, id, bytes.skip(capacity as int), capacity);
        if i > 0 {
            law_fragments_fit(correlation, id, bytes.skip(capacity as int), capacity, i - 1);
            assert(ms[i] == tail[i - 1]);
        }
    }
}

/// An answer to the request with this number: at least one message, all of
/// them with its number, and all but the last announce another one.
pub open spec fn answers(correlation: u32, ms: Seq<Message>) -> bool {
    &&& ms.len() > 0
    &&& forall|i: int|
        #![trigger ms[i]]
        0 <= i < ms.len() ==> ms[i].header.correlation == correlation && (ms[i].header.flags
            == FLAG_MORE <==> i < ms.len() - 1)
}

/// Every request is answered, with success or with an error, whatever its
/// header and its bytes are and whatever the backend says.
pub proof fn law_every_request_is_answered(
    h: Header,
    data: Seq<u8>,
    answer: Answer<SockAddr, Seq<u8>>,
    capacity: nat,
)
    requires
        capacity > 0,
    ensures
        match handling(h, data) {
            Handled::Reply(m) => answers(h.correlation, seq![m]),
            Handled::Stop(m) => answers(h.correlation, seq![m]),
            Handled::Ask(call) => answers(
                h.correlation,
                replies(h.correlation, h.socket_id, call, answer, capacity),
            ),
        },
{
    match handling(h, data) {
        Handled::Ask(call) => {
            let ms = replies(h.correlation, h.socket_id, call, answer, capacity);
            match (call, answer) {
                (Call::Recv { .. }, Answer::Data(b)) => {
                    lemma_fragments_answer(h.correlation, h.socket_id, b, capacity);
                },
                (Call::RecvFrom { .. }, Answer::Datagram(b, a)) => {
                    lemma_fragments_answer(
                        h.correlation,
                        h.socket_id,
                        encode_addr(a) + b,
                        capacity,
                    );
                },
                _ => {
                    assert(ms.len() == 1);
                },
            }
        },
        _ => {},
    }
}

proof fn lemma_fragments_answer(correlation: u32, id: u32, bytes: Seq<u8>, capacity: nat)
    requires
        capacity > 0,
    ensures
        answers(correlation, fragments(correlation, id, bytes, capacity)),
{
    let ms = fragments(correlation, id, bytes, capacity);
    lemma_fragments_nonempty(correlation, id, bytes, capacity);
    assert forall|i: int|
        #![trigger ms[i]]
        0 <= i < ms.len() implies ms[i].header.correlation == correlation && (ms[i].header.flags
        == FLAG_MORE <==> i < ms.len() - 1) by {
        law_fragments_fit(correlation, id, bytes, capacity, i);
    }
}

proof fn lemma_fragments_nonempty(correlation: u32, id: u32, bytes: Seq<u8>, capacity: nat)
    ensures
        fragments(correlation, id, bytes, capacity).len() > 0,
{
}

/// The client gets what the backend answered: a failure as the status that it
/// failed with (a name that was not resolved, as an error of the host), any
/// other answer as it is.
pub proof fn law_answer_reaches_client(
    correlation: u32,
    id: u32,
    call: Call<SockAddr, Seq<u8>, Seq<char>>,
    answer: Answer<SockAddr, Seq<u8>>,
    capacity: nat,
)
    requires
        capacity > 0,
        fits(call, answer),
    ensures
        result(
            call,
            receive_all(
                correlation,
                Seq::empty(),
                replies(correlation, id, call, answer, capacity),
            ),
        ) == (match answer {
            Answer::Failed(s) => Err::<Answer<SockAddr, Seq<u8>>, ClientError>(
                ClientError::Status(
                    if call is Resolve {
                        StatusCode::HostError
                    } else {
                        s
                    },
                ),
            ),
            a => Ok(a),
        }),
{
    let none = Seq::<u8>::empty();
    if answer is Failed {
        let s = if call is Resolve {
            StatusCode::HostError
        } else {
            answer->Failed_0
        };
        assert(replies(correlation, id, call, answer, capacity) == seq![
            error_message(correlation, s),
        ]);
        lemma_receive_error(correlation, s);
    } else {
        match call {
            Call::Recv { .. } => {
                let b = answer->Data_0;
                law_fragments_reassemble(correlation, id, b, capacity, none);
                assert(none + b =~= b);
            },
            Call::RecvFrom { .. } => {
                let b = answer->Datagram_0;
                let a = answer->Datagram_1;
                let bytes = encode_addr(a) + b;
                law_fragments_reassemble(correlation, id, bytes, capacity, none);
                assert(none + bytes =~= bytes);
                law_addr_round_trip(a, b);
            },
            Call::Socket { .. } => {
                lemma_receive_ok(correlation, answer->Id_0, no_args(), none);
            },
            Call::Accept => {
                let a = answer->Accepted_1;
                lemma_receive_ok(correlation, answer->Accepted_0, no_args(), encode_addr(a));
                law_addr_round_trip(a, none);
                assert(encode_addr(a) + none =~= encode_addr(a));
            },
            Call::GetSockName | Call::GetPeerName | Call::Resolve { .. } => {
                let a = answer->Addr_0;
                lemma_receive_ok(correlation, id, no_args(), encode_addr(a));
                lemma_receive_ok(correlation, 0, no_args(), encode_addr(a));
                law_addr_round_trip(a, none);
                assert(encode_addr(a) + none =~= encode_addr(a));
            },
            Call::Send { .. } | Call::SendTo { .. } => {
                lemma_receive_ok(correlation, id, one_arg(answer->Count_0), none);
                law_args_round_trip(answer->Count_0, 0, 0, 0, 0);
            },
            _ => {
                lemma_receive_ok(correlation, id, no_args(), none);
            },
        }
    }
}

proof fn lemma_receive_ok(correlation: u32, id: u32, args: Seq<u8>, data: Seq<u8>)
    ensures
        receive_all(
            correlation,
            Seq::empty(),
            seq![ok_message(correlation, id, args, data)],
        ) == Receiving::Complete(ok_header(correlation, id, args, false), data),
{
    let ms = seq![ok_message(correlation, id, args, data)];
    assert(0u16 & FLAG_MORE == 0) by (bit_vector);
    assert(ms[0] == ok_message(correlation, id, args, data));
    assert(Seq::<u8>::empty() + data =~= data);
}

proof fn lemma_receive_error(correlation: u32, status: StatusCode)
    ensures
        receive_all(correlation, Seq::empty(), seq![error_message(correlation, status)])
            == Receiving::Broken(ClientError::Status(status)),
{
    let ms = seq![error_message(correlation, status)];
    assert(ms[0] == error_message(correlation, status));
    law_status_round_trip(status);
}

/// A greeting is answered with the version of the protocol.
pub proof fn law_hello_gives_version(correlation: u32)
    ensures
        ({
            let h = request_header(OpCode::Hello, correlation, 0, no_args());
            &&& handling(h, Seq::empty()) matches Handled::Reply(m)
            &&& receive(correlation, Seq::empty(), m) matches Receiving::Complete(r, _)
            &&& le32_at(r.args, 0) == 1
        }),
{
    law_args_round_trip(1, 0, 0, 0, 0);
    assert(0u16 & FLAG_MORE == 0) by (bit_vector);
}

/// Hands out the correlation ids of one channel.
pub struct Client {
    pub next_correlation: u32,
}

/// The correlation id of a new client's request after `k` others.
pub open spec fn nth_id(k: nat) -> u32
    decreases k,
{
    if k == 0 {
        1
    } else {
        nth_id((k - 1) as nat).wrapping_add(1)
    }
}

/// The correlation ids of a client grow with every request, until the largest
/// was used.
pub proof fn law_ids_grow(i: nat, j: nat)
    requires
        i < j < u32::MAX,
    ensures
        nth_id(i) < nth_id(j),
{
    lemma_nth_id(i);
    lemma_nth_id(j);
}

proof fn lemma_nth_id(k: nat)
    requires
        k < u32::MAX,
    ensures
        nth_id(k) == k + 1,
    decreases k,
{
    if k > 0 {
        lemma_nth_id((k - 1) as nat);
    }
}

fn plain(header: SlotHeader) -> (f: Frame)
    ensures
        f@ == (Message { header: header@, data: Seq::empty() }),
{
    let f = Frame { header, data: Vec::new() };
    assert(f.data@ =~= Seq::<u8>::empty());
    f
}

fn copy_bytes(data: &[u8]) -> (v: Vec<u8>)
    ensures
        v@ == data@,
{
    let mut v: Vec<u8> = Vec::new();
    let mut i: usize = 0;
    while i < data.len()
        invariant
            i <= data.len(),
            v@ == data@.take(i as int),
        decreases data.len() - i,
    {
        v.push(data[i]);
        i = i + 1;
    }
    assert(data@.take(data@.len() as int) =~= data@);
    v
}

impl Client {
    pub fn new() -> (c: Self)
        ensures
            c.next_correlation == 1,
    {
        Client { next_correlation: 1 }
    }

    /// A correlation id for one more request; after the largest comes 0.
    pub fn next_id(&mut self) -> (id: u32)
        ensures
            id == old(self).next_correlation,
            final(self).next_correlation == (if id == u32::MAX {
                0
            } else {
                (id + 1) as u32
            }),
    {
        let id: u32 = self.next_correlation;
        self.next_correlation = id.wrapping_add(1);
        id
    }

    /// The request that opens the conversation.
    pub fn hello(&mut self) -> (f: Frame)
        ensures
            f@.header == request_header(
                OpCode::Hello,
                old(self).next_correlation,
                0,
                no_args(),
            ),
            f@.data.len() == 0,
            final(self).next_correlation == old(self).next_correlation.wrapping_add(1),
    {
        let c: u32 = self.next_id();
        plain(SlotHeader::new(OpCode::Hello, c))
    }

    pub fn socket(&mut self, af: u16, typ: u16, proto: u32) -> (f: Frame)
        ensures
            f@ == request(old(self).next_correlation, 0, Call::Socket { af, typ, proto }),
            final(self).next_correlation == old(self).next_correlation.wrapping_add(1),
    {
        let c: u32 = self.next_id();
        let mut h = SlotHeader::new(OpCode::Socket, c);
        h.args = pack_socket_args(af, typ, proto, 0);
        plain(h)
    }

    pub fn bind(&mut self, socket_id: u32, addr: &SockAddrBytes) -> (f: Frame)
        ensures
            f@ == request(old(self).next_correlation, socket_id, Call::Bind { addr: addr@ }),
            final(self).next_correlation == old(self).next_correlation.wrapping_add(1),
    {
        let c: u32 = self.next_id();
        let mut header = SlotHeader::new(OpCode::Bind, c);
        header.socket_id = socket_id;
        Frame { header, data: sockaddr_bytes(addr) }
    }

    pub fn connect(&mut self, socket_id: u32, addr: &SockAddrBytes) -> (f: Frame)
        ensures
            f@ == request(old(self).next_correlation, socket_id, Call::Connect { addr: addr@ }),
            final(self).next_correlation == old(self).next_correlation.wrapping_add(1),
    {
        let c: u32 = self.next_id();
        let mut header = SlotHeader::new(OpCode::Connect, c);
        header.socket_id = socket_id;
        Frame { header, data: sockaddr_bytes(addr) }
    }

    pub fn listen(&mut self, socket_id: u32, backlog: u32) -> (f: Frame)
        ensures
            f@ == request(old(self).next_correlation, socket_id, Call::Listen { backlog }),
            final(self).next_correlation == old(self).next_correlation.wrapping_add(1),
    {
        let c: u32 = self.next_id();
        let mut h = SlotHeader::new(OpCode::Listen, c);
        h.socket_id = socket_id;
        h.args = pack_u32(backlog);
        plain(h)
    }

    pub fn accept(&mut self, socket_id: u32) -> (f: Frame)
        ensures
            f@ == request(old(self).next_correlation, socket_id, Call::Accept),
            final(self).next_correlation == old(self).next_correlation.wrapping_add(1),
    {
        let c: u32 = self.next_id();
        let mut h = SlotHeader::new(OpCode::Accept, c);
        h.socket_id = socket_id;
        plain(h)
    }

    pub fn send(&mut self, socket_id: u32, data: &[u8]) -> (f: Frame)
        ensures
            f@ == request(old(self).next_correlation, socket_id, Call::Send { data: data@ }),
            final(self).next_correlation == old(self).next_correlation.wrapping_add(1),
    {
        let c: u32 = self.next_id();
        let mut header = SlotHeader::new(OpCode::Send, c);
        header.socket_id = socket_id;
        Frame { header, data: copy_bytes(data) }
    }

    pub fn recv(&mut self, socket_id: u32, max: u32) -> (f: Frame)
        ensures
            f@ == request(old(self).next_correlation, socket_id, Call::Recv { max }),
            final(self).next_correlation == old(self).next_correlation.wrapping_add(1),
    {
        let c: u32 = self.next_id();
        let mut h = SlotHeader::new(OpCode::Recv, c);
        h.socket_id = socket_id;
        h.args = pack_u32(max);
        plain(h)
    }

    pub fn close(&mut self, socket_id: u32) -> (f: Frame)
        ensures
            f@ == request(old(self).next_correlation, socket_id, Call::Close),
            final(self).next_correlation == old(self).next_correlation.wrapping_add(1),
    {
        let c: u32 = self.next_id();
        let mut h = SlotHeader::new(OpCode::Close, c);
        h.socket_id = socket_id;
        plain(h)
    }

    pub fn shutdown(&mut self, socket_id: u32, how: u32) -> (f: Frame)
        ensures
            f@ == request(old(self).next_correlation, socket_id, Call::Shutdown { how }),
            final(self).next_correlation == old(self).next_correlation.wrapping_add(1),
    {
        let c: u32 = self.next_id();
        let mut h = SlotHeader::new(OpCode::Shutdown, c);
        h.socket_id = socket_id;
        h.args = pack_u32(how);
        plain(h)
    }

    pub fn getsockname(&mut self, socket_id: u32) -> (f: Frame)
        ensures
            f@ == request(old(self).next_correlation, socket_id, Call::GetSockName),
            final(self).next_correlation == old(self).next_correlation.wrapping_add(1),
    {
        let c: u32 = self.next_id();
        let mut h = SlotHeader::new(OpCode::GetSockName, c);
        h.socket_id = socket_id;
        plain(h)
    }

    pub fn getpeername(&mut self, socket_id: u32) -> (f: Frame)
        ensures
            f@ == request(old(self).next_correlation, socket_id, Call::GetPeerName),
            final(self).next_correlation == old(self).next_correlation.wrapping_add(1),
    {
        let c: u32 = self.next_id();
        let mut h = SlotHeader::new(OpCode::GetPeerName, c);
        h.socket_id = socket_id;
        plain(h)
    }

    /// A datagram to `addr`: the address and the bytes in one message.
    pub fn sendto(&mut self, socket_id: u32, addr: &SockAddrBytes, data: &[u8]) -> (f: Frame)
        ensures
            f@ == request(
                old(self).next_correlation,
                socket_id,
                Call::SendTo { addr: addr@, data: data@ },
            ),
            final(self).next_correlation == old(self).next_correlation.wrapping_add(1),
    {
        let c: u32 = self.next_id();
        let mut header = SlotHeader::new(OpCode::SendTo, c);
        header.socket_id = socket_id;
        let mut payload = sockaddr_bytes(addr);
        let mut bytes = copy_bytes(data);
        payload.append(&mut bytes);
        Frame { header, data: payload }
    }

    pub fn recvfrom(&mut self, socket_id: u32, max: u32) -> (f: Frame)
        ensures
            f@ == request(old(self).next_correlation, socket_id, Call::RecvFrom { max }),
            final(self).next_correlation == old(self).next_correlation.wrapping_add(1),
    {
        let c: u32 = self.next_id();
        let mut h = SlotHeader::new(OpCode::RecvFrom, c);
        h.socket_id = socket_id;
        h.args = pack_u32(max);
        plain(h)
    }
}

impl Default for Client {
    fn default() -> (c: Self)
        ensures
            c.next_correlation == 1,
    {
        Client::new()
    }
}

/// One request whose reply is being received.
pub struct Exchange {
    pub correlation: u32,
    pub combined: Vec<u8>,
}

/// Where the reply stands after a message.
pub enum Progress {
    /// Another message has to come.
    More,
    /// This was the last one.
    Complete(SlotHeader),
    Failed(ClientError),
}

impl Exchange {
    /// The exchange of a request that was just sent.
    pub fn new(correlation: u32) -> (x: Self)
        ensures
            x.correlation == correlation,
            x.combined@ == Seq::<u8>::empty(),
    {
        let x = Exchange { correlation, combined: Vec::new() };
        assert(x.combined@ =~= Seq::<u8>::empty());
        x
    }

    /// Takes one message of the reply.
    pub fn exchange(&mut self, f: Frame) -> (p: Progress)
        ensures
            final(self).correlation == old(self).correlation,
            match receive(old(self).correlation, old(self).combined@, f@) {
                Receiving::Partial(b) => p is More && final(self).combined@ == b,
                Receiving::Complete(h, b) => {
                    &&& p matches Progress::Complete(r)
                    &&& r@ == h
                    &&& final(self).combined@ == b
                },
                Receiving::Broken(e) => {
                    &&& p == Progress::Failed(e)
                    &&& final(self).combined@ == old(self).combined@
                },
            },
    {
        if f.header.correlation != self.correlation {
            return Progress::Failed(ClientError::Protocol(Malformed::CorrelationMismatch));
        }
        if !f.header.is_ok() {
            return match decode_status(f.header.opcode) {
                Some(s) => Progress::Failed(ClientError::Status(s)),
                None => Progress::Failed(ClientError::Protocol(Malformed::BadStatus)),
            };
        }
        let header = f.header;
        let mut data = f.data;
        self.combined.append(&mut data);
        if header.has_more() {
            Progress::More
        } else {
            Progress::Complete(header)
        }
    }
}

/// The number in the arguments of a complete reply: the version that a greeting
/// was answered with, or the number of bytes that were sent.
pub fn reply_number(header: &SlotHeader) -> (n: u32)
    ensures
        n == le32_at(header.args@, 0),
{
    unpack_u32(&header.args)
}

/// The new socket and its peer, from the reply to an accept.
pub fn accept_result(header: &SlotHeader, data: &[u8]) -> (r: Result<
    (u32, SockAddrBytes),
    ClientError,
>)
    ensures
        match r {
            Ok(p) => result(Call::Accept, Receiving::Complete(header@, data@)) == Ok::<
                Answer<SockAddr, Seq<u8>>,
                ClientError,
            >(Answer::Accepted(p.0, p.1@)),
            Err(e) => result(Call::Accept, Receiving::Complete(header@, data@)) == Err::<
                Answer<SockAddr, Seq<u8>>,
                ClientError,
            >(e),
        },
{
    match parse_sockaddr(data) {
        Some(a) => Ok((header.socket_id, a)),
        None => Err(ClientError::Protocol(Malformed::BadPeer)),
    }
}

/// The address in the reply to a question for one.
pub fn address_result(header: &SlotHeader, data: &[u8]) -> (r: Result<SockAddrBytes, ClientError>)
    ensures
        match r {
            Ok(a) => result(Call::GetSockName, Receiving::Complete(header@, data@)) == Ok::<
                Answer<SockAddr, Seq<u8>>,
                ClientError,
            >(Answer::Addr(a@)),
            Err(e) => result(Call::GetSockName, Receiving::Complete(header@, data@)) == Err::<
                Answer<SockAddr, Seq<u8>>,
                ClientError,
            >(e),
        },
{
    match parse_sockaddr(data) {
        Some(a) => Ok(a),
        None => Err(ClientError::Protocol(Malformed::BadSockAddr)),
    }
}

/// The datagram and its sender, from the reply to a receive.
pub fn datagram_result(data: &[u8]) -> (r: Result<(Vec<u8>, SockAddrBytes), ClientError>)
    ensures
        match (r, decode_addr(data@)) {
            (Ok(p), Some(a)) => p.0@ == data@.skip(SOCKADDR_SIZE as int) && p.1@ == a,
            (Err(e), None) => e == ClientError::Protocol(Malformed::RecvFromTooShort),
            _ => false,
        },
{
    match parse_sockaddr(data) {
        Some(a) => Ok((crate::netstack::daemon::bytes_from(data, SOCKADDR_SIZE), a)),
        None => Err(ClientError::Protocol(Malformed::RecvFromTooShort)),
    }
}

/// A reply counts only for the request whose number it bears; an error ends it
/// with its status, and what comes in parts is put together in order.
pub proof fn law_receiving(correlation: u32, sofar: Seq<u8>, m: Message, status: StatusCode)
    ensures
        m.header.correlation != correlation ==> receive(correlation, sofar, m) == Receiving::Broken(
            ClientError::Protocol(Malformed::CorrelationMismatch),
        ),
        m.header.correlation == correlation && m.header.opcode == status.number() ==> receive(
            correlation,
            sofar,
            m,
        ) == Receiving::Broken(ClientError::Status(status)),
        m.header.correlation == correlation && m.header.opcode > 10 ==> receive(
            correlation,
            sofar,
            m,
        ) == Receiving::Broken(ClientError::Protocol(Malformed::BadStatus)),
        m.header.correlation == correlation && m.header.opcode == 0 && m.header.flags & 1 != 0
            ==> receive(correlation, sofar, m) == Receiving::Partial(sofar + m.data),
        m.header.correlation == correlation && m.header.opcode == 0 && m.header.flags & 1 == 0
            ==> receive(correlation, sofar, m) == Receiving::Complete(m.header, sofar + m.data),
{
    law_status_round_trip(status);
}

/// A malformed reply is described by what is wrong with it.
pub proof fn law_malformed_texts(m: Malformed)
    ensures
        m == Malformed::RingError ==> m.text() == "ring error"@,
        m == Malformed::CorrelationMismatch ==> m.text() == "correlation mismatch"@,
        m == Malformed::BadStatus ==> m.text() == "bad status"@,
        m == Malformed::BadPeer ==> m.text() == "bad peer"@,
        m == Malformed::BadSockAddr ==> m.text() == "bad sockaddr"@,
        m == Malformed::RecvFromTooShort ==> m.text() == "recvfrom reply too short"@,
{
}

/// Every request tells the daemon which socket it is about and bears its own
/// number; only making a socket and looking up a name are about none.
pub proof fn law_requests_name_their_socket(
    correlation: u32,
    id: u32,
    call: Call<SockAddr, Seq<u8>, Seq<char>>,
)
    ensures
        request(correlation, id, call).header.correlation == correlation,
        request(correlation, id, call).header.flags == 0,
        request(correlation, id, call).header.socket_id == (if call is Socket || call is Resolve {
            0
        } else {
            id
        }),
{
}

/// What the daemon makes of a request that it does not pass on: options of
/// sockets are granted, a request that it cannot read is an error of the host,
/// one that it does not know is told so, and a goodbye is answered before the
/// daemon stops.
pub proof fn law_requests_not_passed_on(h: Header, data: Seq<u8>)
    ensures
        ({
            let c = h.correlation;
            let done = handling(h, data);
            let bad = Handled::<Message, SockAddr, Seq<u8>, Seq<char>>::Reply(
                Message { header: err_header(c, StatusCode::HostError), data: Seq::empty() },
            );
            &&& h.opcode == 0 || h.opcode > 18 ==> done == Handled::<
                Message,
                SockAddr,
                Seq<u8>,
                Seq<char>,
            >::Reply(Message { header: err_header(c, StatusCode::UnknownOp), data: Seq::empty() })
            &&& h.opcode == 13 || h.opcode == 14 ==> done == Handled::<
                Message,
                SockAddr,
                Seq<u8>,
                Seq<char>,
            >::Reply(
                Message {
                    header: ok_header(c, h.socket_id, no_args(), false),
                    data: Seq::empty(),
                },
            )
            &&& h.opcode == 18 ==> done == Handled::<Message, SockAddr, Seq<u8>, Seq<char>>::Stop(
                Message {
                    header: ok_header(c, h.socket_id, no_args(), false),
                    data: Seq::empty(),
                },
            )
            &&& (h.opcode == 3 || h.opcode == 4 || h.opcode == 16) && data.len() < 28 ==> done
                == bad
            &&& h.opcode == 15 && !valid_utf8(data) ==> done == bad
        }),
{
}

/// An answer that failed is told by its status, under the number of its request,
/// but for a name that was not found, which is an error of the host.
pub proof fn law_failures_are_told(
    correlation: u32,
    id: u32,
    call: Call<SockAddr, Seq<u8>, Seq<char>>,
    status: StatusCode,
    capacity: nat,
)
    ensures
        replies(correlation, id, call, Answer::Failed(status), capacity) == seq![
            Message {
                header: err_header(
                    correlation,
                    if call is Resolve {
                        StatusCode::HostError
                    } else {
                        status
                    },
                ),
                data: Seq::empty(),
            },
        ],
{
}

} // verus!
