use psroot::netstack::client::{
    accept_result, address_result, datagram_result, reply_number, Client, ClientError, Exchange,
    Malformed, Progress,
};
use psroot::netstack::daemon::{
    reply_from, Answer, Call, Daemon, Handled, HostAnswer, HostCall,
};
use psroot::netstack::nat_backend::{
    map_io_err, peer_sockaddr, sockaddr_to_std, to_socket_addrs_best, translated, BindNeeds, HostAddr, IoKind,
    ListenNeeds, NatBackend, ShutdownSide, SockName,
};
use psroot::netstack::socket_table::SocketTable;
use psroot::netstack::wire::{
    decode_status, pack_socket_args, pack_u32, parse_sockaddr, sockaddr_bytes, unpack_socket_args,
    unpack_u32, Frame, OpCode, SlotHeader, SockAddrBytes, StatusCode, AF_INET6_V, AF_INET_V,
    FLAG_MORE, SOCKADDR_SIZE,
};

type Backend = NatBackend<u32>;

/// Answers the calls that need no socket of the host.
fn answer(b: &mut Backend, id: u32, call: &HostCall) -> HostAnswer {
    match call {
        Call::Socket { af, typ, proto } => match b.socket(*af, *typ, *proto) {
            Ok(n) => Answer::Id(n),
            Err(s) => Answer::Failed(s),
        },
        Call::GetSockName => match b.get_sock_name(id) {
            Ok(SockName::Known(a)) => Answer::Addr(a),
            Ok(SockName::PortOf(_)) => Answer::Failed(StatusCode::HostError),
            Err(s) => Answer::Failed(s),
        },
        Call::Close => {
            b.close(id);
            Answer::Done
        }
        _ => Answer::Failed(StatusCode::NotSupported),
    }
}

/// What the daemon sends back for one message.
fn serve(d: &Daemon, b: &mut Backend, f: &Frame) -> Vec<Frame> {
    match d.handle(&f.header, &f.data) {
        Handled::Reply(r) => vec![r],
        Handled::Ask(call) => {
            let a = answer(b, f.header.socket_id, &call);
            d.reply(&f.header, &call, a)
        }
        Handled::Stop(r) => vec![r],
    }
}

/// The header and the bytes of a reply.
fn finish(correlation: u32, frames: Vec<Frame>) -> Result<(SlotHeader, Vec<u8>), ClientError> {
    let mut x = Exchange::new(correlation);
    for f in frames {
        match x.exchange(f) {
            Progress::More => (),
            Progress::Complete(h) => return Ok((h, x.combined)),
            Progress::Failed(e) => return Err(e),
        }
    }
    Err(ClientError::Timeout)
}

fn ask(
    d: &Daemon,
    b: &mut Backend,
    f: Frame,
) -> Result<(SlotHeader, Vec<u8>), ClientError> {
    let replies = serve(d, b, &f);
    finish(f.header.correlation, replies)
}

#[test]
fn insert_and_get() {
    let mut t: SocketTable<&'static str> = SocketTable::new();
    let a = t.insert("alpha");
    let b = t.insert("beta");
    assert!(a >= 1);
    assert_ne!(a, b);
    assert_eq!(t.get(a), Some(&"alpha"));
    assert_eq!(t.get(b), Some(&"beta"));
}

#[test]
fn remove_and_reuse() {
    let mut t: SocketTable<u32> = SocketTable::new();
    let a = t.insert(10);
    t.remove(a).unwrap();
    let b = t.insert(20);
    assert_eq!(a, b, "freed ids should be recycled");
    assert_eq!(t.get(b), Some(&20));
}

#[test]
fn id_zero_is_reserved() {
    let mut t: SocketTable<u32> = SocketTable::new();
    for _ in 0..5 {
        let id = t.insert(0);
        assert_ne!(id, 0);
    }
}

#[test]
fn table_forgets_and_recycles_in_order() {
    let mut t: SocketTable<u32> = SocketTable::new();
    assert!(t.is_empty());
    let a = t.insert(1);
    let b = t.insert(2);
    let c = t.insert(3);
    assert_eq!((a, b, c), (1, 2, 3));
    assert_eq!(t.len(), 3);
    assert_eq!(t.remove(b), Some(2));
    assert_eq!(t.remove(a), Some(1));
    assert_eq!(t.remove(a), None);
    assert_eq!(t.get(b), None);
    assert_eq!(t.remove(0), None);
    assert_eq!(t.remove(99), None);
    assert_eq!(t.insert(20), b);
    assert_eq!(t.insert(10), a);
    assert_eq!(t.insert(40), 4);
    if let Some(v) = t.get_mut(c) {
        *v = 33;
    }
    assert_eq!(t.get(c), Some(&33));
    assert_eq!(t.len(), 4);
    assert!(!t.is_empty());
}

#[test]
fn hello_roundtrip() {
    let d = Daemon::new(16);
    let mut b = Backend::new([10, 88, 0, 2]);
    let f = Frame { header: SlotHeader::new(OpCode::Hello, 1), data: vec![] };
    let replies = serve(&d, &mut b, &f);
    assert_eq!(replies.len(), 1);
    assert!(replies[0].header.is_ok());
    assert_eq!(replies[0].header.correlation, 1);
}

#[test]
fn socket_create_reply() {
    let d = Daemon::new(16);
    let mut b = Backend::new([10, 88, 0, 2]);
    let mut header = SlotHeader::new(OpCode::Socket, 99);
    header.args = pack_socket_args(AF_INET_V, 1, 6, 0);
    let replies = serve(&d, &mut b, &Frame { header, data: vec![] });
    assert!(replies[0].header.is_ok());
    assert!(replies[0].header.socket_id >= 1);
    assert_eq!(replies[0].header.correlation, 99);
}

#[test]
fn hello_handshake() {
    let d = Daemon::new(32);
    let mut b = Backend::new([10, 88, 0, 7]);
    let mut client = Client::new();
    let (h, _) = ask(&d, &mut b, client.hello()).unwrap();
    assert_eq!(reply_number(&h), 1);
}

#[test]
fn socket_lifecycle() {
    let d = Daemon::new(32);
    let mut b = Backend::new([10, 88, 0, 7]);
    let mut client = Client::new();
    let (h, _) = ask(&d, &mut b, client.socket(AF_INET_V, 1, 6)).unwrap();
    let s = h.socket_id;
    assert!(s >= 1);
    let (h, data) = ask(&d, &mut b, client.getsockname(s)).unwrap();
    let name = address_result(&h, &data).unwrap();
    assert_eq!(name.family, AF_INET_V);
    assert_eq!(&name.addr[..4], &[0, 0, 0, 0]);
    ask(&d, &mut b, client.close(s)).unwrap();
    assert_eq!(
        ask(&d, &mut b, client.getsockname(s)).err(),
        Some(ClientError::Status(StatusCode::BadSocket))
    );
}

#[test]
fn socket_rejects_non_tcp() {
    let mut b = Backend::new([10, 88, 0, 2]);
    assert_eq!(b.socket(AF_INET_V, 3, 0), Err(StatusCode::NotSupported));
}

#[test]
fn socket_and_close() {
    let mut b = Backend::new([10, 88, 0, 2]);
    let id = b.socket(AF_INET_V, 1, 6).unwrap();
    assert!(id >= 1);
    b.close(id);
    assert_eq!(b.send(id), Err(StatusCode::BadSocket));
}

#[test]
fn listener_is_known_under_the_virtual_address() {
    let mut b = Backend::new([10, 88, 0, 2]);
    let lid = b.socket(AF_INET_V, 1, 6).unwrap();
    assert_eq!(b.bind(lid), Ok(BindNeeds::Nothing));
    assert_eq!(b.listen(lid), Ok(ListenNeeds::Listener { v6: false }));
    assert_eq!(b.listening(lid, Ok((7, 49152))), Ok(()));
    assert_eq!(b.listen(lid), Ok(ListenNeeds::Nothing));
    match b.get_sock_name(lid) {
        Ok(SockName::Known(name)) => {
            assert_eq!(name.family, AF_INET_V);
            assert_eq!(&name.addr[..4], &[10, 88, 0, 2]);
            assert_eq!(name.port, 49152);
        }
        _ => panic!("the listener has no name"),
    }
    assert_eq!(b.accept(lid), Ok(&7));
    let peer = HostAddr::V4 { ip: [127, 0, 0, 1], port: 5000 };
    let (cid, from) = b.accepted(Ok((8, peer))).unwrap();
    assert_eq!(from.port, 5000);
    assert_eq!(&from.addr[..4], &[127, 0, 0, 1]);
    assert_eq!(b.send(cid), Ok(&8));
    assert_eq!(b.recv(cid, 64, 1000), Ok((&8, 64)));
    assert_eq!(b.recv(cid, 64, 10), Ok((&8, 10)));
    assert_eq!(b.shutdown(cid, 0), Ok((&8, ShutdownSide::Read)));
    assert_eq!(b.shutdown(cid, 1), Ok((&8, ShutdownSide::Write)));
    assert_eq!(b.shutdown(cid, 2), Ok((&8, ShutdownSide::Both)));
    assert_eq!(b.get_peer_name(cid).unwrap().port, 5000);
    let own = b.stream_name(Some(50000));
    assert_eq!(&own.addr[..4], &[10, 88, 0, 2]);
    assert_eq!(own.port, 50000);
    assert_eq!(b.send(lid), Err(StatusCode::NotSupported));
    assert_eq!(b.accept(99), Err(StatusCode::BadSocket));
}

#[test]
fn datagram_socket_is_bound_on_demand() {
    let mut b = Backend::new([10, 88, 0, 2]);
    let rx = b.socket(AF_INET_V, 2, 0).unwrap();
    assert!(b.sendto_binds(rx));
    assert_eq!(b.bind(rx), Ok(BindNeeds::Datagram { v6: false }));
    assert_eq!(b.bound(rx, Ok((3, 40000))), Ok(()));
    assert!(!b.sendto_binds(rx));
    match b.get_sock_name(rx) {
        Ok(SockName::Known(name)) => {
            assert_eq!(&name.addr[..4], &[10, 88, 0, 2]);
            assert_eq!(name.port, 40000);
        }
        _ => panic!("the socket has no name"),
    }
    let to = SockAddrBytes::v4([127, 0, 0, 1], 40000);
    match b.sendto(rx, &to) {
        Ok((h, HostAddr::V4 { ip, port })) => {
            assert_eq!(*h, 3);
            assert_eq!(ip, [127, 0, 0, 1]);
            assert_eq!(port, 40000);
        }
        _ => panic!("nothing is sent"),
    }
    let from = HostAddr::V4 { ip: [127, 0, 0, 1], port: 40001 };
    let (got, peer) = Backend::received_from(Ok((b"ping".to_vec(), from))).unwrap();
    assert_eq!(&got, b"ping");
    assert_eq!(peer.port, 40001);
    assert_eq!(b.recvfrom(rx, 64, 1000), Ok((&3, 64)));
}

#[test]
fn host_failures_have_a_status() {
    assert_eq!(map_io_err(IoKind::ConnectionRefused), StatusCode::ConnRefused);
    assert_eq!(map_io_err(IoKind::ConnectionReset), StatusCode::ConnReset);
    assert_eq!(map_io_err(IoKind::ConnectionAborted), StatusCode::ConnReset);
    assert_eq!(map_io_err(IoKind::BrokenPipe), StatusCode::ConnReset);
    assert_eq!(map_io_err(IoKind::AddrInUse), StatusCode::AddrInUse);
    assert_eq!(map_io_err(IoKind::AddrNotAvailable), StatusCode::AddrNotAvail);
    assert_eq!(map_io_err(IoKind::WouldBlock), StatusCode::WouldBlock);
    assert_eq!(map_io_err(IoKind::Other), StatusCode::HostError);
    assert_eq!(map_io_err(IoKind::TimedOut), StatusCode::HostError);
    assert_eq!(
        Backend::received_from(Err(IoKind::TimedOut)).err(),
        Some(StatusCode::WouldBlock)
    );
    assert_eq!(
        Backend::received_from(Err(IoKind::Other)).err(),
        Some(StatusCode::HostError)
    );
    let mut b = Backend::new([10, 88, 0, 2]);
    let id = b.socket(AF_INET_V, 1, 6).unwrap();
    assert_eq!(b.listening(id, Err(IoKind::AddrInUse)), Err(StatusCode::AddrInUse));
    let unknown = SockAddrBytes { family: 9, ..SockAddrBytes::v4([1, 2, 3, 4], 5) };
    assert_eq!(b.connect(&unknown).err(), Some(StatusCode::AddrNotAvail));
}

#[test]
fn host_addresses_come_back() {
    let a = SockAddrBytes::v4([10, 1, 2, 3], 8080);
    let h = sockaddr_to_std(&a).unwrap();
    let back = peer_sockaddr(&h);
    assert_eq!((back.family, back.port), (AF_INET_V, 8080));
    assert_eq!(&back.addr[..4], &[10, 1, 2, 3]);
    let first = to_socket_addrs_best(&[h, HostAddr::V4 { ip: [1, 1, 1, 1], port: 1 }]).unwrap();
    assert_eq!((first.port, &first.addr[..4]), (8080, &[10u8, 1, 2, 3][..]));
    assert!(to_socket_addrs_best(&[]).is_none());
    let six = SockAddrBytes::v6([1; 16], 443, 7, 9);
    match sockaddr_to_std(&six) {
        Some(HostAddr::V6 { ip, port, flow, scope }) => {
            assert_eq!(ip, [1; 16]);
            assert_eq!((port, flow, scope), (443, 7, 9));
        }
        _ => panic!("no address of the sixth version"),
    }
    let t = translated(h, Some(HostAddr::V4 { ip: [127, 0, 0, 1], port: 8080 }));
    assert!(matches!(t, HostAddr::V4 { ip: [127, 0, 0, 1], port: 8080 }));
    assert!(matches!(translated(h, None), HostAddr::V4 { ip: [10, 1, 2, 3], port: 8080 }));
}

#[test]
fn wire_numbers_come_back() {
    for op in [
        OpCode::Hello, OpCode::Socket, OpCode::Bind, OpCode::Connect, OpCode::Listen,
        OpCode::Accept, OpCode::Send, OpCode::Recv, OpCode::Close, OpCode::Shutdown,
        OpCode::GetSockName, OpCode::GetPeerName, OpCode::SetSockOpt, OpCode::GetSockOpt,
        OpCode::Resolve, OpCode::SendTo, OpCode::RecvFrom, OpCode::Bye,
    ] {
        assert_eq!(OpCode::from_raw(op.to_raw()), Some(op));
    }
    for s in [
        StatusCode::WouldBlock, StatusCode::ConnRefused, StatusCode::ConnReset,
        StatusCode::AddrInUse, StatusCode::AddrNotAvail, StatusCode::BadSocket,
        StatusCode::TooLarge, StatusCode::NotSupported, StatusCode::UnknownOp,
        StatusCode::HostError,
    ] {
        assert_eq!(decode_status(s.to_raw()), Some(s));
    }
    assert_eq!(decode_status(60000), None);
    assert_eq!(unpack_u32(&pack_u32(0x01020304)), 0x01020304);
    assert_eq!(&pack_u32(0x01020304)[..4], &[4, 3, 2, 1]);
    assert_eq!(unpack_socket_args(&pack_socket_args(2, 1, 6, 5)), (2, 1, 6, 5));
    let six = SockAddrBytes::v6([3; 16], 443, 7, 9);
    let bytes = sockaddr_bytes(&six);
    assert_eq!(bytes.len(), SOCKADDR_SIZE);
    let back = parse_sockaddr(&bytes).unwrap();
    assert_eq!((back.family, back.port, back.v6_flow, back.v6_scope), (AF_INET6_V, 443, 7, 9));
    assert_eq!(back.addr, [3; 16]);
    assert!(parse_sockaddr(&bytes[..27]).is_none());
}

#[test]
fn long_answers_are_cut_and_put_together() {
    let d = Daemon::new(4);
    let header = SlotHeader { socket_id: 5, ..SlotHeader::new(OpCode::Recv, 77) };
    let call = Call::Recv { max: 64 };
    let frames = d.reply(&header, &call, Answer::Data(b"0123456789".to_vec()));
    assert_eq!(frames.len(), 3);
    assert_eq!(&frames[0].data, b"0123");
    assert_eq!(&frames[2].data, b"89");
    assert_eq!(frames[0].header.flags & FLAG_MORE, FLAG_MORE);
    assert_eq!(frames[2].header.flags & FLAG_MORE, 0);
    assert!(frames[0].header.has_more());
    let (h, data) = finish(77, frames).unwrap();
    assert_eq!(&data, b"0123456789");
    assert_eq!(h.socket_id, 5);
    let none = d.reply(&header, &call, Answer::Data(vec![]));
    assert_eq!(none.len(), 1);
    assert_eq!(finish(77, none).unwrap().1.len(), 0);
}

#[test]
fn datagrams_carry_their_sender() {
    let d = Daemon::new(1000);
    let header = SlotHeader { socket_id: 5, ..SlotHeader::new(OpCode::RecvFrom, 7) };
    let from = SockAddrBytes::v4([1, 2, 3, 4], 99);
    let call = Call::RecvFrom { max: 64 };
    let frames = d.reply(&header, &call, Answer::Datagram(b"hi".to_vec(), from));
    let (_, data) = finish(7, frames).unwrap();
    let (bytes, peer) = datagram_result(&data).unwrap();
    assert_eq!(&bytes, b"hi");
    assert_eq!((peer.port, &peer.addr[..4]), (99, &[1u8, 2, 3, 4][..]));
    assert_eq!(
        datagram_result(&data[..20]).err(),
        Some(ClientError::Protocol(Malformed::RecvFromTooShort))
    );
}

#[test]
fn requests_reach_the_backend() {
    let d = Daemon::new(1000);
    let mut c = Client::new();
    let to = SockAddrBytes::v4([10, 88, 0, 7], 80);
    let f = c.sendto(3, &to, b"data");
    assert_eq!(f.header.socket_id, 3);
    match d.handle(&f.header, &f.data) {
        Handled::Ask(Call::SendTo { addr, data }) => {
            assert_eq!((addr.port, &data[..]), (80, &b"data"[..]));
        }
        _ => panic!("the request got lost"),
    }
    let f = c.listen(3, 16);
    assert!(matches!(
        d.handle(&f.header, &f.data),
        Handled::Ask(Call::Listen { backlog: 16 })
    ));
    let f = c.bind(3, &to);
    assert!(matches!(d.handle(&f.header, &f.data), Handled::Ask(Call::Bind { .. })));
    let f = c.connect(3, &to);
    assert!(matches!(d.handle(&f.header, &f.data), Handled::Ask(Call::Connect { .. })));
    let f = c.shutdown(3, 2);
    assert!(matches!(d.handle(&f.header, &f.data), Handled::Ask(Call::Shutdown { how: 2 })));
    assert_eq!(c.next_correlation, 6);
}

#[test]
fn correlation_ids_wrap_around() {
    let mut c = Client::new();
    assert_eq!(c.next_id(), 1);
    assert_eq!(c.next_id(), 2);
    c.next_correlation = u32::MAX;
    assert_eq!(c.next_id(), u32::MAX);
    assert_eq!(c.next_id(), 0);
}

#[test]
fn names_are_resolved_as_text() {
    let d = Daemon::new(1000);
    let header = SlotHeader::new(OpCode::Resolve, 4);
    match d.handle(&header, "caf\u{e9}.example".as_bytes()) {
        Handled::Ask(Call::Resolve { name }) => assert_eq!(name, "caf\u{e9}.example"),
        _ => panic!("the name got lost"),
    }
    match d.handle(&header, &[0x63, 0xff]) {
        Handled::Reply(r) => {
            assert!(!r.header.is_ok());
            assert_eq!(r.header.correlation, 4);
        }
        _ => panic!("that is no text"),
    }
}

#[test]
fn malformed_requests_are_refused() {
    let d = Daemon::new(1000);
    let mut b = Backend::new([10, 88, 0, 7]);
    let unknown = SlotHeader { opcode: 40000, ..SlotHeader::new(OpCode::Hello, 9) };
    let f = Frame { header: unknown, data: vec![] };
    assert_eq!(
        ask(&d, &mut b, f).err(),
        Some(ClientError::Status(StatusCode::UnknownOp))
    );
    let short = Frame { header: SlotHeader::new(OpCode::Bind, 9), data: vec![1, 2, 3] };
    assert_eq!(
        ask(&d, &mut b, short).err(),
        Some(ClientError::Status(StatusCode::HostError))
    );
    let bye = Frame { header: SlotHeader::new(OpCode::Bye, 9), data: vec![] };
    match d.handle(&bye.header, &bye.data) {
        Handled::Stop(r) => {
            assert!(r.header.is_ok());
            assert_eq!(r.header.correlation, 9);
            assert!(r.data.is_empty());
        }
        _ => panic!("the daemon goes on"),
    }
}

#[test]
fn malformed_replies_are_told_apart() {
    let reply = |correlation: u32| Frame {
        header: SlotHeader::reply_ok(correlation, 3),
        data: vec![],
    };
    assert_eq!(
        finish(1, vec![reply(2)]).err(),
        Some(ClientError::Protocol(Malformed::CorrelationMismatch))
    );
    let (h, data) = finish(1, vec![reply(1)]).unwrap();
    assert_eq!(
        accept_result(&h, &data).err(),
        Some(ClientError::Protocol(Malformed::BadPeer))
    );
    assert_eq!(
        address_result(&h, &data).err(),
        Some(ClientError::Protocol(Malformed::BadSockAddr))
    );
    let mut odd = reply(1);
    odd.header = SlotHeader { opcode: 60000, ..odd.header };
    assert_eq!(
        finish(1, vec![odd]).err(),
        Some(ClientError::Protocol(Malformed::BadStatus))
    );
    let failed = Frame { header: SlotHeader::reply_err(1, StatusCode::ConnRefused), data: vec![] };
    assert_eq!(
        finish(1, vec![failed]).err(),
        Some(ClientError::Status(StatusCode::ConnRefused))
    );
    assert_eq!(Malformed::RingError.describe(), "ring error");
    assert_eq!(finish(1, vec![]).err(), Some(ClientError::Timeout));
}

#[test]
fn correlation_ids_grow() {
    let mut c = Client::new();
    let first = c.hello().header.correlation;
    let second = c.socket(2, 1, 6).header.correlation;
    assert_eq!((first, second), (1, 2));
    let mut last = Client { next_correlation: u32::MAX };
    assert_eq!(last.next_id(), u32::MAX);
    assert_eq!(last.next_id(), 0);
}

#[test]
fn results_become_headers() {
    let (h, v) = reply_from(7, 3, Ok(5u8));
    assert!(h.is_ok());
    assert_eq!((h.correlation, h.socket_id, v), (7, 3, Some(5)));
    let (h, v) = reply_from::<u8>(7, 3, Err(StatusCode::BadSocket));
    assert!(!h.is_ok());
    assert_eq!((h.correlation, v), (7, None));
}
