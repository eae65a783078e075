use std::sync::atomic::{AtomicUsize, Ordering};
use std::sync::Arc;

use bytes::Bytes;
use futures::executor::{Notify, NotifyHandle};
use tokio_dtls_example::channel::TrySendError;
use tokio_dtls_example::net::{SocketAddr, SocketAddrV4, SocketAddrV6};
use tokio_dtls_example::poll::{Async, AsyncSink, SocketError, StreamError};
use tokio_dtls_example::udp::{bind_address, Request, Step, UdpAsyncSocket};
use tokio_dtls_example::udp::{UdpChild, UdpServer, UdpStream};
use tokio_dtls_example::udp::{MAX_DATAGRAM, UDP_STREAM_BUFFER_DATAGRAMS};

type Error = &'static str;

#[derive(Default)]
struct Count(AtomicUsize);

impl Notify for Count {
    fn notify(&self, _id: usize) {
        self.0.fetch_add(1, Ordering::SeqCst);
    }
}

fn quiet() -> NotifyHandle {
    NotifyHandle::from(Arc::new(Count::default()))
}

fn peer(port: u16) -> SocketAddr {
    SocketAddr::V4(SocketAddrV4 { ip: 0x7f000001, port })
}

/// Lets the server receive `payload` from the peer on `port`.
fn deliver(server: &mut UdpServer<()>, port: u16, payload: &[u8]) -> Request<Error> {
    let mut buffer = [0u8; MAX_DATAGRAM];
    buffer[..payload.len()].copy_from_slice(payload);
    server.received(&buffer, Ok(Async::Ready((payload.len(), peer(port)))), &quiet())
}

fn stream_of(request: Request<Error>) -> UdpStream {
    match request {
        Request::Done(Ok(Async::Ready(Some(stream)))) => stream,
        _ => panic!("no stream"),
    }
}

fn is_receive(request: &Request<Error>) -> bool {
    matches!(request, Request::RecvFrom)
}

fn is_not_ready(request: &Request<Error>) -> bool {
    matches!(request, Request::Done(Ok(Async::NotReady)))
}

fn send_of(request: Request<Error>) -> (usize, (SocketAddr, Bytes)) {
    match request {
        Request::SendTo { index, datagram } => (index, datagram),
        _ => panic!("nothing to send"),
    }
}

fn connect(server: &mut UdpServer<()>, port: u16) -> UdpStream {
    let mut stream = stream_of(deliver(server, port, b"hello"));
    assert_eq!(stream.poll(&quiet()), Ok(Async::Ready(Some(Bytes::from(&b"hello"[..])))));
    stream
}

#[test]
fn new_server_only_receives() {
    let mut server = UdpServer::bind(7);
    assert_eq!(*server.socket_mut(), 7);
    *server.socket_mut() = 8;
    assert!(is_receive(&server.poll(&quiet())));
    assert_eq!(*server.socket_mut(), 8);
    let request: Request<Error> = server.received(&[], Ok(Async::NotReady), &quiet());
    assert!(is_not_ready(&request));
    match server.received(&[], Err("broken"), &quiet()) {
        Request::Done(Err(e)) => assert_eq!(e, "broken"),
        _ => panic!("no error"),
    }
}

#[test]
fn each_peer_gets_one_stream() {
    let mut server = UdpServer::bind(());
    let mut one = stream_of(deliver(&mut server, 1, b"first"));
    let mut two = stream_of(deliver(&mut server, 2, b"other"));
    assert!(is_receive(&deliver(&mut server, 1, b"second")));
    assert!(is_receive(&deliver(&mut server, 2, b"")));
    assert!(is_receive(&deliver(&mut server, 1, b"third")));

    for payload in [&b"first"[..], b"second", b"third"] {
        assert_eq!(one.poll(&quiet()), Ok(Async::Ready(Some(Bytes::from(payload)))));
    }
    assert_eq!(one.poll(&quiet()), Ok(Async::NotReady));
    for payload in [&b"other"[..], b""] {
        assert_eq!(two.poll(&quiet()), Ok(Async::Ready(Some(Bytes::from(payload)))));
    }
    assert_eq!(two.poll(&quiet()), Ok(Async::NotReady));
}

#[test]
fn all_of_an_address_tells_peers_apart() {
    let mut server = UdpServer::bind(());
    let v6 = |scope_id| {
        SocketAddr::V6(SocketAddrV6 { ip: 1, port: 1, flowinfo: 0, scope_id })
    };
    for address in [peer(1), v6(0), v6(1)] {
        let request = server.received(b"x", Ok(Async::Ready((1, address))), &quiet());
        stream_of(request);
    }
}

#[test]
fn only_the_received_bytes_are_the_payload() {
    let mut server = UdpServer::bind(());
    let request = server.received(b"abcdef", Ok(Async::Ready((3, peer(1)))), &quiet());
    let mut stream = stream_of(request);
    assert_eq!(stream.poll(&quiet()), Ok(Async::Ready(Some(Bytes::from(&b"abc"[..])))));
}

#[test]
fn datagram_without_room_is_parked_until_there_is() {
    let mut server = UdpServer::bind(());
    let mut slow = stream_of(deliver(&mut server, 1, &[0]));
    for k in 1..=UDP_STREAM_BUFFER_DATAGRAMS as u8 {
        assert!(is_receive(&deliver(&mut server, 1, &[k])));
    }
    assert!(is_not_ready(&deliver(&mut server, 1, &[9])));
    // It is tried again first, and nothing else is received until there is room for it.
    assert!(is_not_ready(&server.poll(&quiet())));
    assert!(is_not_ready(&server.poll(&quiet())));

    assert_eq!(slow.poll(&quiet()), Ok(Async::Ready(Some(Bytes::from(&[0][..])))));
    assert!(is_receive(&server.poll(&quiet())));
    for k in 1..=9u8 {
        assert_eq!(slow.poll(&quiet()), Ok(Async::Ready(Some(Bytes::from(&[k][..])))));
    }
    assert_eq!(slow.poll(&quiet()), Ok(Async::NotReady));
}

#[test]
fn outgoing_datagrams_are_sent_while_one_is_parked() {
    let mut server = UdpServer::bind(());
    let mut slow = stream_of(deliver(&mut server, 1, &[0]));
    for k in 1..=8u8 {
        assert!(is_receive(&deliver(&mut server, 1, &[k])));
    }
    assert!(is_not_ready(&deliver(&mut server, 1, &[9])));
    assert_eq!(slow.write(b"out", &quiet()), Ok(3));
    let (index, datagram) = send_of(server.poll(&quiet()));
    assert_eq!(datagram, (peer(1), Bytes::from(&b"out"[..])));
    assert!(is_not_ready(&server.sent(index, datagram, Ok(Async::Ready(3)), &quiet())));
}

#[test]
fn datagram_for_a_closed_stream_is_dropped_with_its_child() {
    let mut server = UdpServer::bind(());
    drop(connect(&mut server, 1));
    assert!(is_receive(&deliver(&mut server, 1, b"lost")));
    let mut again = stream_of(deliver(&mut server, 1, b"again"));
    assert_eq!(again.poll(&quiet()), Ok(Async::Ready(Some(Bytes::from(&b"again"[..])))));
}

#[test]
fn closed_streams_are_removed_by_a_poll() {
    let mut server = UdpServer::bind(());
    let one = connect(&mut server, 1);
    let mut two = connect(&mut server, 2);
    drop(one);
    assert_eq!(two.write(b"two", &quiet()), Ok(3));
    let (index, datagram) = send_of(server.poll(&quiet()));
    assert_eq!((index, &datagram.0), (0, &peer(2)));
    assert!(is_receive(&server.sent(index, datagram, Ok(Async::Ready(3)), &quiet())));
    connect(&mut server, 1);
    assert!(is_receive(&deliver(&mut server, 2, b"more")));
}

#[test]
fn what_a_closed_stream_wrote_is_still_sent() {
    let mut server = UdpServer::bind(());
    let mut stream = connect(&mut server, 1);
    assert_eq!(stream.write(b"bye", &quiet()), Ok(3));
    drop(stream);
    let (index, datagram) = send_of(server.poll(&quiet()));
    assert_eq!(datagram, (peer(1), Bytes::from(&b"bye"[..])));
    assert!(is_receive(&server.sent(index, datagram, Ok(Async::Ready(3)), &quiet())));
    connect(&mut server, 1);
}

#[test]
fn writes_are_sent_to_the_peer_in_order() {
    let mut server = UdpServer::bind(());
    let mut one = connect(&mut server, 1);
    let mut two = connect(&mut server, 2);
    assert_eq!(two.write(b"c", &quiet()), Ok(1));
    assert_eq!(one.write(b"a", &quiet()), Ok(1));
    assert_eq!(one.write(b"b", &quiet()), Ok(1));
    let mut request = server.poll(&quiet());
    for (port, payload) in [(1, b"a"), (1, b"b"), (2, b"c")] {
        let (index, datagram) = send_of(request);
        assert_eq!(datagram, (peer(port), Bytes::from(&payload[..])));
        request = server.sent(index, datagram, Ok(Async::Ready(1)), &quiet());
    }
    assert!(is_receive(&request));
}

#[test]
fn datagram_that_the_socket_refuses_is_sent_first_next_time() {
    let mut server = UdpServer::bind(());
    let mut one = connect(&mut server, 1);
    let mut two = connect(&mut server, 2);
    assert_eq!(one.write(b"a", &quiet()), Ok(1));
    assert_eq!(one.write(b"b", &quiet()), Ok(1));
    assert_eq!(two.write(b"c", &quiet()), Ok(1));

    // Nothing more is sent in this poll.
    let (index, datagram) = send_of(server.poll(&quiet()));
    assert!(is_receive(&server.sent(index, datagram, Ok(Async::NotReady), &quiet())));

    let mut request = server.poll(&quiet());
    for payload in [b"a", b"b", b"c"] {
        let (index, datagram) = send_of(request);
        assert_eq!(datagram.1, Bytes::from(&payload[..]));
        request = server.sent(index, datagram, Ok(Async::Ready(1)), &quiet());
    }
    assert!(is_receive(&request));
}

#[test]
fn datagram_that_cannot_be_sent_is_skipped() {
    let mut server = UdpServer::bind(());
    let mut one = connect(&mut server, 1);
    assert_eq!(one.write(b"a", &quiet()), Ok(1));
    assert_eq!(one.write(b"b", &quiet()), Ok(1));
    let (index, datagram) = send_of(server.poll(&quiet()));
    assert_eq!(datagram.1, Bytes::from(&b"a"[..]));
    let (index, datagram) = send_of(server.sent(index, datagram, Err("broken"), &quiet()));
    assert_eq!(datagram.1, Bytes::from(&b"b"[..]));
    assert!(is_receive(&server.sent(index, datagram, Ok(Async::Ready(1)), &quiet())));
}

#[test]
fn reading_copies_the_payload() {
    let mut server = UdpServer::bind(());
    let mut stream = stream_of(deliver(&mut server, 1, b"abc"));
    assert!(is_receive(&deliver(&mut server, 1, b"defg")));
    assert!(is_receive(&deliver(&mut server, 1, b"too long")));
    assert!(is_receive(&deliver(&mut server, 1, b"h")));
    let mut buf = [b'.'; 4];
    assert_eq!(stream.read(&mut buf, &quiet()), Ok(3));
    assert_eq!(&buf, b"abc.");
    assert_eq!(stream.read(&mut buf, &quiet()), Ok(4));
    assert_eq!(&buf, b"defg");
    assert_eq!(stream.read(&mut buf, &quiet()), Err(StreamError::BufferOverrun));
    assert_eq!(&buf, b"defg");
    assert_eq!(stream.read(&mut buf, &quiet()), Ok(1));
    assert_eq!(&buf, b"hefg");
    assert_eq!(stream.read(&mut buf, &quiet()), Err(StreamError::WouldBlock));
    drop(server);
    assert_eq!(stream.read(&mut buf, &quiet()), Ok(0));
    assert_eq!(stream.poll(&quiet()), Ok(Async::Ready(None)));
}

#[test]
fn writing_waits_for_room_and_fails_without_a_server() {
    let mut server = UdpServer::bind(());
    let mut stream = connect(&mut server, 1);
    for k in 0..=UDP_STREAM_BUFFER_DATAGRAMS as u8 {
        assert_eq!(stream.poll_complete(&quiet()), Ok(Async::Ready(())));
        assert_eq!(stream.write(&[k], &quiet()), Ok(1));
    }
    assert_eq!(stream.write(b"x", &quiet()), Err(StreamError::WouldBlock));
    assert_eq!(stream.poll_complete(&quiet()), Ok(Async::NotReady));
    let payload = Bytes::from(&b"back"[..]);
    assert_eq!(
        stream.start_send(payload.clone(), &quiet()),
        Ok(AsyncSink::NotReady(payload.clone()))
    );
    let (_, datagram) = send_of(server.poll(&quiet()));
    assert_eq!(datagram, (peer(1), Bytes::from(&[0][..])));
    assert_eq!(stream.start_send(payload.clone(), &quiet()), Ok(AsyncSink::Ready));
    drop(server);
    assert_eq!(stream.start_send(payload, &quiet()), Err(StreamError::Closed));
    assert_eq!(stream.write(b"x", &quiet()), Err(StreamError::Closed));
    assert_eq!(stream.poll_complete(&quiet()), Ok(Async::Ready(())));
}

#[test]
fn stream_has_nothing_to_flush_or_shut_down() {
    let mut server = UdpServer::bind(());
    let mut stream = connect(&mut server, 1);
    assert_eq!(stream.flush(), Ok(()));
    assert_eq!(stream.shutdown(), Ok(Async::Ready(())));
    assert_eq!(stream.write(b"x", &quiet()), Ok(1));
}

#[test]
fn tasks_are_notified_through_the_channels() {
    let mut server = UdpServer::bind(());
    let mut stream = connect(&mut server, 1);

    let reader = Arc::new(Count::default());
    assert_eq!(stream.poll(&NotifyHandle::from(reader.clone())), Ok(Async::NotReady));
    assert!(is_receive(&deliver(&mut server, 1, b"x")));
    assert_eq!(reader.0.load(Ordering::SeqCst), 1);

    let poller = Arc::new(Count::default());
    let request: Request<Error> = server.poll(&NotifyHandle::from(poller.clone()));
    assert!(is_receive(&request));
    assert_eq!(stream.write(b"y", &quiet()), Ok(1));
    assert_eq!(poller.0.load(Ordering::SeqCst), 1);
}

#[test]
fn task_of_the_last_poll_is_the_one_that_waits() {
    let mut server = UdpServer::bind(());
    let mut stream = connect(&mut server, 1);
    let first = Arc::new(Count::default());
    let second = Arc::new(Count::default());
    let mut buf = [0u8; 4];
    assert_eq!(stream.poll(&NotifyHandle::from(first.clone())), Ok(Async::NotReady));
    assert_eq!(
        stream.read(&mut buf, &NotifyHandle::from(second.clone())),
        Err(StreamError::WouldBlock)
    );
    assert!(is_receive(&deliver(&mut server, 1, b"x")));
    assert_eq!(first.0.load(Ordering::SeqCst), 0);
    assert_eq!(second.0.load(Ordering::SeqCst), 1);
}

#[test]
fn task_that_waits_for_room_is_notified_when_there_is_room() {
    let mut server = UdpServer::bind(());
    let mut stream = connect(&mut server, 1);
    for k in 0..=UDP_STREAM_BUFFER_DATAGRAMS as u8 {
        assert_eq!(stream.write(&[k], &quiet()), Ok(1));
    }
    let writer = Arc::new(Count::default());
    let flusher = Arc::new(Count::default());
    assert_eq!(
        stream.write(b"x", &NotifyHandle::from(writer.clone())),
        Err(StreamError::WouldBlock)
    );
    assert_eq!(stream.poll_complete(&NotifyHandle::from(flusher.clone())), Ok(Async::NotReady));
    send_of(server.poll(&quiet()));
    assert_eq!(writer.0.load(Ordering::SeqCst), 0);
    assert_eq!(flusher.0.load(Ordering::SeqCst), 1);
    assert_eq!(stream.poll_complete(&quiet()), Ok(Async::Ready(())));
}

#[test]
fn closed_stream_stays_at_its_end() {
    let mut server = UdpServer::bind(());
    let mut stream = stream_of(deliver(&mut server, 1, b"last"));
    drop(server);
    let mut buf = [0u8; 4];
    assert_eq!(stream.read(&mut buf, &quiet()), Ok(4));
    for _ in 0..3 {
        assert_eq!(stream.poll(&quiet()), Ok(Async::Ready(None)));
        assert_eq!(stream.read(&mut buf, &quiet()), Ok(0));
    }
    assert_eq!(&buf, b"last");
}

#[test]
fn answers_of_the_channels_decide_what_follows() {
    let mut server = UdpServer::bind(());
    let _stream = connect(&mut server, 1);

    let next: Step<Error> = server.after_dequeued(0, Err(()));
    assert!(matches!(next, Step::RecvFrom));
    let next: Step<Error> = server.after_dequeued(0, Ok(Async::NotReady));
    assert!(matches!(next, Step::RecvFrom));
    let datagram = (peer(1), Bytes::from(&b"x"[..]));
    match server.after_dequeued::<Error>(0, Ok(Async::Ready(Some(datagram.clone())))) {
        Step::SendTo { index: 0, datagram: offered } => assert_eq!(offered, datagram),
        _ => panic!("nothing offered"),
    }
    let next: Step<Error> = server.after_sent(0, datagram.clone(), Ok(Async::Ready(1)));
    assert!(matches!(next, Step::Dequeue { index: 0 }));
    let next: Step<Error> = server.after_sent(0, datagram.clone(), Err("broken"));
    assert!(matches!(next, Step::Dequeue { index: 0 }));
    match server.after_received::<Error>(b"xyz", Ok(Async::Ready((2, peer(3))))) {
        Step::Dispatch { datagram } => {
            assert_eq!(datagram, (peer(3), Bytes::from(&b"xy"[..])))
        }
        _ => panic!("nothing dispatched"),
    }

    let full = Err(TrySendError::Full(Bytes::from(&b"p"[..])));
    let next: Step<Error> = server.after_dispatched(peer(1), None, full);
    assert!(matches!(next, Step::Done(Ok(Async::NotReady))));
    match server.after_dispatched::<Error>(peer(1), None, Ok(())) {
        Step::Dispatch { datagram } => {
            assert_eq!(datagram, (peer(1), Bytes::from(&b"p"[..])))
        }
        _ => panic!("nothing dispatched"),
    }
    let gone = Err(TrySendError::Disconnected(Bytes::new()));
    let next: Step<Error> = server.after_dispatched(peer(1), None, gone);
    assert!(matches!(next, Step::RecvFrom));
    connect(&mut server, 1);
}

#[test]
fn closed_child_is_removed_before_the_next_one_is_asked() {
    let mut server = UdpServer::bind(());
    let _one = connect(&mut server, 1);
    let _two = connect(&mut server, 2);
    let next: Step<Error> = server.after_dequeued(0, Ok(Async::Ready(None)));
    assert!(matches!(next, Step::Dequeue { index: 0 }));
    let next: Step<Error> = server.after_dequeued(0, Ok(Async::Ready(None)));
    assert!(matches!(next, Step::RecvFrom));
}

#[test]
fn failure_of_the_channel_reads_as_not_ready() {
    assert_eq!(UdpStream::after_polled(Err(())), Ok(Async::NotReady));
    let mut buf = [1u8; 2];
    assert_eq!(
        UdpStream::after_read(Err(StreamError::Closed), &mut buf),
        Err(StreamError::Closed)
    );
    assert_eq!(buf, [1, 1]);
}

#[test]
fn socket_is_bound_to_the_wildcard_address_of_the_family() {
    assert_eq!(
        bind_address(&peer(9000)),
        SocketAddr::V4(SocketAddrV4 { ip: 0, port: 0 })
    );
    assert_eq!(
        bind_address(&SocketAddr::V6(SocketAddrV6 {
            ip: 1,
            port: 9000,
            flowinfo: 2,
            scope_id: 3
        })),
        SocketAddr::V6(SocketAddrV6 { ip: 0, port: 0, flowinfo: 0, scope_id: 0 })
    );
}

#[test]
fn connected_socket_reports_what_would_block() {
    let socket = UdpAsyncSocket::connect(7);
    assert_eq!(socket.0, 7);
    assert_eq!(socket.read::<Error>(Ok(Async::Ready(3))), Ok(3));
    assert_eq!(socket.read::<Error>(Ok(Async::NotReady)), Err(SocketError::WouldBlock));
    assert_eq!(socket.read(Err("broken")), Err(SocketError::Io("broken")));
    assert_eq!(socket.write::<Error>(Ok(Async::Ready(0))), Ok(0));
    assert_eq!(socket.write::<Error>(Ok(Async::NotReady)), Err(SocketError::WouldBlock));
    assert_eq!(socket.write(Err("broken")), Err(SocketError::Io("broken")));
}

#[test]
fn poll_waits_for_every_child() {
    let mut server = UdpServer::bind(());
    let mut streams = [connect(&mut server, 1), connect(&mut server, 2), connect(&mut server, 3)];
    for k in 0..3 {
        let poller = Arc::new(Count::default());
        let task = NotifyHandle::from(poller.clone());
        assert!(is_receive(&server.poll(&task)));
        assert_eq!(poller.0.load(Ordering::SeqCst), 0);
        assert_eq!(streams[k].write(&[k as u8], &quiet()), Ok(1));
        assert_eq!(poller.0.load(Ordering::SeqCst), 1);
        let (index, datagram) = send_of(server.poll(&quiet()));
        assert_eq!(datagram, (peer(k as u16 + 1), Bytes::from(&[k as u8][..])));
        assert!(is_receive(&server.sent(index, datagram, Ok(Async::Ready(1)), &quiet())));
    }
}

#[test]
fn second_stream_is_made_only_after_the_first_is_closed() {
    let mut server = UdpServer::bind(());
    let first = connect(&mut server, 1);
    for _ in 0..3 {
        assert!(is_receive(&server.poll(&quiet())));
        assert!(is_receive(&deliver(&mut server, 1, b"more")));
    }
    drop(first);
    assert!(is_receive(&server.poll(&quiet())));
    let mut second = stream_of(deliver(&mut server, 1, b"again"));
    assert_eq!(second.poll(&quiet()), Ok(Async::Ready(Some(Bytes::from(&b"again"[..])))));
    assert_eq!(second.poll(&quiet()), Ok(Async::NotReady));
}

#[test]
fn datagram_parked_for_a_closed_stream_makes_the_next_one() {
    let mut server = UdpServer::bind(());
    let first = stream_of(deliver(&mut server, 1, &[0]));
    for k in 1..=UDP_STREAM_BUFFER_DATAGRAMS as u8 {
        assert!(is_receive(&deliver(&mut server, 1, &[k])));
    }
    assert!(is_not_ready(&deliver(&mut server, 1, b"parked")));
    drop(first);
    let mut second = stream_of(server.poll(&quiet()));
    assert_eq!(second.poll(&quiet()), Ok(Async::Ready(Some(Bytes::from(&b"parked"[..])))));
}

#[test]
fn looking_a_child_up_again_makes_no_stream() {
    let mut streams: Vec<(SocketAddr, UdpChild)> = Vec::new();
    let (_, first) = UdpServer::<()>::get_or_create_child(&mut streams, peer(1));
    assert!(first.is_some());
    let (_, other) = UdpServer::<()>::get_or_create_child(&mut streams, peer(2));
    assert!(other.is_some());
    for port in [1, 2, 1] {
        let (_, again) = UdpServer::<()>::get_or_create_child(&mut streams, peer(port));
        assert!(again.is_none());
    }
    let addresses: Vec<SocketAddr> = streams.iter().map(|s| s.0).collect();
    assert_eq!(addresses, vec![peer(1), peer(2)]);
    streams.remove(0);
    let (_, new) = UdpServer::<()>::get_or_create_child(&mut streams, peer(1));
    assert!(new.is_some());
}
