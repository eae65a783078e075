use bytes::Bytes;
use tokio_dtls_example::poll::{Async, AsyncSink, WriteError};
use tokio_dtls_example::util::{AsyncWriteSink, FlushingSink, SinkRequest};

type Request = SinkRequest<u8, &'static str>;

#[test]
fn write_sink_wants_the_whole_datagram_written() {
    let sink = AsyncWriteSink::new(());
    let payload = || Bytes::from(&b"hello"[..]);
    assert_eq!(
        sink.start_send::<&str>(payload(), Ok(Async::Ready(5))),
        Ok(AsyncSink::Ready)
    );
    assert_eq!(
        sink.start_send::<&str>(payload(), Ok(Async::Ready(4))),
        Err(WriteError::BufferOverrun)
    );
    assert_eq!(
        sink.start_send::<&str>(Bytes::new(), Ok(Async::Ready(0))),
        Ok(AsyncSink::Ready)
    );
    assert_eq!(
        sink.start_send::<&str>(payload(), Ok(Async::NotReady)),
        Ok(AsyncSink::NotReady(payload()))
    );
    assert_eq!(
        sink.start_send(payload(), Err("broken")),
        Err(WriteError::Io("broken"))
    );
}

#[test]
fn write_sink_holds_its_writer() {
    assert_eq!(AsyncWriteSink::new(7).writer, 7);
}

#[test]
fn item_is_flushed_at_once_if_possible() {
    let mut sink = FlushingSink::new(7);
    assert_eq!(sink.sink, 7);
    assert_eq!(sink.start_send(1), Request::Send(1));
    assert_eq!(sink.sent(Ok(AsyncSink::Ready)), Request::FlushAfter);
    assert_eq!(
        sink.flushed_after(Ok(Async::Ready(()))),
        Request::Done(Ok(AsyncSink::Ready))
    );
    assert_eq!(sink.start_send(2), Request::Send(2));
}

#[test]
fn item_that_is_not_flushed_holds_up_the_next_one() {
    let mut sink = FlushingSink::new(());
    assert_eq!(sink.start_send(1), Request::Send(1));
    assert_eq!(sink.sent(Ok(AsyncSink::Ready)), Request::FlushAfter);
    assert_eq!(
        sink.flushed_after(Ok(Async::NotReady)),
        Request::Done(Ok(AsyncSink::Ready))
    );

    assert_eq!(sink.start_send(2), Request::FlushFirst(2));
    assert_eq!(
        sink.flushed_first(2, Ok(Async::NotReady)),
        Request::Done(Ok(AsyncSink::NotReady(2)))
    );
    assert_eq!(sink.start_send(2), Request::FlushFirst(2));
    assert_eq!(sink.flushed_first(2, Ok(Async::Ready(()))), Request::Send(2));
    assert_eq!(sink.sent(Ok(AsyncSink::Ready)), Request::FlushAfter);
}

#[test]
fn item_that_is_not_taken_makes_no_flush_due() {
    let mut sink = FlushingSink::new(());
    assert_eq!(sink.start_send(1), Request::Send(1));
    assert_eq!(
        sink.sent(Ok(AsyncSink::NotReady(1))),
        Request::Done(Ok(AsyncSink::NotReady(1)))
    );
    assert_eq!(sink.start_send(1), Request::Send(1));
}

#[test]
fn errors_of_the_sink_end_the_send() {
    let mut sink = FlushingSink::new(());
    assert_eq!(sink.start_send(1), Request::Send(1));
    assert_eq!(sink.sent(Err("send")), Request::Done(Err("send")));
    assert_eq!(sink.start_send(1), Request::Send(1));
    assert_eq!(sink.sent(Ok(AsyncSink::Ready)), Request::FlushAfter);
    assert_eq!(sink.flushed_after(Err("flush")), Request::Done(Err("flush")));
    assert_eq!(sink.start_send(2), Request::FlushFirst(2));
    assert_eq!(sink.flushed_first(2, Err("flush")), Request::Done(Err("flush")));
    assert_eq!(sink.start_send(2), Request::FlushFirst(2));
}

#[test]
fn flush_and_close_of_the_caller_leave_a_flush_due() {
    let mut sink = FlushingSink::new(());
    assert_eq!(sink.start_send(1), Request::Send(1));
    assert_eq!(sink.sent(Ok(AsyncSink::Ready)), Request::FlushAfter);
    assert_eq!(
        sink.flushed_after(Ok(Async::NotReady)),
        Request::Done(Ok(AsyncSink::Ready))
    );
    assert_eq!(sink.poll_complete::<&str>(Ok(Async::NotReady)), Ok(Async::NotReady));
    assert_eq!(sink.poll_complete::<&str>(Ok(Async::Ready(()))), Ok(Async::Ready(())));
    assert_eq!(sink.poll_complete(Err("broken")), Err("broken"));
    assert_eq!(sink.close::<&str>(Ok(Async::Ready(()))), Ok(Async::Ready(())));
    assert_eq!(sink.close(Err("broken")), Err("broken"));
    // The next item waits for a flush all the same.
    assert_eq!(sink.start_send(2), Request::FlushFirst(2));
    assert_eq!(sink.flushed_first(2, Ok(Async::Ready(()))), Request::Send(2));
    assert_eq!(sink.poll_complete::<&str>(Ok(Async::NotReady)), Ok(Async::NotReady));
    assert!(!sink.needs_flush);
}
