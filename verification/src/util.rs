//! Sinks for datagrams.
use bytes::Bytes;
use vstd::prelude::*;

use crate::buffer;
use crate::poll::{Async, AsyncSink, WriteError};

verus! {

/// Wraps a writer in a sink of datagrams, so that it can be the target of a stream.
pub struct AsyncWriteSink<T> {
    pub writer: T,
}

impl<T> AsyncWriteSink<T> {
    /// A sink that writes to `writer`.
    pub fn new(writer: T) -> (r: AsyncWriteSink<T>)
        ensures
            r.writer == writer,
    {
        AsyncWriteSink { writer }
    }

    /// The outcome of sending `payload`, of which the writer was given all bytes and `written` is
    /// its answer: how many of them it wrote.
    pub fn start_send<E>(&self, payload: Bytes, written: Result<Async<usize>, E>) -> (r: Result<
        AsyncSink<Bytes>,
        WriteError<E>,
    >)
        ensures
            match written {
                Ok(Async::Ready(nbytes)) => if nbytes == buffer::content(payload).len() {
                    r == Ok::<AsyncSink<Bytes>, WriteError<E>>(AsyncSink::Ready)
                } else {
                    r == Err::<AsyncSink<Bytes>, WriteError<E>>(WriteError::BufferOverrun)
                },
                Ok(Async::NotReady) => r == Ok::<AsyncSink<Bytes>, WriteError<E>>(
                    AsyncSink::NotReady(payload),
                ),
                Err(e) => r == Err::<AsyncSink<Bytes>, WriteError<E>>(WriteError::Io(e)),
            },
    {
        match written {
            Ok(Async::Ready(nbytes)) => {
                if nbytes != buffer::len(&payload) {
                    // With datagrams, it's an error if we can't write the entire buffer.
                    Err(WriteError::BufferOverrun)
                } else {
                    Ok(AsyncSink::Ready)
                }
            },
            Ok(Async::NotReady) => Ok(AsyncSink::NotReady(payload)),
            Err(e) => Err(WriteError::Io(e)),
        }
    }
}

/// Wraps a sink and arranges for it to be flushed after every write. With datagrams it is
/// important not to buffer bytes as if they were part of a continuous stream.
///
/// To send an item, do what `start_send` asks of the wrapped sink, hand its answer to the method
/// that the request names, and go on with the request that comes back until it is `Done`.
pub struct FlushingSink<S> {
    pub sink: S,
    /// Whether an item was taken by the sink and has not been flushed since.
    pub needs_flush: bool,
}

/// What sending an item asks next of the wrapped sink.
#[derive(Debug, PartialEq, Eq)]
pub enum SinkRequest<I, E> {
    /// Flush the sink. The answer, and the item, go to `flushed_first`.
    FlushFirst(I),
    /// Send the item. The answer goes to `sent`.
    Send(I),
    /// Flush the sink. The answer goes to `flushed_after`.
    FlushAfter,
    /// Nothing: this is the outcome.
    Done(Result<AsyncSink<I>, E>),
}

/// What the wrapped sink answers to a request.
pub enum SinkAnswer<I, E> {
    /// The outcome of a flush.
    Flush(Result<Async<()>, E>),
    /// The outcome of a send.
    Send(Result<AsyncSink<I>, E>),
}

/// The first request, to send `item`: a flush, if one is still due, and then the item.
pub open spec fn first_request<I, E>(needs_flush: bool, item: I) -> SinkRequest<I, E> {
    if needs_flush {
        SinkRequest::FlushFirst(item)
    } else {
        SinkRequest::Send(item)
    }
}

/// Whether a flush is due, and the request that follows, once `answer` is given to `request`.
///
/// A flush that was due and is not possible now ends the send, with the item handed back. An item
/// that was taken makes a flush due; it counts as sent, whether or not it can be flushed now.
pub open spec fn next_request<I, E>(
    needs_flush: bool,
    request: SinkRequest<I, E>,
    answer: SinkAnswer<I, E>,
) -> (bool, SinkRequest<I, E>) {
    match (request, answer) {
        (SinkRequest::FlushFirst(item), SinkAnswer::Flush(Ok(Async::Ready(())))) => (
            false,
            SinkRequest::Send(item),
        ),
        (SinkRequest::FlushFirst(item), SinkAnswer::Flush(Ok(Async::NotReady))) => (
            needs_flush,
            SinkRequest::Done(Ok(AsyncSink::NotReady(item))),
        ),
        (SinkRequest::Send(_), SinkAnswer::Send(Ok(AsyncSink::Ready))) => (
            true,
            SinkRequest::FlushAfter,
        ),
        (SinkRequest::Send(_), SinkAnswer::Send(Ok(AsyncSink::NotReady(item)))) => (
            needs_flush,
            SinkRequest::Done(Ok(AsyncSink::NotReady(item))),
        ),
        (SinkRequest::FlushAfter, SinkAnswer::Flush(Ok(Async::Ready(())))) => (
            false,
            SinkRequest::Done(Ok(AsyncSink::Ready)),
        ),
        (SinkRequest::FlushAfter, SinkAnswer::Flush(Ok(Async::NotReady))) => (
            needs_flush,
            SinkRequest::Done(Ok(AsyncSink::Ready)),
        ),
        (_, SinkAnswer::Flush(Err(e))) => (needs_flush, SinkRequest::Done(Err(e))),
        (_, SinkAnswer::Send(Err(e))) => (needs_flush, SinkRequest::Done(Err(e))),
        _ => (needs_flush, request),
    }
}

impl<S> FlushingSink<S> {
    /// A sink that sends to `sink`, which is taken to hold nothing that is not flushed.
    pub fn new(sink: S) -> (r: FlushingSink<S>)
        ensures
            r.sink == sink,
            !r.needs_flush,
    {
        FlushingSink { sink, needs_flush: false }
    }

    /// Begins to send `item`.
    pub fn start_send<I, E>(&self, item: I) -> (r: SinkRequest<I, E>)
        ensures
            r == first_request::<I, E>(self.needs_flush, item),
    {
        if self.needs_flush {
            SinkRequest::FlushFirst(item)
        } else {
            SinkRequest::Send(item)
        }
    }

    /// Goes on after `FlushFirst`.
    pub fn flushed_first<I, E>(&mut self, item: I, answer: Result<Async<()>, E>) -> (r: SinkRequest<
        I,
        E,
    >)
        ensures
            final(self).sink == old(self).sink,
            (final(self).needs_flush, r) == next_request(
                old(self).needs_flush,
                SinkRequest::FlushFirst(item),
                SinkAnswer::Flush(answer),
            ),
    {
        match answer {
            Ok(Async::Ready(())) => {
                self.needs_flush = false;
                SinkRequest::Send(item)
            },
            Ok(Async::NotReady) => SinkRequest::Done(Ok(AsyncSink::NotReady(item))),
            Err(e) => SinkRequest::Done(Err(e)),
        }
    }

    /// Goes on after `Send`, for an `item` that is the sink's now, unless it hands it back.
    pub fn sent<I, E>(&mut self, answer: Result<AsyncSink<I>, E>) -> (r: SinkRequest<I, E>)
        ensures
            final(self).sink == old(self).sink,
            forall|item: I|
                (final(self).needs_flush, r) == #[trigger] next_request(
                    old(self).needs_flush,
                    SinkRequest::Send(item),
                    SinkAnswer::Send(answer),
                ),
    {
        match answer {
            Ok(AsyncSink::Ready) => {
                self.needs_flush = true;
                SinkRequest::FlushAfter
            },
            Ok(AsyncSink::NotReady(item)) => SinkRequest::Done(Ok(AsyncSink::NotReady(item))),
            Err(e) => SinkRequest::Done(Err(e)),
        }
    }

    /// Goes on after `FlushAfter`.
    pub fn flushed_after<I, E>(&mut self, answer: Result<Async<()>, E>) -> (r: SinkRequest<I, E>)
        ensures
            final(self).sink == old(self).sink,
            (final(self).needs_flush, r) == next_request(
                old(self).needs_flush,
                SinkRequest::<I, E>::FlushAfter,
                SinkAnswer::Flush(answer),
            ),
    {
        match answer {
            Ok(Async::Ready(())) => {
                self.needs_flush = false;
                SinkRequest::Done(Ok(AsyncSink::Ready))
            },
            Ok(Async::NotReady) => {
                // Can't flush now; try again next time
                SinkRequest::Done(Ok(AsyncSink::Ready))
            },
            Err(e) => SinkRequest::Done(Err(e)),
        }
    }

    /// The outcome of a flush on the caller's own account, for the answer of the wrapped sink to
    /// one. A flush that was due is due still.
    pub fn poll_complete<E>(&mut self, answer: Result<Async<()>, E>) -> (r: Result<Async<()>, E>)
        ensures
            *final(self) == *old(self),
            r == answer,
    {
        answer
    }

    /// The outcome of a close, for the answer of the wrapped sink to one.
    pub fn close<E>(&mut self, answer: Result<Async<()>, E>) -> (r: Result<Async<()>, E>)
        ensures
            *final(self) == *old(self),
            r == answer,
    {
        answer
    }
}

/// One call of the wrapped sink, and its answer.
pub enum SinkCall<I, E> {
    /// What sending an item asked of the sink.
    Asked {
        /// Whether a flush was due when the request was made.
        needs_flush: bool,
        request: SinkRequest<I, E>,
        answer: SinkAnswer<I, E>,
    },
    /// A flush on the caller's own account.
    Flushed(Result<Async<()>, E>),
    /// A close on the caller's own account.
    Closed(Result<Async<()>, E>),
}

/// Whether a flush is due, and what is asked of the wrapped sink, before the call at `k`. Flushing
/// and closing the sink on the caller's own account changes neither.
pub open spec fn before_call<I, E>(
    needs_flush: bool,
    calls: Seq<SinkCall<I, E>>,
    k: int,
) -> (bool, SinkRequest<I, E>)
    decreases k,
{
    if k <= 0 {
        (needs_flush, SinkRequest::Done(Ok(AsyncSink::Ready)))
    } else {
        match calls[k - 1] {
            SinkCall::Asked { needs_flush, request, answer } => next_request(
                needs_flush,
                request,
                answer,
            ),
            _ => before_call(needs_flush, calls, k - 1),
        }
    }
}

/// Whether the call at `k` follows from those before it: it is what the send under way asks for,
/// or, if that is done, the first request of another one, or a flush or close of the caller's.
pub open spec fn call_follows<I, E>(
    needs_flush: bool,
    calls: Seq<SinkCall<I, E>>,
    k: int,
) -> bool {
    let (due, asked) = before_call(needs_flush, calls, k);
    match calls[k] {
        SinkCall::Asked { needs_flush, request, answer } => {
            &&& needs_flush == due
            &&& answer is Send <==> request is Send
            &&& if asked is Done {
                exists|item: I| request == #[trigger] first_request::<I, E>(due, item)
            } else {
                request == asked
            }
        },
        _ => asked is Done,
    }
}

/// Whether `calls` are, in order, calls of the wrapped sink, from sending, flushing and closing in
/// any order, the first of which finds that a flush is due as `needs_flush` says.
pub open spec fn is_used<I, E>(needs_flush: bool, calls: Seq<SinkCall<I, E>>) -> bool {
    forall|k: int| 0 <= k < calls.len() ==> #[trigger] call_follows(needs_flush, calls, k)
}

/// Whether the sink is given an item in this call.
pub open spec fn gives_item<I, E>(call: SinkCall<I, E>) -> bool {
    call matches SinkCall::Asked { request, .. } && request is Send
}

/// Whether the sink takes an item in this call.
pub open spec fn takes_item<I, E>(call: SinkCall<I, E>) -> bool {
    call matches SinkCall::Asked { answer, .. } && answer == SinkAnswer::<I, E>::Send(
        Ok(AsyncSink::Ready),
    )
}

/// Whether the sink is flushed in this call.
pub open spec fn flushes<I, E>(call: SinkCall<I, E>) -> bool {
    match call {
        SinkCall::Asked { answer, .. } => answer == SinkAnswer::<I, E>::Flush(Ok(Async::Ready(()))),
        SinkCall::Flushed(answer) => answer == Ok::<Async<()>, E>(Async::Ready(())),
        SinkCall::Closed(_) => false,
    }
}

proof fn no_flush_due_before_item<I, E>(needs_flush: bool, calls: Seq<SinkCall<I, E>>, k: int)
    requires
        is_used(needs_flush, calls),
        0 <= k <= calls.len(),
    ensures
        before_call(needs_flush, calls, k).1 is Send ==> !before_call(needs_flush, calls, k).0,
        0 <= k < calls.len() && gives_item(calls[k]) ==> !before_call(needs_flush, calls, k).0,
    decreases k,
{
    if k > 0 {
        no_flush_due_before_item(needs_flush, calls, k - 1);
        assert(call_follows(needs_flush, calls, k - 1));
    }
    if k < calls.len() {
        assert(call_follows(needs_flush, calls, k));
    }
}

/// An item is given to the sink only when no flush is due.
pub proof fn nothing_unflushed_before_send<I, E>(
    needs_flush: bool,
    calls: Seq<SinkCall<I, E>>,
    k: int,
)
    requires
        is_used(needs_flush, calls),
        0 <= k < calls.len(),
        gives_item(calls[k]),
    ensures
        !before_call(needs_flush, calls, k).0,
{
    no_flush_due_before_item(needs_flush, calls, k);
}

proof fn flush_stays_due<I, E>(needs_flush: bool, calls: Seq<SinkCall<I, E>>, i: int, k: int)
    requires
        is_used(needs_flush, calls),
        0 <= i < k <= calls.len(),
        takes_item(calls[i]),
        forall|m: int| i < m < k ==> !flushes(#[trigger] calls[m]),
    ensures
        before_call(needs_flush, calls, k).0,
    decreases k,
{
    assert(call_follows(needs_flush, calls, k - 1));
    if k > i + 1 {
        flush_stays_due(needs_flush, calls, i, k - 1);
        assert(!flushes(calls[k - 1]));
        if let SinkCall::Asked { answer: SinkAnswer::Flush(Ok(Async::Ready(unit))), .. } = calls[k
            - 1] {
            assert(unit == ());
        }
    }
}

/// The sink is flushed after every write: after it took an item, it is given no other before it is
/// flushed, whatever it answers, and whatever the caller sends, flushes and closes in between. So
/// there are never two items in it that are not flushed.
pub proof fn flushed_after_every_write<I, E>(
    needs_flush: bool,
    calls: Seq<SinkCall<I, E>>,
    i: int,
    j: int,
)
    requires
        is_used(needs_flush, calls),
        0 <= i < j < calls.len(),
        takes_item(calls[i]),
        gives_item(calls[j]),
    ensures
        exists|k: int| i < k < j && flushes(#[trigger] calls[k]),
{
    if forall|k: int| i < k < j ==> !flushes(#[trigger] calls[k]) {
        flush_stays_due(needs_flush, calls, i, j);
        nothing_unflushed_before_send(needs_flush, calls, j);
    }
}

/// A new sink writes to the writer that it is given.
pub proof fn new_sink_has_its_writer<T>(writer: T, r: AsyncWriteSink<T>)
    requires
        call_ensures(AsyncWriteSink::<T>::new, (writer,), r),
    ensures
        r.writer == writer,
{
}

/// A datagram counts as sent exactly if the writer wrote all of its bytes. One of which it wrote
/// fewer or more is an error, one that it could not write yet is handed back as it is, and an error
/// of the writer is passed on.
pub proof fn datagram_is_written_whole<T, E>(
    sink: &AsyncWriteSink<T>,
    payload: Bytes,
    written: Result<Async<usize>, E>,
    r: Result<AsyncSink<Bytes>, WriteError<E>>,
)
    requires
        call_ensures(AsyncWriteSink::<T>::start_send::<E>, (sink, payload, written), r),
    ensures
        r is Ok && r->Ok_0 is Ready <==> (written matches Ok(Async::Ready(nbytes)) && nbytes
            == buffer::content(payload).len()),
        r is Ok && r->Ok_0 is NotReady <==> (written matches Ok(Async::NotReady)),
        r is Ok && r->Ok_0 is NotReady ==> (r->Ok_0)->NotReady_0 == payload,
        r is Err && r->Err_0 is BufferOverrun <==> (written matches Ok(Async::Ready(nbytes))
            && nbytes != buffer::content(payload).len()),
        r is Err && r->Err_0 is Io <==> written is Err,
        r is Err && r->Err_0 is Io ==> (r->Err_0)->Io_0 == written->Err_0,
{
}

/// What becomes of an item that is sent, over all calls of the wrapped sink that this takes: the
/// sink is flushed first if a flush is due, then given the item itself, and then flushed. The item
/// is handed back if the sink cannot be flushed yet, or what the sink hands back; it counts as sent
/// exactly if the sink took it and did not fail; and each error of the sink ends the send. A flush
/// is due afterwards exactly if the sink holds an item that it was not flushed of since.
pub proof fn item_is_sent_and_flushed<S, I, E>(
    sink: &FlushingSink<S>,
    item: I,
    q1: SinkRequest<I, E>,
    first: &mut FlushingSink<S>,
    flushed_before: Result<Async<()>, E>,
    q2: SinkRequest<I, E>,
    second: &mut FlushingSink<S>,
    taken: Result<AsyncSink<I>, E>,
    q3: SinkRequest<I, E>,
    third: &mut FlushingSink<S>,
    flushed: Result<Async<()>, E>,
    q4: SinkRequest<I, E>,
)
    requires
        call_ensures(FlushingSink::<S>::start_send::<I, E>, (sink, item), q1),
        *old(first) == *sink,
        q1 matches SinkRequest::FlushFirst(asked) ==> call_ensures(
            FlushingSink::<S>::flushed_first::<I, E>,
            (first, asked, flushed_before),
            q2,
        ),
        !(q1 is FlushFirst) ==> *final(first) == *old(first) && q2 == q1,
        *old(second) == *final(first),
        q2 is Send ==> call_ensures(FlushingSink::<S>::sent::<I, E>, (second, taken), q3),
        !(q2 is Send) ==> *final(second) == *old(second) && q3 == q2,
        *old(third) == *final(second),
        q3 is FlushAfter ==> call_ensures(
            FlushingSink::<S>::flushed_after::<I, E>,
            (third, flushed),
            q4,
        ),
        !(q3 is FlushAfter) ==> *final(third) == *old(third) && q4 == q3,
    ensures
        q1 is FlushFirst <==> sink.needs_flush,
        q4 is Done,
        final(third).sink == sink.sink,
        ({
            let outcome = q4->Done_0;
            let due = final(third).needs_flush;
            if sink.needs_flush && !(flushed_before matches Ok(Async::Ready(_))) {
                // The item does not get to the sink.
                &&& due
                &&& !(q2 is Send) && !(q3 is FlushAfter)
                &&& match flushed_before {
                    Ok(_) => outcome == Ok::<AsyncSink<I>, E>(AsyncSink::NotReady(item)),
                    Err(e) => outcome == Err::<AsyncSink<I>, E>(e),
                }
            } else {
                &&& q2 == SinkRequest::<I, E>::Send(item)
                &&& match taken {
                    Ok(AsyncSink::NotReady(back)) => {
                        &&& outcome == Ok::<AsyncSink<I>, E>(AsyncSink::NotReady(back))
                        &&& !due && !(q3 is FlushAfter)
                    },
                    Err(e) => {
                        &&& outcome == Err::<AsyncSink<I>, E>(e)
                        &&& !due && !(q3 is FlushAfter)
                    },
                    Ok(AsyncSink::Ready) => {
                        &&& q3 is FlushAfter
                        &&& due <==> !(flushed matches Ok(Async::Ready(_)))
                        &&& match flushed {
                            Ok(_) => outcome == Ok::<AsyncSink<I>, E>(AsyncSink::Ready),
                            Err(e) => outcome == Err::<AsyncSink<I>, E>(e),
                        }
                    },
                }
            }
        }),
{
    if q2 is Send {
        let request = SinkRequest::<I, E>::Send(item);
        assert((final(second).needs_flush, q3) == next_request(
            old(second).needs_flush,
            request,
            SinkAnswer::Send(taken),
        ));
    }
}

/// A new sink has no flush due, and a flush or a close on the caller's own account has the outcome
/// that the wrapped sink gives it, and changes nothing else.
pub proof fn flush_of_caller_is_passed_on<S, E>(
    inner: S,
    new: FlushingSink<S>,
    sink: &mut FlushingSink<S>,
    other: &mut FlushingSink<S>,
    answer: Result<Async<()>, E>,
    flushed: Result<Async<()>, E>,
    closed: Result<Async<()>, E>,
)
    requires
        call_ensures(FlushingSink::<S>::new, (inner,), new),
        call_ensures(FlushingSink::<S>::poll_complete::<E>, (sink, answer), flushed),
        call_ensures(FlushingSink::<S>::close::<E>, (other, answer), closed),
    ensures
        new.sink == inner && !new.needs_flush,
        flushed == answer && *final(sink) == *old(sink),
        closed == answer && *final(other) == *old(other),
{
}

} // verus!
