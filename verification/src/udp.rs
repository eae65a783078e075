//! UDP data flows with many peers over one socket. A `UdpServer` dispatches to `UdpStream`
//! pseudo-sockets as needed, according to the peer address and port number.
use bytes::Bytes;
use futures::executor::NotifyHandle;
use futures::sync::mpsc::{Receiver, Sender};
use vstd::prelude::*;

use crate::buffer;
use crate::channel;
use crate::channel::{Datagram, DatagramModel, TrySendError};
use crate::model;
use crate::model::{ChildModel, ServerModel, StepModel, StreamModel};
use crate::net::{SocketAddr, SocketAddrV4, SocketAddrV6};
use crate::poll::{Async, AsyncSink, SocketError, StreamError};

verus! {

/// The longest datagram that is received whole. A typical MTU (including IP and UDP headers) is
/// 1500, but MTU concerns are not addressed here.
pub const MAX_DATAGRAM: usize = 2048;

/// How many datagrams can be buffered in the server for each child.
pub const UDP_STREAM_BUFFER_DATAGRAMS: usize = 8;

/// The child, owned by the `UdpServer`, that communicates with the `UdpStream` supplied to the
/// caller.
pub struct UdpChild {
    incoming_tx: Sender<Bytes>,
    outgoing_rx: Receiver<Datagram>,
    outgoing_datagram: Option<Datagram>,
}

/// A virtual UDP socket, which communicates with a single peer via the `UdpServer`.
pub struct UdpStream {
    peer: SocketAddr,
    outgoing_tx: Sender<Datagram>,
    incoming_rx: Receiver<Bytes>,
}

/// What an optional datagram is made of.
pub open spec fn optional_datagram(d: Option<Datagram>) -> Option<DatagramModel> {
    match d {
        Some(d) => Some(channel::datagram(d)),
        None => None,
    }
}

impl UdpChild {
    /// The state of the child of `peer`.
    pub closed spec fn model(self, peer: SocketAddr) -> ChildModel {
        ChildModel {
            peer,
            incoming: channel::payload_sender(self.incoming_tx),
            outgoing: channel::datagram_receiver(self.outgoing_rx),
            polled: channel::datagram_poll_state(self.outgoing_rx),
            pending: optional_datagram(self.outgoing_datagram),
        }
    }
}

impl View for UdpStream {
    type V = StreamModel;

    closed spec fn view(&self) -> StreamModel {
        StreamModel {
            peer: self.peer,
            incoming: channel::payload_receiver(self.incoming_rx),
            polled: channel::payload_poll_state(self.incoming_rx),
            outgoing: channel::datagram_sender(self.outgoing_tx),
            waiting: channel::datagram_waiting(self.outgoing_tx),
        }
    }
}

/// What a stream that may have been created is made of.
pub open spec fn optional_stream(stream: Option<UdpStream>) -> Option<StreamModel> {
    match stream {
        Some(stream) => Some(stream@),
        None => None,
    }
}

/// What the answer of a channel that was asked for a datagram is made of.
pub open spec fn dequeue_answer(answer: Result<Async<Option<Datagram>>, ()>) -> Result<
    Async<Option<DatagramModel>>,
    (),
> {
    match answer {
        Ok(Async::Ready(datagram)) => Ok(Async::Ready(optional_datagram(datagram))),
        Ok(Async::NotReady) => Ok(Async::NotReady),
        Err(()) => Err(()),
    }
}

/// What the answer of a channel that was offered a payload is made of.
pub open spec fn enqueue_answer(answer: Result<(), TrySendError<Bytes>>) -> Result<
    (),
    TrySendError<Seq<u8>>,
> {
    match answer {
        Ok(()) => Ok(()),
        Err(TrySendError::Full(payload)) => Err(TrySendError::Full(buffer::content(payload))),
        Err(TrySendError::Disconnected(payload)) => Err(
            TrySendError::Disconnected(buffer::content(payload)),
        ),
    }
}

/// The state of the children of `streams`.
pub open spec fn children(streams: Seq<(SocketAddr, UdpChild)>) -> Seq<ChildModel> {
    streams.map_values(|s: (SocketAddr, UdpChild)| s.1.model(s.0))
}

/// Whether looking for the child of `address` among the children `before` gives `child` and
/// `new_stream`, and leaves the children `after` once the caller has left the child as `left`: the
/// child that is there, or a new one with its stream, which comes last, if there is none.
pub open spec fn looks_up(
    before: Seq<(SocketAddr, UdpChild)>,
    address: SocketAddr,
    child: UdpChild,
    new_stream: Option<UdpStream>,
    left: UdpChild,
    after: Seq<(SocketAddr, UdpChild)>,
) -> bool {
    match new_stream {
        None => exists|i: int|
            0 <= i < before.len() && #[trigger] before[i].0 == address && child == before[i].1
                && after =~= before.update(i, (address, left)),
        Some(stream) => {
            &&& forall|i: int| 0 <= i < before.len() ==> #[trigger] before[i].0 != address
            &&& model::is_new_stream(stream@, address)
            &&& child.model(address) == model::child_of(stream@)
            &&& after =~= before.push((address, left))
        },
    }
}

/// Whether `child` and `other`, of the same peer, communicate with the same stream.
pub open spec fn is_same_child(peer: SocketAddr, child: UdpChild, other: UdpChild) -> bool {
    &&& child.model(peer).incoming.channel == other.model(peer).incoming.channel
    &&& child.model(peer).outgoing.channel == other.model(peer).outgoing.channel
}

/// At most one stream is made per address and port: after the child of `address` was looked up,
/// looking it up again, among children that are `later` and of which it was not removed, makes no
/// stream. It gives the same child, and the children are those of the same addresses as before.
pub proof fn second_look_up_makes_no_stream(
    before: Seq<(SocketAddr, UdpChild)>,
    address: SocketAddr,
    child: UdpChild,
    new_stream: Option<UdpStream>,
    left: UdpChild,
    after: Seq<(SocketAddr, UdpChild)>,
    later: Seq<(SocketAddr, UdpChild)>,
    again: UdpChild,
    second_stream: Option<UdpStream>,
    left_again: UdpChild,
    last: Seq<(SocketAddr, UdpChild)>,
)
    requires
        looks_up(before, address, child, new_stream, left, after),
        exists|i: int|
            0 <= i < later.len() && #[trigger] later[i].0 == address && is_same_child(
                address,
                later[i].1,
                child,
            ),
        forall|i: int, j: int|
            0 <= i < j < later.len() ==> (#[trigger] later[i]).0 != (#[trigger] later[j]).0,
        looks_up(later, address, again, second_stream, left_again, last),
    ensures
        second_stream is None,
        is_same_child(address, again, child),
        last.len() == later.len(),
        forall|i: int| 0 <= i < later.len() ==> (#[trigger] last[i]).0 == later[i].0,
{
}

/// A `UdpServer` (de-)multiplexes a single UDP socket to allow multiple UDP data flows to distinct
/// clients, as determined by their address and port numbers. It yields new `UdpStream` objects,
/// which represent communication with a single peer.
///
/// To poll the server, do what `poll` asks of the socket, hand its answer to the method that the
/// request names, and go on with the request that comes back until it is `Done`.
pub struct UdpServer<S> {
    socket: S,
    streams: Vec<(SocketAddr, UdpChild)>,
    incoming_datagram: Option<Datagram>,
}

impl<S> View for UdpServer<S> {
    type V = ServerModel;

    closed spec fn view(&self) -> ServerModel {
        ServerModel {
            children: children(self.streams@),
            parked: optional_datagram(self.incoming_datagram),
        }
    }
}

/// What polling the server asks of the caller next.
pub enum Request<E> {
    /// Offer the datagram, of the child at `index`, to the socket. The answer goes to `sent`.
    SendTo { index: usize, datagram: Datagram },
    /// Receive a datagram from the socket. The answer goes to `received`.
    RecvFrom,
    /// Nothing: this is the outcome.
    Done(Result<Async<Option<UdpStream>>, E>),
}

/// What polling the server does next.
pub enum Step<E> {
    /// Offer the datagram, of the child at `index`, to the socket.
    SendTo { index: usize, datagram: Datagram },
    /// Take the next datagram from the child at `index`.
    Dequeue { index: usize },
    /// Receive a datagram from the socket.
    RecvFrom,
    /// Hand the datagram to the child of its address.
    Dispatch { datagram: Datagram },
    /// Nothing: this is the outcome.
    Done(Result<Async<Option<UdpStream>>, E>),
}

/// What the outcome of a poll is made of.
pub open spec fn poll_outcome<E>(outcome: Result<Async<Option<UdpStream>>, E>) -> Result<
    Async<Option<StreamModel>>,
    E,
> {
    match outcome {
        Ok(Async::Ready(stream)) => Ok(Async::Ready(optional_stream(stream))),
        Ok(Async::NotReady) => Ok(Async::NotReady),
        Err(e) => Err(e),
    }
}

impl<E> View for Request<E> {
    type V = StepModel<E>;

    open spec fn view(&self) -> StepModel<E> {
        match *self {
            Request::SendTo { index, datagram } => StepModel::SendTo {
                index: index as int,
                datagram: channel::datagram(datagram),
            },
            Request::RecvFrom => StepModel::RecvFrom,
            Request::Done(outcome) => StepModel::Done(poll_outcome(outcome)),
        }
    }
}

impl<E> View for Step<E> {
    type V = StepModel<E>;

    open spec fn view(&self) -> StepModel<E> {
        match *self {
            Step::SendTo { index, datagram } => StepModel::SendTo {
                index: index as int,
                datagram: channel::datagram(datagram),
            },
            Step::Dequeue { index } => StepModel::Dequeue { index: index as int },
            Step::RecvFrom => StepModel::RecvFrom,
            Step::Dispatch { datagram } => StepModel::Dispatch {
                datagram: channel::datagram(datagram),
            },
            Step::Done(outcome) => StepModel::Done(poll_outcome(outcome)),
        }
    }
}

impl<S> UdpServer<S> {
    /// Fetches the existing child associated with the provided address and port number, or creates
    /// a new one. Returns the child and, if one was created, the `UdpStream`.
    pub fn get_or_create_child(
        streams: &mut Vec<(SocketAddr, UdpChild)>,
        address: SocketAddr,
    ) -> (r: (&mut UdpChild, Option<UdpStream>))
        ensures
            looks_up(old(streams)@, address, *r.0, r.1, *final(r.0), final(streams)@),
    {
        let mut i: usize = 0;
        while i < streams.len()
            invariant
                i <= streams@.len(),
                *streams == *old(streams),
                forall|k: int| 0 <= k < i ==> #[trigger] streams@[k].0 != address,
            decreases streams@.len() - i,
        {
            if streams[i].0 == address {
                return (&mut streams[i].1, None);
            }
            i += 1;
        }
        let (incoming_tx, incoming_rx) = channel::payload_channel(UDP_STREAM_BUFFER_DATAGRAMS);
        let (outgoing_tx, outgoing_rx) = channel::datagram_channel(UDP_STREAM_BUFFER_DATAGRAMS);
        let stream = UdpStream { peer: address, outgoing_tx, incoming_rx };
        streams.push((address, UdpChild { incoming_tx, outgoing_rx, outgoing_datagram: None }));
        (&mut streams[i].1, Some(stream))
    }

    /// A server on `socket`, which is bound to the local address. No peer is known yet.
    pub fn bind(socket: S) -> (r: UdpServer<S>)
        ensures
            r.socket() == socket,
            r@.children.len() == 0,
            r@.parked is None,
            r@.valid(),
    {
        UdpServer { socket, streams: Vec::new(), incoming_datagram: None }
    }

    /// The socket.
    pub closed spec fn socket(self) -> S {
        self.socket
    }

    /// Access to the socket, for what a request asks of it.
    pub fn socket_mut(&mut self) -> (r: &mut S)
        ensures
            *r == old(self).socket(),
            final(self).socket() == *final(r),
            final(self)@ == old(self)@,
    {
        &mut self.socket
    }

    /// Turns to incoming datagrams.
    fn begin_incoming<E>(&mut self) -> (r: Step<E>)
        ensures
            final(self).socket() == old(self).socket(),
            (final(self)@, r@) == model::begin_incoming::<E>(old(self)@),
    {
        match self.incoming_datagram.take() {
            Some(datagram) => Step::Dispatch { datagram },
            None => Step::RecvFrom,
        }
    }

    /// Turns to the outgoing datagrams of the children from `index` on.
    fn begin_outgoing<E>(&mut self, index: usize) -> (r: Step<E>)
        ensures
            final(self).socket() == old(self).socket(),
            (final(self)@, r@) == model::begin_outgoing::<E>(old(self)@, index as int),
    {
        if index < self.streams.len() {
            let pending = self.streams[index].1.outgoing_datagram.take();
            proof {
                assert(self@.children =~= old(self)@.with_pending(index as int, None).children);
            }
            match pending {
                Some(datagram) => Step::SendTo { index, datagram },
                None => {
                    proof {
                        assert(self@.children =~= old(self)@.children);
                    }
                    Step::Dequeue { index }
                },
            }
        } else {
            self.begin_incoming()
        }
    }

    /// Goes on with the socket's answer to a datagram of the child at `index`.
    pub fn after_sent<E>(
        &mut self,
        index: usize,
        datagram: Datagram,
        answer: Result<Async<usize>, E>,
    ) -> (r: Step<E>)
        requires
            index < old(self)@.children.len(),
        ensures
            final(self).socket() == old(self).socket(),
            (final(self)@, r@) == model::after_sent(
                old(self)@,
                index as int,
                channel::datagram(datagram),
                answer,
            ),
    {
        match answer {
            Ok(Async::NotReady) => {
                // Try again later.
                self.streams[index].1.outgoing_datagram = Some(datagram);
                proof {
                    assert(self@.children =~= old(self)@.with_pending(
                        index as int,
                        Some(channel::datagram(datagram)),
                    ).children);
                }
                self.begin_incoming()
            },
            Ok(Async::Ready(_)) => Step::Dequeue { index },
            Err(_) => Step::Dequeue { index },
        }
    }

    /// Goes on with the answer of the child at `index`, which was asked for a datagram.
    pub fn after_dequeued<E>(
        &mut self,
        index: usize,
        answer: Result<Async<Option<Datagram>>, ()>,
    ) -> (r: Step<E>)
        requires
            index < old(self)@.children.len(),
        ensures
            final(self).socket() == old(self).socket(),
            (final(self)@, r@) == model::after_dequeued::<E>(
                old(self)@,
                index as int,
                dequeue_answer(answer),
            ),
    {
        match answer {
            Ok(Async::Ready(Some(datagram))) => Step::SendTo { index, datagram },
            Ok(Async::Ready(None)) => {
                self.streams.remove(index);
                proof {
                    assert(self@.children =~= old(self)@.children.remove(index as int));
                }
                self.begin_outgoing(index)
            },
            Ok(Async::NotReady) => {
                assert(index < self.streams.len());
                self.begin_outgoing(index + 1)
            },
            Err(()) => self.begin_incoming(),
        }
    }

    /// Goes on with the socket's answer to a receive into `buffer`.
    pub fn after_received<E>(
        &mut self,
        buffer: &[u8],
        answer: Result<Async<(usize, SocketAddr)>, E>,
    ) -> (r: Step<E>)
        requires
            answer matches Ok(Async::Ready((nbytes, _))) ==> nbytes <= buffer@.len(),
        ensures
            final(self).socket() == old(self).socket(),
            (final(self)@, r@) == model::after_received(old(self)@, buffer@, answer),
    {
        match answer {
            Ok(Async::Ready((nbytes, address))) => {
                let payload = buffer::copy_of(&buffer[0..nbytes]);
                Step::Dispatch { datagram: (address, payload) }
            },
            Ok(Async::NotReady) => Step::Done(Ok(Async::NotReady)),
            Err(e) => Step::Done(Err(e)),
        }
    }

    /// Goes on with the answer of the child of `address`, which was offered a payload, and was
    /// created with `new_stream` if there is one.
    pub fn after_dispatched<E>(
        &mut self,
        address: SocketAddr,
        new_stream: Option<UdpStream>,
        answer: Result<(), TrySendError<Bytes>>,
    ) -> (r: Step<E>)
        requires
            old(self)@.valid(),
        ensures
            final(self).socket() == old(self).socket(),
            (final(self)@, r@) == model::after_dispatched::<E>(
                old(self)@,
                address,
                optional_stream(new_stream),
                enqueue_answer(answer),
            ),
    {
        match answer {
            Ok(()) => match new_stream {
                // Yield the new child stream, if one was created.
                Some(stream) => Step::Done(Ok(Async::Ready(Some(stream)))),
                None => self.begin_incoming(),
            },
            Err(TrySendError::Full(payload)) => {
                // Park the incoming datagram until we can send it. Don't process any more
                // incoming datagrams until the parked datagram is processed. (Otherwise we might
                // drop our parked datagram if another incoming datagram needs parking.) This does
                // mean that one stream that is slow to process can block all the others.
                self.incoming_datagram = Some((address, payload));
                Step::Done(Ok(Async::NotReady))
            },
            Err(TrySendError::Disconnected(_)) => {
                self.remove_peer(address);
                self.begin_incoming()
            },
        }
    }

    /// Removes the child of `address`, if there is one.
    fn remove_peer(&mut self, address: SocketAddr)
        requires
            old(self)@.valid(),
        ensures
            final(self).socket() == old(self).socket(),
            final(self)@ == old(self)@.without_peer(address),
    {
        let mut i: usize = 0;
        while i < self.streams.len()
            invariant
                i <= self.streams@.len(),
                *self == *old(self),
                self@.valid(),
                forall|k: int| 0 <= k < i ==> #[trigger] self@.children[k].peer != address,
            decreases self.streams@.len() - i,
        {
            if self.streams[i].0 == address {
                self.streams.remove(i);
                proof {
                    assert(self@.children =~= old(self)@.children.remove(i as int));
                    model::without_peer_is_removal(old(self)@, address, i as int);
                }
                return ;
            }
            assert(self@.children[i as int].peer != address);
            i += 1;
        }
        proof {
            model::without_unknown_peer(self@, address);
        }
    }

    /// Takes the next datagram from the child at `index`.
    fn dequeue<E>(&mut self, index: usize, task: &NotifyHandle) -> (r: Step<E>)
        requires
            index < old(self)@.children.len(),
        ensures
            final(self).socket() == old(self).socket(),
            exists|outcome: model::Outcome| #[trigger]
                model::channel_step(
                    old(self)@,
                    StepModel::<E>::Dequeue { index: index as int },
                    outcome,
                    *task,
                ) == Some((final(self)@, r@)),
    {
        let answer = channel::poll_datagram(&mut self.streams[index].1.outgoing_rx, task);
        let ghost outcome = model::Outcome::Dequeued(dequeue_answer(answer));
        proof {
            assert(self@.children =~= model::dequeued(
                old(self)@,
                index as int,
                dequeue_answer(answer),
                *task,
            ).children);
        }
        let step = self.after_dequeued(index, answer);
        assert(model::channel_step(
            old(self)@,
            StepModel::<E>::Dequeue { index: index as int },
            outcome,
            *task,
        ) == Some((self@, step@)));
        step
    }

    /// Hands the datagram to the child of its address, or to a new one.
    fn dispatch<E>(&mut self, datagram: Datagram, task: &NotifyHandle) -> (r: Step<E>)
        requires
            old(self)@.valid(),
        ensures
            final(self).socket() == old(self).socket(),
            exists|outcome: model::Outcome| #[trigger]
                model::channel_step(
                    old(self)@,
                    StepModel::<E>::Dispatch { datagram: channel::datagram(datagram) },
                    outcome,
                    *task,
                ) == Some((final(self)@, r@)),
    {
        let (address, payload) = datagram;
        // Find the child stream for this peer address/port, or create a new one.
        let (child, new_stream) = Self::get_or_create_child(&mut self.streams, address);
        // Dispatch the incoming datagram to the stream.
        let ghost before = *child;
        let receiver = match &new_stream {
            Some(stream) => Some(&stream.incoming_rx),
            None => None,
        };
        let answer = channel::try_send(&mut child.incoming_tx, payload, receiver);
        let ghost after = *child;
        let ghost new = optional_stream(new_stream);
        let ghost outcome = model::Outcome::Dispatched {
            new_stream: new,
            answer: enqueue_answer(answer),
        };
        proof {
            let m1 = model::created(old(self)@, new);
            let index = m1.index_of(address);
            let streams = old(self).streams@;
            if new_stream is Some {
                assert forall|i: int| 0 <= i < streams.len() implies #[trigger] old(
                    self,
                )@.children[i].peer != address by {
                    assert(streams[i].0 != address);
                }
                model::created_is_valid(old(self)@, address, new);
                assert(self.streams@ == streams.push((address, after)));
            } else {
                let i = choose|i: int|
                    0 <= i < streams.len() && #[trigger] streams[i].0 == address && before
                        == streams[i].1 && self.streams@ == streams.update(i, (address, after));
                assert(old(self)@.children[i].peer == address);
                model::created_is_valid(old(self)@, address, new);
                assert(index == i);
            }
            assert(self@.children =~= model::enqueued(
                m1,
                index,
                enqueue_answer(answer),
            ).children);
            model::enqueued_is_valid(m1, index, enqueue_answer(answer));
        }
        let step = self.after_dispatched(address, new_stream, answer);
        assert(model::channel_step(
            old(self)@,
            StepModel::<E>::Dispatch { datagram: channel::datagram(datagram) },
            outcome,
            *task,
        ) == Some((self@, step@)));
        step
    }

    /// Takes steps through channels until the socket or the caller is to be turned to.
    fn settle<E>(&mut self, first: Step<E>, task: &NotifyHandle) -> (r: Request<E>)
        requires
            model::consistent(old(self)@, first@),
        ensures
            final(self).socket() == old(self).socket(),
            model::consistent(final(self)@, r@),
            model::settles((old(self)@, first@), (final(self)@, r@), *task),
    {
        let ghost from = (self@, first@);
        let mut step = first;
        let ghost mut outcomes: Seq<model::Outcome> = seq![];
        loop
            invariant
                from == (old(self)@, first@),
                self.socket() == old(self).socket(),
                model::consistent(self@, step@),
                model::channel_steps(from, outcomes, *task) == Some((self@, step@)),
            decreases model::steps_left(self@, step@),
        {
            let ghost m = self@;
            let ghost taken = step@;
            let next = match step {
                Step::Dequeue { index } => self.dequeue(index, task),
                Step::Dispatch { datagram } => self.dispatch(datagram, task),
                Step::SendTo { index, datagram } => {
                    assert(model::settles(from, (self@, taken), *task));
                    return Request::SendTo { index, datagram };
                },
                Step::RecvFrom => {
                    assert(model::settles(from, (self@, taken), *task));
                    return Request::RecvFrom;
                },
                Step::Done(outcome) => {
                    assert(model::settles(from, (self@, taken), *task));
                    return Request::Done(outcome);
                },
            };
            proof {
                let outcome = choose|outcome: model::Outcome| #[trigger]
                    model::channel_step(m, taken, outcome, *task) == Some((self@, next@));
                model::channel_step_is_consistent(m, taken, outcome, *task);
                assert(outcomes.push(outcome).drop_last() =~= outcomes);
                outcomes = outcomes.push(outcome);
            }
            step = next;
        }
    }

    /// Begins to poll the server: the datagrams of all children, then the incoming ones.
    ///
    /// `task` is notified when a child that had no datagram has one.
    pub fn poll<E>(&mut self, task: &NotifyHandle) -> (r: Request<E>)
        requires
            old(self)@.valid(),
        ensures
            final(self).socket() == old(self).socket(),
            model::consistent(final(self)@, r@),
            model::settles(model::begin_outgoing::<E>(old(self)@, 0), (final(self)@, r@), *task),
    {
        let step = self.begin_outgoing(0);
        proof {
            model::begin_outgoing_is_consistent::<E>(old(self)@, 0);
        }
        self.settle(step, task)
    }

    /// Goes on after `SendTo`.
    pub fn sent<E>(
        &mut self,
        index: usize,
        datagram: Datagram,
        answer: Result<Async<usize>, E>,
        task: &NotifyHandle,
    ) -> (r: Request<E>)
        requires
            old(self)@.valid(),
            old(self)@.offers(index as int, channel::datagram(datagram)),
        ensures
            final(self).socket() == old(self).socket(),
            model::consistent(final(self)@, r@),
            model::settles(
                model::after_sent(
                    old(self)@,
                    index as int,
                    channel::datagram(datagram),
                    answer,
                ),
                (final(self)@, r@),
                *task,
            ),
    {
        let step = self.after_sent(index, datagram, answer);
        proof {
            model::after_sent_is_consistent(
                old(self)@,
                index as int,
                channel::datagram(datagram),
                answer,
            );
        }
        self.settle(step, task)
    }

    /// Goes on after `RecvFrom`, with the datagram in the first bytes of `buffer`.
    pub fn received<E>(
        &mut self,
        buffer: &[u8],
        answer: Result<Async<(usize, SocketAddr)>, E>,
        task: &NotifyHandle,
    ) -> (r: Request<E>)
        requires
            old(self)@.valid(),
            old(self)@.parked is None,
            answer matches Ok(Async::Ready((nbytes, _))) ==> nbytes <= buffer@.len(),
        ensures
            final(self).socket() == old(self).socket(),
            model::consistent(final(self)@, r@),
            model::settles(
                model::after_received(old(self)@, buffer@, answer),
                (final(self)@, r@),
                *task,
            ),
    {
        let step = self.after_received(buffer, answer);
        self.settle(step, task)
    }
}

/// Whether `r` is what reading `payload`, if there is one, into a buffer gives, and the buffer
/// changes from `before` to `after`: the payload takes the first bytes of the buffer, if it fits.
pub open spec fn reads(
    payload: Async<Option<Seq<u8>>>,
    before: Seq<u8>,
    after: Seq<u8>,
    r: Result<usize, StreamError>,
) -> bool {
    match payload {
        Async::Ready(Some(payload)) => if payload.len() <= before.len() {
            &&& r == Ok::<usize, StreamError>(payload.len() as usize)
            &&& after == payload + before.skip(payload.len() as int)
        } else {
            &&& r == Err::<usize, StreamError>(StreamError::BufferOverrun)
            &&& after == before
        },
        Async::Ready(None) => {
            &&& r == Ok::<usize, StreamError>(0)
            &&& after == before
        },
        Async::NotReady => {
            &&& r == Err::<usize, StreamError>(StreamError::WouldBlock)
            &&& after == before
        },
    }
}

/// What an answer that may hold a payload is made of.
pub open spec fn payload_answer(answer: Async<Option<Bytes>>) -> Async<Option<Seq<u8>>> {
    match answer {
        Async::Ready(Some(payload)) => Async::Ready(Some(buffer::content(payload))),
        Async::Ready(None) => Async::Ready(None),
        Async::NotReady => Async::NotReady,
    }
}

impl UdpStream {
    /// The outcome of a poll, for the answer of the channel: a failure is taken for nothing to
    /// read yet.
    pub fn after_polled(answer: Result<Async<Option<Bytes>>, ()>) -> (r: Result<
        Async<Option<Bytes>>,
        StreamError,
    >)
        ensures
            r == Ok::<Async<Option<Bytes>>, StreamError>(
                match answer {
                    Ok(payload) => payload,
                    Err(()) => Async::NotReady,
                },
            ),
    {
        match answer {
            Ok(Async::Ready(Some(payload))) => Ok(Async::Ready(Some(payload))),
            Ok(Async::Ready(None)) => Ok(Async::Ready(None)),
            Ok(Async::NotReady) => Ok(Async::NotReady),
            Err(()) => Ok(Async::NotReady),
        }
    }

    /// The next payload from the peer, or none if the server does not communicate with the peer
    /// any more, and then none ever after. If there is nothing yet, `task` is notified when there
    /// is.
    pub fn poll(&mut self, task: &NotifyHandle) -> (r: Result<Async<Option<Bytes>>, StreamError>)
        ensures
            model::stream_call(old(self)@, final(self)@),
            r is Ok,
            match r->Ok_0 {
                Async::Ready(Some(payload)) => {
                    &&& !old(self)@.has_ended()
                    &&& old(self)@.gives_more()
                    &&& buffer::content(payload) == old(self)@.next_payload()
                    &&& final(self)@ == old(self)@.after_payload()
                },
                Async::Ready(None) => {
                    &&& old(self)@.gave_all()
                    &&& old(self)@.incoming.open ==> old(self)@.payloads_closed_by_server()
                    &&& final(self)@ == old(self)@.after_end()
                },
                Async::NotReady => {
                    &&& !old(self)@.has_ended()
                    &&& final(self)@ == old(self)@.waiting_for_payload(*task)
                },
            },
    {
        let answer = channel::poll_payload(&mut self.incoming_rx, task);
        Self::after_polled(answer)
    }

    /// The outcome of a send, for the answer of the channel. An error means that the receiver is
    /// dropped; i.e. the server does not communicate with the peer any more.
    pub fn after_start_send(answer: Result<AsyncSink<Datagram>, Datagram>) -> (r: Result<
        AsyncSink<Bytes>,
        StreamError,
    >)
        ensures
            match answer {
                Ok(AsyncSink::Ready) => r == Ok::<AsyncSink<Bytes>, StreamError>(AsyncSink::Ready),
                Ok(AsyncSink::NotReady(datagram)) => r == Ok::<AsyncSink<Bytes>, StreamError>(
                    AsyncSink::NotReady(datagram.1),
                ),
                Err(_) => r == Err::<AsyncSink<Bytes>, StreamError>(StreamError::Closed),
            },
    {
        match answer {
            Ok(AsyncSink::Ready) => Ok(AsyncSink::Ready),
            Ok(AsyncSink::NotReady((_peer, payload))) => Ok(AsyncSink::NotReady(payload)),
            Err(_) => Err(StreamError::Closed),
        }
    }

    /// Sends a payload to the peer, or hands it back if the server has no room for it. `task` is
    /// notified when it has.
    pub fn start_send(&mut self, payload: Bytes, task: &NotifyHandle) -> (r: Result<
        AsyncSink<Bytes>,
        StreamError,
    >)
        ensures
            model::stream_call(old(self)@, final(self)@),
            match r {
                Ok(AsyncSink::Ready) => {
                    &&& old(self)@.sends_more()
                    &&& old(self)@.sends(buffer::content(payload))
                    &&& final(self)@ == old(self)@.after_send()
                },
                Ok(AsyncSink::NotReady(back)) => {
                    &&& buffer::content(back) == buffer::content(payload)
                    &&& old(self)@.may_wait()
                    &&& final(self)@ == old(self)@.after_refusal().waiting_for_room(*task)
                },
                Err(e) => {
                    &&& e == StreamError::Closed
                    &&& old(self)@.sent_all()
                    &&& old(self)@.datagrams_closed_by_server()
                    &&& final(self)@ == old(self)@.after_refusal().not_waiting()
                },
            },
    {
        let answer = channel::start_send(&mut self.outgoing_tx, (self.peer, payload), task);
        Self::after_start_send(answer)
    }

    /// Whether the server has room for another payload. If not, `task` is notified when it has.
    pub fn poll_complete(&mut self, task: &NotifyHandle) -> (r: Result<Async<()>, StreamError>)
        ensures
            model::stream_call(old(self)@, final(self)@),
            r is Ok,
            match r->Ok_0 {
                Async::Ready(()) => final(self)@ == old(self)@.not_waiting(),
                Async::NotReady => {
                    &&& old(self)@.may_wait()
                    &&& final(self)@ == old(self)@.waiting_for_room(*task)
                },
            },
    {
        match channel::poll_complete(&mut self.outgoing_tx, task) {
            Ok(ready) => Ok(ready),
            Err(()) => Err(StreamError::Closed),
        }
    }

    /// Copies the payload that a poll gave, if any, to the start of `buf`, and returns its length.
    /// A closed stream reads as a payload of no bytes.
    pub fn after_read(
        polled: Result<Async<Option<Bytes>>, StreamError>,
        buf: &mut [u8],
    ) -> (r: Result<usize, StreamError>)
        ensures
            match polled {
                Ok(payload) => reads(payload_answer(payload), old(buf)@, final(buf)@, r),
                Err(e) => r == Err::<usize, StreamError>(e) && final(buf)@ == old(buf)@,
            },
    {
        match polled {
            Ok(Async::Ready(Some(msg))) => {
                let nbytes: usize = buffer::len(&msg);
                if nbytes > buf.len() {
                    return Err(StreamError::BufferOverrun);
                }
                let payload = buffer::as_slice(&msg);
                let mut i: usize = 0;
                while i < nbytes
                    invariant
                        i <= nbytes,
                        nbytes == payload@.len(),
                        nbytes <= old(buf)@.len(),
                        buf@ == payload@.take(i as int) + old(buf)@.skip(i as int),
                    decreases nbytes - i,
                {
                    buf[i] = payload[i];
                    i += 1;
                    assert(buf@ =~= payload@.take(i as int) + old(buf)@.skip(i as int));
                }
                assert(payload@.take(i as int) == payload@);
                Ok(nbytes)
            },
            Ok(Async::Ready(None)) => Ok(0),
            Ok(Async::NotReady) => Err(StreamError::WouldBlock),
            Err(e) => Err(e),
        }
    }

    /// Reads the next payload from the peer into `buf`. One that does not fit is lost. If there is
    /// nothing to read yet, `task` is notified when there is.
    pub fn read(&mut self, buf: &mut [u8], task: &NotifyHandle) -> (r: Result<usize, StreamError>)
        ensures
            model::stream_call(old(self)@, final(self)@),
            ({
                ||| {
                    &&& !old(self)@.has_ended()
                    &&& old(self)@.gives_more()
                    &&& reads(
                        Async::Ready(Some(old(self)@.next_payload())),
                        old(buf)@,
                        final(buf)@,
                        r,
                    )
                    &&& final(self)@ == old(self)@.after_payload()
                }
                ||| {
                    &&& old(self)@.gave_all()
                    &&& old(self)@.incoming.open ==> old(self)@.payloads_closed_by_server()
                    &&& reads(Async::Ready(None), old(buf)@, final(buf)@, r)
                    &&& final(self)@ == old(self)@.after_end()
                }
                ||| {
                    &&& !old(self)@.has_ended()
                    &&& reads(Async::NotReady, old(buf)@, final(buf)@, r)
                    &&& final(self)@ == old(self)@.waiting_for_payload(*task)
                }
            }),
    {
        let polled = self.poll(task);
        Self::after_read(polled, buf)
    }

    /// The outcome of writing `len` bytes, for the outcome of sending them.
    pub fn after_write(sent: Result<AsyncSink<Bytes>, StreamError>, len: usize) -> (r: Result<
        usize,
        StreamError,
    >)
        ensures
            r == match sent {
                Ok(AsyncSink::Ready) => Ok::<usize, StreamError>(len),
                Ok(AsyncSink::NotReady(_)) => Err(StreamError::WouldBlock),
                Err(e) => Err(e),
            },
    {
        match sent {
            Ok(AsyncSink::Ready) => Ok(len),
            Ok(AsyncSink::NotReady(_)) => Err(StreamError::WouldBlock),
            Err(e) => Err(e),
        }
    }

    /// Sends the bytes of `buf` to the peer, as one payload.
    pub fn write(&mut self, buf: &[u8], task: &NotifyHandle) -> (r: Result<usize, StreamError>)
        ensures
            model::stream_call(old(self)@, final(self)@),
            match r {
                Ok(nbytes) => {
                    &&& nbytes == buf@.len()
                    &&& old(self)@.sends_more()
                    &&& old(self)@.sends(buf@)
                    &&& final(self)@ == old(self)@.after_send()
                },
                Err(StreamError::WouldBlock) => {
                    &&& old(self)@.may_wait()
                    &&& final(self)@ == old(self)@.after_refusal().waiting_for_room(*task)
                },
                Err(e) => {
                    &&& e == StreamError::Closed
                    &&& old(self)@.sent_all()
                    &&& old(self)@.datagrams_closed_by_server()
                    &&& final(self)@ == old(self)@.after_refusal().not_waiting()
                },
            },
    {
        let sent = self.start_send(buffer::copy_of(buf), task);
        Self::after_write(sent, buf.len())
    }

    /// Nothing is held back, so there is nothing to flush.
    pub fn flush(&mut self) -> (r: Result<(), StreamError>)
        ensures
            r is Ok,
            *final(self) == *old(self),
    {
        Ok(())
    }

    /// There is nothing to shut down.
    pub fn shutdown(&mut self) -> (r: Result<Async<()>, StreamError>)
        ensures
            r == Ok::<Async<()>, StreamError>(Async::Ready(())),
            *final(self) == *old(self),
    {
        Ok(Async::Ready(()))
    }
}

/// A newtype which wraps a UDP socket that is connected to a peer, to be read from and written to.
pub struct UdpAsyncSocket<S>(pub S);

/// The wildcard address of the family of `address`, with a port of the system's choice.
pub open spec fn any_address(address: SocketAddr) -> SocketAddr {
    match address {
        SocketAddr::V4(_) => SocketAddr::V4(SocketAddrV4 { ip: 0, port: 0 }),
        SocketAddr::V6(_) => SocketAddr::V6(
            SocketAddrV6 { ip: 0, port: 0, flowinfo: 0, scope_id: 0 },
        ),
    }
}

/// What the socket is to be bound to before it is connected to `address`.
pub fn bind_address(address: &SocketAddr) -> (r: SocketAddr)
    ensures
        r == any_address(*address),
{
    match address {
        SocketAddr::V4(_) => SocketAddr::V4(SocketAddrV4 { ip: 0, port: 0 }),
        SocketAddr::V6(_) => SocketAddr::V6(
            SocketAddrV6 { ip: 0, port: 0, flowinfo: 0, scope_id: 0 },
        ),
    }
}

impl<S> UdpAsyncSocket<S> {
    /// Wraps `socket`, which is connected.
    pub fn connect(socket: S) -> (r: UdpAsyncSocket<S>)
        ensures
            r.0 == socket,
    {
        UdpAsyncSocket(socket)
    }

    /// The outcome of a read, for the socket's answer to a receive.
    pub fn read<E>(&self, answer: Result<Async<usize>, E>) -> (r: Result<usize, SocketError<E>>)
        ensures
            r == match answer {
                Ok(Async::Ready(nbytes)) => Ok::<usize, SocketError<E>>(nbytes),
                Ok(Async::NotReady) => Err(SocketError::WouldBlock),
                Err(e) => Err(SocketError::Io(e)),
            },
    {
        match answer {
            Ok(Async::Ready(nbytes)) => Ok(nbytes),
            Ok(Async::NotReady) => Err(SocketError::WouldBlock),
            Err(e) => Err(SocketError::Io(e)),
        }
    }

    /// The outcome of a write, for the socket's answer to a send.
    pub fn write<E>(&self, answer: Result<Async<usize>, E>) -> (r: Result<usize, SocketError<E>>)
        ensures
            r == match answer {
                Ok(Async::Ready(nbytes)) => Ok::<usize, SocketError<E>>(nbytes),
                Ok(Async::NotReady) => Err(SocketError::WouldBlock),
                Err(e) => Err(SocketError::Io(e)),
            },
    {
        match answer {
            Ok(Async::Ready(nbytes)) => Ok(nbytes),
            Ok(Async::NotReady) => Err(SocketError::WouldBlock),
            Err(e) => Err(SocketError::Io(e)),
        }
    }
}

} // verus!
