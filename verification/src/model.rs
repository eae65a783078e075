//! How a `UdpServer` and its streams behave, as a state machine, and what follows from that.
use futures::executor::NotifyHandle;
use vstd::prelude::*;

use crate::channel;
use crate::channel::{
    ChannelEnd, DatagramModel, PollState, ReceiverModel, SenderModel, TrySendError,
};
use crate::net::SocketAddr;
use crate::poll::Async;
use crate::udp;

verus! {

/// The state of a child.
pub struct ChildModel {
    pub peer: SocketAddr,
    /// Where the peer's payloads go.
    pub incoming: SenderModel,
    /// Where the datagrams for the peer come from.
    pub outgoing: ReceiverModel,
    /// What the last look for a datagram for the peer left behind.
    pub polled: PollState,
    /// The datagram that the socket did not take yet.
    pub pending: Option<DatagramModel>,
}

/// The state of a stream.
pub struct StreamModel {
    pub peer: SocketAddr,
    /// Where the peer's payloads come from.
    pub incoming: ReceiverModel,
    /// What the last look for a payload left behind.
    pub polled: PollState,
    /// Where the datagrams for the peer go.
    pub outgoing: SenderModel,
    /// The handle of the task that waits for room for another datagram, as the last call that
    /// needed room told it.
    pub waiting: Option<NotifyHandle>,
}

impl StreamModel {
    /// The payload that comes next.
    pub open spec fn next_payload(self) -> Seq<u8> {
        channel::payload_at(self.incoming.channel, self.incoming.received)
    }

    /// The stream after the next payload.
    pub open spec fn after_payload(self) -> StreamModel {
        StreamModel {
            incoming: channel::received_one(self.incoming),
            polled: PollState::Open,
            ..self
        }
    }

    /// The stream once `task` waits for the next payload.
    pub open spec fn waiting_for_payload(self, task: NotifyHandle) -> StreamModel {
        StreamModel { polled: PollState::Waiting(task), ..self }
    }

    /// The stream once it has given its end.
    pub open spec fn after_end(self) -> StreamModel {
        StreamModel { polled: PollState::Ended, ..self }
    }

    /// Whether the stream has given its end, so that no payload follows.
    pub open spec fn has_ended(self) -> bool {
        self.polled is Ended
    }

    /// Whether the stream has given all payloads that the server ever hands to it.
    pub open spec fn gave_all(self) -> bool {
        self.incoming.received == channel::payload_total(self.incoming.channel)
    }

    /// Whether the server closes the channel that the payloads come from.
    pub open spec fn payloads_closed_by_server(self) -> bool {
        channel::payload_closed_by(self.incoming.channel) == ChannelEnd::Sender
    }

    /// Whether the server closes the channel that the datagrams go to.
    pub open spec fn datagrams_closed_by_server(self) -> bool {
        channel::datagram_closed_by(self.outgoing.channel) == ChannelEnd::Receiver
    }

    /// Whether the server hands more payloads to the stream than it has given yet.
    pub open spec fn gives_more(self) -> bool {
        self.incoming.received < channel::payload_total(self.incoming.channel)
    }

    /// Whether the stream has sent all datagrams that the server ever takes from it.
    pub open spec fn sent_all(self) -> bool {
        self.outgoing.sent == channel::datagram_total(self.outgoing.channel)
    }

    /// Whether the server takes more datagrams from the stream than it has sent yet.
    pub open spec fn sends_more(self) -> bool {
        self.outgoing.sent < channel::datagram_total(self.outgoing.channel)
    }

    /// Whether `payload` goes next to the peer.
    pub open spec fn sends(self, payload: Seq<u8>) -> bool {
        channel::datagram_at(self.outgoing.channel, self.outgoing.sent) == (self.peer, payload)
    }

    /// The stream after one more datagram to the peer.
    pub open spec fn after_send(self) -> StreamModel {
        StreamModel { outgoing: channel::sent_one(self.outgoing), waiting: None, ..self }
    }

    /// The stream after one more datagram that was handed back.
    pub open spec fn after_refusal(self) -> StreamModel {
        StreamModel { outgoing: channel::refused_one(self.outgoing), ..self }
    }

    /// The stream once `task` waits for room for another datagram.
    pub open spec fn waiting_for_room(self, task: NotifyHandle) -> StreamModel {
        StreamModel { waiting: Some(task), ..self }
    }

    /// The stream once nobody waits for room any more.
    pub open spec fn not_waiting(self) -> StreamModel {
        StreamModel { waiting: None, ..self }
    }

    /// Whether more was sent than the server can buffer, so that sending may have to wait.
    pub open spec fn may_wait(self) -> bool {
        self.outgoing.sent > self.outgoing.limit
    }
}

/// Whether a call of a stream can lead from one state of it to another: it sends a datagram or
/// gives a payload, or comes to its end, or hands a datagram back, or lets a task wait, or does
/// nothing.
pub open spec fn stream_call(before: StreamModel, after: StreamModel) -> bool {
    ||| after == before
    ||| before.sends_more() && after == before.after_send() && exists|payload: Seq<u8>| #[trigger]
        before.sends(payload)
    ||| before.gives_more() && after == before.after_payload()
    ||| before.gave_all() && after == before.after_end()
    ||| exists|task: NotifyHandle| after == #[trigger] before.waiting_for_payload(task)
    ||| exists|task: NotifyHandle| after == #[trigger] before.waiting_for_room(task)
    ||| exists|task: NotifyHandle|
        after == #[trigger] before.after_refusal().waiting_for_room(task)
    ||| after == before.not_waiting()
    ||| before.sent_all() && after == before.after_refusal().not_waiting()
}

/// The child that a new `stream` communicates with: they share two new channels.
pub open spec fn child_of(stream: StreamModel) -> ChildModel {
    ChildModel {
        peer: stream.peer,
        incoming: SenderModel {
            channel: stream.incoming.channel,
            limit: udp::UDP_STREAM_BUFFER_DATAGRAMS as nat,
            sent: 0,
            refused: 0,
        },
        outgoing: ReceiverModel { channel: stream.outgoing.channel, received: 0, open: true },
        polled: PollState::Open,
        pending: None,
    }
}

/// Whether `stream` is a new stream for `peer`.
pub open spec fn is_new_stream(stream: StreamModel, peer: SocketAddr) -> bool {
    &&& stream.peer == peer
    &&& stream.incoming.received == 0
    &&& stream.incoming.open
    &&& stream.polled == PollState::Open
    &&& stream.outgoing.limit == udp::UDP_STREAM_BUFFER_DATAGRAMS
    &&& stream.outgoing.sent == 0
    &&& stream.outgoing.refused == 0
    &&& stream.waiting is None
}

/// The state of a server.
pub struct ServerModel {
    pub children: Seq<ChildModel>,
    /// The incoming datagram that waits until its child has room for it.
    pub parked: Option<DatagramModel>,
}

/// What a step is made of.
pub enum StepModel<E> {
    SendTo { index: int, datagram: DatagramModel },
    Dequeue { index: int },
    RecvFrom,
    Dispatch { datagram: DatagramModel },
    Done(Result<Async<Option<StreamModel>>, E>),
}

/// Whether the server itself takes the step, through a channel, rather than the socket or the
/// caller.
pub open spec fn is_channel_step<E>(step: StepModel<E>) -> bool {
    step is Dequeue || step is Dispatch
}

impl ServerModel {
    /// The same with the child at `index` replaced.
    pub open spec fn with_child(self, index: int, child: ChildModel) -> ServerModel {
        ServerModel { children: self.children.update(index, child), ..self }
    }

    /// The same with `pending` pending for the child at `index`.
    pub open spec fn with_pending(self, index: int, pending: Option<DatagramModel>) -> ServerModel {
        self.with_child(index, ChildModel { pending, ..self.children[index] })
    }

    /// The same without the child of `peer`.
    pub open spec fn without_peer(self, peer: SocketAddr) -> ServerModel {
        ServerModel { children: self.children.filter(|c: ChildModel| c.peer != peer), ..self }
    }

    /// Whether there is a child of `peer`.
    pub open spec fn knows(self, peer: SocketAddr) -> bool {
        exists|i: int| 0 <= i < self.children.len() && #[trigger] self.children[i].peer == peer
    }

    /// The index of the child of `peer`.
    pub open spec fn index_of(self, peer: SocketAddr) -> int {
        choose|i: int| 0 <= i < self.children.len() && #[trigger] self.children[i].peer == peer
    }

    /// Whether each peer has one child, which has not closed its stream's channel, and what is
    /// pending for a child is the last datagram that was taken from it.
    pub open spec fn valid(self) -> bool {
        &&& forall|i: int, j: int|
            0 <= i < j < self.children.len() ==> (#[trigger] self.children[i]).peer != (
            #[trigger] self.children[j]).peer
        &&& forall|i: int|
            0 <= i < self.children.len() ==> (#[trigger] self.children[i]).outgoing.open
        &&& forall|i: int|
            0 <= i < self.children.len() && (#[trigger] self.children[i]).pending is Some
                ==> is_last_taken(self.children[i], self.children[i].pending->0)
    }

    /// Whether `datagram`, the last one taken from the child at `index`, is with the socket.
    pub open spec fn offers(self, index: int, datagram: DatagramModel) -> bool {
        &&& 0 <= index < self.children.len()
        &&& self.children[index].pending is None
        &&& is_last_taken(self.children[index], datagram)
    }
}

/// Whether `datagram` is the last one that was taken from `child`.
pub open spec fn is_last_taken(child: ChildModel, datagram: DatagramModel) -> bool {
    &&& child.outgoing.received > 0
    &&& datagram == channel::datagram_at(
        child.outgoing.channel,
        (child.outgoing.received - 1) as nat,
    )
}

/// Whether the state is valid and the step is one that can be taken in it: the datagram that is
/// with the socket is not pending too, and nothing is parked when a datagram is dispatched or
/// received.
pub open spec fn consistent<E>(m: ServerModel, step: StepModel<E>) -> bool {
    &&& m.valid()
    &&& match step {
        StepModel::SendTo { index, datagram } => m.offers(index, datagram),
        StepModel::Dequeue { index } => {
            &&& 0 <= index < m.children.len()
            &&& m.children[index].pending is None
        },
        StepModel::RecvFrom => m.parked is None,
        StepModel::Dispatch { .. } => m.parked is None,
        StepModel::Done(_) => true,
    }
}

/// How many more steps the server can take through channels, at most.
pub open spec fn steps_left<E>(m: ServerModel, step: StepModel<E>) -> int {
    match step {
        StepModel::Dequeue { index } => m.children.len() - index + 2,
        StepModel::Dispatch { .. } => 1,
        _ => 0,
    }
}

/// Incoming datagrams: a parked one is dispatched before another one is received.
pub open spec fn begin_incoming<E>(m: ServerModel) -> (ServerModel, StepModel<E>) {
    match m.parked {
        Some(datagram) => (
            ServerModel { parked: None, ..m },
            StepModel::Dispatch { datagram },
        ),
        None => (m, StepModel::RecvFrom),
    }
}

/// Outgoing datagrams, from the child at `index` on: a pending one is sent before another one is
/// taken. Incoming datagrams follow after the last child.
pub open spec fn begin_outgoing<E>(m: ServerModel, index: int) -> (ServerModel, StepModel<E>) {
    if index < m.children.len() {
        match m.children[index].pending {
            Some(datagram) => (
                m.with_pending(index, None),
                StepModel::SendTo { index, datagram },
            ),
            None => (m, StepModel::Dequeue { index }),
        }
    } else {
        begin_incoming(m)
    }
}

/// After the socket's answer to a datagram of the child at `index`: if it was not taken, it is
/// pending, and no more is sent for now. If it was sent, or could not be sent at all, the next one
/// of the same child follows.
pub open spec fn after_sent<E>(
    m: ServerModel,
    index: int,
    datagram: DatagramModel,
    answer: Result<Async<usize>, E>,
) -> (ServerModel, StepModel<E>) {
    match answer {
        Ok(Async::NotReady) => begin_incoming(m.with_pending(index, Some(datagram))),
        _ => (m, StepModel::Dequeue { index }),
    }
}

/// After the answer of the child at `index`: a datagram goes to the socket. The next child follows
/// if there is none, and if there never will be one, because the stream is closed, the child is
/// removed. If the channel fails, no more is sent for now.
pub open spec fn after_dequeued<E>(
    m: ServerModel,
    index: int,
    answer: Result<Async<Option<DatagramModel>>, ()>,
) -> (ServerModel, StepModel<E>) {
    match answer {
        Ok(Async::Ready(Some(datagram))) => (m, StepModel::SendTo { index, datagram }),
        Ok(Async::Ready(None)) => begin_outgoing(
            ServerModel { children: m.children.remove(index), ..m },
            index,
        ),
        Ok(Async::NotReady) => begin_outgoing(m, index + 1),
        Err(()) => begin_incoming(m),
    }
}

/// After the socket's answer to a receive into `buffer`: a datagram, which is the first bytes of
/// the buffer, is dispatched. Otherwise the poll is over.
pub open spec fn after_received<E>(
    m: ServerModel,
    buffer: Seq<u8>,
    answer: Result<Async<(usize, SocketAddr)>, E>,
) -> (ServerModel, StepModel<E>) {
    match answer {
        Ok(Async::Ready((nbytes, address))) => (
            m,
            StepModel::Dispatch { datagram: (address, buffer.take(nbytes as int)) },
        ),
        Ok(Async::NotReady) => (m, StepModel::Done(Ok(Async::NotReady))),
        Err(e) => (m, StepModel::Done(Err(e))),
    }
}

/// After the answer of the child of `address`, which was created with `new_stream` if there is
/// one: a new stream is yielded. A payload for which there is no room is parked, and no other
/// datagram is processed until it is dispatched. A child whose stream is closed is removed.
pub open spec fn after_dispatched<E>(
    m: ServerModel,
    address: SocketAddr,
    new_stream: Option<StreamModel>,
    answer: Result<(), TrySendError<Seq<u8>>>,
) -> (ServerModel, StepModel<E>) {
    match answer {
        Ok(()) => match new_stream {
            Some(stream) => (m, StepModel::Done(Ok(Async::Ready(Some(stream))))),
            None => begin_incoming(m),
        },
        Err(TrySendError::Full(payload)) => (
            ServerModel { parked: Some((address, payload)), ..m },
            StepModel::Done(Ok(Async::NotReady)),
        ),
        Err(TrySendError::Disconnected(_)) => begin_incoming(m.without_peer(address)),
    }
}

proof fn filter_all(children: Seq<ChildModel>, peer: SocketAddr)
    requires
        forall|i: int| 0 <= i < children.len() ==> #[trigger] children[i].peer != peer,
    ensures
        children.filter(|c: ChildModel| c.peer != peer) == children,
    decreases children.len(),
{
    reveal(Seq::filter);
    if children.len() > 0 {
        filter_all(children.drop_last(), peer);
        assert(children.last().peer != peer);
        assert(children =~= children.drop_last().push(children.last()));
    }
}

proof fn filter_all_but_one(children: Seq<ChildModel>, peer: SocketAddr, index: int)
    requires
        0 <= index < children.len(),
        forall|i: int|
            0 <= i < children.len() ==> (#[trigger] children[i].peer != peer <==> i != index),
    ensures
        children.filter(|c: ChildModel| c.peer != peer) == children.remove(index),
    decreases children.len(),
{
    reveal(Seq::filter);
    let rest = children.drop_last();
    if index == rest.len() {
        filter_all(rest, peer);
        assert(children[index].peer == peer);
        assert(children.remove(index) =~= rest);
    } else {
        filter_all_but_one(rest, peer, index);
        assert(children.last().peer != peer);
        assert(children.remove(index) =~= rest.remove(index).push(children.last()));
    }
}

/// To be without a peer is to be without the one child that it has.
pub proof fn without_peer_is_removal(m: ServerModel, peer: SocketAddr, index: int)
    requires
        m.valid(),
        0 <= index < m.children.len(),
        m.children[index].peer == peer,
    ensures
        m.without_peer(peer).children == m.children.remove(index),
{
    filter_all_but_one(m.children, peer, index);
}

/// Without a peer that is not known, nothing is missing.
pub proof fn without_unknown_peer(m: ServerModel, peer: SocketAddr)
    requires
        !m.knows(peer),
    ensures
        m.without_peer(peer) == m,
{
    filter_all(m.children, peer);
}

/// What the channels answer to a step of the server.
pub enum Outcome {
    /// The answer of a child that was asked for a datagram.
    Dequeued(Result<Async<Option<DatagramModel>>, ()>),
    /// The stream that was created, if the peer was not known, and the answer of its child.
    Dispatched { new_stream: Option<StreamModel>, answer: Result<(), TrySendError<Seq<u8>>> },
}

/// Whether `child` can give `answer`: its datagrams come in the order of its channel, and it comes
/// to its end only when all of them were taken and the stream has closed the channel, and then for
/// good.
pub open spec fn can_dequeue(
    child: ChildModel,
    answer: Result<Async<Option<DatagramModel>>, ()>,
) -> bool {
    match answer {
        Ok(Async::Ready(Some(datagram))) => {
            &&& !(child.polled is Ended)
            &&& child.outgoing.received < channel::datagram_total(child.outgoing.channel)
            &&& datagram == channel::datagram_at(child.outgoing.channel, child.outgoing.received)
        },
        Ok(Async::Ready(None)) => {
            &&& child.outgoing.received == channel::datagram_total(child.outgoing.channel)
            &&& child.outgoing.open ==> channel::datagram_closed_by(child.outgoing.channel)
                == ChannelEnd::Sender
        },
        Ok(Async::NotReady) => !(child.polled is Ended),
        Err(()) => false,
    }
}

/// The server once the child at `index` has given `answer`. If that is nothing yet, `task` waits
/// for it.
pub open spec fn dequeued(
    m: ServerModel,
    index: int,
    answer: Result<Async<Option<DatagramModel>>, ()>,
    task: NotifyHandle,
) -> ServerModel {
    let child = m.children[index];
    match answer {
        Ok(Async::Ready(Some(_))) => m.with_child(
            index,
            ChildModel {
                outgoing: channel::received_one(child.outgoing),
                polled: PollState::Open,
                ..child
            },
        ),
        Ok(Async::Ready(None)) => m.with_child(
            index,
            ChildModel { polled: PollState::Ended, ..child },
        ),
        Ok(Async::NotReady) => m.with_child(
            index,
            ChildModel { polled: PollState::Waiting(task), ..child },
        ),
        Err(()) => m,
    }
}

/// Whether `new_stream` is what looking for the child of `peer` creates: nothing for a peer that
/// is known, and a new stream for one that is not.
pub open spec fn can_create(
    m: ServerModel,
    peer: SocketAddr,
    new_stream: Option<StreamModel>,
) -> bool {
    match new_stream {
        Some(stream) => !m.knows(peer) && is_new_stream(stream, peer),
        None => m.knows(peer),
    }
}

/// The server once `new_stream` was created, if there is one.
pub open spec fn created(m: ServerModel, new_stream: Option<StreamModel>) -> ServerModel {
    match new_stream {
        Some(stream) => ServerModel { children: m.children.push(child_of(stream)), ..m },
        None => m,
    }
}

/// Whether a channel can give `answer` to `payload`: if it takes the payload, that comes next in
/// the channel. If it does not, it hands the payload back, for want of room only if it was sent
/// more than it can buffer, and otherwise because the stream is closed, so that it takes none any
/// more. The `new_stream` is not closed.
pub open spec fn can_enqueue(
    tx: SenderModel,
    payload: Seq<u8>,
    new_stream: Option<StreamModel>,
    answer: Result<(), TrySendError<Seq<u8>>>,
) -> bool {
    match answer {
        Ok(()) => {
            &&& tx.sent < channel::payload_total(tx.channel)
            &&& payload == channel::payload_at(tx.channel, tx.sent)
        },
        Err(TrySendError::Full(back)) => back == payload && tx.sent > tx.limit,
        Err(TrySendError::Disconnected(back)) => {
            &&& back == payload
            &&& new_stream is None
            &&& tx.sent == channel::payload_total(tx.channel)
            &&& channel::payload_closed_by(tx.channel) == ChannelEnd::Receiver
        },
    }
}

/// The server once the child at `index` has given `answer` to a payload.
pub open spec fn enqueued(
    m: ServerModel,
    index: int,
    answer: Result<(), TrySendError<Seq<u8>>>,
) -> ServerModel {
    match answer {
        Ok(()) => m.with_child(
            index,
            ChildModel {
                incoming: channel::sent_one(m.children[index].incoming),
                ..m.children[index]
            },
        ),
        Err(_) => m.with_child(
            index,
            ChildModel {
                incoming: channel::refused_one(m.children[index].incoming),
                ..m.children[index]
            },
        ),
    }
}

/// The state and the step after a step, on behalf of `task`, that a channel answers with `outcome`,
/// if it can.
pub open spec fn channel_step<E>(
    m: ServerModel,
    step: StepModel<E>,
    outcome: Outcome,
    task: NotifyHandle,
) -> Option<(ServerModel, StepModel<E>)> {
    match (step, outcome) {
        (StepModel::Dequeue { index }, Outcome::Dequeued(answer)) => {
            if can_dequeue(m.children[index], answer) {
                Some(after_dequeued(dequeued(m, index, answer, task), index, answer))
            } else {
                None
            }
        },
        (StepModel::Dispatch { datagram }, Outcome::Dispatched { new_stream, answer }) => {
            let m1 = created(m, new_stream);
            let index = m1.index_of(datagram.0);
            if can_create(m, datagram.0, new_stream) && can_enqueue(
                m1.children[index].incoming,
                datagram.1,
                new_stream,
                answer,
            ) {
                Some(after_dispatched(enqueued(m1, index, answer), datagram.0, new_stream, answer))
            } else {
                None
            }
        },
        _ => None,
    }
}

/// Looking for a child keeps the state valid, and finds or makes the child of the peer.
pub proof fn created_is_valid(m: ServerModel, peer: SocketAddr, new_stream: Option<StreamModel>)
    requires
        m.valid(),
        can_create(m, peer, new_stream),
    ensures
        created(m, new_stream).valid(),
        ({
            let index = created(m, new_stream).index_of(peer);
            &&& 0 <= index < created(m, new_stream).children.len()
            &&& created(m, new_stream).children[index].peer == peer
            &&& new_stream is Some ==> index == m.children.len()
        }),
{
    let m1 = created(m, new_stream);
    if let Some(stream) = new_stream {
        assert(m1.children[m.children.len() as int].peer == peer);
        assert(m1.knows(peer));
        assert forall|i: int, j: int| 0 <= i < j < m1.children.len() implies (
        #[trigger] m1.children[i]).peer != (#[trigger] m1.children[j]).peer by {
            assert(m.children[i].peer != peer);
        }
        let index = m1.index_of(peer);
        if index < m.children.len() {
            assert(m.children[index].peer != peer);
        }
    }
}

/// Offering a payload to a child keeps the state valid.
pub proof fn enqueued_is_valid(
    m: ServerModel,
    index: int,
    answer: Result<(), TrySendError<Seq<u8>>>,
)
    requires
        m.valid(),
        0 <= index < m.children.len(),
    ensures
        enqueued(m, index, answer).valid(),
{
}

/// Turning to outgoing datagrams is consistent.
pub proof fn begin_outgoing_is_consistent<E>(m: ServerModel, index: int)
    requires
        m.valid(),
        0 <= index,
    ensures
        consistent(begin_outgoing::<E>(m, index).0, begin_outgoing::<E>(m, index).1),
{
}

/// Going on with the socket's answer to a datagram is consistent.
pub proof fn after_sent_is_consistent<E>(
    m: ServerModel,
    index: int,
    datagram: DatagramModel,
    answer: Result<Async<usize>, E>,
)
    requires
        m.valid(),
        m.offers(index, datagram),
    ensures
        consistent(
            after_sent(m, index, datagram, answer).0,
            after_sent(m, index, datagram, answer).1,
        ),
{
}

/// Dispatching a datagram, case by case: the child of its peer, at `index`, takes the payload, or
/// stays as it is, or is removed.
pub proof fn dispatch_cases<E>(
    m: ServerModel,
    datagram: DatagramModel,
    new_stream: Option<StreamModel>,
    answer: Result<(), TrySendError<Seq<u8>>>,
    task: NotifyHandle,
)
    requires
        consistent(m, StepModel::<E>::Dispatch { datagram }),
        channel_step(
            m,
            StepModel::<E>::Dispatch { datagram },
            Outcome::Dispatched { new_stream, answer },
            task,
        ) is Some,
    ensures
        ({
            let m1 = created(m, new_stream);
            let index = m1.index_of(datagram.0);
            let (m2, step2) = channel_step(
                m,
                StepModel::<E>::Dispatch { datagram },
                Outcome::Dispatched { new_stream, answer },
                task,
            )->0;
            &&& m1.valid()
            &&& 0 <= index < m1.children.len()
            &&& m1.children[index].peer == datagram.0
            &&& new_stream is Some ==> index == m.children.len()
            &&& match answer {
                Ok(()) => {
                    &&& m2 == enqueued(m1, index, answer)
                    &&& step2 == match new_stream {
                        Some(stream) => StepModel::Done(Ok(Async::Ready(Some(stream)))),
                        None => StepModel::<E>::RecvFrom,
                    }
                },
                Err(TrySendError::Full(_)) => {
                    &&& m2 == ServerModel { parked: Some(datagram), ..enqueued(m1, index, answer) }
                    &&& step2 == StepModel::<E>::Done(Ok(Async::NotReady))
                },
                Err(TrySendError::Disconnected(_)) => {
                    &&& m2 == ServerModel { children: m1.children.remove(index), ..m1 }
                    &&& step2 == StepModel::<E>::RecvFrom
                },
            }
        }),
{
    created_is_valid(m, datagram.0, new_stream);
    let m1 = created(m, new_stream);
    let index = m1.index_of(datagram.0);
    if answer matches Err(TrySendError::Disconnected(_)) {
        enqueued_is_valid(m1, index, answer);
        without_peer_is_removal(enqueued(m1, index, answer), datagram.0, index);
        assert(enqueued(m1, index, answer).children.remove(index) =~= m1.children.remove(index));
    }
}

/// A step through a channel is consistent, and brings the server closer to the socket or to the
/// caller.
pub proof fn channel_step_is_consistent<E>(
    m: ServerModel,
    step: StepModel<E>,
    outcome: Outcome,
    task: NotifyHandle,
)
    requires
        consistent(m, step),
        channel_step(m, step, outcome, task) is Some,
    ensures
        ({
            let (m2, step2) = channel_step(m, step, outcome, task)->0;
            &&& consistent(m2, step2)
            &&& steps_left(m2, step2) < steps_left(m, step)
        }),
{
    match (step, outcome) {
        (StepModel::Dequeue { index }, Outcome::Dequeued(answer)) => {
            let m1 = dequeued(m, index, answer, task);
            assert(m1.valid());
        },
        (StepModel::Dispatch { datagram }, Outcome::Dispatched { new_stream, answer }) => {
            created_is_valid(m, datagram.0, new_stream);
            let m1 = created(m, new_stream);
            let index = m1.index_of(datagram.0);
            let m2 = enqueued(m1, index, answer);
            enqueued_is_valid(m1, index, answer);
            assert(m2.children[index].peer == datagram.0);
            without_peer_is_removal(m2, datagram.0, index);
        },
        _ => {},
    }
}

/// The state and the step after steps, on behalf of `task`, that channels answer with `outcomes`,
/// if they can.
pub open spec fn channel_steps<E>(
    from: (ServerModel, StepModel<E>),
    outcomes: Seq<Outcome>,
    task: NotifyHandle,
) -> Option<(ServerModel, StepModel<E>)>
    decreases outcomes.len(),
{
    if outcomes.len() == 0 {
        Some(from)
    } else {
        match channel_steps(from, outcomes.drop_last(), task) {
            Some((m, step)) => channel_step(m, step, outcomes.last(), task),
            None => None,
        }
    }
}

/// Whether the server gets from one state and step to another, with which it turns to the socket
/// or to the caller, by nothing but steps through channels, on behalf of `task`.
pub open spec fn settles<E>(
    from: (ServerModel, StepModel<E>),
    to: (ServerModel, StepModel<E>),
    task: NotifyHandle,
) -> bool {
    &&& !is_channel_step(to.1)
    &&& exists|outcomes: Seq<Outcome>| #[trigger] channel_steps(from, outcomes, task) == Some(to)
}

} // verus!
