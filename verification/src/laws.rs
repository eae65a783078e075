//! What follows from the behaviour of a `UdpServer` and its streams.
use futures::executor::NotifyHandle;
use vstd::prelude::*;

use crate::channel;
use crate::channel::{ChannelEnd, DatagramModel, ReceiverModel, SenderModel, TrySendError};
use crate::model::{
    after_dequeued, after_dispatched, after_received, after_sent, begin_outgoing, channel_step,
    channel_step_is_consistent, channel_steps, consistent, created, dispatch_cases,
    enqueued_is_valid, is_channel_step, is_new_stream, settles, without_peer_is_removal,
    without_unknown_peer, ChildModel, Outcome, ServerModel, StepModel, StreamModel,
};
use crate::net::SocketAddr;
use crate::poll::Async;

verus! {

/// Whether the child of the datagram's peer has its payload, as the last one.
pub open spec fn delivered(m: ServerModel, datagram: DatagramModel) -> bool {
    exists|i: int|
        0 <= i < m.children.len() && (#[trigger] m.children[i]).peer == datagram.0
            && m.children[i].incoming.sent > 0 && channel::payload_at(
            m.children[i].incoming.channel,
            (m.children[i].incoming.sent - 1) as nat,
        ) == datagram.1
}

/// Whether the poll is over, with the datagram parked.
pub open spec fn parked<E>(m: ServerModel, step: StepModel<E>, datagram: DatagramModel) -> bool {
    &&& m.parked == Some(datagram)
    &&& step == StepModel::<E>::Done(Ok(Async::NotReady))
}

/// Whether the stream that `child` communicates with has closed the channel of its payloads, and
/// all that it ever gets were handed to it.
pub open spec fn takes_no_payload(child: ChildModel) -> bool {
    &&& child.incoming.sent == channel::payload_total(child.incoming.channel)
    &&& channel::payload_closed_by(child.incoming.channel) == ChannelEnd::Receiver
}

/// Whether the stream of `peer` is closed to payloads.
pub open spec fn closed_to(m: ServerModel, peer: SocketAddr) -> bool {
    exists|i: int|
        0 <= i < m.children.len() && (#[trigger] m.children[i]).peer == peer && takes_no_payload(
            m.children[i],
        )
}

/// Whether a datagram that was to be dispatched in the state `before` is not lost: it is
/// delivered, or parked, or the stream of its peer is closed to it and the peer is not known any
/// more.
pub open spec fn kept<E>(
    before: ServerModel,
    m: ServerModel,
    step: StepModel<E>,
    datagram: DatagramModel,
) -> bool {
    ||| delivered(m, datagram)
    ||| parked(m, step, datagram)
    ||| closed_to(before, datagram.0) && !m.knows(datagram.0)
}

proof fn dispatch_keeps<E>(
    m: ServerModel,
    datagram: DatagramModel,
    outcome: Outcome,
    task: NotifyHandle,
)
    requires
        consistent(m, StepModel::<E>::Dispatch { datagram }),
        channel_step(m, StepModel::<E>::Dispatch { datagram }, outcome, task) is Some,
    ensures
        ({
            let step = StepModel::<E>::Dispatch { datagram };
            let (m2, step2) = channel_step(m, step, outcome, task)->0;
            kept(m, m2, step2, datagram) && !is_channel_step(step2)
        }),
{
    let (m2, step2) = channel_step(m, StepModel::<E>::Dispatch { datagram }, outcome, task)->0;
    if let Outcome::Dispatched { new_stream, answer } = outcome {
        dispatch_cases::<E>(m, datagram, new_stream, answer, task);
        let m1 = created(m, new_stream);
        let index = m1.index_of(datagram.0);
        if answer is Ok {
            assert(m2.children[index].peer == datagram.0);
        }
    }
}

proof fn dispatch_is_one_step<E>(
    m: ServerModel,
    datagram: DatagramModel,
    outcomes: Seq<Outcome>,
    task: NotifyHandle,
)
    requires
        consistent(m, StepModel::<E>::Dispatch { datagram }),
        channel_steps((m, StepModel::<E>::Dispatch { datagram }), outcomes, task) is Some,
    ensures
        outcomes.len() <= 1,
        outcomes.len() == 1 ==> channel_steps(
            (m, StepModel::<E>::Dispatch { datagram }),
            outcomes,
            task,
        ) == channel_step(m, StepModel::<E>::Dispatch { datagram }, outcomes[0], task),
    decreases outcomes.len(),
{
    let from = (m, StepModel::<E>::Dispatch { datagram });
    if outcomes.len() > 0 {
        let before = outcomes.drop_last();
        dispatch_is_one_step::<E>(m, datagram, before, task);
        if before.len() == 1 {
            dispatch_keeps::<E>(m, datagram, before[0], task);
        } else {
            assert(channel_steps(from, before, task) == Some(from));
        }
    }
}

/// The outcome of the one step by which a dispatch is settled.
pub proof fn dispatch_outcome<E>(
    m: ServerModel,
    datagram: DatagramModel,
    to: (ServerModel, StepModel<E>),
    task: NotifyHandle,
) -> (outcome: Outcome)
    requires
        consistent(m, StepModel::<E>::Dispatch { datagram }),
        settles((m, StepModel::Dispatch { datagram }), to, task),
    ensures
        channel_step(m, StepModel::<E>::Dispatch { datagram }, outcome, task) == Some(to),
{
    let from = (m, StepModel::<E>::Dispatch { datagram });
    let outcomes = choose|outcomes: Seq<Outcome>| #[trigger]
        channel_steps(from, outcomes, task) == Some(to);
    dispatch_is_one_step::<E>(m, datagram, outcomes, task);
    if outcomes.len() == 0 {
        assert(channel_steps(from, outcomes, task) == Some(from));
    }
    outcomes[0]
}

/// No incoming datagram is lost while its stream is open: it is delivered, or the poll ends with
/// the datagram parked, or the stream is closed to it.
pub proof fn no_incoming_datagram_is_lost<E>(
    m: ServerModel,
    datagram: DatagramModel,
    to: (ServerModel, StepModel<E>),
    task: NotifyHandle,
)
    requires
        m.valid(),
        m.parked is None,
        settles((m, StepModel::Dispatch { datagram }), to, task),
    ensures
        kept(m, to.0, to.1, datagram),
{
    let outcome = dispatch_outcome::<E>(m, datagram, to, task);
    dispatch_keeps::<E>(m, datagram, outcome, task);
}

/// Whether a poll has the datagram still before it: parked while outgoing datagrams are
/// processed, or about to be dispatched.
pub open spec fn waits<E>(m: ServerModel, step: StepModel<E>, datagram: DatagramModel) -> bool {
    ||| m.parked == Some(datagram) && (step is SendTo || step is Dequeue)
    ||| step == StepModel::<E>::Dispatch { datagram }
}

/// Whether every child of `m` was there in the state `before`, and was handed no payload since.
spec fn same_children(before: ServerModel, m: ServerModel) -> bool {
    forall|j: int| 0 <= j < m.children.len() ==> #[trigger] is_same_child(before, m, j)
}

spec fn is_same_child(before: ServerModel, m: ServerModel, j: int) -> bool {
    exists|i: int|
        0 <= i < before.children.len() && (#[trigger] before.children[i]).peer
            == m.children[j].peer && before.children[i].incoming == m.children[j].incoming
}

proof fn dequeue_hands_out_nothing<E>(
    before: ServerModel,
    m: ServerModel,
    index: int,
    outcome: Outcome,
    task: NotifyHandle,
)
    requires
        same_children(before, m),
        consistent(m, StepModel::<E>::Dequeue { index }),
        channel_step(m, StepModel::<E>::Dequeue { index }, outcome, task) is Some,
    ensures
        same_children(
            before,
            (channel_step(m, StepModel::<E>::Dequeue { index }, outcome, task)->0).0,
        ),
{
    let m2 = (channel_step(m, StepModel::<E>::Dequeue { index }, outcome, task)->0).0;
    if let Outcome::Dequeued(answer) = outcome {
        assert forall|j: int| 0 <= j < m2.children.len() implies #[trigger] is_same_child(
            before,
            m2,
            j,
        ) by {
            if answer == Ok::<Async<Option<DatagramModel>>, ()>(Async::Ready(None)) && j >= index {
                assert(is_same_child(before, m, j + 1));
            } else {
                assert(is_same_child(before, m, j));
            }
        }
    }
}

proof fn waits_or_is_kept<E>(
    from: (ServerModel, StepModel<E>),
    outcomes: Seq<Outcome>,
    datagram: DatagramModel,
    task: NotifyHandle,
)
    requires
        consistent(from.0, from.1),
        waits(from.0, from.1, datagram),
        channel_steps(from, outcomes, task) is Some,
    ensures
        ({
            let (m, step) = channel_steps(from, outcomes, task)->0;
            &&& consistent(m, step)
            &&& waits(m, step, datagram) || (!is_channel_step(step) && kept(
                from.0,
                m,
                step,
                datagram,
            ))
            &&& waits(m, step, datagram) ==> same_children(from.0, m)
        }),
    decreases outcomes.len(),
{
    if outcomes.len() > 0 {
        waits_or_is_kept(from, outcomes.drop_last(), datagram, task);
        let (m, step) = channel_steps(from, outcomes.drop_last(), task)->0;
        channel_step_is_consistent(m, step, outcomes.last(), task);
        match step {
            StepModel::Dequeue { index } => {
                dequeue_hands_out_nothing::<E>(from.0, m, index, outcomes.last(), task);
            },
            StepModel::Dispatch { .. } => {
                dispatch_keeps::<E>(m, datagram, outcomes.last(), task);
                if closed_to(m, datagram.0) {
                    let j = choose|j: int|
                        0 <= j < m.children.len() && (#[trigger] m.children[j]).peer == datagram.0
                            && takes_no_payload(m.children[j]);
                    assert(is_same_child(from.0, m, j));
                }
            },
            _ => {},
        }
    } else {
        assert forall|j: int| 0 <= j < from.0.children.len() implies #[trigger] is_same_child(
            from.0,
            from.0,
            j,
        ) by {
            assert(from.0.children[j].peer == from.0.children[j].peer);
        }
    }
}

/// A parked datagram is processed before another one is received: a poll, until it next turns to
/// the socket or the caller, leaves it parked only to send an outgoing datagram, or because it
/// ends with the datagram parked again.
pub proof fn parked_datagram_comes_first<E>(
    m: ServerModel,
    datagram: DatagramModel,
    to: (ServerModel, StepModel<E>),
    task: NotifyHandle,
)
    requires
        m.valid(),
        m.parked == Some(datagram),
        settles(begin_outgoing::<E>(m, 0), to, task),
    ensures
        (to.1 is SendTo && to.0.parked == Some(datagram)) || kept(m, to.0, to.1, datagram),
{
    let from = begin_outgoing::<E>(m, 0);
    let outcomes = choose|outcomes: Seq<Outcome>| #[trigger]
        channel_steps(from, outcomes, task) == Some(to);
    waits_or_is_kept(from, outcomes, datagram, task);
}

/// The same after the socket's answer to an outgoing datagram.
pub proof fn parked_datagram_comes_next<E>(
    m: ServerModel,
    datagram: DatagramModel,
    index: int,
    outgoing: DatagramModel,
    answer: Result<Async<usize>, E>,
    to: (ServerModel, StepModel<E>),
    task: NotifyHandle,
)
    requires
        m.valid(),
        m.parked == Some(datagram),
        m.offers(index, outgoing),
        settles(after_sent(m, index, outgoing, answer), to, task),
    ensures
        (to.1 is SendTo && to.0.parked == Some(datagram)) || kept(m, to.0, to.1, datagram),
{
    let from = after_sent(m, index, outgoing, answer);
    let outcomes = choose|outcomes: Seq<Outcome>| #[trigger]
        channel_steps(from, outcomes, task) == Some(to);
    waits_or_is_kept(from, outcomes, datagram, task);
}

/// Whether `child` and `stream` communicate with each other, on behalf of the same peer.
pub open spec fn are_joined(child: ChildModel, stream: StreamModel) -> bool {
    &&& child.peer == stream.peer
    &&& child.incoming.channel == stream.incoming.channel
    &&& child.outgoing.channel == stream.outgoing.channel
}

/// Whether the step is to yield `stream`.
pub open spec fn yields<E>(step: StepModel<E>, stream: StreamModel) -> bool {
    step == StepModel::<E>::Done(Ok(Async::Ready(Some(stream))))
}

/// A stream that is yielded is for a peer that was not known, the sender of the datagram. It is
/// joined to the child of that peer, and the first payload that it gives is that of the datagram.
pub proof fn yielded_stream_is_new<E>(
    m: ServerModel,
    datagram: DatagramModel,
    to: (ServerModel, StepModel<E>),
    task: NotifyHandle,
    stream: StreamModel,
)
    requires
        m.valid(),
        m.parked is None,
        settles((m, StepModel::Dispatch { datagram }), to, task),
        yields(to.1, stream),
    ensures
        !m.knows(datagram.0),
        is_new_stream(stream, datagram.0),
        stream.next_payload() == datagram.1,
        exists|i: int|
            0 <= i < to.0.children.len() && are_joined(#[trigger] to.0.children[i], stream),
{
    let outcome = dispatch_outcome::<E>(m, datagram, to, task);
    if let Outcome::Dispatched { new_stream, answer } = outcome {
        dispatch_cases::<E>(m, datagram, new_stream, answer, task);
        assert(are_joined(to.0.children[m.children.len() as int], stream));
    }
}

/// A datagram of a peer that is not known yields a stream, whatever the channels do.
pub proof fn new_peer_yields_stream<E>(
    m: ServerModel,
    datagram: DatagramModel,
    to: (ServerModel, StepModel<E>),
    task: NotifyHandle,
)
    requires
        m.valid(),
        m.parked is None,
        !m.knows(datagram.0),
        settles((m, StepModel::Dispatch { datagram }), to, task),
    ensures
        exists|stream: StreamModel| #[trigger] yields(to.1, stream),
{
    let outcome = dispatch_outcome::<E>(m, datagram, to, task);
    if let Outcome::Dispatched { new_stream, answer } = outcome {
        dispatch_cases::<E>(m, datagram, new_stream, answer, task);
        assert(yields(to.1, new_stream->0));
    }
}

/// Dispatching a datagram does not touch the children of other peers.
pub proof fn other_peers_are_not_touched<E>(
    m: ServerModel,
    datagram: DatagramModel,
    to: (ServerModel, StepModel<E>),
    task: NotifyHandle,
)
    requires
        m.valid(),
        m.parked is None,
        settles((m, StepModel::Dispatch { datagram }), to, task),
    ensures
        to.0.without_peer(datagram.0).children == m.without_peer(datagram.0).children,
{
    let outcome = dispatch_outcome::<E>(m, datagram, to, task);
    if let Outcome::Dispatched { new_stream, answer } = outcome {
        dispatch_cases::<E>(m, datagram, new_stream, answer, task);
        let m1 = created(m, new_stream);
        let index = m1.index_of(datagram.0);
        without_created(m, datagram.0, new_stream, index);
        match answer {
            Ok(()) => {
                enqueued_is_valid(m1, index, answer);
                without_peer_is_removal(to.0, datagram.0, index);
                assert(to.0.children.remove(index) =~= m1.children.remove(index));
            },
            Err(TrySendError::Full(_)) => {
                enqueued_is_valid(m1, index, answer);
                without_peer_is_removal(to.0, datagram.0, index);
                assert(to.0.children.remove(index) =~= m1.children.remove(index));
            },
            Err(TrySendError::Disconnected(_)) => {
                assert(!to.0.knows(datagram.0));
                without_unknown_peer(to.0, datagram.0);
            },
        }
    }
}

proof fn without_created(
    m: ServerModel,
    peer: SocketAddr,
    new_stream: Option<StreamModel>,
    index: int,
)
    requires
        m.valid(),
        created(m, new_stream).valid(),
        0 <= index < created(m, new_stream).children.len(),
        created(m, new_stream).children[index].peer == peer,
        new_stream is Some ==> index == m.children.len() && !m.knows(peer),
    ensures
        created(m, new_stream).children.remove(index) == m.without_peer(peer).children,
{
    if new_stream is Some {
        without_unknown_peer(m, peer);
        assert(created(m, new_stream).children.remove(index) =~= m.children);
    } else {
        without_peer_is_removal(m, peer, index);
    }
}

proof fn no_steps_without_channel<E>(
    from: (ServerModel, StepModel<E>),
    outcomes: Seq<Outcome>,
    task: NotifyHandle,
)
    requires
        !is_channel_step(from.1),
        channel_steps(from, outcomes, task) is Some,
    ensures
        channel_steps(from, outcomes, task) == Some(from),
    decreases outcomes.len(),
{
    if outcomes.len() > 0 {
        no_steps_without_channel(from, outcomes.drop_last(), task);
    }
}

/// What the server is to ask of the socket or the caller next, it asks right away.
pub proof fn settled_already<E>(
    from: (ServerModel, StepModel<E>),
    to: (ServerModel, StepModel<E>),
    task: NotifyHandle,
)
    requires
        !is_channel_step(from.1),
        settles(from, to, task),
    ensures
        to == from,
{
    let outcomes = choose|outcomes: Seq<Outcome>| #[trigger]
        channel_steps(from, outcomes, task) == Some(to);
    no_steps_without_channel(from, outcomes, task);
}

/// A socket that has no datagram, or fails, ends the poll, with its own error if it fails. Nothing
/// changes.
pub proof fn receiving_nothing_ends_poll<E>(
    m: ServerModel,
    buffer: Seq<u8>,
    answer: Result<Async<(usize, SocketAddr)>, E>,
    to: (ServerModel, StepModel<E>),
    task: NotifyHandle,
)
    requires
        !(answer matches Ok(Async::Ready(_))),
        settles(after_received(m, buffer, answer), to, task),
    ensures
        to.0 == m,
        to.1 == StepModel::Done(
            match answer {
                Ok(_) => Ok(Async::NotReady),
                Err(e) => Err::<Async<Option<StreamModel>>, E>(e),
            },
        ),
{
    settled_already(after_received(m, buffer, answer), to, task);
}

/// Whether a poll that is over yields a stream, or waits because a datagram is parked.
pub open spec fn ends_with_reason<E>(m: ServerModel, step: StepModel<E>) -> bool {
    step is Done ==> {
        ||| exists|stream: StreamModel| #[trigger] yields(step, stream)
        ||| m.parked is Some && step == StepModel::<E>::Done(Ok(Async::NotReady))
    }
}

proof fn steps_end_with_reason<E>(
    from: (ServerModel, StepModel<E>),
    outcomes: Seq<Outcome>,
    task: NotifyHandle,
)
    requires
        consistent(from.0, from.1),
        !(from.1 is Done),
        channel_steps(from, outcomes, task) is Some,
    ensures
        ({
            let (m, step) = channel_steps(from, outcomes, task)->0;
            consistent(m, step) && ends_with_reason(m, step)
        }),
    decreases outcomes.len(),
{
    if outcomes.len() > 0 {
        steps_end_with_reason(from, outcomes.drop_last(), task);
        let (m, step) = channel_steps(from, outcomes.drop_last(), task)->0;
        channel_step_is_consistent(m, step, outcomes.last(), task);
        let (m2, step2) = channel_steps(from, outcomes, task)->0;
        if let (
            StepModel::Dispatch { datagram },
            Outcome::Dispatched { new_stream, answer },
        ) = (step, outcomes.last()) {
            dispatch_cases::<E>(m, datagram, new_stream, answer, task);
            if answer is Ok && new_stream is Some {
                assert(yields(step2, new_stream->0));
            }
        }
    }
}

/// A poll does not end before the socket was asked for a datagram and had none, or failed, unless
/// it yields a stream or a datagram is parked.
pub proof fn poll_ends_with_reason<E>(
    from: (ServerModel, StepModel<E>),
    to: (ServerModel, StepModel<E>),
    task: NotifyHandle,
)
    requires
        consistent(from.0, from.1),
        !(from.1 is Done),
        settles(from, to, task),
    ensures
        ends_with_reason(to.0, to.1),
{
    let outcomes = choose|outcomes: Seq<Outcome>| #[trigger]
        channel_steps(from, outcomes, task) == Some(to);
    steps_end_with_reason(from, outcomes, task);
}

/// The payloads that were sent through a channel.
pub open spec fn payloads_sent(tx: SenderModel) -> Seq<Seq<u8>> {
    Seq::new(tx.sent, |k: int| channel::payload_at(tx.channel, k as nat))
}

/// The payloads that were received through a channel.
pub open spec fn payloads_received(rx: ReceiverModel) -> Seq<Seq<u8>> {
    Seq::new(rx.received, |k: int| channel::payload_at(rx.channel, k as nat))
}

/// The datagrams that were sent through a channel.
pub open spec fn datagrams_sent(tx: SenderModel) -> Seq<DatagramModel> {
    Seq::new(tx.sent, |k: int| channel::datagram_at(tx.channel, k as nat))
}

/// Whether all that was written to the stream goes to its peer.
pub open spec fn addresses_peer(stream: StreamModel) -> bool {
    forall|k: int|
        0 <= k < stream.outgoing.sent ==> (#[trigger] datagrams_sent(stream.outgoing)[k]).0
            == stream.peer
}

/// A stream sends to its own peer, and to no other: this holds of a new stream, and all that can
/// be done with a stream keeps it.
pub proof fn stream_sends_to_its_peer(stream: StreamModel, payload: Seq<u8>, task: NotifyHandle)
    ensures
        is_new_stream(stream, stream.peer) ==> addresses_peer(stream),
        addresses_peer(stream) && stream.sends(payload) ==> addresses_peer(stream.after_send()),
        addresses_peer(stream) ==> addresses_peer(stream.after_payload()),
        addresses_peer(stream) ==> addresses_peer(stream.waiting_for_payload(task)),
        addresses_peer(stream) ==> addresses_peer(stream.after_end()),
        addresses_peer(stream) ==> addresses_peer(stream.waiting_for_room(task)),
        addresses_peer(stream) ==> addresses_peer(stream.after_refusal()),
        addresses_peer(stream) ==> addresses_peer(stream.not_waiting()),
{
    let after = stream.after_send();
    if addresses_peer(stream) && stream.sends(payload) {
        assert forall|k: int| 0 <= k < after.outgoing.sent implies (
        #[trigger] datagrams_sent(after.outgoing)[k]).0 == after.peer by {
            if k < stream.outgoing.sent {
                assert(datagrams_sent(stream.outgoing)[k].0 == stream.peer);
            }
        }
    }
}

/// A peer whose stream is closed is not known any more, whether the server finds out when it takes
/// a datagram from the stream or when it dispatches one to it.
pub proof fn closed_stream_is_forgotten<E>(m: ServerModel, index: int, payload: Seq<u8>)
    requires
        m.valid(),
        0 <= index < m.children.len(),
    ensures
        !after_dequeued::<E>(m, index, Ok(Async::Ready(None))).0.knows(m.children[index].peer),
        !after_dispatched::<E>(
            m,
            m.children[index].peer,
            None,
            Err(TrySendError::Disconnected(payload)),
        ).0.knows(m.children[index].peer),
{
    without_peer_is_removal(m, m.children[index].peer, index);
}

} // verus!
