//! What the calls of a `UdpServer`, of its streams and of a connected socket do, told of the calls
//! themselves: what becomes of each datagram, of each child, and of the poll.
use bytes::Bytes;
use futures::executor::NotifyHandle;
use vstd::prelude::*;

use crate::buffer::content;
use crate::channel;
use crate::channel::{ChannelEnd, Datagram, DatagramModel, PollState, TrySendError};
use crate::history::{
    call_is_consistent, index_is_unique, leads, received_in, sets_out, setting_out_is_consistent,
    steps_are_consistent, yields_for, Call, Input,
};
use crate::laws::{dispatch_outcome, poll_ends_with_reason, settled_already};
use crate::model::{
    channel_step, channel_steps, consistent, created, dispatch_cases, is_channel_step,
    without_peer_is_removal, without_unknown_peer, ChildModel, Outcome, ServerModel, StepModel,
    StreamModel,
};
use crate::net::SocketAddr;
use crate::poll::{Async, AsyncSink, SocketError, StreamError};
use crate::udp::{
    bind_address, Request, Step, UdpAsyncSocket, UdpChild, UdpServer, UdpStream, MAX_DATAGRAM,
    UDP_STREAM_BUFFER_DATAGRAMS,
};

verus! {

/// A datagram that the socket hands over is never lost, whatever the number of peers. From a peer
/// that has no child, it yields a new stream for that peer, whose first payload it is. From a peer
/// that has the child at `index`, it is the next payload that the child is handed, and the poll
/// goes on receiving; or the child was offered it and has no room, so it is parked and the poll
/// waits; or the stream has closed the channel, and the peer is forgotten.
pub proof fn received_datagram_is_kept<E>(
    from: (ServerModel, StepModel<E>),
    call: Call<E>,
    to: (ServerModel, StepModel<E>),
    buffer: Seq<u8>,
    nbytes: usize,
    address: SocketAddr,
)
    requires
        from.0.valid(),
        from.0.parked is None,
        from.1 is RecvFrom,
        nbytes <= buffer.len(),
        call.input == Input::<E>::Received(buffer, Ok(Async::Ready((nbytes, address)))),
        leads(from, call, to),
    ensures
        (forall|i: int| 0 <= i < from.0.children.len() ==> from.0.children[i].peer != address) ==> {
            &&& to.1 matches StepModel::Done(Ok(Async::Ready(Some(stream))))
            &&& stream.peer == address
            &&& stream.incoming.received == 0
            &&& stream.outgoing.sent == 0
            &&& channel::payload_at(stream.incoming.channel, 0) == buffer.take(nbytes as int)
            &&& to.0.parked is None
            &&& to.0.children.len() == from.0.children.len() + 1
            &&& to.0.children.drop_last() == from.0.children
            &&& to.0.children.last().peer == address
            &&& to.0.children.last().incoming.channel == stream.incoming.channel
            &&& to.0.children.last().incoming.sent == 1
            &&& to.0.children.last().outgoing.channel == stream.outgoing.channel
            &&& to.0.children.last().outgoing.received == 0
        },
        forall|i: int|
            0 <= i < from.0.children.len() && #[trigger] from.0.children[i].peer == address ==> {
                let before = from.0.children[i].incoming;
                let after = to.0.children[i].incoming;
                ||| {
                    &&& to.1 is RecvFrom
                    &&& to.0.parked is None
                    &&& to.0.children.len() == from.0.children.len()
                    &&& forall|j: int|
                        0 <= j < from.0.children.len() && j != i ==> to.0.children[j]
                            == from.0.children[j]
                    &&& to.0.children[i].peer == address
                    &&& after.channel == before.channel
                    &&& after.sent == before.sent + 1
                    &&& channel::payload_at(before.channel, before.sent) == buffer.take(
                        nbytes as int,
                    )
                }
                ||| {
                    &&& to.1 == StepModel::<E>::Done(Ok(Async::NotReady))
                    &&& to.0.parked == Some((address, buffer.take(nbytes as int)))
                    &&& to.0.children.len() == from.0.children.len()
                    &&& forall|j: int|
                        0 <= j < from.0.children.len() && j != i ==> to.0.children[j]
                            == from.0.children[j]
                    &&& to.0.children[i].peer == address
                    &&& after.channel == before.channel
                    &&& after.sent == before.sent
                    &&& after.refused == before.refused + 1
                    &&& before.sent > before.limit
                }
                ||| {
                    &&& to.1 is RecvFrom
                    &&& to.0.parked is None
                    &&& to.0.children == from.0.children.remove(i)
                    &&& before.sent == channel::payload_total(before.channel)
                    &&& channel::payload_closed_by(before.channel) == ChannelEnd::Receiver
                }
            },
{
    let datagram = (address, buffer.take(nbytes as int));
    let m = from.0;
    let outcome = dispatch_outcome::<E>(m, datagram, to, call.task);
    if let Outcome::Dispatched { new_stream, answer } = outcome {
        dispatch_cases::<E>(m, datagram, new_stream, answer, call.task);
        let m1 = created(m, new_stream);
        let index = m1.index_of(address);
        if new_stream is Some {
            assert(to.0.children.drop_last() =~= m.children);
        }
        assert forall|i: int|
            0 <= i < m.children.len() && #[trigger] m.children[i].peer == address implies i
            == index && new_stream is None by {
            index_is_unique(m, address, i);
        }
    }
}

/// Whether the child at `j` was there in the state `before`, and was offered no payload since.
spec fn is_from<E>(before: ServerModel, to: (ServerModel, StepModel<E>), j: int) -> bool {
    exists|i: int|
        0 <= i < before.children.len() && (#[trigger] before.children[i]).peer
            == to.0.children[j].peer && (is_channel_step(to.1) || to.1 is SendTo
            ==> before.children[i].incoming == to.0.children[j].incoming)
}

/// Whether all children were there in the state `before`, but for one whose stream is yielded, and
/// none of them is at its end if none was.
spec fn come_from<E>(before: ServerModel, to: (ServerModel, StepModel<E>)) -> bool {
    &&& forall|j: int|
        0 <= j < to.0.children.len() ==> #[trigger] is_from(before, to, j) || yields_for(
            to.1,
            to.0.children[j].peer,
        )
    &&& has_no_ended_child(before) ==> has_no_ended_child(to.0)
}

/// Whether no child is at the end of its channel.
pub open spec fn has_no_ended_child(m: ServerModel) -> bool {
    forall|j: int| 0 <= j < m.children.len() ==> !((#[trigger] m.children[j]).polled is Ended)
}

proof fn step_comes_from<E>(
    before: ServerModel,
    from: (ServerModel, StepModel<E>),
    outcome: Outcome,
    task: NotifyHandle,
)
    requires
        consistent(from.0, from.1),
        come_from(before, from),
        channel_step(from.0, from.1, outcome, task) is Some,
    ensures
        come_from(before, channel_step(from.0, from.1, outcome, task)->0),
{
    let to = channel_step(from.0, from.1, outcome, task)->0;
    match (from.1, outcome) {
        (StepModel::Dequeue { index }, Outcome::Dequeued(answer)) => {
            let removed = answer == Ok::<Async<Option<DatagramModel>>, ()>(Async::Ready(None));
            assert forall|j: int| 0 <= j < to.0.children.len() implies #[trigger] is_from(
                before,
                to,
                j,
            ) by {
                assert(is_from(
                    before,
                    from,
                    if removed && j >= index {
                        j + 1
                    } else {
                        j
                    },
                ));
            }
            if has_no_ended_child(before) {
                assert forall|j: int| 0 <= j < to.0.children.len() implies !((
                #[trigger] to.0.children[j]).polled is Ended) by {
                    assert(!(from.0.children[if removed && j >= index {
                        j + 1
                    } else {
                        j
                    }].polled is Ended));
                }
            }
        },
        (StepModel::Dispatch { datagram }, Outcome::Dispatched { new_stream, answer }) => {
            dispatch_cases::<E>(from.0, datagram, new_stream, answer, task);
            let index = created(from.0, new_stream).index_of(datagram.0);
            let removed = answer matches Err(TrySendError::Disconnected(_));
            assert forall|j: int| 0 <= j < to.0.children.len() implies #[trigger] is_from(
                before,
                to,
                j,
            ) || yields_for(to.1, to.0.children[j].peer) by {
                let i = if removed && j >= index {
                    j + 1
                } else {
                    j
                };
                if i < from.0.children.len() {
                    assert(is_from(before, from, i));
                }
            }
            if has_no_ended_child(before) {
                assert forall|j: int| 0 <= j < to.0.children.len() implies !((
                #[trigger] to.0.children[j]).polled is Ended) by {
                    let i = if removed && j >= index {
                        j + 1
                    } else {
                        j
                    };
                    if i < from.0.children.len() {
                        assert(!(from.0.children[i].polled is Ended));
                    }
                }
            }
        },
        _ => {},
    }
}

proof fn steps_come_from<E>(
    before: ServerModel,
    from: (ServerModel, StepModel<E>),
    outcomes: Seq<Outcome>,
    task: NotifyHandle,
)
    requires
        consistent(from.0, from.1),
        come_from(before, from),
        channel_steps(from, outcomes, task) is Some,
    ensures
        come_from(before, channel_steps(from, outcomes, task)->0),
    decreases outcomes.len(),
{
    if outcomes.len() > 0 {
        steps_come_from(before, from, outcomes.drop_last(), task);
        steps_are_consistent(from, outcomes.drop_last(), task);
        step_comes_from(
            before,
            channel_steps(from, outcomes.drop_last(), task)->0,
            outcomes.last(),
            task,
        );
    }
}

proof fn setting_out_comes_from<E>(from: (ServerModel, StepModel<E>), call: Call<E>)
    requires
        consistent(from.0, from.1),
        sets_out(from, call) is Some,
    ensures
        come_from(from.0, sets_out(from, call)->0),
        (sets_out(from, call)->0).0.children.len() == from.0.children.len(),
{
    let first = sets_out(from, call)->0;
    assert forall|j: int| 0 <= j < first.0.children.len() implies #[trigger] is_from(
        from.0,
        first,
        j,
    ) by {
        assert(from.0.children[j].peer == first.0.children[j].peer);
    }
    if has_no_ended_child(from.0) {
        assert forall|j: int| 0 <= j < first.0.children.len() implies !((
        #[trigger] first.0.children[j]).polled is Ended) by {
            assert(!(from.0.children[j].polled is Ended));
        }
    }
}

/// A call makes no children but the one whose stream it yields, keeps one child for each peer, and
/// keeps no child that is at the end of its channel. A datagram that it asks to be sent is the last
/// one that was taken from a child, of which nothing else is pending; and it does not ask for
/// another datagram while one is parked.
pub proof fn call_keeps_children<E>(
    from: (ServerModel, StepModel<E>),
    call: Call<E>,
    to: (ServerModel, StepModel<E>),
)
    requires
        consistent(from.0, from.1),
        leads(from, call, to),
    ensures
        forall|j: int|
            0 <= j < to.0.children.len() ==> {
                ||| exists|i: int|
                    0 <= i < from.0.children.len() && (#[trigger] from.0.children[i]).peer
                        == to.0.children[j].peer
                ||| {
                    &&& to.1 matches StepModel::Done(Ok(Async::Ready(Some(stream))))
                    &&& stream.peer == (#[trigger] to.0.children[j]).peer
                }
            },
        forall|i: int, j: int|
            0 <= i < j < to.0.children.len() ==> (#[trigger] to.0.children[i]).peer != (
            #[trigger] to.0.children[j]).peer,
        (forall|i: int|
            0 <= i < from.0.children.len() ==> !((#[trigger] from.0.children[i]).polled is Ended))
            ==> forall|j: int|
            0 <= j < to.0.children.len() ==> !((#[trigger] to.0.children[j]).polled is Ended),
        to.1 matches StepModel::SendTo { index, datagram } ==> {
            let child = to.0.children[index];
            &&& 0 <= index < to.0.children.len()
            &&& child.pending is None
            &&& child.outgoing.received > 0
            &&& datagram == channel::datagram_at(
                child.outgoing.channel,
                (child.outgoing.received - 1) as nat,
            )
        },
        to.1 is RecvFrom ==> to.0.parked is None,
        !(to.1 is Dequeue) && !(to.1 is Dispatch),
        to.1 != StepModel::<E>::Done(Ok(Async::Ready(None))),
{
    let first = sets_out(from, call)->0;
    setting_out_is_consistent(from, call);
    setting_out_comes_from(from, call);
    call_is_consistent(from, call, to);
    let outcomes = choose|outcomes: Seq<Outcome>| #[trigger]
        channel_steps(first, outcomes, call.task) == Some(to);
    steps_come_from(from.0, first, outcomes, call.task);
    assert forall|j: int| 0 <= j < to.0.children.len() implies {
        ||| exists|i: int|
            0 <= i < from.0.children.len() && (#[trigger] from.0.children[i]).peer
                == to.0.children[j].peer
        ||| {
            &&& to.1 matches StepModel::Done(Ok(Async::Ready(Some(stream))))
            &&& stream.peer == (#[trigger] to.0.children[j]).peer
        }
    } by {
        assert(is_from(from.0, to, j) || yields_for(to.1, to.0.children[j].peer));
    }
    if first.1 is Done {
        settled_already(first, to, call.task);
    } else {
        poll_ends_with_reason(first, to, call.task);
    }
}

/// Whether the child at `i` goes on as the child at `j`, and was offered one payload for which it
/// had no room: more was sent to it than it can buffer.
pub open spec fn refused_payload(from: ServerModel, i: int, to: ServerModel, j: int) -> bool {
    let before = from.children[i].incoming;
    let after = to.children[j].incoming;
    &&& 0 <= i < from.children.len()
    &&& 0 <= j < to.children.len()
    &&& to.children[j].peer == from.children[i].peer
    &&& after.channel == before.channel
    &&& after.sent == before.sent
    &&& after.refused == before.refused + 1
    &&& before.sent > before.limit
}

/// A datagram is not left parked without an attempt to deliver it: if one is parked after a call,
/// then either the call asks for an outgoing datagram to be sent first, and it was parked before;
/// or the poll is over, the datagram was parked before or received in this call, and the child of
/// its peer was offered it in this call and had no room for it.
pub proof fn parked_datagram_was_offered<E>(
    from: (ServerModel, StepModel<E>),
    call: Call<E>,
    to: (ServerModel, StepModel<E>),
    datagram: DatagramModel,
)
    requires
        consistent(from.0, from.1),
        leads(from, call, to),
        to.0.parked == Some(datagram),
    ensures
        from.0.parked == Some(datagram) || (from.0.parked is None && received_in(call) == Some(
            datagram,
        )),
        ({
            ||| to.1 is SendTo && from.0.parked == Some(datagram)
            ||| {
                &&& to.1 == StepModel::<E>::Done(Ok(Async::NotReady))
                &&& exists|i: int, j: int| #[trigger]
                    refused_payload(from.0, i, to.0, j) && from.0.children[i].peer == datagram.0
            }
        }),
{
    let first = sets_out(from, call)->0;
    setting_out_is_consistent(from, call);
    setting_out_comes_from(from, call);
    call_is_consistent(from, call, to);
    let outcomes = choose|outcomes: Seq<Outcome>| #[trigger]
        channel_steps(first, outcomes, call.task) == Some(to);
    steps_are_consistent(first, outcomes, call.task);
    if let StepModel::Dispatch { datagram: d } = first.1 {
        if let Outcome::Dispatched { new_stream, answer } = dispatch_outcome::<E>(
            first.0,
            d,
            to,
            call.task,
        ) {
            dispatch_cases::<E>(first.0, d, new_stream, answer, call.task);
        }
    }
    if outcomes.len() == 0 {
        assert(to == first);
    } else {
        steps_are_consistent(first, outcomes.drop_last(), call.task);
        steps_come_from(from.0, first, outcomes.drop_last(), call.task);
        let through = channel_steps(first, outcomes.drop_last(), call.task)->0;
        if let (
            StepModel::Dispatch { datagram: d },
            Outcome::Dispatched { new_stream, answer },
        ) = (through.1, outcomes.last()) {
            dispatch_cases::<E>(through.0, d, new_stream, answer, call.task);
            let index = created(through.0, new_stream).index_of(d.0);
            assert(new_stream is None);
            assert(is_from(from.0, through, index));
            let i = choose|i: int|
                0 <= i < from.0.children.len() && (#[trigger] from.0.children[i]).peer
                    == through.0.children[index].peer && from.0.children[i].incoming
                    == through.0.children[index].incoming;
            assert(refused_payload(from.0, i, to.0, index));
        }
    }
}

/// A poll is over only with a new stream, or because a datagram is parked, or because the socket
/// has no datagram or fails: then the outcome is that of the socket, and nothing else changes.
pub proof fn call_ends_poll_with_reason<E>(
    from: (ServerModel, StepModel<E>),
    call: Call<E>,
    to: (ServerModel, StepModel<E>),
    outcome: Result<Async<Option<StreamModel>>, E>,
)
    requires
        consistent(from.0, from.1),
        leads(from, call, to),
        to.1 == StepModel::<E>::Done(outcome),
    ensures
        match outcome {
            Ok(Async::Ready(stream)) => stream is Some,
            Ok(Async::NotReady) => to.0.parked is Some || (to.0 == from.0 && from.1 is RecvFrom && (
            call.input matches Input::Received(_, Ok(Async::NotReady)))),
            Err(e) => to.0 == from.0 && from.1 is RecvFrom && (call.input matches Input::Received(
                _,
                Err(error),
            ) && error == e),
        },
{
    let first = sets_out(from, call)->0;
    setting_out_is_consistent(from, call);
    if first.1 is Done {
        settled_already(first, to, call.task);
    } else {
        poll_ends_with_reason(first, to, call.task);
    }
}

/// A datagram that the socket does not take is pending for its child, unless the stream has closed
/// the other channel and the child is removed; and no other datagram is taken from any child in
/// this poll, which goes on with incoming datagrams.
pub proof fn refused_datagram_is_pending<E>(
    from: (ServerModel, StepModel<E>),
    call: Call<E>,
    to: (ServerModel, StepModel<E>),
    index: int,
    datagram: DatagramModel,
)
    requires
        consistent(from.0, from.1),
        from.1 == (StepModel::<E>::SendTo { index, datagram }),
        call.input == Input::<E>::Sent(Ok(Async::NotReady)),
        leads(from, call, to),
    ensures
        !(to.1 is SendTo),
        forall|i: int|
            0 <= i < from.0.children.len() ==> {
                ||| exists|j: int|
                    {
                        &&& 0 <= j < to.0.children.len()
                        &&& (#[trigger] to.0.children[j]).peer == from.0.children[i].peer
                        &&& to.0.children[j].outgoing == from.0.children[i].outgoing
                        &&& to.0.children[j].polled == from.0.children[i].polled
                        &&& to.0.children[j].pending == if i == index {
                            Some(datagram)
                        } else {
                            from.0.children[i].pending
                        }
                    }
                ||| {
                    let incoming = (#[trigger] from.0.children[i]).incoming;
                    &&& incoming.sent == channel::payload_total(incoming.channel)
                    &&& channel::payload_closed_by(incoming.channel) == ChannelEnd::Receiver
                    &&& to.1 is RecvFrom
                }
            },
{
    let first = sets_out(from, call)->0;
    let m = first.0;
    setting_out_is_consistent(from, call);
    match first.1 {
        StepModel::Dispatch { datagram: parked } => {
            let outcome = dispatch_outcome::<E>(m, parked, to, call.task);
            if let Outcome::Dispatched { new_stream, answer } = outcome {
                dispatch_cases::<E>(m, parked, new_stream, answer, call.task);
                let at = created(m, new_stream).index_of(parked.0);
                let removed = answer matches Err(TrySendError::Disconnected(_));
                assert forall|i: int|
                    0 <= i < from.0.children.len() && !(removed && i == at) implies exists|j: int|
                    {
                        &&& 0 <= j < to.0.children.len()
                        &&& (#[trigger] to.0.children[j]).peer == (
                        #[trigger] from.0.children[i]).peer
                        &&& to.0.children[j].outgoing == from.0.children[i].outgoing
                        &&& to.0.children[j].polled == from.0.children[i].polled
                        &&& to.0.children[j].pending == if i == index {
                            Some(datagram)
                        } else {
                            from.0.children[i].pending
                        }
                    } by {
                    let j = if removed && i > at {
                        i - 1
                    } else {
                        i
                    };
                    assert(to.0.children[j].peer == from.0.children[i].peer);
                }
            }
        },
        _ => {
            settled_already(first, to, call.task);
            assert forall|i: int| 0 <= i < from.0.children.len() implies (
            #[trigger] from.0.children[i]).peer == to.0.children[i].peer by {}
        },
    }
}

/// A call of `poll` is one that begins another poll.
pub proof fn poll_begins_poll<S, E>(
    server: &mut UdpServer<S>,
    task: &NotifyHandle,
    r: Request<E>,
    last: Result<Async<Option<StreamModel>>, E>,
)
    requires
        call_ensures(UdpServer::<S>::poll::<E>, (server, task), r),
    ensures
        leads(
            (old(server)@, StepModel::<E>::Done(last)),
            Call { input: Input::Poll, task: *task },
            (final(server)@, r@),
        ),
        consistent(final(server)@, r@),
        final(server).socket() == old(server).socket(),
{
}

/// A call of `sent` is one that goes on with the socket's answer to a datagram.
pub proof fn sent_goes_on<S, E>(
    server: &mut UdpServer<S>,
    index: usize,
    datagram: Datagram,
    answer: Result<Async<usize>, E>,
    task: &NotifyHandle,
    r: Request<E>,
)
    requires
        call_ensures(UdpServer::<S>::sent::<E>, (server, index, datagram, answer, task), r),
    ensures
        leads(
            (
                old(server)@,
                StepModel::<E>::SendTo {
                    index: index as int,
                    datagram: (datagram.0, content(datagram.1)),
                },
            ),
            Call { input: Input::Sent(answer), task: *task },
            (final(server)@, r@),
        ),
        consistent(final(server)@, r@),
        final(server).socket() == old(server).socket(),
{
}

/// A call of `received` is one that goes on with the socket's answer to a receive.
pub proof fn received_goes_on<S, E>(
    server: &mut UdpServer<S>,
    buffer: &[u8],
    answer: Result<Async<(usize, SocketAddr)>, E>,
    task: &NotifyHandle,
    r: Request<E>,
)
    requires
        call_ensures(UdpServer::<S>::received::<E>, (server, buffer, answer, task), r),
    ensures
        leads(
            (old(server)@, StepModel::<E>::RecvFrom),
            Call { input: Input::Received(buffer@, answer), task: *task },
            (final(server)@, r@),
        ),
        consistent(final(server)@, r@),
        final(server).socket() == old(server).socket(),
{
}

/// A call of `received` with a datagram from an unknown peer gives a stream to that peer, whose
/// first payload is what was received.
pub proof fn datagram_from_new_peer_gives_stream<S, E>(
    server: &mut UdpServer<S>,
    buffer: &[u8],
    nbytes: usize,
    address: SocketAddr,
    task: &NotifyHandle,
    r: Request<E>,
)
    requires
        old(server)@.valid(),
        old(server)@.parked is None,
        nbytes <= buffer@.len(),
        forall|i: int|
            0 <= i < old(server)@.children.len() ==> (#[trigger] old(server)@.children[i]).peer
                != address,
        call_ensures(
            UdpServer::<S>::received::<E>,
            (server, buffer, Ok(Async::Ready((nbytes, address))), task),
            r,
        ),
    ensures
        r matches Request::Done(Ok(Async::Ready(Some(stream)))) && {
            &&& stream@.peer == address
            &&& stream@.incoming.received == 0
            &&& channel::payload_at(stream@.incoming.channel, 0) == buffer@.take(nbytes as int)
        },
{
    let answer = Ok::<Async<(usize, SocketAddr)>, E>(Async::Ready((nbytes, address)));
    received_goes_on(server, buffer, answer, task, r);
    let from = (old(server)@, StepModel::<E>::RecvFrom);
    let call = Call { input: Input::Received(buffer@, answer), task: *task };
    received_datagram_is_kept(from, call, (final(server)@, r@), buffer@, nbytes, address);
}

/// Reading takes at most one payload, and takes it whole: the next one of the stream. If it fits,
/// its length is the result and it stands at the start of the buffer, of which the rest is as it
/// was. If it does not fit, that is an error. If there is none, the buffer is as it was: the stream
/// has ended, and reads as no bytes, or `task` waits.
pub proof fn read_gives_whole_payload(
    stream: &mut UdpStream,
    buf: &mut [u8],
    task: &NotifyHandle,
    r: Result<usize, StreamError>,
)
    requires
        call_ensures(UdpStream::read, (stream, buf, task), r),
    ensures
        ({
            let before = old(stream)@.incoming;
            let after = final(stream)@.incoming;
            let payload = channel::payload_at(before.channel, before.received);
            &&& after.channel == before.channel
            &&& final(buf)@.len() == old(buf)@.len()
            &&& if after.received == before.received {
                &&& final(buf)@ == old(buf)@
                &&& match r {
                    Ok(n) => {
                        &&& n == 0
                        &&& before.received == channel::payload_total(before.channel)
                    },
                    Err(e) => {
                        &&& e == StreamError::WouldBlock
                        &&& final(stream)@.polled == PollState::Waiting(*task)
                    },
                }
            } else {
                &&& after.received == before.received + 1
                &&& before.received < channel::payload_total(before.channel)
                &&& match r {
                    Ok(n) => {
                        &&& n == payload.len() && n <= old(buf)@.len()
                        &&& final(buf)@.take(n as int) == payload
                        &&& final(buf)@.skip(n as int) == old(buf)@.skip(n as int)
                    },
                    Err(e) => {
                        &&& e == StreamError::BufferOverrun
                        &&& payload.len() > old(buf)@.len()
                        &&& final(buf)@ == old(buf)@
                    },
                }
            }
            &&& final(stream)@.peer == old(stream)@.peer
            &&& final(stream)@.outgoing == old(stream)@.outgoing
            &&& final(stream)@.waiting == old(stream)@.waiting
        }),
{
    let before = old(stream)@.incoming;
    let payload = channel::payload_at(before.channel, before.received);
    if payload.len() <= old(buf)@.len() {
        assert(old(buf)@.len() == old(buf).len());
        let all = payload + old(buf)@.skip(payload.len() as int);
        assert(all.take(payload.len() as int) =~= payload);
        assert(all.skip(payload.len() as int) =~= old(buf)@.skip(payload.len() as int));
    }
}

/// What reading makes of a payload that was taken is the same for every payload: it is copied whole
/// if it fits, and nothing is copied otherwise.
pub proof fn payload_is_copied_whole(
    polled: Result<Async<Option<Bytes>>, StreamError>,
    buf: &mut [u8],
    r: Result<usize, StreamError>,
)
    requires
        call_ensures(UdpStream::after_read, (polled, buf), r),
    ensures
        final(buf)@.len() == old(buf)@.len(),
        match polled {
            Ok(Async::Ready(Some(payload))) => {
                let bytes = content(payload);
                if bytes.len() <= old(buf)@.len() {
                    &&& r matches Ok(n) && n == bytes.len()
                    &&& final(buf)@.take(bytes.len() as int) == bytes
                    &&& final(buf)@.skip(bytes.len() as int) == old(buf)@.skip(bytes.len() as int)
                } else {
                    &&& r matches Err(e) && e == StreamError::BufferOverrun
                    &&& final(buf)@ == old(buf)@
                }
            },
            Ok(Async::Ready(None)) => (r matches Ok(n) && n == 0) && final(buf)@ == old(buf)@,
            Ok(Async::NotReady) => (r matches Err(e) && e == StreamError::WouldBlock) && final(buf)@
                == old(buf)@,
            Err(error) => (r matches Err(e) && e == error) && final(buf)@ == old(buf)@,
        },
{
    if let Ok(Async::Ready(Some(payload))) = polled {
        let bytes = content(payload);
        if bytes.len() <= old(buf)@.len() {
            assert(old(buf)@.len() == old(buf).len());
            let all = bytes + old(buf)@.skip(bytes.len() as int);
            assert(all.take(bytes.len() as int) =~= bytes);
            assert(all.skip(bytes.len() as int) =~= old(buf)@.skip(bytes.len() as int));
        }
    }
}

/// Polling a stream takes the next payload, and gives it as it was handed to the stream; or the
/// stream has ended; or `task` waits. It never fails.
pub proof fn poll_gives_next_payload(
    stream: &mut UdpStream,
    task: &NotifyHandle,
    r: Result<Async<Option<Bytes>>, StreamError>,
)
    requires
        call_ensures(UdpStream::poll, (stream, task), r),
    ensures
        ({
            let before = old(stream)@.incoming;
            let after = final(stream)@.incoming;
            &&& after.channel == before.channel
            &&& final(stream)@.peer == old(stream)@.peer
            &&& final(stream)@.outgoing == old(stream)@.outgoing
            &&& final(stream)@.waiting == old(stream)@.waiting
            &&& match r {
                Ok(Async::Ready(Some(payload))) => {
                    &&& content(payload) == channel::payload_at(before.channel, before.received)
                    &&& before.received < channel::payload_total(before.channel)
                    &&& after.received == before.received + 1
                },
                Ok(Async::Ready(None)) => {
                    &&& before.received == channel::payload_total(before.channel)
                    &&& after.received == before.received
                },
                Ok(Async::NotReady) => {
                    &&& after.received == before.received
                    &&& final(stream)@.polled == PollState::Waiting(*task)
                },
                Err(_) => false,
            }
        }),
{
}

/// Writing sends all bytes of the buffer, as one datagram to the peer of the stream, which is the
/// next one of it. If there is no room, nothing is sent, although it was offered, and `task` waits;
/// and if the server has closed the stream, that is an error.
pub proof fn write_sends_one_datagram(
    stream: &mut UdpStream,
    buf: &[u8],
    task: &NotifyHandle,
    r: Result<usize, StreamError>,
)
    requires
        call_ensures(UdpStream::write, (stream, buf, task), r),
    ensures
        ({
            let before = old(stream)@.outgoing;
            let after = final(stream)@.outgoing;
            &&& after.channel == before.channel
            &&& final(stream)@.peer == old(stream)@.peer
            &&& final(stream)@.incoming == old(stream)@.incoming
            &&& match r {
                Ok(n) => {
                    &&& n == buf@.len()
                    &&& after.sent == before.sent + 1
                    &&& channel::datagram_at(before.channel, before.sent) == (
                        old(stream)@.peer,
                        buf@,
                    )
                },
                Err(StreamError::WouldBlock) => {
                    &&& after.sent == before.sent && after.refused == before.refused + 1
                    &&& before.sent > before.limit
                    &&& final(stream)@.waiting == Some(*task)
                },
                Err(StreamError::Closed) => {
                    &&& after.sent == before.sent && after.refused == before.refused + 1
                    &&& before.sent == channel::datagram_total(before.channel)
                    &&& channel::datagram_closed_by(before.channel) == ChannelEnd::Receiver
                },
                Err(StreamError::BufferOverrun) => false,
            }
        }),
{
}

/// Sending a payload makes it the next datagram of the stream, to its peer. If there is no room, it
/// is handed back, and `task` waits; and if the server has closed the stream, that is an error.
pub proof fn start_send_sends_payload(
    stream: &mut UdpStream,
    payload: Bytes,
    task: &NotifyHandle,
    r: Result<AsyncSink<Bytes>, StreamError>,
)
    requires
        call_ensures(UdpStream::start_send, (stream, payload, task), r),
    ensures
        ({
            let before = old(stream)@.outgoing;
            let after = final(stream)@.outgoing;
            &&& after.channel == before.channel
            &&& final(stream)@.peer == old(stream)@.peer
            &&& final(stream)@.incoming == old(stream)@.incoming
            &&& match r {
                Ok(AsyncSink::Ready) => {
                    &&& after.sent == before.sent + 1
                    &&& channel::datagram_at(before.channel, before.sent) == (
                        old(stream)@.peer,
                        content(payload),
                    )
                },
                Ok(AsyncSink::NotReady(back)) => {
                    &&& content(back) == content(payload)
                    &&& after.sent == before.sent && after.refused == before.refused + 1
                    &&& before.sent > before.limit
                    &&& final(stream)@.waiting == Some(*task)
                },
                Err(e) => {
                    &&& e == StreamError::Closed
                    &&& after.sent == before.sent && after.refused == before.refused + 1
                    &&& before.sent == channel::datagram_total(before.channel)
                    &&& channel::datagram_closed_by(before.channel) == ChannelEnd::Receiver
                },
            }
        }),
{
}

/// A payload that a child gives to the socket is one that was written to the stream, unchanged: if
/// the write is the one at a position of the stream's datagrams, then so is the datagram that is
/// taken from the child there.
pub proof fn written_bytes_are_taken<E>(
    stream: &mut UdpStream,
    buf: &[u8],
    task: &NotifyHandle,
    nbytes: usize,
    m: ServerModel,
    index: int,
    datagram: DatagramModel,
)
    requires
        call_ensures(UdpStream::write, (stream, buf, task), Ok(nbytes)),
        consistent(m, StepModel::<E>::SendTo { index, datagram }),
        m.children[index].outgoing.channel == old(stream)@.outgoing.channel,
        m.children[index].outgoing.received == old(stream)@.outgoing.sent + 1,
    ensures
        datagram == (old(stream)@.peer, buf@),
{
    write_sends_one_datagram(stream, buf, task, Ok(nbytes));
}

/// Asking for room sends nothing and takes nothing. There is none only if more was sent than the
/// server buffers, and then `task` waits. It never fails.
pub proof fn asking_for_room_sends_nothing(
    stream: &mut UdpStream,
    task: &NotifyHandle,
    r: Result<Async<()>, StreamError>,
)
    requires
        call_ensures(UdpStream::poll_complete, (stream, task), r),
    ensures
        final(stream)@.peer == old(stream)@.peer,
        final(stream)@.incoming == old(stream)@.incoming,
        final(stream)@.polled == old(stream)@.polled,
        final(stream)@.outgoing == old(stream)@.outgoing,
        match r {
            Ok(Async::Ready(_)) => final(stream)@.waiting is None,
            Ok(Async::NotReady) => {
                &&& final(stream)@.waiting == Some(*task)
                &&& old(stream)@.outgoing.sent > old(stream)@.outgoing.limit
            },
            Err(_) => false,
        },
{
}

/// Flushing and shutting down a stream succeed, and change nothing.
pub proof fn flush_and_shutdown_change_nothing(
    stream: &mut UdpStream,
    other: &mut UdpStream,
    flushed: Result<(), StreamError>,
    shut_down: Result<Async<()>, StreamError>,
)
    requires
        call_ensures(UdpStream::flush, (stream,), flushed),
        call_ensures(UdpStream::shutdown, (other,), shut_down),
    ensures
        flushed is Ok && *final(stream) == *old(stream),
        shut_down is Ok && shut_down->Ok_0 is Ready && *final(other) == *old(other),
{
}

/// What a channel answers is what the caller of a stream gets: the payload that came, or that went
/// back, is the same; a failure to receive counts as nothing yet, and a failure to send as closed;
/// and a write has the length of what was sent exactly if that was taken.
pub proof fn answers_are_passed_on(
    received: Result<Async<Option<Bytes>>, ()>,
    polled: Result<Async<Option<Bytes>>, StreamError>,
    answer: Result<AsyncSink<Datagram>, Datagram>,
    sent: Result<AsyncSink<Bytes>, StreamError>,
    len: usize,
    written: Result<usize, StreamError>,
)
    requires
        call_ensures(UdpStream::after_polled, (received,), polled),
        call_ensures(UdpStream::after_start_send, (answer,), sent),
        call_ensures(UdpStream::after_write, (sent, len), written),
    ensures
        polled is Ok,
        received is Ok ==> polled->Ok_0 == received->Ok_0,
        received is Err ==> polled->Ok_0 is NotReady,
        sent is Err <==> answer is Err,
        sent is Err ==> sent->Err_0 is Closed,
        sent is Ok && sent->Ok_0 is Ready <==> answer is Ok && answer->Ok_0 is Ready,
        sent matches Ok(AsyncSink::NotReady(payload)) ==> (answer matches Ok(AsyncSink::NotReady(d))
            && d.1 == payload),
        written is Ok <==> answer is Ok && answer->Ok_0 is Ready,
        written is Ok ==> written->Ok_0 == len,
        written is Err ==> (written->Err_0 is Closed <==> answer is Err) && (
        written->Err_0 is WouldBlock <==> answer is Ok),
{
}

/// A new server has the socket that it is given, no children and nothing parked, and can be polled.
pub proof fn new_server_is_empty<S>(socket: S, r: UdpServer<S>)
    requires
        call_ensures(UdpServer::<S>::bind, (socket,), r),
    ensures
        r.socket() == socket,
        r@.children =~= Seq::<ChildModel>::empty(),
        r@.parked is None,
        r@.valid(),
{
}

/// A server can be polled in every state in which each peer has one child, the children have not
/// closed their channels, and what is pending for a child is the last datagram taken from it. It
/// can receive if nothing is parked.
pub proof fn state_is_valid<E>(m: ServerModel)
    requires
        forall|i: int, j: int|
            0 <= i < j < m.children.len() ==> (#[trigger] m.children[i]).peer != (
            #[trigger] m.children[j]).peer,
        forall|i: int| 0 <= i < m.children.len() ==> (#[trigger] m.children[i]).outgoing.open,
        forall|i: int|
            0 <= i < m.children.len() ==> {
                let child = #[trigger] m.children[i];
                child.pending matches Some(datagram) ==> child.outgoing.received > 0 && datagram
                    == channel::datagram_at(
                    child.outgoing.channel,
                    (child.outgoing.received - 1) as nat,
                )
            },
    ensures
        m.valid(),
        m.parked is None ==> consistent(m, StepModel::<E>::RecvFrom),
        consistent(m, StepModel::<E>::Done(Ok(Async::NotReady))),
{
}

/// Looking up an address gives the child that is there for it and no stream; or, if there is none,
/// a new stream to that address, with room for eight datagrams each way beside the one that a
/// sender is always owed, and a new child that shares its channels.
pub proof fn look_up_finds_or_makes_child<S>(
    streams: &mut Vec<(SocketAddr, UdpChild)>,
    address: SocketAddr,
    child: &mut UdpChild,
    new_stream: Option<UdpStream>,
)
    requires
        call_ensures(
            UdpServer::<S>::get_or_create_child,
            (streams, address),
            (child, new_stream),
        ),
    ensures
        new_stream is None <==> exists|i: int|
            0 <= i < old(streams)@.len() && (#[trigger] old(streams)@[i]).0 == address,
        new_stream is None ==> exists|i: int|
            {
                &&& 0 <= i < old(streams)@.len()
                &&& (#[trigger] old(streams)@[i]).0 == address
                &&& old(streams)@[i].1 == *old(child)
                &&& final(streams)@ == old(streams)@.update(i, (address, *final(child)))
            },
        new_stream matches Some(stream) ==> {
            let made = old(child).model(address);
            &&& final(streams)@ == old(streams)@.push((address, *final(child)))
            &&& stream@.peer == address
            &&& stream@.incoming.channel == made.incoming.channel
            &&& stream@.incoming.received == 0
            &&& stream@.incoming.open
            &&& stream@.outgoing.channel == made.outgoing.channel
            &&& stream@.outgoing.sent == 0
            &&& stream@.outgoing.limit == 8
            &&& made.incoming.sent == 0
            &&& made.incoming.limit == 8
            &&& made.outgoing.received == 0
            &&& made.outgoing.open
            &&& made.pending is None
        },
{
}

/// A socket is bound to the wildcard address of the family of the address that it is to be
/// connected to, with no port of its own.
pub proof fn bind_address_is_wildcard(address: &SocketAddr, r: SocketAddr)
    requires
        call_ensures(bind_address, (address,), r),
    ensures
        match r {
            SocketAddr::V4(a) => address is V4 && a.ip == 0 && a.port == 0,
            SocketAddr::V6(a) => address is V6 && a.ip == 0 && a.port == 0 && a.flowinfo == 0
                && a.scope_id == 0,
        },
{
}

/// A connected socket reads and writes as many bytes as the socket says. An answer that it is not
/// ready is an error to the caller, who would have to wait, and an error of its own is passed on.
pub proof fn connected_socket_passes_answers_on<S, E>(
    inner: S,
    socket: UdpAsyncSocket<S>,
    answer: Result<Async<usize>, E>,
    read: Result<usize, SocketError<E>>,
    written: Result<usize, SocketError<E>>,
)
    requires
        call_ensures(UdpAsyncSocket::<S>::connect, (inner,), socket),
        call_ensures(UdpAsyncSocket::<S>::read::<E>, (&socket, answer), read),
        call_ensures(UdpAsyncSocket::<S>::write::<E>, (&socket, answer), written),
    ensures
        socket.0 == inner,
        read == written,
        read is Ok <==> answer is Ok && answer->Ok_0 is Ready,
        read is Ok ==> (answer->Ok_0)->Ready_0 == read->Ok_0,
        read is Err && read->Err_0 is WouldBlock <==> answer is Ok && answer->Ok_0 is NotReady,
        read is Err && read->Err_0 is Io <==> answer is Err,
        answer is Err ==> (read->Err_0)->Io_0 == answer->Err_0,
{
}

/// A datagram of up to 2048 bytes is received whole, and eight datagrams are buffered for each
/// child.
pub proof fn limits()
    ensures
        MAX_DATAGRAM == 2048,
        UDP_STREAM_BUFFER_DATAGRAMS == 8,
{
}

/// Whether the server turns to incoming datagrams: to the one that was parked, which is not parked
/// then, or to the socket.
pub open spec fn turns_to_incoming<E>(
    parked: Option<DatagramModel>,
    to: (ServerModel, StepModel<E>),
) -> bool {
    &&& to.0.parked is None
    &&& match parked {
        Some(d) => to.1 matches StepModel::Dispatch { datagram } && datagram == d,
        None => to.1 is RecvFrom,
    }
}

/// A datagram that the socket is not ready for is pending, and the server turns to incoming ones.
/// After any other answer the next datagram of the same child follows, and nothing is kept of the
/// one that the socket is done with.
pub proof fn answer_to_datagram_decides<S, E>(
    server: &mut UdpServer<S>,
    index: usize,
    datagram: Datagram,
    answer: Result<Async<usize>, E>,
    r: Step<E>,
)
    requires
        index < old(server)@.children.len(),
        call_ensures(UdpServer::<S>::after_sent::<E>, (server, index, datagram, answer), r),
    ensures
        ({
            let (before, after) = (old(server)@, final(server)@);
            &&& after.children.len() == before.children.len()
            &&& forall|i: int|
                0 <= i < before.children.len() && i != index ==> after.children[i]
                    == before.children[i]
            &&& if answer matches Ok(Async::NotReady) {
                &&& after.children[index as int].pending == Some((datagram.0, content(datagram.1)))
                &&& after.children[index as int].peer == before.children[index as int].peer
                &&& after.children[index as int].outgoing == before.children[index as int].outgoing
                &&& after.children[index as int].incoming == before.children[index as int].incoming
                &&& turns_to_incoming(before.parked, (after, r@))
            } else {
                &&& after == before
                &&& r@ matches StepModel::Dequeue { index: i } && i == index
            }
        }),
{
}

/// A datagram that a child gives goes to the socket. A child that is at its end is removed, and no
/// other; a child that has none yet, or fails, stays. After a failure the server turns to incoming
/// datagrams.
pub proof fn answer_of_child_decides<S, E>(
    server: &mut UdpServer<S>,
    index: usize,
    answer: Result<Async<Option<Datagram>>, ()>,
    r: Step<E>,
)
    requires
        index < old(server)@.children.len(),
        call_ensures(UdpServer::<S>::after_dequeued::<E>, (server, index, answer), r),
    ensures
        ({
            let (before, after) = (old(server)@, final(server)@);
            match answer {
                Ok(Async::Ready(Some(d))) => {
                    &&& after == before
                    &&& r@ matches StepModel::SendTo { index: i, datagram } && i == index
                        && datagram == (d.0, content(d.1))
                },
                Ok(Async::Ready(None)) => {
                    &&& after.children.len() == before.children.len() - 1
                    &&& forall|i: int|
                        0 <= i < after.children.len() ==> is_same_but_for_pending(
                            #[trigger] after.children[i],
                            before.children[if i < index {
                                i
                            } else {
                                i + 1
                            }],
                        )
                },
                Ok(Async::NotReady) => {
                    &&& after.children.len() == before.children.len()
                    &&& forall|i: int|
                        0 <= i < after.children.len() ==> is_same_but_for_pending(
                            #[trigger] after.children[i],
                            before.children[i],
                        )
                    &&& !(r@ matches StepModel::Dequeue { index: i } && i <= index)
                    &&& !(r@ matches StepModel::SendTo { index: i, .. } && i <= index)
                },
                Err(_) => {
                    &&& after.children == before.children
                    &&& turns_to_incoming(before.parked, (after, r@))
                },
            }
        }),
{
}

/// Whether the children are the same, but that what was pending may be on its way to the socket.
pub open spec fn is_same_but_for_pending(after: ChildModel, before: ChildModel) -> bool {
    &&& after.peer == before.peer
    &&& after.incoming == before.incoming
    &&& after.outgoing == before.outgoing
    &&& after.polled == before.polled
    &&& after.pending == before.pending || after.pending is None
}

/// What the socket receives is dispatched: all of the bytes that it says, and with the address that
/// it says. If it has nothing or fails, the poll is over, and the outcome is the socket's.
pub proof fn answer_to_receive_decides<S, E>(
    server: &mut UdpServer<S>,
    buffer: &[u8],
    answer: Result<Async<(usize, SocketAddr)>, E>,
    r: Step<E>,
)
    requires
        call_ensures(UdpServer::<S>::after_received::<E>, (server, buffer, answer), r),
    ensures
        final(server)@ == old(server)@,
        match answer {
            Ok(Async::Ready((nbytes, address))) => r@ matches StepModel::Dispatch { datagram }
                && datagram.0 == address && datagram.1 == buffer@.take(nbytes as int),
            Ok(Async::NotReady) => r matches Step::Done(Ok(Async::NotReady)),
            Err(error) => r matches Step::Done(Err(e)) && e == error,
        },
{
}

/// A payload that a child took yields the stream if there is a new one, and otherwise the server
/// turns to the next incoming datagram. One for which it has no room is parked, and the poll is
/// over. If the stream is closed, the child of the address is removed, and no other.
pub proof fn answer_to_payload_decides<S, E>(
    server: &mut UdpServer<S>,
    address: SocketAddr,
    new_stream: Option<UdpStream>,
    answer: Result<(), TrySendError<Bytes>>,
    r: Step<E>,
)
    requires
        old(server)@.valid(),
        call_ensures(
            UdpServer::<S>::after_dispatched::<E>,
            (server, address, new_stream, answer),
            r,
        ),
    ensures
        ({
            let (before, after) = (old(server)@, final(server)@);
            match answer {
                Ok(_) => {
                    &&& after.children == before.children
                    &&& match new_stream {
                        Some(stream) => after == before && (
                        r matches Step::Done(Ok(Async::Ready(Some(yielded)))) && yielded@
                            == stream@),
                        None => turns_to_incoming(before.parked, (after, r@)),
                    }
                },
                Err(TrySendError::Full(payload)) => {
                    &&& after.children == before.children
                    &&& after.parked == Some((address, content(payload)))
                    &&& r matches Step::Done(Ok(Async::NotReady))
                },
                Err(TrySendError::Disconnected(_)) => {
                    &&& turns_to_incoming(before.parked, (after, r@))
                    &&& forall|j: int|
                        0 <= j < after.children.len() ==> (#[trigger] after.children[j]).peer
                            != address
                    &&& forall|i: int|
                        0 <= i < before.children.len() && before.children[i].peer != address
                            ==> after.children.contains(#[trigger] before.children[i])
                },
            }
        }),
{
    let before = old(server)@;
    if answer matches Err(TrySendError::Disconnected(_)) {
        let kept = before.without_peer(address).children;
        if before.knows(address) {
            let at = before.index_of(address);
            without_peer_is_removal(before, address, at);
            assert forall|i: int|
                0 <= i < before.children.len() && before.children[i].peer != address implies
            kept.contains(#[trigger] before.children[i]) by {
                assert(kept[if i < at {
                    i
                } else {
                    i - 1
                }] == before.children[i]);
            }
            assert forall|j: int| 0 <= j < kept.len() implies (#[trigger] kept[j]).peer
                != address by {
                assert(before.children[if j < at {
                    j
                } else {
                    j + 1
                }].peer != address);
            }
        } else {
            without_unknown_peer(before, address);
            assert forall|i: int| 0 <= i < before.children.len() implies kept.contains(
                #[trigger] before.children[i],
            ) by {
                assert(kept[i] == before.children[i]);
            }
        }
    }
}

/// The socket of a server is what the caller leaves it as, and nothing else changes with it.
pub proof fn socket_is_the_callers<S>(server: &mut UdpServer<S>, socket: &mut S)
    requires
        call_ensures(UdpServer::<S>::socket_mut, (server,), socket),
    ensures
        *old(socket) == old(server).socket(),
        final(server).socket() == *final(socket),
        final(server)@ == old(server)@,
{
}

} // verus!
