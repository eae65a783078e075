//! What holds of a `UdpServer` over any sequence of polls, from when it was bound.
use futures::executor::NotifyHandle;
use vstd::prelude::*;

use crate::channel;
use crate::channel::{ChannelEnd, DatagramModel, PollState, TrySendError};
use crate::laws::{
    addresses_peer, are_joined, datagrams_sent, payloads_received, payloads_sent, settled_already,
    stream_sends_to_its_peer, takes_no_payload, yields,
};
use crate::model::{
    after_received, after_sent, after_sent_is_consistent, begin_outgoing,
    begin_outgoing_is_consistent, channel_step, channel_step_is_consistent, channel_steps,
    consistent, created, dispatch_cases, is_channel_step, is_new_stream, settles, stream_call,
    ChildModel, Outcome, ServerModel, StepModel, StreamModel,
};
use crate::net::SocketAddr;
use crate::poll::Async;

verus! {

/// Whether the stream that `child` communicates with has closed the channel of its datagrams, and
/// all that it ever sends were taken.
pub open spec fn gives_no_datagram(child: ChildModel) -> bool {
    &&& child.outgoing.received == channel::datagram_total(child.outgoing.channel)
    &&& channel::datagram_closed_by(child.outgoing.channel) == ChannelEnd::Sender
}

/// Whether the stream that `child` communicates with is closed: one of the two channels between
/// them is at its end, and it is the stream that closes it.
pub open spec fn stream_is_closed(child: ChildModel) -> bool {
    gives_no_datagram(child) || takes_no_payload(child)
}

/// How many datagrams of the child at `index` the socket is done with: all that were taken from
/// it, but for one that is pending or with the socket.
pub open spec fn sent_on<E>(m: ServerModel, step: StepModel<E>, index: int) -> int {
    let held = m.children[index].pending is Some || (step is SendTo && step->SendTo_index == index);
    m.children[index].outgoing.received - if held {
        1int
    } else {
        0
    }
}

/// The payload of `datagram`, if there is one and it is from `peer`.
pub open spec fn payload_from(datagram: Option<DatagramModel>, peer: SocketAddr) -> Seq<Seq<u8>> {
    match datagram {
        Some(datagram) => if datagram.0 == peer {
            seq![datagram.1]
        } else {
            seq![]
        },
        None => seq![],
    }
}

/// The incoming datagram that the server holds: the one that is parked or about to be dispatched.
pub open spec fn in_hand<E>(m: ServerModel, step: StepModel<E>) -> Option<DatagramModel> {
    match step {
        StepModel::Dispatch { datagram } => Some(datagram),
        _ => m.parked,
    }
}

/// The payloads from the peer of the child at `index`, since there is that child: those that were
/// handed to it, and one that the server holds.
pub open spec fn payloads_of<E>(m: ServerModel, step: StepModel<E>, index: int) -> Seq<Seq<u8>> {
    payloads_sent(m.children[index].incoming) + payload_from(
        in_hand(m, step),
        m.children[index].peer,
    )
}

/// Whether the step is to yield a stream for `peer`.
pub open spec fn yields_for<E>(step: StepModel<E>, peer: SocketAddr) -> bool {
    match step {
        StepModel::Done(Ok(Async::Ready(Some(stream)))) => stream.peer == peer,
        _ => false,
    }
}

/// Whether the child at `i` goes on as the child at `j`, while the socket gets done with `sent`
/// datagrams of its stream, and `received` are the payloads that come from its peer.
pub open spec fn goes_on<E>(
    from: (ServerModel, StepModel<E>),
    i: int,
    to: (ServerModel, StepModel<E>),
    j: int,
    sent: int,
    received: Seq<Seq<u8>>,
) -> bool {
    let before = from.0.children[i];
    let after = to.0.children[j];
    &&& 0 <= j < to.0.children.len()
    &&& after.peer == before.peer
    &&& after.incoming.channel == before.incoming.channel
    &&& after.outgoing.channel == before.outgoing.channel
    &&& sent_on(to.0, to.1, j) == sent_on(from.0, from.1, i) + sent
    &&& payloads_of(to.0, to.1, j) == payloads_of(from.0, from.1, i) + received
    &&& !yields_for(to.1, before.peer)
    &&& is_channel_step(to.1) ==> after.incoming == before.incoming && after.outgoing
        == before.outgoing
}

/// Whether a child of `peer` that was there is gone: the peer is not known, or a new stream is
/// yielded for it.
pub open spec fn is_gone<E>(to: (ServerModel, StepModel<E>), peer: SocketAddr) -> bool {
    !to.0.knows(peer) || yields_for(to.1, peer)
}

/// Whether the child at `i` goes on, or its stream is closed and it is gone.
pub open spec fn goes_on_or_ends<E>(
    from: (ServerModel, StepModel<E>),
    i: int,
    to: (ServerModel, StepModel<E>),
    sent: int,
    received: Seq<Seq<u8>>,
) -> bool {
    ||| exists|j: int| goes_on(from, i, to, j, sent, received)
    ||| stream_is_closed(from.0.children[i]) && is_gone(to, from.0.children[i].peer)
}

proof fn dequeue_goes_on<E>(
    m: ServerModel,
    index: int,
    outcome: Outcome,
    task: NotifyHandle,
    i: int,
)
    requires
        consistent(m, StepModel::<E>::Dequeue { index }),
        channel_step(m, StepModel::<E>::Dequeue { index }, outcome, task) is Some,
        0 <= i < m.children.len(),
    ensures
        goes_on_or_ends(
            (m, StepModel::<E>::Dequeue { index }),
            i,
            channel_step(m, StepModel::<E>::Dequeue { index }, outcome, task)->0,
            0,
            seq![],
        ),
{
    let from = (m, StepModel::<E>::Dequeue { index });
    let to = channel_step(m, StepModel::<E>::Dequeue { index }, outcome, task)->0;
    if let Outcome::Dequeued(answer) = outcome {
        let j = if answer == Ok::<Async<Option<DatagramModel>>, ()>(Async::Ready(None)) && i
            > index {
            i - 1
        } else {
            i
        };
        if !(answer == Ok::<Async<Option<DatagramModel>>, ()>(Async::Ready(None)) && i == index) {
            assert(payloads_of(to.0, to.1, j) =~= payloads_of(from.0, from.1, i) + seq![]);
            assert(goes_on(from, i, to, j, 0, seq![]));
        } else {
            assert forall|k: int| 0 <= k < to.0.children.len() implies (
            #[trigger] to.0.children[k]).peer != m.children[i].peer by {
                assert(m.children[if k < i {
                    k
                } else {
                    k + 1
                }].peer != m.children[i].peer);
            }
        }
    }
}

proof fn dispatch_goes_on<E>(
    m: ServerModel,
    datagram: DatagramModel,
    outcome: Outcome,
    task: NotifyHandle,
    i: int,
)
    requires
        consistent(m, StepModel::<E>::Dispatch { datagram }),
        channel_step(m, StepModel::<E>::Dispatch { datagram }, outcome, task) is Some,
        0 <= i < m.children.len(),
    ensures
        goes_on_or_ends(
            (m, StepModel::<E>::Dispatch { datagram }),
            i,
            channel_step(m, StepModel::<E>::Dispatch { datagram }, outcome, task)->0,
            0,
            seq![],
        ),
{
    let from = (m, StepModel::<E>::Dispatch { datagram });
    let to = channel_step(m, StepModel::<E>::Dispatch { datagram }, outcome, task)->0;
    if let Outcome::Dispatched { new_stream, answer } = outcome {
        dispatch_cases::<E>(m, datagram, new_stream, answer, task);
        let index = created(m, new_stream).index_of(datagram.0);
        let closed = answer matches Err(TrySendError::Disconnected(_));
        let j = if closed && i > index {
            i - 1
        } else {
            i
        };
        if !(closed && i == index) {
            assert(i != index ==> m.children[i].peer != datagram.0);
            assert(payloads_of(to.0, to.1, j) =~= payloads_of(from.0, from.1, i) + seq![]);
            assert(goes_on(from, i, to, j, 0, seq![]));
        } else {
            assert forall|k: int| 0 <= k < to.0.children.len() implies (
            #[trigger] to.0.children[k]).peer != m.children[i].peer by {
                assert(m.children[if k < i {
                    k
                } else {
                    k + 1
                }].peer != m.children[i].peer);
            }
        }
    }
}

proof fn going_on_is_transitive<E>(
    from: (ServerModel, StepModel<E>),
    i: int,
    through: (ServerModel, StepModel<E>),
    k: int,
    to: (ServerModel, StepModel<E>),
    sent: int,
    received: Seq<Seq<u8>>,
)
    requires
        goes_on(from, i, through, k, sent, received),
        is_channel_step(through.1),
        goes_on_or_ends(through, k, to, 0, seq![]),
    ensures
        goes_on_or_ends(from, i, to, sent, received),
{
    if exists|j: int| goes_on(through, k, to, j, 0, seq![]) {
        let j = choose|j: int| goes_on(through, k, to, j, 0, seq![]);
        assert(payloads_of(to.0, to.1, j) =~= payloads_of(from.0, from.1, i) + received);
        assert(goes_on(from, i, to, j, sent, received));
    }
}

proof fn stays_gone<E>(
    from: (ServerModel, StepModel<E>),
    outcome: Outcome,
    task: NotifyHandle,
    peer: SocketAddr,
)
    requires
        consistent(from.0, from.1),
        channel_step(from.0, from.1, outcome, task) is Some,
        !from.0.knows(peer),
    ensures
        is_gone(channel_step(from.0, from.1, outcome, task)->0, peer),
{
    let to = channel_step(from.0, from.1, outcome, task)->0;
    match (from.1, outcome) {
        (StepModel::Dequeue { index }, Outcome::Dequeued(answer)) => {
            assert forall|j: int| 0 <= j < to.0.children.len() implies (
            #[trigger] to.0.children[j]).peer != peer by {
                if answer == Ok::<Async<Option<DatagramModel>>, ()>(Async::Ready(None)) && j
                    >= index {
                    assert(from.0.children[j + 1].peer != peer);
                } else {
                    assert(from.0.children[j].peer != peer);
                }
            }
        },
        (StepModel::Dispatch { datagram }, Outcome::Dispatched { new_stream, answer }) => {
            dispatch_cases::<E>(from.0, datagram, new_stream, answer, task);
            if !yields_for(to.1, peer) {
                let index = created(from.0, new_stream).index_of(datagram.0);
                assert forall|j: int| 0 <= j < to.0.children.len() implies (
                #[trigger] to.0.children[j]).peer != peer by {
                    if j < from.0.children.len() {
                        assert(from.0.children[j].peer != peer);
                    }
                    if j + 1 < from.0.children.len() {
                        assert(from.0.children[j + 1].peer != peer);
                    }
                }
            }
        },
        _ => {},
    }
}

proof fn steps_go_on<E>(
    from: (ServerModel, StepModel<E>),
    outcomes: Seq<Outcome>,
    task: NotifyHandle,
    i: int,
)
    requires
        consistent(from.0, from.1),
        is_channel_step(from.1),
        channel_steps(from, outcomes, task) is Some,
        0 <= i < from.0.children.len(),
    ensures
        goes_on_or_ends(from, i, channel_steps(from, outcomes, task)->0, 0, seq![]),
    decreases outcomes.len(),
{
    if outcomes.len() == 0 {
        assert(payloads_of(from.0, from.1, i) =~= payloads_of(from.0, from.1, i) + seq![]);
        assert(goes_on(from, i, from, i, 0, seq![]));
    } else {
        steps_go_on(from, outcomes.drop_last(), task, i);
        steps_are_consistent(from, outcomes.drop_last(), task);
        let through = channel_steps(from, outcomes.drop_last(), task)->0;
        let to = channel_steps(from, outcomes, task)->0;
        if exists|k: int| goes_on(from, i, through, k, 0, seq![]) {
            let k = choose|k: int| goes_on(from, i, through, k, 0, seq![]);
            match through.1 {
                StepModel::Dequeue { index } => {
                    dequeue_goes_on::<E>(through.0, index, outcomes.last(), task, k);
                },
                StepModel::Dispatch { datagram } => {
                    dispatch_goes_on::<E>(through.0, datagram, outcomes.last(), task, k);
                },
                _ => {},
            }
            going_on_is_transitive(
                from,
                i,
                through,
                k,
                to,
                0,
                seq![],
            );
        } else {
            stays_gone(through, outcomes.last(), task, from.0.children[i].peer);
        }
    }
}

/// Steps through channels are consistent, and keep the datagram that the server holds until they
/// dispatch it.
pub proof fn steps_are_consistent<E>(
    from: (ServerModel, StepModel<E>),
    outcomes: Seq<Outcome>,
    task: NotifyHandle,
)
    requires
        consistent(from.0, from.1),
        channel_steps(from, outcomes, task) is Some,
    ensures
        ({
            let (m, step) = channel_steps(from, outcomes, task)->0;
            &&& consistent(m, step)
            &&& is_channel_step(step) || step is SendTo ==> in_hand(m, step) == in_hand(
                from.0,
                from.1,
            )
        }),
    decreases outcomes.len(),
{
    if outcomes.len() > 0 {
        steps_are_consistent(from, outcomes.drop_last(), task);
        let (m, step) = channel_steps(from, outcomes.drop_last(), task)->0;
        channel_step_is_consistent(m, step, outcomes.last(), task);
        if let (
            StepModel::Dispatch { datagram },
            Outcome::Dispatched { new_stream, answer },
        ) = (step, outcomes.last()) {
            dispatch_cases::<E>(m, datagram, new_stream, answer, task);
        }
    }
}

/// What a call of the server is given.
pub enum Input<E> {
    /// `poll` begins another poll.
    Poll,
    /// `sent` is given the socket's answer to a datagram.
    Sent(Result<Async<usize>, E>),
    /// `received` is given the socket's answer to a receive into the buffer.
    Received(Seq<u8>, Result<Async<(usize, SocketAddr)>, E>),
}

/// A call of the server, on behalf of a task.
pub struct Call<E> {
    pub input: Input<E>,
    pub task: NotifyHandle,
}

/// The datagram that the socket hands over in the call.
pub open spec fn received_in<E>(call: Call<E>) -> Option<DatagramModel> {
    match call.input {
        Input::Received(buffer, Ok(Async::Ready((nbytes, address)))) => Some(
            (address, buffer.take(nbytes as int)),
        ),
        _ => None,
    }
}

/// The datagram of `peer` that the socket is done with in the call, because it was sent or cannot
/// be sent.
pub open spec fn done_in<E>(
    from: (ServerModel, StepModel<E>),
    call: Call<E>,
    peer: SocketAddr,
) -> Seq<DatagramModel> {
    match (from.1, call.input) {
        (StepModel::SendTo { index, datagram }, Input::Sent(answer)) => {
            let is_done = answer != Ok::<Async<usize>, E>(Async::NotReady);
            if from.0.children[index].peer == peer && is_done {
                seq![datagram]
            } else {
                seq![]
            }
        },
        _ => seq![],
    }
}

/// Where the call sets out, before it takes steps through channels, if it is the one that is due:
/// the one that the last request names, or another poll after the last one is done.
pub open spec fn sets_out<E>(from: (ServerModel, StepModel<E>), call: Call<E>) -> Option<
    (ServerModel, StepModel<E>),
> {
    match (from.1, call.input) {
        (StepModel::Done(_), Input::Poll) => Some(begin_outgoing(from.0, 0)),
        (StepModel::SendTo { index, datagram }, Input::Sent(answer)) => Some(
            after_sent(from.0, index, datagram, answer),
        ),
        (StepModel::RecvFrom, Input::Received(buffer, answer)) => Some(
            after_received(from.0, buffer, answer),
        ),
        _ => None,
    }
}

/// Whether the call can lead from one state and request to another.
pub open spec fn leads<E>(
    from: (ServerModel, StepModel<E>),
    call: Call<E>,
    to: (ServerModel, StepModel<E>),
) -> bool {
    sets_out(from, call) is Some && settles(sets_out(from, call)->0, to, call.task)
}

/// All calls of a server so far, and the states and requests before, between and after them.
pub struct History<E> {
    pub states: Seq<(ServerModel, StepModel<E>)>,
    pub calls: Seq<Call<E>>,
}

impl<E> History<E> {
    /// Whether the call at `k` leads from the state before it to the state after it.
    pub open spec fn goes_on_at(self, k: int) -> bool {
        leads(self.states[k], self.calls[k], self.states[k + 1])
    }

    /// Whether this is the history of a server: it knows no peer and holds no datagram at first,
    /// and each call leads to the next state.
    pub open spec fn valid(self) -> bool {
        &&& self.states.len() == self.calls.len() + 1
        &&& self.states[0].0.children.len() == 0
        &&& self.states[0].0.parked is None
        &&& self.states[0].1 == StepModel::<E>::Done(Ok(Async::NotReady))
        &&& forall|k: int| 0 <= k < self.calls.len() ==> #[trigger] self.goes_on_at(k)
    }

    /// Whether the server knows the peer all the time after the state at `k`, up to the state at
    /// `n`, and yields no stream for it.
    pub open spec fn keeps(self, k: int, n: int, peer: SocketAddr) -> bool {
        forall|j: int|
            k < j <= n ==> (#[trigger] self.states[j]).0.knows(peer) && !yields_for(
                self.states[j].1,
                peer,
            )
    }

    /// The child of `peer` in the state at `n`.
    pub open spec fn child(self, n: int, peer: SocketAddr) -> ChildModel {
        self.states[n].0.children[self.states[n].0.index_of(peer)]
    }

    /// The payloads that the socket received from `peer` in the calls from `k` up to `n`.
    pub open spec fn received_from(self, k: int, n: int, peer: SocketAddr) -> Seq<Seq<u8>>
        decreases n - k,
    {
        if n <= k {
            seq![]
        } else {
            self.received_from(k, n - 1, peer) + payload_from(
                received_in(self.calls[n - 1]),
                peer,
            )
        }
    }

    /// The datagrams of the stream of `peer` that the socket was done with in the calls from `k` up
    /// to `n`: those that it took, and those that it refused with an error.
    pub open spec fn done_with(self, k: int, n: int, peer: SocketAddr) -> Seq<DatagramModel>
        decreases n - k,
    {
        if n <= k {
            seq![]
        } else {
            self.done_with(k, n - 1, peer) + done_in(self.states[n - 1], self.calls[n - 1], peer)
        }
    }

    /// The datagram of the stream of `peer` that was taken from it, and that the socket is not done
    /// with in the state at `n`: the one that is pending or with the socket.
    pub open spec fn held(self, n: int, peer: SocketAddr) -> Seq<DatagramModel> {
        let (m, step) = self.states[n];
        match (m.children[m.index_of(peer)].pending, step) {
            (Some(datagram), _) => seq![datagram],
            (None, StepModel::SendTo { index, datagram }) => if index == m.index_of(peer) {
                seq![datagram]
            } else {
                seq![]
            },
            _ => seq![],
        }
    }
}

/// A peer has one child.
pub proof fn index_is_unique(m: ServerModel, peer: SocketAddr, index: int)
    requires
        m.valid(),
        0 <= index < m.children.len(),
        m.children[index].peer == peer,
    ensures
        m.knows(peer),
        m.index_of(peer) == index,
{
}

proof fn setting_out_goes_on<E>(from: (ServerModel, StepModel<E>), call: Call<E>, i: int)
    requires
        consistent(from.0, from.1),
        sets_out(from, call) is Some,
        0 <= i < from.0.children.len(),
    ensures
        goes_on(
            from,
            i,
            sets_out(from, call)->0,
            i,
            done_in(from, call, from.0.children[i].peer).len() as int,
            payload_from(received_in(call), from.0.children[i].peer),
        ),
        (sets_out(from, call)->0).0.children[i].incoming == from.0.children[i].incoming,
        (sets_out(from, call)->0).0.children[i].outgoing == from.0.children[i].outgoing,
{
    let to = sets_out(from, call)->0;
    assert(payloads_of(to.0, to.1, i) =~= payloads_of(from.0, from.1, i) + payload_from(
        received_in(call),
        from.0.children[i].peer,
    ));
}

/// Setting out on a call is consistent.
pub proof fn setting_out_is_consistent<E>(from: (ServerModel, StepModel<E>), call: Call<E>)
    requires
        consistent(from.0, from.1),
        sets_out(from, call) is Some,
    ensures
        consistent((sets_out(from, call)->0).0, (sets_out(from, call)->0).1),
{
    match (from.1, call.input) {
        (StepModel::Done(_), Input::Poll) => {
            begin_outgoing_is_consistent::<E>(from.0, 0);
        },
        (StepModel::SendTo { index, datagram }, Input::Sent(answer)) => {
            after_sent_is_consistent(from.0, index, datagram, answer);
        },
        _ => {},
    }
}

/// A call is consistent.
pub proof fn call_is_consistent<E>(
    from: (ServerModel, StepModel<E>),
    call: Call<E>,
    to: (ServerModel, StepModel<E>),
)
    requires
        consistent(from.0, from.1),
        leads(from, call, to),
    ensures
        consistent(to.0, to.1),
{
    setting_out_is_consistent(from, call);
    let first = sets_out(from, call)->0;
    let outcomes = choose|outcomes: Seq<Outcome>| #[trigger]
        channel_steps(first, outcomes, call.task) == Some(to);
    steps_are_consistent(first, outcomes, call.task);
}

/// A call leaves a child to go on, unless its stream is closed and the call removes it: it is known
/// as before, under its peer, and no second stream is yielded for that. The socket is done with one
/// more datagram of it exactly if it was given one and did not answer that it is not ready. What
/// came from its peer and was handed to it, or is parked, grows by what the socket received from
/// the peer in this call.
pub proof fn child_goes_on_while_stream_is_open<E>(
    from: (ServerModel, StepModel<E>),
    call: Call<E>,
    to: (ServerModel, StepModel<E>),
    i: int,
)
    requires
        consistent(from.0, from.1),
        leads(from, call, to),
        0 <= i < from.0.children.len(),
    ensures
        goes_on_or_ends(
            from,
            i,
            to,
            done_in(from, call, from.0.children[i].peer).len() as int,
            payload_from(received_in(call), from.0.children[i].peer),
        ),
{
    let first = sets_out(from, call)->0;
    let sent = done_in(from, call, from.0.children[i].peer).len() as int;
    let received = payload_from(received_in(call), from.0.children[i].peer);
    setting_out_goes_on(from, call, i);
    setting_out_is_consistent(from, call);
    if is_channel_step(first.1) {
        let outcomes = choose|outcomes: Seq<Outcome>| #[trigger]
            channel_steps(first, outcomes, call.task) == Some(to);
        steps_go_on(first, outcomes, call.task, i);
        going_on_is_transitive(from, i, first, i, to, sent, received);
    } else {
        settled_already(first, to, call.task);
        assert(goes_on(from, i, to, i, sent, received));
    }
}

/// The state is consistent with the request after any calls.
pub proof fn history_is_consistent<E>(h: History<E>, n: int)
    requires
        h.valid(),
        0 <= n < h.states.len(),
    ensures
        consistent(h.states[n].0, h.states[n].1),
    decreases n,
{
    if n > 0 {
        history_is_consistent(h, n - 1);
        assert(h.goes_on_at(n - 1));
        call_is_consistent(h.states[n - 1], h.calls[n - 1], h.states[n]);
    }
}

proof fn yielding_step<E>(
    m: ServerModel,
    step: StepModel<E>,
    outcome: Outcome,
    task: NotifyHandle,
    stream: StreamModel,
)
    requires
        consistent(m, step),
        channel_step(m, step, outcome, task) is Some,
        yields((channel_step(m, step, outcome, task)->0).1, stream),
    ensures
        ({
            let m2 = (channel_step(m, step, outcome, task)->0).0;
            let child = m2.children.last();
            &&& is_new_stream(stream, stream.peer)
            &&& step == StepModel::<E>::Dispatch { datagram: (stream.peer, stream.next_payload()) }
            &&& m2.parked is None
            &&& m2.children.len() > 0
            &&& are_joined(child, stream)
            &&& child.incoming.sent == 1
            &&& child.outgoing.received == 0
            &&& child.pending is None
        }),
{
    if let (
        StepModel::Dispatch { datagram },
        Outcome::Dispatched { new_stream, answer },
    ) = (step, outcome) {
        dispatch_cases::<E>(m, datagram, new_stream, answer, task);
    }
}

/// A stream is yielded for one datagram of its peer, which was parked or is received in the same
/// call. It is joined to a new child, which is handed the payload of that datagram and nothing else
/// yet, and nothing is parked.
pub proof fn stream_is_yielded_for_datagram<E>(
    from: (ServerModel, StepModel<E>),
    call: Call<E>,
    to: (ServerModel, StepModel<E>),
    stream: StreamModel,
)
    requires
        consistent(from.0, from.1),
        leads(from, call, to),
        yields(to.1, stream),
    ensures
        is_new_stream(stream, stream.peer),
        payload_from(from.0.parked, stream.peer) + payload_from(received_in(call), stream.peer)
            == seq![stream.next_payload()],
        to.0.knows(stream.peer),
        ({
            let index = to.0.index_of(stream.peer);
            &&& are_joined(to.0.children[index], stream)
            &&& sent_on(to.0, to.1, index) == 0
            &&& payloads_of(to.0, to.1, index) == seq![stream.next_payload()]
        }),
{
    let first = sets_out(from, call)->0;
    setting_out_is_consistent(from, call);
    call_is_consistent(from, call, to);
    let outcomes = choose|outcomes: Seq<Outcome>| #[trigger]
        channel_steps(first, outcomes, call.task) == Some(to);
    if outcomes.len() == 0 {
        assert(to == first);
    }
    steps_are_consistent(first, outcomes.drop_last(), call.task);
    let (m, step) = channel_steps(first, outcomes.drop_last(), call.task)->0;
    yielding_step(m, step, outcomes.last(), call.task, stream);
    let index = to.0.children.len() - 1;
    index_is_unique(to.0, stream.peer, index);
    assert(payload_from(from.0.parked, stream.peer) + payload_from(
        received_in(call),
        stream.peer,
    ) =~= seq![stream.next_payload()]);
    assert(payloads_of(to.0, to.1, index) =~= seq![stream.next_payload()]);
}

/// Whether, in the state at `n`, the child of `peer` is as it is to be for the stream that was
/// yielded in the state at `k`: the socket is done with the first datagrams of the stream, as many
/// as `sent_on` says, and what was handed to the child, or is parked, is what was received.
spec fn serves<E>(h: History<E>, k: int, n: int, stream: StreamModel) -> bool {
    let (m, step) = h.states[n];
    let index = m.index_of(stream.peer);
    &&& m.knows(stream.peer)
    &&& are_joined(m.children[index], stream)
    &&& h.done_with(k, n, stream.peer) == Seq::new(
        sent_on(m, step, index) as nat,
        |p: int| channel::datagram_at(stream.outgoing.channel, p as nat),
    )
    &&& payloads_of(m, step, index) == payload_from(h.states[k - 1].0.parked, stream.peer)
        + h.received_from(k - 1, n, stream.peer)
}

/// Whether the stream that was yielded in the state at `k` is closed by the state at `n`: up to one
/// of the states between, its child was kept, and the stream is closed there, when the next call
/// removes the child.
pub open spec fn is_closed_by<E>(h: History<E>, k: int, n: int, stream: StreamModel) -> bool {
    exists|i: int|
        k <= i < n && #[trigger] h.keeps(k, i, stream.peer) && !h.keeps(k, i + 1, stream.peer)
            && are_joined(h.child(i, stream.peer), stream) && stream_is_closed(
            h.child(i, stream.peer),
        )
}

proof fn call_serves<E>(h: History<E>, k: int, n: int, stream: StreamModel)
    requires
        h.valid(),
        0 < k <= n < h.calls.len(),
        serves(h, k, n, stream),
    ensures
        ({
            ||| serves(h, k, n + 1, stream) && !yields_for(h.states[n + 1].1, stream.peer)
            ||| stream_is_closed(h.child(n, stream.peer)) && is_gone(h.states[n + 1], stream.peer)
        }),
{
    let from = h.states[n];
    let to = h.states[n + 1];
    let call = h.calls[n];
    let peer = stream.peer;
    let i = from.0.index_of(peer);
    let done = done_in(from, call, peer);
    let received = payload_from(received_in(call), peer);
    history_is_consistent(h, n);
    history_is_consistent(h, n + 1);
    assert(h.goes_on_at(n));
    child_goes_on_while_stream_is_open(from, call, to, i);
    if exists|j: int| goes_on(from, i, to, j, done.len() as int, received) {
        let j = choose|j: int| goes_on(from, i, to, j, done.len() as int, received);
        index_is_unique(to.0, peer, j);
        if done.len() > 0 {
            index_is_unique(from.0, peer, from.1->SendTo_index);
        }
        assert(h.done_with(k, n + 1, peer) =~= Seq::new(
            sent_on(to.0, to.1, j) as nat,
            |p: int| channel::datagram_at(stream.outgoing.channel, p as nat),
        ));
        assert(payloads_of(to.0, to.1, j) =~= payload_from(h.states[k - 1].0.parked, peer)
            + h.received_from(k - 1, n + 1, peer));
    }
}

proof fn serves_while_kept<E>(h: History<E>, k: int, n: int, stream: StreamModel)
    requires
        h.valid(),
        0 <= k <= n < h.states.len(),
        yields(h.states[k].1, stream),
    ensures
        0 < k,
        is_new_stream(stream, stream.peer),
        payload_from(h.states[k - 1].0.parked, stream.peer) + payload_from(
            received_in(h.calls[k - 1]),
            stream.peer,
        ) == seq![stream.next_payload()],
        h.keeps(k, n, stream.peer) ==> serves(h, k, n, stream),
        !h.keeps(k, n, stream.peer) ==> is_closed_by(h, k, n, stream),
    decreases n,
{
    if n == k {
        history_is_consistent(h, k - 1);
        assert(h.goes_on_at(k - 1));
        stream_is_yielded_for_datagram(h.states[k - 1], h.calls[k - 1], h.states[k], stream);
        reveal_with_fuel(History::received_from, 2);
        assert(payloads_of(
            h.states[k].0,
            h.states[k].1,
            h.states[k].0.index_of(stream.peer),
        ) =~= payload_from(h.states[k - 1].0.parked, stream.peer) + h.received_from(
            k - 1,
            k,
            stream.peer,
        ));
        assert(h.done_with(k, k, stream.peer) =~= Seq::new(
            0,
            |p: int| channel::datagram_at(stream.outgoing.channel, p as nat),
        ));
    } else {
        serves_while_kept(h, k, n - 1, stream);
        if h.keeps(k, n - 1, stream.peer) {
            call_serves(h, k, n - 1, stream);
        } else {
            assert(!h.keeps(k, n, stream.peer));
            let i = choose|i: int|
                k <= i < n - 1 && #[trigger] h.keeps(k, i, stream.peer) && !h.keeps(
                    k,
                    i + 1,
                    stream.peer,
                ) && are_joined(h.child(i, stream.peer), stream) && stream_is_closed(
                    h.child(i, stream.peer),
                );
            assert(h.keeps(k, i, stream.peer));
        }
    }
}

/// A peer stays known, and gets no second stream, while its stream is open: from the state at `k`,
/// in which the stream is yielded, on, the server knows the peer, by the child that is joined to
/// the stream, unless the stream is closed.
pub proof fn peer_is_known_while_stream_is_open<E>(
    h: History<E>,
    k: int,
    n: int,
    stream: StreamModel,
)
    requires
        h.valid(),
        0 <= k <= n < h.states.len(),
        yields(h.states[k].1, stream),
    ensures
        h.keeps(k, n, stream.peer) || is_closed_by(h, k, n, stream),
        h.keeps(k, n, stream.peer) ==> h.states[n].0.knows(stream.peer) && are_joined(
            h.child(n, stream.peer),
            stream,
        ),
{
    serves_while_kept(h, k, n, stream);
}

/// No two open streams have the same peer: when a second one is yielded for the same peer, the
/// first one is closed.
pub proof fn peer_has_one_open_stream<E>(
    h: History<E>,
    k: int,
    n: int,
    first: StreamModel,
    second: StreamModel,
)
    requires
        h.valid(),
        0 <= k < n < h.states.len(),
        yields(h.states[k].1, first),
        yields(h.states[n].1, second),
        first.peer == second.peer,
    ensures
        is_closed_by(h, k, n, first),
{
    serves_while_kept(h, k, n, first);
    assert(yields_for(h.states[n].1, first.peer));
}

/// A peer is forgotten, and gets a second stream, only because its stream was closed: a stream of
/// which the server's ends are the first to go, so that the server closes both channels, is kept
/// for as long as the server is used.
pub proof fn outliving_stream_is_kept<E>(h: History<E>, k: int, n: int, stream: StreamModel)
    requires
        h.valid(),
        0 <= k <= n < h.states.len(),
        yields(h.states[k].1, stream),
        stream.payloads_closed_by_server(),
        stream.datagrams_closed_by_server(),
    ensures
        h.keeps(k, n, stream.peer),
        h.states[n].0.knows(stream.peer),
        are_joined(h.child(n, stream.peer), stream),
{
    serves_while_kept(h, k, n, stream);
}

/// Whether the states are those of a stream, one after another.
pub open spec fn is_stream_history(states: Seq<StreamModel>) -> bool {
    forall|k: int| 0 <= k < states.len() - 1 ==> #[trigger] stream_goes_on_at(states, k)
}

/// Whether a call of the stream leads from the state at `k` to the next one.
pub open spec fn stream_goes_on_at(states: Seq<StreamModel>, k: int) -> bool {
    stream_call(states[k], states[k + 1])
}

/// Whatever is done with a new stream, it keeps its peer and its channels, and sends to its peer
/// only.
pub proof fn stream_keeps_its_peer(states: Seq<StreamModel>, n: int)
    requires
        is_stream_history(states),
        0 <= n < states.len(),
        is_new_stream(states[0], states[0].peer),
    ensures
        states[n].peer == states[0].peer,
        states[n].incoming.channel == states[0].incoming.channel,
        states[n].outgoing.channel == states[0].outgoing.channel,
        states[n].incoming.open,
        addresses_peer(states[n]),
    decreases n,
{
    if n == 0 {
        stream_sends_to_its_peer(states[0], seq![], arbitrary());
    } else {
        stream_keeps_its_peer(states, n - 1);
        assert(stream_goes_on_at(states, n - 1));
        let before = states[n - 1];
        let after = states[n];
        if exists|payload: Seq<u8>| #[trigger] before.sends(payload) {
            let payload = choose|payload: Seq<u8>| #[trigger] before.sends(payload);
            stream_sends_to_its_peer(before, payload, arbitrary());
        } else {
            stream_sends_to_its_peer(before, seq![], arbitrary());
        }
        if exists|task: NotifyHandle| after == #[trigger] before.waiting_for_payload(task) {
            let task = choose|task: NotifyHandle| after == #[trigger] before.waiting_for_payload(
                task,
            );
            stream_sends_to_its_peer(before, seq![], task);
        }
        if exists|task: NotifyHandle| after == #[trigger] before.waiting_for_room(task) {
            let task = choose|task: NotifyHandle| after == #[trigger] before.waiting_for_room(task);
            stream_sends_to_its_peer(before, seq![], task);
        }
        let refused = before.after_refusal();
        stream_sends_to_its_peer(refused, seq![], arbitrary());
        if exists|task: NotifyHandle| after == #[trigger] refused.waiting_for_room(task) {
            let task = choose|task: NotifyHandle| after == #[trigger] refused.waiting_for_room(
                task,
            );
            stream_sends_to_its_peer(refused, seq![], task);
        }
    }
}

/// A stream gets what its peer sent: while it is open, and has come through `states`, the payloads
/// that it gave, then those that are queued for it, then the one that is parked are those that were
/// received from its peer, in that order, from the one on that the stream was yielded for. That one
/// was parked or is received in the call that yields the stream. What it gave was handed to it
/// before.
pub proof fn stream_gets_what_its_peer_sent<E>(
    h: History<E>,
    k: int,
    n: int,
    stream: StreamModel,
    states: Seq<StreamModel>,
)
    requires
        h.valid(),
        0 <= k <= n < h.states.len(),
        yields(h.states[k].1, stream),
        !is_closed_by(h, k, n, stream),
        is_stream_history(states),
        states.len() > 0,
        states[0] == stream,
        states.last().incoming.received <= h.child(n, stream.peer).incoming.sent,
    ensures
        0 < k,
        payload_from(h.states[k - 1].0.parked, stream.peer) + payload_from(
            received_in(h.calls[k - 1]),
            stream.peer,
        ) == seq![stream.next_payload()],
        payloads_received(states.last().incoming) + payloads_sent(
            h.child(n, stream.peer).incoming,
        ).skip(states.last().incoming.received as int) + payload_from(
            h.states[n].0.parked,
            stream.peer,
        ) == payload_from(h.states[k - 1].0.parked, stream.peer) + h.received_from(
            k - 1,
            n,
            stream.peer,
        ),
{
    serves_while_kept(h, k, n, stream);
    stream_keeps_its_peer(states, states.len() - 1);
    let child = h.child(n, stream.peer);
    let now = states.last();
    assert(h.goes_on_at(n - 1));
    assert(payloads_received(now.incoming) + payloads_sent(child.incoming).skip(
        now.incoming.received as int,
    ) =~= payloads_sent(child.incoming));
}

/// The socket gets what a stream sent: while the stream is open, and has come through `states`, the
/// datagrams that the socket took or refused with an error, then the one that it is not done with,
/// then those that are queued for it are those that the stream sent, in that order, each to its
/// peer. What was taken from the stream was sent before.
pub proof fn socket_gets_what_stream_sent<E>(
    h: History<E>,
    k: int,
    n: int,
    stream: StreamModel,
    states: Seq<StreamModel>,
)
    requires
        h.valid(),
        0 <= k <= n < h.states.len(),
        yields(h.states[k].1, stream),
        !is_closed_by(h, k, n, stream),
        is_stream_history(states),
        states.len() > 0,
        states[0] == stream,
        h.child(n, stream.peer).outgoing.received <= states.last().outgoing.sent,
    ensures
        h.done_with(k, n, stream.peer) + h.held(n, stream.peer) + datagrams_sent(
            states.last().outgoing,
        ).skip(h.child(n, stream.peer).outgoing.received as int) == datagrams_sent(
            states.last().outgoing,
        ),
        forall|p: int|
            0 <= p < states.last().outgoing.sent ==> (#[trigger] datagrams_sent(
                states.last().outgoing,
            )[p]).0 == stream.peer,
{
    serves_while_kept(h, k, n, stream);
    stream_keeps_its_peer(states, states.len() - 1);
    history_is_consistent(h, n);
    let child = h.child(n, stream.peer);
    let now = states.last();
    let taken = Seq::new(
        child.outgoing.received,
        |p: int| channel::datagram_at(child.outgoing.channel, p as nat),
    );
    assert(h.done_with(k, n, stream.peer) + h.held(n, stream.peer) =~= taken);
    assert(taken + datagrams_sent(now.outgoing).skip(child.outgoing.received as int)
        =~= datagrams_sent(now.outgoing));
}

/// Whether `task` waits for the next datagram of every child that a poll is past, and none of
/// their datagrams is pending: of those before the one whose datagrams it sends, and of all of them
/// once it receives. A child whose stream is being yielded was not asked yet.
pub open spec fn task_waits<E>(m: ServerModel, step: StepModel<E>, task: NotifyHandle) -> bool {
    forall|j: int|
        #![trigger m.children[j]]
        0 <= j < m.children.len() && is_past(step, j) ==> has_nothing_to_send(m.children[j], task)
            || yields_for(step, m.children[j].peer)
}

/// Whether `child` has no datagram to send, and `task` waits for the next one.
pub open spec fn has_nothing_to_send(child: ChildModel, task: NotifyHandle) -> bool {
    child.polled == PollState::Waiting(task) && child.pending is None
}

/// Whether a poll is past the outgoing datagrams of the child at `index`.
pub open spec fn is_past<E>(step: StepModel<E>, index: int) -> bool {
    match step {
        StepModel::SendTo { index: current, .. } => index < current,
        StepModel::Dequeue { index: current } => index < current,
        _ => true,
    }
}

proof fn step_leaves_task_waiting<E>(
    m: ServerModel,
    step: StepModel<E>,
    outcome: Outcome,
    task: NotifyHandle,
)
    requires
        consistent(m, step),
        task_waits(m, step, task),
        channel_step(m, step, outcome, task) is Some,
    ensures
        ({
            let (m2, step2) = channel_step(m, step, outcome, task)->0;
            task_waits(m2, step2, task)
        }),
{
    let (m2, step2) = channel_step(m, step, outcome, task)->0;
    match (step, outcome) {
        (StepModel::Dequeue { index }, Outcome::Dequeued(answer)) => {
            assert forall|j: int|
                #![trigger m2.children[j]]
                0 <= j < m2.children.len() && is_past(step2, j) implies has_nothing_to_send(
                m2.children[j],
                task,
            ) by {
                assert(j < index ==> has_nothing_to_send(m.children[j], task));
            }
        },
        (StepModel::Dispatch { datagram }, Outcome::Dispatched { new_stream, answer }) => {
            dispatch_cases::<E>(m, datagram, new_stream, answer, task);
            let index = created(m, new_stream).index_of(datagram.0);
            assert forall|j: int|
                #![trigger m2.children[j]]
                0 <= j < m2.children.len() && is_past(step2, j) implies has_nothing_to_send(
                m2.children[j],
                task,
            ) || yields_for(step2, m2.children[j].peer) by {
                assert(j < m.children.len() ==> has_nothing_to_send(m.children[j], task));
                assert(j + 1 < m.children.len() ==> has_nothing_to_send(m.children[j + 1], task));
            }
        },
        _ => {},
    }
}

proof fn steps_leave_task_waiting<E>(
    from: (ServerModel, StepModel<E>),
    outcomes: Seq<Outcome>,
    task: NotifyHandle,
)
    requires
        consistent(from.0, from.1),
        task_waits(from.0, from.1, task),
        channel_steps(from, outcomes, task) is Some,
    ensures
        ({
            let (m, step) = channel_steps(from, outcomes, task)->0;
            task_waits(m, step, task)
        }),
    decreases outcomes.len(),
{
    if outcomes.len() > 0 {
        steps_leave_task_waiting(from, outcomes.drop_last(), task);
        steps_are_consistent(from, outcomes.drop_last(), task);
        let (m, step) = channel_steps(from, outcomes.drop_last(), task)->0;
        step_leaves_task_waiting(m, step, outcomes.last(), task);
    }
}

/// A poll sends all that there is to send of every child that it gets past, and leaves its task
/// waiting for the next datagram, so that the task is notified when a stream has one. It gets past
/// all children unless the socket answers that it is not ready for a datagram, for which the task
/// waits then.
pub proof fn poll_leaves_task_waiting<E>(
    from: (ServerModel, StepModel<E>),
    call: Call<E>,
    to: (ServerModel, StepModel<E>),
)
    requires
        consistent(from.0, from.1),
        leads(from, call, to),
        call.input is Poll || task_waits(from.0, from.1, call.task),
        call.input != Input::<E>::Sent(Ok(Async::NotReady)),
    ensures
        task_waits(to.0, to.1, call.task),
{
    let first = sets_out(from, call)->0;
    setting_out_is_consistent(from, call);
    assert(task_waits(first.0, first.1, call.task)) by {
        assert forall|j: int|
            #![trigger first.0.children[j]]
            0 <= j < first.0.children.len() && is_past(first.1, j) implies {
            ||| has_nothing_to_send(first.0.children[j], call.task)
            ||| yields_for(first.1, first.0.children[j].peer)
        } by {
            assert(j < from.0.children.len());
            assert(from.0.children[j].polled == first.0.children[j].polled);
            assert(from.0.children[j].pending == first.0.children[j].pending);
        }
    }
    let outcomes = choose|outcomes: Seq<Outcome>| #[trigger]
        channel_steps(first, outcomes, call.task) == Some(to);
    steps_leave_task_waiting(first, outcomes, call.task);
}

} // verus!
