//! Bounded channels between the server and its streams, of `futures::sync::mpsc`.
//!
//! A channel is a first-in, first-out queue that two tasks share. What one end finds depends on
//! what the other end has done meanwhile, so whether a message is taken or found is left open
//! here; what is told of it holds whatever the other end does. The ends of a channel carry its
//! number and count the messages that went through them, and a message has one position in its
//! channel: the one that comes out at a position is the one that went in there. A channel has one
//! sending end, and in all its life a certain number of messages goes through it, its total: an
//! end that is told that the other one is gone has reached the total, since a channel that is
//! closed stays closed. It is closed once, by the first of its ends to go, which the end that is
//! told so knows to be the other one.
//!
//! The functions that take a task draw a number for it from a counter that the process has for
//! all of its tasks. It is full, and they panic, once it has counted up to half of `usize::MAX`,
//! which is out of reach on a machine with 64 bits.
use bytes::Bytes;
use futures::executor::NotifyHandle;
use futures::sync::mpsc::{Receiver, Sender};
use vstd::prelude::*;

use crate::buffer::content;
use crate::net::SocketAddr;
use crate::poll::{Async, AsyncSink};

verus! {

/// A payload, and the address it comes from or goes to.
pub type Datagram = (SocketAddr, Bytes);

/// What a datagram is made of.
pub type DatagramModel = (SocketAddr, Seq<u8>);

/// The address and the bytes of a datagram.
pub open spec fn datagram(d: Datagram) -> DatagramModel {
    (d.0, content(d.1))
}

/// The sending end of a channel.
pub struct SenderModel {
    /// The channel.
    pub channel: int,
    /// How many messages the channel can buffer, besides the one that the sender is always owed.
    pub limit: nat,
    /// How many messages have been sent.
    pub sent: nat,
    /// How many messages were offered and handed back.
    pub refused: nat,
}

/// The receiving end of a channel.
pub struct ReceiverModel {
    /// The channel.
    pub channel: int,
    /// How many messages have been received.
    pub received: nat,
    /// Whether this end has not closed the channel.
    pub open: bool,
}

/// What the last poll of a receiving end left behind.
pub enum PollState {
    /// It gave a message, or there was no poll yet.
    Open,
    /// It gave nothing, and the task of this handle is notified when there is something to give.
    Waiting(NotifyHandle),
    /// It gave the end of the channel, which has no message left and no sender: there will be no
    /// further messages.
    Ended,
}

/// One of the two ends of a channel.
pub enum ChannelEnd {
    Sender,
    Receiver,
}

/// The sending end after one more message.
pub open spec fn sent_one(tx: SenderModel) -> SenderModel {
    SenderModel { sent: tx.sent + 1, ..tx }
}

/// The sending end after one more message that was handed back.
pub open spec fn refused_one(tx: SenderModel) -> SenderModel {
    SenderModel { refused: tx.refused + 1, ..tx }
}

/// The receiving end after one more message.
pub open spec fn received_one(rx: ReceiverModel) -> ReceiverModel {
    ReceiverModel { received: rx.received + 1, ..rx }
}

/// Whether `rx` is the receiving end of the channel of `tx`, and has not closed it.
pub open spec fn is_open_end_of(rx: ReceiverModel, tx: SenderModel) -> bool {
    rx.channel == tx.channel && rx.open
}

/// `futures::sync::mpsc::Sender`, the sending end of a channel.
#[verifier::external_type_specification]
#[verifier::external_body]
#[verifier::reject_recursive_types(T)]
pub struct ExSender<T>(Sender<T>);

/// `futures::sync::mpsc::Receiver`, the receiving end of a channel.
#[verifier::external_type_specification]
#[verifier::external_body]
#[verifier::reject_recursive_types(T)]
pub struct ExReceiver<T>(Receiver<T>);

/// `futures::executor::NotifyHandle`, through which a task is told to poll again.
#[verifier::external_type_specification]
#[verifier::external_body]
pub struct ExNotifyHandle(NotifyHandle);

/// The state of the sending end of a channel of payloads.
pub uninterp spec fn payload_sender(tx: Sender<Bytes>) -> SenderModel;

/// The state of the receiving end of a channel of payloads.
pub uninterp spec fn payload_receiver(rx: Receiver<Bytes>) -> ReceiverModel;

/// What the last poll of the receiving end of a channel of payloads left behind.
pub uninterp spec fn payload_poll_state(rx: Receiver<Bytes>) -> PollState;

/// The number of payloads that go through a channel in its life.
pub uninterp spec fn payload_total(channel: int) -> nat;

/// The end that closes a channel of payloads, by being the first to go.
pub uninterp spec fn payload_closed_by(channel: int) -> ChannelEnd;

/// The payload at a position of a channel.
pub uninterp spec fn payload_at(channel: int, position: nat) -> Seq<u8>;

/// The state of the sending end of a channel of datagrams.
pub uninterp spec fn datagram_sender(tx: Sender<Datagram>) -> SenderModel;

/// The handle of the task that the last call of the sending end of a channel of datagrams left
/// waiting, if it had to wait. The task is notified when there is room.
pub uninterp spec fn datagram_waiting(tx: Sender<Datagram>) -> Option<NotifyHandle>;

/// The state of the receiving end of a channel of datagrams.
pub uninterp spec fn datagram_receiver(rx: Receiver<Datagram>) -> ReceiverModel;

/// What the last poll of the receiving end of a channel of datagrams left behind.
pub uninterp spec fn datagram_poll_state(rx: Receiver<Datagram>) -> PollState;

/// The number of datagrams that go through a channel in its life.
pub uninterp spec fn datagram_total(channel: int) -> nat;

/// The end that closes a channel of datagrams, by being the first to go.
pub uninterp spec fn datagram_closed_by(channel: int) -> ChannelEnd;

/// The datagram at a position of a channel.
pub uninterp spec fn datagram_at(channel: int, position: nat) -> DatagramModel;

/// Why a channel did not take a message, which is handed back.
#[derive(Debug, PartialEq, Eq)]
pub enum TrySendError<T> {
    /// The channel buffers as many messages as it can.
    Full(T),
    /// The receiving end is gone.
    Disconnected(T),
}

/// `futures::sync::mpsc::channel`, for payloads: the two ends of a new channel that can buffer
/// `buffer` messages. It panics on a `buffer` that its counter has no room for.
#[verifier::external_body]
pub(crate) fn payload_channel(buffer: usize) -> (r: (Sender<Bytes>, Receiver<Bytes>))
    requires
        buffer < usize::MAX / 4,
    ensures
        payload_sender(r.0) == (SenderModel {
            channel: payload_receiver(r.1).channel,
            limit: buffer as nat,
            sent: 0,
            refused: 0,
        }),
        payload_receiver(r.1).received == 0,
        payload_receiver(r.1).open,
        payload_poll_state(r.1) == PollState::Open,
{
    futures::sync::mpsc::channel(buffer)
}

/// `futures::sync::mpsc::channel`, for datagrams: the two ends of a new channel that can buffer
/// `buffer` messages. It panics on a `buffer` that its counter has no room for.
#[verifier::external_body]
pub(crate) fn datagram_channel(buffer: usize) -> (r: (Sender<Datagram>, Receiver<Datagram>))
    requires
        buffer < usize::MAX / 4,
    ensures
        datagram_sender(r.0) == (SenderModel {
            channel: datagram_receiver(r.1).channel,
            limit: buffer as nat,
            sent: 0,
            refused: 0,
        }),
        datagram_waiting(r.0) is None,
        datagram_receiver(r.1).received == 0,
        datagram_receiver(r.1).open,
        datagram_poll_state(r.1) == PollState::Open,
{
    futures::sync::mpsc::channel(buffer)
}

/// `futures::sync::mpsc::Sender::try_send`: the payload takes the next position of the channel,
/// or is handed back. A channel is full only once more messages were sent than it can buffer. It
/// is disconnected only if the receiving end closed it or was dropped, and then takes no message
/// any more. So it is not disconnected where the caller holds that end, as `_receiver`, and the
/// end has not closed the channel.
#[verifier::external_body]
pub(crate) fn try_send(
    tx: &mut Sender<Bytes>,
    payload: Bytes,
    _receiver: Option<&Receiver<Bytes>>,
) -> (r: Result<(), TrySendError<Bytes>>)
    ensures
        match r {
            Ok(()) => {
                &&& payload_sender(*final(tx)) == sent_one(payload_sender(*old(tx)))
                &&& payload_sender(*old(tx)).sent < payload_total(payload_sender(*old(tx)).channel)
                &&& content(payload) == payload_at(
                    payload_sender(*old(tx)).channel,
                    payload_sender(*old(tx)).sent,
                )
            },
            Err(TrySendError::Full(p)) => {
                &&& payload_sender(*final(tx)) == refused_one(payload_sender(*old(tx)))
                &&& payload_sender(*old(tx)).sent > payload_sender(*old(tx)).limit
                &&& content(p) == content(payload)
            },
            Err(TrySendError::Disconnected(p)) => {
                &&& payload_sender(*final(tx)) == refused_one(payload_sender(*old(tx)))
                &&& content(p) == content(payload)
                &&& payload_sender(*old(tx)).sent == payload_total(payload_sender(*old(tx)).channel)
                &&& payload_closed_by(payload_sender(*old(tx)).channel) == ChannelEnd::Receiver
                &&& _receiver matches Some(rx) ==> !is_open_end_of(
                    payload_receiver(*rx),
                    payload_sender(*old(tx)),
                )
            },
        },
{
    match tx.try_send(payload) {
        Ok(()) => Ok(()),
        Err(e) if e.is_full() => Err(TrySendError::Full(e.into_inner())),
        Err(e) => Err(TrySendError::Disconnected(e.into_inner())),
    }
}

/// `futures::sync::mpsc::Receiver::poll`, for payloads, within a task that `task` notifies: the
/// payload at the next position, or none if the channel is empty and has no sender left, so that
/// all payloads were received. It never fails. If it gives nothing yet, `task` is notified when
/// there is something to give. Once it has given the end of the channel, it gives nothing else any
/// more. It panics when the counter of tasks is full.
#[verifier::external_body]
pub(crate) fn poll_payload(rx: &mut Receiver<Bytes>, task: &NotifyHandle) -> (r: Result<
    Async<Option<Bytes>>,
    (),
>)
    ensures
        r is Ok,
        match r {
            Ok(Async::Ready(Some(p))) => {
                &&& !(payload_poll_state(*old(rx)) is Ended)
                &&& payload_receiver(*final(rx)) == received_one(payload_receiver(*old(rx)))
                &&& payload_poll_state(*final(rx)) == PollState::Open
                &&& payload_receiver(*old(rx)).received < payload_total(
                    payload_receiver(*old(rx)).channel,
                )
                &&& content(p) == payload_at(
                    payload_receiver(*old(rx)).channel,
                    payload_receiver(*old(rx)).received,
                )
            },
            Ok(Async::Ready(None)) => {
                &&& payload_receiver(*final(rx)) == payload_receiver(*old(rx))
                &&& payload_poll_state(*final(rx)) == PollState::Ended
                &&& payload_receiver(*old(rx)).received == payload_total(
                    payload_receiver(*old(rx)).channel,
                )
                &&& payload_receiver(*old(rx)).open ==> payload_closed_by(
                    payload_receiver(*old(rx)).channel,
                ) == ChannelEnd::Sender
            },
            _ => {
                &&& !(payload_poll_state(*old(rx)) is Ended)
                &&& payload_receiver(*final(rx)) == payload_receiver(*old(rx))
                &&& payload_poll_state(*final(rx)) == PollState::Waiting(*task)
            },
        },
{
    match futures::executor::spawn(rx).poll_stream_notify(task, 0) {
        Ok(futures::Async::Ready(payload)) => Ok(Async::Ready(payload)),
        Ok(futures::Async::NotReady) => Ok(Async::NotReady),
        Err(()) => Err(()),
    }
}

/// `futures::sync::mpsc::Receiver::poll`, for datagrams, within a task that `task` notifies: the
/// datagram at the next position, or none if the channel is empty and has no sender left, so that
/// all datagrams were received. It never fails. If it gives nothing yet, `task` is notified when
/// there is something to give. Once it has given the end of the channel, it gives nothing else any
/// more. It panics when the counter of tasks is full.
#[verifier::external_body]
pub(crate) fn poll_datagram(rx: &mut Receiver<Datagram>, task: &NotifyHandle) -> (r: Result<
    Async<Option<Datagram>>,
    (),
>)
    ensures
        r is Ok,
        match r {
            Ok(Async::Ready(Some(d))) => {
                &&& !(datagram_poll_state(*old(rx)) is Ended)
                &&& datagram_receiver(*final(rx)) == received_one(datagram_receiver(*old(rx)))
                &&& datagram_poll_state(*final(rx)) == PollState::Open
                &&& datagram_receiver(*old(rx)).received < datagram_total(
                    datagram_receiver(*old(rx)).channel,
                )
                &&& datagram(d) == datagram_at(
                    datagram_receiver(*old(rx)).channel,
                    datagram_receiver(*old(rx)).received,
                )
            },
            Ok(Async::Ready(None)) => {
                &&& datagram_receiver(*final(rx)) == datagram_receiver(*old(rx))
                &&& datagram_poll_state(*final(rx)) == PollState::Ended
                &&& datagram_receiver(*old(rx)).received == datagram_total(
                    datagram_receiver(*old(rx)).channel,
                )
                &&& datagram_receiver(*old(rx)).open ==> datagram_closed_by(
                    datagram_receiver(*old(rx)).channel,
                ) == ChannelEnd::Sender
            },
            _ => {
                &&& !(datagram_poll_state(*old(rx)) is Ended)
                &&& datagram_receiver(*final(rx)) == datagram_receiver(*old(rx))
                &&& datagram_poll_state(*final(rx)) == PollState::Waiting(*task)
            },
        },
{
    match futures::executor::spawn(rx).poll_stream_notify(task, 0) {
        Ok(futures::Async::Ready(datagram)) => Ok(Async::Ready(datagram)),
        Ok(futures::Async::NotReady) => Ok(Async::NotReady),
        Err(()) => Err(()),
    }
}

/// `futures::sync::mpsc::Sender::start_send`, within a task that `task` notifies: the datagram
/// takes the next position of the channel, or is handed back. It is handed back for want of room
/// only once more messages were sent than the channel can buffer, and as an error if the receiving
/// end is gone, so that the channel takes no message any more. If it is handed back for want of
/// room, `task` is notified when there is room. It panics when the counter of tasks is full.
#[verifier::external_body]
pub(crate) fn start_send(tx: &mut Sender<Datagram>, d: Datagram, task: &NotifyHandle) -> (r: Result<
    AsyncSink<Datagram>,
    Datagram,
>)
    ensures
        match r {
            Ok(AsyncSink::Ready) => {
                &&& datagram_sender(*final(tx)) == sent_one(datagram_sender(*old(tx)))
                &&& datagram_waiting(*final(tx)) is None
                &&& datagram_sender(*old(tx)).sent < datagram_total(
                    datagram_sender(*old(tx)).channel,
                )
                &&& datagram(d) == datagram_at(
                    datagram_sender(*old(tx)).channel,
                    datagram_sender(*old(tx)).sent,
                )
            },
            Ok(AsyncSink::NotReady(back)) => {
                &&& datagram_sender(*final(tx)) == refused_one(datagram_sender(*old(tx)))
                &&& datagram_sender(*old(tx)).sent > datagram_sender(*old(tx)).limit
                &&& datagram_waiting(*final(tx)) == Some(*task)
                &&& datagram(back) == datagram(d)
            },
            Err(back) => {
                &&& datagram_sender(*final(tx)) == refused_one(datagram_sender(*old(tx)))
                &&& datagram_waiting(*final(tx)) is None
                &&& datagram_sender(*old(tx)).sent == datagram_total(
                    datagram_sender(*old(tx)).channel,
                )
                &&& datagram_closed_by(datagram_sender(*old(tx)).channel) == ChannelEnd::Receiver
                &&& datagram(back) == datagram(d)
            },
        },
{
    match futures::executor::spawn(tx).start_send_notify(d, task, 0) {
        Ok(futures::AsyncSink::Ready) => Ok(AsyncSink::Ready),
        Ok(futures::AsyncSink::NotReady(back)) => Ok(AsyncSink::NotReady(back)),
        Err(e) => Err(e.into_inner()),
    }
}

/// `futures::sync::mpsc::Sender::poll_complete`, within a task that `task` notifies: whether the
/// next message would be taken. It never fails, and waits only once more messages were sent than
/// the channel can buffer. If it waits, `task` is notified when there is room. It panics when the
/// counter of tasks is full.
#[verifier::external_body]
pub(crate) fn poll_complete(tx: &mut Sender<Datagram>, task: &NotifyHandle) -> (r: Result<
    Async<()>,
    (),
>)
    ensures
        r is Ok,
        datagram_sender(*final(tx)) == datagram_sender(*old(tx)),
        r == Ok::<Async<()>, ()>(Async::NotReady) ==> datagram_sender(*old(tx)).sent
            > datagram_sender(*old(tx)).limit,
        datagram_waiting(*final(tx)) == match r {
            Ok(Async::NotReady) => Some(*task),
            _ => None,
        },
{
    match futures::executor::spawn(tx).poll_flush_notify(task, 0) {
        Ok(futures::Async::Ready(())) => Ok(Async::Ready(())),
        Ok(futures::Async::NotReady) => Ok(Async::NotReady),
        Err(_) => Err(()),
    }
}

} // verus!
