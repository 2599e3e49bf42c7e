//! The channels between a client and its connection, and the source of
//! keep-alive identifiers. Nothing here is proved: each function is a call
//! into `flume` or `rand`, and its contract is taken on trust.

use vstd::prelude::*;
use crate::c2s::C2sPlayPacket;
use crate::s2c::S2cPlayPacket;

verus! {

/// `flume::Sender`, the sending half of a channel. Opaque.
#[verifier::external_type_specification]
#[verifier::external_body]
#[verifier::reject_recursive_types(T)]
pub struct ExSender<T>(flume::Sender<T>);

/// `flume::Receiver`, the receiving half of a channel. Opaque.
#[verifier::external_type_specification]
#[verifier::external_body]
#[verifier::reject_recursive_types(T)]
pub struct ExReceiver<T>(flume::Receiver<T>);

/// How an attempt to send ended.
#[derive(Clone, Copy, PartialEq, Eq, Debug, Structural)]
pub enum SendOutcome {
    /// The packet is in the channel.
    Sent,
    /// The channel is bounded and was full.
    Full,
    /// Every receiver is gone.
    Disconnected,
}

/// `flume::Sender::try_send`: puts `packet` in the channel without waiting.
/// Which of the three outcomes comes depends on the other end, so nothing
/// is claimed of it.
#[verifier::external_body]
pub(crate) fn try_send(sender: &flume::Sender<S2cPlayPacket>, packet: S2cPlayPacket) -> (r:
    SendOutcome) {
    match sender.try_send(packet) {
        Ok(()) => SendOutcome::Sent,
        Err(flume::TrySendError::Full(_)) => SendOutcome::Full,
        Err(flume::TrySendError::Disconnected(_)) => SendOutcome::Disconnected,
    }
}

/// `flume::Sender::is_disconnected`: whether every receiver is gone.
/// Nothing is claimed of the answer.
#[verifier::external_body]
pub(crate) fn sender_is_disconnected(sender: &flume::Sender<S2cPlayPacket>) -> (r: bool) {
    sender.is_disconnected()
}

/// `flume::Receiver::is_disconnected`: whether every sender is gone.
/// Nothing is claimed of the answer.
#[verifier::external_body]
pub(crate) fn receiver_is_disconnected(receiver: &flume::Receiver<C2sPlayPacket>) -> (r: bool) {
    receiver.is_disconnected()
}

/// `flume::Receiver::len`: the number of packets in the channel at the
/// moment of the call. Nothing is claimed of the number.
#[verifier::external_body]
pub(crate) fn receiver_len(receiver: &flume::Receiver<C2sPlayPacket>) -> (r: usize) {
    receiver.len()
}

/// `flume::Receiver::try_recv`: takes a packet from the channel without
/// waiting; `None` where the channel is empty or closed. Nothing is claimed
/// of what comes.
#[verifier::external_body]
pub(crate) fn try_recv(receiver: &flume::Receiver<C2sPlayPacket>) -> (r: Option<C2sPlayPacket>) {
    match receiver.try_recv() {
        Ok(packet) => Some(packet),
        Err(flume::TryRecvError::Empty) => None,
        Err(flume::TryRecvError::Disconnected) => None,
    }
}

/// `rand::random`: a number drawn from the thread's generator. Nothing is
/// claimed of the number.
#[verifier::external_body]
pub(crate) fn random_i64() -> (r: i64) {
    rand::random()
}

} // verus!
