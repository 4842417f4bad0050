//! The mailbox of one subscriber: a bounded channel whose sending end stays
//! with the broadcaster and whose receiving end is the subscriber's stream.
//!
//! What the channel does with a frame is decided outside this crate, by how
//! full the channel is and by whether the receiving end is still alive. The
//! sending end therefore keeps a record of every frame it offered and of how
//! the offer ended; the contracts of the broadcaster speak of that record.

use tokio::sync::mpsc::error::TrySendError;
use tokio::sync::mpsc::{Receiver, Sender};
use vstd::prelude::*;

verus! {

/// The sending end of a `tokio` channel; nothing of its inside is visible
/// to the verifier.
#[verifier::external_type_specification]
#[verifier::external_body]
#[verifier::reject_recursive_types(T)]
pub struct ExSender<T>(tokio::sync::mpsc::Sender<T>);

/// The receiving end of a `tokio` channel; nothing of its inside is visible
/// to the verifier.
#[verifier::external_type_specification]
#[verifier::external_body]
#[verifier::reject_recursive_types(T)]
pub struct ExReceiver<T>(tokio::sync::mpsc::Receiver<T>);

/// The largest capacity a mailbox can be created with.
pub const MAX_CAPACITY: usize = usize::MAX / 8;

/// How an offer of one frame to a mailbox ended.
#[derive(Clone, Copy, PartialEq, Eq, Structural, Debug)]
pub enum Delivery {
    /// The frame was queued and will reach the receiving end.
    Accepted,
    /// The mailbox held as many frames as it has room for; the frame is lost.
    Full,
    /// The receiving end is gone; the frame is lost.
    Closed,
}

impl Delivery {
    /// Whether the frame was queued.
    pub fn is_accepted(self) -> (accepted: bool)
        ensures
            accepted == (self is Accepted),
    {
        match self {
            Delivery::Accepted => true,
            Delivery::Full => false,
            Delivery::Closed => false,
        }
    }
}

/// One frame that was offered to a mailbox, and how the offer ended.
pub struct Attempt {
    pub frame: Seq<u8>,
    pub outcome: Delivery,
}

/// The frames among `attempts` that were accepted, in the order in which they
/// were offered. A mailbox hands its frames out in the order in which it
/// accepted them, so this is what its stream yields.
pub open spec fn delivered(attempts: Seq<Attempt>) -> Seq<Seq<u8>>
    decreases attempts.len(),
{
    if attempts.len() == 0 {
        Seq::empty()
    } else if attempts.last().outcome is Accepted {
        delivered(attempts.drop_last()).push(attempts.last().frame)
    } else {
        delivered(attempts.drop_last())
    }
}

/// What the contracts know of a subscriber: the sending end of its mailbox
/// and everything that was offered to it, oldest first.
pub struct Mailbox {
    pub handle: Sender<Vec<u8>>,
    pub attempts: Seq<Attempt>,
}

impl Mailbox {
    /// The mailbox after `frame` was offered to it with the given outcome.
    pub open spec fn offered(self, frame: Seq<u8>, outcome: Delivery) -> Mailbox {
        Mailbox { handle: self.handle, attempts: self.attempts.push(Attempt { frame, outcome }) }
    }

    /// The frames that the subscriber's stream yields.
    pub open spec fn delivered(self) -> Seq<Seq<u8>> {
        delivered(self.attempts)
    }

    /// Whether the latest offer to the mailbox was accepted.
    pub open spec fn answered(self) -> bool {
        self.attempts.len() > 0 && self.attempts.last().outcome is Accepted
    }
}

/// Calls `tokio::sync::mpsc::channel`, which makes a bounded channel with
/// room for `capacity` frames and returns its two ends. It panics for a
/// capacity of zero or above `MAX_CAPACITY`; nothing is claimed of the ends.
#[verifier::external_body]
fn channel(capacity: usize) -> (ends: (Sender<Vec<u8>>, Receiver<Vec<u8>>))
    requires
        0 < capacity <= MAX_CAPACITY,
{
    tokio::sync::mpsc::channel(capacity)
}

/// Calls `Sender::try_send`, which queues the frame or returns at once with
/// the reason why it could not. Which of the three happens depends on the
/// receiving end, so nothing is claimed of the outcome.
#[verifier::external_body]
fn try_send(tx: &Sender<Vec<u8>>, frame: Vec<u8>) -> (outcome: Delivery) {
    match tx.try_send(frame) {
        Ok(()) => Delivery::Accepted,
        Err(TrySendError::Full(_)) => Delivery::Full,
        Err(TrySendError::Closed(_)) => Delivery::Closed,
    }
}

/// The sending end of a mailbox, as the broadcaster keeps it.
pub struct Subscriber {
    tx: Sender<Vec<u8>>,
    attempts: Ghost<Seq<Attempt>>,
}

impl View for Subscriber {
    type V = Mailbox;

    closed spec fn view(&self) -> Mailbox {
        Mailbox { handle: self.tx, attempts: self.attempts@ }
    }
}

/// The receiving end of a mailbox: the stream of frames of one subscriber.
pub struct Client {
    rx: Receiver<Vec<u8>>,
    source: Ghost<Sender<Vec<u8>>>,
}

impl Client {
    /// The sending end of the mailbox that feeds this stream.
    pub closed spec fn source(&self) -> Sender<Vec<u8>> {
        self.source@
    }

    /// The receiving end of the mailbox.
    pub closed spec fn receiver(&self) -> Receiver<Vec<u8>> {
        self.rx
    }

    /// Gives up the stream for the channel end that it wraps.
    pub fn into_inner(self) -> (rx: Receiver<Vec<u8>>)
        ensures
            rx == self.receiver(),
    {
        self.rx
    }
}

impl Subscriber {
    /// Creates a mailbox with room for `capacity` frames and returns its two
    /// ends. Nothing has been offered to it yet.
    pub fn open(capacity: usize) -> (ends: (Subscriber, Client))
        requires
            0 < capacity <= MAX_CAPACITY,
        ensures
            ends.0@.attempts == Seq::<Attempt>::empty(),
            ends.1.source() == ends.0@.handle,
    {
        let (tx, rx) = channel(capacity);
        let ghost handle = tx;
        (Subscriber { tx, attempts: Ghost(Seq::empty()) }, Client { rx, source: Ghost(handle) })
    }

    /// Offers `frame` to the mailbox without waiting and reports how the
    /// offer ended. The offer is added to the record of the mailbox.
    pub fn offer(&mut self, frame: Vec<u8>) -> (outcome: Delivery)
        ensures
            final(self)@ == old(self)@.offered(frame@, outcome),
    {
        let ghost offered = frame@;
        let outcome = try_send(&self.tx, frame);
        self.attempts = Ghost(self.attempts@.push(Attempt { frame: offered, outcome }));
        outcome
    }
}

} // verus!
