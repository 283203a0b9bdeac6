//! The intake channel and the clock: the two things a node waits on.

use crate::error::Error;
use crate::msg::{Event, HeartbeatRequest, HeartbeatResponse, VoteRequest, VoteResponse};
use crate::node::Member;
use crate::options::Options;
use vstd::prelude::*;

verus! {

/// `crossbeam_channel::Sender`, the sending side of a channel. Nothing is
/// known of what is inside.
#[verifier::external_type_specification]
#[verifier::external_body]
#[verifier::reject_recursive_types(T)]
pub struct ExSender<T>(crossbeam_channel::Sender<T>);

/// `crossbeam_channel::Receiver`, the receiving side of a channel. Nothing
/// is known of what is inside.
#[verifier::external_type_specification]
#[verifier::external_body]
#[verifier::reject_recursive_types(T)]
pub struct ExReceiver<T>(crossbeam_channel::Receiver<T>);

/// `std::time::Instant`, a reading of the monotonic clock. Nothing is
/// known of what is inside.
#[verifier::external_type_specification]
#[verifier::external_body]
pub struct ExInstant(std::time::Instant);

/// What arrives on a node's intake. Requests carry the channel on which the
/// answer is expected.
#[allow(inconsistent_fields)]
pub enum Message {
    Heartbeat {
        req: HeartbeatRequest,
        tx: crossbeam_channel::Sender<Result<HeartbeatResponse, Error>>,
    },
    HeartbeatResponse(HeartbeatResponse),
    VoteRequest { req: VoteRequest, tx: crossbeam_channel::Sender<Result<VoteResponse, Error>> },
    VoteResponse(VoteResponse),
    Initialize {
        members: Vec<Member>,
        force_leader_hint: bool,
        tx: crossbeam_channel::Sender<Result<(), Error>>,
    },
    UpdateOptions { options: Options, tx: crossbeam_channel::Sender<Result<(), Error>> },
    Shutdown,
    /// What became of an event that was handed to the observer.
    EventHandlingResult { event: Event, error: Option<Error>, term: u64 },
}

/// What a wait on the intake ends with.
pub enum Intake {
    Message(Message),
    Timeout,
    Disconnected,
}

/// An answer on its way to the one who asked, on the channel that came
/// with the request.
#[allow(inconsistent_fields)]
pub enum Reply {
    Heartbeat {
        tx: crossbeam_channel::Sender<Result<HeartbeatResponse, Error>>,
        result: Result<HeartbeatResponse, Error>,
    },
    Vote {
        tx: crossbeam_channel::Sender<Result<VoteResponse, Error>>,
        result: Result<VoteResponse, Error>,
    },
    Done { tx: crossbeam_channel::Sender<Result<(), Error>>, result: Result<(), Error> },
    Nothing,
}

impl Reply {
    /// Sends the answer. That nobody waits for it any more is no error.
    pub fn send(self) {
        match self {
            Reply::Heartbeat { tx, result } => {
                let _ = send(&tx, result);
            },
            Reply::Vote { tx, result } => {
                let _ = send(&tx, result);
            },
            Reply::Done { tx, result } => {
                let _ = send(&tx, result);
            },
            Reply::Nothing => {},
        }
    }
}

/// `crossbeam_channel::Receiver::recv_deadline`: waits for the next
/// message, until `deadline` at the latest. What comes back depends on the
/// other threads and on the clock, so nothing is claimed of it.
#[verifier::external_body]
pub(crate) fn recv_deadline(
    rx: &crossbeam_channel::Receiver<Message>,
    deadline: std::time::Instant,
) -> (r: Intake) {
    match rx.recv_deadline(deadline) {
        Ok(msg) => Intake::Message(msg),
        Err(crossbeam_channel::RecvTimeoutError::Timeout) => Intake::Timeout,
        Err(crossbeam_channel::RecvTimeoutError::Disconnected) => Intake::Disconnected,
    }
}

/// `crossbeam_channel::Receiver::recv`: waits for the next message, for as
/// long as anybody can send one. What comes back depends on the other
/// threads, so nothing is claimed of it.
#[verifier::external_body]
pub(crate) fn recv(rx: &crossbeam_channel::Receiver<Message>) -> (r: Intake) {
    match rx.recv() {
        Ok(msg) => Intake::Message(msg),
        Err(crossbeam_channel::RecvError) => Intake::Disconnected,
    }
}

/// `crossbeam_channel::Sender::send`: hands `value` to the channel, waiting
/// while a bounded channel is full. The result tells whether the channel
/// took it, which it does unless the receiving side is gone; nothing is
/// claimed of it.
#[verifier::external_body]
pub(crate) fn send<T>(tx: &crossbeam_channel::Sender<T>, value: T) -> (sent: bool) {
    tx.send(value).is_ok()
}

/// `Clone::clone` of `crossbeam_channel::Sender`: another handle on the same channel.
#[verifier::external_body]
pub(crate) fn another<T>(tx: &crossbeam_channel::Sender<T>) -> (r: crossbeam_channel::Sender<T>) {
    tx.clone()
}

/// `std::time::Instant::now`.
#[verifier::external_body]
pub(crate) fn instant_now() -> (r: std::time::Instant) {
    std::time::Instant::now()
}

/// `std::time::Instant::checked_add`: the instant `ms` milliseconds after
/// `origin`, or `None` where the clock cannot express it.
#[verifier::external_body]
pub(crate) fn instant_after(origin: &std::time::Instant, ms: u64) -> (r: Option<
    std::time::Instant,
>) {
    origin.checked_add(std::time::Duration::from_millis(ms))
}

/// `std::time::Instant::elapsed`: the time since `since`. Nothing is
/// claimed of the reading.
#[verifier::external_body]
pub(crate) fn elapsed(since: &std::time::Instant) -> (d: std::time::Duration) {
    since.elapsed()
}

/// `std::time::Duration::as_millis`: the whole milliseconds in `d`.
/// Nothing is claimed of the number.
#[verifier::external_body]
pub(crate) fn whole_millis(d: &std::time::Duration) -> (ms: u128) {
    d.as_millis()
}

/// A count of milliseconds as a `u64`: the count itself, or the largest
/// `u64` where the count is more than a `u64` holds.
pub fn saturated(ms: u128) -> (r: u64)
    ensures
        ms <= u64::MAX ==> r == ms,
        ms > u64::MAX ==> r == u64::MAX,
{
    if ms > 0xffff_ffff_ffff_ffff {
        0xffff_ffff_ffff_ffff
    } else {
        ms as u64
    }
}

/// A clock that counts milliseconds from the moment it was made.
pub struct Clock {
    origin: std::time::Instant,
}

impl Clock {
    /// A clock that reads zero now.
    pub fn new() -> Clock {
        Clock { origin: instant_now() }
    }

    /// The instant at which the clock reads `ms`, if the machine's clock
    /// reaches that far.
    pub fn at(&self, ms: u64) -> Option<std::time::Instant> {
        instant_after(&self.origin, ms)
    }

    /// The milliseconds since the clock was made; the largest number where
    /// they are more than a `u64` holds.
    pub fn now(&self) -> u64 {
        saturated(whole_millis(&elapsed(&self.origin)))
    }
}

} // verus!
