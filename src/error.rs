//! Why a queue instruction is rejected.
use vstd::prelude::*;

verus! {

/// The precondition that a rejected queue instruction failed.
#[derive(Clone, Copy, Debug, PartialEq, Eq, Structural)]
pub enum QueueError {
    /// The signer is not the queue's authority.
    Unauthorized,
    /// The authority already has a queue with this id.
    DuplicateQueue,
    /// No queue has this authority and id.
    QueueNotFound,
    /// The queue is in the middle of a chain.
    InChain,
    /// A crank was asked of a queue with no chain in flight.
    NotInChain,
    /// The queue is paused.
    Paused,
    /// A resume was asked of a queue that is not paused.
    NotPaused,
    /// The queue has been stopped.
    Stopped,
    /// The account that an account trigger watches does not exist.
    MissingAccount,
    /// A cron trigger's schedule is not well formed.
    InvalidSchedule,
    /// The amount exceeds the queue's balance.
    InsufficientBalance,
    /// The credited balance would exceed the largest representable amount.
    BalanceOverflow,
}

} // verus!
