//! The queue account and its lifecycle: create, kickoff, crank, pause,
//! resume, stop, update, delete and withdraw.
use vstd::prelude::*;
use vstd::utf8::encode_utf8;

use crate::address::Address;
use crate::cron::{parse_schedule, CronSchedule};
use crate::error::QueueError;
use crate::instruction::{CrankResponse, InstructionData};
use crate::trigger::{evaluation, should_kickoff, ChainState, ExecContext, Trigger};

verus! {

/// The rate limit that a new queue starts with: no limit.
pub const DEFAULT_RATE_LIMIT: u64 = 18446744073709551615;

/// Where a queue stands in its lifecycle. Whether a chain is in flight is
/// told apart by `next_instruction`.
#[derive(Clone, Copy, Debug, PartialEq, Eq, Structural)]
pub enum QueueStatus {
    Active,
    Paused,
    Stopped,
}

/// A persistent automation unit: one per (authority, id).
#[derive(Clone, Debug)]
pub struct Queue {
    pub authority: Address,
    pub id: String,
    pub trigger: Trigger,
    pub kickoff_instruction: InstructionData,
    pub next_instruction: Option<InstructionData>,
    pub exec_context: Option<ExecContext>,
    pub status: QueueStatus,
    pub rate_limit: u64,
    pub balance: u64,
}

/// A sparse patch of a queue's settings: absent fields stay as they are.
#[derive(Clone, Debug)]
pub struct QueueSettings {
    pub trigger: Option<Trigger>,
    pub rate_limit: Option<u64>,
}

/// Every queue, keyed by (authority, id).
#[derive(Clone, Debug)]
pub struct QueueBook {
    pub queues: Vec<Queue>,
}

/// Whether a trigger can be evaluated: a cron schedule must be well formed.
pub open spec fn trigger_valid(t: Trigger) -> bool {
    match t {
        Trigger::Cron { schedule } => parse_schedule(encode_utf8(schedule@)) is Some,
        _ => true,
    }
}

/// The queue after an invoked instruction returned `response`: the chain
/// continues with the response's next instruction, and a kickoff
/// instruction in the response replaces the queue's own.
pub open spec fn with_response(q: Queue, response: CrankResponse) -> Queue {
    Queue {
        next_instruction: response.next_instruction,
        kickoff_instruction: match response.kickoff_instruction {
            Some(k) => k,
            None => q.kickoff_instruction,
        },
        ..q
    }
}

/// Why a kickoff or crank cannot run in the queue's lifecycle state, if it cannot.
pub open spec fn step_block(q: Queue) -> Option<QueueError> {
    if q.status == QueueStatus::Stopped {
        Some(QueueError::Stopped)
    } else if q.status == QueueStatus::Paused {
        Some(QueueError::Paused)
    } else {
        None
    }
}

/// Result and next state of a kickoff. `Ok(true)`: the trigger allowed it and
/// the kickoff instruction ran; `Ok(false)`: the trigger did not allow it and
/// nothing changed.
pub open spec fn kickoff_step(
    q: Queue,
    claimed: Option<u64>,
    state: ChainState,
    response: CrankResponse,
) -> (Result<bool, QueueError>, Queue) {
    if step_block(q) is Some {
        (Err(step_block(q)->0), q)
    } else if q.in_chain() {
        (Err(QueueError::InChain), q)
    } else {
        match evaluation(q.trigger, state, q.exec_context, claimed) {
            Err(e) => (Err(e), q),
            Ok(None) => (Ok(false), q),
            Ok(Some(c)) => (
                Ok(true),
                with_response(Queue { exec_context: Some(ExecContext { trigger_context: c }), ..q }, response),
            ),
        }
    }
}

/// Result and next state of a crank: the stored next instruction ran and
/// returned `response`.
pub open spec fn crank_step(q: Queue, response: CrankResponse) -> (Result<(), QueueError>, Queue) {
    if step_block(q) is Some {
        (Err(step_block(q)->0), q)
    } else if !q.in_chain() {
        (Err(QueueError::NotInChain), q)
    } else {
        (Ok(()), with_response(q, response))
    }
}

/// Result and next state of a pause.
pub open spec fn pause_step(q: Queue, signer: Address) -> (Result<(), QueueError>, Queue) {
    if !q.is_authority(signer) {
        (Err(QueueError::Unauthorized), q)
    } else if q.status == QueueStatus::Stopped {
        (Err(QueueError::Stopped), q)
    } else if q.status == QueueStatus::Paused {
        (Err(QueueError::Paused), q)
    } else {
        (Ok(()), Queue { status: QueueStatus::Paused, ..q })
    }
}

/// Result and next state of a resume: a chain left over from before the
/// pause is dropped.
pub open spec fn resume_step(q: Queue, signer: Address) -> (Result<(), QueueError>, Queue) {
    if !q.is_authority(signer) {
        (Err(QueueError::Unauthorized), q)
    } else if q.status == QueueStatus::Stopped {
        (Err(QueueError::Stopped), q)
    } else if q.status != QueueStatus::Paused {
        (Err(QueueError::NotPaused), q)
    } else {
        (Ok(()), Queue { status: QueueStatus::Active, next_instruction: None, ..q })
    }
}

/// Result and next state of a stop: any chain in flight is dropped.
pub open spec fn stop_step(q: Queue, signer: Address) -> (Result<(), QueueError>, Queue) {
    if !q.is_authority(signer) {
        (Err(QueueError::Unauthorized), q)
    } else {
        (Ok(()), Queue { status: QueueStatus::Stopped, next_instruction: None, ..q })
    }
}

/// Result and next state of an update.
pub open spec fn update_step(q: Queue, signer: Address, settings: QueueSettings) -> (Result<(), QueueError>, Queue) {
    if !q.is_authority(signer) {
        (Err(QueueError::Unauthorized), q)
    } else if settings.trigger is Some && !trigger_valid(settings.trigger->0) {
        (Err(QueueError::InvalidSchedule), q)
    } else {
        (
            Ok(()),
            Queue {
                trigger: match settings.trigger {
                    Some(t) => t,
                    None => q.trigger,
                },
                rate_limit: match settings.rate_limit {
                    Some(r) => r,
                    None => q.rate_limit,
                },
                ..q
            },
        )
    }
}

/// Why a withdrawal of `amount` to an account holding `pay_to` is refused, if it is.
pub open spec fn withdraw_block(q: Queue, signer: Address, amount: u64, pay_to: u64) -> Option<QueueError> {
    if !q.is_authority(signer) {
        Some(QueueError::Unauthorized)
    } else if amount > q.balance {
        Some(QueueError::InsufficientBalance)
    } else if pay_to + amount > u64::MAX {
        Some(QueueError::BalanceOverflow)
    } else {
        None
    }
}

impl Queue {
    /// A chain is in flight.
    pub open spec fn in_chain(self) -> bool {
        self.next_instruction is Some
    }

    pub open spec fn is_authority(self, signer: Address) -> bool {
        signer@ == self.authority@
    }

    /// A stopped queue has no chain in flight, and its trigger can be evaluated.
    pub open spec fn wf(self) -> bool {
        &&& (self.status == QueueStatus::Stopped ==> !self.in_chain())
        &&& trigger_valid(self.trigger)
    }

    /// Whether a chain is in flight.
    pub fn is_in_chain(&self) -> (r: bool)
        ensures
            r == self.in_chain(),
    {
        self.next_instruction.is_some()
    }
}

impl QueueBook {
    /// The position of the queue with this authority and id.
    pub open spec fn index_of(self, authority: Address, id: Seq<char>) -> Option<int> {
        if exists|i: int| 0 <= i < self.queues@.len() && #[trigger] self.queues@[i].authority@ == authority@
            && self.queues@[i].id@ == id {
            Some(choose|i: int| 0 <= i < self.queues@.len() && #[trigger] self.queues@[i].authority@ == authority@
                && self.queues@[i].id@ == id)
        } else {
            None
        }
    }

    /// Keys are unique and every queue is well formed.
    pub open spec fn wf(self) -> bool {
        &&& forall|i: int, j: int|
            0 <= i < j < self.queues@.len() ==> !(#[trigger] self.queues@[i].authority@ == #[trigger] self.queues@[j].authority@
                && self.queues@[i].id@ == self.queues@[j].id@)
        &&& forall|i: int| 0 <= i < self.queues@.len() ==> (#[trigger] self.queues@[i]).wf()
    }

    /// A book with no queues.
    pub fn new() -> (r: QueueBook)
        ensures
            r.wf(),
            r.queues@.len() == 0,
    {
        QueueBook { queues: Vec::new() }
    }

    /// The position of the queue with this authority and id.
    pub fn find(&self, authority: &Address, id: &String) -> (r: Option<usize>)
        ensures
            r is None <==> self.index_of(*authority, id@) is None,
            r is Some ==> {
                let i = r->0 as int;
                &&& 0 <= i < self.queues@.len()
                &&& self.queues@[i].authority@ == authority@
                &&& self.queues@[i].id@ == id@
            },
    {
        let mut i: usize = 0;
        while i < self.queues.len()
            invariant
                0 <= i <= self.queues@.len(),
                forall|j: int| 0 <= j < i ==> !(#[trigger] self.queues@[j].authority@ == authority@
                    && self.queues@[j].id@ == id@),
            decreases self.queues@.len() - i,
        {
            let q = &self.queues[i];
            if q.authority.same_as(authority) && q.id == *id {
                return Some(i);
            }
            i = i + 1;
        }
        None
    }
}

/// Whether a trigger can be evaluated.
pub fn check_trigger(t: &Trigger) -> (r: bool)
    ensures
        r == trigger_valid(*t),
{
    match t {
        Trigger::Cron { schedule } => CronSchedule::parse(schedule.as_str()).is_some(),
        _ => true,
    }
}


/// Applies what an invoked instruction returned.
fn apply_response(queue: &mut Queue, response: CrankResponse)
    ensures
        *final(queue) == with_response(*old(queue), response),
{
    queue.next_instruction = response.next_instruction;
    match response.kickoff_instruction {
        Some(k) => {
            queue.kickoff_instruction = k;
        },
        None => {},
    }
}

/// Kicks off a queue if its trigger allows it now. `response` is what the
/// kickoff instruction returned when invoked; it is used only when the
/// trigger allows the kickoff.
pub fn queue_kickoff(
    queue: &mut Queue,
    data_hash: Option<u64>,
    state: &ChainState,
    response: CrankResponse,
) -> (r: Result<bool, QueueError>)
    requires
        old(queue).wf(),
    ensures
        (r, *final(queue)) == kickoff_step(*old(queue), data_hash, *state, response),
        final(queue).wf(),
{
    match queue.status {
        QueueStatus::Stopped => {
            return Err(QueueError::Stopped);
        },
        QueueStatus::Paused => {
            return Err(QueueError::Paused);
        },
        QueueStatus::Active => {},
    }
    if queue.next_instruction.is_some() {
        return Err(QueueError::InChain);
    }
    match should_kickoff(&queue.trigger, state, &queue.exec_context, data_hash) {
        Err(e) => Err(e),
        Ok(None) => Ok(false),
        Ok(Some(c)) => {
            queue.exec_context = Some(ExecContext { trigger_context: c });
            apply_response(queue, response);
            Ok(true)
        },
    }
}

/// Advances a queue's chain by one step. `response` is what the stored next
/// instruction returned when invoked.
pub fn queue_crank(queue: &mut Queue, response: CrankResponse) -> (r: Result<(), QueueError>)
    requires
        old(queue).wf(),
    ensures
        (r, *final(queue)) == crank_step(*old(queue), response),
        final(queue).wf(),
{
    match queue.status {
        QueueStatus::Stopped => {
            return Err(QueueError::Stopped);
        },
        QueueStatus::Paused => {
            return Err(QueueError::Paused);
        },
        QueueStatus::Active => {},
    }
    if queue.next_instruction.is_none() {
        return Err(QueueError::NotInChain);
    }
    apply_response(queue, response);
    Ok(())
}

/// Pauses an active queue.
pub fn queue_pause(queue: &mut Queue, signer: &Address) -> (r: Result<(), QueueError>)
    requires
        old(queue).wf(),
    ensures
        (r, *final(queue)) == pause_step(*old(queue), *signer),
        final(queue).wf(),
{
    if !queue.authority.same_as(signer) {
        return Err(QueueError::Unauthorized);
    }
    match queue.status {
        QueueStatus::Stopped => Err(QueueError::Stopped),
        QueueStatus::Paused => Err(QueueError::Paused),
        QueueStatus::Active => {
            queue.status = QueueStatus::Paused;
            Ok(())
        },
    }
}

/// Resumes a paused queue, dropping any chain left from before the pause.
pub fn queue_resume(queue: &mut Queue, signer: &Address) -> (r: Result<(), QueueError>)
    requires
        old(queue).wf(),
    ensures
        (r, *final(queue)) == resume_step(*old(queue), *signer),
        final(queue).wf(),
{
    if !queue.authority.same_as(signer) {
        return Err(QueueError::Unauthorized);
    }
    match queue.status {
        QueueStatus::Stopped => Err(QueueError::Stopped),
        QueueStatus::Active => Err(QueueError::NotPaused),
        QueueStatus::Paused => {
            queue.status = QueueStatus::Active;
            queue.next_instruction = None;
            Ok(())
        },
    }
}

/// Stops a queue for good: any chain in flight is dropped, and no kickoff
/// or crank runs until it is deleted.
pub fn queue_stop(queue: &mut Queue, signer: &Address) -> (r: Result<(), QueueError>)
    requires
        old(queue).wf(),
    ensures
        (r, *final(queue)) == stop_step(*old(queue), *signer),
        final(queue).wf(),
{
    if !queue.authority.same_as(signer) {
        return Err(QueueError::Unauthorized);
    }
    queue.status = QueueStatus::Stopped;
    queue.next_instruction = None;
    Ok(())
}

/// Patches a queue's trigger and rate limit; absent settings stay as they are.
pub fn queue_update(queue: &mut Queue, signer: &Address, settings: QueueSettings) -> (r: Result<(), QueueError>)
    requires
        old(queue).wf(),
    ensures
        (r, *final(queue)) == update_step(*old(queue), *signer, settings),
        final(queue).wf(),
{
    if !queue.authority.same_as(signer) {
        return Err(QueueError::Unauthorized);
    }
    match &settings.trigger {
        Some(t) => {
            if !check_trigger(t) {
                return Err(QueueError::InvalidSchedule);
            }
        },
        None => {},
    }
    match settings.trigger {
        Some(t) => {
            queue.trigger = t;
        },
        None => {},
    }
    match settings.rate_limit {
        Some(l) => {
            queue.rate_limit = l;
        },
        None => {},
    }
    Ok(())
}

/// Moves `amount` from the queue's balance to the account holding `pay_to`.
pub fn queue_withdraw(queue: &mut Queue, signer: &Address, amount: u64, pay_to: &mut u64) -> (r: Result<(), QueueError>)
    requires
        old(queue).wf(),
    ensures
        final(queue).wf(),
        withdraw_block(*old(queue), *signer, amount, *old(pay_to)) is Some ==> r == Err::<(), QueueError>(
            withdraw_block(*old(queue), *signer, amount, *old(pay_to))->0,
        ) && *final(queue) == *old(queue) && *final(pay_to) == *old(pay_to),
        withdraw_block(*old(queue), *signer, amount, *old(pay_to)) is None ==> r is Ok
            && *final(queue) == (Queue { balance: (old(queue).balance - amount) as u64, ..*old(queue) })
            && *final(pay_to) == *old(pay_to) + amount,
{
    if !queue.authority.same_as(signer) {
        return Err(QueueError::Unauthorized);
    }
    if amount > queue.balance {
        return Err(QueueError::InsufficientBalance);
    }
    if *pay_to > u64::MAX - amount {
        return Err(QueueError::BalanceOverflow);
    }
    queue.balance = queue.balance - amount;
    *pay_to = *pay_to + amount;
    Ok(())
}

/// The queue that `queue_create` registers.
pub open spec fn new_queue(
    authority: Address,
    id: String,
    kickoff_instruction: InstructionData,
    trigger: Trigger,
    deposit: u64,
) -> Queue {
    Queue {
        authority,
        id,
        trigger,
        kickoff_instruction,
        next_instruction: None,
        exec_context: None,
        status: QueueStatus::Active,
        rate_limit: DEFAULT_RATE_LIMIT,
        balance: deposit,
    }
}

/// Registers a new active queue of `authority`, funded with `deposit`.
pub fn queue_create(
    book: &mut QueueBook,
    authority: &Address,
    id: String,
    kickoff_instruction: InstructionData,
    trigger: Trigger,
    deposit: u64,
) -> (r: Result<(), QueueError>)
    requires
        old(book).wf(),
    ensures
        final(book).wf(),
        old(book).index_of(*authority, id@) is Some ==> r == Err::<(), QueueError>(QueueError::DuplicateQueue)
            && *final(book) == *old(book),
        old(book).index_of(*authority, id@) is None && !trigger_valid(trigger) ==> r == Err::<(), QueueError>(
            QueueError::InvalidSchedule,
        ) && *final(book) == *old(book),
        old(book).index_of(*authority, id@) is None && trigger_valid(trigger) ==> r is Ok && final(book).queues@
            == old(book).queues@.push(new_queue(*authority, id, kickoff_instruction, trigger, deposit)),
{
    if book.find(authority, &id).is_some() {
        return Err(QueueError::DuplicateQueue);
    }
    if !check_trigger(&trigger) {
        return Err(QueueError::InvalidSchedule);
    }
    let q = Queue {
        authority: *authority,
        id,
        trigger,
        kickoff_instruction,
        next_instruction: None,
        exec_context: None,
        status: QueueStatus::Active,
        rate_limit: DEFAULT_RATE_LIMIT,
        balance: deposit,
    };
    let ghost before = book.queues@;
    book.queues.push(q);
    proof {
        assert forall|i: int, j: int|
            0 <= i < j < book.queues@.len() implies !(#[trigger] book.queues@[i].authority@ == #[trigger] book.queues@[j].authority@
                && book.queues@[i].id@ == book.queues@[j].id@) by {
            if j == before.len() {
                assert(book.queues@[i] == before[i]);
            }
        }
        assert(forall|i: int| 0 <= i < before.len() ==> book.queues@[i] == before[i]);
    }
    Ok(())
}

/// Why deleting the queue at position `i` is refused, crediting an
/// authority account that holds `refund_to`, if it is.
pub open spec fn delete_block(q: Queue, signer: Address, refund_to: u64) -> Option<QueueError> {
    if !q.is_authority(signer) {
        Some(QueueError::Unauthorized)
    } else if q.in_chain() {
        Some(QueueError::InChain)
    } else if refund_to + q.balance > u64::MAX {
        Some(QueueError::BalanceOverflow)
    } else {
        None
    }
}

/// Deletes the queue of `authority` with this id, moving its balance to the
/// authority's account (`refund_to`). Returns the amount refunded.
pub fn queue_delete(
    book: &mut QueueBook,
    signer: &Address,
    authority: &Address,
    id: &String,
    refund_to: &mut u64,
) -> (r: Result<u64, QueueError>)
    requires
        old(book).wf(),
    ensures
        final(book).wf(),
        old(book).index_of(*authority, id@) is None ==> r == Err::<u64, QueueError>(QueueError::QueueNotFound)
            && *final(book) == *old(book) && *final(refund_to) == *old(refund_to),
        old(book).index_of(*authority, id@) is Some ==> {
            let i = old(book).index_of(*authority, id@)->0;
            let q = old(book).queues@[i];
            &&& delete_block(q, *signer, *old(refund_to)) is Some ==> r == Err::<u64, QueueError>(
                delete_block(q, *signer, *old(refund_to))->0,
            ) && *final(book) == *old(book) && *final(refund_to) == *old(refund_to)
            &&& delete_block(q, *signer, *old(refund_to)) is None ==> r == Ok::<u64, QueueError>(q.balance)
                && final(book).queues@ == old(book).queues@.remove(i) && *final(refund_to) == *old(refund_to)
                + q.balance
        },
{
    let found = book.find(authority, id);
    let i = match found {
        None => {
            return Err(QueueError::QueueNotFound);
        },
        Some(i) => i,
    };
    proof {
        let k = book.index_of(*authority, id@)->0;
        assert(k == i) by {
            if k != i {
                if k < i {
                    assert(!(book.queues@[k].authority@ == book.queues@[i as int].authority@
                        && book.queues@[k].id@ == book.queues@[i as int].id@));
                } else {
                    assert(!(book.queues@[i as int].authority@ == book.queues@[k].authority@
                        && book.queues@[i as int].id@ == book.queues@[k].id@));
                }
            }
        }
    }
    if !book.queues[i].authority.same_as(signer) {
        return Err(QueueError::Unauthorized);
    }
    if book.queues[i].next_instruction.is_some() {
        return Err(QueueError::InChain);
    }
    let amount = book.queues[i].balance;
    if *refund_to > u64::MAX - amount {
        return Err(QueueError::BalanceOverflow);
    }
    let ghost before = book.queues@;
    let _removed = book.queues.remove(i);
    *refund_to = *refund_to + amount;
    proof {
        assert forall|a: int| 0 <= a < book.queues@.len() implies #[trigger] book.queues@[a] == before[if a < i {
            a
        } else {
            a + 1
        }] by {}
        assert forall|a: int, b: int|
            0 <= a < b < book.queues@.len() implies !(#[trigger] book.queues@[a].authority@ == #[trigger] book.queues@[b].authority@
                && book.queues@[a].id@ == book.queues@[b].id@) by {
            let a0 = if a < i { a } else { a + 1 };
            let b0 = if b < i { b } else { b + 1 };
            assert(book.queues@[a] == before[a0]);
            assert(book.queues@[b] == before[b0]);
            assert(!(before[a0].authority@ == before[b0].authority@ && before[a0].id@ == before[b0].id@));
        }
        assert forall|a: int| 0 <= a < book.queues@.len() implies (#[trigger] book.queues@[a]).wf() by {
            let a0 = if a < i { a } else { a + 1 };
            assert(book.queues@[a] == before[a0]);
            assert(before[a0].wf());
        }
    }
    Ok(amount)
}


/// A chain is in flight exactly when the queue holds a next instruction,
/// before and after every kickoff and crank: a kickoff runs only on a queue
/// with no chain in flight and a crank only on one with a chain in flight;
/// after either, a chain is in flight exactly when the invoked instruction
/// returned a next one; a refused or ineligible step changes nothing.
pub proof fn lemma_chain_flag(
    q: Queue,
    claimed: Option<u64>,
    state: ChainState,
    kickoff_response: CrankResponse,
    crank_response: CrankResponse,
)
    requires
        q.wf(),
    ensures
        ({
            let (r, after) = kickoff_step(q, claimed, state, kickoff_response);
            &&& after.wf()
            &&& r == Ok::<bool, QueueError>(true) ==> !q.in_chain() && (after.in_chain()
                <==> kickoff_response.next_instruction is Some)
            &&& r != Ok::<bool, QueueError>(true) ==> after == q
            &&& (step_block(q) is None && q.in_chain()) ==> r == Err::<bool, QueueError>(QueueError::InChain)
        }),
        ({
            let (r, after) = crank_step(q, crank_response);
            &&& after.wf()
            &&& r is Ok ==> q.in_chain() && (after.in_chain() <==> crank_response.next_instruction is Some)
            &&& r is Err ==> after == q
            &&& (step_block(q) is None && !q.in_chain()) ==> r == Err::<(), QueueError>(QueueError::NotInChain)
        }),
{
}

/// An immediate trigger runs once: on the queue that a successful kickoff
/// left, any later kickoff changes nothing and runs nothing, whatever cranks
/// came in between.
pub proof fn lemma_immediate_runs_once(
    q: Queue,
    claimed: Option<u64>,
    state: ChainState,
    response: CrankResponse,
    cranks: Seq<CrankResponse>,
    claimed2: Option<u64>,
    state2: ChainState,
    response2: CrankResponse,
)
    requires
        q.wf(),
        q.trigger is Immediate,
        kickoff_step(q, claimed, state, response).0 == Ok::<bool, QueueError>(true),
    ensures
        ({
            let later = cranks.fold_left(kickoff_step(q, claimed, state, response).1, |p: Queue, c: CrankResponse| crank_step(p, c).1);
            let (r2, after2) = kickoff_step(later, claimed2, state2, response2);
            &&& r2 != Ok::<bool, QueueError>(true)
            &&& after2 == later
        }),
{
    let first = kickoff_step(q, claimed, state, response).1;
    lemma_cranks_keep_context(first, cranks);
}

/// Cranks leave the trigger and the execution context as they were.
pub proof fn lemma_cranks_keep_context(q: Queue, cranks: Seq<CrankResponse>)
    ensures
        ({
            let later = cranks.fold_left(q, |p: Queue, c: CrankResponse| crank_step(p, c).1);
            &&& later.trigger == q.trigger
            &&& later.exec_context == q.exec_context
            &&& later.status == q.status
        }),
    decreases cranks.len(),
{
    if cranks.len() > 0 {
        lemma_cranks_keep_context(q, cranks.drop_last());
        cranks.lemma_fold_left_split(q, |p: Queue, c: CrankResponse| crank_step(p, c).1, cranks.len() - 1);
        let f = |p: Queue, c: CrankResponse| crank_step(p, c).1;
        assert(cranks.subrange(0, cranks.len() - 1) =~= cranks.drop_last());
        let mid = cranks.drop_last().fold_left(q, f);
        let tail = cranks.subrange(cranks.len() - 1, cranks.len() as int);
        assert(tail.drop_last() =~= Seq::<CrankResponse>::empty());
        assert(tail.fold_left(mid, f) == f(tail.drop_last().fold_left(mid, f), tail.last()));
    }
}

/// An update that patches only the rate limit leaves the trigger as it was,
/// and one that patches only the trigger leaves the rate limit as it was;
/// nothing else changes either way.
pub proof fn lemma_update_is_sparse(q: Queue, signer: Address, rate_limit: u64, trigger: Trigger)
    ensures
        ({
            let after = update_step(q, signer, QueueSettings { trigger: None, rate_limit: Some(rate_limit) }).1;
            &&& after.trigger == q.trigger
            &&& after == (Queue { rate_limit: after.rate_limit, ..q })
        }),
        ({
            let after = update_step(q, signer, QueueSettings { trigger: Some(trigger), rate_limit: None }).1;
            &&& after.rate_limit == q.rate_limit
            &&& after == (Queue { trigger: after.trigger, ..q })
        }),
{
}

} // verus!
