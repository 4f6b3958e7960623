//! The crank batch builder: turns a queue's pending work into the longest
//! batch of chained instructions that fits the size cap and that a dry run
//! showed to succeed. The builder decides; the caller measures and simulates.
use vstd::prelude::*;
use vstd::string::StringSliceAdditionalSpecFns;

use crate::address::{sha256, sha256_of, Address, PAYER_PLACEHOLDER, QUEUE_PROGRAM_ID};
use crate::instruction::{AccountMetaData, InstructionData};
use crate::queue::Queue;
use crate::trigger::{fingerprint, fingerprint_of, le_bytes, le_digits, prior_fingerprint, Trigger, TriggerContext};

verus! {

/// The first 8 bytes of the SHA-256 digest of `preimage`: how the queue
/// program tells its instructions apart.
pub open spec fn discriminator_of(preimage: Seq<u8>) -> Seq<u8> {
    sha256_of(preimage).take(8)
}

pub open spec fn kickoff_preimage() -> Seq<u8> {
    "global:queue_kickoff".spec_bytes()
}

pub open spec fn crank_preimage() -> Seq<u8> {
    "global:queue_crank".spec_bytes()
}

/// An optional fingerprint as the kickoff instruction encodes it: a tag
/// byte, then the value's 8 bytes, least significant first.
pub open spec fn option_bytes(h: Option<u64>) -> Seq<u8> {
    match h {
        Some(v) => seq![1u8] + le_digits(v as nat, 8),
        None => seq![0u8],
    }
}

/// The accounts that every kickoff and crank instruction starts with: the
/// queue, the submitting worker's signing address (which pays), and the
/// worker's own address.
pub open spec fn base_accounts(queue: Address, signatory: Address, worker: Address) -> Seq<AccountMetaData> {
    seq![
        AccountMetaData { pubkey: queue, is_signer: false, is_writable: true },
        AccountMetaData { pubkey: signatory, is_signer: true, is_writable: true },
        AccountMetaData { pubkey: worker, is_signer: false, is_writable: false },
    ]
}

/// An account of a chained instruction as the crank passes it on: the payer
/// placeholder becomes the signing address; nothing is passed as a signer.
pub open spec fn resolve_payer(a: AccountMetaData, signatory: Address) -> AccountMetaData {
    AccountMetaData {
        pubkey: if a.pubkey@ == PAYER_PLACEHOLDER@ {
            signatory
        } else {
            a.pubkey
        },
        is_signer: false,
        is_writable: a.is_writable,
    }
}

/// `ix` is the crank instruction that runs `next` for the queue at `queue`.
pub open spec fn is_crank_ix(
    ix: InstructionData,
    next: InstructionData,
    queue: Address,
    signatory: Address,
    worker: Address,
) -> bool {
    &&& ix.program_id@ == QUEUE_PROGRAM_ID@
    &&& ix.data@ == discriminator_of(crank_preimage())
    &&& ix.accounts@ == base_accounts(queue, signatory, worker).push(
        AccountMetaData { pubkey: next.program_id, is_signer: false, is_writable: false },
    ) + next.accounts@.map_values(|a: AccountMetaData| resolve_payer(a, signatory))
}

/// The fingerprint that a worker claims when kicking off `q`, given the
/// watched account's content: one only for an account trigger whose
/// account exists.
pub open spec fn claimed_fingerprint(q: Queue, watched_data: Option<Vec<u8>>) -> Option<u64> {
    match (q.trigger, watched_data) {
        (Trigger::Account { .. }, Some(d)) => Some(fingerprint_of(d@, prior_fingerprint(q.exec_context))),
        _ => None,
    }
}

/// `ix` is the kickoff instruction of `q` at `queue`, given the watched
/// account's content. An account trigger's watched account follows the
/// base accounts.
pub open spec fn is_kickoff_ix(
    ix: InstructionData,
    q: Queue,
    watched_data: Option<Vec<u8>>,
    queue: Address,
    signatory: Address,
    worker: Address,
) -> bool {
    &&& ix.program_id@ == QUEUE_PROGRAM_ID@
    &&& ix.data@ == discriminator_of(kickoff_preimage()) + option_bytes(claimed_fingerprint(q, watched_data))
    &&& ix.accounts@ == match q.trigger {
        Trigger::Account { address } => base_accounts(queue, signatory, worker).push(
            AccountMetaData { pubkey: address, is_signer: false, is_writable: false },
        ),
        _ => base_accounts(queue, signatory, worker),
    }
}

pub(crate) fn discriminator(preimage: &[u8]) -> (r: Vec<u8>)
    ensures
        r@ == discriminator_of(preimage@),
{
    let digest = sha256(preimage);
    let mut out: Vec<u8> = Vec::new();
    let mut i: usize = 0;
    while i < 8
        invariant
            0 <= i <= 8,
            digest@.len() == 32,
            out@ == digest@.take(i as int),
        decreases 8 - i,
    {
        out.push(digest[i]);
        assert(out@ =~= digest@.take(i as int + 1));
        i = i + 1;
    }
    out
}

fn base_account_list(queue: &Address, signatory: &Address, worker: &Address) -> (r: Vec<AccountMetaData>)
    ensures
        r@ == base_accounts(*queue, *signatory, *worker),
{
    let mut v: Vec<AccountMetaData> = Vec::new();
    v.push(AccountMetaData::new(*queue, false));
    v.push(AccountMetaData::new(*signatory, true));
    v.push(AccountMetaData::new_readonly(*worker, false));
    assert(v@ =~= base_accounts(*queue, *signatory, *worker));
    v
}

/// The crank instruction that runs `next` for the queue at `queue_address`,
/// with the payer placeholder resolved to `signatory`.
pub fn build_crank_ix(
    next: &InstructionData,
    queue_address: &Address,
    signatory: &Address,
    worker: &Address,
) -> (r: InstructionData)
    ensures
        is_crank_ix(r, *next, *queue_address, *signatory, *worker),
{
    let mut accounts = base_account_list(queue_address, signatory, worker);
    accounts.push(AccountMetaData::new_readonly(next.program_id, false));
    let ghost head = accounts@;
    let placeholder = Address { bytes: PAYER_PLACEHOLDER };
    let mut i: usize = 0;
    while i < next.accounts.len()
        invariant
            0 <= i <= next.accounts@.len(),
            placeholder@ == PAYER_PLACEHOLDER@,
            accounts@ == head + next.accounts@.take(i as int).map_values(
                |a: AccountMetaData| resolve_payer(a, *signatory),
            ),
        decreases next.accounts@.len() - i,
    {
        let acc = next.accounts[i];
        let key = if acc.pubkey.same_as(&placeholder) {
            *signatory
        } else {
            acc.pubkey
        };
        let meta = if acc.is_writable {
            AccountMetaData::new(key, false)
        } else {
            AccountMetaData::new_readonly(key, false)
        };
        accounts.push(meta);
        assert(next.accounts@.take(i as int + 1) =~= next.accounts@.take(i as int).push(acc));
        assert(accounts@ =~= head + next.accounts@.take(i as int + 1).map_values(
            |a: AccountMetaData| resolve_payer(a, *signatory),
        ));
        i = i + 1;
    }
    assert(next.accounts@.take(next.accounts@.len() as int) =~= next.accounts@);
    let data = discriminator("global:queue_crank".as_bytes());
    InstructionData { program_id: Address { bytes: QUEUE_PROGRAM_ID }, accounts, data }
}

/// The kickoff instruction of `queue`, which stands at `queue_address`.
/// For an account trigger it claims the fingerprint of `watched_data`, the
/// watched account's content, when that account exists.
pub fn build_kickoff_ix(
    queue: &Queue,
    watched_data: &Option<Vec<u8>>,
    queue_address: &Address,
    signatory: &Address,
    worker: &Address,
) -> (r: InstructionData)
    ensures
        is_kickoff_ix(r, *queue, *watched_data, *queue_address, *signatory, *worker),
{
    let mut accounts = base_account_list(queue_address, signatory, worker);
    let claimed: Option<u64> = match &queue.trigger {
        Trigger::Account { address } => {
            accounts.push(AccountMetaData::new_readonly(*address, false));
            match watched_data {
                Some(d) => {
                    let prior = match queue.exec_context {
                        Some(ctx) => match ctx.trigger_context {
                            TriggerContext::Account { data_hash } => Some(data_hash),
                            _ => None,
                        },
                        None => None,
                    };
                    Some(fingerprint(d.as_slice(), prior))
                },
                None => None,
            }
        },
        _ => None,
    };
    let mut data = discriminator("global:queue_kickoff".as_bytes());
    let ghost disc = data@;
    match claimed {
        Some(h) => {
            data.push(1u8);
            let mut bytes = le_bytes(h);
            data.append(&mut bytes);
        },
        None => {
            data.push(0u8);
        },
    }
    assert(data@ =~= disc + option_bytes(claimed));
    InstructionData { program_id: Address { bytes: QUEUE_PROGRAM_ID }, accounts, data }
}

/// The instruction that a batch for `queue` starts with: a crank when a
/// chain is in flight, else a kickoff.
pub fn entry_instruction(
    queue: &Queue,
    watched_data: &Option<Vec<u8>>,
    queue_address: &Address,
    signatory: &Address,
    worker: &Address,
) -> (r: InstructionData)
    ensures
        queue.in_chain() ==> is_crank_ix(r, queue.next_instruction->0, *queue_address, *signatory, *worker),
        !queue.in_chain() ==> is_kickoff_ix(r, *queue, *watched_data, *queue_address, *signatory, *worker),
{
    match &queue.next_instruction {
        Some(next) => build_crank_ix(next, queue_address, signatory, worker),
        None => build_kickoff_ix(queue, watched_data, queue_address, signatory, worker),
    }
}


/// Where a build stands: the candidate batch waits to be measured, or to be
/// simulated, or the build is over.
#[derive(Clone, Copy, Debug, PartialEq, Eq, Structural)]
pub enum BuildPhase {
    Measure,
    Simulate,
    Done,
}

/// What a dry run of the candidate batch showed: it failed, or it succeeded
/// and left the queue with this next instruction.
#[derive(Clone, Debug)]
pub enum SimulationOutcome {
    Failed,
    Succeeded { next_instruction: Option<InstructionData> },
}

/// A build in progress. `instructions` is the candidate batch; its first
/// `accepted` instructions form the last batch that fit the cap and
/// simulated successfully, of serialized size `accepted_size`.
#[derive(Clone, Debug)]
pub struct BatchBuilder {
    pub queue_address: Address,
    pub signatory: Address,
    pub worker: Address,
    pub size_limit: usize,
    pub instructions: Vec<InstructionData>,
    pub accepted: usize,
    pub accepted_size: usize,
    pub pending_size: usize,
    pub phase: BuildPhase,
}

impl BatchBuilder {
    /// The candidate is the accepted batch and one more instruction until the
    /// build is over; a batch is accepted only within the cap.
    pub open spec fn wf(self) -> bool {
        &&& self.instructions@.len() >= 1
        &&& self.accepted <= self.instructions@.len()
        &&& self.phase != BuildPhase::Done ==> self.accepted + 1 == self.instructions@.len()
        &&& self.phase == BuildPhase::Simulate ==> self.pending_size <= self.size_limit
        &&& self.accepted > 0 ==> self.accepted_size <= self.size_limit
    }

    /// The batch that the build yields: the accepted prefix.
    pub open spec fn result(self) -> Seq<InstructionData> {
        self.instructions@.take(self.accepted as int)
    }

    /// After the candidate measured `size` bytes: over the cap the build
    /// ends; otherwise the candidate goes to simulation.
    pub open spec fn measured_to(self, size: usize, next: BatchBuilder) -> bool {
        if self.phase != BuildPhase::Measure {
            next == self
        } else if size > self.size_limit {
            next == BatchBuilder { phase: BuildPhase::Done, ..self }
        } else {
            next == BatchBuilder { phase: BuildPhase::Simulate, pending_size: size, ..self }
        }
    }

    /// After the candidate's dry run: a failure ends the build; a success
    /// accepts the candidate, and extends it by a crank of the next
    /// instruction, if the queue has one, or else ends the build.
    pub open spec fn simulated_to(self, outcome: SimulationOutcome, next: BatchBuilder) -> bool {
        if self.phase != BuildPhase::Simulate {
            next == self
        } else {
            match outcome {
                SimulationOutcome::Failed => next == BatchBuilder { phase: BuildPhase::Done, ..self },
                SimulationOutcome::Succeeded { next_instruction } => {
                    &&& next.queue_address == self.queue_address
                    &&& next.signatory == self.signatory
                    &&& next.worker == self.worker
                    &&& next.size_limit == self.size_limit
                    &&& next.accepted == self.instructions@.len()
                    &&& next.accepted_size == self.pending_size
                    &&& next.pending_size == self.pending_size
                    &&& match next_instruction {
                        Some(n) => {
                            &&& next.phase == BuildPhase::Measure
                            &&& next.instructions@.len() == self.instructions@.len() + 1
                            &&& next.instructions@.drop_last() == self.instructions@
                            &&& is_crank_ix(next.instructions@.last(), n, self.queue_address, self.signatory, self.worker)
                        },
                        None => {
                            &&& next.phase == BuildPhase::Done
                            &&& next.instructions@ == self.instructions@
                        },
                    }
                },
            }
        }
    }

    /// A build whose first candidate is `entry` alone.
    pub fn new(
        entry: InstructionData,
        queue_address: Address,
        signatory: Address,
        worker: Address,
        size_limit: usize,
    ) -> (r: BatchBuilder)
        ensures
            r.wf(),
            r.instructions@ == seq![entry],
            r.accepted == 0,
            r.phase == BuildPhase::Measure,
            r.queue_address == queue_address,
            r.signatory == signatory,
            r.worker == worker,
            r.size_limit == size_limit,
    {
        let mut instructions: Vec<InstructionData> = Vec::new();
        instructions.push(entry);
        assert(instructions@ =~= seq![entry]);
        BatchBuilder {
            queue_address,
            signatory,
            worker,
            size_limit,
            instructions,
            accepted: 0,
            accepted_size: 0,
            pending_size: 0,
            phase: BuildPhase::Measure,
        }
    }

    /// Records the serialized size of the candidate batch.
    pub fn measured(&mut self, size: usize)
        requires
            old(self).wf(),
        ensures
            final(self).wf(),
            old(self).measured_to(size, *final(self)),
    {
        if self.phase != BuildPhase::Measure {
            return;
        }
        if size > self.size_limit {
            self.phase = BuildPhase::Done;
        } else {
            self.phase = BuildPhase::Simulate;
            self.pending_size = size;
        }
    }

    /// Records the outcome of the candidate batch's dry run.
    pub fn simulated(&mut self, outcome: SimulationOutcome)
        requires
            old(self).wf(),
        ensures
            final(self).wf(),
            old(self).simulated_to(outcome, *final(self)),
    {
        if self.phase != BuildPhase::Simulate {
            return;
        }
        match outcome {
            SimulationOutcome::Failed => {
                self.phase = BuildPhase::Done;
            },
            SimulationOutcome::Succeeded { next_instruction } => {
                self.accepted = self.instructions.len();
                self.accepted_size = self.pending_size;
                match next_instruction {
                    Some(n) => {
                        let ix = build_crank_ix(&n, &self.queue_address, &self.signatory, &self.worker);
                        let ghost before = self.instructions@;
                        self.instructions.push(ix);
                        assert(self.instructions@.drop_last() =~= before);
                        self.phase = BuildPhase::Measure;
                    },
                    None => {
                        self.phase = BuildPhase::Done;
                    },
                }
            },
        }
    }

    /// Whether the build is over.
    pub fn is_done(&self) -> (r: bool)
        ensures
            r == (self.phase == BuildPhase::Done),
    {
        self.phase == BuildPhase::Done
    }

    /// The batch that the build yields; empty when there is nothing to submit.
    pub fn into_batch(self) -> (r: Vec<InstructionData>)
        requires
            self.wf(),
        ensures
            r@ == self.result(),
    {
        let mut v = self.instructions;
        v.truncate(self.accepted);
        v
    }
}

/// A batch that the builder yields never exceeds the size cap: whenever it
/// holds any instruction, the serialized size measured for it is within the cap.
pub proof fn lemma_batch_within_cap(b: BatchBuilder)
    requires
        b.wf(),
    ensures
        b.result().len() > 0 ==> b.accepted_size <= b.size_limit,
{
}

/// The result is a strict prefix of the chain: when the candidate
/// I1..Ik+1 is over the cap, or its dry run fails, the build ends with
/// exactly I1..Ik.
pub proof fn lemma_prefix_on_rejection(b: BatchBuilder, size: usize, after: BatchBuilder)
    requires
        b.wf(),
        b.phase != BuildPhase::Done,
        (b.phase == BuildPhase::Measure && size > b.size_limit && b.measured_to(size, after)) || (b.phase
            == BuildPhase::Simulate && b.simulated_to(SimulationOutcome::Failed, after)),
    ensures
        after.phase == BuildPhase::Done,
        after.result() == b.instructions@.drop_last(),
{
    assert(b.instructions@.take(b.accepted as int) =~= b.instructions@.drop_last());
}

/// Each accepted batch extends the one before: a successful dry run keeps
/// every instruction already in the candidate, in order.
pub proof fn lemma_accepted_extends(b: BatchBuilder, n: Option<InstructionData>, after: BatchBuilder)
    requires
        b.wf(),
        b.phase == BuildPhase::Simulate,
        b.simulated_to(SimulationOutcome::Succeeded { next_instruction: n }, after),
    ensures
        after.wf(),
        after.result() == b.instructions@,
        b.result().len() < after.result().len(),
{
    assert(after.instructions@.take(after.accepted as int) =~= b.instructions@);
}

} // verus!
