//! The network's epoch crank: it locks the registry, points the epoch
//! queue's next kickoff at the following snapshot, and picks the first step
//! of the epoch's work.
use vstd::prelude::*;
use vstd::string::StringSliceAdditionalSpecFns;

use crate::address::Address;
use crate::builder::{discriminator, discriminator_of};
use crate::instruction::{AccountMetaData, CrankResponse, InstructionData};
use crate::network::{
    derived, fee_address, fee_seeds, meta, snapshot_address, snapshot_frame_address, snapshot_frame_seeds,
    snapshot_seeds, worker_address, worker_seeds, Config, NetworkError, Registry, Snapshot,
};

verus! {

/// The accounts of the epoch crank: the network's config, the epoch queue
/// that signs, the registry (written) and the current snapshot.
#[derive(Clone, Copy, Debug)]
pub struct RegistryEpochKickoff {
    pub program_id: Address,
    pub config_address: Address,
    pub config: Config,
    pub queue: Address,
    pub registry_address: Address,
    pub registry: Registry,
    pub snapshot_address: Address,
    pub snapshot: Snapshot,
}

/// Which step starts the epoch's work.
pub enum EpochStep {
    /// The snapshot has frames: distribute the fees that workers collected.
    DistributeFees,
    /// The registry has workers: stake their delegations.
    StakeDelegations,
    /// Nothing to do: move to the next epoch.
    Cutover,
}

pub open spec fn epoch_step(ctx: RegistryEpochKickoff) -> EpochStep {
    if ctx.snapshot.total_frames > 0 {
        EpochStep::DistributeFees
    } else if ctx.registry.total_workers > 0 {
        EpochStep::StakeDelegations
    } else {
        EpochStep::Cutover
    }
}

/// Worker 0's address, when derived.
pub open spec fn first_worker(p: Address) -> Option<Seq<u8>> {
    derived(worker_seeds(0), p)
}

/// Why the epoch crank is refused, if it is.
pub open spec fn epoch_kickoff_error(ctx: RegistryEpochKickoff) -> Option<NetworkError> {
    let p = ctx.program_id;
    if ctx.queue@ != ctx.config.epoch_queue@ {
        Some(NetworkError::NotEpochQueue)
    } else if ctx.snapshot.id != ctx.registry.current_epoch {
        Some(NetworkError::WrongSnapshot)
    } else if ctx.snapshot.id == u64::MAX {
        Some(NetworkError::Overflow)
    } else if derived(snapshot_seeds((ctx.snapshot.id + 1) as u64), p) is None {
        Some(NetworkError::AddressNotFound)
    } else if epoch_step(ctx) is DistributeFees && (first_worker(p) is None || derived(
        fee_seeds(first_worker(p)->0),
        p,
    ) is None || derived(snapshot_frame_seeds(ctx.snapshot_address, 0), p) is None) {
        Some(NetworkError::AddressNotFound)
    } else if epoch_step(ctx) is StakeDelegations && first_worker(p) is None {
        Some(NetworkError::AddressNotFound)
    } else {
        None
    }
}

/// `ix` calls the network program's instruction `name` (given by its
/// discriminator preimage) on `accounts`, compared by address bytes and flags.
pub open spec fn is_network_ix(ix: InstructionData, p: Address, preimage: Seq<u8>, accounts: Seq<(Seq<u8>, bool, bool)>) -> bool {
    &&& ix.program_id == p
    &&& ix.data@ == discriminator_of(preimage)
    &&& ix.accounts@.len() == accounts.len()
    &&& forall|i: int| 0 <= i < accounts.len() ==> {
        let a = #[trigger] ix.accounts@[i];
        (a.pubkey@, a.is_signer, a.is_writable) == accounts[i]
    }
}

/// The epoch queue's next kickoff: the same crank on the following snapshot.
pub open spec fn next_kickoff_accounts(ctx: RegistryEpochKickoff) -> Seq<(Seq<u8>, bool, bool)> {
    seq![
        (ctx.config_address@, false, false),
        (ctx.queue@, true, false),
        (ctx.registry_address@, false, true),
        (derived(snapshot_seeds((ctx.snapshot.id + 1) as u64), ctx.program_id)->0, false, false),
    ]
}

/// The first step of the epoch's work, as (discriminator preimage, accounts).
pub open spec fn first_step_accounts(ctx: RegistryEpochKickoff) -> (Seq<u8>, Seq<(Seq<u8>, bool, bool)>) {
    let p = ctx.program_id;
    let worker = first_worker(p)->0;
    match epoch_step(ctx) {
        EpochStep::DistributeFees => (
            "global:worker_fees_distribute".spec_bytes(),
            seq![
                (ctx.config_address@, false, false),
                (derived(fee_seeds(worker), p)->0, false, true),
                (ctx.queue@, true, false),
                (ctx.registry_address@, false, false),
                (ctx.snapshot_address@, false, false),
                (derived(snapshot_frame_seeds(ctx.snapshot_address, 0), p)->0, false, false),
                (worker, false, true),
            ],
        ),
        EpochStep::StakeDelegations => (
            "global:worker_delegations_stake".spec_bytes(),
            seq![
                (ctx.config_address@, false, false),
                (ctx.queue@, true, false),
                (ctx.registry_address@, false, false),
                (worker, false, false),
            ],
        ),
        EpochStep::Cutover => (
            "global:registry_epoch_cutover".spec_bytes(),
            seq![
                (ctx.config_address@, false, false),
                (ctx.queue@, true, false),
                (ctx.registry_address@, false, true),
            ],
        ),
    }
}

pub(crate) fn network_ix(program_id: Address, preimage: &[u8], accounts: Vec<AccountMetaData>) -> (r: InstructionData)
    ensures
        r.program_id == program_id,
        r.data@ == discriminator_of(preimage@),
        r.accounts == accounts,
{
    InstructionData { program_id, accounts, data: discriminator(preimage) }
}

/// Runs the epoch crank: locks the registry and returns the epoch queue's
/// next kickoff instruction and the first step of the epoch's work.
pub fn handler(ctx: &mut RegistryEpochKickoff) -> (r: Result<CrankResponse, NetworkError>)
    ensures
        epoch_kickoff_error(*old(ctx)) is Some ==> r == Err::<CrankResponse, NetworkError>(
            epoch_kickoff_error(*old(ctx))->0,
        ) && *final(ctx) == *old(ctx),
        epoch_kickoff_error(*old(ctx)) is None ==> r is Ok && *final(ctx) == (RegistryEpochKickoff {
            registry: Registry { locked: true, ..old(ctx).registry },
            ..*old(ctx)
        }) && ({
            let resp = r->Ok_0;
            &&& resp.kickoff_instruction is Some
            &&& is_network_ix(
                resp.kickoff_instruction->0,
                old(ctx).program_id,
                "global:registry_epoch_kickoff".spec_bytes(),
                next_kickoff_accounts(*old(ctx)),
            )
            &&& resp.next_instruction is Some
            &&& is_network_ix(
                resp.next_instruction->0,
                old(ctx).program_id,
                first_step_accounts(*old(ctx)).0,
                first_step_accounts(*old(ctx)).1,
            )
        }),
{
    let p = ctx.program_id;
    if !ctx.queue.same_as(&ctx.config.epoch_queue) {
        return Err(NetworkError::NotEpochQueue);
    }
    if ctx.snapshot.id != ctx.registry.current_epoch {
        return Err(NetworkError::WrongSnapshot);
    }
    if ctx.snapshot.id == u64::MAX {
        return Err(NetworkError::Overflow);
    }
    let next_snapshot = match snapshot_address(&p, ctx.snapshot.id + 1) {
        Some(a) => a,
        None => {
            return Err(NetworkError::AddressNotFound);
        },
    };
    let config = ctx.config_address;
    let queue = ctx.queue;
    let registry = ctx.registry_address;
    let snapshot = ctx.snapshot_address;
    let next_instruction = if ctx.snapshot.total_frames > 0 {
        let worker = match worker_address(&p, 0) {
            Some(a) => a,
            None => {
                return Err(NetworkError::AddressNotFound);
            },
        };
        let fee = match fee_address(&p, &worker) {
            Some(a) => a,
            None => {
                return Err(NetworkError::AddressNotFound);
            },
        };
        let frame = match snapshot_frame_address(&p, &snapshot, 0) {
            Some(a) => a,
            None => {
                return Err(NetworkError::AddressNotFound);
            },
        };
        let mut accounts: Vec<AccountMetaData> = Vec::new();
        accounts.push(AccountMetaData::new_readonly(config, false));
        accounts.push(AccountMetaData::new(fee, false));
        accounts.push(AccountMetaData::new_readonly(queue, true));
        accounts.push(AccountMetaData::new_readonly(registry, false));
        accounts.push(AccountMetaData::new_readonly(snapshot, false));
        accounts.push(AccountMetaData::new_readonly(frame, false));
        accounts.push(AccountMetaData::new(worker, false));
        network_ix(p, "global:worker_fees_distribute".as_bytes(), accounts)
    } else if ctx.registry.total_workers > 0 {
        let worker = match worker_address(&p, 0) {
            Some(a) => a,
            None => {
                return Err(NetworkError::AddressNotFound);
            },
        };
        let mut accounts: Vec<AccountMetaData> = Vec::new();
        accounts.push(AccountMetaData::new_readonly(config, false));
        accounts.push(AccountMetaData::new_readonly(queue, true));
        accounts.push(AccountMetaData::new_readonly(registry, false));
        accounts.push(AccountMetaData::new_readonly(worker, false));
        network_ix(p, "global:worker_delegations_stake".as_bytes(), accounts)
    } else {
        let mut accounts: Vec<AccountMetaData> = Vec::new();
        accounts.push(AccountMetaData::new_readonly(config, false));
        accounts.push(AccountMetaData::new_readonly(queue, true));
        accounts.push(AccountMetaData::new(registry, false));
        network_ix(p, "global:registry_epoch_cutover".as_bytes(), accounts)
    };
    let mut kickoff_accounts: Vec<AccountMetaData> = Vec::new();
    kickoff_accounts.push(AccountMetaData::new_readonly(config, false));
    kickoff_accounts.push(AccountMetaData::new_readonly(queue, true));
    kickoff_accounts.push(AccountMetaData::new(registry, false));
    kickoff_accounts.push(AccountMetaData::new_readonly(next_snapshot, false));
    let kickoff_instruction = network_ix(p, "global:registry_epoch_kickoff".as_bytes(), kickoff_accounts);
    ctx.registry.locked = true;
    Ok(CrankResponse { kickoff_instruction: Some(kickoff_instruction), next_instruction: Some(next_instruction) })
}

} // verus!
