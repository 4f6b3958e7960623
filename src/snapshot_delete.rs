//! The network's snapshot cleanup crank: an empty stale snapshot is closed
//! and its balance goes to the epoch queue; one with frames has them
//! deleted first, one crank at a time.
use vstd::prelude::*;
use vstd::string::StringSliceAdditionalSpecFns;

use crate::address::Address;
use crate::instruction::{AccountMetaData, CrankResponse};
use crate::network::{derived, snapshot_frame_address, snapshot_frame_seeds, Config, NetworkError, Registry, Snapshot};
use crate::registry_epoch_kickoff::{is_network_ix, network_ix};

verus! {

/// The accounts of the cleanup crank: the config, the epoch queue that
/// signs (and is credited), the registry and the stale snapshot.
#[derive(Clone, Copy, Debug)]
pub struct SnapshotDelete {
    pub program_id: Address,
    pub config_address: Address,
    pub config: Config,
    pub queue: Address,
    pub queue_balance: u64,
    pub registry_address: Address,
    pub registry: Registry,
    pub snapshot_address: Address,
    pub snapshot: Snapshot,
}

/// Why the cleanup crank is refused, if it is.
pub open spec fn snapshot_delete_error(ctx: SnapshotDelete) -> Option<NetworkError> {
    if ctx.queue@ != ctx.config.epoch_queue@ {
        Some(NetworkError::NotEpochQueue)
    } else if ctx.registry.locked {
        Some(NetworkError::RegistryLocked)
    } else if ctx.snapshot.id >= ctx.registry.current_epoch {
        Some(NetworkError::WrongSnapshot)
    } else if ctx.snapshot.total_frames == 0 && ctx.queue_balance + ctx.snapshot.balance > u64::MAX {
        Some(NetworkError::Overflow)
    } else if ctx.snapshot.total_frames > 0 && derived(snapshot_frame_seeds(ctx.snapshot_address, 0), ctx.program_id)
        is None {
        Some(NetworkError::AddressNotFound)
    } else {
        None
    }
}

/// Runs the cleanup crank.
pub fn handler(ctx: &mut SnapshotDelete) -> (r: Result<CrankResponse, NetworkError>)
    ensures
        snapshot_delete_error(*old(ctx)) is Some ==> r == Err::<CrankResponse, NetworkError>(
            snapshot_delete_error(*old(ctx))->0,
        ) && *final(ctx) == *old(ctx),
        snapshot_delete_error(*old(ctx)) is None && old(ctx).snapshot.total_frames == 0 ==> r is Ok
            && *final(ctx) == (SnapshotDelete {
            queue_balance: (old(ctx).queue_balance + old(ctx).snapshot.balance) as u64,
            snapshot: Snapshot { balance: 0, ..old(ctx).snapshot },
            ..*old(ctx)
        }) && r->Ok_0.kickoff_instruction is None && r->Ok_0.next_instruction is None,
        snapshot_delete_error(*old(ctx)) is None && old(ctx).snapshot.total_frames > 0 ==> r is Ok && *final(ctx)
            == *old(ctx) && r->Ok_0.kickoff_instruction is None && r->Ok_0.next_instruction is Some
            && is_network_ix(
            r->Ok_0.next_instruction->0,
            old(ctx).program_id,
            "global:snapshot_frame_delete".spec_bytes(),
            seq![
                (old(ctx).config_address@, false, false),
                (old(ctx).queue@, true, true),
                (old(ctx).registry_address@, false, false),
                (old(ctx).snapshot_address@, false, true),
                (derived(snapshot_frame_seeds(old(ctx).snapshot_address, 0), old(ctx).program_id)->0, false, true),
            ],
        ),
{
    if !ctx.queue.same_as(&ctx.config.epoch_queue) {
        return Err(NetworkError::NotEpochQueue);
    }
    if ctx.registry.locked {
        return Err(NetworkError::RegistryLocked);
    }
    if ctx.snapshot.id >= ctx.registry.current_epoch {
        return Err(NetworkError::WrongSnapshot);
    }
    if ctx.snapshot.total_frames == 0 {
        if ctx.queue_balance > u64::MAX - ctx.snapshot.balance {
            return Err(NetworkError::Overflow);
        }
        ctx.queue_balance = ctx.queue_balance + ctx.snapshot.balance;
        ctx.snapshot.balance = 0;
        return Ok(CrankResponse { kickoff_instruction: None, next_instruction: None });
    }
    let p = ctx.program_id;
    let snapshot = ctx.snapshot_address;
    let frame = match snapshot_frame_address(&p, &snapshot, 0) {
        Some(a) => a,
        None => {
            return Err(NetworkError::AddressNotFound);
        },
    };
    let mut accounts: Vec<AccountMetaData> = Vec::new();
    accounts.push(AccountMetaData::new_readonly(ctx.config_address, false));
    accounts.push(AccountMetaData::new(ctx.queue, true));
    accounts.push(AccountMetaData::new_readonly(ctx.registry_address, false));
    accounts.push(AccountMetaData::new(snapshot, false));
    accounts.push(AccountMetaData::new(frame, false));
    let next = network_ix(p, "global:snapshot_frame_delete".as_bytes(), accounts);
    Ok(CrankResponse { kickoff_instruction: None, next_instruction: Some(next) })
}

} // verus!
