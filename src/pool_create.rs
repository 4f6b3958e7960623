//! The instruction that creates a worker pool in the network program.
use vstd::prelude::*;
use vstd::string::StringSliceAdditionalSpecFns;

use crate::address::Address;
use crate::instruction::{AccountMetaData, InstructionData};
use crate::network::{config_address, config_seeds, derived, registry_address, registry_seeds};
use crate::registry_epoch_kickoff::{is_network_ix, network_ix};

verus! {

/// The system program's address.
pub const SYSTEM_PROGRAM_ID: [u8; 32] = [
    0, 0, 0, 0, 0, 0, 0, 0, 0, 0, 0, 0, 0, 0, 0, 0,
    0, 0, 0, 0, 0, 0, 0, 0, 0, 0, 0, 0, 0, 0, 0, 0,
];

/// The instruction by which `admin` creates `pool` in the network program
/// `program_id`, paid by `payer`; none when the config or registry address
/// cannot be derived.
pub fn pool_create(program_id: &Address, admin: &Address, payer: &Address, pool: &Address) -> (r: Option<InstructionData>)
    ensures
        r is Some <==> derived(config_seeds(), *program_id) is Some && derived(registry_seeds(), *program_id) is Some,
        r is Some ==> is_network_ix(
            r->0,
            *program_id,
            "global:pool_create".spec_bytes(),
            seq![
                (admin@, true, false),
                (derived(config_seeds(), *program_id)->0, false, false),
                (payer@, true, true),
                (pool@, false, true),
                (derived(registry_seeds(), *program_id)->0, false, true),
                (SYSTEM_PROGRAM_ID@, false, false),
            ],
        ),
{
    let config = match config_address(program_id) {
        Some(a) => a,
        None => {
            return None;
        },
    };
    let registry = match registry_address(program_id) {
        Some(a) => a,
        None => {
            return None;
        },
    };
    let mut accounts: Vec<AccountMetaData> = Vec::new();
    accounts.push(AccountMetaData::new_readonly(*admin, true));
    accounts.push(AccountMetaData::new_readonly(config, false));
    accounts.push(AccountMetaData::new(*payer, true));
    accounts.push(AccountMetaData::new(*pool, false));
    accounts.push(AccountMetaData::new(registry, false));
    accounts.push(AccountMetaData::new_readonly(Address { bytes: SYSTEM_PROGRAM_ID }, false));
    Some(network_ix(*program_id, "global:pool_create".as_bytes(), accounts))
}

} // verus!
