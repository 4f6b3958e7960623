//! Instructions as stored in a queue, and what an invoked instruction returns.
use vstd::prelude::*;

use crate::address::Address;

verus! {

/// One account that an instruction reads or writes.
#[derive(Clone, Copy, Debug)]
pub struct AccountMetaData {
    pub pubkey: Address,
    pub is_signer: bool,
    pub is_writable: bool,
}

/// A call descriptor: the program to invoke, its accounts and its data.
#[derive(Clone, Debug)]
pub struct InstructionData {
    pub program_id: Address,
    pub accounts: Vec<AccountMetaData>,
    pub data: Vec<u8>,
}

/// What each instruction invoked by a kickoff or a crank returns: an optional
/// replacement for the queue's kickoff instruction and the optional next step
/// of the chain. No next step means the chain has ended.
#[derive(Clone, Debug)]
pub struct CrankResponse {
    pub kickoff_instruction: Option<InstructionData>,
    pub next_instruction: Option<InstructionData>,
}

impl AccountMetaData {
    /// A writable account.
    pub fn new(pubkey: Address, is_signer: bool) -> (r: AccountMetaData)
        ensures
            r.pubkey == pubkey,
            r.is_signer == is_signer,
            r.is_writable,
    {
        AccountMetaData { pubkey, is_signer, is_writable: true }
    }

    /// A read-only account.
    pub fn new_readonly(pubkey: Address, is_signer: bool) -> (r: AccountMetaData)
        ensures
            r.pubkey == pubkey,
            r.is_signer == is_signer,
            !r.is_writable,
    {
        AccountMetaData { pubkey, is_signer, is_writable: false }
    }
}

impl CrankResponse {
    /// The response that ends a chain and leaves the kickoff instruction alone.
    pub fn done() -> (r: CrankResponse)
        ensures
            r.kickoff_instruction is None,
            r.next_instruction is None,
    {
        CrankResponse { kickoff_instruction: None, next_instruction: None }
    }
}

} // verus!
