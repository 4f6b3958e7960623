//! The network program's accounts that its crank handlers read, and the
//! addresses it derives for them.
use vstd::prelude::*;

use crate::address::{bytes_to_vec, find_program_address, program_address, seqs_of, Address};
use crate::instruction::AccountMetaData;

verus! {

/// The network's settings.
#[derive(Clone, Copy, Debug)]
pub struct Config {
    pub admin: Address,
    pub epoch_queue: Address,
}

/// The network's registry of workers and epochs.
#[derive(Clone, Copy, Debug)]
pub struct Registry {
    pub current_epoch: u64,
    pub locked: bool,
    pub total_workers: u64,
}

/// The stake snapshot of one epoch.
#[derive(Clone, Copy, Debug)]
pub struct Snapshot {
    pub id: u64,
    pub total_frames: u64,
    pub balance: u64,
}

/// Why a network crank handler is refused.
#[derive(Clone, Copy, Debug, PartialEq, Eq, Structural)]
pub enum NetworkError {
    /// The signing queue is not the network's epoch queue.
    NotEpochQueue,
    /// The snapshot is not the one that the handler expects.
    WrongSnapshot,
    /// The registry is locked.
    RegistryLocked,
    /// An address could not be derived.
    AddressNotFound,
    /// An amount or id would exceed the largest representable value.
    Overflow,
}

pub const SEED_CONFIG: [u8; 6] = [99, 111, 110, 102, 105, 103];

pub const SEED_REGISTRY: [u8; 8] = [114, 101, 103, 105, 115, 116, 114, 121];

pub const SEED_SNAPSHOT: [u8; 8] = [115, 110, 97, 112, 115, 104, 111, 116];

pub const SEED_WORKER: [u8; 6] = [119, 111, 114, 107, 101, 114];

pub const SEED_FEE: [u8; 3] = [102, 101, 101];

pub const SEED_SNAPSHOT_FRAME: [u8; 14] = [115, 110, 97, 112, 115, 104, 111, 116, 95, 102, 114, 97, 109, 101];

/// The 8 bytes of `v`, most significant first.
pub open spec fn be_digits(v: nat) -> Seq<u8> {
    Seq::new(8, |i: int| ((v / pow256((7 - i) as nat)) % 256) as u8)
}

pub open spec fn pow256(n: nat) -> nat
    decreases n,
{
    if n == 0 {
        1
    } else {
        256 * pow256((n - 1) as nat)
    }
}

proof fn lemma_pow256_positive(n: nat)
    ensures
        pow256(n) >= 1,
    decreases n,
{
    if n > 0 {
        lemma_pow256_positive((n - 1) as nat);
    }
}

/// The 8 bytes of `v`, most significant first.
pub fn be_bytes(v: u64) -> (r: Vec<u8>)
    ensures
        r@ == be_digits(v as nat),
{
    let mut out: Vec<u8> = Vec::new();
    let mut i: usize = 0;
    let mut div: u64 = 72057594037927936;
    proof {
        reveal_with_fuel(pow256, 8);
    }
    while i < 8
        invariant
            0 <= i <= 8,
            i < 8 ==> div as nat == pow256((7 - i) as nat),
            div > 0,
            out@.len() == i,
            forall|j: int| 0 <= j < i ==> out@[j] == ((v as nat / pow256((7 - j) as nat)) % 256) as u8,
        decreases 8 - i,
    {
        out.push(((v / div) % 256) as u8);
        proof {
            if i < 7 {
                let m = (6 - i) as nat;
                lemma_pow256_positive(m);
                assert(pow256((7 - i) as nat) == 256 * pow256(m));
                assert(div as nat / 256 == pow256(m)) by (nonlinear_arith)
                    requires
                        div as nat == 256 * pow256(m),
                ;
            }
        }
        if i < 7 {
            div = div / 256;
        }
        i = i + 1;
    }
    assert(out@ =~= be_digits(v as nat));
    out
}

/// The address that `program` derives for `seeds`, if found.
pub open spec fn derived(seeds: Seq<Seq<u8>>, program: Address) -> Option<Seq<u8>> {
    program_address(seeds, program@)
}

/// The address that `program` derives for `seeds`.
pub fn derive(seeds: &Vec<Vec<u8>>, program: &Address) -> (r: Option<Address>)
    ensures
        r is Some <==> derived(seqs_of(seeds@), *program) is Some,
        r is Some ==> r->0@ == derived(seqs_of(seeds@), *program)->0,
{
    find_program_address(seeds, program)
}

pub open spec fn config_seeds() -> Seq<Seq<u8>> {
    seq![SEED_CONFIG@]
}

pub open spec fn registry_seeds() -> Seq<Seq<u8>> {
    seq![SEED_REGISTRY@]
}

pub open spec fn snapshot_seeds(id: u64) -> Seq<Seq<u8>> {
    seq![SEED_SNAPSHOT@, be_digits(id as nat)]
}

pub open spec fn worker_seeds(id: u64) -> Seq<Seq<u8>> {
    seq![SEED_WORKER@, be_digits(id as nat)]
}

pub open spec fn fee_seeds(worker: Seq<u8>) -> Seq<Seq<u8>> {
    seq![SEED_FEE@, worker]
}

pub open spec fn snapshot_frame_seeds(snapshot: Address, id: u64) -> Seq<Seq<u8>> {
    seq![SEED_SNAPSHOT_FRAME@, snapshot@, be_digits(id as nat)]
}

/// The network's config address.
pub fn config_address(program: &Address) -> (r: Option<Address>)
    ensures
        r is Some <==> derived(config_seeds(), *program) is Some,
        r is Some ==> r->0@ == derived(config_seeds(), *program)->0,
{
    let seed = SEED_CONFIG;
    let mut seeds: Vec<Vec<u8>> = Vec::new();
    seeds.push(bytes_to_vec(seed.as_slice()));
    assert(seqs_of(seeds@) =~= config_seeds());
    derive(&seeds, program)
}

/// The network's registry address.
pub fn registry_address(program: &Address) -> (r: Option<Address>)
    ensures
        r is Some <==> derived(registry_seeds(), *program) is Some,
        r is Some ==> r->0@ == derived(registry_seeds(), *program)->0,
{
    let seed = SEED_REGISTRY;
    let mut seeds: Vec<Vec<u8>> = Vec::new();
    seeds.push(bytes_to_vec(seed.as_slice()));
    assert(seqs_of(seeds@) =~= registry_seeds());
    derive(&seeds, program)
}

/// The address of snapshot `id`.
pub fn snapshot_address(program: &Address, id: u64) -> (r: Option<Address>)
    ensures
        r is Some <==> derived(snapshot_seeds(id), *program) is Some,
        r is Some ==> r->0@ == derived(snapshot_seeds(id), *program)->0,
{
    let seed = SEED_SNAPSHOT;
    let mut seeds: Vec<Vec<u8>> = Vec::new();
    seeds.push(bytes_to_vec(seed.as_slice()));
    seeds.push(be_bytes(id));
    assert(seqs_of(seeds@) =~= snapshot_seeds(id));
    derive(&seeds, program)
}

/// The address of worker `id`.
pub fn worker_address(program: &Address, id: u64) -> (r: Option<Address>)
    ensures
        r is Some <==> derived(worker_seeds(id), *program) is Some,
        r is Some ==> r->0@ == derived(worker_seeds(id), *program)->0,
{
    let seed = SEED_WORKER;
    let mut seeds: Vec<Vec<u8>> = Vec::new();
    seeds.push(bytes_to_vec(seed.as_slice()));
    seeds.push(be_bytes(id));
    assert(seqs_of(seeds@) =~= worker_seeds(id));
    derive(&seeds, program)
}

/// The address of the fee account of the worker at `worker`.
pub fn fee_address(program: &Address, worker: &Address) -> (r: Option<Address>)
    ensures
        r is Some <==> derived(fee_seeds(worker@), *program) is Some,
        r is Some ==> r->0@ == derived(fee_seeds(worker@), *program)->0,
{
    let seed = SEED_FEE;
    let mut seeds: Vec<Vec<u8>> = Vec::new();
    seeds.push(bytes_to_vec(seed.as_slice()));
    seeds.push(bytes_to_vec(worker.bytes.as_slice()));
    assert(seqs_of(seeds@) =~= fee_seeds(worker@));
    derive(&seeds, program)
}

/// The address of frame `id` of the snapshot at `snapshot`.
pub fn snapshot_frame_address(program: &Address, snapshot: &Address, id: u64) -> (r: Option<Address>)
    ensures
        r is Some <==> derived(snapshot_frame_seeds(*snapshot, id), *program) is Some,
        r is Some ==> r->0@ == derived(snapshot_frame_seeds(*snapshot, id), *program)->0,
{
    let seed = SEED_SNAPSHOT_FRAME;
    let mut seeds: Vec<Vec<u8>> = Vec::new();
    seeds.push(bytes_to_vec(seed.as_slice()));
    seeds.push(bytes_to_vec(snapshot.bytes.as_slice()));
    seeds.push(be_bytes(id));
    assert(seqs_of(seeds@) =~= snapshot_frame_seeds(*snapshot, id));
    derive(&seeds, program)
}

/// An account entry with the given flags.
pub open spec fn meta(pubkey: Address, is_signer: bool, is_writable: bool) -> AccountMetaData {
    AccountMetaData { pubkey, is_signer, is_writable }
}

} // verus!
