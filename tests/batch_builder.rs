use clockwork_engine::address::{queue_address, Address, PAYER_PLACEHOLDER, QUEUE_PROGRAM_ID};
use clockwork_engine::builder::{
    build_crank_ix, build_kickoff_ix, entry_instruction, BatchBuilder, SimulationOutcome,
};
use clockwork_engine::instruction::{AccountMetaData, InstructionData};
use clockwork_engine::queue::{queue_create, QueueBook};
use clockwork_engine::trigger::{fingerprint, Trigger};

const CRANK_TAG: [u8; 8] = [90, 58, 194, 249, 58, 179, 134, 236];
const KICKOFF_TAG: [u8; 8] = [19, 166, 52, 250, 241, 148, 180, 108];

fn addr(b: u8) -> Address {
    Address::filled(b)
}

fn step(n: u8) -> InstructionData {
    InstructionData { program_id: addr(n), accounts: vec![], data: vec![n] }
}

/// Runs one build round against a chain of steps: the candidate's size is
/// 100 bytes per instruction, and each dry run reports the step after the
/// candidate's last one, if any.
fn run_round(entry: InstructionData, chain: &[InstructionData], done: usize, cap: usize) -> Vec<InstructionData> {
    let mut b = BatchBuilder::new(entry, addr(1), addr(2), addr(3), cap);
    loop {
        let size = b.instructions.len() * 100;
        b.measured(size);
        if b.is_done() {
            break;
        }
        let next = chain.get(done + b.instructions.len()).cloned();
        b.simulated(SimulationOutcome::Succeeded { next_instruction: next });
        if b.is_done() {
            break;
        }
    }
    b.into_batch()
}

#[test]
fn three_step_chain_with_room_for_two() {
    let chain = vec![step(10), step(20), step(30)];
    let entry = build_crank_ix(&chain[0], &addr(1), &addr(2), &addr(3));
    let first = run_round(entry, &chain, 0, 250);
    assert_eq!(first.len(), 2);
    assert_eq!(first[0].accounts[3].pubkey.bytes, [10; 32]);
    assert_eq!(first[1].accounts[3].pubkey.bytes, [20; 32]);
    let entry = build_crank_ix(&chain[2], &addr(1), &addr(2), &addr(3));
    let second = run_round(entry, &chain, 2, 250);
    assert_eq!(second.len(), 1);
    assert_eq!(second[0].accounts[3].pubkey.bytes, [30; 32]);
}

#[test]
fn batch_never_exceeds_cap() {
    let chain: Vec<InstructionData> = (1..=20).map(step).collect();
    for cap in [0usize, 99, 100, 150, 200, 1232, 5000] {
        let entry = build_crank_ix(&chain[0], &addr(1), &addr(2), &addr(3));
        let batch = run_round(entry, &chain, 0, cap);
        assert!(batch.len() * 100 <= cap);
        assert_eq!(batch.len(), std::cmp::min(cap / 100, 20));
    }
}

#[test]
fn failed_dry_run_keeps_last_good_prefix() {
    let mut b = BatchBuilder::new(step(1), addr(1), addr(2), addr(3), 1000);
    b.measured(100);
    b.simulated(SimulationOutcome::Succeeded { next_instruction: Some(step(2)) });
    b.measured(200);
    b.simulated(SimulationOutcome::Succeeded { next_instruction: Some(step(3)) });
    b.measured(300);
    b.simulated(SimulationOutcome::Failed);
    assert!(b.is_done());
    assert_eq!(b.accepted_size, 200);
    let batch = b.into_batch();
    assert_eq!(batch.len(), 2);
    assert_eq!(batch[0].data, vec![1]);
}

#[test]
fn failed_entry_gives_empty_batch() {
    let mut b = BatchBuilder::new(step(1), addr(1), addr(2), addr(3), 1000);
    b.measured(100);
    b.simulated(SimulationOutcome::Failed);
    assert!(b.into_batch().is_empty());
}

#[test]
fn oversized_entry_gives_empty_batch() {
    let mut b = BatchBuilder::new(step(1), addr(1), addr(2), addr(3), 1232);
    b.measured(1233);
    assert!(b.is_done());
    // Events out of turn change nothing.
    b.simulated(SimulationOutcome::Succeeded { next_instruction: None });
    assert!(b.into_batch().is_empty());
}

#[test]
fn crank_ix_resolves_payer() {
    let next = InstructionData {
        program_id: addr(50),
        accounts: vec![
            AccountMetaData::new(Address { bytes: PAYER_PLACEHOLDER }, true),
            AccountMetaData::new_readonly(addr(60), false),
        ],
        data: vec![7, 7],
    };
    let ix = build_crank_ix(&next, &addr(1), &addr(2), &addr(3));
    assert_eq!(ix.program_id.bytes, QUEUE_PROGRAM_ID);
    assert_eq!(ix.data, CRANK_TAG.to_vec());
    let keys: Vec<[u8; 32]> = ix.accounts.iter().map(|a| a.pubkey.bytes).collect();
    assert_eq!(keys, vec![[1; 32], [2; 32], [3; 32], [50; 32], [2; 32], [60; 32]]);
    let flags: Vec<(bool, bool)> = ix.accounts.iter().map(|a| (a.is_signer, a.is_writable)).collect();
    assert_eq!(flags, vec![(false, true), (true, true), (false, false), (false, false), (false, true), (false, false)]);
}

#[test]
fn kickoff_ix_claims_fingerprint_for_account_trigger() {
    let mut book = QueueBook::new();
    queue_create(&mut book, &addr(1), "watch".to_string(), step(9), Trigger::Account { address: addr(8) }, 0).unwrap();
    let q = &book.queues[0];
    let data = Some(vec![4u8, 5, 6]);
    let ix = build_kickoff_ix(q, &data, &addr(1), &addr(2), &addr(3));
    let h = fingerprint(&[4, 5, 6], None);
    let mut expected = KICKOFF_TAG.to_vec();
    expected.push(1);
    expected.extend_from_slice(&h.to_le_bytes());
    assert_eq!(ix.data, expected);
    assert_eq!(ix.accounts.len(), 4);
    assert_eq!(ix.accounts[3].pubkey.bytes, [8; 32]);
    let missing = build_kickoff_ix(q, &None, &addr(1), &addr(2), &addr(3));
    let mut expected = KICKOFF_TAG.to_vec();
    expected.push(0);
    assert_eq!(missing.data, expected);
}

#[test]
fn entry_is_kickoff_when_idle() {
    let mut book = QueueBook::new();
    queue_create(&mut book, &addr(1), "q".to_string(), step(9), Trigger::Immediate, 0).unwrap();
    let ix = entry_instruction(&book.queues[0], &None, &addr(1), &addr(2), &addr(3));
    let mut expected = KICKOFF_TAG.to_vec();
    expected.push(0);
    assert_eq!(ix.data, expected);
    assert_eq!(ix.accounts.len(), 3);
    book.queues[0].next_instruction = Some(step(4));
    let ix = entry_instruction(&book.queues[0], &None, &addr(1), &addr(2), &addr(3));
    assert_eq!(ix.data, CRANK_TAG.to_vec());
}

#[test]
fn queue_address_is_derived() {
    let a = queue_address(&addr(1), &"q".to_string()).unwrap();
    let b = queue_address(&addr(1), &"q".to_string()).unwrap();
    let c = queue_address(&addr(1), &"r".to_string()).unwrap();
    assert_eq!(a.bytes, b.bytes);
    assert_ne!(a.bytes, c.bytes);
    assert_ne!(a.bytes, [1; 32]);
    assert!(queue_address(&addr(1), &"x".repeat(33)).is_none());
}
