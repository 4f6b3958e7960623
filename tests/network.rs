use clockwork_engine::address::Address;
use clockwork_engine::network::{
    be_bytes, config_address, fee_address, registry_address, snapshot_address, snapshot_frame_address,
    worker_address, Config, NetworkError, Registry, Snapshot,
};
use clockwork_engine::pool_create::pool_create;
use clockwork_engine::registry_epoch_kickoff::{handler as epoch_kickoff, RegistryEpochKickoff};
use clockwork_engine::snapshot_delete::{handler as delete_snapshot, SnapshotDelete};

fn addr(b: u8) -> Address {
    Address::filled(b)
}

fn program() -> Address {
    addr(200)
}

fn epoch_ctx(frames: u64, workers: u64) -> RegistryEpochKickoff {
    RegistryEpochKickoff {
        program_id: program(),
        config_address: addr(1),
        config: Config { admin: addr(9), epoch_queue: addr(2) },
        queue: addr(2),
        registry_address: addr(3),
        registry: Registry { current_epoch: 5, locked: false, total_workers: workers },
        snapshot_address: addr(4),
        snapshot: Snapshot { id: 5, total_frames: frames, balance: 0 },
    }
}

fn keys(ix: &clockwork_engine::instruction::InstructionData) -> Vec<[u8; 32]> {
    ix.accounts.iter().map(|a| a.pubkey.bytes).collect()
}

#[test]
fn be_bytes_order() {
    assert_eq!(be_bytes(0x0102030405060708), vec![1, 2, 3, 4, 5, 6, 7, 8]);
}

#[test]
fn epoch_kickoff_distributes_fees_when_snapshot_has_frames() {
    let mut ctx = epoch_ctx(3, 2);
    let resp = epoch_kickoff(&mut ctx).unwrap();
    assert!(ctx.registry.locked);
    let kickoff = resp.kickoff_instruction.unwrap();
    assert_eq!(kickoff.data, vec![147, 200, 51, 45, 131, 247, 124, 156]);
    let next_snapshot = snapshot_address(&program(), 6).unwrap();
    assert_eq!(keys(&kickoff), vec![[1; 32], [2; 32], [3; 32], next_snapshot.bytes]);
    let next = resp.next_instruction.unwrap();
    assert_eq!(next.program_id.bytes, [200; 32]);
    assert_eq!(next.data, vec![225, 122, 124, 226, 153, 102, 53, 94]);
    let worker = worker_address(&program(), 0).unwrap();
    let fee = fee_address(&program(), &worker).unwrap();
    let frame = snapshot_frame_address(&program(), &addr(4), 0).unwrap();
    assert_eq!(keys(&next), vec![[1; 32], fee.bytes, [2; 32], [3; 32], [4; 32], frame.bytes, worker.bytes]);
}

#[test]
fn epoch_kickoff_stakes_when_workers_exist() {
    let mut ctx = epoch_ctx(0, 2);
    let next = epoch_kickoff(&mut ctx).unwrap().next_instruction.unwrap();
    assert_eq!(next.data, vec![39, 163, 101, 32, 165, 33, 48, 100]);
    let worker = worker_address(&program(), 0).unwrap();
    assert_eq!(keys(&next), vec![[1; 32], [2; 32], [3; 32], worker.bytes]);
}

#[test]
fn epoch_kickoff_cuts_over_when_idle() {
    let mut ctx = epoch_ctx(0, 0);
    let next = epoch_kickoff(&mut ctx).unwrap().next_instruction.unwrap();
    assert_eq!(next.data, vec![1, 147, 143, 216, 198, 126, 18, 32]);
    assert_eq!(keys(&next), vec![[1; 32], [2; 32], [3; 32]]);
    assert!(next.accounts[2].is_writable);
}

#[test]
fn epoch_kickoff_errors() {
    let mut ctx = epoch_ctx(0, 0);
    ctx.queue = addr(7);
    assert_eq!(epoch_kickoff(&mut ctx).unwrap_err(), NetworkError::NotEpochQueue);
    assert!(!ctx.registry.locked);
    let mut ctx = epoch_ctx(0, 0);
    ctx.snapshot.id = 4;
    assert_eq!(epoch_kickoff(&mut ctx).unwrap_err(), NetworkError::WrongSnapshot);
    let mut ctx = epoch_ctx(0, 0);
    ctx.snapshot.id = u64::MAX;
    ctx.registry.current_epoch = u64::MAX;
    assert_eq!(epoch_kickoff(&mut ctx).unwrap_err(), NetworkError::Overflow);
    assert!(!ctx.registry.locked);
}

fn delete_ctx(frames: u64) -> SnapshotDelete {
    SnapshotDelete {
        program_id: program(),
        config_address: addr(1),
        config: Config { admin: addr(9), epoch_queue: addr(2) },
        queue: addr(2),
        queue_balance: 100,
        registry_address: addr(3),
        registry: Registry { current_epoch: 5, locked: false, total_workers: 0 },
        snapshot_address: addr(4),
        snapshot: Snapshot { id: 3, total_frames: frames, balance: 40 },
    }
}

#[test]
fn snapshot_delete_closes_empty_snapshot() {
    let mut ctx = delete_ctx(0);
    let resp = delete_snapshot(&mut ctx).unwrap();
    assert!(resp.next_instruction.is_none());
    assert!(resp.kickoff_instruction.is_none());
    assert_eq!(ctx.queue_balance, 140);
    assert_eq!(ctx.snapshot.balance, 0);
}

#[test]
fn snapshot_delete_deletes_frames_first() {
    let mut ctx = delete_ctx(2);
    let next = delete_snapshot(&mut ctx).unwrap().next_instruction.unwrap();
    assert_eq!(ctx.queue_balance, 100);
    assert_eq!(next.data, vec![75, 92, 243, 167, 238, 178, 192, 202]);
    let frame = snapshot_frame_address(&program(), &addr(4), 0).unwrap();
    assert_eq!(keys(&next), vec![[1; 32], [2; 32], [3; 32], [4; 32], frame.bytes]);
}

#[test]
fn snapshot_delete_errors() {
    let mut ctx = delete_ctx(0);
    ctx.registry.locked = true;
    assert_eq!(delete_snapshot(&mut ctx).unwrap_err(), NetworkError::RegistryLocked);
    let mut ctx = delete_ctx(0);
    ctx.snapshot.id = 5;
    assert_eq!(delete_snapshot(&mut ctx).unwrap_err(), NetworkError::WrongSnapshot);
    let mut ctx = delete_ctx(0);
    ctx.queue = addr(8);
    assert_eq!(delete_snapshot(&mut ctx).unwrap_err(), NetworkError::NotEpochQueue);
    let mut ctx = delete_ctx(0);
    ctx.queue_balance = u64::MAX;
    assert_eq!(delete_snapshot(&mut ctx).unwrap_err(), NetworkError::Overflow);
    assert_eq!(ctx.snapshot.balance, 40);
}

#[test]
fn pool_create_instruction() {
    let ix = pool_create(&program(), &addr(10), &addr(11), &addr(12)).unwrap();
    assert_eq!(ix.data, vec![55, 151, 27, 224, 136, 247, 199, 235]);
    let config = config_address(&program()).unwrap();
    let registry = registry_address(&program()).unwrap();
    assert_eq!(keys(&ix), vec![[10; 32], config.bytes, [11; 32], [12; 32], registry.bytes, [0; 32]]);
    let flags: Vec<(bool, bool)> = ix.accounts.iter().map(|a| (a.is_signer, a.is_writable)).collect();
    assert_eq!(flags, vec![(true, false), (false, false), (true, true), (false, true), (false, true), (false, false)]);
}
