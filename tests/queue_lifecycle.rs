use clockwork_engine::address::Address;
use clockwork_engine::error::QueueError;
use clockwork_engine::instruction::{AccountMetaData, CrankResponse, InstructionData};
use clockwork_engine::queue::{
    queue_crank, queue_create, queue_delete, queue_kickoff, queue_pause, queue_resume, queue_stop,
    queue_update, queue_withdraw, QueueBook, QueueSettings, QueueStatus, DEFAULT_RATE_LIMIT,
};
use clockwork_engine::trigger::{ChainState, Trigger};

fn addr(b: u8) -> Address {
    Address::filled(b)
}

fn ix(program: u8) -> InstructionData {
    InstructionData {
        program_id: addr(program),
        accounts: vec![AccountMetaData::new(addr(program + 1), false)],
        data: vec![program],
    }
}

fn idle_state() -> ChainState {
    ChainState { unix_timestamp: 0, watched_data: None }
}

fn continue_with(program: u8) -> CrankResponse {
    CrankResponse { kickoff_instruction: None, next_instruction: Some(ix(program)) }
}

fn book_with(trigger: Trigger, deposit: u64) -> QueueBook {
    let mut book = QueueBook::new();
    queue_create(&mut book, &addr(1), "q".to_string(), ix(10), trigger, deposit).unwrap();
    book
}

#[test]
fn create_starts_active_and_idle() {
    let book = book_with(Trigger::Immediate, 500);
    let q = &book.queues[0];
    assert_eq!(q.status, QueueStatus::Active);
    assert!(!q.is_in_chain());
    assert!(q.exec_context.is_none());
    assert_eq!(q.rate_limit, DEFAULT_RATE_LIMIT);
    assert_eq!(q.balance, 500);
    assert_eq!(book.find(&addr(1), &"q".to_string()), Some(0));
}

#[test]
fn create_rejects_duplicate_id() {
    let mut book = book_with(Trigger::Immediate, 0);
    let r = queue_create(&mut book, &addr(1), "q".to_string(), ix(10), Trigger::Immediate, 0);
    assert_eq!(r, Err(QueueError::DuplicateQueue));
    assert_eq!(book.queues.len(), 1);
    // The same id under another authority is a different queue.
    assert!(queue_create(&mut book, &addr(2), "q".to_string(), ix(10), Trigger::Immediate, 0).is_ok());
    assert_eq!(book.queues.len(), 2);
}

#[test]
fn create_rejects_bad_schedule() {
    let mut book = QueueBook::new();
    let t = Trigger::Cron { schedule: "every minute".to_string() };
    assert_eq!(queue_create(&mut book, &addr(1), "q".to_string(), ix(10), t, 0), Err(QueueError::InvalidSchedule));
    assert!(book.queues.is_empty());
}

#[test]
fn immediate_trigger_scenario() {
    let mut book = book_with(Trigger::Immediate, 0);
    let q = &mut book.queues[0];
    assert_eq!(queue_kickoff(q, None, &idle_state(), CrankResponse::done()), Ok(true));
    assert!(!q.is_in_chain());
    let before = format!("{:?}", q);
    assert_eq!(queue_kickoff(q, None, &idle_state(), continue_with(20)), Ok(false));
    assert_eq!(format!("{:?}", q), before);
    assert!(!q.is_in_chain());
}

#[test]
fn immediate_trigger_no_rerun_after_chain() {
    let mut book = book_with(Trigger::Immediate, 0);
    let q = &mut book.queues[0];
    assert_eq!(queue_kickoff(q, None, &idle_state(), continue_with(20)), Ok(true));
    assert!(q.is_in_chain());
    assert_eq!(queue_crank(q, CrankResponse::done()), Ok(()));
    assert!(!q.is_in_chain());
    assert_eq!(queue_kickoff(q, None, &idle_state(), continue_with(20)), Ok(false));
    assert!(!q.is_in_chain());
}

#[test]
fn chain_flag_follows_next_instruction() {
    let mut book = book_with(Trigger::Immediate, 0);
    let q = &mut book.queues[0];
    assert_eq!(queue_crank(q, CrankResponse::done()), Err(QueueError::NotInChain));
    assert_eq!(queue_kickoff(q, None, &idle_state(), continue_with(20)), Ok(true));
    assert!(q.is_in_chain());
    assert_eq!(q.next_instruction.as_ref().unwrap().data, vec![20]);
    assert_eq!(queue_kickoff(q, None, &idle_state(), CrankResponse::done()), Err(QueueError::InChain));
    assert_eq!(queue_crank(q, continue_with(30)), Ok(()));
    assert_eq!(q.next_instruction.as_ref().unwrap().data, vec![30]);
    assert_eq!(queue_crank(q, CrankResponse::done()), Ok(()));
    assert!(!q.is_in_chain());
    assert!(q.next_instruction.is_none());
}

#[test]
fn crank_response_replaces_kickoff_instruction() {
    let mut book = book_with(Trigger::Immediate, 0);
    let q = &mut book.queues[0];
    let response = CrankResponse { kickoff_instruction: Some(ix(40)), next_instruction: None };
    assert_eq!(queue_kickoff(q, None, &idle_state(), response), Ok(true));
    assert_eq!(q.kickoff_instruction.data, vec![40]);
}

#[test]
fn delete_while_in_chain_then_after_stop() {
    let mut book = book_with(Trigger::Immediate, 700);
    assert_eq!(queue_kickoff(&mut book.queues[0], None, &idle_state(), continue_with(20)), Ok(true));
    let mut authority_balance: u64 = 50;
    let id = "q".to_string();
    assert_eq!(queue_delete(&mut book, &addr(1), &addr(1), &id, &mut authority_balance), Err(QueueError::InChain));
    assert_eq!(book.queues.len(), 1);
    assert_eq!(authority_balance, 50);
    assert_eq!(queue_stop(&mut book.queues[0], &addr(1)), Ok(()));
    assert!(!book.queues[0].is_in_chain());
    assert_eq!(queue_delete(&mut book, &addr(1), &addr(1), &id, &mut authority_balance), Ok(700));
    assert_eq!(authority_balance, 750);
    assert!(book.queues.is_empty());
}

#[test]
fn delete_errors() {
    let mut book = book_with(Trigger::Immediate, 10);
    let mut bal: u64 = 0;
    let id = "q".to_string();
    assert_eq!(queue_delete(&mut book, &addr(1), &addr(1), &"other".to_string(), &mut bal), Err(QueueError::QueueNotFound));
    assert_eq!(queue_delete(&mut book, &addr(9), &addr(1), &id, &mut bal), Err(QueueError::Unauthorized));
    let mut full: u64 = u64::MAX - 5;
    assert_eq!(queue_delete(&mut book, &addr(1), &addr(1), &id, &mut full), Err(QueueError::BalanceOverflow));
    assert_eq!(full, u64::MAX - 5);
    assert_eq!(book.queues.len(), 1);
}

#[test]
fn stopped_queue_blocks_steps() {
    let mut book = book_with(Trigger::Immediate, 0);
    let q = &mut book.queues[0];
    assert_eq!(queue_stop(q, &addr(9)), Err(QueueError::Unauthorized));
    assert_eq!(queue_stop(q, &addr(1)), Ok(()));
    assert_eq!(q.status, QueueStatus::Stopped);
    assert_eq!(queue_kickoff(q, None, &idle_state(), CrankResponse::done()), Err(QueueError::Stopped));
    assert_eq!(queue_crank(q, CrankResponse::done()), Err(QueueError::Stopped));
    assert_eq!(queue_pause(q, &addr(1)), Err(QueueError::Stopped));
    assert_eq!(queue_resume(q, &addr(1)), Err(QueueError::Stopped));
}

#[test]
fn pause_and_resume() {
    let mut book = book_with(Trigger::Immediate, 0);
    let q = &mut book.queues[0];
    assert_eq!(queue_resume(q, &addr(1)), Err(QueueError::NotPaused));
    assert_eq!(queue_kickoff(q, None, &idle_state(), continue_with(20)), Ok(true));
    assert_eq!(queue_pause(q, &addr(2)), Err(QueueError::Unauthorized));
    assert_eq!(queue_pause(q, &addr(1)), Ok(()));
    assert_eq!(queue_pause(q, &addr(1)), Err(QueueError::Paused));
    assert_eq!(queue_crank(q, CrankResponse::done()), Err(QueueError::Paused));
    assert_eq!(queue_kickoff(q, None, &idle_state(), CrankResponse::done()), Err(QueueError::Paused));
    assert!(q.is_in_chain());
    assert_eq!(queue_resume(q, &addr(2)), Err(QueueError::Unauthorized));
    assert_eq!(queue_resume(q, &addr(1)), Ok(()));
    assert_eq!(q.status, QueueStatus::Active);
    assert!(!q.is_in_chain());
}

#[test]
fn update_rate_limit_only_keeps_trigger() {
    let mut book = book_with(Trigger::Cron { schedule: "0 * * * * *".to_string() }, 0);
    let q = &mut book.queues[0];
    let before = format!("{:?}", q.trigger);
    assert_eq!(queue_update(q, &addr(1), QueueSettings { trigger: None, rate_limit: Some(7) }), Ok(()));
    assert_eq!(q.rate_limit, 7);
    assert_eq!(format!("{:?}", q.trigger), before);
}

#[test]
fn update_trigger_only_keeps_rate_limit() {
    let mut book = book_with(Trigger::Immediate, 0);
    let q = &mut book.queues[0];
    assert_eq!(queue_update(q, &addr(1), QueueSettings { trigger: None, rate_limit: Some(3) }), Ok(()));
    let t = Trigger::Cron { schedule: "*/5 * * * * *".to_string() };
    assert_eq!(queue_update(q, &addr(1), QueueSettings { trigger: Some(t), rate_limit: None }), Ok(()));
    assert_eq!(q.rate_limit, 3);
    assert!(matches!(&q.trigger, Trigger::Cron { schedule } if schedule == "*/5 * * * * *"));
}

#[test]
fn update_errors_change_nothing() {
    let mut book = book_with(Trigger::Immediate, 0);
    let q = &mut book.queues[0];
    let bad = Trigger::Cron { schedule: "61 * * * * *".to_string() };
    assert_eq!(queue_update(q, &addr(1), QueueSettings { trigger: Some(bad), rate_limit: Some(1) }), Err(QueueError::InvalidSchedule));
    assert_eq!(q.rate_limit, DEFAULT_RATE_LIMIT);
    assert!(matches!(q.trigger, Trigger::Immediate));
    assert_eq!(queue_update(q, &addr(5), QueueSettings { trigger: None, rate_limit: Some(1) }), Err(QueueError::Unauthorized));
    assert_eq!(q.rate_limit, DEFAULT_RATE_LIMIT);
}

#[test]
fn withdraw_moves_balance() {
    let mut book = book_with(Trigger::Immediate, 100);
    let q = &mut book.queues[0];
    let mut pay_to: u64 = 5;
    assert_eq!(queue_withdraw(q, &addr(1), 30, &mut pay_to), Ok(()));
    assert_eq!(q.balance, 70);
    assert_eq!(pay_to, 35);
    assert_eq!(queue_withdraw(q, &addr(1), 71, &mut pay_to), Err(QueueError::InsufficientBalance));
    assert_eq!(queue_withdraw(q, &addr(2), 1, &mut pay_to), Err(QueueError::Unauthorized));
    let mut full: u64 = u64::MAX;
    assert_eq!(queue_withdraw(q, &addr(1), 1, &mut full), Err(QueueError::BalanceOverflow));
    assert_eq!(q.balance, 70);
    assert_eq!(queue_withdraw(q, &addr(1), 70, &mut pay_to), Ok(()));
    assert_eq!(q.balance, 0);
    assert_eq!(pay_to, 105);
}

#[test]
fn account_trigger_kickoff() {
    let mut book = book_with(Trigger::Account { address: addr(7) }, 0);
    let q = &mut book.queues[0];
    assert_eq!(queue_kickoff(q, None, &idle_state(), CrankResponse::done()), Err(QueueError::MissingAccount));
    let state = ChainState { unix_timestamp: 0, watched_data: Some(vec![1, 2, 3]) };
    let expected = clockwork_engine::trigger::fingerprint(&[1, 2, 3], None);
    assert_eq!(queue_kickoff(q, Some(expected.wrapping_add(1)), &state, CrankResponse::done()), Ok(false));
    assert!(q.exec_context.is_none());
    assert_eq!(queue_kickoff(q, Some(expected), &state, CrankResponse::done()), Ok(true));
    let recorded = format!("{:?}", q.exec_context);
    assert!(recorded.contains(&expected.to_string()));
    // The next fingerprint folds in the prior one.
    let folded = clockwork_engine::trigger::fingerprint(&[1, 2, 3], Some(expected));
    assert_ne!(folded, expected);
    assert_eq!(queue_kickoff(q, None, &state, CrankResponse::done()), Ok(true));
    assert!(format!("{:?}", q.exec_context).contains(&folded.to_string()));
}

#[test]
fn cron_trigger_kickoff() {
    let mut book = book_with(Trigger::Cron { schedule: "0 * * * * *".to_string() }, 0);
    let q = &mut book.queues[0];
    let at = |t: i64| ChainState { unix_timestamp: t, watched_data: None };
    assert_eq!(queue_kickoff(q, None, &at(61), CrankResponse::done()), Ok(false));
    assert_eq!(queue_kickoff(q, None, &at(120), CrankResponse::done()), Ok(true));
    assert_eq!(queue_kickoff(q, None, &at(120), CrankResponse::done()), Ok(false));
    assert_eq!(queue_kickoff(q, None, &at(180), CrankResponse::done()), Ok(true));
}
