//! Trigger evaluation: whether a queue may be kicked off now, and the
//! context that records what authorized the chain.
use vstd::prelude::*;
use vstd::std_specs::hash::DefaultHasherAdditionalSpecFns;
use vstd::utf8::encode_utf8;
use std::collections::hash_map::DefaultHasher;
use std::hash::Hasher;

use crate::address::Address;
use crate::cron::{matches_at, schedule_matches};
use crate::error::QueueError;

verus! {

/// The condition that authorizes a queue's chain to start.
#[derive(Clone, Debug)]
pub enum Trigger {
    /// Kick off when the watched account's content changes.
    Account { address: Address },
    /// Kick off whenever the cron schedule accepts the current time.
    Cron { schedule: String },
    /// Kick off once, as soon as possible.
    Immediate,
}

/// What authorized the current (or last) chain.
#[derive(Clone, Copy, Debug, PartialEq, Eq, Structural)]
pub enum TriggerContext {
    /// The fingerprint of the watched account's content.
    Account { data_hash: u64 },
    /// The Unix time at which the chain started.
    Cron { started_at: i64 },
    /// The single run of an immediate trigger.
    Immediate,
}

/// The marker that a kickoff leaves on the queue.
#[derive(Clone, Copy, Debug, PartialEq, Eq, Structural)]
pub struct ExecContext {
    pub trigger_context: TriggerContext,
}

/// What the ledger shows a kickoff: the time, and the content of the
/// account that an account trigger watches (`None` when it does not exist).
#[derive(Clone, Debug)]
pub struct ChainState {
    pub unix_timestamp: i64,
    pub watched_data: Option<Vec<u8>>,
}

/// The `n` low bytes of `v`, least significant first.
pub open spec fn le_digits(v: nat, n: nat) -> Seq<u8>
    decreases n,
{
    if n == 0 {
        Seq::empty()
    } else {
        seq![(v % 256) as u8] + le_digits(v / 256, (n - 1) as nat)
    }
}

/// The writes that a fingerprint feeds the hasher: the content's length and
/// bytes, then the prior fingerprint if there is one. These are the bytes that
/// `Hash` feeds for a `Vec<u8>` followed by a `u64` on a 64-bit little-endian
/// machine.
pub open spec fn fingerprint_writes(content: Seq<u8>, prior: Option<u64>) -> Seq<Seq<u8>> {
    let head = seq![le_digits(content.len(), 8), content];
    match prior {
        Some(p) => head.push(le_digits(p as nat, 8)),
        None => head,
    }
}

/// The fingerprint of an account's content, folded with the prior one.
pub open spec fn fingerprint_of(content: Seq<u8>, prior: Option<u64>) -> u64 {
    DefaultHasher::spec_finish(fingerprint_writes(content, prior))
}

/// The 8 low bytes of `v`, least significant first.
pub fn le_bytes(v: u64) -> (r: Vec<u8>)
    ensures
        r@ == le_digits(v as nat, 8),
{
    let mut out: Vec<u8> = Vec::new();
    let mut x: u64 = v;
    let mut i: usize = 0;
    while i < 8
        invariant
            0 <= i <= 8,
            out@ + le_digits(x as nat, (8 - i) as nat) == le_digits(v as nat, 8),
        decreases 8 - i,
    {
        let ghost before = out@;
        out.push((x % 256) as u8);
        assert(before + le_digits(x as nat, (8 - i) as nat) =~= out@ + le_digits((x / 256) as nat, (8 - i - 1) as nat));
        x = x / 256;
        i = i + 1;
    }
    assert(out@ + le_digits(x as nat, 0) =~= out@);
    out
}

/// The fingerprint of `content`, folded with `prior` when there is one.
pub fn fingerprint(content: &[u8], prior: Option<u64>) -> (r: u64)
    ensures
        r == fingerprint_of(content@, prior),
{
    let mut hasher = DefaultHasher::new();
    let len_bytes = le_bytes(content.len() as u64);
    hasher.write(len_bytes.as_slice());
    hasher.write(content);
    match prior {
        Some(p) => {
            let p_bytes = le_bytes(p);
            hasher.write(p_bytes.as_slice());
        },
        None => {},
    }
    assert(hasher@ =~= fingerprint_writes(content@, prior));
    hasher.finish()
}

/// The fingerprint that an earlier account-triggered chain recorded.
pub open spec fn prior_fingerprint(prior: Option<ExecContext>) -> Option<u64> {
    match prior {
        Some(ctx) => match ctx.trigger_context {
            TriggerContext::Account { data_hash } => Some(data_hash),
            _ => None,
        },
        None => None,
    }
}

/// The decision of a kickoff: `Ok(Some(c))` when the trigger allows a chain to
/// start, with `c` the context to record; `Ok(None)` when it does not.
/// An account trigger allows it whenever the watched account exists, unless
/// the caller claims a fingerprint other than the one its content gives. A
/// cron trigger allows it when the schedule accepts the current second and no
/// chain started in that second. An immediate trigger allows it only before
/// any chain has started.
pub open spec fn evaluation(
    trigger: Trigger,
    state: ChainState,
    prior: Option<ExecContext>,
    claimed: Option<u64>,
) -> Result<Option<TriggerContext>, QueueError> {
    match trigger {
        Trigger::Account { .. } => match state.watched_data {
            None => Err(QueueError::MissingAccount),
            Some(data) => {
                let f = fingerprint_of(data@, prior_fingerprint(prior));
                if claimed is Some && claimed->0 != f {
                    Ok(None)
                } else {
                    Ok(Some(TriggerContext::Account { data_hash: f }))
                }
            },
        },
        Trigger::Cron { schedule } => {
            let t = state.unix_timestamp;
            if schedule_matches(encode_utf8(schedule@), t as int) && prior != Some(
                ExecContext { trigger_context: TriggerContext::Cron { started_at: t } },
            ) {
                Ok(Some(TriggerContext::Cron { started_at: t }))
            } else {
                Ok(None)
            }
        },
        Trigger::Immediate => if prior is None {
            Ok(Some(TriggerContext::Immediate))
        } else {
            Ok(None)
        },
    }
}

/// Decides whether `trigger` allows a kickoff now; see `evaluation`.
pub fn should_kickoff(
    trigger: &Trigger,
    state: &ChainState,
    prior: &Option<ExecContext>,
    claimed: Option<u64>,
) -> (r: Result<Option<TriggerContext>, QueueError>)
    ensures
        r == evaluation(*trigger, *state, *prior, claimed),
{
    match trigger {
        Trigger::Account { .. } => match &state.watched_data {
            None => Err(QueueError::MissingAccount),
            Some(data) => {
                let prior_hash = match prior {
                    Some(ctx) => match ctx.trigger_context {
                        TriggerContext::Account { data_hash } => Some(data_hash),
                        _ => None,
                    },
                    None => None,
                };
                let f = fingerprint(data.as_slice(), prior_hash);
                match claimed {
                    Some(c) => if c != f {
                        Ok(None)
                    } else {
                        Ok(Some(TriggerContext::Account { data_hash: f }))
                    },
                    None => Ok(Some(TriggerContext::Account { data_hash: f })),
                }
            },
        },
        Trigger::Cron { schedule } => {
            let t = state.unix_timestamp;
            let same_second = match prior {
                Some(ctx) => match ctx.trigger_context {
                    TriggerContext::Cron { started_at } => started_at == t,
                    _ => false,
                },
                None => false,
            };
            if matches_at(schedule.as_str(), t) && !same_second {
                Ok(Some(TriggerContext::Cron { started_at: t }))
            } else {
                Ok(None)
            }
        },
        Trigger::Immediate => match prior {
            None => Ok(Some(TriggerContext::Immediate)),
            Some(_) => Ok(None),
        },
    }
}


/// `256` to the power `n`.
pub open spec fn byte_bound(n: nat) -> nat
    decreases n,
{
    if n == 0 {
        1
    } else {
        256 * byte_bound((n - 1) as nat)
    }
}

proof fn lemma_le_digits_injective(a: nat, b: nat, n: nat)
    requires
        a < byte_bound(n),
        b < byte_bound(n),
        le_digits(a, n) == le_digits(b, n),
    ensures
        a == b,
    decreases n,
{
    if n > 0 {
        let m = (n - 1) as nat;
        assert(le_digits(a, n)[0] == le_digits(b, n)[0]);
        assert(le_digits(a, n).drop_first() =~= le_digits(a / 256, m));
        assert(le_digits(b, n).drop_first() =~= le_digits(b / 256, m));
        assert(a / 256 < byte_bound(m)) by (nonlinear_arith)
            requires
                a < 256 * byte_bound(m),
        ;
        assert(b / 256 < byte_bound(m)) by (nonlinear_arith)
            requires
                b < 256 * byte_bound(m),
        ;
        lemma_le_digits_injective(a / 256, b / 256, m);
        assert(le_digits(a, n)[0] == (a % 256) as u8);
        assert(le_digits(b, n)[0] == (b % 256) as u8);
        assert(a % 256 < 256 && b % 256 < 256);
        assert(a % 256 == b % 256);
        assert(a == 256 * (a / 256) + a % 256) by (nonlinear_arith);
        assert(b == 256 * (b / 256) + b % 256) by (nonlinear_arith);
    }
}

/// The fingerprint is a function of (content, prior fingerprint) alone, and
/// what it hashes tells any two such pairs apart: pairs that differ in the
/// content or in the prior fingerprint feed the hasher different input.
pub proof fn lemma_fingerprint_input_distinguishes(c1: Seq<u8>, p1: Option<u64>, c2: Seq<u8>, p2: Option<u64>)
    ensures
        (c1 == c2 && p1 == p2) ==> fingerprint_of(c1, p1) == fingerprint_of(c2, p2),
        (c1 != c2 || p1 != p2) ==> fingerprint_writes(c1, p1) != fingerprint_writes(c2, p2),
{
    if c1 != c2 || p1 != p2 {
        if fingerprint_writes(c1, p1) == fingerprint_writes(c2, p2) {
            assert(fingerprint_writes(c1, p1)[1] == c1);
            assert(fingerprint_writes(c2, p2)[1] == c2);
            if p1 is Some && p2 is Some {
                assert(fingerprint_writes(c1, p1)[2] == le_digits(p1->0 as nat, 8));
                assert(fingerprint_writes(c2, p2)[2] == le_digits(p2->0 as nat, 8));
                assert(byte_bound(8) == 0x10000000000000000) by {
                    reveal_with_fuel(byte_bound, 9);
                }
                lemma_le_digits_injective(p1->0 as nat, p2->0 as nat, 8);
            }
        }
    }
}

} // verus!
