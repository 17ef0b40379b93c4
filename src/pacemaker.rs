//! The round controller: owns the current round and its deadline, emits local
//! timeouts, and advances on certificates.
use vstd::prelude::*;
use crate::certificate::{capped, TimeoutCertificate};
use crate::timeout::Timeout;

verus! {

/// Consecutive local timeouts beyond this many no longer lengthen the round.
pub const MAX_BACKOFF_EXPONENT: u32 = 6;

pub open spec fn pow2(n: nat) -> nat
    decreases n,
{
    if n == 0 { 1 } else { 2 * pow2((n - 1) as nat) }
}

/// How many base intervals a round lasts after `count` consecutive local timeouts.
pub open spec fn backoff_factor(count: nat) -> nat {
    pow2(if count < MAX_BACKOFF_EXPONENT { count } else { MAX_BACKOFF_EXPONENT as nat })
}

/// Length of a round in milliseconds, capped at `u64::MAX`.
pub open spec fn round_duration(base_ms: u64, count: nat) -> nat {
    capped((base_ms * backoff_factor(count)) as nat)
}

/// The deadline of a round that starts at `now_ms`.
pub open spec fn deadline_after(now_ms: u64, base_ms: u64, count: nat) -> nat {
    capped((now_ms + round_duration(base_ms, count)) as nat)
}

proof fn lemma_pow2_monotone(a: nat, b: nat)
    requires
        a <= b,
    ensures
        1 <= pow2(a) <= pow2(b),
    decreases b,
{
    if b > 0 {
        if a < b {
            lemma_pow2_monotone(a, (b - 1) as nat);
        } else {
            lemma_pow2_monotone((a - 1) as nat, (b - 1) as nat);
        }
    }
}

/// A round's length never shrinks as local timeouts accumulate.
pub proof fn lemma_round_duration_monotone(base_ms: u64, c1: nat, c2: nat)
    requires
        c1 <= c2,
    ensures
        round_duration(base_ms, c1) <= round_duration(base_ms, c2),
{
    let e1: nat = if c1 < MAX_BACKOFF_EXPONENT { c1 } else { MAX_BACKOFF_EXPONENT as nat };
    let e2: nat = if c2 < MAX_BACKOFF_EXPONENT { c2 } else { MAX_BACKOFF_EXPONENT as nat };
    lemma_pow2_monotone(e1, e2);
    let f1 = pow2(e1);
    let f2 = pow2(e2);
    assert(base_ms * f1 <= base_ms * f2) by (nonlinear_arith)
        requires
            f1 <= f2,
    ;
}

/// Round length in milliseconds: `base_ms` doubled once per consecutive local
/// timeout, up to `MAX_BACKOFF_EXPONENT` doublings, saturating at `u64::MAX`.
pub fn round_duration_ms(base_ms: u64, count: u32) -> (r: u64)
    ensures
        r == round_duration(base_ms, count as nat),
{
    let e: u32 = if count < MAX_BACKOFF_EXPONENT { count } else { MAX_BACKOFF_EXPONENT };
    let mut f: u64 = 1;
    let mut i: u32 = 0;
    while i < e
        invariant
            i <= e <= MAX_BACKOFF_EXPONENT,
            f == pow2(i as nat),
            1 <= f <= 64,
        decreases e - i,
    {
        proof {
            lemma_pow2_monotone(i as nat + 1, MAX_BACKOFF_EXPONENT as nat);
            reveal_with_fuel(pow2, 7);
        }
        f = f * 2;
        i = i + 1;
    }
    if f > 0 && base_ms > u64::MAX / f {
        assert(base_ms * f > u64::MAX) by (nonlinear_arith)
            requires
                f > 0,
                base_ms > u64::MAX / f,
        ;
        u64::MAX
    } else {
        assert(base_ms * f <= u64::MAX) by (nonlinear_arith)
            requires
                f > 0,
                base_ms <= u64::MAX / f,
        ;
        base_ms * f
    }
}

/// What produced a certificate that the pacemaker observes.
#[derive(Clone, Copy, Debug, PartialEq, Eq, Structural)]
pub enum CertificateKind {
    /// A timeout certificate: the round was abandoned.
    Timeout,
    /// A quorum certificate: the round completed with a block.
    Quorum,
}

/// An input of the pacemaker, delivered through one serialized queue.
#[derive(Clone, Copy, Debug, PartialEq, Eq, Structural)]
pub enum RoundEvent {
    /// An already verified certificate for `round` of `epoch`.
    Certificate { kind: CertificateKind, epoch: u64, round: u64, now_ms: u64 },
    /// The round timer fired at `now_ms`.
    DeadlineExpired { now_ms: u64 },
}

/// What the pacemaker asks of its surroundings after an event.
#[derive(Clone, Copy, Debug, PartialEq, Eq, Structural)]
pub enum RoundAction {
    /// The round moved to `round`; the new deadline is `deadline_ms`.
    Advanced { round: u64, deadline_ms: u64 },
    /// Sign and broadcast this timeout statement.
    BroadcastTimeout { statement: Timeout },
    /// Nothing to do: the event was stale.
    Discarded,
}

/// The state `Active(current_round)` with its deadline.
#[derive(Clone, Copy, Debug, PartialEq, Eq, Structural)]
pub struct Pacemaker {
    pub epoch: u64,
    pub current_round: u64,
    pub base_timeout_ms: u64,
    pub consecutive_timeouts: u32,
    pub deadline_ms: u64,
}

/// Whether a certificate for `round` of `epoch` moves the pacemaker.
pub open spec fn advances(p: Pacemaker, epoch: u64, round: u64) -> bool {
    epoch == p.epoch && p.current_round <= round && round < u64::MAX
}

/// The state after an event.
pub open spec fn next(p: Pacemaker, e: RoundEvent) -> Pacemaker {
    match e {
        RoundEvent::Certificate { kind, epoch, round, now_ms } => {
            if advances(p, epoch, round) {
                let count: u32 = if kind == CertificateKind::Quorum { 0 } else { p.consecutive_timeouts };
                Pacemaker {
                    current_round: (round + 1) as u64,
                    consecutive_timeouts: count,
                    deadline_ms: deadline_after(now_ms, p.base_timeout_ms, count as nat) as u64,
                    ..p
                }
            } else {
                p
            }
        },
        RoundEvent::DeadlineExpired { now_ms } => {
            if p.deadline_ms <= now_ms {
                let count: u32 = if p.consecutive_timeouts < u32::MAX {
                    (p.consecutive_timeouts + 1) as u32
                } else {
                    u32::MAX
                };
                Pacemaker {
                    consecutive_timeouts: count,
                    deadline_ms: deadline_after(now_ms, p.base_timeout_ms, count as nat) as u64,
                    ..p
                }
            } else {
                p
            }
        },
    }
}

/// The action after an event.
pub open spec fn action(p: Pacemaker, e: RoundEvent) -> RoundAction {
    match e {
        RoundEvent::Certificate { epoch, round, .. } => {
            if advances(p, epoch, round) {
                RoundAction::Advanced {
                    round: next(p, e).current_round,
                    deadline_ms: next(p, e).deadline_ms,
                }
            } else {
                RoundAction::Discarded
            }
        },
        RoundEvent::DeadlineExpired { now_ms } => {
            if p.deadline_ms <= now_ms {
                RoundAction::BroadcastTimeout {
                    statement: Timeout { epoch: p.epoch, round: p.current_round },
                }
            } else {
                RoundAction::Discarded
            }
        },
    }
}

/// The state after a sequence of events, in order.
pub open spec fn run(p: Pacemaker, events: Seq<RoundEvent>) -> Pacemaker
    decreases events.len(),
{
    if events.len() == 0 {
        p
    } else {
        next(run(p, events.drop_last()), events.last())
    }
}

fn deadline_at(now_ms: u64, base_ms: u64, count: u32) -> (r: u64)
    ensures
        r == deadline_after(now_ms, base_ms, count as nat),
{
    now_ms.saturating_add(round_duration_ms(base_ms, count))
}

impl Pacemaker {
    pub open spec fn new_spec(epoch: u64, round: u64, base_timeout_ms: u64, now_ms: u64) -> Pacemaker {
        Pacemaker {
            epoch,
            current_round: round,
            base_timeout_ms,
            consecutive_timeouts: 0,
            deadline_ms: deadline_after(now_ms, base_timeout_ms, 0) as u64,
        }
    }

    /// `Active(round)` of `epoch`, started at `now_ms` with no local timeouts yet.
    pub fn new(epoch: u64, round: u64, base_timeout_ms: u64, now_ms: u64) -> (r: Pacemaker)
        ensures
            r.epoch == epoch,
            r.current_round == round,
            r.base_timeout_ms == base_timeout_ms,
            r.consecutive_timeouts == 0,
            r.deadline_ms == deadline_after(now_ms, base_timeout_ms, 0),
            r == Pacemaker::new_spec(epoch, round, base_timeout_ms, now_ms),
    {
        Pacemaker {
            epoch,
            current_round: round,
            base_timeout_ms,
            consecutive_timeouts: 0,
            deadline_ms: deadline_at(now_ms, base_timeout_ms, 0),
        }
    }

    pub fn current_round(&self) -> (r: u64)
        ensures
            r == self.current_round,
    {
        self.current_round
    }

    pub fn deadline_ms(&self) -> (r: u64)
        ensures
            r == self.deadline_ms,
    {
        self.deadline_ms
    }

    /// Handles one event: a certificate for a round at or past the current one
    /// moves to the round after it; a stale one is discarded; an expired deadline
    /// asks for a timeout of the current round and re-arms a longer deadline.
    pub fn process(&mut self, e: RoundEvent) -> (r: RoundAction)
        ensures
            *final(self) == next(*old(self), e),
            r == action(*old(self), e),
    {
        match e {
            RoundEvent::Certificate { kind, epoch, round, now_ms } => {
                if epoch == self.epoch && self.current_round <= round && round < u64::MAX {
                    let count: u32 = match kind {
                        CertificateKind::Quorum => 0,
                        CertificateKind::Timeout => self.consecutive_timeouts,
                    };
                    self.current_round = round + 1;
                    self.consecutive_timeouts = count;
                    self.deadline_ms = deadline_at(now_ms, self.base_timeout_ms, count);
                    RoundAction::Advanced { round: self.current_round, deadline_ms: self.deadline_ms }
                } else {
                    RoundAction::Discarded
                }
            },
            RoundEvent::DeadlineExpired { now_ms } => {
                if self.deadline_ms <= now_ms {
                    let statement = Timeout::new(self.epoch, self.current_round);
                    let count: u32 = self.consecutive_timeouts.saturating_add(1);
                    self.consecutive_timeouts = count;
                    self.deadline_ms = deadline_at(now_ms, self.base_timeout_ms, count);
                    RoundAction::BroadcastTimeout { statement }
                } else {
                    RoundAction::Discarded
                }
            },
        }
    }

    /// Consumes a timeout certificate, which the caller has already verified.
    pub fn on_timeout_certificate(&mut self, tc: &TimeoutCertificate, now_ms: u64) -> (r: RoundAction)
        ensures
            ({
                let e = RoundEvent::Certificate {
                    kind: CertificateKind::Timeout,
                    epoch: tc.epoch,
                    round: tc.round,
                    now_ms,
                };
                *final(self) == next(*old(self), e) && r == action(*old(self), e)
            }),
    {
        self.process(RoundEvent::Certificate {
            kind: CertificateKind::Timeout,
            epoch: tc.epoch,
            round: tc.round,
            now_ms,
        })
    }

    /// An epoch change: the new epoch starts at `initial_round` with a base deadline.
    pub fn start_epoch(&mut self, epoch: u64, initial_round: u64, now_ms: u64)
        ensures
            final(self).epoch == epoch,
            final(self).current_round == initial_round,
            final(self).base_timeout_ms == old(self).base_timeout_ms,
            final(self).consecutive_timeouts == 0,
            final(self).deadline_ms == deadline_after(now_ms, old(self).base_timeout_ms, 0),
    {
        self.epoch = epoch;
        self.current_round = initial_round;
        self.consecutive_timeouts = 0;
        self.deadline_ms = deadline_at(now_ms, self.base_timeout_ms, 0);
    }
}

/// Over any sequence of events, each step keeps or raises the current round, and
/// raises it only on a certificate of the same epoch whose round is at least the
/// current one, to exactly that round plus one. The epoch never changes.
pub proof fn lemma_round_monotone(p: Pacemaker, events: Seq<RoundEvent>, i: int)
    requires
        0 <= i < events.len(),
    ensures
        ({
            let before = run(p, events.take(i));
            let after = run(p, events.take(i + 1));
            &&& before.current_round <= after.current_round
            &&& after.epoch == p.epoch
            &&& after.current_round != before.current_round ==> (events[i] matches RoundEvent::Certificate {
                epoch,
                round,
                ..
            } && epoch == before.epoch && round >= before.current_round && after.current_round
                == round + 1)
        }),
{
    assert(events.take(i + 1).drop_last() == events.take(i));
    assert(events.take(i + 1).last() == events[i]);
    lemma_run_keeps_epoch(p, events.take(i + 1));
}

proof fn lemma_run_keeps_epoch(p: Pacemaker, events: Seq<RoundEvent>)
    ensures
        run(p, events).epoch == p.epoch,
    decreases events.len(),
{
    if events.len() > 0 {
        lemma_run_keeps_epoch(p, events.drop_last());
    }
}

} // verus!
