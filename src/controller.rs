//! One replica's round state: the pacemaker and the aggregator of its current round,
//! mutated only through this single owner.
use vstd::prelude::*;
use crate::aggregator::{Rejection, TimeoutAggregator};
use crate::certificate::{signature_accepted, sorted_by_signer, TimeoutCertificate};
use crate::pacemaker::{action, deadline_after, next, CertificateKind, Pacemaker, RoundAction, RoundEvent};
use crate::timeout::SignedTimeout;
use crate::validator::ValidatorSet;

verus! {

pub struct RoundController {
    pacemaker: Pacemaker,
    aggregator: TimeoutAggregator,
}

impl RoundController {
    pub closed spec fn pacemaker_spec(&self) -> Pacemaker {
        self.pacemaker
    }

    pub closed spec fn aggregator_spec(&self) -> TimeoutAggregator {
        self.aggregator
    }

    /// The aggregator tracks exactly the pacemaker's epoch and round.
    pub open spec fn wf(&self) -> bool {
        &&& self.aggregator_spec().wf()
        &&& self.aggregator_spec().epoch_spec() == self.pacemaker_spec().epoch
        &&& self.aggregator_spec().round_spec() == self.pacemaker_spec().current_round
    }

    pub fn new(validators: ValidatorSet, epoch: u64, round: u64, base_timeout_ms: u64, now_ms: u64) -> (r: RoundController)
        requires
            validators.wf(),
        ensures
            r.wf(),
            r.pacemaker_spec() == Pacemaker::new_spec(epoch, round, base_timeout_ms, now_ms),
            r.aggregator_spec().validators() == validators,
            r.aggregator_spec().votes().len() == 0,
    {
        let pacemaker = Pacemaker::new(epoch, round, base_timeout_ms, now_ms);
        let aggregator = TimeoutAggregator::new(validators, epoch, round);
        RoundController { pacemaker, aggregator }
    }

    pub fn pacemaker(&self) -> (r: Pacemaker)
        ensures
            r == self.pacemaker_spec(),
    {
        self.pacemaker
    }

    pub fn aggregator(&self) -> (r: &TimeoutAggregator)
        ensures
            *r == self.aggregator_spec(),
    {
        &self.aggregator
    }

    /// Hands `e` to the pacemaker; when the round advances, the aggregator starts
    /// over for the new round.
    pub fn on_event(&mut self, e: RoundEvent) -> (r: RoundAction)
        requires
            old(self).wf(),
        ensures
            final(self).wf(),
            final(self).pacemaker_spec() == next(old(self).pacemaker_spec(), e),
            r == action(old(self).pacemaker_spec(), e),
            final(self).aggregator_spec().validators() == old(self).aggregator_spec().validators(),
            r is Advanced ==> final(self).aggregator_spec().votes().len() == 0,
            !(r is Advanced) ==> final(self).aggregator_spec().votes() == old(self).aggregator_spec().votes(),
    {
        let r = self.pacemaker.process(e);
        match r {
            RoundAction::Advanced { .. } => {
                self.aggregator.reset(self.pacemaker.epoch, self.pacemaker.current_round);
            },
            _ => {},
        }
        r
    }

    /// An epoch change: the new validator set replaces the old one, the round
    /// restarts at `initial_round`, and every in-flight contribution is dropped.
    pub fn change_epoch(&mut self, validators: ValidatorSet, epoch: u64, initial_round: u64, now_ms: u64)
        requires
            old(self).wf(),
            validators.wf(),
        ensures
            final(self).wf(),
            final(self).pacemaker_spec().epoch == epoch,
            final(self).pacemaker_spec().current_round == initial_round,
            final(self).pacemaker_spec().consecutive_timeouts == 0,
            final(self).pacemaker_spec().base_timeout_ms == old(self).pacemaker_spec().base_timeout_ms,
            final(self).pacemaker_spec().deadline_ms == deadline_after(
                now_ms,
                old(self).pacemaker_spec().base_timeout_ms,
                0,
            ),
            final(self).aggregator_spec().validators() == validators,
            final(self).aggregator_spec().votes().len() == 0,
    {
        self.pacemaker.start_epoch(epoch, initial_round, now_ms);
        self.aggregator = TimeoutAggregator::new(validators, epoch, initial_round);
    }

    /// Records a signed timeout for the current round, as the aggregator's `add` does.
    /// A rejected timeout changes nothing. An accepted one is inserted in signer
    /// order; when it lifts the power to the quorum, the certificate it completes
    /// holds every recorded signature, the pacemaker consumes it at `now_ms`, and
    /// on advancing the aggregator starts over for the new round.
    pub fn on_signed_timeout(&mut self, st: &SignedTimeout, now_ms: u64) -> (r: (
        Result<Option<TimeoutCertificate>, Rejection>,
        RoundAction,
    ))
        requires
            old(self).wf(),
        ensures
            final(self).wf(),
            final(self).aggregator_spec().validators() == old(self).aggregator_spec().validators(),
            ({
                let agg = old(self).aggregator_spec();
                let vs = agg.validators();
                let ok = signature_accepted(vs, st.statement, (st.signer, st.signature@));
                let x = (st.signer, st.signature@);
                &&& agg.rejection(*st, ok) matches Some(e) ==> r.0 == Err::<
                    Option<TimeoutCertificate>,
                    Rejection,
                >(e) && final(self).aggregator_spec().votes() == agg.votes()
                &&& agg.rejection(*st, ok) is None ==> (r.0 matches Ok(c) && (c is Some <==> (
                    agg.power_spec() < vs.quorum() <= agg.power_spec() + vs.power_of(st.signer))))
                &&& r.0 matches Ok(None) ==> exists|k: int| 0 <= k <= agg.votes().len()
                    && final(self).aggregator_spec().votes() == agg.votes().insert(k, x)
                &&& r.0 matches Ok(Some(tc)) ==> (sorted_by_signer(tc.view_sigs()) && exists|k: int|
                    0 <= k <= agg.votes().len() && tc.view_sigs() == agg.votes().insert(k, x))
                &&& (r.0 matches Ok(Some(_)) && r.1 is Advanced)
                    ==> final(self).aggregator_spec().votes().len() == 0
                &&& r.0 matches Ok(Some(tc)) ==> (!(r.1 is Advanced)
                    ==> final(self).aggregator_spec().votes() == tc.view_sigs())
            }),
            r.0 matches Ok(Some(tc)) ==> {
                let e = RoundEvent::Certificate {
                    kind: CertificateKind::Timeout,
                    epoch: tc.epoch,
                    round: tc.round,
                    now_ms,
                };
                &&& tc.epoch == old(self).pacemaker_spec().epoch
                &&& tc.round == old(self).pacemaker_spec().current_round
                &&& final(self).pacemaker_spec() == next(old(self).pacemaker_spec(), e)
                &&& r.1 == action(old(self).pacemaker_spec(), e)
            },
            !(r.0 matches Ok(Some(_))) ==> final(self).pacemaker_spec() == old(self).pacemaker_spec()
                && r.1 == RoundAction::Discarded,
    {
        let added = self.aggregator.add(st);
        match &added {
            Ok(Some(tc)) => {
                let a = self.pacemaker.on_timeout_certificate(tc, now_ms);
                match a {
                    RoundAction::Advanced { .. } => {
                        self.aggregator.reset(self.pacemaker.epoch, self.pacemaker.current_round);
                    },
                    _ => {},
                }
                (added, a)
            },
            _ => (added, RoundAction::Discarded),
        }
    }
}

} // verus!
