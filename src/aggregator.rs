//! Collects signed timeouts for one round and forms a certificate once a quorum signed.
use vstd::prelude::*;
use crate::certificate::{
    capped, copy_bytes, copy_signatures, lemma_power_insert, lemma_sigs_view_insert,
    signature_accepted, signed_power, signers_distinct, signers_known, sig_view, sigs_view,
    sorted_by_signer, TimeoutCertificate, TimeoutSignature,
};
use crate::timeout::{SignedTimeout, Timeout};
use crate::validator::ValidatorSet;

verus! {

/// The contributions recorded for one (epoch, round), at most one per validator,
/// kept in increasing order of signer identity.
pub struct TimeoutAggregator {
    validators: ValidatorSet,
    epoch: u64,
    round: u64,
    votes: Vec<TimeoutSignature>,
    power: u64,
}

/// Why a signed timeout was not counted.
#[derive(Clone, Copy, Debug, PartialEq, Eq, Structural)]
pub enum Rejection {
    /// The statement is for another epoch or round than the one tracked.
    WrongRound,
    /// The signer is not in the validator set.
    UnknownSigner,
    /// The signer was already counted for this round.
    Duplicate,
    /// The signature does not verify.
    BadSignature,
}

/// Whether `votes` holds a contribution of `signer`.
pub open spec fn holds_signer(votes: Seq<(u64, Seq<u8>)>, signer: u64) -> bool {
    exists|i: int| 0 <= i < votes.len() && #[trigger] votes[i].0 == signer
}

/// Why `st` is not counted by an aggregator of `vs` for (`epoch`, `round`) holding
/// `votes`, given whether its signature verified; `None` if it is counted.
pub open spec fn rejection_for(
    vs: ValidatorSet,
    epoch: u64,
    round: u64,
    votes: Seq<(u64, Seq<u8>)>,
    st: SignedTimeout,
    signature_valid: bool,
) -> Option<Rejection> {
    if st.statement.epoch != epoch || st.statement.round != round {
        Some(Rejection::WrongRound)
    } else if !vs.has(st.signer) {
        Some(Rejection::UnknownSigner)
    } else if holds_signer(votes, st.signer) {
        Some(Rejection::Duplicate)
    } else if !signature_valid {
        Some(Rejection::BadSignature)
    } else {
        None
    }
}

/// Where `id` goes in a list sorted by signer: after every smaller signer.
pub open spec fn insert_pos(votes: Seq<(u64, Seq<u8>)>, id: u64) -> int
    decreases votes.len(),
{
    if votes.len() == 0 {
        0
    } else if votes.last().0 < id {
        votes.len() as int
    } else {
        insert_pos(votes.drop_last(), id)
    }
}

/// The recorded signatures after feeding `item` (a signed timeout and whether its
/// signature verified) to an aggregator of `vs` for (`epoch`, `round`) holding `votes`.
pub open spec fn record(
    vs: ValidatorSet,
    epoch: u64,
    round: u64,
    votes: Seq<(u64, Seq<u8>)>,
    item: (SignedTimeout, bool),
) -> Seq<(u64, Seq<u8>)> {
    if rejection_for(vs, epoch, round, votes, item.0, item.1) is Some {
        votes
    } else {
        votes.insert(insert_pos(votes, item.0.signer), (item.0.signer, item.0.signature@))
    }
}

/// The recorded signatures after feeding `items` in order.
pub open spec fn record_all(
    vs: ValidatorSet,
    epoch: u64,
    round: u64,
    votes: Seq<(u64, Seq<u8>)>,
    items: Seq<(SignedTimeout, bool)>,
) -> Seq<(u64, Seq<u8>)>
    decreases items.len(),
{
    if items.len() == 0 {
        votes
    } else {
        record(vs, epoch, round, record_all(vs, epoch, round, votes, items.drop_last()), items.last())
    }
}

impl TimeoutAggregator {
    pub closed spec fn validators(&self) -> ValidatorSet {
        self.validators
    }

    pub closed spec fn epoch_spec(&self) -> u64 {
        self.epoch
    }

    pub closed spec fn round_spec(&self) -> u64 {
        self.round
    }

    /// The recorded signatures, in increasing order of signer.
    pub closed spec fn votes(&self) -> Seq<(u64, Seq<u8>)> {
        sigs_view(self.votes@)
    }

    /// The voting power recorded so far.
    pub open spec fn power_spec(&self) -> nat {
        signed_power(self.validators(), self.votes())
    }

    pub closed spec fn wf(&self) -> bool {
        &&& self.validators.wf()
        &&& signers_distinct(self.votes())
        &&& sorted_by_signer(self.votes())
        &&& signers_known(self.validators, self.votes())
        &&& self.power == capped(signed_power(self.validators, self.votes()))
    }

    /// Why `st` would not be counted, given whether its signature verified; `None` if it would.
    pub open spec fn rejection(&self, st: SignedTimeout, signature_valid: bool) -> Option<Rejection> {
        rejection_for(self.validators(), self.epoch_spec(), self.round_spec(), self.votes(), st, signature_valid)
    }

    /// An empty aggregator for round `round` of epoch `epoch`.
    pub fn new(validators: ValidatorSet, epoch: u64, round: u64) -> (r: TimeoutAggregator)
        requires
            validators.wf(),
        ensures
            r.wf(),
            r.validators() == validators,
            r.epoch_spec() == epoch,
            r.round_spec() == round,
            r.votes().len() == 0,
    {
        let r = TimeoutAggregator { validators, epoch, round, votes: Vec::new(), power: 0 };
        assert(r.votes() =~= Seq::<(u64, Seq<u8>)>::empty());
        r
    }

    pub fn epoch(&self) -> (r: u64)
        ensures
            r == self.epoch_spec(),
    {
        self.epoch
    }

    pub fn round(&self) -> (r: u64)
        ensures
            r == self.round_spec(),
    {
        self.round
    }

    /// The number of distinct validators counted.
    pub fn count(&self) -> (r: usize)
        ensures
            r == self.votes().len(),
    {
        self.votes.len()
    }

    /// The voting power counted, capped at `u64::MAX`.
    pub fn voting_power(&self) -> (r: u64)
        requires
            self.wf(),
        ensures
            r == capped(self.power_spec()),
    {
        self.power
    }

    /// Discards every contribution and starts tracking round `round` of epoch `epoch`.
    pub fn reset(&mut self, epoch: u64, round: u64)
        requires
            old(self).wf(),
        ensures
            final(self).wf(),
            final(self).validators() == old(self).validators(),
            final(self).epoch_spec() == epoch,
            final(self).round_spec() == round,
            final(self).votes().len() == 0,
    {
        self.epoch = epoch;
        self.round = round;
        self.votes = Vec::new();
        self.power = 0;
        assert(self.votes() =~= Seq::<(u64, Seq<u8>)>::empty());
    }

    /// Records `st` given whether its signature verified.
    /// A rejected timeout changes nothing. An accepted one is inserted at its place
    /// in signer order, and a certificate holding every recorded signature comes back
    /// exactly when this contribution lifts the power from below the quorum to at
    /// least the quorum.
    pub fn add_checked(&mut self, st: &SignedTimeout, signature_valid: bool) -> (r: Result<
        Option<TimeoutCertificate>,
        Rejection,
    >)
        requires
            old(self).wf(),
        ensures
            final(self).wf(),
            final(self).validators() == old(self).validators(),
            final(self).epoch_spec() == old(self).epoch_spec(),
            final(self).round_spec() == old(self).round_spec(),
            old(self).rejection(*st, signature_valid) matches Some(e) ==> r == Err::<
                Option<TimeoutCertificate>,
                Rejection,
            >(e) && final(self).votes() == old(self).votes(),
            sorted_by_signer(final(self).votes()),
            final(self).votes() == record(
                old(self).validators(),
                old(self).epoch_spec(),
                old(self).round_spec(),
                old(self).votes(),
                (*st, signature_valid),
            ),
            old(self).rejection(*st, signature_valid) is None ==> {
                &&& exists|k: int| 0 <= k <= old(self).votes().len() && final(self).votes()
                    == old(self).votes().insert(k, (st.signer, st.signature@))
                &&& final(self).power_spec() == old(self).power_spec()
                    + old(self).validators().power_of(st.signer)
                &&& r matches Ok(c) && (c is Some <==> (old(self).power_spec()
                    < old(self).validators().quorum() <= final(self).power_spec()))
            },
            r matches Ok(Some(tc)) ==> tc.epoch == final(self).epoch_spec() && tc.round
                == final(self).round_spec() && tc.view_sigs() == final(self).votes(),
    {
        if st.statement.epoch != self.epoch || st.statement.round != self.round {
            return Err(Rejection::WrongRound);
        }
        let p = self.validators.voting_power(st.signer);
        if self.validators.find(st.signer).is_none() {
            return Err(Rejection::UnknownSigner);
        }
        let mut i: usize = 0;
        while i < self.votes.len() && self.votes[i].signer < st.signer
            invariant
                *self == *old(self),
                self.wf(),
                st.statement.epoch == self.epoch && st.statement.round == self.round,
                self.validators.has(st.signer),
                i <= self.votes@.len(),
                forall|k: int| 0 <= k < i ==> self.votes()[k].0 < st.signer,
            decreases self.votes@.len() - i,
        {
            i = i + 1;
        }
        if i < self.votes.len() && self.votes[i].signer == st.signer {
            proof {
                assert(self.votes()[i as int].0 == st.signer);
            }
            return Err(Rejection::Duplicate);
        }
        proof {
            assert forall|k: int| 0 <= k < self.votes().len() implies self.votes()[k].0 != st.signer by {
                if k < i {
                } else {
                    assert(self.votes()[i as int].0 > st.signer);
                    if k > i {
                        assert(self.votes()[i as int].0 < self.votes()[k].0);
                    }
                }
            }
        }
        if !signature_valid {
            return Err(Rejection::BadSignature);
        }
        let quorum = self.validators.quorum_threshold();
        let before = self.power;
        let s = TimeoutSignature { signer: st.signer, signature: copy_bytes(&st.signature) };
        let ghost old_votes = self.votes@;
        let ghost ov = sigs_view(old_votes);
        let ghost x = (st.signer, st.signature@);
        proof {
            lemma_sigs_view_insert(old_votes, i as int, s);
            let nv = ov.insert(i as int, x);
            assert forall|a: int, b: int| 0 <= a < b < nv.len() implies nv[a].0 < nv[b].0 by {
                if b < i {
                    assert(nv[a] == ov[a] && nv[b] == ov[b]);
                } else if b == i {
                    assert(nv[a] == ov[a]);
                } else if a < i {
                    assert(nv[a] == ov[a] && nv[b] == ov[b - 1]);
                    assert(ov[i as int].0 > st.signer);
                    assert(ov[a].0 < st.signer);
                } else if a == i {
                    assert(nv[b] == ov[b - 1]);
                    assert(ov[i as int].0 > st.signer);
                    if b - 1 > i {
                        assert(ov[i as int].0 < ov[b - 1].0);
                    }
                } else {
                    assert(nv[a] == ov[a - 1] && nv[b] == ov[b - 1]);
                }
            }
            assert forall|a: int| 0 <= a < nv.len() implies self.validators.has(#[trigger] nv[a].0) by {
                if a < i {
                    assert(nv[a] == ov[a]);
                    assert(self.validators.has(ov[a].0));
                } else if a > i {
                    assert(nv[a] == ov[a - 1]);
                    assert(self.validators.has(ov[a - 1].0));
                }
            }
            lemma_power_insert(self.validators, ov, i as int, x);
            assert forall|k: int| i <= k < ov.len() implies ov[k].0 > st.signer by {
                assert(ov[k].0 != st.signer);
                assert(ov[i as int].0 >= st.signer);
                if k > i {
                    assert(ov[i as int].0 < ov[k].0);
                }
            }
            lemma_insert_pos(ov, st.signer, i as int);
            lemma_quorum_fits(self.validators);
        }
        self.votes.insert(i, s);
        self.power = self.power.saturating_add(p);
        if before < quorum && quorum <= self.power {
            let tc = TimeoutCertificate::new(self.epoch, self.round, copy_signatures(&self.votes));
            Ok(Some(tc))
        } else {
            Ok(None)
        }
    }

    /// Verifies `st` against its signer's key and records it as `add_checked` does.
    pub fn add(&mut self, st: &SignedTimeout) -> (r: Result<Option<TimeoutCertificate>, Rejection>)
        requires
            old(self).wf(),
        ensures
            final(self).wf(),
            final(self).validators() == old(self).validators(),
            final(self).epoch_spec() == old(self).epoch_spec(),
            final(self).round_spec() == old(self).round_spec(),
            sorted_by_signer(final(self).votes()),
            final(self).votes() == record(
                old(self).validators(),
                old(self).epoch_spec(),
                old(self).round_spec(),
                old(self).votes(),
                (*st, signature_accepted(old(self).validators(), st.statement, (st.signer, st.signature@))),
            ),
            ({
                let ok = signature_accepted(old(self).validators(), st.statement, (st.signer, st.signature@));
                &&& old(self).rejection(*st, ok) matches Some(e) ==> r == Err::<
                    Option<TimeoutCertificate>,
                    Rejection,
                >(e) && final(self).votes() == old(self).votes()
                &&& old(self).rejection(*st, ok) is None ==> {
                    &&& exists|k: int| 0 <= k <= old(self).votes().len() && final(self).votes()
                        == old(self).votes().insert(k, (st.signer, st.signature@))
                    &&& final(self).power_spec() == old(self).power_spec()
                        + old(self).validators().power_of(st.signer)
                    &&& r matches Ok(c) && (c is Some <==> (old(self).power_spec()
                        < old(self).validators().quorum() <= final(self).power_spec()))
                }
            }),
            r matches Ok(Some(tc)) ==> tc.epoch == final(self).epoch_spec() && tc.round
                == final(self).round_spec() && tc.view_sigs() == final(self).votes(),
    {
        let ok = match self.validators.public_key_of(st.signer) {
            Some(key) => st.verify(key),
            None => false,
        };
        self.add_checked(st, ok)
    }
}

/// Adding the same signed timeout a second time is rejected as a duplicate, so it
/// changes neither the recorded signatures nor the power: once `a` accepted `st`,
/// the aggregator `b` that holds `a`'s contributions with `st` put in refuses `st`
/// again, whatever its signature check says.
pub proof fn lemma_add_idempotent(
    a: TimeoutAggregator,
    b: TimeoutAggregator,
    st: SignedTimeout,
    first_valid: bool,
    second_valid: bool,
    k: int,
)
    requires
        a.wf(),
        a.rejection(st, first_valid) is None,
        b.validators() == a.validators(),
        b.epoch_spec() == a.epoch_spec(),
        b.round_spec() == a.round_spec(),
        0 <= k <= a.votes().len(),
        b.votes() == a.votes().insert(k, (st.signer, st.signature@)),
    ensures
        b.rejection(st, second_valid) == Some(Rejection::Duplicate),
{
    assert(b.votes()[k].0 == st.signer);
}

proof fn lemma_insert_pos(v: Seq<(u64, Seq<u8>)>, id: u64, i: int)
    requires
        sorted_by_signer(v),
        0 <= i <= v.len(),
        forall|k: int| 0 <= k < i ==> v[k].0 < id,
        forall|k: int| i <= k < v.len() ==> v[k].0 > id,
    ensures
        insert_pos(v, id) == i,
    decreases v.len(),
{
    if v.len() > 0 {
        if v.last().0 < id {
            if i < v.len() {
                assert(v[v.len() - 1].0 > id);
            }
        } else {
            if i == v.len() {
                assert(v[v.len() - 1].0 < id);
            }
            lemma_insert_pos(v.drop_last(), id, i);
        }
    }
}

/// Feeding one more item never drops a recorded signer.
proof fn lemma_record_keeps_signer(
    vs: ValidatorSet,
    epoch: u64,
    round: u64,
    votes: Seq<(u64, Seq<u8>)>,
    item: (SignedTimeout, bool),
    id: u64,
)
    requires
        holds_signer(votes, id),
        0 <= insert_pos(votes, item.0.signer) <= votes.len(),
    ensures
        holds_signer(record(vs, epoch, round, votes, item), id),
{
    if rejection_for(vs, epoch, round, votes, item.0, item.1) is None {
        let p = insert_pos(votes, item.0.signer);
        let j = choose|j: int| 0 <= j < votes.len() && #[trigger] votes[j].0 == id;
        let nv = votes.insert(p, (item.0.signer, item.0.signature@));
        if j < p {
            assert(nv[j].0 == id);
        } else {
            assert(nv[j + 1].0 == id);
        }
    }
}

proof fn lemma_insert_pos_range(votes: Seq<(u64, Seq<u8>)>, id: u64)
    ensures
        0 <= insert_pos(votes, id) <= votes.len(),
    decreases votes.len(),
{
    if votes.len() > 0 {
        lemma_insert_pos_range(votes.drop_last(), id);
    }
}

/// Once an item was fed, feeding it again (same timeout, same verdict) is rejected
/// at every later point.
proof fn lemma_stays_rejected(
    vs: ValidatorSet,
    epoch: u64,
    round: u64,
    start: Seq<(u64, Seq<u8>)>,
    items: Seq<(SignedTimeout, bool)>,
    i: int,
    j: int,
)
    requires
        0 <= i < j <= items.len(),
    ensures
        rejection_for(
            vs,
            epoch,
            round,
            record_all(vs, epoch, round, start, items.take(j)),
            items[i].0,
            items[i].1,
        ) is Some,
    decreases j,
{
    let x = items[i];
    let before = record_all(vs, epoch, round, start, items.take(j - 1));
    let after = record_all(vs, epoch, round, start, items.take(j));
    assert(items.take(j).drop_last() == items.take(j - 1));
    assert(items.take(j).last() == items[j - 1]);
    lemma_insert_pos_range(before, items[j - 1].0.signer);
    if j == i + 1 {
        if rejection_for(vs, epoch, round, before, x.0, x.1) is None {
            let p = insert_pos(before, x.0.signer);
            assert(after[p].0 == x.0.signer);
            assert(holds_signer(after, x.0.signer));
        }
    } else {
        lemma_stays_rejected(vs, epoch, round, start, items, i, j - 1);
        if holds_signer(before, x.0.signer) {
            lemma_record_keeps_signer(vs, epoch, round, before, items[j - 1], x.0.signer);
        }
    }
}

proof fn lemma_record_all_append(
    vs: ValidatorSet,
    epoch: u64,
    round: u64,
    start: Seq<(u64, Seq<u8>)>,
    p: Seq<(SignedTimeout, bool)>,
    t: Seq<(SignedTimeout, bool)>,
)
    ensures
        record_all(vs, epoch, round, start, p + t) == record_all(
            vs,
            epoch,
            round,
            record_all(vs, epoch, round, start, p),
            t,
        ),
    decreases t.len(),
{
    if t.len() == 0 {
        assert(p + t == p);
    } else {
        assert((p + t).drop_last() == p + t.drop_last());
        assert((p + t).last() == t.last());
        lemma_record_all_append(vs, epoch, round, start, p, t.drop_last());
    }
}

/// Duplicate delivery never double-counts: in any sequence of signed timeouts
/// (each with its verification verdict) fed to an aggregator, inserting an extra
/// copy of an item anywhere after its first occurrence leaves the recorded
/// signatures, and so the counted power and the point where the quorum is
/// reached, the same after every later item; the copy itself is rejected.
pub proof fn lemma_duplicates_change_nothing(
    vs: ValidatorSet,
    epoch: u64,
    round: u64,
    start: Seq<(u64, Seq<u8>)>,
    p: Seq<(SignedTimeout, bool)>,
    i: int,
    t: Seq<(SignedTimeout, bool)>,
)
    requires
        0 <= i < p.len(),
    ensures
        rejection_for(vs, epoch, round, record_all(vs, epoch, round, start, p), p[i].0, p[i].1) is Some,
        record_all(vs, epoch, round, start, p.push(p[i]) + t) == record_all(vs, epoch, round, start, p + t),
{
    lemma_stays_rejected(vs, epoch, round, start, p, i, p.len() as int);
    assert(p.take(p.len() as int) == p);
    let q = p.push(p[i]);
    assert(q.drop_last() == p);
    assert(record_all(vs, epoch, round, start, q) == record_all(vs, epoch, round, start, p));
    lemma_record_all_append(vs, epoch, round, start, q, t);
    lemma_record_all_append(vs, epoch, round, start, p, t);
}

/// The quorum threshold of a well-formed set fits in a `u64`.
proof fn lemma_quorum_fits(vs: ValidatorSet)
    requires
        vs.wf(),
    ensures
        vs.quorum() <= u64::MAX,
{
    let t = crate::validator::total_power(vs.members());
    assert(t * 2 / 3 + 1 <= u64::MAX) by (nonlinear_arith)
        requires
            t <= u64::MAX,
    ;
}

} // verus!
