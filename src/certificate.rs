//! Timeout certificates: quorum-signed proofs that a round was abandoned, and their validity check.
use vstd::prelude::*;
use crate::hashing::ed25519_accepts;
use crate::timeout::{timeout_digest, SignedTimeout, Timeout};
use crate::validator::ValidatorSet;

verus! {

/// One validator's signature inside a certificate.
#[derive(Clone, Debug)]
pub struct TimeoutSignature {
    pub signer: u64,
    pub signature: Vec<u8>,
}

/// A signature as plain values: the signer and the signature bytes.
pub open spec fn sig_view(s: TimeoutSignature) -> (u64, Seq<u8>) {
    (s.signer, s.signature@)
}

pub open spec fn sigs_view(s: Seq<TimeoutSignature>) -> Seq<(u64, Seq<u8>)> {
    s.map_values(|x: TimeoutSignature| sig_view(x))
}

/// Sum of the voting power of the signers in `sigs`.
pub open spec fn signed_power(vs: ValidatorSet, sigs: Seq<(u64, Seq<u8>)>) -> nat
    decreases sigs.len(),
{
    if sigs.len() == 0 {
        0
    } else {
        signed_power(vs, sigs.drop_last()) + vs.power_of(sigs.last().0)
    }
}

/// No validator signs twice.
pub open spec fn signers_distinct(sigs: Seq<(u64, Seq<u8>)>) -> bool {
    forall|i: int, j: int| 0 <= i < j < sigs.len() ==> sigs[i].0 != sigs[j].0
}

/// Signers strictly increase along the list; an aggregator keeps its signatures so,
/// which makes the certificate it forms independent of arrival order.
pub open spec fn sorted_by_signer(sigs: Seq<(u64, Seq<u8>)>) -> bool {
    forall|i: int, j: int| 0 <= i < j < sigs.len() ==> sigs[i].0 < sigs[j].0
}

/// Every signer belongs to the validator set.
pub open spec fn signers_known(vs: ValidatorSet, sigs: Seq<(u64, Seq<u8>)>) -> bool {
    forall|i: int| 0 <= i < sigs.len() ==> vs.has(#[trigger] sigs[i].0)
}

/// The signatures are from distinct members whose power reaches the quorum.
pub open spec fn quorum_signed(vs: ValidatorSet, sigs: Seq<(u64, Seq<u8>)>) -> bool {
    &&& signers_distinct(sigs)
    &&& signers_known(vs, sigs)
    &&& signed_power(vs, sigs) >= vs.quorum()
}

/// Whether signature `s` checks against its signer's key over the digest of `t`.
pub open spec fn signature_accepted(vs: ValidatorSet, t: Timeout, s: (u64, Seq<u8>)) -> bool {
    vs.has(s.0) && ed25519_accepts(vs.key_of(s.0), timeout_digest(t), s.1)
}

/// An aggregate proof that a quorum abandoned round `round` of epoch `epoch`.
#[derive(Clone, Debug)]
pub struct TimeoutCertificate {
    pub epoch: u64,
    pub round: u64,
    pub signatures: Vec<TimeoutSignature>,
}

impl TimeoutCertificate {
    pub open spec fn statement(&self) -> Timeout {
        Timeout { epoch: self.epoch, round: self.round }
    }

    pub open spec fn view_sigs(&self) -> Seq<(u64, Seq<u8>)> {
        sigs_view(self.signatures@)
    }

    /// Every signature verifies against the statement and the signers form a quorum.
    pub open spec fn valid(&self, vs: ValidatorSet) -> bool {
        &&& forall|i: int| 0 <= i < self.view_sigs().len()
            ==> signature_accepted(vs, self.statement(), #[trigger] self.view_sigs()[i])
        &&& quorum_signed(vs, self.view_sigs())
    }

    pub fn new(epoch: u64, round: u64, signatures: Vec<TimeoutSignature>) -> (r: TimeoutCertificate)
        ensures
            r.epoch == epoch,
            r.round == round,
            r.view_sigs() == sigs_view(signatures@),
    {
        TimeoutCertificate { epoch, round, signatures }
    }

    pub fn len(&self) -> (r: usize)
        ensures
            r == self.view_sigs().len(),
    {
        self.signatures.len()
    }

    /// The validity check given the outcome of each signature check:
    /// `verdicts[i]` says whether signature `i` verified.
    pub fn is_valid_with(&self, vs: &ValidatorSet, verdicts: &Vec<bool>) -> (r: bool)
        requires
            vs.wf(),
        ensures
            r == (verdicts@.len() == self.view_sigs().len()
                && (forall|i: int| 0 <= i < verdicts@.len() ==> #[trigger] verdicts@[i])
                && quorum_signed(*vs, self.view_sigs())),
    {
        if verdicts.len() != self.signatures.len() {
            return false;
        }
        let mut i: usize = 0;
        while i < verdicts.len()
            invariant
                i <= verdicts@.len(),
                forall|k: int| 0 <= k < i ==> #[trigger] verdicts@[k],
            decreases verdicts@.len() - i,
        {
            if !verdicts[i] {
                return false;
            }
            i = i + 1;
        }
        let (ok, power) = check_signers(vs, &self.signatures);
        ok && power >= vs.quorum_threshold()
    }

    /// Whether the certificate is valid for `vs`: each signature verifies against its
    /// signer's key over the timeout digest, the signers are distinct members, and
    /// their power reaches the quorum.
    pub fn is_valid(&self, vs: &ValidatorSet) -> (r: bool)
        requires
            vs.wf(),
        ensures
            r == self.valid(*vs),
    {
        let t = Timeout::new(self.epoch, self.round);
        let mut verdicts: Vec<bool> = Vec::new();
        let mut i: usize = 0;
        while i < self.signatures.len()
            invariant
                vs.wf(),
                t == self.statement(),
                i <= self.signatures@.len(),
                verdicts@.len() == i,
                forall|k: int| 0 <= k < i ==> #[trigger] verdicts@[k]
                    == signature_accepted(*vs, t, self.view_sigs()[k]),
            decreases self.signatures@.len() - i,
        {
            let s = &self.signatures[i];
            let v = match vs.public_key_of(s.signer) {
                Some(key) => SignedTimeout::new(t, s.signer, copy_bytes(&s.signature)).verify(key),
                None => false,
            };
            verdicts.push(v);
            i = i + 1;
        }
        let r = self.is_valid_with(vs, &verdicts);
        proof {
            if r {
                assert forall|k: int| 0 <= k < self.view_sigs().len()
                    implies signature_accepted(*vs, self.statement(), #[trigger] self.view_sigs()[k]) by {
                    assert(verdicts@[k]);
                }
            }
            if self.valid(*vs) {
                assert forall|k: int| 0 <= k < verdicts@.len() implies #[trigger] verdicts@[k] by {
                    assert(signature_accepted(*vs, self.statement(), self.view_sigs()[k]));
                }
            }
        }
        r
    }
}

pub proof fn lemma_sigs_view_insert(s: Seq<TimeoutSignature>, k: int, x: TimeoutSignature)
    requires
        0 <= k <= s.len(),
    ensures
        sigs_view(s.insert(k, x)) == sigs_view(s).insert(k, sig_view(x)),
{
    assert(sigs_view(s.insert(k, x)) =~= sigs_view(s).insert(k, sig_view(x)));
}

/// Putting one signature in raises the power by that signer's power.
pub proof fn lemma_power_insert(vs: ValidatorSet, sigs: Seq<(u64, Seq<u8>)>, k: int, x: (u64, Seq<u8>))
    requires
        0 <= k <= sigs.len(),
    ensures
        signed_power(vs, sigs.insert(k, x)) == signed_power(vs, sigs) + vs.power_of(x.0),
{
    lemma_power_remove(vs, sigs.insert(k, x), k);
    assert(sigs.insert(k, x).remove(k) == sigs);
}

/// Taking one signature out lowers the power by that signer's power.
pub proof fn lemma_power_remove(vs: ValidatorSet, sigs: Seq<(u64, Seq<u8>)>, k: int)
    requires
        0 <= k < sigs.len(),
    ensures
        signed_power(vs, sigs.remove(k)) + vs.power_of(sigs[k].0) == signed_power(vs, sigs),
    decreases sigs.len(),
{
    if k == sigs.len() - 1 {
        assert(sigs.remove(k) == sigs.drop_last());
    } else {
        assert(sigs.remove(k).drop_last() == sigs.drop_last().remove(k));
        assert(sigs.remove(k).last() == sigs.last());
        lemma_power_remove(vs, sigs.drop_last(), k);
    }
}

/// A certificate is minimal at signer `k` when the others alone fall short of the
/// quorum; removing that signer then leaves no quorum, so no certificate with the
/// remaining signatures is valid.
pub proof fn lemma_remove_from_minimal(vs: ValidatorSet, sigs: Seq<(u64, Seq<u8>)>, k: int)
    requires
        0 <= k < sigs.len(),
        signed_power(vs, sigs) < vs.quorum() + vs.power_of(sigs[k].0),
    ensures
        !quorum_signed(vs, sigs.remove(k)),
{
    lemma_power_remove(vs, sigs, k);
}

/// Each member carries one unit of voting power.
pub open spec fn unit_power(vs: ValidatorSet) -> bool {
    forall|i: int| 0 <= i < vs.members().len() ==> #[trigger] vs.members()[i].voting_power == 1
}

proof fn lemma_unit_power_count(vs: ValidatorSet, sigs: Seq<(u64, Seq<u8>)>)
    requires
        unit_power(vs),
        signers_known(vs, sigs),
    ensures
        signed_power(vs, sigs) == sigs.len(),
    decreases sigs.len(),
{
    if sigs.len() > 0 {
        let d = sigs.drop_last();
        assert forall|i: int| 0 <= i < d.len() implies vs.has(#[trigger] d[i].0) by {
            assert(vs.has(sigs[i].0));
        }
        lemma_unit_power_count(vs, d);
        assert(vs.has(sigs[sigs.len() - 1].0));
    }
}

/// With one unit of power per validator (3f+1 validators, quorum 2f+1), a
/// certificate of exactly quorum-many signers loses its quorum when any one
/// signer is removed.
pub proof fn lemma_unit_power_minimal(vs: ValidatorSet, tc: TimeoutCertificate, k: int)
    requires
        vs.wf(),
        unit_power(vs),
        tc.valid(vs),
        tc.view_sigs().len() == vs.quorum(),
        0 <= k < tc.view_sigs().len(),
    ensures
        !quorum_signed(vs, tc.view_sigs().remove(k)),
{
    let s = tc.view_sigs();
    let r = s.remove(k);
    if quorum_signed(vs, r) {
        assert forall|i: int| 0 <= i < r.len() implies vs.has(#[trigger] r[i].0) by {
            if i < k {
                assert(r[i] == s[i]);
                assert(vs.has(s[i].0));
            } else {
                assert(r[i] == s[i + 1]);
                assert(vs.has(s[i + 1].0));
            }
        }
        lemma_unit_power_count(vs, r);
    }
}

/// A copy of a byte vector.
pub fn copy_bytes(v: &Vec<u8>) -> (r: Vec<u8>)
    ensures
        r@ == v@,
{
    let mut r: Vec<u8> = Vec::new();
    let mut i: usize = 0;
    while i < v.len()
        invariant
            i <= v@.len(),
            r@ == v@.take(i as int),
        decreases v@.len() - i,
    {
        r.push(v[i]);
        assert(v@.take(i as int + 1) == v@.take(i as int).push(v@[i as int]));
        i = i + 1;
    }
    assert(v@.take(v@.len() as int) == v@);
    r
}

/// A copy of a list of signatures.
pub fn copy_signatures(v: &Vec<TimeoutSignature>) -> (r: Vec<TimeoutSignature>)
    ensures
        sigs_view(r@) == sigs_view(v@),
{
    let mut r: Vec<TimeoutSignature> = Vec::new();
    let mut i: usize = 0;
    while i < v.len()
        invariant
            i <= v@.len(),
            sigs_view(r@) == sigs_view(v@.take(i as int)),
        decreases v@.len() - i,
    {
        let s = TimeoutSignature { signer: v[i].signer, signature: copy_bytes(&v[i].signature) };
        proof {
            lemma_sigs_view_push(r@, s);
            assert(v@.take(i as int + 1) == v@.take(i as int).push(v@[i as int]));
            lemma_sigs_view_push(v@.take(i as int), v@[i as int]);
        }
        r.push(s);
        i = i + 1;
    }
    assert(v@.take(v@.len() as int) == v@);
    r
}

pub proof fn lemma_sigs_view_push(s: Seq<TimeoutSignature>, x: TimeoutSignature)
    ensures
        sigs_view(s.push(x)) == sigs_view(s).push(sig_view(x)),
{
    assert(sigs_view(s.push(x)) =~= sigs_view(s).push(sig_view(x)));
}

/// The power of the signers, capped at `u64::MAX`.
pub open spec fn capped(n: nat) -> nat {
    if n > u64::MAX { u64::MAX as nat } else { n }
}

/// Checks that the signers are distinct members, and sums their power (capped).
fn check_signers(vs: &ValidatorSet, sigs: &Vec<TimeoutSignature>) -> (r: (bool, u64))
    requires
        vs.wf(),
    ensures
        r.0 == (signers_distinct(sigs_view(sigs@)) && signers_known(*vs, sigs_view(sigs@))),
        r.0 ==> r.1 == capped(signed_power(*vs, sigs_view(sigs@))),
{
    let ghost view = sigs_view(sigs@);
    let n = sigs.len();
    let mut power: u64 = 0;
    let mut i: usize = 0;
    while i < n
        invariant
            vs.wf(),
            n == sigs@.len(),
            view == sigs_view(sigs@),
            i <= n,
            signers_distinct(view.take(i as int)),
            signers_known(*vs, view.take(i as int)),
            power == capped(signed_power(*vs, view.take(i as int))),
        decreases n - i,
    {
        let id = sigs[i].signer;
        let mut j: usize = 0;
        while j < i
            invariant
                n == sigs@.len(),
                view == sigs_view(sigs@),
                j <= i < n,
                id == view[i as int].0,
                forall|k: int| 0 <= k < j ==> view[k].0 != id,
            decreases i - j,
        {
            if sigs[j].signer == id {
                proof {
                    assert(view[j as int].0 == view[i as int].0);
                    assert(!signers_distinct(view));
                }
                return (false, 0);
            }
            j = j + 1;
        }
        let p = vs.voting_power(id);
        if vs.find(id).is_none() {
            proof {
                assert(!vs.has(view[i as int].0));
                assert(!signers_known(*vs, view));
            }
            return (false, 0);
        }
        proof {
            let t = view.take(i as int + 1);
            assert(t.drop_last() == view.take(i as int));
            assert(t.last().0 == id);
        }
        power = power.saturating_add(p);
        i = i + 1;
    }
    assert(view.take(n as int) == view);
    (true, power)
}

} // verus!
