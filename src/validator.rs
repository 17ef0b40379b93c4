//! The validator set of an epoch: identities, public keys and voting power.
use vstd::prelude::*;

verus! {

/// One validator of an epoch.
#[derive(Clone, Debug)]
pub struct ValidatorInfo {
    pub id: u64,
    pub public_key: Vec<u8>,
    pub voting_power: u64,
}

/// Sum of the voting power of a sequence of validators.
pub open spec fn total_power(vals: Seq<ValidatorInfo>) -> nat
    decreases vals.len(),
{
    if vals.len() == 0 {
        0
    } else {
        total_power(vals.drop_last()) + vals.last().voting_power as nat
    }
}

/// No two entries share an identity.
pub open spec fn ids_distinct(vals: Seq<ValidatorInfo>) -> bool {
    forall|i: int, j: int| 0 <= i < j < vals.len() ==> vals[i].id != vals[j].id
}

/// The quorum threshold for a total voting power: more than two thirds, i.e. 2f+1 of 3f+1.
pub open spec fn quorum_of(total: nat) -> nat {
    total * 2 / 3 + 1
}

/// The validators of an epoch, with distinct identities and a total power that fits in a `u64`.
#[derive(Clone, Debug)]
pub struct ValidatorSet {
    validators: Vec<ValidatorInfo>,
    total: u64,
}

/// Why a list of validators does not make a validator set.
#[derive(Clone, Copy, Debug, PartialEq, Eq, Structural)]
pub enum ValidatorSetError {
    DuplicateValidator,
    PowerOverflow,
}

impl ValidatorSet {
    pub closed spec fn members(&self) -> Seq<ValidatorInfo> {
        self.validators@
    }

    pub open spec fn wf(&self) -> bool {
        &&& ids_distinct(self.members())
        &&& total_power(self.members()) <= u64::MAX
        &&& self.total_spec() == total_power(self.members())
    }

    pub closed spec fn total_spec(&self) -> nat {
        self.total as nat
    }

    /// Whether `id` belongs to the set.
    pub open spec fn has(&self, id: u64) -> bool {
        exists|i: int| 0 <= i < self.members().len() && self.members()[i].id == id
    }

    /// The voting power of `id`; zero for an identity outside the set.
    pub open spec fn power_of(&self, id: u64) -> nat {
        if self.has(id) {
            let i = choose|i: int| 0 <= i < self.members().len() && self.members()[i].id == id;
            self.members()[i].voting_power as nat
        } else {
            0
        }
    }

    /// The public key of `id`; empty for an identity outside the set.
    pub open spec fn key_of(&self, id: u64) -> Seq<u8> {
        if self.has(id) {
            let i = choose|i: int| 0 <= i < self.members().len() && self.members()[i].id == id;
            self.members()[i].public_key@
        } else {
            Seq::empty()
        }
    }

    pub open spec fn quorum(&self) -> nat {
        quorum_of(total_power(self.members()))
    }

    /// Builds the set; fails on a repeated identity or on a total power beyond `u64`.
    pub fn new(validators: Vec<ValidatorInfo>) -> (r: Result<ValidatorSet, ValidatorSetError>)
        ensures
            r matches Ok(s) ==> s.wf() && s.members() == validators@,
            r matches Err(e) ==> (e == ValidatorSetError::DuplicateValidator) == !ids_distinct(validators@),
            r matches Err(e) ==> e == ValidatorSetError::PowerOverflow ==> total_power(validators@) > u64::MAX,
            r is Ok <==> (ids_distinct(validators@) && total_power(validators@) <= u64::MAX),
    {
        let n = validators.len();
        let mut i: usize = 0;
        while i < n
            invariant
                n == validators@.len(),
                i <= n,
                forall|a: int, b: int| 0 <= a < b < n && a < i ==> validators@[a].id != validators@[b].id,
            decreases n - i,
        {
            let mut j: usize = i + 1;
            while j < n
                invariant
                    n == validators@.len(),
                    i < n,
                    i + 1 <= j <= n,
                    forall|b: int| i < b < j ==> validators@[i as int].id != validators@[b].id,
                decreases n - j,
            {
                if validators[i].id == validators[j].id {
                    return Err(ValidatorSetError::DuplicateValidator);
                }
                j = j + 1;
            }
            i = i + 1;
        }
        assert(ids_distinct(validators@));
        let mut total: u64 = 0;
        let mut k: usize = 0;
        while k < n
            invariant
                n == validators@.len(),
                k <= n,
                total == total_power(validators@.take(k as int)),
                ids_distinct(validators@),
            decreases n - k,
        {
            assert(validators@.take(k as int + 1).drop_last() == validators@.take(k as int));
            let p = validators[k].voting_power;
            if total > u64::MAX - p {
                proof {
                    lemma_total_power_prefix(validators@, k as int + 1);
                }
                return Err(ValidatorSetError::PowerOverflow);
            }
            total = total + p;
            k = k + 1;
        }
        assert(validators@.take(n as int) == validators@);
        Ok(ValidatorSet { validators, total })
    }

    pub fn len(&self) -> (r: usize)
        ensures
            r == self.members().len(),
    {
        self.validators.len()
    }

    /// The total voting power.
    pub fn total_voting_power(&self) -> (r: u64)
        requires
            self.wf(),
        ensures
            r == total_power(self.members()),
    {
        self.total
    }

    /// The quorum threshold: `total * 2 / 3 + 1`.
    pub fn quorum_threshold(&self) -> (r: u64)
        requires
            self.wf(),
        ensures
            r == self.quorum(),
    {
        let t = self.total as u128;
        (t * 2 / 3 + 1) as u64
    }

    /// The position of `id` in the set, if it is a member.
    pub fn find(&self, id: u64) -> (r: Option<usize>)
        requires
            self.wf(),
        ensures
            r matches Some(i) ==> i < self.members().len() && self.members()[i as int].id == id
                && self.power_of(id) == self.members()[i as int].voting_power
                && self.key_of(id) == self.members()[i as int].public_key@,
            r is None <==> !self.has(id),
    {
        let mut i: usize = 0;
        while i < self.validators.len()
            invariant
                self.wf(),
                i <= self.validators@.len(),
                forall|k: int| 0 <= k < i ==> self.validators@[k].id != id,
            decreases self.validators@.len() - i,
        {
            if self.validators[i].id == id {
                proof {
                    let c = choose|c: int| 0 <= c < self.members().len() && self.members()[c].id == id;
                    let ii = i as int;
                    assert(self.members()[ii].id == id);
                    assert(ids_distinct(self.members()));
                    if c != ii {
                        assert(self.members()[c].id != self.members()[ii].id);
                    }
                    assert(c == ii);
                }
                return Some(i);
            }
            i = i + 1;
        }
        None
    }

    /// The voting power of `id`, zero for a non-member.
    pub fn voting_power(&self, id: u64) -> (r: u64)
        requires
            self.wf(),
        ensures
            r == self.power_of(id),
    {
        match self.find(id) {
            Some(i) => self.validators[i].voting_power,
            None => 0,
        }
    }

    /// The public key of `id`, if it is a member.
    pub fn public_key_of(&self, id: u64) -> (r: Option<&Vec<u8>>)
        requires
            self.wf(),
        ensures
            r is None <==> !self.has(id),
            r matches Some(k) ==> k@ == self.key_of(id),
    {
        match self.find(id) {
            Some(i) => Some(&self.validators[i].public_key),
            None => None,
        }
    }
}

/// The total of a prefix never exceeds the total of the whole.
proof fn lemma_total_power_prefix(vals: Seq<ValidatorInfo>, k: int)
    requires
        0 <= k <= vals.len(),
    ensures
        total_power(vals.take(k)) <= total_power(vals),
    decreases vals.len(),
{
    if k < vals.len() {
        assert(vals.drop_last().take(k) == vals.take(k));
        lemma_total_power_prefix(vals.drop_last(), k);
    } else {
        assert(vals.take(k) == vals);
    }
}

} // verus!
