//! The timeout statement, its canonical encoding, and signed timeouts.
use vstd::prelude::*;
use crate::hashing::{ed25519_accepts, ed25519_sign, ed25519_signature_of, ed25519_verify, hash_tagged, tagged_digest, MessageKind};

verus! {

/// The eight little-endian bytes of a `u64`.
pub open spec fn u64_le(x: u64) -> Seq<u8> {
    seq![
        (x & 0xff) as u8,
        ((x >> 8u64) & 0xff) as u8,
        ((x >> 16u64) & 0xff) as u8,
        ((x >> 24u64) & 0xff) as u8,
        ((x >> 32u64) & 0xff) as u8,
        ((x >> 40u64) & 0xff) as u8,
        ((x >> 48u64) & 0xff) as u8,
        ((x >> 56u64) & 0xff) as u8,
    ]
}

/// Canonical encoding of a statement: epoch then round, each as eight little-endian bytes.
pub open spec fn statement_bytes(epoch: u64, round: u64) -> Seq<u8> {
    u64_le(epoch) + u64_le(round)
}

/// Relies on `libra_canonical_serialization::to_bytes`: a tuple is its fields in order,
/// and a `u64` is its eight little-endian bytes; writing into a `Vec` does not fail.
#[verifier::external_body]
fn lcs_pair(epoch: u64, round: u64) -> (r: Vec<u8>)
    ensures
        r@ == statement_bytes(epoch, round),
{
    libra_canonical_serialization::to_bytes(&(epoch, round)).expect("a pair of integers always serializes")
}

/// A block as far as timeouts care: the epoch and round it was proposed in.
#[derive(Clone, Copy, Debug, PartialEq, Eq, Structural)]
pub struct Block {
    pub epoch: u64,
    pub round: u64,
}

impl Block {
    pub fn new(epoch: u64, round: u64) -> (r: Block)
        ensures
            r.epoch == epoch,
            r.round == round,
    {
        Block { epoch, round }
    }

    pub fn epoch(&self) -> (r: u64)
        ensures
            r == self.epoch,
    {
        self.epoch
    }

    pub fn round(&self) -> (r: u64)
        ensures
            r == self.round,
    {
        self.round
    }
}

/// "I am abandoning round `round` of epoch `epoch`."
#[derive(Clone, Copy, Debug, PartialEq, Eq, Structural)]
pub struct Timeout {
    /// The epoch names the set of validators active for this round.
    pub epoch: u64,
    /// Rounds increase within an epoch.
    pub round: u64,
}

/// The digest that a validator signs for a timeout statement.
pub open spec fn timeout_digest(t: Timeout) -> Seq<u8> {
    tagged_digest(MessageKind::Timeout, statement_bytes(t.epoch, t.round))
}

impl Timeout {
    pub fn new(epoch: u64, round: u64) -> (r: Timeout)
        ensures
            r.epoch == epoch,
            r.round == round,
    {
        Timeout { epoch, round }
    }

    /// The timeout for the round of `block`.
    pub fn from_block(block: &Block) -> (r: Timeout)
        ensures
            r.epoch == block.epoch,
            r.round == block.round,
    {
        Timeout { epoch: block.epoch(), round: block.round() }
    }

    pub fn epoch(&self) -> (r: u64)
        ensures
            r == self.epoch,
    {
        self.epoch
    }

    pub fn round(&self) -> (r: u64)
        ensures
            r == self.round,
    {
        self.round
    }

    /// The canonical serialized form.
    pub fn to_bytes(&self) -> (r: Vec<u8>)
        ensures
            r@ == statement_bytes(self.epoch, self.round),
            r@.len() == 16,
    {
        lcs_pair(self.epoch, self.round)
    }

    /// The domain-separated digest of the statement, under the timeout tag.
    pub fn hash(&self) -> (r: Vec<u8>)
        ensures
            r@ == timeout_digest(*self),
            r@.len() == 32,
    {
        let bytes = self.to_bytes();
        hash_tagged(MessageKind::Timeout, &bytes)
    }
}

/// Two constructions from the same epoch and round are the same statement and
/// hash to the same digest.
pub proof fn lemma_statement_determinism(epoch: u64, round: u64, a: Timeout, b: Timeout)
    requires
        a.epoch == epoch && a.round == round,
        b.epoch == epoch && b.round == round,
    ensures
        a == b,
        statement_bytes(a.epoch, a.round) == statement_bytes(b.epoch, b.round),
        timeout_digest(a) == timeout_digest(b),
{
}

/// Reading a `u64` back from its eight bytes.
proof fn lemma_u64_le_injective(x: u64, y: u64)
    requires
        u64_le(x) == u64_le(y),
    ensures
        x == y,
{
    let a = u64_le(x);
    let b = u64_le(y);
    assert(a[0] == b[0] && a[1] == b[1] && a[2] == b[2] && a[3] == b[3]);
    assert(a[4] == b[4] && a[5] == b[5] && a[6] == b[6] && a[7] == b[7]);
    assert(x & 0xff < 256 && (x >> 8u64) & 0xff < 256 && (x >> 16u64) & 0xff < 256 && (x >> 24u64) & 0xff < 256) by (bit_vector);
    assert((x >> 32u64) & 0xff < 256 && (x >> 40u64) & 0xff < 256 && (x >> 48u64) & 0xff < 256 && (x >> 56u64) & 0xff < 256) by (bit_vector);
    assert(y & 0xff < 256 && (y >> 8u64) & 0xff < 256 && (y >> 16u64) & 0xff < 256 && (y >> 24u64) & 0xff < 256) by (bit_vector);
    assert((y >> 32u64) & 0xff < 256 && (y >> 40u64) & 0xff < 256 && (y >> 48u64) & 0xff < 256 && (y >> 56u64) & 0xff < 256) by (bit_vector);
    assert(x == y) by (bit_vector)
        requires
            x & 0xff == y & 0xff,
            (x >> 8u64) & 0xff == (y >> 8u64) & 0xff,
            (x >> 16u64) & 0xff == (y >> 16u64) & 0xff,
            (x >> 24u64) & 0xff == (y >> 24u64) & 0xff,
            (x >> 32u64) & 0xff == (y >> 32u64) & 0xff,
            (x >> 40u64) & 0xff == (y >> 40u64) & 0xff,
            (x >> 48u64) & 0xff == (y >> 48u64) & 0xff,
            (x >> 56u64) & 0xff == (y >> 56u64) & 0xff,
    ;
}

/// The encoding is canonical: distinct statements never share their bytes, so for
/// a fixed epoch each round has exactly one statement.
pub proof fn lemma_statement_bytes_injective(a: Timeout, b: Timeout)
    requires
        statement_bytes(a.epoch, a.round) == statement_bytes(b.epoch, b.round),
    ensures
        a == b,
{
    let sa = statement_bytes(a.epoch, a.round);
    let sb = statement_bytes(b.epoch, b.round);
    assert(sa.subrange(0, 8) == u64_le(a.epoch));
    assert(sb.subrange(0, 8) == u64_le(b.epoch));
    assert(sa.subrange(8, 16) == u64_le(a.round));
    assert(sb.subrange(8, 16) == u64_le(b.round));
    lemma_u64_le_injective(a.epoch, b.epoch);
    lemma_u64_le_injective(a.round, b.round);
}

/// Why a statement could not be signed.
#[derive(Clone, Copy, Debug, PartialEq, Eq, Structural)]
pub enum SignError {
    /// The secret key material is not a 32-byte Ed25519 key.
    MissingKey,
}

/// A timeout statement with the identity of its issuer and the issuer's signature
/// over the statement's digest.
#[derive(Clone, Debug)]
pub struct SignedTimeout {
    pub statement: Timeout,
    pub signer: u64,
    pub signature: Vec<u8>,
}

impl SignedTimeout {
    pub fn new(statement: Timeout, signer: u64, signature: Vec<u8>) -> (r: SignedTimeout)
        ensures
            r.statement == statement,
            r.signer == signer,
            r.signature@ == signature@,
    {
        SignedTimeout { statement, signer, signature }
    }

    /// Signs `statement` as `signer` with the 32-byte Ed25519 secret key `secret_key`.
    pub fn sign(statement: Timeout, signer: u64, secret_key: &Vec<u8>) -> (r: Result<SignedTimeout, SignError>)
        ensures
            secret_key@.len() != 32 <==> r is Err,
            r matches Ok(s) ==> s.statement == statement && s.signer == signer
                && s.signature@ == ed25519_signature_of(secret_key@, timeout_digest(statement)),
    {
        if secret_key.len() != 32 {
            return Err(SignError::MissingKey);
        }
        let digest = statement.hash();
        let signature = ed25519_sign(secret_key, &digest);
        Ok(SignedTimeout { statement, signer, signature })
    }

    /// Whether the signature checks against `public_key` over the timeout digest of
    /// the statement. A failure is a negative answer, never an error.
    pub fn verify(&self, public_key: &Vec<u8>) -> (r: bool)
        ensures
            r == ed25519_accepts(public_key@, timeout_digest(self.statement), self.signature@),
    {
        let digest = self.statement.hash();
        ed25519_verify(public_key, &digest, &self.signature)
    }
}

} // verus!
