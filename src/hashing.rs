//! Domain-separated digests and the signature primitives they feed.
use tiny_keccak::Hasher;
use ed25519_dalek::Signer;
use ed25519_dalek::Verifier;
use vstd::prelude::*;

verus! {

/// SHA3-256 of a byte string.
pub uninterp spec fn sha3_256_of(data: Seq<u8>) -> Seq<u8>;

/// Whether Ed25519 verification accepts `sig` over `msg` under public key `pk`.
pub uninterp spec fn ed25519_accepts(pk: Seq<u8>, msg: Seq<u8>, sig: Seq<u8>) -> bool;

/// The Ed25519 signature of `msg` under the 32-byte secret key `sk`.
pub uninterp spec fn ed25519_signature_of(sk: Seq<u8>, msg: Seq<u8>) -> Seq<u8>;

/// The kinds of consensus messages that are ever hashed for signing.
/// Each carries its own tag, so a digest of one kind never stands for another.
#[derive(Clone, Copy, Debug, PartialEq, Eq, Structural)]
pub enum MessageKind {
    Block,
    Vote,
    Timeout,
    QuorumCert,
}

/// The byte that names a kind inside its tag.
pub open spec fn kind_code(k: MessageKind) -> u8 {
    match k {
        MessageKind::Block => 1,
        MessageKind::Vote => 2,
        MessageKind::Timeout => 3,
        MessageKind::QuorumCert => 4,
    }
}

/// The tag of a kind: `LIBRA::` followed by the kind's code.
pub open spec fn tag_of(k: MessageKind) -> Seq<u8> {
    seq![76u8, 73u8, 66u8, 82u8, 65u8, 58u8, 58u8, kind_code(k)]
}

/// The bytes hashed for a message of kind `k` whose canonical encoding is `payload`.
pub open spec fn tagged_preimage(k: MessageKind, payload: Seq<u8>) -> Seq<u8> {
    tag_of(k) + payload
}

/// The domain-separated digest of a message of kind `k`.
pub open spec fn tagged_digest(k: MessageKind, payload: Seq<u8>) -> Seq<u8> {
    sha3_256_of(tagged_preimage(k, payload))
}

impl MessageKind {
    pub fn code(&self) -> (r: u8)
        ensures
            r == kind_code(*self),
    {
        match self {
            MessageKind::Block => 1,
            MessageKind::Vote => 2,
            MessageKind::Timeout => 3,
            MessageKind::QuorumCert => 4,
        }
    }

    /// The tag bytes of this kind.
    pub fn tag(&self) -> (r: Vec<u8>)
        ensures
            r@ == tag_of(*self),
    {
        let mut r: Vec<u8> = Vec::new();
        r.push(76u8);
        r.push(73u8);
        r.push(66u8);
        r.push(82u8);
        r.push(65u8);
        r.push(58u8);
        r.push(58u8);
        r.push(self.code());
        assert(r@ =~= tag_of(*self));
        r
    }
}

/// Distinct kinds never hash the same bytes, whatever the payloads: the tags
/// have one length and differ in their last byte.
pub proof fn lemma_domain_separation(k1: MessageKind, k2: MessageKind, payload_a: Seq<u8>, payload_b: Seq<u8>)
    requires
        k1 != k2,
    ensures
        tagged_preimage(k1, payload_a) != tagged_preimage(k2, payload_b),
{
    let a = tagged_preimage(k1, payload_a);
    let b = tagged_preimage(k2, payload_b);
    assert(a[7] == kind_code(k1));
    assert(b[7] == kind_code(k2));
}

/// Relies on tiny_keccak's `Sha3::v256`: the SHA3-256 digest, 32 bytes.
#[verifier::external_body]
fn sha3_256(data: &Vec<u8>) -> (r: Vec<u8>)
    ensures
        r@ == sha3_256_of(data@),
        r@.len() == 32,
{
    let mut h = tiny_keccak::Sha3::v256();
    h.update(data.as_slice());
    let mut out = [0u8; 32];
    h.finalize(&mut out);
    out.to_vec()
}

/// Hashes `payload` under the tag of `kind`: the tag goes in first, then the payload.
pub fn hash_tagged(kind: MessageKind, payload: &Vec<u8>) -> (r: Vec<u8>)
    ensures
        r@ == tagged_digest(kind, payload@),
        r@.len() == 32,
{
    let mut bytes = kind.tag();
    let mut i: usize = 0;
    while i < payload.len()
        invariant
            i <= payload@.len(),
            bytes@ == tag_of(kind) + payload@.take(i as int),
        decreases payload@.len() - i,
    {
        bytes.push(payload[i]);
        assert(payload@.take(i as int + 1) == payload@.take(i as int).push(payload@[i as int]));
        i = i + 1;
    }
    assert(payload@.take(payload@.len() as int) == payload@);
    sha3_256(&bytes)
}

/// Relies on ed25519_dalek's `VerifyingKey::from_bytes`, `Signature::from_slice` and
/// `Verifier::verify`: whether the signature checks; a key or signature of the wrong
/// shape is rejected.
#[verifier::external_body]
pub(crate) fn ed25519_verify(pk: &Vec<u8>, msg: &Vec<u8>, sig: &Vec<u8>) -> (r: bool)
    ensures
        r == ed25519_accepts(pk@, msg@, sig@),
{
    let key_bytes: [u8; 32] = match pk.as_slice().try_into() {
        Ok(b) => b,
        Err(_) => return false,
    };
    match (ed25519_dalek::VerifyingKey::from_bytes(&key_bytes), ed25519_dalek::Signature::from_slice(sig)) {
        (Ok(key), Ok(s)) => key.verify(msg, &s).is_ok(),
        _ => false,
    }
}

/// Relies on ed25519_dalek's `SigningKey::from_bytes` and `Signer::sign`:
/// the deterministic 64-byte Ed25519 signature.
#[verifier::external_body]
pub(crate) fn ed25519_sign(sk: &Vec<u8>, msg: &Vec<u8>) -> (r: Vec<u8>)
    requires
        sk@.len() == 32,
    ensures
        r@ == ed25519_signature_of(sk@, msg@),
        r@.len() == 64,
{
    let mut key_bytes = [0u8; 32];
    key_bytes.copy_from_slice(sk.as_slice());
    ed25519_dalek::SigningKey::from_bytes(&key_bytes).sign(msg).to_bytes().to_vec()
}

} // verus!
