use consensus_timeout::certificate::{TimeoutCertificate, TimeoutSignature};
use consensus_timeout::hashing::{hash_tagged, MessageKind};
use consensus_timeout::timeout::{Block, SignError, SignedTimeout, Timeout};
use consensus_timeout::validator::{ValidatorInfo, ValidatorSet, ValidatorSetError};
use tiny_keccak::Hasher;

fn secret(i: u8) -> Vec<u8> {
    vec![i + 1; 32]
}

fn public(i: u8) -> Vec<u8> {
    let mut b = [0u8; 32];
    b.copy_from_slice(&secret(i));
    ed25519_dalek::SigningKey::from_bytes(&b).verifying_key().to_bytes().to_vec()
}

fn four_validators() -> ValidatorSet {
    let mut v = Vec::new();
    for i in 0..4u8 {
        v.push(ValidatorInfo { id: i as u64, public_key: public(i), voting_power: 1 });
    }
    ValidatorSet::new(v).unwrap()
}

fn sha3(data: &[u8]) -> Vec<u8> {
    let mut h = tiny_keccak::Sha3::v256();
    h.update(data);
    let mut out = [0u8; 32];
    h.finalize(&mut out);
    out.to_vec()
}

#[test]
fn statement_fields() {
    let t = Timeout::new(5, 10);
    assert_eq!(t.epoch(), 5);
    assert_eq!(t.round(), 10);
    let b = Block::new(7, 9);
    assert_eq!(Timeout::from_block(&b), Timeout::new(7, 9));
    assert_ne!(Timeout::new(5, 10), Timeout::new(5, 11));
}

#[test]
fn statement_bytes_are_little_endian_pair() {
    let t = Timeout::new(1, 0x0102);
    let mut expected = vec![1u8, 0, 0, 0, 0, 0, 0, 0];
    expected.extend_from_slice(&[2, 1, 0, 0, 0, 0, 0, 0]);
    assert_eq!(t.to_bytes(), expected);
    assert_eq!(Timeout::new(u64::MAX, 0).to_bytes()[..8], [0xff; 8]);
}

#[test]
fn statement_hash_is_deterministic() {
    let a = Timeout::new(5, 10);
    let b = Timeout::new(5, 10);
    assert_eq!(a.hash(), b.hash());
    assert_eq!(a.hash().len(), 32);
    assert_ne!(a.hash(), Timeout::new(5, 11).hash());
    assert_ne!(a.hash(), Timeout::new(6, 10).hash());
}

#[test]
fn tagged_hash_is_sha3_of_tag_then_payload() {
    assert_eq!(MessageKind::Timeout.tag(), b"LIBRA::\x03".to_vec());
    let payload = Timeout::new(5, 10).to_bytes();
    let mut pre = b"LIBRA::\x03".to_vec();
    pre.extend_from_slice(&payload);
    assert_eq!(hash_tagged(MessageKind::Timeout, &payload), sha3(&pre));
    assert_eq!(Timeout::new(5, 10).hash(), sha3(&pre));
    assert_ne!(hash_tagged(MessageKind::Block, &vec![]), vec![]);
    assert_eq!(hash_tagged(MessageKind::Block, &vec![]), sha3(b"LIBRA::\x01"));
}

#[test]
fn domain_separation_of_digests() {
    let payload = Timeout::new(5, 10).to_bytes();
    let t = hash_tagged(MessageKind::Timeout, &payload);
    for k in [MessageKind::Block, MessageKind::Vote, MessageKind::QuorumCert] {
        assert_ne!(hash_tagged(k, &payload), t);
    }
}

#[test]
fn sign_and_verify() {
    let st = SignedTimeout::sign(Timeout::new(5, 10), 0, &secret(0)).unwrap();
    assert_eq!(st.signature.len(), 64);
    assert!(st.verify(&public(0)));
    assert!(!st.verify(&public(1)));
    assert!(!st.verify(&vec![1, 2, 3]));
    let other = SignedTimeout::new(Timeout::new(5, 11), 0, st.signature.clone());
    assert!(!other.verify(&public(0)));
}

#[test]
fn signature_over_other_kind_does_not_verify_as_timeout() {
    let payload = Timeout::new(5, 10).to_bytes();
    let vote_digest = hash_tagged(MessageKind::Vote, &payload);
    let mut b = [0u8; 32];
    b.copy_from_slice(&secret(0));
    let sig = ed25519_dalek::Signer::sign(&ed25519_dalek::SigningKey::from_bytes(&b), &vote_digest);
    let st = SignedTimeout::new(Timeout::new(5, 10), 0, sig.to_bytes().to_vec());
    assert!(!st.verify(&public(0)));
}

#[test]
fn sign_without_key_fails() {
    assert_eq!(SignedTimeout::sign(Timeout::new(5, 10), 0, &vec![1; 31]).unwrap_err(), SignError::MissingKey);
    assert!(SignedTimeout::sign(Timeout::new(5, 10), 0, &vec![]).is_err());
}

#[test]
fn validator_set_quorum() {
    let vs = four_validators();
    assert_eq!(vs.len(), 4);
    assert_eq!(vs.total_voting_power(), 4);
    assert_eq!(vs.quorum_threshold(), 3);
    assert_eq!(vs.voting_power(2), 1);
    assert_eq!(vs.voting_power(9), 0);
    assert_eq!(vs.find(3), Some(3));
    assert_eq!(vs.public_key_of(1), Some(&public(1)));
    assert!(vs.public_key_of(9).is_none());
    let big = ValidatorSet::new(vec![ValidatorInfo { id: 1, public_key: vec![], voting_power: 10 }]).unwrap();
    assert_eq!(big.quorum_threshold(), 7);
    let max = ValidatorSet::new(vec![ValidatorInfo { id: 1, public_key: vec![], voting_power: u64::MAX }]).unwrap();
    assert_eq!(max.quorum_threshold(), u64::MAX / 3 * 2 + 1);
}

#[test]
fn validator_set_errors() {
    let dup = vec![
        ValidatorInfo { id: 1, public_key: vec![], voting_power: 1 },
        ValidatorInfo { id: 1, public_key: vec![], voting_power: 1 },
    ];
    assert_eq!(ValidatorSet::new(dup).unwrap_err(), ValidatorSetError::DuplicateValidator);
    let over = vec![
        ValidatorInfo { id: 1, public_key: vec![], voting_power: u64::MAX },
        ValidatorInfo { id: 2, public_key: vec![], voting_power: 1 },
    ];
    assert_eq!(ValidatorSet::new(over).unwrap_err(), ValidatorSetError::PowerOverflow);
}

fn signed(i: u8, epoch: u64, round: u64) -> SignedTimeout {
    SignedTimeout::sign(Timeout::new(epoch, round), i as u64, &secret(i)).unwrap()
}

fn certificate_of(signers: &[u8]) -> TimeoutCertificate {
    let mut sigs = Vec::new();
    for &i in signers {
        sigs.push(TimeoutSignature { signer: i as u64, signature: signed(i, 5, 10).signature });
    }
    TimeoutCertificate::new(5, 10, sigs)
}

#[test]
fn certificate_validity() {
    let vs = four_validators();
    assert!(certificate_of(&[0, 1, 2]).is_valid(&vs));
    assert!(certificate_of(&[3, 1, 2, 0]).is_valid(&vs));
    // below quorum
    assert!(!certificate_of(&[0, 1]).is_valid(&vs));
    // repeated signer
    assert!(!certificate_of(&[0, 1, 1]).is_valid(&vs));
    // a signature over another round
    let mut tc = certificate_of(&[0, 1, 2]);
    tc.signatures[2].signature = signed(2, 5, 11).signature;
    assert!(!tc.is_valid(&vs));
    // an unknown signer
    let mut tc = certificate_of(&[0, 1, 2]);
    tc.signatures[0].signer = 9;
    assert!(!tc.is_valid(&vs));
}

#[test]
fn removing_a_signer_from_minimal_certificate_invalidates_it() {
    let vs = four_validators();
    for k in 0..3 {
        let mut tc = certificate_of(&[0, 1, 2]);
        assert!(tc.is_valid(&vs));
        tc.signatures.remove(k);
        assert!(!tc.is_valid(&vs));
    }
}

#[test]
fn validity_with_given_verdicts() {
    let vs = four_validators();
    let tc = certificate_of(&[0, 1, 2]);
    assert!(tc.is_valid_with(&vs, &vec![true, true, true]));
    assert!(!tc.is_valid_with(&vs, &vec![true, false, true]));
    assert!(!tc.is_valid_with(&vs, &vec![true, true]));
}
