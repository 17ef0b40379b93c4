use consensus_timeout::aggregator::{Rejection, TimeoutAggregator};
use consensus_timeout::controller::RoundController;
use consensus_timeout::pacemaker::{round_duration_ms, CertificateKind, Pacemaker, RoundAction, RoundEvent};
use consensus_timeout::timeout::{SignedTimeout, Timeout};
use consensus_timeout::validator::{ValidatorInfo, ValidatorSet};

fn secret(i: u8) -> Vec<u8> {
    vec![i + 1; 32]
}

fn public(i: u8) -> Vec<u8> {
    let mut b = [0u8; 32];
    b.copy_from_slice(&secret(i));
    ed25519_dalek::SigningKey::from_bytes(&b).verifying_key().to_bytes().to_vec()
}

fn four_validators() -> ValidatorSet {
    let mut v = Vec::new();
    for i in 0..4u8 {
        v.push(ValidatorInfo { id: i as u64, public_key: public(i), voting_power: 1 });
    }
    ValidatorSet::new(v).unwrap()
}

fn signed(i: u8, epoch: u64, round: u64) -> SignedTimeout {
    SignedTimeout::sign(Timeout::new(epoch, round), i as u64, &secret(i)).unwrap()
}

#[test]
fn quorum_of_three_forms_one_certificate_in_any_order() {
    let orders: [[u8; 3]; 4] = [[0, 1, 2], [2, 1, 0], [1, 2, 0], [3, 0, 2]];
    for order in orders {
        let mut agg = TimeoutAggregator::new(four_validators(), 5, 10);
        let mut certs = Vec::new();
        for &i in order.iter() {
            if let Some(tc) = agg.add(&signed(i, 5, 10)).unwrap() {
                certs.push(tc);
            }
        }
        assert_eq!(certs.len(), 1);
        let tc = &certs[0];
        assert_eq!((tc.epoch, tc.round), (5, 10));
        assert_eq!(tc.signatures.len(), 3);
        let mut expected: Vec<u64> = order.iter().map(|&i| i as u64).collect();
        expected.sort();
        let signers: Vec<u64> = tc.signatures.iter().map(|s| s.signer).collect();
        assert_eq!(signers, expected);
        for s in tc.signatures.iter() {
            assert_eq!(s.signature, signed(s.signer as u8, 5, 10).signature);
        }
        assert!(tc.is_valid(&four_validators()));
        // a duplicate from a counted validator is not added again
        assert_eq!(agg.add(&signed(order[0], 5, 10)).unwrap_err(), Rejection::Duplicate);
        assert_eq!(agg.count(), 3);
    }
}

#[test]
fn fourth_signer_after_quorum_gives_no_second_certificate() {
    let mut agg = TimeoutAggregator::new(four_validators(), 5, 10);
    assert!(agg.add(&signed(0, 5, 10)).unwrap().is_none());
    assert!(agg.add(&signed(1, 5, 10)).unwrap().is_none());
    assert!(agg.add(&signed(2, 5, 10)).unwrap().is_some());
    assert!(agg.add(&signed(3, 5, 10)).unwrap().is_none());
    assert_eq!(agg.voting_power(), 4);
}

#[test]
fn adding_twice_does_not_double_count() {
    let mut agg = TimeoutAggregator::new(four_validators(), 5, 10);
    let st = signed(1, 5, 10);
    assert!(agg.add(&st).unwrap().is_none());
    assert_eq!(agg.voting_power(), 1);
    assert_eq!(agg.add(&st).unwrap_err(), Rejection::Duplicate);
    assert_eq!(agg.voting_power(), 1);
    assert_eq!(agg.count(), 1);
    assert!(agg.add(&signed(2, 5, 10)).unwrap().is_none());
    assert_eq!(agg.add(&st).unwrap_err(), Rejection::Duplicate);
    assert!(agg.add(&signed(3, 5, 10)).unwrap().is_some());
}

#[test]
fn rejections() {
    let mut agg = TimeoutAggregator::new(four_validators(), 5, 10);
    assert_eq!(agg.add(&signed(0, 5, 9)).unwrap_err(), Rejection::WrongRound);
    assert_eq!(agg.add(&signed(0, 4, 10)).unwrap_err(), Rejection::WrongRound);
    let stranger = SignedTimeout::sign(Timeout::new(5, 10), 7, &secret(7)).unwrap();
    assert_eq!(agg.add(&stranger).unwrap_err(), Rejection::UnknownSigner);
    let forged = SignedTimeout::new(Timeout::new(5, 10), 1, signed(0, 5, 10).signature);
    assert_eq!(agg.add(&forged).unwrap_err(), Rejection::BadSignature);
    assert_eq!(agg.count(), 0);
    assert!(agg.add_checked(&forged, true).unwrap().is_none());
    assert_eq!(agg.count(), 1);
}

#[test]
fn reset_discards_contributions() {
    let mut agg = TimeoutAggregator::new(four_validators(), 5, 10);
    agg.add(&signed(0, 5, 10)).unwrap();
    agg.reset(5, 11);
    assert_eq!((agg.epoch(), agg.round(), agg.count(), agg.voting_power()), (5, 11, 0, 0));
    assert_eq!(agg.add(&signed(0, 5, 10)).unwrap_err(), Rejection::WrongRound);
    assert!(agg.add(&signed(0, 5, 11)).is_ok());
}

#[test]
fn round_durations() {
    assert_eq!(round_duration_ms(1000, 0), 1000);
    assert_eq!(round_duration_ms(1000, 1), 2000);
    assert_eq!(round_duration_ms(1000, 3), 8000);
    assert_eq!(round_duration_ms(1000, 6), 64000);
    assert_eq!(round_duration_ms(1000, 40), 64000);
    assert_eq!(round_duration_ms(u64::MAX / 2, 2), u64::MAX);
    let mut prev = 0;
    for c in 0..20 {
        let d = round_duration_ms(1500, c);
        assert!(d >= prev);
        prev = d;
    }
}

#[test]
fn certificate_moves_to_next_round() {
    let mut p = Pacemaker::new(5, 10, 1000, 0);
    assert_eq!(p.deadline_ms(), 1000);
    let a = p.process(RoundEvent::Certificate { kind: CertificateKind::Timeout, epoch: 5, round: 10, now_ms: 500 });
    assert_eq!(a, RoundAction::Advanced { round: 11, deadline_ms: 1500 });
    assert_eq!(p.current_round(), 11);
}

#[test]
fn stale_certificate_is_discarded() {
    let mut p = Pacemaker::new(5, 12, 1000, 0);
    let before = p;
    let a = p.process(RoundEvent::Certificate { kind: CertificateKind::Timeout, epoch: 5, round: 10, now_ms: 50 });
    assert_eq!(a, RoundAction::Discarded);
    assert_eq!(p, before);
    let a = p.process(RoundEvent::Certificate { kind: CertificateKind::Quorum, epoch: 4, round: 20, now_ms: 50 });
    assert_eq!(a, RoundAction::Discarded);
    assert_eq!(p, before);
}

#[test]
fn local_timeout_broadcasts_and_backs_off() {
    let mut p = Pacemaker::new(5, 10, 1000, 0);
    assert_eq!(p.process(RoundEvent::DeadlineExpired { now_ms: 999 }), RoundAction::Discarded);
    let a = p.process(RoundEvent::DeadlineExpired { now_ms: 1000 });
    assert_eq!(a, RoundAction::BroadcastTimeout { statement: Timeout::new(5, 10) });
    assert_eq!(p.current_round(), 10);
    assert_eq!(p.consecutive_timeouts, 1);
    assert_eq!(p.deadline_ms(), 3000);
    p.process(RoundEvent::DeadlineExpired { now_ms: 3000 });
    assert_eq!(p.deadline_ms(), 7000);
    // a timeout certificate keeps the back-off
    let a = p.process(RoundEvent::Certificate { kind: CertificateKind::Timeout, epoch: 5, round: 10, now_ms: 7000 });
    assert_eq!(a, RoundAction::Advanced { round: 11, deadline_ms: 11000 });
    // a completed block resets it
    let a = p.process(RoundEvent::Certificate { kind: CertificateKind::Quorum, epoch: 5, round: 11, now_ms: 8000 });
    assert_eq!(a, RoundAction::Advanced { round: 12, deadline_ms: 9000 });
    assert_eq!(p.consecutive_timeouts, 0);
}

#[test]
fn epoch_change_resets_round() {
    let mut p = Pacemaker::new(5, 10, 1000, 0);
    p.process(RoundEvent::DeadlineExpired { now_ms: 1000 });
    p.start_epoch(6, 1, 2000);
    assert_eq!((p.epoch, p.current_round(), p.consecutive_timeouts, p.deadline_ms()), (6, 1, 0, 3000));
}

#[test]
fn rounds_never_decrease_over_interleavings() {
    let mut p = Pacemaker::new(1, 0, 10, 0);
    let mut seed: u64 = 12345;
    let mut last = p.current_round();
    for step in 0..500u64 {
        seed = seed.wrapping_mul(6364136223846793005).wrapping_add(1442695040888963407);
        let r = (seed >> 33) % 40;
        let e = if seed % 3 == 0 {
            RoundEvent::DeadlineExpired { now_ms: step * 10 }
        } else {
            let kind = if seed % 2 == 0 { CertificateKind::Timeout } else { CertificateKind::Quorum };
            RoundEvent::Certificate { kind, epoch: 1, round: r, now_ms: step * 10 }
        };
        let a = p.process(e);
        let now = p.current_round();
        assert!(now >= last);
        if now != last {
            match e {
                RoundEvent::Certificate { round, .. } => {
                    assert!(round >= last);
                    assert_eq!(now, round + 1);
                    assert!(matches!(a, RoundAction::Advanced { .. }));
                }
                _ => panic!("round moved without a certificate"),
            }
        }
        last = now;
    }
}

#[test]
fn end_to_end_round_advance() {
    let mut c = RoundController::new(four_validators(), 5, 10, 1000, 0);
    let (r, a) = c.on_signed_timeout(&signed(0, 5, 10), 100);
    assert_eq!((r.unwrap().is_none(), a), (true, RoundAction::Discarded));
    let (r, _) = c.on_signed_timeout(&signed(1, 5, 10), 200);
    assert!(r.unwrap().is_none());
    let (r, a) = c.on_signed_timeout(&signed(2, 5, 10), 300);
    let tc = r.unwrap().unwrap();
    assert_eq!(tc.signatures.len(), 3);
    assert_eq!(a, RoundAction::Advanced { round: 11, deadline_ms: 1300 });
    assert_eq!(c.pacemaker().current_round(), 11);
    assert_eq!((c.aggregator().round(), c.aggregator().count()), (11, 0));
    // the late fourth timeout for round 10 is stale now
    let (r, a) = c.on_signed_timeout(&signed(3, 5, 10), 400);
    assert_eq!((r.unwrap_err(), a), (Rejection::WrongRound, RoundAction::Discarded));
    // the certificate arriving again from a peer does not advance twice
    let a = c.on_event(RoundEvent::Certificate { kind: CertificateKind::Timeout, epoch: 5, round: 10, now_ms: 500 });
    assert_eq!(a, RoundAction::Discarded);
    assert_eq!(c.pacemaker().current_round(), 11);
}

#[test]
fn epoch_change_replaces_validators_and_drops_contributions() {
    let mut c = RoundController::new(four_validators(), 5, 10, 1000, 0);
    c.on_signed_timeout(&signed(0, 5, 10), 100).0.unwrap();
    assert_eq!(c.aggregator().count(), 1);
    let one = ValidatorSet::new(vec![ValidatorInfo { id: 3, public_key: public(3), voting_power: 5 }]).unwrap();
    c.change_epoch(one, 6, 1, 2000);
    assert_eq!((c.pacemaker().epoch, c.pacemaker().current_round(), c.pacemaker().deadline_ms()), (6, 1, 3000));
    assert_eq!((c.aggregator().epoch(), c.aggregator().round(), c.aggregator().count()), (6, 1, 0));
    assert_eq!(c.on_signed_timeout(&signed(0, 6, 1), 2100).0.unwrap_err(), Rejection::UnknownSigner);
    let (r, a) = c.on_signed_timeout(&signed(3, 6, 1), 2200);
    assert_eq!(r.unwrap().unwrap().signatures.len(), 1);
    assert_eq!(a, RoundAction::Advanced { round: 2, deadline_ms: 3200 });
}

#[test]
fn duplicates_inserted_into_a_sequence_change_nothing() {
    let base: Vec<SignedTimeout> = vec![signed(2, 5, 10), signed(0, 5, 10), signed(3, 5, 10), signed(1, 5, 10)];
    let with_copies: Vec<(SignedTimeout, bool)> = vec![
        (signed(2, 5, 10), false),
        (signed(2, 5, 10), true),
        (signed(0, 5, 10), false),
        (signed(2, 5, 10), true),
        (signed(0, 5, 10), true),
        (signed(3, 5, 10), false),
        (signed(1, 5, 10), false),
        (signed(3, 5, 10), true),
    ];
    let mut plain = TimeoutAggregator::new(four_validators(), 5, 10);
    let mut powers = Vec::new();
    let mut certs = Vec::new();
    for (k, st) in base.iter().enumerate() {
        if plain.add(st).unwrap().is_some() {
            certs.push(k);
        }
        powers.push(plain.voting_power());
    }
    let mut dup = TimeoutAggregator::new(four_validators(), 5, 10);
    let mut dup_powers = Vec::new();
    let mut dup_certs = Vec::new();
    let mut original = 0;
    for (st, is_copy) in with_copies.iter() {
        let r = dup.add(st);
        if *is_copy {
            assert_eq!(r.unwrap_err(), Rejection::Duplicate);
        } else {
            if r.unwrap().is_some() {
                dup_certs.push(original);
            }
            dup_powers.push(dup.voting_power());
            original += 1;
        }
    }
    assert_eq!(powers, vec![1, 2, 3, 4]);
    assert_eq!(dup_powers, powers);
    assert_eq!(certs, vec![2]);
    assert_eq!(dup_certs, certs);
}
