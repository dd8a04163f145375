use zkret_santa::engine::SecretSantaProtocol;
use zkret_santa::hexadecimal::{from_hex, to_hex};
use zkret_santa::storage::{confirmation_step, PollStep, StoreOutcome, MAX_ATTEMPTS};
use zkret_santa::{
    decode, decrypt, encode, encrypt, ChoiceTransaction, DHKeyExchange, EnterTransaction, Error,
    KeyPair, Phase, ProofType, RecordType, Registry, RegistryEvent, RevealTransaction, Transaction,
    ZKProof,
};

#[test]
fn test_keypair() {
    let kp = KeyPair::generate();
    let msg = b"hello";
    let sig = kp.sign(msg);
    assert!(kp.verify(msg, &sig));
}

#[test]
fn signature_does_not_verify_another_message() {
    let kp = KeyPair::generate();
    let sig = kp.sign(b"hello");
    assert_eq!(sig.len(), 64);
    assert!(!kp.verify(b"hellO", &sig));
    assert!(!kp.verify(b"hello", &sig[..63]));
}

#[test]
fn encrypt_cycles_the_key() {
    assert_eq!(encrypt(&[1, 2, 3, 4, 5], &[0xff, 0x0f]), vec![0xfe, 0x0d, 0xfc, 0x0b, 0xfa]);
    assert_eq!(encrypt(&[1, 2, 3], &[]), Vec::<u8>::new());
    assert_eq!(encrypt(&[], &[7]), Vec::<u8>::new());
}

#[test]
fn decrypt_undoes_encrypt() {
    let m = b"meet at noon".to_vec();
    let k = vec![3u8, 141, 59, 26];
    let c = encrypt(&m, &k);
    assert_ne!(c, m);
    assert_eq!(decrypt(&c, &k), m);
}

#[test]
fn hex_round_trip() {
    assert_eq!(to_hex(&[0xab, 0x01, 0x00]), b"ab0100".to_vec());
    assert_eq!(from_hex(b"AB01ff"), Ok(vec![0xab, 0x01, 0xff]));
    assert_eq!(from_hex(b"abc"), Err(Error::SerializationError));
    assert_eq!(from_hex(b"zz"), Err(Error::SerializationError));
}

#[test]
fn keypair_hex_strings_round_trip() {
    let kp = KeyPair::generate();
    let (p, s) = kp.to_hex_strings();
    assert_eq!(p.len(), 64);
    let back = KeyPair::from_hex_strings(&p, &s).unwrap();
    assert_eq!(back.public_key(), kp.public_key());
    assert_eq!(back.secret_key_bytes(), kp.secret_key_bytes());
    assert!(matches!(KeyPair::from_hex_strings(b"xy", &s), Err(Error::SerializationError)));
    let other = KeyPair::generate();
    assert!(matches!(
        KeyPair::from_bytes(other.public_key(), &kp.secret_key_bytes()),
        Err(Error::CryptoError)
    ));
    assert!(matches!(KeyPair::from_bytes(kp.public_key(), &[1, 2, 3]), Err(Error::CryptoError)));
}

#[test]
fn shared_secret_is_symmetric() {
    let a = DHKeyExchange::generate();
    let b = DHKeyExchange::generate();
    let s_ab = a.compute_shared_secret(b.public_key()).unwrap();
    let s_ba = b.compute_shared_secret(a.public_key()).unwrap();
    assert_eq!(s_ab, s_ba);
    assert_eq!(s_ab.len(), 32);
    let m = b"any plaintext at all".to_vec();
    assert_eq!(decrypt(&encrypt(&m, &s_ab), &s_ba), m);
    assert!(matches!(a.compute_shared_secret(&[1, 2]), Err(Error::CryptoError)));
    assert!(matches!(a.compute_shared_secret(&[0u8; 32]), Err(Error::CryptoError)));
}

#[test]
fn key_exchange_from_secret_bytes() {
    let a = DHKeyExchange::generate();
    let b = DHKeyExchange::from_secret_bytes(&a.secret_key()).unwrap();
    assert_eq!(a.public_key(), b.public_key());
    assert!(matches!(DHKeyExchange::from_secret_bytes(&[0u8; 31]), Err(Error::CryptoError)));
}

fn sample_proof() -> ZKProof {
    ZKProof::choice_phase(&[1, 2], vec![9, 8, 7])
}

#[test]
fn proof_envelopes_carry_hex_inputs() {
    let p = ZKProof::enter_phase(&[0xab, 0xcd], vec![1]);
    assert_eq!(p.public_inputs, vec![b"abcd".to_vec()]);
    assert_eq!(p.proof_type, ProofType::EnterPhase);
    let q = sample_proof();
    assert_eq!(q.public_inputs, vec![b"0102".to_vec()]);
    assert!(q.is_bound_to(ProofType::ChoicePhase, &vec![vec![1, 2]]));
    assert!(!q.is_bound_to(ProofType::EnterPhase, &vec![vec![1, 2]]));
    assert!(!q.is_bound_to(ProofType::ChoicePhase, &vec![vec![1, 2], vec![3]]));
}

#[test]
fn enter_encoding_layout() {
    let t = Transaction::Enter(EnterTransaction {
        public_key: vec![0xaa],
        zk_proof: ZKProof { proof_data: vec![], public_inputs: vec![], proof_type: ProofType::ChoicePhase },
        timestamp: 0x0102,
    });
    let b = encode(&t);
    let expected: Vec<u8> = vec![
        1, 0, 0, 0, 0, 0, 0, 0, 0xaa, // public key
        0, 0, 0, 0, 0, 0, 0, 0, // proof data
        0, 0, 0, 0, 0, 0, 0, 0, // public inputs
        1, 0, 0, 0, // proof type
        0x02, 0x01, 0, 0, 0, 0, 0, 0, // timestamp
    ];
    assert_eq!(b, expected);
}

#[test]
fn codec_round_trip_all_variants() {
    let txs = vec![
        Transaction::Enter(EnterTransaction {
            public_key: vec![1; 32],
            zk_proof: ZKProof::enter_phase(&[1; 32], vec![5, 6]),
            timestamp: 1_700_000_000,
        }),
        Transaction::Choice(ChoiceTransaction {
            chosen_public_key: vec![2; 32],
            chooser_dh_public_key: vec![3; 32],
            zk_proof: sample_proof(),
            timestamp: u64::MAX,
        }),
        Transaction::Reveal(RevealTransaction {
            public_key: vec![4; 32],
            encrypted_identity: b"secret".to_vec(),
            dh_public_key: vec![5; 32],
            signature: vec![6; 64],
            timestamp: 0,
        }),
    ];
    for t in txs {
        let b = encode(&t);
        assert_eq!(decode(t.record_type(), &b), Ok(t.clone()));
    }
}

#[test]
fn codec_refuses_bad_bytes() {
    let t = Transaction::Choice(ChoiceTransaction {
        chosen_public_key: vec![2; 4],
        chooser_dh_public_key: vec![3; 4],
        zk_proof: sample_proof(),
        timestamp: 7,
    });
    let b = encode(&t);
    for cut in 0..b.len() {
        assert_eq!(decode(RecordType::ChoiceTransaction, &b[..cut]), Err(Error::SerializationError));
    }
    let mut longer = b.clone();
    longer.push(0);
    assert_eq!(decode(RecordType::ChoiceTransaction, &longer), Err(Error::SerializationError));
    assert_eq!(decode(RecordType::EnterTransaction, &[0xff; 3]), Err(Error::SerializationError));
    let mut bad_tag = encode(&Transaction::Enter(EnterTransaction {
        public_key: vec![],
        zk_proof: ZKProof { proof_data: vec![], public_inputs: vec![], proof_type: ProofType::RevealPhase },
        timestamp: 0,
    }));
    bad_tag[24] = 3;
    assert_eq!(decode(RecordType::EnterTransaction, &bad_tag), Err(Error::SerializationError));
}

#[test]
fn phase_admission() {
    assert!(Phase::Setup.admits(Phase::Enter));
    assert!(!Phase::Setup.admits(Phase::Choice));
    assert!(Phase::Choice.admits(Phase::Enter));
    assert!(Phase::Enter.admits(Phase::Choice));
    assert!(!Phase::Enter.admits(Phase::Reveal));
    assert!(!Phase::Complete.admits(Phase::Enter));
    assert_eq!(Phase::Choice.advanced(Phase::Enter), Phase::Choice);
    assert_eq!(Phase::Enter.advanced(Phase::Reveal), Phase::Reveal);
}

fn enter(p: &mut SecretSantaProtocol, kp: &KeyPair) {
    let rec = p.enter_phase(kp, vec![0xe0], 1).unwrap();
    assert_eq!(rec.record_type(), RecordType::EnterTransaction);
    assert_eq!(p.commit(rec, StoreOutcome::Confirmed), Ok(()));
}

fn choose_target(p: &mut SecretSantaProtocol, a: &KeyPair, b: &[u8], dh: &DHKeyExchange) -> Result<(), Error> {
    let rec = p.choice_phase(a, b, dh, vec![0xc0], 2)?;
    p.commit(rec, StoreOutcome::Confirmed)
}

#[test]
fn enter_twice_is_idempotent() {
    let mut p = SecretSantaProtocol::new();
    let a = KeyPair::generate();
    enter(&mut p, &a);
    enter(&mut p, &a);
    assert_eq!(p.transactions().len(), 2);
    assert!(p.registry().has_entered(a.public_key()));
    assert_eq!(p.get_available_choices(), vec![a.public_key().to_vec()]);
    assert_eq!(p.current_phase(), Phase::Enter);
}

#[test]
fn unknown_target_is_refused() {
    let mut p = SecretSantaProtocol::new();
    let a = KeyPair::generate();
    let stranger = KeyPair::generate();
    enter(&mut p, &a);
    let dh = DHKeyExchange::generate();
    assert!(matches!(
        p.choice_phase(&a, stranger.public_key(), &dh, vec![], 0),
        Err(Error::TargetNotFound)
    ));
    assert!(matches!(
        p.choice_phase(&stranger, a.public_key(), &dh, vec![], 0),
        Err(Error::NotEntered)
    ));
}

#[test]
fn second_chooser_is_refused() {
    let mut p = SecretSantaProtocol::new();
    let (a, b, c) = (KeyPair::generate(), KeyPair::generate(), KeyPair::generate());
    enter(&mut p, &a);
    enter(&mut p, &b);
    enter(&mut p, &c);
    let dh = DHKeyExchange::generate();
    let dh_c = DHKeyExchange::generate();
    assert_eq!(choose_target(&mut p, &a, b.public_key(), &dh), Ok(()));
    assert_eq!(choose_target(&mut p, &c, b.public_key(), &dh_c), Err(Error::AlreadyChosen));
    assert_eq!(p.registry().chosen_by(b.public_key()), Some(dh.public_key().to_vec()));
}

#[test]
fn late_commit_of_a_raced_choice_is_ignored() {
    let mut p = SecretSantaProtocol::new();
    let (a, b, c) = (KeyPair::generate(), KeyPair::generate(), KeyPair::generate());
    enter(&mut p, &a);
    enter(&mut p, &b);
    enter(&mut p, &c);
    let dh = DHKeyExchange::generate();
    let first = p.choice_phase(&a, b.public_key(), &dh, vec![], 3).unwrap();
    let second = p.choice_phase(&c, b.public_key(), &dh, vec![], 3).unwrap();
    assert_eq!(p.commit(first, StoreOutcome::Confirmed), Ok(()));
    assert_eq!(p.commit(second, StoreOutcome::Confirmed), Err(Error::AlreadyChosen));
    assert_eq!(p.registry().chosen_by(b.public_key()), Some(dh.public_key().to_vec()));
    assert_eq!(p.transactions().len(), 5);
}

#[test]
fn reveal_without_chooser_is_refused() {
    let mut p = SecretSantaProtocol::new();
    let (a, b) = (KeyPair::generate(), KeyPair::generate());
    enter(&mut p, &a);
    enter(&mut p, &b);
    let dh_a = DHKeyExchange::generate();
    let dh_b = DHKeyExchange::generate();
    assert!(matches!(
        p.reveal_phase(&b, "me", &dh_b, dh_a.public_key(), 4),
        Err(Error::ProtocolViolation)
    ));
    assert_eq!(choose_target(&mut p, &a, b.public_key(), &dh_a), Ok(()));
    assert!(matches!(
        p.reveal_phase(&a, "me", &dh_a, dh_b.public_key(), 4),
        Err(Error::NotChosen)
    ));
    assert_eq!(p.transactions().len(), 3);
    assert_eq!(p.santa_key_exchange_public_key(a.public_key()), Err(Error::NotFound));
    assert_eq!(p.santee_revealed_info(&dh_b), Err(Error::NotFound));
}

#[test]
fn alice_and_bob_scenario() {
    let mut p = SecretSantaProtocol::new();
    let alice = KeyPair::generate();
    let bob = KeyPair::generate();
    enter(&mut p, &alice);
    enter(&mut p, &bob);
    let alice_dh = DHKeyExchange::generate();
    let bob_dh = DHKeyExchange::generate();
    assert_eq!(choose_target(&mut p, &alice, bob.public_key(), &alice_dh), Ok(()));
    let choices = p.get_available_choices();
    assert!(!choices.contains(&bob.public_key().to_vec()));
    assert!(choices.contains(&alice.public_key().to_vec()));
    assert!(p.has_santa(bob.public_key()));
    assert_eq!(choose_target(&mut p, &bob, alice.public_key(), &bob_dh), Ok(()));
    assert_eq!(p.santee_revealed_info(&alice_dh), Ok(None));

    let santa_dh = p.santa_key_exchange_public_key(bob.public_key()).unwrap();
    assert_eq!(santa_dh, alice_dh.public_key().to_vec());
    let rec = p.reveal_phase(&bob, "meet at noon", &bob_dh, &santa_dh, 5).unwrap();
    assert_eq!(rec.record_type(), RecordType::RevealTransaction);
    match rec.transaction() {
        Transaction::Reveal(r) => {
            let mut msg = b"reveal:".to_vec();
            msg.extend_from_slice(&to_hex(bob.public_key()));
            assert!(bob.verify(&msg, &r.signature));
            assert_ne!(r.encrypted_identity, b"meet at noon".to_vec());
        }
        _ => panic!("not a reveal"),
    }
    assert_eq!(decode(RecordType::RevealTransaction, rec.bytes()), Ok(rec.transaction().clone()));
    assert_eq!(p.commit(rec, StoreOutcome::Confirmed), Ok(()));
    assert_eq!(p.current_phase(), Phase::Reveal);
    assert_eq!(p.santee_revealed_info(&alice_dh), Ok(Some("meet at noon".to_string())));
    let wrong = DHKeyExchange::generate();
    assert_eq!(p.santee_revealed_info(&wrong), Err(Error::NotFound));
}

#[test]
fn unconfirmed_store_times_out_and_changes_nothing() {
    let mut attempt: u32 = 0;
    let end = loop {
        match confirmation_step(attempt, false) {
            PollStep::Wait => attempt += 1,
            other => break other,
        }
    };
    assert_eq!(end, PollStep::TimedOut);
    assert_eq!(attempt + 1, MAX_ATTEMPTS);
    assert_eq!(confirmation_step(3, true), PollStep::Confirmed);

    let mut p = SecretSantaProtocol::new();
    let a = KeyPair::generate();
    let rec = p.enter_phase(&a, vec![], 1).unwrap();
    assert_eq!(p.commit(rec, StoreOutcome::TimedOut), Err(Error::StorageTimeout));
    assert!(!p.registry().has_entered(a.public_key()));
    assert_eq!(p.transactions().len(), 0);
    assert_eq!(p.current_phase(), Phase::Setup);
    let rec = p.enter_phase(&a, vec![], 1).unwrap();
    assert_eq!(p.commit(rec, StoreOutcome::Failed), Err(Error::StorageError));
    assert!(p.get_available_choices().is_empty());
}

#[test]
fn error_labels() {
    assert_eq!(Error::AlreadyChosen.label(), "AlreadyChosen");
    assert_eq!(Error::StorageTimeout.label(), "StorageTimeout");
    assert_eq!(Error::TargetNotFound.detail(), "the chosen public key never entered");
}

#[test]
fn choice_record_does_not_name_the_chooser() {
    let mut p = SecretSantaProtocol::new();
    let (a, b) = (KeyPair::generate(), KeyPair::generate());
    enter(&mut p, &a);
    enter(&mut p, &b);
    let dh = DHKeyExchange::generate();
    assert!(matches!(
        p.choice_phase(&a, a.public_key(), &dh, vec![], 2),
        Err(Error::ProtocolViolation)
    ));
    let rec = p.choice_phase(&a, b.public_key(), &dh, vec![0xc0], 2).unwrap();
    let a_hex = to_hex(a.public_key());
    let named = |f: &[u8]| f == a.public_key() || f == a_hex.as_slice();
    match rec.transaction() {
        Transaction::Choice(c) => {
            assert!(!named(&c.chosen_public_key));
            assert!(!named(&c.chooser_dh_public_key));
            assert_eq!(c.zk_proof.public_inputs, vec![to_hex(b.public_key())]);
            assert!(c.zk_proof.public_inputs.iter().all(|i| !named(i)));
        }
        _ => panic!("not a choice"),
    }
    let bytes = rec.bytes().to_vec();
    assert!(!bytes.windows(32).any(|w| w == a.public_key()));
    assert!(!bytes.windows(64).any(|w| w == a_hex.as_slice()));
}

#[test]
fn refused_records_do_not_count() {
    let (a, b) = (KeyPair::generate(), KeyPair::generate());
    let (dh_a, dh_forger, dh_b) =
        (DHKeyExchange::generate(), DHKeyExchange::generate(), DHKeyExchange::generate());
    let proof = ZKProof::enter_phase(&[], vec![]);
    let enter_tx = |k: &KeyPair| {
        Transaction::Enter(EnterTransaction {
            public_key: k.public_key().to_vec(),
            zk_proof: ZKProof::enter_phase(k.public_key(), vec![]),
            timestamp: 1,
        })
    };
    let history = vec![
        enter_tx(&a),
        // a choice of b before b entered: refused
        Transaction::Choice(ChoiceTransaction {
            chosen_public_key: b.public_key().to_vec(),
            chooser_dh_public_key: dh_forger.public_key().to_vec(),
            zk_proof: proof.clone(),
            timestamp: 2,
        }),
        enter_tx(&b),
        // a reveal by b before anybody chose b: refused
        Transaction::Reveal(RevealTransaction {
            public_key: b.public_key().to_vec(),
            encrypted_identity: b"forged".to_vec(),
            dh_public_key: dh_forger.public_key().to_vec(),
            signature: vec![0; 64],
            timestamp: 3,
        }),
    ];
    let mut p = SecretSantaProtocol::from_history(&history);
    assert!(!p.has_santa(b.public_key()));
    assert_eq!(p.santa_key_exchange_public_key(b.public_key()), Err(Error::NotFound));
    assert_eq!(choose_target(&mut p, &a, b.public_key(), &dh_a), Ok(()));
    assert_eq!(p.santa_key_exchange_public_key(b.public_key()), Ok(dh_a.public_key().to_vec()));
    assert_eq!(p.santee_revealed_info(&dh_a), Ok(None));
    let rec = p.reveal_phase(&b, "the real one", &dh_b, dh_a.public_key(), 4).unwrap();
    assert_eq!(p.commit(rec, StoreOutcome::Confirmed), Ok(()));
    assert_eq!(p.santee_revealed_info(&dh_a), Ok(Some("the real one".to_string())));
}

#[test]
fn history_replay_rebuilds_the_engine() {
    let mut p = SecretSantaProtocol::new();
    let (a, b, c) = (KeyPair::generate(), KeyPair::generate(), KeyPair::generate());
    enter(&mut p, &a);
    enter(&mut p, &b);
    enter(&mut p, &b);
    enter(&mut p, &c);
    let dh = DHKeyExchange::generate();
    let first = p.choice_phase(&a, b.public_key(), &dh, vec![], 3).unwrap();
    let second = p.choice_phase(&c, b.public_key(), &dh, vec![], 3).unwrap();
    assert_eq!(p.commit(first, StoreOutcome::Confirmed), Ok(()));
    assert_eq!(p.commit(second, StoreOutcome::Confirmed), Err(Error::AlreadyChosen));

    let stored: Vec<(RecordType, Vec<u8>)> =
        p.transactions().iter().map(|t| (t.record_type(), encode(t))).collect();
    let read_back: Vec<Transaction> =
        stored.iter().map(|(k, b)| decode(*k, b).unwrap()).collect();
    assert_eq!(&read_back, p.transactions());

    let q = SecretSantaProtocol::from_history(&read_back);
    assert_eq!(q.current_phase(), p.current_phase());
    assert_eq!(q.get_available_choices(), p.get_available_choices());
    assert_eq!(q.registry().chosen_by(b.public_key()), Some(dh.public_key().to_vec()));
    assert!(!q.registry().has_santa(c.public_key()));
    let again = SecretSantaProtocol::from_history(&read_back);
    assert_eq!(again.get_available_choices(), q.get_available_choices());
}

#[test]
fn registry_replay_keeps_first_choice() {
    let (a, b, c) = (vec![1u8], vec![2u8], vec![3u8]);
    let events = vec![
        RegistryEvent::Entered { public_key: a.clone() },
        RegistryEvent::Entered { public_key: b.clone() },
        RegistryEvent::Entered { public_key: c.clone() },
        RegistryEvent::Entered { public_key: a.clone() },
        RegistryEvent::Chose { mark: vec![0xa0], chosen: b.clone() },
        RegistryEvent::Chose { mark: vec![0xc0], chosen: b.clone() },
        RegistryEvent::Revealed { public_key: c.clone() },
        RegistryEvent::Revealed { public_key: b.clone() },
    ];
    let r = Registry::replay(&events);
    assert_eq!(r.chosen_by(&b), Some(vec![0xa0]));
    assert_eq!(r.available_choices(), vec![a.clone(), c.clone()]);
    assert!(r.get(&b).unwrap().has_revealed);
    assert!(!r.get(&c).unwrap().has_revealed);
    assert_eq!(r.santee_of(&[0xa0]), Some(b.clone()));
    assert_eq!(r.santee_of(&[0xc0]), None);
    assert!(r.get(&[9]).is_none());
}
