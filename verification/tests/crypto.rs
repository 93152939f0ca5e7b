use std::collections::HashSet;
use tphone::aead::{aead_decrypt, aead_encrypt, can_seal};
use tphone::crypto::{
    derive_call_keys, make_aad, make_nonce, AeadSuite, CallNonce, Direction, Psk, ReplayWindow, CALL_KEY_INFO,
};
use tphone::error::Error;

const PSK_BYTES: [u8; 32] = [0x42u8; 32];
const CALLER_NONCE: CallNonce = CallNonce([0x11u8; 32]);
const CALLEE_NONCE: CallNonce = CallNonce([0x22u8; 32]);

fn psk() -> Psk {
    Psk::from_bytes(PSK_BYTES)
}

fn both_suites() -> [AeadSuite; 2] {
    [AeadSuite::Aes256Gcm, AeadSuite::ChaCha20Poly1305]
}

fn hex(s: &str) -> Vec<u8> {
    (0..s.len() / 2)
        .map(|i| u8::from_str_radix(&s[2 * i..2 * i + 2], 16).unwrap())
        .collect()
}

#[test]
fn suite_wire_id_roundtrip() {
    for s in both_suites() {
        assert_eq!(AeadSuite::from_wire_id(s.wire_id()), Some(s));
        assert_eq!(s.key_len(), 32);
    }
    assert_eq!(AeadSuite::from_wire_id(0x00), None);
    assert_eq!(AeadSuite::from_wire_id(0xff), None);
    assert_eq!(AeadSuite::Aes256Gcm.wire_id(), 0x01);
    assert_eq!(AeadSuite::ChaCha20Poly1305.wire_id(), 0x02);
}

#[test]
fn nonce_layout_tag_then_be_counter() {
    let n = make_nonce(Direction::CallerToCallee, 0x0102030405060708);
    assert_eq!(&n[..4], &[0, 0, 0, 1]);
    assert_eq!(&n[4..], &0x0102030405060708u64.to_be_bytes());
    assert_eq!(n.len(), 12);

    let n2 = make_nonce(Direction::CalleeToCaller, 0);
    assert_eq!(&n2[..4], &[0, 0, 0, 2]);
    assert_eq!(&n2[4..], &[0u8; 8]);
}

#[test]
fn aad_layout_bound_tag_counter() {
    let a = make_aad(b"\x02xy", Direction::CalleeToCaller, 0x0102030405060708);
    assert_eq!(a, b"\x02xy\x00\x00\x00\x02\x01\x02\x03\x04\x05\x06\x07\x08");
}

#[test]
fn direction_tags_distinct() {
    assert_ne!(Direction::CallerToCallee.tag(), Direction::CalleeToCaller.tag());
}

#[test]
fn seal_open_roundtrip_both_suites() {
    for suite in both_suites() {
        let send = derive_call_keys(&psk(), &CALLER_NONCE, &CALLEE_NONCE, suite);
        // Receiver derives the identical key independently.
        let mut recv = derive_call_keys(&psk(), &CALLER_NONCE, &CALLEE_NONCE, suite);
        assert_eq!(send.suite(), suite);

        let msg = b"hello terminalphone media frame";
        let aad = b"\x02"; // e.g. frame-type byte
        let ct = send.seal(Direction::CallerToCallee, 0, aad, msg);
        assert_ne!(&ct[..], &msg[..], "ciphertext must differ from plaintext");
        assert!(ct.len() > msg.len(), "ciphertext must carry an auth tag");
        assert_eq!(ct.len(), msg.len() + 16);

        let pt = recv
            .open(Direction::CallerToCallee, 0, aad, &ct)
            .expect("authentic frame should open");
        assert_eq!(&pt[..], &msg[..]);
    }
}

#[test]
fn empty_plaintext_roundtrips() {
    let suite = AeadSuite::Aes256Gcm;
    let send = derive_call_keys(&psk(), &CALLER_NONCE, &CALLEE_NONCE, suite);
    let mut recv = derive_call_keys(&psk(), &CALLER_NONCE, &CALLEE_NONCE, suite);
    let ct = send.seal(Direction::CalleeToCaller, 0, b"", b"");
    assert_eq!(recv.open(Direction::CalleeToCaller, 0, b"", &ct).unwrap(), b"");
}

#[test]
fn many_frames_in_order() {
    let suite = AeadSuite::ChaCha20Poly1305;
    let mut send = derive_call_keys(&psk(), &CALLER_NONCE, &CALLEE_NONCE, suite);
    let mut recv = derive_call_keys(&psk(), &CALLER_NONCE, &CALLEE_NONCE, suite);

    for _ in 0..3000u64 {
        let seq = send.next_seq();
        let payload = format!("frame {seq}").into_bytes();
        let ct = send.seal(Direction::CallerToCallee, seq, b"", &payload);
        let pt = recv.open(Direction::CallerToCallee, seq, b"", &ct).unwrap();
        assert_eq!(pt, payload);
    }
}

#[test]
fn tamper_body_rejected() {
    for suite in both_suites() {
        let send = derive_call_keys(&psk(), &CALLER_NONCE, &CALLEE_NONCE, suite);
        let mut recv = derive_call_keys(&psk(), &CALLER_NONCE, &CALLEE_NONCE, suite);
        let mut ct = send.seal(Direction::CallerToCallee, 0, b"", b"top secret payload");
        ct[0] ^= 0x01;
        assert!(matches!(
            recv.open(Direction::CallerToCallee, 0, b"", &ct),
            Err(Error::AuthFailed)
        ));
    }
}

#[test]
fn tamper_tag_rejected() {
    let suite = AeadSuite::Aes256Gcm;
    let send = derive_call_keys(&psk(), &CALLER_NONCE, &CALLEE_NONCE, suite);
    let mut recv = derive_call_keys(&psk(), &CALLER_NONCE, &CALLEE_NONCE, suite);
    let mut ct = send.seal(Direction::CallerToCallee, 0, b"", b"top secret");
    let last = ct.len() - 1;
    ct[last] ^= 0x80;
    assert!(matches!(
        recv.open(Direction::CallerToCallee, 0, b"", &ct),
        Err(Error::AuthFailed)
    ));
}

#[test]
fn wrong_aad_bound_rejected() {
    // Sealed under one frame-type AAD, opened under another: auth fails.
    let suite = AeadSuite::Aes256Gcm;
    let send = derive_call_keys(&psk(), &CALLER_NONCE, &CALLEE_NONCE, suite);
    let mut recv = derive_call_keys(&psk(), &CALLER_NONCE, &CALLEE_NONCE, suite);
    let ct = send.seal(Direction::CallerToCallee, 0, b"\x02", b"payload");
    assert!(recv.open(Direction::CallerToCallee, 0, b"\x03", &ct).is_err());
    // Correct AAD still works (fresh receiver to avoid replay state).
    let mut recv2 = derive_call_keys(&psk(), &CALLER_NONCE, &CALLEE_NONCE, suite);
    assert!(recv2.open(Direction::CallerToCallee, 0, b"\x02", &ct).is_ok());
}

#[test]
fn wrong_seq_in_aad_rejected() {
    // The seq is bound into nonce + AAD: opening at a different seq fails.
    let suite = AeadSuite::ChaCha20Poly1305;
    let send = derive_call_keys(&psk(), &CALLER_NONCE, &CALLEE_NONCE, suite);
    let ct = send.seal(Direction::CallerToCallee, 5, b"", b"payload");

    let mut recv = derive_call_keys(&psk(), &CALLER_NONCE, &CALLEE_NONCE, suite);
    assert!(recv.open(Direction::CallerToCallee, 6, b"", &ct).is_err());
    // Correct seq authenticates.
    let mut recv2 = derive_call_keys(&psk(), &CALLER_NONCE, &CALLEE_NONCE, suite);
    assert!(recv2.open(Direction::CallerToCallee, 5, b"", &ct).is_ok());
}

#[test]
fn wrong_direction_rejected() {
    // A frame sealed for one direction must not authenticate when opened under the other.
    let suite = AeadSuite::Aes256Gcm;
    let send = derive_call_keys(&psk(), &CALLER_NONCE, &CALLEE_NONCE, suite);
    let mut recv = derive_call_keys(&psk(), &CALLER_NONCE, &CALLEE_NONCE, suite);
    let ct = send.seal(Direction::CallerToCallee, 0, b"", b"payload");
    assert!(recv.open(Direction::CalleeToCaller, 0, b"", &ct).is_err());
}

#[test]
fn cross_suite_open_fails() {
    let send = derive_call_keys(&psk(), &CALLER_NONCE, &CALLEE_NONCE, AeadSuite::Aes256Gcm);
    let mut recv = derive_call_keys(&psk(), &CALLER_NONCE, &CALLEE_NONCE, AeadSuite::ChaCha20Poly1305);
    let ct = send.seal(Direction::CallerToCallee, 0, b"", b"payload");
    assert!(recv.open(Direction::CallerToCallee, 0, b"", &ct).is_err());
}

#[test]
fn wrong_psk_open_fails() {
    let send = derive_call_keys(&psk(), &CALLER_NONCE, &CALLEE_NONCE, AeadSuite::Aes256Gcm);
    let other = Psk::from_bytes([0x99u8; 32]);
    let mut recv = derive_call_keys(&other, &CALLER_NONCE, &CALLEE_NONCE, AeadSuite::Aes256Gcm);
    let ct = send.seal(Direction::CallerToCallee, 0, b"", b"payload");
    assert!(recv.open(Direction::CallerToCallee, 0, b"", &ct).is_err());
}

#[test]
fn replay_rejected() {
    let suite = AeadSuite::ChaCha20Poly1305;
    let send = derive_call_keys(&psk(), &CALLER_NONCE, &CALLEE_NONCE, suite);
    let mut recv = derive_call_keys(&psk(), &CALLER_NONCE, &CALLEE_NONCE, suite);

    let ct0 = send.seal(Direction::CallerToCallee, 0, b"", b"frame 0");
    let ct1 = send.seal(Direction::CallerToCallee, 1, b"", b"frame 1");

    assert!(recv.open(Direction::CallerToCallee, 0, b"", &ct0).is_ok());
    assert!(recv.open(Direction::CallerToCallee, 1, b"", &ct1).is_ok());
    // Replays are dropped.
    assert!(matches!(
        recv.open(Direction::CallerToCallee, 0, b"", &ct0),
        Err(Error::AuthFailed)
    ));
    assert!(matches!(
        recv.open(Direction::CallerToCallee, 1, b"", &ct1),
        Err(Error::AuthFailed)
    ));
}

#[test]
fn out_of_order_within_window_accepted() {
    let suite = AeadSuite::Aes256Gcm;
    let send = derive_call_keys(&psk(), &CALLER_NONCE, &CALLEE_NONCE, suite);
    let mut recv = derive_call_keys(&psk(), &CALLER_NONCE, &CALLEE_NONCE, suite);

    let cts: Vec<_> = (0..5u64)
        .map(|s| send.seal(Direction::CallerToCallee, s, b"", format!("f{s}").as_bytes()))
        .collect();

    // Deliver out of order: 4, 1, 3, 0, 2, all fresh.
    for s in [4u64, 1, 3, 0, 2] {
        assert!(
            recv.open(Direction::CallerToCallee, s, b"", &cts[s as usize]).is_ok(),
            "seq {s} should be accepted"
        );
    }
    // Any replay now fails.
    assert!(recv.open(Direction::CallerToCallee, 2, b"", &cts[2]).is_err());
}

#[test]
fn forged_seq_does_not_poison_window() {
    let suite = AeadSuite::Aes256Gcm;
    let send = derive_call_keys(&psk(), &CALLER_NONCE, &CALLEE_NONCE, suite);
    let mut recv = derive_call_keys(&psk(), &CALLER_NONCE, &CALLEE_NONCE, suite);

    let ct0 = send.seal(Direction::CallerToCallee, 0, b"", b"frame 0");
    assert!(recv.open(Direction::CallerToCallee, 0, b"", &ct0).is_ok());

    // Forged frame at seq 10_000: bogus bytes, will fail the tag.
    let forged = vec![0u8; 64];
    assert!(recv.open(Direction::CallerToCallee, 10_000, b"", &forged).is_err());

    // Legitimate next frame still opens (window was NOT advanced to 10_000).
    let ct1 = send.seal(Direction::CallerToCallee, 1, b"", b"frame 1");
    assert!(recv.open(Direction::CallerToCallee, 1, b"", &ct1).is_ok());
}

#[test]
fn replay_window_basic() {
    let mut w = ReplayWindow::new();
    assert!(w.check_and_set(0));
    assert!(!w.check_and_set(0)); // dup
    assert!(w.check_and_set(1));
    assert!(w.check_and_set(5));
    assert!(w.check_and_set(3)); // in-window backfill
    assert!(!w.check_and_set(3)); // dup
    assert!(w.check_and_set(4));
    assert!(!w.check_and_set(5)); // dup highest
}

#[test]
fn replay_window_too_old_rejected() {
    let mut w = ReplayWindow::new();
    assert!(w.check_and_set(1000));
    // Just inside the window (offset 63) is accepted.
    assert!(w.check_and_set(1000 - (ReplayWindow::WIDTH - 1)));
    // Exactly at the edge (offset == WIDTH) is too old.
    assert!(!w.check_and_set(1000 - ReplayWindow::WIDTH));
    // Far below is too old.
    assert!(!w.check_and_set(0));
}

#[test]
fn replay_window_large_jump_clears_bitmap() {
    let mut w = ReplayWindow::new();
    assert!(w.check_and_set(0));
    assert!(w.check_and_set(1));
    // Jump far beyond the window width.
    assert!(w.check_and_set(10_000));
    // Old low sequences are now far outside the window: rejected.
    assert!(!w.check_and_set(0));
    assert!(!w.check_and_set(1));
    // But the new highest is marked seen.
    assert!(!w.check_and_set(10_000));
    // And a neighbor of the new highest is fresh.
    assert!(w.check_and_set(9_999));
}

#[test]
fn replay_window_slides_by_one_below_the_width() {
    let mut w = ReplayWindow::default();
    assert!(w.check_and_set(7));
    assert!(w.check_and_set(7 + 63));
    let mut copy = w.clone();
    assert!(!w.check_and_set(7));
    assert!(w.check_and_set(8));
    assert!(w.check_and_set(8 + 63));
    assert!(!w.check_and_set(7));
    assert!(!w.check_and_set(8));
    assert!(copy.check_and_set(8));
    let mut top = ReplayWindow::new();
    assert!(top.check_and_set(u64::MAX));
    assert!(top.check_and_set(u64::MAX - 1));
    assert!(!top.check_and_set(u64::MAX));
}

#[test]
fn nonce_unique_per_seq_and_direction() {
    let mut seen = HashSet::new();
    for dir in [Direction::CallerToCallee, Direction::CalleeToCaller] {
        for seq in 0..2000u64 {
            let n = make_nonce(dir, seq);
            assert!(seen.insert(n), "nonce reuse at dir={dir:?} seq={seq}");
        }
    }
    // 2 directions * 2000 sequences, all distinct.
    assert_eq!(seen.len(), 4000);
}

#[test]
fn next_seq_is_monotonic() {
    let mut keys = derive_call_keys(&psk(), &CALLER_NONCE, &CALLEE_NONCE, AeadSuite::Aes256Gcm);
    for expected in 0..100u64 {
        assert_eq!(keys.next_seq(), expected);
    }
}

#[test]
fn both_sides_derive_identical_keys() {
    let suite = AeadSuite::ChaCha20Poly1305;
    let mut caller = derive_call_keys(&psk(), &CALLER_NONCE, &CALLEE_NONCE, suite);
    let mut callee = derive_call_keys(&psk(), &CALLER_NONCE, &CALLEE_NONCE, suite);

    // Equal keys seal equally.
    assert_eq!(
        caller.seal(Direction::CallerToCallee, 9, b"x", b"probe"),
        callee.seal(Direction::CallerToCallee, 9, b"x", b"probe")
    );

    let a = caller.seal(Direction::CallerToCallee, 0, b"", b"caller speaks");
    assert_eq!(
        callee.open(Direction::CallerToCallee, 0, b"", &a).unwrap(),
        b"caller speaks"
    );
    let b = callee.seal(Direction::CalleeToCaller, 0, b"", b"callee speaks");
    assert_eq!(
        caller.open(Direction::CalleeToCaller, 0, b"", &b).unwrap(),
        b"callee speaks"
    );
}

#[test]
fn swapped_nonce_order_diverges() {
    let suite = AeadSuite::Aes256Gcm;
    let correct = derive_call_keys(&psk(), &CALLER_NONCE, &CALLEE_NONCE, suite);
    let mut swapped = derive_call_keys(&psk(), &CALLEE_NONCE, &CALLER_NONCE, suite);
    let ct = correct.seal(Direction::CallerToCallee, 0, b"", b"x");
    assert_ne!(ct, swapped.seal(Direction::CallerToCallee, 0, b"", b"x"));
    assert!(swapped.open(Direction::CallerToCallee, 0, b"", &ct).is_err());
}

#[test]
fn different_nonces_yield_different_keys() {
    let suite = AeadSuite::Aes256Gcm;
    let call1 = derive_call_keys(&psk(), &CALLER_NONCE, &CALLEE_NONCE, suite);
    let other_nonce = CallNonce([0x33u8; 32]);
    let call2 = derive_call_keys(&psk(), &CALLER_NONCE, &other_nonce, suite);
    assert_ne!(
        call1.seal(Direction::CallerToCallee, 0, b"", b"x"),
        call2.seal(Direction::CallerToCallee, 0, b"", b"x"),
        "different call nonces: different keys"
    );
}

#[test]
fn psk_generate_is_random() {
    let a = Psk::generate();
    let b = Psk::generate();
    assert_ne!(a.0, b.0);
    assert_ne!(a.0, [0u8; 32]);
}

#[test]
fn call_nonce_random_is_random() {
    let a = CallNonce::random();
    let b = CallNonce::random();
    assert_ne!(a.0, b.0);
}

#[test]
fn call_key_info_is_protocol_string() {
    assert_eq!(CALL_KEY_INFO.as_bytes(), b"terminalphone/v2 call-key");
}

#[test]
fn wiping_clears_the_key() {
    let mut p = psk();
    let q = p.clone();
    p.wipe();
    assert_eq!(p.0, [0u8; 32]);
    assert_eq!(q.0, PSK_BYTES);

    let mut k = derive_call_keys(&psk(), &CALLER_NONCE, &CALLEE_NONCE, AeadSuite::Aes256Gcm);
    let before = k.seal(Direction::CallerToCallee, 0, b"", b"x");
    k.wipe();
    let after = k.seal(Direction::CallerToCallee, 0, b"", b"x");
    assert_ne!(before, after);
    let zero_key = aead_encrypt(
        AeadSuite::Aes256Gcm,
        &[0u8; 32],
        &make_nonce(Direction::CallerToCallee, 0),
        &make_aad(b"", Direction::CallerToCallee, 0),
        b"x",
    );
    assert_eq!(after, zero_key);
}

// Known answers: the McGrew and Viega test case 16 for AES-256-GCM.
#[test]
fn aes_256_gcm_known_answer() {
    let key: [u8; 32] = hex("feffe9928665731c6d6a8f9467308308feffe9928665731c6d6a8f9467308308")
        .try_into()
        .unwrap();
    let nonce: [u8; 12] = hex("cafebabefacedbaddecaf888").try_into().unwrap();
    let aad = hex("feedfacedeadbeeffeedfacedeadbeefabaddad2");
    let msg = hex(
        "d9313225f88406e5a55909c5aff5269a86a7a9531534f7da2e4c303d8a318a721c3c0c95956809532fcf0e2449a6b525b16aedf5aa0de657ba637b39",
    );
    let sealed = aead_encrypt(AeadSuite::Aes256Gcm, &key, &nonce, &aad, &msg);
    let expected = hex(
        "522dc1f099567d07f47f37a32a84427d643a8cdcbfe5c0c97598a2bd2555d1aa8cb08e48590dbb3da7b08b1056828838c5f61e6393ba7a0abcc9f66276fc6ece0f4e1768cddf8853bb2d551b",
    );
    assert_eq!(sealed, expected);
    assert_eq!(
        aead_decrypt(AeadSuite::Aes256Gcm, &key, &nonce, &aad, &sealed),
        Some(msg)
    );
}

// Known answer: RFC 8439, section 2.8.2.
#[test]
fn chacha20_poly1305_known_answer() {
    let key: [u8; 32] = hex("808182838485868788898a8b8c8d8e8f909192939495969798999a9b9c9d9e9f")
        .try_into()
        .unwrap();
    let nonce: [u8; 12] = hex("070000004041424344454647").try_into().unwrap();
    let aad = hex("50515253c0c1c2c3c4c5c6c7");
    let msg = b"Ladies and Gentlemen of the class of '99: If I could offer you only one tip for the future, sunscreen would be it.";
    let sealed = aead_encrypt(AeadSuite::ChaCha20Poly1305, &key, &nonce, &aad, msg);
    assert_eq!(&sealed[..8], &hex("d31a8d34648e60db")[..]);
    assert_eq!(&sealed[msg.len()..], &hex("1ae10b594f09e26a7e902ecbd0600691")[..]);
    assert_eq!(
        aead_decrypt(AeadSuite::ChaCha20Poly1305, &key, &nonce, &aad, &sealed),
        Some(msg.to_vec())
    );
    assert_eq!(aead_decrypt(AeadSuite::ChaCha20Poly1305, &key, &nonce, b"", &sealed), None);
}

// The call key is HKDF-SHA256 over the caller's nonce and then the callee's.
#[test]
fn call_key_is_hkdf_of_both_nonces() {
    let mut salt = [0x11u8; 64];
    salt[32..].copy_from_slice(&[0x22u8; 32]);
    let mut key = [0u8; 32];
    hkdf::Hkdf::<sha2::Sha256>::new(Some(&salt), &PSK_BYTES)
        .expand(b"terminalphone/v2 call-key", &mut key)
        .unwrap();
    let keys = derive_call_keys(&psk(), &CALLER_NONCE, &CALLEE_NONCE, AeadSuite::Aes256Gcm);
    let sealed = keys.seal(Direction::CallerToCallee, 3, b"\x02", b"probe");
    assert_eq!(
        sealed,
        aead_encrypt(
            AeadSuite::Aes256Gcm,
            &key,
            &make_nonce(Direction::CallerToCallee, 3),
            &make_aad(b"\x02", Direction::CallerToCallee, 3),
            b"probe"
        )
    );
}

#[test]
fn each_suite_has_its_own_longest_message() {
    let (aes, chacha) = (AeadSuite::Aes256Gcm, AeadSuite::ChaCha20Poly1305);
    for suite in both_suites() {
        assert!(can_seal(suite, 13, 0));
        assert!(!can_seal(suite, 13, usize::MAX));
    }
    if usize::BITS == 64 {
        let gib_64 = 1u64 << 36;
        assert!(can_seal(aes, 13, gib_64 as usize));
        assert!(!can_seal(aes, 13, (gib_64 + 1) as usize));
        assert!(can_seal(chacha, 13, (gib_64 + 1) as usize));
        assert!(can_seal(chacha, 13, 0x3f_ffff_ff80u64 as usize));
        assert!(!can_seal(chacha, 13, 0x3f_ffff_ff81u64 as usize));
    }
}
