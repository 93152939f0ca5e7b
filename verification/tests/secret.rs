use tphone::crypto::Psk;
use tphone::error::Error;
use tphone::secret::{
    env_passphrase, is_wrapped, needs_prompt, no_terminal_error, passphrase_from_line, resolve_psk, resolve_psk_with,
    unwrap_psk, wrap_psk, wrap_psk_with, PskAction,
};

fn crypto_message(e: Error) -> String {
    match e {
        Error::Crypto(m) => m,
        other => panic!("expected a crypto error, got {other:?}"),
    }
}

#[test]
fn first_run_no_pass_generates_plaintext() {
    let r = resolve_psk(None, None).ok().unwrap();
    assert_eq!(r.action, PskAction::GeneratedPlaintext);
    // Write-back is the bare 32-byte key.
    let wb = r.write_back.clone().unwrap();
    assert_eq!(wb.len(), 32);
    assert_eq!(wb, r.psk.0.to_vec());
    assert!(!is_wrapped(&wb));
}

#[test]
fn first_run_with_pass_generates_wrapped() {
    let r = resolve_psk(None, Some("pw")).ok().unwrap();
    assert_eq!(r.action, PskAction::GeneratedWrapped);
    let wb = r.write_back.clone().unwrap();
    assert!(is_wrapped(&wb));
    // The wrapped blob unlocks back to the same key.
    assert_eq!(unwrap_psk(&wb, "pw").ok().unwrap().0, r.psk.0);
}

#[test]
fn bare_secret_no_pass_loads_plaintext_unchanged() {
    let bare = [0x7u8; 32];
    let r = resolve_psk(Some(&bare), None).ok().unwrap();
    assert_eq!(r.action, PskAction::LoadedPlaintext);
    assert!(r.write_back.is_none());
    assert_eq!(r.psk.0, bare);
}

#[test]
fn bare_secret_with_pass_migrates_to_wrapped() {
    let bare = [0x9u8; 32];
    let r = resolve_psk(Some(&bare), Some("hunter2")).ok().unwrap();
    assert_eq!(r.action, PskAction::Migrated);
    // Same key, now persisted in wrapped form.
    assert_eq!(r.psk.0, bare);
    let wb = r.write_back.clone().unwrap();
    assert!(is_wrapped(&wb));
    assert_eq!(unwrap_psk(&wb, "hunter2").ok().unwrap().0, bare);
}

#[test]
fn wrapped_secret_unlocks_with_correct_pass() {
    let psk = Psk::generate();
    let blob = wrap_psk(&psk, "right").unwrap();
    let r = resolve_psk(Some(&blob), Some("right")).ok().unwrap();
    assert_eq!(r.action, PskAction::LoadedWrapped);
    assert!(r.write_back.is_none());
    assert_eq!(r.psk.0, psk.0);
}

#[test]
fn wrapped_secret_wrong_pass_errors() {
    let psk = Psk::generate();
    let blob = wrap_psk(&psk, "right").unwrap();
    let r = resolve_psk(Some(&blob), Some("wrong"));
    assert!(r.is_err());
    assert_eq!(
        crypto_message(r.err().unwrap()),
        "wrong passphrase: secret did not unlock"
    );
}

#[test]
fn wrapped_secret_without_pass_errors() {
    let psk = Psk::generate();
    let blob = wrap_psk(&psk, "right").unwrap();
    // The caller is responsible for prompting; with no passphrase, resolve fails.
    let r = resolve_psk(Some(&blob), None);
    assert!(r.is_err());
    assert_eq!(
        crypto_message(r.err().unwrap()),
        "a passphrase is required to unlock the secret"
    );
}

#[test]
fn malformed_secret_length_errors() {
    let junk = [0u8; 17];
    let r = resolve_psk(Some(&junk), None);
    assert!(r.is_err());
    assert_eq!(
        crypto_message(r.err().unwrap()),
        "secret is 17 bytes: not a bare 32-byte PSK nor a recognized wrapped blob"
    );
}

#[test]
fn wrapped_secret_has_the_documented_layout() {
    let psk = Psk::from_bytes([3u8; 32]);
    let salt = [0xa5u8; 16];
    let nonce = [0x5au8; 12];
    let blob = wrap_psk_with(&psk, "pw", &salt, &nonce).unwrap();
    assert_eq!(blob.len(), 81);
    assert_eq!(&blob[..5], b"TPSK\x01");
    assert_eq!(&blob[5..21], &salt);
    assert_eq!(&blob[21..33], &nonce);
    // The ciphertext is AES-256-GCM under the Argon2id hash, with everything before it as AAD.
    let mut kek = [0u8; 32];
    argon2::Argon2::default()
        .hash_password_into(b"pw", &salt, &mut kek)
        .unwrap();
    let ct = tphone::aead::aead_encrypt(
        tphone::crypto::AeadSuite::Aes256Gcm,
        &kek,
        &nonce,
        &blob[..33],
        &[3u8; 32],
    );
    assert_eq!(&blob[33..], &ct[..]);
}

#[test]
fn a_changed_header_does_not_unlock() {
    let psk = Psk::from_bytes([3u8; 32]);
    let mut blob = wrap_psk_with(&psk, "pw", &[1u8; 16], &[2u8; 12]).unwrap();
    blob[40] ^= 1;
    assert!(matches!(unwrap_psk(&blob, "pw"), Err(Error::AuthFailed)));
    blob[40] ^= 1;
    assert_eq!(unwrap_psk(&blob, "pw").ok().unwrap().0, [3u8; 32]);
    blob[4] = 2;
    assert!(!is_wrapped(&blob));
    assert!(matches!(unwrap_psk(&blob, "pw"), Err(Error::Crypto(_))));
}

#[test]
fn what_is_written_loads_back() {
    let first = resolve_psk_with(None, Some("pw"), [9u8; 32], [4u8; 32]).ok().unwrap();
    assert_eq!(first.psk.0, [9u8; 32]);
    let stored = first.write_back.clone().unwrap();
    let again = resolve_psk_with(Some(&stored), Some("pw"), [8u8; 32], [5u8; 32]).ok().unwrap();
    assert_eq!(again.psk.0, first.psk.0);
    assert!(again.write_back.is_none());
    assert_eq!(again.action, PskAction::LoadedWrapped);
    // Two wraps of one secret differ by their random salt and nonce.
    let psk = Psk::from_bytes([1u8; 32]);
    assert_ne!(wrap_psk(&psk, "pw").unwrap(), wrap_psk(&psk, "pw").unwrap());
}

#[test]
fn the_drawn_bytes_are_salt_and_nonce() {
    let drawn: [u8; 32] = std::array::from_fn(|i| i as u8);
    let salt: [u8; 16] = std::array::from_fn(|i| i as u8);
    let nonce: [u8; 12] = std::array::from_fn(|i| 16 + i as u8);
    let fresh = resolve_psk_with(None, Some("pw"), [9u8; 32], drawn).ok().unwrap();
    let want = wrap_psk_with(&Psk::from_bytes([9u8; 32]), "pw", &salt, &nonce).unwrap();
    assert_eq!(fresh.write_back, Some(want));
    let moved = resolve_psk_with(Some(&[7u8; 32]), Some("pw"), [9u8; 32], drawn).ok().unwrap();
    let want = wrap_psk_with(&Psk::from_bytes([7u8; 32]), "pw", &salt, &nonce).unwrap();
    assert_eq!(moved.write_back, Some(want));
}

#[test]
fn the_prompt_is_only_for_locked_secrets() {
    let blob = wrap_psk_with(&Psk::from_bytes([3u8; 32]), "pw", &[1u8; 16], &[2u8; 12]).unwrap();
    assert!(needs_prompt(Some(&blob), None));
    assert!(!needs_prompt(Some(&blob), Some("pw")));
    assert!(!needs_prompt(Some(&[0u8; 32]), None));
    assert!(!needs_prompt(None, None));
    assert_eq!(env_passphrase(Some("x".to_string())), Some("x".to_string()));
    assert_eq!(env_passphrase(Some(String::new())), None);
    assert_eq!(env_passphrase(None), None);
    assert_eq!(passphrase_from_line("  pass word \r\n"), "  pass word ");
    assert_eq!(passphrase_from_line("\n\n"), "");
    assert!(no_terminal_error().message().contains("TERMINALPHONE_PASSPHRASE"));
}

#[test]
fn notices_name_what_happened() {
    assert_eq!(PskAction::LoadedWrapped.notice(), None);
    assert_eq!(
        PskAction::Migrated.notice(),
        Some("migrated plaintext secret to passphrase-wrapped (Argon2id)")
    );
    assert!(PskAction::LoadedPlaintext.notice().is_some());
    assert!(PskAction::GeneratedWrapped.notice().is_some());
    assert!(PskAction::GeneratedPlaintext.notice().is_some());
}
