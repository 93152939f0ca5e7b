use tphone::config::SpeedMode;
use tphone::crypto::AeadSuite;
use tphone::error::Error;
use tphone::transport::{
    accepts_port, check_hosting, needs_confirmation, path_to_string, OnionAddr, ReadBuffer, APP_PORT,
};

#[test]
fn path_to_string_roundtrips_utf8() {
    assert_eq!(path_to_string("/tmp/tphone/arti".as_bytes()).unwrap(), "/tmp/tphone/arti");
}

#[test]
fn client_config_rejects_non_utf8_path() {
    let err = path_to_string(&[0x66, 0x80, 0x6f]).unwrap_err();
    assert!(matches!(err, Error::Transport(_)));
    assert_eq!(
        err.message(),
        "transport error: non-UTF-8 path in TorConfig: f\u{fffd}o"
    );
}

#[test]
fn addresses_are_trimmed() {
    for (input, host) in [
        ("abc.onion", "abc.onion"),
        ("  abc.onion\n", "abc.onion"),
        ("abc.onion///", "abc.onion"),
        ("\u{a0}abc.onion/ ", "abc.onion"),
        ("/", ""),
        ("", ""),
        ("a/b/", "a/b"),
        ("a /", "a "),
    ] {
        let addr = OnionAddr::parse(input).unwrap();
        assert_eq!(addr.host(), host);
        assert_eq!(addr.host(), input.trim().trim_end_matches('/'));
    }
    let addr = OnionAddr::parse(" abc.onion/").unwrap();
    assert_eq!(OnionAddr::parse(addr.host()).unwrap(), addr);
    assert_eq!(addr.clone(), addr);
}

#[test]
fn only_the_application_port_is_served() {
    assert_eq!(APP_PORT, 7777);
    assert!(accepts_port(7777, APP_PORT));
    assert!(!accepts_port(80, APP_PORT));
    assert!(!accepts_port(0, APP_PORT));
    // The port is the configured one.
    assert!(accepts_port(8888, 8888));
    assert!(!accepts_port(7777, 8888));
}

#[test]
fn the_revealing_posture_is_explicit() {
    assert!(check_hosting(SpeedMode::SpeedFirst).is_ok());
    assert!(check_hosting(SpeedMode::FullAnonymity).is_ok());
    assert!(matches!(
        check_hosting(SpeedMode::SingleHopService),
        Err(Error::Transport(_))
    ));
    assert!(needs_confirmation(SpeedMode::SingleHopService));
    assert!(!needs_confirmation(SpeedMode::SpeedFirst));
    assert!(!needs_confirmation(SpeedMode::FullAnonymity));
}

#[test]
fn buffered_bytes_are_read_in_order() {
    let mut b = ReadBuffer::new();
    let mut out = [0u8; 4];
    assert!(b.is_empty());
    assert_eq!(b.read(&mut out), 0);
    b.refill(&[1, 2, 3]);
    b.refill(&[4, 5, 6, 7]);
    assert_eq!(b.read(&mut out), 4);
    assert_eq!(out, [1, 2, 3, 4]);
    assert!(!b.is_empty());
    assert_eq!(b.read(&mut out), 3);
    assert_eq!(out, [5, 6, 7, 4]);
    assert!(b.is_empty());
}

#[test]
fn errors_have_their_messages() {
    let text = || "x".to_string();
    for (e, expected) in [
        (Error::Transport(text()), "transport error: x"),
        (Error::Crypto(text()), "crypto error: x"),
        (Error::Proto(text()), "protocol error: x"),
        (
            Error::AuthFailed,
            "frame authentication failed (forged, modified, or replayed)",
        ),
        (Error::Audio(text()), "audio error: x"),
        (Error::Config(text()), "config error: x"),
        (Error::Qr(text()), "qr error: x"),
        (Error::Io(text()), "io error: x"),
        (Error::Closed, "connection closed by peer"),
        (Error::Other(text()), "x"),
        (
            Error::CipherMismatch {
                local: AeadSuite::ChaCha20Poly1305,
                peer: AeadSuite::Aes256Gcm,
            },
            "cipher suite mismatch: local ChaCha20Poly1305, peer Aes256Gcm",
        ),
    ] {
        assert_eq!(e.message(), expected);
    }
}
