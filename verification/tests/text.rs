use tphone::bytes::{copy_range, get_be, put_be, same_bytes};
use tphone::config::OpusParams;
use tphone::error::Error;
use tphone::selftest::{
    awaits_frame, awaits_samples, check_message, check_round_trip, check_samples, hello, TEST_MESSAGE, TONE_FRAMES,
};
use tphone::text::{
    is_white_space, join2, join3, put_decimal, put_hex_byte, same_text, text_from_utf8, text_from_utf8_lossy, trim,
    trim_end_of,
};

#[test]
fn white_space_is_that_of_unicode() {
    for n in 0..=0x10ffffu32 {
        if let Some(c) = char::from_u32(n) {
            assert_eq!(is_white_space(c), c.is_whitespace(), "U+{n:04X}");
        }
    }
}

#[test]
fn trimming_agrees_with_the_standard_library() {
    for s in ["", " ", "a", " a b ", "\u{2003}x\u{2003}", "\n\n", "x\r\n", "\u{200b}x"] {
        assert_eq!(trim(s), s.trim());
        assert_eq!(trim_end_of(s, '\n', '\r'), s.trim_end_matches(['\n', '\r']));
    }
}

#[test]
fn utf8_is_decoded_or_replaced() {
    assert_eq!(text_from_utf8("h\u{e9}".as_bytes()), Some("h\u{e9}".to_string()));
    assert_eq!(text_from_utf8(&[0x68, 0xff]), None);
    assert_eq!(text_from_utf8_lossy(&[0x68, 0xff, 0x69]), "h\u{fffd}i");
    assert_eq!(text_from_utf8_lossy("\u{1f600} ok".as_bytes()), "\u{1f600} ok");
    assert!(same_text("ab", "ab"));
    assert!(!same_text("ab", "ac"));
    assert!(!same_text("ab", "abc"));
}

#[test]
fn numbers_are_written_out() {
    for n in [0u64, 7, 10, 99, 100, 123_456_789, u64::MAX] {
        let mut s = "n=".to_string();
        put_decimal(&mut s, n);
        assert_eq!(s, format!("n={n}"));
    }
    for b in 0..=255u8 {
        let mut s = String::new();
        put_hex_byte(&mut s, b);
        assert_eq!(s, format!("0x{b:02x}"));
    }
    assert_eq!(join2("a", "b"), "ab");
    assert_eq!(join3("a", "b", "c"), "abc");
}

#[test]
fn big_endian_bytes_round_trip() {
    let mut buf = vec![9u8];
    put_be(&mut buf, 0x0102_0304, 4);
    assert_eq!(buf, vec![9, 1, 2, 3, 4]);
    assert_eq!(get_be(&buf, 1, 4), 0x0102_0304);
    assert_eq!(get_be(&buf, 0, 0), 0);
    let mut buf = Vec::new();
    put_be(&mut buf, u64::MAX - 1, 8);
    assert_eq!(get_be(&buf, 0, 8), u64::MAX - 1);
    assert_eq!(copy_range(&[1, 2, 3, 4], 1, 3), vec![2, 3]);
    assert!(same_bytes(&[1, 2], &[1, 2]));
    assert!(!same_bytes(&[1, 2], &[1, 3]));
    assert!(!same_bytes(&[1, 2], &[1]));
}

#[test]
fn selftest_check_is_exact() {
    assert_eq!(TONE_FRAMES, 25);
    assert!(check_round_trip(TEST_MESSAGE, &[1, 2, 3], &[1, 2, 3]).is_ok());
    assert!(check_message(TEST_MESSAGE).is_ok());
    assert!(check_samples(&[], &[]).is_ok());
    match check_round_trip("sel\"ftest", &[1], &[2]) {
        Err(Error::Audio(m)) => assert_eq!(
            m,
            "selftest: message mismatch: got \"sel\\\"ftest\", expected \"selftest-roundtrip\""
        ),
        other => panic!("expected a mismatch, got {other:?}"),
    }
    assert_eq!(
        check_round_trip(TEST_MESSAGE, &[1, 2], &[1]).unwrap_err().message(),
        "audio error: selftest: sample count mismatch: played 2, expected 1"
    );
    assert_eq!(
        check_round_trip(TEST_MESSAGE, &[1, 2], &[1, 3]).unwrap_err().message(),
        "audio error: selftest: round-trip PCM differs from the codec reference"
    );
    assert_eq!(
        awaits_frame(3, true).unwrap_err().message(),
        "audio error: selftest: timed out playing audio: played 3 of 25 frames"
    );
    assert_eq!(
        awaits_samples(4, 9, true).unwrap_err().message(),
        "audio error: selftest: timed out waiting for playback: have 4 of 9 samples"
    );
    assert!(awaits_frame(24, false).unwrap());
    assert!(!awaits_frame(25, false).unwrap());
    assert!(!awaits_frame(25, true).unwrap());
    assert!(awaits_samples(8, 9, false).unwrap());
    assert!(!awaits_samples(9, 9, true).unwrap());
    let h = hello("a.onion", 0x11, OpusParams::default());
    assert_eq!(h.onion.host(), "a.onion");
    assert_eq!(h.nonce.0, [0x11; 32]);
}
