use rand::{rngs::StdRng, Rng, RngCore, SeedableRng};
use tphone::config::OpusParams;
use tphone::crypto::{AeadSuite, CallNonce, Direction, Psk};
use tphone::error::Error;
use tphone::proto::{
    decode_seq_payload, encode_seq_payload, handshake_callee, handshake_caller, negotiate, parse_header, read_frame, read_hello, write_frame, Frame,
    FrameReader, FrameType, Hello, MAX_FRAME_LEN, PROTO_VERSION,
};
use tphone::transport::OnionAddr;

fn sample_hello(onion: &str, suite: AeadSuite) -> Hello {
    Hello {
        onion: OnionAddr(onion.to_string()),
        suite,
        opus: OpusParams {
            sample_rate: 16_000,
            channels: 1,
            bitrate: 24_000,
            frame_ms: 20,
        },
        nonce: CallNonce([7u8; 32]),
    }
}

fn all_sample_frames() -> Vec<Frame> {
    let sealed = b"\x00\x01\x02\xaa\xbb sealed-ciphertext".to_vec();
    vec![
        Frame::Hello(sample_hello(
            "exampleexampleexampleexampleexampleexampleexampleexample23id.onion",
            AeadSuite::ChaCha20Poly1305,
        )),
        Frame::Audio {
            seq: 0xdead_beef_0000_0042,
            sealed: sealed.clone(),
        },
        Frame::Audio {
            seq: 0,
            sealed: Vec::new(),
        },
        Frame::Msg {
            seq: 0x0000_0000_0000_0007,
            sealed: sealed.clone(),
        },
        Frame::Msg {
            seq: 0,
            sealed: Vec::new(),
        },
        Frame::PttStart {
            sealed: sealed.clone(),
        },
        Frame::PttStop {
            sealed: sealed.clone(),
        },
        Frame::Ping {
            sealed: sealed.clone(),
        },
        Frame::Pong {
            sealed: sealed.clone(),
        },
        Frame::Hangup {
            sealed: sealed.clone(),
        },
        Frame::Cipher { sealed },
    ]
}

fn assert_frame_eq(a: &Frame, b: &Frame) {
    assert_eq!(a.frame_type(), b.frame_type());
    match (a, b) {
        (Frame::Hello(x), Frame::Hello(y)) => {
            assert_eq!(x.onion, y.onion);
            assert_eq!(x.suite, y.suite);
            assert_eq!(x.opus, y.opus);
            assert_eq!(x.nonce, y.nonce);
        }
        (Frame::Audio { seq: sx, sealed: cx }, Frame::Audio { seq: sy, sealed: cy })
        | (Frame::Msg { seq: sx, sealed: cx }, Frame::Msg { seq: sy, sealed: cy }) => {
            assert_eq!(sx, sy);
            assert_eq!(cx, cy);
        }
        (Frame::PttStart { sealed: x }, Frame::PttStart { sealed: y })
        | (Frame::PttStop { sealed: x }, Frame::PttStop { sealed: y })
        | (Frame::Ping { sealed: x }, Frame::Ping { sealed: y })
        | (Frame::Pong { sealed: x }, Frame::Pong { sealed: y })
        | (Frame::Hangup { sealed: x }, Frame::Hangup { sealed: y })
        | (Frame::Cipher { sealed: x }, Frame::Cipher { sealed: y }) => {
            assert_eq!(x, y);
        }
        _ => panic!("frame variant mismatch after round-trip"),
    }
}

fn message(e: &Error) -> String {
    match e {
        Error::Proto(m) => m.clone(),
        other => panic!("expected a protocol error, got {other:?}"),
    }
}

#[test]
fn hello_payload_round_trips() {
    let h = sample_hello(
        "abcdefghijklmnopqrstuvwxyz234567abcdefghijklmnopqrstuvwxyzid.onion",
        AeadSuite::Aes256Gcm,
    );
    let decoded = Hello::decode(&h.encode()).expect("decode HELLO");
    assert_eq!(decoded.onion, h.onion);
    assert_eq!(decoded.suite, h.suite);
    assert_eq!(decoded.opus, h.opus);
    assert_eq!(decoded.nonce, h.nonce);
}

#[test]
fn hello_payload_layout_is_exact() {
    let h = sample_hello("ab", AeadSuite::ChaCha20Poly1305);
    let mut expected = vec![0x01, 0x02, 0, 0, 0x3e, 0x80, 0, 0, 0x5d, 0xc0, 1, 20];
    expected.extend_from_slice(&[7u8; 32]);
    expected.extend_from_slice(&[0, 2, b'a', b'b']);
    assert_eq!(h.encode(), expected);
}

#[test]
fn hello_decode_names_each_fault() {
    let good = sample_hello("ab", AeadSuite::Aes256Gcm).encode();
    assert_eq!(message(&Hello::decode(&[]).unwrap_err()), "HELLO payload truncated");
    for n in [1usize, 2, 45, 46, good.len() - 1] {
        assert_eq!(message(&Hello::decode(&good[..n]).unwrap_err()), "HELLO payload truncated");
    }
    let mut bad = good.clone();
    bad[0] = 0x2f;
    assert_eq!(
        message(&Hello::decode(&bad).unwrap_err()),
        "unsupported HELLO payload version 0x2f"
    );
    let mut bad = good.clone();
    bad[1] = 0x0a;
    assert_eq!(
        message(&Hello::decode(&bad).unwrap_err()),
        "unknown AEAD suite id 0x0a in HELLO"
    );
    let mut bad = good.clone();
    bad[46] = 0xff;
    assert_eq!(
        message(&Hello::decode(&bad).unwrap_err()),
        "HELLO onion address is not valid UTF-8"
    );
    let mut longer = good.clone();
    longer.extend_from_slice(b"ignored");
    assert_eq!(Hello::decode(&longer).unwrap().onion.host(), "ab");
}

#[test]
fn hello_cuts_an_overlong_onion() {
    let h = sample_hello(&"x".repeat(70_000), AeadSuite::Aes256Gcm);
    let bytes = h.encode();
    assert_eq!(bytes.len(), 46 + 65_535);
    assert_eq!(Hello::decode(&bytes).unwrap().onion.host().len(), 65_535);
}

#[test]
fn codec_round_trips_every_frame_type() {
    for frame in all_sample_frames() {
        let bytes = write_frame(&frame).expect("write_frame");
        assert_eq!(frame.wire_len(), bytes.len() as u64);
        let (got, n) = read_frame(&bytes).expect("read_frame");
        assert_eq!(n, bytes.len());
        assert_frame_eq(&frame, &got);
    }
}

#[test]
fn frames_are_read_one_after_the_other() {
    let mut stream = Vec::new();
    for frame in all_sample_frames() {
        stream.extend_from_slice(&write_frame(&frame).unwrap());
    }
    let mut at = 0;
    for frame in all_sample_frames() {
        let (got, n) = read_frame(&stream[at..]).unwrap();
        assert_frame_eq(&frame, &got);
        at += n;
    }
    assert_eq!(at, stream.len());
    assert!(matches!(read_frame(&stream[at..]), Err(Error::Closed)));
}

#[test]
fn frame_header_layout_is_exact() {
    let frame = Frame::Audio {
        seq: 0x0102030405060708,
        sealed: vec![0xaa, 0xbb],
    };
    assert_eq!(
        write_frame(&frame).unwrap(),
        vec![0x02, 0x02, 0, 0, 0, 10, 1, 2, 3, 4, 5, 6, 7, 8, 0xaa, 0xbb]
    );
}

#[test]
fn frame_types_have_their_wire_bytes() {
    for b in 0..=255u8 {
        match FrameType::from_u8(b) {
            Some(t) => {
                assert!((1..=9).contains(&b));
                assert_eq!(t.to_u8(), b);
                assert_eq!(t.name(), format!("{t:?}"));
            }
            None => assert!(!(1..=9).contains(&b)),
        }
    }
}

#[test]
fn read_frame_rejects_bad_version() {
    // ver=0xFF, type=Msg, len=0
    let err = read_frame(&[0xFF, 0x03, 0, 0, 0, 0]).unwrap_err();
    assert!(matches!(err, Error::Proto(_)), "got {err:?}");
    assert_eq!(message(&err), "unsupported protocol version 0xff (expected 0x02)");
}

#[test]
fn read_frame_rejects_unknown_type() {
    let err = read_frame(&[PROTO_VERSION, 0x7F, 0, 0, 0, 0]).unwrap_err();
    assert!(matches!(err, Error::Proto(_)), "got {err:?}");
    assert_eq!(message(&err), "unknown frame type 0x7f");
}

#[test]
fn read_frame_rejects_oversized_len() {
    let big = (MAX_FRAME_LEN + 1).to_be_bytes();
    let err = read_frame(&[PROTO_VERSION, 0x03, big[0], big[1], big[2], big[3]]).unwrap_err();
    assert!(matches!(err, Error::Proto(_)), "got {err:?}");
    assert_eq!(message(&err), "frame length 1048577 exceeds MAX_FRAME_LEN 1048576");
}

#[test]
fn read_frame_clean_close_is_closed_error() {
    let err = read_frame(&[]).unwrap_err();
    assert!(matches!(err, Error::Closed), "got {err:?}");
}

#[test]
fn read_frame_tells_cuts_apart() {
    assert_eq!(
        message(&read_frame(&[PROTO_VERSION, 0x03, 0]).unwrap_err()),
        "connection closed mid-frame header"
    );
    assert_eq!(
        message(&read_frame(&[PROTO_VERSION, 0x03, 0, 0, 0, 9, 1]).unwrap_err()),
        "truncated frame payload: unexpected end of file"
    );
    assert_eq!(
        message(&read_frame(&[PROTO_VERSION, 0x03, 0, 0, 0, 1, 1]).unwrap_err()),
        "MSG frame too short to hold an 8-byte sequence"
    );
    assert_eq!(
        message(&read_frame(&[PROTO_VERSION, 0x02, 0, 0, 0, 0]).unwrap_err()),
        "AUDIO frame too short to hold an 8-byte sequence"
    );
}

#[test]
fn write_frame_rejects_an_oversized_payload() {
    let frame = Frame::Ping {
        sealed: vec![0u8; MAX_FRAME_LEN as usize + 1],
    };
    assert_eq!(
        message(&write_frame(&frame).unwrap_err()),
        "frame payload 1048577 exceeds MAX_FRAME_LEN 1048576"
    );
    let frame = Frame::Ping {
        sealed: vec![0u8; MAX_FRAME_LEN as usize],
    };
    assert!(write_frame(&frame).is_ok());
}

#[test]
fn headers_are_validated_alone() {
    assert_eq!(
        parse_header(&[PROTO_VERSION, 0x08, 0, 0x10, 0, 0]).unwrap(),
        (FrameType::Hangup, MAX_FRAME_LEN)
    );
}

#[test]
fn a_stream_may_come_in_pieces() {
    let mut stream = Vec::new();
    for frame in all_sample_frames() {
        stream.extend_from_slice(&write_frame(&frame).unwrap());
    }
    for piece in [1usize, 2, 5, 6, 7, 64, 4096] {
        let mut reader = FrameReader::new();
        let mut got = Vec::new();
        let mut at = 0;
        while at < stream.len() {
            let n = piece.min(reader.wanted()).min(stream.len() - at);
            if let Some(f) = reader.on_bytes(&stream[at..at + n]).unwrap() {
                got.push(f);
            }
            at += n;
        }
        let expected = all_sample_frames();
        assert_eq!(got.len(), expected.len());
        for (a, b) in expected.iter().zip(got.iter()) {
            assert_frame_eq(a, b);
        }
        assert!(matches!(reader.on_end(), Error::Closed));
    }
}

#[test]
fn a_reader_tells_cuts_and_failures_apart() {
    let mut reader = FrameReader::new();
    assert_eq!(reader.wanted(), 6);
    assert!(matches!(reader.on_end(), Error::Closed));
    assert!(matches!(reader.on_failure("reset"), Error::Io(_)));
    assert!(reader.on_bytes(&[PROTO_VERSION, 0x03]).unwrap().is_none());
    assert_eq!(reader.wanted(), 4);
    assert_eq!(message(&reader.on_end()), "connection closed mid-frame header");
    assert!(matches!(reader.on_failure("reset"), Error::Io(_)));
    assert!(reader.on_bytes(&[0, 0, 0, 9]).unwrap().is_none());
    assert_eq!(reader.wanted(), 9);
    assert_eq!(
        message(&reader.on_end()),
        "truncated frame payload: unexpected end of file"
    );
    assert_eq!(message(&reader.on_failure("reset")), "truncated frame payload: reset");
    assert!(reader.on_bytes(&[0; 9]).unwrap().is_some());
    assert_eq!(reader.wanted(), 6);
    // A refused header leaves the reader at a boundary.
    assert_eq!(
        message(&reader.on_bytes(&[PROTO_VERSION, 0x7f, 0, 0, 0, 0]).unwrap_err()),
        "unknown frame type 0x7f"
    );
    assert_eq!(reader.wanted(), 6);
    // So does a refused payload.
    assert!(reader.on_bytes(&[PROTO_VERSION, 0x03, 0, 0, 0, 1]).unwrap().is_none());
    assert_eq!(
        message(&reader.on_bytes(&[1]).unwrap_err()),
        "MSG frame too short to hold an 8-byte sequence"
    );
    // A frame without payload is complete with its header.
    assert!(matches!(
        reader.on_bytes(&[PROTO_VERSION, 0x06, 0, 0, 0, 0]).unwrap(),
        Some(Frame::Ping { .. })
    ));
}

#[test]
fn only_a_hello_opens_a_call() {
    let h = sample_hello("a.onion", AeadSuite::Aes256Gcm);
    assert_eq!(read_hello(Frame::Hello(h)).unwrap().onion.host(), "a.onion");
    let err = read_hello(Frame::PttStop { sealed: vec![] }).unwrap_err();
    assert_eq!(message(&err), "expected HELLO during handshake, got PttStop");
}

#[test]
fn handshake_yields_identical_call_keys() {
    let psk = Psk::from_bytes([0x42u8; 32]);
    let mut caller_hello = sample_hello(
        "calleronion000000000000000000000000000000id.onion",
        AeadSuite::Aes256Gcm,
    );
    caller_hello.nonce = CallNonce([0x11u8; 32]);
    let mut callee_hello = sample_hello(
        "calleeonion000000000000000000000000000000id.onion",
        AeadSuite::Aes256Gcm,
    );
    callee_hello.nonce = CallNonce([0x22u8; 32]);

    // Each HELLO crosses the wire.
    let to_callee = write_frame(&Frame::Hello(caller_hello.clone())).unwrap();
    let to_caller = write_frame(&Frame::Hello(callee_hello.clone())).unwrap();
    let at_callee = read_hello(read_frame(&to_callee).unwrap().0).unwrap();
    let at_caller = read_hello(read_frame(&to_caller).unwrap().0).unwrap();

    let (mut caller_keys, caller_peer) =
        handshake_caller(&psk, &caller_hello, &at_caller).expect("caller handshake");
    let (mut callee_keys, callee_peer) =
        handshake_callee(&psk, &callee_hello, &at_callee).expect("callee handshake");

    // Each side learned the other's identity/params.
    assert_eq!(caller_peer.onion, callee_hello.onion);
    assert_eq!(callee_peer.onion, caller_hello.onion);
    assert_eq!(caller_peer.suite, AeadSuite::Aes256Gcm);
    assert_eq!(callee_peer.suite, AeadSuite::Aes256Gcm);
    assert_eq!(caller_peer.opus, callee_hello.opus);

    let aad = b"frame-type-and-seq";
    let pt = b"identical-call-keys-proof";
    let sealed = caller_keys.seal(Direction::CallerToCallee, 0, aad, pt);
    let opened = callee_keys
        .open(Direction::CallerToCallee, 0, aad, &sealed)
        .expect("callee opens caller-sealed frame: keys match");
    assert_eq!(opened, pt);

    // And the reverse direction.
    let sealed_back = callee_keys.seal(Direction::CalleeToCaller, 0, aad, pt);
    let opened_back = caller_keys
        .open(Direction::CalleeToCaller, 0, aad, &sealed_back)
        .expect("caller opens callee-sealed frame: keys match");
    assert_eq!(opened_back, pt);
}

#[test]
fn read_frame_never_panics_on_random_bytes() {
    let mut rng = StdRng::seed_from_u64(0xF0_0D_C0_DE);
    for _ in 0..4000 {
        let len = rng.gen_range(0..2048usize);
        let mut bytes = vec![0u8; len];
        rng.fill_bytes(&mut bytes);
        // Must resolve to a Result without panicking; either arm is fine.
        let _ = read_frame(&bytes);
    }
}

// Random payloads behind a valid header, so that the payload parsers are reached.
#[test]
fn read_frame_never_panics_behind_a_valid_header() {
    let mut rng = StdRng::seed_from_u64(0xF0_0D_C0_DE);
    for _ in 0..4000 {
        let len = rng.gen_range(6..2048usize);
        let mut bytes = vec![0u8; len];
        rng.fill_bytes(&mut bytes);
        bytes[0] = PROTO_VERSION;
        bytes[1] = 1 + bytes[1] % 9;
        bytes[2] = 0;
        bytes[3] = 0;
        bytes[4] %= 4;
        let _ = read_frame(&bytes);
    }
}

#[test]
fn random_frames_round_trip() {
    let mut rng = StdRng::seed_from_u64(0x5EED_1234);
    for _ in 0..1500 {
        let plen = rng.gen_range(0..512usize);
        let mut sealed = vec![0u8; plen];
        rng.fill_bytes(&mut sealed);
        let seq: u64 = rng.gen();

        let frame = match rng.gen_range(0..8u8) {
            0 => Frame::Audio { seq, sealed },
            1 => Frame::Msg { seq, sealed },
            2 => Frame::PttStart { sealed },
            3 => Frame::PttStop { sealed },
            4 => Frame::Ping { sealed },
            5 => Frame::Pong { sealed },
            6 => Frame::Hangup { sealed },
            _ => Frame::Cipher { sealed },
        };

        let bytes = write_frame(&frame).expect("write_frame");
        let (got, _) = read_frame(&bytes).expect("read_frame");
        assert_frame_eq(&frame, &got);
    }
}

#[test]
fn handshake_suite_mismatch_errors() {
    let psk = Psk::from_bytes([0x42u8; 32]);
    let caller_hello = sample_hello("calleronion.onion", AeadSuite::Aes256Gcm);
    let callee_hello = sample_hello("calleeonion.onion", AeadSuite::ChaCha20Poly1305);

    let caller_res = handshake_caller(&psk, &caller_hello, &callee_hello);
    let callee_res = handshake_callee(&psk, &callee_hello, &caller_hello);

    match &caller_res {
        Err(e) => assert_eq!(
            e.message(),
            "cipher suite mismatch: local Aes256Gcm, peer ChaCha20Poly1305"
        ),
        Ok(_) => panic!("expected CipherMismatch, got Ok"),
    }
    for res in [caller_res, callee_res] {
        match res {
            Err(Error::CipherMismatch { .. }) => {}
            Err(other) => panic!("expected CipherMismatch, got {other:?}"),
            Ok(_) => panic!("expected CipherMismatch, got Ok"),
        }
    }
}

#[test]
fn payloads_carry_their_sequence_in_front() {
    let payload = encode_seq_payload(7, &[1, 2]);
    assert_eq!(payload, vec![0, 0, 0, 0, 0, 0, 0, 7, 1, 2]);
    assert_eq!(decode_seq_payload(&payload, "AUDIO").unwrap(), (7, vec![1, 2]));
    assert_eq!(
        message(&decode_seq_payload(&payload[..7], "AUDIO").unwrap_err()),
        "AUDIO frame too short to hold an 8-byte sequence"
    );
    let frame = Frame::decode_payload(FrameType::Audio, payload.clone()).unwrap();
    assert_eq!(frame.encode_payload(), payload);
}

#[test]
fn negotiation_learns_the_peer() {
    let mine = sample_hello("mine.onion", AeadSuite::Aes256Gcm);
    let mut theirs = sample_hello("theirs.onion", AeadSuite::Aes256Gcm);
    theirs.opus.frame_ms = 40;
    let peer = negotiate(&mine, &theirs).unwrap();
    assert_eq!(peer.onion.host(), "theirs.onion");
    assert_eq!(peer.suite, AeadSuite::Aes256Gcm);
    assert_eq!(peer.opus.frame_ms, 40);
    theirs.suite = AeadSuite::ChaCha20Poly1305;
    assert!(matches!(
        negotiate(&mine, &theirs),
        Err(Error::CipherMismatch {
            local: AeadSuite::Aes256Gcm,
            peer: AeadSuite::ChaCha20Poly1305
        })
    ));
}
