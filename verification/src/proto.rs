//! Wire protocol: length-prefixed frames, the HELLO body, and the handshake.
//!
//! ```text
//! ver: u8 | type: u8 | len: u32 (big-endian) | payload[len]
//! ```
//! HELLO is the only unsealed frame; it bootstraps the key. Everything after it is AEAD-sealed.

use vstd::prelude::*;
use vstd::utf8::*;

use crate::bytes::{
    array32, be_bytes, be_value, copy_range, get_be, law_four_bytes_big_endian, law_two_bytes_big_endian, law_value_of_four,
    law_value_of_two,
    lemma_be_bytes_of_value, lemma_be_len, lemma_be_value_bound, lemma_be_value_of_bytes, lemma_pow256_values, put_be,
    put_slice,
};
use crate::config::OpusParams;
use crate::crypto::{call_key, derive_call_keys, law_suite_wire_ids, AeadSuite, CallKeys, CallNonce, Psk};
use crate::error::{outcome, Error, ErrorView, Result};
use crate::replay::Window;
use crate::text::{decimal, hex_byte, join2, put, put_decimal, put_hex_byte, text_from_utf8};
use crate::transport::OnionAddr;

verus! {

/// Protocol version byte (first byte of every frame).
pub const PROTO_VERSION: u8 = 0x02;

/// Hard cap on a single frame payload: 1 MiB.
pub const MAX_FRAME_LEN: u32 = 0x10_0000;

/// Bytes of the `ver | type | len` header.
pub const HEADER_LEN: usize = 6;

/// Version byte of the HELLO body.
pub const HELLO_PAYLOAD_VERSION: u8 = 0x01;

/// Wire type of each frame.
#[derive(Debug, Clone, Copy, PartialEq, Eq, Structural)]
pub enum FrameType {
    /// 0x01: unsealed handshake.
    Hello,
    /// 0x02: sealed Opus audio.
    Audio,
    /// 0x03: sealed UTF-8 text.
    Msg,
    /// 0x04: sealed PTT-start control.
    PttStart,
    /// 0x05: sealed PTT-stop control.
    PttStop,
    /// 0x06: sealed keepalive ping.
    Ping,
    /// 0x07: sealed keepalive pong.
    Pong,
    /// 0x08: sealed graceful hangup.
    Hangup,
    /// 0x09: sealed mid-call AEAD re-negotiation.
    Cipher,
}

impl FrameType {
    /// The type byte.
    pub open spec fn byte(self) -> u8 {
        match self {
            FrameType::Hello => 0x01,
            FrameType::Audio => 0x02,
            FrameType::Msg => 0x03,
            FrameType::PttStart => 0x04,
            FrameType::PttStop => 0x05,
            FrameType::Ping => 0x06,
            FrameType::Pong => 0x07,
            FrameType::Hangup => 0x08,
            FrameType::Cipher => 0x09,
        }
    }

    /// The type with the given type byte.
    pub open spec fn of_byte(b: u8) -> Option<FrameType> {
        if b == 0x01 {
            Some(FrameType::Hello)
        } else if b == 0x02 {
            Some(FrameType::Audio)
        } else if b == 0x03 {
            Some(FrameType::Msg)
        } else if b == 0x04 {
            Some(FrameType::PttStart)
        } else if b == 0x05 {
            Some(FrameType::PttStop)
        } else if b == 0x06 {
            Some(FrameType::Ping)
        } else if b == 0x07 {
            Some(FrameType::Pong)
        } else if b == 0x08 {
            Some(FrameType::Hangup)
        } else if b == 0x09 {
            Some(FrameType::Cipher)
        } else {
            None
        }
    }

    /// The identifier used in diagnostics.
    pub open spec fn name_view(self) -> Seq<char> {
        match self {
            FrameType::Hello => "Hello"@,
            FrameType::Audio => "Audio"@,
            FrameType::Msg => "Msg"@,
            FrameType::PttStart => "PttStart"@,
            FrameType::PttStop => "PttStop"@,
            FrameType::Ping => "Ping"@,
            FrameType::Pong => "Pong"@,
            FrameType::Hangup => "Hangup"@,
            FrameType::Cipher => "Cipher"@,
        }
    }

    /// Parse a type byte; `None` for unknown types.
    pub fn from_u8(b: u8) -> (r: Option<FrameType>)
        ensures
            r == FrameType::of_byte(b),
    {
        match b {
            0x01 => Some(FrameType::Hello),
            0x02 => Some(FrameType::Audio),
            0x03 => Some(FrameType::Msg),
            0x04 => Some(FrameType::PttStart),
            0x05 => Some(FrameType::PttStop),
            0x06 => Some(FrameType::Ping),
            0x07 => Some(FrameType::Pong),
            0x08 => Some(FrameType::Hangup),
            0x09 => Some(FrameType::Cipher),
            _ => None,
        }
    }

    /// The type byte.
    pub fn to_u8(self) -> (b: u8)
        ensures
            b == self.byte(),
    {
        match self {
            FrameType::Hello => 0x01,
            FrameType::Audio => 0x02,
            FrameType::Msg => 0x03,
            FrameType::PttStart => 0x04,
            FrameType::PttStop => 0x05,
            FrameType::Ping => 0x06,
            FrameType::Pong => 0x07,
            FrameType::Hangup => 0x08,
            FrameType::Cipher => 0x09,
        }
    }

    /// The identifier used in diagnostics.
    pub fn name(self) -> (s: &'static str)
        ensures
            s@ == self.name_view(),
            self is Hello ==> s@ == "Hello"@,
            self is Audio ==> s@ == "Audio"@,
            self is Msg ==> s@ == "Msg"@,
            self is PttStart ==> s@ == "PttStart"@,
            self is PttStop ==> s@ == "PttStop"@,
            self is Ping ==> s@ == "Ping"@,
            self is Pong ==> s@ == "Pong"@,
            self is Hangup ==> s@ == "Hangup"@,
            self is Cipher ==> s@ == "Cipher"@,
    {
        match self {
            FrameType::Hello => "Hello",
            FrameType::Audio => "Audio",
            FrameType::Msg => "Msg",
            FrameType::PttStart => "PttStart",
            FrameType::PttStop => "PttStop",
            FrameType::Ping => "Ping",
            FrameType::Pong => "Pong",
            FrameType::Hangup => "Hangup",
            FrameType::Cipher => "Cipher",
        }
    }
}

/// Every frame type is recovered from its own type byte, and every other byte is refused. The bytes
/// count the types in their order, from 1 to 9.
pub proof fn law_frame_type_bytes(ty: FrameType, b: u8)
    ensures
        1 <= ty.byte() <= 9,
        ty.byte() == (if ty is Hello {
            1u8
        } else if ty is Audio {
            2
        } else if ty is Msg {
            3
        } else if ty is PttStart {
            4
        } else if ty is PttStop {
            5
        } else if ty is Ping {
            6
        } else if ty is Pong {
            7
        } else if ty is Hangup {
            8
        } else {
            9
        }),
        FrameType::of_byte(b) is Some <==> 1 <= b <= 9,
        FrameType::of_byte(ty.byte()) == Some(ty),
        FrameType::of_byte(b) matches Some(t) ==> t.byte() == b,
{
}

/// The HELLO body: the only unsealed frame, bootstraps the key.
#[derive(Debug)]
pub struct Hello {
    /// Sender's own onion address.
    pub onion: OnionAddr,
    /// Advertised AEAD suite.
    pub suite: AeadSuite,
    /// Opus parameters the sender will encode with.
    pub opus: OpusParams,
    /// Random call nonce salting the per-call key derivation.
    pub nonce: CallNonce,
}

/// What a [`Hello`] says.
#[verifier::ext_equal]
pub struct HelloView {
    pub onion: Seq<char>,
    pub suite: AeadSuite,
    pub opus: OpusParams,
    pub nonce: Seq<u8>,
}

impl View for Hello {
    type V = HelloView;

    open spec fn view(&self) -> HelloView {
        HelloView { onion: self.onion@, suite: self.suite, opus: self.opus, nonce: self.nonce@ }
    }
}

impl Clone for Hello {
    fn clone(&self) -> (r: Hello)
        ensures
            r == *self,
    {
        Hello { onion: self.onion.clone(), suite: self.suite, opus: self.opus, nonce: self.nonce }
    }
}

impl HelloView {
    /// How many bytes of the onion address go on the wire: all of them, up to the largest
    /// length that the 16-bit length field can hold.
    pub open spec fn onion_len(self) -> nat {
        if encode_utf8(self.onion).len() <= 0xffff {
            encode_utf8(self.onion).len()
        } else {
            0xffff
        }
    }

    /// The fixed-size part of the HELLO body.
    pub open spec fn fixed_bytes(self) -> Seq<u8> {
        seq![HELLO_PAYLOAD_VERSION, self.suite.wire()] + be_bytes(self.opus.sample_rate as nat, 4) + be_bytes(
            self.opus.bitrate as nat,
            4,
        ) + seq![self.opus.channels, self.opus.frame_ms] + self.nonce + be_bytes(self.onion_len(), 2)
    }

    /// The HELLO body as it goes on the wire.
    pub open spec fn bytes(self) -> Seq<u8> {
        self.fixed_bytes() + encode_utf8(self.onion).take(self.onion_len() as int)
    }
}

/// The error for a HELLO body that ends too soon.
pub open spec fn hello_truncated() -> ErrorView {
    ErrorView::Proto("HELLO payload truncated"@)
}

/// What a HELLO body says, or why it is refused. Bytes behind the onion address are ignored.
pub open spec fn parse_hello(p: Seq<u8>) -> core::result::Result<HelloView, ErrorView> {
    let onion_len = be_value(p.subrange(44, 46));
    let onion = p.subrange(46, (46 + onion_len) as int);
    if p.len() < 1 {
        Err(hello_truncated())
    } else if p[0] != HELLO_PAYLOAD_VERSION {
        Err(ErrorView::Proto("unsupported HELLO payload version "@ + hex_byte(p[0])))
    } else if p.len() < 2 {
        Err(hello_truncated())
    } else if AeadSuite::of_wire(p[1]) is None {
        Err(ErrorView::Proto("unknown AEAD suite id "@ + hex_byte(p[1]) + " in HELLO"@))
    } else if p.len() < 46 || p.len() < 46 + onion_len {
        Err(hello_truncated())
    } else if !valid_utf8(onion) {
        Err(ErrorView::Proto("HELLO onion address is not valid UTF-8"@))
    } else {
        Ok(
            HelloView {
                onion: decode_utf8(onion),
                suite: AeadSuite::of_wire(p[1]).unwrap(),
                opus: OpusParams {
                    sample_rate: be_value(p.subrange(2, 6)) as u32,
                    channels: p[10],
                    bitrate: be_value(p.subrange(6, 10)) as u32,
                    frame_ms: p[11],
                },
                nonce: p.subrange(12, 44),
            },
        )
    }
}

/// The fields of a HELLO stand on the wire in a fixed place each, numbers most significant byte
/// first, and the address stands at the end behind its length.
pub proof fn law_hello_layout(h: HelloView)
    requires
        h.nonce.len() == 32,
        encode_utf8(h.onion).len() <= 0xffff,
    ensures
        ({
            let p = h.bytes();
            &&& p.len() == 46 + encode_utf8(h.onion).len()
            &&& p[0] == 1
            &&& p[1] == (if h.suite is Aes256Gcm {
                1u8
            } else {
                2
            })
            &&& p[2] * 0x100_0000 + p[3] * 0x1_0000 + p[4] * 0x100 + p[5] == h.opus.sample_rate
            &&& p[6] * 0x100_0000 + p[7] * 0x1_0000 + p[8] * 0x100 + p[9] == h.opus.bitrate
            &&& p[10] == h.opus.channels
            &&& p[11] == h.opus.frame_ms
            &&& p.subrange(12, 44) == h.nonce
            &&& p[44] * 0x100 + p[45] == encode_utf8(h.onion).len()
            &&& p.skip(46) == encode_utf8(h.onion)
        }),
{
    lemma_hello_layout(h);
    let p = h.bytes();
    law_four_bytes_big_endian(h.opus.sample_rate);
    law_four_bytes_big_endian(h.opus.bitrate);
    law_two_bytes_big_endian(encode_utf8(h.onion).len() as u16);
    let rate = p.subrange(2, 6);
    let bits = p.subrange(6, 10);
    let len = p.subrange(44, 46);
    assert(rate[0] == p[2] && rate[1] == p[3] && rate[2] == p[4] && rate[3] == p[5]);
    assert(bits[0] == p[6] && bits[1] == p[7] && bits[2] == p[8] && bits[3] == p[9]);
    assert(len[0] == p[44] && len[1] == p[45]);
    assert(p.skip(46) =~= p.subrange(46, (46 + h.onion_len()) as int));
    assert(encode_utf8(h.onion).take(h.onion_len() as int) =~= encode_utf8(h.onion));
}

/// An address too long for its length field is cut to the 65535 bytes that fit, and so announced; the
/// fields in front of it stay where they are.
pub proof fn law_long_addresses_are_cut(h: HelloView)
    requires
        h.nonce.len() == 32,
        encode_utf8(h.onion).len() > 0xffff,
    ensures
        h.bytes().len() == 46 + 0xffff,
        h.bytes()[44] == 0xff,
        h.bytes()[45] == 0xff,
        h.bytes().skip(46) == encode_utf8(h.onion).take(0xffff),
        h.bytes().take(44) == (HelloView { onion: Seq::empty(), ..h }).bytes().take(44),
{
    let bare = HelloView { onion: Seq::empty(), ..h };
    lemma_hello_layout(h);
    lemma_hello_layout(bare);
    reveal_with_fuel(be_bytes, 3);
    let p = h.bytes();
    let len = p.subrange(44, 46);
    assert(len[0] == p[44] && len[1] == p[45]);
    assert(p.skip(46) =~= p.subrange(46, (46 + h.onion_len()) as int));
    lemma_be_len(h.opus.sample_rate as nat, 4);
    lemma_be_len(h.opus.bitrate as nat, 4);
    lemma_be_len(h.onion_len(), 2);
    lemma_be_len(bare.onion_len(), 2);
    assert(p.take(44) =~= bare.bytes().take(44));
}

proof fn lemma_hello_layout(h: HelloView)
    requires
        h.nonce.len() == 32,
    ensures
        h.fixed_bytes().len() == 46,
        h.bytes().len() == 46 + h.onion_len(),
        h.bytes()[0] == HELLO_PAYLOAD_VERSION,
        h.bytes()[1] == h.suite.wire(),
        h.bytes().subrange(2, 6) == be_bytes(h.opus.sample_rate as nat, 4),
        h.bytes().subrange(6, 10) == be_bytes(h.opus.bitrate as nat, 4),
        h.bytes()[10] == h.opus.channels,
        h.bytes()[11] == h.opus.frame_ms,
        h.bytes().subrange(12, 44) == h.nonce,
        h.bytes().subrange(44, 46) == be_bytes(h.onion_len(), 2),
        h.bytes().subrange(46, (46 + h.onion_len()) as int) == encode_utf8(h.onion).take(h.onion_len() as int),
{
    lemma_be_len(h.opus.sample_rate as nat, 4);
    lemma_be_len(h.opus.bitrate as nat, 4);
    lemma_be_len(h.onion_len(), 2);
    let p = h.bytes();
    assert(p.subrange(2, 6) =~= be_bytes(h.opus.sample_rate as nat, 4));
    assert(p.subrange(6, 10) =~= be_bytes(h.opus.bitrate as nat, 4));
    assert(p.subrange(12, 44) =~= h.nonce);
    assert(p.subrange(44, 46) =~= be_bytes(h.onion_len(), 2));
    assert(p.subrange(46, (46 + h.onion_len()) as int) =~= encode_utf8(h.onion).take(h.onion_len() as int));
}

/// A HELLO is recovered from its wire form, for every onion address of up to 65535 bytes, whatever
/// follows it.
pub proof fn law_hello_round_trips(h: HelloView, rest: Seq<u8>)
    requires
        h.nonce.len() == 32,
        encode_utf8(h.onion).len() <= 0xffff,
    ensures
        parse_hello(h.bytes() + rest) == Ok::<HelloView, ErrorView>(h),
{
    lemma_hello_layout(h);
    lemma_pow256_values();
    lemma_be_value_of_bytes(h.opus.sample_rate as nat, 4);
    lemma_be_value_of_bytes(h.opus.bitrate as nat, 4);
    lemma_be_value_of_bytes(h.onion_len(), 2);
    encode_utf8_valid_utf8(h.onion);
    encode_utf8_decode_utf8(h.onion);
    let q = h.bytes();
    let p = q + rest;
    assert(p.subrange(2, 6) =~= q.subrange(2, 6));
    assert(p.subrange(6, 10) =~= q.subrange(6, 10));
    assert(p.subrange(12, 44) =~= q.subrange(12, 44));
    assert(p.subrange(44, 46) =~= q.subrange(44, 46));
    assert(p.subrange(46, (46 + h.onion_len()) as int) =~= q.subrange(46, (46 + h.onion_len()) as int));
    assert(encode_utf8(h.onion).take(h.onion_len() as int) =~= encode_utf8(h.onion));
}

/// A HELLO is taken only in its wire form: what is parsed, written out again, is what stood in front,
/// byte for byte. So nothing else is ever taken for a HELLO, and no field is made up.
pub proof fn law_parsed_hello_was_written(p: Seq<u8>)
    requires
        parse_hello(p) is Ok,
    ensures
        ({
            let h = parse_hello(p)->Ok_0;
            &&& h.nonce.len() == 32
            &&& encode_utf8(h.onion).len() <= 0xffff
            &&& h.bytes().len() <= p.len()
            &&& h.bytes() == p.take(h.bytes().len() as int)
        }),
{
    let h = parse_hello(p)->Ok_0;
    let onion_len = be_value(p.subrange(44, 46));
    let onion = p.subrange(46, (46 + onion_len) as int);
    lemma_pow256_values();
    lemma_be_value_bound(p.subrange(2, 6));
    lemma_be_value_bound(p.subrange(6, 10));
    lemma_be_value_bound(p.subrange(44, 46));
    lemma_be_bytes_of_value(p.subrange(2, 6));
    lemma_be_bytes_of_value(p.subrange(6, 10));
    lemma_be_bytes_of_value(p.subrange(44, 46));
    decode_utf8_encode_utf8(onion);
    lemma_hello_layout(h);
    law_suite_wire_ids(h.suite, p[1]);
    let q = h.bytes();
    let t = p.take(q.len() as int);
    assert(encode_utf8(h.onion) == onion);
    assert(onion.take(onion_len as int) =~= onion);
    assert forall|i: int| 0 <= i < q.len() implies q[i] == t[i] by {
        if 2 <= i < 6 {
            assert(q.subrange(2, 6)[i - 2] == p.subrange(2, 6)[i - 2]);
        } else if 6 <= i < 10 {
            assert(q.subrange(6, 10)[i - 6] == p.subrange(6, 10)[i - 6]);
        } else if 12 <= i < 44 {
            assert(q.subrange(12, 44)[i - 12] == p.subrange(12, 44)[i - 12]);
        } else if 44 <= i < 46 {
            assert(q.subrange(44, 46)[i - 44] == p.subrange(44, 46)[i - 44]);
        } else if 46 <= i {
            assert(q.subrange(46, (46 + onion_len) as int)[i - 46] == onion[i - 46]);
        }
    }
    assert(q =~= t);
}

/// What a HELLO is refused for: another body version than 1, a suite that is none, an end that comes too
/// soon, and an address that is not UTF-8. One with none of these is taken.
pub proof fn law_hello_refusals(p: Seq<u8>)
    ensures
        p.len() == 0 ==> parse_hello(p) == Err::<HelloView, ErrorView>(ErrorView::Proto("HELLO payload truncated"@)),
        p.len() > 0 && p[0] != 1 ==> parse_hello(p) == Err::<HelloView, ErrorView>(
            ErrorView::Proto("unsupported HELLO payload version "@ + hex_byte(p[0])),
        ),
        p.len() >= 2 && p[0] == 1 && p[1] != 1 && p[1] != 2 ==> parse_hello(p) == Err::<HelloView, ErrorView>(
            ErrorView::Proto("unknown AEAD suite id "@ + hex_byte(p[1]) + " in HELLO"@),
        ),
        p.len() >= 2 && p[0] == 1 && (p[1] == 1 || p[1] == 2) && p.len() < 46 ==> parse_hello(p) == Err::<
            HelloView,
            ErrorView,
        >(ErrorView::Proto("HELLO payload truncated"@)),
        p.len() >= 46 && p[0] == 1 && (p[1] == 1 || p[1] == 2) ==> {
            let len = p[44] * 0x100 + p[45];
            &&& p.len() < 46 + len ==> parse_hello(p) == Err::<HelloView, ErrorView>(
                ErrorView::Proto("HELLO payload truncated"@),
            )
            &&& p.len() >= 46 + len && !valid_utf8(p.subrange(46, 46 + len)) ==> parse_hello(p) == Err::<
                HelloView,
                ErrorView,
            >(ErrorView::Proto("HELLO onion address is not valid UTF-8"@))
            &&& p.len() >= 46 + len && valid_utf8(p.subrange(46, 46 + len)) ==> parse_hello(p) is Ok
        },
{
    if p.len() >= 46 {
        law_value_of_two(p.subrange(44, 46));
    }
}

fn proto_err(msg: &str) -> (e: Error)
    ensures
        e@ == ErrorView::Proto(msg@),
{
    Error::Proto(msg.to_owned())
}

impl Hello {
    /// Serialize the HELLO body to its on-wire form.
    pub fn encode(&self) -> (buf: Vec<u8>)
        ensures
            buf@ == self@.bytes(),
    {
        let onion = self.onion.host().as_bytes();
        let len16: usize = if onion.len() <= 0xffff {
            onion.len()
        } else {
            0xffff
        };
        let mut buf: Vec<u8> = Vec::new();
        buf.push(HELLO_PAYLOAD_VERSION);
        buf.push(self.suite.wire_id());
        put_be(&mut buf, self.opus.sample_rate as u64, 4);
        put_be(&mut buf, self.opus.bitrate as u64, 4);
        buf.push(self.opus.channels);
        buf.push(self.opus.frame_ms);
        put_slice(&mut buf, self.nonce.0.as_slice());
        put_be(&mut buf, len16 as u64, 2);
        let head = copy_range(onion, 0, len16);
        put_slice(&mut buf, head.as_slice());
        assert(buf@ =~= self@.bytes());
        buf
    }

    /// Parse a HELLO body.
    pub fn decode(payload: &[u8]) -> (r: Result<Hello>)
        ensures
            outcome(r) == parse_hello(payload@),
    {
        if payload.len() < 1 {
            return Err(proto_err("HELLO payload truncated"));
        }
        if payload[0] != HELLO_PAYLOAD_VERSION {
            let mut m = "unsupported HELLO payload version ".to_owned();
            put_hex_byte(&mut m, payload[0]);
            return Err(Error::Proto(m));
        }
        if payload.len() < 2 {
            return Err(proto_err("HELLO payload truncated"));
        }
        let suite = match AeadSuite::from_wire_id(payload[1]) {
            Some(s) => s,
            None => {
                let mut m = "unknown AEAD suite id ".to_owned();
                put_hex_byte(&mut m, payload[1]);
                put(&mut m, " in HELLO");
                return Err(Error::Proto(m));
            },
        };
        if payload.len() < 46 {
            return Err(proto_err("HELLO payload truncated"));
        }
        proof {
            lemma_pow256_values();
            lemma_be_value_bound(payload@.subrange(2, 6));
            lemma_be_value_bound(payload@.subrange(6, 10));
            lemma_be_value_bound(payload@.subrange(44, 46));
        }
        let sample_rate: u32 = get_be(payload, 2, 4) as u32;
        let bitrate: u32 = get_be(payload, 6, 4) as u32;
        let channels: u8 = payload[10];
        let frame_ms: u8 = payload[11];
        let nonce = CallNonce(array32(payload, 12));
        let onion_len: usize = get_be(payload, 44, 2) as usize;
        if payload.len() - 46 < onion_len {
            return Err(proto_err("HELLO payload truncated"));
        }
        let onion_bytes = copy_range(payload, 46, 46 + onion_len);
        match text_from_utf8(onion_bytes.as_slice()) {
            None => Err(proto_err("HELLO onion address is not valid UTF-8")),
            Some(onion) => Ok(
                Hello {
                    onion: OnionAddr(onion),
                    suite,
                    opus: OpusParams { sample_rate, channels, bitrate, frame_ms },
                    nonce,
                },
            ),
        }
    }
}

/// A decoded protocol frame. Sealed variants carry ciphertext; the handshake frame is plaintext.
#[derive(Debug, Clone)]
pub enum Frame {
    /// Unsealed handshake.
    Hello(Hello),
    /// Sealed Opus audio with its per-direction sequence.
    Audio {
        /// Monotonic frame sequence.
        seq: u64,
        /// AEAD-sealed Opus payload.
        sealed: Vec<u8>,
    },
    /// Sealed UTF-8 text with its per-direction sequence.
    Msg {
        /// Monotonic frame sequence, drawn from the same counter as `Audio`.
        seq: u64,
        /// AEAD-sealed text bytes.
        sealed: Vec<u8>,
    },
    /// Sealed PTT-start control.
    PttStart {
        /// Sealed control payload.
        sealed: Vec<u8>,
    },
    /// Sealed PTT-stop control.
    PttStop {
        /// Sealed control payload.
        sealed: Vec<u8>,
    },
    /// Sealed keepalive ping.
    Ping {
        /// Sealed control payload.
        sealed: Vec<u8>,
    },
    /// Sealed keepalive pong.
    Pong {
        /// Sealed control payload.
        sealed: Vec<u8>,
    },
    /// Sealed graceful hangup.
    Hangup {
        /// Sealed control payload.
        sealed: Vec<u8>,
    },
    /// Sealed mid-call AEAD re-negotiation request.
    Cipher {
        /// Sealed payload carrying the new suite id.
        sealed: Vec<u8>,
    },
}

/// What a [`Frame`] holds.
pub enum FrameView {
    Hello(HelloView),
    Audio { seq: u64, sealed: Seq<u8> },
    Msg { seq: u64, sealed: Seq<u8> },
    PttStart { sealed: Seq<u8> },
    PttStop { sealed: Seq<u8> },
    Ping { sealed: Seq<u8> },
    Pong { sealed: Seq<u8> },
    Hangup { sealed: Seq<u8> },
    Cipher { sealed: Seq<u8> },
}

impl View for Frame {
    type V = FrameView;

    open spec fn view(&self) -> FrameView {
        match *self {
            Frame::Hello(h) => FrameView::Hello(h@),
            Frame::Audio { seq, sealed } => FrameView::Audio { seq, sealed: sealed@ },
            Frame::Msg { seq, sealed } => FrameView::Msg { seq, sealed: sealed@ },
            Frame::PttStart { sealed } => FrameView::PttStart { sealed: sealed@ },
            Frame::PttStop { sealed } => FrameView::PttStop { sealed: sealed@ },
            Frame::Ping { sealed } => FrameView::Ping { sealed: sealed@ },
            Frame::Pong { sealed } => FrameView::Pong { sealed: sealed@ },
            Frame::Hangup { sealed } => FrameView::Hangup { sealed: sealed@ },
            Frame::Cipher { sealed } => FrameView::Cipher { sealed: sealed@ },
        }
    }
}

impl FrameView {
    /// The wire type of this frame.
    pub open spec fn ty(self) -> FrameType {
        match self {
            FrameView::Hello(_) => FrameType::Hello,
            FrameView::Audio { .. } => FrameType::Audio,
            FrameView::Msg { .. } => FrameType::Msg,
            FrameView::PttStart { .. } => FrameType::PttStart,
            FrameView::PttStop { .. } => FrameType::PttStop,
            FrameView::Ping { .. } => FrameType::Ping,
            FrameView::Pong { .. } => FrameType::Pong,
            FrameView::Hangup { .. } => FrameType::Hangup,
            FrameView::Cipher { .. } => FrameType::Cipher,
        }
    }

    /// The bytes behind the header: for audio and text the sequence and then the ciphertext, for
    /// the other sealed frames the ciphertext alone, for HELLO its body.
    pub open spec fn payload(self) -> Seq<u8> {
        match self {
            FrameView::Hello(h) => h.bytes(),
            FrameView::Audio { seq, sealed } => be_bytes(seq as nat, 8) + sealed,
            FrameView::Msg { seq, sealed } => be_bytes(seq as nat, 8) + sealed,
            FrameView::PttStart { sealed } => sealed,
            FrameView::PttStop { sealed } => sealed,
            FrameView::Ping { sealed } => sealed,
            FrameView::Pong { sealed } => sealed,
            FrameView::Hangup { sealed } => sealed,
            FrameView::Cipher { sealed } => sealed,
        }
    }

    /// The whole frame as it goes on the wire.
    pub open spec fn wire(self) -> Seq<u8> {
        header(self.ty(), self.payload().len()) + self.payload()
    }

    /// Whether the frame survives the wire: a HELLO must hold a nonce of 32 bytes and an address
    /// whose length its 16-bit length field can hold.
    pub open spec fn encodable(self) -> bool {
        self matches FrameView::Hello(h) ==> h.nonce.len() == 32 && encode_utf8(h.onion).len() <= 0xffff
    }
}

/// The header of a frame whose payload has `len` bytes.
pub open spec fn header(ty: FrameType, len: nat) -> Seq<u8> {
    seq![PROTO_VERSION, ty.byte()] + be_bytes(len, 4)
}

/// The sequence and the ciphertext of an audio or text payload.
pub open spec fn split_seq(payload: Seq<u8>) -> Option<(u64, Seq<u8>)> {
    if payload.len() < 8 {
        None
    } else {
        Some((be_value(payload.take(8)) as u64, payload.skip(8)))
    }
}

/// The error for an audio or text payload that cannot hold its sequence.
pub open spec fn too_short(what: Seq<char>) -> ErrorView {
    ErrorView::Proto(what + " frame too short to hold an 8-byte sequence"@)
}

/// The frame of the given type with the given payload, or why there is none.
pub open spec fn parse_payload(ty: FrameType, payload: Seq<u8>) -> core::result::Result<FrameView, ErrorView> {
    match ty {
        FrameType::Hello => match parse_hello(payload) {
            Ok(h) => Ok(FrameView::Hello(h)),
            Err(e) => Err(e),
        },
        FrameType::Audio => match split_seq(payload) {
            Some((seq, sealed)) => Ok(FrameView::Audio { seq, sealed }),
            None => Err(too_short("AUDIO"@)),
        },
        FrameType::Msg => match split_seq(payload) {
            Some((seq, sealed)) => Ok(FrameView::Msg { seq, sealed }),
            None => Err(too_short("MSG"@)),
        },
        FrameType::PttStart => Ok(FrameView::PttStart { sealed: payload }),
        FrameType::PttStop => Ok(FrameView::PttStop { sealed: payload }),
        FrameType::Ping => Ok(FrameView::Ping { sealed: payload }),
        FrameType::Pong => Ok(FrameView::Pong { sealed: payload }),
        FrameType::Hangup => Ok(FrameView::Hangup { sealed: payload }),
        FrameType::Cipher => Ok(FrameView::Cipher { sealed: payload }),
    }
}

/// Every frame is recovered from its type and its payload.
pub proof fn law_payload_round_trips(f: FrameView)
    requires
        f.encodable(),
    ensures
        parse_payload(f.ty(), f.payload()) == Ok::<FrameView, ErrorView>(f),
{
    match f {
        FrameView::Hello(h) => {
            law_hello_round_trips(h, Seq::empty());
            assert(h.bytes() + Seq::<u8>::empty() =~= h.bytes());
        },
        FrameView::Audio { seq, sealed } => {
            lemma_seq_payload(seq, sealed);
        },
        FrameView::Msg { seq, sealed } => {
            lemma_seq_payload(seq, sealed);
        },
        _ => {},
    }
}

/// A payload is taken as what its type says, whole: a frame that is parsed from it has that type and,
/// but for a HELLO, exactly that payload. Only a HELLO that is none, and an audio or text payload too
/// short for its sequence, are refused.
pub proof fn law_payload_is_kept(ty: FrameType, payload: Seq<u8>)
    ensures
        parse_payload(ty, payload) matches Ok(f) ==> f.ty() == ty && (!(ty is Hello) ==> f.payload() == payload),
        !(ty is Hello) ==> (parse_payload(ty, payload) is Err <==> (ty is Audio || ty is Msg) && payload.len() < 8),
        ty is Hello ==> (parse_payload(ty, payload) is Ok <==> parse_hello(payload) is Ok),
        parse_payload(ty, payload) matches Ok(FrameView::Hello(h)) ==> parse_hello(payload) == Ok::<
            HelloView,
            ErrorView,
        >(h),
{
    if (ty is Audio || ty is Msg) && payload.len() >= 8 {
        lemma_be_bytes_of_value(payload.take(8));
        lemma_pow256_values();
        lemma_be_value_bound(payload.take(8));
        assert(payload.take(8) + payload.skip(8) =~= payload);
    }
}

/// A sequence is recovered, with what stands behind it, from the eight bytes in front of a payload; a
/// payload shorter than that has none.
pub proof fn law_seq_is_split_off(seq: u64, sealed: Seq<u8>)
    ensures
        split_seq(be_bytes(seq as nat, 8) + sealed) == Some((seq, sealed)),
        split_seq(sealed) is None <==> sealed.len() < 8,
        split_seq(sealed) matches Some((s, rest)) ==> be_bytes(s as nat, 8) + rest == sealed,
{
    lemma_seq_payload(seq, sealed);
    if sealed.len() >= 8 {
        lemma_be_bytes_of_value(sealed.take(8));
        lemma_pow256_values();
        lemma_be_value_bound(sealed.take(8));
        assert(sealed.take(8) + sealed.skip(8) =~= sealed);
    }
}

proof fn lemma_seq_payload(seq: u64, sealed: Seq<u8>)
    ensures
        split_seq(be_bytes(seq as nat, 8) + sealed) == Some((seq, sealed)),
{
    lemma_be_len(seq as nat, 8);
    lemma_pow256_values();
    lemma_be_value_of_bytes(seq as nat, 8);
    let p = be_bytes(seq as nat, 8) + sealed;
    assert(p.take(8) =~= be_bytes(seq as nat, 8));
    assert(p.skip(8) =~= sealed);
}

/// A frame that was parsed has the type that was asked for, survives the wire, and does not grow when
/// it is encoded again.
proof fn lemma_parsed_frame(ty: FrameType, payload: Seq<u8>)
    requires
        parse_payload(ty, payload) is Ok,
    ensures
        ({
            let f = parse_payload(ty, payload)->Ok_0;
            f.ty() == ty && f.encodable() && f.payload().len() <= payload.len()
        }),
{
    match parse_payload(ty, payload)->Ok_0 {
        FrameView::Hello(h) => {
            let onion_len = be_value(payload.subrange(44, 46));
            let onion = payload.subrange(46, (46 + onion_len) as int);
            lemma_pow256_values();
            lemma_be_value_bound(payload.subrange(44, 46));
            decode_utf8_encode_utf8(onion);
            lemma_hello_layout(h);
        },
        FrameView::Audio { seq, sealed } => {
            lemma_be_len(seq as nat, 8);
        },
        FrameView::Msg { seq, sealed } => {
            lemma_be_len(seq as nat, 8);
        },
        _ => {},
    }
}

/// Encode a sealed payload behind its 8-byte big-endian sequence.
pub fn encode_seq_payload(seq: u64, sealed: &[u8]) -> (buf: Vec<u8>)
    ensures
        buf@ == be_bytes(seq as nat, 8) + sealed@,
        split_seq(buf@) == Some((seq, sealed@)),
{
    let mut buf: Vec<u8> = Vec::new();
    put_be(&mut buf, seq, 8);
    put_slice(&mut buf, sealed);
    assert(buf@ =~= be_bytes(seq as nat, 8) + sealed@);
    proof {
        lemma_seq_payload(seq, sealed@);
    }
    buf
}

/// Split the 8-byte big-endian sequence off a payload; `None` if it is shorter than that.
pub fn split_seq_payload(payload: &[u8]) -> (r: Option<(u64, Vec<u8>)>)
    ensures
        r is Some <==> split_seq(payload@) is Some,
        r matches Some((seq, sealed)) ==> split_seq(payload@) == Some((seq, sealed@)),
{
    if payload.len() < 8 {
        return None;
    }
    let seq: u64 = get_be(payload, 0, 8);
    let sealed = copy_range(payload, 8, payload.len());
    proof {
        assert(payload@.take(8) =~= payload@.subrange(0, 8));
        assert(payload@.skip(8) =~= payload@.subrange(8, payload@.len() as int));
    }
    Some((seq, sealed))
}

/// Split the sequence off an audio or text payload; `what` names the frame in the error.
pub fn decode_seq_payload(payload: &[u8], what: &str) -> (r: Result<(u64, Vec<u8>)>)
    ensures
        r is Ok <==> split_seq(payload@) is Some,
        r matches Ok((seq, sealed)) ==> split_seq(payload@) == Some((seq, sealed@)),
        r matches Err(e) ==> e@ == too_short(what@),
{
    match split_seq_payload(payload) {
        Some(parts) => Ok(parts),
        None => Err(Error::Proto(join2(what, " frame too short to hold an 8-byte sequence"))),
    }
}

impl Frame {
    /// The wire type of this frame.
    pub fn frame_type(&self) -> (ty: FrameType)
        ensures
            ty == self@.ty(),
    {
        match self {
            Frame::Hello(_) => FrameType::Hello,
            Frame::Audio { .. } => FrameType::Audio,
            Frame::Msg { .. } => FrameType::Msg,
            Frame::PttStart { .. } => FrameType::PttStart,
            Frame::PttStop { .. } => FrameType::PttStop,
            Frame::Ping { .. } => FrameType::Ping,
            Frame::Pong { .. } => FrameType::Pong,
            Frame::Hangup { .. } => FrameType::Hangup,
            Frame::Cipher { .. } => FrameType::Cipher,
        }
    }

    /// Serialize the bytes that follow the header.
    pub fn encode_payload(&self) -> (buf: Vec<u8>)
        ensures
            buf@ == self@.payload(),
    {
        match self {
            Frame::Hello(h) => h.encode(),
            Frame::Audio { seq, sealed } => encode_seq_payload(*seq, sealed.as_slice()),
            Frame::Msg { seq, sealed } => encode_seq_payload(*seq, sealed.as_slice()),
            Frame::PttStart { sealed } => copy_range(sealed.as_slice(), 0, sealed.len()),
            Frame::PttStop { sealed } => copy_range(sealed.as_slice(), 0, sealed.len()),
            Frame::Ping { sealed } => copy_range(sealed.as_slice(), 0, sealed.len()),
            Frame::Pong { sealed } => copy_range(sealed.as_slice(), 0, sealed.len()),
            Frame::Hangup { sealed } => copy_range(sealed.as_slice(), 0, sealed.len()),
            Frame::Cipher { sealed } => copy_range(sealed.as_slice(), 0, sealed.len()),
        }
    }

    /// Reconstruct a frame from its type and payload bytes.
    pub fn decode_payload(ty: FrameType, payload: Vec<u8>) -> (r: Result<Frame>)
        ensures
            outcome(r) == parse_payload(ty, payload@),
            r matches Ok(f) ==> f@.payload().len() <= payload@.len(),
    {
        proof {
            if parse_payload(ty, payload@) is Ok {
                lemma_parsed_frame(ty, payload@);
            }
        }
        match ty {
            FrameType::Hello => match Hello::decode(payload.as_slice()) {
                Ok(h) => Ok(Frame::Hello(h)),
                Err(e) => Err(e),
            },
            FrameType::Audio => match decode_seq_payload(payload.as_slice(), "AUDIO") {
                Ok((seq, sealed)) => Ok(Frame::Audio { seq, sealed }),
                Err(e) => Err(e),
            },
            FrameType::Msg => match decode_seq_payload(payload.as_slice(), "MSG") {
                Ok((seq, sealed)) => Ok(Frame::Msg { seq, sealed }),
                Err(e) => Err(e),
            },
            FrameType::PttStart => Ok(Frame::PttStart { sealed: payload }),
            FrameType::PttStop => Ok(Frame::PttStop { sealed: payload }),
            FrameType::Ping => Ok(Frame::Ping { sealed: payload }),
            FrameType::Pong => Ok(Frame::Pong { sealed: payload }),
            FrameType::Hangup => Ok(Frame::Hangup { sealed: payload }),
            FrameType::Cipher => Ok(Frame::Cipher { sealed: payload }),
        }
    }

    /// Bytes that the frame takes on the wire, header and payload.
    pub fn wire_len(&self) -> (n: u64)
        requires
            self@.payload().len() + 6 <= u64::MAX,
        ensures
            n == self@.payload().len() + 6,
    {
        let payload = self.encode_payload();
        payload.len() as u64 + 6
    }
}

/// The wire form of a frame, or why it is refused.
pub open spec fn written(f: FrameView) -> core::result::Result<Seq<u8>, ErrorView> {
    let len = f.payload().len();
    if len > u32::MAX {
        Err(ErrorView::Proto("frame payload exceeds u32 length"@))
    } else if len > MAX_FRAME_LEN {
        Err(
            ErrorView::Proto(
                "frame payload "@ + decimal(len) + " exceeds MAX_FRAME_LEN "@ + decimal(MAX_FRAME_LEN as nat),
            ),
        )
    } else {
        Ok(f.wire())
    }
}

/// A frame goes on the wire behind six bytes: the protocol version 2, its type and the length of its
/// payload, most significant byte first. A payload of more than 1 MiB is refused.
pub proof fn law_wire_layout(f: FrameView)
    ensures
        written(f) is Ok <==> f.payload().len() <= 0x10_0000,
        written(f) matches Ok(w) ==> {
            &&& w.len() == 6 + f.payload().len()
            &&& w[0] == 2
            &&& w[1] == f.ty().byte()
            &&& w[2] * 0x100_0000 + w[3] * 0x1_0000 + w[4] * 0x100 + w[5] == f.payload().len()
            &&& w.skip(6) == f.payload()
        },
{
    if f.payload().len() <= 0x10_0000 {
        let n = f.payload().len();
        lemma_be_len(n, 4);
        law_four_bytes_big_endian(n as u32);
        let w = f.wire();
        let b = be_bytes(n, 4);
        assert(w[2] == b[0] && w[3] == b[1] && w[4] == b[2] && w[5] == b[3]);
        assert(w.skip(6) =~= f.payload());
    }
}

/// The payload of an audio or text frame is its sequence, in eight bytes, and then its ciphertext; that
/// of the other sealed frames is as it stands.
pub proof fn law_payload_layout(f: FrameView)
    ensures
        f matches FrameView::Hello(h) ==> f.payload() == h.bytes(),
        f matches FrameView::Audio { seq, sealed } ==> f.payload() == be_bytes(seq as nat, 8) + sealed,
        f matches FrameView::Msg { seq, sealed } ==> f.payload() == be_bytes(seq as nat, 8) + sealed,
        f matches FrameView::PttStart { sealed } ==> f.payload() == sealed,
        f matches FrameView::PttStop { sealed } ==> f.payload() == sealed,
        f matches FrameView::Ping { sealed } ==> f.payload() == sealed,
        f matches FrameView::Pong { sealed } ==> f.payload() == sealed,
        f matches FrameView::Hangup { sealed } ==> f.payload() == sealed,
        f matches FrameView::Cipher { sealed } ==> f.payload() == sealed,
        f is Hello <==> f.ty() is Hello,
        f is Audio <==> f.ty() is Audio,
        f is Msg <==> f.ty() is Msg,
        f is PttStart <==> f.ty() is PttStart,
        f is PttStop <==> f.ty() is PttStop,
        f is Ping <==> f.ty() is Ping,
        f is Pong <==> f.ty() is Pong,
        f is Hangup <==> f.ty() is Hangup,
        f is Cipher <==> f.ty() is Cipher,
{
}

/// The bytes that put one frame on the wire, in the `ver | type | len | payload` format.
pub fn write_frame(frame: &Frame) -> (r: Result<Vec<u8>>)
    ensures
        outcome(r) == written(frame@),
{
    let payload = frame.encode_payload();
    if payload.len() > 0xffff_ffff {
        return Err(proto_err("frame payload exceeds u32 length"));
    }
    if payload.len() > MAX_FRAME_LEN as usize {
        let mut m = "frame payload ".to_owned();
        put_decimal(&mut m, payload.len() as u64);
        put(&mut m, " exceeds MAX_FRAME_LEN ");
        put_decimal(&mut m, MAX_FRAME_LEN as u64);
        return Err(Error::Proto(m));
    }
    let mut out: Vec<u8> = Vec::new();
    out.push(PROTO_VERSION);
    out.push(frame.frame_type().to_u8());
    put_be(&mut out, payload.len() as u64, 4);
    put_slice(&mut out, payload.as_slice());
    assert(out@ =~= frame@.wire());
    Ok(out)
}

/// The type and payload length that a header announces, or why it is refused.
pub open spec fn parsed_header(h: Seq<u8>) -> core::result::Result<(FrameType, u32), ErrorView> {
    let len = be_value(h.subrange(2, 6));
    if h[0] != PROTO_VERSION {
        Err(
            ErrorView::Proto(
                "unsupported protocol version "@ + hex_byte(h[0]) + " (expected "@ + hex_byte(PROTO_VERSION) + ")"@,
            ),
        )
    } else if FrameType::of_byte(h[1]) is None {
        Err(ErrorView::Proto("unknown frame type "@ + hex_byte(h[1])))
    } else if len > MAX_FRAME_LEN {
        Err(
            ErrorView::Proto(
                "frame length "@ + decimal(len) + " exceeds MAX_FRAME_LEN "@ + decimal(MAX_FRAME_LEN as nat),
            ),
        )
    } else {
        Ok((FrameType::of_byte(h[1]).unwrap(), len as u32))
    }
}

/// What a header is refused for, looked at in this order: another version than 2, a type that is none, a
/// length of more than 1 MiB. A header with none of these is taken as it stands.
pub proof fn law_header_refusals(h: Seq<u8>)
    requires
        h.len() == 6,
    ensures
        ({
            let len = h[2] * 0x100_0000 + h[3] * 0x1_0000 + h[4] * 0x100 + h[5];
            &&& h[0] != 2 ==> parsed_header(h) == Err::<(FrameType, u32), ErrorView>(
                ErrorView::Proto(
                    "unsupported protocol version "@ + hex_byte(h[0]) + " (expected "@ + hex_byte(2) + ")"@,
                ),
            )
            &&& h[0] == 2 && !(1 <= h[1] <= 9) ==> parsed_header(h) == Err::<(FrameType, u32), ErrorView>(
                ErrorView::Proto("unknown frame type "@ + hex_byte(h[1])),
            )
            &&& h[0] == 2 && 1 <= h[1] <= 9 && len > 0x10_0000 ==> parsed_header(h) == Err::<(FrameType, u32), ErrorView>(
                ErrorView::Proto(
                    "frame length "@ + decimal(len as nat) + " exceeds MAX_FRAME_LEN "@ + decimal(0x10_0000),
                ),
            )
            &&& h[0] == 2 && 1 <= h[1] <= 9 && len <= 0x10_0000 ==> (parsed_header(h) matches Ok((ty, n)) && ty.byte()
                == h[1] && n == len)
        }),
{
    law_value_of_four(h.subrange(2, 6));
    law_frame_type_bytes(FrameType::Hello, h[1]);
}

/// Validate a frame header: version, type and length bound, in this order.
pub fn parse_header(h: &[u8]) -> (r: Result<(FrameType, u32)>)
    requires
        h@.len() == 6,
    ensures
        r matches Ok(v) ==> parsed_header(h@) == Ok::<(FrameType, u32), ErrorView>(v) && v.1 <= MAX_FRAME_LEN,
        r matches Err(e) ==> parsed_header(h@) == Err::<(FrameType, u32), ErrorView>(e@),
{
    if h[0] != PROTO_VERSION {
        let mut m = "unsupported protocol version ".to_owned();
        put_hex_byte(&mut m, h[0]);
        put(&mut m, " (expected ");
        put_hex_byte(&mut m, PROTO_VERSION);
        put(&mut m, ")");
        return Err(Error::Proto(m));
    }
    let ty = match FrameType::from_u8(h[1]) {
        Some(t) => t,
        None => {
            let mut m = "unknown frame type ".to_owned();
            put_hex_byte(&mut m, h[1]);
            return Err(Error::Proto(m));
        },
    };
    let len: u64 = get_be(h, 2, 4);
    if len > MAX_FRAME_LEN as u64 {
        let mut m = "frame length ".to_owned();
        put_decimal(&mut m, len);
        put(&mut m, " exceeds MAX_FRAME_LEN ");
        put_decimal(&mut m, MAX_FRAME_LEN as u64);
        return Err(Error::Proto(m));
    }
    Ok((ty, len as u32))
}

/// The error for a connection that ends while a header is being read, with `filled` bytes of it in.
pub open spec fn header_cut(filled: nat) -> ErrorView {
    if filled == 0 {
        ErrorView::Closed
    } else {
        ErrorView::Proto("connection closed mid-frame header"@)
    }
}

/// The error for a payload that could not be read in full.
fn truncated_payload(reason: &str) -> (e: Error)
    ensures
        e@ == ErrorView::Proto("truncated frame payload: "@ + reason@),
{
    Error::Proto(join2("truncated frame payload: ", reason))
}

/// The first frame of a byte stream that ends after `input`, and the bytes it takes; or why
/// there is none.
pub open spec fn first_frame(input: Seq<u8>) -> core::result::Result<(FrameView, nat), ErrorView> {
    if input.len() < 6 {
        Err(header_cut(input.len()))
    } else {
        match parsed_header(input.take(6)) {
            Err(e) => Err(e),
            Ok((ty, len)) => if input.len() < 6 + len {
                Err(ErrorView::Proto("truncated frame payload: "@ + "unexpected end of file"@))
            } else {
                match parse_payload(ty, input.subrange(6, 6 + len)) {
                    Ok(f) => Ok((f, (6 + len) as nat)),
                    Err(e) => Err(e),
                }
            },
        }
    }
}

/// Read one frame from the front of `input`, validating version, type and length bound: the frame
/// and the bytes it takes.
pub fn read_frame(input: &[u8]) -> (r: Result<(Frame, usize)>)
    ensures
        r matches Ok((f, n)) ==> first_frame(input@) == Ok::<(FrameView, nat), ErrorView>((f@, n as nat)),
        r matches Ok((f, n)) ==> 6 <= n <= input@.len() && f@.payload().len() <= MAX_FRAME_LEN,
        r matches Err(e) ==> first_frame(input@) == Err::<(FrameView, nat), ErrorView>(e@),
{
    if input.len() < 6 {
        if input.len() == 0 {
            return Err(Error::Closed);
        }
        return Err(proto_err("connection closed mid-frame header"));
    }
    let head = copy_range(input, 0, 6);
    assert(head@ =~= input@.take(6));
    match parse_header(head.as_slice()) {
        Err(e) => Err(e),
        Ok((ty, len)) => {
            let len: usize = len as usize;
            if input.len() - 6 < len {
                return Err(truncated_payload("unexpected end of file"));
            }
            let payload = copy_range(input, 6, 6 + len);
            match Frame::decode_payload(ty, payload) {
                Ok(f) => Ok((f, 6 + len)),
                Err(e) => Err(e),
            }
        },
    }
}

/// What a stream is refused for. An empty one is a clean close, and nothing else is. A frame is only
/// read from a whole header of this version, with a known type and a length of at most 1 MiB, and with
/// the whole payload behind it; then it is what type and payload say.
pub proof fn law_stream_is_read_or_refused(input: Seq<u8>)
    ensures
        first_frame(input) matches Err(ErrorView::Closed) <==> input.len() == 0,
        first_frame(input) matches Ok((f, n)) ==> {
            let len = input[2] * 0x100_0000 + input[3] * 0x1_0000 + input[4] * 0x100 + input[5];
            &&& 6 <= n <= input.len()
            &&& input[0] == 2
            &&& 1 <= input[1] <= 9
            &&& f.ty().byte() == input[1]
            &&& len <= 0x10_0000
            &&& n == 6 + len
            &&& parse_payload(f.ty(), input.subrange(6, n as int)) == Ok::<FrameView, ErrorView>(f)
        },
        input.len() >= 6 && input[0] == 2 && 1 <= input[1] <= 9 ==> {
            let len = input[2] * 0x100_0000 + input[3] * 0x1_0000 + input[4] * 0x100 + input[5];
            len <= 0x10_0000 && input.len() >= 6 + len ==> (first_frame(input) is Ok <==> parse_payload(
                FrameType::of_byte(input[1]).unwrap(),
                input.subrange(6, 6 + len),
            ) is Ok)
        },
{
    if input.len() >= 6 {
        let h = input.take(6);
        law_value_of_four(h.subrange(2, 6));
        if let Ok((ty, len)) = parsed_header(h) {
            law_frame_type_bytes(ty, h[1]);
            if input.len() >= 6 + len {
                law_payload_is_kept(ty, input.subrange(6, 6 + len));
            }
        }
    }
}

/// Where the bytes of one frame that came in so far leave its reader.
pub enum ReadStatus {
    /// So many more bytes are needed before anything can be said.
    Needs(nat),
    /// The frame is complete, or refused.
    Ends(core::result::Result<FrameView, ErrorView>),
}

/// Where `got`, the bytes of one frame that came in so far, leaves the reader of the frame.
pub open spec fn read_status(got: Seq<u8>) -> ReadStatus {
    if got.len() < 6 {
        ReadStatus::Needs((6 - got.len()) as nat)
    } else {
        match parsed_header(got.take(6)) {
            Err(e) => ReadStatus::Ends(Err(e)),
            Ok((ty, len)) => if got.len() < 6 + len {
                ReadStatus::Needs((6 + len - got.len()) as nat)
            } else {
                ReadStatus::Ends(parse_payload(ty, got.subrange(6, 6 + len)))
            },
        }
    }
}

/// However a stream is cut into pieces, its reader ends with the first frame of the whole: what it
/// says once it ends is what the stream says, whatever follows.
pub proof fn law_reader_finds_first_frame(got: Seq<u8>, rest: Seq<u8>)
    requires
        read_status(got) is Ends,
    ensures
        read_status(got) matches ReadStatus::Ends(Ok(f)) ==> (first_frame(got + rest) matches Ok(v) && v.0 == f),
        read_status(got) matches ReadStatus::Ends(Err(e)) ==> first_frame(got + rest) == Err::<
            (FrameView, nat),
            ErrorView,
        >(e),
{
    let input = got + rest;
    assert(input.take(6) =~= got.take(6));
    if let Ok((ty, len)) = parsed_header(got.take(6)) {
        assert(input.subrange(6, 6 + len) =~= got.subrange(6, 6 + len));
    }
}

/// A reader asks for no more than the frame holds: while a frame comes in it needs at least one byte
/// more and never one behind the frame, and once the frame is in it ends with it.
pub proof fn law_reader_never_overreads(f: FrameView, k: int)
    requires
        f.encodable(),
        f.payload().len() <= MAX_FRAME_LEN,
        0 <= k <= f.wire().len(),
    ensures
        k < f.wire().len() ==> (read_status(f.wire().take(k)) matches ReadStatus::Needs(n) && 0 < n && k + n
            <= f.wire().len()),
        k == f.wire().len() ==> read_status(f.wire().take(k)) == ReadStatus::Ends(Ok(f)),
{
    let w = f.wire();
    let len = f.payload().len();
    lemma_be_len(len, 4);
    lemma_pow256_values();
    lemma_be_value_of_bytes(len, 4);
    law_payload_round_trips(f);
    let head = header(f.ty(), len);
    if k >= 6 {
        assert(w.take(k).take(6) =~= head);
        assert(head.subrange(2, 6) =~= be_bytes(len, 4));
        assert(w.subrange(6, (6 + len) as int) =~= f.payload());
        if k == w.len() {
            assert(w.take(k) =~= w);
        }
    }
}

/// A stream that ends while its reader needs more holds no frame, and the reader's error is the
/// stream's.
pub proof fn law_reader_tells_cuts_apart(got: Seq<u8>)
    requires
        read_status(got) is Needs,
    ensures
        first_frame(got) == Err::<(FrameView, nat), ErrorView>(cut_off(got)),
{
}

/// The error for a connection that ends when `got` came in of a frame: a clean close at a frame
/// boundary, a violation in the middle of a frame.
pub open spec fn cut_off(got: Seq<u8>) -> ErrorView {
    if got.len() < 6 {
        header_cut(got.len())
    } else {
        ErrorView::Proto("truncated frame payload: "@ + "unexpected end of file"@)
    }
}

/// A connection that ends between two frames closed cleanly; one that ends within a frame did not.
pub proof fn law_only_whole_frames_close_cleanly(got: Seq<u8>)
    ensures
        cut_off(got) is Closed <==> got.len() == 0,
        0 < got.len() < 6 ==> cut_off(got) == ErrorView::Proto("connection closed mid-frame header"@),
        got.len() >= 6 ==> cut_off(got) == ErrorView::Proto("truncated frame payload: "@ + "unexpected end of file"@),
{
}

/// The reader of one frame after the other from a connection that hands out bytes in pieces.
pub struct FrameReader {
    got: Vec<u8>,
    needs: usize,
}

impl View for FrameReader {
    type V = Seq<u8>;

    /// The bytes of the current frame that came in so far.
    closed spec fn view(&self) -> Seq<u8> {
        self.got@
    }
}

impl FrameReader {
    #[verifier::type_invariant]
    spec fn valid(self) -> bool {
        read_status(self.got@) == ReadStatus::Needs(self.needs as nat) && self.needs > 0 && self.got@.len() + self.needs
            <= MAX_FRAME_LEN + 6
    }

    /// A reader at a frame boundary.
    pub fn new() -> (r: FrameReader)
        ensures
            r@ == Seq::<u8>::empty(),
    {
        FrameReader { got: Vec::new(), needs: 6 }
    }

    /// How many bytes to ask the connection for, at most.
    pub fn wanted(&self) -> (n: usize)
        ensures
            read_status(self@) == ReadStatus::Needs(n as nat),
            0 < n,
    {
        proof {
            use_type_invariant(self);
        }
        self.needs
    }

    /// Take the bytes that a read yielded. Once a frame is complete it is handed out and the reader
    /// is at a frame boundary again; so it is once a frame is refused.
    pub fn on_bytes(&mut self, chunk: &[u8]) -> (r: Result<Option<Frame>>)
        requires
            read_status(old(self)@) matches ReadStatus::Needs(n) && chunk@.len() <= n,
        ensures
            match read_status(old(self)@ + chunk@) {
                ReadStatus::Needs(_) => r matches Ok(None) && final(self)@ == old(self)@ + chunk@,
                ReadStatus::Ends(Ok(f)) => r matches Ok(Some(v)) && v@ == f && v@.payload().len() <= MAX_FRAME_LEN
                    && final(self)@ == Seq::<u8>::empty(),
                ReadStatus::Ends(Err(e)) => r matches Err(v) && v@ == e && final(self)@ == Seq::<u8>::empty(),
            },
    {
        proof {
            use_type_invariant(&*self);
        }
        let mut current = FrameReader::new();
        std::mem::swap(self, &mut current);
        let mut got = current.got;
        put_slice(&mut got, chunk);
        assert(got@ =~= old(self)@ + chunk@);
        if got.len() < 6 {
            let needs: usize = 6 - got.len();
            *self = FrameReader { got, needs };
            return Ok(None);
        }
        let head = copy_range(got.as_slice(), 0, 6);
        assert(head@ =~= got@.take(6));
        match parse_header(head.as_slice()) {
            Err(e) => Err(e),
            Ok((ty, len)) => {
                let len: usize = len as usize;
                if got.len() < 6 + len {
                    let needs: usize = 6 + len - got.len();
                    *self = FrameReader { got, needs };
                    return Ok(None);
                }
                let payload = copy_range(got.as_slice(), 6, 6 + len);
                match Frame::decode_payload(ty, payload) {
                    Ok(f) => Ok(Some(f)),
                    Err(e) => Err(e),
                }
            },
        }
    }

    /// The error when the connection ends.
    pub fn on_end(&self) -> (e: Error)
        ensures
            e@ == cut_off(self@),
    {
        if self.got.len() == 0 {
            return Error::Closed;
        }
        if self.got.len() < 6 {
            return proto_err("connection closed mid-frame header");
        }
        truncated_payload("unexpected end of file")
    }

    /// The error when a read fails: broken I/O at a header, a cut payload behind it.
    pub fn on_failure(&self, reason: &str) -> (e: Error)
        ensures
            e@ == (if self@.len() < 6 {
                ErrorView::Io(reason@)
            } else {
                ErrorView::Proto("truncated frame payload: "@ + reason@)
            }),
    {
        if self.got.len() < 6 {
            return Error::Io(reason.to_owned());
        }
        truncated_payload(reason)
    }
}

/// Any frame that may be written is read back, whole and unchanged, whatever follows it on the
/// stream.
pub proof fn law_frame_round_trips(f: FrameView, rest: Seq<u8>)
    requires
        f.encodable(),
        f.payload().len() <= MAX_FRAME_LEN,
    ensures
        first_frame(f.wire() + rest) == Ok::<(FrameView, nat), ErrorView>((f, f.wire().len())),
{
    let len = f.payload().len();
    lemma_be_len(len, 4);
    lemma_pow256_values();
    lemma_be_value_of_bytes(len, 4);
    law_payload_round_trips(f);
    let head = header(f.ty(), len);
    let input = f.wire() + rest;
    assert(input.take(6) =~= head);
    assert(head.subrange(2, 6) =~= be_bytes(len, 4));
    assert(input.subrange(6, (6 + len) as int) =~= f.payload());
}

/// Frames one behind the other on the wire.
pub open spec fn stream_of(frames: Seq<FrameView>) -> Seq<u8>
    decreases frames.len(),
{
    if frames.len() == 0 {
        Seq::empty()
    } else {
        frames[0].wire() + stream_of(frames.skip(1))
    }
}

/// The frames that are read one after the other from a stream that ends after `input`, and why
/// there is no further one.
pub open spec fn frames_in(input: Seq<u8>) -> (Seq<FrameView>, ErrorView)
    decreases input.len(),
{
    match first_frame(input) {
        Err(e) => (Seq::empty(), e),
        Ok((f, n)) => if 0 < n <= input.len() {
            let (rest, end) = frames_in(input.skip(n as int));
            (seq![f] + rest, end)
        } else {
            (Seq::empty(), ErrorView::Closed)
        },
    }
}

/// A stream of frames is read back as exactly these frames, in order, and then as closed.
pub proof fn law_stream_round_trips(frames: Seq<FrameView>)
    requires
        forall|k: int| 0 <= k < frames.len() ==> (#[trigger] frames[k]).encodable(),
        forall|k: int| 0 <= k < frames.len() ==> (#[trigger] frames[k]).payload().len() <= MAX_FRAME_LEN,
    ensures
        frames_in(stream_of(frames)) == (frames, ErrorView::Closed),
    decreases frames.len(),
{
    if frames.len() == 0 {
        assert(frames =~= Seq::<FrameView>::empty());
    } else {
        let rest = frames.skip(1);
        let input = stream_of(frames);
        assert forall|k: int| 0 <= k < rest.len() implies (#[trigger] rest[k]).encodable() && rest[k].payload().len()
            <= MAX_FRAME_LEN by {
            assert(rest[k] == frames[k + 1]);
        }
        law_stream_round_trips(rest);
        law_frame_round_trips(frames[0], stream_of(rest));
        assert(input.skip(frames[0].wire().len() as int) =~= stream_of(rest));
        assert(seq![frames[0]] + rest =~= frames);
    }
}

/// Any frame that was read can be written, and reads back as the same frame.
pub proof fn law_read_frame_survives_rewrite(input: Seq<u8>)
    requires
        first_frame(input) is Ok,
    ensures
        ({
            let f = first_frame(input)->Ok_0.0;
            &&& written(f) == Ok::<Seq<u8>, ErrorView>(f.wire())
            &&& first_frame(f.wire()) == Ok::<(FrameView, nat), ErrorView>((f, f.wire().len()))
        }),
{
    let (ty, len) = parsed_header(input.take(6))->Ok_0;
    let f = first_frame(input)->Ok_0.0;
    lemma_parsed_frame(ty, input.subrange(6, 6 + len));
    law_frame_round_trips(f, Seq::empty());
    assert(f.wire() + Seq::<u8>::empty() =~= f.wire());
}

/// Identity and parameters learned about the peer during the handshake.
#[derive(Debug)]
pub struct PeerInfo {
    /// The peer's onion address.
    pub onion: OnionAddr,
    /// The negotiated AEAD suite.
    pub suite: AeadSuite,
    /// The peer's Opus parameters (drives our decoder).
    pub opus: OpusParams,
}

impl Clone for PeerInfo {
    fn clone(&self) -> (r: PeerInfo)
        ensures
            r == *self,
    {
        PeerInfo { onion: self.onion.clone(), suite: self.suite, opus: self.opus }
    }
}

impl PeerInfo {
    /// Whether this is what `hello` says of its sender.
    pub open spec fn learned_from(&self, hello: HelloView) -> bool {
        &&& self.onion@ == hello.onion
        &&& self.suite == hello.suite
        &&& self.opus == hello.opus
    }
}

/// What is learned of a peer is what its HELLO says, field by field: address, suite and each codec
/// parameter.
pub proof fn law_peer_is_what_its_hello_says(info: PeerInfo, hello: HelloView)
    ensures
        info.learned_from(hello) <==> {
            &&& info.onion.0@ == hello.onion
            &&& info.suite == hello.suite
            &&& info.opus.sample_rate == hello.opus.sample_rate
            &&& info.opus.channels == hello.opus.channels
            &&& info.opus.bitrate == hello.opus.bitrate
            &&& info.opus.frame_ms == hello.opus.frame_ms
        },
{
}

/// Two HELLOs that differ in anything but their nonces never teach the same of a peer.
pub proof fn law_hellos_are_told_apart(info: PeerInfo, h1: HelloView, h2: HelloView)
    requires
        info.learned_from(h1),
        info.learned_from(h2),
    ensures
        h2 == (HelloView { nonce: h2.nonce, ..h1 }),
{
}

/// Require the peer's advertised suite to be ours, and collect what its HELLO says.
pub fn negotiate(my_hello: &Hello, peer_hello: &Hello) -> (r: Result<PeerInfo>)
    ensures
        my_hello.suite == peer_hello.suite <==> r is Ok,
        r matches Ok(peer) ==> peer.learned_from(peer_hello@),
        r matches Ok(peer) ==> peer.onion.0@ == peer_hello.onion.0@ && peer.suite == peer_hello.suite,
        r matches Ok(peer) ==> peer.opus.sample_rate == peer_hello.opus.sample_rate && peer.opus.channels
            == peer_hello.opus.channels,
        r matches Ok(peer) ==> peer.opus.bitrate == peer_hello.opus.bitrate && peer.opus.frame_ms
            == peer_hello.opus.frame_ms,
        r matches Err(e) ==> e == (Error::CipherMismatch { local: my_hello.suite, peer: peer_hello.suite }),
{
    if my_hello.suite != peer_hello.suite {
        return Err(Error::CipherMismatch { local: my_hello.suite, peer: peer_hello.suite });
    }
    Ok(PeerInfo { onion: peer_hello.onion.clone(), suite: peer_hello.suite, opus: peer_hello.opus })
}

/// Whether a handshake outcome is the one that two HELLOs call for, given the key that the call
/// should have: success exactly when the suites agree, with fresh counters on success.
pub open spec fn handshake_outcome(
    r: Result<(CallKeys, PeerInfo)>,
    my: HelloView,
    peer: HelloView,
    key: Seq<u8>,
) -> bool {
    if my.suite == peer.suite {
        r matches Ok((keys, info)) && info.learned_from(peer) && keys@.key == key && keys@.suite == my.suite
            && keys@.next == 0 && keys@.window == Window::empty()
    } else {
        r matches Err(e) && e == (Error::CipherMismatch { local: my.suite, peer: peer.suite })
    }
}

/// A handshake succeeds exactly when the suites agree. It then gives the key it should, the common
/// suite, a counter at zero, a replay window that takes every sequence, and the peer's own address
/// and codec parameters. Else it names both suites.
pub proof fn law_handshake_goes_by_the_suites(
    r: Result<(CallKeys, PeerInfo)>,
    my: HelloView,
    peer: HelloView,
    key: Seq<u8>,
    seq: u64,
)
    requires
        handshake_outcome(r, my, peer, key),
    ensures
        r is Ok <==> my.suite == peer.suite,
        r matches Ok((keys, info)) ==> keys@.key == key && keys@.suite == my.suite && keys@.next == 0
            && keys@.window.fresh(seq) && info.onion.0@ == peer.onion && info.suite == peer.suite && info.opus
            == peer.opus,
        r matches Err(e) ==> e == (Error::CipherMismatch { local: my.suite, peer: peer.suite }),
{
}

/// Caller side of the handshake, once our HELLO is sent and the peer's is in: the call keys and
/// what was learned of the peer.
pub fn handshake_caller(psk: &Psk, my_hello: &Hello, peer_hello: &Hello) -> (r: Result<(CallKeys, PeerInfo)>)
    ensures
        handshake_outcome(r, my_hello@, peer_hello@, call_key(psk@, my_hello@.nonce, peer_hello@.nonce)),
        r is Ok <==> my_hello.suite == peer_hello.suite,
        r matches Ok((keys, _)) ==> keys@.key == call_key(psk.0@, my_hello.nonce.0@, peer_hello.nonce.0@),
        r matches Ok((keys, _)) ==> keys@.suite == my_hello.suite && keys@.next == 0 && keys@.window.top is None,
        r matches Ok((_, peer)) ==> peer.onion.0@ == peer_hello.onion.0@ && peer.suite == peer_hello.suite,
        r matches Ok((_, peer)) ==> peer.opus.sample_rate == peer_hello.opus.sample_rate && peer.opus.channels
            == peer_hello.opus.channels,
        r matches Ok((_, peer)) ==> peer.opus.bitrate == peer_hello.opus.bitrate && peer.opus.frame_ms
            == peer_hello.opus.frame_ms,
        r matches Err(e) ==> e == (Error::CipherMismatch { local: my_hello.suite, peer: peer_hello.suite }),
{
    match negotiate(my_hello, peer_hello) {
        Err(e) => Err(e),
        Ok(peer) => {
            let keys = derive_call_keys(psk, &my_hello.nonce, &peer_hello.nonce, peer.suite);
            Ok((keys, peer))
        },
    }
}

/// Callee side of the handshake, once the peer's HELLO is in and ours is sent: the call keys and
/// what was learned of the peer. The caller's nonce, which is the peer's, comes first in the salt.
pub fn handshake_callee(psk: &Psk, my_hello: &Hello, peer_hello: &Hello) -> (r: Result<(CallKeys, PeerInfo)>)
    ensures
        handshake_outcome(r, my_hello@, peer_hello@, call_key(psk@, peer_hello@.nonce, my_hello@.nonce)),
        r is Ok <==> my_hello.suite == peer_hello.suite,
        r matches Ok((keys, _)) ==> keys@.key == call_key(psk.0@, peer_hello.nonce.0@, my_hello.nonce.0@),
        r matches Ok((keys, _)) ==> keys@.suite == my_hello.suite && keys@.next == 0 && keys@.window.top is None,
        r matches Ok((_, peer)) ==> peer.onion.0@ == peer_hello.onion.0@ && peer.suite == peer_hello.suite,
        r matches Ok((_, peer)) ==> peer.opus.sample_rate == peer_hello.opus.sample_rate && peer.opus.channels
            == peer_hello.opus.channels,
        r matches Ok((_, peer)) ==> peer.opus.bitrate == peer_hello.opus.bitrate && peer.opus.frame_ms
            == peer_hello.opus.frame_ms,
        r matches Err(e) ==> e == (Error::CipherMismatch { local: my_hello.suite, peer: peer_hello.suite }),
{
    match negotiate(my_hello, peer_hello) {
        Err(e) => Err(e),
        Ok(peer) => {
            let keys = derive_call_keys(psk, &peer_hello.nonce, &my_hello.nonce, peer.suite);
            Ok((keys, peer))
        },
    }
}

/// Both ends of a call that share a PSK reach the same outcome from the two HELLOs that they
/// exchange: the same key, suite and fresh counters, or a cipher mismatch on both.
pub proof fn law_both_sides_agree(
    psk: Seq<u8>,
    caller: HelloView,
    callee: HelloView,
    at_caller: Result<(CallKeys, PeerInfo)>,
    at_callee: Result<(CallKeys, PeerInfo)>,
)
    requires
        handshake_outcome(at_caller, caller, callee, call_key(psk, caller.nonce, callee.nonce)),
        handshake_outcome(at_callee, callee, caller, call_key(psk, caller.nonce, callee.nonce)),
    ensures
        at_caller is Ok <==> at_callee is Ok,
        at_caller is Ok ==> at_caller->Ok_0.0@ == at_callee->Ok_0.0@,
        at_caller is Ok ==> at_caller->Ok_0.1.learned_from(callee) && at_callee->Ok_0.1.learned_from(caller),
        at_caller is Err ==> at_caller->Err_0 is CipherMismatch && at_callee->Err_0 is CipherMismatch,
{
}

/// Require a frame to be a HELLO; anything else before the key is established is a violation.
pub fn read_hello(frame: Frame) -> (r: Result<Hello>)
    ensures
        frame matches Frame::Hello(h) ==> (r matches Ok(v) && v == h),
        !(frame is Hello) ==> (r matches Err(e) && e@ == ErrorView::Proto(
            "expected HELLO during handshake, got "@ + frame@.ty().name_view(),
        )),
{
    let ty = frame.frame_type();
    match frame {
        Frame::Hello(h) => Ok(h),
        _ => Err(Error::Proto(join2("expected HELLO during handshake, got ", ty.name()))),
    }
}

} // verus!
