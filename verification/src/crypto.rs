//! Frame sealing for one call: key agreement, nonce discipline and replay rejection.

use vstd::prelude::*;

use crate::aead::{
    aead_decrypt, aead_encrypt, aead_open, aead_seal, aes256gcm_open, aes256gcm_seal, chacha20poly1305_open,
    chacha20poly1305_seal, openable, sealable,
};
use crate::bytes::{
    be_bytes, lemma_be_len, lemma_be_value_of_bytes, lemma_pow256_values, put_be, put_slice,
};
use crate::error::{Error, Result};
pub use crate::replay::ReplayWindow;
use crate::replay::{lemma_step_blocks, lemma_step_keeps_blocked, Window};

verus! {

/// Negotiated AEAD cipher suite. The id is exchanged in HELLO.
#[derive(Debug, Clone, Copy, PartialEq, Eq, Structural)]
pub enum AeadSuite {
    /// AES-256-GCM: the default, hardware-accelerated on most machines.
    Aes256Gcm,
    /// ChaCha20-Poly1305: the fallback for targets without AES hardware.
    ChaCha20Poly1305,
}

impl AeadSuite {
    /// The wire id as a number.
    pub open spec fn wire(self) -> u8 {
        match self {
            AeadSuite::Aes256Gcm => 0x01,
            AeadSuite::ChaCha20Poly1305 => 0x02,
        }
    }

    /// The suite with the given wire id.
    pub open spec fn of_wire(id: u8) -> Option<AeadSuite> {
        if id == 0x01 {
            Some(AeadSuite::Aes256Gcm)
        } else if id == 0x02 {
            Some(AeadSuite::ChaCha20Poly1305)
        } else {
            None
        }
    }

    /// The identifier used in diagnostics.
    pub open spec fn name_view(self) -> Seq<char> {
        match self {
            AeadSuite::Aes256Gcm => "Aes256Gcm"@,
            AeadSuite::ChaCha20Poly1305 => "ChaCha20Poly1305"@,
        }
    }

    /// Stable wire id carried in the HELLO frame.
    pub fn wire_id(self) -> (id: u8)
        ensures
            id == self.wire(),
    {
        match self {
            AeadSuite::Aes256Gcm => 0x01,
            AeadSuite::ChaCha20Poly1305 => 0x02,
        }
    }

    /// Parse a suite from its wire id; `None` for unknown suites.
    pub fn from_wire_id(id: u8) -> (r: Option<AeadSuite>)
        ensures
            r == AeadSuite::of_wire(id),
    {
        match id {
            0x01 => Some(AeadSuite::Aes256Gcm),
            0x02 => Some(AeadSuite::ChaCha20Poly1305),
            _ => None,
        }
    }

    /// AEAD key length in bytes (32 for both supported suites).
    pub fn key_len(self) -> (n: usize)
        ensures
            n == 32,
    {
        32
    }

    /// The identifier used in diagnostics.
    pub fn name(self) -> (s: &'static str)
        ensures
            s@ == self.name_view(),
            self is Aes256Gcm ==> s@ == "Aes256Gcm"@,
            self is ChaCha20Poly1305 ==> s@ == "ChaCha20Poly1305"@,
    {
        match self {
            AeadSuite::Aes256Gcm => "Aes256Gcm",
            AeadSuite::ChaCha20Poly1305 => "ChaCha20Poly1305",
        }
    }
}

/// Every suite is recovered from its own wire id, and every other id is refused.
pub proof fn law_suite_wire_ids(suite: AeadSuite, id: u8)
    ensures
        AeadSuite::of_wire(suite.wire()) == Some(suite),
        AeadSuite::of_wire(id) is Some ==> AeadSuite::of_wire(id).unwrap().wire() == id,
        suite is Aes256Gcm ==> suite.wire() == 1,
        suite is ChaCha20Poly1305 ==> suite.wire() == 2,
        AeadSuite::of_wire(id) is Some <==> id == 1 || id == 2,
{
}

/// HKDF `info` string binding keys to this protocol version.
pub const CALL_KEY_INFO: &'static str = "terminalphone/v2 call-key";


/// A 32-byte string of zeroes.
pub open spec fn zeroes() -> Seq<u8> {
    Seq::new(32, |i: int| 0u8)
}

/// A wiped key holds nothing of the key: 32 bytes, each of them zero.
pub proof fn law_wiped_keys_are_zero(i: int)
    requires
        0 <= i < 32,
    ensures
        zeroes().len() == 32,
        zeroes()[i] == 0,
{
}

/// `zeroize::Zeroize::zeroize` overwrites the 32 bytes with zeroes.
#[verifier::external_body]
pub(crate) fn wipe_32(key: &mut [u8; 32])
    ensures
        final(key)@ == zeroes(),
    opens_invariants none
    no_unwind
{
    zeroize::Zeroize::zeroize(key);
}

/// `zeroize::Zeroize::zeroize` of a vector overwrites its bytes with zeroes and then empties it.
#[verifier::external_body]
pub(crate) fn wipe_vec(buf: &mut Vec<u8>)
    ensures
        final(buf)@ == Seq::<u8>::empty(),
{
    zeroize::Zeroize::zeroize(buf);
}

/// `rand::RngCore::fill_bytes` of `rand::rngs::OsRng`: 32 bytes from the operating system's
/// generator. Nothing is promised of their values. Where the generator fails, the call panics; no
/// argument decides that.
#[verifier::external_body]
pub(crate) fn random_32() -> (r: [u8; 32])
{
    let mut buf = [0u8;32];
    rand::RngCore::fill_bytes(&mut rand::rngs::OsRng, &mut buf);
    buf
}

/// What HKDF-SHA256 derives from a salt, input key material and an info string, cut to 32 bytes.
pub uninterp spec fn hkdf_sha256(salt: Seq<u8>, ikm: Seq<u8>, info: Seq<u8>) -> Seq<u8>;

/// `hkdf::Hkdf::<sha2::Sha256>::new` and `expand` to 32 bytes, which is within the output limit.
#[verifier::external_body]
fn hkdf_sha256_32(salt: &[u8], ikm: &[u8], info: &[u8]) -> (r: [u8; 32])
    ensures
        r@ == hkdf_sha256(salt@, ikm@, info@),
{
    let hk = hkdf::Hkdf::<sha2::Sha256>::new(Some(salt), ikm);
    let mut key = [0u8;32];
    hk.expand(info, &mut key).expect("32 bytes are within the HKDF output limit");
    key
}

/// The pre-shared secret, exchanged out of band. Overwritten with zeroes when dropped.
pub struct Psk(pub [u8; 32]);

impl View for Psk {
    type V = Seq<u8>;

    open spec fn view(&self) -> Seq<u8> {
        self.0@
    }
}

impl Psk {
    /// Construct from raw 32 bytes.
    pub fn from_bytes(bytes: [u8; 32]) -> (psk: Psk)
        ensures
            psk@ == bytes@,
    {
        Psk(bytes)
    }

    /// Generate a fresh random PSK (used at first run when none exists).
    pub fn generate() -> (psk: Psk)
        ensures
            psk@.len() == 32,
    {
        Psk(random_32())
    }

    /// Overwrite the secret with zeroes.
    pub fn wipe(&mut self)
        ensures
            final(self)@ == zeroes(),
        opens_invariants none
        no_unwind
    {
        wipe_32(&mut self.0);
    }
}

impl Clone for Psk {
    fn clone(&self) -> (psk: Psk)
        ensures
            psk == *self,
    {
        Psk(self.0)
    }
}

impl Drop for Psk {
    fn drop(&mut self)
        ensures
            final(self)@ == zeroes(),
        opens_invariants none
        no_unwind
    {
        self.wipe();
    }
}

/// Each side's random 32-byte HELLO nonce; salts the per-call key derivation.
#[derive(Debug, Clone, Copy, PartialEq, Eq)]
pub struct CallNonce(pub [u8; 32]);

impl View for CallNonce {
    type V = Seq<u8>;

    open spec fn view(&self) -> Seq<u8> {
        self.0@
    }
}

impl CallNonce {
    /// Draw a fresh random call nonce.
    pub fn random() -> (nonce: CallNonce)
        ensures
            nonce@.len() == 32,
    {
        CallNonce(random_32())
    }
}

/// Direction tag forming the high 4 bytes of every 96-bit AEAD nonce.
#[derive(Debug, Clone, Copy, PartialEq, Eq, Structural)]
pub enum Direction {
    /// Caller to callee traffic.
    CallerToCallee,
    /// Callee to caller traffic.
    CalleeToCaller,
}

impl Direction {
    /// The 4-byte direction tag.
    pub open spec fn tag_view(self) -> Seq<u8> {
        match self {
            Direction::CallerToCallee => seq![0u8, 0u8, 0u8, 1u8],
            Direction::CalleeToCaller => seq![0u8, 0u8, 0u8, 2u8],
        }
    }

    /// The 4-byte direction tag prepended to the counter to form the nonce.
    pub fn tag(self) -> (t: [u8; 4])
        ensures
            t@ == self.tag_view(),
    {
        let t: [u8; 4] = match self {
            Direction::CallerToCallee => [0x00, 0x00, 0x00, 0x01],
            Direction::CalleeToCaller => [0x00, 0x00, 0x00, 0x02],
        };
        assert(t@ =~= self.tag_view());
        t
    }
}

/// The 12-byte AEAD nonce: direction tag, then the big-endian sequence.
pub open spec fn nonce_of(dir: Direction, seq: u64) -> Seq<u8> {
    dir.tag_view() + be_bytes(seq as nat, 8)
}

/// The authenticated data of a frame: the caller's bytes, then direction tag and sequence.
pub open spec fn aad_of(bound: Seq<u8>, dir: Direction, seq: u64) -> Seq<u8> {
    bound + dir.tag_view() + be_bytes(seq as nat, 8)
}

/// A nonce is twelve bytes: the direction, 1 from the caller and 2 from the callee, in four bytes, and the
/// sequence in eight. What is authenticated beside a frame is what the caller binds and then the same
/// twelve bytes.
pub proof fn law_nonce_layout(dir: Direction, seq: u64, bound: Seq<u8>)
    ensures
        nonce_of(dir, seq).len() == 12,
        nonce_of(dir, seq).take(3) == seq![0u8, 0u8, 0u8],
        nonce_of(dir, seq)[3] == (if dir is CallerToCallee {
            1u8
        } else {
            2
        }),
        nonce_of(dir, seq).skip(4) == be_bytes(seq as nat, 8),
        aad_of(bound, dir, seq) == bound + nonce_of(dir, seq),
{
    lemma_be_len(seq as nat, 8);
    assert(nonce_of(dir, seq).take(3) =~= seq![0u8, 0u8, 0u8]);
    assert(nonce_of(dir, seq).skip(4) =~= be_bytes(seq as nat, 8));
    assert(aad_of(bound, dir, seq) =~= bound + nonce_of(dir, seq));
}

/// Two frames share a nonce only if they share direction and sequence.
pub proof fn law_nonces_are_distinct(d1: Direction, s1: u64, d2: Direction, s2: u64)
    requires
        nonce_of(d1, s1) == nonce_of(d2, s2),
    ensures
        d1 == d2,
        s1 == s2,
{
    let n1 = nonce_of(d1, s1);
    let n2 = nonce_of(d2, s2);
    assert(n1[3] == d1.tag_view()[3]);
    assert(n2[3] == d2.tag_view()[3]);
    lemma_be_len(s1 as nat, 8);
    lemma_be_len(s2 as nat, 8);
    assert(n1.subrange(4, 12) =~= be_bytes(s1 as nat, 8));
    assert(n2.subrange(4, 12) =~= be_bytes(s2 as nat, 8));
    lemma_pow256_values();
    lemma_be_value_of_bytes(s1 as nat, 8);
    lemma_be_value_of_bytes(s2 as nat, 8);
}

/// Build the 12-byte AEAD nonce: 4-byte direction tag, then the 8-byte big-endian counter.
pub fn make_nonce(dir: Direction, seq: u64) -> (nonce: [u8; 12])
    ensures
        nonce@ == nonce_of(dir, seq),
{
    let mut v: Vec<u8> = Vec::new();
    put_slice(&mut v, dir.tag().as_slice());
    put_be(&mut v, seq, 8);
    proof {
        lemma_be_len(seq as nat, 8);
        assert(v@ =~= nonce_of(dir, seq));
    }
    let nonce: [u8; 12] = [
        v[0], v[1], v[2], v[3], v[4], v[5], v[6], v[7], v[8], v[9], v[10], v[11],
    ];
    assert(nonce@ =~= v@);
    nonce
}

/// Build the authenticated data: caller-supplied bytes, then the direction tag and sequence so
/// neither can be altered without failing authentication.
pub fn make_aad(aad_bound: &[u8], dir: Direction, seq: u64) -> (aad: Vec<u8>)
    ensures
        aad@ == aad_of(aad_bound@, dir, seq),
{
    let mut aad: Vec<u8> = Vec::new();
    put_slice(&mut aad, aad_bound);
    put_slice(&mut aad, dir.tag().as_slice());
    put_be(&mut aad, seq, 8);
    assert(aad@ =~= aad_of(aad_bound@, dir, seq));
    aad
}

/// The key of a call: HKDF-SHA256 of the PSK, salted with the caller's nonce and then the
/// callee's.
pub open spec fn call_key(psk: Seq<u8>, caller_nonce: Seq<u8>, callee_nonce: Seq<u8>) -> Seq<u8> {
    hkdf_sha256(caller_nonce + callee_nonce, psk, vstd::utf8::encode_utf8(CALL_KEY_INFO@))
}

/// The key of a call is derived from the secret and both nonces, the caller's first, and is bound to this
/// protocol by name.
pub proof fn law_call_key_uses_secret_and_nonces(psk: Seq<u8>, caller_nonce: Seq<u8>, callee_nonce: Seq<u8>)
    ensures
        call_key(psk, caller_nonce, callee_nonce) == hkdf_sha256(
            caller_nonce + callee_nonce,
            psk,
            vstd::utf8::encode_utf8("terminalphone/v2 call-key"@),
        ),
{
}

/// A frame's ciphertext under a call key.
pub open spec fn sealed_frame(
    suite: AeadSuite,
    key: Seq<u8>,
    dir: Direction,
    seq: u64,
    bound: Seq<u8>,
    plaintext: Seq<u8>,
) -> Seq<u8> {
    aead_seal(suite, key, nonce_of(dir, seq), aad_of(bound, dir, seq), plaintext)
}

/// The plaintext that a ciphertext authenticates to under a call key, if it does.
pub open spec fn opened_frame(
    suite: AeadSuite,
    key: Seq<u8>,
    dir: Direction,
    seq: u64,
    bound: Seq<u8>,
    sealed: Seq<u8>,
) -> Option<Seq<u8>> {
    aead_open(suite, key, nonce_of(dir, seq), aad_of(bound, dir, seq), sealed)
}

/// A frame is sealed and opened under the call's suite and key, with the nonce and the authenticated data
/// of its own direction and sequence.
pub proof fn law_frames_are_sealed_under_their_nonce(
    suite: AeadSuite,
    key: Seq<u8>,
    dir: Direction,
    seq: u64,
    bound: Seq<u8>,
    text: Seq<u8>,
)
    ensures
        suite is Aes256Gcm ==> sealed_frame(suite, key, dir, seq, bound, text) == aes256gcm_seal(
            key,
            nonce_of(dir, seq),
            aad_of(bound, dir, seq),
            text,
        ),
        suite is ChaCha20Poly1305 ==> sealed_frame(suite, key, dir, seq, bound, text) == chacha20poly1305_seal(
            key,
            nonce_of(dir, seq),
            aad_of(bound, dir, seq),
            text,
        ),
        suite is Aes256Gcm ==> opened_frame(suite, key, dir, seq, bound, text) == aes256gcm_open(
            key,
            nonce_of(dir, seq),
            aad_of(bound, dir, seq),
            text,
        ),
        suite is ChaCha20Poly1305 ==> opened_frame(suite, key, dir, seq, bound, text) == chacha20poly1305_open(
            key,
            nonce_of(dir, seq),
            aad_of(bound, dir, seq),
            text,
        ),
{
}

/// Per-call key context: the derived AEAD key, the send counter and the replay window of the
/// receiving direction. Created once per call by [`derive_call_keys`]. The key is overwritten
/// with zeroes when the context is dropped.
pub struct CallKeys {
    key: [u8; 32],
    suite: AeadSuite,
    send_seq: u64,
    replay: ReplayWindow,
}

/// What a [`CallKeys`] holds.
pub struct KeysView {
    pub key: Seq<u8>,
    pub suite: AeadSuite,
    pub next: u64,
    pub window: Window,
}

impl View for CallKeys {
    type V = KeysView;

    closed spec fn view(&self) -> KeysView {
        KeysView { key: self.key@, suite: self.suite, next: self.send_seq, window: self.replay@ }
    }
}

impl KeysView {
    /// The plaintext that a received frame authenticates to, if it does.
    pub open spec fn opens(self, dir: Direction, seq: u64, bound: Seq<u8>, sealed: Seq<u8>) -> Option<Seq<u8>> {
        opened_frame(self.suite, self.key, dir, seq, bound, sealed)
    }

    /// Whether a received frame is authentic and not a replay.
    pub open spec fn accepts(self, dir: Direction, seq: u64, bound: Seq<u8>, sealed: Seq<u8>) -> bool {
        self.opens(dir, seq, bound, sealed) is Some && self.window.fresh(seq)
    }

    /// The context once a frame was presented: only an authentic frame reaches the window.
    pub open spec fn after_open(self, dir: Direction, seq: u64, bound: Seq<u8>, sealed: Seq<u8>) -> KeysView {
        if self.opens(dir, seq, bound, sealed) is Some {
            KeysView { window: self.window.step(seq), ..self }
        } else {
            self
        }
    }
}

/// A frame is accepted exactly when it authenticates and its sequence is fresh. Presenting a frame
/// changes nothing but the window, and that only as a presented sequence does.
pub proof fn law_acceptance_needs_both(keys: KeysView, dir: Direction, seq: u64, bound: Seq<u8>, sealed: Seq<u8>)
    ensures
        ({
            let opened = opened_frame(keys.suite, keys.key, dir, seq, bound, sealed);
            let after = keys.after_open(dir, seq, bound, sealed);
            &&& keys.opens(dir, seq, bound, sealed) == opened
            &&& keys.accepts(dir, seq, bound, sealed) <==> opened is Some && keys.window.fresh(seq)
            &&& after.key == keys.key && after.suite == keys.suite && after.next == keys.next
            &&& opened is Some ==> after.window == keys.window.step(seq)
            &&& opened is None ==> after.window == keys.window
        }),
{
}

/// A frame that does not authenticate leaves the replay window as it was, so a forged sequence
/// number cannot make the window reject a genuine frame.
pub proof fn law_forged_frame_leaves_window(
    keys: KeysView,
    dir: Direction,
    seq: u64,
    bound: Seq<u8>,
    sealed: Seq<u8>,
)
    requires
        keys.opens(dir, seq, bound, sealed) is None,
    ensures
        !keys.accepts(dir, seq, bound, sealed),
        keys.after_open(dir, seq, bound, sealed) == keys,
{
}

/// A frame as it is presented for opening: its sequence, the bytes bound to it, and its ciphertext.
pub type Presented = (u64, Seq<u8>, Seq<u8>);

impl KeysView {
    /// The context once a history of frames was presented, oldest first.
    pub open spec fn after_all(self, dir: Direction, frames: Seq<Presented>) -> KeysView
        decreases frames.len(),
    {
        if frames.len() == 0 {
            self
        } else {
            let (seq, bound, sealed) = frames.last();
            self.after_all(dir, frames.drop_last()).after_open(dir, seq, bound, sealed)
        }
    }
}

proof fn lemma_blocked_stays_blocked(keys: KeysView, dir: Direction, seq: u64, frames: Seq<Presented>)
    requires
        keys.window.blocks(seq),
    ensures
        keys.after_all(dir, frames).window.blocks(seq),
    decreases frames.len(),
{
    if frames.len() > 0 {
        lemma_blocked_stays_blocked(keys, dir, seq, frames.drop_last());
        lemma_step_keeps_blocked(keys.after_all(dir, frames.drop_last()).window, seq, frames.last().0);
    }
}

/// Once a frame was accepted, no frame with its sequence is ever accepted again, whatever was
/// presented in between.
pub proof fn law_replayed_frame_is_rejected(
    keys: KeysView,
    dir: Direction,
    seq: u64,
    bound: Seq<u8>,
    sealed: Seq<u8>,
    between: Seq<Presented>,
    bound2: Seq<u8>,
    sealed2: Seq<u8>,
)
    requires
        keys.accepts(dir, seq, bound, sealed),
    ensures
        !keys.after_open(dir, seq, bound, sealed).after_all(dir, between).accepts(dir, seq, bound2, sealed2),
{
    let after = keys.after_open(dir, seq, bound, sealed);
    lemma_step_blocks(keys.window, seq);
    lemma_blocked_stays_blocked(after, dir, seq, between);
    lemma_step_keeps_blocked(after.after_all(dir, between).window, seq, seq);
}

/// The sequences handed out by a counter that starts at `start` repeat only after 2^64 of them,
/// so within one call no nonce of a direction is used twice.
pub proof fn law_sequences_do_not_repeat(start: u64, i: nat, j: nat, dir: Direction)
    requires
        i < j < 0x1_0000_0000_0000_0000,
    ensures
        nth_seq(start, i) != nth_seq(start, j),
        nonce_of(dir, nth_seq(start, i)) != nonce_of(dir, nth_seq(start, j)),
{
    if nonce_of(dir, nth_seq(start, i)) == nonce_of(dir, nth_seq(start, j)) {
        law_nonces_are_distinct(dir, nth_seq(start, i), dir, nth_seq(start, j));
    }
}

/// The sequence that follows `seq`.
pub open spec fn seq_after(seq: u64) -> u64 {
    if seq == u64::MAX {
        0
    } else {
        (seq + 1) as u64
    }
}

/// The `n`-th sequence handed out by a counter that starts at `start`.
pub open spec fn nth_seq(start: u64, n: nat) -> u64 {
    ((start + n) % 0x1_0000_0000_0000_0000) as u64
}

/// Counting on from the `n`-th sequence gives the next one.
pub proof fn law_nth_seq_counts_on(start: u64, n: nat)
    ensures
        nth_seq(start, 0) == start,
        nth_seq(start, n + 1) == seq_after(nth_seq(start, n)),
        start + n <= u64::MAX ==> nth_seq(start, n) == start + n,
        start < u64::MAX ==> seq_after(start) == start + 1,
        seq_after(u64::MAX) == 0,
{
}

impl CallKeys {
    /// Seal `plaintext` for transmission in `dir` at sequence `seq`.
    ///
    /// `aad_bound` is authenticated but not encrypted, and so are the direction and the sequence.
    /// What comes out opens, under the same key, direction, sequence and `aad_bound`, to
    /// `plaintext`.
    pub fn seal(&self, dir: Direction, seq: u64, aad_bound: &[u8], plaintext: &[u8]) -> (sealed: Vec<u8>)
        requires
            sealable(self@.suite, aad_bound@.len() + 12, plaintext@.len()),
        ensures
            sealed@ == sealed_frame(self@.suite, self@.key, dir, seq, aad_bound@, plaintext@),
            sealed@.len() == plaintext@.len() + 16,
            self@.opens(dir, seq, aad_bound@, sealed@) == Some(plaintext@),
            aead_open(
                self@.suite,
                self@.key,
                nonce_of(dir, seq),
                aad_bound@ + nonce_of(dir, seq),
                sealed@,
            ) == Some(plaintext@),
    {
        let nonce = make_nonce(dir, seq);
        let aad = make_aad(aad_bound, dir, seq);
        proof {
            lemma_be_len(seq as nat, 8);
            law_nonce_layout(dir, seq, aad_bound@);
        }
        aead_encrypt(self.suite, &self.key, &nonce, aad.as_slice(), plaintext)
    }

    /// Open a sealed frame received in `dir` at sequence `seq`: its plaintext, or
    /// [`Error::AuthFailed`] on a bad tag or a replay.
    ///
    /// Authentication comes before the window is advanced, so a frame with a forged sequence
    /// number does not touch the replay state.
    pub fn open(&mut self, dir: Direction, seq: u64, aad_bound: &[u8], ciphertext: &[u8]) -> (r: Result<Vec<u8>>)
        requires
            openable(old(self)@.suite, ciphertext@.len()),
        ensures
            final(self)@ == old(self)@.after_open(dir, seq, aad_bound@, ciphertext@),
            r is Ok <==> old(self)@.accepts(dir, seq, aad_bound@, ciphertext@),
            r matches Ok(plaintext) ==> old(self)@.opens(dir, seq, aad_bound@, ciphertext@) == Some(plaintext@),
            r matches Err(e) ==> e == Error::AuthFailed,
    {
        let nonce = make_nonce(dir, seq);
        let aad = make_aad(aad_bound, dir, seq);
        match aead_decrypt(self.suite, &self.key, &nonce, aad.as_slice(), ciphertext) {
            None => Err(Error::AuthFailed),
            Some(plaintext) => {
                if self.replay.check_and_set(seq) {
                    Ok(plaintext)
                } else {
                    Err(Error::AuthFailed)
                }
            },
        }
    }

    /// Allocate and return the next outbound sequence for the sending direction.
    pub fn next_seq(&mut self) -> (seq: u64)
        ensures
            seq == old(self)@.next,
            final(self)@ == (KeysView { next: seq_after(seq), ..old(self)@ }),
    {
        let seq: u64 = self.send_seq;
        self.send_seq = self.send_seq.wrapping_add(1);
        seq
    }

    /// The negotiated suite for this call.
    pub fn suite(&self) -> (suite: AeadSuite)
        ensures
            suite == self@.suite,
    {
        self.suite
    }

    /// Overwrite the key with zeroes.
    pub fn wipe(&mut self)
        ensures
            final(self)@ == (KeysView { key: zeroes(), ..old(self)@ }),
        opens_invariants none
        no_unwind
    {
        wipe_32(&mut self.key);
    }
}

impl Drop for CallKeys {
    fn drop(&mut self)
        ensures
            final(self)@ == (KeysView { key: zeroes(), ..old(self)@ }),
        opens_invariants none
        no_unwind
    {
        self.wipe();
    }
}

/// Derive the per-call key context once from the PSK and both HELLO nonces.
///
/// The salt is `my_nonce` and then `peer_nonce`. Both peers reach the same key by passing the
/// caller's nonce first, whichever side they are on.
pub fn derive_call_keys(psk: &Psk, my_nonce: &CallNonce, peer_nonce: &CallNonce, suite: AeadSuite) -> (keys: CallKeys)
    ensures
        keys@.key == call_key(psk@, my_nonce@, peer_nonce@),
        keys@.suite == suite,
        keys@.next == 0,
        keys@.window == Window::empty(),
        keys@.key == hkdf_sha256(
            my_nonce.0@ + peer_nonce.0@,
            psk.0@,
            vstd::utf8::encode_utf8("terminalphone/v2 call-key"@),
        ),
        keys@.window.top is None,
{
    let mut salt: Vec<u8> = Vec::new();
    put_slice(&mut salt, my_nonce.0.as_slice());
    put_slice(&mut salt, peer_nonce.0.as_slice());
    assert(salt@ =~= my_nonce@ + peer_nonce@);
    let key = hkdf_sha256_32(salt.as_slice(), psk.0.as_slice(), CALL_KEY_INFO.as_bytes());
    wipe_vec(&mut salt);
    CallKeys { key, suite, send_seq: 0, replay: ReplayWindow::new() }
}

} // verus!
