//! The call: roles, lifecycle, and what each frame or local event makes the call do.

use vstd::prelude::*;
use vstd::utf8::*;

use crate::aead::{aead_open, openable, sealable};
use crate::audio::OpusFrame;
use crate::bytes::{be_bytes, lemma_be_len};
use crate::config::{joined, Config};
use crate::crypto::{
    aad_of, call_key, law_nonces_are_distinct, law_nth_seq_counts_on, nonce_of, nth_seq, opened_frame, sealed_frame, seq_after,
    AeadSuite, CallKeys, CallNonce, Direction, KeysView, Psk,
};
use crate::error::{Error, ErrorView, Result};
use crate::proto::{
    encode_seq_payload, first_frame, frames_in, handshake_callee, handshake_caller, handshake_outcome,
    law_frame_round_trips, law_seq_is_split_off, law_stream_round_trips, split_seq, split_seq_payload, stream_of, Frame, FrameType, FrameView,
    Hello, HelloView, PeerInfo, MAX_FRAME_LEN,
};
use crate::replay::{law_fresh_in_window_is_accepted, lemma_step_blocks, lemma_step_keeps_blocked, Window};
use crate::text::{lemma_lossy_round_trip, lossy_text, text_from_utf8_lossy};
use crate::transport::{check_hosting, hosting_refusal, Identity, OnionAddr};

verus! {

/// The call lifecycle.
#[derive(Debug, Clone, Copy, PartialEq, Eq, Structural)]
pub enum AppState {
    /// No call.
    Idle,
    /// Onion service launched, awaiting an inbound caller.
    Hosting,
    /// Dialing a remote onion, awaiting connect and handshake.
    Dialing,
    /// Handshake complete; live half-duplex call.
    InCall,
    /// Tearing down.
    Hangup,
}

/// What the user asked the program to do this run.
#[derive(Debug, Clone)]
pub enum Command {
    /// Host an onion service and wait for a caller.
    Host,
    /// Dial the given remote onion.
    Dial(OnionAddr),
}

/// Which side of the handshake this peer plays.
#[derive(Debug, Clone, Copy, PartialEq, Eq, Structural)]
pub enum Role {
    /// We dialed out.
    Caller,
    /// We accepted an inbound call.
    Callee,
}

impl Role {
    /// The direction of the frames that this role sends.
    pub open spec fn sends(self) -> Direction {
        match self {
            Role::Caller => Direction::CallerToCallee,
            Role::Callee => Direction::CalleeToCaller,
        }
    }

    /// The direction of the frames that this role receives.
    pub open spec fn receives(self) -> Direction {
        match self {
            Role::Caller => Direction::CalleeToCaller,
            Role::Callee => Direction::CallerToCallee,
        }
    }

    /// The other side.
    pub open spec fn peer(self) -> Role {
        match self {
            Role::Caller => Role::Callee,
            Role::Callee => Role::Caller,
        }
    }

    /// The direction tag we use when sealing outbound frames.
    pub fn send_dir(self) -> (d: Direction)
        ensures
            d == self.sends(),
            d is CallerToCallee <==> self is Caller,
    {
        match self {
            Role::Caller => Direction::CallerToCallee,
            Role::Callee => Direction::CalleeToCaller,
        }
    }

    /// The direction tag we use when opening inbound frames.
    pub fn recv_dir(self) -> (d: Direction)
        ensures
            d == self.receives(),
            d is CallerToCallee <==> self is Callee,
    {
        match self {
            Role::Caller => Direction::CalleeToCaller,
            Role::Callee => Direction::CallerToCallee,
        }
    }

    /// Whether this side sends its HELLO before it reads the peer's.
    pub fn speaks_first(self) -> (r: bool)
        ensures
            r == (self is Caller),
    {
        match self {
            Role::Caller => true,
            Role::Callee => false,
        }
    }
}

/// What one side sends in is what the other side receives in, and never what it sends in itself.
pub proof fn law_directions_mirror(role: Role)
    ensures
        role.sends() == role.peer().receives(),
        role.receives() == role.peer().sends(),
        role.sends() != role.receives(),
        role.peer() != role,
        role is Caller <==> role.sends() is CallerToCallee,
        role is Caller <==> role.receives() is CalleeToCaller,
{
}

/// The key that a call between two HELLOs has, seen from one side.
pub open spec fn key_for(role: Role, psk: Seq<u8>, my: HelloView, peer: HelloView) -> Seq<u8> {
    match role {
        Role::Caller => call_key(psk, my.nonce, peer.nonce),
        Role::Callee => call_key(psk, peer.nonce, my.nonce),
    }
}

/// Complete the handshake for `role` from the two HELLOs that were exchanged.
pub fn run_handshake(psk: &Psk, my_hello: &Hello, peer_hello: &Hello, role: Role) -> (r: Result<(CallKeys, PeerInfo)>)
    ensures
        handshake_outcome(r, my_hello@, peer_hello@, key_for(role, psk@, my_hello@, peer_hello@)),
        r is Ok <==> my_hello.suite == peer_hello.suite,
        r matches Ok((keys, _)) ==> role is Caller ==> keys@.key == call_key(
            psk.0@,
            my_hello.nonce.0@,
            peer_hello.nonce.0@,
        ),
        r matches Ok((keys, _)) ==> role is Callee ==> keys@.key == call_key(
            psk.0@,
            peer_hello.nonce.0@,
            my_hello.nonce.0@,
        ),
        r matches Ok((keys, _)) ==> keys@.suite == my_hello.suite && keys@.next == 0 && keys@.window.top is None,
        r matches Ok((_, peer)) ==> peer.onion.0@ == peer_hello.onion.0@ && peer.suite == peer_hello.suite,
        r matches Ok((_, peer)) ==> peer.opus.sample_rate == peer_hello.opus.sample_rate && peer.opus.channels
            == peer_hello.opus.channels,
        r matches Ok((_, peer)) ==> peer.opus.bitrate == peer_hello.opus.bitrate && peer.opus.frame_ms
            == peer_hello.opus.frame_ms,
        r matches Err(e) ==> e == (Error::CipherMismatch { local: my_hello.suite, peer: peer_hello.suite }),
{
    match role {
        Role::Caller => handshake_caller(psk, my_hello, peer_hello),
        Role::Callee => handshake_callee(psk, my_hello, peer_hello),
    }
}

/// The address announced when none is published yet.
pub open spec fn unknown_onion() -> Seq<char> {
    "unknown.onion"@
}

/// The address that a published address, if any, announces.
pub open spec fn announced(onion: Option<OnionAddr>) -> Seq<char> {
    match onion {
        Some(o) => o@,
        None => unknown_onion(),
    }
}

/// Our own address as shown to the user.
pub fn local_onion(onion: Option<OnionAddr>) -> (s: String)
    ensures
        s@ == announced(onion),
        onion matches Some(o) ==> s@ == o.0@,
        onion is None ==> s@ == "unknown.onion"@,
{
    match onion {
        Some(o) => o.0.clone(),
        None => "unknown.onion".to_owned(),
    }
}

/// The running application: configuration, the PSK, and the lifecycle position.
pub struct App {
    cfg: Config,
    psk: Psk,
    state: AppState,
}

impl App {
    /// The configuration.
    pub closed spec fn config_view(&self) -> Config {
        self.cfg
    }

    /// The secret.
    pub closed spec fn psk_view(&self) -> Seq<u8> {
        self.psk@
    }

    /// The lifecycle position.
    pub closed spec fn state_view(&self) -> AppState {
        self.state
    }

    /// Whether only the lifecycle position differs from `before`.
    pub open spec fn moved_to(&self, before: &App, state: AppState) -> bool {
        &&& self.state_view() == state
        &&& self.config_view() == before.config_view()
        &&& self.psk_view() == before.psk_view()
    }

    /// Construct from loaded configuration and PSK; starts in [`AppState::Idle`].
    pub fn new(cfg: Config, psk: Psk) -> (app: App)
        ensures
            app.config_view() == cfg,
            app.psk_view() == psk@,
            app.state_view() == AppState::Idle,
    {
        App { cfg, psk, state: AppState::Idle }
    }

    /// The lifecycle position.
    pub fn state(&self) -> (s: &AppState)
        ensures
            *s == self.state_view(),
    {
        &self.state
    }

    /// The loaded configuration.
    pub fn config(&self) -> (c: &Config)
        ensures
            *c == self.config_view(),
    {
        &self.cfg
    }

    /// The secret of this run.
    pub fn psk(&self) -> (p: &Psk)
        ensures
            p@ == self.psk_view(),
    {
        &self.psk
    }

    /// The identity under which this run hosts.
    pub fn identity(&self) -> (id: Identity)
        ensures
            id.key_dir@ == joined(self.config_view().data_dir@, "identity"@),
            id.nickname@ == "terminalphone"@,
    {
        Identity { key_dir: self.cfg.identity_dir(), nickname: "terminalphone".to_owned() }
    }

    /// Start on `cmd`: host as the callee or dial as the caller. Hosting is refused in the posture
    /// that would reveal the host's address.
    pub fn start(&mut self, cmd: &Command) -> (r: Result<Role>)
        ensures
            cmd is Host ==> final(self).moved_to(old(self), AppState::Hosting),
            cmd is Dial ==> final(self).moved_to(old(self), AppState::Dialing),
            final(self).state_view() == (if cmd is Host {
                AppState::Hosting
            } else {
                AppState::Dialing
            }),
            final(self).config_view() == old(self).config_view(),
            final(self).psk_view() == old(self).psk_view(),
            r is Err <==> cmd is Host && old(self).config_view().speed_mode is SingleHopService,
            r matches Ok(role) ==> role == (if cmd is Host {
                Role::Callee
            } else {
                Role::Caller
            }),
            r matches Err(e) ==> e@ == ErrorView::Transport(hosting_refusal()),
    {
        match cmd {
            Command::Host => {
                self.state = AppState::Hosting;
                match check_hosting(self.cfg.speed_mode) {
                    Ok(()) => Ok(Role::Callee),
                    Err(e) => Err(e),
                }
            },
            Command::Dial(_) => {
                self.state = AppState::Dialing;
                Ok(Role::Caller)
            },
        }
    }

    /// The handshake is complete.
    pub fn established(&mut self)
        ensures
            final(self).moved_to(old(self), AppState::InCall),
            final(self).state_view() == AppState::InCall,
            final(self).config_view() == old(self).config_view(),
            final(self).psk_view() == old(self).psk_view(),
    {
        self.state = AppState::InCall;
    }

    /// The call is over.
    pub fn ended(&mut self)
        ensures
            final(self).moved_to(old(self), AppState::Hangup),
            final(self).state_view() == AppState::Hangup,
            final(self).config_view() == old(self).config_view(),
            final(self).psk_view() == old(self).psk_view(),
    {
        self.state = AppState::Hangup;
    }

    /// Build our HELLO from the configuration, the published address (if any) and a fresh nonce.
    pub fn build_hello(&self, onion: Option<OnionAddr>, nonce: CallNonce) -> (h: Hello)
        ensures
            h@.onion == announced(onion),
            h@.suite == self.config_view().aead_suite,
            h@.opus == self.config_view().opus,
            h@.nonce == nonce@,
            onion matches Some(o) ==> h.onion.0@ == o.0@,
            onion is None ==> h.onion.0@ == "unknown.onion"@,
            h.suite == self.config_view().aead_suite,
            h.opus == self.config_view().opus,
            h.nonce.0@ == nonce.0@,
    {
        Hello { onion: OnionAddr(local_onion(onion)), suite: self.cfg.aead_suite, opus: self.cfg.opus, nonce }
    }
}

/// Events the call core surfaces to the UI.
#[derive(Debug, Clone, Copy, PartialEq, Eq, Structural)]
pub enum CallEvent {
    /// The peer started (`true`) or stopped (`false`) transmitting.
    RemotePtt(bool),
}

/// Byte counters of a call.
#[derive(Debug, Clone, Copy, PartialEq, Eq, Structural)]
pub struct CallStats {
    /// Bytes written to the wire, headers and payloads.
    pub bytes_sent: u64,
    /// Bytes read from the wire.
    pub bytes_recv: u64,
}

impl Default for CallStats {
    fn default() -> (s: CallStats)
        ensures
            s.bytes_sent == 0,
            s.bytes_recv == 0,
    {
        CallStats { bytes_sent: 0, bytes_recv: 0 }
    }
}

/// A counter moved on by `n`, modulo 2^64.
pub open spec fn counted(before: u64, n: nat) -> u64 {
    ((before + n) % 0x1_0000_0000_0000_0000) as u64
}

impl CallStats {
    /// Credit a written frame.
    pub fn sent(&mut self, frame: &Frame)
        requires
            frame@.payload().len() + 6 <= u64::MAX,
        ensures
            final(self).bytes_sent == counted(old(self).bytes_sent, frame@.payload().len() + 6),
            final(self).bytes_recv == old(self).bytes_recv,
            old(self).bytes_sent + frame@.payload().len() + 6 <= u64::MAX ==> final(self).bytes_sent
                == old(self).bytes_sent + frame@.payload().len() + 6,
    {
        self.bytes_sent = self.bytes_sent.wrapping_add(frame.wire_len());
    }

    /// Credit a frame that was read.
    pub fn received(&mut self, frame: &Frame)
        requires
            frame@.payload().len() + 6 <= u64::MAX,
        ensures
            final(self).bytes_recv == counted(old(self).bytes_recv, frame@.payload().len() + 6),
            final(self).bytes_sent == old(self).bytes_sent,
            old(self).bytes_recv + frame@.payload().len() + 6 <= u64::MAX ==> final(self).bytes_recv
                == old(self).bytes_recv + frame@.payload().len() + 6,
    {
        self.bytes_recv = self.bytes_recv.wrapping_add(frame.wire_len());
    }
}

/// What a received frame asks for.
#[derive(Debug, Clone)]
pub enum Inbound {
    /// Decode and play this audio.
    Audio(OpusFrame),
    /// Show this text.
    Text(String),
    /// Tell the UI.
    Event(CallEvent),
    /// Answer with a PONG.
    Pong,
    /// The peer hung up; the call is over.
    End,
    /// Nothing: the frame was not authentic, was a replay, or needs no action.
    Nothing,
}

/// What an [`Inbound`] holds.
pub enum InboundView {
    Audio(Seq<u8>),
    Text(Seq<char>),
    Event(CallEvent),
    Pong,
    End,
    Nothing,
}

impl View for Inbound {
    type V = InboundView;

    open spec fn view(&self) -> InboundView {
        match *self {
            Inbound::Audio(f) => InboundView::Audio(f.data@),
            Inbound::Text(s) => InboundView::Text(s@),
            Inbound::Event(e) => InboundView::Event(e),
            Inbound::Pong => InboundView::Pong,
            Inbound::End => InboundView::End,
            Inbound::Nothing => InboundView::Nothing,
        }
    }
}

/// The bytes that bind a frame's type into its authentication.
pub open spec fn type_tag(ty: FrameType) -> Seq<u8> {
    seq![ty.byte()]
}

/// The sequence and ciphertext of a sealed frame, if it has them: of audio and text as they stand,
/// of a control frame from the front of its payload.
pub open spec fn sealed_parts(f: FrameView) -> Option<(u64, Seq<u8>)> {
    match f {
        FrameView::Hello(_) => None,
        FrameView::Audio { seq, sealed } => Some((seq, sealed)),
        FrameView::Msg { seq, sealed } => Some((seq, sealed)),
        FrameView::PttStart { sealed } => split_seq(sealed),
        FrameView::PttStop { sealed } => split_seq(sealed),
        FrameView::Ping { sealed } => split_seq(sealed),
        FrameView::Pong { sealed } => split_seq(sealed),
        FrameView::Hangup { sealed } => split_seq(sealed),
        FrameView::Cipher { .. } => None,
    }
}

/// What an authentic frame of the given type, with the given plaintext, asks for.
pub open spec fn request_of(ty: FrameType, plaintext: Seq<u8>) -> InboundView {
    match ty {
        FrameType::Audio => InboundView::Audio(plaintext),
        FrameType::Msg => InboundView::Text(lossy_text(plaintext)),
        FrameType::PttStart => InboundView::Event(CallEvent::RemotePtt(true)),
        FrameType::PttStop => InboundView::Event(CallEvent::RemotePtt(false)),
        FrameType::Ping => InboundView::Pong,
        FrameType::Hangup => InboundView::End,
        _ => InboundView::Nothing,
    }
}

/// What a received frame asks for. One that is not authentic, is a replay, or has no sequence asks
/// for nothing.
pub open spec fn requested(keys: KeysView, dir: Direction, f: FrameView) -> InboundView {
    match sealed_parts(f) {
        None => InboundView::Nothing,
        Some((seq, sealed)) => match keys.opens(dir, seq, type_tag(f.ty()), sealed) {
            Some(plaintext) if keys.window.fresh(seq) => request_of(f.ty(), plaintext),
            _ => InboundView::Nothing,
        },
    }
}

/// An authentic and fresh frame asks for what its type says: audio to be played as it was sealed, text to
/// be shown, the peer's talking to be told, a ping to be answered, a hangup to end the call. Nothing else
/// asks for anything.
pub proof fn law_frames_ask_for_what_they_are(keys: KeysView, dir: Direction, f: FrameView)
    ensures
        ({
            let what = requested(keys, dir, f);
            &&& f matches FrameView::Audio { seq, sealed } ==> keys.window.fresh(seq) ==> (aead_open(
                keys.suite,
                keys.key,
                nonce_of(dir, seq),
                aad_of(seq![2u8], dir, seq),
                sealed,
            ) matches Some(p) ==> what == InboundView::Audio(p))
            &&& f matches FrameView::Msg { seq, sealed } ==> keys.window.fresh(seq) ==> (aead_open(
                keys.suite,
                keys.key,
                nonce_of(dir, seq),
                aad_of(seq![3u8], dir, seq),
                sealed,
            ) matches Some(p) ==> what == InboundView::Text(lossy_text(p)))
            &&& what is Audio ==> f is Audio
            &&& what is Text ==> f is Msg
            &&& what == InboundView::Event(CallEvent::RemotePtt(true)) ==> f is PttStart
            &&& what == InboundView::Event(CallEvent::RemotePtt(false)) ==> f is PttStop
            &&& what is Pong ==> f is Ping
            &&& what is End ==> f is Hangup
            &&& f is Hello || f is Cipher || f is Pong ==> what is Nothing
        }),
{
    assert(type_tag(FrameType::Audio) =~= seq![2u8]);
    assert(type_tag(FrameType::Msg) =~= seq![3u8]);
}

/// A control frame carries its sequence in front of its ciphertext, and its type is bound into its
/// authentication; if it is authentic and fresh, it does what its type says.
pub proof fn law_control_frames_are_heard(keys: KeysView, dir: Direction, seq: u64, sealed: Seq<u8>)
    requires
        keys.window.fresh(seq),
    ensures
        ({
            let body = be_bytes(seq as nat, 8) + sealed;
            &&& aead_open(keys.suite, keys.key, nonce_of(dir, seq), aad_of(seq![4u8], dir, seq), sealed) is Some
                ==> requested(keys, dir, FrameView::PttStart { sealed: body }) == InboundView::Event(
                CallEvent::RemotePtt(true),
            )
            &&& aead_open(keys.suite, keys.key, nonce_of(dir, seq), aad_of(seq![5u8], dir, seq), sealed) is Some
                ==> requested(keys, dir, FrameView::PttStop { sealed: body }) == InboundView::Event(
                CallEvent::RemotePtt(false),
            )
            &&& aead_open(keys.suite, keys.key, nonce_of(dir, seq), aad_of(seq![6u8], dir, seq), sealed) is Some
                ==> requested(keys, dir, FrameView::Ping { sealed: body }) == InboundView::Pong
            &&& aead_open(keys.suite, keys.key, nonce_of(dir, seq), aad_of(seq![8u8], dir, seq), sealed) is Some
                ==> requested(keys, dir, FrameView::Hangup { sealed: body }) == InboundView::End
        }),
{
    law_seq_is_split_off(seq, sealed);
    assert(type_tag(FrameType::PttStart) =~= seq![4u8]);
    assert(type_tag(FrameType::PttStop) =~= seq![5u8]);
    assert(type_tag(FrameType::Ping) =~= seq![6u8]);
    assert(type_tag(FrameType::Hangup) =~= seq![8u8]);
}

/// Receiving changes nothing but the replay window: key, suite and our own counter stay. A frame that
/// asks for something takes its sequence out of the window.
pub proof fn law_receiving_keeps_the_keys(keys: KeysView, dir: Direction, f: FrameView)
    ensures
        keys_after(keys, dir, f).key == keys.key,
        keys_after(keys, dir, f).suite == keys.suite,
        keys_after(keys, dir, f).next == keys.next,
        !(requested(keys, dir, f) is Nothing) ==> requested(keys_after(keys, dir, f), dir, f) is Nothing,
{
    if let Some((seq, sealed)) = sealed_parts(f) {
        if keys.window.fresh(seq) {
            lemma_step_blocks(keys.window, seq);
            lemma_step_keeps_blocked(keys.window.step(seq), seq, seq);
        }
    }
}

/// The keys once a frame was received.
pub open spec fn keys_after(keys: KeysView, dir: Direction, f: FrameView) -> KeysView {
    match sealed_parts(f) {
        None => keys,
        Some((seq, sealed)) => keys.after_open(dir, seq, type_tag(f.ty()), sealed),
    }
}

/// Every sealed frame is checked: it is presented to the keys under its own sequence and type, whatever
/// it would ask for. A HELLO and a renegotiation request are not, and change nothing; nor does a control
/// frame too short for its sequence.
pub proof fn law_every_sealed_frame_is_checked(keys: KeysView, dir: Direction, ty: FrameType, seq: u64, sealed: Seq<u8>)
    ensures
        !(ty is Hello) && !(ty is Cipher) ==> keys_after(keys, dir, frame_with(ty, seq, sealed)) == keys.after_open(
            dir,
            seq,
            seq![ty.byte()],
            sealed,
        ),
        keys_after(keys, dir, FrameView::Cipher { sealed }) == keys,
        sealed.len() < 8 ==> keys_after(keys, dir, FrameView::Hangup { sealed }) == keys && requested(
            keys,
            dir,
            FrameView::Hangup { sealed },
        ) is Nothing,
        sealed.len() < 8 ==> keys_after(keys, dir, FrameView::PttStart { sealed }) == keys && keys_after(
            keys,
            dir,
            FrameView::PttStop { sealed },
        ) == keys,
        sealed.len() < 8 ==> keys_after(keys, dir, FrameView::Ping { sealed }) == keys && keys_after(
            keys,
            dir,
            FrameView::Pong { sealed },
        ) == keys,
{
    if !(ty is Hello) {
        law_sealed_frames_carry_their_sequence(ty, seq, sealed);
    }
}

/// Whether the frame's ciphertext has a length that the suite can be asked to open.
pub open spec fn receivable(suite: AeadSuite, f: FrameView) -> bool {
    sealed_parts(f) matches Some((_, sealed)) ==> openable(suite, sealed.len())
}

/// Any frame that came off the wire is receivable.
pub proof fn law_wire_frames_are_receivable(suite: AeadSuite, f: FrameView)
    requires
        f.payload().len() <= MAX_FRAME_LEN,
    ensures
        receivable(suite, f),
{
    match f {
        FrameView::Audio { seq, sealed } => {
            lemma_be_len(seq as nat, 8);
        },
        FrameView::Msg { seq, sealed } => {
            lemma_be_len(seq as nat, 8);
        },
        _ => {},
    }
}

fn open_typed(keys: &mut CallKeys, dir: Direction, ty: FrameType, seq: u64, sealed: &Vec<u8>) -> (r: Option<Vec<u8>>)
    requires
        openable(old(keys)@.suite, sealed@.len()),
    ensures
        final(keys)@ == old(keys)@.after_open(dir, seq, type_tag(ty), sealed@),
        r is Some <==> old(keys)@.accepts(dir, seq, type_tag(ty), sealed@),
        r matches Some(p) ==> old(keys)@.opens(dir, seq, type_tag(ty), sealed@) == Some(p@),
{
    let tag: [u8; 1] = [ty.to_u8()];
    assert(tag@ =~= type_tag(ty));
    match keys.open(dir, seq, tag.as_slice(), sealed.as_slice()) {
        Ok(p) => Some(p),
        Err(_) => None,
    }
}

/// Open a control frame: whether it is authentic and fresh.
fn open_control(keys: &mut CallKeys, dir: Direction, ty: FrameType, payload: &Vec<u8>) -> (r: bool)
    requires
        split_seq(payload@) matches Some((_, sealed)) ==> openable(old(keys)@.suite, sealed.len()),
    ensures
        split_seq(payload@) is None ==> !r && final(keys)@ == old(keys)@,
        split_seq(payload@) matches Some((seq, sealed)) ==> {
            &&& r == old(keys)@.accepts(dir, seq, type_tag(ty), sealed)
            &&& final(keys)@ == old(keys)@.after_open(dir, seq, type_tag(ty), sealed)
        },
{
    match split_seq_payload(payload.as_slice()) {
        None => false,
        Some((seq, sealed)) => open_typed(keys, dir, ty, seq, &sealed).is_some(),
    }
}

/// Take one frame that was received in `dir`: authenticate it, check it for replay, and say what
/// it asks for. Every frame but a HELLO and a renegotiation request is opened; one that does not
/// open is dropped, and the call goes on. A HELLO after the handshake is a protocol violation.
pub fn on_frame(keys: &mut CallKeys, dir: Direction, frame: Frame) -> (r: Result<Inbound>)
    requires
        receivable(old(keys)@.suite, frame@),
    ensures
        final(keys)@ == keys_after(old(keys)@, dir, frame@),
        frame is Hello <==> r is Err,
        r matches Ok(inbound) ==> inbound@ == requested(old(keys)@, dir, frame@),
        r matches Err(e) ==> e@ == ErrorView::Proto("unexpected HELLO after handshake"@),
        r matches Ok(Inbound::Audio(_)) ==> frame is Audio,
        r matches Ok(Inbound::Text(_)) ==> frame is Msg,
        r matches Ok(Inbound::Event(CallEvent::RemotePtt(on))) ==> if on {
            frame is PttStart
        } else {
            frame is PttStop
        },
        r matches Ok(Inbound::Pong) ==> frame is Ping,
        r matches Ok(Inbound::End) ==> frame is Hangup,
{
    match frame {
        Frame::Hello(_) => Err(Error::Proto("unexpected HELLO after handshake".to_owned())),
        Frame::Audio { seq, sealed } => match open_typed(keys, dir, FrameType::Audio, seq, &sealed) {
            Some(p) => Ok(Inbound::Audio(OpusFrame { data: p })),
            None => Ok(Inbound::Nothing),
        },
        Frame::Msg { seq, sealed } => match open_typed(keys, dir, FrameType::Msg, seq, &sealed) {
            Some(p) => Ok(Inbound::Text(text_from_utf8_lossy(p.as_slice()))),
            None => Ok(Inbound::Nothing),
        },
        Frame::Ping { sealed } => if open_control(keys, dir, FrameType::Ping, &sealed) {
            Ok(Inbound::Pong)
        } else {
            Ok(Inbound::Nothing)
        },
        Frame::Hangup { sealed } => if open_control(keys, dir, FrameType::Hangup, &sealed) {
            Ok(Inbound::End)
        } else {
            Ok(Inbound::Nothing)
        },
        Frame::PttStart { sealed } => if open_control(keys, dir, FrameType::PttStart, &sealed) {
            Ok(Inbound::Event(CallEvent::RemotePtt(true)))
        } else {
            Ok(Inbound::Nothing)
        },
        Frame::PttStop { sealed } => if open_control(keys, dir, FrameType::PttStop, &sealed) {
            Ok(Inbound::Event(CallEvent::RemotePtt(false)))
        } else {
            Ok(Inbound::Nothing)
        },
        Frame::Pong { sealed } => {
            let _ = open_control(keys, dir, FrameType::Pong, &sealed);
            Ok(Inbound::Nothing)
        },
        Frame::Cipher { .. } => Ok(Inbound::Nothing),
    }
}

/// What a failed read means for the call: a clean close or broken I/O ends it like a hangup, any
/// other error is the call's own.
pub fn on_read_error(e: Error) -> (r: Result<()>)
    ensures
        r is Ok <==> e is Closed || e is Io,
        r matches Err(out) ==> out == e,
{
    match e {
        Error::Closed => Ok(()),
        Error::Io(_) => Ok(()),
        other => Err(other),
    }
}

/// Something that the sending side reacts to.
#[derive(Debug, Clone)]
pub enum SendEvent {
    /// The user asked to hang up.
    HangupRequested,
    /// An encoded frame to send.
    Audio(OpusFrame),
    /// The source of audio is gone.
    AudioClosed,
    /// A text message to send.
    Text(String),
    /// The source of text is gone.
    TextClosed,
    /// The user started (`true`) or stopped (`false`) talking.
    Ptt(bool),
    /// The source of talk transitions is gone.
    PttClosed,
    /// The peer pinged.
    PongDue,
    /// Nothing was sent for a while.
    KeepaliveDue,
}

impl SendEvent {
    /// The type and plaintext of the frame that the event calls for, if it calls for one.
    pub open spec fn message(&self) -> Option<(FrameType, Seq<u8>)> {
        match *self {
            SendEvent::HangupRequested => Some((FrameType::Hangup, Seq::empty())),
            SendEvent::Audio(f) => Some((FrameType::Audio, f.data@)),
            SendEvent::AudioClosed => Some((FrameType::Hangup, Seq::empty())),
            SendEvent::Text(t) => Some((FrameType::Msg, encode_utf8(t@))),
            SendEvent::TextClosed => None,
            SendEvent::Ptt(talking) => Some(
                (
                    if talking {
                        FrameType::PttStart
                    } else {
                        FrameType::PttStop
                    },
                    Seq::empty(),
                ),
            ),
            SendEvent::PttClosed => None,
            SendEvent::PongDue => Some((FrameType::Pong, Seq::empty())),
            SendEvent::KeepaliveDue => Some((FrameType::Ping, Seq::empty())),
        }
    }

    /// Whether the sending side stops after this event.
    pub open spec fn ends(&self) -> bool {
        *self is HangupRequested || *self is AudioClosed
    }

    /// What the receiver of the event's frame is to do.
    pub open spec fn intent(&self) -> InboundView {
        match *self {
            SendEvent::HangupRequested => InboundView::End,
            SendEvent::Audio(f) => InboundView::Audio(f.data@),
            SendEvent::AudioClosed => InboundView::End,
            SendEvent::Text(t) => InboundView::Text(t@),
            SendEvent::Ptt(talking) => InboundView::Event(CallEvent::RemotePtt(talking)),
            SendEvent::KeepaliveDue => InboundView::Pong,
            _ => InboundView::Nothing,
        }
    }
}

/// What each local event sends: the user's hangup and the end of the audio a hangup, audio and text
/// themselves, talking its start and its stop, a ping its answer, and silence a ping; a source that is
/// gone otherwise sends nothing. Only a hangup ends the sending.
pub proof fn law_events_send_what_they_mean(ev: SendEvent)
    ensures
        ev is HangupRequested || ev is AudioClosed ==> ev.message() == Some((FrameType::Hangup, Seq::<u8>::empty()))
            && ev.intent() == InboundView::End,
        ev matches SendEvent::Audio(f) ==> ev.message() == Some((FrameType::Audio, f.data@)) && ev.intent()
            == InboundView::Audio(f.data@),
        ev matches SendEvent::Text(t) ==> ev.message() == Some((FrameType::Msg, encode_utf8(t@))) && ev.intent()
            == InboundView::Text(t@),
        ev == SendEvent::Ptt(true) ==> ev.message() == Some((FrameType::PttStart, Seq::<u8>::empty())) && ev.intent()
            == InboundView::Event(CallEvent::RemotePtt(true)),
        ev == SendEvent::Ptt(false) ==> ev.message() == Some((FrameType::PttStop, Seq::<u8>::empty())) && ev.intent()
            == InboundView::Event(CallEvent::RemotePtt(false)),
        ev is PongDue ==> ev.message() == Some((FrameType::Pong, Seq::<u8>::empty())) && ev.intent()
            == InboundView::Nothing,
        ev is KeepaliveDue ==> ev.message() == Some((FrameType::Ping, Seq::<u8>::empty())) && ev.intent()
            == InboundView::Pong,
        ev is TextClosed || ev is PttClosed ==> ev.message() is None,
        ev.ends() <==> ev is HangupRequested || ev is AudioClosed,
{
}

/// The frame that carries a ciphertext of the given type.
pub open spec fn frame_with(ty: FrameType, seq: u64, sealed: Seq<u8>) -> FrameView {
    let behind_seq = be_bytes(seq as nat, 8) + sealed;
    match ty {
        FrameType::Audio => FrameView::Audio { seq, sealed },
        FrameType::Msg => FrameView::Msg { seq, sealed },
        FrameType::PttStart => FrameView::PttStart { sealed: behind_seq },
        FrameType::PttStop => FrameView::PttStop { sealed: behind_seq },
        FrameType::Ping => FrameView::Ping { sealed: behind_seq },
        FrameType::Pong => FrameView::Pong { sealed: behind_seq },
        FrameType::Hangup => FrameView::Hangup { sealed: behind_seq },
        _ => FrameView::Cipher { sealed: behind_seq },
    }
}

/// Whether `f`, received in `dir`, is authentic under the call's key with sequence `seq`, and asks
/// for `what`.
pub open spec fn conveys(f: FrameView, suite: AeadSuite, key: Seq<u8>, dir: Direction, seq: u64, what: InboundView) -> bool {
    &&& sealed_parts(f) matches Some((s, sealed)) && s == seq && (opened_frame(
        suite,
        key,
        dir,
        seq,
        type_tag(f.ty()),
        sealed,
    ) matches Some(plaintext) && request_of(f.ty(), plaintext) == what)
}

/// A sealed frame has the type it was made for, and on the wire its ciphertext stands behind its
/// sequence.
pub proof fn law_sealed_frames_carry_their_sequence(ty: FrameType, seq: u64, sealed: Seq<u8>)
    requires
        !(ty is Hello),
    ensures
        frame_with(ty, seq, sealed).ty() == ty,
        frame_with(ty, seq, sealed).payload() == be_bytes(seq as nat, 8) + sealed,
        !(ty is Cipher) ==> sealed_parts(frame_with(ty, seq, sealed)) == Some((seq, sealed)),
{
    law_seq_is_split_off(seq, sealed);
}

/// What the sending side does about an event.
pub struct SendStep {
    /// The frame to write, if any.
    pub frame: Option<Frame>,
    /// Whether the sending side stops once it is written.
    pub done: bool,
}

/// How the sending side goes on once a frame was written, or was not: `None` to go on, else the
/// outcome of the call. The last frame is sent as far as it goes; a failure of any other ends the
/// call with it.
pub fn after_write(done: bool, written: Result<()>) -> (r: Option<Result<()>>)
    ensures
        r is None <==> !done && written is Ok,
        done ==> (r matches Some(out) && out is Ok),
        !done ==> (written matches Err(e) ==> r == Some(Err::<(), Error>(e))),
{
    if done {
        return Some(Ok(()));
    }
    match written {
        Ok(()) => None,
        Err(e) => Some(Err(e)),
    }
}

/// The sending side of a call: its sequence counter, and whether talk transitions still come.
pub struct SendState {
    next: u64,
    ptt_open: bool,
}

impl SendState {
    /// The sequence of the next frame.
    pub closed spec fn next_view(&self) -> u64 {
        self.next
    }

    /// Whether talk transitions still come.
    pub closed spec fn ptt_open_view(&self) -> bool {
        self.ptt_open
    }

    /// The sending side at the start of a call.
    pub fn new() -> (s: SendState)
        ensures
            s.next_view() == 0,
            s.ptt_open_view(),
    {
        SendState { next: 0, ptt_open: true }
    }

    /// Whether the source of talk transitions is still to be listened to.
    pub fn ptt_open(&self) -> (r: bool)
        ensures
            r == self.ptt_open_view(),
    {
        self.ptt_open
    }

    /// React to `ev`: seal what it calls for under the next sequence, and say whether to stop.
    ///
    /// The frame's type is bound into its authentication, and whoever shares the key takes it as
    /// what was meant.
    pub fn on_event(&mut self, keys: &CallKeys, dir: Direction, ev: &SendEvent) -> (step: SendStep)
        requires
            ev.message() matches Some((_, plaintext)) ==> sealable(keys@.suite, 13, plaintext.len()),
        ensures
            ev.message() is None ==> step.frame is None && final(self).next_view() == old(self).next_view(),
            ev.message() matches Some((ty, plaintext)) ==> {
                let seq = old(self).next_view();
                let sealed = sealed_frame(keys@.suite, keys@.key, dir, seq, type_tag(ty), plaintext);
                &&& final(self).next_view() == seq_after(seq)
                &&& step.frame matches Some(f) && f@ == frame_with(ty, seq, sealed) && conveys(
                    f@,
                    keys@.suite,
                    keys@.key,
                    dir,
                    seq,
                    ev.intent(),
                ) && f@.payload().len() == plaintext.len() + 24
            },
            step.done == ev.ends(),
            final(self).ptt_open_view() == (old(self).ptt_open_view() && !(ev is PttClosed)),
    {
        match ev {
            SendEvent::HangupRequested => {
                let f = self.control(keys, dir, FrameType::Hangup);
                SendStep { frame: Some(f), done: true }
            },
            SendEvent::AudioClosed => {
                let f = self.control(keys, dir, FrameType::Hangup);
                SendStep { frame: Some(f), done: true }
            },
            SendEvent::Audio(audio) => {
                let (seq, sealed) = self.seal_next(keys, dir, FrameType::Audio, audio.data.as_slice());
                proof {
                    lemma_be_len(seq as nat, 8);
                }
                let f = Frame::Audio { seq, sealed };
                SendStep { frame: Some(f), done: false }
            },
            SendEvent::Text(text) => {
                let (seq, sealed) = self.seal_next(keys, dir, FrameType::Msg, text.as_str().as_bytes());
                proof {
                    lemma_lossy_round_trip(text@);
                    lemma_be_len(seq as nat, 8);
                }
                let f = Frame::Msg { seq, sealed };
                SendStep { frame: Some(f), done: false }
            },
            SendEvent::TextClosed => SendStep { frame: None, done: false },
            SendEvent::Ptt(talking) => {
                let f = if *talking {
                    self.control(keys, dir, FrameType::PttStart)
                } else {
                    self.control(keys, dir, FrameType::PttStop)
                };
                SendStep { frame: Some(f), done: false }
            },
            SendEvent::PttClosed => {
                self.ptt_open = false;
                SendStep { frame: None, done: false }
            },
            SendEvent::PongDue => {
                let f = self.control(keys, dir, FrameType::Pong);
                SendStep { frame: Some(f), done: false }
            },
            SendEvent::KeepaliveDue => {
                let f = self.control(keys, dir, FrameType::Ping);
                SendStep { frame: Some(f), done: false }
            },
        }
    }

    /// Take the next sequence and seal `plaintext` under it.
    fn seal_next(&mut self, keys: &CallKeys, dir: Direction, ty: FrameType, plaintext: &[u8]) -> (r: (u64, Vec<u8>))
        requires
            sealable(keys@.suite, 13, plaintext@.len()),
        ensures
            r.0 == old(self).next_view(),
            final(self).next_view() == seq_after(r.0),
            final(self).ptt_open_view() == old(self).ptt_open_view(),
            r.1@ == sealed_frame(keys@.suite, keys@.key, dir, r.0, type_tag(ty), plaintext@),
            r.1@.len() == plaintext@.len() + 16,
            keys@.opens(dir, r.0, type_tag(ty), r.1@) == Some(plaintext@),
    {
        let seq: u64 = self.next;
        self.next = self.next.wrapping_add(1);
        let tag: [u8; 1] = [ty.to_u8()];
        assert(tag@ =~= type_tag(ty));
        let sealed = keys.seal(dir, seq, tag.as_slice(), plaintext);
        (seq, sealed)
    }

    /// Seal a control frame, which has an empty body, under the next sequence.
    fn control(&mut self, keys: &CallKeys, dir: Direction, ty: FrameType) -> (f: Frame)
        requires
            ty is PttStart || ty is PttStop || ty is Ping || ty is Pong || ty is Hangup,
            sealable(keys@.suite, 13, 0),
        ensures
            final(self).next_view() == seq_after(old(self).next_view()),
            final(self).ptt_open_view() == old(self).ptt_open_view(),
            ({
                let seq = old(self).next_view();
                let sealed = sealed_frame(keys@.suite, keys@.key, dir, seq, type_tag(ty), Seq::empty());
                &&& f@ == frame_with(ty, seq, sealed)
                &&& conveys(f@, keys@.suite, keys@.key, dir, seq, request_of(ty, Seq::empty()))
                &&& f@.payload().len() == 24
            }),
    {
        let empty: Vec<u8> = Vec::new();
        let (seq, sealed) = self.seal_next(keys, dir, ty, empty.as_slice());
        assert(empty@ =~= Seq::<u8>::empty());
        proof {
            lemma_be_len(seq as nat, 8);
        }
        let payload = encode_seq_payload(seq, sealed.as_slice());
        match ty {
            FrameType::PttStart => Frame::PttStart { sealed: payload },
            FrameType::PttStop => Frame::PttStop { sealed: payload },
            FrameType::Ping => Frame::Ping { sealed: payload },
            FrameType::Pong => Frame::Pong { sealed: payload },
            _ => Frame::Hangup { sealed: payload },
        }
    }
}

/// What authenticates a frame tells its type, direction and sequence apart: no frame is authenticated
/// by the data of another, so none can be taken for another.
pub proof fn law_authenticated_data_is_distinct(
    t1: FrameType,
    d1: Direction,
    s1: u64,
    t2: FrameType,
    d2: Direction,
    s2: u64,
)
    requires
        aad_of(type_tag(t1), d1, s1) == aad_of(type_tag(t2), d2, s2),
    ensures
        t1 == t2,
        d1 == d2,
        s1 == s2,
{
    let a1 = aad_of(type_tag(t1), d1, s1);
    let a2 = aad_of(type_tag(t2), d2, s2);
    assert(a1[0] == t1.byte());
    assert(a2[0] == t2.byte());
    lemma_be_len(s1 as nat, 8);
    lemma_be_len(s2 as nat, 8);
    assert(a1.skip(1) =~= nonce_of(d1, s1));
    assert(a2.skip(1) =~= nonce_of(d2, s2));
    law_nonces_are_distinct(d1, s1, d2, s2);
}

/// What one side sends, the other gets: a frame that conveys `what`, put on the wire and read back
/// at the other end by the holder of the same key, asks there for `what`.
pub proof fn law_sent_is_received(
    f: FrameView,
    sender: KeysView,
    receiver: KeysView,
    dir: Direction,
    seq: u64,
    what: InboundView,
    rest: Seq<u8>,
)
    requires
        conveys(f, sender.suite, sender.key, dir, seq, what),
        f.payload().len() <= MAX_FRAME_LEN,
        receiver.suite == sender.suite,
        receiver.key == sender.key,
        receiver.window.fresh(seq),
    ensures
        first_frame(f.wire() + rest) == Ok::<(FrameView, nat), ErrorView>((f, f.wire().len())),
        requested(receiver, dir, f) == what,
{
    law_frame_round_trips(f, rest);
}

/// The keys once a history of frames was received, oldest first.
pub open spec fn keys_after_all(keys: KeysView, dir: Direction, frames: Seq<FrameView>) -> KeysView
    decreases frames.len(),
{
    if frames.len() == 0 {
        keys
    } else {
        keys_after(keys_after_all(keys, dir, frames.drop_last()), dir, frames.last())
    }
}

/// What each frame of a history asks for, in order.
pub open spec fn requests(keys: KeysView, dir: Direction, frames: Seq<FrameView>) -> Seq<InboundView> {
    Seq::new(frames.len(), |i: int| requested(keys_after_all(keys, dir, frames.take(i)), dir, frames[i]))
}

/// Whether `frames` are what one side of a call sends, from its start, to convey `what`: the `k`-th
/// frame has the `k`-th sequence and conveys the `k`-th thing.
pub open spec fn sent_frames(frames: Seq<FrameView>, suite: AeadSuite, key: Seq<u8>, dir: Direction, what: Seq<InboundView>) -> bool {
    &&& frames.len() == what.len()
    &&& forall|k: int|
        0 <= k < frames.len() ==> conveys(#[trigger] frames[k], suite, key, dir, nth_seq(0, k as nat), what[k])
}

/// One more frame under the next sequence keeps a side's sending in order.
pub proof fn law_sending_goes_on(
    frames: Seq<FrameView>,
    suite: AeadSuite,
    key: Seq<u8>,
    dir: Direction,
    what: Seq<InboundView>,
    f: FrameView,
    w: InboundView,
)
    requires
        sent_frames(frames, suite, key, dir, what),
        conveys(f, suite, key, dir, nth_seq(0, frames.len()), w),
    ensures
        sent_frames(frames.push(f), suite, key, dir, what.push(w)),
        seq_after(nth_seq(0, frames.len())) == nth_seq(0, frames.push(f).len()),
{
    law_nth_seq_counts_on(0, frames.len());
    let longer = frames.push(f);
    assert forall|k: int| 0 <= k < longer.len() implies conveys(
        #[trigger] longer[k],
        suite,
        key,
        dir,
        nth_seq(0, k as nat),
        what.push(w)[k],
    ) by {
        if k < frames.len() {
            assert(conveys(frames[k], suite, key, dir, nth_seq(0, k as nat), what[k]));
        }
    }
}

proof fn lemma_in_order_history(
    frames: Seq<FrameView>,
    receiver: KeysView,
    dir: Direction,
    what: Seq<InboundView>,
    n: nat,
)
    requires
        n <= frames.len(),
        sent_frames(frames, receiver.suite, receiver.key, dir, what),
        receiver.window == Window::empty(),
    ensures
        ({
            let after = keys_after_all(receiver, dir, frames.take(n as int));
            &&& after.suite == receiver.suite
            &&& after.key == receiver.key
            &&& after.window == Window::empty().run(Seq::new(n, |k: int| nth_seq(0, k as nat)))
        }),
    decreases n,
{
    let seqs = Seq::new(n, |k: int| nth_seq(0, k as nat));
    if n > 0 {
        let m = (n - 1) as nat;
        lemma_in_order_history(frames, receiver, dir, what, m);
        assert(frames.take(n as int).drop_last() =~= frames.take(m as int));
        assert(frames.take(n as int).last() == frames[m as int]);
        assert(seqs.drop_last() =~= Seq::new(m, |k: int| nth_seq(0, k as nat)));
        assert(conveys(frames[m as int], receiver.suite, receiver.key, dir, nth_seq(0, m), what[m as int]));
    } else {
        assert(frames.take(0) =~= Seq::<FrameView>::empty());
        assert(seqs =~= Seq::<u64>::empty());
    }
}

/// A call delivers everything, in order and exactly: whatever one side sends from the start of the
/// call, the other side reads off the byte stream frame by frame, and each frame asks there for what
/// it was sent to convey. This holds for as long as the counter has not wrapped.
pub proof fn law_call_delivers_in_order(
    frames: Seq<FrameView>,
    sender: KeysView,
    receiver: KeysView,
    dir: Direction,
    what: Seq<InboundView>,
)
    requires
        sent_frames(frames, sender.suite, sender.key, dir, what),
        frames.len() <= 0x1_0000_0000_0000_0000,
        forall|k: int| 0 <= k < frames.len() ==> (#[trigger] frames[k]).payload().len() <= MAX_FRAME_LEN,
        receiver.suite == sender.suite,
        receiver.key == sender.key,
        receiver.window == Window::empty(),
    ensures
        frames_in(stream_of(frames)) == (frames, ErrorView::Closed),
        requests(receiver, dir, frames) == what,
{
    assert forall|k: int| 0 <= k < frames.len() implies (#[trigger] frames[k]).encodable() by {
        assert(conveys(frames[k], sender.suite, sender.key, dir, nth_seq(0, k as nat), what[k]));
    }
    law_stream_round_trips(frames);
    assert forall|i: int| 0 <= i < frames.len() implies #[trigger] requests(receiver, dir, frames)[i] == what[i] by {
        lemma_in_order_history(frames, receiver, dir, what, i as nat);
        let all = Seq::new(frames.len(), |k: int| nth_seq(0, k as nat));
        law_in_order_frames_are_fresh(frames.len(), i as nat);
        assert(all.take(i) =~= Seq::new(i as nat, |k: int| nth_seq(0, k as nat)));
        assert(conveys(frames[i], receiver.suite, receiver.key, dir, nth_seq(0, i as nat), what[i]));
    }
    assert(requests(receiver, dir, frames) =~= what);
}

/// Frames that arrive in the order in which they were sent are never taken for replays, for as
/// long as the counter has not wrapped.
pub proof fn law_in_order_frames_are_fresh(n: nat, i: nat)
    requires
        i < n <= 0x1_0000_0000_0000_0000,
    ensures
        Window::empty().accepts(Seq::new(n, |k: int| nth_seq(0, k as nat)), i as int),
{
    let inputs = Seq::new(n, |k: int| nth_seq(0, k as nat));
    assert forall|k: int| 0 <= k < i implies inputs[k] != inputs[i as int] && inputs[k] < inputs[i as int] + 64 by {
        assert(inputs[k] == k);
        assert(inputs[i as int] == i);
    }
    law_fresh_in_window_is_accepted(inputs, i as int);
}

/// Without an authentic frame the call does not change: a frame that does not open asks for
/// nothing, and the keys stay as they are. In particular a forged hangup does not end the call.
pub proof fn law_forged_frames_do_nothing(keys: KeysView, dir: Direction, f: FrameView)
    requires
        sealed_parts(f) matches Some((seq, sealed)) ==> keys.opens(dir, seq, type_tag(f.ty()), sealed) is None,
    ensures
        requested(keys, dir, f) == InboundView::Nothing,
        keys_after(keys, dir, f) == keys,
{
}

proof fn lemma_blocked_in_call(keys: KeysView, dir: Direction, seq: u64, frames: Seq<FrameView>)
    requires
        keys.window.blocks(seq),
    ensures
        keys_after_all(keys, dir, frames).window.blocks(seq),
    decreases frames.len(),
{
    if frames.len() > 0 {
        lemma_blocked_in_call(keys, dir, seq, frames.drop_last());
        let before = keys_after_all(keys, dir, frames.drop_last());
        if let Some((next, _)) = sealed_parts(frames.last()) {
            lemma_step_keeps_blocked(before.window, seq, next);
        }
    }
}

/// A frame that was taken once asks for nothing when it arrives again, whatever arrived in between.
pub proof fn law_replayed_frames_do_nothing(keys: KeysView, dir: Direction, f: FrameView, between: Seq<FrameView>)
    requires
        sealed_parts(f) matches Some((seq, sealed)) && keys.accepts(dir, seq, type_tag(f.ty()), sealed),
    ensures
        requested(keys_after_all(keys_after(keys, dir, f), dir, between), dir, f) == InboundView::Nothing,
{
    let seq = sealed_parts(f).unwrap().0;
    lemma_step_blocks(keys.window, seq);
    lemma_blocked_in_call(keys_after(keys, dir, f), dir, seq, between);
    lemma_step_keeps_blocked(keys_after_all(keys_after(keys, dir, f), dir, between).window, seq, seq);
}

} // verus!
