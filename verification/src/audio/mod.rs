//! Audio: codec parameters, capture framing, the jitter buffer and voice effects.

pub mod capture;
pub mod codec;
pub mod playback;
pub mod voice;

use vstd::prelude::*;

use crate::audio::capture::{frame_len, len_of_frame};
use crate::audio::codec::{refusal, supported, OpusEncoder};
use crate::audio::voice::VoiceEffect;
use crate::config::OpusParams;
use crate::error::{Error, ErrorView, Result};

verus! {

/// A raw PCM frame captured from or destined for the device (interleaved i16 samples).
#[derive(Debug, Clone)]
pub struct PcmFrame {
    /// Samples of one Opus frame interval.
    pub samples: Vec<i16>,
}

/// An encoded Opus frame ready to be sealed (or freshly opened, ready to decode).
#[derive(Debug, Clone)]
pub struct OpusFrame {
    /// Compressed Opus payload bytes.
    pub data: Vec<u8>,
}

/// Audio configuration (the codec-relevant subset of [`crate::config::Config`]).
#[derive(Debug, Clone, Copy)]
pub struct AudioConfig {
    /// Opus encode and decode parameters.
    pub opus: OpusParams,
    /// Effect applied to outgoing voice.
    pub voice_effect: VoiceEffect,
}

/// How long the playback jitter buffer leads before playout begins, in milliseconds.
pub const DEFAULT_JITTER_LEAD_MS: u64 = 250;

/// Milliseconds between two polls of a capture source: half a frame, and at least one.
pub fn poll_interval_ms(frame_ms: u8) -> (ms: u64)
    ensures
        ms == (if frame_ms < 2 {
            1
        } else {
            frame_ms as int / 2
        }),
{
    if frame_ms < 2 {
        1
    } else {
        (frame_ms / 2) as u64
    }
}

/// Commands to the thread that owns the capture device.
#[derive(Debug, Clone, Copy, PartialEq, Eq, Structural)]
pub enum CaptureCmd {
    /// Flip the talk gate.
    Ptt(bool),
    /// Wind the thread down.
    Stop,
}

/// What a look at the command channel finds.
#[derive(Debug, Clone, Copy, PartialEq, Eq, Structural)]
pub enum Polled {
    /// A command.
    Command(CaptureCmd),
    /// No command.
    Empty,
    /// No command, and none will come.
    Disconnected,
}

/// What the capture thread does next.
#[derive(Debug, Clone, Copy, PartialEq, Eq, Structural)]
pub enum CaptureTurn {
    /// Set the talk gate and look for the next command.
    SetGate(bool),
    /// Quit.
    Quit,
    /// Go on to the captured frames.
    Proceed,
}

/// What the capture thread does about what it found on the command channel.
pub fn capture_turn(found: Polled) -> (t: CaptureTurn)
    ensures
        t == (match found {
            Polled::Command(CaptureCmd::Ptt(held)) => CaptureTurn::SetGate(held),
            Polled::Command(CaptureCmd::Stop) => CaptureTurn::Quit,
            Polled::Empty => CaptureTurn::Proceed,
            Polled::Disconnected => CaptureTurn::Quit,
        }),
{
    match found {
        Polled::Command(CaptureCmd::Ptt(held)) => CaptureTurn::SetGate(held),
        Polled::Command(CaptureCmd::Stop) => CaptureTurn::Quit,
        Polled::Empty => CaptureTurn::Proceed,
        Polled::Disconnected => CaptureTurn::Quit,
    }
}

/// How offering a frame to the outbound channel went.
#[derive(Debug, Clone, Copy, PartialEq, Eq, Structural)]
pub enum Offer {
    /// It was taken.
    Sent,
    /// The channel is full.
    Full,
    /// The receiver is gone.
    Closed,
}

/// What the capture pump does next.
#[derive(Debug, Clone, Copy, PartialEq, Eq, Structural)]
pub enum PumpNext {
    /// Look for the next frame.
    NextFrame,
    /// Wait and offer the same frame again.
    Retry,
    /// Stop.
    Stop,
}

/// What the capture pump does once a frame was offered: it stops when the receiver is gone or when it
/// was asked to, so a full channel never wedges it.
pub fn after_offer(offer: Offer, running: bool) -> (next: PumpNext)
    ensures
        next is Stop <==> offer is Closed || !running,
        next is Retry <==> offer is Full && running,
        next is NextFrame <==> offer is Sent && running,
{
    match offer {
        Offer::Closed => PumpNext::Stop,
        Offer::Sent => if running {
            PumpNext::NextFrame
        } else {
            PumpNext::Stop
        },
        Offer::Full => if running {
            PumpNext::Retry
        } else {
            PumpNext::Stop
        },
    }
}

/// A stretch of the synthetic test tone: samples `start`, `start + 1`, ... of it.
#[derive(Debug, Clone, Copy, PartialEq, Eq, Structural)]
pub struct ToneSpan {
    /// Index of the first sample.
    pub start: u64,
    /// Number of samples.
    pub len: usize,
    /// Samples per second.
    pub sample_rate: u32,
}

/// The capture source of headless runs: a phase-continuous tone, gated like a microphone.
#[derive(Debug, Clone, Copy)]
pub struct SyntheticCaptureSource {
    sample_rate: u32,
    frame_len: usize,
    phase: u64,
    gate: bool,
}

/// What a [`SyntheticCaptureSource`] holds.
pub struct SyntheticView {
    pub sample_rate: u32,
    pub frame_len: nat,
    pub phase: u64,
    pub gate: bool,
}

impl View for SyntheticCaptureSource {
    type V = SyntheticView;

    closed spec fn view(&self) -> SyntheticView {
        SyntheticView {
            sample_rate: self.sample_rate,
            frame_len: self.frame_len as nat,
            phase: self.phase,
            gate: self.gate,
        }
    }
}

/// A backend without hardware, for headless runs: its capture side is a tone, and its playback side
/// keeps every sample that it is given.
#[derive(Debug)]
pub struct SyntheticBackend {
    sink: Vec<i16>,
}

impl View for SyntheticBackend {
    type V = Seq<i16>;

    /// The samples that were played so far.
    closed spec fn view(&self) -> Seq<i16> {
        self.sink@
    }
}

impl SyntheticBackend {
    /// A backend with nothing played yet.
    pub fn new() -> (b: SyntheticBackend)
        ensures
            b@ == Seq::<i16>::empty(),
    {
        SyntheticBackend { sink: Vec::new() }
    }

    /// The samples that were played so far.
    pub fn sink_handle(&self) -> (s: &[i16])
        ensures
            s@ == self@,
    {
        self.sink.as_slice()
    }

    /// Play one decoded frame: its samples go behind those played so far.
    pub fn play(&mut self, pcm: &PcmFrame)
        ensures
            final(self)@ == old(self)@ + pcm.samples@,
    {
        self.sink.extend_from_slice(pcm.samples.as_slice());
        assert(self.sink@ =~= old(self)@ + pcm.samples@);
    }

    /// Open the capture side: gate closed, at the start of the tone. Parameters that no codec takes,
    /// and an interval that holds no sample, are refused.
    pub fn open_capture(&self, cfg: AudioConfig) -> (r: Result<SyntheticCaptureSource>)
        ensures
            r is Ok <==> len_of_frame(cfg.opus.sample_rate, cfg.opus.frame_ms) > 0 && supported(cfg.opus),
            r matches Ok(s) ==> s@ == (SyntheticView {
                sample_rate: cfg.opus.sample_rate,
                frame_len: len_of_frame(cfg.opus.sample_rate, cfg.opus.frame_ms),
                phase: 0,
                gate: false,
            }),
            r matches Err(e) ==> e@ == (if len_of_frame(cfg.opus.sample_rate, cfg.opus.frame_ms) == 0 {
                ErrorView::Audio("synthetic capture: opus frame interval resolves to zero samples"@)
            } else {
                refusal(cfg.opus)
            }),
    {
        let n: usize = frame_len(cfg.opus.sample_rate, cfg.opus.frame_ms);
        if n == 0 {
            return Err(
                Error::Audio("synthetic capture: opus frame interval resolves to zero samples".to_owned()),
            );
        }
        match OpusEncoder::new(cfg.opus) {
            Ok(_) => Ok(
                SyntheticCaptureSource { sample_rate: cfg.opus.sample_rate, frame_len: n, phase: 0, gate: false },
            ),
            Err(e) => Err(e),
        }
    }
}

impl SyntheticCaptureSource {
    /// Open or close the talk gate. Closing an open gate starts the tone over.
    pub fn set_ptt(&mut self, held: bool)
        ensures
            final(self)@ == (SyntheticView {
                gate: held,
                phase: if old(self)@.gate && !held {
                    0
                } else {
                    old(self)@.phase
                },
                ..old(self)@
            }),
    {
        if self.gate && !held {
            self.phase = 0;
        }
        self.gate = held;
    }

    /// The next frame's worth of the tone, while the talk gate is open.
    pub fn next_frame(&mut self) -> (r: Option<ToneSpan>)
        ensures
            r is Some <==> old(self)@.gate,
            r matches Some(t) ==> {
                &&& t.start == old(self)@.phase
                &&& t.len == old(self)@.frame_len
                &&& t.sample_rate == old(self)@.sample_rate
                &&& final(self)@ == (SyntheticView {
                    phase: ((old(self)@.phase + old(self)@.frame_len) % 0x1_0000_0000_0000_0000) as u64,
                    ..old(self)@
                })
            },
            r is None ==> final(self)@ == old(self)@,
    {
        if !self.gate {
            return None;
        }
        let span = ToneSpan { start: self.phase, len: self.frame_len, sample_rate: self.sample_rate };
        self.phase = self.phase.wrapping_add(self.frame_len as u64);
        Some(span)
    }
}

} // verus!
