//! Capture framing: the talk gate, and cutting opus-rate samples into frames.

use vstd::prelude::*;

use crate::audio::{AudioConfig, PcmFrame};
use crate::error::{Error, ErrorView, Result};

verus! {

/// Samples per frame at a rate for an interval in milliseconds.
pub open spec fn len_of_frame(rate: u32, frame_ms: u8) -> nat {
    (rate as nat * frame_ms as nat) / 1000
}

/// A frame holds as many whole samples as fit in its interval, and not one more.
pub proof fn law_frame_fills_its_interval(rate: u32, frame_ms: u8)
    ensures
        len_of_frame(rate, frame_ms) * 1000 <= rate * frame_ms < (len_of_frame(rate, frame_ms) + 1) * 1000,
{
}

/// Samples per opus frame at `rate` for a `frame_ms` interval.
pub fn frame_len(rate: u32, frame_ms: u8) -> (n: usize)
    ensures
        n == len_of_frame(rate, frame_ms),
{
    proof {
        assert(rate * frame_ms <= 0xffff_ffff * 255) by (nonlinear_arith)
            requires
                rate <= 0xffff_ffff,
                frame_ms <= 255,
        ;
    }
    (rate as u64 * frame_ms as u64 / 1000) as usize
}

/// The frame length to capture with; an interval that holds no sample is refused.
pub fn capture_frame_len(cfg: &AudioConfig) -> (r: Result<usize>)
    ensures
        r is Ok <==> len_of_frame(cfg.opus.sample_rate, cfg.opus.frame_ms) > 0,
        r matches Ok(n) ==> n == len_of_frame(cfg.opus.sample_rate, cfg.opus.frame_ms),
        r matches Err(e) ==> e@ == ErrorView::Audio("opus frame interval resolves to zero samples"@),
{
    let n: usize = frame_len(cfg.opus.sample_rate, cfg.opus.frame_ms);
    if n == 0 {
        return Err(Error::Audio("opus frame interval resolves to zero samples".to_owned()));
    }
    Ok(n)
}

/// Device-independent capture state: the talk gate, and the samples that await a full frame.
#[derive(Debug)]
pub struct CaptureInner {
    gate: bool,
    frame_len: usize,
    pending: Vec<i16>,
}

/// What a [`CaptureInner`] holds.
#[verifier::ext_equal]
pub struct CaptureView {
    pub gate: bool,
    pub frame_len: nat,
    pub pending: Seq<i16>,
}

impl View for CaptureInner {
    type V = CaptureView;

    closed spec fn view(&self) -> CaptureView {
        CaptureView { gate: self.gate, frame_len: self.frame_len as nat, pending: self.pending@ }
    }
}

impl CaptureInner {
    /// A capture with the talk gate closed and nothing pending.
    pub fn new(frame_len: usize) -> (c: CaptureInner)
        ensures
            c@ == (CaptureView { gate: false, frame_len: frame_len as nat, pending: Seq::empty() }),
    {
        CaptureInner { gate: false, frame_len, pending: Vec::new() }
    }

    /// Open or close the talk gate. Closing an open gate drops the partial frame, so the tail of one
    /// utterance is not spliced onto the head of the next; the answer says whether that happened,
    /// in which case what is queued in front of the talk gate belongs to the ended utterance too.
    pub fn set_ptt(&mut self, held: bool) -> (released: bool)
        ensures
            released == (old(self)@.gate && !held),
            final(self)@ == (CaptureView {
                gate: held,
                pending: if old(self)@.gate && !held {
                    Seq::empty()
                } else {
                    old(self)@.pending
                },
                ..old(self)@
            }),
    {
        let released = self.gate && !held;
        self.gate = held;
        if released {
            self.pending.clear();
        }
        released
    }

    /// Whether the talk gate is open.
    pub fn is_open(&self) -> (r: bool)
        ensures
            r == self@.gate,
    {
        self.gate
    }

    /// Samples that await a full frame.
    pub fn pending_len(&self) -> (n: usize)
        ensures
            n == self@.pending.len(),
    {
        self.pending.len()
    }

    /// Take captured samples: kept while the talk gate is open, dropped while it is closed.
    pub fn feed(&mut self, samples: &[i16])
        ensures
            final(self)@ == (CaptureView {
                pending: if old(self)@.gate {
                    old(self)@.pending + samples@
                } else {
                    old(self)@.pending
                },
                ..old(self)@
            }),
    {
        if self.gate {
            self.pending.extend_from_slice(samples);
            assert(self.pending@ =~= old(self)@.pending + samples@);
        }
    }

    /// The next full frame, if the talk gate is open and there is one.
    pub fn next_frame(&mut self) -> (r: Option<PcmFrame>)
        ensures
            r is Some <==> old(self)@.gate && old(self)@.pending.len() >= old(self)@.frame_len,
            r matches Some(f) ==> {
                &&& f.samples@ == old(self)@.pending.take(old(self)@.frame_len as int)
                &&& final(self)@ == (CaptureView {
                    pending: old(self)@.pending.skip(old(self)@.frame_len as int),
                    ..old(self)@
                })
            },
            r is None ==> final(self)@ == old(self)@,
    {
        if !self.gate || self.pending.len() < self.frame_len {
            return None;
        }
        let n: usize = self.frame_len;
        let rest = self.pending.split_off(n);
        let mut frame: Vec<i16> = Vec::new();
        frame.append(&mut self.pending);
        self.pending = rest;
        assert(frame@ =~= old(self)@.pending.take(n as int));
        assert(self.pending@ =~= old(self)@.pending.skip(n as int));
        Some(PcmFrame { samples: frame })
    }
}

/// No sample is lost or reordered while the talk gate is open: what frames come out, followed by what is
/// pending, is what went in.
pub proof fn law_frames_keep_the_stream(before: CaptureView, frame: Seq<i16>, after: CaptureView)
    requires
        before.pending.len() >= before.frame_len,
        frame == before.pending.take(before.frame_len as int),
        after.pending == before.pending.skip(before.frame_len as int),
    ensures
        frame + after.pending == before.pending,
        frame.len() == before.frame_len,
{
    assert(frame + after.pending =~= before.pending);
}

} // verus!
