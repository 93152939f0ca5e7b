//! Opus parameters: what is supported, and how encoded and decoded frames are cut to size.

use vstd::prelude::*;

use crate::audio::{OpusFrame, PcmFrame};
use crate::config::OpusParams;
use crate::error::{Error, ErrorView, Result};
use crate::text::{decimal, join2, put, put_decimal};

verus! {

/// The largest packet that the codec emits for a single frame.
pub const MAX_PACKET_BYTES: usize = 4000;

/// The sample rates that the codec takes.
#[derive(Debug, Clone, Copy, PartialEq, Eq, Structural)]
pub enum SampleRate {
    /// 8 kHz.
    Hz8000,
    /// 12 kHz.
    Hz12000,
    /// 16 kHz.
    Hz16000,
    /// 24 kHz.
    Hz24000,
    /// 48 kHz.
    Hz48000,
}

impl SampleRate {
    /// The rate in Hz.
    pub open spec fn hz(self) -> u32 {
        match self {
            SampleRate::Hz8000 => 8_000,
            SampleRate::Hz12000 => 12_000,
            SampleRate::Hz16000 => 16_000,
            SampleRate::Hz24000 => 24_000,
            SampleRate::Hz48000 => 48_000,
        }
    }
}

/// The channel layouts that the codec takes.
#[derive(Debug, Clone, Copy, PartialEq, Eq, Structural)]
pub enum Channels {
    /// One channel.
    Mono,
    /// Two channels.
    Stereo,
}

impl Channels {
    /// The number of channels.
    pub open spec fn count(self) -> u8 {
        match self {
            Channels::Mono => 1,
            Channels::Stereo => 2,
        }
    }
}

/// Whether a rate is supported.
pub open spec fn rate_supported(hz: u32) -> bool {
    hz == 8_000 || hz == 12_000 || hz == 16_000 || hz == 24_000 || hz == 48_000
}

/// The error for a rate that is not.
pub open spec fn rate_error(hz: u32) -> ErrorView {
    ErrorView::Audio(
        "unsupported opus sample rate "@ + decimal(hz as nat) + " Hz (allowed: 8000/12000/16000/24000/48000)"@,
    )
}

/// Translate a sample rate, rejecting rates the codec does not take.
pub fn sample_rate(params: &OpusParams) -> (r: Result<SampleRate>)
    ensures
        r is Ok <==> rate_supported(params.sample_rate),
        r matches Ok(v) ==> v.hz() == params.sample_rate,
        r matches Err(e) ==> e@ == rate_error(params.sample_rate),
{
    let hz: u32 = params.sample_rate;
    if hz == 8_000 {
        Ok(SampleRate::Hz8000)
    } else if hz == 12_000 {
        Ok(SampleRate::Hz12000)
    } else if hz == 16_000 {
        Ok(SampleRate::Hz16000)
    } else if hz == 24_000 {
        Ok(SampleRate::Hz24000)
    } else if hz == 48_000 {
        Ok(SampleRate::Hz48000)
    } else {
        let mut m = "unsupported opus sample rate ".to_owned();
        put_decimal(&mut m, hz as u64);
        put(&mut m, " Hz (allowed: 8000/12000/16000/24000/48000)");
        Err(Error::Audio(m))
    }
}

/// The error for an unsupported channel count.
pub open spec fn channels_error(n: u8) -> ErrorView {
    ErrorView::Audio(
        "unsupported opus channel count "@ + decimal(n as nat) + " (allowed: 1 mono, 2 stereo)"@,
    )
}

/// Translate a channel count, rejecting all but mono and stereo.
pub fn channels(params: &OpusParams) -> (r: Result<Channels>)
    ensures
        r is Ok <==> params.channels == 1 || params.channels == 2,
        r matches Ok(v) ==> v.count() == params.channels,
        r matches Err(e) ==> e@ == channels_error(params.channels),
{
    if params.channels == 1 {
        Ok(Channels::Mono)
    } else if params.channels == 2 {
        Ok(Channels::Stereo)
    } else {
        let mut m = "unsupported opus channel count ".to_owned();
        put_decimal(&mut m, params.channels as u64);
        put(&mut m, " (allowed: 1 mono, 2 stereo)");
        Err(Error::Audio(m))
    }
}

/// Whether a frame duration is supported.
pub open spec fn duration_supported(ms: u8) -> bool {
    ms == 10 || ms == 20 || ms == 40 || ms == 60
}

/// The error for a frame duration that is not.
pub open spec fn duration_error(ms: u8) -> ErrorView {
    ErrorView::Audio(
        "unsupported opus frame duration "@ + decimal(ms as nat) + " ms (allowed: 10/20/40/60; SPEC default 20)"@,
    )
}

/// Interleaved samples of one frame.
pub open spec fn samples_per_frame(p: OpusParams) -> nat {
    (p.sample_rate as nat * p.frame_ms as nat) / 1000 * (p.channels as nat)
}

/// Number of PCM samples in one frame, all channels together, validating the frame duration.
pub fn frame_samples(params: &OpusParams) -> (r: Result<usize>)
    requires
        duration_supported(params.frame_ms) ==> samples_per_frame(*params) <= usize::MAX,
    ensures
        r is Ok <==> duration_supported(params.frame_ms),
        r matches Ok(n) ==> n == samples_per_frame(*params),
        r matches Err(e) ==> e@ == duration_error(params.frame_ms),
{
    let ms: u8 = params.frame_ms;
    if !(ms == 10 || ms == 20 || ms == 40 || ms == 60) {
        let mut m = "unsupported opus frame duration ".to_owned();
        put_decimal(&mut m, ms as u64);
        put(&mut m, " ms (allowed: 10/20/40/60; SPEC default 20)");
        return Err(Error::Audio(m));
    }
    proof {
        assert(params.sample_rate * ms <= 0xffff_ffff * 60) by (nonlinear_arith)
            requires
                ms <= 60,
                params.sample_rate <= 0xffff_ffff,
        ;
    }
    let per_channel: u64 = (params.sample_rate as u64 * ms as u64) / 1000;
    proof {
        assert(per_channel * params.channels <= 0x1_0000_0000 * 255) by (nonlinear_arith)
            requires
                per_channel <= 0x1_0000_0000,
                params.channels <= 255,
        ;
    }
    Ok((per_channel * params.channels as u64) as usize)
}

/// The shape that a codec instance has for the given parameters.
pub open spec fn supported(p: OpusParams) -> bool {
    rate_supported(p.sample_rate) && (p.channels == 1 || p.channels == 2) && duration_supported(p.frame_ms)
}

/// Why parameters are refused: rate, channel count and frame duration are looked at in this order.
pub open spec fn refusal(p: OpusParams) -> ErrorView {
    if !rate_supported(p.sample_rate) {
        rate_error(p.sample_rate)
    } else if !(p.channels == 1 || p.channels == 2) {
        channels_error(p.channels)
    } else {
        duration_error(p.frame_ms)
    }
}

/// What the codec takes: five rates, one or two channels, and four frame durations; nothing else. A frame
/// then holds exactly its duration of samples.
pub proof fn law_what_the_codec_takes(p: OpusParams)
    ensures
        supported(p) <==> {
            &&& p.sample_rate == 8_000 || p.sample_rate == 12_000 || p.sample_rate == 16_000 || p.sample_rate == 24_000
                || p.sample_rate == 48_000
            &&& p.channels == 1 || p.channels == 2
            &&& p.frame_ms == 10 || p.frame_ms == 20 || p.frame_ms == 40 || p.frame_ms == 60
        },
        supported(p) ==> samples_per_frame(p) * 1000 == p.sample_rate * p.frame_ms * p.channels,
{
    if supported(p) {
        let (hz, ms, ch) = (p.sample_rate as int, p.frame_ms as int, p.channels as int);
        let khz = hz / 1000;
        let per = (hz * ms) / 1000;
        assert(hz * ms == 1000 * (khz * ms)) by (nonlinear_arith)
            requires
                hz == 1000 * khz,
        ;
        assert(per == khz * ms);
        assert((per * ch) * 1000 == hz * ms * ch) by (nonlinear_arith)
            requires
                hz * ms == 1000 * per,
        ;
    }
}

/// What is refused names the first parameter that is not taken: the rate, the channels, the duration.
pub proof fn law_refusals_name_the_parameter(p: OpusParams)
    ensures
        !(p.sample_rate == 8_000 || p.sample_rate == 12_000 || p.sample_rate == 16_000 || p.sample_rate == 24_000
            || p.sample_rate == 48_000) ==> refusal(p) == ErrorView::Audio(
            "unsupported opus sample rate "@ + decimal(p.sample_rate as nat)
                + " Hz (allowed: 8000/12000/16000/24000/48000)"@,
        ),
        rate_supported(p.sample_rate) && p.channels != 1 && p.channels != 2 ==> refusal(p) == ErrorView::Audio(
            "unsupported opus channel count "@ + decimal(p.channels as nat) + " (allowed: 1 mono, 2 stereo)"@,
        ),
        rate_supported(p.sample_rate) && (p.channels == 1 || p.channels == 2) ==> refusal(p) == ErrorView::Audio(
            "unsupported opus frame duration "@ + decimal(p.frame_ms as nat)
                + " ms (allowed: 10/20/40/60; SPEC default 20)"@,
        ),
{
}

/// The shape of a codec has the rate, the channels and the frame size of its parameters.
pub proof fn law_shapes_fit(s: CodecShape, p: OpusParams)
    requires
        s.fits(p),
    ensures
        s.rate is Hz8000 ==> p.sample_rate == 8_000,
        s.rate is Hz12000 ==> p.sample_rate == 12_000,
        s.rate is Hz16000 ==> p.sample_rate == 16_000,
        s.rate is Hz24000 ==> p.sample_rate == 24_000,
        s.rate is Hz48000 ==> p.sample_rate == 48_000,
        s.channels is Mono ==> p.channels == 1,
        s.channels is Stereo ==> p.channels == 2,
        s.frame_samples == samples_per_frame(p),
{
}

/// The validated shape of an encoder or decoder.
#[derive(Debug, Clone, Copy, PartialEq, Eq, Structural)]
pub struct CodecShape {
    /// Sample rate.
    pub rate: SampleRate,
    /// Channel layout.
    pub channels: Channels,
    /// Interleaved samples per frame.
    pub frame_samples: usize,
}

impl CodecShape {
    /// Whether this is the shape for `p`.
    pub open spec fn fits(self, p: OpusParams) -> bool {
        &&& self.rate.hz() == p.sample_rate
        &&& self.channels.count() == p.channels
        &&& self.frame_samples == samples_per_frame(p)
    }
}

fn shape_of(params: &OpusParams) -> (r: Result<CodecShape>)
    ensures
        r is Ok <==> supported(*params),
        r matches Ok(s) ==> s.fits(*params),
        r matches Err(e) ==> e@ == refusal(*params),
{
    let rate = match sample_rate(params) {
        Ok(v) => v,
        Err(e) => {
            return Err(e);
        },
    };
    let layout = match channels(params) {
        Ok(v) => v,
        Err(e) => {
            return Err(e);
        },
    };
    proof {
        let (hz, ms, ch) = (params.sample_rate, params.frame_ms, params.channels);
        assert(hz * ms <= 48_000 * 255) by (nonlinear_arith)
            requires
                hz <= 48_000,
                ms <= 255,
        ;
        let per = (hz as nat * ms as nat) / 1000;
        assert(per * ch <= 12_240 * 2) by (nonlinear_arith)
            requires
                per <= 12_240,
                ch <= 2,
        ;
    }
    match frame_samples(params) {
        Ok(n) => Ok(CodecShape { rate, channels: layout, frame_samples: n }),
        Err(e) => Err(e),
    }
}

/// The error that a failure inside the codec becomes.
pub fn opus_err(text: &str) -> (e: Error)
    ensures
        e@ == ErrorView::Audio("opus codec error: "@ + text@),
{
    Error::Audio(join2("opus codec error: ", text))
}

/// The encoding side: validated parameters, and the size rules of its input and output.
#[derive(Debug, Clone, Copy)]
pub struct OpusEncoder {
    params: OpusParams,
    shape: CodecShape,
}

impl OpusEncoder {
    /// The parameters.
    pub closed spec fn params_view(&self) -> OpusParams {
        self.params
    }

    #[verifier::type_invariant]
    spec fn valid(self) -> bool {
        supported(self.params) && self.shape.fits(self.params)
    }

    /// Validate parameters for encoding.
    pub fn new(params: OpusParams) -> (r: Result<OpusEncoder>)
        ensures
            r is Ok <==> supported(params),
            r matches Ok(e) ==> e.params_view() == params,
            r matches Err(e) ==> e@ == refusal(params),
    {
        match shape_of(&params) {
            Ok(shape) => Ok(OpusEncoder { params, shape }),
            Err(e) => Err(e),
        }
    }

    /// The shape of the codec instance to create.
    pub fn shape(&self) -> (s: CodecShape)
        ensures
            s.fits(self.params_view()),
    {
        proof {
            use_type_invariant(self);
        }
        self.shape
    }

    /// Require a frame to hold exactly one frame's worth of samples.
    pub fn check(&self, pcm: &PcmFrame) -> (r: Result<()>)
        ensures
            r is Ok <==> pcm.samples@.len() == samples_per_frame(self.params_view()),
            r matches Err(e) ==> e@ == length_error(pcm.samples@.len(), self.params_view()),
    {
        proof {
            use_type_invariant(self);
        }
        if pcm.samples.len() != self.shape.frame_samples {
            let mut m = "pcm frame length mismatch: got ".to_owned();
            put_decimal(&mut m, pcm.samples.len() as u64);
            put(&mut m, " samples, expected ");
            put_decimal(&mut m, self.shape.frame_samples as u64);
            put(&mut m, " (");
            put_decimal(&mut m, self.params.sample_rate as u64);
            put(&mut m, " Hz, ");
            put_decimal(&mut m, self.params.channels as u64);
            put(&mut m, " ch, ");
            put_decimal(&mut m, self.params.frame_ms as u64);
            put(&mut m, " ms)");
            return Err(Error::Audio(m));
        }
        Ok(())
    }

    /// The packet in the first `n` bytes of the output buffer.
    pub fn packet(&self, out: Vec<u8>, n: usize) -> (f: OpusFrame)
        ensures
            f.data@ == (if n <= out@.len() {
                out@.take(n as int)
            } else {
                out@
            }),
    {
        let mut data = out;
        if n <= data.len() {
            data.truncate(n);
            assert(data@ =~= out@.take(n as int));
        }
        OpusFrame { data }
    }
}

/// The error for a PCM frame of the wrong length.
pub open spec fn length_error(got: nat, p: OpusParams) -> ErrorView {
    ErrorView::Audio(
        "pcm frame length mismatch: got "@ + decimal(got) + " samples, expected "@ + decimal(samples_per_frame(p)) + " ("@
            + decimal(p.sample_rate as nat) + " Hz, "@ + decimal(p.channels as nat) + " ch, "@ + decimal(
            p.frame_ms as nat,
        ) + " ms)"@,
    )
}

/// The decoding side: validated parameters, and the size rules of its output.
#[derive(Debug, Clone, Copy)]
pub struct OpusDecoder {
    params: OpusParams,
    shape: CodecShape,
}

impl OpusDecoder {
    /// The parameters.
    pub closed spec fn params_view(&self) -> OpusParams {
        self.params
    }

    #[verifier::type_invariant]
    spec fn valid(self) -> bool {
        supported(self.params) && self.shape.fits(self.params)
    }

    /// Validate parameters for decoding.
    pub fn new(params: OpusParams) -> (r: Result<OpusDecoder>)
        ensures
            r is Ok <==> supported(params),
            r matches Ok(d) ==> d.params_view() == params,
            r matches Err(e) ==> e@ == refusal(params),
    {
        match shape_of(&params) {
            Ok(shape) => Ok(OpusDecoder { params, shape }),
            Err(e) => Err(e),
        }
    }

    /// The shape of the codec instance to create; its output buffer holds one frame.
    pub fn shape(&self) -> (s: CodecShape)
        ensures
            s.fits(self.params_view()),
    {
        proof {
            use_type_invariant(self);
        }
        self.shape
    }

    /// The decoded frame: the first `n` samples of each channel of the output buffer.
    pub fn pcm(&self, out: Vec<i16>, n: usize) -> (f: PcmFrame)
        requires
            n * self.params_view().channels <= usize::MAX,
        ensures
            f.samples@ == (if n * self.params_view().channels <= out@.len() {
                out@.take(n * self.params_view().channels)
            } else {
                out@
            }),
    {
        let mut samples = out;
        let keep: usize = n * self.params.channels as usize;
        if keep <= samples.len() {
            samples.truncate(keep);
            assert(samples@ =~= out@.take(keep as int));
        }
        PcmFrame { samples }
    }
}

} // verus!
