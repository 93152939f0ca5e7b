use tphone::audio::capture::{capture_frame_len, frame_len, CaptureInner};
use tphone::audio::codec::{
    channels, frame_samples, opus_err, sample_rate, Channels, OpusDecoder, OpusEncoder, SampleRate, MAX_PACKET_BYTES,
};
use tphone::audio::playback::{
    apply_gain, duration_to_samples, fan_out, to_u16_sample, JitterBuffer, PLAYBACK_GAIN,
};
use tphone::audio::voice::{Noise, VoiceEffect};
use tphone::audio::{
    after_offer, capture_turn, poll_interval_ms, AudioConfig, CaptureCmd, CaptureTurn, Offer, PcmFrame, Polled, PumpNext,
    SyntheticBackend, DEFAULT_JITTER_LEAD_MS,
};
use tphone::config::OpusParams;
use tphone::error::Error;

fn params(sample_rate: u32, frame_ms: u8) -> OpusParams {
    OpusParams {
        sample_rate,
        channels: 1,
        bitrate: 24_000,
        frame_ms,
    }
}

fn cfg() -> AudioConfig {
    AudioConfig {
        opus: OpusParams::default(),
        voice_effect: VoiceEffect::default(),
    }
}

fn audio_message(e: Error) -> String {
    match e {
        Error::Audio(m) => m,
        other => panic!("expected an audio error, got {other:?}"),
    }
}

// Capture.

#[test]
fn frame_len_matches_spec_defaults() {
    // 20 ms @ 16 kHz = 320 samples.
    assert_eq!(frame_len(16_000, 20), 320);
    // 20 ms @ 48 kHz = 960 samples.
    assert_eq!(frame_len(48_000, 20), 960);
    // 40 ms @ 8 kHz = 320 samples.
    assert_eq!(frame_len(8_000, 40), 320);
}

#[test]
fn passthrough_when_rates_equal_produces_exact_frame() {
    let mut inner = CaptureInner::new(frame_len(16_000, 20)); // frame_len 320
    inner.set_ptt(true);
    assert!(inner.next_frame().is_none(), "no samples yet");

    // Feed exactly one frame's worth.
    let buf: Vec<i16> = (0..320)
        .map(|i| (((i as f32 / 320.0) - 0.5) * 32767.0) as i16)
        .collect();
    inner.feed(&buf);

    let frame = inner.next_frame().expect("a full frame");
    assert_eq!(frame.samples.len(), 320);
    assert_eq!(frame.samples, buf);
    // No leftover: next poll is empty.
    assert!(inner.next_frame().is_none());
}

#[test]
fn gate_closed_drops_audio() {
    let mut inner = CaptureInner::new(320);
    inner.set_ptt(false);
    inner.feed(&[16_383i16; 1000]);
    assert!(inner.next_frame().is_none());
    assert_eq!(inner.pending_len(), 0);
    assert!(!inner.is_open());
}

#[test]
fn frames_keep_the_captured_stream() {
    let mut inner = CaptureInner::new(3);
    assert!(!inner.set_ptt(true));
    inner.feed(&[1, 2]);
    assert!(inner.next_frame().is_none());
    inner.feed(&[3, 4, 5, 6, 7]);
    assert_eq!(inner.next_frame().unwrap().samples, vec![1, 2, 3]);
    assert_eq!(inner.next_frame().unwrap().samples, vec![4, 5, 6]);
    assert!(inner.next_frame().is_none());
    assert_eq!(inner.pending_len(), 1);
    // Letting go drops the tail, so it is not spliced onto the next utterance.
    assert!(inner.set_ptt(false));
    assert!(!inner.set_ptt(false));
    assert_eq!(inner.pending_len(), 0);
    inner.set_ptt(true);
    inner.feed(&[8, 9, 10]);
    assert_eq!(inner.next_frame().unwrap().samples, vec![8, 9, 10]);
}

#[test]
fn an_interval_without_samples_is_refused() {
    assert_eq!(capture_frame_len(&cfg()).unwrap(), 320);
    let empty = AudioConfig {
        opus: params(16_000, 0),
        voice_effect: VoiceEffect::Off,
    };
    assert_eq!(
        audio_message(capture_frame_len(&empty).unwrap_err()),
        "opus frame interval resolves to zero samples"
    );
}

// Codec parameters.

#[test]
fn frame_samples_math() {
    // 16 kHz wideband
    assert_eq!(frame_samples(&params(16_000, 20)).unwrap(), 320);
    assert_eq!(frame_samples(&params(16_000, 40)).unwrap(), 640);
    // 8 kHz narrowband
    assert_eq!(frame_samples(&params(8_000, 20)).unwrap(), 160);
    assert_eq!(frame_samples(&params(8_000, 40)).unwrap(), 320);
}

#[test]
fn rejects_bad_params() {
    assert!(sample_rate(&params(44_100, 20)).is_err());
    assert!(frame_samples(&params(16_000, 33)).is_err());
    let mut bad = params(16_000, 20);
    bad.channels = 7;
    assert!(channels(&bad).is_err());
}

#[test]
fn bad_params_are_named() {
    assert_eq!(
        audio_message(sample_rate(&params(44_100, 20)).unwrap_err()),
        "unsupported opus sample rate 44100 Hz (allowed: 8000/12000/16000/24000/48000)"
    );
    let mut bad = params(16_000, 20);
    bad.channels = 7;
    assert_eq!(
        audio_message(channels(&bad).unwrap_err()),
        "unsupported opus channel count 7 (allowed: 1 mono, 2 stereo)"
    );
    assert_eq!(
        audio_message(frame_samples(&params(16_000, 33)).unwrap_err()),
        "unsupported opus frame duration 33 ms (allowed: 10/20/40/60; SPEC default 20)"
    );
    assert_eq!(opus_err("invalid argument").message(), "audio error: opus codec error: invalid argument");
    // The rate is looked at first, then the channels, then the duration.
    let mut all_bad = params(1, 1);
    all_bad.channels = 0;
    assert!(audio_message(OpusEncoder::new(all_bad).err().unwrap()).contains("sample rate"));
    all_bad.sample_rate = 8_000;
    assert!(audio_message(OpusDecoder::new(all_bad).err().unwrap()).contains("channel count"));
    all_bad.channels = 2;
    assert!(audio_message(OpusDecoder::new(all_bad).err().unwrap()).contains("frame duration"));
}

#[test]
fn default_params_are_supported() {
    // The default (16k/mono/24kbps/20ms) must build cleanly.
    let p = OpusParams::default();
    OpusEncoder::new(p).unwrap();
    OpusDecoder::new(p).unwrap();
    assert_eq!(frame_samples(&p).unwrap(), 320);
}

#[test]
fn supported_shapes_are_exact() {
    for (hz, rate) in [
        (8_000, SampleRate::Hz8000),
        (12_000, SampleRate::Hz12000),
        (16_000, SampleRate::Hz16000),
        (24_000, SampleRate::Hz24000),
        (48_000, SampleRate::Hz48000),
    ] {
        for ms in [10u8, 20, 40, 60] {
            for (n, layout) in [(1u8, Channels::Mono), (2, Channels::Stereo)] {
                let mut p = params(hz, ms);
                p.channels = n;
                let shape = OpusEncoder::new(p).unwrap().shape();
                assert_eq!(shape.rate, rate);
                assert_eq!(shape.channels, layout);
                assert_eq!(shape.frame_samples, hz as usize * ms as usize / 1000 * n as usize);
                assert_eq!(OpusDecoder::new(p).unwrap().shape(), shape);
            }
        }
    }
}

#[test]
fn rejects_wrong_pcm_length() {
    let p = OpusParams::default();
    let enc = OpusEncoder::new(p).unwrap();
    let bad = PcmFrame {
        samples: vec![0i16; frame_samples(&p).unwrap() + 1],
    };
    match enc.check(&bad) {
        Err(Error::Audio(_)) => {}
        other => panic!("expected Error::Audio for bad pcm length, got {other:?}"),
    }
    assert_eq!(
        audio_message(enc.check(&bad).unwrap_err()),
        "pcm frame length mismatch: got 321 samples, expected 320 (16000 Hz, 1 ch, 20 ms)"
    );
    let good = PcmFrame {
        samples: vec![0i16; 320],
    };
    assert!(enc.check(&good).is_ok());
}

#[test]
fn codec_buffers_are_cut_to_size() {
    let enc = OpusEncoder::new(OpusParams::default()).unwrap();
    let packet = enc.packet(vec![7u8; MAX_PACKET_BYTES], 61);
    assert_eq!(packet.data, vec![7u8; 61]);
    let mut stereo = OpusParams::default();
    stereo.channels = 2;
    let dec = OpusDecoder::new(stereo).unwrap();
    assert_eq!(dec.pcm(vec![1, 2, 3, 4, 5, 6], 2).samples, vec![1, 2, 3, 4]);
}

// The capture thread and pump.

#[test]
fn ptt_gates_synthetic_capture() {
    let backend = SyntheticBackend::new();
    let mut source = backend.open_capture(cfg()).unwrap();

    // Gate closed by default: nothing.
    assert!(source.next_frame().is_none(), "no frames before PTT engaged");

    source.set_ptt(true);
    let frame = source.next_frame().expect("a frame while PTT held");
    assert!(frame.len > 0, "the frame is non-empty");
    assert_eq!((frame.start, frame.len, frame.sample_rate), (0, 320, 16_000));
    // The tone goes on where it stopped.
    assert_eq!(source.next_frame().unwrap().start, 320);

    source.set_ptt(false);
    assert!(source.next_frame().is_none(), "no frames after PTT released");

    // Each press starts the tone over.
    source.set_ptt(true);
    assert_eq!(source.next_frame().unwrap().start, 0);
}

#[test]
fn synthetic_playback_keeps_what_is_played() {
    let mut backend = SyntheticBackend::new();
    assert!(backend.sink_handle().is_empty(), "nothing is played yet");
    backend.play(&PcmFrame {
        samples: vec![1, -2, 3],
    });
    backend.play(&PcmFrame { samples: vec![] });
    backend.play(&PcmFrame { samples: vec![4] });
    assert_eq!(backend.sink_handle(), &[1, -2, 3, 4]);
}

#[test]
fn synthetic_capture_refuses_bad_params() {
    let backend = SyntheticBackend::new();
    let mut c = cfg();
    c.opus.frame_ms = 0;
    assert_eq!(
        audio_message(backend.open_capture(c).unwrap_err()),
        "synthetic capture: opus frame interval resolves to zero samples"
    );
    c.opus.frame_ms = 33;
    assert!(audio_message(backend.open_capture(c).unwrap_err()).contains("33 ms"));
}

#[test]
fn capture_thread_obeys_its_commands() {
    assert_eq!(
        capture_turn(Polled::Command(CaptureCmd::Ptt(true))),
        CaptureTurn::SetGate(true)
    );
    assert_eq!(
        capture_turn(Polled::Command(CaptureCmd::Ptt(false))),
        CaptureTurn::SetGate(false)
    );
    assert_eq!(capture_turn(Polled::Command(CaptureCmd::Stop)), CaptureTurn::Quit);
    assert_eq!(capture_turn(Polled::Disconnected), CaptureTurn::Quit);
    assert_eq!(capture_turn(Polled::Empty), CaptureTurn::Proceed);
}

#[test]
fn capture_pump_is_never_wedged() {
    assert_eq!(after_offer(Offer::Sent, true), PumpNext::NextFrame);
    assert_eq!(after_offer(Offer::Full, true), PumpNext::Retry);
    assert_eq!(after_offer(Offer::Closed, true), PumpNext::Stop);
    for offer in [Offer::Sent, Offer::Full, Offer::Closed] {
        assert_eq!(after_offer(offer, false), PumpNext::Stop);
    }
    assert_eq!(poll_interval_ms(20), 10);
    assert_eq!(poll_interval_ms(1), 1);
    assert_eq!(poll_interval_ms(0), 1);
    assert_eq!(DEFAULT_JITTER_LEAD_MS, 250);
}

// Playback.

#[test]
fn duration_to_samples_matches_rate() {
    // 250 ms @ 16 kHz = 4000 samples.
    assert_eq!(duration_to_samples(250, 16_000), 4000);
    // 20 ms @ 48 kHz = 960 samples.
    assert_eq!(duration_to_samples(20, 48_000), 960);
    assert_eq!(duration_to_samples(0, 16_000), 0);
}

#[test]
fn duration_to_samples_rounds_to_the_nearest() {
    // 1 ms @ 44.1 kHz = 44.1 samples; 15 ms = 661.5.
    assert_eq!(duration_to_samples(1, 44_100), 44);
    assert_eq!(duration_to_samples(15, 44_100), 662);
    assert_eq!(duration_to_samples(u64::MAX, u32::MAX), usize::MAX);
    // 1.001 s is a little less than that in double precision, and so is the product.
    assert_eq!(duration_to_samples(1_001, 500), 500);
    for rate in [0u32, 1, 500, 8_000, 11_025, 16_000, 22_050, 44_100, 48_000, 96_000, u32::MAX] {
        for ms in 0..3_000u64 {
            let secs = std::time::Duration::from_millis(ms).as_secs_f64();
            assert_eq!(duration_to_samples(ms, rate), (secs * rate as f64).round() as usize);
        }
        for shift in 0..64u32 {
            let ms = (u64::MAX - 12_345) >> shift;
            let secs = std::time::Duration::from_millis(ms).as_secs_f64();
            assert_eq!(duration_to_samples(ms, rate), (secs * rate as f64).round() as usize);
        }
    }
}

#[test]
fn playout_waits_for_lead() {
    let mut jb = JitterBuffer::new(100); // need 100 samples before playout
    jb.push(vec![1; 50]); // below lead

    let mut out = [9i16; 32];
    let written = jb.fill(&mut out);
    assert_eq!(written, 0, "must not play before lead is reached");
    assert!(out.iter().all(|&s| s == 0), "pre-lead output is silence");
    assert!(!jb.playing);
    // Samples were preserved (not drained while gated).
    assert_eq!(jb.len(), 50);
}

#[test]
fn playout_starts_once_lead_reached_and_drains_in_order() {
    let mut jb = JitterBuffer::new(4);
    // Push two frames; ordering must be preserved across frame boundaries.
    jb.push(vec![1, 2, 3, 4]);
    jb.push(vec![5, 6, 7, 8]);

    let mut out = [0i16; 6];
    let written = jb.fill(&mut out);
    assert_eq!(written, 6);
    assert_eq!(out, [1, 2, 3, 4, 5, 6], "FIFO order preserved");
    assert!(jb.playing);
    assert_eq!(jb.len(), 2, "remaining buffered");
}

#[test]
fn underrun_pads_silence_and_rearms_lead() {
    let mut jb = JitterBuffer::new(2);
    jb.push(vec![10, 20, 30]); // reaches lead of 2

    let mut out = [0i16; 5];
    let written = jb.fill(&mut out);
    assert_eq!(written, 3, "only 3 real samples available");
    assert_eq!(out, [10, 20, 30, 0, 0], "shortfall padded with silence");
    // Underrun re-arms the lead: playout must re-buffer the lead before resuming.
    assert!(!jb.playing, "underrun re-arms lead gate");

    // A subsequent fill with insufficient buffer stays silent.
    jb.push(vec![40]); // 1 sample, below lead of 2
    let mut out2 = [7i16; 4];
    let w2 = jb.fill(&mut out2);
    assert_eq!(w2, 0);
    assert!(out2.iter().all(|&s| s == 0));
}

#[test]
fn zero_lead_plays_immediately() {
    let mut jb = JitterBuffer::new(0);
    let mut out = [0i16; 3];
    // Empty and no lead: silence, not yet playing.
    assert_eq!(jb.fill(&mut out), 0);

    jb.push(vec![1, 2]);
    let w = jb.fill(&mut out);
    assert_eq!(w, 2);
    assert_eq!(out, [1, 2, 0]);
}

#[test]
fn apply_gain_scales_and_saturates() {
    // Unity gain is an exact no-op.
    let mut s = vec![100, -100, 0, 32767, -32768];
    apply_gain(&mut s, 1);
    assert_eq!(s, vec![100, -100, 0, 32767, -32768]);

    // 4x boost scales quiet samples and saturates loud ones (no wraparound).
    let mut s = vec![100, -100, 10_000, -10_000];
    apply_gain(&mut s, 4);
    assert_eq!(s, vec![400, -400, i16::MAX, i16::MIN]);

    // The default playout gain is a real boost (> unity).
    assert!(PLAYBACK_GAIN > 1, "playout must apply makeup gain");
}

#[test]
fn buffer_is_depth_capped() {
    let mut jb = JitterBuffer::new(10); // max = 40
    // Push way more than the cap.
    jb.push(vec![0i16; 1000]);
    assert!(jb.len() <= jb.max_samples, "depth cap bounds latency");
    // Newest samples are retained (oldest dropped).
    jb.push((0..100).collect());
    assert!(jb.len() <= jb.max_samples);
    assert_eq!(jb.max_samples, 40);
    let mut out = [0i16; 40];
    assert_eq!(jb.fill(&mut out), 40);
    assert_eq!(out[0], 60);
    assert_eq!(out[39], 99);
}

#[test]
fn caps_follow_the_lead() {
    assert_eq!(JitterBuffer::new(0).max_samples, 32);
    assert_eq!(JitterBuffer::new(7).max_samples, 32);
    assert_eq!(JitterBuffer::new(4000).max_samples, 16_000);
    assert_eq!(JitterBuffer::new(usize::MAX - 1).max_samples, usize::MAX);
}

#[test]
fn decoded_frames_are_amplified_on_their_way_in() {
    let mut jb = JitterBuffer::new(0);
    jb.enqueue(PcmFrame {
        samples: vec![1, -2, 30_000],
    });
    let mut out = [0i16; 3];
    jb.fill(&mut out);
    assert_eq!(out, [4, -8, i16::MAX]);
}

#[test]
fn device_samples_fan_out() {
    assert_eq!(fan_out(&[1, 2, 3], 2), vec![1, 1, 2, 2, 3, 3]);
    assert_eq!(fan_out(&[5, 6], 1), vec![5, 6]);
    assert_eq!(to_u16_sample(0), 32_768);
    assert_eq!(to_u16_sample(i16::MIN), 0);
    assert_eq!(to_u16_sample(i16::MAX), 65_535);
}

// Voice.

#[test]
fn noise_is_a_scrambled_xorshift() {
    let mut noise = Noise::default();
    let mut x: u64 = 0x9E37_79B9_7F4A_7C15;
    for _ in 0..1000 {
        x ^= x >> 12;
        x ^= x << 25;
        x ^= x >> 27;
        let expected = (x.wrapping_mul(0x2545_F491_4F6C_DD1D) >> 40) as u32;
        assert_eq!(noise.next_bits(), expected);
        assert_eq!(noise.rng, x);
        assert_ne!(noise.rng, 0);
    }
}

#[test]
fn only_off_is_inactive() {
    assert!(!VoiceEffect::Off.is_active());
    for e in [
        VoiceEffect::Robot,
        VoiceEffect::Tremolo,
        VoiceEffect::Overdrive,
        VoiceEffect::Telephone,
        VoiceEffect::Whisper,
    ] {
        assert!(e.is_active());
    }
    assert_eq!(VoiceEffect::default(), VoiceEffect::Off);
}
