//! Outgoing voice effects: the selectable set and the noise source behind the whisper effect.

use vstd::prelude::*;

verus! {

/// A selectable outgoing-voice effect. [`VoiceEffect::Off`] is the default and leaves the signal
/// untouched.
#[derive(Debug, Clone, Copy, PartialEq, Eq, Structural)]
pub enum VoiceEffect {
    /// No effect.
    Off,
    /// Ring modulation against a fixed carrier sine.
    Robot,
    /// Low-frequency amplitude modulation.
    Tremolo,
    /// Soft-clip distortion with input drive.
    Overdrive,
    /// Band-limited telephone voice.
    Telephone,
    /// Noise shaped by the speech envelope.
    Whisper,
}

impl Default for VoiceEffect {
    fn default() -> (e: VoiceEffect)
        ensures
            e == VoiceEffect::Off,
    {
        VoiceEffect::Off
    }
}

impl VoiceEffect {
    /// Whether this effect changes the signal.
    pub fn is_active(self) -> (r: bool)
        ensures
            r == (self != VoiceEffect::Off),
    {
        match self {
            VoiceEffect::Off => false,
            _ => true,
        }
    }
}

/// The seed of the noise source.
pub const NOISE_SEED: u64 = 0x9E37_79B9_7F4A_7C15;

/// The multiplier that scrambles the generator's state into its output.
pub const NOISE_SCRAMBLE: u64 = 0x2545_F491_4F6C_DD1D;

/// One step of the xorshift64 generator.
pub open spec fn xorshift(x: u64) -> u64 {
    let a = x ^ (x >> 12);
    let b = a ^ (a << 25);
    b ^ (b >> 27)
}

/// The generator's state from which the next step is taken: zero stands for not seeded yet.
pub open spec fn seeded(rng: u64) -> u64 {
    if rng == 0 {
        NOISE_SEED
    } else {
        rng
    }
}

/// The deterministic noise behind the whisper effect: an xorshift64* generator, seeded on first use.
#[derive(Debug, Clone, Copy, PartialEq, Eq, Structural)]
pub struct Noise {
    /// The generator's state; zero until first use.
    pub rng: u64,
}

impl Default for Noise {
    fn default() -> (n: Noise)
        ensures
            n.rng == 0,
    {
        Noise { rng: 0 }
    }
}

/// The generator never gets stuck: from a state other than zero it moves to one other than zero.
pub proof fn law_noise_never_sticks(x: u64)
    requires
        x != 0,
    ensures
        xorshift(x) != 0,
{
    assert(x != 0 ==> {
        let a = x ^ (x >> 12);
        let b = a ^ (a << 25);
        (b ^ (b >> 27)) != 0
    }) by (bit_vector);
}

impl Noise {
    /// Advance the generator and return the 24 high bits of its scrambled state.
    pub fn next_bits(&mut self) -> (v: u32)
        ensures
            final(self).rng == xorshift(seeded(old(self).rng)),
            ({
                let x = if old(self).rng == 0 {
                    0x9E37_79B9_7F4A_7C15u64
                } else {
                    old(self).rng
                };
                let a = x ^ (x >> 12);
                let b = a ^ (a << 25);
                final(self).rng == b ^ (b >> 27)
            }),
            final(self).rng != 0,
            v == (final(self).rng * NOISE_SCRAMBLE) % 0x1_0000_0000_0000_0000 / 0x100_0000_0000,
            v < 0x100_0000,
    {
        let x: u64 = if self.rng == 0 {
            NOISE_SEED
        } else {
            self.rng
        };
        proof {
            law_noise_never_sticks(x);
        }
        let a: u64 = x ^ (x >> 12);
        let b: u64 = a ^ (a << 25);
        let c: u64 = b ^ (b >> 27);
        self.rng = c;
        let v: u64 = c.wrapping_mul(NOISE_SCRAMBLE);
        assert(v >> 40 == v / 0x100_0000_0000 && v >> 40 < 0x100_0000) by (bit_vector);
        (v >> 40) as u32
    }
}

} // verus!
