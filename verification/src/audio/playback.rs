//! Playback: makeup gain, the jitter buffer, and the fan-out to device channels.

use std::collections::VecDeque;
use vstd::arithmetic::div_mod::lemma_fundamental_div_mod;
use vstd::prelude::*;

use crate::audio::PcmFrame;
use crate::double::{
    double_step, double_step_exec, law_doubles_are_close, law_rounding_is_to_the_nearest, lemma_double_step_small,
    lemma_nearest_double_bounds, nearest_double, nearest_double_exec, nearest_quotient, round_even, round_even_exec,
};

verus! {

/// Linear makeup gain applied to decoded audio before playout.
pub const PLAYBACK_GAIN: u8 = 4;

/// The smallest cap on buffered samples.
pub const MIN_CAP: usize = 32;

/// `v` clamped to the range of a sample.
pub open spec fn clamp_sample(v: int) -> int {
    if v > i16::MAX {
        i16::MAX as int
    } else if v < i16::MIN {
        i16::MIN as int
    } else {
        v
    }
}

/// Samples scaled by a gain, saturating.
pub open spec fn amplified(s: Seq<i16>, gain: u8) -> Seq<i16> {
    s.map_values(|v: i16| clamp_sample(v * gain) as i16)
}

/// Scale `samples` in place by `gain`, saturating at the sample range so a boosted loud sample clips
/// instead of wrapping.
pub fn apply_gain(samples: &mut Vec<i16>, gain: u8)
    ensures
        final(samples)@ == amplified(old(samples)@, gain),
        final(samples)@.len() == old(samples)@.len(),
        forall|i: int|
            0 <= i < old(samples)@.len() && -32768 <= old(samples)@[i] * gain <= 32767 ==> #[trigger] final(samples)@[i]
                == old(samples)@[i] * gain,
{
    let n: usize = samples.len();
    let mut i: usize = 0;
    while i < n
        invariant
            i <= n,
            n == samples@.len(),
            samples@.len() == old(samples)@.len(),
            forall|k: int| 0 <= k < i ==> samples@[k] == clamp_sample(old(samples)@[k] * gain) as i16,
            forall|k: int| i <= k < n ==> samples@[k] == old(samples)@[k],
        decreases n - i,
    {
        let s: i16 = samples[i];
        proof {
            assert(-32768 * 255 <= s * gain <= 32767 * 255) by (nonlinear_arith)
                requires
                    -32768 <= s <= 32767,
                    0 <= gain <= 255,
            ;
        }
        let v: i32 = s as i32 * gain as i32;
        let c: i16 = if v > 32767 {
            32767
        } else if v < -32768 {
            -32768
        } else {
            v as i16
        };
        samples[i] = c;
        i = i + 1;
    }
    assert(samples@ =~= amplified(old(samples)@, gain));
}

/// Gain multiplies every sample by itself, and holds at the end of the range of its sign what would
/// leave the range.
pub proof fn law_gain_multiplies_and_clips(s: Seq<i16>, gain: u8, i: int)
    requires
        0 <= i < s.len(),
    ensures
        amplified(s, gain).len() == s.len(),
        -32768 <= s[i] * gain <= 32767 ==> amplified(s, gain)[i] == s[i] * gain,
        s[i] * gain > 32767 ==> amplified(s, gain)[i] == 32767,
        s[i] * gain < -32768 ==> amplified(s, gain)[i] == -32768,
{
}

/// Unity gain changes nothing.
pub proof fn law_unity_gain_is_identity(s: Seq<i16>)
    ensures
        amplified(s, 1) == s,
{
    assert(amplified(s, 1) =~= s);
}

/// How many units of a second there are in one second, for time in double precision: the finest
/// spacing that a whole number of milliseconds needs.
pub const SECOND_UNITS: u128 = 0x4000_0000_0000_0000;

/// A span of time in double-precision seconds, counted in units of 1 / [`SECOND_UNITS`] s: the whole
/// seconds, and the rest as a fraction of a second, each rounded, and then their sum.
pub open spec fn span_units(ms: u64) -> nat {
    let whole = nearest_double((ms / 1000) as nat) * SECOND_UNITS as nat;
    let rest = nearest_quotient((ms % 1000) as nat * SECOND_UNITS as nat, 1000);
    nearest_double(whole + rest)
}

/// Samples in a span of time: seconds times rate in double precision, to the nearest whole number
/// with halves up, capped at the largest count.
pub open spec fn samples_in(ms: u64, rate: u32) -> nat {
    let units = nearest_double(span_units(ms) * rate as nat);
    let n = (units + SECOND_UNITS as nat / 2) / SECOND_UNITS as nat;
    if n > usize::MAX {
        usize::MAX as nat
    } else {
        n
    }
}

proof fn lemma_rest_is_close(k: nat)
    requires
        k < 1000,
    ensures
        ({
            let rest = nearest_quotient(k * SECOND_UNITS as nat, 1000);
            &&& (1000 * rest - k * SECOND_UNITS) * 0x20_0000_0000_0000 <= k * SECOND_UNITS
            &&& (k * SECOND_UNITS - 1000 * rest) * 0x20_0000_0000_0000 <= k * SECOND_UNITS
        }),
{
    let a = k * SECOND_UNITS as nat;
    let g = double_step(a / 1000);
    let re = round_even(a, 1000 * g);
    lemma_double_step_small(a / 1000);
    law_rounding_is_to_the_nearest(a, 1000 * g);
    assert(re * (1000 * g) == 1000 * (re * g)) by (nonlinear_arith);
}

/// A span of time holds as many samples as come nearest to it: time times rate is never off by more than
/// half a sample. This is stated for up to some 10^12 samples, far beyond any span in use.
pub proof fn law_samples_come_nearest_to_the_span(ms: u64, rate: u32)
    requires
        ms * rate <= 0x4_0000_0000_0000,
        ms * rate + 500 <= 1000 * usize::MAX,
    ensures
        -500 <= samples_in(ms, rate) * 1000 - ms * rate <= 500,
{
    let unit = SECOND_UNITS as int;
    let (m, r) = (ms as int, rate as int);
    let (secs, k) = ((ms / 1000) as nat, (ms % 1000) as nat);
    let rest = nearest_quotient(k * SECOND_UNITS as nat, 1000);
    let t = span_units(ms) as int;
    let tr = t * r;
    let p = nearest_double((span_units(ms) * rate as nat)) as int;
    let n = (p + unit / 2) / unit;
    if r == 0 {
        law_doubles_are_close(0);
        assert(t * 0 == 0 && m * 0 == 0) by (nonlinear_arith);
    } else {
        assert(m <= m * r) by (nonlinear_arith)
            requires
                m >= 0,
                r >= 1,
        ;
        law_doubles_are_close(secs);
        lemma_rest_is_close(k);
        let x = secs * unit + rest;
        let e = 1000 * rest - k * unit;
        assert(1000 * x == m * unit + e);
        law_doubles_are_close(x as nat);
        law_doubles_are_close((span_units(ms) * rate as nat));
        let xr = x * r;
        let er = e * r;
        let mr = m * r;
        assert(1000 * xr == mr * unit + er) by (nonlinear_arith)
            requires
                1000 * x == m * unit + e,
                xr == x * r,
                er == e * r,
                mr == m * r,
        ;
        assert((tr - xr) * 0x20_0000_0000_0000 <= xr && (xr - tr) * 0x20_0000_0000_0000 <= xr) by (nonlinear_arith)
            requires
                (t - x) * 0x20_0000_0000_0000 <= x,
                (x - t) * 0x20_0000_0000_0000 <= x,
                tr == t * r,
                xr == x * r,
                r >= 1,
        ;
        assert(er * 0x20_0000_0000_0000 <= mr * unit && -er * 0x20_0000_0000_0000 <= mr * unit) by (nonlinear_arith)
            requires
                e * 0x20_0000_0000_0000 <= m * unit,
                -e * 0x20_0000_0000_0000 <= m * unit,
                er == e * r,
                mr == m * r,
                r >= 1,
        ;
        assert(0 <= mr);
        assert(-unit <= 2 * (n * unit - p) <= unit);
        assert(n * unit * 1000 - mr * unit == 1000 * (n * unit - p) + 1000 * (p - tr) + 1000 * (tr - xr) + er);
        assert(-501 * unit < n * unit * 1000 - mr * unit < 501 * unit);
    }
}

fn rest_units(k: u128) -> (r: u128)
    requires
        k < 1000,
    ensures
        r == nearest_quotient(k as nat * SECOND_UNITS as nat, 1000),
        r <= 2 * SECOND_UNITS,
{
    let a: u128 = k * SECOND_UNITS;
    let g: u128 = double_step_exec(a / 1000);
    let q: u128 = round_even_exec(a, 1000 * g);
    proof {
        let b = 1000 * g;
        let d = a as int / b as int;
        lemma_fundamental_div_mod(a as int, b as int);
        assert(b * d == 1000 * (d * g)) by (nonlinear_arith)
            requires
                b == 1000 * g,
        ;
        assert(q * g <= d * g + g) by (nonlinear_arith)
            requires
                q <= d + 1,
                g >= 0,
        ;
        assert(0 <= q * g) by (nonlinear_arith)
            requires
                q >= 0,
                g >= 0,
        ;
    }
    q * g
}

fn span_units_exec(ms: u64) -> (t: u128)
    ensures
        t == span_units(ms),
{
    let whole: u128 = nearest_double_exec((ms / 1000) as u128);
    let rest: u128 = rest_units((ms % 1000) as u128);
    nearest_double_exec(whole * SECOND_UNITS + rest)
}

/// Convert a span of milliseconds to a sample count at `rate`.
pub fn duration_to_samples(ms: u64, rate: u32) -> (n: usize)
    ensures
        n == samples_in(ms, rate),
{
    let t: u128 = span_units_exec(ms);
    proof {
        lemma_nearest_double_bounds((t * rate) as nat);
    }
    match t.checked_mul(rate as u128) {
        Some(product) if product <= 0x7fff_ffff_ffff_ffff_ffff_ffff_ffff_ffff => {
            let units: u128 = nearest_double_exec(product);
            let n: u128 = units / SECOND_UNITS + if units % SECOND_UNITS >= SECOND_UNITS / 2 {
                1u128
            } else {
                0u128
            };
            if n > usize::MAX as u128 {
                usize::MAX
            } else {
                n as usize
            }
        },
        _ => usize::MAX,
    }
}

/// Ordered, depth-capped jitter buffer. Playout starts once the lead has accumulated.
#[derive(Debug)]
pub struct JitterBuffer {
    /// Pending mono samples, oldest first.
    pub samples: VecDeque<i16>,
    /// Samples to accumulate before playout begins.
    pub lead_samples: usize,
    /// Whether playout has started.
    pub playing: bool,
    /// Hard cap on buffered samples.
    pub max_samples: usize,
}

/// What a [`JitterBuffer`] holds.
#[verifier::ext_equal]
pub struct JitterView {
    pub samples: Seq<i16>,
    pub lead: nat,
    pub playing: bool,
    pub cap: nat,
}

impl View for JitterBuffer {
    type V = JitterView;

    open spec fn view(&self) -> JitterView {
        JitterView {
            samples: self.samples@,
            lead: self.lead_samples as nat,
            playing: self.playing,
            cap: self.max_samples as nat,
        }
    }
}

/// The cap for a lead: four times the lead, but more than the lead and never tiny.
pub open spec fn cap_for(lead: nat) -> nat {
    let four = if 4 * lead > usize::MAX {
        usize::MAX as nat
    } else {
        4 * lead
    };
    let above = if four > lead + 1 {
        four
    } else {
        lead + 1
    };
    if above > MIN_CAP {
        above
    } else {
        MIN_CAP as nat
    }
}

/// The newest `n` elements of `s`, or all if there are fewer.
pub open spec fn newest(s: Seq<i16>, n: nat) -> Seq<i16> {
    if s.len() <= n {
        s
    } else {
        s.skip(s.len() - n)
    }
}

impl JitterView {
    /// The buffer once more samples were pushed: beyond the cap the oldest are dropped.
    pub open spec fn pushed(self, frame: Seq<i16>) -> JitterView {
        JitterView { samples: newest(self.samples + frame, self.cap), ..self }
    }

    /// Whether a device that asks now gets audio: playout runs already, or the lead is reached (or
    /// there is no lead and anything is there).
    pub open spec fn plays(self) -> bool {
        self.playing || (self.lead > 0 && self.samples.len() >= self.lead) || (self.lead == 0 && self.samples.len() > 0)
    }

    /// Real samples handed out to a device that asks for `n`.
    pub open spec fn handed(self, n: nat) -> nat {
        if !self.plays() {
            0
        } else if self.samples.len() < n {
            self.samples.len()
        } else {
            n
        }
    }

    /// What a device that asks for `n` samples gets: real samples, and silence behind them.
    pub open spec fn output(self, n: nat) -> Seq<i16> {
        self.samples.take(self.handed(n) as int) + Seq::new((n - self.handed(n)) as nat, |i: int| 0i16)
    }

    /// The buffer after a device asked for `n` samples. Running dry re-arms the lead.
    pub open spec fn drained(self, n: nat) -> JitterView {
        if !self.plays() {
            self
        } else {
            JitterView {
                samples: self.samples.skip(self.handed(n) as int),
                playing: !(self.handed(n) < n && self.lead > 0),
                ..self
            }
        }
    }
}

/// Latency stays bounded: whatever is pushed, no more than the cap is buffered, and the newest
/// samples are the ones that stay.
pub proof fn law_depth_is_capped(b: JitterView, frame: Seq<i16>)
    ensures
        b.pushed(frame).samples.len() <= b.cap,
        frame.len() <= b.cap ==> b.pushed(frame).samples.skip(b.pushed(frame).samples.len() - frame.len()) == frame,
{
    let after = b.pushed(frame).samples;
    if frame.len() <= b.cap {
        assert(after.skip(after.len() - frame.len()) =~= frame);
    }
}

/// Samples come out in the order in which they went in: what is handed out, followed by what is left,
/// is what was buffered.
pub proof fn law_playout_is_first_in_first_out(b: JitterView, n: nat)
    ensures
        b.output(n).take(b.handed(n) as int) + b.drained(n).samples == b.samples,
        b.output(n).len() == n,
{
    assert(b.output(n).take(b.handed(n) as int) + b.drained(n).samples =~= b.samples);
}

/// Before the lead is reached a device gets silence only, and nothing is drained.
pub proof fn law_no_playout_before_lead(b: JitterView, n: nat)
    requires
        !b.playing,
        b.lead > 0,
        b.samples.len() < b.lead,
    ensures
        b.handed(n) == 0,
        b.output(n) == Seq::new(n, |i: int| 0i16),
        b.drained(n) == b,
{
    assert(b.output(n) =~= Seq::new(n, |i: int| 0i16));
}

/// Once playout runs it goes on until the buffer runs dry: a device gets as many real samples as it
/// asks for, or all there are, whatever the lead.
pub proof fn law_running_playout_goes_on(b: JitterView, n: nat)
    requires
        b.playing,
    ensures
        b.samples.len() < n ==> b.handed(n) == b.samples.len(),
        b.samples.len() >= n ==> b.handed(n) == n,
        forall|i: int| 0 <= i < n && i < b.samples.len() ==> #[trigger] b.output(n)[i] == b.samples[i],
        forall|i: int| b.samples.len() <= i < n ==> #[trigger] b.output(n)[i] == 0,
{
}

/// Playout starts as soon as the lead is buffered, and at once where there is no lead: then too a
/// device gets as many real samples as it asks for, or all there are.
pub proof fn law_the_lead_starts_playout(b: JitterView, n: nat)
    requires
        b.samples.len() >= b.lead,
    ensures
        b.samples.len() < n ==> b.handed(n) == b.samples.len(),
        b.samples.len() >= n ==> b.handed(n) == n,
        forall|i: int| 0 <= i < n && i < b.samples.len() ==> #[trigger] b.output(n)[i] == b.samples[i],
        forall|i: int| b.samples.len() <= i < n ==> #[trigger] b.output(n)[i] == 0,
        b.lead > 0 && b.samples.len() >= n ==> b.drained(n).playing,
{
}

/// Whatever a device gets, what stands in front is the oldest of what was buffered and what stands
/// behind is silence; what was not handed out stays, in order; lead and cap do not change.
pub proof fn law_nothing_is_lost_or_made_up(b: JitterView, n: nat)
    ensures
        b.output(n).len() == n,
        b.handed(n) <= n,
        b.handed(n) <= b.samples.len(),
        forall|i: int| 0 <= i < b.handed(n) ==> #[trigger] b.output(n)[i] == b.samples[i],
        forall|i: int| b.handed(n) <= i < n ==> #[trigger] b.output(n)[i] == 0,
        b.drained(n).samples.len() == b.samples.len() - b.handed(n),
        forall|i: int|
            0 <= i < b.drained(n).samples.len() ==> #[trigger] b.drained(n).samples[i] == b.samples[b.handed(n) + i],
        b.drained(n).lead == b.lead,
        b.drained(n).cap == b.cap,
{
}

/// Playout that ran stops only when a device asked for more than there was, and then waits for the
/// lead again: as long as less than the lead comes in, a device gets silence. Without a lead it never
/// stops.
pub proof fn law_running_dry_rearms_the_lead(b: JitterView, n: nat, frame: Seq<i16>, m: nat)
    requires
        b.playing,
    ensures
        b.drained(n).playing <==> b.samples.len() >= n || b.lead == 0,
        b.samples.len() < n && frame.len() < b.lead ==> b.drained(n).pushed(frame).handed(m) == 0,
        b.samples.len() < n && frame.len() < b.lead ==> b.drained(n).pushed(frame).output(m) == Seq::new(m, |i: int| 0i16),
{
    if b.samples.len() < n && frame.len() < b.lead {
        assert(b.drained(n).samples.len() == 0);
        assert(b.drained(n).pushed(frame).output(m) =~= Seq::new(m, |i: int| 0i16));
    }
}

/// It does not matter how a device cuts its requests: while enough is buffered, two requests give what
/// one for both would have given, and leave the same behind.
pub proof fn law_requests_can_be_split(b: JitterView, n: nat, m: nat)
    requires
        b.playing,
        b.samples.len() >= n + m,
    ensures
        b.output(n) + b.drained(n).output(m) == b.output(n + m),
        b.drained(n).drained(m) == b.drained(n + m),
{
    assert(b.output(n) + b.drained(n).output(m) =~= b.output(n + m));
    assert(b.drained(n).drained(m).samples =~= b.drained(n + m).samples);
}

/// What is pushed goes behind what is buffered. All of it is kept while it fits under the cap; beyond
/// that exactly the newest are. Lead, cap and playout do not change.
pub proof fn law_pushed_samples_are_kept(b: JitterView, frame: Seq<i16>)
    ensures
        b.samples.len() + frame.len() <= b.cap ==> b.pushed(frame).samples == b.samples + frame,
        b.samples.len() + frame.len() > b.cap ==> b.pushed(frame).samples == (b.samples + frame).skip(
            b.samples.len() + frame.len() - b.cap,
        ),
        b.pushed(frame).lead == b.lead,
        b.pushed(frame).cap == b.cap,
        b.pushed(frame).playing == b.playing,
{
}

/// The cap leaves room above the lead: four times the lead, at least 32 and at least one more than the
/// lead, and never more than that.
pub proof fn law_cap_is_above_the_lead(lead: nat)
    requires
        lead < usize::MAX,
    ensures
        cap_for(lead) > lead,
        cap_for(lead) >= 32,
        lead < 8 ==> cap_for(lead) == 32,
        8 <= lead && 4 * lead <= usize::MAX ==> cap_for(lead) == 4 * lead,
        4 * lead > usize::MAX ==> cap_for(lead) == usize::MAX,
{
}

impl JitterBuffer {
    /// An empty buffer with the given lead.
    pub fn new(lead_samples: usize) -> (b: JitterBuffer)
        requires
            lead_samples < usize::MAX,
        ensures
            b@ == (JitterView {
                samples: Seq::empty(),
                lead: lead_samples as nat,
                playing: false,
                cap: cap_for(lead_samples as nat),
            }),
    {
        let four: usize = if lead_samples > usize::MAX / 4 {
            usize::MAX
        } else {
            lead_samples * 4
        };
        let above: usize = if four > lead_samples + 1 {
            four
        } else {
            lead_samples + 1
        };
        let max_samples: usize = if above > MIN_CAP {
            above
        } else {
            MIN_CAP
        };
        JitterBuffer { samples: VecDeque::new(), lead_samples, playing: false, max_samples }
    }

    /// Append a decoded frame's samples; beyond the cap the oldest are dropped.
    pub fn push(&mut self, frame: Vec<i16>)
        ensures
            final(self)@ == old(self)@.pushed(frame@),
            old(self).samples@.len() + frame@.len() <= old(self).max_samples ==> final(self).samples@
                == old(self).samples@ + frame@,
            old(self).samples@.len() + frame@.len() > old(self).max_samples ==> final(self).samples@ == (
            old(self).samples@ + frame@).skip(old(self).samples@.len() + frame@.len() - old(self).max_samples),
            final(self).playing == old(self).playing,
            final(self).lead_samples == old(self).lead_samples,
            final(self).max_samples == old(self).max_samples,
    {
        let mut i: usize = 0;
        assert(frame@.take(0) =~= Seq::<i16>::empty());
        assert(self.samples@ =~= old(self)@.samples + frame@.take(0));
        while i < frame.len()
            invariant
                i <= frame@.len(),
                self.samples@ == old(self)@.samples + frame@.take(i as int),
                self.lead_samples == old(self).lead_samples,
                self.playing == old(self).playing,
                self.max_samples == old(self).max_samples,
            decreases frame@.len() - i,
        {
            self.samples.push_back(frame[i]);
            i = i + 1;
            assert(self.samples@ =~= old(self)@.samples + frame@.take(i as int));
        }
        let ghost all = old(self)@.samples + frame@;
        assert(frame@.take(frame@.len() as int) =~= frame@);
        while self.samples.len() > self.max_samples
            invariant
                self.samples@.len() <= all.len(),
                self.samples@ == all.skip(all.len() - self.samples@.len()),
                all.len() <= self.max_samples ==> self.samples@ == all,
                all.len() > self.max_samples ==> self.samples@.len() >= self.max_samples,
                self.lead_samples == old(self).lead_samples,
                self.playing == old(self).playing,
                self.max_samples == old(self).max_samples,
            decreases self.samples@.len(),
        {
            let _ = self.samples.pop_front();
            assert(self.samples@ =~= all.skip(all.len() - self.samples@.len()));
        }
        assert(self.samples@ =~= newest(all, self.max_samples as nat));
    }

    /// Fill `out` with the next samples for the device; the count of real ones among them.
    ///
    /// Before the lead is reached `out` is silence and nothing is drained. Once playout runs, a
    /// shortfall is padded with silence and re-arms the lead.
    pub fn fill(&mut self, out: &mut [i16]) -> (written: usize)
        ensures
            written == old(self)@.handed(old(out)@.len()),
            final(out)@ == old(self)@.output(old(out)@.len()),
            final(self)@ == old(self)@.drained(old(out)@.len()),
            final(out)@.len() == old(out)@.len(),
            old(self).playing || old(self).samples@.len() >= old(self).lead_samples ==> written == (
            if old(self).samples@.len() < old(out)@.len() {
                old(self).samples@.len() as int
            } else {
                old(out)@.len() as int
            }),
            !old(self).playing && old(self).samples@.len() < old(self).lead_samples ==> written == 0
                && !final(self).playing,
            old(self).playing ==> (final(self).playing <==> written == old(out)@.len() || old(self).lead_samples == 0),
            forall|i: int| 0 <= i < written ==> #[trigger] final(out)@[i] == old(self).samples@[i],
            forall|i: int| written <= i < old(out)@.len() ==> #[trigger] final(out)@[i] == 0,
            final(self).samples@ == old(self).samples@.skip(written as int),
            final(self).lead_samples == old(self).lead_samples,
            final(self).max_samples == old(self).max_samples,
    {
        let n: usize = out.len();
        let plays = self.playing || (self.lead_samples > 0 && self.samples.len() >= self.lead_samples) || (
        self.lead_samples == 0 && self.samples.len() > 0);
        let ghost before = self@;
        let mut i: usize = 0;
        let mut written: usize = 0;
        while i < n
            invariant
                i <= n,
                n == out@.len(),
                before == old(self)@,
                plays == before.plays(),
                written == (if !plays {
                    0
                } else if before.samples.len() < i {
                    before.samples.len() as int
                } else {
                    i as int
                }),
                self.samples@ == before.samples.skip(written as int),
                self.lead_samples == old(self).lead_samples,
                self.playing == old(self).playing,
                self.max_samples == old(self).max_samples,
                forall|k: int| 0 <= k < i ==> out@[k] == (if k < written {
                    before.samples[k]
                } else {
                    0i16
                }),
            decreases n - i,
        {
            let next: Option<i16> = if plays {
                self.samples.pop_front()
            } else {
                None
            };
            match next {
                Some(s) => {
                    out[i] = s;
                    written = written + 1;
                },
                None => {
                    out[i] = 0;
                },
            }
            i = i + 1;
            assert(self.samples@ =~= before.samples.skip(written as int));
        }
        if plays {
            self.playing = !(written < n && self.lead_samples > 0);
        }
        proof {
            assert(out@ =~= before.output(n as nat));
            assert(self@.samples =~= before.drained(n as nat).samples);
        }
        written
    }

    /// Buffered samples.
    pub fn len(&self) -> (n: usize)
        ensures
            n == self@.samples.len(),
    {
        self.samples.len()
    }

    /// Apply makeup gain to a decoded frame and buffer it.
    pub fn enqueue(&mut self, pcm: PcmFrame)
        ensures
            final(self)@ == old(self)@.pushed(amplified(pcm.samples@, PLAYBACK_GAIN)),
            final(self)@ == old(self)@.pushed(amplified(pcm.samples@, 4)),
    {
        let mut samples = pcm.samples;
        apply_gain(&mut samples, PLAYBACK_GAIN);
        self.push(samples);
    }
}

/// Fan mono samples out to an interleaved device buffer: every channel of a frame gets its sample.
pub fn fan_out(mono: &[i16], channels: usize) -> (out: Vec<i16>)
    requires
        channels > 0,
        mono@.len() * channels <= usize::MAX,
    ensures
        out@.len() == mono@.len() * channels,
        forall|k: int| 0 <= k < out@.len() ==> #[trigger] out@[k] == mono@[k / (channels as int)],
{
    let mut out: Vec<i16> = Vec::new();
    let mut i: usize = 0;
    assert(0 * channels == 0) by (nonlinear_arith);
    while i < mono.len()
        invariant
            channels > 0,
            i <= mono@.len(),
            out@.len() == i * channels,
            mono@.len() * channels <= usize::MAX,
            forall|k: int| 0 <= k < out@.len() ==> #[trigger] out@[k] == mono@[k / (channels as int)],
        decreases mono@.len() - i,
    {
        let mut c: usize = 0;
        while c < channels
            invariant
                channels > 0,
                i < mono@.len(),
                c <= channels,
                out@.len() == i * channels + c,
                forall|k: int| 0 <= k < out@.len() ==> #[trigger] out@[k] == mono@[k / (channels as int)],
            decreases channels - c,
        {
            proof {
                let k = i * channels + c;
                assert(k / (channels as int) == i) by {
                    vstd::arithmetic::div_mod::lemma_fundamental_div_mod_converse(
                        k,
                        channels as int,
                        i as int,
                        c as int,
                    );
                }
            }
            out.push(mono[i]);
            c = c + 1;
        }
        assert((i + 1) * channels == i * channels + channels) by (nonlinear_arith);
        i = i + 1;
    }
    out
}

/// A sample as an unsigned device sample: the same level around the middle of the unsigned range.
pub fn to_u16_sample(s: i16) -> (u: u16)
    ensures
        u == s + 32768,
{
    (s as i32 + 32768) as u16
}

} // verus!
