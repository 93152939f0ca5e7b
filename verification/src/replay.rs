//! The sliding window that rejects replayed frames.

use vstd::prelude::*;

verus! {

/// What a replay window remembers: the greatest sequence accepted so far, and which of the
/// sequences within [`WIDTH`](ReplayWindow::WIDTH) of it were accepted.
#[verifier::ext_equal]
pub struct Window {
    pub top: Option<u64>,
    pub seen: Set<u64>,
}

impl Window {
    /// The window at the start of a call.
    pub open spec fn empty() -> Window {
        Window { top: None, seen: Set::empty() }
    }

    /// Whether `seq` is newer than everything, or recent and not accepted yet.
    pub open spec fn fresh(self, seq: u64) -> bool {
        match self.top {
            None => true,
            Some(top) => seq > top || (top - seq < 64 && !self.seen.contains(seq)),
        }
    }

    /// The greatest accepted sequence once `seq` is accepted too.
    pub open spec fn top_with(self, seq: u64) -> u64 {
        match self.top {
            None => seq,
            Some(top) => if seq > top {
                seq
            } else {
                top
            },
        }
    }

    /// The window once `seq` is accepted: sequences too far below the greatest are forgotten.
    pub open spec fn record(self, seq: u64) -> Window {
        let top = self.top_with(seq);
        Window {
            top: Some(top),
            seen: Set::new(|s: u64| (s == seq || self.seen.contains(s)) && s <= top && top - s < 64),
        }
    }

    /// The window after `seq` was presented.
    pub open spec fn step(self, seq: u64) -> Window {
        if self.fresh(seq) {
            self.record(seq)
        } else {
            self
        }
    }

    /// The window after the whole history `inputs` was presented, oldest first.
    pub open spec fn run(self, inputs: Seq<u64>) -> Window
        decreases inputs.len(),
    {
        if inputs.len() == 0 {
            self
        } else {
            self.run(inputs.drop_last()).step(inputs.last())
        }
    }

    /// Whether the `i`-th element of the history `inputs` is accepted.
    pub open spec fn accepts(self, inputs: Seq<u64>, i: int) -> bool {
        self.run(inputs.take(i)).fresh(inputs[i])
    }

    /// Whether the window will never accept `seq` again.
    pub open spec fn blocks(self, seq: u64) -> bool {
        match self.top {
            None => false,
            Some(top) => seq <= top && (top - seq >= 64 || self.seen.contains(seq)),
        }
    }
}

/// What is fresh: everything at first; then whatever is above the greatest accepted sequence, and of those
/// less than 64 below it whatever was not accepted yet. Nothing older is.
pub proof fn law_what_is_fresh(w: Window, seq: u64)
    ensures
        Window::empty().top is None && Window::empty().fresh(seq),
        w.top is None ==> w.fresh(seq),
        w.top matches Some(top) ==> {
            &&& seq > top ==> w.fresh(seq)
            &&& seq <= top && top - seq >= 64 ==> !w.fresh(seq)
            &&& seq <= top && top - seq < 64 ==> (w.fresh(seq) <==> !w.seen.contains(seq))
        },
{
}

/// What presenting a sequence changes: nothing if it is not fresh. Else the greatest accepted sequence
/// moves up to it if it is greater, and of the sequences less than 64 below the greatest it is now among
/// the accepted ones, along with those that were before.
pub proof fn law_what_is_recorded(w: Window, seq: u64, other: u64)
    ensures
        !w.fresh(seq) ==> w.step(seq) == w,
        w.fresh(seq) ==> {
            let after = w.step(seq);
            &&& after.top matches Some(top) && top >= seq && (w.top matches Some(before) ==> top >= before) && (top == seq
                || w.top == Some(top))
            &&& after.top.unwrap() - seq < 64 ==> after.seen.contains(seq)
            &&& other <= after.top.unwrap() && after.top.unwrap() - other < 64 && other != seq ==> (
            after.seen.contains(other) <==> w.seen.contains(other))
        },
{
}

/// A history is presented one sequence after the other.
pub proof fn law_history_is_presented_in_order(w: Window, inputs: Seq<u64>, seq: u64)
    ensures
        w.run(Seq::empty()) == w,
        w.run(inputs.push(seq)) == w.run(inputs).step(seq),
        w.accepts(inputs.push(seq), inputs.len() as int) == w.run(inputs).fresh(seq),
{
    assert(inputs.push(seq).drop_last() =~= inputs);
    assert(inputs.push(seq).take(inputs.len() as int) =~= inputs);
}

/// What is blocked is not fresh, and stays blocked whatever is presented next.
pub proof fn lemma_step_keeps_blocked(w: Window, seq: u64, next: u64)
    requires
        w.blocks(seq),
    ensures
        w.step(next).blocks(seq),
        !w.fresh(seq),
{
}

/// What was presented is blocked from then on.
pub proof fn lemma_step_blocks(w: Window, seq: u64)
    requires
        w.fresh(seq),
    ensures
        w.step(seq).blocks(seq),
{
}

proof fn lemma_run_keeps_blocked(w: Window, inputs: Seq<u64>, i: int, j: int)
    requires
        0 <= i < j <= inputs.len(),
        w.accepts(inputs, i),
    ensures
        w.run(inputs.take(j)).blocks(inputs[i]),
    decreases j - i,
{
    let upto = inputs.take(j);
    assert(upto.drop_last() =~= inputs.take(j - 1));
    if i + 1 < j {
        lemma_run_keeps_blocked(w, inputs, i, j - 1);
        lemma_step_keeps_blocked(w.run(inputs.take(j - 1)), inputs[i], inputs[j - 1]);
    }
}

/// No sequence number is accepted twice, whatever the history in which it arrives.
pub proof fn law_no_sequence_accepted_twice(w: Window, inputs: Seq<u64>, i: int, j: int)
    requires
        0 <= i < j < inputs.len(),
        inputs[i] == inputs[j],
        w.accepts(inputs, i),
    ensures
        !w.accepts(inputs, j),
{
    lemma_run_keeps_blocked(w, inputs, i, j);
}

/// A sequence number 64 or more below one that was accepted is rejected.
pub proof fn law_too_old_is_rejected(w: Window, inputs: Seq<u64>, i: int, j: int)
    requires
        0 <= i < j < inputs.len(),
        w.accepts(inputs, i),
        inputs[j] + 64 <= inputs[i],
    ensures
        !w.accepts(inputs, j),
{
    lemma_run_top_grows(w, inputs, i, j);
}

proof fn lemma_run_top_grows(w: Window, inputs: Seq<u64>, i: int, j: int)
    requires
        0 <= i < j <= inputs.len(),
        w.accepts(inputs, i),
    ensures
        w.run(inputs.take(j)).top matches Some(top) && top >= inputs[i],
    decreases j - i,
{
    let upto = inputs.take(j);
    assert(upto.drop_last() =~= inputs.take(j - 1));
    if i + 1 < j {
        lemma_run_top_grows(w, inputs, i, j - 1);
    }
}

proof fn lemma_run_remembers_only_inputs(inputs: Seq<u64>)
    ensures
        forall|s: u64| #[trigger]
            Window::empty().run(inputs).seen.contains(s) ==> inputs.contains(s),
        Window::empty().run(inputs).top matches Some(top) ==> inputs.contains(top),
    decreases inputs.len(),
{
    if inputs.len() > 0 {
        let before = inputs.drop_last();
        lemma_run_remembers_only_inputs(before);
        let w = Window::empty().run(before);
        assert(inputs.contains(inputs.last())) by {
            assert(inputs[inputs.len() - 1] == inputs.last());
        }
        assert forall|s: u64| before.contains(s) implies #[trigger] inputs.contains(s) by {
            let k = choose|k: int| 0 <= k < before.len() && before[k] == s;
            assert(inputs[k] == s);
        }
    }
}

/// A sequence number that was never presented is accepted, unless it is 64 or more below the
/// greatest one presented before it.
pub proof fn law_fresh_in_window_is_accepted(inputs: Seq<u64>, i: int)
    requires
        0 <= i < inputs.len(),
        forall|k: int| 0 <= k < i ==> inputs[k] != inputs[i],
        forall|k: int| 0 <= k < i ==> #[trigger] inputs[k] < inputs[i] + 64,
    ensures
        Window::empty().accepts(inputs, i),
{
    let before = inputs.take(i);
    lemma_run_remembers_only_inputs(before);
    let w = Window::empty().run(before);
    if w.seen.contains(inputs[i]) {
        assert(before.contains(inputs[i]));
        let k = choose|k: int| 0 <= k < before.len() && before[k] == inputs[i];
        assert(inputs[k] == inputs[i]);
    }
    if w.top is Some {
        let top = w.top.unwrap();
        assert(before.contains(top));
        let k = choose|k: int| 0 <= k < before.len() && before[k] == top;
        assert(inputs[k] == top);
    }
}

/// Whether bit `i` of `map` is set.
spec fn bit(map: u64, i: u64) -> bool {
    (map >> i) & 1 == 1
}

proof fn lemma_bit_mask(map: u64, i: u64)
    by (bit_vector)
    requires
        i < 64,
    ensures
        (map & (1u64 << i) != 0) == bit(map, i),
{
}

proof fn lemma_bit_set(map: u64, i: u64, k: u64)
    by (bit_vector)
    requires
        i < 64,
        k < 64,
    ensures
        bit(map | (1u64 << i), k) == (k == i || bit(map, k)),
{
}

proof fn lemma_bit_slide(map: u64, shift: u64, k: u64)
    by (bit_vector)
    requires
        0 < shift < 64,
        k < 64,
    ensures
        bit((map << shift) | 1, k) == (k == 0 || (k >= shift && bit(map, (k - shift) as u64))),
{
}

proof fn lemma_bit_one(k: u64)
    by (bit_vector)
    requires
        k < 64,
    ensures
        bit(1, k) == (k == 0),
        bit(0u64 | 1, k) == (k == 0),
{
}

/// Sliding forward replay window over received sequence numbers.
///
/// Accepts strictly newer sequences and a bounded window of out-of-order ones; rejects anything
/// already seen or too old.
#[derive(Debug)]
pub struct ReplayWindow {
    /// Highest sequence accepted so far.
    highest: u64,
    /// Bit `i` records whether `highest - i` was accepted.
    bitmap: u64,
    /// Whether any sequence has been accepted yet.
    seen_any: bool,
}

impl View for ReplayWindow {
    type V = Window;

    closed spec fn view(&self) -> Window {
        if self.seen_any {
            Window {
                top: Some(self.highest),
                seen: Set::new(
                    |s: u64|
                        s <= self.highest && self.highest - s < 64 && bit(
                            self.bitmap,
                            (self.highest - s) as u64,
                        ),
                ),
            }
        } else {
            Window::empty()
        }
    }
}

impl ReplayWindow {
    /// Window width in frames.
    pub const WIDTH: u64 = 64;

    #[verifier::type_invariant]
    spec fn top_is_marked(self) -> bool {
        self.seen_any ==> bit(self.bitmap, 0)
    }

    /// A fresh window at the start of a call.
    pub fn new() -> (w: ReplayWindow)
        ensures
            w@ == Window::empty(),
    {
        ReplayWindow { highest: 0, bitmap: 0, seen_any: false }
    }

    /// Check and mark `seq`: `true` if it is fresh, in which case it is recorded; `false` if it is
    /// a replay or too old, in which case nothing changes.
    pub fn check_and_set(&mut self, seq: u64) -> (r: bool)
        ensures
            r == old(self)@.fresh(seq),
            final(self)@ == old(self)@.step(seq),
    {
        proof {
            use_type_invariant(&*self);
        }
        let ghost before = *self;
        if !self.seen_any {
            proof {
                assert forall|k: u64| k < 64 implies #[trigger] bit(1, k) == (k == 0) by {
                    lemma_bit_one(k);
                }
                assert(bit(1, 0));
            }
            *self = ReplayWindow { highest: seq, bitmap: 1, seen_any: true };
            assert(self@ =~= before@.record(seq));
            return true;
        }
        if seq > self.highest {
            let shift: u64 = seq - self.highest;
            let slid: u64 = if shift >= Self::WIDTH {
                0
            } else {
                self.bitmap << shift
            };
            let marked: u64 = slid | 1;
            proof {
                assert forall|k: u64| k < 64 implies #[trigger] bit(marked, k) == (k == 0 || (k >= shift && bit(
                    before.bitmap,
                    (k - shift) as u64,
                ))) by {
                    if shift >= 64 {
                        lemma_bit_one(k);
                    } else {
                        lemma_bit_slide(before.bitmap, shift, k);
                    }
                }
                assert(bit(marked, 0));
            }
            *self = ReplayWindow { highest: seq, bitmap: marked, seen_any: true };
            assert(self@ =~= before@.record(seq));
            return true;
        }
        let offset: u64 = self.highest - seq;
        if offset >= Self::WIDTH {
            return false;
        }
        let mask: u64 = 1u64 << offset;
        proof {
            lemma_bit_mask(before.bitmap, offset);
        }
        if self.bitmap & mask != 0 {
            return false;
        }
        let marked: u64 = self.bitmap | mask;
        proof {
            assert forall|k: u64| k < 64 implies #[trigger] bit(marked, k) == (k == offset || bit(before.bitmap, k)) by {
                lemma_bit_set(before.bitmap, offset, k);
            }
            assert(bit(marked, 0));
        }
        *self = ReplayWindow { highest: self.highest, bitmap: marked, seen_any: true };
        assert(self@ =~= before@.record(seq));
        true
    }
}

impl Clone for ReplayWindow {
    fn clone(&self) -> (w: ReplayWindow)
        ensures
            w == *self,
    {
        proof {
            use_type_invariant(self);
        }
        ReplayWindow { highest: self.highest, bitmap: self.bitmap, seen_any: self.seen_any }
    }
}

impl Default for ReplayWindow {
    fn default() -> (w: ReplayWindow)
        ensures
            w@ == Window::empty(),
    {
        ReplayWindow::new()
    }
}

} // verus!
