//! The time base of a capture stream: where in the performance each analysis
//! window lies.
//!
//! Instants and spans are whole nanoseconds. A timeline is anchored at the
//! capture instant of the first callback after it was (re)started; the
//! progress of a window is the time from that anchor to the window's first
//! sample.

use vstd::prelude::*;
use vstd::arithmetic::div_mod::lemma_div_is_ordered;
use vstd::arithmetic::div_mod::lemma_fundamental_div_mod;
use vstd::arithmetic::div_mod::lemma_fundamental_div_mod_converse;
use crate::window::WindowAccumulator;
use crate::window::WindowShape;
use crate::window::carried_over;
use crate::window::complete_windows;
use crate::window::lemma_carried_over_bound;
use crate::window::lemma_windows_fit;
use crate::window::window_at;

verus! {

pub const NANOS_PER_SECOND: u64 = 1_000_000_000;

/// Time that `samples` samples take at `rate` samples per second, in whole
/// nanoseconds, rounded down.
pub open spec fn span_of(samples: nat, rate: nat) -> nat {
    ((samples * NANOS_PER_SECOND) / (rate as int)) as nat
}

/// Progress of the window that starts `offset` samples into a buffer of
/// `buffered` samples, in a callback whose capture instant lies `elapsed`
/// nanoseconds after the anchor: the elapsed time, less the span of all that
/// is buffered (never below zero), plus the span up to the window.
pub open spec fn progress_of(elapsed: nat, buffered: nat, offset: nat, rate: nat) -> nat {
    let behind = span_of(buffered, rate);
    let base = if elapsed >= behind {
        elapsed - behind
    } else {
        0
    };
    (base + span_of(offset, rate)) as nat
}

/// Spans grow with the number of samples.
pub proof fn lemma_span_monotonic(a: nat, b: nat, rate: nat)
    requires
        rate > 0,
        a <= b,
    ensures
        span_of(a, rate) <= span_of(b, rate),
{
    assert(a * NANOS_PER_SECOND <= b * NANOS_PER_SECOND) by (nonlinear_arith)
        requires
            a <= b,
    ;
    lemma_div_is_ordered(
        (a * NANOS_PER_SECOND) as int,
        (b * NANOS_PER_SECOND) as int,
        rate as int,
    );
}

/// The span of two runs of samples taken together is the sum of their
/// spans, or one nanosecond more.
pub proof fn lemma_span_additive(a: nat, b: nat, rate: nat)
    requires
        rate > 0,
    ensures
        span_of(a, rate) + span_of(b, rate) <= span_of(a + b, rate) <= span_of(a, rate) + span_of(
            b,
            rate,
        ) + 1,
{
    let r = rate as int;
    let x = (a * NANOS_PER_SECOND) as int;
    let y = (b * NANOS_PER_SECOND) as int;
    assert((a + b) * NANOS_PER_SECOND == x + y) by (nonlinear_arith)
        requires
            x == a * NANOS_PER_SECOND,
            y == b * NANOS_PER_SECOND,
    ;
    lemma_fundamental_div_mod(x, r);
    lemma_fundamental_div_mod(y, r);
    let q = x / r + y / r;
    let rest = x % r + y % r;
    assert(r * q == r * (x / r) + r * (y / r)) by (nonlinear_arith)
        requires
            q == x / r + y / r,
    ;
    if rest < r {
        lemma_fundamental_div_mod_converse(x + y, r, q, rest);
    } else {
        assert(r * (q + 1) == r * q + r) by (nonlinear_arith);
        lemma_fundamental_div_mod_converse(x + y, r, q + 1, rest - r);
    }
}

/// A sample rate: a positive number of samples per second.
#[derive(Clone, Copy, Debug)]
pub struct SampleClock {
    rate: u32,
}

impl SampleClock {
    #[verifier::type_invariant]
    spec fn ticking(self) -> bool {
        self.rate > 0
    }

    /// Samples per second.
    pub closed spec fn rate_spec(&self) -> u32 {
        self.rate
    }

    /// A clock for a positive rate.
    pub fn new(rate: u32) -> (r: Option<Self>)
        ensures
            r is Some <==> rate > 0,
            r matches Some(c) ==> c.rate_spec() == rate,
    {
        if rate > 0 {
            Some(SampleClock { rate })
        } else {
            None
        }
    }

    #[verifier::when_used_as_spec(rate_spec)]
    pub fn rate(&self) -> (r: u32)
        ensures
            r == self.rate_spec(),
            r > 0,
    {
        proof {
            use_type_invariant(self);
        }
        self.rate
    }

    /// Time that `samples` samples take.
    pub fn span(&self, samples: usize) -> (ns: u128)
        ensures
            ns == span_of(samples as nat, self.rate_spec() as nat),
            self.rate_spec() > 0,
    {
        proof {
            use_type_invariant(self);
            assert(samples * NANOS_PER_SECOND <= usize::MAX * NANOS_PER_SECOND) by (nonlinear_arith)
                requires
                    samples <= usize::MAX,
            ;
        }
        let scaled: u128 = (samples as u128) * (NANOS_PER_SECOND as u128);
        scaled / (self.rate as u128)
    }
}

/// What a timeline is, as plain values.
pub struct TimelineView<T> {
    /// Samples per window.
    pub window: nat,
    /// Samples between the starts of consecutive windows.
    pub hop: nat,
    /// Samples per second.
    pub rate: nat,
    /// Capture instant at which the timeline started, once a callback has
    /// set it.
    pub anchor: Option<nat>,
    /// Samples not yet consumed, oldest first.
    pub pending: Seq<T>,
}

impl<T> TimelineView<T> {
    /// The state at the start of a callback, after its control message, if
    /// any, was seen: a restart drops the buffered samples and the anchor,
    /// and a timeline without an anchor is anchored at this callback's
    /// capture instant.
    pub open spec fn begin(self, restart: bool, capture: nat) -> Self {
        if restart {
            TimelineView { anchor: Some(capture), pending: Seq::empty(), ..self }
        } else if self.anchor is None {
            TimelineView { anchor: Some(capture), ..self }
        } else {
            self
        }
    }

    /// The state once a chunk was appended.
    pub open spec fn extend(self, chunk: Seq<T>) -> Self {
        TimelineView { pending: self.pending + chunk, ..self }
    }

    /// Number of complete windows buffered.
    pub open spec fn ready(self) -> nat {
        complete_windows(self.pending.len(), self.window, self.hop)
    }

    /// The `k`-th buffered window.
    pub open spec fn window_at(self, k: nat) -> Seq<T> {
        window_at(self.pending, k, self.window, self.hop)
    }

    /// Progress of the `k`-th buffered window in a callback with the given
    /// capture instant. Undefined without an anchor, for an instant before
    /// the anchor, and for a window that is not complete.
    pub open spec fn progress(self, capture: nat, k: nat) -> Option<nat> {
        match self.anchor {
            Some(anchor) if capture >= anchor && k < self.ready() => Some(
                progress_of(
                    (capture - anchor) as nat,
                    self.pending.len(),
                    k * self.hop,
                    self.rate,
                ),
            ),
            _ => None,
        }
    }

    /// The state once the read position has moved past `n` windows.
    pub open spec fn consume(self, n: nat) -> Self {
        TimelineView { pending: self.pending.skip((n * self.hop) as int), ..self }
    }

    /// Number of windows that a callback without a restart yields: those
    /// that are complete once its chunk is appended.
    pub open spec fn emitted(self, chunk: Seq<T>) -> nat {
        self.extend(chunk).ready()
    }

    /// The state that a callback without a restart leaves: its chunk
    /// appended and every complete window read.
    pub open spec fn callback(self, capture: nat, chunk: Seq<T>) -> Self {
        let filled = self.begin(false, capture).extend(chunk);
        filled.consume(filled.ready())
    }
}

/// A callback yields the complete windows of what was buffered and what it
/// brings, taken together, and leaves what these windows do not use up: the
/// counts of `windows_emitted` and `buffered_after` are those of the
/// timeline, callback by callback.
pub proof fn lemma_callback_counts<T>(t: TimelineView<T>, capture: nat, chunk: Seq<T>)
    requires
        0 < t.hop <= t.window,
    ensures
        t.begin(false, capture).emitted(chunk) == complete_windows(
            t.pending.len() + chunk.len(),
            t.window,
            t.hop,
        ),
        t.callback(capture, chunk).pending.len() == carried_over(
            t.pending.len() + chunk.len(),
            t.window,
            t.hop,
        ),
{
    lemma_carried_over_bound(t.pending.len() + chunk.len(), t.window, t.hop);
}

/// Within one callback the windows lie one hop apart in time: progress
/// never decreases from a window to the next, and grows by the span of a
/// hop, to the nanosecond where a hop is a whole number of nanoseconds, and
/// else by that span rounded down or up.
pub proof fn lemma_progress_within_callback<T>(t: TimelineView<T>, capture: nat, k: nat)
    requires
        t.rate > 0,
        0 < t.hop <= t.window,
        k + 1 < t.ready(),
    ensures
        t.progress(capture, k) is Some <==> t.progress(capture, k + 1) is Some,
        t.progress(capture, k) matches Some(here) ==> (t.progress(capture, k + 1) matches Some(
            next,
        ) && here <= next && span_of(t.hop, t.rate) <= next - here <= span_of(t.hop, t.rate) + 1
            && ((t.hop * NANOS_PER_SECOND) % (t.rate as int) == 0 ==> next - here == (t.hop
            * NANOS_PER_SECOND) / (t.rate as int))),
{
    let r = t.rate as int;
    assert((k + 1) * t.hop == k * t.hop + t.hop) by (nonlinear_arith);
    lemma_span_additive(k * t.hop, t.hop, t.rate);
    if (t.hop * NANOS_PER_SECOND) % r == 0 {
        let x = (k * t.hop * NANOS_PER_SECOND) as int;
        let y = (t.hop * NANOS_PER_SECOND) as int;
        assert((k * t.hop + t.hop) * NANOS_PER_SECOND == x + y) by (nonlinear_arith)
            requires
                x == k * t.hop * NANOS_PER_SECOND,
                y == t.hop * NANOS_PER_SECOND,
        ;
        lemma_fundamental_div_mod(x, r);
        lemma_fundamental_div_mod(y, r);
        assert(r * (x / r + y / r) == r * (x / r) + r * (y / r)) by (nonlinear_arith);
        lemma_fundamental_div_mod_converse(x + y, r, x / r + y / r, x % r);
    }
}

/// The spans that meet between two callbacks. A buffer of `len` samples
/// with `ready > 0` complete windows keeps `len - ready * hop` samples and
/// gets `more`. The span of what was buffered and what comes exceeds the
/// span of what is then buffered and of the hops up to the last window
/// read by the span of one hop, give or take the rounding of four spans.
proof fn lemma_spans_between_callbacks(len: nat, more: nat, window: nat, hop: nat, rate: nat)
    requires
        rate > 0,
        0 < hop <= window,
        rate <= hop * NANOS_PER_SECOND,
        complete_windows(len, window, hop) > 0,
    ensures
        ({
            let ready = complete_windows(len, window, hop);
            let kept = (len - ready * hop + more) as nat;
            let before = span_of(more, rate) + span_of(len, rate);
            let after = span_of(kept, rate) + span_of(((ready - 1) * hop) as nat, rate);
            &&& ready * hop <= len
            &&& (ready - 1) * hop + window <= len
            &&& span_of(hop, rate) >= 1
            &&& span_of(hop, rate) - 1 <= before - after <= span_of(hop, rate) + 2
        }),
{
    let ready = complete_windows(len, window, hop);
    let kept = (len - ready * hop + more) as nat;
    lemma_carried_over_bound(len, window, hop);
    lemma_windows_fit(len, window, hop, (ready - 1) as nat);
    assert((ready - 1) * hop + hop == ready * hop) by (nonlinear_arith);
    assert(kept + (ready - 1) * hop == len + more - hop);
    lemma_span_additive(more, len, rate);
    lemma_span_additive(kept, ((ready - 1) * hop) as nat, rate);
    lemma_span_additive((len + more - hop) as nat, hop, rate);
    assert(span_of(hop, rate) >= 1) by {
        lemma_div_is_ordered(rate as int, (hop * NANOS_PER_SECOND) as int, rate as int);
        vstd::arithmetic::div_mod::lemma_div_by_self(rate as int);
    }
}

/// The window at the head of the buffer lies no samples into it.
proof fn lemma_head_of_buffer(hop: nat, rate: nat)
    requires
        rate > 0,
    ensures
        0 * hop == 0,
        span_of(0, rate) == 0,
{
    assert(0 * hop == 0) by (nonlinear_arith);
    assert(0 * NANOS_PER_SECOND == 0) by (nonlinear_arith);
}

/// From one callback to the next, progress does not fall back, where the
/// clock is sound: the earlier callback's capture instant lies at least the
/// span of its buffered samples after the anchor, the capture clock has
/// moved on by at least the span of the chunk that the later callback
/// delivers, and a hop lasts a nanosecond or more.
pub proof fn lemma_progress_across_callbacks<T>(
    t: TimelineView<T>,
    capture: nat,
    chunk: Seq<T>,
    next_capture: nat,
)
    requires
        t.rate > 0,
        0 < t.hop <= t.window,
        t.rate <= t.hop * NANOS_PER_SECOND,
        t.ready() > 0,
        t.anchor matches Some(anchor) && capture >= anchor + span_of(t.pending.len(), t.rate),
        next_capture >= capture + span_of(chunk.len(), t.rate),
    ensures
        t.progress(capture, (t.ready() - 1) as nat) is Some,
        ({
            let later = t.consume(t.ready()).begin(false, next_capture).extend(chunk);
            later.ready() > 0 ==> (later.progress(next_capture, 0) matches Some(first)
                && first >= t.progress(capture, (t.ready() - 1) as nat)->0)
        }),
{
    lemma_spans_between_callbacks(t.pending.len(), chunk.len(), t.window, t.hop, t.rate);
    lemma_head_of_buffer(t.hop, t.rate);
}

/// Where the capture clock moves on by just the span of each chunk, the
/// first window of a callback lies one hop after the last window of the
/// callback before it: by the span of a hop, give or take the rounding of
/// four spans to the nanosecond.
pub proof fn lemma_progress_step_across_callbacks<T>(
    t: TimelineView<T>,
    capture: nat,
    chunk: Seq<T>,
    next_capture: nat,
)
    requires
        t.rate > 0,
        0 < t.hop <= t.window,
        t.rate <= t.hop * NANOS_PER_SECOND,
        t.ready() > 0,
        t.anchor matches Some(anchor) && capture >= anchor + span_of(t.pending.len(), t.rate),
        next_capture == capture + span_of(chunk.len(), t.rate),
    ensures
        ({
            let later = t.consume(t.ready()).begin(false, next_capture).extend(chunk);
            let last = t.progress(capture, (t.ready() - 1) as nat);
            later.ready() > 0 ==> (later.progress(next_capture, 0) matches Some(first) && last
                matches Some(before) && span_of(t.hop, t.rate) - 1 <= first - before <= span_of(
                t.hop,
                t.rate,
            ) + 2)
        }),
{
    lemma_spans_between_callbacks(t.pending.len(), chunk.len(), t.window, t.hop, t.rate);
    lemma_head_of_buffer(t.hop, t.rate);
}

/// A restart leaves nothing of what came before: whatever two timelines of
/// one shape and rate held, after a restart at the same capture instant
/// they are the same. The windows of the callback that carries out the
/// restart count their progress from zero, the first one being at zero.
pub proof fn lemma_restart_rebases<T>(
    a: TimelineView<T>,
    b: TimelineView<T>,
    capture: nat,
    chunk: Seq<T>,
    k: nat,
)
    requires
        a.window == b.window,
        a.hop == b.hop,
        a.rate == b.rate,
        a.rate > 0,
        0 < a.hop <= a.window,
    ensures
        a.begin(true, capture) == b.begin(true, capture),
        a.begin(true, capture).extend(chunk).pending == chunk,
        a.begin(true, capture).extend(chunk).ready() == complete_windows(
            chunk.len(),
            a.window,
            a.hop,
        ),
        k < complete_windows(chunk.len(), a.window, a.hop) ==> a.begin(true, capture).extend(
            chunk,
        ).progress(capture, k) == Some(span_of(k * a.hop, a.rate)),
        0 < complete_windows(chunk.len(), a.window, a.hop) ==> a.begin(true, capture).extend(
            chunk,
        ).progress(capture, 0) == Some(0nat),
{
    let s = a.begin(true, capture).extend(chunk);
    assert(s.pending =~= chunk);
    lemma_head_of_buffer(a.hop, a.rate);
}

/// The progress of a complete window never exceeds the larger of the time
/// since the anchor and the span of the buffered samples: after a restart
/// it starts near zero however long the stream ran before.
pub proof fn lemma_progress_bounded<T>(t: TimelineView<T>, capture: nat, k: nat)
    requires
        t.rate > 0,
        0 < t.hop <= t.window,
        t.progress(capture, k) is Some,
    ensures
        t.anchor matches Some(anchor) && t.progress(capture, k)->0 <= if capture - anchor
            >= span_of(t.pending.len(), t.rate) {
            capture - anchor
        } else {
            span_of(t.pending.len(), t.rate) as int
        },
{
    lemma_windows_fit(t.pending.len(), t.window, t.hop, k);
    lemma_span_monotonic(k * t.hop, t.pending.len(), t.rate);
}

/// The time base and sample buffer of one capture stream.
pub struct Timeline<T> {
    clock: SampleClock,
    song_start: Option<u64>,
    accumulator: WindowAccumulator<T>,
}

impl<T: Copy> Timeline<T> {
    pub closed spec fn view(&self) -> TimelineView<T> {
        TimelineView {
            window: self.accumulator.window(),
            hop: self.accumulator.hop(),
            rate: self.clock.rate_spec() as nat,
            anchor: match self.song_start {
                Some(t) => Some(t as nat),
                None => None,
            },
            pending: self.accumulator@,
        }
    }

    /// An empty timeline without an anchor.
    pub fn new(shape: WindowShape, clock: SampleClock) -> (t: Self)
        ensures
            t@ == (TimelineView::<T> {
                window: shape.window(),
                hop: shape.hop(),
                rate: clock.rate_spec() as nat,
                anchor: None,
                pending: Seq::empty(),
            }),
    {
        Timeline { clock, song_start: None, accumulator: WindowAccumulator::new(shape) }
    }

    /// Samples per second.
    pub fn sample_rate(&self) -> (r: u32)
        ensures
            r == self@.rate,
            r > 0,
    {
        self.clock.rate()
    }

    /// Capture instant at which the timeline started, if it has.
    pub fn song_start(&self) -> (a: Option<u64>)
        ensures
            a is Some <==> self@.anchor is Some,
            a matches Some(t) ==> self@.anchor == Some(t as nat),
    {
        self.song_start
    }

    /// Number of buffered samples.
    pub fn len(&self) -> (n: usize)
        ensures
            n == self@.pending.len(),
    {
        self.accumulator.len()
    }

    /// Opens a callback: applies a pending restart and anchors the timeline
    /// if it has no anchor.
    pub fn begin(&mut self, restart: bool, capture: u64)
        ensures
            final(self)@ == old(self)@.begin(restart, capture as nat),
    {
        if restart {
            self.song_start = None;
            self.accumulator.clear();
        }
        if self.song_start.is_none() {
            self.song_start = Some(capture);
        }
    }

    /// Appends the samples that a callback delivered.
    pub fn extend(&mut self, chunk: &[T])
        ensures
            final(self)@ == old(self)@.extend(chunk@),
    {
        self.accumulator.extend(chunk);
    }

    /// Number of complete windows that can be read now.
    pub fn ready(&self) -> (n: usize)
        ensures
            n == self@.ready(),
    {
        self.accumulator.ready()
    }

    /// Copies the `k`-th complete window into `out`, replacing what `out`
    /// held. Without such a window `out` is left as it was.
    pub fn window_into(&self, k: usize, out: &mut Vec<T>) -> (found: bool)
        ensures
            found <==> k < self@.ready(),
            found ==> final(out)@ == self@.window_at(k as nat),
            !found ==> final(out)@ == old(out)@,
    {
        self.accumulator.window_into(k, out)
    }

    /// Progress of the `k`-th complete window, for a callback with the given
    /// capture instant. There is none without an anchor, for an instant
    /// before the anchor, for a window that is not complete, and where the
    /// value does not fit 64 bits.
    pub fn progress(&self, capture: u64, k: usize) -> (r: Option<u64>)
        ensures
            r == match self@.progress(capture as nat, k as nat) {
                Some(p) if p <= u64::MAX => Some(p as u64),
                _ => None,
            },
    {
        let anchor = match self.song_start {
            Some(anchor) => anchor,
            None => { return None; },
        };
        if capture < anchor || k >= self.accumulator.ready() {
            return None;
        }
        let shape = self.accumulator.shape();
        let hop = shape.hop_size();
        let buffered = self.accumulator.len();
        proof {
            lemma_windows_fit(buffered as nat, shape.window(), hop as nat, k as nat);
        }
        let behind = self.clock.span(buffered);
        let ahead = self.clock.span(k * hop);
        proof {
            lemma_span_monotonic((k * hop) as nat, buffered as nat, self.clock.rate_spec() as nat);
        }
        let elapsed = (capture - anchor) as u128;
        let base: u128 = if elapsed >= behind {
            elapsed - behind
        } else {
            0
        };
        let progress: u128 = base + ahead;
        if progress <= u64::MAX as u128 {
            Some(progress as u64)
        } else {
            None
        }
    }

    /// Moves the read position past `n` windows, or past those that are
    /// complete if they are fewer, and says how many that were.
    pub fn consume(&mut self, n: usize) -> (taken: usize)
        ensures
            taken == if n <= old(self)@.ready() {
                n as nat
            } else {
                old(self)@.ready()
            },
            final(self)@ == old(self)@.consume(taken as nat),
    {
        self.accumulator.consume(n)
    }
}

} // verus!
