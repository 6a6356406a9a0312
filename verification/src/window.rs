//! Reassembly of arbitrarily sized capture chunks into fixed-size analysis
//! windows that start `hop` samples apart.
//!
//! The buffer is generic in the sample type: it only stores, copies and drops
//! samples, it never computes with them.

use std::collections::VecDeque;
use vstd::prelude::*;
use vstd::arithmetic::div_mod::lemma_fundamental_div_mod;
use vstd::arithmetic::div_mod::lemma_fundamental_div_mod_converse;
use vstd::arithmetic::mul::lemma_mul_inequality;

verus! {

/// Number of complete windows that `len` buffered samples hold: the number of
/// offsets `0, hop, 2 hop, ..` at which a whole window still fits.
pub open spec fn complete_windows(len: nat, window: nat, hop: nat) -> nat {
    if hop == 0 || len < window {
        0
    } else {
        ((len - window) / (hop as int) + 1) as nat
    }
}

/// Number of samples that stay buffered once every complete window of `len`
/// samples has been taken and the read position has moved one hop per window.
pub open spec fn carried_over(len: nat, window: nat, hop: nat) -> nat {
    (len - complete_windows(len, window, hop) * hop) as nat
}

/// The `k`-th window of the buffered samples `buf`.
pub open spec fn window_at<T>(buf: Seq<T>, k: nat, window: nat, hop: nat) -> Seq<T> {
    buf.subrange((k * hop) as int, (k * hop + window) as int)
}

/// Every complete window lies inside the buffer, and the hops that the
/// windows account for do as well.
pub proof fn lemma_windows_fit(len: nat, window: nat, hop: nat, k: nat)
    requires
        0 < hop <= window,
        k < complete_windows(len, window, hop),
    ensures
        k * hop + window <= len,
        (k + 1) * hop <= len,
{
    let q = (len - window) / (hop as int);
    lemma_fundamental_div_mod(len - window, hop as int);
    assert(k <= q);
    lemma_mul_inequality(k as int, q, hop as int);
    assert(hop * q == q * hop) by (nonlinear_arith);
    assert((k + 1) * hop == k * hop + hop) by (nonlinear_arith);
}

/// A window fits at offset `k * hop` exactly when `k` is below the count.
pub proof fn lemma_complete_windows_exact(len: nat, window: nat, hop: nat, k: nat)
    requires
        0 < hop <= window,
    ensures
        k < complete_windows(len, window, hop) <==> k * hop + window <= len,
{
    if len >= window {
        let q = (len - window) / (hop as int);
        lemma_fundamental_div_mod(len - window, hop as int);
        assert(hop * q == q * hop) by (nonlinear_arith);
        if k <= q {
            lemma_mul_inequality(k as int, q, hop as int);
        } else {
            lemma_mul_inequality(q + 1, k as int, hop as int);
            assert((q + 1) * hop == q * hop + hop) by (nonlinear_arith);
        }
    } else {
        assert(k * hop >= 0) by (nonlinear_arith)
            requires
                k >= 0,
                hop >= 0,
        ;
    }
}

/// What stays buffered is less than one window: no complete window is left
/// behind.
pub proof fn lemma_carried_over_bound(len: nat, window: nat, hop: nat)
    requires
        0 < hop <= window,
    ensures
        complete_windows(len, window, hop) * hop <= len,
        carried_over(len, window, hop) < window,
        complete_windows(carried_over(len, window, hop), window, hop) == 0,
{
    if len >= window {
        let q = (len - window) / (hop as int);
        lemma_fundamental_div_mod(len - window, hop as int);
        assert(hop * q == q * hop) by (nonlinear_arith);
        assert((q + 1) * hop == q * hop + hop) by (nonlinear_arith);
    } else {
        assert(0 * hop == 0) by (nonlinear_arith);
    }
}

/// Taking the complete windows out of a buffer and then adding `more`
/// samples yields, in all, the windows of the samples taken together, and
/// leaves the same number of samples behind.
pub proof fn lemma_windows_accumulate(len: nat, more: nat, window: nat, hop: nat)
    requires
        0 < hop <= window,
    ensures
        complete_windows(len, window, hop) + complete_windows(
            carried_over(len, window, hop) + more,
            window,
            hop,
        ) == complete_windows(len + more, window, hop),
        carried_over(carried_over(len, window, hop) + more, window, hop) == carried_over(
            len + more,
            window,
            hop,
        ),
{
    let h = hop as int;
    let taken = complete_windows(len, window, hop) as int;
    let kept = carried_over(len, window, hop) as int;
    lemma_carried_over_bound(len, window, hop);
    assert(kept + taken * h == len);
    if len < window {
        assert(taken == 0);
        assert(kept == len) by (nonlinear_arith)
            requires
                kept + taken * h == len,
                taken == 0,
        ;
    } else {
        let q = (len - window) / h;
        let r = (len - window) % h;
        lemma_fundamental_div_mod(len - window, h);
        assert(h * q == q * h) by (nonlinear_arith);
        assert((q + 1) * h == q * h + h) by (nonlinear_arith);
        assert(taken == q + 1);
        assert(kept == window + r - h);
        if kept + more < window {
            // the added samples complete no further window
            assert(len + more - window == h * q + (r + more));
            lemma_fundamental_div_mod_converse(len + more - window, h, q, r + more);
        } else {
            let q2 = (kept + more - window) / h;
            let r2 = (kept + more - window) % h;
            lemma_fundamental_div_mod(kept + more - window, h);
            assert(h * (q2 + q + 1) == h * q2 + h * q + h) by (nonlinear_arith);
            assert(len + more - window == h * (q2 + q + 1) + r2);
            lemma_fundamental_div_mod_converse(len + more - window, h, q2 + q + 1, r2);
            assert((q2 + 1) * h == h * q2 + h) by (nonlinear_arith);
            assert((q2 + q + 2) * h == h * q2 + h * q + h + h) by (nonlinear_arith);
        }
    }
}

/// The windows are those of the stream as a whole, whatever the chunks.
/// Where the buffer holds the stream from sample `consumed` on, it still
/// does once a chunk is appended to both; its `k`-th window then is the
/// run of `window` samples of the stream that starts `k` hops after
/// `consumed`; and moving the read position past windows leaves the stream
/// from that many hops further on.
pub proof fn lemma_windows_follow_the_stream<T>(
    stream: Seq<T>,
    consumed: nat,
    chunk: Seq<T>,
    window: nat,
    hop: nat,
    k: nat,
)
    requires
        0 < hop <= window,
        consumed <= stream.len(),
        k < complete_windows((stream.len() - consumed + chunk.len()) as nat, window, hop),
    ensures
        stream.skip(consumed as int) + chunk == (stream + chunk).skip(consumed as int),
        window_at(stream.skip(consumed as int) + chunk, k, window, hop) == (stream
            + chunk).subrange((consumed + k * hop) as int, (consumed + k * hop + window) as int),
        (stream.skip(consumed as int) + chunk).skip(((k + 1) * hop) as int) == (stream
            + chunk).skip((consumed + (k + 1) * hop) as int),
{
    let pending = stream.skip(consumed as int) + chunk;
    let whole = stream + chunk;
    lemma_windows_fit(pending.len(), window, hop, k);
    assert(pending =~= whole.skip(consumed as int));
    assert(window_at(pending, k, window, hop) =~= whole.subrange(
        (consumed + k * hop) as int,
        (consumed + k * hop + window) as int,
    ));
    assert(pending.skip(((k + 1) * hop) as int) =~= whole.skip(
        (consumed + (k + 1) * hop) as int,
    ));
}

/// Sum of the sizes of the chunks that arrived.
pub open spec fn total_samples(chunks: Seq<nat>) -> nat
    decreases chunks.len(),
{
    if chunks.len() == 0 {
        0
    } else {
        total_samples(chunks.drop_last()) + chunks.last()
    }
}

/// Samples buffered after the chunks arrived one by one, each arrival
/// followed by the reading of every complete window.
pub open spec fn buffered_after(chunks: Seq<nat>, window: nat, hop: nat) -> nat
    decreases chunks.len(),
{
    if chunks.len() == 0 {
        0
    } else {
        carried_over(buffered_after(chunks.drop_last(), window, hop) + chunks.last(), window, hop)
    }
}

/// Windows read in all while the chunks arrived one by one into an empty
/// buffer, each arrival followed by the reading of every complete window.
pub open spec fn windows_emitted(chunks: Seq<nat>, window: nat, hop: nat) -> nat
    decreases chunks.len(),
{
    if chunks.len() == 0 {
        0
    } else {
        windows_emitted(chunks.drop_last(), window, hop) + complete_windows(
            buffered_after(chunks.drop_last(), window, hop) + chunks.last(),
            window,
            hop,
        )
    }
}

/// However a stream of samples is cut into chunks, the number of windows
/// read is that of the whole stream: none for less than one window, else one
/// for the first window and one more for every further whole hop. A partial
/// window at the end yields nothing.
pub proof fn lemma_windows_independent_of_chunking(chunks: Seq<nat>, window: nat, hop: nat)
    requires
        0 < hop <= window,
    ensures
        windows_emitted(chunks, window, hop) == complete_windows(
            total_samples(chunks),
            window,
            hop,
        ),
        buffered_after(chunks, window, hop) == carried_over(total_samples(chunks), window, hop),
        total_samples(chunks) >= window ==> windows_emitted(chunks, window, hop) == (
        total_samples(chunks) - window) / (hop as int) + 1,
        total_samples(chunks) < window ==> windows_emitted(chunks, window, hop) == 0,
    decreases chunks.len(),
{
    if chunks.len() == 0 {
        assert(0 * hop == 0) by (nonlinear_arith);
    } else {
        lemma_windows_independent_of_chunking(chunks.drop_last(), window, hop);
        lemma_windows_accumulate(total_samples(chunks.drop_last()), chunks.last(), window, hop);
    }
}

/// A stream that holds `n` whole windows' worth of samples yields at least
/// `n` windows.
pub proof fn lemma_windows_at_least(chunks: Seq<nat>, window: nat, hop: nat, n: nat)
    requires
        0 < hop <= window,
        total_samples(chunks) >= n * window,
    ensures
        windows_emitted(chunks, window, hop) >= n,
{
    lemma_windows_independent_of_chunking(chunks, window, hop);
    if n > 0 {
        let total = total_samples(chunks);
        assert((n - 1) * hop + window <= n * window) by (nonlinear_arith)
            requires
                0 < hop <= window,
                n >= 1,
        ;
        lemma_complete_windows_exact(total, window, hop, (n - 1) as nat);
    }
}

/// The geometry of the analysis: how long a window is and how far apart
/// consecutive windows start. The hop is at least one sample and at most a
/// whole window, so windows overlap or touch and never skip a sample.
#[derive(Clone, Copy, Debug)]
pub struct WindowShape {
    window_size: usize,
    hop_size: usize,
}

impl WindowShape {
    #[verifier::type_invariant]
    spec fn configured(self) -> bool {
        0 < self.hop_size <= self.window_size
    }

    /// Samples per window.
    pub closed spec fn window(self) -> nat {
        self.window_size as nat
    }

    /// Samples between the starts of consecutive windows.
    pub closed spec fn hop(self) -> nat {
        self.hop_size as nat
    }

    /// A shape for hops between one sample and a whole window.
    pub fn new(window_size: usize, hop_size: usize) -> (r: Option<Self>)
        ensures
            r is Some <==> 0 < hop_size <= window_size,
            r matches Some(s) ==> s.window() == window_size && s.hop() == hop_size,
    {
        if 0 < hop_size && hop_size <= window_size {
            Some(WindowShape { window_size, hop_size })
        } else {
            None
        }
    }

    pub fn window_size(&self) -> (w: usize)
        ensures
            w == self.window(),
            0 < self.hop() <= w,
    {
        proof {
            use_type_invariant(self);
        }
        self.window_size
    }

    pub fn hop_size(&self) -> (h: usize)
        ensures
            h == self.hop(),
            0 < h <= self.window(),
    {
        proof {
            use_type_invariant(self);
        }
        self.hop_size
    }

    /// Number of complete windows that `len` samples hold.
    pub fn count(&self, len: usize) -> (n: usize)
        ensures
            n == complete_windows(len as nat, self.window(), self.hop()),
            n * self.hop() <= len,
    {
        proof {
            use_type_invariant(self);
            lemma_carried_over_bound(len as nat, self.window_size as nat, self.hop_size as nat);
        }
        if len < self.window_size {
            0
        } else {
            (len - self.window_size) / self.hop_size + 1
        }
    }
}

/// `VecDeque::try_reserve` of the standard library: asks for room for
/// `additional` more elements and leaves the contents as they are, whether
/// the room was had or not. It reports a failure instead of panicking; the
/// report is dropped, for a buffer without the room grows as it fills.
#[verifier::external_body]
fn reserve_room<T>(buffer: &mut VecDeque<T>, additional: usize)
    ensures
        final(buffer)@ == old(buffer)@,
{
    let _ = buffer.try_reserve(additional);
}

/// A rolling buffer of samples from which windows of one shape are read. It
/// is made with room for two windows and keeps that room: samples are put
/// in at the back and dropped at the front, in place.
pub struct WindowAccumulator<T> {
    shape: WindowShape,
    pending: VecDeque<T>,
}

impl<T: Copy> WindowAccumulator<T> {
    /// The geometry of the windows.
    pub closed spec fn shape_spec(&self) -> WindowShape {
        self.shape
    }

    /// Samples per window.
    pub open spec fn window(self) -> nat {
        self.shape_spec().window()
    }

    /// Samples between the starts of consecutive windows.
    pub open spec fn hop(self) -> nat {
        self.shape_spec().hop()
    }

    /// The samples not yet consumed, oldest first.
    pub closed spec fn view(self) -> Seq<T> {
        self.pending@
    }

    /// Number of complete windows that the buffered samples hold.
    pub open spec fn ready_spec(self) -> nat {
        complete_windows(self@.len(), self.window(), self.hop())
    }

    /// An empty buffer for windows of the given shape.
    pub fn new(shape: WindowShape) -> (a: Self)
        ensures
            a.shape_spec() == shape,
            a@ == Seq::<T>::empty(),
    {
        let window = shape.window_size();
        let room = if window <= usize::MAX / 2 {
            2 * window
        } else {
            usize::MAX
        };
        let mut pending: VecDeque<T> = VecDeque::new();
        reserve_room(&mut pending, room);
        WindowAccumulator { shape, pending }
    }

    #[verifier::when_used_as_spec(shape_spec)]
    pub fn shape(&self) -> (s: WindowShape)
        ensures
            s == self.shape_spec(),
    {
        self.shape
    }

    /// Number of buffered samples.
    pub fn len(&self) -> (n: usize)
        ensures
            n == self@.len(),
    {
        self.pending.len()
    }

    /// Drops every buffered sample.
    pub fn clear(&mut self)
        ensures
            final(self)@ == Seq::<T>::empty(),
            final(self).shape_spec() == old(self).shape_spec(),
    {
        self.pending.clear();
    }

    /// Appends a chunk behind the buffered samples.
    pub fn extend(&mut self, chunk: &[T])
        ensures
            final(self)@ == old(self)@ + chunk@,
            final(self).shape_spec() == old(self).shape_spec(),
    {
        let n = chunk.len();
        let mut i: usize = 0;
        while i < n
            invariant
                n == chunk@.len(),
                i <= n,
                self.pending@ == old(self).pending@ + chunk@.subrange(0, i as int),
                self.shape == old(self).shape,
            decreases n - i,
        {
            self.pending.push_back(chunk[i]);
            i += 1;
        }
        assert(chunk@.subrange(0, n as int) == chunk@);
    }

    /// Number of complete windows that can be read now.
    pub fn ready(&self) -> (n: usize)
        ensures
            n == self.ready_spec(),
            n * self.hop() <= self@.len(),
    {
        self.shape.count(self.pending.len())
    }

    /// Copies the `k`-th complete window into `out`, replacing what `out`
    /// held. Without such a window `out` is left as it was.
    pub fn window_into(&self, k: usize, out: &mut Vec<T>) -> (found: bool)
        ensures
            found <==> k < self.ready_spec(),
            found ==> final(out)@ == window_at(self@, k as nat, self.window(), self.hop()),
            !found ==> final(out)@ == old(out)@,
    {
        if k >= self.ready() {
            return false;
        }
        let window = self.shape.window_size();
        let hop = self.shape.hop_size();
        proof {
            lemma_windows_fit(self@.len(), window as nat, hop as nat, k as nat);
        }
        let len = self.pending.len();
        let start = k * hop;
        out.clear();
        let mut j: usize = 0;
        while j < window
            invariant
                j <= window,
                len == self.pending@.len(),
                start + window <= len,
                out@ == self.pending@.subrange(start as int, start + j),
            decreases window - j,
        {
            out.push(self.pending[start + j]);
            j += 1;
        }
        true
    }

    /// Moves the read position past `n` windows: drops `n` hops of samples
    /// from the front. Asked for more windows than are complete, it drops
    /// the hops of those that are.
    pub fn consume(&mut self, n: usize) -> (taken: usize)
        ensures
            taken == if n <= old(self).ready_spec() {
                n as nat
            } else {
                old(self).ready_spec()
            },
            final(self)@ == old(self)@.skip(taken * old(self).hop()),
            final(self).shape_spec() == old(self).shape_spec(),
    {
        let ready = self.ready();
        let hop = self.shape.hop_size();
        let len = self.pending.len();
        let taken = if n <= ready {
            n
        } else {
            ready
        };
        assert(taken * hop <= ready * hop) by (nonlinear_arith)
            requires
                taken <= ready,
        ;
        let total = taken * hop;
        let mut dropped: usize = 0;
        while dropped < total
            invariant
                dropped <= total <= len,
                len == old(self).pending@.len(),
                self.shape == old(self).shape,
                self.pending@ == old(self).pending@.skip(dropped as int),
            decreases total - dropped,
        {
            let _ = self.pending.pop_front();
            dropped += 1;
        }
        taken
    }
}

} // verus!
