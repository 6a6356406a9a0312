//! One snapshot of the spectrum and the lookups that the scorer makes in it.
//!
//! Magnitudes are whole numbers of thousandths, frequencies whole numbers of
//! millihertz, instants whole nanoseconds. Bin `i` of a snapshot of `n` bins
//! taken at `rate` samples per second stands for the frequency `i * rate / n`
//! hertz.

use vstd::prelude::*;
use vstd::arithmetic::div_mod::lemma_div_is_ordered;
use vstd::arithmetic::div_mod::lemma_fundamental_div_mod;
use vstd::arithmetic::div_mod::lemma_fundamental_div_mod_converse;
use vstd::arithmetic::div_mod::lemma_mod_bound;

verus! {

/// Millihertz per hertz, and thousandths per unit of magnitude.
pub const MILLIS: u64 = 1000;

/// The scale of `PITCH_APPROXIMATION`: billionths.
pub const RATIO_SCALE: u64 = 1_000_000_000;

/// The ratio of two frequencies ten cents apart, in billionths. A lookup
/// that tolerates this much reaches from the pitch divided by the ratio to
/// the pitch multiplied by it.
pub const PITCH_APPROXIMATION: u64 = 1_005_792_941;

/// `a / b`, rounded up.
pub open spec fn div_ceil(a: int, b: int) -> int {
    if a % b == 0 {
        a / b
    } else {
        a / b + 1
    }
}

/// The magnitude of bin `i`, the bins being counted round and round.
pub open spec fn bin_value(data: Seq<u32>, i: nat) -> u32 {
    data[(i % data.len()) as int]
}

/// The lowest bin of the tolerant range round `pitch`: the bin of the pitch
/// divided by the tolerance, rounded down.
pub open spec fn lowest_bin(pitch: nat, rate: nat, bins: nat) -> nat {
    ((pitch * bins * RATIO_SCALE) / (PITCH_APPROXIMATION * rate * MILLIS)) as nat
}

/// The highest bin of the tolerant range round `pitch`: the bin of the pitch
/// multiplied by the tolerance, rounded up.
pub open spec fn highest_bin(pitch: nat, rate: nat, bins: nat) -> nat {
    div_ceil(pitch * bins * PITCH_APPROXIMATION, RATIO_SCALE * rate * MILLIS) as nat
}

/// `peak` is the largest magnitude among the bins `lo ..= hi`.
pub open spec fn is_peak(data: Seq<u32>, lo: nat, hi: nat, peak: u32) -> bool {
    &&& exists|i: nat| lo <= i <= hi && #[trigger] bin_value(data, i) == peak
    &&& forall|i: nat| lo <= i <= hi ==> #[trigger] bin_value(data, i) <= peak
}

/// A range of bins has one largest magnitude.
pub proof fn lemma_peak_unique(data: Seq<u32>, lo: nat, hi: nat, a: u32, b: u32)
    requires
        is_peak(data, lo, hi, a),
        is_peak(data, lo, hi, b),
    ensures
        a == b,
{
    let i = choose|i: nat| lo <= i <= hi && #[trigger] bin_value(data, i) == a;
    let j = choose|j: nat| lo <= j <= hi && #[trigger] bin_value(data, j) == b;
    assert(bin_value(data, i) <= b);
    assert(bin_value(data, j) <= a);
}

/// The largest magnitude among the bins within the tolerance round `pitch`.
pub open spec fn tolerant_peak(data: Seq<u32>, pitch: nat, rate: nat) -> u32 {
    choose|peak: u32|
        is_peak(
            data,
            lowest_bin(pitch, rate, data.len()),
            highest_bin(pitch, rate, data.len()),
            peak,
        )
}

/// The magnitude at `pitch`, read between the two bins that the pitch lies
/// between, in proportion to its distance from each, rounded down.
pub open spec fn interpolated(data: Seq<u32>, pitch: nat, rate: nat) -> nat {
    let bins = data.len() as int;
    let position = pitch * bins;
    let per_bin = rate * MILLIS;
    let left = (position / per_bin) % bins;
    let right = (left + 1) % bins;
    let part = position % per_bin;
    ((data[left] * (per_bin - part) + data[right] * part) / per_bin) as nat
}

/// The tolerant range is never empty.
pub proof fn lemma_range_not_empty(pitch: nat, rate: nat, bins: nat)
    requires
        rate > 0,
    ensures
        lowest_bin(pitch, rate, bins) <= highest_bin(pitch, rate, bins),
{
    let a = (pitch * bins) as int;
    let s = (rate * MILLIS) as int;
    let num = PITCH_APPROXIMATION as int;
    let den = RATIO_SCALE as int;
    let lo = lowest_bin(pitch, rate, bins) as int;
    let hi = highest_bin(pitch, rate, bins) as int;
    assert(pitch * bins * RATIO_SCALE == a * den);
    assert(pitch * bins * PITCH_APPROXIMATION == a * num);
    assert(PITCH_APPROXIMATION * rate * MILLIS == num * s) by (nonlinear_arith)
        requires
            s == rate * MILLIS,
            num == PITCH_APPROXIMATION,
    ;
    assert(RATIO_SCALE * rate * MILLIS == den * s) by (nonlinear_arith)
        requires
            s == rate * MILLIS,
            den == RATIO_SCALE,
    ;
    assert(num * s > 0 && den * s > 0) by (nonlinear_arith)
        requires
            s > 0,
            num > 0,
            den > 0,
    ;
    // lo is at most the plain bin a / s, which is at most hi
    let mid = a / s;
    lemma_fundamental_div_mod(a, s);
    lemma_fundamental_div_mod(a * den, num * s);
    lemma_fundamental_div_mod(a * num, den * s);
    assert(lo <= mid) by {
        if lo > mid {
            // lo * num * s <= a * den, and a < (mid + 1) * s <= lo * s
            assert((num * s) * lo <= a * den);
            assert(a < (mid + 1) * s) by (nonlinear_arith)
                requires
                    a == s * mid + a % s,
                    a % s < s,
            ;
            assert((mid + 1) * s <= lo * s) by (nonlinear_arith)
                requires
                    mid + 1 <= lo,
                    s > 0,
            ;
            assert(a * den < (lo * s) * num) by (nonlinear_arith)
                requires
                    a < lo * s,
                    0 <= a,
                    0 < den <= num,
            ;
            assert((num * s) * lo == (lo * s) * num) by (nonlinear_arith);
        }
    }
    assert(mid <= hi) by {
        if mid > hi {
            // a * num <= hi * den * s, and hi * s < mid * s <= a
            assert(a * num <= (den * s) * hi) by {
                if (a * num) % (den * s) == 0 {
                } else {
                    assert((den * s) * (hi - 1) + (a * num) % (den * s) == a * num);
                    assert((den * s) * hi == (den * s) * (hi - 1) + den * s) by (nonlinear_arith);
                }
            }
            assert(mid * s <= a) by (nonlinear_arith)
                requires
                    a == s * mid + a % s,
                    0 <= a % s,
            ;
            assert((hi + 1) * s <= mid * s) by (nonlinear_arith)
                requires
                    hi + 1 <= mid,
                    s > 0,
            ;
            assert((den * s) * hi < a * num) by (nonlinear_arith)
                requires
                    (hi + 1) * s <= a,
                    0 <= hi,
                    s > 0,
                    0 < den <= num,
            ;
        }
    }
}

/// Counting the bins round and round, any run of at least as many bins as
/// there are reaches every bin.
pub proof fn lemma_full_turn_reaches(lo: nat, hi: nat, bins: nat, j: nat) -> (i: nat)
    requires
        bins > 0,
        j < bins,
        hi + 1 >= lo + bins,
    ensures
        lo <= i <= hi,
        i % bins == j,
{
    let n = bins as int;
    let q = lo as int / n;
    let r = lo as int % n;
    lemma_fundamental_div_mod(lo as int, n);
    lemma_mod_bound(lo as int, n);
    if j >= r {
        let i = (lo + (j - r)) as nat;
        lemma_fundamental_div_mod_converse(i as int, n, q, j as int);
        i
    } else {
        let i = (lo + (bins - r + j)) as nat;
        assert(n * (q + 1) == n * q + n) by (nonlinear_arith);
        lemma_fundamental_div_mod_converse(i as int, n, q + 1, j as int);
        i
    }
}

/// A value read between two magnitudes lies between them.
pub proof fn lemma_interpolation_bounded(left: nat, right: nat, part: nat, whole: nat)
    requires
        part < whole,
    ensures
        (left * (whole - part) + right * part) / (whole as int) <= if left <= right {
            right
        } else {
            left
        },
        (left * (whole - part) + right * part) / (whole as int) >= if left <= right {
            left
        } else {
            right
        },
{
    let top = if left <= right {
        right
    } else {
        left
    };
    let bottom = if left <= right {
        left
    } else {
        right
    };
    let mixed = (left * (whole - part) + right * part) as int;
    assert(mixed <= top * whole && mixed >= bottom * whole) by (nonlinear_arith)
        requires
            mixed == left * (whole - part) + right * part,
            bottom <= left <= top,
            bottom <= right <= top,
            0 <= part < whole,
    ;
    lemma_div_is_ordered(mixed, (top * whole) as int, whole as int);
    lemma_div_is_ordered((bottom * whole) as int, mixed, whole as int);
    vstd::arithmetic::div_mod::lemma_div_multiples_vanish(top as int, whole as int);
    vstd::arithmetic::div_mod::lemma_div_multiples_vanish(bottom as int, whole as int);
    assert(top * whole == whole * top && bottom * whole == whole * bottom) by (nonlinear_arith);
}

/// The magnitude spectrum of one analysis window: one magnitude per bin, the
/// window's place in the performance, the sample rate it was taken at and a
/// measure of the window's energy. It holds at least one bin and a positive
/// sample rate, and is not changed once made.
#[derive(Debug)]
pub struct MagnitudeSpectrum {
    data: Vec<u32>,
    progress: u64,
    srate: u32,
    rms: u32,
}

impl MagnitudeSpectrum {
    #[verifier::type_invariant]
    spec fn well_formed(self) -> bool {
        self.data@.len() > 0 && self.srate > 0
    }

    /// Magnitude per bin, in thousandths.
    pub closed spec fn bins(&self) -> Seq<u32> {
        self.data@
    }

    /// Time from the start of the performance to the window, in nanoseconds.
    pub closed spec fn progress_spec(&self) -> u64 {
        self.progress
    }

    /// Samples per second.
    pub closed spec fn srate_spec(&self) -> u32 {
        self.srate
    }

    /// Mean square of the window's samples, in thousandths.
    pub closed spec fn rms_spec(&self) -> u32 {
        self.rms
    }

    /// A snapshot of at least one bin at a positive sample rate.
    pub fn new(data: Vec<u32>, progress: u64, srate: u32, rms: u32) -> (r: Option<Self>)
        ensures
            r is Some <==> data@.len() > 0 && srate > 0,
            r matches Some(s) ==> s.bins() == data@ && s.progress_spec() == progress
                && s.srate_spec() == srate && s.rms_spec() == rms,
    {
        if data.len() > 0 && srate > 0 {
            Some(MagnitudeSpectrum { data, progress, srate, rms })
        } else {
            None
        }
    }

    /// Magnitude per bin, in thousandths.
    pub fn data(&self) -> (d: &Vec<u32>)
        ensures
            d@ == self.bins(),
            d@.len() > 0,
    {
        proof {
            use_type_invariant(self);
        }
        &self.data
    }

    #[verifier::when_used_as_spec(progress_spec)]
    pub fn progress(&self) -> (p: u64)
        ensures
            p == self.progress_spec(),
    {
        self.progress
    }

    #[verifier::when_used_as_spec(srate_spec)]
    pub fn srate(&self) -> (r: u32)
        ensures
            r == self.srate_spec(),
            r > 0,
    {
        proof {
            use_type_invariant(self);
        }
        self.srate
    }

    #[verifier::when_used_as_spec(rms_spec)]
    pub fn rms(&self) -> (e: u32)
        ensures
            e == self.rms_spec(),
    {
        self.rms
    }

    /// The largest magnitude of all bins, and a bin that holds it.
    fn peak_of_all(&self) -> (r: (u32, usize))
        ensures
            r.1 < self.bins().len(),
            self.bins()[r.1 as int] == r.0,
            forall|i: int| 0 <= i < self.bins().len() ==> self.bins()[i] <= r.0,
    {
        proof {
            use_type_invariant(self);
        }
        let n = self.data.len();
        let mut peak = self.data[0];
        let mut at: usize = 0;
        let mut i: usize = 1;
        while i < n
            invariant
                n == self.data@.len(),
                1 <= i <= n,
                at < i,
                self.data@[at as int] == peak,
                forall|j: int| 0 <= j < i ==> self.data@[j] <= peak,
            decreases n - i,
        {
            if self.data[i] > peak {
                peak = self.data[i];
                at = i;
            }
            i += 1;
        }
        (peak, at)
    }

    /// The magnitude at `pitch` millihertz, read between the two bins that
    /// the pitch lies between.
    pub fn amplitude_at(&self, pitch: u32) -> (m: u32)
        ensures
            m == interpolated(self.bins(), pitch as nat, self.srate_spec() as nat),
    {
        proof {
            use_type_invariant(self);
        }
        let n = self.data.len();
        let per_bin: u128 = (self.srate as u128) * (MILLIS as u128);
        assert(per_bin > 0) by (nonlinear_arith)
            requires
                per_bin == self.srate * MILLIS,
                self.srate > 0,
                MILLIS > 0,
        ;
        assert(pitch * n <= u32::MAX * usize::MAX) by (nonlinear_arith)
            requires
                pitch <= u32::MAX,
                n <= usize::MAX,
        ;
        let position: u128 = (pitch as u128) * (n as u128);
        let left = ((position / per_bin) % (n as u128)) as usize;
        let right = if left + 1 == n {
            0
        } else {
            left + 1
        };
        let part: u128 = position % per_bin;
        proof {
            lemma_mod_bound(position as int, per_bin as int);
            if left + 1 == n {
                vstd::arithmetic::div_mod::lemma_mod_self_0(n as int);
            } else {
                vstd::arithmetic::div_mod::lemma_small_mod((left + 1) as nat, n as nat);
            }
            assert(right == (left + 1) % (n as int));
            lemma_interpolation_bounded(
                self.data@[left as int] as nat,
                self.data@[right as int] as nat,
                part as nat,
                per_bin as nat,
            );
            assert(self.data@[left as int] * (per_bin - part) <= u32::MAX * per_bin)
                by (nonlinear_arith)
                requires
                    self.data@[left as int] <= u32::MAX,
                    0 <= part < per_bin,
            ;
            assert(self.data@[right as int] * part <= u32::MAX * per_bin) by (nonlinear_arith)
                requires
                    self.data@[right as int] <= u32::MAX,
                    0 <= part < per_bin,
            ;
        }
        let mixed: u128 = (self.data[left] as u128) * (per_bin - part) + (self.data[right] as u128)
            * part;
        (mixed / per_bin) as u32
    }

    /// The largest magnitude among the bins within ten cents of `pitch`
    /// millihertz, from the bin of the pitch divided by the tolerance,
    /// rounded down, to the bin of the pitch multiplied by it, rounded up.
    pub fn approx_amplitude_at(&self, pitch: u32) -> (m: u32)
        ensures
            is_peak(
                self.bins(),
                lowest_bin(pitch as nat, self.srate_spec() as nat, self.bins().len()),
                highest_bin(pitch as nat, self.srate_spec() as nat, self.bins().len()),
                m,
            ),
            m == tolerant_peak(self.bins(), pitch as nat, self.srate_spec() as nat),
    {
        let m = self.scan_tolerant(pitch);
        proof {
            let lo = lowest_bin(pitch as nat, self.srate_spec() as nat, self.bins().len());
            let hi = highest_bin(pitch as nat, self.srate_spec() as nat, self.bins().len());
            lemma_peak_unique(
                self.bins(),
                lo,
                hi,
                m,
                tolerant_peak(self.bins(), pitch as nat, self.srate_spec() as nat),
            );
        }
        m
    }

    /// Scans the bins of the tolerant range, or every bin once where the
    /// range goes all the way round.
    fn scan_tolerant(&self, pitch: u32) -> (m: u32)
        ensures
            is_peak(
                self.bins(),
                lowest_bin(pitch as nat, self.srate_spec() as nat, self.bins().len()),
                highest_bin(pitch as nat, self.srate_spec() as nat, self.bins().len()),
                m,
            ),
    {
        proof {
            use_type_invariant(self);
        }
        let n = self.data.len();
        let bins: u128 = n as u128;
        let per_bin: u128 = (self.srate as u128) * (MILLIS as u128);
        assert(pitch * n <= u32::MAX * usize::MAX) by (nonlinear_arith)
            requires
                pitch <= u32::MAX,
                n <= usize::MAX,
        ;
        let position: u128 = (pitch as u128) * bins;
        assert(position * PITCH_APPROXIMATION <= (u32::MAX * usize::MAX) * PITCH_APPROXIMATION)
            by (nonlinear_arith)
            requires
                position <= u32::MAX * usize::MAX,
        ;
        assert(position * RATIO_SCALE <= (u32::MAX * usize::MAX) * RATIO_SCALE)
            by (nonlinear_arith)
            requires
                position <= u32::MAX * usize::MAX,
        ;
        let below: u128 = (PITCH_APPROXIMATION as u128) * per_bin;
        let above: u128 = (RATIO_SCALE as u128) * per_bin;
        let lo: u128 = (position * (RATIO_SCALE as u128)) / below;
        let scaled: u128 = position * (PITCH_APPROXIMATION as u128);
        let hi: u128 = if scaled % above == 0 {
            scaled / above
        } else {
            scaled / above + 1
        };
        proof {
            assert(pitch * n * RATIO_SCALE == position * RATIO_SCALE);
            assert(pitch * n * PITCH_APPROXIMATION == scaled);
            assert(PITCH_APPROXIMATION * self.srate * MILLIS == below) by (nonlinear_arith)
                requires
                    below == PITCH_APPROXIMATION * per_bin,
                    per_bin == self.srate * MILLIS,
            ;
            assert(RATIO_SCALE * self.srate * MILLIS == above) by (nonlinear_arith)
                requires
                    above == RATIO_SCALE * per_bin,
                    per_bin == self.srate * MILLIS,
            ;
            assert(lo == lowest_bin(pitch as nat, self.srate as nat, n as nat));
            assert(hi == highest_bin(pitch as nat, self.srate as nat, n as nat));
            lemma_range_not_empty(pitch as nat, self.srate as nat, n as nat);
        }
        if hi - lo >= bins - 1 {
            let (peak, at) = self.peak_of_all();
            proof {
                let i = lemma_full_turn_reaches(lo as nat, hi as nat, n as nat, at as nat);
                assert(bin_value(self.data@, i) == peak);
                assert forall|i: nat| lo <= i <= hi implies #[trigger] bin_value(self.data@, i)
                    <= peak by {
                    lemma_mod_bound(i as int, n as int);
                }
            }
            return peak;
        }
        proof {
            lemma_mod_bound(lo as int, n as int);
        }
        let mut peak = self.data[(lo % bins) as usize];
        let mut i: u128 = lo;
        proof {
            assert(bin_value(self.data@, lo as nat) == peak);
        }
        while i < hi
            invariant
                n == self.data@.len(),
                n > 0,
                bins == n,
                lo <= i <= hi,
                exists|j: nat| lo <= j <= i && #[trigger] bin_value(self.data@, j) == peak,
                forall|j: nat| lo <= j <= i ==> #[trigger] bin_value(self.data@, j) <= peak,
            decreases hi - i,
        {
            i += 1;
            proof {
                lemma_mod_bound(i as int, n as int);
            }
            let value = self.data[(i % bins) as usize];
            if value > peak {
                peak = value;
                assert(bin_value(self.data@, i as nat) == peak);
            }
        }
        peak
    }
}

} // verus!
