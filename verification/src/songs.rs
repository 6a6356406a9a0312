//! Songs: what is to be played, and when.
//!
//! Frequencies are whole millihertz, beats and tempi whole thousandths (of a
//! beat, of a beat per minute), instants whole nanoseconds.

use vstd::prelude::*;
use vstd::arithmetic::power2::lemma_pow2_strictly_increases;
use vstd::arithmetic::power2::lemma_pow2_unfold;
use vstd::arithmetic::power2::pow2;
use crate::timeline::NANOS_PER_SECOND;

verus! {

pub const SECONDS_PER_MINUTE: u64 = 60;

/// The scale of the semitone ratios: billionths.
pub const SEMITONE_SCALE: u64 = 1_000_000_000;

/// The six open strings of a guitar in standard tuning, lowest first.
#[derive(Debug, Clone, Copy, PartialEq, Eq, Structural)]
pub enum Tab {
    E2,
    A2,
    D3,
    G3,
    B3,
    E4,
}

/// Frequency of the open string, in millihertz.
pub open spec fn base_frequency(tab: Tab) -> nat {
    match tab {
        Tab::E2 => 82_410,
        Tab::A2 => 110_000,
        Tab::D3 => 146_830,
        Tab::G3 => 196_000,
        Tab::B3 => 246_940,
        Tab::E4 => 329_630,
    }
}

/// The frequency ratio of `step` equal-tempered semitones, below an octave,
/// in billionths, to the nearest billionth.
pub open spec fn semitone_ratio(step: nat) -> nat {
    if step == 0 {
        1_000_000_000
    } else if step == 1 {
        1_059_463_094
    } else if step == 2 {
        1_122_462_048
    } else if step == 3 {
        1_189_207_115
    } else if step == 4 {
        1_259_921_050
    } else if step == 5 {
        1_334_839_854
    } else if step == 6 {
        1_414_213_562
    } else if step == 7 {
        1_498_307_077
    } else if step == 8 {
        1_587_401_052
    } else if step == 9 {
        1_681_792_831
    } else if step == 10 {
        1_781_797_436
    } else {
        1_887_748_625
    }
}

/// The frequency of a string stopped at `fret`, in millihertz: the open
/// string raised by the semitones within the octave, rounded down, and
/// doubled once for every whole octave.
pub open spec fn pitch_of(tab: Tab, fret: nat) -> nat {
    (base_frequency(tab) * semitone_ratio(fret % 12) / (SEMITONE_SCALE as nat)) * pow2(fret / 12)
}

/// The instant of a beat, in nanoseconds from the start of the song, at a
/// tempo in thousandths of a beat per minute; the beat is in thousandths.
pub open spec fn beat_time(beat: nat, bpm: nat) -> nat {
    ((beat * SECONDS_PER_MINUTE * NANOS_PER_SECOND) / (bpm as int)) as nat
}

/// One octave up doubles the pitch.
pub proof fn lemma_octave_doubles(tab: Tab, fret: nat)
    ensures
        pitch_of(tab, fret + 12) == 2 * pitch_of(tab, fret),
{
    let within = base_frequency(tab) * semitone_ratio(fret % 12) / (SEMITONE_SCALE as nat);
    assert((fret + 12) % 12 == fret % 12 && (fret + 12) / 12 == fret / 12 + 1);
    lemma_pow2_unfold(fret / 12 + 1);
    assert(within * (2 * pow2(fret / 12)) == 2 * (within * pow2(fret / 12)))
        by (nonlinear_arith);
}

/// A note of a song: a string, the fret it is stopped at and the beat on
/// which it falls, in thousandths of a beat from the start of the song.
#[derive(Debug, Clone, Copy)]
pub struct Note {
    pub tab: Tab,
    pub fret: u32,
    pub beat: u32,
}

/// The column in which a string's notes fall, counted from one, lowest
/// string first.
pub open spec fn column_of(tab: Tab) -> nat {
    match tab {
        Tab::E2 => 1,
        Tab::A2 => 2,
        Tab::D3 => 3,
        Tab::G3 => 4,
        Tab::B3 => 5,
        Tab::E4 => 6,
    }
}

impl Tab {
    /// The column in which the string's notes fall, from one to six.
    pub fn column(&self) -> (c: u32)
        ensures
            c == column_of(*self),
            1 <= c <= 6,
    {
        match self {
            Tab::E2 => 1,
            Tab::A2 => 2,
            Tab::D3 => 3,
            Tab::G3 => 4,
            Tab::B3 => 5,
            Tab::E4 => 6,
        }
    }

    /// Frequency of the open string, in millihertz.
    pub fn base(&self) -> (f: u32)
        ensures
            f == base_frequency(*self),
    {
        match self {
            Tab::E2 => 82_410,
            Tab::A2 => 110_000,
            Tab::D3 => 146_830,
            Tab::G3 => 196_000,
            Tab::B3 => 246_940,
            Tab::E4 => 329_630,
        }
    }
}

/// The frequency ratio of `step` semitones, for a step below an octave.
fn semitone(step: u32) -> (r: u64)
    requires
        step < 12,
    ensures
        r == semitone_ratio(step as nat),
        1_000_000_000 <= r < 2_000_000_000,
{
    if step == 0 {
        1_000_000_000
    } else if step == 1 {
        1_059_463_094
    } else if step == 2 {
        1_122_462_048
    } else if step == 3 {
        1_189_207_115
    } else if step == 4 {
        1_259_921_050
    } else if step == 5 {
        1_334_839_854
    } else if step == 6 {
        1_414_213_562
    } else if step == 7 {
        1_498_307_077
    } else if step == 8 {
        1_587_401_052
    } else if step == 9 {
        1_681_792_831
    } else if step == 10 {
        1_781_797_436
    } else {
        1_887_748_625
    }
}

impl Note {
    /// The note's frequency in millihertz, or the largest value that fits
    /// where the frequency is beyond it.
    pub open spec fn pitch_spec(&self) -> u32 {
        if pitch_of(self.tab, self.fret as nat) <= u32::MAX {
            pitch_of(self.tab, self.fret as nat) as u32
        } else {
            u32::MAX
        }
    }

    /// The instant at which the note is to be hit, in nanoseconds from the
    /// start of the song, at a tempo of `bpm` thousandths of a beat per
    /// minute, where there is one that fits 64 bits.
    pub open spec fn hit_time_spec(&self, bpm: u32) -> Option<u64> {
        if bpm > 0 && beat_time(self.beat as nat, bpm as nat) <= u64::MAX {
            Some(beat_time(self.beat as nat, bpm as nat) as u64)
        } else {
            None
        }
    }

    /// The note's frequency in millihertz, or the largest value that fits
    /// where the frequency is beyond it.
    #[verifier::when_used_as_spec(pitch_spec)]
    pub fn pitch(&self) -> (p: u32)
        ensures
            p == self.pitch_spec(),
    {
        let base = self.tab.base() as u64;
        let ratio = semitone(self.fret % 12);
        assert(base * ratio < 400_000 * 2_000_000_000) by (nonlinear_arith)
            requires
                base < 400_000,
                ratio < 2_000_000_000,
        ;
        let within: u64 = base * ratio / SEMITONE_SCALE;
        assert(within >= base) by {
            assert(base * ratio >= base * SEMITONE_SCALE) by (nonlinear_arith)
                requires
                    ratio >= SEMITONE_SCALE,
            ;
            vstd::arithmetic::div_mod::lemma_div_is_ordered(
                (base * SEMITONE_SCALE) as int,
                (base * ratio) as int,
                SEMITONE_SCALE as int,
            );
            vstd::arithmetic::div_mod::lemma_div_multiples_vanish(
                base as int,
                SEMITONE_SCALE as int,
            );
            assert(base * SEMITONE_SCALE == SEMITONE_SCALE * base) by (nonlinear_arith);
        }
        let octaves = self.fret / 12;
        let limit: u64 = u32::MAX as u64;
        let mut value: u64 = within;
        let mut done: u32 = 0;
        proof {
            vstd::arithmetic::power2::lemma2_to64();
            assert(within * pow2(0) == within) by (nonlinear_arith)
                requires
                    pow2(0) == 1,
            ;
        }
        while done < octaves && value <= limit
            invariant
                done <= octaves,
                within >= 1,
                limit == u32::MAX,
                value == within * pow2(done as nat),
                value <= 2 * limit,
            decreases octaves - done,
        {
            proof {
                lemma_pow2_unfold((done + 1) as nat);
                assert(within * (2 * pow2(done as nat)) == 2 * (within * pow2(done as nat)))
                    by (nonlinear_arith);
            }
            value = value * 2;
            done += 1;
        }
        proof {
            if done < octaves {
                lemma_pow2_strictly_increases(done as nat, octaves as nat);
                assert(within * pow2(done as nat) <= within * pow2(octaves as nat))
                    by (nonlinear_arith)
                    requires
                        pow2(done as nat) < pow2(octaves as nat),
                        within >= 1,
                ;
            }
        }
        if value <= limit {
            value as u32
        } else {
            u32::MAX
        }
    }

    /// The instant at which the note is to be hit, in nanoseconds from the
    /// start of the song, at a tempo of `bpm` thousandths of a beat per
    /// minute. There is none at tempo zero, nor where the instant does not
    /// fit 64 bits.
    #[verifier::when_used_as_spec(hit_time_spec)]
    pub fn hit_time(&self, bpm: u32) -> (t: Option<u64>)
        ensures
            t == self.hit_time_spec(bpm),
    {
        if bpm == 0 {
            return None;
        }
        let per_beat: u128 = (SECONDS_PER_MINUTE as u128) * (NANOS_PER_SECOND as u128);
        assert(self.beat * per_beat <= u32::MAX * per_beat) by (nonlinear_arith)
            requires
                self.beat <= u32::MAX,
                per_beat >= 0,
        ;
        assert(self.beat * SECONDS_PER_MINUTE * NANOS_PER_SECOND == self.beat * per_beat)
            by (nonlinear_arith)
            requires
                per_beat == SECONDS_PER_MINUTE * NANOS_PER_SECOND,
        ;
        let at: u128 = (self.beat as u128) * per_beat / (bpm as u128);
        if at <= u64::MAX as u128 {
            Some(at as u64)
        } else {
            None
        }
    }
}

/// A song as it is written down: the name of a backing track, if there is
/// one, the tempo in thousandths of a beat per minute, and the notes.
#[derive(Debug)]
pub struct SongData {
    pub backing: Option<String>,
    pub bpm: u32,
    pub notes: Vec<Note>,
}

/// A song ready to be played. `H` is whatever stands for the loaded backing
/// track.
#[derive(Debug)]
pub struct Song<H> {
    pub backing: Option<H>,
    pub bpm: u32,
    pub notes: Vec<Note>,
}

/// The notes come in the order of their beats.
pub open spec fn in_beat_order(notes: Seq<Note>) -> bool {
    forall|i: int, j: int| 0 <= i <= j < notes.len() ==> notes[i].beat <= notes[j].beat
}

impl<H> Song<H> {
    /// The song that the written song and its loaded backing track make.
    pub fn from_data(data: SongData, backing: Option<H>) -> (song: Self)
        ensures
            song.backing == backing,
            song.bpm == data.bpm,
            song.notes == data.notes,
    {
        Song { backing, bpm: data.bpm, notes: data.notes }
    }

    /// Whether the notes come in the order of their beats.
    pub fn is_ordered(&self) -> (b: bool)
        ensures
            b == in_beat_order(self.notes@),
    {
        let n = self.notes.len();
        if n == 0 {
            return true;
        }
        let mut i: usize = 1;
        while i < n
            invariant
                n == self.notes@.len(),
                1 <= i <= n,
                forall|a: int, b: int| 0 <= a <= b < i ==> self.notes@[a].beat <= self.notes@[b].beat,
            decreases n - i,
        {
            if self.notes[i - 1].beat > self.notes[i].beat {
                return false;
            }
            i += 1;
        }
        true
    }
}

} // verus!
