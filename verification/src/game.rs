//! Scoring: which notes of the song are being listened for, what was heard
//! of each, and which were hit.
//!
//! A note is listened for from the moment it comes into view until its
//! window of forgiveness has passed. Every frame that falls inside the
//! window leaves a sample: how far from the expected instant it was, and how
//! strong the note's pitch was in it. When the window has passed, one sample
//! above the threshold makes the note a hit.

use vstd::prelude::*;
use crate::mic::Mic;
use crate::songs::Note;
use crate::songs::Song;
use crate::spectrum::MagnitudeSpectrum;
use crate::spectrum::tolerant_peak;

verus! {

/// The magnitude, in thousandths, that a sample has to exceed for a hit.
pub const SCORE_THRESHOLD: u32 = 40_000;

/// How far from its expected instant a note is still listened for, in
/// nanoseconds, before and after.
pub const HIT_FORGIVENESS: u64 = 200_000_000;

/// How long before its expected instant a note comes into view, in
/// nanoseconds.
pub const SCROLL_TIME: u64 = 3_250_000_000;

/// Where a frame falls with respect to a note's window of forgiveness.
#[derive(Debug, Clone, Copy, PartialEq, Eq, Structural)]
pub enum Timing {
    /// Before the window opens.
    Early,
    /// Inside the window, this many nanoseconds after the expected instant
    /// (before it, if negative).
    Within(i64),
    /// After the window has closed.
    Late,
}

/// How a note ended.
#[derive(Debug, Clone, Copy, PartialEq, Eq, Structural)]
pub enum NoteOutcome {
    Hit,
    Missed,
}

/// The life of a note.
#[derive(Debug, Clone, Copy, PartialEq, Eq, Structural)]
pub enum NoteState {
    /// Not yet in view.
    Upcoming,
    /// In view and listened for.
    Active,
    /// Done with.
    Resolved(NoteOutcome),
}

/// Where a frame at `progress` falls for a note expected at `expected`.
pub open spec fn timing_of(progress: u64, expected: u64) -> Timing {
    let diff = progress - expected;
    if diff > HIT_FORGIVENESS {
        Timing::Late
    } else if diff < -HIT_FORGIVENESS {
        Timing::Early
    } else {
        Timing::Within(diff as i64)
    }
}

/// Some sample is above the threshold.
pub open spec fn any_above(samples: Seq<(i64, u32)>) -> bool {
    exists|i: int| 0 <= i < samples.len() && (#[trigger] samples[i]).1 > SCORE_THRESHOLD
}

/// What the samples of a note whose window has closed amount to.
pub open spec fn outcome_of(samples: Seq<(i64, u32)>) -> NoteOutcome {
    if any_above(samples) {
        NoteOutcome::Hit
    } else {
        NoteOutcome::Missed
    }
}

/// Where a frame at `progress` falls for a note expected at `expected`.
pub fn timing(progress: u64, expected: u64) -> (t: Timing)
    ensures
        t == timing_of(progress, expected),
{
    if progress >= expected {
        let after = progress - expected;
        if after > HIT_FORGIVENESS {
            Timing::Late
        } else {
            Timing::Within(after as i64)
        }
    } else {
        let before = expected - progress;
        if before > HIT_FORGIVENESS {
            Timing::Early
        } else {
            Timing::Within(-(before as i64))
        }
    }
}

/// How strongly `pitch`, in millihertz, sounds in a frame: the largest
/// magnitude within ten cents of it.
pub fn calculate_score(pitch: u32, spectrum: &MagnitudeSpectrum) -> (score: u32)
    ensures
        score == tolerant_peak(spectrum.bins(), pitch as nat, spectrum.srate_spec() as nat),
{
    spectrum.approx_amplitude_at(pitch)
}

/// What was heard of one note: a sample for every frame inside the note's
/// window, in the order of arrival. A sample is the frame's distance from
/// the expected instant, in nanoseconds, and the score of the frame.
#[derive(Debug)]
pub struct NoteHitData {
    pub data: Vec<(i64, u32)>,
}

impl Default for NoteHitData {
    fn default() -> (d: Self)
        ensures
            d.data@ == Seq::<(i64, u32)>::empty(),
    {
        NoteHitData { data: Vec::new() }
    }
}

impl NoteHitData {
    /// Whether the samples make a hit: one above the threshold is enough.
    pub fn outcome(&self) -> (o: NoteOutcome)
        ensures
            o == outcome_of(self.data@),
    {
        let n = self.data.len();
        let mut i: usize = 0;
        while i < n
            invariant
                n == self.data@.len(),
                i <= n,
                forall|j: int| 0 <= j < i ==> (#[trigger] self.data@[j]).1 <= SCORE_THRESHOLD,
            decreases n - i,
        {
            if self.data[i].1 > SCORE_THRESHOLD {
                return NoteOutcome::Hit;
            }
            i += 1;
        }
        NoteOutcome::Missed
    }
}

/// A note of the song being played.
#[derive(Debug)]
pub struct TrackedNote {
    /// Frequency, in millihertz.
    pub pitch: u32,
    /// The instant at which it is to be hit, in nanoseconds from the start
    /// of the performance.
    pub expected_time: u64,
    pub state: NoteState,
    /// What was heard so far; empty unless the note is active.
    pub hits: NoteHitData,
}

/// A tracked note as plain values.
pub struct TrackedNoteView {
    pub pitch: u32,
    pub expected_time: u64,
    pub state: NoteState,
    pub hits: Seq<(i64, u32)>,
}

impl View for TrackedNote {
    type V = TrackedNoteView;

    open spec fn view(&self) -> TrackedNoteView {
        TrackedNoteView {
            pitch: self.pitch,
            expected_time: self.expected_time,
            state: self.state,
            hits: self.hits.data@,
        }
    }
}

impl TrackedNoteView {
    /// A note of the song before the performance.
    pub open spec fn upcoming(note: Note, expected_time: u64) -> Self {
        TrackedNoteView {
            pitch: note.pitch_spec(),
            expected_time,
            state: NoteState::Upcoming,
            hits: Seq::empty(),
        }
    }

    /// The note after a frame. Only an active note changes: a frame inside
    /// its window adds a sample, a frame after its window resolves it, as a
    /// hit if a sample so far is above the threshold.
    pub open spec fn observe(self, frame: MagnitudeSpectrum) -> Self {
        if self.state != NoteState::Active {
            self
        } else {
            match timing_of(frame.progress_spec(), self.expected_time) {
                Timing::Early => self,
                Timing::Within(diff) => TrackedNoteView {
                    hits: self.hits.push(
                        (
                            diff,
                            tolerant_peak(
                                frame.bins(),
                                self.pitch as nat,
                                frame.srate_spec() as nat,
                            ),
                        ),
                    ),
                    ..self
                },
                Timing::Late => TrackedNoteView {
                    state: NoteState::Resolved(outcome_of(self.hits)),
                    hits: Seq::empty(),
                    ..self
                },
            }
        }
    }

    pub open spec fn is_hit(self) -> bool {
        self.state == NoteState::Resolved(NoteOutcome::Hit)
    }

    /// The note comes into view before `horizon`.
    pub open spec fn due(self, horizon: nat) -> bool {
        self.expected_time < horizon
    }
}

impl TrackedNote {
    /// Takes a frame into account.
    pub fn observe(&mut self, frame: &MagnitudeSpectrum)
        ensures
            final(self)@ == old(self)@.observe(*frame),
    {
        match self.state {
            NoteState::Active => {},
            _ => { return ; },
        }
        match timing(frame.progress(), self.expected_time) {
            Timing::Early => {},
            Timing::Within(diff) => {
                let score = calculate_score(self.pitch, frame);
                self.hits.data.push((diff, score));
            },
            Timing::Late => {
                let outcome = self.hits.outcome();
                self.state = NoteState::Resolved(outcome);
                self.hits.data.clear();
            },
        }
    }
}

/// Number of hits among the first `n` notes.
pub open spec fn hit_count(notes: Seq<TrackedNoteView>, n: nat) -> nat
    decreases n,
{
    if n == 0 {
        0
    } else {
        hit_count(notes, (n - 1) as nat) + if notes[n - 1].is_hit() {
            1nat
        } else {
            0nat
        }
    }
}

/// There are no more hits than notes.
pub proof fn lemma_hit_count_bounded(notes: Seq<TrackedNoteView>, n: nat)
    ensures
        hit_count(notes, n) <= n,
    decreases n,
{
    if n > 0 {
        lemma_hit_count_bounded(notes, (n - 1) as nat);
    }
}

/// The count over a prefix depends on that prefix alone.
pub proof fn lemma_hit_count_prefix(a: Seq<TrackedNoteView>, b: Seq<TrackedNoteView>, n: nat)
    requires
        n <= a.len(),
        n <= b.len(),
        forall|i: int| 0 <= i < n ==> a[i].is_hit() == b[i].is_hit(),
    ensures
        hit_count(a, n) == hit_count(b, n),
    decreases n,
{
    if n > 0 {
        lemma_hit_count_prefix(a, b, (n - 1) as nat);
    }
}

/// The song being played, as plain values.
pub struct CurrentSongView {
    /// The notes, in the order of the song.
    pub notes: Seq<TrackedNoteView>,
    /// How many notes have come into view: the index of the first that has
    /// not.
    pub latest_unplayed_note: nat,
    /// How many notes were hit.
    pub success: nat,
}

impl CurrentSongView {
    /// The notes in view are the first `latest_unplayed_note`, and the
    /// count of hits is that of the notes resolved as hits.
    pub open spec fn wf(self) -> bool {
        &&& self.latest_unplayed_note <= self.notes.len()
        &&& forall|i: int|
            0 <= i < self.notes.len() ==> ((#[trigger] self.notes[i]).state is Upcoming <==> i
                >= self.latest_unplayed_note)
        &&& self.success == hit_count(self.notes, self.notes.len())
    }

    /// The song after a frame: every note has taken it into account.
    pub open spec fn on_frame(self, frame: MagnitudeSpectrum) -> Self {
        let notes = self.notes.map_values(|n: TrackedNoteView| n.observe(frame));
        CurrentSongView { notes, success: hit_count(notes, notes.len()), ..self }
    }
}

/// Between `before` and `after` the notes `from .. to` have come into view,
/// all of them due before `horizon`, and no other note has changed.
pub open spec fn spawned_between(
    before: CurrentSongView,
    after: CurrentSongView,
    from: int,
    to: int,
    horizon: nat,
) -> bool {
    &&& after.notes.len() == before.notes.len()
    &&& forall|i: int|
        from <= i < to ==> before.notes[i].due(horizon) && #[trigger] after.notes[i] == (
        TrackedNoteView { state: NoteState::Active, ..before.notes[i] })
    &&& forall|i: int|
        0 <= i < before.notes.len() && !(from <= i < to) ==> #[trigger] after.notes[i]
            == before.notes[i]
}

/// The song being played: its notes, how far it has come and how many
/// notes were hit.
#[derive(Debug)]
pub struct CurrentSong {
    notes: Vec<TrackedNote>,
    latest_unplayed_note: usize,
    success: usize,
}

impl View for CurrentSong {
    type V = CurrentSongView;

    closed spec fn view(&self) -> CurrentSongView {
        CurrentSongView {
            notes: self.notes@.map_values(|n: TrackedNote| n@),
            latest_unplayed_note: self.latest_unplayed_note as nat,
            success: self.success as nat,
        }
    }
}

impl CurrentSong {
    /// The state that every operation keeps.
    pub open spec fn wf(&self) -> bool {
        self@.wf()
    }

    /// The song before its performance: every note still to come, no hit.
    /// There is none for a song at tempo zero, nor for one with a note so
    /// late that its instant does not fit 64 bits.
    pub fn new<H>(song: &Song<H>) -> (r: Option<Self>)
        ensures
            r is Some <==> forall|i: int|
                0 <= i < song.notes@.len() ==> (#[trigger] song.notes@[i]).hit_time_spec(song.bpm)
                    is Some,
            r matches Some(s) ==> s.wf() && s@.latest_unplayed_note == 0 && s@.success == 0
                && s@.notes.len() == song.notes@.len() && forall|i: int|
                0 <= i < song.notes@.len() ==> #[trigger] s@.notes[i] == TrackedNoteView::upcoming(
                    song.notes@[i],
                    song.notes@[i].hit_time_spec(song.bpm)->0,
                ),
    {
        let n = song.notes.len();
        let mut notes: Vec<TrackedNote> = Vec::new();
        let mut i: usize = 0;
        while i < n
            invariant
                n == song.notes@.len(),
                i <= n,
                notes@.len() == i,
                forall|j: int|
                    0 <= j < i ==> (#[trigger] song.notes@[j]).hit_time_spec(song.bpm) is Some,
                forall|j: int|
                    0 <= j < i ==> (#[trigger] notes@[j])@ == TrackedNoteView::upcoming(
                        song.notes@[j],
                        song.notes@[j].hit_time_spec(song.bpm)->0,
                    ),
            decreases n - i,
        {
            let note = &song.notes[i];
            match note.hit_time(song.bpm) {
                Some(expected_time) => {
                    notes.push(
                        TrackedNote {
                            pitch: note.pitch(),
                            expected_time,
                            state: NoteState::Upcoming,
                            hits: NoteHitData::default(),
                        },
                    );
                },
                None => {
                    return None;
                },
            }
            i += 1;
        }
        let song = CurrentSong { notes, latest_unplayed_note: 0, success: 0 };
        proof {
            let view = song@.notes;
            assert forall|k: nat| k <= view.len() implies hit_count(view, k) == 0 by {
                lemma_none_hit(view, k);
            }
        }
        Some(song)
    }

    /// Number of notes in the song.
    pub fn len(&self) -> (n: usize)
        ensures
            n == self@.notes.len(),
    {
        self.notes.len()
    }

    /// How many notes have come into view.
    pub fn latest_unplayed_note(&self) -> (n: usize)
        ensures
            n == self@.latest_unplayed_note,
    {
        self.latest_unplayed_note
    }

    /// How many notes were hit.
    pub fn success(&self) -> (n: usize)
        ensures
            n == self@.success,
    {
        self.success
    }

    /// The `index`-th note, if there is such a note.
    pub fn note(&self, index: usize) -> (r: Option<&TrackedNote>)
        ensures
            r is Some <==> index < self@.notes.len(),
            r matches Some(note) ==> note@ == self@.notes[index as int],
    {
        if index < self.notes.len() {
            Some(&self.notes[index])
        } else {
            None
        }
    }

    /// The state of the `index`-th note, if there is such a note.
    pub fn state(&self, index: usize) -> (s: Option<NoteState>)
        ensures
            s is Some <==> index < self@.notes.len(),
            s matches Some(state) ==> state == self@.notes[index as int].state,
    {
        if index < self.notes.len() {
            Some(self.notes[index].state)
        } else {
            None
        }
    }

    /// Brings into view the notes that are due `elapsed` nanoseconds into
    /// the performance: in the order of the song, every note expected
    /// within the scroll time from now, up to the first that is not. Says
    /// how many these were.
    pub fn spawn_due(&mut self, elapsed: u64) -> (spawned: usize)
        requires
            old(self).wf(),
        ensures
            final(self).wf(),
            final(self)@.success == old(self)@.success,
            final(self)@.notes.len() == old(self)@.notes.len(),
            final(self)@.latest_unplayed_note == old(self)@.latest_unplayed_note + spawned,
            spawned_between(
                old(self)@,
                final(self)@,
                old(self)@.latest_unplayed_note as int,
                final(self)@.latest_unplayed_note as int,
                (elapsed + SCROLL_TIME) as nat,
            ),
            final(self)@.latest_unplayed_note < final(self)@.notes.len() ==> !final(self)@.notes[
                final(self)@.latest_unplayed_note as int
            ].due((elapsed + SCROLL_TIME) as nat),
    {
        let n = self.notes.len();
        let horizon: u128 = elapsed as u128 + SCROLL_TIME as u128;
        let first = self.latest_unplayed_note;
        let mut spawned: usize = 0;
        proof {
            assert(old(self)@.notes.len() == n);
        }
        while self.latest_unplayed_note < n && (self.notes[self.latest_unplayed_note].expected_time
            as u128) < horizon
            invariant
                n == self.notes@.len(),
                n == old(self).notes@.len(),
                horizon == elapsed + SCROLL_TIME,
                first == old(self).latest_unplayed_note,
                self.latest_unplayed_note == first + spawned,
                self.latest_unplayed_note <= n,
                self.success == old(self).success,
                forall|i: int|
                    first <= i < first + spawned ==> old(self).notes@[i]@.due(horizon as nat) && (
                    #[trigger] self.notes@[i])@ == (TrackedNoteView {
                        state: NoteState::Active,
                        ..old(self).notes@[i]@
                    }),
                forall|i: int|
                    0 <= i < n && !(first <= i < first + spawned) ==> (#[trigger] self.notes@[i])@
                        == old(self).notes@[i]@,
            decreases n - self.latest_unplayed_note,
        {
            let at = self.latest_unplayed_note;
            self.notes[at].state = NoteState::Active;
            self.latest_unplayed_note = at + 1;
            spawned += 1;
        }
        proof {
            let before = old(self)@;
            let after = self@;
            assert forall|i: int| 0 <= i < n implies #[trigger] after.notes[i].is_hit()
                == before.notes[i].is_hit() by {
                assert(before.notes[i] == old(self).notes@[i]@);
                assert(after.notes[i] == self.notes@[i]@);
                if first <= i < first + spawned {
                    assert(before.notes[i].state is Upcoming);
                }
            }
            lemma_hit_count_prefix(before.notes, after.notes, n as nat);
            assert forall|i: int| first <= i < first + spawned implies before.notes[i].due(
                horizon as nat,
            ) && #[trigger] after.notes[i] == (TrackedNoteView {
                state: NoteState::Active,
                ..before.notes[i]
            }) by {
                assert(before.notes[i] == old(self).notes@[i]@);
                assert(after.notes[i] == self.notes@[i]@);
            }
            assert forall|i: int|
                0 <= i < before.notes.len() && !(first <= i < first + spawned)
                    implies #[trigger] after.notes[i] == before.notes[i] by {
                assert(before.notes[i] == old(self).notes@[i]@);
                assert(after.notes[i] == self.notes@[i]@);
            }
            assert forall|i: int| 0 <= i < after.notes.len() implies ((
            #[trigger] after.notes[i]).state is Upcoming <==> i >= after.latest_unplayed_note) by {
                assert(before.notes[i] == old(self).notes@[i]@);
                assert(after.notes[i] == self.notes@[i]@);
                assert(before.notes[i].state is Upcoming <==> i >= before.latest_unplayed_note);
            }
            if self.latest_unplayed_note < n {
                let at = self.latest_unplayed_note as int;
                assert(after.notes[at] == self.notes@[at]@);
            }
        }
        spawned
    }

    /// Takes a frame into account for every note.
    pub fn on_frame(&mut self, frame: &MagnitudeSpectrum)
        requires
            old(self).wf(),
        ensures
            final(self).wf(),
            final(self)@ == old(self)@.on_frame(*frame),
    {
        let n = self.notes.len();
        let mut i: usize = 0;
        let ghost start = old(self)@.notes;
        proof {
            assert(start.len() == n);
            assert forall|j: int| 0 <= j < n implies (#[trigger] self.notes@[j])@ == start[j] by {}
        }
        while i < n
            invariant
                n == self.notes@.len(),
                n == start.len(),
                start == old(self)@.notes,
                i <= n,
                old(self).wf(),
                self.latest_unplayed_note == old(self).latest_unplayed_note,
                forall|j: int| 0 <= j < i ==> (#[trigger] self.notes@[j])@ == start[j].observe(*frame),
                forall|j: int| i <= j < n ==> (#[trigger] self.notes@[j])@ == start[j],
                self.success + hit_count(start, i as nat) == hit_count(
                    self.notes@.map_values(|t: TrackedNote| t@),
                    i as nat,
                ) + old(self).success,
            decreases n - i,
        {
            let ghost before = self.notes@.map_values(|t: TrackedNote| t@);
            let was_active = match self.notes[i].state {
                NoteState::Active => true,
                _ => false,
            };
            self.notes[i].observe(frame);
            let is_hit = match self.notes[i].state {
                NoteState::Resolved(NoteOutcome::Hit) => true,
                _ => false,
            };
            proof {
                let after = self.notes@.map_values(|t: TrackedNote| t@);
                assert forall|j: int| 0 <= j < i implies #[trigger] before[j].is_hit()
                    == after[j].is_hit() by {
                    assert(after[j] == self.notes@[j]@);
                }
                lemma_hit_count_prefix(before, after, i as nat);
                assert(after[i as int] == self.notes@[i as int]@);
                assert(after[i as int] == start[i as int].observe(*frame));
                lemma_hit_count_bounded(after, (i + 1) as nat);
                lemma_hit_count_difference(start, (i + 1) as nat, n as nat);
                assert(old(self)@.success == hit_count(start, n as nat));
            }
            if was_active && is_hit {
                self.success += 1;
            }
            i += 1;
        }
        proof {
            let after = self@;
            let expected = old(self)@.on_frame(*frame);
            assert(after.notes =~= expected.notes) by {
                assert forall|j: int| 0 <= j < n implies #[trigger] after.notes[j]
                    == expected.notes[j] by {
                    assert(after.notes[j] == self.notes@[j]@);
                }
            }
            assert forall|j: int| 0 <= j < after.notes.len() implies ((
            #[trigger] after.notes[j]).state is Upcoming <==> j >= after.latest_unplayed_note) by {
                assert(start[j].state is Upcoming <==> j >= old(self)@.latest_unplayed_note);
            }
        }
    }

    /// Whether the performance is over: every note has come into view and
    /// none is left on screen.
    pub fn finished(&self, on_screen: usize) -> (b: bool)
        ensures
            b <==> self@.latest_unplayed_note >= self@.notes.len() && on_screen == 0,
    {
        self.latest_unplayed_note >= self.notes.len() && on_screen == 0
    }
}

/// The song after a run of frames, taken in order.
pub open spec fn after_frames(song: CurrentSongView, frames: Seq<MagnitudeSpectrum>) -> CurrentSongView
    decreases frames.len(),
{
    if frames.len() == 0 {
        song
    } else {
        after_frames(song, frames.drop_last()).on_frame(frames.last())
    }
}

/// Takes the frames that are waiting into account, in the order in which
/// they came, without waiting for more: as many as were waiting at the
/// start, or fewer if the channel runs dry; none without a running stream.
/// Says how many were taken.
pub fn rhythm_calculator<D>(song: &mut CurrentSong, mic: &Mic<D>) -> (heard: usize)
    requires
        old(song).wf(),
    ensures
        final(song).wf(),
        mic.mir_receiver is None ==> heard == 0,
        exists|frames: Seq<MagnitudeSpectrum>|
            frames.len() == heard && final(song)@ == #[trigger] after_frames(old(song)@, frames),
{
    let mut heard: usize = 0;
    let ghost mut taken: Seq<MagnitudeSpectrum> = Seq::empty();
    match &mic.mir_receiver {
        Some(receiver) => {
            let waiting = receiver.len();
            let mut open = true;
            while open && heard < waiting
                invariant
                    heard <= waiting,
                    taken.len() == heard,
                    song.wf(),
                    song@ == after_frames(old(song)@, taken),
                decreases waiting - heard + if open { 1int } else { 0int },
            {
                match receiver.try_recv() {
                    Ok(frame) => {
                        proof {
                            let longer = taken.push(frame);
                            assert(longer.drop_last() == taken);
                            taken = longer;
                        }
                        song.on_frame(&frame);
                        heard += 1;
                    },
                    Err(_) => {
                        open = false;
                    },
                }
            }
        },
        None => {},
    }
    proof {
        assert(taken.len() == heard);
        assert(song@ == after_frames(old(song)@, taken));
    }
    heard
}

/// The performance starts in the step of the clock from `previous` to
/// `current`, both in nanoseconds from the start of the song: the step
/// that takes the clock from zero, or from before it, to past it.
pub open spec fn starts_between(previous: i64, current: i64) -> bool {
    previous <= 0 < current
}

/// The clock never runs backwards.
pub open spec fn never_back(ticks: Seq<i64>) -> bool {
    forall|a: int, b: int| 0 <= a <= b < ticks.len() ==> ticks[a] <= ticks[b]
}

/// Whether the performance starts in the step of the clock from `previous`
/// to `current`: it does when the step leaves zero behind. A step that
/// stays at zero is not yet the start; the step after it is.
pub fn performance_starts(previous: i64, current: i64) -> (b: bool)
    ensures
        b == starts_between(previous, current),
{
    previous <= 0 && 0 < current
}

/// Along a clock that never runs backwards, the performance does not start
/// twice: of any two steps, at most one is the start.
pub proof fn lemma_starts_at_most_once(ticks: Seq<i64>, i: int, j: int)
    requires
        never_back(ticks),
        0 <= i < j,
        j + 1 < ticks.len(),
    ensures
        !(starts_between(ticks[i], ticks[i + 1]) && starts_between(ticks[j], ticks[j + 1])),
{
    assert(ticks[i + 1] <= ticks[j]);
}

/// Along a clock that never runs backwards, begins at zero or before it and
/// gets past it, the performance does start: some step is the start.
pub proof fn lemma_starts_once(ticks: Seq<i64>) -> (at: int)
    requires
        never_back(ticks),
        ticks.len() >= 2,
        ticks[0] <= 0 < ticks[ticks.len() - 1],
    ensures
        0 <= at,
        at + 1 < ticks.len(),
        starts_between(ticks[at], ticks[at + 1]),
        forall|other: int|
            0 <= other && other + 1 < ticks.len() && other != at ==> !starts_between(
                #[trigger] ticks[other],
                ticks[other + 1],
            ),
    decreases ticks.len(),
{
    let last = ticks.len() - 1;
    let at = if ticks[last - 1] <= 0 {
        last - 1
    } else {
        let earlier = ticks.drop_last();
        assert forall|a: int, b: int| 0 <= a <= b < earlier.len() implies earlier[a]
            <= earlier[b] by {
            assert(ticks[a] <= ticks[b]);
        }
        lemma_starts_once(earlier)
    };
    assert forall|other: int|
        0 <= other && other + 1 < ticks.len() && other != at implies !starts_between(
        #[trigger] ticks[other],
        ticks[other + 1],
    ) by {
        if other < at {
            lemma_starts_at_most_once(ticks, other, at);
        } else {
            lemma_starts_at_most_once(ticks, at, other);
        }
    }
    at
}

/// A frame never undoes a hit: the count of hits does not go down.
pub proof fn lemma_hits_never_decrease(song: CurrentSongView, frame: MagnitudeSpectrum)
    requires
        song.wf(),
    ensures
        song.on_frame(frame).wf(),
        song.on_frame(frame).success >= song.success,
        forall|i: int|
            0 <= i < song.notes.len() && (#[trigger] song.notes[i]).state is Resolved
                ==> song.on_frame(frame).notes[i] == song.notes[i],
{
    let after = song.on_frame(frame);
    lemma_hit_count_grows(song.notes, after.notes, song.notes.len());
}

/// Where every hit of one run of notes is a hit of another, the other has
/// at least as many.
pub proof fn lemma_hit_count_grows(a: Seq<TrackedNoteView>, b: Seq<TrackedNoteView>, n: nat)
    requires
        n <= a.len(),
        n <= b.len(),
        forall|i: int| 0 <= i < n ==> (a[i].is_hit() ==> b[i].is_hit()),
    ensures
        hit_count(a, n) <= hit_count(b, n),
    decreases n,
{
    if n > 0 {
        lemma_hit_count_grows(a, b, (n - 1) as nat);
    }
}

/// Among notes that are all still to come, none is a hit.
proof fn lemma_none_hit(notes: Seq<TrackedNoteView>, n: nat)
    requires
        n <= notes.len(),
        forall|i: int| 0 <= i < notes.len() ==> (#[trigger] notes[i]).state is Upcoming,
    ensures
        hit_count(notes, n) == 0,
    decreases n,
{
    if n > 0 {
        lemma_none_hit(notes, (n - 1) as nat);
    }
}

/// Between two prefixes the count grows by no more than the notes between.
pub proof fn lemma_hit_count_difference(notes: Seq<TrackedNoteView>, a: nat, b: nat)
    requires
        a <= b,
    ensures
        hit_count(notes, a) <= hit_count(notes, b) <= hit_count(notes, a) + (b - a),
    decreases b,
{
    if a < b {
        lemma_hit_count_difference(notes, a, (b - 1) as nat);
    }
}

} // verus!
