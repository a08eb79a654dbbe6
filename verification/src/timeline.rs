//! Replaying a performance: for each timed event, how long to wait and
//! which notes sound while waiting, with the tempo changes and note
//! events applied in order.

use vstd::prelude::*;

verus! {

/// The tempo in force before any tempo change: 120 beats per minute.
pub const DEFAULT_TEMPO: u32 = 500000;

/// A sounding note.
#[derive(Clone, Copy, Debug, PartialEq, Eq, Structural)]
pub struct Note {
    pub pitch: u8,
    pub velocity: u8,
}

/// What an event does.
#[derive(Clone, Copy, Debug, PartialEq, Eq, Structural)]
pub enum EventKind {
    /// From the next event on, a quarter note lasts this many microseconds.
    TempoChange { micros_per_quarter: u32 },
    /// The note starts to sound.
    NoteOn { pitch: u8, velocity: u8 },
    /// Every sounding note of this pitch stops, whatever its velocity.
    NoteOff { pitch: u8, velocity: u8 },
    /// Anything else; it changes nothing.
    Other,
}

/// An event and the ticks that pass before it.
#[derive(Clone, Copy, Debug, PartialEq, Eq, Structural)]
pub struct TimedEvent {
    pub delta_ticks: u32,
    pub kind: EventKind,
}

/// The pitches that a keyboard can show: `n_keys` of them from
/// `base_offset`, the pitch of its lowest key.
#[derive(Clone, Copy, Debug, PartialEq, Eq, Structural)]
pub struct KeyRange {
    pub base_offset: u8,
    pub n_keys: usize,
}

/// Why an event was skipped.
#[derive(Clone, Copy, Debug, PartialEq, Eq, Structural)]
pub enum DataValidityError {
    /// The pitch of a note event has no key on the keyboard.
    PitchOutOfRange { pitch: u8 },
    /// A tempo of zero microseconds per quarter note.
    InvalidTempo,
}

/// Where a replay stands.
#[derive(Clone, Copy, Debug, PartialEq, Eq, Structural)]
pub enum Phase {
    /// No event seen yet.
    Idle,
    /// At least one event seen, and more may come.
    Playing,
    /// The events are used up.
    Done,
}

/// What a replay carries from one event to the next.
pub struct TimelineState {
    pub tempo: int,
    pub active: Seq<Note>,
}

/// What a replay hands out for one event.
pub struct FrameModel {
    pub wait_micros: int,
    pub active: Seq<Note>,
    pub fault: Option<DataValidityError>,
}

impl KeyRange {
    /// The key that shows `pitch`, if the keyboard has one.
    pub open spec fn key_of(self, pitch: int) -> Option<int> {
        if self.base_offset <= pitch < self.base_offset + self.n_keys {
            Some(pitch - self.base_offset)
        } else {
            None
        }
    }

    /// What is wrong with an event of kind `kind`, if anything.
    pub open spec fn fault_of(self, kind: EventKind) -> Option<DataValidityError> {
        match kind {
            EventKind::TempoChange { micros_per_quarter } => if micros_per_quarter == 0 {
                Some(DataValidityError::InvalidTempo)
            } else {
                None
            },
            EventKind::NoteOn { pitch, .. } => if self.key_of(pitch as int) is None {
                Some(DataValidityError::PitchOutOfRange { pitch })
            } else {
                None
            },
            EventKind::NoteOff { pitch, .. } => if self.key_of(pitch as int) is None {
                Some(DataValidityError::PitchOutOfRange { pitch })
            } else {
                None
            },
            EventKind::Other => None,
        }
    }

    /// The key that shows `pitch`, or the error that the pitch is off the
    /// keyboard.
    pub fn pitch_to_key(&self, pitch: u8) -> (key: Result<usize, DataValidityError>)
        ensures
            match self.key_of(pitch as int) {
                Some(k) => key == Ok::<usize, DataValidityError>(k as usize),
                None => key == Err::<usize, DataValidityError>(
                    DataValidityError::PitchOutOfRange { pitch },
                ),
            },
    {
        if pitch >= self.base_offset && ((pitch - self.base_offset) as usize) < self.n_keys {
            Ok((pitch - self.base_offset) as usize)
        } else {
            Err(DataValidityError::PitchOutOfRange { pitch })
        }
    }

    /// Checks an event kind against the keyboard and the tempo rule.
    pub fn check(&self, kind: EventKind) -> (fault: Option<DataValidityError>)
        ensures
            fault == self.fault_of(kind),
    {
        match kind {
            EventKind::TempoChange { micros_per_quarter } => {
                if micros_per_quarter == 0 {
                    Some(DataValidityError::InvalidTempo)
                } else {
                    None
                }
            },
            EventKind::NoteOn { pitch, velocity: _ } => {
                match self.pitch_to_key(pitch) {
                    Ok(_) => None,
                    Err(e) => Some(e),
                }
            },
            EventKind::NoteOff { pitch, velocity: _ } => {
                match self.pitch_to_key(pitch) {
                    Ok(_) => None,
                    Err(e) => Some(e),
                }
            },
            EventKind::Other => None,
        }
    }
}

/// The time that `delta_ticks` ticks take at `tempo` microseconds per
/// quarter note and `ticks_per_beat` ticks per quarter note, in whole
/// microseconds.
pub open spec fn wait_of(tempo: int, delta_ticks: int, ticks_per_beat: int) -> int {
    tempo * delta_ticks / ticks_per_beat
}

/// The sounding notes after `note` starts: a note that sounds already is
/// not held twice.
pub open spec fn with_note(active: Seq<Note>, note: Note) -> Seq<Note> {
    if active.contains(note) {
        active
    } else {
        active.push(note)
    }
}

/// The sounding notes after every note of pitch `pitch` stops.
pub open spec fn without_pitch(active: Seq<Note>, pitch: u8) -> Seq<Note> {
    active.filter(|n: Note| n.pitch != pitch)
}

/// Stopping a pitch leaves no note twice where none was twice before.
pub proof fn lemma_without_pitch_distinct(active: Seq<Note>, pitch: u8)
    requires
        active.no_duplicates(),
    ensures
        without_pitch(active, pitch).no_duplicates(),
    decreases active.len(),
{
    let keep = |n: Note| n.pitch != pitch;
    reveal(Seq::filter);
    if active.len() > 0 {
        let rest = active.drop_last();
        let last = active.last();
        lemma_without_pitch_distinct(rest, pitch);
        if keep(last) && rest.filter(keep).contains(last) {
            rest.lemma_filter_contains_rev(keep, last);
            let i = choose|i: int| 0 <= i < rest.len() && rest[i] == last;
            assert(active[i] == active[active.len() - 1]);
        }
    }
}

/// Starting a note leaves no note twice where none was twice before.
pub proof fn lemma_with_note_distinct(active: Seq<Note>, note: Note)
    requires
        active.no_duplicates(),
    ensures
        with_note(active, note).no_duplicates(),
{
}

impl TimelineState {
    /// The state a replay starts from.
    pub open spec fn initial() -> TimelineState {
        TimelineState { tempo: DEFAULT_TEMPO as int, active: Seq::empty() }
    }

    /// The state after an event of kind `kind`. A faulty event is skipped.
    pub open spec fn apply(self, kind: EventKind, range: KeyRange) -> TimelineState {
        if range.fault_of(kind) is Some {
            self
        } else {
            match kind {
                EventKind::TempoChange { micros_per_quarter } => TimelineState {
                    tempo: micros_per_quarter as int,
                    active: self.active,
                },
                EventKind::NoteOn { pitch, velocity } => TimelineState {
                    tempo: self.tempo,
                    active: with_note(self.active, Note { pitch, velocity }),
                },
                EventKind::NoteOff { pitch, .. } => TimelineState {
                    tempo: self.tempo,
                    active: without_pitch(self.active, pitch),
                },
                EventKind::Other => self,
            }
        }
    }

    /// The state after the first `n` of `events`.
    pub open spec fn after(events: Seq<TimedEvent>, n: int, range: KeyRange) -> TimelineState
        decreases n,
    {
        if n <= 0 {
            TimelineState::initial()
        } else {
            TimelineState::after(events, n - 1, range).apply(events[n - 1].kind, range)
        }
    }

    /// What is handed out for `event` from this state: the wait at the
    /// tempo in force before the event, the notes sounding before it, and
    /// what is wrong with the event.
    pub open spec fn frame(self, event: TimedEvent, ticks_per_beat: int, range: KeyRange) -> FrameModel {
        FrameModel {
            wait_micros: wait_of(self.tempo, event.delta_ticks as int, ticks_per_beat),
            active: self.active,
            fault: range.fault_of(event.kind),
        }
    }
}

/// What a replay of `events` hands out for event `i`.
pub open spec fn frame_at(
    events: Seq<TimedEvent>,
    i: int,
    ticks_per_beat: int,
    range: KeyRange,
) -> FrameModel {
    TimelineState::after(events, i, range).frame(events[i], ticks_per_beat, range)
}

/// One step of a replay: how long to wait before the event takes
/// effect, the notes that sound meanwhile, and the fault for which the
/// event was skipped, if it was.
#[derive(Debug, PartialEq, Eq)]
pub struct Frame {
    pub wait_micros: u64,
    pub active: Vec<Note>,
    pub fault: Option<DataValidityError>,
}

impl View for Frame {
    type V = FrameModel;

    open spec fn view(&self) -> FrameModel {
        FrameModel {
            wait_micros: self.wait_micros as int,
            active: self.active@,
            fault: self.fault,
        }
    }
}

/// The wait for `delta_ticks` ticks at the given tempo and resolution.
pub fn wait_duration(tempo: u32, delta_ticks: u32, ticks_per_beat: u32) -> (wait: u64)
    requires
        ticks_per_beat > 0,
    ensures
        wait == wait_of(tempo as int, delta_ticks as int, ticks_per_beat as int),
        delta_ticks == 0 ==> wait == 0,
{
    assert(0 <= tempo * delta_ticks <= 0xffff_ffff * 0xffff_ffff) by (nonlinear_arith)
        requires
            0 <= tempo <= 0xffff_ffff,
            0 <= delta_ticks <= 0xffff_ffff,
    ;
    assert(delta_ticks == 0 ==> tempo * delta_ticks == 0) by (nonlinear_arith);
    (tempo as u64) * (delta_ticks as u64) / (ticks_per_beat as u64)
}

/// A copy of the notes.
fn snapshot(active: &Vec<Note>) -> (copy: Vec<Note>)
    ensures
        copy@ == active@,
{
    let mut copy: Vec<Note> = Vec::new();
    let mut i: usize = 0;
    while i < active.len()
        invariant
            i <= active.len(),
            copy@ == active@.take(i as int),
        decreases active.len() - i,
    {
        copy.push(active[i]);
        assert(active@.take(i + 1) =~= active@.take(i as int).push(active@[i as int]));
        i = i + 1;
    }
    assert(active@.take(active.len() as int) =~= active@);
    copy
}

/// Whether `note` is among the notes.
fn holds(active: &Vec<Note>, note: Note) -> (found: bool)
    ensures
        found == active@.contains(note),
{
    let mut i: usize = 0;
    while i < active.len()
        invariant
            i <= active.len(),
            forall|j: int| 0 <= j < i ==> active@[j] != note,
        decreases active.len() - i,
    {
        if active[i] == note {
            return true;
        }
        i = i + 1;
    }
    false
}

/// The notes whose pitch is not `pitch`, in their order.
fn silence(active: &Vec<Note>, pitch: u8) -> (rest: Vec<Note>)
    ensures
        rest@ == without_pitch(active@, pitch),
{
    let ghost keep = |n: Note| n.pitch != pitch;
    let mut rest: Vec<Note> = Vec::new();
    let mut i: usize = 0;
    proof {
        reveal(Seq::filter);
        assert(active@.take(0).filter(keep) =~= Seq::<Note>::empty());
    }
    while i < active.len()
        invariant
            i <= active.len(),
            keep == |n: Note| n.pitch != pitch,
            rest@ == active@.take(i as int).filter(keep),
        decreases active.len() - i,
    {
        proof {
            reveal(Seq::filter);
            assert(active@.take(i + 1).drop_last() =~= active@.take(i as int));
        }
        if active[i].pitch != pitch {
            rest.push(active[i]);
        }
        i = i + 1;
    }
    assert(active@.take(active.len() as int) =~= active@);
    rest
}

/// A replay in progress.
pub struct PerformanceTimeline {
    phase: Phase,
    ticks_per_beat: u32,
    range: KeyRange,
    tempo: u32,
    active: Vec<Note>,
}

impl PerformanceTimeline {
    /// Where the replay stands.
    pub closed spec fn phase(&self) -> Phase {
        self.phase
    }

    /// The tempo and the sounding notes.
    pub closed spec fn state(&self) -> TimelineState {
        TimelineState { tempo: self.tempo as int, active: self.active@ }
    }

    /// The ticks per quarter note.
    pub closed spec fn resolution(&self) -> int {
        self.ticks_per_beat as int
    }

    /// The keyboard that pitches are checked against.
    pub closed spec fn range(&self) -> KeyRange {
        self.range
    }

    /// The resolution is positive, and no note is held twice.
    pub closed spec fn wf(&self) -> bool {
        self.ticks_per_beat > 0 && self.active@.no_duplicates()
    }

    /// A replay that has seen no event: default tempo, nothing sounding.
    pub fn new(ticks_per_beat: u32, range: KeyRange) -> (timeline: PerformanceTimeline)
        requires
            ticks_per_beat > 0,
        ensures
            timeline.wf(),
            timeline.phase() == Phase::Idle,
            timeline.state() == TimelineState::initial(),
            timeline.resolution() == ticks_per_beat,
            timeline.range() == range,
    {
        PerformanceTimeline {
            phase: Phase::Idle,
            ticks_per_beat,
            range,
            tempo: DEFAULT_TEMPO,
            active: Vec::new(),
        }
    }

    /// Where the replay stands.
    pub fn current_phase(&self) -> (phase: Phase)
        ensures
            phase == self.phase(),
    {
        self.phase
    }

    /// The tempo in force, in microseconds per quarter note.
    pub fn tempo(&self) -> (tempo: u32)
        ensures
            tempo == self.state().tempo,
    {
        self.tempo
    }

    /// The notes that sound now, in the order in which they started.
    pub fn active_notes(&self) -> (notes: Vec<Note>)
        ensures
            notes@ == self.state().active,
    {
        snapshot(&self.active)
    }

    /// Takes the next event. The frame is made from the state before the
    /// event; only then does the event take effect. After `finish` there
    /// is no frame and nothing changes.
    pub fn advance(&mut self, event: &TimedEvent) -> (frame: Option<Frame>)
        requires
            old(self).wf(),
        ensures
            final(self).wf(),
            final(self).resolution() == old(self).resolution(),
            final(self).range() == old(self).range(),
            old(self).phase() == Phase::Done ==> frame is None && final(self).phase() == Phase::Done
                && final(self).state() == old(self).state(),
            old(self).phase() != Phase::Done ==> frame is Some && frame->0@ == old(self).state().frame(
                *event,
                old(self).resolution(),
                old(self).range(),
            ) && final(self).phase() == Phase::Playing && final(self).state() == old(
                self,
            ).state().apply(event.kind, old(self).range()),
    {
        if self.phase == Phase::Done {
            return None;
        }
        let fault = self.range.check(event.kind);
        let frame = Frame {
            wait_micros: wait_duration(self.tempo, event.delta_ticks, self.ticks_per_beat),
            active: snapshot(&self.active),
            fault,
        };
        self.phase = Phase::Playing;
        if fault.is_none() {
            match event.kind {
                EventKind::TempoChange { micros_per_quarter } => {
                    self.tempo = micros_per_quarter;
                },
                EventKind::NoteOn { pitch, velocity } => {
                    let note = Note { pitch, velocity };
                    proof {
                        lemma_with_note_distinct(self.active@, note);
                    }
                    if !holds(&self.active, note) {
                        self.active.push(note);
                    }
                },
                EventKind::NoteOff { pitch, velocity: _ } => {
                    proof {
                        lemma_without_pitch_distinct(self.active@, pitch);
                    }
                    self.active = silence(&self.active, pitch);
                },
                EventKind::Other => {},
            }
        }
        Some(frame)
    }

    /// Ends the replay: the events are used up, nothing sounds any more.
    pub fn finish(&mut self)
        requires
            old(self).wf(),
        ensures
            final(self).wf(),
            final(self).phase() == Phase::Done,
            final(self).state() == (TimelineState {
                tempo: old(self).state().tempo,
                active: Seq::<Note>::empty(),
            }),
            final(self).resolution() == old(self).resolution(),
            final(self).range() == old(self).range(),
    {
        self.phase = Phase::Done;
        self.active = Vec::new();
    }
}

/// Replays `events` from start to end: one frame per event, in order.
pub fn replay(events: &Vec<TimedEvent>, ticks_per_beat: u32, range: KeyRange) -> (frames: Vec<Frame>)
    requires
        ticks_per_beat > 0,
    ensures
        frames@.len() == events@.len(),
        forall|i: int|
            0 <= i < events@.len() ==> (#[trigger] frames@[i])@ == frame_at(
                events@,
                i,
                ticks_per_beat as int,
                range,
            ),
{
    let mut timeline = PerformanceTimeline::new(ticks_per_beat, range);
    let mut frames: Vec<Frame> = Vec::new();
    let mut i: usize = 0;
    while i < events.len()
        invariant
            i <= events.len(),
            timeline.wf(),
            timeline.phase() != Phase::Done,
            timeline.resolution() == ticks_per_beat,
            timeline.range() == range,
            timeline.state() == TimelineState::after(events@, i as int, range),
            frames@.len() == i,
            forall|j: int|
                0 <= j < i ==> (#[trigger] frames@[j])@ == frame_at(
                    events@,
                    j,
                    ticks_per_beat as int,
                    range,
                ),
        decreases events.len() - i,
    {
        match timeline.advance(&events[i]) {
            Some(frame) => {
                frames.push(frame);
            },
            None => {},
        }
        i = i + 1;
    }
    timeline.finish();
    frames
}

/// The sounding notes are a set: at no point of a replay is a note, a
/// pitch with its velocity, held twice.
pub proof fn theorem_no_note_twice(events: Seq<TimedEvent>, n: int, range: KeyRange)
    ensures
        TimelineState::after(events, n, range).active.no_duplicates(),
    decreases n,
{
    if n > 0 {
        theorem_no_note_twice(events, n - 1, range);
        let before = TimelineState::after(events, n - 1, range);
        match events[n - 1].kind {
            EventKind::NoteOn { pitch, velocity } => {
                lemma_with_note_distinct(before.active, Note { pitch, velocity });
            },
            EventKind::NoteOff { pitch, .. } => {
                lemma_without_pitch_distinct(before.active, pitch);
            },
            _ => {},
        }
    }
}

/// After a note-off no note of its pitch sounds, and every other note
/// sounds as before.
pub proof fn theorem_note_off_clears_pitch(active: Seq<Note>, pitch: u8, note: Note)
    ensures
        without_pitch(active, pitch).contains(note) <==> active.contains(note) && note.pitch
            != pitch,
{
    let keep = |n: Note| n.pitch != pitch;
    let rest = active.filter(keep);
    if rest.contains(note) {
        active.lemma_filter_contains_rev(keep, note);
        let i = choose|i: int| 0 <= i < rest.len() && rest[i] == note;
        active.lemma_filter_pred(keep, i);
    }
    if active.contains(note) && note.pitch != pitch {
        let i = choose|i: int| 0 <= i < active.len() && active[i] == note;
        active.lemma_filter_contains(keep, i);
    }
}

/// A tempo change does not alter the wait of its own frame, which is
/// computed at the tempo before it; the frame of the next event is
/// computed at the new tempo.
pub proof fn theorem_tempo_change_takes_effect_next(
    events: Seq<TimedEvent>,
    i: int,
    tempo: u32,
    ticks_per_beat: int,
    range: KeyRange,
)
    requires
        0 <= i,
        i + 1 < events.len(),
        tempo > 0,
        events[i].kind == (EventKind::TempoChange { micros_per_quarter: tempo }),
    ensures
        frame_at(events, i, ticks_per_beat, range).wait_micros == wait_of(
            TimelineState::after(events, i, range).tempo,
            events[i].delta_ticks as int,
            ticks_per_beat,
        ),
        frame_at(events, i + 1, ticks_per_beat, range).wait_micros == wait_of(
            tempo as int,
            events[i + 1].delta_ticks as int,
            ticks_per_beat,
        ),
{
}

} // verus!
