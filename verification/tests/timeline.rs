use virtual_piano::timeline::{
    replay, wait_duration, DataValidityError, EventKind, Frame, KeyRange, Note,
    PerformanceTimeline, Phase, TimedEvent, DEFAULT_TEMPO,
};

const FULL: KeyRange = KeyRange { base_offset: 21, n_keys: 88 };

fn on(delta_ticks: u32, pitch: u8, velocity: u8) -> TimedEvent {
    TimedEvent { delta_ticks, kind: EventKind::NoteOn { pitch, velocity } }
}

fn off(delta_ticks: u32, pitch: u8, velocity: u8) -> TimedEvent {
    TimedEvent { delta_ticks, kind: EventKind::NoteOff { pitch, velocity } }
}

fn tempo(delta_ticks: u32, micros_per_quarter: u32) -> TimedEvent {
    TimedEvent { delta_ticks, kind: EventKind::TempoChange { micros_per_quarter } }
}

fn pitches(frame: &Frame) -> Vec<u8> {
    frame.active.iter().map(|n| n.pitch).collect()
}

#[test]
fn half_a_beat_at_default_tempo_is_a_quarter_second() {
    assert_eq!(wait_duration(500000, 240, 480), 250000);
    assert_eq!(wait_duration(500000, 0, 480), 0);
    assert_eq!(DEFAULT_TEMPO, 500000);
}

#[test]
fn wait_is_cut_down_to_whole_microseconds() {
    assert_eq!(wait_duration(500000, 1, 480), 1041);
    assert_eq!(wait_duration(1, 1, 2), 0);
    assert_eq!(wait_duration(u32::MAX, u32::MAX, 1), (u32::MAX as u64) * (u32::MAX as u64));
}

#[test]
fn snapshots_show_the_notes_before_each_event() {
    let events = vec![on(0, 60, 100), on(10, 64, 90), off(10, 60, 0)];
    let frames = replay(&events, 480, FULL);
    assert_eq!(frames.len(), 3);
    assert_eq!(pitches(&frames[0]), Vec::<u8>::new());
    assert_eq!(pitches(&frames[1]), vec![60]);
    assert_eq!(pitches(&frames[2]), vec![60, 64]);
    assert_eq!(frames[0].wait_micros, 0);
    assert_eq!(frames[1].wait_micros, 500000 * 10 / 480);
    assert_eq!(frames[2].wait_micros, 500000 * 10 / 480);
    assert_eq!(frames[1].active, vec![Note { pitch: 60, velocity: 100 }]);
    for frame in &frames {
        assert_eq!(frame.fault, None);
    }

    let mut timeline = PerformanceTimeline::new(480, FULL);
    assert_eq!(timeline.active_notes(), Vec::<Note>::new());
    assert_eq!(timeline.tempo(), 500000);
    for event in &events {
        timeline.advance(event).unwrap();
    }
    assert_eq!(timeline.active_notes(), vec![Note { pitch: 64, velocity: 90 }]);
    assert_eq!(timeline.tempo(), 500000);
    let after = timeline.advance(&TimedEvent { delta_ticks: 0, kind: EventKind::Other }).unwrap();
    assert_eq!(after.active, vec![Note { pitch: 64, velocity: 90 }]);
    timeline.finish();
    assert_eq!(timeline.active_notes(), Vec::<Note>::new());
}

#[test]
fn tempo_change_applies_to_the_following_event() {
    let events = vec![on(0, 60, 100), tempo(480, 300000), off(480, 60, 0)];
    let frames = replay(&events, 480, FULL);
    assert_eq!(frames[0].wait_micros, 0);
    // The tempo change itself still waits at the old tempo.
    assert_eq!(frames[1].wait_micros, 500000);
    assert_eq!(frames[2].wait_micros, 300000);

    let without = replay(&vec![on(0, 60, 100), off(480, 60, 0)], 480, FULL);
    assert_eq!(without[1].wait_micros, 500000);

    let mut timeline = PerformanceTimeline::new(480, FULL);
    timeline.advance(&events[0]).unwrap();
    assert_eq!(timeline.tempo(), 500000);
    timeline.advance(&events[1]).unwrap();
    assert_eq!(timeline.tempo(), 300000);
}

#[test]
fn note_off_removes_every_velocity_of_the_pitch() {
    let events = vec![
        on(0, 60, 100),
        on(0, 60, 50),
        on(0, 62, 70),
        on(0, 60, 100),
        off(0, 60, 1),
        TimedEvent { delta_ticks: 0, kind: EventKind::Other },
    ];
    let frames = replay(&events, 96, FULL);
    assert_eq!(
        frames[3].active,
        vec![
            Note { pitch: 60, velocity: 100 },
            Note { pitch: 60, velocity: 50 },
            Note { pitch: 62, velocity: 70 },
        ]
    );
    // The same note a second time is not held twice.
    assert_eq!(frames[4].active.len(), 3);
    assert_eq!(frames[5].active, vec![Note { pitch: 62, velocity: 70 }]);
}

#[test]
fn other_events_change_nothing() {
    let events = vec![
        on(5, 40, 9),
        TimedEvent { delta_ticks: 7, kind: EventKind::Other },
        TimedEvent { delta_ticks: 9, kind: EventKind::Other },
    ];
    let frames = replay(&events, 1, FULL);
    assert_eq!(frames[1].active, frames[2].active);
    assert_eq!(frames[2].wait_micros, 500000 * 9);
    assert_eq!(frames[2].fault, None);
}

#[test]
fn pitch_off_the_keyboard_is_reported_and_skipped() {
    let events = vec![on(0, 20, 100), on(0, 109, 100), on(0, 21, 1), on(0, 108, 2), off(0, 5, 0),
        off(0, 21, 0), TimedEvent { delta_ticks: 0, kind: EventKind::Other }];
    let frames = replay(&events, 480, FULL);
    assert_eq!(frames[0].fault, Some(DataValidityError::PitchOutOfRange { pitch: 20 }));
    assert_eq!(frames[1].fault, Some(DataValidityError::PitchOutOfRange { pitch: 109 }));
    assert_eq!(frames[2].fault, None);
    assert_eq!(frames[3].fault, None);
    assert_eq!(frames[4].fault, Some(DataValidityError::PitchOutOfRange { pitch: 5 }));
    assert_eq!(pitches(&frames[2]), Vec::<u8>::new());
    assert_eq!(pitches(&frames[4]), vec![21, 108]);
    assert_eq!(pitches(&frames[5]), vec![21, 108]);
    assert_eq!(pitches(&frames[6]), vec![108]);
}

#[test]
fn zero_tempo_is_reported_and_skipped() {
    let events = vec![tempo(0, 0), on(480, 60, 1), tempo(0, 250000), on(480, 61, 1)];
    let frames = replay(&events, 480, FULL);
    assert_eq!(frames[0].fault, Some(DataValidityError::InvalidTempo));
    assert_eq!(frames[1].wait_micros, 500000);
    assert_eq!(frames[2].fault, None);
    assert_eq!(frames[3].wait_micros, 250000);
}

#[test]
fn pitch_maps_to_key_by_the_base_offset() {
    assert_eq!(FULL.pitch_to_key(21), Ok(0));
    assert_eq!(FULL.pitch_to_key(60), Ok(39));
    assert_eq!(FULL.pitch_to_key(108), Ok(87));
    assert_eq!(FULL.pitch_to_key(109), Err(DataValidityError::PitchOutOfRange { pitch: 109 }));
    assert_eq!(FULL.pitch_to_key(20), Err(DataValidityError::PitchOutOfRange { pitch: 20 }));
    let none = KeyRange { base_offset: 0, n_keys: 0 };
    assert_eq!(none.pitch_to_key(0), Err(DataValidityError::PitchOutOfRange { pitch: 0 }));
    let all = KeyRange { base_offset: 0, n_keys: 1000 };
    assert_eq!(all.pitch_to_key(255), Ok(255));
    assert_eq!(FULL.check(EventKind::Other), None);
    assert_eq!(
        FULL.check(EventKind::TempoChange { micros_per_quarter: 0 }),
        Some(DataValidityError::InvalidTempo)
    );
}

#[test]
fn replay_goes_from_idle_to_playing_to_done() {
    let mut timeline = PerformanceTimeline::new(480, FULL);
    assert_eq!(timeline.current_phase(), Phase::Idle);
    let frame = timeline.advance(&on(240, 60, 100)).unwrap();
    assert_eq!(frame.wait_micros, 250000);
    assert_eq!(timeline.current_phase(), Phase::Playing);
    timeline.advance(&on(0, 61, 100)).unwrap();
    assert_eq!(timeline.current_phase(), Phase::Playing);
    timeline.finish();
    assert_eq!(timeline.current_phase(), Phase::Done);
    assert_eq!(timeline.advance(&on(0, 62, 100)), None);
    assert_eq!(timeline.current_phase(), Phase::Done);
}

#[test]
fn empty_performance_has_no_frames() {
    let frames = replay(&Vec::new(), 480, FULL);
    assert!(frames.is_empty());
}
