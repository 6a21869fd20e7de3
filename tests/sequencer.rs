use r303::sequencer::{Sequencer, Step, DEFAULT_STEP_LENGTH, MAX_PATTERN_COUNT, MAX_PATTERN_LENGTH};

fn step(pitch: u8) -> Step {
    Step {
        pitch,
        is_enabled: true,
        has_accent: false,
        has_slide: false,
        has_down: false,
        has_up: false,
    }
}

/// A sequencer with the given step length, just past the first sample of
/// step 0.
fn started(step_length: u32) -> Sequencer {
    let mut s = Sequencer::new();
    s.set_step_length(step_length);
    assert!(s.update().is_some());
    assert_eq!(s.pattern_position(), 0);
    assert_eq!(s.sample_position(), 0);
    s
}

#[test]
fn default_step() {
    let s = Step::new();
    assert_eq!(s, step(36));
}

#[test]
fn new_sequencer() {
    let s = Sequencer::new();
    assert!(s.is_running());
    assert_eq!(s.step_length(), DEFAULT_STEP_LENGTH);
    assert_eq!(s.current_pattern(), 0);
    assert_eq!(DEFAULT_STEP_LENGTH, (44100.0f32 / 8.0) as u32);
}

#[test]
fn first_sample_starts_first_step() {
    let mut s = Sequencer::new();
    assert_eq!(s.update(), Some(Step::new()));
    assert_eq!(s.pattern_position(), 0);
    assert_eq!(s.sample_position(), 0);
}

#[test]
fn step_advances_after_step_length_samples() {
    let mut s = started(4);
    assert!(s.set_pattern_data(0, 1, step(48)));
    for _ in 0..3 {
        assert_eq!(s.update(), None);
    }
    assert_eq!(s.sample_position(), 3);
    assert_eq!(s.update(), Some(step(48)));
    assert_eq!(s.pattern_position(), 1);
    assert_eq!(s.sample_position(), 0);
}

#[test]
fn pattern_loops_back_to_start() {
    let mut s = started(3);
    let mut events = 0;
    for _ in 0..(MAX_PATTERN_LENGTH * 3) {
        if s.update().is_some() {
            events += 1;
        }
    }
    assert_eq!(events, MAX_PATTERN_LENGTH);
    assert_eq!(s.pattern_position(), 0);
    assert_eq!(s.sample_position(), 0);
    assert_eq!(s.current_pattern(), 0);
}

#[test]
fn pattern_loop_starts_each_step_once() {
    let length = 5usize;
    let mut s = started(length as u32);
    let mut at = Vec::new();
    for n in 1..=(MAX_PATTERN_LENGTH * length) {
        if s.update().is_some() {
            at.push(n);
        }
    }
    let expected: Vec<usize> = (1..=MAX_PATTERN_LENGTH).map(|m| m * length).collect();
    assert_eq!(at, expected);
    assert_eq!(s.pattern_position(), 0);
}

#[test]
fn pattern_loops_at_default_tempo() {
    let mut s = started(DEFAULT_STEP_LENGTH);
    for _ in 0..(MAX_PATTERN_LENGTH * DEFAULT_STEP_LENGTH as usize) {
        s.update();
    }
    assert_eq!(s.pattern_position(), 0);
    assert_eq!(s.sample_position(), 0);
    assert_eq!(s.current_pattern(), 0);
}

#[test]
fn queued_pattern_starts_at_loop_boundary() {
    let mut s = started(2);
    assert!(s.set_pattern_data(2, 0, step(60)));
    assert!(s.set_next_pattern(2));
    for _ in 0..(MAX_PATTERN_LENGTH * 2 - 1) {
        s.update();
        assert_eq!(s.current_pattern(), 0);
    }
    assert_eq!(s.update(), Some(step(60)));
    assert_eq!(s.current_pattern(), 2);
    assert_eq!(s.pattern_position(), 0);
}

#[test]
fn out_of_range_indices_are_refused() {
    let mut s = Sequencer::new();
    assert!(!s.set_pattern_data(MAX_PATTERN_COUNT, 0, step(1)));
    assert!(!s.set_pattern_data(0, MAX_PATTERN_LENGTH, step(1)));
    assert!(!s.set_next_pattern(MAX_PATTERN_COUNT));
    assert_eq!(s.update(), Some(Step::new()));
}

#[test]
fn stopped_sequencer_emits_nothing() {
    let mut s = started(1);
    s.set_running(false);
    for _ in 0..10 {
        assert_eq!(s.update(), None);
    }
    assert_eq!(s.pattern_position(), 0);
    assert_eq!(s.sample_position(), 0);
    s.set_running(true);
    assert!(s.update().is_some());
    assert_eq!(s.pattern_position(), 1);
}

#[test]
fn zero_step_length_steps_every_sample() {
    let mut s = started(0);
    assert!(s.update().is_some());
    assert_eq!(s.pattern_position(), 1);
}
