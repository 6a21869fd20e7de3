use r303::delay::{DelayCursor, DEFAULT_DELAY_LENGTH, DELAY_BUFFER_SIZE};

#[test]
fn new_cursor() {
    let c = DelayCursor::new();
    assert_eq!(c.length(), DEFAULT_DELAY_LENGTH);
    assert_eq!(DELAY_BUFFER_SIZE, 2 * 44100);
}

#[test]
fn cursor_cycles_through_length() {
    let mut c = DelayCursor::new();
    assert!(c.set_length(3));
    let slots: Vec<usize> = (0..7).map(|_| c.advance()).collect();
    assert_eq!(slots, vec![0, 1, 2, 0, 1, 2, 0]);
}

#[test]
fn single_tap_slot_returns_after_length() {
    let length = 5usize;
    let mut c = DelayCursor::new();
    assert!(c.set_length(length as u32));
    let slots: Vec<usize> = (0..=length).map(|_| c.advance()).collect();
    assert_eq!(slots[0], 0);
    assert_eq!(slots[length], 0);
    assert!(slots[1..length].iter().all(|s| *s != 0));
}

#[test]
fn single_tap_on_buffer() {
    // send 1, feedback 0: the impulse comes back at exactly sample `length`
    let length = 4usize;
    let mut c = DelayCursor::new();
    assert!(c.set_length(length as u32));
    let mut buffer = vec![0.0f32; DELAY_BUFFER_SIZE];
    let mut out = Vec::new();
    for n in 0..(3 * length) {
        let x = if n == 0 { 1.0f32 } else { 0.0 };
        let slot = c.advance();
        let previous = buffer[slot];
        buffer[slot] = x;
        out.push(previous);
    }
    for (n, y) in out.iter().enumerate() {
        assert_eq!(*y, if n == length { 1.0 } else { 0.0 });
    }
}

#[test]
fn length_beyond_buffer_is_refused() {
    let mut c = DelayCursor::new();
    assert!(!c.set_length(DELAY_BUFFER_SIZE as u32 + 1));
    assert_eq!(c.length(), DEFAULT_DELAY_LENGTH);
    assert!(c.set_length(DELAY_BUFFER_SIZE as u32));
    assert_eq!(c.length(), DELAY_BUFFER_SIZE);
}

#[test]
fn shorter_length_wraps_position() {
    let mut c = DelayCursor::new();
    for _ in 0..10 {
        c.advance();
    }
    assert!(c.set_length(4));
    assert_eq!(c.advance(), 10);
    assert_eq!(c.advance(), 0);
}

#[test]
fn zero_length_stays_on_first_slot() {
    let mut c = DelayCursor::new();
    assert!(c.set_length(0));
    assert_eq!(c.advance(), 0);
    assert_eq!(c.advance(), 0);
}
