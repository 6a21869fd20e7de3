use r303::sequencer::Step;
use r303::vm::{Opcode, MAX_PROGRAM_SIZE, VM};
use r303::voice::{
    command_of, note_event, segment_start, Command, NoteEvent, VoiceControl, CONTROL_PERIOD,
    GLIDE_STEPS, WAVEFORM_GROUP_SIZE, WAVEFORM_SIZE, WAVETABLE_SIZE,
};

fn load(control: &mut VoiceControl, bytes: &[u8]) {
    let program = control.vm.get_program_ptr();
    program[..bytes.len()].copy_from_slice(bytes);
}

fn first_command(bytes: &[u8]) -> Command {
    let mut vm = VM::new();
    vm.get_program_ptr()[..bytes.len()].copy_from_slice(bytes);
    vm.set_position(bytes.len());
    let mut it = vm.iter();
    let instruction = it.next().unwrap();
    command_of(&instruction)
}

fn step(pitch: u8, has_down: bool, has_up: bool) -> Step {
    Step {
        pitch,
        is_enabled: true,
        has_accent: false,
        has_slide: false,
        has_down,
        has_up,
    }
}

#[test]
fn float_commands_carry_operand_bits() {
    let bits = 450.0f32.to_bits();
    let mut bytes = vec![Opcode::SetCutoff.code()];
    bytes.extend_from_slice(&bits.to_le_bytes());
    let c = first_command(&bytes);
    assert_eq!(c, Command::SetCutoff(0x43e1_0000));
    if let Command::SetCutoff(b) = c {
        assert_eq!(f32::from_bits(b), 450.0);
    }
    assert_eq!(first_command(&[41, 0, 0, 0x80, 0x3f]), Command::SetResonance(1.0f32.to_bits()));
    assert_eq!(first_command(&[44, 1, 2, 3, 4]), Command::SetTempo(0x0403_0201));
    assert_eq!(first_command(&[50, 9, 0, 0, 0]), Command::SetDelayFeedback(9));
}

#[test]
fn integer_commands_carry_operand() {
    assert_eq!(first_command(&[20, 1, 0, 0, 0]), Command::SetWaveformIndex(1));
    assert_eq!(first_command(&[21, 0x20, 0x4e, 0, 0]), Command::SetDelayLength(20000));
}

#[test]
fn tuning_and_notifications_are_ignored() {
    assert_eq!(first_command(&[45, 1, 2, 3, 4]), Command::Ignore);
    assert_eq!(first_command(&[0]), Command::Ignore);
    assert_eq!(first_command(&[60]), Command::Ignore);
    assert_eq!(first_command(&[80, 3, 0, 0, 0]), Command::Ignore);
}

#[test]
fn octave_flags_shift_note() {
    assert_eq!(note_event(step(36, false, false)).note, 36);
    assert_eq!(note_event(step(36, true, false)).note, 24);
    assert_eq!(note_event(step(36, false, true)).note, 48);
    assert_eq!(note_event(step(36, true, true)).note, 36);
    assert_eq!(note_event(step(5, true, false)).note, -7);
}

#[test]
fn note_event_copies_flags() {
    let s = Step {
        pitch: 40,
        is_enabled: false,
        has_accent: true,
        has_slide: true,
        has_down: false,
        has_up: false,
    };
    assert_eq!(
        note_event(s),
        NoteEvent { note: 40, slide: true, accent: true, gate: false }
    );
}

#[test]
fn segment_start_of_notes() {
    assert_eq!(segment_start(0, 0), 0);
    assert_eq!(segment_start(0, 60), 60 * WAVEFORM_SIZE);
    assert_eq!(segment_start(1, 60), WAVEFORM_GROUP_SIZE + 60 * WAVEFORM_SIZE);
    assert_eq!(segment_start(0, -5), 0);
    assert_eq!(segment_start(1, 200), WAVEFORM_GROUP_SIZE + 127 * WAVEFORM_SIZE);
    assert_eq!(segment_start(1, 127) + WAVEFORM_SIZE, WAVETABLE_SIZE);
}

#[test]
fn waveform_index_selects_shape() {
    let mut control = VoiceControl::new();
    assert_eq!(control.waveform_start(48), 48 * WAVEFORM_SIZE);
    assert!(control.set_waveform_index(1));
    assert_eq!(control.waveform_start(48), WAVEFORM_GROUP_SIZE + 48 * WAVEFORM_SIZE);
    assert!(!control.set_waveform_index(2));
    assert_eq!(control.waveform_index, 1);
}

#[test]
fn first_tick_plays_and_notifies() {
    let mut control = VoiceControl::new();
    let tick = control.tick();
    assert_eq!(tick.note, Some(NoteEvent { note: 36, slide: false, accent: false, gate: true }));
    assert!(tick.control);
    assert!(!tick.glide);
    assert_eq!(control.vm.get_position(), 5);
    assert_eq!(&control.vm.get_program_ptr()[..5], &[80, 0, 0, 0, 0]);

    let tick = control.tick();
    assert_eq!(tick.note, None);
    assert!(!tick.control);
    assert_eq!(control.vm.get_position(), 5);
}

#[test]
fn notification_reports_new_position() {
    let mut control = VoiceControl::new();
    control.sequencer.set_step_length(1);
    control.tick();
    control.tick();
    control.tick();
    assert_eq!(control.vm.get_position(), 15);
    assert_eq!(&control.vm.get_program_ptr()[..15], &[80, 0, 0, 0, 0, 80, 1, 0, 0, 0, 80, 2, 0, 0, 0]);
    let mut out = Vec::new();
    control.decode_block(15, &mut out);
    assert_eq!(out, vec![Command::Ignore; 3]);
}

#[test]
fn notification_needs_five_free_bytes() {
    let mut control = VoiceControl::new();
    control.vm.set_position(MAX_PROGRAM_SIZE - 4);
    assert!(control.tick().note.is_some());
    assert_eq!(control.vm.get_position(), MAX_PROGRAM_SIZE - 4);
    assert!(control.vm.get_program_ptr()[MAX_PROGRAM_SIZE - 4..].iter().all(|b| *b == 0));

    let mut control = VoiceControl::new();
    control.vm.set_position(MAX_PROGRAM_SIZE - 5);
    control.tick();
    assert_eq!(control.vm.get_position(), MAX_PROGRAM_SIZE);
    assert_eq!(control.vm.get_program_ptr()[MAX_PROGRAM_SIZE - 5], 80);
}

#[test]
fn control_blocks_ignore_step_boundaries() {
    let mut control = VoiceControl::new();
    control.sequencer.set_step_length(10);
    let mut starts = Vec::new();
    for n in 0..200u32 {
        if control.tick().control {
            starts.push(n);
        }
    }
    assert_eq!(starts, vec![0, 64, 128, 192]);
}

#[test]
fn control_blocks_run_while_stopped() {
    let mut control = VoiceControl::new();
    control.sequencer.set_running(false);
    let mut controls = 0;
    for _ in 0..(2 * CONTROL_PERIOD) {
        let tick = control.tick();
        assert!(tick.note.is_none());
        if tick.control {
            controls += 1;
        }
    }
    assert_eq!(controls, 2);
    assert_eq!(control.phase, 0);
}

#[test]
fn control_block_every_period() {
    let mut control = VoiceControl::new();
    control.tick();
    let mut controls = 0;
    for _ in 0..(4 * CONTROL_PERIOD) {
        if control.tick().control {
            controls += 1;
        }
    }
    assert_eq!(controls, 4);
}

#[test]
fn slide_step_glides_for_glide_steps_blocks() {
    let mut control = VoiceControl::new();
    let mut s = Step::new();
    s.has_slide = true;
    assert!(control.sequencer.set_pattern_data(0, 0, s));
    let tick = control.tick();
    assert_eq!(tick.note.map(|n| n.slide), Some(true));
    assert!(tick.glide);
    assert_eq!(control.glide_left, GLIDE_STEPS - 1);

    control.sequencer.set_step_length(u32::MAX);
    let mut glides = 1;
    for _ in 0..(CONTROL_PERIOD * (GLIDE_STEPS + 4)) {
        if control.tick().glide {
            glides += 1;
        }
    }
    assert_eq!(glides, GLIDE_STEPS);
    assert_eq!(control.glide_left, 0);
}

#[test]
fn block_decoding_applies_cutoff_and_drains() {
    let mut control = VoiceControl::new();
    let mut out = vec![Command::Ignore; 3];
    let mut bytes = vec![60u8, 40];
    bytes.extend_from_slice(&450.0f32.to_bits().to_le_bytes());
    load(&mut control, &bytes);
    control.decode_block(bytes.len(), &mut out);
    assert_eq!(out, vec![Command::Ignore, Command::SetCutoff(450.0f32.to_bits())]);
    assert_eq!(control.vm.get_position(), 0);

    control.decode_block(1, &mut out);
    assert_eq!(out, vec![Command::Ignore]);
}

#[test]
fn block_decoding_drops_truncated_tail() {
    let mut control = VoiceControl::new();
    let mut out = Vec::new();
    load(&mut control, &[21, 0x10, 0, 0, 0, 40, 0, 0]);
    control.decode_block(8, &mut out);
    assert_eq!(out, vec![Command::SetDelayLength(16)]);
}
