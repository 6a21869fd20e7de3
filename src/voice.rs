use vstd::prelude::*;
use crate::sequencer::{advance, initial_state, step_at, steps_on, Sequencer, Step};
use crate::vm::{decode, empty_program, MAX_PROGRAM_SIZE, is_complete, lemma_whole_frame_appended, le_u32, pending, spec_code, spec_operand_size, Instruction, Opcode, ProgramView, VM};

verus! {

/// Samples per control block: filter sweeps and glides update once a block.
pub const CONTROL_PERIOD: u32 = 64;

/// Control blocks that a glide takes to reach its target.
pub const GLIDE_STEPS: u32 = 64;

/// Samples in one cycle of a wavetable waveform.
pub const WAVEFORM_SIZE: usize = 4096;

/// Note numbers with a waveform of their own.
pub const NOTE_COUNT: usize = 128;

/// Waveform shapes: band-limited sawtooth (0) and square (1).
pub const WAVEFORM_COUNT: usize = 2;

/// Samples of one shape over all notes.
pub const WAVEFORM_GROUP_SIZE: usize = 524288;

/// Samples of the whole wavetable.
pub const WAVETABLE_SIZE: usize = 1048576;

/// What an instruction asks of the voice. The operand of each setting is
/// carried as read from the stream: an integer for the waveform index and the
/// delay length, the bits of an IEEE-754 `f32` for the others.
#[derive(Clone, Copy, Debug, PartialEq, Eq, Structural)]
pub enum Command {
    Ignore,
    SetWaveformIndex(u32),
    SetDelayLength(u32),
    SetCutoff(u32),
    SetResonance(u32),
    SetEnvMod(u32),
    SetDecay(u32),
    SetTempo(u32),
    SetAccent(u32),
    SetDistortionThreshold(u32),
    SetDistortionShape(u32),
    SetDelaySend(u32),
    SetDelayFeedback(u32),
}

/// The command of an instruction with opcode `op` and operand bytes `b`.
/// Tuning and the host-side notifications leave the voice as it is.
pub open spec fn spec_command(op: Opcode, b: Seq<u8>) -> Command {
    let v = le_u32(b) as u32;
    match op {
        Opcode::SetWaveformIndex => Command::SetWaveformIndex(v),
        Opcode::SetDelayLength => Command::SetDelayLength(v),
        Opcode::SetCutoff => Command::SetCutoff(v),
        Opcode::SetResonance => Command::SetResonance(v),
        Opcode::SetEnvMod => Command::SetEnvMod(v),
        Opcode::SetDecay => Command::SetDecay(v),
        Opcode::SetTempo => Command::SetTempo(v),
        Opcode::SetAccent => Command::SetAccent(v),
        Opcode::SetDistortionThreshold => Command::SetDistortionThreshold(v),
        Opcode::SetDistortionShape => Command::SetDistortionShape(v),
        Opcode::SetDelaySend => Command::SetDelaySend(v),
        Opcode::SetDelayFeedback => Command::SetDelayFeedback(v),
        _ => Command::Ignore,
    }
}

/// The commands of a sequence of decoded instructions.
pub open spec fn commands_of(d: Seq<(Opcode, Seq<u8>)>) -> Seq<Command> {
    d.map_values(|i: (Opcode, Seq<u8>)| spec_command(i.0, i.1))
}

/// The command that a decoded instruction carries.
pub fn command_of(instruction: &Instruction) -> (r: Command)
    requires
        instruction@.1.len() == spec_operand_size(instruction@.0),
    ensures
        r == spec_command(instruction@.0, instruction@.1),
{
    let op = instruction.opcode();
    if instruction.operands().len() < 4 {
        return Command::Ignore;
    }
    let v = instruction.decode_u32(0);
    assert(instruction@.1.subrange(0, 4) =~= instruction@.1);
    match op {
        Opcode::SetWaveformIndex => Command::SetWaveformIndex(v),
        Opcode::SetDelayLength => Command::SetDelayLength(v),
        Opcode::SetCutoff => Command::SetCutoff(v),
        Opcode::SetResonance => Command::SetResonance(v),
        Opcode::SetEnvMod => Command::SetEnvMod(v),
        Opcode::SetDecay => Command::SetDecay(v),
        Opcode::SetTempo => Command::SetTempo(v),
        Opcode::SetAccent => Command::SetAccent(v),
        Opcode::SetDistortionThreshold => Command::SetDistortionThreshold(v),
        Opcode::SetDistortionShape => Command::SetDistortionShape(v),
        Opcode::SetDelaySend => Command::SetDelaySend(v),
        Opcode::SetDelayFeedback => Command::SetDelayFeedback(v),
        _ => Command::Ignore,
    }
}

/// A cutoff instruction appended to a stream of whole instructions reaches
/// the voice: the block's commands are those of the stream without it,
/// followed by the new cutoff, whose bits are the instruction's operand.
pub proof fn lemma_cutoff_reaches_voice(p: Seq<u8>, operand: Seq<u8>)
    requires
        is_complete(p),
        operand.len() == 4,
    ensures
        commands_of(decode(p + seq![spec_code(Opcode::SetCutoff)] + operand))
            == commands_of(decode(p)).push(Command::SetCutoff(le_u32(operand) as u32)),
        commands_of(decode(p + seq![spec_code(Opcode::SetCutoff)] + operand))
            != commands_of(decode(p)),
{
    let t = seq![spec_code(Opcode::SetCutoff)] + operand;
    assert(t[0] == 40u8);
    assert(t.subrange(1, t.len() as int) =~= operand);
    lemma_whole_frame_appended(p, t);
    assert(p + seq![spec_code(Opcode::SetCutoff)] + operand =~= p + t);
    let d = decode(p);
    assert(commands_of(d.push((Opcode::SetCutoff, operand))) =~= commands_of(d).push(
        Command::SetCutoff(le_u32(operand) as u32),
    ));
}

/// What the voice plays when the sequencer reaches a step.
#[derive(Clone, Copy, Debug, PartialEq, Eq, Structural)]
pub struct NoteEvent {
    /// The note number, after the octave flags.
    pub note: i32,
    /// Glide from the sounding pitch instead of restarting the oscillator.
    pub slide: bool,
    pub accent: bool,
    /// Whether the amplitude envelope opens.
    pub gate: bool,
}

/// The note that a step plays: its pitch, an octave lower with the down
/// flag, an octave higher with the up flag.
pub open spec fn target_note(step: Step) -> int {
    step.pitch as int - (if step.has_down { 12int } else { 0int }) + (if step.has_up { 12int } else { 0int })
}

pub open spec fn spec_note_event(step: Step) -> NoteEvent {
    NoteEvent {
        note: target_note(step) as i32,
        slide: step.has_slide,
        accent: step.has_accent,
        gate: step.is_enabled,
    }
}

pub fn note_event(step: Step) -> (r: NoteEvent)
    ensures
        r == spec_note_event(step),
        r.note == target_note(step),
{
    let mut note: i32 = step.pitch as i32;
    if step.has_down {
        note = note - 12;
    }
    if step.has_up {
        note = note + 12;
    }
    NoteEvent { note, slide: step.has_slide, accent: step.has_accent, gate: step.is_enabled }
}

/// The note number whose waveform plays `note`: notes below the table use
/// its lowest waveform, notes above it the highest.
pub open spec fn table_note(note: int) -> nat {
    if note < 0 {
        0
    } else if note >= NOTE_COUNT {
        (NOTE_COUNT - 1) as nat
    } else {
        note as nat
    }
}

/// Where the waveform of shape `waveform_index` for `note` starts in the
/// wavetable.
pub open spec fn spec_segment_start(waveform_index: nat, note: int) -> nat {
    waveform_index * (WAVEFORM_GROUP_SIZE as nat) + table_note(note) * (WAVEFORM_SIZE as nat)
}

pub fn segment_start(waveform_index: usize, note: i32) -> (r: usize)
    requires
        waveform_index < WAVEFORM_COUNT,
    ensures
        r == spec_segment_start(waveform_index as nat, note as int),
        r + WAVEFORM_SIZE <= WAVETABLE_SIZE,
{
    let n: usize = if note < 0 {
        0
    } else if note >= NOTE_COUNT as i32 {
        NOTE_COUNT - 1
    } else {
        note as usize
    };
    assert(n * WAVEFORM_SIZE <= (NOTE_COUNT - 1) * WAVEFORM_SIZE) by (nonlinear_arith)
        requires n <= NOTE_COUNT - 1;
    assert(waveform_index * WAVEFORM_GROUP_SIZE <= (WAVEFORM_COUNT - 1) * WAVEFORM_GROUP_SIZE) by (nonlinear_arith)
        requires waveform_index <= WAVEFORM_COUNT - 1;
    waveform_index * WAVEFORM_GROUP_SIZE + n * WAVEFORM_SIZE
}

/// The four little-endian bytes of `v`.
pub open spec fn u32_le_bytes(v: u32) -> Seq<u8> {
    seq![(v % 256) as u8, ((v / 256) % 256) as u8, ((v / 65536) % 256) as u8, (v / 16777216) as u8]
}

/// The little-endian bytes of a value read back give the value.
pub proof fn lemma_le_bytes_round_trip(v: u32)
    ensures
        le_u32(u32_le_bytes(v)) == v,
{
    let b = u32_le_bytes(v);
    let x = v as int;
    assert(b[0] as int == x % 256);
    assert(b[1] as int == (x / 256) % 256);
    assert(b[2] as int == (x / 65536) % 256);
    assert(b[3] as int == x / 16777216);
    assert(x % 256 + 256 * ((x / 256) % 256) + 65536 * ((x / 65536) % 256) + 16777216 * (x / 16777216)
        == x) by (nonlinear_arith)
        requires 0 <= x;
}

/// The buffer state after the notification that the sequencer reached step
/// `position` has been appended: the opcode, then the position as a
/// little-endian `u32`. Without room for all five bytes nothing is written.
pub open spec fn notified(v: ProgramView, position: u32) -> ProgramView {
    if v.position + 5 <= v.bytes.len() {
        let p = v.position as int;
        let b = u32_le_bytes(position);
        ProgramView {
            bytes: v.bytes.update(p, spec_code(Opcode::SetSequencerStep)).update(p + 1, b[0]).update(
                p + 2,
                b[1],
            ).update(p + 3, b[2]).update(p + 4, b[3]),
            position: v.position + 5,
        }
    } else {
        v
    }
}

/// Appends the notification that the sequencer reached step `position`.
fn push_step_notification(vm: &mut VM, position: u32)
    ensures
        final(vm)@ == notified(old(vm)@, position),
{
    let at = vm.get_position();
    let capacity = vm.capacity();
    if at <= capacity && capacity - at >= 5 {
        vm.push_opcode(Opcode::SetSequencerStep);
        vm.push_u8((position % 256) as u8);
        vm.push_u8(((position / 256) % 256) as u8);
        vm.push_u8(((position / 65536) % 256) as u8);
        vm.push_u8((position / 16777216) as u8);
    }
}

/// What happens at one sample besides the signal path.
#[derive(Clone, Copy, Debug, PartialEq, Eq, Structural)]
pub struct Tick {
    /// The note to start, when the sample starts a step.
    pub note: Option<NoteEvent>,
    /// The sample starts a control block: the swept filter is to be
    /// recomputed.
    pub control: bool,
    /// The oscillator's pitch increment is to take one glide increment.
    pub glide: bool,
}

/// The control side of the voice: the command buffer, the sequencer, the
/// place in the control block, the glide's progress and the waveform shape.
pub struct VoiceControl {
    pub vm: VM,
    pub sequencer: Sequencer,
    /// Samples since the current control block started.
    pub phase: u32,
    /// Glide increments still to apply.
    pub glide_left: u32,
    pub waveform_index: usize,
}

impl VoiceControl {
    pub open spec fn wf(&self) -> bool {
        &&& self.sequencer.wf()
        &&& self.vm@.bytes.len() == MAX_PROGRAM_SIZE
        &&& self.phase < CONTROL_PERIOD
        &&& self.glide_left <= GLIDE_STEPS
        &&& self.waveform_index < WAVEFORM_COUNT
    }

    pub fn new() -> (r: VoiceControl)
        ensures
            r.wf(),
            r.vm@ == empty_program(),
            r.sequencer@ == initial_state(),
            r.phase == 0,
            r.glide_left == 0,
            r.waveform_index == 0,
    {
        VoiceControl {
            vm: VM::new(),
            sequencer: Sequencer::new(),
            phase: 0,
            glide_left: 0,
            waveform_index: 0,
        }
    }

    /// Selects the waveform shape; an index without a shape is refused
    /// (`false`) and changes nothing.
    pub fn set_waveform_index(&mut self, waveform_index: u32) -> (ok: bool)
        requires
            old(self).wf(),
        ensures
            final(self).wf(),
            ok == (waveform_index < WAVEFORM_COUNT),
            final(self).waveform_index == if ok {
                waveform_index as usize
            } else {
                old(self).waveform_index
            },
            final(self).vm == old(self).vm,
            final(self).sequencer == old(self).sequencer,
            final(self).phase == old(self).phase,
            final(self).glide_left == old(self).glide_left,
    {
        if (waveform_index as usize) < WAVEFORM_COUNT {
            self.waveform_index = waveform_index as usize;
            true
        } else {
            false
        }
    }

    /// Where the waveform for `note` in the selected shape starts in the
    /// wavetable.
    pub fn waveform_start(&self, note: i32) -> (r: usize)
        requires
            self.wf(),
        ensures
            r == spec_segment_start(self.waveform_index as nat, note as int),
            r + WAVEFORM_SIZE <= WAVETABLE_SIZE,
    {
        segment_start(self.waveform_index, note)
    }

    /// Reads the commands of the block: the cursor is set to `valid_length`,
    /// the instructions before it (and before the buffer's end) are decoded
    /// into `out`, which loses what it held, and the buffer is drained.
    pub fn decode_block(&mut self, valid_length: usize, out: &mut Vec<Command>)
        requires
            old(self).wf(),
        ensures
            final(self).wf(),
            final(out)@ == commands_of(decode(pending(ProgramView {
                bytes: old(self).vm@.bytes,
                position: valid_length as nat,
            }))),
            final(self).vm@ == (ProgramView { bytes: old(self).vm@.bytes, position: 0 }),
            final(self).sequencer == old(self).sequencer,
            final(self).phase == old(self).phase,
            final(self).glide_left == old(self).glide_left,
            final(self).waveform_index == old(self).waveform_index,
    {
        self.vm.set_position(valid_length);
        let ghost all = decode(pending(self.vm@));
        proof {
            assert(pending(self.vm@) =~= pending(ProgramView {
                bytes: old(self).vm@.bytes,
                position: valid_length as nat,
            }));
        }
        out.clear();
        let mut it = self.vm.iter();
        let ghost mut done: Seq<(Opcode, Seq<u8>)> = Seq::empty();
        loop
            invariant
                it.wf(),
                all == done + decode(it@),
                out@ == commands_of(done),
            ensures
                out@ == commands_of(all),
            decreases it@.len(),
        {
            match it.next() {
                Some(instruction) => {
                    let c = command_of(&instruction);
                    out.push(c);
                    proof {
                        let d = decode(it@);
                        done = done.push(instruction@);
                        assert(all =~= done + d);
                        assert(out@ =~= commands_of(done));
                    }
                },
                None => {
                    proof {
                        assert(all =~= done);
                    }
                    break;
                },
            }
        }
        self.vm.drain();
    }

    /// Advances one sample. When the sequencer reaches a step, the step's
    /// note is returned, a glide is set up (slide) or cancelled (no slide),
    /// and the notification of the new position is appended to the command
    /// buffer. Every `CONTROL_PERIOD`th sample, counted on its own whether
    /// the sequencer runs or not, starts a control block, which takes one
    /// glide increment while a glide is under way.
    pub fn tick(&mut self) -> (r: Tick)
        requires
            old(self).wf(),
        ensures
            final(self).wf(),
            final(self).sequencer@ == advance(old(self).sequencer@),
            final(self).waveform_index == old(self).waveform_index,
            ({
                let stepped = steps_on(old(self).sequencer@);
                let s = advance(old(self).sequencer@);
                let glide_before = if stepped {
                    if step_at(s).has_slide { GLIDE_STEPS } else { 0 }
                } else {
                    old(self).glide_left
                };
                &&& r.note == if stepped { Some(spec_note_event(step_at(s))) } else { None::<NoteEvent> }
                &&& final(self).vm@ == if stepped {
                    notified(old(self).vm@, s.pattern_position as u32)
                } else {
                    old(self).vm@
                }
                &&& r.control == (old(self).phase == 0)
                &&& final(self).phase == (old(self).phase + 1) % (CONTROL_PERIOD as int)
                &&& r.glide == (r.control && glide_before > 0)
                &&& final(self).glide_left == if r.glide { (glide_before - 1) as u32 } else { glide_before }
            }),
    {
        let step = self.sequencer.update();
        let note = match step {
            Some(st) => {
                if st.has_slide {
                    self.glide_left = GLIDE_STEPS;
                } else {
                    self.glide_left = 0;
                }
                push_step_notification(&mut self.vm, self.sequencer.pattern_position() as u32);
                Some(note_event(st))
            },
            None => None,
        };
        let control = self.phase == 0;
        self.phase = (self.phase + 1) % CONTROL_PERIOD;
        let glide = control && self.glide_left > 0;
        if glide {
            self.glide_left = self.glide_left - 1;
        }
        Tick { note, control, glide }
    }
}

} // verus!
