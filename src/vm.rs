use vstd::prelude::*;
use vstd::slice::slice_subrange;

verus! {

/// Capacity of the command buffer in bytes.
pub const MAX_PROGRAM_SIZE: usize = 32768;

/// Instruction codes of the command protocol.
///
/// Codes 20 to 39 carry a little-endian `u32` operand, codes 40 to 59 a
/// little-endian `f32` operand; codes from 60 on are notifications that the
/// engine writes for the host, without operand from 60 to 79 and with a
/// little-endian `u32` operand from 80 to 99. Every byte that names no
/// variant reads as `Nop`.
#[derive(Clone, Copy, Debug, PartialEq, Eq, Structural)]
pub enum Opcode {
    Nop,
    SetWaveformIndex,
    SetDelayLength,
    SetCutoff,
    SetResonance,
    SetEnvMod,
    SetDecay,
    SetTempo,
    SetTuning,
    SetAccent,
    SetDistortionThreshold,
    SetDistortionShape,
    SetDelaySend,
    SetDelayFeedback,
    BootstrapFinished,
    SetSequencerStep,
}

/// The numeric code of each opcode.
pub open spec fn spec_code(op: Opcode) -> u8 {
    match op {
        Opcode::Nop => 0,
        Opcode::SetWaveformIndex => 20,
        Opcode::SetDelayLength => 21,
        Opcode::SetCutoff => 40,
        Opcode::SetResonance => 41,
        Opcode::SetEnvMod => 42,
        Opcode::SetDecay => 43,
        Opcode::SetTempo => 44,
        Opcode::SetTuning => 45,
        Opcode::SetAccent => 46,
        Opcode::SetDistortionThreshold => 47,
        Opcode::SetDistortionShape => 48,
        Opcode::SetDelaySend => 49,
        Opcode::SetDelayFeedback => 50,
        Opcode::BootstrapFinished => 60,
        Opcode::SetSequencerStep => 80,
    }
}

/// The opcode that a byte names; a byte that names none is `Nop`.
pub open spec fn spec_from_u8(b: u8) -> Opcode {
    if b == 20 { Opcode::SetWaveformIndex }
    else if b == 21 { Opcode::SetDelayLength }
    else if b == 40 { Opcode::SetCutoff }
    else if b == 41 { Opcode::SetResonance }
    else if b == 42 { Opcode::SetEnvMod }
    else if b == 43 { Opcode::SetDecay }
    else if b == 44 { Opcode::SetTempo }
    else if b == 45 { Opcode::SetTuning }
    else if b == 46 { Opcode::SetAccent }
    else if b == 47 { Opcode::SetDistortionThreshold }
    else if b == 48 { Opcode::SetDistortionShape }
    else if b == 49 { Opcode::SetDelaySend }
    else if b == 50 { Opcode::SetDelayFeedback }
    else if b == 60 { Opcode::BootstrapFinished }
    else if b == 80 { Opcode::SetSequencerStep }
    else { Opcode::Nop }
}

/// Number of operand bytes that follow an opcode in the command stream.
pub open spec fn spec_operand_size(op: Opcode) -> nat {
    let c = spec_code(op);
    if (20 <= c && c <= 59) || (80 <= c && c <= 99) { 4 } else { 0 }
}

/// The value of four bytes read as a little-endian unsigned integer.
pub open spec fn le_u32(b: Seq<u8>) -> int {
    b[0] as int + 256 * (b[1] as int) + 65536 * (b[2] as int) + 16777216 * (b[3] as int)
}

/// Length of the instruction that starts with opcode byte `b`.
pub open spec fn frame_len(b: u8) -> nat {
    1 + spec_operand_size(spec_from_u8(b))
}

/// The instructions that a byte sequence holds, in order, as (opcode, operand
/// bytes). Decoding stops at the first instruction whose operand bytes are not
/// all present; that truncated tail yields nothing.
pub open spec fn decode(b: Seq<u8>) -> Seq<(Opcode, Seq<u8>)>
    decreases b.len(),
{
    if b.len() == 0 || b.len() < frame_len(b[0]) {
        Seq::empty()
    } else {
        let n = frame_len(b[0]) as int;
        seq![(spec_from_u8(b[0]), b.subrange(1, n))] + decode(b.subrange(n, b.len() as int))
    }
}

/// A byte sequence made of whole instructions only.
pub open spec fn is_complete(b: Seq<u8>) -> bool
    decreases b.len(),
{
    if b.len() == 0 {
        true
    } else if b.len() < frame_len(b[0]) {
        false
    } else {
        is_complete(b.subrange(frame_len(b[0]) as int, b.len() as int))
    }
}

/// A lone instruction cut short: its opcode byte is present but not all of
/// its operand bytes.
pub open spec fn is_truncated(t: Seq<u8>) -> bool {
    t.len() > 0 && t.len() < frame_len(t[0])
}

/// Whole instructions followed by a truncated one decode to the whole ones
/// alone: the incomplete tail is dropped.
pub proof fn lemma_truncated_tail_dropped(p: Seq<u8>, t: Seq<u8>)
    requires
        is_complete(p),
        is_truncated(t),
    ensures
        decode(p + t) == decode(p),
    decreases p.len(),
{
    if p.len() == 0 {
        assert(p + t =~= t);
    } else {
        let n = frame_len(p[0]) as int;
        let rest = p.subrange(n, p.len() as int);
        assert((p + t)[0] == p[0]);
        assert((p + t).subrange(1, n) =~= p.subrange(1, n));
        assert((p + t).subrange(n, (p + t).len() as int) =~= rest + t);
        lemma_truncated_tail_dropped(rest, t);
    }
}

/// Whole instructions followed by one more whole instruction decode to the
/// first ones and then that one.
pub proof fn lemma_whole_frame_appended(p: Seq<u8>, t: Seq<u8>)
    requires
        is_complete(p),
        t.len() > 0,
        t.len() == frame_len(t[0]),
    ensures
        decode(p + t) == decode(p).push((spec_from_u8(t[0]), t.subrange(1, t.len() as int))),
    decreases p.len(),
{
    if p.len() == 0 {
        assert(p + t =~= t);
        let n = frame_len(t[0]) as int;
        assert(t.subrange(n, t.len() as int).len() == 0);
        assert(decode(t.subrange(n, t.len() as int)) =~= Seq::empty());
        assert(decode(t) =~= seq![(spec_from_u8(t[0]), t.subrange(1, t.len() as int))]);
    } else {
        let n = frame_len(p[0]) as int;
        let rest = p.subrange(n, p.len() as int);
        assert((p + t)[0] == p[0]);
        assert((p + t).subrange(1, n) =~= p.subrange(1, n));
        assert((p + t).subrange(n, (p + t).len() as int) =~= rest + t);
        lemma_whole_frame_appended(rest, t);
        assert(decode(p + t) =~= decode(p).push((spec_from_u8(t[0]), t.subrange(1, t.len() as int))));
    }
}

impl Opcode {
    /// The numeric code of this opcode.
    pub fn code(&self) -> (r: u8)
        ensures
            r == spec_code(*self),
    {
        match self {
            Opcode::Nop => 0,
            Opcode::SetWaveformIndex => 20,
            Opcode::SetDelayLength => 21,
            Opcode::SetCutoff => 40,
            Opcode::SetResonance => 41,
            Opcode::SetEnvMod => 42,
            Opcode::SetDecay => 43,
            Opcode::SetTempo => 44,
            Opcode::SetTuning => 45,
            Opcode::SetAccent => 46,
            Opcode::SetDistortionThreshold => 47,
            Opcode::SetDistortionShape => 48,
            Opcode::SetDelaySend => 49,
            Opcode::SetDelayFeedback => 50,
            Opcode::BootstrapFinished => 60,
            Opcode::SetSequencerStep => 80,
        }
    }

    /// Number of operand bytes that follow this opcode.
    pub fn operand_size(&self) -> (r: usize)
        ensures
            r == spec_operand_size(*self),
    {
        let c = self.code();
        if (20 <= c && c <= 59) || (80 <= c && c <= 99) {
            4
        } else {
            0
        }
    }

    pub fn from_u8(value: u8) -> (r: Opcode)
        ensures
            r == spec_from_u8(value),
    {
        match value {
            20 => Opcode::SetWaveformIndex,
            21 => Opcode::SetDelayLength,
            40 => Opcode::SetCutoff,
            41 => Opcode::SetResonance,
            42 => Opcode::SetEnvMod,
            43 => Opcode::SetDecay,
            44 => Opcode::SetTempo,
            45 => Opcode::SetTuning,
            46 => Opcode::SetAccent,
            47 => Opcode::SetDistortionThreshold,
            48 => Opcode::SetDistortionShape,
            49 => Opcode::SetDelaySend,
            50 => Opcode::SetDelayFeedback,
            60 => Opcode::BootstrapFinished,
            80 => Opcode::SetSequencerStep,
            _ => Opcode::Nop,
        }
    }
}

/// Decoding a code gives back the opcode it came from.
pub proof fn lemma_code_round_trip(op: Opcode)
    ensures
        spec_from_u8(spec_code(op)) == op,
{
}

/// One decoded instruction: an opcode and exactly its operand bytes.
pub struct Instruction<'a> {
    pub opcode: Opcode,
    operands: &'a [u8],
}

impl<'a> View for Instruction<'a> {
    type V = (Opcode, Seq<u8>);

    closed spec fn view(&self) -> (Opcode, Seq<u8>) {
        (self.opcode, self.operands@)
    }
}

impl<'a> Instruction<'a> {
    pub fn opcode(&self) -> (r: Opcode)
        ensures
            r == self@.0,
    {
        self.opcode
    }

    /// The operand bytes.
    pub fn operands(&self) -> (r: &[u8])
        ensures
            r@ == self@.1,
    {
        self.operands
    }

    /// The little-endian `u32` operand in 4-byte slot `slot`.
    pub fn decode_u32(&self, slot: usize) -> (r: u32)
        requires
            4 * slot + 4 <= self@.1.len(),
        ensures
            r == le_u32(self@.1.subrange(4 * slot as int, 4 * slot + 4)),
    {
        let len = self.operands.len();
        assert(len == self@.1.len());
        let i = 4 * slot;
        let b0 = self.operands[i] as u32;
        let b1 = self.operands[i + 1] as u32;
        let b2 = self.operands[i + 2] as u32;
        let b3 = self.operands[i + 3] as u32;
        b0 + 256 * b1 + 65536 * b2 + 16777216 * b3
    }
}

/// What the command buffer holds: its bytes and the cursor.
pub struct ProgramView {
    pub bytes: Seq<u8>,
    pub position: nat,
}

/// The bytes before the cursor, cut at the end of the buffer.
pub open spec fn pending(v: ProgramView) -> Seq<u8> {
    if v.position <= v.bytes.len() {
        v.bytes.take(v.position as int)
    } else {
        v.bytes
    }
}

/// A zero-filled buffer of `MAX_PROGRAM_SIZE` bytes with the cursor at 0.
pub open spec fn empty_program() -> ProgramView {
    ProgramView { bytes: Seq::new(MAX_PROGRAM_SIZE as nat, |i: int| 0u8), position: 0 }
}

/// The command buffer and its cursor, which marks how many bytes are valid.
pub struct VM {
    program: Vec<u8>,
    position: usize,
}

impl View for VM {
    type V = ProgramView;

    closed spec fn view(&self) -> ProgramView {
        ProgramView { bytes: self.program@, position: self.position as nat }
    }
}

impl VM {
    /// A zero-filled buffer of `MAX_PROGRAM_SIZE` bytes with the cursor at 0.
    pub fn new() -> (r: VM)
        ensures
            r@ == empty_program(),
    {
        let mut program: Vec<u8> = Vec::new();
        let mut i: usize = 0;
        while i < MAX_PROGRAM_SIZE
            invariant
                i <= MAX_PROGRAM_SIZE,
                program@ == Seq::new(i as nat, |j: int| 0u8),
            decreases MAX_PROGRAM_SIZE - i,
        {
            program.push(0);
            i = i + 1;
            assert(program@ =~= Seq::new(i as nat, |j: int| 0u8));
        }
        VM { program, position: 0 }
    }

    /// The buffer's bytes, for the host to write commands into and to read
    /// notifications from.
    pub fn get_program_ptr(&mut self) -> (r: &mut [u8])
        ensures
            r@ == old(self)@.bytes,
            final(self)@ == (ProgramView { bytes: final(r)@, position: old(self)@.position }),
    {
        self.program.as_mut_slice()
    }

    /// Sets the cursor as given. Decoding stops at the end of the buffer,
    /// and appending into a buffer whose cursor is at or past its end writes
    /// nothing.
    pub fn set_position(&mut self, position: usize)
        ensures
            final(self)@ == (ProgramView { bytes: old(self)@.bytes, position: position as nat }),
    {
        self.position = position;
    }

    /// Size of the buffer in bytes.
    pub fn capacity(&self) -> (r: usize)
        ensures
            r == self@.bytes.len(),
    {
        self.program.len()
    }

    pub fn get_position(&self) -> (r: usize)
        ensures
            r == self@.position,
    {
        self.position
    }

    /// Empties the buffer logically: the cursor goes back to 0, the bytes stay.
    pub fn drain(&mut self)
        ensures
            final(self)@ == (ProgramView { bytes: old(self)@.bytes, position: 0 }),
    {
        self.position = 0;
    }

    /// Appends the code of `opcode` at the cursor; a full buffer is left as it is.
    pub fn push_opcode(&mut self, opcode: Opcode)
        ensures
            old(self)@.position < old(self)@.bytes.len() ==> final(self)@ == (ProgramView {
                bytes: old(self)@.bytes.update(old(self)@.position as int, spec_code(opcode)),
                position: old(self)@.position + 1,
            }),
            old(self)@.position >= old(self)@.bytes.len() ==> final(self)@ == old(self)@,
    {
        let code = opcode.code();
        self.push_u8(code);
    }

    /// Appends one byte at the cursor; a full buffer is left as it is.
    pub fn push_u8(&mut self, value: u8)
        ensures
            old(self)@.position < old(self)@.bytes.len() ==> final(self)@ == (ProgramView {
                bytes: old(self)@.bytes.update(old(self)@.position as int, value),
                position: old(self)@.position + 1,
            }),
            old(self)@.position >= old(self)@.bytes.len() ==> final(self)@ == old(self)@,
    {
        if self.position < self.program.len() {
            self.program.set(self.position, value);
            self.position = self.position + 1;
        }
    }

    /// The instructions before the cursor, decoded one at a time.
    pub fn iter(&self) -> (r: ProgramIterator<'_>)
        ensures
            r.wf(),
            r@ == pending(self@),
    {
        let end = if self.position <= self.program.len() {
            self.position
        } else {
            self.program.len()
        };
        proof {
            assert(self.program@.subrange(0, end as int) =~= pending(self@));
        }
        ProgramIterator { program: &self.program, position: 0, end }
    }
}

impl Default for VM {
    fn default() -> (r: VM)
        ensures
            r@ == empty_program(),
    {
        VM::new()
    }
}

/// Walks the valid part of a command buffer instruction by instruction.
pub struct ProgramIterator<'a> {
    program: &'a Vec<u8>,
    position: usize,
    end: usize,
}

impl<'a> View for ProgramIterator<'a> {
    type V = Seq<u8>;

    /// The bytes not yet read.
    closed spec fn view(&self) -> Seq<u8> {
        self.program@.subrange(self.position as int, self.end as int)
    }
}

impl<'a> ProgramIterator<'a> {
    pub closed spec fn wf(&self) -> bool {
        self.position <= self.end <= self.program@.len()
    }

    /// Reads the next byte, if one is left.
    fn eat_u8(&mut self) -> (r: Option<u8>)
        requires
            old(self).wf(),
        ensures
            final(self).wf(),
            final(self).program == old(self).program,
            final(self).end == old(self).end,
            r is Some ==> final(self).position == old(self).position + 1,
            old(self)@.len() == 0 ==> r is None && final(self)@ == old(self)@,
            old(self)@.len() > 0 ==> r == Some(old(self)@[0]) && final(self)@ == old(self)@.drop_first(),
    {
        if self.position >= self.end {
            return None;
        }
        let byte = self.program[self.position];
        self.position = self.position + 1;
        proof {
            assert(self@ =~= old(self)@.drop_first());
        }
        Some(byte)
    }

    /// The next whole instruction. A truncated last instruction yields `None`,
    /// as does an exhausted buffer, and so does every later call.
    pub fn next(&mut self) -> (r: Option<Instruction<'a>>)
        requires
            old(self).wf(),
        ensures
            final(self).wf(),
            decode(old(self)@).len() == 0 ==> r is None && decode(final(self)@).len() == 0,
            decode(old(self)@).len() > 0 ==> r is Some && r.unwrap()@ == decode(old(self)@)[0]
                && decode(final(self)@) == decode(old(self)@).drop_first(),
            r is Some ==> r.unwrap()@.1.len() == spec_operand_size(r.unwrap()@.0),
            r is Some ==> final(self)@.len() < old(self)@.len(),
            r is None ==> final(self)@.len() == 0,
    {
        let ghost rest = self@;
        let ghost p0 = self.position as int;
        let byte = match self.eat_u8() {
            Some(byte) => byte,
            None => {
                return None;
            },
        };
        let opcode = Opcode::from_u8(byte);
        let size = opcode.operand_size();
        if size > self.end - self.position {
            self.position = self.end;
            proof {
                assert(byte == rest[0]);
                assert(self@.len() == 0);
            }
            return None;
        }
        let start = self.position;
        self.position = self.position + size;
        let operands = slice_subrange(self.program.as_slice(), start, start + size);
        proof {
            let n = frame_len(rest[0]) as int;
            assert(byte == rest[0]);
            assert(n == 1 + size);
            assert(start == p0 + 1);
            assert(operands@ =~= rest.subrange(1, n));
            assert(self@ =~= rest.subrange(n, rest.len() as int));
            assert(decode(rest) =~= seq![(opcode, operands@)] + decode(self@));
        }
        Some(Instruction { opcode, operands })
    }
}

} // verus!
