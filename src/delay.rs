use vstd::prelude::*;

verus! {

/// Capacity of the delay buffer: two seconds at 44100 Hz.
pub const DELAY_BUFFER_SIZE: usize = 88200;

/// The delay length, in samples, of a fresh delay line.
pub const DEFAULT_DELAY_LENGTH: usize = 20000;

/// The slot after `position` in a ring of `length` slots.
pub open spec fn next_slot(position: nat, length: nat) -> nat {
    if position + 1 >= length {
        0
    } else {
        position + 1
    }
}

/// The slot reached after `n` moves from `position`.
pub open spec fn slot_after(position: nat, length: nat, n: nat) -> nat
    decreases n,
{
    if n == 0 {
        position
    } else {
        next_slot(slot_after(position, length, (n - 1) as nat), length)
    }
}

/// The read-and-write position of a delay line in its buffer, which cycles
/// through the first `length` slots.
pub struct DelayCursor {
    position: usize,
    length: usize,
}

/// Position and delay length of a cursor.
pub struct CursorView {
    pub position: nat,
    pub length: nat,
}

impl View for DelayCursor {
    type V = CursorView;

    closed spec fn view(&self) -> CursorView {
        CursorView { position: self.position as nat, length: self.length as nat }
    }
}

impl DelayCursor {
    pub open spec fn wf(&self) -> bool {
        self@.position < DELAY_BUFFER_SIZE && self@.length <= DELAY_BUFFER_SIZE
    }

    pub fn new() -> (r: DelayCursor)
        ensures
            r.wf(),
            r@ == (CursorView { position: 0, length: DEFAULT_DELAY_LENGTH as nat }),
    {
        DelayCursor { position: 0, length: DEFAULT_DELAY_LENGTH }
    }

    pub fn length(&self) -> (r: usize)
        ensures
            r == self@.length,
    {
        self.length
    }

    /// Sets the delay length in samples; a length beyond the buffer is
    /// refused (`false`) and changes nothing. The position is kept, and wraps
    /// at the next move if it lies beyond the new length.
    pub fn set_length(&mut self, length: u32) -> (ok: bool)
        requires
            old(self).wf(),
        ensures
            final(self).wf(),
            ok == (length <= DELAY_BUFFER_SIZE),
            ok ==> final(self)@ == (CursorView { length: length as nat, ..old(self)@ }),
            !ok ==> final(self)@ == old(self)@,
    {
        if length as usize <= DELAY_BUFFER_SIZE {
            self.length = length as usize;
            true
        } else {
            false
        }
    }

    /// The slot to read the delayed sample from and to write the new one to,
    /// for the current sample; the cursor then moves to the next slot.
    pub fn advance(&mut self) -> (slot: usize)
        requires
            old(self).wf(),
        ensures
            final(self).wf(),
            slot == old(self)@.position,
            slot < DELAY_BUFFER_SIZE,
            final(self)@ == (CursorView {
                position: next_slot(old(self)@.position, old(self)@.length),
                ..old(self)@
            }),
    {
        let slot = self.position;
        if self.position + 1 >= self.length {
            self.position = 0;
        } else {
            self.position = self.position + 1;
        }
        slot
    }
}

/// From slot 0 of a ring of `length` slots, `n` moves reach slot
/// `n % length`.
pub proof fn lemma_slot_after(length: nat, n: nat)
    requires
        length > 0,
    ensures
        slot_after(0, length, n) == n % length,
    decreases n,
{
    if n > 0 {
        lemma_slot_after(length, (n - 1) as nat);
        let m = (n - 1) as nat;
        assert(m % length < length) by (nonlinear_arith)
            requires length > 0;
        if m % length + 1 >= length {
            assert(n % length == 0) by (nonlinear_arith)
                requires n == m + 1, m % length + 1 >= length, m % length < length, length > 0;
        } else {
            assert(n % length == m % length + 1) by (nonlinear_arith)
                requires n == m + 1, m % length + 1 < length, length > 0;
        }
    } else {
        assert(0nat % length == 0) by (nonlinear_arith)
            requires length > 0;
    }
}

/// With delay length `length`, started at slot 0: the slot that sample 0
/// writes is read again first at sample `length`, and by no sample between.
/// What is heard at sample `length` is therefore exactly what was stored at
/// sample 0.
pub proof fn lemma_single_tap(length: nat, n: nat)
    requires
        length > 0,
        0 < n <= length,
    ensures
        slot_after(0, length, length) == 0,
        n < length ==> slot_after(0, length, n) != 0,
{
    lemma_slot_after(length, length);
    lemma_slot_after(length, n);
    assert(length % length == 0) by (nonlinear_arith)
        requires length > 0;
    if n < length {
        assert(n % length == n) by (nonlinear_arith)
            requires 0 < n < length;
    }
}

} // verus!
