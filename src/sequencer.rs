use vstd::prelude::*;

verus! {

/// Number of steps in a pattern.
pub const MAX_PATTERN_LENGTH: usize = 16;

/// Number of patterns that the sequencer holds.
pub const MAX_PATTERN_COUNT: usize = 8;

/// Samples per step at 120 beats per minute: a sixteenth note at 44100 Hz.
pub const DEFAULT_STEP_LENGTH: u32 = 5512;

/// The start value of both counters; it is past any step and any pattern
/// length, so the first advance starts the pattern at its first step.
pub const PRIMED_POSITION: u32 = 10000000;

/// One step of a pattern.
#[derive(Clone, Copy, Debug, PartialEq, Eq, Structural)]
pub struct Step {
    pub pitch: u8,
    pub is_enabled: bool,
    pub has_accent: bool,
    pub has_slide: bool,
    pub has_down: bool,
    pub has_up: bool,
}

/// The step that a fresh pattern is filled with: an enabled C2 without flags.
pub open spec fn default_step() -> Step {
    Step {
        pitch: 36,
        is_enabled: true,
        has_accent: false,
        has_slide: false,
        has_down: false,
        has_up: false,
    }
}

impl Step {
    pub fn new() -> (r: Step)
        ensures
            r == default_step(),
    {
        Step {
            pitch: 36,
            is_enabled: true,
            has_accent: false,
            has_slide: false,
            has_down: false,
            has_up: false,
        }
    }
}

/// A pattern as its steps and the number of them that play.
pub struct PatternView {
    pub steps: Seq<Step>,
    pub length: nat,
}

/// A sequence of steps, of which the first `length` play.
pub struct Pattern {
    steps: Vec<Step>,
    length: usize,
}

impl View for Pattern {
    type V = PatternView;

    closed spec fn view(&self) -> PatternView {
        PatternView { steps: self.steps@, length: self.length as nat }
    }
}

/// A pattern of `MAX_PATTERN_LENGTH` default steps, all of which play.
pub open spec fn default_pattern() -> PatternView {
    PatternView {
        steps: Seq::new(MAX_PATTERN_LENGTH as nat, |i: int| default_step()),
        length: MAX_PATTERN_LENGTH as nat,
    }
}

impl Pattern {
    pub fn new() -> (r: Pattern)
        ensures
            r@ == default_pattern(),
    {
        let mut steps: Vec<Step> = Vec::new();
        let mut i: usize = 0;
        while i < MAX_PATTERN_LENGTH
            invariant
                i <= MAX_PATTERN_LENGTH,
                steps@ == Seq::new(i as nat, |j: int| default_step()),
            decreases MAX_PATTERN_LENGTH - i,
        {
            steps.push(Step::new());
            i = i + 1;
            assert(steps@ =~= Seq::new(i as nat, |j: int| default_step()));
        }
        Pattern { steps, length: MAX_PATTERN_LENGTH }
    }
}

/// The sequencer's state.
pub struct SequencerView {
    pub is_running: bool,
    pub sample_position: nat,
    pub step_length: nat,
    pub pattern_position: nat,
    pub patterns: Seq<PatternView>,
    pub current_pattern: nat,
    pub next_pattern: nat,
}

/// The invariant of a sequencer state: `MAX_PATTERN_COUNT` patterns of
/// `MAX_PATTERN_LENGTH` steps, each playing at most all of them; pattern
/// indices in range; counters that can be incremented.
pub open spec fn state_wf(s: SequencerView) -> bool {
    &&& s.patterns.len() == MAX_PATTERN_COUNT
    &&& forall|i: int|
        0 <= i < s.patterns.len() ==> #[trigger] s.patterns[i].steps.len() == MAX_PATTERN_LENGTH
            && s.patterns[i].length <= MAX_PATTERN_LENGTH
    &&& s.current_pattern < MAX_PATTERN_COUNT
    &&& s.next_pattern < MAX_PATTERN_COUNT
    &&& s.sample_position < u32::MAX
    &&& s.step_length <= u32::MAX
    &&& s.pattern_position <= PRIMED_POSITION
}

/// The state after one sample. While running, the sample counter counts up;
/// when it reaches the step length it restarts at 0 and the pattern position
/// advances; past the active pattern's length the position wraps to 0 and
/// the queued pattern becomes the active one.
pub open spec fn advance(s: SequencerView) -> SequencerView {
    if !s.is_running {
        s
    } else if s.sample_position + 1 < s.step_length {
        SequencerView { sample_position: s.sample_position + 1, ..s }
    } else if s.pattern_position + 1 >= s.patterns[s.current_pattern as int].length {
        SequencerView {
            sample_position: 0,
            pattern_position: 0,
            current_pattern: s.next_pattern,
            ..s
        }
    } else {
        SequencerView { sample_position: 0, pattern_position: s.pattern_position + 1, ..s }
    }
}

/// Whether the sample after state `s` starts a new step.
pub open spec fn steps_on(s: SequencerView) -> bool {
    s.is_running && s.sample_position + 1 >= s.step_length
}

/// The step at the position of state `s`.
pub open spec fn step_at(s: SequencerView) -> Step {
    s.patterns[s.current_pattern as int].steps[s.pattern_position as int]
}

/// The state after `k` samples.
pub open spec fn advance_by(s: SequencerView, k: nat) -> SequencerView
    decreases k,
{
    if k == 0 {
        s
    } else {
        advance_by(advance(s), (k - 1) as nat)
    }
}

/// Advancing `k + 1` samples is advancing `k` samples, then one more.
pub proof fn lemma_advance_by_last(s: SequencerView, k: nat)
    ensures
        advance_by(s, k + 1) == advance(advance_by(s, k)),
    decreases k,
{
    if k > 0 {
        lemma_advance_by_last(advance(s), (k - 1) as nat);
        assert(advance_by(s, k) == advance_by(advance(s), (k - 1) as nat));
    } else {
        assert(advance_by(advance(s), 0) == advance(s));
    }
}

/// Advancing `a + b` samples is advancing `a` samples, then `b`.
pub proof fn lemma_advance_by_split(s: SequencerView, a: nat, b: nat)
    ensures
        advance_by(s, a + b) == advance_by(advance_by(s, a), b),
    decreases a,
{
    if a > 0 {
        lemma_advance_by_split(advance(s), (a - 1) as nat, b);
    }
}

/// Within a step, each sample only counts.
proof fn lemma_within_step(s: SequencerView, j: nat)
    requires
        s.is_running,
        s.sample_position == 0,
        j < s.step_length,
    ensures
        advance_by(s, j) == (SequencerView { sample_position: j, ..s }),
    decreases j,
{
    if j > 0 {
        lemma_within_step(s, (j - 1) as nat);
        lemma_advance_by_last(s, (j - 1) as nat);
    }
}

/// From the start of a step, `step_length` samples reach the next step.
proof fn lemma_one_step(s: SequencerView)
    requires
        s.is_running,
        s.sample_position == 0,
        s.step_length > 0,
    ensures
        advance_by(s, s.step_length) == advance(
            SequencerView { sample_position: (s.step_length - 1) as nat, ..s },
        ),
{
    let l = (s.step_length - 1) as nat;
    lemma_within_step(s, l);
    lemma_advance_by_last(s, l);
}

/// From the first sample of step 0 of a full-length pattern, `m` whole steps
/// (fewer than a pattern) reach step `m` of the same pattern.
proof fn lemma_whole_steps(s: SequencerView, m: nat)
    requires
        state_wf(s),
        s.is_running,
        s.sample_position == 0,
        s.pattern_position == 0,
        s.step_length > 0,
        s.patterns[s.current_pattern as int].length == MAX_PATTERN_LENGTH,
        m < MAX_PATTERN_LENGTH,
    ensures
        advance_by(s, m * s.step_length) == (SequencerView { pattern_position: m, ..s }),
    decreases m,
{
    if m > 0 {
        let k = (m - 1) as nat;
        lemma_whole_steps(s, k);
        assert(m * s.step_length == k * s.step_length + s.step_length) by (nonlinear_arith)
            requires m == k + 1;
        lemma_advance_by_split(s, k * s.step_length, s.step_length);
        let sk = SequencerView { pattern_position: k, ..s };
        lemma_one_step(sk);
        assert(advance_by(s, k * s.step_length + s.step_length) == advance_by(sk, s.step_length));
        assert(sk.pattern_position + 1 < sk.patterns[sk.current_pattern as int].length);
        assert(advance(SequencerView { sample_position: (s.step_length - 1) as nat, ..sk })
            == (SequencerView { pattern_position: m, ..s }));
    } else {
        assert(m * s.step_length == 0) by (nonlinear_arith)
            requires m == 0;
    }
}

/// How many of the `k` samples after state `s` start a step.
pub open spec fn steps_in(s: SequencerView, k: nat) -> nat
    decreases k,
{
    if k == 0 {
        0
    } else {
        (if steps_on(s) { 1nat } else { 0nat }) + steps_in(advance(s), (k - 1) as nat)
    }
}

/// Steps started in `a + b` samples are those of the first `a` samples and
/// those of the `b` samples after them.
pub proof fn lemma_steps_in_split(s: SequencerView, a: nat, b: nat)
    ensures
        steps_in(s, a + b) == steps_in(s, a) + steps_in(advance_by(s, a), b),
    decreases a,
{
    if a > 0 {
        lemma_steps_in_split(advance(s), (a - 1) as nat, b);
    }
}

/// From the start of a step, the next `step_length` samples start exactly
/// one step, the last of them.
proof fn lemma_one_step_count(s: SequencerView)
    requires
        s.is_running,
        s.sample_position == 0,
        s.step_length > 0,
    ensures
        steps_in(s, s.step_length) == 1,
{
    let l = (s.step_length - 1) as nat;
    lemma_no_step_within(s, l);
    lemma_within_step(s, l);
    lemma_steps_in_split(s, l, 1);
    let t = advance_by(s, l);
    assert(steps_in(advance(t), 0) == 0);
}

/// From the start of a step, the first `j` samples start no step while
/// `j < step_length`.
proof fn lemma_no_step_within(s: SequencerView, j: nat)
    requires
        s.is_running,
        s.sample_position == 0,
        j < s.step_length,
    ensures
        steps_in(s, j) == 0,
    decreases j,
{
    if j > 0 {
        let k = (j - 1) as nat;
        lemma_no_step_within(s, k);
        lemma_within_step(s, k);
        lemma_steps_in_split(s, k, 1);
        let t = advance_by(s, k);
        assert(steps_in(advance(t), 0) == 0);
    }
}

/// From the first sample of step 0 of a full-length pattern, `m` whole steps
/// start exactly `m` steps.
proof fn lemma_whole_steps_count(s: SequencerView, m: nat)
    requires
        state_wf(s),
        s.is_running,
        s.sample_position == 0,
        s.pattern_position == 0,
        s.step_length > 0,
        s.patterns[s.current_pattern as int].length == MAX_PATTERN_LENGTH,
        m <= MAX_PATTERN_LENGTH,
    ensures
        steps_in(s, m * s.step_length) == m,
    decreases m,
{
    if m > 0 {
        let k = (m - 1) as nat;
        lemma_whole_steps_count(s, k);
        lemma_whole_steps(s, k);
        assert(m * s.step_length == k * s.step_length + s.step_length) by (nonlinear_arith)
            requires m == k + 1;
        lemma_steps_in_split(s, k * s.step_length, s.step_length);
        lemma_one_step_count(SequencerView { pattern_position: k, ..s });
    } else {
        assert(m * s.step_length == 0) by (nonlinear_arith)
            requires m == 0;
    }
}

/// A full pattern of `MAX_PATTERN_LENGTH` steps, played from its first
/// sample for `MAX_PATTERN_LENGTH` times the step length, ends at position 0
/// at the start of a step. With a step length above 0, exactly
/// `MAX_PATTERN_LENGTH` steps start on the way and the queued pattern is then
/// the active one; with the active pattern queued again the state is exactly
/// the one it started from.
pub proof fn lemma_pattern_loop(s: SequencerView)
    requires
        state_wf(s),
        s.is_running,
        s.sample_position == 0,
        s.pattern_position == 0,
        s.patterns[s.current_pattern as int].length == MAX_PATTERN_LENGTH,
    ensures
        advance_by(s, MAX_PATTERN_LENGTH as nat * s.step_length).pattern_position == 0,
        advance_by(s, MAX_PATTERN_LENGTH as nat * s.step_length).sample_position == 0,
        s.step_length > 0 ==> advance_by(s, MAX_PATTERN_LENGTH as nat * s.step_length) == (SequencerView {
            current_pattern: s.next_pattern,
            ..s
        }),
        s.next_pattern == s.current_pattern ==> advance_by(s, MAX_PATTERN_LENGTH as nat * s.step_length) == s,
        s.step_length > 0 ==> steps_in(s, MAX_PATTERN_LENGTH as nat * s.step_length) == MAX_PATTERN_LENGTH,
{
    if s.step_length > 0 {
        let k: nat = (MAX_PATTERN_LENGTH - 1) as nat;
        lemma_whole_steps(s, k);
        assert(MAX_PATTERN_LENGTH as nat * s.step_length == k * s.step_length + s.step_length) by (nonlinear_arith)
            requires k == MAX_PATTERN_LENGTH - 1;
        lemma_advance_by_split(s, k * s.step_length, s.step_length);
        lemma_one_step(SequencerView { pattern_position: k, ..s });
        lemma_whole_steps_count(s, MAX_PATTERN_LENGTH as nat);
    } else {
        assert(MAX_PATTERN_LENGTH as nat * s.step_length == 0);
    }
}

/// A running sequencer at 120 beats per minute over default patterns,
/// primed so that its first sample starts the first step of pattern 0.
pub open spec fn initial_state() -> SequencerView {
    SequencerView {
        is_running: true,
        sample_position: PRIMED_POSITION as nat,
        step_length: DEFAULT_STEP_LENGTH as nat,
        pattern_position: PRIMED_POSITION as nat,
        patterns: Seq::new(MAX_PATTERN_COUNT as nat, |i: int| default_pattern()),
        current_pattern: 0,
        next_pattern: 0,
    }
}

/// A step sequencer over a bank of patterns.
pub struct Sequencer {
    is_running: bool,
    sample_position: u32,
    step_length: u32,
    pattern_position: usize,
    patterns: Vec<Pattern>,
    current_pattern: usize,
    next_pattern: usize,
}

impl View for Sequencer {
    type V = SequencerView;

    closed spec fn view(&self) -> SequencerView {
        SequencerView {
            is_running: self.is_running,
            sample_position: self.sample_position as nat,
            step_length: self.step_length as nat,
            pattern_position: self.pattern_position as nat,
            patterns: self.patterns@.map_values(|p: Pattern| p@),
            current_pattern: self.current_pattern as nat,
            next_pattern: self.next_pattern as nat,
        }
    }
}

impl Sequencer {
    pub open spec fn wf(&self) -> bool {
        state_wf(self@)
    }

    pub fn new() -> (r: Sequencer)
        ensures
            r.wf(),
            r@ == initial_state(),
    {
        let mut patterns: Vec<Pattern> = Vec::new();
        let mut i: usize = 0;
        while i < MAX_PATTERN_COUNT
            invariant
                i <= MAX_PATTERN_COUNT,
                patterns@.len() == i,
                forall|j: int| 0 <= j < i ==> #[trigger] patterns@[j]@ == default_pattern(),
            decreases MAX_PATTERN_COUNT - i,
        {
            patterns.push(Pattern::new());
            i = i + 1;
        }
        let r = Sequencer {
            is_running: true,
            sample_position: PRIMED_POSITION,
            step_length: DEFAULT_STEP_LENGTH,
            pattern_position: PRIMED_POSITION as usize,
            patterns,
            current_pattern: 0,
            next_pattern: 0,
        };
        assert(r@.patterns =~= Seq::new(MAX_PATTERN_COUNT as nat, |i: int| default_pattern()));
        r
    }

    pub fn is_running(&self) -> (r: bool)
        ensures
            r == self@.is_running,
    {
        self.is_running
    }

    /// Starts (`true`) or stops (`false`) the sequencer.
    pub fn set_running(&mut self, running: bool)
        requires
            old(self).wf(),
        ensures
            final(self).wf(),
            final(self)@ == (SequencerView { is_running: running, ..old(self)@ }),
    {
        self.is_running = running;
    }

    /// Samples counted since the current step started.
    pub fn sample_position(&self) -> (r: u32)
        ensures
            r == self@.sample_position,
    {
        self.sample_position
    }

    /// Index of the current step in the active pattern.
    pub fn pattern_position(&self) -> (r: usize)
        ensures
            r == self@.pattern_position,
    {
        self.pattern_position
    }

    /// Samples per step.
    pub fn step_length(&self) -> (r: u32)
        ensures
            r == self@.step_length,
    {
        self.step_length
    }

    /// Index of the pattern that plays.
    pub fn current_pattern(&self) -> (r: usize)
        ensures
            r == self@.current_pattern,
    {
        self.current_pattern
    }

    /// Sets the samples per step; the step under way runs to the new length.
    pub fn set_step_length(&mut self, step_length: u32)
        requires
            old(self).wf(),
        ensures
            final(self).wf(),
            final(self)@ == (SequencerView { step_length: step_length as nat, ..old(self)@ }),
    {
        self.step_length = step_length;
    }

    /// Queues pattern `pattern_index` to play once the active one wraps.
    /// An index out of range is refused (`false`) and changes nothing.
    pub fn set_next_pattern(&mut self, pattern_index: usize) -> (ok: bool)
        requires
            old(self).wf(),
        ensures
            final(self).wf(),
            ok == (pattern_index < MAX_PATTERN_COUNT),
            ok ==> final(self)@ == (SequencerView {
                next_pattern: pattern_index as nat,
                ..old(self)@
            }),
            !ok ==> final(self)@ == old(self)@,
    {
        if pattern_index < MAX_PATTERN_COUNT {
            self.next_pattern = pattern_index;
            true
        } else {
            false
        }
    }

    /// Replaces step `step_index` of pattern `pattern_index` by `step`.
    /// Indices out of range are refused (`false`) and change nothing.
    pub fn set_pattern_data(&mut self, pattern_index: usize, step_index: usize, step: Step) -> (ok: bool)
        requires
            old(self).wf(),
        ensures
            final(self).wf(),
            ok == (pattern_index < MAX_PATTERN_COUNT && step_index < MAX_PATTERN_LENGTH),
            ok ==> final(self)@ == (SequencerView {
                patterns: old(self)@.patterns.update(
                    pattern_index as int,
                    PatternView {
                        steps: old(self)@.patterns[pattern_index as int].steps.update(step_index as int, step),
                        ..old(self)@.patterns[pattern_index as int]
                    },
                ),
                ..old(self)@
            }),
            !ok ==> final(self)@ == old(self)@,
    {
        if pattern_index < MAX_PATTERN_COUNT && step_index < MAX_PATTERN_LENGTH {
            let ghost old_view = self@;
            self.patterns[pattern_index].steps.set(step_index, step);
            proof {
                let expected = old_view.patterns.update(
                    pattern_index as int,
                    PatternView {
                        steps: old_view.patterns[pattern_index as int].steps.update(step_index as int, step),
                        ..old_view.patterns[pattern_index as int]
                    },
                );
                assert(self@.patterns =~= expected);
                assert forall|i: int| 0 <= i < self@.patterns.len() implies
                    #[trigger] self@.patterns[i].steps.len() == MAX_PATTERN_LENGTH
                        && self@.patterns[i].length <= MAX_PATTERN_LENGTH by {
                    assert(old_view.patterns[i].steps.len() == MAX_PATTERN_LENGTH);
                }
            }
            true
        } else {
            false
        }
    }

    /// Advances by one sample. Returns the new step when the sample starts
    /// one, else `None`; a stopped sequencer neither moves nor emits.
    pub fn update(&mut self) -> (r: Option<Step>)
        requires
            old(self).wf(),
        ensures
            final(self).wf(),
            final(self)@ == advance(old(self)@),
            r == if steps_on(old(self)@) {
                Some(step_at(advance(old(self)@)))
            } else {
                None::<Step>
            },
    {
        if !self.is_running {
            return None;
        }
        self.sample_position = self.sample_position + 1;
        if self.sample_position < self.step_length {
            return None;
        }
        self.sample_position = 0;
        self.pattern_position = self.pattern_position + 1;
        proof {
            let c = self.current_pattern as int;
            assert(self.patterns@[c]@ == self@.patterns[c]);
            assert(self@.patterns[c].steps.len() == MAX_PATTERN_LENGTH);
        }
        if self.pattern_position >= self.patterns[self.current_pattern].length {
            self.pattern_position = 0;
            self.current_pattern = self.next_pattern;
        }
        proof {
            let c = self.current_pattern as int;
            assert(self.patterns@[c]@ == self@.patterns[c]);
            assert(self@.patterns[c].steps.len() == MAX_PATTERN_LENGTH);
        }
        Some(self.patterns[self.current_pattern].steps[self.pattern_position])
    }
}

} // verus!
