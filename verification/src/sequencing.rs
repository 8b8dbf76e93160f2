//! Modules that move on clock edges: the sequential switch, the clock
//! divider and the eight-step sequencer.

use vstd::prelude::*;
use crate::graph_modules::{unknown_parameter, Level, ParamError};
use crate::number::{decimal_text, read_usize, usize_of, Number};
use crate::reading::{above_half, whole_part};
use crate::text::{chars_of, is_text, strip_prefix, without_prefix};

verus! {

/// Whether a signal rose: it is high now and was low at the sample before.
pub open spec fn rose(now: Level, before: Level) -> bool {
    now == Level::High && before == Level::Low
}

/// Tests whether a signal rose.
pub fn rising(now: Level, before: Level) -> (r: bool)
    ensures
        r == rose(now, before),
{
    now == Level::High && before == Level::Low
}

/// A whole number held between `low` and `high`.
pub open spec fn clamped(n: usize, low: usize, high: usize) -> usize {
    if n < low {
        low
    } else if n > high {
        high
    } else {
        n
    }
}

/// Holds a whole number between `low` and `high`.
pub fn clamp(n: usize, low: usize, high: usize) -> (r: usize)
    requires
        low <= high,
    ensures
        r == clamped(n, low, high),
        low <= r <= high,
{
    if n < low {
        low
    } else if n > high {
        high
    } else {
        n
    }
}

/// The count that a value stands for: its whole part, zero below zero.
pub open spec fn count_of(value: Seq<char>) -> usize {
    if value.len() > 0 && value[0] == '-' {
        0
    } else {
        whole_part(value)
    }
}

/// A count with one added, beginning again at zero after the largest.
pub open spec fn next_count(n: usize) -> usize {
    if n == usize::MAX {
        0
    } else {
        (n + 1) as usize
    }
}

/// Adds one to a count, beginning again at zero after the largest.
pub fn count_up(n: usize) -> (r: usize)
    ensures
        r == next_count(n),
{
    if n == usize::MAX {
        0
    } else {
        n + 1
    }
}

/// A sequential switch: one of its inputs is passed on, the next one after
/// each clock edge.
#[derive(Debug)]
pub struct GraphSwitch {
    pub current_input: usize,
    pub input_count: usize,
    pub last_clock: Level,
    pub switch_count: usize,
}

/// What the switch puts out at one sample.
pub struct SwitchOutput {
    /// The input that is passed on, counted from zero.
    pub selected: usize,
    /// Whether the switch moved on at this sample.
    pub gate: bool,
}

impl GraphSwitch {
    /// The switch has two to eight inputs and passes one of them on.
    pub open spec fn wf(&self) -> bool {
        2 <= self.input_count <= 8 && self.current_input < self.input_count
    }

    /// Tests whether the switch is valid.
    pub fn is_valid(&self) -> (r: bool)
        ensures
            r == self.wf(),
    {
        2 <= self.input_count && self.input_count <= 8 && self.current_input < self.input_count
    }

    /// A switch with `input_count` inputs, held between two and eight, that
    /// passes on the first.
    pub fn new(input_count: usize) -> (r: Self)
        ensures
            r.wf(),
            r.input_count == clamped(input_count, 2, 8),
            r.current_input == 0,
            r.switch_count == 0,
            r.last_clock == Level::Low,
    {
        GraphSwitch {
            current_input: 0,
            input_count: clamp(input_count, 2, 8),
            last_clock: Level::Low,
            switch_count: 0,
        }
    }

    /// Sets the number of inputs, held between two and eight. The switch
    /// goes back to its first input where it passed on one that is gone.
    pub fn set_input_count(&mut self, count: usize)
        ensures
            final(self).wf(),
            final(self).input_count == clamped(count, 2, 8),
            final(self).current_input == if old(self).current_input >= clamped(count, 2, 8) {
                0
            } else {
                old(self).current_input
            },
            final(self).last_clock == old(self).last_clock,
            final(self).switch_count == old(self).switch_count,
    {
        self.input_count = clamp(count, 2, 8);
        if self.current_input >= self.input_count {
            self.current_input = 0;
        }
    }

    /// The input that is passed on after a sample with the given clock and reset.
    pub open spec fn next_input(&self, clock: Level, reset: bool) -> usize {
        let from = if reset {
            0
        } else {
            self.current_input
        };
        if rose(clock, self.last_clock) {
            ((from + 1) % self.input_count as int) as usize
        } else {
            from
        }
    }

    /// Works one sample: a reset goes back to the first input, a clock edge
    /// moves on to the next input, the first after the last.
    pub fn step(&mut self, clock: Level, reset: bool) -> (r: SwitchOutput)
        requires
            old(self).wf(),
        ensures
            final(self).wf(),
            final(self).input_count == old(self).input_count,
            final(self).current_input == old(self).next_input(clock, reset),
            final(self).last_clock == clock,
            final(self).switch_count == if rose(clock, old(self).last_clock) {
                next_count(old(self).switch_count)
            } else {
                old(self).switch_count
            },
            r.selected == final(self).current_input,
            r.gate == rose(clock, old(self).last_clock),
    {
        if reset {
            self.current_input = 0;
        }
        let edge = rising(clock, self.last_clock);
        if edge {
            self.current_input = (self.current_input + 1) % self.input_count;
            self.switch_count = count_up(self.switch_count);
        }
        self.last_clock = clock;
        SwitchOutput { selected: self.current_input, gate: edge }
    }

    /// Whether the module `after` and the outcome `r` are what setting the
    /// parameter `name` to `value` makes of the module `before`.
    pub open spec fn param_set(
        before: Self,
        after: Self,
        name: Seq<char>,
        value: Seq<char>,
        r: Result<(), ParamError>,
    ) -> bool {
        &&& after.wf()
        &&& after.last_clock == before.last_clock
        &&& after.switch_count == before.switch_count
        &&& if name == "inputs"@ {
            &&& r is Ok
            &&& after.input_count == clamped(count_of(value), 2, 8)
            &&& after.current_input == if before.current_input >= after.input_count {
                0
            } else {
                before.current_input
            }
        } else if name == "reset"@ {
            &&& r is Ok
            &&& after.input_count == before.input_count
            &&& after.current_input == if above_half(value) {
                0
            } else {
                before.current_input
            }
        } else {
            &&& after == before
            &&& r is Err
            &&& r->Err_0 is Unknown
            &&& r->Err_0->Unknown_name@ == name
        }
    }

    /// Sets the number of inputs, under the name `inputs`, or goes back to
    /// the first input, under the name `reset` with a value above one half.
    pub fn set_param(&mut self, name: &str, value: &Number) -> (r: Result<(), ParamError>)
        requires
            old(self).wf(),
            value.wf(),
        ensures
            Self::param_set(*old(self), *final(self), name@, value@, r),
    {
        let v = chars_of(name);
        if is_text(&v, "inputs") {
            self.set_input_count(value.truncated());
            Ok(())
        } else if is_text(&v, "reset") {
            if value.exceeds_half() {
                self.current_input = 0;
            }
            Ok(())
        } else {
            Err(unknown_parameter(name))
        }
    }

    /// Whether `r` is the parameter `name` of the module `this`.
    pub open spec fn param_got(this: Self, name: Seq<char>, r: Option<Number>) -> bool {
        &&& if name == "inputs"@ {
            r is Some && r->0@ == decimal_text(this.input_count as nat)
        } else if name == "current"@ {
            r is Some && r->0@ == decimal_text((this.current_input + 1) as nat)
        } else if name == "count"@ {
            r is Some && r->0@ == decimal_text(this.switch_count as nat)
        } else {
            r is None
        }
        &&& r is Some ==> r->0.wf()
    }

    /// The number of inputs under the name `inputs`, the input that is passed
    /// on, counted from one, under the name `current`, and the number of
    /// moves under the name `count`.
    pub fn get_param(&self, name: &str) -> (r: Option<Number>)
        requires
            self.wf(),
        ensures
            Self::param_got(*self, name@, r),
    {
        let v = chars_of(name);
        if is_text(&v, "inputs") {
            Some(Number::whole(self.input_count))
        } else if is_text(&v, "current") {
            Some(Number::whole(self.current_input + 1))
        } else if is_text(&v, "count") {
            Some(Number::whole(self.switch_count))
        } else {
            None
        }
    }
}

/// A clock divider: after every `division` clock edges its output changes.
#[derive(Debug)]
pub struct GraphClockDiv {
    pub division: usize,
    pub counter: usize,
    pub last_clock: Level,
    pub output_state: bool,
}

/// What the clock divider puts out at one sample.
pub struct ClockOutput {
    /// The divided clock.
    pub out: bool,
    /// Whether the divided clock changed at this sample.
    pub gate: bool,
}

impl GraphClockDiv {
    /// The division is one at least, and the counter stays below it.
    pub open spec fn wf(&self) -> bool {
        self.division >= 1 && self.counter < self.division
    }

    /// Tests whether the divider is valid.
    pub fn is_valid(&self) -> (r: bool)
        ensures
            r == self.wf(),
    {
        self.division >= 1 && self.counter < self.division
    }

    /// A divider by `division`, by one at least.
    pub fn new(division: usize) -> (r: Self)
        ensures
            r.wf(),
            r.division == if division < 1 {
                1
            } else {
                division
            },
            r.counter == 0,
            !r.output_state,
            r.last_clock == Level::Low,
    {
        GraphClockDiv {
            division: if division < 1 {
                1
            } else {
                division
            },
            counter: 0,
            last_clock: Level::Low,
            output_state: false,
        }
    }

    /// Sets the division, one at least, and begins to count again.
    pub fn set_division(&mut self, division: usize)
        ensures
            final(self).wf(),
            final(self).division == if division < 1 {
                1
            } else {
                division
            },
            final(self).counter == 0,
            final(self).output_state == old(self).output_state,
            final(self).last_clock == old(self).last_clock,
    {
        self.division = if division < 1 {
            1
        } else {
            division
        };
        self.counter = 0;
    }

    /// Whether the count of edges is full at a sample with the given clock
    /// and reset.
    pub open spec fn is_full(&self, clock: Level, reset: bool) -> bool {
        let counted = if reset {
            0
        } else {
            self.counter as int
        };
        rose(clock, self.last_clock) && counted + 1 >= self.division
    }

    /// Works one sample: a reset clears counter and output, a clock edge is
    /// counted, and the `division`-th edge changes the output.
    pub fn step(&mut self, clock: Level, reset: bool) -> (r: ClockOutput)
        requires
            old(self).wf(),
        ensures
            final(self).wf(),
            final(self).division == old(self).division,
            final(self).last_clock == clock,
            final(self).counter == if old(self).is_full(clock, reset) {
                0
            } else if rose(clock, old(self).last_clock) {
                if reset {
                    1
                } else {
                    old(self).counter + 1
                }
            } else if reset {
                0
            } else {
                old(self).counter as int
            },
            final(self).output_state == ((!reset && old(self).output_state) != old(self).is_full(
                clock,
                reset,
            )),
            r.out == final(self).output_state,
            r.gate == old(self).is_full(clock, reset),
    {
        if reset {
            self.counter = 0;
            self.output_state = false;
        }
        let edge = rising(clock, self.last_clock);
        if edge {
            self.counter = self.counter + 1;
            if self.counter >= self.division {
                self.counter = 0;
                self.output_state = !self.output_state;
            }
        }
        self.last_clock = clock;
        ClockOutput { out: self.output_state, gate: edge && self.counter == 0 }
    }

    /// Whether `name` names the division.
    pub open spec fn is_division(name: Seq<char>) -> bool {
        name == "division"@ || name == "div"@
    }

    /// Whether the module `after` and the outcome `r` are what setting the
    /// parameter `name` to `value` makes of the module `before`.
    pub open spec fn param_set(
        before: Self,
        after: Self,
        name: Seq<char>,
        value: Seq<char>,
        r: Result<(), ParamError>,
    ) -> bool {
        &&& after.wf()
        &&& after.last_clock == before.last_clock
        &&& if Self::is_division(name) {
            &&& r is Ok
            &&& after.division == if count_of(value) < 1 {
                1
            } else {
                count_of(value)
            }
            &&& after.counter == 0
            &&& after.output_state == before.output_state
        } else if name == "reset"@ {
            &&& r is Ok
            &&& after.division == before.division
            &&& after.counter == if above_half(value) {
                0
            } else {
                before.counter
            }
            &&& after.output_state == (!above_half(value) && before.output_state)
        } else {
            &&& after == before
            &&& r is Err
            &&& r->Err_0 is Unknown
            &&& r->Err_0->Unknown_name@ == name
        }
    }

    /// Sets the division, under the name `division` or `div`, or clears
    /// counter and output, under the name `reset` with a value above one half.
    pub fn set_param(&mut self, name: &str, value: &Number) -> (r: Result<(), ParamError>)
        requires
            old(self).wf(),
            value.wf(),
        ensures
            Self::param_set(*old(self), *final(self), name@, value@, r),
    {
        let v = chars_of(name);
        if is_text(&v, "division") || is_text(&v, "div") {
            self.set_division(value.truncated());
            Ok(())
        } else if is_text(&v, "reset") {
            if value.exceeds_half() {
                self.counter = 0;
                self.output_state = false;
            }
            Ok(())
        } else {
            Err(unknown_parameter(name))
        }
    }

    /// Whether `r` is the parameter `name` of the module `this`.
    pub open spec fn param_got(this: Self, name: Seq<char>, r: Option<Number>) -> bool {
        &&& if Self::is_division(name) {
            r is Some && r->0@ == decimal_text(this.division as nat)
        } else if name == "counter"@ {
            r is Some && r->0@ == decimal_text(this.counter as nat)
        } else {
            r is None
        }
        &&& r is Some ==> r->0.wf()
    }

    /// The division under the name `division` or `div`, and the count of
    /// edges under the name `counter`.
    pub fn get_param(&self, name: &str) -> (r: Option<Number>)
        ensures
            Self::param_got(*self, name@, r),
    {
        let v = chars_of(name);
        if is_text(&v, "division") || is_text(&v, "div") {
            Some(Number::whole(self.division))
        } else if is_text(&v, "counter") {
            Some(Number::whole(self.counter))
        } else {
            None
        }
    }
}

/// An eight-step sequencer: a value and a gate switch for each step, and the
/// step it stands at.
#[derive(Debug)]
pub struct GraphSeq8 {
    pub steps: Vec<Number>,
    pub gates: Vec<bool>,
    pub current_step: usize,
    pub last_clock: Level,
    pub last_reverse: Level,
    pub clock_count: usize,
    pub gate_length: Number,
    pub samples_since_clock: usize,
    pub forward_direction: bool,
    pub sequence_length: usize,
}

/// What the sequencer puts out at one sample.
pub struct SequencerOutput {
    /// The step that the sequencer stands at, counted from zero.
    pub step: usize,
    /// Whether its gate output is high.
    pub gate: bool,
}

/// Which parameter of the sequencer a name stands for.
pub enum SequencerParam {
    /// The number of steps in use.
    Length,
    /// The length of a gate in seconds.
    GateLength,
    /// The value of the step with this index, counted from zero.
    Step(usize),
    /// Whether the step with this index, counted from zero, opens a gate.
    Gate(usize),
    /// None.
    Unknown,
}

/// The step, counted from zero, that the digits behind a name stand for.
pub open spec fn step_index(rest: Option<Seq<char>>) -> Option<usize> {
    match rest {
        Some(digits) => match usize_of(digits) {
            Some(n) => if 1 <= n <= 8 {
                Some((n - 1) as usize)
            } else {
                None
            },
            None => None,
        },
        None => None,
    }
}

/// Which parameter of the sequencer the name `name` stands for.
pub open spec fn sequencer_param(name: Seq<char>) -> SequencerParam {
    if name == "length"@ {
        SequencerParam::Length
    } else if name == "gate_length"@ {
        SequencerParam::GateLength
    } else {
        match step_index(strip_prefix(name, "step"@)) {
            Some(i) => SequencerParam::Step(i),
            None => match step_index(strip_prefix(name, "gate"@)) {
                Some(i) => SequencerParam::Gate(i),
                None => SequencerParam::Unknown,
            },
        }
    }
}

/// Reads the step, counted from zero, that the digits behind a name stand for.
fn read_step_index(rest: Option<Vec<char>>) -> (r: Option<usize>)
    ensures
        r == step_index(
            match rest {
                Some(v) => Some(v@),
                None => None,
            },
        ),
        r is Some ==> r->0 < 8,
{
    match rest {
        Some(digits) => match read_usize(&digits) {
            Some(n) => if 1 <= n && n <= 8 {
                Some(n - 1)
            } else {
                None
            },
            None => None,
        },
        None => None,
    }
}

impl GraphSeq8 {
    /// Eight steps, one to eight of them in use, and the sequencer stands at
    /// one of the eight.
    pub open spec fn wf(&self) -> bool {
        &&& self.steps.len() == 8
        &&& self.gates.len() == 8
        &&& self.current_step < 8
        &&& 1 <= self.sequence_length <= 8
        &&& self.gate_length.wf()
        &&& forall|i: int| 0 <= i < 8 ==> (#[trigger] self.steps[i]).wf()
    }

    /// Tests whether the sequencer is valid.
    pub fn is_valid(&self) -> (r: bool)
        ensures
            r == self.wf(),
    {
        if self.steps.len() != 8 || self.gates.len() != 8 || self.current_step >= 8
            || self.sequence_length < 1 || self.sequence_length > 8 || !self.gate_length.is_valid() {
            return false;
        }
        let mut i: usize = 0;
        while i < 8
            invariant
                i <= 8,
                self.steps.len() == 8,
                forall|k: int| 0 <= k < i ==> (#[trigger] self.steps[k]).wf(),
            decreases 8 - i,
        {
            if !self.steps[i].is_valid() {
                return false;
            }
            i += 1;
        }
        true
    }

    /// Whether the sequencer is as it is made: it stands at its first step
    /// and moves forward, the steps rise by tenths from 0, every gate is
    /// switched on, all eight steps are in use, and a gate lasts a tenth of
    /// a second.
    pub open spec fn is_fresh(&self) -> bool {
        &&& self.wf()
        &&& self.current_step == 0
        &&& self.sequence_length == 8
        &&& self.forward_direction
        &&& self.clock_count == 0
        &&& self.samples_since_clock == 0
        &&& self.last_clock == Level::Low
        &&& self.last_reverse == Level::Low
        &&& self.gate_length@ == seq!['0', '.'] + decimal_text(1)
        &&& forall|i: int| 0 <= i < 8 ==> self.gates[i]
        &&& forall|i: int|
            0 <= i < 8 ==> (#[trigger] self.steps[i])@ == seq!['0', '.'] + decimal_text(i as nat)
    }

    /// A sequencer that stands at its first step and moves forward: the steps
    /// rise by tenths from 0, every gate is switched on, all eight steps are
    /// in use, and a gate lasts a tenth of a second.
    pub fn new() -> (r: Self)
        ensures
            r.is_fresh(),
            r.wf(),
            r.current_step == 0,
            r.sequence_length == 8,
            r.forward_direction,
            r.clock_count == 0,
            r.samples_since_clock == 0,
            r.last_clock == Level::Low,
            r.last_reverse == Level::Low,
            r.gate_length@ == seq!['0', '.'] + decimal_text(1),
            forall|i: int| 0 <= i < 8 ==> r.gates[i],
            forall|i: int|
                0 <= i < 8 ==> (#[trigger] r.steps[i])@ == seq!['0', '.'] + decimal_text(i as nat),
    {
        let mut steps: Vec<Number> = Vec::new();
        let mut gates: Vec<bool> = Vec::new();
        let mut i: usize = 0;
        while i < 8
            invariant
                i <= 8,
                steps.len() == i,
                gates.len() == i,
                forall|k: int| 0 <= k < i ==> gates[k],
                forall|k: int|
                    0 <= k < i ==> (#[trigger] steps[k])@ == seq!['0', '.'] + decimal_text(k as nat)
                        && steps[k].wf(),
            decreases 8 - i,
        {
            steps.push(Number::tenths(i));
            gates.push(true);
            i += 1;
        }
        GraphSeq8 {
            steps,
            gates,
            current_step: 0,
            last_clock: Level::Low,
            last_reverse: Level::Low,
            clock_count: 0,
            gate_length: Number::tenths(1),
            samples_since_clock: 0,
            forward_direction: true,
            sequence_length: 8,
        }
    }

    /// The direction after a sample with the given reset and reverse.
    pub open spec fn next_direction(&self, reset: bool, reverse: Level) -> bool {
        let before = reset || self.forward_direction;
        if rose(reverse, self.last_reverse) {
            !before
        } else {
            before
        }
    }

    /// The step after a sample with the given clock, reset and reverse.
    pub open spec fn next_step(&self, clock: Level, reset: bool, reverse: Level) -> usize {
        let from = if reset {
            0
        } else {
            self.current_step
        };
        if !rose(clock, self.last_clock) {
            from
        } else if self.next_direction(reset, reverse) {
            ((from + 1) % self.sequence_length as int) as usize
        } else if from == 0 {
            (self.sequence_length - 1) as usize
        } else {
            (from - 1) as usize
        }
    }

    /// The number of samples since the last clock edge, counted at a sample
    /// with the given clock and reset.
    pub open spec fn samples_at(&self, clock: Level, reset: bool) -> usize {
        if reset || rose(clock, self.last_clock) {
            0
        } else {
            self.samples_since_clock
        }
    }

    /// Works one sample. A reset goes back to the first step and to the
    /// forward direction; an edge on `reverse` turns the direction round; an
    /// edge on `clock` moves one step on in that direction, round the steps
    /// in use. Its gate output is high while a gate for the step is switched
    /// on in `enables` and fewer than `gate_samples` samples have passed
    /// since the last clock edge.
    pub fn step(
        &mut self,
        clock: Level,
        reset: bool,
        reverse: Level,
        gate_samples: usize,
        enables: &Vec<bool>,
    ) -> (r: SequencerOutput)
        requires
            old(self).wf(),
            enables.len() == 8,
        ensures
            final(self).wf(),
            final(self).steps == old(self).steps,
            final(self).gates == old(self).gates,
            final(self).gate_length == old(self).gate_length,
            final(self).sequence_length == old(self).sequence_length,
            final(self).current_step == old(self).next_step(clock, reset, reverse),
            final(self).forward_direction == old(self).next_direction(reset, reverse),
            final(self).last_clock == clock,
            final(self).last_reverse == reverse,
            final(self).samples_since_clock == next_count(old(self).samples_at(clock, reset)),
            final(self).clock_count == if rose(clock, old(self).last_clock) {
                next_count(
                    if reset {
                        0
                    } else {
                        old(self).clock_count
                    },
                )
            } else if reset {
                0
            } else {
                old(self).clock_count
            },
            r.step == final(self).current_step,
            r.gate == (enables[r.step as int] && old(self).samples_at(clock, reset) < gate_samples),
    {
        if reset {
            self.current_step = 0;
            self.samples_since_clock = 0;
            self.clock_count = 0;
            self.forward_direction = true;
        }
        if rising(reverse, self.last_reverse) {
            self.forward_direction = !self.forward_direction;
        }
        if rising(clock, self.last_clock) {
            if self.forward_direction {
                self.current_step = (self.current_step + 1) % self.sequence_length;
            } else if self.current_step == 0 {
                self.current_step = self.sequence_length - 1;
            } else {
                self.current_step = self.current_step - 1;
            }
            self.samples_since_clock = 0;
            self.clock_count = count_up(self.clock_count);
        }
        let gate = enables[self.current_step] && self.samples_since_clock < gate_samples;
        self.last_clock = clock;
        self.last_reverse = reverse;
        self.samples_since_clock = count_up(self.samples_since_clock);
        SequencerOutput { step: self.current_step, gate }
    }

    /// Finds the parameter that a name stands for.
    pub fn param(name: &str) -> (r: SequencerParam)
        ensures
            r == sequencer_param(name@),
            match r {
                SequencerParam::Step(i) => i < 8,
                SequencerParam::Gate(i) => i < 8,
                _ => true,
            },
    {
        let v = chars_of(name);
        if is_text(&v, "length") {
            return SequencerParam::Length;
        }
        if is_text(&v, "gate_length") {
            return SequencerParam::GateLength;
        }
        match read_step_index(without_prefix(&v, "step")) {
            Some(i) => SequencerParam::Step(i),
            None => match read_step_index(without_prefix(&v, "gate")) {
                Some(i) => SequencerParam::Gate(i),
                None => SequencerParam::Unknown,
            },
        }
    }

    /// Whether the module `after` and the outcome `r` are what setting the
    /// parameter `name` to `value` makes of the module `before`.
    pub open spec fn param_set(
        before: Self,
        after: Self,
        name: Seq<char>,
        value: Seq<char>,
        r: Result<(), ParamError>,
    ) -> bool {
        &&& after.wf()
        &&& after.current_step == before.current_step
        &&& after.last_clock == before.last_clock
        &&& after.last_reverse == before.last_reverse
        &&& after.clock_count == before.clock_count
        &&& after.samples_since_clock == before.samples_since_clock
        &&& after.forward_direction == before.forward_direction
        &&& match sequencer_param(name) {
            SequencerParam::Length => {
                &&& r is Ok
                &&& after.sequence_length == clamped(count_of(value), 1, 8)
                &&& after.steps == before.steps
                &&& after.gates == before.gates
                &&& after.gate_length == before.gate_length
            },
            SequencerParam::GateLength => {
                &&& r is Ok
                &&& after.gate_length@ == crate::reading::raised_to_thousandth(value)
                &&& after.sequence_length == before.sequence_length
                &&& after.steps == before.steps
                &&& after.gates == before.gates
            },
            SequencerParam::Step(i) => {
                &&& r is Ok
                &&& after.steps[i as int]@ == value
                &&& forall|k: int|
                    0 <= k < 8 && k != i ==> after.steps[k] == before.steps[k]
                &&& after.sequence_length == before.sequence_length
                &&& after.gates == before.gates
                &&& after.gate_length == before.gate_length
            },
            SequencerParam::Gate(i) => {
                &&& r is Ok
                &&& after.gates@ == before.gates@.update(i as int, above_half(value))
                &&& after.sequence_length == before.sequence_length
                &&& after.steps == before.steps
                &&& after.gate_length == before.gate_length
            },
            SequencerParam::Unknown => {
                &&& after == before
                &&& r is Err
                &&& r->Err_0 is Unknown
                &&& r->Err_0->Unknown_name@ == name
            },
        }
    }

    /// Sets the number of steps in use, held between one and eight, under
    /// the name `length`; the length of a gate, one thousandth of a second
    /// at least, under `gate_length`; the value
    /// of the step `n` under `step` followed by `n`; and a gate switch for
    /// the step `n`, on for a value above one half, under `gate` followed by
    /// `n`, for `n` from one to eight.
    pub fn set_param(&mut self, name: &str, value: &Number) -> (r: Result<(), ParamError>)
        requires
            old(self).wf(),
            value.wf(),
        ensures
            Self::param_set(*old(self), *final(self), name@, value@, r),
    {
        match Self::param(name) {
            SequencerParam::Length => {
                self.sequence_length = clamp(value.truncated(), 1, 8);
                Ok(())
            },
            SequencerParam::GateLength => {
                self.gate_length = value.raised_to_thousandth();
                Ok(())
            },
            SequencerParam::Step(i) => {
                self.steps.set(i, value.clone());
                Ok(())
            },
            SequencerParam::Gate(i) => {
                self.gates.set(i, value.exceeds_half());
                Ok(())
            },
            SequencerParam::Unknown => Err(unknown_parameter(name)),
        }
    }

    /// Whether `r` is the parameter `name` of the module `this`.
    pub open spec fn param_got(this: Self, name: Seq<char>, r: Option<Number>) -> bool {
        &&& match sequencer_param(name) {
            SequencerParam::Length => r is Some && r->0@ == decimal_text(
                this.sequence_length as nat,
            ),
            SequencerParam::GateLength => r is Some && r->0@ == this.gate_length@,
            SequencerParam::Step(i) => r is Some && r->0@ == this.steps[i as int]@,
            SequencerParam::Gate(i) => r is Some && r->0@ == if this.gates[i as int] {
                "1"@
            } else {
                "0"@
            },
            SequencerParam::Unknown => r is None,
        }
    }

    /// The parameter that a name stands for: the number of steps in use, the
    /// length of a gate, the value of a step, or 1 or 0 for a gate switch.
    pub fn get_param(&self, name: &str) -> (r: Option<Number>)
        requires
            self.wf(),
        ensures
            Self::param_got(*self, name@, r),
    {
        match Self::param(name) {
            SequencerParam::Length => Some(Number::whole(self.sequence_length)),
            SequencerParam::GateLength => Some(self.gate_length.clone()),
            SequencerParam::Step(i) => Some(self.steps[i].clone()),
            SequencerParam::Gate(i) => if self.gates[i] {
                Some(Number::one())
            } else {
                Some(Number::zero())
            },
            SequencerParam::Unknown => None,
        }
    }

    /// Which steps open a gate in a block: as the sequencer has it, each
    /// replaced by what is connected to its input, where something is.
    pub fn gate_enables(&self, connected: &Vec<Option<bool>>) -> (r: Vec<bool>)
        requires
            self.wf(),
            connected.len() == 8,
        ensures
            r.len() == 8,
            forall|i: int|
                0 <= i < 8 ==> r[i] == match connected[i] {
                    Some(on) => on,
                    None => self.gates[i],
                },
    {
        let mut enables: Vec<bool> = Vec::new();
        let mut i: usize = 0;
        while i < 8
            invariant
                i <= 8,
                enables.len() == i,
                self.gates.len() == 8,
                connected.len() == 8,
                forall|k: int|
                    0 <= k < i ==> enables[k] == match connected[k] {
                        Some(on) => on,
                        None => self.gates[k],
                    },
            decreases 8 - i,
        {
            enables.push(
                match connected[i] {
                    Some(on) => on,
                    None => self.gates[i],
                },
            );
            i += 1;
        }
        enables
    }
}

impl Default for GraphSeq8 {
    fn default() -> (r: Self)
        ensures
            r.wf(),
            r.current_step == 0,
            r.sequence_length == 8,
    {
        Self::new()
    }
}

} // verus!
