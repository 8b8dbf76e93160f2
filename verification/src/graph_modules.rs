//! The parts of the module library that decide rather than compute: switches,
//! counters, phases and gates. The samples themselves are worked on outside.

use vstd::prelude::*;
use vstd::string::StringExecFns;
use crate::number::{decimal_digits, decimal_text, read_usize, usize_of, Number};
use crate::reading::{above_half, whole_part};
use crate::text::{chars_of, is_text, string_from, strip_prefix, without_prefix};

verus! {

/// Why a parameter was not set.
#[derive(Debug)]
pub enum ParamError {
    /// The module has no parameter of that name.
    Unknown { name: String },
    /// The module has no parameters at all.
    NoParameters { module: String },
    /// A level of the mixer was named by an index that it does not have.
    InvalidLevelIndex { index: usize },
    /// A level of the mixer was named without an index.
    InvalidLevelParameter { name: String },
    /// A shape of the envelope was given a code that stands for none.
    InvalidShape { stage: String, value: String },
}

impl ParamError {
    /// The text of the error.
    pub open spec fn text(&self) -> Seq<char> {
        match self {
            ParamError::Unknown { name } => "Unknown parameter: "@ + name@,
            ParamError::NoParameters { module } => module@ + " module has no parameters"@,
            ParamError::InvalidLevelIndex { index } => "Invalid level index: "@ + decimal_text(
                *index as nat,
            ),
            ParamError::InvalidLevelParameter { name } => "Invalid level parameter: "@ + name@,
            ParamError::InvalidShape { stage, value } => "Invalid "@ + stage@ + " shape: "@
                + value@ + " (0=linear, 1=exp, 2=log)"@,
        }
    }

    /// The text shown to the user.
    pub fn message(&self) -> (r: String)
        ensures
            r@ == self.text(),
    {
        match self {
            ParamError::Unknown { name } => String::from_str("Unknown parameter: ").concat(
                name.as_str(),
            ),
            ParamError::NoParameters { module } => module.clone().concat(
                " module has no parameters",
            ),
            ParamError::InvalidLevelIndex { index } => String::from_str(
                "Invalid level index: ",
            ).concat(string_from(&decimal_digits(*index)).as_str()),
            ParamError::InvalidLevelParameter { name } => String::from_str(
                "Invalid level parameter: ",
            ).concat(name.as_str()),
            ParamError::InvalidShape { stage, value } => String::from_str("Invalid ").concat(
                stage.as_str(),
            ).concat(" shape: ").concat(value.as_str()).concat(" (0=linear, 1=exp, 2=log)"),
        }
    }
}

/// The error for a parameter that a module does not have.
pub fn unknown_parameter(name: &str) -> (r: ParamError)
    ensures
        r == (ParamError::Unknown { name: r->Unknown_name }),
        r is Unknown,
        r->Unknown_name@ == name@,
{
    ParamError::Unknown { name: String::from_str(name) }
}

/// An oscillator: its base frequency in Hz.
#[derive(Debug)]
pub struct GraphOscillator {
    pub frequency: Number,
}

impl GraphOscillator {
    /// An oscillator with the given base frequency.
    pub fn new(frequency: Number) -> (r: Self)
        ensures
            r.frequency@ == frequency@,
    {
        GraphOscillator { frequency }
    }

    /// Whether `name` names the frequency.
    pub open spec fn knows(name: Seq<char>) -> bool {
        name == "frequency"@ || name == "freq"@
    }

    /// Whether the module `after` and the outcome `r` are what setting the
    /// parameter `name` to `value` makes of the module `before`.
    pub open spec fn param_set(
        before: Self,
        after: Self,
        name: Seq<char>,
        value: Seq<char>,
        r: Result<(), ParamError>,
    ) -> bool {
        &&& match r {
            Ok(_) => Self::knows(name) && after.frequency@ == value,
            Err(e) => !Self::knows(name) && after == before && e is Unknown
                && e->Unknown_name@ == name,
        }
    }

    /// Sets the base frequency, under the name `frequency` or `freq`.
    pub fn set_param(&mut self, name: &str, value: &Number) -> (r: Result<(), ParamError>)
        ensures
            Self::param_set(*old(self), *final(self), name@, value@, r),
    {
        let v = chars_of(name);
        if is_text(&v, "frequency") || is_text(&v, "freq") {
            self.frequency = value.clone();
            Ok(())
        } else {
            Err(unknown_parameter(name))
        }
    }

    /// Whether `r` is the parameter `name` of the module `this`.
    pub open spec fn param_got(this: Self, name: Seq<char>, r: Option<Number>) -> bool {
        &&& match r {
            Some(v) => Self::knows(name) && v@ == this.frequency@,
            None => !Self::knows(name),
        }
    }

    /// The base frequency, under the name `frequency` or `freq`.
    pub fn get_param(&self, name: &str) -> (r: Option<Number>)
        ensures
            Self::param_got(*self, name@, r),
    {
        let v = chars_of(name);
        if is_text(&v, "frequency") || is_text(&v, "freq") {
            Some(self.frequency.clone())
        } else {
            None
        }
    }
}

/// A voltage-controlled amplifier: its gain.
#[derive(Debug)]
pub struct GraphVca {
    pub gain: Number,
}

impl GraphVca {
    /// An amplifier with the given gain.
    pub fn new(gain: Number) -> (r: Self)
        ensures
            r.gain@ == gain@,
    {
        GraphVca { gain }
    }

    /// Whether the module `after` and the outcome `r` are what setting the
    /// parameter `name` to `value` makes of the module `before`.
    pub open spec fn param_set(
        before: Self,
        after: Self,
        name: Seq<char>,
        value: Seq<char>,
        r: Result<(), ParamError>,
    ) -> bool {
        &&& match r {
            Ok(_) => name == "gain"@ && after.gain@ == value,
            Err(e) => name != "gain"@ && after == before && e is Unknown
                && e->Unknown_name@ == name,
        }
    }

    /// Sets the gain, under the name `gain`.
    pub fn set_param(&mut self, name: &str, value: &Number) -> (r: Result<(), ParamError>)
        ensures
            Self::param_set(*old(self), *final(self), name@, value@, r),
    {
        if is_text(&chars_of(name), "gain") {
            self.gain = value.clone();
            Ok(())
        } else {
            Err(unknown_parameter(name))
        }
    }

    /// Whether `r` is the parameter `name` of the module `this`.
    pub open spec fn param_got(this: Self, name: Seq<char>, r: Option<Number>) -> bool {
        &&& match r {
            Some(v) => name == "gain"@ && v@ == this.gain@,
            None => name != "gain"@,
        }
    }

    /// The gain, under the name `gain`.
    pub fn get_param(&self, name: &str) -> (r: Option<Number>)
        ensures
            Self::param_got(*self, name@, r),
    {
        if is_text(&chars_of(name), "gain") {
            Some(self.gain.clone())
        } else {
            None
        }
    }
}

/// A low-pass filter: its cutoff in Hz and its resonance.
#[derive(Debug)]
pub struct GraphFilter {
    pub cutoff: Number,
    pub resonance: Number,
}

impl GraphFilter {
    /// A filter with the given cutoff and resonance.
    pub fn new(cutoff: Number, resonance: Number) -> (r: Self)
        ensures
            r.cutoff@ == cutoff@,
            r.resonance@ == resonance@,
    {
        GraphFilter { cutoff, resonance }
    }

    /// Whether `name` names the resonance.
    pub open spec fn is_resonance(name: Seq<char>) -> bool {
        name == "resonance"@ || name == "res"@
    }

    /// Whether the module `after` and the outcome `r` are what setting the
    /// parameter `name` to `value` makes of the module `before`.
    pub open spec fn param_set(
        before: Self,
        after: Self,
        name: Seq<char>,
        value: Seq<char>,
        r: Result<(), ParamError>,
    ) -> bool {
        &&& match r {
            Ok(_) => if name == "cutoff"@ {
                after.cutoff@ == value && after.resonance == before.resonance
            } else {
                Self::is_resonance(name) && after.resonance@ == value && after.cutoff == before.cutoff
            },
            Err(e) => name != "cutoff"@ && !Self::is_resonance(name) && after == before
                && e is Unknown && e->Unknown_name@ == name,
        }
    }

    /// Sets the cutoff, under the name `cutoff`, or the resonance, under the
    /// name `resonance` or `res`.
    pub fn set_param(&mut self, name: &str, value: &Number) -> (r: Result<(), ParamError>)
        ensures
            Self::param_set(*old(self), *final(self), name@, value@, r),
    {
        let v = chars_of(name);
        if is_text(&v, "cutoff") {
            self.cutoff = value.clone();
            Ok(())
        } else if is_text(&v, "resonance") || is_text(&v, "res") {
            self.resonance = value.clone();
            Ok(())
        } else {
            Err(unknown_parameter(name))
        }
    }

    /// Whether `r` is the parameter `name` of the module `this`.
    pub open spec fn param_got(this: Self, name: Seq<char>, r: Option<Number>) -> bool {
        &&& match r {
            Some(v) => if name == "cutoff"@ {
                v@ == this.cutoff@
            } else {
                Self::is_resonance(name) && v@ == this.resonance@
            },
            None => name != "cutoff"@ && !Self::is_resonance(name),
        }
    }

    /// The cutoff or the resonance, by name.
    pub fn get_param(&self, name: &str) -> (r: Option<Number>)
        ensures
            Self::param_got(*self, name@, r),
    {
        let v = chars_of(name);
        if is_text(&v, "cutoff") {
            Some(self.cutoff.clone())
        } else if is_text(&v, "resonance") || is_text(&v, "res") {
            Some(self.resonance.clone())
        } else {
            None
        }
    }
}

/// A low-frequency oscillator: its frequency in Hz.
#[derive(Debug)]
pub struct GraphLfo {
    pub frequency: Number,
}

impl GraphLfo {
    /// A low-frequency oscillator with the given frequency.
    pub fn new(frequency: Number) -> (r: Self)
        ensures
            r.frequency@ == frequency@,
    {
        GraphLfo { frequency }
    }

    /// Whether the module `after` and the outcome `r` are what setting the
    /// parameter `name` to `value` makes of the module `before`.
    pub open spec fn param_set(
        before: Self,
        after: Self,
        name: Seq<char>,
        value: Seq<char>,
        r: Result<(), ParamError>,
    ) -> bool {
        &&& match r {
            Ok(_) => GraphOscillator::knows(name) && after.frequency@ == value,
            Err(e) => !GraphOscillator::knows(name) && after == before
                && e is Unknown && e->Unknown_name@ == name,
        }
    }

    /// Sets the frequency, under the name `frequency` or `freq`.
    pub fn set_param(&mut self, name: &str, value: &Number) -> (r: Result<(), ParamError>)
        ensures
            Self::param_set(*old(self), *final(self), name@, value@, r),
    {
        let v = chars_of(name);
        if is_text(&v, "frequency") || is_text(&v, "freq") {
            self.frequency = value.clone();
            Ok(())
        } else {
            Err(unknown_parameter(name))
        }
    }

    /// Whether `r` is the parameter `name` of the module `this`.
    pub open spec fn param_got(this: Self, name: Seq<char>, r: Option<Number>) -> bool {
        &&& match r {
            Some(v) => GraphOscillator::knows(name) && v@ == this.frequency@,
            None => !GraphOscillator::knows(name),
        }
    }

    /// The frequency, under the name `frequency` or `freq`.
    pub fn get_param(&self, name: &str) -> (r: Option<Number>)
        ensures
            Self::param_got(*self, name@, r),
    {
        let v = chars_of(name);
        if is_text(&v, "frequency") || is_text(&v, "freq") {
            Some(self.frequency.clone())
        } else {
            None
        }
    }
}

/// A sample held against a threshold: above it, not above it, or neither
/// (a sample that is no number).
#[derive(Debug, Clone, Copy, PartialEq, Eq, Structural)]
pub enum Level {
    Low,
    High,
    Undefined,
}

/// A gate that is switched from outside the graph.
#[derive(Debug)]
pub struct GraphManualGate {
    pub gate_on: bool,
}

impl GraphManualGate {
    /// A gate that is off.
    pub fn new() -> (r: Self)
        ensures
            !r.gate_on,
    {
        GraphManualGate { gate_on: false }
    }

    /// Switches this gate on or off.
    pub fn set_gate(&mut self, on: bool)
        ensures
            final(self).gate_on == on,
    {
        self.gate_on = on;
    }

    /// Whether the outputs `gate` and `trig` are high.
    pub fn is_on(&self) -> (r: bool)
        ensures
            r == self.gate_on,
    {
        self.gate_on
    }

    /// Whether the module `after` and the outcome `r` are what setting the
    /// parameter `name` to `value` makes of the module `before`.
    pub open spec fn param_set(
        before: Self,
        after: Self,
        name: Seq<char>,
        value: Seq<char>,
        r: Result<(), ParamError>,
    ) -> bool {
        &&& match r {
            Ok(_) => name == "gate"@ && after.gate_on == above_half(value),
            Err(e) => name != "gate"@ && after == before && e is Unknown
                && e->Unknown_name@ == name,
        }
    }

    /// Switches this gate by the parameter `gate`: on for a value above one half.
    pub fn set_param(&mut self, name: &str, value: &Number) -> (r: Result<(), ParamError>)
        requires
            value.wf(),
        ensures
            Self::param_set(*old(self), *final(self), name@, value@, r),
    {
        if is_text(&chars_of(name), "gate") {
            self.gate_on = value.exceeds_half();
            Ok(())
        } else {
            Err(unknown_parameter(name))
        }
    }

    /// Whether `r` is the parameter `name` of the module `this`.
    pub open spec fn param_got(this: Self, name: Seq<char>, r: Option<Number>) -> bool {
        &&& match r {
            Some(v) => name == "gate"@ && v@ == if this.gate_on {
                "1"@
            } else {
                "0"@
            },
            None => name != "gate"@,
        }
    }

    /// The parameter `gate`: 1 while this gate is on, else 0.
    pub fn get_param(&self, name: &str) -> (r: Option<Number>)
        ensures
            Self::param_got(*self, name@, r),
    {
        if is_text(&chars_of(name), "gate") {
            if self.gate_on {
                Some(Number::one())
            } else {
                Some(Number::zero())
            }
        } else {
            None
        }
    }
}

impl Default for GraphManualGate {
    fn default() -> (r: Self)
        ensures
            !r.gate_on,
    {
        Self::new()
    }
}

/// Where the two channels of the stereo output take a sample from.
#[derive(Debug, Clone, Copy, PartialEq, Eq, Structural)]
pub enum StereoRouting {
    /// Both channels take the mono input.
    MonoToBoth,
    /// Both channels take the left input.
    LeftToBoth,
    /// Each channel takes its own input.
    Separate,
}

/// The stereo output: it knows which of its sides were ever connected.
#[derive(Debug)]
pub struct GraphStereoOutput {
    pub left_connected: bool,
    pub right_connected: bool,
}

impl GraphStereoOutput {
    /// An output with neither side connected.
    pub fn new() -> (r: Self)
        ensures
            !r.left_connected,
            !r.right_connected,
    {
        GraphStereoOutput { left_connected: false, right_connected: false }
    }

    /// Records whether the left side is connected.
    pub fn set_left_connected(&mut self, connected: bool)
        ensures
            final(self).left_connected == connected,
            final(self).right_connected == old(self).right_connected,
    {
        self.left_connected = connected;
    }

    /// Records whether the right side is connected.
    pub fn set_right_connected(&mut self, connected: bool)
        ensures
            final(self).right_connected == connected,
            final(self).left_connected == old(self).left_connected,
    {
        self.right_connected = connected;
    }

    /// Where the channels take a sample from, given whether the mono input
    /// is driven at that sample.
    pub open spec fn routing(&self, mono_driven: bool) -> StereoRouting {
        if mono_driven || (!self.left_connected && !self.right_connected) {
            StereoRouting::MonoToBoth
        } else if self.left_connected && !self.right_connected {
            StereoRouting::LeftToBoth
        } else {
            StereoRouting::Separate
        }
    }

    /// Where the channels take a sample from: the mono input where it is
    /// driven or neither side is connected; the left input for both where
    /// only the left side is connected; else each its own.
    pub fn route(&self, mono_driven: bool) -> (r: StereoRouting)
        ensures
            r == self.routing(mono_driven),
    {
        if mono_driven || (!self.left_connected && !self.right_connected) {
            StereoRouting::MonoToBoth
        } else if self.left_connected && !self.right_connected {
            StereoRouting::LeftToBoth
        } else {
            StereoRouting::Separate
        }
    }
}

impl GraphStereoOutput {
    /// Whether the module `after` and the outcome `r` are what setting the
    /// parameter `name` to `value` makes of the module `before`.
    pub open spec fn param_set(
        before: Self,
        after: Self,
        name: Seq<char>,
        value: Seq<char>,
        r: Result<(), ParamError>,
    ) -> bool {
        &&& after == before
        &&& r is Err
        &&& r->Err_0 is Unknown
        &&& r->Err_0->Unknown_name@ == name
    }

    /// The stereo output has no parameters: every name is refused.
    pub fn set_param(&mut self, name: &str, value: &Number) -> (r: Result<(), ParamError>)
        ensures
            Self::param_set(*old(self), *final(self), name@, value@, r),
    {
        Err(unknown_parameter(name))
    }

    /// Whether `r` is the parameter `name` of the module `this`.
    pub open spec fn param_got(this: Self, name: Seq<char>, r: Option<Number>) -> bool {
        &&& r is None
    }

    /// The stereo output has no parameters.
    pub fn get_param(&self, name: &str) -> (r: Option<Number>)
        ensures
            Self::param_got(*self, name@, r),
    {
        None
    }
}

impl Default for GraphStereoOutput {
    fn default() -> (r: Self)
        ensures
            !r.left_connected,
            !r.right_connected,
    {
        Self::new()
    }
}

/// A multiple: one input copied to four outputs.
#[derive(Debug)]
pub struct GraphMult {}

impl GraphMult {
    /// A multiple. It has no state.
    pub fn new() -> (r: Self) {
        GraphMult {  }
    }

    /// The number of outputs that the input is copied to.
    pub fn output_count(&self) -> (r: usize)
        ensures
            r == 4,
    {
        4
    }

    /// Whether the module `after` and the outcome `r` are what setting the
    /// parameter `name` to `value` makes of the module `before`.
    pub open spec fn param_set(
        before: Self,
        after: Self,
        name: Seq<char>,
        value: Seq<char>,
        r: Result<(), ParamError>,
    ) -> bool {
        &&& after == before
        &&& r is Err
        &&& r->Err_0 is NoParameters
        &&& r->Err_0->NoParameters_module@ == "Mult"@
    }

    /// A multiple has no parameters: every name is refused.
    pub fn set_param(&mut self, name: &str, value: &Number) -> (r: Result<(), ParamError>)
        ensures
            Self::param_set(*old(self), *final(self), name@, value@, r),
    {
        Err(ParamError::NoParameters { module: String::from_str("Mult") })
    }

    /// Whether `r` is the parameter `name` of the module `this`.
    pub open spec fn param_got(this: Self, name: Seq<char>, r: Option<Number>) -> bool {
        &&& r is None
    }

    /// A multiple has no parameters.
    pub fn get_param(&self, name: &str) -> (r: Option<Number>)
        ensures
            Self::param_got(*self, name@, r),
    {
        None
    }
}

impl Default for GraphMult {
    fn default() -> Self {
        Self::new()
    }
}

/// The curve along which the slew generator moves.
#[derive(Debug, Clone, Copy, PartialEq, Eq, Structural)]
pub enum SlewCurve {
    Linear,
    Exponential,
    Logarithmic,
}

impl SlewCurve {
    /// The curve that a code stands for.
    pub open spec fn of_code(code: i32) -> SlewCurve {
        if code == 1 {
            SlewCurve::Exponential
        } else if code == 2 {
            SlewCurve::Logarithmic
        } else {
            SlewCurve::Linear
        }
    }

    /// The curve that a code stands for: 1 exponential, 2 logarithmic, any
    /// other linear.
    pub fn from_code(code: i32) -> (r: SlewCurve)
        ensures
            r == SlewCurve::of_code(code),
    {
        if code == 1 {
            SlewCurve::Exponential
        } else if code == 2 {
            SlewCurve::Logarithmic
        } else {
            SlewCurve::Linear
        }
    }

    /// The code that stands for the curve.
    pub fn code(self) -> (r: i32)
        ensures
            0 <= r <= 2,
            SlewCurve::of_code(r) == self,
    {
        match self {
            SlewCurve::Linear => 0,
            SlewCurve::Exponential => 1,
            SlewCurve::Logarithmic => 2,
        }
    }
}

/// The state of the noise generator that follows the state `s`.
pub open spec fn next_noise_state(s: u32) -> u32 {
    ((s * 1664525 + 1013904223) % 0x1_0000_0000) as u32
}

/// A whole number held to 32 bits.
pub open spec fn capped_u32(n: usize) -> u32 {
    if n > u32::MAX {
        u32::MAX
    } else {
        n as u32
    }
}

/// A noise generator: the state of its random numbers.
#[derive(Debug)]
pub struct GraphNoiseGen {
    pub rng_state: u32,
}

impl GraphNoiseGen {
    /// A noise generator with the seed 12345.
    pub fn new() -> (r: Self)
        ensures
            r.rng_state == 12345,
    {
        GraphNoiseGen { rng_state: 12345 }
    }

    /// Draws the next random number: the state times 1664525 plus
    /// 1013904223, in 32 bits.
    pub fn next_random(&mut self) -> (r: u32)
        ensures
            r == next_noise_state(old(self).rng_state),
            final(self).rng_state == r,
    {
        let wide: u64 = self.rng_state as u64 * 1664525 + 1013904223;
        self.rng_state = (wide % 0x1_0000_0000) as u32;
        self.rng_state
    }

    /// Whether the module `after` and the outcome `r` are what setting the
    /// parameter `name` to `value` makes of the module `before`.
    pub open spec fn param_set(
        before: Self,
        after: Self,
        name: Seq<char>,
        value: Seq<char>,
        r: Result<(), ParamError>,
    ) -> bool {
        &&& match r {
            Ok(_) => name == "seed"@ && after.rng_state == capped_u32(
                if (value.len() > 0 && value[0] == '-') {
                    0
                } else {
                    whole_part(value)
                },
            ),
            Err(e) => name != "seed"@ && after == before && e is Unknown
                && e->Unknown_name@ == name,
        }
    }

    /// Sets the state, under the name `seed`: the whole part of the value,
    /// zero for a value below zero.
    pub fn set_param(&mut self, name: &str, value: &Number) -> (r: Result<(), ParamError>)
        requires
            value.wf(),
        ensures
            Self::param_set(*old(self), *final(self), name@, value@, r),
    {
        if is_text(&chars_of(name), "seed") {
            let n = value.truncated();
            self.rng_state = if n > u32::MAX as usize {
                u32::MAX
            } else {
                n as u32
            };
            Ok(())
        } else {
            Err(unknown_parameter(name))
        }
    }

    /// Whether `r` is the parameter `name` of the module `this`.
    pub open spec fn param_got(this: Self, name: Seq<char>, r: Option<Number>) -> bool {
        &&& match r {
            Some(v) => name == "seed"@ && v@ == decimal_text(this.rng_state as nat),
            None => name != "seed"@,
        }
    }

    /// The state, under the name `seed`.
    pub fn get_param(&self, name: &str) -> (r: Option<Number>)
        ensures
            Self::param_got(*self, name@, r),
    {
        if is_text(&chars_of(name), "seed") {
            Some(Number::whole(self.rng_state as usize))
        } else {
            None
        }
    }
}

impl Default for GraphNoiseGen {
    fn default() -> (r: Self)
        ensures
            r.rng_state == 12345,
    {
        Self::new()
    }
}

/// A monitor that writes its input to the console from time to time.
#[derive(Debug)]
pub struct GraphVisual {
    /// The number of samples seen.
    pub sample_count: usize,
    /// After how many samples a value is written in any case.
    pub print_interval: usize,
}

impl GraphVisual {
    /// A monitor that writes ten times a second at 44100 samples a second.
    pub fn new() -> (r: Self)
        ensures
            r.sample_count == 0,
            r.print_interval == 4410,
    {
        GraphVisual { sample_count: 0, print_interval: 4410 }
    }

    /// Counts one sample and says whether it is written: where its value has
    /// changed, and at every `print_interval`-th sample.
    pub fn tick(&mut self, value_changed: bool) -> (r: bool)
        requires
            old(self).print_interval > 0,
        ensures
            r == (value_changed || old(self).sample_count % old(self).print_interval == 0),
            final(self).print_interval == old(self).print_interval,
            final(self).sample_count == if old(self).sample_count == usize::MAX {
                0
            } else {
                (old(self).sample_count + 1) as usize
            },
    {
        let due = self.sample_count % self.print_interval == 0;
        self.sample_count = if self.sample_count == usize::MAX {
            0
        } else {
            self.sample_count + 1
        };
        value_changed || due
    }

    /// Whether the module `after` and the outcome `r` are what setting the
    /// parameter `name` to `value` makes of the module `before`.
    pub open spec fn param_set(
        before: Self,
        after: Self,
        name: Seq<char>,
        value: Seq<char>,
        r: Result<(), ParamError>,
    ) -> bool {
        &&& r is Err
        &&& r->Err_0 is NoParameters
        &&& r->Err_0->NoParameters_module@ == "Visual"@
        &&& after == before
    }

    /// A monitor has no parameters: every name is refused.
    pub fn set_param(&mut self, name: &str, value: &Number) -> (r: Result<(), ParamError>)
        ensures
            Self::param_set(*old(self), *final(self), name@, value@, r),
    {
        Err(ParamError::NoParameters { module: String::from_str("Visual") })
    }

    /// Whether `r` is the parameter `name` of the module `this`.
    pub open spec fn param_got(this: Self, name: Seq<char>, r: Option<Number>) -> bool {
        &&& r is None
    }

    /// A monitor has no parameters.
    pub fn get_param(&self, name: &str) -> (r: Option<Number>)
        ensures
            Self::param_got(*self, name@, r),
    {
        None
    }
}

impl Default for GraphVisual {
    fn default() -> (r: Self)
        ensures
            r.sample_count == 0,
            r.print_interval == 4410,
    {
        Self::new()
    }
}

/// A mono mixer: the number of its inputs, a level for each, and a master level.
#[derive(Debug)]
pub struct GraphMonoMixer {
    pub input_count: usize,
    pub levels: Vec<Number>,
    pub master_level: Number,
}

/// Which parameter of the mixer a name stands for.
pub enum MixerParam {
    /// The master level.
    Master,
    /// The level of the input with this index, counted from zero.
    Level(usize),
    /// A level with an index that the mixer does not have.
    BadIndex(usize),
    /// A level without an index.
    BadLevel,
    /// None.
    Unknown,
}

/// Which parameter of a mixer with `count` inputs the name `name` stands for.
pub open spec fn mixer_param(name: Seq<char>, count: usize) -> MixerParam {
    if name == "master"@ {
        MixerParam::Master
    } else {
        match strip_prefix(name, "level"@) {
            Some(rest) => match usize_of(rest) {
                Some(index) => if 0 < index <= count {
                    MixerParam::Level((index - 1) as usize)
                } else {
                    MixerParam::BadIndex(index)
                },
                None => MixerParam::BadLevel,
            },
            None => MixerParam::Unknown,
        }
    }
}

impl GraphMonoMixer {
    /// There is one level for each input, each written as a number.
    pub open spec fn wf(&self) -> bool {
        &&& self.levels.len() == self.input_count
        &&& self.master_level.wf()
        &&& forall|i: int| 0 <= i < self.levels.len() ==> (#[trigger] self.levels[i]).wf()
    }

    /// Tests whether the mixer is valid.
    pub fn is_valid(&self) -> (r: bool)
        ensures
            r == self.wf(),
    {
        if self.levels.len() != self.input_count || !self.master_level.is_valid() {
            return false;
        }
        let mut i: usize = 0;
        while i < self.levels.len()
            invariant
                i <= self.levels.len(),
                forall|k: int| 0 <= k < i ==> (#[trigger] self.levels[k]).wf(),
            decreases self.levels.len() - i,
        {
            if !self.levels[i].is_valid() {
                return false;
            }
            i += 1;
        }
        true
    }

    /// Whether the mixer is as it is made for `input_count` inputs: each
    /// level and the master level are 1.
    pub open spec fn is_fresh(&self, input_count: usize) -> bool {
        &&& self.wf()
        &&& self.input_count == input_count
        &&& self.master_level@ == "1"@
        &&& forall|i: int| 0 <= i < input_count ==> (#[trigger] self.levels[i])@ == "1"@
    }

    /// A mixer with `input_count` inputs, each at level 1, and the master at 1.
    pub fn new(input_count: usize) -> (r: Self)
        ensures
            r.is_fresh(input_count),
            r.wf(),
            r.input_count == input_count,
            r.master_level@ == "1"@,
            forall|i: int| 0 <= i < input_count ==> (#[trigger] r.levels[i])@ == "1"@,
    {
        let mut levels: Vec<Number> = Vec::new();
        let mut i: usize = 0;
        while i < input_count
            invariant
                i <= input_count,
                levels.len() == i,
                forall|k: int| 0 <= k < i ==> (#[trigger] levels[k])@ == "1"@ && levels[k].wf(),
            decreases input_count - i,
        {
            levels.push(Number::one());
            i += 1;
        }
        GraphMonoMixer { input_count, levels, master_level: Number::one() }
    }

    /// A mixer with four inputs.
    pub fn new_4input() -> (r: Self)
        ensures
            r.wf(),
            r.input_count == 4,
    {
        Self::new(4)
    }

    /// Finds the parameter that a name stands for.
    pub fn param(&self, name: &str) -> (r: MixerParam)
        ensures
            r == mixer_param(name@, self.input_count),
    {
        let v = chars_of(name);
        if is_text(&v, "master") {
            return MixerParam::Master;
        }
        match without_prefix(&v, "level") {
            Some(rest) => match read_usize(&rest) {
                Some(index) => if index > 0 && index <= self.input_count {
                    MixerParam::Level(index - 1)
                } else {
                    MixerParam::BadIndex(index)
                },
                None => MixerParam::BadLevel,
            },
            None => MixerParam::Unknown,
        }
    }

    /// Whether the module `after` and the outcome `r` are what setting the
    /// parameter `name` to `value` makes of the module `before`.
    pub open spec fn param_set(
        before: Self,
        after: Self,
        name: Seq<char>,
        value: Seq<char>,
        r: Result<(), ParamError>,
    ) -> bool {
        &&& after.wf()
        &&& after.input_count == before.input_count
        &&& match mixer_param(name, before.input_count) {
            MixerParam::Master => r is Ok && after.master_level@ == value && after.levels
                == before.levels,
            MixerParam::Level(i) => r is Ok && after.levels[i as int]@ == value
                && after.master_level == before.master_level && forall|k: int|
                0 <= k < before.levels.len() && k != i ==> after.levels[k] == before.levels[k],
            MixerParam::BadIndex(index) => after == before && r is Err
                && r->Err_0 is InvalidLevelIndex && r->Err_0->InvalidLevelIndex_index == index,
            MixerParam::BadLevel => after == before && r is Err
                && r->Err_0 is InvalidLevelParameter
                && r->Err_0->InvalidLevelParameter_name@ == name,
            MixerParam::Unknown => after == before && r is Err
                && r->Err_0 is Unknown && r->Err_0->Unknown_name@ == name,
        }
    }

    /// Sets the master level, under the name `master`, or the level of the
    /// input `i`, under the name `level` followed by `i`, counted from one.
    pub fn set_param(&mut self, name: &str, value: &Number) -> (r: Result<(), ParamError>)
        requires
            old(self).wf(),
            value.wf(),
        ensures
            Self::param_set(*old(self), *final(self), name@, value@, r),
    {
        match self.param(name) {
            MixerParam::Master => {
                self.master_level = value.clone();
                Ok(())
            },
            MixerParam::Level(i) => {
                self.levels.set(i, value.clone());
                Ok(())
            },
            MixerParam::BadIndex(index) => Err(ParamError::InvalidLevelIndex { index }),
            MixerParam::BadLevel => Err(
                ParamError::InvalidLevelParameter { name: String::from_str(name) },
            ),
            MixerParam::Unknown => Err(unknown_parameter(name)),
        }
    }

    /// Whether `r` is the parameter `name` of the module `this`.
    pub open spec fn param_got(this: Self, name: Seq<char>, r: Option<Number>) -> bool {
        &&& match mixer_param(name, this.input_count) {
            MixerParam::Master => r is Some && r->0@ == this.master_level@,
            MixerParam::Level(i) => r is Some && r->0@ == this.levels[i as int]@,
            _ => r is None,
        }
    }

    /// The master level or the level of an input, by name.
    pub fn get_param(&self, name: &str) -> (r: Option<Number>)
        requires
            self.wf(),
        ensures
            Self::param_got(*self, name@, r),
    {
        match self.param(name) {
            MixerParam::Master => Some(self.master_level.clone()),
            MixerParam::Level(i) => Some(self.levels[i].clone()),
            _ => None,
        }
    }
}

impl Default for GraphMonoMixer {
    fn default() -> (r: Self)
        ensures
            r.wf(),
            r.input_count == 4,
    {
        Self::new_4input()
    }
}

} // verus!
