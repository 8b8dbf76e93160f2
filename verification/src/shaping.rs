//! Modules that move a level over time: the slew generator and the envelope.
//! What is decided here is when a movement begins and ends and what the
//! gate outputs show; the levels themselves are worked out outside.

use vstd::prelude::*;
use vstd::string::StringExecFns;
use crate::graph_modules::{unknown_parameter, ParamError, SlewCurve};
use crate::number::{decimal_text, Number};
use crate::reading::{above_zero, raised_to_thousandth, whole_part};
use crate::text::{chars_of, is_text};

verus! {

/// A slew generator: its rise and fall times in seconds, its curve, and
/// whether it is on its way.
#[derive(Debug)]
pub struct GraphSlewGen {
    pub rise_time: Number,
    pub fall_time: Number,
    pub curve_type: SlewCurve,
    pub is_rising: bool,
    pub is_falling: bool,
    pub reached_target: bool,
}

/// What the two gate outputs of the slew generator show at one sample.
pub struct SlewGates {
    /// End of rise: low while the output rises.
    pub eor: bool,
    /// End of cycle: low while the output falls.
    pub eoc: bool,
}

/// The curve that a value stands for: 1 exponential, 2 logarithmic, any
/// other linear.
pub open spec fn curve_of(value: Seq<char>) -> SlewCurve {
    if value.len() > 0 && value[0] == '-' {
        SlewCurve::Linear
    } else if whole_part(value) == 1 {
        SlewCurve::Exponential
    } else if whole_part(value) == 2 {
        SlewCurve::Logarithmic
    } else {
        SlewCurve::Linear
    }
}

impl GraphSlewGen {
    /// A slew generator with the given rise and fall times, a linear curve,
    /// at rest but not yet at a target.
    pub fn new(rise_time: Number, fall_time: Number) -> (r: Self)
        ensures
            r.rise_time@ == rise_time@,
            r.fall_time@ == fall_time@,
            r.curve_type == SlewCurve::Linear,
            !r.is_rising,
            !r.is_falling,
            !r.reached_target,
    {
        GraphSlewGen {
            rise_time,
            fall_time,
            curve_type: SlewCurve::Linear,
            is_rising: false,
            is_falling: false,
            reached_target: false,
        }
    }

    /// Works one sample. `moving` says whether the output is away from the
    /// target, `upward` whether the target lies above it, and `arrived`
    /// whether the step of this sample reaches the target.
    ///
    /// Both gate outputs are high at rest. While the output rises, `eor` is
    /// low, and while it falls, `eoc` is low; each is high again at the sample
    /// that reaches the target.
    pub fn step(&mut self, moving: bool, upward: bool, arrived: bool) -> (r: SlewGates)
        ensures
            final(self).rise_time == old(self).rise_time,
            final(self).fall_time == old(self).fall_time,
            final(self).curve_type == old(self).curve_type,
            final(self).reached_target == (!moving || arrived),
            final(self).is_rising == (moving && upward),
            final(self).is_falling == (moving && !upward),
            r.eor == !(moving && upward && !arrived),
            r.eoc == !(moving && !upward && !arrived),
            !moving ==> r.eor && r.eoc && final(self).reached_target,
    {
        if moving {
            self.reached_target = arrived;
            self.is_rising = upward;
            self.is_falling = !upward;
            SlewGates { eor: !upward || arrived, eoc: upward || arrived }
        } else {
            self.reached_target = true;
            self.is_rising = false;
            self.is_falling = false;
            SlewGates { eor: true, eoc: true }
        }
    }

    /// Whether the module `after` and the outcome `r` are what setting the
    /// parameter `name` to `value` makes of the module `before`.
    pub open spec fn param_set(
        before: Self,
        after: Self,
        name: Seq<char>,
        value: Seq<char>,
        r: Result<(), ParamError>,
    ) -> bool {
        &&& after.is_rising == before.is_rising
        &&& after.is_falling == before.is_falling
        &&& after.reached_target == before.reached_target
        &&& if name == "rise"@ {
            &&& r is Ok
            &&& after.rise_time@ == raised_to_thousandth(value)
            &&& after.fall_time == before.fall_time
            &&& after.curve_type == before.curve_type
        } else if name == "fall"@ {
            &&& r is Ok
            &&& after.fall_time@ == raised_to_thousandth(value)
            &&& after.rise_time == before.rise_time
            &&& after.curve_type == before.curve_type
        } else if name == "curve"@ {
            &&& r is Ok
            &&& after.curve_type == curve_of(value)
            &&& after.rise_time == before.rise_time
            &&& after.fall_time == before.fall_time
        } else {
            &&& after == before
            &&& r is Err
            &&& r->Err_0 is Unknown
            &&& r->Err_0->Unknown_name@ == name
        }
    }

    /// Sets the rise time under the name `rise`, the fall time under `fall`,
    /// and the curve under `curve`. A time below one thousandth of a second
    /// is set to one thousandth.
    pub fn set_param(&mut self, name: &str, value: &Number) -> (r: Result<(), ParamError>)
        requires
            value.wf(),
        ensures
            Self::param_set(*old(self), *final(self), name@, value@, r),
    {
        let v = chars_of(name);
        if is_text(&v, "rise") {
            self.rise_time = value.raised_to_thousandth();
            Ok(())
        } else if is_text(&v, "fall") {
            self.fall_time = value.raised_to_thousandth();
            Ok(())
        } else if is_text(&v, "curve") {
            let code = value.truncated();
            self.curve_type = if code == 1 {
                SlewCurve::Exponential
            } else if code == 2 {
                SlewCurve::Logarithmic
            } else {
                SlewCurve::Linear
            };
            Ok(())
        } else {
            Err(unknown_parameter(name))
        }
    }

    /// Whether `r` is the parameter `name` of the module `this`.
    pub open spec fn param_got(this: Self, name: Seq<char>, r: Option<Number>) -> bool {
        &&& if name == "rise"@ {
            r is Some && r->0@ == this.rise_time@
        } else if name == "fall"@ {
            r is Some && r->0@ == this.fall_time@
        } else if name == "curve"@ {
            r is Some && r->0@ == decimal_text(
                match this.curve_type {
                    SlewCurve::Linear => 0,
                    SlewCurve::Exponential => 1,
                    SlewCurve::Logarithmic => 2,
                },
            )
        } else {
            r is None
        }
    }

    /// The rise time under the name `rise`, the fall time under `fall`, and
    /// the code of the curve under `curve`.
    pub fn get_param(&self, name: &str) -> (r: Option<Number>)
        ensures
            Self::param_got(*self, name@, r),
    {
        let v = chars_of(name);
        if is_text(&v, "rise") {
            Some(self.rise_time.clone())
        } else if is_text(&v, "fall") {
            Some(self.fall_time.clone())
        } else if is_text(&v, "curve") {
            Some(
                Number::whole(
                    match self.curve_type {
                        SlewCurve::Linear => 0,
                        SlewCurve::Exponential => 1,
                        SlewCurve::Logarithmic => 2,
                    },
                ),
            )
        } else {
            None
        }
    }
}

/// Where the envelope stands.
#[derive(Debug, Clone, Copy, PartialEq, Eq, Structural)]
pub enum EnvelopePhase {
    Idle,
    Attack,
    Decay,
}

/// The shape of a stage of the envelope.
#[derive(Debug, Clone, Copy, PartialEq, Eq, Structural)]
pub enum EnvelopeShape {
    Linear,
    Exponential,
    Logarithmic,
}

/// What the envelope puts out at one sample.
#[derive(Debug, Clone, Copy, PartialEq, Eq, Structural)]
pub enum EnvelopeLevel {
    /// Nothing.
    Zero,
    /// The full level.
    One,
    /// The progress of the attack, shaped.
    Rising(EnvelopeShape),
    /// What the shaped progress of the decay leaves of the full level.
    Falling(EnvelopeShape),
}

/// One sample of the envelope: the level, and whether the time of the stage
/// begins again behind it.
pub struct EnvelopeStep {
    pub level: EnvelopeLevel,
    pub restart: bool,
}

/// An attack-decay envelope: the times of its stages in seconds, their
/// shapes, and where it stands.
#[derive(Debug)]
pub struct GraphEnvelope {
    pub attack: Number,
    pub decay: Number,
    pub phase: EnvelopePhase,
    pub attack_shape: EnvelopeShape,
    pub decay_shape: EnvelopeShape,
}

/// The shape that a value stands for: 0 linear, 1 exponential, 2
/// logarithmic; none for another value.
pub open spec fn shape_of(value: Seq<char>) -> Option<EnvelopeShape> {
    let w = whole_part(value);
    if value.len() > 0 && value[0] == '-' && w != 0 {
        None
    } else if w == 0 {
        Some(EnvelopeShape::Linear)
    } else if w == 1 {
        Some(EnvelopeShape::Exponential)
    } else if w == 2 {
        Some(EnvelopeShape::Logarithmic)
    } else {
        None
    }
}

/// The code of a shape.
pub open spec fn shape_code(shape: EnvelopeShape) -> nat {
    match shape {
        EnvelopeShape::Linear => 0,
        EnvelopeShape::Exponential => 1,
        EnvelopeShape::Logarithmic => 2,
    }
}

/// Reads the shape that a value stands for.
fn read_shape(value: &Number) -> (r: Option<EnvelopeShape>)
    requires
        value.wf(),
    ensures
        r == shape_of(value@),
{
    let w = value.magnitude();
    if value.is_minus() && w != 0 {
        None
    } else if w == 0 {
        Some(EnvelopeShape::Linear)
    } else if w == 1 {
        Some(EnvelopeShape::Exponential)
    } else if w == 2 {
        Some(EnvelopeShape::Logarithmic)
    } else {
        None
    }
}

/// The code of a shape, as a number.
fn shape_number(shape: EnvelopeShape) -> (r: Number)
    ensures
        r@ == decimal_text(shape_code(shape)),
        r.wf(),
{
    Number::whole(
        match shape {
            EnvelopeShape::Linear => 0,
            EnvelopeShape::Exponential => 1,
            EnvelopeShape::Logarithmic => 2,
        },
    )
}

impl GraphEnvelope {
    /// The times of the stages are written as numbers.
    pub open spec fn wf(&self) -> bool {
        self.attack.wf() && self.decay.wf()
    }

    /// Tests whether the envelope is valid.
    pub fn is_valid(&self) -> (r: bool)
        ensures
            r == self.wf(),
    {
        self.attack.is_valid() && self.decay.is_valid()
    }

    /// An idle envelope with the given attack and decay times and linear shapes.
    pub fn new(attack: Number, decay: Number) -> (r: Self)
        ensures
            r.attack@ == attack@,
            r.decay@ == decay@,
            r.phase == EnvelopePhase::Idle,
            r.attack_shape == EnvelopeShape::Linear,
            r.decay_shape == EnvelopeShape::Linear,
    {
        GraphEnvelope {
            attack,
            decay,
            phase: EnvelopePhase::Idle,
            attack_shape: EnvelopeShape::Linear,
            decay_shape: EnvelopeShape::Linear,
        }
    }

    /// The stage that a sample is worked in: the attack where its gate input
    /// rose, else the stage the envelope stands in.
    pub open spec fn stage(&self, rising: bool) -> EnvelopePhase {
        if rising {
            EnvelopePhase::Attack
        } else {
            self.phase
        }
    }

    /// Where the envelope stands after a sample.
    pub open spec fn next_phase(
        &self,
        rising: bool,
        attack_reached: bool,
        decay_reached: bool,
    ) -> EnvelopePhase {
        match self.stage(rising) {
            EnvelopePhase::Idle => EnvelopePhase::Idle,
            EnvelopePhase::Attack => if !above_zero(self.attack@) || attack_reached {
                EnvelopePhase::Decay
            } else {
                EnvelopePhase::Attack
            },
            EnvelopePhase::Decay => if !above_zero(self.decay@) || decay_reached {
                EnvelopePhase::Idle
            } else {
                EnvelopePhase::Decay
            },
        }
    }

    /// The level that the envelope puts out at a sample.
    pub open spec fn level(&self, rising: bool) -> EnvelopeLevel {
        match self.stage(rising) {
            EnvelopePhase::Idle => EnvelopeLevel::Zero,
            EnvelopePhase::Attack => if above_zero(self.attack@) {
                EnvelopeLevel::Rising(self.attack_shape)
            } else {
                EnvelopeLevel::One
            },
            EnvelopePhase::Decay => if above_zero(self.decay@) {
                EnvelopeLevel::Falling(self.decay_shape)
            } else {
                EnvelopeLevel::Zero
            },
        }
    }

    /// Works one sample. `rising` says whether its gate input rose at this
    /// sample; `attack_reached` and `decay_reached` whether the time spent in
    /// the stage, counted from zero again where that input rose, has reached
    /// the attack time and the decay time.
    ///
    /// A rising gate begins the attack. The attack ends in the decay and the
    /// decay in idleness, each when its time is reached, and at once where
    /// its time is not above zero.
    pub fn step(&mut self, rising: bool, attack_reached: bool, decay_reached: bool) -> (r:
        EnvelopeStep)
        requires
            old(self).wf(),
        ensures
            final(self).attack == old(self).attack,
            final(self).decay == old(self).decay,
            final(self).attack_shape == old(self).attack_shape,
            final(self).decay_shape == old(self).decay_shape,
            final(self).phase == old(self).next_phase(rising, attack_reached, decay_reached),
            r.level == old(self).level(rising),
            r.restart == (old(self).stage(rising) != EnvelopePhase::Idle && final(self).phase
                != old(self).stage(rising)),
            rising && !above_zero(old(self).attack@) ==> final(self).phase == EnvelopePhase::Decay
                && r.level == EnvelopeLevel::One,
            old(self).stage(rising) == EnvelopePhase::Decay && !above_zero(old(self).decay@)
                ==> final(self).phase == EnvelopePhase::Idle,
    {
        if rising {
            self.phase = EnvelopePhase::Attack;
        }
        match self.phase {
            EnvelopePhase::Idle => EnvelopeStep { level: EnvelopeLevel::Zero, restart: false },
            EnvelopePhase::Attack => {
                if self.attack.is_positive() {
                    if attack_reached {
                        self.phase = EnvelopePhase::Decay;
                    }
                    EnvelopeStep {
                        level: EnvelopeLevel::Rising(self.attack_shape),
                        restart: attack_reached,
                    }
                } else {
                    self.phase = EnvelopePhase::Decay;
                    EnvelopeStep { level: EnvelopeLevel::One, restart: true }
                }
            },
            EnvelopePhase::Decay => {
                if self.decay.is_positive() {
                    if decay_reached {
                        self.phase = EnvelopePhase::Idle;
                    }
                    EnvelopeStep {
                        level: EnvelopeLevel::Falling(self.decay_shape),
                        restart: decay_reached,
                    }
                } else {
                    self.phase = EnvelopePhase::Idle;
                    EnvelopeStep { level: EnvelopeLevel::Zero, restart: true }
                }
            },
        }
    }

    /// Whether the module `after` and the outcome `r` are what setting the
    /// parameter `name` to `value` makes of the module `before`.
    pub open spec fn param_set(
        before: Self,
        after: Self,
        name: Seq<char>,
        value: Seq<char>,
        r: Result<(), ParamError>,
    ) -> bool {
        &&& after.wf()
        &&& after.phase == before.phase
        &&& if name == "attack"@ {
            &&& r is Ok
            &&& after.attack@ == value
            &&& after.decay == before.decay
            &&& after.attack_shape == before.attack_shape
            &&& after.decay_shape == before.decay_shape
        } else if name == "decay"@ {
            &&& r is Ok
            &&& after.decay@ == value
            &&& after.attack == before.attack
            &&& after.attack_shape == before.attack_shape
            &&& after.decay_shape == before.decay_shape
        } else if name == "attack_shape"@ {
            match shape_of(value) {
                Some(shape) => {
                    &&& r is Ok
                    &&& after.attack_shape == shape
                    &&& after.decay_shape == before.decay_shape
                    &&& after.attack == before.attack
                    &&& after.decay == before.decay
                },
                None => {
                    &&& after == before
                    &&& r is Err
                    &&& r->Err_0 is InvalidShape
                    &&& r->Err_0->InvalidShape_stage@ == "attack"@
                    &&& r->Err_0->InvalidShape_value@ == value
                },
            }
        } else if name == "decay_shape"@ {
            match shape_of(value) {
                Some(shape) => {
                    &&& r is Ok
                    &&& after.decay_shape == shape
                    &&& after.attack_shape == before.attack_shape
                    &&& after.attack == before.attack
                    &&& after.decay == before.decay
                },
                None => {
                    &&& after == before
                    &&& r is Err
                    &&& r->Err_0 is InvalidShape
                    &&& r->Err_0->InvalidShape_stage@ == "decay"@
                    &&& r->Err_0->InvalidShape_value@ == value
                },
            }
        } else {
            &&& after == before
            &&& r is Err
            &&& r->Err_0 is Unknown
            &&& r->Err_0->Unknown_name@ == name
        }
    }

    /// Sets the attack time under the name `attack`, the decay time under
    /// `decay`, and the shapes of the two stages under `attack_shape` and
    /// `decay_shape`. A value that stands for no shape is refused.
    pub fn set_param(&mut self, name: &str, value: &Number) -> (r: Result<(), ParamError>)
        requires
            old(self).wf(),
            value.wf(),
        ensures
            Self::param_set(*old(self), *final(self), name@, value@, r),
    {
        let v = chars_of(name);
        if is_text(&v, "attack") {
            self.attack = value.clone();
            Ok(())
        } else if is_text(&v, "decay") {
            self.decay = value.clone();
            Ok(())
        } else if is_text(&v, "attack_shape") {
            match read_shape(value) {
                Some(shape) => {
                    self.attack_shape = shape;
                    Ok(())
                },
                None => Err(
                    ParamError::InvalidShape {
                        stage: String::from_str("attack"),
                        value: String::from_str(value.as_str()),
                    },
                ),
            }
        } else if is_text(&v, "decay_shape") {
            match read_shape(value) {
                Some(shape) => {
                    self.decay_shape = shape;
                    Ok(())
                },
                None => Err(
                    ParamError::InvalidShape {
                        stage: String::from_str("decay"),
                        value: String::from_str(value.as_str()),
                    },
                ),
            }
        } else {
            Err(unknown_parameter(name))
        }
    }

    /// Whether `r` is the parameter `name` of the module `this`.
    pub open spec fn param_got(this: Self, name: Seq<char>, r: Option<Number>) -> bool {
        &&& if name == "attack"@ {
            r is Some && r->0@ == this.attack@
        } else if name == "decay"@ {
            r is Some && r->0@ == this.decay@
        } else if name == "attack_shape"@ {
            r is Some && r->0@ == decimal_text(shape_code(this.attack_shape))
        } else if name == "decay_shape"@ {
            r is Some && r->0@ == decimal_text(shape_code(this.decay_shape))
        } else {
            r is None
        }
    }

    /// The times of the stages under the names `attack` and `decay`, and the
    /// codes of their shapes under `attack_shape` and `decay_shape`.
    pub fn get_param(&self, name: &str) -> (r: Option<Number>)
        ensures
            Self::param_got(*self, name@, r),
    {
        let v = chars_of(name);
        if is_text(&v, "attack") {
            Some(self.attack.clone())
        } else if is_text(&v, "decay") {
            Some(self.decay.clone())
        } else if is_text(&v, "attack_shape") {
            Some(shape_number(self.attack_shape))
        } else if is_text(&v, "decay_shape") {
            Some(shape_number(self.decay_shape))
        } else {
            None
        }
    }
}

} // verus!
