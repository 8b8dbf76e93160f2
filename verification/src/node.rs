//! A module of the graph: one of the module types of the library, with its
//! settings and with what it has to remember from sample to sample.

use vstd::prelude::*;
use crate::graph::{port_defaults, port_descriptions, port_names, ports_wf, PortDescriptor};
use crate::graph_modules::{
    mixer_param, GraphFilter, GraphLfo, GraphManualGate, GraphMonoMixer, GraphMult, GraphNoiseGen,
    GraphOscillator, GraphStereoOutput, GraphVca, GraphVisual, ParamError,
};
use crate::modules::ModuleType;
use crate::number::Number;
use crate::sequencing::{sequencer_param, GraphClockDiv, GraphSeq8, GraphSwitch};
use crate::shaping::{shape_of, GraphEnvelope, GraphSlewGen};

verus! {

/// A module of the graph.
#[derive(Debug)]
pub enum Node {
    Oscillator(GraphOscillator),
    Vca(GraphVca),
    Filter(GraphFilter),
    Lfo(GraphLfo),
    ManualGate(GraphManualGate),
    StereoOutput(GraphStereoOutput),
    Noise(GraphNoiseGen),
    Mixer(GraphMonoMixer),
    Slew(GraphSlewGen),
    Visual(GraphVisual),
    Mult(GraphMult),
    Switch(GraphSwitch),
    ClockDiv(GraphClockDiv),
    Envelope(GraphEnvelope),
    Seq8(GraphSeq8),
}

impl Node {
    /// The module is valid in the sense of its type.
    pub open spec fn wf(&self) -> bool {
        match self {
            Node::Mixer(m) => m.wf(),
            Node::Switch(m) => m.wf(),
            Node::ClockDiv(m) => m.wf(),
            Node::Envelope(m) => m.wf(),
            Node::Seq8(m) => m.wf(),
            _ => true,
        }
    }

    /// Tests whether the module is valid in the sense of its type.
    pub fn is_valid(&self) -> (r: bool)
        ensures
            r == self.wf(),
    {
        match self {
            Node::Mixer(m) => m.is_valid(),
            Node::Switch(m) => m.is_valid(),
            Node::ClockDiv(m) => m.is_valid(),
            Node::Envelope(m) => m.is_valid(),
            Node::Seq8(m) => m.is_valid(),
            _ => true,
        }
    }

    /// The type of the module.
    pub open spec fn kind(&self) -> ModuleType {
        match self {
            Node::Oscillator(_) => ModuleType::Oscillator,
            Node::Vca(_) => ModuleType::Vca,
            Node::Filter(_) => ModuleType::Filter,
            Node::Lfo(_) => ModuleType::Lfo,
            Node::ManualGate(_) => ModuleType::ManualGate,
            Node::StereoOutput(_) => ModuleType::StereoOutput,
            Node::Noise(_) => ModuleType::Noise,
            Node::Mixer(_) => ModuleType::Mixer,
            Node::Slew(_) => ModuleType::Slew,
            Node::Visual(_) => ModuleType::Visual,
            Node::Mult(_) => ModuleType::Mult,
            Node::Switch(_) => ModuleType::Switch,
            Node::ClockDiv(_) => ModuleType::ClockDiv,
            Node::Envelope(_) => ModuleType::Envelope,
            Node::Seq8(_) => ModuleType::Seq8,
        }
    }

    /// The type of the module.
    pub fn module_type(&self) -> (r: ModuleType)
        ensures
            r == self.kind(),
    {
        match self {
            Node::Oscillator(_) => ModuleType::Oscillator,
            Node::Vca(_) => ModuleType::Vca,
            Node::Filter(_) => ModuleType::Filter,
            Node::Lfo(_) => ModuleType::Lfo,
            Node::ManualGate(_) => ModuleType::ManualGate,
            Node::StereoOutput(_) => ModuleType::StereoOutput,
            Node::Noise(_) => ModuleType::Noise,
            Node::Mixer(_) => ModuleType::Mixer,
            Node::Slew(_) => ModuleType::Slew,
            Node::Visual(_) => ModuleType::Visual,
            Node::Mult(_) => ModuleType::Mult,
            Node::Switch(_) => ModuleType::Switch,
            Node::ClockDiv(_) => ModuleType::ClockDiv,
            Node::Envelope(_) => ModuleType::Envelope,
            Node::Seq8(_) => ModuleType::Seq8,
        }
    }

    /// The names of the inputs of the module, in order.
    pub open spec fn input_names(&self) -> Seq<Seq<char>> {
        match self {
            Node::Oscillator(_) => GraphOscillator::input_names(),
            Node::Vca(_) => GraphVca::input_names(),
            Node::Filter(_) => GraphFilter::input_names(),
            Node::Lfo(_) => GraphLfo::input_names(),
            Node::ManualGate(_) => GraphManualGate::input_names(),
            Node::StereoOutput(_) => GraphStereoOutput::input_names(),
            Node::Noise(_) => GraphNoiseGen::input_names(),
            Node::Mixer(m) => m.input_names(),
            Node::Slew(_) => GraphSlewGen::input_names(),
            Node::Visual(_) => GraphVisual::input_names(),
            Node::Mult(_) => GraphMult::input_names(),
            Node::Switch(m) => m.input_names(),
            Node::ClockDiv(_) => GraphClockDiv::input_names(),
            Node::Envelope(_) => GraphEnvelope::input_names(),
            Node::Seq8(_) => GraphSeq8::input_names(),
        }
    }

    /// The values that the inputs of the module have while nothing is
    /// connected to them, in the order of the inputs.
    pub open spec fn input_defaults(&self) -> Seq<Seq<char>> {
        match self {
            Node::Oscillator(_) => GraphOscillator::input_defaults(),
            Node::Vca(_) => GraphVca::input_defaults(),
            Node::Filter(_) => GraphFilter::input_defaults(),
            Node::Lfo(_) => GraphLfo::input_defaults(),
            Node::ManualGate(_) => GraphManualGate::input_defaults(),
            Node::StereoOutput(_) => GraphStereoOutput::input_defaults(),
            Node::Noise(_) => GraphNoiseGen::input_defaults(),
            Node::Mixer(m) => m.input_defaults(),
            Node::Slew(_) => GraphSlewGen::input_defaults(),
            Node::Visual(_) => GraphVisual::input_defaults(),
            Node::Mult(_) => GraphMult::input_defaults(),
            Node::Switch(m) => m.input_defaults(),
            Node::ClockDiv(_) => GraphClockDiv::input_defaults(),
            Node::Envelope(_) => GraphEnvelope::input_defaults(),
            Node::Seq8(_) => GraphSeq8::input_defaults(),
        }
    }

    /// The names of the outputs of the module, in order.
    pub open spec fn output_names(&self) -> Seq<Seq<char>> {
        match self {
            Node::Oscillator(_) => GraphOscillator::output_names(),
            Node::Vca(_) => GraphVca::output_names(),
            Node::Filter(_) => GraphFilter::output_names(),
            Node::Lfo(_) => GraphLfo::output_names(),
            Node::ManualGate(_) => GraphManualGate::output_names(),
            Node::StereoOutput(_) => GraphStereoOutput::output_names(),
            Node::Noise(_) => GraphNoiseGen::output_names(),
            Node::Mixer(_) => GraphMonoMixer::output_names(),
            Node::Slew(_) => GraphSlewGen::output_names(),
            Node::Visual(_) => GraphVisual::output_names(),
            Node::Mult(_) => GraphMult::output_names(),
            Node::Switch(_) => GraphSwitch::output_names(),
            Node::ClockDiv(_) => GraphClockDiv::output_names(),
            Node::Envelope(_) => GraphEnvelope::output_names(),
            Node::Seq8(_) => GraphSeq8::output_names(),
        }
    }

    /// What the inputs of the module are for, in order.
    pub open spec fn input_descriptions(&self) -> Seq<Seq<char>> {
        match self {
            Node::Oscillator(_) => GraphOscillator::input_descriptions(),
            Node::Vca(_) => GraphVca::input_descriptions(),
            Node::Filter(_) => GraphFilter::input_descriptions(),
            Node::Lfo(_) => GraphLfo::input_descriptions(),
            Node::ManualGate(_) => GraphManualGate::input_descriptions(),
            Node::StereoOutput(_) => GraphStereoOutput::input_descriptions(),
            Node::Noise(_) => GraphNoiseGen::input_descriptions(),
            Node::Mixer(m) => m.input_descriptions(),
            Node::Slew(_) => GraphSlewGen::input_descriptions(),
            Node::Visual(_) => GraphVisual::input_descriptions(),
            Node::Mult(_) => GraphMult::input_descriptions(),
            Node::Switch(m) => m.input_descriptions(),
            Node::ClockDiv(_) => GraphClockDiv::input_descriptions(),
            Node::Envelope(_) => GraphEnvelope::input_descriptions(),
            Node::Seq8(_) => GraphSeq8::input_descriptions(),
        }
    }

    /// The values that the outputs of the module have before the module
    /// has worked, in order.
    pub open spec fn output_defaults(&self) -> Seq<Seq<char>> {
        match self {
            Node::Oscillator(_) => GraphOscillator::output_defaults(),
            Node::Vca(_) => GraphVca::output_defaults(),
            Node::Filter(_) => GraphFilter::output_defaults(),
            Node::Lfo(_) => GraphLfo::output_defaults(),
            Node::ManualGate(_) => GraphManualGate::output_defaults(),
            Node::StereoOutput(_) => GraphStereoOutput::output_defaults(),
            Node::Noise(_) => GraphNoiseGen::output_defaults(),
            Node::Mixer(_) => GraphMonoMixer::output_defaults(),
            Node::Slew(_) => GraphSlewGen::output_defaults(),
            Node::Visual(_) => GraphVisual::output_defaults(),
            Node::Mult(_) => GraphMult::output_defaults(),
            Node::Switch(_) => GraphSwitch::output_defaults(),
            Node::ClockDiv(_) => GraphClockDiv::output_defaults(),
            Node::Envelope(_) => GraphEnvelope::output_defaults(),
            Node::Seq8(_) => GraphSeq8::output_defaults(),
        }
    }

    /// What the outputs of the module are for, in order.
    pub open spec fn output_descriptions(&self) -> Seq<Seq<char>> {
        match self {
            Node::Oscillator(_) => GraphOscillator::output_descriptions(),
            Node::Vca(_) => GraphVca::output_descriptions(),
            Node::Filter(_) => GraphFilter::output_descriptions(),
            Node::Lfo(_) => GraphLfo::output_descriptions(),
            Node::ManualGate(_) => GraphManualGate::output_descriptions(),
            Node::StereoOutput(_) => GraphStereoOutput::output_descriptions(),
            Node::Noise(_) => GraphNoiseGen::output_descriptions(),
            Node::Mixer(_) => GraphMonoMixer::output_descriptions(),
            Node::Slew(_) => GraphSlewGen::output_descriptions(),
            Node::Visual(_) => GraphVisual::output_descriptions(),
            Node::Mult(_) => GraphMult::output_descriptions(),
            Node::Switch(_) => GraphSwitch::output_descriptions(),
            Node::ClockDiv(_) => GraphClockDiv::output_descriptions(),
            Node::Envelope(_) => GraphEnvelope::output_descriptions(),
            Node::Seq8(_) => GraphSeq8::output_descriptions(),
        }
    }

    /// Whether `inputs` and `outputs` are the ports of the module: their
    /// names, their default values and what they are for, in order.
    pub open spec fn has_ports(
        &self,
        inputs: Seq<PortDescriptor>,
        outputs: Seq<PortDescriptor>,
    ) -> bool {
        &&& port_names(inputs) == self.input_names()
        &&& port_defaults(inputs) == self.input_defaults()
        &&& port_descriptions(inputs) == self.input_descriptions()
        &&& ports_wf(inputs)
        &&& port_names(outputs) == self.output_names()
        &&& port_defaults(outputs) == self.output_defaults()
        &&& port_descriptions(outputs) == self.output_descriptions()
        &&& ports_wf(outputs)
    }

    /// The inputs of the module.
    pub fn inputs(&self) -> (r: Vec<PortDescriptor>)
        ensures
            port_names(r@) == self.input_names(),
            port_defaults(r@) == self.input_defaults(),
            port_descriptions(r@) == self.input_descriptions(),
            ports_wf(r@),
    {
        match self {
            Node::Oscillator(m) => m.inputs(),
            Node::Vca(m) => m.inputs(),
            Node::Filter(m) => m.inputs(),
            Node::Lfo(m) => m.inputs(),
            Node::ManualGate(m) => m.inputs(),
            Node::StereoOutput(m) => m.inputs(),
            Node::Noise(m) => m.inputs(),
            Node::Mixer(m) => m.inputs(),
            Node::Slew(m) => m.inputs(),
            Node::Visual(m) => m.inputs(),
            Node::Mult(m) => m.inputs(),
            Node::Switch(m) => m.inputs(),
            Node::ClockDiv(m) => m.inputs(),
            Node::Envelope(m) => m.inputs(),
            Node::Seq8(m) => m.inputs(),
        }
    }

    /// The outputs of the module.
    pub fn outputs(&self) -> (r: Vec<PortDescriptor>)
        ensures
            port_names(r@) == self.output_names(),
            port_defaults(r@) == self.output_defaults(),
            port_descriptions(r@) == self.output_descriptions(),
            ports_wf(r@),
    {
        match self {
            Node::Oscillator(m) => m.outputs(),
            Node::Vca(m) => m.outputs(),
            Node::Filter(m) => m.outputs(),
            Node::Lfo(m) => m.outputs(),
            Node::ManualGate(m) => m.outputs(),
            Node::StereoOutput(m) => m.outputs(),
            Node::Noise(m) => m.outputs(),
            Node::Mixer(m) => m.outputs(),
            Node::Slew(m) => m.outputs(),
            Node::Visual(m) => m.outputs(),
            Node::Mult(m) => m.outputs(),
            Node::Switch(m) => m.outputs(),
            Node::ClockDiv(m) => m.outputs(),
            Node::Envelope(m) => m.outputs(),
            Node::Seq8(m) => m.outputs(),
        }
    }

    /// Whether the module `after` and the outcome `r` are what setting the
    /// parameter `name` to `value` makes of the module `before`, as the type
    /// of the module has it.
    pub open spec fn param_set(
        before: Node,
        after: Node,
        name: Seq<char>,
        value: Seq<char>,
        r: Result<(), ParamError>,
    ) -> bool {
        match (before, after) {
            (Node::Oscillator(a), Node::Oscillator(b)) => GraphOscillator::param_set(
                a,
                b,
                name,
                value,
                r,
            ),
            (Node::Vca(a), Node::Vca(b)) => GraphVca::param_set(
                a,
                b,
                name,
                value,
                r,
            ),
            (Node::Filter(a), Node::Filter(b)) => GraphFilter::param_set(
                a,
                b,
                name,
                value,
                r,
            ),
            (Node::Lfo(a), Node::Lfo(b)) => GraphLfo::param_set(
                a,
                b,
                name,
                value,
                r,
            ),
            (Node::ManualGate(a), Node::ManualGate(b)) => GraphManualGate::param_set(
                a,
                b,
                name,
                value,
                r,
            ),
            (Node::StereoOutput(a), Node::StereoOutput(b)) => GraphStereoOutput::param_set(
                a,
                b,
                name,
                value,
                r,
            ),
            (Node::Noise(a), Node::Noise(b)) => GraphNoiseGen::param_set(
                a,
                b,
                name,
                value,
                r,
            ),
            (Node::Mixer(a), Node::Mixer(b)) => GraphMonoMixer::param_set(
                a,
                b,
                name,
                value,
                r,
            ),
            (Node::Slew(a), Node::Slew(b)) => GraphSlewGen::param_set(
                a,
                b,
                name,
                value,
                r,
            ),
            (Node::Visual(a), Node::Visual(b)) => GraphVisual::param_set(
                a,
                b,
                name,
                value,
                r,
            ),
            (Node::Mult(a), Node::Mult(b)) => GraphMult::param_set(
                a,
                b,
                name,
                value,
                r,
            ),
            (Node::Switch(a), Node::Switch(b)) => GraphSwitch::param_set(
                a,
                b,
                name,
                value,
                r,
            ),
            (Node::ClockDiv(a), Node::ClockDiv(b)) => GraphClockDiv::param_set(
                a,
                b,
                name,
                value,
                r,
            ),
            (Node::Envelope(a), Node::Envelope(b)) => GraphEnvelope::param_set(
                a,
                b,
                name,
                value,
                r,
            ),
            (Node::Seq8(a), Node::Seq8(b)) => GraphSeq8::param_set(
                a,
                b,
                name,
                value,
                r,
            ),
            _ => false,
        }
    }

    /// Whether `r` is the parameter `name` of the module `this`, as the type
    /// of the module has it.
    pub open spec fn param_got(this: Node, name: Seq<char>, r: Option<Number>) -> bool {
        match this {
            Node::Oscillator(m) => GraphOscillator::param_got(m, name, r),
            Node::Vca(m) => GraphVca::param_got(m, name, r),
            Node::Filter(m) => GraphFilter::param_got(m, name, r),
            Node::Lfo(m) => GraphLfo::param_got(m, name, r),
            Node::ManualGate(m) => GraphManualGate::param_got(m, name, r),
            Node::StereoOutput(m) => GraphStereoOutput::param_got(m, name, r),
            Node::Noise(m) => GraphNoiseGen::param_got(m, name, r),
            Node::Mixer(m) => GraphMonoMixer::param_got(m, name, r),
            Node::Slew(m) => GraphSlewGen::param_got(m, name, r),
            Node::Visual(m) => GraphVisual::param_got(m, name, r),
            Node::Mult(m) => GraphMult::param_got(m, name, r),
            Node::Switch(m) => GraphSwitch::param_got(m, name, r),
            Node::ClockDiv(m) => GraphClockDiv::param_got(m, name, r),
            Node::Envelope(m) => GraphEnvelope::param_got(m, name, r),
            Node::Seq8(m) => GraphSeq8::param_got(m, name, r),
        }
    }

    /// Whether the module takes the value `value` for a parameter `name`.
    pub open spec fn accepts(&self, name: Seq<char>, value: Seq<char>) -> bool {
        match self {
            Node::Oscillator(_) => GraphOscillator::knows(name),
            Node::Vca(_) => name == "gain"@,
            Node::Filter(_) => name == "cutoff"@ || GraphFilter::is_resonance(name),
            Node::Lfo(_) => GraphOscillator::knows(name),
            Node::ManualGate(_) => name == "gate"@,
            Node::StereoOutput(_) => false,
            Node::Noise(_) => name == "seed"@,
            Node::Mixer(m) => mixer_param(name, m.input_count) is Master || mixer_param(
                name,
                m.input_count,
            ) is Level,
            Node::Slew(_) => name == "rise"@ || name == "fall"@ || name == "curve"@,
            Node::Visual(_) => false,
            Node::Mult(_) => false,
            Node::Switch(_) => name == "inputs"@ || name == "reset"@,
            Node::ClockDiv(_) => GraphClockDiv::is_division(name) || name == "reset"@,
            Node::Envelope(_) => name == "attack"@ || name == "decay"@ || ((name
                == "attack_shape"@ || name == "decay_shape"@) && shape_of(value) is Some),
            Node::Seq8(_) => !(sequencer_param(name) is Unknown),
        }
    }

    /// Sets the parameter `name` of the module to `value`, as the type of
    /// the module has it. A module that does not take the value for such a
    /// parameter stays as it is.
    pub fn set_param(&mut self, name: &str, value: &Number) -> (r: Result<(), ParamError>)
        requires
            old(self).wf(),
            value.wf(),
        ensures
            final(self).wf(),
            final(self).kind() == old(self).kind(),
            Node::param_set(*old(self), *final(self), name@, value@, r),
            r is Ok <==> old(self).accepts(name@, value@),
            r is Err ==> *final(self) == *old(self),
    {
        match self {
            Node::Oscillator(m) => m.set_param(name, value),
            Node::Vca(m) => m.set_param(name, value),
            Node::Filter(m) => m.set_param(name, value),
            Node::Lfo(m) => m.set_param(name, value),
            Node::ManualGate(m) => m.set_param(name, value),
            Node::StereoOutput(m) => m.set_param(name, value),
            Node::Noise(m) => m.set_param(name, value),
            Node::Mixer(m) => m.set_param(name, value),
            Node::Slew(m) => m.set_param(name, value),
            Node::Visual(m) => m.set_param(name, value),
            Node::Mult(m) => m.set_param(name, value),
            Node::Switch(m) => m.set_param(name, value),
            Node::ClockDiv(m) => m.set_param(name, value),
            Node::Envelope(m) => m.set_param(name, value),
            Node::Seq8(m) => m.set_param(name, value),
        }
    }

    /// Whether the module has a parameter `name` to read.
    pub open spec fn has_param(&self, name: Seq<char>) -> bool {
        match self {
            Node::Oscillator(_) => GraphOscillator::knows(name),
            Node::Vca(_) => name == "gain"@,
            Node::Filter(_) => name == "cutoff"@ || GraphFilter::is_resonance(name),
            Node::Lfo(_) => GraphOscillator::knows(name),
            Node::ManualGate(_) => name == "gate"@,
            Node::StereoOutput(_) => false,
            Node::Noise(_) => name == "seed"@,
            Node::Mixer(m) => mixer_param(name, m.input_count) is Master || mixer_param(
                name,
                m.input_count,
            ) is Level,
            Node::Slew(_) => name == "rise"@ || name == "fall"@ || name == "curve"@,
            Node::Visual(_) => false,
            Node::Mult(_) => false,
            Node::Switch(_) => name == "inputs"@ || name == "current"@ || name == "count"@,
            Node::ClockDiv(_) => GraphClockDiv::is_division(name) || name == "counter"@,
            Node::Envelope(_) => name == "attack"@ || name == "decay"@ || name == "attack_shape"@
                || name == "decay_shape"@,
            Node::Seq8(_) => !(sequencer_param(name) is Unknown),
        }
    }

    /// The parameter `name` of the module, as the type of the module has it.
    pub fn get_param(&self, name: &str) -> (r: Option<Number>)
        requires
            self.wf(),
        ensures
            Node::param_got(*self, name@, r),
            r is Some <==> self.has_param(name@),
    {
        match self {
            Node::Oscillator(m) => m.get_param(name),
            Node::Vca(m) => m.get_param(name),
            Node::Filter(m) => m.get_param(name),
            Node::Lfo(m) => m.get_param(name),
            Node::ManualGate(m) => m.get_param(name),
            Node::StereoOutput(m) => m.get_param(name),
            Node::Noise(m) => m.get_param(name),
            Node::Mixer(m) => m.get_param(name),
            Node::Slew(m) => m.get_param(name),
            Node::Visual(m) => m.get_param(name),
            Node::Mult(m) => m.get_param(name),
            Node::Switch(m) => m.get_param(name),
            Node::ClockDiv(m) => m.get_param(name),
            Node::Envelope(m) => m.get_param(name),
            Node::Seq8(m) => m.get_param(name),
        }
    }

    /// Switches the module, if it is a manual gate, and says whether it is one.
    pub fn set_manual_gate(&mut self, on: bool) -> (r: bool)
        ensures
            r == (old(self).kind() == ModuleType::ManualGate),
            match *old(self) {
                Node::ManualGate(_) => *final(self) == Node::ManualGate(
                    GraphManualGate { gate_on: on },
                ),
                _ => *final(self) == *old(self),
            },
    {
        match self {
            Node::ManualGate(m) => {
                m.set_gate(on);
                true
            },
            _ => false,
        }
    }
}

} // verus!
