//! The ports that each module of the library declares.

use vstd::prelude::*;
use crate::graph::{port_defaults, port_descriptions, port_names, ports_wf, PortDescriptor};
use crate::graph_modules::{
    GraphFilter, GraphLfo, GraphManualGate, GraphMonoMixer, GraphMult, GraphNoiseGen,
    GraphOscillator, GraphStereoOutput, GraphVca, GraphVisual,
};
use crate::number::{decimal_digits, decimal_text, lemma_point_is_number, Number};
use crate::sequencing::{GraphClockDiv, GraphSeq8, GraphSwitch};
use crate::shaping::{GraphEnvelope, GraphSlewGen};
use crate::text::{append, chars_of, string_from};

verus! {

impl GraphOscillator {
    /// The names of the inputs, in order.
    pub open spec fn input_names() -> Seq<Seq<char>> {
        seq!["freq"@, "fm"@, "sync"@]
    }

    /// The default values of the inputs, in order.
    pub open spec fn input_defaults() -> Seq<Seq<char>> {
        seq!["0"@, "0"@, "0"@]
    }

    /// What the inputs are for, in order.
    pub open spec fn input_descriptions() -> Seq<Seq<char>> {
        seq![
            "Frequency control input (Hz, 0 = use base freq)"@,
            "Frequency modulation input"@,
            "Sync/reset input"@,
        ]
    }

    /// The inputs.
    pub fn inputs(&self) -> (r: Vec<PortDescriptor>)
        ensures
            port_names(r@) == Self::input_names(),
            port_defaults(r@) == Self::input_defaults(),
            port_descriptions(r@) == Self::input_descriptions(),
            ports_wf(r@),
    {
        let mut ports: Vec<PortDescriptor> = Vec::new();
        ports.push(
            PortDescriptor::new(
                "freq",
                Number::zero(),
                "Frequency control input (Hz, 0 = use base freq)",
            ),
        );
        ports.push(PortDescriptor::new("fm", Number::zero(), "Frequency modulation input"));
        ports.push(PortDescriptor::new("sync", Number::zero(), "Sync/reset input"));
        assert(port_names(ports@) =~= Self::input_names());
        assert(port_defaults(ports@) =~= Self::input_defaults());
        assert(port_descriptions(ports@) =~= Self::input_descriptions());
        ports
    }

    /// The names of the outputs, in order.
    pub open spec fn output_names() -> Seq<Seq<char>> {
        seq!["sine"@, "saw"@, "square"@, "triangle"@]
    }

    /// The default values of the outputs, in order.
    pub open spec fn output_defaults() -> Seq<Seq<char>> {
        seq!["0"@, "0"@, "0"@, "0"@]
    }

    /// What the outputs are for, in order.
    pub open spec fn output_descriptions() -> Seq<Seq<char>> {
        seq![
            "Sine wave output"@,
            "Sawtooth wave output"@,
            "Square wave output"@,
            "Triangle wave output"@,
        ]
    }

    /// The outputs.
    pub fn outputs(&self) -> (r: Vec<PortDescriptor>)
        ensures
            port_names(r@) == Self::output_names(),
            port_defaults(r@) == Self::output_defaults(),
            port_descriptions(r@) == Self::output_descriptions(),
            ports_wf(r@),
    {
        let mut ports: Vec<PortDescriptor> = Vec::new();
        ports.push(PortDescriptor::new("sine", Number::zero(), "Sine wave output"));
        ports.push(PortDescriptor::new("saw", Number::zero(), "Sawtooth wave output"));
        ports.push(PortDescriptor::new("square", Number::zero(), "Square wave output"));
        ports.push(PortDescriptor::new("triangle", Number::zero(), "Triangle wave output"));
        assert(port_names(ports@) =~= Self::output_names());
        assert(port_defaults(ports@) =~= Self::output_defaults());
        assert(port_descriptions(ports@) =~= Self::output_descriptions());
        ports
    }
}

impl GraphVca {
    /// The names of the inputs, in order.
    pub open spec fn input_names() -> Seq<Seq<char>> {
        seq!["audio"@, "cv"@, "cv2"@]
    }

    /// The default values of the inputs, in order.
    pub open spec fn input_defaults() -> Seq<Seq<char>> {
        seq!["0"@, "0"@, "1"@]
    }

    /// What the inputs are for, in order.
    pub open spec fn input_descriptions() -> Seq<Seq<char>> {
        seq!["Audio input"@, "Control voltage input (0=closed, 1=open)"@, "Secondary CV input"@]
    }

    /// The inputs.
    pub fn inputs(&self) -> (r: Vec<PortDescriptor>)
        ensures
            port_names(r@) == Self::input_names(),
            port_defaults(r@) == Self::input_defaults(),
            port_descriptions(r@) == Self::input_descriptions(),
            ports_wf(r@),
    {
        let mut ports: Vec<PortDescriptor> = Vec::new();
        ports.push(PortDescriptor::new("audio", Number::zero(), "Audio input"));
        ports.push(
            PortDescriptor::new(
                "cv",
                Number::zero(),
                "Control voltage input (0=closed, 1=open)",
            ),
        );
        ports.push(PortDescriptor::new("cv2", Number::one(), "Secondary CV input"));
        assert(port_names(ports@) =~= Self::input_names());
        assert(port_defaults(ports@) =~= Self::input_defaults());
        assert(port_descriptions(ports@) =~= Self::input_descriptions());
        ports
    }

    /// The names of the outputs, in order.
    pub open spec fn output_names() -> Seq<Seq<char>> {
        seq!["out"@]
    }

    /// The default values of the outputs, in order.
    pub open spec fn output_defaults() -> Seq<Seq<char>> {
        seq!["0"@]
    }

    /// What the outputs are for, in order.
    pub open spec fn output_descriptions() -> Seq<Seq<char>> {
        seq!["Audio output"@]
    }

    /// The outputs.
    pub fn outputs(&self) -> (r: Vec<PortDescriptor>)
        ensures
            port_names(r@) == Self::output_names(),
            port_defaults(r@) == Self::output_defaults(),
            port_descriptions(r@) == Self::output_descriptions(),
            ports_wf(r@),
    {
        let mut ports: Vec<PortDescriptor> = Vec::new();
        ports.push(PortDescriptor::new("out", Number::zero(), "Audio output"));
        assert(port_names(ports@) =~= Self::output_names());
        assert(port_defaults(ports@) =~= Self::output_defaults());
        assert(port_descriptions(ports@) =~= Self::output_descriptions());
        ports
    }
}

impl GraphFilter {
    /// The names of the inputs, in order.
    pub open spec fn input_names() -> Seq<Seq<char>> {
        seq!["audio"@, "cutoff"@, "resonance"@]
    }

    /// The default values of the inputs, in order.
    pub open spec fn input_defaults() -> Seq<Seq<char>> {
        seq!["0"@, "0"@, "0"@]
    }

    /// What the inputs are for, in order.
    pub open spec fn input_descriptions() -> Seq<Seq<char>> {
        seq!["Audio input"@, "Cutoff frequency CV"@, "Resonance CV"@]
    }

    /// The inputs.
    pub fn inputs(&self) -> (r: Vec<PortDescriptor>)
        ensures
            port_names(r@) == Self::input_names(),
            port_defaults(r@) == Self::input_defaults(),
            port_descriptions(r@) == Self::input_descriptions(),
            ports_wf(r@),
    {
        let mut ports: Vec<PortDescriptor> = Vec::new();
        ports.push(PortDescriptor::new("audio", Number::zero(), "Audio input"));
        ports.push(PortDescriptor::new("cutoff", Number::zero(), "Cutoff frequency CV"));
        ports.push(PortDescriptor::new("resonance", Number::zero(), "Resonance CV"));
        assert(port_names(ports@) =~= Self::input_names());
        assert(port_defaults(ports@) =~= Self::input_defaults());
        assert(port_descriptions(ports@) =~= Self::input_descriptions());
        ports
    }

    /// The names of the outputs, in order.
    pub open spec fn output_names() -> Seq<Seq<char>> {
        seq!["lp"@, "hp"@]
    }

    /// The default values of the outputs, in order.
    pub open spec fn output_defaults() -> Seq<Seq<char>> {
        seq!["0"@, "0"@]
    }

    /// What the outputs are for, in order.
    pub open spec fn output_descriptions() -> Seq<Seq<char>> {
        seq!["Lowpass output"@, "Highpass output"@]
    }

    /// The outputs.
    pub fn outputs(&self) -> (r: Vec<PortDescriptor>)
        ensures
            port_names(r@) == Self::output_names(),
            port_defaults(r@) == Self::output_defaults(),
            port_descriptions(r@) == Self::output_descriptions(),
            ports_wf(r@),
    {
        let mut ports: Vec<PortDescriptor> = Vec::new();
        ports.push(PortDescriptor::new("lp", Number::zero(), "Lowpass output"));
        ports.push(PortDescriptor::new("hp", Number::zero(), "Highpass output"));
        assert(port_names(ports@) =~= Self::output_names());
        assert(port_defaults(ports@) =~= Self::output_defaults());
        assert(port_descriptions(ports@) =~= Self::output_descriptions());
        ports
    }
}

impl GraphLfo {
    /// The names of the inputs, in order.
    pub open spec fn input_names() -> Seq<Seq<char>> {
        seq!["sync"@]
    }

    /// The default values of the inputs, in order.
    pub open spec fn input_defaults() -> Seq<Seq<char>> {
        seq!["0"@]
    }

    /// What the inputs are for, in order.
    pub open spec fn input_descriptions() -> Seq<Seq<char>> {
        seq!["Sync/reset input"@]
    }

    /// The inputs.
    pub fn inputs(&self) -> (r: Vec<PortDescriptor>)
        ensures
            port_names(r@) == Self::input_names(),
            port_defaults(r@) == Self::input_defaults(),
            port_descriptions(r@) == Self::input_descriptions(),
            ports_wf(r@),
    {
        let mut ports: Vec<PortDescriptor> = Vec::new();
        ports.push(PortDescriptor::new("sync", Number::zero(), "Sync/reset input"));
        assert(port_names(ports@) =~= Self::input_names());
        assert(port_defaults(ports@) =~= Self::input_defaults());
        assert(port_descriptions(ports@) =~= Self::input_descriptions());
        ports
    }

    /// The names of the outputs, in order.
    pub open spec fn output_names() -> Seq<Seq<char>> {
        seq!["sine"@, "square"@, "gate"@, "ramp"@]
    }

    /// The default values of the outputs, in order.
    pub open spec fn output_defaults() -> Seq<Seq<char>> {
        seq!["0"@, "0"@, "0"@, "0"@]
    }

    /// What the outputs are for, in order.
    pub open spec fn output_descriptions() -> Seq<Seq<char>> {
        seq![
            "Sine wave output (bipolar: -1 to 1)"@,
            "Square wave output (bipolar: -1 to 1)"@,
            "Gate output (unipolar: 0 to 1)"@,
            "Ramp/saw output (unipolar: 0 to 1)"@,
        ]
    }

    /// The outputs.
    pub fn outputs(&self) -> (r: Vec<PortDescriptor>)
        ensures
            port_names(r@) == Self::output_names(),
            port_defaults(r@) == Self::output_defaults(),
            port_descriptions(r@) == Self::output_descriptions(),
            ports_wf(r@),
    {
        let mut ports: Vec<PortDescriptor> = Vec::new();
        ports.push(
            PortDescriptor::new(
                "sine",
                Number::zero(),
                "Sine wave output (bipolar: -1 to 1)",
            ),
        );
        ports.push(
            PortDescriptor::new(
                "square",
                Number::zero(),
                "Square wave output (bipolar: -1 to 1)",
            ),
        );
        ports.push(PortDescriptor::new("gate", Number::zero(), "Gate output (unipolar: 0 to 1)"));
        ports.push(
            PortDescriptor::new(
                "ramp",
                Number::zero(),
                "Ramp/saw output (unipolar: 0 to 1)",
            ),
        );
        assert(port_names(ports@) =~= Self::output_names());
        assert(port_defaults(ports@) =~= Self::output_defaults());
        assert(port_descriptions(ports@) =~= Self::output_descriptions());
        ports
    }
}

impl GraphManualGate {
    /// The names of the inputs, in order.
    pub open spec fn input_names() -> Seq<Seq<char>> {
        Seq::<Seq<char>>::empty()
    }

    /// The default values of the inputs, in order.
    pub open spec fn input_defaults() -> Seq<Seq<char>> {
        Seq::<Seq<char>>::empty()
    }

    /// What the inputs are for, in order.
    pub open spec fn input_descriptions() -> Seq<Seq<char>> {
        Seq::<Seq<char>>::empty()
    }

    /// The inputs.
    pub fn inputs(&self) -> (r: Vec<PortDescriptor>)
        ensures
            port_names(r@) == Self::input_names(),
            port_defaults(r@) == Self::input_defaults(),
            port_descriptions(r@) == Self::input_descriptions(),
            ports_wf(r@),
    {
        let ports: Vec<PortDescriptor> = Vec::new();
        assert(port_names(ports@) =~= Self::input_names());
        assert(port_defaults(ports@) =~= Self::input_defaults());
        assert(port_descriptions(ports@) =~= Self::input_descriptions());
        ports
    }

    /// The names of the outputs, in order.
    pub open spec fn output_names() -> Seq<Seq<char>> {
        seq!["gate"@, "trig"@]
    }

    /// The default values of the outputs, in order.
    pub open spec fn output_defaults() -> Seq<Seq<char>> {
        seq!["0"@, "0"@]
    }

    /// What the outputs are for, in order.
    pub open spec fn output_descriptions() -> Seq<Seq<char>> {
        seq!["Gate output (0 or 1)"@, "Trigger output (pulse on key press)"@]
    }

    /// The outputs.
    pub fn outputs(&self) -> (r: Vec<PortDescriptor>)
        ensures
            port_names(r@) == Self::output_names(),
            port_defaults(r@) == Self::output_defaults(),
            port_descriptions(r@) == Self::output_descriptions(),
            ports_wf(r@),
    {
        let mut ports: Vec<PortDescriptor> = Vec::new();
        ports.push(PortDescriptor::new("gate", Number::zero(), "Gate output (0 or 1)"));
        ports.push(
            PortDescriptor::new(
                "trig",
                Number::zero(),
                "Trigger output (pulse on key press)",
            ),
        );
        assert(port_names(ports@) =~= Self::output_names());
        assert(port_defaults(ports@) =~= Self::output_defaults());
        assert(port_descriptions(ports@) =~= Self::output_descriptions());
        ports
    }
}

impl GraphStereoOutput {
    /// The names of the inputs, in order.
    pub open spec fn input_names() -> Seq<Seq<char>> {
        seq!["left"@, "right"@, "mono"@]
    }

    /// The default values of the inputs, in order.
    pub open spec fn input_defaults() -> Seq<Seq<char>> {
        seq!["0"@, "0"@, "0"@]
    }

    /// What the inputs are for, in order.
    pub open spec fn input_descriptions() -> Seq<Seq<char>> {
        seq![
            "Left channel input"@,
            "Right channel input"@,
            "Mono input (routed to both channels)"@,
        ]
    }

    /// The inputs.
    pub fn inputs(&self) -> (r: Vec<PortDescriptor>)
        ensures
            port_names(r@) == Self::input_names(),
            port_defaults(r@) == Self::input_defaults(),
            port_descriptions(r@) == Self::input_descriptions(),
            ports_wf(r@),
    {
        let mut ports: Vec<PortDescriptor> = Vec::new();
        ports.push(PortDescriptor::new("left", Number::zero(), "Left channel input"));
        ports.push(PortDescriptor::new("right", Number::zero(), "Right channel input"));
        ports.push(
            PortDescriptor::new(
                "mono",
                Number::zero(),
                "Mono input (routed to both channels)",
            ),
        );
        assert(port_names(ports@) =~= Self::input_names());
        assert(port_defaults(ports@) =~= Self::input_defaults());
        assert(port_descriptions(ports@) =~= Self::input_descriptions());
        ports
    }

    /// The names of the outputs, in order.
    pub open spec fn output_names() -> Seq<Seq<char>> {
        seq!["left"@, "right"@]
    }

    /// The default values of the outputs, in order.
    pub open spec fn output_defaults() -> Seq<Seq<char>> {
        seq!["0"@, "0"@]
    }

    /// What the outputs are for, in order.
    pub open spec fn output_descriptions() -> Seq<Seq<char>> {
        seq!["Left channel output"@, "Right channel output"@]
    }

    /// The outputs.
    pub fn outputs(&self) -> (r: Vec<PortDescriptor>)
        ensures
            port_names(r@) == Self::output_names(),
            port_defaults(r@) == Self::output_defaults(),
            port_descriptions(r@) == Self::output_descriptions(),
            ports_wf(r@),
    {
        let mut ports: Vec<PortDescriptor> = Vec::new();
        ports.push(PortDescriptor::new("left", Number::zero(), "Left channel output"));
        ports.push(PortDescriptor::new("right", Number::zero(), "Right channel output"));
        assert(port_names(ports@) =~= Self::output_names());
        assert(port_defaults(ports@) =~= Self::output_defaults());
        assert(port_descriptions(ports@) =~= Self::output_descriptions());
        ports
    }
}

impl GraphNoiseGen {
    /// The names of the inputs, in order.
    pub open spec fn input_names() -> Seq<Seq<char>> {
        Seq::<Seq<char>>::empty()
    }

    /// The default values of the inputs, in order.
    pub open spec fn input_defaults() -> Seq<Seq<char>> {
        Seq::<Seq<char>>::empty()
    }

    /// What the inputs are for, in order.
    pub open spec fn input_descriptions() -> Seq<Seq<char>> {
        Seq::<Seq<char>>::empty()
    }

    /// The inputs.
    pub fn inputs(&self) -> (r: Vec<PortDescriptor>)
        ensures
            port_names(r@) == Self::input_names(),
            port_defaults(r@) == Self::input_defaults(),
            port_descriptions(r@) == Self::input_descriptions(),
            ports_wf(r@),
    {
        let ports: Vec<PortDescriptor> = Vec::new();
        assert(port_names(ports@) =~= Self::input_names());
        assert(port_defaults(ports@) =~= Self::input_defaults());
        assert(port_descriptions(ports@) =~= Self::input_descriptions());
        ports
    }

    /// The names of the outputs, in order.
    pub open spec fn output_names() -> Seq<Seq<char>> {
        seq!["white"@, "pink"@, "brown"@]
    }

    /// The default values of the outputs, in order.
    pub open spec fn output_defaults() -> Seq<Seq<char>> {
        seq!["0"@, "0"@, "0"@]
    }

    /// What the outputs are for, in order.
    pub open spec fn output_descriptions() -> Seq<Seq<char>> {
        seq![
            "White noise output (flat spectrum)"@,
            "Pink noise output (-3dB/octave)"@,
            "Brown/red noise output (-6dB/octave)"@,
        ]
    }

    /// The outputs.
    pub fn outputs(&self) -> (r: Vec<PortDescriptor>)
        ensures
            port_names(r@) == Self::output_names(),
            port_defaults(r@) == Self::output_defaults(),
            port_descriptions(r@) == Self::output_descriptions(),
            ports_wf(r@),
    {
        let mut ports: Vec<PortDescriptor> = Vec::new();
        ports.push(
            PortDescriptor::new(
                "white",
                Number::zero(),
                "White noise output (flat spectrum)",
            ),
        );
        ports.push(PortDescriptor::new("pink", Number::zero(), "Pink noise output (-3dB/octave)"));
        ports.push(
            PortDescriptor::new(
                "brown",
                Number::zero(),
                "Brown/red noise output (-6dB/octave)",
            ),
        );
        assert(port_names(ports@) =~= Self::output_names());
        assert(port_defaults(ports@) =~= Self::output_defaults());
        assert(port_descriptions(ports@) =~= Self::output_descriptions());
        ports
    }
}

impl GraphSlewGen {
    /// The names of the inputs, in order.
    pub open spec fn input_names() -> Seq<Seq<char>> {
        seq!["in"@, "rise"@, "fall"@]
    }

    /// The default values of the inputs, in order.
    pub open spec fn input_defaults() -> Seq<Seq<char>> {
        seq!["0"@, "0"@, "0"@]
    }

    /// What the inputs are for, in order.
    pub open spec fn input_descriptions() -> Seq<Seq<char>> {
        seq![
            "Input signal to smooth"@,
            "Rise time CV (0V = use parameter, >0V = override)"@,
            "Fall time CV (0V = use parameter, >0V = override)"@,
        ]
    }

    /// The inputs.
    pub fn inputs(&self) -> (r: Vec<PortDescriptor>)
        ensures
            port_names(r@) == Self::input_names(),
            port_defaults(r@) == Self::input_defaults(),
            port_descriptions(r@) == Self::input_descriptions(),
            ports_wf(r@),
    {
        let mut ports: Vec<PortDescriptor> = Vec::new();
        ports.push(PortDescriptor::new("in", Number::zero(), "Input signal to smooth"));
        ports.push(
            PortDescriptor::new(
                "rise",
                Number::zero(),
                "Rise time CV (0V = use parameter, >0V = override)",
            ),
        );
        ports.push(
            PortDescriptor::new(
                "fall",
                Number::zero(),
                "Fall time CV (0V = use parameter, >0V = override)",
            ),
        );
        assert(port_names(ports@) =~= Self::input_names());
        assert(port_defaults(ports@) =~= Self::input_defaults());
        assert(port_descriptions(ports@) =~= Self::input_descriptions());
        ports
    }

    /// The names of the outputs, in order.
    pub open spec fn output_names() -> Seq<Seq<char>> {
        seq!["out"@, "eor"@, "eoc"@]
    }

    /// The default values of the outputs, in order.
    pub open spec fn output_defaults() -> Seq<Seq<char>> {
        seq!["0"@, "0"@, "0"@]
    }

    /// What the outputs are for, in order.
    pub open spec fn output_descriptions() -> Seq<Seq<char>> {
        seq![
            "Smoothed output signal"@,
            "End-of-rise gate (fires when reaching target while rising)"@,
            "End-of-cycle gate (fires when reaching target while falling)"@,
        ]
    }

    /// The outputs.
    pub fn outputs(&self) -> (r: Vec<PortDescriptor>)
        ensures
            port_names(r@) == Self::output_names(),
            port_defaults(r@) == Self::output_defaults(),
            port_descriptions(r@) == Self::output_descriptions(),
            ports_wf(r@),
    {
        let mut ports: Vec<PortDescriptor> = Vec::new();
        ports.push(PortDescriptor::new("out", Number::zero(), "Smoothed output signal"));
        ports.push(
            PortDescriptor::new(
                "eor",
                Number::zero(),
                "End-of-rise gate (fires when reaching target while rising)",
            ),
        );
        ports.push(
            PortDescriptor::new(
                "eoc",
                Number::zero(),
                "End-of-cycle gate (fires when reaching target while falling)",
            ),
        );
        assert(port_names(ports@) =~= Self::output_names());
        assert(port_defaults(ports@) =~= Self::output_defaults());
        assert(port_descriptions(ports@) =~= Self::output_descriptions());
        ports
    }
}

impl GraphVisual {
    /// The names of the inputs, in order.
    pub open spec fn input_names() -> Seq<Seq<char>> {
        seq!["input"@]
    }

    /// The default values of the inputs, in order.
    pub open spec fn input_defaults() -> Seq<Seq<char>> {
        seq!["0"@]
    }

    /// What the inputs are for, in order.
    pub open spec fn input_descriptions() -> Seq<Seq<char>> {
        seq!["Signal to monitor"@]
    }

    /// The inputs.
    pub fn inputs(&self) -> (r: Vec<PortDescriptor>)
        ensures
            port_names(r@) == Self::input_names(),
            port_defaults(r@) == Self::input_defaults(),
            port_descriptions(r@) == Self::input_descriptions(),
            ports_wf(r@),
    {
        let mut ports: Vec<PortDescriptor> = Vec::new();
        ports.push(PortDescriptor::new("input", Number::zero(), "Signal to monitor"));
        assert(port_names(ports@) =~= Self::input_names());
        assert(port_defaults(ports@) =~= Self::input_defaults());
        assert(port_descriptions(ports@) =~= Self::input_descriptions());
        ports
    }

    /// The names of the outputs, in order.
    pub open spec fn output_names() -> Seq<Seq<char>> {
        Seq::<Seq<char>>::empty()
    }

    /// The default values of the outputs, in order.
    pub open spec fn output_defaults() -> Seq<Seq<char>> {
        Seq::<Seq<char>>::empty()
    }

    /// What the outputs are for, in order.
    pub open spec fn output_descriptions() -> Seq<Seq<char>> {
        Seq::<Seq<char>>::empty()
    }

    /// The outputs.
    pub fn outputs(&self) -> (r: Vec<PortDescriptor>)
        ensures
            port_names(r@) == Self::output_names(),
            port_defaults(r@) == Self::output_defaults(),
            port_descriptions(r@) == Self::output_descriptions(),
            ports_wf(r@),
    {
        let ports: Vec<PortDescriptor> = Vec::new();
        assert(port_names(ports@) =~= Self::output_names());
        assert(port_defaults(ports@) =~= Self::output_defaults());
        assert(port_descriptions(ports@) =~= Self::output_descriptions());
        ports
    }
}

impl GraphMult {
    /// The names of the inputs, in order.
    pub open spec fn input_names() -> Seq<Seq<char>> {
        seq!["input"@]
    }

    /// The default values of the inputs, in order.
    pub open spec fn input_defaults() -> Seq<Seq<char>> {
        seq!["0"@]
    }

    /// What the inputs are for, in order.
    pub open spec fn input_descriptions() -> Seq<Seq<char>> {
        seq!["Input signal to multiply"@]
    }

    /// The inputs.
    pub fn inputs(&self) -> (r: Vec<PortDescriptor>)
        ensures
            port_names(r@) == Self::input_names(),
            port_defaults(r@) == Self::input_defaults(),
            port_descriptions(r@) == Self::input_descriptions(),
            ports_wf(r@),
    {
        let mut ports: Vec<PortDescriptor> = Vec::new();
        ports.push(PortDescriptor::new("input", Number::zero(), "Input signal to multiply"));
        assert(port_names(ports@) =~= Self::input_names());
        assert(port_defaults(ports@) =~= Self::input_defaults());
        assert(port_descriptions(ports@) =~= Self::input_descriptions());
        ports
    }

    /// The names of the outputs, in order.
    pub open spec fn output_names() -> Seq<Seq<char>> {
        seq!["out1"@, "out2"@, "out3"@, "out4"@]
    }

    /// The default values of the outputs, in order.
    pub open spec fn output_defaults() -> Seq<Seq<char>> {
        seq!["0"@, "0"@, "0"@, "0"@]
    }

    /// What the outputs are for, in order.
    pub open spec fn output_descriptions() -> Seq<Seq<char>> {
        seq!["Output 1"@, "Output 2"@, "Output 3"@, "Output 4"@]
    }

    /// The outputs.
    pub fn outputs(&self) -> (r: Vec<PortDescriptor>)
        ensures
            port_names(r@) == Self::output_names(),
            port_defaults(r@) == Self::output_defaults(),
            port_descriptions(r@) == Self::output_descriptions(),
            ports_wf(r@),
    {
        let mut ports: Vec<PortDescriptor> = Vec::new();
        ports.push(PortDescriptor::new("out1", Number::zero(), "Output 1"));
        ports.push(PortDescriptor::new("out2", Number::zero(), "Output 2"));
        ports.push(PortDescriptor::new("out3", Number::zero(), "Output 3"));
        ports.push(PortDescriptor::new("out4", Number::zero(), "Output 4"));
        assert(port_names(ports@) =~= Self::output_names());
        assert(port_defaults(ports@) =~= Self::output_defaults());
        assert(port_descriptions(ports@) =~= Self::output_descriptions());
        ports
    }
}

impl GraphClockDiv {
    /// The names of the inputs, in order.
    pub open spec fn input_names() -> Seq<Seq<char>> {
        seq!["clock"@, "reset"@]
    }

    /// The default values of the inputs, in order.
    pub open spec fn input_defaults() -> Seq<Seq<char>> {
        seq!["0"@, "0"@]
    }

    /// What the inputs are for, in order.
    pub open spec fn input_descriptions() -> Seq<Seq<char>> {
        seq!["Input clock signal"@, "Reset counter"@]
    }

    /// The inputs.
    pub fn inputs(&self) -> (r: Vec<PortDescriptor>)
        ensures
            port_names(r@) == Self::input_names(),
            port_defaults(r@) == Self::input_defaults(),
            port_descriptions(r@) == Self::input_descriptions(),
            ports_wf(r@),
    {
        let mut ports: Vec<PortDescriptor> = Vec::new();
        ports.push(PortDescriptor::new("clock", Number::zero(), "Input clock signal"));
        ports.push(PortDescriptor::new("reset", Number::zero(), "Reset counter"));
        assert(port_names(ports@) =~= Self::input_names());
        assert(port_defaults(ports@) =~= Self::input_defaults());
        assert(port_descriptions(ports@) =~= Self::input_descriptions());
        ports
    }

    /// The names of the outputs, in order.
    pub open spec fn output_names() -> Seq<Seq<char>> {
        seq!["out"@, "gate"@]
    }

    /// The default values of the outputs, in order.
    pub open spec fn output_defaults() -> Seq<Seq<char>> {
        seq!["0"@, "0"@]
    }

    /// What the outputs are for, in order.
    pub open spec fn output_descriptions() -> Seq<Seq<char>> {
        seq!["Divided clock output"@, "Gate output for divided clock"@]
    }

    /// The outputs.
    pub fn outputs(&self) -> (r: Vec<PortDescriptor>)
        ensures
            port_names(r@) == Self::output_names(),
            port_defaults(r@) == Self::output_defaults(),
            port_descriptions(r@) == Self::output_descriptions(),
            ports_wf(r@),
    {
        let mut ports: Vec<PortDescriptor> = Vec::new();
        ports.push(PortDescriptor::new("out", Number::zero(), "Divided clock output"));
        ports.push(PortDescriptor::new("gate", Number::zero(), "Gate output for divided clock"));
        assert(port_names(ports@) =~= Self::output_names());
        assert(port_defaults(ports@) =~= Self::output_defaults());
        assert(port_descriptions(ports@) =~= Self::output_descriptions());
        ports
    }
}

impl GraphEnvelope {
    /// The names of the inputs, in order.
    pub open spec fn input_names() -> Seq<Seq<char>> {
        seq!["gate"@]
    }

    /// The default values of the inputs, in order.
    pub open spec fn input_defaults() -> Seq<Seq<char>> {
        seq!["0"@]
    }

    /// What the inputs are for, in order.
    pub open spec fn input_descriptions() -> Seq<Seq<char>> {
        seq!["Gate/trigger input"@]
    }

    /// The inputs.
    pub fn inputs(&self) -> (r: Vec<PortDescriptor>)
        ensures
            port_names(r@) == Self::input_names(),
            port_defaults(r@) == Self::input_defaults(),
            port_descriptions(r@) == Self::input_descriptions(),
            ports_wf(r@),
    {
        let mut ports: Vec<PortDescriptor> = Vec::new();
        ports.push(PortDescriptor::new("gate", Number::zero(), "Gate/trigger input"));
        assert(port_names(ports@) =~= Self::input_names());
        assert(port_defaults(ports@) =~= Self::input_defaults());
        assert(port_descriptions(ports@) =~= Self::input_descriptions());
        ports
    }

    /// The names of the outputs, in order.
    pub open spec fn output_names() -> Seq<Seq<char>> {
        seq!["out"@]
    }

    /// The default values of the outputs, in order.
    pub open spec fn output_defaults() -> Seq<Seq<char>> {
        seq!["0"@]
    }

    /// What the outputs are for, in order.
    pub open spec fn output_descriptions() -> Seq<Seq<char>> {
        seq!["Envelope output"@]
    }

    /// The outputs.
    pub fn outputs(&self) -> (r: Vec<PortDescriptor>)
        ensures
            port_names(r@) == Self::output_names(),
            port_defaults(r@) == Self::output_defaults(),
            port_descriptions(r@) == Self::output_descriptions(),
            ports_wf(r@),
    {
        let mut ports: Vec<PortDescriptor> = Vec::new();
        ports.push(PortDescriptor::new("out", Number::zero(), "Envelope output"));
        assert(port_names(ports@) =~= Self::output_names());
        assert(port_defaults(ports@) =~= Self::output_defaults());
        assert(port_descriptions(ports@) =~= Self::output_descriptions());
        ports
    }
}

impl GraphMonoMixer {
    /// The names of the outputs, in order.
    pub open spec fn output_names() -> Seq<Seq<char>> {
        seq!["out"@]
    }

    /// The default values of the outputs, in order.
    pub open spec fn output_defaults() -> Seq<Seq<char>> {
        seq!["0"@]
    }

    /// What the outputs are for, in order.
    pub open spec fn output_descriptions() -> Seq<Seq<char>> {
        seq!["Mixed audio output"@]
    }

    /// The outputs.
    pub fn outputs(&self) -> (r: Vec<PortDescriptor>)
        ensures
            port_names(r@) == Self::output_names(),
            port_defaults(r@) == Self::output_defaults(),
            port_descriptions(r@) == Self::output_descriptions(),
            ports_wf(r@),
    {
        let mut ports: Vec<PortDescriptor> = Vec::new();
        ports.push(PortDescriptor::new("out", Number::zero(), "Mixed audio output"));
        assert(port_names(ports@) =~= Self::output_names());
        assert(port_defaults(ports@) =~= Self::output_defaults());
        assert(port_descriptions(ports@) =~= Self::output_descriptions());
        ports
    }
}

impl GraphSwitch {
    /// The names of the outputs, in order.
    pub open spec fn output_names() -> Seq<Seq<char>> {
        seq!["out"@, "gate"@]
    }

    /// The default values of the outputs, in order.
    pub open spec fn output_defaults() -> Seq<Seq<char>> {
        seq!["0"@, "0"@]
    }

    /// What the outputs are for, in order.
    pub open spec fn output_descriptions() -> Seq<Seq<char>> {
        seq!["Selected input output"@, "Gate output when switching"@]
    }

    /// The outputs.
    pub fn outputs(&self) -> (r: Vec<PortDescriptor>)
        ensures
            port_names(r@) == Self::output_names(),
            port_defaults(r@) == Self::output_defaults(),
            port_descriptions(r@) == Self::output_descriptions(),
            ports_wf(r@),
    {
        let mut ports: Vec<PortDescriptor> = Vec::new();
        ports.push(PortDescriptor::new("out", Number::zero(), "Selected input output"));
        ports.push(PortDescriptor::new("gate", Number::zero(), "Gate output when switching"));
        assert(port_names(ports@) =~= Self::output_names());
        assert(port_defaults(ports@) =~= Self::output_defaults());
        assert(port_descriptions(ports@) =~= Self::output_descriptions());
        ports
    }
}

impl GraphSeq8 {
    /// The names of the outputs, in order.
    pub open spec fn output_names() -> Seq<Seq<char>> {
        seq!["cv"@, "gate"@, "step"@]
    }

    /// The default values of the outputs, in order.
    pub open spec fn output_defaults() -> Seq<Seq<char>> {
        seq!["0"@, "0"@, "0"@]
    }

    /// What the outputs are for, in order.
    pub open spec fn output_descriptions() -> Seq<Seq<char>> {
        seq![
            "CV output for current step"@,
            "Gate output for current step"@,
            "Current step number (0-7)"@,
        ]
    }

    /// The outputs.
    pub fn outputs(&self) -> (r: Vec<PortDescriptor>)
        ensures
            port_names(r@) == Self::output_names(),
            port_defaults(r@) == Self::output_defaults(),
            port_descriptions(r@) == Self::output_descriptions(),
            ports_wf(r@),
    {
        let mut ports: Vec<PortDescriptor> = Vec::new();
        ports.push(PortDescriptor::new("cv", Number::zero(), "CV output for current step"));
        ports.push(PortDescriptor::new("gate", Number::zero(), "Gate output for current step"));
        ports.push(PortDescriptor::new("step", Number::zero(), "Current step number (0-7)"));
        assert(port_names(ports@) =~= Self::output_names());
        assert(port_defaults(ports@) =~= Self::output_defaults());
        assert(port_descriptions(ports@) =~= Self::output_descriptions());
        ports
    }
}

/// The name made of `prefix` and the number `i`.
pub open spec fn numbered(prefix: Seq<char>, i: nat) -> Seq<char> {
    prefix + decimal_text(i)
}

/// Makes a name of `prefix` and the number `i`.
pub fn numbered_name(prefix: &str, i: usize) -> (r: String)
    ensures
        r@ == numbered(prefix@, i as nat),
{
    let mut v = chars_of(prefix);
    append(&mut v, &decimal_digits(i));
    string_from(&v)
}

/// Adds the ports `prefix1` to `prefixN` for `N = count` to `ports`, each
/// with the default value `default` and with a description made of
/// `description` and its number.
fn push_numbered(
    ports: &mut Vec<PortDescriptor>,
    prefix: &str,
    count: usize,
    default: &Number,
    description: &str,
)
    requires
        default.wf(),
        ports_wf(old(ports)@),
    ensures
        final(ports)@.len() == old(ports)@.len() + count,
        forall|k: int| 0 <= k < old(ports)@.len() ==> final(ports)@[k] == old(ports)@[k],
        forall|j: int|
            old(ports)@.len() <= j < old(ports)@.len() + count ==> (#[trigger] final(ports)@[j]).name@
                == numbered(prefix@, (j - old(ports)@.len() + 1) as nat)
                && final(ports)@[j].default_value@ == default@ && final(ports)@[j].description@
                == numbered(description@, (j - old(ports)@.len() + 1) as nat),
        ports_wf(final(ports)@),
{
    let ghost before = ports@;
    let mut i: usize = 0;
    while i < count
        invariant
            i <= count,
            default.wf(),
            ports@.len() == before.len() + i,
            forall|k: int| 0 <= k < before.len() ==> ports@[k] == before[k],
            forall|j: int|
                before.len() <= j < before.len() + i ==> (#[trigger] ports@[j]).name@ == numbered(
                    prefix@,
                    (j - before.len() + 1) as nat,
                ) && ports@[j].default_value@ == default@ && ports@[j].description@ == numbered(
                    description@,
                    (j - before.len() + 1) as nat,
                ),
            ports_wf(ports@),
        decreases count - i,
    {
        let name = numbered_name(prefix, i + 1);
        let text = numbered_name(description, i + 1);
        ports.push(PortDescriptor::new(name.as_str(), default.clone(), text.as_str()));
        i += 1;
    }
}

impl GraphMonoMixer {
    /// The names of the inputs, in order: an input and a level for each
    /// channel, and the master level.
    pub open spec fn input_names(&self) -> Seq<Seq<char>> {
        let n = self.input_count as int;
        Seq::new(
            (2 * n + 1) as nat,
            |k: int|
                if k < n {
                    numbered("in"@, (k + 1) as nat)
                } else if k < 2 * n {
                    numbered("level"@, (k - n + 1) as nat)
                } else {
                    "master"@
                },
        )
    }

    /// The default values of the inputs, in order: 0 for an input, 1 for a level.
    pub open spec fn input_defaults(&self) -> Seq<Seq<char>> {
        let n = self.input_count as int;
        Seq::new(
            (2 * n + 1) as nat,
            |k: int|
                if k < n {
                    "0"@
                } else {
                    "1"@
                },
        )
    }

    /// What the inputs are for, in order.
    pub open spec fn input_descriptions(&self) -> Seq<Seq<char>> {
        let n = self.input_count as int;
        Seq::new(
            (2 * n + 1) as nat,
            |k: int|
                if k < n {
                    numbered("Audio input "@, (k + 1) as nat)
                } else if k < 2 * n {
                    numbered("Level control for input "@, (k - n + 1) as nat)
                } else {
                    "Master level control"@
                },
        )
    }

    /// The inputs.
    pub fn inputs(&self) -> (r: Vec<PortDescriptor>)
        ensures
            port_names(r@) == self.input_names(),
            port_defaults(r@) == self.input_defaults(),
            port_descriptions(r@) == self.input_descriptions(),
            ports_wf(r@),
    {
        let mut ports: Vec<PortDescriptor> = Vec::new();
        push_numbered(&mut ports, "in", self.input_count, &Number::zero(), "Audio input ");
        push_numbered(
            &mut ports,
            "level",
            self.input_count,
            &Number::one(),
            "Level control for input ",
        );
        ports.push(PortDescriptor::new("master", Number::one(), "Master level control"));
        assert forall|k: int| 0 <= k < ports@.len() implies port_names(ports@)[k]
            == self.input_names()[k] && port_defaults(ports@)[k] == self.input_defaults()[k]
            && port_descriptions(ports@)[k] == self.input_descriptions()[k] by {
            assert(ports@[k].name@ == self.input_names()[k]);
            assert(ports@[k].description@ == self.input_descriptions()[k]);
        }
        assert(port_names(ports@) =~= self.input_names());
        assert(port_defaults(ports@) =~= self.input_defaults());
        assert(port_descriptions(ports@) =~= self.input_descriptions());
        ports
    }
}

impl GraphSwitch {
    /// The names of the inputs, in order: clock, reset, and the inputs to
    /// choose from.
    pub open spec fn input_names(&self) -> Seq<Seq<char>> {
        Seq::new(
            (self.input_count + 2) as nat,
            |k: int|
                if k == 0 {
                    "clock"@
                } else if k == 1 {
                    "reset"@
                } else {
                    numbered("in"@, (k - 1) as nat)
                },
        )
    }

    /// The default values of the inputs, in order.
    pub open spec fn input_defaults(&self) -> Seq<Seq<char>> {
        Seq::new((self.input_count + 2) as nat, |k: int| "0"@)
    }

    /// What the inputs are for, in order.
    pub open spec fn input_descriptions(&self) -> Seq<Seq<char>> {
        Seq::new(
            (self.input_count + 2) as nat,
            |k: int|
                if k == 0 {
                    "Clock input to advance switch position"@
                } else if k == 1 {
                    "Reset switch to input 1"@
                } else {
                    numbered("Input "@, (k - 1) as nat)
                },
        )
    }

    /// The inputs.
    pub fn inputs(&self) -> (r: Vec<PortDescriptor>)
        ensures
            port_names(r@) == self.input_names(),
            port_defaults(r@) == self.input_defaults(),
            port_descriptions(r@) == self.input_descriptions(),
            ports_wf(r@),
    {
        let mut ports: Vec<PortDescriptor> = Vec::new();
        ports.push(
            PortDescriptor::new("clock", Number::zero(), "Clock input to advance switch position"),
        );
        ports.push(PortDescriptor::new("reset", Number::zero(), "Reset switch to input 1"));
        push_numbered(&mut ports, "in", self.input_count, &Number::zero(), "Input ");
        assert forall|k: int| 0 <= k < ports@.len() implies port_names(ports@)[k]
            == self.input_names()[k] && port_defaults(ports@)[k] == self.input_defaults()[k]
            && port_descriptions(ports@)[k] == self.input_descriptions()[k] by {
            assert(ports@[k].name@ == self.input_names()[k]);
            assert(ports@[k].description@ == self.input_descriptions()[k]);
        }
        assert(port_names(ports@) =~= self.input_names());
        assert(port_defaults(ports@) =~= self.input_defaults());
        assert(port_descriptions(ports@) =~= self.input_descriptions());
        ports
    }
}

/// The `i`-th seventh as it is written: the default value of the step `i + 1`.
pub open spec fn seventh_text(i: int) -> Seq<char> {
    if i == 1 {
        "0.14285715"@
    } else if i == 2 {
        "0.2857143"@
    } else if i == 3 {
        "0.42857143"@
    } else if i == 4 {
        "0.5714286"@
    } else if i == 5 {
        "0.71428573"@
    } else if i == 6 {
        "0.85714287"@
    } else if i == 7 {
        "1"@
    } else {
        "0"@
    }
}

/// The `i`-th seventh.
fn seventh(i: usize) -> (r: Number)
    ensures
        r@ == seventh_text(i as int),
        r.wf(),
{
    let text = if i == 1 {
        "0.14285715"
    } else if i == 2 {
        "0.2857143"
    } else if i == 3 {
        "0.42857143"
    } else if i == 4 {
        "0.5714286"
    } else if i == 5 {
        "0.71428573"
    } else if i == 6 {
        "0.85714287"
    } else if i == 7 {
        "1"
    } else {
        "0"
    };
    proof {
        reveal_strlit("0.14285715");
        reveal_strlit("0.2857143");
        reveal_strlit("0.42857143");
        reveal_strlit("0.5714286");
        reveal_strlit("0.71428573");
        reveal_strlit("0.85714287");
        reveal_strlit("1");
        reveal_strlit("0");
        if 1 <= i <= 6 {
            lemma_point_is_number(text@, 1);
        } else {
            crate::number::lemma_digits_are_number(text@);
        }
    }
    Number::literal(text)
}

impl GraphSeq8 {
    /// The names of the inputs, in order: clock, reset, reverse, length and
    /// gate length, then a value and then a gate switch for each step.
    pub open spec fn input_names() -> Seq<Seq<char>> {
        Seq::new(
            21,
            |k: int|
                if k == 0 {
                    "clock"@
                } else if k == 1 {
                    "reset"@
                } else if k == 2 {
                    "reverse"@
                } else if k == 3 {
                    "length"@
                } else if k == 4 {
                    "gate_length"@
                } else if k < 13 {
                    numbered("step"@, (k - 4) as nat)
                } else {
                    numbered("gate"@, (k - 12) as nat)
                },
        )
    }

    /// The default values of the inputs, in order: the steps rise by
    /// sevenths from 0 to 1, and every gate is switched on.
    pub open spec fn input_defaults() -> Seq<Seq<char>> {
        Seq::new(
            21,
            |k: int|
                if k < 3 {
                    "0"@
                } else if k == 3 {
                    "8"@
                } else if k == 4 {
                    "0.1"@
                } else if k < 13 {
                    seventh_text(k - 5)
                } else {
                    "1"@
                },
        )
    }

    /// What the inputs are for, in order.
    pub open spec fn input_descriptions() -> Seq<Seq<char>> {
        Seq::new(
            21,
            |k: int|
                if k == 0 {
                    "Clock input to advance sequence"@
                } else if k == 1 {
                    "Reset to step 1"@
                } else if k == 2 {
                    "Reverse direction on rising edge"@
                } else if k == 3 {
                    "Sequence length (1-8 steps)"@
                } else if k == 4 {
                    "Gate length in seconds"@
                } else if k < 13 {
                    numbered("CV value for step "@, (k - 4) as nat)
                } else {
                    numbered("Gate enable for step "@, (k - 12) as nat)
                },
        )
    }

    /// The inputs.
    pub fn inputs(&self) -> (r: Vec<PortDescriptor>)
        ensures
            port_names(r@) == Self::input_names(),
            port_defaults(r@) == Self::input_defaults(),
            port_descriptions(r@) == Self::input_descriptions(),
            ports_wf(r@),
    {
        let mut ports: Vec<PortDescriptor> = Vec::new();
        proof {
            reveal_strlit("8");
            reveal_strlit("0.1");
            crate::number::lemma_digits_are_number("8"@);
            lemma_point_is_number("0.1"@, 1);
        }
        ports.push(
            PortDescriptor::new("clock", Number::zero(), "Clock input to advance sequence"),
        );
        ports.push(PortDescriptor::new("reset", Number::zero(), "Reset to step 1"));
        ports.push(
            PortDescriptor::new("reverse", Number::zero(), "Reverse direction on rising edge"),
        );
        ports.push(
            PortDescriptor::new("length", Number::literal("8"), "Sequence length (1-8 steps)"),
        );
        ports.push(
            PortDescriptor::new("gate_length", Number::literal("0.1"), "Gate length in seconds"),
        );
        let mut i: usize = 0;
        while i < 8
            invariant
                i <= 8,
                ports@.len() == 5 + i,
                forall|k: int| 0 <= k < 5 + i ==> (#[trigger] ports@[k]).name@ == Self::input_names()[k],
                forall|k: int|
                    0 <= k < 5 + i ==> (#[trigger] ports@[k]).default_value@
                        == Self::input_defaults()[k],
                forall|k: int|
                    0 <= k < 5 + i ==> (#[trigger] ports@[k]).description@
                        == Self::input_descriptions()[k],
                ports_wf(ports@),
            decreases 8 - i,
        {
            let name = numbered_name("step", i + 1);
            let text = numbered_name("CV value for step ", i + 1);
            ports.push(PortDescriptor::new(name.as_str(), seventh(i), text.as_str()));
            i += 1;
        }
        push_numbered(&mut ports, "gate", 8, &Number::one(), "Gate enable for step ");
        assert forall|k: int| 0 <= k < ports@.len() implies port_names(ports@)[k]
            == Self::input_names()[k] && port_defaults(ports@)[k] == Self::input_defaults()[k]
            && port_descriptions(ports@)[k] == Self::input_descriptions()[k] by {
            assert(ports@[k].name@ == Self::input_names()[k]);
            assert(ports@[k].description@ == Self::input_descriptions()[k]);
        }
        assert(port_names(ports@) =~= Self::input_names());
        assert(port_defaults(ports@) =~= Self::input_defaults());
        assert(port_descriptions(ports@) =~= Self::input_descriptions());
        ports
    }
}

} // verus!
