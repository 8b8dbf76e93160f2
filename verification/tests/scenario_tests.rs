use std::collections::HashMap;
use std::time::Duration;

use zim_dsp::buffers::{are_distinct, PortBuffers};
use zim_dsp::cycle::{is_gate_output, is_sampled, sample_index, CyclePlan, CycleStep};
use zim_dsp::graph::{ConnectionExpr, ModuleInfo};
use zim_dsp::graph_engine::GraphEngine;
use zim_dsp::graph_modules::{Level, SlewCurve, StereoRouting};
use zim_dsp::module_loader::ModuleText;
use zim_dsp::node::Node;
use zim_dsp::number::Number;
use zim_dsp::observability::{
    ConsoleObserver, GateEvent, ObservationCollector, ObserverManager, ParameterEvent,
    SignalEvent, SignalObserver,
};
use zim_dsp::sequencing::GraphSeq8;
use zim_dsp::shaping::{EnvelopeLevel, EnvelopeShape};

// The arithmetic on samples that drives the library in these tests.




/// The value of a number of the patch language.
pub fn value(number: &Number) -> f32 {
    number.as_str().parse::<f32>().unwrap_or(0.0)
}

/// A sample as a number of the patch language.
pub fn number(sample: f32) -> Number {
    match Number::parse(&sample.to_string()) {
        Some(n) => n,
        None => Number::zero(),
    }
}

/// A sample held against a threshold.
pub fn level(sample: f32, threshold: f32) -> Level {
    if sample > threshold {
        Level::High
    } else if sample <= threshold {
        Level::Low
    } else {
        Level::Undefined
    }
}

/// The buffers of the ports of one module.
#[derive(Default)]
pub struct Buffers {
    pub slots: PortBuffers,
    pub data: Vec<Vec<f32>>,
}

impl Buffers {
    pub fn new() -> Self {
        Buffers { slots: PortBuffers::new(), data: Vec::new() }
    }

    pub fn get(&self, port: &str) -> Option<&Vec<f32>> {
        self.slots.get(port).and_then(|i| self.data.get(i))
    }

    pub fn get_mut(&mut self, port: &str) -> Option<&mut Vec<f32>> {
        match self.slots.get_mut(port) {
            Some(i) => self.data.get_mut(i),
            None => None,
        }
    }

    pub fn get_or_default(&mut self, port: &str, size: usize, default: f32) -> &mut Vec<f32> {
        let (slot, fresh) = self.slots.get_or_default(port);
        if fresh {
            self.data.push(vec![default; size]);
        }
        &mut self.data[slot]
    }

    /// Takes the buffers of several ports out, each at most once, to be
    /// written to and put back.
    pub fn take_many(&mut self, ports: &[&str], size: usize) -> Vec<Vec<f32>> {
        let names: Vec<String> = ports.iter().map(|p| (*p).to_string()).collect();
        assert!(are_distinct(&names), "a port is named twice: {names:?}");
        let slots = self.slots.get_many_mut(&names);
        slots
            .iter()
            .map(|slot| match slot {
                Some(i) => {
                    let mut buffer = std::mem::take(&mut self.data[*i]);
                    buffer.resize(size, 0.0);
                    buffer
                }
                None => vec![0.0; size],
            })
            .collect()
    }

    pub fn put_many(&mut self, ports: &[&str], buffers: Vec<Vec<f32>>) {
        for (port, buffer) in ports.iter().zip(buffers) {
            if let Some(i) = self.slots.get(port) {
                if self.data[i].is_empty() {
                    self.data[i] = buffer;
                }
            }
        }
    }
}

fn at(buffer: &[f32], i: usize, default: f32) -> f32 {
    if i < buffer.len() {
        buffer[i]
    } else {
        default
    }
}

fn input<'a>(inputs: &'a Buffers, port: &str) -> &'a [f32] {
    inputs.get(port).map(|b| b.as_slice()).unwrap_or(&[])
}

/// Writes the samples of an expression into `buffer`. An output that is
/// not there leaves the buffer as it is.
pub fn evaluate(expr: &ConnectionExpr, outputs: &HashMap<String, Buffers>, buffer: &mut Vec<f32>) {
    match expr {
        ConnectionExpr::Direct { module, port } => {
            if let Some(source) = outputs.get(module).and_then(|o| o.get(port)) {
                if source.len() == buffer.len() {
                    buffer.copy_from_slice(source);
                }
            }
        }
        ConnectionExpr::Scaled { expr, factor } => {
            evaluate(expr, outputs, buffer);
            let factor = value(factor);
            for sample in buffer.iter_mut() {
                *sample *= factor;
            }
        }
        ConnectionExpr::Offset { expr, offset } => {
            evaluate(expr, outputs, buffer);
            let offset = value(offset);
            for sample in buffer.iter_mut() {
                *sample += offset;
            }
        }
        ConnectionExpr::Sum { exprs } => {
            for sample in buffer.iter_mut() {
                *sample = 0.0;
            }
            let mut scratch = vec![0.0; buffer.len()];
            for expr in exprs {
                evaluate(expr, outputs, &mut scratch);
                for (i, sample) in scratch.iter().enumerate() {
                    buffer[i] += sample;
                }
            }
        }
    }
}

/// What a module keeps between samples besides what the library keeps.
#[derive(Debug, Clone, Default)]
pub struct State {
    pub phase: f32,
    pub filter: f32,
    pub pink: [f32; 7],
    pub brown: f32,
    pub current: f32,
    pub last_value: f32,
    pub phase_time: f32,
    pub level: f32,
    pub last_gate: f32,
    pub gate_length: Option<f32>,
}

impl State {
    pub fn new() -> Self {
        State { last_value: f32::NAN, ..State::default() }
    }
}

fn slew_curve(curve: SlewCurve, progress: f32) -> f32 {
    match curve {
        SlewCurve::Linear => progress,
        SlewCurve::Exponential => 1.0 - (-4.0 * progress).exp(),
        SlewCurve::Logarithmic => {
            if progress <= 0.0 {
                0.0
            } else {
                (1.0 + 4.0 * progress).ln() / (1.0_f32 + 4.0).ln()
            }
        }
    }
}

fn envelope_shape(shape: EnvelopeShape, progress: f32) -> f32 {
    match shape {
        EnvelopeShape::Linear => progress,
        EnvelopeShape::Exponential => progress * progress,
        EnvelopeShape::Logarithmic => (progress * 2.0 - progress * progress).min(1.0),
    }
}

fn white(state: u32) -> f32 {
    (state as i32 as f32) / (i32::MAX as f32)
}

/// Works one block of a module.
#[allow(clippy::too_many_lines)]
pub fn process(
    node: &mut Node,
    state: &mut State,
    inputs: &Buffers,
    outputs: &mut Buffers,
    count: usize,
    sample_rate: f32,
) {
    match node {
        Node::Oscillator(osc) => {
            let freq_in = input(inputs, "freq");
            let fm_in = input(inputs, "fm");
            let sync_in = input(inputs, "sync");
            let ports = ["sine", "saw", "square", "triangle"];
            let mut out = outputs.take_many(&ports, count);
            let base = value(&osc.frequency);
            for i in 0..count {
                if i < sync_in.len() && sync_in[i] > 0.0 && (i == 0 || sync_in[i - 1] <= 0.0) {
                    state.phase = 0.0;
                }
                let freq_cv = at(freq_in, i, 0.0);
                let fm = at(fm_in, i, 0.0);
                let chosen = if !freq_in.is_empty() && freq_cv > 0.0 { freq_cv } else { base };
                let instant = chosen * (1.0 + fm);
                let phase = state.phase;
                out[0][i] = (phase * 2.0 * std::f32::consts::PI).sin();
                out[1][i] = phase * 2.0 - 1.0;
                out[2][i] = if phase < 0.5 { 1.0 } else { -1.0 };
                out[3][i] = if phase < 0.5 { phase * 4.0 - 1.0 } else { 3.0 - phase * 4.0 };
                state.phase += instant / sample_rate;
                if state.phase >= 1.0 {
                    state.phase -= 1.0;
                }
            }
            outputs.put_many(&ports, out);
        }
        Node::Vca(vca) => {
            let audio = input(inputs, "audio");
            let cv = input(inputs, "cv");
            let cv2 = input(inputs, "cv2");
            let gain = value(&vca.gain);
            let mut out = outputs.take_many(&["out"], count);
            for i in 0..count {
                out[0][i] = at(audio, i, 0.0) * at(cv, i, 0.0) * at(cv2, i, 1.0) * gain;
            }
            outputs.put_many(&["out"], out);
        }
        Node::Filter(filter) => {
            let audio = input(inputs, "audio");
            let cutoff_cv = input(inputs, "cutoff");
            let cutoff = value(&filter.cutoff);
            let ports = ["lp", "hp"];
            let mut out = outputs.take_many(&ports, count);
            for i in 0..count {
                let sample = at(audio, i, 0.0);
                let freq = (cutoff + at(cutoff_cv, i, 0.0)).clamp(20.0, 20000.0);
                let k = (freq / (sample_rate * 0.5)).min(0.99);
                state.filter += k * (sample - state.filter);
                out[0][i] = state.filter;
                out[1][i] = sample - state.filter;
            }
            outputs.put_many(&ports, out);
        }
        Node::Lfo(lfo) => {
            let sync_in = input(inputs, "sync");
            let frequency = value(&lfo.frequency);
            let ports = ["sine", "square", "gate", "ramp"];
            let mut out = outputs.take_many(&ports, count);
            for i in 0..count {
                if i < sync_in.len() && sync_in[i] > 0.0 && (i == 0 || sync_in[i - 1] <= 0.0) {
                    state.phase = 0.0;
                }
                let phase = state.phase;
                out[0][i] = (phase * 2.0 * std::f32::consts::PI).sin();
                out[1][i] = if phase < 0.5 { 1.0 } else { -1.0 };
                out[2][i] = if phase < 0.5 { 1.0 } else { 0.0 };
                out[3][i] = phase;
                state.phase += frequency / sample_rate;
                if state.phase >= 1.0 {
                    state.phase -= 1.0;
                }
            }
            outputs.put_many(&ports, out);
        }
        Node::ManualGate(gate) => {
            let ports = ["gate", "trig"];
            let mut out = outputs.take_many(&ports, count);
            let sample = if gate.is_on() { 1.0 } else { 0.0 };
            for i in 0..count {
                out[0][i] = sample;
                out[1][i] = sample;
            }
            outputs.put_many(&ports, out);
        }
        Node::StereoOutput(stereo) => {
            let left_in = input(inputs, "left");
            let right_in = input(inputs, "right");
            let mono_in = input(inputs, "mono");
            let ports = ["left", "right"];
            let mut out = outputs.take_many(&ports, count);
            for i in 0..count {
                let mono = at(mono_in, i, 0.0);
                let left = at(left_in, i, 0.0);
                let right = at(right_in, i, 0.0);
                let (l, r) = match stereo.route(mono != 0.0) {
                    StereoRouting::MonoToBoth => (mono, mono),
                    StereoRouting::LeftToBoth => (left, left),
                    StereoRouting::Separate => (left, right),
                };
                out[0][i] = l;
                out[1][i] = r;
            }
            outputs.put_many(&ports, out);
        }
        Node::Noise(noise) => {
            let ports = ["white", "pink", "brown"];
            let mut out = outputs.take_many(&ports, count);
            for i in 0..count {
                out[0][i] = white(noise.next_random());
                let w = white(noise.next_random());
                let p = &mut state.pink;
                p[0] = 0.99886 * p[0] + w * 0.0555179;
                p[1] = 0.99332 * p[1] + w * 0.0750759;
                p[2] = 0.96900 * p[2] + w * 0.1538520;
                p[3] = 0.86650 * p[3] + w * 0.3104856;
                p[4] = 0.55000 * p[4] + w * 0.5329522;
                p[5] = -0.7616 * p[5] + w * 0.0168980;
                let pink = p[0] + p[1] + p[2] + p[3] + p[4] + p[5] + p[6] + w * 0.5362;
                p[6] = w * 0.115926;
                out[1][i] = pink * 0.11;
                let w = white(noise.next_random());
                state.brown += w * 0.02;
                if state.brown > 1.0 {
                    state.brown = 1.0 - (state.brown - 1.0) * 0.5;
                } else if state.brown < -1.0 {
                    state.brown = -1.0 - (state.brown + 1.0) * 0.5;
                }
                out[2][i] = state.brown;
            }
            outputs.put_many(&ports, out);
        }
        Node::Mixer(mixer) => {
            let master_cv = input(inputs, "master");
            let master = value(&mixer.master_level);
            let mut out = outputs.take_many(&["out"], count);
            let channels: Vec<(&[f32], &[f32], f32)> = (0..mixer.input_count)
                .map(|c| {
                    let level = mixer.levels.get(c).map(value).unwrap_or(1.0);
                    (
                        input(inputs, &format!("in{}", c + 1)),
                        input(inputs, &format!("level{}", c + 1)),
                        level,
                    )
                })
                .collect();
            for i in 0..count {
                let mut mixed = 0.0;
                for (samples, levels, level) in &channels {
                    mixed += at(samples, i, 0.0) * at(levels, i, *level);
                }
                out[0][i] = mixed * at(master_cv, i, master);
            }
            outputs.put_many(&["out"], out);
        }
        Node::Slew(slew) => {
            let target_in = input(inputs, "in");
            let rise_cv = input(inputs, "rise");
            let fall_cv = input(inputs, "fall");
            let rise_time = value(&slew.rise_time);
            let fall_time = value(&slew.fall_time);
            let ports = ["out", "eor", "eoc"];
            let mut out = outputs.take_many(&ports, count);
            for i in 0..count {
                let target = at(target_in, i, 0.0);
                let rise_now = at(rise_cv, i, 0.0);
                let fall_now = at(fall_cv, i, 0.0);
                let rise = if rise_now > 0.001 { rise_now } else { rise_time }.max(0.001);
                let fall = if fall_now > 0.001 { fall_now } else { fall_time }.max(0.001);
                let diff = target - state.current;
                let moving = diff.abs() > 0.001;
                let upward = diff > 0.0;
                let mut arrived = false;
                if moving {
                    let time = if upward { rise } else { fall };
                    let progress = slew_curve(slew.curve_type, 1.0 / (time * sample_rate));
                    state.current += diff * progress.min(1.0);
                    arrived =
                        if upward { state.current >= target } else { state.current <= target };
                }
                if !moving || arrived {
                    state.current = target;
                }
                let gates = slew.step(moving, upward, arrived);
                out[0][i] = state.current;
                out[1][i] = if gates.eor { 1.0 } else { 0.0 };
                out[2][i] = if gates.eoc { 1.0 } else { 0.0 };
            }
            outputs.put_many(&ports, out);
        }
        Node::Visual(visual) => {
            let samples = input(inputs, "input");
            for i in 0..count {
                let sample = at(samples, i, 0.0);
                let changed = (sample - state.last_value).abs() > 0.001;
                let seen = visual.sample_count;
                if visual.print_interval == 0 {
                    visual.print_interval = 4410;
                }
                if visual.tick(changed) {
                    let seconds = seen as f32 / sample_rate;
                    println!("[VISUAL] t={seconds:.2}s: {sample:.3}");
                    state.last_value = sample;
                }
            }
        }
        Node::Mult(mult) => {
            let samples = input(inputs, "input");
            let ports = ["out1", "out2", "out3", "out4"];
            let mut out = outputs.take_many(&ports, count);
            for i in 0..count {
                let sample = at(samples, i, 0.0);
                for buffer in out.iter_mut().take(mult.output_count()) {
                    buffer[i] = sample;
                }
            }
            outputs.put_many(&ports, out);
        }
        Node::Switch(switch) => {
            if !switch.is_valid() {
                switch.set_input_count(switch.input_count);
            }
            let clock = input(inputs, "clock");
            let reset = input(inputs, "reset");
            let signals: Vec<&[f32]> = (0..switch.input_count)
                .map(|c| input(inputs, &format!("in{}", c + 1)))
                .collect();
            let ports = ["out", "gate"];
            let mut out = outputs.take_many(&ports, count);
            for i in 0..count {
                let step = switch.step(level(at(clock, i, 0.0), 0.5), at(reset, i, 0.0) > 0.5);
                out[0][i] = at(signals[step.selected], i, 0.0);
                out[1][i] = if step.gate { 1.0 } else { 0.0 };
            }
            outputs.put_many(&ports, out);
        }
        Node::ClockDiv(divider) => {
            if !divider.is_valid() {
                divider.set_division(divider.division);
            }
            let clock = input(inputs, "clock");
            let reset = input(inputs, "reset");
            let ports = ["out", "gate"];
            let mut out = outputs.take_many(&ports, count);
            for i in 0..count {
                let step = divider.step(level(at(clock, i, 0.0), 0.5), at(reset, i, 0.0) > 0.5);
                out[0][i] = if step.out { 1.0 } else { 0.0 };
                out[1][i] = if step.gate { 1.0 } else { 0.0 };
            }
            outputs.put_many(&ports, out);
        }
        Node::Envelope(envelope) => {
            if !envelope.is_valid() {
                envelope.attack = Number::whole(0);
                envelope.decay = Number::whole(0);
            }
            let gate = input(inputs, "gate");
            let attack = value(&envelope.attack);
            let decay = value(&envelope.decay);
            let mut out = outputs.take_many(&["out"], count);
            for i in 0..count {
                let now = at(gate, i, 0.0);
                let before = if i == 0 { state.last_gate } else { at(gate, i - 1, 0.0) };
                let rising = now > 0.0 && before <= 0.0;
                if rising {
                    state.phase_time = 0.0;
                }
                let time = state.phase_time;
                let step = envelope.step(rising, time >= attack, time >= decay);
                state.level = match step.level {
                    EnvelopeLevel::Zero => 0.0,
                    EnvelopeLevel::One => 1.0,
                    EnvelopeLevel::Rising(shape) => {
                        envelope_shape(shape, (time / attack).min(1.0))
                    }
                    EnvelopeLevel::Falling(shape) => {
                        1.0 - envelope_shape(shape, (time / decay).min(1.0))
                    }
                };
                if step.restart {
                    state.phase_time = 0.0;
                }
                out[0][i] = state.level;
                state.phase_time += 1.0 / sample_rate;
            }
            if count > 0 && !gate.is_empty() {
                state.last_gate = at(gate, count - 1, 0.0);
            }
            outputs.put_many(&["out"], out);
        }
        Node::Seq8(sequencer) => {
            if !sequencer.is_valid() {
                *sequencer = GraphSeq8::new();
            }
            let clock = input(inputs, "clock");
            let reset = input(inputs, "reset");
            let reverse = input(inputs, "reverse");
            let gate_length_cv = input(inputs, "gate_length");
            let values: Vec<f32> = sequencer.steps.iter().map(value).collect();
            let connected: Vec<Option<bool>> = (0..8)
                .map(|s| input(inputs, &format!("gate{}", s + 1)).first().map(|v| *v > 0.5))
                .collect();
            let enables = sequencer.gate_enables(&connected);
            let mut gate_length = state.gate_length.unwrap_or_else(|| value(&sequencer.gate_length));
            let ports = ["cv", "gate", "step"];
            let mut out = outputs.take_many(&ports, count);
            for i in 0..count {
                gate_length = at(gate_length_cv, i, gate_length).max(0.001);
                let gate_samples = (gate_length * sample_rate) as usize;
                let step = sequencer.step(
                    level(at(clock, i, 0.0), 0.5),
                    at(reset, i, 0.0) > 0.5,
                    level(at(reverse, i, 0.0), 0.5),
                    gate_samples,
                    &enables,
                );
                out[0][i] = values[step.step];
                out[1][i] = if step.gate { 1.0 } else { 0.0 };
                out[2][i] = step.step as f32;
            }
            state.gate_length = Some(gate_length);
            outputs.put_many(&ports, out);
        }
    }
}





/// An observer that writes to the console.
pub struct ConsolePrinter(pub ConsoleObserver);

impl SignalObserver for ConsolePrinter {
    fn observe_signal(&mut self, event: &SignalEvent) {
        if self.0.verbose {
            println!("[SIGNAL] {}.{} = {:.3}", event.module, event.port, value(&event.value));
        }
    }

    fn observe_gate(&mut self, event: &GateEvent) {
        if let Some(line) = self.0.gate_line(event) {
            println!("{line}");
        }
    }

    fn observe_parameter(&mut self, event: &ParameterEvent) {
        println!("[PARAM] {}.{} = {:.3}", event.module, event.parameter, value(&event.value));
    }

    fn begin_process_cycle(&mut self, cycle: usize) {
        if let Some(line) = self.0.cycle_line(cycle) {
            println!("{line}");
        }
    }

    fn end_process_cycle(&mut self, _cycle: usize) {}
}

/// An observer of any kind.
pub struct AnyObserver(pub Box<dyn SignalObserver + Send>);

impl SignalObserver for AnyObserver {
    fn observe_signal(&mut self, event: &SignalEvent) {
        self.0.observe_signal(event);
    }

    fn observe_gate(&mut self, event: &GateEvent) {
        self.0.observe_gate(event);
    }

    fn observe_parameter(&mut self, event: &ParameterEvent) {
        self.0.observe_parameter(event);
    }

    fn begin_process_cycle(&mut self, cycle: usize) {
        self.0.begin_process_cycle(cycle);
    }

    fn end_process_cycle(&mut self, cycle: usize) {
        self.0.end_process_cycle(cycle);
    }
}

/// The engine with its samples and observers.
pub struct Synth {
    pub engine: GraphEngine,
    pub observers: ObserverManager<AnyObserver>,
    states: HashMap<String, State>,
    inputs: HashMap<String, Buffers>,
    outputs: HashMap<String, Buffers>,
}

impl Default for Synth {
    fn default() -> Self {
        Self::new()
    }
}

impl Synth {
    pub fn new() -> Self {
        Synth {
            engine: GraphEngine::new(),
            observers: ObserverManager::new(),
            states: HashMap::new(),
            inputs: HashMap::new(),
            outputs: HashMap::new(),
        }
    }

    pub fn add_observer(&mut self, observer: Box<dyn SignalObserver + Send>) {
        self.observers.add_observer(AnyObserver(observer));
    }

    /// Does what a line says.
    pub fn process_line(&mut self, line: &str) -> Result<String, String> {
        self.engine
            .process_line_observed(&mut self.observers, line)
            .map_err(|error| error.message())
    }

    /// Empties the synthesizer and does what the lines of a patch say.
    pub fn load_patch(&mut self, content: &str) -> Result<(), String> {
        self.load_patch_with(content, &Vec::new())
    }

    /// Empties the synthesizer and does what the lines of a patch say, with
    /// the source texts of the sub-patches that it imports handed in.
    pub fn load_patch_with(&mut self, content: &str, texts: &Vec<ModuleText>) -> Result<(), String> {
        self.clear_patch();
        self.engine.load_patch_with(content, texts).map_err(|e| e.message())
    }

    /// Empties the synthesizer. The observers go with the graph that they
    /// observed.
    pub fn clear_patch(&mut self) {
        self.engine.clear_patch();
        self.observers = ObserverManager::new();
        self.states.clear();
        self.inputs.clear();
        self.outputs.clear();
    }

    pub fn list_modules(&self) -> Vec<String> {
        self.engine.list_modules()
    }

    pub fn inspect_module(&self, name: &str) -> Option<ModuleInfo> {
        self.engine.inspect_module(name)
    }

    pub fn validate_connections(&self) -> Vec<String> {
        self.engine.validate_connections()
    }

    pub fn activate_manual_gates(&mut self) -> usize {
        self.engine.activate_manual_gates()
    }

    pub fn release_manual_gates(&mut self) -> usize {
        self.engine.release_manual_gates()
    }

    pub fn get_output(&self, module: &str, port: &str) -> Option<&Vec<f32>> {
        self.outputs.get(module)?.get(port)
    }

    /// Gives every output of every module a buffer of the size of the
    /// block, and fills the inputs as the plan of the block says.
    fn prepare_buffers(&mut self, plan: &CyclePlan) {
        let count = plan.sample_count;
        for entry in &self.engine.graph.modules {
            let outputs = self.outputs.entry(entry.name.clone()).or_default();
            for port in entry.node.outputs() {
                outputs.get_or_default(&port.name, count, 0.0).resize(count, 0.0);
            }
            self.inputs.entry(entry.name.clone()).or_default();
            self.states.entry(entry.name.clone()).or_insert_with(State::new);
        }
        for fill in &plan.fills {
            let Some(entry) = self.engine.graph.modules.get(fill.module) else {
                continue;
            };
            let default = value(&fill.value);
            let inputs = self.inputs.entry(entry.name.clone()).or_default();
            let buffer = inputs.get_or_default(&fill.port, fill.length, default);
            buffer.clear();
            buffer.resize(fill.length, default);
        }
    }

    /// Tells the observers of the outputs of a module after its block.
    fn observe_outputs(&mut self, name: &str, cycle: usize, count: usize) {
        let Some(outputs) = self.outputs.get(name) else {
            return;
        };
        let mut signals = Vec::new();
        let mut gates = Vec::new();
        for (slot, port) in outputs.slots.ports.iter().enumerate() {
            let Some(buffer) = outputs.data.get(slot) else {
                continue;
            };
            for (i, sample) in buffer.iter().enumerate() {
                if is_sampled(count, i) {
                    if let Some(index) = sample_index(cycle, count, i) {
                        signals.push((port.clone(), index, *sample));
                    }
                }
            }
            if is_gate_output(port) {
                let highs: Vec<bool> = buffer.iter().map(|v| *v > 0.5).collect();
                for i in self.engine.graph.observe_gate_block(name, port, &highs) {
                    if let Some(index) = sample_index(cycle, count, i) {
                        gates.push((port.clone(), index));
                    }
                }
            }
        }
        for (port, index, sample) in signals {
            self.observers.observe_signal(name, &port, index, number(sample));
        }
        for (port, index) in gates {
            self.observers.observe_gate(name, &port, index, true);
        }
    }

    /// Works one block of `count` samples.
    pub fn process(&mut self, count: usize) {
        let sample_rate = self.engine.sample_rate as f32;
        let plan = self.engine.graph.process_observed(&mut self.observers, count);
        self.prepare_buffers(&plan);
        for step in &plan.steps {
            match *step {
                CycleStep::Evaluate { connection, module } => {
                    let Some(conn) = self.engine.graph.connections.get(connection) else {
                        continue;
                    };
                    let Some(entry) = self.engine.graph.modules.get(module) else {
                        continue;
                    };
                    let inputs = self.inputs.entry(entry.name.clone()).or_default();
                    let buffer = inputs.get_or_default(&conn.to_port, count, 0.0);
                    evaluate(&conn.expression, &self.outputs, buffer);
                }
                CycleStep::Process { module } => {
                    let Some(entry) = self.engine.graph.modules.get_mut(module) else {
                        continue;
                    };
                    let name = entry.name.clone();
                    let state = self.states.entry(name.clone()).or_insert_with(State::new);
                    let empty = Buffers::new();
                    let inputs = self.inputs.get(&name).unwrap_or(&empty);
                    let outputs = self.outputs.entry(name.clone()).or_default();
                    process(&mut entry.node, state, inputs, outputs, count, sample_rate);
                    self.observe_outputs(&name, plan.cycle, count);
                }
            }
        }
        self.observers.end_process_cycle(plan.cycle);
    }
}

/// What a test run collected.
pub struct TestResult {
    pub collector: ObservationCollector,
    pub duration_seconds: f32,
    pub sample_rate: f32,
}

impl TestResult {
    pub fn get_signal_values(&self, module: &str, port: &str) -> Vec<f32> {
        self.collector.get_signal_values(module, port).iter().map(value).collect()
    }

    pub fn signal_range(&self, module: &str, port: &str) -> Option<(f32, f32)> {
        let values = self.get_signal_values(module, port);
        if values.is_empty() {
            return None;
        }
        let min = values.iter().fold(f32::INFINITY, |a, &b| a.min(b));
        let max = values.iter().fold(f32::NEG_INFINITY, |a, &b| a.max(b));
        Some((min, max))
    }

    pub fn signal_varied(&self, module: &str, port: &str) -> bool {
        let values = self.get_signal_values(module, port);
        if values.len() < 2 {
            return false;
        }
        let first = values[0];
        values.iter().any(|&v| (v - first).abs() > 0.001)
    }

    pub fn assert_signal_varied(&self, module: &str, port: &str) -> Result<(), String> {
        if self.signal_varied(module, port) {
            Ok(())
        } else {
            Err(format!("Signal {module}.{port} did not vary during test"))
        }
    }

    pub fn assert_gate_fired(&self, module: &str, gate: &str) -> Result<(), String> {
        if self.collector.gate_fired(module, gate) {
            Ok(())
        } else {
            Err(format!("Gate {module}.{gate} did not fire during test"))
        }
    }

    pub fn assert_signal_range(
        &self,
        module: &str,
        port: &str,
        min: f32,
        max: f32,
    ) -> Result<(), String> {
        match self.signal_range(module, port) {
            Some((low, high)) if low >= min && high <= max => Ok(()),
            Some((low, high)) => Err(format!(
                "Signal {module}.{port} range [{low:.3}, {high:.3}] outside expected [{min:.3}, {max:.3}]"
            )),
            None => Err(format!("No signal data found for {module}.{port}")),
        }
    }

    pub fn gate_fire_count(&self, module: &str, gate: &str) -> usize {
        self.collector.gate_fire_count(module, gate)
    }
}

/// An observer that hands what it is told to a collector that others hold too.
struct SharedCollector(std::sync::Arc<std::sync::Mutex<ObservationCollector>>);

impl SignalObserver for SharedCollector {
    fn observe_signal(&mut self, event: &SignalEvent) {
        if let Ok(mut collector) = self.0.lock() {
            collector.observe_signal(event);
        }
    }

    fn observe_gate(&mut self, event: &GateEvent) {
        if let Ok(mut collector) = self.0.lock() {
            collector.observe_gate(event);
        }
    }

    fn observe_parameter(&mut self, event: &ParameterEvent) {
        if let Ok(mut collector) = self.0.lock() {
            collector.observe_parameter(event);
        }
    }

    fn begin_process_cycle(&mut self, cycle: usize) {
        if let Ok(mut collector) = self.0.lock() {
            collector.begin_process_cycle(cycle);
        }
    }

    fn end_process_cycle(&mut self, cycle: usize) {
        if let Ok(mut collector) = self.0.lock() {
            collector.end_process_cycle(cycle);
        }
    }
}

/// Runs patches without an audio device and collects what is observed.
#[derive(Default)]
pub struct TestRunner {
    synth: Synth,
}

impl TestRunner {
    pub fn new() -> Self {
        TestRunner { synth: Synth::new() }
    }

    pub fn add_observer(&mut self, observer: Box<dyn SignalObserver + Send>) {
        self.synth.add_observer(observer);
    }

    pub fn run_patch(
        &mut self,
        patch_content: &str,
        duration: std::time::Duration,
    ) -> Result<TestResult, String> {
        self.synth.load_patch(patch_content).map_err(|e| format!("Failed to load patch: {e}"))?;
        let collector = std::sync::Arc::new(std::sync::Mutex::new(ObservationCollector::new()));
        self.synth.add_observer(Box::new(SharedCollector(std::sync::Arc::clone(&collector))));
        let sample_rate = 44100.0;
        let total_samples = (duration.as_secs_f32() * sample_rate) as usize;
        let buffer_size = 512;
        for _ in 0..(total_samples / buffer_size) {
            self.synth.process(buffer_size);
        }
        self.synth.observers = ObserverManager::new();
        let collector = std::sync::Arc::try_unwrap(collector)
            .map_or_else(|_| ObservationCollector::new(), |m| {
                m.into_inner().unwrap_or_else(|_| ObservationCollector::new())
            });
        Ok(TestResult { collector, duration_seconds: duration.as_secs_f32(), sample_rate })
    }
}

fn run(patch: &str, duration: Duration) -> TestResult {
    let mut runner = TestRunner::new();
    runner.run_patch(patch, duration).expect("Patch should load and run successfully")
}

fn zero_crossings(values: &[f32]) -> usize {
    values.windows(2).filter(|w| (w[0] < 0.0) != (w[1] < 0.0)).count()
}

#[test]
fn test_framework_basic() {
    let mut runner = TestRunner::new();

    // Add a console observer for debugging
    runner.add_observer(Box::new(ConsolePrinter(ConsoleObserver::new(false))));

    // Simple test patch
    let patch = r"
            osc: osc sine 440
            out <- osc.sine * 0.5
        ";

    let result = runner.run_patch(patch, Duration::from_secs(1));
    assert!(result.is_ok());

    let test_result = result.unwrap();
    assert!((test_result.duration_seconds - 1.0).abs() < f32::EPSILON);
    assert!((test_result.sample_rate - 44100.0).abs() < f32::EPSILON);
}

#[test]
fn test_assertion_helpers() {
    let result = TestResult {
        collector: ObservationCollector::new(),
        duration_seconds: 0.0,
        sample_rate: 44100.0,
    };

    // The collector should work even with no data
    assert!(!result.signal_varied("test", "port"));
    assert!(!result.collector.gate_fired("test", "gate"));
    assert!(result.signal_range("test", "port").is_none());
}

#[test]
fn test_slew_basic_smoothing() {
    let mut runner = TestRunner::new();

    // Basic smoothing with LFO square wave
    let patch = r"
            lfo: lfo 2.0
            slew: slew 0.1 0.1
            slew.in <- lfo.square
            out <- slew.out
        ";

    let result = runner
        .run_patch(patch, Duration::from_secs(2))
        .expect("Patch should load and run successfully");

    // Assertions
    assert!(result.signal_varied("lfo", "square"), "LFO square wave should vary");
    assert!(result.signal_varied("slew", "out"), "Slew output should vary (smoothing working)");

    // Check range is reasonable
    let slew_range = result.signal_range("slew", "out");
    assert!(slew_range.is_some(), "Slew should produce signal values");

    let (min, max) = slew_range.unwrap();
    assert!(min < max, "Slew output should have a range");
    assert!(min > -1.1 && max < 1.1, "Slew output should stay in reasonable bounds");
}

#[test]
fn test_slew_cv_override() {
    let mut runner = TestRunner::new();

    // Test that CV values override parameters
    let patch = r"
            lfo: lfo 2.0
            
            # Constant CV to override rise time (slower than parameter)
            slow_cv: lfo 0.0  # 0Hz = constant
            
            slew: slew 0.05 0.05  # Fast parameters
            slew.in <- lfo.square
            slew.rise <- slow_cv.sine * 0.1 + 0.2  # 0.2V constant = 200ms rise
            out <- slew.out
        ";

    let result =
        runner.run_patch(patch, Duration::from_secs(2)).expect("CV control patch should work");

    // Basic functionality
    assert!(
        result.signal_varied("slew", "out"),
        "CV-controlled slew should still produce varying output"
    );

    // The CV-controlled version should behave differently than pure parameters
    let values = result.get_signal_values("slew", "out");
    assert!(!values.is_empty(), "Should capture slew output values");
}

#[test]
fn test_slew_dynamic_cv() {
    let mut runner = TestRunner::new();

    // Test dynamic CV control
    let patch = r"
            lfo: lfo 1.0
            rate_lfo: lfo 0.5  # Slow modulation of slew rate
            
            slew: slew 0.1 0.1
            slew.in <- lfo.square
            slew.rise <- rate_lfo.sine * 0.1 + 0.15  # 0.05V to 0.25V range
            out <- slew.out
        ";

    let result =
        runner.run_patch(patch, Duration::from_secs(3)).expect("Dynamic CV patch should work");

    // All signals should vary
    assert!(result.signal_varied("lfo", "square"), "Main LFO should vary");
    assert!(result.signal_varied("rate_lfo", "sine"), "Rate control LFO should vary");
    assert!(result.signal_varied("slew", "out"), "Dynamically controlled slew should vary");
}

#[test]
fn test_slew_cv_fallback_to_parameters() {
    let mut runner = TestRunner::new();

    // Test that 0V CV falls back to using parameters
    let patch = r"
            lfo: lfo 2.0
            zero_cv: lfo 0.0  # Always outputs 0
            
            slew: slew 0.08 0.12  # Asymmetric rise/fall
            slew.in <- lfo.square
            slew.rise <- zero_cv.sine  # Should be 0V, fallback to parameter
            slew.fall <- zero_cv.sine  # Should be 0V, fallback to parameter  
            out <- slew.out
        ";

    let result =
        runner.run_patch(patch, Duration::from_secs(2)).expect("CV fallback patch should work");

    // Should still work normally when CV is 0
    assert!(
        result.signal_varied("slew", "out"),
        "Slew with 0V CV should fallback to parameters and work"
    );

    // Verify the CV is actually near zero
    let cv_values = result.get_signal_values("zero_cv", "sine");
    assert!(!cv_values.is_empty(), "Should have CV values");

    // Most values should be very close to 0 (sine of 0Hz LFO)
    let near_zero_count = cv_values.iter().filter(|&&v| v.abs() < 0.01).count();
    assert!(
        near_zero_count > cv_values.len() / 2,
        "Most CV values should be near zero for 0Hz LFO"
    );
}

#[test]
fn test_slew_backward_compatibility() {
    let mut runner = TestRunner::new();

    // Test that old patches without CV inputs still work
    let patch = r"
            lfo: lfo 1.5
            slew: slew 0.15 0.1  # Just parameters, no CV connections
            slew.in <- lfo.square
            out <- slew.out
        ";

    let result = runner
        .run_patch(patch, Duration::from_secs(2))
        .expect("Backward compatibility patch should work");

    // Should work exactly like before CV inputs were added
    assert!(
        result.signal_varied("slew", "out"),
        "Slew without CV connections should work like before"
    );

    let range = result.signal_range("slew", "out");
    assert!(range.is_some(), "Should produce reasonable output range");
}

#[test]
fn test_slew_gate_outputs() {
    let mut runner = TestRunner::new();

    // Test gate outputs with slow LFO and fast slew to ensure target reaching
    // The key insight: slew time must be much shorter than LFO period for reliable gate firing
    let patch = r"
            lfo: lfo 0.5  
            slew: slew 0.05 0.05  
            slew.in <- lfo.square
            out <- slew.out
            eor_out <- slew.eor
            eoc_out <- slew.eoc
        ";

    let result = runner
        .run_patch(patch, Duration::from_secs(4))
        .expect("Patch should load and run successfully");

    // Basic functionality should still work
    assert!(result.signal_varied("slew", "out"), "Slew output should vary");

    // Gate outputs should fire
    assert!(result.collector.gate_fired("slew", "eor"), "End-of-rise gate should fire");
    assert!(result.collector.gate_fired("slew", "eoc"), "End-of-cycle gate should fire");

    // Count gate fires
    let rise_gate_fires = result.gate_fire_count("slew", "eor");
    let cycle_gate_fires = result.gate_fire_count("slew", "eoc");

    assert!(rise_gate_fires > 0, "EOR should fire at least once (got {rise_gate_fires})");
    assert!(cycle_gate_fires > 0, "EOC should fire at least once (got {cycle_gate_fires})");

    // With a 0.5Hz LFO over 4 seconds, we should get roughly 1-2 complete cycles
    assert!(
        (1..=3).contains(&rise_gate_fires),
        "EOR count should be 1-3 for 4 second test (got {rise_gate_fires})"
    );
    assert!(
        (1..=3).contains(&cycle_gate_fires),
        "EOC count should be 1-3 for 4 second test (got {cycle_gate_fires})"
    );
}

/// The self-patching oscillator: `slew.in <- slew.eor` makes a triangle
/// oscillator that sustains itself.
#[test]
fn test_slew_self_patching_oscillator() {
    let patch = r"
            # Self-patching slew oscillator - the core test for bootstrap behavior
            slew: slew 0.01 0.01
            slew.in <- slew.eor  # This is the key self-patching connection
            
            # Output for monitoring
            out <- slew.out
            gates <- slew.eor
        ";

    let mut runner = TestRunner::new();
    let result = runner
        .run_patch(patch, Duration::from_millis(100))
        .expect("Self-patching slew oscillator should run successfully");

    // The critical test: self-patching must create oscillation
    assert!(
        result.signal_varied("slew", "out"),
        "Self-patching slew generator should create oscillating output"
    );

    // Gates must fire for self-patching to work
    assert!(result.collector.gate_fired("slew", "eor"), "Self-patching requires EOR gates to fire");

    // Should see multiple gate fires indicating sustained oscillation
    let gate_count = result.gate_fire_count("slew", "eor");
    assert!(
        gate_count > 2,
        "Self-patching oscillator should fire multiple gates (got {gate_count})"
    );

    // Verify we get reasonable signal range for triangle wave
    let values = result.get_signal_values("slew", "out");
    assert!(!values.is_empty(), "Should capture slew output values");

    let min = values.iter().fold(f32::INFINITY, |a, &b| a.min(b));
    let max = values.iter().fold(f32::NEG_INFINITY, |a, &b| a.max(b));
    let range = max - min;

    assert!(
        range > 0.5,
        "Self-patching triangle should have reasonable amplitude range (got {range})"
    );
}

#[test]
fn oscillator_alone_plays_on_both_channels() {
    let mut synth = Synth::new();
    synth.load_patch("osc: osc sine 440\nout <- osc.sine").unwrap();
    let mut seen: Vec<f32> = Vec::new();
    for _ in 0..87 {
        synth.process(512);
        let left = synth.get_output("_output", "left").unwrap().clone();
        let right = synth.get_output("_output", "right").unwrap().clone();
        assert_eq!(left, right);
        assert_eq!(left.len(), 512);
        seen.extend(left);
    }
    assert!(seen.iter().all(|v| (-1.01..=1.01).contains(v)));
    let first = seen[0];
    assert!(seen.iter().any(|v| (v - first).abs() > 0.5));
    let osc = synth.get_output("osc", "sine").unwrap();
    assert!(osc.iter().any(|v| v.abs() > 0.5));
}

#[test]
fn sequencer_drives_the_oscillator() {
    let patch = "clk: lfo 4\nseq: seq8\nseq.clock <- clk.gate\nseq.step1 <- 110\nseq.step2 <- 220\n\
seq.step3 <- 330\nseq.step4 <- 440\nseq.step5 <- 550\nseq.step6 <- 660\nseq.step7 <- 770\n\
seq.step8 <- 880\nosc: osc sine 440\nosc.freq <- seq.cv\nout <- osc.sine";
    let result = run(patch, Duration::from_secs(2));
    assert!(result.signal_varied("seq", "cv"));
    let mut steps: Vec<i32> =
        result.get_signal_values("seq", "step").iter().map(|v| *v as i32).collect();
    steps.sort_unstable();
    steps.dedup();
    assert!(steps.len() >= 3, "steps seen: {steps:?}");
    assert!(result.signal_varied("osc", "sine"));
    let values = result.get_signal_values("seq", "cv");
    assert!(values.iter().any(|v| (*v - 220.0).abs() < 0.001));
}

#[test]
fn filter_smooths_the_sawtooth() {
    let mut synth = Synth::new();
    synth
        .load_patch(
            "vco: osc saw 220\nlfo: lfo 2\nvcf: filter 1000 0.5\nvcf.audio <- vco.saw\n\
vcf.cutoff <- lfo.sine * 2000\nout <- vcf.lp",
        )
        .unwrap();
    let mut saw: Vec<f32> = Vec::new();
    let mut lp: Vec<f32> = Vec::new();
    for _ in 0..86 {
        synth.process(512);
        saw.extend(synth.get_output("vco", "saw").unwrap());
        lp.extend(synth.get_output("vcf", "lp").unwrap());
    }
    let range = |v: &[f32]| {
        (
            v.iter().fold(f32::INFINITY, |a, &b| a.min(b)),
            v.iter().fold(f32::NEG_INFINITY, |a, &b| a.max(b)),
        )
    };
    let (saw_min, saw_max) = range(&saw);
    let (lp_min, lp_max) = range(&lp);
    assert!(lp_min > saw_min && lp_max < saw_max);
    assert!(zero_crossings(&lp) <= zero_crossings(&saw));
    assert!(lp_max > lp_min);
}

#[test]
fn filter_cutoff_is_held_to_its_bounds() {
    let mut low = Synth::new();
    low.load_patch("n: osc saw 220\nf: filter -50000 0.5\nf.audio <- n.saw\nout <- f.lp").unwrap();
    let mut floor = Synth::new();
    floor.load_patch("n: osc saw 220\nf: filter 20 0.5\nf.audio <- n.saw\nout <- f.lp").unwrap();
    let mut high = Synth::new();
    high.load_patch("n: osc saw 220\nf: filter 1e9 0.5\nf.audio <- n.saw\nout <- f.lp").unwrap();
    let mut ceiling = Synth::new();
    ceiling.load_patch("n: osc saw 220\nf: filter 20000 0.5\nf.audio <- n.saw\nout <- f.lp").unwrap();
    for synth in [&mut low, &mut floor, &mut high, &mut ceiling] {
        synth.process(512);
        synth.process(512);
    }
    assert_eq!(low.get_output("f", "lp"), floor.get_output("f", "lp"));
    assert_eq!(high.get_output("f", "lp"), ceiling.get_output("f", "lp"));
    assert_ne!(low.get_output("f", "lp"), high.get_output("f", "lp"));
}

#[test]
fn oscillator_follows_its_frequency_input() {
    let mut driven = Synth::new();
    driven
        .load_patch("c: osc sine 0\nk: vca 1\nosc: osc sine 0\nosc.freq <- k.out + 330\nout <- osc.sine")
        .unwrap();
    let mut plain = Synth::new();
    plain.load_patch("osc: osc sine 330\nout <- osc.sine").unwrap();
    for _ in 0..4 {
        driven.process(512);
        plain.process(512);
    }
    assert_eq!(driven.get_output("osc", "sine"), plain.get_output("osc", "sine"));
    assert!(plain.get_output("osc", "sine").unwrap().iter().any(|v| v.abs() > 0.5));
}

#[test]
fn envelope_follows_the_manual_gate() {
    let mut synth = Synth::new();
    synth
        .load_patch("g: gate manual\ne: envelope 0.01 0.1\ne.gate <- g.gate\nout <- e.out")
        .unwrap();
    assert_eq!(synth.activate_manual_gates(), 1);
    let mut peak = 0.0_f32;
    for _ in 0..(2205 / 63) {
        synth.process(63);
        for v in synth.get_output("e", "out").unwrap() {
            peak = peak.max(*v);
        }
    }
    assert!(peak >= 0.95, "peak {peak}");
    assert_eq!(synth.release_manual_gates(), 1);
    for _ in 0..(8820 / 63) {
        synth.process(63);
    }
    let last = *synth.get_output("e", "out").unwrap().last().unwrap();
    assert!(last <= 0.05, "last {last}");
}

#[test]
fn sums_scalings_and_offsets_leave_samples_alone_where_they_should() {
    let outputs = {
        let mut synth = Synth::new();
        synth.load_patch("osc: osc saw 440\nout <- osc.saw").unwrap();
        synth.process(64);
        synth.outputs
    };
    let source = outputs.get("osc").unwrap().get("saw").unwrap().clone();
    let direct = || ConnectionExpr::Direct { module: "osc".to_string(), port: "saw".to_string() };
    let num = |s: &str| Number::parse(s).unwrap();
    let eval = |expr: &ConnectionExpr| {
        let mut buffer = vec![9.0; 64];
        evaluate(expr, &outputs, &mut buffer);
        buffer
    };
    assert_eq!(eval(&direct()), source);
    assert_eq!(eval(&ConnectionExpr::Sum { exprs: vec![direct()] }), source);
    assert_eq!(eval(&ConnectionExpr::Scaled { expr: Box::new(direct()), factor: num("1") }), source);
    assert_eq!(eval(&ConnectionExpr::Offset { expr: Box::new(direct()), offset: num("0") }), source);
    assert_eq!(eval(&ConnectionExpr::Sum { exprs: vec![] }), vec![0.0; 64]);
    let missing = ConnectionExpr::Direct { module: "osc".to_string(), port: "none".to_string() };
    assert_eq!(eval(&missing), vec![9.0; 64]);
    let scaled_offset = ConnectionExpr::Scaled {
        expr: Box::new(ConnectionExpr::Offset { expr: Box::new(direct()), offset: num("0.5") }),
        factor: num("2"),
    };
    let offset_scaled = ConnectionExpr::Offset {
        expr: Box::new(ConnectionExpr::Scaled { expr: Box::new(direct()), factor: num("2") }),
        offset: num("0.5"),
    };
    assert_ne!(eval(&scaled_offset), eval(&offset_scaled));
}

#[test]
fn imported_voice_plays() {
    let mut synth = Synth::new();
    synth.engine.module_loader.install(
        "voice",
        "voice.zim".to_string(),
        "o: osc sine 440\npatchbay:\n  out: port 1\n".to_string(),
    );
    synth.process_line("import voice").unwrap();
    synth.process_line("v: voice").unwrap();
    synth.process_line("out <- v_o.sine").unwrap();
    let modules = synth.list_modules();
    assert!(modules.contains(&"v_o".to_string()));
    assert!(!modules.contains(&"o".to_string()));
    synth.process(512);
    let left = synth.get_output("_output", "left").unwrap();
    assert!(left.iter().any(|v| v.abs() > 0.5));
    assert!(synth.validate_connections().is_empty());
    assert!(synth.inspect_module("v_o").is_some());
}

#[test]
fn patch_with_an_imported_voice_loads() {
    let voice = ModuleText {
        path: "voice".to_string(),
        file_path: "voice.zim".to_string(),
        content: "o: osc sine 440\npatchbay:\n  out: port 1\n".to_string(),
    };
    let patch = "import voice\nv: voice\nout <- v_o.sine";
    let mut synth = Synth::new();
    synth.load_patch_with(patch, &vec![voice]).unwrap();
    let modules = synth.list_modules();
    assert!(modules.contains(&"v_o".to_string()));
    assert!(!modules.contains(&"o".to_string()));
    assert!(synth.validate_connections().is_empty());
    synth.process(512);
    let left = synth.get_output("_output", "left").unwrap();
    assert!(left.iter().any(|v| v.abs() > 0.5));

    let error = synth.load_patch_with(patch, &Vec::new()).unwrap_err();
    assert!(error.starts_with("Error on line 'import voice': "), "{error}");
    assert!(synth.list_modules().is_empty());
}

#[test]
fn inputs_are_filled_with_their_defaults_each_block() {
    let mut synth = Synth::new();
    synth.process_line("v: vca 0.5").unwrap();
    synth.process_line("o: osc 440").unwrap();
    synth.process_line("v.audio <- o.sine").unwrap();
    synth.process(64);
    synth.process(32);
    let inputs = synth.inputs.get("v").unwrap();
    let cv = inputs.get("cv").unwrap();
    assert_eq!(cv.len(), 32);
    assert!(cv.iter().all(|v| *v == 0.0));
    let cv2 = inputs.get("cv2").unwrap();
    assert_eq!(cv2.len(), 32);
    assert!(cv2.iter().all(|v| *v == 1.0));
    assert_eq!(inputs.get("audio").unwrap().len(), 32);
}
