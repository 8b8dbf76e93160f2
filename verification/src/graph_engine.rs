//! The engine: it takes the statements of a patch, one line at a time, and
//! builds the graph from them.

use vstd::prelude::*;
use vstd::string::StringExecFns;
use crate::expression::{
    expr_of, prefix_module_reference, prefix_name, prefixed_name, read_expression,
};
use crate::graph::{
    entry_names, gates_switched, put_in, strings, Connection, ConnectionView, GraphError,
    GraphExecutor, ModuleInfo,
};
use crate::graph_modules::{
    GraphFilter, GraphLfo, GraphManualGate, GraphMonoMixer, GraphMult, GraphNoiseGen,
    GraphOscillator, GraphStereoOutput, GraphVca, GraphVisual,
};
use crate::module_loader::{handed_in, LoadError, LoadedModule, ModuleLoader, ModuleText};
use crate::modules::ModuleType;
use crate::node::Node;
use crate::number::{
    decimal_digits, lemma_digits_are_number, lemma_point_is_number, Number,
};
use crate::parser::{
    clone_numbers, number_texts, parse_line, Command, CommandView, ModuleTypeRef,
    ModuleTypeRefView, PatchbayDef,
};
use crate::reading::below_zero;
use crate::sequencing::{clamped, count_of, GraphClockDiv, GraphSeq8, GraphSwitch};
use crate::shaping::{GraphEnvelope, GraphSlewGen};
use crate::text::{
    chars_of, find, holds, is_text, same, split_in_two, split_pair, starts_with, string_from, trim,
    trimmed, without_prefix,
};

verus! {

/// Why the audio output did not start.
#[derive(Debug)]
pub enum AudioError {
    /// There is no audio output device.
    NoOutputDevice,
    /// The device wants samples in a format that is not supported.
    UnsupportedSampleFormat,
    /// The device did not open.
    DeviceFailure { message: String },
}

/// Why the engine did not do what a line asked.
#[derive(Debug)]
pub enum EngineError {
    /// The line is no statement.
    Unrecognized { line: String },
    /// A destination is not written as a module, a point and a port.
    InvalidDestination,
    /// A source expression is not written as one.
    InvalidExpression { expr: String },
    /// The module type cannot be built.
    NotImplemented { module_type: ModuleType },
    /// A sub-patch holds a module of an imported type.
    NestedModule { name: String },
    /// A sub-patch holds an import.
    NestedImport { path: String },
    /// No sub-patch was imported under the name.
    ImportNotFound { name: String, available: Vec<String> },
    /// The graph refused.
    Graph { refusal: GraphError },
    /// A sub-patch was not loaded.
    Load { failure: LoadError },
    /// The audio output did not start.
    Audio { fault: AudioError },
    /// A line of a patch failed.
    Line { line: String, cause: Box<EngineError> },
}

impl AudioError {
    /// The text of the error.
    pub open spec fn text(&self) -> Seq<char> {
        match self {
            AudioError::NoOutputDevice => "No audio output device available"@,
            AudioError::UnsupportedSampleFormat => "Unsupported sample format"@,
            AudioError::DeviceFailure { message } => message@,
        }
    }

    /// The text shown to the user.
    pub fn message(&self) -> (r: String)
        ensures
            r@ == self.text(),
    {
        match self {
            AudioError::NoOutputDevice => String::from_str("No audio output device available"),
            AudioError::UnsupportedSampleFormat => String::from_str("Unsupported sample format"),
            AudioError::DeviceFailure { message } => message.clone(),
        }
    }
}

impl EngineError {
    /// The text of the error.
    pub open spec fn text(&self) -> Seq<char>
        decreases self,
    {
        match self {
            EngineError::Unrecognized { line } => "Unrecognized syntax: "@ + line@,
            EngineError::InvalidDestination => "Invalid destination format. Use: module.port"@,
            EngineError::InvalidExpression { expr } => "Invalid connection expression: "@ + expr@,
            EngineError::NotImplemented { module_type } => "Module type "@
                + module_type.spec_variant_name() + " not yet implemented"@,
            EngineError::NestedModule { name } => "Cannot create nested imported module: "@
                + name@,
            EngineError::NestedImport { path } => "Nested imports not yet supported in module '"@
                + path@ + "'"@,
            EngineError::ImportNotFound { name, available } => "Imported module '"@ + name@
                + "' not found. Available modules: ["@ + crate::module_resolver::quoted_list(
                strings(available@),
            ) + "]"@,
            EngineError::Graph { refusal } => refusal.text(),
            EngineError::Load { failure } => failure.text(),
            EngineError::Audio { fault } => fault.text(),
            EngineError::Line { line, cause } => "Error on line '"@ + line@ + "': "@
                + cause.text(),
        }
    }

    /// The text shown to the user.
    pub fn message(&self) -> (r: String)
        ensures
            r@ == self.text(),
        decreases self,
    {
        match self {
            EngineError::Unrecognized { line } => String::from_str("Unrecognized syntax: ").concat(
                line.as_str(),
            ),
            EngineError::InvalidDestination => String::from_str(
                "Invalid destination format. Use: module.port",
            ),
            EngineError::InvalidExpression { expr } => String::from_str(
                "Invalid connection expression: ",
            ).concat(expr.as_str()),
            EngineError::NotImplemented { module_type } => String::from_str(
                "Module type ",
            ).concat(module_type.variant_name()).concat(" not yet implemented"),
            EngineError::NestedModule { name } => String::from_str(
                "Cannot create nested imported module: ",
            ).concat(name.as_str()),
            EngineError::NestedImport { path } => String::from_str(
                "Nested imports not yet supported in module '",
            ).concat(path.as_str()).concat("'"),
            EngineError::ImportNotFound { name, available } => String::from_str(
                "Imported module '",
            ).concat(name.as_str()).concat("' not found. Available modules: [").concat(
                crate::module_resolver::quote_list(available).as_str(),
            ).concat("]"),
            EngineError::Graph { refusal } => refusal.message(),
            EngineError::Load { failure } => failure.message(),
            EngineError::Audio { fault } => fault.message(),
            EngineError::Line { line, cause } => String::from_str("Error on line '").concat(
                line.as_str(),
            ).concat("': ").concat(cause.message().as_str()),
        }
    }

    /// The file whose text the failure asks for: that of a sub-patch that
    /// is kept in a file whose text was not handed in, also where the
    /// failure is that of a line of a patch.
    pub open spec fn file_needed(&self) -> Option<Seq<char>>
        decreases self,
    {
        match self {
            EngineError::Load { failure } => match failure {
                LoadError::FileNeeded { file_path } => Some(file_path@),
                _ => None,
            },
            EngineError::Line { line, cause } => cause.file_needed(),
            _ => None,
        }
    }

    /// Finds the file whose text the failure asks for.
    pub fn needed_file(&self) -> (r: Option<String>)
        ensures
            crate::parser::option_text(r) == self.file_needed(),
        decreases self,
    {
        match self {
            EngineError::Load { failure } => match failure {
                LoadError::FileNeeded { file_path } => Some(file_path.clone()),
                _ => None,
            },
            EngineError::Line { line, cause } => cause.needed_file(),
            _ => None,
        }
    }
}

/// A sub-patch that was imported: the name it goes by, its path, and its
/// patchbay.
#[derive(Debug)]
pub struct ImportedModule {
    pub key: String,
    pub path: String,
    pub patchbay: PatchbayDef,
}

/// The engine: the graph and what was imported.
pub struct GraphEngine {
    pub graph: GraphExecutor,
    pub is_running: bool,
    /// Samples per second.
    pub sample_rate: u32,
    pub output_module: Option<String>,
    pub output_port: Option<String>,
    /// Whether the hidden stereo output was made.
    pub has_stereo_output: bool,
    pub module_loader: ModuleLoader,
    pub imported_modules: Vec<ImportedModule>,
}

/// The number of the parameters `params` at the position `i`, or `default`.
pub open spec fn param_or(params: Seq<Seq<char>>, i: int, default: Seq<char>) -> Seq<char> {
    if 0 <= i < params.len() {
        params[i]
    } else {
        default
    }
}

/// The frequency of an oscillator with the parameters `params`: behind a
/// first parameter below zero, which stands for a waveform, the second
/// parameter, else the first; 440 where there is none.
pub open spec fn oscillator_frequency(params: Seq<Seq<char>>) -> Seq<char> {
    if params.len() > 0 && below_zero(params[0]) {
        param_or(params, 1, "440"@)
    } else {
        param_or(params, 0, "440"@)
    }
}

/// Whether a module type can be built.
pub open spec fn can_build(t: ModuleType) -> bool {
    t != ModuleType::Output && t != ModuleType::StereoMixer && t != ModuleType::SampleHold
}

/// Whether `node` is the module of the type `t` that the parameters
/// `params` ask for.
pub open spec fn is_built(node: Node, t: ModuleType, params: Seq<Seq<char>>) -> bool {
    match t {
        ModuleType::Oscillator => node is Oscillator && node->Oscillator_0.frequency@
            == oscillator_frequency(params),
        ModuleType::Filter => node is Filter && node->Filter_0.cutoff@ == param_or(
            params,
            0,
            "1000"@,
        ) && node->Filter_0.resonance@ == param_or(params, 1, "0.5"@),
        ModuleType::Envelope => {
            &&& node is Envelope
            &&& node->Envelope_0.attack@ == param_or(params, 0, "0.01"@)
            &&& node->Envelope_0.decay@ == param_or(params, 1, "0.1"@)
            &&& node->Envelope_0.phase == crate::shaping::EnvelopePhase::Idle
            &&& node->Envelope_0.attack_shape == crate::shaping::EnvelopeShape::Linear
            &&& node->Envelope_0.decay_shape == crate::shaping::EnvelopeShape::Linear
        },
        ModuleType::Vca => node is Vca && node->Vca_0.gain@ == param_or(params, 0, "1"@),
        ModuleType::Lfo => node is Lfo && node->Lfo_0.frequency@ == param_or(params, 0, "1"@),
        ModuleType::ManualGate => node is ManualGate && !node->ManualGate_0.gate_on,
        ModuleType::StereoOutput => node is StereoOutput && !node->StereoOutput_0.left_connected
            && !node->StereoOutput_0.right_connected,
        ModuleType::Noise => node is Noise && node->Noise_0.rng_state == 12345,
        ModuleType::Mixer => node is Mixer && node->Mixer_0.is_fresh(
            count_of(param_or(params, 0, "4"@)),
        ),
        ModuleType::Slew => {
            &&& node is Slew
            &&& node->Slew_0.rise_time@ == param_or(params, 0, "0.1"@)
            &&& node->Slew_0.fall_time@ == param_or(params, 1, param_or(params, 0, "0.1"@))
            &&& node->Slew_0.curve_type == crate::graph_modules::SlewCurve::Linear
            &&& !node->Slew_0.is_rising
            &&& !node->Slew_0.is_falling
            &&& !node->Slew_0.reached_target
        },
        ModuleType::Seq8 => node is Seq8 && node->Seq8_0.is_fresh(),
        ModuleType::Visual => node is Visual && node->Visual_0.sample_count == 0
            && node->Visual_0.print_interval == 4410,
        ModuleType::Mult => node is Mult,
        ModuleType::Switch => node == Node::Switch(
            GraphSwitch {
                current_input: 0,
                input_count: clamped(count_of(param_or(params, 0, "4"@)), 2, 8),
                last_clock: crate::graph_modules::Level::Low,
                switch_count: 0,
            },
        ),
        ModuleType::ClockDiv => node == Node::ClockDiv(
            GraphClockDiv {
                division: if count_of(param_or(params, 0, "4"@)) < 1 {
                    1
                } else {
                    count_of(param_or(params, 0, "4"@))
                },
                counter: 0,
                last_clock: crate::graph_modules::Level::Low,
                output_state: false,
            },
        ),
        _ => false,
    }
}

/// The parameter at the position `i`, or the number written as `default`.
fn pick(params: &Vec<Number>, i: usize, default: &str) -> (r: Number)
    requires
        crate::number::is_number(default@),
        forall|k: int| 0 <= k < params.len() ==> (#[trigger] params[k]).wf(),
    ensures
        r@ == param_or(number_texts(params@), i as int, default@),
        r.wf(),
{
    if i < params.len() {
        params[i].clone()
    } else {
        Number::literal(default)
    }
}

/// What the default values of the parameters are written as.
proof fn reveal_defaults()
    ensures
        crate::number::is_number("440"@),
        crate::number::is_number("1000"@),
        crate::number::is_number("0.5"@),
        crate::number::is_number("0.01"@),
        crate::number::is_number("0.1"@),
        crate::number::is_number("1"@),
        crate::number::is_number("4"@),
{
    reveal_strlit("440");
    reveal_strlit("1000");
    reveal_strlit("0.5");
    reveal_strlit("0.01");
    reveal_strlit("0.1");
    reveal_strlit("1");
    reveal_strlit("4");
    lemma_digits_are_number("440"@);
    lemma_digits_are_number("1000"@);
    lemma_point_is_number("0.5"@, 1);
    lemma_point_is_number("0.01"@, 1);
    lemma_point_is_number("0.1"@, 1);
    lemma_digits_are_number("1"@);
    lemma_digits_are_number("4"@);
}

/// Builds the module of the type `t` that the parameters `params` ask for.
pub fn build_module(t: ModuleType, params: &Vec<Number>) -> (r: Option<Node>)
    requires
        forall|k: int| 0 <= k < params.len() ==> (#[trigger] params[k]).wf(),
    ensures
        match r {
            Some(node) => can_build(t) && is_built(node, t, number_texts(params@)) && node.wf()
                && node.kind() == t,
            None => !can_build(t),
        },
{
    proof {
        reveal_defaults();
    }
    let ghost texts = number_texts(params@);
    match t {
        ModuleType::Oscillator => {
            let frequency = if params.len() > 0 && params[0].is_negative() {
                pick(params, 1, "440")
            } else {
                pick(params, 0, "440")
            };
            Some(Node::Oscillator(GraphOscillator::new(frequency)))
        },
        ModuleType::Filter => Some(
            Node::Filter(GraphFilter::new(pick(params, 0, "1000"), pick(params, 1, "0.5"))),
        ),
        ModuleType::Envelope => Some(
            Node::Envelope(GraphEnvelope::new(pick(params, 0, "0.01"), pick(params, 1, "0.1"))),
        ),
        ModuleType::Vca => Some(Node::Vca(GraphVca::new(pick(params, 0, "1")))),
        ModuleType::Lfo => Some(Node::Lfo(GraphLfo::new(pick(params, 0, "1")))),
        ModuleType::ManualGate => Some(Node::ManualGate(GraphManualGate::new())),
        ModuleType::StereoOutput => Some(Node::StereoOutput(GraphStereoOutput::new())),
        ModuleType::Noise => Some(Node::Noise(GraphNoiseGen::new())),
        ModuleType::Mixer => Some(
            Node::Mixer(GraphMonoMixer::new(pick(params, 0, "4").truncated())),
        ),
        ModuleType::Slew => {
            let rise = pick(params, 0, "0.1");
            let fall = if params.len() > 1 {
                params[1].clone()
            } else {
                rise.clone()
            };
            Some(Node::Slew(GraphSlewGen::new(rise, fall)))
        },
        ModuleType::Seq8 => Some(Node::Seq8(GraphSeq8::new())),
        ModuleType::Visual => Some(Node::Visual(GraphVisual::new())),
        ModuleType::Mult => Some(Node::Mult(GraphMult::new())),
        ModuleType::Switch => Some(
            Node::Switch(GraphSwitch::new(pick(params, 0, "4").truncated())),
        ),
        ModuleType::ClockDiv => Some(
            Node::ClockDiv(GraphClockDiv::new(pick(params, 0, "4").truncated())),
        ),
        ModuleType::StereoMixer => None,
        ModuleType::SampleHold => None,
        ModuleType::Output => None,
    }
}

/// Whether the engine `after` and the outcome `r` are what the declaration
/// of a module `name` of the type `module_type` with the parameters `params`
/// makes of the engine `before`, where types of imported sub-patches are
/// refused.
pub open spec fn declared(
    before: GraphEngine,
    after: GraphEngine,
    name: Seq<char>,
    module_type: ModuleTypeRefView,
    params: Seq<Seq<char>>,
    r: Result<(), EngineError>,
) -> bool {
    &&& after.wf()
    &&& after.is_running == before.is_running
    &&& after.sample_rate == before.sample_rate
    &&& after.has_stereo_output == before.has_stereo_output
    &&& after.module_loader == before.module_loader
    &&& after.imported_modules == before.imported_modules
    &&& after.graph.connections == before.graph.connections
    &&& match module_type {
        ModuleTypeRefView::BuiltIn(t) => match r {
            Ok(_) => {
                &&& can_build(t)
                &&& after.graph.has_module(name)
                &&& is_built(after.graph.node_of(name), t, params)
                &&& put_in(before.graph, after.graph, name)
                &&& after.names() == if before.graph.has_module(name) {
                    before.names()
                } else {
                    before.names().push(name)
                }
            },
            Err(e) => !can_build(t) && e is NotImplemented && after == before,
        },
        ModuleTypeRefView::Imported(n) => r is Err && r->Err_0 is NestedModule
            && r->Err_0->NestedModule_name@ == n && after == before,
    }
}

/// Whether the engine `after` and the outcome `r` are what setting the
/// parameter `param` of the module `module` to `value` makes of the engine
/// `before`.
pub open spec fn written(
    before: GraphEngine,
    after: GraphEngine,
    module: Seq<char>,
    param: Seq<char>,
    value: Seq<char>,
    r: Result<(), EngineError>,
) -> bool {
    &&& after.wf()
    &&& after.is_running == before.is_running
    &&& after.sample_rate == before.sample_rate
    &&& after.has_stereo_output == before.has_stereo_output
    &&& after.module_loader == before.module_loader
    &&& after.imported_modules == before.imported_modules
    &&& after.graph.connections == before.graph.connections
    &&& after.names() == before.names()
    &&& r is Ok <==> before.graph.has_module(module) && before.graph.node_of(
        module,
    ).accepts(param, value)
    &&& r is Err ==> r->Err_0 is Graph && after.graph.modules@ =~= before.graph.modules@
    &&& r is Ok ==> Node::param_set(
        before.graph.node_of(module),
        after.graph.node_of(module),
        param,
        value,
        Ok(()),
    ) && forall|k: int|
        0 <= k < before.graph.modules.len() && k != before.graph.index_of(
            module,
        ) ==> after.graph.modules[k] == before.graph.modules[k]
}

/// Whether the engine `after` and the outcome `r` are what a connection
/// from the source expression `source` to the input `dest` makes of the
/// engine `before`.
pub open spec fn connected(
    before: GraphEngine,
    after: GraphEngine,
    dest: Seq<char>,
    source: Seq<char>,
    r: Result<String, EngineError>,
) -> bool {
    &&& after.wf()
    &&& after.is_running == before.is_running
    &&& after.sample_rate == before.sample_rate
    &&& after.has_stereo_output == before.has_stereo_output
    &&& after.module_loader == before.module_loader
    &&& after.imported_modules == before.imported_modules
    &&& after.names() == before.names()
    &&& match r {
        Ok(text) => {
            &&& expr_of(source) is Some
            &&& after.graph.connections@.len() == before.graph.connections@.len()
                + 1
            &&& match split_pair(dest, "."@) {
                Some(to) => after.graph.connections@.last()@ == (ConnectionView {
                    to_module: to.0,
                    to_port: to.1,
                    expression: expr_of(source)->0,
                }),
                None => false,
            }
            &&& forall|i: int|
                0 <= i < before.graph.connections@.len() ==> after.graph.connections@[i]
                    == before.graph.connections@[i]
            &&& text@ == "Connected: "@ + dest + " <- "@ + source
            &&& after.graph.modules.len() == before.graph.modules.len()
            &&& forall|k: int|
                0 <= k < before.graph.modules.len() && k != before.graph.index_of(
                    "_output"@,
                ) ==> after.graph.modules[k] == before.graph.modules[k]
            &&& match split_pair(dest, "."@) {
                Some(to) => if to.0 == "_output"@ {
                    before.graph.has_module("_output"@) ==> after.graph.node_of(
                        "_output"@,
                    ) == match before.graph.node_of("_output"@) {
                        Node::StereoOutput(out) => Node::StereoOutput(
                            GraphStereoOutput {
                                left_connected: out.left_connected || to.1 == "left"@,
                                right_connected: out.right_connected || to.1 == "right"@,
                            },
                        ),
                        other => other,
                    }
                } else {
                    after.graph.modules == before.graph.modules
                },
                None => false,
            }
        },
        Err(EngineError::InvalidDestination) => split_pair(dest, "."@) is None && after == before,
        Err(_) => split_pair(dest, "."@) is Some && expr_of(source) is None
            && after == before,
    }
}

/// Whether the engine `after` and the outcome `r` are what the statements
/// of a sub-patch from `i` on make of the engine `before` in the instance
/// `instance`: each declaration adds its module under the name of the
/// instance, an underscore and its own name; each connection and each
/// parameter assignment is taken over with its names rewritten in the same
/// way; a patchbay is passed over; and an import, or a statement that
/// fails, ends the work with its error.
pub open spec fn instantiated_from(
    before: GraphEngine,
    instance: Seq<char>,
    commands: Seq<CommandView>,
    path: Seq<char>,
    i: int,
    after: GraphEngine,
    r: Result<(), EngineError>,
) -> bool
    decreases commands.len() - i,
{
    if i < 0 || i >= commands.len() {
        after == before && r is Ok
    } else {
        match commands[i] {
            CommandView::DefinePatchbay { .. } => instantiated_from(
                before,
                instance,
                commands,
                path,
                i + 1,
                after,
                r,
            ),
            CommandView::CreateModule { name, module_type, params } => exists|
                mid: GraphEngine,
                out: Result<(), EngineError>,
            | #[trigger]
                declared(before, mid, prefixed_name(instance, name), module_type, params, out)
                    && match out {
                    Ok(_) => instantiated_from(mid, instance, commands, path, i + 1, after, r),
                    Err(e) => after == mid && r is Err && r->Err_0 == e,
                },
            CommandView::Connect { from, to } => exists|
                mid: GraphEngine,
                out: Result<String, EngineError>,
            | #[trigger]
                connected(
                    before,
                    mid,
                    crate::expression::prefixed_reference(instance, to),
                    crate::expression::prefixed_reference(instance, from),
                    out,
                ) && match out {
                    Ok(_) => instantiated_from(mid, instance, commands, path, i + 1, after, r),
                    Err(e) => after == mid && r is Err && r->Err_0 == e,
                },
            CommandView::SetParam { module, param, value } => exists|
                mid: GraphEngine,
                out: Result<(), EngineError>,
            | #[trigger]
                written(before, mid, prefixed_name(instance, module), param, value, out)
                    && match out {
                    Ok(_) => instantiated_from(mid, instance, commands, path, i + 1, after, r),
                    Err(e) => after == mid && r is Err && r->Err_0 == e,
                },
            CommandView::Import { .. } => {
                &&& after == before
                &&& r is Err
                &&& r->Err_0 is NestedImport
                &&& r->Err_0->NestedImport_path@ == path
            },
        }
    }
}

/// A declaration of a sub-patch is one step of an instance.
pub proof fn lemma_declaration_step(
    before: GraphEngine,
    mid: GraphEngine,
    instance: Seq<char>,
    commands: Seq<CommandView>,
    path: Seq<char>,
    i: int,
    after: GraphEngine,
    r: Result<(), EngineError>,
    out: Result<(), EngineError>,
)
    requires
        0 <= i < commands.len(),
        commands[i] is CreateModule,
        declared(
            before,
            mid,
            prefixed_name(instance, commands[i]->CreateModule_name),
            commands[i]->CreateModule_module_type,
            commands[i]->CreateModule_params,
            out,
        ),
        match out {
            Ok(_) => instantiated_from(mid, instance, commands, path, i + 1, after, r),
            Err(e) => after == mid && r is Err && r->Err_0 == e,
        },
    ensures
        instantiated_from(before, instance, commands, path, i, after, r),
{
}

/// A connection of a sub-patch is one step of an instance.
pub proof fn lemma_connection_step(
    before: GraphEngine,
    mid: GraphEngine,
    instance: Seq<char>,
    commands: Seq<CommandView>,
    path: Seq<char>,
    i: int,
    after: GraphEngine,
    r: Result<(), EngineError>,
    out: Result<String, EngineError>,
)
    requires
        0 <= i < commands.len(),
        commands[i] is Connect,
        connected(
            before,
            mid,
            crate::expression::prefixed_reference(instance, commands[i]->Connect_to),
            crate::expression::prefixed_reference(instance, commands[i]->Connect_from),
            out,
        ),
        match out {
            Ok(_) => instantiated_from(mid, instance, commands, path, i + 1, after, r),
            Err(e) => after == mid && r is Err && r->Err_0 == e,
        },
    ensures
        instantiated_from(before, instance, commands, path, i, after, r),
{
}

/// A parameter assignment of a sub-patch is one step of an instance.
pub proof fn lemma_assignment_step(
    before: GraphEngine,
    mid: GraphEngine,
    instance: Seq<char>,
    commands: Seq<CommandView>,
    path: Seq<char>,
    i: int,
    after: GraphEngine,
    r: Result<(), EngineError>,
    out: Result<(), EngineError>,
)
    requires
        0 <= i < commands.len(),
        commands[i] is SetParam,
        written(
            before,
            mid,
            prefixed_name(instance, commands[i]->SetParam_module),
            commands[i]->SetParam_param,
            commands[i]->SetParam_value,
            out,
        ),
        match out {
            Ok(_) => instantiated_from(mid, instance, commands, path, i + 1, after, r),
            Err(e) => after == mid && r is Err && r->Err_0 == e,
        },
    ensures
        instantiated_from(before, instance, commands, path, i, after, r),
{
}

/// Whether the graph `after` has the modules of the graph `before` at
/// their places under their names, and as they were those whose name does
/// not begin with `prefix` and is not that of the hidden stereo output,
/// and behind them only modules whose names begin with `prefix`.
pub open spec fn kept_outside(before: GraphExecutor, after: GraphExecutor, prefix: Seq<char>) -> bool {
    &&& after.modules.len() >= before.modules.len()
    &&& forall|k: int|
        0 <= k < before.modules.len() ==> (#[trigger] after.modules[k]).name@
            == before.modules[k].name@
    &&& forall|k: int|
        0 <= k < before.modules.len() && !starts_with(before.modules[k].name@, prefix)
            && before.modules[k].name@ != "_output"@ ==> #[trigger] after.modules[k]
            == before.modules[k]
    &&& forall|k: int|
        before.modules.len() <= k < after.modules.len() ==> starts_with(
            (#[trigger] after.modules[k]).name@,
            prefix,
        )
}

/// An instance leaves the modules that were there at their places, and as
/// they were: it adds or replaces only modules whose names begin with the
/// name of the instance and an underscore, and changes besides them only
/// the hidden stereo output, of which it may mark a side as connected.
pub proof fn lemma_instance_keeps_others(
    before: GraphEngine,
    instance: Seq<char>,
    commands: Seq<CommandView>,
    path: Seq<char>,
    i: int,
    after: GraphEngine,
    r: Result<(), EngineError>,
)
    requires
        instantiated_from(before, instance, commands, path, i, after, r),
    ensures
        kept_outside(before.graph, after.graph, instance + "_"@),
    decreases commands.len() - i,
{
    let prefix = instance + "_"@;
    if i < 0 || i >= commands.len() {
    } else {
        match commands[i] {
            CommandView::DefinePatchbay { .. } => {
                lemma_instance_keeps_others(before, instance, commands, path, i + 1, after, r);
            },
            CommandView::CreateModule { name, module_type, params } => {
                let (mid, out) = choose|mid: GraphEngine, out: Result<(), EngineError>| #[trigger]
                    declared(before, mid, prefixed_name(instance, name), module_type, params, out)
                        && match out {
                        Ok(_) => instantiated_from(mid, instance, commands, path, i + 1, after, r),
                        Err(e) => after == mid && r is Err && r->Err_0 == e,
                    };
                let full = prefixed_name(instance, name);
                crate::expression::lemma_name_has_prefix(instance, name);
                before.graph.lemma_index(full, 0);
                assert(kept_outside(before.graph, mid.graph, prefix)) by {
                    if out is Ok {
                        assert forall|k: int| 0 <= k < before.graph.modules.len() implies (
                        #[trigger] mid.graph.modules[k]).name@ == before.graph.modules[k].name@ by {
                            assert(entry_names(mid.graph.modules@)[k] == mid.graph.modules[k].name@);
                            assert(entry_names(before.graph.modules@)[k]
                                == before.graph.modules[k].name@);
                        }
                        assert forall|k: int|
                            before.graph.modules.len() <= k < mid.graph.modules.len() implies starts_with(
                            (#[trigger] mid.graph.modules[k]).name@,
                            prefix,
                        ) by {
                            assert(entry_names(mid.graph.modules@)[k] == mid.graph.modules[k].name@);
                        }
                    }
                }
                if out is Ok {
                    lemma_instance_keeps_others(mid, instance, commands, path, i + 1, after, r);
                }
            },
            CommandView::Connect { from, to } => {
                let (mid, out) = choose|mid: GraphEngine, out: Result<String, EngineError>| #[trigger]
                    connected(
                        before,
                        mid,
                        crate::expression::prefixed_reference(instance, to),
                        crate::expression::prefixed_reference(instance, from),
                        out,
                    ) && match out {
                        Ok(_) => instantiated_from(mid, instance, commands, path, i + 1, after, r),
                        Err(e) => after == mid && r is Err && r->Err_0 == e,
                    };
                before.graph.lemma_index("_output"@, 0);
                assert(kept_outside(before.graph, mid.graph, prefix)) by {
                    assert forall|k: int| 0 <= k < before.graph.modules.len() implies (
                    #[trigger] mid.graph.modules[k]).name@ == before.graph.modules[k].name@ by {
                        assert(mid.names()[k] == mid.graph.modules[k].name@);
                        assert(before.names()[k] == before.graph.modules[k].name@);
                    }
                }
                if out is Ok {
                    lemma_instance_keeps_others(mid, instance, commands, path, i + 1, after, r);
                }
            },
            CommandView::SetParam { module, param, value } => {
                let (mid, out) = choose|mid: GraphEngine, out: Result<(), EngineError>| #[trigger]
                    written(before, mid, prefixed_name(instance, module), param, value, out)
                        && match out {
                        Ok(_) => instantiated_from(mid, instance, commands, path, i + 1, after, r),
                        Err(e) => after == mid && r is Err && r->Err_0 == e,
                    };
                let full = prefixed_name(instance, module);
                crate::expression::lemma_name_has_prefix(instance, module);
                before.graph.lemma_index(full, 0);
                assert(kept_outside(before.graph, mid.graph, prefix)) by {
                    assert(mid.names().len() == before.names().len());
                    assert forall|k: int| 0 <= k < before.graph.modules.len() implies (
                    #[trigger] mid.graph.modules[k]).name@ == before.graph.modules[k].name@ by {
                        assert(mid.names()[k] == mid.graph.modules[k].name@);
                        assert(before.names()[k] == before.graph.modules[k].name@);
                    }
                }
                if out is Ok {
                    lemma_instance_keeps_others(mid, instance, commands, path, i + 1, after, r);
                }
            },
            CommandView::Import { .. } => {},
        }
    }
}

/// A text does not begin with both of two prefixes of which neither begins
/// the other.
pub proof fn lemma_one_prefix(name: Seq<char>, p: Seq<char>, q: Seq<char>)
    requires
        starts_with(name, p),
        !starts_with(p, q),
        !starts_with(q, p),
    ensures
        !starts_with(name, q),
{
    if starts_with(name, q) {
        assert(name.subrange(0, p.len() as int) == p);
        assert(name.subrange(0, q.len() as int) == q);
        if p.len() <= q.len() {
            assert(q.subrange(0, p.len() as int) =~= name.subrange(0, p.len() as int));
        } else {
            assert(p.subrange(0, q.len() as int) =~= name.subrange(0, q.len() as int));
        }
    }
}

/// An instance `y` leaves the modules of an instance `x` as they were and
/// gives its own modules other names than theirs, where neither name of an
/// instance with its underscore begins the other.
pub proof fn lemma_instances_do_not_meet(
    before: GraphEngine,
    x: Seq<char>,
    y: Seq<char>,
    commands: Seq<CommandView>,
    path: Seq<char>,
    after: GraphEngine,
    r: Result<(), EngineError>,
)
    requires
        instantiated_from(before, y, commands, path, 0, after, r),
        !starts_with(x + "_"@, y + "_"@),
        !starts_with(y + "_"@, x + "_"@),
    ensures
        after.graph.modules.len() >= before.graph.modules.len(),
        forall|k: int|
            0 <= k < before.graph.modules.len() && starts_with(
                (#[trigger] before.graph.modules[k]).name@,
                x + "_"@,
            ) && before.graph.modules[k].name@ != "_output"@ ==> after.graph.modules[k]
                == before.graph.modules[k],
        forall|k: int|
            before.graph.modules.len() <= k < after.graph.modules.len() ==> !starts_with(
                (#[trigger] after.graph.modules[k]).name@,
                x + "_"@,
            ),
{
    lemma_instance_keeps_others(before, y, commands, path, 0, after, r);
    assert forall|k: int|
        0 <= k < before.graph.modules.len() && starts_with(
            (#[trigger] before.graph.modules[k]).name@,
            x + "_"@,
        ) && before.graph.modules[k].name@ != "_output"@ implies after.graph.modules[k]
        == before.graph.modules[k] by {
        lemma_one_prefix(before.graph.modules[k].name@, x + "_"@, y + "_"@);
    }
    assert forall|k: int|
        before.graph.modules.len() <= k < after.graph.modules.len() implies !starts_with(
        (#[trigger] after.graph.modules[k]).name@,
        x + "_"@,
    ) by {
        if starts_with(after.graph.modules[k].name@, x + "_"@) {
            lemma_one_prefix(after.graph.modules[k].name@, x + "_"@, y + "_"@);
        }
    }
}

/// Whether no two declarations among the statements have one name.
pub open spec fn declares_distinct(commands: Seq<CommandView>) -> bool {
    forall|a: int, b: int|
        0 <= a < b < commands.len() && commands[a] is CreateModule && commands[b] is CreateModule
            ==> commands[a]->CreateModule_name != commands[b]->CreateModule_name
}

/// Whether every module of the graph whose name begins with the name of
/// the instance and an underscore is that of one of the first `i`
/// statements.
pub open spec fn made_so_far(
    graph: GraphExecutor,
    instance: Seq<char>,
    commands: Seq<CommandView>,
    i: int,
) -> bool {
    forall|k: int|
        0 <= k < graph.modules.len() && starts_with(
            (#[trigger] graph.modules[k]).name@,
            instance + "_"@,
        ) ==> exists|j: int|
            0 <= j < i && j < commands.len() && #[trigger] commands[j] is CreateModule
                && graph.modules[k].name@ == prefixed_name(
                instance,
                commands[j]->CreateModule_name,
            )
}

/// An instance adds one module for each declaration of its sub-patch and
/// replaces none, where the declarations differ in their names and no
/// module of the graph had a name that begins with the name of the
/// instance and an underscore.
pub proof fn lemma_instance_adds_its_modules(
    before: GraphEngine,
    instance: Seq<char>,
    commands: Seq<CommandView>,
    path: Seq<char>,
    after: GraphEngine,
    r: Result<(), EngineError>,
)
    requires
        instantiated_from(before, instance, commands, path, 0, after, r),
        r is Ok,
        declares_distinct(commands),
        forall|k: int|
            0 <= k < before.graph.modules.len() ==> !starts_with(
                (#[trigger] before.graph.modules[k]).name@,
                instance + "_"@,
            ),
    ensures
        after.graph.modules.len() == before.graph.modules.len() + declared_modules(
            commands,
            commands.len() as int,
        ),
{
    lemma_instance_adds_from(before, instance, commands, path, 0, after, r);
}

/// The statements of an instance from `i` on add one module for each
/// declaration among them.
proof fn lemma_instance_adds_from(
    before: GraphEngine,
    instance: Seq<char>,
    commands: Seq<CommandView>,
    path: Seq<char>,
    i: int,
    after: GraphEngine,
    r: Result<(), EngineError>,
)
    requires
        0 <= i <= commands.len(),
        instantiated_from(before, instance, commands, path, i, after, r),
        r is Ok,
        declares_distinct(commands),
        made_so_far(before.graph, instance, commands, i),
    ensures
        after.graph.modules.len() + declared_modules(commands, i) == before.graph.modules.len()
            + declared_modules(commands, commands.len() as int),
    decreases commands.len() - i,
{
    let prefix = instance + "_"@;
    if i >= commands.len() {
    } else {
        match commands[i] {
            CommandView::DefinePatchbay { .. } => {
                lemma_instance_adds_from(before, instance, commands, path, i + 1, after, r);
            },
            CommandView::CreateModule { name, module_type, params } => {
                let (mid, out) = choose|mid: GraphEngine, out: Result<(), EngineError>| #[trigger]
                    declared(before, mid, prefixed_name(instance, name), module_type, params, out)
                        && match out {
                        Ok(_) => instantiated_from(mid, instance, commands, path, i + 1, after, r),
                        Err(e) => after == mid && r is Err && r->Err_0 == e,
                    };
                let full = prefixed_name(instance, name);
                crate::expression::lemma_name_has_prefix(instance, name);
                before.graph.lemma_index(full, 0);
                if before.graph.has_module(full) {
                    let k = before.graph.index_of(full);
                    assert(starts_with(before.graph.modules[k].name@, prefix));
                    let j = choose|j: int|
                        0 <= j < i && j < commands.len() && #[trigger] commands[j] is CreateModule
                            && before.graph.modules[k].name@ == prefixed_name(
                            instance,
                            commands[j]->CreateModule_name,
                        );
                    crate::expression::lemma_names_stay_apart(
                        instance,
                        name,
                        commands[j]->CreateModule_name,
                    );
                    assert(false);
                }
                assert(mid.graph.modules@.len() == before.graph.modules@.len() + 1);
                assert(made_so_far(mid.graph, instance, commands, i + 1)) by {
                    assert forall|k: int|
                        0 <= k < mid.graph.modules.len() && starts_with(
                            (#[trigger] mid.graph.modules[k]).name@,
                            prefix,
                        ) implies exists|j: int|
                        0 <= j < i + 1 && j < commands.len() && #[trigger] commands[j] is CreateModule
                            && mid.graph.modules[k].name@ == prefixed_name(
                            instance,
                            commands[j]->CreateModule_name,
                        ) by {
                        if k < before.graph.modules.len() {
                            assert(mid.graph.modules[k] == before.graph.modules[k]);
                            assert(starts_with(before.graph.modules[k].name@, prefix));
                            let j = choose|j: int|
                                0 <= j < i && j < commands.len()
                                    && #[trigger] commands[j] is CreateModule
                                    && before.graph.modules[k].name@ == prefixed_name(
                                    instance,
                                    commands[j]->CreateModule_name,
                                );
                            assert(commands[j] is CreateModule);
                        } else {
                            assert(entry_names(mid.graph.modules@)[k] == mid.graph.modules[k].name@);
                            assert(commands[i] is CreateModule);
                        }
                    }
                }
                lemma_instance_adds_from(mid, instance, commands, path, i + 1, after, r);
            },
            CommandView::Connect { from, to } => {
                let (mid, out) = choose|mid: GraphEngine, out: Result<String, EngineError>| #[trigger]
                    connected(
                        before,
                        mid,
                        crate::expression::prefixed_reference(instance, to),
                        crate::expression::prefixed_reference(instance, from),
                        out,
                    ) && match out {
                        Ok(_) => instantiated_from(mid, instance, commands, path, i + 1, after, r),
                        Err(e) => after == mid && r is Err && r->Err_0 == e,
                    };
                lemma_same_names_made(before.graph, mid.graph, instance, commands, i);
                lemma_instance_adds_from(mid, instance, commands, path, i + 1, after, r);
            },
            CommandView::SetParam { module, param, value } => {
                let (mid, out) = choose|mid: GraphEngine, out: Result<(), EngineError>| #[trigger]
                    written(before, mid, prefixed_name(instance, module), param, value, out)
                        && match out {
                        Ok(_) => instantiated_from(mid, instance, commands, path, i + 1, after, r),
                        Err(e) => after == mid && r is Err && r->Err_0 == e,
                    };
                lemma_same_names_made(before.graph, mid.graph, instance, commands, i);
                lemma_instance_adds_from(mid, instance, commands, path, i + 1, after, r);
            },
            CommandView::Import { .. } => {},
        }
    }
}

/// A graph with the same names has its modules of the instance from the
/// same statements, and from one statement more.
proof fn lemma_same_names_made(
    before: GraphExecutor,
    after: GraphExecutor,
    instance: Seq<char>,
    commands: Seq<CommandView>,
    i: int,
)
    requires
        entry_names(after.modules@) == entry_names(before.modules@),
        made_so_far(before, instance, commands, i),
    ensures
        after.modules.len() == before.modules.len(),
        made_so_far(after, instance, commands, i + 1),
{
    assert(entry_names(after.modules@).len() == after.modules@.len());
    assert(entry_names(before.modules@).len() == before.modules@.len());
    assert forall|k: int|
        0 <= k < after.modules.len() && starts_with(
            (#[trigger] after.modules[k]).name@,
            instance + "_"@,
        ) implies exists|j: int|
        0 <= j < i + 1 && j < commands.len() && #[trigger] commands[j] is CreateModule
            && after.modules[k].name@ == prefixed_name(
            instance,
            commands[j]->CreateModule_name,
        ) by {
        assert(entry_names(after.modules@)[k] == after.modules[k].name@);
        assert(entry_names(before.modules@)[k] == before.modules[k].name@);
        assert(starts_with(before.modules[k].name@, instance + "_"@));
        let j = choose|j: int|
            0 <= j < i && j < commands.len() && #[trigger] commands[j] is CreateModule
                && before.modules[k].name@ == prefixed_name(
                instance,
                commands[j]->CreateModule_name,
            );
        assert(commands[j] is CreateModule);
    }
}

/// Whether every name among `after` is among `before` or begins with `prefix`.
pub open spec fn grown_under(
    before: Seq<Seq<char>>,
    after: Seq<Seq<char>>,
    prefix: Seq<char>,
) -> bool {
    forall|i: int|
        0 <= i < after.len() ==> before.contains(#[trigger] after[i]) || starts_with(
            after[i],
            prefix,
        )
}

/// The number of module declarations among the first `n` statements.
pub open spec fn declared_modules(commands: Seq<CommandView>, n: int) -> nat
    decreases n,
{
    if n <= 0 || n > commands.len() {
        0
    } else if commands[n - 1] is CreateModule {
        declared_modules(commands, n - 1) + 1
    } else {
        declared_modules(commands, n - 1)
    }
}

/// Counts the module declarations among the statements.
pub fn count_declarations(commands: &Vec<Command>) -> (r: usize)
    ensures
        r == declared_modules(crate::parser::command_views(commands@), commands.len() as int),
{
    let ghost views = crate::parser::command_views(commands@);
    let mut count: usize = 0;
    let mut i: usize = 0;
    while i < commands.len()
        invariant
            i <= commands.len(),
            views == crate::parser::command_views(commands@),
            count <= i,
            count == declared_modules(views, i as int),
        decreases commands.len() - i,
    {
        assert(views[i as int] == commands[i as int]@);
        match &commands[i] {
            Command::CreateModule { .. } => {
                count += 1;
            },
            _ => {},
        }
        i += 1;
    }
    count
}

/// The destination that a connection statement names: the mono input of
/// the stereo output for `out`, its input `port` for `out.port`, the
/// destination itself where it holds a point, and else its input `audio`.
pub open spec fn destination_of(to: Seq<char>) -> Seq<char> {
    if to == "out"@ {
        "_output.mono"@
    } else if starts_with(to, "out."@) {
        "_output."@ + to.subrange("out."@.len() as int, to.len() as int)
    } else if find(to, "."@) is Some {
        to
    } else {
        to + ".audio"@
    }
}

/// Whether a connection statement with this destination needs the stereo output.
pub open spec fn needs_output(to: Seq<char>) -> bool {
    to == "out"@ || starts_with(to, "out."@)
}

/// The module type that a name stands for where a type is inspected.
pub open spec fn inspected_type(name: Seq<char>) -> Option<ModuleType> {
    if name == "osc"@ || name == "oscillator"@ {
        Some(ModuleType::Oscillator)
    } else if name == "filter"@ || name == "vcf"@ {
        Some(ModuleType::Filter)
    } else if name == "envelope"@ || name == "env"@ {
        Some(ModuleType::Envelope)
    } else if name == "vca"@ {
        Some(ModuleType::Vca)
    } else if name == "lfo"@ {
        Some(ModuleType::Lfo)
    } else if name == "gate"@ || name == "manual_gate"@ {
        Some(ModuleType::ManualGate)
    } else if name == "stereo_output"@ || name == "stereo"@ {
        Some(ModuleType::StereoOutput)
    } else if name == "noise"@ {
        Some(ModuleType::Noise)
    } else if name == "mixer"@ {
        Some(ModuleType::Mixer)
    } else if name == "stereo_mixer"@ {
        Some(ModuleType::StereoMixer)
    } else if name == "slew"@ {
        Some(ModuleType::Slew)
    } else if name == "seq8"@ || name == "sequencer"@ {
        Some(ModuleType::Seq8)
    } else if name == "visual"@ {
        Some(ModuleType::Visual)
    } else if name == "mult"@ || name == "multiple"@ {
        Some(ModuleType::Mult)
    } else if name == "switch"@ {
        Some(ModuleType::Switch)
    } else if name == "clockdiv"@ || name == "clock_div"@ {
        Some(ModuleType::ClockDiv)
    } else if name == "samplehold"@ || name == "sample_hold"@ || name == "sh"@ {
        Some(ModuleType::SampleHold)
    } else {
        None
    }
}

/// Reads the module type that a name stands for where a type is inspected.
fn read_inspected_type(name: &str) -> (r: Option<ModuleType>)
    ensures
        r == inspected_type(name@),
{
    let v = chars_of(name);
    if is_text(&v, "osc") || is_text(&v, "oscillator") {
        Some(ModuleType::Oscillator)
    } else if is_text(&v, "filter") || is_text(&v, "vcf") {
        Some(ModuleType::Filter)
    } else if is_text(&v, "envelope") || is_text(&v, "env") {
        Some(ModuleType::Envelope)
    } else if is_text(&v, "vca") {
        Some(ModuleType::Vca)
    } else if is_text(&v, "lfo") {
        Some(ModuleType::Lfo)
    } else if is_text(&v, "gate") || is_text(&v, "manual_gate") {
        Some(ModuleType::ManualGate)
    } else if is_text(&v, "stereo_output") || is_text(&v, "stereo") {
        Some(ModuleType::StereoOutput)
    } else if is_text(&v, "noise") {
        Some(ModuleType::Noise)
    } else if is_text(&v, "mixer") {
        Some(ModuleType::Mixer)
    } else if is_text(&v, "stereo_mixer") {
        Some(ModuleType::StereoMixer)
    } else if is_text(&v, "slew") {
        Some(ModuleType::Slew)
    } else if is_text(&v, "seq8") || is_text(&v, "sequencer") {
        Some(ModuleType::Seq8)
    } else if is_text(&v, "visual") {
        Some(ModuleType::Visual)
    } else if is_text(&v, "mult") || is_text(&v, "multiple") {
        Some(ModuleType::Mult)
    } else if is_text(&v, "switch") {
        Some(ModuleType::Switch)
    } else if is_text(&v, "clockdiv") || is_text(&v, "clock_div") {
        Some(ModuleType::ClockDiv)
    } else if is_text(&v, "samplehold") || is_text(&v, "sample_hold") || is_text(&v, "sh") {
        Some(ModuleType::SampleHold)
    } else {
        None
    }
}

impl GraphEngine {
    /// The graph and the loader are valid, and the hidden stereo output is
    /// in the graph once it was made.
    pub open spec fn wf(&self) -> bool {
        &&& self.graph.wf()
        &&& self.module_loader.wf()
        &&& self.has_stereo_output ==> entry_names(self.graph.modules@).contains("_output"@)
    }

    /// The names of the modules of the graph, in order.
    pub open spec fn names(&self) -> Seq<Seq<char>> {
        entry_names(self.graph.modules@)
    }

    /// An engine with an empty graph, at 44100 samples a second, that looks
    /// for sub-patches in the directories of the user.
    pub fn new() -> (r: Self)
        ensures
            r.wf(),
            r.graph.modules@.len() == 0,
            r.graph.connections@.len() == 0,
            !r.is_running,
            r.sample_rate == 44100,
            !r.has_stereo_output,
            r.imported_modules@.len() == 0,
            r.module_loader.resolver.search_paths.current_file_dir is None,
            r.module_loader.resolver.embedded_stdlib.is_the_library(),
    {
        GraphEngine {
            graph: GraphExecutor::new(),
            is_running: false,
            sample_rate: 44100,
            output_module: None,
            output_port: None,
            has_stereo_output: false,
            module_loader: ModuleLoader::new(),
            imported_modules: Vec::new(),
        }
    }

    /// An engine with an empty graph that looks for sub-patches beside the
    /// patch file `patch_file` first.
    pub fn from_patch_file(patch_file: &str) -> (r: Self)
        ensures
            r.wf(),
            r.graph.modules@.len() == 0,
            r.graph.connections@.len() == 0,
            !r.is_running,
            r.sample_rate == 44100,
            !r.has_stereo_output,
            r.output_module is None,
            r.output_port is None,
            r.imported_modules@.len() == 0,
            r.module_loader.cache@.len() == 0,
            r.module_loader.resolver.is_for_patch_file(patch_file@),
    {
        GraphEngine {
            graph: GraphExecutor::new(),
            is_running: false,
            sample_rate: 44100,
            output_module: None,
            output_port: None,
            has_stereo_output: false,
            module_loader: ModuleLoader::from_patch_file(patch_file),
            imported_modules: Vec::new(),
        }
    }

    /// Takes note that the audio output runs, at the sample rate of the
    /// device that was opened; an engine that runs already stays as it is.
    /// Where the device did not open, the engine does not run.
    pub fn start(&mut self, opened: Result<u32, AudioError>) -> (r: Result<(), EngineError>)
        ensures
            final(self).graph == old(self).graph,
            final(self).module_loader == old(self).module_loader,
            final(self).imported_modules == old(self).imported_modules,
            final(self).has_stereo_output == old(self).has_stereo_output,
            if old(self).is_running {
                r is Ok && *final(self) == *old(self)
            } else {
                match opened {
                    Ok(rate) => r is Ok && final(self).is_running && final(self).sample_rate
                        == rate,
                    Err(_) => r is Err && r->Err_0 is Audio && *final(self) == *old(self),
                }
            },
    {
        if self.is_running {
            return Ok(());
        }
        match opened {
            Ok(rate) => {
                self.sample_rate = rate;
                self.is_running = true;
                Ok(())
            },
            Err(fault) => Err(EngineError::Audio { fault }),
        }
    }

    /// Takes note that the audio output runs no more.
    pub fn stop(&mut self)
        ensures
            !final(self).is_running,
            final(self).graph == old(self).graph,
            final(self).sample_rate == old(self).sample_rate,
            final(self).output_module == old(self).output_module,
            final(self).output_port == old(self).output_port,
            final(self).has_stereo_output == old(self).has_stereo_output,
            final(self).module_loader == old(self).module_loader,
            final(self).imported_modules == old(self).imported_modules,
    {
        self.is_running = false;
    }

    /// The module whose outputs go to the audio device: the hidden stereo
    /// output where it was made, else the output module that was set.
    pub fn output_node(&self) -> (r: Option<String>)
        ensures
            match r {
                Some(name) => if self.has_stereo_output {
                    name@ == "_output"@
                } else {
                    self.output_module is Some && name@ == self.output_module->0@
                },
                None => !self.has_stereo_output && self.output_module is None,
            },
    {
        if self.has_stereo_output {
            Some(String::from_str("_output"))
        } else {
            match &self.output_module {
                Some(name) => Some(name.clone()),
                None => None,
            }
        }
    }

    /// Empties the engine: no modules, no connections, nothing imported,
    /// nothing loaded, and no audio output.
    pub fn clear_patch(&mut self)
        ensures
            is_empty(*final(self)),
            final(self).module_loader.resolver == old(self).module_loader.resolver,
            final(self).wf(),
            final(self).graph.modules@.len() == 0,
            final(self).graph.connections@.len() == 0,
            final(self).graph.current_cycle == 0,
            !final(self).is_running,
            !final(self).has_stereo_output,
            final(self).output_module is None,
            final(self).output_port is None,
            final(self).imported_modules@.len() == 0,
            final(self).module_loader.cache@.len() == 0,
            final(self).sample_rate == old(self).sample_rate,
    {
        self.stop();
        self.graph = GraphExecutor::new();
        self.output_module = None;
        self.output_port = None;
        self.has_stereo_output = false;
        self.module_loader.clear_cache();
        self.imported_modules = Vec::new();
    }

    /// Builds the module of the type `module_type` that the parameters ask
    /// for and adds it to the graph under the name `name`, in place of a
    /// module that had the name. A type that cannot be built is refused.
    pub fn create_module(&mut self, name: String, module_type: ModuleType, params: &Vec<Number>) -> (r:
        Result<(), EngineError>)
        requires
            old(self).wf(),
            forall|k: int| 0 <= k < params.len() ==> (#[trigger] params[k]).wf(),
        ensures
            final(self).wf(),
            final(self).is_running == old(self).is_running,
            final(self).sample_rate == old(self).sample_rate,
            final(self).has_stereo_output == old(self).has_stereo_output,
            final(self).module_loader == old(self).module_loader,
            final(self).imported_modules == old(self).imported_modules,
            final(self).graph.connections == old(self).graph.connections,
            final(self).output_module == old(self).output_module,
            final(self).output_port == old(self).output_port,
            match r {
                Ok(_) => {
                    &&& can_build(module_type)
                    &&& final(self).graph.has_module(name@)
                    &&& is_built(final(self).graph.node_of(name@), module_type, number_texts(params@))
                    &&& put_in(old(self).graph, final(self).graph, name@)
                    &&& final(self).names() == if old(self).graph.has_module(name@) {
                        old(self).names()
                    } else {
                        old(self).names().push(name@)
                    }
                },
                Err(e) => {
                    &&& !can_build(module_type)
                    &&& e is NotImplemented
                    &&& e->NotImplemented_module_type == module_type
                    &&& *final(self) == *old(self)
                },
            },
    {
        match build_module(module_type, params) {
            Some(node) => {
                self.graph.add_module(name, node);
                proof {
                    if old(self).has_stereo_output {
                        let before = old(self).names();
                        let k = choose|k: int| 0 <= k < before.len() && before[k] == "_output"@;
                        assert(self.names()[k] == "_output"@);
                    }
                }
                Ok(())
            },
            None => Err(EngineError::NotImplemented { module_type }),
        }
    }

    /// Adds a module of a built-in type to the graph. A type that names an
    /// imported sub-patch is refused: a sub-patch holds no instances.
    pub fn create_module_from_type_ref(
        &mut self,
        name: String,
        module_type_ref: ModuleTypeRef,
        params: &Vec<Number>,
    ) -> (r: Result<(), EngineError>)
        requires
            old(self).wf(),
            forall|k: int| 0 <= k < params.len() ==> (#[trigger] params[k]).wf(),
        ensures
            declared(*old(self), *final(self), name@, module_type_ref@, number_texts(params@), r),
    {
        match module_type_ref {
            ModuleTypeRef::BuiltIn(t) => self.create_module(name, t, params),
            ModuleTypeRef::Imported(n) => Err(EngineError::NestedModule { name: n }),
        }
    }

    /// Sets a parameter of a module of the graph.
    pub fn set_module_param(&mut self, module_name: &str, param_name: &str, value: &Number) -> (r:
        Result<(), EngineError>)
        requires
            old(self).wf(),
            value.wf(),
        ensures
            written(*old(self), *final(self), module_name@, param_name@, value@, r),
    {
        match self.graph.set_module_param(module_name, param_name, value) {
            Ok(_) => Ok(()),
            Err(refusal) => Err(EngineError::Graph { refusal }),
        }
    }

    /// Adds a connection to the graph. `dest` names the input as a module, a
    /// point and a port; `source_expr` is the source expression. A
    /// connection to a side of the stereo output is recorded there.
    pub fn parse_connection(&mut self, dest: &str, source_expr: &str) -> (r: Result<
        String,
        EngineError,
    >)
        requires
            old(self).wf(),
        ensures
            connected(*old(self), *final(self), dest@, source_expr@, r),
    {
        let (module, port) = match split_in_two(&chars_of(dest), &chars_of(".")) {
            Some(pair) => pair,
            None => {
                return Err(EngineError::InvalidDestination);
            },
        };
        let expression = match read_expression(&chars_of(source_expr)) {
            Some(e) => e,
            None => {
                return Err(EngineError::InvalidExpression { expr: String::from_str(source_expr) });
            },
        };
        let to_module = string_from(&module);
        let to_port = string_from(&port);
        if is_text(&module, "_output") {
            self.graph.mark_stereo_side(to_module.as_str(), to_port.as_str());
        }
        let ghost marked = self.graph;
        self.graph.add_connection(Connection { to_module, to_port, expression });
        proof {
            assert(self.graph.modules == marked.modules);
            assert(split_pair(dest@, "."@) == Some((module@, port@)));
            if module@ == "_output"@ {
                assert(to_module@ == "_output"@);
                assert(marked.index_of("_output"@) == old(self).graph.index_of("_output"@)) by {
                    GraphExecutor::lemma_same_names(marked, old(self).graph, "_output"@, 0);
                }
                GraphExecutor::lemma_same_names(self.graph, marked, "_output"@, 0);
                assert(self.graph.node_of("_output"@) == marked.node_of("_output"@));
            }
        }
        Ok(
            String::from_str("Connected: ").concat(dest).concat(" <- ").concat(source_expr),
        )
    }
}

/// The name that an import goes by: its alias, or its path where it has none.
pub open spec fn import_key(path: Seq<char>, alias: Option<Seq<char>>) -> Seq<char> {
    match alias {
        Some(a) => a,
        None => path,
    }
}

impl GraphEngine {
    /// The position of the first import that goes by `key` at or after `i`;
    /// the number of imports where there is none.
    pub open spec fn import_index_from(&self, key: Seq<char>, i: int) -> int
        decreases self.imported_modules.len() - i,
    {
        if i < 0 || i >= self.imported_modules.len() {
            self.imported_modules.len() as int
        } else if self.imported_modules[i].key@ == key {
            i
        } else {
            self.import_index_from(key, i + 1)
        }
    }

    /// Whether a sub-patch was imported under the name `key`.
    pub open spec fn is_imported(&self, key: Seq<char>) -> bool {
        self.import_index_from(key, 0) < self.imported_modules.len()
    }

    /// The path of the sub-patch that a line needs: the one that it
    /// imports, or the one of which it declares an instance.
    pub open spec fn path_wanted(&self, line: Seq<char>) -> Option<Seq<char>> {
        match crate::parser::parse_line_spec(line) {
            Ok(CommandView::Import { import }) => Some(import.path),
            Ok(CommandView::CreateModule { name, module_type, params }) => match module_type {
                ModuleTypeRefView::Imported(key) => if self.is_imported(key) {
                    Some(self.imported_modules[self.import_index_from(key, 0)].path@)
                } else {
                    None
                },
                ModuleTypeRefView::BuiltIn(_) => None,
            },
            _ => None,
        }
    }

    /// The text that the engine lacks to do what `line` says, where the
    /// line failed with `error`: the path of the sub-patch that the line
    /// needs and the file that the failure asks for. Once the text is
    /// handed in with `ModuleLoader::install`, the sub-patch is loaded from it.
    pub fn text_wanted(&self, line: &str, error: &EngineError) -> (r: Option<TextWanted>)
        ensures
            match r {
                Some(wanted) => error.file_needed() == Some(wanted.file_path@) && self.path_wanted(
                    line@,
                ) == Some(wanted.path@),
                None => error.file_needed() is None || self.path_wanted(line@) is None,
            },
    {
        let file_path = match error.needed_file() {
            Some(file) => file,
            None => {
                return None;
            },
        };
        match parse_line(line) {
            Ok(Command::Import { import }) => Some(TextWanted { path: import.path, file_path }),
            Ok(Command::CreateModule { name, module_type, params }) => match module_type {
                ModuleTypeRef::Imported(key) => match self.find_import(key.as_str()) {
                    Some(i) => Some(
                        TextWanted { path: self.imported_modules[i].path.clone(), file_path },
                    ),
                    None => None,
                },
                ModuleTypeRef::BuiltIn(_) => None,
            },
            _ => None,
        }
    }

    /// Finds the import that goes by `key`.
    fn find_import(&self, key: &str) -> (r: Option<usize>)
        ensures
            match r {
                Some(i) => self.is_imported(key@) && i == self.import_index_from(key@, 0) && i
                    < self.imported_modules.len() && self.imported_modules[i as int].key@ == key@,
                None => !self.is_imported(key@) && self.import_index_from(key@, 0)
                    == self.imported_modules.len(),
            },
    {
        let wanted = chars_of(key);
        let mut i: usize = 0;
        while i < self.imported_modules.len()
            invariant
                i <= self.imported_modules.len(),
                wanted@ == key@,
                self.import_index_from(key@, 0) == self.import_index_from(key@, i as int),
            decreases self.imported_modules.len() - i,
        {
            if same(&chars_of(self.imported_modules[i].key.as_str()), &wanted) {
                return Some(i);
            }
            i += 1;
        }
        None
    }

    /// Keeps an import under its name, in place of one that went by the name.
    fn keep_import(&mut self, key: String, path: String, patchbay: PatchbayDef)
        ensures
            final(self).is_imported(key@),
            final(self).imported_modules[final(self).import_index_from(key@, 0)].path@ == path@,
            final(self).graph == old(self).graph,
            final(self).is_running == old(self).is_running,
            final(self).sample_rate == old(self).sample_rate,
            final(self).output_module == old(self).output_module,
            final(self).output_port == old(self).output_port,
            final(self).has_stereo_output == old(self).has_stereo_output,
            final(self).module_loader == old(self).module_loader,
    {
        match self.find_import(key.as_str()) {
            Some(i) => {
                let ghost k = key@;
                proof {
                    self.lemma_import_before(k, 0);
                }
                self.imported_modules.set(i, ImportedModule { key, path, patchbay });
                proof {
                    assert forall|j: int| 0 <= j < i implies self.imported_modules[j].key@ != k by {
                        assert(self.imported_modules[j] == old(self).imported_modules[j]);
                    }
                    self.lemma_import_at(k, i as int, 0);
                }
            },
            None => {
                let ghost k = key@;
                let ghost n = self.imported_modules.len() as int;
                proof {
                    self.lemma_import_before(k, 0);
                }
                self.imported_modules.push(ImportedModule { key, path, patchbay });
                proof {
                    assert forall|j: int| 0 <= j < n implies self.imported_modules[j].key@ != k by {
                        assert(self.imported_modules[j] == old(self).imported_modules[j]);
                    }
                    self.lemma_import_at(k, n, 0);
                }
            },
        }
    }

    /// An import that is the first to go by a name is found at its place.
    proof fn lemma_import_at(&self, key: Seq<char>, at: int, from: int)
        requires
            0 <= from <= at < self.imported_modules.len(),
            self.imported_modules[at].key@ == key,
            forall|j: int| from <= j < at ==> self.imported_modules[j].key@ != key,
        ensures
            self.import_index_from(key, from) == at,
        decreases at - from,
    {
        if from < at {
            self.lemma_import_at(key, at, from + 1);
        }
    }

    /// No import before the one that is found goes by the name.
    proof fn lemma_import_before(&self, key: Seq<char>, from: int)
        requires
            0 <= from <= self.imported_modules.len(),
        ensures
            from <= self.import_index_from(key, from) <= self.imported_modules.len(),
            forall|j: int|
                from <= j < self.import_index_from(key, from) ==> self.imported_modules[j].key@
                    != key,
        decreases self.imported_modules.len() - from,
    {
        if from < self.imported_modules.len() && self.imported_modules[from].key@ != key {
            self.lemma_import_before(key, from + 1);
        }
    }

    /// The names of the sub-patches that were imported.
    fn import_keys(&self) -> (r: Vec<String>)
        ensures
            r.len() == self.imported_modules.len(),
            forall|i: int| 0 <= i < r.len() ==> (#[trigger] r[i])@ == self.imported_modules[i].key@,
    {
        let mut keys: Vec<String> = Vec::new();
        let mut i: usize = 0;
        while i < self.imported_modules.len()
            invariant
                i <= self.imported_modules.len(),
                keys.len() == i,
                forall|k: int|
                    0 <= k < i ==> (#[trigger] keys[k])@ == self.imported_modules[k].key@,
            decreases self.imported_modules.len() - i,
        {
            keys.push(self.imported_modules[i].key.clone());
            i += 1;
        }
        keys
    }

    /// Makes an instance of a loaded sub-patch under the name `instance_name`.
    ///
    /// Each module of the sub-patch is added to the graph with the name of
    /// the instance and an underscore before its name; each connection and
    /// each parameter assignment is taken over with the names rewritten in
    /// the same way; the patchbay is passed over. An import inside the
    /// sub-patch, or a module of an imported type, ends the work with an
    /// error, as does a statement that the graph refuses.
    pub fn instantiate_imported_module(
        &mut self,
        instance_name: &str,
        loaded_module: &LoadedModule,
    ) -> (r: Result<(), EngineError>)
        requires
            old(self).wf(),
            forall|i: int|
                0 <= i < loaded_module.commands.len() ==> (#[trigger] loaded_module.commands[i]).wf(),
        ensures
            final(self).wf(),
            final(self).is_running == old(self).is_running,
            final(self).sample_rate == old(self).sample_rate,
            final(self).has_stereo_output == old(self).has_stereo_output,
            final(self).module_loader == old(self).module_loader,
            final(self).imported_modules == old(self).imported_modules,
            instantiated_from(
                *old(self),
                instance_name@,
                crate::parser::command_views(loaded_module.commands@),
                loaded_module.path@,
                0,
                *final(self),
                r,
            ),
            kept_outside(old(self).graph, final(self).graph, instance_name@ + "_"@),
            grown_under(old(self).names(), final(self).names(), instance_name@ + "_"@),
            forall|n: Seq<char>| old(self).names().contains(n) ==> final(self).names().contains(n),
            r is Ok ==> forall|i: int|
                0 <= i < loaded_module.commands.len() ==> match (
                #[trigger] loaded_module.commands[i])@ {
                    CommandView::CreateModule { name, .. } => final(self).names().contains(
                        prefixed_name(instance_name@, name),
                    ),
                    CommandView::Import { .. } => false,
                    _ => true,
                },
    {
        let r = self.instantiate_statements(instance_name, loaded_module);
        proof {
            lemma_instance_keeps_others(
                *old(self),
                instance_name@,
                crate::parser::command_views(loaded_module.commands@),
                loaded_module.path@,
                0,
                *self,
                r,
            );
        }
        r
    }

    /// Takes over the statements of a sub-patch, one after another.
    fn instantiate_statements(
        &mut self,
        instance_name: &str,
        loaded_module: &LoadedModule,
    ) -> (r: Result<(), EngineError>)
        requires
            old(self).wf(),
            forall|i: int|
                0 <= i < loaded_module.commands.len() ==> (#[trigger] loaded_module.commands[i]).wf(),
        ensures
            final(self).wf(),
            final(self).is_running == old(self).is_running,
            final(self).sample_rate == old(self).sample_rate,
            final(self).has_stereo_output == old(self).has_stereo_output,
            final(self).module_loader == old(self).module_loader,
            final(self).imported_modules == old(self).imported_modules,
            instantiated_from(
                *old(self),
                instance_name@,
                crate::parser::command_views(loaded_module.commands@),
                loaded_module.path@,
                0,
                *final(self),
                r,
            ),
            grown_under(old(self).names(), final(self).names(), instance_name@ + "_"@),
            forall|n: Seq<char>| old(self).names().contains(n) ==> final(self).names().contains(n),
            r is Ok ==> forall|i: int|
                0 <= i < loaded_module.commands.len() ==> match (
                #[trigger] loaded_module.commands[i])@ {
                    CommandView::CreateModule { name, .. } => final(self).names().contains(
                        prefixed_name(instance_name@, name),
                    ),
                    CommandView::Import { .. } => false,
                    _ => true,
                },
    {
        let ghost prefix = instance_name@ + "_"@;
        let ghost before = self.names();
        let ghost start = *self;
        let ghost inst = instance_name@;
        let ghost path = loaded_module.path@;
        let ghost views = crate::parser::command_views(loaded_module.commands@);
        let mut i: usize = 0;
        while i < loaded_module.commands.len()
            invariant
                i <= loaded_module.commands.len(),
                self.wf(),
                prefix == instance_name@ + "_"@,
                before == old(self).names(),
                self.is_running == old(self).is_running,
                self.sample_rate == old(self).sample_rate,
                self.has_stereo_output == old(self).has_stereo_output,
                self.module_loader == old(self).module_loader,
                self.imported_modules == old(self).imported_modules,
                grown_under(before, self.names(), prefix),
                inst == instance_name@,
                start == *old(self),
                path == loaded_module.path@,
                views == crate::parser::command_views(loaded_module.commands@),
                forall|a: GraphEngine, out: Result<(), EngineError>| #[trigger]
                    instantiated_from(*self, inst, views, path, i as int, a, out)
                        ==> instantiated_from(start, inst, views, path, 0, a, out),
                forall|n: Seq<char>| before.contains(n) ==> self.names().contains(n),
                forall|k: int|
                    0 <= k < loaded_module.commands.len() ==> (
                    #[trigger] loaded_module.commands[k]).wf(),
                forall|k: int|
                    0 <= k < i ==> match (#[trigger] loaded_module.commands[k])@ {
                        CommandView::CreateModule { name, .. } => self.names().contains(
                            prefixed_name(instance_name@, name),
                        ),
                        CommandView::Import { .. } => false,
                        _ => true,
                    },
            decreases loaded_module.commands.len() - i,
        {
            let ghost names_before = self.names();
            let ghost here = *self;
            assert(loaded_module.commands[i as int].wf());
            assert(views[i as int] == loaded_module.commands[i as int]@);
            match &loaded_module.commands[i] {
                Command::DefinePatchbay { .. } => {
                    proof {
                        assert forall|a: GraphEngine, out: Result<(), EngineError>| #[trigger]
                            instantiated_from(here, inst, views, path, i + 1, a, out) implies
                            instantiated_from(start, inst, views, path, 0, a, out) by {
                            assert(instantiated_from(here, inst, views, path, i as int, a, out));
                        }
                    }
                },
                Command::CreateModule { name, module_type, params } => {
                    let internal = prefix_name(instance_name, name.as_str());
                    let ghost internal_name = internal@;
                    proof {
                        crate::expression::lemma_name_has_prefix(instance_name@, name@);
                        self.graph.lemma_has_module(internal_name);
                    }
                    let made = self.create_module_from_type_ref(
                        internal,
                        module_type.clone(),
                        &clone_numbers(params),
                    );
                    let ghost now = *self;
                    match made {
                        Ok(_) => {
                            proof {
                                assert forall|a: GraphEngine, out: Result<(), EngineError>| #[trigger]
                                    instantiated_from(now, inst, views, path, i + 1, a, out) implies
                                    instantiated_from(start, inst, views, path, 0, a, out) by {
                                    lemma_declaration_step(
                                        here,
                                        now,
                                        inst,
                                        views,
                                        path,
                                        i as int,
                                        a,
                                        out,
                                        made,
                                    );
                                }
                            }
                        },
                        Err(e) => {
                            let failed = Err(e);
                            proof {
                                lemma_declaration_step(
                                    here,
                                    now,
                                    inst,
                                    views,
                                    path,
                                    i as int,
                                    now,
                                    failed,
                                    made,
                                );
                            }
                            return failed;
                        },
                    }
                    proof {
                        let names_after = self.names();
                        assert forall|n: Seq<char>| names_before.contains(n) implies
                            names_after.contains(n) by {
                            let k = choose|k: int| 0 <= k < names_before.len() && names_before[k] == n;
                            assert(names_after[k] == n);
                        }
                        assert(names_after.contains(internal_name)) by {
                            if names_before.contains(internal_name) {
                            } else {
                                assert(names_after[names_after.len() - 1] == internal_name);
                            }
                        }
                        assert forall|k: int| 0 <= k < names_after.len() implies before.contains(
                            #[trigger] names_after[k],
                        ) || starts_with(names_after[k], prefix) by {
                            if k < names_before.len() {
                                assert(names_after[k] == names_before[k]);
                            }
                        }
                    }
                },
                Command::Connect { from, to } => {
                    let source = prefix_module_reference(instance_name, from.as_str());
                    let dest = prefix_module_reference(instance_name, to.as_str());
                    let done = self.parse_connection(dest.as_str(), source.as_str());
                    let ghost now = *self;
                    match done {
                        Ok(_) => {
                            proof {
                                assert forall|a: GraphEngine, out: Result<(), EngineError>| #[trigger]
                                    instantiated_from(now, inst, views, path, i + 1, a, out) implies
                                    instantiated_from(start, inst, views, path, 0, a, out) by {
                                    lemma_connection_step(
                                        here,
                                        now,
                                        inst,
                                        views,
                                        path,
                                        i as int,
                                        a,
                                        out,
                                        done,
                                    );
                                }
                            }
                        },
                        Err(e) => {
                            let failed = Err(e);
                            proof {
                                lemma_connection_step(
                                    here,
                                    now,
                                    inst,
                                    views,
                                    path,
                                    i as int,
                                    now,
                                    failed,
                                    done,
                                );
                            }
                            return failed;
                        },
                    }
                },
                Command::SetParam { module, param, value } => {
                    let internal = prefix_name(instance_name, module.as_str());
                    let done = self.set_module_param(internal.as_str(), param.as_str(), value);
                    let ghost now = *self;
                    match done {
                        Ok(_) => {
                            proof {
                                assert forall|a: GraphEngine, out: Result<(), EngineError>| #[trigger]
                                    instantiated_from(now, inst, views, path, i + 1, a, out) implies
                                    instantiated_from(start, inst, views, path, 0, a, out) by {
                                    lemma_assignment_step(
                                        here,
                                        now,
                                        inst,
                                        views,
                                        path,
                                        i as int,
                                        a,
                                        out,
                                        done,
                                    );
                                }
                            }
                        },
                        Err(e) => {
                            let failed = Err(e);
                            proof {
                                lemma_assignment_step(
                                    here,
                                    now,
                                    inst,
                                    views,
                                    path,
                                    i as int,
                                    now,
                                    failed,
                                    done,
                                );
                            }
                            return failed;
                        },
                    }
                },
                Command::Import { .. } => {
                    let failed = Err(EngineError::NestedImport { path: loaded_module.path.clone() });
                    proof {
                        assert(instantiated_from(here, inst, views, path, i as int, here, failed));
                    }
                    return failed;
                },
            }
            i += 1;
        }
        proof {
            assert(views.len() == loaded_module.commands.len());
            let done = Ok::<(), EngineError>(());
            assert(instantiated_from(*self, inst, views, path, i as int, *self, done));
        }
        Ok(())
    }
}

/// Whether the engine `after` and the outcome `r` are what an instance
/// `name` of the sub-patch that was imported under `key` makes of the
/// engine `before`: the statements of the sub-patch are taken over one
/// after another, unless no sub-patch goes by `key` or it is not loaded.
pub open spec fn instantiated(
    before: GraphEngine,
    after: GraphEngine,
    name: Seq<char>,
    key: Seq<char>,
    r: Result<String, EngineError>,
) -> bool {
    &&& after.imported_modules == before.imported_modules
    &&& after.has_stereo_output == before.has_stereo_output
    &&& grown_under(before.names(), after.names(), name + "_"@)
    &&& kept_outside(before.graph, after.graph, name + "_"@)
    &&& if !before.is_imported(key) {
        &&& r is Err
        &&& r->Err_0 is ImportNotFound
        &&& r->Err_0->ImportNotFound_name@ == key
        &&& after == before
    } else {
        let path = before.imported_modules[before.import_index_from(key, 0)].path@;
        match before.module_loader.source_of(path) {
            None => r is Err && r->Err_0 is Load && after == before,
            Some(source) => exists|
                loaded: LoadedModule,
                mid: GraphEngine,
                done: Result<(), EngineError>,
            |
                {
                    &&& #[trigger] instantiated_from(
                        mid,
                        name,
                        crate::parser::command_views(loaded.commands@),
                        loaded.path@,
                        0,
                        after,
                        done,
                    )
                    &&& loaded.wf()
                    &&& loaded.path@ == path
                    &&& loaded.content@ == source.content
                    &&& mid.module_loader.resolver == before.module_loader.resolver
                    &&& forall|other: Seq<char>| #[trigger]
                        mid.module_loader.source_of(other) == before.module_loader.source_of(
                            other,
                        )
                    &&& mid.graph == before.graph
                &&& mid.imported_modules == before.imported_modules
                &&& mid.has_stereo_output == before.has_stereo_output
                &&& match done {
                    Ok(_) => r is Ok && r->Ok_0@ == "Created imported module '"@ + name
                        + "' with "@ + crate::number::decimal_text(
                        declared_modules(
                            crate::parser::command_views(loaded.commands@),
                            loaded.commands@.len() as int,
                        ),
                    ) + " internal modules"@,
                    Err(e) => r is Err && r->Err_0 == e,
                }
            },
        }
    }
}

/// Whether the engine `after` and the outcome `r` are what an import makes
/// of the engine `before`: the sub-patch is loaded and goes by its alias,
/// or by its path where it has no alias.
pub open spec fn imported(
    before: GraphEngine,
    after: GraphEngine,
    import: crate::parser::ImportDefView,
    r: Result<String, EngineError>,
) -> bool {
    let key = import_key(import.path, import.alias);
    &&& after.graph == before.graph
    &&& after.has_stereo_output == before.has_stereo_output
    &&& after.module_loader.resolver == before.module_loader.resolver
    &&& forall|path: Seq<char>| #[trigger]
        after.module_loader.source_of(path) == before.module_loader.source_of(path)
    &&& r is Ok <==> before.module_loader.source_of(import.path) is Some
    &&& r is Err ==> after == before && ((r->Err_0->Load_failure is NotEmbedded) <==> starts_with(
        import.path,
        crate::embedded_stdlib::stdlib_prefix(),
    ))
    &&& match r {
        Ok(text) => {
            let loaded = after.module_loader.cached(import.path);
            &&& after.module_loader.is_cached(import.path)
            &&& after.is_imported(key)
            &&& after.imported_modules[after.import_index_from(key, 0)].path@ == import.path
            &&& text@ == "Imported module '"@ + import.path + "' as '"@ + key + "' with "@
                + crate::number::decimal_text(
                declared_modules(
                    crate::parser::command_views(loaded.commands@),
                    loaded.commands@.len() as int,
                ),
            ) + " internal modules"@
        },
        Err(e) => e is Load && after.imported_modules == before.imported_modules,
    }
}

/// Whether the engine `after` and the outcome `r` are what the statement
/// `command` makes of the engine `before`.
pub open spec fn handled(
    before: GraphEngine,
    after: GraphEngine,
    command: CommandView,
    r: Result<String, EngineError>,
) -> bool {
    match command {
        CommandView::CreateModule {
            name,
            module_type: ModuleTypeRefView::BuiltIn(t),
            params,
        } => {
            &&& r is Ok <==> can_build(t)
            &&& after.graph.connections == before.graph.connections
            &&& after.imported_modules == before.imported_modules
            &&& after.has_stereo_output == before.has_stereo_output
            &&& match r {
                Ok(text) => {
                    &&& after.graph.has_module(name)
                    &&& is_built(after.graph.node_of(name), t, params)
                    &&& put_in(before.graph, after.graph, name)
                    &&& after.names() == if before.graph.has_module(name) {
                        before.names()
                    } else {
                        before.names().push(name)
                    }
                    &&& text@ == "Created module: "@ + name
                },
                Err(e) => e is NotImplemented && after == before,
            }
        },
        CommandView::CreateModule {
            name,
            module_type: ModuleTypeRefView::Imported(key),
            params,
        } => instantiated(before, after, name, key, r),
        CommandView::Connect { from, to } => {
            &&& after.imported_modules == before.imported_modules
            &&& after.module_loader == before.module_loader
            &&& needs_output(to) ==> after.has_stereo_output && after.names().contains("_output"@)
            &&& !needs_output(to) ==> after.has_stereo_output == before.has_stereo_output
                && after.names() == before.names()
            &&& r is Ok <==> split_pair(destination_of(to), "."@) is Some && expr_of(from)
                is Some
            &&& if needs_output(to) {
                exists|mid: GraphEngine| #[trigger]
                    output_ensured(before, mid) && connected(
                        mid,
                        after,
                        destination_of(to),
                        from,
                        r,
                    )
            } else {
                connected(before, after, destination_of(to), from, r)
            }
            &&& match r {
                Ok(text) => {
                    &&& after.graph.connections@.len() == before.graph.connections@.len() + 1
                    &&& match split_pair(destination_of(to), "."@) {
                        Some(dest) => after.graph.connections@.last()@
                            == (ConnectionView {
                            to_module: dest.0,
                            to_port: dest.1,
                            expression: expr_of(from)->0,
                        }),
                        None => false,
                    }
                    &&& text@ == "Connected: "@ + destination_of(to) + " <- "@ + from
                },
                Err(_) => after.graph.connections == before.graph.connections,
            }
        },
        CommandView::SetParam { module, param, value } => {
            &&& after.imported_modules == before.imported_modules
            &&& after.module_loader == before.module_loader
            &&& after.has_stereo_output == before.has_stereo_output
            &&& after.graph.connections == before.graph.connections
            &&& after.names() == before.names()
            &&& r is Ok <==> before.graph.has_module(module) && before.graph.node_of(
                module,
            ).accepts(param, value)
            &&& r is Ok ==> r->Ok_0@ == "Set "@ + module + "."@ + param + " = "@ + value
            &&& r is Ok ==> Node::param_set(
                before.graph.node_of(module),
                after.graph.node_of(module),
                param,
                value,
                Ok(()),
            )
        },
        CommandView::Import { import } => imported(before, after, import, r),
        CommandView::DefinePatchbay { ports } => {
            &&& r is Ok
            &&& after.graph == before.graph
            &&& after.module_loader == before.module_loader
            &&& after.has_stereo_output == before.has_stereo_output
            &&& after.is_imported("_current_module"@)
            &&& r->Ok_0@ == "Defined patchbay with "@ + crate::number::decimal_text(
                ports.len(),
            ) + " ports"@
        },
    }
}

/// Whether the engine `after` and the outcome `r` are what a line that is
/// no statement makes of the engine `before`: a connection, if the line
/// holds exactly one arrow.
pub open spec fn taken_as_connection(
    before: GraphEngine,
    after: GraphEngine,
    line: Seq<char>,
    r: Result<String, EngineError>,
) -> bool {
    &&& after.has_stereo_output == before.has_stereo_output
    &&& after.module_loader == before.module_loader
    &&& after.imported_modules == before.imported_modules
    &&& after.names() == before.names()
    &&& match split_pair(line, "<-"@) {
        Some(sides) => {
            &&& r is Ok <==> split_pair(trim(sides.0), "."@) is Some && expr_of(
                trim(sides.1),
            ) is Some
            &&& connected(before, after, trim(sides.0), trim(sides.1), r)
            &&& r is Ok ==> after.graph.connections@.len() == before.graph.connections@.len() + 1
                && r->Ok_0@ == "Connected: "@ + trim(sides.0)
                + " <- "@ + trim(sides.1)
            &&& r is Err ==> after == before
        },
        None => r is Err && r->Err_0 is Unrecognized && after == before,
    }
}

/// Whether the engine `after` and the outcome `r` are what a line makes of
/// the engine `before`: what its statement says, and for a line that is no
/// statement, what it says as a connection.
pub open spec fn processed(
    before: GraphEngine,
    after: GraphEngine,
    line: Seq<char>,
    r: Result<String, EngineError>,
) -> bool {
    &&& after.wf()
    &&& after.is_running == before.is_running
    &&& after.sample_rate == before.sample_rate
    &&& match crate::parser::parse_line_spec(line) {
        Ok(command) => handled(before, after, command, r),
        Err(_) => taken_as_connection(before, after, line, r),
    }
}

/// Whether the engine `after` and the outcome `r` are what the lines from
/// `i` on make of the engine `before`, one after another: blank lines and
/// comments are passed over, and the first line that fails ends the work
/// with an error that holds the line and what failed.
pub open spec fn loaded_from(
    before: GraphEngine,
    lines: Seq<Seq<char>>,
    i: int,
    after: GraphEngine,
    r: Result<(), EngineError>,
) -> bool
    decreases lines.len() - i,
{
    if i < 0 || i >= lines.len() {
        after == before && r is Ok
    } else if crate::parser::is_blank(trim(lines[i])) {
        loaded_from(before, lines, i + 1, after, r)
    } else {
        exists|mid: GraphEngine, out: Result<String, EngineError>| #[trigger]
            processed(before, mid, trim(lines[i]), out) && match out {
                Ok(_) => loaded_from(mid, lines, i + 1, after, r),
                Err(cause) => {
                    &&& after == mid
                    &&& r is Err
                    &&& r->Err_0 is Line
                    &&& r->Err_0->Line_line@ == trim(lines[i])
                    &&& *r->Err_0->Line_cause == cause
                },
            }
    }
}

/// Whether an engine is empty: no modules, no connections, nothing
/// imported, nothing loaded, and no audio output.
pub open spec fn is_empty(engine: GraphEngine) -> bool {
    &&& engine.wf()
    &&& engine.graph.modules@.len() == 0
    &&& engine.graph.connections@.len() == 0
    &&& engine.graph.current_cycle == 0
    &&& !engine.is_running
    &&& !engine.has_stereo_output
    &&& engine.output_module is None
    &&& engine.output_port is None
    &&& engine.imported_modules@.len() == 0
    &&& engine.module_loader.cache@.len() == 0
}

/// The text of a sub-patch that the engine lacks: the path under which
/// the sub-patch is asked for, and the file that holds the text.
#[derive(Debug)]
pub struct TextWanted {
    pub path: String,
    pub file_path: String,
}

/// Whether the engine `start` is the engine `before` emptied, with the
/// source texts `texts` of sub-patches handed in: no modules, no
/// connections, nothing imported and no audio output; a sub-patch is
/// loaded from the last of the texts for its path, else from the embedded
/// sub-patch that its path leads to.
pub open spec fn made_ready(before: GraphEngine, start: GraphEngine, texts: Seq<ModuleText>) -> bool {
    &&& start.wf()
    &&& start.graph.modules@.len() == 0
    &&& start.graph.connections@.len() == 0
    &&& start.graph.current_cycle == 0
    &&& !start.is_running
    &&& !start.has_stereo_output
    &&& start.output_module is None
    &&& start.output_port is None
    &&& start.imported_modules@.len() == 0
    &&& start.sample_rate == before.sample_rate
    &&& start.module_loader.resolver == before.module_loader.resolver
    &&& forall|path: Seq<char>| #[trigger]
        start.module_loader.source_of(path) == match handed_in(texts, path, texts.len() as int) {
            Some(source) => Some(source),
            None => before.module_loader.embedded_source(path),
        }
}

/// The paths of the sub-patches that the first `n` lines import, in the
/// order of the lines.
pub open spec fn imports_among(lines: Seq<Seq<char>>, n: int) -> Seq<Seq<char>>
    decreases n,
{
    if n <= 0 || n > lines.len() {
        Seq::empty()
    } else {
        match crate::parser::parse_line_spec(trim(lines[n - 1])) {
            Ok(CommandView::Import { import }) => imports_among(lines, n - 1).push(import.path),
            _ => imports_among(lines, n - 1),
        }
    }
}

/// In an engine that was made ready with the source texts `texts`, the
/// import of a sub-patch whose text is among them succeeds: the sub-patch
/// is kept with that text and goes by its alias, or by its path where it
/// has no alias.
pub proof fn lemma_import_of_a_text(
    before: GraphEngine,
    start: GraphEngine,
    texts: Seq<ModuleText>,
    line: Seq<char>,
    after: GraphEngine,
    r: Result<String, EngineError>,
)
    requires
        made_ready(before, start, texts),
        processed(start, after, line, r),
        crate::parser::parse_line_spec(line) is Ok,
        crate::parser::parse_line_spec(line)->Ok_0 is Import,
        handed_in(
            texts,
            crate::parser::parse_line_spec(line)->Ok_0->import.path,
            texts.len() as int,
        ) is Some,
    ensures
        r is Ok,
        ({
            let import = crate::parser::parse_line_spec(line)->Ok_0->import;
            let text = handed_in(texts, import.path, texts.len() as int)->0;
            &&& after.is_imported(import_key(import.path, import.alias))
            &&& after.module_loader.is_cached(import.path)
            &&& after.module_loader.cached(import.path).content@ == text.content
            &&& after.module_loader.cached(import.path).file_path@ == text.place
            &&& after.graph == start.graph
        }),
{
    let import = crate::parser::parse_line_spec(line)->Ok_0->import;
    assert(start.module_loader.source_of(import.path) is Some);
    assert(after.module_loader.source_of(import.path) == start.module_loader.source_of(
        import.path,
    ));
}

/// Whether the engine `after` is the engine `before` with the hidden
/// stereo output made: the engine as it was where it was made before; else
/// a stereo output with neither side connected is put in under the name
/// `_output`, and all else is as it was.
pub open spec fn output_ensured(before: GraphEngine, after: GraphEngine) -> bool {
    if before.has_stereo_output {
        after == before
    } else {
        &&& after.wf()
        &&& after.has_stereo_output
        &&& after.is_running == before.is_running
        &&& after.sample_rate == before.sample_rate
        &&& after.output_module == before.output_module
        &&& after.output_port == before.output_port
        &&& after.module_loader == before.module_loader
        &&& after.imported_modules == before.imported_modules
        &&& put_in(before.graph, after.graph, "_output"@)
        &&& after.graph.node_of("_output"@) == Node::StereoOutput(
            GraphStereoOutput { left_connected: false, right_connected: false },
        )
    }
}

impl GraphEngine {
    /// Makes the hidden stereo output, if it was not made yet.
    fn ensure_output(&mut self)
        requires
            old(self).wf(),
        ensures
            output_ensured(*old(self), *final(self)),
            final(self).wf(),
            final(self).has_stereo_output,
            final(self).is_running == old(self).is_running,
            final(self).sample_rate == old(self).sample_rate,
            final(self).module_loader == old(self).module_loader,
            final(self).imported_modules == old(self).imported_modules,
            final(self).graph.connections == old(self).graph.connections,
            old(self).has_stereo_output ==> *final(self) == *old(self),
            final(self).names().contains("_output"@),
            !old(self).has_stereo_output ==> final(self).graph.has_module("_output"@)
                && final(self).graph.node_of("_output"@) is StereoOutput && final(self).names()
                == if old(self).graph.has_module("_output"@) {
                old(self).names()
            } else {
                old(self).names().push("_output"@)
            },
    {
        if !self.has_stereo_output {
            let params: Vec<Number> = Vec::new();
            let made = self.create_module(
                String::from_str("_output"),
                ModuleType::StereoOutput,
                &params,
            );
            proof {
                self.graph.lemma_has_module("_output"@);
            }
            self.has_stereo_output = true;
        }
    }

    /// Adds the module that a declaration of a built-in type asks for.
    fn handle_declaration(&mut self, name: String, t: ModuleType, params: Vec<Number>) -> (r:
        Result<String, EngineError>)
        requires
            old(self).wf(),
            forall|k: int| 0 <= k < params.len() ==> (#[trigger] params[k]).wf(),
        ensures
            final(self).wf(),
            final(self).is_running == old(self).is_running,
            final(self).sample_rate == old(self).sample_rate,
            final(self).graph.connections == old(self).graph.connections,
            final(self).imported_modules == old(self).imported_modules,
            final(self).has_stereo_output == old(self).has_stereo_output,
            r is Ok <==> can_build(t),
            match r {
                Ok(text) => {
                    &&& final(self).graph.has_module(name@)
                    &&& is_built(final(self).graph.node_of(name@), t, number_texts(params@))
                    &&& put_in(old(self).graph, final(self).graph, name@)
                    &&& final(self).names() == if old(self).graph.has_module(name@) {
                        old(self).names()
                    } else {
                        old(self).names().push(name@)
                    }
                    &&& text@ == "Created module: "@ + name@
                },
                Err(e) => e is NotImplemented && *final(self) == *old(self),
            },
    {
        let text = String::from_str("Created module: ").concat(name.as_str());
        match self.create_module(name, t, &params) {
            Ok(_) => Ok(text),
            Err(e) => Err(e),
        }
    }

    /// Makes the instance that a declaration of an imported type asks for.
    fn handle_instance(&mut self, name: String, key: String) -> (r: Result<String, EngineError>)
        requires
            old(self).wf(),
        ensures
            final(self).wf(),
            final(self).is_running == old(self).is_running,
            final(self).sample_rate == old(self).sample_rate,
            instantiated(*old(self), *final(self), name@, key@, r),
    {
        proof {
            assert forall|k: int| 0 <= k < self.names().len() implies self.names().contains(
                #[trigger] self.names()[k],
            ) by {}
        }
        let path = match self.find_import(key.as_str()) {
            Some(i) => self.imported_modules[i].path.clone(),
            None => {
                return Err(EngineError::ImportNotFound { name: key, available: self.import_keys() });
            },
        };
        let loaded = match self.module_loader.load_module(path.as_str()) {
            Ok(m) => m,
            Err(failure) => {
                assert(self.module_loader == old(self).module_loader);
                return Err(EngineError::Load { failure });
            },
        };
        let ghost mid = *self;
        let done = self.instantiate_imported_module(name.as_str(), &loaded);
        match done {
            Ok(_) => {},
            Err(e) => {
                return Err(e);
            },
        }
        let count = count_declarations(&loaded.commands);
        Ok(
            String::from_str("Created imported module '").concat(name.as_str()).concat(
                "' with ",
            ).concat(string_from(&decimal_digits(count)).as_str()).concat(" internal modules"),
        )
    }

    /// The destination that a connection statement names, with the stereo
    /// output made where the statement needs it.
    fn resolve_destination(&mut self, to: String) -> (r: String)
        requires
            old(self).wf(),
        ensures
            final(self).wf(),
            r@ == destination_of(to@),
            final(self).is_running == old(self).is_running,
            final(self).sample_rate == old(self).sample_rate,
            final(self).module_loader == old(self).module_loader,
            final(self).imported_modules == old(self).imported_modules,
            final(self).graph.connections == old(self).graph.connections,
            needs_output(to@) ==> final(self).has_stereo_output && final(self).names().contains(
                "_output"@,
            ),
            needs_output(to@) ==> output_ensured(*old(self), *final(self)),
            !needs_output(to@) ==> *final(self) == *old(self),
    {
        let v = chars_of(to.as_str());
        if is_text(&v, "out") {
            self.ensure_output();
            String::from_str("_output.mono")
        } else {
            match without_prefix(&v, "out.") {
                Some(port) => {
                    self.ensure_output();
                    String::from_str("_output.").concat(string_from(&port).as_str())
                },
                None => {
                    if holds(&v, ".") {
                        to
                    } else {
                        to.concat(".audio")
                    }
                },
            }
        }
    }

    /// Adds the connection that a connection statement asks for.
    fn handle_connect(&mut self, from: String, to: String) -> (r: Result<String, EngineError>)
        requires
            old(self).wf(),
        ensures
            final(self).wf(),
            final(self).is_running == old(self).is_running,
            final(self).sample_rate == old(self).sample_rate,
            final(self).imported_modules == old(self).imported_modules,
            final(self).module_loader == old(self).module_loader,
            needs_output(to@) ==> final(self).has_stereo_output && final(self).names().contains(
                "_output"@,
            ),
            !needs_output(to@) ==> final(self).has_stereo_output == old(self).has_stereo_output
                && final(self).names() == old(self).names(),
            r is Ok <==> split_pair(destination_of(to@), "."@) is Some && expr_of(from@) is Some,
            if needs_output(to@) {
                exists|mid: GraphEngine| #[trigger]
                    output_ensured(*old(self), mid) && connected(
                        mid,
                        *final(self),
                        destination_of(to@),
                        from@,
                        r,
                    )
            } else {
                connected(*old(self), *final(self), destination_of(to@), from@, r)
            },
            match r {
                Ok(text) => {
                    &&& final(self).graph.connections@.len() == old(self).graph.connections@.len()
                        + 1
                    &&& match split_pair(destination_of(to@), "."@) {
                        Some(dest) => final(self).graph.connections@.last()@ == (ConnectionView {
                            to_module: dest.0,
                            to_port: dest.1,
                            expression: expr_of(from@)->0,
                        }),
                        None => false,
                    }
                    &&& text@ == "Connected: "@ + destination_of(to@) + " <- "@ + from@
                },
                Err(_) => final(self).graph.connections == old(self).graph.connections,
            },
    {
        let dest = self.resolve_destination(to);
        let ghost mid = *self;
        let r = self.parse_connection(dest.as_str(), from.as_str());
        proof {
            if needs_output(to@) {
                assert(output_ensured(*old(self), mid) && connected(
                    mid,
                    *self,
                    destination_of(to@),
                    from@,
                    r,
                ));
            }
        }
        r
    }

    /// Sets the parameter that a parameter assignment names.
    fn handle_assignment(&mut self, module: String, param: String, value: Number) -> (r: Result<
        String,
        EngineError,
    >)
        requires
            old(self).wf(),
            value.wf(),
        ensures
            final(self).wf(),
            final(self).is_running == old(self).is_running,
            final(self).sample_rate == old(self).sample_rate,
            final(self).imported_modules == old(self).imported_modules,
            final(self).module_loader == old(self).module_loader,
            final(self).has_stereo_output == old(self).has_stereo_output,
            final(self).graph.connections == old(self).graph.connections,
            final(self).names() == old(self).names(),
            r is Ok <==> old(self).graph.has_module(module@) && old(self).graph.node_of(
                module@,
            ).accepts(param@, value@),
            r is Ok ==> r->Ok_0@ == "Set "@ + module@ + "."@ + param@ + " = "@ + value@,
            r is Ok ==> Node::param_set(
                old(self).graph.node_of(module@),
                final(self).graph.node_of(module@),
                param@,
                value@,
                Ok(()),
            ),
    {
        match self.set_module_param(module.as_str(), param.as_str(), &value) {
            Ok(_) => Ok(
                String::from_str("Set ").concat(module.as_str()).concat(".").concat(
                    param.as_str(),
                ).concat(" = ").concat(value.as_str()),
            ),
            Err(e) => Err(e),
        }
    }

    /// Loads the sub-patch that an import names and keeps it under its name.
    fn handle_import(&mut self, import: crate::parser::ImportDef) -> (r: Result<
        String,
        EngineError,
    >)
        requires
            old(self).wf(),
        ensures
            final(self).wf(),
            final(self).is_running == old(self).is_running,
            final(self).sample_rate == old(self).sample_rate,
            final(self).graph == old(self).graph,
            final(self).has_stereo_output == old(self).has_stereo_output,
            imported(*old(self), *final(self), import@, r),
    {
        let loaded = match self.module_loader.load_module(import.path.as_str()) {
            Ok(m) => m,
            Err(failure) => {
                return Err(EngineError::Load { failure });
            },
        };
        let key = match &import.alias {
            Some(alias) => alias.clone(),
            None => import.path.clone(),
        };
        let count = count_declarations(&loaded.commands);
        let text = String::from_str("Imported module '").concat(import.path.as_str()).concat(
            "' as '",
        ).concat(key.as_str()).concat("' with ").concat(
            string_from(&decimal_digits(count)).as_str(),
        ).concat(" internal modules");
        self.keep_import(key, import.path, PatchbayDef { ports: Vec::new() });
        Ok(text)
    }

    /// Keeps the patchbay of the patch itself.
    fn handle_patchbay(&mut self, patchbay: PatchbayDef) -> (r: Result<String, EngineError>)
        requires
            old(self).wf(),
        ensures
            final(self).wf(),
            final(self).is_running == old(self).is_running,
            final(self).sample_rate == old(self).sample_rate,
            r is Ok,
            final(self).graph == old(self).graph,
            final(self).module_loader == old(self).module_loader,
            final(self).has_stereo_output == old(self).has_stereo_output,
            final(self).is_imported("_current_module"@),
            r->Ok_0@ == "Defined patchbay with "@ + crate::number::decimal_text(
                patchbay.ports.len() as nat,
            ) + " ports"@,
    {
        let text = String::from_str("Defined patchbay with ").concat(
            string_from(&decimal_digits(patchbay.ports.len())).as_str(),
        ).concat(" ports");
        self.keep_import(
            String::from_str("_current_module"),
            String::from_str("_current_module"),
            patchbay,
        );
        Ok(text)
    }

    /// Does what a statement says.
    ///
    /// A declaration of a built-in type adds the module; one of an imported
    /// type makes an instance of the sub-patch. A connection is added to the
    /// graph, to the hidden stereo output where its destination is `out`,
    /// which is made on first use. A parameter assignment is handed to the
    /// module. An import loads the sub-patch and keeps it under its alias,
    /// or under its path where it has none. A patchbay is kept for the
    /// patch itself.
    pub fn handle_parsed_command(&mut self, command: Command) -> (r: Result<String, EngineError>)
        requires
            old(self).wf(),
            command.wf(),
        ensures
            final(self).wf(),
            final(self).is_running == old(self).is_running,
            final(self).sample_rate == old(self).sample_rate,
            handled(*old(self), *final(self), command@, r),
    {
        match command {
            Command::CreateModule { name, module_type, params } => {
                match module_type {
                    ModuleTypeRef::BuiltIn(t) => self.handle_declaration(name, t, params),
                    ModuleTypeRef::Imported(key) => self.handle_instance(name, key),
                }
            },
            Command::Connect { from, to } => self.handle_connect(from, to),
            Command::SetParam { module, param, value } => self.handle_assignment(
                module,
                param,
                value,
            ),
            Command::Import { import } => self.handle_import(import),
            Command::DefinePatchbay { patchbay } => self.handle_patchbay(patchbay),
        }
    }

    /// Takes a line that is no statement as a connection, if it holds
    /// exactly one arrow.
    pub fn handle_extended_syntax(&mut self, line: &str) -> (r: Result<String, EngineError>)
        requires
            old(self).wf(),
        ensures
            final(self).wf(),
            final(self).is_running == old(self).is_running,
            final(self).sample_rate == old(self).sample_rate,
            final(self).has_stereo_output == old(self).has_stereo_output,
            final(self).module_loader == old(self).module_loader,
            final(self).imported_modules == old(self).imported_modules,
            final(self).names() == old(self).names(),
            taken_as_connection(*old(self), *final(self), line@, r),
    {
        match split_in_two(&chars_of(line), &chars_of("<-")) {
            Some((left, right)) => {
                let dest = string_from(&trimmed(&left));
                let source = string_from(&trimmed(&right));
                self.parse_connection(dest.as_str(), source.as_str())
            },
            None => Err(EngineError::Unrecognized { line: String::from_str(line) }),
        }
    }

    /// Does what a line says: what its statement says, and for a line that
    /// is no statement, what it says as a connection.
    pub fn process_line(&mut self, line: &str) -> (r: Result<String, EngineError>)
        requires
            old(self).wf(),
        ensures
            final(self).wf(),
            final(self).is_running == old(self).is_running,
            final(self).sample_rate == old(self).sample_rate,
            processed(*old(self), *final(self), line@, r),
    {
        match parse_line(line) {
            Ok(command) => self.handle_parsed_command(command),
            Err(_) => self.handle_extended_syntax(line),
        }
    }

    /// Empties the engine and does what the lines of a patch say, one after
    /// another. Blank lines and comments are passed over. The first line
    /// that fails ends the work; the error holds the line and what failed.
    /// An import succeeds for an embedded sub-patch only: the engine was
    /// handed no other text.
    pub fn load_patch(&mut self, patch_content: &str) -> (r: Result<(), EngineError>)
        requires
            old(self).wf(),
        ensures
            final(self).wf(),
            !final(self).is_running,
            final(self).sample_rate == old(self).sample_rate,
            exists|start: GraphEngine|
                is_empty(start) && start.sample_rate == old(self).sample_rate
                    && start.module_loader.resolver == old(self).module_loader.resolver
                    && #[trigger] loaded_from(
                    start,
                    crate::parser::lines_of(patch_content@),
                    0,
                    *final(self),
                    r,
                ),
    {
        self.clear_patch();
        let ghost start = *self;
        let r = self.run_lines(patch_content);
        assert(loaded_from(start, crate::parser::lines_of(patch_content@), 0, *self, r));
        r
    }

    /// Empties the engine, takes in the source texts `texts` of sub-patches,
    /// and does what the lines of a patch say, one after another, as
    /// `load_patch` does. An import succeeds for a sub-patch whose text is
    /// among `texts` and for an embedded one.
    pub fn load_patch_with(&mut self, patch_content: &str, texts: &Vec<ModuleText>) -> (r: Result<
        (),
        EngineError,
    >)
        requires
            old(self).wf(),
        ensures
            final(self).wf(),
            !final(self).is_running,
            final(self).sample_rate == old(self).sample_rate,
            exists|start: GraphEngine|
                made_ready(*old(self), start, texts@) && #[trigger] loaded_from(
                    start,
                    crate::parser::lines_of(patch_content@),
                    0,
                    *final(self),
                    r,
                ),
    {
        self.clear_patch();
        let ghost cleared = *self;
        self.module_loader.install_all(texts);
        let ghost start = *self;
        proof {
            assert forall|path: Seq<char>| #[trigger]
                start.module_loader.source_of(path) == match handed_in(
                    texts@,
                    path,
                    texts@.len() as int,
                ) {
                    Some(source) => Some(source),
                    None => old(self).module_loader.embedded_source(path),
                } by {
                assert(cleared.module_loader.source_of(path)
                    == cleared.module_loader.embedded_source(path));
                assert(start.module_loader.source_of(path) == cleared.module_loader.source_with(
                    texts@,
                    path,
                ));
            }
            assert(made_ready(*old(self), start, texts@));
        }
        let r = self.run_lines(patch_content);
        assert(loaded_from(start, crate::parser::lines_of(patch_content@), 0, *self, r));
        r
    }

    /// The paths of the sub-patches that the lines of a patch import, in
    /// the order of the lines.
    pub fn imports_of(patch_content: &str) -> (r: Vec<String>)
        ensures
            strings(r@) == imports_among(
                crate::parser::lines_of(patch_content@),
                crate::parser::lines_of(patch_content@).len() as int,
            ),
    {
        let lines = crate::parser::split_lines(&chars_of(patch_content));
        let ghost all = crate::parser::lines_of(patch_content@);
        let mut paths: Vec<String> = Vec::new();
        let mut i: usize = 0;
        assert(strings(paths@) =~= imports_among(all, 0));
        while i < lines.len()
            invariant
                i <= lines.len(),
                all == crate::parser::lines_of(patch_content@),
                crate::text::texts(lines@) == all,
                strings(paths@) == imports_among(all, i as int),
            decreases lines.len() - i,
        {
            assert(all.len() == lines.len());
            assert(all[i as int] == lines[i as int]@);
            let text = string_from(&trimmed(&lines[i]));
            let ghost before = strings(paths@);
            match parse_line(text.as_str()) {
                Ok(Command::Import { import }) => {
                    paths.push(import.path);
                    assert(strings(paths@) =~= before.push(import.path@));
                },
                _ => {},
            }
            i += 1;
        }
        assert(all.len() == lines.len());
        paths
    }

    /// Does what the lines of a patch say, one after another. Blank lines
    /// and comments are passed over. The first line that fails ends the
    /// work; the error holds the line and what failed.
    fn run_lines(&mut self, patch_content: &str) -> (r: Result<(), EngineError>)
        requires
            old(self).wf(),
        ensures
            final(self).wf(),
            final(self).is_running == old(self).is_running,
            final(self).sample_rate == old(self).sample_rate,
            loaded_from(*old(self), crate::parser::lines_of(patch_content@), 0, *final(self), r),
    {
        let lines = crate::parser::split_lines(&chars_of(patch_content));
        let ghost all = crate::parser::lines_of(patch_content@);
        let ghost start = *self;
        let mut i: usize = 0;
        while i < lines.len()
            invariant
                i <= lines.len(),
                self.wf(),
                self.is_running == old(self).is_running,
                self.sample_rate == old(self).sample_rate,
                all == crate::parser::lines_of(patch_content@),
                crate::text::texts(lines@) == all,
                start == *old(self),
                forall|a: GraphEngine, r: Result<(), EngineError>| #[trigger]
                    loaded_from(*self, all, i as int, a, r) ==> loaded_from(start, all, 0, a, r),
            decreases lines.len() - i,
        {
            assert(all.len() == lines.len());
            assert(all[i as int] == lines[i as int]@);
            let line = trimmed(&lines[i]);
            let ghost here = *self;
            if !(line.len() == 0 || line[0] == '#') {
                let text = string_from(&line);
                let out = self.process_line(text.as_str());
                match out {
                    Ok(_) => {
                        proof {
                            let now = *self;
                            assert forall|a: GraphEngine, r: Result<(), EngineError>| #[trigger]
                                loaded_from(now, all, i + 1, a, r) implies loaded_from(
                                start,
                                all,
                                0,
                                a,
                                r,
                            ) by {
                                assert(processed(here, now, trim(all[i as int]), out));
                                assert(loaded_from(here, all, i as int, a, r));
                            }
                        }
                    },
                    Err(cause) => {
                        let failed = Err(EngineError::Line { line: text, cause: Box::new(cause) });
                        proof {
                            let now = *self;
                            assert(processed(here, now, trim(all[i as int]), out));
                            assert(loaded_from(here, all, i as int, now, failed));
                        }
                        return failed;
                    },
                }
            } else {
                proof {
                    assert forall|a: GraphEngine, r: Result<(), EngineError>| #[trigger]
                        loaded_from(here, all, i + 1, a, r) implies loaded_from(
                        start,
                        all,
                        0,
                        a,
                        r,
                    ) by {
                        assert(loaded_from(here, all, i as int, a, r));
                    }
                }
            }
            i += 1;
        }
        proof {
            assert(all.len() == lines.len());
            assert(loaded_from(*self, all, i as int, *self, Ok::<(), EngineError>(())));
        }
        Ok(())
    }

    /// The names of the modules of the graph, in the order in which they
    /// were added.
    pub fn list_modules(&self) -> (r: Vec<String>)
        ensures
            strings(r@) == self.names(),
    {
        self.graph.list_modules()
    }

    /// The ports of the module `name`, if the graph has it: for each input
    /// and each output its name, its default value and what it is for.
    pub fn inspect_module(&self, name: &str) -> (r: Option<ModuleInfo>)
        ensures
            match r {
                Some(info) => {
                    &&& self.graph.has_module(name@)
                    &&& info.name@ == name@
                    &&& self.graph.node_of(name@).has_ports(info.inputs@, info.outputs@)
                    &&& crate::graph::port_names(info.inputs@) == self.graph.node_of(
                        name@,
                    ).input_names()
                    &&& crate::graph::port_names(info.outputs@) == self.graph.node_of(
                        name@,
                    ).output_names()
                },
                None => !self.graph.has_module(name@),
            },
    {
        self.graph.inspect_module(name)
    }

    /// The ports of a module type, by one of the names that stand for it
    /// here: those of a module of the type as it is built without parameters.
    pub fn inspect_module_type(module_type_name: &str) -> (r: Option<ModuleInfo>)
        ensures
            match r {
                Some(info) => {
                    &&& inspected_type(module_type_name@) is Some
                    &&& can_build(inspected_type(module_type_name@)->0)
                    &&& info.name@ == module_type_name@
                    &&& exists|node: Node|
                        is_built(node, inspected_type(module_type_name@)->0, Seq::empty())
                            && node.has_ports(info.inputs@, info.outputs@)
                            && crate::graph::port_names(info.inputs@) == node.input_names()
                            && crate::graph::port_names(info.outputs@) == node.output_names()
                },
                None => inspected_type(module_type_name@) is None || !can_build(
                    inspected_type(module_type_name@)->0,
                ),
            },
    {
        let t = match read_inspected_type(module_type_name) {
            Some(t) => t,
            None => {
                return None;
            },
        };
        let params: Vec<Number> = Vec::new();
        assert(number_texts(params@) =~= Seq::<Seq<char>>::empty());
        match build_module(t, &params) {
            Some(node) => Some(
                ModuleInfo {
                    name: String::from_str(module_type_name),
                    inputs: node.inputs(),
                    outputs: node.outputs(),
                },
            ),
            None => None,
        }
    }

    /// What is to be said of the connections of the graph.
    pub fn validate_connections(&self) -> (r: Vec<String>)
        ensures
            strings(r@) == self.graph.diagnostics(),
            r.len() == 0 <==> forall|i: int|
                0 <= i < self.graph.connections.len() ==> self.graph.connection_valid(
                    #[trigger] self.graph.connections[i]@,
                ),
    {
        self.graph.validate_connections()
    }

    /// Switches every manual gate of the graph on and counts them.
    pub fn activate_manual_gates(&mut self) -> (r: usize)
        requires
            old(self).wf(),
        ensures
            final(self).wf(),
            r == old(self).graph.manual_gates(old(self).graph.modules.len() as int),
            gates_switched(old(self).graph, final(self).graph, true),
            final(self).is_running == old(self).is_running,
            final(self).sample_rate == old(self).sample_rate,
            final(self).output_module == old(self).output_module,
            final(self).output_port == old(self).output_port,
            final(self).has_stereo_output == old(self).has_stereo_output,
            final(self).module_loader == old(self).module_loader,
            final(self).imported_modules == old(self).imported_modules,
            final(self).names() == old(self).names(),
            final(self).graph.connections == old(self).graph.connections,
    {
        let r = self.graph.activate_manual_gates();
        assert(self.names() =~= old(self).names());
        r
    }

    /// Switches every manual gate of the graph off and counts them.
    pub fn release_manual_gates(&mut self) -> (r: usize)
        requires
            old(self).wf(),
        ensures
            final(self).wf(),
            r == old(self).graph.manual_gates(old(self).graph.modules.len() as int),
            gates_switched(old(self).graph, final(self).graph, false),
            final(self).is_running == old(self).is_running,
            final(self).sample_rate == old(self).sample_rate,
            final(self).output_module == old(self).output_module,
            final(self).output_port == old(self).output_port,
            final(self).has_stereo_output == old(self).has_stereo_output,
            final(self).module_loader == old(self).module_loader,
            final(self).imported_modules == old(self).imported_modules,
            final(self).names() == old(self).names(),
            final(self).graph.connections == old(self).graph.connections,
    {
        let r = self.graph.release_manual_gates();
        assert(self.names() =~= old(self).names());
        r
    }

    /// Begins the work of a block without an audio device.
    pub fn process_for_test(&mut self, sample_count: usize) -> (r: crate::cycle::CyclePlan)
        ensures
            crate::cycle::block_begun(old(self).graph, final(self).graph, sample_count, r),
            final(self).is_running == old(self).is_running,
            final(self).sample_rate == old(self).sample_rate,
            final(self).output_module == old(self).output_module,
            final(self).output_port == old(self).output_port,
            final(self).has_stereo_output == old(self).has_stereo_output,
            final(self).module_loader == old(self).module_loader,
            final(self).imported_modules == old(self).imported_modules,
            r.cycle == old(self).graph.current_cycle,
            r.sample_count == sample_count,
            r.steps@ == old(self).graph.plan(),
            final(self).graph.modules == old(self).graph.modules,
            final(self).graph.connections == old(self).graph.connections,
    {
        self.graph.process(sample_count)
    }
}

impl Default for GraphEngine {
    fn default() -> (r: Self)
        ensures
            r.wf(),
            r.graph.modules@.len() == 0,
    {
        Self::new()
    }
}

} // verus!
