use zim_dsp::cycle::{
    frame_layout, is_gate_output, is_sampled, rising_edges, sample_index, sample_step, CycleStep,
    FrameLayout,
};
use zim_dsp::graph::{Connection, ConnectionExpr, GraphError, GraphExecutor};
use zim_dsp::graph_modules::{GraphLfo, GraphManualGate, GraphMonoMixer, GraphOscillator, GraphVca};
use zim_dsp::node::Node;
use zim_dsp::number::Number;
use zim_dsp::sequencing::{GraphSeq8, GraphSwitch};

fn num(s: &str) -> Number {
    Number::parse(s).unwrap()
}

fn direct(module: &str, port: &str) -> ConnectionExpr {
    ConnectionExpr::Direct { module: module.to_string(), port: port.to_string() }
}

fn connect(graph: &mut GraphExecutor, module: &str, port: &str, expression: ConnectionExpr) {
    graph.add_connection(Connection {
        to_module: module.to_string(),
        to_port: port.to_string(),
        expression,
    });
}

fn small_graph() -> GraphExecutor {
    let mut graph = GraphExecutor::new();
    graph.add_module("osc".to_string(), Node::Oscillator(GraphOscillator::new(num("440"))));
    graph.add_module("lfo".to_string(), Node::Lfo(GraphLfo::new(num("2"))));
    graph.add_module("vca".to_string(), Node::Vca(GraphVca::new(num("1"))));
    graph
}

#[test]
fn modules_keep_their_order() {
    let mut graph = small_graph();
    assert_eq!(graph.list_modules(), vec!["osc", "lfo", "vca"]);
    graph.add_module("lfo".to_string(), Node::Lfo(GraphLfo::new(num("8"))));
    assert_eq!(graph.list_modules(), vec!["osc", "lfo", "vca"]);
    assert_eq!(graph.execution_order, vec!["osc", "lfo", "vca"]);
    assert_eq!(graph.get_module("lfo").unwrap().get_param("freq").unwrap().as_str(), "8");
    assert!(graph.get_module("nothing").is_none());
}

#[test]
fn valid_connections_have_no_diagnostics() {
    let mut graph = small_graph();
    connect(&mut graph, "vca", "audio", direct("osc", "sine"));
    connect(
        &mut graph,
        "vca",
        "cv",
        ConnectionExpr::Offset {
            expr: Box::new(ConnectionExpr::Scaled {
                expr: Box::new(direct("lfo", "sine")),
                factor: num("0.5"),
            }),
            offset: num("0.5"),
        },
    );
    connect(&mut graph, "osc", "fm", ConnectionExpr::Sum { exprs: vec![] });
    assert!(graph.validate_connections().is_empty());
    assert_eq!(graph.list_connections().len(), 3);
}

#[test]
fn each_fault_of_a_connection_is_reported() {
    let mut graph = small_graph();
    connect(&mut graph, "vcf", "audio", direct("osc", "sine"));
    connect(&mut graph, "vca", "gain", direct("osc", "sine"));
    connect(&mut graph, "vca", "audio", direct("noise", "white"));
    connect(
        &mut graph,
        "vca",
        "cv",
        ConnectionExpr::Sum { exprs: vec![direct("lfo", "sine"), direct("lfo", "saw")] },
    );
    assert_eq!(
        graph.validate_connections(),
        vec![
            "Module 'vcf' not found",
            "Module 'vca' has no input port 'gain'",
            "Source module 'noise' not found",
            "Module 'lfo' has no output port 'saw'",
        ]
    );
}

#[test]
fn parameters_go_to_the_named_module() {
    let mut graph = small_graph();
    graph.set_module_param("osc", "freq", &num("110")).unwrap();
    assert_eq!(graph.get_module("osc").unwrap().get_param("freq").unwrap().as_str(), "110");
    let err = graph.set_module_param("filter", "cutoff", &num("1")).unwrap_err();
    assert!(matches!(err, GraphError::ModuleNotFound { .. }));
    assert_eq!(err.message(), "Module 'filter' not found");
    let err = graph.set_module_param("osc", "cutoff", &num("1")).unwrap_err();
    assert_eq!(err.message(), "Unknown parameter: cutoff");
}

#[test]
fn module_can_be_changed_in_place() {
    let mut graph = small_graph();
    if let Some(Node::Vca(vca)) = graph.get_module_mut("vca") {
        vca.gain = num("0.25");
    }
    assert_eq!(graph.get_module("vca").unwrap().get_param("gain").unwrap().as_str(), "0.25");
    assert!(graph.get_module_mut("nothing").is_none());
}

#[test]
fn manual_gates_are_switched_together() {
    let mut graph = small_graph();
    assert_eq!(graph.activate_manual_gates(), 0);
    graph.add_module("g1".to_string(), Node::ManualGate(GraphManualGate::new()));
    graph.add_module("g2".to_string(), Node::ManualGate(GraphManualGate::new()));
    assert_eq!(graph.activate_manual_gates(), 2);
    assert!(matches!(graph.get_module("g1"), Some(Node::ManualGate(g)) if g.is_on()));
    assert!(matches!(graph.get_module("g2"), Some(Node::ManualGate(g)) if g.is_on()));
    assert_eq!(graph.release_manual_gates(), 2);
    assert!(matches!(graph.get_module("g1"), Some(Node::ManualGate(g)) if !g.is_on()));
}

#[test]
fn inspection_lists_the_ports() {
    let mut graph = small_graph();
    graph.add_module("mix".to_string(), Node::Mixer(GraphMonoMixer::new(2)));
    graph.add_module("sw".to_string(), Node::Switch(GraphSwitch::new(3)));
    graph.add_module("seq".to_string(), Node::Seq8(GraphSeq8::new()));
    let names = |ports: &Vec<zim_dsp::graph::PortDescriptor>| -> Vec<String> {
        ports.iter().map(|p| p.name.clone()).collect()
    };
    let osc = graph.inspect_module("osc").unwrap();
    assert_eq!(names(&osc.inputs), vec!["freq", "fm", "sync"]);
    assert_eq!(names(&osc.outputs), vec!["sine", "saw", "square", "triangle"]);
    let vca = graph.inspect_module("vca").unwrap();
    assert_eq!(vca.inputs[2].default_value.as_str(), "1");
    let mix = graph.inspect_module("mix").unwrap();
    assert_eq!(names(&mix.inputs), vec!["in1", "in2", "level1", "level2", "master"]);
    assert_eq!(mix.inputs[3].description, "Level control for input 2");
    let sw = graph.inspect_module("sw").unwrap();
    assert_eq!(names(&sw.inputs), vec!["clock", "reset", "in1", "in2", "in3"]);
    let seq = graph.inspect_module("seq").unwrap();
    assert_eq!(seq.inputs.len(), 21);
    assert_eq!(seq.inputs[5].name, "step1");
    assert_eq!(seq.inputs[12].name, "step8");
    assert_eq!(seq.inputs[13].name, "gate1");
    assert_eq!(seq.inputs[20].name, "gate8");
    for i in 0..8 {
        let expected = (i as f32) / 7.0;
        let written = seq.inputs[5 + i].default_value.as_str().parse::<f32>().unwrap();
        assert_eq!(written, expected);
    }
    assert!(graph.inspect_module("nothing").is_none());
}

#[test]
fn every_module_works_once_behind_its_connections() {
    let mut graph = small_graph();
    connect(&mut graph, "vca", "audio", direct("osc", "sine"));
    connect(&mut graph, "osc", "fm", direct("lfo", "sine"));
    connect(&mut graph, "vca", "cv", direct("lfo", "square"));
    connect(&mut graph, "gone", "in", direct("lfo", "square"));
    let plan = graph.process(512);
    assert_eq!(plan.cycle, 0);
    assert_eq!(plan.sample_count, 512);
    assert_eq!(plan.sample_step, 64);
    assert_eq!(
        plan.steps,
        vec![
            CycleStep::Evaluate { connection: 1, module: 0 },
            CycleStep::Process { module: 0 },
            CycleStep::Process { module: 1 },
            CycleStep::Evaluate { connection: 0, module: 2 },
            CycleStep::Evaluate { connection: 2, module: 2 },
            CycleStep::Process { module: 2 },
        ]
    );
    assert_eq!(graph.process(512).cycle, 1);
    assert_eq!(graph.current_cycle, 2);
}

#[test]
fn outputs_are_sampled_sparsely_in_long_blocks() {
    assert_eq!(sample_step(128), 1);
    assert_eq!(sample_step(129), 64);
    assert!(is_sampled(512, 0));
    assert!(is_sampled(512, 448));
    assert!(!is_sampled(512, 63));
    assert!(!is_sampled(512, 512));
    assert!(is_sampled(64, 63));
    assert_eq!(sample_index(3, 512, 10), Some(1546));
    assert_eq!(sample_index(usize::MAX, 2, 0), None);
}

#[test]
fn gate_outputs_are_known_by_their_names() {
    for name in ["eor", "eoc", "gate", "gate1", "trigger", "clock", "my_clock_out"] {
        assert!(is_gate_output(name), "{name}");
    }
    for name in ["out", "sine", "trig", "cv", "step"] {
        assert!(!is_gate_output(name), "{name}");
    }
}

#[test]
fn a_rise_is_seen_once_across_blocks() {
    let whole = vec![false, true, true, false, false, true, true, true, false, true];
    let all = rising_edges(false, &whole);
    assert_eq!(all, vec![1, 5, 9]);
    for cut in 0..=whole.len() {
        let first = whole[..cut].to_vec();
        let second = whole[cut..].to_vec();
        let mut graph = GraphExecutor::new();
        let mut seen = graph.observe_gate_block("slew", "eor", &first);
        let later = graph.observe_gate_block("slew", "eor", &second);
        seen.extend(later.iter().map(|i| i + cut));
        assert_eq!(seen, all, "cut at {cut}");
    }
    assert_eq!(rising_edges(true, &vec![true, false, true]), vec![2]);
}

#[test]
fn gate_levels_are_kept_per_output() {
    let mut graph = GraphExecutor::new();
    assert_eq!(graph.observe_gate_block("a", "gate", &vec![true]), vec![0]);
    assert_eq!(graph.observe_gate_block("b", "gate", &vec![true]), vec![0]);
    assert_eq!(graph.observe_gate_block("a", "gate", &vec![true]), Vec::<usize>::new());
    assert_eq!(graph.observe_gate_block("a", "gate", &vec![]), Vec::<usize>::new());
    assert_eq!(graph.observe_gate_block("a", "gate", &vec![false, true]), vec![1]);
}

#[test]
fn blocks_are_laid_into_the_frames_of_the_device() {
    assert_eq!(
        frame_layout(1024, 2, 512, 512),
        FrameLayout { frames: 512, filled: 512, stereo: true }
    );
    assert_eq!(
        frame_layout(1025, 2, 600, 100),
        FrameLayout { frames: 512, filled: 100, stereo: true }
    );
    assert_eq!(frame_layout(64, 1, 64, 64), FrameLayout { frames: 64, filled: 64, stereo: false });
    assert_eq!(frame_layout(0, 6, 64, 64), FrameLayout { frames: 0, filled: 0, stereo: true });
}
