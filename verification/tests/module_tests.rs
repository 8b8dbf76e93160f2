use zim_dsp::graph_modules::{
    GraphManualGate, GraphMult, GraphStereoOutput, SlewCurve, StereoRouting,
};
use zim_dsp::modules::{parse_module_type, ModuleType};
use zim_dsp::number::Number;
use zim_dsp::observability::{
    ConsoleObserver, GateEvent, ObservationCollector, ObserverManager, ParameterEvent,
    SignalEvent, SignalObserver,
};

#[test]
fn module_type_names_are_read() {
    assert_eq!(parse_module_type("osc").unwrap(), ModuleType::Oscillator);
    assert_eq!(parse_module_type("envelope").unwrap(), ModuleType::Envelope);
    assert_eq!(parse_module_type("manual").unwrap(), ModuleType::ManualGate);
    assert_eq!(parse_module_type("sh").unwrap(), ModuleType::SampleHold);
    let err = parse_module_type("supersaw").unwrap_err();
    assert_eq!(err.name, "supersaw");
    assert_eq!(err.message(), "Unknown module type: supersaw");
}

#[test]
fn module_type_names_read_back() {
    let all = [
        ModuleType::Oscillator,
        ModuleType::Filter,
        ModuleType::Envelope,
        ModuleType::Vca,
        ModuleType::Mixer,
        ModuleType::StereoMixer,
        ModuleType::Output,
        ModuleType::Lfo,
        ModuleType::ManualGate,
        ModuleType::StereoOutput,
        ModuleType::Noise,
        ModuleType::Slew,
        ModuleType::Seq8,
        ModuleType::Visual,
        ModuleType::Mult,
        ModuleType::Switch,
        ModuleType::ClockDiv,
        ModuleType::SampleHold,
    ];
    for t in all {
        assert_eq!(parse_module_type(t.name()).unwrap(), t);
    }
    assert_eq!(ModuleType::StereoOutput.to_string(), "stereo_out");
    assert_eq!(parse_module_type("stereo_out").unwrap(), ModuleType::StereoOutput);
}

#[test]
fn manual_gate_follows_its_setter() {
    let mut gate = GraphManualGate::new();
    assert!(!gate.is_on());
    gate.set_gate(true);
    assert!(gate.is_on());
    gate.set_gate(false);
    assert!(!gate.is_on());
}

#[test]
fn stereo_output_normalizes() {
    let mut out = GraphStereoOutput::new();
    assert_eq!(out.route(false), StereoRouting::MonoToBoth);
    out.set_left_connected(true);
    assert_eq!(out.route(false), StereoRouting::LeftToBoth);
    assert_eq!(out.route(true), StereoRouting::MonoToBoth);
    out.set_right_connected(true);
    assert_eq!(out.route(false), StereoRouting::Separate);
    out.set_left_connected(false);
    assert_eq!(out.route(false), StereoRouting::Separate);
}

#[test]
fn mult_has_four_outputs() {
    assert_eq!(GraphMult::new().output_count(), 4);
}

#[test]
fn slew_curve_codes() {
    assert_eq!(SlewCurve::from_code(0), SlewCurve::Linear);
    assert_eq!(SlewCurve::from_code(1), SlewCurve::Exponential);
    assert_eq!(SlewCurve::from_code(2), SlewCurve::Logarithmic);
    assert_eq!(SlewCurve::from_code(7), SlewCurve::Linear);
    assert_eq!(SlewCurve::Logarithmic.code(), 2);
}

#[test]
fn collector_counts_fired_gates() {
    let mut log = ObservationCollector::new();
    assert!(!log.gate_fired("test", "gate"));
    let event = |module: &str, gate: &str, i: usize, triggered: bool| GateEvent {
        module: module.to_string(),
        gate: gate.to_string(),
        sample_index: i,
        triggered,
    };
    log.observe_gate(&event("slew", "eor", 10, true));
    log.observe_gate(&event("slew", "eoc", 20, true));
    log.observe_gate(&event("slew", "eor", 30, false));
    log.observe_gate(&event("slew", "eor", 40, true));
    assert_eq!(log.gate_fire_count("slew", "eor"), 2);
    assert_eq!(log.gate_fire_count("slew", "eoc"), 1);
    assert!(log.gate_fired("slew", "eor"));
    assert!(!log.gate_fired("lfo", "gate"));
    assert_eq!(log.get_gate_events("slew", "eor"), vec![0, 2, 3]);
    assert_eq!(log.get_gate_events("slew", "eoc"), vec![1]);
}

#[test]
fn empty_collector_has_nothing() {
    let collector = ObservationCollector::new();
    assert!(collector.get_signal_values("test", "port").is_empty());
    assert!(!collector.gate_fired("test", "gate"));
    assert_eq!(collector.gate_fire_count("test", "gate"), 0);
}

#[test]
fn collector_keeps_signals_by_output() {
    let mut collector = ObservationCollector::new();
    let signal = |port: &str, i: usize, value: f32| SignalEvent {
        module: "osc".to_string(),
        port: port.to_string(),
        sample_index: i,
        value: Number::parse(&value.to_string()).unwrap(),
    };
    collector.begin_process_cycle(3);
    collector.observe_signal(&signal("sine", 0, 0.0));
    collector.observe_signal(&signal("saw", 0, -1.0));
    collector.observe_signal(&signal("sine", 64, 0.5877852));
    collector.observe_signal(&signal("sine", 128, f32::NAN));
    collector.observe_parameter(&ParameterEvent {
        module: "osc".to_string(),
        parameter: "freq".to_string(),
        value: Number::parse("220").unwrap(),
    });
    collector.end_process_cycle(3);
    assert_eq!(collector.cycle_count, 3);
    assert_eq!(collector.parameters.len(), 1);
    let values: Vec<f32> = collector
        .get_signal_values("osc", "sine")
        .iter()
        .map(|n| n.as_str().parse::<f32>().unwrap())
        .collect();
    assert_eq!(values.len(), 3);
    assert_eq!(values[0], 0.0);
    assert_eq!(values[1], 0.5877852);
    assert!(values[2].is_nan());
    assert_eq!(collector.get_signal_values("osc", "saw").len(), 1);
}

#[test]
fn manager_tells_every_observer() {
    let mut manager: ObserverManager<ObservationCollector> = ObserverManager::new();
    manager.add_observer(ObservationCollector::new());
    manager.add_observer(ObservationCollector::new());
    manager.begin_process_cycle(7);
    manager.observe_gate("slew", "eor", 12, true);
    manager.observe_signal("slew", "out", 12, Number::parse("0.25").unwrap());
    manager.observe_parameter("slew", "rise", Number::parse("0.1").unwrap());
    manager.end_process_cycle(7);
    for observer in &manager.observers {
        assert_eq!(observer.cycle_count, 7);
        assert!(observer.gate_fired("slew", "eor"));
        assert_eq!(observer.signals.len(), 1);
        assert_eq!(observer.parameters.len(), 1);
        assert_eq!(observer.gates[0].sample_index, 12);
        assert!(observer.gates[0].triggered);
        assert_eq!(observer.signals[0].module, "slew");
        assert_eq!(observer.signals[0].port, "out");
        assert_eq!(observer.signals[0].value.text, "0.25");
        assert_eq!(observer.parameters[0].parameter, "rise");
        assert_eq!(observer.parameters[0].value.text, "0.1");
    }
}

#[test]
fn console_observer_writes_fired_gates() {
    let observer = ConsoleObserver::new(false);
    assert!(!observer.verbose);
    let fired = GateEvent {
        module: "slew".to_string(),
        gate: "eor".to_string(),
        sample_index: 3,
        triggered: true,
    };
    assert_eq!(observer.gate_line(&fired), Some("[GATE] slew.eor TRIGGERED".to_string()));
    let quiet = GateEvent { triggered: false, ..fired.clone() };
    assert_eq!(observer.gate_line(&quiet), None);
    assert_eq!(observer.cycle_line(5), None);
    assert_eq!(
        ConsoleObserver::new(true).cycle_line(5),
        Some("[CYCLE] Begin cycle 5".to_string())
    );
}

#[test]
fn observers_hear_of_parameters_set_by_lines() {
    let mut engine = zim_dsp::graph_engine::GraphEngine::new();
    let mut manager: ObserverManager<ObservationCollector> = ObserverManager::new();
    manager.add_observer(ObservationCollector::new());
    engine.process_line_observed(&mut manager, "v: vca 0.5").unwrap();
    engine.process_line_observed(&mut manager, "v.gain <- 0.25").unwrap();
    assert!(engine.process_line_observed(&mut manager, "v.nothing <- 1").is_err());
    assert!(engine.process_line_observed(&mut manager, "w.gain <- 1").is_err());
    let heard = &manager.observers[0].parameters;
    assert_eq!(heard.len(), 1);
    assert_eq!(
        (heard[0].module.as_str(), heard[0].parameter.as_str(), heard[0].value.as_str()),
        ("v", "gain", "0.25")
    );
}
