use zim_dsp::graph_modules::{
    GraphMonoMixer, GraphNoiseGen, GraphOscillator, GraphVisual, Level, ParamError,
};
use zim_dsp::number::Number;
use zim_dsp::sequencing::{GraphClockDiv, GraphSeq8, GraphSwitch};
use zim_dsp::shaping::{
    EnvelopeLevel, EnvelopePhase, EnvelopeShape, GraphEnvelope, GraphSlewGen,
};
use zim_dsp::graph_modules::SlewCurve;

fn num(s: &str) -> Number {
    Number::parse(s).unwrap()
}

#[test]
fn oscillator_parameter_names() {
    let mut osc = GraphOscillator::new(num("440"));
    assert!(osc.set_param("freq", &num("220")).is_ok());
    assert_eq!(osc.get_param("frequency").unwrap().as_str(), "220");
    let err = osc.set_param("gain", &num("1")).unwrap_err();
    assert!(matches!(err, ParamError::Unknown { .. }));
    assert_eq!(err.message(), "Unknown parameter: gain");
    assert!(osc.get_param("gain").is_none());
}

#[test]
fn noise_follows_the_linear_congruence() {
    let mut noise = GraphNoiseGen::new();
    let first = noise.next_random();
    assert_eq!(first, 12345u32.wrapping_mul(1664525).wrapping_add(1013904223));
    let second = noise.next_random();
    assert_eq!(second, first.wrapping_mul(1664525).wrapping_add(1013904223));
    noise.set_param("seed", &num("7")).unwrap();
    assert_eq!(noise.rng_state, 7);
    noise.set_param("seed", &num("1e30")).unwrap();
    assert_eq!(noise.rng_state, u32::MAX);
    assert_eq!(noise.get_param("seed").unwrap().as_str(), "4294967295");
}

#[test]
fn mixer_levels_are_named_by_index() {
    let mut mixer = GraphMonoMixer::new(3);
    assert_eq!(mixer.levels.len(), 3);
    mixer.set_param("level2", &num("0.5")).unwrap();
    assert_eq!(mixer.get_param("level2").unwrap().as_str(), "0.5");
    assert_eq!(mixer.get_param("level1").unwrap().as_str(), "1");
    mixer.set_param("master", &num("0.8")).unwrap();
    assert_eq!(mixer.get_param("master").unwrap().as_str(), "0.8");
    let bad = mixer.set_param("level4", &num("1")).unwrap_err();
    assert_eq!(bad.message(), "Invalid level index: 4");
    let zero = mixer.set_param("level0", &num("1")).unwrap_err();
    assert!(matches!(zero, ParamError::InvalidLevelIndex { index: 0 }));
    let none = mixer.set_param("level", &num("1")).unwrap_err();
    assert_eq!(none.message(), "Invalid level parameter: level");
    let unknown = mixer.set_param("pan", &num("1")).unwrap_err();
    assert_eq!(unknown.message(), "Unknown parameter: pan");
    assert_eq!(GraphMonoMixer::new_4input().input_count, 4);
}

#[test]
fn visual_writes_on_change_and_at_intervals() {
    let mut visual = GraphVisual::new();
    assert!(visual.tick(false));
    assert!(!visual.tick(false));
    assert!(visual.tick(true));
    visual.sample_count = 4410;
    assert!(visual.tick(false));
    assert_eq!(visual.sample_count, 4411);
    assert_eq!(visual.set_param("x", &num("1")).unwrap_err().message(), "Visual module has no parameters");
}

#[test]
fn switch_advances_on_clock_edges() {
    let mut switch = GraphSwitch::new(3);
    assert_eq!(GraphSwitch::new(1).input_count, 2);
    assert_eq!(GraphSwitch::new(12).input_count, 8);
    let out = switch.step(Level::High, false);
    assert_eq!((out.selected, out.gate), (1, true));
    let out = switch.step(Level::High, false);
    assert_eq!((out.selected, out.gate), (1, false));
    switch.step(Level::Low, false);
    let out = switch.step(Level::High, false);
    assert_eq!(out.selected, 2);
    switch.step(Level::Low, false);
    let out = switch.step(Level::High, false);
    assert_eq!(out.selected, 0);
    assert_eq!(switch.switch_count, 3);
    switch.step(Level::Low, false);
    switch.step(Level::High, false);
    let out = switch.step(Level::High, true);
    assert_eq!(out.selected, 0);
    switch.step(Level::Undefined, false);
    let out = switch.step(Level::High, false);
    assert!(!out.gate);
    switch.set_param("inputs", &num("2")).unwrap();
    assert_eq!(switch.get_param("inputs").unwrap().as_str(), "2");
    assert_eq!(switch.get_param("current").unwrap().as_str(), "1");
}

#[test]
fn clock_divider_toggles_every_nth_edge() {
    let mut div = GraphClockDiv::new(2);
    assert_eq!(GraphClockDiv::new(0).division, 1);
    let mut outs = Vec::new();
    let mut gates = Vec::new();
    for i in 0..8 {
        let level = if i % 2 == 0 { Level::High } else { Level::Low };
        let o = div.step(level, false);
        outs.push(o.out);
        gates.push(o.gate);
    }
    assert_eq!(outs, vec![false, false, true, true, true, true, false, false]);
    assert_eq!(gates, vec![false, false, true, false, false, false, true, false]);
    let o = div.step(Level::Low, true);
    assert!(!o.out);
    assert_eq!(div.counter, 0);
    div.set_param("div", &num("3")).unwrap();
    assert_eq!(div.get_param("division").unwrap().as_str(), "3");
}

#[test]
fn sequencer_steps_round_its_length() {
    let mut seq = GraphSeq8::new();
    let all = vec![true; 8];
    assert_eq!(seq.get_param("step3").unwrap().as_str(), "0.2");
    let o = seq.step(Level::Low, false, Level::Low, 10, &all);
    assert_eq!((o.step, o.gate), (0, true));
    let mut steps = Vec::new();
    for _ in 0..9 {
        let o = seq.step(Level::High, false, Level::Low, 10, &all);
        steps.push(o.step);
        seq.step(Level::Low, false, Level::Low, 10, &all);
    }
    assert_eq!(steps, vec![1, 2, 3, 4, 5, 6, 7, 0, 1]);
    seq.set_param("length", &num("3")).unwrap();
    let o = seq.step(Level::High, false, Level::Low, 10, &all);
    assert_eq!(o.step, 2);
    seq.step(Level::Low, false, Level::Low, 10, &all);
    let o = seq.step(Level::High, false, Level::Low, 10, &all);
    assert_eq!(o.step, 0);
    seq.step(Level::Low, false, Level::Low, 10, &all);
    let o = seq.step(Level::High, false, Level::High, 10, &all);
    assert_eq!(o.step, 2);
    let o = seq.step(Level::Low, true, Level::Low, 10, &all);
    assert_eq!(o.step, 0);
    assert!(seq.forward_direction);
}

#[test]
fn sequencer_gate_lasts_for_its_length() {
    let mut seq = GraphSeq8::new();
    let mut enables = vec![true; 8];
    let o = seq.step(Level::High, false, Level::Low, 2, &enables);
    assert!(o.gate);
    let o = seq.step(Level::High, false, Level::Low, 2, &enables);
    assert!(o.gate);
    let o = seq.step(Level::High, false, Level::Low, 2, &enables);
    assert!(!o.gate);
    enables[2] = false;
    seq.step(Level::Low, false, Level::Low, 2, &enables);
    let o = seq.step(Level::High, false, Level::Low, 2, &enables);
    assert_eq!((o.step, o.gate), (2, false));
    seq.set_param("gate2", &num("0")).unwrap();
    assert_eq!(seq.get_param("gate2").unwrap().as_str(), "0");
    let connected = vec![None, Some(true), None, None, None, None, None, Some(false)];
    let enabled = seq.gate_enables(&connected);
    assert_eq!(enabled, vec![true, true, true, true, true, true, true, false]);
    assert!(seq.set_param("gate9", &num("1")).is_err());
    assert!(seq.set_param("step0", &num("1")).is_err());
    seq.set_param("gate_length", &num("0.25")).unwrap();
    assert_eq!(seq.get_param("gate_length").unwrap().as_str(), "0.25");
    seq.set_param("gate_length", &num("0.0001")).unwrap();
    assert_eq!(seq.get_param("gate_length").unwrap().as_str(), "0.001");
}

#[test]
fn slew_gates_are_high_at_rest() {
    let mut slew = GraphSlewGen::new(num("0.01"), num("0.01"));
    let g = slew.step(true, true, false);
    assert_eq!((g.eor, g.eoc), (false, true));
    assert!(slew.is_rising && !slew.reached_target);
    let g = slew.step(true, true, true);
    assert_eq!((g.eor, g.eoc), (true, true));
    assert!(slew.reached_target);
    let g = slew.step(true, false, false);
    assert_eq!((g.eor, g.eoc), (true, false));
    let g = slew.step(true, false, true);
    assert_eq!((g.eor, g.eoc), (true, true));
    for _ in 0..3 {
        let g = slew.step(false, false, false);
        assert_eq!((g.eor, g.eoc), (true, true));
        assert!(slew.reached_target && !slew.is_rising && !slew.is_falling);
    }
    slew.set_param("curve", &num("2")).unwrap();
    assert_eq!(slew.curve_type, SlewCurve::Logarithmic);
    slew.set_param("curve", &num("9")).unwrap();
    assert_eq!(slew.curve_type, SlewCurve::Linear);
    assert_eq!(slew.get_param("curve").unwrap().as_str(), "0");
}

#[test]
fn envelope_runs_through_attack_and_decay() {
    let mut env = GraphEnvelope::new(num("0.01"), num("0.1"));
    let s = env.step(false, false, false);
    assert_eq!(s.level, EnvelopeLevel::Zero);
    let s = env.step(true, false, false);
    assert_eq!(s.level, EnvelopeLevel::Rising(EnvelopeShape::Linear));
    assert_eq!(env.phase, EnvelopePhase::Attack);
    assert!(!s.restart);
    let s = env.step(false, true, false);
    assert_eq!(env.phase, EnvelopePhase::Decay);
    assert!(s.restart);
    let s = env.step(false, true, false);
    assert_eq!(s.level, EnvelopeLevel::Falling(EnvelopeShape::Linear));
    env.step(false, true, true);
    assert_eq!(env.phase, EnvelopePhase::Idle);
}

#[test]
fn envelope_with_zero_times_skips_its_stages() {
    let mut env = GraphEnvelope::new(num("0"), num("0.1"));
    let s = env.step(true, false, false);
    assert_eq!(s.level, EnvelopeLevel::One);
    assert_eq!(env.phase, EnvelopePhase::Decay);
    let mut env = GraphEnvelope::new(num("0.01"), num("0"));
    env.step(true, false, false);
    env.step(false, true, false);
    assert_eq!(env.phase, EnvelopePhase::Decay);
    let s = env.step(false, false, false);
    assert_eq!(s.level, EnvelopeLevel::Zero);
    assert_eq!(env.phase, EnvelopePhase::Idle);
}

#[test]
fn envelope_shapes_are_set_by_code() {
    let mut env = GraphEnvelope::new(num("0.01"), num("0.1"));
    env.set_param("attack_shape", &num("1")).unwrap();
    assert_eq!(env.attack_shape, EnvelopeShape::Exponential);
    env.set_param("decay_shape", &num("2")).unwrap();
    assert_eq!(env.decay_shape, EnvelopeShape::Logarithmic);
    let err = env.set_param("attack_shape", &num("3")).unwrap_err();
    assert_eq!(err.message(), "Invalid attack shape: 3 (0=linear, 1=exp, 2=log)");
    assert!(env.set_param("decay_shape", &num("-1")).is_err());
    env.set_param("decay_shape", &num("-0.5")).unwrap();
    assert_eq!(env.decay_shape, EnvelopeShape::Linear);
    assert_eq!(env.get_param("attack_shape").unwrap().as_str(), "1");
}

#[test]
fn slew_times_are_one_thousandth_at_least() {
    let mut slew = GraphSlewGen::new(num("0.01"), num("0.01"));
    slew.set_param("rise", &num("0")).unwrap();
    slew.set_param("fall", &num("-2")).unwrap();
    assert_eq!(slew.get_param("rise").unwrap().as_str(), "0.001");
    assert_eq!(slew.get_param("fall").unwrap().as_str(), "0.001");
    slew.set_param("rise", &num("0.002")).unwrap();
    slew.set_param("fall", &num("3")).unwrap();
    assert_eq!(slew.get_param("rise").unwrap().as_str(), "0.002");
    assert_eq!(slew.get_param("fall").unwrap().as_str(), "3");
}
