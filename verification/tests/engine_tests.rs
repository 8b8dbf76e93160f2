use zim_dsp::expression::{
    prefix_arithmetic_expression, prefix_module_reference, read_expression,
};
use zim_dsp::graph::ConnectionExpr;
use zim_dsp::graph_engine::{build_module, AudioError, EngineError, GraphEngine};
use zim_dsp::module_loader::{
    ImportError, InterfaceError, LoadError, ModuleLoader, ModuleText,
};
use zim_dsp::modules::ModuleType;
use zim_dsp::node::Node;
use zim_dsp::number::Number;
use zim_dsp::parser::{parse_line, parse_source, split_lines, Command, ModuleTypeRef};

fn num(s: &str) -> Number {
    Number::parse(s).unwrap()
}

fn expr(s: &str) -> Option<ConnectionExpr> {
    read_expression(&s.chars().collect())
}

#[test]
fn source_expressions_are_read() {
    match expr("lfo.sine").unwrap() {
        ConnectionExpr::Direct { module, port } => {
            assert_eq!((module.as_str(), port.as_str()), ("lfo", "sine"));
        }
        _ => panic!("expected a direct source"),
    }
    match expr("lfo.sine * 2000 + 1000").unwrap() {
        ConnectionExpr::Offset { expr, offset } => {
            assert_eq!(offset.as_str(), "1000");
            match *expr {
                ConnectionExpr::Scaled { expr, factor } => {
                    assert_eq!(factor.as_str(), "2000");
                    assert!(matches!(*expr, ConnectionExpr::Direct { .. }));
                }
                _ => panic!("expected a scaling"),
            }
        }
        _ => panic!("expected an offset"),
    }
    match expr("0.5 * osc.saw").unwrap() {
        ConnectionExpr::Scaled { factor, .. } => assert_eq!(factor.as_str(), "0.5"),
        _ => panic!("expected a scaling"),
    }
}

#[test]
fn the_last_operator_binds_first() {
    match expr("lfo.sine + 1 * 2").unwrap() {
        ConnectionExpr::Scaled { expr, factor } => {
            assert_eq!(factor.as_str(), "2");
            assert!(matches!(*expr, ConnectionExpr::Offset { .. }));
        }
        _ => panic!("expected a scaling"),
    }
}

#[test]
fn malformed_expressions_are_refused() {
    assert!(expr("osc").is_none());
    assert!(expr("a.b.c").is_none());
    assert!(expr("osc.sine + lfo.sine").is_none());
    assert!(expr("osc + 1").is_none());
    assert!(expr("osc.sine*2").is_some());
    assert!(expr("").is_none());
}

#[test]
fn references_take_the_name_of_the_instance() {
    assert_eq!(prefix_module_reference("v", "o.sine"), "v_o.sine");
    assert_eq!(prefix_module_reference("v", "gate"), "v_gate");
    assert_eq!(prefix_module_reference("v", "a.b.c"), "v_a.b.c");
    assert_eq!(prefix_module_reference("v", "lfo.sine * 2000 + 1000"), "v_lfo.sine * 2000 + v_1000".replace("v_1000", "1000"));
    assert_eq!(prefix_arithmetic_expression("x", "0.5 * osc.saw + env.out"), "0.5 * x_osc.saw + x_env.out");
    assert_eq!(prefix_arithmetic_expression("x", "a.b - 1"), "x_a.b - 1");
    assert_eq!(prefix_arithmetic_expression("x", "a*b"), "x_a*x_b");
    assert_eq!(prefix_arithmetic_expression("x", ""), "");
    assert_eq!(prefix_arithmetic_expression("x", " + "), " + ");
}

#[test]
fn modules_are_built_from_their_parameters() {
    match build_module(ModuleType::Oscillator, &vec![num("-2"), num("220")]).unwrap() {
        Node::Oscillator(o) => assert_eq!(o.frequency.as_str(), "220"),
        _ => panic!("expected an oscillator"),
    }
    match build_module(ModuleType::Oscillator, &vec![num("330")]).unwrap() {
        Node::Oscillator(o) => assert_eq!(o.frequency.as_str(), "330"),
        _ => panic!("expected an oscillator"),
    }
    match build_module(ModuleType::Oscillator, &vec![num("-1")]).unwrap() {
        Node::Oscillator(o) => assert_eq!(o.frequency.as_str(), "440"),
        _ => panic!("expected an oscillator"),
    }
    match build_module(ModuleType::Filter, &vec![]).unwrap() {
        Node::Filter(f) => {
            assert_eq!(f.cutoff.as_str(), "1000");
            assert_eq!(f.resonance.as_str(), "0.5");
        }
        _ => panic!("expected a filter"),
    }
    match build_module(ModuleType::Slew, &vec![num("0.2")]).unwrap() {
        Node::Slew(s) => {
            assert_eq!(s.rise_time.as_str(), "0.2");
            assert_eq!(s.fall_time.as_str(), "0.2");
        }
        _ => panic!("expected a slew generator"),
    }
    match build_module(ModuleType::Mixer, &vec![num("3")]).unwrap() {
        Node::Mixer(m) => assert_eq!(m.input_count, 3),
        _ => panic!("expected a mixer"),
    }
    match build_module(ModuleType::Switch, &vec![]).unwrap() {
        Node::Switch(s) => assert_eq!(s.input_count, 4),
        _ => panic!("expected a switch"),
    }
    match build_module(ModuleType::ClockDiv, &vec![num("0")]).unwrap() {
        Node::ClockDiv(c) => assert_eq!(c.division, 1),
        _ => panic!("expected a clock divider"),
    }
    assert!(build_module(ModuleType::Output, &vec![]).is_none());
}

#[test]
fn oscillator_only_patch_gets_a_stereo_output() {
    let mut engine = GraphEngine::new();
    engine.load_patch("osc: osc sine 440\nout <- osc.sine\n").unwrap();
    assert_eq!(engine.list_modules(), vec!["osc", "_output"]);
    assert!(engine.has_stereo_output);
    assert_eq!(engine.output_node(), Some("_output".to_string()));
    assert!(engine.validate_connections().is_empty());
    let connection = &engine.graph.list_connections()[0];
    assert_eq!(connection.to_module, "_output");
    assert_eq!(connection.to_port, "mono");
}

#[test]
fn stereo_sides_are_recorded() {
    let mut engine = GraphEngine::new();
    engine.process_line("a: osc 220").unwrap();
    engine.process_line("out.left <- a.sine").unwrap();
    match engine.graph.get_module("_output") {
        Some(Node::StereoOutput(out)) => {
            assert!(out.left_connected);
            assert!(!out.right_connected);
        }
        _ => panic!("expected the stereo output"),
    }
    engine.process_line("out.right <- a.saw").unwrap();
    match engine.graph.get_module("_output") {
        Some(Node::StereoOutput(out)) => assert!(out.left_connected && out.right_connected),
        _ => panic!("expected the stereo output"),
    }
    assert_eq!(engine.list_modules(), vec!["a", "_output"]);
}

#[test]
fn lines_report_what_they_did() {
    let mut engine = GraphEngine::new();
    assert_eq!(engine.process_line("vco: osc saw 220").unwrap(), "Created module: vco");
    assert_eq!(engine.process_line("vcf: filter 1000 0.5").unwrap(), "Created module: vcf");
    assert_eq!(
        engine.process_line("vcf.audio <- vco.saw").unwrap(),
        "Connected: vcf.audio <- vco.saw"
    );
    assert_eq!(engine.process_line("vcf <- vco.saw").unwrap(), "Connected: vcf.audio <- vco.saw");
    assert_eq!(engine.process_line("vcf.cutoff <- 800").unwrap(), "Set vcf.cutoff = 800");
    assert_eq!(
        engine.graph.get_module("vcf").unwrap().get_param("cutoff").unwrap().as_str(),
        "800"
    );
    assert_eq!(engine.process_line("patchbay:").unwrap(), "Defined patchbay with 0 ports");
}

#[test]
fn each_engine_error_has_its_line() {
    let mut engine = GraphEngine::new();
    assert!(matches!(
        engine.process_line("hello").unwrap_err(),
        EngineError::Unrecognized { .. }
    ));
    assert!(matches!(
        engine.process_line("o: output").unwrap_err(),
        EngineError::NotImplemented { module_type: ModuleType::Output }
    ));
    assert!(matches!(
        engine.process_line("x.freq <- 3").unwrap_err(),
        EngineError::Graph { .. }
    ));
    assert!(matches!(
        engine.process_line("a.b.c <- x.y").unwrap_err(),
        EngineError::InvalidDestination
    ));
    assert!(matches!(
        engine.process_line("a.b <- x").unwrap_err(),
        EngineError::InvalidExpression { .. }
    ));
    assert!(matches!(
        engine.process_line("v: voice").unwrap_err(),
        EngineError::ImportNotFound { .. }
    ));
    assert!(matches!(
        engine.process_line("import no_such_module_anywhere").unwrap_err(),
        EngineError::Load { .. }
    ));
    match engine.load_patch("a: osc\nb: output\nc: osc").unwrap_err() {
        EngineError::Line { line, cause } => {
            assert_eq!(line, "b: output");
            assert!(matches!(*cause, EngineError::NotImplemented { .. }));
        }
        _ => panic!("expected the failing line"),
    }
    assert_eq!(engine.list_modules(), vec!["a"]);
}

#[test]
fn imported_sub_patch_is_instantiated_under_its_name() {
    let mut engine = GraphEngine::new();
    engine.module_loader.install(
        "voice",
        "voice.zim".to_string(),
        "o: osc sine 440\ne: env 0.01 0.2\ne.gate <- o.square * 0.5 + 0.5\ne.attack <- 0.05\npatchbay:\n  out: port 1\n".to_string(),
    );
    assert_eq!(
        engine.process_line("import voice").unwrap(),
        "Imported module 'voice' as 'voice' with 2 internal modules"
    );
    assert_eq!(
        engine.process_line("v: voice").unwrap(),
        "Created imported module 'v' with 2 internal modules"
    );
    engine.process_line("out <- v_o.sine").unwrap();
    let modules = engine.list_modules();
    assert!(modules.contains(&"v_o".to_string()));
    assert!(!modules.contains(&"o".to_string()));
    assert_eq!(modules, vec!["v_o", "v_e", "_output"]);
    assert!(engine.validate_connections().is_empty());
    assert_eq!(engine.graph.list_connections()[0].to_module, "v_e");
    assert_eq!(
        engine.graph.get_module("v_e").unwrap().get_param("attack").unwrap().as_str(),
        "0.05"
    );
    engine.process_line("w: voice").unwrap();
    assert_eq!(engine.list_modules(), vec!["v_o", "v_e", "_output", "w_o", "w_e"]);
}

#[test]
fn an_alias_names_the_imported_sub_patch() {
    let mut engine = GraphEngine::new();
    engine.module_loader.install("lib:voice", "lib/voice.zim".to_string(), "o: osc 110\n".to_string());
    engine.process_line("import lib:voice as vx").unwrap();
    engine.process_line("a: vx").unwrap();
    assert_eq!(engine.list_modules(), vec!["a_o"]);
}

#[test]
fn nested_imports_are_refused() {
    let mut engine = GraphEngine::new();
    engine.module_loader.install("outer", "outer.zim".to_string(), "a: osc\nimport inner\nb: osc\n".to_string());
    engine.module_loader.install("deep", "deep.zim".to_string(), "a: osc\nb: some_import\n".to_string());
    engine.process_line("import outer").unwrap();
    engine.process_line("import deep").unwrap();
    assert!(matches!(engine.process_line("x: outer").unwrap_err(), EngineError::NestedImport { .. }));
    assert!(matches!(engine.process_line("y: deep").unwrap_err(), EngineError::NestedModule { .. }));
    assert_eq!(engine.list_modules(), vec!["x_a", "y_a"]);
}

#[test]
fn embedded_sub_patch_loads_without_a_file() {
    let mut engine = GraphEngine::new();
    engine.process_line("import stdlib:uncertainty as chance").unwrap();
    engine.process_line("c: chance").unwrap();
    assert!(engine.list_modules().contains(&"c_clock".to_string()));
    assert!(engine.list_modules().iter().all(|n| n.starts_with("c_")));
    assert!(engine.validate_connections().is_empty());
}

#[test]
fn clearing_empties_the_engine() {
    let mut engine = GraphEngine::new();
    engine.load_patch("osc: osc\nout <- osc.sine").unwrap();
    engine.start(Ok(48000)).unwrap();
    assert!(engine.is_running);
    assert_eq!(engine.sample_rate, 48000);
    engine.clear_patch();
    assert!(!engine.is_running);
    assert!(engine.list_modules().is_empty());
    assert!(!engine.has_stereo_output);
    assert_eq!(engine.output_node(), None);
}

#[test]
fn start_fails_without_a_device() {
    let mut engine = GraphEngine::new();
    let err = engine.start(Err(AudioError::NoOutputDevice)).unwrap_err();
    assert!(matches!(err, EngineError::Audio { fault: AudioError::NoOutputDevice }));
    assert!(!engine.is_running);
    engine.start(Ok(44100)).unwrap();
    engine.start(Err(AudioError::UnsupportedSampleFormat)).unwrap();
    assert!(engine.is_running);
    engine.stop();
    assert!(!engine.is_running);
}

#[test]
fn module_types_can_be_inspected() {
    let info = GraphEngine::inspect_module_type("vcf").unwrap();
    assert_eq!(info.name, "vcf");
    assert_eq!(info.outputs.len(), 2);
    let info = GraphEngine::inspect_module_type("mixer").unwrap();
    assert_eq!(info.inputs.len(), 9);
    assert!(GraphEngine::inspect_module_type("out").is_none());
    assert!(GraphEngine::inspect_module_type("sh").is_none());
    assert!(GraphEngine::inspect_module_type("nothing").is_none());
}

#[test]
fn blocks_are_planned_for_tests() {
    let mut engine = GraphEngine::new();
    engine.load_patch("g: gate manual\ne: envelope 0.01 0.1\ne.gate <- g.gate\nout <- e.out").unwrap();
    assert_eq!(engine.activate_manual_gates(), 1);
    let plan = engine.process_for_test(64);
    assert_eq!(plan.steps.len(), 5);
    assert_eq!(plan.sample_step, 1);
    assert_eq!(engine.release_manual_gates(), 1);
}

#[test]
fn text_is_split_into_lines() {
    let lines = |s: &str| -> Vec<String> {
        split_lines(&s.chars().collect()).into_iter().map(|l| l.into_iter().collect()).collect()
    };
    for text in ["", "a", "a\n", "a\nb", "a\r\nb\r\n", "\n\n", "a\r", "\r\n", "a\n\rb", "a\r\r\n"] {
        let expected: Vec<String> = text.lines().map(|l| l.to_string()).collect();
        assert_eq!(lines(text), expected, "{text:?}");
    }
    assert_eq!(parse_source("a: osc\n\n# c\nb: lfo 2\n").len(), 2);
}

#[test]
fn loader_keeps_what_it_loaded() {
    let mut loader = ModuleLoader::new();
    assert!(loader.get_cached_module("voice").is_none());
    let loaded = loader.install("voice", "voice.zim".to_string(), "patchbay:\n  out: port 1\no: osc\n".to_string());
    assert_eq!(loaded.path, "voice");
    assert_eq!(loaded.commands.len(), 2);
    assert_eq!(loaded.patchbay.as_ref().unwrap().ports.len(), 1);
    assert!(loader.module_exists("voice"));
    let again = loader.load_module("voice").unwrap();
    assert_eq!(again.content, loaded.content);
    assert!(loader.validate_module_interface(&again).is_ok());
    loader.clear_cache();
    assert!(loader.get_cached_module("voice").is_none());
    assert!(matches!(loader.load_module("voice").unwrap_err(), LoadError::NotFound { .. }));
    assert!(matches!(
        loader.load_module("stdlib:nothing").unwrap_err(),
        LoadError::NotEmbedded { .. }
    ));
}

#[test]
fn patchbay_faults_are_told_apart() {
    let mut loader = ModuleLoader::new();
    let none = loader.install("a", "a.zim".to_string(), "o: osc\n".to_string());
    assert!(matches!(
        loader.validate_module_interface(&none).unwrap_err(),
        InterfaceError::NoPatchbay { .. }
    ));
    let empty = loader.install("b", "b.zim".to_string(), "patchbay:\no: osc\n".to_string());
    assert!(matches!(
        loader.validate_module_interface(&empty).unwrap_err(),
        InterfaceError::EmptyPatchbay { .. }
    ));
    let number = loader.install("c", "c.zim".to_string(), "patchbay:\n  a: port 1\n  b: port 2\n  c: port 1\n".to_string());
    assert!(matches!(
        loader.validate_module_interface(&number).unwrap_err(),
        InterfaceError::DuplicatePortNumber { number: 1, .. }
    ));
    let name = loader.install("d", "d.zim".to_string(), "patchbay:\n  a: port 1\n  b: port 2\n  a: port 3\n".to_string());
    match loader.validate_module_interface(&name).unwrap_err() {
        InterfaceError::DuplicatePortName { name, .. } => assert_eq!(name, "a"),
        _ => panic!("expected a repeated name"),
    }
}

#[test]
fn test_import_processing() {
    let mut loader = ModuleLoader::new();
    let commands = vec![parse_line("import test_module").unwrap()];
    assert!(matches!(commands[0], Command::Import { .. }));
    let result = loader.process_imports(&commands);
    assert!(result.is_err());
}

#[test]
fn test_module_caching() {
    let mut loader = ModuleLoader::new();
    loader.install("modules:test_voice", "modules/test_voice.zim".to_string(), "o: osc\n".to_string());
    if loader.module_exists("modules:test_voice") {
        let first_load = loader.load_module("modules:test_voice").unwrap();
        let second_load = loader.load_module("modules:test_voice").unwrap();
        assert_eq!(first_load.path, second_load.path);
        assert_eq!(first_load.content, second_load.content);
    }
}

#[test]
fn test_module_loading() {
    let test_modules_dir = std::path::PathBuf::from("examples/modules");
    if !test_modules_dir.exists() {
        return;
    }

    let mut loader = ModuleLoader::from_patch_file("examples/test.zim");

    match loader.load_module("modules:test_voice") {
        Ok(loaded_module) => {
            assert_eq!(loaded_module.path, "modules:test_voice");
            assert!(std::path::Path::new(&loaded_module.file_path).exists());
            assert!(!loaded_module.content.is_empty());

            assert!(loaded_module.patchbay.is_some());
            let patchbay = loaded_module.patchbay.as_ref().unwrap();
            assert_eq!(patchbay.ports.len(), 4);

            assert!(loader.validate_module_interface(&loaded_module).is_ok());
        }
        Err(e) => {
            println!("Test module not found: {}", e.message());
        }
    }
}

#[test]
fn imports_of_a_patch_are_loaded_in_order() {
    let mut loader = ModuleLoader::new();
    loader.install("b", "b.zim".to_string(), "patchbay:\n  out: port 1\n".to_string());
    loader.install("a", "a.zim".to_string(), "patchbay:\n  in: port 1\n  out: port 2\n".to_string());
    let commands = parse_source("import a\nx: osc\nimport b as bee\nimport a\n");
    let loaded = loader.process_imports(&commands).unwrap();
    let paths: Vec<&str> = loaded.iter().map(|m| m.path.as_str()).collect();
    assert_eq!(paths, vec!["a", "b", "a"]);
    loader.install("c", "c.zim".to_string(), "o: osc\n".to_string());
    let failing = parse_source("import a\nimport c\n");
    assert!(loader.process_imports(&failing).is_err());
}

#[test]
fn the_first_import_that_fails_gives_the_error() {
    let mut loader = ModuleLoader::new();
    loader.install("good", "good.zim".to_string(), "patchbay:\n  out: port 1\n".to_string());
    loader.install("bare", "bare.zim".to_string(), "o: osc\n".to_string());

    let missing = parse_source("import good\nimport surely_not_a_sub_patch\nimport bare\n");
    match loader.process_imports(&missing).unwrap_err() {
        ImportError::Load { failure: LoadError::NotFound { missing } } => {
            assert_eq!(missing.path, "surely_not_a_sub_patch");
        }
        other => panic!("unexpected error: {}", other.message()),
    }

    let unknown = parse_source("import good\nimport stdlib:nothing\nimport bare\n");
    match loader.process_imports(&unknown).unwrap_err() {
        ImportError::Load { failure: LoadError::NotEmbedded { unknown } } => {
            assert_eq!(unknown.name, "nothing");
        }
        other => panic!("unexpected error: {}", other.message()),
    }

    let faulty = parse_source("import good\nimport bare\nimport stdlib:nothing\n");
    match loader.process_imports(&faulty).unwrap_err() {
        ImportError::Interface { fault: InterfaceError::NoPatchbay { path } } => {
            assert_eq!(path, "bare");
        }
        other => panic!("unexpected error: {}", other.message()),
    }
}

#[test]
fn an_embedded_sub_patch_is_imported_and_kept() {
    let mut loader = ModuleLoader::from_patch_file("/work/patch.zim");
    assert_eq!(loader.resolver.search_paths.current_file_dir.as_deref(), Some("/work"));
    assert!(loader.cache.is_empty());
    assert!(loader.module_exists("stdlib:uncertainty"));
    assert!(!loader.module_exists("stdlib:nothing"));
    assert!(loader.get_cached_module("stdlib:uncertainty").is_none());

    let commands = parse_source("x: osc\nimport stdlib:uncertainty as chance\n");
    let loaded = loader.process_imports(&commands).unwrap();
    assert_eq!(loaded.len(), 1);
    assert_eq!(loaded[0].path, "stdlib:uncertainty");
    assert_eq!(loaded[0].file_path, "<embedded>/stdlib:uncertainty");
    assert_eq!(
        loaded[0].content,
        loader.resolver.embedded_stdlib.get_module("uncertainty").unwrap()
    );
    let kept = loader.get_cached_module("stdlib:uncertainty").unwrap();
    assert_eq!(kept.content, loaded[0].content);

    let engine = GraphEngine::from_patch_file("/work/patch.zim");
    assert_eq!(
        engine.module_loader.resolver.search_paths.current_file_dir.as_deref(),
        Some("/work")
    );
    assert!(engine.module_loader.cache.is_empty());
    assert!(engine.output_module.is_none());
}

#[test]
fn the_plan_of_a_block_fills_every_input() {
    let mut engine = GraphEngine::new();
    engine.process_line("o: osc 440").unwrap();
    engine.process_line("v: vca 0.5").unwrap();
    let plan = engine.process_for_test(48);
    let fills: Vec<(usize, &str, usize, &str)> = plan
        .fills
        .iter()
        .map(|f| (f.module, f.port.as_str(), f.length, f.value.text.as_str()))
        .collect();
    let osc = engine.graph.modules[0].node.inputs();
    let vca = engine.graph.modules[1].node.inputs();
    assert_eq!(fills.len(), osc.len() + vca.len());
    for (i, port) in osc.iter().enumerate() {
        assert_eq!(fills[i], (0, port.name.as_str(), 48, port.default_value.text.as_str()));
    }
    assert_eq!(
        &fills[osc.len()..],
        &[(1, "audio", 48, "0"), (1, "cv", 48, "0"), (1, "cv2", 48, "1")]
    );
}

#[test]
fn a_patch_is_loaded_with_the_texts_of_its_imports() {
    let voice = ModuleText {
        path: "voice".to_string(),
        file_path: "voice.zim".to_string(),
        content: "o: osc sine 440\npatchbay:\n  out: port 1\n".to_string(),
    };
    let patch = "import voice\nv: voice\nout <- v_o.sine";
    assert_eq!(GraphEngine::imports_of(patch), vec!["voice"]);
    assert_eq!(
        GraphEngine::imports_of("# import a\n  import b as c  \nx: osc\nimport stdlib:uncertainty\n"),
        vec!["b", "stdlib:uncertainty"]
    );

    let mut engine = GraphEngine::new();
    engine.load_patch_with(patch, &vec![voice]).unwrap();
    let modules = engine.list_modules();
    assert!(modules.contains(&"v_o".to_string()));
    assert!(!modules.contains(&"o".to_string()));
    assert!(modules.contains(&"_output".to_string()));
    assert!(engine.validate_connections().is_empty());

    match engine.load_patch(patch).unwrap_err() {
        EngineError::Line { line, cause } => {
            assert_eq!(line, "import voice");
            assert!(matches!(*cause, EngineError::Load { .. }));
        }
        other => panic!("unexpected error: {}", other.message()),
    }
    assert!(engine.list_modules().is_empty());
    assert!(engine.module_loader.get_cached_module("voice").is_none());

    engine.load_patch("import stdlib:uncertainty as chance\nc: chance\n").unwrap();
    assert!(engine.list_modules().contains(&"c_clock".to_string()));
}

#[test]
fn later_connections_to_out_add_no_module() {
    let mut engine = GraphEngine::new();
    engine.process_line("a: osc 440").unwrap();
    engine.process_line("out <- a.sine").unwrap();
    assert_eq!(engine.list_modules(), vec!["a", "_output"]);
    engine.process_line("out.left <- a.saw").unwrap();
    engine.process_line("out <- a.sine").unwrap();
    assert_eq!(engine.list_modules(), vec!["a", "_output"]);
    assert_eq!(engine.graph.connections.len(), 3);
    match engine.graph.get_module("_output") {
        Some(Node::StereoOutput(out)) => assert!(out.left_connected && !out.right_connected),
        _ => panic!("no stereo output"),
    }
    match engine.graph.get_module("a") {
        Some(Node::Oscillator(osc)) => assert_eq!(osc.frequency.text, "440"),
        _ => panic!("no oscillator"),
    }
}

#[test]
fn a_declared_stereo_output_reads_back() {
    let command = parse_line("x: stereo_out").unwrap();
    match &command {
        Command::CreateModule { name, module_type, params } => {
            assert_eq!(name, "x");
            assert!(matches!(module_type, ModuleTypeRef::BuiltIn(ModuleType::StereoOutput)));
            assert!(params.is_empty());
        }
        _ => panic!("no declaration"),
    }
    assert_eq!(command.to_line(), "x: stereo_out");
}

#[test]
fn a_failed_line_says_which_text_it_wants() {
    let mut engine = GraphEngine::new();
    let failed = EngineError::Load {
        failure: LoadError::FileNeeded { file_path: "lib/voice.zim".to_string() },
    };
    let wanted = engine.text_wanted("import lib:voice as v", &failed).unwrap();
    assert_eq!((wanted.path.as_str(), wanted.file_path.as_str()), ("lib:voice", "lib/voice.zim"));
    let in_a_patch = EngineError::Line { line: "import lib:voice".to_string(), cause: Box::new(failed) };
    assert_eq!(in_a_patch.needed_file().as_deref(), Some("lib/voice.zim"));
    assert!(engine.text_wanted("x: osc 440", &in_a_patch).is_none());
    assert!(engine.text_wanted("x: voice", &in_a_patch).is_none());
    assert!(engine.text_wanted("import lib:voice", &EngineError::InvalidDestination).is_none());

    engine.module_loader.install("lib:voice", "lib/voice.zim".to_string(), "o: osc 110\n".to_string());
    engine.process_line("import lib:voice as voice").unwrap();
    engine.module_loader.clear_cache();
    let wanted = engine.text_wanted("x: voice", &in_a_patch).unwrap();
    assert_eq!((wanted.path.as_str(), wanted.file_path.as_str()), ("lib:voice", "lib/voice.zim"));
}

#[test]
fn ports_are_described_in_full() {
    let mut engine = GraphEngine::new();
    engine.process_line("m: mix 2").unwrap();
    let info = engine.inspect_module("m").unwrap();
    let inputs: Vec<(&str, &str, &str)> = info
        .inputs
        .iter()
        .map(|p| (p.name.as_str(), p.default_value.as_str(), p.description.as_str()))
        .collect();
    assert_eq!(
        inputs,
        vec![
            ("in1", "0", "Audio input 1"),
            ("in2", "0", "Audio input 2"),
            ("level1", "1", "Level control for input 1"),
            ("level2", "1", "Level control for input 2"),
            ("master", "1", "Master level control"),
        ]
    );
    let slew = GraphEngine::inspect_module_type("slew").unwrap();
    let outputs: Vec<(&str, &str, &str)> = slew
        .outputs
        .iter()
        .map(|p| (p.name.as_str(), p.default_value.as_str(), p.description.as_str()))
        .collect();
    assert_eq!(
        outputs,
        vec![
            ("out", "0", "Smoothed output signal"),
            ("eor", "0", "End-of-rise gate (fires when reaching target while rising)"),
            ("eoc", "0", "End-of-cycle gate (fires when reaching target while falling)"),
        ]
    );
}

#[test]
fn gate_levels_are_kept_apart() {
    let mut engine = GraphEngine::new();
    engine.process_line("a: slew 0.1 0.1").unwrap();
    assert_eq!(engine.graph.observe_gate_block("a", "eor", &vec![false, true, true]), vec![1]);
    assert_eq!(engine.graph.observe_gate_block("a", "eoc", &vec![true, false]), vec![0]);
    engine.process_for_test(4);
    engine.activate_manual_gates();
    assert_eq!(engine.graph.observe_gate_block("a", "eor", &vec![true, false, true]), vec![2]);
    assert_eq!(engine.graph.observe_gate_block("a", "eoc", &vec![true]), vec![0]);
}

#[test]
fn modules_test_their_validity() {
    let mut engine = GraphEngine::new();
    engine.process_line("s: seq8").unwrap();
    engine.process_line("c: clockdiv 4").unwrap();
    for entry in &engine.graph.modules {
        assert!(entry.node.is_valid());
    }
    match engine.graph.get_module_mut("s") {
        Some(Node::Seq8(seq)) => {
            seq.sequence_length = 0;
            assert!(!seq.is_valid());
            seq.sequence_length = 8;
            seq.steps.pop();
            assert!(!seq.is_valid());
        }
        _ => panic!("no sequencer"),
    }
    match engine.graph.get_module_mut("c") {
        Some(Node::ClockDiv(divider)) => {
            divider.counter = 4;
            assert!(!divider.is_valid());
        }
        _ => panic!("no divider"),
    }
    assert!(!Number { text: "1.2.3".to_string() }.is_valid());
    assert!(Number { text: "-1.5e3".to_string() }.is_valid());
}
