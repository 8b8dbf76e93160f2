use zim_dsp::modules::ModuleType;
use zim_dsp::parser::{parse_line, parse_lines, Command, ModuleTypeRef, ParseError};

fn value_of(n: &zim_dsp::number::Number) -> f32 {
    n.as_str().parse::<f32>().unwrap()
}

#[test]
fn test_parse_module_creation() {
    let cmd = parse_line("vco: osc 440").unwrap();
    match cmd {
        Command::CreateModule { name, module_type, params } => {
            assert_eq!(name, "vco");
            assert!(matches!(module_type, ModuleTypeRef::BuiltIn(ModuleType::Oscillator)));
            let values: Vec<f32> = params.iter().map(value_of).collect();
            assert_eq!(values, vec![440.0]);
        }
        _ => panic!("Wrong command type"),
    }
}

#[test]
fn test_parse_connection() {
    let cmd = parse_line("vcf <- vco").unwrap();
    match cmd {
        Command::Connect { from, to } => {
            assert_eq!(from, "vco");
            assert_eq!(to, "vcf");
        }
        _ => panic!("Wrong command type"),
    }
}

#[test]
fn test_parse_param() {
    let cmd = parse_line("vcf.cutoff <- 800").unwrap();
    match cmd {
        Command::SetParam { module, param, value } => {
            assert_eq!(module, "vcf");
            assert_eq!(param, "cutoff");
            assert!((value_of(&value) - 800.0).abs() < f32::EPSILON);
        }
        _ => panic!("Wrong command type"),
    }
}

#[test]
fn test_parse_import_with_alias() {
    let cmd = parse_line("import mymodules:supersaw as ss").unwrap();
    match cmd {
        Command::Import { import } => {
            assert_eq!(import.path, "mymodules:supersaw");
            assert_eq!(import.alias, Some("ss".to_string()));
        }
        _ => panic!("Wrong command type"),
    }
}

#[test]
fn test_parse_import_without_alias() {
    let cmd = parse_line("import mymodules:supersaw").unwrap();
    match cmd {
        Command::Import { import } => {
            assert_eq!(import.path, "mymodules:supersaw");
            assert_eq!(import.alias, None);
        }
        _ => panic!("Wrong command type"),
    }
}

#[test]
fn test_parse_imported_module_creation() {
    let cmd = parse_line("osc1: supersaw 440").unwrap();
    match cmd {
        Command::CreateModule { name, module_type, params } => {
            assert_eq!(name, "osc1");
            assert!(matches!(module_type, ModuleTypeRef::Imported(ref s) if s == "supersaw"));
            let values: Vec<f32> = params.iter().map(value_of).collect();
            assert_eq!(values, vec![440.0]);
        }
        _ => panic!("Wrong command type"),
    }
}

#[test]
fn test_parse_patchbay() {
    let cmd = parse_line("patchbay:").unwrap();
    match cmd {
        Command::DefinePatchbay { patchbay } => {
            assert_eq!(patchbay.ports.len(), 0);
        }
        _ => panic!("Wrong command type"),
    }
}

#[test]
fn test_parse_multiline_patchbay() {
    let lines = vec![
        "patchbay:",
        "  gate: port 1",
        "  pitch: port 2 Frequency control input",
        "  audio_out: port 3",
        "",
        "osc: osc sine 440",
    ];

    let commands = parse_lines(&lines).unwrap();
    assert_eq!(commands.len(), 2);

    match &commands[0] {
        Command::DefinePatchbay { patchbay } => {
            assert_eq!(patchbay.ports.len(), 3);

            assert_eq!(patchbay.ports[0].name, "gate");
            assert_eq!(patchbay.ports[0].port_number, 1);
            assert_eq!(patchbay.ports[0].description, None);

            assert_eq!(patchbay.ports[1].name, "pitch");
            assert_eq!(patchbay.ports[1].port_number, 2);
            assert_eq!(
                patchbay.ports[1].description,
                Some("Frequency control input".to_string())
            );

            assert_eq!(patchbay.ports[2].name, "audio_out");
            assert_eq!(patchbay.ports[2].port_number, 3);
            assert_eq!(patchbay.ports[2].description, None);
        }
        _ => panic!("Expected patchbay command"),
    }

    match &commands[1] {
        Command::CreateModule { name, .. } => {
            assert_eq!(name, "osc");
        }
        _ => panic!("Expected module creation command"),
    }
}

#[test]
fn test_parse_lines_mixed_content() {
    let lines = vec![
        "import mymodules:supersaw as ss",
        "",
        "# This is a comment",
        "osc1: ss 440",
        "osc2: osc sine 220",
        "osc2.freq <- osc1.sine",
    ];

    let commands = parse_lines(&lines).unwrap();
    assert_eq!(commands.len(), 4);

    assert!(matches!(commands[0], Command::Import { .. }));
    assert!(matches!(commands[1], Command::CreateModule { .. }));
    assert!(matches!(commands[2], Command::CreateModule { .. }));
    assert!(matches!(commands[3], Command::Connect { .. }));
}

#[test]
fn waveform_is_encoded_before_the_frequency() {
    match parse_line("osc: osc saw 220 # bass").unwrap() {
        Command::CreateModule { params, .. } => {
            let values: Vec<f32> = params.iter().map(value_of).collect();
            assert_eq!(values, vec![-2.0, 220.0]);
        }
        _ => panic!("Wrong command type"),
    }
    match parse_line("osc: osc triangle").unwrap() {
        Command::CreateModule { params, .. } => {
            let values: Vec<f32> = params.iter().map(value_of).collect();
            assert_eq!(values, vec![-4.0]);
        }
        _ => panic!("Wrong command type"),
    }
}

#[test]
fn each_parse_error_has_its_line() {
    assert!(matches!(parse_line("   ").unwrap_err(), ParseError::Empty));
    assert!(matches!(parse_line("# only a comment").unwrap_err(), ParseError::Empty));
    assert!(matches!(parse_line("vco:").unwrap_err(), ParseError::MissingModuleType));
    match parse_line("  start now  # at once").unwrap_err() {
        ParseError::Unrecognized { line } => assert_eq!(line, "start now"),
        other => panic!("unexpected error: {}", other.message()),
    }
    assert_eq!(parse_line("start").unwrap_err().message(), "Could not parse line: start");
}
