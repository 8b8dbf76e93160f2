use zim_dsp::buffers::{are_distinct, PortBuffers};
use zim_dsp::cli::{
    invocation, is_listed, parse_player_command, parse_repl_command, read_patch_file, Invocation,
    PlayerCommand, ReplCommand,
};
use zim_dsp::graph_engine::EngineError;
use zim_dsp::module_loader::InterfaceError;
use zim_dsp::modules::ModuleType;
use zim_dsp::parser::{parse_line, Command, ImportDef, ModuleTypeRef, ParseError};

fn args(list: &[&str]) -> Vec<String> {
    list.iter().map(|s| s.to_string()).collect()
}

#[test]
fn arguments_choose_what_the_program_does() {
    assert!(matches!(invocation(&args(&["zim"])), Invocation::Repl));
    assert!(matches!(invocation(&args(&[])), Invocation::Repl));
    assert!(matches!(invocation(&args(&["zim", "help"])), Invocation::Help));
    assert!(matches!(invocation(&args(&["zim", "-h"])), Invocation::Help));
    assert!(matches!(invocation(&args(&["zim", "--help", "x"])), Invocation::Help));
    match invocation(&args(&["zim", "patch.zim"])) {
        Invocation::PlayPatch(file) => assert_eq!(file, "patch.zim"),
        _ => panic!("expected a patch file"),
    }
}

#[test]
fn start_is_taken_out_of_a_patch_file() {
    let file = read_patch_file("osc: osc 440\n  start  \nout <- osc.sine\n");
    assert!(file.auto_start);
    assert_eq!(file.content, "osc: osc 440\nout <- osc.sine");
    let file = read_patch_file("osc: osc 440\nstarter: lfo 1\n");
    assert!(!file.auto_start);
    assert_eq!(file.content, "osc: osc 440\nstarter: lfo 1");
    let file = read_patch_file("");
    assert!(!file.auto_start);
    assert_eq!(file.content, "");
    assert!(is_listed("  osc: osc"));
    assert!(!is_listed("   "));
    assert!(!is_listed("  # comment"));
}

#[test]
fn prompt_words_are_told_from_patch_lines() {
    assert!(matches!(parse_repl_command("  "), ReplCommand::Empty));
    assert!(matches!(parse_repl_command("quit"), ReplCommand::Quit));
    assert!(matches!(parse_repl_command(" exit "), ReplCommand::Quit));
    assert!(matches!(parse_repl_command("help"), ReplCommand::Help));
    assert!(matches!(parse_repl_command("start"), ReplCommand::Start));
    assert!(matches!(parse_repl_command("stop"), ReplCommand::Stop));
    assert!(matches!(parse_repl_command("g"), ReplCommand::Gate));
    assert!(matches!(parse_repl_command("gate"), ReplCommand::Gate));
    assert!(matches!(parse_repl_command("r"), ReplCommand::Release));
    assert!(matches!(parse_repl_command("release"), ReplCommand::Release));
    assert!(matches!(parse_repl_command("clear"), ReplCommand::Clear));
    assert!(matches!(parse_repl_command("list"), ReplCommand::List));
    assert!(matches!(parse_repl_command("validate"), ReplCommand::Validate));
    match parse_repl_command("inspect  osc1 ") {
        ReplCommand::Inspect(name) => assert_eq!(name, "osc1"),
        _ => panic!("expected an inspection"),
    }
    match parse_repl_command("gate: manual") {
        ReplCommand::Patch(line) => assert_eq!(line, "gate: manual"),
        _ => panic!("expected a patch line"),
    }
    match parse_repl_command("inspect") {
        ReplCommand::Patch(line) => assert_eq!(line, "inspect"),
        _ => panic!("expected a patch line"),
    }
}

#[test]
fn player_prompt_knows_fewer_words() {
    assert!(matches!(parse_player_command(""), PlayerCommand::Empty));
    assert!(matches!(parse_player_command("start"), PlayerCommand::Start));
    assert!(matches!(parse_player_command("stop"), PlayerCommand::Stop));
    assert!(matches!(parse_player_command("quit"), PlayerCommand::Quit));
    assert!(matches!(parse_player_command("exit"), PlayerCommand::Quit));
    assert!(matches!(parse_player_command("help"), PlayerCommand::Help));
    assert!(matches!(parse_player_command("inspect vcf"), PlayerCommand::Inspect(_)));
    match parse_player_command("gate") {
        PlayerCommand::Unknown(line) => assert_eq!(line, "gate"),
        _ => panic!("expected an unknown word"),
    }
}

#[test]
fn port_buffers_hand_out_each_buffer_once() {
    let mut buffers = PortBuffers::new();
    assert_eq!(buffers.get("sine"), None);
    assert_eq!(buffers.get_or_default("sine"), (0, true));
    assert_eq!(buffers.get_or_default("saw"), (1, true));
    assert_eq!(buffers.get_or_default("sine"), (0, false));
    assert_eq!(buffers.get("saw"), Some(1));
    assert_eq!(buffers.get_mut("saw"), Some(1));
    let wanted = args(&["saw", "sine", "square"]);
    assert!(are_distinct(&wanted));
    assert_eq!(buffers.get_many_mut(&wanted), vec![Some(1), Some(0), None]);
    assert!(!are_distinct(&args(&["saw", "sine", "square", "saw"])));
    assert!(are_distinct(&args(&[])));
}

#[test]
fn statements_read_back_from_their_lines() {
    for line in [
        "vco: osc 440",
        "vco: osc -2 220",
        "f: filter 1000 0.5",
        "v: supersaw 1 2 3",
        "vcf.cutoff <- 800",
        "e.attack <- 1e-3",
        "vca.audio <- vco.sine",
        "import mymodules:supersaw as ss",
        "import voice",
        "patchbay:",
    ] {
        let command = parse_line(line).unwrap();
        assert_eq!(command.to_line(), line);
        let again = parse_line(&command.to_line()).unwrap();
        assert_eq!(again.to_line(), line);
    }
    let command = parse_line("  osc1 :  osc   sine   440  # lead ").unwrap();
    assert_eq!(command.to_line(), "osc1: osc -1 440");
    match parse_line(&command.to_line()).unwrap() {
        Command::CreateModule { name, module_type, params } => {
            assert_eq!(name, "osc1");
            assert!(matches!(module_type, ModuleTypeRef::BuiltIn(ModuleType::Oscillator)));
            let texts: Vec<&str> = params.iter().map(|p| p.as_str()).collect();
            assert_eq!(texts, vec!["-1", "440"]);
        }
        _ => panic!("expected a declaration"),
    }
    let import = Command::Import {
        import: ImportDef { path: "a:b".to_string(), alias: Some("c".to_string()) },
    };
    assert_eq!(import.to_line(), "import a:b as c");
}

#[test]
fn errors_have_their_texts() {
    assert_eq!(ParseError::Empty.message(), "Empty or comment line");
    assert_eq!(ParseError::MissingModuleType.message(), "Missing module type");
    assert_eq!(
        EngineError::NotImplemented { module_type: ModuleType::Output }.message(),
        "Module type Output not yet implemented"
    );
    assert_eq!(
        EngineError::ImportNotFound {
            name: "voice".to_string(),
            available: vec!["a".to_string(), "b".to_string()],
        }
        .message(),
        "Imported module 'voice' not found. Available modules: [\"a\", \"b\"]"
    );
    assert_eq!(
        EngineError::Line {
            line: "x.y <- 1".to_string(),
            cause: Box::new(EngineError::InvalidDestination),
        }
        .message(),
        "Error on line 'x.y <- 1': Invalid destination format. Use: module.port"
    );
    assert_eq!(
        InterfaceError::DuplicatePortNumber { path: "m".to_string(), number: 3 }.message(),
        "Module 'm' has duplicate port number 3 in patchbay"
    );
}
