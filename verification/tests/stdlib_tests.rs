use zim_dsp::embedded_stdlib::EmbeddedStdlib;
use zim_dsp::listing::{comes_before, insert_ascending, module_stem};
use zim_dsp::module_loader::ModuleLoader;
use zim_dsp::module_resolver::{pick_first, ModuleResolver, ModuleSearchPaths, ModuleSource};
use zim_dsp::parser::{parse_lines, Command};

#[test]
fn test_stdlib_path_detection() {
    assert!(EmbeddedStdlib::is_stdlib_path("stdlib:uncertainty"));
    assert!(EmbeddedStdlib::is_stdlib_path("stdlib:filters:moog"));
    assert!(!EmbeddedStdlib::is_stdlib_path("mymodules:voice"));
    assert!(!EmbeddedStdlib::is_stdlib_path("uncertainty"));
}

#[test]
fn test_module_name_extraction() {
    assert_eq!(EmbeddedStdlib::extract_module_name("stdlib:uncertainty"), Some("uncertainty"));
    assert_eq!(
        EmbeddedStdlib::extract_module_name("stdlib:filters:moog"),
        Some("filters:moog")
    );
    assert_eq!(EmbeddedStdlib::extract_module_name("mymodules:voice"), None);
    assert_eq!(EmbeddedStdlib::extract_module_name("uncertainty"), None);
}

#[test]
fn test_stdlib_with_uncertainty() {
    let stdlib = EmbeddedStdlib::new();
    assert!(!stdlib.list_modules().is_empty());
    assert!(stdlib.has_module("uncertainty"));
    assert!(stdlib.get_module("uncertainty").is_ok());

    let modules = stdlib.list_modules();
    assert!(modules.contains(&"uncertainty".to_string()));
}

#[test]
fn test_module_path_conversion() {
    let resolver = ModuleResolver::new();

    assert_eq!(
        std::path::PathBuf::from(resolver.module_path_to_file_path("basic_osc")),
        std::path::PathBuf::from("basic_osc.zim")
    );

    assert_eq!(
        std::path::PathBuf::from(resolver.module_path_to_file_path("mymodules:supersaw")),
        std::path::PathBuf::from("mymodules/supersaw.zim")
    );
}

#[test]
fn test_search_paths_priority() {
    let paths = ModuleSearchPaths::from_patch_file("/tmp/patches/test.zim");
    let search_dirs = paths.search_dirs();

    assert_eq!(search_dirs[0], "/tmp/patches");
    assert!(search_dirs.iter().any(|p| p.contains("zim-dsp/modules")));
    assert!(search_dirs.contains(&"/usr/local/share/zim-dsp/modules".to_string()));
    assert_eq!(search_dirs.len(), 3);
}

#[test]
fn search_paths_follow_the_home_directory() {
    let with = ModuleSearchPaths::with_home(Some("/home/alice".to_string()));
    assert_eq!(with.user_modules_dir, "/home/alice/.config/zim-dsp/modules");
    assert_eq!(with.current_file_dir, None);
    let without = ModuleSearchPaths::with_home(None);
    assert_eq!(without.user_modules_dir, "./user_modules");
    assert_eq!(without.search_dirs().len(), 2);
}

#[test]
fn unknown_embedded_module_is_an_error() {
    let stdlib = EmbeddedStdlib::new();
    assert!(!stdlib.has_module("nothing"));
    let err = stdlib.get_module("nothing").unwrap_err();
    assert_eq!(err.message(), "Embedded stdlib module 'nothing' not found");
    assert!(stdlib.get_description("nothing").is_none());
    assert!(stdlib.get_module_info("nothing").is_none());
}

#[test]
fn module_info_reports_the_size_in_bytes() {
    let stdlib = EmbeddedStdlib::new();
    let info = stdlib.get_module_info("uncertainty").unwrap();
    assert_eq!(info.name, "uncertainty");
    assert_eq!(info.size_bytes, info.content.len());
    assert_eq!(info.content, stdlib.get_module("uncertainty").unwrap());
    assert_eq!(
        stdlib.get_description("uncertainty"),
        Some("Random CV and gate generator inspired by the Buchla Source of Uncertainty")
    );
}

#[test]
fn embedded_source_is_a_patch_with_a_patchbay() {
    let stdlib = EmbeddedStdlib::new();
    let source = stdlib.get_module("uncertainty").unwrap();
    let lines: Vec<&str> = source.lines().collect();
    let commands = parse_lines(&lines).unwrap();
    let ports = commands.iter().find_map(|c| match c {
        Command::DefinePatchbay { patchbay } => Some(patchbay.ports.len()),
        _ => None,
    });
    assert_eq!(ports, Some(4));
}

#[test]
fn embedded_modules_resolve_without_a_file() {
    let resolver = ModuleResolver::new();
    assert_eq!(resolver.resolve_module("stdlib:uncertainty").unwrap(), "<embedded>/stdlib:uncertainty");
    assert!(resolver.module_exists("stdlib:uncertainty"));
    assert!(!resolver.module_exists("stdlib:no_such_module"));
    assert!(resolver.resolve_module("stdlib:no_such_module").is_ok());
    assert!(!resolver.module_exists("stdlib:nothing"));
}

#[test]
fn missing_module_is_not_resolved() {
    let resolver = ModuleResolver::from_patch_file("/nonexistent-dir/patch.zim");
    let err = resolver.resolve_module("no_such_module_anywhere").unwrap_err();
    assert_eq!(err.path, "no_such_module_anywhere");
    assert_eq!(err.searched.len(), 3);
    assert!(!resolver.module_exists("no_such_module_anywhere"));
}

#[test]
fn first_existing_candidate_wins() {
    let resolver = ModuleResolver::from_patch_file("/work/patch.zim");
    let files = resolver.candidate_files("pkg:voice");
    assert_eq!(files[0], "/work/pkg/voice.zim");
    assert_eq!(files[2], "/usr/local/share/zim-dsp/modules/pkg/voice.zim");
    assert_eq!(pick_first(&vec![false, true, true]), Some(1));
    assert_eq!(pick_first(&vec![false, false, false]), None);
    let found = resolver.resolve_among("pkg:voice", &vec![false, false, true]).unwrap();
    assert_eq!(found, files[2]);
    assert!(resolver.resolve_among("pkg:voice", &vec![false, false, false]).is_err());
}

#[test]
fn available_modules_are_listed_in_order() {
    let resolver = ModuleResolver::new();
    let files: Vec<String> = ["voice.zim", "bass.zim", "notes.txt", ".zim", "voice.zim", "a.b.zim"]
        .iter()
        .map(|s| s.to_string())
        .collect();
    assert_eq!(
        resolver.list_available_modules(&files),
        vec!["a.b", "bass", "stdlib:uncertainty", "voice"]
    );
    assert_eq!(ModuleLoader::new().list_available_modules(&vec![]), vec!["stdlib:uncertainty"]);
    assert_eq!(module_stem("x.zim"), Some("x".to_string()));
    assert_eq!(module_stem("zim"), None);
    assert_eq!(module_stem("x.zimm"), None);
}

#[test]
fn names_are_ordered_as_strings_are() {
    let words = ["", "a", "ab", "b", "B", "a_b", "stdlib:x", "\u{e9}", "z"];
    for a in words {
        for b in words {
            let x: Vec<char> = a.chars().collect();
            let y: Vec<char> = b.chars().collect();
            assert_eq!(comes_before(&x, &y), a < b, "{a:?} {b:?}");
        }
    }
    let mut names: Vec<String> = Vec::new();
    for word in ["m", "c", "x", "c", "a", "m"] {
        insert_ascending(&mut names, word.to_string());
    }
    assert_eq!(names, vec!["a", "c", "m", "x"]);
}

#[test]
fn sources_are_embedded_or_files() {
    let resolver = ModuleResolver::new();
    match resolver.load_module("stdlib:uncertainty").unwrap() {
        ModuleSource::Embedded(text) => assert!(text.contains("patchbay:")),
        ModuleSource::File(_) => panic!("expected an embedded source"),
    }
    assert!(resolver.load_module("stdlib:nothing").is_err());
    let err = resolver.resolve_module("no_such_module_anywhere").unwrap_err();
    assert!(err.message().starts_with("Module 'no_such_module_anywhere' not found in search paths: [\""));
}
