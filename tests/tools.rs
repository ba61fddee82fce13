use cursor_rust_tools::cargo_remote::{CargoMessage, CargoRemote, CompilerMessage};
use cursor_rust_tools::path::ProjectPath;
use cursor_rust_tools::project::Project;
use cursor_rust_tools::session::{
    first_word, launch_failed, setup_start, setup_step, SetupAction, SetupEvent, SetupState,
};
use cursor_rust_tools::tools::{
    find_symbol_position_in_file, format_marked_string, get_file_lines, hover_text,
    line_from_argument, position_of_match, resolve_symbol, unique_locations, HoverContents,
    MarkedString, Position,
};

fn path(parts: &[&str]) -> ProjectPath {
    ProjectPath::from_components(parts.iter().map(|p| p.to_string()).collect())
}

fn lines(v: &[&str]) -> Vec<String> {
    v.iter().map(|s| s.to_string()).collect()
}

#[test]
fn relative_paths() {
    let p = Project::new(path(&["work", "a"]));
    assert_eq!(p.relative_path(&path(&["work", "a", "src", "x.rs"])), Ok("src/x.rs".to_string()));
    assert_eq!(p.relative_path(&path(&["work", "a"])), Ok("".to_string()));
    assert_eq!(
        p.relative_path(&path(&["other"])),
        Err("Path \"/other\" is not inside project root \"/work/a\"".to_string())
    );
    assert_eq!(p.cache_dir().to_text(), "/work/a/.docs-cache");
    assert_eq!(p.docs_dir().to_text(), "/work/a/.docs-cache/doc");
    assert_eq!(p.cache_folder(), ".docs-cache");
    assert_eq!(p.uri().unwrap().as_str(), "file:///work/a");
    assert!(p.triggers_reanalysis(&path(&["work", "a", "src", "lib.rs"])));
    assert!(!p.triggers_reanalysis(&path(&["work", "a", "target", "debug", "x"])));
    assert!(!p.triggers_reanalysis(&path(&["work", "a", "target"])));
    assert!(p.triggers_reanalysis(&path(&["work", "a", "targets"])));
}

#[test]
fn line_arguments_are_one_based() {
    assert_eq!(line_from_argument(Some(1)), Ok(0));
    assert_eq!(line_from_argument(Some(10)), Ok(9));
    assert_eq!(line_from_argument(None), Err("Line is required".to_string()));
    assert_eq!(
        line_from_argument(Some(0)),
        Err("Line number must be greater than 0 as line numbers are 1 based".to_string())
    );
}

#[test]
fn symbol_position_on_a_line() {
    let starts = vec![
        Position { line: 2, character: 4 },
        Position { line: 5, character: 0 },
        Position { line: 5, character: 8 },
    ];
    let p = find_symbol_position_in_file(Some(&starts), "src/a.rs", "foo", 5).unwrap();
    assert_eq!((p.line, p.character), (5, 0));
    let e = find_symbol_position_in_file(Some(&starts), "src/a.rs", "foo", 3).err();
    assert_eq!(e, Some("Symbol foo not found in file src/a.rs".to_string()));
    let none = find_symbol_position_in_file(None, "src/a.rs", "foo", 3).err();
    assert_eq!(none, Some("No symbols found".to_string()));
}

#[test]
fn file_line_windows() {
    let l = lines(&["a", "b", "c", "d", "e"]);
    assert_eq!(get_file_lines(&l, 1, 2, 0, 0), Some("b\nc".to_string()));
    assert_eq!(get_file_lines(&l, 2, 2, 1, 1), Some("b\nc\nd".to_string()));
    assert_eq!(get_file_lines(&l, 0, 0, 5, 0), Some("a".to_string()));
    assert_eq!(get_file_lines(&l, 3, 4, 0, 3), None);
    assert_eq!(get_file_lines(&l, 4, 1, 0, 0), None);
    assert_eq!(get_file_lines(&lines(&[]), 0, 0, 0, 0), None);
}

#[test]
fn hover_texts() {
    let code = MarkedString::LanguageString { language: "rust".to_string(), value: "fn f()".to_string() };
    assert_eq!(format_marked_string(&code), "```rust```\nfn f()");
    let arr = HoverContents::Array(vec![MarkedString::String("a".to_string()), code]);
    assert_eq!(hover_text(&arr), "a\n```rust```\nfn f()");
    assert_eq!(hover_text(&HoverContents::Markup("m".to_string())), "m");
    assert_eq!(hover_text(&HoverContents::Array(vec![])), "");
}

#[test]
fn locations_are_deduplicated_in_order() {
    let urls = lines(&["file:///a", "file:///b", "file:///a", "file:///c", "file:///b"]);
    assert_eq!(unique_locations(&urls), lines(&["file:///a", "file:///b", "file:///c"]));
}

#[test]
fn symbol_resolution() {
    let symbols = vec![
        ("Context".to_string(), Position { line: 1, character: 0 }),
        ("add_project".to_string(), Position { line: 10, character: 4 }),
        ("Context".to_string(), Position { line: 20, character: 0 }),
    ];
    let p = position_of_match(Some("Context".to_string()), &symbols).unwrap();
    assert_eq!((p.line, p.character), (20, 0));
    assert_eq!(
        position_of_match(None, &symbols).err(),
        Some("No match for symbol found".to_string())
    );
    let q = resolve_symbol("add_projct", &symbols).unwrap();
    assert_eq!((q.line, q.character), (10, 4));
    assert!(resolve_symbol("zzzzzzzzzzzzzzz", &symbols).is_err());
}

#[test]
fn cargo_messages_and_arguments() {
    let msg = |level: &str, text: &str| CargoMessage::CompilerMessage {
        message: CompilerMessage {
            rendered: text.to_string(),
            code: None,
            level: level.to_string(),
            spans: vec![],
        },
    };
    let messages = vec![
        CargoMessage::CompilerArtifact,
        msg("warning", "w1"),
        msg("error", "e1"),
        CargoMessage::BuildFinished { success: false },
    ];
    assert_eq!(CargoRemote::check_messages(&messages, false), lines(&["w1", "e1"]));
    assert_eq!(CargoRemote::check_messages(&messages, true), lines(&["e1"]));
    let remote = CargoRemote::new(Project::new(path(&["w"])));
    assert_eq!(remote.check_arguments(), lines(&["check", "--message-format=json"]));
    assert_eq!(
        remote.test_arguments(&Some("t1".to_string())),
        lines(&["test", "--message-format=json", "--", "--nocapture", "t1"])
    );
    assert_eq!(remote.test_arguments(&None), lines(&["test", "--message-format=json"]));
    assert_eq!(CargoRemote::backtrace_setting(true), "full");
    assert_eq!(CargoRemote::backtrace_setting(false), "0");
}

#[test]
fn engine_setup_steps() {
    let (s, a) = setup_start();
    assert!(matches!(s, SetupState::CheckingEngine) && matches!(a, SetupAction::CheckEngine));
    let (s, a) = setup_step(s, SetupEvent::EngineChecked { works: false });
    assert!(matches!(a, SetupAction::CheckInstaller));
    let (s, a) = setup_step(s, SetupEvent::InstallerChecked { available: true });
    assert!(matches!(a, SetupAction::ReadToolchain));
    let (s, a) = setup_step(
        s,
        SetupEvent::ToolchainRead { output: Some("  stable-x86_64 (default)\n".to_string()) },
    );
    match a {
        SetupAction::Install { args } => assert_eq!(
            args,
            lines(&["component", "add", "rust-analyzer", "--toolchain", "stable-x86_64"])
        ),
        _ => panic!("expected an install"),
    }
    let (_, a) = setup_step(s, SetupEvent::InstallFinished { outcome: Ok((false, "boom".to_string())) });
    match a {
        SetupAction::Fail { message } => assert_eq!(
            message,
            "Failed to install rust-analyzer automatically: boom. Please install it manually with 'rustup component add rust-analyzer'"
        ),
        _ => panic!("expected a failure"),
    }
    let (_, a) = setup_step(SetupState::CheckingInstaller, SetupEvent::InstallerChecked { available: false });
    match a {
        SetupAction::Fail { message } => assert_eq!(
            message,
            "rust-analyzer not found. Please install rustup and run 'rustup component add rust-analyzer', or install rust-analyzer manually."
        ),
        _ => panic!("expected a failure"),
    }
    let (_, a) = setup_step(SetupState::Installing, SetupEvent::InstallFinished { outcome: Err("denied".to_string()) });
    match a {
        SetupAction::Fail { message } => assert_eq!(
            message,
            "Failed to run rustup to install rust-analyzer: denied. Please install it manually."
        ),
        _ => panic!("expected a failure"),
    }
    let (_, a) = setup_step(SetupState::ReadingToolchain, SetupEvent::ToolchainRead { output: None });
    match a {
        SetupAction::Install { args } => assert_eq!(args, lines(&["component", "add", "rust-analyzer"])),
        _ => panic!("expected an install"),
    }
    let (s, a) = setup_step(SetupState::Installing, SetupEvent::InstallFinished { outcome: Ok((true, String::new())) });
    assert!(matches!(a, SetupAction::VerifyEngine));
    let (_, a) = setup_step(s, SetupEvent::Verified { works: false });
    assert!(matches!(a, SetupAction::Launch));
    assert_eq!(first_word("   "), None);
    assert_eq!(first_word("nightly"), Some("nightly".to_string()));
    assert!(launch_failed("denied").starts_with("Failed to run rust-analyzer: denied."));
}
