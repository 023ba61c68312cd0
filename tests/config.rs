use rs_script::config::{CommandError, CommandLine, Config, EditCommand};
use rs_script::run::with_execute_bits;
use rs_script::listing::{cat_listing, select_filter, CatEntry, CatLine, Filter, FilterError};
use rs_script::project::{
    cmd_escape, default_main, default_manifest, launcher_script, launcher_script_windows,
    shell_escape,
};

fn command(args: &[&str]) -> EditCommand {
    EditCommand::new(
        "code".to_string(),
        args.iter().map(|a| a.to_string()).collect(),
        false,
    )
}

#[test]
fn placeholder_is_replaced_by_path() {
    let c = command(&["-w", "$dir$"]).to_command(Some("/tmp/x")).ok().unwrap();
    assert_eq!(c.program, "code");
    assert_eq!(c.args, vec!["-w", "/tmp/x"]);
}

#[test]
fn every_placeholder_is_replaced() {
    let c = command(&["$dir$", "a", "$dir$"]).to_command(Some("p")).ok().unwrap();
    assert_eq!(c.args, vec!["p", "a", "p"]);
}

#[test]
fn placeholder_without_path_is_refused() {
    let r = command(&["-w", "$dir$"]).to_command(None);
    assert_eq!(r.err(), Some(CommandError::NoInsertion));
    assert!(CommandError::NoInsertion.message().starts_with("E01"));
}

#[test]
fn path_without_placeholder_is_refused() {
    let r = command(&["-w"]).to_command(Some("p"));
    assert_eq!(r.err(), Some(CommandError::MissingPlaceholder));
    assert!(CommandError::MissingPlaceholder.message().starts_with("E04"));
}

#[test]
fn no_path_no_placeholder_keeps_args() {
    let c = command(&["--version"]).to_command(None).ok().unwrap();
    assert_eq!(c.args, vec!["--version"]);
}

#[test]
fn default_commands_and_flags() {
    let d = EditCommand::default();
    assert_eq!(d.command(), "code");
    assert_eq!(d.args(), &vec!["-w".to_string(), "$dir$".to_string()]);
    assert!(!d.inherit_shell());
    let c = Config::default();
    assert!(!c.use_debug_mode());
    assert!(!c.never_save_binary());
    assert_eq!(c.rust_project_edit_command_blocking().command(), "code");
}

#[test]
fn filter_selection() {
    assert!(matches!(select_filter(Some("a"), Some("b"), false), Err(FilterError::NameAndExtension)));
    assert!(matches!(select_filter(Some("main.rs"), None, true), Ok(Filter::Name(n)) if n == "main.rs"));
    assert!(matches!(select_filter(None, Some("toml"), false), Ok(Filter::Extension(e)) if e == "toml"));
    assert!(matches!(select_filter(None, None, true), Ok(Filter::All)));
    assert!(matches!(select_filter(None, None, false), Ok(Filter::Extension(e)) if e == "rs"));
}

#[test]
fn filter_acceptance() {
    let rs = Filter::Extension("rs".to_string());
    assert!(rs.accepts(Some("main.rs"), Some("rs")));
    assert!(!rs.accepts(Some("Cargo.toml"), Some("toml")));
    assert!(!rs.accepts(Some("Makefile"), None));
    let name = Filter::Name("Cargo.toml".to_string());
    assert!(name.accepts(Some("Cargo.toml"), Some("toml")));
    assert!(!name.accepts(None, None));
    assert!(Filter::All.accepts(None, None));
}

#[test]
fn default_project_files() {
    assert_eq!(
        default_manifest("demo"),
        "[package]\nname = \"demo\"\nversion = \"0.1.0\"\nedition = \"2024\"\n\n[dependencies]\n"
    );
    assert!(default_main().contains("fn main()"));
}

#[test]
fn command_line_as_text() {
    let c = CommandLine { program: "cargo".to_string(), args: vec!["build".to_string(), "--release".to_string()] };
    assert_eq!(c.to_text(), "cargo build --release");
    let bare = CommandLine { program: "ls".to_string(), args: vec![] };
    assert_eq!(bare.to_text(), "ls ");
}

#[test]
fn execute_bits_are_added() {
    assert_eq!(with_execute_bits(0o644), 0o755);
    assert_eq!(with_execute_bits(0o700), 0o711);
}

fn cat_entry(path: &str, name: Option<&str>, ext: Option<&str>, is_dir: bool, lines: &[&str]) -> CatEntry {
    CatEntry {
        path: path.to_string(),
        file_name: name.map(|n| n.to_string()),
        extension: ext.map(|e| e.to_string()),
        is_dir,
        lines: lines.iter().map(|l| l.to_string()).collect(),
    }
}

fn describe(lines: Vec<CatLine>) -> Vec<String> {
    lines
        .into_iter()
        .map(|l| match l {
            CatLine::Path(p) => format!("path {p}"),
            CatLine::Content(c) => format!("line {c}"),
            CatLine::Blank => "blank".to_string(),
            CatLine::NothingFound => "none".to_string(),
        })
        .collect()
}

#[test]
fn cat_listing_shows_matching_files() {
    let entries = vec![
        cat_entry("src", Some("src"), None, true, &[]),
        cat_entry("src/main.rs", Some("main.rs"), Some("rs"), false, &["fn main() {", "}"]),
        cat_entry("Cargo.toml", Some("Cargo.toml"), Some("toml"), false, &["[package]"]),
    ];
    let shown = describe(cat_listing(&entries, &Filter::Extension("rs".to_string())));
    assert_eq!(shown, vec!["path src/main.rs", "line fn main() {", "line }", "blank"]);
    let all = describe(cat_listing(&entries, &Filter::All));
    assert_eq!(all.len(), 4 + 3);
}

#[test]
fn cat_listing_reports_nothing_found() {
    let entries = vec![cat_entry("a.txt", Some("a.txt"), Some("txt"), false, &["x"])];
    let shown = describe(cat_listing(&entries, &Filter::Name("b".to_string())));
    assert_eq!(shown, vec!["none"]);
    assert_eq!(describe(cat_listing(&vec![], &Filter::All)), vec!["none"]);
}

#[test]
fn shell_and_cmd_escaping() {
    assert_eq!(shell_escape("it's"), "it'\\''s");
    assert_eq!(shell_escape("plain"), "plain");
    assert_eq!(cmd_escape("a\"b"), "a\"\"b");
}

#[test]
fn launcher_scripts() {
    assert_eq!(
        launcher_script("/home/o'k", "/tmp/w/Cargo.toml", false),
        "#!/bin/sh\ncd '/home/o'\\''k'\ncargo run -r --manifest-path='/tmp/w/Cargo.toml' \"$@\""
    );
    assert_eq!(
        launcher_script("/h", "/m", true),
        "#!/bin/sh\ncd '/h'\ncargo run --manifest-path='/m' \"$@\""
    );
    assert_eq!(
        launcher_script_windows("C:\\x", "C:\\m", false),
        "@echo off\r\ncd /d \"C:\\x\"\r\ncargo run -r --manifest-path=\"C:\\m\" %*"
    );
}
