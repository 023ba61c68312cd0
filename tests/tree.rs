use rs_script::archive::{archive_paths, print_tree, ArchiveError};
use rs_script::file_tree::{build_tree, is_hidden_name, tree, FileTree};
use std::io::{Cursor, Write};

fn paths(list: &[&str]) -> Vec<Vec<String>> {
    list.iter()
        .map(|p| p.split('/').map(|s| s.to_string()).collect())
        .collect()
}

#[test]
fn tree_draws_nested_entries() {
    let lines = tree(
        "demo.rss".to_string(),
        &paths(&["Cargo.toml", "src/main.rs", "src/lib.rs"]),
        true,
    );
    assert_eq!(
        lines,
        vec![
            "demo.rss",
            "├── Cargo.toml",
            "└── src",
            "    ├── main.rs",
            "    └── lib.rs",
        ]
    );
}

#[test]
fn tree_merges_shared_directories() {
    let lines = tree("r".to_string(), &paths(&["a/b", "a/c", "a/b"]), true);
    assert_eq!(lines, vec!["r", "└── a", "    ├── b", "    └── c"]);
}

#[test]
fn tree_indents_under_middle_child() {
    let lines = tree("r".to_string(), &paths(&["a/x", "b"]), true);
    assert_eq!(lines, vec!["r", "├── a", "│   └── x", "└── b"]);
}

#[test]
fn hidden_entry_suppressed_or_shown() {
    let entries = paths(&[".git/config", "src/main.rs"]);
    let shown = tree("p".to_string(), &entries, true);
    assert_eq!(
        shown,
        vec!["p", "├── .git", "│   └── config", "└── src", "    └── main.rs"]
    );
    let hidden = tree("p".to_string(), &entries, false);
    assert_eq!(hidden, vec!["p", "└── src", "    └── main.rs"]);
}

#[test]
fn hidden_names_start_with_dot() {
    assert!(is_hidden_name(".gitignore"));
    assert!(!is_hidden_name("src"));
    assert!(!is_hidden_name(""));
    assert!(!is_hidden_name("a.b"));
}

#[test]
fn add_path_builds_nodes_once() {
    let mut t = FileTree::new("root".to_string(), false);
    t.add_path(&["a".to_string(), "b".to_string()]);
    t.add_path(&["a".to_string()]);
    t.add_path(&[]);
    assert_eq!(t.print(true), vec!["root", "└── a", "    └── b"]);
    let built = build_tree("root".to_string(), &paths(&["a/b", "a"]));
    assert_eq!(built.print(false), t.print(false));
}

fn zip_blob(entries: &[(&str, Option<&[u8]>)]) -> Vec<u8> {
    let mut buffer = Cursor::new(Vec::new());
    {
        let mut w = zip::ZipWriter::new(&mut buffer);
        let options = zip::write::SimpleFileOptions::default()
            .compression_method(zip::CompressionMethod::Stored);
        for (name, data) in entries {
            match data {
                Some(d) => {
                    w.start_file(*name, options).unwrap();
                    w.write_all(d).unwrap();
                }
                None => {
                    w.add_directory(*name, options).unwrap();
                }
            }
        }
        w.finish().unwrap();
    }
    buffer.into_inner()
}

#[test]
fn archive_paths_lists_entries_in_order() {
    let blob = zip_blob(&[
        ("Cargo.toml", Some(b"[package]")),
        ("src/", None),
        ("src/main.rs", Some(b"fn main() {}")),
    ]);
    let ps = archive_paths(blob).ok().unwrap();
    assert_eq!(ps, paths(&["Cargo.toml", "src", "src/main.rs"]));
}

#[test]
fn print_tree_of_archive() {
    let blob = zip_blob(&[
        (".hidden", Some(b"x")),
        ("src/main.rs", Some(b"fn main() {}")),
    ]);
    let lines = print_tree(blob.clone(), "f.rss".to_string(), true).ok().unwrap();
    assert_eq!(
        lines,
        vec!["f.rss", "├── .hidden", "└── src", "    └── main.rs"]
    );
    let lines = print_tree(blob, "f.rss".to_string(), false).ok().unwrap();
    assert_eq!(lines, vec!["f.rss", "└── src", "    └── main.rs"]);
}

#[test]
fn archive_of_garbage_is_open_error() {
    let r = archive_paths(vec![1, 2, 3, 4]);
    match r {
        Err(ArchiveError::Open(_)) => {}
        _ => panic!("expected an open error"),
    }
    let e = print_tree(vec![0; 3], "x".to_string(), true).err().unwrap();
    assert!(e.message().starts_with("E28 Failed to open zip: "));
}

#[test]
fn closing_connector_goes_to_last_drawn_child() {
    let entries = paths(&["src/main.rs", ".git/config"]);
    let hidden = tree("p".to_string(), &entries, false);
    assert_eq!(hidden, vec!["p", "└── src", "    └── main.rs"]);
    let shown = tree("p".to_string(), &entries, true);
    assert_eq!(
        shown,
        vec!["p", "├── src", "│   └── main.rs", "└── .git", "    └── config"]
    );
}
