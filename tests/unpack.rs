use rs_script::unpack::{pack_entry_name, unpack_steps, ArchiveEntry, UnpackStep};

fn entry(path: &[&str], is_dir: bool, mode: Option<u32>, data: &[u8]) -> ArchiveEntry {
    ArchiveEntry {
        path: path.iter().map(|s| s.to_string()).collect(),
        is_dir,
        unix_mode: mode,
        data: data.to_vec(),
        stored: true,
    }
}

fn show(steps: Vec<UnpackStep>) -> Vec<String> {
    steps
        .into_iter()
        .map(|s| match s {
            UnpackStep::CreateDir(p) => format!("mkdir {}", p.join("/")),
            UnpackStep::WriteFile(p, d) => format!("write {} {:?}", p.join("/"), d),
            UnpackStep::SetMode(p, m) => format!("chmod {} {:o}", p.join("/"), m),
        })
        .collect()
}

#[test]
fn unpack_steps_recreate_tree() {
    let entries = vec![
        entry(&["empty"], true, Some(0o755), &[]),
        entry(&["src", "main.rs"], false, Some(0o644), b"fn"),
        entry(&["README"], false, None, b"hi"),
    ];
    assert_eq!(
        show(unpack_steps(&entries)),
        vec![
            "mkdir empty",
            "chmod empty 755",
            "mkdir src",
            "write src/main.rs [102, 110]",
            "chmod src/main.rs 644",
            "write README [104, 105]",
        ]
    );
}

#[test]
fn unpack_steps_of_nothing() {
    assert!(unpack_steps(&vec![]).is_empty());
}

#[test]
fn pack_entry_names() {
    assert_eq!(pack_entry_name("src/main.rs", true), Some("src/main.rs".to_string()));
    assert_eq!(pack_entry_name("src", false), Some("src/".to_string()));
    assert_eq!(pack_entry_name("", false), None);
}
