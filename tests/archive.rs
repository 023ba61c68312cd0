use rs_script::archive::{cat_archive, pack_entries, read_archive, unpack_archive, PackEntry};
use rs_script::listing::{CatLine, Filter};
use rs_script::unpack::UnpackStep;

fn pack(name: &str, is_file: bool, data: &[u8], mode: Option<u32>) -> PackEntry {
    PackEntry { name: name.to_string(), is_file, data: data.to_vec(), unix_mode: mode }
}

fn sample() -> Vec<PackEntry> {
    vec![
        pack("Cargo.toml", true, b"[package]\n", Some(0o644)),
        pack("empty/", false, b"", None),
        pack("src/", false, b"", None),
        pack("src/main.rs", true, b"fn main() {}\n", Some(0o755)),
        pack("README", true, b"hi", None),
    ]
}

#[test]
fn pack_then_read_gives_entries_back() {
    let blob = pack_entries(&sample()).ok().unwrap();
    let read = read_archive(blob).ok().unwrap();
    let paths: Vec<Vec<String>> = read.iter().map(|e| e.path.clone()).collect();
    assert_eq!(
        paths,
        vec![vec!["Cargo.toml"], vec!["empty"], vec!["src"], vec!["src", "main.rs"], vec!["README"]]
    );
    let dirs: Vec<bool> = read.iter().map(|e| e.is_dir).collect();
    assert_eq!(dirs, vec![false, true, true, false, false]);
    assert_eq!(read[0].data, b"[package]\n");
    assert_eq!(read[3].data, b"fn main() {}\n");
    assert_eq!(read[4].data, b"hi");
    assert_eq!(read[3].unix_mode.map(|m| m & 0o777), Some(0o755));
    assert_eq!(read[0].unix_mode.map(|m| m & 0o777), Some(0o644));
    assert_eq!(read[1].unix_mode.map(|m| m & 0o777), Some(0o755));
    assert!(read.iter().all(|e| e.stored));
}

#[test]
fn empty_file_and_empty_archive_pack() {
    let blob = pack_entries(&vec![pack("e", true, b"", Some(0o600))]).ok().unwrap();
    let read = read_archive(blob).ok().unwrap();
    assert_eq!(read.len(), 1);
    assert!(read[0].data.is_empty());
    assert_eq!(read[0].unix_mode.map(|m| m & 0o777), Some(0o600));
    let none = pack_entries(&vec![]).ok().unwrap();
    assert!(read_archive(none).ok().unwrap().is_empty());
}

#[test]
fn unreadable_blob_fails_everywhere() {
    let garbage = vec![0x50, 0x4b, 1, 2, 3, 4, 5, 6, 7, 8];
    assert!(read_archive(garbage.clone()).is_err());
    assert!(cat_archive(garbage.clone(), &Filter::All).is_err());
    assert!(unpack_archive(garbage).is_err());
}

#[test]
fn directory_name_gets_separator() {
    let blob = pack_entries(&vec![pack("d", false, b"", None)]).ok().unwrap();
    let read = read_archive(blob).ok().unwrap();
    assert!(read[0].is_dir);
    assert_eq!(read[0].path, vec!["d"]);
}

#[test]
fn duplicate_names_are_refused() {
    let entries = vec![pack("a", true, b"1", None), pack("a", true, b"2", None)];
    assert!(pack_entries(&entries).is_err());
    let dirs = vec![pack("d", false, b"", None), pack("d/", false, b"", None)];
    assert!(pack_entries(&dirs).is_err());
}

#[test]
fn unpack_of_packed_archive() {
    let blob = pack_entries(&sample()).ok().unwrap();
    let steps = unpack_archive(blob).ok().unwrap();
    let shown: Vec<String> = steps
        .into_iter()
        .map(|s| match s {
            UnpackStep::CreateDir(p) => format!("mkdir {}", p.join("/")),
            UnpackStep::WriteFile(p, d) => format!("write {} {}", p.join("/"), d.len()),
            UnpackStep::SetMode(p, m) => format!("chmod {} {:o}", p.join("/"), m & 0o777),
        })
        .collect();
    assert!(shown.contains(&"write Cargo.toml 10".to_string()));
    assert!(shown.contains(&"mkdir empty".to_string()));
    assert!(shown.contains(&"mkdir src".to_string()));
    assert!(shown.contains(&"write src/main.rs 13".to_string()));
    assert!(shown.contains(&"chmod src/main.rs 755".to_string()));
    assert!(shown.contains(&"write README 2".to_string()));
}

#[test]
fn unpack_of_garbage_fails() {
    assert!(unpack_archive(vec![9; 40]).is_err());
}

#[test]
fn cat_of_packed_archive() {
    let blob = pack_entries(&sample()).ok().unwrap();
    let lines = cat_archive(blob.clone(), &Filter::Extension("rs".to_string())).ok().unwrap();
    let shown: Vec<String> = lines
        .into_iter()
        .map(|l| match l {
            CatLine::Path(p) => format!("path {p}"),
            CatLine::Content(c) => format!("line {c}"),
            CatLine::Blank => "blank".to_string(),
            CatLine::NothingFound => "none".to_string(),
        })
        .collect();
    assert_eq!(shown, vec!["path src/main.rs", "line fn main() {}", "blank"]);
    let none = cat_archive(blob, &Filter::Name("nope".to_string())).ok().unwrap();
    assert!(matches!(none.as_slice(), [CatLine::NothingFound]));
}
