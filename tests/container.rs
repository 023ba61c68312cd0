use rs_script::commands::{stats, strip};
use rs_script::container::{Corruption, FileContents};
use rs_script::run::{check_runnable, exit_code, runnable_binary, NotRunnable};

fn encoded(archive: &[u8], target: &str, executable: &[u8]) -> Vec<u8> {
    FileContents::new(archive.to_vec(), executable.to_vec(), target)
        .as_bytes()
        .to_vec()
}

#[test]
fn decode_after_encode_gives_sections_back() {
    let bytes = encoded(&[1, 2, 3], "x86_64-unknown-linux-gnu", &[9, 8]);
    let c = FileContents::from_bytes(bytes).ok().unwrap();
    assert_eq!(c.zipped_contents(), &[1, 2, 3]);
    assert_eq!(c.bin_contents(), &[9, 8]);
    assert_eq!(c.target_triple(), "x86_64-unknown-linux-gnu");
    assert_eq!(c.target_bytes(), b"x86_64-unknown-linux-gnu");
}

#[test]
fn decode_after_encode_with_empty_sections() {
    let bytes = encoded(&[], "t", &[]);
    assert_eq!(bytes.len(), 17);
    let c = FileContents::from_bytes(bytes).ok().unwrap();
    assert!(c.zipped_contents().is_empty());
    assert!(c.bin_contents().is_empty());
    assert_eq!(c.target_triple(), "t");
}

#[test]
fn layout_is_lengths_then_sections() {
    let bytes = encoded(&[7, 7], "ab", &[5]);
    assert_eq!(
        bytes,
        vec![2, 0, 0, 0, 0, 0, 0, 0, 7, 7, 2, 0, 0, 0, 0, 0, 0, 0, b'a', b'b', 5]
    );
}

#[test]
fn scenario_fake_target_container() {
    let c = FileContents::new(vec![], vec![1, 2, 3], "x86_64-fake");
    let bytes = c.as_bytes().to_vec();
    assert_eq!(&bytes[0..8], &0u64.to_le_bytes());
    assert_eq!(&bytes[8..16], &11u64.to_le_bytes());
    let d = FileContents::from_bytes(bytes).ok().unwrap();
    assert!(d.zipped_contents().is_empty());
    assert_eq!(d.target_triple(), "x86_64-fake");
    assert_eq!(d.bin_contents(), &[1, 2, 3]);
    match runnable_binary(&d, "x86_64-other") {
        Err(NotRunnable::TargetMismatch { found, current }) => {
            assert_eq!(found, "x86_64-fake");
            assert_eq!(current, "x86_64-other");
        }
        _ => panic!("expected a target mismatch"),
    }
    let reason = runnable_binary(&d, "x86_64-other").err().unwrap();
    assert_eq!(
        reason.message(),
        "File compiled for target 'x86_64-fake', whereas current target is 'x86_64-other'"
    );
}

#[test]
fn run_without_executable_is_no_binary() {
    let c = FileContents::new(vec![1], vec![], "x86_64-fake");
    let r = runnable_binary(&c, "x86_64-fake");
    assert!(matches!(r, Err(NotRunnable::NoBinary)));
    assert_eq!(r.err().unwrap().message(), "rss file has no binary");
}

#[test]
fn run_on_matching_target_gives_executable() {
    let c = FileContents::new(vec![1], vec![4, 5], "here");
    assert_eq!(runnable_binary(&c, "here").ok().unwrap(), &[4, 5]);
}

#[test]
fn exit_code_without_code_is_zero() {
    assert_eq!(exit_code(None), 0);
    assert_eq!(exit_code(Some(3)), 3);
    assert_eq!(exit_code(Some(-1)), -1);
}

#[test]
fn remove_binary_twice_equals_once() {
    let mut c = FileContents::new(vec![1, 2], vec![3, 4, 5], "tt");
    c.remove_binary();
    let once = c.as_bytes().to_vec();
    c.remove_binary();
    assert_eq!(c.as_bytes(), &once[..]);
    assert_eq!(once.len(), 8 + 2 + 8 + 2);
    assert!(c.bin_contents().is_empty());
    assert_eq!(c.zipped_contents(), &[1, 2]);
    assert_eq!(c.target_triple(), "tt");
}

#[test]
fn replace_binary_keeps_archive() {
    let mut c = FileContents::new(vec![1, 2, 3], vec![9], "old-target");
    c.replace_binary("new", &[7, 7, 7, 7]);
    assert_eq!(c.zipped_contents(), &[1, 2, 3]);
    assert_eq!(c.target_triple(), "new");
    assert_eq!(c.bin_contents(), &[7, 7, 7, 7]);
    assert_eq!(c.as_bytes(), &encoded(&[1, 2, 3], "new", &[7, 7, 7, 7])[..]);

    let mut stripped = FileContents::new(vec![4], vec![], "a");
    stripped.replace_binary("bb", &[1]);
    assert_eq!(stripped.zipped_contents(), &[4]);
    assert_eq!(stripped.bin_contents(), &[1]);
}

#[test]
fn truncation_before_end_of_target_fails() {
    let full = encoded(&[1, 2, 3], "target", &[]);
    for cut in 0..full.len() {
        assert!(
            FileContents::from_bytes(full[..cut].to_vec()).is_err(),
            "cut at {cut} decoded"
        );
    }
}

#[test]
fn truncation_inside_executable_keeps_offsets() {
    let full = encoded(&[1, 2, 3], "tg", &[4, 5, 6]);
    let end_of_target = 8 + 3 + 8 + 2;
    for cut in 0..full.len() {
        let r = FileContents::from_bytes(full[..cut].to_vec());
        if cut < end_of_target {
            assert!(r.is_err());
        } else {
            let c = r.ok().unwrap();
            assert_eq!(c.zipped_contents(), &[1, 2, 3]);
            assert_eq!(c.target_triple(), "tg");
            assert_eq!(c.bin_contents(), &[4, 5, 6][..cut - end_of_target]);
        }
    }
}

#[test]
fn too_short_is_first_stage() {
    let r = FileContents::from_bytes(vec![0; 7]);
    assert_eq!(r.err(), Some(Corruption::TooShort));
    assert_eq!(Corruption::TooShort.code(), "E1");
}

#[test]
fn archive_length_past_end_is_second_stage() {
    let mut bytes = 5u64.to_le_bytes().to_vec();
    bytes.extend_from_slice(&[0; 12]);
    assert_eq!(FileContents::from_bytes(bytes).err(), Some(Corruption::ArchiveLength));
    let huge = u64::MAX.to_le_bytes().to_vec();
    assert_eq!(FileContents::from_bytes(huge).err(), Some(Corruption::ArchiveLength));
    assert_eq!(Corruption::ArchiveLength.code(), "E2");
}

#[test]
fn target_length_past_end_is_third_stage() {
    let mut bytes = 1u64.to_le_bytes().to_vec();
    bytes.push(42);
    bytes.extend_from_slice(&4u64.to_le_bytes());
    bytes.extend_from_slice(b"abc");
    assert_eq!(FileContents::from_bytes(bytes).err(), Some(Corruption::TargetLength));
    assert_eq!(Corruption::TargetLength.code(), "E46");
}

#[test]
fn non_utf8_target_is_replaced() {
    let mut bytes = 0u64.to_le_bytes().to_vec();
    bytes.extend_from_slice(&1u64.to_le_bytes());
    bytes.push(0xff);
    let c = FileContents::from_bytes(bytes).ok().unwrap();
    assert_eq!(c.target_triple(), "\u{fffd}");
}

#[test]
fn stats_reports_section_sizes() {
    let c = FileContents::new(vec![0; 10], vec![0; 4], "abc");
    let s = stats(&c);
    assert_eq!(s.archive_size, 10);
    assert_eq!(s.target_size, 11);
    assert_eq!(s.binary_size, 4);
    assert_eq!(s.total_size, 8 + 10 + 8 + 3 + 4);
}

#[test]
fn strip_drops_executable() {
    let bytes = encoded(&[1], "t", &[2, 3]);
    let c = strip(bytes).ok().unwrap();
    assert_eq!(c.as_bytes(), &encoded(&[1], "t", &[])[..]);
    assert_eq!(strip(vec![1, 2]).err(), Some(Corruption::TooShort));
}

#[test]
fn check_runnable_decides_from_target_text() {
    assert!(matches!(check_runnable(&[], "a".to_string(), "a"), Err(NotRunnable::NoBinary)));
    assert_eq!(check_runnable(&[1], "a".to_string(), "a").ok().unwrap(), &[1]);
    match check_runnable(&[1], "a".to_string(), "b") {
        Err(NotRunnable::TargetMismatch { found, current }) => {
            assert_eq!(found, "a");
            assert_eq!(current, "b");
        }
        _ => panic!("expected a target mismatch"),
    }
}
