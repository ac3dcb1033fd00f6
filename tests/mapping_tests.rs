use rusty_usn::mapping::{effective_reference, FolderMapping};
use rusty_usn::reference::MftReference;

fn sample() -> FolderMapping {
    let mut m = FolderMapping::new();
    m.add_mapping(MftReference::new(10, 1), "dir".to_string(), MftReference::new(5, 5));
    m.add_mapping(MftReference::new(20, 1), "sub".to_string(), MftReference::new(10, 1));
    m.add_mapping(MftReference::new(30, 1), "file".to_string(), MftReference::new(20, 1));
    m
}

#[test]
fn path_enumeration_walks_to_root() {
    let mut m = sample();
    assert_eq!(m.enumerate_path(30, 1).unwrap(), "[root]/dir/sub/file");
    assert_eq!(m.enumerate_path(5, 5).unwrap(), "[root]");
}

#[test]
fn removed_link_gives_unknown() {
    let mut m = sample();
    m.remove_mapping(MftReference::new(20, 1));
    let p = m.enumerate_path(30, 1).unwrap();
    assert!(p.contains("[<unknown>]"));
    assert!(!p.contains("sub"));
    assert_eq!(p, "[<unknown>]/file");
    assert_eq!(m.enumerate_path(20, 1).unwrap(), "[<unknown>]");
}

#[test]
fn add_then_enumerate_ends_with_name() {
    let mut m = sample();
    assert_eq!(m.enumerate_path(20, 1).unwrap(), "[root]/dir/sub");
    m.add_mapping(MftReference::new(20, 1), "renamed".to_string(), MftReference::new(10, 1));
    let p = m.enumerate_path(20, 1).unwrap();
    assert!(p.ends_with("renamed"));
    assert_eq!(p, "[root]/dir/renamed");
}

#[test]
fn enumeration_is_idempotent() {
    let mut m = sample();
    let a = m.enumerate_path(30, 1).unwrap();
    let b = m.enumerate_path(30, 1).unwrap();
    assert_eq!(a, b);
}

#[test]
fn cycles_are_cut() {
    let mut m = FolderMapping::new();
    m.add_mapping(MftReference::new(40, 1), "a".to_string(), MftReference::new(41, 1));
    m.add_mapping(MftReference::new(41, 1), "b".to_string(), MftReference::new(40, 1));
    let p = m.enumerate_path(40, 1).unwrap();
    assert!(p.starts_with("[<unknown>]"));
    assert!(p.ends_with("b/a"));
}

#[test]
fn other_sequence_is_another_file() {
    let mut m = sample();
    assert!(m.contains_reference(&MftReference::new(10, 1)));
    assert!(!m.contains_reference(&MftReference::new(10, 2)));
    assert_eq!(m.enumerate_path(10, 2).unwrap(), "[<unknown>]");
}

#[test]
fn unallocated_directory_sequence_is_lowered() {
    let r = effective_reference(77, 7, false, 0, 0);
    assert_eq!(r, MftReference::new(77, 6));
    assert_eq!(effective_reference(77, 7, true, 0, 0), MftReference::new(77, 7));
    assert_eq!(effective_reference(77, 7, false, 12, 3), MftReference::new(12, 3));
    let mut m = FolderMapping::new();
    m.add_mft_entry(77, 7, false, true, 0, 0, Some(("gone".to_string(), MftReference::new(5, 5))));
    assert!(m.contains_reference(&MftReference::new(77, 6)));
    assert!(!m.contains_reference(&MftReference::new(77, 7)));
    assert_eq!(m.enumerate_path(77, 6).unwrap(), "[root]/gone");
}

#[test]
fn root_and_files_are_not_mapped() {
    let mut m = FolderMapping::new();
    m.add_mft_entry(5, 5, true, true, 0, 0, Some((".".to_string(), MftReference::new(5, 5))));
    m.add_mft_entry(90, 1, true, false, 0, 0, Some(("f".to_string(), MftReference::new(5, 5))));
    m.add_mft_entry(91, 1, true, true, 0, 0, None);
    assert!(!m.contains_reference(&MftReference::new(5, 5)));
    assert!(!m.contains_reference(&MftReference::new(90, 1)));
    assert!(!m.contains_reference(&MftReference::new(91, 1)));
}

#[test]
fn removing_a_parent_after_caching_gives_unknown() {
    let mut m = sample();
    assert_eq!(m.enumerate_path(30, 1).unwrap(), "[root]/dir/sub/file");
    m.remove_mapping(MftReference::new(20, 1));
    let p = m.enumerate_path(30, 1).unwrap();
    assert!(p.contains("[<unknown>]"));
    assert!(!p.contains("sub"));
}

#[test]
fn renaming_a_parent_after_caching_renames_descendants() {
    let mut m = sample();
    assert_eq!(m.enumerate_path(30, 1).unwrap(), "[root]/dir/sub/file");
    m.add_mapping(MftReference::new(10, 1), "top".to_string(), MftReference::new(5, 5));
    assert_eq!(m.enumerate_path(30, 1).unwrap(), "[root]/top/sub/file");
}
