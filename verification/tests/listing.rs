use fordocu::artifact::ArtifactKind;
use fordocu::clock::{format_time, LocalTime};
use fordocu::digest::{ChecksumAlgorithm, Hashes};
use fordocu::naming::{generate_report_name, report_candidate, signature_name};
use fordocu::scan::{
    count_files, hash_entries, list_node, needs_hash, scan_directory, EntryType, FileEntry,
    FoundNode, Metadata, NodeType,
};

fn moment() -> LocalTime {
    LocalTime::new(1_000_000_000, 7_200).unwrap()
}

fn node(path: &str, node_type: NodeType) -> Option<FoundNode> {
    Some(FoundNode {
        rel_path: path.to_string(),
        node_type,
        metadata: Ok(Metadata { size: 12, modified: Some(moment()) }),
    })
}

#[test]
fn moments_are_written_in_local_time() {
    assert_eq!(moment().listing(), "2001-09-09 03:46:40 +02:00");
    assert_eq!(moment().for_file_name(), "20010909_034640");
    let west = LocalTime::new(0, -12_600).unwrap();
    assert_eq!(west.listing(), "1969-12-31 20:30:00 -03:30");
    let utc = LocalTime::new(0, 0).unwrap();
    assert_eq!(format_time(Some(utc)).unwrap(), "1970-01-01 00:00:00 +00:00");
    assert_eq!(format_time(None), None);
}

#[test]
fn the_calendar_has_an_end() {
    assert!(LocalTime::new(8_210_266_876_799, 0).is_some());
    assert!(LocalTime::new(8_210_266_876_800, 0).is_none());
    assert!(LocalTime::new(-8_334_601_228_800, 0).is_some());
    assert!(LocalTime::new(-8_334_601_228_801, 0).is_none());
    assert!(LocalTime::new(0, 86_400).is_none());
    assert!(LocalTime::new(0, -86_400).is_none());
    for seconds in [8_210_266_876_799, -8_334_601_228_800] {
        for offset in [86_399, 0, -86_399] {
            let time = LocalTime::new(seconds, offset).unwrap();
            assert!(!time.listing().is_empty());
            assert!(!time.for_file_name().is_empty());
        }
    }
}

#[test]
fn the_first_free_name_is_taken() {
    let none: Vec<String> = Vec::new();
    let name = generate_report_name(&moment(), |n: &String| none.contains(n)).unwrap();
    assert_eq!(name, "collection_report_20010909_034640.txt");
    let taken = vec![name.clone(), "collection_report_20010909_034640-1.txt".to_string()];
    let name = generate_report_name(&moment(), |n: &String| taken.contains(n)).unwrap();
    assert_eq!(name, "collection_report_20010909_034640-2.txt");
    assert_eq!(signature_name(&name), "collection_report_20010909_034640-2.txt.asc");
}

#[test]
fn candidates_differ() {
    let names: Vec<String> = (0..120).map(|n| report_candidate("t", n)).collect();
    for i in 0..names.len() {
        for k in 0..i {
            assert_ne!(names[i], names[k]);
        }
    }
    assert_eq!(names[0], "collection_report_t.txt");
    assert_eq!(names[17], "collection_report_t-17.txt");
}

#[test]
fn nodes_are_listed() {
    let entry = list_node(&node("", NodeType::Dir).unwrap());
    assert_eq!(entry.rel_path, ".");
    assert!(matches!(entry.entry_type, EntryType::Dir));
    assert_eq!(entry.size, 12);
    assert_eq!(entry.modified.as_deref(), Some("2001-09-09 03:46:40 +02:00"));
    assert!(entry.hashes.is_none());
    assert_eq!(entry.error, None);

    let link = list_node(&node("l", NodeType::Symlink(Some("to".to_string()))).unwrap());
    assert!(matches!(link.entry_type, EntryType::Symlink(ref target) if target == "to"));
    let link = list_node(&node("l", NodeType::Symlink(None)).unwrap());
    assert!(matches!(link.entry_type, EntryType::Symlink(ref target) if target == "?"));
    let other = list_node(&node("o", NodeType::Other).unwrap());
    assert!(matches!(other.entry_type, EntryType::Other));

    let lost = FoundNode {
        rel_path: "f".to_string(),
        node_type: NodeType::File,
        metadata: Err("denied".to_string()),
    };
    let entry = list_node(&lost);
    assert_eq!((entry.size, entry.modified, entry.error), (0, None, Some("denied".to_string())));
}

#[test]
fn the_report_and_artifacts_are_not_listed() {
    let found = vec![
        node("", NodeType::Dir),
        node("r.txt", NodeType::File),
        None,
        node("r.txt.asc", NodeType::File),
        node("sub/r.txt", NodeType::File),
        node("SHA256SUMS", NodeType::File),
        node("old.txt.sig", NodeType::File),
        node("data.bin", NodeType::File),
    ];
    let (entries, artifacts) = scan_directory(&found, "r.txt", "r.txt.asc");
    let paths: Vec<&str> = entries.iter().map(|e| e.rel_path.as_str()).collect();
    assert_eq!(paths, vec![".", "sub/r.txt", "data.bin"]);
    let paths: Vec<&str> = artifacts.iter().map(|a| a.rel_path.as_str()).collect();
    assert_eq!(paths, vec!["SHA256SUMS", "old.txt.sig"]);
    assert_eq!(artifacts[0].kind, ArtifactKind::ChecksumFile(ChecksumAlgorithm::Sha256));
    assert_eq!(artifacts[1].kind, ArtifactKind::DetachedSignature);
    assert_eq!(count_files(&entries), 2);
}

#[test]
fn a_directory_is_listed_whatever_its_name() {
    let found = vec![
        node("backup.md5", NodeType::Dir),
        node("backup.md5/data", NodeType::File),
        node("old.sig", NodeType::Dir),
        node("SHA1SUMS", NodeType::Dir),
        node("backup.md5/SHA1SUMS", NodeType::File),
        node("link.asc", NodeType::Symlink(Some("to".to_string()))),
    ];
    let (entries, artifacts) = scan_directory(&found, "r.txt", "r.txt.asc");
    let paths: Vec<&str> = entries.iter().map(|e| e.rel_path.as_str()).collect();
    assert_eq!(paths, vec!["backup.md5", "backup.md5/data", "old.sig", "SHA1SUMS"]);
    assert!(matches!(entries[0].entry_type, EntryType::Dir));
    let paths: Vec<&str> = artifacts.iter().map(|a| a.rel_path.as_str()).collect();
    assert_eq!(paths, vec!["backup.md5/SHA1SUMS", "link.asc"]);

    let (entries, artifacts) = scan_directory(&found, "old.sig", "SHA1SUMS");
    assert!(entries.iter().all(|e| e.rel_path != "old.sig" && e.rel_path != "SHA1SUMS"));
    assert_eq!(artifacts.len(), 2);
}

fn hashes(md5: &str) -> Hashes {
    Hashes { md5: Some(md5.to_string()), sha256: None, sha512: None }
}

#[test]
fn only_sound_files_are_hashed() {
    let mut entries: Vec<FileEntry> = vec![
        list_node(&node("d", NodeType::Dir).unwrap()),
        list_node(&node("good", NodeType::File).unwrap()),
        list_node(&node("bad", NodeType::File).unwrap()),
        list_node(&node("lost", NodeType::File).unwrap()),
    ];
    entries[3].error = Some("denied".to_string());
    let wanted: Vec<bool> = entries.iter().map(needs_hash).collect();
    assert_eq!(wanted, vec![false, true, true, false]);
    let entries = hash_entries(entries, |path: &String| match path.as_str() {
        "good" => Ok(hashes("ab")),
        "bad" => Err("unreadable".to_string()),
        _ => panic!("{}", path),
    });
    assert_eq!(entries.len(), 4);
    assert!(entries[0].hashes.is_none() && entries[0].error.is_none());
    assert_eq!(entries[1].hashes.as_ref().unwrap().md5.as_deref(), Some("ab"));
    assert_eq!(entries[1].error, None);
    assert!(entries[2].hashes.is_none());
    assert_eq!(entries[2].error.as_deref(), Some("unreadable"));
    assert_eq!(entries[3].error.as_deref(), Some("denied"));
    assert_eq!(entries[3].rel_path, "lost");
}
