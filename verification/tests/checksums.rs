use fordocu::checksum::{
    assess, checksum_entries, conclude_checksums, parse_checksum_line, unescape_filename,
    verify_checksum_file, ChecksumEntry, EntryStatus, FileCheck,
};
use fordocu::digest::{AlgorithmHasher, ChecksumAlgorithm};
use fordocu::verification::VerificationStatus;

fn md5(data: &[u8]) -> String {
    let mut hasher = AlgorithmHasher::new(ChecksumAlgorithm::Md5);
    hasher.update(data);
    hasher.finish()
}

fn pair(hash: &str, name: &str) -> Option<(String, String)> {
    Some((hash.to_string(), name.to_string()))
}

#[test]
fn names_are_unescaped() {
    assert_eq!(unescape_filename("plain"), "plain");
    assert_eq!(unescape_filename("a\\nb\\rc\\td"), "a\nb\rc\td");
    assert_eq!(unescape_filename("a\\\\b"), "a\\b");
    assert_eq!(unescape_filename("\\x\\é"), "xé");
    assert_eq!(unescape_filename("end\\"), "end\\");
    assert_eq!(unescape_filename(""), "");
}

#[test]
fn escaped_names_come_back() {
    for name in ["a b", "a\\b", "line\nfeed", "\r", "\\n", "\\\\"] {
        let escaped = name.replace('\\', "\\\\").replace('\n', "\\n").replace('\r', "\\r");
        assert_eq!(unescape_filename(&escaped), name);
    }
}

#[test]
fn checksum_lines_are_parsed() {
    assert_eq!(parse_checksum_line("AbC  name"), pair("abc", "name"));
    assert_eq!(parse_checksum_line("abc *name"), pair("abc", "name"));
    assert_eq!(parse_checksum_line("abc **name"), pair("abc", "*name"));
    assert_eq!(parse_checksum_line("abc  a b c"), pair("abc", "a b c"));
    assert_eq!(parse_checksum_line("abc \t\u{a0}name"), pair("abc", "name"));
    assert_eq!(parse_checksum_line("ÀΣ x"), pair("àς", "x"));
    assert_eq!(parse_checksum_line("abc a\\nb"), pair("abc", "a\nb"));
}

#[test]
fn lines_without_hash_or_name_are_no_entries() {
    for line in ["", "abc", "abc ", "abc   ", " name", "abc *", "abc\tname"] {
        assert_eq!(parse_checksum_line(line), None, "{:?}", line);
    }
}

#[test]
fn comments_are_skipped() {
    let content = "# comment\n; other\n\n   \n  ABC  one  \r\nno_entry\n#\ndef *two\n";
    let entries = checksum_entries(content);
    let found: Vec<(String, String)> =
        entries.into_iter().map(|e| (e.expected, e.file_name)).collect();
    assert_eq!(
        found,
        vec![
            ("abc".to_string(), "one".to_string()),
            ("def".to_string(), "two".to_string())
        ]
    );
}

#[test]
fn entries_are_assessed() {
    let entry = ChecksumEntry { expected: "ab".to_string(), file_name: "f".to_string() };
    let (status, detail) = assess(&entry, &FileCheck::Hashed("aB".to_string()));
    assert_eq!((status, detail), (EntryStatus::Matched, None));
    let (status, detail) = assess(&entry, &FileCheck::Hashed("cd".to_string()));
    assert_eq!((status, detail), (EntryStatus::Failed, Some("f: expected ab, got cd".to_string())));
    let (status, detail) = assess(&entry, &FileCheck::Missing);
    assert_eq!((status, detail), (EntryStatus::Missing, Some("f: referenced file not found".to_string())));
    let (status, detail) = assess(&entry, &FileCheck::Unreadable);
    assert_eq!((status, detail), (EntryStatus::Error, Some("f: could not verify".to_string())));
}

fn verify(content: &str) -> (VerificationStatus, String, Vec<String>) {
    let result = verify_checksum_file(
        "dir/MD5SUMS",
        ChecksumAlgorithm::Md5,
        content,
        |name: &String, algorithm: ChecksumAlgorithm| match name.as_str() {
            _ if algorithm != ChecksumAlgorithm::Md5 => panic!("{}", name),
            "empty" => FileCheck::Hashed(md5(b"")),
            "abc" => FileCheck::Hashed(md5(b"abc")),
            "locked" => FileCheck::Unreadable,
            "gone" => FileCheck::Missing,
            _ => panic!("{}", name),
        },
    );
    assert_eq!(result.artifact_path, "dir/MD5SUMS");
    assert_eq!(result.kind, "MD5 checksum file");
    (result.status, result.summary, result.details)
}

const EMPTY: &str = "D41D8CD98F00B204E9800998ECF8427E  empty\n";
const ABC: &str = "900150983cd24fb0d6963f7d28e17f72 *abc\n";
const WRONG: &str = "00000000000000000000000000000000  abc\n";
const GONE: &str = "00000000000000000000000000000000  gone\n";
const LOCKED: &str = "00000000000000000000000000000000  locked\n";

#[test]
fn matching_files_pass() {
    let (status, summary, details) = verify(&format!("{}{}", EMPTY, ABC));
    assert_eq!(status, VerificationStatus::Verified);
    assert_eq!(summary, "2 matched, 0 failed, 0 missing, 0 errors out of 2 entries");
    assert!(details.is_empty());
}

#[test]
fn a_mismatch_fails() {
    let (status, summary, details) = verify(&format!("{}{}{}", EMPTY, WRONG, GONE));
    assert_eq!(status, VerificationStatus::Failed);
    assert_eq!(summary, "1 matched, 1 failed, 1 missing, 0 errors out of 3 entries");
    assert_eq!(
        details,
        vec![
            "abc: expected 00000000000000000000000000000000, got 900150983cd24fb0d6963f7d28e17f72",
            "gone: referenced file not found",
        ]
    );
}

#[test]
fn an_unreadable_file_fails() {
    let (status, summary, details) = verify(&format!("{}{}", LOCKED, ABC));
    assert_eq!(status, VerificationStatus::Failed);
    assert_eq!(summary, "1 matched, 0 failed, 0 missing, 1 errors out of 2 entries");
    assert_eq!(details, vec!["locked: could not verify"]);
}

#[test]
fn a_missing_file_is_missing() {
    let (status, summary, _) = verify(&format!("{}{}", ABC, GONE));
    assert_eq!(status, VerificationStatus::Missing);
    assert_eq!(summary, "1 matched, 0 failed, 1 missing, 0 errors out of 2 entries");
}

#[test]
fn a_file_without_entries_is_an_error() {
    let (status, summary, details) = verify("# nothing\n");
    assert_eq!(status, VerificationStatus::Error);
    assert_eq!(summary, "No valid checksum entries found");
    assert!(details.is_empty());
}

#[test]
fn a_written_checksum_file_verifies() {
    let names = ["empty", "abc"];
    let datas: [&[u8]; 2] = [b"", b"abc"];
    let mut content = String::new();
    for (name, data) in names.iter().zip(datas) {
        content.push_str(&format!("{}  {}\n", md5(data), name));
    }
    let entries = checksum_entries(&content);
    assert_eq!(entries.len(), 2);
    let checks: Vec<FileCheck> = datas.iter().map(|d| FileCheck::Hashed(md5(d))).collect();
    let result = conclude_checksums("MD5SUMS", ChecksumAlgorithm::Md5, &entries, &checks);
    assert_eq!(result.status, VerificationStatus::Verified);
    assert!(result.details.is_empty());
}
