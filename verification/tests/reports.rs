use fordocu::clock::LocalTime;
use fordocu::config::HashConfig;
use fordocu::digest::Hashes;
use fordocu::host::HostInfo;
use fordocu::interview::CaseInfo;
use fordocu::report::write_report;
use fordocu::scan::{EntryType, FileEntry};
use fordocu::verification::{VerificationResult, VerificationStatus};

const ALL: HashConfig = HashConfig { md5: true, sha256: true, sha512: true };

fn case(operator: &str, notes: &str) -> CaseInfo {
    CaseInfo {
        reference: "C-1".to_string(),
        source: "disk".to_string(),
        reason: "audit\nsecond".to_string(),
        operator: operator.to_string(),
        notes: notes.to_string(),
    }
}

fn host(realname: &str) -> HostInfo {
    HostInfo {
        hostname: "h".to_string(),
        username: "u".to_string(),
        realname: realname.to_string(),
        os: "Linux".to_string(),
        kernel: "6.1".to_string(),
        cwd: "/w".to_string(),
    }
}

fn entry(path: &str, entry_type: EntryType) -> FileEntry {
    FileEntry {
        rel_path: path.to_string(),
        entry_type,
        size: 42,
        modified: None,
        hashes: None,
        error: None,
    }
}

fn hashes() -> Option<Hashes> {
    Some(Hashes {
        md5: Some("m5".to_string()),
        sha256: Some("s2".to_string()),
        sha512: Some("s5".to_string()),
    })
}

fn report(
    case: CaseInfo,
    host: HostInfo,
    entries: Vec<FileEntry>,
    cfg: HashConfig,
    results: Vec<VerificationResult>,
) -> String {
    let local = LocalTime::new(1_000_000_000, 7_200).unwrap();
    let utc = LocalTime::new(1_000_000_000, 0).unwrap();
    write_report(&local, &utc, "0.2.0", &case, &host, &entries, &cfg, &results)
}

#[test]
fn a_full_report() {
    let mut file = entry("a.bin", EntryType::File);
    file.modified = Some("2001-09-09 03:46:40 +02:00".to_string());
    file.hashes = hashes();
    let mut lost = entry("lost", EntryType::File);
    lost.error = Some("denied".to_string());
    lost.hashes = hashes();
    let entries = vec![
        entry(".", EntryType::Dir),
        file,
        entry("l", EntryType::Symlink("to".to_string())),
        entry("fifo", EntryType::Other),
        lost,
    ];
    let results = vec![VerificationResult {
        artifact_path: "MD5SUMS".to_string(),
        kind: "MD5 checksum file".to_string(),
        status: VerificationStatus::Failed,
        summary: "bad".to_string(),
        details: vec!["d1".to_string(), "d2".to_string()],
    }];
    let double = "=".repeat(80);
    let single = "-".repeat(80);
    let expected = [
        double.as_str(),
        " DATA COLLECTION REPORT",
        &double,
        "",
        "Generated (local): 2001-09-09 03:46:40 +02:00",
        "Generated (UTC):   2001-09-09 01:46:40 +00:00",
        "Tool:              fordocu v0.2.0",
        "Working directory: /w",
        "",
        "CASE INFORMATION",
        &single,
        "Case reference:             C-1",
        "Data collection source:     disk",
        "Reason for data collection: audit",
        "second",
        "Operator / collector:       me",
        "Notes:",
        "  n1",
        "  n2",
        "",
        "HOST INFORMATION",
        &single,
        "Hostname: h",
        "Username: u",
        "Realname: Uma",
        "OS:       Linux",
        "Kernel:   6.1",
        "",
        "EXISTING INTEGRITY ARTIFACTS",
        &single,
        "[FAILED] MD5SUMS (MD5 checksum file): bad",
        "         d1",
        "         d2",
        "",
        "DIRECTORY LISTING",
        &single,
        "Total entries: 5",
        "Files listed:  2",
        "",
        "Type     Size          Modified              Path  MD5  SHA-256  SHA-512",
        &single,
        "dir      -             -                       .",
        "file     42            2001-09-09 03:46:40 +02:00 a.bin",
        "         MD5:    m5",
        "         SHA-256: s2",
        "         SHA-512: s5",
        "link     -             -                       l",
        "         -> to",
        "other    42            -                       fifo",
        "file     42            -                       lost",
        "         ERROR: denied",
        "",
        "ERRORS",
        &single,
        "  lost: denied",
        "",
        &double,
        "Documented via fordocu v0.2.0 — https://github.com/overcuriousity/fordocu",
        &double,
        "",
    ]
    .join("\n");
    let got = report(case("me", "n1\nn2"), host("Uma"), entries, ALL, results);
    assert_eq!(got, expected);
}

#[test]
fn optional_parts_are_left_out() {
    let mut file = entry("a", EntryType::File);
    file.hashes = hashes();
    let only = HashConfig { md5: false, sha256: true, sha512: false };
    let text = report(case("", ""), host("u"), vec![file], only, vec![]);
    let lines: Vec<&str> = text.lines().collect();
    assert!(!text.contains("Operator"));
    assert!(!text.contains("Notes:"));
    assert!(!text.contains("Realname"));
    assert!(!lines.contains(&"EXISTING INTEGRITY ARTIFACTS"));
    assert!(!lines.contains(&"ERRORS"));
    assert!(!text.contains("m5") && !text.contains("s5"));
    assert!(lines.contains(&"         SHA-256: s2"));
    assert!(lines.contains(&"Type     Size          Modified              Path  SHA-256"));
    assert!(!report(case("", ""), host(""), vec![], ALL, vec![]).contains("Realname"));
}

#[test]
fn the_footer_ends_the_report() {
    let text = report(case("", ""), host(""), vec![], ALL, vec![]);
    let lines: Vec<&str> = text.lines().collect();
    let rule = "=".repeat(80);
    let n = lines.len();
    assert_eq!(lines[n - 1], rule);
    assert_eq!(
        lines[n - 2],
        "Documented via fordocu v0.2.0 — https://github.com/overcuriousity/fordocu"
    );
    assert_eq!(lines[n - 3], rule);
    assert_eq!(lines[n - 4], "");
    assert!(text.ends_with("=\n"));
}

#[test]
fn a_hash_that_is_not_known_is_left_out() {
    let mut file = entry("a", EntryType::File);
    file.hashes = Some(Hashes { md5: None, sha256: Some("s2".to_string()), sha512: None });
    let text = report(case("", ""), host(""), vec![file], ALL, vec![]);
    assert!(text.contains("         SHA-256: s2\n"));
    assert!(!text.contains("MD5:"));
    assert!(!text.contains("SHA-512:"));
}
