use fordocu::artifact::{ArtifactKind, ExistingArtifact};
use fordocu::digest::ChecksumAlgorithm;
use fordocu::signature::{
    combined_output, conclude_signature, extract_gpg_signer, verify_arguments,
    verify_detached_signature, GpgOutput,
};
use fordocu::verification::{announcement, VerificationResult, VerificationStatus};
use fordocu::verify::verify_artifacts;

fn output(success: bool, stdout: &[u8], stderr: &[u8]) -> GpgOutput {
    GpgOutput { success, stdout: stdout.to_vec(), stderr: stderr.to_vec() }
}

#[test]
fn statuses_have_words() {
    assert_eq!(VerificationStatus::Verified.as_str(), "OK");
    assert_eq!(VerificationStatus::Failed.as_str(), "FAILED");
    assert_eq!(VerificationStatus::Missing.as_str(), "MISSING");
    assert_eq!(VerificationStatus::Error.as_str(), "ERROR");
}

#[test]
fn the_signer_is_extracted() {
    let quoted = "gpg: Signature made today\ngpg: Good signature from \"A B <a@b>\" [full]\n";
    assert_eq!(extract_gpg_signer(quoted).unwrap(), "Good signature from A B <a@b>");
    let bare = "gpg: Good signature from A B\r\nmore";
    assert_eq!(extract_gpg_signer(bare).unwrap(), "Good signature from A B");
    let open = "x Good signature from \"A B";
    assert_eq!(extract_gpg_signer(open).unwrap(), "Good signature from \"A B");
    assert_eq!(extract_gpg_signer("Good signature\n"), None);
    assert_eq!(extract_gpg_signer(""), None);
}

#[test]
fn gpg_decides_about_a_signature() {
    for (success, text, status, summary) in [
        (true, "Good signature from \"A\"", VerificationStatus::Verified, "Good signature from A"),
        (true, "fine", VerificationStatus::Verified, "Good signature"),
        (false, "gpg: BAD signature from A", VerificationStatus::Failed, "BAD signature"),
        (false, "gpg: No public key", VerificationStatus::Error, "Public key not found"),
        (false, "No such file or directory", VerificationStatus::Error, "Public key not found"),
        (false, " \n odd\n ", VerificationStatus::Error, "GPG verification failed: odd"),
    ] {
        let result = conclude_signature("a.asc", success, text);
        assert_eq!(result.status, status);
        assert_eq!(result.summary, summary);
        assert_eq!(result.artifact_path, "a.asc");
        assert_eq!(result.kind, "GPG signature");
        let lines: Vec<String> = text.lines().map(|l| l.to_string()).collect();
        assert_eq!(result.details, lines);
    }
}

#[test]
fn the_error_output_comes_first() {
    let both = output(false, b"out\xff", b"err\n");
    assert_eq!(combined_output(&both), "err\nout\u{fffd}");
}

#[test]
fn a_signature_is_verified_against_its_namesake() {
    let result = verify_detached_signature(
        "dir/a.txt.asc",
        |name: &String| name == "a.txt",
        |args: &Vec<String>| {
            assert_eq!(args, &vec!["--verify", "dir/a.txt.asc", "a.txt"]);
            Ok(output(true, b"", b"gpg: Good signature from \"A\" [ultimate]\n"))
        },
    )
    .unwrap();
    assert_eq!(result.status, VerificationStatus::Verified);
    assert_eq!(result.summary, "Good signature from A");
    assert_eq!(result.details, vec!["gpg: Good signature from \"A\" [ultimate]"]);
}

#[test]
fn gpg_is_told_what_to_verify() {
    assert_eq!(verify_arguments("dir/a.sig", "a"), vec!["--verify", "dir/a.sig", "a"]);
}

#[test]
fn without_the_signed_file_gpg_is_not_asked() {
    let result = verify_detached_signature(
        "dir/a.txt.asc",
        |_: &String| false,
        |_: &Vec<String>| panic!("asked"),
    )
    .unwrap();
    assert_eq!(result.status, VerificationStatus::Missing);
    assert_eq!(result.summary, "Signed file 'a.txt' not found");
    assert!(result.details.is_empty());
}

#[test]
fn a_failure_to_run_gpg_is_passed_on() {
    let result = verify_detached_signature(
        "a.sig",
        |_: &String| true,
        |_: &Vec<String>| Err("Failed to run gpg --verify".to_string()),
    );
    assert_eq!(result.err().unwrap(), "Failed to run gpg --verify");
}

fn artifacts() -> Vec<ExistingArtifact> {
    vec![
        ExistingArtifact {
            rel_path: "SHA1SUMS".to_string(),
            kind: ArtifactKind::ChecksumFile(ChecksumAlgorithm::Sha1),
        },
        ExistingArtifact {
            rel_path: "a.asc".to_string(),
            kind: ArtifactKind::DetachedSignature,
        },
    ]
}

fn plain(path: &str, kind: &str) -> VerificationResult {
    VerificationResult {
        artifact_path: path.to_string(),
        kind: kind.to_string(),
        status: VerificationStatus::Verified,
        summary: "fine".to_string(),
        details: vec![],
    }
}

#[test]
fn every_artifact_is_verified_in_order() {
    let results = verify_artifacts(
        &artifacts(),
        Some("gpg2"),
        |path: &String, algorithm: ChecksumAlgorithm| {
            assert_eq!(algorithm, ChecksumAlgorithm::Sha1);
            Ok(plain(path, "sums"))
        },
        |path: &String, gpg: &str| Ok(plain(path, gpg)),
    );
    assert_eq!(results.len(), 2);
    assert_eq!((results[0].artifact_path.as_str(), results[0].kind.as_str()), ("SHA1SUMS", "sums"));
    assert_eq!((results[1].artifact_path.as_str(), results[1].kind.as_str()), ("a.asc", "gpg2"));
}

#[test]
fn without_gpg_signatures_are_errors() {
    let results = verify_artifacts(
        &artifacts(),
        None,
        |_: &String, _: ChecksumAlgorithm| Err("no luck".to_string()),
        |_: &String, _: &str| panic!("asked"),
    );
    assert_eq!(results[0].status, VerificationStatus::Error);
    assert_eq!(results[0].kind, "SHA-1 checksum file");
    assert_eq!(results[0].summary, "Verification error: no luck");
    assert_eq!(results[1].status, VerificationStatus::Error);
    assert_eq!(results[1].kind, "GPG signature");
    assert_eq!(results[1].summary, "GPG not available");
    assert!(results[1].details.is_empty());
}

#[test]
fn a_failed_signature_check_is_an_error() {
    let results = verify_artifacts(
        &artifacts(),
        Some("gpg"),
        |path: &String, _: ChecksumAlgorithm| Ok(plain(path, "sums")),
        |_: &String, _: &str| Err("no gpg".to_string()),
    );
    assert_eq!(results[1].artifact_path, "a.asc");
    assert_eq!(results[1].kind, "GPG signature");
    assert_eq!(results[1].summary, "Verification error: no gpg");
}

#[test]
fn results_are_announced() {
    let mut result = plain("a.md5", "MD5 checksum file");
    let line = announcement(&result);
    assert_eq!((line.text.as_str(), line.is_warning), ("  OK   a.md5: fine", false));
    result.status = VerificationStatus::Missing;
    let line = announcement(&result);
    assert_eq!((line.text.as_str(), line.is_warning), ("  MISSING a.md5: fine", true));
}
