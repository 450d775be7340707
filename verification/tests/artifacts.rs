use fordocu::artifact::{checksum_algorithm_from_name, detect_artifact, file_name, ArtifactKind};
use fordocu::digest::ChecksumAlgorithm;
use fordocu::signature::guess_signed_file;

const NAMES: [(&str, ChecksumAlgorithm); 12] = [
    ("MD5SUMS", ChecksumAlgorithm::Md5),
    ("md5sums.txt", ChecksumAlgorithm::Md5),
    ("image.md5", ChecksumAlgorithm::Md5),
    ("SHA1SUMS", ChecksumAlgorithm::Sha1),
    ("Sha1Sums.Txt", ChecksumAlgorithm::Sha1),
    ("image.Sha1", ChecksumAlgorithm::Sha1),
    ("SHA256SUMS", ChecksumAlgorithm::Sha256),
    ("sha256sums.txt", ChecksumAlgorithm::Sha256),
    ("image.sha256", ChecksumAlgorithm::Sha256),
    ("SHA512SUMS", ChecksumAlgorithm::Sha512),
    ("sha512sums.txt", ChecksumAlgorithm::Sha512),
    (".sha512", ChecksumAlgorithm::Sha512),
];

fn by_upper_case(name: &str) -> Option<ChecksumAlgorithm> {
    let upper = name.to_uppercase();
    let is = |listing: &str, ending: &str| {
        upper == listing || upper == format!("{}.TXT", listing) || upper.ends_with(ending)
    };
    if is("MD5SUMS", ".MD5") {
        Some(ChecksumAlgorithm::Md5)
    } else if is("SHA1SUMS", ".SHA1") {
        Some(ChecksumAlgorithm::Sha1)
    } else if is("SHA256SUMS", ".SHA256") {
        Some(ChecksumAlgorithm::Sha256)
    } else if is("SHA512SUMS", ".SHA512") {
        Some(ChecksumAlgorithm::Sha512)
    } else {
        None
    }
}

fn is_signature_by_lower_case(name: &str) -> bool {
    let lower = name.to_lowercase();
    lower.ends_with(".asc") || lower.ends_with(".sig") || lower.ends_with(".sign")
}

/// All characters with a variant in ASCII, and many more.
fn characters() -> Vec<char> {
    (0..=0x10ffff_u32)
        .filter_map(char::from_u32)
        .filter(|c| {
            (*c as u32) < 0x800
                || c.to_uppercase().any(|u| u.is_ascii())
                || c.to_lowercase().any(|l| l.is_ascii())
        })
        .collect()
}

/// `name` with one character, or two, replaced by `c`.
fn variants(name: &str, c: char) -> Vec<String> {
    let cs: Vec<char> = name.chars().collect();
    let mut out = Vec::new();
    for i in 0..cs.len() {
        for n in 1..=2 {
            if i + n <= cs.len() {
                let mut v = cs[..i].to_vec();
                v.push(c);
                v.extend_from_slice(&cs[i + n..]);
                out.push(v.into_iter().collect());
            }
        }
    }
    out
}

#[test]
fn checksum_files_are_recognised() {
    for (name, algorithm) in NAMES {
        assert_eq!(checksum_algorithm_from_name(name), Some(algorithm), "{}", name);
        let path = format!("some/dir/{}", name);
        let artifact = detect_artifact(&path).unwrap();
        assert_eq!(artifact.rel_path, path);
        match artifact.kind {
            ArtifactKind::ChecksumFile(found) => assert_eq!(found, algorithm),
            ArtifactKind::DetachedSignature => panic!("{}", name),
        }
    }
}

#[test]
fn other_names_are_no_checksum_files() {
    for name in ["", "MD5SUM", "SUMS", "md5", "a.sha3", "SHA224SUMS", "md5sums.txt.bak", "a.md5 "] {
        assert_eq!(checksum_algorithm_from_name(name), None, "{}", name);
        assert!(detect_artifact(name).is_none());
    }
}

#[test]
fn signatures_are_recognised() {
    for path in ["a.txt.asc", "b/A.SIG", "c.Sign", ".asc", "x.sig/"] {
        let artifact = detect_artifact(path).unwrap();
        assert_eq!(artifact.rel_path, path);
        assert!(matches!(artifact.kind, ArtifactKind::DetachedSignature));
    }
    for path in ["a.asc.txt", "asc", "sig/a", ".", "", "/", "a/..", "x.signs"] {
        assert!(detect_artifact(path).is_none(), "{}", path);
    }
}

#[test]
fn letters_with_variants_in_ascii_count() {
    assert_eq!(
        checksum_algorithm_from_name("MD5\u{17f}UM\u{17f}"),
        Some(ChecksumAlgorithm::Md5)
    );
    for c in characters() {
        for (name, _) in NAMES {
            for v in variants(name, c) {
                assert_eq!(checksum_algorithm_from_name(&v), by_upper_case(&v), "{:?}", v);
            }
        }
        for name in ["a.asc", "a.SIG", "a.sign"] {
            for v in variants(name, c) {
                if !v.contains('/') {
                    assert_eq!(
                        detect_artifact(&v).is_some(),
                        is_signature_by_lower_case(&v),
                        "{:?}",
                        v
                    );
                }
            }
        }
    }
}

#[test]
fn file_names_are_those_of_paths() {
    for path in [
        "", ".", "..", "/", "//", "a", "a/", "a/.", "a/..", "a/./", "./a", "a//b", "a/b/.", "../a",
        "/a", "a/...", "é/ü", "a/b/", "./.", "a/././/", ".a", "..a/",
    ] {
        let expected = std::path::Path::new(path)
            .file_name()
            .map(|n| n.to_string_lossy().to_string());
        assert_eq!(file_name(path), expected, "{:?}", path);
    }
}

#[test]
fn a_signature_names_what_it_signs() {
    for (path, signed) in [
        ("a.txt.asc", "a.txt"),
        ("dir/a.txt.SIG", "a.txt"),
        ("a.sign", "a"),
        ("a.Sign.asc", "a.Sign"),
        (".asc", ""),
        ("a.txt", "a.txt"),
        ("..", ""),
        ("é.asc", "é"),
    ] {
        assert_eq!(guess_signed_file(path), signed, "{}", path);
    }
}
