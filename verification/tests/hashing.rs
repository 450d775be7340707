use fordocu::config::{Args, ConfigError, HashConfig};
use fordocu::digest::{AlgorithmHasher, ChecksumAlgorithm, FileHasher};

fn hash_of(algorithm: ChecksumAlgorithm, pieces: &[&[u8]]) -> String {
    let mut hasher = AlgorithmHasher::new(algorithm);
    for piece in pieces {
        assert!(hasher.has_room(piece.len()));
        hasher.update(piece);
    }
    hasher.finish()
}

fn args(no_md5: bool, no_sha256: bool, no_sha512: bool) -> Args {
    Args { no_md5, no_sha256, no_sha512 }
}

#[test]
fn options_switch_hashes_off() {
    let all = HashConfig::from_args(&args(false, false, false)).unwrap();
    assert!(all.md5 && all.sha256 && all.sha512);
    let one = HashConfig::from_args(&args(true, false, true)).unwrap();
    assert_eq!(one, HashConfig { md5: false, sha256: true, sha512: false });
}

#[test]
fn switching_every_hash_off_is_refused() {
    let refused = HashConfig::from_args(&args(true, true, true));
    assert_eq!(refused, Err(ConfigError::NoAlgorithm));
    assert_eq!(
        ConfigError::NoAlgorithm.message(),
        "At least one hash algorithm must be enabled."
    );
}

#[test]
fn algorithms_have_names() {
    assert_eq!(ChecksumAlgorithm::Md5.as_str(), "MD5");
    assert_eq!(ChecksumAlgorithm::Sha1.as_str(), "SHA-1");
    assert_eq!(ChecksumAlgorithm::Sha256.as_str(), "SHA-256");
    assert_eq!(ChecksumAlgorithm::Sha512.as_str(), "SHA-512");
}

#[test]
fn md5_of_abc() {
    assert_eq!(
        hash_of(ChecksumAlgorithm::Md5, &[b"abc"]),
        "900150983cd24fb0d6963f7d28e17f72"
    );
    assert_eq!(
        hash_of(ChecksumAlgorithm::Md5, &[]),
        "d41d8cd98f00b204e9800998ecf8427e"
    );
}

#[test]
fn sha1_of_abc() {
    assert_eq!(
        hash_of(ChecksumAlgorithm::Sha1, &[b"abc"]),
        "a9993e364706816aba3e25717850c26c9cd0d89d"
    );
    assert_eq!(
        hash_of(ChecksumAlgorithm::Sha1, &[]),
        "da39a3ee5e6b4b0d3255bfef95601890afd80709"
    );
}

#[test]
fn sha256_of_abc() {
    assert_eq!(
        hash_of(ChecksumAlgorithm::Sha256, &[b"abc"]),
        "ba7816bf8f01cfea414140de5dae2223b00361a396177a9cb410ff61f20015ad"
    );
    assert_eq!(
        hash_of(ChecksumAlgorithm::Sha256, &[]),
        "e3b0c44298fc1c149afbf4c8996fb92427ae41e4649b934ca495991b7852b855"
    );
}

#[test]
fn sha512_of_abc() {
    let expected = "ddaf35a193617abacc417349ae20413112e6fa4e89a97ea20a9eeee64b55d39a\
        2192992a274fc1a836ba3c23a3feebbd454d4423643ce80e2a9ac94fa54ca49f";
    assert_eq!(hash_of(ChecksumAlgorithm::Sha512, &[b"abc"]), expected);
}

#[test]
fn hashes_do_not_depend_on_pieces() {
    let data: Vec<u8> = (0..1000u32).map(|i| (i * 7 % 251) as u8).collect();
    for algorithm in [
        ChecksumAlgorithm::Md5,
        ChecksumAlgorithm::Sha1,
        ChecksumAlgorithm::Sha256,
        ChecksumAlgorithm::Sha512,
    ] {
        let whole = hash_of(algorithm, &[&data]);
        let cut = hash_of(algorithm, &[&data[..1], &data[1..64], &[], &data[64..777], &data[777..]]);
        assert_eq!(whole, cut);
        assert!(whole.chars().all(|c| c.is_ascii_digit() || ('a'..='f').contains(&c)));
    }
}

#[test]
fn a_file_gets_the_configured_hashes() {
    let cfg = HashConfig { md5: true, sha256: false, sha512: true };
    let mut hasher = FileHasher::new(&cfg);
    assert!(hasher.has_room(2));
    hasher.update(b"ab");
    hasher.update(b"c");
    let hashes = hasher.finish();
    assert_eq!(hashes.md5.as_deref(), Some("900150983cd24fb0d6963f7d28e17f72"));
    assert_eq!(hashes.sha256, None);
    assert_eq!(hashes.sha512, Some(hash_of(ChecksumAlgorithm::Sha512, &[b"abc"])));

    let cfg = HashConfig { md5: false, sha256: true, sha512: false };
    let mut hasher = FileHasher::new(&cfg);
    hasher.update(b"abc");
    let hashes = hasher.finish();
    assert_eq!(hashes.md5, None);
    assert_eq!(hashes.sha256, Some(hash_of(ChecksumAlgorithm::Sha256, &[b"abc"])));
    assert_eq!(hashes.sha512, None);
}
