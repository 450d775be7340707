//! Integrity artifacts: checksum files and detached signatures, told by their names.
use crate::digest::ChecksumAlgorithm;
use crate::text;
use vstd::prelude::*;
use vstd::slice::slice_subrange;

verus! {

/// What an integrity artifact is.
#[derive(Debug, Clone, Copy, PartialEq, Eq, Structural)]
pub enum ArtifactKind {
    /// A list of checksums of files.
    ChecksumFile(ChecksumAlgorithm),
    /// A signature of another file.
    DetachedSignature,
}

/// An integrity artifact found in the directory.
#[derive(Debug, Clone)]
pub struct ExistingArtifact {
    pub rel_path: String,
    pub kind: ArtifactKind,
}

/// An integrity artifact: its path and its kind.
#[verifier::ext_equal]
pub struct ArtifactModel {
    pub rel_path: Seq<char>,
    pub kind: ArtifactKind,
}

impl View for ExistingArtifact {
    type V = ArtifactModel;

    open spec fn view(&self) -> ArtifactModel {
        ArtifactModel { rel_path: self.rel_path@, kind: self.kind }
    }
}

// ---------------------------------------------------------------------------
// Names
// ---------------------------------------------------------------------------
/// The last part that names something: empty parts and `.` stand for nothing,
/// `..` names no file.
pub open spec fn last_name(parts: Seq<Seq<char>>) -> Option<Seq<char>>
    decreases parts.len(),
{
    if parts.len() == 0 {
        None
    } else if parts.last() == ""@ || parts.last() == "."@ {
        last_name(parts.drop_last())
    } else if parts.last() == ".."@ {
        None
    } else {
        Some(parts.last())
    }
}

/// The name of the file that `path`, a path with `/` between its parts, leads to.
pub open spec fn file_name_of(path: Seq<char>) -> Option<Seq<char>> {
    last_name(text::split(path, '/'))
}

/// The name of the file that `path`, a path with `/` between its parts, leads to.
pub fn file_name(path: &str) -> (r: Option<String>)
    ensures
        match r {
            Some(name) => file_name_of(path@) == Some(name@),
            None => file_name_of(path@) is None,
        },
{
    let cs = text::chars_of(path);
    let parts = text::split_at_char(cs.as_slice(), '/');
    let empty = text::chars_of("");
    let here = text::chars_of(".");
    let parent = text::chars_of("..");
    let mut n: usize = parts.len();
    proof {
        assert(text::rows(parts@).take(n as int) =~= text::rows(parts@));
    }
    while n > 0
        invariant
            n <= parts@.len(),
            text::rows(parts@) == text::split(path@, '/'),
            last_name(text::rows(parts@).take(n as int)) == file_name_of(path@),
            empty@ == ""@,
            here@ == "."@,
            parent@ == ".."@,
        decreases n,
    {
        let ghost seen = text::rows(parts@).take(n as int);
        let part = parts[n - 1].as_slice();
        proof {
            assert(seen.last() == part@);
            assert(seen.drop_last() =~= text::rows(parts@).take(n - 1));
        }
        if text::same_chars(part, empty.as_slice()) || text::same_chars(part, here.as_slice()) {
            n = n - 1;
        } else if text::same_chars(part, parent.as_slice()) {
            return None;
        } else {
            return Some(text::string_of(part));
        }
    }
    None
}

/// `s` ends with `suffix`, the case of ASCII letters aside.
pub open spec fn ends_with_ignoring_case(s: Seq<char>, suffix: Seq<char>) -> bool {
    text::ascii_lowercase(suffix).is_suffix_of(text::ascii_lowercase(s))
}

/// Whether `s` ends with `suffix`, the case of ASCII letters aside.
pub fn has_suffix_ignoring_case(s: &[char], suffix: &str) -> (r: bool)
    ensures
        r == ends_with_ignoring_case(s@, suffix@),
{
    let p = text::chars_of(suffix);
    if p.len() > s.len() {
        return false;
    }
    let start: usize = s.len() - p.len();
    let mut i: usize = 0;
    while i < p.len()
        invariant
            i <= p@.len(),
            p@ == suffix@,
            start + p@.len() == s@.len(),
            start + p.len() == s.len(),
            forall|k: int| 0 <= k < i ==> text::ascii_lower(s@[start + k]) == text::ascii_lower(p@[k]),
        decreases p@.len() - i,
    {
        if text::lower_ascii(s[start + i]) != text::lower_ascii(p[i]) {
            proof {
                let tail = text::ascii_lowercase(s@).subrange(start as int, s@.len() as int);
                assert(tail[i as int] == text::ascii_lower(s@[start + i]));
                assert(text::ascii_lowercase(suffix@)[i as int] == text::ascii_lower(p@[i as int]));
            }
            return false;
        }
        i = i + 1;
    }
    proof {
        assert(text::ascii_lowercase(suffix@) =~= text::ascii_lowercase(s@).subrange(
            start as int,
            s@.len() as int,
        ));
    }
    true
}

/// `c` in upper case, as far as the names of checksum files go: besides the ASCII
/// letters only the long s (U+017F) has one of their letters as its upper case.
pub open spec fn name_upper(c: char) -> char {
    if 'a' <= c <= 'z' {
        (c as u32 - 32) as char
    } else if c == '\u{17f}' {
        'S'
    } else {
        c
    }
}

/// `name` in upper case, as far as the names of checksum files go.
pub open spec fn upper_name(name: Seq<char>) -> Seq<char> {
    name.map_values(|c: char| name_upper(c))
}

/// `c` in upper case, as far as the names of checksum files go.
fn upper_char(c: char) -> (r: char)
    ensures
        r == name_upper(c),
{
    if 'a' <= c && c <= 'z' {
        ((c as u8) - 32) as char
    } else if c == '\u{17f}' {
        'S'
    } else {
        c
    }
}

/// `upper` is `listing`, or `listing` with `.TXT` behind it, or ends with `extension`.
pub open spec fn names_checksums(
    upper: Seq<char>,
    listing: Seq<char>,
    listing_txt: Seq<char>,
    extension: Seq<char>,
) -> bool {
    upper == listing || upper == listing_txt || extension.is_suffix_of(upper)
}

/// The algorithm of the checksum file with the name `name`, if it is one.
pub open spec fn algorithm_of_name(name: Seq<char>) -> Option<ChecksumAlgorithm> {
    let upper = upper_name(name);
    if names_checksums(upper, "MD5SUMS"@, "MD5SUMS.TXT"@, ".MD5"@) {
        Some(ChecksumAlgorithm::Md5)
    } else if names_checksums(upper, "SHA1SUMS"@, "SHA1SUMS.TXT"@, ".SHA1"@) {
        Some(ChecksumAlgorithm::Sha1)
    } else if names_checksums(upper, "SHA256SUMS"@, "SHA256SUMS.TXT"@, ".SHA256"@) {
        Some(ChecksumAlgorithm::Sha256)
    } else if names_checksums(upper, "SHA512SUMS"@, "SHA512SUMS.TXT"@, ".SHA512"@) {
        Some(ChecksumAlgorithm::Sha512)
    } else {
        None
    }
}

/// Whether `s` ends with `suffix`.
fn has_suffix(s: &[char], suffix: &str) -> (r: bool)
    ensures
        r == suffix@.is_suffix_of(s@),
{
    let p = text::chars_of(suffix);
    if p.len() > s.len() {
        return false;
    }
    text::same_chars(p.as_slice(), slice_subrange(s, s.len() - p.len(), s.len()))
}

/// Whether `upper` is `listing`, or `listing_txt`, or ends with `extension`.
fn is_checksum_name(upper: &[char], listing: &str, listing_txt: &str, extension: &str) -> (r: bool)
    ensures
        r == names_checksums(upper@, listing@, listing_txt@, extension@),
{
    text::same_chars(upper, text::chars_of(listing).as_slice()) || text::same_chars(
        upper,
        text::chars_of(listing_txt).as_slice(),
    ) || has_suffix(upper, extension)
}

/// The algorithm of the checksum file with the name `file_name`, if it is one.
pub fn checksum_algorithm_from_name(file_name: &str) -> (r: Option<ChecksumAlgorithm>)
    ensures
        r == algorithm_of_name(file_name@),
{
    let cs = text::chars_of(file_name);
    let mut upper: Vec<char> = Vec::new();
    let mut i: usize = 0;
    while i < cs.len()
        invariant
            i <= cs@.len(),
            cs@ == file_name@,
            upper@ == upper_name(file_name@).take(i as int),
        decreases cs@.len() - i,
    {
        upper.push(upper_char(cs[i]));
        proof {
            assert(upper_name(file_name@).take(i + 1) =~= upper_name(file_name@).take(
                i as int,
            ).push(name_upper(cs@[i as int])));
        }
        i = i + 1;
    }
    proof {
        assert(upper_name(file_name@).take(cs@.len() as int) =~= upper_name(file_name@));
    }
    let name = upper.as_slice();
    if is_checksum_name(name, "MD5SUMS", "MD5SUMS.TXT", ".MD5") {
        return Some(ChecksumAlgorithm::Md5);
    }
    if is_checksum_name(name, "SHA1SUMS", "SHA1SUMS.TXT", ".SHA1") {
        return Some(ChecksumAlgorithm::Sha1);
    }
    if is_checksum_name(name, "SHA256SUMS", "SHA256SUMS.TXT", ".SHA256") {
        return Some(ChecksumAlgorithm::Sha256);
    }
    if is_checksum_name(name, "SHA512SUMS", "SHA512SUMS.TXT", ".SHA512") {
        return Some(ChecksumAlgorithm::Sha512);
    }
    None
}

/// `name` has the extension of a detached signature. No character outside ASCII
/// has just one of their letters as its lower case.
pub open spec fn names_signature(name: Seq<char>) -> bool {
    ||| ends_with_ignoring_case(name, ".asc"@)
    ||| ends_with_ignoring_case(name, ".sig"@)
    ||| ends_with_ignoring_case(name, ".sign"@)
}

/// The kind of artifact that the file name `name` tells, if any.
pub open spec fn kind_of_name(name: Seq<char>) -> Option<ArtifactKind> {
    match algorithm_of_name(name) {
        Some(algorithm) => Some(ArtifactKind::ChecksumFile(algorithm)),
        None => if names_signature(name) {
            Some(ArtifactKind::DetachedSignature)
        } else {
            None
        },
    }
}

/// The kind of artifact that the path `rel_path` leads to, if any.
pub open spec fn kind_of_path(rel_path: Seq<char>) -> Option<ArtifactKind> {
    match file_name_of(rel_path) {
        Some(name) => kind_of_name(name),
        None => None,
    }
}

/// The artifact at `rel_path`, if the name of the file there is that of one.
pub fn detect_artifact(rel_path: &str) -> (r: Option<ExistingArtifact>)
    ensures
        match r {
            Some(artifact) => {
                &&& artifact.rel_path@ == rel_path@
                &&& kind_of_path(rel_path@) == Some(artifact.kind)
            },
            None => kind_of_path(rel_path@) is None,
        },
{
    let name = match file_name(rel_path) {
        Some(name) => name,
        None => {
            return None;
        },
    };
    if let Some(algorithm) = checksum_algorithm_from_name(name.as_str()) {
        return Some(
            ExistingArtifact {
                rel_path: rel_path.to_owned(),
                kind: ArtifactKind::ChecksumFile(algorithm),
            },
        );
    }
    let cs = text::chars_of(name.as_str());
    if has_suffix_ignoring_case(cs.as_slice(), ".asc") || has_suffix_ignoring_case(
        cs.as_slice(),
        ".sig",
    ) || has_suffix_ignoring_case(cs.as_slice(), ".sign") {
        return Some(
            ExistingArtifact {
                rel_path: rel_path.to_owned(),
                kind: ArtifactKind::DetachedSignature,
            },
        );
    }
    None
}

// ---------------------------------------------------------------------------
// Laws
// ---------------------------------------------------------------------------
/// `name` can be the name of a file: it is not empty, holds no `/`, and is neither
/// `.` nor `..`.
pub open spec fn is_plain_name(name: Seq<char>) -> bool {
    name != ""@ && name != "."@ && name != ".."@ && !name.contains('/')
}

/// The kind of an artifact depends on its file name alone, in whatever directory
/// it lies.
pub proof fn law_kind_depends_on_name_alone(dir: Seq<char>, name: Seq<char>)
    requires
        is_plain_name(name),
    ensures
        file_name_of(name) == Some(name),
        file_name_of(dir + seq!['/'] + name) == Some(name),
        kind_of_path(name) == kind_of_name(name),
        kind_of_path(dir + seq!['/'] + name) == kind_of_name(name),
{
    text::lemma_split_single(name, '/');
    text::lemma_split_concat(dir, name, '/');
    assert(text::split(dir + seq!['/'] + name, '/').last() == name);
    assert(text::split(name, '/').last() == name);
}

/// The extension of the checksum files of an algorithm, in upper case.
pub open spec fn checksum_extension(algorithm: ChecksumAlgorithm) -> Seq<char> {
    match algorithm {
        ChecksumAlgorithm::Md5 => ".MD5"@,
        ChecksumAlgorithm::Sha1 => ".SHA1"@,
        ChecksumAlgorithm::Sha256 => ".SHA256"@,
        ChecksumAlgorithm::Sha512 => ".SHA512"@,
    }
}

/// The name of a list of checksums of an algorithm, in upper case.
pub open spec fn checksum_listing(algorithm: ChecksumAlgorithm) -> Seq<char> {
    match algorithm {
        ChecksumAlgorithm::Md5 => "MD5SUMS"@,
        ChecksumAlgorithm::Sha1 => "SHA1SUMS"@,
        ChecksumAlgorithm::Sha256 => "SHA256SUMS"@,
        ChecksumAlgorithm::Sha512 => "SHA512SUMS"@,
    }
}

/// Every file name with the extension of an algorithm, in whatever case, is that of
/// a checksum file of this algorithm.
pub proof fn law_checksum_extension_detected(
    stem: Seq<char>,
    extension: Seq<char>,
    algorithm: ChecksumAlgorithm,
)
    requires
        upper_name(extension) == checksum_extension(algorithm),
    ensures
        kind_of_name(stem + extension) == Some(ArtifactKind::ChecksumFile(algorithm)),
{
    reveal_names();
    let upper = upper_name(stem + extension);
    assert(upper =~= upper_name(stem) + upper_name(extension));
    assert(checksum_extension(algorithm).is_suffix_of(upper));
    assert(upper.last() == checksum_extension(algorithm).last());
    let n = upper.len() as int;
    assert(forall|k: int|
        0 <= k < checksum_extension(algorithm).len() ==> upper[n - checksum_extension(
            algorithm,
        ).len() + k] == checksum_extension(algorithm)[k]);
}

/// Every name of a list of checksums, in whatever case and with or without `.txt`
/// behind it, is that of a checksum file of its algorithm.
pub proof fn law_checksum_listing_detected(name: Seq<char>, algorithm: ChecksumAlgorithm)
    requires
        upper_name(name) == checksum_listing(algorithm) || upper_name(name) == checksum_listing(
            algorithm,
        ) + ".TXT"@,
    ensures
        kind_of_name(name) == Some(ArtifactKind::ChecksumFile(algorithm)),
{
    reveal_names();
    reveal_strlit(".TXT");
    let upper = upper_name(name);
    assert("MD5SUMS"@ + ".TXT"@ =~= "MD5SUMS.TXT"@);
    assert("SHA1SUMS"@ + ".TXT"@ =~= "SHA1SUMS.TXT"@);
    assert("SHA256SUMS"@ + ".TXT"@ =~= "SHA256SUMS.TXT"@);
    assert("SHA512SUMS"@ + ".TXT"@ =~= "SHA512SUMS.TXT"@);
    assert(upper.last() == 'S' || upper.last() == 'T');
    assert(!".MD5"@.is_suffix_of(upper)) by {
        if ".MD5"@.is_suffix_of(upper) {
            assert(upper.last() == ".MD5"@.last());
        }
    }
    assert(!".SHA1"@.is_suffix_of(upper)) by {
        if ".SHA1"@.is_suffix_of(upper) {
            assert(upper.last() == ".SHA1"@.last());
        }
    }
    assert(!".SHA256"@.is_suffix_of(upper)) by {
        if ".SHA256"@.is_suffix_of(upper) {
            assert(upper.last() == ".SHA256"@.last());
        }
    }
    assert(!".SHA512"@.is_suffix_of(upper)) by {
        if ".SHA512"@.is_suffix_of(upper) {
            assert(upper.last() == ".SHA512"@.last());
        }
    }
}

/// Every file name with the extension `.asc`, `.sig` or `.sign`, in whatever case,
/// is that of a detached signature.
pub proof fn law_signature_extension_detected(stem: Seq<char>, extension: Seq<char>)
    requires
        ({
            ||| text::ascii_lowercase(extension) == ".asc"@
            ||| text::ascii_lowercase(extension) == ".sig"@
            ||| text::ascii_lowercase(extension) == ".sign"@
        }),
    ensures
        kind_of_name(stem + extension) == Some(ArtifactKind::DetachedSignature),
{
    reveal_names();
    reveal_strlit(".asc");
    reveal_strlit(".sig");
    reveal_strlit(".sign");
    let name = stem + extension;
    assert(text::ascii_lowercase(".asc"@) =~= ".asc"@);
    assert(text::ascii_lowercase(".sig"@) =~= ".sig"@);
    assert(text::ascii_lowercase(".sign"@) =~= ".sign"@);
    assert(text::ascii_lowercase(name) =~= text::ascii_lowercase(stem) + text::ascii_lowercase(extension));
    assert(text::ascii_lowercase(extension).is_suffix_of(text::ascii_lowercase(name)));
    let last = extension.last();
    assert(text::ascii_lower(last) == text::ascii_lowercase(extension).last());
    let upper = upper_name(name);
    assert(upper.last() == name_upper(last));
    assert(upper.last() == 'C' || upper.last() == 'G' || upper.last() == 'N');
    lemma_no_checksum_name(upper);
}

/// The literal names of checksum files, character by character.
proof fn reveal_names()
    ensures
        "MD5SUMS"@ =~= seq!['M', 'D', '5', 'S', 'U', 'M', 'S'],
        "MD5SUMS.TXT"@ =~= seq!['M', 'D', '5', 'S', 'U', 'M', 'S', '.', 'T', 'X', 'T'],
        ".MD5"@ =~= seq!['.', 'M', 'D', '5'],
        "SHA1SUMS"@ =~= seq!['S', 'H', 'A', '1', 'S', 'U', 'M', 'S'],
        "SHA1SUMS.TXT"@ =~= seq!['S', 'H', 'A', '1', 'S', 'U', 'M', 'S', '.', 'T', 'X', 'T'],
        ".SHA1"@ =~= seq!['.', 'S', 'H', 'A', '1'],
        "SHA256SUMS"@ =~= seq!['S', 'H', 'A', '2', '5', '6', 'S', 'U', 'M', 'S'],
        "SHA256SUMS.TXT"@ =~= seq![
            'S', 'H', 'A', '2', '5', '6', 'S', 'U', 'M', 'S', '.', 'T', 'X', 'T',
        ],
        ".SHA256"@ =~= seq!['.', 'S', 'H', 'A', '2', '5', '6'],
        "SHA512SUMS"@ =~= seq!['S', 'H', 'A', '5', '1', '2', 'S', 'U', 'M', 'S'],
        "SHA512SUMS.TXT"@ =~= seq![
            'S', 'H', 'A', '5', '1', '2', 'S', 'U', 'M', 'S', '.', 'T', 'X', 'T',
        ],
        ".SHA512"@ =~= seq!['.', 'S', 'H', 'A', '5', '1', '2'],
{
    reveal_strlit("MD5SUMS");
    reveal_strlit("MD5SUMS.TXT");
    reveal_strlit(".MD5");
    reveal_strlit("SHA1SUMS");
    reveal_strlit("SHA1SUMS.TXT");
    reveal_strlit(".SHA1");
    reveal_strlit("SHA256SUMS");
    reveal_strlit("SHA256SUMS.TXT");
    reveal_strlit(".SHA256");
    reveal_strlit("SHA512SUMS");
    reveal_strlit("SHA512SUMS.TXT");
    reveal_strlit(".SHA512");
}

/// A name that ends in none of `S`, `T` and the digits is no checksum file's.
proof fn lemma_no_checksum_name(upper: Seq<char>)
    requires
        upper.len() > 0,
        upper.last() == 'C' || upper.last() == 'G' || upper.last() == 'N',
    ensures
        !names_checksums(upper, "MD5SUMS"@, "MD5SUMS.TXT"@, ".MD5"@),
        !names_checksums(upper, "SHA1SUMS"@, "SHA1SUMS.TXT"@, ".SHA1"@),
        !names_checksums(upper, "SHA256SUMS"@, "SHA256SUMS.TXT"@, ".SHA256"@),
        !names_checksums(upper, "SHA512SUMS"@, "SHA512SUMS.TXT"@, ".SHA512"@),
{
    reveal_names();
    if ".MD5"@.is_suffix_of(upper) {
        assert(upper.last() == ".MD5"@.last());
    }
    if ".SHA1"@.is_suffix_of(upper) {
        assert(upper.last() == ".SHA1"@.last());
    }
    if ".SHA256"@.is_suffix_of(upper) {
        assert(upper.last() == ".SHA256"@.last());
    }
    if ".SHA512"@.is_suffix_of(upper) {
        assert(upper.last() == ".SHA512"@.last());
    }
}

// ---------------------------------------------------------------------------
// Exactly which names
// ---------------------------------------------------------------------------
/// `c` is the letter `small` in either case, or the very character `small`.
pub open spec fn is_letter(c: char, small: char) -> bool {
    c == small || ('a' <= small <= 'z' && c as int == small as int - 32)
}

/// `c` is the letter `small` in either case, or the very character `small`; the long s
/// (U+017F) is an s, too.
pub open spec fn is_letter_or_long_s(c: char, small: char) -> bool {
    is_letter(c, small) || (small == 's' && c == '\u{17f}')
}

/// `name` ends with `extension`, given in small letters, in whatever case.
pub open spec fn has_extension(name: Seq<char>, extension: Seq<char>) -> bool {
    &&& name.len() >= extension.len()
    &&& forall|i: int|
        0 <= i < extension.len() ==> is_letter(
            name[name.len() - extension.len() + i],
            #[trigger] extension[i],
        )
}

/// `name` ends with `extension`, given in small letters, in whatever case, a long s
/// counting as an s.
pub open spec fn has_checksum_extension(name: Seq<char>, extension: Seq<char>) -> bool {
    &&& name.len() >= extension.len()
    &&& forall|i: int|
        0 <= i < extension.len() ==> is_letter_or_long_s(
            name[name.len() - extension.len() + i],
            #[trigger] extension[i],
        )
}

/// `name` is `listing`, given in small letters, in whatever case, a long s counting as
/// an s.
pub open spec fn is_listing_name(name: Seq<char>, listing: Seq<char>) -> bool {
    name.len() == listing.len() && has_checksum_extension(name, listing)
}

/// `capital` is `small` in capital letters.
spec fn is_capital_of(capital: Seq<char>, small: Seq<char>) -> bool {
    &&& capital.len() == small.len()
    &&& forall|i: int|
        0 <= i < small.len() ==> if 'a' <= #[trigger] small[i] <= 'z' {
            capital[i] as int == small[i] as int - 32
        } else {
            capital[i] == small[i] && !('A' <= small[i] <= 'Z') && small[i] != '\u{17f}'
        }
}

proof fn lemma_capital_name(name: Seq<char>, capital: Seq<char>, small: Seq<char>)
    requires
        is_capital_of(capital, small),
    ensures
        capital.is_suffix_of(upper_name(name)) <==> has_checksum_extension(name, small),
        upper_name(name) == capital <==> is_listing_name(name, small),
{
    let upper = upper_name(name);
    let k = name.len() - small.len();
    if k >= 0 {
        assert forall|i: int| 0 <= i < small.len() implies (upper[k + i] == capital[i]
            <==> is_letter_or_long_s(name[k + i], #[trigger] small[i])) by {
            assert(upper[k + i] == name_upper(name[k + i]));
        }
        let tail = upper.subrange(k, upper.len() as int);
        if capital.is_suffix_of(upper) {
            assert forall|i: int| 0 <= i < small.len() implies is_letter_or_long_s(
                name[k + i],
                #[trigger] small[i],
            ) by {
                assert(tail[i] == upper[k + i]);
            }
        }
        if has_checksum_extension(name, small) {
            assert forall|i: int| 0 <= i < small.len() implies tail[i] == capital[i] by {
                assert(is_letter_or_long_s(name[k + i], small[i]));
                assert(tail[i] == upper[k + i]);
            }
            assert(tail =~= capital);
        }
        if k == 0 {
            assert(tail =~= upper);
        }
    }
}

/// For a small extension, ending with it in whatever case is said in two ways.
pub proof fn lemma_extension_ignoring_case(name: Seq<char>, extension: Seq<char>)
    requires
        forall|i: int| 0 <= i < extension.len() ==> !('A' <= #[trigger] extension[i] <= 'Z'),
    ensures
        ends_with_ignoring_case(name, extension) <==> has_extension(name, extension),
{
    let lower = text::ascii_lowercase(name);
    let small = text::ascii_lowercase(extension);
    let k = name.len() - extension.len();
    assert(small =~= extension);
    if k >= 0 {
        assert forall|i: int| 0 <= i < extension.len() implies (lower[k + i] == extension[i]
            <==> is_letter(name[k + i], #[trigger] extension[i])) by {
            assert(lower[k + i] == text::ascii_lower(name[k + i]));
        }
        let tail = lower.subrange(k, lower.len() as int);
        if small.is_suffix_of(lower) {
            assert forall|i: int| 0 <= i < extension.len() implies is_letter(
                name[k + i],
                #[trigger] extension[i],
            ) by {
                assert(tail[i] == lower[k + i]);
            }
        }
        if has_extension(name, extension) {
            assert(tail =~= extension);
        }
    }
}

/// `name` is that of a list of checksums, with or without `.txt`, or has the extension
/// of a checksum file.
pub open spec fn is_checksum_file_name(
    name: Seq<char>,
    listing: Seq<char>,
    extension: Seq<char>,
) -> bool {
    ||| is_listing_name(name, listing)
    ||| is_listing_name(name, listing + ".txt"@)
    ||| has_checksum_extension(name, extension)
}

/// Exactly these names are those of checksum files, each of its algorithm.
pub proof fn law_checksum_file_names(name: Seq<char>)
    ensures
        algorithm_of_name(name) == Some(ChecksumAlgorithm::Md5) <==> is_checksum_file_name(
            name,
            "md5sums"@,
            ".md5"@,
        ),
        algorithm_of_name(name) == Some(ChecksumAlgorithm::Sha1) <==> is_checksum_file_name(
            name,
            "sha1sums"@,
            ".sha1"@,
        ),
        algorithm_of_name(name) == Some(ChecksumAlgorithm::Sha256) <==> is_checksum_file_name(
            name,
            "sha256sums"@,
            ".sha256"@,
        ),
        algorithm_of_name(name) == Some(ChecksumAlgorithm::Sha512) <==> is_checksum_file_name(
            name,
            "sha512sums"@,
            ".sha512"@,
        ),
        algorithm_of_name(name) is Some ==> kind_of_name(name) == Some(
            ArtifactKind::ChecksumFile(algorithm_of_name(name)->0),
        ),
{
    reveal_names();
    reveal_strlit("md5sums");
    reveal_strlit(".md5");
    reveal_strlit("sha1sums");
    reveal_strlit(".sha1");
    reveal_strlit("sha256sums");
    reveal_strlit(".sha256");
    reveal_strlit("sha512sums");
    reveal_strlit(".sha512");
    reveal_strlit(".txt");
    let upper = upper_name(name);
    lemma_capital_name(name, "MD5SUMS"@, "md5sums"@);
    lemma_capital_name(name, "MD5SUMS.TXT"@, "md5sums"@ + ".txt"@);
    lemma_capital_name(name, ".MD5"@, ".md5"@);
    lemma_capital_name(name, "SHA1SUMS"@, "sha1sums"@);
    lemma_capital_name(name, "SHA1SUMS.TXT"@, "sha1sums"@ + ".txt"@);
    lemma_capital_name(name, ".SHA1"@, ".sha1"@);
    lemma_capital_name(name, "SHA256SUMS"@, "sha256sums"@);
    lemma_capital_name(name, "SHA256SUMS.TXT"@, "sha256sums"@ + ".txt"@);
    lemma_capital_name(name, ".SHA256"@, ".sha256"@);
    lemma_capital_name(name, "SHA512SUMS"@, "sha512sums"@);
    lemma_capital_name(name, "SHA512SUMS.TXT"@, "sha512sums"@ + ".txt"@);
    lemma_capital_name(name, ".SHA512"@, ".sha512"@);
    lemma_names_exclude_each_other(upper);
}

/// No name is that of checksum files of two algorithms.
proof fn lemma_names_exclude_each_other(upper: Seq<char>)
    ensures
        ({
            let md5 = names_checksums(upper, "MD5SUMS"@, "MD5SUMS.TXT"@, ".MD5"@);
            let sha1 = names_checksums(upper, "SHA1SUMS"@, "SHA1SUMS.TXT"@, ".SHA1"@);
            let sha256 = names_checksums(upper, "SHA256SUMS"@, "SHA256SUMS.TXT"@, ".SHA256"@);
            let sha512 = names_checksums(upper, "SHA512SUMS"@, "SHA512SUMS.TXT"@, ".SHA512"@);
            &&& !(md5 && sha1)
            &&& !(md5 && sha256)
            &&& !(md5 && sha512)
            &&& !(sha1 && sha256)
            &&& !(sha1 && sha512)
            &&& !(sha256 && sha512)
        }),
{
    reveal_names();
    if ".MD5"@.is_suffix_of(upper) {
        assert(upper.last() == ".MD5"@.last());
    }
    if ".SHA1"@.is_suffix_of(upper) {
        assert(upper.last() == ".SHA1"@.last());
    }
    if ".SHA256"@.is_suffix_of(upper) {
        assert(upper.last() == ".SHA256"@.last());
    }
    if ".SHA512"@.is_suffix_of(upper) {
        assert(upper.last() == ".SHA512"@.last());
    }
    assert(upper == "MD5SUMS"@ || upper == "MD5SUMS.TXT"@ ==> upper[0] == 'M');
    assert(upper == "SHA1SUMS"@ || upper == "SHA1SUMS.TXT"@ ==> upper[0] == 'S' && upper[3]
        == '1');
    assert(upper == "SHA256SUMS"@ || upper == "SHA256SUMS.TXT"@ ==> upper[0] == 'S' && upper[3]
        == '2');
    assert(upper == "SHA512SUMS"@ || upper == "SHA512SUMS.TXT"@ ==> upper[0] == 'S' && upper[3]
        == '5');
    assert(upper == "MD5SUMS"@ || upper == "SHA1SUMS"@ || upper == "SHA256SUMS"@ || upper
        == "SHA512SUMS"@ ==> upper.last() == 'S');
    assert(upper == "MD5SUMS.TXT"@ || upper == "SHA1SUMS.TXT"@ || upper == "SHA256SUMS.TXT"@
        || upper == "SHA512SUMS.TXT"@ ==> upper.last() == 'T');
}

/// Exactly the other names with the extension `.asc`, `.sig` or `.sign` are those of
/// detached signatures; the rest are no artifacts.
pub proof fn law_signature_names(name: Seq<char>)
    ensures
        kind_of_name(name) == Some(ArtifactKind::DetachedSignature) <==> has_extension(
            name,
            ".asc"@,
        ) || has_extension(name, ".sig"@) || has_extension(name, ".sign"@),
        kind_of_name(name) is None ==> algorithm_of_name(name) is None,
{
    reveal_strlit(".asc");
    reveal_strlit(".sig");
    reveal_strlit(".sign");
    lemma_extension_ignoring_case(name, ".asc"@);
    lemma_extension_ignoring_case(name, ".sig"@);
    lemma_extension_ignoring_case(name, ".sign"@);
    if has_extension(name, ".asc"@) || has_extension(name, ".sig"@) || has_extension(
        name,
        ".sign"@,
    ) {
        let upper = upper_name(name);
        let last = name.last();
        if has_extension(name, ".asc"@) {
            assert(is_letter(name[name.len() - 4 + 3], ".asc"@[3]));
        } else if has_extension(name, ".sig"@) {
            assert(is_letter(name[name.len() - 4 + 3], ".sig"@[3]));
        } else {
            assert(is_letter(name[name.len() - 5 + 4], ".sign"@[4]));
        }
        assert(upper.last() == name_upper(last));
        lemma_no_checksum_name(upper);
    }
}

/// A `/` or `/.` behind a path changes nothing, and `..` leads to no file.
pub proof fn law_paths_without_a_file(path: Seq<char>)
    ensures
        file_name_of(path + seq!['/']) == file_name_of(path),
        file_name_of(path + seq!['/', '.']) == file_name_of(path),
        file_name_of(path + seq!['/', '.', '.']) is None,
        kind_of_path(path + seq!['/', '.', '.']) is None,
{
    reveal_strlit("");
    reveal_strlit(".");
    reveal_strlit("..");
    let parts = text::split(path, '/');
    text::lemma_split_concat(path, Seq::empty(), '/');
    text::lemma_split_single(Seq::empty(), '/');
    assert(path + seq!['/'] + Seq::<char>::empty() =~= path + seq!['/']);
    assert((parts + seq![Seq::<char>::empty()]).drop_last() =~= parts);
    assert(""@ =~= Seq::<char>::empty());
    text::lemma_split_concat(path, "."@, '/');
    text::lemma_split_single("."@, '/');
    assert(path + seq!['/'] + "."@ =~= path + seq!['/', '.']);
    assert((parts + seq!["."@]).drop_last() =~= parts);
    text::lemma_split_concat(path, ".."@, '/');
    text::lemma_split_single(".."@, '/');
    assert(path + seq!['/'] + ".."@ =~= path + seq!['/', '.', '.']);
    assert((parts + seq![".."@]).last() == ".."@);
}

/// An artifact is told by its own path and kind.
pub proof fn law_artifact_texts(artifact: ExistingArtifact)
    ensures
        artifact@.rel_path == artifact.rel_path@,
        artifact@.kind == artifact.kind,
{
}

} // verus!
