//! Checksum files: reading their lines and verifying the files they list.
use crate::digest::ChecksumAlgorithm;
use crate::text;
use crate::verification::{VerificationModel, VerificationResult, VerificationStatus};
use vstd::prelude::*;
use vstd::slice::slice_subrange;

verus! {

// ---------------------------------------------------------------------------
// Lines
// ---------------------------------------------------------------------------
/// The character that a backslash and `c` stand for.
pub open spec fn escaped_char(c: char) -> char {
    if c == 'n' {
        '\n'
    } else if c == 'r' {
        '\r'
    } else if c == 't' {
        '\t'
    } else {
        c
    }
}

/// The file name that is written `s`: a backslash and the character behind it stand
/// for one character, a backslash at the end for itself.
pub open spec fn unescape(s: Seq<char>) -> Seq<char>
    decreases s.len(),
{
    if s.len() == 0 {
        Seq::empty()
    } else if s[0] != '\\' {
        seq![s[0]] + unescape(s.skip(1))
    } else if s.len() == 1 {
        seq!['\\']
    } else {
        seq![escaped_char(s[1])] + unescape(s.skip(2))
    }
}

/// The file name that is written `s`.
pub fn unescape_filename(s: &str) -> (r: String)
    ensures
        r@ == unescape(s@),
{
    let cs = text::chars_of(s);
    unescape_chars(cs.as_slice())
}

fn unescape_chars(cs: &[char]) -> (r: String)
    ensures
        r@ == unescape(cs@),
{
    let mut out = String::new();
    let mut i: usize = 0;
    proof {
        assert(cs@.skip(0) =~= cs@);
        assert(out@ + unescape(cs@) =~= unescape(cs@));
    }
    while i < cs.len()
        invariant
            i <= cs@.len(),
            out@ + unescape(cs@.skip(i as int)) == unescape(cs@),
        decreases cs@.len() - i,
    {
        let ghost rest = cs@.skip(i as int);
        let ghost before = out@;
        let c = cs[i];
        if c == '\\' {
            if i + 1 < cs.len() {
                let d = cs[i + 1];
                if d == 'n' {
                    out.push('\n');
                } else if d == 'r' {
                    out.push('\r');
                } else if d == 't' {
                    out.push('\t');
                } else {
                    out.push(d);
                }
                proof {
                    assert(rest.skip(2) =~= cs@.skip(i + 2));
                    assert(out@ + unescape(cs@.skip(i + 2)) =~= before + unescape(rest));
                }
                i = i + 2;
            } else {
                out.push('\\');
                proof {
                    assert(cs@.skip(i + 1) =~= Seq::<char>::empty());
                    assert(out@ + unescape(cs@.skip(i + 1)) =~= before + unescape(rest));
                }
                i = i + 1;
            }
        } else {
            out.push(c);
            proof {
                assert(rest.skip(1) =~= cs@.skip(i + 1));
                assert(out@ + unescape(cs@.skip(i + 1)) =~= before + unescape(rest));
            }
            i = i + 1;
        }
    }
    proof {
        assert(cs@.skip(i as int) =~= Seq::<char>::empty());
        assert(out@ + unescape(cs@.skip(i as int)) =~= out@);
    }
    out
}

/// What a checksum line says: the checksum that is expected of a file.
#[verifier::ext_equal]
pub struct EntryModel {
    pub expected: Seq<char>,
    pub file_name: Seq<char>,
}

/// What a checksum line says: the checksum that is expected of a file.
#[derive(Debug, Clone)]
pub struct ChecksumEntry {
    pub expected: String,
    pub file_name: String,
}

impl View for ChecksumEntry {
    type V = EntryModel;

    open spec fn view(&self) -> EntryModel {
        EntryModel { expected: self.expected@, file_name: self.file_name@ }
    }
}

/// The file name on a line that goes on with `rest` behind the checksum: white space,
/// then perhaps a star, then the file name.
pub open spec fn name_of_rest(rest: Seq<char>) -> Seq<char> {
    let written = text::trim_start(rest);
    unescape(
        if written.len() > 0 && written[0] == '*' {
            written.skip(1)
        } else {
            written
        },
    )
}

/// The entry with the checksum `hash` of a line that goes on with `rest`. Neither the
/// checksum nor the file name may be empty.
pub open spec fn entry_of_parts(hash: Seq<char>, rest: Seq<char>) -> Option<EntryModel> {
    let file_name = name_of_rest(rest);
    if hash.len() == 0 || file_name.len() == 0 {
        None
    } else {
        Some(EntryModel { expected: hash, file_name })
    }
}

/// What the checksum line `line` says, if it is one: the checksum ends at the first
/// blank, and its case does not matter.
pub open spec fn parse_line(line: Seq<char>) -> Option<EntryModel> {
    let n = text::until(line, ' ') as int;
    let hash = line.take(n);
    let file_name = name_of_rest(line.skip(n));
    if n >= line.len() || hash.len() == 0 || file_name.len() == 0 {
        None
    } else {
        Some(EntryModel { expected: text::lowercase(hash), file_name })
    }
}

/// The entry with the checksum `hash` of a line that goes on with `rest`.
pub fn checksum_entry(hash: String, rest: &[char]) -> (r: Option<(String, String)>)
    ensures
        match r {
            Some((expected, file_name)) => entry_of_parts(hash@, rest@) == Some(
                EntryModel { expected: expected@, file_name: file_name@ },
            ),
            None => entry_of_parts(hash@, rest@) is None,
        },
{
    let written = text::skip_white_space(rest);
    let name = if written.len() > 0 && written[0] == '*' {
        let tail = slice_subrange(written, 1, written.len());
        proof {
            assert(tail@ =~= written@.skip(1));
        }
        unescape_chars(tail)
    } else {
        unescape_chars(written)
    };
    if hash.as_str().is_empty() || name.as_str().is_empty() {
        return None;
    }
    Some((hash, name))
}

/// What the checksum line `line` says, if it is one: the expected checksum in lower
/// case and the file name.
pub fn parse_checksum_line(line: &str) -> (r: Option<(String, String)>)
    ensures
        match r {
            Some((expected, file_name)) => parse_line(line@) == Some(
                EntryModel { expected: expected@, file_name: file_name@ },
            ),
            None => parse_line(line@) is None,
        },
{
    let cs = text::chars_of(line);
    let n = text::scan_until(cs.as_slice(), 0, ' ');
    proof {
        assert(cs@.skip(0) =~= cs@);
    }
    if n == cs.len() {
        return None;
    }
    let head = slice_subrange(cs.as_slice(), 0, n);
    let rest = slice_subrange(cs.as_slice(), n, cs.len());
    proof {
        assert(head@ =~= line@.take(n as int));
        assert(rest@ =~= line@.skip(n as int));
    }
    let hash = text::to_lowercase(text::string_of(head).as_str());
    checksum_entry(hash, rest)
}

/// What the line `line` of a checksum file says: nothing if it is blank or a comment.
pub open spec fn entry_of_line(line: Seq<char>) -> Option<EntryModel> {
    let t = text::trim(line);
    if t.len() == 0 || t[0] == '#' || t[0] == ';' {
        None
    } else {
        parse_line(t)
    }
}

/// What the lines say, in their order.
pub open spec fn entries_of_lines(lines: Seq<Seq<char>>) -> Seq<EntryModel>
    decreases lines.len(),
{
    if lines.len() == 0 {
        Seq::empty()
    } else {
        let before = entries_of_lines(lines.drop_last());
        match entry_of_line(lines.last()) {
            Some(entry) => before.push(entry),
            None => before,
        }
    }
}

/// What a checksum file that holds `content` says.
pub open spec fn entries_of(content: Seq<char>) -> Seq<EntryModel> {
    entries_of_lines(text::lines(content))
}

/// What the elements of `v` say.
pub open spec fn entry_models(v: Seq<ChecksumEntry>) -> Seq<EntryModel> {
    v.map_values(|e: ChecksumEntry| e@)
}

/// What a checksum file that holds `content` says.
pub fn checksum_entries(content: &str) -> (r: Vec<ChecksumEntry>)
    ensures
        entry_models(r@) == entries_of(content@),
{
    let all = text::split_lines(content);
    let ghost lines = text::lines(content@);
    let mut out: Vec<ChecksumEntry> = Vec::new();
    let mut i: usize = 0;
    while i < all.len()
        invariant
            i <= all@.len(),
            text::rows(all@) == lines,
            entry_models(out@) == entries_of_lines(lines.take(i as int)),
        decreases all@.len() - i,
    {
        let ghost before = out@;
        let line = text::trimmed(all[i].as_slice());
        proof {
            assert(text::rows(all@)[i as int] == all@[i as int]@);
            assert(lines.take(i + 1).drop_last() =~= lines.take(i as int));
            assert(lines.take(i + 1).last() == lines[i as int]);
        }
        if line.len() == 0 || line[0] == '#' || line[0] == ';' {
        } else {
            match parse_checksum_line(text::string_of(line).as_str()) {
                Some((expected, file_name)) => {
                    let entry = ChecksumEntry { expected, file_name };
                    out.push(entry);
                    proof {
                        assert(entry_models(out@) =~= entry_models(before).push(entry@));
                    }
                },
                None => {},
            }
        }
        i = i + 1;
    }
    proof {
        assert(lines.take(lines.len() as int) =~= lines);
    }
    out
}

// ---------------------------------------------------------------------------
// Verification
// ---------------------------------------------------------------------------
/// What a look at a listed file gave.
#[derive(Debug, Clone)]
pub enum FileCheck {
    /// There is no such file.
    Missing,
    /// The file could not be hashed.
    Unreadable,
    /// The file has this hash.
    Hashed(String),
}

/// What a look at a listed file gave.
pub enum CheckModel {
    Missing,
    Unreadable,
    Hashed(Seq<char>),
}

impl View for FileCheck {
    type V = CheckModel;

    open spec fn view(&self) -> CheckModel {
        match self {
            FileCheck::Missing => CheckModel::Missing,
            FileCheck::Unreadable => CheckModel::Unreadable,
            FileCheck::Hashed(actual) => CheckModel::Hashed(actual@),
        }
    }
}

/// How a listed file fares.
#[derive(Debug, Clone, Copy, PartialEq, Eq, Structural)]
pub enum EntryStatus {
    /// The file has the expected checksum.
    Matched,
    /// The file has another checksum.
    Failed,
    /// There is no such file.
    Missing,
    /// The file could not be hashed.
    Error,
}

/// How the file of `entry` fares when a look at it gave `check`.
pub open spec fn entry_status(entry: EntryModel, check: CheckModel) -> EntryStatus {
    match check {
        CheckModel::Missing => EntryStatus::Missing,
        CheckModel::Unreadable => EntryStatus::Error,
        CheckModel::Hashed(actual) => if text::ascii_lowercase(actual) == text::ascii_lowercase(
            entry.expected,
        ) {
            EntryStatus::Matched
        } else {
            EntryStatus::Failed
        },
    }
}

/// What is noted of the file of `entry` when a look at it gave `check`: nothing if
/// its checksum matched.
pub open spec fn entry_detail(entry: EntryModel, check: CheckModel) -> Option<Seq<char>> {
    match entry_status(entry, check) {
        EntryStatus::Matched => None,
        EntryStatus::Missing => Some(entry.file_name + ": referenced file not found"@),
        EntryStatus::Error => Some(entry.file_name + ": could not verify"@),
        EntryStatus::Failed => Some(
            entry.file_name + ": expected "@ + entry.expected + ", got "@ + check->Hashed_0,
        ),
    }
}

/// What is noted of the first `n` entries.
pub open spec fn details_of(
    entries: Seq<EntryModel>,
    checks: Seq<CheckModel>,
    n: nat,
) -> Seq<Seq<char>>
    decreases n,
{
    if n == 0 {
        Seq::empty()
    } else {
        let before = details_of(entries, checks, (n - 1) as nat);
        match entry_detail(entries[n - 1], checks[n - 1]) {
            Some(detail) => before.push(detail),
            None => before,
        }
    }
}

/// The number of those among the first `n` entries that fare as `status` says.
pub open spec fn count_of(
    entries: Seq<EntryModel>,
    checks: Seq<CheckModel>,
    n: nat,
    status: EntryStatus,
) -> nat
    decreases n,
{
    if n == 0 {
        0
    } else {
        count_of(entries, checks, (n - 1) as nat, status) + if entry_status(
            entries[n - 1],
            checks[n - 1],
        ) == status {
            1nat
        } else {
            0
        }
    }
}

/// The counts in one line.
pub open spec fn summary_text(
    matched: nat,
    failed: nat,
    missing: nat,
    errors: nat,
    total: nat,
) -> Seq<char> {
    text::decimal(matched) + " matched, "@ + text::decimal(failed) + " failed, "@ + text::decimal(
        missing,
    ) + " missing, "@ + text::decimal(errors) + " errors out of "@ + text::decimal(total)
        + " entries"@
}

/// What the kind of a checksum file is called.
pub open spec fn checksum_kind(algorithm: ChecksumAlgorithm) -> Seq<char> {
    algorithm.name() + " checksum file"@
}

/// What is found out about the checksum file at `rel_path` with the entries
/// `entries`, when looks at their files gave `checks`.
pub open spec fn checksum_verdict(
    rel_path: Seq<char>,
    algorithm: ChecksumAlgorithm,
    entries: Seq<EntryModel>,
    checks: Seq<CheckModel>,
) -> VerificationModel {
    let n = entries.len();
    let matched = count_of(entries, checks, n, EntryStatus::Matched);
    let failed = count_of(entries, checks, n, EntryStatus::Failed);
    let missing = count_of(entries, checks, n, EntryStatus::Missing);
    let errors = count_of(entries, checks, n, EntryStatus::Error);
    if n == 0 {
        VerificationModel {
            artifact_path: rel_path,
            kind: checksum_kind(algorithm),
            status: VerificationStatus::Error,
            summary: "No valid checksum entries found"@,
            details: Seq::empty(),
        }
    } else {
        VerificationModel {
            artifact_path: rel_path,
            kind: checksum_kind(algorithm),
            status: if failed > 0 || errors > 0 {
                VerificationStatus::Failed
            } else if missing > 0 {
                VerificationStatus::Missing
            } else {
                VerificationStatus::Verified
            },
            summary: summary_text(matched, failed, missing, errors, n),
            details: details_of(entries, checks, n),
        }
    }
}

/// What looks at files gave.
pub open spec fn check_models(v: Seq<FileCheck>) -> Seq<CheckModel> {
    v.map_values(|c: FileCheck| c@)
}

/// What the kind of a checksum file is called.
pub fn checksum_kind_name(algorithm: ChecksumAlgorithm) -> (r: String)
    ensures
        r@ == checksum_kind(algorithm),
{
    let mut out = algorithm.as_str().to_owned();
    out.append(" checksum file");
    out
}

/// The counts in one line.
fn summary_line(
    matched: usize,
    failed: usize,
    missing: usize,
    errors: usize,
    total: usize,
) -> (r: String)
    ensures
        r@ == summary_text(
            matched as nat,
            failed as nat,
            missing as nat,
            errors as nat,
            total as nat,
        ),
{
    let mut out = String::new();
    text::push_decimal(&mut out, matched as u64);
    out.append(" matched, ");
    text::push_decimal(&mut out, failed as u64);
    out.append(" failed, ");
    text::push_decimal(&mut out, missing as u64);
    out.append(" missing, ");
    text::push_decimal(&mut out, errors as u64);
    out.append(" errors out of ");
    text::push_decimal(&mut out, total as u64);
    out.append(" entries");
    proof {
        assert(Seq::<char>::empty() + text::decimal(matched as nat) =~= text::decimal(
            matched as nat,
        ));
    }
    out
}

/// How the file of `entry` fares when a look at it gave `check`, and what is noted
/// of it.
pub fn assess(entry: &ChecksumEntry, check: &FileCheck) -> (r: (EntryStatus, Option<String>))
    ensures
        r.0 == entry_status(entry@, check@),
        crate::digest::optional_text(r.1) == entry_detail(entry@, check@),
{
    match check {
        FileCheck::Missing => {
            let mut detail = entry.file_name.clone();
            detail.append(": referenced file not found");
            (EntryStatus::Missing, Some(detail))
        },
        FileCheck::Unreadable => {
            let mut detail = entry.file_name.clone();
            detail.append(": could not verify");
            (EntryStatus::Error, Some(detail))
        },
        FileCheck::Hashed(actual) => {
            if text::same_text_ignoring_ascii_case(actual.as_str(), entry.expected.as_str()) {
                (EntryStatus::Matched, None)
            } else {
                let mut detail = entry.file_name.clone();
                detail.append(": expected ");
                detail.append(entry.expected.as_str());
                detail.append(", got ");
                detail.append(actual.as_str());
                (EntryStatus::Failed, Some(detail))
            }
        },
    }
}

/// What is found out about the checksum file at `rel_path` with the entries
/// `entries`, when looks at their files gave `checks`.
pub fn conclude_checksums(
    rel_path: &str,
    algorithm: ChecksumAlgorithm,
    entries: &Vec<ChecksumEntry>,
    checks: &Vec<FileCheck>,
) -> (r: VerificationResult)
    requires
        entries@.len() == checks@.len(),
    ensures
        r@ == checksum_verdict(rel_path@, algorithm, entry_models(entries@), check_models(checks@)),
{
    let mut matched: usize = 0;
    let mut failed: usize = 0;
    let mut missing: usize = 0;
    let mut errors: usize = 0;
    let mut details: Vec<String> = Vec::new();
    let ghost es = entry_models(entries@);
    let ghost cs = check_models(checks@);
    let mut i: usize = 0;
    proof {
        assert(text::texts(details@) =~= Seq::empty());
    }
    while i < entries.len()
        invariant
            i <= entries@.len(),
            entries@.len() == checks@.len(),
            es == entry_models(entries@),
            cs == check_models(checks@),
            matched == count_of(es, cs, i as nat, EntryStatus::Matched),
            failed == count_of(es, cs, i as nat, EntryStatus::Failed),
            missing == count_of(es, cs, i as nat, EntryStatus::Missing),
            errors == count_of(es, cs, i as nat, EntryStatus::Error),
            matched + failed + missing + errors == i,
            text::texts(details@) == details_of(es, cs, i as nat),
        decreases entries@.len() - i,
    {
        let ghost before = details@;
        let (status, detail) = assess(&entries[i], &checks[i]);
        match status {
            EntryStatus::Matched => {
                matched = matched + 1;
            },
            EntryStatus::Failed => {
                failed = failed + 1;
            },
            EntryStatus::Missing => {
                missing = missing + 1;
            },
            EntryStatus::Error => {
                errors = errors + 1;
            },
        }
        proof {
            assert(es[i as int] == entries@[i as int]@);
            assert(cs[i as int] == checks@[i as int]@);
        }
        if let Some(line) = detail {
            details.push(line);
            proof {
                assert(text::texts(details@) =~= text::texts(before).push(line@));
            }
        }
        i = i + 1;
    }
    if entries.len() == 0 {
        return VerificationResult {
            artifact_path: rel_path.to_owned(),
            kind: checksum_kind_name(algorithm),
            status: VerificationStatus::Error,
            summary: "No valid checksum entries found".to_owned(),
            details,
        };
    }
    let total: usize = matched + failed + missing + errors;
    let status = if failed > 0 || errors > 0 {
        VerificationStatus::Failed
    } else if missing > 0 {
        VerificationStatus::Missing
    } else {
        VerificationStatus::Verified
    };
    VerificationResult {
        artifact_path: rel_path.to_owned(),
        kind: checksum_kind_name(algorithm),
        status,
        summary: summary_line(matched, failed, missing, errors, total),
        details,
    }
}

/// `checks` are what `look` may have given of the files of `entries`, in their order.
pub open spec fn looked_at<F: Fn(&String, ChecksumAlgorithm) -> FileCheck>(
    look: F,
    algorithm: ChecksumAlgorithm,
    entries: Seq<ChecksumEntry>,
    checks: Seq<FileCheck>,
) -> bool {
    &&& checks.len() == entries.len()
    &&& forall|i: int|
        0 <= i < entries.len() ==> call_ensures(
            look,
            (&(#[trigger] entries[i]).file_name, algorithm),
            checks[i],
        )
}

/// A checksum file that holds `content` lists the file `name`.
pub open spec fn is_listed(content: Seq<char>, name: Seq<char>) -> bool {
    exists|i: int|
        0 <= i < entries_of(content).len() && (#[trigger] entries_of(content)[i]).file_name == name
}

/// Verifies the checksum file at `rel_path` that holds `content`: `look` looks at the
/// listed files, with this algorithm, and at no other.
pub fn verify_checksum_file<F: Fn(&String, ChecksumAlgorithm) -> FileCheck>(
    rel_path: &str,
    algorithm: ChecksumAlgorithm,
    content: &str,
    look: F,
) -> (r: VerificationResult)
    requires
        forall|name: &String|
            is_listed(content@, name@) ==> #[trigger] call_requires(look, (name, algorithm)),
    ensures
        exists|entries: Seq<ChecksumEntry>, checks: Seq<FileCheck>|
            {
                &&& entry_models(entries) == entries_of(content@)
                &&& #[trigger] looked_at(look, algorithm, entries, checks)
                &&& checks.len() == entries_of(content@).len()
                &&& forall|i: int|
                    0 <= i < entries.len() ==> call_ensures(
                        look,
                        (&(#[trigger] entries[i]).file_name, algorithm),
                        checks[i],
                    )
                &&& r@ == checksum_verdict(
                    rel_path@,
                    algorithm,
                    entries_of(content@),
                    check_models(checks),
                )
            },
{
    let entries = checksum_entries(content);
    let mut checks: Vec<FileCheck> = Vec::new();
    let mut i: usize = 0;
    while i < entries.len()
        invariant
            i <= entries@.len(),
            checks@.len() == i,
            entry_models(entries@) == entries_of(content@),
            forall|name: &String|
                is_listed(content@, name@) ==> #[trigger] call_requires(look, (name, algorithm)),
            forall|k: int|
                0 <= k < i ==> call_ensures(
                    look,
                    (&(#[trigger] entries@[k]).file_name, algorithm),
                    checks@[k],
                ),
        decreases entries@.len() - i,
    {
        proof {
            assert(entries_of(content@)[i as int] == entries@[i as int]@);
            assert(is_listed(content@, entries@[i as int].file_name@));
        }
        let check = look(&entries[i].file_name, algorithm);
        checks.push(check);
        i = i + 1;
    }
    proof {
        assert(looked_at(look, algorithm, entries@, checks@));
    }
    conclude_checksums(rel_path, algorithm, &entries, &checks)
}

// ---------------------------------------------------------------------------
// Laws
// ---------------------------------------------------------------------------
/// `name` as checksum tools write it: backslash, line feed and carriage return are
/// written with a backslash before them.
pub open spec fn escape(name: Seq<char>) -> Seq<char>
    decreases name.len(),
{
    if name.len() == 0 {
        Seq::empty()
    } else {
        let head = if name[0] == '\\' {
            seq!['\\', '\\']
        } else if name[0] == '\n' {
            seq!['\\', 'n']
        } else if name[0] == '\r' {
            seq!['\\', 'r']
        } else {
            seq![name[0]]
        };
        head + escape(name.skip(1))
    }
}

/// A file name is read back as it was before it was written with escapes.
pub proof fn law_unescape_undoes_escape(name: Seq<char>)
    ensures
        unescape(escape(name)) == name,
    decreases name.len(),
{
    if name.len() == 0 {
        assert(unescape(escape(name)) =~= name);
    } else {
        let rest = name.skip(1);
        let tail = escape(rest);
        let written = escape(name);
        law_unescape_undoes_escape(rest);
        if name[0] == '\\' || name[0] == '\n' || name[0] == '\r' {
            let code = if name[0] == '\\' {
                '\\'
            } else if name[0] == '\n' {
                'n'
            } else {
                'r'
            };
            assert(written == seq!['\\', code] + tail);
            assert(written[0] == '\\');
            assert(written[1] == code);
            assert(written.skip(2) =~= tail);
            assert(unescape(written) == seq![escaped_char(code)] + unescape(tail));
            assert(escaped_char(code) == name[0]);
        } else {
            assert(written == seq![name[0]] + tail);
            assert(written[0] == name[0]);
            assert(written.skip(1) =~= tail);
            assert(unescape(written) == seq![name[0]] + unescape(tail));
        }
        assert(unescape(written) == seq![name[0]] + rest);
        assert(seq![name[0]] + rest =~= name);
    }
}

/// A file name without a backslash is read as it stands.
pub proof fn law_unescape_keeps_plain_names(name: Seq<char>)
    requires
        !name.contains('\\'),
    ensures
        unescape(name) == name,
    decreases name.len(),
{
    if name.len() > 0 {
        assert(name[0] != '\\') by {
            if name[0] == '\\' {
                assert(name.contains(name[0]));
            }
        }
        assert forall|c: char| name.skip(1).contains(c) implies name.contains(c) by {
            let i = choose|i: int| 0 <= i < name.skip(1).len() && name.skip(1)[i] == c;
            assert(name[i + 1] == c);
        }
        law_unescape_keeps_plain_names(name.skip(1));
        assert(seq![name[0]] + name.skip(1) =~= name);
    } else {
        assert(unescape(name) =~= name);
    }
}

/// The line that a checksum tool writes for a file: the checksum, a blank, a second
/// blank or a star, and the file name with escapes.
pub open spec fn written_line(hash: Seq<char>, star: bool, name: Seq<char>) -> Seq<char> {
    hash + seq![
        ' ',
        if star {
            '*'
        } else {
            ' '
        },
    ] + escape(name)
}

/// A line that a checksum tool wrote is read back: the checksum in lower case, and
/// the file name as it is. A name written without a star must not begin with white
/// space or a star.
pub proof fn law_written_line_reads_back(hash: Seq<char>, star: bool, name: Seq<char>)
    requires
        hash.len() > 0,
        !hash.contains(' '),
        name.len() > 0,
        !star ==> !text::is_white_space(escape(name)[0]) && escape(name)[0] != '*',
    ensures
        parse_line(written_line(hash, star, name)) == Some(
            EntryModel { expected: text::lowercase(hash), file_name: name },
        ),
{
    let line = written_line(hash, star, name);
    let n = hash.len() as int;
    assert forall|i: int| 0 <= i < n implies line[i] != ' ' by {
        assert(line[i] == hash[i]);
        assert(hash.contains(hash[i]));
    }
    assert(line[n] == ' ');
    text::lemma_until_is(line, ' ', n);
    assert(line.take(n) =~= hash);
    let rest = line.skip(n);
    law_unescape_undoes_escape(name);
    reveal_with_fuel(text::trim_start, 3);
    if star {
        assert(rest.drop_first()[0] == '*');
        assert(text::trim_start(rest) =~= rest.drop_first());
        assert(rest.drop_first().skip(1) =~= escape(name));
    } else {
        assert(rest.drop_first()[0] == ' ');
        assert(rest.drop_first().drop_first() =~= escape(name));
        assert(escape(name).len() > 0);
        assert(text::trim_start(escape(name)) == escape(name));
        assert(text::trim_start(rest) =~= escape(name));
    }
}

/// Each entry is counted once: the counts add up to the number of entries.
pub proof fn law_counts_add_up(entries: Seq<EntryModel>, checks: Seq<CheckModel>, n: nat)
    ensures
        count_of(entries, checks, n, EntryStatus::Matched) + count_of(
            entries,
            checks,
            n,
            EntryStatus::Failed,
        ) + count_of(entries, checks, n, EntryStatus::Missing) + count_of(
            entries,
            checks,
            n,
            EntryStatus::Error,
        ) == n,
    decreases n,
{
    if n > 0 {
        law_counts_add_up(entries, checks, (n - 1) as nat);
    }
}

/// A count is positive exactly when some entry fares so.
proof fn lemma_count_positive(
    entries: Seq<EntryModel>,
    checks: Seq<CheckModel>,
    n: nat,
    status: EntryStatus,
)
    ensures
        count_of(entries, checks, n, status) > 0 <==> exists|i: int|
            0 <= i < n && entry_status(#[trigger] entries[i], checks[i]) == status,
    decreases n,
{
    if n > 0 {
        lemma_count_positive(entries, checks, (n - 1) as nat, status);
        if entry_status(entries[n - 1], checks[n - 1]) == status {
            assert(0 <= n - 1 < n);
        }
    }
}

/// A checksum file passes exactly when it lists at least one file and every listed
/// file has its checksum; it fails exactly when some listed file has another one or
/// could not be hashed; otherwise some listed file is missing or it lists none.
pub proof fn law_verdict_status(
    rel_path: Seq<char>,
    algorithm: ChecksumAlgorithm,
    entries: Seq<EntryModel>,
    checks: Seq<CheckModel>,
)
    ensures
        ({
            let status = checksum_verdict(rel_path, algorithm, entries, checks).status;
            let some = |s: EntryStatus|
                exists|i: int|
                    0 <= i < entries.len() && entry_status(#[trigger] entries[i], checks[i]) == s;
            &&& status == VerificationStatus::Verified <==> entries.len() > 0 && forall|i: int|
                0 <= i < entries.len() ==> entry_status(#[trigger] entries[i], checks[i])
                    == EntryStatus::Matched
            &&& status == VerificationStatus::Failed <==> some(EntryStatus::Failed) || some(
                EntryStatus::Error,
            )
            &&& status == VerificationStatus::Missing <==> some(EntryStatus::Missing) && !some(
                EntryStatus::Failed,
            ) && !some(EntryStatus::Error)
            &&& status == VerificationStatus::Error <==> entries.len() == 0
        }),
{
    let n = entries.len();
    law_counts_add_up(entries, checks, n);
    lemma_count_positive(entries, checks, n, EntryStatus::Matched);
    lemma_count_positive(entries, checks, n, EntryStatus::Failed);
    lemma_count_positive(entries, checks, n, EntryStatus::Missing);
    lemma_count_positive(entries, checks, n, EntryStatus::Error);
}

/// There is one detail for each entry that did not match.
pub proof fn law_one_detail_per_mismatch(
    entries: Seq<EntryModel>,
    checks: Seq<CheckModel>,
    n: nat,
)
    ensures
        details_of(entries, checks, n).len() + count_of(entries, checks, n, EntryStatus::Matched)
            == n,
    decreases n,
{
    if n > 0 {
        law_one_detail_per_mismatch(entries, checks, (n - 1) as nat);
    }
}

/// A line written for a file that holds `data` matches a file exactly when that
/// file's digest is the same, in whatever case the checksum was written.
pub proof fn law_written_checksum_verifies(
    algorithm: ChecksumAlgorithm,
    hash: Seq<char>,
    data: Seq<u8>,
    star: bool,
    name: Seq<char>,
    found: Seq<u8>,
)
    requires
        vstd::utf8::is_ascii_chars(hash),
        text::ascii_lowercase(hash) == crate::digest::lower_hex(algorithm.digest(data)),
        hash.len() == algorithm.hex_len(),
        name.len() > 0,
        !star ==> !text::is_white_space(escape(name)[0]) && escape(name)[0] != '*',
        !text::is_white_space(escape(name).last()),
    ensures
        entry_of_line(written_line(hash, star, name)) matches Some(entry) && {
            &&& entry.file_name == name
            &&& entry_status(
                entry,
                CheckModel::Hashed(crate::digest::lower_hex(algorithm.digest(found))),
            ) == EntryStatus::Matched <==> algorithm.digest(found) == algorithm.digest(data)
        },
{
    let hex = crate::digest::lower_hex(algorithm.digest(data));
    let line = written_line(hash, star, name);
    crate::digest::law_hex_text(algorithm.digest(data), algorithm.digest(found));
    crate::digest::law_hex_text(algorithm.digest(found), algorithm.digest(data));
    assert(hash.len() == hex.len());
    assert forall|i: int| 0 <= i < hash.len() implies hash[i] != ' ' && hash[i] != '#' && hash[i]
        != ';' && !text::is_white_space(hash[i]) by {
        assert(text::ascii_lowercase(hash)[i] == text::ascii_lower(hash[i]));
        assert(hex[i] == text::ascii_lower(hash[i]));
    }
    assert(!hash.contains(' '));
    law_written_line_reads_back(hash, star, name);
    assert(line[0] == hash[0]);
    assert(escape(name).len() > 0);
    assert(line.last() == escape(name).last());
    assert(text::trim_start(line) == line);
    assert(text::trim_end(line) == line);
    let other = crate::digest::lower_hex(algorithm.digest(found));
    assert forall|i: int| 0 <= i < hex.len() implies text::ascii_lower(hex[i]) == hex[i] by {}
    assert(text::ascii_lowercase(hex) =~= hex);
    assert forall|i: int| 0 <= i < other.len() implies text::ascii_lower(other[i]) == other[i] by {}
    assert(text::ascii_lowercase(other) =~= other);
}

/// `entry` can be written as a line and read back: its checksum is a text in lower
/// case without blanks that starts no comment, its file name is not empty, and
/// neither white space at the ends of the line nor a star belongs to it.
pub open spec fn is_writable(entry: EntryModel, star: bool) -> bool {
    let hash = entry.expected;
    let written = escape(entry.file_name);
    &&& hash.len() > 0
    &&& text::lowercase(hash) == hash
    &&& !hash.contains(' ')
    &&& !hash.contains('\n')
    &&& !text::is_white_space(hash[0])
    &&& hash[0] != '#'
    &&& hash[0] != ';'
    &&& entry.file_name.len() > 0
    &&& !text::is_white_space(written.last())
    &&& !star ==> !text::is_white_space(written[0]) && written[0] != '*'
}

/// A checksum file that a tool wrote, one line for each entry, is read back whole
/// and in order.
pub proof fn law_checksum_file_reads_back(entries: Seq<EntryModel>, star: bool)
    requires
        forall|i: int| 0 <= i < entries.len() ==> is_writable(#[trigger] entries[i], star),
    ensures
        entries_of(
            text::terminate(
                entries.map_values(|e: EntryModel| written_line(e.expected, star, e.file_name)),
            ),
        ) == entries,
{
    let lines = entries.map_values(|e: EntryModel| written_line(e.expected, star, e.file_name));
    assert forall|i: int| 0 <= i < lines.len() implies text::is_line(#[trigger] lines[i])
        && entry_of_line(lines[i]) == Some(entries[i]) by {
        let e = entries[i];
        let line = lines[i];
        assert(is_writable(e, star));
        law_written_line_reads_back(e.expected, star, e.file_name);
        lemma_escape_one_line(e.file_name);
        assert(line[0] == e.expected[0]);
        assert(line.last() == escape(e.file_name).last());
        assert(text::trim_start(line) == line);
        assert(text::trim_end(line) == line);
        assert(!line.contains('\n')) by {
            if line.contains('\n') {
                let k = choose|k: int| 0 <= k < line.len() && line[k] == '\n';
                let n = e.expected.len();
                if k < n {
                    assert(e.expected.contains(e.expected[k]));
                } else if k >= n + 2 {
                    assert(escape(e.file_name).contains(escape(e.file_name)[k - n - 2]));
                }
            }
        }
    }
    text::law_terminated_lines_read_back(lines);
    lemma_entries_of_lines(lines, entries);
}

/// Written with escapes a name keeps to one line.
proof fn lemma_escape_one_line(name: Seq<char>)
    ensures
        !escape(name).contains('\n'),
        name.len() > 0 ==> escape(name).len() > 0,
    decreases name.len(),
{
    if name.len() > 0 {
        lemma_escape_one_line(name.skip(1));
        let tail = escape(name.skip(1));
        let written = escape(name);
        if written.contains('\n') {
            let k = choose|k: int| 0 <= k < written.len() && written[k] == '\n';
            let h = written.len() - tail.len();
            assert(k >= h);
            assert(tail.contains(tail[k - h]));
        }
    }
}

/// Lines that each say one entry say these entries.
proof fn lemma_entries_of_lines(lines: Seq<Seq<char>>, entries: Seq<EntryModel>)
    requires
        lines.len() == entries.len(),
        forall|i: int|
            0 <= i < lines.len() ==> entry_of_line(#[trigger] lines[i]) == Some(entries[i]),
    ensures
        entries_of_lines(lines) == entries,
    decreases lines.len(),
{
    if lines.len() == 0 {
        assert(entries_of_lines(lines) =~= entries);
    } else {
        lemma_entries_of_lines(lines.drop_last(), entries.drop_last());
        assert(entry_of_line(lines.last()) == Some(entries.last()));
        assert(entries_of_lines(lines) =~= entries);
    }
}

// ---------------------------------------------------------------------------
// What the lines and the verdict say
// ---------------------------------------------------------------------------
/// A name is read from its start to its end: a backslash and the character behind it
/// are one character, anything else is itself, and a backslash at the end stays.
pub proof fn law_unescape(c: char, rest: Seq<char>)
    ensures
        c != '\\' ==> unescape(seq![c] + rest) == seq![c] + unescape(rest),
        unescape(seq!['\\', 'n'] + rest) == seq!['\n'] + unescape(rest),
        unescape(seq!['\\', 'r'] + rest) == seq!['\r'] + unescape(rest),
        unescape(seq!['\\', 't'] + rest) == seq!['\t'] + unescape(rest),
        c != 'n' && c != 'r' && c != 't' ==> unescape(seq!['\\', c] + rest) == seq![c]
            + unescape(rest),
        unescape(seq!['\\']) == seq!['\\'],
        unescape(Seq::empty()) == Seq::<char>::empty(),
{
    assert((seq![c] + rest).skip(1) =~= rest);
    assert((seq!['\\', 'n'] + rest).skip(2) =~= rest);
    assert((seq!['\\', 'r'] + rest).skip(2) =~= rest);
    assert((seq!['\\', 't'] + rest).skip(2) =~= rest);
    assert((seq!['\\', c] + rest).skip(2) =~= rest);
}

/// A checksum, a blank, any white space and a name, with or without a star, are an
/// entry: the checksum in lower case, whole, and the name as it reads. The star is not
/// part of the name.
pub proof fn law_line_is_an_entry(hash: Seq<char>, gap: Seq<char>, name: Seq<char>)
    requires
        hash.len() > 0,
        !hash.contains(' '),
        text::all_white(gap),
        unescape(name).len() > 0,
    ensures
        !text::is_white_space(name[0]) && name[0] != '*' ==> parse_line(
            hash + seq![' '] + gap + name,
        ) == Some(EntryModel { expected: text::lowercase(hash), file_name: unescape(name) }),
        parse_line(hash + seq![' '] + gap + seq!['*'] + name) == Some(
            EntryModel { expected: text::lowercase(hash), file_name: unescape(name) },
        ),
{
    if name.len() == 0 {
        assert(unescape(name) =~= Seq::empty());
    }
    lemma_rest_of_line(hash, gap, name);
    lemma_rest_of_line(hash, gap, seq!['*'] + name);
    assert(hash + seq![' '] + gap + seq!['*'] + name =~= hash + seq![' '] + gap + (seq!['*']
        + name));
    assert((seq!['*'] + name).skip(1) =~= name);
}

/// Where a line is cut.
proof fn lemma_rest_of_line(hash: Seq<char>, gap: Seq<char>, rest: Seq<char>)
    requires
        !hash.contains(' '),
        text::all_white(gap),
    ensures
        ({
            let line = hash + seq![' '] + gap + rest;
            &&& text::until(line, ' ') == hash.len()
            &&& line.take(hash.len() as int) == hash
            &&& line.len() > hash.len()
            &&& (rest.len() == 0 || !text::is_white_space(rest[0])) ==> text::trim_start(
                line.skip(hash.len() as int),
            ) == rest
        }),
{
    let line = hash + seq![' '] + gap + rest;
    let n = hash.len() as int;
    assert forall|i: int| 0 <= i < n implies line[i] != ' ' by {
        assert(line[i] == hash[i]);
        assert(hash.contains(hash[i]));
    }
    text::lemma_until_is(line, ' ', n);
    assert(line.take(n) =~= hash);
    let white = seq![' '] + gap;
    assert forall|i: int| 0 <= i < white.len() implies text::is_white_space(#[trigger] white[i]) by {
        if i > 0 {
            assert(white[i] == gap[i - 1]);
        }
    }
    assert(line.skip(n) =~= white + rest);
    text::law_trim_start(white, rest);
}

/// A line without a blank, one that starts with a blank, and one without a name are no
/// entries.
pub proof fn law_line_is_no_entry(line: Seq<char>, hash: Seq<char>, gap: Seq<char>)
    requires
        !hash.contains(' '),
        text::all_white(gap),
    ensures
        !line.contains(' ') ==> parse_line(line) is None,
        line.len() > 0 && line[0] == ' ' ==> parse_line(line) is None,
        parse_line(hash + seq![' '] + gap) is None,
        parse_line(hash + seq![' '] + gap + seq!['*']) is None,
{
    if !line.contains(' ') {
        assert forall|i: int| 0 <= i < line.len() implies line[i] != ' ' by {
            assert(line.contains(line[i]));
        }
        text::lemma_until_is(line, ' ', line.len() as int);
    }
    lemma_rest_of_line(hash, gap, Seq::empty());
    assert(hash + seq![' '] + gap + Seq::<char>::empty() =~= hash + seq![' '] + gap);
    assert(unescape(Seq::<char>::empty()) =~= Seq::empty());
    lemma_rest_of_line(hash, gap, seq!['*']);
    assert(seq!['*'].skip(1) =~= Seq::empty());
}

/// Comments and blank lines say nothing; any other line says what it says without the
/// white space around it.
pub proof fn law_comments_say_nothing(before: Seq<char>, core: Seq<char>, after: Seq<char>)
    requires
        text::all_white(before),
        text::all_white(after),
        core.len() > 0 ==> !text::is_white_space(core[0]) && !text::is_white_space(core.last()),
    ensures
        core.len() == 0 || core[0] == '#' || core[0] == ';' ==> entry_of_line(
            before + core + after,
        ) is None,
        core.len() > 0 && core[0] != '#' && core[0] != ';' ==> entry_of_line(before + core + after)
            == parse_line(core),
{
    text::law_trim(before, core, after);
}

/// A checksum file says what its lines say, one after the other, whatever stands in
/// the others.
pub proof fn law_file_says_what_its_lines_say(lines: Seq<Seq<char>>, line: Seq<char>)
    requires
        forall|i: int| 0 <= i < lines.len() ==> text::is_line(#[trigger] lines[i]),
        text::is_line(line),
    ensures
        entries_of(Seq::empty()).len() == 0,
        entry_of_line(line) is None ==> entries_of(text::terminate(lines.push(line)))
            == entries_of(text::terminate(lines)),
        entry_of_line(line) matches Some(e) ==> entries_of(text::terminate(lines.push(line)))
            == entries_of(text::terminate(lines)).push(e),
{
    let more = lines.push(line);
    assert forall|i: int| 0 <= i < more.len() implies text::is_line(#[trigger] more[i]) by {
        if i < lines.len() {
            assert(more[i] == lines[i]);
        }
    }
    text::law_terminated_lines_read_back(more);
    text::law_terminated_lines_read_back(lines);
    assert(more.drop_last() =~= lines);
}

/// The texts of entries and of what looks gave are those of each, in order.
pub proof fn law_entry_texts(entries: Seq<ChecksumEntry>, checks: Seq<FileCheck>)
    ensures
        entry_models(entries).len() == entries.len(),
        forall|i: int|
            0 <= i < entries.len() ==> #[trigger] entry_models(entries)[i] == (EntryModel {
                expected: entries[i].expected@,
                file_name: entries[i].file_name@,
            }),
        check_models(checks).len() == checks.len(),
        forall|i: int|
            0 <= i < checks.len() ==> #[trigger] check_models(checks)[i] == match checks[i] {
                FileCheck::Missing => CheckModel::Missing,
                FileCheck::Unreadable => CheckModel::Unreadable,
                FileCheck::Hashed(hash) => CheckModel::Hashed(hash@),
            },
{
}

/// A file matches exactly if its hash is the expected one, character by character, the
/// case of ASCII letters aside. Whatever does not match is noted, with the name of the
/// file and, if it has another hash, with both hashes, whole.
pub proof fn law_how_a_file_fares(entry: EntryModel, hash: Seq<char>)
    ensures
        entry_status(entry, CheckModel::Hashed(hash)) == EntryStatus::Matched
            || entry_status(entry, CheckModel::Hashed(hash)) == EntryStatus::Failed,
        entry_status(entry, CheckModel::Hashed(hash)) == EntryStatus::Matched <==> {
            &&& hash.len() == entry.expected.len()
            &&& forall|i: int|
                0 <= i < hash.len() ==> text::ascii_lower(#[trigger] hash[i]) == text::ascii_lower(
                    entry.expected[i],
                )
        },
        entry_status(entry, CheckModel::Missing) == EntryStatus::Missing,
        entry_status(entry, CheckModel::Unreadable) == EntryStatus::Error,
        entry_detail(entry, CheckModel::Missing) == Some(
            entry.file_name + ": referenced file not found"@,
        ),
        entry_detail(entry, CheckModel::Unreadable) == Some(
            entry.file_name + ": could not verify"@,
        ),
        entry_status(entry, CheckModel::Hashed(hash)) == EntryStatus::Matched ==> entry_detail(
            entry,
            CheckModel::Hashed(hash),
        ) is None,
        entry_status(entry, CheckModel::Hashed(hash)) == EntryStatus::Failed ==> entry_detail(
            entry,
            CheckModel::Hashed(hash),
        ) == Some(entry.file_name + ": expected "@ + entry.expected + ", got "@ + hash),
{
    let a = text::ascii_lowercase(hash);
    let b = text::ascii_lowercase(entry.expected);
    if a == b {
        assert(a.len() == b.len());
        assert forall|i: int| 0 <= i < hash.len() implies text::ascii_lower(#[trigger] hash[i])
            == text::ascii_lower(entry.expected[i]) by {
            assert(a[i] == b[i]);
        }
    } else if hash.len() == entry.expected.len() && (forall|i: int|
        0 <= i < hash.len() ==> text::ascii_lower(#[trigger] hash[i]) == text::ascii_lower(
            entry.expected[i],
        )) {
        assert(a =~= b);
    }
}

/// What is noted of a list are the notes on its entries, in their order, and nothing
/// else.
pub proof fn law_details(entries: Seq<EntryModel>, checks: Seq<CheckModel>, n: nat)
    ensures
        details_of(entries, checks, 0).len() == 0,
        entry_detail(entries[n as int], checks[n as int]) is None ==> details_of(
            entries,
            checks,
            n + 1,
        ) == details_of(entries, checks, n),
        entry_detail(entries[n as int], checks[n as int]) matches Some(d) ==> details_of(
            entries,
            checks,
            n + 1,
        ) == details_of(entries, checks, n).push(d),
{
}

/// A count is the number of entries that fare so.
pub proof fn law_counts(
    entries: Seq<EntryModel>,
    checks: Seq<CheckModel>,
    n: nat,
    status: EntryStatus,
)
    ensures
        count_of(entries, checks, n, status) == Seq::new(
            n,
            |i: int| entry_status(entries[i], checks[i]),
        ).filter(|s: EntryStatus| s == status).len(),
    decreases n,
{
    reveal(Seq::filter);
    let all = Seq::new(n, |i: int| entry_status(entries[i], checks[i]));
    if n > 0 {
        law_counts(entries, checks, (n - 1) as nat, status);
        assert(all.drop_last() =~= Seq::new(
            (n - 1) as nat,
            |i: int| entry_status(entries[i], checks[i]),
        ));
    }
}

/// A verdict is about the file that was asked for, names its algorithm, sums up the
/// counts in digits, and holds all that was noted.
pub proof fn law_verdict_text(
    rel_path: Seq<char>,
    algorithm: ChecksumAlgorithm,
    entries: Seq<EntryModel>,
    checks: Seq<CheckModel>,
)
    ensures
        ({
            let n = entries.len();
            let verdict = checksum_verdict(rel_path, algorithm, entries, checks);
            &&& verdict.artifact_path == rel_path
            &&& verdict.kind == (match algorithm {
                ChecksumAlgorithm::Md5 => "MD5"@,
                ChecksumAlgorithm::Sha1 => "SHA-1"@,
                ChecksumAlgorithm::Sha256 => "SHA-256"@,
                ChecksumAlgorithm::Sha512 => "SHA-512"@,
            }) + " checksum file"@
            &&& n == 0 ==> verdict.summary == "No valid checksum entries found"@
            &&& n == 0 ==> verdict.details.len() == 0
            &&& n > 0 ==> verdict.details == details_of(entries, checks, n)
            &&& n > 0 ==> verdict.summary == text::decimal(
                count_of(entries, checks, n, EntryStatus::Matched),
            ) + " matched, "@ + text::decimal(count_of(entries, checks, n, EntryStatus::Failed))
                + " failed, "@ + text::decimal(count_of(entries, checks, n, EntryStatus::Missing))
                + " missing, "@ + text::decimal(count_of(entries, checks, n, EntryStatus::Error))
                + " errors out of "@ + text::decimal(n) + " entries"@
        }),
{
}

/// A checksum and a name make an entry, whole, unless one of them is empty.
pub proof fn law_parts_of_an_entry(hash: Seq<char>, gap: Seq<char>, name: Seq<char>)
    requires
        text::all_white(gap),
        name.len() > 0,
        !text::is_white_space(name[0]),
        name[0] != '*',
    ensures
        entry_of_parts(hash, gap + name) == if hash.len() == 0 || unescape(name).len() == 0 {
            None
        } else {
            Some(EntryModel { expected: hash, file_name: unescape(name) })
        },
{
    text::law_trim_start(gap, name);
}

} // verus!
