//! Detached signatures: which file one signs, and what GPG says of it.
use crate::artifact;
use crate::text;
use crate::verification::{VerificationModel, VerificationResult, VerificationStatus};
use vstd::prelude::*;
use vstd::slice::slice_subrange;

verus! {

// ---------------------------------------------------------------------------
// The signed file
// ---------------------------------------------------------------------------
/// `name` without the extension of a detached signature.
pub open spec fn without_signature_extension(name: Seq<char>) -> Seq<char> {
    if artifact::ends_with_ignoring_case(name, ".asc"@) {
        name.take(name.len() - 4)
    } else if artifact::ends_with_ignoring_case(name, ".sig"@) {
        name.take(name.len() - 4)
    } else if artifact::ends_with_ignoring_case(name, ".sign"@) {
        name.take(name.len() - 5)
    } else {
        name
    }
}

/// The name of the file that the signature at `rel_path` signs: the signature's own
/// file name without its extension, or nothing if `rel_path` leads to no file.
pub open spec fn signed_name(rel_path: Seq<char>) -> Seq<char> {
    without_signature_extension(
        match artifact::file_name_of(rel_path) {
            Some(name) => name,
            None => Seq::empty(),
        },
    )
}

/// The name of the file that the signature at `rel_path` signs.
pub fn guess_signed_file(rel_path: &str) -> (r: String)
    ensures
        r@ == signed_name(rel_path@),
{
    let name = match artifact::file_name(rel_path) {
        Some(name) => name,
        None => String::new(),
    };
    let cs = text::chars_of(name.as_str());
    let all = cs.as_slice();
    proof {
        reveal_strlit(".asc");
        reveal_strlit(".sig");
        reveal_strlit(".sign");
    }
    let kept: usize = if artifact::has_suffix_ignoring_case(all, ".asc") {
        cs.len() - 4
    } else if artifact::has_suffix_ignoring_case(all, ".sig") {
        cs.len() - 4
    } else if artifact::has_suffix_ignoring_case(all, ".sign") {
        cs.len() - 5
    } else {
        cs.len()
    };
    let stem = slice_subrange(all, 0, kept);
    proof {
        assert(stem@ =~= cs@.take(kept as int));
        assert(cs@.take(cs@.len() as int) =~= cs@);
    }
    text::string_of(stem)
}

// ---------------------------------------------------------------------------
// What GPG says
// ---------------------------------------------------------------------------
/// What `line` says of the signer: behind `Good signature from "` the text up to the
/// next quotation mark, else all from `Good signature from ` on.
pub open spec fn signer_of_line(line: Seq<char>) -> Option<Seq<char>> {
    let unquoted = match text::find_text(line, "Good signature from "@) {
        Some(i) => Some(line.skip(i)),
        None => None,
    };
    match text::find_text(line, "Good signature from \""@) {
        Some(i) => {
            let rest = line.skip(i + "Good signature from \""@.len());
            let n = text::until(rest, '"') as int;
            if n < rest.len() {
                Some("Good signature from "@ + rest.take(n))
            } else {
                unquoted
            }
        },
        None => unquoted,
    }
}

/// What the first of the lines that says something of the signer says.
pub open spec fn signer_of_lines(lines: Seq<Seq<char>>) -> Option<Seq<char>>
    decreases lines.len(),
{
    if lines.len() == 0 {
        None
    } else if signer_of_line(lines[0]) is Some {
        signer_of_line(lines[0])
    } else {
        signer_of_lines(lines.drop_first())
    }
}

/// What the line `line` says of the signer.
fn line_signer(line: &[char]) -> (r: Option<String>)
    ensures
        crate::digest::optional_text(r) == signer_of_line(line@),
{
    let end: usize = line.len();
    if let Some(start) = text::find(line, "Good signature from \"") {
        let quote: usize = start + text::chars_of("Good signature from \"").len();
        let rest = slice_subrange(line, quote, end);
        let n = text::scan_until(rest, 0, '"');
        proof {
            assert(rest@ =~= line@.skip(quote as int));
            assert(rest@.skip(0) =~= rest@);
        }
        if n < rest.len() {
            let mut signer = "Good signature from ".to_owned();
            let name = slice_subrange(rest, 0, n);
            proof {
                assert(name@ =~= rest@.take(n as int));
            }
            signer.append(text::string_of(name).as_str());
            return Some(signer);
        }
    }
    match text::find(line, "Good signature from ") {
        Some(start) => {
            let tail = slice_subrange(line, start, end);
            proof {
                assert(tail@ =~= line@.skip(start as int));
            }
            Some(text::string_of(tail))
        },
        None => None,
    }
}

/// What the output of GPG says of the signer: what the first line says that says
/// something.
pub fn extract_gpg_signer(output: &str) -> (r: Option<String>)
    ensures
        crate::digest::optional_text(r) == signer_of_lines(text::lines(output@)),
{
    let all = text::split_lines(output);
    let ghost lines = text::lines(output@);
    let mut i: usize = 0;
    proof {
        assert(lines.skip(0) =~= lines);
    }
    while i < all.len()
        invariant
            i <= all@.len(),
            text::rows(all@) == lines,
            signer_of_lines(lines.skip(i as int)) == signer_of_lines(text::lines(output@)),
        decreases all@.len() - i,
    {
        let signer = line_signer(all[i].as_slice());
        proof {
            assert(lines[i as int] == all@[i as int]@);
            assert(lines.skip(i as int)[0] == lines[i as int]);
            assert(lines.skip(i as int).drop_first() =~= lines.skip(i + 1));
        }
        if signer.is_some() {
            return signer;
        }
        i = i + 1;
    }
    None
}

/// What GPG's run says of the signature: the outcome and a summary.
pub open spec fn gpg_verdict(success: bool, output: Seq<char>) -> (VerificationStatus, Seq<char>) {
    if success {
        (
            VerificationStatus::Verified,
            match signer_of_lines(text::lines(output)) {
                Some(signer) => signer,
                None => "Good signature"@,
            },
        )
    } else if text::contains_text(output, "BAD signature"@) {
        (VerificationStatus::Failed, "BAD signature"@)
    } else if text::contains_text(output, "No public key"@) || text::contains_text(
        output,
        "No such file or directory"@,
    ) {
        (VerificationStatus::Error, "Public key not found"@)
    } else {
        (VerificationStatus::Error, "GPG verification failed: "@ + text::trim(output))
    }
}

/// What the kind of a detached signature is called.
pub open spec fn signature_kind() -> Seq<char> {
    "GPG signature"@
}

/// What is found out about the signature at `rel_path` by a run of GPG with the
/// output `output`, which `success` says went well.
pub open spec fn signature_verdict(
    rel_path: Seq<char>,
    success: bool,
    output: Seq<char>,
) -> VerificationModel {
    VerificationModel {
        artifact_path: rel_path,
        kind: signature_kind(),
        status: gpg_verdict(success, output).0,
        summary: gpg_verdict(success, output).1,
        details: text::lines(output),
    }
}

/// What is found out about the signature at `rel_path` if the file that it signs,
/// `signed`, is not there.
pub open spec fn unsigned_verdict(rel_path: Seq<char>, signed: Seq<char>) -> VerificationModel {
    VerificationModel {
        artifact_path: rel_path,
        kind: signature_kind(),
        status: VerificationStatus::Missing,
        summary: "Signed file '"@ + signed + "' not found"@,
        details: Seq::empty(),
    }
}

/// What is found out about the signature at `rel_path` by a run of GPG with the
/// output `output`, which `success` says went well.
pub fn conclude_signature(rel_path: &str, success: bool, output: &str) -> (r: VerificationResult)
    ensures
        r@ == signature_verdict(rel_path@, success, output@),
{
    let (status, summary) = if success {
        let signer = match extract_gpg_signer(output) {
            Some(signer) => signer,
            None => "Good signature".to_owned(),
        };
        (VerificationStatus::Verified, signer)
    } else if text::contains(output, "BAD signature") {
        (VerificationStatus::Failed, "BAD signature".to_owned())
    } else if text::contains(output, "No public key") || text::contains(
        output,
        "No such file or directory",
    ) {
        (VerificationStatus::Error, "Public key not found".to_owned())
    } else {
        let mut summary = "GPG verification failed: ".to_owned();
        let cs = text::chars_of(output);
        summary.append(text::string_of(text::trimmed(cs.as_slice())).as_str());
        (VerificationStatus::Error, summary)
    };
    let all = text::split_lines(output);
    let ghost lines = text::lines(output@);
    let mut details: Vec<String> = Vec::new();
    let mut i: usize = 0;
    proof {
        assert(text::texts(details@) =~= lines.take(0));
    }
    while i < all.len()
        invariant
            i <= all@.len(),
            text::rows(all@) == lines,
            text::texts(details@) == lines.take(i as int),
        decreases all@.len() - i,
    {
        let ghost before = details@;
        let line = text::string_of(all[i].as_slice());
        details.push(line);
        proof {
            assert(lines[i as int] == all@[i as int]@);
            assert(text::texts(details@) =~= text::texts(before).push(line@));
            assert(lines.take(i + 1) =~= lines.take(i as int).push(lines[i as int]));
        }
        i = i + 1;
    }
    proof {
        assert(lines.take(lines.len() as int) =~= lines);
    }
    VerificationResult {
        artifact_path: rel_path.to_owned(),
        kind: "GPG signature".to_owned(),
        status,
        summary,
        details,
    }
}

/// What is found out about the signature at `rel_path` if the file that it signs,
/// `signed`, is not there.
pub fn conclude_unsigned(rel_path: &str, signed: &str) -> (r: VerificationResult)
    ensures
        r@ == unsigned_verdict(rel_path@, signed@),
        r.details@.len() == 0,
{
    let mut summary = "Signed file '".to_owned();
    summary.append(signed);
    summary.append("' not found");
    let r = VerificationResult {
        artifact_path: rel_path.to_owned(),
        kind: "GPG signature".to_owned(),
        status: VerificationStatus::Missing,
        summary,
        details: Vec::new(),
    };
    proof {
        assert(text::texts(r.details@) =~= Seq::empty());
    }
    r
}

/// What a run of GPG left behind.
#[derive(Debug, Clone)]
pub struct GpgOutput {
    pub success: bool,
    pub stdout: Vec<u8>,
    pub stderr: Vec<u8>,
}

/// All that a run of GPG wrote: its messages, then its output.
pub open spec fn combined_text(output: GpgOutput) -> Seq<char> {
    text::lossy_text(output.stderr@) + text::lossy_text(output.stdout@)
}

/// All that a run of GPG wrote: its messages, then its output.
pub fn combined_output(output: &GpgOutput) -> (r: String)
    ensures
        r@ == combined_text(*output),
{
    let mut combined = text::from_utf8_lossy(output.stderr.as_slice());
    let stdout = text::from_utf8_lossy(output.stdout.as_slice());
    combined.append(stdout.as_str());
    combined
}

/// What a verification of the signature at `rel_path` says when the signed file is
/// there, or is not, and a run of GPG gave `run`.
pub open spec fn signature_outcome(
    rel_path: Seq<char>,
    signed_exists: bool,
    run: Result<GpgOutput, String>,
    r: Result<VerificationResult, String>,
) -> bool {
    if !signed_exists {
        r matches Ok(v) && v@ == unsigned_verdict(rel_path, signed_name(rel_path))
    } else {
        match run {
            Ok(output) => r matches Ok(v) && v@ == signature_verdict(
                rel_path,
                output.success,
                combined_text(output),
            ),
            Err(e) => r matches Err(f) && f == e,
        }
    }
}

/// The arguments of the GPG command that verifies the signature at `rel_path` of the
/// file `signed`, as texts.
pub open spec fn verify_arguments_texts(rel_path: Seq<char>, signed: Seq<char>) -> Seq<Seq<char>> {
    seq!["--verify"@, rel_path, signed]
}

/// The arguments of the GPG command that verifies the signature at `rel_path` of the
/// file `signed`: the last two are paths relative to the directory.
pub fn verify_arguments(rel_path: &str, signed: &str) -> (r: Vec<String>)
    ensures
        text::texts(r@) == verify_arguments_texts(rel_path@, signed@),
{
    let mut args: Vec<String> = Vec::new();
    args.push("--verify".to_owned());
    args.push(rel_path.to_owned());
    args.push(signed.to_owned());
    proof {
        assert(text::texts(args@) =~= verify_arguments_texts(rel_path@, signed@));
    }
    args
}

/// `run` may give `outcome` for the arguments that verify the signature at `rel_path`.
pub open spec fn may_run<R: FnOnce(&Vec<String>) -> Result<GpgOutput, String>>(
    run: R,
    rel_path: Seq<char>,
    outcome: Result<GpgOutput, String>,
) -> bool {
    exists|args: &Vec<String>|
        {
            &&& #[trigger] call_ensures(run, (args,), outcome)
            &&& text::texts(args@) == verify_arguments_texts(rel_path, signed_name(rel_path))
        }
}

/// `is_there` told that the file that the signature at `rel_path` signs is there.
pub open spec fn is_found<E: FnOnce(&String) -> bool>(is_there: E, rel_path: Seq<char>) -> bool {
    exists|name: &String|
        name@ == signed_name(rel_path) && #[trigger] call_ensures(is_there, (name,), true)
}

/// Verifies the signature at `rel_path`: `is_there` is given the name of the signed
/// file and tells whether it is there, and only if it is, `run` runs GPG with the
/// arguments it is given. Each is called at most once.
pub fn verify_detached_signature<
    E: FnOnce(&String) -> bool,
    R: FnOnce(&Vec<String>) -> Result<GpgOutput, String>,
>(rel_path: &str, is_there: E, run: R) -> (r: Result<VerificationResult, String>)
    requires
        forall|name: &String|
            name@ == signed_name(rel_path@) ==> #[trigger] call_requires(is_there, (name,)),
        forall|args: &Vec<String>|
            is_found(is_there, rel_path@) && text::texts(args@) == verify_arguments_texts(
                rel_path@,
                signed_name(rel_path@),
            ) ==> #[trigger] call_requires(run, (args,)),
    ensures
        exists|signed: String, found: bool, outcome: Result<GpgOutput, String>|
            {
                &&& signed@ == signed_name(rel_path@)
                &&& #[trigger] call_ensures(is_there, (&signed,), found)
                &&& found ==> may_run(run, rel_path@, outcome)
                &&& #[trigger] signature_outcome(rel_path@, found, outcome, r)
                &&& !found ==> (r matches Ok(v) && {
                    &&& v.artifact_path@ == rel_path@
                    &&& v.kind@ == "GPG signature"@
                    &&& v.status == VerificationStatus::Missing
                    &&& v.summary@ == "Signed file '"@ + signed@ + "' not found"@
                    &&& v.details@.len() == 0
                })
                &&& found ==> exists|args: &Vec<String>|
                    {
                        &&& #[trigger] call_ensures(run, (args,), outcome)
                        &&& text::texts(args@) == seq!["--verify"@, rel_path@, signed@]
                    }
                &&& found ==> match outcome {
                    Err(e) => r == Err::<VerificationResult, String>(e),
                    Ok(output) => r matches Ok(v) && {
                        let said = text::lossy_text(output.stderr@) + text::lossy_text(
                            output.stdout@,
                        );
                        &&& v@ == signature_verdict(rel_path@, output.success, said)
                        &&& v.artifact_path@ == rel_path@
                        &&& v.kind@ == "GPG signature"@
                        &&& (v.status == VerificationStatus::Verified <==> output.success)
                        &&& text::texts(v.details@) == text::lines(said)
                    },
                }
            },
{
    let signed = guess_signed_file(rel_path);
    let found = is_there(&signed);
    if !found {
        let r: Result<VerificationResult, String> = Ok(
            conclude_unsigned(rel_path, signed.as_str()),
        );
        proof {
            let none: Result<GpgOutput, String> = arbitrary();
            assert(signature_outcome(rel_path@, found, none, r));
        }
        return r;
    }
    let args = verify_arguments(rel_path, signed.as_str());
    let outcome = run(&args);
    let ghost given = outcome;
    proof {
        assert(may_run(run, rel_path@, given));
    }
    let r: Result<VerificationResult, String> = match outcome {
        Ok(output) => {
            let combined = combined_output(&output);
            Ok(conclude_signature(rel_path, output.success, combined.as_str()))
        },
        Err(e) => Err(e),
    };
    proof {
        assert(signature_outcome(rel_path@, found, given, r));
    }
    r
}

// ---------------------------------------------------------------------------
// Laws
// ---------------------------------------------------------------------------
/// A signature that carries the name of a file and the extension `.asc`, `.sig` or
/// `.sign`, in whatever case and directory, is taken to sign the file of this name.
pub proof fn law_signature_signs_its_namesake(
    dir: Seq<char>,
    stem: Seq<char>,
    extension: Seq<char>,
)
    requires
        artifact::is_plain_name(stem + extension),
        ({
            ||| text::ascii_lowercase(extension) == ".asc"@
            ||| text::ascii_lowercase(extension) == ".sig"@
            ||| text::ascii_lowercase(extension) == ".sign"@
        }),
    ensures
        signed_name(stem + extension) == stem,
        signed_name(dir + seq!['/'] + (stem + extension)) == stem,
{
    let name = stem + extension;
    artifact::law_kind_depends_on_name_alone(dir, name);
    reveal_strlit(".asc");
    reveal_strlit(".sig");
    reveal_strlit(".sign");
    assert(text::ascii_lowercase(".asc"@) =~= ".asc"@);
    assert(text::ascii_lowercase(".sig"@) =~= ".sig"@);
    assert(text::ascii_lowercase(".sign"@) =~= ".sign"@);
    let lower = text::ascii_lowercase(name);
    assert(lower =~= text::ascii_lowercase(stem) + text::ascii_lowercase(extension));
    assert(text::ascii_lowercase(extension).is_suffix_of(lower));
    assert(text::ascii_lowercase(extension).len() == extension.len());
    assert(lower.last() == text::ascii_lowercase(extension).last());
    if text::ascii_lowercase(extension) != ".asc"@ {
        assert(!".asc"@.is_suffix_of(lower)) by {
            if ".asc"@.is_suffix_of(lower) {
                assert(lower.last() == ".asc"@.last());
            }
        }
    }
    if text::ascii_lowercase(extension) == ".sign"@ {
        assert(!".sig"@.is_suffix_of(lower)) by {
            if ".sig"@.is_suffix_of(lower) {
                assert(lower.last() == ".sig"@.last());
            }
        }
    }
    assert(name.take(stem.len() as int) =~= stem);
}

/// A signature passes exactly when GPG's run went well.
pub proof fn law_signature_passes_only_with_gpg(
    rel_path: Seq<char>,
    success: bool,
    output: Seq<char>,
)
    ensures
        signature_verdict(rel_path, success, output).status == VerificationStatus::Verified
            <==> success,
{
}

/// Whatever GPG says, the result is about the signature that was asked for, and every
/// line that GPG wrote is a detail of it.
pub proof fn law_verdict_keeps_the_output(rel_path: Seq<char>, success: bool, output: Seq<char>)
    ensures
        signature_verdict(rel_path, success, output).artifact_path == rel_path,
        signature_verdict(rel_path, success, output).kind == "GPG signature"@,
        signature_verdict(rel_path, success, output).details == text::lines(output),
{
}

/// A bad signature is seen wherever GPG says it, whatever it writes before and behind.
pub proof fn law_bad_signature_is_seen(
    rel_path: Seq<char>,
    before: Seq<char>,
    after: Seq<char>,
)
    ensures
        signature_verdict(rel_path, false, before + "BAD signature"@ + after).status
            == VerificationStatus::Failed,
        signature_verdict(rel_path, false, before + "BAD signature"@ + after).summary
            == "BAD signature"@,
{
    text::law_contains(Seq::empty(), before, "BAD signature"@, after);
}

/// Only a bad signature fails; every other run without success is an error.
pub proof fn law_only_bad_signatures_fail(rel_path: Seq<char>, output: Seq<char>)
    ensures
        signature_verdict(rel_path, false, output).status == VerificationStatus::Failed <==> exists|
            i: int,
        |
            0 <= i <= output.len() - "BAD signature"@.len() && output == #[trigger] output.take(i)
                + "BAD signature"@ + output.skip(i + "BAD signature"@.len()),
        signature_verdict(rel_path, false, output).status != VerificationStatus::Failed
            ==> signature_verdict(rel_path, false, output).status == VerificationStatus::Error,
{
    let bad = "BAD signature"@;
    text::law_contains(output, Seq::empty(), bad, Seq::empty());
    if exists|i: int|
        0 <= i <= output.len() - bad.len() && output == #[trigger] output.take(i) + bad
            + output.skip(i + bad.len()) {
        let i = choose|i: int|
            0 <= i <= output.len() - bad.len() && output == #[trigger] output.take(i) + bad
                + output.skip(i + bad.len());
        text::law_contains(output, output.take(i), bad, output.skip(i + bad.len()));
    }
}

/// A key that GPG does not have is told wherever GPG says so; any other failure is told
/// in GPG's own words, without the white space around them.
pub proof fn law_other_failures(
    rel_path: Seq<char>,
    output: Seq<char>,
    before: Seq<char>,
    after: Seq<char>,
)
    requires
        !text::contains_text(output, "BAD signature"@),
    ensures
        output == before + "No public key"@ + after ==> signature_verdict(
            rel_path,
            false,
            output,
        ).summary == "Public key not found"@,
        output == before + "No such file or directory"@ + after ==> signature_verdict(
            rel_path,
            false,
            output,
        ).summary == "Public key not found"@,
        !text::contains_text(output, "No public key"@) && !text::contains_text(
            output,
            "No such file or directory"@,
        ) ==> signature_verdict(rel_path, false, output).summary == "GPG verification failed: "@
            + text::trim(output),
{
    text::law_contains(Seq::empty(), before, "No public key"@, after);
    text::law_contains(Seq::empty(), before, "No such file or directory"@, after);
}

/// A good signature is summed up by what the first line that names a signer says; if
/// none does, it is just called good.
pub proof fn law_good_signature_names_the_signer(
    rel_path: Seq<char>,
    output: Seq<char>,
    i: int,
)
    requires
        forall|k: int|
            0 <= k < i && k < text::lines(output).len() ==> signer_of_line(
                #[trigger] text::lines(output)[k],
            ) is None,
    ensures
        0 <= i < text::lines(output).len() && signer_of_line(text::lines(output)[i]) is Some
            ==> signature_verdict(rel_path, true, output).summary == signer_of_line(
            text::lines(output)[i],
        )->0,
        i >= text::lines(output).len() ==> signature_verdict(rel_path, true, output).summary
            == "Good signature"@,
{
    lemma_first_signer(text::lines(output), i);
}

proof fn lemma_first_signer(lines: Seq<Seq<char>>, i: int)
    requires
        forall|k: int|
            0 <= k < i && k < lines.len() ==> signer_of_line(#[trigger] lines[k]) is None,
    ensures
        0 <= i < lines.len() && signer_of_line(lines[i]) is Some ==> signer_of_lines(lines)
            == signer_of_line(lines[i]),
        i >= lines.len() ==> signer_of_lines(lines) is None,
    decreases lines.len(),
{
    if lines.len() > 0 && i > 0 {
        let rest = lines.drop_first();
        assert(signer_of_line(lines[0]) is None);
        assert forall|k: int| 0 <= k < i - 1 && k < rest.len() implies signer_of_line(
            #[trigger] rest[k],
        ) is None by {
            assert(rest[k] == lines[k + 1]);
        }
        lemma_first_signer(rest, i - 1);
        if i < lines.len() {
            assert(rest[i - 1] == lines[i]);
        }
    }
}

/// A line that names the signer in quotation marks is told without them and without
/// what stands around; one that does not, or does not close them, is told from the
/// words on.
pub proof fn law_signer_of_line(before: Seq<char>, name: Seq<char>, after: Seq<char>)
    requires
        !text::contains_text(before + "Good signature from"@, "Good signature from "@),
        !name.contains('"'),
    ensures
        signer_of_line(before + "Good signature from \""@ + name + "\""@ + after) == Some(
            "Good signature from "@ + name,
        ),
        signer_of_line(before + "Good signature from "@ + name) == Some(
            "Good signature from "@ + name,
        ),
        signer_of_line(before + "Good signature from \""@ + name) == Some(
            "Good signature from \""@ + name,
        ),
{
    let bare = "Good signature from "@;
    let quoted = "Good signature from \""@;
    reveal_strlit("Good signature from");
    reveal_strlit("Good signature from ");
    reveal_strlit("Good signature from \"");
    reveal_strlit("\"");
    let n = before.len() as int;
    assert forall|k: int| 0 <= k < name.len() implies name[k] != '"' by {
        assert(name.contains(name[k]));
    }
    // In quotation marks.
    let closed = before + quoted + name + "\""@ + after;
    lemma_found_behind(before, closed);
    let rest = closed.skip(n + 21);
    assert(rest =~= name + "\""@ + after);
    text::lemma_until_is(rest, '"', name.len() as int);
    assert(rest.take(name.len() as int) =~= name);
    // Without quotation marks.
    let plain = before + bare + name;
    lemma_found_behind(before, plain);
    assert(plain.skip(n) =~= bare + name);
    text::lemma_find_from(plain, quoted, 0);
    if let Some(q) = text::find_text(plain, quoted) {
        assert(text::occurs_at(plain, quoted, q));
        assert(plain.subrange(q, q + 21)[20] == quoted[20]);
        assert(plain[q + 20] == name[q - n]);
    }
    // With one quotation mark only.
    let open = before + quoted + name;
    lemma_found_behind(before, open);
    assert(open.skip(n + 21) =~= name);
    text::lemma_until_is(name, '"', name.len() as int);
    assert(open.skip(n) =~= quoted + name);
}

/// The words on the signer are found where they first stand.
proof fn lemma_found_behind(before: Seq<char>, line: Seq<char>)
    requires
        !text::contains_text(before + "Good signature from"@, "Good signature from "@),
        (before + "Good signature from "@).is_prefix_of(line),
    ensures
        text::find_text(line, "Good signature from "@) == Some(before.len() as int),
        text::find_text(line, "Good signature from \""@) matches Some(q) ==> q >= before.len(),
        (before + "Good signature from \""@).is_prefix_of(line) ==> text::find_text(
            line,
            "Good signature from \""@,
        ) == Some(before.len() as int),
{
    let words = "Good signature from"@;
    let bare = "Good signature from "@;
    let quoted = "Good signature from \""@;
    reveal_strlit("Good signature from");
    reveal_strlit("Good signature from ");
    reveal_strlit("Good signature from \"");
    let n = before.len() as int;
    let front = before + words;
    assert(forall|k: int| 0 <= k < n + 20 ==> line[k] == (before + bare)[k]);
    assert(line.take(n + 19) =~= front);
    assert forall|j: int| 0 <= j < n implies !text::occurs_at(line, bare, j) by {
        if text::occurs_at(line, bare, j) {
            assert(front.subrange(j, j + 20) =~= line.subrange(j, j + 20));
            assert(text::occurs_at(front, bare, j));
        }
    }
    assert forall|j: int| 0 <= j < n implies !text::occurs_at(line, quoted, j) by {
        if text::occurs_at(line, quoted, j) {
            assert(line.subrange(j, j + 20) =~= line.subrange(j, j + 21).take(20));
            assert(quoted.take(20) =~= bare);
            assert(text::occurs_at(line, bare, j));
        }
    }
    assert(line.subrange(n, n + 20) =~= bare);
    assert(text::occurs_at(line, bare, n));
    text::lemma_find_from(line, bare, 0);
    text::lemma_find_from(line, quoted, 0);
    if (before + quoted).is_prefix_of(line) {
        assert(forall|k: int| 0 <= k < n + 21 ==> line[k] == (before + quoted)[k]);
        assert(line.subrange(n, n + 21) =~= quoted);
        assert(text::occurs_at(line, quoted, n));
    }
}

/// A line without the words names no signer.
pub proof fn law_no_signer(line: Seq<char>)
    requires
        !text::contains_text(line, "Good signature from "@),
    ensures
        signer_of_line(line) is None,
{
    let bare = "Good signature from "@;
    let quoted = "Good signature from \""@;
    reveal_strlit("Good signature from ");
    reveal_strlit("Good signature from \"");
    text::law_find_nothing(line, bare);
    text::lemma_find_from(line, quoted, 0);
    if let Some(q) = text::find_text(line, quoted) {
        assert(line.subrange(q, q + 20) =~= line.subrange(q, q + 21).take(20));
        assert(quoted.take(20) =~= bare);
        assert(text::occurs_at(line, bare, q));
    }
}

/// All that GPG wrote counts, its messages first.
pub proof fn law_combined_text(output: GpgOutput)
    ensures
        combined_text(output) == text::lossy_text(output.stderr@) + text::lossy_text(
            output.stdout@,
        ),
{
}

/// Without the signed file a signature is missing it, whatever the file is called.
pub proof fn law_unsigned(rel_path: Seq<char>, signed: Seq<char>)
    ensures
        unsigned_verdict(rel_path, signed).artifact_path == rel_path,
        unsigned_verdict(rel_path, signed).kind == "GPG signature"@,
        unsigned_verdict(rel_path, signed).status == VerificationStatus::Missing,
        unsigned_verdict(rel_path, signed).summary == "Signed file '"@ + signed + "' not found"@,
        unsigned_verdict(rel_path, signed).details.len() == 0,
        verify_arguments_texts(rel_path, signed) == seq!["--verify"@, rel_path, signed],
{
}

/// A file without the extension of a signature is taken to sign itself; a path that
/// leads to no file, to sign nothing.
pub proof fn law_other_names(dir: Seq<char>, name: Seq<char>)
    requires
        artifact::is_plain_name(name),
        !artifact::has_extension(name, ".asc"@),
        !artifact::has_extension(name, ".sig"@),
        !artifact::has_extension(name, ".sign"@),
    ensures
        signed_name(name) == name,
        signed_name(dir + seq!['/'] + name) == name,
        signed_name(dir + seq!['/', '.', '.']) == Seq::<char>::empty(),
{
    artifact::law_kind_depends_on_name_alone(dir, name);
    reveal_strlit(".asc");
    reveal_strlit(".sig");
    reveal_strlit(".sign");
    artifact::lemma_extension_ignoring_case(name, ".asc"@);
    artifact::lemma_extension_ignoring_case(name, ".sig"@);
    artifact::lemma_extension_ignoring_case(name, ".sign"@);
    artifact::law_paths_without_a_file(dir);
}

} // verus!
