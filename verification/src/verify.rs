//! Verification of all the integrity artifacts of a directory.
use crate::artifact::{ArtifactKind, ArtifactModel, ExistingArtifact};
use crate::checksum;
use crate::digest::ChecksumAlgorithm;
use crate::signature;
use crate::text;
use crate::verification::{VerificationModel, VerificationResult, VerificationStatus};
use vstd::prelude::*;

verus! {

/// What an artifact of the kind `kind` is called.
pub open spec fn kind_text(kind: ArtifactKind) -> Seq<char> {
    match kind {
        ArtifactKind::ChecksumFile(algorithm) => checksum::checksum_kind(algorithm),
        ArtifactKind::DetachedSignature => signature::signature_kind(),
    }
}

/// What is said of an artifact that could not be verified, for the reason `reason`.
pub open spec fn broken_verdict(artifact: ArtifactModel, reason: Seq<char>) -> VerificationModel {
    VerificationModel {
        artifact_path: artifact.rel_path,
        kind: kind_text(artifact.kind),
        status: VerificationStatus::Error,
        summary: "Verification error: "@ + reason,
        details: Seq::empty(),
    }
}

/// What is said of a signature when there is no GPG.
pub open spec fn unavailable_verdict(rel_path: Seq<char>) -> VerificationModel {
    VerificationModel {
        artifact_path: rel_path,
        kind: signature::signature_kind(),
        status: VerificationStatus::Error,
        summary: "GPG not available"@,
        details: Seq::empty(),
    }
}

/// What is said of an artifact whose verification gave `outcome`.
pub open spec fn settled(
    artifact: ArtifactModel,
    outcome: Result<VerificationResult, String>,
) -> VerificationModel {
    match outcome {
        Ok(verdict) => verdict@,
        Err(reason) => broken_verdict(artifact, reason@),
    }
}

/// What an artifact of the kind `kind` is called.
pub fn kind_name(kind: ArtifactKind) -> (r: String)
    ensures
        r@ == kind_text(kind),
{
    match kind {
        ArtifactKind::ChecksumFile(algorithm) => checksum::checksum_kind_name(algorithm),
        ArtifactKind::DetachedSignature => "GPG signature".to_owned(),
    }
}

/// `verdict` is the very result that a verification gave, or tells the error that kept
/// `artifact` from being verified.
pub open spec fn is_kept_or_error(
    artifact: ExistingArtifact,
    outcome: Result<VerificationResult, String>,
    verdict: VerificationResult,
) -> bool {
    match outcome {
        Ok(given) => verdict == given,
        Err(reason) => {
            &&& verdict.artifact_path@ == artifact.rel_path@
            &&& verdict.kind@ == kind_text(artifact.kind)
            &&& verdict.status == VerificationStatus::Error
            &&& verdict.summary@ == "Verification error: "@ + reason@
            &&& verdict.details@.len() == 0
        },
    }
}

/// What is said of an artifact whose verification gave `outcome`.
pub fn settle(
    artifact: &ExistingArtifact,
    outcome: Result<VerificationResult, String>,
) -> (r: VerificationResult)
    ensures
        r@ == settled(artifact@, outcome),
        is_kept_or_error(*artifact, outcome, r),
{
    match outcome {
        Ok(verdict) => verdict,
        Err(reason) => {
            let mut summary = "Verification error: ".to_owned();
            summary.append(reason.as_str());
            let details: Vec<String> = Vec::new();
            proof {
                assert(text::texts(details@) =~= Seq::empty());
            }
            VerificationResult {
                artifact_path: artifact.rel_path.clone(),
                kind: kind_name(artifact.kind),
                status: VerificationStatus::Error,
                summary,
                details,
            }
        },
    }
}

/// What is said of a signature when there is no GPG.
pub fn unavailable(rel_path: &str) -> (r: VerificationResult)
    ensures
        r@ == unavailable_verdict(rel_path@),
        r.artifact_path@ == rel_path@,
        r.kind@ == "GPG signature"@,
        r.status == VerificationStatus::Error,
        r.summary@ == "GPG not available"@,
        r.details@.len() == 0,
{
    let details: Vec<String> = Vec::new();
    proof {
        assert(text::texts(details@) =~= Seq::empty());
    }
    VerificationResult {
        artifact_path: rel_path.to_owned(),
        kind: "GPG signature".to_owned(),
        status: VerificationStatus::Error,
        summary: "GPG not available".to_owned(),
        details,
    }
}

/// `verdict` is what is said of `artifact`: what its verification gave, by
/// `check_sums` or, with the GPG command `gpg`, by `check_signature`.
pub open spec fn is_verdict<
    C: Fn(&String, ChecksumAlgorithm) -> Result<VerificationResult, String>,
    S: Fn(&String, &str) -> Result<VerificationResult, String>,
>(
    artifact: ExistingArtifact,
    gpg: Option<&str>,
    check_sums: C,
    check_signature: S,
    verdict: VerificationResult,
) -> bool {
    match artifact.kind {
        ArtifactKind::ChecksumFile(algorithm) => exists|
            outcome: Result<VerificationResult, String>,
        |
            {
                &&& #[trigger] call_ensures(check_sums, (&artifact.rel_path, algorithm), outcome)
                &&& verdict@ == settled(artifact@, outcome)
            },
        ArtifactKind::DetachedSignature => match gpg {
            Some(gpg) => exists|outcome: Result<VerificationResult, String>|
                {
                    &&& #[trigger] call_ensures(check_signature, (&artifact.rel_path, gpg), outcome)
                    &&& verdict@ == settled(artifact@, outcome)
                },
            None => verdict@ == unavailable_verdict(artifact.rel_path@),
        },
    }
}

/// `artifact` may be handed to the one of `check_sums` and `check_signature` that is
/// for its kind; a signature only with the GPG command `gpg`.
pub open spec fn may_check<
    C: Fn(&String, ChecksumAlgorithm) -> Result<VerificationResult, String>,
    S: Fn(&String, &str) -> Result<VerificationResult, String>,
>(artifact: ExistingArtifact, gpg: Option<&str>, check_sums: C, check_signature: S) -> bool {
    match artifact.kind {
        ArtifactKind::ChecksumFile(algorithm) => call_requires(
            check_sums,
            (&artifact.rel_path, algorithm),
        ),
        ArtifactKind::DetachedSignature => match gpg {
            Some(gpg) => call_requires(check_signature, (&artifact.rel_path, gpg)),
            None => true,
        },
    }
}

/// Verifies the artifacts: one verdict for each, in their order. A checksum file is
/// handed to `check_sums` with its path and algorithm; a signature to
/// `check_signature` with its path and the command `gpg`, if there is one.
pub fn verify_artifacts<
    C: Fn(&String, ChecksumAlgorithm) -> Result<VerificationResult, String>,
    S: Fn(&String, &str) -> Result<VerificationResult, String>,
>(
    artifacts: &Vec<ExistingArtifact>,
    gpg: Option<&str>,
    check_sums: C,
    check_signature: S,
) -> (r: Vec<VerificationResult>)
    requires
        forall|i: int|
            0 <= i < artifacts@.len() ==> may_check(
                #[trigger] artifacts@[i],
                gpg,
                check_sums,
                check_signature,
            ),
    ensures
        r@.len() == artifacts@.len(),
        forall|i: int|
            0 <= i < artifacts@.len() ==> is_verdict(
                #[trigger] artifacts@[i],
                gpg,
                check_sums,
                check_signature,
                r@[i],
            ),
        forall|i: int|
            #![trigger artifacts@[i]]
            0 <= i < artifacts@.len() ==> match (artifacts@[i].kind, gpg) {
                (ArtifactKind::ChecksumFile(algorithm), _) => exists|
                    outcome: Result<VerificationResult, String>,
                |
                    {
                        &&& #[trigger] call_ensures(
                            check_sums,
                            (&artifacts@[i].rel_path, algorithm),
                            outcome,
                        )
                        &&& is_kept_or_error(artifacts@[i], outcome, r@[i])
                    },
                (ArtifactKind::DetachedSignature, Some(command)) => exists|
                    outcome: Result<VerificationResult, String>,
                |
                    {
                        &&& #[trigger] call_ensures(
                            check_signature,
                            (&artifacts@[i].rel_path, command),
                            outcome,
                        )
                        &&& is_kept_or_error(artifacts@[i], outcome, r@[i])
                    },
                (ArtifactKind::DetachedSignature, None) => {
                    &&& r@[i].artifact_path@ == artifacts@[i].rel_path@
                    &&& r@[i].kind@ == "GPG signature"@
                    &&& r@[i].status == VerificationStatus::Error
                    &&& r@[i].summary@ == "GPG not available"@
                    &&& r@[i].details@.len() == 0
                },
            },
{
    let mut results: Vec<VerificationResult> = Vec::new();
    let mut i: usize = 0;
    while i < artifacts.len()
        invariant
            i <= artifacts@.len(),
            results@.len() == i,
            forall|k: int|
                0 <= k < artifacts@.len() ==> may_check(
                    #[trigger] artifacts@[k],
                    gpg,
                    check_sums,
                    check_signature,
                ),
            forall|k: int|
                0 <= k < i ==> is_verdict(
                    #[trigger] artifacts@[k],
                    gpg,
                    check_sums,
                    check_signature,
                    results@[k],
                ),
            forall|k: int|
                #![trigger artifacts@[k]]
                0 <= k < i ==> match (artifacts@[k].kind, gpg) {
                    (ArtifactKind::ChecksumFile(algorithm), _) => exists|
                        outcome: Result<VerificationResult, String>,
                    |
                        {
                            &&& #[trigger] call_ensures(
                                check_sums,
                                (&artifacts@[k].rel_path, algorithm),
                                outcome,
                            )
                            &&& is_kept_or_error(artifacts@[k], outcome, results@[k])
                        },
                    (ArtifactKind::DetachedSignature, Some(command)) => exists|
                        outcome: Result<VerificationResult, String>,
                    |
                        {
                            &&& #[trigger] call_ensures(
                                check_signature,
                                (&artifacts@[k].rel_path, command),
                                outcome,
                            )
                            &&& is_kept_or_error(artifacts@[k], outcome, results@[k])
                        },
                    (ArtifactKind::DetachedSignature, None) => {
                        &&& results@[k].artifact_path@ == artifacts@[k].rel_path@
                        &&& results@[k].kind@ == "GPG signature"@
                        &&& results@[k].status == VerificationStatus::Error
                        &&& results@[k].summary@ == "GPG not available"@
                        &&& results@[k].details@.len() == 0
                    },
                },
        decreases artifacts@.len() - i,
    {
        let artifact = &artifacts[i];
        proof {
            assert(may_check(artifacts@[i as int], gpg, check_sums, check_signature));
        }
        let verdict = match artifact.kind {
            ArtifactKind::ChecksumFile(algorithm) => settle(
                artifact,
                check_sums(&artifact.rel_path, algorithm),
            ),
            ArtifactKind::DetachedSignature => match gpg {
                Some(gpg) => settle(artifact, check_signature(&artifact.rel_path, gpg)),
                None => unavailable(artifact.rel_path.as_str()),
            },
        };
        results.push(verdict);
        i = i + 1;
    }
    results
}

// ---------------------------------------------------------------------------
// Laws
// ---------------------------------------------------------------------------
/// A verification that gave a result is reported by that result, whatever it is: its
/// path, kind, status, summary and details stay as they are.
pub proof fn law_result_is_kept(artifact: ArtifactModel, given: VerificationResult)
    ensures
        settled(artifact, Ok(given)) == given@,
        settled(artifact, Ok(given)).status == given.status,
        settled(artifact, Ok(given)).summary == given.summary@,
        settled(artifact, Ok(given)).kind == given.kind@,
        settled(artifact, Ok(given)).artifact_path == given.artifact_path@,
{
}

/// A verification that failed to give a result is reported as an error, with its
/// reason, under the path of the artifact; it never passes.
pub proof fn law_failure_is_an_error(artifact: ArtifactModel, reason: String)
    ensures
        settled(artifact, Err(reason)).status == VerificationStatus::Error,
        settled(artifact, Err(reason)).artifact_path == artifact.rel_path,
        settled(artifact, Err(reason)).summary == "Verification error: "@ + reason@,
        settled(artifact, Err(reason)).details.len() == 0,
{
}

/// The kinds of artifacts are named after their algorithms.
pub proof fn law_kind_names()
    ensures
        kind_text(ArtifactKind::ChecksumFile(ChecksumAlgorithm::Md5)) == "MD5"@
            + " checksum file"@,
        kind_text(ArtifactKind::ChecksumFile(ChecksumAlgorithm::Sha1)) == "SHA-1"@
            + " checksum file"@,
        kind_text(ArtifactKind::ChecksumFile(ChecksumAlgorithm::Sha256)) == "SHA-256"@
            + " checksum file"@,
        kind_text(ArtifactKind::ChecksumFile(ChecksumAlgorithm::Sha512)) == "SHA-512"@
            + " checksum file"@,
        kind_text(ArtifactKind::DetachedSignature) == "GPG signature"@,
{
}

/// Without GPG a signature is an error, never a success.
pub proof fn law_without_gpg(rel_path: Seq<char>)
    ensures
        unavailable_verdict(rel_path).status == VerificationStatus::Error,
        unavailable_verdict(rel_path).artifact_path == rel_path,
        unavailable_verdict(rel_path).kind == "GPG signature"@,
        unavailable_verdict(rel_path).summary == "GPG not available"@,
        unavailable_verdict(rel_path).details.len() == 0,
{
}

} // verus!
