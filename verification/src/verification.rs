//! What the verification of an integrity artifact says.
use vstd::prelude::*;

verus! {

/// The outcome of a verification.
#[derive(Debug, Clone, Copy, PartialEq, Eq, Structural)]
pub enum VerificationStatus {
    Verified,
    Failed,
    Missing,
    Error,
}

impl VerificationStatus {
    /// The outcome in one word.
    pub open spec fn word(self) -> Seq<char> {
        match self {
            VerificationStatus::Verified => "OK"@,
            VerificationStatus::Failed => "FAILED"@,
            VerificationStatus::Missing => "MISSING"@,
            VerificationStatus::Error => "ERROR"@,
        }
    }

    /// The outcome in one word.
    pub fn as_str(&self) -> (r: &'static str)
        ensures
            r@ == self.word(),
    {
        match self {
            VerificationStatus::Verified => "OK",
            VerificationStatus::Failed => "FAILED",
            VerificationStatus::Missing => "MISSING",
            VerificationStatus::Error => "ERROR",
        }
    }
}

/// What was found out about one integrity artifact.
#[derive(Debug, Clone)]
pub struct VerificationResult {
    pub artifact_path: String,
    pub kind: String,
    pub status: VerificationStatus,
    pub summary: String,
    pub details: Vec<String>,
}

/// What was found out about one integrity artifact, as texts.
#[verifier::ext_equal]
pub struct VerificationModel {
    pub artifact_path: Seq<char>,
    pub kind: Seq<char>,
    pub status: VerificationStatus,
    pub summary: Seq<char>,
    pub details: Seq<Seq<char>>,
}

impl View for VerificationResult {
    type V = VerificationModel;

    open spec fn view(&self) -> VerificationModel {
        VerificationModel {
            artifact_path: self.artifact_path@,
            kind: self.kind@,
            status: self.status,
            summary: self.summary@,
            details: crate::text::texts(self.details@),
        }
    }
}

/// The results, as texts.
pub open spec fn result_models(results: Seq<VerificationResult>) -> Seq<VerificationModel> {
    results.map_values(|r: VerificationResult| r@)
}

/// A result as it is announced on the console.
#[derive(Debug, Clone)]
pub struct Announcement {
    pub text: String,
    /// It goes to the error output.
    pub is_warning: bool,
}

/// The text by which `result` is announced on the console.
pub open spec fn announcement_text(result: VerificationModel) -> Seq<char> {
    let opening = if result.status is Verified {
        "  OK   "@
    } else {
        "  "@ + result.status.word() + " "@
    };
    opening + result.artifact_path + ": "@ + result.summary
}

/// How `result` is announced on the console: everything but a success is a warning.
pub fn announcement(result: &VerificationResult) -> (r: Announcement)
    ensures
        r.text@ == announcement_text(result@),
        r.is_warning == !(result.status is Verified),
{
    let mut out = String::new();
    let is_warning = match result.status {
        VerificationStatus::Verified => {
            out.append("  OK   ");
            false
        },
        _ => {
            out.append("  ");
            out.append(result.status.as_str());
            out.append(" ");
            true
        },
    };
    out.append(result.artifact_path.as_str());
    out.append(": ");
    out.append(result.summary.as_str());
    proof {
        assert(out@ =~= announcement_text(result@));
    }
    Announcement { text: out, is_warning }
}

// ---------------------------------------------------------------------------
// Laws
// ---------------------------------------------------------------------------
/// The texts of a result are what its strings hold, and its status is its own.
pub proof fn law_result_texts(result: VerificationResult)
    ensures
        result@.artifact_path == result.artifact_path@,
        result@.kind == result.kind@,
        result@.status == result.status,
        result@.summary == result.summary@,
        result@.details.len() == result.details@.len(),
        forall|i: int|
            0 <= i < result.details@.len() ==> #[trigger] result@.details[i]
                == result.details@[i]@,
{
}

/// The texts of results are those of each, in order.
pub proof fn law_results_texts(results: Seq<VerificationResult>)
    ensures
        result_models(results).len() == results.len(),
        forall|i: int| 0 <= i < results.len() ==> #[trigger] result_models(results)[i] == results[i]@,
{
}

/// Each outcome has its own word, and only a success is called `OK`.
pub proof fn law_words_differ(a: VerificationStatus, b: VerificationStatus)
    ensures
        a.word() == b.word() <==> a == b,
        a.word() == "OK"@ <==> a == VerificationStatus::Verified,
        a.word() == "FAILED"@ <==> a == VerificationStatus::Failed,
        a.word() == "MISSING"@ <==> a == VerificationStatus::Missing,
        a.word() == "ERROR"@ <==> a == VerificationStatus::Error,
{
    reveal_strlit("OK");
    reveal_strlit("FAILED");
    reveal_strlit("MISSING");
    reveal_strlit("ERROR");
    assert("OK"@.len() == 2 && "FAILED"@.len() == 6 && "MISSING"@.len() == 7 && "ERROR"@.len()
        == 5);
}

/// A result is announced by its word, and whole: path and summary stand behind it.
pub proof fn law_announcement(result: VerificationModel)
    ensures
        result.status == VerificationStatus::Verified ==> announcement_text(result) == "  OK   "@
            + result.artifact_path + ": "@ + result.summary,
        result.status == VerificationStatus::Failed ==> announcement_text(result) == "  "@
            + "FAILED"@ + " "@ + result.artifact_path + ": "@ + result.summary,
        result.status == VerificationStatus::Missing ==> announcement_text(result) == "  "@
            + "MISSING"@ + " "@ + result.artifact_path + ": "@ + result.summary,
        result.status == VerificationStatus::Error ==> announcement_text(result) == "  "@ + "ERROR"@
            + " "@ + result.artifact_path + ": "@ + result.summary,
{
}

} // verus!
