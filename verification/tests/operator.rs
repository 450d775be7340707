use fordocu::host::collect_host_info;
use fordocu::interview::{CaseInterview, InterviewError};
use fordocu::keys::{
    choose_key, find_gpg, list_secret_keys, parse_secret_keys, sign_with_gpg, signing_arguments,
    signing_outcome, KeyChoice, SignError,
};

#[test]
fn the_interview_collects_answers() {
    let mut interview = CaseInterview::new();
    let mut prompts = Vec::new();
    let mut headings = Vec::new();
    for line in ["ref", "src", "why", "and how", "", "me", "n1", "n2", ""] {
        assert!(!interview.is_finished());
        let question = interview.question();
        prompts.push(question.prompt);
        if let Some(heading) = question.heading {
            headings.push(heading);
        }
        if line.is_empty() {
            assert!(question.allow_empty);
        }
        assert!(interview.answer(line.to_string()).is_ok());
    }
    assert!(interview.is_finished());
    let case = interview.finish();
    assert_eq!(case.reference, "ref");
    assert_eq!(case.source, "src");
    assert_eq!(case.reason, "why\nand how");
    assert_eq!(case.operator, "me");
    assert_eq!(case.notes, "n1\nn2");
    assert_eq!(
        prompts,
        vec![
            "Case reference",
            "Data collection source",
            "  reason",
            "  reason",
            "  reason",
            "Operator / collector name (optional)",
            "  notes",
            "  notes",
            "  notes",
        ]
    );
    assert_eq!(
        headings,
        vec![
            "Reason for data collection (empty line to finish):",
            "Notes (empty line to finish):",
        ]
    );
}

#[test]
fn operator_and_notes_are_optional() {
    let mut interview = CaseInterview::new();
    for line in ["ref", "src", "why", "", "", ""] {
        assert!(interview.answer(line.to_string()).is_ok());
    }
    let case = interview.finish();
    assert_eq!((case.operator.as_str(), case.notes.as_str()), ("", ""));
}

#[test]
fn a_reason_is_required() {
    let mut interview = CaseInterview::new();
    assert!(!interview.question().allow_empty);
    assert_eq!(interview.question().failure, "Failed to read case reference");
    interview.answer("ref".to_string()).unwrap();
    assert!(!interview.question().allow_empty);
    interview.answer("src".to_string()).unwrap();
    let refused = interview.answer(String::new());
    assert_eq!(refused, Err(InterviewError::ReasonMissing));
    assert_eq!(InterviewError::ReasonMissing.message(), "Input is required");
    assert!(!interview.is_finished());
}

#[test]
fn an_unknown_host_is_named_so() {
    let host = collect_host_info(
        None,
        "u".to_string(),
        "U".to_string(),
        None,
        Some("6.1".to_string()),
        "/w".to_string(),
    );
    assert_eq!(host.hostname, "");
    assert_eq!(host.username, "u");
    assert_eq!(host.realname, "U");
    assert_eq!(host.os, "unknown");
    assert_eq!(host.kernel, "6.1");
    assert_eq!(host.cwd, "/w");
}

#[test]
fn the_first_gpg_that_runs_is_used() {
    assert_eq!(find_gpg(|c: &'static str| c == "gpg" || panic!("{}", c)), Some("gpg"));
    assert_eq!(find_gpg(|c: &'static str| c == "gpg2"), Some("gpg2"));
    assert_eq!(find_gpg(|_: &'static str| false), None);
}

const LISTING: &str = "sec:u:255:22:AAAA:1:::u:::scESC:::+::ed25519:::0:\n\
fpr:::::::::FFFF:\n\
uid:u::::1::HASH::Ann <ann@x>::::::::::0:\n\
uid:u::::1::HASH::Second <ann@y>::::::::::0:\n\
ssb:u:255:18:BBBB:1::::::e:::+::cv25519::\n\
sec:u:255:22::1:::\n\
uid:u::::1::HASH::Nobody::\n\
sec:u:255:22:CCCC:1:::\n\
uid:short\n\
uid:u::::1::HASH::Carl::::\n";

fn keys() -> Vec<(String, String)> {
    vec![
        ("AAAA".to_string(), "Ann <ann@x>".to_string()),
        ("CCCC".to_string(), "Carl".to_string()),
    ]
}

#[test]
fn secret_keys_are_listed_with_their_first_user() {
    assert_eq!(parse_secret_keys(LISTING), keys());
    assert_eq!(list_secret_keys(LISTING.as_bytes()), keys());
    assert_eq!(parse_secret_keys(""), vec![]);
    assert_eq!(parse_secret_keys("uid:u::::1::HASH::Nobody::\n"), vec![]);
}

#[test]
fn a_listing_is_repaired() {
    let bytes = b"sec:u:1:1:AAAA:\nuid:::::::::Ann\xff:\n";
    assert_eq!(
        list_secret_keys(bytes),
        vec![("AAAA".to_string(), "Ann\u{fffd}".to_string())]
    );
}

#[test]
fn the_key_is_chosen() {
    assert_eq!(choose_key(&vec![]).err(), Some(SignError::NoKeys));
    match choose_key(&keys()[..1].to_vec()).unwrap() {
        KeyChoice::Only { key_id, notice } => {
            assert_eq!(key_id, "AAAA");
            assert_eq!(notice, "Using the only available GPG secret key: AAAA - Ann <ann@x>");
        }
        KeyChoice::Select(_) => panic!("selected"),
    }
    match choose_key(&keys()).unwrap() {
        KeyChoice::Select(items) => {
            assert_eq!(items, vec!["AAAA - Ann <ann@x>", "CCCC - Carl"]);
        }
        KeyChoice::Only { .. } => panic!("only one"),
    }
}

#[test]
fn gpg_is_told_what_to_sign_with() {
    assert_eq!(
        signing_arguments("AAAA", "r.txt"),
        vec!["--detach-sign", "--armor", "--local-user", "AAAA", "--output", "r.txt.asc", "r.txt"]
    );
}

#[test]
fn signing_can_fail() {
    let id = || "A".to_string();
    assert_eq!(signing_outcome(id(), Some(true), true), Ok(id()));
    assert_eq!(signing_outcome(id(), Some(true), false), Err(SignError::NotCreated));
    assert_eq!(signing_outcome(id(), Some(false), true), Err(SignError::GpgFailed));
    assert_eq!(signing_outcome(id(), None, true), Err(SignError::GpgNotRun));
    assert_eq!(SignError::NoListing.message(), "Failed to list GPG secret keys");
    assert_eq!(SignError::NoKeys.message(), "No GPG secret keys found");
    assert_eq!(SignError::NoSelection.message(), "Failed to select GPG key");
    assert_eq!(SignError::GpgNotRun.message(), "Failed to run gpg");
    assert_eq!(SignError::GpgFailed.message(), "gpg returned non-zero exit status");
    assert_eq!(SignError::NotCreated.message(), "Signature file was not created");
}

fn sign(
    listing: Option<&[u8]>,
    selection: Option<usize>,
    success: Option<bool>,
    created: bool,
) -> Result<String, SignError> {
    let expected_key = if selection == Some(1) { "CCCC" } else { "AAAA" };
    sign_with_gpg(
        listing,
        "/w/r.txt",
        |notice: &String| assert!(notice.starts_with("Using the only")),
        |items: &Vec<String>| {
            assert_eq!(items.len(), 2);
            selection
        },
        |args: &Vec<String>| {
            assert_eq!(args.len(), 7);
            assert_eq!(args[3], expected_key);
            assert_eq!(args[5], "/w/r.txt.asc");
            assert_eq!(args[6], "/w/r.txt");
            success
        },
        |path: &String| {
            assert_eq!(path, "/w/r.txt.asc");
            created
        },
    )
}

#[test]
fn without_a_key_nothing_is_signed() {
    for listing in [None, Some("uid:::::::::Ann:\n".as_bytes())] {
        let refused = sign_with_gpg(
            listing,
            "r.txt",
            |_: &String| panic!("announced"),
            |_: &Vec<String>| panic!("selected"),
            |_: &Vec<String>| panic!("run"),
            |_: &String| panic!("looked"),
        );
        assert!(refused.is_err());
    }
}

#[test]
fn without_success_no_signature_is_looked_for() {
    for (success, error) in [(None, SignError::GpgNotRun), (Some(false), SignError::GpgFailed)] {
        let refused = sign_with_gpg(
            Some("sec::::AAAA:\nuid:::::::::Ann:\n".as_bytes()),
            "r.txt",
            |notice: &String| {
                assert_eq!(notice, "Using the only available GPG secret key: AAAA - Ann");
            },
            |_: &Vec<String>| panic!("selected"),
            |_: &Vec<String>| success,
            |_: &String| panic!("looked"),
        );
        assert_eq!(refused, Err(error));
    }
}

#[test]
fn a_report_is_signed() {
    let two = Some(LISTING.as_bytes());
    let one = Some("sec:::::\nsec::::AAAA:\nuid:::::::::Ann:\n".as_bytes());
    assert_eq!(sign(two, Some(1), Some(true), true), Ok("CCCC".to_string()));
    assert_eq!(sign(one, None, Some(true), true), Ok("AAAA".to_string()));
    assert_eq!(sign(None, Some(0), Some(true), true), Err(SignError::NoListing));
    assert_eq!(sign(Some(b""), Some(0), Some(true), true), Err(SignError::NoKeys));
    assert_eq!(sign(two, None, Some(true), true), Err(SignError::NoSelection));
    assert_eq!(sign(two, Some(0), None, true), Err(SignError::GpgNotRun));
    assert_eq!(sign(two, Some(0), Some(false), true), Err(SignError::GpgFailed));
    assert_eq!(sign(two, Some(0), Some(true), false), Err(SignError::NotCreated));
}
