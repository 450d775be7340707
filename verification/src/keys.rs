//! GPG: finding it, its secret keys, and signing the report.
use crate::naming;
use crate::text;
use vstd::prelude::*;

verus! {

// ---------------------------------------------------------------------------
// Finding GPG
// ---------------------------------------------------------------------------
/// `runs` told that `gpg` does not run.
pub open spec fn lacks_gpg<F: Fn(&'static str) -> bool>(runs: F) -> bool {
    exists|first: &'static str|
        first@ == "gpg"@ && #[trigger] call_ensures(runs, (first,), false)
}

/// The command is `gpg` if that runs, else `gpg2` if that runs, else there is none.
/// `runs` tells whether a command runs. It is asked for `gpg` and, only if that does
/// not run, for `gpg2`.
pub fn find_gpg<F: Fn(&'static str) -> bool>(runs: F) -> (r: Option<&'static str>)
    requires
        forall|command: &'static str|
            command@ == "gpg"@ || command@ == "gpg2"@ && lacks_gpg(runs)
                ==> #[trigger] call_requires(runs, (command,)),
    ensures
        match r {
            Some(command) => {
                ||| command@ == "gpg"@ && call_ensures(runs, (command,), true)
                ||| {
                    &&& command@ == "gpg2"@
                    &&& call_ensures(runs, (command,), true)
                    &&& lacks_gpg(runs)
                }
            },
            None => {
                &&& lacks_gpg(runs)
                &&& exists|second: &'static str|
                    second@ == "gpg2"@ && #[trigger] call_ensures(runs, (second,), false)
            },
        },
        r matches Some(command) ==> call_ensures(runs, (command,), true),
        (r is None || r->0@ != "gpg"@) ==> exists|first: &'static str|
            first@ == "gpg"@ && #[trigger] call_ensures(runs, (first,), false),
{
    let first = "gpg";
    if runs(first) {
        return Some(first);
    }
    let second = "gpg2";
    if runs(second) {
        return Some(second);
    }
    None
}

// ---------------------------------------------------------------------------
// Secret keys
// ---------------------------------------------------------------------------
/// A secret key: its identifier and its first user.
#[verifier::ext_equal]
pub struct KeyModel {
    pub key_id: Seq<char>,
    pub user: Seq<char>,
}

/// What has been read of a list of keys: the keys, and the one whose user is awaited.
#[verifier::ext_equal]
pub struct KeyListModel {
    pub keys: Seq<KeyModel>,
    pub current: Option<Seq<char>>,
}

/// What has been read of a list of keys after the line `line`. A line of the kind
/// `sec` starts a key, with its identifier in the fifth field; the first line of the
/// kind `uid` behind it completes the key, with its user in the tenth field.
pub open spec fn key_list_after(list: KeyListModel, line: Seq<char>) -> KeyListModel {
    let fields = text::split(line, ':');
    if "sec:"@.is_prefix_of(line) {
        if fields.len() > 4 && fields[4].len() > 0 {
            KeyListModel { current: Some(fields[4]), ..list }
        } else {
            list
        }
    } else if "uid:"@.is_prefix_of(line) && list.current is Some && fields.len() > 9 {
        KeyListModel {
            keys: list.keys.push(KeyModel { key_id: list.current->0, user: fields[9] }),
            current: None,
        }
    } else {
        list
    }
}

/// What has been read of a list of keys after the lines `lines`.
pub open spec fn key_list_of(lines: Seq<Seq<char>>) -> KeyListModel
    decreases lines.len(),
{
    if lines.len() == 0 {
        KeyListModel { keys: Seq::empty(), current: None }
    } else {
        key_list_after(key_list_of(lines.drop_last()), lines.last())
    }
}

/// The keys in the listing `listing`.
pub open spec fn keys_of(listing: Seq<char>) -> Seq<KeyModel> {
    key_list_of(text::lines(listing)).keys
}

/// The keys as texts.
pub open spec fn key_models(keys: Seq<(String, String)>) -> Seq<KeyModel> {
    keys.map_values(|k: (String, String)| KeyModel { key_id: k.0@, user: k.1@ })
}

/// The keys in the listing `listing`: identifier and user of each.
pub fn parse_secret_keys(listing: &str) -> (r: Vec<(String, String)>)
    ensures
        key_models(r@) == keys_of(listing@),
{
    let all = text::split_lines(listing);
    let ghost lines = text::lines(listing@);
    let mut keys: Vec<(String, String)> = Vec::new();
    let mut current: Option<String> = None;
    let mut i: usize = 0;
    proof {
        assert(key_models(keys@) =~= Seq::empty());
    }
    while i < all.len()
        invariant
            i <= all@.len(),
            text::rows(all@) == lines,
            key_models(keys@) == key_list_of(lines.take(i as int)).keys,
            crate::digest::optional_text(current) == key_list_of(lines.take(i as int)).current,
        decreases all@.len() - i,
    {
        let ghost before = keys@;
        let line = all[i].as_slice();
        proof {
            assert(lines[i as int] == line@);
            assert(lines.take(i + 1).drop_last() =~= lines.take(i as int));
            assert(lines.take(i + 1).last() == lines[i as int]);
        }
        if text::has_prefix(line, "sec:") {
            let fields = text::split_at_char(line, ':');
            let ghost parts = text::split(line@, ':');
            proof {
                assert(text::rows(fields@) == parts);
                assert(fields@.len() == parts.len());
            }
            if fields.len() > 4 && fields[4].len() > 0 {
                proof {
                    assert(parts[4] == fields@[4]@);
                }
                current = Some(text::string_of(fields[4].as_slice()));
            } else {
                proof {
                    if fields@.len() > 4 {
                        assert(parts[4] == fields@[4]@);
                    }
                }
            }
        } else if text::has_prefix(line, "uid:") {
            if let Some(key_id) = &current {
                let fields = text::split_at_char(line, ':');
                let ghost parts = text::split(line@, ':');
                proof {
                    assert(text::rows(fields@) == parts);
                    assert(fields@.len() == parts.len());
                }
                if fields.len() > 9 {
                    let key = (key_id.clone(), text::string_of(fields[9].as_slice()));
                    keys.push(key);
                    proof {
                        assert(parts[9] == fields@[9]@);
                        assert(key_models(keys@) =~= key_models(before).push(
                            KeyModel { key_id: key.0@, user: key.1@ },
                        ));
                    }
                    current = None;
                }
            }
        }
        i = i + 1;
    }
    proof {
        assert(lines.take(lines.len() as int) =~= lines);
    }
    keys
}

/// The keys in GPG's listing of secret keys, as it wrote it.
pub fn list_secret_keys(stdout: &[u8]) -> (r: Vec<(String, String)>)
    ensures
        key_models(r@) == keys_of(text::lossy_text(stdout@)),
{
    let listing = text::from_utf8_lossy(stdout);
    parse_secret_keys(listing.as_str())
}

// ---------------------------------------------------------------------------
// Signing
// ---------------------------------------------------------------------------
/// Why a report was not signed.
#[derive(Debug, Clone, Copy, PartialEq, Eq, Structural)]
pub enum SignError {
    /// GPG did not list its secret keys.
    NoListing,
    /// There is no secret key.
    NoKeys,
    /// The operator selected no key.
    NoSelection,
    /// GPG did not run.
    GpgNotRun,
    /// GPG failed.
    GpgFailed,
    /// GPG wrote no signature.
    NotCreated,
}

impl SignError {
    /// What the error says to the operator.
    pub open spec fn message_text(self) -> Seq<char> {
        match self {
            SignError::NoListing => "Failed to list GPG secret keys"@,
            SignError::NoKeys => "No GPG secret keys found"@,
            SignError::NoSelection => "Failed to select GPG key"@,
            SignError::GpgNotRun => "Failed to run gpg"@,
            SignError::GpgFailed => "gpg returned non-zero exit status"@,
            SignError::NotCreated => "Signature file was not created"@,
        }
    }

    /// What the error says to the operator.
    pub fn message(&self) -> (r: &'static str)
        ensures
            r@ == self.message_text(),
    {
        match self {
            SignError::NoListing => "Failed to list GPG secret keys",
            SignError::NoKeys => "No GPG secret keys found",
            SignError::NoSelection => "Failed to select GPG key",
            SignError::GpgNotRun => "Failed to run gpg",
            SignError::GpgFailed => "gpg returned non-zero exit status",
            SignError::NotCreated => "Signature file was not created",
        }
    }
}

/// How the signing key is found.
#[derive(Debug, Clone)]
pub enum KeyChoice {
    /// There is one key; `notice` tells the operator that it is used.
    Only { key_id: String, notice: String },
    /// The operator selects one of these; the key at the same place in the list of
    /// keys is used.
    Select(Vec<String>),
}

/// A key as it is shown to the operator.
pub open spec fn key_label(key: KeyModel) -> Seq<char> {
    key.key_id + " - "@ + key.user
}

/// The keys as they are shown to the operator.
pub open spec fn key_labels(keys: Seq<KeyModel>) -> Seq<Seq<char>> {
    keys.map_values(|k: KeyModel| key_label(k))
}

/// A key as it is shown to the operator.
fn label(key: &(String, String)) -> (r: String)
    ensures
        r@ == key_label(KeyModel { key_id: key.0@, user: key.1@ }),
{
    let mut out = key.0.clone();
    out.append(" - ");
    out.append(key.1.as_str());
    out
}

/// How the signing key is found among `keys`: without a key there is no signature,
/// the only key is used, and among several the operator selects.
pub fn choose_key(keys: &Vec<(String, String)>) -> (r: Result<KeyChoice, SignError>)
    ensures
        match r {
            Err(e) => keys@.len() == 0 && e == SignError::NoKeys,
            Ok(KeyChoice::Only { key_id, notice }) => {
                &&& keys@.len() == 1
                &&& key_id@ == keys@[0].0@
                &&& notice@ == "Using the only available GPG secret key: "@ + key_label(
                    key_models(keys@)[0],
                )
            },
            Ok(KeyChoice::Select(items)) => {
                &&& keys@.len() > 1
                &&& text::texts(items@) == key_labels(key_models(keys@))
            },
        },
{
    if keys.len() == 0 {
        return Err(SignError::NoKeys);
    }
    if keys.len() == 1 {
        let mut notice = "Using the only available GPG secret key: ".to_owned();
        notice.append(label(&keys[0]).as_str());
        return Ok(KeyChoice::Only { key_id: keys[0].0.clone(), notice });
    }
    let ghost labels = key_labels(key_models(keys@));
    let mut items: Vec<String> = Vec::new();
    let mut i: usize = 0;
    proof {
        assert(text::texts(items@) =~= labels.take(0));
    }
    while i < keys.len()
        invariant
            i <= keys@.len(),
            labels == key_labels(key_models(keys@)),
            text::texts(items@) == labels.take(i as int),
        decreases keys@.len() - i,
    {
        let ghost before = items@;
        let item = label(&keys[i]);
        items.push(item);
        proof {
            assert(text::texts(items@) =~= text::texts(before).push(item@));
            assert(labels.take(i + 1) =~= labels.take(i as int).push(labels[i as int]));
        }
        i = i + 1;
    }
    proof {
        assert(labels.take(labels.len() as int) =~= labels);
    }
    Ok(KeyChoice::Select(items))
}

/// The arguments of the GPG command that signs the report at `report_path` with the
/// key `key_id`, as texts.
pub open spec fn signing_arguments_texts(key_id: Seq<char>, report_path: Seq<char>) -> Seq<
    Seq<char>,
> {
    seq![
        "--detach-sign"@,
        "--armor"@,
        "--local-user"@,
        key_id,
        "--output"@,
        naming::signature_of(report_path),
        report_path,
    ]
}

/// The arguments of the GPG command that signs the report at `report_path` with the
/// key `key_id`: the signature goes to the file that is named after the report.
pub fn signing_arguments(key_id: &str, report_path: &str) -> (r: Vec<String>)
    ensures
        text::texts(r@) == signing_arguments_texts(key_id@, report_path@),
{
    let mut args: Vec<String> = Vec::new();
    args.push("--detach-sign".to_owned());
    args.push("--armor".to_owned());
    args.push("--local-user".to_owned());
    args.push(key_id.to_owned());
    args.push("--output".to_owned());
    args.push(naming::signature_name(report_path));
    args.push(report_path.to_owned());
    proof {
        assert(text::texts(args@) =~= signing_arguments_texts(key_id@, report_path@));
    }
    args
}

/// What came of signing with the key `key_id`: the key, unless GPG did not run,
/// failed, or left no signature behind. `success` tells whether GPG succeeded, if it
/// ran.
pub fn signing_outcome(key_id: String, success: Option<bool>, created: bool) -> (r: Result<
    String,
    SignError,
>)
    ensures
        r == match success {
            None => Err(SignError::GpgNotRun),
            Some(false) => Err(SignError::GpgFailed),
            Some(true) => if created {
                Ok(key_id)
            } else {
                Err(SignError::NotCreated)
            },
        },
{
    match success {
        None => Err(SignError::GpgNotRun),
        Some(false) => Err(SignError::GpgFailed),
        Some(true) => if created {
            Ok(key_id)
        } else {
            Err(SignError::NotCreated)
        },
    }
}

/// `key_id` is the key to sign with: the only one, or the one at the place that
/// `select` gave for the labels of all.
pub open spec fn is_signing_key<S: FnOnce(&Vec<String>) -> Option<usize>>(
    keys: Seq<KeyModel>,
    select: S,
    key_id: Seq<char>,
) -> bool {
    ||| keys.len() == 1 && key_id == keys[0].key_id
    ||| {
        &&& keys.len() > 1
        &&& exists|items: &Vec<String>, place: usize|
            {
                &&& #[trigger] call_ensures(select, (items,), Some(place))
                &&& text::texts(items@) == key_labels(keys)
                &&& place < keys.len()
                &&& key_id == keys[place as int].key_id
            }
    }
}

/// No key was selected: `select` gave no place for the labels of all.
pub open spec fn is_unselected<S: FnOnce(&Vec<String>) -> Option<usize>>(
    keys: Seq<KeyModel>,
    select: S,
) -> bool {
    &&& keys.len() > 1
    &&& exists|items: &Vec<String>|
        {
            &&& #[trigger] call_ensures(select, (items,), None)
            &&& text::texts(items@) == key_labels(keys)
        }
}

/// GPG was run by `run` to sign the report at `report_path` with a key of `keys`, and
/// `success` is what came of it.
pub open spec fn is_run<
    S: FnOnce(&Vec<String>) -> Option<usize>,
    R: FnOnce(&Vec<String>) -> Option<bool>,
>(
    keys: Seq<KeyModel>,
    report_path: Seq<char>,
    select: S,
    run: R,
    key_id: Seq<char>,
    success: Option<bool>,
) -> bool {
    &&& is_signing_key(keys, select, key_id)
    &&& exists|args: &Vec<String>|
        {
            &&& #[trigger] call_ensures(run, (args,), success)
            &&& text::texts(args@) == signing_arguments_texts(key_id, report_path)
        }
}

/// The keys in what GPG wrote as the list of its secret keys, if it ran.
pub open spec fn listed_keys(listing: Option<&[u8]>) -> Seq<KeyModel> {
    match listing {
        Some(bytes) => keys_of(text::lossy_text(bytes@)),
        None => Seq::empty(),
    }
}

/// `notice` tells the operator that the only one of `keys` is used.
pub open spec fn is_notice(keys: Seq<KeyModel>, notice: Seq<char>) -> bool {
    keys.len() == 1 && notice == "Using the only available GPG secret key: "@ + key_label(keys[0])
}

/// GPG may be run with the arguments `args`: they sign the report at `report_path`
/// with the key to sign with.
pub open spec fn may_sign<S: FnOnce(&Vec<String>) -> Option<usize>>(
    keys: Seq<KeyModel>,
    report_path: Seq<char>,
    select: S,
    args: Seq<Seq<char>>,
) -> bool {
    exists|id: Seq<char>| #[trigger]
        is_signing_key(keys, select, id) && args == signing_arguments_texts(id, report_path)
}

/// GPG was run to sign the report at `report_path` and succeeded.
pub open spec fn is_signed<
    S: FnOnce(&Vec<String>) -> Option<usize>,
    R: FnOnce(&Vec<String>) -> Option<bool>,
>(keys: Seq<KeyModel>, report_path: Seq<char>, select: S, run: R) -> bool {
    exists|id: Seq<char>| #[trigger] is_run(keys, report_path, select, run, id, Some(true))
}

/// Signs the report at `report_path` and returns the identifier of the key. `listing`
/// is what GPG wrote as the list of its secret keys, if it ran; `announce` tells the
/// operator that the only key is used, `select` lets the operator select one of
/// several, `run` runs GPG with the arguments it is given and tells whether it
/// succeeded, and `is_there` tells whether a file exists. Each is called at most once:
/// `announce` for the only key, `select` for the labels of several, `run` to sign the
/// report with the key so found, and `is_there` for the signature once GPG succeeded.
pub fn sign_with_gpg<
    A: FnOnce(&String),
    S: FnOnce(&Vec<String>) -> Option<usize>,
    R: FnOnce(&Vec<String>) -> Option<bool>,
    E: FnOnce(&String) -> bool,
>(
    listing: Option<&[u8]>,
    report_path: &str,
    announce: A,
    select: S,
    run: R,
    is_there: E,
) -> (r: Result<String, SignError>)
    requires
        forall|notice: &String|
            is_notice(listed_keys(listing), notice@) ==> #[trigger] call_requires(
                announce,
                (notice,),
            ),
        forall|items: &Vec<String>|
            listed_keys(listing).len() > 1 && text::texts(items@) == key_labels(
                listed_keys(listing),
            ) ==> #[trigger] call_requires(select, (items,)),
        forall|items: &Vec<String>, place: usize| #[trigger]
            call_ensures(select, (items,), Some(place)) ==> place < items@.len(),
        forall|args: &Vec<String>|
            may_sign(listed_keys(listing), report_path@, select, text::texts(args@))
                ==> #[trigger] call_requires(run, (args,)),
        forall|path: &String|
            is_signed(listed_keys(listing), report_path@, select, run) && path@
                == naming::signature_of(report_path@) ==> #[trigger] call_requires(
                is_there,
                (path,),
            ),
    ensures
        match listing {
            None => r == Err::<String, SignError>(SignError::NoListing),
            Some(bytes) => {
                let keys = keys_of(text::lossy_text(bytes@));
                &&& keys.len() == 0 <==> r == Err::<String, SignError>(SignError::NoKeys)
                &&& keys.len() == 1 ==> exists|notice: &String|
                    #[trigger] call_ensures(announce, (notice,), ()) && is_notice(keys, notice@)
                &&& keys.len() == 1 ==> exists|notice: &String|
                    {
                        &&& #[trigger] call_ensures(announce, (notice,), ())
                        &&& notice@ == "Using the only available GPG secret key: "@
                            + keys[0].key_id + " - "@ + keys[0].user
                    }
                &&& r == Err::<String, SignError>(SignError::NoSelection) ==> keys.len() > 1
                    && exists|items: &Vec<String>| #[trigger]
                    call_ensures(select, (items,), None) && text::texts(items@) == key_labels(keys)
                &&& r == Err::<String, SignError>(SignError::GpgNotRun) ==> exists|
                    args: &Vec<String>,
                | #[trigger]
                    call_ensures(run, (args,), None)
                &&& r == Err::<String, SignError>(SignError::GpgFailed) ==> exists|
                    args: &Vec<String>,
                | #[trigger]
                    call_ensures(run, (args,), Some(false))
                &&& r == Err::<String, SignError>(SignError::NotCreated) ==> exists|
                    path: &String,
                | #[trigger]
                    call_ensures(is_there, (path,), false) && path@ == report_path@ + ".asc"@
                &&& match r {
                    Err(SignError::NoListing) => false,
                    Err(SignError::NoKeys) => keys.len() == 0,
                    Err(SignError::NoSelection) => is_unselected(keys, select),
                    Err(SignError::GpgNotRun) => exists|id: Seq<char>| #[trigger]
                        is_run(keys, report_path@, select, run, id, None),
                    Err(SignError::GpgFailed) => exists|id: Seq<char>| #[trigger]
                        is_run(keys, report_path@, select, run, id, Some(false)),
                    Err(SignError::NotCreated) => {
                        &&& is_signed(keys, report_path@, select, run)
                        &&& exists|path: &String| #[trigger]
                            call_ensures(is_there, (path,), false) && path@
                                == naming::signature_of(report_path@)
                    },
                    Ok(key_id) => {
                        &&& is_run(keys, report_path@, select, run, key_id@, Some(true))
                        &&& keys.len() == 1 ==> key_id@ == keys[0].key_id
                        &&& keys.len() > 1 ==> exists|items: &Vec<String>, place: usize|
                            {
                                &&& #[trigger] call_ensures(select, (items,), Some(place))
                                &&& place < keys.len()
                                &&& key_id@ == keys[place as int].key_id
                                &&& text::texts(items@) == key_labels(keys)
                            }
                        &&& exists|args: &Vec<String>| #[trigger]
                            call_ensures(run, (args,), Some(true)) && text::texts(args@) == seq![
                                "--detach-sign"@,
                                "--armor"@,
                                "--local-user"@,
                                key_id@,
                                "--output"@,
                                report_path@ + ".asc"@,
                                report_path@,
                            ]
                        &&& exists|path: &String| #[trigger]
                            call_ensures(is_there, (path,), true) && path@
                                == naming::signature_of(report_path@)
                    },
                }
            },
        },
{
    let stdout = match listing {
        Some(bytes) => bytes,
        None => {
            return Err(SignError::NoListing);
        },
    };
    let keys = list_secret_keys(stdout);
    let ghost models = listed_keys(listing);
    proof {
        assert(models.len() == keys@.len());
    }
    let key_id = match choose_key(&keys) {
        Err(e) => {
            return Err(e);
        },
        Ok(KeyChoice::Only { key_id, notice }) => {
            proof {
                assert(notice@ =~= "Using the only available GPG secret key: "@ + models[0].key_id
                    + " - "@ + models[0].user);
            }
            announce(&notice);
            key_id
        },
        Ok(KeyChoice::Select(items)) => {
            proof {
                assert(text::texts(items@).len() == key_labels(models).len());
            }
            match select(&items) {
                Some(place) => keys[place].0.clone(),
                None => {
                    return Err(SignError::NoSelection);
                },
            }
        },
    };
    let sig_path = naming::signature_name(report_path);
    let args = signing_arguments(key_id.as_str(), report_path);
    proof {
        assert(is_signing_key(models, select, key_id@));
        assert(may_sign(models, report_path@, select, text::texts(args@)));
    }
    let success = run(&args);
    proof {
        assert(is_run(models, report_path@, select, run, key_id@, success));
    }
    match success {
        Some(true) => {
            let created = is_there(&sig_path);
            signing_outcome(key_id, success, created)
        },
        _ => signing_outcome(key_id, success, false),
    }
}

// ---------------------------------------------------------------------------
// Laws
// ---------------------------------------------------------------------------
/// The number of lines of the kind `sec`.
pub open spec fn sec_lines(lines: Seq<Seq<char>>) -> nat
    decreases lines.len(),
{
    if lines.len() == 0 {
        0
    } else {
        sec_lines(lines.drop_last()) + if "sec:"@.is_prefix_of(lines.last()) {
            1nat
        } else {
            0
        }
    }
}

/// A key is listed at most once, however many users it has: there are no more keys
/// than lines that start one.
pub proof fn law_one_key_per_sec_line(lines: Seq<Seq<char>>)
    ensures
        key_list_of(lines).keys.len() + (if key_list_of(lines).current is Some {
            1nat
        } else {
            0
        }) <= sec_lines(lines),
    decreases lines.len(),
{
    if lines.len() > 0 {
        law_one_key_per_sec_line(lines.drop_last());
    }
}

/// No listed key has an empty identifier.
pub proof fn law_keys_have_identifiers(lines: Seq<Seq<char>>)
    ensures
        forall|i: int|
            0 <= i < key_list_of(lines).keys.len() ==> (#[trigger] key_list_of(
                lines,
            ).keys[i]).key_id.len() > 0,
        key_list_of(lines).current matches Some(id) ==> id.len() > 0,
    decreases lines.len(),
{
    if lines.len() > 0 {
        law_keys_have_identifiers(lines.drop_last());
    }
}

/// The line neither starts a key nor names a user.
pub open spec fn is_other_line(line: Seq<char>) -> bool {
    !"sec:"@.is_prefix_of(line) && !"uid:"@.is_prefix_of(line)
}

proof fn lemma_other_lines(lines: Seq<Seq<char>>, others: Seq<Seq<char>>)
    requires
        forall|i: int| 0 <= i < others.len() ==> is_other_line(#[trigger] others[i]),
    ensures
        key_list_of(lines + others) == key_list_of(lines),
    decreases others.len(),
{
    if others.len() == 0 {
        assert(lines + others =~= lines);
    } else {
        let all = lines + others;
        let fewer = others.drop_last();
        assert(forall|i: int| 0 <= i < fewer.len() ==> fewer[i] == #[trigger] others[i]);
        lemma_other_lines(lines, fewer);
        assert(all.drop_last() =~= lines + fewer);
        assert(all.last() == others[others.len() - 1]);
    }
}

/// A line that starts a key, with a line that names a user somewhere behind it and no
/// other such lines between, is listed as one more key, behind those before it.
pub proof fn law_key_is_listed(
    lines: Seq<Seq<char>>,
    sec: Seq<char>,
    between: Seq<Seq<char>>,
    uid: Seq<char>,
)
    requires
        "sec:"@.is_prefix_of(sec),
        text::split(sec, ':').len() > 4,
        text::split(sec, ':')[4].len() > 0,
        forall|i: int| 0 <= i < between.len() ==> is_other_line(#[trigger] between[i]),
        "uid:"@.is_prefix_of(uid),
        text::split(uid, ':').len() > 9,
    ensures
        key_list_of((lines.push(sec) + between).push(uid)).keys == key_list_of(lines).keys.push(
            KeyModel { key_id: text::split(sec, ':')[4], user: text::split(uid, ':')[9] },
        ),
        key_list_of((lines.push(sec) + between).push(uid)).current is None,
{
    let started = lines.push(sec);
    let all = (started + between).push(uid);
    assert(started.drop_last() =~= lines);
    assert(started.last() == sec);
    lemma_other_lines(started, between);
    assert(all.drop_last() =~= started + between);
    assert(all.last() == uid);
    reveal_strlit("sec:");
    reveal_strlit("uid:");
    assert(uid[0] == "uid:"@[0]);
    assert(!"sec:"@.is_prefix_of(uid)) by {
        if "sec:"@.is_prefix_of(uid) {
            assert(uid[0] == "sec:"@[0]);
        }
    }
}

/// Of a key that has its user, further users are not listed.
pub proof fn law_further_users_are_not_listed(lines: Seq<Seq<char>>, uid: Seq<char>)
    requires
        key_list_of(lines).current is None,
        !"sec:"@.is_prefix_of(uid),
    ensures
        key_list_of(lines.push(uid)) == key_list_of(lines),
{
    assert(lines.push(uid).drop_last() =~= lines);
}

/// The keys as texts are what the strings hold, whole and in order.
pub proof fn law_key_texts(keys: Seq<(String, String)>)
    ensures
        key_models(keys).len() == keys.len(),
        forall|i: int|
            0 <= i < keys.len() ==> #[trigger] key_models(keys)[i] == (KeyModel {
                key_id: keys[i].0@,
                user: keys[i].1@,
            }),
{
}

/// `line` is a line of the kind `sec`, with the identifier `key_id` as its whole fifth
/// field.
pub open spec fn starts_key(line: Seq<char>, key_id: Seq<char>) -> bool {
    &&& "sec:"@.is_prefix_of(line)
    &&& text::split(line, ':').len() > 4
    &&& text::split(line, ':')[4] == key_id
}

/// `line` is a line of the kind `uid`, with the user `user` as its whole tenth field.
pub open spec fn names_user(line: Seq<char>, user: Seq<char>) -> bool {
    &&& "uid:"@.is_prefix_of(line)
    &&& text::split(line, ':').len() > 9
    &&& text::split(line, ':')[9] == user
}

/// Two of the lines make the key: its identifier is the whole fifth field of a `sec`
/// line, its user is the whole tenth field of a `uid` line behind it.
pub open spec fn comes_from(key: KeyModel, lines: Seq<Seq<char>>) -> bool {
    exists|a: int, b: int|
        {
            &&& 0 <= a < b < lines.len()
            &&& #[trigger] starts_key(lines[a], key.key_id)
            &&& #[trigger] names_user(lines[b], key.user)
        }
}

/// Every key of a listing comes from its lines, and none has an empty identifier.
pub proof fn law_keys_come_from_the_listing(listing: Seq<char>, i: int)
    requires
        0 <= i < keys_of(listing).len(),
    ensures
        keys_of(listing)[i].key_id.len() > 0,
        comes_from(keys_of(listing)[i], text::lines(listing)),
{
    law_keys_have_identifiers(text::lines(listing));
    lemma_origin(text::lines(listing), i);
}

proof fn lemma_origin(lines: Seq<Seq<char>>, i: int)
    ensures
        0 <= i < key_list_of(lines).keys.len() ==> comes_from(key_list_of(lines).keys[i], lines),
        key_list_of(lines).current matches Some(id) ==> exists|a: int|
            0 <= a < lines.len() && #[trigger] starts_key(lines[a], id),
    decreases lines.len(),
{
    if lines.len() > 0 {
        let fewer = lines.drop_last();
        let last = lines.len() - 1;
        let before = key_list_of(fewer);
        let list = key_list_of(lines);
        lemma_origin(fewer, i);
        assert(forall|k: int| 0 <= k < fewer.len() ==> fewer[k] == lines[k]);
        if 0 <= i < list.keys.len() {
            let key = list.keys[i];
            if i < before.keys.len() {
                assert(key == before.keys[i]);
                let (a, b) = choose|a: int, b: int|
                    {
                        &&& 0 <= a < b < fewer.len()
                        &&& #[trigger] starts_key(fewer[a], key.key_id)
                        &&& #[trigger] names_user(fewer[b], key.user)
                    };
                assert(starts_key(lines[a], key.key_id));
                assert(names_user(lines[b], key.user));
            } else {
                let a = choose|a: int|
                    0 <= a < fewer.len() && #[trigger] starts_key(fewer[a], before.current->0);
                assert(starts_key(lines[a], key.key_id));
                assert(names_user(lines[last], key.user));
            }
        }
        if let Some(id) = list.current {
            if before.current == Some(id) {
                let a = choose|a: int| 0 <= a < fewer.len() && #[trigger] starts_key(fewer[a], id);
                assert(starts_key(lines[a], id));
            } else {
                assert(starts_key(lines[last], id));
            }
        }
    }
}

/// A listing with one more key, its `sec` line, other lines and its `uid` line at the
/// end, gives the keys of the listing before and that key, whole.
pub proof fn law_listing_gives_the_key(
    lines: Seq<Seq<char>>,
    sec: Seq<char>,
    between: Seq<Seq<char>>,
    uid: Seq<char>,
    key_id: Seq<char>,
    user: Seq<char>,
)
    requires
        forall|i: int| 0 <= i < lines.len() ==> text::is_line(#[trigger] lines[i]),
        forall|i: int| 0 <= i < between.len() ==> text::is_line(#[trigger] between[i]),
        text::is_line(sec),
        text::is_line(uid),
        starts_key(sec, key_id),
        key_id.len() > 0,
        forall|i: int| 0 <= i < between.len() ==> is_other_line(#[trigger] between[i]),
        names_user(uid, user),
    ensures
        keys_of(text::terminate((lines.push(sec) + between).push(uid))) == keys_of(
            text::terminate(lines),
        ).push(KeyModel { key_id, user }),
        lines.len() == 0 ==> keys_of(text::terminate((lines.push(sec) + between).push(uid)))
            == seq![KeyModel { key_id, user }],
{
    let all = (lines.push(sec) + between).push(uid);
    assert forall|i: int| 0 <= i < all.len() implies text::is_line(#[trigger] all[i]) by {
        if i < lines.len() {
            assert(all[i] == lines[i]);
        } else if lines.len() < i < all.len() - 1 {
            assert(all[i] == between[i - lines.len() - 1]);
        }
    }
    text::law_terminated_lines_read_back(all);
    text::law_terminated_lines_read_back(lines);
    law_key_is_listed(lines, sec, between, uid);
    if lines.len() == 0 {
        assert(key_list_of(lines).keys =~= Seq::empty());
        assert(Seq::<KeyModel>::empty().push(KeyModel { key_id, user }) =~= seq![
            KeyModel { key_id, user },
        ]);
    }
}

/// A key is shown by its identifier and its user, both whole.
pub proof fn law_key_labels(keys: Seq<KeyModel>)
    ensures
        key_labels(keys).len() == keys.len(),
        forall|i: int|
            0 <= i < keys.len() ==> #[trigger] key_labels(keys)[i] == keys[i].key_id + " - "@
                + keys[i].user,
        keys.len() == 1 ==> is_notice(
            keys,
            "Using the only available GPG secret key: "@ + keys[0].key_id + " - "@ + keys[0].user,
        ),
{
    if keys.len() == 1 {
        assert("Using the only available GPG secret key: "@ + keys[0].key_id + " - "@
            + keys[0].user =~= "Using the only available GPG secret key: "@ + key_label(keys[0]));
    }
}

/// GPG signs the report with the whole identifier of the key, into the file named after
/// the report.
pub proof fn law_signing_arguments(key_id: Seq<char>, report_path: Seq<char>)
    ensures
        signing_arguments_texts(key_id, report_path) == seq![
            "--detach-sign"@,
            "--armor"@,
            "--local-user"@,
            key_id,
            "--output"@,
            report_path + ".asc"@,
            report_path,
        ],
{
}

/// The keys to sign with are those that GPG listed.
pub proof fn law_listed_keys(bytes: &[u8])
    ensures
        listed_keys(Some(bytes)) == keys_of(text::lossy_text(bytes@)),
        listed_keys(None).len() == 0,
{
}

/// A listing gives the keys that its lines make, all of them and in their order; a line
/// makes none if it neither starts a key nor names a user, starts a key without an
/// identifier, or names no user in its tenth field.
pub proof fn law_lines_that_make_no_key(listing: Seq<char>, lines: Seq<Seq<char>>, line: Seq<char>)
    ensures
        keys_of(listing) == key_list_of(text::lines(listing)).keys,
        key_list_of(Seq::empty()).keys.len() == 0,
        is_other_line(line) ==> key_list_of(lines.push(line)) == key_list_of(lines),
        "sec:"@.is_prefix_of(line) && (text::split(line, ':').len() <= 4 || text::split(
            line,
            ':',
        )[4].len() == 0) ==> key_list_of(lines.push(line)) == key_list_of(lines),
        "sec:"@.is_prefix_of(line) ==> key_list_of(lines.push(line)).keys == key_list_of(
            lines,
        ).keys,
        !"sec:"@.is_prefix_of(line) && text::split(line, ':').len() <= 9 ==> key_list_of(
            lines.push(line),
        ) == key_list_of(lines),
{
    assert(lines.push(line).drop_last() =~= lines);
}

} // verus!
