//! The directory listing: what of the directory is listed, and the hashes of it.
use crate::artifact;
use crate::artifact::{ArtifactKind, ArtifactModel, ExistingArtifact};
use crate::clock;
use crate::clock::LocalTime;
use crate::digest;
use crate::digest::{HashTexts, Hashes};
use crate::text;
use vstd::prelude::*;

verus! {

// ---------------------------------------------------------------------------
// What is found and what is listed
// ---------------------------------------------------------------------------
/// What a node of the file system is.
#[derive(Debug, Clone)]
pub enum NodeType {
    File,
    Dir,
    /// A symbolic link, and where it leads if that can be read.
    Symlink(Option<String>),
    Other,
}

/// Size and time of the last change.
#[derive(Debug, Clone, Copy)]
pub struct Metadata {
    pub size: u64,
    pub modified: Option<LocalTime>,
}

/// A node that was found below the directory. Its path is relative to the directory;
/// that of the directory itself is empty.
#[derive(Debug)]
pub struct FoundNode {
    pub rel_path: String,
    pub node_type: NodeType,
    /// What is known of the node, or why nothing is.
    pub metadata: Result<Metadata, String>,
}

/// What a listed entry is.
#[derive(Debug, Clone)]
pub enum EntryType {
    File,
    Dir,
    /// A symbolic link, and where it leads.
    Symlink(String),
    Other,
}

/// A line of the listing.
#[derive(Debug, Clone)]
pub struct FileEntry {
    pub rel_path: String,
    pub entry_type: EntryType,
    pub size: u64,
    pub modified: Option<String>,
    pub hashes: Option<Hashes>,
    pub error: Option<String>,
}

/// What a listed entry is.
pub enum EntryTypeModel {
    File,
    Dir,
    Symlink(Seq<char>),
    Other,
}

/// A line of the listing, as texts.
#[verifier::ext_equal]
pub struct FileEntryModel {
    pub rel_path: Seq<char>,
    pub entry_type: EntryTypeModel,
    pub size: u64,
    pub modified: Option<Seq<char>>,
    pub hashes: Option<HashTexts>,
    pub error: Option<Seq<char>>,
}

impl View for EntryType {
    type V = EntryTypeModel;

    open spec fn view(&self) -> EntryTypeModel {
        match self {
            EntryType::File => EntryTypeModel::File,
            EntryType::Dir => EntryTypeModel::Dir,
            EntryType::Symlink(target) => EntryTypeModel::Symlink(target@),
            EntryType::Other => EntryTypeModel::Other,
        }
    }
}

impl View for FileEntry {
    type V = FileEntryModel;

    open spec fn view(&self) -> FileEntryModel {
        FileEntryModel {
            rel_path: self.rel_path@,
            entry_type: self.entry_type@,
            size: self.size,
            modified: digest::optional_text(self.modified),
            hashes: match self.hashes {
                Some(hashes) => Some(hashes@),
                None => None,
            },
            error: digest::optional_text(self.error),
        }
    }
}

/// The lines of a listing.
pub open spec fn entry_models(v: Seq<FileEntry>) -> Seq<FileEntryModel> {
    v.map_values(|e: FileEntry| e@)
}

/// The artifacts.
pub open spec fn artifact_models(v: Seq<ExistingArtifact>) -> Seq<ArtifactModel> {
    v.map_values(|a: ExistingArtifact| a@)
}

/// The path under which a node is listed: the directory itself is `.`.
pub open spec fn shown_path(rel_path: Seq<char>) -> Seq<char> {
    if rel_path.len() == 0 {
        "."@
    } else {
        rel_path
    }
}

/// What becomes of a node.
pub enum Disposition {
    /// It is the report or its signature: it does not appear anywhere.
    Excluded,
    /// It is an integrity artifact, to be verified. A directory never is.
    Artifact(ArtifactKind),
    /// It is listed.
    Listed,
}

/// What becomes of a node of the type `node_type` that is listed as `path`, in a run
/// that writes the report `report_name` and the signature `sig_name`. A directory is
/// listed even if it has the name of an integrity artifact.
pub open spec fn disposition(
    path: Seq<char>,
    node_type: NodeType,
    report_name: Seq<char>,
    sig_name: Seq<char>,
) -> Disposition {
    if path == report_name || path == sig_name {
        Disposition::Excluded
    } else if node_type is Dir {
        Disposition::Listed
    } else {
        match artifact::kind_of_path(path) {
            Some(kind) => Disposition::Artifact(kind),
            None => Disposition::Listed,
        }
    }
}

/// What an entry is that is listed for a node of the type `node_type`: where a link
/// leads is shown as `?` if it cannot be read.
pub open spec fn listed_type(node_type: NodeType) -> EntryTypeModel {
    match node_type {
        NodeType::File => EntryTypeModel::File,
        NodeType::Dir => EntryTypeModel::Dir,
        NodeType::Symlink(Some(target)) => EntryTypeModel::Symlink(target@),
        NodeType::Symlink(None) => EntryTypeModel::Symlink("?"@),
        NodeType::Other => EntryTypeModel::Other,
    }
}

/// The line of the listing for `node`: without metadata it has the size 0, no time,
/// and the reason as its error.
pub open spec fn listed_entry(node: FoundNode) -> FileEntryModel {
    FileEntryModel {
        rel_path: shown_path(node.rel_path@),
        entry_type: listed_type(node.node_type),
        size: match node.metadata {
            Ok(metadata) => metadata.size,
            Err(_) => 0,
        },
        modified: match node.metadata {
            Ok(metadata) => clock::optional_listing(metadata.modified),
            Err(_) => None,
        },
        hashes: None,
        error: match node.metadata {
            Ok(_) => None,
            Err(reason) => Some(reason@),
        },
    }
}

/// The listing of the nodes `found`, in their order. Where nothing could be found
/// (`None`), nothing is listed.
pub open spec fn listing_of(
    found: Seq<Option<FoundNode>>,
    report_name: Seq<char>,
    sig_name: Seq<char>,
) -> Seq<FileEntryModel>
    decreases found.len(),
{
    if found.len() == 0 {
        Seq::empty()
    } else {
        let before = listing_of(found.drop_last(), report_name, sig_name);
        match found.last() {
            Some(node) => match disposition(
                shown_path(node.rel_path@),
                node.node_type,
                report_name,
                sig_name,
            ) {
                Disposition::Listed => before.push(listed_entry(node)),
                _ => before,
            },
            None => before,
        }
    }
}

/// The integrity artifacts among the nodes `found`, in their order.
pub open spec fn artifacts_of(
    found: Seq<Option<FoundNode>>,
    report_name: Seq<char>,
    sig_name: Seq<char>,
) -> Seq<ArtifactModel>
    decreases found.len(),
{
    if found.len() == 0 {
        Seq::empty()
    } else {
        let before = artifacts_of(found.drop_last(), report_name, sig_name);
        match found.last() {
            Some(node) => match disposition(
                shown_path(node.rel_path@),
                node.node_type,
                report_name,
                sig_name,
            ) {
                Disposition::Artifact(kind) => before.push(
                    ArtifactModel { rel_path: shown_path(node.rel_path@), kind },
                ),
                _ => before,
            },
            None => before,
        }
    }
}

/// The path under which `node` is listed.
fn path_of(node: &FoundNode) -> (r: String)
    ensures
        r@ == shown_path(node.rel_path@),
{
    if node.rel_path.as_str().is_empty() {
        ".".to_owned()
    } else {
        node.rel_path.clone()
    }
}

/// The line of the listing for `node`.
pub fn list_node(node: &FoundNode) -> (r: FileEntry)
    ensures
        r@ == listed_entry(*node),
{
    let rel_path = path_of(node);
    let entry_type = match &node.node_type {
        NodeType::File => EntryType::File,
        NodeType::Dir => EntryType::Dir,
        NodeType::Symlink(Some(target)) => EntryType::Symlink(target.clone()),
        NodeType::Symlink(None) => EntryType::Symlink("?".to_owned()),
        NodeType::Other => EntryType::Other,
    };
    let size: u64 = match &node.metadata {
        Ok(m) => m.size,
        Err(_) => 0,
    };
    let modified = match &node.metadata {
        Ok(m) => clock::format_time(m.modified),
        Err(_) => None,
    };
    let error = match &node.metadata {
        Ok(_) => None,
        Err(reason) => Some(reason.clone()),
    };
    FileEntry { rel_path, entry_type, size, modified, hashes: None, error }
}

/// Whether a node of the type `node_type` is a directory.
fn is_directory(node_type: &NodeType) -> (r: bool)
    ensures
        r == (*node_type is Dir),
{
    match node_type {
        NodeType::Dir => true,
        _ => false,
    }
}

/// Sorts out the nodes `found` below the directory, in a run that writes the report
/// `report_name` and the signature `sig_name`: the listing, and the integrity
/// artifacts.
pub fn scan_directory(
    found: &Vec<Option<FoundNode>>,
    report_name: &str,
    sig_name: &str,
) -> (r: (Vec<FileEntry>, Vec<ExistingArtifact>))
    ensures
        entry_models(r.0@) == listing_of(found@, report_name@, sig_name@),
        artifact_models(r.1@) == artifacts_of(found@, report_name@, sig_name@),
{
    let mut entries: Vec<FileEntry> = Vec::new();
    let mut artifacts: Vec<ExistingArtifact> = Vec::new();
    let mut i: usize = 0;
    proof {
        assert(entry_models(entries@) =~= Seq::empty());
        assert(artifact_models(artifacts@) =~= Seq::empty());
    }
    while i < found.len()
        invariant
            i <= found@.len(),
            entry_models(entries@) == listing_of(found@.take(i as int), report_name@, sig_name@),
            artifact_models(artifacts@) == artifacts_of(
                found@.take(i as int),
                report_name@,
                sig_name@,
            ),
        decreases found@.len() - i,
    {
        let ghost listed = entries@;
        let ghost kept = artifacts@;
        proof {
            assert(found@.take(i + 1).drop_last() =~= found@.take(i as int));
            assert(found@.take(i + 1).last() == found@[i as int]);
        }
        if let Some(node) = &found[i] {
            let path = path_of(node);
            if !text::same_text(path.as_str(), report_name) && !text::same_text(
                path.as_str(),
                sig_name,
            ) {
                let detected = if is_directory(&node.node_type) {
                    None
                } else {
                    artifact::detect_artifact(path.as_str())
                };
                match detected {
                    Some(found_artifact) => {
                        artifacts.push(found_artifact);
                        proof {
                            assert(artifact_models(artifacts@) =~= artifact_models(kept).push(
                                found_artifact@,
                            ));
                        }
                    },
                    None => {
                        let entry = list_node(node);
                        entries.push(entry);
                        proof {
                            assert(entry_models(entries@) =~= entry_models(listed).push(entry@));
                        }
                    },
                }
            }
        }
        i = i + 1;
    }
    proof {
        assert(found@.take(found@.len() as int) =~= found@);
    }
    (entries, artifacts)
}

// ---------------------------------------------------------------------------
// Hashes
// ---------------------------------------------------------------------------
/// The entry is a file of which nothing went wrong so far.
pub open spec fn is_hashable(entry: FileEntryModel) -> bool {
    entry.entry_type is File && entry.error is None
}

/// `entry` with the outcome of hashing it: its hashes, or the reason why there are
/// none as its error.
pub open spec fn with_outcome(
    entry: FileEntryModel,
    outcome: Result<Hashes, String>,
) -> FileEntryModel {
    match outcome {
        Ok(hashes) => FileEntryModel { hashes: Some(hashes@), ..entry },
        Err(reason) => FileEntryModel { error: Some(reason@), ..entry },
    }
}

/// Whether the entry is a file of which nothing went wrong so far.
pub fn needs_hash(entry: &FileEntry) -> (r: bool)
    ensures
        r == is_hashable(entry@),
{
    match &entry.entry_type {
        EntryType::File => entry.error.is_none(),
        _ => false,
    }
}

/// Notes the outcome of hashing a file in its entry.
pub fn record_outcome(entry: &mut FileEntry, outcome: Result<Hashes, String>)
    ensures
        final(entry)@ == with_outcome(old(entry)@, outcome),
        *final(entry) == match outcome {
            Ok(hashes) => FileEntry { hashes: Some(hashes), ..*old(entry) },
            Err(reason) => FileEntry { error: Some(reason), ..*old(entry) },
        },
{
    match outcome {
        Ok(hashes) => {
            entry.hashes = Some(hashes);
        },
        Err(reason) => {
            entry.error = Some(reason);
        },
    }
}

/// `after` is what becomes of the entry `before` when the files are hashed by `hash`:
/// only a file of which nothing went wrong is hashed, under its listed path.
pub open spec fn is_hashed<F: Fn(&String) -> Result<Hashes, String>>(
    hash: F,
    before: FileEntry,
    after: FileEntry,
) -> bool {
    if is_hashable(before@) {
        exists|outcome: Result<Hashes, String>|
            {
                &&& #[trigger] call_ensures(hash, (&before.rel_path,), outcome)
                &&& after@ == with_outcome(before@, outcome)
            }
    } else {
        after == before
    }
}

/// Hashes the files of the listing by `hash`, which is given their paths and no other.
/// The order of the listing and all other entries stay.
pub fn hash_entries<F: Fn(&String) -> Result<Hashes, String>>(
    entries: Vec<FileEntry>,
    hash: F,
) -> (r: Vec<FileEntry>)
    requires
        forall|i: int|
            0 <= i < entries@.len() && is_hashable((#[trigger] entries@[i])@) ==> call_requires(
                hash,
                (&entries@[i].rel_path,),
            ),
    ensures
        r@.len() == entries@.len(),
        forall|i: int|
            0 <= i < entries@.len() ==> is_hashed(hash, #[trigger] entries@[i], r@[i]),
        forall|i: int|
            #![trigger entries@[i]]
            0 <= i < entries@.len() ==> if entries@[i].entry_type is File && entries@[i].error is None {
                exists|outcome: Result<Hashes, String>|
                    {
                        &&& #[trigger] call_ensures(hash, (&entries@[i].rel_path,), outcome)
                        &&& match outcome {
                            Ok(hashes) => r@[i] == (FileEntry {
                                hashes: Some(hashes),
                                ..entries@[i]
                            }),
                            Err(reason) => r@[i] == (FileEntry {
                                error: Some(reason),
                                ..entries@[i]
                            }),
                        }
                    }
            } else {
                r@[i] == entries@[i]
            },
{
    let ghost given = entries@;
    let mut entries = entries;
    let mut i: usize = 0;
    while i < entries.len()
        invariant
            i <= entries@.len(),
            entries@.len() == given.len(),
            forall|k: int|
                0 <= k < given.len() && is_hashable((#[trigger] given[k])@) ==> call_requires(
                    hash,
                    (&given[k].rel_path,),
                ),
            forall|k: int| 0 <= k < i ==> is_hashed(hash, #[trigger] given[k], entries@[k]),
            forall|k: int| i <= k < given.len() ==> entries@[k] == #[trigger] given[k],
            forall|k: int|
                #![trigger given[k]]
                0 <= k < i ==> if given[k].entry_type is File && given[k].error is None {
                    exists|outcome: Result<Hashes, String>|
                        {
                            &&& #[trigger] call_ensures(hash, (&given[k].rel_path,), outcome)
                            &&& match outcome {
                                Ok(hashes) => entries@[k] == (FileEntry {
                                    hashes: Some(hashes),
                                    ..given[k]
                                }),
                                Err(reason) => entries@[k] == (FileEntry {
                                    error: Some(reason),
                                    ..given[k]
                                }),
                            }
                        }
                } else {
                    entries@[k] == given[k]
                },
        decreases entries@.len() - i,
    {
        proof {
            assert(entries@[i as int] == given[i as int]);
        }
        if needs_hash(&entries[i]) {
            let outcome = hash(&entries[i].rel_path);
            record_outcome(&mut entries[i], outcome);
        }
        i = i + 1;
    }
    entries
}

/// The number of files among the first `n` entries.
pub open spec fn files_among(entries: Seq<FileEntryModel>, n: nat) -> nat
    decreases n,
{
    if n == 0 {
        0
    } else {
        files_among(entries, (n - 1) as nat) + if entries[n - 1].entry_type is File {
            1nat
        } else {
            0
        }
    }
}

/// The number of files in the listing.
pub fn count_files(entries: &Vec<FileEntry>) -> (r: usize)
    ensures
        r == files_among(entry_models(entries@), entries@.len()),
{
    let ghost models = entry_models(entries@);
    let mut count: usize = 0;
    let mut i: usize = 0;
    while i < entries.len()
        invariant
            i <= entries@.len(),
            models == entry_models(entries@),
            count <= i,
            count == files_among(models, i as nat),
        decreases entries@.len() - i,
    {
        proof {
            assert(models[i as int] == entries@[i as int]@);
        }
        match &entries[i].entry_type {
            EntryType::File => {
                count = count + 1;
            },
            _ => {},
        }
        i = i + 1;
    }
    count
}

// ---------------------------------------------------------------------------
// Laws
// ---------------------------------------------------------------------------
/// The report and its signature are in neither the listing nor the artifacts, and
/// nothing but a directory is listed under the name of an integrity artifact.
pub proof fn law_report_is_not_listed(
    found: Seq<Option<FoundNode>>,
    report_name: Seq<char>,
    sig_name: Seq<char>,
)
    ensures
        forall|i: int|
            #![trigger listing_of(found, report_name, sig_name)[i]]
            0 <= i < listing_of(found, report_name, sig_name).len() ==> {
                let entry = listing_of(found, report_name, sig_name)[i];
                let path = entry.rel_path;
                &&& path != report_name
                &&& path != sig_name
                &&& entry.entry_type is Dir || artifact::kind_of_path(path) is None
            },
        forall|i: int|
            #![trigger artifacts_of(found, report_name, sig_name)[i]]
            0 <= i < artifacts_of(found, report_name, sig_name).len() ==> {
                let a = artifacts_of(found, report_name, sig_name)[i];
                a.rel_path != report_name && a.rel_path != sig_name && artifact::kind_of_path(
                    a.rel_path,
                ) == Some(a.kind)
            },
    decreases found.len(),
{
    if found.len() > 0 {
        law_report_is_not_listed(found.drop_last(), report_name, sig_name);
    }
}

/// What becomes of `node`.
pub open spec fn fate(
    node: FoundNode,
    report_name: Seq<char>,
    sig_name: Seq<char>,
) -> Disposition {
    disposition(shown_path(node.rel_path@), node.node_type, report_name, sig_name)
}

/// Nothing is lost: every node that was found is listed, or is among the artifacts,
/// or is the report or its signature.
pub proof fn law_nothing_is_lost(
    found: Seq<Option<FoundNode>>,
    report_name: Seq<char>,
    sig_name: Seq<char>,
    i: int,
)
    requires
        0 <= i < found.len(),
        found[i] is Some,
    ensures
        match fate(found[i]->0, report_name, sig_name) {
            Disposition::Listed => listing_of(found, report_name, sig_name).contains(
                listed_entry(found[i]->0),
            ),
            Disposition::Artifact(kind) => artifacts_of(found, report_name, sig_name).contains(
                ArtifactModel { rel_path: shown_path(found[i]->0.rel_path@), kind },
            ),
            Disposition::Excluded => {
                let path = shown_path(found[i]->0.rel_path@);
                path == report_name || path == sig_name
            },
        },
    decreases found.len(),
{
    let shorter = found.drop_last();
    let listed = listing_of(found, report_name, sig_name);
    let kept = artifacts_of(found, report_name, sig_name);
    if i == found.len() - 1 {
        match fate(found[i]->0, report_name, sig_name) {
            Disposition::Listed => {
                assert(listed.last() == listed_entry(found[i]->0));
            },
            Disposition::Artifact(kind) => {
                assert(kept.last() == ArtifactModel {
                    rel_path: shown_path(found[i]->0.rel_path@),
                    kind,
                });
            },
            Disposition::Excluded => {},
        }
    } else {
        law_nothing_is_lost(shorter, report_name, sig_name, i);
        let before = listing_of(shorter, report_name, sig_name);
        let kept_before = artifacts_of(shorter, report_name, sig_name);
        assert(shorter[i] == found[i]);
        assert(forall|k: int| 0 <= k < before.len() ==> listed[k] == before[k]);
        assert(forall|k: int| 0 <= k < kept_before.len() ==> kept[k] == kept_before[k]);
        match fate(found[i]->0, report_name, sig_name) {
            Disposition::Listed => {
                let e = listed_entry(found[i]->0);
                let k = choose|k: int| 0 <= k < before.len() && before[k] == e;
                assert(listed[k] == e);
            },
            Disposition::Artifact(kind) => {
                let a = ArtifactModel { rel_path: shown_path(found[i]->0.rel_path@), kind };
                let k = choose|k: int| 0 <= k < kept_before.len() && kept_before[k] == a;
                assert(kept[k] == a);
            },
            Disposition::Excluded => {},
        }
    }
}

/// Every directory that was found is listed, whatever its name, unless it has that of
/// the report or its signature.
pub proof fn law_directories_are_listed(
    found: Seq<Option<FoundNode>>,
    report_name: Seq<char>,
    sig_name: Seq<char>,
    i: int,
)
    requires
        0 <= i < found.len(),
        found[i] is Some,
        (found[i]->0).node_type is Dir,
        shown_path(found[i]->0.rel_path@) != report_name,
        shown_path(found[i]->0.rel_path@) != sig_name,
    ensures
        listing_of(found, report_name, sig_name).contains(listed_entry(found[i]->0)),
{
    law_nothing_is_lost(found, report_name, sig_name, i);
}

/// The number of nodes among `found` that become neither a line of the listing nor an
/// artifact: the report, its signature, and what could not be found.
pub open spec fn left_out(
    found: Seq<Option<FoundNode>>,
    report_name: Seq<char>,
    sig_name: Seq<char>,
) -> nat
    decreases found.len(),
{
    if found.len() == 0 {
        0
    } else {
        left_out(found.drop_last(), report_name, sig_name) + match found.last() {
            Some(node) => match fate(node, report_name, sig_name) {
                Disposition::Excluded => 1nat,
                _ => 0,
            },
            None => 1,
        }
    }
}

/// Nothing appears twice: listing, artifacts and what is left out are together as
/// many as the nodes that were found.
pub proof fn law_nothing_is_doubled(
    found: Seq<Option<FoundNode>>,
    report_name: Seq<char>,
    sig_name: Seq<char>,
)
    ensures
        listing_of(found, report_name, sig_name).len() + artifacts_of(
            found,
            report_name,
            sig_name,
        ).len() + left_out(found, report_name, sig_name) == found.len(),
    decreases found.len(),
{
    if found.len() > 0 {
        law_nothing_is_doubled(found.drop_last(), report_name, sig_name);
    }
}

/// A file that was hashed has either its hashes or an error, and keeps its path, size
/// and time.
pub proof fn law_hashed_file_has_hashes_or_error(
    entry: FileEntryModel,
    outcome: Result<Hashes, String>,
)
    requires
        is_hashable(entry),
        entry.hashes is None,
    ensures
        with_outcome(entry, outcome).hashes is Some <==> outcome is Ok,
        with_outcome(entry, outcome).error is Some <==> outcome is Err,
        with_outcome(entry, outcome).rel_path == entry.rel_path,
        with_outcome(entry, outcome).size == entry.size,
        with_outcome(entry, outcome).modified == entry.modified,
        with_outcome(entry, outcome).entry_type == entry.entry_type,
{
}

/// A node is listed with its own path, type, size and time, whatever its type; one of
/// which nothing is known, with the reason as its error.
pub proof fn law_listed_entry(node: FoundNode)
    ensures
        node.rel_path@.len() > 0 ==> listed_entry(node).rel_path == node.rel_path@,
        node.rel_path@.len() == 0 ==> listed_entry(node).rel_path == "."@,
        listed_entry(node).hashes is None,
        node.metadata matches Ok(m) ==> {
            &&& listed_entry(node).size == m.size
            &&& listed_entry(node).error is None
            &&& m.modified matches Some(t) ==> listed_entry(node).modified == Some(
                t.listing_text(),
            )
            &&& m.modified is None ==> listed_entry(node).modified is None
        },
        node.metadata matches Err(reason) ==> {
            &&& listed_entry(node).size == 0
            &&& listed_entry(node).error == Some(reason@)
            &&& listed_entry(node).modified is None
        },
        node.node_type is File <==> listed_entry(node).entry_type is File,
        node.node_type is Dir <==> listed_entry(node).entry_type is Dir,
        node.node_type is Other <==> listed_entry(node).entry_type is Other,
        node.node_type matches NodeType::Symlink(Some(target)) ==> listed_entry(node).entry_type
            == EntryTypeModel::Symlink(target@),
        node.node_type matches NodeType::Symlink(None) ==> listed_entry(node).entry_type
            == EntryTypeModel::Symlink("?"@),
{
}

/// One more node changes the listing and the artifacts by that node alone, at their
/// ends: the report and its signature change neither, a directory is listed, anything
/// else with the name of an artifact is one, and the rest is listed.
pub proof fn law_one_more_node(
    found: Seq<Option<FoundNode>>,
    node: FoundNode,
    report_name: Seq<char>,
    sig_name: Seq<char>,
)
    ensures
        ({
            let path = if node.rel_path@.len() == 0 {
                "."@
            } else {
                node.rel_path@
            };
            let more = found.push(Some(node));
            let listed = listing_of(found, report_name, sig_name);
            let kept = artifacts_of(found, report_name, sig_name);
            if path == report_name || path == sig_name {
                &&& listing_of(more, report_name, sig_name) == listed
                &&& artifacts_of(more, report_name, sig_name) == kept
            } else if node.node_type is Dir || artifact::kind_of_path(path) is None {
                &&& listing_of(more, report_name, sig_name) == listed.push(listed_entry(node))
                &&& artifacts_of(more, report_name, sig_name) == kept
            } else {
                &&& listing_of(more, report_name, sig_name) == listed
                &&& artifacts_of(more, report_name, sig_name) == kept.push(
                    ArtifactModel { rel_path: path, kind: artifact::kind_of_path(path)->0 },
                )
            }
        }),
        listing_of(found.push(None), report_name, sig_name) == listing_of(
            found,
            report_name,
            sig_name,
        ),
        artifacts_of(found.push(None), report_name, sig_name) == artifacts_of(
            found,
            report_name,
            sig_name,
        ),
        listing_of(Seq::empty(), report_name, sig_name).len() == 0,
        artifacts_of(Seq::empty(), report_name, sig_name).len() == 0,
{
    assert(found.push(Some(node)).drop_last() =~= found);
    assert(found.push(None).drop_last() =~= found);
}

/// The texts of an entry are what its strings hold, and its size is its own.
pub proof fn law_entry_texts(entry: FileEntry)
    ensures
        entry@.rel_path == entry.rel_path@,
        entry@.size == entry.size,
        entry.entry_type is File <==> entry@.entry_type is File,
        entry.entry_type is Dir <==> entry@.entry_type is Dir,
        entry.entry_type is Other <==> entry@.entry_type is Other,
        entry.entry_type matches EntryType::Symlink(target) ==> entry@.entry_type
            == EntryTypeModel::Symlink(target@),
        entry@.modified == (match entry.modified {
            Some(t) => Some(t@),
            None => None,
        }),
        entry@.hashes == (match entry.hashes {
            Some(h) => Some(h@),
            None => None,
        }),
        entry@.error == (match entry.error {
            Some(e) => Some(e@),
            None => None,
        }),
{
}

/// The texts of entries and artifacts are those of each, in order.
pub proof fn law_listing_texts(entries: Seq<FileEntry>, artifacts: Seq<ExistingArtifact>)
    ensures
        entry_models(entries).len() == entries.len(),
        forall|i: int| 0 <= i < entries.len() ==> #[trigger] entry_models(entries)[i] == entries[i]@,
        artifact_models(artifacts).len() == artifacts.len(),
        forall|i: int|
            0 <= i < artifacts.len() ==> #[trigger] artifact_models(artifacts)[i] == artifacts[i]@,
{
}

/// Hashing a file adds its hashes, all of them, or its error, and nothing else.
pub proof fn law_outcome_is_noted(entry: FileEntryModel, hashes: Hashes, reason: String)
    ensures
        with_outcome(entry, Ok(hashes)) == (FileEntryModel { hashes: Some(hashes@), ..entry }),
        with_outcome(entry, Err(reason)) == (FileEntryModel { error: Some(reason@), ..entry }),
        is_hashable(entry) <==> entry.entry_type is File && entry.error is None,
{
}

/// The number of files is that of the entries of this type.
pub proof fn law_files_are_counted(entries: Seq<FileEntryModel>)
    ensures
        files_among(entries, entries.len()) == entries.filter(
            |e: FileEntryModel| e.entry_type is File,
        ).len(),
{
    lemma_files_among(entries, entries.len());
    assert(entries.take(entries.len() as int) =~= entries);
}

proof fn lemma_files_among(entries: Seq<FileEntryModel>, n: nat)
    requires
        n <= entries.len(),
    ensures
        files_among(entries, n) == entries.take(n as int).filter(
            |e: FileEntryModel| e.entry_type is File,
        ).len(),
    decreases n,
{
    reveal(Seq::filter);
    if n > 0 {
        lemma_files_among(entries, (n - 1) as nat);
        assert(entries.take(n as int).drop_last() =~= entries.take(n - 1));
    }
}

} // verus!
