//! The text of the report.
use crate::clock::LocalTime;
use crate::config::HashConfig;
use crate::digest;
use crate::digest::{HashTexts, Hashes};
use crate::host::{HostInfo, HostModel};
use crate::interview::{CaseInfo, CaseModel};
use crate::scan;
use crate::scan::{EntryType, EntryTypeModel, FileEntry, FileEntryModel};
use crate::text;
use crate::verification;
use crate::verification::{VerificationModel, VerificationResult, VerificationStatus};
use vstd::prelude::*;

verus! {

/// All that a report tells.
#[verifier::ext_equal]
pub struct ReportModel {
    pub version: Seq<char>,
    pub generated_local: Seq<char>,
    pub generated_utc: Seq<char>,
    pub case: CaseModel,
    pub host: HostModel,
    pub entries: Seq<FileEntryModel>,
    pub cfg: HashConfig,
    pub results: Seq<VerificationModel>,
}

// ---------------------------------------------------------------------------
// The lines of the report
// ---------------------------------------------------------------------------
/// The rule above and below the title and the footer.
pub open spec fn double_rule() -> Seq<char> {
    "================================================================================"@
}

/// The rule below the title of a section.
pub open spec fn single_rule() -> Seq<char> {
    "--------------------------------------------------------------------------------"@
}

/// The one line `line` if it is `wanted`, else no line.
pub open spec fn line_if(wanted: bool, line: Seq<char>) -> Seq<Seq<char>> {
    if wanted {
        seq![line]
    } else {
        Seq::empty()
    }
}

/// The lines `lines`, each with `margin` before it.
pub open spec fn indented(margin: Seq<char>, lines: Seq<Seq<char>>) -> Seq<Seq<char>> {
    lines.map_values(|line: Seq<char>| margin + line)
}

/// The title, and when, by what and where the report was made.
pub open spec fn title_lines(r: ReportModel) -> Seq<Seq<char>> {
    seq![
        double_rule(),
        " DATA COLLECTION REPORT"@,
        double_rule(),
        ""@,
        "Generated (local): "@ + r.generated_local,
        "Generated (UTC):   "@ + r.generated_utc,
        "Tool:              fordocu v"@ + r.version,
        "Working directory: "@ + r.host.cwd,
        ""@,
    ]
}

/// What the operator said of the case; what is optional is left out if it is empty.
pub open spec fn case_lines(case: CaseModel) -> Seq<Seq<char>> {
    let always = seq![
        "CASE INFORMATION"@,
        single_rule(),
        "Case reference:             "@ + case.reference,
        "Data collection source:     "@ + case.source,
        "Reason for data collection: "@ + case.reason,
    ];
    let operator = line_if(
        case.operator.len() > 0,
        "Operator / collector:       "@ + case.operator,
    );
    let notes = if case.notes.len() > 0 {
        seq!["Notes:"@] + indented("  "@, text::lines(case.notes))
    } else {
        Seq::empty()
    };
    always + operator + notes + seq![""@]
}

/// The machine and its user; the user's real name is left out if it is empty or says
/// no more than the user name.
pub open spec fn host_lines(host: HostModel) -> Seq<Seq<char>> {
    let names = seq![
        "HOST INFORMATION"@,
        single_rule(),
        "Hostname: "@ + host.hostname,
        "Username: "@ + host.username,
    ];
    let realname = line_if(
        host.realname.len() > 0 && host.realname != host.username,
        "Realname: "@ + host.realname,
    );
    let system = seq!["OS:       "@ + host.os, "Kernel:   "@ + host.kernel, ""@];
    names + realname + system
}

/// The line for what was found out about an integrity artifact.
pub open spec fn result_line(result: VerificationModel) -> Seq<char> {
    "["@ + result.status.word() + "] "@ + result.artifact_path + " ("@ + result.kind + "): "@
        + result.summary
}

/// The lines for what was found out about an integrity artifact.
pub open spec fn result_lines(result: VerificationModel) -> Seq<Seq<char>> {
    seq![result_line(result)] + indented("         "@, result.details)
}

/// The lines for the results, in their order.
pub open spec fn results_lines(results: Seq<VerificationModel>) -> Seq<Seq<char>>
    decreases results.len(),
{
    if results.len() == 0 {
        Seq::empty()
    } else {
        results_lines(results.drop_last()) + result_lines(results.last())
    }
}

/// The section on integrity artifacts; there is none without artifacts.
pub open spec fn artifact_lines(results: Seq<VerificationModel>) -> Seq<Seq<char>> {
    if results.len() == 0 {
        Seq::empty()
    } else {
        seq!["EXISTING INTEGRITY ARTIFACTS"@, single_rule()] + results_lines(results) + seq![""@]
    }
}

/// The text `text` if it is `wanted`, else nothing.
pub open spec fn text_if(wanted: bool, text: Seq<char>) -> Seq<char> {
    if wanted {
        text
    } else {
        Seq::empty()
    }
}

/// The names of the columns.
pub open spec fn column_line(cfg: HashConfig) -> Seq<char> {
    "Type     Size          Modified              Path"@ + text_if(cfg.md5, "  MD5"@) + text_if(
        cfg.sha256,
        "  SHA-256"@,
    ) + text_if(cfg.sha512, "  SHA-512"@)
}

/// The head of the listing.
pub open spec fn listing_head(r: ReportModel) -> Seq<Seq<char>> {
    seq![
        "DIRECTORY LISTING"@,
        single_rule(),
        "Total entries: "@ + text::decimal(r.entries.len()),
        "Files listed:  "@ + text::decimal(scan::files_among(r.entries, r.entries.len())),
        ""@,
        column_line(r.cfg),
        single_rule(),
    ]
}

/// The name of the type of an entry.
pub open spec fn type_word(entry_type: EntryTypeModel) -> Seq<char> {
    match entry_type {
        EntryTypeModel::File => "file"@,
        EntryTypeModel::Dir => "dir "@,
        EntryTypeModel::Symlink(_) => "link"@,
        EntryTypeModel::Other => "other"@,
    }
}

/// The size of an entry; directories and links show none.
pub open spec fn size_text(entry: FileEntryModel) -> Seq<char> {
    match entry.entry_type {
        EntryTypeModel::Dir | EntryTypeModel::Symlink(_) => "-"@,
        _ => text::decimal(entry.size as nat),
    }
}

/// The time of an entry's last change, if it is known.
pub open spec fn modified_text(entry: FileEntryModel) -> Seq<char> {
    match entry.modified {
        Some(time) => time,
        None => "-"@,
    }
}

/// The columns of an entry.
pub open spec fn entry_line(entry: FileEntryModel) -> Seq<char> {
    text::pad_right(type_word(entry.entry_type), 8) + " "@ + text::pad_right(
        size_text(entry),
        13,
    ) + " "@ + text::pad_right(modified_text(entry), 23) + " "@ + entry.rel_path
}

/// Where a link leads; other entries have no such line.
pub open spec fn target_lines(entry_type: EntryTypeModel) -> Seq<Seq<char>> {
    match entry_type {
        EntryTypeModel::Symlink(target) => seq!["         -> "@ + target],
        _ => Seq::empty(),
    }
}

/// The line for a hash, if there is one and it is `wanted`.
pub open spec fn hash_line(wanted: bool, label: Seq<char>, hash: Option<Seq<char>>) -> Seq<
    Seq<char>,
> {
    match hash {
        Some(h) => line_if(wanted, label + h),
        None => Seq::empty(),
    }
}

/// The lines for the hashes of a file.
pub open spec fn hash_lines(hashes: HashTexts, cfg: HashConfig) -> Seq<Seq<char>> {
    hash_line(cfg.md5, "         MD5:    "@, hashes.md5) + hash_line(
        cfg.sha256,
        "         SHA-256: "@,
        hashes.sha256,
    ) + hash_line(cfg.sha512, "         SHA-512: "@, hashes.sha512)
}

/// What went wrong with an entry or, if nothing did, its hashes.
pub open spec fn outcome_lines(entry: FileEntryModel, cfg: HashConfig) -> Seq<Seq<char>> {
    match (entry.error, entry.hashes) {
        (Some(reason), _) => seq!["         ERROR: "@ + reason],
        (None, Some(hashes)) => hash_lines(hashes, cfg),
        (None, None) => Seq::empty(),
    }
}

/// The lines for an entry.
pub open spec fn entry_lines(entry: FileEntryModel, cfg: HashConfig) -> Seq<Seq<char>> {
    seq![entry_line(entry)] + target_lines(entry.entry_type) + outcome_lines(entry, cfg)
}

/// The lines for the entries, in their order.
pub open spec fn listing_lines(entries: Seq<FileEntryModel>, cfg: HashConfig) -> Seq<Seq<char>>
    decreases entries.len(),
{
    if entries.len() == 0 {
        Seq::empty()
    } else {
        listing_lines(entries.drop_last(), cfg) + entry_lines(entries.last(), cfg)
    }
}

/// The line for an entry with which something went wrong, if something did.
pub open spec fn error_line(entry: FileEntryModel) -> Seq<Seq<char>> {
    match entry.error {
        Some(reason) => seq!["  "@ + entry.rel_path + ": "@ + reason],
        None => Seq::empty(),
    }
}

/// The lines for the entries with which something went wrong, in their order.
pub open spec fn failures(entries: Seq<FileEntryModel>) -> Seq<Seq<char>>
    decreases entries.len(),
{
    if entries.len() == 0 {
        Seq::empty()
    } else {
        failures(entries.drop_last()) + error_line(entries.last())
    }
}

/// The section on what went wrong; there is none if nothing did.
pub open spec fn error_lines(entries: Seq<FileEntryModel>) -> Seq<Seq<char>> {
    if failures(entries).len() == 0 {
        Seq::empty()
    } else {
        seq![""@, "ERRORS"@, single_rule()] + failures(entries)
    }
}

/// The line that tells what made the report.
pub open spec fn footer_line(version: Seq<char>) -> Seq<char> {
    "Documented via fordocu v"@ + version + " — https://github.com/overcuriousity/fordocu"@
}

/// The footer.
pub open spec fn footer_lines(version: Seq<char>) -> Seq<Seq<char>> {
    seq![""@, double_rule(), footer_line(version), double_rule()]
}

/// The lines of the report.
pub open spec fn report_lines(r: ReportModel) -> Seq<Seq<char>> {
    title_lines(r) + case_lines(r.case) + host_lines(r.host) + artifact_lines(r.results)
        + listing_head(r) + listing_lines(r.entries, r.cfg) + error_lines(r.entries)
        + footer_lines(r.version)
}

/// The text of the report.
pub open spec fn report_text(r: ReportModel) -> Seq<char> {
    text::terminate(report_lines(r))
}

// ---------------------------------------------------------------------------
// Writing
// ---------------------------------------------------------------------------
/// `lines` have grown by the lines `more`.
pub open spec fn grown(before: Seq<String>, after: Seq<String>, more: Seq<Seq<char>>) -> bool {
    text::texts(after) == text::texts(before) + more
}

/// Adds a line.
fn push_line(lines: &mut Vec<String>, line: &str)
    ensures
        grown(old(lines)@, final(lines)@, seq![line@]),
{
    lines.push(line.to_owned());
    proof {
        assert(text::texts(lines@) =~= text::texts(old(lines)@) + seq![line@]);
    }
}

/// Adds a line made of a label and a value.
fn push_field(lines: &mut Vec<String>, label: &str, value: &str)
    ensures
        grown(old(lines)@, final(lines)@, seq![label@ + value@]),
{
    let mut line = label.to_owned();
    line.append(value);
    push_line(lines, line.as_str());
}

/// Adds the rule above and below the title and the footer.
fn push_double_rule(lines: &mut Vec<String>)
    ensures
        grown(old(lines)@, final(lines)@, seq![double_rule()]),
{
    push_line(
        lines,
        "================================================================================",
    );
}

/// Adds the rule below the title of a section.
fn push_single_rule(lines: &mut Vec<String>)
    ensures
        grown(old(lines)@, final(lines)@, seq![single_rule()]),
{
    push_line(
        lines,
        "--------------------------------------------------------------------------------",
    );
}

/// Writes the title.
fn push_title(
    lines: &mut Vec<String>,
    local: &LocalTime,
    utc: &LocalTime,
    version: &str,
    cwd: &str,
    Ghost(r): Ghost<ReportModel>,
)
    requires
        r.generated_local == local.listing_text(),
        r.generated_utc == utc.listing_text(),
        r.version == version@,
        r.host.cwd == cwd@,
    ensures
        grown(old(lines)@, final(lines)@, title_lines(r)),
{
    push_double_rule(lines);
    push_line(lines, " DATA COLLECTION REPORT");
    push_double_rule(lines);
    push_line(lines, "");
    push_field(lines, "Generated (local): ", local.listing().as_str());
    push_field(lines, "Generated (UTC):   ", utc.listing().as_str());
    push_field(lines, "Tool:              fordocu v", version);
    push_field(lines, "Working directory: ", cwd);
    push_line(lines, "");
    proof {
        assert(text::texts(lines@) =~= text::texts(old(lines)@) + title_lines(r));
    }
}

/// Writes what the operator said of the case.
fn push_case(lines: &mut Vec<String>, case: &CaseInfo)
    ensures
        grown(old(lines)@, final(lines)@, case_lines(case@)),
{
    push_line(lines, "CASE INFORMATION");
    push_single_rule(lines);
    push_field(lines, "Case reference:             ", case.reference.as_str());
    push_field(lines, "Data collection source:     ", case.source.as_str());
    push_field(lines, "Reason for data collection: ", case.reason.as_str());
    if !case.operator.as_str().is_empty() {
        push_field(lines, "Operator / collector:       ", case.operator.as_str());
    }
    if !case.notes.as_str().is_empty() {
        push_line(lines, "Notes:");
        push_notes(lines, case.notes.as_str());
    }
    push_line(lines, "");
    proof {
        assert(text::texts(lines@) =~= text::texts(old(lines)@) + case_lines(case@));
    }
}

/// Writes the lines of the notes.
fn push_notes(lines: &mut Vec<String>, notes: &str)
    ensures
        grown(old(lines)@, final(lines)@, indented("  "@, text::lines(notes@))),
{
    let all = text::split_lines(notes);
    let ghost more = indented("  "@, text::lines(notes@));
    let mut i: usize = 0;
    proof {
        assert(text::texts(lines@) =~= text::texts(old(lines)@) + more.take(0));
    }
    while i < all.len()
        invariant
            i <= all@.len(),
            text::rows(all@) == text::lines(notes@),
            more == indented("  "@, text::lines(notes@)),
            grown(old(lines)@, lines@, more.take(i as int)),
        decreases all@.len() - i,
    {
        let line = text::string_of(all[i].as_slice());
        proof {
            assert(text::lines(notes@)[i as int] == all@[i as int]@);
            assert(more.take(i + 1) =~= more.take(i as int) + seq!["  "@ + line@]);
        }
        push_field(lines, "  ", line.as_str());
        proof {
            assert(text::texts(lines@) =~= text::texts(old(lines)@) + more.take(i + 1));
        }
        i = i + 1;
    }
    proof {
        assert(more.take(more.len() as int) =~= more);
    }
}

/// Writes what is said of the machine.
fn push_host(lines: &mut Vec<String>, host: &HostInfo)
    ensures
        grown(old(lines)@, final(lines)@, host_lines(host@)),
{
    push_line(lines, "HOST INFORMATION");
    push_single_rule(lines);
    push_field(lines, "Hostname: ", host.hostname.as_str());
    push_field(lines, "Username: ", host.username.as_str());
    if !host.realname.as_str().is_empty() && !text::same_text(
        host.realname.as_str(),
        host.username.as_str(),
    ) {
        push_field(lines, "Realname: ", host.realname.as_str());
    }
    push_field(lines, "OS:       ", host.os.as_str());
    push_field(lines, "Kernel:   ", host.kernel.as_str());
    push_line(lines, "");
    proof {
        assert(text::texts(lines@) =~= text::texts(old(lines)@) + host_lines(host@));
    }
}

/// Writes what was found out about one integrity artifact.
fn push_result(lines: &mut Vec<String>, result: &VerificationResult)
    ensures
        grown(old(lines)@, final(lines)@, result_lines(result@)),
{
    let mut line = "[".to_owned();
    line.append(result.status.as_str());
    line.append("] ");
    line.append(result.artifact_path.as_str());
    line.append(" (");
    line.append(result.kind.as_str());
    line.append("): ");
    line.append(result.summary.as_str());
    proof {
        assert(line@ == result_line(result@));
    }
    push_line(lines, line.as_str());
    let ghost more = indented("         "@, result@.details);
    let ghost head = seq![result_line(result@)];
    let mut i: usize = 0;
    proof {
        assert(head + more.take(0) =~= head);
    }
    while i < result.details.len()
        invariant
            i <= result.details@.len(),
            more == indented("         "@, result@.details),
            grown(old(lines)@, lines@, head + more.take(i as int)),
        decreases result.details@.len() - i,
    {
        proof {
            assert(more.take(i + 1) =~= more.take(i as int) + seq![
                "         "@ + result.details@[i as int]@,
            ]);
        }
        push_field(lines, "         ", result.details[i].as_str());
        proof {
            assert(text::texts(lines@) =~= text::texts(old(lines)@) + (head + more.take(i + 1)));
        }
        i = i + 1;
    }
    proof {
        assert(more.take(more.len() as int) =~= more);
    }
}

/// Writes the section on integrity artifacts.
fn push_artifacts(lines: &mut Vec<String>, results: &Vec<VerificationResult>)
    ensures
        grown(
            old(lines)@,
            final(lines)@,
            artifact_lines(verification::result_models(results@)),
        ),
{
    let ghost models = verification::result_models(results@);
    if results.len() == 0 {
        proof {
            assert(text::texts(lines@) =~= text::texts(old(lines)@) + artifact_lines(models));
        }
        return ;
    }
    push_line(lines, "EXISTING INTEGRITY ARTIFACTS");
    push_single_rule(lines);
    let ghost head = seq!["EXISTING INTEGRITY ARTIFACTS"@, single_rule()];
    let mut i: usize = 0;
    proof {
        assert(text::texts(lines@) =~= text::texts(old(lines)@) + (head + results_lines(
            models.take(0),
        )));
    }
    while i < results.len()
        invariant
            i <= results@.len(),
            models == verification::result_models(results@),
            grown(old(lines)@, lines@, head + results_lines(models.take(i as int))),
        decreases results@.len() - i,
    {
        push_result(lines, &results[i]);
        proof {
            assert(models.take(i + 1).drop_last() =~= models.take(i as int));
            assert(models.take(i + 1).last() == results@[i as int]@);
            assert(text::texts(lines@) =~= text::texts(old(lines)@) + (head + results_lines(
                models.take(i + 1),
            )));
        }
        i = i + 1;
    }
    push_line(lines, "");
    proof {
        assert(models.take(models.len() as int) =~= models);
        assert(text::texts(lines@) =~= text::texts(old(lines)@) + artifact_lines(models));
    }
}

/// Writes the head of the listing.
fn push_listing_head(
    lines: &mut Vec<String>,
    entries: &Vec<FileEntry>,
    cfg: &HashConfig,
    Ghost(r): Ghost<ReportModel>,
)
    requires
        r.entries == scan::entry_models(entries@),
        r.cfg == *cfg,
    ensures
        grown(old(lines)@, final(lines)@, listing_head(r)),
{
    push_line(lines, "DIRECTORY LISTING");
    push_single_rule(lines);
    let mut total = String::new();
    text::push_decimal(&mut total, entries.len() as u64);
    push_field(lines, "Total entries: ", total.as_str());
    let mut files = String::new();
    text::push_decimal(&mut files, scan::count_files(entries) as u64);
    push_field(lines, "Files listed:  ", files.as_str());
    push_line(lines, "");
    let mut columns = "Type     Size          Modified              Path".to_owned();
    if cfg.md5 {
        columns.append("  MD5");
    }
    if cfg.sha256 {
        columns.append("  SHA-256");
    }
    if cfg.sha512 {
        columns.append("  SHA-512");
    }
    proof {
        assert(columns@ =~= column_line(*cfg));
        assert(total@ =~= text::decimal(r.entries.len()));
        assert(files@ =~= text::decimal(scan::files_among(r.entries, r.entries.len())));
    }
    push_line(lines, columns.as_str());
    push_single_rule(lines);
    proof {
        assert(text::texts(lines@) =~= text::texts(old(lines)@) + listing_head(r));
    }
}

/// The columns of an entry.
fn columns_of(entry: &FileEntry) -> (r: String)
    ensures
        r@ == entry_line(entry@),
{
    let name = match &entry.entry_type {
        EntryType::File => "file",
        EntryType::Dir => "dir ",
        EntryType::Symlink(_) => "link",
        EntryType::Other => "other",
    };
    let mut size = String::new();
    match &entry.entry_type {
        EntryType::Dir | EntryType::Symlink(_) => {
            size.append("-");
        },
        _ => {
            text::push_decimal(&mut size, entry.size);
        },
    }
    let modified = match &entry.modified {
        Some(time) => time.as_str(),
        None => "-",
    };
    let mut out = String::new();
    text::push_padded(&mut out, name, 8);
    out.append(" ");
    text::push_padded(&mut out, size.as_str(), 13);
    out.append(" ");
    text::push_padded(&mut out, modified, 23);
    out.append(" ");
    out.append(entry.rel_path.as_str());
    proof {
        assert(name@ == type_word(entry@.entry_type));
        assert(size@ =~= size_text(entry@));
        assert(modified@ == modified_text(entry@));
        assert(out@ =~= entry_line(entry@));
    }
    out
}

/// Writes a hash.
fn push_hash(lines: &mut Vec<String>, wanted: bool, label: &str, hash: &Option<String>)
    ensures
        grown(
            old(lines)@,
            final(lines)@,
            hash_line(wanted, label@, digest::optional_text(*hash)),
        ),
{
    if let Some(h) = hash {
        if wanted {
            push_field(lines, label, h.as_str());
            return ;
        }
    }
    proof {
        assert(text::texts(lines@) =~= text::texts(old(lines)@) + Seq::<Seq<char>>::empty());
    }
}

/// Writes the hashes of a file.
fn push_hashes(lines: &mut Vec<String>, hashes: &Hashes, cfg: &HashConfig)
    ensures
        grown(old(lines)@, final(lines)@, hash_lines(hashes@, *cfg)),
{
    push_hash(lines, cfg.md5, "         MD5:    ", &hashes.md5);
    push_hash(lines, cfg.sha256, "         SHA-256: ", &hashes.sha256);
    push_hash(lines, cfg.sha512, "         SHA-512: ", &hashes.sha512);
    proof {
        assert(text::texts(lines@) =~= text::texts(old(lines)@) + hash_lines(hashes@, *cfg));
    }
}

/// Writes an entry of the listing.
fn push_entry(lines: &mut Vec<String>, entry: &FileEntry, cfg: &HashConfig)
    ensures
        grown(old(lines)@, final(lines)@, entry_lines(entry@, *cfg)),
{
    push_line(lines, columns_of(entry).as_str());
    if let EntryType::Symlink(target) = &entry.entry_type {
        push_field(lines, "         -> ", target.as_str());
    }
    if let Some(reason) = &entry.error {
        push_field(lines, "         ERROR: ", reason.as_str());
    } else if let Some(hashes) = &entry.hashes {
        push_hashes(lines, hashes, cfg);
    }
    proof {
        assert(text::texts(lines@) =~= text::texts(old(lines)@) + entry_lines(entry@, *cfg));
    }
}

/// Writes the entries of the listing.
fn push_listing(lines: &mut Vec<String>, entries: &Vec<FileEntry>, cfg: &HashConfig)
    ensures
        grown(
            old(lines)@,
            final(lines)@,
            listing_lines(scan::entry_models(entries@), *cfg),
        ),
{
    let ghost models = scan::entry_models(entries@);
    let mut i: usize = 0;
    proof {
        assert(text::texts(lines@) =~= text::texts(old(lines)@) + listing_lines(
            models.take(0),
            *cfg,
        ));
    }
    while i < entries.len()
        invariant
            i <= entries@.len(),
            models == scan::entry_models(entries@),
            grown(old(lines)@, lines@, listing_lines(models.take(i as int), *cfg)),
        decreases entries@.len() - i,
    {
        push_entry(lines, &entries[i], cfg);
        proof {
            assert(models.take(i + 1).drop_last() =~= models.take(i as int));
            assert(models.take(i + 1).last() == entries@[i as int]@);
            assert(text::texts(lines@) =~= text::texts(old(lines)@) + listing_lines(
                models.take(i + 1),
                *cfg,
            ));
        }
        i = i + 1;
    }
    proof {
        assert(models.take(models.len() as int) =~= models);
    }
}

/// Writes the section on what went wrong.
fn push_errors(lines: &mut Vec<String>, entries: &Vec<FileEntry>)
    ensures
        grown(old(lines)@, final(lines)@, error_lines(scan::entry_models(entries@))),
{
    let ghost models = scan::entry_models(entries@);
    let ghost head = seq![""@, "ERRORS"@, single_rule()];
    let mut open = false;
    let mut i: usize = 0;
    proof {
        assert(text::texts(lines@) =~= text::texts(old(lines)@) + error_lines(models.take(0)));
    }
    while i < entries.len()
        invariant
            i <= entries@.len(),
            models == scan::entry_models(entries@),
            head == seq![""@, "ERRORS"@, single_rule()],
            open == (failures(models.take(i as int)).len() > 0),
            grown(old(lines)@, lines@, error_lines(models.take(i as int))),
        decreases entries@.len() - i,
    {
        let ghost before = lines@;
        proof {
            assert(models.take(i + 1).drop_last() =~= models.take(i as int));
            assert(models.take(i + 1).last() == entries@[i as int]@);
        }
        if let Some(reason) = &entries[i].error {
            if !open {
                push_line(lines, "");
                push_line(lines, "ERRORS");
                push_single_rule(lines);
                open = true;
                proof {
                    assert(text::texts(lines@) =~= text::texts(old(lines)@) + (head + failures(
                        models.take(i as int),
                    )));
                }
            }
            let mut line = "  ".to_owned();
            line.append(entries[i].rel_path.as_str());
            line.append(": ");
            line.append(reason.as_str());
            push_line(lines, line.as_str());
            proof {
                assert(error_line(entries@[i as int]@) =~= seq![line@]);
                assert(text::texts(lines@) =~= text::texts(old(lines)@) + (head + failures(
                    models.take(i + 1),
                )));
            }
        } else {
            proof {
                assert(failures(models.take(i + 1)) =~= failures(models.take(i as int)));
            }
        }
        i = i + 1;
    }
    proof {
        assert(models.take(models.len() as int) =~= models);
    }
}

/// Writes the footer.
fn push_footer(lines: &mut Vec<String>, version: &str)
    ensures
        grown(old(lines)@, final(lines)@, footer_lines(version@)),
{
    push_line(lines, "");
    push_double_rule(lines);
    let mut line = "Documented via fordocu v".to_owned();
    line.append(version);
    line.append(" — https://github.com/overcuriousity/fordocu");
    push_line(lines, line.as_str());
    push_double_rule(lines);
    proof {
        assert(text::texts(lines@) =~= text::texts(old(lines)@) + footer_lines(version@));
    }
}

/// The report, as texts, on what the arguments of `write_report` hold.
pub open spec fn report_model(
    local: LocalTime,
    utc: LocalTime,
    version: Seq<char>,
    case: CaseInfo,
    host: HostInfo,
    entries: Seq<FileEntry>,
    cfg: HashConfig,
    results: Seq<VerificationResult>,
) -> ReportModel {
    ReportModel {
        version,
        generated_local: local.listing_text(),
        generated_utc: utc.listing_text(),
        case: case@,
        host: host@,
        entries: scan::entry_models(entries),
        cfg,
        results: verification::result_models(results),
    }
}

/// The text of the report, made at the moment `local` by the local clock and `utc` by
/// that of UTC, by the version `version` of the tool.
pub fn write_report(
    local: &LocalTime,
    utc: &LocalTime,
    version: &str,
    case: &CaseInfo,
    host: &HostInfo,
    entries: &Vec<FileEntry>,
    cfg: &HashConfig,
    results: &Vec<VerificationResult>,
) -> (r: String)
    ensures
        r@ == report_text(
            report_model(*local, *utc, version@, *case, *host, entries@, *cfg, results@),
        ),
{
    let ghost model = report_model(
        *local,
        *utc,
        version@,
        *case,
        *host,
        entries@,
        *cfg,
        results@,
    );
    let mut lines: Vec<String> = Vec::new();
    proof {
        assert(text::texts(lines@) =~= Seq::empty());
    }
    push_title(&mut lines, local, utc, version, host.cwd.as_str(), Ghost(model));
    push_case(&mut lines, case);
    push_host(&mut lines, host);
    push_artifacts(&mut lines, results);
    push_listing_head(&mut lines, entries, cfg, Ghost(model));
    push_listing(&mut lines, entries, cfg);
    push_errors(&mut lines, entries);
    push_footer(&mut lines, version);
    proof {
        assert(text::texts(lines@) =~= report_lines(model));
    }
    text::terminated(&lines)
}

// ---------------------------------------------------------------------------
// Laws
// ---------------------------------------------------------------------------
/// A report ends with the footer: the version of the tool and where it comes from,
/// between two rules.
pub proof fn law_report_ends_with_footer(r: ReportModel)
    ensures
        report_lines(r).len() >= 4,
        report_lines(r).skip(report_lines(r).len() - 4) == footer_lines(r.version),
{
    assert(report_lines(r).skip(report_lines(r).len() - 4) =~= footer_lines(r.version));
}

/// The lines of a report can be read back from its text, as long as no value in it
/// breaks its line.
pub proof fn law_report_reads_back(r: ReportModel)
    requires
        forall|i: int| 0 <= i < report_lines(r).len() ==> text::is_line(#[trigger] report_lines(r)[i]),
    ensures
        text::lines(report_text(r)) == report_lines(r),
{
    text::law_terminated_lines_read_back(report_lines(r));
}

proof fn lemma_contains_concat(a: Seq<Seq<char>>, b: Seq<Seq<char>>, line: Seq<char>)
    ensures
        a.contains(line) || b.contains(line) ==> (a + b).contains(line),
{
    if a.contains(line) {
        let i = choose|i: int| 0 <= i < a.len() && a[i] == line;
        assert((a + b)[i] == line);
    }
    if b.contains(line) {
        let i = choose|i: int| 0 <= i < b.len() && b[i] == line;
        assert((a + b)[a.len() + i] == line);
    }
}

/// What stands in a section stands in the report.
proof fn lemma_report_contains(r: ReportModel, line: Seq<char>)
    ensures
        listing_lines(r.entries, r.cfg).contains(line) || error_lines(r.entries).contains(line)
            || artifact_lines(r.results).contains(line) || case_lines(r.case).contains(line)
            ==> report_lines(r).contains(line),
{
    let to_host = title_lines(r) + case_lines(r.case);
    let head = to_host + host_lines(r.host);
    let to_artifacts = head + artifact_lines(r.results);
    let to_listing = to_artifacts + listing_head(r);
    let to_errors = to_listing + listing_lines(r.entries, r.cfg);
    let to_footer = to_errors + error_lines(r.entries);
    lemma_contains_concat(title_lines(r), case_lines(r.case), line);
    lemma_contains_concat(to_host, host_lines(r.host), line);
    lemma_contains_concat(head, artifact_lines(r.results), line);
    lemma_contains_concat(to_artifacts, listing_head(r), line);
    lemma_contains_concat(to_listing, listing_lines(r.entries, r.cfg), line);
    lemma_contains_concat(to_errors, error_lines(r.entries), line);
    lemma_contains_concat(to_footer, footer_lines(r.version), line);
    assert(report_lines(r) == to_footer + footer_lines(r.version));
}

proof fn lemma_listing_contains(
    entries: Seq<FileEntryModel>,
    cfg: HashConfig,
    i: int,
    line: Seq<char>,
)
    requires
        0 <= i < entries.len(),
        entry_lines(entries[i], cfg).contains(line),
    ensures
        listing_lines(entries, cfg).contains(line),
    decreases entries.len(),
{
    if i < entries.len() - 1 {
        lemma_listing_contains(entries.drop_last(), cfg, i, line);
    }
    lemma_contains_concat(
        listing_lines(entries.drop_last(), cfg),
        entry_lines(entries.last(), cfg),
        line,
    );
}

proof fn lemma_failures_contain(entries: Seq<FileEntryModel>, i: int, line: Seq<char>)
    requires
        0 <= i < entries.len(),
        error_line(entries[i]).contains(line),
    ensures
        failures(entries).contains(line),
    decreases entries.len(),
{
    if i < entries.len() - 1 {
        lemma_failures_contain(entries.drop_last(), i, line);
    }
    lemma_contains_concat(failures(entries.drop_last()), error_line(entries.last()), line);
}

/// Every entry of the listing stands in the report, with its type, size, time and
/// path.
pub proof fn law_every_entry_is_reported(r: ReportModel, i: int)
    requires
        0 <= i < r.entries.len(),
    ensures
        report_lines(r).contains(entry_line(r.entries[i])),
        report_lines(r).contains(
            text::pad_right(
                match r.entries[i].entry_type {
                    EntryTypeModel::File => "file"@,
                    EntryTypeModel::Dir => "dir "@,
                    EntryTypeModel::Symlink(_) => "link"@,
                    EntryTypeModel::Other => "other"@,
                },
                8,
            ) + " "@ + text::pad_right(
                match r.entries[i].entry_type {
                    EntryTypeModel::File | EntryTypeModel::Other => text::decimal(
                        r.entries[i].size as nat,
                    ),
                    _ => "-"@,
                },
                13,
            ) + " "@ + text::pad_right(
                match r.entries[i].modified {
                    Some(time) => time,
                    None => "-"@,
                },
                23,
            ) + " "@ + r.entries[i].rel_path,
        ),
        r.entries[i].entry_type matches EntryTypeModel::Symlink(target) ==> report_lines(
            r,
        ).contains("         -> "@ + target),
{
    let e = r.entries[i];
    if let EntryTypeModel::Symlink(target) = e.entry_type {
        let line = "         -> "@ + target;
        assert(target_lines(e.entry_type)[0] == line);
        lemma_contains_concat(seq![entry_line(e)], target_lines(e.entry_type), line);
        lemma_contains_concat(
            seq![entry_line(e)] + target_lines(e.entry_type),
            outcome_lines(e, r.cfg),
            line,
        );
        lemma_listing_contains(r.entries, r.cfg, i, line);
        lemma_report_contains(r, line);
    }
    assert(entry_lines(e, r.cfg)[0] == entry_line(e));
    lemma_listing_contains(r.entries, r.cfg, i, entry_line(e));
    lemma_report_contains(r, entry_line(e));
}

/// Every hash that is wanted and known stands in the report, unless something went
/// wrong with the entry.
pub proof fn law_every_hash_is_reported(r: ReportModel, i: int)
    requires
        0 <= i < r.entries.len(),
        r.entries[i].error is None,
        r.entries[i].hashes is Some,
    ensures
        ({
            let hashes = r.entries[i].hashes->0;
            &&& r.cfg.md5 && hashes.md5 is Some ==> report_lines(r).contains(
                "         MD5:    "@ + hashes.md5->0,
            )
            &&& r.cfg.sha256 && hashes.sha256 is Some ==> report_lines(r).contains(
                "         SHA-256: "@ + hashes.sha256->0,
            )
            &&& r.cfg.sha512 && hashes.sha512 is Some ==> report_lines(r).contains(
                "         SHA-512: "@ + hashes.sha512->0,
            )
        }),
{
    let e = r.entries[i];
    let hashes = e.hashes->0;
    let md5 = hash_line(r.cfg.md5, "         MD5:    "@, hashes.md5);
    let sha256 = hash_line(r.cfg.sha256, "         SHA-256: "@, hashes.sha256);
    let sha512 = hash_line(r.cfg.sha512, "         SHA-512: "@, hashes.sha512);
    assert forall|line: Seq<char>|
        md5.contains(line) || sha256.contains(line) || sha512.contains(
            line,
        ) implies #[trigger] report_lines(r).contains(line) by {
        lemma_contains_concat(md5, sha256, line);
        lemma_contains_concat(md5 + sha256, sha512, line);
        lemma_contains_concat(
            seq![entry_line(e)] + target_lines(e.entry_type),
            outcome_lines(e, r.cfg),
            line,
        );
        lemma_listing_contains(r.entries, r.cfg, i, line);
        lemma_report_contains(r, line);
    }
    if r.cfg.md5 && hashes.md5 is Some {
        assert(md5[0] == "         MD5:    "@ + hashes.md5->0);
    }
    if r.cfg.sha256 && hashes.sha256 is Some {
        assert(sha256[0] == "         SHA-256: "@ + hashes.sha256->0);
    }
    if r.cfg.sha512 && hashes.sha512 is Some {
        assert(sha512[0] == "         SHA-512: "@ + hashes.sha512->0);
    }
}

/// For a file of which nothing went wrong, the report shows the wanted hashes of what
/// the file holds.
pub proof fn law_report_shows_the_hashes_of_the_content(r: ReportModel, i: int, data: Seq<u8>)
    requires
        0 <= i < r.entries.len(),
        r.entries[i].error is None,
        r.entries[i].hashes == Some(digest::hashes_of(r.cfg, data)),
    ensures
        r.cfg.md5 ==> report_lines(r).contains(
            "         MD5:    "@ + digest::lower_hex(digest::ChecksumAlgorithm::Md5.digest(data)),
        ),
        r.cfg.sha256 ==> report_lines(r).contains(
            "         SHA-256: "@ + digest::lower_hex(digest::ChecksumAlgorithm::Sha256.digest(data)),
        ),
        r.cfg.sha512 ==> report_lines(r).contains(
            "         SHA-512: "@ + digest::lower_hex(digest::ChecksumAlgorithm::Sha512.digest(data)),
        ),
{
    law_every_hash_is_reported(r, i);
}

/// Every line of the notes stands in the report, as it was typed.
pub proof fn law_every_note_is_reported(r: ReportModel, typed: Seq<Seq<char>>, i: int)
    requires
        r.case.notes == text::join(typed, "\n"@),
        forall|k: int| 0 <= k < typed.len() ==> (#[trigger] typed[k]).len() > 0,
        forall|k: int| 0 <= k < typed.len() ==> text::is_line(#[trigger] typed[k]),
        0 <= i < typed.len(),
    ensures
        report_lines(r).contains("  "@ + typed[i]),
{
    reveal_strlit("\n");
    let line = "  "@ + typed[i];
    let noted = indented("  "@, text::lines(r.case.notes));
    assert("\n"@ =~= seq!['\n']);
    assert(typed.last() == typed[typed.len() - 1]);
    text::law_joined_lines_read_back(typed);
    assert(r.case.notes.len() > 0) by {
        if r.case.notes.len() == 0 {
            assert(text::lines(r.case.notes).len() == 0);
        }
    }
    assert(noted[i] == line);
    let always = seq![
        "CASE INFORMATION"@,
        single_rule(),
        "Case reference:             "@ + r.case.reference,
        "Data collection source:     "@ + r.case.source,
        "Reason for data collection: "@ + r.case.reason,
    ];
    let operator = line_if(
        r.case.operator.len() > 0,
        "Operator / collector:       "@ + r.case.operator,
    );
    let notes = seq!["Notes:"@] + noted;
    lemma_contains_concat(seq!["Notes:"@], noted, line);
    lemma_contains_concat(always + operator, notes, line);
    lemma_contains_concat(always + operator + notes, seq![""@], line);
    assert(case_lines(r.case) == always + operator + notes + seq![""@]);
    lemma_report_contains(r, line);
}

/// What went wrong with an entry stands in the report twice: below the entry, and in
/// the section on errors.
pub proof fn law_every_error_is_reported(r: ReportModel, i: int)
    requires
        0 <= i < r.entries.len(),
        r.entries[i].error is Some,
    ensures
        report_lines(r).contains("         ERROR: "@ + r.entries[i].error->0),
        report_lines(r).contains(
            "  "@ + r.entries[i].rel_path + ": "@ + r.entries[i].error->0,
        ),
{
    let e = r.entries[i];
    let below = "         ERROR: "@ + e.error->0;
    let summary = "  "@ + e.rel_path + ": "@ + e.error->0;
    assert(outcome_lines(e, r.cfg)[0] == below);
    lemma_contains_concat(
        seq![entry_line(e)] + target_lines(e.entry_type),
        outcome_lines(e, r.cfg),
        below,
    );
    lemma_listing_contains(r.entries, r.cfg, i, below);
    lemma_report_contains(r, below);
    assert(error_line(e)[0] == summary);
    lemma_failures_contain(r.entries, i, summary);
    lemma_contains_concat(
        seq![""@, "ERRORS"@, single_rule()],
        failures(r.entries),
        summary,
    );
    lemma_report_contains(r, summary);
}

proof fn lemma_results_contain(results: Seq<VerificationModel>, i: int, line: Seq<char>)
    requires
        0 <= i < results.len(),
        result_lines(results[i]).contains(line),
    ensures
        results_lines(results).contains(line),
    decreases results.len(),
{
    if i < results.len() - 1 {
        lemma_results_contain(results.drop_last(), i, line);
    }
    lemma_contains_concat(
        results_lines(results.drop_last()),
        result_lines(results.last()),
        line,
    );
}

/// What was found out about every integrity artifact stands in the report, with all
/// its details.
pub proof fn law_every_result_is_reported(r: ReportModel, i: int)
    requires
        0 <= i < r.results.len(),
    ensures
        report_lines(r).contains(result_line(r.results[i])),
        report_lines(r).contains(
            "["@ + (match r.results[i].status {
                VerificationStatus::Verified => "OK"@,
                VerificationStatus::Failed => "FAILED"@,
                VerificationStatus::Missing => "MISSING"@,
                VerificationStatus::Error => "ERROR"@,
            }) + "] "@ + r.results[i].artifact_path + " ("@ + r.results[i].kind + "): "@
                + r.results[i].summary,
        ),
        forall|k: int|
            0 <= k < r.results[i].details.len() ==> report_lines(r).contains(
                "         "@ + #[trigger] r.results[i].details[k],
            ),
{
    let result = r.results[i];
    let head = seq!["EXISTING INTEGRITY ARTIFACTS"@, single_rule()];
    assert forall|line: Seq<char>| result_lines(result).contains(line) implies #[trigger] report_lines(
        r,
    ).contains(line) by {
        lemma_results_contain(r.results, i, line);
        lemma_contains_concat(head, results_lines(r.results), line);
        lemma_contains_concat(head + results_lines(r.results), seq![""@], line);
        lemma_report_contains(r, line);
    }
    assert(result_lines(result)[0] == result_line(result));
    assert forall|k: int| 0 <= k < result.details.len() implies report_lines(r).contains(
        "         "@ + #[trigger] result.details[k],
    ) by {
        assert(result_lines(result)[k + 1] == "         "@ + result.details[k]);
    }
}

/// `hashes` without those that are not wanted.
pub open spec fn wanted_only(hashes: HashTexts, cfg: HashConfig) -> HashTexts {
    HashTexts {
        md5: if cfg.md5 {
            hashes.md5
        } else {
            None
        },
        sha256: if cfg.sha256 {
            hashes.sha256
        } else {
            None
        },
        sha512: if cfg.sha512 {
            hashes.sha512
        } else {
            None
        },
    }
}

/// The entries without the hashes that are not wanted.
pub open spec fn with_wanted_only(entries: Seq<FileEntryModel>, cfg: HashConfig) -> Seq<
    FileEntryModel,
> {
    entries.map_values(
        |e: FileEntryModel|
            FileEntryModel {
                hashes: match e.hashes {
                    Some(hashes) => Some(wanted_only(hashes, cfg)),
                    None => None,
                },
                ..e
            },
    )
}

/// A hash that is not wanted leaves no trace in the listing.
pub proof fn law_unwanted_hashes_leave_no_trace(entries: Seq<FileEntryModel>, cfg: HashConfig)
    ensures
        listing_lines(entries, cfg) == listing_lines(with_wanted_only(entries, cfg), cfg),
    decreases entries.len(),
{
    let kept = with_wanted_only(entries, cfg);
    if entries.len() > 0 {
        law_unwanted_hashes_leave_no_trace(entries.drop_last(), cfg);
        assert(kept.drop_last() =~= with_wanted_only(entries.drop_last(), cfg));
        let e = entries.last();
        let k = kept.last();
        assert(entry_line(k) == entry_line(e));
        if e.error is None && e.hashes is Some {
            let h = e.hashes->0;
            let w = k.hashes->0;
            assert(hash_line(cfg.md5, "         MD5:    "@, h.md5) =~= hash_line(
                cfg.md5,
                "         MD5:    "@,
                w.md5,
            ));
            assert(hash_line(cfg.sha256, "         SHA-256: "@, h.sha256) =~= hash_line(
                cfg.sha256,
                "         SHA-256: "@,
                w.sha256,
            ));
            assert(hash_line(cfg.sha512, "         SHA-512: "@, h.sha512) =~= hash_line(
                cfg.sha512,
                "         SHA-512: "@,
                w.sha512,
            ));
        }
        assert(entry_lines(k, cfg) == entry_lines(e, cfg));
    }
}

// ---------------------------------------------------------------------------
// Which sections there are
// ---------------------------------------------------------------------------
/// No line starts with `E`.
spec fn no_e(lines: Seq<Seq<char>>) -> bool {
    forall|i: int| 0 <= i < lines.len() ==> !starts_with_e(#[trigger] lines[i])
}

spec fn starts_with_e(line: Seq<char>) -> bool {
    line.len() > 0 && line[0] == 'E'
}

proof fn lemma_no_e_concat(a: Seq<Seq<char>>, b: Seq<Seq<char>>)
    requires
        no_e(a),
        no_e(b),
    ensures
        no_e(a + b),
{
    assert forall|i: int| 0 <= i < (a + b).len() implies !starts_with_e(
        #[trigger] (a + b)[i],
    ) by {
        if i < a.len() {
            assert((a + b)[i] == a[i]);
        } else {
            assert((a + b)[i] == b[i - a.len()]);
        }
    }
}

proof fn lemma_rules_no_e()
    ensures
        !starts_with_e(double_rule()),
        !starts_with_e(single_rule()),
        !starts_with_e(""@),
{
    reveal_strlit(
        "================================================================================",
    );
    reveal_strlit(
        "--------------------------------------------------------------------------------",
    );
    reveal_strlit("");
}

proof fn lemma_indented_no_e(margin: Seq<char>, lines: Seq<Seq<char>>)
    requires
        margin.len() > 0,
        margin[0] == ' ',
    ensures
        no_e(indented(margin, lines)),
{
}

proof fn lemma_title_no_e(r: ReportModel)
    ensures
        no_e(title_lines(r)),
{
    lemma_rules_no_e();
    reveal_strlit(" DATA COLLECTION REPORT");
    reveal_strlit("Generated (local): ");
    reveal_strlit("Generated (UTC):   ");
    reveal_strlit("Tool:              fordocu v");
    reveal_strlit("Working directory: ");
}

proof fn lemma_case_no_e(case: CaseModel)
    ensures
        no_e(case_lines(case)),
{
    lemma_rules_no_e();
    reveal_strlit("CASE INFORMATION");
    reveal_strlit("Case reference:             ");
    reveal_strlit("Data collection source:     ");
    reveal_strlit("Reason for data collection: ");
    reveal_strlit("Operator / collector:       ");
    reveal_strlit("Notes:");
    reveal_strlit("  ");
    let always = seq![
        "CASE INFORMATION"@,
        single_rule(),
        "Case reference:             "@ + case.reference,
        "Data collection source:     "@ + case.source,
        "Reason for data collection: "@ + case.reason,
    ];
    let operator = line_if(
        case.operator.len() > 0,
        "Operator / collector:       "@ + case.operator,
    );
    let noted = indented("  "@, text::lines(case.notes));
    let notes = if case.notes.len() > 0 {
        seq!["Notes:"@] + noted
    } else {
        Seq::empty()
    };
    lemma_indented_no_e("  "@, text::lines(case.notes));
    lemma_no_e_concat(seq!["Notes:"@], noted);
    lemma_no_e_concat(always, operator);
    lemma_no_e_concat(always + operator, notes);
    lemma_no_e_concat(always + operator + notes, seq![""@]);
}

proof fn lemma_host_no_e(host: HostModel)
    ensures
        no_e(host_lines(host)),
{
    lemma_rules_no_e();
    reveal_strlit("HOST INFORMATION");
    reveal_strlit("Hostname: ");
    reveal_strlit("Username: ");
    reveal_strlit("Realname: ");
    reveal_strlit("OS:       ");
    reveal_strlit("Kernel:   ");
}

proof fn lemma_results_no_e(results: Seq<VerificationModel>)
    ensures
        no_e(results_lines(results)),
    decreases results.len(),
{
    if results.len() > 0 {
        let result = results.last();
        reveal_strlit("[");
        reveal_strlit("         ");
        lemma_results_no_e(results.drop_last());
        lemma_indented_no_e("         "@, result.details);
        assert(result_line(result)[0] == '[');
        lemma_no_e_concat(seq![result_line(result)], indented("         "@, result.details));
        lemma_no_e_concat(results_lines(results.drop_last()), result_lines(result));
    }
}

proof fn lemma_head_no_e(r: ReportModel)
    ensures
        no_e(listing_head(r)),
{
    lemma_rules_no_e();
    reveal_strlit("DIRECTORY LISTING");
    reveal_strlit("Total entries: ");
    reveal_strlit("Files listed:  ");
    reveal_strlit("Type     Size          Modified              Path");
}

proof fn lemma_entry_no_e(entry: FileEntryModel, cfg: HashConfig)
    ensures
        no_e(entry_lines(entry, cfg)),
{
    reveal_strlit("file");
    reveal_strlit("dir ");
    reveal_strlit("link");
    reveal_strlit("other");
    reveal_strlit("         -> ");
    reveal_strlit("         ERROR: ");
    reveal_strlit("         MD5:    ");
    reveal_strlit("         SHA-256: ");
    reveal_strlit("         SHA-512: ");
    let word = type_word(entry.entry_type);
    assert(text::pad_right(word, 8)[0] == word[0]);
    assert(entry_line(entry)[0] == word[0]);
    let top = seq![entry_line(entry)];
    let target = target_lines(entry.entry_type);
    lemma_no_e_concat(top, target);
    lemma_no_e_concat(top + target, outcome_lines(entry, cfg));
}

proof fn lemma_listing_no_e(entries: Seq<FileEntryModel>, cfg: HashConfig)
    ensures
        no_e(listing_lines(entries, cfg)),
    decreases entries.len(),
{
    if entries.len() > 0 {
        lemma_listing_no_e(entries.drop_last(), cfg);
        lemma_entry_no_e(entries.last(), cfg);
        lemma_no_e_concat(
            listing_lines(entries.drop_last(), cfg),
            entry_lines(entries.last(), cfg),
        );
    }
}

proof fn lemma_failures_no_e(entries: Seq<FileEntryModel>)
    ensures
        no_e(failures(entries)),
    decreases entries.len(),
{
    if entries.len() > 0 {
        reveal_strlit("  ");
        lemma_failures_no_e(entries.drop_last());
        lemma_no_e_concat(failures(entries.drop_last()), error_line(entries.last()));
    }
}

proof fn lemma_footer_no_e(version: Seq<char>)
    ensures
        no_e(footer_lines(version)),
{
    lemma_rules_no_e();
    reveal_strlit("Documented via fordocu v");
}

/// Something is found to have gone wrong exactly if an entry has an error.
proof fn lemma_failures_iff(entries: Seq<FileEntryModel>)
    ensures
        failures(entries).len() > 0 <==> exists|i: int|
            0 <= i < entries.len() && (#[trigger] entries[i]).error is Some,
    decreases entries.len(),
{
    if entries.len() > 0 {
        let shorter = entries.drop_last();
        lemma_failures_iff(shorter);
        assert(forall|i: int| 0 <= i < shorter.len() ==> shorter[i] == #[trigger] entries[i]);
        if entries.last().error is Some {
            assert(entries[entries.len() - 1].error is Some);
        }
        if failures(shorter).len() > 0 {
            let i = choose|i: int| 0 <= i < shorter.len() && (#[trigger] shorter[i]).error is Some;
            assert(entries[i].error is Some);
        }
        if exists|i: int| 0 <= i < entries.len() && (#[trigger] entries[i]).error is Some {
            let i = choose|i: int| 0 <= i < entries.len() && (#[trigger] entries[i]).error is Some;
            if i < shorter.len() {
                assert(shorter[i].error is Some);
            }
        }
    }
}

/// A report has the section on integrity artifacts exactly if some were verified.
pub proof fn law_artifact_section(r: ReportModel)
    ensures
        report_lines(r).contains("EXISTING INTEGRITY ARTIFACTS"@) <==> r.results.len() > 0,
{
    let title = "EXISTING INTEGRITY ARTIFACTS"@;
    if r.results.len() > 0 {
        let section = artifact_lines(r.results);
        assert(section[0] == title);
        lemma_report_contains(r, title);
    } else {
        lemma_sections_no_e(r);
        reveal_strlit("EXISTING INTEGRITY ARTIFACTS");
        reveal_strlit("ERRORS");
        let front = title_lines(r) + case_lines(r.case) + host_lines(r.host) + artifact_lines(
            r.results,
        ) + listing_head(r) + listing_lines(r.entries, r.cfg);
        let lines = report_lines(r);
        let errors = error_lines(r.entries);
        let footer = footer_lines(r.version);
        assert(no_e(front)) by {
            let host = title_lines(r) + case_lines(r.case) + host_lines(r.host);
            assert(front =~= host + (listing_head(r) + listing_lines(r.entries, r.cfg)));
            lemma_no_e_concat(listing_head(r), listing_lines(r.entries, r.cfg));
            lemma_no_e_concat(host, listing_head(r) + listing_lines(r.entries, r.cfg));
        }
        assert forall|i: int| 0 <= i < lines.len() implies #[trigger] lines[i] != title by {
            if i < front.len() {
                assert(lines[i] == front[i]);
            } else if i < front.len() + errors.len() {
                let k = i - front.len();
                assert(lines[i] == errors[k]);
                if k >= 3 {
                    assert(errors[k] == failures(r.entries)[k - 3]);
                } else if k == 1 {
                    assert(errors[k].len() == 6);
                }
            } else {
                assert(lines[i] == footer[i - front.len() - errors.len()]);
            }
        }
    }
}

/// The parts of a report without a line that starts with `E`.
proof fn lemma_sections_no_e(r: ReportModel)
    ensures
        no_e(title_lines(r) + case_lines(r.case) + host_lines(r.host)),
        no_e(results_lines(r.results)),
        no_e(listing_head(r)),
        no_e(listing_lines(r.entries, r.cfg)),
        no_e(failures(r.entries)),
        no_e(footer_lines(r.version)),
        !starts_with_e(single_rule()),
        !starts_with_e(""@),
{
    lemma_rules_no_e();
    lemma_title_no_e(r);
    lemma_case_no_e(r.case);
    lemma_host_no_e(r.host);
    lemma_no_e_concat(title_lines(r), case_lines(r.case));
    lemma_no_e_concat(title_lines(r) + case_lines(r.case), host_lines(r.host));
    lemma_results_no_e(r.results);
    lemma_head_no_e(r);
    lemma_listing_no_e(r.entries, r.cfg);
    lemma_failures_no_e(r.entries);
    lemma_footer_no_e(r.version);
}

/// A report has the section on errors exactly if something went wrong with an entry.
pub proof fn law_error_section(r: ReportModel)
    ensures
        report_lines(r).contains("ERRORS"@) <==> exists|i: int|
            0 <= i < r.entries.len() && (#[trigger] r.entries[i]).error is Some,
{
    let title = "ERRORS"@;
    lemma_failures_iff(r.entries);
    if failures(r.entries).len() > 0 {
        let section = error_lines(r.entries);
        assert(section[1] == title);
        lemma_report_contains(r, title);
    } else {
        lemma_sections_no_e(r);
        reveal_strlit("EXISTING INTEGRITY ARTIFACTS");
        reveal_strlit("ERRORS");
        let front = title_lines(r) + case_lines(r.case) + host_lines(r.host);
        let artifacts = artifact_lines(r.results);
        let listing = listing_head(r) + listing_lines(r.entries, r.cfg);
        let footer = footer_lines(r.version);
        let lines = report_lines(r);
        lemma_no_e_concat(listing_head(r), listing_lines(r.entries, r.cfg));
        assert(lines =~= front + artifacts + listing + footer);
        assert forall|i: int| 0 <= i < lines.len() implies #[trigger] lines[i] != title by {
            if i < front.len() {
                assert(lines[i] == front[i]);
            } else if i < front.len() + artifacts.len() {
                let k = i - front.len();
                assert(lines[i] == artifacts[k]);
                if k == 0 {
                    assert(artifacts[k].len() == 28);
                } else if 2 <= k < artifacts.len() - 1 {
                    assert(artifacts[k] == results_lines(r.results)[k - 2]);
                }
            } else if i < front.len() + artifacts.len() + listing.len() {
                assert(lines[i] == listing[i - front.len() - artifacts.len()]);
            } else {
                assert(lines[i] == footer[i - front.len() - artifacts.len() - listing.len()]);
            }
        }
    }
}

// ---------------------------------------------------------------------------
// Nothing is added, left out or moved
// ---------------------------------------------------------------------------
/// A report tells what `write_report` was given, each value at its own place.
pub proof fn law_report_tells_what_was_given(
    local: LocalTime,
    utc: LocalTime,
    version: Seq<char>,
    case: CaseInfo,
    host: HostInfo,
    entries: Seq<FileEntry>,
    cfg: HashConfig,
    results: Seq<VerificationResult>,
)
    ensures
        ({
            let r = report_model(local, utc, version, case, host, entries, cfg, results);
            &&& r.version == version
            &&& r.generated_local == local.listing_text()
            &&& r.generated_utc == utc.listing_text()
            &&& r.case == (CaseModel {
                reference: case.reference@,
                source: case.source@,
                reason: case.reason@,
                operator: case.operator@,
                notes: case.notes@,
            })
            &&& r.host == (HostModel {
                hostname: host.hostname@,
                username: host.username@,
                realname: host.realname@,
                os: host.os@,
                kernel: host.kernel@,
                cwd: host.cwd@,
            })
            &&& r.cfg == cfg
            &&& r.entries.len() == entries.len()
            &&& forall|i: int| 0 <= i < entries.len() ==> #[trigger] r.entries[i] == entries[i]@
            &&& r.results.len() == results.len()
            &&& forall|i: int| 0 <= i < results.len() ==> #[trigger] r.results[i] == results[i]@
        }),
{
}

/// The text of a report is its lines, each with a line feed behind it, and the lines
/// are the sections, in their order.
pub proof fn law_report_is_its_sections(r: ReportModel)
    ensures
        report_text(r) == text::terminate(report_lines(r)),
        report_lines(r) == title_lines(r) + case_lines(r.case) + host_lines(r.host)
            + artifact_lines(r.results) + listing_head(r) + listing_lines(r.entries, r.cfg)
            + error_lines(r.entries) + footer_lines(r.version),
{
}

/// The rules are eighty characters long.
pub proof fn law_rules(i: int)
    requires
        0 <= i < 80,
    ensures
        double_rule().len() == 80,
        single_rule().len() == 80,
        double_rule()[i] == '=',
        single_rule()[i] == '-',
{
    reveal_strlit(
        "================================================================================",
    );
    reveal_strlit(
        "--------------------------------------------------------------------------------",
    );
}

/// A report opens with its title, both times, the tool's version and the directory.
pub proof fn law_title(r: ReportModel)
    ensures
        title_lines(r) == seq![
            double_rule(),
            " DATA COLLECTION REPORT"@,
            double_rule(),
            ""@,
            "Generated (local): "@ + r.generated_local,
            "Generated (UTC):   "@ + r.generated_utc,
            "Tool:              fordocu v"@ + r.version,
            "Working directory: "@ + r.host.cwd,
            ""@,
        ],
        footer_lines(r.version) == seq![
            ""@,
            double_rule(),
            "Documented via fordocu v"@ + r.version
                + " — https://github.com/overcuriousity/fordocu"@,
            double_rule(),
        ],
{
}

/// The section on the case holds every answer, whole; without an operator or notes
/// there is no line for them.
pub proof fn law_case_section(case: CaseModel)
    ensures
        ({
            let always = seq![
                "CASE INFORMATION"@,
                single_rule(),
                "Case reference:             "@ + case.reference,
                "Data collection source:     "@ + case.source,
                "Reason for data collection: "@ + case.reason,
            ];
            let operator = "Operator / collector:       "@ + case.operator;
            let notes = Seq::new(
                text::lines(case.notes).len(),
                |i: int| "  "@ + text::lines(case.notes)[i],
            );
            &&& case.operator.len() == 0 && case.notes.len() == 0 ==> case_lines(case) == always
                + seq![""@]
            &&& case.operator.len() > 0 && case.notes.len() == 0 ==> case_lines(case) == always
                + seq![operator, ""@]
            &&& case.operator.len() == 0 && case.notes.len() > 0 ==> case_lines(case) == always
                + seq!["Notes:"@] + notes + seq![""@]
            &&& case.operator.len() > 0 && case.notes.len() > 0 ==> case_lines(case) == always
                + seq![operator, "Notes:"@] + notes + seq![""@]
        }),
{
    let notes = Seq::new(
        text::lines(case.notes).len(),
        |i: int| "  "@ + text::lines(case.notes)[i],
    );
    let operator = "Operator / collector:       "@ + case.operator;
    assert(indented("  "@, text::lines(case.notes)) =~= notes);
    let always = seq![
        "CASE INFORMATION"@,
        single_rule(),
        "Case reference:             "@ + case.reference,
        "Data collection source:     "@ + case.source,
        "Reason for data collection: "@ + case.reason,
    ];
    if case.operator.len() == 0 && case.notes.len() == 0 {
        assert(case_lines(case) =~= always + seq![""@]);
    } else if case.notes.len() == 0 {
        assert(case_lines(case) =~= always + seq![operator, ""@]);
    } else if case.operator.len() == 0 {
        assert(case_lines(case) =~= always + seq!["Notes:"@] + notes + seq![""@]);
    } else {
        assert(case_lines(case) =~= always + seq![operator, "Notes:"@] + notes + seq![""@]);
    }
}

/// The section on the machine; the real name stands there if it says more than the
/// user name.
pub proof fn law_host_section(host: HostModel)
    ensures
        ({
            let names = seq![
                "HOST INFORMATION"@,
                single_rule(),
                "Hostname: "@ + host.hostname,
                "Username: "@ + host.username,
            ];
            let system = seq!["OS:       "@ + host.os, "Kernel:   "@ + host.kernel, ""@];
            &&& host.realname.len() > 0 && host.realname != host.username ==> host_lines(host)
                == names + seq!["Realname: "@ + host.realname] + system
            &&& host.realname.len() == 0 || host.realname == host.username ==> host_lines(host)
                == names + system
        }),
{
    let names = seq![
        "HOST INFORMATION"@,
        single_rule(),
        "Hostname: "@ + host.hostname,
        "Username: "@ + host.username,
    ];
    let system = seq!["OS:       "@ + host.os, "Kernel:   "@ + host.kernel, ""@];
    if host.realname.len() == 0 || host.realname == host.username {
        assert(host_lines(host) =~= names + system);
    }
}

/// One more result adds its line and its details, at the end, and nothing else; without
/// results the section is empty.
pub proof fn law_results_section(results: Seq<VerificationModel>, result: VerificationModel)
    ensures
        artifact_lines(Seq::empty()).len() == 0,
        results_lines(Seq::empty()).len() == 0,
        results.len() > 0 ==> artifact_lines(results) == seq![
            "EXISTING INTEGRITY ARTIFACTS"@,
            single_rule(),
        ] + results_lines(results) + seq![""@],
        results_lines(results.push(result)) == results_lines(results) + seq![
            "["@ + (match result.status {
                VerificationStatus::Verified => "OK"@,
                VerificationStatus::Failed => "FAILED"@,
                VerificationStatus::Missing => "MISSING"@,
                VerificationStatus::Error => "ERROR"@,
            }) + "] "@ + result.artifact_path + " ("@ + result.kind + "): "@ + result.summary,
        ] + Seq::new(result.details.len(), |i: int| "         "@ + result.details[i]),
{
    assert(results.push(result).drop_last() =~= results);
    let details = Seq::new(result.details.len(), |i: int| "         "@ + result.details[i]);
    assert(indented("         "@, result.details) =~= details);
    assert(results_lines(results.push(result)) =~= results_lines(results) + seq![
        result_line(result),
    ] + details);
}

/// The head of the listing holds the numbers of entries and of files, and names the
/// hashes that are shown.
pub proof fn law_listing_head(r: ReportModel)
    ensures
        listing_head(r) == seq![
            "DIRECTORY LISTING"@,
            single_rule(),
            "Total entries: "@ + text::decimal(r.entries.len()),
            "Files listed:  "@ + text::decimal(
                r.entries.filter(|e: FileEntryModel| e.entry_type is File).len(),
            ),
            ""@,
            "Type     Size          Modified              Path"@ + (if r.cfg.md5 {
                "  MD5"@
            } else {
                Seq::empty()
            }) + (if r.cfg.sha256 {
                "  SHA-256"@
            } else {
                Seq::empty()
            }) + (if r.cfg.sha512 {
                "  SHA-512"@
            } else {
                Seq::empty()
            }),
            single_rule(),
        ],
{
    scan::law_files_are_counted(r.entries);
}

/// One more entry adds at the end its columns, where a link leads, and its error or its
/// wanted hashes, in this order, and nothing else.
pub proof fn law_one_more_entry(
    entries: Seq<FileEntryModel>,
    entry: FileEntryModel,
    cfg: HashConfig,
)
    ensures
        listing_lines(Seq::empty(), cfg).len() == 0,
        listing_lines(entries.push(entry), cfg) == listing_lines(entries, cfg) + seq![
            entry_line(entry),
        ] + target_lines(entry.entry_type) + outcome_lines(entry, cfg),
        target_lines(entry.entry_type) == (match entry.entry_type {
            EntryTypeModel::Symlink(target) => seq!["         -> "@ + target],
            _ => Seq::empty(),
        }),
        entry.error matches Some(reason) ==> outcome_lines(entry, cfg) == seq![
            "         ERROR: "@ + reason,
        ],
        entry.error is None && entry.hashes is None ==> outcome_lines(entry, cfg).len() == 0,
        entry.error is None ==> (entry.hashes matches Some(h) ==> outcome_lines(entry, cfg) == (
        if cfg.md5 && h.md5 is Some {
            seq!["         MD5:    "@ + h.md5->0]
        } else {
            Seq::empty()
        }) + (if cfg.sha256 && h.sha256 is Some {
            seq!["         SHA-256: "@ + h.sha256->0]
        } else {
            Seq::empty()
        }) + (if cfg.sha512 && h.sha512 is Some {
            seq!["         SHA-512: "@ + h.sha512->0]
        } else {
            Seq::empty()
        })),
{
    assert(entries.push(entry).drop_last() =~= entries);
    assert(listing_lines(entries.push(entry), cfg) =~= listing_lines(entries, cfg) + seq![
        entry_line(entry),
    ] + target_lines(entry.entry_type) + outcome_lines(entry, cfg));
}

/// The columns of an entry are its type, its size in digits, its time and its path,
/// each whole, in columns of eight, thirteen and twenty-three characters.
pub proof fn law_columns(entry: FileEntryModel)
    ensures
        entry_line(entry) == text::pad_right(
            match entry.entry_type {
                EntryTypeModel::File => "file"@,
                EntryTypeModel::Dir => "dir "@,
                EntryTypeModel::Symlink(_) => "link"@,
                EntryTypeModel::Other => "other"@,
            },
            8,
        ) + " "@ + text::pad_right(
            match entry.entry_type {
                EntryTypeModel::File | EntryTypeModel::Other => text::decimal(entry.size as nat),
                _ => "-"@,
            },
            13,
        ) + " "@ + text::pad_right(
            match entry.modified {
                Some(time) => time,
                None => "-"@,
            },
            23,
        ) + " "@ + entry.rel_path,
{
}

/// An entry with an error adds one line to the section on errors, any other none; there
/// is no section without such a line.
pub proof fn law_errors_section(entries: Seq<FileEntryModel>, entry: FileEntryModel)
    ensures
        failures(Seq::empty()).len() == 0,
        entry.error is None ==> failures(entries.push(entry)) == failures(entries),
        entry.error matches Some(reason) ==> failures(entries.push(entry)) == failures(
            entries,
        ).push("  "@ + entry.rel_path + ": "@ + reason),
        failures(entries).len() == 0 ==> error_lines(entries).len() == 0,
        failures(entries).len() > 0 ==> error_lines(entries) == seq![
            ""@,
            "ERRORS"@,
            single_rule(),
        ] + failures(entries),
{
    assert(entries.push(entry).drop_last() =~= entries);
    match entry.error {
        None => {
            assert(failures(entries.push(entry)) =~= failures(entries));
        },
        Some(reason) => {
            assert(failures(entries.push(entry)) =~= failures(entries).push(
                "  "@ + entry.rel_path + ": "@ + reason,
            ));
        },
    }
}

} // verus!
