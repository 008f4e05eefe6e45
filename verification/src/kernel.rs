//! The running kernel, the kernel branches and their package databases.

use vstd::prelude::*;

use crate::json::{json_get, json_get_str, json_index, json_str_field, parse_json, spec_parse_json, JsonValue};
use crate::scheduler::{get_current_scheduler, scheduler_label, spec_version_compare, SchedExt};
use crate::text::{
    decimal_seq, first_line, has_suffix, lemma_parse_decimal_u32, first_line_seq, parse_u32, parse_u32_seq, str_equal, trim,
    trim_end_matches, trim_end_matches_seq, trim_seq, u64_to_decimal,
};

verus! {

/// What the badges show of the running kernel.
pub struct RunningKernelInfo {
    pub kernel: String,
    pub version: String,
    pub sched: String,
}

/// The `major.minor.patch` triple of the running kernel.
pub struct KernelVersion {
    pub major: u64,
    pub minor: u64,
    pub patch: u64,
}

/// A kernel branch: where its package database comes from, the database
/// itself and the script that prepares it.
pub struct KernelBranch {
    pub name: String,
    pub db_url: String,
    pub db: String,
    pub init_script: String,
}

/// A branch as the branch list describes it, before its database is fetched.
pub struct BranchSource {
    pub name: String,
    pub db_url: String,
    pub init_script: String,
}

/// A field that a branch in the branch list lacks (or holds as a non-string).
pub enum BranchError {
    MissingName,
    MissingDbUrl,
    MissingInitScript,
}

/// A kernel as a branch database lists it.
pub struct KernelDbEntry {
    pub name: String,
    pub main_package: String,
    pub packages: String,
    pub min_x86_march: u32,
}

/// Why a kernel of a branch database cannot be read.
pub enum KernelDbError {
    MissingName,
    MissingMainPackage,
    MissingPackages,
    MissingMinX86March,
    InvalidMinX86March,
}

/// A badge: a label (a translation key), a value and a CSS style class.
pub struct KernelBadge {
    pub label: String,
    pub value: String,
    pub style: String,
}

/// A saved branch choice: the text of the saved file and its size in bytes.
pub struct SavedBranch {
    pub content: String,
    pub byte_len: u64,
}

/// The kernel version as the badges write it: `major.minor`, with `.patch`
/// added unless the patch level is 0.
pub open spec fn kernel_version_text(v: KernelVersion) -> Seq<char> {
    if v.patch == 0 {
        decimal_seq(v.major as nat) + "."@ + decimal_seq(v.minor as nat)
    } else {
        decimal_seq(v.major as nat) + "."@ + decimal_seq(v.minor as nat) + "."@ + decimal_seq(
            v.patch as nat,
        )
    }
}

/// Writes the kernel version as the badges show it.
pub fn format_kernel_version(v: &KernelVersion) -> (r: String)
    ensures
        r@ == kernel_version_text(*v),
{
    let mut s = u64_to_decimal(v.major);
    s.append(".");
    let minor = u64_to_decimal(v.minor);
    s.append(minor.as_str());
    if v.patch != 0 {
        s.append(".");
        let patch = u64_to_decimal(v.patch);
        s.append(patch.as_str());
    }
    s
}

/// The facts about the running kernel: the trimmed output of `uname -r` and the
/// kernel version (`unknown` where either could not be had) and its scheduler.
pub open spec fn running_kernel_info_is(
    r: RunningKernelInfo,
    uname_release: Option<String>,
    version: Option<KernelVersion>,
    sched_ext: SchedExt,
    bore: bool,
    unknown: Seq<char>,
) -> bool {
    &&& r.kernel@ == match uname_release {
        Some(t) => trim_seq(t@),
        None => unknown,
    }
    &&& r.version@ == match version {
        Some(v) => kernel_version_text(v),
        None => unknown,
    }
    &&& r.sched@ == scheduler_label(sched_ext, bore, spec_version_compare(r.version@, "6.6"@))
}

/// Gathers what the badges show of the running kernel from the output of
/// `uname -r`, the kernel version, the sched_ext state and the BORE switch;
/// `unknown` stands in for what could not be had.
pub fn get_running_kernel_info(
    uname_release: Option<String>,
    version: Option<KernelVersion>,
    sched_ext: &SchedExt,
    bore: bool,
    unknown: &str,
) -> (r: RunningKernelInfo)
    ensures
        running_kernel_info_is(r, uname_release, version, *sched_ext, bore, unknown@),
{
    let kernel = match &uname_release {
        Some(t) => trim(t.as_str()),
        None => unknown.to_owned(),
    };
    let version_text = match &version {
        Some(v) => format_kernel_version(v),
        None => unknown.to_owned(),
    };
    let sched = get_current_scheduler(version_text.as_str(), sched_ext, bore);
    RunningKernelInfo { kernel, version: version_text, sched }
}

/// The latest kernel version that a branch database names, `Unknown` where it
/// names none.
pub open spec fn latest_version_text(db: JsonValue) -> Seq<char> {
    match json_str_field(db, "latest_version"@) {
        Some(s) => s,
        None => "Unknown"@,
    }
}

/// The style of the version badges: green when the running kernel is the
/// latest of its branch, red otherwise.
pub open spec fn version_style(running: Seq<char>, latest: Seq<char>) -> Seq<char> {
    if running == latest {
        "background-green-bg"@
    } else {
        "background-red-bg"@
    }
}

/// `b` shows `value` under `label` in `style`.
pub open spec fn badge_is(b: KernelBadge, label: Seq<char>, value: Seq<char>, style: Seq<char>) -> bool {
    b.label@ == label && b.value@ == value && b.style@ == style
}

/// The badges of the main page, in order: branch, latest version, running
/// version, running kernel and running scheduler.
pub open spec fn kernel_badges_are(
    r: Seq<KernelBadge>,
    branch: Seq<char>,
    latest: Seq<char>,
    info: RunningKernelInfo,
) -> bool {
    let style = version_style(info.version@, latest);
    &&& r.len() == 5
    &&& badge_is(r[0], "kernel_badge_branch_label"@, branch, "background-accent-bg"@)
    &&& badge_is(r[1], "kernel_badge_latest_version_label"@, latest, "background-accent-bg"@)
    &&& badge_is(r[2], "kernel_badge_running_version_label"@, info.version@, style)
    &&& badge_is(r[3], "kernel_badge_running_kernel_label"@, info.kernel@, style)
    &&& badge_is(r[4], "kernel_badge_running_sched_label"@, info.sched@, "background-accent-bg"@)
}

/// The latest kernel version that a parsed branch database names.
pub fn latest_kernel_version(db: &JsonValue) -> (r: String)
    ensures
        r@ == latest_version_text(*db),
{
    match json_get_str(db, "latest_version") {
        Some(s) => s,
        None => "Unknown".to_owned(),
    }
}

/// The style of the version badges.
pub fn version_badge_style(running: &str, latest: &str) -> (r: String)
    ensures
        r@ == version_style(running@, latest@),
{
    if str_equal(running, latest) {
        "background-green-bg".to_owned()
    } else {
        "background-red-bg".to_owned()
    }
}

fn badge(label: &str, value: &str, style: &str) -> (r: KernelBadge)
    ensures
        badge_is(r, label@, value@, style@),
{
    KernelBadge { label: label.to_owned(), value: value.to_owned(), style: style.to_owned() }
}

/// The badges of the main page for a branch, the latest version of its
/// database and the running kernel.
pub fn kernel_badges(branch_name: &str, latest: &str, info: &RunningKernelInfo) -> (r: Vec<KernelBadge>)
    ensures
        kernel_badges_are(r@, branch_name@, latest@, *info),
{
    let style = version_badge_style(info.version.as_str(), latest);
    let mut r: Vec<KernelBadge> = Vec::new();
    r.push(badge("kernel_badge_branch_label", branch_name, "background-accent-bg"));
    r.push(badge("kernel_badge_latest_version_label", latest, "background-accent-bg"));
    r.push(badge("kernel_badge_running_version_label", info.version.as_str(), style.as_str()));
    r.push(badge("kernel_badge_running_kernel_label", info.kernel.as_str(), style.as_str()));
    r.push(badge("kernel_badge_running_sched_label", info.sched.as_str(), "background-accent-bg"));
    r
}

/// The badges of the main page from the text of the selected branch's
/// database; `None` where that text is not JSON.
pub fn kernel_badges_from_db(branch_name: &str, db: &str, info: &RunningKernelInfo) -> (r: Option<
    Vec<KernelBadge>,
>)
    ensures
        r is None <==> spec_parse_json(db@) is None,
        r matches Some(bs) ==> kernel_badges_are(
            bs@,
            branch_name@,
            latest_version_text(spec_parse_json(db@).unwrap()),
            *info,
        ),
{
    match parse_json(db) {
        Some(doc) => {
            let latest = latest_kernel_version(&doc);
            Some(kernel_badges(branch_name, latest.as_str(), info))
        },
        None => None,
    }
}

/// The badge of the scheduler page: the running scheduler.
pub fn current_sched_badge(info: &RunningKernelInfo) -> (r: KernelBadge)
    ensures
        badge_is(r, "kernel_badge_running_sched_label"@, info.sched@, "background-accent-bg"@),
{
    badge("kernel_badge_running_sched_label", info.sched.as_str(), "background-accent-bg")
}

/// What a kernel of a branch database reads as: its fields in the order the
/// database is read (`name`, `main_package`, `packages`, `min_x86_march`), the
/// first one missing or not a string giving its error, and `min_x86_march`
/// parsed as a `u32`.
pub open spec fn kernel_entry_is(el: JsonValue, r: Result<KernelDbEntry, KernelDbError>) -> bool {
    match json_str_field(el, "name"@) {
        None => r == Err::<KernelDbEntry, KernelDbError>(KernelDbError::MissingName),
        Some(name) => match json_str_field(el, "main_package"@) {
            None => r == Err::<KernelDbEntry, KernelDbError>(KernelDbError::MissingMainPackage),
            Some(main) => match json_str_field(el, "packages"@) {
                None => r == Err::<KernelDbEntry, KernelDbError>(KernelDbError::MissingPackages),
                Some(packages) => match json_str_field(el, "min_x86_march"@) {
                    None => r == Err::<KernelDbEntry, KernelDbError>(
                        KernelDbError::MissingMinX86March,
                    ),
                    Some(march) => match parse_u32_seq(march) {
                        None => r == Err::<KernelDbEntry, KernelDbError>(
                            KernelDbError::InvalidMinX86March,
                        ),
                        Some(level) => r matches Ok(e) && e.name@ == name && e.main_package@
                            == main && e.packages@ == packages && e.min_x86_march == level,
                    },
                },
            },
        },
    }
}

/// The kernels of a branch database, one result per element of its `kernels`
/// array, in order; none where `kernels` is not an array.
pub open spec fn kernel_entries_are(db: JsonValue, r: Seq<Result<KernelDbEntry, KernelDbError>>) -> bool {
    match json_index(db, "kernels"@) {
        JsonValue::Array(els) => r.len() == els@.len() && forall|i: int|
            0 <= i < r.len() ==> kernel_entry_is(els@[i], #[trigger] r[i]),
        _ => r.len() == 0,
    }
}

/// Reads one kernel of a branch database.
pub fn kernel_entry(el: &JsonValue) -> (r: Result<KernelDbEntry, KernelDbError>)
    ensures
        kernel_entry_is(*el, r),
{
    let name = match json_get_str(el, "name") {
        Some(s) => s,
        None => return Err(KernelDbError::MissingName),
    };
    let main_package = match json_get_str(el, "main_package") {
        Some(s) => s,
        None => return Err(KernelDbError::MissingMainPackage),
    };
    let packages = match json_get_str(el, "packages") {
        Some(s) => s,
        None => return Err(KernelDbError::MissingPackages),
    };
    let march = match json_get_str(el, "min_x86_march") {
        Some(s) => s,
        None => return Err(KernelDbError::MissingMinX86March),
    };
    match parse_u32(march.as_str()) {
        Some(min_x86_march) => Ok(KernelDbEntry { name, main_package, packages, min_x86_march }),
        None => Err(KernelDbError::InvalidMinX86March),
    }
}

/// Reads the kernels of a parsed branch database.
pub fn kernel_db_entries(db: &JsonValue) -> (r: Vec<Result<KernelDbEntry, KernelDbError>>)
    ensures
        kernel_entries_are(*db, r@),
{
    let mut r: Vec<Result<KernelDbEntry, KernelDbError>> = Vec::new();
    match json_get(db, "kernels") {
        Some(JsonValue::Array(els)) => {
            let mut i: usize = 0;
            while i < els.len()
                invariant
                    i <= els@.len(),
                    r@.len() == i,
                    forall|k: int| 0 <= k < i ==> kernel_entry_is(els@[k], #[trigger] r@[k]),
                decreases els@.len() - i,
            {
                let e = kernel_entry(&els[i]);
                r.push(e);
                i = i + 1;
            }
        },
        _ => {},
    }
    r
}

/// Reads the kernels of a branch database from its text; `None` where the text
/// is not JSON.
pub fn kernel_db_entries_from_text(db: &str) -> (r: Option<Vec<Result<KernelDbEntry, KernelDbError>>>)
    ensures
        r is None <==> spec_parse_json(db@) is None,
        r matches Some(es) ==> kernel_entries_are(spec_parse_json(db@).unwrap(), es@),
{
    match parse_json(db) {
        Some(doc) => Some(kernel_db_entries(&doc)),
        None => None,
    }
}

/// A kernel is offered on a machine whose CPU feature level reaches the
/// kernel's minimum x86-64 level.
pub fn kernel_offered(cpu_feature_level: u32, min_x86_march: u32) -> (r: bool)
    ensures
        r == (cpu_feature_level >= min_x86_march),
{
    cpu_feature_level >= min_x86_march
}

/// What a branch of the branch list reads as: `name`, `db_url` and
/// `init_script` in that order, the first one missing or not a string giving
/// its error.
pub open spec fn branch_source_is(el: JsonValue, r: Result<BranchSource, BranchError>) -> bool {
    match json_str_field(el, "name"@) {
        None => r == Err::<BranchSource, BranchError>(BranchError::MissingName),
        Some(name) => match json_str_field(el, "db_url"@) {
            None => r == Err::<BranchSource, BranchError>(BranchError::MissingDbUrl),
            Some(url) => match json_str_field(el, "init_script"@) {
                None => r == Err::<BranchSource, BranchError>(BranchError::MissingInitScript),
                Some(script) => r matches Ok(b) && b.name@ == name && b.db_url@ == url
                    && b.init_script@ == script,
            },
        },
    }
}

/// The branches of a branch list, one result per element of its `branches`
/// array, in order; none where `branches` is not an array.
pub open spec fn branch_sources_are(doc: JsonValue, r: Seq<Result<BranchSource, BranchError>>) -> bool {
    match json_index(doc, "branches"@) {
        JsonValue::Array(els) => r.len() == els@.len() && forall|i: int|
            0 <= i < r.len() ==> branch_source_is(els@[i], #[trigger] r[i]),
        _ => r.len() == 0,
    }
}

/// Reads one branch of the branch list.
pub fn branch_source(el: &JsonValue) -> (r: Result<BranchSource, BranchError>)
    ensures
        branch_source_is(*el, r),
{
    let name = match json_get_str(el, "name") {
        Some(s) => s,
        None => return Err(BranchError::MissingName),
    };
    let db_url = match json_get_str(el, "db_url") {
        Some(s) => s,
        None => return Err(BranchError::MissingDbUrl),
    };
    match json_get_str(el, "init_script") {
        Some(init_script) => Ok(BranchSource { name, db_url, init_script }),
        None => Err(BranchError::MissingInitScript),
    }
}

/// Reads the branches of a parsed branch list.
pub fn branch_sources(doc: &JsonValue) -> (r: Vec<Result<BranchSource, BranchError>>)
    ensures
        branch_sources_are(*doc, r@),
{
    let mut r: Vec<Result<BranchSource, BranchError>> = Vec::new();
    match json_get(doc, "branches") {
        Some(JsonValue::Array(els)) => {
            let mut i: usize = 0;
            while i < els.len()
                invariant
                    i <= els@.len(),
                    r@.len() == i,
                    forall|k: int| 0 <= k < i ==> branch_source_is(els@[k], #[trigger] r@[k]),
                decreases els@.len() - i,
            {
                let b = branch_source(&els[i]);
                r.push(b);
                i = i + 1;
            }
        },
        _ => {},
    }
    r
}

/// Reads the branches of the branch list from its text; `None` where the text
/// is not JSON.
pub fn branch_sources_from_text(text: &str) -> (r: Option<Vec<Result<BranchSource, BranchError>>>)
    ensures
        r is None <==> spec_parse_json(text@) is None,
        r matches Some(bs) ==> branch_sources_are(spec_parse_json(text@).unwrap(), bs@),
{
    match parse_json(text) {
        Some(doc) => Some(branch_sources(&doc)),
        None => None,
    }
}

/// A branch together with the database that was fetched for it.
pub fn kernel_branch(source: BranchSource, db: String) -> (r: KernelBranch)
    ensures
        r.name == source.name,
        r.db_url == source.db_url,
        r.init_script == source.init_script,
        r.db == db,
{
    KernelBranch { name: source.name, db_url: source.db_url, db, init_script: source.init_script }
}

/// The CPU feature level name from the dynamic loader's list of supported
/// levels (the lines that say `(supported, searched)`): the first such line
/// without that note and without surrounding white space, `x86-64-v1` when
/// there is none.
pub open spec fn cpu_level_name(grep_output: Seq<char>) -> Seq<char> {
    match first_line_seq(grep_output) {
        Some(l) => trim_seq(trim_end_matches_seq(l, "(supported, searched)"@)),
        None => "x86-64-v1"@,
    }
}

/// The CPU feature level number for its name: 4, 3 and 2 for `x86-64-v4`,
/// `x86-64-v3` and `x86-64-v2`, and 1 for anything else.
pub open spec fn cpu_level_number(name: Seq<char>) -> u32 {
    if name == "x86-64-v4"@ {
        4
    } else if name == "x86-64-v3"@ {
        3
    } else if name == "x86-64-v2"@ {
        2
    } else {
        1
    }
}

/// Reads the CPU feature level name from the dynamic loader's supported levels.
pub fn cpu_feature_level_name(grep_output: &str) -> (r: String)
    ensures
        r@ == cpu_level_name(grep_output@),
{
    match first_line(grep_output) {
        Some(l) => {
            proof {
                reveal_strlit("(supported, searched)");
            }
            let stripped = trim_end_matches(l.as_str(), "(supported, searched)");
            trim(stripped.as_str())
        },
        None => "x86-64-v1".to_owned(),
    }
}

/// The CPU feature level number for its name.
pub fn cpu_feature_level(name: &str) -> (r: u32)
    ensures
        r == cpu_level_number(name@),
{
    if str_equal(name, "x86-64-v4") {
        4
    } else if str_equal(name, "x86-64-v3") {
        3
    } else if str_equal(name, "x86-64-v2") {
        2
    } else {
        1
    }
}

/// A branch is the saved choice when the saved file exists, holds exactly the
/// branch's name and is empty (as the check is written, only a branch with an
/// empty name can pass it); otherwise the first branch is chosen.
pub fn saved_branch_selects(saved: &Option<SavedBranch>, branch_name: &str) -> (r: bool)
    ensures
        r == (saved matches Some(sb) && sb.content@ == branch_name@ && sb.byte_len == 0),
{
    match saved {
        Some(sb) => str_equal(sb.content.as_str(), branch_name) && sb.byte_len == 0,
        None => false,
    }
}


/// The version text is the decimal major and minor numbers joined by a dot,
/// followed by a dot and the decimal patch number exactly when the patch level
/// is not 0; every number appears in full.
pub proof fn lemma_kernel_version_text_parts(v: KernelVersion)
    ensures
        v.patch != 0 ==> kernel_version_text(v) == decimal_seq(v.major as nat) + "."@ + decimal_seq(
            v.minor as nat,
        ) + "."@ + decimal_seq(v.patch as nat),
        v.patch == 0 ==> kernel_version_text(v) == decimal_seq(v.major as nat) + "."@ + decimal_seq(
            v.minor as nat,
        ),
        v.patch != 0 ==> has_suffix(kernel_version_text(v), "."@ + decimal_seq(v.patch as nat)),
{
    if v.patch != 0 {
        let t = kernel_version_text(v);
        let p = "."@ + decimal_seq(v.patch as nat);
        let h = decimal_seq(v.major as nat) + "."@ + decimal_seq(v.minor as nat);
        assert(t =~= h + p);
        assert(t.subrange(t.len() - p.len(), t.len() as int) =~= p);
    }
}

/// Each badge shows its own fact: the branch, the latest version, the running
/// version, the running kernel and the running scheduler; the two running
/// badges share a style, green exactly when the running version is the latest.
pub proof fn lemma_badges_show_their_facts(
    r: Seq<KernelBadge>,
    branch: Seq<char>,
    latest: Seq<char>,
    info: RunningKernelInfo,
)
    requires
        kernel_badges_are(r, branch, latest, info),
    ensures
        r.len() == 5,
        r[0].label@ == "kernel_badge_branch_label"@,
        r[1].label@ == "kernel_badge_latest_version_label"@,
        r[2].label@ == "kernel_badge_running_version_label"@,
        r[3].label@ == "kernel_badge_running_kernel_label"@,
        r[4].label@ == "kernel_badge_running_sched_label"@,
        r[0].style@ == "background-accent-bg"@,
        r[1].style@ == "background-accent-bg"@,
        r[4].style@ == "background-accent-bg"@,
        r[0].value@ == branch,
        r[1].value@ == latest,
        r[2].value@ == info.version@,
        r[3].value@ == info.kernel@,
        r[4].value@ == info.sched@,
        r[2].style@ == r[3].style@,
        (r[2].style@ == "background-green-bg"@) <==> (info.version@ == latest),
        info.version@ != latest ==> r[2].style@ == "background-red-bg"@,
{
    reveal_strlit("background-green-bg");
    reveal_strlit("background-red-bg");
    assert("background-green-bg"@[11] != "background-red-bg"@[11]);
}

/// A kernel that reads without error carries its fields as the database
/// writes them, and its minimum level is the number that its `min_x86_march`
/// text spells: a decimal text of `n` reads as `n`.
pub proof fn lemma_kernel_entry_fields(el: JsonValue, e: KernelDbEntry, n: u32)
    requires
        kernel_entry_is(el, Ok(e)),
    ensures
        json_str_field(el, "name"@) == Some(e.name@),
        json_str_field(el, "main_package"@) == Some(e.main_package@),
        json_str_field(el, "packages"@) == Some(e.packages@),
        json_str_field(el, "min_x86_march"@) matches Some(m) && parse_u32_seq(m) == Some(e.min_x86_march),
        json_str_field(el, "min_x86_march"@) == Some(decimal_seq(n as nat)) ==> e.min_x86_march == n,
{
    lemma_parse_decimal_u32(n);
}


/// A kernel entry without a string name reads as a missing name, whatever
/// else it holds; one with all fields but an unreadable minimum level reads as
/// an invalid minimum level.
pub proof fn lemma_kernel_entry_errors(el: JsonValue, r: Result<KernelDbEntry, KernelDbError>)
    requires
        kernel_entry_is(el, r),
    ensures
        json_str_field(el, "name"@) is None ==> r == Err::<KernelDbEntry, KernelDbError>(
            KernelDbError::MissingName,
        ),
        (json_str_field(el, "name"@) is Some && json_str_field(el, "main_package"@) is Some
            && json_str_field(el, "packages"@) is Some && json_str_field(el, "min_x86_march"@) is Some
            && parse_u32_seq(json_str_field(el, "min_x86_march"@).unwrap()) is None) ==> r == Err::<KernelDbEntry, KernelDbError>(
            KernelDbError::InvalidMinX86March,
        ),
        r is Ok ==> json_str_field(el, "name"@) is Some && json_str_field(el, "main_package"@) is Some
            && json_str_field(el, "packages"@) is Some && json_str_field(el, "min_x86_march"@) is Some,
{
}

/// A branch that reads without error carries its fields as the branch list
/// writes them; one without a string name reads as a missing name.
pub proof fn lemma_branch_source_fields(el: JsonValue, r: Result<BranchSource, BranchError>)
    requires
        branch_source_is(el, r),
    ensures
        r matches Ok(b) ==> json_str_field(el, "name"@) == Some(b.name@) && json_str_field(
            el,
            "db_url"@,
        ) == Some(b.db_url@) && json_str_field(el, "init_script"@) == Some(b.init_script@),
        json_str_field(el, "name"@) is None ==> r == Err::<BranchSource, BranchError>(
            BranchError::MissingName,
        ),
{
}

/// The latest version is the database's `latest_version` text, and `Unknown`
/// when it has none.
pub proof fn lemma_latest_version(db: JsonValue)
    ensures
        json_str_field(db, "latest_version"@) matches Some(s) ==> latest_version_text(db) == s,
        json_str_field(db, "latest_version"@) is None ==> latest_version_text(db) == "Unknown"@,
{
}

/// The CPU feature levels 2 to 4 have their numbers, every other name counts
/// as level 1, and no level lies outside 1 to 4.
pub proof fn lemma_cpu_level_numbers(name: Seq<char>)
    ensures
        cpu_level_number("x86-64-v4"@) == 4,
        cpu_level_number("x86-64-v3"@) == 3,
        cpu_level_number("x86-64-v2"@) == 2,
        name != "x86-64-v4"@ && name != "x86-64-v3"@ && name != "x86-64-v2"@ ==> cpu_level_number(name) == 1,
        1 <= cpu_level_number(name) <= 4,
{
    reveal_strlit("x86-64-v4");
    reveal_strlit("x86-64-v3");
    reveal_strlit("x86-64-v2");
    assert("x86-64-v4"@[8] != "x86-64-v3"@[8]);
    assert("x86-64-v4"@[8] != "x86-64-v2"@[8]);
    assert("x86-64-v3"@[8] != "x86-64-v2"@[8]);
}

} // verus!
