//! `add`: from the requested names to what was installed.

use vstd::prelude::*;
use crate::api::types::{self, Package, RemoteManifest};
use crate::commands::{Message, MessageView};
use crate::commands::package;
use crate::commands::package::summary::{self, Summary, SummaryView};
use crate::foundry::PackageType;
use crate::foundry::local::{Installed, VersionField};
use crate::foundry::version::{self, Comparison};
use crate::index::Snapshot;
use crate::install::{self, Job, JobView, Recovery};
use crate::resolve::{self, Plan};
use crate::text;
use crate::ui;

verus! {

/// The warnings about what a recovery sweep found and did.
pub open spec fn recovery_warnings(recovery: Recovery) -> Seq<Seq<char>> {
    recovery.restored@.map_values(
        |name: String| "restored `"@ + name@ + "`, left behind by an interrupted operation"@,
    ) + recovery.failed@.map_values(
        |entry: (String, String)|
            "could not recover the backup of `"@ + entry.0@ + "`: "@ + entry.1@,
    )
}

/// Warns about whatever the crash-recovery sweep found and did.
#[must_use]
pub fn report_recovery(recovery: &Recovery) -> (warnings: Vec<String>)
    ensures
        text::views(warnings@) == recovery_warnings(*recovery),
{
    let mut warnings: Vec<String> = Vec::new();
    let ghost expected = recovery_warnings(*recovery);
    let mut i: usize = 0;
    assert(text::views(warnings@) =~= expected.take(0));
    while i < recovery.restored.len()
        invariant
            expected == recovery_warnings(*recovery),
            0 <= i <= recovery.restored@.len(),
            text::views(warnings@) == expected.take(i as int),
        decreases recovery.restored@.len() - i,
    {
        let mut warning = "restored `".to_owned();
        warning.append(recovery.restored[i].as_str());
        warning.append("`, left behind by an interrupted operation");
        let ghost shorter = text::views(warnings@);
        let ghost added = warning@;
        warnings.push(warning);
        assert(text::views(warnings@) =~= shorter.push(added));
        assert(text::views(warnings@) =~= expected.take(i + 1));
        i = i + 1;
    }
    let count = recovery.restored.len();
    let mut i: usize = 0;
    while i < recovery.failed.len()
        invariant
            expected == recovery_warnings(*recovery),
            count == recovery.restored@.len(),
            0 <= i <= recovery.failed@.len(),
            text::views(warnings@) == expected.take(count + i),
        decreases recovery.failed@.len() - i,
    {
        let mut warning = "could not recover the backup of `".to_owned();
        warning.append(recovery.failed[i].0.as_str());
        warning.append("`: ");
        warning.append(recovery.failed[i].1.as_str());
        let ghost shorter = text::views(warnings@);
        let ghost added = warning@;
        warnings.push(warning);
        assert(text::views(warnings@) =~= shorter.push(added));
        assert(text::views(warnings@) =~= expected.take(count + i + 1));
        i = i + 1;
    }
    assert(expected.take(count + i) =~= expected);
    warnings
}

/// The warning about a package that requires a newer `FoundryVTT` core than
/// the assumed version, if it does.
pub open spec fn core_warning(package: Package, assumed: Seq<char>) -> Option<Seq<char>> {
    match package.version.required_core_version {
        Some(required) => if required@.len() > 0 && version::older(assumed, required@) {
            Some(
                package.name@ + " requires FoundryVTT core "@ + required@
                    + ", newer than the assumed "@ + assumed + " — it may not work"@,
            )
        } else {
            None
        },
        None => None,
    }
}

/// Warns when a package requires a newer `FoundryVTT` core than the version
/// that is assumed.
#[must_use]
pub fn warn_core_compatibility(package: &Package, assumed: &str) -> (warning: Option<String>)
    ensures
        match warning {
            Some(text) => core_warning(*package, assumed@) == Some(text@),
            None => core_warning(*package, assumed@) is None,
        },
{
    match &package.version.required_core_version {
        Some(required) => {
            if required.as_str().unicode_len() == 0 {
                return None;
            }
            match version::compare(assumed, required.as_str()) {
                std::cmp::Ordering::Less => {
                    let mut warning = package.name.clone();
                    warning.append(" requires FoundryVTT core ");
                    warning.append(required.as_str());
                    warning.append(", newer than the assumed ");
                    warning.append(assumed);
                    warning.append(" — it may not work");
                    Some(warning)
                },
                _ => None,
            }
        },
        None => None,
    }
}

/// Why a package cannot be installed, by what it is; nothing when it can.
pub open spec fn refusal(package: Package, snapshot: Snapshot) -> Option<Seq<char>> {
    if !package.is_protected {
        None
    } else if snapshot.owns(package.id) {
        Some("protected packages are not supported yet"@)
    } else {
        Some("protected; purchase required"@)
    }
}

/// Why a package cannot be installed, by what it is; nothing when it can.
fn refuse(package: &Package, snapshot: &Snapshot) -> (reason: Option<&'static str>)
    ensures
        match reason {
            Some(text) => refusal(*package, *snapshot) == Some(text@),
            None => refusal(*package, *snapshot) is None,
        },
{
    if !package.is_protected {
        None
    } else if snapshot.is_owned(package.id) {
        Some("protected packages are not supported yet")
    } else {
        Some("protected; purchase required")
    }
}

/// What becomes of a requested name.
pub enum Choice {
    /// It was requested before.
    Repeated,
    /// It fails at once, with the reason.
    Failed(Seq<char>),
    /// It is up to date, at this version.
    Current(Seq<char>),
    /// The package is to be installed.
    Wanted(Package),
}

/// What becomes of a requested name, given those in front of it; an update
/// asks for an installed package.
pub open spec fn choice(
    earlier: Seq<Seq<char>>,
    name: Seq<char>,
    snapshot: Snapshot,
    installed: Seq<Installed>,
    update: bool,
) -> Choice {
    if earlier.contains(name) {
        Choice::Repeated
    } else if update && package::installed_as(installed, name) is None {
        Choice::Failed("not installed"@)
    } else {
        match types::first_named(snapshot.packages@, name) {
            None => Choice::Failed("not found in the index"@),
            Some(package) => match refusal(package, snapshot) {
                Some(reason) => Choice::Failed(reason),
                None => match package::installed_as(installed, name) {
                    Some(local) if package::status_of(local, package) == Comparison::Same => Choice::Current(
                        package.version.version@,
                    ),
                    _ => Choice::Wanted(package),
                },
            },
        }
    }
}

/// What a selection of requested names comes to.
#[verifier::ext_equal]
pub struct SelectionView {
    /// The packages that actually need installing.
    pub requests: Seq<Package>,
    /// What the user is warned about.
    pub warnings: Seq<Seq<char>>,
    /// The summary, with the immediate successes and failures.
    pub summary: SummaryView,
}

impl SelectionView {
    /// This selection after one more name.
    pub open spec fn with(self, name: Seq<char>, choice: Choice, assumed: Seq<char>) -> SelectionView {
        match choice {
            Choice::Repeated => self,
            Choice::Failed(reason) => SelectionView {
                summary: self.summary.with_failure(name, "-"@, reason),
                ..self
            },
            Choice::Current(version) => SelectionView {
                summary: self.summary.with_ok(name, version, "already up to date"@),
                ..self
            },
            Choice::Wanted(package) => SelectionView {
                requests: self.requests.push(package),
                warnings: match core_warning(package, assumed) {
                    Some(warning) => self.warnings.push(warning),
                    None => self.warnings,
                },
                ..self
            },
        }
    }
}

/// The selection of the requested names, to be installed or updated.
pub open spec fn selection(
    names: Seq<Seq<char>>,
    snapshot: Snapshot,
    installed: Seq<Installed>,
    assumed: Seq<char>,
    update: bool,
    summary: SummaryView,
) -> SelectionView
    decreases names.len(),
{
    if names.len() == 0 {
        SelectionView { requests: Seq::empty(), warnings: Seq::empty(), summary }
    } else {
        let init = names.drop_last();
        let name = names.last();
        selection(init, snapshot, installed, assumed, update, summary).with(
            name,
            choice(init, name, snapshot, installed, update),
            assumed,
        )
    }
}

/// The packages behind a list of references.
pub open spec fn packages_of(packages: Seq<&Package>) -> Seq<Package> {
    packages.map_values(|package: &Package| *package)
}

/// Whether one of the first names is a text.
pub(crate) fn is_repeated(names: &Vec<String>, count: usize, name: &str) -> (repeated: bool)
    requires
        count <= names@.len(),
    ensures
        repeated == text::views(names@).take(count as int).contains(name@),
{
    let ghost earlier = text::views(names@).take(count as int);
    let mut i: usize = 0;
    while i < count
        invariant
            count <= names@.len(),
            earlier == text::views(names@).take(count as int),
            0 <= i <= count,
            forall|k: int| 0 <= k < i ==> #[trigger] earlier[k] != name@,
        decreases count - i,
    {
        assert(earlier[i as int] == names@[i as int]@);
        if text::same(names[i].as_str(), name) {
            return true;
        }
        i = i + 1;
    }
    false
}

/// Validates the requested names against the index and installed state,
/// recording immediate successes/failures in the summary and returning the
/// packages that actually need installing, and what to warn about.
pub fn select_install_requests<'a>(
    names: &Vec<String>,
    snapshot: &'a Snapshot,
    installed: &Vec<Installed>,
    assumed: &str,
    summary: &mut Summary,
) -> (selected: (Vec<&'a Package>, Vec<String>))
    ensures
        (SelectionView {
            requests: packages_of(selected.0@),
            warnings: text::views(selected.1@),
            summary: final(summary)@,
        }) == selection(
            text::views(names@),
            *snapshot,
            installed@,
            assumed@,
            false,
            old(summary)@,
        ),
{
    select(names, snapshot, installed, assumed, false, summary)
}

/// Validates the requested names, to be installed or updated.
pub(crate) fn select<'a>(
    names: &Vec<String>,
    snapshot: &'a Snapshot,
    installed: &Vec<Installed>,
    assumed: &str,
    update: bool,
    summary: &mut Summary,
) -> (selected: (Vec<&'a Package>, Vec<String>))
    ensures
        (SelectionView {
            requests: packages_of(selected.0@),
            warnings: text::views(selected.1@),
            summary: final(summary)@,
        }) == selection(
            text::views(names@),
            *snapshot,
            installed@,
            assumed@,
            update,
            old(summary)@,
        ),
{
    let ghost all = text::views(names@);
    let ghost start = summary@;
    let mut requests: Vec<&'a Package> = Vec::new();
    let mut warnings: Vec<String> = Vec::new();
    let mut i: usize = 0;
    assert(all.take(0) =~= Seq::empty());
    assert(packages_of(requests@) =~= Seq::empty());
    assert(text::views(warnings@) =~= Seq::empty());
    while i < names.len()
        invariant
            all == text::views(names@),
            start == old(summary)@,
            0 <= i <= all.len(),
            packages_of(requests@) == selection(
                all.take(i as int),
                *snapshot,
                installed@,
                assumed@,
                update,
                start,
            ).requests,
            text::views(warnings@) == selection(
                all.take(i as int),
                *snapshot,
                installed@,
                assumed@,
                update,
                start,
            ).warnings,
            summary@ == selection(
                all.take(i as int),
                *snapshot,
                installed@,
                assumed@,
                update,
                start,
            ).summary,
        decreases all.len() - i,
    {
        assert(all.take(i + 1).drop_last() =~= all.take(i as int));
        assert(all.take(i + 1).last() == names@[i as int]@);
        let name = names[i].as_str();
        let repeated = is_repeated(names, i, name);
        i = i + 1;
        if repeated {
            continue;
        }
        let local = package::find_installed(installed, name);
        if update && local.is_none() {
            summary.fail(name, "-", "not installed");
            continue;
        }
        let package = match types::find(&snapshot.packages, name) {
            Some(package) => package,
            None => {
                summary.fail(name, "-", "not found in the index");
                continue;
            },
        };
        if let Some(reason) = refuse(package, snapshot) {
            summary.fail(name, "-", reason);
            continue;
        }
        if let Some(local) = local {
            if let Comparison::Same = package::version_status(local, package) {
                summary.ok(name, package.version.version.as_str(), "already up to date");
                continue;
            }
        }
        if let Some(warning) = warn_core_compatibility(package, assumed) {
            let ghost shorter = text::views(warnings@);
            let ghost added = warning@;
            warnings.push(warning);
            assert(text::views(warnings@) =~= shorter.push(added));
        }
        let ghost fewer = packages_of(requests@);
        requests.push(package);
        assert(packages_of(requests@) =~= fewer.push(*package));
    }
    assert(all.take(i as int) =~= all);
    (requests, warnings)
}

/// The job for a package whose manifest was fetched, or why there is none.
pub open spec fn job_or_reason(
    kind: PackageType,
    package: Package,
    fetched: Result<RemoteManifest, String>,
) -> Result<JobView, Seq<char>> {
    match fetched {
        Ok(manifest) => resolve::free_job(kind, package, manifest),
        Err(error) => Err("manifest fetch failed: "@ + error@),
    }
}

/// Resolves a package's manifest into an installable [`Job`].
///
/// # Errors
///
/// Returns a human-readable reason when the manifest could not be fetched,
/// declares no download URL, or belongs to a different package.
pub fn resolve_job(kind: PackageType, package: &Package, fetched: Result<RemoteManifest, String>) -> (
job: Result<Job, String>)
    ensures
        match job {
            Ok(job) => job_or_reason(kind, *package, fetched) == Ok::<JobView, Seq<char>>(job@),
            Err(reason) => job_or_reason(kind, *package, fetched) == Err::<JobView, Seq<char>>(
                reason@,
            ),
        },
{
    match fetched {
        Ok(manifest) => resolve::job_from_manifest(kind, package, &manifest),
        Err(error) => {
            let mut reason = "manifest fetch failed: ".to_owned();
            reason.append(error.as_str());
            Err(reason)
        },
    }
}

/// The jobs among the resolved packages.
pub open spec fn jobs_in(resolved: Seq<(String, Result<Job, String>)>) -> Seq<Job>
    decreases resolved.len(),
{
    if resolved.len() == 0 {
        Seq::empty()
    } else {
        let init = jobs_in(resolved.drop_last());
        match resolved.last().1 {
            Ok(job) => init.push(job),
            Err(_) => init,
        }
    }
}

/// A summary with the packages that could not be resolved.
pub open spec fn with_unresolved(
    summary: SummaryView,
    resolved: Seq<(String, Result<Job, String>)>,
) -> SummaryView
    decreases resolved.len(),
{
    if resolved.len() == 0 {
        summary
    } else {
        let init = with_unresolved(summary, resolved.drop_last());
        match resolved.last() {
            (name, Err(reason)) => init.with_failure(name@, "-"@, reason@),
            _ => init,
        }
    }
}

/// Collects the jobs of the resolved packages; failures land in the summary.
pub fn resolve_jobs(resolved: Vec<(String, Result<Job, String>)>, summary: &mut Summary) -> (
jobs: Vec<Job>)
    ensures
        jobs@ == jobs_in(resolved@),
        final(summary)@ == with_unresolved(old(summary)@, resolved@),
{
    let ghost all = resolved@;
    let ghost start = summary@;
    let mut jobs: Vec<Job> = Vec::new();
    let ghost mut seen: int = 0;
    assert(all.take(0) =~= Seq::empty());
    for entry in it: resolved
        invariant
            it.seq() == all,
            seen == it.index(),
            start == old(summary)@,
            jobs@ == jobs_in(all.take(it.index() as int)),
            summary@ == with_unresolved(start, all.take(it.index() as int)),
    {
        proof {
            assert(all.take(seen + 1).drop_last() =~= all.take(seen));
            assert(all.take(seen + 1).last() == entry);
            seen = seen + 1;
        }
        match entry {
            (_, Ok(job)) => jobs.push(job),
            (name, Err(reason)) => summary.fail(name.as_str(), "-", reason.as_str()),
        }
    }
    assert(all.take(seen) =~= all);
    jobs
}

/// A summary with the requested packages that failed to resolve.
pub open spec fn with_failures(summary: SummaryView, failures: Seq<(Seq<char>, Seq<char>)>) -> SummaryView
    decreases failures.len(),
{
    if failures.len() == 0 {
        summary
    } else {
        with_failures(summary, failures.drop_last()).with_failure(
            failures.last().0,
            "-"@,
            failures.last().1,
        )
    }
}

/// The names of jobs.
pub open spec fn job_names(jobs: Seq<Job>) -> Seq<Seq<char>> {
    jobs.map_values(|job: Job| job@.name)
}

/// The question about the recommended packages of a plan, all in one; nothing
/// when none is recommended or nobody can answer. Recommendations are never
/// accepted unasked, not even by `--yes`.
#[must_use]
pub fn offer_recommended(plan: &Plan, reporter: &ui::Reporter) -> (prompt: Option<String>)
    ensures
        if plan.recommended@.len() == 0 || !reporter.prompts() {
            prompt is None
        } else {
            prompt matches Some(text) && text@ == "also install recommended "@ + text::joined(
                job_names(plan.recommended@),
                ", "@,
            ) + "?"@
        },
{
    if plan.recommended.len() == 0 || !reporter.is_interactive() {
        return None;
    }
    let ghost all = job_names(plan.recommended@);
    let mut names: Vec<String> = Vec::new();
    let mut i: usize = 0;
    assert(text::views(names@) =~= all.take(0));
    while i < plan.recommended.len()
        invariant
            all == job_names(plan.recommended@),
            0 <= i <= plan.recommended@.len(),
            text::views(names@) == all.take(i as int),
        decreases plan.recommended@.len() - i,
    {
        let ghost shorter = text::views(names@);
        names.push(plan.recommended[i].name.clone());
        assert(text::views(names@) =~= shorter.push(plan.recommended@[i as int].name@));
        assert(text::views(names@) =~= all.take(i + 1));
        i = i + 1;
    }
    assert(all.take(i as int) =~= all);
    let mut prompt = "also install recommended ".to_owned();
    let list = text::join(&names, ", ");
    prompt.append(list.as_str());
    prompt.append("?");
    Some(prompt)
}

/// The jobs of a plan: the recommended ones only when they were accepted.
pub open spec fn accepted_jobs(plan: Plan, recommended: bool) -> Seq<Job> {
    if recommended {
        plan.requested@ + plan.required@ + plan.recommended@
    } else {
        plan.requested@ + plan.required@
    }
}

/// Takes the jobs out of a plan, the recommended ones only when they were
/// accepted; failures land in the summary.
pub fn adopt_plan(plan: Plan, recommended: bool, summary: &mut Summary) -> (jobs: Vec<Job>)
    ensures
        jobs@ == accepted_jobs(plan, recommended),
        final(summary)@ == with_failures(old(summary)@, plan@.failures),
{
    let ghost start = summary@;
    let ghost all = plan@.failures;
    let Plan { requested, required, recommended: optional, warnings: _, failures } = plan;
    let mut i: usize = 0;
    assert(all.take(0) =~= Seq::empty());
    while i < failures.len()
        invariant
            all == text::pair_views(failures@),
            start == old(summary)@,
            0 <= i <= failures@.len(),
            summary@ == with_failures(start, all.take(i as int)),
        decreases failures@.len() - i,
    {
        assert(all.take(i + 1).drop_last() =~= all.take(i as int));
        assert(all.take(i + 1).last() == (failures@[i as int].0@, failures@[i as int].1@));
        summary.fail(failures[i].0.as_str(), "-", failures[i].1.as_str());
        i = i + 1;
    }
    assert(all.take(i as int) =~= all);
    let mut jobs = requested;
    let mut required = required;
    jobs.append(&mut required);
    if recommended {
        let mut optional = optional;
        jobs.append(&mut optional);
    }
    jobs
}

/// Records what came of downloading and installing a job, and tells about a
/// success.
pub fn record_outcome(job: &Job, outcome: Result<(), install::Error>, summary: &mut Summary) -> (
message: Option<Message>)
    ensures
        match outcome {
            Ok(()) => final(summary)@ == old(summary)@.with_ok(
                job@.name,
                job@.version,
                "installed"@,
            ) && (message matches Some(told) && told@ == MessageView::Detail(
                "installed "@ + job@.name + " "@ + job@.version,
            )),
            Err(error) => final(summary)@ == old(summary)@.with_failure(
                job@.name,
                job@.version,
                text::joined(seq![error@.text()] + error@.causes(), ": "@),
            ) && message is None,
        },
{
    match outcome {
        Ok(()) => {
            let mut line = "installed ".to_owned();
            line.append(job.name.as_str());
            line.append(" ");
            line.append(job.version.as_str());
            summary.ok(job.name.as_str(), job.version.as_str(), "installed");
            Some(Message::Detail(line))
        },
        Err(error) => {
            let chain = summary::error_chain(&error);
            summary.fail(job.name.as_str(), job.version.as_str(), chain.as_str());
            None
        },
    }
}

/// Every requested name is accounted for: it is to be installed or stands in
/// the summary, however often it was requested.
pub proof fn every_name_is_accounted_for(
    names: Seq<Seq<char>>,
    snapshot: Snapshot,
    installed: Seq<Installed>,
    assumed: Seq<char>,
    update: bool,
    summary: SummaryView,
    name: Seq<char>,
)
    requires
        names.contains(name),
    ensures
        ({
            let selected = selection(names, snapshot, installed, assumed, update, summary);
            ||| exists|i: int|
                0 <= i < selected.requests.len() && (#[trigger] selected.requests[i]).name@ == name
            ||| exists|i: int|
                0 <= i < selected.summary.rows.len() && (#[trigger] selected.summary.rows[i]).name
                    == name
        }),
    decreases names.len(),
{
    let init = names.drop_last();
    let before = selection(init, snapshot, installed, assumed, update, summary);
    let after = selection(names, snapshot, installed, assumed, update, summary);
    if init.contains(name) {
        every_name_is_accounted_for(init, snapshot, installed, assumed, update, summary, name);
        if exists|i: int|
            0 <= i < before.requests.len() && (#[trigger] before.requests[i]).name@ == name {
            let i = choose|i: int|
                0 <= i < before.requests.len() && (#[trigger] before.requests[i]).name@ == name;
            assert(after.requests[i] == before.requests[i]);
        } else {
            let i = choose|i: int|
                0 <= i < before.summary.rows.len() && (#[trigger] before.summary.rows[i]).name
                    == name;
            assert(after.summary.rows[i] == before.summary.rows[i]);
        }
    } else {
        let at = choose|i: int| 0 <= i < names.len() && names[i] == name;
        if at < init.len() {
            assert(init[at] == name);
        }
        match choice(init, name, snapshot, installed, update) {
            Choice::Wanted(package) => {
                types::first_named_is_listed(snapshot.packages@, name);
                assert(after.requests[before.requests.len() as int].name@ == name);
            },
            _ => {
                assert(after.summary.rows[before.summary.rows.len() as int].name == name);
            },
        }
    }
}

/// Whether a package is installed under an id.
pub open spec fn is_installed(installed: Seq<Installed>, id: Seq<char>) -> bool {
    exists|i: int| 0 <= i < installed.len() && (#[trigger] installed[i]).id@ == id
}

/// Whether the package installed under an id declares a version.
pub open spec fn is_installed_at(
    installed: Seq<Installed>,
    id: Seq<char>,
    version: Seq<char>,
) -> bool {
    exists|i: int| #[trigger]
        package::stands_for(installed, id, i) && (installed[i].version matches Some(declared)
            && declared@ == version)
}

/// Whether a package has to be installed: it is free, an update finds it
/// installed, and the version of the index is not installed yet.
pub open spec fn is_due(package: Package, installed: Seq<Installed>, update: bool) -> bool {
    &&& !package.is_protected
    &&& update ==> is_installed(installed, package.name@)
    &&& !is_installed_at(installed, package.name@, package.version.version@)
}

/// What becomes of a name that was not requested before.
proof fn new_names_are_judged(
    earlier: Seq<Seq<char>>,
    name: Seq<char>,
    snapshot: Snapshot,
    installed: Seq<Installed>,
    update: bool,
    at: int,
)
    requires
        !earlier.contains(name),
        types::stands_first(snapshot.packages@, name, at),
    ensures
        is_due(snapshot.packages@[at], installed, update) ==> choice(
            earlier,
            name,
            snapshot,
            installed,
            update,
        ) == Choice::Wanted(snapshot.packages@[at]),
        !is_due(snapshot.packages@[at], installed, update) && !snapshot.packages@[at].is_protected
            && is_installed(installed, name) ==> choice(earlier, name, snapshot, installed, update)
            == Choice::Current(snapshot.packages@[at].version.version@),
        !is_due(snapshot.packages@[at], installed, update) && (snapshot.packages@[at].is_protected
            || !is_installed(installed, name)) ==> choice(
            earlier,
            name,
            snapshot,
            installed,
            update,
        ) is Failed,
{
    let package = snapshot.packages@[at];
    types::packages_are_found_by_name(snapshot.packages@, name);
    package::installed_packages_are_found_by_id(installed, name);
    match package::installed_as(installed, name) {
        None => {
            assert(!is_installed(installed, name));
            assert(!is_installed_at(installed, name, package.version.version@));
        },
        Some(local) => {
            let i = choose|i: int| #[trigger]
                package::stands_for(installed, name, i) && installed[i] == local;
            assert(installed[i].id@ == name);
            package::statuses_go_by_versions(local, package);
            assert(is_installed_at(installed, name, package.version.version@) <==> (
            local.version matches Some(declared) && declared@ == package.version.version@));
        },
    }
}

/// A package of the index is selected just when it was requested and has to be
/// installed: it is free, an update finds it installed, and the version of the
/// index is not installed yet. A requested package that does not have to be
/// installed stands in the summary instead, as a success just when that version
/// is installed and the package is free.
pub proof fn requested_packages_are_selected(
    names: Seq<Seq<char>>,
    snapshot: Snapshot,
    installed: Seq<Installed>,
    assumed: Seq<char>,
    update: bool,
    summary: SummaryView,
    name: Seq<char>,
    at: int,
)
    requires
        types::stands_first(snapshot.packages@, name, at),
    ensures
        ({
            let selected = selection(names, snapshot, installed, assumed, update, summary);
            let package = snapshot.packages@[at];
            &&& selected.requests.contains(package) <==> names.contains(name) && is_due(
                package,
                installed,
                update,
            )
            &&& names.contains(name) && !is_due(package, installed, update) ==> has_row(
                selected.summary,
                summary.rows.len(),
                name,
                if !package.is_protected && is_installed(installed, name) {
                    "✓"@
                } else {
                    "✗"@
                },
            )
        }),
    decreases names.len(),
{
    let selected = selection(names, snapshot, installed, assumed, update, summary);
    let package = snapshot.packages@[at];
    if names.len() > 0 {
        let init = names.drop_last();
        let last = names.last();
        let before = selection(init, snapshot, installed, assumed, update, summary);
        requested_packages_are_selected(
            init,
            snapshot,
            installed,
            assumed,
            update,
            summary,
            name,
            at,
        );
        types::packages_are_found_by_name(snapshot.packages@, last);
        selections_only_grow(init, snapshot, installed, assumed, update, summary);
        names_hold(names, name);
        if !init.contains(name) && last == name {
            new_names_are_judged(init, name, snapshot, installed, update, at);
        }
        let chosen = choice(init, last, snapshot, installed, update);
        assert(selected.requests.contains(package) <==> before.requests.contains(package) || chosen
            == Choice::Wanted(package)) by {
            if before.requests.contains(package) {
                let i = choose|i: int| 0 <= i < before.requests.len() && before.requests[i] == package;
                assert(selected.requests[i] == package);
            }
            if chosen == Choice::Wanted(package) {
                assert(selected.requests[before.requests.len() as int] == package);
            }
            if selected.requests.contains(package) {
                let i = choose|i: int|
                    0 <= i < selected.requests.len() && selected.requests[i] == package;
                assert(i < before.requests.len() ==> before.requests[i] == package);
            }
        }
        let marker = if !package.is_protected && is_installed(installed, name) {
            "✓"@
        } else {
            "✗"@
        };
        if names.contains(name) && !is_due(package, installed, update) {
            if init.contains(name) {
                let k = choose|k: int|
                    summary.rows.len() <= k < before.summary.rows.len()
                        && #[trigger] before.summary.rows[k].name == name
                        && before.summary.rows[k].marker == marker;
                assert(selected.summary.rows[k] == before.summary.rows[k]);
            } else {
                let k = before.summary.rows.len() as int;
                assert(selected.summary.rows[k].name == name);
                assert(selected.summary.rows[k].marker == marker);
            }
        }
    }
}

/// Whether a summary has a row with a name and a marker behind its first rows.
pub open spec fn has_row(
    summary: SummaryView,
    first: nat,
    name: Seq<char>,
    marker: Seq<char>,
) -> bool {
    exists|k: int|
        first <= k < summary.rows.len() && #[trigger] summary.rows[k].name == name
            && summary.rows[k].marker == marker
}

/// What names hold, their last one apart.
proof fn names_hold(names: Seq<Seq<char>>, name: Seq<char>)
    requires
        names.len() > 0,
    ensures
        names.contains(name) <==> names.drop_last().contains(name) || name == names.last(),
{
    let init = names.drop_last();
    if init.contains(name) {
        let i = choose|i: int| 0 <= i < init.len() && init[i] == name;
        assert(names[i] == name);
    }
    assert(names[names.len() - 1] == names.last());
    if names.contains(name) {
        let i = choose|i: int| 0 <= i < names.len() && names[i] == name;
        assert(i < init.len() ==> init[i] == name);
    }
}

/// A selection keeps the rows that were there before, and counts as failed just
/// when the summary did or one of its own rows is a failure.
pub proof fn selections_only_grow(
    names: Seq<Seq<char>>,
    snapshot: Snapshot,
    installed: Seq<Installed>,
    assumed: Seq<char>,
    update: bool,
    summary: SummaryView,
)
    ensures
        ({
            let selected = selection(names, snapshot, installed, assumed, update, summary);
            &&& selected.summary.rows.len() >= summary.rows.len()
            &&& selected.summary.rows.take(summary.rows.len() as int) == summary.rows
            &&& selected.summary.failed <==> summary.failed || exists|k: int|
                summary.rows.len() <= k < selected.summary.rows.len()
                    && #[trigger] selected.summary.rows[k].marker == "✗"@
        }),
    decreases names.len(),
{
    reveal_strlit("✗");
    reveal_strlit("✓");
    let selected = selection(names, snapshot, installed, assumed, update, summary);
    if names.len() == 0 {
        assert(selected.summary.rows.take(summary.rows.len() as int) =~= summary.rows);
    } else {
        let init = names.drop_last();
        let before = selection(init, snapshot, installed, assumed, update, summary);
        selections_only_grow(init, snapshot, installed, assumed, update, summary);
        assert(selected.summary.rows.take(summary.rows.len() as int)
            =~= before.summary.rows.take(summary.rows.len() as int));
        if exists|k: int|
            summary.rows.len() <= k < before.summary.rows.len()
                && #[trigger] before.summary.rows[k].marker == "✗"@ {
            let k = choose|k: int|
                summary.rows.len() <= k < before.summary.rows.len()
                    && #[trigger] before.summary.rows[k].marker == "✗"@;
            assert(selected.summary.rows[k] == before.summary.rows[k]);
        }
        if exists|k: int|
            summary.rows.len() <= k < selected.summary.rows.len()
                && #[trigger] selected.summary.rows[k].marker == "✗"@ {
            let k = choose|k: int|
                summary.rows.len() <= k < selected.summary.rows.len()
                    && #[trigger] selected.summary.rows[k].marker == "✗"@;
            if k < before.summary.rows.len() {
                assert(before.summary.rows[k] == selected.summary.rows[k]);
            } else {
                assert("✓"@[0] != "✗"@[0]);
            }
        }
        if selected.summary.rows.len() > before.summary.rows.len() && selected.summary.failed
            && !before.summary.failed {
            assert(selected.summary.rows[before.summary.rows.len() as int].marker == "✗"@);
        }
    }
}

/// A requested name that the index does not list fails, and nothing is selected
/// under it.
pub proof fn unlisted_names_fail(
    names: Seq<Seq<char>>,
    snapshot: Snapshot,
    installed: Seq<Installed>,
    assumed: Seq<char>,
    update: bool,
    summary: SummaryView,
    name: Seq<char>,
)
    requires
        forall|i: int|
            0 <= i < snapshot.packages@.len() ==> (#[trigger] snapshot.packages@[i]).name@ != name,
    ensures
        ({
            let selected = selection(names, snapshot, installed, assumed, update, summary);
            &&& names.contains(name) ==> has_row(
                selected.summary,
                summary.rows.len(),
                name,
                "✗"@,
            )
            &&& forall|i: int|
                0 <= i < selected.requests.len() ==> (#[trigger] selected.requests[i]).name@ != name
        }),
    decreases names.len(),
{
    if names.len() > 0 {
        let init = names.drop_last();
        let last = names.last();
        let before = selection(init, snapshot, installed, assumed, update, summary);
        let selected = selection(names, snapshot, installed, assumed, update, summary);
        unlisted_names_fail(init, snapshot, installed, assumed, update, summary, name);
        selections_only_grow(init, snapshot, installed, assumed, update, summary);
        types::packages_are_found_by_name(snapshot.packages@, last);
        names_hold(names, name);
        if names.contains(name) {
            if init.contains(name) {
                let k = choose|k: int|
                    summary.rows.len() <= k < before.summary.rows.len()
                        && #[trigger] before.summary.rows[k].name == name
                        && before.summary.rows[k].marker == "✗"@;
                assert(selected.summary.rows[k] == before.summary.rows[k]);
            } else {
                types::first_named_is_listed(snapshot.packages@, name);
                let k = before.summary.rows.len() as int;
                assert(selected.summary.rows[k].name == name);
                assert(selected.summary.rows[k].marker == "✗"@);
            }
        }
        assert forall|i: int| 0 <= i < selected.requests.len() implies (
        #[trigger] selected.requests[i]).name@ != name by {
            if i < before.requests.len() {
                assert(selected.requests[i] == before.requests[i]);
            }
        }
    }
}

/// No package is selected twice, however often its name was requested, and no
/// row of a selection stands for a name that was not requested.
pub proof fn names_are_selected_once(
    names: Seq<Seq<char>>,
    snapshot: Snapshot,
    installed: Seq<Installed>,
    assumed: Seq<char>,
    update: bool,
    summary: SummaryView,
)
    ensures
        ({
            let selected = selection(names, snapshot, installed, assumed, update, summary);
            &&& forall|i: int, j: int|
                0 <= i < j < selected.requests.len() ==> (#[trigger] selected.requests[i]).name@ != (
                #[trigger] selected.requests[j]).name@
            &&& forall|i: int|
                0 <= i < selected.requests.len() ==> names.contains(
                    (#[trigger] selected.requests[i]).name@,
                )
            &&& forall|k: int|
                summary.rows.len() <= k < selected.summary.rows.len() ==> names.contains(
                    (#[trigger] selected.summary.rows[k]).name,
                )
            &&& selected.requests.len() + selected.summary.rows.len() <= summary.rows.len()
                + names.len()
        }),
    decreases names.len(),
{
    if names.len() > 0 {
        let init = names.drop_last();
        let last = names.last();
        let before = selection(init, snapshot, installed, assumed, update, summary);
        let selected = selection(names, snapshot, installed, assumed, update, summary);
        names_are_selected_once(init, snapshot, installed, assumed, update, summary);
        selections_only_grow(init, snapshot, installed, assumed, update, summary);
        types::packages_are_found_by_name(snapshot.packages@, last);
        assert forall|i: int| 0 <= i < selected.requests.len() implies names.contains(
            (#[trigger] selected.requests[i]).name@,
        ) by {
            names_hold(names, selected.requests[i].name@);
            if i < before.requests.len() {
                assert(selected.requests[i] == before.requests[i]);
            }
        }
        assert forall|k: int|
            summary.rows.len() <= k < selected.summary.rows.len() implies names.contains(
            (#[trigger] selected.summary.rows[k]).name,
        ) by {
            names_hold(names, selected.summary.rows[k].name);
            if k < before.summary.rows.len() {
                assert(selected.summary.rows[k] == before.summary.rows[k]);
            }
        }
        assert forall|i: int, j: int| 0 <= i < j < selected.requests.len() implies (
        #[trigger] selected.requests[i]).name@ != (#[trigger] selected.requests[j]).name@ by {
            assert(selected.requests[i] == before.requests[i]);
            if j < before.requests.len() {
                assert(selected.requests[j] == before.requests[j]);
            } else {
                assert(init.contains(before.requests[i].name@));
            }
        }
    }
}

/// The user is warned about a selected package just when it requires a core
/// version that the assumed one is older than.
pub proof fn newer_cores_are_warned_about(
    names: Seq<Seq<char>>,
    snapshot: Snapshot,
    installed: Seq<Installed>,
    assumed: Seq<char>,
    update: bool,
    summary: SummaryView,
)
    ensures
        ({
            let selected = selection(names, snapshot, installed, assumed, update, summary);
            selected.warnings == selected.requests.filter(needs_newer_core(assumed)).map_values(
                core_text(assumed),
            )
        }),
    decreases names.len(),
{
    reveal(Seq::filter);
    let selected = selection(names, snapshot, installed, assumed, update, summary);
    if names.len() == 0 {
        assert(selected.warnings =~= selected.requests.filter(
            needs_newer_core(assumed),
        ).map_values(core_text(assumed)));
    } else {
        let init = names.drop_last();
        let before = selection(init, snapshot, installed, assumed, update, summary);
        newer_cores_are_warned_about(init, snapshot, installed, assumed, update, summary);
        if let Choice::Wanted(package) = choice(init, names.last(), snapshot, installed, update) {
            assert(selected.requests.drop_last() =~= before.requests);
            assert(selected.requests.last() == package);
            let kept = before.requests.filter(needs_newer_core(assumed));
            assert(kept.push(package).map_values(core_text(assumed)) =~= kept.map_values(
                core_text(assumed),
            ).push(core_text(assumed)(package)));
        }
    }
}

/// The test for packages that require a newer core than the assumed one.
pub open spec fn needs_newer_core(assumed: Seq<char>) -> spec_fn(Package) -> bool {
    |package: Package|
        (package.version.required_core_version matches Some(required) && required@.len() > 0
            && version::older(assumed, required@))
}

/// The warning about a package that requires a newer core.
pub open spec fn core_text(assumed: Seq<char>) -> spec_fn(Package) -> Seq<char> {
    |package: Package|
        package.name@ + " requires FoundryVTT core "@ + package.version.required_core_version->0@
            + ", newer than the assumed "@ + assumed + " — it may not work"@
}

/// The test for resolved packages.
pub open spec fn has_job() -> spec_fn((String, Result<Job, String>)) -> bool {
    |entry: (String, Result<Job, String>)| entry.1 is Ok
}

/// The test for packages that could not be resolved.
pub open spec fn has_no_job() -> spec_fn((String, Result<Job, String>)) -> bool {
    |entry: (String, Result<Job, String>)| entry.1 is Err
}

/// The job of a resolved package.
pub open spec fn job_in() -> spec_fn((String, Result<Job, String>)) -> Job {
    |entry: (String, Result<Job, String>)| entry.1->Ok_0
}

/// The row of a package that could not be resolved.
pub open spec fn unresolved_row() -> spec_fn((String, Result<Job, String>)) -> summary::SummaryRowView {
    |entry: (String, Result<Job, String>)|
        summary::SummaryRowView {
            marker: "✗"@,
            name: entry.0@,
            version: "-"@,
            note: entry.1->Err_0@,
        }
}

/// Every resolved package gives its job, and every other one a failure in the
/// summary with its name and the reason, in order.
pub proof fn every_resolution_is_used(
    summary: SummaryView,
    resolved: Seq<(String, Result<Job, String>)>,
)
    ensures
        jobs_in(resolved) == resolved.filter(has_job()).map_values(job_in()),
        with_unresolved(summary, resolved).rows == summary.rows + resolved.filter(
            has_no_job(),
        ).map_values(unresolved_row()),
        with_unresolved(summary, resolved).failed <==> summary.failed || resolved.filter(
            has_no_job(),
        ).len() > 0,
    decreases resolved.len(),
{
    reveal(Seq::filter);
    if resolved.len() == 0 {
        assert(jobs_in(resolved) =~= resolved.filter(has_job()).map_values(job_in()));
        assert(summary.rows =~= summary.rows + resolved.filter(has_no_job()).map_values(
            unresolved_row(),
        ));
    } else {
        let init = resolved.drop_last();
        let last = resolved.last();
        every_resolution_is_used(summary, init);
        let good = init.filter(has_job());
        let bad = init.filter(has_no_job());
        assert(good.push(last).map_values(job_in()) =~= good.map_values(job_in()).push(
            job_in()(last),
        ));
        assert(summary.rows + bad.push(last).map_values(unresolved_row()) =~= (summary.rows
            + bad.map_values(unresolved_row())).push(unresolved_row()(last)));
    }
}

/// Every request that failed to resolve becomes a failure in the summary, with
/// its name and the reason, in order.
pub proof fn every_failure_is_recorded(
    summary: SummaryView,
    failures: Seq<(Seq<char>, Seq<char>)>,
    at: int,
)
    requires
        0 <= at < failures.len(),
    ensures
        ({
            let after = with_failures(summary, failures);
            &&& after.failed
            &&& after.rows.len() == summary.rows.len() + failures.len()
            &&& after.rows.take(summary.rows.len() as int) == summary.rows
            &&& after.rows[summary.rows.len() + at] == (summary::SummaryRowView {
                marker: "✗"@,
                name: failures[at].0,
                version: "-"@,
                note: failures[at].1,
            })
        }),
    decreases failures.len(),
{
    let init = failures.drop_last();
    let after = with_failures(summary, failures);
    if init.len() > 0 {
        let before = with_failures(summary, init);
        every_failure_is_recorded(
            summary,
            init,
            if at < init.len() {
                at
            } else {
                0
            },
        );
        assert(after.rows.take(summary.rows.len() as int) =~= before.rows.take(
            summary.rows.len() as int,
        ));
    } else {
        assert(with_failures(summary, init) == summary);
        assert(after.rows.take(summary.rows.len() as int) =~= summary.rows);
    }
}

/// The jobs of a plan are all requested and required ones, and the recommended
/// ones just when they were accepted.
pub proof fn recommendations_need_consent(plan: Plan, recommended: bool, job: Job)
    ensures
        accepted_jobs(plan, recommended).contains(job) <==> plan.requested@.contains(job)
            || plan.required@.contains(job) || (recommended && plan.recommended@.contains(job)),
        accepted_jobs(plan, recommended).len() == plan.requested@.len() + plan.required@.len()
            + if recommended {
            plan.recommended@.len()
        } else {
            0
        },
        plan.requested@.is_prefix_of(accepted_jobs(plan, recommended)),
{
    broadcast use vstd::seq_lib::group_seq_properties;

    let requested = plan.requested@;
    let required = plan.required@;
    let optional = plan.recommended@;
    let all = accepted_jobs(plan, recommended);
    if requested.contains(job) {
        let i = choose|i: int| 0 <= i < requested.len() && requested[i] == job;
        assert(all[i] == job);
    }
    if required.contains(job) {
        let i = choose|i: int| 0 <= i < required.len() && required[i] == job;
        assert(all[requested.len() + i] == job);
    }
    if recommended && optional.contains(job) {
        let i = choose|i: int| 0 <= i < optional.len() && optional[i] == job;
        assert(all[requested.len() + required.len() + i] == job);
    }
    if all.contains(job) {
        let i = choose|i: int| 0 <= i < all.len() && all[i] == job;
        if i < requested.len() {
            assert(requested[i] == job);
        } else if i < requested.len() + required.len() {
            assert(required[i - requested.len()] == job);
        } else {
            assert(optional[i - requested.len() - required.len()] == job);
        }
    }
}

/// Why a newly requested name is not installed. An update of a package that is
/// not installed fails as such; a name that the index does not list fails as
/// not found; a protected package fails as unsupported when it is owned and as
/// unpurchased otherwise; and what is up to date is told with its version.
pub proof fn refused_names_are_told_why(
    earlier: Seq<Seq<char>>,
    name: Seq<char>,
    snapshot: Snapshot,
    installed: Seq<Installed>,
    update: bool,
)
    requires
        !earlier.contains(name),
    ensures
        ({
            let chosen = choice(earlier, name, snapshot, installed, update);
            let gone = update && !is_installed(installed, name);
            &&& gone ==> chosen == Choice::Failed("not installed"@)
            &&& !gone && (forall|i: int|
                0 <= i < snapshot.packages@.len() ==> (#[trigger] snapshot.packages@[i]).name@
                    != name) ==> chosen == Choice::Failed("not found in the index"@)
            &&& !gone ==> forall|at: int| #[trigger]
                types::stands_first(snapshot.packages@, name, at) ==> {
                    let package = snapshot.packages@[at];
                    &&& package.is_protected && snapshot.owned@.contains(package.id) ==> chosen
                        == Choice::Failed("protected packages are not supported yet"@)
                    &&& package.is_protected && !snapshot.owned@.contains(package.id) ==> chosen
                        == Choice::Failed("protected; purchase required"@)
                    &&& !package.is_protected && is_installed_at(
                        installed,
                        name,
                        package.version.version@,
                    ) ==> chosen == Choice::Current(package.version.version@)
                }
        }),
{
    types::packages_are_found_by_name(snapshot.packages@, name);
    types::first_named_is_listed(snapshot.packages@, name);
    package::installed_packages_are_found_by_id(installed, name);
    let chosen = choice(earlier, name, snapshot, installed, update);
    if update && !is_installed(installed, name) {
        assert(package::installed_as(installed, name) is None);
    } else {
        assert forall|at: int| #[trigger]
            types::stands_first(snapshot.packages@, name, at) implies {
            let package = snapshot.packages@[at];
            !package.is_protected && is_installed_at(
                installed,
                name,
                package.version.version@,
            ) ==> chosen == Choice::Current(package.version.version@)
        } by {
            let package = snapshot.packages@[at];
            if is_installed_at(installed, name, package.version.version@) {
                let i = choose|i: int| #[trigger]
                    package::stands_for(installed, name, i) && (
                    installed[i].version matches Some(declared) && declared@
                        == package.version.version@);
                package::statuses_go_by_versions(installed[i], package);
            }
        }
    }
}

/// A recovery sweep is told in full: a warning for every restored package, then
/// one for every package that could not be restored, with the reason.
pub proof fn recoveries_are_told_in_full(recovery: Recovery, at: int)
    ensures
        recovery_warnings(recovery).len() == recovery.restored@.len() + recovery.failed@.len(),
        0 <= at < recovery.restored@.len() ==> text::contains_text(
            recovery_warnings(recovery)[at],
            recovery.restored@[at]@,
        ),
        0 <= at < recovery.failed@.len() ==> text::contains_text(
            recovery_warnings(recovery)[recovery.restored@.len() + at],
            recovery.failed@[at].0@,
        ) && text::contains_text(
            recovery_warnings(recovery)[recovery.restored@.len() + at],
            recovery.failed@[at].1@,
        ),
{
    if 0 <= at < recovery.restored@.len() {
        text::texts_contain_their_middle(
            "restored `"@,
            recovery.restored@[at]@,
            "`, left behind by an interrupted operation"@,
        );
    }
    if 0 <= at < recovery.failed@.len() {
        let start = "could not recover the backup of `"@;
        let name = recovery.failed@[at].0@;
        let reason = recovery.failed@[at].1@;
        text::texts_contain_their_middle(start, name, "`: "@ + reason);
        text::texts_contain_their_middle(start + name + "`: "@, reason, Seq::empty());
        assert(start + name + ("`: "@ + reason) =~= start + name + "`: "@ + reason);
    }
}

/// A package becomes a job just when its manifest was fetched, names a download
/// and does not belong to another package; otherwise the reason tells which of
/// these it was.
pub proof fn jobs_need_a_fitting_manifest(
    kind: PackageType,
    package: Package,
    fetched: Result<RemoteManifest, String>,
)
    ensures
        ({
            let made = job_or_reason(kind, package, fetched);
            &&& fetched matches Err(error) ==> made == Err::<JobView, Seq<char>>(
                "manifest fetch failed: "@ + error@,
            )
            &&& fetched matches Ok(manifest) ==> {
                let declared = match manifest.id {
                    Some(id) => Some(id),
                    None => manifest.name,
                };
                &&& manifest.download is None ==> made == Err::<JobView, Seq<char>>(
                    "the manifest declares no download URL"@,
                )
                &&& manifest.download is Some ==> (declared matches Some(id) ==> (id@
                    != package.name@ ==> (made matches Err(reason) && text::contains_text(reason, id@)
                    && text::contains_text(reason, package.name@))))
                &&& made is Ok <==> manifest.download is Some && (declared matches Some(id) ==> id@
                    == package.name@)
                &&& made matches Ok(job) ==> job.kind == kind && job.name == package.name@
                    && job.download_url == manifest.download->0@ && !job.protected && job.version
                    == match manifest.version {
                    Some(VersionField::Text(text)) => text@,
                    Some(VersionField::Number(number)) => number@,
                    None => package.version.version@,
                }
            }
        }),
{
    if let Ok(manifest) = fetched {
        let declared = match manifest.id {
            Some(id) => Some(id),
            None => manifest.name,
        };
        if let Some(id) = declared {
            let start = "the manifest belongs to `"@;
            let middle = "`, not `"@;
            let name = package.name@;
            text::texts_contain_their_middle(start, id@, middle + name + "`"@);
            text::texts_contain_their_middle(start + id@ + middle, name, "`"@);
            assert(start + id@ + (middle + name + "`"@) =~= start + id@ + middle + name + "`"@);
        }
    }
}

/// The recommended packages are offered under their names, in their order.
pub proof fn offers_name_every_package(jobs: Seq<Job>, at: int)
    requires
        0 <= at < jobs.len(),
    ensures
        job_names(jobs).len() == jobs.len(),
        job_names(jobs)[at] == jobs[at].name@,
{
}

} // verus!
