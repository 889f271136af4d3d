//! `ufpm module` / `ufpm system`: querying and managing packages.
//!
//! Both CLI domains share this implementation, parameterized by
//! [`PackageType`].

pub mod details;
pub mod installing;
pub mod listing;
pub mod removing;
pub mod summary;
pub mod unused;
pub mod updating;

use vstd::prelude::*;
use crate::api::types::Package;
use crate::cli::PackageAction;
use crate::commands::{ExitCode, Message, MessageView};
use crate::foundry::PackageType;
use crate::foundry::local::{Installed, Scan};
use crate::foundry::version::{self, Comparison};
use crate::index::{Snapshot, Source};
use crate::text;
use crate::ui;

verus! {

/// Filters applied by [`listing::list`].
#[derive(Clone, Debug)]
pub struct ListOptions {
    /// Lowercased search query; `None` lists everything.
    pub query: Option<String>,
    /// Only show packages that are installed locally.
    pub installed_only: bool,
    /// Only show protected packages this license has purchased.
    pub owned_only: bool,
    /// Print at most this many rows.
    pub limit: Option<usize>,
}

/// What a package action asks for.
#[derive(Debug)]
pub enum Operation {
    /// List or search the index.
    List(ListOptions),
    /// Show the details of a package.
    Info {
        /// The package.
        name: String,
    },
    /// Install packages.
    Install {
        /// The packages.
        names: Vec<String>,
    },
    /// Preview available updates.
    Outdated {
        /// Whether available updates count as a failure.
        check: bool,
    },
    /// Update packages.
    Update {
        /// The packages; all of them when empty.
        names: Vec<String>,
    },
    /// Remove packages.
    Remove {
        /// The packages.
        names: Vec<String>,
    },
    /// List packages that no world uses.
    Unused {
        /// Whether to delete them.
        prune: bool,
    },
}

/// Whether an operation is what an action asks for.
pub open spec fn asks_for(operation: Operation, action: PackageAction) -> bool {
    match action {
        PackageAction::List { installed, owned, limit } => operation == Operation::List(
            ListOptions { query: None, installed_only: installed, owned_only: owned, limit },
        ),
        PackageAction::Search { query, installed, owned } => operation matches Operation::List(
            options,
        ) && (options.query matches Some(text) && text@ == text::lowercased(query@))
            && options.installed_only == installed && options.owned_only == owned
            && options.limit is None,
        PackageAction::Info { name } => operation == (Operation::Info { name }),
        PackageAction::Add { names } => operation == (Operation::Install { names }),
        PackageAction::Outdated { check } => operation == (Operation::Outdated { check }),
        PackageAction::Update { names } => operation == (Operation::Update { names }),
        PackageAction::Remove { names } => operation == (Operation::Remove { names }),
        PackageAction::Unused { prune } => operation == (Operation::Unused { prune }),
    }
}

/// Dispatches a package action.
#[must_use]
pub fn run(action: PackageAction) -> (operation: Operation)
    ensures
        asks_for(operation, action),
{
    match action {
        PackageAction::List { installed, owned, limit } => Operation::List(
            ListOptions { query: None, installed_only: installed, owned_only: owned, limit },
        ),
        PackageAction::Search { query, installed, owned } => Operation::List(
            ListOptions {
                query: Some(text::to_lowercase(query.as_str())),
                installed_only: installed,
                owned_only: owned,
                limit: None,
            },
        ),
        PackageAction::Info { name } => Operation::Info { name },
        PackageAction::Add { names } => Operation::Install { names },
        PackageAction::Outdated { check } => Operation::Outdated { check },
        PackageAction::Update { names } => Operation::Update { names },
        PackageAction::Remove { names } => Operation::Remove { names },
        PackageAction::Unused { prune } => Operation::Unused { prune },
    }
}

/// What the user is told about the origin of an index.
pub open spec fn source_text(kind: PackageType, snapshot: Snapshot, source: Source, now: u64) -> MessageView {
    match source {
        Source::Refreshed => MessageView::Detail(
            "fetched a fresh "@ + kind.api_text() + " index ("@ + text::decimal(
                snapshot.packages@.len(),
            ) + " packages)"@,
        ),
        Source::Cached => MessageView::Detail(
            "using the cached "@ + kind.api_text() + " index ("@ + ui::age_text(
                snapshot.age_at(now),
            ) + " old)"@,
        ),
        Source::StaleFallback { error } => MessageView::Warning(
            "refreshing the "@ + kind.api_text() + " index failed ("@ + error.text() + "); using "@
                + ui::age_text(snapshot.age_at(now)) + " old data"@,
        ),
    }
}

/// Tells where an index came from.
#[must_use]
pub fn report_source(kind: PackageType, snapshot: &Snapshot, source: &Source, now: u64) -> (
message: Message)
    ensures
        message@ == source_text(kind, *snapshot, *source, now),
{
    match source {
        Source::Refreshed => {
            let mut line = "fetched a fresh ".to_owned();
            line.append(kind.api_name());
            line.append(" index (");
            let count = text::count_text(snapshot.packages.len());
            line.append(count.as_str());
            line.append(" packages)");
            Message::Detail(line)
        },
        Source::Cached => {
            let mut line = "using the cached ".to_owned();
            line.append(kind.api_name());
            line.append(" index (");
            let age = ui::format_age(snapshot.age(now));
            line.append(age.as_str());
            line.append(" old)");
            Message::Detail(line)
        },
        Source::StaleFallback { error } => {
            let mut line = "refreshing the ".to_owned();
            line.append(kind.api_name());
            line.append(" index failed (");
            let problem = error.message();
            line.append(problem.as_str());
            line.append("); using ");
            let age = ui::format_age(snapshot.age(now));
            line.append(age.as_str());
            line.append(" old data");
            Message::Warning(line)
        },
    }
}

/// The packages without those that have an id.
pub open spec fn without(packages: Seq<Installed>, id: Seq<char>) -> Seq<Installed>
    decreases packages.len(),
{
    if packages.len() == 0 {
        packages
    } else {
        let init = without(packages.drop_last(), id);
        if packages.last().id@ == id {
            init
        } else {
            init.push(packages.last())
        }
    }
}

/// The packages keyed by id: of several with the same id the last one stays.
pub open spec fn keyed(packages: Seq<Installed>) -> Seq<Installed>
    decreases packages.len(),
{
    if packages.len() == 0 {
        packages
    } else {
        without(keyed(packages.drop_last()), packages.last().id@).push(packages.last())
    }
}

/// The package with an id.
pub open spec fn installed_as(packages: Seq<Installed>, id: Seq<char>) -> Option<Installed>
    decreases packages.len(),
{
    if packages.len() == 0 {
        None
    } else if packages[0].id@ == id {
        Some(packages[0])
    } else {
        installed_as(packages.drop_first(), id)
    }
}

/// The warnings about directories that could not be understood.
pub open spec fn skip_warnings(skipped: Seq<(String, String)>) -> Seq<Seq<char>> {
    skipped.map_values(
        |entry: (String, String)| "skipping "@ + entry.0@ + ": "@ + entry.1@,
    )
}

/// Warns about directories that could not be understood.
#[must_use]
pub fn warn_skipped(skipped: &Vec<(String, String)>) -> (warnings: Vec<String>)
    ensures
        text::views(warnings@) == skip_warnings(skipped@),
{
    let ghost expected = skip_warnings(skipped@);
    let mut warnings: Vec<String> = Vec::new();
    let mut i: usize = 0;
    assert(text::views(warnings@) =~= expected.take(0));
    while i < skipped.len()
        invariant
            expected == skip_warnings(skipped@),
            0 <= i <= skipped@.len(),
            text::views(warnings@) == expected.take(i as int),
        decreases skipped@.len() - i,
    {
        let mut warning = "skipping ".to_owned();
        warning.append(skipped[i].0.as_str());
        warning.append(": ");
        warning.append(skipped[i].1.as_str());
        let ghost shorter = text::views(warnings@);
        let ghost added = warning@;
        warnings.push(warning);
        assert(text::views(warnings@) =~= shorter.push(added));
        assert(text::views(warnings@) =~= expected.take(i + 1));
        i = i + 1;
    }
    assert(expected.take(i as int) =~= expected);
    warnings
}

/// Removes the packages with an id.
fn remove_id(packages: Vec<Installed>, id: &str) -> (rest: Vec<Installed>)
    ensures
        rest@ == without(packages@, id@),
{
    let ghost all = packages@;
    let mut rest: Vec<Installed> = Vec::new();
    let ghost mut seen: int = 0;
    assert(all.take(0) =~= Seq::empty());
    for package in it: packages
        invariant
            it.seq() == all,
            seen == it.index(),
            rest@ == without(all.take(it.index() as int), id@),
    {
        proof {
            assert(all.take(seen + 1).drop_last() =~= all.take(seen));
            assert(all.take(seen + 1).last() == package);
            seen = seen + 1;
        }
        if !text::same(package.id.as_str(), id) {
            rest.push(package);
        }
    }
    assert(all.take(seen) =~= all);
    rest
}

/// The installed packages of a scan, keyed by id, and the warnings about
/// directories that could not be understood.
pub fn installed_map(scan: Scan) -> (map: (Vec<Installed>, Vec<String>))
    ensures
        map.0@ == keyed(scan.packages@),
        text::views(map.1@) == skip_warnings(scan.skipped@),
{
    let Scan { packages, skipped } = scan;
    let ghost all = packages@;
    let warnings = warn_skipped(&skipped);
    let mut map: Vec<Installed> = Vec::new();
    let ghost mut seen: int = 0;
    assert(all.take(0) =~= Seq::empty());
    for package in it: packages
        invariant
            it.seq() == all,
            seen == it.index(),
            map@ == keyed(all.take(it.index() as int)),
    {
        proof {
            assert(all.take(seen + 1).drop_last() =~= all.take(seen));
            assert(all.take(seen + 1).last() == package);
            seen = seen + 1;
        }
        map = remove_id(map, package.id.as_str());
        map.push(package);
    }
    assert(all.take(seen) =~= all);
    (map, warnings)
}

/// The package with this id.
pub fn find_installed<'a>(packages: &'a Vec<Installed>, id: &str) -> (found: Option<&'a Installed>)
    ensures
        match found {
            Some(package) => installed_as(packages@, id@) == Some(*package),
            None => installed_as(packages@, id@) is None,
        },
{
    let mut i: usize = 0;
    assert(packages@.skip(0) =~= packages@);
    while i < packages.len()
        invariant
            0 <= i <= packages@.len(),
            installed_as(packages@, id@) == installed_as(packages@.skip(i as int), id@),
        decreases packages@.len() - i,
    {
        assert(packages@.skip(i as int)[0] == packages@[i as int]);
        assert(packages@.skip(i as int).drop_first() =~= packages@.skip(i + 1));
        if text::same(packages[i].id.as_str(), id) {
            return Some(&packages[i]);
        }
        i = i + 1;
    }
    None
}

/// What is not removed stays, and what is removed is gone.
proof fn without_is_exact(packages: Seq<Installed>, id: Seq<char>, package: Installed)
    ensures
        without(packages, id).contains(package) <==> packages.contains(package) && package.id@ != id,
    decreases packages.len(),
{
    if packages.len() > 0 {
        let init = packages.drop_last();
        without_is_exact(init, id, package);
        let rest = without(packages, id);
        assert(packages.contains(package) <==> init.contains(package) || package == packages.last())
            by {
            if packages.contains(package) {
                let i = choose|i: int| 0 <= i < packages.len() && packages[i] == package;
                assert(i < init.len() ==> init[i] == package);
            }
            if init.contains(package) {
                let i = choose|i: int| 0 <= i < init.len() && init[i] == package;
                assert(packages[i] == package);
            }
            assert(packages[packages.len() - 1] == packages.last());
        }
        if packages.last().id@ != id {
            assert(rest.contains(package) <==> without(init, id).contains(package) || package
                == packages.last()) by {
                let shorter = without(init, id);
                if rest.contains(package) {
                    let i = choose|i: int| 0 <= i < rest.len() && rest[i] == package;
                    assert(i < shorter.len() ==> shorter[i] == package);
                }
                if shorter.contains(package) {
                    let i = choose|i: int| 0 <= i < shorter.len() && shorter[i] == package;
                    assert(rest[i] == package);
                }
                assert(rest[shorter.len() as int] == packages.last());
            }
        }
    }
}

/// Whether no two packages have the same id.
pub open spec fn ids_are_distinct(packages: Seq<Installed>) -> bool {
    forall|i: int, j: int|
        0 <= i < j < packages.len() ==> (#[trigger] packages[i]).id@ != (#[trigger] packages[j]).id@
}

/// Removing an id keeps the others distinct.
proof fn without_stays_distinct(packages: Seq<Installed>, id: Seq<char>)
    requires
        ids_are_distinct(packages),
    ensures
        ids_are_distinct(without(packages, id)),
    decreases packages.len(),
{
    if packages.len() > 0 {
        let init = packages.drop_last();
        let last = packages.last();
        let shorter = without(init, id);
        assert forall|i: int, j: int| 0 <= i < j < init.len() implies (#[trigger] init[i]).id@ != (
        #[trigger] init[j]).id@ by {
            assert(packages[i].id@ != packages[j].id@);
        }
        without_stays_distinct(init, id);
        assert forall|i: int| 0 <= i < shorter.len() implies (#[trigger] shorter[i]).id@
            != last.id@ by {
            without_is_exact(init, id, shorter[i]);
            let k = choose|k: int| 0 <= k < init.len() && init[k] == shorter[i];
            assert(packages[k].id@ != packages[packages.len() - 1].id@);
        }
    }
}

/// Keying keeps no id twice, and nothing that was not scanned.
pub proof fn keying_keeps_each_id_once(packages: Seq<Installed>)
    ensures
        ids_are_distinct(keyed(packages)),
        forall|i: int|
            0 <= i < keyed(packages).len() ==> packages.contains(#[trigger] keyed(packages)[i]),
    decreases packages.len(),
{
    if packages.len() > 0 {
        let init = packages.drop_last();
        let last = packages.last();
        let rest = without(keyed(init), last.id@);
        keying_keeps_each_id_once(init);
        without_stays_distinct(keyed(init), last.id@);
        assert(packages[packages.len() - 1] == last);
        assert forall|i: int| 0 <= i < rest.len() implies (#[trigger] rest[i]).id@ != last.id@
            && packages.contains(rest[i]) by {
            without_is_exact(keyed(init), last.id@, rest[i]);
            assert(rest.contains(rest[i]));
            let k = choose|k: int| 0 <= k < keyed(init).len() && keyed(init)[k] == rest[i];
            assert(init.contains(keyed(init)[k]));
            let m = choose|m: int| 0 <= m < init.len() && init[m] == rest[i];
            assert(packages[m] == rest[i]);
        }
    }
}

/// Keying keeps the last package with each id that was scanned.
pub proof fn keying_keeps_the_last_of_each_id(packages: Seq<Installed>, at: int)
    requires
        0 <= at < packages.len(),
        forall|i: int| at < i < packages.len() ==> (#[trigger] packages[i]).id@ != packages[at].id@,
    ensures
        keyed(packages).contains(packages[at]),
    decreases packages.len(),
{
    let init = packages.drop_last();
    let last = packages.last();
    let rest = without(keyed(init), last.id@);
    if at < packages.len() - 1 {
        assert(init[at] == packages[at]);
        assert forall|i: int| at < i < init.len() implies (#[trigger] init[i]).id@ != init[at].id@ by {
            assert(init[i] == packages[i]);
        }
        keying_keeps_the_last_of_each_id(init, at);
        assert(packages[packages.len() - 1].id@ != packages[at].id@);
        without_is_exact(keyed(init), last.id@, packages[at]);
        let i = choose|i: int| 0 <= i < rest.len() && rest[i] == packages[at];
        assert(keyed(packages)[i] == packages[at]);
    } else {
        assert(keyed(packages)[rest.len() as int] == last);
    }
}

/// How an installed package relates to its index entry; an unknown local
/// version counts as changed.
pub open spec fn status_of(local: Installed, package: Package) -> Comparison {
    match local.version {
        Some(installed) => version::relation(installed@, package.version.version@),
        None => Comparison::Changed,
    }
}

/// Compares an installed package against its index entry; an unknown local
/// version counts as [`Comparison::Changed`], never as up to date.
#[must_use]
pub fn version_status(local: &Installed, package: &Package) -> (status: Comparison)
    ensures
        status == status_of(*local, *package),
{
    match &local.version {
        Some(installed) => version::against_installed(
            installed.as_str(),
            package.version.version.as_str(),
        ),
        None => Comparison::Changed,
    }
}

/// The version of an installed package, or a question mark.
pub open spec fn version_or_unknown(version: Option<String>) -> Seq<char> {
    match version {
        Some(version) => version@,
        None => "?"@,
    }
}

/// The version of an installed package, or a question mark.
pub(crate) fn known_version(version: &Option<String>) -> (text: String)
    ensures
        text@ == version_or_unknown(*version),
{
    match version {
        Some(version) => version.clone(),
        None => "?".to_owned(),
    }
}

/// What a query command says.
#[derive(Debug)]
pub struct Answer {
    /// The lines for stdout.
    pub lines: Vec<String>,
    /// What the user is told besides.
    pub messages: Vec<Message>,
    /// The exit code.
    pub code: ExitCode,
}

/// Whether an installed package stands in front of all others with its id.
pub open spec fn stands_for(installed: Seq<Installed>, id: Seq<char>, at: int) -> bool {
    0 <= at < installed.len() && installed[at].id@ == id && forall|i: int|
        0 <= i < at ==> (#[trigger] installed[i]).id@ != id
}

/// An installed package is found by its id just when there is one, and then it
/// is the one in front of all others with that id.
pub proof fn installed_packages_are_found_by_id(installed: Seq<Installed>, id: Seq<char>)
    ensures
        installed_as(installed, id) matches Some(package) ==> exists|at: int| #[trigger]
            stands_for(installed, id, at) && installed[at] == package,
        installed_as(installed, id) is None <==> forall|i: int|
            0 <= i < installed.len() ==> (#[trigger] installed[i]).id@ != id,
        forall|at: int| #[trigger]
            stands_for(installed, id, at) ==> installed_as(installed, id) == Some(installed[at]),
    decreases installed.len(),
{
    if installed.len() > 0 {
        let rest = installed.drop_first();
        installed_packages_are_found_by_id(rest, id);
        assert(forall|i: int| 0 <= i < rest.len() ==> #[trigger] rest[i] == installed[i + 1]);
        assert(forall|i: int| 0 < i < installed.len() ==> #[trigger] installed[i] == rest[i - 1]);
        if installed[0].id@ == id {
            assert(stands_for(installed, id, 0));
        } else {
            if let Some(package) = installed_as(rest, id) {
                let at = choose|at: int| #[trigger] stands_for(rest, id, at) && rest[at] == package;
                assert forall|i: int| 0 <= i < at + 1 implies (#[trigger] installed[i]).id@ != id by {
                    if i > 0 {
                        assert(rest[i - 1].id@ != id);
                    }
                }
                assert(stands_for(installed, id, at + 1));
            }
            assert forall|at: int| #[trigger] stands_for(installed, id, at) implies installed_as(
                installed,
                id,
            ) == Some(installed[at]) by {
                assert forall|i: int| 0 <= i < at - 1 implies (#[trigger] rest[i]).id@ != id by {
                    assert(installed[i + 1].id@ != id);
                }
                assert(stands_for(rest, id, at - 1));
            }
        }
    }
}

/// An installed package is up to date just when it declares the very version of
/// the index, has an update just when its version is older, and has changed
/// otherwise: a version that it does not declare is never up to date.
pub proof fn statuses_go_by_versions(local: Installed, package: Package)
    ensures
        status_of(local, package) == Comparison::Same <==> (local.version matches Some(version)
            && version@ == package.version.version@),
        status_of(local, package) == Comparison::Newer <==> (local.version matches Some(version)
            && version@ != package.version.version@ && version::older(
            version@,
            package.version.version@,
        )),
        status_of(local, package) == Comparison::Changed <==> (local.version is None || (
        local.version->0@ != package.version.version@ && !version::older(
            local.version->0@,
            package.version.version@,
        ))),
{
}

/// Fallbacks to stale data are warned about; every other origin of an index is
/// a mere detail.
pub proof fn stale_data_is_warned_about(
    kind: PackageType,
    snapshot: Snapshot,
    source: Source,
    now: u64,
)
    ensures
        source_text(kind, snapshot, source, now) is Warning <==> source is StaleFallback,
        source_text(kind, snapshot, source, now) is Detail <==> source !is StaleFallback,
{
}

/// A listing and a search ask for the same thing with the same flags; only a
/// search has a query, in lowercase, and only a listing a limit.
pub proof fn searches_are_listings_with_a_query(operation: Operation, action: PackageAction)
    requires
        asks_for(operation, action),
    ensures
        operation is List <==> action is List || action is Search,
        operation is Info <==> action is Info,
        operation is Install <==> action is Add,
        operation is Outdated <==> action is Outdated,
        operation is Update <==> action is Update,
        operation is Remove <==> action is Remove,
        operation is Unused <==> action is Unused,
        operation matches Operation::List(options) ==> match action {
            PackageAction::List { installed, owned, limit } => options.query is None
                && options.installed_only == installed && options.owned_only == owned
                && options.limit == limit,
            PackageAction::Search { query, installed, owned } => (options.query matches Some(text)
                && text@ == text::lowercased(query@)) && options.installed_only == installed
                && options.owned_only == owned && options.limit is None,
            _ => false,
        },
        action matches PackageAction::Add { names } ==> operation == (Operation::Install { names }),
        action matches PackageAction::Update { names } ==> operation == (Operation::Update { names }),
        action matches PackageAction::Remove { names } ==> operation == (Operation::Remove { names }),
        action matches PackageAction::Info { name } ==> operation == (Operation::Info { name }),
        action matches PackageAction::Outdated { check } ==> operation == (Operation::Outdated {
            check,
        }),
        action matches PackageAction::Unused { prune } ==> operation == (Operation::Unused { prune }),
{
}

/// Every directory that was skipped is warned about, with its path and the
/// reason, in order.
pub proof fn every_skipped_directory_is_warned_about(skipped: Seq<(String, String)>, at: int)
    requires
        0 <= at < skipped.len(),
    ensures
        skip_warnings(skipped).len() == skipped.len(),
        text::contains_text(skip_warnings(skipped)[at], skipped[at].0@),
        text::contains_text(skip_warnings(skipped)[at], skipped[at].1@),
{
    let path = skipped[at].0@;
    let reason = skipped[at].1@;
    text::texts_contain_their_middle("skipping "@, path, ": "@ + reason);
    text::texts_contain_their_middle("skipping "@ + path + ": "@, reason, Seq::empty());
    assert("skipping "@ + path + (": "@ + reason) =~= "skipping "@ + path + ": "@ + reason);
}

} // verus!
