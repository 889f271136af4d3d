//! `outdated` and `update`: previewing and selecting updates.

use vstd::prelude::*;
use crate::api::types::{self, Package};
use crate::commands::{self, ExitCode, Message, MessageView};
use crate::commands::package::{self, Answer};
use crate::commands::package::installing::{self, SelectionView};
use crate::commands::package::listing::{self, Row, RowView};
use crate::commands::package::summary::{Summary, SummaryView};
use crate::foundry::PackageType;
use crate::foundry::local::Installed;
use crate::foundry::version::{self, Comparison};
use crate::index::Snapshot;
use crate::order;
use crate::text;
use crate::ui;

verus! {

/// The package of the index with a name; of several the last one.
pub open spec fn last_named(packages: Seq<Package>, name: Seq<char>) -> Option<Package>
    decreases packages.len(),
{
    if packages.len() == 0 {
        None
    } else if packages.last().name@ == name {
        Some(packages.last())
    } else {
        last_named(packages.drop_last(), name)
    }
}

/// The package of the index with a name; of several the last one.
fn find_last<'a>(packages: &'a Vec<Package>, name: &str) -> (found: Option<&'a Package>)
    ensures
        match found {
            Some(package) => last_named(packages@, name@) == Some(*package),
            None => last_named(packages@, name@) is None,
        },
{
    let mut end: usize = packages.len();
    assert(packages@.take(end as int) =~= packages@);
    while end > 0
        invariant
            0 <= end <= packages@.len(),
            last_named(packages@, name@) == last_named(packages@.take(end as int), name@),
        decreases end,
    {
        assert(packages@.take(end as int).last() == packages@[end - 1]);
        assert(packages@.take(end as int).drop_last() =~= packages@.take(end - 1));
        end = end - 1;
        if text::same(packages[end].name.as_str(), name) {
            return Some(&packages[end]);
        }
    }
    None
}

/// The rows of the installed packages whose index version differs from the
/// installed one.
pub open spec fn outdated_rows(scanned: Seq<Installed>, packages: Seq<Package>) -> Seq<RowView>
    decreases scanned.len(),
{
    if scanned.len() == 0 {
        Seq::empty()
    } else {
        let init = outdated_rows(scanned.drop_last(), packages);
        let local = scanned.last();
        match last_named(packages, local.id@) {
            None => init,
            Some(package) => {
                let row = RowView {
                    name: local.id@,
                    installed: package::version_or_unknown(local.version),
                    latest: package.version.version@,
                    remark: if package::status_of(local, package) == Comparison::Newer {
                        "update"@
                    } else {
                        "changed"@
                    },
                    title: package.title@,
                };
                if package::status_of(local, package) == Comparison::Same {
                    init
                } else {
                    init.push(row)
                }
            },
        }
    }
}

/// How many installed packages the index does not list.
pub open spec fn delisted_count(scanned: Seq<Installed>, packages: Seq<Package>) -> nat
    decreases scanned.len(),
{
    if scanned.len() == 0 {
        0
    } else {
        delisted_count(scanned.drop_last(), packages) + if last_named(
            packages,
            scanned.last().id@,
        ) is None {
            1nat
        } else {
            0nat
        }
    }
}

/// The header of a preview of updates.
pub open spec fn outdated_header() -> Seq<Seq<char>> {
    seq!["NAME"@, "INSTALLED"@, "AVAILABLE"@, "STATUS"@, "TITLE"@]
}

/// What a preview of updates tells the user besides.
pub open spec fn outdated_remarks(kind: PackageType, delisted: nat, rows: nat) -> Seq<MessageView> {
    let unlisted = if delisted > 0 {
        seq![
            MessageView::Detail(
                text::decimal(delisted) + " installed "@ + kind.api_text()
                    + "(s) are not listed in the index"@,
            ),
        ]
    } else {
        Seq::empty()
    };
    if rows == 0 {
        unlisted.push(
            MessageView::Status("all installed "@ + kind.api_text() + "s match the index"@),
        )
    } else {
        unlisted
    }
}

/// Lists installed packages whose index version differs from the installed
/// one. With `check`, the exit code is a failure when anything is outdated.
#[must_use]
pub fn outdated(kind: PackageType, check: bool, snapshot: &Snapshot, scanned: &Vec<Installed>) -> (
answer: Answer)
    ensures
        ({
            let rows = outdated_rows(scanned@, snapshot.packages@);
            &&& text::views(answer.lines@) == if rows.len() == 0 {
                Seq::empty()
            } else {
                ui::table(outdated_header(), listing::cells_of(rows))
            }
            &&& commands::message_views(answer.messages@) == outdated_remarks(
                kind,
                delisted_count(scanned@, snapshot.packages@),
                rows.len(),
            )
            &&& answer.code == if check && rows.len() > 0 {
                ExitCode::Failure
            } else {
                ExitCode::Success
            }
        }),
{
    let ghost all = scanned@;
    let mut rows: Vec<Row> = Vec::new();
    let mut delisted: usize = 0;
    let mut i: usize = 0;
    assert(all.take(0) =~= Seq::empty());
    assert(rows@.map_values(listing::row_view()) =~= Seq::empty());
    while i < scanned.len()
        invariant
            all == scanned@,
            0 <= i <= all.len(),
            delisted <= i,
            delisted == delisted_count(all.take(i as int), snapshot.packages@),
            rows@.map_values(listing::row_view()) == outdated_rows(all.take(i as int), snapshot.packages@),
        decreases all.len() - i,
    {
        assert(all.take(i + 1).drop_last() =~= all.take(i as int));
        assert(all.take(i + 1).last() == all[i as int]);
        let local = &scanned[i];
        i = i + 1;
        let package = match find_last(&snapshot.packages, local.id.as_str()) {
            Some(package) => package,
            None => {
                delisted = delisted + 1;
                continue;
            },
        };
        let status = match package::version_status(local, package) {
            Comparison::Same => continue,
            Comparison::Newer => "update",
            Comparison::Changed => "changed",
        };
        let row = Row {
            name: local.id.clone(),
            installed: package::known_version(&local.version),
            latest: package.version.version.clone(),
            remark: status.to_owned(),
            title: package.title.clone(),
        };
        let ghost shorter = rows@.map_values(listing::row_view());
        let ghost added = row@;
        rows.push(row);
        assert(rows@.map_values(listing::row_view()) =~= shorter.push(added));
    }
    assert(all.take(i as int) =~= all);
    let ghost found = outdated_rows(scanned@, snapshot.packages@);
    let ghost remarks = outdated_remarks(
        kind,
        delisted_count(scanned@, snapshot.packages@),
        found.len(),
    );
    assert(rows@.len() == found.len());
    let mut messages: Vec<Message> = Vec::new();
    if delisted > 0 {
        let mut line = text::count_text(delisted);
        line.append(" installed ");
        line.append(kind.api_name());
        line.append("(s) are not listed in the index");
        messages.push(Message::Detail(line));
    }
    if rows.len() == 0 {
        let mut line = "all installed ".to_owned();
        line.append(kind.api_name());
        line.append("s match the index");
        messages.push(Message::Status(line));
        let lines: Vec<String> = Vec::new();
        assert(text::views(lines@) =~= Seq::empty());
        assert(commands::message_views(messages@) =~= remarks);
        return Answer { lines, messages, code: ExitCode::Success };
    }
    assert(commands::message_views(messages@) =~= remarks);
    let header = ["NAME", "INSTALLED", "AVAILABLE", "STATUS", "TITLE"];
    assert(ui::header_views(header@) =~= outdated_header());
    let cells = listing::cells(rows);
    let lines = ui::print_table(header.as_slice(), &cells);
    let code = if check {
        ExitCode::Failure
    } else {
        ExitCode::Success
    };
    Answer { lines, messages, code }
}

/// Whether an installed package is listed in the index with a status.
pub open spec fn has_status(local: Installed, packages: Seq<Package>, status: Comparison) -> bool {
    types::first_named(packages, local.id@) matches Some(package) && package::status_of(local, package)
        == status
}

/// The ids of the installed packages with a status.
pub open spec fn ids_with_status(
    installed: Seq<Installed>,
    packages: Seq<Package>,
    status: Comparison,
) -> Seq<Seq<char>>
    decreases installed.len(),
{
    if installed.len() == 0 {
        Seq::empty()
    } else {
        let init = ids_with_status(installed.drop_last(), packages, status);
        if has_status(installed.last(), packages, status) {
            init.push(installed.last().id@)
        } else {
            init
        }
    }
}

/// The ids of the installed packages with a status.
fn select_by_status(installed: &Vec<Installed>, packages: &Vec<Package>, status: Comparison) -> (
ids: Vec<String>)
    ensures
        text::views(ids@) == ids_with_status(installed@, packages@, status),
{
    let ghost all = installed@;
    let mut ids: Vec<String> = Vec::new();
    let mut i: usize = 0;
    assert(all.take(0) =~= Seq::empty());
    assert(text::views(ids@) =~= Seq::empty());
    while i < installed.len()
        invariant
            all == installed@,
            0 <= i <= all.len(),
            text::views(ids@) == ids_with_status(all.take(i as int), packages@, status),
        decreases all.len() - i,
    {
        assert(all.take(i + 1).drop_last() =~= all.take(i as int));
        assert(all.take(i + 1).last() == all[i as int]);
        let local = &installed[i];
        if let Some(package) = types::find(packages, local.id.as_str()) {
            if package::version_status(local, package) == status {
                let ghost shorter = text::views(ids@);
                ids.push(local.id.clone());
                assert(text::views(ids@) =~= shorter.push(local.id@));
            }
        }
        i = i + 1;
    }
    assert(all.take(i as int) =~= all);
    ids
}

/// The names an update without names is about: the packages that are provably
/// older than in the index.
pub open spec fn update_names(
    names: Seq<Seq<char>>,
    snapshot: Snapshot,
    installed: Seq<Installed>,
) -> Seq<Seq<char>> {
    if names.len() == 0 {
        ids_with_status(installed, snapshot.packages@, Comparison::Newer)
    } else {
        names
    }
}

/// The installed packages that an update without names leaves alone although
/// they differ from the index.
pub open spec fn left_alone(
    names: Seq<Seq<char>>,
    snapshot: Snapshot,
    installed: Seq<Installed>,
) -> Seq<Seq<char>> {
    if names.len() == 0 {
        ids_with_status(installed, snapshot.packages@, Comparison::Changed)
    } else {
        Seq::empty()
    }
}

/// What is to be updated.
#[derive(Debug)]
pub struct Updates<'a> {
    /// The packages that actually need updating.
    pub requests: Vec<&'a Package>,
    /// What to warn about.
    pub warnings: Vec<String>,
    /// Packages that merely differ from the index and must be updated by name.
    pub left_alone: Vec<String>,
}

/// Selects the packages to update: the named ones, or, when none is named, all
/// whose version in the index is provably newer. Packages whose local version
/// merely *differs* are left alone then and must be updated by name. Immediate
/// successes and failures land in the summary.
pub fn select_updates<'a>(
    names: &Vec<String>,
    snapshot: &'a Snapshot,
    installed: &Vec<Installed>,
    assumed: &str,
    summary: &mut Summary,
) -> (updates: Updates<'a>)
    ensures
        (SelectionView {
            requests: installing::packages_of(updates.requests@),
            warnings: text::views(updates.warnings@),
            summary: final(summary)@,
        }) == installing::selection(
            update_names(text::views(names@), *snapshot, installed@),
            *snapshot,
            installed@,
            assumed@,
            true,
            old(summary)@,
        ),
        text::views(updates.left_alone@) == left_alone(
            text::views(names@),
            *snapshot,
            installed@,
        ),
{
    if names.len() == 0 {
        let newer = select_by_status(installed, &snapshot.packages, Comparison::Newer);
        let left_alone = select_by_status(installed, &snapshot.packages, Comparison::Changed);
        let (requests, warnings) = installing::select(&newer, snapshot, installed, assumed, true, summary);
        Updates { requests, warnings, left_alone }
    } else {
        let (requests, warnings) = installing::select(names, snapshot, installed, assumed, true, summary);
        let left_alone: Vec<String> = Vec::new();
        assert(text::views(left_alone@) =~= Seq::empty());
        Updates { requests, warnings, left_alone }
    }
}

/// Tells which packages were left alone and must be updated by name, if there
/// are any.
#[must_use]
pub fn report_left_alone(left_alone: &Vec<String>) -> (message: Option<Message>)
    ensures
        if left_alone@.len() == 0 {
            message is None
        } else {
            message matches Some(told) && told@ == MessageView::Status(
                "left alone, update by name: "@ + text::joined(text::views(left_alone@), ", "@),
            )
        },
{
    if left_alone.len() == 0 {
        return None;
    }
    let mut line = "left alone, update by name: ".to_owned();
    let list = text::join(left_alone, ", ");
    line.append(list.as_str());
    Some(Message::Status(line))
}

/// An id with a status belongs to an installed package that has it.
proof fn ids_with_status_are_installed(
    installed: Seq<Installed>,
    packages: Seq<Package>,
    status: Comparison,
    id: Seq<char>,
)
    requires
        ids_with_status(installed, packages, status).contains(id),
    ensures
        exists|i: int|
            0 <= i < installed.len() && (#[trigger] installed[i]).id@ == id && has_status(
                installed[i],
                packages,
                status,
            ),
    decreases installed.len(),
{
    if installed.len() > 0 {
        let init = installed.drop_last();
        let ids = ids_with_status(installed, packages, status);
        let shorter = ids_with_status(init, packages, status);
        let at = choose|i: int| 0 <= i < ids.len() && ids[i] == id;
        if at < shorter.len() {
            assert(shorter[at] == id);
            ids_with_status_are_installed(init, packages, status, id);
            let i = choose|i: int|
                0 <= i < init.len() && (#[trigger] init[i]).id@ == id && has_status(
                    init[i],
                    packages,
                    status,
                );
            assert(installed[i] == init[i]);
        } else {
            assert(installed[installed.len() - 1].id@ == id);
        }
    }
}

/// A selected package carries one of the requested names, and is the one that
/// the index lists under it.
proof fn selected_packages_are_requested(
    names: Seq<Seq<char>>,
    snapshot: Snapshot,
    installed: Seq<Installed>,
    assumed: Seq<char>,
    update: bool,
    summary: SummaryView,
    at: int,
)
    requires
        0 <= at < installing::selection(names, snapshot, installed, assumed, update, summary).requests.len(),
    ensures
        ({
            let package = installing::selection(
                names,
                snapshot,
                installed,
                assumed,
                update,
                summary,
            ).requests[at];
            names.contains(package.name@) && types::first_named(
                snapshot.packages@,
                package.name@,
            ) == Some(package)
        }),
    decreases names.len(),
{
    let init = names.drop_last();
    let before = installing::selection(init, snapshot, installed, assumed, update, summary);
    let after = installing::selection(names, snapshot, installed, assumed, update, summary);
    if at < before.requests.len() {
        selected_packages_are_requested(init, snapshot, installed, assumed, update, summary, at);
        let name = before.requests[at].name@;
        let i = choose|i: int| 0 <= i < init.len() && init[i] == name;
        assert(names[i] == name);
    } else {
        types::first_named_is_listed(snapshot.packages@, names.last());
        assert(names[names.len() - 1] == names.last());
    }
}

/// An update without names only touches packages whose version in the index is
/// provably newer than the installed one.
pub proof fn bulk_updates_are_provably_newer(
    snapshot: Snapshot,
    installed: Seq<Installed>,
    assumed: Seq<char>,
    summary: SummaryView,
    at: int,
)
    requires
        0 <= at < installing::selection(
            update_names(Seq::empty(), snapshot, installed),
            snapshot,
            installed,
            assumed,
            true,
            summary,
        ).requests.len(),
    ensures
        ({
            let package = installing::selection(
                update_names(Seq::empty(), snapshot, installed),
                snapshot,
                installed,
                assumed,
                true,
                summary,
            ).requests[at];
            exists|i: int|
                0 <= i < installed.len() && (#[trigger] installed[i]).id@ == package.name@
                    && package::status_of(installed[i], package) == Comparison::Newer
        }),
{
    let names = update_names(Seq::empty(), snapshot, installed);
    selected_packages_are_requested(names, snapshot, installed, assumed, true, summary, at);
    let package = installing::selection(names, snapshot, installed, assumed, true, summary).requests[at];
    ids_with_status_are_installed(
        installed,
        snapshot.packages@,
        Comparison::Newer,
        package.name@,
    );
    let i = choose|i: int|
        0 <= i < installed.len() && (#[trigger] installed[i]).id@ == package.name@ && has_status(
            installed[i],
            snapshot.packages@,
            Comparison::Newer,
        );
    assert(package::status_of(installed[i], package) == Comparison::Newer);
}

/// Whether a package stands behind all others of its name.
pub open spec fn stands_last(packages: Seq<Package>, name: Seq<char>, at: int) -> bool {
    0 <= at < packages.len() && packages[at].name@ == name && forall|i: int|
        at < i < packages.len() ==> (#[trigger] packages[i]).name@ != name
}

/// A preview finds a package by its name just when one is listed, and then it
/// is the one behind all others of that name.
pub proof fn previews_go_by_the_last_of_a_name(packages: Seq<Package>, name: Seq<char>)
    ensures
        last_named(packages, name) matches Some(package) ==> exists|at: int| #[trigger]
            stands_last(packages, name, at) && packages[at] == package,
        last_named(packages, name) is None <==> forall|i: int|
            0 <= i < packages.len() ==> (#[trigger] packages[i]).name@ != name,
        forall|at: int| #[trigger]
            stands_last(packages, name, at) ==> last_named(packages, name) == Some(packages[at]),
    decreases packages.len(),
{
    if packages.len() > 0 {
        let init = packages.drop_last();
        let end = packages.len() - 1;
        previews_go_by_the_last_of_a_name(init, name);
        assert(packages[end] == packages.last());
        assert(forall|i: int| 0 <= i < end ==> #[trigger] packages[i] == init[i]);
        assert(forall|i: int| 0 <= i < end ==> #[trigger] init[i] == packages[i]);
        if packages.last().name@ == name {
            assert(stands_last(packages, name, end));
        } else {
            if let Some(package) = last_named(init, name) {
                let at = choose|at: int| #[trigger]
                    stands_last(init, name, at) && init[at] == package;
                assert(stands_last(packages, name, at));
            }
            assert forall|at: int| #[trigger] stands_last(packages, name, at) implies last_named(
                packages,
                name,
            ) == Some(packages[at]) by {
                assert(stands_last(init, name, at));
            }
        }
    }
}

/// Whether an installed package declares an older version than a package of the
/// index.
pub open spec fn is_behind(local: Installed, package: Package) -> bool {
    local.version matches Some(declared) && declared@ != package.version.version@ && version::older(
        declared@,
        package.version.version@,
    )
}

/// Whether an installed package does not declare the version of a package of
/// the index, and none that is older either.
pub open spec fn is_different(local: Installed, package: Package) -> bool {
    match local.version {
        Some(declared) => declared@ != package.version.version@ && !version::older(
            declared@,
            package.version.version@,
        ),
        None => true,
    }
}

/// The test for installed packages that the index lists at a provably newer
/// version.
pub open spec fn is_outdated(packages: Seq<Package>) -> spec_fn(Installed) -> bool {
    |local: Installed|
        exists|at: int| #[trigger]
            types::stands_first(packages, local.id@, at) && is_behind(local, packages[at])
}

/// The test for installed packages that the index lists at a version that
/// merely differs.
pub open spec fn is_changed(packages: Seq<Package>) -> spec_fn(Installed) -> bool {
    |local: Installed|
        exists|at: int| #[trigger]
            types::stands_first(packages, local.id@, at) && is_different(local, packages[at])
}

/// The id of an installed package, as a function.
pub open spec fn installed_id() -> spec_fn(Installed) -> Seq<char> {
    |local: Installed| local.id@
}

/// The packages with an update are all installed ones that the index lists at a
/// provably newer version, and the changed ones all that it lists at a version
/// that merely differs, in their order.
pub proof fn every_status_is_selected(installed: Seq<Installed>, packages: Seq<Package>)
    ensures
        ids_with_status(installed, packages, Comparison::Newer) == installed.filter(
            is_outdated(packages),
        ).map_values(installed_id()),
        ids_with_status(installed, packages, Comparison::Changed) == installed.filter(
            is_changed(packages),
        ).map_values(installed_id()),
    decreases installed.len(),
{
    reveal(Seq::filter);
    if installed.len() == 0 {
        assert(ids_with_status(installed, packages, Comparison::Newer) =~= installed.filter(
            is_outdated(packages),
        ).map_values(installed_id()));
        assert(ids_with_status(installed, packages, Comparison::Changed) =~= installed.filter(
            is_changed(packages),
        ).map_values(installed_id()));
    } else {
        let init = installed.drop_last();
        let last = installed.last();
        every_status_is_selected(init, packages);
        types::packages_are_found_by_name(packages, last.id@);
        match types::first_named(packages, last.id@) {
            Some(package) => {
                let at = choose|at: int| #[trigger]
                    types::stands_first(packages, last.id@, at) && packages[at] == package;
                package::statuses_go_by_versions(last, package);
                assert(is_outdated(packages)(last) <==> is_behind(last, package));
                assert(is_changed(packages)(last) <==> is_different(last, package));
            },
            None => {},
        }
        let newer = init.filter(is_outdated(packages));
        let changed = init.filter(is_changed(packages));
        assert(newer.push(last).map_values(installed_id()) =~= newer.map_values(
            installed_id(),
        ).push(last.id@));
        assert(changed.push(last).map_values(installed_id()) =~= changed.map_values(
            installed_id(),
        ).push(last.id@));
    }
}

/// What a filtered list of ids holds.
proof fn filtered_ids_hold(installed: Seq<Installed>, test: spec_fn(Installed) -> bool, id: Seq<char>)
    ensures
        installed.filter(test).map_values(installed_id()).contains(id) <==> exists|i: int|
            0 <= i < installed.len() && (#[trigger] installed[i]).id@ == id && test(installed[i]),
{
    let kept = installed.filter(test);
    let ids = kept.map_values(installed_id());
    if ids.contains(id) {
        let k = choose|k: int| 0 <= k < ids.len() && ids[k] == id;
        assert(kept[k].id@ == id);
        order::filtering_keeps_what_passes(installed, test, kept[k]);
        assert(kept.contains(kept[k]));
        let i = choose|i: int| 0 <= i < installed.len() && installed[i] == kept[k];
        assert(installed[i].id@ == id);
    }
    if exists|i: int|
        0 <= i < installed.len() && (#[trigger] installed[i]).id@ == id && test(installed[i]) {
        let i = choose|i: int|
            0 <= i < installed.len() && (#[trigger] installed[i]).id@ == id && test(installed[i]);
        order::filtering_keeps_what_passes(installed, test, installed[i]);
        let k = choose|k: int| 0 <= k < kept.len() && kept[k] == installed[i];
        assert(ids[k] == id);
    }
}

/// An update without names is complete: for every installed package that the
/// index lists at a provably newer version, it selects the package of that name
/// or has a row with its name in the summary. A free one that stands in front
/// of all others with its id is selected.
pub proof fn every_provable_update_is_made(
    snapshot: Snapshot,
    installed: Seq<Installed>,
    assumed: Seq<char>,
    summary: SummaryView,
    local: int,
    listed: int,
)
    requires
        0 <= local < installed.len(),
        types::stands_first(snapshot.packages@, installed[local].id@, listed),
        is_behind(installed[local], snapshot.packages@[listed]),
    ensures
        ({
            let package = snapshot.packages@[listed];
            let selected = installing::selection(
                update_names(Seq::empty(), snapshot, installed),
                snapshot,
                installed,
                assumed,
                true,
                summary,
            );
            &&& selected.requests.contains(package) || installing::has_row(
                selected.summary,
                summary.rows.len(),
                package.name@,
                "✓"@,
            ) || installing::has_row(
                selected.summary,
                summary.rows.len(),
                package.name@,
                "✗"@,
            )
            &&& !package.is_protected && package::stands_for(
                installed,
                installed[local].id@,
                local,
            ) ==> selected.requests.contains(package)
        }),
{
    let id = installed[local].id@;
    let package = snapshot.packages@[listed];
    let names = update_names(Seq::empty(), snapshot, installed);
    every_status_is_selected(installed, snapshot.packages@);
    filtered_ids_hold(installed, is_outdated(snapshot.packages@), id);
    assert(is_outdated(snapshot.packages@)(installed[local]));
    assert(names.contains(id));
    installing::requested_packages_are_selected(
        names,
        snapshot,
        installed,
        assumed,
        true,
        summary,
        id,
        listed,
    );
    assert(installing::is_installed(installed, id));
    if package::stands_for(installed, id, local) {
        assert forall|i: int| #[trigger] package::stands_for(installed, id, i) implies i == local by {
            if i < local {
                assert(installed[i].id@ == id);
            }
        }
        assert(!installing::is_installed_at(installed, id, package.version.version@));
    }
}

/// A package is updated without being named just when the index lists it for an
/// installed package that is provably older, and it has to be installed.
pub proof fn bulk_updates_are_exact(
    snapshot: Snapshot,
    installed: Seq<Installed>,
    assumed: Seq<char>,
    summary: SummaryView,
    name: Seq<char>,
    at: int,
)
    requires
        types::stands_first(snapshot.packages@, name, at),
    ensures
        installing::selection(
            update_names(Seq::empty(), snapshot, installed),
            snapshot,
            installed,
            assumed,
            true,
            summary,
        ).requests.contains(snapshot.packages@[at]) <==> installing::is_due(
            snapshot.packages@[at],
            installed,
            true,
        ) && exists|i: int|
            0 <= i < installed.len() && (#[trigger] installed[i]).id@ == name && is_behind(
                installed[i],
                snapshot.packages@[at],
            ),
{
    let package = snapshot.packages@[at];
    let names = update_names(Seq::empty(), snapshot, installed);
    let test = is_outdated(snapshot.packages@);
    every_status_is_selected(installed, snapshot.packages@);
    filtered_ids_hold(installed, test, name);
    types::packages_are_found_by_name(snapshot.packages@, name);
    assert forall|i: int| 0 <= i < installed.len() && (#[trigger] installed[i]).id@ == name implies (
    test(installed[i]) <==> is_behind(installed[i], package)) by {
        if test(installed[i]) {
            let p = choose|p: int| #[trigger]
                types::stands_first(snapshot.packages@, name, p) && is_behind(
                    installed[i],
                    snapshot.packages@[p],
                );
            assert(snapshot.packages@[p] == package);
        }
    }
    installing::requested_packages_are_selected(
        names,
        snapshot,
        installed,
        assumed,
        true,
        summary,
        name,
        at,
    );
}

/// An update without names leaves alone exactly the installed packages whose
/// version merely differs from that of the index; an update of names leaves
/// none alone and is about those names.
pub proof fn changed_packages_are_left_alone(
    names: Seq<Seq<char>>,
    snapshot: Snapshot,
    installed: Seq<Installed>,
    id: Seq<char>,
)
    ensures
        names.len() > 0 ==> left_alone(names, snapshot, installed).len() == 0 && update_names(
            names,
            snapshot,
            installed,
        ) == names,
        names.len() == 0 ==> (left_alone(names, snapshot, installed).contains(id) <==> exists|
            i: int,
            at: int,
        |
            0 <= i < installed.len() && (#[trigger] installed[i]).id@ == id
                && #[trigger] types::stands_first(snapshot.packages@, id, at) && is_different(
                installed[i],
                snapshot.packages@[at],
            )),
{
    let packages = snapshot.packages@;
    every_status_is_selected(installed, packages);
    filtered_ids_hold(installed, is_changed(packages), id);
    if exists|i: int|
        0 <= i < installed.len() && (#[trigger] installed[i]).id@ == id && is_changed(packages)(
            installed[i],
        ) {
        let i = choose|i: int|
            0 <= i < installed.len() && (#[trigger] installed[i]).id@ == id && is_changed(packages)(
                installed[i],
            );
        let at = choose|at: int| #[trigger]
            types::stands_first(packages, id, at) && is_different(installed[i], packages[at]);
        assert(installed[i].id@ == id && types::stands_first(packages, id, at));
    }
    if exists|i: int, at: int|
        0 <= i < installed.len() && (#[trigger] installed[i]).id@ == id
            && #[trigger] types::stands_first(packages, id, at) && is_different(
            installed[i],
            packages[at],
        ) {
        let (i, at) = choose|i: int, at: int|
            0 <= i < installed.len() && (#[trigger] installed[i]).id@ == id
                && #[trigger] types::stands_first(packages, id, at) && is_different(
                installed[i],
                packages[at],
            );
        assert(is_changed(packages)(installed[i]));
    }
}

/// The test for installed packages whose version is not that of the index.
pub open spec fn differs_from(packages: Seq<Package>) -> spec_fn(Installed) -> bool {
    |local: Installed|
        exists|at: int| #[trigger]
            stands_last(packages, local.id@, at) && !(local.version matches Some(declared)
                && declared@ == packages[at].version.version@)
}

/// The test for installed packages that the index does not list.
pub open spec fn is_unlisted(packages: Seq<Package>) -> spec_fn(Installed) -> bool {
    |local: Installed|
        forall|i: int| 0 <= i < packages.len() ==> (#[trigger] packages[i]).name@ != local.id@
}

/// A preview has a row for every installed package that the index lists at
/// another version, in their order, and counts every one that it does not list.
pub proof fn every_difference_is_previewed(scanned: Seq<Installed>, packages: Seq<Package>)
    ensures
        outdated_rows(scanned, packages).map_values(listing::row_name()) == scanned.filter(
            differs_from(packages),
        ).map_values(installed_id()),
        delisted_count(scanned, packages) == scanned.filter(is_unlisted(packages)).len(),
    decreases scanned.len(),
{
    reveal(Seq::filter);
    if scanned.len() == 0 {
        assert(outdated_rows(scanned, packages).map_values(listing::row_name()) =~= scanned.filter(
            differs_from(packages),
        ).map_values(installed_id()));
    } else {
        let init = scanned.drop_last();
        let last = scanned.last();
        every_difference_is_previewed(init, packages);
        previews_go_by_the_last_of_a_name(packages, last.id@);
        let kept = init.filter(differs_from(packages));
        let rows = outdated_rows(init, packages);
        match last_named(packages, last.id@) {
            Some(package) => {
                let at = choose|at: int| #[trigger]
                    stands_last(packages, last.id@, at) && packages[at] == package;
                package::statuses_go_by_versions(last, package);
                assert(!is_unlisted(packages)(last)) by {
                    assert(packages[at].name@ == last.id@);
                }
                assert(differs_from(packages)(last) <==> package::status_of(last, package)
                    != Comparison::Same);
                let row = outdated_rows(scanned, packages).last();
                assert(rows.push(row).map_values(listing::row_name()) =~= rows.map_values(
                    listing::row_name(),
                ).push(row.name));
                assert(kept.push(last).map_values(installed_id()) =~= kept.map_values(
                    installed_id(),
                ).push(last.id@));
            },
            None => {
                assert(is_unlisted(packages)(last));
                assert(!differs_from(packages)(last));
            },
        }
    }
}

/// Every row of a preview tells of an installed package and of the last package
/// of its name in the index: both versions, whether that is an update or a mere
/// change, and the title.
pub proof fn previews_tell_both_versions(scanned: Seq<Installed>, packages: Seq<Package>, row: int)
    requires
        0 <= row < outdated_rows(scanned, packages).len(),
    ensures
        exists|i: int, at: int|
            #![trigger scanned[i], packages[at]]
            0 <= i < scanned.len() && 0 <= at < packages.len() && stands_last(
                packages,
                scanned[i].id@,
                at,
            ) && is_preview_of(outdated_rows(scanned, packages)[row], scanned[i], packages[at]),
    decreases scanned.len(),
{
    let init = scanned.drop_last();
    let rows = outdated_rows(scanned, packages);
    let before = outdated_rows(init, packages);
    if row < before.len() {
        previews_tell_both_versions(init, packages, row);
        let (i, at) = choose|i: int, at: int|
            #![trigger init[i], packages[at]]
            0 <= i < init.len() && 0 <= at < packages.len() && stands_last(
                packages,
                init[i].id@,
                at,
            ) && is_preview_of(before[row], init[i], packages[at]);
        assert(scanned[i] == init[i]);
        assert(is_preview_of(rows[row], scanned[i], packages[at]));
    } else {
        let local = scanned.last();
        previews_go_by_the_last_of_a_name(packages, local.id@);
        let package = last_named(packages, local.id@)->0;
        let at = choose|at: int| #[trigger]
            stands_last(packages, local.id@, at) && packages[at] == package;
        package::statuses_go_by_versions(local, package);
        assert(scanned[scanned.len() - 1] == local);
        assert(is_preview_of(rows[row], scanned[scanned.len() - 1], packages[at]));
    }
}

/// Whether a row of a preview tells of an installed package and of a package of
/// the index.
pub open spec fn is_preview_of(row: RowView, local: Installed, package: Package) -> bool {
    &&& row.name == local.id@
    &&& local.version matches Some(declared) ==> row.installed == declared@
    &&& local.version is None ==> row.installed == "?"@
    &&& row.latest == package.version.version@
    &&& row.title == package.title@
    &&& is_behind(local, package) ==> row.remark == "update"@
    &&& is_different(local, package) ==> row.remark == "changed"@
}

/// A preview without rows tells that everything matches, and one with unlisted
/// packages tells how many there are; no other preview tells anything besides.
pub proof fn previews_tell_what_has_no_row(kind: PackageType, delisted: nat, rows: nat)
    ensures
        ({
            let remarks = outdated_remarks(kind, delisted, rows);
            &&& remarks.len() == (if delisted > 0 {
                1nat
            } else {
                0nat
            }) + (if rows == 0 {
                1nat
            } else {
                0nat
            })
            &&& delisted > 0 ==> remarks[0] == MessageView::Detail(
                text::decimal(delisted) + " installed "@ + kind.api_text()
                    + "(s) are not listed in the index"@,
            )
            &&& rows == 0 ==> remarks.last() == MessageView::Status(
                "all installed "@ + kind.api_text() + "s match the index"@,
            )
        }),
{
}

} // verus!
