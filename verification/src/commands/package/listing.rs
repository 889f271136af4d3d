//! `list` and `search`: the packages of the index as a table.

use vstd::prelude::*;
use crate::api::types::{self, Package};
use crate::commands::{self, ExitCode, Message, MessageView};
use crate::commands::package::{self, Answer, ListOptions};
use crate::foundry::PackageType;
use crate::foundry::local::Installed;
use crate::foundry::version::Comparison;
use crate::index::Snapshot;
use crate::order::{self, Keyed};
use crate::text;
use crate::ui;

verus! {

/// Whether one of the lowercased texts of a package contains a query.
pub open spec fn mentions(
    name: Seq<char>,
    title: Seq<char>,
    author: Option<Seq<char>>,
    query: Seq<char>,
) -> bool {
    ||| text::contains_text(name, query)
    ||| text::contains_text(title, query)
    ||| author matches Some(author) && text::contains_text(author, query)
}

/// Whether one of the lowercased texts of a package contains `query`.
#[must_use]
pub fn mentions_query(name: &str, title: &str, author: Option<&str>, query: &str) -> (found: bool)
    ensures
        found == mentions(
            name@,
            title@,
            match author {
                Some(author) => Some(author@),
                None => None,
            },
            query@,
        ),
{
    text::contains(name, query) || text::contains(title, query) || match author {
        Some(author) => text::contains(author, query),
        None => false,
    }
}

/// Whether a package matches a lowercased search query.
pub open spec fn is_match(package: Package, query: Seq<char>) -> bool {
    mentions(
        text::lowercased(package.name@),
        text::lowercased(package.title@),
        match package.author {
            Some(author) => Some(text::lowercased(author@)),
            None => None,
        },
        query,
    )
}

/// Whether a package matches a lowercased search query (name, title or
/// author).
#[must_use]
pub fn matches_query(package: &Package, query: &str) -> (found: bool)
    ensures
        found == is_match(*package, query@),
{
    let name = text::to_lowercase(package.name.as_str());
    let title = text::to_lowercase(package.title.as_str());
    match &package.author {
        Some(author) => {
            let author = text::to_lowercase(author.as_str());
            mentions_query(name.as_str(), title.as_str(), Some(author.as_str()), query)
        },
        None => mentions_query(name.as_str(), title.as_str(), None, query),
    }
}

/// The badges of a package.
pub open spec fn badges(package: Package, local: Option<Installed>, snapshot: Snapshot) -> Seq<
    Seq<char>,
> {
    let access = if !package.is_protected {
        Seq::<Seq<char>>::empty()
    } else if snapshot.owns(package.id) {
        seq!["owned"@]
    } else {
        seq!["protected"@]
    };
    match local {
        Some(local) => match package::status_of(local, package) {
            Comparison::Newer => access.push("update"@),
            Comparison::Changed => access.push("changed"@),
            Comparison::Same => access,
        },
        None => access,
    }
}

/// The FLAGS cell for a package row.
pub open spec fn flags_text(package: Package, local: Option<Installed>, snapshot: Snapshot) -> Seq<
    char,
> {
    let badges = badges(package, local, snapshot);
    if badges.len() == 0 {
        "-"@
    } else {
        text::joined(badges, ","@)
    }
}

/// The installed package behind an optional reference.
pub open spec fn local_of(local: Option<&Installed>) -> Option<Installed> {
    match local {
        Some(local) => Some(*local),
        None => None,
    }
}

/// Builds the FLAGS cell for a package row.
#[must_use]
pub fn flags(package: &Package, local: Option<&Installed>, snapshot: &Snapshot) -> (cell: String)
    ensures
        cell@ == flags_text(*package, local_of(local), *snapshot),
{
    let mut flags: Vec<String> = Vec::new();
    if package.is_protected {
        if snapshot.is_owned(package.id) {
            flags.push("owned".to_owned());
        } else {
            flags.push("protected".to_owned());
        }
    }
    if let Some(local) = local {
        match package::version_status(local, package) {
            Comparison::Newer => flags.push("update".to_owned()),
            Comparison::Changed => flags.push("changed".to_owned()),
            Comparison::Same => {},
        }
    }
    assert(text::views(flags@) =~= badges(*package, local_of(local), *snapshot));
    if flags.len() == 0 {
        "-".to_owned()
    } else {
        text::join(&flags, ",")
    }
}

/// One row of a package table.
#[derive(Clone, Debug)]
pub struct Row {
    /// The package slug.
    pub name: String,
    /// The installed version.
    pub installed: String,
    /// The version in the index.
    pub latest: String,
    /// What there is to say about it.
    pub remark: String,
    /// Human-readable title.
    pub title: String,
}

/// One row of a package table, as text.
pub struct RowView {
    /// The package slug.
    pub name: Seq<char>,
    /// The installed version.
    pub installed: Seq<char>,
    /// The version in the index.
    pub latest: Seq<char>,
    /// What there is to say about it.
    pub remark: Seq<char>,
    /// Human-readable title.
    pub title: Seq<char>,
}

impl View for Row {
    type V = RowView;

    open spec fn view(&self) -> RowView {
        RowView {
            name: self.name@,
            installed: self.installed@,
            latest: self.latest@,
            remark: self.remark@,
            title: self.title@,
        }
    }
}

impl Keyed for Row {
    open spec fn key(&self) -> Seq<char> {
        self.name@
    }

    fn key_text(&self) -> (text: &str) {
        self.name.as_str()
    }
}

/// The view of a row, as a function.
pub open spec fn row_view() -> spec_fn(Row) -> RowView {
    |row: Row| row@
}

/// The name of a row, as a function.
pub open spec fn row_name() -> spec_fn(RowView) -> Seq<char> {
    |row: RowView| row.name
}

/// The cells of rows.
pub open spec fn cells_of(rows: Seq<RowView>) -> Seq<Seq<Seq<char>>> {
    rows.map_values(
        |row: RowView| seq![row.name, row.installed, row.latest, row.remark, row.title],
    )
}

/// The cells of rows.
pub(crate) fn cells(rows: Vec<Row>) -> (cells: Vec<Vec<String>>)
    ensures
        ui::row_views(cells@) == cells_of(rows@.map_values(row_view())),
{
    let ghost all = rows@;
    let ghost expected = cells_of(all.map_values(row_view()));
    let mut cells: Vec<Vec<String>> = Vec::new();
    let ghost mut seen: int = 0;
    assert(ui::row_views(cells@) =~= expected.take(0));
    for row in it: rows
        invariant
            it.seq() == all,
            expected == cells_of(all.map_values(row_view())),
            seen == it.index(),
            ui::row_views(cells@) == expected.take(it.index() as int),
    {
        let ghost shorter = ui::row_views(cells@);
        let ghost view = row@;
        let Row { name, installed, latest, remark, title } = row;
        let line = vec![name, installed, latest, remark, title];
        assert(text::views(line@) =~= seq![
            view.name,
            view.installed,
            view.latest,
            view.remark,
            view.title,
        ]);
        let ghost added = text::views(line@);
        cells.push(line);
        assert(ui::row_views(cells@) =~= shorter.push(added));
        assert(expected[seen] == added);
        assert(ui::row_views(cells@) =~= expected.take(seen + 1));
        proof {
            seen = seen + 1;
        }
    }
    assert(expected.take(seen) =~= expected);
    cells
}

/// Whether a package of the index is listed.
pub open spec fn is_listed(
    package: Package,
    snapshot: Snapshot,
    installed: Seq<Installed>,
    options: ListOptions,
) -> bool {
    &&& options.installed_only ==> package::installed_as(installed, package.name@) is Some
    &&& options.owned_only ==> package.is_protected && snapshot.owns(package.id)
    &&& options.query matches Some(query) ==> is_match(package, query@)
}

/// The row of a package of the index.
pub open spec fn index_row(package: Package, snapshot: Snapshot, installed: Seq<Installed>) -> RowView {
    let local = package::installed_as(installed, package.name@);
    RowView {
        name: package.name@,
        installed: match local {
            Some(local) => package::version_or_unknown(local.version),
            None => "-"@,
        },
        latest: package.version.version@,
        remark: flags_text(package, local, snapshot),
        title: package.title@,
    }
}

/// The rows of the packages of the index, in its order.
pub open spec fn index_rows(
    packages: Seq<Package>,
    snapshot: Snapshot,
    installed: Seq<Installed>,
    options: ListOptions,
) -> Seq<RowView>
    decreases packages.len(),
{
    if packages.len() == 0 {
        Seq::empty()
    } else {
        let init = index_rows(packages.drop_last(), snapshot, installed, options);
        if is_listed(packages.last(), snapshot, installed, options) {
            init.push(index_row(packages.last(), snapshot, installed))
        } else {
            init
        }
    }
}

/// Whether one of the lowercased texts of an installed package contains a
/// query.
pub open spec fn mentions_locally(
    id: Seq<char>,
    title: Option<Seq<char>>,
    query: Seq<char>,
) -> bool {
    ||| text::contains_text(id, query)
    ||| title matches Some(title) && text::contains_text(title, query)
}

/// Whether one of the lowercased texts of an installed package contains
/// `query`.
#[must_use]
pub fn mentions_query_locally(id: &str, title: Option<&str>, query: &str) -> (found: bool)
    ensures
        found == mentions_locally(
            id@,
            match title {
                Some(title) => Some(title@),
                None => None,
            },
            query@,
        ),
{
    text::contains(id, query) || match title {
        Some(title) => text::contains(title, query),
        None => false,
    }
}

/// Whether an installed package matches a lowercased search query.
pub open spec fn is_local_match(local: Installed, query: Seq<char>) -> bool {
    mentions_locally(
        text::lowercased(local.id@),
        match local.title {
            Some(title) => Some(text::lowercased(title@)),
            None => None,
        },
        query,
    )
}

/// Whether an installed package matches a lowercased search query (name or
/// title; what is known of it on disk names no author).
#[must_use]
pub fn matches_installed(local: &Installed, query: &str) -> (found: bool)
    ensures
        found == is_local_match(*local, query@),
{
    let id = text::to_lowercase(local.id.as_str());
    match &local.title {
        Some(title) => {
            let title = text::to_lowercase(title.as_str());
            mentions_query_locally(id.as_str(), Some(title.as_str()), query)
        },
        None => mentions_query_locally(id.as_str(), None, query),
    }
}

/// Whether an installed package is listed although the index does not.
pub open spec fn is_delisted(local: Installed, snapshot: Snapshot, options: ListOptions) -> bool {
    &&& types::first_named(snapshot.packages@, local.id@) is None
    &&& options.query matches Some(query) ==> is_local_match(local, query@)
}

/// The row of an installed package that the index does not list.
pub open spec fn delisted_row(local: Installed) -> RowView {
    RowView {
        name: local.id@,
        installed: package::version_or_unknown(local.version),
        latest: "-"@,
        remark: "delisted"@,
        title: match local.title {
            Some(title) => title@,
            None => Seq::empty(),
        },
    }
}

/// The rows of the installed packages that the index does not list.
pub open spec fn delisted_rows(
    installed: Seq<Installed>,
    snapshot: Snapshot,
    options: ListOptions,
) -> Seq<RowView>
    decreases installed.len(),
{
    if installed.len() == 0 {
        Seq::empty()
    } else {
        let init = delisted_rows(installed.drop_last(), snapshot, options);
        if is_delisted(installed.last(), snapshot, options) {
            init.push(delisted_row(installed.last()))
        } else {
            init
        }
    }
}

/// All rows of a listing, sorted by name: those of the index, and those of
/// installed packages that the index no longer lists where only installed
/// packages are asked for.
pub open spec fn listing(snapshot: Snapshot, installed: Seq<Installed>, options: ListOptions) -> Seq<
    RowView,
> {
    let indexed = index_rows(snapshot.packages@, snapshot, installed, options);
    let all = if options.installed_only && !options.owned_only {
        indexed + delisted_rows(installed, snapshot, options)
    } else {
        indexed
    };
    order::sorted_by(all, row_name())
}

/// The rows that a limit leaves.
pub open spec fn limited(rows: Seq<RowView>, limit: Option<usize>) -> Seq<RowView> {
    match limit {
        Some(limit) if limit < rows.len() => rows.take(limit as int),
        _ => rows,
    }
}

/// The header of a listing.
pub open spec fn list_header() -> Seq<Seq<char>> {
    seq!["NAME"@, "INSTALLED"@, "LATEST"@, "FLAGS"@, "TITLE"@]
}

/// What a listing of `rows`, of which a limit left `shown`, tells the user
/// besides.
pub open spec fn list_remark(kind: PackageType, rows: nat, shown: nat) -> Seq<MessageView> {
    if shown == 0 {
        seq![MessageView::Status("no matching "@ + kind.api_text() + "s"@)]
    } else if rows > shown {
        seq![
            MessageView::Status(
                "… "@ + text::decimal((rows - shown) as nat) + " more hidden by --limit"@,
            ),
        ]
    } else {
        Seq::empty()
    }
}

/// The rows of the packages of the index, in its order.
fn rows_of_index(snapshot: &Snapshot, installed: &Vec<Installed>, options: &ListOptions) -> (
rows: Vec<Row>)
    ensures
        rows@.map_values(row_view()) == index_rows(
            snapshot.packages@,
            *snapshot,
            installed@,
            *options,
        ),
{
    let mut rows: Vec<Row> = Vec::new();
    let mut i: usize = 0;
    let ghost all = snapshot.packages@;
    assert(all.take(0) =~= Seq::empty());
    assert(rows@.map_values(row_view()) =~= Seq::empty());
    while i < snapshot.packages.len()
        invariant
            all == snapshot.packages@,
            0 <= i <= all.len(),
            rows@.map_values(row_view()) == index_rows(
                all.take(i as int),
                *snapshot,
                installed@,
                *options,
            ),
        decreases all.len() - i,
    {
        assert(all.take(i + 1).drop_last() =~= all.take(i as int));
        assert(all.take(i + 1).last() == all[i as int]);
        let package = &snapshot.packages[i];
        i = i + 1;
        let local = package::find_installed(installed, package.name.as_str());
        if options.installed_only && local.is_none() {
            continue;
        }
        if options.owned_only && !(package.is_protected && snapshot.is_owned(package.id)) {
            continue;
        }
        if let Some(query) = &options.query {
            if !matches_query(package, query.as_str()) {
                continue;
            }
        }
        let row = Row {
            name: package.name.clone(),
            installed: match local {
                Some(local) => package::known_version(&local.version),
                None => "-".to_owned(),
            },
            latest: package.version.version.clone(),
            remark: flags(package, local, snapshot),
            title: package.title.clone(),
        };
        assert(row@ == index_row(*package, *snapshot, installed@));
        let ghost shorter = rows@.map_values(row_view());
        let ghost added = row@;
        rows.push(row);
        assert(rows@.map_values(row_view()) =~= shorter.push(added));
    }
    assert(all.take(i as int) =~= all);
    rows
}

/// Adds the rows of the installed packages that the index does not list.
fn add_delisted_rows(
    rows: &mut Vec<Row>,
    snapshot: &Snapshot,
    installed: &Vec<Installed>,
    options: &ListOptions,
)
    ensures
        final(rows)@.map_values(row_view()) == old(rows)@.map_values(row_view()) + delisted_rows(
            installed@,
            *snapshot,
            *options,
        ),
{
    let ghost start = rows@.map_values(row_view());
    let mut i: usize = 0;
    let ghost all = installed@;
    assert(all.take(0) =~= Seq::empty());
    assert(start + Seq::<RowView>::empty() =~= start);
    while i < installed.len()
        invariant
            all == installed@,
            0 <= i <= all.len(),
            start == old(rows)@.map_values(row_view()),
            rows@.map_values(row_view()) == start + delisted_rows(
                all.take(i as int),
                *snapshot,
                *options,
            ),
        decreases all.len() - i,
    {
        assert(all.take(i + 1).drop_last() =~= all.take(i as int));
        assert(all.take(i + 1).last() == all[i as int]);
        let ghost so_far = delisted_rows(all.take(i as int), *snapshot, *options);
        let local = &installed[i];
        i = i + 1;
        if types::find(&snapshot.packages, local.id.as_str()).is_some() {
            continue;
        }
        if let Some(query) = &options.query {
            if !matches_installed(local, query.as_str()) {
                continue;
            }
        }
        let row = Row {
            name: local.id.clone(),
            installed: package::known_version(&local.version),
            latest: "-".to_owned(),
            remark: "delisted".to_owned(),
            title: match &local.title {
                Some(title) => title.clone(),
                None => {
                    proof {
                        reveal_strlit("");
                    }
                    "".to_owned()
                },
            },
        };
        assert(row.title@ =~= delisted_row(*local).title);
        let ghost shorter = rows@.map_values(row_view());
        let ghost added = row@;
        rows.push(row);
        assert(rows@.map_values(row_view()) =~= shorter.push(added));
        assert(start + so_far.push(added) =~= (start + so_far).push(added));
    }
    assert(all.take(i as int) =~= all);
}

/// Lists or searches the index, with optional installed/owned filters.
#[must_use]
pub fn list(
    kind: PackageType,
    snapshot: &Snapshot,
    installed: &Vec<Installed>,
    options: &ListOptions,
) -> (answer: Answer)
    ensures
        ({
            let rows = listing(*snapshot, installed@, *options);
            let shown = limited(rows, options.limit);
            &&& answer.code == ExitCode::Success
            &&& text::views(answer.lines@) == if shown.len() == 0 {
                Seq::empty()
            } else {
                ui::table(list_header(), cells_of(shown))
            }
            &&& commands::message_views(answer.messages@) == list_remark(kind, rows.len(), shown.len())
        }),
{
    let mut rows = rows_of_index(snapshot, installed, options);
    if options.installed_only && !options.owned_only {
        add_delisted_rows(&mut rows, snapshot, installed, options);
    }
    let ghost found = rows@;
    let mut rows = order::sort(rows);
    proof {
        order::sorting_commutes(found, row_view(), row_name());
    }
    let ghost all = listing(*snapshot, installed@, *options);
    assert(rows@.map_values(row_view()) == all);
    let total = rows.len();
    if let Some(limit) = options.limit {
        if limit < total {
            rows.truncate(limit);
            assert(rows@.map_values(row_view()) =~= all.take(limit as int));
        }
    }
    let ghost shown = limited(all, options.limit);
    assert(rows@.map_values(row_view()) == shown);
    assert(rows@.len() == shown.len());
    let count = rows.len();
    if count == 0 {
        let mut line = "no matching ".to_owned();
        line.append(kind.api_name());
        line.append("s");
        let lines: Vec<String> = Vec::new();
        let messages = vec![Message::Status(line)];
        assert(text::views(lines@) =~= Seq::empty());
        assert(commands::message_views(messages@) =~= list_remark(kind, all.len(), shown.len()));
        return Answer { lines, messages, code: ExitCode::Success };
    }
    let header = ["NAME", "INSTALLED", "LATEST", "FLAGS", "TITLE"];
    assert(ui::header_views(header@) =~= list_header());
    let cells = cells(rows);
    let lines = ui::print_table(header.as_slice(), &cells);
    let mut messages: Vec<Message> = Vec::new();
    if total > count {
        let mut line = "… ".to_owned();
        let hidden = text::count_text(total - count);
        line.append(hidden.as_str());
        line.append(" more hidden by --limit");
        messages.push(Message::Status(line));
    }
    assert(commands::message_views(messages@) =~= list_remark(kind, all.len(), shown.len()));
    Answer { lines, messages, code: ExitCode::Success }
}

/// A listing is sorted by name and never longer than its limit.
pub proof fn listings_are_sorted_and_limited(
    snapshot: Snapshot,
    installed: Seq<Installed>,
    options: ListOptions,
)
    ensures
        order::in_order(limited(listing(snapshot, installed, options), options.limit), row_name()),
        options.limit matches Some(limit) ==> limited(
            listing(snapshot, installed, options),
            options.limit,
        ).len() <= limit,
{
    let indexed = index_rows(snapshot.packages@, snapshot, installed, options);
    let all = if options.installed_only && !options.owned_only {
        indexed + delisted_rows(installed, snapshot, options)
    } else {
        indexed
    };
    order::sorting_is_stable(all, row_name(), Seq::empty());
    let rows = listing(snapshot, installed, options);
    let shown = limited(rows, options.limit);
    assert forall|i: int, j: int| 0 <= i < j < shown.len() implies !text::before(
        row_name()(#[trigger] shown[j]),
        row_name()(#[trigger] shown[i]),
    ) by {
        assert(shown[i] == rows[i] && shown[j] == rows[j]);
    }
}

/// Whether a text contains a query once it is lowercased.
pub open spec fn says(text: Seq<char>, query: Seq<char>) -> bool {
    exists|at: int|
        0 <= at && at + query.len() <= text::lowercased(text).len()
            && #[trigger] text::lowercased(text).subrange(at, at + query.len()) == query
}

/// A text says what its lowercased form contains.
proof fn saying_is_containing(text: Seq<char>, query: Seq<char>)
    ensures
        says(text, query) <==> text::contains_text(text::lowercased(text), query),
{
    let lower = text::lowercased(text);
    if says(text, query) {
        let at = choose|at: int|
            0 <= at && at + query.len() <= lower.len() && #[trigger] lower.subrange(
                at,
                at + query.len(),
            ) == query;
        assert(text::occurs_at(lower, query, at));
    }
    if text::contains_text(lower, query) {
        let at = choose|at: int| text::occurs_at(lower, query, at);
        assert(lower.subrange(at, at + query.len()) == query);
    }
}

/// The test for packages of the index that pass each filter that is set.
pub open spec fn passes(snapshot: Snapshot, installed: Seq<Installed>, options: ListOptions) -> spec_fn(
    Package,
) -> bool {
    |package: Package|
        {
            &&& options.installed_only ==> exists|i: int|
                0 <= i < installed.len() && (#[trigger] installed[i]).id@ == package.name@
            &&& options.owned_only ==> package.is_protected && snapshot.owned@.contains(package.id)
            &&& options.query matches Some(query) ==> says(package.name@, query@) || says(
                package.title@,
                query@,
            ) || (package.author matches Some(author) && says(author@, query@))
        }
}

/// The row of a package, as a function.
pub open spec fn row_of(snapshot: Snapshot, installed: Seq<Installed>) -> spec_fn(Package) -> RowView {
    |package: Package| index_row(package, snapshot, installed)
}

/// A package of the index has a row just when it passes each filter that is
/// set, on its own: with a query, its name, title or author contains the query
/// whatever the case, whether or not only installed or owned packages are asked
/// for.
pub proof fn rows_pass_every_filter(
    packages: Seq<Package>,
    snapshot: Snapshot,
    installed: Seq<Installed>,
    options: ListOptions,
)
    ensures
        index_rows(packages, snapshot, installed, options) == packages.filter(
            passes(snapshot, installed, options),
        ).map_values(row_of(snapshot, installed)),
    decreases packages.len(),
{
    reveal(Seq::filter);
    let test = passes(snapshot, installed, options);
    let row = row_of(snapshot, installed);
    if packages.len() == 0 {
        assert(index_rows(packages, snapshot, installed, options) =~= packages.filter(
            test,
        ).map_values(row));
    } else {
        let init = packages.drop_last();
        let last = packages.last();
        rows_pass_every_filter(init, snapshot, installed, options);
        package::installed_packages_are_found_by_id(installed, last.name@);
        let kept = init.filter(test);
        assert(kept.push(last).map_values(row) =~= kept.map_values(row).push(row(last)));
        if let Some(query) = options.query {
            saying_is_containing(last.name@, query@);
            saying_is_containing(last.title@, query@);
            if let Some(author) = last.author {
                saying_is_containing(author@, query@);
            }
        }
        assert(is_listed(last, snapshot, installed, options) <==> test(last));
    }
}

/// Whether a row tells of a package of the index: its name, the version that is
/// installed, the version of the index and the title.
pub open spec fn is_row_of(row: RowView, package: Package, installed: Seq<Installed>) -> bool {
    &&& row.name == package.name@
    &&& row.latest == package.version.version@
    &&& row.title == package.title@
    &&& forall|i: int| #[trigger]
        package::stands_for(installed, package.name@, i) ==> match installed[i].version {
            Some(version) => row.installed == version@,
            None => row.installed == "?"@,
        }
    &&& (forall|i: int|
        0 <= i < installed.len() ==> (#[trigger] installed[i]).id@ != package.name@)
        ==> row.installed == "-"@
}

/// Every row of a package tells its name, the version that is installed, the
/// version of the index and the title.
pub proof fn rows_tell_both_versions(
    package: Package,
    snapshot: Snapshot,
    installed: Seq<Installed>,
)
    ensures
        is_row_of(index_row(package, snapshot, installed), package, installed),
{
    package::installed_packages_are_found_by_id(installed, package.name@);
}

/// The flags of a package: whether it is protected, and then whether it is
/// owned; and whether the installed one can be updated or has changed. Without
/// any there is a hyphen.
pub proof fn flags_tell_access_and_status(
    package: Package,
    local: Option<Installed>,
    snapshot: Snapshot,
)
    ensures
        ({
            let badges = badges(package, local, snapshot);
            let owned = snapshot.owned@.contains(package.id);
            let newer = local matches Some(local) && package::status_of(local, package)
                == Comparison::Newer;
            let changed = local matches Some(local) && package::status_of(local, package)
                == Comparison::Changed;
            &&& badges.contains("owned"@) <==> package.is_protected && owned
            &&& badges.contains("protected"@) <==> package.is_protected && !owned
            &&& badges.contains("update"@) <==> newer
            &&& badges.contains("changed"@) <==> changed
            &&& badges.no_duplicates()
            &&& package.is_protected && (newer || changed) ==> badges.len() == 2 && (badges[1]
                == "update"@ || badges[1] == "changed"@)
            &&& badges.len() <= 2
            &&& badges.len() == 0 ==> flags_text(package, local, snapshot) == "-"@
            &&& badges.len() > 0 ==> flags_text(package, local, snapshot) == text::joined(
                badges,
                ","@,
            )
        }),
{
    reveal_strlit("owned");
    reveal_strlit("protected");
    reveal_strlit("update");
    reveal_strlit("changed");
    let badges = badges(package, local, snapshot);
    assert("owned"@.len() == 5 && "protected"@.len() == 9 && "update"@.len() == 6
        && "changed"@.len() == 7);
    if badges.len() > 0 {
        assert(badges.contains(badges[0]));
    }
    if badges.len() > 1 {
        assert(badges.contains(badges[1]));
    }
}

/// The test for installed packages that the index does not list and that pass
/// the query.
pub open spec fn is_missing(packages: Seq<Package>, options: ListOptions) -> spec_fn(
    Installed,
) -> bool {
    |local: Installed|
        {
            &&& forall|i: int|
                0 <= i < packages.len() ==> (#[trigger] packages[i]).name@ != local.id@
            &&& options.query matches Some(query) ==> says(local.id@, query@) || (
            local.title matches Some(title) && says(title@, query@))
        }
}

/// The row of an installed package that the index does not list, as a function.
pub open spec fn missing_row() -> spec_fn(Installed) -> RowView {
    |local: Installed| delisted_row(local)
}

/// An installed package has a row as delisted just when no package of the index
/// has its name and it passes the query; the row tells what is known of it on
/// disk.
pub proof fn delisted_rows_are_unlisted(
    installed: Seq<Installed>,
    snapshot: Snapshot,
    options: ListOptions,
)
    ensures
        delisted_rows(installed, snapshot, options) == installed.filter(
            is_missing(snapshot.packages@, options),
        ).map_values(missing_row()),
        forall|local: Installed|
            {
                let row = #[trigger] delisted_row(local);
                &&& row.name == local.id@
                &&& row.latest == "-"@
                &&& row.remark == "delisted"@
                &&& local.version matches Some(version) ==> row.installed == version@
                &&& local.version is None ==> row.installed == "?"@
                &&& local.title matches Some(title) ==> row.title == title@
                &&& local.title is None ==> row.title.len() == 0
            },
    decreases installed.len(),
{
    reveal(Seq::filter);
    let test = is_missing(snapshot.packages@, options);
    if installed.len() == 0 {
        assert(delisted_rows(installed, snapshot, options) =~= installed.filter(test).map_values(
            missing_row(),
        ));
    } else {
        let init = installed.drop_last();
        let last = installed.last();
        delisted_rows_are_unlisted(init, snapshot, options);
        types::packages_are_found_by_name(snapshot.packages@, last.id@);
        let kept = init.filter(test);
        assert(kept.push(last).map_values(missing_row()) =~= kept.map_values(missing_row()).push(
            delisted_row(last),
        ));
        if let Some(query) = options.query {
            saying_is_containing(last.id@, query@);
            if let Some(title) = last.title {
                saying_is_containing(title@, query@);
            }
        }
        assert(is_delisted(last, snapshot, options) <==> test(last));
    }
}

/// What a filtered and mapped list holds.
proof fn mapped_rows_hold<T>(
    items: Seq<T>,
    test: spec_fn(T) -> bool,
    view: spec_fn(T) -> RowView,
    row: RowView,
)
    ensures
        items.filter(test).map_values(view).contains(row) <==> exists|i: int|
            0 <= i < items.len() && test(#[trigger] items[i]) && view(items[i]) == row,
{
    let kept = items.filter(test);
    let rows = kept.map_values(view);
    if rows.contains(row) {
        let k = choose|k: int| 0 <= k < rows.len() && rows[k] == row;
        order::filtering_keeps_what_passes(items, test, kept[k]);
        assert(kept.contains(kept[k]));
        let i = choose|i: int| 0 <= i < items.len() && items[i] == kept[k];
        assert(test(items[i]));
    }
    if exists|i: int| 0 <= i < items.len() && test(#[trigger] items[i]) && view(items[i]) == row {
        let i = choose|i: int|
            0 <= i < items.len() && test(#[trigger] items[i]) && view(items[i]) == row;
        order::filtering_keeps_what_passes(items, test, items[i]);
        let k = choose|k: int| 0 <= k < kept.len() && kept[k] == items[i];
        assert(rows[k] == row);
    }
}

/// A listing holds the rows of exactly those packages of the index that pass
/// each filter, and, when installed packages are asked for and not only owned
/// ones, of exactly those installed packages that the index does not list and
/// that pass the query. In particular, no row of a listing with a query belongs
/// to a package none of whose texts contains it.
pub proof fn listings_hold_what_passes(
    snapshot: Snapshot,
    installed: Seq<Installed>,
    options: ListOptions,
    row: RowView,
)
    ensures
        listing(snapshot, installed, options).contains(row) <==> {
            ||| exists|i: int|
                0 <= i < snapshot.packages@.len() && passes(snapshot, installed, options)(
                    #[trigger] snapshot.packages@[i],
                ) && index_row(snapshot.packages@[i], snapshot, installed) == row
            ||| options.installed_only && !options.owned_only && exists|i: int|
                0 <= i < installed.len() && is_missing(snapshot.packages@, options)(
                    #[trigger] installed[i],
                ) && delisted_row(installed[i]) == row
        },
        listing(snapshot, installed, options).len() == snapshot.packages@.filter(
            passes(snapshot, installed, options),
        ).len() + if options.installed_only && !options.owned_only {
            installed.filter(is_missing(snapshot.packages@, options)).len()
        } else {
            0
        },
{
    let indexed = index_rows(snapshot.packages@, snapshot, installed, options);
    let delisted = delisted_rows(installed, snapshot, options);
    rows_pass_every_filter(snapshot.packages@, snapshot, installed, options);
    delisted_rows_are_unlisted(installed, snapshot, options);
    mapped_rows_hold(
        snapshot.packages@,
        passes(snapshot, installed, options),
        row_of(snapshot, installed),
        row,
    );
    mapped_rows_hold(installed, is_missing(snapshot.packages@, options), missing_row(), row);
    let all = if options.installed_only && !options.owned_only {
        indexed + delisted
    } else {
        indexed
    };
    order::sorting_keeps_the_elements(all, row_name(), row);
    if options.installed_only && !options.owned_only {
        if indexed.contains(row) {
            let i = choose|i: int| 0 <= i < indexed.len() && indexed[i] == row;
            assert(all[i] == row);
        }
        if delisted.contains(row) {
            let i = choose|i: int| 0 <= i < delisted.len() && delisted[i] == row;
            assert(all[indexed.len() + i] == row);
        }
        if all.contains(row) {
            let i = choose|i: int| 0 <= i < all.len() && all[i] == row;
            if i < indexed.len() {
                assert(indexed[i] == row);
            } else {
                assert(delisted[i - indexed.len()] == row);
            }
        }
    }
    if exists|i: int|
        0 <= i < snapshot.packages@.len() && passes(snapshot, installed, options)(
            #[trigger] snapshot.packages@[i],
        ) && index_row(snapshot.packages@[i], snapshot, installed) == row {
        let i = choose|i: int|
            0 <= i < snapshot.packages@.len() && passes(snapshot, installed, options)(
                #[trigger] snapshot.packages@[i],
            ) && index_row(snapshot.packages@[i], snapshot, installed) == row;
        assert(row_of(snapshot, installed)(snapshot.packages@[i]) == row);
    }
    if exists|i: int|
        0 <= i < installed.len() && is_missing(snapshot.packages@, options)(
            #[trigger] installed[i],
        ) && delisted_row(installed[i]) == row {
        let i = choose|i: int|
            0 <= i < installed.len() && is_missing(snapshot.packages@, options)(
                #[trigger] installed[i],
            ) && delisted_row(installed[i]) == row;
        assert(missing_row()(installed[i]) == row);
    }
}

/// A limit leaves the first rows, as many as it allows; without one all rows
/// stay. What is hidden is counted.
pub proof fn limits_leave_the_first_rows(
    kind: PackageType,
    rows: Seq<RowView>,
    limit: Option<usize>,
)
    ensures
        limited(rows, limit).is_prefix_of(rows),
        limit is None ==> limited(rows, limit) == rows,
        limit matches Some(limit) ==> (limit >= rows.len() ==> limited(rows, Some(limit)) == rows)
            && (limit <= rows.len() ==> limited(rows, Some(limit)).len() == limit),
        list_remark(kind, rows.len(), limited(rows, limit).len()).len() == 0 <==> rows.len() > 0
            && limited(rows, limit) == rows,
        limited(rows, limit).len() == 0 ==> list_remark(kind, rows.len(), 0) == seq![
            MessageView::Status("no matching "@ + kind.api_text() + "s"@),
        ],
        0 < limited(rows, limit).len() < rows.len() ==> list_remark(
            kind,
            rows.len(),
            limited(rows, limit).len(),
        ) == seq![
            MessageView::Status(
                "… "@ + text::decimal((rows.len() - limited(rows, limit).len()) as nat)
                    + " more hidden by --limit"@,
            ),
        ],
{
    assert(limited(rows, limit) =~= rows.take(limited(rows, limit).len() as int));
}

/// Every row has a cell for each column of its table: the name, the installed
/// version, the version of the index, the flags or status, and the title.
pub proof fn rows_fill_their_columns(rows: Seq<RowView>, at: int)
    requires
        0 <= at < rows.len(),
    ensures
        cells_of(rows).len() == rows.len(),
        cells_of(rows)[at].len() == list_header().len(),
        cells_of(rows)[at][0] == rows[at].name,
        cells_of(rows)[at][1] == rows[at].installed,
        cells_of(rows)[at][2] == rows[at].latest,
        cells_of(rows)[at][3] == rows[at].remark,
        cells_of(rows)[at][4] == rows[at].title,
        list_header()[0] == "NAME"@,
        list_header()[1] == "INSTALLED"@,
        list_header()[2] == "LATEST"@,
        list_header()[3] == "FLAGS"@,
        list_header()[4] == "TITLE"@,
{
}

} // verus!
