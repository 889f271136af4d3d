//! `unused`: what no world uses, and what may be deleted.

use vstd::prelude::*;
use crate::commands::{self, ExitCode, Message, MessageView};
use crate::commands::package::{self, Answer};
use crate::foundry::PackageType;
use crate::foundry::local::Installed;
use crate::foundry::worlds::{self, Usage, UsageView, World};
use crate::text;
use crate::ui;

verus! {

/// The ids that worlds use of one package type.
pub open spec fn used_ids(kind: PackageType, usage: UsageView) -> Seq<Seq<char>> {
    match kind {
        PackageType::Module => usage.modules,
        PackageType::System => usage.systems,
    }
}

/// The installed packages whose ids are not used.
pub open spec fn unused_in(installed: Seq<Installed>, used: Seq<Seq<char>>) -> Seq<Installed>
    decreases installed.len(),
{
    if installed.len() == 0 {
        Seq::empty()
    } else {
        let init = unused_in(installed.drop_last(), used);
        if used.contains(installed.last().id@) {
            init
        } else {
            init.push(installed.last())
        }
    }
}

/// The cells of the rows of unused packages.
pub open spec fn unused_cells(unused: Seq<Installed>, certain: bool) -> Seq<Seq<Seq<char>>> {
    unused.map_values(
        |package: Installed|
            seq![
                package.id@,
                package::version_or_unknown(package.version),
                if certain {
                    "unused"@
                } else {
                    "possibly unused"@
                },
                match package.title {
                    Some(title) => title@,
                    None => Seq::empty(),
                },
            ],
    )
}

/// The header of a list of unused packages.
pub open spec fn unused_header() -> Seq<Seq<char>> {
    seq!["NAME"@, "INSTALLED"@, "STATUS"@, "TITLE"@]
}

/// The warnings about worlds that could not be inspected.
pub open spec fn world_warnings(unreadable: Seq<(Seq<char>, Seq<char>)>) -> Seq<MessageView> {
    unreadable.map_values(
        |entry: (Seq<char>, Seq<char>)|
            MessageView::Warning("could not inspect world `"@ + entry.0 + "`: "@ + entry.1),
    )
}

/// What a list of unused packages tells the user besides.
pub open spec fn unused_remarks(
    kind: PackageType,
    usage: UsageView,
    unused: nat,
    prune: bool,
) -> Seq<MessageView> {
    let worlds = world_warnings(usage.unreadable);
    if unused == 0 {
        worlds.push(MessageView::Status("no unused "@ + kind.api_text() + "s"@))
    } else if prune && usage.unreadable.len() > 0 {
        worlds.push(
            MessageView::Warning(
                "refusing to prune: some worlds could not be inspected"@,
            ),
        )
    } else {
        worlds
    }
}

/// The ids that are to be deleted: those of the unused packages, when that is
/// asked for and every world could be inspected.
pub open spec fn prunable(unused: Seq<Installed>, usage: UsageView, prune: bool) -> Seq<Seq<char>> {
    if prune && usage.unreadable.len() == 0 {
        unused.map_values(|package: Installed| package.id@)
    } else {
        Seq::empty()
    }
}

/// What is said and done about unused packages.
#[derive(Debug)]
pub struct Unused {
    /// What is said.
    pub answer: Answer,
    /// The packages to be deleted, after confirmation.
    pub prune: Vec<String>,
}

/// Warns about worlds that could not be inspected.
#[must_use]
pub fn warn_worlds(unreadable: &Vec<(String, String)>) -> (messages: Vec<Message>)
    ensures
        commands::message_views(messages@) == world_warnings(text::pair_views(unreadable@)),
{
    let mut messages: Vec<Message> = Vec::new();
    let ghost warnings = world_warnings(text::pair_views(unreadable@));
    let mut i: usize = 0;
    assert(commands::message_views(messages@) =~= warnings.take(0));
    while i < unreadable.len()
        invariant
            warnings == world_warnings(text::pair_views(unreadable@)),
            0 <= i <= unreadable@.len(),
            commands::message_views(messages@) == warnings.take(i as int),
        decreases unreadable@.len() - i,
    {
        let mut line = "could not inspect world `".to_owned();
        line.append(unreadable[i].0.as_str());
        line.append("`: ");
        line.append(unreadable[i].1.as_str());
        let ghost shorter = commands::message_views(messages@);
        let message = Message::Warning(line);
        let ghost added = message@;
        messages.push(message);
        assert(commands::message_views(messages@) =~= shorter.push(added));
        assert(commands::message_views(messages@) =~= warnings.take(i + 1));
        i = i + 1;
    }
    assert(warnings.take(i as int) =~= warnings);
    messages
}

/// The installed packages whose ids are not used.
fn find_unused<'a>(installed: &'a Vec<Installed>, used: &Vec<String>) -> (unused: Vec<
    &'a Installed,
>)
    ensures
        unused@.map_values(|package: &Installed| *package) == unused_in(
            installed@,
            text::views(used@),
        ),
{
    let ghost all = installed@;
    let ghost ids = text::views(used@);
    let mut unused: Vec<&'a Installed> = Vec::new();
    let mut i: usize = 0;
    assert(all.take(0) =~= Seq::empty());
    assert(unused@.map_values(|package: &Installed| *package) =~= Seq::empty());
    while i < installed.len()
        invariant
            all == installed@,
            ids == text::views(used@),
            0 <= i <= all.len(),
            unused@.map_values(|package: &Installed| *package) == unused_in(
                all.take(i as int),
                ids,
            ),
        decreases all.len() - i,
    {
        assert(all.take(i + 1).drop_last() =~= all.take(i as int));
        assert(all.take(i + 1).last() == all[i as int]);
        let package = &installed[i];
        proof {
            text::views_hold(used@, package.id@);
        }
        if !text::holds(used, package.id.as_str()) {
            let ghost shorter = unused@.map_values(|package: &Installed| *package);
            unused.push(package);
            assert(unused@.map_values(|package: &Installed| *package) =~= shorter.push(*package));
        }
        i = i + 1;
    }
    assert(all.take(i as int) =~= all);
    unused
}

/// Lists the installed packages that no world uses, and with `prune` names
/// those to be deleted. While any world could not be inspected the packages
/// only count as possibly unused, and none is deleted.
#[must_use]
pub fn unused(kind: PackageType, installed: &Vec<Installed>, usage: &Usage, prune: bool) -> (
result: Unused)
    ensures
        ({
            let unused = unused_in(installed@, used_ids(kind, usage@));
            let certain = usage@.unreadable.len() == 0;
            &&& text::views(result.answer.lines@) == if unused.len() == 0 {
                Seq::empty()
            } else {
                ui::table(unused_header(), unused_cells(unused, certain))
            }
            &&& commands::message_views(result.answer.messages@) == unused_remarks(
                kind,
                usage@,
                unused.len(),
                prune,
            )
            &&& result.answer.code == if prune && !certain && unused.len() > 0 {
                ExitCode::Failure
            } else {
                ExitCode::Success
            }
            &&& text::views(result.prune@) == prunable(unused, usage@, prune)
        }),
{
    let used = match kind {
        PackageType::Module => &usage.modules,
        PackageType::System => &usage.systems,
    };
    let certain = usage.unreadable.len() == 0;
    let found = find_unused(installed, used);
    let ghost unused = unused_in(installed@, used_ids(kind, usage@));
    let ghost mapped = found@.map_values(|package: &Installed| *package);
    assert(mapped == unused);
    assert(found@.len() == unused.len());
    assert forall|k: int| 0 <= k < found@.len() implies *(#[trigger] found@[k]) == unused[k] by {
        assert(mapped[k] == *found@[k]);
    }
    let mut messages = warn_worlds(&usage.unreadable);
    let ghost expected = unused_cells(unused, certain);
    let mut cells: Vec<Vec<String>> = Vec::new();
    let mut prunes: Vec<String> = Vec::new();
    let ghost ids = prunable(unused, usage@, prune);
    let mut i: usize = 0;
    assert(ui::row_views(cells@) =~= expected.take(0));
    assert(text::views(prunes@) =~= Seq::empty());
    while i < found.len()
        invariant
            0 <= i <= found@.len(),
            found@.len() == unused.len(),
            certain == (usage@.unreadable.len() == 0),
            forall|k: int| 0 <= k < found@.len() ==> *(#[trigger] found@[k]) == unused[k],
            expected == unused_cells(unused, certain),
            ids == prunable(unused, usage@, prune),
            ui::row_views(cells@) == expected.take(i as int),
            text::views(prunes@) == if prune && certain {
                ids.take(i as int)
            } else {
                Seq::empty()
            },
        decreases found@.len() - i,
    {
        let package = found[i];
        assert(*package == unused[i as int]);
        let title = match &package.title {
            Some(title) => title.clone(),
            None => {
                proof {
                    reveal_strlit("");
                }
                "".to_owned()
            },
        };
        assert(title@ =~= match package.title {
            Some(title) => title@,
            None => Seq::empty(),
        });
        let status = if certain {
            "unused"
        } else {
            "possibly unused"
        };
        let line = vec![
            package.id.clone(),
            package::known_version(&package.version),
            status.to_owned(),
            title,
        ];
        assert(text::views(line@) =~= expected[i as int]);
        let ghost shorter = ui::row_views(cells@);
        let ghost added = text::views(line@);
        cells.push(line);
        assert(ui::row_views(cells@) =~= shorter.push(added));
        assert(ui::row_views(cells@) =~= expected.take(i + 1));
        if prune && certain {
            let ghost fewer = text::views(prunes@);
            prunes.push(package.id.clone());
            assert(text::views(prunes@) =~= fewer.push(package.id@));
            assert(text::views(prunes@) =~= ids.take(i + 1));
        }
        i = i + 1;
    }
    assert(expected.take(i as int) =~= expected);
    assert(prune && certain ==> ids.take(i as int) =~= ids);
    let ghost remarks = unused_remarks(kind, usage@, unused.len(), prune);
    if found.len() == 0 {
        let mut line = "no unused ".to_owned();
        line.append(kind.api_name());
        line.append("s");
        messages.push(Message::Status(line));
        assert(commands::message_views(messages@) =~= remarks);
        let lines: Vec<String> = Vec::new();
        assert(text::views(lines@) =~= Seq::empty());
        let answer = Answer { lines, messages, code: ExitCode::Success };
        return Unused { answer, prune: prunes };
    }
    let refused = prune && !certain;
    if refused {
        messages.push(
            Message::Warning("refusing to prune: some worlds could not be inspected".to_owned()),
        );
    }
    assert(commands::message_views(messages@) =~= remarks);
    let header = ["NAME", "INSTALLED", "STATUS", "TITLE"];
    assert(ui::header_views(header@) =~= unused_header());
    let lines = ui::print_table(header.as_slice(), &cells);
    let code = if refused {
        ExitCode::Failure
    } else {
        ExitCode::Success
    };
    Unused { answer: Answer { lines, messages, code }, prune: prunes }
}

/// An unused package is installed and its id is not used.
proof fn unused_packages_are_not_used(installed: Seq<Installed>, used: Seq<Seq<char>>, at: int)
    requires
        0 <= at < unused_in(installed, used).len(),
    ensures
        installed.contains(unused_in(installed, used)[at]),
        !used.contains(unused_in(installed, used)[at].id@),
    decreases installed.len(),
{
    let init = installed.drop_last();
    if at < unused_in(init, used).len() {
        unused_packages_are_not_used(init, used, at);
        let package = unused_in(init, used)[at];
        let i = choose|i: int| 0 <= i < init.len() && init[i] == package;
        assert(installed[i] == package);
    } else {
        assert(installed[installed.len() - 1] == installed.last());
    }
}

/// Pruning never guesses: a package is only deleted when every world could be
/// inspected and none of them uses it.
pub proof fn pruning_never_guesses(
    kind: PackageType,
    installed: Seq<Installed>,
    worlds: Seq<World>,
    prune: bool,
    at: int,
    world: int,
)
    requires
        0 <= at < prunable(
            unused_in(installed, used_ids(kind, worlds::usage_of(worlds))),
            worlds::usage_of(worlds),
            prune,
        ).len(),
        0 <= world < worlds.len(),
        worlds::is_world(worlds[world]),
    ensures
        prune,
        worlds::system_of(worlds[world].manifest) is Ok,
        worlds::modules_of(worlds[world].settings) is Ok,
        ({
            let id = prunable(
                unused_in(installed, used_ids(kind, worlds::usage_of(worlds))),
                worlds::usage_of(worlds),
                prune,
            )[at];
            match kind {
                PackageType::System => worlds::system_of(worlds[world].manifest)->Ok_0 matches Some(
                    system,
                ) ==> system@ != id,
                PackageType::Module => !worlds::modules_of(worlds[world].settings)->Ok_0.contains(
                    id,
                ),
            }
        }),
{
    let usage = worlds::usage_of(worlds);
    let used = used_ids(kind, usage);
    let unused = unused_in(installed, used);
    let id = prunable(unused, usage, prune)[at];
    assert(id == unused[at].id@);
    unused_packages_are_not_used(installed, used, at);
    worlds::complete_usage_misses_nothing(worlds, world);
    let modules = worlds::modules_of(worlds[world].settings)->Ok_0;
    if modules.contains(id) {
        assert(usage.modules.contains(id));
    }
}

/// The test for packages whose ids are not in a list.
pub open spec fn not_among(used: Seq<Seq<char>>) -> spec_fn(Installed) -> bool {
    |package: Installed| !used.contains(package.id@)
}

/// The unused packages are the installed ones whose ids no list entry names, in
/// their order.
pub proof fn unused_packages_are_those_not_used(installed: Seq<Installed>, used: Seq<Seq<char>>)
    ensures
        unused_in(installed, used) == installed.filter(not_among(used)),
    decreases installed.len(),
{
    reveal(Seq::filter);
    if installed.len() > 0 {
        unused_packages_are_those_not_used(installed.drop_last(), used);
    }
}

/// Whether a world uses a package: as the system that its manifest names, or as
/// a module that a record of its database enables.
pub open spec fn is_used_by(world: World, kind: PackageType, id: Seq<char>) -> bool {
    match kind {
        PackageType::System => world.manifest matches worlds::WorldFile::System(Some(system))
            && system@ == id,
        PackageType::Module => worlds::database_enables(world.settings, id),
    }
}

/// Whether everything that a world uses can be told.
pub open spec fn is_readable(world: World) -> bool {
    world.manifest is System && worlds::is_inspectable(world.settings)
}

/// A package is deleted just when that is asked for, it is installed, every
/// world can be inspected and none of them uses it.
pub proof fn pruning_deletes_what_no_world_uses(
    kind: PackageType,
    installed: Seq<Installed>,
    entries: Seq<World>,
    prune: bool,
    id: Seq<char>,
)
    ensures
        prunable(
            unused_in(installed, used_ids(kind, worlds::usage_of(entries))),
            worlds::usage_of(entries),
            prune,
        ).contains(id) <==> {
            &&& prune
            &&& exists|i: int| 0 <= i < installed.len() && (#[trigger] installed[i]).id@ == id
            &&& forall|w: int|
                #![trigger entries[w]]
                0 <= w < entries.len() && entries[w].is_dir && entries[w].has_manifest
                    ==> is_readable(entries[w]) && !is_used_by(entries[w], kind, id)
        },
{
    let usage = worlds::usage_of(entries);
    let used = used_ids(kind, usage);
    let unused = unused_in(installed, used);
    let pruned = prunable(unused, usage, prune);
    let readable = forall|w: int|
        #![trigger entries[w]]
        0 <= w < entries.len() && entries[w].is_dir && entries[w].has_manifest ==> is_readable(
            entries[w],
        );
    assert((usage.unreadable.len() == 0) == readable) by {
        if usage.unreadable.len() > 0 {
            worlds::usage_is_what_the_worlds_use(entries, usage.unreadable[0].0);
        } else if !readable {
            let w = choose|w: int|
                #![trigger entries[w]]
                0 <= w < entries.len() && entries[w].is_dir && entries[w].has_manifest
                    && !is_readable(entries[w]);
            worlds::usage_is_what_the_worlds_use(entries, entries[w].id@);
        }
    }
    worlds::usage_is_what_the_worlds_use(entries, id);
    unused_packages_are_those_not_used(installed, used);
    if pruned.contains(id) {
        let k = choose|k: int| 0 <= k < pruned.len() && pruned[k] == id;
        assert(unused[k].id@ == id);
        unused_packages_are_not_used(installed, used, k);
        let i = choose|i: int| 0 <= i < installed.len() && installed[i] == unused[k];
        assert(installed[i].id@ == id);
    }
    if prune && readable && !used.contains(id) && exists|i: int|
        0 <= i < installed.len() && (#[trigger] installed[i]).id@ == id {
        let i = choose|i: int| 0 <= i < installed.len() && (#[trigger] installed[i]).id@ == id;
        installed.filter_lemma(not_among(used));
        assert(not_among(used)(installed[i]));
        assert(unused.contains(installed[i]));
        let k = choose|k: int| 0 <= k < unused.len() && unused[k] == installed[i];
        assert(pruned[k] == id);
    }
}

/// Every unused package has a row of its own: its id, its version, whether it is
/// certain that it is unused, and its title.
pub proof fn every_unused_package_has_a_row(unused: Seq<Installed>, certain: bool, at: int)
    requires
        0 <= at < unused.len(),
    ensures
        unused_cells(unused, certain).len() == unused.len(),
        unused_cells(unused, certain)[at][0] == unused[at].id@,
        unused[at].version matches Some(version) ==> unused_cells(unused, certain)[at][1] == version@,
        unused_cells(unused, certain)[at][2] == if certain {
            "unused"@
        } else {
            "possibly unused"@
        },
        unused[at].title matches Some(title) ==> unused_cells(unused, certain)[at][3] == title@,
{
}

/// Every world that could not be inspected is warned about, with its id and the
/// reason, in order. A refusal to prune follows just when there was something to
/// prune and a world could not be inspected; and nothing to prune is told.
pub proof fn uninspected_worlds_are_warned_about(
    kind: PackageType,
    usage: UsageView,
    unused: nat,
    prune: bool,
)
    ensures
        ({
            let remarks = unused_remarks(kind, usage, unused, prune);
            let count = usage.unreadable.len();
            &&& count <= remarks.len() <= count + 1
            &&& forall|i: int|
                0 <= i < count ==> #[trigger] remarks[i] == MessageView::Warning(
                    "could not inspect world `"@ + usage.unreadable[i].0 + "`: "@
                        + usage.unreadable[i].1,
                )
            &&& unused == 0 ==> remarks.len() == count + 1 && remarks.last() == MessageView::Status(
                "no unused "@ + kind.api_text() + "s"@,
            )
            &&& unused > 0 ==> (remarks.len() == count + 1 <==> prune && count > 0)
            &&& unused > 0 && prune && count > 0 ==> remarks.last() == MessageView::Warning(
                "refusing to prune: some worlds could not be inspected"@,
            )
        }),
{
}

} // verus!
