//! `ufpm export`: snapshot the installed packages to a manifest file.

use vstd::prelude::*;
use crate::commands::{Message, MessageView};
use crate::foundry::local::{Installed, Scan};
use crate::foundry::worlds::Usage;
use crate::manifest::ExportManifest;
use crate::order;
use crate::text;

verus! {

/// The ids of scanned packages, as a list of strings.
pub open spec fn ids(packages: Seq<Installed>) -> Seq<String> {
    packages.map_values(|package: Installed| package.id)
}

/// The ids of scanned packages.
fn take_ids(packages: Vec<Installed>) -> (taken: Vec<String>)
    ensures
        taken@ == ids(packages@),
{
    let ghost all = packages@;
    let mut taken: Vec<String> = Vec::new();
    let ghost mut seen: int = 0;
    assert(taken@ =~= ids(all).take(0));
    for package in it: packages
        invariant
            it.seq() == all,
            seen == it.index(),
            taken@ == ids(all).take(it.index() as int),
    {
        taken.push(package.id);
        assert(taken@ =~= ids(all).take(seen + 1));
        proof {
            seen = seen + 1;
        }
    }
    assert(ids(all).take(seen) =~= ids(all));
    taken
}

/// Builds a manifest from a single world's usage.
#[must_use]
pub fn world_manifest(world_id: &str, usage: Usage) -> (manifest: ExportManifest)
    ensures
        manifest.world matches Some(world) && world@ == world_id@,
        manifest.systems@ == order::sorted(usage.systems@),
        manifest.modules@ == order::sorted(usage.modules@),
{
    let Usage { systems, modules, unreadable: _, worlds: _ } = usage;
    ExportManifest {
        world: Some(world_id.to_owned()),
        systems: order::sort(systems),
        modules: order::sort(modules),
    }
}

/// Builds a manifest from all installed packages.
#[must_use]
pub fn all_manifest(systems: Scan, modules: Scan) -> (manifest: ExportManifest)
    ensures
        manifest.world is None,
        manifest.systems@ == order::sorted(ids(systems.packages@)),
        manifest.modules@ == order::sorted(ids(modules.packages@)),
{
    ExportManifest {
        world: None,
        systems: order::sort(take_ids(systems.packages)),
        modules: order::sort(take_ids(modules.packages)),
    }
}

/// Tells what was written where.
#[must_use]
pub fn report(manifest: &ExportManifest, output: &str) -> (message: Message)
    ensures
        message@ == MessageView::Status(
            "wrote "@ + text::decimal(manifest.systems@.len()) + " system(s) and "@ + text::decimal(
                manifest.modules@.len(),
            ) + " module(s) to "@ + output@,
        ),
{
    let mut line = "wrote ".to_owned();
    let systems = text::count_text(manifest.systems.len());
    line.append(systems.as_str());
    line.append(" system(s) and ");
    let modules = text::count_text(manifest.modules.len());
    line.append(modules.as_str());
    line.append(" module(s) to ");
    line.append(output);
    Message::Status(line)
}

/// An export of all packages lists the id of every scanned package, as often as
/// it was scanned, and nothing else, in the order of the ids.
pub proof fn exports_list_every_package(packages: Seq<Installed>, id: String)
    ensures
        order::sorted(ids(packages)).contains(id) <==> exists|i: int|
            0 <= i < packages.len() && (#[trigger] packages[i]).id == id,
        order::sorted(ids(packages)).len() == packages.len(),
        order::in_order(order::sorted(ids(packages)), order::key_of()),
{
    let all = ids(packages);
    order::sorting_keeps_the_elements(all, order::key_of(), id);
    order::sorting_is_stable(all, order::key_of(), Seq::empty());
    if all.contains(id) {
        let i = choose|i: int| 0 <= i < all.len() && all[i] == id;
        assert(packages[i].id == id);
    }
    if exists|i: int| 0 <= i < packages.len() && (#[trigger] packages[i]).id == id {
        let i = choose|i: int| 0 <= i < packages.len() && (#[trigger] packages[i]).id == id;
        assert(all[i] == id);
    }
}

} // verus!
