//! `remove`: selecting what is removed.

use vstd::prelude::*;
use crate::commands::package;
use crate::commands::package::installing;
use crate::commands::package::summary::{self, Summary, SummaryView};
use crate::foundry::local::Installed;
use crate::install;
use crate::order;
use crate::text;

verus! {

/// The packages to be removed among the requested names.
pub open spec fn removals(names: Seq<Seq<char>>, installed: Seq<Installed>) -> Seq<Seq<char>>
    decreases names.len(),
{
    if names.len() == 0 {
        Seq::empty()
    } else {
        let init = removals(names.drop_last(), installed);
        if package::installed_as(installed, names.last()) is Some {
            text::with_new(init, names.last())
        } else {
            init
        }
    }
}

/// A summary with the requested names that are not installed.
pub open spec fn with_missing(
    summary: SummaryView,
    names: Seq<Seq<char>>,
    installed: Seq<Installed>,
) -> SummaryView
    decreases names.len(),
{
    if names.len() == 0 {
        summary
    } else {
        let init = names.drop_last();
        let before = with_missing(summary, init, installed);
        if package::installed_as(installed, names.last()) is Some || init.contains(names.last()) {
            before
        } else {
            before.with_failure(names.last(), "-"@, "not installed"@)
        }
    }
}

/// Selects the packages to remove: those of the requested names that are
/// installed, each once. The others land in the summary.
pub fn select_removals(names: &Vec<String>, installed: &Vec<Installed>, summary: &mut Summary) -> (
targets: Vec<String>)
    ensures
        text::views(targets@) == removals(text::views(names@), installed@),
        final(summary)@ == with_missing(old(summary)@, text::views(names@), installed@),
{
    let ghost all = text::views(names@);
    let ghost start = summary@;
    let mut targets: Vec<String> = Vec::new();
    let mut i: usize = 0;
    assert(all.take(0) =~= Seq::empty());
    assert(text::views(targets@) =~= Seq::empty());
    while i < names.len()
        invariant
            all == text::views(names@),
            start == old(summary)@,
            0 <= i <= all.len(),
            text::views(targets@) == removals(all.take(i as int), installed@),
            summary@ == with_missing(start, all.take(i as int), installed@),
        decreases all.len() - i,
    {
        assert(all.take(i + 1).drop_last() =~= all.take(i as int));
        assert(all.take(i + 1).last() == names@[i as int]@);
        let name = names[i].as_str();
        if package::find_installed(installed, name).is_some() {
            text::add_new(&mut targets, name.to_owned());
        } else if !installing::is_repeated(names, i, name) {
            summary.fail(name, "-", "not installed");
        }
        i = i + 1;
    }
    assert(all.take(i as int) =~= all);
    targets
}

/// The question asked before packages are removed.
#[must_use]
pub fn prompt(targets: &Vec<String>) -> (prompt: String)
    ensures
        prompt@ == "remove "@ + text::joined(text::views(targets@), ", "@) + "?"@,
{
    let mut prompt = "remove ".to_owned();
    let list = text::join(targets, ", ");
    prompt.append(list.as_str());
    prompt.append("?");
    prompt
}

/// Records what came of removing a package.
pub fn record_removal(name: &str, outcome: Result<(), install::Error>, summary: &mut Summary)
    ensures
        match outcome {
            Ok(()) => final(summary)@ == old(summary)@.with_ok(name@, "-"@, "removed"@),
            Err(error) => final(summary)@ == old(summary)@.with_failure(
                name@,
                "-"@,
                text::joined(seq![error@.text()] + error@.causes(), ": "@),
            ),
        },
{
    match outcome {
        Ok(()) => summary.ok(name, "-", "removed"),
        Err(error) => {
            let chain = summary::error_chain(&error);
            summary.fail(name, "-", chain.as_str());
        },
    }
}

/// The packages to be removed are exactly the requested ones that are installed,
/// each once.
pub proof fn installed_requests_are_removed(
    names: Seq<Seq<char>>,
    installed: Seq<Installed>,
    name: Seq<char>,
)
    ensures
        removals(names, installed).contains(name) <==> names.contains(name) && exists|i: int|
            0 <= i < installed.len() && (#[trigger] installed[i]).id@ == name,
        removals(names, installed).no_duplicates(),
    decreases names.len(),
{
    if names.len() > 0 {
        let init = names.drop_last();
        let last = names.last();
        installed_requests_are_removed(init, installed, name);
        package::installed_packages_are_found_by_id(installed, last);
        let before = removals(init, installed);
        let one = seq![last];
        text::merging_adds_each_text_once(before, one);
        assert(one.drop_last() =~= Seq::empty());
        assert(text::merged(before, Seq::empty()) == before);
        assert(text::merged(before, one) == text::with_new(before, last));
        assert(one[0] == last);
        assert(one.contains(name) <==> name == last);
        assert(names.contains(name) <==> init.contains(name) || name == last) by {
            if init.contains(name) {
                let i = choose|i: int| 0 <= i < init.len() && init[i] == name;
                assert(names[i] == name);
            }
            assert(names[names.len() - 1] == last);
            if names.contains(name) {
                let i = choose|i: int| 0 <= i < names.len() && names[i] == name;
                assert(i < init.len() ==> init[i] == name);
            }
        }
    }
}

/// Every requested name that is not installed fails, and no other one does.
pub proof fn missing_requests_fail(
    summary: SummaryView,
    names: Seq<Seq<char>>,
    installed: Seq<Installed>,
    name: Seq<char>,
)
    ensures
        ({
            let after = with_missing(summary, names, installed);
            let missing = names.contains(name) && forall|i: int|
                0 <= i < installed.len() ==> (#[trigger] installed[i]).id@ != name;
            &&& after.rows.len() >= summary.rows.len()
            &&& after.rows.take(summary.rows.len() as int) == summary.rows
            &&& missing <==> exists|k: int|
                summary.rows.len() <= k < after.rows.len() && (#[trigger] after.rows[k]).name == name
            &&& missing ==> after.failed
            &&& after.failed <==> summary.failed || after.rows.len() > summary.rows.len()
        }),
    decreases names.len(),
{
    let after = with_missing(summary, names, installed);
    if names.len() == 0 {
        assert(after.rows.take(summary.rows.len() as int) =~= summary.rows);
    } else {
        let init = names.drop_last();
        let last = names.last();
        let before = with_missing(summary, init, installed);
        missing_requests_fail(summary, init, installed, name);
        missing_requests_fail(summary, init, installed, last);
        package::installed_packages_are_found_by_id(installed, last);
        assert(names.contains(name) <==> init.contains(name) || name == last) by {
            if init.contains(name) {
                let i = choose|i: int| 0 <= i < init.len() && init[i] == name;
                assert(names[i] == name);
            }
            assert(names[names.len() - 1] == last);
            if names.contains(name) {
                let i = choose|i: int| 0 <= i < names.len() && names[i] == name;
                assert(i < init.len() ==> init[i] == name);
            }
        }
        assert(after.rows.take(summary.rows.len() as int) =~= before.rows.take(
            summary.rows.len() as int,
        ));
        if exists|k: int|
            summary.rows.len() <= k < before.rows.len() && (#[trigger] before.rows[k]).name == name {
            let k = choose|k: int|
                summary.rows.len() <= k < before.rows.len() && (#[trigger] before.rows[k]).name == name;
            assert(after.rows[k].name == name);
        }
        if exists|k: int|
            summary.rows.len() <= k < after.rows.len() && (#[trigger] after.rows[k]).name == name {
            let k = choose|k: int|
                summary.rows.len() <= k < after.rows.len() && (#[trigger] after.rows[k]).name == name;
            assert(k < before.rows.len() ==> before.rows[k].name == name);
        }
        if after.rows.len() > before.rows.len() {
            assert(after.rows[before.rows.len() as int].name == last);
        }
    }
}

/// The test for installed names.
pub open spec fn is_there(installed: Seq<Installed>) -> spec_fn(Seq<char>) -> bool {
    |name: Seq<char>|
        exists|i: int| 0 <= i < installed.len() && (#[trigger] installed[i]).id@ == name
}

/// The packages are removed in the order in which they were first requested.
pub proof fn removals_keep_their_order(names: Seq<Seq<char>>, installed: Seq<Installed>)
    ensures
        removals(names, installed) == text::merged(Seq::empty(), names).filter(
            is_there(installed),
        ),
    decreases names.len(),
{
    reveal(Seq::filter);
    if names.len() > 0 {
        let init = names.drop_last();
        let last = names.last();
        let once = text::merged(Seq::empty(), init);
        removals_keep_their_order(init, installed);
        package::installed_packages_are_found_by_id(installed, last);
        order::filtering_keeps_what_passes(once, is_there(installed), last);
        assert(is_there(installed)(last) <==> package::installed_as(installed, last) is Some);
        assert(text::merged(Seq::empty(), names) == text::with_new(once, last));
        if !once.contains(last) {
            assert(once.push(last).drop_last() =~= once);
        }
    }
}

} // verus!
