//! `ufpm doctor`: a diagnostic report about the local setup.

use vstd::prelude::*;
use crate::commands;
use crate::commands::{cache, Message, MessageView};
use crate::constants;
use crate::foundry::{Installation, PackageType, RootSource};
use crate::index::Info;
use crate::text;

verus! {

/// What listing a directory gave.
#[derive(Clone, Debug)]
pub enum Listing {
    /// There is no such directory.
    Missing,
    /// It could not be read, with the reason.
    Unreadable(String),
    /// Whether each of its entries is a directory.
    Entries(Vec<bool>),
}

/// How many of the entries are directories.
pub open spec fn directories(entries: Seq<bool>) -> nat
    decreases entries.len(),
{
    if entries.len() == 0 {
        0
    } else {
        directories(entries.drop_last()) + if entries.last() {
            1nat
        } else {
            0nat
        }
    }
}

/// The number of direct subdirectories.
pub open spec fn subdirectories(listing: Listing) -> nat {
    match listing {
        Listing::Entries(entries) => directories(entries@),
        _ => 0,
    }
}

/// What the user is told about a scanned directory.
pub open spec fn scan_messages(dir: Seq<char>, listing: Listing) -> Seq<MessageView> {
    let scanning = MessageView::Detail("scanning "@ + dir);
    match listing {
        Listing::Unreadable(reason) => seq![
            scanning,
            MessageView::Warning("could not read "@ + dir + ": "@ + reason@),
        ],
        _ => seq![scanning],
    }
}

/// Counts the direct subdirectories of `dir`, treating a missing directory
/// as empty (a fresh installation may not have created it yet).
pub fn count_subdirectories(dir: &str, listing: &Listing, messages: &mut Vec<Message>) -> (
count: usize)
    ensures
        count == subdirectories(*listing),
        commands::message_views(final(messages)@) == commands::message_views(old(messages)@) + scan_messages(
            dir@,
            *listing,
        ),
{
    let ghost start = commands::message_views(messages@);
    let mut line = "scanning ".to_owned();
    line.append(dir);
    messages.push(Message::Detail(line));
    match listing {
        Listing::Entries(entries) => {
            assert(commands::message_views(messages@) =~= start + scan_messages(dir@, *listing));
            let mut count: usize = 0;
            let mut i: usize = 0;
            assert(entries@.take(0) =~= Seq::empty());
            while i < entries.len()
                invariant
                    0 <= i <= entries@.len(),
                    count <= i,
                    count == directories(entries@.take(i as int)),
                decreases entries@.len() - i,
            {
                assert(entries@.take(i + 1).drop_last() =~= entries@.take(i as int));
                assert(entries@.take(i + 1).last() == entries@[i as int]);
                if entries[i] {
                    count = count + 1;
                }
                i = i + 1;
            }
            assert(entries@.take(i as int) =~= entries@);
            count
        },
        Listing::Unreadable(reason) => {
            let mut line = "could not read ".to_owned();
            line.append(dir);
            line.append(": ");
            line.append(reason.as_str());
            messages.push(Message::Warning(line));
            assert(commands::message_views(messages@) =~= start + scan_messages(dir@, *listing));
            0
        },
        Listing::Missing => {
            assert(commands::message_views(messages@) =~= start + scan_messages(dir@, *listing));
            0
        },
    }
}

/// What was found on disk.
#[derive(Clone, Debug)]
pub struct Facts {
    /// Whether there is a `license.json`.
    pub license: bool,
    /// The modules directory.
    pub modules: Listing,
    /// The systems directory.
    pub systems: Listing,
    /// The worlds directory.
    pub worlds: Listing,
    /// The cached module index.
    pub module_index: Option<Info>,
    /// The cached system index.
    pub system_index: Option<Info>,
}

/// A diagnostic report.
#[derive(Debug)]
pub struct Report {
    /// The lines for stdout.
    pub lines: Vec<String>,
    /// What the user is told besides.
    pub messages: Vec<Message>,
}

/// The lines of the report.
pub open spec fn report_lines(installation: Installation, facts: Facts, version: Seq<char>) -> Seq<
    Seq<char>,
> {
    seq![
        "foundry root     "@ + installation.root_text() + " ("@ + (match installation.located() {
            RootSource::Explicit => "explicit"@,
            RootSource::Discovered => "discovered"@,
        }) + ")"@,
        "license.json     "@ + if facts.license {
            "found"@
        } else {
            "MISSING"@
        },
        "modules          "@ + text::decimal(subdirectories(facts.modules)),
        "systems          "@ + text::decimal(subdirectories(facts.systems)),
        "worlds           "@ + text::decimal(subdirectories(facts.worlds)),
        "foundry version  "@ + version + " (override with "@ + constants::FOUNDRY_VERSION_ENV@
            + ")"@,
        "cache            modules "@ + cache::state_text(facts.module_index) + "; systems "@
            + cache::state_text(facts.system_index),
    ]
}

/// What the user is told besides the report.
pub open spec fn report_messages(installation: Installation, facts: Facts) -> Seq<MessageView> {
    let license = if facts.license {
        Seq::empty()
    } else {
        seq![
            MessageView::Warning(
                "no license.json found; the FoundryVTT package API will not be reachable"@,
            ),
        ]
    };
    license + scan_messages(installation.packages_text(PackageType::Module), facts.modules)
        + scan_messages(installation.packages_text(PackageType::System), facts.systems)
        + scan_messages(installation.worlds_text(), facts.worlds)
}

/// A line of the report: its label, then a count.
fn count_line(label: &str, count: usize) -> (line: String)
    ensures
        line@ == label@ + text::decimal(count as nat),
{
    let mut line = label.to_owned();
    let number = text::count_text(count);
    line.append(number.as_str());
    line
}

/// The diagnostic report for a resolved installation, with the assumed
/// `FoundryVTT` version.
#[must_use]
pub fn run(installation: &Installation, facts: &Facts, version: &str) -> (report: Report)
    ensures
        text::views(report.lines@) == report_lines(*installation, *facts, version@),
        commands::message_views(report.messages@) == report_messages(*installation, *facts),
{
    let mut messages: Vec<Message> = Vec::new();
    assert(commands::message_views(messages@) =~= Seq::empty());
    let license = if facts.license {
        "found"
    } else {
        messages.push(
            Message::Warning(
                "no license.json found; the FoundryVTT package API will not be reachable".to_owned(),
            ),
        );
        "MISSING"
    };
    assert(commands::message_views(messages@) =~= if facts.license {
        Seq::empty()
    } else {
        seq![
            MessageView::Warning(
                "no license.json found; the FoundryVTT package API will not be reachable"@,
            ),
        ]
    });

    let mut root_line = "foundry root     ".to_owned();
    root_line.append(installation.root());
    root_line.append(" (");
    root_line.append(
        match installation.source() {
            RootSource::Explicit => "explicit",
            RootSource::Discovered => "discovered",
        },
    );
    root_line.append(")");

    let mut license_line = "license.json     ".to_owned();
    license_line.append(license);

    let modules_dir = installation.packages_dir(PackageType::Module);
    let modules = count_subdirectories(modules_dir.as_str(), &facts.modules, &mut messages);
    let systems_dir = installation.packages_dir(PackageType::System);
    let systems = count_subdirectories(systems_dir.as_str(), &facts.systems, &mut messages);
    let worlds_dir = installation.worlds_dir();
    let worlds = count_subdirectories(worlds_dir.as_str(), &facts.worlds, &mut messages);

    let mut version_line = "foundry version  ".to_owned();
    version_line.append(version);
    version_line.append(" (override with ");
    version_line.append(constants::FOUNDRY_VERSION_ENV);
    version_line.append(")");

    let mut cache_line = "cache            modules ".to_owned();
    let module_state = cache::state(&facts.module_index);
    cache_line.append(module_state.as_str());
    cache_line.append("; systems ");
    let system_state = cache::state(&facts.system_index);
    cache_line.append(system_state.as_str());

    let lines = vec![
        root_line,
        license_line,
        count_line("modules          ", modules),
        count_line("systems          ", systems),
        count_line("worlds           ", worlds),
        version_line,
        cache_line,
    ];
    assert(text::views(lines@) =~= report_lines(*installation, *facts, version@));
    Report { lines, messages }
}

/// The test for directories.
pub open spec fn is_directory() -> spec_fn(bool) -> bool {
    |entry: bool| entry
}

/// Exactly the directories among the entries are counted; what cannot be listed
/// counts as empty.
pub proof fn every_directory_is_counted(entries: Seq<bool>, listing: Listing)
    ensures
        directories(entries) == entries.filter(is_directory()).len(),
        listing matches Listing::Entries(listed) ==> (listed@ == entries ==> subdirectories(listing)
            == entries.filter(is_directory()).len()),
        listing !is Entries ==> subdirectories(listing) == 0,
    decreases entries.len(),
{
    reveal(Seq::filter);
    if entries.len() > 0 {
        every_directory_is_counted(entries.drop_last(), Listing::Missing);
    }
}

/// The report warns about a missing license, and about every directory that
/// could not be read, and about nothing else.
pub proof fn reports_warn_about_what_is_missing(installation: Installation, facts: Facts)
    ensures
        ({
            let warned = report_messages(installation, facts).filter(is_warning()).len();
            warned == (if facts.license {
                0nat
            } else {
                1nat
            }) + (if facts.modules is Unreadable {
                1nat
            } else {
                0nat
            }) + (if facts.systems is Unreadable {
                1nat
            } else {
                0nat
            }) + (if facts.worlds is Unreadable {
                1nat
            } else {
                0nat
            })
        }),
{
    let license: Seq<MessageView> = if facts.license {
        Seq::empty()
    } else {
        seq![
            MessageView::Warning(
                "no license.json found; the FoundryVTT package API will not be reachable"@,
            ),
        ]
    };
    let modules = scan_messages(installation.packages_text(PackageType::Module), facts.modules);
    let systems = scan_messages(installation.packages_text(PackageType::System), facts.systems);
    let worlds = scan_messages(installation.worlds_text(), facts.worlds);
    Seq::filter_distributes_over_add(license, modules, is_warning());
    Seq::filter_distributes_over_add(license + modules, systems, is_warning());
    Seq::filter_distributes_over_add(license + modules + systems, worlds, is_warning());
    scans_warn_when_unreadable(installation.packages_text(PackageType::Module), facts.modules);
    scans_warn_when_unreadable(installation.packages_text(PackageType::System), facts.systems);
    scans_warn_when_unreadable(installation.worlds_text(), facts.worlds);
    reveal_with_fuel(Seq::filter, 2);
    assert(license.len() > 0 ==> license.drop_last() =~= Seq::empty());
    assert(license.filter(is_warning()).len() == license.len());
}

/// The test for warnings.
pub open spec fn is_warning() -> spec_fn(MessageView) -> bool {
    |message: MessageView| message is Warning
}

/// A scan warns just when the directory could not be read.
proof fn scans_warn_when_unreadable(dir: Seq<char>, listing: Listing)
    ensures
        scan_messages(dir, listing).filter(is_warning()).len() == if listing is Unreadable {
            1nat
        } else {
            0nat
        },
{
    reveal_with_fuel(Seq::filter, 3);
    let told = scan_messages(dir, listing);
    if told.len() == 2 {
        assert(told.drop_last().drop_last() =~= Seq::empty());
    } else {
        assert(told.drop_last() =~= Seq::empty());
    }
}

/// The report counts the modules, the systems and the worlds each in a line of
/// its own, in this order.
pub proof fn reports_count_each_directory(installation: Installation, facts: Facts, version: Seq<char>)
    ensures
        ({
            let lines = report_lines(installation, facts, version);
            &&& lines.len() == 7
            &&& text::decimal(subdirectories(facts.modules)).is_suffix_of(lines[2])
            &&& text::decimal(subdirectories(facts.systems)).is_suffix_of(lines[3])
            &&& text::decimal(subdirectories(facts.worlds)).is_suffix_of(lines[4])
            &&& lines[1] == "license.json     "@ + if facts.license {
                "found"@
            } else {
                "MISSING"@
            }
        }),
{
    let lines = report_lines(installation, facts, version);
    let modules = text::decimal(subdirectories(facts.modules));
    let systems = text::decimal(subdirectories(facts.systems));
    let worlds = text::decimal(subdirectories(facts.worlds));
    assert(lines[2].subrange(lines[2].len() - modules.len(), lines[2].len() as int) =~= modules);
    assert(lines[3].subrange(lines[3].len() - systems.len(), lines[3].len() as int) =~= systems);
    assert(lines[4].subrange(lines[4].len() - worlds.len(), lines[4].len() as int) =~= worlds);
}

} // verus!
