//! Tests for what the commands say and select.

use ufpm::api::types::{Package, RemoteManifest, VersionInfo};
use ufpm::api::Error as ApiError;
use ufpm::cli::{CacheAction, Command, GlobalArgs, PackageAction, Shell};
use ufpm::commands::package::installing::{
    adopt_plan, offer_recommended, record_outcome, report_recovery, resolve_job, resolve_jobs,
    select_install_requests, warn_core_compatibility,
};
use ufpm::commands::package::listing::{flags, list, matches_query, mentions_query};
use ufpm::commands::package::removing::{prompt, record_removal, select_removals};
use ufpm::commands::package::summary::{error_chain, Summary};
use ufpm::commands::package::unused::{unused, warn_worlds};
use ufpm::commands::package::updating::{outdated, report_left_alone, select_updates};
use ufpm::commands::package::{self, details, find_installed, installed_map, ListOptions};
use ufpm::commands::{cache, doctor, export, import, run, ExitCode, Message, Operation};
use ufpm::foundry::local::{Installed, Scan};
use ufpm::foundry::worlds::Usage;
use ufpm::foundry::{Installation, PackageType, RootSource};
use ufpm::index::{self, Cache, Info, Snapshot, Source};
use ufpm::install::{self, Job, Recovery};
use ufpm::manifest::ExportManifest;
use ufpm::resolve::Plan;
use ufpm::ui::Reporter;

/// Builds an index package.
fn package(id: u64, name: &str, version: &str) -> Package {
    Package {
        id,
        name: name.to_owned(),
        title: format!("The {name}"),
        author: None,
        description: None,
        url: None,
        is_protected: false,
        systems: Vec::new(),
        version: VersionInfo {
            version: version.to_owned(),
            manifest: format!("https://host.test/{name}.json"),
            required_core_version: None,
            compatible_core_version: None,
            notes: None,
        },
        verified: None,
        last_updated: None,
    }
}

/// Builds a protected index package.
fn protected(id: u64, name: &str, version: &str) -> Package {
    Package { is_protected: true, ..package(id, name, version) }
}

/// Builds a snapshot that was fetched at second 100.
fn snapshot(packages: Vec<Package>, owned: &[u64]) -> Snapshot {
    Snapshot { packages, owned: owned.iter().copied().collect(), fetched_at: 100 }
}

/// Builds an installed module.
fn installed(id: &str, version: Option<&str>) -> Installed {
    Installed {
        id: id.to_owned(),
        title: Some(format!("Local {id}")),
        version: version.map(str::to_owned),
    }
}

/// A list of names.
fn names(names: &[&str]) -> Vec<String> {
    names.iter().map(|&name| name.to_owned()).collect()
}

/// A reporter at normal or quiet verbosity.
fn reporter(quiet: bool) -> Reporter {
    let args =
        GlobalArgs { data_path: None, yes: false, no_progress: false, verbose: u8::from(!quiet), quiet };
    Reporter::new(&args, false)
}

/// The lines a list of messages comes to at -v.
fn told(messages: &[Message]) -> Vec<String> {
    messages.iter().map(|message| message.line(&reporter(false)).unwrap()).collect()
}

/// The rows of a summary table, without its header.
fn rows(summary: Summary) -> (Vec<String>, ExitCode) {
    let (lines, code) = summary.finish(&reporter(false));
    (lines.into_iter().skip(1).collect(), code)
}

/// Options that list everything.
fn everything() -> ListOptions {
    ListOptions { query: None, installed_only: false, owned_only: false, limit: None }
}

/// The usage that a set of readable worlds adds up to.
fn usage(systems: &[&str], modules: &[&str], unreadable: &[(&str, &str)]) -> Usage {
    Usage {
        systems: names(systems),
        modules: names(modules),
        unreadable: unreadable
            .iter()
            .map(|(world, reason)| ((*world).to_owned(), (*reason).to_owned()))
            .collect(),
        worlds: 1,
    }
}

/// Every command line asks for one operation.
#[test]
fn command_lines_are_dispatched() {
    assert!(matches!(run(Command::Doctor), Operation::Doctor));
    assert!(matches!(
        run(Command::Cache { action: CacheAction::Clear }),
        Operation::Cache(CacheAction::Clear)
    ));
    assert!(matches!(
        run(Command::Completions { shell: Shell::Fish }),
        Operation::Completions(Shell::Fish)
    ));
    assert!(matches!(
        run(Command::Export { world: None, output: None }),
        Operation::Export { world: None, output } if output == "ufpm.toml"
    ));
    assert!(matches!(
        run(Command::Import { path: Some("other.toml".to_owned()) }),
        Operation::Import { path } if path == "other.toml"
    ));
    assert!(matches!(
        run(Command::Module { action: PackageAction::Add { names: names(&["a"]) } }),
        Operation::Package(PackageType::Module, package::Operation::Install { names: wanted })
            if wanted == ["a"]
    ));
    assert!(matches!(
        run(Command::System { action: PackageAction::Unused { prune: true } }),
        Operation::Package(PackageType::System, package::Operation::Unused { prune: true })
    ));
}

/// Queries are matched without regard to case.
#[test]
fn searches_are_lowercased() {
    let action =
        PackageAction::Search { query: "ÄPFEL Dice".to_owned(), installed: true, owned: false };
    match package::run(action) {
        package::Operation::List(options) => {
            assert_eq!(options.query.as_deref(), Some("äpfel dice"));
            assert!(options.installed_only && !options.owned_only && options.limit.is_none());
        }
        _ => panic!("a search is a listing"),
    }
    let mut dice = package(1, "DICE-so-nice", "1");
    assert!(matches_query(&dice, "so-n"));
    assert!(matches_query(&dice, "the dice"));
    assert!(!matches_query(&dice, "simone"));
    dice.author = Some("SIMONE".to_owned());
    assert!(matches_query(&dice, "simone"));
    assert!(!matches_query(&dice, "SIMONE"));
    assert!(mentions_query("a", "b", Some("c"), "c"));
    assert!(!mentions_query("a", "b", None, "c"));
}

/// Listings are sorted, carry their flags and hide what the limit cuts off.
#[test]
fn listings_show_flags_and_limits() {
    let index = snapshot(
        vec![
            package(1, "zeta", "2.0"),
            protected(2, "alpha", "1.0"),
            protected(3, "beta", "1.0"),
            package(4, "gamma", "1.0"),
        ],
        &[3],
    );
    let local = vec![installed("zeta", Some("1.0")), installed("beta", None), installed("gone", Some("3"))];

    let answer = list(PackageType::Module, &index, &local, &everything());
    assert_eq!(
        answer.lines,
        [
            "NAME   INSTALLED  LATEST  FLAGS          TITLE",
            "alpha  -          1.0     protected      The alpha",
            "beta   ?          1.0     owned,changed  The beta",
            "gamma  -          1.0     -              The gamma",
            "zeta   1.0        2.0     update         The zeta",
        ]
    );
    assert!(answer.messages.is_empty());
    assert_eq!(answer.code, ExitCode::Success);

    let answer = list(
        PackageType::Module,
        &index,
        &local,
        &ListOptions { limit: Some(1), ..everything() },
    );
    assert_eq!(answer.lines.len(), 2);
    assert_eq!(told(&answer.messages), ["… 3 more hidden by --limit"]);

    let answer = list(
        PackageType::Module,
        &index,
        &local,
        &ListOptions { limit: Some(0), ..everything() },
    );
    assert!(answer.lines.is_empty());
    assert_eq!(told(&answer.messages), ["no matching modules"]);
}

/// Installed packages that the index does not list are shown as delisted; the
/// ownership filter only leaves purchased ones.
#[test]
fn listings_can_be_filtered() {
    let index = snapshot(vec![package(1, "alpha", "1.0"), protected(2, "beta", "1.0")], &[2]);
    let local = vec![installed("gone", None), installed("alpha", Some("1.0"))];

    let answer = list(
        PackageType::Module,
        &index,
        &local,
        &ListOptions { installed_only: true, ..everything() },
    );
    assert_eq!(
        answer.lines,
        [
            "NAME   INSTALLED  LATEST  FLAGS     TITLE",
            "alpha  1.0        1.0     -         The alpha",
            "gone   ?          -       delisted  Local gone",
        ]
    );
    let answer = list(
        PackageType::System,
        &index,
        &local,
        &ListOptions { installed_only: true, owned_only: true, ..everything() },
    );
    assert_eq!(told(&answer.messages), ["no matching systems"]);
    let answer = list(
        PackageType::Module,
        &index,
        &local,
        &ListOptions { owned_only: true, ..everything() },
    );
    assert_eq!(answer.lines.len(), 2);
    assert!(answer.lines[1].starts_with("beta"));
    let answer = list(
        PackageType::Module,
        &index,
        &local,
        &ListOptions { installed_only: true, query: Some("gon".to_owned()), ..everything() },
    );
    assert_eq!(answer.lines.len(), 2);
    assert!(answer.lines[1].starts_with("gone"));
}

/// A search finds installed packages that the index does not list by their
/// title, too.
#[test]
fn delisted_packages_are_searched_by_title() {
    let local = vec![Installed {
        id: "old-x".to_owned(),
        title: Some("Dice Old".to_owned()),
        version: Some("1.0".to_owned()),
    }];
    let search = |query: &str| {
        let options =
            ListOptions { installed_only: true, query: Some(query.to_owned()), ..everything() };
        list(PackageType::Module, &snapshot(Vec::new(), &[]), &local, &options).lines
    };
    assert_eq!(
        search("dice"),
        [
            "NAME   INSTALLED  LATEST  FLAGS     TITLE",
            "old-x  1.0        -       delisted  Dice Old",
        ]
    );
    assert_eq!(search("old-"), search("dice"));
    assert!(search("cards").is_empty());
}

/// A package that is the same as in the index has no flag.
#[test]
fn flags_are_joined() {
    let index = snapshot(Vec::new(), &[2]);
    let same = installed("a", Some("1.0"));
    assert_eq!(flags(&package(1, "a", "1.0"), Some(&same), &index), "-");
    assert_eq!(flags(&protected(2, "a", "2.0"), Some(&same), &index), "owned,update");
    assert_eq!(flags(&protected(3, "a", "2.0"), None, &index), "protected");
}

/// Details only show the fields that are set.
#[test]
fn details_skip_empty_fields() {
    let mut dice = package(1, "dice", "2.0");
    dice.author = Some("Simone".to_owned());
    dice.systems = names(&["dnd5e", "pf2e"]);
    dice.description = Some(String::new());
    dice.version.required_core_version = Some("11".to_owned());
    let index = snapshot(vec![dice], &[]);
    let local = vec![installed("dice", Some("1.0"))];
    assert_eq!(
        details::info(PackageType::Module, "dice", &index, &local).unwrap(),
        [
            "name           dice",
            "title          The dice",
            "author         Simone",
            "type           module",
            "latest         2.0",
            "installed      1.0 (update available)",
            "access         free",
            "systems        dnd5e, pf2e",
            "requires core  11",
            "manifest       https://host.test/dice.json",
        ]
    );
    assert_eq!(
        details::info(PackageType::System, "ghost", &index, &local).unwrap_err(),
        "the index lists no system named `ghost`"
    );
    let index = snapshot(vec![protected(7, "paid", "1"), protected(8, "mine", "1")], &[8]);
    let paid = details::info(PackageType::Module, "paid", &index, &local).unwrap();
    assert!(paid.contains(&"access         protected (purchase required)".to_owned()));
    let mine = details::info(PackageType::Module, "mine", &index, &local).unwrap();
    assert!(mine.contains(&"access         protected (owned)".to_owned()));
}

/// Scanned packages are keyed by id: the last of each stays.
#[test]
fn installed_packages_are_keyed_by_id() {
    let scan = Scan {
        packages: vec![
            installed("a", Some("1")),
            installed("b", Some("1")),
            installed("a", Some("2")),
        ],
        skipped: vec![("/m/x".to_owned(), "missing id".to_owned())],
    };
    let (map, warnings) = installed_map(scan);
    assert_eq!(warnings, ["skipping /m/x: missing id"]);
    assert_eq!(map.len(), 2);
    assert_eq!(find_installed(&map, "a").unwrap().version.as_deref(), Some("2"));
    assert!(find_installed(&map, "b").is_some());
    assert!(find_installed(&map, "c").is_none());
}

/// Where an index came from is told at the matching level.
#[test]
fn index_sources_are_reported() {
    let index = snapshot(vec![package(1, "a", "1")], &[]);
    let at = |source: Source| package::report_source(PackageType::Module, &index, &source, 220);
    assert!(matches!(
        at(Source::Refreshed),
        Message::Detail(text) if text == "fetched a fresh module index (1 packages)"
    ));
    assert!(matches!(
        at(Source::Cached),
        Message::Detail(text) if text == "using the cached module index (2m old)"
    ));
    let error = ApiError::Failed("error".to_owned());
    let reason = error.message();
    assert!(matches!(
        at(Source::StaleFallback { error }),
        Message::Warning(text)
            if text == format!("refreshing the module index failed ({reason}); using 2m old data")
    ));
}

/// Names are validated before anything is installed, each once.
#[test]
fn install_requests_are_selected() {
    let mut fresh = package(1, "fresh", "1.0");
    fresh.version.required_core_version = Some("15".to_owned());
    let index = snapshot(
        vec![
            fresh,
            package(2, "current", "1.0"),
            package(3, "older", "2.0"),
            protected(4, "paid", "1"),
            protected(5, "mine", "1"),
        ],
        &[5],
    );
    let local = vec![installed("current", Some("1.0")), installed("older", Some("1.0"))];
    let wanted = names(&["fresh", "ghost", "current", "older", "paid", "mine", "fresh", "ghost"]);
    let mut summary = Summary::default();
    let (requests, warnings) =
        select_install_requests(&wanted, &index, &local, "14.362", &mut summary);
    let requested: Vec<&str> = requests.iter().map(|package| package.name.as_str()).collect();
    assert_eq!(requested, ["fresh", "older"]);
    assert_eq!(
        warnings,
        ["fresh requires FoundryVTT core 15, newer than the assumed 14.362 — it may not work"]
    );
    let (lines, code) = rows(summary);
    assert_eq!(
        lines,
        [
            "✓  current  1.0      already up to date",
            "✗  ghost    -        not found in the index",
            "✗  mine     -        protected packages are not supported yet",
            "✗  paid     -        protected; purchase required",
        ]
    );
    assert_eq!(code, ExitCode::Failure);
}

/// Only a newer required core is worth a warning.
#[test]
fn core_requirements_are_compared() {
    let mut dice = package(1, "dice", "1");
    assert!(warn_core_compatibility(&dice, "12").is_none());
    dice.version.required_core_version = Some(String::new());
    assert!(warn_core_compatibility(&dice, "12").is_none());
    dice.version.required_core_version = Some("12".to_owned());
    assert!(warn_core_compatibility(&dice, "12").is_none());
    assert!(warn_core_compatibility(&dice, "12.331").is_none());
    assert!(warn_core_compatibility(&dice, "11.315").is_some());
}

/// A manifest becomes a job, or the reason why there is none.
#[test]
fn manifests_become_jobs() {
    let dice = package(1, "dice", "1.0");
    let manifest = RemoteManifest {
        id: Some("dice".to_owned()),
        name: None,
        version: None,
        download: Some("https://host.test/dice.zip".to_owned()),
        needs: Vec::new(),
        suggests: Vec::new(),
    };
    let job = resolve_job(PackageType::Module, &dice, Ok(manifest.clone())).unwrap();
    assert_eq!(job.download_url, "https://host.test/dice.zip");
    assert_eq!(job.version, "1.0");
    assert!(!job.protected);
    let fetched = Err("HTTP 404".to_owned());
    let failed = resolve_job(PackageType::Module, &dice, fetched).unwrap_err();
    assert_eq!(failed, "manifest fetch failed: HTTP 404");
    let nowhere = RemoteManifest { download: None, ..manifest.clone() };
    assert!(resolve_job(PackageType::Module, &dice, Ok(nowhere)).is_err());
    let other = RemoteManifest { id: Some("other".to_owned()), ..manifest };
    assert!(resolve_job(PackageType::Module, &dice, Ok(other)).is_err());

    let mut summary = Summary::default();
    let resolved =
        vec![("dice".to_owned(), Ok(job)), ("ghost".to_owned(), Err("no download".to_owned()))];
    let jobs = resolve_jobs(resolved, &mut summary);
    assert_eq!(jobs.len(), 1);
    assert_eq!(rows(summary).0, ["✗  ghost  -        no download"]);
}

/// Builds a job.
fn job(name: &str) -> Job {
    Job {
        kind: PackageType::Module,
        name: name.to_owned(),
        version: "1.0".to_owned(),
        download_url: String::new(),
        protected: false,
    }
}

/// A plan is adopted with its recommendations only when they were accepted.
#[test]
fn plans_are_adopted() {
    let plan = || Plan {
        requested: vec![job("a")],
        required: vec![job("b")],
        recommended: vec![job("c")],
        warnings: Vec::new(),
        failures: vec![("d".to_owned(), "unreachable".to_owned())],
    };
    let mut summary = Summary::default();
    let jobs = adopt_plan(plan(), true, &mut summary);
    let adopted: Vec<&str> = jobs.iter().map(|job| job.name.as_str()).collect();
    assert_eq!(adopted, ["a", "b", "c"]);
    let mut both = plan();
    both.recommended.push(job("e"));
    let terminal = |yes: bool, interactive: bool| {
        let args =
            GlobalArgs { data_path: None, yes, no_progress: false, verbose: 0, quiet: false };
        Reporter::new(&args, interactive)
    };
    assert_eq!(
        offer_recommended(&both, &terminal(true, true)).as_deref(),
        Some("also install recommended c, e?")
    );
    assert!(offer_recommended(&both, &terminal(true, false)).is_none());
    assert!(offer_recommended(&Plan::default(), &terminal(false, true)).is_none());
    let jobs = adopt_plan(plan(), false, &mut Summary::default());
    assert_eq!(jobs.len(), 2);
    assert_eq!(rows(summary), (names(&["✗  d     -        unreachable"]), ExitCode::Failure));
}

/// Outcomes land in the summary, which is sorted and quiet when asked to be.
#[test]
fn outcomes_are_summarized() {
    let mut summary = Summary::default();
    let told = record_outcome(&job("zeta"), Ok(()), &mut summary).unwrap();
    assert!(matches!(told, Message::Detail(text) if text == "installed zeta 1.0"));
    let (lines, code) = summary.finish(&reporter(false));
    assert_eq!(lines, ["   NAME  VERSION  RESULT", "✓  zeta  1.0      installed"]);
    assert_eq!(code, ExitCode::Success);

    let mut summary = Summary::default();
    assert!(record_outcome(&job("zeta"), Ok(()), &mut summary).is_some());
    let error = install::Error::Io { path: "/x".to_owned(), reason: "denied".to_owned() };
    assert_eq!(error_chain(&error), "I/O failed at /x: denied");
    assert!(record_outcome(&job("alpha"), Err(error), &mut summary).is_none());
    let (lines, code) = rows(summary);
    assert_eq!(
        lines,
        ["✗  alpha  1.0      I/O failed at /x: denied", "✓  zeta   1.0      installed"]
    );
    assert_eq!(code, ExitCode::Failure);

    let mut summary = Summary::default();
    summary.ok("a", "1", "fine");
    assert_eq!(summary.finish(&reporter(true)), (Vec::new(), ExitCode::Success));
}

/// What a recovery sweep found is told.
#[test]
fn recoveries_are_reported() {
    let recovery = Recovery {
        restored: names(&["a"]),
        failed: vec![("b".to_owned(), "denied".to_owned())],
    };
    assert_eq!(
        report_recovery(&recovery),
        [
            "restored `a`, left behind by an interrupted operation",
            "could not recover the backup of `b`: denied",
        ]
    );
}

/// Outdated packages are listed; `check` turns them into a failure.
#[test]
fn updates_are_previewed() {
    let index = snapshot(
        vec![package(1, "a", "2.0"), package(2, "b", "1.0"), package(3, "c", "1.0")],
        &[],
    );
    let local = vec![
        installed("a", Some("1.0")),
        installed("b", Some("1.0")),
        installed("c", None),
        installed("gone", Some("1")),
    ];
    let answer = outdated(PackageType::Module, true, &index, &local);
    assert_eq!(
        answer.lines,
        [
            "NAME  INSTALLED  AVAILABLE  STATUS   TITLE",
            "a     1.0        2.0        update   The a",
            "c     ?          1.0        changed  The c",
        ]
    );
    assert_eq!(told(&answer.messages), ["1 installed module(s) are not listed in the index"]);
    assert_eq!(answer.code, ExitCode::Failure);
    assert_eq!(outdated(PackageType::Module, false, &index, &local).code, ExitCode::Success);

    let answer = outdated(PackageType::System, true, &index, &vec![installed("b", Some("1.0"))]);
    assert!(answer.lines.is_empty());
    assert_eq!(told(&answer.messages), ["all installed systems match the index"]);
    assert_eq!(answer.code, ExitCode::Success);
}

/// Without names only provably newer versions are updated; named packages are
/// updated whenever they differ.
#[test]
fn bulk_updates_leave_changed_packages_alone() {
    let index = snapshot(
        vec![
            package(1, "newer", "2.0"),
            package(2, "same", "1.0"),
            package(3, "changed", "0.9"),
            package(4, "absent", "1.0"),
        ],
        &[],
    );
    let local = vec![
        installed("newer", Some("1.0")),
        installed("same", Some("1.0")),
        installed("changed", Some("1.0")),
    ];
    let mut summary = Summary::default();
    let updates = select_updates(&Vec::new(), &index, &local, "14", &mut summary);
    let requested: Vec<&str> = updates.requests.iter().map(|p| p.name.as_str()).collect();
    assert_eq!(requested, ["newer"]);
    assert_eq!(updates.left_alone, ["changed"]);
    assert!(matches!(
        report_left_alone(&updates.left_alone),
        Some(Message::Status(text)) if text == "left alone, update by name: changed"
    ));
    assert!(report_left_alone(&Vec::new()).is_none());
    assert!(updates.warnings.is_empty());
    assert!(rows(summary).0.is_empty());

    let mut summary = Summary::default();
    let wanted = names(&["changed", "same", "absent"]);
    let updates = select_updates(&wanted, &index, &local, "14", &mut summary);
    let requested: Vec<&str> = updates.requests.iter().map(|p| p.name.as_str()).collect();
    assert_eq!(requested, ["changed"]);
    assert!(updates.left_alone.is_empty());
    assert_eq!(
        rows(summary).0,
        ["✗  absent  -        not installed", "✓  same    1.0      already up to date"]
    );
}

/// Only installed packages are removed, each once.
#[test]
fn removals_are_selected() {
    let local = vec![installed("a", None)];
    let mut summary = Summary::default();
    let targets =
        select_removals(&names(&["a", "b", "a", "b"]), &local, &mut summary);
    assert_eq!(targets, ["a"]);
    assert_eq!(prompt(&names(&["a", "b"])), "remove a, b?");
    record_removal("a", Ok(()), &mut summary);
    let error = install::Error::Io { path: "/x".to_owned(), reason: "denied".to_owned() };
    record_removal("c", Err(error), &mut summary);
    assert_eq!(
        rows(summary),
        (
            names(&[
                "✓  a     -        removed",
                "✗  b     -        not installed",
                "✗  c     -        I/O failed at /x: denied",
            ]),
            ExitCode::Failure
        )
    );
}

/// Packages that no world uses are listed and pruned.
#[test]
fn unused_packages_are_pruned() {
    let local = vec![installed("used", Some("1")), installed("idle", None)];
    let worlds = usage(&[], &["used"], &[]);
    let found = unused(PackageType::Module, &local, &worlds, true);
    assert_eq!(
        found.answer.lines,
        ["NAME  INSTALLED  STATUS  TITLE", "idle  ?          unused  Local idle"]
    );
    assert_eq!(found.prune, ["idle"]);
    assert_eq!(found.answer.code, ExitCode::Success);
    assert!(unused(PackageType::Module, &local, &worlds, false).prune.is_empty());

    let worlds = usage(&["used", "idle"], &[], &[]);
    let found = unused(PackageType::System, &local, &worlds, true);
    assert!(found.answer.lines.is_empty() && found.prune.is_empty());
    assert_eq!(told(&found.answer.messages), ["no unused systems"]);
}

/// While a world could not be inspected, nothing is pruned.
#[test]
fn uncertain_packages_are_never_pruned() {
    let local = vec![installed("idle", Some("1"))];
    let worlds = usage(&[], &[], &[("broken", "no database")]);
    let found = unused(PackageType::Module, &local, &worlds, true);
    assert!(found.prune.is_empty());
    assert_eq!(found.answer.lines[1], "idle  1          possibly unused  Local idle");
    assert_eq!(
        told(&found.answer.messages),
        [
            "warning: could not inspect world `broken`: no database",
            "warning: refusing to prune: some worlds could not be inspected",
        ]
    );
    assert_eq!(found.answer.code, ExitCode::Failure);
    let found = unused(PackageType::Module, &local, &worlds, false);
    assert_eq!(found.answer.code, ExitCode::Success);
    assert_eq!(found.answer.messages.len(), 1);
}

/// The diagnostic report names what was found.
#[test]
fn doctor_reports_the_setup() {
    let installation = Installation::new("/foundry".to_owned(), RootSource::Discovered);
    let facts = doctor::Facts {
        license: false,
        modules: doctor::Listing::Entries(vec![true, false, true]),
        systems: doctor::Listing::Missing,
        worlds: doctor::Listing::Unreadable("denied".to_owned()),
        module_index: Some(Info { age: 7200, packages: 3, owned: 1 }),
        system_index: None,
    };
    let report = doctor::run(&installation, &facts, "14.362");
    assert_eq!(
        report.lines,
        [
            "foundry root     /foundry (discovered)",
            "license.json     MISSING",
            "modules          2",
            "systems          0",
            "worlds           0",
            "foundry version  14.362 (override with UFPM_FOUNDRY_VERSION)",
            "cache            modules 3 packages, 1 owned, fetched 2h ago; systems not cached",
        ]
    );
    assert_eq!(
        told(&report.messages),
        [
            "warning: no license.json found; the FoundryVTT package API will not be reachable",
            "scanning /foundry/Data/modules",
            "scanning /foundry/Data/systems",
            "scanning /foundry/Data/worlds",
            "warning: could not read /foundry/Data/worlds: denied",
        ]
    );
}

/// The cache commands tell what they found and did.
#[test]
fn cache_commands_report() {
    let cache = Cache::at("/cache/ufpm".to_owned());
    let modules = Some(Info { age: 59, packages: 5000, owned: 2 });
    assert_eq!(
        cache::info(&cache, &modules, &None),
        [
            "location  /cache/ufpm",
            "module    5000 packages, 2 owned, fetched 59s ago",
            "system    not cached",
        ]
    );
    let cleared = cache::clear(&cache, Some(Ok(()))).unwrap();
    assert!(matches!(cleared, Message::Status(text) if text == "cache cleared"));
    assert!(cache::clear(&cache, None).is_ok());
    let failed = cache::clear(&cache, Some(Err("denied".to_owned()))).unwrap_err();
    assert_eq!(failed.chain().last().unwrap(), "denied");

    let fetched = Ok((snapshot(vec![package(1, "a", "1")], &[1, 2]), Source::Refreshed));
    let message = cache::report_refresh(PackageType::System, fetched, 100).unwrap();
    assert!(
        matches!(message, Message::Status(text) if text == "system index: 1 packages, 2 owned")
    );
    let error = ApiError::Failed("error".to_owned());
    let stale = Ok((snapshot(Vec::new(), &[]), Source::StaleFallback { error }));
    let message = cache::report_refresh(PackageType::Module, stale, 100 + 86_400).unwrap();
    assert!(matches!(message, Message::Warning(text) if text.ends_with("; keeping 1d old data")));
    let failed = Err(index::Error::NoCacheDir);
    assert!(cache::report_refresh(PackageType::Module, failed, 0).is_err());
}

/// Worlds that could not be inspected are named, with the reason.
#[test]
fn unreadable_worlds_are_named() {
    let usage = usage(&[], &[], &[("w", "no database"), ("v", "garbage")]);
    assert_eq!(
        told(&warn_worlds(&usage.unreadable)),
        [
            "warning: could not inspect world `w`: no database",
            "warning: could not inspect world `v`: garbage",
        ]
    );
}

/// Exports are sorted, and scoped to a world or to everything.
#[test]
fn exports_are_sorted() {
    let manifest = export::world_manifest("w", usage(&["pf2e", "dnd5e"], &["b", "a"], &[]));
    assert_eq!(manifest.world.as_deref(), Some("w"));
    assert_eq!(manifest.systems, ["dnd5e", "pf2e"]);
    assert_eq!(manifest.modules, ["a", "b"]);
    let scan = |ids: &[&str]| Scan {
        packages: ids.iter().map(|id| installed(id, None)).collect(),
        skipped: Vec::new(),
    };
    let manifest = export::all_manifest(scan(&["z"]), scan(&["y", "x"]));
    assert!(manifest.world.is_none());
    assert_eq!(manifest.systems, ["z"]);
    assert_eq!(manifest.modules, ["x", "y"]);
    let message = export::report(&manifest, "out.toml");
    assert!(matches!(
        message,
        Message::Status(text) if text == "wrote 1 system(s) and 2 module(s) to out.toml"
    ));
}

/// Imports announce what they are about to do, and succeed as a whole.
#[test]
fn imports_are_announced() {
    let empty = ExportManifest::default();
    assert_eq!(told(&import::announce(&empty)), ["manifest: 0 system(s), 0 module(s)"]);
    let manifest = ExportManifest {
        world: Some("w".to_owned()),
        systems: names(&["dnd5e"]),
        modules: names(&["a", "b"]),
    };
    assert_eq!(
        told(&import::announce(&manifest)),
        ["importing packages for world 'w'", "manifest: 1 system(s), 2 module(s)"]
    );
    let (good, bad) = (ExitCode::Success, ExitCode::Failure);
    assert_eq!(import::conclude(good, good), good);
    assert_eq!(import::conclude(bad, good), bad);
    assert_eq!(import::conclude(good, bad), bad);
}

/// Messages are only shown at their verbosity.
#[test]
fn messages_follow_the_verbosity() {
    let quiet = reporter(true);
    for message in [
        Message::Status("s".to_owned()),
        Message::Warning("w".to_owned()),
        Message::Detail("d".to_owned()),
    ] {
        assert!(message.line(&quiet).is_none());
    }
}
