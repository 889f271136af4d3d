//! Tests for the verbosity policy, tables and ages.

use ufpm::cli::GlobalArgs;
use ufpm::ui::{format_age, print_table, Confirmation, Reporter, Spinner, Verbosity};

/// Global flags with the given verbosity.
fn flags(quiet: bool, verbose: u8) -> GlobalArgs {
    GlobalArgs { data_path: None, yes: false, no_progress: false, verbose, quiet }
}

/// Flag combinations map to the expected verbosity levels.
#[test]
fn verbosity_from_flags() {
    assert_eq!(Verbosity::from_flags(true, 0), Verbosity::Quiet);
    assert_eq!(Verbosity::from_flags(false, 0), Verbosity::Normal);
    assert_eq!(Verbosity::from_flags(false, 1), Verbosity::Verbose);
    assert_eq!(Verbosity::from_flags(false, 2), Verbosity::Debug);
    assert_eq!(Verbosity::from_flags(false, 3), Verbosity::Trace);
    assert_eq!(Verbosity::from_flags(false, 9), Verbosity::Trace);
}

/// Ages are formatted in the largest sensible unit.
#[test]
fn ages_use_compact_units() {
    assert_eq!(format_age(45), "45s");
    assert_eq!(format_age(90), "1m");
    assert_eq!(format_age(2 * 3600), "2h");
    assert_eq!(format_age(200_000), "2d");
}

/// Each unit starts exactly where it fits once.
#[test]
fn ages_change_units_at_the_boundaries() {
    assert_eq!(format_age(0), "0s");
    assert_eq!(format_age(59), "59s");
    assert_eq!(format_age(60), "1m");
    assert_eq!(format_age(3599), "59m");
    assert_eq!(format_age(3600), "1h");
    assert_eq!(format_age(86_399), "23h");
    assert_eq!(format_age(86_400), "1d");
}

/// Columns are aligned, the last one is unpadded, and no line ends in spaces.
#[test]
fn tables_are_aligned() {
    let rows = vec![
        vec!["a".to_owned(), "long cell".to_owned(), "x".to_owned()],
        vec!["much longer".to_owned(), "é".to_owned(), String::new()],
        vec!["short".to_owned()],
    ];
    assert_eq!(
        print_table(&["N", "VALUE", "LAST"], &rows),
        [
            "N            VALUE      LAST",
            "a            long cell  x",
            "much longer  é",
            "short",
        ]
    );
    assert_eq!(print_table(&["ONLY"], &Vec::new()), ["ONLY"]);
    assert_eq!(print_table(&[], &Vec::new()), [""]);
}

/// `--quiet` hides everything, `-v` shows the steps.
#[test]
fn lines_follow_the_verbosity() {
    let quiet = Reporter::new(&flags(true, 0), true);
    assert_eq!(quiet.status("s"), None);
    assert_eq!(quiet.warn("w"), None);
    assert_eq!(quiet.detail("d"), None);
    assert!(quiet.summary(&["A"], &Vec::new()).is_empty());

    let normal = Reporter::new(&flags(false, 0), true);
    assert_eq!(normal.status("s").as_deref(), Some("s"));
    assert_eq!(normal.warn("w").as_deref(), Some("warning: w"));
    assert_eq!(normal.detail("d"), None);
    assert_eq!(normal.summary(&["A"], &Vec::new()), ["A"]);

    let verbose = Reporter::new(&flags(false, 1), true);
    assert_eq!(verbose.detail("d").as_deref(), Some("d"));
    assert_eq!(verbose.verbosity(), Verbosity::Verbose);
}

/// Progress UI needs a terminal and neither `--no-progress`, `--quiet` nor log
/// lines.
#[test]
fn progress_needs_a_terminal() {
    let normal = flags(false, 0);
    assert!(Reporter::new(&normal, true).downloads());
    assert!(matches!(Reporter::new(&normal, true).spinner("m"), Spinner::Animated));
    assert!(!Reporter::new(&normal, false).downloads());
    assert!(matches!(
        Reporter::new(&normal, false).spinner("m"),
        Spinner::Plain(Some(line)) if line == "m"
    ));
    assert!(!Reporter::new(&flags(true, 0), true).downloads());
    assert!(matches!(Reporter::new(&flags(true, 0), true).spinner("m"), Spinner::Plain(None)));
    assert!(!Reporter::new(&flags(false, 2), true).downloads());
    let plain = GlobalArgs { no_progress: true, ..normal };
    assert!(!Reporter::new(&plain, true).downloads());
}

/// `--yes` answers every question; otherwise a human has to.
#[test]
fn confirmations_are_never_guessed() {
    let normal = flags(false, 0);
    let interactive = Reporter::new(&normal, true);
    let batch = Reporter::new(&normal, false);
    assert!(interactive.is_interactive());
    assert!(matches!(interactive.confirm("sure?", false), Confirmation::Ask));
    assert!(matches!(batch.confirm("sure?", true), Confirmation::Confirmed));
    assert!(matches!(
        batch.confirm("sure?", false),
        Confirmation::Refused(reason)
            if reason == "not an interactive session; pass --yes to confirm: sure?"
    ));
}
