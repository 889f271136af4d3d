//! The end-of-run summary of a mutating command.

use vstd::prelude::*;
use crate::commands::ExitCode;
use crate::install;
use crate::order::{self, Keyed};
use crate::text;
use crate::ui;

verus! {

/// One row of a summary.
#[derive(Clone, Debug)]
pub struct SummaryRow {
    /// Whether the operation succeeded, as a mark.
    pub marker: String,
    /// The package.
    pub name: String,
    /// Its version.
    pub version: String,
    /// What happened.
    pub note: String,
}

/// One row of a summary, as text.
pub struct SummaryRowView {
    /// Whether the operation succeeded, as a mark.
    pub marker: Seq<char>,
    /// The package.
    pub name: Seq<char>,
    /// Its version.
    pub version: Seq<char>,
    /// What happened.
    pub note: Seq<char>,
}

impl View for SummaryRow {
    type V = SummaryRowView;

    open spec fn view(&self) -> SummaryRowView {
        SummaryRowView {
            marker: self.marker@,
            name: self.name@,
            version: self.version@,
            note: self.note@,
        }
    }
}

impl Keyed for SummaryRow {
    open spec fn key(&self) -> Seq<char> {
        self.name@
    }

    fn key_text(&self) -> (text: &str) {
        self.name.as_str()
    }
}

/// The view of a summary row, as a function.
pub open spec fn summary_row_view() -> spec_fn(SummaryRow) -> SummaryRowView {
    |row: SummaryRow| row@
}

/// The package of a summary row, as a function.
pub open spec fn summary_row_name() -> spec_fn(SummaryRowView) -> Seq<char> {
    |row: SummaryRowView| row.name
}

/// Accumulates the end-of-run summary of a mutating command.
#[derive(Debug)]
pub struct Summary {
    /// The rows of the summary table.
    rows: Vec<SummaryRow>,
    /// Whether any operation failed.
    failed: bool,
}

/// A summary, as text.
#[verifier::ext_equal]
pub struct SummaryView {
    /// The rows of the summary table.
    pub rows: Seq<SummaryRowView>,
    /// Whether any operation failed.
    pub failed: bool,
}

impl View for Summary {
    type V = SummaryView;

    closed spec fn view(&self) -> SummaryView {
        SummaryView { rows: self.rows@.map_values(summary_row_view()), failed: self.failed }
    }
}

impl SummaryView {
    /// This summary with one more success.
    pub open spec fn with_ok(self, name: Seq<char>, version: Seq<char>, note: Seq<char>) -> SummaryView {
        SummaryView {
            rows: self.rows.push(SummaryRowView { marker: "✓"@, name, version, note }),
            ..self
        }
    }

    /// This summary with one more failure.
    pub open spec fn with_failure(self, name: Seq<char>, version: Seq<char>, note: Seq<char>) -> SummaryView {
        SummaryView {
            rows: self.rows.push(SummaryRowView { marker: "✗"@, name, version, note }),
            failed: true,
        }
    }

    /// The cells of the summary table, sorted by package.
    pub open spec fn cells(self) -> Seq<Seq<Seq<char>>> {
        order::sorted_by(self.rows, summary_row_name()).map_values(
            |row: SummaryRowView| seq![row.marker, row.name, row.version, row.note],
        )
    }
}

/// The header of a summary table.
pub open spec fn summary_header() -> Seq<Seq<char>> {
    seq![""@, "NAME"@, "VERSION"@, "RESULT"@]
}

impl Default for Summary {
    fn default() -> (summary: Summary)
        ensures
            summary@.rows.len() == 0,
            !summary@.failed,
    {
        Summary { rows: Vec::new(), failed: false }
    }
}

impl Summary {
    /// Records a successful operation.
    pub fn ok(&mut self, name: &str, version: &str, note: &str)
        ensures
            final(self)@ == old(self)@.with_ok(name@, version@, note@),
    {
        let ghost shorter = self@.rows;
        let row = Summary::row("✓", name, version, note);
        let ghost added = row@;
        self.rows.push(row);
        assert(self@.rows =~= shorter.push(added));
    }

    /// Records a failed operation.
    pub fn fail(&mut self, name: &str, version: &str, note: &str)
        ensures
            final(self)@ == old(self)@.with_failure(name@, version@, note@),
    {
        let ghost shorter = self@.rows;
        let row = Summary::row("✗", name, version, note);
        let ghost added = row@;
        self.rows.push(row);
        self.failed = true;
        assert(self@.rows =~= shorter.push(added));
    }

    /// Builds one summary-table row.
    fn row(marker: &str, name: &str, version: &str, note: &str) -> (row: SummaryRow)
        ensures
            row@ == (SummaryRowView {
                marker: marker@,
                name: name@,
                version: version@,
                note: note@,
            }),
    {
        SummaryRow {
            marker: marker.to_owned(),
            name: name.to_owned(),
            version: version.to_owned(),
            note: note.to_owned(),
        }
    }

    /// The summary table, sorted by package, and the exit code.
    pub fn finish(self, reporter: &ui::Reporter) -> (finished: (Vec<String>, ExitCode))
        ensures
            text::views(finished.0@) == if reporter.level().rank() >= ui::Verbosity::Normal.rank() {
                ui::table(summary_header(), self@.cells())
            } else {
                Seq::empty()
            },
            finished.1 == if self@.failed {
                ExitCode::Failure
            } else {
                ExitCode::Success
            },
    {
        let Summary { rows, failed } = self;
        let ghost found = rows@;
        let rows = order::sort(rows);
        proof {
            order::sorting_commutes(found, summary_row_view(), summary_row_name());
        }
        let ghost expected = self@.cells();
        let mut cells: Vec<Vec<String>> = Vec::new();
        let mut i: usize = 0;
        assert(ui::row_views(cells@) =~= expected.take(0));
        while i < rows.len()
            invariant
                0 <= i <= rows@.len(),
                rows@.len() == expected.len(),
                forall|k: int|
                    0 <= k < rows@.len() ==> #[trigger] expected[k] == seq![
                        rows@[k].marker@,
                        rows@[k].name@,
                        rows@[k].version@,
                        rows@[k].note@,
                    ],
                ui::row_views(cells@) == expected.take(i as int),
            decreases rows@.len() - i,
        {
            let row = &rows[i];
            let line = vec![
                row.marker.clone(),
                row.name.clone(),
                row.version.clone(),
                row.note.clone(),
            ];
            assert(text::views(line@) =~= expected[i as int]);
            let ghost shorter = ui::row_views(cells@);
            let ghost added = text::views(line@);
            cells.push(line);
            assert(ui::row_views(cells@) =~= shorter.push(added));
            assert(ui::row_views(cells@) =~= expected.take(i + 1));
            i = i + 1;
        }
        assert(expected.take(i as int) =~= expected);
        let header = ["", "NAME", "VERSION", "RESULT"];
        assert(ui::header_views(header@) =~= summary_header());
        let lines = reporter.summary(header.as_slice(), &cells);
        let code = if failed {
            ExitCode::Failure
        } else {
            ExitCode::Success
        };
        (lines, code)
    }
}

/// Renders an error with its full cause chain on one line.
#[must_use]
pub fn error_chain(error: &install::Error) -> (line: String)
    ensures
        line@ == text::joined(seq![error@.text()] + error@.causes(), ": "@),
{
    let chain = error.chain();
    text::join(&chain, ": ")
}

/// A summary table has one row for each recorded outcome, with the package, its
/// version and the note, and the rows are sorted by package.
pub proof fn summaries_show_every_outcome(summary: SummaryView)
    ensures
        summary.cells().len() == summary.rows.len(),
        forall|i: int|
            0 <= i < summary.rows.len() ==> summary.cells().contains(
                seq![
                    (#[trigger] summary.rows[i]).marker,
                    summary.rows[i].name,
                    summary.rows[i].version,
                    summary.rows[i].note,
                ],
            ),
        forall|i: int, j: int|
            0 <= i < j < summary.cells().len() ==> !text::before(
                (#[trigger] summary.cells()[j])[1],
                (#[trigger] summary.cells()[i])[1],
            ),
{
    broadcast use vstd::seq_lib::group_to_multiset_ensures;

    let sorted = order::sorted_by(summary.rows, summary_row_name());
    order::sorting_is_stable(summary.rows, summary_row_name(), Seq::empty());
    assert forall|i: int| 0 <= i < summary.rows.len() implies summary.cells().contains(
        seq![
            (#[trigger] summary.rows[i]).marker,
            summary.rows[i].name,
            summary.rows[i].version,
            summary.rows[i].note,
        ],
    ) by {
        let row = summary.rows[i];
        assert(summary.rows.contains(row));
        assert(sorted.to_multiset().count(row) > 0);
        assert(sorted.contains(row));
        let k = choose|k: int| 0 <= k < sorted.len() && sorted[k] == row;
        assert(summary.cells()[k] == seq![row.marker, row.name, row.version, row.note]);
    }
    assert forall|i: int, j: int| 0 <= i < j < summary.cells().len() implies !text::before(
        (#[trigger] summary.cells()[j])[1],
        (#[trigger] summary.cells()[i])[1],
    ) by {
        assert(summary.cells()[i][1] == summary_row_name()(sorted[i]));
        assert(summary.cells()[j][1] == summary_row_name()(sorted[j]));
    }
}

/// A run counts as failed from its first failure on: a success never hides one.
pub proof fn failures_are_never_hidden(
    summary: SummaryView,
    name: Seq<char>,
    version: Seq<char>,
    note: Seq<char>,
)
    ensures
        summary.with_ok(name, version, note).failed == summary.failed,
        summary.with_failure(name, version, note).failed,
        summary.with_ok(name, version, note).rows.len() == summary.rows.len() + 1,
        summary.with_failure(name, version, note).rows.len() == summary.rows.len() + 1,
        summary.with_ok(name, version, note).rows.drop_last() == summary.rows,
        summary.with_failure(name, version, note).rows.drop_last() == summary.rows,
        summary.with_ok(name, version, note).rows.last() == (SummaryRowView {
            marker: "✓"@,
            name,
            version,
            note,
        }),
        summary.with_failure(name, version, note).rows.last() == (SummaryRowView {
            marker: "✗"@,
            name,
            version,
            note,
        }),
{
    assert(summary.with_ok(name, version, note).rows.drop_last() =~= summary.rows);
    assert(summary.with_failure(name, version, note).rows.drop_last() =~= summary.rows);
}

} // verus!
