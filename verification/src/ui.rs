//! Terminal status output.
//!
//! All status output (progress, warnings, step descriptions) is written to
//! **stderr**; stdout is reserved for command data so that output pipes
//! cleanly. The [`Reporter`] owns the verbosity policy — command code never
//! checks verbosity levels itself. It tells which lines to write; writing them
//! is left to the caller.

use vstd::prelude::*;
use crate::cli::GlobalArgs;
use crate::text;

verus! {

/// How much status output the user asked for.
#[derive(Clone, Copy, Debug, Eq, Ord, PartialEq, PartialOrd, Structural)]
pub enum Verbosity {
    /// `--quiet`: errors only.
    Quiet,
    /// The default: high-level status and warnings.
    Normal,
    /// `-v`: per-step status lines.
    Verbose,
    /// `-vv`: internal decisions (cache hits, resolved paths, resume choices).
    Debug,
    /// `-vvv`: full tracing, including HTTP requests with bodies redacted.
    Trace,
}

impl Verbosity {
    /// How verbose a level is.
    pub open spec fn rank(self) -> int {
        match self {
            Verbosity::Quiet => 0,
            Verbosity::Normal => 1,
            Verbosity::Verbose => 2,
            Verbosity::Debug => 3,
            Verbosity::Trace => 4,
        }
    }

    /// The verbosity of a `--quiet` flag and a number of `-v` flags.
    pub open spec fn of_flags(quiet: bool, verbose: u8) -> Verbosity {
        if quiet {
            Verbosity::Quiet
        } else if verbose == 0 {
            Verbosity::Normal
        } else if verbose == 1 {
            Verbosity::Verbose
        } else if verbose == 2 {
            Verbosity::Debug
        } else {
            Verbosity::Trace
        }
    }

    /// Derives the verbosity from the `--quiet` and `-v` flag counts.
    #[must_use]
    pub fn from_flags(quiet: bool, verbose: u8) -> (verbosity: Verbosity)
        ensures
            verbosity == Verbosity::of_flags(quiet, verbose),
    {
        if quiet {
            Verbosity::Quiet
        } else {
            match verbose {
                0 => Verbosity::Normal,
                1 => Verbosity::Verbose,
                2 => Verbosity::Debug,
                _ => Verbosity::Trace,
            }
        }
    }

    /// Whether anything but errors is shown.
    #[must_use]
    pub fn shows_status(self) -> (shown: bool)
        ensures
            shown == (self.rank() >= Verbosity::Normal.rank()),
    {
        match self {
            Verbosity::Quiet => false,
            _ => true,
        }
    }

    /// Whether the single steps are shown.
    #[must_use]
    pub fn shows_steps(self) -> (shown: bool)
        ensures
            shown == (self.rank() >= Verbosity::Verbose.rank()),
    {
        match self {
            Verbosity::Quiet | Verbosity::Normal => false,
            _ => true,
        }
    }

    /// Whether structured log lines are written.
    #[must_use]
    pub fn logs(self) -> (logs: bool)
        ensures
            logs == (self.rank() >= Verbosity::Debug.rank()),
    {
        match self {
            Verbosity::Debug | Verbosity::Trace => true,
            _ => false,
        }
    }
}

/// Decides on status output according to the requested [`Verbosity`].
#[derive(Clone, Copy, Debug)]
pub struct Reporter {
    /// The level every output decision is based on.
    verbosity: Verbosity,
    /// Whether animated progress UI (spinners, bars) may be drawn.
    progress: bool,
    /// Whether stderr is a terminal a human can answer prompts on.
    interactive: bool,
}

/// What to do about a question.
#[derive(Debug)]
pub enum Confirmation {
    /// The answer is yes.
    Confirmed,
    /// Nobody can answer; this is what to say.
    Refused(String),
    /// Ask, with "no" as the default.
    Ask,
}

/// How a lengthy step is shown.
#[derive(Debug)]
pub enum Spinner {
    /// As a spinner.
    Animated,
    /// As a plain line, if it is shown at all.
    Plain(Option<String>),
}

impl Reporter {
    /// The level every output decision is based on.
    pub closed spec fn level(&self) -> Verbosity {
        self.verbosity
    }

    /// Whether animated progress UI may be drawn.
    pub closed spec fn animates(&self) -> bool {
        self.progress
    }

    /// Whether stderr is a terminal a human can answer prompts on.
    pub closed spec fn prompts(&self) -> bool {
        self.interactive
    }

    /// Whether progress UI is drawn.
    pub open spec fn draws(&self) -> bool {
        self.animates() && self.level().rank() >= Verbosity::Normal.rank()
    }

    /// Builds a reporter from the global CLI flags; progress UI is disabled
    /// by `--no-progress`, by log lines and whenever stderr is not a terminal.
    #[must_use]
    pub fn new(global: &GlobalArgs, terminal: bool) -> (reporter: Reporter)
        ensures
            reporter.level() == Verbosity::of_flags(global.quiet, global.verbose),
            reporter.animates() == (!global.no_progress && terminal && reporter.level().rank()
                < Verbosity::Debug.rank()),
            reporter.prompts() == terminal,
    {
        let verbosity = Verbosity::from_flags(global.quiet, global.verbose);
        Reporter {
            verbosity,
            progress: !global.no_progress && terminal && !verbosity.logs(),
            interactive: terminal,
        }
    }

    /// The level every output decision is based on.
    #[must_use]
    pub fn verbosity(&self) -> (verbosity: Verbosity)
        ensures
            verbosity == self.level(),
    {
        self.verbosity
    }

    /// Whether stderr is a terminal that can answer prompts.
    #[must_use]
    pub fn is_interactive(&self) -> (interactive: bool)
        ensures
            interactive == self.prompts(),
    {
        self.interactive
    }

    /// Decides on a yes/no confirmation.
    ///
    /// `assume_yes` (the `--yes` flag) short-circuits to yes; in a
    /// non-interactive session without `--yes` this refuses to guess.
    #[must_use]
    pub fn confirm(&self, prompt: &str, assume_yes: bool) -> (confirmation: Confirmation)
        ensures
            if assume_yes {
                confirmation is Confirmed
            } else if self.prompts() {
                confirmation is Ask
            } else {
                confirmation matches Confirmation::Refused(reason) && reason@
                    == "not an interactive session; pass --yes to confirm: "@ + prompt@
            },
    {
        if assume_yes {
            return Confirmation::Confirmed;
        }
        if !self.interactive {
            let mut reason = "not an interactive session; pass --yes to confirm: ".to_owned();
            reason.append(prompt);
            return Confirmation::Refused(reason);
        }
        Confirmation::Ask
    }

    /// A status line; shown unless `--quiet` is set.
    #[must_use]
    pub fn status(&self, message: &str) -> (line: Option<String>)
        ensures
            if self.level().rank() >= Verbosity::Normal.rank() {
                line matches Some(text) && text@ == message@
            } else {
                line is None
            },
    {
        if self.verbosity.shows_status() {
            Some(message.to_owned())
        } else {
            None
        }
    }

    /// A warning; shown unless `--quiet` is set.
    #[must_use]
    pub fn warn(&self, message: &str) -> (line: Option<String>)
        ensures
            if self.level().rank() >= Verbosity::Normal.rank() {
                line matches Some(text) && text@ == "warning: "@ + message@
            } else {
                line is None
            },
    {
        if self.verbosity.shows_status() {
            let mut line = "warning: ".to_owned();
            line.append(message);
            Some(line)
        } else {
            None
        }
    }

    /// A `-v` status line describing the current step.
    #[must_use]
    pub fn detail(&self, message: &str) -> (line: Option<String>)
        ensures
            if self.level().rank() >= Verbosity::Verbose.rank() {
                line matches Some(text) && text@ == message@
            } else {
                line is None
            },
    {
        if self.verbosity.shows_steps() {
            Some(message.to_owned())
        } else {
            None
        }
    }

    /// Decides how a lengthy step is shown.
    ///
    /// When progress UI is disabled (`--no-progress`, `--quiet`, or stderr
    /// is not a terminal) the message is a plain status line.
    #[must_use]
    pub fn spinner(&self, message: &str) -> (spinner: Spinner)
        ensures
            if self.draws() {
                spinner is Animated
            } else {
                spinner matches Spinner::Plain(line) && if self.level().rank()
                    >= Verbosity::Normal.rank() {
                    line matches Some(text) && text@ == message@
                } else {
                    line is None
                }
            },
    {
        if self.progress && self.verbosity.shows_status() {
            Spinner::Animated
        } else {
            Spinner::Plain(self.status(message))
        }
    }

    /// Whether a batch of parallel downloads is shown as progress bars.
    #[must_use]
    pub fn downloads(&self) -> (bars: bool)
        ensures
            bars == self.draws(),
    {
        self.progress && self.verbosity.shows_status()
    }

    /// The end-of-run summary table of a mutating command; none with
    /// `--quiet`.
    #[must_use]
    pub fn summary(&self, header: &[&str], rows: &Vec<Vec<String>>) -> (lines: Vec<String>)
        requires
            header@.len() > 0 || rows@.len() == 0,
        ensures
            text::views(lines@) == if self.level().rank() >= Verbosity::Normal.rank() {
                table(header_views(header@), row_views(rows@))
            } else {
                Seq::empty()
            },
    {
        if self.verbosity.shows_status() {
            render_table(header, rows)
        } else {
            let lines: Vec<String> = Vec::new();
            assert(text::views(lines@) =~= Seq::empty());
            lines
        }
    }
}

// ---------------------------------------------------------------------------
// Tables
// ---------------------------------------------------------------------------

/// The texts of a table header.
pub open spec fn header_views(header: Seq<&str>) -> Seq<Seq<char>> {
    header.map_values(|cell: &str| cell@)
}

/// The texts of table rows.
pub open spec fn row_views(rows: Seq<Vec<String>>) -> Seq<Seq<Seq<char>>> {
    rows.map_values(|row: Vec<String>| text::views(row@))
}

/// The width of a column: that of its widest cell.
pub open spec fn width(header: Seq<Seq<char>>, rows: Seq<Seq<Seq<char>>>, column: int) -> nat
    decreases rows.len(),
{
    if rows.len() == 0 {
        header[column].len()
    } else {
        let init = width(header, rows.drop_last(), column);
        if column < rows.last().len() && rows.last()[column].len() > init {
            rows.last()[column].len()
        } else {
            init
        }
    }
}

/// The first cells of a table line: every cell but that of the last column is
/// padded to the width of its column, plus a gap.
pub open spec fn cells_text(cells: Seq<Seq<char>>, widths: Seq<nat>, count: int) -> Seq<char>
    decreases count,
{
    if count <= 0 {
        Seq::empty()
    } else {
        let init = cells_text(cells, widths, count - 1);
        let cell = cells[count - 1];
        if count == widths.len() {
            init + cell
        } else {
            init + cell + text::blanks((widths[count - 1] - cell.len() + 2) as nat)
        }
    }
}

/// Column widths as numbers.
pub open spec fn widths_view(widths: Seq<usize>) -> Seq<nat> {
    widths.map_values(|width: usize| width as nat)
}

/// How many cells of a row are shown.
pub open spec fn shown_cells(cells: Seq<Seq<char>>, widths: Seq<nat>) -> int {
    if cells.len() < widths.len() {
        cells.len() as int
    } else {
        widths.len() as int
    }
}

/// A table line.
pub open spec fn line(cells: Seq<Seq<char>>, widths: Seq<nat>) -> Seq<char> {
    text::trimmed_end(cells_text(cells, widths, shown_cells(cells, widths)))
}

/// The widths of the columns.
pub open spec fn widths_of(header: Seq<Seq<char>>, rows: Seq<Seq<Seq<char>>>) -> Seq<nat> {
    Seq::new(header.len(), |column: int| width(header, rows, column))
}

/// A table: the header, then the rows, with the columns aligned.
pub open spec fn table(header: Seq<Seq<char>>, rows: Seq<Seq<Seq<char>>>) -> Seq<Seq<char>> {
    let widths = widths_of(header, rows);
    seq![line(header, widths)] + rows.map_values(|cells: Seq<Seq<char>>| line(cells, widths))
}

/// A column is at least as wide as its header and as each of its cells.
pub proof fn columns_hold_their_cells(
    header: Seq<Seq<char>>,
    rows: Seq<Seq<Seq<char>>>,
    column: int,
)
    ensures
        width(header, rows, column) >= header[column].len(),
        forall|i: int|
            0 <= i < rows.len() && column < (#[trigger] rows[i]).len() ==> rows[i][column].len()
                <= width(header, rows, column),
    decreases rows.len(),
{
    if rows.len() > 0 {
        let init = rows.drop_last();
        columns_hold_their_cells(header, init, column);
        assert forall|i: int|
            0 <= i < rows.len() && column < (#[trigger] rows[i]).len() implies rows[i][column].len()
            <= width(header, rows, column) by {
            if i < init.len() {
                assert(init[i] == rows[i]);
            }
        }
    }
}

/// Where a column starts.
pub open spec fn column_start(widths: Seq<nat>, column: int) -> int
    decreases column,
{
    if column <= 0 {
        0
    } else {
        column_start(widths, column - 1) + widths[column - 1] + 2
    }
}

/// The columns are aligned: in every line that fits its columns, the cells in
/// front of a column fill exactly the space up to where the column starts.
pub proof fn columns_are_aligned(cells: Seq<Seq<char>>, widths: Seq<nat>, column: int)
    requires
        0 <= column <= cells.len(),
        column < widths.len(),
        forall|c: int| 0 <= c < column ==> (#[trigger] cells[c]).len() <= widths[c],
    ensures
        cells_text(cells, widths, column).len() == column_start(widths, column),
    decreases column,
{
    if column > 0 {
        columns_are_aligned(cells, widths, column - 1);
        assert(cells[column - 1].len() <= widths[column - 1]);
    }
}

/// No table line ends in white space.
pub proof fn lines_have_no_trailing_space(cells: Seq<Seq<char>>, widths: Seq<nat>)
    ensures
        line(cells, widths).len() > 0 ==> !text::white_space(line(cells, widths).last()),
{
    text::trimmed_end_is_trimmed(cells_text(cells, widths, shown_cells(cells, widths)));
}

/// The length of a text in characters.
fn length(text: &str) -> (length: usize)
    ensures
        length == text@.len(),
{
    text.unicode_len()
}

/// One table line.
fn render_line(cells: &Vec<String>, widths: &Vec<usize>) -> (rendered: String)
    requires
        forall|c: int|
            0 <= c < cells@.len() && c + 1 < widths@.len() ==> (#[trigger] cells@[c])@.len()
                <= widths@[c],
    ensures
        rendered@ == line(
            text::views(cells@),
            widths_view(widths@),
        ),
{
    let ghost views = text::views(cells@);
    let ghost spans = widths_view(widths@);
    let mut text = "".to_owned();
    let mut i: usize = 0;
    proof {
        reveal_strlit("");
    }
    assert(text@ =~= cells_text(views, spans, 0));
    while i < cells.len() && i < widths.len()
        invariant
            views == text::views(cells@),
            spans == widths_view(widths@),
            0 <= i <= cells@.len(),
            0 <= i <= widths@.len(),
            forall|c: int|
                0 <= c < cells@.len() && c + 1 < widths@.len() ==> (#[trigger] cells@[c])@.len()
                    <= widths@[c],
            text@ == cells_text(views, spans, i as int),
        decreases cells@.len() - i,
    {
        let cell = cells[i].as_str();
        assert(views[i as int] == cell@);
        assert(spans[i as int] == widths@[i as int]);
        text.append(cell);
        if i + 1 != widths.len() {
            assert(cells@[i as int]@.len() <= widths@[i as int]);
            let ghost so_far = text@;
            let filler = text::spaces(widths[i] - length(cell));
            text.append(filler.as_str());
            text.append("  ");
            proof {
                reveal_strlit("  ");
            }
            assert(text@ =~= so_far + text::blanks((widths@[i as int] - cell@.len() + 2) as nat));
        }
        i = i + 1;
    }
    assert(i == shown_cells(views, spans));
    text::trim_end(text.as_str())
}

/// The widths of the columns: each as wide as its widest cell.
fn column_widths(header: &Vec<String>, rows: &Vec<Vec<String>>) -> (widths: Vec<usize>)
    ensures
        widths_view(widths@) == widths_of(
            text::views(header@),
            row_views(rows@),
        ),
{
    let ghost names = text::views(header@);
    let ghost all = row_views(rows@);
    let mut widths: Vec<usize> = Vec::new();
    let mut column: usize = 0;
    while column < header.len()
        invariant
            names == text::views(header@),
            all == row_views(rows@),
            0 <= column <= header@.len(),
            widths@.len() == column,
            forall|c: int| 0 <= c < column ==> #[trigger] widths@[c] == width(names, all, c),
        decreases header@.len() - column,
    {
        let mut widest: usize = length(header[column].as_str());
        let mut i: usize = 0;
        assert(all.take(0) =~= Seq::empty());
        while i < rows.len()
            invariant
                names == text::views(header@),
                all == row_views(rows@),
                0 <= column < header@.len(),
                0 <= i <= rows@.len(),
                widest == width(names, all.take(i as int), column as int),
            decreases rows@.len() - i,
        {
            assert(all.take(i + 1).drop_last() =~= all.take(i as int));
            assert(all.take(i + 1).last() == text::views(rows@[i as int]@));
            let row = &rows[i];
            if column < row.len() {
                let cell = length(row[column].as_str());
                if cell > widest {
                    widest = cell;
                }
            }
            i = i + 1;
        }
        assert(all.take(i as int) =~= all);
        widths.push(widest);
        column = column + 1;
    }
    assert(widths_view(widths@) =~= widths_of(names, all));
    widths
}

/// Renders rows as space-aligned table lines. The last column is left
/// unpadded so long text never produces trailing whitespace.
pub fn render_table(header: &[&str], rows: &Vec<Vec<String>>) -> (lines: Vec<String>)
    requires
        header@.len() > 0 || rows@.len() == 0,
    ensures
        text::views(lines@) == table(header_views(header@), row_views(rows@)),
{
    let ghost names = header_views(header@);
    let ghost all = row_views(rows@);
    let mut titles: Vec<String> = Vec::new();
    let mut i: usize = 0;
    assert(text::views(titles@) =~= names.take(0));
    while i < header.len()
        invariant
            names == header_views(header@),
            0 <= i <= header@.len(),
            text::views(titles@) == names.take(i as int),
        decreases header@.len() - i,
    {
        let ghost shorter = text::views(titles@);
        titles.push(header[i].to_owned());
        assert(text::views(titles@) =~= shorter.push(header@[i as int]@));
        assert(text::views(titles@) =~= names.take(i + 1));
        i = i + 1;
    }
    assert(names.take(i as int) =~= names);
    let widths = column_widths(&titles, rows);
    let ghost spans = widths_of(names, all);
    assert(text::views(titles@) == names);
    assert(widths_view(widths@) == spans);
    assert(spans.len() == names.len() && spans.len() == widths@.len());
    assert forall|c: int| 0 <= c < widths@.len() implies #[trigger] widths@[c] == width(
        names,
        all,
        c,
    ) by {
        assert(spans[c] == widths_view(widths@)[c]);
    }
    assert forall|c: int|
        0 <= c < titles@.len() && c + 1 < widths@.len() implies (#[trigger] titles@[c])@.len()
        <= widths@[c] by {
        columns_hold_their_cells(names, all, c);
        assert(names[c] == titles@[c]@);
    }
    let mut lines = vec![render_line(&titles, &widths)];
    let ghost expected = table(names, all);
    assert(text::views(lines@) =~= expected.take(1));
    let mut i: usize = 0;
    while i < rows.len()
        invariant
            all == row_views(rows@),
            spans == widths_of(names, all),
            spans == widths_view(widths@),
            forall|c: int| 0 <= c < widths@.len() ==> #[trigger] widths@[c] == width(names, all, c),
            expected == table(names, all),
            0 <= i <= rows@.len(),
            text::views(lines@) == expected.take(i + 1),
        decreases rows@.len() - i,
    {
        let row = &rows[i];
        assert(all[i as int] == text::views(row@));
        assert forall|c: int|
            0 <= c < row@.len() && c + 1 < widths@.len() implies (#[trigger] row@[c])@.len()
            <= widths@[c] by {
            columns_hold_their_cells(names, all, c);
            assert(all[i as int][c] == row@[c]@);
        }
        let ghost shorter = text::views(lines@);
        let rendered = render_line(row, &widths);
        let ghost added = rendered@;
        lines.push(rendered);
        assert(text::views(lines@) =~= shorter.push(added));
        assert(expected[i + 1] == line(all[i as int], spans));
        assert(text::views(lines@) =~= expected.take(i + 2));
        i = i + 1;
    }
    assert(expected.take(i + 1) =~= expected);
    lines
}

/// The lines of a table that is command data, to be printed on stdout.
#[must_use]
pub fn print_table(header: &[&str], rows: &Vec<Vec<String>>) -> (lines: Vec<String>)
    requires
        header@.len() > 0 || rows@.len() == 0,
    ensures
        text::views(lines@) == table(header_views(header@), row_views(rows@)),
{
    render_table(header, rows)
}

// ---------------------------------------------------------------------------
// Ages
// ---------------------------------------------------------------------------

/// An age in seconds, in the largest unit that fits at least once.
pub open spec fn age_text(secs: u64) -> Seq<char> {
    if secs < 60 {
        text::decimal(secs as nat) + "s"@
    } else if secs < 3_600 {
        text::decimal((secs / 60) as nat) + "m"@
    } else if secs < 86_400 {
        text::decimal((secs / 3_600) as nat) + "h"@
    } else {
        text::decimal((secs / 86_400) as nat) + "d"@
    }
}

/// Formats an age in seconds as a compact human-readable text such as `45s`,
/// `12m`, `3h` or `2d`.
#[must_use]
pub fn format_age(secs: u64) -> (text: String)
    ensures
        text@ == age_text(secs),
{
    let (count, unit): (u64, &str) = if secs < 60 {
        (secs, "s")
    } else if secs < 3_600 {
        (secs / 60, "m")
    } else if secs < 86_400 {
        (secs / 3_600, "h")
    } else {
        (secs / 86_400, "d")
    };
    let mut text = text::number_text(count);
    text.append(unit);
    text
}

// ---------------------------------------------------------------------------
// What holds of the output
// ---------------------------------------------------------------------------

/// Every `-v` makes the output one level more verbose, up to the highest one,
/// unless `--quiet` silences it altogether.
pub proof fn flags_raise_the_verbosity(quiet: bool, verbose: u8)
    ensures
        quiet ==> Verbosity::of_flags(quiet, verbose) is Quiet,
        !quiet ==> Verbosity::of_flags(quiet, verbose).rank() == if verbose < 3 {
            verbose + 1
        } else {
            4
        },
        Verbosity::of_flags(false, 0) is Normal,
{
}

/// A column is exactly as wide as its header or one of its cells.
pub proof fn columns_are_no_wider_than_needed(
    header: Seq<Seq<char>>,
    rows: Seq<Seq<Seq<char>>>,
    column: int,
)
    ensures
        width(header, rows, column) == header[column].len() || exists|i: int|
            0 <= i < rows.len() && column < (#[trigger] rows[i]).len() && rows[i][column].len()
                == width(header, rows, column),
    decreases rows.len(),
{
    if rows.len() > 0 {
        let init = rows.drop_last();
        columns_are_no_wider_than_needed(header, init, column);
        let wide = width(header, rows, column);
        if wide == width(header, init, column) {
            if exists|i: int|
                0 <= i < init.len() && column < (#[trigger] init[i]).len() && init[i][column].len()
                    == wide {
                let i = choose|i: int|
                    0 <= i < init.len() && column < (#[trigger] init[i]).len()
                        && init[i][column].len() == wide;
                assert(rows[i] == init[i]);
            }
        } else {
            assert(rows[rows.len() - 1][column].len() == wide);
        }
    }
}

/// Every cell of a line stands where its column starts, with nothing but spaces
/// up to the next column.
pub proof fn cells_stand_in_their_columns(
    cells: Seq<Seq<char>>,
    widths: Seq<nat>,
    count: int,
    column: int,
)
    requires
        0 <= column < count <= cells.len(),
        count <= widths.len(),
        forall|c: int| 0 <= c < count ==> (#[trigger] cells[c]).len() <= widths[c],
    ensures
        ({
            let text = cells_text(cells, widths, count);
            let start = column_start(widths, column);
            let end = start + cells[column].len();
            &&& 0 <= start
            &&& end <= text.len()
            &&& text.subrange(start, end) == cells[column]
            &&& forall|i: int|
                end <= i < text.len() && i < column_start(widths, column + 1)
                    ==> #[trigger] text[i] == ' '
        }),
    decreases count,
{
    let text = cells_text(cells, widths, count);
    let before = cells_text(cells, widths, count - 1);
    let cell = cells[count - 1];
    columns_are_aligned(cells, widths, count - 1);
    columns_start_behind_each_other(widths, column);
    if column < count - 1 {
        cells_stand_in_their_columns(cells, widths, count - 1, column);
        let start = column_start(widths, column);
        let end = start + cells[column].len();
        assert(text.subrange(start, end) =~= before.subrange(start, end));
        columns_start_in_order(widths, column + 1, count - 1);
        assert forall|i: int| end <= i < text.len() && i < column_start(widths, column + 1) implies
            #[trigger] text[i] == ' ' by {
            assert(text[i] == before[i]);
        }
    } else {
        let start = column_start(widths, column);
        assert(text.subrange(start, start + cell.len()) =~= cell);
    }
}

/// Where a column starts is never in front of the line.
proof fn columns_start_behind_each_other(widths: Seq<nat>, column: int)
    ensures
        column_start(widths, column) >= 0,
    decreases column,
{
    if column > 0 {
        columns_start_behind_each_other(widths, column - 1);
    }
}

/// Later columns start behind earlier ones.
proof fn columns_start_in_order(widths: Seq<nat>, first: int, second: int)
    requires
        0 <= first <= second,
    ensures
        column_start(widths, first) <= column_start(widths, second),
    decreases second - first,
{
    if first < second {
        columns_start_in_order(widths, first, second - 1);
    }
}

/// A table has one line for its header and one for each row, in their order,
/// and all lines use the same columns.
pub proof fn tables_have_a_line_for_each_row(
    header: Seq<Seq<char>>,
    rows: Seq<Seq<Seq<char>>>,
    at: int,
)
    requires
        0 <= at < rows.len(),
    ensures
        table(header, rows).len() == rows.len() + 1,
        table(header, rows)[0] == line(header, widths_of(header, rows)),
        table(header, rows)[at + 1] == line(rows[at], widths_of(header, rows)),
        widths_of(header, rows).len() == header.len(),
{
}

/// An age is told in the largest unit that fits at least once, as the number of
/// times that the unit fits.
pub proof fn ages_are_told_in_the_largest_unit(secs: u64)
    ensures
        exists|n: nat|
            {
                ||| n == secs && secs < 60 && age_text(secs) == #[trigger] text::decimal(n) + "s"@
                ||| 1 <= n < 60 && n * 60 <= secs < (n + 1) * 60 && age_text(secs)
                    == #[trigger] text::decimal(n) + "m"@
                ||| 1 <= n < 24 && n * 3_600 <= secs < (n + 1) * 3_600 && age_text(secs)
                    == #[trigger] text::decimal(n) + "h"@
                ||| 1 <= n && n * 86_400 <= secs < (n + 1) * 86_400 && age_text(secs)
                    == #[trigger] text::decimal(n) + "d"@
            },
{
    if secs < 60 {
        let n = secs as nat;
        assert(age_text(secs) == text::decimal(n) + "s"@);
    } else if secs < 3_600 {
        let n = (secs / 60) as nat;
        assert(age_text(secs) == text::decimal(n) + "m"@);
    } else if secs < 86_400 {
        let n = (secs / 3_600) as nat;
        assert(age_text(secs) == text::decimal(n) + "h"@);
    } else {
        let n = (secs / 86_400) as nat;
        assert(age_text(secs) == text::decimal(n) + "d"@);
    }
}

} // verus!
