//! The plain listing: one line for each entry.

use vstd::prelude::*;
use vstd::string::*;
use colored::Colorize;
use crate::columns::{cells, rows_of, shown_columns, visible_columns, Column};
use crate::entry::{DirectoryEntry, EntryModel};
use crate::options::{ConfigModel, RunConfig};
use crate::text::{decimal, decimal_string, lemma_decimal_len_u64};
use crate::tint::{column_tint, tint_of, Tint};

verus! {

/// The cells one after the other, with a space between each two.
pub open spec fn spaced(cells: Seq<Seq<char>>) -> Seq<char>
    decreases cells.len(),
{
    if cells.len() == 0 {
        Seq::<char>::empty()
    } else if cells.len() == 1 {
        cells[0]
    } else {
        spaced(cells.drop_last()) + seq![' '] + cells.last()
    }
}

/// The line of the given cells: the cells with a space between each two, and
/// the end of the line.
pub open spec fn line_text(cells: Seq<Seq<char>>) -> Seq<char> {
    spaced(cells) + seq!['\n']
}

/// The lines of the given rows, one after the other.
pub open spec fn lines_text(rows: Seq<Seq<Seq<char>>>) -> Seq<char>
    decreases rows.len(),
{
    if rows.len() == 0 {
        Seq::<char>::empty()
    } else {
        lines_text(rows.drop_last()) + line_text(rows.last())
    }
}

/// A run of `count` dashes.
pub open spec fn dashes(count: nat) -> Seq<char> {
    Seq::new(count, |i: int| '-')
}

/// The two lines that tell the total: seven dashes and one more for each
/// digit of the count, then the count itself.
pub open spec fn total_text(count: nat) -> Seq<char> {
    dashes(7 + decimal(count).len()) + seq!['\n'] + "Total: "@ + decimal(count) + seq!['\n']
}

/// What follows the lines of the entries: the total where it is asked for.
pub open spec fn footer_text(config: ConfigModel, count: nat) -> Seq<char> {
    if config.show_total {
        total_text(count)
    } else {
        Seq::<char>::empty()
    }
}

/// The plain listing without colours: for each entry a line of the columns
/// that are shown, and the total where it is asked for.
pub open spec fn plain_text(entries: Seq<EntryModel>, config: ConfigModel) -> Seq<char> {
    lines_text(rows_of(entries, visible_columns(config))) + footer_text(config, entries.len())
}

/// The escape sequence that ends every colour.
pub open spec fn reset_text() -> Seq<char> {
    seq!['\x1b', '[', '0', 'm']
}

/// The escape sequence that begins a colour.
pub open spec fn tint_text(tint: Tint) -> Seq<char> {
    seq![
        '\x1b',
        '[',
        '3',
        match tint {
            Tint::Red => '1',
            Tint::Green => '2',
            Tint::Yellow => '3',
            Tint::Blue => '4',
            Tint::Magenta => '5',
            Tint::Cyan => '6',
        },
        'm',
    ]
}

/// Whether the text holds the escape sequence that ends every colour.
pub open spec fn holds_reset(text: Seq<char>) -> bool {
    exists|at: int|
        0 <= at && at + 4 <= text.len() && #[trigger] text.subrange(at, at + 4) == reset_text()
}

/// Whether `painted` is `text` painted in `tint`: the text as it is, where
/// colours are switched off, or the text between the escape sequence of the
/// colour and the one that ends it. Of a text that itself holds the
/// sequence that ends a colour nothing is said.
pub open spec fn is_painted(painted: Seq<char>, text: Seq<char>, tint: Tint) -> bool {
    holds_reset(text) || painted == text || painted == tint_text(tint) + text + reset_text()
}

/// Whether `painted` holds the cells of `row`, each painted in the colour of
/// its column.
pub open spec fn is_painted_row(
    painted: Seq<Seq<char>>,
    row: Seq<Seq<char>>,
    columns: Seq<Column>,
) -> bool {
    &&& painted.len() == row.len()
    &&& row.len() == columns.len()
    &&& forall|k: int|
        0 <= k < painted.len() ==> is_painted(#[trigger] painted[k], row[k], column_tint(columns[k]))
}

/// Whether `painted` holds the rows of `rows`, each cell painted in the colour
/// of its column.
pub open spec fn is_painting(
    painted: Seq<Seq<Seq<char>>>,
    rows: Seq<Seq<Seq<char>>>,
    columns: Seq<Column>,
) -> bool {
    &&& painted.len() == rows.len()
    &&& forall|i: int|
        0 <= i < painted.len() ==> is_painted_row(#[trigger] painted[i], rows[i], columns)
}

/// Where the total is asked for, the plain listing ends in exactly two more
/// lines: a line of dashes, seven and one for each digit of the count of
/// entries, and the line that names the count.
pub proof fn law_total_follows_listing(entries: Seq<EntryModel>, config: ConfigModel)
    requires
        config.show_total,
    ensures
        plain_text(entries, config) == lines_text(rows_of(entries, visible_columns(config)))
            + dashes(7 + decimal(entries.len()).len()) + seq!['\n'] + "Total: "@ + decimal(
            entries.len(),
        ) + seq!['\n'],
        dashes(7 + decimal(entries.len()).len()).len() == 7 + decimal(entries.len()).len(),
{
    let lines = lines_text(rows_of(entries, visible_columns(config)));
    let count = entries.len();
    assert(lines + (dashes(7 + decimal(count).len()) + seq!['\n'] + "Total: "@ + decimal(count)
        + seq!['\n']) =~= lines + dashes(7 + decimal(count).len()) + seq!['\n'] + "Total: "@
        + decimal(count) + seq!['\n']);
}

/// Where the total is not asked for, nothing follows the lines of the entries.
pub proof fn law_no_total_without_flag(entries: Seq<EntryModel>, config: ConfigModel)
    requires
        !config.show_total,
    ensures
        plain_text(entries, config) == lines_text(rows_of(entries, visible_columns(config))),
{
    assert(lines_text(rows_of(entries, visible_columns(config))) + Seq::<char>::empty()
        =~= lines_text(rows_of(entries, visible_columns(config))));
}

/// Calls `colored::Colorize::color` on the text and renders the result.
/// Whether colours are on depends on the terminal and the environment. The
/// contract claims what the crate does either way with a text that does
/// not hold the sequence that ends a colour: it hands the text back as it is,
/// or between the escape sequence of the colour and the one that ends it.
#[verifier::external_body]
fn paint(text: &str, tint: Tint) -> (painted: String)
    ensures
        is_painted(painted@, text@, tint),
{
    let color = match tint {
        Tint::Red => colored::Color::Red,
        Tint::Green => colored::Color::Green,
        Tint::Yellow => colored::Color::Yellow,
        Tint::Blue => colored::Color::Blue,
        Tint::Magenta => colored::Color::Magenta,
        Tint::Cyan => colored::Color::Cyan,
    };
    text.color(color).to_string()
}

/// Paints each cell in the colour of its column.
fn paint_cells(row: &Vec<String>, columns: &Vec<Column>) -> (painted: Vec<String>)
    requires
        row.len() == columns.len(),
    ensures
        is_painted_row(painted.deep_view(), row.deep_view(), columns@),
{
    let mut painted: Vec<String> = Vec::new();
    let mut i: usize = 0;
    while i < row.len()
        invariant
            i <= row.len(),
            row.len() == columns.len(),
            painted.len() == i,
            forall|k: int|
                0 <= k < i ==> is_painted(
                    (#[trigger] painted@[k])@,
                    row@[k]@,
                    column_tint(columns@[k]),
                ),
        decreases row.len() - i,
    {
        painted.push(paint(row[i].as_str(), tint_of(columns[i])));
        i = i + 1;
    }
    assert forall|k: int| 0 <= k < painted.deep_view().len() implies is_painted(
        #[trigger] painted.deep_view()[k],
        row.deep_view()[k],
        column_tint(columns@[k]),
    ) by {
        assert(painted.deep_view()[k] == painted@[k]@);
    }
    painted
}

/// Writes the cells as one line: a space between each two, and the end of the
/// line.
pub fn join_cells(cells: &Vec<String>) -> (line: String)
    ensures
        line@ == line_text(cells.deep_view()),
{
    proof {
        reveal_strlit(" ");
        reveal_strlit("\n");
    }
    let ghost all = cells.deep_view();
    let mut line = String::new();
    let mut i: usize = 0;
    assert(all.take(0) =~= Seq::<Seq<char>>::empty());
    while i < cells.len()
        invariant
            i <= cells.len(),
            all == cells.deep_view(),
            line@ == spaced(all.take(i as int)),
        decreases cells.len() - i,
    {
        proof {
            reveal_strlit(" ");
            let more = all.take(i + 1);
            assert(more.drop_last() =~= all.take(i as int));
            assert(more.last() == cells@[i as int]@);
        }
        if i > 0 {
            line.append(" ");
        }
        line.append(cells[i].as_str());
        assert(line@ =~= spaced(all.take(i + 1)));
        i = i + 1;
    }
    assert(all.take(i as int) =~= all);
    line.append("\n");
    line
}

/// Writes the two lines that tell the total.
pub fn total_lines(count: usize) -> (lines: String)
    ensures
        lines@ == total_text(count as nat),
{
    proof {
        reveal_strlit("-");
        reveal_strlit("\n");
    }
    let number = decimal_string(count as u64);
    let digits = number.as_str().unicode_len();
    proof {
        lemma_decimal_len_u64(count as u64);
    }
    let mut lines = String::new();
    let mut i: usize = 0;
    while i < 7 || i - 7 < digits
        invariant
            i <= 7 + digits,
            digits <= 20,
            digits == decimal(count as nat).len(),
            lines@ == dashes(i as nat),
        decreases 7 + digits - i,
    {
        proof {
            reveal_strlit("-");
        }
        lines.append("-");
        i = i + 1;
        assert(lines@ =~= dashes(i as nat));
    }
    lines.append("\n");
    lines.append("Total: ");
    lines.append(number.as_str());
    lines.append("\n");
    lines
}

/// Renders the plain listing of the entries.
///
/// Without colours the result is `plain_text`. With colours each cell is
/// painted in the colour of its column before the lines are put together:
/// the result is the lines of the painted cells, and the total as it is.
pub fn render_plain(entries: &Vec<DirectoryEntry>, config: &RunConfig) -> (text: String)
    ensures
        !config.colors ==> text@ == plain_text(entries.deep_view(), config@),
        config.colors ==> exists|rows: Seq<Seq<Seq<char>>>|
            is_painting(
                rows,
                rows_of(entries.deep_view(), visible_columns(config@)),
                visible_columns(config@),
            ) && text@ == lines_text(rows) + footer_text(config@, entries.len() as nat),
{
    let columns = shown_columns(config);
    let ghost all = entries.deep_view();
    let ghost plain_rows = rows_of(all, columns@);
    let ghost rows = Seq::<Seq<Seq<char>>>::empty();
    let mut text = String::new();
    let mut i: usize = 0;
    while i < entries.len()
        invariant
            i <= entries.len(),
            all == entries.deep_view(),
            plain_rows == rows_of(all, columns@),
            columns@ == visible_columns(config@),
            rows.len() == i,
            config.colors ==> forall|k: int|
                0 <= k < i ==> is_painted_row(#[trigger] rows[k], plain_rows[k], columns@),
            !config.colors ==> rows == plain_rows.take(i as int),
            text@ == lines_text(rows),
        decreases entries.len() - i,
    {
        let row = cells(&entries[i], &columns);
        let shown = if config.colors {
            paint_cells(&row, &columns)
        } else {
            row
        };
        let line = join_cells(&shown);
        text.append(line.as_str());
        proof {
            let more = rows.push(shown.deep_view());
            assert(more.drop_last() =~= rows);
            assert(plain_rows[i as int] == row.deep_view());
            if !config.colors {
                assert(more =~= plain_rows.take(i + 1));
            }
            rows = more;
        }
        i = i + 1;
    }
    proof {
        assert(plain_rows.take(i as int) =~= plain_rows);
        if config.colors {
            assert(is_painting(rows, plain_rows, columns@));
        }
    }
    if config.show_total {
        let footer = total_lines(entries.len());
        text.append(footer.as_str());
    } else {
        assert(text@ + Seq::<char>::empty() =~= text@);
    }
    text
}

} // verus!
