//! The table: a bordered grid with a heading row.

use vstd::prelude::*;
use vstd::string::*;
use tabled::settings::object::{Columns, Rows};
use tabled::settings::{Color, Style};
use tabled::Table;
use crate::columns::{
    cells, heading_text, headings, headings_of, law_name_alone_without_flags, rows_of,
    shown_columns, visible_columns, Column,
};
use crate::entry::{DirectoryEntry, EntryModel};
use crate::options::{ConfigModel, RunConfig};
use crate::tint::{heading_tint, place_tints, tints_by_place, Tint};

verus! {

/// The text that `tabled` draws for a grid of cells in its rounded style.
pub uninterp spec fn rounded_table(rows: Seq<Seq<Seq<char>>>) -> Seq<char>;

/// The text that `tabled` draws for a grid of cells in its rounded style
/// with each column in the colour of its place and then the first row in a
/// colour of its own.
pub uninterp spec fn tinted_table(rows: Seq<Seq<Seq<char>>>, tints: Seq<Tint>, heading: Tint) -> Seq<
    char,
>;

/// The grid of the table: the headings of the columns that are shown, and
/// under them a row for each entry.
pub open spec fn table_rows(entries: Seq<EntryModel>, config: ConfigModel) -> Seq<Seq<Seq<char>>> {
    seq![headings_of(visible_columns(config))] + rows_of(entries, visible_columns(config))
}

/// The drawn table as it is written out: with the end of its last line.
pub open spec fn table_block(drawn: Seq<char>) -> Seq<char> {
    drawn + seq!['\n']
}

/// The table of the entries. Without entries nothing is written at all.
/// With colours the columns are coloured by their place, whichever columns
/// are shown, and the heading row in its own colour.
pub open spec fn table_text(entries: Seq<EntryModel>, config: ConfigModel) -> Seq<char> {
    if entries.len() == 0 {
        Seq::<char>::empty()
    } else if config.colors {
        table_block(
            tinted_table(
                table_rows(entries, config),
                place_tints().take(visible_columns(config).len() as int),
                heading_tint(),
            ),
        )
    } else {
        table_block(rounded_table(table_rows(entries, config)))
    }
}

/// With none of the four optional columns asked for, the grid of the table
/// has the name column alone: the heading of the name, and under it the name
/// of each entry.
pub proof fn law_table_without_flags(entries: Seq<EntryModel>, config: ConfigModel, i: int)
    requires
        !config.show_permissions,
        !config.show_owner,
        !config.show_size,
        !config.show_date_modified,
        0 <= i < entries.len(),
    ensures
        table_rows(entries, config).len() == entries.len() + 1,
        table_rows(entries, config)[0] == seq![heading_text(Column::Name)],
        table_rows(entries, config)[i + 1] == seq![entries[i].name],
{
    law_name_alone_without_flags(config);
    assert(table_rows(entries, config)[0] =~= seq![heading_text(Column::Name)]);
    assert(table_rows(entries, config)[i + 1] =~= seq![entries[i].name]);
}

/// Builds a `tabled::Table` of the rows with `Table::from_iter`, gives it
/// `Style::rounded` and renders it. The text is a function of the cells
/// alone; the contract gives it its name and claims nothing else of it.
#[verifier::external_body]
fn draw_table(rows: &Vec<Vec<String>>) -> (drawn: String)
    ensures
        drawn@ == rounded_table(rows.deep_view()),
{
    let mut table = Table::from_iter(rows);
    table.with(Style::rounded());
    table.to_string()
}

/// Builds a `tabled::Table` of the rows with `Table::from_iter`, gives it
/// `Style::rounded`, colours column after column with `Table::modify` and
/// then the first row, and renders it. The text is a function of the
/// cells and the colours alone; the contract gives it its name and claims
/// nothing else of it.
#[verifier::external_body]
fn draw_tinted_table(rows: &Vec<Vec<String>>, tints: &Vec<Tint>, heading: Tint) -> (drawn: String)
    ensures
        drawn@ == tinted_table(rows.deep_view(), tints@, heading),
{
    let color = |tint: Tint| match tint {
        Tint::Red => Color::FG_RED,
        Tint::Green => Color::FG_GREEN,
        Tint::Yellow => Color::FG_YELLOW,
        Tint::Blue => Color::FG_BLUE,
        Tint::Magenta => Color::FG_MAGENTA,
        Tint::Cyan => Color::FG_CYAN,
    };
    let mut table = Table::from_iter(rows);
    table.with(Style::rounded());
    for (place, tint) in tints.iter().enumerate() {
        table.modify(Columns::one(place), color(*tint));
    }
    table.modify(Rows::first(), color(heading));
    table.to_string()
}

/// The grid of the table: the headings of the columns that are shown, and
/// under them a row for each entry.
pub fn build_table_rows(entries: &Vec<DirectoryEntry>, config: &RunConfig) -> (rows: Vec<
    Vec<String>,
>)
    ensures
        rows.deep_view() == table_rows(entries.deep_view(), config@),
{
    let columns = shown_columns(config);
    let ghost all = entries.deep_view();
    let ghost head = headings_of(columns@);
    let mut rows: Vec<Vec<String>> = Vec::new();
    rows.push(headings(&columns));
    let mut i: usize = 0;
    assert(rows.deep_view() =~= seq![head] + rows_of(all, columns@).take(0));
    while i < entries.len()
        invariant
            i <= entries.len(),
            all == entries.deep_view(),
            head == headings_of(columns@),
            columns@ == visible_columns(config@),
            rows.deep_view() == seq![head] + rows_of(all, columns@).take(i as int),
        decreases entries.len() - i,
    {
        let ghost before = rows.deep_view();
        let row = cells(&entries[i], &columns);
        rows.push(row);
        assert(rows.deep_view() =~= before.push(row.deep_view()));
        assert(rows.deep_view() =~= seq![head] + rows_of(all, columns@).take(i + 1));
        i = i + 1;
    }
    assert(rows_of(all, columns@).take(i as int) =~= rows_of(all, columns@));
    rows
}

/// Ends the drawn table with the end of its last line.
pub fn finish_table(drawn: String) -> (text: String)
    ensures
        text@ == table_block(drawn@),
{
    proof {
        reveal_strlit("\n");
    }
    let mut text = drawn;
    text.append("\n");
    text
}

/// Renders the table of the entries, or nothing where there are none.
pub fn render_table(entries: &Vec<DirectoryEntry>, config: &RunConfig) -> (text: String)
    ensures
        text@ == table_text(entries.deep_view(), config@),
{
    if entries.len() == 0 {
        return String::new();
    }
    let rows = build_table_rows(entries, config);
    if config.colors {
        let columns = shown_columns(config);
        let tints = tints_by_place(columns.len());
        finish_table(draw_tinted_table(&rows, &tints, Tint::Blue))
    } else {
        finish_table(draw_table(&rows))
    }
}

} // verus!
