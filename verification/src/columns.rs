//! The columns of a listing and what stands in them.

use vstd::prelude::*;
use vstd::string::*;
use crate::entry::{DirectoryEntry, EntryModel};
use crate::options::{ConfigModel, RunConfig};
use crate::permissions::{get_permissions_string, permissions_text};
use crate::size::{bytes_to_human_size, size_text};

verus! {

/// A column of the plain listing and of the table.
#[derive(Clone, Copy, Debug, PartialEq, Eq, Structural)]
pub enum Column {
    Permissions,
    Owner,
    Size,
    DateModified,
    Name,
}

/// The column alone where it is asked for, and nothing where it is not.
pub open spec fn optional(asked: bool, column: Column) -> Seq<Column> {
    if asked {
        seq![column]
    } else {
        Seq::<Column>::empty()
    }
}

/// The columns that are shown, from left to right: of the four optional
/// ones those that are asked for, and the name.
pub open spec fn visible_columns(config: ConfigModel) -> Seq<Column> {
    optional(config.show_permissions, Column::Permissions) + optional(
        config.show_owner,
        Column::Owner,
    ) + optional(config.show_size, Column::Size) + optional(
        config.show_date_modified,
        Column::DateModified,
    ) + seq![Column::Name]
}

/// What stands in a column for an entry.
pub open spec fn cell_text(entry: EntryModel, column: Column) -> Seq<char> {
    match column {
        Column::Permissions => permissions_text(entry.file_kind, entry.permission_bits),
        Column::Owner => entry.owner_name,
        Column::Size => size_text(entry.size_bytes as nat),
        Column::DateModified => entry.modified_text,
        Column::Name => entry.name,
    }
}

/// The heading of a column.
pub open spec fn heading_text(column: Column) -> Seq<char> {
    match column {
        Column::Permissions => "Permissions"@,
        Column::Owner => "Owner"@,
        Column::Size => "Size"@,
        Column::DateModified => "Date Modified"@,
        Column::Name => "Name"@,
    }
}

/// What stands in the given columns for an entry.
pub open spec fn cells_of(entry: EntryModel, columns: Seq<Column>) -> Seq<Seq<char>> {
    columns.map_values(|column: Column| cell_text(entry, column))
}

/// The headings of the given columns.
pub open spec fn headings_of(columns: Seq<Column>) -> Seq<Seq<char>> {
    columns.map_values(|column: Column| heading_text(column))
}

/// What stands in the given columns for each of the entries.
pub open spec fn rows_of(entries: Seq<EntryModel>, columns: Seq<Column>) -> Seq<Seq<Seq<char>>> {
    entries.map_values(|entry: EntryModel| cells_of(entry, columns))
}

/// With none of the four optional columns asked for, the name is the only
/// column.
pub proof fn law_name_alone_without_flags(config: ConfigModel)
    requires
        !config.show_permissions,
        !config.show_owner,
        !config.show_size,
        !config.show_date_modified,
    ensures
        visible_columns(config) == seq![Column::Name],
{
    assert(visible_columns(config) =~= seq![Column::Name]);
}

/// The name is always the last column, and a column is shown only if it is
/// the name or asked for.
pub proof fn law_columns_follow_flags(config: ConfigModel, column: Column)
    ensures
        visible_columns(config).last() == Column::Name,
        visible_columns(config).contains(column) <==> match column {
            Column::Permissions => config.show_permissions,
            Column::Owner => config.show_owner,
            Column::Size => config.show_size,
            Column::DateModified => config.show_date_modified,
            Column::Name => true,
        },
{
    let a = optional(config.show_permissions, Column::Permissions);
    let b = optional(config.show_owner, Column::Owner);
    let c = optional(config.show_size, Column::Size);
    let d = optional(config.show_date_modified, Column::DateModified);
    let all = visible_columns(config);
    assert(all =~= a + b + c + d + seq![Column::Name]);
    let n = all.len() as int;
    assert(all[n - 1] == Column::Name);
    if config.show_permissions {
        assert(all[0] == Column::Permissions);
    }
    if config.show_owner {
        assert(all[a.len() as int] == Column::Owner);
    }
    if config.show_size {
        assert(all[(a.len() + b.len()) as int] == Column::Size);
    }
    if config.show_date_modified {
        assert(all[(a.len() + b.len() + c.len()) as int] == Column::DateModified);
    }
}

/// The columns that are shown, from left to right.
pub fn shown_columns(config: &RunConfig) -> (columns: Vec<Column>)
    ensures
        columns@ == visible_columns(config@),
        1 <= columns.len() <= 5,
{
    let mut columns: Vec<Column> = Vec::new();
    if config.show_permissions {
        columns.push(Column::Permissions);
    }
    if config.show_owner {
        columns.push(Column::Owner);
    }
    if config.show_size {
        columns.push(Column::Size);
    }
    if config.show_date_modified {
        columns.push(Column::DateModified);
    }
    columns.push(Column::Name);
    assert(columns@ =~= visible_columns(config@));
    columns
}

/// What stands in a column for an entry.
pub fn cell(entry: &DirectoryEntry, column: Column) -> (text: String)
    ensures
        text@ == cell_text(entry@, column),
{
    match column {
        Column::Permissions => get_permissions_string(entry.file_kind, entry.permission_bits),
        Column::Owner => entry.owner_name.clone(),
        Column::Size => bytes_to_human_size(entry.size_bytes),
        Column::DateModified => entry.modified_text.clone(),
        Column::Name => entry.name.clone(),
    }
}

/// The heading of a column.
pub fn heading(column: Column) -> (text: String)
    ensures
        text@ == heading_text(column),
{
    match column {
        Column::Permissions => String::from_str("Permissions"),
        Column::Owner => String::from_str("Owner"),
        Column::Size => String::from_str("Size"),
        Column::DateModified => String::from_str("Date Modified"),
        Column::Name => String::from_str("Name"),
    }
}

/// What stands in the given columns for an entry.
pub fn cells(entry: &DirectoryEntry, columns: &Vec<Column>) -> (row: Vec<String>)
    ensures
        row.deep_view() == cells_of(entry@, columns@),
        row.len() == columns.len(),
{
    let mut row: Vec<String> = Vec::new();
    let mut i: usize = 0;
    while i < columns.len()
        invariant
            i <= columns.len(),
            row.len() == i,
            forall|k: int| 0 <= k < i ==> (#[trigger] row@[k])@ == cell_text(entry@, columns@[k]),
        decreases columns.len() - i,
    {
        row.push(cell(entry, columns[i]));
        i = i + 1;
    }
    assert(row.deep_view() =~= cells_of(entry@, columns@));
    row
}

/// The headings of the given columns.
pub fn headings(columns: &Vec<Column>) -> (row: Vec<String>)
    ensures
        row.deep_view() == headings_of(columns@),
        row.len() == columns.len(),
{
    let mut row: Vec<String> = Vec::new();
    let mut i: usize = 0;
    while i < columns.len()
        invariant
            i <= columns.len(),
            row.len() == i,
            forall|k: int| 0 <= k < i ==> (#[trigger] row@[k])@ == heading_text(columns@[k]),
        decreases columns.len() - i,
    {
        row.push(heading(columns[i]));
        i = i + 1;
    }
    assert(row.deep_view() =~= headings_of(columns@));
    row
}

} // verus!
