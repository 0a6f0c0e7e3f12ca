//! The colours of a coloured listing.

use vstd::prelude::*;
use crate::columns::Column;

verus! {

/// A colour of the listing.
#[derive(Clone, Copy, Debug, PartialEq, Eq, Structural)]
pub enum Tint {
    Red,
    Green,
    Yellow,
    Blue,
    Magenta,
    Cyan,
}

/// The colour in which the plain listing shows a column.
pub open spec fn column_tint(column: Column) -> Tint {
    match column {
        Column::Permissions => Tint::Red,
        Column::Owner => Tint::Green,
        Column::Size => Tint::Yellow,
        Column::DateModified => Tint::Magenta,
        Column::Name => Tint::Cyan,
    }
}

/// The colours of the table's columns by their place, from the left.
pub open spec fn place_tints() -> Seq<Tint> {
    seq![Tint::Red, Tint::Green, Tint::Yellow, Tint::Magenta, Tint::Cyan]
}

/// The colour of the table's heading row.
pub open spec fn heading_tint() -> Tint {
    Tint::Blue
}

/// The colour in which the plain listing shows a column.
pub fn tint_of(column: Column) -> (tint: Tint)
    ensures
        tint == column_tint(column),
{
    match column {
        Column::Permissions => Tint::Red,
        Column::Owner => Tint::Green,
        Column::Size => Tint::Yellow,
        Column::DateModified => Tint::Magenta,
        Column::Name => Tint::Cyan,
    }
}

/// The colours of the first `count` columns of the table.
pub fn tints_by_place(count: usize) -> (tints: Vec<Tint>)
    requires
        count <= 5,
    ensures
        tints@ == place_tints().take(count as int),
{
    let mut tints: Vec<Tint> = Vec::new();
    if count >= 1 {
        tints.push(Tint::Red);
    }
    if count >= 2 {
        tints.push(Tint::Green);
    }
    if count >= 3 {
        tints.push(Tint::Yellow);
    }
    if count >= 4 {
        tints.push(Tint::Magenta);
    }
    if count >= 5 {
        tints.push(Tint::Cyan);
    }
    assert(tints@ =~= place_tints().take(count as int));
    tints
}

} // verus!
