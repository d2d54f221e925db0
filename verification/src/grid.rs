//! The grid: names in as many columns as the terminal's width takes. The
//! packing is the work of the `term_grid` crate.

use crate::entry::{entries_of, texts_of, Entry, EntryView};
use crate::error::ListError;
use crate::name::{file_name, name_cell};
use crate::paint::{cells_of, cells_painted, paint_all};
use crate::style::{Cell, SpanView};
use term_grid::{Direction, Filling, Grid, GridOptions};
use vstd::prelude::*;

verus! {

/// The spaces between two columns of a grid.
pub const GUTTER: usize = 2;

/// What `term_grid` writes for a grid of `cells`, given as text with escape
/// sequences, with `gutter` spaces between its columns, filled row by row
/// where `across` is set and column by column where it is not, in a
/// terminal of `width` columns.
pub uninterp spec fn grid_text(
    cells: Seq<Seq<char>>,
    gutter: nat,
    across: bool,
    width: nat,
) -> Seq<char>;

/// `Grid::new` with `Filling::Spaces(gutter)`, the direction that `across`
/// stands for and `width`, and the `Display` of the grid. The text depends
/// on these and on the cells alone. With a gutter of some spaces the search
/// for the number of columns divides by a positive width, and with gutter
/// and width bounded as here none of its sums overflows.
#[verifier::external_body]
fn grid_to_string(cells: Vec<String>, gutter: usize, across: bool, width: usize) -> (text: String)
    requires
        0 < gutter <= 0xffff,
        width <= 0xffff,
    ensures
        text@ == grid_text(texts_of(cells@), gutter as nat, across, width as nat),
{
    let direction = match across {
        true => Direction::LeftToRight,
        false => Direction::TopToBottom,
    };
    Grid::new(cells, GridOptions { filling: Filling::Spaces(gutter), direction, width }).to_string()
}

/// The name cells of `entries`, in their order.
pub open spec fn name_cells(entries: Seq<EntryView>, long: bool) -> Seq<Seq<SpanView>> {
    Seq::new(entries.len(), |i: int| name_cell(entries[i], long))
}

/// The decorated names of `entries`, in their order.
pub fn file_names(entries: &Vec<Entry>, long: bool) -> (cells: Vec<Cell>)
    ensures
        cells_of(cells@) == name_cells(entries_of(entries@), long),
{
    let mut cells: Vec<Cell> = Vec::new();
    let mut i: usize = 0;
    while i < entries.len()
        invariant
            i <= entries.len(),
            cells@.len() == i,
            forall|k: int| 0 <= k < i ==> (#[trigger] cells@[k])@ == name_cell(entries@[k]@, long),
        decreases entries.len() - i,
    {
        cells.push(file_name(&entries[i], long));
        i += 1;
    }
    assert(cells_of(cells@) =~= name_cells(entries_of(entries@), long));
    cells
}

/// The grid of `cells` as terminal text, for a terminal of `width`
/// columns: each cell is painted, and `term_grid` packs the columns.
pub fn render_grid(cells: &Vec<Cell>, across: bool, width: u16) -> (text: String)
    ensures
        exists|texts: Seq<Seq<char>>| #[trigger]
            cells_painted(cells_of(cells@), texts) && text@ == grid_text(
                texts,
                GUTTER as nat,
                across,
                width as nat,
            ),
{
    let texts = paint_all(cells);
    grid_to_string(texts, GUTTER, across, width as usize)
}

/// The names of `entries` as a grid, for a terminal whose width is `width`;
/// an error where the width is not known.
pub fn format_output_short(entries: &Vec<Entry>, across: bool, width: Option<u16>) -> (result:
    Result<String, ListError>)
    ensures
        match result {
            Ok(text) => width is Some && exists|texts: Seq<Seq<char>>| #[trigger]
                cells_painted(name_cells(entries_of(entries@), false), texts) && text@
                    == grid_text(texts, GUTTER as nat, across, width->0 as nat),
            Err(error) => width is None && error == ListError::TerminalWidth,
        },
{
    match width {
        Some(width) => {
            let cells = file_names(entries, false);
            Ok(render_grid(&cells, across, width))
        },
        None => Err(ListError::TerminalWidth),
    }
}

} // verus!
