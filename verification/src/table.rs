//! The table: one row of eight aligned columns per entry, and one row more
//! for each extended attribute where they are asked for. The alignment is
//! the work of the `tabular` crate.

use crate::args::Args;
use crate::entry::{entries_of, texts_of, Entry, EntryView, Metadata};
use crate::error::ListError;
use crate::mode::{format_mode, mode_cell};
use crate::name::{file_name, group_cell, group_name, name_cell, user_cell, user_name};
use crate::paint::{cells_of, cells_painted, paint_all};
use crate::size::{file_size, size_cell};
use crate::style::{span, Cell, SpanView, Tint};
use crate::text::{decimal, decimal_string};
use crate::time::{modified_date, time_cell, Instant, Timestamp};
use tabular::{Row, Table};
use vstd::prelude::*;

verus! {

/// A table of the `tabular` crate.
#[verifier::external_type_specification]
#[verifier::external_body]
pub struct ExTable(Table);

/// A row of the `tabular` crate.
#[verifier::external_type_specification]
#[verifier::external_body]
pub struct ExRow(Row);

/// The row format that a table was made with.
pub uninterp spec fn table_format(table: Table) -> Seq<char>;

/// The rows of a table, each the texts of its cells, in the order in which
/// they were added.
pub uninterp spec fn table_rows(table: Table) -> Seq<Seq<Seq<char>>>;

/// The texts of the cells of a row, in the order in which they were added.
pub uninterp spec fn row_cells(row: Row) -> Seq<Seq<char>>;

/// What `tabular` writes for a table of the row format `format` that
/// holds `rows`, whose cells were added as text with escape sequences.
pub uninterp spec fn table_text(format: Seq<char>, rows: Seq<Seq<Seq<char>>>) -> Seq<char>;

/// The row format of a listing: eight columns with one space
/// between them; inode, link count and size are aligned to the right.
pub open spec fn row_format() -> Seq<char> {
    "{:>} {:<} {:>} {:<} {:<} {:>} {:<} {:<}"@
}

/// The number of columns of a listing.
pub const COLUMNS: usize = 8;

/// `Table::new`: an empty table of the given row format. The row format
/// of a listing is well formed, so that the call does not
/// fail.
#[verifier::external_body]
fn table_new(row_spec: &str) -> (table: Table)
    requires
        row_spec@ == row_format(),
    ensures
        table_format(table) == row_spec@,
        table_rows(table) == Seq::<Seq<Seq<char>>>::empty(),
{
    Table::new(row_spec)
}

/// `Row::new`: a row without cells.
#[verifier::external_body]
fn row_new() -> (row: Row)
    ensures
        row_cells(row) == Seq::<Seq<char>>::empty(),
{
    Row::new()
}

/// `Row::with_ansi_cell`: the row with one cell more, which holds `text`;
/// its width is that of the text without escape sequences.
#[verifier::external_body]
fn row_with_ansi_cell(row: Row, text: &str) -> (extended: Row)
    ensures
        row_cells(extended) == row_cells(row).push(text@),
{
    row.with_ansi_cell(text)
}

/// `Table::add_row`: the table with `row` after its other rows. The call
/// fails unless the row has as many cells as the table has columns, which
/// for a listing is eight.
#[verifier::external_body]
fn table_add_row(table: &mut Table, row: Row)
    requires
        table_format(*old(table)) == row_format(),
        row_cells(row).len() == COLUMNS,
    ensures
        table_format(*final(table)) == table_format(*old(table)),
        table_rows(*final(table)) == table_rows(*old(table)).push(row_cells(row)),
{
    table.add_row(row);
}

/// The `Display` of a `Table`: the rows, each cell padded to the width of
/// its column.
#[verifier::external_body]
fn table_to_string(table: &Table) -> (text: String)
    ensures
        text@ == table_text(table_format(*table), table_rows(*table)),
{
    table.to_string()
}

/// A cell that shows nothing.
pub open spec fn blank_cell() -> Seq<SpanView> {
    Seq::empty()
}

/// The cell of a column that is switched off: an empty text in white.
pub open spec fn hidden_cell() -> Seq<SpanView> {
    seq![span(Seq::empty(), Some(Tint::White))]
}

/// The row of an entry with the metadata `md`: inode, permissions, link
/// count, owner, group, size, time and name.
pub open spec fn entry_row(entry: EntryView, md: Metadata, args: Args, now: Instant) -> Seq<
    Seq<SpanView>,
> {
    seq![
        if args.inode {
            seq![span(decimal(md.ino as nat), Some(Tint::Cyan))]
        } else {
            hidden_cell()
        },
        if args.no_permissions {
            blank_cell()
        } else {
            mode_cell(md.kind, md.mode, entry.xattrs.len() > 0)
        },
        if args.links {
            seq![span(decimal(md.nlink as nat), None)]
        } else {
            blank_cell()
        },
        user_cell(md.uid, entry.owner),
        if args.group {
            group_cell(md.gid, entry.group)
        } else {
            hidden_cell()
        },
        size_cell(md.kind, md.len, args.bytes),
        time_cell(md.modified@, args.time_style, now),
        name_cell(entry, true),
    ]
}

/// The connector in front of an extended attribute: a tee, or a corner in
/// front of the last one.
pub open spec fn connector(last: bool) -> Seq<char> {
    if last {
        seq!['└', '─', '─', ' ']
    } else {
        seq!['├', '─', '─', ' ']
    }
}

/// The row of an extended attribute: seven blank columns, and connector
/// and name in the last.
pub open spec fn attribute_row(attribute: Seq<char>, last: bool) -> Seq<Seq<SpanView>> {
    seq![
        blank_cell(),
        blank_cell(),
        blank_cell(),
        blank_cell(),
        blank_cell(),
        blank_cell(),
        blank_cell(),
        seq![span(connector(last) + attribute, None)],
    ]
}

/// The rows of the extended attributes of one entry, in the order of the
/// attributes.
pub open spec fn attribute_rows(xattrs: Seq<Seq<char>>) -> Seq<Seq<Seq<SpanView>>> {
    Seq::new(xattrs.len(), |i: int| attribute_row(xattrs[i], i == xattrs.len() - 1))
}

/// The rows of one entry: its own, and those of its extended attributes
/// where `args.extended` is set.
pub open spec fn entry_rows(entry: EntryView, args: Args, now: Instant) -> Seq<Seq<Seq<SpanView>>> {
    seq![entry_row(entry, entry.metadata->0, args, now)] + if args.extended {
        attribute_rows(entry.xattrs)
    } else {
        Seq::empty()
    }
}

/// The rows of a table of `entries`, in their order.
pub open spec fn long_rows(entries: Seq<EntryView>, args: Args, now: Instant) -> Seq<
    Seq<Seq<SpanView>>,
>
    decreases entries.len(),
{
    if entries.len() == 0 {
        Seq::empty()
    } else {
        long_rows(entries.drop_last(), args, now) + entry_rows(entries.last(), args, now)
    }
}

/// `index` is the first entry without metadata.
pub open spec fn first_without_metadata(entries: Seq<EntryView>, index: int) -> bool {
    &&& 0 <= index < entries.len()
    &&& entries[index].metadata is None
    &&& forall|k: int| 0 <= k < index ==> (#[trigger] entries[k]).metadata is Some
}

/// Every entry has its metadata.
pub open spec fn all_have_metadata(entries: Seq<EntryView>) -> bool {
    forall|k: int| 0 <= k < entries.len() ==> (#[trigger] entries[k]).metadata is Some
}

/// The views of the rows of a table.
pub open spec fn rows_of(rows: Seq<Vec<Cell>>) -> Seq<Seq<Seq<SpanView>>> {
    Seq::new(rows.len(), |i: int| cells_of(rows[i]@))
}

/// `texts` holds, row for row and cell for cell, the terminal text of
/// `rows`.
pub open spec fn rows_painted(rows: Seq<Seq<Seq<SpanView>>>, texts: Seq<Seq<Seq<char>>>) -> bool {
    &&& texts.len() == rows.len()
    &&& forall|i: int| 0 <= i < rows.len() ==> cells_painted(#[trigger] rows[i], texts[i])
}

/// Every row has eight cells.
pub open spec fn eight_columns(rows: Seq<Seq<Seq<SpanView>>>) -> bool {
    forall|i: int| 0 <= i < rows.len() ==> (#[trigger] rows[i]).len() == COLUMNS
}

/// The cell of a number without a colour.
fn number_cell(n: u64, tint: Option<Tint>) -> (cell: Cell)
    ensures
        cell@ == seq![span(decimal(n as nat), tint)],
{
    Cell::of(decimal_string(n).as_str(), tint)
}

/// The cell of a column that is switched off.
fn hidden() -> (cell: Cell)
    ensures
        cell@ == hidden_cell(),
{
    let cell = Cell::of("", Some(Tint::White));
    proof {
        reveal_strlit("");
        assert(cell@[0].text =~= Seq::<char>::empty());
        assert(cell@ =~= hidden_cell());
    }
    cell
}

/// The row of `entry`, whose metadata is `md`.
fn entry_row_of(entry: &Entry, md: &Metadata, args: &Args, now: &Timestamp) -> (row: Vec<Cell>)
    requires
        entry.metadata == Some(*md),
    ensures
        cells_of(row@) == entry_row(entry@, *md, *args, now@),
{
    let mut row: Vec<Cell> = Vec::new();
    row.push(
        if args.inode {
            number_cell(md.ino, Some(Tint::Cyan))
        } else {
            hidden()
        },
    );
    row.push(
        if args.no_permissions {
            Cell::new()
        } else {
            format_mode(md, entry.xattrs.len() > 0)
        },
    );
    row.push(
        if args.links {
            number_cell(md.nlink, None)
        } else {
            Cell::new()
        },
    );
    row.push(user_name(md.uid, &entry.owner));
    row.push(
        if args.group {
            group_name(md.gid, &entry.group)
        } else {
            hidden()
        },
    );
    row.push(file_size(md, args.bytes));
    row.push(modified_date(md, args.time_style, now));
    row.push(file_name(entry, true));
    assert(cells_of(row@) =~= entry_row(entry@, *md, *args, now@));
    row
}

/// The row of the extended attribute `attribute`.
fn attribute_row_of(attribute: &str, last: bool) -> (row: Vec<Cell>)
    ensures
        cells_of(row@) == attribute_row(attribute@, last),
{
    let mut row: Vec<Cell> = Vec::new();
    let mut column: usize = 0;
    while column < 7
        invariant
            column <= 7,
            row@.len() == column,
            forall|j: int| 0 <= j < column ==> (#[trigger] row@[j])@ == blank_cell(),
        decreases 7 - column,
    {
        row.push(Cell::new());
        column += 1;
    }
    proof {
        reveal_strlit("└── ");
        reveal_strlit("├── ");
    }
    let mut name = String::from_str(
        if last {
            "└── "
        } else {
            "├── "
        },
    );
    assert(name@ =~= connector(last));
    name.append(attribute);
    row.push(Cell::of(name.as_str(), None));
    assert(cells_of(row@) =~= attribute_row(attribute@, last));
    row
}

/// The rows of a table of `entries`, as styled cells. The first entry
/// without metadata ends the work.
pub fn long_table(entries: &Vec<Entry>, args: &Args, now: &Timestamp) -> (result: Result<
    Vec<Vec<Cell>>,
    ListError,
>)
    ensures
        match result {
            Ok(rows) => all_have_metadata(entries_of(entries@)) && rows_of(rows@) == long_rows(
                entries_of(entries@),
                *args,
                now@,
            ),
            Err(error) => error matches ListError::Metadata(index) && first_without_metadata(
                entries_of(entries@),
                index as int,
            ),
        },
{
    let ghost all = entries_of(entries@);
    let mut rows: Vec<Vec<Cell>> = Vec::new();
    let mut i: usize = 0;
    assert(rows_of(rows@) =~= long_rows(all.take(0), *args, now@));
    while i < entries.len()
        invariant
            i <= entries.len(),
            all == entries_of(entries@),
            forall|k: int| 0 <= k < i ==> (#[trigger] all[k]).metadata is Some,
            rows_of(rows@) == long_rows(all.take(i as int), *args, now@),
        decreases entries.len() - i,
    {
        let entry = &entries[i];
        assert(all[i as int] == entry@);
        let ghost before = rows_of(rows@);
        match &entry.metadata {
            None => {
                return Err(ListError::Metadata(i));
            },
            Some(md) => {
                rows.push(entry_row_of(entry, md, args, now));
                assert(rows_of(rows@) =~= before + seq![entry_row(entry@, *md, *args, now@)]);
                if args.extended {
                    let count = entry.xattrs.len();
                    let mut j: usize = 0;
                    while j < count
                        invariant
                            j <= count,
                            count == entry.xattrs.len(),
                            rows_of(rows@) == before + seq![entry_row(entry@, *md, *args, now@)]
                                + attribute_rows(entry@.xattrs).take(j as int),
                        decreases count - j,
                    {
                        let ghost so_far = rows_of(rows@);
                        rows.push(attribute_row_of(entry.xattrs[j].as_str(), j + 1 == count));
                        assert(rows_of(rows@) =~= so_far + seq![
                            attribute_rows(entry@.xattrs)[j as int],
                        ]);
                        j += 1;
                        assert(rows_of(rows@) =~= before + seq![
                            entry_row(entry@, *md, *args, now@),
                        ] + attribute_rows(entry@.xattrs).take(j as int));
                    }
                    assert(attribute_rows(entry@.xattrs).take(count as int) =~= attribute_rows(
                        entry@.xattrs,
                    ));
                }
                assert(rows_of(rows@) =~= before + entry_rows(entry@, *args, now@));
            },
        }
        proof {
            assert(all.take(i + 1).drop_last() =~= all.take(i as int));
            assert(all.take(i + 1).last() == entry@);
        }
        i += 1;
    }
    assert(all.take(i as int) =~= all);
    Ok(rows)
}

/// The table of `rows` as terminal text: each cell is painted, and
/// `tabular` aligns the columns.
pub fn render_table(rows: &Vec<Vec<Cell>>) -> (text: String)
    requires
        eight_columns(rows_of(rows@)),
    ensures
        exists|texts: Seq<Seq<Seq<char>>>| #[trigger]
            rows_painted(rows_of(rows@), texts) && text@ == table_text(row_format(), texts),
{
    let mut table = table_new("{:>} {:<} {:>} {:<} {:<} {:>} {:<} {:<}");
    let mut i: usize = 0;
    while i < rows.len()
        invariant
            i <= rows.len(),
            eight_columns(rows_of(rows@)),
            table_format(table) == row_format(),
            rows_painted(rows_of(rows@).take(i as int), table_rows(table)),
        decreases rows.len() - i,
    {
        let cells = &rows[i];
        assert(rows_of(rows@)[i as int] == cells_of(cells@));
        let ghost before = table_rows(table);
        let texts = paint_all(cells);
        let mut row = row_new();
        let mut j: usize = 0;
        while j < texts.len()
            invariant
                j <= texts.len(),
                row_cells(row) == texts_of(texts@).take(j as int),
            decreases texts.len() - j,
        {
            row = row_with_ansi_cell(row, texts[j].as_str());
            assert(row_cells(row) =~= texts_of(texts@).take(j + 1));
            j += 1;
        }
        assert(texts_of(texts@).take(j as int) =~= texts_of(texts@));
        table_add_row(&mut table, row);
        proof {
            let wide = rows_of(rows@).take(i + 1);
            assert forall|k: int| 0 <= k < wide.len() implies cells_painted(
                #[trigger] wide[k],
                table_rows(table)[k],
            ) by {
                if k < i {
                    assert(wide[k] == rows_of(rows@).take(i as int)[k]);
                    assert(table_rows(table)[k] == before[k]);
                }
            }
        }
        i += 1;
    }
    assert(rows_of(rows@).take(i as int) =~= rows_of(rows@));
    table_to_string(&table)
}

/// The table of `entries` as terminal text, or the error of the first entry
/// without metadata.
pub fn format_output_long(entries: &Vec<Entry>, args: &Args, now: &Timestamp) -> (result: Result<
    String,
    ListError,
>)
    ensures
        match result {
            Ok(text) => all_have_metadata(entries_of(entries@)) && exists|
                texts: Seq<Seq<Seq<char>>>,
            | #[trigger]
                rows_painted(long_rows(entries_of(entries@), *args, now@), texts) && text@
                    == table_text(row_format(), texts),
            Err(error) => error matches ListError::Metadata(index) && first_without_metadata(
                entries_of(entries@),
                index as int,
            ),
        },
{
    match long_table(entries, args, now) {
        Ok(rows) => {
            proof {
                lemma_long_rows_columns(entries_of(entries@), *args, now@);
            }
            Ok(render_table(&rows))
        },
        Err(error) => Err(error),
    }
}

/// Without the rows of extended attributes a table has one row for each
/// entry, in the order of the entries.
pub proof fn lemma_one_row_per_entry(entries: Seq<EntryView>, args: Args, now: Instant)
    requires
        !args.extended,
    ensures
        long_rows(entries, args, now).len() == entries.len(),
        forall|i: int|
            0 <= i < entries.len() ==> #[trigger] long_rows(entries, args, now)[i] == entry_row(
                entries[i],
                entries[i].metadata->0,
                args,
                now,
            ),
    decreases entries.len(),
{
    if entries.len() > 0 {
        lemma_one_row_per_entry(entries.drop_last(), args, now);
        let init = long_rows(entries.drop_last(), args, now);
        assert forall|i: int| 0 <= i < entries.len() implies #[trigger] long_rows(
            entries,
            args,
            now,
        )[i] == entry_row(entries[i], entries[i].metadata->0, args, now) by {
            if i < init.len() {
                assert(long_rows(entries, args, now)[i] == init[i]);
                assert(entries.drop_last()[i] == entries[i]);
            }
        }
    }
}

/// Every row of a table has eight cells.
pub proof fn lemma_long_rows_columns(entries: Seq<EntryView>, args: Args, now: Instant)
    ensures
        eight_columns(long_rows(entries, args, now)),
    decreases entries.len(),
{
    if entries.len() > 0 {
        lemma_long_rows_columns(entries.drop_last(), args, now);
        let init = long_rows(entries.drop_last(), args, now);
        let all = long_rows(entries, args, now);
        assert forall|i: int| 0 <= i < all.len() implies (#[trigger] all[i]).len() == COLUMNS by {
            if i < init.len() {
                assert(all[i] == init[i]);
            }
        }
    }
}

} // verus!
