//! The permission column: the type glyph, the nine permission letters and the
//! mark of extended attributes.

use crate::entry::{FileKind, Metadata};
use crate::style::{plain_text, span, Cell, SpanView, Tint};
use vstd::prelude::*;

verus! {

/// The one-character classifier of a file type.
pub open spec fn kind_glyph(kind: FileKind) -> char {
    match kind {
        FileKind::Symlink => 'l',
        FileKind::Directory => 'd',
        FileKind::Regular => '-',
        FileKind::BlockDevice => 'b',
        FileKind::CharDevice => 'c',
        FileKind::Fifo => 'p',
        FileKind::Socket => 's',
        FileKind::Unknown => '?',
    }
}

/// The colour of a file type's glyph.
pub open spec fn kind_tint(kind: FileKind) -> Tint {
    match kind {
        FileKind::Symlink => Tint::Cyan,
        FileKind::Directory => Tint::Blue,
        FileKind::Regular => Tint::White,
        FileKind::BlockDevice => Tint::Yellow,
        FileKind::CharDevice => Tint::Magenta,
        FileKind::Fifo => Tint::Blue,
        FileKind::Socket => Tint::Green,
        FileKind::Unknown => Tint::Red,
    }
}

/// The glyph of a file type, in its colour.
pub open spec fn kind_span(kind: FileKind) -> SpanView {
    span(seq![kind_glyph(kind)], Some(kind_tint(kind)))
}

/// The mode bit that stands at `position` of the permission string:
/// position 0 is the owner's read bit, position 8 the others' execute bit.
pub open spec fn permission_mask(position: int) -> u32 {
    if position == 0 {
        0b100000000
    } else if position == 1 {
        0b010000000
    } else if position == 2 {
        0b001000000
    } else if position == 3 {
        0b000100000
    } else if position == 4 {
        0b000010000
    } else if position == 5 {
        0b000001000
    } else if position == 6 {
        0b000000100
    } else if position == 7 {
        0b000000010
    } else {
        0b000000001
    }
}

/// The letter of a granted permission: `r`, `w`, `x` in each triplet.
pub open spec fn permission_letter(position: int) -> char {
    if position % 3 == 0 {
        'r'
    } else if position % 3 == 1 {
        'w'
    } else {
        'x'
    }
}

/// The colour of a granted permission: read yellow, write red, execute
/// green, the same in each triplet.
pub open spec fn permission_tint(position: int) -> Tint {
    if position % 3 == 0 {
        Tint::Yellow
    } else if position % 3 == 1 {
        Tint::Red
    } else {
        Tint::Green
    }
}

/// The bit at `position` is set in `mode`.
pub open spec fn permission_granted(mode: u32, position: int) -> bool {
    mode & permission_mask(position) != 0
}

/// The span at `position` of the permission string of `mode`.
pub open spec fn permission_span(mode: u32, position: int) -> SpanView {
    if permission_granted(mode, position) {
        span(seq![permission_letter(position)], Some(permission_tint(position)))
    } else {
        span(seq!['-'], Some(Tint::White))
    }
}

/// The nine permission spans of `mode`.
pub open spec fn permission_spans(mode: u32) -> Seq<SpanView> {
    Seq::new(9, |position: int| permission_span(mode, position))
}

/// The mark that follows the permissions of an entry with extended
/// attributes.
pub open spec fn xattr_mark(has_xattr: bool) -> Seq<SpanView> {
    if has_xattr {
        seq![span(seq!['@'], None)]
    } else {
        Seq::empty()
    }
}

/// The permission column: glyph, nine permissions, mark.
pub open spec fn mode_cell(kind: FileKind, mode: u32, has_xattr: bool) -> Seq<SpanView> {
    seq![kind_span(kind)] + permission_spans(mode) + xattr_mark(has_xattr)
}

/// The mode bit for which the character at `position` of a permission string
/// stands: a character other than `-` is a set bit.
pub open spec fn permission_bit(text: Seq<char>, position: int) -> int {
    if text[position] == '-' {
        0
    } else {
        permission_mask(position) as int
    }
}

/// The mode bits that a permission string of nine characters stands for.
pub open spec fn permission_bits(text: Seq<char>) -> int {
    permission_bit(text, 0) + permission_bit(text, 1) + permission_bit(text, 2) + permission_bit(
        text,
        3,
    ) + permission_bit(text, 4) + permission_bit(text, 5) + permission_bit(text, 6)
        + permission_bit(text, 7) + permission_bit(text, 8)
}

/// The text of the nine permission spans of `mode`.
pub open spec fn permission_text(mode: u32) -> Seq<char> {
    plain_text(permission_spans(mode))
}

/// The glyph of `kind` as a one-span cell.
pub fn file_type(kind: FileKind) -> (cell: Cell)
    ensures
        cell@ == seq![kind_span(kind)],
{
    proof {
        reveal_strlit("l");
        reveal_strlit("d");
        reveal_strlit("-");
        reveal_strlit("b");
        reveal_strlit("c");
        reveal_strlit("p");
        reveal_strlit("s");
        reveal_strlit("?");
    }
    let cell = match kind {
        FileKind::Symlink => Cell::of("l", Some(Tint::Cyan)),
        FileKind::Directory => Cell::of("d", Some(Tint::Blue)),
        FileKind::Regular => Cell::of("-", Some(Tint::White)),
        FileKind::BlockDevice => Cell::of("b", Some(Tint::Yellow)),
        FileKind::CharDevice => Cell::of("c", Some(Tint::Magenta)),
        FileKind::Fifo => Cell::of("p", Some(Tint::Blue)),
        FileKind::Socket => Cell::of("s", Some(Tint::Green)),
        FileKind::Unknown => Cell::of("?", Some(Tint::Red)),
    };
    assert(cell@[0].text =~= seq![kind_glyph(kind)]);
    assert(cell@ =~= seq![kind_span(kind)]);
    cell
}

/// Appends the span at `position` of the permission string of `mode`.
fn push_permission(cell: &mut Cell, mode: u32, position: u8)
    requires
        position < 9,
    ensures
        final(cell)@ == old(cell)@.push(permission_span(mode, position as int)),
{
    let mask: u32 = match position {
        0 => 0b100000000,
        1 => 0b010000000,
        2 => 0b001000000,
        3 => 0b000100000,
        4 => 0b000010000,
        5 => 0b000001000,
        6 => 0b000000100,
        7 => 0b000000010,
        _ => 0b000000001,
    };
    assert(mask == permission_mask(position as int));
    proof {
        reveal_strlit("r");
        reveal_strlit("w");
        reveal_strlit("x");
        reveal_strlit("-");
    }
    if mode & mask != 0 {
        if position % 3 == 0 {
            cell.push("r", Some(Tint::Yellow));
        } else if position % 3 == 1 {
            cell.push("w", Some(Tint::Red));
        } else {
            cell.push("x", Some(Tint::Green));
        }
        assert(cell@.last().text =~= seq![permission_letter(position as int)]);
    } else {
        cell.push("-", Some(Tint::White));
        assert(cell@.last().text =~= seq!['-']);
    }
    assert(cell@ =~= old(cell)@.push(permission_span(mode, position as int)));
}

/// The permission column of an entry of kind `kind` and mode `mode`;
/// `has_xattr` says whether the entry has an extended attribute.
pub fn format_mode(md: &Metadata, has_xattr: bool) -> (cell: Cell)
    ensures
        cell@ == mode_cell(md.kind, md.mode, has_xattr),
{
    let kind = md.kind;
    let mode = md.mode;
    let mut cell = file_type(kind);
    let mut position: u8 = 0;
    while position < 9
        invariant
            position <= 9,
            cell@ == seq![kind_span(kind)] + permission_spans(mode).take(position as int),
        decreases 9 - position,
    {
        push_permission(&mut cell, mode, position);
        assert(cell@ =~= seq![kind_span(kind)] + permission_spans(mode).take(position + 1));
        position += 1;
    }
    assert(permission_spans(mode).take(9) =~= permission_spans(mode));
    if has_xattr {
        proof {
            reveal_strlit("@");
        }
        cell.push("@", None);
        assert(cell@.last().text =~= seq!['@']);
    }
    assert(cell@ =~= mode_cell(kind, mode, has_xattr));
    cell
}

/// The text of a cell whose spans hold one character each is those
/// characters in a row.
pub proof fn lemma_plain_text_of_singles(cell: Seq<SpanView>)
    requires
        forall|i: int| 0 <= i < cell.len() ==> (#[trigger] cell[i]).text.len() == 1,
    ensures
        plain_text(cell).len() == cell.len(),
        forall|i: int| 0 <= i < cell.len() ==> plain_text(cell)[i] == (#[trigger] cell[i]).text[0],
    decreases cell.len(),
{
    if cell.len() > 0 {
        let init = cell.drop_last();
        assert forall|i: int| 0 <= i < init.len() implies (#[trigger] init[i]).text.len() == 1 by {
            assert(init[i] == cell[i]);
        }
        lemma_plain_text_of_singles(init);
        assert forall|i: int| 0 <= i < cell.len() implies plain_text(cell)[i] == (
        #[trigger] cell[i]).text[0] by {
            if i < init.len() {
                assert(init[i] == cell[i]);
            }
        }
    }
}

/// The permission string has nine characters; the one at each position is
/// the permission's letter where the bit of that position is set in `mode`,
/// and `-` where it is not.
pub proof fn lemma_permission_text(mode: u32)
    ensures
        permission_text(mode).len() == 9,
        forall|position: int|
            0 <= position < 9 ==> #[trigger] permission_text(mode)[position] == if permission_granted(
                mode,
                position,
            ) {
                permission_letter(position)
            } else {
                '-'
            },
{
    let spans = permission_spans(mode);
    lemma_plain_text_of_singles(spans);
    assert forall|position: int| 0 <= position < 9 implies #[trigger] permission_text(
        mode,
    )[position] == if permission_granted(mode, position) {
        permission_letter(position)
    } else {
        '-'
    } by {
        assert(spans[position] == permission_span(mode, position));
        assert(permission_text(mode)[position] == spans[position].text[0]);
    }
}

/// The permission string holds the nine permission bits of `mode`, bit for
/// bit: read back, it gives `mode`.
pub proof fn lemma_permissions_round_trip(mode: u32)
    requires
        mode < 512,
    ensures
        permission_bits(permission_text(mode)) == mode,
{
    lemma_permission_text(mode);
    let text = permission_text(mode);
    assert(text[0] == if permission_granted(mode, 0) { 'r' } else { '-' });
    assert(text[1] == if permission_granted(mode, 1) { 'w' } else { '-' });
    assert(text[2] == if permission_granted(mode, 2) { 'x' } else { '-' });
    assert(text[3] == if permission_granted(mode, 3) { 'r' } else { '-' });
    assert(text[4] == if permission_granted(mode, 4) { 'w' } else { '-' });
    assert(text[5] == if permission_granted(mode, 5) { 'x' } else { '-' });
    assert(text[6] == if permission_granted(mode, 6) { 'r' } else { '-' });
    assert(text[7] == if permission_granted(mode, 7) { 'w' } else { '-' });
    assert(text[8] == if permission_granted(mode, 8) { 'x' } else { '-' });
    assert(mode < 512 ==> (mode & 0b100000000) + (mode & 0b010000000) + (mode & 0b001000000) + (mode
        & 0b000100000) + (mode & 0b000010000) + (mode & 0b000001000) + (mode & 0b000000100) + (mode
        & 0b000000010) + (mode & 0b000000001) == mode) by (bit_vector);
    assert((mode & 0b100000000) == 0 || (mode & 0b100000000) == 0b100000000) by (bit_vector);
    assert((mode & 0b010000000) == 0 || (mode & 0b010000000) == 0b010000000) by (bit_vector);
    assert((mode & 0b001000000) == 0 || (mode & 0b001000000) == 0b001000000) by (bit_vector);
    assert((mode & 0b000100000) == 0 || (mode & 0b000100000) == 0b000100000) by (bit_vector);
    assert((mode & 0b000010000) == 0 || (mode & 0b000010000) == 0b000010000) by (bit_vector);
    assert((mode & 0b000001000) == 0 || (mode & 0b000001000) == 0b000001000) by (bit_vector);
    assert((mode & 0b000000100) == 0 || (mode & 0b000000100) == 0b000000100) by (bit_vector);
    assert((mode & 0b000000010) == 0 || (mode & 0b000000010) == 0b000000010) by (bit_vector);
    assert((mode & 0b000000001) == 0 || (mode & 0b000000001) == 0b000000001) by (bit_vector);
}

} // verus!
