//! The size column: the length of a regular file, in bytes or in the largest
//! binary unit that it reaches, with one decimal place.

use crate::entry::{FileKind, Metadata};
use crate::style::{span, Cell, SpanView, Tint};
use crate::text::{decimal, digit_char, digit_str, push_decimal};
use vstd::arithmetic::div_mod::{
    lemma_div_is_ordered, lemma_div_is_ordered_by_denominator, lemma_fundamental_div_mod,
};
use vstd::prelude::*;

verus! {

/// The unit in which a size is shown.
#[derive(Clone, Copy, Debug, PartialEq, Eq, Structural)]
pub enum SizeUnit {
    Byte,
    Kibi,
    Mebi,
    Gibi,
}

impl SizeUnit {
    /// The units in the order of their size.
    pub open spec fn rank(self) -> nat {
        match self {
            SizeUnit::Byte => 0,
            SizeUnit::Kibi => 1,
            SizeUnit::Mebi => 2,
            SizeUnit::Gibi => 3,
        }
    }

    /// The bytes in one unit.
    pub open spec fn bytes(self) -> nat {
        match self {
            SizeUnit::Byte => 1,
            SizeUnit::Kibi => 1024,
            SizeUnit::Mebi => 1024 * 1024,
            SizeUnit::Gibi => 1024 * 1024 * 1024,
        }
    }

    /// The letter that follows a number of this unit.
    pub open spec fn suffix(self) -> Seq<char> {
        match self {
            SizeUnit::Byte => Seq::empty(),
            SizeUnit::Kibi => seq!['k'],
            SizeUnit::Mebi => seq!['M'],
            SizeUnit::Gibi => seq!['G'],
        }
    }
}

/// The largest unit that `len` reaches.
pub open spec fn size_unit(len: nat) -> SizeUnit {
    if len < 1024 {
        SizeUnit::Byte
    } else if len < 1024 * 1024 {
        SizeUnit::Kibi
    } else if len < 1024 * 1024 * 1024 {
        SizeUnit::Mebi
    } else {
        SizeUnit::Gibi
    }
}

/// `n / d` rounded to the nearest integer, a tie to the even one.
pub open spec fn nearest_even(n: nat, d: nat) -> nat {
    let q = n / d;
    let r = n % d;
    if 2 * r > d || (2 * r == d && q % 2 == 1) {
        q + 1
    } else {
        q
    }
}

/// The distance between neighbouring numbers of 53 significant bits around
/// `len`: 1 below 2^53, and twice as much with each further bit.
pub open spec fn spacing(len: nat) -> nat
    decreases len,
{
    if len < 0x20_0000_0000_0000 {
        1
    } else {
        2 * spacing(len / 2)
    }
}

/// `len` rounded to 53 significant bits, a tie to the even neighbour: the
/// length as the double-precision number in which the division by the unit
/// is carried out.
pub open spec fn rounded_len(len: nat) -> nat {
    nearest_even(len, spacing(len)) * spacing(len)
}

/// The tenths of `unit` in `len`, rounded to the nearest, a tie to the even
/// one.
pub open spec fn tenths(len: nat, unit: SizeUnit) -> nat {
    nearest_even(rounded_len(len) * 10, unit.bytes())
}

/// The number of tenths `t` with one decimal place.
pub open spec fn one_decimal(t: nat) -> Seq<char> {
    decimal(t / 10) + seq!['.', digit_char(t % 10)]
}

/// The size `len` as text: the bytes themselves where `bytes` is set or the
/// size is below 1024, else the number of the largest unit reached, with one
/// decimal place, and the unit's letter.
pub open spec fn size_text(len: nat, bytes: bool) -> Seq<char> {
    let unit = size_unit(len);
    if bytes || unit == SizeUnit::Byte {
        decimal(len)
    } else {
        one_decimal(tenths(len, unit)) + unit.suffix()
    }
}

/// The size column of an entry: a dash for anything but a regular file.
pub open spec fn size_cell(kind: FileKind, len: u64, bytes: bool) -> Seq<SpanView> {
    if kind == FileKind::Regular {
        seq![span(size_text(len as nat, bytes), Some(Tint::Green))]
    } else {
        seq![span(seq!['-'], Some(Tint::White))]
    }
}

/// The distance between neighbouring numbers of 53 significant bits around
/// `len`.
fn spacing_of(len: u64) -> (step: u64)
    ensures
        step == spacing(len as nat),
        1 <= step <= 4096,
{
    let mut step: u64 = 1;
    let mut top: u64 = len;
    while top >= 0x20_0000_0000_0000
        invariant
            1 <= step <= 4096,
            top * step <= u64::MAX,
            spacing(len as nat) == step * spacing(top as nat),
        decreases top,
    {
        assert((top / 2) * (step * 2) <= top * step) by (nonlinear_arith)
            requires
                step >= 1,
        ;
        assert(step <= 2048) by (nonlinear_arith)
            requires
                top * step <= u64::MAX,
                top >= 0x20_0000_0000_0000,
                step >= 1,
        ;
        assert(step * (2 * spacing((top / 2) as nat)) == (step * 2) * spacing((top / 2) as nat))
            by (nonlinear_arith);
        top = top / 2;
        step = step * 2;
    }
    assert(step * 1 == step);
    step
}

/// `n / d` rounded to the nearest integer, a tie to the even one.
fn nearest_even_of(n: u128, d: u128) -> (q: u128)
    requires
        0 < d,
        n <= 0xffff_ffff_ffff_ffff_ffff,
    ensures
        q == nearest_even(n as nat, d as nat),
        q <= n / d + 1,
        q * d <= n + d,
{
    let q = n / d;
    let r = n % d;
    proof {
        lemma_fundamental_div_mod(n as int, d as int);
        assert(q * d <= n && (q + 1) * d <= n + d) by (nonlinear_arith)
            requires
                n == d * q + r,
                r >= 0,
        ;
        assert(q <= n) by (nonlinear_arith)
            requires
                q * d <= n,
                d >= 1,
                q >= 0,
        ;
    }
    if 2 * r > d || (2 * r == d && q % 2 == 1) {
        q + 1
    } else {
        q
    }
}

/// The tenths of `unit` in `len`.
fn tenths_of(len: u64, unit: SizeUnit) -> (t: u64)
    requires
        unit != SizeUnit::Byte,
    ensures
        t == tenths(len as nat, unit),
{
    let step = spacing_of(len);
    let rounded = nearest_even_of(len as u128, step as u128);
    let scaled: u128 = rounded * (step as u128) * 10;
    let unit_bytes: u128 = match unit {
        SizeUnit::Kibi => 1024,
        SizeUnit::Mebi => 1024 * 1024,
        _ => 1024 * 1024 * 1024,
    };
    let t = nearest_even_of(scaled, unit_bytes);
    assert(t <= 0xffff_ffff_ffff_ffff) by {
        lemma_div_is_ordered_by_denominator(scaled as int, 1024, unit_bytes as int);
        lemma_div_is_ordered(scaled as int, (0xffff_ffff_ffff_ffff + 4096) * 10int, 1024);
    }
    t as u64
}

/// The size column of an entry with the metadata `md`: in bytes where
/// `bytes` is set, else in the largest unit reached.
pub fn file_size(md: &Metadata, bytes: bool) -> (cell: Cell)
    ensures
        cell@ == size_cell(md.kind, md.len, bytes),
        bytes && md.kind == FileKind::Regular ==> cell@ == seq![
            span(decimal(md.len as nat), Some(Tint::Green)),
        ],
{
    if md.kind != FileKind::Regular {
        proof {
            reveal_strlit("-");
        }
        let cell = Cell::of("-", Some(Tint::White));
        assert(cell@[0].text =~= seq!['-']);
        assert(cell@ =~= size_cell(md.kind, md.len, bytes));
        return cell;
    }
    let len = md.len;
    let mut text = String::new();
    if bytes || len < 1024 {
        push_decimal(&mut text, len);
        assert(text@ =~= size_text(len as nat, bytes));
    } else {
        let unit = if len < 1024 * 1024 {
            SizeUnit::Kibi
        } else if len < 1024 * 1024 * 1024 {
            SizeUnit::Mebi
        } else {
            SizeUnit::Gibi
        };
        let t = tenths_of(len, unit);
        push_decimal(&mut text, t / 10);
        proof {
            reveal_strlit(".");
            reveal_strlit("k");
            reveal_strlit("M");
            reveal_strlit("G");
        }
        text.append(".");
        text.append(digit_str((t % 10) as u8));
        text.append(
            match unit {
                SizeUnit::Kibi => "k",
                SizeUnit::Mebi => "M",
                _ => "G",
            },
        );
        assert(text@ =~= size_text(len as nat, bytes));
    }
    Cell::of(text.as_str(), Some(Tint::Green))
}

/// Below 1024 gibibytes the number that is shown lies in the range of its
/// unit: under 1024 for bytes, from 1 up to but not including 1024 for the
/// larger units.
pub proof fn lemma_size_unit_range(len: nat)
    requires
        len < 1024 * 1024 * 1024 * 1024,
    ensures
        size_unit(len) == SizeUnit::Byte ==> len < 1024,
        size_unit(len) != SizeUnit::Byte ==> size_unit(len).bytes() <= len < 1024 * size_unit(
            len,
        ).bytes(),
{
}

/// A larger size is never shown in a smaller unit.
pub proof fn lemma_size_unit_monotonic(smaller: nat, larger: nat)
    requires
        smaller <= larger,
    ensures
        size_unit(smaller).rank() <= size_unit(larger).rank(),
{
}

/// With `bytes` set the text of a size is the decimal number of its bytes,
/// whatever its magnitude.
pub proof fn lemma_bytes_exact(len: nat)
    ensures
        size_text(len, true) == decimal(len),
{
}

} // verus!
