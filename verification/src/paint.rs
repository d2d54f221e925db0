//! Turning styled cells into terminal text. The escape sequences are
//! written by the `colored` crate, which also decides, from the variables
//! of the process and its own override, whether a span is coloured at all.

use crate::entry::texts_of;
use crate::style::{plain_text, span, Cell, SpanView, Tint};
use colored::{Color, Colorize};
use vstd::prelude::*;

verus! {

/// The escape sequence that puts the terminal back to its own colour.
pub open spec fn colour_off() -> Seq<char> {
    seq!['\u{1b}', '[', '0', 'm']
}

/// The number of a foreground colour in an escape sequence.
pub open spec fn colour_code(tint: Tint) -> Seq<char> {
    match tint {
        Tint::Red => seq!['3', '1'],
        Tint::Green => seq!['3', '2'],
        Tint::Yellow => seq!['3', '3'],
        Tint::Blue => seq!['3', '4'],
        Tint::Magenta => seq!['3', '5'],
        Tint::Cyan => seq!['3', '6'],
        Tint::White => seq!['3', '7'],
        Tint::BrightYellow => seq!['9', '3'],
        Tint::BrightMagenta => seq!['9', '5'],
    }
}

/// The escape sequence that switches the foreground colour `tint` on.
pub open spec fn colour_on(tint: Tint) -> Seq<char> {
    seq!['\u{1b}', '['] + colour_code(tint) + seq!['m']
}

/// `text` with the sequence `on` put behind each place where the text
/// itself switches the colour off, so that what follows is coloured again.
pub open spec fn recoloured(text: Seq<char>, on: Seq<char>) -> Seq<char>
    decreases text.len(),
{
    if text.len() == 0 {
        Seq::empty()
    } else if text.len() >= 4 && text.take(4) == colour_off() {
        colour_off() + on + recoloured(text.skip(4), on)
    } else {
        seq![text[0]] + recoloured(text.skip(1), on)
    }
}

/// `text` in the foreground colour `tint`, as `colored` writes it when
/// colouring is switched on: the colour is switched on, the text follows,
/// and the colour is switched off.
pub open spec fn ansi_text(text: Seq<char>, tint: Tint) -> Seq<char> {
    colour_on(tint) + recoloured(text, colour_on(tint)) + colour_off()
}

/// The text of one span: escaped where `lit` holds and the span has a
/// colour, bare otherwise.
pub open spec fn piece(span: SpanView, lit: bool) -> Seq<char> {
    match span.tint {
        Some(tint) => if lit { ansi_text(span.text, tint) } else { span.text },
        None => span.text,
    }
}

/// The text of a cell where `lit[i]` says whether span `i` came out
/// coloured.
pub open spec fn painting(cell: Seq<SpanView>, lit: Seq<bool>) -> Seq<char>
    decreases cell.len(),
{
    if cell.len() == 0 {
        Seq::empty()
    } else {
        painting(cell.drop_last(), lit.drop_last()) + piece(cell.last(), lit.last())
    }
}

/// `out` is the cell as a terminal shows it, for some choice of which spans
/// came out coloured.
pub open spec fn paints(cell: Seq<SpanView>, out: Seq<char>) -> bool {
    exists|lit: Seq<bool>| lit.len() == cell.len() && out == #[trigger] painting(cell, lit)
}

/// The views of a sequence of cells.
pub open spec fn cells_of(cells: Seq<Cell>) -> Seq<Seq<SpanView>> {
    Seq::new(cells.len(), |j: int| cells[j]@)
}

/// `texts` holds, cell for cell, the terminal text of `cells`.
pub open spec fn cells_painted(cells: Seq<Seq<SpanView>>, texts: Seq<Seq<char>>) -> bool {
    &&& texts.len() == cells.len()
    &&& forall|j: int| 0 <= j < cells.len() ==> paints(#[trigger] cells[j], texts[j])
}

/// The text of a cell whose spans all came out bare is its plain text.
pub proof fn lemma_unlit_painting(cell: Seq<SpanView>, lit: Seq<bool>)
    requires
        lit.len() == cell.len(),
        forall|i: int| 0 <= i < lit.len() ==> !lit[i],
    ensures
        painting(cell, lit) == plain_text(cell),
    decreases cell.len(),
{
    if cell.len() > 0 {
        lemma_unlit_painting(cell.drop_last(), lit.drop_last());
    }
}

/// Painting goes span by span: the text of two cells in a row is the text
/// of the first followed by the text of the second.
pub proof fn lemma_painting_concat(
    first: Seq<SpanView>,
    first_lit: Seq<bool>,
    second: Seq<SpanView>,
    second_lit: Seq<bool>,
)
    requires
        first_lit.len() == first.len(),
        second_lit.len() == second.len(),
    ensures
        painting(first + second, first_lit + second_lit) == painting(first, first_lit) + painting(
            second,
            second_lit,
        ),
    decreases second.len(),
{
    if second.len() == 0 {
        assert(first + second =~= first);
        assert(first_lit + second_lit =~= first_lit);
        assert(painting(second, second_lit) =~= Seq::<char>::empty());
        assert(painting(first, first_lit) + Seq::<char>::empty() =~= painting(first, first_lit));
    } else {
        lemma_painting_concat(first, first_lit, second.drop_last(), second_lit.drop_last());
        assert((first + second).drop_last() =~= first + second.drop_last());
        assert((first_lit + second_lit).drop_last() =~= first_lit + second_lit.drop_last());
        assert((first + second).last() == second.last());
        assert((first_lit + second_lit).last() == second_lit.last());
        assert(painting(first + second, first_lit + second_lit) =~= painting(first, first_lit)
            + painting(second, second_lit));
    }
}

/// Two painted cells in a row are a painting of the two cells in a row.
pub proof fn lemma_paints_concat(
    first: Seq<SpanView>,
    first_text: Seq<char>,
    second: Seq<SpanView>,
    second_text: Seq<char>,
)
    requires
        paints(first, first_text),
        paints(second, second_text),
    ensures
        paints(first + second, first_text + second_text),
{
    let first_lit = choose|lit: Seq<bool>|
        lit.len() == first.len() && first_text == #[trigger] painting(first, lit);
    let second_lit = choose|lit: Seq<bool>|
        lit.len() == second.len() && second_text == #[trigger] painting(second, lit);
    lemma_painting_concat(first, first_lit, second, second_lit);
    assert((first_lit + second_lit).len() == (first + second).len());
    assert(first_text + second_text == painting(first + second, first_lit + second_lit));
}

/// A span without a colour is painted as its text.
pub proof fn lemma_paints_bare(text: Seq<char>)
    ensures
        paints(seq![span(text, None)], text),
{
    let cell = seq![span(text, None)];
    let lit = seq![false];
    assert(cell.drop_last() =~= Seq::<SpanView>::empty());
    assert(painting(cell.drop_last(), lit.drop_last()) =~= Seq::<char>::empty());
    assert(painting(cell, lit) =~= text);
}

/// Calls `colored`'s `Colorize::color` on `text` and formats the result.
/// `colored` consults its colouring switch on each call. With the switch
/// off it writes the text unchanged. With the switch on it writes the
/// escape sequence of the colour (`ESC [`, the colour's number, `m`), the
/// text, in which it repeats that sequence behind each `ESC [ 0 m` that the
/// text holds, and `ESC [ 0 m`.
#[verifier::external_body]
fn paint_text(text: &str, tint: Tint) -> (out: String)
    ensures
        out@ == text@ || out@ == ansi_text(text@, tint),
{
    let color = match tint {
        Tint::Red => Color::Red,
        Tint::Green => Color::Green,
        Tint::Yellow => Color::Yellow,
        Tint::Blue => Color::Blue,
        Tint::Magenta => Color::Magenta,
        Tint::Cyan => Color::Cyan,
        Tint::White => Color::White,
        Tint::BrightYellow => Color::BrightYellow,
        Tint::BrightMagenta => Color::BrightMagenta,
    };
    format!("{}", text.color(color))
}

impl Cell {
    /// The cell as terminal text: each coloured span is handed to `colored`,
    /// each other span is copied.
    pub fn paint(&self) -> (out: String)
        ensures
            paints(self@, out@),
    {
        let mut out = String::new();
        let ghost mut lit: Seq<bool> = Seq::empty();
        let mut i: usize = 0;
        while i < self.spans.len()
            invariant
                i <= self.spans.len(),
                lit.len() == i,
                out@ == painting(self@.take(i as int), lit),
            decreases self.spans.len() - i,
        {
            let part = &self.spans[i];
            let ghost lit_before = lit;
            match part.tint {
                Some(tint) => {
                    let shown = paint_text(part.text.as_str(), tint);
                    out.append(shown.as_str());
                    proof {
                        lit = lit.push(shown@ != part.text@);
                    }
                },
                None => {
                    out.append(part.text.as_str());
                    proof {
                        lit = lit.push(false);
                    }
                },
            }
            proof {
                assert(self@.take(i + 1).drop_last() =~= self@.take(i as int));
                assert(lit.drop_last() =~= lit_before);
            }
            i += 1;
        }
        assert(self@.take(i as int) =~= self@);
        out
    }
}

/// The terminal text of each cell of `cells`.
pub fn paint_all(cells: &Vec<Cell>) -> (texts: Vec<String>)
    ensures
        cells_painted(cells_of(cells@), texts_of(texts@)),
{
    let mut texts: Vec<String> = Vec::new();
    let mut j: usize = 0;
    while j < cells.len()
        invariant
            j <= cells.len(),
            texts@.len() == j,
            forall|m: int| 0 <= m < j ==> paints((#[trigger] cells@[m])@, texts@[m]@),
        decreases cells.len() - j,
    {
        texts.push(cells[j].paint());
        j += 1;
    }
    texts
}

} // verus!
