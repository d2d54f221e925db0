//! Styled text: a cell is a sequence of spans, each a piece of text with an
//! optional foreground colour. Widths and layout look at the text only.

use vstd::prelude::*;

verus! {

/// The foreground colours that a listing uses.
#[derive(Clone, Copy, Debug, PartialEq, Eq, Structural)]
pub enum Tint {
    Red,
    Green,
    Yellow,
    Blue,
    Magenta,
    Cyan,
    White,
    BrightYellow,
    BrightMagenta,
}

/// A piece of text in one colour, or in the terminal's own colour where
/// `tint` is `None`.
#[derive(Clone, Debug, PartialEq, Eq)]
pub struct Span {
    pub text: String,
    pub tint: Option<Tint>,
}

/// The mathematical value of a [`Span`].
pub ghost struct SpanView {
    pub text: Seq<char>,
    pub tint: Option<Tint>,
}

impl View for Span {
    type V = SpanView;

    open spec fn view(&self) -> SpanView {
        SpanView { text: self.text@, tint: self.tint }
    }
}

/// A rendered cell: spans that follow each other without a gap.
#[derive(Clone, Debug, PartialEq, Eq)]
pub struct Cell {
    pub spans: Vec<Span>,
}

impl View for Cell {
    type V = Seq<SpanView>;

    open spec fn view(&self) -> Seq<SpanView> {
        Seq::new(self.spans@.len(), |i: int| self.spans@[i]@)
    }
}

/// A span of `text` in the colour `tint`.
pub open spec fn span(text: Seq<char>, tint: Option<Tint>) -> SpanView {
    SpanView { text, tint }
}

/// The text that a cell shows, colours left aside.
pub open spec fn plain_text(cell: Seq<SpanView>) -> Seq<char>
    decreases cell.len(),
{
    if cell.len() == 0 {
        Seq::empty()
    } else {
        plain_text(cell.drop_last()) + cell.last().text
    }
}

impl Cell {
    /// The cell without any span.
    pub fn new() -> (cell: Cell)
        ensures
            cell@ == Seq::<SpanView>::empty(),
    {
        let cell = Cell { spans: Vec::new() };
        assert(cell@ =~= Seq::<SpanView>::empty());
        cell
    }

    /// Appends a span of `text` in `tint`.
    pub fn push(&mut self, text: &str, tint: Option<Tint>)
        ensures
            final(self)@ == old(self)@.push(span(text@, tint)),
    {
        self.spans.push(Span { text: String::from_str(text), tint });
        assert(self@ =~= old(self)@.push(span(text@, tint)));
    }

    /// The cell that holds the single span of `text` in `tint`.
    pub fn of(text: &str, tint: Option<Tint>) -> (cell: Cell)
        ensures
            cell@ == seq![span(text@, tint)],
    {
        let mut cell = Cell::new();
        cell.push(text, tint);
        cell
    }

    /// The text of the cell without its colours.
    pub fn plain(&self) -> (text: String)
        ensures
            text@ == plain_text(self@),
    {
        let mut text = String::new();
        let mut i: usize = 0;
        while i < self.spans.len()
            invariant
                i <= self.spans.len(),
                text@ == plain_text(self@.take(i as int)),
            decreases self.spans.len() - i,
        {
            text.append(self.spans[i].text.as_str());
            proof {
                assert(self@.take(i + 1).drop_last() =~= self@.take(i as int));
            }
            i += 1;
        }
        assert(self@.take(i as int) =~= self@);
        text
    }
}

} // verus!
