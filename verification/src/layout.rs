//! What there is to draw, counted in cells: the lines of the grid and one
//! marker for each selection. A cell is one fret wide and one string high;
//! columns count frets from the diagram's starting fret, rows count strings.

use vstd::prelude::*;
use crate::board::Fretboard;
use crate::range::Range;

verus! {

/// A line of the grid: the boundary before the fret column, or before the
/// string row, of that number.
#[derive(Clone, Copy, Debug, PartialEq, Eq, Structural)]
pub enum GridLine {
    Fret(u8),
    String(u8),
}

/// A block of cells. The column may lie before the diagram's first one.
#[derive(Clone, Copy, Debug, PartialEq, Eq, Structural)]
pub struct Cells {
    pub column: i16,
    pub row: u8,
    pub columns: u16,
    pub rows: u16,
}

/// What is drawn for one selection: a box over its cells, or a cross over
/// them where it is muted.
#[derive(Clone, Copy, Debug, PartialEq, Eq, Structural)]
pub enum Marker {
    Rectangle(Cells),
    Cross(Cells),
}

/// The line at place `k` of a grid of `frets` frets: the fret lines come
/// first.
pub open spec fn grid_line(frets: u8, k: int) -> GridLine {
    if k <= frets {
        GridLine::Fret(k as u8)
    } else {
        GridLine::String((k - frets - 1) as u8)
    }
}

/// The grid: `frets + 1` fret lines in rising order, then `strings + 1`
/// string lines in rising order.
pub open spec fn grid_of(strings: u8, frets: u8) -> Seq<GridLine> {
    Seq::new((frets + strings + 2) as nat, |k: int| grid_line(frets, k))
}

/// The number of cells from `start` to `end`, both counted; none where the
/// run is turned round.
pub open spec fn extent(start: u8, end: u8) -> u16 {
    if start <= end {
        (end - start + 1) as u16
    } else {
        0
    }
}

/// The cells that a selection covers on a diagram that starts at
/// `first_fret`.
pub open spec fn cells_of(q: Range, first_fret: u8) -> Cells {
    Cells {
        column: (q.fret_start - first_fret) as i16,
        row: q.string_start,
        columns: extent(q.fret_start, q.fret_end),
        rows: extent(q.string_start, q.string_end),
    }
}

/// The marker of a selection: one box over all its cells, or one cross
/// where it is muted.
pub open spec fn marker_of(q: Range, first_fret: u8) -> Marker {
    if q.muted {
        Marker::Cross(cells_of(q, first_fret))
    } else {
        Marker::Rectangle(cells_of(q, first_fret))
    }
}

/// The point in a cell of the diagram is drawn as a box over that cell and
/// no other.
pub proof fn lemma_cell_marker(first_fret: u8, column: u8, row: u8)
    requires
        first_fret + column <= u8::MAX,
    ensures
        marker_of(
            Range {
                fret_start: (first_fret + column) as u8,
                fret_end: (first_fret + column) as u8,
                string_start: row,
                string_end: row,
                muted: false,
            },
            first_fret,
        ) == Marker::Rectangle(Cells { column: column as i16, row, columns: 1, rows: 1 }),
{
}

/// A selection that is not muted is drawn as one box, as many cells wide as
/// it covers frets and as many high as it covers strings.
pub proof fn lemma_span_marker(q: Range, first_fret: u8)
    requires
        q.wf(),
        !q.muted,
    ensures
        marker_of(q, first_fret) is Rectangle,
        marker_of(q, first_fret)->Rectangle_0.columns == q.fret_end - q.fret_start + 1,
        marker_of(q, first_fret)->Rectangle_0.rows == q.string_end - q.string_start + 1,
{
}

/// The number of cells from `start` to `end`.
pub fn run_length(start: u8, end: u8) -> (n: u16)
    ensures
        n == extent(start, end),
{
    if start <= end {
        (end - start) as u16 + 1
    } else {
        0
    }
}

impl Fretboard {
    /// The lines of the grid: first one for every fret boundary, then one
    /// for every string boundary, each kind in rising order.
    pub fn grid(&self) -> (v: Vec<GridLine>)
        ensures
            v@ == grid_of(self.string_count(), self.fret_count()),
            v@.len() == (self.fret_count() + 1) + (self.string_count() + 1),
    {
        let frets: u8 = self.frets();
        let strings: u8 = self.strings();
        let mut v: Vec<GridLine> = Vec::new();
        let mut i: u16 = 0;
        while i <= frets as u16
            invariant
                0 <= i <= frets + 1,
                v@.len() == i,
                forall|k: int| 0 <= k < i ==> v@[k] == grid_line(frets, k),
            decreases frets + 1 - i,
        {
            v.push(GridLine::Fret(i as u8));
            i += 1;
        }
        let mut j: u16 = 0;
        while j <= strings as u16
            invariant
                0 <= j <= strings + 1,
                v@.len() == frets + 1 + j,
                forall|k: int| 0 <= k < frets + 1 + j ==> v@[k] == grid_line(frets, k),
            decreases strings + 1 - j,
        {
            v.push(GridLine::String(j as u8));
            j += 1;
        }
        assert(v@ =~= grid_of(strings, frets));
        v
    }

    /// The marker of one selection, laid out on this diagram.
    pub fn render_fretted(&self, range: &Range) -> (m: Marker)
        ensures
            m == marker_of(*range, self.first_fret()),
    {
        let cells = Cells {
            column: range.fret_start as i16 - self.starting_fret() as i16,
            row: range.string_start,
            columns: run_length(range.fret_start, range.fret_end),
            rows: run_length(range.string_start, range.string_end),
        };
        if range.muted {
            Marker::Cross(cells)
        } else {
            Marker::Rectangle(cells)
        }
    }

    /// One marker for every selection, oldest first.
    pub fn fretted(&self) -> (v: Vec<Marker>)
        ensures
            v@.len() == self.selections().len(),
            forall|i: int|
                0 <= i < v@.len() ==> v@[i] == marker_of(
                    #[trigger] self.selections()[i],
                    self.first_fret(),
                ),
    {
        let ranges: Vec<Range> = self.ranges();
        let mut v: Vec<Marker> = Vec::new();
        let mut i: usize = 0;
        while i < ranges.len()
            invariant
                ranges@ == self.selections(),
                0 <= i <= ranges@.len(),
                v@.len() == i,
                forall|k: int|
                    0 <= k < i ==> v@[k] == marker_of(
                        #[trigger] self.selections()[k],
                        self.first_fret(),
                    ),
            decreases ranges@.len() - i,
        {
            let m: Marker = self.render_fretted(&ranges[i]);
            v.push(m);
            i += 1;
        }
        v
    }

    /// The point in the cell at `column` and `row` of the diagram: its fret
    /// is counted from the nut. Nothing where no byte holds that fret. A cell
    /// outside the diagram gives a point outside it.
    pub fn cell(&self, column: u8, row: u8) -> (at: Option<Range>)
        ensures
            self.first_fret() + column <= u8::MAX ==> at == Some(
                Range {
                    fret_start: (self.first_fret() + column) as u8,
                    fret_end: (self.first_fret() + column) as u8,
                    string_start: row,
                    string_end: row,
                    muted: false,
                },
            ),
            self.first_fret() + column > u8::MAX ==> at.is_none(),
    {
        let first: u8 = self.starting_fret();
        if column <= u8::MAX - first {
            Some(Range::point(first + column, row))
        } else {
            None
        }
    }
}

} // verus!
