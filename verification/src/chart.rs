//! The chart data model: an ordered sequence of rows of fixed, per-row
//! length, each cell holding either an [`Album`] or nothing.
//!
//! The shape of a chart (its row lengths) is fixed at construction; only the
//! contents of individual cells change afterwards, through [`Chart::set_cell`].
//! A row length of zero is accepted by the general constructor and simply
//! yields a row with no cells (it is visually absent).

use vstd::prelude::*;

verus! {

/// One item that can occupy a cell: an identifier, display strings, and the
/// locator of its cover image.
#[derive(Clone, Debug)]
pub struct Album {
    pub id: String,
    pub title: String,
    pub artist: String,
    pub cover_url: String,
}

/// Error returned when a cell address lies outside the chart's declared shape.
#[derive(Clone, Copy, Debug, PartialEq, Eq, Structural)]
pub enum ChartError {
    OutOfRange,
}

/// A grid of optional items. Invariant (see [`Chart::wf`]): `rows` and
/// `row_sizes` have the same length and `rows[i].len() == row_sizes[i]`.
#[derive(Clone, Debug)]
pub struct Chart {
    pub row_sizes: Vec<usize>,
    pub rows: Vec<Vec<Option<Album>>>,
}

/// Built-in row-length sequences a chart can be constructed from.
#[derive(Clone, Copy, Debug, PartialEq, Eq, Structural)]
pub enum ChartPreset {
    Nine,
    TwentyFive,
    Hundred,
}

/// The row-length sequence a preset stands for.
pub open spec fn preset_row_sizes(preset: ChartPreset) -> Seq<usize> {
    match preset {
        ChartPreset::Nine => seq![3usize, 3, 3],
        ChartPreset::TwentyFive => seq![5usize, 5, 5, 5, 5],
        ChartPreset::Hundred => seq![5usize, 5, 6, 6, 6, 10, 10, 10, 14, 14, 14],
    }
}

impl Chart {
    /// Shape invariant: one row per declared row size, and each row has
    /// exactly its declared number of cells.
    pub open spec fn wf(self) -> bool {
        &&& self.rows@.len() == self.row_sizes@.len()
        &&& forall|i: int|
            0 <= i < self.rows@.len() ==> (#[trigger] self.rows@[i])@.len() == self.row_sizes@[i]
    }

    /// The content of the cell at row `i`, column `j`.
    pub open spec fn spec_cell(self, i: int, j: int) -> Option<Album> {
        self.rows@[i]@[j]
    }

    /// Every cell of the chart is empty.
    pub open spec fn all_empty(self) -> bool {
        forall|i: int, j: int|
            0 <= i < self.rows@.len() && 0 <= j < self.rows@[i]@.len()
                ==> #[trigger] self.spec_cell(i, j) is None
    }

    /// Builds the all-empty chart whose row lengths are the preset's sequence.
    pub fn from_preset(preset: ChartPreset) -> (c: Chart)
        ensures
            c.wf(),
            c.row_sizes@ == preset_row_sizes(preset),
            c.all_empty(),
    {
        let mut layout: Vec<usize> = Vec::new();
        match preset {
            ChartPreset::Nine => {
                layout.push(3);
                layout.push(3);
                layout.push(3);
            }
            ChartPreset::TwentyFive => {
                layout.push(5);
                layout.push(5);
                layout.push(5);
                layout.push(5);
                layout.push(5);
            }
            ChartPreset::Hundred => {
                layout.push(5);
                layout.push(5);
                layout.push(6);
                layout.push(6);
                layout.push(6);
                layout.push(10);
                layout.push(10);
                layout.push(10);
                layout.push(14);
                layout.push(14);
                layout.push(14);
            }
        }
        proof {
            assert(layout@ =~= preset_row_sizes(preset));
        }
        Self::from_row_sizes(layout)
    }

    /// Builds the all-empty chart with the given row lengths. A length of
    /// zero yields a row with no cells.
    pub fn from_row_sizes(row_sizes: Vec<usize>) -> (c: Chart)
        ensures
            c.wf(),
            c.row_sizes@ == row_sizes@,
            c.all_empty(),
    {
        let mut rows: Vec<Vec<Option<Album>>> = Vec::new();
        let mut i: usize = 0;
        while i < row_sizes.len()
            invariant
                i <= row_sizes@.len(),
                rows@.len() == i,
                forall|k: int|
                    0 <= k < i ==> (#[trigger] rows@[k])@.len() == row_sizes@[k],
                forall|k: int, j: int|
                    0 <= k < i && 0 <= j < rows@[k]@.len() ==> rows@[k]@[j] is None,
            decreases row_sizes@.len() - i,
        {
            rows.push(empty_row(row_sizes[i]));
            i += 1;
        }
        Chart { row_sizes, rows }
    }

    /// Replaces the content of one cell, or fails with
    /// [`ChartError::OutOfRange`] — leaving the chart untouched — when the
    /// address lies outside the declared shape.
    pub fn set_cell(&mut self, row: usize, col: usize, content: Option<Album>) -> (r: Result<
        (),
        ChartError,
    >)
        requires
            old(self).wf(),
        ensures
            final(self).wf(),
            final(self).row_sizes@ == old(self).row_sizes@,
            r is Ok <==> row < old(self).row_sizes@.len()
                && col < old(self).row_sizes@[row as int],
            r is Err ==> *final(self) == *old(self)
                && r == Err::<(), ChartError>(ChartError::OutOfRange),
            r is Ok ==> final(self).spec_cell(row as int, col as int) == content,
            r is Ok ==> forall|i: int, j: int|
                0 <= i < old(self).rows@.len() && 0 <= j < old(self).rows@[i]@.len()
                    && !(i == row && j == col)
                    ==> #[trigger] final(self).spec_cell(i, j) == old(self).spec_cell(i, j),
    {
        if row < self.rows.len() {
            if col < self.rows[row].len() {
                self.rows[row][col] = content;
                return Ok(());
            }
        }
        Err(ChartError::OutOfRange)
    }

    /// Decides the shape invariant [`Chart::wf`] at run time, for callers
    /// that assembled a chart from raw parts rather than through the
    /// constructors here.
    pub fn check_shape(&self) -> (b: bool)
        ensures
            b == self.wf(),
    {
        if self.rows.len() != self.row_sizes.len() {
            return false;
        }
        let mut i: usize = 0;
        while i < self.rows.len()
            invariant
                i <= self.rows@.len(),
                self.rows@.len() == self.row_sizes@.len(),
                forall|k: int|
                    0 <= k < i ==> (#[trigger] self.rows@[k])@.len() == self.row_sizes@[k],
            decreases self.rows@.len() - i,
        {
            if self.rows[i].len() != self.row_sizes[i] {
                return false;
            }
            i += 1;
        }
        true
    }

    /// Number of rows of the chart.
    pub fn num_rows(&self) -> (r: usize)
        ensures
            r == self.row_sizes@.len(),
    {
        self.row_sizes.len()
    }

    /// Declared length of row `i`.
    pub fn row_size(&self, i: usize) -> (r: usize)
        requires
            i < self.row_sizes@.len(),
        ensures
            r == self.row_sizes@[i as int],
    {
        self.row_sizes[i]
    }

    /// The content of the cell at row `i`, column `j`.
    pub fn get_cell(&self, i: usize, j: usize) -> (r: &Option<Album>)
        requires
            self.wf(),
            i < self.row_sizes@.len(),
            j < self.row_sizes@[i as int],
        ensures
            *r == self.spec_cell(i as int, j as int),
    {
        &self.rows[i][j]
    }
}

/// A row of `n` empty cells.
fn empty_row(n: usize) -> (r: Vec<Option<Album>>)
    ensures
        r@.len() == n,
        forall|j: int| 0 <= j < n ==> r@[j] is None,
{
    let mut r: Vec<Option<Album>> = Vec::new();
    let mut j: usize = 0;
    while j < n
        invariant
            j <= n,
            r@.len() == j,
            forall|k: int| 0 <= k < j ==> r@[k] is None,
        decreases n - j,
    {
        r.push(None);
        j += 1;
    }
    r
}

} // verus!
