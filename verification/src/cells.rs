use vstd::prelude::*;

verus! {

/// One spreadsheet cell, as the import engine sees it.
///
/// Every extraction site pattern-matches on this closed union rather than
/// assuming a variant.  Numeric cells hold fixed-point values: a `Number`
/// carries millionths of a unit, so `2.5` is stored as `2_500_000`.
/// A `DateTime` carries a UTC timestamp in whole seconds.
#[derive(Debug)]
pub enum Cell {
    Empty,
    Text(String),
    Number(i64),
    DateTime(i64),
    Boolean(bool),
    ErrorValue,
}

impl Cell {
    /// An out-of-range lookup and an `Empty` cell are treated alike.
    pub open spec fn is_blank(&self) -> bool {
        *self is Empty
    }
}

/// A named two-dimensional grid of typed cells: the unit of per-account data.
#[derive(Debug)]
pub struct Sheet {
    pub name: String,
    pub rows: Vec<Vec<Cell>>,
}

impl Sheet {
    /// The cell at `(r, c)`, with every position outside the stored grid
    /// reading as `Empty`.
    pub open spec fn spec_cell(&self, r: int, c: int) -> Cell {
        if 0 <= r < self.rows@.len() && 0 <= c < self.rows@[r]@.len() {
            self.rows@[r]@[c]
        } else {
            Cell::Empty
        }
    }

    /// Random access to a cell; `None` only for positions outside the grid,
    /// which hold `Empty`.
    pub fn cell_at(&self, r: usize, c: usize) -> (res: Option<&Cell>)
        ensures
            res matches Some(cell) ==> *cell == self.spec_cell(r as int, c as int),
            res is None ==> self.spec_cell(r as int, c as int) == Cell::Empty,
    {
        if r < self.rows.len() {
            let row = &self.rows[r];
            if c < row.len() {
                Some(&row[c])
            } else {
                None
            }
        } else {
            None
        }
    }

    /// Whether the cell at `(r, c)` is blank, counting out-of-range
    /// positions as blank.
    pub fn blank_at(&self, r: usize, c: usize) -> (res: bool)
        ensures
            res == self.spec_cell(r as int, c as int).is_blank(),
    {
        match self.cell_at(r, c) {
            Some(Cell::Empty) => true,
            None => true,
            Some(_) => false,
        }
    }
}

/// An opened workbook: the sheets of one import file, in workbook order.
#[derive(Debug)]
pub struct Workbook {
    pub sheets: Vec<Sheet>,
}

} // verus!
