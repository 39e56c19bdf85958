use vstd::prelude::*;
use crate::cells::{Cell, Sheet};
use crate::text::str_eq;

verus! {

/// The sentinel text whose cell opens the investment-transactions table.
pub open spec fn sentinel_text() -> Seq<char> {
    "Investment Transactions"@
}

/// Row `r`'s first column holds exactly the sentinel text.
pub open spec fn row_has_sentinel(sheet: Sheet, r: int) -> bool {
    sheet.spec_cell(r, 0) matches Cell::Text(s) && s@ == sentinel_text()
}

/// `r` is the first sentinel row within the bounded scan of the first
/// thousand rows.
pub open spec fn is_first_sentinel(sheet: Sheet, r: int) -> bool {
    &&& 0 <= r < 1000
    &&& row_has_sentinel(sheet, r)
    &&& forall|i: int| 0 <= i < r ==> !row_has_sentinel(sheet, i)
}

/// There is at most one first sentinel row.
pub proof fn lemma_first_sentinel_unique(sheet: Sheet, x1: int, x2: int)
    requires
        is_first_sentinel(sheet, x1),
        is_first_sentinel(sheet, x2),
    ensures
        x1 == x2,
{
    if x1 < x2 {
        assert(!row_has_sentinel(sheet, x1));
    }
    if x2 < x1 {
        assert(!row_has_sentinel(sheet, x2));
    }
}

/// `n` is the length of the data table that starts at `start`: a row
/// belongs to the table exactly when the row after it is non-blank in
/// column 0, so the table ends just before the first row whose successor
/// is blank.
pub open spec fn is_table_len(sheet: Sheet, start: int, n: int) -> bool {
    &&& 0 <= n
    &&& sheet.spec_cell(start + n + 1, 0).is_blank()
    &&& forall|k: int| 0 <= k < n ==> !(#[trigger] sheet.spec_cell(start + k + 1, 0)).is_blank()
}

/// There is at most one table length for a given start row.
pub proof fn lemma_table_len_unique(sheet: Sheet, start: int, n1: int, n2: int)
    requires
        is_table_len(sheet, start, n1),
        is_table_len(sheet, start, n2),
    ensures
        n1 == n2,
{
    if n1 < n2 {
        assert(!sheet.spec_cell(start + n1 + 1, 0).is_blank());
    }
    if n2 < n1 {
        assert(!sheet.spec_cell(start + n2 + 1, 0).is_blank());
    }
}

/// Scan column 0 of the first thousand rows for the sentinel text.
/// `None` means the sheet has no investment-transactions table, which is
/// not an error.
pub fn find_sentinel(sheet: &Sheet) -> (r: Option<usize>)
    ensures
        r matches Some(x) ==> is_first_sentinel(*sheet, x as int),
        r is None ==> forall|i: int| 0 <= i < 1000 ==> !row_has_sentinel(*sheet, i),
{
    let mut r: usize = 0;
    while r < 1000
        invariant
            r <= 1000,
            forall|i: int| 0 <= i < r ==> !row_has_sentinel(*sheet, i),
        decreases 1000 - r,
    {
        match sheet.cell_at(r, 0) {
            Some(Cell::Text(s)) => {
                if str_eq(s.as_str(), "Investment Transactions") {
                    return Some(r);
                }
            },
            _ => {},
        }
        r = r + 1;
    }
    None
}

/// Locate the transaction table and return the absolute indices of its
/// data rows.  The table starts three rows below the sentinel (two
/// header/blank rows are skipped); without a sentinel the result is empty.
pub fn scan_transaction_rows(sheet: &Sheet) -> (r: Vec<usize>)
    ensures
        (forall|i: int| 0 <= i < 1000 ==> !row_has_sentinel(*sheet, i)) ==> r@.len() == 0,
        forall|x: int| is_first_sentinel(*sheet, x) ==> {
            &&& is_table_len(*sheet, x + 3, r@.len() as int)
            &&& forall|i: int| 0 <= i < r@.len() ==> r@[i] == x + 3 + i
        },
{
    let x = match find_sentinel(sheet) {
        Some(x) => x,
        None => {
            return Vec::new();
        },
    };
    let start = x + 3;
    let rlen = sheet.rows.len();
    let mut rows: Vec<usize> = Vec::new();
    let mut count: usize = 0;
    loop
        invariant
            is_first_sentinel(*sheet, x as int),
            start == x + 3,
            x < 1000,
            rlen == sheet.rows@.len(),
            rows@.len() == count,
            forall|i: int| 0 <= i < count ==> rows@[i] == start + i,
            forall|k: int| 0 <= k < count ==> !(#[trigger] sheet.spec_cell(
                start + k + 1,
                0,
            )).is_blank(),
            count == 0 || start + count < rlen,
        ensures
            rows@.len() == count,
            forall|i: int| 0 <= i < count ==> rows@[i] == start + i,
            is_table_len(*sheet, start as int, count as int),
        decreases rlen + 1 - count,
    {
        let idx = start + count;
        if sheet.blank_at(idx + 1, 0) {
            break;
        }
        rows.push(idx);
        count = count + 1;
    }
    proof {
        assert forall|x2: int| is_first_sentinel(*sheet, x2) implies {
            &&& is_table_len(*sheet, x2 + 3, rows@.len() as int)
            &&& forall|i: int| 0 <= i < rows@.len() ==> rows@[i] == x2 + 3 + i
        } by {
            lemma_first_sentinel_unique(*sheet, x as int, x2);
        }
    }
    rows
}


/// The first sentinel row of a sheet, as a value: `None` when no row of
/// the bounded scan holds the sentinel.
pub open spec fn spec_sentinel_row(sheet: Sheet) -> Option<int> {
    if exists|x: int| is_first_sentinel(sheet, x) {
        Some(choose|x: int| is_first_sentinel(sheet, x))
    } else {
        None
    }
}

/// The length of the data table starting at `start`, as a value: the
/// number of rows taken before the look-ahead meets a blank cell.
pub open spec fn spec_table_count(sheet: Sheet, start: int) -> nat
    decreases (if start < sheet.rows@.len() { sheet.rows@.len() - start } else { 0 }),
{
    if sheet.spec_cell(start + 1, 0).is_blank() {
        0
    } else {
        (1 + spec_table_count(sheet, start + 1)) as nat
    }
}

/// `spec_table_count` is the unique table length.
pub proof fn lemma_table_count_is_len(sheet: Sheet, start: int)
    ensures
        is_table_len(sheet, start, spec_table_count(sheet, start) as int),
    decreases (if start < sheet.rows@.len() { sheet.rows@.len() - start } else { 0 }),
{
    if !sheet.spec_cell(start + 1, 0).is_blank() {
        lemma_table_count_is_len(sheet, start + 1);
        let n = spec_table_count(sheet, start) as int;
        assert forall|k: int| 0 <= k < n implies !(#[trigger] sheet.spec_cell(
            start + k + 1,
            0,
        )).is_blank() by {
            if k > 0 {
                assert(!sheet.spec_cell((start + 1) + (k - 1) + 1, 0).is_blank());
            }
        }
    }
}

} // verus!

