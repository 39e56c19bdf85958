use vstd::prelude::*;
use vstd::string::StringExecFns;
use crate::cells::{Cell, Sheet};
use crate::errors::RowError;
use crate::records::{Account, Import, Transaction};
use crate::text::{extract_ticker_symbol, has_ticker, ticker_of};

verus! {

/// Declared cost reconciles with price times quantity.  All three values
/// are fixed-point, in millionths of a unit, so the difference
/// `cost * 10^6 - price * quantity` is in 10^-12 of a unit; the tolerance
/// of one ten-thousandth of a unit is 10^8 on that scale.
pub open spec fn recon_ok(quantity: int, price: int, cost: int) -> bool {
    -100_000_000 <= cost * 1_000_000 - price * quantity <= 100_000_000
}

/// A row parses into a transaction: column A is a date, column B is text
/// ending in a ticker suffix, columns D, E, F are numeric, and the
/// declared cost reconciles.
pub open spec fn spec_row_ok(sheet: Sheet, row: int) -> bool {
    &&& sheet.spec_cell(row, 0) is DateTime
    &&& (sheet.spec_cell(row, 1) matches Cell::Text(name) && has_ticker(name@))
    &&& (sheet.spec_cell(row, 3) matches Cell::Number(q) && sheet.spec_cell(row, 4) matches Cell::Number(p)
        && sheet.spec_cell(row, 5) matches Cell::Number(c) && recon_ok(q as int, p as int, c as int))
}

/// The error a failing row is rejected with; the checks run in column
/// order, reconciliation last.
pub open spec fn spec_row_error(sheet: Sheet, row: int) -> RowError {
    if !(sheet.spec_cell(row, 0) is DateTime) {
        RowError::DateMissing
    } else if !(sheet.spec_cell(row, 1) is Text) {
        RowError::NameMissing
    } else if !(sheet.spec_cell(row, 1) matches Cell::Text(name) && has_ticker(name@)) {
        RowError::TickerMissing
    } else if !(sheet.spec_cell(row, 3) is Number) {
        RowError::QuantityMissing
    } else if !(sheet.spec_cell(row, 4) is Number) {
        RowError::PriceMissing
    } else if !(sheet.spec_cell(row, 5) is Number) {
        RowError::CostMissing
    } else {
        RowError::CostMismatch
    }
}

/// The data a successfully parsed row puts into a transaction, field by
/// field, leaving only the store-assigned id open.
pub open spec fn txn_fields_match(
    t: Transaction,
    sheet: Sheet,
    row: int,
    account_id: Seq<char>,
    import_id: Seq<char>,
) -> bool {
    &&& (sheet.spec_cell(row, 0) matches Cell::DateTime(ts)
        && t.execution_time_unix_timestamp_seconds == ts)
    &&& (sheet.spec_cell(row, 1) matches Cell::Text(name) && t.ticker_symbol@ == ticker_of(name@))
    &&& (sheet.spec_cell(row, 3) matches Cell::Number(q) && t.unit_quantity_micros == q)
    &&& (sheet.spec_cell(row, 4) matches Cell::Number(p) && t.cost_per_unit_micros == p)
    &&& t.currency_symbol@ == "GBP"@
    &&& t.account_id@ == account_id
    &&& t.import_id@ == import_id
}

/// The transaction a successfully parsed row produces: its data, with the
/// store-assigned id still absent.
pub open spec fn txn_matches_row(
    t: Transaction,
    sheet: Sheet,
    row: int,
    account_id: Seq<char>,
    import_id: Seq<char>,
) -> bool {
    &&& t.id is None
    &&& txn_fields_match(t, sheet, row, account_id, import_id)
}

/// Parse one six-column row (date, investment name, unused, quantity,
/// price, cost) into a transaction, reconciling declared cost against
/// price times quantity.
pub fn parse_row(sheet: &Sheet, row: usize, import: &Import, account: &Account) -> (r: Result<
    Transaction,
    RowError,
>)
    ensures
        r is Ok <==> spec_row_ok(*sheet, row as int),
        r matches Err(e) ==> e == spec_row_error(*sheet, row as int),
        r matches Ok(t) ==> txn_matches_row(t, *sheet, row as int, account.id@, import.id@),
{
    let ts: i64 = match sheet.cell_at(row, 0) {
        Some(Cell::DateTime(ts)) => *ts,
        _ => {
            return Err(RowError::DateMissing);
        },
    };
    let name: &String = match sheet.cell_at(row, 1) {
        Some(Cell::Text(s)) => s,
        _ => {
            return Err(RowError::NameMissing);
        },
    };
    let ticker: String = match extract_ticker_symbol(name.as_str()) {
        Some(t) => t,
        None => {
            return Err(RowError::TickerMissing);
        },
    };
    let quantity: i64 = match sheet.cell_at(row, 3) {
        Some(Cell::Number(q)) => *q,
        _ => {
            return Err(RowError::QuantityMissing);
        },
    };
    let price: i64 = match sheet.cell_at(row, 4) {
        Some(Cell::Number(p)) => *p,
        _ => {
            return Err(RowError::PriceMissing);
        },
    };
    let cost: i64 = match sheet.cell_at(row, 5) {
        Some(Cell::Number(c)) => *c,
        _ => {
            return Err(RowError::CostMissing);
        },
    };
    proof {
        assert((price as int) * (quantity as int) <= 0x8000_0000_0000_0000 * 0x8000_0000_0000_0000
            && -(0x8000_0000_0000_0000 * 0x8000_0000_0000_0000) <= (price as int) * (
        quantity as int)) by (nonlinear_arith)
            requires
                -0x8000_0000_0000_0000 <= price as int <= 0x7FFF_FFFF_FFFF_FFFF,
                -0x8000_0000_0000_0000 <= quantity as int <= 0x7FFF_FFFF_FFFF_FFFF,
        ;
    }
    let scaled_cost: i128 = (cost as i128) * 1_000_000i128;
    let product: i128 = (price as i128) * (quantity as i128);
    let diff: i128 = scaled_cost - product;
    if diff < -100_000_000i128 || 100_000_000i128 < diff {
        return Err(RowError::CostMismatch);
    }
    Ok(
        Transaction {
            id: None,
            execution_time_unix_timestamp_seconds: ts,
            ticker_symbol: ticker,
            unit_quantity_micros: quantity,
            cost_per_unit_micros: price,
            currency_symbol: String::from_str("GBP"),
            account_id: account.id.clone(),
            import_id: import.id.clone(),
        },
    )
}

/// The absolute indices of the rows in `[start, start + n)` that parse,
/// in order.
pub open spec fn ok_row_indices(sheet: Sheet, start: int, n: int) -> Seq<int>
    decreases n,
{
    if n <= 0 {
        Seq::empty()
    } else {
        let prefix = ok_row_indices(sheet, start, n - 1);
        if spec_row_ok(sheet, start + n - 1) {
            prefix.push(start + n - 1)
        } else {
            prefix
        }
    }
}

/// The absolute indices of the rows in `[start, start + n)` that are
/// rejected, in order.
pub open spec fn bad_row_indices(sheet: Sheet, start: int, n: int) -> Seq<int>
    decreases n,
{
    if n <= 0 {
        Seq::empty()
    } else {
        let prefix = bad_row_indices(sheet, start, n - 1);
        if spec_row_ok(sheet, start + n - 1) {
            prefix
        } else {
            prefix.push(start + n - 1)
        }
    }
}

/// When every row of the table parses, the ok-row list is the whole
/// table in order and the bad-row list is empty.
pub proof fn lemma_ok_rows_all_ok(sheet: Sheet, start: int, n: int)
    requires
        forall|row: int| start <= row < start + n ==> spec_row_ok(sheet, row),
    ensures
        n >= 0 ==> ok_row_indices(sheet, start, n).len() == n,
        n < 0 ==> ok_row_indices(sheet, start, n).len() == 0,
        forall|k: int| 0 <= k < n ==> ok_row_indices(sheet, start, n)[k] == start + k,
        bad_row_indices(sheet, start, n).len() == 0,
    decreases n,
{
    if n > 0 {
        lemma_ok_rows_all_ok(sheet, start, n - 1);
    }
}


/// A failing row inside the table makes the bad-row list non-empty.
pub proof fn lemma_bad_rows_nonempty(sheet: Sheet, start: int, n: int, k: int)
    requires
        0 <= k < n,
        !spec_row_ok(sheet, start + k),
    ensures
        bad_row_indices(sheet, start, n).len() > 0,
    decreases n,
{
    if k < n - 1 {
        lemma_bad_rows_nonempty(sheet, start, n - 1, k);
    }
}

} // verus!


