use vstd::prelude::*;
use vstd::string::StringExecFns;
use crate::accounts::{
    account_matches_sheet, create_accounts, has_duplicate_ids, lemma_resolved_ids_distinct,
    lemma_resolved_sheets, resolved_sheets, spec_sheet_account_id, AccountBinding,
};
use crate::cells::{Cell, Sheet, Workbook};
use crate::errors::ImportError;
use crate::integrity::sha256_hex_of;
use crate::manifest::Manifest;
use crate::records::{Account, Import, Transaction};
use crate::rows::{
    bad_row_indices, lemma_bad_rows_nonempty, lemma_ok_rows_all_ok, ok_row_indices, parse_row,
    spec_row_error, spec_row_ok, txn_fields_match, txn_matches_row,
};
use crate::scanner::{
    find_sentinel, is_first_sentinel, is_table_len, lemma_first_sentinel_unique,
    lemma_table_count_is_len, lemma_table_len_unique, row_has_sentinel, scan_transaction_rows,
    spec_sentinel_row, spec_table_count,
};
use crate::store::Store;
use crate::text::str_eq;

verus! {

/// What to do when a transaction row fails to parse: abort the import, as
/// the hard-gate policy, or skip the row and report its index.
#[derive(Clone, Copy, Debug, PartialEq, Eq, Structural)]
pub enum RowErrorPolicy {
    AbortOnRowError,
    SkipAndReport,
}

/// The transactions scanned out of one account sheet, with the absolute
/// indices of any rows that were skipped under `SkipAndReport`.
#[derive(Debug)]
pub struct RowScan {
    pub transactions: Vec<Transaction>,
    pub skipped_rows: Vec<usize>,
}

/// `i` is the first sheet of the workbook with this name.
pub open spec fn is_first_sheet_named(wb: Workbook, name: Seq<char>, i: int) -> bool {
    &&& 0 <= i < wb.sheets@.len()
    &&& wb.sheets@[i].name@ == name
    &&& forall|k: int| 0 <= k < i ==> wb.sheets@[k].name@ != name
}

/// Some sheet of the workbook has this name.
pub open spec fn has_sheet_named(wb: Workbook, name: Seq<char>) -> bool {
    exists|i: int| 0 <= i < wb.sheets@.len() && (#[trigger] wb.sheets@[i]).name@ == name
}

/// The workbook carries its report metadata: the first sheet named
/// "Summary" exists and holds a date/time value in its fixed date cell.
pub open spec fn spec_workbook_ok(wb: Workbook) -> bool {
    exists|i: int|
        is_first_sheet_named(wb, "Summary"@, i) && wb.sheets@[i].spec_cell(1, 0) is DateTime
}

/// Random access to a named sheet: the first sheet with that name.
pub fn sheet_by_name<'a>(wb: &'a Workbook, name: &str) -> (r: Option<&'a Sheet>)
    ensures
        r is Some <==> has_sheet_named(*wb, name@),
        r matches Some(s) ==> exists|i: int|
            is_first_sheet_named(*wb, name@, i) && *s == wb.sheets@[i],
{
    let mut i: usize = 0;
    while i < wb.sheets.len()
        invariant
            i <= wb.sheets@.len(),
            forall|k: int| 0 <= k < i ==> (#[trigger] wb.sheets@[k]).name@ != name@,
        decreases wb.sheets@.len() - i,
    {
        if str_eq(wb.sheets[i].name.as_str(), name) {
            proof {
                assert(is_first_sheet_named(*wb, name@, i as int));
            }
            return Some(&wb.sheets[i]);
        }
        i = i + 1;
    }
    None
}

/// Read the report-generation timestamp from the summary sheet's fixed
/// date cell, one row below the top-left corner.
pub fn report_generation_date(summary: &Sheet) -> (r: Result<i64, ImportError>)
    ensures
        r is Ok <==> summary.spec_cell(1, 0) is DateTime,
        r matches Ok(ts) ==> summary.spec_cell(1, 0) == Cell::DateTime(ts),
        r matches Err(e) ==> e is ReportDateMissing,
{
    match summary.cell_at(1, 0) {
        Some(Cell::DateTime(ts)) => Ok(*ts),
        _ => Err(ImportError::ReportDateMissing),
    }
}

/// Build the import record for a validated file: the manifest fingerprint
/// becomes the id, and the generation timestamp is read from the summary
/// sheet.
pub fn create_import(manifest: &Manifest, filename: String, wb: &Workbook) -> (r: Result<
    Import,
    ImportError,
>)
    ensures
        r is Ok <==> spec_workbook_ok(*wb),
        r matches Err(e) ==> ((e is SummarySheetMissing && !has_sheet_named(*wb, "Summary"@)) || (
        e is ReportDateMissing && has_sheet_named(*wb, "Summary"@) && !spec_workbook_ok(*wb))),
        r matches Ok(imp) ==> {
            &&& imp.id@ == manifest.sha256sum@
            &&& imp.filename@ == filename@
            &&& imp.platform_id@ == "vanguard_uk"@
            &&& exists|i: int|
                is_first_sheet_named(*wb, "Summary"@, i) && wb.sheets@[i].spec_cell(1, 0)
                    == Cell::DateTime(imp.generation_date_unix_timestamp_seconds)
        },
{
    let summary = match sheet_by_name(wb, "Summary") {
        Some(s) => s,
        None => {
            return Err(ImportError::SummarySheetMissing);
        },
    };
    let generation_date = match report_generation_date(summary) {
        Ok(ts) => ts,
        Err(e) => {
            return Err(e);
        },
    };
    Ok(
        Import {
            id: manifest.sha256sum.clone(),
            filename,
            platform_id: String::from_str(manifest.platform.id()),
            generation_date_unix_timestamp_seconds: generation_date,
        },
    )
}

/// The absolute indices of a sheet's table rows that parse, in order;
/// empty when the sheet has no sentinel.
pub open spec fn sheet_ok_rows(sheet: Sheet) -> Seq<int> {
    match spec_sentinel_row(sheet) {
        Some(x) => ok_row_indices(sheet, x + 3, spec_table_count(sheet, x + 3) as int),
        None => Seq::empty(),
    }
}

/// The absolute indices of a sheet's table rows that are rejected, in
/// order; empty when the sheet has no sentinel.
pub open spec fn sheet_bad_rows(sheet: Sheet) -> Seq<int> {
    match spec_sentinel_row(sheet) {
        Some(x) => bad_row_indices(sheet, x + 3, spec_table_count(sheet, x + 3) as int),
        None => Seq::empty(),
    }
}

/// Scan one account sheet for its transaction table and parse every data
/// row.  A sheet without the sentinel yields an empty scan, not an error.
/// Under `AbortOnRowError` the first failing row stops the import; under
/// `SkipAndReport` failing rows are reported by index and skipped.
pub fn create_transactions(
    sheet: &Sheet,
    import: &Import,
    account: &Account,
    policy: RowErrorPolicy,
) -> (r: Result<RowScan, ImportError>)
    ensures
        policy is AbortOnRowError ==> (r matches Ok(scan) ==> scan.skipped_rows@.len() == 0),
        policy is SkipAndReport ==> r is Ok,
        r matches Err(e) ==> e matches ImportError::Row { .. },
        policy is AbortOnRowError ==> (r is Ok <==> sheet_bad_rows(*sheet).len() == 0),
        r matches Ok(scan) ==> {
            &&& scan.transactions@.len() == sheet_ok_rows(*sheet).len()
            &&& (forall|j: int| 0 <= j < sheet_ok_rows(*sheet).len() ==> txn_matches_row(
                #[trigger] scan.transactions@[j],
                *sheet,
                sheet_ok_rows(*sheet)[j],
                account.id@,
                import.id@,
            ))
            &&& (forall|j: int| 0 <= j < scan.skipped_rows@.len() ==> (
            #[trigger] scan.skipped_rows@[j]) == sheet_bad_rows(*sheet)[j])
            &&& (policy is SkipAndReport ==> scan.skipped_rows@.len() == sheet_bad_rows(
                *sheet,
            ).len())
        },
        r matches Err(ImportError::Row { row, error }) ==> (spec_sentinel_row(*sheet)
            matches Some(x) && x + 3 <= row < x + 3 + spec_table_count(*sheet, x + 3) && (forall|
            rr: int,
        | x + 3 <= rr < row ==> spec_row_ok(*sheet, rr)) && !spec_row_ok(*sheet, row as int)
            && error == spec_row_error(*sheet, row as int)),
{
    let x = match find_sentinel(sheet) {
        Some(x) => x,
        None => {
            proof {
                assert forall|x2: int| !(#[trigger] is_first_sentinel(*sheet, x2)) by {
                    if is_first_sentinel(*sheet, x2) {
                        assert(row_has_sentinel(*sheet, x2));
                    }
                }
                assert(spec_sentinel_row(*sheet) is None);
            }
            return Ok(RowScan { transactions: Vec::new(), skipped_rows: Vec::new() });
        },
    };
    let rows = scan_transaction_rows(sheet);
    proof {
        lemma_first_sentinel_unique(*sheet, x as int, choose|x2: int| is_first_sentinel(*sheet, x2));
        assert(spec_sentinel_row(*sheet) == Some(x as int));
        lemma_table_count_is_len(*sheet, x as int + 3);
        lemma_table_len_unique(
            *sheet,
            x as int + 3,
            rows@.len() as int,
            spec_table_count(*sheet, x as int + 3) as int,
        );
    }
    let mut txns: Vec<Transaction> = Vec::new();
    let mut skipped: Vec<usize> = Vec::new();
    let mut i: usize = 0;
    while i < rows.len()
        invariant
            is_first_sentinel(*sheet, x as int),
            x < 1000,
            is_table_len(*sheet, x + 3, rows@.len() as int),
            spec_sentinel_row(*sheet) == Some(x as int),
            spec_table_count(*sheet, x + 3) == rows@.len(),
            forall|k: int| 0 <= k < rows@.len() ==> rows@[k] == x + 3 + k,
            i <= rows@.len(),
            txns@.len() == ok_row_indices(*sheet, x + 3, i as int).len(),
            forall|k: int|
                0 <= k < txns@.len() ==> txn_matches_row(
                    #[trigger] txns@[k],
                    *sheet,
                    ok_row_indices(*sheet, x + 3, i as int)[k],
                    account.id@,
                    import.id@,
                ),
            skipped@.len() == bad_row_indices(*sheet, x + 3, i as int).len(),
            forall|k: int|
                0 <= k < skipped@.len() ==> (#[trigger] skipped@[k]) == bad_row_indices(
                    *sheet,
                    x + 3,
                    i as int,
                )[k],
            policy is AbortOnRowError ==> forall|row: int|
                x + 3 <= row < x + 3 + i ==> spec_row_ok(*sheet, row),
            policy is AbortOnRowError ==> skipped@.len() == 0,
        decreases rows@.len() - i,
    {
        let row = rows[i];
        let parsed = parse_row(sheet, row, import, account);
        proof {
            assert(ok_row_indices(*sheet, x + 3, i + 1 as int) == (if spec_row_ok(
                *sheet,
                x + 3 + i as int,
            ) {
                ok_row_indices(*sheet, x + 3, i as int).push(x + 3 + i as int)
            } else {
                ok_row_indices(*sheet, x + 3, i as int)
            }));
            assert(bad_row_indices(*sheet, x + 3, i + 1 as int) == (if spec_row_ok(
                *sheet,
                x + 3 + i as int,
            ) {
                bad_row_indices(*sheet, x + 3, i as int)
            } else {
                bad_row_indices(*sheet, x + 3, i as int).push(x + 3 + i as int)
            }));
        }
        match parsed {
            Ok(t) => {
                txns.push(t);
            },
            Err(e) => {
                match policy {
                    RowErrorPolicy::AbortOnRowError => {
                        proof {
                            lemma_bad_rows_nonempty(
                                *sheet,
                                x + 3,
                                rows@.len() as int,
                                i as int,
                            );
                        }
                        return Err(ImportError::Row { row, error: e });
                    },
                    RowErrorPolicy::SkipAndReport => {
                        skipped.push(row);
                    },
                }
            },
        }
        i = i + 1;
    }
    proof {
        if policy is AbortOnRowError {
            lemma_ok_rows_all_ok(*sheet, x + 3, rows@.len() as int);
        }
    }
    Ok(RowScan { transactions: txns, skipped_rows: skipped })
}


/// The (sheet index, row) pairs of every parsing table row of the first
/// `upto` resolved sheets, in the order one import run persists them.
pub open spec fn planned_ok_rows(sheets: Seq<Sheet>, upto: int) -> Seq<(int, int)>
    decreases upto,
{
    if upto <= 0 {
        Seq::empty()
    } else {
        let si = resolved_sheets(sheets)[upto - 1];
        planned_ok_rows(sheets, upto - 1) + sheet_ok_rows(sheets[si]).map(
            |j: int, row: int| (si, row),
        )
    }
}

/// The (sheet index, row) pairs of every rejected table row of the first
/// `upto` resolved sheets, in order.
pub open spec fn planned_bad_rows(sheets: Seq<Sheet>, upto: int) -> Seq<(int, int)>
    decreases upto,
{
    if upto <= 0 {
        Seq::empty()
    } else {
        let si = resolved_sheets(sheets)[upto - 1];
        planned_bad_rows(sheets, upto - 1) + sheet_bad_rows(sheets[si]).map(
            |j: int, row: int| (si, row),
        )
    }
}

/// The planned lists grow with the number of sheets taken, and each
/// sheet's own rows are contained in every longer plan.
pub proof fn lemma_planned_prefix(sheets: Seq<Sheet>, upto: int, k: int)
    requires
        0 <= k < upto,
    ensures
        planned_ok_rows(sheets, upto).len() >= planned_ok_rows(sheets, k).len() + sheet_ok_rows(
            sheets[resolved_sheets(sheets)[k]],
        ).len(),
        planned_bad_rows(sheets, upto).len() >= planned_bad_rows(sheets, k).len() + sheet_bad_rows(
            sheets[resolved_sheets(sheets)[k]],
        ).len(),
    decreases upto,
{
    if k < upto - 1 {
        lemma_planned_prefix(sheets, upto - 1, k);
    }
}

/// No discovered account id is already present in the store.
pub open spec fn accounts_fresh(store: Store, sheets: Seq<Sheet>) -> bool {
    forall|k: int|
        0 <= k < resolved_sheets(sheets).len() ==> !(spec_sheet_account_id(
            sheets[#[trigger] resolved_sheets(sheets)[k]],
        ) matches Some(id) && store.spec_has_account(id))
}

/// What one run has persisted: the import record, the first
/// `accounts_upto` discovered accounts, and the planned transactions of
/// the first `sheets_done` account sheets, numbered in insertion order.
pub open spec fn spec_run_progress(
    old_store: Store,
    new_store: Store,
    wb: Workbook,
    manifest: Manifest,
    accounts_upto: int,
    sheets_done: int,
) -> bool {
    &&& new_store.imports@.len() == old_store.imports@.len() + 1
    &&& new_store.imports@.last().id@ == manifest.sha256sum@
    &&& new_store.accounts@.len() == old_store.accounts@.len() + accounts_upto
    &&& (forall|k: int|
        0 <= k < accounts_upto ==> account_matches_sheet(
            #[trigger] new_store.accounts@[old_store.accounts@.len() + k],
            wb.sheets@[resolved_sheets(wb.sheets@)[k]],
            manifest,
            new_store.imports@.last(),
        ))
    &&& new_store.transactions@.len() == old_store.transactions@.len() + planned_ok_rows(
        wb.sheets@,
        sheets_done,
    ).len()
    &&& (forall|j: int|
        0 <= j < planned_ok_rows(wb.sheets@, sheets_done).len() ==> {
            let pair = planned_ok_rows(wb.sheets@, sheets_done)[j];
            let t = #[trigger] new_store.transactions@[old_store.transactions@.len() + j];
            &&& (t.id matches Some(tid) && tid == old_store.transactions@.len() + j + 1)
            &&& (spec_sheet_account_id(wb.sheets@[pair.0]) matches Some(aid) && txn_fields_match(
                t,
                wb.sheets@[pair.0],
                pair.1,
                aid,
                manifest.sha256sum@,
            ))
        })
}

/// What one import run produced: the stored import record, the accounts
/// with their sheet bindings, how many transactions were persisted, and
/// which rows were skipped.
#[derive(Debug)]
pub struct ImportOutcome {
    pub import: Import,
    pub accounts: Vec<AccountBinding>,
    pub transactions_created: usize,
    pub rows_skipped: Vec<usize>,
}

/// Run one import end to end: validate the file against the manifest's
/// fingerprint, build and persist the import record, discover and persist
/// the accounts, then scan and persist every account's transactions.
///
/// The integrity check is a hard gate: on mismatch nothing is written.
/// Deduplication is natural: a file with an already-stored fingerprint is
/// rejected before any other write.  A failure after the import record is
/// written can leave a partial set of accounts and transactions, which is
/// a documented gap, not a guarantee.
/// One planned-sheet-empty lemma: when every resolved sheet's bad list is
/// empty, the whole plan has no bad rows.
pub proof fn lemma_planned_bad_empty(sheets: Seq<Sheet>, upto: int)
    requires
        forall|k: int|
            0 <= k < upto ==> sheet_bad_rows(
                sheets[#[trigger] resolved_sheets(sheets)[k]],
            ).len() == 0,
    ensures
        planned_bad_rows(sheets, upto).len() == 0,
    decreases upto,
{
    if upto > 0 {
        lemma_planned_bad_empty(sheets, upto - 1);
    }
}

#[verifier::rlimit(80)]
#[verifier::loop_isolation(false)]
pub fn run_import(
    manifest: &Manifest,
    contents: &Vec<u8>,
    filename: String,
    wb: &Workbook,
    store: &mut Store,
    policy: RowErrorPolicy,
) -> (r: Result<ImportOutcome, ImportError>)
    ensures
        r matches Err(ImportError::IntegrityMismatch { .. }) <==> sha256_hex_of(contents@)
            != manifest.sha256sum@,
        r matches Err(ImportError::IntegrityMismatch { .. }) ==> *final(store) == *old(store),
        r matches Err(ImportError::SummarySheetMissing) <==> (sha256_hex_of(contents@)
            == manifest.sha256sum@ && !has_sheet_named(*wb, "Summary"@)),
        r matches Err(ImportError::SummarySheetMissing) ==> *final(store) == *old(store),
        r matches Err(ImportError::ReportDateMissing) <==> (sha256_hex_of(contents@)
            == manifest.sha256sum@ && has_sheet_named(*wb, "Summary"@) && !spec_workbook_ok(*wb)),
        r matches Err(ImportError::ReportDateMissing) ==> *final(store) == *old(store),
        r matches Err(ImportError::DuplicateImport { .. }) <==> (sha256_hex_of(contents@)
            == manifest.sha256sum@ && spec_workbook_ok(*wb) && old(store).spec_has_import(
            manifest.sha256sum@,
        )),
        r matches Err(ImportError::DuplicateImport { id }) ==> id@ == manifest.sha256sum@
            && *final(store) == *old(store),
        r matches Err(ImportError::DuplicateAccountId { .. }) <==> (sha256_hex_of(contents@)
            == manifest.sha256sum@ && spec_workbook_ok(*wb) && !old(store).spec_has_import(
            manifest.sha256sum@,
        ) && has_duplicate_ids(wb.sheets@)),
        // Success is owed: with the gates passed, the run succeeds exactly
        // when no discovered account is already stored, every row that must
        // parse does, and the store can number the new rows.
        r is Ok <==> {
            &&& sha256_hex_of(contents@) == manifest.sha256sum@
            &&& spec_workbook_ok(*wb)
            &&& !old(store).spec_has_import(manifest.sha256sum@)
            &&& !has_duplicate_ids(wb.sheets@)
            &&& accounts_fresh(*old(store), wb.sheets@)
            &&& (policy is AbortOnRowError ==> planned_bad_rows(
                wb.sheets@,
                resolved_sheets(wb.sheets@).len() as int,
            ).len() == 0)
            &&& (planned_ok_rows(wb.sheets@, resolved_sheets(wb.sheets@).len() as int).len() == 0
                || old(store).transactions@.len() + planned_ok_rows(
                wb.sheets@,
                resolved_sheets(wb.sheets@).len() as int,
            ).len() <= 0x7fff_ffff)
        },
        r matches Ok(outcome) ==> {
            &&& outcome.import.id@ == manifest.sha256sum@
            &&& outcome.import.filename@ == filename@
            &&& outcome.import.platform_id@ == "vanguard_uk"@
            &&& exists|i: int|
                is_first_sheet_named(*wb, "Summary"@, i) && wb.sheets@[i].spec_cell(1, 0)
                    == Cell::DateTime(outcome.import.generation_date_unix_timestamp_seconds)
            &&& final(store).imports@ == old(store).imports@.push(outcome.import)
            &&& outcome.accounts@.len() == resolved_sheets(wb.sheets@).len()
            &&& forall|k: int| 0 <= k < outcome.accounts@.len() ==> {
                &&& (#[trigger] outcome.accounts@[k]).sheet_index == resolved_sheets(wb.sheets@)[k]
                &&& account_matches_sheet(
                    outcome.accounts@[k].account,
                    wb.sheets@[resolved_sheets(wb.sheets@)[k]],
                    *manifest,
                    outcome.import,
                )
            }
            &&& final(store).accounts@.len() == old(store).accounts@.len()
                + outcome.accounts@.len()
            &&& forall|k: int| 0 <= k < outcome.accounts@.len()
                ==> final(store).accounts@[old(store).accounts@.len() + k] == (
                #[trigger] outcome.accounts@[k]).account
            // The persisted transactions are exactly the scanned ones, one
            // insert per parsing row, in sheet order, with sequential ids.
            &&& spec_run_progress(
                *old(store),
                *final(store),
                *wb,
                *manifest,
                resolved_sheets(wb.sheets@).len() as int,
                resolved_sheets(wb.sheets@).len() as int,
            )
            &&& outcome.transactions_created == planned_ok_rows(
                wb.sheets@,
                resolved_sheets(wb.sheets@).len() as int,
            ).len()
            &&& outcome.rows_skipped@.len() == planned_bad_rows(
                wb.sheets@,
                resolved_sheets(wb.sheets@).len() as int,
            ).len()
            &&& forall|j: int| 0 <= j < outcome.rows_skipped@.len() ==> (
            #[trigger] outcome.rows_skipped@[j]) as int == planned_bad_rows(
                wb.sheets@,
                resolved_sheets(wb.sheets@).len() as int,
            )[j].1
        },
        // A row error names the first failing row of the first failing
        // sheet; everything before it stays inserted, nothing after it.
        r matches Err(ImportError::Row { row, error }) ==> (policy is AbortOnRowError && exists|
            k: int,
        |
            #![trigger resolved_sheets(wb.sheets@)[k]]
            {
                let s = wb.sheets@[resolved_sheets(wb.sheets@)[k]];
                &&& 0 <= k < resolved_sheets(wb.sheets@).len()
                &&& (forall|k2: int|
                    0 <= k2 < k ==> sheet_bad_rows(
                        wb.sheets@[#[trigger] resolved_sheets(wb.sheets@)[k2]],
                    ).len() == 0)
                &&& sheet_bad_rows(s).len() > 0
                &&& (spec_sentinel_row(s) matches Some(x) && x + 3 <= row < x + 3
                    + spec_table_count(s, x + 3) && (forall|rr: int|
                    x + 3 <= rr < row ==> spec_row_ok(s, rr)) && !spec_row_ok(s, row as int)
                    && error == spec_row_error(s, row as int))
                &&& spec_run_progress(*old(store), *final(store), *wb, *manifest, k + 1, k)
            }),
        r matches Err(ImportError::DuplicateAccount { id }) ==> (final(store).spec_has_account(id@)
            && exists|k: int|
            #![trigger resolved_sheets(wb.sheets@)[k]]
            0 <= k < resolved_sheets(wb.sheets@).len() && spec_run_progress(
                *old(store),
                *final(store),
                *wb,
                *manifest,
                k,
                k,
            )),
        r matches Err(ImportError::StoreFull) ==> (final(store).transactions@.len() >= 0x7fff_ffff
            && final(store).imports@.len() == old(store).imports@.len() + 1
            && final(store).imports@.last().id@ == manifest.sha256sum@),
        r matches Err(e) ==> (e matches ImportError::IntegrityMismatch { .. } || e
            is SummarySheetMissing || e is ReportDateMissing || e matches ImportError::DuplicateImport {
            ..
        } || e matches ImportError::DuplicateAccountId { .. } || e matches ImportError::DuplicateAccount {
            ..
        } || e matches ImportError::Row { .. } || e is StoreFull),
{
    if let Err(e) = manifest.validate(contents) {
        return Err(e);
    }
    let import = match create_import(manifest, filename, wb) {
        Ok(imp) => imp,
        Err(e) => {
            return Err(e);
        },
    };
    if let Err(e) = store.insert_import(import.clone()) {
        return Err(e);
    }
    let bindings = match create_accounts(wb, manifest, &import) {
        Ok(v) => v,
        Err(e) => {
            return Err(e);
        },
    };
    proof {
        lemma_resolved_sheets(wb.sheets@);
        assert forall|k: int| 0 <= k < bindings@.len() implies (#[trigger] bindings@[k]).sheet_index
            < wb.sheets@.len() by {
            assert(bindings@[k].sheet_index == resolved_sheets(wb.sheets@)[k]);
        }
    }
    let ghost store_after_import = *store;
    let base_acct_count = store.accounts.len();
    let base_txn_count = store.transactions.len();
    let mut rows_skipped: Vec<usize> = Vec::new();
    let mut b: usize = 0;
    while b < bindings.len()
        invariant
            b <= bindings@.len(),
            store.imports@ == store_after_import.imports@,
            store.accounts@.len() == base_acct_count + b,
            forall|idx: int| 0 <= idx < base_acct_count ==> store.accounts@[idx]
                == store_after_import.accounts@[idx],
            forall|k: int| 0 <= k < b ==> store.accounts@[base_acct_count + k] == (
            #[trigger] bindings@[k]).account,
            forall|idx: int| 0 <= idx < base_txn_count ==> store.transactions@[idx]
                == store_after_import.transactions@[idx],
            store.transactions@.len() == base_txn_count + planned_ok_rows(
                wb.sheets@,
                b as int,
            ).len(),
            store.transactions@.len() == base_txn_count || store.transactions@.len()
                <= 0x7fff_ffff,
            forall|j: int| 0 <= j < planned_ok_rows(wb.sheets@, b as int).len() ==> {
                let pair = planned_ok_rows(wb.sheets@, b as int)[j];
                let t = #[trigger] store.transactions@[base_txn_count + j];
                &&& (t.id matches Some(tid) && tid == base_txn_count + j + 1)
                &&& (spec_sheet_account_id(wb.sheets@[pair.0]) matches Some(aid)
                    && txn_fields_match(t, wb.sheets@[pair.0], pair.1, aid, manifest.sha256sum@))
            },
            rows_skipped@.len() == planned_bad_rows(wb.sheets@, b as int).len(),
            forall|j: int| 0 <= j < rows_skipped@.len() ==> (#[trigger] rows_skipped@[j]) as int
                == planned_bad_rows(wb.sheets@, b as int)[j].1,
            policy is AbortOnRowError ==> forall|k: int|
                0 <= k < b ==> sheet_bad_rows(
                    wb.sheets@[#[trigger] resolved_sheets(wb.sheets@)[k]],
                ).len() == 0,
            forall|k: int|
                0 <= k < b ==> !(spec_sheet_account_id(
                    wb.sheets@[#[trigger] resolved_sheets(wb.sheets@)[k]],
                ) matches Some(id) && store_after_import.spec_has_account(id)),
        decreases bindings@.len() - b,
    {
        let ghost store_at_b = *store;
        let binding = &bindings[b];
        match store.insert_account(binding.account.clone()) {
            Ok(()) => {},
            Err(e) => {
                proof {
                    let sheets = wb.sheets@;
                    let idx = choose|idx: int|
                        0 <= idx < store_at_b.accounts@.len() && store_at_b.accounts@[idx].id@
                            == binding.account.id@;
                    if idx >= base_acct_count {
                        let k2 = idx - base_acct_count;
                        assert(store_at_b.accounts@[idx] == bindings@[k2].account);
                        lemma_resolved_ids_distinct(sheets, k2, b as int);
                        assert(false);
                    }
                    assert(store_after_import.accounts@[idx].id@ == binding.account.id@);
                    assert(store_after_import.spec_has_account(binding.account.id@));
                    assert(!accounts_fresh(*old(store), wb.sheets@));
                    assert(store.imports@.last() == import);
                    assert(resolved_sheets(wb.sheets@)[b as int] == bindings@[b as int].sheet_index);
                    assert(base_acct_count == old(store).accounts@.len());
                    assert(base_txn_count == old(store).transactions@.len());
                    assert forall|k: int| 0 <= k < b implies account_matches_sheet(
                        #[trigger] store.accounts@[old(store).accounts@.len() + k],
                        wb.sheets@[resolved_sheets(wb.sheets@)[k]],
                        *manifest,
                        store.imports@.last(),
                    ) by {
                        assert(store.accounts@[base_acct_count + k] == bindings@[k as int].account);
                    }
                    assert(spec_run_progress(*old(store), *store, *wb, *manifest, b as int, b as int));
                }
                return Err(e);
            },
        }
        let sheet = &wb.sheets[binding.sheet_index];
        let scan = match create_transactions(sheet, &import, &binding.account, policy) {
            Ok(s) => s,
            Err(e) => {
                proof {
                    lemma_planned_prefix(wb.sheets@, bindings@.len() as int, b as int);
                    assert(store.imports@.last() == import);
                    assert(resolved_sheets(wb.sheets@)[b as int] == bindings@[b as int].sheet_index);
                    assert(store.accounts@[base_acct_count + b] == bindings@[b as int].account);
                    assert(base_acct_count == old(store).accounts@.len());
                    assert(base_txn_count == old(store).transactions@.len());
                    assert forall|k: int| 0 <= k < b + 1 implies account_matches_sheet(
                        #[trigger] store.accounts@[old(store).accounts@.len() + k],
                        wb.sheets@[resolved_sheets(wb.sheets@)[k]],
                        *manifest,
                        store.imports@.last(),
                    ) by {
                        assert(store.accounts@[base_acct_count + k] == bindings@[k as int].account);
                    }
                    assert(spec_run_progress(
                        *old(store),
                        *store,
                        *wb,
                        *manifest,
                        b + 1 as int,
                        b as int,
                    ));
                }
                return Err(e);
            },
        };
        let ghost pre_scan_store = *store;
        let mut t: usize = 0;
        while t < scan.transactions.len()
            invariant
                t <= scan.transactions@.len(),
                store.imports@ == store_after_import.imports@,
                store.accounts@ == pre_scan_store.accounts@,
                store.transactions@.len() == base_txn_count + planned_ok_rows(
                    wb.sheets@,
                    b as int,
                ).len() + t,
                store.transactions@.len() == base_txn_count || store.transactions@.len()
                    <= 0x7fff_ffff,
                forall|idx: int|
                    0 <= idx < base_txn_count + planned_ok_rows(wb.sheets@, b as int).len()
                        ==> store.transactions@[idx] == pre_scan_store.transactions@[idx],
                forall|j: int| 0 <= j < t ==> {
                    let tt = #[trigger] store.transactions@[base_txn_count + planned_ok_rows(
                        wb.sheets@,
                        b as int,
                    ).len() + j];
                    &&& (tt.id matches Some(tid) && tid == base_txn_count + planned_ok_rows(
                        wb.sheets@,
                        b as int,
                    ).len() + j + 1)
                    &&& (spec_sheet_account_id(wb.sheets@[binding.sheet_index as int])
                        matches Some(aid) && txn_fields_match(
                        tt,
                        wb.sheets@[binding.sheet_index as int],
                        sheet_ok_rows(wb.sheets@[binding.sheet_index as int])[j],
                        aid,
                        manifest.sha256sum@,
                    ))
                },
            decreases scan.transactions@.len() - t,
        {
            match store.insert_transaction(scan.transactions[t].clone()) {
                Ok(_) => {},
                Err(e) => {
                    proof {
                        lemma_planned_prefix(wb.sheets@, bindings@.len() as int, b as int);
                    }
                    return Err(e);
                },
            }
            t = t + 1;
        }
        let mut sk: usize = 0;
        while sk < scan.skipped_rows.len()
            invariant
                sk <= scan.skipped_rows@.len(),
                rows_skipped@.len() == planned_bad_rows(wb.sheets@, b as int).len() + sk,
                forall|j: int| 0 <= j < planned_bad_rows(wb.sheets@, b as int).len() ==> (
                #[trigger] rows_skipped@[j]) as int == planned_bad_rows(wb.sheets@, b as int)[j].1,
                forall|j: int|
                    0 <= j < sk ==> (#[trigger] rows_skipped@[planned_bad_rows(
                        wb.sheets@,
                        b as int,
                    ).len() + j]) as int == sheet_bad_rows(
                        wb.sheets@[binding.sheet_index as int],
                    )[j],
            decreases scan.skipped_rows@.len() - sk,
        {
            rows_skipped.push(scan.skipped_rows[sk]);
            sk = sk + 1;
        }
        proof {
            let sheets = wb.sheets@;
            let si = resolved_sheets(sheets)[b as int];
            assert(si == binding.sheet_index);
            let okmap = sheet_ok_rows(sheets[si]).map(|j: int, row: int| (si, row));
            let badmap = sheet_bad_rows(sheets[si]).map(|j: int, row: int| (si, row));
            assert(planned_ok_rows(sheets, b + 1 as int) == planned_ok_rows(sheets, b as int)
                + okmap);
            assert(planned_bad_rows(sheets, b + 1 as int) == planned_bad_rows(sheets, b as int)
                + badmap);
            let pb = planned_ok_rows(sheets, b as int).len() as int;
            assert(scan.transactions@.len() == sheet_ok_rows(sheets[si]).len());
            if policy is AbortOnRowError {
                assert(sheet_bad_rows(sheets[si]).len() == 0);
                assert(scan.skipped_rows@.len() == 0);
            } else {
                assert(scan.skipped_rows@.len() == sheet_bad_rows(sheets[si]).len());
            }
            assert forall|j: int| 0 <= j < planned_ok_rows(sheets, b + 1 as int).len() implies {
                let pair = planned_ok_rows(sheets, b + 1 as int)[j];
                let t = #[trigger] store.transactions@[base_txn_count + j];
                &&& (t.id matches Some(tid) && tid == base_txn_count + j + 1)
                &&& (spec_sheet_account_id(sheets[pair.0]) matches Some(aid) && txn_fields_match(
                    t,
                    sheets[pair.0],
                    pair.1,
                    aid,
                    manifest.sha256sum@,
                ))
            } by {
                if j < pb {
                    assert(planned_ok_rows(sheets, b + 1 as int)[j] == planned_ok_rows(
                        sheets,
                        b as int,
                    )[j]);
                    assert(store.transactions@[base_txn_count + j]
                        == pre_scan_store.transactions@[base_txn_count + j]);
                    assert(pre_scan_store.transactions@[base_txn_count + j]
                        == store_at_b.transactions@[base_txn_count + j]);
                } else {
                    let j2 = j - pb;
                    assert(planned_ok_rows(sheets, b + 1 as int)[j] == okmap[j2]);
                    assert(okmap[j2] == (si, sheet_ok_rows(sheets[si])[j2]));
                    assert(0 <= j2 < scan.transactions@.len());
                    assert(store.transactions@[base_txn_count + pb + j2].id matches Some(tid)
                        && tid == base_txn_count + pb + j2 + 1);
                }
            }
            let qb = planned_bad_rows(sheets, b as int).len() as int;
            assert forall|j: int| 0 <= j < rows_skipped@.len() implies (
                #[trigger] rows_skipped@[j]) as int == planned_bad_rows(sheets, b + 1 as int)[j].1
                by {
                if j < qb {
                    assert(planned_bad_rows(sheets, b + 1 as int)[j] == planned_bad_rows(
                        sheets,
                        b as int,
                    )[j]);
                } else {
                    let j2 = j - qb;
                    assert(planned_bad_rows(sheets, b + 1 as int)[j] == badmap[j2]);
                    assert(badmap[j2] == (si, sheet_bad_rows(sheets[si])[j2]));
                    assert((rows_skipped@[qb + j2]) as int == sheet_bad_rows(sheets[si])[j2]);
                }
            }
            assert(!store_at_b.spec_has_account(binding.account.id@));
            assert forall|idx: int|
                0 <= idx < store_after_import.accounts@.len()
                implies store_after_import.accounts@[idx].id@ != binding.account.id@ by {
                assert(store_at_b.accounts@[idx] == store_after_import.accounts@[idx]);
            }
        }
        b = b + 1;
    }
    proof {
        if policy is AbortOnRowError {
            lemma_planned_bad_empty(wb.sheets@, bindings@.len() as int);
        }
        assert(accounts_fresh(*old(store), wb.sheets@));
        assert(store.imports@.last() == import);
        assert(base_acct_count == old(store).accounts@.len());
        assert(base_txn_count == old(store).transactions@.len());
        assert forall|k: int| 0 <= k < bindings@.len() implies account_matches_sheet(
            #[trigger] store.accounts@[old(store).accounts@.len() + k],
            wb.sheets@[resolved_sheets(wb.sheets@)[k]],
            *manifest,
            store.imports@.last(),
        ) by {
            assert(store.accounts@[base_acct_count + k] == bindings@[k as int].account);
        }
        assert forall|j: int|
            0 <= j < planned_ok_rows(wb.sheets@, bindings@.len() as int).len() implies {
            let pair = planned_ok_rows(wb.sheets@, bindings@.len() as int)[j];
            let t = #[trigger] store.transactions@[old(store).transactions@.len() + j];
            &&& (t.id matches Some(tid) && tid == old(store).transactions@.len() + j + 1)
            &&& (spec_sheet_account_id(wb.sheets@[pair.0]) matches Some(aid) && txn_fields_match(
                t,
                wb.sheets@[pair.0],
                pair.1,
                aid,
                manifest.sha256sum@,
            ))
        } by {
            assert(store.transactions@[base_txn_count + j].id matches Some(tid) && tid
                == base_txn_count + j + 1);
        }
        assert(spec_run_progress(
            *old(store),
            *store,
            *wb,
            *manifest,
            resolved_sheets(wb.sheets@).len() as int,
            resolved_sheets(wb.sheets@).len() as int,
        ));
    }
    let transactions_created = store.transactions.len() - base_txn_count;
    Ok(ImportOutcome { import, accounts: bindings, transactions_created, rows_skipped })
}

} // verus!
