use ledger_import::accounts::{create_accounts, resolve_account_id};
use ledger_import::cells::{Cell, Sheet, Workbook};
use ledger_import::engine::{create_transactions, run_import, RowErrorPolicy};
use ledger_import::errors::{ErrorKind, ImportError};
use ledger_import::manifest::{AccountKind, AccountMetadata, Manifest, Platform};
use ledger_import::records::{Account, Import};
use ledger_import::store::Store;

fn empty_manifest(fingerprint: &str) -> Manifest {
    Manifest {
        sha256sum: fingerprint.to_string(),
        platform: Platform::VanguardUK,
        accounts: vec![],
    }
}

fn test_import() -> Import {
    Import {
        id: "fingerprint".to_string(),
        filename: "file.Xls".to_string(),
        platform_id: "vanguard_uk".to_string(),
        generation_date_unix_timestamp_seconds: 1_700_000_000,
    }
}

fn summary_sheet() -> Sheet {
    Sheet {
        name: "Summary".to_string(),
        rows: vec![
            vec![Cell::Text("Report".to_string())],
            vec![Cell::DateTime(1_700_000_000)],
        ],
    }
}

fn txn_row(name: &str, quantity: i64, price: i64, cost: i64) -> Vec<Cell> {
    vec![
        Cell::DateTime(1_672_876_800),
        Cell::Text(name.to_string()),
        Cell::Empty,
        Cell::Number(quantity),
        Cell::Number(price),
        Cell::Number(cost),
    ]
}

// A sheet whose sentinel sits at row 10, with the given data rows starting
// at row 13 and a trailing summary row.
fn account_sheet(name: &str, data_rows: Vec<Vec<Cell>>) -> Sheet {
    let mut rows: Vec<Vec<Cell>> = Vec::new();
    for _ in 0..10 {
        rows.push(vec![Cell::Empty]);
    }
    rows.push(vec![Cell::Text("Investment Transactions".to_string())]);
    rows.push(vec![Cell::Text("Header".to_string())]);
    rows.push(vec![Cell::Text("Date".to_string())]);
    for row in data_rows {
        rows.push(row);
    }
    rows.push(vec![Cell::Text("Totals".to_string())]);
    Sheet { name: name.to_string(), rows }
}

#[test]
fn account_id_same_from_name_or_cell() {
    // Encoded in the sheet name.
    let named = Sheet { name: "Foo (VG123)".to_string(), rows: vec![] };
    assert_eq!(resolve_account_id(&named).unwrap(), "VG123");
    // Encoded in cell (0, 0) of a sheet whose name lacks the pattern.
    let celled = Sheet {
        name: "Sheet1".to_string(),
        rows: vec![vec![Cell::Text("Foo (VG123)".to_string())]],
    };
    assert_eq!(resolve_account_id(&celled).unwrap(), "VG123");
}

#[test]
fn account_id_sheet_name_wins_over_cell() {
    // When both sources are present and disagree, the sheet name is
    // trusted and the cell is never inspected.
    let sheet = Sheet {
        name: "Foo (VG1)".to_string(),
        rows: vec![vec![Cell::Text("Bar (VG2)".to_string())]],
    };
    assert_eq!(resolve_account_id(&sheet).unwrap(), "VG1");
}

#[test]
fn unmatched_sheet_is_skipped() {
    let sheet = Sheet {
        name: "Notes".to_string(),
        rows: vec![vec![Cell::Number(5)]],
    };
    assert!(resolve_account_id(&sheet).is_none());
}

#[test]
fn create_accounts_applies_metadata_overlay() {
    let wb = Workbook {
        sheets: vec![summary_sheet(), account_sheet("Main (VG1)", vec![])],
    };
    let manifest = Manifest {
        sha256sum: "f00d".to_string(),
        platform: Platform::VanguardUK,
        accounts: vec![
            AccountMetadata {
                id: "VG1".to_string(),
                label: "First".to_string(),
                kind: AccountKind::ISA,
            },
            AccountMetadata {
                id: "VG1".to_string(),
                label: "Second".to_string(),
                kind: AccountKind::GeneralInvestmentAccount,
            },
        ],
    };
    let bindings = create_accounts(&wb, &manifest, &test_import()).unwrap();
    assert_eq!(bindings.len(), 1);
    assert_eq!(bindings[0].sheet_index, 1);
    let account = &bindings[0].account;
    assert_eq!(account.id, "VG1");
    assert_eq!(account.platform_id, "vanguard_uk");
    assert_eq!(account.import_id, "fingerprint");
    // The later matching entry wins.
    assert_eq!(account.label.as_deref(), Some("Second"));
    assert_eq!(account.kind, Some(AccountKind::GeneralInvestmentAccount));
}

#[test]
fn create_accounts_rejects_duplicate_ids() {
    let wb = Workbook {
        sheets: vec![
            summary_sheet(),
            account_sheet("Main (VG1)", vec![]),
            account_sheet("Other (VG1)", vec![]),
        ],
    };
    let err = create_accounts(&wb, &empty_manifest("f00d"), &test_import()).unwrap_err();
    match err {
        ImportError::DuplicateAccountId { id } => assert_eq!(id, "VG1"),
        other => panic!("expected a duplicate account id, got {:?}", other),
    }
}

#[test]
fn abort_policy_stops_on_first_bad_row() {
    let sheet = account_sheet(
        "Main (VG1)",
        vec![
            txn_row("Good Co (G)", 1_000_000, 2_000_000, 2_000_000),
            txn_row("Bad Co", 1_000_000, 2_000_000, 2_000_000),
        ],
    );
    let account = Account {
        id: "VG1".to_string(),
        platform_id: "vanguard_uk".to_string(),
        import_id: "fingerprint".to_string(),
        label: None,
        kind: None,
    };
    let err = create_transactions(&sheet, &test_import(), &account, RowErrorPolicy::AbortOnRowError)
        .unwrap_err();
    match err {
        ImportError::Row { row, error } => {
            assert_eq!(row, 14);
            assert_eq!(error, ledger_import::errors::RowError::TickerMissing);
            assert_eq!(ImportError::Row { row, error }.kind(), ErrorKind::Data);
        }
        other => panic!("expected a row error, got {:?}", other),
    }
}

#[test]
fn skip_policy_reports_and_continues() {
    let sheet = account_sheet(
        "Main (VG1)",
        vec![
            txn_row("Good Co (G)", 1_000_000, 2_000_000, 2_000_000),
            txn_row("Bad Co", 1_000_000, 2_000_000, 2_000_000),
            txn_row("Fine Co (F)", 2_000_000, 2_000_000, 4_000_000),
        ],
    );
    let account = Account {
        id: "VG1".to_string(),
        platform_id: "vanguard_uk".to_string(),
        import_id: "fingerprint".to_string(),
        label: None,
        kind: None,
    };
    let scan = create_transactions(&sheet, &test_import(), &account, RowErrorPolicy::SkipAndReport)
        .unwrap();
    assert_eq!(scan.transactions.len(), 2);
    assert_eq!(scan.transactions[0].ticker_symbol, "G");
    assert_eq!(scan.transactions[1].ticker_symbol, "F");
    assert_eq!(scan.skipped_rows, vec![14]);
}

#[test]
fn run_import_end_to_end() {
    let contents: Vec<u8> = b"workbook bytes".to_vec();
    let manifest = empty_manifest(&sha256::digest(&contents));
    let wb = Workbook {
        sheets: vec![
            summary_sheet(),
            account_sheet(
                "Main (VG999)",
                vec![txn_row("Example Co (EX)", 2_000_000, 3_000_000, 6_000_000)],
            ),
        ],
    };
    let mut store = Store::new();
    let outcome = run_import(
        &manifest,
        &contents,
        "main.Xls".to_string(),
        &wb,
        &mut store,
        RowErrorPolicy::AbortOnRowError,
    )
    .unwrap();
    assert_eq!(outcome.import.id, manifest.sha256sum);
    assert_eq!(outcome.import.platform_id, "vanguard_uk");
    assert_eq!(outcome.import.generation_date_unix_timestamp_seconds, 1_700_000_000);
    assert_eq!(outcome.accounts.len(), 1);
    assert_eq!(outcome.transactions_created, 1);
    assert_eq!(outcome.rows_skipped.len(), 0);
    assert_eq!(store.imports.len(), 1);
    assert_eq!(store.accounts.len(), 1);
    assert_eq!(store.accounts[0].id, "VG999");
    assert_eq!(store.transactions.len(), 1);
    let t = &store.transactions[0];
    assert_eq!(t.id, Some(1));
    assert_eq!(t.ticker_symbol, "EX");
    assert_eq!(t.unit_quantity_micros, 2_000_000);
    assert_eq!(t.cost_per_unit_micros, 3_000_000);
    assert_eq!(t.currency_symbol, "GBP");
    assert_eq!(t.account_id, "VG999");
}

#[test]
fn run_import_rejects_integrity_mismatch_before_any_write() {
    let contents: Vec<u8> = b"workbook bytes".to_vec();
    let manifest = empty_manifest("0000000000000000000000000000000000000000000000000000000000000000");
    let wb = Workbook { sheets: vec![summary_sheet()] };
    let mut store = Store::new();
    let err = run_import(
        &manifest,
        &contents,
        "main.Xls".to_string(),
        &wb,
        &mut store,
        RowErrorPolicy::AbortOnRowError,
    )
    .unwrap_err();
    assert!(matches!(err, ImportError::IntegrityMismatch { .. }));
    assert_eq!(store.imports.len(), 0);
    assert_eq!(store.accounts.len(), 0);
    assert_eq!(store.transactions.len(), 0);
}

#[test]
fn reimport_with_identical_fingerprint_is_rejected() {
    let contents: Vec<u8> = b"workbook bytes".to_vec();
    let manifest = empty_manifest(&sha256::digest(&contents));
    let wb = Workbook {
        sheets: vec![summary_sheet(), account_sheet("Main (VG999)", vec![])],
    };
    let mut store = Store::new();
    run_import(
        &manifest,
        &contents,
        "main.Xls".to_string(),
        &wb,
        &mut store,
        RowErrorPolicy::AbortOnRowError,
    )
    .unwrap();
    let err = run_import(
        &manifest,
        &contents,
        "main.Xls".to_string(),
        &wb,
        &mut store,
        RowErrorPolicy::AbortOnRowError,
    )
    .unwrap_err();
    match err {
        ImportError::DuplicateImport { id } => {
            assert_eq!(id, manifest.sha256sum);
            assert_eq!(ImportError::DuplicateImport { id }.kind(), ErrorKind::Persistence);
        }
        other => panic!("expected a duplicate import, got {:?}", other),
    }
    // Nothing further was written by the rejected run.
    assert_eq!(store.imports.len(), 1);
    assert_eq!(store.accounts.len(), 1);
}

#[test]
fn account_id_clash_across_imports_is_rejected_at_persistence() {
    let first: Vec<u8> = b"first file".to_vec();
    let second: Vec<u8> = b"second file".to_vec();
    let wb = Workbook {
        sheets: vec![summary_sheet(), account_sheet("Main (VG1)", vec![])],
    };
    let mut store = Store::new();
    run_import(
        &empty_manifest(&sha256::digest(&first)),
        &first,
        "a.Xls".to_string(),
        &wb,
        &mut store,
        RowErrorPolicy::AbortOnRowError,
    )
    .unwrap();
    let err = run_import(
        &empty_manifest(&sha256::digest(&second)),
        &second,
        "b.Xls".to_string(),
        &wb,
        &mut store,
        RowErrorPolicy::AbortOnRowError,
    )
    .unwrap_err();
    assert!(matches!(err, ImportError::DuplicateAccount { .. }));
}

#[test]
fn run_import_requires_summary_sheet() {
    let contents: Vec<u8> = b"workbook bytes".to_vec();
    let manifest = empty_manifest(&sha256::digest(&contents));
    let wb = Workbook { sheets: vec![account_sheet("Main (VG1)", vec![])] };
    let mut store = Store::new();
    let err = run_import(
        &manifest,
        &contents,
        "main.Xls".to_string(),
        &wb,
        &mut store,
        RowErrorPolicy::AbortOnRowError,
    )
    .unwrap_err();
    assert!(matches!(err, ImportError::SummarySheetMissing));
    assert_eq!(store.imports.len(), 0);
}

#[test]
fn run_import_requires_report_date() {
    let contents: Vec<u8> = b"workbook bytes".to_vec();
    let manifest = empty_manifest(&sha256::digest(&contents));
    let wb = Workbook {
        sheets: vec![Sheet {
            name: "Summary".to_string(),
            rows: vec![vec![Cell::Text("Report".to_string())], vec![Cell::Text("no date".to_string())]],
        }],
    };
    let mut store = Store::new();
    let err = run_import(
        &manifest,
        &contents,
        "main.Xls".to_string(),
        &wb,
        &mut store,
        RowErrorPolicy::AbortOnRowError,
    )
    .unwrap_err();
    assert!(matches!(err, ImportError::ReportDateMissing));
    assert_eq!(store.imports.len(), 0);
}

#[test]
fn sheet_without_table_yields_no_transactions() {
    let contents: Vec<u8> = b"workbook bytes".to_vec();
    let manifest = empty_manifest(&sha256::digest(&contents));
    let wb = Workbook {
        sheets: vec![
            summary_sheet(),
            Sheet {
                name: "Main (VG1)".to_string(),
                rows: vec![vec![Cell::Text("Cash Transactions".to_string())]],
            },
        ],
    };
    let mut store = Store::new();
    let outcome = run_import(
        &manifest,
        &contents,
        "main.Xls".to_string(),
        &wb,
        &mut store,
        RowErrorPolicy::AbortOnRowError,
    )
    .unwrap();
    assert_eq!(outcome.accounts.len(), 1);
    assert_eq!(outcome.transactions_created, 0);
    assert_eq!(store.transactions.len(), 0);
}

#[test]
fn metadata_overlay_applies_only_on_matching_id() {
    let meta = AccountMetadata {
        id: "VG1".to_string(),
        label: "Savings".to_string(),
        kind: AccountKind::ISA,
    };
    let mut matching = Account {
        id: "VG1".to_string(),
        platform_id: "vanguard_uk".to_string(),
        import_id: "f".to_string(),
        label: None,
        kind: None,
    };
    let mut other = Account {
        id: "VG2".to_string(),
        platform_id: "vanguard_uk".to_string(),
        import_id: "f".to_string(),
        label: None,
        kind: None,
    };
    assert!(meta.matches(&matching));
    assert!(!meta.matches(&other));
    meta.apply(&mut matching);
    meta.apply(&mut other);
    assert_eq!(matching.label.as_deref(), Some("Savings"));
    assert_eq!(matching.kind, Some(AccountKind::ISA));
    assert_eq!(other.label, None);
    assert_eq!(other.kind, None);
}

#[test]
fn run_import_applies_manifest_overlay() {
    let contents: Vec<u8> = b"overlay workbook".to_vec();
    let manifest = Manifest {
        sha256sum: sha256::digest(&contents),
        platform: Platform::VanguardUK,
        accounts: vec![AccountMetadata {
            id: "VG999".to_string(),
            label: "Main ISA".to_string(),
            kind: AccountKind::ISA,
        }],
    };
    let wb = Workbook {
        sheets: vec![summary_sheet(), account_sheet("Main (VG999)", vec![])],
    };
    let mut store = Store::new();
    run_import(
        &manifest,
        &contents,
        "main.Xls".to_string(),
        &wb,
        &mut store,
        RowErrorPolicy::AbortOnRowError,
    )
    .unwrap();
    assert_eq!(store.accounts[0].label.as_deref(), Some("Main ISA"));
    assert_eq!(store.accounts[0].kind, Some(AccountKind::ISA));
}

#[test]
fn accounts_without_overlay_stay_unlabelled() {
    let contents: Vec<u8> = b"plain workbook".to_vec();
    let manifest = empty_manifest(&sha256::digest(&contents));
    let wb = Workbook {
        sheets: vec![summary_sheet(), account_sheet("Main (VG42)", vec![])],
    };
    let mut store = Store::new();
    run_import(
        &manifest,
        &contents,
        "main.Xls".to_string(),
        &wb,
        &mut store,
        RowErrorPolicy::AbortOnRowError,
    )
    .unwrap();
    assert_eq!(store.accounts[0].label, None);
    assert_eq!(store.accounts[0].kind, None);
}

#[test]
fn persisted_transactions_keep_row_order_and_sequential_ids() {
    let contents: Vec<u8> = b"two row workbook".to_vec();
    let manifest = empty_manifest(&sha256::digest(&contents));
    let wb = Workbook {
        sheets: vec![
            summary_sheet(),
            account_sheet(
                "Main (VG7)",
                vec![
                    txn_row("First Co (AA)", 1_000_000, 2_000_000, 2_000_000),
                    txn_row("Second Co (BB)", 3_000_000, 2_000_000, 6_000_000),
                ],
            ),
        ],
    };
    let mut store = Store::new();
    let outcome = run_import(
        &manifest,
        &contents,
        "main.Xls".to_string(),
        &wb,
        &mut store,
        RowErrorPolicy::AbortOnRowError,
    )
    .unwrap();
    assert_eq!(outcome.transactions_created, 2);
    assert_eq!(store.transactions.len(), 2);
    assert_eq!(store.transactions[0].id, Some(1));
    assert_eq!(store.transactions[0].ticker_symbol, "AA");
    assert_eq!(store.transactions[1].id, Some(2));
    assert_eq!(store.transactions[1].ticker_symbol, "BB");
}
