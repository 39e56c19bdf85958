use ledger_import::cells::{Cell, Sheet};
use ledger_import::errors::{ErrorKind, ImportError, RowError};
use ledger_import::integrity::validate_integrity;
use ledger_import::manifest::{AccountKind, Manifest, Platform, RawAccountMetadata, RawManifest};
use ledger_import::records::{Account, Import};
use ledger_import::rows::parse_row;
use ledger_import::scanner::{find_sentinel, scan_transaction_rows};
use ledger_import::text::{extract_account_id, extract_ticker_symbol};

fn sheet_with_rows(name: &str, rows: Vec<Vec<Cell>>) -> Sheet {
    Sheet { name: name.to_string(), rows }
}

fn test_import() -> Import {
    Import {
        id: "fingerprint".to_string(),
        filename: "file.Xls".to_string(),
        platform_id: "vanguard_uk".to_string(),
        generation_date_unix_timestamp_seconds: 1_700_000_000,
    }
}

fn test_account() -> Account {
    Account {
        id: "VG999".to_string(),
        platform_id: "vanguard_uk".to_string(),
        import_id: "fingerprint".to_string(),
        label: None,
        kind: None,
    }
}

fn txn_row(quantity: i64, price: i64, cost: i64) -> Vec<Cell> {
    vec![
        Cell::DateTime(1_672_876_800),
        Cell::Text("Example Co (EX)".to_string()),
        Cell::Empty,
        Cell::Number(quantity),
        Cell::Number(price),
        Cell::Number(cost),
    ]
}

#[test]
fn integrity_accepts_matching_fingerprint() {
    let contents: Vec<u8> = b"abc".to_vec();
    let declared = "ba7816bf8f01cfea414140de5dae2223b00361a396177a9cb410ff61f20015ad".to_string();
    assert!(validate_integrity(&contents, &declared).is_ok());
}

#[test]
fn integrity_rejects_single_byte_mutation() {
    let declared = "ba7816bf8f01cfea414140de5dae2223b00361a396177a9cb410ff61f20015ad".to_string();
    let mutated: Vec<u8> = b"abd".to_vec();
    let result = validate_integrity(&mutated, &declared);
    match result {
        Err(ImportError::IntegrityMismatch { computed, declared: d }) => {
            assert_eq!(computed, sha256::digest(&mutated));
            assert_ne!(computed, d);
            assert_eq!(d, declared);
        }
        other => panic!("expected an integrity mismatch, got {:?}", other),
    }
}

#[test]
fn integrity_error_is_integrity_kind() {
    let declared = "00".to_string();
    let err = validate_integrity(&b"xyz".to_vec(), &declared).unwrap_err();
    assert_eq!(err.kind(), ErrorKind::Integrity);
}

#[test]
fn platform_round_trip() {
    assert_eq!(Platform::from_id("vanguard_uk"), Some(Platform::VanguardUK));
    assert_eq!(Platform::from_id("fidelity"), None);
    assert_eq!(Platform::VanguardUK.id(), "vanguard_uk");
    assert_eq!(Platform::VanguardUK.file_extension(), "Xls");
}

#[test]
fn account_kind_round_trip() {
    assert_eq!(AccountKind::from_id("isa"), Some(AccountKind::ISA));
    assert_eq!(AccountKind::from_id("gia"), Some(AccountKind::GeneralInvestmentAccount));
    assert_eq!(AccountKind::from_id("sipp"), None);
    assert_eq!(AccountKind::ISA.id(), "isa");
    assert_eq!(AccountKind::GeneralInvestmentAccount.id(), "gia");
}

#[test]
fn manifest_rejects_unknown_platform() {
    let raw = RawManifest {
        sha256sum: "00".to_string(),
        platform: "fidelity".to_string(),
        accounts: vec![],
    };
    let err = Manifest::from_raw(&raw).unwrap_err();
    assert!(matches!(err, ImportError::UnknownPlatform { .. }));
    assert_eq!(err.kind(), ErrorKind::Structure);
}

#[test]
fn manifest_rejects_unknown_account_kind() {
    let raw = RawManifest {
        sha256sum: "00".to_string(),
        platform: "vanguard_uk".to_string(),
        accounts: vec![RawAccountMetadata {
            id: "VG1".to_string(),
            label: "Pension".to_string(),
            kind: "sipp".to_string(),
        }],
    };
    let err = Manifest::from_raw(&raw).unwrap_err();
    match err {
        ImportError::UnknownAccountKind { kind } => assert_eq!(kind, "sipp"),
        other => panic!("expected an unknown account kind, got {:?}", other),
    }
}

#[test]
fn manifest_from_raw_keeps_fields() {
    let raw = RawManifest {
        sha256sum: "f00d".to_string(),
        platform: "vanguard_uk".to_string(),
        accounts: vec![RawAccountMetadata {
            id: "VG1".to_string(),
            label: "Savings".to_string(),
            kind: "isa".to_string(),
        }],
    };
    let manifest = Manifest::from_raw(&raw).unwrap();
    assert_eq!(manifest.sha256sum, "f00d");
    assert_eq!(manifest.platform, Platform::VanguardUK);
    assert_eq!(manifest.accounts.len(), 1);
    assert_eq!(manifest.accounts[0].id, "VG1");
    assert_eq!(manifest.accounts[0].label, "Savings");
    assert_eq!(manifest.accounts[0].kind, AccountKind::ISA);
}

#[test]
fn ticker_extracted_from_suffix() {
    let t = extract_ticker_symbol("Vodafone Group Plc (VOD)").unwrap();
    assert_eq!(t, "VOD");
}

#[test]
fn ticker_missing_without_suffix() {
    assert!(extract_ticker_symbol("Vodafone Group Plc").is_none());
    assert!(extract_ticker_symbol("Lowercase (vod)").is_none());
    assert!(extract_ticker_symbol("NoSpace(VOD)").is_none());
    assert!(extract_ticker_symbol("Empty ()").is_none());
}

#[test]
fn ticker_takes_last_parenthesised_group() {
    let t = extract_ticker_symbol("Alpha (B) Fund (CD)").unwrap();
    assert_eq!(t, "CD");
}

#[test]
fn account_id_from_text() {
    assert_eq!(extract_account_id("Foo (VG123)").unwrap(), "VG123");
    assert_eq!(extract_account_id("My ISA (VG1)").unwrap(), "VG1");
    assert!(extract_account_id("Summary").is_none());
    assert!(extract_account_id("Foo (AB123)").is_none());
}

#[test]
fn sentinel_found_at_first_match() {
    let mut rows: Vec<Vec<Cell>> = Vec::new();
    for _ in 0..10 {
        rows.push(vec![Cell::Empty]);
    }
    rows.push(vec![Cell::Text("Investment Transactions".to_string())]);
    let sheet = sheet_with_rows("Main (VG1)", rows);
    assert_eq!(find_sentinel(&sheet), Some(10));
}

#[test]
fn scanner_without_sentinel_is_empty_not_error() {
    let sheet = sheet_with_rows(
        "Main (VG1)",
        vec![vec![Cell::Text("Cash Transactions".to_string())], vec![Cell::Number(1_000_000)]],
    );
    let rows = scan_transaction_rows(&sheet);
    assert_eq!(rows.len(), 0);
}

#[test]
fn scanner_table_starts_three_rows_below_sentinel() {
    let mut rows: Vec<Vec<Cell>> = Vec::new();
    for _ in 0..10 {
        rows.push(vec![Cell::Empty]);
    }
    // Sentinel at row 10, two header rows, data at rows 13 and 14, then a
    // summary row at 15 whose successor is blank.
    rows.push(vec![Cell::Text("Investment Transactions".to_string())]);
    rows.push(vec![Cell::Text("Header".to_string())]);
    rows.push(vec![Cell::Text("Date".to_string())]);
    rows.push(txn_row(1_000_000, 2_000_000, 2_000_000));
    rows.push(txn_row(3_000_000, 2_000_000, 6_000_000));
    rows.push(vec![Cell::Text("Totals".to_string())]);
    let sheet = sheet_with_rows("Main (VG1)", rows);
    let found = scan_transaction_rows(&sheet);
    assert_eq!(found, vec![13, 14]);
}

#[test]
fn row_parses_into_transaction() {
    let sheet = sheet_with_rows("Main (VG999)", vec![txn_row(2_000_000, 3_000_000, 6_000_000)]);
    let t = parse_row(&sheet, 0, &test_import(), &test_account()).unwrap();
    assert_eq!(t.id, None);
    assert_eq!(t.execution_time_unix_timestamp_seconds, 1_672_876_800);
    assert_eq!(t.ticker_symbol, "EX");
    assert_eq!(t.unit_quantity_micros, 2_000_000);
    assert_eq!(t.cost_per_unit_micros, 3_000_000);
    assert_eq!(t.currency_symbol, "GBP");
    assert_eq!(t.account_id, "VG999");
    assert_eq!(t.import_id, "fingerprint");
}

#[test]
fn row_rejected_when_cost_deviates_beyond_tolerance() {
    // quantity 10, price 5.00, declared cost 50.01: deviation 0.01.
    let sheet = sheet_with_rows("Main (VG999)", vec![txn_row(10_000_000, 5_000_000, 50_010_000)]);
    let err = parse_row(&sheet, 0, &test_import(), &test_account()).unwrap_err();
    assert_eq!(err, RowError::CostMismatch);
    assert!(!err.is_structural());
}

#[test]
fn row_accepted_when_cost_deviates_within_tolerance() {
    // quantity 10, price 5.00, declared cost 50.0001: within tolerance.
    let sheet = sheet_with_rows("Main (VG999)", vec![txn_row(10_000_000, 5_000_000, 50_000_100)]);
    let t = parse_row(&sheet, 0, &test_import(), &test_account()).unwrap();
    assert_eq!(t.unit_quantity_micros, 10_000_000);
}

#[test]
fn row_rejected_without_date() {
    let mut row = txn_row(1_000_000, 1_000_000, 1_000_000);
    row[0] = Cell::Text("not a date".to_string());
    let sheet = sheet_with_rows("Main (VG999)", vec![row]);
    let err = parse_row(&sheet, 0, &test_import(), &test_account()).unwrap_err();
    assert_eq!(err, RowError::DateMissing);
    assert!(err.is_structural());
}

#[test]
fn row_rejected_without_ticker_suffix() {
    let mut row = txn_row(1_000_000, 1_000_000, 1_000_000);
    row[1] = Cell::Text("Vodafone Group Plc".to_string());
    let sheet = sheet_with_rows("Main (VG999)", vec![row]);
    let err = parse_row(&sheet, 0, &test_import(), &test_account()).unwrap_err();
    assert_eq!(err, RowError::TickerMissing);
}

#[test]
fn row_rejected_with_non_numeric_quantity() {
    let mut row = txn_row(1_000_000, 1_000_000, 1_000_000);
    row[3] = Cell::Text("two".to_string());
    let sheet = sheet_with_rows("Main (VG999)", vec![row]);
    let err = parse_row(&sheet, 0, &test_import(), &test_account()).unwrap_err();
    assert_eq!(err, RowError::QuantityMissing);
}

#[test]
fn row_rejected_when_column_absent() {
    let sheet = sheet_with_rows("Main (VG999)", vec![vec![Cell::DateTime(0)]]);
    let err = parse_row(&sheet, 0, &test_import(), &test_account()).unwrap_err();
    assert_eq!(err, RowError::NameMissing);
}
