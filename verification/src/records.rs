use vstd::prelude::*;
use crate::manifest::AccountKind;

verus! {

/// One successfully validated import file.  Its id is the manifest
/// fingerprint, which makes re-imports of the same file collide naturally.
#[derive(Debug)]
pub struct Import {
    pub id: String,
    pub filename: String,
    pub platform_id: String,
    pub generation_date_unix_timestamp_seconds: i64,
}

/// One discovered account region.  `label` and `kind` stay unset until the
/// manifest's metadata overlay fills them.
#[derive(Debug)]
pub struct Account {
    pub id: String,
    pub platform_id: String,
    pub import_id: String,
    pub label: Option<String>,
    pub kind: Option<AccountKind>,
}

/// One parsed and reconciled transaction row.  Quantities and prices are
/// fixed-point, in millionths of a unit; the store-assigned id is absent
/// until the record is persisted.
#[derive(Debug)]
pub struct Transaction {
    pub id: Option<i32>,
    pub execution_time_unix_timestamp_seconds: i64,
    pub ticker_symbol: String,
    pub unit_quantity_micros: i64,
    pub cost_per_unit_micros: i64,
    pub currency_symbol: String,
    pub account_id: String,
    pub import_id: String,
}

impl Clone for Import {
    /// A field-for-field copy.
    fn clone(&self) -> (r: Self)
        ensures
            r == *self,
    {
        Import {
            id: self.id.clone(),
            filename: self.filename.clone(),
            platform_id: self.platform_id.clone(),
            generation_date_unix_timestamp_seconds: self.generation_date_unix_timestamp_seconds,
        }
    }
}

impl Clone for Account {
    /// A field-for-field copy.
    fn clone(&self) -> (r: Self)
        ensures
            r == *self,
    {
        Account {
            id: self.id.clone(),
            platform_id: self.platform_id.clone(),
            import_id: self.import_id.clone(),
            label: match &self.label {
                Some(l) => Some(l.clone()),
                None => None,
            },
            kind: self.kind,
        }
    }
}

impl Clone for Transaction {
    /// A field-for-field copy.
    fn clone(&self) -> (r: Self)
        ensures
            r == *self,
    {
        Transaction {
            id: self.id,
            execution_time_unix_timestamp_seconds: self.execution_time_unix_timestamp_seconds,
            ticker_symbol: self.ticker_symbol.clone(),
            unit_quantity_micros: self.unit_quantity_micros,
            cost_per_unit_micros: self.cost_per_unit_micros,
            currency_symbol: self.currency_symbol.clone(),
            account_id: self.account_id.clone(),
            import_id: self.import_id.clone(),
        }
    }
}

} // verus!

