use vstd::prelude::*;

verus! {

/// What a transaction row can be rejected for.  The first five variants are
/// structural (the expected cell variant is absent); the last two are data
/// errors (a well-formed cell whose content is semantically invalid).
#[derive(Clone, Copy, Debug, PartialEq, Eq, Structural)]
pub enum RowError {
    /// Column A is not a date/time cell.
    DateMissing,
    /// Column B is not a text cell.
    NameMissing,
    /// Column D is not a numeric cell.
    QuantityMissing,
    /// Column E is not a numeric cell.
    PriceMissing,
    /// Column F is not a numeric cell.
    CostMissing,
    /// Column B does not end in a parenthesised ticker suffix.
    TickerMissing,
    /// Declared cost deviates from price times quantity beyond tolerance.
    CostMismatch,
}

impl RowError {
    /// Structural errors mean the table shape is wrong; data errors mean a
    /// cell parsed but its content is invalid.
    pub open spec fn spec_is_structural(&self) -> bool {
        !(*self is TickerMissing || *self is CostMismatch)
    }

    /// Whether this error is structural rather than a data error.
    pub fn is_structural(&self) -> (r: bool)
        ensures
            r == self.spec_is_structural(),
    {
        match self {
            RowError::TickerMissing => false,
            RowError::CostMismatch => false,
            _ => true,
        }
    }
}

/// Everything that can stop an import.
#[derive(Debug)]
pub enum ImportError {
    /// The file's recomputed fingerprint differs from the declared one.
    IntegrityMismatch { computed: String, declared: String },
    /// The descriptor names a platform this engine does not know.
    UnknownPlatform { tag: String },
    /// The descriptor names an account kind this engine does not know.
    UnknownAccountKind { kind: String },
    /// The workbook has no sheet named "Summary".
    SummarySheetMissing,
    /// The summary sheet's fixed date cell is not a date/time value.
    ReportDateMissing,
    /// Two sheets of one workbook resolved to the same account id.
    DuplicateAccountId { id: String },
    /// A transaction row was rejected; the row index is absolute.
    Row { row: usize, error: RowError },
    /// The store already holds an import with this id.
    DuplicateImport { id: String },
    /// The store already holds an account with this id.
    DuplicateAccount { id: String },
    /// The store cannot assign any more transaction ids.
    StoreFull,
}

/// The error taxonomy: which stage of the import an error belongs to.
#[derive(Clone, Copy, Debug, PartialEq, Eq, Structural)]
pub enum ErrorKind {
    Integrity,
    Structure,
    Data,
    Persistence,
}

impl ImportError {
    pub open spec fn spec_kind(&self) -> ErrorKind {
        match self {
            ImportError::IntegrityMismatch { .. } => ErrorKind::Integrity,
            ImportError::UnknownPlatform { .. } => ErrorKind::Structure,
            ImportError::UnknownAccountKind { .. } => ErrorKind::Structure,
            ImportError::SummarySheetMissing => ErrorKind::Structure,
            ImportError::ReportDateMissing => ErrorKind::Structure,
            ImportError::DuplicateAccountId { .. } => ErrorKind::Structure,
            ImportError::Row { row: _, error } => if error.spec_is_structural() {
                ErrorKind::Structure
            } else {
                ErrorKind::Data
            },
            ImportError::DuplicateImport { .. } => ErrorKind::Persistence,
            ImportError::DuplicateAccount { .. } => ErrorKind::Persistence,
            ImportError::StoreFull => ErrorKind::Persistence,
        }
    }

    /// Classify this error within the import taxonomy.
    pub fn kind(&self) -> (r: ErrorKind)
        ensures
            r == self.spec_kind(),
    {
        match self {
            ImportError::IntegrityMismatch { .. } => ErrorKind::Integrity,
            ImportError::UnknownPlatform { .. } => ErrorKind::Structure,
            ImportError::UnknownAccountKind { .. } => ErrorKind::Structure,
            ImportError::SummarySheetMissing => ErrorKind::Structure,
            ImportError::ReportDateMissing => ErrorKind::Structure,
            ImportError::DuplicateAccountId { .. } => ErrorKind::Structure,
            ImportError::Row { row: _, error } => if error.is_structural() {
                ErrorKind::Structure
            } else {
                ErrorKind::Data
            },
            ImportError::DuplicateImport { .. } => ErrorKind::Persistence,
            ImportError::DuplicateAccount { .. } => ErrorKind::Persistence,
            ImportError::StoreFull => ErrorKind::Persistence,
        }
    }
}

} // verus!
