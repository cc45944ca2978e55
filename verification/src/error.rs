//! The error kinds that the store and the envelope report.

use vstd::prelude::*;

verus! {

/// Why a record was rejected at the boundary of the store.
#[derive(Debug, Clone, Copy, PartialEq, Eq, Structural)]
pub enum InvalidRecord {
    /// The record does not fit the schema.
    SchemaViolation,
    /// The record's id is already taken.
    IdNotUnique,
    /// Another visible record agrees with it on every deduplication field.
    Duplicate,
}

/// The kinds of failure. `NoSuchRecord` carries the id that was asked for.
#[derive(Debug, Clone)]
pub enum ErrorKind {
    IllegalState,
    NoSuchRecord(String),
    InvalidRecord(InvalidRecord),
    CausalityViolation,
    CryptoFailure,
    HmacMismatch,
    SchemaMismatch,
    DbCorruption,
    StorageFailure,
}

/// An error kind with strings replaced by their character sequences.
pub enum ErrorView {
    IllegalState,
    NoSuchRecord(Seq<char>),
    InvalidRecord(InvalidRecord),
    CausalityViolation,
    CryptoFailure,
    HmacMismatch,
    SchemaMismatch,
    DbCorruption,
    StorageFailure,
}

impl View for ErrorKind {
    type V = ErrorView;

    open spec fn view(&self) -> ErrorView {
        match self {
            ErrorKind::IllegalState => ErrorView::IllegalState,
            ErrorKind::NoSuchRecord(id) => ErrorView::NoSuchRecord(id@),
            ErrorKind::InvalidRecord(why) => ErrorView::InvalidRecord(*why),
            ErrorKind::CausalityViolation => ErrorView::CausalityViolation,
            ErrorKind::CryptoFailure => ErrorView::CryptoFailure,
            ErrorKind::HmacMismatch => ErrorView::HmacMismatch,
            ErrorKind::SchemaMismatch => ErrorView::SchemaMismatch,
            ErrorKind::DbCorruption => ErrorView::DbCorruption,
            ErrorKind::StorageFailure => ErrorView::StorageFailure,
        }
    }
}

impl ErrorKind {
    /// A short name for the kind, for messages.
    pub fn name(&self) -> (r: &'static str)
        ensures
            r@ == error_name(self@),
    {
        match self {
            ErrorKind::IllegalState => "IllegalState",
            ErrorKind::NoSuchRecord(_) => "NoSuchRecord",
            ErrorKind::InvalidRecord(InvalidRecord::SchemaViolation) => "InvalidRecord::SchemaViolation",
            ErrorKind::InvalidRecord(InvalidRecord::IdNotUnique) => "InvalidRecord::IdNotUnique",
            ErrorKind::InvalidRecord(InvalidRecord::Duplicate) => "InvalidRecord::Duplicate",
            ErrorKind::CausalityViolation => "CausalityViolation",
            ErrorKind::CryptoFailure => "CryptoFailure",
            ErrorKind::HmacMismatch => "HmacMismatch",
            ErrorKind::SchemaMismatch => "SchemaMismatch",
            ErrorKind::DbCorruption => "DbCorruption",
            ErrorKind::StorageFailure => "StorageFailure",
        }
    }
}

/// The name that `ErrorKind::name` gives to each kind.
pub open spec fn error_name(e: ErrorView) -> Seq<char> {
    match e {
        ErrorView::IllegalState => "IllegalState"@,
        ErrorView::NoSuchRecord(_) => "NoSuchRecord"@,
        ErrorView::InvalidRecord(InvalidRecord::SchemaViolation) => "InvalidRecord::SchemaViolation"@,
        ErrorView::InvalidRecord(InvalidRecord::IdNotUnique) => "InvalidRecord::IdNotUnique"@,
        ErrorView::InvalidRecord(InvalidRecord::Duplicate) => "InvalidRecord::Duplicate"@,
        ErrorView::CausalityViolation => "CausalityViolation"@,
        ErrorView::CryptoFailure => "CryptoFailure"@,
        ErrorView::HmacMismatch => "HmacMismatch"@,
        ErrorView::SchemaMismatch => "SchemaMismatch"@,
        ErrorView::DbCorruption => "DbCorruption"@,
        ErrorView::StorageFailure => "StorageFailure"@,
    }
}

} // verus!
