//! The one reported error shape every engine-level and conversion-level
//! failure is translated into before it crosses the boundary to the host.

use vstd::prelude::*;

verus! {

/// Everything that can go wrong, with the context the host is owed: the
/// failing column's name for cell-level failures, the missing or ill-typed
/// key for construction-time failures, and the underlying cause description
/// otherwise. Setup failures are recoverable values, never process aborts.
#[derive(Debug, PartialEq, Eq)]
pub enum ReportedError {
    EngineOpen { cause: String },
    ExtensionInstall { cause: String },
    SecretRegistration { cause: String },
    StatementPrepare { cause: String },
    QueryExecution { cause: String },
    ColumnConversion { column_name: String, cause: String },
    MissingOption { key: String },
    NonStringOption { key: String },
}

/// The message each error variant reports, character for character.
pub open spec fn spec_message(e: ReportedError) -> Seq<char> {
    match e {
        ReportedError::EngineOpen { cause } => "Could not open database: "@ + cause@,
        ReportedError::ExtensionInstall { cause } => "Could not install extensions: "@ + cause@,
        ReportedError::SecretRegistration { cause } => "Could not create secrets manager: "@
            + cause@,
        ReportedError::StatementPrepare { cause } => cause@,
        ReportedError::QueryExecution { cause } => cause@,
        ReportedError::ColumnConversion { column_name, cause } => "Error converting value of column "@
            + column_name@ + " : "@ + cause@,
        ReportedError::MissingOption { key } => "\""@ + key@
            + "\" key required to instantiate duckdb"@,
        ReportedError::NonStringOption { key } => "Value provided as \""@ + key@
            + "\" was not string"@,
    }
}

impl ReportedError {
    /// Renders the single boundary message, including the offending column
    /// name and underlying cause where the variant carries them.
    pub fn message(&self) -> (m: String)
        ensures
            m@ == spec_message(*self),
    {
        match self {
            ReportedError::EngineOpen { cause } => {
                let mut m = String::from_str("Could not open database: ");
                m.append(cause.as_str());
                m
            },
            ReportedError::ExtensionInstall { cause } => {
                let mut m = String::from_str("Could not install extensions: ");
                m.append(cause.as_str());
                m
            },
            ReportedError::SecretRegistration { cause } => {
                let mut m = String::from_str("Could not create secrets manager: ");
                m.append(cause.as_str());
                m
            },
            ReportedError::StatementPrepare { cause } => cause.clone(),
            ReportedError::QueryExecution { cause } => cause.clone(),
            ReportedError::ColumnConversion { column_name, cause } => {
                let mut m = String::from_str("Error converting value of column ");
                m.append(column_name.as_str());
                m.append(" : ");
                m.append(cause.as_str());
                m
            },
            ReportedError::MissingOption { key } => {
                let mut m = String::from_str("\"");
                m.append(key.as_str());
                m.append("\" key required to instantiate duckdb");
                m
            },
            ReportedError::NonStringOption { key } => {
                let mut m = String::from_str("Value provided as \"");
                m.append(key.as_str());
                m.append("\" was not string");
                m
            },
        }
    }
}

/// Translates an engine failure to compile a statement.
pub fn prepare_failure(cause: String) -> (e: ReportedError)
    ensures
        e matches ReportedError::StatementPrepare { cause: c } && c@ == cause@,
{
    ReportedError::StatementPrepare { cause }
}

/// Translates an engine failure to execute a statement or advance a cursor.
pub fn execution_failure(cause: String) -> (e: ReportedError)
    ensures
        e matches ReportedError::QueryExecution { cause: c } && c@ == cause@,
{
    ReportedError::QueryExecution { cause }
}

/// Attaches the failing column's identity to a cell-level failure.
pub fn column_failure(column_name: String, cause: String) -> (e: ReportedError)
    ensures
        e matches ReportedError::ColumnConversion { column_name: n, cause: c } && n@
            == column_name@ && c@ == cause@,
{
    ReportedError::ColumnConversion { column_name, cause }
}

} // verus!
