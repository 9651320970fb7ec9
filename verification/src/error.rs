//! Error kinds surfaced by the analysis core.

use vstd::prelude::*;

verus! {

/// Errors produced while loading challenge data, resolving analysis programs,
/// or running analyzers.
#[derive(Debug, Clone, PartialEq, Eq)]
pub enum Error {
    /// A required configuration input is missing; carries its name.
    Environment(String),
    /// An on-disk value is out of range; carries the field's name.
    InvalidField(String),
    /// Expected structure is missing at analysis time.
    IncompleteData,
    /// An unknown program was requested.
    InvalidArgument,
    /// The engine is not in a state that allows the operation; carries detail.
    FailedPrecondition(String),
    /// An analyzer required an output its definition did not declare; carries
    /// the name of the missing dependency.
    Dependency(String),
    /// A program definition could not be parsed or resolved; carries detail.
    Config(String),
    /// Pass-through from the raw event repository.
    DataRepository(String),
    /// Pass-through from the host's I/O layer.
    Io(String),
    /// Pass-through from the relational metadata store.
    Sql(String),
}

impl Error {
    /// True when the error is an `InvalidField` whose field name reads `name`.
    pub open spec fn is_invalid_field(self, name: Seq<char>) -> bool {
        self matches Error::InvalidField(f) && f@ == name
    }
}

pub type Result<T> = core::result::Result<T, Error>;

} // verus!
