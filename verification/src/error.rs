//! The failures a unit of work can end in.

use vstd::prelude::*;

verus! {

/// Why an operation of the runtime did not complete.
#[derive(Debug, PartialEq, Eq)]
pub enum Error {
    /// The store could not be reached when a connection was asked for.
    BackendUnavailable,
    /// The backend refused to start a transaction.
    TransactionConflict,
    /// The backend could not make a transaction's writes durable.
    CommitFailed,
    /// The backend cannot discard the writes of a transaction.
    RollbackUnsupported,
    /// The event log could not take a batch of events.
    AppendFailed,
    /// A progress cursor was asked to move to a position it has already reached.
    ProgressRegression,
    /// A handler or a polled collaborator reported a domain-level failure.
    HandlerFailed(String),
}

impl Clone for Error {
    fn clone(&self) -> (copy: Self)
        ensures
            copy == *self,
    {
        match self {
            Error::BackendUnavailable => Error::BackendUnavailable,
            Error::TransactionConflict => Error::TransactionConflict,
            Error::CommitFailed => Error::CommitFailed,
            Error::RollbackUnsupported => Error::RollbackUnsupported,
            Error::AppendFailed => Error::AppendFailed,
            Error::ProgressRegression => Error::ProgressRegression,
            Error::HandlerFailed(message) => Error::HandlerFailed(message.clone()),
        }
    }
}

impl Error {
    /// Whether a worker that meets this error has to stop: a cursor that
    /// would move backwards points at corrupted state, and a rollback that
    /// the backend cannot perform leaves a unit of work that cannot be
    /// undone. Every other failure is confined to one iteration.
    pub open spec fn fatal(&self) -> bool {
        self is ProgressRegression || self is RollbackUnsupported
    }

    /// Computes [`Error::fatal`].
    #[verifier::when_used_as_spec(fatal)]
    pub fn is_fatal(&self) -> (fatal: bool)
        ensures
            fatal == self.fatal(),
    {
        match self {
            Error::ProgressRegression => true,
            Error::RollbackUnsupported => true,
            _ => false,
        }
    }
}

} // verus!
