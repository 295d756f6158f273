use vstd::prelude::*;

verus! {

/// The kinds of failure of the proving pipeline.
#[derive(Clone, Copy, Debug, PartialEq, Eq, Structural)]
pub enum ErrorKind {
    /// A record has no canonical form, and so no identifier.
    Serialization,
    /// The ledger's state could not be fetched.
    StateFetch,
    /// The ledger stores another identifier than the record's.
    AssertionFailure,
    /// A leaf proof's journal or program is not the expected one.
    AssumptionVerification,
    /// The proving engine failed.
    ProverBackend,
}

/// Whether the same inputs may be tried again after a failure of this kind:
/// fetching state and proving may, since neither leaves anything behind; the
/// other three kinds come back until a record or a leaf proof is replaced.
pub open spec fn retryable(kind: ErrorKind) -> bool {
    kind is StateFetch || kind is ProverBackend
}

/// Tells whether the same inputs may be tried again after a failure of this
/// kind.
pub fn is_retryable(kind: ErrorKind) -> (retry: bool)
    ensures
        retry == retryable(kind),
{
    match kind {
        ErrorKind::StateFetch => true,
        ErrorKind::ProverBackend => true,
        ErrorKind::Serialization => false,
        ErrorKind::AssertionFailure => false,
        ErrorKind::AssumptionVerification => false,
    }
}

} // verus!
