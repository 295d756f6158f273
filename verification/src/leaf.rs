use crate::cid::{identifier_uri, CidError, ComputeCid};
use crate::error::ErrorKind;
use crate::journal::{Commitment, LeafJournal};
use vstd::prelude::*;
use vstd::string::*;

verus! {

/// What the ledger holds for a reference, as the verified reads gave it: the
/// owner, and the identifier stored for the record, in its external form.
#[derive(Clone, Debug, PartialEq, Eq)]
pub struct LedgerEntry {
    pub owner: [u8; 20],
    pub uri: String,
}

/// Why a leaf check yields no journal.
#[derive(Clone, Debug, PartialEq, Eq)]
pub enum LeafError {
    /// The record has no canonical form, and so no identifier.
    Identifier(CidError),
    /// The ledger stores another identifier than the record's: the reference,
    /// the identifier computed and the identifier stored.
    AssertionFailure { token_id: [u8; 32], computed: String, stored: String },
}

/// The mathematical value of what a leaf check yields.
pub enum LeafOutcome {
    Journal(LeafJournal),
    NoIdentifier(CidError),
    Mismatch { token_id: [u8; 32], computed: Seq<char>, stored: Seq<char> },
}

/// The value of a leaf check's result.
pub open spec fn leaf_result_view(r: Result<LeafJournal, LeafError>) -> LeafOutcome {
    match r {
        Ok(journal) => LeafOutcome::Journal(journal),
        Err(LeafError::Identifier(e)) => LeafOutcome::NoIdentifier(e),
        Err(LeafError::AssertionFailure { token_id, computed, stored }) => LeafOutcome::Mismatch {
            token_id,
            computed: computed@,
            stored: stored@,
        },
    }
}

/// What comparing a computed identifier with the ledger's entry yields: the
/// journal of the commitment and the entry's owner where the two identifiers
/// are the same text, and a mismatch that names both otherwise.
pub open spec fn compared(
    computed: Seq<char>,
    token_id: [u8; 32],
    owner: [u8; 20],
    stored: Seq<char>,
    commitment: Commitment,
) -> LeafOutcome {
    if computed == stored {
        LeafOutcome::Journal(LeafJournal { commitment, owner })
    } else {
        LeafOutcome::Mismatch { token_id, computed, stored }
    }
}

/// What a leaf check yields for a record with the canonical form `canonical`.
pub open spec fn leaf_outcome(
    canonical: Option<Seq<u8>>,
    token_id: [u8; 32],
    owner: [u8; 20],
    stored: Seq<char>,
    commitment: Commitment,
) -> LeafOutcome {
    match identifier_uri(canonical) {
        Ok(computed) => compared(computed, token_id, owner, stored, commitment),
        Err(e) => LeafOutcome::NoIdentifier(e),
    }
}

/// Compares the external form of a record's identifier with the one that the
/// ledger stores for `token_id`.
pub fn check_stored_identifier(
    computed: String,
    token_id: &[u8; 32],
    entry: &LedgerEntry,
    commitment: &Commitment,
) -> (r: Result<LeafJournal, LeafError>)
    ensures
        leaf_result_view(r) == compared(
            computed@,
            *token_id,
            entry.owner,
            entry.uri@,
            *commitment,
        ),
{
    if computed == entry.uri {
        Ok(LeafJournal { commitment: *commitment, owner: entry.owner })
    } else {
        Err(
            LeafError::AssertionFailure {
                token_id: *token_id,
                computed,
                stored: entry.uri.clone(),
            },
        )
    }
}

/// The leaf check: computes the record's identifier, compares its external
/// form with the one the ledger stores for `token_id`, and yields the journal
/// of `commitment` and the ledger's owner where they are the same.
pub fn verify_leaf<R: ComputeCid>(
    record: &R,
    token_id: &[u8; 32],
    entry: &LedgerEntry,
    commitment: &Commitment,
) -> (r: Result<LeafJournal, LeafError>)
    ensures
        leaf_result_view(r) == leaf_outcome(
            record.canonical(),
            *token_id,
            entry.owner,
            entry.uri@,
            *commitment,
        ),
        identifier_uri(record.canonical()) == Ok::<Seq<char>, CidError>(entry.uri@) ==> r == Ok::<
            LeafJournal,
            LeafError,
        >(LeafJournal { commitment: *commitment, owner: entry.owner }),
        identifier_uri(record.canonical()) is Ok && identifier_uri(record.canonical()) != Ok::<
            Seq<char>,
            CidError,
        >(entry.uri@) ==> r matches Err(LeafError::AssertionFailure { .. }),
        identifier_uri(record.canonical()) matches Err(e) ==> r == Err::<LeafJournal, LeafError>(
            LeafError::Identifier(e),
        ),
        r matches Err(LeafError::Identifier(e)) ==> e == CidError::Serialization
            && record.canonical() is None,
{
    match record.formatted_cid() {
        Ok(computed) => check_stored_identifier(computed, token_id, entry, commitment),
        Err(e) => Err(LeafError::Identifier(e)),
    }
}

/// The kind of a leaf check's failure.
pub fn leaf_error_kind(e: &LeafError) -> (kind: ErrorKind)
    ensures
        kind == (match *e {
            LeafError::Identifier(_) => ErrorKind::Serialization,
            LeafError::AssertionFailure { .. } => ErrorKind::AssertionFailure,
        }),
{
    match e {
        LeafError::Identifier(_) => ErrorKind::Serialization,
        LeafError::AssertionFailure { .. } => ErrorKind::AssertionFailure,
    }
}

/// Where a leaf prover stands.
#[derive(Clone, Copy, Debug, PartialEq, Eq, Structural)]
pub enum LeafState {
    /// Nothing has been handed over yet.
    Idle,
    /// The inputs are there; the verified reads are under way.
    Executing,
    /// The reads are done; the identifiers are being compared.
    Asserting,
    /// The identifiers were the same; the proof is being made.
    Proving,
    /// The proof is there.
    Done,
    /// No proof will come.
    Failed,
}

/// What happens to a leaf prover.
#[derive(Clone, Copy, Debug, PartialEq, Eq, Structural)]
pub enum LeafEvent {
    /// The inputs were handed over.
    Started,
    /// The verified reads were made.
    ReadsCompleted,
    /// The identifiers were compared, and were the same or not.
    Asserted { same: bool },
    /// The proving engine handed out the proof.
    ProofReady,
    /// The proving engine failed.
    BackendFailed,
}

/// The state that follows `state` on `event`; `None` where the event cannot
/// happen in that state. A proof is made only after the identifiers were
/// found the same, and nothing follows `Done` or `Failed`.
pub open spec fn leaf_step(state: LeafState, event: LeafEvent) -> Option<LeafState> {
    match (state, event) {
        (LeafState::Idle, LeafEvent::Started) => Some(LeafState::Executing),
        (LeafState::Executing, LeafEvent::ReadsCompleted) => Some(LeafState::Asserting),
        (LeafState::Asserting, LeafEvent::Asserted { same }) => if same {
            Some(LeafState::Proving)
        } else {
            Some(LeafState::Failed)
        },
        (LeafState::Proving, LeafEvent::ProofReady) => Some(LeafState::Done),
        (LeafState::Executing, LeafEvent::BackendFailed) => Some(LeafState::Failed),
        (LeafState::Asserting, LeafEvent::BackendFailed) => Some(LeafState::Failed),
        (LeafState::Proving, LeafEvent::BackendFailed) => Some(LeafState::Failed),
        _ => None,
    }
}

/// Moves a leaf prover on by one event.
pub fn leaf_transition(state: LeafState, event: LeafEvent) -> (next: Option<LeafState>)
    ensures
        next == leaf_step(state, event),
{
    match state {
        LeafState::Idle => match event {
            LeafEvent::Started => Some(LeafState::Executing),
            _ => None,
        },
        LeafState::Executing => match event {
            LeafEvent::ReadsCompleted => Some(LeafState::Asserting),
            LeafEvent::BackendFailed => Some(LeafState::Failed),
            _ => None,
        },
        LeafState::Asserting => match event {
            LeafEvent::Asserted { same } => if same {
                Some(LeafState::Proving)
            } else {
                Some(LeafState::Failed)
            },
            LeafEvent::BackendFailed => Some(LeafState::Failed),
            _ => None,
        },
        LeafState::Proving => match event {
            LeafEvent::ProofReady => Some(LeafState::Done),
            LeafEvent::BackendFailed => Some(LeafState::Failed),
            _ => None,
        },
        LeafState::Done => None,
        LeafState::Failed => None,
    }
}

/// The event that a leaf check's result stands for.
pub fn asserted(result: &Result<LeafJournal, LeafError>) -> (event: LeafEvent)
    ensures
        event == (LeafEvent::Asserted { same: *result is Ok }),
{
    match result {
        Ok(_) => LeafEvent::Asserted { same: true },
        Err(_) => LeafEvent::Asserted { same: false },
    }
}

} // verus!
