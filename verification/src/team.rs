use crate::bytes::{bytes_eq, lemma_concat_laws, write_byte, write_bytes};
use crate::cid::{identifier_digest, record_digest, CidError, ComputeCid};
use crate::error::ErrorKind;
use crate::journal::{
    encode_leaf_journal, leaf_journal_bytes, AggregateJournal, AggregateJournalView, Commitment,
    LeafJournal,
};
use crate::json::{joined, list_json};
use crate::leaf::LeafState;
use vstd::array::*;
use vstd::prelude::*;

verus! {

/// A leaf proof as an aggregate takes it: the identifier of the program that
/// was proved, the journal it made public, and the proof itself, which is not
/// looked into here.
#[derive(Clone, Debug, PartialEq, Eq)]
pub struct LeafProof {
    pub program: [u8; 32],
    pub journal: Vec<u8>,
    pub seal: Vec<u8>,
}

/// Why an aggregate yields no journal.
#[derive(Clone, Debug, PartialEq, Eq)]
pub enum AggregateError {
    /// A record of the set has no canonical form, so that the set has no
    /// identifier.
    Identifier(CidError),
    /// The leaf proof at `index` is not the expected one: it names another
    /// program, or its journal is not the expected journal.
    AssumptionVerification {
        index: usize,
        expected_program: [u8; 32],
        actual_program: [u8; 32],
        expected_journal: Vec<u8>,
        actual_journal: Vec<u8>,
    },
}

/// A list of records is a record: its canonical form is the list of its
/// members' canonical forms, and it has none where one of them has none.
impl<R: ComputeCid> ComputeCid for Vec<R> {
    open spec fn canonical(&self) -> Option<Seq<u8>> {
        if forall|i: int| 0 <= i < self@.len() ==> (#[trigger] self@[i]).canonical() is Some {
            Some(list_json(Seq::new(self@.len(), |i: int| self@[i].canonical().unwrap())))
        } else {
            None
        }
    }

    fn canonical_bytes(&self) -> (r: Result<Vec<u8>, CidError>) {
        let mut out: Vec<u8> = Vec::new();
        write_byte(&mut out, 0x5b);
        let mut i: usize = 0;
        while i < self.len()
            invariant
                i <= self.len(),
                forall|k: int| 0 <= k < i ==> (#[trigger] self@[k]).canonical() is Some,
                out@ == seq![0x5bu8] + joined(
                    Seq::new(i as nat, |k: int| self@[k].canonical().unwrap()),
                ),
            decreases self.len() - i,
        {
            let ghost done = Seq::new(i as nat, |k: int| self@[k].canonical().unwrap());
            let ghost with = Seq::new((i + 1) as nat, |k: int| self@[k].canonical().unwrap());
            match self[i].canonical_bytes() {
                Ok(bytes) => {
                    if i > 0 {
                        write_byte(&mut out, 0x2c);
                    }
                    write_bytes(&mut out, bytes.as_slice());
                    proof {
                        assert(with.drop_last() =~= done);
                        assert(with.last() == bytes@);
                        lemma_concat_laws();
                    }
                },
                Err(_) => {
                    return Err(CidError::Serialization);
                },
            }
            i += 1;
        }
        write_byte(&mut out, 0x5d);
        proof {
            lemma_concat_laws();
            assert(Seq::<u8>::empty() + list_json(
                Seq::new(self@.len(), |k: int| self@[k].canonical().unwrap()),
            ) =~= list_json(Seq::new(self@.len(), |k: int| self@[k].canonical().unwrap())));
        }
        Ok(out)
    }
}

/// Whether a leaf proof is the expected one: it names the expected program,
/// and its journal is the expected journal, byte for byte.
pub open spec fn assumption_holds(
    proof: LeafProof,
    expected_journal: Seq<u8>,
    expected_program: [u8; 32],
) -> bool {
    proof.program@ == expected_program@ && proof.journal@ == expected_journal
}

/// Whether `index` is the first of `proofs` that is not the expected one.
pub open spec fn first_failure(
    proofs: Seq<LeafProof>,
    expected_journal: Seq<u8>,
    expected_program: [u8; 32],
    index: int,
) -> bool {
    &&& 0 <= index < proofs.len()
    &&& !assumption_holds(proofs[index], expected_journal, expected_program)
    &&& forall|j: int|
        0 <= j < index ==> assumption_holds(#[trigger] proofs[j], expected_journal, expected_program)
}

/// Whether every one of `proofs` is the expected one.
pub open spec fn assumptions_hold(
    proofs: Seq<LeafProof>,
    expected_journal: Seq<u8>,
    expected_program: [u8; 32],
) -> bool {
    forall|i: int|
        0 <= i < proofs.len() ==> assumption_holds(
            #[trigger] proofs[i],
            expected_journal,
            expected_program,
        )
}

/// Whether `e` reports that the proof at the first failing index is not the
/// expected one, with the programs and journals that differ.
pub open spec fn reports_first_failure(
    e: AggregateError,
    proofs: Seq<LeafProof>,
    expected_journal: Seq<u8>,
    expected_program: [u8; 32],
) -> bool {
    match e {
        AggregateError::AssumptionVerification {
            index,
            expected_program: program,
            actual_program,
            expected_journal: journal,
            actual_journal,
        } => {
            &&& first_failure(proofs, expected_journal, expected_program, index as int)
            &&& program == expected_program
            &&& actual_program == proofs[index as int].program
            &&& journal@ == expected_journal
            &&& actual_journal@ == proofs[index as int].journal@
        },
        AggregateError::Identifier(_) => false,
    }
}

/// Tells whether a leaf proof is the expected one, by comparing what it
/// names with what is expected.
pub fn verify_assumption(
    proof: &LeafProof,
    expected_journal: &[u8],
    expected_program: &[u8; 32],
) -> (ok: bool)
    ensures
        ok == assumption_holds(*proof, expected_journal@, *expected_program),
{
    bytes_eq(proof.program.as_slice(), expected_program.as_slice()) && bytes_eq(
        proof.journal.as_slice(),
        expected_journal,
    )
}

/// Checks each of `proofs` against the one journal that an aggregate for
/// `commitment` and `owner` expects of every leaf, and against the leaf
/// program's identifier. The first proof that is not the expected one is
/// named by its index, with what it holds and what was expected.
pub fn verify_assumptions(
    proofs: &Vec<LeafProof>,
    commitment: &Commitment,
    owner: &[u8; 20],
    leaf_program: &[u8; 32],
) -> (r: Result<(), AggregateError>)
    ensures
        r is Ok <==> assumptions_hold(
            proofs@,
            leaf_journal_bytes(LeafJournal { commitment: *commitment, owner: *owner }),
            *leaf_program,
        ),
        r matches Err(e) ==> reports_first_failure(
            e,
            proofs@,
            leaf_journal_bytes(LeafJournal { commitment: *commitment, owner: *owner }),
            *leaf_program,
        ),
{
    let expected = encode_leaf_journal(&LeafJournal { commitment: *commitment, owner: *owner });
    let mut i: usize = 0;
    while i < proofs.len()
        invariant
            i <= proofs.len(),
            expected@ == leaf_journal_bytes(
                LeafJournal { commitment: *commitment, owner: *owner },
            ),
            forall|j: int|
                0 <= j < i ==> assumption_holds(#[trigger] proofs@[j], expected@, *leaf_program),
        decreases proofs.len() - i,
    {
        if !verify_assumption(&proofs[i], expected.as_slice(), leaf_program) {
            return Err(
                AggregateError::AssumptionVerification {
                    index: i,
                    expected_program: *leaf_program,
                    actual_program: proofs[i].program,
                    expected_journal: expected,
                    actual_journal: proofs[i].journal.clone(),
                },
            );
        }
        i += 1;
    }
    Ok(())
}

/// What an aggregate yields. Where every leaf proof is the expected one, it
/// is the journal of the aggregate's own commitment, the identifier of the
/// set of records and the references, or the reason why the set has no
/// identifier; otherwise it is the report of the first proof that is not.
pub open spec fn aggregate_post(
    r: Result<AggregateJournal, AggregateError>,
    canonical: Option<Seq<u8>>,
    player_ids: Seq<[u8; 32]>,
    proofs: Seq<LeafProof>,
    commitment: Commitment,
    owner: [u8; 20],
    leaf_program: [u8; 32],
) -> bool {
    let expected = leaf_journal_bytes(LeafJournal { commitment, owner });
    if assumptions_hold(proofs, expected, leaf_program) {
        match identifier_digest(canonical) {
            Ok(digest) => r matches Ok(journal) && journal@ == (AggregateJournalView {
                commitment,
                team_cid: digest,
                player_ids,
            }),
            Err(e) => r == Err::<AggregateJournal, AggregateError>(AggregateError::Identifier(e)),
        }
    } else {
        r matches Err(e) && reports_first_failure(e, proofs, expected, leaf_program)
    }
}

/// The aggregate check over a set of records, their references and one leaf
/// proof for each.
///
/// Every leaf proof must name `leaf_program` and carry the journal of this
/// aggregate's own `commitment` and of `owner`: a proof made for another
/// commitment or another owner fails, and so does one of another program. No
/// leaf check is made again.
pub fn aggregate<T: ComputeCid>(
    team: &T,
    player_ids: Vec<[u8; 32]>,
    proofs: &Vec<LeafProof>,
    commitment: &Commitment,
    owner: &[u8; 20],
    leaf_program: &[u8; 32],
) -> (r: Result<AggregateJournal, AggregateError>)
    requires
        player_ids.len() == proofs.len(),
    ensures
        aggregate_post(
            r,
            team.canonical(),
            player_ids@,
            proofs@,
            *commitment,
            *owner,
            *leaf_program,
        ),
        r is Ok ==> assumptions_hold(
            proofs@,
            leaf_journal_bytes(LeafJournal { commitment: *commitment, owner: *owner }),
            *leaf_program,
        ),
        r matches Ok(journal) ==> journal.commitment == *commitment && journal.player_ids@
            == player_ids@,
        r matches Err(AggregateError::Identifier(e)) ==> e == CidError::Serialization
            && team.canonical() is None,
{
    match verify_assumptions(proofs, commitment, owner, leaf_program) {
        Ok(_) => match record_digest(team) {
            Ok(team_cid) => Ok(AggregateJournal { commitment: *commitment, team_cid, player_ids }),
            Err(e) => Err(AggregateError::Identifier(e)),
        },
        Err(e) => Err(e),
    }
}

/// The kind of an aggregate's failure.
pub fn aggregate_error_kind(e: &AggregateError) -> (kind: ErrorKind)
    ensures
        kind == (match *e {
            AggregateError::Identifier(_) => ErrorKind::Serialization,
            AggregateError::AssumptionVerification { .. } => ErrorKind::AssumptionVerification,
        }),
{
    match e {
        AggregateError::Identifier(_) => ErrorKind::Serialization,
        AggregateError::AssumptionVerification { .. } => ErrorKind::AssumptionVerification,
    }
}

/// Tells whether an aggregate may begin: whether every leaf prover has its
/// proof.
pub fn ready_to_aggregate(leaves: &Vec<LeafState>) -> (ready: bool)
    ensures
        ready == (forall|i: int| 0 <= i < leaves.len() ==> #[trigger] leaves@[i] is Done),
{
    let mut i: usize = 0;
    while i < leaves.len()
        invariant
            i <= leaves.len(),
            forall|j: int| 0 <= j < i ==> #[trigger] leaves@[j] is Done,
        decreases leaves.len() - i,
    {
        match leaves[i] {
            LeafState::Done => {},
            _ => {
                return false;
            },
        }
        i += 1;
    }
    true
}

} // verus!
