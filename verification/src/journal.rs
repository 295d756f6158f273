use crate::bytes::{
    lemma_concat_laws, lemma_split_at_same_length, write_bytes, write_zeros, zeros,
};
use vstd::array::*;
use vstd::prelude::*;

verus! {

/// A pinned reference to the ledger's state: which block or checkpoint, as a
/// 256-bit number in big-endian bytes, and the digest that stands for it.
#[derive(Clone, Copy, Debug, PartialEq, Eq)]
pub struct Commitment {
    pub id: [u8; 32],
    pub digest: [u8; 32],
}

/// What a leaf proof makes public: the state it was checked against, and the
/// owner the ledger names for the record.
#[derive(Clone, Copy, Debug, PartialEq, Eq)]
pub struct LeafJournal {
    pub commitment: Commitment,
    pub owner: [u8; 20],
}

/// What an aggregate proof makes public: its own state commitment, the
/// identifier of the whole set of records, and the records' references in
/// their order.
#[derive(Clone, Debug, PartialEq, Eq)]
pub struct AggregateJournal {
    pub commitment: Commitment,
    pub team_cid: [u8; 32],
    pub player_ids: Vec<[u8; 32]>,
}

/// The mathematical value of an [`AggregateJournal`].
pub struct AggregateJournalView {
    pub commitment: Commitment,
    pub team_cid: Seq<u8>,
    pub player_ids: Seq<[u8; 32]>,
}

impl View for AggregateJournal {
    type V = AggregateJournalView;

    open spec fn view(&self) -> AggregateJournalView {
        AggregateJournalView {
            commitment: self.commitment,
            team_cid: self.team_cid@,
            player_ids: self.player_ids@,
        }
    }
}

/// The two words of a commitment.
pub open spec fn commitment_bytes(c: Commitment) -> Seq<u8> {
    c.id@ + c.digest@
}

/// The wire form of a leaf journal: the commitment's two words, and the owner
/// in a word of its own, behind twelve zero bytes.
pub open spec fn leaf_journal_bytes(j: LeafJournal) -> Seq<u8> {
    commitment_bytes(j.commitment) + (zeros(12) + j.owner@)
}

/// Whether `bytes` is the wire form of some leaf journal: three words, the
/// third beginning with twelve zero bytes.
pub open spec fn is_leaf_journal(bytes: Seq<u8>) -> bool {
    &&& bytes.len() == 96
    &&& forall|i: int| 64 <= i < 76 ==> bytes[i] == 0
}

/// The words of a list of references, one after the other.
pub open spec fn reference_bytes(ids: Seq<[u8; 32]>) -> Seq<u8>
    decreases ids.len(),
{
    if ids.len() == 0 {
        Seq::empty()
    } else {
        reference_bytes(ids.drop_last()) + ids.last()@
    }
}

/// The wire form of an aggregate journal: the commitment's two words, the
/// identifier's word, and one word for each reference.
pub open spec fn aggregate_journal_bytes(j: AggregateJournalView) -> Seq<u8> {
    commitment_bytes(j.commitment) + (j.team_cid + reference_bytes(j.player_ids))
}

/// Two leaf journals with the same wire form are the same journal.
pub proof fn lemma_leaf_journal_injective(a: LeafJournal, b: LeafJournal)
    requires
        leaf_journal_bytes(a) == leaf_journal_bytes(b),
    ensures
        a == b,
{
    lemma_split_at_same_length(
        commitment_bytes(a.commitment),
        commitment_bytes(b.commitment),
        zeros(12) + a.owner@,
        zeros(12) + b.owner@,
    );
    lemma_split_at_same_length(
        a.commitment.id@,
        b.commitment.id@,
        a.commitment.digest@,
        b.commitment.digest@,
    );
    lemma_split_at_same_length(zeros(12), zeros(12), a.owner@, b.owner@);
    assert(a.commitment.id =~= b.commitment.id);
    assert(a.commitment.digest =~= b.commitment.digest);
    assert(a.owner =~= b.owner);
}

/// A leaf journal that was written reads back as it was: whatever reading
/// its wire form yields is the journal itself.
pub proof fn law_leaf_journal_reads_back(j: LeafJournal, read: Option<LeafJournal>)
    requires
        read is Some <==> is_leaf_journal(leaf_journal_bytes(j)),
        read matches Some(k) ==> leaf_journal_bytes(k) == leaf_journal_bytes(j),
    ensures
        read == Some(j),
{
    assert(is_leaf_journal(leaf_journal_bytes(j)));
    lemma_leaf_journal_injective(read->Some_0, j);
}

/// Copies the 32 bytes that begin at `at`.
fn read_word(bytes: &[u8], at: usize) -> (word: [u8; 32])
    requires
        at + 32 <= bytes.len(),
    ensures
        word@ == bytes@.subrange(at as int, at + 32),
{
    let mut word = [0u8;32];
    let mut i: usize = 0;
    while i < 32
        invariant
            i <= 32,
            at + 32 <= bytes.len(),
            forall|k: int| 0 <= k < i ==> word@[k] == bytes@[at + k],
        decreases 32 - i,
    {
        word[i] = bytes[at + i];
        i += 1;
    }
    assert(word@ =~= bytes@.subrange(at as int, at + 32));
    word
}

/// Copies the 20 bytes that begin at `at`.
fn read_address(bytes: &[u8], at: usize) -> (address: [u8; 20])
    requires
        at + 20 <= bytes.len(),
    ensures
        address@ == bytes@.subrange(at as int, at + 20),
{
    let mut address = [0u8;20];
    let mut i: usize = 0;
    while i < 20
        invariant
            i <= 20,
            at + 20 <= bytes.len(),
            forall|k: int| 0 <= k < i ==> address@[k] == bytes@[at + k],
        decreases 20 - i,
    {
        address[i] = bytes[at + i];
        i += 1;
    }
    assert(address@ =~= bytes@.subrange(at as int, at + 20));
    address
}

/// Writes a leaf journal in its wire form.
pub fn encode_leaf_journal(journal: &LeafJournal) -> (out: Vec<u8>)
    ensures
        out@ == leaf_journal_bytes(*journal),
{
    let mut out: Vec<u8> = Vec::new();
    write_bytes(&mut out, journal.commitment.id.as_slice());
    write_bytes(&mut out, journal.commitment.digest.as_slice());
    write_zeros(&mut out, 12);
    write_bytes(&mut out, journal.owner.as_slice());
    proof {
        lemma_concat_laws();
        assert(Seq::<u8>::empty() + leaf_journal_bytes(*journal) =~= leaf_journal_bytes(*journal));
    }
    out
}

/// Reads a leaf journal from its wire form; `None` where `bytes` is the wire
/// form of no leaf journal.
pub fn decode_leaf_journal(bytes: &[u8]) -> (journal: Option<LeafJournal>)
    ensures
        journal is Some <==> is_leaf_journal(bytes@),
        journal matches Some(j) ==> leaf_journal_bytes(j) == bytes@,
{
    if bytes.len() != 96 {
        return None;
    }
    let mut i: usize = 64;
    while i < 76
        invariant
            64 <= i <= 76,
            bytes.len() == 96,
            forall|k: int| 64 <= k < i ==> bytes@[k] == 0,
        decreases 76 - i,
    {
        if bytes[i] != 0 {
            return None;
        }
        i += 1;
    }
    let journal = LeafJournal {
        commitment: Commitment { id: read_word(bytes, 0), digest: read_word(bytes, 32) },
        owner: read_address(bytes, 76),
    };
    assert(leaf_journal_bytes(journal) =~= bytes@);
    Some(journal)
}

/// Writes an aggregate journal in its wire form.
pub fn encode_aggregate_journal(journal: &AggregateJournal) -> (out: Vec<u8>)
    ensures
        out@ == aggregate_journal_bytes(journal@),
{
    let mut out: Vec<u8> = Vec::new();
    write_bytes(&mut out, journal.commitment.id.as_slice());
    write_bytes(&mut out, journal.commitment.digest.as_slice());
    write_bytes(&mut out, journal.team_cid.as_slice());
    let ghost head = out@;
    let mut i: usize = 0;
    while i < journal.player_ids.len()
        invariant
            i <= journal.player_ids.len(),
            out@ == head + reference_bytes(journal.player_ids@.take(i as int)),
        decreases journal.player_ids.len() - i,
    {
        write_bytes(&mut out, journal.player_ids[i].as_slice());
        proof {
            let ids = journal.player_ids@;
            assert(ids.take(i + 1).drop_last() =~= ids.take(i as int));
            lemma_concat_laws();
        }
        i += 1;
    }
    proof {
        assert(journal.player_ids@.take(i as int) =~= journal.player_ids@);
        lemma_concat_laws();
        assert(Seq::<u8>::empty() + aggregate_journal_bytes(journal@) =~= aggregate_journal_bytes(
            journal@,
        ));
    }
    out
}

} // verus!
