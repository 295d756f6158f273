pub use crate::players::{Attribute, Player, Skill};
use ::cid::Cid;
use ipfs_unixfs::file::adder::FileAdder;
use vstd::prelude::*;
use vstd::string::*;

verus! {

/// A node of the hash tree: its identifier and its encoded bytes.
#[derive(Clone, Debug)]
pub struct Block {
    pub cid: Vec<u8>,
    pub data: Vec<u8>,
}

/// What a hash tree came to: the identifier of its root, the number of its
/// blocks, and the bytes that its blocks hold together.
#[derive(Clone, Debug)]
pub struct FileStats {
    pub cid: Vec<u8>,
    pub blocks: usize,
    pub bytes: u64,
}

/// The mathematical value of a [`FileStats`].
pub struct FileStatsView {
    pub cid: Seq<u8>,
    pub blocks: nat,
    pub bytes: nat,
}

impl View for FileStats {
    type V = FileStatsView;

    open spec fn view(&self) -> FileStatsView {
        FileStatsView { cid: self.cid@, blocks: self.blocks as nat, bytes: self.bytes as nat }
    }
}

/// The blocks of a vector as pairs of identifier and encoded bytes.
pub open spec fn block_seq(blocks: Seq<Block>) -> Seq<(Seq<u8>, Seq<u8>)> {
    blocks.map_values(|b: Block| (b.cid@, b.data@))
}

/// Whether bytes have the shape of an identifier of the first version: the
/// byte that names the hash function, the byte that gives the digest's
/// length, and the 32 bytes of the digest.
pub open spec fn is_identifier(cid: Seq<u8>) -> bool {
    cid.len() == 34 && cid[0] == 0x12 && cid[1] == 0x20
}

/// Whether every block's identifier has the shape of an identifier.
pub open spec fn all_identified(blocks: Seq<(Seq<u8>, Seq<u8>)>) -> bool {
    forall|i: int| 0 <= i < blocks.len() ==> is_identifier((#[trigger] blocks[i]).0)
}

/// The identifier of the last block, which is the root of the tree; empty
/// where there is no block, which is the case of no tree.
pub open spec fn root_of(blocks: Seq<(Seq<u8>, Seq<u8>)>) -> Seq<u8> {
    if blocks.len() == 0 {
        Seq::empty()
    } else {
        blocks.last().0
    }
}

/// The sum of the lengths of the blocks' encoded bytes.
pub open spec fn payload_len(blocks: Seq<(Seq<u8>, Seq<u8>)>) -> nat
    decreases blocks.len(),
{
    if blocks.len() == 0 {
        0
    } else {
        payload_len(blocks.drop_last()) + blocks.last().1.len()
    }
}

/// The statistics of a sequence of blocks.
pub open spec fn stats_of(blocks: Seq<(Seq<u8>, Seq<u8>)>) -> FileStatsView {
    FileStatsView { cid: root_of(blocks), blocks: blocks.len(), bytes: payload_len(blocks) }
}

/// `ipfs_unixfs::file::adder::FileAdder`, the builder of the hash tree.
/// Nothing inside it is seen here; the only builders that this module makes
/// have the default chunk size and branching.
#[verifier::external_type_specification]
#[verifier::external_body]
pub struct ExFileAdder(FileAdder);

/// The bytes that a tree builder has taken in so far. What is known of it is
/// what the three functions below say, and they are believed, not proved.
pub uninterp spec fn adder_input(adder: FileAdder) -> Seq<u8>;

/// The blocks that `FileAdder::push` hands out when a builder with the
/// default chunk size and branching, which has taken in `input`, takes in
/// `byte`: none while the chunk is not full, and the leaf of the chunk with
/// the link blocks that became due when `byte` fills it. Which blocks these
/// are is not said here: the name stands for them.
pub uninterp spec fn push_blocks(input: Seq<u8>, byte: u8) -> Seq<(Seq<u8>, Seq<u8>)>;

/// The blocks that `FileAdder::finish` hands out after a builder with the
/// default chunk size and branching took in `input`: the leaf of what is
/// buffered, and the link blocks up to the root. Which blocks these are is not
/// said here: the name stands for them.
pub uninterp spec fn finish_blocks(input: Seq<u8>) -> Seq<(Seq<u8>, Seq<u8>)>;

/// The blocks that were handed out while `input` was fed byte by byte.
pub open spec fn pushed_blocks(input: Seq<u8>) -> Seq<(Seq<u8>, Seq<u8>)>
    decreases input.len(),
{
    if input.len() == 0 {
        Seq::empty()
    } else {
        pushed_blocks(input.drop_last()) + push_blocks(input.drop_last(), input.last())
    }
}

/// The blocks of the hash tree over `input`, in the order in which the
/// builder hands them out: those of feeding, then those of closing. The last
/// of them is the root.
pub open spec fn tree_blocks(input: Seq<u8>) -> Seq<(Seq<u8>, Seq<u8>)> {
    pushed_blocks(input) + finish_blocks(input)
}

/// `FileAdder::default`: a builder with the default chunker and collector.
/// Believed: it has taken in nothing.
#[verifier::external_body]
fn adder_new() -> (adder: FileAdder)
    ensures
        adder_input(adder) == Seq::<u8>::empty(),
{
    FileAdder::default()
}

/// `FileAdder::push` with a single byte, with each identifier in its binary
/// form (`Cid::to_bytes`). Believed: the builder takes the byte in, since it
/// keeps fewer bytes buffered than a chunk holds and takes as many bytes as
/// still go into the chunk; the blocks handed out depend on the bytes taken
/// in before and on the byte; and each identifier is that of a SHA-256
/// multihash in the first version, 34 bytes that begin with 0x12 and 0x20.
#[verifier::external_body]
fn adder_push_byte(adder: &mut FileAdder, byte: u8) -> (blocks: Vec<Block>)
    ensures
        adder_input(*final(adder)) == adder_input(*old(adder)).push(byte),
        block_seq(blocks@) == push_blocks(adder_input(*old(adder)), byte),
        all_identified(block_seq(blocks@)),
{
    adder.push(&[byte]).0.map(|(cid, data)| Block { cid: cid.to_bytes(), data }).collect()
}

/// `FileAdder::finish`, with each identifier in its binary form
/// (`Cid::to_bytes`). Believed: the blocks that are handed out, in their
/// order, depend on the bytes taken in and on nothing else; each identifier
/// is 34 bytes that begin with 0x12 and 0x20; and nothing is handed out only
/// where nothing is buffered and a link is kept, which is so only after a
/// byte that filled a chunk, whose leaf the last call of `push` handed out.
#[verifier::external_body]
fn adder_finish(adder: FileAdder) -> (blocks: Vec<Block>)
    ensures
        block_seq(blocks@) == finish_blocks(adder_input(adder)),
        all_identified(block_seq(blocks@)),
        blocks@.len() == 0 ==> adder_input(adder).len() > 0 && push_blocks(
            adder_input(adder).drop_last(),
            adder_input(adder).last(),
        ).len() > 0,
{
    adder.finish().map(|(cid, data)| Block { cid: cid.to_bytes(), data }).collect()
}

/// Builds the hash tree over `input`: feeds the bytes to a fresh builder, one
/// at a time, closes the tree, and keeps every block that was handed out on
/// the way. There is always a block, and the last one is the root.
pub fn close_tree(input: &[u8]) -> (blocks: Vec<Block>)
    ensures
        block_seq(blocks@) == tree_blocks(input@),
        blocks@.len() > 0,
        all_identified(block_seq(blocks@)),
{
    let mut adder = adder_new();
    let mut blocks: Vec<Block> = Vec::new();
    let mut i: usize = 0;
    while i < input.len()
        invariant
            i <= input.len(),
            adder_input(adder) == input@.take(i as int),
            block_seq(blocks@) == pushed_blocks(input@.take(i as int)),
            all_identified(block_seq(blocks@)),
        decreases input.len() - i,
    {
        let ghost before = blocks@;
        let mut ready = adder_push_byte(&mut adder, input[i]);
        let ghost handed = ready@;
        blocks.append(&mut ready);
        proof {
            let fed = input@.take(i + 1);
            assert(fed.drop_last() =~= input@.take(i as int));
            assert(fed.last() == input@[i as int]);
            assert(input@.take(i as int).push(input@[i as int]) =~= fed);
            assert(block_seq(blocks@) =~= block_seq(before) + block_seq(handed));
        }
        i += 1;
    }
    assert(input@.take(i as int) =~= input@);
    let ghost fed = blocks@;
    let mut closing = adder_finish(adder);
    let ghost handed = closing@;
    blocks.append(&mut closing);
    assert(block_seq(blocks@) =~= block_seq(fed) + block_seq(handed));
    blocks
}

/// Whether the lengths of the blocks' encoded bytes add up to a number that
/// a `u64` holds.
pub open spec fn stats_fit(blocks: Seq<(Seq<u8>, Seq<u8>)>) -> bool {
    payload_len(blocks) <= u64::MAX
}

/// A sequence of blocks is no shorter in bytes than any of its beginnings.
pub proof fn lemma_payload_len_take(blocks: Seq<(Seq<u8>, Seq<u8>)>, n: int)
    requires
        0 <= n <= blocks.len(),
    ensures
        payload_len(blocks.take(n)) <= payload_len(blocks),
    decreases blocks.len() - n,
{
    if n == blocks.len() {
        assert(blocks.take(n) =~= blocks);
    } else {
        lemma_payload_len_take(blocks, n + 1);
        assert(blocks.take(n + 1).drop_last() =~= blocks.take(n));
    }
}

/// Tells whether the statistics of `blocks` can be held: whether their bytes
/// can be counted in a `u64`.
pub fn blocks_fit(blocks: &Vec<Block>) -> (fit: bool)
    ensures
        fit == stats_fit(block_seq(blocks@)),
{
    let ghost all = block_seq(blocks@);
    let mut total: u64 = 0;
    let mut i: usize = 0;
    while i < blocks.len()
        invariant
            i <= blocks.len(),
            all == block_seq(blocks@),
            total == payload_len(all.take(i as int)),
        decreases blocks.len() - i,
    {
        let len: u64 = blocks[i].data.len() as u64;
        proof {
            assert(all.take(i + 1).drop_last() =~= all.take(i as int));
            assert(all.take(i + 1).last().1 == blocks@[i as int].data@);
        }
        if len > u64::MAX - total {
            proof {
                lemma_payload_len_take(all, i + 1);
            }
            return false;
        }
        total = total + len;
        i += 1;
    }
    assert(all.take(i as int) =~= all);
    true
}

/// The statistics of the blocks of a tree: the identifier of the last block,
/// the number of blocks, and the bytes they hold together.
pub fn block_stats(blocks: &Vec<Block>) -> (stats: FileStats)
    requires
        stats_fit(block_seq(blocks@)),
    ensures
        stats@ == stats_of(block_seq(blocks@)),
{
    let ghost all = block_seq(blocks@);
    let mut stats = FileStats { cid: Vec::new(), blocks: 0, bytes: 0 };
    let mut i: usize = 0;
    while i < blocks.len()
        invariant
            i <= blocks.len(),
            all == block_seq(blocks@),
            stats_fit(all),
            stats@ == stats_of(all.take(i as int)),
        decreases blocks.len() - i,
    {
        proof {
            assert(all.take(i + 1).drop_last() =~= all.take(i as int));
            assert(all.take(i + 1).last() == (blocks@[i as int].cid@, blocks@[i as int].data@));
            lemma_payload_len_take(all, i + 1);
        }
        stats.cid = blocks[i].cid.clone();
        stats.blocks = stats.blocks + 1;
        stats.bytes = stats.bytes + blocks[i].data.len() as u64;
        i += 1;
    }
    assert(all.take(i as int) =~= all);
    stats
}

/// The statistics of the hash tree over `input`.
///
/// The bytes are fed to a tree builder one at a time. The statistics are
/// those of all the blocks of the tree, and their `cid` is the identifier of
/// the tree's root: 34 bytes, of which the first names the hash function, the
/// second gives the digest's length, and the rest are the digest. There is
/// always a root, so there is at least one block. The bytes of the blocks
/// must be countable in a `u64`; [`checked_compute_cid`] tests that first.
pub fn compute_cid(input: &[u8]) -> (stats: FileStats)
    requires
        stats_fit(tree_blocks(input@)),
    ensures
        stats@ == stats_of(tree_blocks(input@)),
        is_identifier(stats.cid@),
        stats.cid@ == tree_blocks(input@).last().0,
        stats.blocks >= 1,
{
    let blocks = close_tree(input);
    block_stats(&blocks)
}

/// The statistics of the hash tree over `input`, or `None` where the bytes of
/// its blocks cannot be counted in a `u64`. The tree is built once to count,
/// and [`compute_cid`] is called only where the count can be held.
pub fn checked_compute_cid(input: &[u8]) -> (stats: Option<FileStats>)
    ensures
        stats is Some <==> stats_fit(tree_blocks(input@)),
        stats matches Some(s) ==> {
            &&& s@ == stats_of(tree_blocks(input@))
            &&& is_identifier(s.cid@)
            &&& s.cid@ == tree_blocks(input@).last().0
            &&& s.blocks >= 1
        },
{
    let blocks = close_tree(input);
    if blocks_fit(&blocks) {
        Some(compute_cid(input))
    } else {
        None
    }
}

/// Why a record has no content identifier.
#[derive(Clone, Copy, Debug, PartialEq, Eq, Structural)]
pub enum CidError {
    /// The record has no canonical byte form.
    Serialization,
    /// The bytes of the tree's blocks cannot be counted in a `u64`.
    TooLarge,
}

/// `cid::Error`, which tells why bytes are the binary form of no identifier.
#[verifier::external_type_specification]
#[verifier::external_body]
pub struct ExCidParseError(::cid::Error);

/// The text of the content identifier whose binary form is `bytes`; `None`
/// where `bytes` is the binary form of no content identifier. Which text it
/// is is not said here: the name stands for it.
pub uninterp spec fn cid_text(bytes: Seq<u8>) -> Option<Seq<char>>;

/// `Cid::try_from` on a binary form, and `to_string` on the identifier read:
/// for version 0 the base58 text of the multihash, for version 1 the
/// multibase text in lower-case base32. Believed: text and failure depend on
/// the bytes alone; and 34 bytes that begin with 0x12 and 0x20 are read as an
/// identifier of version 0, whatever the 32 bytes behind them, so that they
/// have a text.
#[verifier::external_body]
fn cid_to_text(bytes: &Vec<u8>) -> (text: Result<String, ::cid::Error>)
    ensures
        text matches Ok(t) ==> cid_text(bytes@) == Some(t@),
        text is Err ==> cid_text(bytes@) is None,
        is_identifier(bytes@) ==> text is Ok,
{
    Cid::try_from(bytes.as_slice()).map(|cid| cid.to_string())
}

/// The identifier of the last of `blocks`, empty where there is none.
pub fn root_cid(blocks: &Vec<Block>) -> (cid: Vec<u8>)
    ensures
        cid@ == root_of(block_seq(blocks@)),
{
    if blocks.len() == 0 {
        Vec::new()
    } else {
        blocks[blocks.len() - 1].cid.clone()
    }
}

/// The mathematical value of a text or an error.
pub open spec fn text_view(r: Result<String, CidError>) -> Result<Seq<char>, CidError> {
    match r {
        Ok(text) => Ok(text@),
        Err(e) => Err(e),
    }
}

/// Renders a content identifier, given in binary form, as text; `None` where
/// the bytes are the binary form of no identifier. Bytes with the shape of an
/// identifier of the first version always have a text.
pub fn cid_text_of(cid: &Vec<u8>) -> (text: Option<String>)
    ensures
        text matches Some(t) ==> cid_text(cid@) == Some(t@),
        text is None ==> cid_text(cid@) is None,
        is_identifier(cid@) ==> text is Some,
{
    match cid_to_text(cid) {
        Ok(text) => Some(text),
        Err(_) => None,
    }
}

/// The scheme that stands before an identifier's text in its external form.
pub open spec fn scheme_prefix() -> Seq<char> {
    "ipfs://"@
}

/// The external form of an identifier's text: the scheme, then the text.
pub open spec fn external_form(text: Seq<char>) -> Seq<char> {
    scheme_prefix() + text
}

/// Puts the scheme before an identifier's text.
pub fn to_external_form(text: &String) -> (uri: String)
    ensures
        uri@ == external_form(text@),
{
    let mut uri = String::from_str("ipfs://");
    uri.append(text.as_str());
    uri
}

/// The identifier of the root of the hash tree over `bytes`, in binary form.
pub open spec fn root_identifier(bytes: Seq<u8>) -> Seq<u8> {
    root_of(tree_blocks(bytes))
}

/// The text of the identifier of the root of the hash tree over `bytes`.
pub open spec fn root_text(bytes: Seq<u8>) -> Seq<char> {
    cid_text(root_identifier(bytes)).unwrap()
}

/// The text of the identifier of the hash tree over a canonical byte form. A
/// record with a canonical form has an identifier.
pub open spec fn identifier_text(canonical: Option<Seq<u8>>) -> Result<Seq<char>, CidError> {
    match canonical {
        Some(bytes) => Ok(root_text(bytes)),
        None => Err(CidError::Serialization),
    }
}

/// The external form of the identifier of the hash tree over a canonical byte
/// form.
pub open spec fn identifier_uri(canonical: Option<Seq<u8>>) -> Result<Seq<char>, CidError> {
    match identifier_text(canonical) {
        Ok(text) => Ok(external_form(text)),
        Err(e) => Err(e),
    }
}

/// The statistics of the hash tree over a canonical byte form.
pub open spec fn identifier_stats(canonical: Option<Seq<u8>>) -> Result<FileStatsView, CidError> {
    match canonical {
        Some(bytes) => if stats_fit(tree_blocks(bytes)) {
            Ok(stats_of(tree_blocks(bytes)))
        } else {
            Err(CidError::TooLarge)
        },
        None => Err(CidError::Serialization),
    }
}

/// The mathematical value of statistics or an error.
pub open spec fn stats_view(r: Result<FileStats, CidError>) -> Result<FileStatsView, CidError> {
    match r {
        Ok(stats) => Ok(stats@),
        Err(e) => Err(e),
    }
}

/// The identifier of the root of the hash tree over `input`, in binary form:
/// 34 bytes that begin with 0x12 and 0x20.
pub fn bytes_root_cid(input: &[u8]) -> (cid: Vec<u8>)
    ensures
        cid@ == root_identifier(input@),
        is_identifier(cid@),
{
    let blocks = close_tree(input);
    let cid = root_cid(&blocks);
    let ghost all = block_seq(blocks@);
    assert(is_identifier(all[all.len() - 1].0));
    cid
}

/// The text of the identifier of the hash tree over `input`. Every input has
/// one.
pub fn bytes_cid_string(input: &[u8]) -> (text: String)
    ensures
        text@ == root_text(input@),
        cid_text(root_identifier(input@)) == Some(text@),
{
    let cid = bytes_root_cid(input);
    cid_text_of(&cid).unwrap()
}

/// The external form of the identifier of the hash tree over `input`.
pub fn bytes_formatted_cid(input: &[u8]) -> (uri: String)
    ensures
        uri@ == external_form(root_text(input@)),
{
    let text = bytes_cid_string(input);
    to_external_form(&text)
}

/// The digest inside an identifier of the first version: the 32 bytes behind
/// the two that name the hash function and the digest's length. `None` for
/// any other byte string.
pub open spec fn digest_of(cid: Seq<u8>) -> Option<Seq<u8>> {
    if is_identifier(cid) {
        Some(cid.subrange(2, 34))
    } else {
        None
    }
}

/// The digest inside the identifier of the hash tree over a canonical byte
/// form. A record with a canonical form has one.
pub open spec fn identifier_digest(canonical: Option<Seq<u8>>) -> Result<Seq<u8>, CidError> {
    match canonical {
        Some(bytes) => Ok(root_identifier(bytes).subrange(2, 34)),
        None => Err(CidError::Serialization),
    }
}

/// The mathematical value of a digest or an error.
pub open spec fn digest_view(r: Result<[u8; 32], CidError>) -> Result<Seq<u8>, CidError> {
    match r {
        Ok(digest) => Ok(digest@),
        Err(e) => Err(e),
    }
}

/// Takes the digest out of an identifier given in binary form.
pub fn cid_digest(cid: &Vec<u8>) -> (digest: Option<[u8; 32]>)
    ensures
        digest is Some <==> digest_of(cid@) is Some,
        digest matches Some(d) ==> digest_of(cid@) == Some(d@),
{
    if cid.len() != 34 || cid[0] != 0x12 || cid[1] != 0x20 {
        return None;
    }
    let mut digest = [0u8;32];
    let mut i: usize = 0;
    while i < 32
        invariant
            i <= 32,
            cid.len() == 34,
            forall|k: int| 0 <= k < i ==> digest@[k] == cid@[k + 2],
        decreases 32 - i,
    {
        digest[i] = cid[i + 2];
        i += 1;
    }
    assert(digest@ =~= cid@.subrange(2, 34));
    Some(digest)
}

/// The digest inside a record's content identifier.
pub fn record_digest<R: ComputeCid>(record: &R) -> (r: Result<[u8; 32], CidError>)
    ensures
        digest_view(r) == identifier_digest(record.canonical()),
{
    match record.canonical_bytes() {
        Ok(bytes) => {
            let cid = bytes_root_cid(bytes.as_slice());
            Ok(cid_digest(&cid).unwrap())
        },
        Err(_) => Err(CidError::Serialization),
    }
}

/// A record that has a content identifier.
///
/// A record says what its canonical byte form is; its identifier is that of
/// the hash tree over those bytes.
pub trait ComputeCid {
    /// The canonical byte form of the record, `None` where it has none.
    spec fn canonical(&self) -> Option<Seq<u8>>;

    /// Writes the record in its canonical byte form.
    fn canonical_bytes(&self) -> (r: Result<Vec<u8>, CidError>)
        ensures
            r matches Ok(bytes) ==> self.canonical() == Some(bytes@),
            r matches Err(e) ==> self.canonical() is None && e == CidError::Serialization,
    ;

    /// The statistics of the hash tree over the record's canonical bytes.
    /// Their `cid` is the identifier of the tree's root, 34 bytes that begin
    /// with 0x12 and 0x20, and there is at least one block.
    fn compute_cid(&self) -> (r: Result<FileStats, CidError>)
        ensures
            stats_view(r) == identifier_stats(self.canonical()),
            r matches Ok(stats) ==> {
                &&& is_identifier(stats.cid@)
                &&& stats.cid@ == root_identifier(self.canonical().unwrap())
                &&& stats.blocks >= 1
            },
    {
        match self.canonical_bytes() {
            Ok(bytes) => {
                let blocks = close_tree(bytes.as_slice());
                if blocks_fit(&blocks) {
                    Ok(block_stats(&blocks))
                } else {
                    Err(CidError::TooLarge)
                }
            },
            Err(_) => Err(CidError::Serialization),
        }
    }

    /// The text of the record's content identifier. It fails only where the
    /// record has no canonical form.
    fn cid_string(&self) -> (r: Result<String, CidError>)
        ensures
            text_view(r) == identifier_text(self.canonical()),
            r is Ok <==> self.canonical() is Some,
            r matches Ok(text) ==> cid_text(root_identifier(self.canonical().unwrap())) == Some(
                text@,
            ),
    {
        match self.canonical_bytes() {
            Ok(bytes) => Ok(bytes_cid_string(bytes.as_slice())),
            Err(_) => Err(CidError::Serialization),
        }
    }

    /// The external form of the record's content identifier: the scheme
    /// prefix and the identifier's text. It fails only where the record has
    /// no canonical form.
    fn formatted_cid(&self) -> (r: Result<String, CidError>)
        ensures
            text_view(r) == identifier_uri(self.canonical()),
            r is Ok <==> self.canonical() is Some,
    {
        match self.cid_string() {
            Ok(text) => Ok(to_external_form(&text)),
            Err(e) => Err(e),
        }
    }
}

} // verus!
