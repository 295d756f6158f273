use alloy_primitives::{Address, B256, U256};
use alloy_sol_types::SolValue;
use common::journal::{
    decode_leaf_journal, encode_aggregate_journal, encode_leaf_journal, AggregateJournal,
    Commitment, LeafJournal,
};

fn word(first: u8) -> [u8; 32] {
    let mut w = [0u8; 32];
    for (i, b) in w.iter_mut().enumerate() {
        *b = first.wrapping_add(i as u8);
    }
    w
}

fn sample() -> LeafJournal {
    let mut owner = [0u8; 20];
    for (i, b) in owner.iter_mut().enumerate() {
        *b = 0xa0 + i as u8;
    }
    LeafJournal { commitment: Commitment { id: word(1), digest: word(100) }, owner }
}

#[test]
fn leaf_journal_is_three_words() {
    let journal = sample();
    let bytes = encode_leaf_journal(&journal);
    assert_eq!(bytes.len(), 96);
    assert_eq!(&bytes[..32], &journal.commitment.id);
    assert_eq!(&bytes[32..64], &journal.commitment.digest);
    assert_eq!(&bytes[64..76], &[0u8; 12]);
    assert_eq!(&bytes[76..], &journal.owner);
}

#[test]
fn leaf_journal_is_abi_encoded() {
    let journal = sample();
    let expected = (
        (U256::from_be_bytes(journal.commitment.id), B256::from(journal.commitment.digest)),
        Address::from(journal.owner),
    )
        .abi_encode();
    assert_eq!(encode_leaf_journal(&journal), expected);
}

#[test]
fn leaf_journal_reads_back() {
    let journal = sample();
    let bytes = encode_leaf_journal(&journal);
    assert_eq!(decode_leaf_journal(&bytes), Some(journal));
}

#[test]
fn leaf_journal_rejects_other_bytes() {
    let bytes = encode_leaf_journal(&sample());
    assert_eq!(decode_leaf_journal(&[]), None);
    assert_eq!(decode_leaf_journal(&bytes[..95]), None);
    let mut long = bytes.clone();
    long.push(0);
    assert_eq!(decode_leaf_journal(&long), None);
    for i in 64..76 {
        let mut dirty = bytes.clone();
        dirty[i] = 1;
        assert_eq!(decode_leaf_journal(&dirty), None);
    }
    let mut changed = bytes.clone();
    changed[95] ^= 0xff;
    let other = decode_leaf_journal(&changed).unwrap();
    assert_ne!(other, sample());
    assert_eq!(other.commitment, sample().commitment);
}

#[test]
fn different_leaf_journals_have_different_bytes() {
    let a = sample();
    let mut b = a;
    b.owner[19] ^= 1;
    let mut c = a;
    c.commitment.digest[0] ^= 1;
    let mut d = a;
    d.commitment.id[31] ^= 1;
    let all = [a, b, c, d];
    for i in 0..all.len() {
        for j in 0..all.len() {
            assert_eq!(
                encode_leaf_journal(&all[i]) == encode_leaf_journal(&all[j]),
                i == j
            );
        }
    }
}

#[test]
fn aggregate_journal_is_abi_encoded() {
    let mut ids = [[0u8; 32]; 11];
    for (i, id) in ids.iter_mut().enumerate() {
        id[31] = i as u8;
        id[0] = 0x80;
    }
    let journal = AggregateJournal {
        commitment: Commitment { id: word(3), digest: word(9) },
        team_cid: word(200),
        player_ids: ids.to_vec(),
    };
    let bytes = encode_aggregate_journal(&journal);
    assert_eq!(bytes.len(), 32 * (3 + 11));
    let numbers: [U256; 11] = ids.map(U256::from_be_bytes);
    let expected = (
        (U256::from_be_bytes(journal.commitment.id), B256::from(journal.commitment.digest)),
        B256::from(journal.team_cid),
        numbers,
    )
        .abi_encode();
    assert_eq!(bytes, expected);
}

#[test]
fn aggregate_journal_without_references() {
    let journal = AggregateJournal {
        commitment: Commitment { id: word(3), digest: word(9) },
        team_cid: word(200),
        player_ids: Vec::new(),
    };
    let bytes = encode_aggregate_journal(&journal);
    assert_eq!(bytes.len(), 96);
    assert_eq!(&bytes[64..], &journal.team_cid);
}
