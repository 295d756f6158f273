use common::cid::{CidError, ComputeCid};
use common::error::{is_retryable, ErrorKind};
use common::journal::{Commitment, LeafJournal};
use common::leaf::{
    asserted, check_stored_identifier, leaf_error_kind, leaf_transition, verify_leaf, LeafError,
    LeafEvent, LeafState, LedgerEntry,
};
use common::players::{Attribute, Decimal, Player, Skill};

fn messi(jersey_number: u8) -> Player {
    Player {
        name: "Lionel Messi".to_string(),
        jersey_number,
        description: "A professional footballer who plays as a forward for Paris Saint-Germain and the Argentina national team.".to_string(),
        external_url: "https://en.wikipedia.org/wiki/Lionel_Messi".to_string(),
        image: "https://upload.wikimedia.org/wikipedia/commons/4/47/Lionel_Messi_20180626.jpg".to_string(),
        tier: 1,
        overall_rating: Decimal::new("94.0"),
        skill_multiplier: Decimal::new("1.0"),
        skill: Skill {
            speed: 90,
            shooting: 95,
            passing: 90,
            dribbling: 96,
            defense: 32,
            physical: 68,
            goal_tending: 0,
        },
        attributes: vec![
            Attribute {
                display_type: "Physical".to_string(),
                trait_type: "Height".to_string(),
                value: Decimal::new("170.0"),
            },
            Attribute {
                display_type: "Physical".to_string(),
                trait_type: "Weight".to_string(),
                value: Decimal::new("72.0"),
            },
        ],
    }
}

fn commitment() -> Commitment {
    let mut id = [0u8; 32];
    id[31] = 42;
    Commitment { id, digest: [0x5a; 32] }
}

const OWNER: [u8; 20] = [0x11; 20];

const TOKEN: [u8; 32] = [0; 32];

#[test]
fn end_to_end_leaf() {
    let record = messi(10);
    let digest: String = record.compute_cid().unwrap().cid[2..]
        .iter()
        .map(|b| format!("{:02X}", b))
        .collect();
    assert_eq!(digest, "CB8A8DE3C125E9EEE950071D181386F899492E1F8E1ADB5B2D1FEC44BC388050");
    let uri = record.formatted_cid().unwrap();
    assert_eq!(uri, format!("ipfs://{}", record.cid_string().unwrap()));
    assert!(uri.starts_with("ipfs://Qm"));
    assert_eq!(uri.len(), 7 + 46);

    let entry = LedgerEntry { owner: OWNER, uri: uri.clone() };
    let journal = verify_leaf(&record, &TOKEN, &entry, &commitment()).unwrap();
    assert_eq!(journal, LeafJournal { commitment: commitment(), owner: OWNER });
    assert_eq!(journal.owner, entry.owner);

    let changed = messi(7);
    assert_ne!(changed.cid_string().unwrap(), record.cid_string().unwrap());
    let failure = verify_leaf(&changed, &TOKEN, &entry, &commitment()).unwrap_err();
    assert_eq!(
        failure,
        LeafError::AssertionFailure {
            token_id: TOKEN,
            computed: changed.formatted_cid().unwrap(),
            stored: uri,
        }
    );
    assert_eq!(leaf_error_kind(&failure), ErrorKind::AssertionFailure);
    assert!(!is_retryable(leaf_error_kind(&failure)));
}

#[test]
fn leaf_of_a_record_of_exactly_one_chunk() {
    let mut record = messi(10);
    let short = record.canonical_bytes().unwrap().len();
    for _ in short..256 * 1024 {
        record.description.push('x');
    }
    assert_eq!(record.canonical_bytes().unwrap().len(), 256 * 1024);
    let entry = LedgerEntry { owner: OWNER, uri: record.formatted_cid().unwrap() };
    assert_eq!(
        verify_leaf(&record, &TOKEN, &entry, &commitment()),
        Ok(LeafJournal { commitment: commitment(), owner: OWNER })
    );
    record.description.pop();
    record.description.push('y');
    assert!(matches!(
        verify_leaf(&record, &TOKEN, &entry, &commitment()),
        Err(LeafError::AssertionFailure { .. })
    ));
}

#[test]
fn leaf_of_a_record_without_canonical_form() {
    let mut record = messi(10);
    record.overall_rating = Decimal::new("NaN");
    let entry = LedgerEntry { owner: OWNER, uri: messi(10).formatted_cid().unwrap() };
    let failure = verify_leaf(&record, &TOKEN, &entry, &commitment()).unwrap_err();
    assert_eq!(failure, LeafError::Identifier(CidError::Serialization));
    assert_eq!(leaf_error_kind(&failure), ErrorKind::Serialization);
}

#[test]
fn stored_identifier_must_be_the_same_text() {
    let entry = LedgerEntry { owner: OWNER, uri: "ipfs://QmAbc".to_string() };
    assert_eq!(
        check_stored_identifier("ipfs://QmAbc".to_string(), &TOKEN, &entry, &commitment()),
        Ok(LeafJournal { commitment: commitment(), owner: OWNER })
    );
    for other in ["ipfs://QmAbd", "ipfs://QmAb", "ipfs://QmAbc ", "QmAbc", "IPFS://QmAbc", ""] {
        assert_eq!(
            check_stored_identifier(other.to_string(), &[9; 32], &entry, &commitment()),
            Err(LeafError::AssertionFailure {
                token_id: [9; 32],
                computed: other.to_string(),
                stored: "ipfs://QmAbc".to_string(),
            })
        );
    }
}

#[test]
fn leaf_prover_goes_from_idle_to_done() {
    let mut state = LeafState::Idle;
    for event in [
        LeafEvent::Started,
        LeafEvent::ReadsCompleted,
        LeafEvent::Asserted { same: true },
        LeafEvent::ProofReady,
    ] {
        state = leaf_transition(state, event).unwrap();
    }
    assert_eq!(state, LeafState::Done);
}

#[test]
fn leaf_prover_transitions() {
    let states = [
        LeafState::Idle,
        LeafState::Executing,
        LeafState::Asserting,
        LeafState::Proving,
        LeafState::Done,
        LeafState::Failed,
    ];
    let events = [
        LeafEvent::Started,
        LeafEvent::ReadsCompleted,
        LeafEvent::Asserted { same: true },
        LeafEvent::Asserted { same: false },
        LeafEvent::ProofReady,
        LeafEvent::BackendFailed,
    ];
    for state in states {
        for event in events {
            let expected = match (state, event) {
                (LeafState::Idle, LeafEvent::Started) => Some(LeafState::Executing),
                (LeafState::Executing, LeafEvent::ReadsCompleted) => Some(LeafState::Asserting),
                (LeafState::Asserting, LeafEvent::Asserted { same: true }) => {
                    Some(LeafState::Proving)
                }
                (LeafState::Asserting, LeafEvent::Asserted { same: false }) => {
                    Some(LeafState::Failed)
                }
                (LeafState::Proving, LeafEvent::ProofReady) => Some(LeafState::Done),
                (LeafState::Executing, LeafEvent::BackendFailed)
                | (LeafState::Asserting, LeafEvent::BackendFailed)
                | (LeafState::Proving, LeafEvent::BackendFailed) => Some(LeafState::Failed),
                _ => None,
            };
            assert_eq!(leaf_transition(state, event), expected, "{:?} {:?}", state, event);
        }
    }
}

#[test]
fn a_failed_assertion_gives_no_proof() {
    let entry = LedgerEntry { owner: OWNER, uri: "ipfs://elsewhere".to_string() };
    let result = verify_leaf(&messi(10), &TOKEN, &entry, &commitment());
    let event = asserted(&result);
    assert_eq!(event, LeafEvent::Asserted { same: false });
    let state = leaf_transition(LeafState::Asserting, event).unwrap();
    assert_eq!(state, LeafState::Failed);
    assert_eq!(leaf_transition(state, LeafEvent::ProofReady), None);

    let entry = LedgerEntry { owner: OWNER, uri: messi(10).formatted_cid().unwrap() };
    let result = verify_leaf(&messi(10), &TOKEN, &entry, &commitment());
    assert_eq!(asserted(&result), LeafEvent::Asserted { same: true });
}

#[test]
fn only_fetching_and_proving_may_be_tried_again() {
    assert!(is_retryable(ErrorKind::StateFetch));
    assert!(is_retryable(ErrorKind::ProverBackend));
    assert!(!is_retryable(ErrorKind::Serialization));
    assert!(!is_retryable(ErrorKind::AssertionFailure));
    assert!(!is_retryable(ErrorKind::AssumptionVerification));
}
