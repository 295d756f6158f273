use common::cid::{
    block_stats, blocks_fit, bytes_cid_string, bytes_formatted_cid, bytes_root_cid,
    checked_compute_cid, cid_digest, cid_text_of, close_tree, compute_cid, root_cid,
    to_external_form, Block,
};
use ipfs_unixfs::file::adder::FileAdder;

const CHUNK: usize = 256 * 1024;

/// The root that the tree builder gives when it is fed whole slices.
fn root_of_slices(input: &[u8]) -> Vec<u8> {
    let mut adder = FileAdder::default();
    let mut last = None;
    let mut fed = 0;
    while fed < input.len() {
        let (blocks, taken) = adder.push(&input[fed..]);
        for (cid, _) in blocks {
            last = Some(cid);
        }
        fed += taken;
    }
    for (cid, _) in adder.finish() {
        last = Some(cid);
    }
    last.unwrap().to_bytes()
}

fn assert_identifier(cid: &[u8]) {
    assert_eq!(cid.len(), 34);
    assert_eq!(&cid[..2], &[0x12, 0x20]);
}

#[test]
fn compute_cid_of_foobar() {
    let stats = compute_cid(b"foobar\n");
    assert_eq!(stats.blocks, 1);
    assert_identifier(&stats.cid);
    // A single leaf: the file's bytes and a few bytes of framing.
    assert_eq!(stats.bytes, 15);
    let text = bytes_cid_string(b"foobar\n");
    assert_eq!(text, "QmRgutAxd8t7oGkSm4wmeuByG6M51wcTso6cubDdQtuEfL");
    assert_eq!(
        bytes_formatted_cid(b"foobar\n"),
        "ipfs://QmRgutAxd8t7oGkSm4wmeuByG6M51wcTso6cubDdQtuEfL"
    );
    assert!(checked_compute_cid(b"foobar\n").is_some());
}

#[test]
fn compute_cid_of_nothing() {
    let stats = compute_cid(b"");
    assert_eq!(stats.blocks, 1);
    assert_eq!(stats.bytes, 6);
    assert_identifier(&stats.cid);
    assert_eq!(bytes_cid_string(b""), "QmbFMke1KXqnYyBBWxB74N4c5SBnJMVAiMNRcGu6x1AwQH");
}

#[test]
fn the_same_bytes_give_the_same_identifier() {
    let input = b"a record, twice";
    let first = compute_cid(input);
    let second = compute_cid(input);
    assert_eq!(first.cid, second.cid);
    assert_eq!(first.blocks, second.blocks);
    assert_eq!(first.bytes, second.bytes);
    assert_eq!(bytes_formatted_cid(input), bytes_formatted_cid(input));
    let checked = checked_compute_cid(input).unwrap();
    assert_eq!(checked.cid, first.cid);
    assert_eq!(checked.blocks, first.blocks);
    assert_eq!(checked.bytes, first.bytes);
    assert_eq!(bytes_root_cid(input), first.cid);
}

#[test]
fn other_bytes_give_another_identifier() {
    assert_ne!(compute_cid(b"jersey 10").cid, compute_cid(b"jersey 7").cid);
    assert_ne!(bytes_cid_string(b"jersey 10"), bytes_cid_string(b"jersey 7"));
}

#[test]
fn a_full_chunk_has_its_leaf_as_root() {
    // The one leaf becomes ready with the last byte; closing the tree has
    // nothing more to hand out, and the leaf is the root.
    let input = vec![7u8; CHUNK];
    let blocks = close_tree(&input);
    assert_eq!(blocks.len(), 1);
    let stats = compute_cid(&input);
    assert_eq!(stats.blocks, 1);
    assert_eq!(stats.bytes, blocks[0].data.len() as u64);
    assert!(stats.bytes > CHUNK as u64);
    assert_identifier(&stats.cid);
    assert_eq!(stats.cid, blocks[0].cid);
    assert_eq!(stats.cid, root_of_slices(&input));
    assert_eq!(bytes_root_cid(&input), stats.cid);
    let text = bytes_cid_string(&input);
    assert!(text.starts_with("Qm"));
    assert_eq!(text.len(), 46);
    assert_eq!(bytes_formatted_cid(&input), format!("ipfs://{}", text));
    // Another chunk of the same length has another identifier.
    let other = vec![8u8; CHUNK];
    assert_identifier(&compute_cid(&other).cid);
    assert_ne!(compute_cid(&other).cid, stats.cid);
}

#[test]
fn one_byte_over_a_chunk_has_two_leaves_and_a_root() {
    let input = vec![7u8; CHUNK + 1];
    let blocks = close_tree(&input);
    assert_eq!(blocks.len(), 3);
    let stats = compute_cid(&input);
    assert_eq!(stats.blocks, 3);
    assert_eq!(stats.cid, blocks[2].cid);
    assert_eq!(
        stats.bytes,
        (blocks[0].data.len() + blocks[1].data.len() + blocks[2].data.len()) as u64
    );
    assert_identifier(&stats.cid);
    assert_eq!(stats.cid, root_of_slices(&input));
    assert!(bytes_cid_string(&input).starts_with("Qm"));
}

#[test]
fn two_full_chunks_have_a_root_over_both() {
    let input = vec![7u8; 2 * CHUNK];
    let blocks = close_tree(&input);
    assert_eq!(blocks.len(), 3);
    assert_eq!(blocks[0].cid, blocks[1].cid);
    assert_ne!(blocks[2].cid, blocks[1].cid);
    assert_eq!(compute_cid(&input).cid, root_of_slices(&input));
}

#[test]
fn byte_by_byte_gives_the_root_of_whole_slices() {
    for input in [
        Vec::new(),
        b"foobar\n".to_vec(),
        vec![1u8; 1000],
        vec![2u8; CHUNK - 1],
        vec![3u8; CHUNK + 7],
    ] {
        let cid = bytes_root_cid(&input);
        assert_identifier(&cid);
        assert_eq!(cid, root_of_slices(&input));
    }
}

#[test]
fn block_stats_counts_blocks_and_bytes() {
    let blocks = vec![
        Block { cid: vec![1, 2, 3], data: vec![0; 10] },
        Block { cid: vec![4, 5], data: vec![0; 32] },
        Block { cid: vec![6], data: vec![] },
    ];
    assert!(blocks_fit(&blocks));
    let stats = block_stats(&blocks);
    assert_eq!(stats.cid, vec![6]);
    assert_eq!(stats.blocks, 3);
    assert_eq!(stats.bytes, 42);
    assert_eq!(root_cid(&blocks), vec![6]);

    let none: Vec<Block> = Vec::new();
    assert!(blocks_fit(&none));
    let stats = block_stats(&none);
    assert!(stats.cid.is_empty());
    assert_eq!(stats.blocks, 0);
    assert_eq!(stats.bytes, 0);
    assert!(root_cid(&none).is_empty());
}

#[test]
fn text_of_an_identifier() {
    let cid = compute_cid(b"foobar\n").cid;
    assert_eq!(
        cid_text_of(&cid).unwrap(),
        "QmRgutAxd8t7oGkSm4wmeuByG6M51wcTso6cubDdQtuEfL"
    );
    assert_eq!(cid_text_of(&Vec::new()), None);
    assert_eq!(cid_text_of(&vec![1, 2, 3]), None);
    // The text is not the bytes handed back.
    assert_ne!(cid_text_of(&cid).unwrap().as_bytes(), &cid[..]);
}

#[test]
fn every_identifier_of_the_first_version_has_a_text() {
    for fill in [0x00u8, 0x01, 0x7f, 0xff] {
        let mut cid = vec![fill; 34];
        cid[0] = 0x12;
        cid[1] = 0x20;
        let text = cid_text_of(&cid).unwrap();
        assert!(text.starts_with("Qm"));
        assert_eq!(text.len(), 46);
        assert!(cid_digest(&cid).is_some());
    }
}

#[test]
fn external_form_puts_the_scheme_first() {
    assert_eq!(to_external_form(&"QmAbc".to_string()), "ipfs://QmAbc");
    assert_eq!(to_external_form(&String::new()), "ipfs://");
}

#[test]
fn digest_of_an_identifier() {
    let cid = compute_cid(b"foobar\n").cid;
    let digest = cid_digest(&cid).unwrap();
    assert_eq!(&digest[..], &cid[2..]);
    assert_eq!(cid_digest(&Vec::new()), None);
    assert_eq!(cid_digest(&vec![0x12; 34]), None);
    let mut short = cid.clone();
    short.pop();
    assert_eq!(cid_digest(&short), None);
    let mut other = cid.clone();
    other[0] = 0x13;
    assert_eq!(cid_digest(&other), None);
}
