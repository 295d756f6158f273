use common::cid::{compute_cid, Attribute, CidError, ComputeCid, Player, Skill};
use common::players::{gen_test_player, Decimal};
use serde::ser::{Serialize, SerializeStruct, Serializer};

fn decimal_of(value: f64) -> Decimal {
    Decimal::new(&serde_json::to_string(&value).unwrap())
}

fn messi() -> Player {
    Player {
        name: "Lionel Messi".to_string(),
        jersey_number: 10,
        description: "A professional footballer who plays as a forward for Paris Saint-Germain and the Argentina national team.".to_string(),
        external_url: "https://en.wikipedia.org/wiki/Lionel_Messi".to_string(),
        image: "https://upload.wikimedia.org/wikipedia/commons/4/47/Lionel_Messi_20180626.jpg".to_string(),
        tier: 1,
        overall_rating: decimal_of(94.0),
        skill_multiplier: decimal_of(1.0),
        skill: Skill {
            speed: 90,
            shooting: 95,
            passing: 90,
            dribbling: 96,
            defense: 32,
            physical: 68,
            goal_tending: 0,
        },
        attributes: vec![
            Attribute {
                display_type: "Physical".to_string(),
                trait_type: "Height".to_string(),
                value: decimal_of(170.0),
            },
            Attribute {
                display_type: "Physical".to_string(),
                trait_type: "Weight".to_string(),
                value: decimal_of(72.0),
            },
        ],
    }
}

/// The same records with the fields a float-based program would hold,
/// serialised field by field in the order of declaration.
struct FloatSkill(Skill);

struct FloatAttribute {
    display_type: String,
    trait_type: String,
    value: f64,
}

struct FloatPlayer {
    name: String,
    jersey_number: u8,
    description: String,
    external_url: String,
    image: String,
    tier: u8,
    overall_rating: f64,
    skill_multiplier: f64,
    skill: FloatSkill,
    attributes: Vec<FloatAttribute>,
}

impl Serialize for FloatSkill {
    fn serialize<S: Serializer>(&self, serializer: S) -> Result<S::Ok, S::Error> {
        let mut s = serializer.serialize_struct("Skill", 7)?;
        s.serialize_field("speed", &self.0.speed)?;
        s.serialize_field("shooting", &self.0.shooting)?;
        s.serialize_field("passing", &self.0.passing)?;
        s.serialize_field("dribbling", &self.0.dribbling)?;
        s.serialize_field("defense", &self.0.defense)?;
        s.serialize_field("physical", &self.0.physical)?;
        s.serialize_field("goal_tending", &self.0.goal_tending)?;
        s.end()
    }
}

impl Serialize for FloatAttribute {
    fn serialize<S: Serializer>(&self, serializer: S) -> Result<S::Ok, S::Error> {
        let mut s = serializer.serialize_struct("Attribute", 3)?;
        s.serialize_field("display_type", &self.display_type)?;
        s.serialize_field("trait_type", &self.trait_type)?;
        s.serialize_field("value", &self.value)?;
        s.end()
    }
}

impl Serialize for FloatPlayer {
    fn serialize<S: Serializer>(&self, serializer: S) -> Result<S::Ok, S::Error> {
        let mut s = serializer.serialize_struct("Player", 10)?;
        s.serialize_field("name", &self.name)?;
        s.serialize_field("jersey_number", &self.jersey_number)?;
        s.serialize_field("description", &self.description)?;
        s.serialize_field("external_url", &self.external_url)?;
        s.serialize_field("image", &self.image)?;
        s.serialize_field("tier", &self.tier)?;
        s.serialize_field("overall_rating", &self.overall_rating)?;
        s.serialize_field("skill_multiplier", &self.skill_multiplier)?;
        s.serialize_field("skill", &self.skill)?;
        s.serialize_field("attributes", &self.attributes)?;
        s.end()
    }
}

fn float_messi() -> FloatPlayer {
    let p = messi();
    FloatPlayer {
        name: p.name,
        jersey_number: p.jersey_number,
        description: p.description,
        external_url: p.external_url,
        image: p.image,
        tier: p.tier,
        overall_rating: 94.0,
        skill_multiplier: 1.0,
        skill: FloatSkill(p.skill),
        attributes: vec![
            FloatAttribute {
                display_type: "Physical".to_string(),
                trait_type: "Height".to_string(),
                value: 170.0,
            },
            FloatAttribute {
                display_type: "Physical".to_string(),
                trait_type: "Weight".to_string(),
                value: 72.0,
            },
        ],
    }
}

#[test]
fn test_compute_cid() {
    let player = messi();
    let stats = player.compute_cid().unwrap();
    println!("{:?}", stats);
    println!("{:02X?}", &player.compute_cid().unwrap().cid[2..].to_vec());
    assert_eq!(stats.blocks, 1);
    assert_eq!(stats.cid.len(), 34);
    assert_eq!(&stats.cid[..2], &[0x12, 0x20]);
    let same = compute_cid(serde_json::to_string(&float_messi()).unwrap().as_bytes());
    assert_eq!(stats.cid, same.cid);
    assert_eq!(stats.blocks, same.blocks);
    assert_eq!(stats.bytes, same.bytes);
}

#[test]
fn canonical_bytes_of_messi_are_the_json_text() {
    let bytes = messi().canonical_bytes().unwrap();
    let expected = "{\"name\":\"Lionel Messi\",\"jersey_number\":10,\"description\":\"A professional footballer who plays as a forward for Paris Saint-Germain and the Argentina national team.\",\"external_url\":\"https://en.wikipedia.org/wiki/Lionel_Messi\",\"image\":\"https://upload.wikimedia.org/wikipedia/commons/4/47/Lionel_Messi_20180626.jpg\",\"tier\":1,\"overall_rating\":94.0,\"skill_multiplier\":1.0,\"skill\":{\"speed\":90,\"shooting\":95,\"passing\":90,\"dribbling\":96,\"defense\":32,\"physical\":68,\"goal_tending\":0},\"attributes\":[{\"display_type\":\"Physical\",\"trait_type\":\"Height\",\"value\":170.0},{\"display_type\":\"Physical\",\"trait_type\":\"Weight\",\"value\":72.0}]}";
    assert_eq!(String::from_utf8(bytes.clone()).unwrap(), expected);
    assert_eq!(bytes, serde_json::to_vec(&float_messi()).unwrap());
}

#[test]
fn the_sample_player() {
    let sample = gen_test_player();
    assert_eq!(sample, messi());
    assert_eq!(sample.name, "Lionel Messi");
    assert_eq!(sample.jersey_number, 10);
    assert_eq!(sample.tier, 1);
    assert_eq!(sample.overall_rating.literal, "94.0");
    assert_eq!(sample.skill_multiplier.literal, "1.0");
    assert_eq!(sample.skill.dribbling, 96);
    assert_eq!(sample.attributes.len(), 2);
    assert_eq!(sample.attributes[0].trait_type, "Height");
    assert_eq!(sample.attributes[0].value.literal, "170.0");
    assert_eq!(sample.attributes[1].trait_type, "Weight");
    assert_eq!(sample.attributes[1].value.literal, "72.0");
    assert_eq!(
        sample.canonical_bytes().unwrap(),
        serde_json::to_vec(&float_messi()).unwrap()
    );
}

#[test]
fn skill_in_canonical_form() {
    let bytes = messi().skill.canonical_bytes().unwrap();
    assert_eq!(
        String::from_utf8(bytes.clone()).unwrap(),
        "{\"speed\":90,\"shooting\":95,\"passing\":90,\"dribbling\":96,\"defense\":32,\"physical\":68,\"goal_tending\":0}"
    );
    assert_eq!(bytes, serde_json::to_vec(&FloatSkill(messi().skill)).unwrap());
    assert_eq!(messi().skill.compute_cid().unwrap().cid, compute_cid(&bytes).cid);
    let all = Skill {
        speed: 0,
        shooting: 9,
        passing: 10,
        dribbling: 99,
        defense: 100,
        physical: 200,
        goal_tending: 255,
    };
    assert_eq!(
        all.canonical_bytes().unwrap(),
        serde_json::to_vec(&FloatSkill(all)).unwrap()
    );
}

#[test]
fn attribute_in_canonical_form() {
    let attribute = Attribute {
        display_type: "Physical \"raw\"".to_string(),
        trait_type: "Height\n(cm)".to_string(),
        value: decimal_of(170.25),
    };
    let expected = serde_json::to_vec(&FloatAttribute {
        display_type: attribute.display_type.clone(),
        trait_type: attribute.trait_type.clone(),
        value: 170.25,
    })
    .unwrap();
    assert_eq!(attribute.canonical_bytes().unwrap(), expected);
    assert_eq!(
        String::from_utf8(expected).unwrap(),
        "{\"display_type\":\"Physical \\\"raw\\\"\",\"trait_type\":\"Height\\n(cm)\",\"value\":170.25}"
    );
}

#[test]
fn a_player_without_attributes() {
    let mut player = messi();
    player.attributes.clear();
    let mut float = float_messi();
    float.attributes.clear();
    let bytes = player.canonical_bytes().unwrap();
    assert_eq!(bytes, serde_json::to_vec(&float).unwrap());
    assert!(String::from_utf8(bytes).unwrap().ends_with(",\"attributes\":[]}"));
}

#[test]
fn a_record_with_a_bad_decimal_has_no_identifier() {
    for bad in ["", "null", "NaN", "94,0", "094.0", "94.", "1e"] {
        let mut player = messi();
        player.overall_rating = Decimal::new(bad);
        assert!(!player.overall_rating.is_valid());
        assert_eq!(player.canonical_bytes(), Err(CidError::Serialization));
        assert_eq!(player.compute_cid().err(), Some(CidError::Serialization));
        assert_eq!(player.cid_string(), Err(CidError::Serialization));
        assert_eq!(player.formatted_cid(), Err(CidError::Serialization));

        let mut player = messi();
        player.skill_multiplier = Decimal::new(bad);
        assert_eq!(player.formatted_cid(), Err(CidError::Serialization));

        let mut player = messi();
        player.attributes[1].value = Decimal::new(bad);
        assert_eq!(player.formatted_cid(), Err(CidError::Serialization));
        assert_eq!(player.attributes[1].cid_string(), Err(CidError::Serialization));
        assert!(player.attributes[0].cid_string().is_ok());
    }
    assert!(decimal_of(94.0).is_valid());
    assert!(!decimal_of(f64::NAN).is_valid());
}

#[test]
fn the_identifier_is_the_same_each_time() {
    let first = messi().formatted_cid().unwrap();
    let second = messi().formatted_cid().unwrap();
    assert_eq!(first, second);
    assert_eq!(messi().compute_cid().unwrap().cid, messi().compute_cid().unwrap().cid);
    assert_eq!(first, format!("ipfs://{}", messi().cid_string().unwrap()));
}

#[test]
fn every_field_changes_the_identifier() {
    let base = messi().cid_string().unwrap();
    let mut changed: Vec<Player> = Vec::new();
    let mut p = messi();
    p.name.push('!');
    changed.push(p);
    let mut p = messi();
    p.jersey_number = 7;
    changed.push(p);
    let mut p = messi();
    p.description.clear();
    changed.push(p);
    let mut p = messi();
    p.external_url.push('/');
    changed.push(p);
    let mut p = messi();
    p.image = "\"".to_string();
    changed.push(p);
    let mut p = messi();
    p.tier = 2;
    changed.push(p);
    let mut p = messi();
    p.overall_rating = decimal_of(94.5);
    changed.push(p);
    let mut p = messi();
    p.skill_multiplier = decimal_of(1.5);
    changed.push(p);
    let mut p = messi();
    p.skill.goal_tending = 1;
    changed.push(p);
    let mut p = messi();
    p.skill.speed = 9;
    changed.push(p);
    let mut p = messi();
    p.attributes[0].trait_type = "Weight".to_string();
    changed.push(p);
    let mut p = messi();
    p.attributes[1].value = decimal_of(72.5);
    changed.push(p);
    let mut p = messi();
    p.attributes.pop();
    changed.push(p);
    let mut p = messi();
    p.attributes.push(p.attributes[0].clone());
    changed.push(p);
    let mut seen = vec![base];
    for p in changed {
        let text = p.cid_string().unwrap();
        assert!(!seen.contains(&text));
        seen.push(text);
    }
}

#[test]
fn the_order_of_the_attributes_is_part_of_the_record() {
    let mut swapped = messi();
    swapped.attributes.swap(0, 1);
    assert_ne!(swapped.canonical_bytes().unwrap(), messi().canonical_bytes().unwrap());
    assert_ne!(swapped.cid_string().unwrap(), messi().cid_string().unwrap());
    let mut float = float_messi();
    float.attributes.swap(0, 1);
    assert_eq!(swapped.canonical_bytes().unwrap(), serde_json::to_vec(&float).unwrap());
    swapped.attributes.swap(0, 1);
    assert_eq!(swapped.cid_string().unwrap(), messi().cid_string().unwrap());
}

fn player_of_one_chunk(fill: char) -> Player {
    let mut player = messi();
    let short = player.canonical_bytes().unwrap().len();
    for _ in short..256 * 1024 {
        player.description.push(fill);
    }
    assert_eq!(player.canonical_bytes().unwrap().len(), 256 * 1024);
    player
}

#[test]
fn a_record_of_exactly_one_chunk_has_an_identifier() {
    let player = player_of_one_chunk('a');
    let stats = player.compute_cid().unwrap();
    assert_eq!(stats.cid.len(), 34);
    assert_eq!(&stats.cid[..2], &[0x12, 0x20]);
    assert_eq!(stats.blocks, 1);
    assert!(stats.bytes > 256 * 1024);
    let text = player.cid_string().unwrap();
    assert!(text.starts_with("Qm"));
    assert_eq!(player.formatted_cid().unwrap(), format!("ipfs://{}", text));

    let other = player_of_one_chunk('b');
    assert_ne!(other.compute_cid().unwrap().cid, stats.cid);
    assert_ne!(other.cid_string().unwrap(), text);
}

#[test]
fn messi_digest() {
    let stats = messi().compute_cid().unwrap();
    let hex: String = stats.cid[2..].iter().map(|b| format!("{:02X}", b)).collect();
    println!("{}", hex);
    assert_eq!(hex, "CB8A8DE3C125E9EEE950071D181386F899492E1F8E1ADB5B2D1FEC44BC388050");
}
