use crate::cid::{CidError, ComputeCid};
use crate::bytes::{lemma_concat_laws, write_byte, write_bytes};
use crate::json::{
    check_number, close_array, close_object, is_number, key, literal_field, next, number_field,
    open_array, open_object, skip_digits, string_field, write_key, write_string, write_u8,
};
use vstd::prelude::*;
use vstd::string::*;
use vstd::utf8::{encode_utf8, is_ascii_chars_encode_utf8};

verus! {

/// A decimal number, held as the text of its literal, so that the canonical
/// form of a record never depends on how a machine prints a fraction.
///
/// A literal is an optional minus sign, an integer part without leading
/// zeros, an optional fraction and an optional exponent: `94.0`, `-0.5`,
/// `1e21`. A record with any other text in such a field has no canonical form.
#[derive(Clone, Debug, PartialEq, Eq)]
pub struct Decimal {
    pub literal: String,
}

impl Decimal {
    /// Holds `literal` as it stands.
    pub fn new(literal: &str) -> (d: Decimal)
        ensures
            d.literal@ == literal@,
    {
        Decimal { literal: String::from_str(literal) }
    }

    /// Whether the text is a number literal.
    pub open spec fn valid(&self) -> bool {
        is_number(encode_utf8(self.literal@))
    }

    /// Tells whether the text is a number literal.
    pub fn is_valid(&self) -> (ok: bool)
        ensures
            ok == self.valid(),
    {
        check_number(self.literal.as_str().as_bytes())
    }
}

/// The seven skills of a player, each a rating from 0 to 255.
#[derive(Clone, Debug, PartialEq, Eq)]
pub struct Skill {
    pub speed: u8,
    pub shooting: u8,
    pub passing: u8,
    pub dribbling: u8,
    pub defense: u8,
    pub physical: u8,
    pub goal_tending: u8,
}

/// One measured trait of a player.
#[derive(Clone, Debug, PartialEq, Eq)]
pub struct Attribute {
    pub display_type: String,
    pub trait_type: String,
    pub value: Decimal,
}

/// A player record. The order of `attributes` is part of the record: two
/// records that hold the same attributes in another order are different
/// records, with different canonical forms.
#[derive(Clone, Debug, PartialEq, Eq)]
pub struct Player {
    pub name: String,
    pub jersey_number: u8,
    pub description: String,
    pub external_url: String,
    pub image: String,
    pub tier: u8,
    pub overall_rating: Decimal,
    pub skill_multiplier: Decimal,
    pub skill: Skill,
    pub attributes: Vec<Attribute>,
}

/// The mathematical value of an [`Attribute`].
pub struct AttributeView {
    pub display_type: Seq<char>,
    pub trait_type: Seq<char>,
    pub value: Seq<char>,
}

/// The mathematical value of a [`Player`].
pub struct PlayerView {
    pub name: Seq<char>,
    pub jersey_number: u8,
    pub description: Seq<char>,
    pub external_url: Seq<char>,
    pub image: Seq<char>,
    pub tier: u8,
    pub overall_rating: Seq<char>,
    pub skill_multiplier: Seq<char>,
    pub skill: Skill,
    pub attributes: Seq<AttributeView>,
}

impl View for Attribute {
    type V = AttributeView;

    open spec fn view(&self) -> AttributeView {
        AttributeView {
            display_type: self.display_type@,
            trait_type: self.trait_type@,
            value: self.value.literal@,
        }
    }
}

/// The values of a vector of attributes.
pub open spec fn attribute_views(attributes: Seq<Attribute>) -> Seq<AttributeView> {
    attributes.map_values(|a: Attribute| a@)
}

impl View for Player {
    type V = PlayerView;

    open spec fn view(&self) -> PlayerView {
        PlayerView {
            name: self.name@,
            jersey_number: self.jersey_number,
            description: self.description@,
            external_url: self.external_url@,
            image: self.image@,
            tier: self.tier,
            overall_rating: self.overall_rating.literal@,
            skill_multiplier: self.skill_multiplier.literal@,
            skill: self.skill,
            attributes: attribute_views(self.attributes@),
        }
    }
}

/// The canonical form of a [`Skill`], and what follows it: an object of the
/// seven ratings in the order of the fields.
pub open spec fn skill_json_then(s: Skill, rest: Seq<u8>) -> Seq<u8> {
    open_object(
        number_field(
            "speed",
            s.speed,
            next(
                number_field(
                    "shooting",
                    s.shooting,
                    next(
                        number_field(
                            "passing",
                            s.passing,
                            next(
                                number_field(
                                    "dribbling",
                                    s.dribbling,
                                    next(
                                        number_field(
                                            "defense",
                                            s.defense,
                                            next(
                                                number_field(
                                                    "physical",
                                                    s.physical,
                                                    next(
                                                        number_field(
                                                            "goal_tending",
                                                            s.goal_tending,
                                                            close_object(rest),
                                                        ),
                                                    ),
                                                ),
                                            ),
                                        ),
                                    ),
                                ),
                            ),
                        ),
                    ),
                ),
            ),
        ),
    )
}

/// The canonical form of a [`Skill`].
pub open spec fn skill_json(s: Skill) -> Seq<u8> {
    skill_json_then(s, Seq::empty())
}

/// Whether an attribute has a canonical form: whether its value is a number
/// literal.
pub open spec fn attribute_valid(a: AttributeView) -> bool {
    is_number(encode_utf8(a.value))
}

/// The canonical form of an attribute, and what follows it: an object of the
/// two names and the value.
pub open spec fn attribute_json_then(a: AttributeView, rest: Seq<u8>) -> Seq<u8> {
    open_object(
        string_field(
            "display_type",
            encode_utf8(a.display_type),
            next(
                string_field(
                    "trait_type",
                    encode_utf8(a.trait_type),
                    next(literal_field("value", encode_utf8(a.value), close_object(rest))),
                ),
            ),
        ),
    )
}

/// The canonical form of an attribute.
pub open spec fn attribute_json(a: AttributeView) -> Seq<u8> {
    attribute_json_then(a, Seq::empty())
}

/// The items of a list behind its first one, each with a comma before it, and
/// what follows them.
pub open spec fn more_attributes_then(attributes: Seq<AttributeView>, rest: Seq<u8>) -> Seq<u8>
    decreases attributes.len(),
{
    if attributes.len() == 0 {
        rest
    } else {
        next(
            attribute_json_then(
                attributes.first(),
                more_attributes_then(attributes.drop_first(), rest),
            ),
        )
    }
}

/// The canonical form of a list of attributes, and what follows it: the items
/// in their order, between brackets, with commas between them.
pub open spec fn attributes_json_then(attributes: Seq<AttributeView>, rest: Seq<u8>) -> Seq<u8> {
    if attributes.len() == 0 {
        open_array(close_array(rest))
    } else {
        open_array(
            attribute_json_then(
                attributes.first(),
                more_attributes_then(attributes.drop_first(), close_array(rest)),
            ),
        )
    }
}

/// The canonical form of a list of attributes.
pub open spec fn attributes_json(attributes: Seq<AttributeView>) -> Seq<u8> {
    attributes_json_then(attributes, Seq::empty())
}

/// Whether a player has a canonical form: whether its two decimal fields and
/// the value of each attribute are number literals.
pub open spec fn player_valid(p: PlayerView) -> bool {
    &&& is_number(encode_utf8(p.overall_rating))
    &&& is_number(encode_utf8(p.skill_multiplier))
    &&& forall|i: int| 0 <= i < p.attributes.len() ==> attribute_valid(#[trigger] p.attributes[i])
}

/// The canonical form of a player, and what follows it: an object of the ten
/// fields in their order.
pub open spec fn player_json_then(p: PlayerView, rest: Seq<u8>) -> Seq<u8> {
    open_object(
        string_field(
            "name",
            encode_utf8(p.name),
            next(
                number_field(
                    "jersey_number",
                    p.jersey_number,
                    next(
                        string_field(
                            "description",
                            encode_utf8(p.description),
                            next(
                                string_field(
                                    "external_url",
                                    encode_utf8(p.external_url),
                                    next(
                                        string_field(
                                            "image",
                                            encode_utf8(p.image),
                                            next(
                                                number_field(
                                                    "tier",
                                                    p.tier,
                                                    next(player_json_tail(p, rest)),
                                                ),
                                            ),
                                        ),
                                    ),
                                ),
                            ),
                        ),
                    ),
                ),
            ),
        ),
    )
}

/// The last four fields of a player's canonical form, and what follows the
/// object.
pub open spec fn player_json_tail(p: PlayerView, rest: Seq<u8>) -> Seq<u8> {
    literal_field(
        "overall_rating",
        encode_utf8(p.overall_rating),
        next(
            literal_field(
                "skill_multiplier",
                encode_utf8(p.skill_multiplier),
                next(
                    key("skill") + skill_json_then(
                        p.skill,
                        next(
                            key("attributes") + attributes_json_then(
                                p.attributes,
                                close_object(rest),
                            ),
                        ),
                    ),
                ),
            ),
        ),
    )
}

/// The canonical form of a player.
pub open spec fn player_json(p: PlayerView) -> Seq<u8> {
    player_json_then(p, Seq::empty())
}

/// What follows a skill's canonical form may be taken off it.
pub proof fn lemma_skill_then(s: Skill, rest: Seq<u8>)
    ensures
        skill_json_then(s, rest) == skill_json(s) + rest,
{
    lemma_concat_laws();
}

/// What follows an attribute's canonical form may be taken off it.
pub proof fn lemma_attribute_then(a: AttributeView, rest: Seq<u8>)
    ensures
        attribute_json_then(a, rest) == attribute_json(a) + rest,
{
    lemma_concat_laws();
}

/// What follows the later items of a list may be taken off them.
pub proof fn lemma_more_attributes_then(attributes: Seq<AttributeView>, rest: Seq<u8>)
    ensures
        more_attributes_then(attributes, rest) == more_attributes_then(attributes, Seq::empty())
            + rest,
    decreases attributes.len(),
{
    lemma_concat_laws();
    if attributes.len() == 0 {
        assert(Seq::<u8>::empty() + rest =~= rest);
    } else {
        let tail = attributes.drop_first();
        lemma_more_attributes_then(tail, rest);
        lemma_attribute_then(attributes.first(), more_attributes_then(tail, rest));
        lemma_attribute_then(attributes.first(), more_attributes_then(tail, Seq::empty()));
    }
}

/// What follows a list's canonical form may be taken off it.
pub proof fn lemma_attributes_then(attributes: Seq<AttributeView>, rest: Seq<u8>)
    ensures
        attributes_json_then(attributes, rest) == attributes_json(attributes) + rest,
{
    lemma_concat_laws();
    if attributes.len() > 0 {
        let tail = attributes.drop_first();
        let end = close_array(Seq::empty());
        lemma_more_attributes_then(tail, close_array(rest));
        lemma_more_attributes_then(tail, end);
        lemma_attribute_then(attributes.first(), more_attributes_then(tail, close_array(rest)));
        lemma_attribute_then(attributes.first(), more_attributes_then(tail, end));
    }
}

/// Appends the canonical form of a [`Skill`].
pub fn write_skill(out: &mut Vec<u8>, s: &Skill)
    ensures
        final(out)@ == old(out)@ + skill_json(*s),
{
    write_byte(out, 0x7b);
    write_key(out, "speed");
    write_u8(out, s.speed);
    write_byte(out, 0x2c);
    write_key(out, "shooting");
    write_u8(out, s.shooting);
    write_byte(out, 0x2c);
    write_key(out, "passing");
    write_u8(out, s.passing);
    write_byte(out, 0x2c);
    write_key(out, "dribbling");
    write_u8(out, s.dribbling);
    write_byte(out, 0x2c);
    write_key(out, "defense");
    write_u8(out, s.defense);
    write_byte(out, 0x2c);
    write_key(out, "physical");
    write_u8(out, s.physical);
    write_byte(out, 0x2c);
    write_key(out, "goal_tending");
    write_u8(out, s.goal_tending);
    write_byte(out, 0x7d);
    proof {
        lemma_concat_laws();
    }
}

/// Appends the canonical form of an [`Attribute`], whatever its value holds.
pub fn write_attribute(out: &mut Vec<u8>, a: &Attribute)
    ensures
        final(out)@ == old(out)@ + attribute_json(a@),
{
    write_byte(out, 0x7b);
    write_key(out, "display_type");
    write_string(out, a.display_type.as_str().as_bytes());
    write_byte(out, 0x2c);
    write_key(out, "trait_type");
    write_string(out, a.trait_type.as_str().as_bytes());
    write_byte(out, 0x2c);
    write_key(out, "value");
    write_bytes(out, a.value.literal.as_str().as_bytes());
    write_byte(out, 0x7d);
    proof {
        lemma_concat_laws();
    }
}

/// Appends the canonical form of a list of attributes.
pub fn write_attributes(out: &mut Vec<u8>, attributes: &Vec<Attribute>)
    ensures
        final(out)@ == old(out)@ + attributes_json(attribute_views(attributes@)),
{
    let ghost views = attribute_views(attributes@);
    let ghost end = close_array(Seq::empty());
    let ghost target = old(out)@ + attributes_json(views);
    write_byte(out, 0x5b);
    if attributes.len() > 0 {
        write_attribute(out, &attributes[0]);
        proof {
            assert(views.first() == attributes@[0]@);
            assert(views.skip(1) =~= views.drop_first());
            lemma_attribute_then(views.first(), more_attributes_then(views.drop_first(), end));
            lemma_concat_laws();
        }
        let mut i: usize = 1;
        while i < attributes.len()
            invariant
                1 <= i <= attributes.len(),
                views == attribute_views(attributes@),
                end == close_array(Seq::empty()),
                out@ + more_attributes_then(views.skip(i as int), end) == target,
            decreases attributes.len() - i,
        {
            write_byte(out, 0x2c);
            write_attribute(out, &attributes[i]);
            proof {
                let rem = views.skip(i as int);
                assert(rem.first() == attributes@[i as int]@);
                assert(rem.drop_first() =~= views.skip(i + 1));
                lemma_attribute_then(rem.first(), more_attributes_then(rem.drop_first(), end));
                lemma_concat_laws();
            }
            i += 1;
        }
        assert(views.skip(i as int).len() == 0);
    }
    write_byte(out, 0x5d);
    proof {
        lemma_concat_laws();
    }
}

/// Appends the canonical form of a [`Player`], whatever its decimal fields
/// hold.
pub fn write_player(out: &mut Vec<u8>, p: &Player)
    ensures
        final(out)@ == old(out)@ + player_json(p@),
{
    write_byte(out, 0x7b);
    write_key(out, "name");
    write_string(out, p.name.as_str().as_bytes());
    write_byte(out, 0x2c);
    write_key(out, "jersey_number");
    write_u8(out, p.jersey_number);
    write_byte(out, 0x2c);
    write_key(out, "description");
    write_string(out, p.description.as_str().as_bytes());
    write_byte(out, 0x2c);
    write_key(out, "external_url");
    write_string(out, p.external_url.as_str().as_bytes());
    write_byte(out, 0x2c);
    write_key(out, "image");
    write_string(out, p.image.as_str().as_bytes());
    write_byte(out, 0x2c);
    write_key(out, "tier");
    write_u8(out, p.tier);
    write_byte(out, 0x2c);
    write_key(out, "overall_rating");
    write_bytes(out, p.overall_rating.literal.as_str().as_bytes());
    write_byte(out, 0x2c);
    write_key(out, "skill_multiplier");
    write_bytes(out, p.skill_multiplier.literal.as_str().as_bytes());
    write_byte(out, 0x2c);
    write_key(out, "skill");
    write_skill(out, &p.skill);
    write_byte(out, 0x2c);
    write_key(out, "attributes");
    write_attributes(out, &p.attributes);
    write_byte(out, 0x7d);
    proof {
        let v = p@;
        let end = close_object(Seq::empty());
        lemma_attributes_then(v.attributes, end);
        lemma_skill_then(v.skill, next(key("attributes") + attributes_json_then(v.attributes, end)));
        lemma_concat_laws();
    }
}

/// Tells whether every attribute's value is a number literal.
pub fn attributes_valid(attributes: &Vec<Attribute>) -> (ok: bool)
    ensures
        ok == (forall|i: int|
            0 <= i < attributes.len() ==> attribute_valid(
                #[trigger] attribute_views(attributes@)[i],
            )),
{
    let ghost views = attribute_views(attributes@);
    let mut i: usize = 0;
    while i < attributes.len()
        invariant
            i <= attributes.len(),
            views == attribute_views(attributes@),
            forall|j: int| 0 <= j < i ==> attribute_valid(#[trigger] views[j]),
        decreases attributes.len() - i,
    {
        if !attributes[i].value.is_valid() {
            assert(!attribute_valid(views[i as int]));
            return false;
        }
        i += 1;
    }
    true
}

/// The value of the sample player.
pub open spec fn sample_player() -> PlayerView {
    PlayerView {
        name: "Lionel Messi"@,
        jersey_number: 10,
        description: "A professional footballer who plays as a forward for Paris Saint-Germain and the Argentina national team."@,
        external_url: "https://en.wikipedia.org/wiki/Lionel_Messi"@,
        image: "https://upload.wikimedia.org/wikipedia/commons/4/47/Lionel_Messi_20180626.jpg"@,
        tier: 1,
        overall_rating: "94.0"@,
        skill_multiplier: "1.0"@,
        skill: Skill {
            speed: 90,
            shooting: 95,
            passing: 90,
            dribbling: 96,
            defense: 32,
            physical: 68,
            goal_tending: 0,
        },
        attributes: seq![
            AttributeView { display_type: "Physical"@, trait_type: "Height"@, value: "170.0"@ },
            AttributeView { display_type: "Physical"@, trait_type: "Weight"@, value: "72.0"@ },
        ],
    }
}

/// The four decimals of the sample player are number literals.
proof fn lemma_sample_decimals()
    ensures
        is_number(encode_utf8("94.0"@)),
        is_number(encode_utf8("1.0"@)),
        is_number(encode_utf8("170.0"@)),
        is_number(encode_utf8("72.0"@)),
{
    reveal_strlit("94.0");
    reveal_strlit("1.0");
    reveal_strlit("170.0");
    reveal_strlit("72.0");
    reveal_with_fuel(skip_digits, 6);
    is_ascii_chars_encode_utf8("94.0"@);
    is_ascii_chars_encode_utf8("1.0"@);
    is_ascii_chars_encode_utf8("170.0"@);
    is_ascii_chars_encode_utf8("72.0"@);
    assert(encode_utf8("94.0"@) =~= seq![0x39u8, 0x34u8, 0x2eu8, 0x30u8]);
    assert(encode_utf8("1.0"@) =~= seq![0x31u8, 0x2eu8, 0x30u8]);
    assert(encode_utf8("170.0"@) =~= seq![0x31u8, 0x37u8, 0x30u8, 0x2eu8, 0x30u8]);
    assert(encode_utf8("72.0"@) =~= seq![0x37u8, 0x32u8, 0x2eu8, 0x30u8]);
}

/// The sample player: a record with every kind of field, which has a
/// canonical form.
pub fn gen_test_player() -> (p: Player)
    ensures
        p@ == sample_player(),
        player_valid(p@),
{
    let mut attributes: Vec<Attribute> = Vec::new();
    attributes.push(
        Attribute {
            display_type: String::from_str("Physical"),
            trait_type: String::from_str("Height"),
            value: Decimal::new("170.0"),
        },
    );
    attributes.push(
        Attribute {
            display_type: String::from_str("Physical"),
            trait_type: String::from_str("Weight"),
            value: Decimal::new("72.0"),
        },
    );
    let p = Player {
        name: String::from_str("Lionel Messi"),
        jersey_number: 10,
        description: String::from_str(
            "A professional footballer who plays as a forward for Paris Saint-Germain and the Argentina national team.",
        ),
        external_url: String::from_str("https://en.wikipedia.org/wiki/Lionel_Messi"),
        image: String::from_str(
            "https://upload.wikimedia.org/wikipedia/commons/4/47/Lionel_Messi_20180626.jpg",
        ),
        tier: 1,
        overall_rating: Decimal::new("94.0"),
        skill_multiplier: Decimal::new("1.0"),
        skill: Skill {
            speed: 90,
            shooting: 95,
            passing: 90,
            dribbling: 96,
            defense: 32,
            physical: 68,
            goal_tending: 0,
        },
        attributes,
    };
    proof {
        lemma_sample_decimals();
        assert(p@.attributes =~= sample_player().attributes);
    }
    p
}

impl ComputeCid for Skill {
    open spec fn canonical(&self) -> Option<Seq<u8>> {
        Some(skill_json(*self))
    }

    fn canonical_bytes(&self) -> (r: Result<Vec<u8>, CidError>) {
        let mut out: Vec<u8> = Vec::new();
        write_skill(&mut out, self);
        assert(Seq::<u8>::empty() + skill_json(*self) =~= skill_json(*self));
        Ok(out)
    }
}

impl ComputeCid for Attribute {
    open spec fn canonical(&self) -> Option<Seq<u8>> {
        if attribute_valid(self@) {
            Some(attribute_json(self@))
        } else {
            None
        }
    }

    fn canonical_bytes(&self) -> (r: Result<Vec<u8>, CidError>) {
        if !self.value.is_valid() {
            return Err(CidError::Serialization);
        }
        let mut out: Vec<u8> = Vec::new();
        write_attribute(&mut out, self);
        assert(Seq::<u8>::empty() + attribute_json(self@) =~= attribute_json(self@));
        Ok(out)
    }
}

impl ComputeCid for Player {
    open spec fn canonical(&self) -> Option<Seq<u8>> {
        if player_valid(self@) {
            Some(player_json(self@))
        } else {
            None
        }
    }

    fn canonical_bytes(&self) -> (r: Result<Vec<u8>, CidError>) {
        if !self.overall_rating.is_valid() || !self.skill_multiplier.is_valid()
            || !attributes_valid(&self.attributes) {
            return Err(CidError::Serialization);
        }
        let mut out: Vec<u8> = Vec::new();
        write_player(&mut out, self);
        assert(Seq::<u8>::empty() + player_json(self@) =~= player_json(self@));
        Ok(out)
    }
}

} // verus!
