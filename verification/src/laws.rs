use crate::bytes::lemma_cancel_prefix;
use crate::cid::{
    cid_text, external_form, identifier_text, identifier_uri, root_identifier, root_text,
    scheme_prefix, CidError, ComputeCid,
};
use crate::journal::{
    lemma_leaf_journal_injective, leaf_journal_bytes, AggregateJournal, Commitment, LeafJournal,
};
use crate::json::{close_array, close_object, key, literal_field, next, number_field, string_field};
use crate::leaf::{leaf_outcome, LeafOutcome};
use crate::players::{
    attribute_json_then, attribute_valid, attributes_json_then, more_attributes_then, player_json,
    player_json_tail, player_valid, skill_json_then, AttributeView, Player, PlayerView, Skill,
};
use crate::team::{
    aggregate_post, assumption_holds, assumptions_hold, AggregateError, LeafProof,
};
use crate::unique::{
    lemma_literal_field_close, lemma_literal_field_next, lemma_next_cancel,
    lemma_number_field_close, lemma_number_field_next, lemma_string_field, lemma_utf8_injective,
};
use vstd::prelude::*;
use vstd::string::*;
use vstd::utf8::encode_utf8;

verus! {

/// The canonical form of a skill, followed by anything, tells the skill and
/// what follows.
pub proof fn lemma_skill_unique(a: Skill, b: Skill, x: Seq<u8>, y: Seq<u8>)
    requires
        skill_json_then(a, x) == skill_json_then(b, y),
    ensures
        a == b,
        x == y,
{
    let a6 = number_field("goal_tending", a.goal_tending, close_object(x));
    let a5 = number_field("physical", a.physical, next(a6));
    let a4 = number_field("defense", a.defense, next(a5));
    let a3 = number_field("dribbling", a.dribbling, next(a4));
    let a2 = number_field("passing", a.passing, next(a3));
    let a1 = number_field("shooting", a.shooting, next(a2));
    let a0 = number_field("speed", a.speed, next(a1));
    let b6 = number_field("goal_tending", b.goal_tending, close_object(y));
    let b5 = number_field("physical", b.physical, next(b6));
    let b4 = number_field("defense", b.defense, next(b5));
    let b3 = number_field("dribbling", b.dribbling, next(b4));
    let b2 = number_field("passing", b.passing, next(b3));
    let b1 = number_field("shooting", b.shooting, next(b2));
    let b0 = number_field("speed", b.speed, next(b1));
    lemma_cancel_prefix(seq![0x7bu8], a0, b0);
    lemma_number_field_next("speed", a.speed, b.speed, a1, b1);
    lemma_number_field_next("shooting", a.shooting, b.shooting, a2, b2);
    lemma_number_field_next("passing", a.passing, b.passing, a3, b3);
    lemma_number_field_next("dribbling", a.dribbling, b.dribbling, a4, b4);
    lemma_number_field_next("defense", a.defense, b.defense, a5, b5);
    lemma_number_field_next("physical", a.physical, b.physical, a6, b6);
    lemma_number_field_close("goal_tending", a.goal_tending, b.goal_tending, x, y);
}

/// The canonical form of an attribute, followed by anything, tells the
/// attribute and what follows.
pub proof fn lemma_attribute_unique(a: AttributeView, b: AttributeView, x: Seq<u8>, y: Seq<u8>)
    requires
        attribute_valid(a),
        attribute_valid(b),
        attribute_json_then(a, x) == attribute_json_then(b, y),
    ensures
        a == b,
        x == y,
{
    let a2 = literal_field("value", encode_utf8(a.value), close_object(x));
    let a1 = string_field("trait_type", encode_utf8(a.trait_type), next(a2));
    let a0 = string_field("display_type", encode_utf8(a.display_type), next(a1));
    let b2 = literal_field("value", encode_utf8(b.value), close_object(y));
    let b1 = string_field("trait_type", encode_utf8(b.trait_type), next(b2));
    let b0 = string_field("display_type", encode_utf8(b.display_type), next(b1));
    lemma_cancel_prefix(seq![0x7bu8], a0, b0);
    lemma_string_field(
        "display_type",
        encode_utf8(a.display_type),
        encode_utf8(b.display_type),
        next(a1),
        next(b1),
    );
    lemma_next_cancel(a1, b1);
    lemma_string_field(
        "trait_type",
        encode_utf8(a.trait_type),
        encode_utf8(b.trait_type),
        next(a2),
        next(b2),
    );
    lemma_next_cancel(a2, b2);
    lemma_literal_field_close("value", encode_utf8(a.value), encode_utf8(b.value), x, y);
    lemma_utf8_injective(a.display_type, b.display_type);
    lemma_utf8_injective(a.trait_type, b.trait_type);
    lemma_utf8_injective(a.value, b.value);
}

/// Whether every attribute of a list has a canonical form.
pub open spec fn all_valid(attributes: Seq<AttributeView>) -> bool {
    forall|i: int| 0 <= i < attributes.len() ==> attribute_valid(#[trigger] attributes[i])
}

/// The later items of a list, followed by the closing bracket, tell the items
/// and what follows the bracket.
pub proof fn lemma_more_attributes_unique(
    a: Seq<AttributeView>,
    b: Seq<AttributeView>,
    x: Seq<u8>,
    y: Seq<u8>,
)
    requires
        all_valid(a),
        all_valid(b),
        more_attributes_then(a, close_array(x)) == more_attributes_then(b, close_array(y)),
    ensures
        a == b,
        x == y,
    decreases a.len(),
{
    let l = more_attributes_then(a, close_array(x));
    let r = more_attributes_then(b, close_array(y));
    if a.len() == 0 && b.len() == 0 {
        lemma_cancel_prefix(seq![0x5du8], x, y);
        assert(a =~= b);
    } else if a.len() == 0 {
        assert(l[0] == 0x5d);
        assert(r[0] == 0x2c);
        assert(false);
    } else if b.len() == 0 {
        assert(r[0] == 0x5d);
        assert(l[0] == 0x2c);
        assert(false);
    } else {
        let at = a.drop_first();
        let bt = b.drop_first();
        let la = more_attributes_then(at, close_array(x));
        let lb = more_attributes_then(bt, close_array(y));
        assert(attribute_valid(a[0]));
        assert(attribute_valid(b[0]));
        assert forall|i: int| 0 <= i < at.len() implies attribute_valid(#[trigger] at[i]) by {
            assert(at[i] == a[i + 1]);
        }
        assert forall|i: int| 0 <= i < bt.len() implies attribute_valid(#[trigger] bt[i]) by {
            assert(bt[i] == b[i + 1]);
        }
        lemma_next_cancel(
            attribute_json_then(a.first(), la),
            attribute_json_then(b.first(), lb),
        );
        lemma_attribute_unique(a.first(), b.first(), la, lb);
        lemma_more_attributes_unique(at, bt, x, y);
        assert(a =~= seq![a.first()] + at);
        assert(b =~= seq![b.first()] + bt);
    }
}

/// The canonical form of a list of attributes, followed by anything, tells
/// the list, with its order, and what follows.
pub proof fn lemma_attributes_unique(
    a: Seq<AttributeView>,
    b: Seq<AttributeView>,
    x: Seq<u8>,
    y: Seq<u8>,
)
    requires
        all_valid(a),
        all_valid(b),
        attributes_json_then(a, x) == attributes_json_then(b, y),
    ensures
        a == b,
        x == y,
{
    let l = attributes_json_then(a, x);
    let r = attributes_json_then(b, y);
    if a.len() == 0 && b.len() == 0 {
        lemma_cancel_prefix(seq![0x5bu8], close_array(x), close_array(y));
        lemma_cancel_prefix(seq![0x5du8], x, y);
        assert(a =~= b);
    } else if a.len() == 0 {
        assert(l[1] == 0x5d);
        assert(r[1] == 0x7b);
        assert(false);
    } else if b.len() == 0 {
        assert(r[1] == 0x5d);
        assert(l[1] == 0x7b);
        assert(false);
    } else {
        let at = a.drop_first();
        let bt = b.drop_first();
        let la = more_attributes_then(at, close_array(x));
        let lb = more_attributes_then(bt, close_array(y));
        assert(attribute_valid(a[0]));
        assert(attribute_valid(b[0]));
        assert forall|i: int| 0 <= i < at.len() implies attribute_valid(#[trigger] at[i]) by {
            assert(at[i] == a[i + 1]);
        }
        assert forall|i: int| 0 <= i < bt.len() implies attribute_valid(#[trigger] bt[i]) by {
            assert(bt[i] == b[i + 1]);
        }
        lemma_cancel_prefix(
            seq![0x5bu8],
            attribute_json_then(a.first(), la),
            attribute_json_then(b.first(), lb),
        );
        lemma_attribute_unique(a.first(), b.first(), la, lb);
        lemma_more_attributes_unique(at, bt, x, y);
        assert(a =~= seq![a.first()] + at);
        assert(b =~= seq![b.first()] + bt);
    }
}

/// Two players with the same canonical form are the same in every field, the
/// order of the attributes included.
pub proof fn lemma_player_unique(a: PlayerView, b: PlayerView)
    requires
        player_valid(a),
        player_valid(b),
        player_json(a) == player_json(b),
    ensures
        a == b,
{
    let end = Seq::<u8>::empty();
    let a9 = key("attributes") + attributes_json_then(a.attributes, close_object(end));
    let a8 = key("skill") + skill_json_then(a.skill, next(a9));
    let a7 = literal_field("skill_multiplier", encode_utf8(a.skill_multiplier), next(a8));
    let a6 = literal_field("overall_rating", encode_utf8(a.overall_rating), next(a7));
    let a5 = number_field("tier", a.tier, next(a6));
    let a4 = string_field("image", encode_utf8(a.image), next(a5));
    let a3 = string_field("external_url", encode_utf8(a.external_url), next(a4));
    let a2 = string_field("description", encode_utf8(a.description), next(a3));
    let a1 = number_field("jersey_number", a.jersey_number, next(a2));
    let a0 = string_field("name", encode_utf8(a.name), next(a1));
    let b9 = key("attributes") + attributes_json_then(b.attributes, close_object(end));
    let b8 = key("skill") + skill_json_then(b.skill, next(b9));
    let b7 = literal_field("skill_multiplier", encode_utf8(b.skill_multiplier), next(b8));
    let b6 = literal_field("overall_rating", encode_utf8(b.overall_rating), next(b7));
    let b5 = number_field("tier", b.tier, next(b6));
    let b4 = string_field("image", encode_utf8(b.image), next(b5));
    let b3 = string_field("external_url", encode_utf8(b.external_url), next(b4));
    let b2 = string_field("description", encode_utf8(b.description), next(b3));
    let b1 = number_field("jersey_number", b.jersey_number, next(b2));
    let b0 = string_field("name", encode_utf8(b.name), next(b1));
    assert(a6 == player_json_tail(a, end));
    assert(b6 == player_json_tail(b, end));
    lemma_cancel_prefix(seq![0x7bu8], a0, b0);
    lemma_string_field("name", encode_utf8(a.name), encode_utf8(b.name), next(a1), next(b1));
    lemma_next_cancel(a1, b1);
    lemma_number_field_next("jersey_number", a.jersey_number, b.jersey_number, a2, b2);
    lemma_string_field(
        "description",
        encode_utf8(a.description),
        encode_utf8(b.description),
        next(a3),
        next(b3),
    );
    lemma_next_cancel(a3, b3);
    lemma_string_field(
        "external_url",
        encode_utf8(a.external_url),
        encode_utf8(b.external_url),
        next(a4),
        next(b4),
    );
    lemma_next_cancel(a4, b4);
    lemma_string_field("image", encode_utf8(a.image), encode_utf8(b.image), next(a5), next(b5));
    lemma_next_cancel(a5, b5);
    lemma_number_field_next("tier", a.tier, b.tier, a6, b6);
    lemma_literal_field_next(
        "overall_rating",
        encode_utf8(a.overall_rating),
        encode_utf8(b.overall_rating),
        a7,
        b7,
    );
    lemma_literal_field_next(
        "skill_multiplier",
        encode_utf8(a.skill_multiplier),
        encode_utf8(b.skill_multiplier),
        a8,
        b8,
    );
    lemma_cancel_prefix(
        key("skill"),
        skill_json_then(a.skill, next(a9)),
        skill_json_then(b.skill, next(b9)),
    );
    lemma_skill_unique(a.skill, b.skill, next(a9), next(b9));
    lemma_next_cancel(a9, b9);
    lemma_cancel_prefix(
        key("attributes"),
        attributes_json_then(a.attributes, close_object(end)),
        attributes_json_then(b.attributes, close_object(end)),
    );
    lemma_attributes_unique(a.attributes, b.attributes, close_object(end), close_object(end));
    lemma_utf8_injective(a.name, b.name);
    lemma_utf8_injective(a.description, b.description);
    lemma_utf8_injective(a.external_url, b.external_url);
    lemma_utf8_injective(a.image, b.image);
    lemma_utf8_injective(a.overall_rating, b.overall_rating);
    lemma_utf8_injective(a.skill_multiplier, b.skill_multiplier);
}

/// A record's identifier depends on the record alone: any two results that
/// the computation of the identifier's external form may give for one record
/// are the same, text or error.
pub proof fn law_identifier_deterministic<R: ComputeCid>(
    record: R,
    first: Result<Seq<char>, CidError>,
    second: Result<Seq<char>, CidError>,
)
    requires
        first == identifier_uri(record.canonical()),
        second == identifier_uri(record.canonical()),
    ensures
        first == second,
{
}

/// Two players with the same fields have the same identifier.
pub proof fn law_same_player_same_identifier(a: Player, b: Player)
    requires
        a@ == b@,
    ensures
        a.canonical() == b.canonical(),
        identifier_text(a.canonical()) == identifier_text(b.canonical()),
        identifier_uri(a.canonical()) == identifier_uri(b.canonical()),
{
}

/// Two players that differ in any field have different canonical forms.
pub proof fn law_canonical_forms_differ(a: Player, b: Player)
    requires
        a.canonical() is Some,
        b.canonical() is Some,
        a@ != b@,
    ensures
        a.canonical() != b.canonical(),
{
    if a.canonical() == b.canonical() {
        lemma_player_unique(a@, b@);
    }
}

/// Two texts with the same external form are the same text.
pub proof fn law_external_form_tells_text(first: Seq<char>, second: Seq<char>)
    requires
        external_form(first) == external_form(second),
    ensures
        first == second,
{
    let n = scheme_prefix().len() as int;
    assert(external_form(first).skip(n) =~= first);
    assert(external_form(second).skip(n) =~= second);
}

/// Two byte forms whose trees have the same root have the same identifier
/// text and the same external form.
pub proof fn law_same_root_same_text(first: Seq<u8>, second: Seq<u8>)
    requires
        root_identifier(first) == root_identifier(second),
    ensures
        root_text(first) == root_text(second),
        identifier_uri(Some(first)) == identifier_uri(Some(second)),
{
}

/// Two players that differ in any field have different identifiers, binary,
/// as text and in the external form, unless the hash tree gives their two
/// different canonical forms one root, or the two roots have one text.
pub proof fn law_identifiers_differ(a: Player, b: Player)
    requires
        a.canonical() is Some,
        b.canonical() is Some,
        a@ != b@,
        root_identifier(a.canonical().unwrap()) == root_identifier(b.canonical().unwrap())
            ==> a.canonical() == b.canonical(),
        cid_text(root_identifier(a.canonical().unwrap())) is Some,
        cid_text(root_identifier(b.canonical().unwrap())) is Some,
        cid_text(root_identifier(a.canonical().unwrap())) == cid_text(
            root_identifier(b.canonical().unwrap()),
        ) ==> root_identifier(a.canonical().unwrap()) == root_identifier(b.canonical().unwrap()),
    ensures
        root_identifier(a.canonical().unwrap()) != root_identifier(b.canonical().unwrap()),
        identifier_text(a.canonical()) != identifier_text(b.canonical()),
        identifier_uri(a.canonical()) != identifier_uri(b.canonical()),
{
    law_canonical_forms_differ(a, b);
    let ta = root_text(a.canonical().unwrap());
    let tb = root_text(b.canonical().unwrap());
    if external_form(ta) == external_form(tb) {
        law_external_form_tells_text(ta, tb);
    }
}

/// The order of the attributes is part of a record: a player whose
/// attributes at two places differ, and the player with those two attributes
/// exchanged, have different canonical forms.
pub proof fn law_attribute_order_matters(a: Player, b: Player, i: int, j: int)
    requires
        a.canonical() is Some,
        b.canonical() is Some,
        0 <= i < j < a@.attributes.len(),
        a@.attributes[i] != a@.attributes[j],
        b@ == (PlayerView {
            attributes: a@.attributes.update(i, a@.attributes[j]).update(j, a@.attributes[i]),
            ..a@
        }),
    ensures
        a.canonical() != b.canonical(),
{
    assert(b@.attributes[i] == a@.attributes[j]);
    law_canonical_forms_differ(a, b);
}

/// Where the ledger stores the external form of the record's identifier, the
/// leaf check yields the journal of the commitment and of the ledger's owner.
pub proof fn law_leaf_sound(
    canonical: Option<Seq<u8>>,
    token_id: [u8; 32],
    owner: [u8; 20],
    stored: Seq<char>,
    commitment: Commitment,
)
    requires
        identifier_uri(canonical) == Ok::<Seq<char>, CidError>(stored),
    ensures
        leaf_outcome(canonical, token_id, owner, stored, commitment) == LeafOutcome::Journal(
            LeafJournal { commitment, owner },
        ),
{
}

/// Where the ledger stores another text than the external form of the
/// record's identifier, the leaf check yields no journal, and names both.
pub proof fn law_leaf_mismatch(
    canonical: Option<Seq<u8>>,
    token_id: [u8; 32],
    owner: [u8; 20],
    stored: Seq<char>,
    commitment: Commitment,
)
    requires
        identifier_uri(canonical) is Ok,
        identifier_uri(canonical) != Ok::<Seq<char>, CidError>(stored),
    ensures
        leaf_outcome(canonical, token_id, owner, stored, commitment) == (LeafOutcome::Mismatch {
            token_id,
            computed: identifier_uri(canonical)->Ok_0,
            stored,
        }),
{
}

/// An aggregate yields a journal only if every leaf proof names the leaf
/// program and carries the journal of the aggregate's own commitment and of
/// the one claimed owner.
pub proof fn law_aggregate_sound(
    r: Result<AggregateJournal, AggregateError>,
    canonical: Option<Seq<u8>>,
    player_ids: Seq<[u8; 32]>,
    proofs: Seq<LeafProof>,
    commitment: Commitment,
    owner: [u8; 20],
    leaf_program: [u8; 32],
)
    requires
        aggregate_post(r, canonical, player_ids, proofs, commitment, owner, leaf_program),
        r is Ok,
    ensures
        forall|i: int|
            0 <= i < proofs.len() ==> {
                &&& (#[trigger] proofs[i]).journal@ == leaf_journal_bytes(
                    LeafJournal { commitment, owner },
                )
                &&& proofs[i].program@ == leaf_program@
            },
        r->Ok_0.commitment == commitment,
{
    let expected = leaf_journal_bytes(LeafJournal { commitment, owner });
    assert forall|i: int| 0 <= i < proofs.len() implies {
        &&& (#[trigger] proofs[i]).journal@ == expected
        &&& proofs[i].program@ == leaf_program@
    } by {
        assert(assumption_holds(proofs[i], expected, leaf_program));
    }
}

/// A leaf proof whose journal was made for another commitment or another
/// owner makes the aggregate fail, at that proof's place or before it; at that
/// place, where every proof before it is the expected one.
pub proof fn law_stale_leaf_fails(
    r: Result<AggregateJournal, AggregateError>,
    canonical: Option<Seq<u8>>,
    player_ids: Seq<[u8; 32]>,
    proofs: Seq<LeafProof>,
    commitment: Commitment,
    owner: [u8; 20],
    leaf_program: [u8; 32],
    i: int,
    other: LeafJournal,
)
    requires
        aggregate_post(r, canonical, player_ids, proofs, commitment, owner, leaf_program),
        0 <= i < proofs.len(),
        proofs[i].journal@ == leaf_journal_bytes(other),
        other != (LeafJournal { commitment, owner }),
    ensures
        r matches Err(AggregateError::AssumptionVerification { index, .. }) && index <= i && ((
        forall|j: int|
            0 <= j < i ==> assumption_holds(
                #[trigger] proofs[j],
                leaf_journal_bytes(LeafJournal { commitment, owner }),
                leaf_program,
            )) ==> index == i),
{
    let expected_journal = LeafJournal { commitment, owner };
    let expected = leaf_journal_bytes(expected_journal);
    if leaf_journal_bytes(other) == expected {
        lemma_leaf_journal_injective(other, expected_journal);
    }
    assert(!assumption_holds(proofs[i], expected, leaf_program));
    assert(!assumptions_hold(proofs, expected, leaf_program));
}

} // verus!
