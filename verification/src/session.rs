//! Champion-select sessions: the shape of a session payload, and how an event
//! frame is decoded into one.

use vstd::prelude::*;
use crate::error::ParseError;
use crate::json::{
    json_text, lemma_array_view, lemma_lookup_absent, lemma_lookup_at, lemma_object_view,
    parse_json, parsed_json, render_json, Json, JsonNumber, JsonValue, NumberValue,
};

verus! {

/// One player's state in champion select, as a mathematical value.
pub struct ParticipantSlot {
    pub assigned_position: Seq<char>,
    pub cell_id: i64,
    pub champion_id: i64,
    pub champion_pick_intent: i64,
    pub entitled_feature_type: Seq<char>,
    pub selected_skin_id: i64,
    pub spell1_id: NumberValue,
    pub spell2_id: NumberValue,
    pub summoner_id: i64,
    pub team: i64,
    pub ward_skin_id: i64,
}

/// One player's state in champion select. A summoner identifier of zero marks
/// a slot that no human holds. The two spell identifiers may be any number:
/// the client is known to send placeholders that are not integers.
#[derive(Clone, Debug, PartialEq, Eq)]
pub struct TeamElement {
    pub assigned_position: String,
    pub cell_id: i64,
    pub champion_id: i64,
    pub champion_pick_intent: i64,
    pub entitled_feature_type: String,
    pub selected_skin_id: i64,
    pub spell1_id: JsonNumber,
    pub spell2_id: JsonNumber,
    pub summoner_id: i64,
    pub team: i64,
    pub ward_skin_id: i64,
}

impl View for TeamElement {
    type V = ParticipantSlot;

    open spec fn view(&self) -> ParticipantSlot {
        ParticipantSlot {
            assigned_position: self.assigned_position@,
            cell_id: self.cell_id,
            champion_id: self.champion_id,
            champion_pick_intent: self.champion_pick_intent,
            entitled_feature_type: self.entitled_feature_type@,
            selected_skin_id: self.selected_skin_id,
            spell1_id: self.spell1_id@,
            spell2_id: self.spell2_id@,
            summoner_id: self.summoner_id,
            team: self.team,
            ward_skin_id: self.ward_skin_id,
        }
    }
}

/// The slot that a JSON value describes: an object that has each of the
/// eleven fields, with a string, an integer of 64 signed bits or a number as
/// the field asks. Other fields are passed over.
pub open spec fn slot_of(v: JsonValue) -> Option<ParticipantSlot> {
    if v.text_field("assignedPosition"@) is Some && v.integer_field("cellId"@) is Some
        && v.integer_field("championId"@) is Some && v.integer_field("championPickIntent"@) is Some
        && v.text_field("entitledFeatureType"@) is Some && v.integer_field("selectedSkinId"@) is Some
        && v.number_field("spell1Id"@) is Some && v.number_field("spell2Id"@) is Some
        && v.integer_field("summonerId"@) is Some && v.integer_field("team"@) is Some
        && v.integer_field("wardSkinId"@) is Some {
        Some(
            ParticipantSlot {
                assigned_position: v.text_field("assignedPosition"@).unwrap(),
                cell_id: v.integer_field("cellId"@).unwrap(),
                champion_id: v.integer_field("championId"@).unwrap(),
                champion_pick_intent: v.integer_field("championPickIntent"@).unwrap(),
                entitled_feature_type: v.text_field("entitledFeatureType"@).unwrap(),
                selected_skin_id: v.integer_field("selectedSkinId"@).unwrap(),
                spell1_id: v.number_field("spell1Id"@).unwrap(),
                spell2_id: v.number_field("spell2Id"@).unwrap(),
                summoner_id: v.integer_field("summonerId"@).unwrap(),
                team: v.integer_field("team"@).unwrap(),
                ward_skin_id: v.integer_field("wardSkinId"@).unwrap(),
            },
        )
    } else {
        None
    }
}

/// The fields that a slot is written with, in their order.
pub open spec fn slot_fields(slot: ParticipantSlot) -> Seq<(Seq<char>, JsonValue)> {
    seq![
        ("assignedPosition"@, JsonValue::Text(slot.assigned_position)),
        ("cellId"@, JsonValue::Number(NumberValue::Integer(slot.cell_id as int))),
        ("championId"@, JsonValue::Number(NumberValue::Integer(slot.champion_id as int))),
        (
            "championPickIntent"@,
            JsonValue::Number(NumberValue::Integer(slot.champion_pick_intent as int)),
        ),
        ("entitledFeatureType"@, JsonValue::Text(slot.entitled_feature_type)),
        ("selectedSkinId"@, JsonValue::Number(NumberValue::Integer(slot.selected_skin_id as int))),
        ("spell1Id"@, JsonValue::Number(slot.spell1_id)),
        ("spell2Id"@, JsonValue::Number(slot.spell2_id)),
        ("summonerId"@, JsonValue::Number(NumberValue::Integer(slot.summoner_id as int))),
        ("team"@, JsonValue::Number(NumberValue::Integer(slot.team as int))),
        ("wardSkinId"@, JsonValue::Number(NumberValue::Integer(slot.ward_skin_id as int))),
    ]
}

/// The JSON object that a slot is written as.
pub open spec fn slot_json(slot: ParticipantSlot) -> JsonValue {
    JsonValue::Object(slot_fields(slot))
}

/// Whether a key is one of the eleven that a slot is written with.
pub open spec fn is_slot_key(key: Seq<char>) -> bool {
    key == "assignedPosition"@ || key == "cellId"@ || key == "championId"@ || key
        == "championPickIntent"@ || key == "entitledFeatureType"@ || key == "selectedSkinId"@
        || key == "spell1Id"@ || key == "spell2Id"@ || key == "summonerId"@ || key == "team"@
        || key == "wardSkinId"@
}

/// The views of the slots of a team.
pub open spec fn slots(team: Seq<TeamElement>) -> Seq<ParticipantSlot> {
    Seq::new(team.len(), |i: int| team[i]@)
}

/// The team that a JSON value describes: an array of slots.
pub open spec fn team_of(v: JsonValue) -> Option<Seq<ParticipantSlot>> {
    match v {
        JsonValue::Array(items) => if forall|i: int|
            0 <= i < items.len() ==> (#[trigger] slot_of(items[i])) is Some {
            Some(Seq::new(items.len(), |i: int| slot_of(items[i]).unwrap()))
        } else {
            None
        },
        _ => None,
    }
}

/// The JSON array that a team is written as.
pub open spec fn team_json(team: Seq<ParticipantSlot>) -> JsonValue {
    JsonValue::Array(Seq::new(team.len(), |i: int| slot_json(team[i])))
}

impl TeamElement {
    /// Reads a slot from a JSON value.
    pub fn from_json(doc: &Json) -> (r: Option<TeamElement>)
        ensures
            r is Some <==> slot_of(doc@) is Some,
            r matches Some(e) ==> slot_of(doc@) == Some(e@),
    {
        let assigned_position = match doc.text_field("assignedPosition") {
            Some(v) => v,
            None => { return None; },
        };
        let cell_id: i64 = match doc.integer_field("cellId") {
            Some(v) => v,
            None => { return None; },
        };
        let champion_id: i64 = match doc.integer_field("championId") {
            Some(v) => v,
            None => { return None; },
        };
        let champion_pick_intent: i64 = match doc.integer_field("championPickIntent") {
            Some(v) => v,
            None => { return None; },
        };
        let entitled_feature_type = match doc.text_field("entitledFeatureType") {
            Some(v) => v,
            None => { return None; },
        };
        let selected_skin_id: i64 = match doc.integer_field("selectedSkinId") {
            Some(v) => v,
            None => { return None; },
        };
        let spell1_id = match doc.number_field("spell1Id") {
            Some(v) => v,
            None => { return None; },
        };
        let spell2_id = match doc.number_field("spell2Id") {
            Some(v) => v,
            None => { return None; },
        };
        let summoner_id: i64 = match doc.integer_field("summonerId") {
            Some(v) => v,
            None => { return None; },
        };
        let team: i64 = match doc.integer_field("team") {
            Some(v) => v,
            None => { return None; },
        };
        let ward_skin_id: i64 = match doc.integer_field("wardSkinId") {
            Some(v) => v,
            None => { return None; },
        };
        Some(
            TeamElement {
                assigned_position,
                cell_id,
                champion_id,
                champion_pick_intent,
                entitled_feature_type,
                selected_skin_id,
                spell1_id,
                spell2_id,
                summoner_id,
                team,
                ward_skin_id,
            },
        )
    }

    /// Writes the slot as a JSON object.
    pub fn to_json(&self) -> (r: Json)
        ensures
            r@ == slot_json(self@),
    {
        let mut fields: Vec<(String, Json)> = Vec::new();
        fields.push(
            (String::from_str("assignedPosition"), Json::Text(self.assigned_position.clone())),
        );
        fields.push((String::from_str("cellId"), Json::Number(JsonNumber::from_i64(self.cell_id))));
        fields.push(
            (String::from_str("championId"), Json::Number(JsonNumber::from_i64(self.champion_id))),
        );
        fields.push(
            (
                String::from_str("championPickIntent"),
                Json::Number(JsonNumber::from_i64(self.champion_pick_intent)),
            ),
        );
        fields.push(
            (
                String::from_str("entitledFeatureType"),
                Json::Text(self.entitled_feature_type.clone()),
            ),
        );
        fields.push(
            (
                String::from_str("selectedSkinId"),
                Json::Number(JsonNumber::from_i64(self.selected_skin_id)),
            ),
        );
        fields.push((String::from_str("spell1Id"), Json::Number(self.spell1_id.duplicate())));
        fields.push((String::from_str("spell2Id"), Json::Number(self.spell2_id.duplicate())));
        fields.push(
            (String::from_str("summonerId"), Json::Number(JsonNumber::from_i64(self.summoner_id))),
        );
        fields.push((String::from_str("team"), Json::Number(JsonNumber::from_i64(self.team))));
        fields.push(
            (String::from_str("wardSkinId"), Json::Number(JsonNumber::from_i64(self.ward_skin_id))),
        );
        let doc = Json::Object(fields);
        proof {
            lemma_object_view(doc);
            assert(doc@->Object_0 =~= slot_fields(self@));
        }
        doc
    }
}

/// Reads a team from a JSON value.
pub fn decode_team(doc: &Json) -> (r: Option<Vec<TeamElement>>)
    ensures
        r is Some <==> team_of(doc@) is Some,
        r matches Some(team) ==> team_of(doc@) == Some(slots(team@)),
{
    match doc {
        Json::Array(items) => {
            proof {
                lemma_array_view(*doc);
            }
            let ghost all = doc@->Array_0;
            let mut team: Vec<TeamElement> = Vec::new();
            let mut i: usize = 0;
            while i < items.len()
                invariant
                    i <= items@.len(),
                    doc@ == JsonValue::Array(all),
                    all.len() == items@.len(),
                    forall|k: int| 0 <= k < items@.len() ==> #[trigger] all[k] == items@[k]@,
                    team@.len() == i,
                    forall|k: int| 0 <= k < i ==> slot_of(all[k]) == Some(#[trigger] team@[k]@),
                decreases items@.len() - i,
            {
                match TeamElement::from_json(&items[i]) {
                    Some(element) => {
                        team.push(element);
                    },
                    None => {
                        assert(slot_of(all[i as int]) is None);
                        return None;
                    },
                }
                i = i + 1;
            }
            proof {
                assert forall|k: int| 0 <= k < all.len() implies (#[trigger] slot_of(
                    all[k],
                )) is Some by {
                    assert(slot_of(all[k]) == Some(team@[k]@));
                }
                assert(team_of(doc@).unwrap() =~= slots(team@));
            }
            Some(team)
        },
        _ => None,
    }
}

/// Writes a team as a JSON array.
pub fn encode_team(team: &Vec<TeamElement>) -> (r: Json)
    ensures
        r@ == team_json(slots(team@)),
{
    let mut items: Vec<Json> = Vec::new();
    let mut i: usize = 0;
    while i < team.len()
        invariant
            i <= team@.len(),
            items@.len() == i,
            forall|k: int| 0 <= k < i ==> (#[trigger] items@[k])@ == slot_json(team@[k]@),
        decreases team@.len() - i,
    {
        items.push(team[i].to_json());
        i = i + 1;
    }
    let doc = Json::Array(items);
    proof {
        lemma_array_view(doc);
        assert(doc@->Array_0 =~= team_json(slots(team@))->Array_0);
    }
    doc
}

/// Whether a written slot has the fields of a received one: under each of the
/// eleven keys the same value, and no other field, whatever the order in
/// which either was written.
pub open spec fn same_slot_fields(written: JsonValue, received: JsonValue) -> bool {
    forall|key: Seq<char>|
        #[trigger] written.field(key) == if is_slot_key(key) {
            received.field(key)
        } else {
            None
        }
}

/// What each key finds among the fields that a slot is written with.
proof fn lemma_slot_fields(slot: ParticipantSlot)
    ensures
        slot_json(slot).text_field("assignedPosition"@) == Some(slot.assigned_position),
        slot_json(slot).integer_field("cellId"@) == Some(slot.cell_id),
        slot_json(slot).integer_field("championId"@) == Some(slot.champion_id),
        slot_json(slot).integer_field("championPickIntent"@) == Some(slot.champion_pick_intent),
        slot_json(slot).text_field("entitledFeatureType"@) == Some(slot.entitled_feature_type),
        slot_json(slot).integer_field("selectedSkinId"@) == Some(slot.selected_skin_id),
        slot_json(slot).number_field("spell1Id"@) == Some(slot.spell1_id),
        slot_json(slot).number_field("spell2Id"@) == Some(slot.spell2_id),
        slot_json(slot).integer_field("summonerId"@) == Some(slot.summoner_id),
        slot_json(slot).integer_field("team"@) == Some(slot.team),
        slot_json(slot).integer_field("wardSkinId"@) == Some(slot.ward_skin_id),
        forall|key: Seq<char>| !is_slot_key(key) ==> slot_json(slot).field(key) is None,
{
    reveal_strlit("assignedPosition");
    reveal_strlit("cellId");
    reveal_strlit("championId");
    reveal_strlit("championPickIntent");
    reveal_strlit("entitledFeatureType");
    reveal_strlit("selectedSkinId");
    reveal_strlit("spell1Id");
    reveal_strlit("spell2Id");
    reveal_strlit("summonerId");
    reveal_strlit("team");
    reveal_strlit("wardSkinId");
    let fields = slot_fields(slot);
    assert("spell1Id"@[5] != "spell2Id"@[5]);
    assert("championId"@[0] != "summonerId"@[0]);
    assert("championId"@[0] != "wardSkinId"@[0]);
    assert("summonerId"@[0] != "wardSkinId"@[0]);
    assert(fields.len() == 11);
    assert(fields[0].0 == "assignedPosition"@);
    assert(fields[1].0 == "cellId"@);
    assert(fields[2].0 == "championId"@);
    assert(fields[3].0 == "championPickIntent"@);
    assert(fields[4].0 == "entitledFeatureType"@);
    assert(fields[5].0 == "selectedSkinId"@);
    assert(fields[6].0 == "spell1Id"@);
    assert(fields[7].0 == "spell2Id"@);
    assert(fields[8].0 == "summonerId"@);
    assert(fields[9].0 == "team"@);
    assert(fields[10].0 == "wardSkinId"@);
    lemma_lookup_at(fields, "assignedPosition"@, 0);
    lemma_lookup_at(fields, "cellId"@, 1);
    lemma_lookup_at(fields, "championId"@, 2);
    lemma_lookup_at(fields, "championPickIntent"@, 3);
    lemma_lookup_at(fields, "entitledFeatureType"@, 4);
    lemma_lookup_at(fields, "selectedSkinId"@, 5);
    lemma_lookup_at(fields, "spell1Id"@, 6);
    lemma_lookup_at(fields, "spell2Id"@, 7);
    lemma_lookup_at(fields, "summonerId"@, 8);
    lemma_lookup_at(fields, "team"@, 9);
    lemma_lookup_at(fields, "wardSkinId"@, 10);
    assert forall|key: Seq<char>| !is_slot_key(key) implies slot_json(slot).field(key) is None by {
        lemma_lookup_absent(fields, key);
    }
}

/// A slot that is written and read again is the same slot.
pub proof fn law_slot_encode_then_decode(slot: ParticipantSlot)
    ensures
        slot_of(slot_json(slot)) == Some(slot),
{
    lemma_slot_fields(slot);
}

/// A slot that is read and written again has the fields that were received:
/// the same values under the same keys, whatever their order was.
pub proof fn law_slot_decode_then_encode(received: JsonValue)
    requires
        slot_of(received) is Some,
    ensures
        same_slot_fields(slot_json(slot_of(received).unwrap()), received),
{
    let slot = slot_of(received).unwrap();
    lemma_slot_fields(slot);
    let written = slot_json(slot);
    assert forall|key: Seq<char>|
        #[trigger] written.field(key) == if is_slot_key(key) {
            received.field(key)
        } else {
            None
        } by {
        if is_slot_key(key) {
            assert(written.field(key) == received.field(key));
        }
    }
}

/// A team that is written and read again is the same team.
pub proof fn law_team_encode_then_decode(team: Seq<ParticipantSlot>)
    ensures
        team_of(team_json(team)) == Some(team),
{
    let items = team_json(team)->Array_0;
    assert forall|i: int| 0 <= i < items.len() implies (#[trigger] slot_of(items[i])) == Some(
        team[i],
    ) by {
        law_slot_encode_then_decode(team[i]);
    }
    assert(team_of(team_json(team)).unwrap() =~= team);
}

/// Reading the two teams of a session and writing the combined sequence again
/// changes nothing but the order of the fields: the result has one object for
/// each received one, in the same order, with the same slot fields; and
/// reading it gives the combined sequence back.
pub proof fn law_roster_decode_then_encode(mine: JsonValue, theirs: JsonValue)
    requires
        team_of(mine) is Some,
        team_of(theirs) is Some,
    ensures
        ({
            let received = mine->Array_0 + theirs->Array_0;
            let combined = team_of(mine).unwrap() + team_of(theirs).unwrap();
            let written = team_json(combined)->Array_0;
            &&& written.len() == received.len()
            &&& forall|i: int|
                0 <= i < received.len() ==> same_slot_fields(#[trigger] written[i], received[i])
            &&& team_of(team_json(combined)) == Some(combined)
        }),
{
    let received = mine->Array_0 + theirs->Array_0;
    let combined = team_of(mine).unwrap() + team_of(theirs).unwrap();
    let written = team_json(combined)->Array_0;
    assert forall|i: int| 0 <= i < received.len() implies same_slot_fields(
        #[trigger] written[i],
        received[i],
    ) by {
        if i < mine->Array_0.len() {
            assert(slot_of(mine->Array_0[i]) is Some);
        } else {
            assert(slot_of(theirs->Array_0[i - mine->Array_0.len()]) is Some);
        }
        law_slot_decode_then_encode(received[i]);
    }
    law_team_encode_then_decode(combined);
}

/// A champion-select session, as a mathematical value: the two teams, and the
/// payload that they were read from.
pub struct SessionValue {
    pub my_team: Seq<ParticipantSlot>,
    pub their_team: Seq<ParticipantSlot>,
    pub payload: JsonValue,
}

/// The session that a payload describes: an object whose fields `myTeam` and
/// `theirTeam` are teams.
pub open spec fn session_of(payload: JsonValue) -> Option<SessionValue> {
    match (payload.field("myTeam"@), payload.field("theirTeam"@)) {
        (Some(mine), Some(theirs)) => match (team_of(mine), team_of(theirs)) {
            (Some(my_team), Some(their_team)) => Some(
                SessionValue { my_team, their_team, payload },
            ),
            _ => None,
        },
        _ => None,
    }
}

/// The summoner identifiers of a session's players: the requesting side
/// first, then the opposing side.
pub open spec fn roster_of(session: SessionValue) -> Seq<i64> {
    (session.my_team + session.their_team).map_values(|slot: ParticipantSlot| slot.summoner_id)
}

/// A champion-select session: the players of both sides, with the payload as
/// it was received. A session is made by decoding a payload, so its teams are
/// always the ones that its payload describes.
#[derive(Debug, PartialEq, Eq)]
pub struct ChampSelectSession {
    my_team: Vec<TeamElement>,
    their_team: Vec<TeamElement>,
    payload: Json,
}

impl View for ChampSelectSession {
    type V = SessionValue;

    closed spec fn view(&self) -> SessionValue {
        SessionValue {
            my_team: slots(self.my_team@),
            their_team: slots(self.their_team@),
            payload: self.payload@,
        }
    }
}

impl ChampSelectSession {
    #[verifier::type_invariant]
    spec fn decoded(self) -> bool {
        session_of(self.payload@) == Some(self@)
    }

    /// Reads a session from its payload. A payload of any other shape is a
    /// shape mismatch.
    pub fn decode(payload: Json) -> (r: Result<ChampSelectSession, ParseError>)
        ensures
            r is Ok <==> session_of(payload@) is Some,
            r matches Ok(session) ==> session_of(payload@) == Some(session@),
            r matches Err(e) ==> e == ParseError::ShapeMismatch,
    {
        let my_team = match payload.field("myTeam") {
            Some(doc) => match decode_team(doc) {
                Some(team) => team,
                None => { return Err(ParseError::ShapeMismatch); },
            },
            None => { return Err(ParseError::ShapeMismatch); },
        };
        let their_team = match payload.field("theirTeam") {
            Some(doc) => match decode_team(doc) {
                Some(team) => team,
                None => { return Err(ParseError::ShapeMismatch); },
            },
            None => { return Err(ParseError::ShapeMismatch); },
        };
        Ok(ChampSelectSession { my_team, their_team, payload })
    }

    /// The players of the requesting side.
    pub fn my_team(&self) -> (r: &Vec<TeamElement>)
        ensures
            slots(r@) == self@.my_team,
    {
        &self.my_team
    }

    /// The players of the opposing side.
    pub fn their_team(&self) -> (r: &Vec<TeamElement>)
        ensures
            slots(r@) == self@.their_team,
    {
        &self.their_team
    }

    /// The payload as it was received. The session's teams are the ones
    /// that it describes.
    pub fn payload(&self) -> (r: &Json)
        ensures
            r@ == self@.payload,
            session_of(r@) == Some(self@),
    {
        proof {
            use_type_invariant(self);
        }
        &self.payload
    }

    /// The summoner identifiers of all players: the requesting side first,
    /// then the opposing side.
    pub fn roster(&self) -> (r: Vec<i64>)
        ensures
            r@ == roster_of(self@),
    {
        let mut ids: Vec<i64> = Vec::new();
        let mut i: usize = 0;
        while i < self.my_team.len()
            invariant
                i <= self.my_team@.len(),
                ids@.len() == i,
                forall|k: int| 0 <= k < i ==> #[trigger] ids@[k] == self.my_team@[k].summoner_id,
            decreases self.my_team@.len() - i,
        {
            ids.push(self.my_team[i].summoner_id);
            i = i + 1;
        }
        let mut j: usize = 0;
        while j < self.their_team.len()
            invariant
                j <= self.their_team@.len(),
                ids@.len() == self.my_team@.len() + j,
                forall|k: int|
                    0 <= k < self.my_team@.len() ==> #[trigger] ids@[k]
                        == self.my_team@[k].summoner_id,
                forall|k: int|
                    0 <= k < j ==> #[trigger] ids@[self.my_team@.len() + k]
                        == self.their_team@[k].summoner_id,
            decreases self.their_team@.len() - j,
        {
            ids.push(self.their_team[j].summoner_id);
            j = j + 1;
        }
        proof {
            let n = self.my_team@.len() as int;
            assert forall|k: int| 0 <= k < ids@.len() implies ids@[k] == roster_of(self@)[k] by {
                if k >= n {
                    assert(ids@[n + (k - n)] == self.their_team@[k - n].summoner_id);
                }
            }
            assert(ids@ =~= roster_of(self@));
        }
        ids
    }

    /// The body with which the session is forwarded: its payload as compact
    /// JSON.
    pub fn body(&self) -> (r: String)
        ensures
            r@ == json_text(self@.payload),
    {
        render_json(&self.payload)
    }
}

/// What a frame's text decodes to, as a mathematical value.
pub enum FrameValue {
    /// The frame is empty and is passed over.
    Skipped,
    /// The frame is malformed and is dropped.
    Dropped(ParseError),
    /// The frame carries a session.
    Session(SessionValue),
}

/// What a frame's text decodes to.
#[derive(Debug, PartialEq, Eq)]
pub enum DecodedFrame {
    /// The frame is empty and is passed over.
    Skipped,
    /// The frame is malformed and is dropped.
    Dropped(ParseError),
    /// The frame carries a session.
    Session(ChampSelectSession),
}

impl View for DecodedFrame {
    type V = FrameValue;

    open spec fn view(&self) -> FrameValue {
        match self {
            DecodedFrame::Skipped => FrameValue::Skipped,
            DecodedFrame::Dropped(e) => FrameValue::Dropped(*e),
            DecodedFrame::Session(s) => FrameValue::Session(s@),
        }
    }
}

/// The `data` field of a frame's envelope. A frame is an array of an opcode,
/// an event name and the envelope, which is an object.
pub open spec fn envelope_data(frame: JsonValue) -> Option<JsonValue> {
    match frame.item(2) {
        Some(envelope) => envelope.field("data"@),
        None => None,
    }
}

/// What a payload decodes to.
pub open spec fn decoded_payload(payload: JsonValue) -> FrameValue {
    match session_of(payload) {
        Some(session) => FrameValue::Session(session),
        None => FrameValue::Dropped(ParseError::ShapeMismatch),
    }
}

/// What the `data` field of an envelope decodes to. Where the field is a
/// string, the string is JSON text and `inner` is what was read from it;
/// otherwise the field is the payload itself.
pub open spec fn decoded_data(data: JsonValue, inner: Option<JsonValue>) -> FrameValue {
    match data {
        JsonValue::Text(_) => match inner {
            Some(payload) => decoded_payload(payload),
            None => FrameValue::Dropped(ParseError::PayloadNotJson),
        },
        _ => decoded_payload(data),
    }
}

/// What was read from the content of a `data` field that is a string.
pub open spec fn inner_json(data: JsonValue) -> Option<JsonValue> {
    match data {
        JsonValue::Text(s) => parsed_json(s),
        _ => None,
    }
}

/// What a frame decodes to once its text has been read as JSON.
pub open spec fn decoded_envelope(frame: JsonValue) -> FrameValue {
    match envelope_data(frame) {
        Some(data) => decoded_data(data, inner_json(data)),
        None => FrameValue::Dropped(ParseError::MissingData),
    }
}

/// What a frame's text decodes to. An empty text is passed over without being
/// read.
pub open spec fn decoded_frame(text: Seq<char>) -> FrameValue {
    if text.len() == 0 {
        FrameValue::Skipped
    } else {
        match parsed_json(text) {
            Some(frame) => decoded_envelope(frame),
            None => FrameValue::Dropped(ParseError::NotJson),
        }
    }
}

/// Takes the `data` field out of a frame's envelope.
pub fn take_data(frame: Json) -> (r: Option<Json>)
    ensures
        r is Some <==> envelope_data(frame@) is Some,
        r matches Some(data) ==> envelope_data(frame@) == Some(data@),
{
    match frame.into_item(2) {
        Some(envelope) => envelope.into_field("data"),
        None => None,
    }
}

/// Decodes a payload.
pub fn decode_payload(payload: Json) -> (r: DecodedFrame)
    ensures
        r@ == decoded_payload(payload@),
{
    match ChampSelectSession::decode(payload) {
        Ok(session) => DecodedFrame::Session(session),
        Err(e) => DecodedFrame::Dropped(e),
    }
}

/// Decodes the `data` field of an envelope. `inner` is what was read from the
/// field's content where the field is a string; it is not looked at
/// otherwise.
pub fn decode_data(data: Json, inner: Option<Json>) -> (r: DecodedFrame)
    ensures
        r@ == decoded_data(
            data@,
            match inner {
                Some(payload) => Some(payload@),
                None => None,
            },
        ),
{
    match data {
        Json::Text(_) => match inner {
            Some(payload) => decode_payload(payload),
            None => DecodedFrame::Dropped(ParseError::PayloadNotJson),
        },
        _ => decode_payload(data),
    }
}

/// Decodes a frame whose text has been read as JSON.
pub fn decode_envelope(frame: Json) -> (r: DecodedFrame)
    ensures
        r@ == decoded_envelope(frame@),
{
    match take_data(frame) {
        Some(data) => {
            let inner = match &data {
                Json::Text(content) => parse_json(content.as_str()),
                _ => None,
            };
            decode_data(data, inner)
        },
        None => DecodedFrame::Dropped(ParseError::MissingData),
    }
}

/// Decodes the text of an inbound frame.
pub fn decode_frame(text: &str) -> (r: DecodedFrame)
    ensures
        r@ == decoded_frame(text@),
{
    if text.is_empty() {
        DecodedFrame::Skipped
    } else {
        match parse_json(text) {
            Some(frame) => decode_envelope(frame),
            None => DecodedFrame::Dropped(ParseError::NotJson),
        }
    }
}

} // verus!
