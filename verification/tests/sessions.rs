use champ_select_relay::error::ParseError;
use champ_select_relay::json::{parse_json, render_json, Json, JsonNumber};
use champ_select_relay::session::{
    decode_data, decode_envelope, decode_frame, decode_payload, decode_team, encode_team, take_data,
    ChampSelectSession, DecodedFrame, TeamElement,
};

fn slot_text(summoner_id: i64, cell_id: i64) -> String {
    format!(
        "{{\"assignedPosition\":\"top\",\"cellId\":{},\"championId\":266,\
         \"championPickIntent\":0,\"entitledFeatureType\":\"NONE\",\"selectedSkinId\":266000,\
         \"spell1Id\":4,\"spell2Id\":1.5,\"summonerId\":{},\"team\":1,\
         \"wardSkinId\":-1}}",
        cell_id, summoner_id
    )
}

fn slot(summoner_id: i64, cell_id: i64) -> TeamElement {
    TeamElement {
        assigned_position: "top".to_string(),
        cell_id,
        champion_id: 266,
        champion_pick_intent: 0,
        entitled_feature_type: "NONE".to_string(),
        selected_skin_id: 266000,
        spell1_id: JsonNumber::Integer(4),
        spell2_id: JsonNumber::Real("1.5".to_string()),
        summoner_id,
        team: 1,
        ward_skin_id: -1,
    }
}

fn payload_text(mine: &[(i64, i64)], theirs: &[(i64, i64)]) -> String {
    let mine: Vec<String> = mine.iter().map(|(id, cell)| slot_text(*id, *cell)).collect();
    let theirs: Vec<String> = theirs.iter().map(|(id, cell)| slot_text(*id, *cell)).collect();
    format!(
        "{{\"myTeam\":[{}],\"theirTeam\":[{}],\"timer\":{{\"phase\":\"PLANNING\"}}}}",
        mine.join(","),
        theirs.join(",")
    )
}

fn frame_text(payload: &str) -> String {
    format!(
        "[8,\"OnJsonApiEvent_lol-champ-select_v1_session\",{{\"data\":{},\"eventType\":\"Update\",\
         \"uri\":\"/lol-champ-select/v1/session\"}}]",
        payload
    )
}

fn session_of(frame: DecodedFrame) -> ChampSelectSession {
    match frame {
        DecodedFrame::Session(session) => session,
        other => panic!("no session: {:?}", other),
    }
}

#[test]
fn reads_a_slot_from_an_object() {
    let doc = parse_json(&slot_text(100, 3)).unwrap();
    assert_eq!(TeamElement::from_json(&doc), Some(slot(100, 3)));
}

#[test]
fn reads_a_slot_whatever_the_order_of_its_fields() {
    let doc = Json::Object(vec![
        ("wardSkinId".to_string(), Json::Number(JsonNumber::Integer(-1))),
        ("team".to_string(), Json::Number(JsonNumber::Integer(1))),
        ("summonerId".to_string(), Json::Number(JsonNumber::Integer(100))),
        ("unknown".to_string(), Json::Null),
        ("spell2Id".to_string(), Json::Number(JsonNumber::Real("1.5".into()))),
        ("spell1Id".to_string(), Json::Number(JsonNumber::Integer(4))),
        ("selectedSkinId".to_string(), Json::Number(JsonNumber::Integer(266000))),
        ("entitledFeatureType".to_string(), Json::Text("NONE".to_string())),
        ("championPickIntent".to_string(), Json::Number(JsonNumber::Integer(0))),
        ("championId".to_string(), Json::Number(JsonNumber::Integer(266))),
        ("cellId".to_string(), Json::Number(JsonNumber::Integer(3))),
        ("assignedPosition".to_string(), Json::Text("top".to_string())),
    ]);
    assert_eq!(TeamElement::from_json(&doc), Some(slot(100, 3)));
}

#[test]
fn a_slot_needs_every_field_with_its_type() {
    let keys = [
        "assignedPosition",
        "cellId",
        "championId",
        "championPickIntent",
        "entitledFeatureType",
        "selectedSkinId",
        "spell1Id",
        "spell2Id",
        "summonerId",
        "team",
        "wardSkinId",
    ];
    for key in keys {
        let whole = slot(100, 3).to_json();
        let fields = match whole {
            Json::Object(fields) => fields,
            _ => unreachable!(),
        };
        let without: Vec<(String, Json)> =
            fields.iter().filter(|(k, _)| k != key).map(|(k, v)| (k.clone(), copy(v))).collect();
        assert_eq!(TeamElement::from_json(&Json::Object(without)), None);
        let mistyped: Vec<(String, Json)> = fields
            .iter()
            .map(|(k, v)| (k.clone(), if k == key { Json::Bool(true) } else { copy(v) }))
            .collect();
        assert_eq!(TeamElement::from_json(&Json::Object(mistyped)), None);
    }
}

fn copy(doc: &Json) -> Json {
    parse_json(&render_json(doc)).unwrap()
}

#[test]
fn an_integer_field_takes_no_fraction_and_no_overflow() {
    let fraction = slot_text(100, 3).replace("\"cellId\":3", "\"cellId\":3.5");
    assert_eq!(TeamElement::from_json(&parse_json(&fraction).unwrap()), None);
    let large = slot_text(100, 3).replace("\"cellId\":3", "\"cellId\":9223372036854775808");
    assert_eq!(TeamElement::from_json(&parse_json(&large).unwrap()), None);
    let text = slot_text(100, 3).replace("\"summonerId\":100", "\"summonerId\":\"100\"");
    assert_eq!(TeamElement::from_json(&parse_json(&text).unwrap()), None);
}

#[test]
fn a_slot_is_no_array_and_no_scalar() {
    assert_eq!(TeamElement::from_json(&Json::Null), None);
    assert_eq!(TeamElement::from_json(&Json::Array(vec![])), None);
    assert_eq!(TeamElement::from_json(&Json::Text("slot".to_string())), None);
}

#[test]
fn writes_a_slot_with_its_eleven_fields() {
    assert_eq!(render_json(&slot(100, 3).to_json()), slot_text(100, 3));
}

#[test]
fn a_written_slot_reads_back_the_same() {
    let written = slot(-42, 9);
    assert_eq!(TeamElement::from_json(&written.to_json()), Some(written));
}

#[test]
fn reading_then_writing_the_combined_teams_changes_nothing() {
    let mine = format!("[{},{}]", slot_text(100, 0), slot_text(0, 1));
    let theirs = format!("[{}]", slot_text(300, 5));
    let mut combined = decode_team(&parse_json(&mine).unwrap()).unwrap();
    let mut second = decode_team(&parse_json(&theirs).unwrap()).unwrap();
    combined.append(&mut second);
    let written = render_json(&encode_team(&combined));
    assert_eq!(written, format!("[{},{},{}]", slot_text(100, 0), slot_text(0, 1), slot_text(300, 5)));
    assert_eq!(decode_team(&parse_json(&written).unwrap()), Some(combined));
}

#[test]
fn a_team_is_an_array_of_slots() {
    assert_eq!(decode_team(&parse_json("[]").unwrap()), Some(vec![]));
    assert_eq!(decode_team(&parse_json("{}").unwrap()), None);
    assert_eq!(decode_team(&parse_json("null").unwrap()), None);
    let broken = format!("[{},{{}}]", slot_text(1, 1));
    assert_eq!(decode_team(&parse_json(&broken).unwrap()), None);
    assert_eq!(encode_team(&vec![]), Json::Array(vec![]));
}

#[test]
fn decodes_a_session_payload() {
    let text = payload_text(&[(100, 0), (0, 1)], &[(300, 5)]);
    let session = ChampSelectSession::decode(parse_json(&text).unwrap()).unwrap();
    assert_eq!(session.my_team(), &vec![slot(100, 0), slot(0, 1)]);
    assert_eq!(session.their_team(), &vec![slot(300, 5)]);
    assert_eq!(session.roster(), vec![100, 0, 300]);
    assert_eq!(session.payload(), &parse_json(&text).unwrap());
    assert_eq!(session.body(), text);
}

#[test]
fn a_payload_without_both_teams_is_a_shape_mismatch() {
    let cases = [
        "null",
        "[]",
        "{}",
        "{\"myTeam\":[]}",
        "{\"theirTeam\":[]}",
        "{\"myTeam\":[],\"theirTeam\":null}",
        "{\"myTeam\":{},\"theirTeam\":[]}",
        "{\"myTeam\":[{}],\"theirTeam\":[]}",
    ];
    for case in cases {
        assert_eq!(
            ChampSelectSession::decode(parse_json(case).unwrap()),
            Err(ParseError::ShapeMismatch)
        );
        assert_eq!(
            decode_payload(parse_json(case).unwrap()),
            DecodedFrame::Dropped(ParseError::ShapeMismatch)
        );
    }
}

#[test]
fn an_empty_frame_is_skipped() {
    assert_eq!(decode_frame(""), DecodedFrame::Skipped);
}

#[test]
fn a_frame_that_is_not_json_is_dropped() {
    assert_eq!(decode_frame("not json"), DecodedFrame::Dropped(ParseError::NotJson));
    assert_eq!(decode_frame(" "), DecodedFrame::Dropped(ParseError::NotJson));
}

#[test]
fn a_frame_without_data_is_dropped() {
    let cases = [
        "[8,\"event\",{\"eventType\":\"Update\"}]",
        "[8,\"event\"]",
        "[8,\"event\",\"envelope\"]",
        "{\"data\":{}}",
        "null",
    ];
    for case in cases {
        assert_eq!(decode_frame(case), DecodedFrame::Dropped(ParseError::MissingData));
    }
}

#[test]
fn a_frame_with_a_payload_of_another_shape_is_dropped() {
    assert_eq!(
        decode_frame("[8,\"event\",{\"data\":null}]"),
        DecodedFrame::Dropped(ParseError::ShapeMismatch)
    );
    assert_eq!(
        decode_frame("[8,\"event\",{\"data\":{\"myTeam\":[]}}]"),
        DecodedFrame::Dropped(ParseError::ShapeMismatch)
    );
    assert_eq!(
        decode_frame("[8,\"event\",{\"data\":\"{\\\"myTeam\\\":[]}\"}]"),
        DecodedFrame::Dropped(ParseError::ShapeMismatch)
    );
}

#[test]
fn a_frame_whose_data_is_a_string_that_is_not_json_is_dropped() {
    assert_eq!(
        decode_frame("[8,\"event\",{\"data\":\"{oops\"}]"),
        DecodedFrame::Dropped(ParseError::PayloadNotJson)
    );
}

#[test]
fn decodes_a_frame_whose_data_is_an_object() {
    let payload = payload_text(&[(100, 0)], &[(0, 5)]);
    let session = session_of(decode_frame(&frame_text(&payload)));
    assert_eq!(session.roster(), vec![100, 0]);
    assert_eq!(session.body(), payload);
}

#[test]
fn decodes_a_frame_whose_data_is_json_in_a_string() {
    let payload = payload_text(&[(100, 0)], &[(0, 5)]);
    let encoded = render_json(&Json::Text(payload.clone()));
    let session = session_of(decode_frame(&frame_text(&encoded)));
    assert_eq!(session.my_team(), &vec![slot(100, 0)]);
    assert_eq!(session.their_team(), &vec![slot(0, 5)]);
    assert_eq!(session.body(), payload);
}

#[test]
fn a_frame_may_have_more_than_three_elements() {
    let payload = payload_text(&[], &[]);
    let text = format!("[8,\"event\",{{\"data\":{}}},\"more\"]", payload);
    assert_eq!(session_of(decode_frame(&text)).roster(), Vec::<i64>::new());
}

#[test]
fn the_stages_of_decoding_agree_with_the_whole() {
    let payload = payload_text(&[(7, 0)], &[(8, 5)]);
    let frame = parse_json(&frame_text(&payload)).unwrap();
    let data = take_data(frame).unwrap();
    assert_eq!(data, parse_json(&payload).unwrap());
    assert_eq!(decode_data(data, None), decode_frame(&frame_text(&payload)));
    assert_eq!(take_data(parse_json("[1,2]").unwrap()), None);
    assert_eq!(
        decode_envelope(parse_json("[1,2,{}]").unwrap()),
        DecodedFrame::Dropped(ParseError::MissingData)
    );
    assert_eq!(
        decode_data(Json::Text("x".to_string()), None),
        DecodedFrame::Dropped(ParseError::PayloadNotJson)
    );
    assert_eq!(
        decode_data(Json::Text("x".to_string()), Some(parse_json(&payload).unwrap())),
        decode_payload(parse_json(&payload).unwrap())
    );
}
