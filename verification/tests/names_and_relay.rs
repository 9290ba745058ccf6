use champ_select_relay::error::{ForwardError, LookupError, ParseError, RelayError};
use champ_select_relay::json::{parse_json, Json};
use champ_select_relay::names::{display_name, read_answer, NameMap};
use champ_select_relay::relay::{Action, Event, Notice, Pending, Relay, Step};
use champ_select_relay::session::{decode_frame, DecodedFrame};

const SESSION_URL: &str = "https://ternifolia.com/university/champselect";
const NAMES_URL: &str = "https://ternifolia.com/university/summonernames";

fn slot_text(summoner_id: i64) -> String {
    format!(
        "{{\"assignedPosition\":\"\",\"cellId\":0,\"championId\":1,\"championPickIntent\":0,\
         \"entitledFeatureType\":\"\",\"selectedSkinId\":1000,\"spell1Id\":4.0,\"spell2Id\":7,\
         \"summonerId\":{},\"team\":1,\"wardSkinId\":-1}}",
        summoner_id
    )
}

fn payload_text(mine: &[i64], theirs: &[i64]) -> String {
    let mine: Vec<String> = mine.iter().map(|id| slot_text(*id)).collect();
    let theirs: Vec<String> = theirs.iter().map(|id| slot_text(*id)).collect();
    format!("{{\"myTeam\":[{}],\"theirTeam\":[{}]}}", mine.join(","), theirs.join(","))
}

fn frame_text(mine: &[i64], theirs: &[i64]) -> String {
    format!(
        "[8,\"OnJsonApiEvent_lol-champ-select_v1_session\",{{\"data\":{}}}]",
        payload_text(mine, theirs)
    )
}

fn answer(name: &str) -> Event {
    Event::Answer(format!("{{\"displayName\":\"{}\",\"summonerLevel\":30}}", name))
}

fn quiet(action: Action) -> Step {
    Step { notice: Notice::Quiet, action }
}

fn failed(error: RelayError) -> Step {
    Step { notice: Notice::Failed(error), action: Action::ReadFrame }
}

fn get(port: u32, id: i64) -> Action {
    Action::GetSummoner {
        url: format!("https://127.0.0.1:{}/lol-summoner/v1/summoners/{}", port, id),
    }
}

fn names_of(pairs: &[(i64, &str)]) -> NameMap {
    let mut names = NameMap::seeded();
    for (id, name) in pairs {
        names = names.insert(*id, name.to_string());
    }
    names
}

#[test]
fn a_new_name_map_holds_the_bot() {
    let names = NameMap::seeded();
    assert_eq!(names.len(), 1);
    assert_eq!(names.get(0), Some(&"Bot".to_string()));
    assert_eq!(names.get(1), None);
    assert_eq!(names.body(), "{\"0\":\"Bot\"}");
}

#[test]
fn the_bot_keeps_its_name() {
    let names = NameMap::seeded().insert(0, "Impostor".to_string());
    assert_eq!(names, NameMap::seeded());
    assert_eq!(names.get(0), Some(&"Bot".to_string()));
}

#[test]
fn the_last_name_recorded_for_a_summoner_counts() {
    let names = names_of(&[(100, "Faker"), (200, "Caps"), (100, "Hide on bush")]);
    assert_eq!(names.len(), 3);
    assert_eq!(names.get(100), Some(&"Hide on bush".to_string()));
    assert_eq!(names.get(200), Some(&"Caps".to_string()));
    assert_eq!(names.get(0), Some(&"Bot".to_string()));
    assert_eq!(names.get(300), None);
}

#[test]
fn a_name_map_is_written_with_decimal_keys() {
    let names = names_of(&[(100, "Faker"), (-5, "odd \"one\"")]);
    assert_eq!(
        names.to_json(),
        Json::Object(vec![
            ("0".to_string(), Json::Text("Bot".to_string())),
            ("100".to_string(), Json::Text("Faker".to_string())),
            ("-5".to_string(), Json::Text("odd \"one\"".to_string())),
        ])
    );
    assert_eq!(names.body(), "{\"-5\":\"odd \\\"one\\\"\",\"0\":\"Bot\",\"100\":\"Faker\"}");
}

#[test]
fn the_display_name_is_a_string_field_of_the_answer() {
    let good = parse_json("{\"displayName\":\"Faker\",\"accountId\":1}").unwrap();
    assert_eq!(display_name(&good), Ok("Faker".to_string()));
    assert_eq!(read_answer("{\"displayName\":\"Faker\"}"), Ok("Faker".to_string()));
    assert_eq!(read_answer("{\"displayName\":\"\"}"), Ok("".to_string()));
}

#[test]
fn an_answer_without_display_name_is_a_lookup_error() {
    assert_eq!(read_answer("{}"), Err(LookupError::NoDisplayName));
    assert_eq!(read_answer("{\"displayName\":null}"), Err(LookupError::NoDisplayName));
    assert_eq!(read_answer("{\"displayName\":5}"), Err(LookupError::NoDisplayName));
    assert_eq!(read_answer("[\"displayName\"]"), Err(LookupError::NoDisplayName));
    assert_eq!(display_name(&Json::Null), Err(LookupError::NoDisplayName));
}

#[test]
fn an_answer_that_is_not_json_is_a_lookup_error() {
    assert_eq!(read_answer("<html>"), Err(LookupError::NotJson));
    assert_eq!(read_answer(""), Err(LookupError::NotJson));
}

#[test]
fn a_new_relay_waits_for_a_frame() {
    let relay = Relay::new(4242);
    assert_eq!(relay.port(), 4242);
    assert_eq!(relay.pending(), Pending::Frame);
    assert_eq!(relay.roster(), &Vec::<i64>::new());
    assert_eq!(relay.names(), &NameMap::seeded());
}

#[test]
fn an_empty_frame_changes_nothing_and_forwards_nothing() {
    let relay = Relay::new(4242);
    let (relay, step) = relay.handle(Event::Frame(String::new()));
    assert_eq!(step, quiet(Action::ReadFrame));
    assert_eq!(relay, Relay::new(4242));
    let (relay, step) = relay.handle(Event::Frame(String::new()));
    assert_eq!(step, quiet(Action::ReadFrame));
    assert_eq!(relay, Relay::new(4242));
}

#[test]
fn a_frame_without_data_is_a_parse_error_and_forwards_nothing() {
    let relay = Relay::new(4242);
    let (relay, step) =
        relay.handle(Event::Frame("[8,\"event\",{\"eventType\":\"Update\"}]".to_string()));
    assert_eq!(step, failed(RelayError::Parse(ParseError::MissingData)));
    assert_eq!(relay, Relay::new(4242));
    let (relay, step) = relay.handle(Event::Frame(frame_text(&[], &[])));
    assert_eq!(relay.pending(), Pending::SessionPost);
    assert_eq!(
        step,
        quiet(Action::PostSession { url: SESSION_URL.to_string(), body: payload_text(&[], &[]) })
    );
}

#[test]
fn each_kind_of_malformed_frame_is_reported() {
    let cases = [
        ("{", ParseError::NotJson),
        ("[1,2]", ParseError::MissingData),
        ("[1,2,{\"data\":\"{\"}]", ParseError::PayloadNotJson),
        ("[1,2,{\"data\":{}}]", ParseError::ShapeMismatch),
    ];
    for (text, error) in cases {
        let (relay, step) = Relay::new(1).handle(Event::Frame(text.to_string()));
        assert_eq!(step, failed(RelayError::Parse(error)));
        assert_eq!(relay, Relay::new(1));
    }
}

#[test]
fn one_human_and_one_bot_give_two_posts_in_order() {
    let relay = Relay::new(4242);
    let mut posts: Vec<String> = Vec::new();

    let (relay, step) = relay.handle(Event::Frame(frame_text(&[100], &[0])));
    assert_eq!(
        step,
        quiet(Action::PostSession {
            url: SESSION_URL.to_string(),
            body: payload_text(&[100], &[0]),
        })
    );
    if let Action::PostSession { url, .. } = &step.action {
        posts.push(url.clone());
    }
    assert_eq!(relay.roster(), &vec![100, 0]);

    let (relay, step) = relay.handle(Event::Delivered);
    assert_eq!(step, quiet(get(4242, 100)));
    assert_eq!(relay.pending(), Pending::Lookup);

    let (relay, step) = relay.handle(Event::Answer("{\"displayName\": \"Faker\"}".to_string()));
    assert_eq!(
        step,
        quiet(Action::PostNames {
            url: NAMES_URL.to_string(),
            body: "{\"0\":\"Bot\",\"100\":\"Faker\"}".to_string(),
        })
    );
    if let Action::PostNames { url, .. } = &step.action {
        posts.push(url.clone());
    }
    assert_eq!(relay.names(), &names_of(&[(100, "Faker")]));
    assert_eq!(relay.pending(), Pending::NamesPost);

    let (relay, step) = relay.handle(Event::Delivered);
    assert_eq!(step, Step { notice: Notice::Completed, action: Action::ReadFrame });
    assert_eq!(relay, Relay::new(4242));
    assert_eq!(posts, vec![SESSION_URL.to_string(), NAMES_URL.to_string()]);
}

#[test]
fn a_session_of_bots_asks_for_no_name() {
    let (relay, _) = Relay::new(7).handle(Event::Frame(frame_text(&[0, 0], &[0])));
    let (relay, step) = relay.handle(Event::Delivered);
    assert_eq!(
        step,
        quiet(Action::PostNames { url: NAMES_URL.to_string(), body: "{\"0\":\"Bot\"}".to_string() })
    );
    assert_eq!(relay.names().len(), 1);
}

#[test]
fn names_are_looked_up_one_after_the_other_in_roster_order() {
    let (relay, _) = Relay::new(7).handle(Event::Frame(frame_text(&[0, 11, 0, 22], &[0, 33, 0])));
    let (relay, step) = relay.handle(Event::Delivered);
    assert_eq!(step, quiet(get(7, 11)));
    let (relay, step) = relay.handle(answer("a"));
    assert_eq!(step, quiet(get(7, 22)));
    let (relay, step) = relay.handle(answer("b"));
    assert_eq!(step, quiet(get(7, 33)));
    let (relay, step) = relay.handle(answer("c"));
    assert_eq!(
        step,
        quiet(Action::PostNames {
            url: NAMES_URL.to_string(),
            body: "{\"0\":\"Bot\",\"11\":\"a\",\"22\":\"b\",\"33\":\"c\"}".to_string(),
        })
    );
    assert_eq!(relay.names(), &names_of(&[(11, "a"), (22, "b"), (33, "c")]));
}

#[test]
fn a_summoner_seen_twice_has_one_entry_with_the_later_name() {
    let (relay, _) = Relay::new(7).handle(Event::Frame(frame_text(&[5, 6], &[5])));
    let (relay, _) = relay.handle(Event::Delivered);
    let (relay, step) = relay.handle(answer("first"));
    assert_eq!(step, quiet(get(7, 6)));
    let (relay, step) = relay.handle(answer("other"));
    assert_eq!(step, quiet(get(7, 5)));
    let (relay, step) = relay.handle(answer("second"));
    assert_eq!(
        step,
        quiet(Action::PostNames {
            url: NAMES_URL.to_string(),
            body: "{\"0\":\"Bot\",\"5\":\"second\",\"6\":\"other\"}".to_string(),
        })
    );
    assert_eq!(relay.names().len(), 3);
}

#[test]
fn a_failed_lookup_ends_the_event_and_the_next_frame_is_handled() {
    let (relay, _) = Relay::new(7).handle(Event::Frame(frame_text(&[11, 22], &[])));
    let (relay, _) = relay.handle(Event::Delivered);
    let (relay, step) = relay.handle(answer("a"));
    assert_eq!(step, quiet(get(7, 22)));
    let (relay, step) = relay.handle(Event::Unanswered);
    assert_eq!(step, failed(RelayError::Lookup(LookupError::Unanswered)));
    assert_eq!(relay, Relay::new(7));

    let (relay, step) = relay.handle(Event::Frame(frame_text(&[33], &[])));
    assert_eq!(
        step,
        quiet(Action::PostSession { url: SESSION_URL.to_string(), body: payload_text(&[33], &[]) })
    );
    let (relay, step) = relay.handle(Event::Delivered);
    assert_eq!(step, quiet(get(7, 33)));
    let (relay, step) = relay.handle(answer("c"));
    assert_eq!(
        step,
        quiet(Action::PostNames {
            url: NAMES_URL.to_string(),
            body: "{\"0\":\"Bot\",\"33\":\"c\"}".to_string(),
        })
    );
    assert_eq!(relay.names(), &names_of(&[(33, "c")]));
}

#[test]
fn an_answer_of_another_shape_ends_the_event() {
    let cases = [
        ("not json", LookupError::NotJson),
        ("{\"name\":\"x\"}", LookupError::NoDisplayName),
    ];
    for (body, error) in cases {
        let (relay, _) = Relay::new(7).handle(Event::Frame(frame_text(&[11], &[])));
        let (relay, _) = relay.handle(Event::Delivered);
        let (relay, step) = relay.handle(Event::Answer(body.to_string()));
        assert_eq!(step, failed(RelayError::Lookup(error)));
        assert_eq!(relay, Relay::new(7));
    }
}

#[test]
fn a_failed_post_ends_the_event() {
    let (relay, _) = Relay::new(7).handle(Event::Frame(frame_text(&[11], &[])));
    let (relay, step) = relay.handle(Event::Undelivered);
    assert_eq!(step, failed(RelayError::Forward(ForwardError::Session)));
    assert_eq!(relay, Relay::new(7));

    let (relay, _) = relay.handle(Event::Frame(frame_text(&[0], &[])));
    let (relay, _) = relay.handle(Event::Delivered);
    assert_eq!(relay.pending(), Pending::NamesPost);
    let (relay, step) = relay.handle(Event::Undelivered);
    assert_eq!(step, failed(RelayError::Forward(ForwardError::Names)));
    assert_eq!(relay, Relay::new(7));
}

#[test]
fn an_event_that_is_not_awaited_is_passed_over() {
    let unexpected = Step { notice: Notice::Unexpected, action: Action::Continue };
    for event in [Event::Delivered, Event::Undelivered, answer("x"), Event::Unanswered] {
        let (relay, step) = Relay::new(7).handle(event);
        assert_eq!(step, unexpected);
        assert_eq!(relay, Relay::new(7));
    }
    let (relay, _) = Relay::new(7).handle(Event::Frame(frame_text(&[11], &[])));
    let (relay, step) = relay.handle(Event::Frame(frame_text(&[12], &[])));
    assert_eq!(step, unexpected);
    assert_eq!(relay.pending(), Pending::SessionPost);
    assert_eq!(relay.roster(), &vec![11]);
    let (relay, step) = relay.handle(answer("x"));
    assert_eq!(step, unexpected);
    let (relay, _) = relay.handle(Event::Delivered);
    let (relay, step) = relay.handle(Event::Delivered);
    assert_eq!(step, unexpected);
    assert_eq!(relay.pending(), Pending::Lookup);
    let (relay, step) = relay.handle(answer("x"));
    assert_eq!(relay.pending(), Pending::NamesPost);
    assert!(matches!(step.action, Action::PostNames { .. }));
    let (relay, step) = relay.handle(Event::Unanswered);
    assert_eq!(step, unexpected);
    assert_eq!(relay.pending(), Pending::NamesPost);
}

#[test]
fn the_stages_of_the_relay_agree_with_the_whole() {
    let text = frame_text(&[11], &[0]);
    let (whole, whole_step) = Relay::new(7).handle(Event::Frame(text.clone()));
    let (staged, staged_step) = Relay::frame_decoded(7, decode_frame(&text));
    assert_eq!(whole, staged);
    assert_eq!(whole_step, staged_step);
    assert_eq!(
        Relay::frame_decoded(7, DecodedFrame::Skipped),
        (Relay::new(7), quiet(Action::ReadFrame))
    );
    assert_eq!(
        Relay::frame_decoded(7, DecodedFrame::Dropped(ParseError::NotJson)),
        (Relay::new(7), failed(RelayError::Parse(ParseError::NotJson)))
    );

    let (lookup, _) = staged.handle(Event::Delivered);
    let (relay, step) = lookup.lookup_answered(Ok("Faker".to_string()));
    assert_eq!(
        step,
        quiet(Action::PostNames {
            url: NAMES_URL.to_string(),
            body: "{\"0\":\"Bot\",\"11\":\"Faker\"}".to_string(),
        })
    );
    let (relay, step) = relay.lookup_answered(Ok("late".to_string()));
    assert_eq!(step, Step { notice: Notice::Unexpected, action: Action::Continue });
    assert_eq!(relay.names(), &names_of(&[(11, "Faker")]));
    let (relay, _) = whole.handle(Event::Delivered);
    let (relay, step) = relay.lookup_answered(Err(LookupError::NoDisplayName));
    assert_eq!(step, failed(RelayError::Lookup(LookupError::NoDisplayName)));
    assert_eq!(relay, Relay::new(7));
}

#[test]
fn the_name_map_has_at_most_one_entry_more_than_the_humans() {
    let roster: [i64; 6] = [9, 0, 9, 8, 0, 8];
    let (mut relay, _) = Relay::new(7).handle(Event::Frame(frame_text(&roster[..3], &roster[3..])));
    let (next, mut step) = relay.handle(Event::Delivered);
    relay = next;
    let mut lookups = 0;
    while let Action::GetSummoner { .. } = step.action {
        lookups += 1;
        let (next, following) = relay.handle(answer("n"));
        relay = next;
        step = following;
    }
    assert_eq!(lookups, 4);
    assert_eq!(relay.names().len(), 3);
    assert_eq!(relay.names().get(0), Some(&"Bot".to_string()));
}
