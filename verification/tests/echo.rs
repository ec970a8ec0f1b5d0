use std::collections::HashMap;

use bluedot::claim::Confidence;
use bluedot::echo::{conform, query_id, read_answer, reported_error, rows_url, Request};
use bluedot::fact::{Level, Position};
use bluedot::json::Json;
use bluedot::time::{Date, Timestamp};
use bluedot::Error;
use serde_json::Value;

// A get_qid response: five permit records of four facilities, one FRS id
// recorded twice under two names.
const SUBSET: &str = r#"{"Results":{"Message":"Success","QueryRows":"5","Facilities":[
{"RegistryID":"110031223771","SourceID":"VA0000005110700001","AIRName":"AMAZON DATA SERVICES, INC. IAD-6 IAD-13 IAD-54","AIRStatus":"Operating","AIRState":"VA","FacLat":"38.9531","FacLong":"-77.4443"},
{"RegistryID":"110031223771","SourceID":"VA0000005110700187","AIRName":"VADATA INC MEG FOUR","AIRStatus":"Operating","AIRState":"VA","FacLat":"38.9531","FacLong":"-77.4443"},
{"RegistryID":"110070234512","SourceID":"OR0000004106500012","AIRName":"GOOGLE THE DALLES","AIRStatus":"Under Construction","AIRState":"OR","FacLat":"45.6326","FacLong":"-121.2014"},
{"RegistryID":"110064481234","SourceID":"TX0000004811300077","AIRName":"CYRUSONE CARROLLTON","AIRStatus":"Planned Facility","AIRState":"TX","FacLat":"32.9989","FacLong":"-96.8897"},
{"RegistryID":"110045590001","SourceID":"AZ0000000401300321","AIRName":"IRON MOUNTAIN PHOENIX","AIRStatus":"No Operating Status In ICIS","AIRState":"AZ","FacLat":"33.4242","FacLong":"-112.0220"}
]}}"#;

const T0: Timestamp = Timestamp {
    unix_seconds: 1_756_800_000,
};

const STAGE_TOKENS: [&str; 6] = [
    "operating",
    "under_construction",
    "planned_facility",
    "permanently_closed",
    "temporarily_closed",
    "no_operating_status_in_icis",
];

fn req() -> Request {
    Request::new("518210", Date::new(2026, 9, 2)).unwrap()
}

fn run(body: &str, req: &Request) -> Result<bluedot::echo::Conformed, Error> {
    conform(body, req, T0)
}

#[test]
fn conforms_entities_and_stage_claims() {
    let c = run(SUBSET, &req()).unwrap();
    let stage_claims: Vec<_> = c.claims.iter().filter(|cl| cl.attribute_id == "dc:stage").collect();
    let state_claims: Vec<_> = c.claims.iter().filter(|cl| cl.attribute_id == "dc:state").collect();
    let name_claims: Vec<_> = c
        .claims
        .iter()
        .filter(|cl| cl.attribute_id == "dc:recorded_name")
        .collect();
    assert_eq!(c.claims.len(), stage_claims.len() + state_claims.len() + name_claims.len());
    assert_eq!(stage_claims.len(), name_claims.len());
    // the twice-recorded FRS id keeps BOTH stated names, as claims
    let names: Vec<_> = name_claims
        .iter()
        .filter(|cl| cl.entity_id == "frs/110031223771")
        .filter_map(|cl| cl.value_text.as_deref())
        .collect();
    assert!(names.contains(&"AMAZON DATA SERVICES, INC. IAD-6 IAD-13 IAD-54"), "{names:?}");
    assert!(names.contains(&"VADATA INC MEG FOUR"), "{names:?}");
    assert_eq!(stage_claims.len(), state_claims.len(), "one stage + one state claim per record");
    assert!(
        stage_claims.len() > c.entities.len(),
        "duplicate-FRS records must yield extra claims"
    );
    let mut counts = HashMap::new();
    for cl in &stage_claims {
        *counts.entry(cl.entity_id.as_str()).or_insert(0) += 1;
    }
    assert_eq!(
        counts.values().filter(|n| **n > 1).count(),
        1,
        "exactly one multi-record facility"
    );
    assert!(state_claims.iter().any(|cl| cl.value_text.as_deref() == Some("VA")));
    let mut ids: Vec<_> = c.entities.iter().map(|e| e.entity_id.as_str()).collect();
    ids.sort_unstable();
    ids.dedup();
    assert_eq!(ids.len(), c.entities.len(), "entities unique per FRS id");
    for e in &c.entities {
        assert_eq!(e.level, Level::Facility);
        assert!(e.entity_id.starts_with("frs/"));
        assert!(matches!(e.position, Position::Point { .. }));
    }
    for cl in &c.claims {
        assert_eq!((cl.valid_from, cl.valid_to), (Date::new(2026, 9, 2), Date::new(2026, 9, 3)));
        assert_eq!(cl.vintage, "echo-2026-09-02");
        assert_eq!(cl.confidence, Confidence::ConfirmedByRecord);
        assert!(!cl.source_record.is_empty());
    }
    for cl in &stage_claims {
        assert!(STAGE_TOKENS.iter().any(|t| Some(*t) == cl.value_text.as_deref()));
    }
    // the first record's name and place win for the entity
    let amazon = c.entities.iter().find(|e| e.entity_id == "frs/110031223771").unwrap();
    assert_eq!(amazon.name, "AMAZON DATA SERVICES, INC. IAD-6 IAD-13 IAD-54");
    match &amazon.position {
        Position::Point { lat, lon } => assert_eq!((lat.as_str(), lon.as_str()), ("38.9531", "-77.4443")),
        other => panic!("{other:?}"),
    }
    assert_eq!(amazon.boundary_year, 2026);
    assert_eq!(amazon.vintage, "echo-2026-09-02");
    assert_eq!(c.claims[0].stated_by, "EPA ICIS-Air (state-reported)");
    assert_eq!(
        c.claims[0].source_url,
        "https://echodata.epa.gov/echo/air_rest_services.get_facilities?output=JSON&p_ncs=518210"
    );
}

#[test]
fn echo_refuses_what_it_does_not_understand() {
    let mangle = |from: &str, to: &str| SUBSET.replacen(from, to, 1);

    let unknown = run(&mangle("Operating", "Vibing"), &req()).unwrap_err();
    assert!(
        matches!(&unknown, Error::BadResponseShape { detail, .. } if detail.contains("Vibing")),
        "{}",
        unknown.message()
    );

    let no_latlon = run(&mangle(r#""FacLat""#, r#""FacLatMissing""#), &req()).unwrap_err();
    assert!(matches!(no_latlon, Error::BadResponseShape { .. }), "{}", no_latlon.message());

    let echo_err = run(r#"{"Results":{"Error":{"ErrorMessage":"boom"}}}"#, &req()).unwrap_err();
    assert!(matches!(echo_err, Error::BadResponseShape { .. }), "{}", echo_err.message());

    let empty = run(r#"{"Results":{"Facilities":[]}}"#, &req()).unwrap_err();
    assert!(
        matches!(&empty, Error::BadResponseShape { detail, .. } if detail.contains("zero")),
        "{}",
        empty.message()
    );

    // a literally repeated record must refuse the batch with the claim-key error
    let mut v: Value = serde_json::from_str(SUBSET).unwrap();
    let rows = v["Results"]["Facilities"].as_array_mut().unwrap();
    let first = rows[0].clone();
    rows.push(first);
    let dup = run(&v.to_string(), &req()).unwrap_err();
    assert!(matches!(dup, Error::DuplicateClaimKey { .. }), "{}", dup.message());
    assert!(matches!(
        Request::new("51x", Date::new(2026, 9, 2)).unwrap_err(),
        Error::Usage(_)
    ));
}

#[test]
fn row_errors_say_which_row_and_why() {
    let missing = run(&SUBSET.replacen(r#""FacLat""#, r#""FacLatMissing""#, 1), &req()).unwrap_err();
    match missing {
        Error::BadResponseShape { detail, .. } => assert_eq!(detail, "row 1: missing FacLat"),
        other => panic!("{other:?}"),
    }
    let not_a_number = run(&SUBSET.replacen("38.9531", "north", 1), &req()).unwrap_err();
    match not_a_number {
        Error::BadNumber { text, field, geoid, variable } => {
            assert_eq!(text, "\"north\"");
            assert_eq!(field, "FacLat");
            assert_eq!(geoid, "110031223771");
            assert_eq!(variable, "echo get_qid");
        }
        other => panic!("{other:?}"),
    }
    match run("not json", &req()).unwrap_err() {
        Error::NotJson { body_head, .. } => assert_eq!(body_head, "not json"),
        other => panic!("{other:?}"),
    }
    let unknown = run(&SUBSET.replacen("Operating", "Vibing", 1), &req()).unwrap_err();
    match unknown {
        Error::BadResponseShape { detail, .. } => assert_eq!(
            detail,
            "row 1: AIRStatus \"Vibing\" not in the known vocabulary — verify against ECHO and extend STAGE_TOKENS deliberately"
        ),
        other => panic!("{other:?}"),
    }
}

#[test]
fn the_two_step_fetch_reads_its_answers() {
    let url = req().url();
    let value = |body: &str| read_answer(&url, body).unwrap();
    let step1 = value(r#"{"Results":{"QueryID":"355","QueryRows":"468"}}"#);
    let numeric = value(r#"{"Results":{"QueryID":356}}"#);
    let none = value(r#"{"Results":{"Message":"x"}}"#);
    assert_eq!(query_id(&step1, &url).unwrap(), "355");
    assert_eq!(query_id(&numeric, &url).unwrap(), "356");
    let huge = value(r#"{"Results":{"QueryID":18446744073709551615}}"#);
    assert_eq!(query_id(&huge, &url).unwrap(), "18446744073709551615");
    let negative = value(r#"{"Results":{"QueryID":-3}}"#);
    assert!(query_id(&negative, &url).is_err());
    match query_id(&none, &url).unwrap_err() {
        Error::BadResponseShape { detail, .. } => {
            assert_eq!(detail, "no QueryID; Results head: {\"Message\":\"x\"}")
        }
        other => panic!("{other:?}"),
    }
    assert_eq!(
        rows_url("355"),
        "https://echodata.epa.gov/echo/air_rest_services.get_qid?output=JSON&qid=355"
    );
    match read_answer(&url, r#"{"Results":{"Error":{"ErrorMessage":"too many rows"}}}"#) {
        Err(Error::BadResponseShape { detail, .. }) => assert_eq!(detail, "ECHO error: too many rows"),
        other => panic!("{other:?}"),
    }
    let err = Json::Object(vec![(
        "Results".to_owned(),
        Json::Object(vec![(
            "Error".to_owned(),
            Json::Object(vec![("ErrorMessage".to_owned(), Json::Str("too many rows".to_owned()))]),
        )]),
    )]);
    match reported_error(&err, &url) {
        Some(Error::BadResponseShape { detail, .. }) => assert_eq!(detail, "ECHO error: too many rows"),
        other => panic!("{other:?}"),
    }
    assert!(reported_error(&value(SUBSET), &url).is_none());
    match read_answer(&url, "<html>busy</html>") {
        Err(Error::NotJson { body_head, .. }) => assert_eq!(body_head, "<html>busy</html>"),
        other => panic!("{other:?}"),
    }
}

#[test]
fn a_missing_query_id_quotes_results_as_json() {
    let url = req().url();
    let v = read_answer(
        &url,
        r#"{"Results":{"b":[1,2.5,-0.0,true,null],"a":"q\"x","c":{}},"Other":1}"#,
    )
    .unwrap();
    match query_id(&v, &url).unwrap_err() {
        // members in key order, numbers as serde_json writes them
        Error::BadResponseShape { detail, .. } => assert_eq!(
            detail,
            r#"no QueryID; Results head: {"a":"q\"x","b":[1,2.5,-0.0,true,null],"c":{}}"#
        ),
        other => panic!("{other:?}"),
    }
    let long = format!(r#"{{"Results":{{"Message":"{}"}}}}"#, "y".repeat(300));
    let v = read_answer(&url, &long).unwrap();
    match query_id(&v, &url).unwrap_err() {
        Error::BadResponseShape { detail, .. } => {
            let head = detail.strip_prefix("no QueryID; Results head: ").unwrap();
            assert_eq!(head.chars().count(), 200);
            assert!(head.starts_with(r#"{"Message":"yyy"#));
        }
        other => panic!("{other:?}"),
    }
}
