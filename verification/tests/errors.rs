use bluedot::claim::{ensure_unique_claim_keys, Claim, Confidence};
use bluedot::fact::{ensure_unique_keys, Annotation, Fact};
use bluedot::http::{checked_body, redact};
use bluedot::acs::{fetched_body, keyed_url};
use bluedot::time::{Date, Timestamp};
use bluedot::Error;

fn fact(entity: &str, vintage: &str) -> Fact {
    Fact {
        entity_id: entity.to_string(),
        indicator_id: "acs:B01003_001".to_string(),
        valid_from: Date::new(2019, 1, 1),
        valid_to: Date::new(2024, 1, 1),
        vintage: vintage.to_string(),
        published_at: Date::new(2024, 12, 12),
        value: Some("1".to_string()),
        moe: None,
        value_annotation: None,
        moe_annotation: Some(Annotation::Controlled),
        boundary_year: 2023,
        source_dataset: "acs/acs5".to_string(),
        source_url: "u".to_string(),
        retrieved_at: Timestamp { unix_seconds: 0 },
    }
}

fn claim(entity: &str, attribute: &str, record: &str) -> Claim {
    Claim {
        entity_id: entity.to_string(),
        attribute_id: attribute.to_string(),
        valid_from: Date::new(2026, 9, 2),
        valid_to: Date::new(2026, 9, 3),
        vintage: "echo-2026-09-02".to_string(),
        source_record: record.to_string(),
        value_text: Some("v".to_string()),
        value_num: None,
        unit: None,
        stated_by: "s".to_string(),
        confidence: Confidence::Reported,
        published_at: Date::new(2026, 9, 2),
        source_dataset: "d".to_string(),
        source_url: "u".to_string(),
        retrieved_at: Timestamp { unix_seconds: 0 },
    }
}

#[test]
fn fact_keys_must_be_unique() {
    let ok = [fact("geoId/01", "acs5-2023"), fact("geoId/02", "acs5-2023"), fact("geoId/01", "acs5-2022")];
    assert!(ensure_unique_keys(&ok).is_ok());
    let bad = [fact("geoId/01", "v"), fact("geoId/02", "v"), fact("geoId/02", "v"), fact("geoId/01", "v")];
    match ensure_unique_keys(&bad).unwrap_err() {
        // the first fact whose key was already seen is named
        Error::DuplicateFactKey { entity_id, .. } => assert_eq!(entity_id, "geoId/02"),
        other => panic!("{other:?}"),
    }
    assert!(ensure_unique_keys(&[]).is_ok());
}

#[test]
fn claim_keys_must_be_unique() {
    let ok = [claim("e", "a", "r1"), claim("e", "a", "r2"), claim("e", "b", "r1")];
    assert!(ensure_unique_claim_keys(&ok).is_ok());
    let bad = [claim("e", "a", "r1"), claim("e", "b", "r1"), claim("e", "a", "r1")];
    let err = ensure_unique_claim_keys(&bad).unwrap_err();
    assert_eq!(
        err.message(),
        "duplicate claim key: entity e, attribute a, valid from 2026-09-02, vintage echo-2026-09-02, record r1"
    );
}

#[test]
fn messages_say_what_failed_and_where() {
    assert_eq!(
        Error::UnexpectedStatus { url: "u".into(), status: 503, body_head: "busy \"now\"".into() }.message(),
        "u returned HTTP 503; body starts: \"busy \\\"now\\\"\""
    );
    assert_eq!(
        Error::UnknownSentinel {
            code: -444_444_444,
            field: "estimate".into(),
            geoid: "06037".into(),
            variable: "B01003_001".into()
        }
        .message(),
        "unknown annotation code -444444444 in estimate of B01003_001 for GEOID 06037; add it to acs::SENTINELS only after checking the Census annotation table"
    );
    assert_eq!(
        Error::UnsupportedVintage { dataset: "acs/acs5".into(), year: 2019 }.message(),
        "no release metadata for acs/acs5 vintage 2019; add its publication date to that source's RELEASES table"
    );
    assert_eq!(
        Error::BadResponseShape { url: "u".into(), detail: "d".into() }.message(),
        "u: unexpected response shape: d"
    );
    assert_eq!(Error::Usage("m".into()).message(), "m");
    assert!(Error::MissingApiKey.message().starts_with("no Census API key"));
    assert_eq!(Error::Http { url: "u".into(), detail: "x".into() }.message(), "request to u failed");
    assert_eq!(Error::Csv { url: "u".into(), detail: "x".into() }.message(), "malformed CSV from u");
    assert_eq!(Error::Io { path: "/p".into(), detail: "x".into() }.message(), "I/O error at /p");
}

#[test]
fn secrets_never_reach_a_message() {
    assert_eq!(redact("a KEY b KEYKEY", "KEY"), "a [REDACTED] b [REDACTED][REDACTED]");
    assert_eq!(redact("aaa", "aa"), "[REDACTED]a");
    assert_eq!(redact("none here", "KEY"), "none here");
    assert_eq!(keyed_url("https://x/q?get=A", "k1"), "https://x/q?get=A&key=k1");
    match fetched_body("u", false, 400, "error for key=SECRET", "SECRET").unwrap_err() {
        Error::UnexpectedStatus { status, body_head, .. } => {
            assert_eq!(status, 400);
            assert_eq!(body_head, "error for key=[REDACTED]");
        }
        other => panic!("{other:?}"),
    }
    assert!(matches!(
        fetched_body("u", true, 200, "x", "SECRET").unwrap_err(),
        Error::ApiKeyRejected { .. }
    ));
    assert_eq!(fetched_body("u", false, 200, "[[1]] SECRET", "SECRET").unwrap(), "[[1]] [REDACTED]");
    assert_eq!(checked_body("u", 200, "b".into()).unwrap(), "b");
    match checked_body("u", 302, "y".repeat(200)).unwrap_err() {
        Error::UnexpectedStatus { body_head, .. } => assert_eq!(body_head.len(), 120),
        other => panic!("{other:?}"),
    }
}

#[test]
fn a_redacted_text_holds_no_key() {
    let key = "0123456789abcdef0123456789abcdef01234567";
    let text = format!("GET /data?get=x&key={key} failed: key {key}{key} rejected");
    let out = redact(&text, key);
    assert!(!out.contains(key));
    assert_eq!(out.matches("[REDACTED]").count(), 3);
}
