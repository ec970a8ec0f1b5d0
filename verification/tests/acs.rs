use bluedot::acs::{conform, registry, response_rows, FloatReading, Request};
use bluedot::fact::{Annotation, Fact, Level, Position};
use bluedot::time::{Date, Timestamp};
use bluedot::Error;

// Recorded shape of the ACS 5-year county response for Connecticut: the
// eight legacy counties through 2021, the nine planning regions from 2022 on.
const CT_2021: &str = r#"[["NAME","B01003_001E","B01003_001M","state","county"],
["Fairfield County, Connecticut","956446","-555555555","09","001"],
["Hartford County, Connecticut","896854","-555555555","09","003"],
["Litchfield County, Connecticut","184939","-555555555","09","005"],
["Middlesex County, Connecticut","164245","-555555555","09","007"],
["New Haven County, Connecticut","863700","-555555555","09","009"],
["New London County, Connecticut","268555","-555555555","09","011"],
["Tolland County, Connecticut","150293","-555555555","09","013"],
["Windham County, Connecticut","116538","-555555555","09","015"]]"#;

const CT_2023: &str = r#"[["NAME","B01003_001E","B01003_001M","state","county"],
["Capitol Planning Region, Connecticut","969029","-555555555","09","110"],
["Greater Bridgeport Planning Region, Connecticut","324200","-555555555","09","120"],
["Lower Connecticut River Valley Planning Region, Connecticut","175500","-555555555","09","130"],
["Naugatuck Valley Planning Region, Connecticut","451900","-555555555","09","140"],
["Northeastern Connecticut Planning Region, Connecticut","95500","-555555555","09","150"],
["Northwest Hills Planning Region, Connecticut","112400","-555555555","09","160"],
["South Central Connecticut Planning Region, Connecticut","570000","-555555555","09","170"],
["Southeastern Connecticut Planning Region, Connecticut","280400","-555555555","09","180"],
["Western Connecticut Planning Region, Connecticut","620000","-555555555","09","190"]]"#;

const T0: Timestamp = Timestamp {
    unix_seconds: 1_756_612_800,
}; // 2025-08-31T04:00:00Z

fn req(year: u16) -> Request {
    Request::new(year, "B01003_001").unwrap()
}

/// What `str::parse::<f64>` makes of each cell.
fn readings(rows: &[Vec<Option<String>>]) -> Vec<Vec<FloatReading>> {
    rows.iter()
        .map(|r| {
            r.iter()
                .map(|c| match c.as_deref().map(str::parse::<f64>) {
                    Some(Ok(v)) => FloatReading {
                        finite: v.is_finite(),
                        at_or_below_floor: v <= -100_000_000.0,
                        truncated: v as i64,
                    },
                    _ => FloatReading {
                        finite: false,
                        at_or_below_floor: false,
                        truncated: 0,
                    },
                })
                .collect()
        })
        .collect()
}

fn run(body: &str, req: &Request, t: Timestamp) -> Result<Vec<Fact>, Error> {
    let rows = response_rows(body, req)?;
    let rd = readings(&rows);
    conform(&rows, &rd, req, t)
}

fn num(v: &Option<String>) -> Option<f64> {
    v.as_deref().map(|t| t.parse::<f64>().unwrap())
}

#[test]
fn vintage_2021_has_eight_connecticut_counties() {
    let facts = run(CT_2021, &req(2021), T0).unwrap();
    let ids: Vec<&str> = facts.iter().map(|f| f.entity_id.as_str()).collect();
    assert_eq!(
        ids,
        [
            "geoId/09001",
            "geoId/09003",
            "geoId/09005",
            "geoId/09007",
            "geoId/09009",
            "geoId/09011",
            "geoId/09013",
            "geoId/09015"
        ]
    );
    let fairfield = &facts[0];
    assert_eq!(num(&fairfield.value), Some(956_446.0));
    assert_eq!(
        (num(&fairfield.moe), fairfield.moe_annotation),
        (None, Some(Annotation::Controlled))
    );
    assert_eq!(fairfield.value_annotation, None);
    assert_eq!(fairfield.vintage, "acs5-2021");
    assert_eq!(fairfield.published_at, Date::new(2022, 12, 8));
    assert_eq!(
        (fairfield.valid_from, fairfield.valid_to),
        (Date::new(2017, 1, 1), Date::new(2022, 1, 1))
    );
    assert_eq!(fairfield.boundary_year, 2021);
    assert_eq!(fairfield.indicator_id, "acs:B01003_001");
    assert!(fairfield
        .source_url
        .ends_with("/2021/acs/acs5?get=NAME,B01003_001E,B01003_001M&for=county:*"));
    assert!(!fairfield.source_url.contains("key="));
}

#[test]
fn vintage_2023_has_nine_planning_regions_and_no_legacy_counties() {
    let facts = run(CT_2023, &req(2023), T0).unwrap();
    assert_eq!(facts.len(), 9);
    assert!(facts
        .iter()
        .all(|f| f.entity_id.as_str() >= "geoId/09110" && f.boundary_year == 2023));
    let legacy = run(CT_2021, &req(2021), T0).unwrap();
    assert!(legacy
        .iter()
        .all(|old| !facts.iter().any(|new| new.entity_id == old.entity_id)));
}

fn body(estimate: &str, moe: &str) -> String {
    format!(
        r#"[["NAME","B01003_001E","B01003_001M","state","county"],["X",{estimate},{moe},"06","037"]]"#
    )
}

#[test]
fn decodes_every_known_sentinel_on_its_field() {
    let cases = [
        (
            r#""-666666666""#,
            r#""-222222222""#,
            Some(Annotation::InsufficientSample),
            Some(Annotation::MoeInsufficientSample),
        ),
        (
            r#""-999999999""#,
            r#""-999999999""#,
            Some(Annotation::NotDisplayable),
            Some(Annotation::NotDisplayable),
        ),
        (
            r#""-888888888""#,
            r#""-888888888""#,
            Some(Annotation::NotApplicable),
            Some(Annotation::NotApplicable),
        ),
        (
            r#""42.5""#,
            r#""-333333333""#,
            None,
            Some(Annotation::MoeOpenEndedMedian),
        ),
        (
            "null",
            "null",
            Some(Annotation::Missing),
            Some(Annotation::Missing),
        ),
    ];
    for (e, m, want_e, want_m) in cases {
        let f = &run(&body(e, m), &req(2023), T0).unwrap()[0];
        assert_eq!(
            (f.value_annotation, f.moe_annotation),
            (want_e, want_m),
            "estimate={e} moe={m}"
        );
        assert_eq!(f.value.is_none(), want_e.is_some());
        assert_eq!(f.moe.is_none(), want_m.is_some());
    }
}

#[test]
fn acs_refuses_what_it_does_not_understand() {
    let unknown = run(&body(r#""-444444444""#, r#""1""#), &req(2023), T0).unwrap_err();
    assert!(
        matches!(&unknown, Error::UnknownSentinel { code: -444_444_444, field, .. } if field == "estimate"),
        "{}",
        unknown.message()
    );

    let wrong_field = run(&body(r#""-555555555""#, r#""1""#), &req(2023), T0).unwrap_err();
    assert!(
        matches!(wrong_field, Error::SentinelOnWrongField { code: -555_555_555, .. }),
        "{}",
        wrong_field.message()
    );

    let text = run(&body(r#""n/a""#, r#""1""#), &req(2023), T0).unwrap_err();
    assert!(matches!(text, Error::BadNumber { .. }), "{}", text.message());
    for not_a_number in ["NaN", "nan", "inf", "-inf", "Infinity"] {
        let err = run(&body(&format!("{not_a_number:?}"), r#""1""#), &req(2023), T0).unwrap_err();
        assert!(
            matches!(err, Error::BadNumber { .. }),
            "{not_a_number}: {}",
            err.message()
        );
    }

    let no_column = run(
        r#"[["NAME","state","county"],["X","06","037"]]"#,
        &req(2023),
        T0,
    )
    .unwrap_err();
    assert!(
        matches!(no_column, Error::BadResponseShape { .. }),
        "{}",
        no_column.message()
    );

    let html = run("<html>Missing Key</html>", &req(2023), T0).unwrap_err();
    assert!(matches!(html, Error::NotJson { .. }), "{}", html.message());

    assert!(matches!(
        run(CT_2023, &req(2019), T0).unwrap_err(),
        Error::UnsupportedVintage { year: 2019, .. }
    ));
    assert!(matches!(
        Request::new(2023, "B01003_001E").unwrap_err(),
        Error::Usage(_)
    ));
}

#[test]
fn shape_errors_name_what_is_wrong() {
    let no_column = run(r#"[["NAME","state","county"],["X","06","037"]]"#, &req(2023), T0)
        .unwrap_err();
    match no_column {
        Error::BadResponseShape { detail, .. } => assert_eq!(
            detail,
            r#"no column "B01003_001E" in header [Some("NAME"), Some("state"), Some("county")]"#
        ),
        other => panic!("{other:?}"),
    }
    let ragged = run(
        r#"[["NAME","B01003_001E","B01003_001M","state","county"],["X","1","2","06"]]"#,
        &req(2023),
        T0,
    )
    .unwrap_err();
    match ragged {
        Error::BadResponseShape { detail, .. } => {
            assert_eq!(detail, "row 1 has 4 cells, header has 5")
        }
        other => panic!("{other:?}"),
    }
    let null_code = run(
        r#"[["NAME","B01003_001E","B01003_001M","state","county"],["X","1","2",null,"037"]]"#,
        &req(2023),
        T0,
    )
    .unwrap_err();
    match null_code {
        Error::BadResponseShape { detail, .. } => {
            assert_eq!(detail, "row 1 has a null state/county code")
        }
        other => panic!("{other:?}"),
    }
    match run("[]", &req(2023), T0).unwrap_err() {
        Error::BadResponseShape { detail, .. } => assert_eq!(detail, "empty response"),
        other => panic!("{other:?}"),
    }
}

#[test]
fn a_repeated_row_is_refused() {
    let b = r#"[["NAME","B01003_001E","B01003_001M","state","county"],["X","1","2","06","037"],["X","3","4","06","037"]]"#;
    match run(b, &req(2023), T0).unwrap_err() {
        Error::DuplicateFactKey { entity_id, .. } => assert_eq!(entity_id, "geoId/06037"),
        other => panic!("{other:?}"),
    }
}

#[test]
fn acs_request_parts() {
    let r = req(2023);
    assert_eq!(r.vintage(), "acs5-2023");
    assert_eq!(r.indicator_id(), "acs:B01003_001");
    assert_eq!(
        r.url(),
        "https://api.census.gov/data/2023/acs/acs5?get=NAME,B01003_001E,B01003_001M&for=county:*"
    );
    assert_eq!(r.valid_interval(), (Date::new(2019, 1, 1), Date::new(2024, 1, 1)));
    assert_eq!(r.published_at().unwrap(), Date::new(2024, 12, 12));
    assert_eq!(req(2024).published_at().unwrap(), Date::new(2026, 1, 29));
    assert!(Request::new(2023, "").is_err());
    assert!(Request::new(2023, "B01003-001").is_err());
    assert!(Request::new(2023, "B01003_001M").is_err());
    let head = bluedot::acs::head(&"x".repeat(300));
    assert_eq!(head.chars().count(), 120);
}

#[test]
fn acs_registry_names_every_county_as_stated() {
    let rows = response_rows(CT_2023, &req(2023)).unwrap();
    let facts = conform(&rows, &readings(&rows), &req(2023), T0).unwrap();
    let es = registry(&rows, &req(2023));
    assert_eq!(es.len(), 9);
    assert_eq!(es.len(), facts.len());
    for (e, f) in es.iter().zip(facts.iter()) {
        assert_eq!(e.entity_id, f.entity_id);
    }
    let first = &es[0];
    assert_eq!(first.entity_id, "geoId/09110");
    assert_eq!(first.name, "Capitol Planning Region, Connecticut");
    assert!(matches!(first.level, Level::County));
    assert_eq!(first.boundary_year, 2023);
    assert_eq!(first.vintage, "acs5-2023");
    assert_eq!(first.source_dataset, "acs/acs5");
    assert!(matches!(first.position, Position::Unknown));
}

#[test]
fn acs_registry_skips_what_has_no_name() {
    // a null name gives no registry row; the facts are unaffected
    let b = r#"[["NAME","B01003_001E","B01003_001M","state","county"],[null,"1","2","06","037"],["Kern County, California","3","4","06","029"]]"#;
    let rows = response_rows(b, &req(2023)).unwrap();
    let es = registry(&rows, &req(2023));
    assert_eq!(es.len(), 1);
    assert_eq!(es[0].entity_id, "geoId/06029");
    assert_eq!(es[0].name, "Kern County, California");
    // no NAME column: no registry rows at all
    let b = r#"[["B01003_001E","B01003_001M","state","county"],["1","2","06","037"]]"#;
    let rows = response_rows(b, &req(2023)).unwrap();
    assert!(registry(&rows, &req(2023)).is_empty());
}
