use bluedot::fact::{Annotation, Fact, Level, Position};
use bluedot::pep::{conform, decode, registry, Request};
use bluedot::time::{Date, Timestamp};
use bluedot::Error;

const T0: Timestamp = Timestamp {
    unix_seconds: 1_756_712_000,
};

// Twelve-row subsets of the vintage files: one state, Los Angeles County,
// the nine Connecticut planning regions and Doña Ana County NM. v2022 is a
// UTF-8 vintage; v2025 is Latin-1.
fn v2022_text() -> String {
    let mut s = String::from(
        "SUMLEV,REGION,DIVISION,STATE,COUNTY,STNAME,CTYNAME,ESTIMATESBASE2020,POPESTIMATE2020,POPESTIMATE2021,POPESTIMATE2022,NPOPCHG2020\n",
    );
    s.push_str("040,4,9,06,000,California,California,39538245,39501653,39142991,39029342,-36592\n");
    s.push_str("050,4,9,06,037,California,Los Angeles County,10014042,9989165,9829544,9721138,-24877\n");
    for (i, code) in ["110", "120", "130", "140", "150", "160", "170", "180", "190"].iter().enumerate() {
        let n = 100_000 + i * 1000;
        s.push_str(&format!(
            "050,1,1,09,{code},Connecticut,Planning Region {i},{n},{n},{n},{n},0\n"
        ));
    }
    s.push_str("050,4,8,35,013,New Mexico,Doña Ana County,219561,219938,221508,223337,377\n");
    s
}

fn v2025_bytes() -> Vec<u8> {
    let mut s = String::from(
        "SUMLEV,REGION,DIVISION,STATE,COUNTY,STNAME,CTYNAME,ESTIMATESBASE2020,POPESTIMATE2020,POPESTIMATE2021,POPESTIMATE2022,POPESTIMATE2023,POPESTIMATE2024,POPESTIMATE2025\n",
    );
    s.push_str("040,4,9,06,000,California,California,39538245,39501653,39142991,39040616,39198693,39431263,39529101\n");
    s.push_str("050,4,9,06,037,California,Los Angeles County,10014042,9989165,9829544,9748524,9757179,9756919,9750000\n");
    for (i, code) in ["110", "120", "130", "140", "150", "160", "170", "180", "190"].iter().enumerate() {
        let n = 100_000 + i * 1000;
        s.push_str(&format!(
            "050,1,1,09,{code},Connecticut,Planning Region {i},{n},{n},{n},{n},{n},{n},{n}\n"
        ));
    }
    s.push_str("050,4,8,35,013,New Mexico,Doña Ana County,219561,219938,221508,223337,226000,227000,228000\n");
    // Latin-1: every character of this text is below U+0100.
    s.chars().map(|c| c as u32 as u8).collect()
}

fn facts_for(bytes: &[u8], year: u16) -> Vec<Fact> {
    conform(&decode(bytes.to_vec()), &Request::new(year), T0).unwrap()
}

fn find<'a>(facts: &'a [Fact], entity: &str, indicator: &str, valid_from: Date) -> &'a Fact {
    facts
        .iter()
        .find(|f| f.entity_id == entity && f.indicator_id == indicator && f.valid_from == valid_from)
        .unwrap_or_else(|| panic!("no {indicator} for {entity} at {}", valid_from.to_string()))
}

fn num(v: &Option<String>) -> Option<f64> {
    v.as_deref().map(|t| t.parse::<f64>().unwrap())
}

#[test]
fn v2022_shape_and_values() {
    let facts = facts_for(v2022_text().as_bytes(), 2022);
    assert_eq!(facts.len(), 12 * 4); // 12 entities x (base + 2020..=2022)
    let la = find(&facts, "geoId/06037", "pep:POPESTIMATE", Date::new(2022, 7, 1));
    assert_eq!(num(&la.value), Some(9_721_138.0));
    assert_eq!(la.valid_to, Date::new(2022, 7, 2));
    assert_eq!(la.vintage, "pep-2022");
    assert_eq!(la.published_at, Date::new(2023, 3, 30));
    assert_eq!(
        (num(&la.moe), la.moe_annotation, la.value_annotation),
        (None, Some(Annotation::NotApplicable), None)
    );
    assert_eq!(la.boundary_year, 2022);
    assert_eq!(la.source_dataset, "pep/co-est2022-alldata");
    // the SUMLEV 040 row becomes a state entity from the same file
    let ca = find(&facts, "geoId/06", "pep:ESTIMATESBASE", Date::new(2020, 4, 1));
    assert!(num(&ca.value).unwrap() > 39_000_000.0);
    // Connecticut is planning regions in every vintage of this file series
    assert!(facts.iter().any(|f| f.entity_id == "geoId/09110"));
    assert!(!facts.iter().any(|f| f.entity_id == "geoId/09001"));
}

#[test]
fn revision_is_visible_across_vintages() {
    let (v22, v25) = (facts_for(v2022_text().as_bytes(), 2022), facts_for(&v2025_bytes(), 2025));
    let july_2022 = Date::new(2022, 7, 1);
    let before = find(&v22, "geoId/06037", "pep:POPESTIMATE", july_2022);
    let after = find(&v25, "geoId/06037", "pep:POPESTIMATE", july_2022);
    // same entity, same indicator, same valid time — different vintage, different value
    assert_eq!(num(&before.value), Some(9_721_138.0));
    assert_eq!(num(&after.value), Some(9_748_524.0));
    assert_ne!(before.vintage, after.vintage);
    assert_eq!(v25.len(), 12 * 7); // base + 2020..=2025 from the header, not from code
}

#[test]
fn both_encodings_reach_dona_ana() {
    let v25 = v2025_bytes();
    assert!(String::from_utf8(v25.clone()).is_err());
    for (bytes, year) in [(v2022_text().into_bytes(), 2022u16), (v25, 2025)] {
        assert!(
            facts_for(&bytes, year).iter().any(|f| f.entity_id == "geoId/35013"),
            "Doña Ana County missing in v{year}"
        );
    }
    assert_eq!(decode(vec![0x44, 0x6f, 0xf1, 0x61]), "Doña"); // Latin-1 path
    assert_eq!(decode("Doña".as_bytes().to_vec()), "Doña"); // UTF-8 path untouched
}

#[test]
fn pep_refuses_what_it_does_not_understand() {
    let hdr =
        "SUMLEV,STATE,COUNTY,ESTIMATESBASE2020,POPESTIMATE2020,POPESTIMATE2021,POPESTIMATE2022";
    let err = |csv: String, year| conform(&csv, &Request::new(year), T0).unwrap_err();

    let sumlev = err(format!("{hdr}\n160,06,037,10,11,12,13\n"), 2022);
    assert!(matches!(sumlev, Error::BadResponseShape { .. }), "{}", sumlev.message());

    let negative = err(format!("{hdr}\n050,06,037,10,11,-12,13\n"), 2022);
    assert!(matches!(negative, Error::BadNumber { .. }), "{}", negative.message());

    let word = err(format!("{hdr}\n050,06,037,10,11,twelve,13\n"), 2022);
    assert!(matches!(word, Error::BadNumber { .. }), "{}", word.message());

    // header stops at 2022 but the request says vintage 2023: wrong file
    let years = err(format!("{hdr}\n050,06,037,10,11,12,13\n"), 2023);
    assert!(matches!(years, Error::BadResponseShape { .. }), "{}", years.message());

    let ragged = err(format!("{hdr}\n050,06,037,10\n"), 2022);
    assert!(matches!(ragged, Error::Csv { .. }), "{}", ragged.message());

    let missing = err("A,B\n1,2\n".to_owned(), 2022);
    assert!(matches!(missing, Error::BadResponseShape { .. }), "{}", missing.message());

    assert!(matches!(
        Request::new(2019).published_at().unwrap_err(),
        Error::UnsupportedVintage { year: 2019, .. }
    ));
}

#[test]
fn error_details_name_the_row_and_the_years() {
    let hdr =
        "SUMLEV,STATE,COUNTY,ESTIMATESBASE2020,POPESTIMATE2020,POPESTIMATE2021,POPESTIMATE2022";
    let err = |csv: String, year| conform(&csv, &Request::new(year), T0).unwrap_err();
    match err(format!("{hdr}\n160,06,037,10,11,12,13\n"), 2022) {
        Error::BadResponseShape { detail, .. } => assert_eq!(detail, "row 2: unexpected SUMLEV \"160\""),
        other => panic!("{other:?}"),
    }
    match err(format!("{hdr}\n050,06,037,10,11,12,13\n"), 2023) {
        Error::BadResponseShape { detail, .. } => {
            assert_eq!(detail, "POPESTIMATE years [2020, 2021, 2022], expected [2020, 2021, 2022, 2023]")
        }
        other => panic!("{other:?}"),
    }
    match err(format!("{hdr}\n050,06,037,10,11,-12,13\n"), 2022) {
        Error::BadNumber { text, field, geoid, variable } => {
            assert_eq!((text.as_str(), field.as_str()), ("-12", "POPESTIMATE"));
            assert_eq!((geoid.as_str(), variable.as_str()), ("06037", "co-est2022-alldata"));
        }
        other => panic!("{other:?}"),
    }
    // counts are trimmed before they are read
    let ok = conform(&format!("{hdr}\n050,06,037, 10 ,11,12,13\n"), &Request::new(2022), T0).unwrap();
    assert_eq!(num(&ok[0].value), Some(10.0));
    // a repeated county is refused
    match err(format!("{hdr}\n050,06,037,10,11,12,13\n050,06,037,10,11,12,13\n"), 2022) {
        Error::DuplicateFactKey { entity_id, .. } => assert_eq!(entity_id, "geoId/06037"),
        other => panic!("{other:?}"),
    }
}

#[test]
fn pep_request_parts() {
    let r = Request::new(2024);
    assert_eq!(r.vintage(), "pep-2024");
    assert_eq!(r.source_dataset(), "pep/co-est2024-alldata");
    assert_eq!(
        r.url(),
        "https://www2.census.gov/programs-surveys/popest/datasets/2020-2024/counties/totals/co-est2024-alldata.csv"
    );
    assert_eq!(r.published_at().unwrap(), Date::new(2025, 3, 13));
}

#[test]
fn conforms_records_as_read() {
    let fields = |xs: &[&str]| xs.iter().map(|x| x.to_string()).collect::<Vec<String>>();
    let headers: Result<Vec<String>, String> = Ok(fields(&[
        "SUMLEV",
        "STATE",
        "COUNTY",
        "ESTIMATESBASE2020",
        "POPESTIMATE2021",
        "POPESTIMATE2020",
        "POPESTIMATE2022",
    ]));
    let records = vec![Ok(fields(&["040", "06", "000", "100", "121", "120", "122"]))];
    let facts = bluedot::pep::conform_records(&headers, &records, &Request::new(2022), T0).unwrap();
    // the base, then the July 1 estimates in year order, whatever the column order
    let got: Vec<(&str, String, Option<f64>)> = facts
        .iter()
        .map(|f| (f.indicator_id.as_str(), f.valid_from.to_string(), num(&f.value)))
        .collect();
    assert_eq!(
        got,
        vec![
            ("pep:ESTIMATESBASE", "2020-04-01".to_string(), Some(100.0)),
            ("pep:POPESTIMATE", "2020-07-01".to_string(), Some(120.0)),
            ("pep:POPESTIMATE", "2021-07-01".to_string(), Some(121.0)),
            ("pep:POPESTIMATE", "2022-07-01".to_string(), Some(122.0)),
        ]
    );
    assert!(facts.iter().all(|f| f.entity_id == "geoId/06"));
    // a record the reader could not frame stops the pass with the reader's words
    let broken = vec![Ok(fields(&["040", "06", "000", "1", "1", "1", "1"])), Err("found record with 4 fields".to_string())];
    match bluedot::pep::conform_records(&headers, &broken, &Request::new(2022), T0).unwrap_err() {
        Error::Csv { detail, .. } => assert_eq!(detail, "found record with 4 fields"),
        other => panic!("{other:?}"),
    }
    let no_header: Result<Vec<String>, String> = Err("empty".to_string());
    assert!(matches!(
        bluedot::pep::conform_records(&no_header, &vec![], &Request::new(2022), T0),
        Err(Error::Csv { .. })
    ));
}

#[test]
fn pep_registry_has_a_row_per_record() {
    let text = v2022_text();
    let facts = conform(&text, &Request::new(2022), T0).unwrap();
    let es = registry(&text, &Request::new(2022));
    assert_eq!(es.len(), 12);
    for (k, e) in es.iter().enumerate() {
        assert_eq!(e.entity_id, facts[k * 4].entity_id);
        assert_eq!(e.vintage, "pep-2022");
        assert_eq!(e.boundary_year, 2022);
        assert_eq!(e.source_dataset, "pep/co-est2022-alldata");
        assert!(matches!(e.position, Position::Unknown));
    }
    assert_eq!(es[0].entity_id, "geoId/06");
    assert_eq!(es[0].name, "California");
    assert!(matches!(es[0].level, Level::State));
    assert_eq!(es[1].entity_id, "geoId/06037");
    assert_eq!(es[1].name, "Los Angeles County");
    assert!(matches!(es[1].level, Level::County));
    // the Latin-1 vintage keeps the name as the source states it
    let es = registry(&decode(v2025_bytes()), &Request::new(2025));
    assert_eq!(es[11].entity_id, "geoId/35013");
    assert_eq!(es[11].name, "Doña Ana County");
}

#[test]
fn pep_registry_needs_the_name_columns() {
    let hdr = "SUMLEV,STATE,COUNTY,ESTIMATESBASE2020,POPESTIMATE2020,POPESTIMATE2021,POPESTIMATE2022";
    let text = format!("{hdr}\n050,06,037,1,2,3,4\n");
    assert_eq!(conform(&text, &Request::new(2022), T0).unwrap().len(), 4);
    assert!(registry(&text, &Request::new(2022)).is_empty());
    // a state row is named by STNAME, a county row by CTYNAME
    let text = "SUMLEV,STATE,COUNTY,STNAME\n040,06,000,California\n050,06,037,California\n";
    let es = registry(text, &Request::new(2022));
    assert_eq!(es.len(), 1);
    assert_eq!(es[0].entity_id, "geoId/06");
}
