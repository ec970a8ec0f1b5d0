use bluedot::fact::{Level, Position};
use bluedot::pwc::{conform, Conformed, Request};
use bluedot::claim::Claim;
use bluedot::time::{Date, Timestamp};
use bluedot::Error;

// Recorded rows: five buildings (all four statuses, Iron Mountain VA-1, one
// zero-GFA under-construction building, one "<Null>" permit case), three
// campuses (all three statuses) and six zoning sites (all three statuses,
// every application type and workclass, two by-right sites sharing one case
// number), geometry included.
const BUILDINGS: &str = r#"{"features":[
{"attributes":{"OBJECTID":1,"GlobalID":"{4F1B2C3D-1111-2222-3333-444455556666}","BuildingName":"Iron Mountain Data Center VA-1","Address":"11680 Hayden Rd","GPIN":"7596-11-2233","BuildingStatus":"Completed","OCCDate":1506225600000,"YearBuilt":2017,"GFA":165230,"GFASource":"Real Estate Assessments","ApprovedGFA":0,"PermittedGFA":170000,"REATaxedGFA":165230,"PermitStatus":"Finaled","PermitCase":"BLD2016-01234","LastEditDate":1740790800000},"geometry":{"x":-77.5201,"y":38.7712}},
{"attributes":{"OBJECTID":2,"GlobalID":"{5A6B7C8D-2222-3333-4444-555566667777}","BuildingName":"Stack Northern Virginia NVA01","Address":"9000 Balls Ford Rd","GPIN":"7697-22-3344","BuildingStatus":"Under Construction","OCCDate":null,"YearBuilt":0,"GFA":0,"GFASource":null,"ApprovedGFA":250000,"PermittedGFA":0,"REATaxedGFA":0,"PermitStatus":"Issued","PermitCase":"BLD2024-00077","LastEditDate":1748736000000},"geometry":{"x":-77.5502,"y":38.8011}},
{"attributes":{"OBJECTID":3,"GlobalID":"{6B7C8D9E-3333-4444-5555-666677778888}","BuildingName":"CyrusOne VA-8/9","Address":"10900 Nokesville Rd","GPIN":"7795-33-4455","BuildingStatus":"Completed","OCCDate":1640995200000,"YearBuilt":2021,"GFA":250000,"GFASource":"Building Permits","ApprovedGFA":0,"PermittedGFA":250000,"REATaxedGFA":0,"PermitStatus":"Issued","PermitCase":"<Null>","LastEditDate":1735689600000},"geometry":{"x":-77.4903,"y":38.7405}},
{"attributes":{"OBJECTID":4,"GlobalID":"{7C8D9E0F-4444-5555-6666-777788889999}","BuildingName":"QTS Manassas DC2","Address":"7600 Doane Dr","GPIN":null,"BuildingStatus":"Pending","OCCDate":null,"YearBuilt":0,"GFA":300000,"GFASource":"Site Plan","ApprovedGFA":300000,"PermittedGFA":0,"REATaxedGFA":0,"PermitStatus":"Pending","PermitCase":" ","LastEditDate":1730419200000},"geometry":{"x":-77.4804,"y":38.7506}},
{"attributes":{"OBJECTID":5,"GlobalID":"{8D9E0F1A-5555-6666-7777-88889999AAAA}","BuildingName":"  ","Address":"9200 Devlin Rd","GPIN":"7495-55-6677","BuildingStatus":"Planned","OCCDate":null,"YearBuilt":0,"GFA":0,"GFASource":null,"ApprovedGFA":0,"PermittedGFA":0,"REATaxedGFA":0,"PermitStatus":null,"PermitCase":null,"LastEditDate":null},"geometry":{"x":-77.6105,"y":38.7607}}
]}"#;

const CAMPUSES: &str = r#"{"features":[
{"attributes":{"OBJECTID":1,"GlobalID":"{A1B2C3D4-AAAA-BBBB-CCCC-DDDDEEEEFFFF}","CampusName":"Wellington South Data Center Campus","CaseName":"Wellington South","ProjectStatus":"Completed","CaseNumber":"REZ2019-00012","PlannedGFA":1200000,"RemainingGFA":0,"GISAcreage":58.2,"LastEditDate":1725148800000},"geometry":{"rings":[[[-77.52,38.78],[-77.51,38.78],[-77.51,38.79],[-77.52,38.78]]]}},
{"attributes":{"OBJECTID":2,"GlobalID":"{B2C3D4E5-BBBB-CCCC-DDDD-EEEEFFFF0000}","CampusName":"Devlin Technology Park","CaseName":"Devlin Tech","ProjectStatus":"Pending","CaseNumber":"REZ2021-00020","PlannedGFA":4000000,"RemainingGFA":4000000,"GISAcreage":194.5,"LastEditDate":1727740800000},"geometry":{"rings":[[[-77.62,38.76],[-77.60,38.76],[-77.60,38.78],[-77.62,38.78],[-77.62,38.76]],[[-77.615,38.765],[-77.605,38.765],[-77.605,38.775],[-77.615,38.765]]]}},
{"attributes":{"OBJECTID":3,"GlobalID":"{C3D4E5F6-CCCC-DDDD-EEEE-FFFF00001111}","CampusName":null,"CaseName":"Hunter Property","ProjectStatus":"Planned","CaseNumber":"<Null>","PlannedGFA":0,"RemainingGFA":null,"GISAcreage":0,"LastEditDate":null},"geometry":{"rings":[[[-77.45,38.70],[-77.44,38.70],[-77.44,38.71]]]}}
]}"#;

const SITES: &str = r#"{"features":[
{"attributes":{"OBJECTID":1,"GlobalID":"{D4E5F6A7-0001-0002-0003-000400050006}","CaseName":"Gainesville East Technology Center","Status":"Pending","ZoningCaseNumber":"SUP2023-00006","AppType":"Special Use","Workclass":"Special Use","AppAccDate":1668402000000,"Zoned":"B-1","Address":"7400 Gainesville Rd","GFA":500000,"Acreage":30.1,"LastEditDate":null},"geometry":{"x":-77.6001,"y":38.7901}},
{"attributes":{"OBJECTID":2,"GlobalID":"{E5F6A7B8-0002-0003-0004-000500060007}","CaseName":"Bethlehem Technology Park","Status":"Approved","ZoningCaseNumber":"REZ2020-00033","AppType":"Rezoning","Workclass":"Non-Residential","AppAccDate":1600000000000,"Zoned":"M-2","Address":null,"GFA":719742,"Acreage":45.46,"LastEditDate":null},"geometry":{"x":-77.5802,"y":38.8102}},
{"attributes":{"OBJECTID":3,"GlobalID":"{F6A7B8C9-0003-0004-0005-000600070008}","CaseName":"Amazon AWS IAD 7","Status":"By-Right","ZoningCaseNumber":"REZ1969-0021","AppType":"By-Right","Workclass":"By-Right","AppAccDate":null,"Zoned":"M-1","Address":"5000 Wellington Rd","GFA":0,"Acreage":20.5,"LastEditDate":null},"geometry":{"x":-77.5103,"y":38.7703}},
{"attributes":{"OBJECTID":4,"GlobalID":"{A7B8C9D0-0004-0005-0006-000700080009}","CaseName":"Amazon AWS IAD 8","Status":"By-Right","ZoningCaseNumber":"REZ1969-0021","AppType":"By-Right","Workclass":"By-Right","AppAccDate":null,"Zoned":"M-1","Address":"5010 Wellington Rd","GFA":0,"Acreage":18.25,"LastEditDate":null},"geometry":{"x":-77.5104,"y":38.7714}},
{"attributes":{"OBJECTID":5,"GlobalID":"{B8C9D0E1-0005-0006-0007-00080009000A}","CaseName":"Aura Data Center","Status":"Approved","ZoningCaseNumber":"REZ2022-00041","AppType":"Rezoning","Workclass":"Mixed Use","AppAccDate":1650000000000,"Zoned":"PBD","Address":null,"GFA":350000,"Acreage":12.0,"LastEditDate":null},"geometry":{"x":-77.4505,"y":38.7305}},
{"attributes":{"OBJECTID":6,"GlobalID":"{C9D0E1F2-0006-0007-0008-0009000A000B}","CaseName":"Prince William Digital Gateway","Status":"Approved","ZoningCaseNumber":"REZ2022-00037","AppType":"Rezoning","Workclass":"Proffer Amendment","AppAccDate":1660000000000,"Zoned":"PBD","Address":null,"GFA":21000000,"Acreage":1700.0,"LastEditDate":null},"geometry":{"x":-77.6206,"y":38.8406}}
]}"#;

const T0: Timestamp = Timestamp {
    unix_seconds: 1_756_800_000,
};

fn req() -> Request {
    Request::new(Date::new(2026, 9, 2))
}

fn run(b: &str, c: &str, s: &str) -> Result<Conformed, Error> {
    conform(b, c, s, &req(), T0)
}

fn num(v: &Option<String>) -> Option<f64> {
    v.as_deref().map(|t| t.parse::<f64>().unwrap())
}

fn by<'a>(out: &'a Conformed, eid_frag: &str, attr: &str) -> Option<&'a Claim> {
    out.claims
        .iter()
        .find(|cl| cl.entity_id.contains(eid_frag) && cl.attribute_id == attr)
}

#[test]
fn conforms_buildings_and_campuses() {
    let out = run(BUILDINGS, CAMPUSES, SITES).unwrap();
    assert_eq!(out.entities.len(), 14);
    assert_eq!(out.entities.iter().filter(|e| e.level == Level::Facility).count(), 5);
    assert_eq!(out.entities.iter().filter(|e| e.level == Level::Campus).count(), 9);
    assert_eq!(
        out.entities.iter().filter(|e| e.entity_id.starts_with("pwc/site/")).count(),
        6
    );
    assert!(out.entities.iter().all(|e| !matches!(e.position, Position::Unknown)));

    // Iron Mountain VA-1: the flagship record
    let im = out
        .entities
        .iter()
        .find(|e| e.name == "Iron Mountain Data Center VA-1")
        .unwrap();
    let frag = im.entity_id.strip_prefix("pwc/bld/").unwrap().to_owned();
    assert_eq!(by(&out, &frag, "dc:stage").unwrap().value_text.as_deref(), Some("completed"));
    assert_eq!(
        by(&out, &frag, "dc:occupied_date").unwrap().value_text.as_deref(),
        Some("2017-09-24")
    );
    let gfa = by(&out, &frag, "dc:gfa_sqft").unwrap();
    assert_eq!(num(&gfa.value_num), Some(165_230.0));
    assert!(gfa.stated_by.contains("Real Estate Assessments"), "{}", gfa.stated_by);
    assert_eq!(gfa.unit.as_deref(), Some("sqft"));
    // published_at comes from the county's LastEditDate, not the snapshot
    assert_ne!(by(&out, &frag, "dc:stage").unwrap().published_at, Date::new(2026, 9, 2));

    // the zero-GFA building has no dc:gfa_sqft claim — 0 is the county's null
    let zero = out
        .entities
        .iter()
        .find(|e| e.name.starts_with("Stack Northern Virginia"))
        .unwrap();
    let zfrag = zero.entity_id.strip_prefix("pwc/bld/").unwrap();
    assert!(by(&out, zfrag, "dc:gfa_sqft").is_none());
    assert_eq!(
        by(&out, zfrag, "dc:stage").unwrap().value_text.as_deref(),
        Some("under_construction")
    );

    // a "<Null>" permit case falls back to the record gid, never the sentinel
    let va89 = out.entities.iter().find(|e| e.name.contains("VA-8/9")).unwrap();
    let pfrag = va89.entity_id.strip_prefix("pwc/bld/").unwrap();
    let ps = by(&out, pfrag, "dc:permit_status").unwrap();
    assert_ne!(ps.source_record, "<Null>");
    assert_eq!(ps.source_record, pfrag);

    // a completed campus's RemainingGFA of 0 is a real claim, not an absence
    let wellington = out
        .entities
        .iter()
        .find(|e| e.name.contains("Wellington South"))
        .unwrap();
    let wfrag = wellington.entity_id.strip_prefix("pwc/campus/").unwrap();
    assert_eq!(num(&by(&out, wfrag, "dc:gfa_remaining_sqft").unwrap().value_num), Some(0.0));

    // campus polygons are captured as data: one geometry per campus, none
    // for point layers, rings validated
    assert_eq!(out.geometries.len(), 3);
    assert!(out.geometries.iter().all(|g| g.entity_id.starts_with("pwc/campus/")
        && !g.rings.is_empty()
        && g.rings[0].len() >= 3
        && g.vintage == out.entities[0].vintage));

    // campuses: stage + zoning case + planned GFA
    let campus = out.entities.iter().find(|e| e.level == Level::Campus).unwrap();
    let cfrag = campus.entity_id.strip_prefix("pwc/campus/").unwrap();
    assert!(by(&out, cfrag, "dc:stage").is_some());
    assert!(by(&out, cfrag, "dc:zoning_case").is_some());
    assert!(campus.entity_id.starts_with("pwc/campus/"));
    assert!(!campus.entity_id.contains('{'), "GUID braces must be stripped");

    // Zoning sites: a site is a Campus-level entity; its application status
    // is dc:zoning_status (never dc:stage), asserted by the case.
    let gainesville = out
        .entities
        .iter()
        .find(|e| e.name.starts_with("Gainesville East"))
        .unwrap();
    assert_eq!(gainesville.level, Level::Campus);
    let gfrag = gainesville.entity_id.strip_prefix("pwc/site/").unwrap();
    assert!(by(&out, gfrag, "dc:stage").is_none());
    let status = by(&out, gfrag, "dc:zoning_status").unwrap();
    assert_eq!(status.value_text.as_deref(), Some("pending"));
    assert_eq!(status.source_record, "SUP2023-00006");
    assert_eq!(
        by(&out, gfrag, "dc:application_type").unwrap().value_text.as_deref(),
        Some("special_use")
    );
    assert_eq!(
        by(&out, gfrag, "dc:application_accepted").unwrap().value_text.as_deref(),
        Some("2022-11-14")
    );
    // Sites carry no LastEditDate — published_at falls back to the snapshot.
    assert_eq!(status.published_at, Date::new(2026, 9, 2));

    // Bethlehem: entitled GFA + open-set district code recorded verbatim.
    let beth = out.entities.iter().find(|e| e.name.starts_with("Bethlehem")).unwrap();
    let bfrag = beth.entity_id.strip_prefix("pwc/site/").unwrap();
    let gfa = by(&out, bfrag, "dc:gfa_planned_sqft").unwrap();
    assert_eq!(num(&gfa.value_num), Some(719_742.0));
    assert_eq!(num(&by(&out, bfrag, "dc:acreage").unwrap().value_num), Some(45.46));
    assert_eq!(
        by(&out, bfrag, "dc:zoning_district").unwrap().value_text.as_deref(),
        Some("M-2")
    );
    assert_eq!(
        by(&out, bfrag, "dc:zoning_status").unwrap().value_text.as_deref(),
        Some("approved")
    );

    // Two Amazon by-right sites share one case number: the case is a claim
    // on each, and the entities stay distinct (GlobalID keys).
    let amazon: Vec<_> = out
        .claims
        .iter()
        .filter(|cl| cl.attribute_id == "dc:zoning_case" && cl.value_text.as_deref() == Some("REZ1969-0021"))
        .collect();
    assert_eq!(amazon.len(), 2);
    assert_ne!(amazon[0].entity_id, amazon[1].entity_id);
    let iad7 = out.entities.iter().find(|e| e.name == "Amazon AWS IAD 7").unwrap();
    let afrag = iad7.entity_id.strip_prefix("pwc/site/").unwrap();
    assert_eq!(
        by(&out, afrag, "dc:zoning_status").unwrap().value_text.as_deref(),
        Some("by_right")
    );
    assert_eq!(
        by(&out, afrag, "dc:application_workclass").unwrap().value_text.as_deref(),
        Some("by_right")
    );
}

#[test]
fn pwc_refuses_what_it_does_not_understand() {
    let (b, c, s) = (BUILDINGS, CAMPUSES, SITES);
    let err = |bb: &str, cc: &str, ss: &str| run(bb, cc, ss).unwrap_err();

    let unknown = err(&b.replacen("Under Construction", "Vibes", 1), c, s);
    assert!(
        matches!(&unknown, Error::BadResponseShape { detail, .. } if detail.contains("Vibes")),
        "{}",
        unknown.message()
    );

    let empty = err(r#"{"features":[]}"#, c, s);
    assert!(
        matches!(&empty, Error::BadResponseShape { detail, .. } if detail.contains("zero")),
        "{}",
        empty.message()
    );

    let arcgis = err(r#"{"error":{"code":400,"message":"boom"}}"#, c, s);
    assert!(
        matches!(&arcgis, Error::BadResponseShape { detail, .. } if detail.contains("boom")),
        "{}",
        arcgis.message()
    );

    let no_gid = err(&b.replacen("GlobalID", "GoneID", 1), c, s);
    assert!(
        matches!(&no_gid, Error::BadResponseShape { detail, .. } if detail.contains("GlobalID")),
        "{}",
        no_gid.message()
    );

    // Site-layer refusals: unknown status ("Pending" appears exactly once in
    // the sites — Gainesville East), unknown workclass ("Mixed Use"
    // likewise — Aura), and a missing zoning case number.
    let bad_status = err(b, c, &s.replacen("Pending", "Vibes", 1));
    assert!(
        matches!(&bad_status, Error::BadResponseShape { detail, .. } if detail.contains("Vibes")),
        "{}",
        bad_status.message()
    );

    let bad_workclass = err(b, c, &s.replacen("Mixed Use", "Vibes", 1));
    assert!(
        matches!(&bad_workclass, Error::BadResponseShape { detail, .. } if detail.contains("workclass")),
        "{}",
        bad_workclass.message()
    );

    let no_case = err(b, c, &s.replacen("ZoningCaseNumber", "ZoningGone", 1));
    assert!(
        matches!(&no_case, Error::BadResponseShape { detail, .. } if detail.contains("ZoningCaseNumber")),
        "{}",
        no_case.message()
    );
}

#[test]
fn refusals_name_the_row_and_the_layer() {
    let (b, c, s) = (BUILDINGS, CAMPUSES, SITES);
    let req = req();
    match run(&b.replacen("Under Construction", "Vibes", 1), c, s).unwrap_err() {
        Error::BadResponseShape { url, detail } => {
            assert_eq!(url, req.buildings_url());
            assert_eq!(
                detail,
                "row 2: status \"Vibes\" not in the known vocabulary — verify against the county layer and extend deliberately"
            );
        }
        other => panic!("{other:?}"),
    }
    match run(b, c, &s.replacen("Mixed Use", "Vibes", 1)).unwrap_err() {
        Error::BadResponseShape { url, detail } => {
            assert_eq!(url, req.sites_url());
            assert_eq!(detail, "row 5: workclass \"Vibes\" unknown");
        }
        other => panic!("{other:?}"),
    }
    match run(b, c, &s.replacen("Special Use", "Vibes", 1)).unwrap_err() {
        Error::BadResponseShape { detail, .. } => {
            assert_eq!(detail, "row 1: application type \"Vibes\" unknown")
        }
        other => panic!("{other:?}"),
    }
    match run(b, &c.replacen("[-77.45,38.70],", "", 1), s).unwrap_err() {
        Error::BadResponseShape { url, detail } => {
            assert_eq!(url, req.campuses_url());
            assert_eq!(detail, "row 3: degenerate ring");
        }
        other => panic!("{other:?}"),
    }
    match run(b, &c.replacen("[-77.52,38.78]", "[-77.52,\"x\"]", 1), s).unwrap_err() {
        Error::BadResponseShape { detail, .. } => assert_eq!(detail, "row 1: unparseable ring vertex"),
        other => panic!("{other:?}"),
    }
    match run(&b.replacen("\"x\":-77.5201,", "", 1), c, s).unwrap_err() {
        Error::BadResponseShape { detail, .. } => assert_eq!(detail, "row 1: no geometry.x"),
        other => panic!("{other:?}"),
    }
    match run(&b.replacen("\"Finaled\"", "\"Lost\"", 1), c, s).unwrap_err() {
        Error::BadResponseShape { detail, .. } => {
            assert_eq!(detail, "row 1: permit status \"Lost\" unknown")
        }
        other => panic!("{other:?}"),
    }
    match run(b, c, "{\"features\":1}").unwrap_err() {
        Error::BadResponseShape { detail, .. } => assert_eq!(detail, "no features array"),
        other => panic!("{other:?}"),
    }
    match run(b, "<html>", s).unwrap_err() {
        Error::NotJson { url, body_head, .. } => {
            assert_eq!(url, req.campuses_url());
            assert_eq!(body_head, "<html>");
        }
        other => panic!("{other:?}"),
    }
    // a record repeated in full repeats every claim key
    let twice = BUILDINGS.replacen("]}", "", 1);
    let first = &BUILDINGS[BUILDINGS.find("{\"attributes\"").unwrap()..BUILDINGS.find("},\n{\"attributes\":{\"OBJECTID\":2").unwrap() + 1];
    let dup = format!("{twice},\n{first}]}}");
    assert!(matches!(run(&dup, c, s).unwrap_err(), Error::DuplicateClaimKey { .. }));
}

#[test]
fn record_keys_and_claim_shapes() {
    let out = run(BUILDINGS, CAMPUSES, SITES).unwrap();
    assert_eq!(out.entities[0].entity_id, "pwc/bld/4f1b2c3d-1111-2222-3333-444455556666");
    assert_eq!(out.entities[0].vintage, "pwc-2026-09-02");
    assert_eq!(out.entities[0].boundary_year, 2026);
    match &out.entities[0].position {
        Position::Point { lat, lon } => assert_eq!((lat.as_str(), lon.as_str()), ("38.7712", "-77.5201")),
        other => panic!("{other:?}"),
    }
    // the fifth building has a blank name: its address names it
    assert_eq!(out.entities[4].name, "9200 Devlin Rd");
    // a campus without a campus name is named by its case
    assert!(out.entities.iter().any(|e| e.name == "Hunter Property"));
    // a blank permit case is no case: the gid asserts
    let qts = out.entities.iter().find(|e| e.name == "QTS Manassas DC2").unwrap();
    let qfrag = qts.entity_id.strip_prefix("pwc/bld/").unwrap();
    assert_eq!(by(&out, qfrag, "dc:permit_status").unwrap().source_record, qfrag);
    // every claim carries exactly one value, and the county states them
    assert!(out.claims.iter().all(|c| c.value_text.is_some() != c.value_num.is_some()));
    assert!(out.claims.iter().all(|c| c.stated_by.starts_with("Prince William County Planning GIS")));
    // the polygon with a hole keeps both rings, vertices as published
    let devlin = out.geometries.iter().find(|g| g.rings.len() == 2).unwrap();
    assert_eq!(devlin.rings[0].len(), 5);
    assert_eq!(devlin.rings[0][0], ("-77.62".to_string(), "38.76".to_string()));
    assert_eq!(out.geometries[0].source_dataset, "pwcva/build-out-analysis");
}

#[test]
fn a_zero_written_as_a_decimal_is_still_not_set() {
    // the county's 0 for "not set" may arrive as 0.0 or -0.0
    for zero in ["0.0", "-0.0", "0e3"] {
        let campuses = CAMPUSES.replacen("\"PlannedGFA\":1200000", &format!("\"PlannedGFA\":{zero}"), 1);
        let out = run(BUILDINGS, &campuses, SITES).unwrap();
        let wellington = out.entities.iter().find(|e| e.name.contains("Wellington South")).unwrap();
        let wfrag = wellington.entity_id.strip_prefix("pwc/campus/").unwrap();
        assert!(by(&out, wfrag, "dc:gfa_planned_sqft").is_none(), "{zero}");
    }
    // a whole number written with a fraction keeps serde_json's text
    let out = run(BUILDINGS, CAMPUSES, SITES).unwrap();
    let aura = out.entities.iter().find(|e| e.name == "Aura Data Center").unwrap();
    let afrag = aura.entity_id.strip_prefix("pwc/site/").unwrap();
    assert_eq!(by(&out, afrag, "dc:acreage").unwrap().value_num.as_deref(), Some("12.0"));
}
