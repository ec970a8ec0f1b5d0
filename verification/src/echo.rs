//! EPA ECHO / ICIS-Air facilities — the Data Center Atlas's first source.
//!
//! Facilities holding air permits under NAICS 518210 (data processing /
//! hosting): backup diesel generators need air permits, which makes permit
//! records a near-census of serious data centers.
//!
//! Each fetch is a **snapshot**: the vintage is the retrieval date in UTC,
//! and each claim's valid time is that one day — ECHO says nothing about
//! when a status changed, so we assert only "this is what the record said
//! on this date".

use vstd::prelude::*;

use crate::acs::{head, head_text};
use crate::claim::{
    Claim, ClaimView, Confidence, all_one_value, claim_keys, claims_view,
    lemma_all_one_value_concat, ensure_unique_claim_keys,
    unique_claims_outcome,
};
use crate::error::{Error, ErrorModel};
use crate::fact::{Entity, EntityView, Level, Position, PositionView, entities_view, keys_unique};
use crate::json::{
    Json, Parsed, array_of, get, json_of, json_string_literal, json_text, json_wf, opt_array,
    opt_get, opt_str, opt_uint, parse_json, parsed_wf, push_json_string, push_json_text, str_of,
    uint_of,
};
use crate::number::{float_text, is_float_text};
use crate::text::{
    chars_of, debug_text, decimal, push_decimal, push_str, same_text, str_debug, string_from_range,
    string_of, token_form, trim, trim_bounds,
};
use crate::time::{Date, Timestamp, following_day, iso_date, push_date};
use crate::calendar::days_in_month;

verus! {

pub const DATASET: &'static str = "epa/echo/air";

/// Who states ECHO's claims.
pub const STATED_BY: &'static str = "EPA ICIS-Air (state-reported)";

/// The observed `AIRStatus` vocabulary mapped to `dc:stage` tokens. An
/// AIRStatus outside this list fails the batch.
pub open spec fn stage_token(raw: Seq<char>) -> Option<Seq<char>> {
    if raw == "Operating"@ {
        Some("operating"@)
    } else if raw == "Under Construction"@ {
        Some("under_construction"@)
    } else if raw == "Planned Facility"@ {
        Some("planned_facility"@)
    } else if raw == "Permanently Closed"@ {
        Some("permanently_closed"@)
    } else if raw == "Temporarily Closed"@ {
        Some("temporarily_closed"@)
    } else if raw == "No Operating Status In ICIS"@ {
        Some("no_operating_status_in_icis"@)
    } else {
        None
    }
}

fn stage_token_of(raw: &str) -> (r: Option<&'static str>)
    ensures
        match r {
            Some(t) => stage_token(raw@) == Some(t@),
            None => stage_token(raw@) is None,
        },
{
    if same_text(raw, "Operating") {
        Some("operating")
    } else if same_text(raw, "Under Construction") {
        Some("under_construction")
    } else if same_text(raw, "Planned Facility") {
        Some("planned_facility")
    } else if same_text(raw, "Permanently Closed") {
        Some("permanently_closed")
    } else if same_text(raw, "Temporarily Closed") {
        Some("temporarily_closed")
    } else if same_text(raw, "No Operating Status In ICIS") {
        Some("no_operating_status_in_icis")
    } else {
        None
    }
}

#[derive(Debug, Clone)]
pub struct Request {
    /// NAICS code filter (`p_ncs`), default 518210.
    pub naics: String,
    /// Snapshot date — becomes the vintage and the claims' valid day.
    pub snapshot: Date,
}

pub open spec fn all_ascii_digits(s: Seq<char>) -> bool {
    forall|i: int| 0 <= i < s.len() ==> '0' <= #[trigger] s[i] <= '9'
}

pub open spec fn request_vintage(snapshot: Date) -> Seq<char> {
    "echo-"@ + iso_date(snapshot)
}

pub open spec fn request_url(naics: Seq<char>) -> Seq<char> {
    "https://echodata.epa.gov/echo/air_rest_services.get_facilities?output=JSON&p_ncs="@ + naics
}

impl Request {
    pub fn new(naics: &str, snapshot: Date) -> (r: Result<Self, Error>)
        ensures
            naics@.len() > 0 && all_ascii_digits(naics@) ==> (r matches Ok(q) && q.naics@
                == naics@ && q.snapshot == snapshot),
            !(naics@.len() > 0 && all_ascii_digits(naics@)) ==> (r matches Err(e) && e@
                == ErrorModel::Usage("--naics "@ + str_debug(naics@) + " should be digits"@)),
    {
        let cs = chars_of(naics);
        let mut ok = cs.len() > 0;
        let mut i: usize = 0;
        while i < cs.len()
            invariant
                i <= cs@.len(),
                cs@ == naics@,
                ok == (cs@.len() > 0 && forall|j: int| 0 <= j < i ==> '0' <= #[trigger] cs@[j] <= '9'),
            decreases cs.len() - i,
        {
            if !('0' <= cs[i] && cs[i] <= '9') {
                ok = false;
            }
            i = i + 1;
        }
        if !ok {
            let mut msg = string_of("--naics ");
            let q = debug_text(naics);
            push_str(&mut msg, q.as_str());
            push_str(&mut msg, " should be digits");
            return Err(Error::Usage(msg));
        }
        Ok(Request { naics: string_of(naics), snapshot })
    }

    pub fn vintage(&self) -> (r: String)
        ensures
            r@ == request_vintage(self.snapshot),
    {
        let mut s = string_of("echo-");
        push_date(&mut s, &self.snapshot);
        s
    }

    /// Provenance URL: the query that produced the rows.
    pub fn url(&self) -> (r: String)
        ensures
            r@ == request_url(self.naics@),
    {
        let mut s = string_of(
            "https://echodata.epa.gov/echo/air_rest_services.get_facilities?output=JSON&p_ncs=",
        );
        push_str(&mut s, self.naics.as_str());
        s
    }
}

/// The error ECHO reports inside a 200 (row limit, bad parameters):
/// `Results.Error.ErrorMessage`, when there is one.
pub fn reported_error(value: &Json, url: &str) -> (r: Option<Error>)
    ensures
        match str_of(get(get(get(*value, "Results"@), "Error"@), "ErrorMessage"@)) {
            Some(msg) => r matches Some(e) && e@ == ErrorModel::BadResponseShape {
                url: url@,
                detail: "ECHO error: "@ + msg,
            },
            None => r is None,
        },
{
    match opt_str(opt_get(opt_get(value.get("Results"), "Error"), "ErrorMessage")) {
        Some(msg) => {
            let mut d = string_of("ECHO error: ");
            push_str(&mut d, msg.as_str());
            Some(Error::BadResponseShape { url: string_of(url), detail: d })
        },
        None => None,
    }
}

/// What a step of the fetch answered, read as the fetch reads it: the body
/// as JSON, refused when it is not JSON or when ECHO reports an error
/// inside it.
pub open spec fn answer_spec(url: Seq<char>, body: Seq<char>, parsed: Parsed) -> Result<
    Json,
    ErrorModel,
> {
    match parsed {
        Parsed::Invalid(msg) => Err(
            ErrorModel::NotJson { url, detail: msg@, body_head: head_text(body) },
        ),
        Parsed::Value(v) => match str_of(get(get(get(v, "Results"@), "Error"@), "ErrorMessage"@)) {
            Some(msg) => Err(ErrorModel::BadResponseShape { url, detail: "ECHO error: "@ + msg }),
            None => Ok(v),
        },
    }
}

/// A step's answer body (already known to be a 200), parsed and checked
/// for an error ECHO reports inside it.
pub fn read_answer(url: &str, body: &str) -> (r: Result<Json, Error>)
    ensures
        match answer_spec(url@, body@, json_of(body@)) {
            Ok(v) => r matches Ok(x) && x == v && json_wf(x),
            Err(em) => r matches Err(e) && e@ == em,
        },
{
    let parsed = parse_json(body);
    match parsed {
        Parsed::Invalid(msg) => Err(
            Error::NotJson { url: string_of(url), detail: msg, body_head: head(body) },
        ),
        Parsed::Value(v) => match reported_error(&v, url) {
            Some(e) => Err(e),
            None => Ok(v),
        },
    }
}

/// The start of step 1's `Results` as JSON text, cut to 200 characters.
pub open spec fn results_head(value: Json) -> Seq<char> {
    let t = json_text(get(value, "Results"@));
    if t.len() <= 200 {
        t
    } else {
        t.take(200)
    }
}

/// The query id of step 1: `Results.QueryID`, a string or a non-negative
/// integer (one that fits `u64`).
pub open spec fn query_id_of(value: Json) -> Option<Seq<char>> {
    let q = get(get(value, "Results"@), "QueryID"@);
    match str_of(q) {
        Some(s) => Some(s),
        None => match uint_of(q) {
            Some(n) => Some(decimal(n as nat)),
            None => None,
        },
    }
}

/// Step 1's query id, or the missing-id error quoting the start of
/// `Results` (its JSON text cut to 200 characters).
pub fn query_id(step1: &Json, url: &str) -> (r: Result<String, Error>)
    ensures
        match query_id_of(*step1) {
            Some(q) => r matches Ok(x) && x@ == q,
            None => r matches Err(e) && e@ == ErrorModel::BadResponseShape {
                url: url@,
                detail: "no QueryID; Results head: "@ + results_head(*step1),
            },
        },
{
    let q = opt_get(step1.get("Results"), "QueryID");
    match opt_str(q) {
        Some(s) => Ok(string_of(s.as_str())),
        None => match opt_uint(q) {
            Some(n) => {
                let mut s = String::new();
                crate::text::push_decimal(&mut s, n);
                Ok(s)
            },
            None => {
                let mut t = String::new();
                match step1.get("Results") {
                    Some(r) => push_json_text(&mut t, r),
                    None => push_str(&mut t, "null"),
                }
                let cs = chars_of(t.as_str());
                let n = if cs.len() <= 200 {
                    cs.len()
                } else {
                    200
                };
                let cut = string_from_range(cs.as_slice(), 0, n);
                proof {
                    assert(t@ == json_text(get(*step1, "Results"@)));
                    assert(cs@.subrange(0, n as int) =~= results_head(*step1));
                }
                let mut d = string_of("no QueryID; Results head: ");
                push_str(&mut d, cut.as_str());
                Err(Error::BadResponseShape { url: string_of(url), detail: d })
            },
        },
    }
}

/// Step 2's URL: every row of the query `qid`.
pub fn rows_url(qid: &str) -> (r: String)
    ensures
        r@ == "https://echodata.epa.gov/echo/air_rest_services.get_qid?output=JSON&qid="@ + qid@,
{
    let mut s = string_of("https://echodata.epa.gov/echo/air_rest_services.get_qid?output=JSON&qid=");
    push_str(&mut s, qid);
    s
}

/// The year of a snapshot date, as the boundary year (`as u16`).
pub fn self_year(d: Date) -> (r: u16)
    ensures
        r == d.year as u16,
{
    d.year as u16
}

/// What an ECHO conform pass produces.
#[derive(Debug)]
pub struct Conformed {
    pub entities: Vec<Entity>,
    pub claims: Vec<Claim>,
}

/// `text(key)`: the member as trimmed, non-empty text, or the row's
/// missing-field error.
pub open spec fn row_text(row: Json, key: Seq<char>, i: int, url: Seq<char>) -> Result<
    Seq<char>,
    ErrorModel,
> {
    match str_of(get(row, key)) {
        Some(v) if trim(v).len() > 0 => Ok(trim(v)),
        _ => Err(
            ErrorModel::BadResponseShape {
                url,
                detail: "row "@ + decimal((i + 1) as nat) + ": missing "@ + key,
            },
        ),
    }
}

/// `coord(key)`: a coordinate, as the text `f64::from_str` accepts.
pub open spec fn row_coord(row: Json, key: Seq<char>, i: int, url: Seq<char>, registry_id: Seq<char>) -> Result<
    Seq<char>,
    ErrorModel,
> {
    match row_text(row, key, i, url) {
        Err(e) => Err(e),
        Ok(t) => if is_float_text(t) {
            Ok(t)
        } else {
            Err(
                ErrorModel::BadNumber {
                    text: json_string_literal(str_of(get(row, key))->0),
                    field: key,
                    geoid: registry_id,
                    variable: "echo get_qid"@,
                },
            )
        },
    }
}

/// A claim of a record, from the shared template.
pub open spec fn echo_claim(
    entity_id: Seq<char>,
    attribute: Seq<char>,
    value: Seq<char>,
    source_id: Seq<char>,
    req_naics: Seq<char>,
    snapshot: Date,
    retrieved_at: Timestamp,
) -> ClaimView {
    ClaimView {
        entity_id,
        attribute_id: attribute,
        valid_from: snapshot,
        valid_to: following_day(snapshot),
        vintage: request_vintage(snapshot),
        source_record: source_id,
        value_text: Some(value),
        value_num: None,
        unit: None,
        stated_by: STATED_BY@,
        confidence: Confidence::ConfirmedByRecord,
        published_at: snapshot,
        source_dataset: DATASET@,
        source_url: request_url(req_naics),
        retrieved_at,
    }
}

/// What record `i` contributes: its facility entity (kept if the facility
/// is new) and its three claims — stage, state, and the recorded name.
pub open spec fn row_output(
    row: Json,
    i: int,
    req_naics: Seq<char>,
    snapshot: Date,
    retrieved_at: Timestamp,
) -> Result<(EntityView, Seq<ClaimView>), ErrorModel> {
    let url = request_url(req_naics);
    match row_text(row, "RegistryID"@, i, url) {
        Err(e) => Err(e),
        Ok(registry_id) => match row_text(row, "SourceID"@, i, url) {
            Err(e) => Err(e),
            Ok(source_id) => match row_text(row, "AIRName"@, i, url) {
                Err(e) => Err(e),
                Ok(name) => match row_text(row, "AIRStatus"@, i, url) {
                    Err(e) => Err(e),
                    Ok(air_status) => match row_coord(row, "FacLat"@, i, url, registry_id) {
                        Err(e) => Err(e),
                        Ok(lat) => match row_coord(row, "FacLong"@, i, url, registry_id) {
                            Err(e) => Err(e),
                            Ok(lon) => match stage_token(air_status) {
                                None => Err(
                                    ErrorModel::BadResponseShape {
                                        url,
                                        detail: "row "@ + decimal((i + 1) as nat)
                                            + ": AIRStatus "@ + str_debug(air_status)
                                            + " not in the known vocabulary — verify against ECHO and extend STAGE_TOKENS deliberately"@,
                                    },
                                ),
                                Some(stage) => match row_text(row, "AIRState"@, i, url) {
                                    Err(e) => Err(e),
                                    Ok(state) => {
                                        let entity_id = "frs/"@ + registry_id;
                                        Ok(
                                            (
                                                EntityView {
                                                    entity_id,
                                                    name,
                                                    level: Level::Facility,
                                                    boundary_year: snapshot.year as u16,
                                                    vintage: request_vintage(snapshot),
                                                    source_dataset: DATASET@,
                                                    position: PositionView::Point { lat, lon },
                                                },
                                                seq![
                                                    echo_claim(entity_id, "dc:stage"@, stage, source_id, req_naics, snapshot, retrieved_at),
                                                    echo_claim(entity_id, "dc:state"@, state, source_id, req_naics, snapshot, retrieved_at),
                                                    echo_claim(entity_id, "dc:recorded_name"@, name, source_id, req_naics, snapshot, retrieved_at),
                                                ],
                                            ),
                                        )
                                    },
                                },
                            },
                        },
                    },
                },
            },
        },
    }
}

/// Some entity of `es` has this id.
pub open spec fn has_entity(es: Seq<EntityView>, id: Seq<char>) -> bool {
    exists|j: int| 0 <= j < es.len() && es[j].entity_id == id
}

/// Entities and claims of the first `n` records: one entity per FRS id
/// (the first record's name and location win), every record's claims.
pub open spec fn rows_output(
    rows: Seq<Json>,
    req_naics: Seq<char>,
    snapshot: Date,
    retrieved_at: Timestamp,
    n: int,
) -> Result<(Seq<EntityView>, Seq<ClaimView>), ErrorModel>
    decreases n,
{
    if n <= 0 {
        Ok((Seq::empty(), Seq::empty()))
    } else {
        match rows_output(rows, req_naics, snapshot, retrieved_at, n - 1) {
            Err(e) => Err(e),
            Ok((es, cs)) => match row_output(rows[n - 1], n - 1, req_naics, snapshot, retrieved_at) {
                Err(e) => Err(e),
                Ok((e, rc)) => Ok(
                    (
                        if has_entity(es, e.entity_id) {
                            es
                        } else {
                            es.push(e)
                        },
                        cs + rc,
                    ),
                ),
            },
        }
    }
}

/// The whole conform pass over a `get_qid` response.
pub open spec fn conform_spec(
    body: Seq<char>,
    parsed: Parsed,
    req_naics: Seq<char>,
    snapshot: Date,
    retrieved_at: Timestamp,
) -> Result<(Seq<EntityView>, Seq<ClaimView>), ErrorModel> {
    let url = request_url(req_naics);
    match parsed {
        Parsed::Invalid(msg) => Err(
            ErrorModel::NotJson { url, detail: msg@, body_head: head_text(body) },
        ),
        Parsed::Value(value) => match array_of(get(get(value, "Results"@), "Facilities"@)) {
            None => Err(
                ErrorModel::BadResponseShape { url, detail: "no Results.Facilities array"@ },
            ),
            Some(rows) => if rows.len() == 0 {
                Err(ErrorModel::BadResponseShape { url, detail: "zero facilities returned"@ })
            } else {
                checked(rows_output(rows, req_naics, snapshot, retrieved_at, rows.len() as int))
            },
        },
    }
}

/// The pass's output, refused when a claim key repeats.
pub open spec fn checked(o: Result<(Seq<EntityView>, Seq<ClaimView>), ErrorModel>) -> Result<
    (Seq<EntityView>, Seq<ClaimView>),
    ErrorModel,
> {
    match o {
        Err(e) => Err(e),
        Ok((es, cs)) => match unique_claims_outcome(cs) {
            Some(e) => Err(e),
            None => Ok((es, cs)),
        },
    }
}

// ---------------------------------------------------------------------------
// The conform pass, computed
// ---------------------------------------------------------------------------
/// The row's missing-field error.
fn missing(key: &str, i: usize, url: &String) -> (e: Error)
    ensures
        e@ == (ErrorModel::BadResponseShape {
            url: url@,
            detail: "row "@ + decimal((i + 1) as nat) + ": missing "@ + key@,
        }),
{
    let mut d = string_of("row ");
    crate::text::push_decimal_u128(&mut d, i as u128 + 1);
    push_str(&mut d, ": missing ");
    push_str(&mut d, key);
    Error::BadResponseShape { url: string_of(url.as_str()), detail: d }
}

/// `row_text` computed.
fn text_of(row: &Json, key: &str, i: usize, url: &String) -> (r: Result<String, Error>)
    ensures
        match row_text(*row, key@, i as int, url@) {
            Ok(t) => r matches Ok(x) && x@ == t,
            Err(em) => r matches Err(e) && e@ == em,
        },
{
    match opt_str(row.get(key)) {
        Some(v) => {
            let cs = chars_of(v.as_str());
            let (lo, hi) = trim_bounds(cs.as_slice(), 0, cs.len());
            proof {
                assert(cs@.subrange(0, cs@.len() as int) =~= v@);
            }
            if lo < hi {
                return Ok(string_from_range(cs.as_slice(), lo, hi));
            }
        },
        None => {},
    }
    Err(missing(key, i, url))
}

/// `row_coord` computed.
fn coord_of(row: &Json, key: &str, i: usize, url: &String, registry_id: &String) -> (r: Result<
    String,
    Error,
>)
    ensures
        match row_coord(*row, key@, i as int, url@, registry_id@) {
            Ok(t) => r matches Ok(x) && x@ == t,
            Err(em) => r matches Err(e) && e@ == em,
        },
{
    let t = match text_of(row, key, i, url) {
        Ok(t) => t,
        Err(e) => {
            return Err(e);
        },
    };
    let cs = chars_of(t.as_str());
    proof {
        assert(cs@.subrange(0, cs@.len() as int) =~= t@);
    }
    if float_text(cs.as_slice(), 0, cs.len()) {
        Ok(t)
    } else {
        let raw = opt_str(row.get(key));
        let mut text = String::new();
        match raw {
            Some(v) => {
                push_json_string(&mut text, v.as_str());
                proof {
                    assert(text@ =~= json_string_literal(v@));
                }
            },
            None => {},
        }
        Err(
            Error::BadNumber {
                text,
                field: string_of(key),
                geoid: string_of(registry_id.as_str()),
                variable: string_of("echo get_qid"),
            },
        )
    }
}

fn echo_claim_of(
    entity_id: &String,
    attribute: &str,
    value: String,
    source_id: &String,
    req: &Request,
    url: &String,
    vintage: &String,
    valid_to: Date,
    retrieved_at: Timestamp,
) -> (c: Claim)
    requires
        url@ == request_url(req.naics@),
        vintage@ == request_vintage(req.snapshot),
        valid_to == following_day(req.snapshot),
    ensures
        c@ == echo_claim(
            entity_id@,
            attribute@,
            value@,
            source_id@,
            req.naics@,
            req.snapshot,
            retrieved_at,
        ),
{
    Claim {
        entity_id: string_of(entity_id.as_str()),
        attribute_id: string_of(attribute),
        valid_from: req.snapshot,
        valid_to,
        vintage: string_of(vintage.as_str()),
        source_record: string_of(source_id.as_str()),
        value_text: Some(value),
        value_num: None,
        unit: None,
        stated_by: string_of(STATED_BY),
        confidence: Confidence::ConfirmedByRecord,
        published_at: req.snapshot,
        source_dataset: string_of(DATASET),
        source_url: string_of(url.as_str()),
        retrieved_at,
    }
}

/// `row_output` computed.
fn record(
    row: &Json,
    i: usize,
    req: &Request,
    url: &String,
    vintage: &String,
    valid_to: Date,
    retrieved_at: Timestamp,
) -> (r: Result<(Entity, Vec<Claim>), Error>)
    requires
        url@ == request_url(req.naics@),
        vintage@ == request_vintage(req.snapshot),
        valid_to == following_day(req.snapshot),
    ensures
        match row_output(*row, i as int, req.naics@, req.snapshot, retrieved_at) {
            Ok((e, cs)) => r matches Ok(x) && x.0@ == e && claims_view(x.1@) == cs,
            Err(em) => r matches Err(e) && e@ == em,
        },
{
    let registry_id = match text_of(row, "RegistryID", i, url) {
        Ok(t) => t,
        Err(e) => {
            return Err(e);
        },
    };
    let source_id = match text_of(row, "SourceID", i, url) {
        Ok(t) => t,
        Err(e) => {
            return Err(e);
        },
    };
    let name = match text_of(row, "AIRName", i, url) {
        Ok(t) => t,
        Err(e) => {
            return Err(e);
        },
    };
    let air_status = match text_of(row, "AIRStatus", i, url) {
        Ok(t) => t,
        Err(e) => {
            return Err(e);
        },
    };
    let lat = match coord_of(row, "FacLat", i, url, &registry_id) {
        Ok(t) => t,
        Err(e) => {
            return Err(e);
        },
    };
    let lon = match coord_of(row, "FacLong", i, url, &registry_id) {
        Ok(t) => t,
        Err(e) => {
            return Err(e);
        },
    };
    let stage = match stage_token_of(air_status.as_str()) {
        Some(t) => t,
        None => {
            let mut d = string_of("row ");
            crate::text::push_decimal_u128(&mut d, i as u128 + 1);
            push_str(&mut d, ": AIRStatus ");
            let q = debug_text(air_status.as_str());
            push_str(&mut d, q.as_str());
            push_str(
                &mut d,
                " not in the known vocabulary — verify against ECHO and extend STAGE_TOKENS deliberately",
            );
            proof {
                assert(d@ =~= "row "@ + decimal((i + 1) as nat) + ": AIRStatus "@ + str_debug(
                    air_status@,
                )
                    + " not in the known vocabulary — verify against ECHO and extend STAGE_TOKENS deliberately"@);
            }
            return Err(Error::BadResponseShape { url: string_of(url.as_str()), detail: d });
        },
    };
    let state = match text_of(row, "AIRState", i, url) {
        Ok(t) => t,
        Err(e) => {
            return Err(e);
        },
    };
    let mut entity_id = string_of("frs/");
    push_str(&mut entity_id, registry_id.as_str());
    let entity = Entity {
        entity_id: string_of(entity_id.as_str()),
        name: string_of(name.as_str()),
        level: Level::Facility,
        boundary_year: self_year(req.snapshot),
        vintage: string_of(vintage.as_str()),
        source_dataset: string_of(DATASET),
        position: Position::Point { lat, lon },
    };
    let mut claims: Vec<Claim> = Vec::new();
    claims.push(
        echo_claim_of(
            &entity_id,
            "dc:stage",
            string_of(stage),
            &source_id,
            req,
            url,
            vintage,
            valid_to,
            retrieved_at,
        ),
    );
    claims.push(
        echo_claim_of(
            &entity_id,
            "dc:state",
            state,
            &source_id,
            req,
            url,
            vintage,
            valid_to,
            retrieved_at,
        ),
    );
    claims.push(
        echo_claim_of(
            &entity_id,
            "dc:recorded_name",
            name,
            &source_id,
            req,
            url,
            vintage,
            valid_to,
            retrieved_at,
        ),
    );
    proof {
        assert(claims_view(claims@) =~= seq![
            claims@[0]@,
            claims@[1]@,
            claims@[2]@,
        ]);
    }
    Ok((entity, claims))
}

/// Some entity of `es` has the id `id`.
fn contains_entity(es: &Vec<Entity>, id: &String) -> (r: bool)
    ensures
        r == has_entity(entities_view(es@), id@),
{
    let ghost ev = entities_view(es@);
    let mut j: usize = 0;
    while j < es.len()
        invariant
            j <= es@.len(),
            ev == entities_view(es@),
            forall|k: int| 0 <= k < j ==> ev[k].entity_id != id@,
        decreases es.len() - j,
    {
        proof {
            assert(ev[j as int] == es@[j as int]@);
        }
        if same_text(es[j].entity_id.as_str(), id.as_str()) {
            return true;
        }
        j = j + 1;
    }
    false
}

/// Turn a `get_qid` response body into entities + claims. Pure: the body
/// is parsed as JSON, then conformed.
///
/// One facility can carry several permit records: the FRS `RegistryID`
/// becomes ONE entity, and every record contributes its own claims keyed by
/// its `SourceID` — competing records coexist rather than being silently
/// collapsed.
pub fn conform(body: &str, req: &Request, retrieved_at: Timestamp) -> (r: Result<Conformed, Error>)
    requires
        (req.snapshot.day as int) < days_in_month(req.snapshot.year as int, req.snapshot.month as int)
            || req.snapshot.month < 12 || req.snapshot.year < i32::MAX,
    ensures
        match conform_spec(body@, json_of(body@), req.naics@, req.snapshot, retrieved_at) {
            Ok((es, cs)) => r matches Ok(c) && entities_view(c.entities@) == es && claims_view(
                c.claims@,
            ) == cs,
            Err(em) => r matches Err(e) && e@ == em,
        },
{
    let parsed = parse_json(body);
    conform_parsed(body, &parsed, req, retrieved_at)
}

/// Turn a `get_qid` response, given as its body and what the JSON parser
/// made of it, into entities + claims.
pub fn conform_parsed(
    body: &str,
    parsed: &Parsed,
    req: &Request,
    retrieved_at: Timestamp,
) -> (r: Result<Conformed, Error>)
    requires
        (req.snapshot.day as int) < days_in_month(req.snapshot.year as int, req.snapshot.month as int)
            || req.snapshot.month < 12 || req.snapshot.year < i32::MAX,
        parsed_wf(*parsed),
    ensures
        match conform_spec(body@, *parsed, req.naics@, req.snapshot, retrieved_at) {
            Ok((es, cs)) => r matches Ok(c) && entities_view(c.entities@) == es && claims_view(
                c.claims@,
            ) == cs,
            Err(em) => r matches Err(e) && e@ == em,
        },
{
    let url = req.url();
    let value = match parsed {
        Parsed::Invalid(msg) => {
            return Err(
                Error::NotJson { url, detail: string_of(msg.as_str()), body_head: head(body) },
            );
        },
        Parsed::Value(v) => v,
    };
    let rows = match opt_array(opt_get(value.get("Results"), "Facilities")) {
        Some(rows) => rows,
        None => {
            return Err(
                Error::BadResponseShape { url, detail: string_of("no Results.Facilities array") },
            );
        },
    };
    if rows.len() == 0 {
        return Err(
            Error::BadResponseShape { url, detail: string_of("zero facilities returned") },
        );
    }
    let valid_to = req.snapshot.next_day();
    let vintage = req.vintage();
    let mut entities: Vec<Entity> = Vec::new();
    let mut claims: Vec<Claim> = Vec::new();
    proof {
        assert(entities_view(entities@) =~= Seq::<EntityView>::empty());
        assert(claims_view(claims@) =~= Seq::<ClaimView>::empty());
    }
    let mut i: usize = 0;
    proof {
        assert(conform_spec(body@, *parsed, req.naics@, req.snapshot, retrieved_at) == checked(
            rows_output(rows@, req.naics@, req.snapshot, retrieved_at, rows@.len() as int),
        ));
    }
    while i < rows.len()
        invariant
            i <= rows@.len(),
            conform_spec(body@, *parsed, req.naics@, req.snapshot, retrieved_at) == checked(
                rows_output(rows@, req.naics@, req.snapshot, retrieved_at, rows@.len() as int),
            ),
            url@ == request_url(req.naics@),
            vintage@ == request_vintage(req.snapshot),
            valid_to == following_day(req.snapshot),
            rows_output(rows@, req.naics@, req.snapshot, retrieved_at, i as int) == Ok::<
                _,
                ErrorModel,
            >((entities_view(entities@), claims_view(claims@))),
        decreases rows.len() - i,
    {
        match record(&rows[i], i, req, &url, &vintage, valid_to, retrieved_at) {
            Err(e) => {
                proof {
                    assert(rows_output(rows@, req.naics@, req.snapshot, retrieved_at, i + 1)
                        == Err::<(Seq<EntityView>, Seq<ClaimView>), _>(e@));
                    lemma_rows_output_stop(
                        rows@,
                        req.naics@,
                        req.snapshot,
                        retrieved_at,
                        (i + 1) as int,
                        rows@.len() as int,
                    );
                }
                return Err(e);
            },
            Ok((entity, rc)) => {
                let ghost es0 = entities_view(entities@);
                let ghost cs0 = claims_view(claims@);
                let ghost rcv = claims_view(rc@);
                if !contains_entity(&entities, &entity.entity_id) {
                    entities.push(entity);
                    proof {
                        assert(entities_view(entities@) =~= es0.push(entities@.last()@));
                    }
                }
                let mut rc = rc;
                claims.append(&mut rc);
                proof {
                    assert(claims_view(claims@) =~= cs0 + rcv);
                }
            },
        }
        i = i + 1;
    }
    match ensure_unique_claim_keys(claims.as_slice()) {
        Err(e) => {
            return Err(e);
        },
        Ok(()) => {},
    }
    Ok(Conformed { entities, claims })
}

/// Once a record fails, the pass fails with that record's error.
proof fn lemma_rows_output_stop(
    rows: Seq<Json>,
    req_naics: Seq<char>,
    snapshot: Date,
    retrieved_at: Timestamp,
    i: int,
    n: int,
)
    requires
        rows_output(rows, req_naics, snapshot, retrieved_at, i) is Err,
        i <= n,
    ensures
        rows_output(rows, req_naics, snapshot, retrieved_at, n) == rows_output(
            rows,
            req_naics,
            snapshot,
            retrieved_at,
            i,
        ),
    decreases n - i,
{
    if i < n {
        lemma_rows_output_stop(rows, req_naics, snapshot, retrieved_at, i, n - 1);
    }
}


/// No two entities share an id.
pub open spec fn entity_ids_distinct(es: Seq<EntityView>) -> bool {
    forall|a: int, b: int| 0 <= a < b < es.len() ==> es[a].entity_id != es[b].entity_id
}

proof fn lemma_rows_output_distinct(
    rows: Seq<Json>,
    req_naics: Seq<char>,
    snapshot: Date,
    retrieved_at: Timestamp,
    n: int,
)
    requires
        n >= 0,
    ensures
        rows_output(rows, req_naics, snapshot, retrieved_at, n) matches Ok((es, cs))
            ==> entity_ids_distinct(es) && all_one_value(cs) && cs.len() == 3 * n && es.len() <= n,
    decreases n,
{
    if n > 0 {
        lemma_rows_output_distinct(rows, req_naics, snapshot, retrieved_at, n - 1);
        match rows_output(rows, req_naics, snapshot, retrieved_at, n - 1) {
            Ok((es, cs)) => match row_output(rows[n - 1], n - 1, req_naics, snapshot, retrieved_at) {
                Ok((e, rc)) => {
                    assert(all_one_value(rc));
                    assert(rc.len() == 3);
                    lemma_all_one_value_concat(cs, rc);
                    if !has_entity(es, e.entity_id) {
                        let es2 = es.push(e);
                        assert forall|a: int, b: int| 0 <= a < b < es2.len() implies es2[a].entity_id
                            != es2[b].entity_id by {
                            if b == es.len() {
                                assert(!(0 <= a < es.len() && es[a].entity_id == e.entity_id));
                            }
                        }
                    }
                },
                Err(_) => {},
            },
            Err(_) => {},
        }
    }
}

/// The number of facility records in a parsed `get_qid` response.
pub open spec fn get_rows_count(parsed: Parsed) -> int {
    match parsed {
        Parsed::Value(value) => match array_of(get(get(value, "Results"@), "Facilities"@)) {
            Some(rows) => rows.len() as int,
            None => 0,
        },
        Parsed::Invalid(_) => 0,
    }
}

/// A successful ECHO pass yields one entity per FRS id (no more entities
/// than records), three claims per record (stage, state, recorded name),
/// claim keys that never repeat, and claims that each carry exactly one
/// value.
pub proof fn lemma_conform_entities_and_claims_unique(
    body: Seq<char>,
    parsed: Parsed,
    req_naics: Seq<char>,
    snapshot: Date,
    retrieved_at: Timestamp,
)
    ensures
        conform_spec(body, parsed, req_naics, snapshot, retrieved_at) matches Ok((es, cs))
            ==> entity_ids_distinct(es) && keys_unique(claim_keys(cs)) && all_one_value(cs)
            && cs.len() == 3 * (get_rows_count(parsed)) && es.len() <= get_rows_count(parsed),
{
    match parsed {
        Parsed::Value(value) => match array_of(get(get(value, "Results"@), "Facilities"@)) {
            Some(rows) => {
                lemma_rows_output_distinct(rows, req_naics, snapshot, retrieved_at, rows.len() as int);
            },
            None => {},
        },
        Parsed::Invalid(_) => {},
    }
}


/// ECHO's `AIRStatus` labels each have a stage token, and the token is the
/// label itself in token form (lower case, `_` for space); distinct labels
/// give distinct tokens, and any other label has none.
pub proof fn lemma_stage_token_tokens(raw: Seq<char>, other: Seq<char>)
    ensures
        stage_token(raw) is Some <==> (raw == "Operating"@ || raw == "Under Construction"@ || raw == "Planned Facility"@ || raw == "Permanently Closed"@ || raw == "Temporarily Closed"@ || raw == "No Operating Status In ICIS"@),
        stage_token(raw) is Some ==> stage_token(raw) == Some(token_form(raw)),
        stage_token(raw) is Some && stage_token(other) == stage_token(raw) ==> other == raw,
{
    reveal_strlit("Operating");
    reveal_strlit("operating");
    reveal_strlit("Under Construction");
    reveal_strlit("under_construction");
    reveal_strlit("Planned Facility");
    reveal_strlit("planned_facility");
    reveal_strlit("Permanently Closed");
    reveal_strlit("permanently_closed");
    reveal_strlit("Temporarily Closed");
    reveal_strlit("temporarily_closed");
    reveal_strlit("No Operating Status In ICIS");
    reveal_strlit("no_operating_status_in_icis");
    assert("operating"@.len() != "under_construction"@.len());
    assert("operating"@.len() != "planned_facility"@.len());
    assert("operating"@.len() != "permanently_closed"@.len());
    assert("operating"@.len() != "temporarily_closed"@.len());
    assert("operating"@.len() != "no_operating_status_in_icis"@.len());
    assert("under_construction"@.len() != "planned_facility"@.len());
    assert("under_construction"@[0] != "permanently_closed"@[0]);
    assert("under_construction"@[0] != "temporarily_closed"@[0]);
    assert("under_construction"@.len() != "no_operating_status_in_icis"@.len());
    assert("planned_facility"@.len() != "permanently_closed"@.len());
    assert("planned_facility"@.len() != "temporarily_closed"@.len());
    assert("planned_facility"@.len() != "no_operating_status_in_icis"@.len());
    assert("permanently_closed"@[0] != "temporarily_closed"@[0]);
    assert("permanently_closed"@.len() != "no_operating_status_in_icis"@.len());
    assert("temporarily_closed"@.len() != "no_operating_status_in_icis"@.len());
    if raw == "Operating"@ {
        assert(token_form(raw) =~= "operating"@);
    } else if raw == "Under Construction"@ {
        assert(token_form(raw) =~= "under_construction"@);
    } else if raw == "Planned Facility"@ {
        assert(token_form(raw) =~= "planned_facility"@);
    } else if raw == "Permanently Closed"@ {
        assert(token_form(raw) =~= "permanently_closed"@);
    } else if raw == "Temporarily Closed"@ {
        assert(token_form(raw) =~= "temporarily_closed"@);
    } else if raw == "No Operating Status In ICIS"@ {
        assert(token_form(raw) =~= "no_operating_status_in_icis"@);
    }
}

/// A record's first claim is its `dc:stage`, and it holds the record's
/// `AIRStatus` (trimmed) in token form.
pub proof fn lemma_row_stage_claim(
    row: Json,
    i: int,
    req_naics: Seq<char>,
    snapshot: Date,
    retrieved_at: Timestamp,
)
    ensures
        row_output(row, i, req_naics, snapshot, retrieved_at) matches Ok((e, cs)) ==> {
            let status = str_of(get(row, "AIRStatus"@));
            &&& status is Some
            &&& cs.len() == 3
            &&& cs[0].attribute_id == "dc:stage"@
            &&& cs[0].value_text == Some(token_form(trim(status->0)))
        },
{
    let status = str_of(get(row, "AIRStatus"@));
    if status is Some {
        let r = trim(status->0);
        lemma_stage_token_tokens(r, r);
    }
}
} // verus!
