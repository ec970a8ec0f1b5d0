//! Prince William County VA — Data Center Buildings, Campuses and zoning
//! Sites.
//!
//! The county's planning GIS publishes building-level status, year built,
//! occupancy date, permit cases and four different floor-area figures per
//! building (different measures from different county systems, kept as
//! separate attributes, never merged), campus polygons with rezoning cases
//! and planned floor area, and zoning-application sites — the county's
//! pre-permit pipeline.
//!
//! Snapshot semantics as in `crate::echo` (UTC vintage, one-day valid
//! intervals), with one refinement: each record's `published_at` is the
//! county's own `LastEditDate` where present.

use vstd::prelude::*;

use crate::acs::{head, head_text};
use crate::claim::{
    Claim, ClaimView, Confidence, all_one_value, claim_keys, claims_view,
    lemma_all_one_value_concat, ensure_unique_claim_keys, unique_claims_outcome,
};
use crate::error::{Error, ErrorModel};
use crate::fact::{
    Entity, EntityView, Geometry, GeometryView, Level, Position, PositionView, entities_view,
    geometries_view, keys_unique, ring_view,
};
use crate::json::{
    Json, Parsed, array_of, at, get, int_of, json_of, number_text, opt_array, opt_get, opt_int,
    opt_number_text, opt_str, or_null, parse_json, parsed_wf, str_of,
};
use crate::text::{
    chars_of, debug_text, decimal, push_char, push_str, same_text, str_debug,
    string_from_range, string_of, token_form, trim, trim_bounds,
};
use crate::time::{Date, Timestamp, date_from_days, following_day, iso_date, push_date};
use crate::calendar::{date_of_day, days_in_month};

verus! {

pub const DATASET: &'static str = "pwcva/build-out-analysis";

/// Who states the county's claims.
pub const STATED_BY: &'static str = "Prince William County Planning GIS";

/// The three layers of the county service.
#[derive(Debug, Clone, Copy, PartialEq, Eq, Structural)]
pub enum LayerKind {
    Building,
    Campus,
    Site,
}

#[derive(Debug, Clone)]
pub struct Request {
    pub snapshot: Date,
}

pub open spec fn request_vintage(snapshot: Date) -> Seq<char> {
    "pwc-"@ + iso_date(snapshot)
}

pub open spec fn layer_url(kind: LayerKind) -> Seq<char> {
    match kind {
        LayerKind::Building => "https://gisweb.pwcva.gov/arcgis/rest/services/Planning/Build_Out_Analysis/MapServer/9/query?where=1%3D1&outFields=*&returnGeometry=true&outSR=4326&f=json"@,
        LayerKind::Campus => "https://gisweb.pwcva.gov/arcgis/rest/services/Planning/Build_Out_Analysis/MapServer/10/query?where=1%3D1&outFields=*&returnGeometry=true&outSR=4326&f=json"@,
        LayerKind::Site => "https://gisweb.pwcva.gov/arcgis/rest/services/Planning/Build_Out_Analysis/MapServer/11/query?where=1%3D1&outFields=*&returnGeometry=true&outSR=4326&f=json"@,
    }
}

impl Request {
    pub fn new(snapshot: Date) -> (r: Self)
        ensures
            r.snapshot == snapshot,
    {
        Request { snapshot }
    }

    pub fn vintage(&self) -> (r: String)
        ensures
            r@ == request_vintage(self.snapshot),
    {
        let mut s = string_of("pwc-");
        push_date(&mut s, &self.snapshot);
        s
    }

    pub fn buildings_url(&self) -> (r: String)
        ensures
            r@ == layer_url(LayerKind::Building),
    {
        string_of(
            "https://gisweb.pwcva.gov/arcgis/rest/services/Planning/Build_Out_Analysis/MapServer/9/query?where=1%3D1&outFields=*&returnGeometry=true&outSR=4326&f=json",
        )
    }

    pub fn campuses_url(&self) -> (r: String)
        ensures
            r@ == layer_url(LayerKind::Campus),
    {
        string_of(
            "https://gisweb.pwcva.gov/arcgis/rest/services/Planning/Build_Out_Analysis/MapServer/10/query?where=1%3D1&outFields=*&returnGeometry=true&outSR=4326&f=json",
        )
    }

    pub fn sites_url(&self) -> (r: String)
        ensures
            r@ == layer_url(LayerKind::Site),
    {
        string_of(
            "https://gisweb.pwcva.gov/arcgis/rest/services/Planning/Build_Out_Analysis/MapServer/11/query?where=1%3D1&outFields=*&returnGeometry=true&outSR=4326&f=json",
        )
    }
}

// ---------------------------------------------------------------------------
// Vocabularies
// ---------------------------------------------------------------------------
/// Building lifecycle vocabulary.
pub open spec fn building_stage(raw: Seq<char>) -> Option<Seq<char>> {
    if raw == "Completed"@ {
        Some("completed"@)
    } else if raw == "Under Construction"@ {
        Some("under_construction"@)
    } else if raw == "Pending"@ {
        Some("pending"@)
    } else if raw == "Planned"@ {
        Some("planned"@)
    } else {
        None
    }
}

/// Permit status vocabulary.
pub open spec fn permit_status(raw: Seq<char>) -> Option<Seq<char>> {
    if raw == "Finaled"@ {
        Some("finaled"@)
    } else if raw == "Issued"@ {
        Some("issued"@)
    } else if raw == "Pending"@ {
        Some("pending"@)
    } else if raw == "Planned"@ {
        Some("planned"@)
    } else {
        None
    }
}

/// Campus project vocabulary.
pub open spec fn campus_stage(raw: Seq<char>) -> Option<Seq<char>> {
    if raw == "Completed"@ {
        Some("completed"@)
    } else if raw == "Pending"@ {
        Some("pending"@)
    } else if raw == "Planned"@ {
        Some("planned"@)
    } else {
        None
    }
}

/// Zoning application status vocabulary. "By-Right" means the existing
/// zoning already allows data-center use.
pub open spec fn site_status(raw: Seq<char>) -> Option<Seq<char>> {
    if raw == "Approved"@ {
        Some("approved"@)
    } else if raw == "Pending"@ {
        Some("pending"@)
    } else if raw == "By-Right"@ {
        Some("by_right"@)
    } else {
        None
    }
}

/// Zoning application type vocabulary.
pub open spec fn app_type(raw: Seq<char>) -> Option<Seq<char>> {
    if raw == "Rezoning"@ {
        Some("rezoning"@)
    } else if raw == "Special Use"@ {
        Some("special_use"@)
    } else if raw == "By-Right"@ {
        Some("by_right"@)
    } else {
        None
    }
}

/// Application workclass vocabulary.
pub open spec fn workclass(raw: Seq<char>) -> Option<Seq<char>> {
    if raw == "Proffer Amendment"@ {
        Some("proffer_amendment"@)
    } else if raw == "Non-Residential"@ {
        Some("non_residential"@)
    } else if raw == "Mixed Use"@ {
        Some("mixed_use"@)
    } else if raw == "Special Use"@ {
        Some("special_use"@)
    } else if raw == "By-Right"@ {
        Some("by_right"@)
    } else {
        None
    }
}

/// The lifecycle vocabulary of a layer.
pub open spec fn stage_of(kind: LayerKind, raw: Seq<char>) -> Option<Seq<char>> {
    match kind {
        LayerKind::Building => building_stage(raw),
        LayerKind::Campus => campus_stage(raw),
        LayerKind::Site => site_status(raw),
    }
}

// ---------------------------------------------------------------------------
// Reading attributes
// ---------------------------------------------------------------------------
/// `s(key)`: a text attribute, trimmed, absent when empty or the literal
/// `<Null>` ArcGIS writes for a missing value.
pub open spec fn attr_text(attrs: Json, key: Seq<char>) -> Option<Seq<char>> {
    match str_of(get(attrs, key)) {
        Some(v) => if trim(v).len() > 0 && trim(v) != "<Null>"@ {
            Some(trim(v))
        } else {
            None
        },
        None => None,
    }
}

/// The texts a zero number has (`0` as an integer, `0.0` or `-0.0`
/// otherwise).
pub open spec fn zero_text(t: Seq<char>) -> bool {
    t == "0"@ || t == "-0"@ || t == "0.0"@ || t == "-0.0"@
}

/// `n(key)`: a numeric attribute as decimal text, absent when zero (the
/// county's "not set").
pub open spec fn attr_num(attrs: Json, key: Seq<char>) -> Option<Seq<char>> {
    match number_text(get(attrs, key)) {
        Some(t) => if !zero_text(t) {
            Some(t)
        } else {
            None
        },
        None => None,
    }
}

/// The shape error `row <i+1>: <what>`.
pub open spec fn row_error(url: Seq<char>, i: int, what: Seq<char>) -> ErrorModel {
    ErrorModel::BadResponseShape { url, detail: "row "@ + decimal((i + 1) as nat) + ": "@ + what }
}

/// `need(key)`: a text attribute that must be there.
pub open spec fn need(attrs: Json, key: Seq<char>, i: int, url: Seq<char>) -> Result<
    Seq<char>,
    ErrorModel,
> {
    match attr_text(attrs, key) {
        Some(v) => Ok(v),
        None => Err(row_error(url, i, "missing "@ + key)),
    }
}

/// `s` without every leading and trailing `{` and `}`.
pub open spec fn strip_braces_start(s: Seq<char>) -> Seq<char>
    decreases s.len(),
{
    if s.len() > 0 && (s[0] == '{' || s[0] == '}') {
        strip_braces_start(s.drop_first())
    } else {
        s
    }
}

pub open spec fn strip_braces_end(s: Seq<char>) -> Seq<char>
    decreases s.len(),
{
    if s.len() > 0 && (s.last() == '{' || s.last() == '}') {
        strip_braces_end(s.drop_last())
    } else {
        s
    }
}

/// ASCII letters lower-cased, everything else kept.
pub open spec fn ascii_lowercase(s: Seq<char>) -> Seq<char> {
    s.map_values(|c: char| crate::number::ascii_lower(c))
}

/// The record key: `"{ABC-...}"` → `"abc-..."`, a URL-safe id.
pub open spec fn record_key(global_id: Seq<char>) -> Seq<char> {
    ascii_lowercase(strip_braces_end(strip_braces_start(global_id)))
}

/// The date of a millisecond timestamp (UTC).
pub open spec fn date_of_millis(ms: i64) -> Date {
    date_from_days((ms as int) / 86400000)
}

/// A decimal number text that is not finite (Rust's rendering of a
/// non-finite `f64`).
pub open spec fn non_finite(t: Seq<char>) -> bool {
    t == "inf"@ || t == "-inf"@ || t == "NaN"@
}

// ---------------------------------------------------------------------------
// Claims
// ---------------------------------------------------------------------------
/// What every claim of one record shares.
pub struct Template {
    pub entity_id: Seq<char>,
    pub snapshot: Date,
    pub gid: Seq<char>,
    pub published_at: Date,
    pub url: Seq<char>,
    pub retrieved_at: Timestamp,
}

/// A text claim of the record.
pub open spec fn text_claim(
    t: Template,
    attribute: Seq<char>,
    value: Seq<char>,
    source_record: Seq<char>,
) -> ClaimView {
    ClaimView {
        entity_id: t.entity_id,
        attribute_id: attribute,
        valid_from: t.snapshot,
        valid_to: following_day(t.snapshot),
        vintage: request_vintage(t.snapshot),
        source_record,
        value_text: Some(value),
        value_num: None,
        unit: None,
        stated_by: STATED_BY@,
        confidence: Confidence::ConfirmedByRecord,
        published_at: t.published_at,
        source_dataset: DATASET@,
        source_url: t.url,
        retrieved_at: t.retrieved_at,
    }
}

/// A numeric claim of the record, with its unit and who states it.
pub open spec fn num_claim(
    t: Template,
    attribute: Seq<char>,
    value: Seq<char>,
    unit: Seq<char>,
    stated_by: Seq<char>,
) -> ClaimView {
    ClaimView {
        entity_id: t.entity_id,
        attribute_id: attribute,
        valid_from: t.snapshot,
        valid_to: following_day(t.snapshot),
        vintage: request_vintage(t.snapshot),
        source_record: t.gid,
        value_text: None,
        value_num: Some(value),
        unit: Some(unit),
        stated_by,
        confidence: Confidence::ConfirmedByRecord,
        published_at: t.published_at,
        source_dataset: DATASET@,
        source_url: t.url,
        retrieved_at: t.retrieved_at,
    }
}

/// A text claim when the attribute is there.
pub open spec fn opt_text_claim(t: Template, attribute: Seq<char>, v: Option<Seq<char>>) -> Seq<
    ClaimView,
> {
    match v {
        Some(x) => seq![text_claim(t, attribute, x, t.gid)],
        None => Seq::empty(),
    }
}

/// A numeric claim when the attribute is there.
pub open spec fn opt_num_claim(
    t: Template,
    attribute: Seq<char>,
    v: Option<Seq<char>>,
    unit: Seq<char>,
) -> Seq<ClaimView> {
    match v {
        Some(x) => seq![num_claim(t, attribute, x, unit, STATED_BY@)],
        None => Seq::empty(),
    }
}

/// A date claim (`YYYY-MM-DD`) from a millisecond timestamp attribute.
pub open spec fn opt_date_claim(
    t: Template,
    attribute: Seq<char>,
    ms: Option<i64>,
    source_record: Seq<char>,
) -> Seq<ClaimView> {
    match ms {
        Some(m) => seq![text_claim(t, attribute, iso_date(date_of_millis(m)), source_record)],
        None => Seq::empty(),
    }
}

/// The permit-status claim of a building: the permit record, when named,
/// is the asserting record.
pub open spec fn permit_claims(attrs: Json, t: Template, i: int) -> Result<Seq<ClaimView>, ErrorModel> {
    match attr_text(attrs, "PermitStatus"@) {
        None => Ok(Seq::empty()),
        Some(status) => match permit_status(status) {
            None => Err(row_error(t.url, i, "permit status "@ + str_debug(status) + " unknown"@)),
            Some(token) => Ok(
                seq![
                    text_claim(
                        t,
                        "dc:permit_status"@,
                        token,
                        match attr_text(attrs, "PermitCase"@) {
                            Some(c) => c,
                            None => t.gid,
                        },
                    ),
                ],
            ),
        },
    }
}

/// Who states a building's floor area: the county GIS, with the county
/// system named by `GFASource` when there is one.
pub open spec fn gfa_stated_by(attrs: Json) -> Seq<char> {
    match attr_text(attrs, "GFASource"@) {
        Some(src) => STATED_BY@ + " ("@ + src + ")"@,
        None => STATED_BY@,
    }
}

/// The claims of a building beyond its recorded name.
pub open spec fn building_claims(attrs: Json, t: Template, stage: Seq<char>, i: int) -> Result<
    Seq<ClaimView>,
    ErrorModel,
> {
    match permit_claims(attrs, t, i) {
        Err(e) => Err(e),
        Ok(permit) => Ok(
            seq![text_claim(t, "dc:stage"@, stage, t.gid)] + opt_text_claim(
                t,
                "dc:address"@,
                attr_text(attrs, "Address"@),
            ) + opt_text_claim(t, "dc:parcel_gpin"@, attr_text(attrs, "GPIN"@)) + opt_date_claim(
                t,
                "dc:occupied_date"@,
                int_of(get(attrs, "OCCDate"@)),
                t.gid,
            ) + permit + opt_num_claim(t, "dc:year_built"@, attr_num(attrs, "YearBuilt"@), "year"@)
                + match attr_num(attrs, "GFA"@) {
                Some(g) => seq![num_claim(t, "dc:gfa_sqft"@, g, "sqft"@, gfa_stated_by(attrs))],
                None => Seq::empty(),
            } + opt_num_claim(t, "dc:gfa_approved_sqft"@, attr_num(attrs, "ApprovedGFA"@), "sqft"@)
                + opt_num_claim(
                t,
                "dc:gfa_permitted_sqft"@,
                attr_num(attrs, "PermittedGFA"@),
                "sqft"@,
            ) + opt_num_claim(t, "dc:gfa_taxed_sqft"@, attr_num(attrs, "REATaxedGFA"@), "sqft"@),
        ),
    }
}

/// The claims of a campus beyond its recorded name. `RemainingGFA` is the
/// one numeric where 0 is a real value (a fully built-out campus).
pub open spec fn campus_claims(attrs: Json, t: Template, stage: Seq<char>) -> Seq<ClaimView> {
    seq![text_claim(t, "dc:stage"@, stage, t.gid)] + opt_text_claim(
        t,
        "dc:zoning_case"@,
        attr_text(attrs, "CaseNumber"@),
    ) + opt_num_claim(t, "dc:gfa_planned_sqft"@, attr_num(attrs, "PlannedGFA"@), "sqft"@)
        + opt_num_claim(
        t,
        "dc:gfa_remaining_sqft"@,
        number_text(get(attrs, "RemainingGFA"@)),
        "sqft"@,
    ) + opt_num_claim(t, "dc:acreage"@, attr_num(attrs, "GISAcreage"@), "acres"@)
}

/// A closed-vocabulary attribute of a zoning site.
pub open spec fn in_vocab(
    token: Option<Seq<char>>,
    raw: Seq<char>,
    what: Seq<char>,
    i: int,
    url: Seq<char>,
) -> Result<Seq<char>, ErrorModel> {
    match token {
        Some(t) => Ok(t),
        None => Err(row_error(url, i, what + " "@ + str_debug(raw) + " unknown"@)),
    }
}

/// The claims of a zoning site beyond its recorded name: the zoning case
/// asserts the claims about the application itself.
pub open spec fn site_claims(attrs: Json, t: Template, stage: Seq<char>, i: int) -> Result<
    Seq<ClaimView>,
    ErrorModel,
> {
    match need(attrs, "ZoningCaseNumber"@, i, t.url) {
        Err(e) => Err(e),
        Ok(case) => match need(attrs, "AppType"@, i, t.url) {
            Err(e) => Err(e),
            Ok(at_raw) => match in_vocab(app_type(at_raw), at_raw, "application type"@, i, t.url) {
                Err(e) => Err(e),
                Ok(at_token) => match need(attrs, "Workclass"@, i, t.url) {
                    Err(e) => Err(e),
                    Ok(wc_raw) => match in_vocab(workclass(wc_raw), wc_raw, "workclass"@, i, t.url) {
                        Err(e) => Err(e),
                        Ok(wc_token) => Ok(
                            seq![
                                text_claim(t, "dc:zoning_status"@, stage, case),
                                text_claim(t, "dc:application_type"@, at_token, case),
                                text_claim(t, "dc:application_workclass"@, wc_token, case),
                            ] + opt_date_claim(
                                t,
                                "dc:application_accepted"@,
                                int_of(get(attrs, "AppAccDate"@)),
                                case,
                            ) + seq![text_claim(t, "dc:zoning_case"@, case, t.gid)]
                                + opt_text_claim(t, "dc:zoning_district"@, attr_text(attrs, "Zoned"@))
                                + opt_text_claim(t, "dc:address"@, attr_text(attrs, "Address"@))
                                + opt_num_claim(t, "dc:gfa_planned_sqft"@, attr_num(attrs, "GFA"@), "sqft"@)
                                + opt_num_claim(t, "dc:acreage"@, attr_num(attrs, "Acreage"@), "acres"@),
                        ),
                    },
                },
            },
        },
    }
}

// ---------------------------------------------------------------------------
// Geometry
// ---------------------------------------------------------------------------
/// One ring vertex `[x, y]` as decimal texts.
pub open spec fn vertex(v: Json, i: int, url: Seq<char>) -> Result<(Seq<char>, Seq<char>), ErrorModel> {
    match (number_text(at(v, 0)), number_text(at(v, 1))) {
        (Some(x), Some(y)) => if non_finite(x) || non_finite(y) {
            Err(row_error(url, i, "non-finite ring vertex"@))
        } else {
            Ok((x, y))
        },
        _ => Err(row_error(url, i, "unparseable ring vertex"@)),
    }
}

/// The first `n` vertices of a ring.
pub open spec fn vertices(vs: Seq<Json>, i: int, url: Seq<char>, n: int) -> Result<
    Seq<(Seq<char>, Seq<char>)>,
    ErrorModel,
>
    decreases n,
{
    if n <= 0 {
        Ok(Seq::empty())
    } else {
        match vertices(vs, i, url, n - 1) {
            Err(e) => Err(e),
            Ok(out) => match vertex(vs[n - 1], i, url) {
                Err(e) => Err(e),
                Ok(p) => Ok(out.push(p)),
            },
        }
    }
}

/// One ring: at least three vertices, every one a pair of finite numbers.
pub open spec fn ring(r: Json, i: int, url: Seq<char>) -> Result<Seq<(Seq<char>, Seq<char>)>, ErrorModel> {
    match array_of(r) {
        Some(vs) => if vs.len() >= 3 {
            vertices(vs, i, url, vs.len() as int)
        } else {
            Err(row_error(url, i, "degenerate ring"@))
        },
        None => Err(row_error(url, i, "degenerate ring"@)),
    }
}

/// The first `n` rings of a polygon.
pub open spec fn rings(raw: Seq<Json>, i: int, url: Seq<char>, n: int) -> Result<
    Seq<Seq<(Seq<char>, Seq<char>)>>,
    ErrorModel,
>
    decreases n,
{
    if n <= 0 {
        Ok(Seq::empty())
    } else {
        match rings(raw, i, url, n - 1) {
            Err(e) => Err(e),
            Ok(out) => match ring(raw[n - 1], i, url) {
                Err(e) => Err(e),
                Ok(r) => Ok(out.push(r)),
            },
        }
    }
}

/// Where a record is: point layers carry `geometry.x/y`; a campus carries
/// polygon rings, captured whole, and is labelled by its outer ring.
pub open spec fn position(kind: LayerKind, row: Json, i: int, url: Seq<char>) -> Result<
    (PositionView, Option<Seq<Seq<(Seq<char>, Seq<char>)>>>),
    ErrorModel,
> {
    let g = get(row, "geometry"@);
    match kind {
        LayerKind::Campus => match array_of(get(g, "rings"@)) {
            Some(raw) => if raw.len() > 0 {
                match rings(raw, i, url, raw.len() as int) {
                    Err(e) => Err(e),
                    Ok(rs) => Ok((PositionView::OuterRingMean, Some(rs))),
                }
            } else {
                Err(row_error(url, i, "no polygon rings"@))
            },
            None => Err(row_error(url, i, "no polygon rings"@)),
        },
        _ => match number_text(get(g, "x"@)) {
            None => Err(row_error(url, i, "no geometry.x"@)),
            Some(x) => match number_text(get(g, "y"@)) {
                None => Err(row_error(url, i, "no geometry.y"@)),
                Some(y) => Ok((PositionView::Point { lat: y, lon: x }, None)),
            },
        },
    }
}

// ---------------------------------------------------------------------------
// Records and layers
// ---------------------------------------------------------------------------
/// What one record contributes.
pub struct RowOut {
    pub entity: EntityView,
    pub claims: Seq<ClaimView>,
    pub geometry: Option<GeometryView>,
}

pub open spec fn entity_prefix(kind: LayerKind) -> Seq<char> {
    match kind {
        LayerKind::Building => "pwc/bld/"@,
        LayerKind::Campus => "pwc/campus/"@,
        LayerKind::Site => "pwc/site/"@,
    }
}

pub open spec fn status_key(kind: LayerKind) -> Seq<char> {
    match kind {
        LayerKind::Building => "BuildingStatus"@,
        LayerKind::Campus => "ProjectStatus"@,
        LayerKind::Site => "Status"@,
    }
}

/// The record's name: building name or address; campus name or case name;
/// a site's case name.
pub open spec fn record_name(kind: LayerKind, attrs: Json) -> Option<Seq<char>> {
    match kind {
        LayerKind::Building => match attr_text(attrs, "BuildingName"@) {
            Some(n) => Some(n),
            None => attr_text(attrs, "Address"@),
        },
        LayerKind::Campus => match attr_text(attrs, "CampusName"@) {
            Some(n) => Some(n),
            None => attr_text(attrs, "CaseName"@),
        },
        LayerKind::Site => attr_text(attrs, "CaseName"@),
    }
}

/// The record's publication date: the county's `LastEditDate`, else the
/// snapshot.
pub open spec fn record_published(attrs: Json, snapshot: Date) -> Date {
    match int_of(get(attrs, "LastEditDate"@)) {
        Some(ms) => date_of_millis(ms),
        None => snapshot,
    }
}

/// The claims of record `i` beyond its recorded name.
pub open spec fn kind_claims(kind: LayerKind, attrs: Json, t: Template, stage: Seq<char>, i: int) -> Result<
    Seq<ClaimView>,
    ErrorModel,
> {
    match kind {
        LayerKind::Building => building_claims(attrs, t, stage, i),
        LayerKind::Campus => Ok(campus_claims(attrs, t, stage)),
        LayerKind::Site => site_claims(attrs, t, stage, i),
    }
}

/// Record `i` of a layer.
#[verifier::opaque]
pub open spec fn layer_row(
    kind: LayerKind,
    row: Json,
    i: int,
    snapshot: Date,
    retrieved_at: Timestamp,
) -> Result<RowOut, ErrorModel> {
    let url = layer_url(kind);
    let attrs = get(row, "attributes"@);
    match need(attrs, "GlobalID"@, i, url) {
        Err(e) => Err(e),
        Ok(global_id) => {
            let gid = record_key(global_id);
            match need(attrs, status_key(kind), i, url) {
                Err(e) => Err(e),
                Ok(stage_raw) => match record_name(kind, attrs) {
                    None => Err(row_error(url, i, "no name or address"@)),
                    Some(name) => {
                        let entity_id = entity_prefix(kind) + gid;
                        match position(kind, row, i, url) {
                            Err(e) => Err(e),
                            Ok((pos, rs)) => match stage_of(kind, stage_raw) {
                                None => Err(
                                    row_error(
                                        url,
                                        i,
                                        "status "@ + str_debug(stage_raw)
                                            + " not in the known vocabulary — verify against the county layer and extend deliberately"@,
                                    ),
                                ),
                                Some(stage) => {
                                    let t = Template {
                                        entity_id,
                                        snapshot,
                                        gid,
                                        published_at: record_published(attrs, snapshot),
                                        url,
                                        retrieved_at,
                                    };
                                    match kind_claims(kind, attrs, t, stage, i) {
                                        Err(e) => Err(e),
                                        Ok(cs) => Ok(
                                            RowOut {
                                                entity: EntityView {
                                                    entity_id,
                                                    name,
                                                    level: if kind == LayerKind::Building {
                                                        Level::Facility
                                                    } else {
                                                        Level::Campus
                                                    },
                                                    boundary_year: snapshot.year as u16,
                                                    vintage: request_vintage(snapshot),
                                                    source_dataset: DATASET@,
                                                    position: pos,
                                                },
                                                claims: seq![
                                                    text_claim(t, "dc:recorded_name"@, name, gid),
                                                ] + cs,
                                                geometry: match rs {
                                                    Some(r) => Some(
                                                        GeometryView {
                                                            entity_id,
                                                            vintage: request_vintage(snapshot),
                                                            source_dataset: DATASET@,
                                                            rings: r,
                                                            retrieved_at,
                                                        },
                                                    ),
                                                    None => None,
                                                },
                                            },
                                        ),
                                    }
                                },
                            },
                        }
                    },
                },
            }
        },
    }
}

/// The accumulated output of a conform pass.
pub struct Output {
    pub entities: Seq<EntityView>,
    pub claims: Seq<ClaimView>,
    pub geometries: Seq<GeometryView>,
}

/// `acc` with one record's contribution added.
pub open spec fn add_row(acc: Output, r: RowOut) -> Output {
    Output {
        entities: acc.entities.push(r.entity),
        claims: acc.claims + r.claims,
        geometries: match r.geometry {
            Some(g) => acc.geometries.push(g),
            None => acc.geometries,
        },
    }
}

/// `acc` after the first `n` records of a layer.
pub open spec fn layer_rows(
    kind: LayerKind,
    rows: Seq<Json>,
    snapshot: Date,
    retrieved_at: Timestamp,
    acc: Output,
    n: int,
) -> Result<Output, ErrorModel>
    decreases n,
{
    if n <= 0 {
        Ok(acc)
    } else {
        match layer_rows(kind, rows, snapshot, retrieved_at, acc, n - 1) {
            Err(e) => Err(e),
            Ok(o) => match layer_row(kind, rows[n - 1], n - 1, snapshot, retrieved_at) {
                Err(e) => Err(e),
                Ok(r) => Ok(add_row(o, r)),
            },
        }
    }
}

/// One layer's pass: its body must be JSON with a non-empty `features`
/// array and no ArcGIS error.
pub open spec fn layer_pass(
    kind: LayerKind,
    body: Seq<char>,
    parsed: Parsed,
    snapshot: Date,
    retrieved_at: Timestamp,
    acc: Output,
) -> Result<Output, ErrorModel> {
    let url = layer_url(kind);
    match parsed {
        Parsed::Invalid(msg) => Err(
            ErrorModel::NotJson { url, detail: msg@, body_head: head_text(body) },
        ),
        Parsed::Value(value) => match str_of(get(get(value, "error"@), "message"@)) {
            Some(msg) => Err(
                ErrorModel::BadResponseShape { url, detail: "ArcGIS error: "@ + msg },
            ),
            None => match array_of(get(value, "features"@)) {
                None => Err(ErrorModel::BadResponseShape { url, detail: "no features array"@ }),
                Some(rows) => if rows.len() == 0 {
                    Err(ErrorModel::BadResponseShape { url, detail: "zero features returned"@ })
                } else {
                    layer_rows(kind, rows, snapshot, retrieved_at, acc, rows.len() as int)
                },
            },
        },
    }
}

/// The rows of a layer's response, when it passes the checks made before
/// any row: JSON, no ArcGIS error, a non-empty `features` array.
pub open spec fn layer_rows_of(parsed: Parsed) -> Option<Seq<Json>> {
    match parsed {
        Parsed::Invalid(_) => None,
        Parsed::Value(value) => if str_of(get(get(value, "error"@), "message"@)) is Some {
            None
        } else {
            match array_of(get(value, "features"@)) {
                Some(rows) => if rows.len() == 0 {
                    None
                } else {
                    Some(rows)
                },
                None => None,
            }
        },
    }
}

/// The whole conform pass over the three layers, refused when a claim key
/// repeats.
pub open spec fn conform_spec(
    buildings: (Seq<char>, Parsed),
    campuses: (Seq<char>, Parsed),
    sites: (Seq<char>, Parsed),
    snapshot: Date,
    retrieved_at: Timestamp,
) -> Result<Output, ErrorModel> {
    let empty = Output { entities: Seq::empty(), claims: Seq::empty(), geometries: Seq::empty() };
    match layer_pass(LayerKind::Building, buildings.0, buildings.1, snapshot, retrieved_at, empty) {
        Err(e) => Err(e),
        Ok(o1) => match layer_pass(LayerKind::Campus, campuses.0, campuses.1, snapshot, retrieved_at, o1) {
            Err(e) => Err(e),
            Ok(o2) => match layer_pass(LayerKind::Site, sites.0, sites.1, snapshot, retrieved_at, o2) {
                Err(e) => Err(e),
                Ok(o3) => match unique_claims_outcome(o3.claims) {
                    Some(e) => Err(e),
                    None => Ok(o3),
                },
            },
        },
    }
}

// ---------------------------------------------------------------------------
// Computing a record
// ---------------------------------------------------------------------------
fn building_stage_of(raw: &str) -> (r: Option<&'static str>)
    ensures
        match r {
            Some(t) => building_stage(raw@) == Some(t@),
            None => building_stage(raw@) is None,
        },
{
    if same_text(raw, "Completed") {
        Some("completed")
    } else if same_text(raw, "Under Construction") {
        Some("under_construction")
    } else if same_text(raw, "Pending") {
        Some("pending")
    } else if same_text(raw, "Planned") {
        Some("planned")
    } else {
        None
    }
}

fn permit_status_of(raw: &str) -> (r: Option<&'static str>)
    ensures
        match r {
            Some(t) => permit_status(raw@) == Some(t@),
            None => permit_status(raw@) is None,
        },
{
    if same_text(raw, "Finaled") {
        Some("finaled")
    } else if same_text(raw, "Issued") {
        Some("issued")
    } else if same_text(raw, "Pending") {
        Some("pending")
    } else if same_text(raw, "Planned") {
        Some("planned")
    } else {
        None
    }
}

fn campus_stage_of(raw: &str) -> (r: Option<&'static str>)
    ensures
        match r {
            Some(t) => campus_stage(raw@) == Some(t@),
            None => campus_stage(raw@) is None,
        },
{
    if same_text(raw, "Completed") {
        Some("completed")
    } else if same_text(raw, "Pending") {
        Some("pending")
    } else if same_text(raw, "Planned") {
        Some("planned")
    } else {
        None
    }
}

fn site_status_of(raw: &str) -> (r: Option<&'static str>)
    ensures
        match r {
            Some(t) => site_status(raw@) == Some(t@),
            None => site_status(raw@) is None,
        },
{
    if same_text(raw, "Approved") {
        Some("approved")
    } else if same_text(raw, "Pending") {
        Some("pending")
    } else if same_text(raw, "By-Right") {
        Some("by_right")
    } else {
        None
    }
}

fn app_type_of(raw: &str) -> (r: Option<&'static str>)
    ensures
        match r {
            Some(t) => app_type(raw@) == Some(t@),
            None => app_type(raw@) is None,
        },
{
    if same_text(raw, "Rezoning") {
        Some("rezoning")
    } else if same_text(raw, "Special Use") {
        Some("special_use")
    } else if same_text(raw, "By-Right") {
        Some("by_right")
    } else {
        None
    }
}

fn workclass_of(raw: &str) -> (r: Option<&'static str>)
    ensures
        match r {
            Some(t) => workclass(raw@) == Some(t@),
            None => workclass(raw@) is None,
        },
{
    if same_text(raw, "Proffer Amendment") {
        Some("proffer_amendment")
    } else if same_text(raw, "Non-Residential") {
        Some("non_residential")
    } else if same_text(raw, "Mixed Use") {
        Some("mixed_use")
    } else if same_text(raw, "Special Use") {
        Some("special_use")
    } else if same_text(raw, "By-Right") {
        Some("by_right")
    } else {
        None
    }
}

fn stage_of_kind(kind: LayerKind, raw: &str) -> (r: Option<&'static str>)
    ensures
        match r {
            Some(t) => stage_of(kind, raw@) == Some(t@),
            None => stage_of(kind, raw@) is None,
        },
{
    match kind {
        LayerKind::Building => building_stage_of(raw),
        LayerKind::Campus => campus_stage_of(raw),
        LayerKind::Site => site_status_of(raw),
    }
}

/// `attr_text` computed.
fn attr_text_of(attrs: Option<&Json>, key: &str) -> (r: Option<String>)
    ensures
        crate::fact::opt_text(r) == attr_text(or_null(attrs), key@),
{
    match opt_str(opt_get(attrs, key)) {
        Some(v) => {
            let cs = chars_of(v.as_str());
            let (lo, hi) = trim_bounds(cs.as_slice(), 0, cs.len());
            proof {
                assert(cs@.subrange(0, cs@.len() as int) =~= v@);
            }
            let nul = chars_of("<Null>");
            if lo < hi && !crate::text::range_equals(cs.as_slice(), lo, hi, nul.as_slice()) {
                Some(string_from_range(cs.as_slice(), lo, hi))
            } else {
                None
            }
        },
        None => None,
    }
}

/// `attr_num` computed.
fn attr_num_of(attrs: Option<&Json>, key: &str) -> (r: Option<String>)
    ensures
        crate::fact::opt_text(r) == attr_num(or_null(attrs), key@),
{
    match opt_number_text(opt_get(attrs, key)) {
        Some(t) => {
            if same_text(t.as_str(), "0") || same_text(t.as_str(), "-0") || same_text(
                t.as_str(),
                "0.0",
            ) || same_text(t.as_str(), "-0.0") {
                None
            } else {
                Some(string_of(t.as_str()))
            }
        },
        None => None,
    }
}

/// `row_error` computed.
fn row_err(url: &String, i: usize, what: String) -> (e: Error)
    ensures
        e@ == row_error(url@, i as int, what@),
{
    let mut d = string_of("row ");
    crate::text::push_decimal_u128(&mut d, i as u128 + 1);
    push_str(&mut d, ": ");
    push_str(&mut d, what.as_str());
    Error::BadResponseShape { url: string_of(url.as_str()), detail: d }
}

/// `need` computed.
fn need_of(attrs: Option<&Json>, key: &str, i: usize, url: &String) -> (r: Result<String, Error>)
    ensures
        match need(or_null(attrs), key@, i as int, url@) {
            Ok(v) => r matches Ok(x) && x@ == v,
            Err(em) => r matches Err(e) && e@ == em,
        },
{
    match attr_text_of(attrs, key) {
        Some(v) => Ok(v),
        None => {
            let mut what = string_of("missing ");
            push_str(&mut what, key);
            Err(row_err(url, i, what))
        },
    }
}

/// `record_key` computed.
fn record_key_of(g: &String) -> (r: String)
    ensures
        r@ == record_key(g@),
{
    let cs = chars_of(g.as_str());
    let mut a: usize = 0;
    let n = cs.len();
    proof {
        assert(cs@.subrange(0, n as int) =~= cs@);
    }
    while a < n && (cs[a] == '{' || cs[a] == '}')
        invariant
            a <= n == cs@.len(),
            strip_braces_start(cs@) == strip_braces_start(cs@.subrange(a as int, n as int)),
        decreases n - a,
    {
        proof {
            assert(cs@.subrange(a as int, n as int).drop_first() =~= cs@.subrange(a + 1, n as int));
        }
        a = a + 1;
    }
    let mut b: usize = n;
    while b > a && (cs[b - 1] == '{' || cs[b - 1] == '}')
        invariant
            a <= b <= n == cs@.len(),
            strip_braces_end(cs@.subrange(a as int, n as int)) == strip_braces_end(
                cs@.subrange(a as int, b as int),
            ),
        decreases b - a,
    {
        proof {
            assert(cs@.subrange(a as int, b as int).drop_last() =~= cs@.subrange(a as int, b - 1));
        }
        b = b - 1;
    }
    let ghost mid = cs@.subrange(a as int, b as int);
    proof {
        assert(strip_braces_start(cs@.subrange(a as int, n as int)) == cs@.subrange(a as int, n as int));
        assert(strip_braces_end(mid) == mid);
        assert(cs@ == g@);
    }
    let mut out = String::new();
    let mut k: usize = a;
    while k < b
        invariant
            a <= k <= b <= n == cs@.len(),
            mid == cs@.subrange(a as int, b as int),
            out@ == ascii_lowercase(cs@.subrange(a as int, k as int)),
        decreases b - k,
    {
        let c = cs[k];
        let lc = if 'A' <= c && c <= 'Z' {
            ((c as u32) + 32) as u8 as char
        } else {
            c
        };
        crate::text::push_char(&mut out, lc);
        proof {
            assert(ascii_lowercase(cs@.subrange(a as int, k + 1)) =~= ascii_lowercase(
                cs@.subrange(a as int, k as int),
            ).push(crate::number::ascii_lower(c)));
        }
        k = k + 1;
    }
    out
}

/// The exec form of `Template`.
pub struct ClaimTemplate {
    pub entity_id: String,
    pub snapshot: Date,
    pub gid: String,
    pub published_at: Date,
    pub url: String,
    pub retrieved_at: Timestamp,
}

impl ClaimTemplate {
    pub open spec fn model(&self) -> Template {
        Template {
            entity_id: self.entity_id@,
            snapshot: self.snapshot,
            gid: self.gid@,
            published_at: self.published_at,
            url: self.url@,
            retrieved_at: self.retrieved_at,
        }
    }
}

fn text_claim_of(
    t: &ClaimTemplate,
    vintage: &String,
    valid_to: Date,
    attribute: &str,
    value: String,
    source_record: String,
) -> (c: Claim)
    requires
        vintage@ == request_vintage(t.snapshot),
        valid_to == following_day(t.snapshot),
    ensures
        c@ == text_claim(t.model(), attribute@, value@, source_record@),
{
    Claim {
        entity_id: string_of(t.entity_id.as_str()),
        attribute_id: string_of(attribute),
        valid_from: t.snapshot,
        valid_to,
        vintage: string_of(vintage.as_str()),
        source_record,
        value_text: Some(value),
        value_num: None,
        unit: None,
        stated_by: string_of(STATED_BY),
        confidence: Confidence::ConfirmedByRecord,
        published_at: t.published_at,
        source_dataset: string_of(DATASET),
        source_url: string_of(t.url.as_str()),
        retrieved_at: t.retrieved_at,
    }
}

fn num_claim_of(
    t: &ClaimTemplate,
    vintage: &String,
    valid_to: Date,
    attribute: &str,
    value: String,
    unit: &str,
    stated_by: String,
) -> (c: Claim)
    requires
        vintage@ == request_vintage(t.snapshot),
        valid_to == following_day(t.snapshot),
    ensures
        c@ == num_claim(t.model(), attribute@, value@, unit@, stated_by@),
{
    Claim {
        entity_id: string_of(t.entity_id.as_str()),
        attribute_id: string_of(attribute),
        valid_from: t.snapshot,
        valid_to,
        vintage: string_of(vintage.as_str()),
        source_record: string_of(t.gid.as_str()),
        value_text: None,
        value_num: Some(value),
        unit: Some(string_of(unit)),
        stated_by,
        confidence: Confidence::ConfirmedByRecord,
        published_at: t.published_at,
        source_dataset: string_of(DATASET),
        source_url: string_of(t.url.as_str()),
        retrieved_at: t.retrieved_at,
    }
}

/// Appends `src` to `dst`.
fn append_claims(dst: &mut Vec<Claim>, src: Vec<Claim>)
    ensures
        claims_view(final(dst)@) == claims_view(old(dst)@) + claims_view(src@),
{
    let mut src = src;
    let ghost a = claims_view(dst@);
    let ghost b = claims_view(src@);
    dst.append(&mut src);
    proof {
        assert(claims_view(dst@) =~= a + b);
    }
}

/// Pushes one claim.
fn push_claim(dst: &mut Vec<Claim>, c: Claim)
    ensures
        claims_view(final(dst)@) == claims_view(old(dst)@) + seq![c@],
{
    let ghost a = claims_view(dst@);
    let ghost cv = c@;
    dst.push(c);
    proof {
        assert(claims_view(dst@) =~= a + seq![cv]);
    }
}

fn push_opt_text_claim(
    dst: &mut Vec<Claim>,
    t: &ClaimTemplate,
    vintage: &String,
    valid_to: Date,
    attribute: &str,
    v: Option<String>,
)
    requires
        vintage@ == request_vintage(t.snapshot),
        valid_to == following_day(t.snapshot),
    ensures
        claims_view(final(dst)@) == claims_view(old(dst)@) + opt_text_claim(
            t.model(),
            attribute@,
            crate::fact::opt_text(v),
        ),
{
    match v {
        Some(x) => {
            let c = text_claim_of(t, vintage, valid_to, attribute, x, string_of(t.gid.as_str()));
            push_claim(dst, c);
        },
        None => {
            proof {
                assert(claims_view(dst@) =~= claims_view(dst@) + Seq::<ClaimView>::empty());
            }
        },
    }
}

fn push_opt_num_claim(
    dst: &mut Vec<Claim>,
    t: &ClaimTemplate,
    vintage: &String,
    valid_to: Date,
    attribute: &str,
    v: Option<String>,
    unit: &str,
)
    requires
        vintage@ == request_vintage(t.snapshot),
        valid_to == following_day(t.snapshot),
    ensures
        claims_view(final(dst)@) == claims_view(old(dst)@) + opt_num_claim(
            t.model(),
            attribute@,
            crate::fact::opt_text(v),
            unit@,
        ),
{
    match v {
        Some(x) => {
            let c = num_claim_of(t, vintage, valid_to, attribute, x, unit, string_of(STATED_BY));
            push_claim(dst, c);
        },
        None => {
            proof {
                assert(claims_view(dst@) =~= claims_view(dst@) + Seq::<ClaimView>::empty());
            }
        },
    }
}

fn push_opt_date_claim(
    dst: &mut Vec<Claim>,
    t: &ClaimTemplate,
    vintage: &String,
    valid_to: Date,
    attribute: &str,
    ms: Option<i64>,
    source_record: &String,
)
    requires
        vintage@ == request_vintage(t.snapshot),
        valid_to == following_day(t.snapshot),
    ensures
        claims_view(final(dst)@) == claims_view(old(dst)@) + opt_date_claim(
            t.model(),
            attribute@,
            ms,
            source_record@,
        ),
{
    match ms {
        Some(m) => {
            let d = Date::from_unix_days(crate::time::day_of_millis(m));
            let c = text_claim_of(
                t,
                vintage,
                valid_to,
                attribute,
                d.to_string(),
                string_of(source_record.as_str()),
            );
            push_claim(dst, c);
        },
        None => {
            proof {
                assert(claims_view(dst@) =~= claims_view(dst@) + Seq::<ClaimView>::empty());
            }
        },
    }
}


/// `permit_claims` computed.
fn permit_claims_of(
    attrs: Option<&Json>,
    t: &ClaimTemplate,
    vintage: &String,
    valid_to: Date,
    i: usize,
) -> (r: Result<Vec<Claim>, Error>)
    requires
        vintage@ == request_vintage(t.snapshot),
        valid_to == following_day(t.snapshot),
    ensures
        match permit_claims(or_null(attrs), t.model(), i as int) {
            Ok(cs) => r matches Ok(v) && claims_view(v@) == cs,
            Err(em) => r matches Err(e) && e@ == em,
        },
{
    let mut v: Vec<Claim> = Vec::new();
    proof {
        assert(claims_view(v@) =~= Seq::<ClaimView>::empty());
    }
    match attr_text_of(attrs, "PermitStatus") {
        None => Ok(v),
        Some(status) => match permit_status_of(status.as_str()) {
            None => {
                let mut what = string_of("permit status ");
                let q = debug_text(status.as_str());
                push_str(&mut what, q.as_str());
                push_str(&mut what, " unknown");
                Err(row_err(&t.url, i, what))
            },
            Some(token) => {
                let src = match attr_text_of(attrs, "PermitCase") {
                    Some(c) => c,
                    None => string_of(t.gid.as_str()),
                };
                let c = text_claim_of(t, vintage, valid_to, "dc:permit_status", string_of(token), src);
                push_claim(&mut v, c);
                proof {
                    assert(claims_view(v@) =~= seq![c@]);
                }
                Ok(v)
            },
        },
    }
}

/// `gfa_stated_by` computed.
fn gfa_stated_by_of(attrs: Option<&Json>) -> (r: String)
    ensures
        r@ == gfa_stated_by(or_null(attrs)),
{
    match attr_text_of(attrs, "GFASource") {
        Some(src) => {
            let mut b = string_of(STATED_BY);
            push_str(&mut b, " (");
            push_str(&mut b, src.as_str());
            push_str(&mut b, ")");
            b
        },
        None => string_of(STATED_BY),
    }
}

/// `building_claims` computed.
fn building_claims_of(
    attrs: Option<&Json>,
    t: &ClaimTemplate,
    vintage: &String,
    valid_to: Date,
    stage: &str,
    i: usize,
) -> (r: Result<Vec<Claim>, Error>)
    requires
        vintage@ == request_vintage(t.snapshot),
        valid_to == following_day(t.snapshot),
    ensures
        match building_claims(or_null(attrs), t.model(), stage@, i as int) {
            Ok(cs) => r matches Ok(v) && claims_view(v@) == cs,
            Err(em) => r matches Err(e) && e@ == em,
        },
{
    let permit = match permit_claims_of(attrs, t, vintage, valid_to, i) {
        Ok(p) => p,
        Err(e) => {
            return Err(e);
        },
    };
    let ghost a = or_null(attrs);
    let ghost tm = t.model();
    let mut v: Vec<Claim> = Vec::new();
    let c = text_claim_of(t, vintage, valid_to, "dc:stage", string_of(stage), string_of(t.gid.as_str()));
    push_claim(&mut v, c);
    proof {
        assert(claims_view(v@) =~= seq![text_claim(tm, "dc:stage"@, stage@, tm.gid)]);
    }
    push_opt_text_claim(&mut v, t, vintage, valid_to, "dc:address", attr_text_of(attrs, "Address"));
    push_opt_text_claim(&mut v, t, vintage, valid_to, "dc:parcel_gpin", attr_text_of(attrs, "GPIN"));
    push_opt_date_claim(
        &mut v,
        t,
        vintage,
        valid_to,
        "dc:occupied_date",
        opt_int(opt_get(attrs, "OCCDate")),
        &t.gid,
    );
    append_claims(&mut v, permit);
    push_opt_num_claim(&mut v, t, vintage, valid_to, "dc:year_built", attr_num_of(attrs, "YearBuilt"), "year");
    let ghost before_gfa = claims_view(v@);
    match attr_num_of(attrs, "GFA") {
        Some(g) => {
            let by = gfa_stated_by_of(attrs);
            let c = num_claim_of(t, vintage, valid_to, "dc:gfa_sqft", g, "sqft", by);
            push_claim(&mut v, c);
        },
        None => {
            proof {
                assert(claims_view(v@) =~= claims_view(v@) + Seq::<ClaimView>::empty());
            }
        },
    }
    push_opt_num_claim(&mut v, t, vintage, valid_to, "dc:gfa_approved_sqft", attr_num_of(attrs, "ApprovedGFA"), "sqft");
    push_opt_num_claim(&mut v, t, vintage, valid_to, "dc:gfa_permitted_sqft", attr_num_of(attrs, "PermittedGFA"), "sqft");
    push_opt_num_claim(&mut v, t, vintage, valid_to, "dc:gfa_taxed_sqft", attr_num_of(attrs, "REATaxedGFA"), "sqft");
    Ok(v)
}

/// `campus_claims` computed.
fn campus_claims_of(
    attrs: Option<&Json>,
    t: &ClaimTemplate,
    vintage: &String,
    valid_to: Date,
    stage: &str,
) -> (r: Vec<Claim>)
    requires
        vintage@ == request_vintage(t.snapshot),
        valid_to == following_day(t.snapshot),
    ensures
        claims_view(r@) == campus_claims(or_null(attrs), t.model(), stage@),
{
    let ghost tm = t.model();
    let mut v: Vec<Claim> = Vec::new();
    let c = text_claim_of(t, vintage, valid_to, "dc:stage", string_of(stage), string_of(t.gid.as_str()));
    push_claim(&mut v, c);
    proof {
        assert(claims_view(v@) =~= seq![text_claim(tm, "dc:stage"@, stage@, tm.gid)]);
    }
    push_opt_text_claim(&mut v, t, vintage, valid_to, "dc:zoning_case", attr_text_of(attrs, "CaseNumber"));
    push_opt_num_claim(&mut v, t, vintage, valid_to, "dc:gfa_planned_sqft", attr_num_of(attrs, "PlannedGFA"), "sqft");
    let remaining = match opt_number_text(opt_get(attrs, "RemainingGFA")) {
        Some(x) => Some(string_of(x.as_str())),
        None => None,
    };
    push_opt_num_claim(&mut v, t, vintage, valid_to, "dc:gfa_remaining_sqft", remaining, "sqft");
    push_opt_num_claim(&mut v, t, vintage, valid_to, "dc:acreage", attr_num_of(attrs, "GISAcreage"), "acres");
    v
}

/// `in_vocab` computed: the error names what was looked up.
fn vocab_error(url: &String, i: usize, what: &str, raw: &String) -> (e: Error)
    ensures
        e@ == row_error(url@, i as int, what@ + " "@ + str_debug(raw@) + " unknown"@),
{
    let mut w = string_of(what);
    push_str(&mut w, " ");
    let q = debug_text(raw.as_str());
    push_str(&mut w, q.as_str());
    push_str(&mut w, " unknown");
    row_err(url, i, w)
}

/// `site_claims` computed.
fn site_claims_of(
    attrs: Option<&Json>,
    t: &ClaimTemplate,
    vintage: &String,
    valid_to: Date,
    stage: &str,
    i: usize,
) -> (r: Result<Vec<Claim>, Error>)
    requires
        vintage@ == request_vintage(t.snapshot),
        valid_to == following_day(t.snapshot),
    ensures
        match site_claims(or_null(attrs), t.model(), stage@, i as int) {
            Ok(cs) => r matches Ok(v) && claims_view(v@) == cs,
            Err(em) => r matches Err(e) && e@ == em,
        },
{
    let ghost tm = t.model();
    let case = match need_of(attrs, "ZoningCaseNumber", i, &t.url) {
        Ok(c) => c,
        Err(e) => {
            return Err(e);
        },
    };
    let at_raw = match need_of(attrs, "AppType", i, &t.url) {
        Ok(c) => c,
        Err(e) => {
            return Err(e);
        },
    };
    let at_token = match app_type_of(at_raw.as_str()) {
        Some(x) => x,
        None => {
            return Err(vocab_error(&t.url, i, "application type", &at_raw));
        },
    };
    let wc_raw = match need_of(attrs, "Workclass", i, &t.url) {
        Ok(c) => c,
        Err(e) => {
            return Err(e);
        },
    };
    let wc_token = match workclass_of(wc_raw.as_str()) {
        Some(x) => x,
        None => {
            return Err(vocab_error(&t.url, i, "workclass", &wc_raw));
        },
    };
    let mut v: Vec<Claim> = Vec::new();
    let c1 = text_claim_of(t, vintage, valid_to, "dc:zoning_status", string_of(stage), string_of(case.as_str()));
    let c2 = text_claim_of(t, vintage, valid_to, "dc:application_type", string_of(at_token), string_of(case.as_str()));
    let c3 = text_claim_of(
        t,
        vintage,
        valid_to,
        "dc:application_workclass",
        string_of(wc_token),
        string_of(case.as_str()),
    );
    push_claim(&mut v, c1);
    push_claim(&mut v, c2);
    push_claim(&mut v, c3);
    proof {
        assert(claims_view(v@) =~= seq![
            text_claim(tm, "dc:zoning_status"@, stage@, case@),
            text_claim(tm, "dc:application_type"@, at_token@, case@),
            text_claim(tm, "dc:application_workclass"@, wc_token@, case@),
        ]);
    }
    push_opt_date_claim(
        &mut v,
        t,
        vintage,
        valid_to,
        "dc:application_accepted",
        opt_int(opt_get(attrs, "AppAccDate")),
        &case,
    );
    let c4 = text_claim_of(t, vintage, valid_to, "dc:zoning_case", string_of(case.as_str()), string_of(t.gid.as_str()));
    push_claim(&mut v, c4);
    push_opt_text_claim(&mut v, t, vintage, valid_to, "dc:zoning_district", attr_text_of(attrs, "Zoned"));
    push_opt_text_claim(&mut v, t, vintage, valid_to, "dc:address", attr_text_of(attrs, "Address"));
    push_opt_num_claim(&mut v, t, vintage, valid_to, "dc:gfa_planned_sqft", attr_num_of(attrs, "GFA"), "sqft");
    push_opt_num_claim(&mut v, t, vintage, valid_to, "dc:acreage", attr_num_of(attrs, "Acreage"), "acres");
    Ok(v)
}


// ---------------------------------------------------------------------------
// Computing geometry
// ---------------------------------------------------------------------------
/// Rust's rendering of a non-finite `f64`.
fn non_finite_of(t: &String) -> (r: bool)
    ensures
        r == non_finite(t@),
{
    same_text(t.as_str(), "inf") || same_text(t.as_str(), "-inf") || same_text(t.as_str(), "NaN")
}

/// `vertex` computed.
fn vertex_of(v: &Json, i: usize, url: &String) -> (r: Result<(String, String), Error>)
    ensures
        match vertex(*v, i as int, url@) {
            Ok((x, y)) => r matches Ok(p) && p.0@ == x && p.1@ == y,
            Err(em) => r matches Err(e) && e@ == em,
        },
{
    let x = opt_number_text(v.at(0));
    let y = opt_number_text(v.at(1));
    match (x, y) {
        (Some(x), Some(y)) => {
            if non_finite_of(x) || non_finite_of(y) {
                Err(row_err(url, i, string_of("non-finite ring vertex")))
            } else {
                Ok((string_of(x.as_str()), string_of(y.as_str())))
            }
        },
        _ => Err(row_err(url, i, string_of("unparseable ring vertex"))),
    }
}

/// Once a vertex fails, the ring fails with that vertex's error.
proof fn lemma_vertices_stop(vs: Seq<Json>, i: int, url: Seq<char>, k: int, n: int)
    requires
        vertices(vs, i, url, k) is Err,
        k <= n,
    ensures
        vertices(vs, i, url, n) == vertices(vs, i, url, k),
    decreases n - k,
{
    if k < n {
        lemma_vertices_stop(vs, i, url, k, n - 1);
    }
}

/// `ring` computed.
fn ring_of(r: &Json, i: usize, url: &String) -> (out: Result<Vec<(String, String)>, Error>)
    ensures
        match ring(*r, i as int, url@) {
            Ok(vs) => out matches Ok(v) && ring_view(v) == vs,
            Err(em) => out matches Err(e) && e@ == em,
        },
{
    let vs = match opt_array(Some(r)) {
        Some(vs) => vs,
        None => {
            return Err(row_err(url, i, string_of("degenerate ring")));
        },
    };
    if vs.len() < 3 {
        return Err(row_err(url, i, string_of("degenerate ring")));
    }
    let mut out: Vec<(String, String)> = Vec::new();
    let mut k: usize = 0;
    proof {
        assert(ring_view(out) =~= Seq::<(Seq<char>, Seq<char>)>::empty());
    }
    while k < vs.len()
        invariant
            k <= vs@.len(),
            array_of(*r) == Some(vs@),
            vs@.len() >= 3,
            vertices(vs@, i as int, url@, k as int) == Ok::<_, ErrorModel>(ring_view(out)),
        decreases vs.len() - k,
    {
        match vertex_of(&vs[k], i, url) {
            Err(e) => {
                proof {
                    lemma_vertices_stop(vs@, i as int, url@, k + 1, vs@.len() as int);
                }
                return Err(e);
            },
            Ok(p) => {
                let ghost before = ring_view(out);
                let ghost pv = (p.0@, p.1@);
                out.push(p);
                proof {
                    assert(ring_view(out) =~= before.push(pv));
                }
            },
        }
        k = k + 1;
    }
    Ok(out)
}

/// Once a ring fails, the polygon fails with that ring's error.
proof fn lemma_rings_stop(raw: Seq<Json>, i: int, url: Seq<char>, k: int, n: int)
    requires
        rings(raw, i, url, k) is Err,
        k <= n,
    ensures
        rings(raw, i, url, n) == rings(raw, i, url, k),
    decreases n - k,
{
    if k < n {
        lemma_rings_stop(raw, i, url, k, n - 1);
    }
}

pub open spec fn rings_view(rs: Seq<Vec<(String, String)>>) -> Seq<Seq<(Seq<char>, Seq<char>)>> {
    rs.map_values(|r: Vec<(String, String)>| ring_view(r))
}

/// `rings` computed over all of `raw`.
fn rings_of(raw: &Vec<Json>, i: usize, url: &String) -> (out: Result<Vec<Vec<(String, String)>>, Error>)
    ensures
        match rings(raw@, i as int, url@, raw@.len() as int) {
            Ok(rs) => out matches Ok(v) && rings_view(v@) == rs,
            Err(em) => out matches Err(e) && e@ == em,
        },
{
    let mut out: Vec<Vec<(String, String)>> = Vec::new();
    let mut k: usize = 0;
    proof {
        assert(rings_view(out@) =~= Seq::<Seq<(Seq<char>, Seq<char>)>>::empty());
    }
    while k < raw.len()
        invariant
            k <= raw@.len(),
            rings(raw@, i as int, url@, k as int) == Ok::<_, ErrorModel>(rings_view(out@)),
        decreases raw.len() - k,
    {
        match ring_of(&raw[k], i, url) {
            Err(e) => {
                proof {
                    lemma_rings_stop(raw@, i as int, url@, k + 1, raw@.len() as int);
                }
                return Err(e);
            },
            Ok(r) => {
                let ghost before = rings_view(out@);
                let ghost rv = ring_view(r);
                out.push(r);
                proof {
                    assert(rings_view(out@) =~= before.push(rv));
                }
            },
        }
        k = k + 1;
    }
    Ok(out)
}

/// `position` computed.
fn position_of(kind: LayerKind, row: &Json, i: usize, url: &String) -> (r: Result<
    (Position, Option<Vec<Vec<(String, String)>>>),
    Error,
>)
    ensures
        match position(kind, *row, i as int, url@) {
            Ok((p, rs)) => r matches Ok(x) && x.0@ == p && match x.1 {
                Some(v) => rs == Some(rings_view(v@)),
                None => rs is None,
            },
            Err(em) => r matches Err(e) && e@ == em,
        },
{
    let g = row.get("geometry");
    match kind {
        LayerKind::Campus => {
            match opt_array(opt_get(g, "rings")) {
                Some(raw) => {
                    if raw.len() > 0 {
                        match rings_of(raw, i, url) {
                            Err(e) => Err(e),
                            Ok(rs) => Ok((Position::OuterRingMean, Some(rs))),
                        }
                    } else {
                        Err(row_err(url, i, string_of("no polygon rings")))
                    }
                },
                None => Err(row_err(url, i, string_of("no polygon rings"))),
            }
        },
        _ => {
            match opt_number_text(opt_get(g, "x")) {
                None => Err(row_err(url, i, string_of("no geometry.x"))),
                Some(x) => match opt_number_text(opt_get(g, "y")) {
                    None => Err(row_err(url, i, string_of("no geometry.y"))),
                    Some(y) => Ok(
                        (
                            Position::Point { lat: string_of(y.as_str()), lon: string_of(x.as_str()) },
                            None,
                        ),
                    ),
                },
            }
        },
    }
}


// ---------------------------------------------------------------------------
// Computing a layer
// ---------------------------------------------------------------------------
pub open spec fn geometry_opt_view(g: Option<Geometry>) -> Option<GeometryView> {
    match g {
        Some(x) => Some(x@),
        None => None,
    }
}

fn entity_prefix_of(kind: LayerKind) -> (r: &'static str)
    ensures
        r@ == entity_prefix(kind),
{
    match kind {
        LayerKind::Building => "pwc/bld/",
        LayerKind::Campus => "pwc/campus/",
        LayerKind::Site => "pwc/site/",
    }
}

fn status_key_of(kind: LayerKind) -> (r: &'static str)
    ensures
        r@ == status_key(kind),
{
    match kind {
        LayerKind::Building => "BuildingStatus",
        LayerKind::Campus => "ProjectStatus",
        LayerKind::Site => "Status",
    }
}

fn record_name_of(kind: LayerKind, attrs: Option<&Json>) -> (r: Option<String>)
    ensures
        crate::fact::opt_text(r) == record_name(kind, or_null(attrs)),
{
    match kind {
        LayerKind::Building => match attr_text_of(attrs, "BuildingName") {
            Some(n) => Some(n),
            None => attr_text_of(attrs, "Address"),
        },
        LayerKind::Campus => match attr_text_of(attrs, "CampusName") {
            Some(n) => Some(n),
            None => attr_text_of(attrs, "CaseName"),
        },
        LayerKind::Site => attr_text_of(attrs, "CaseName"),
    }
}

fn record_published_of(attrs: Option<&Json>, snapshot: Date) -> (r: Date)
    ensures
        r == record_published(or_null(attrs), snapshot),
{
    match opt_int(opt_get(attrs, "LastEditDate")) {
        Some(ms) => Date::from_unix_days(crate::time::day_of_millis(ms)),
        None => snapshot,
    }
}

fn stage_error(url: &String, i: usize, raw: &String) -> (e: Error)
    ensures
        e@ == row_error(
            url@,
            i as int,
            "status "@ + str_debug(raw@)
                + " not in the known vocabulary — verify against the county layer and extend deliberately"@,
        ),
{
    let mut w = string_of("status ");
    let q = debug_text(raw.as_str());
    push_str(&mut w, q.as_str());
    push_str(&mut w, " not in the known vocabulary — verify against the county layer and extend deliberately");
    row_err(url, i, w)
}

/// `kind_claims` computed.
fn kind_claims_of(
    kind: LayerKind,
    attrs: Option<&Json>,
    t: &ClaimTemplate,
    vintage: &String,
    valid_to: Date,
    stage: &str,
    i: usize,
) -> (r: Result<Vec<Claim>, Error>)
    requires
        vintage@ == request_vintage(t.snapshot),
        valid_to == following_day(t.snapshot),
    ensures
        match kind_claims(kind, or_null(attrs), t.model(), stage@, i as int) {
            Ok(cs) => r matches Ok(v) && claims_view(v@) == cs,
            Err(em) => r matches Err(e) && e@ == em,
        },
{
    match kind {
        LayerKind::Building => building_claims_of(attrs, t, vintage, valid_to, stage, i),
        LayerKind::Campus => Ok(campus_claims_of(attrs, t, vintage, valid_to, stage)),
        LayerKind::Site => site_claims_of(attrs, t, vintage, valid_to, stage, i),
    }
}

/// `layer_row` computed: record `i` of a layer.
fn layer_row_of(
    kind: LayerKind,
    row: &Json,
    i: usize,
    snapshot: Date,
    retrieved_at: Timestamp,
    url: &String,
    vintage: &String,
    valid_to: Date,
) -> (r: Result<(Entity, Vec<Claim>, Option<Geometry>), Error>)
    requires
        url@ == layer_url(kind),
        vintage@ == request_vintage(snapshot),
        valid_to == following_day(snapshot),
    ensures
        match layer_row(kind, *row, i as int, snapshot, retrieved_at) {
            Ok(ro) => r matches Ok(x) && x.0@ == ro.entity && claims_view(x.1@) == ro.claims
                && geometry_opt_view(x.2) == ro.geometry,
            Err(em) => r matches Err(e) && e@ == em,
        },
{
    reveal(layer_row);
    let attrs = row.get("attributes");
    let global_id = match need_of(attrs, "GlobalID", i, url) {
        Ok(v) => v,
        Err(e) => {
            return Err(e);
        },
    };
    let gid = record_key_of(&global_id);
    let stage_raw = match need_of(attrs, status_key_of(kind), i, url) {
        Ok(v) => v,
        Err(e) => {
            return Err(e);
        },
    };
    let name = match record_name_of(kind, attrs) {
        Some(n) => n,
        None => {
            return Err(row_err(url, i, string_of("no name or address")));
        },
    };
    let mut entity_id = string_of(entity_prefix_of(kind));
    push_str(&mut entity_id, gid.as_str());
    let (pos, rs) = match position_of(kind, row, i, url) {
        Ok(p) => p,
        Err(e) => {
            return Err(e);
        },
    };
    let stage = match stage_of_kind(kind, stage_raw.as_str()) {
        Some(s) => s,
        None => {
            return Err(stage_error(url, i, &stage_raw));
        },
    };
    let t = ClaimTemplate {
        entity_id: string_of(entity_id.as_str()),
        snapshot,
        gid: string_of(gid.as_str()),
        published_at: record_published_of(attrs, snapshot),
        url: string_of(url.as_str()),
        retrieved_at,
    };
    let cs = match kind_claims_of(kind, attrs, &t, vintage, valid_to, stage, i) {
        Ok(cs) => cs,
        Err(e) => {
            return Err(e);
        },
    };
    let mut claims: Vec<Claim> = Vec::new();
    let c = text_claim_of(&t, vintage, valid_to, "dc:recorded_name", string_of(name.as_str()), string_of(gid.as_str()));
    push_claim(&mut claims, c);
    proof {
        assert(claims_view(claims@) =~= seq![c@]);
    }
    append_claims(&mut claims, cs);
    let level = match kind {
        LayerKind::Building => Level::Facility,
        _ => Level::Campus,
    };
    let entity = Entity {
        entity_id: string_of(entity_id.as_str()),
        name,
        level,
        boundary_year: crate::echo::self_year(snapshot),
        vintage: string_of(vintage.as_str()),
        source_dataset: string_of(DATASET),
        position: pos,
    };
    let geometry = match rs {
        Some(r) => {
            let g = Geometry {
                entity_id,
                vintage: string_of(vintage.as_str()),
                source_dataset: string_of(DATASET),
                rings: r,
                retrieved_at,
            };
            proof {
                assert(g@.rings =~= rings_view(r@));
            }
            Some(g)
        },
        None => None,
    };
    Ok((entity, claims, geometry))
}

/// Once a record fails, the layer fails with that record's error.
proof fn lemma_layer_rows_stop(
    kind: LayerKind,
    rows: Seq<Json>,
    snapshot: Date,
    retrieved_at: Timestamp,
    acc: Output,
    k: int,
    n: int,
)
    requires
        layer_rows(kind, rows, snapshot, retrieved_at, acc, k) is Err,
        k <= n,
    ensures
        layer_rows(kind, rows, snapshot, retrieved_at, acc, n) == layer_rows(
            kind,
            rows,
            snapshot,
            retrieved_at,
            acc,
            k,
        ),
    decreases n - k,
{
    if k < n {
        lemma_layer_rows_stop(kind, rows, snapshot, retrieved_at, acc, k, n - 1);
    }
}

/// The accumulated output held in the three vectors.
pub open spec fn output_of(es: Seq<Entity>, cs: Seq<Claim>, gs: Seq<Geometry>) -> Output {
    Output { entities: entities_view(es), claims: claims_view(cs), geometries: geometries_view(gs) }
}

/// `layer_pass` computed, adding to the three vectors.
fn conform_layer(
    body: &str,
    parsed: &Parsed,
    kind: LayerKind,
    req: &Request,
    retrieved_at: Timestamp,
    entities: &mut Vec<Entity>,
    claims: &mut Vec<Claim>,
    geometries: &mut Vec<Geometry>,
) -> (r: Result<(), Error>)
    requires
        (req.snapshot.day as int) < days_in_month(req.snapshot.year as int, req.snapshot.month as int)
            || req.snapshot.month < 12 || req.snapshot.year < i32::MAX,
    ensures
        match layer_pass(
            kind,
            body@,
            *parsed,
            req.snapshot,
            retrieved_at,
            output_of(old(entities)@, old(claims)@, old(geometries)@),
        ) {
            Ok(o) => r is Ok && output_of(final(entities)@, final(claims)@, final(geometries)@) == o,
            Err(em) => r matches Err(e) && e@ == em && match layer_rows_of(*parsed) {
                None => final(entities)@ == old(entities)@ && final(claims)@ == old(claims)@
                    && final(geometries)@ == old(geometries)@,
                Some(rows) => exists|k: int|
                    0 <= k < rows.len() && #[trigger] layer_rows(
                        kind,
                        rows,
                        req.snapshot,
                        retrieved_at,
                        output_of(old(entities)@, old(claims)@, old(geometries)@),
                        k,
                    ) == Ok::<_, ErrorModel>(
                        output_of(final(entities)@, final(claims)@, final(geometries)@),
                    ),
            },
        },
        old(entities)@.len() <= final(entities)@.len(),
        final(entities)@.subrange(0, old(entities)@.len() as int) == old(entities)@,
        old(claims)@.len() <= final(claims)@.len(),
        final(claims)@.subrange(0, old(claims)@.len() as int) == old(claims)@,
        old(geometries)@.len() <= final(geometries)@.len(),
        final(geometries)@.subrange(0, old(geometries)@.len() as int) == old(geometries)@,
{
    let ghost acc = output_of(entities@, claims@, geometries@);
    let url = match kind {
        LayerKind::Building => req.buildings_url(),
        LayerKind::Campus => req.campuses_url(),
        LayerKind::Site => req.sites_url(),
    };
    let value = match parsed {
        Parsed::Invalid(msg) => {
            return Err(
                Error::NotJson { url, detail: string_of(msg.as_str()), body_head: head(body) },
            );
        },
        Parsed::Value(v) => v,
    };
    match opt_str(opt_get(value.get("error"), "message")) {
        Some(msg) => {
            let mut d = string_of("ArcGIS error: ");
            push_str(&mut d, msg.as_str());
            return Err(Error::BadResponseShape { url, detail: d });
        },
        None => {},
    }
    let rows = match opt_array(value.get("features")) {
        Some(rows) => rows,
        None => {
            return Err(Error::BadResponseShape { url, detail: string_of("no features array") });
        },
    };
    if rows.len() == 0 {
        return Err(Error::BadResponseShape { url, detail: string_of("zero features returned") });
    }
    let valid_to = req.snapshot.next_day();
    let vintage = req.vintage();
    let mut i: usize = 0;
    proof {
        assert(layer_pass(kind, body@, *parsed, req.snapshot, retrieved_at, acc) == layer_rows(
            kind,
            rows@,
            req.snapshot,
            retrieved_at,
            acc,
            rows@.len() as int,
        ));
    }
    while i < rows.len()
        invariant
            i <= rows@.len(),
            layer_pass(kind, body@, *parsed, req.snapshot, retrieved_at, acc) == layer_rows(
                kind,
                rows@,
                req.snapshot,
                retrieved_at,
                acc,
                rows@.len() as int,
            ),
            acc == output_of(old(entities)@, old(claims)@, old(geometries)@),
            layer_rows_of(*parsed) == Some(rows@),
            url@ == layer_url(kind),
            vintage@ == request_vintage(req.snapshot),
            valid_to == following_day(req.snapshot),
            layer_rows(kind, rows@, req.snapshot, retrieved_at, acc, i as int) == Ok::<
                _,
                ErrorModel,
            >(output_of(entities@, claims@, geometries@)),
            old(entities)@.len() <= entities@.len(),
            entities@.subrange(0, old(entities)@.len() as int) == old(entities)@,
            old(claims)@.len() <= claims@.len(),
            claims@.subrange(0, old(claims)@.len() as int) == old(claims)@,
            old(geometries)@.len() <= geometries@.len(),
            geometries@.subrange(0, old(geometries)@.len() as int) == old(geometries)@,
        decreases rows.len() - i,
    {
        match layer_row_of(kind, &rows[i], i, req.snapshot, retrieved_at, &url, &vintage, valid_to) {
            Err(e) => {
                proof {
                    assert(layer_rows(kind, rows@, req.snapshot, retrieved_at, acc, i + 1) == Err::<
                        Output,
                        ErrorModel,
                    >(e@));
                    assert(layer_rows(kind, rows@, req.snapshot, retrieved_at, acc, i as int) == Ok::<
                        _,
                        ErrorModel,
                    >(output_of(entities@, claims@, geometries@)));
                    lemma_layer_rows_stop(
                        kind,
                        rows@,
                        req.snapshot,
                        retrieved_at,
                        acc,
                        (i + 1) as int,
                        rows@.len() as int,
                    );
                }
                return Err(e);
            },
            Ok((entity, rc, geometry)) => {
                let ghost before = output_of(entities@, claims@, geometries@);
                let ghost ev = entity@;
                let ghost rcv = claims_view(rc@);
                let ghost gv = geometry_opt_view(geometry);
                entities.push(entity);
                let mut rc = rc;
                claims.append(&mut rc);
                match geometry {
                    Some(g) => {
                        geometries.push(g);
                    },
                    None => {},
                }
                proof {
                    assert(entities_view(entities@) =~= before.entities.push(ev));
                    assert(claims_view(claims@) =~= before.claims + rcv);
                    match gv {
                        Some(x) => {
                            assert(geometries_view(geometries@) =~= before.geometries.push(x));
                        },
                        None => {
                            assert(geometries_view(geometries@) =~= before.geometries);
                        },
                    }
                }
            },
        }
        i = i + 1;
    }
    Ok(())
}

/// What a county conform pass produces.
#[derive(Debug)]
pub struct Conformed {
    pub entities: Vec<Entity>,
    pub claims: Vec<Claim>,
    pub geometries: Vec<Geometry>,
}

/// Pure conformance over the three layers' query response bodies, each
/// parsed as JSON first.
pub fn conform(
    buildings_body: &str,
    campuses_body: &str,
    sites_body: &str,
    req: &Request,
    retrieved_at: Timestamp,
) -> (r: Result<Conformed, Error>)
    requires
        (req.snapshot.day as int) < days_in_month(req.snapshot.year as int, req.snapshot.month as int)
            || req.snapshot.month < 12 || req.snapshot.year < i32::MAX,
    ensures
        match conform_spec(
            (buildings_body@, json_of(buildings_body@)),
            (campuses_body@, json_of(campuses_body@)),
            (sites_body@, json_of(sites_body@)),
            req.snapshot,
            retrieved_at,
        ) {
            Ok(o) => r matches Ok(c) && output_of(c.entities@, c.claims@, c.geometries@) == o,
            Err(em) => r matches Err(e) && e@ == em,
        },
{
    let buildings = parse_json(buildings_body);
    let campuses = parse_json(campuses_body);
    let sites = parse_json(sites_body);
    conform_parsed(
        buildings_body,
        &buildings,
        campuses_body,
        &campuses,
        sites_body,
        &sites,
        req,
        retrieved_at,
    )
}

/// Pure conformance over the three layers' query responses, each given as
/// its body and what the JSON parser made of it.
pub fn conform_parsed(
    buildings_body: &str,
    buildings: &Parsed,
    campuses_body: &str,
    campuses: &Parsed,
    sites_body: &str,
    sites: &Parsed,
    req: &Request,
    retrieved_at: Timestamp,
) -> (r: Result<Conformed, Error>)
    requires
        (req.snapshot.day as int) < days_in_month(req.snapshot.year as int, req.snapshot.month as int)
            || req.snapshot.month < 12 || req.snapshot.year < i32::MAX,
        parsed_wf(*buildings),
        parsed_wf(*campuses),
        parsed_wf(*sites),
    ensures
        match conform_spec(
            (buildings_body@, *buildings),
            (campuses_body@, *campuses),
            (sites_body@, *sites),
            req.snapshot,
            retrieved_at,
        ) {
            Ok(o) => r matches Ok(c) && output_of(c.entities@, c.claims@, c.geometries@) == o,
            Err(em) => r matches Err(e) && e@ == em,
        },
{
    let mut entities: Vec<Entity> = Vec::new();
    let mut claims: Vec<Claim> = Vec::new();
    let mut geometries: Vec<Geometry> = Vec::new();
    proof {
        assert(entities_view(entities@) =~= Seq::<EntityView>::empty());
        assert(claims_view(claims@) =~= Seq::<ClaimView>::empty());
        assert(geometries_view(geometries@) =~= Seq::<GeometryView>::empty());
    }
    match conform_layer(
        buildings_body,
        buildings,
        LayerKind::Building,
        req,
        retrieved_at,
        &mut entities,
        &mut claims,
        &mut geometries,
    ) {
        Err(e) => {
            return Err(e);
        },
        Ok(()) => {},
    }
    match conform_layer(
        campuses_body,
        campuses,
        LayerKind::Campus,
        req,
        retrieved_at,
        &mut entities,
        &mut claims,
        &mut geometries,
    ) {
        Err(e) => {
            return Err(e);
        },
        Ok(()) => {},
    }
    match conform_layer(
        sites_body,
        sites,
        LayerKind::Site,
        req,
        retrieved_at,
        &mut entities,
        &mut claims,
        &mut geometries,
    ) {
        Err(e) => {
            return Err(e);
        },
        Ok(()) => {},
    }
    match ensure_unique_claim_keys(claims.as_slice()) {
        Err(e) => {
            return Err(e);
        },
        Ok(()) => {},
    }
    Ok(Conformed { entities, claims, geometries })
}


// ---------------------------------------------------------------------------
// Laws
// ---------------------------------------------------------------------------
/// A captured polygon: at least one ring, and every ring at least three
/// vertices.
pub open spec fn polygon_ok(rs: Seq<Seq<(Seq<char>, Seq<char>)>>) -> bool {
    rs.len() > 0 && forall|k: int| 0 <= k < rs.len() ==> #[trigger] rs[k].len() >= 3
}

/// What every pass output keeps: every claim carries exactly one value and
/// names its asserting record (never `<Null>`), every entity is located, and every geometry is a campus's validated
/// polygon.
pub open spec fn output_located(o: Output) -> bool {
    &&& all_one_value(o.claims)
    &&& all_records_named(o.claims)
    &&& forall|k: int| 0 <= k < o.entities.len() ==> !(#[trigger] o.entities[k].position is Unknown)
    &&& forall|k: int|
        0 <= k < o.geometries.len() ==> #[trigger] o.geometries[k].entity_id.len() >= 11
            && o.geometries[k].entity_id.subrange(0, 11) == "pwc/campus/"@ && polygon_ok(
            o.geometries[k].rings,
        )
}

proof fn lemma_vertices_len(vs: Seq<Json>, i: int, url: Seq<char>, n: int)
    requires
        n >= 0,
    ensures
        vertices(vs, i, url, n) matches Ok(out) ==> out.len() == n,
    decreases n,
{
    if n > 0 {
        lemma_vertices_len(vs, i, url, n - 1);
    }
}

proof fn lemma_rings_ok(raw: Seq<Json>, i: int, url: Seq<char>, n: int)
    requires
        n >= 0,
    ensures
        rings(raw, i, url, n) matches Ok(rs) ==> rs.len() == n && forall|k: int|
            0 <= k < rs.len() ==> #[trigger] rs[k].len() >= 3,
    decreases n,
{
    if n > 0 {
        lemma_rings_ok(raw, i, url, n - 1);
        match array_of(raw[n - 1]) {
            Some(vs) => {
                lemma_vertices_len(vs, i, url, vs.len() as int);
            },
            None => {},
        }
    }
}

broadcast proof fn lemma_opt_text_claim_one(t: Template, attribute: Seq<char>, v: Option<Seq<char>>)
    ensures
        all_one_value(#[trigger] opt_text_claim(t, attribute, v)),
{
}

broadcast proof fn lemma_opt_num_claim_one(
    t: Template,
    attribute: Seq<char>,
    v: Option<Seq<char>>,
    unit: Seq<char>,
)
    ensures
        all_one_value(#[trigger] opt_num_claim(t, attribute, v, unit)),
{
}

broadcast proof fn lemma_opt_date_claim_one(
    t: Template,
    attribute: Seq<char>,
    ms: Option<i64>,
    source_record: Seq<char>,
)
    ensures
        all_one_value(#[trigger] opt_date_claim(t, attribute, ms, source_record)),
{
}

proof fn lemma_building_claims_one_value(attrs: Json, t: Template, stage: Seq<char>, i: int)
    ensures
        building_claims(attrs, t, stage, i) matches Ok(cs) ==> all_one_value(cs),
{
    broadcast use {
        lemma_all_one_value_concat,
        lemma_opt_text_claim_one,
        lemma_opt_num_claim_one,
        lemma_opt_date_claim_one,
    };

    assert(all_one_value(seq![text_claim(t, "dc:stage"@, stage, t.gid)]));
    match permit_claims(attrs, t, i) {
        Ok(p) => {
            assert(all_one_value(p));
            match attr_num(attrs, "GFA"@) {
                Some(g) => {
                    assert(all_one_value(seq![num_claim(t, "dc:gfa_sqft"@, g, "sqft"@, gfa_stated_by(attrs))]));
                },
                None => {
                    assert(all_one_value(Seq::<ClaimView>::empty()));
                },
            }
        },
        Err(_) => {},
    }
}

proof fn lemma_site_claims_one_value(attrs: Json, t: Template, stage: Seq<char>, i: int)
    ensures
        site_claims(attrs, t, stage, i) matches Ok(cs) ==> all_one_value(cs),
{
    broadcast use {
        lemma_all_one_value_concat,
        lemma_opt_text_claim_one,
        lemma_opt_num_claim_one,
        lemma_opt_date_claim_one,
    };

    match site_claims(attrs, t, stage, i) {
        Ok(cs) => {
            let case = need(attrs, "ZoningCaseNumber"@, i, t.url)->Ok_0;
            let at_token = app_type(need(attrs, "AppType"@, i, t.url)->Ok_0)->0;
            let wc_token = workclass(need(attrs, "Workclass"@, i, t.url)->Ok_0)->0;
            assert(all_one_value(
                seq![
                    text_claim(t, "dc:zoning_status"@, stage, case),
                    text_claim(t, "dc:application_type"@, at_token, case),
                    text_claim(t, "dc:application_workclass"@, wc_token, case),
                ],
            ));
            assert(all_one_value(seq![text_claim(t, "dc:zoning_case"@, case, t.gid)]));
        },
        Err(_) => {},
    }
}

proof fn lemma_kind_claims_one_value(kind: LayerKind, attrs: Json, t: Template, stage: Seq<char>, i: int)
    ensures
        kind_claims(kind, attrs, t, stage, i) matches Ok(cs) ==> all_one_value(cs),
{
    broadcast use {
        lemma_all_one_value_concat,
        lemma_opt_text_claim_one,
        lemma_opt_num_claim_one,
    };

    match kind {
        LayerKind::Building => lemma_building_claims_one_value(attrs, t, stage, i),
        LayerKind::Campus => {
            assert(all_one_value(seq![text_claim(t, "dc:stage"@, stage, t.gid)]));
        },
        LayerKind::Site => lemma_site_claims_one_value(attrs, t, stage, i),
    }
}

proof fn lemma_layer_row_one_value(
    kind: LayerKind,
    row: Json,
    i: int,
    snapshot: Date,
    retrieved_at: Timestamp,
)
    ensures
        layer_row(kind, row, i, snapshot, retrieved_at) matches Ok(ro) ==> all_one_value(ro.claims),
{
    reveal(layer_row);
    let url = layer_url(kind);
    let attrs = get(row, "attributes"@);
    match (need(attrs, "GlobalID"@, i, url), need(attrs, status_key(kind), i, url)) {
        (Ok(global_id), Ok(stage_raw)) => match (record_name(kind, attrs), stage_of(kind, stage_raw)) {
            (Some(name), Some(stage)) => {
                let gid = record_key(global_id);
                let t = Template {
                    entity_id: entity_prefix(kind) + gid,
                    snapshot,
                    gid,
                    published_at: record_published(attrs, snapshot),
                    url,
                    retrieved_at,
                };
                lemma_kind_claims_one_value(kind, attrs, t, stage, i);
                let head = seq![text_claim(t, "dc:recorded_name"@, name, gid)];
                assert(all_one_value(head));
                match kind_claims(kind, attrs, t, stage, i) {
                    Ok(cs) => {
                        lemma_all_one_value_concat(head, cs);
                    },
                    Err(_) => {},
                }
            },
            _ => {},
        },
        _ => {},
    }
}

/// A claim's asserting record is never the `<Null>` ArcGIS writes for a
/// missing value.
pub open spec fn record_named(c: ClaimView) -> bool {
    c.source_record != "<Null>"@
}

pub open spec fn all_records_named(cs: Seq<ClaimView>) -> bool {
    forall|k: int| 0 <= k < cs.len() ==> #[trigger] record_named(cs[k])
}

broadcast proof fn lemma_all_records_named_concat(a: Seq<ClaimView>, b: Seq<ClaimView>)
    requires
        all_records_named(a),
        all_records_named(b),
    ensures
        #[trigger] all_records_named(a + b),
{
    assert forall|k: int| 0 <= k < (a + b).len() implies #[trigger] record_named((a + b)[k]) by {
        if k < a.len() {
            assert(record_named(a[k]));
        } else {
            assert(record_named(b[k - a.len()]));
        }
    }
}

/// A record key is lower case, so it is never `<Null>`.
proof fn lemma_record_key_not_null(g: Seq<char>)
    ensures
        record_key(g) != "<Null>"@,
{
    reveal_strlit("<Null>");
    let inner = strip_braces_end(strip_braces_start(g));
    let r = record_key(g);
    assert(r == ascii_lowercase(inner));
    assert(r.len() == inner.len());
    if r.len() == 6 {
        assert(r[2] == crate::number::ascii_lower(inner[2]));
        assert(r[2] != 'N');
        assert("<Null>"@ =~= seq!['<', 'N', 'u', 'l', 'l', '>']);
    }
}

broadcast proof fn lemma_opt_text_claim_named(t: Template, attribute: Seq<char>, v: Option<Seq<char>>)
    requires
        t.gid != "<Null>"@,
    ensures
        all_records_named(#[trigger] opt_text_claim(t, attribute, v)),
{
}

broadcast proof fn lemma_opt_num_claim_named(
    t: Template,
    attribute: Seq<char>,
    v: Option<Seq<char>>,
    unit: Seq<char>,
)
    requires
        t.gid != "<Null>"@,
    ensures
        all_records_named(#[trigger] opt_num_claim(t, attribute, v, unit)),
{
}

broadcast proof fn lemma_opt_date_claim_named(
    t: Template,
    attribute: Seq<char>,
    ms: Option<i64>,
    source_record: Seq<char>,
)
    requires
        source_record != "<Null>"@,
    ensures
        all_records_named(#[trigger] opt_date_claim(t, attribute, ms, source_record)),
{
}

proof fn lemma_kind_claims_named(kind: LayerKind, attrs: Json, t: Template, stage: Seq<char>, i: int)
    requires
        t.gid != "<Null>"@,
    ensures
        kind_claims(kind, attrs, t, stage, i) matches Ok(cs) ==> all_records_named(cs),
{
    broadcast use {
        lemma_all_records_named_concat,
        lemma_opt_text_claim_named,
        lemma_opt_num_claim_named,
        lemma_opt_date_claim_named,
    };

    assert(all_records_named(seq![text_claim(t, "dc:stage"@, stage, t.gid)]));
    match kind {
        LayerKind::Building => {
            match permit_claims(attrs, t, i) {
                Ok(p) => {
                    assert(all_records_named(p));
                    match attr_num(attrs, "GFA"@) {
                        Some(g) => {
                            assert(all_records_named(
                                seq![num_claim(t, "dc:gfa_sqft"@, g, "sqft"@, gfa_stated_by(attrs))],
                            ));
                        },
                        None => {
                            assert(all_records_named(Seq::<ClaimView>::empty()));
                        },
                    }
                },
                Err(_) => {},
            }
        },
        LayerKind::Campus => {},
        LayerKind::Site => {
            match site_claims(attrs, t, stage, i) {
                Ok(cs) => {
                    let case = need(attrs, "ZoningCaseNumber"@, i, t.url)->Ok_0;
                    let at_token = app_type(need(attrs, "AppType"@, i, t.url)->Ok_0)->0;
                    let wc_token = workclass(need(attrs, "Workclass"@, i, t.url)->Ok_0)->0;
                    assert(case != "<Null>"@);
                    assert(all_records_named(
                        seq![
                            text_claim(t, "dc:zoning_status"@, stage, case),
                            text_claim(t, "dc:application_type"@, at_token, case),
                            text_claim(t, "dc:application_workclass"@, wc_token, case),
                        ],
                    ));
                    assert(all_records_named(seq![text_claim(t, "dc:zoning_case"@, case, t.gid)]));
                },
                Err(_) => {},
            }
        },
    }
}

proof fn lemma_layer_row_named(
    kind: LayerKind,
    row: Json,
    i: int,
    snapshot: Date,
    retrieved_at: Timestamp,
)
    ensures
        layer_row(kind, row, i, snapshot, retrieved_at) matches Ok(ro) ==> all_records_named(ro.claims),
{
    reveal(layer_row);
    let url = layer_url(kind);
    let attrs = get(row, "attributes"@);
    match (need(attrs, "GlobalID"@, i, url), need(attrs, status_key(kind), i, url)) {
        (Ok(global_id), Ok(stage_raw)) => match (record_name(kind, attrs), stage_of(kind, stage_raw)) {
            (Some(name), Some(stage)) => {
                let gid = record_key(global_id);
                lemma_record_key_not_null(global_id);
                let t = Template {
                    entity_id: entity_prefix(kind) + gid,
                    snapshot,
                    gid,
                    published_at: record_published(attrs, snapshot),
                    url,
                    retrieved_at,
                };
                lemma_kind_claims_named(kind, attrs, t, stage, i);
                let head = seq![text_claim(t, "dc:recorded_name"@, name, gid)];
                assert(all_records_named(head));
                match kind_claims(kind, attrs, t, stage, i) {
                    Ok(cs) => {
                        lemma_all_records_named_concat(head, cs);
                    },
                    Err(_) => {},
                }
            },
            _ => {},
        },
        _ => {},
    }
}

proof fn lemma_layer_row_located(
    kind: LayerKind,
    row: Json,
    i: int,
    snapshot: Date,
    retrieved_at: Timestamp,
)
    ensures
        layer_row(kind, row, i, snapshot, retrieved_at) matches Ok(ro) ==> !(ro.entity.position is Unknown)
            && (ro.geometry is Some <==> kind == LayerKind::Campus) && (ro.geometry matches Some(g)
            ==> g.entity_id.len() >= 11 && g.entity_id.subrange(0, 11) == "pwc/campus/"@ && polygon_ok(
            g.rings,
        )),
{
    reveal(layer_row);
    reveal_strlit("pwc/campus/");
    let g = get(row, "geometry"@);
    match array_of(get(g, "rings"@)) {
        Some(raw) => {
            lemma_rings_ok(raw, i, layer_url(kind), raw.len() as int);
        },
        None => {},
    }
    match layer_row(kind, row, i, snapshot, retrieved_at) {
        Ok(ro) => {
            match ro.geometry {
                Some(gv) => {
                    assert(kind == LayerKind::Campus);
                    assert(gv.entity_id.subrange(0, 11) =~= "pwc/campus/"@);
                },
                None => {},
            }
        },
        Err(_) => {},
    }
}

proof fn lemma_layer_rows_located(
    kind: LayerKind,
    rows: Seq<Json>,
    snapshot: Date,
    retrieved_at: Timestamp,
    acc: Output,
    n: int,
)
    requires
        output_located(acc),
    ensures
        layer_rows(kind, rows, snapshot, retrieved_at, acc, n) matches Ok(o) ==> output_located(o),
    decreases n,
{
    if n > 0 {
        lemma_layer_rows_located(kind, rows, snapshot, retrieved_at, acc, n - 1);
        lemma_layer_row_located(kind, rows[n - 1], n - 1, snapshot, retrieved_at);
        lemma_layer_row_one_value(kind, rows[n - 1], n - 1, snapshot, retrieved_at);
        lemma_layer_row_named(kind, rows[n - 1], n - 1, snapshot, retrieved_at);
        match layer_rows(kind, rows, snapshot, retrieved_at, acc, n - 1) {
            Ok(o) => match layer_row(kind, rows[n - 1], n - 1, snapshot, retrieved_at) {
                Ok(r) => {
                    let o2 = add_row(o, r);
                    lemma_all_one_value_concat(o.claims, r.claims);
                    lemma_all_records_named_concat(o.claims, r.claims);
                    assert forall|k: int| 0 <= k < o2.entities.len() implies !(
                    #[trigger] o2.entities[k].position is Unknown) by {
                        if k < o.entities.len() {
                            assert(o2.entities[k] == o.entities[k]);
                        }
                    }
                    assert forall|k: int| 0 <= k < o2.geometries.len() implies #[trigger] o2.geometries[k].entity_id.len()
                        >= 11 && o2.geometries[k].entity_id.subrange(0, 11) == "pwc/campus/"@
                        && polygon_ok(o2.geometries[k].rings) by {
                        if k < o.geometries.len() {
                            assert(o2.geometries[k] == o.geometries[k]);
                        }
                    }
                },
                Err(_) => {},
            },
            Err(_) => {},
        }
    }
}

/// The number of features of a layer's parsed response.
pub open spec fn feature_count(parsed: Parsed) -> int {
    match parsed {
        Parsed::Value(value) => match array_of(get(value, "features"@)) {
            Some(rows) => rows.len() as int,
            None => 0,
        },
        Parsed::Invalid(_) => 0,
    }
}

proof fn lemma_layer_rows_counts(
    kind: LayerKind,
    rows: Seq<Json>,
    snapshot: Date,
    retrieved_at: Timestamp,
    acc: Output,
    n: int,
)
    requires
        n >= 0,
    ensures
        layer_rows(kind, rows, snapshot, retrieved_at, acc, n) matches Ok(o) ==> o.entities.len()
            == acc.entities.len() + n && o.geometries.len() == acc.geometries.len() + (if kind
            == LayerKind::Campus {
            n
        } else {
            0
        }),
    decreases n,
{
    if n > 0 {
        lemma_layer_rows_counts(kind, rows, snapshot, retrieved_at, acc, n - 1);
        lemma_layer_row_located(kind, rows[n - 1], n - 1, snapshot, retrieved_at);
    }
}

proof fn lemma_layer_pass_counts(
    kind: LayerKind,
    body: Seq<char>,
    parsed: Parsed,
    snapshot: Date,
    retrieved_at: Timestamp,
    acc: Output,
)
    ensures
        layer_pass(kind, body, parsed, snapshot, retrieved_at, acc) matches Ok(o) ==> o.entities.len()
            == acc.entities.len() + feature_count(parsed) && o.geometries.len() == acc.geometries.len()
            + (if kind == LayerKind::Campus {
            feature_count(parsed)
        } else {
            0
        }),
{
    match parsed {
        Parsed::Value(value) => match array_of(get(value, "features"@)) {
            Some(rows) => {
                lemma_layer_rows_counts(kind, rows, snapshot, retrieved_at, acc, rows.len() as int);
            },
            None => {},
        },
        Parsed::Invalid(_) => {},
    }
}

/// A successful county pass yields one entity per feature of the three
/// layers, and one captured polygon per campus and none for the point
/// layers.
pub proof fn lemma_conform_counts(
    buildings: (Seq<char>, Parsed),
    campuses: (Seq<char>, Parsed),
    sites: (Seq<char>, Parsed),
    snapshot: Date,
    retrieved_at: Timestamp,
)
    ensures
        conform_spec(buildings, campuses, sites, snapshot, retrieved_at) matches Ok(o)
            ==> o.entities.len() == feature_count(buildings.1) + feature_count(campuses.1)
            + feature_count(sites.1) && o.geometries.len() == feature_count(campuses.1),
{
    let empty = Output { entities: Seq::empty(), claims: Seq::empty(), geometries: Seq::empty() };
    lemma_layer_pass_counts(LayerKind::Building, buildings.0, buildings.1, snapshot, retrieved_at, empty);
    match layer_pass(LayerKind::Building, buildings.0, buildings.1, snapshot, retrieved_at, empty) {
        Ok(o1) => {
            lemma_layer_pass_counts(LayerKind::Campus, campuses.0, campuses.1, snapshot, retrieved_at, o1);
            match layer_pass(LayerKind::Campus, campuses.0, campuses.1, snapshot, retrieved_at, o1) {
                Ok(o2) => {
                    lemma_layer_pass_counts(LayerKind::Site, sites.0, sites.1, snapshot, retrieved_at, o2);
                },
                Err(_) => {},
            }
        },
        Err(_) => {},
    }
}

proof fn lemma_layer_pass_located(
    kind: LayerKind,
    body: Seq<char>,
    parsed: Parsed,
    snapshot: Date,
    retrieved_at: Timestamp,
    acc: Output,
)
    requires
        output_located(acc),
    ensures
        layer_pass(kind, body, parsed, snapshot, retrieved_at, acc) matches Ok(o) ==> output_located(o),
{
    match parsed {
        Parsed::Value(value) => match array_of(get(value, "features"@)) {
            Some(rows) => {
                lemma_layer_rows_located(kind, rows, snapshot, retrieved_at, acc, rows.len() as int);
            },
            None => {},
        },
        Parsed::Invalid(_) => {},
    }
}

/// A successful county pass: no claim key repeats, every claim carries
/// exactly one value and names its asserting record, every entity is located, and every captured geometry is a campus polygon of at least
/// one ring, each ring at least three vertices.
pub proof fn lemma_conform_output(
    buildings: (Seq<char>, Parsed),
    campuses: (Seq<char>, Parsed),
    sites: (Seq<char>, Parsed),
    snapshot: Date,
    retrieved_at: Timestamp,
)
    ensures
        conform_spec(buildings, campuses, sites, snapshot, retrieved_at) matches Ok(o)
            ==> keys_unique(claim_keys(o.claims)) && output_located(o),
{
    let empty = Output { entities: Seq::empty(), claims: Seq::empty(), geometries: Seq::empty() };
    lemma_layer_pass_located(LayerKind::Building, buildings.0, buildings.1, snapshot, retrieved_at, empty);
    match layer_pass(LayerKind::Building, buildings.0, buildings.1, snapshot, retrieved_at, empty) {
        Ok(o1) => {
            lemma_layer_pass_located(LayerKind::Campus, campuses.0, campuses.1, snapshot, retrieved_at, o1);
            match layer_pass(LayerKind::Campus, campuses.0, campuses.1, snapshot, retrieved_at, o1) {
                Ok(o2) => {
                    lemma_layer_pass_located(LayerKind::Site, sites.0, sites.1, snapshot, retrieved_at, o2);
                },
                Err(_) => {},
            }
        },
        Err(_) => {},
    }
}


// ---------------------------------------------------------------------------
// The vocabularies
// ---------------------------------------------------------------------------
/// The county's building statuses each have a token, and the token is the
/// label itself in token form (lower case, `_` for space and hyphen);
/// distinct labels give distinct tokens, and any other label has none.
pub proof fn lemma_building_stage_tokens(raw: Seq<char>, other: Seq<char>)
    ensures
        building_stage(raw) is Some <==> (raw == "Completed"@ || raw == "Under Construction"@ || raw == "Pending"@ || raw == "Planned"@),
        building_stage(raw) is Some ==> building_stage(raw) == Some(token_form(raw)),
        building_stage(raw) is Some && building_stage(other) == building_stage(raw) ==> other == raw,
{
    reveal_strlit("Completed");
    reveal_strlit("completed");
    reveal_strlit("Under Construction");
    reveal_strlit("under_construction");
    reveal_strlit("Pending");
    reveal_strlit("pending");
    reveal_strlit("Planned");
    reveal_strlit("planned");
    assert("completed"@.len() != "under_construction"@.len());
    assert("completed"@.len() != "pending"@.len());
    assert("completed"@.len() != "planned"@.len());
    assert("under_construction"@.len() != "pending"@.len());
    assert("under_construction"@.len() != "planned"@.len());
    assert("pending"@[1] != "planned"@[1]);
    if raw == "Completed"@ {
        assert(token_form(raw) =~= "completed"@);
    } else if raw == "Under Construction"@ {
        assert(token_form(raw) =~= "under_construction"@);
    } else if raw == "Pending"@ {
        assert(token_form(raw) =~= "pending"@);
    } else if raw == "Planned"@ {
        assert(token_form(raw) =~= "planned"@);
    }
}

/// The county's permit statuses each have a token, and the token is the
/// label itself in token form (lower case, `_` for space and hyphen);
/// distinct labels give distinct tokens, and any other label has none.
pub proof fn lemma_permit_status_tokens(raw: Seq<char>, other: Seq<char>)
    ensures
        permit_status(raw) is Some <==> (raw == "Finaled"@ || raw == "Issued"@ || raw == "Pending"@ || raw == "Planned"@),
        permit_status(raw) is Some ==> permit_status(raw) == Some(token_form(raw)),
        permit_status(raw) is Some && permit_status(other) == permit_status(raw) ==> other == raw,
{
    reveal_strlit("Finaled");
    reveal_strlit("finaled");
    reveal_strlit("Issued");
    reveal_strlit("issued");
    reveal_strlit("Pending");
    reveal_strlit("pending");
    reveal_strlit("Planned");
    reveal_strlit("planned");
    assert("finaled"@.len() != "issued"@.len());
    assert("finaled"@[0] != "pending"@[0]);
    assert("finaled"@[0] != "planned"@[0]);
    assert("issued"@.len() != "pending"@.len());
    assert("issued"@.len() != "planned"@.len());
    assert("pending"@[1] != "planned"@[1]);
    if raw == "Finaled"@ {
        assert(token_form(raw) =~= "finaled"@);
    } else if raw == "Issued"@ {
        assert(token_form(raw) =~= "issued"@);
    } else if raw == "Pending"@ {
        assert(token_form(raw) =~= "pending"@);
    } else if raw == "Planned"@ {
        assert(token_form(raw) =~= "planned"@);
    }
}

/// The county's campus project statuses each have a token, and the token is
/// the label itself in token form (lower case, `_` for space and hyphen);
/// distinct labels give distinct tokens, and any other label has none.
pub proof fn lemma_campus_stage_tokens(raw: Seq<char>, other: Seq<char>)
    ensures
        campus_stage(raw) is Some <==> (raw == "Completed"@ || raw == "Pending"@ || raw == "Planned"@),
        campus_stage(raw) is Some ==> campus_stage(raw) == Some(token_form(raw)),
        campus_stage(raw) is Some && campus_stage(other) == campus_stage(raw) ==> other == raw,
{
    reveal_strlit("Completed");
    reveal_strlit("completed");
    reveal_strlit("Pending");
    reveal_strlit("pending");
    reveal_strlit("Planned");
    reveal_strlit("planned");
    assert("completed"@.len() != "pending"@.len());
    assert("completed"@.len() != "planned"@.len());
    assert("pending"@[1] != "planned"@[1]);
    if raw == "Completed"@ {
        assert(token_form(raw) =~= "completed"@);
    } else if raw == "Pending"@ {
        assert(token_form(raw) =~= "pending"@);
    } else if raw == "Planned"@ {
        assert(token_form(raw) =~= "planned"@);
    }
}

/// The county's zoning application statuses each have a token, and the
/// token is the label itself in token form (lower case, `_` for space and
/// hyphen); distinct labels give distinct tokens, and any other label has
/// none.
pub proof fn lemma_site_status_tokens(raw: Seq<char>, other: Seq<char>)
    ensures
        site_status(raw) is Some <==> (raw == "Approved"@ || raw == "Pending"@ || raw == "By-Right"@),
        site_status(raw) is Some ==> site_status(raw) == Some(token_form(raw)),
        site_status(raw) is Some && site_status(other) == site_status(raw) ==> other == raw,
{
    reveal_strlit("Approved");
    reveal_strlit("approved");
    reveal_strlit("Pending");
    reveal_strlit("pending");
    reveal_strlit("By-Right");
    reveal_strlit("by_right");
    assert("approved"@.len() != "pending"@.len());
    assert("approved"@[0] != "by_right"@[0]);
    assert("pending"@.len() != "by_right"@.len());
    if raw == "Approved"@ {
        assert(token_form(raw) =~= "approved"@);
    } else if raw == "Pending"@ {
        assert(token_form(raw) =~= "pending"@);
    } else if raw == "By-Right"@ {
        assert(token_form(raw) =~= "by_right"@);
    }
}

/// The county's zoning application types each have a token, and the token
/// is the label itself in token form (lower case, `_` for space and
/// hyphen); distinct labels give distinct tokens, and any other label has
/// none.
pub proof fn lemma_app_type_tokens(raw: Seq<char>, other: Seq<char>)
    ensures
        app_type(raw) is Some <==> (raw == "Rezoning"@ || raw == "Special Use"@ || raw == "By-Right"@),
        app_type(raw) is Some ==> app_type(raw) == Some(token_form(raw)),
        app_type(raw) is Some && app_type(other) == app_type(raw) ==> other == raw,
{
    reveal_strlit("Rezoning");
    reveal_strlit("rezoning");
    reveal_strlit("Special Use");
    reveal_strlit("special_use");
    reveal_strlit("By-Right");
    reveal_strlit("by_right");
    assert("rezoning"@.len() != "special_use"@.len());
    assert("rezoning"@[0] != "by_right"@[0]);
    assert("special_use"@.len() != "by_right"@.len());
    if raw == "Rezoning"@ {
        assert(token_form(raw) =~= "rezoning"@);
    } else if raw == "Special Use"@ {
        assert(token_form(raw) =~= "special_use"@);
    } else if raw == "By-Right"@ {
        assert(token_form(raw) =~= "by_right"@);
    }
}

/// The county's application workclasses each have a token, and the token is
/// the label itself in token form (lower case, `_` for space and hyphen);
/// distinct labels give distinct tokens, and any other label has none.
pub proof fn lemma_workclass_tokens(raw: Seq<char>, other: Seq<char>)
    ensures
        workclass(raw) is Some <==> (raw == "Proffer Amendment"@ || raw == "Non-Residential"@ || raw == "Mixed Use"@ || raw == "Special Use"@ || raw == "By-Right"@),
        workclass(raw) is Some ==> workclass(raw) == Some(token_form(raw)),
        workclass(raw) is Some && workclass(other) == workclass(raw) ==> other == raw,
{
    reveal_strlit("Proffer Amendment");
    reveal_strlit("proffer_amendment");
    reveal_strlit("Non-Residential");
    reveal_strlit("non_residential");
    reveal_strlit("Mixed Use");
    reveal_strlit("mixed_use");
    reveal_strlit("Special Use");
    reveal_strlit("special_use");
    reveal_strlit("By-Right");
    reveal_strlit("by_right");
    assert("proffer_amendment"@.len() != "non_residential"@.len());
    assert("proffer_amendment"@.len() != "mixed_use"@.len());
    assert("proffer_amendment"@.len() != "special_use"@.len());
    assert("proffer_amendment"@.len() != "by_right"@.len());
    assert("non_residential"@.len() != "mixed_use"@.len());
    assert("non_residential"@.len() != "special_use"@.len());
    assert("non_residential"@.len() != "by_right"@.len());
    assert("mixed_use"@.len() != "special_use"@.len());
    assert("mixed_use"@.len() != "by_right"@.len());
    assert("special_use"@.len() != "by_right"@.len());
    if raw == "Proffer Amendment"@ {
        assert(token_form(raw) =~= "proffer_amendment"@);
    } else if raw == "Non-Residential"@ {
        assert(token_form(raw) =~= "non_residential"@);
    } else if raw == "Mixed Use"@ {
        assert(token_form(raw) =~= "mixed_use"@);
    } else if raw == "Special Use"@ {
        assert(token_form(raw) =~= "special_use"@);
    } else if raw == "By-Right"@ {
        assert(token_form(raw) =~= "by_right"@);
    }
}

/// A record's lifecycle claim (`dc:stage`, or `dc:zoning_status` for a
/// zoning site) comes right after its recorded name and holds the record's
/// status in token form.
pub proof fn lemma_row_stage_claim(
    kind: LayerKind,
    row: Json,
    i: int,
    snapshot: Date,
    retrieved_at: Timestamp,
)
    ensures
        layer_row(kind, row, i, snapshot, retrieved_at) matches Ok(out) ==> {
            let raw = attr_text(get(row, "attributes"@), status_key(kind));
            &&& raw is Some
            &&& out.claims.len() > 1
            &&& out.claims[1].attribute_id == (if kind == LayerKind::Site {
                "dc:zoning_status"@
            } else {
                "dc:stage"@
            })
            &&& out.claims[1].value_text == Some(token_form(raw->0))
        },
{
    reveal(layer_row);
    let raw = attr_text(get(row, "attributes"@), status_key(kind));
    if raw is Some {
        let r = raw->0;
        lemma_building_stage_tokens(r, r);
        lemma_campus_stage_tokens(r, r);
        lemma_site_status_tokens(r, r);
    }
}

/// A millisecond timestamp falls on its date: the date is valid, and the
/// timestamp lies within that date's UTC day (for instants within a
/// hundred billion days of 1970).
pub proof fn lemma_date_of_millis(ms: i64)
    requires
        -8_640_000_000_000_000_000 <= ms <= 8_640_000_000_000_000_000,
    ensures
        date_of_millis(ms).is_valid(),
        date_of_millis(ms).day_number() * 86_400_000 <= ms < (date_of_millis(ms).day_number() + 1)
            * 86_400_000,
{
    let n = (ms as int) / 86400000;
    crate::calendar::lemma_div_bounds(ms as int, 86400000);
    assert(-100_000_000_000 <= n <= 100_000_000_000);
    crate::calendar::lemma_date_of_day(n);
    crate::calendar::lemma_date_of_day_year_bound(n);
    let d = date_of_millis(ms);
    assert(d.year as int == date_of_day(n).0);
    assert(d.month as int == date_of_day(n).1);
    assert(d.day as int == date_of_day(n).2);
    assert(d.day_number() == n);
}
} // verus!
