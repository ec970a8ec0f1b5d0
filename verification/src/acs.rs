//! Census ACS 5-year API: one variable for every county-equivalent in a
//! vintage, conformed into `Fact`s.
//!
//! The API returns JSON as an array of arrays — a header row of column
//! names, then one row per geography — with every cell a string or `null`:
//!
//! ```text
//! [["NAME","B01003_001E","B01003_001M","state","county"],
//!  ["Fairfield County, Connecticut","956446","-555555555","09","001"], ...]
//! ```
//!
//! Reading the body (`response_rows`) and conforming the rows (`conform`)
//! are pure; fetching is the application's job.

use vstd::prelude::*;

use crate::error::{Error, ErrorModel};
use crate::http::{checked_body, occurs_at, occurs_in, redact, redacted};
use crate::fact::{
    Annotation, Entity, EntityView, Level, Position, PositionView, entities_view, Fact,
    FactView, checked_facts, ensure_unique_keys, fact_keys, fact_observed,
    facts_view, keys_unique, opt_text,
};
use crate::number::{is_float_text, parse_i64, parse_i64_spec, float_text};
use crate::text::{
    chars_of, decimal, debug_text, push_decimal, push_str, str_debug, string_of,
    chars_equal, lacks_char, lemma_decimal_digits, lemma_lacks_char,
};
use crate::time::{Date, Timestamp, date_before};

verus! {

/// The dataset name that goes into provenance.
pub const DATASET: &'static str = "acs/acs5";

/// Publication dates of ACS 5-year releases, by endpoint year (from Census
/// Bureau press releases; the API does not report them).
pub open spec fn release_date(year: int) -> Option<Date> {
    if year == 2021 {
        Some(Date { year: 2022, month: 12, day: 8 })
    } else if year == 2022 {
        Some(Date { year: 2023, month: 12, day: 7 })
    } else if year == 2023 {
        Some(Date { year: 2024, month: 12, day: 12 })
    } else if year == 2024 {
        Some(Date { year: 2026, month: 1, day: 29 })
    } else {
        None
    }
}

/// Which field an annotation code is defined for.
#[derive(Debug, Clone, Copy, PartialEq, Eq, Structural)]
pub enum Field {
    Estimate,
    Moe,
    Either,
}

/// The Census Bureau's annotation codes. Anything else negative and nine
/// digits long is an error, not a value.
pub open spec fn sentinel(code: int) -> Option<(Annotation, Field)> {
    if code == -666_666_666 {
        Some((Annotation::InsufficientSample, Field::Estimate))
    } else if code == -999_999_999 {
        Some((Annotation::NotDisplayable, Field::Either))
    } else if code == -888_888_888 {
        Some((Annotation::NotApplicable, Field::Either))
    } else if code == -222_222_222 {
        Some((Annotation::MoeInsufficientSample, Field::Moe))
    } else if code == -333_333_333 {
        Some((Annotation::MoeOpenEndedMedian, Field::Moe))
    } else if code == -555_555_555 {
        Some((Annotation::Controlled, Field::Moe))
    } else {
        None
    }
}

fn sentinel_of(code: i64) -> (r: Option<(Annotation, Field)>)
    ensures
        r == sentinel(code as int),
{
    if code == -666_666_666 {
        Some((Annotation::InsufficientSample, Field::Estimate))
    } else if code == -999_999_999 {
        Some((Annotation::NotDisplayable, Field::Either))
    } else if code == -888_888_888 {
        Some((Annotation::NotApplicable, Field::Either))
    } else if code == -222_222_222 {
        Some((Annotation::MoeInsufficientSample, Field::Moe))
    } else if code == -333_333_333 {
        Some((Annotation::MoeOpenEndedMedian, Field::Moe))
    } else if code == -555_555_555 {
        Some((Annotation::Controlled, Field::Moe))
    } else {
        None
    }
}

/// Everything about one request that ends up in the facts it produces.
#[derive(Debug, Clone)]
pub struct Request {
    pub vintage_year: u16,
    /// Table + variable without the E/M suffix, e.g. `B01003_001`.
    pub variable: String,
}

/// A variable name: ASCII letters, digits and `_`, not empty, not ending in
/// the `E`/`M` suffix.
pub open spec fn is_variable_name(v: Seq<char>) -> bool {
    &&& v.len() > 0
    &&& forall|i: int|
        0 <= i < v.len() ==> ('0' <= #[trigger] v[i] <= '9' || 'a' <= v[i] <= 'z' || 'A' <= v[i]
            <= 'Z' || v[i] == '_')
    &&& v.last() != 'E'
    &&& v.last() != 'M'
}

/// The usage error for a malformed variable name.
pub open spec fn variable_usage(v: Seq<char>) -> Seq<char> {
    "indicator "@ + str_debug(v) + " should look like B01003_001 (no E/M suffix)"@
}

/// `https://api.census.gov/data/<year>/acs/acs5?get=NAME,<v>E,<v>M&for=county:*`
pub open spec fn request_url(year: u16, v: Seq<char>) -> Seq<char> {
    "https://api.census.gov/data/"@ + decimal(year as nat) + "/acs/acs5?get=NAME,"@ + v
        + "E,"@ + v + "M&for=county:*"@
}

pub open spec fn request_vintage(year: u16) -> Seq<char> {
    "acs5-"@ + decimal(year as nat)
}

pub open spec fn request_indicator(v: Seq<char>) -> Seq<char> {
    "acs:"@ + v
}

/// ACS 5-year covers the five calendar years ending in the vintage year:
/// `[Jan 1 of year-4, Jan 1 of year+1)`.
pub open spec fn interval_of(year: u16) -> (Date, Date) {
    (
        Date { year: (year - 4) as i32, month: 1, day: 1 },
        Date { year: (year + 1) as i32, month: 1, day: 1 },
    )
}

impl Request {
    pub fn new(vintage_year: u16, variable: &str) -> (r: Result<Self, Error>)
        ensures
            is_variable_name(variable@) ==> (r matches Ok(q) && q.vintage_year == vintage_year
                && q.variable@ == variable@),
            !is_variable_name(variable@) ==> (r matches Err(e) && e@ == ErrorModel::Usage(
                variable_usage(variable@),
            )),
    {
        let cs = chars_of(variable);
        let n = cs.len();
        let mut ok = n > 0;
        let mut i: usize = 0;
        while i < n
            invariant
                n == cs@.len(),
                cs@ == variable@,
                i <= n,
                ok == (n > 0 && forall|j: int|
                    0 <= j < i ==> ('0' <= #[trigger] cs@[j] <= '9' || 'a' <= cs@[j] <= 'z'
                        || 'A' <= cs@[j] <= 'Z' || cs@[j] == '_')),
            decreases n - i,
        {
            let c = cs[i];
            if !(('0' <= c && c <= '9') || ('a' <= c && c <= 'z') || ('A' <= c && c <= 'Z') || c
                == '_') {
                ok = false;
            }
            i = i + 1;
        }
        if ok && (cs[n - 1] == 'E' || cs[n - 1] == 'M') {
            ok = false;
        }
        if !ok {
            let mut msg = string_of("indicator ");
            let q = debug_text(variable);
            push_str(&mut msg, q.as_str());
            push_str(&mut msg, " should look like B01003_001 (no E/M suffix)");
            return Err(Error::Usage(msg));
        }
        Ok(Request { vintage_year, variable: string_of(variable) })
    }

    /// The vintage's publication date — the knowledge time of every fact.
    pub fn published_at(&self) -> (r: Result<Date, Error>)
        ensures
            match release_date(self.vintage_year as int) {
                Some(d) => r matches Ok(x) && x == d,
                None => r matches Err(e) && e@ == ErrorModel::UnsupportedVintage {
                    dataset: DATASET@,
                    year: self.vintage_year,
                },
            },
    {
        let y = self.vintage_year;
        if y == 2021 {
            Ok(Date::new(2022, 12, 8))
        } else if y == 2022 {
            Ok(Date::new(2023, 12, 7))
        } else if y == 2023 {
            Ok(Date::new(2024, 12, 12))
        } else if y == 2024 {
            Ok(Date::new(2026, 1, 29))
        } else {
            Err(Error::UnsupportedVintage { dataset: string_of(DATASET), year: y })
        }
    }

    /// The request URL **without** the key — this is what goes into provenance.
    pub fn url(&self) -> (r: String)
        ensures
            r@ == request_url(self.vintage_year, self.variable@),
    {
        let mut s = string_of("https://api.census.gov/data/");
        push_decimal(&mut s, self.vintage_year as u64);
        push_str(&mut s, "/acs/acs5?get=NAME,");
        push_str(&mut s, self.variable.as_str());
        push_str(&mut s, "E,");
        push_str(&mut s, self.variable.as_str());
        push_str(&mut s, "M&for=county:*");
        proof {
            assert(s@ =~= request_url(self.vintage_year, self.variable@));
        }
        s
    }

    pub fn vintage(&self) -> (r: String)
        ensures
            r@ == request_vintage(self.vintage_year),
    {
        let mut s = string_of("acs5-");
        push_decimal(&mut s, self.vintage_year as u64);
        s
    }

    pub fn indicator_id(&self) -> (r: String)
        ensures
            r@ == request_indicator(self.variable@),
    {
        let mut s = string_of("acs:");
        push_str(&mut s, self.variable.as_str());
        s
    }

    pub fn valid_interval(&self) -> (r: (Date, Date))
        ensures
            r == interval_of(self.vintage_year),
    {
        let y = self.vintage_year as i32;
        (Date::new(y - 4, 1, 1), Date::new(y + 1, 1, 1))
    }
}

/// The first characters of a body, for error messages (never the whole thing).
pub open spec fn head_text(s: Seq<char>) -> Seq<char> {
    if s.len() <= 120 {
        s
    } else {
        s.take(120)
    }
}

pub fn head(body: &str) -> (r: String)
    ensures
        r@ == head_text(body@),
{
    let cs = chars_of(body);
    let n = if cs.len() <= 120 {
        cs.len()
    } else {
        120
    };
    let r = crate::text::string_from_range(cs.as_slice(), 0, n);
    proof {
        assert(cs@.subrange(0, n as int) =~= head_text(body@));
    }
    r
}

// ---------------------------------------------------------------------------
// Reading the body
// ---------------------------------------------------------------------------
/// What serde_json makes of a body read as `Vec<Vec<Option<String>>>`:
/// the rows of cells, or its error message.
pub uninterp spec fn json_string_table(body: Seq<char>) -> Result<
    Seq<Seq<Option<Seq<char>>>>,
    Seq<char>,
>;

/// The rows of cells as character sequences.
pub open spec fn table_view(rows: Seq<Vec<Option<String>>>) -> Seq<Seq<Option<Seq<char>>>> {
    rows.map_values(|r: Vec<Option<String>>| r@.map_values(|c: Option<String>| opt_text(c)))
}

/// `serde_json::from_str::<Vec<Vec<Option<String>>>>(body)`, its error as
/// its `Display` message. The contract names the result
/// `json_string_table(body)`; which texts are accepted and the wording of
/// the message are the parser's.
#[verifier::external_body]
fn parse_string_table(body: &str) -> (r: Result<Vec<Vec<Option<String>>>, String>)
    ensures
        match r {
            Ok(rows) => json_string_table(body@) == Ok::<_, Seq<char>>(table_view(rows@)),
            Err(msg) => json_string_table(body@) == Err::<Seq<Seq<Option<Seq<char>>>>, _>(msg@),
        },
{
    serde_json::from_str::<Vec<Vec<Option<String>>>>(body).map_err(|e| e.to_string())
}

/// The rows of an API response body; a body that is not such JSON is
/// `NotJson`.
pub fn response_rows(body: &str, req: &Request) -> (r: Result<Vec<Vec<Option<String>>>, Error>)
    ensures
        match json_string_table(body@) {
            Ok(t) => r matches Ok(rows) && table_view(rows@) == t,
            Err(msg) => r matches Err(e) && e@ == ErrorModel::NotJson {
                url: request_url(req.vintage_year, req.variable@),
                detail: msg,
                body_head: head_text(body@),
            },
        },
{
    match parse_string_table(body) {
        Ok(rows) => Ok(rows),
        Err(msg) => Err(Error::NotJson { url: req.url(), detail: msg, body_head: head(body) }),
    }
}

// ---------------------------------------------------------------------------
// Fetching
// ---------------------------------------------------------------------------
/// The URL actually requested: the provenance URL with the key appended.
/// The key never goes into provenance.
pub fn keyed_url(url: &str, key: &str) -> (r: String)
    ensures
        r@ == url@ + "&key="@ + key@,
{
    let mut s = string_of(url);
    push_str(&mut s, "&key=");
    push_str(&mut s, key);
    s
}

/// What the API's answer to `url` amounts to, once read: the key-rejection
/// header (`X-DataWebAPI-KeyError`) is `ApiKeyRejected`; the key is scrubbed
/// from the body before the body can reach a message (some APIs echo the
/// request); any status other than 200 is `UnexpectedStatus`.
pub fn fetched_body(url: &str, key_rejected: bool, status: u16, body: &str, key: &str) -> (r: Result<
    String,
    Error,
>)
    requires
        key@.len() > 0,
    ensures
        key_rejected ==> (r matches Err(e) && e@ == ErrorModel::ApiKeyRejected { url: url@ }),
        !key_rejected && status == 200 ==> (r matches Ok(b) && b@ == redacted(body@, key@)),
        !key_rejected && status != 200 ==> (r matches Err(e) && e@ == ErrorModel::UnexpectedStatus {
            url: url@,
            status,
            body_head: head_text(redacted(body@, key@)),
        }),
{
    if key_rejected {
        return Err(Error::ApiKeyRejected { url: string_of(url) });
    }
    let scrubbed = redact(body, key);
    checked_body(url, status, scrubbed)
}

// ---------------------------------------------------------------------------
// Conforming the rows
// ---------------------------------------------------------------------------
/// What `str::parse::<f64>` made of a cell's text that it accepts: whether
/// the value is finite, whether it is at most -100000000, and the value cut
/// to an integer as `as i64` does.
#[derive(Debug, Clone, Copy)]
pub struct FloatReading {
    pub finite: bool,
    pub at_or_below_floor: bool,
    pub truncated: i64,
}

/// What a measure cell becomes: a value or an annotation, never both, never
/// neither.
pub open spec fn measure(
    text: Option<Seq<char>>,
    reading: FloatReading,
    field: Field,
    field_name: Seq<char>,
    geoid: Seq<char>,
    variable: Seq<char>,
) -> Result<(Option<Seq<char>>, Option<Annotation>), ErrorModel> {
    match text {
        None => Ok((None, Some(Annotation::Missing))),
        Some(t) => {
            let code = parse_i64_spec(t);
            if code is Some && sentinel(code->0 as int) is Some {
                let (annotation, defined_for) = sentinel(code->0 as int)->0;
                if defined_for == Field::Either || defined_for == field {
                    Ok((None, Some(annotation)))
                } else {
                    Err(
                        ErrorModel::SentinelOnWrongField {
                            code: code->0,
                            field: field_name,
                            geoid,
                            variable,
                        },
                    )
                }
            } else if !is_float_text(t) || !reading.finite {
                Err(ErrorModel::BadNumber { text: t, field: field_name, geoid, variable })
            } else if reading.at_or_below_floor {
                Err(
                    ErrorModel::UnknownSentinel {
                        code: reading.truncated,
                        field: field_name,
                        geoid,
                        variable,
                    },
                )
            } else {
                Ok((Some(t), None))
            }
        },
    }
}

/// `{:?}` of one header cell.
pub open spec fn cell_debug(c: Option<Seq<char>>) -> Seq<char> {
    match c {
        None => "None"@,
        Some(s) => "Some("@ + str_debug(s) + ")"@,
    }
}

/// The header cells' `{:?}`, separated by `, `.
pub open spec fn cells_debug(h: Seq<Option<Seq<char>>>) -> Seq<char>
    decreases h.len(),
{
    if h.len() == 0 {
        Seq::empty()
    } else if h.len() == 1 {
        cell_debug(h[0])
    } else {
        cells_debug(h.drop_last()) + ", "@ + cell_debug(h.last())
    }
}

/// `{:?}` of the header row.
pub open spec fn header_debug(h: Seq<Option<Seq<char>>>) -> Seq<char> {
    "["@ + cells_debug(h) + "]"@
}

/// Position of the first header cell equal to `name`, or the header length.
pub open spec fn column_position(h: Seq<Option<Seq<char>>>, name: Seq<char>, from: int) -> int
    decreases h.len() - from,
{
    if from >= h.len() {
        h.len() as int
    } else if h[from] == Some(name) {
        from
    } else {
        column_position(h, name, from + 1)
    }
}

/// The column named `name`, or the missing-column error.
pub open spec fn column(h: Seq<Option<Seq<char>>>, name: Seq<char>, url: Seq<char>) -> Result<
    int,
    ErrorModel,
> {
    let p = column_position(h, name, 0);
    if 0 <= p < h.len() {
        Ok(p)
    } else {
        Err(
            ErrorModel::BadResponseShape {
                url,
                detail: "no column "@ + str_debug(name) + " in header "@ + header_debug(h),
            },
        )
    }
}

/// The columns a conform pass reads: estimate, MOE, state, county.
pub struct Columns {
    pub estimate: int,
    pub moe: int,
    pub state: int,
    pub county: int,
}

pub open spec fn columns(h: Seq<Option<Seq<char>>>, v: Seq<char>, url: Seq<char>) -> Result<
    Columns,
    ErrorModel,
> {
    match column(h, v + "E"@, url) {
        Err(e) => Err(e),
        Ok(estimate) => match column(h, v + "M"@, url) {
            Err(e) => Err(e),
            Ok(moe) => match column(h, "state"@, url) {
                Err(e) => Err(e),
                Ok(state) => match column(h, "county"@, url) {
                    Err(e) => Err(e),
                    Ok(county) => Ok(Columns { estimate, moe, state, county }),
                },
            },
        },
    }
}

/// The fact row `i` (counting data rows from 0) becomes, or why it cannot.
pub open spec fn row_fact(
    header_len: int,
    cols: Columns,
    row: Seq<Option<Seq<char>>>,
    readings: Seq<FloatReading>,
    i: int,
    year: u16,
    v: Seq<char>,
    published_at: Date,
    retrieved_at: Timestamp,
) -> Result<FactView, ErrorModel> {
    let url = request_url(year, v);
    if row.len() != header_len {
        Err(
            ErrorModel::BadResponseShape {
                url,
                detail: "row "@ + decimal((i + 1) as nat) + " has "@ + decimal(row.len())
                    + " cells, header has "@ + decimal(header_len as nat),
            },
        )
    } else if row[cols.state] is None || row[cols.county] is None {
        Err(
            ErrorModel::BadResponseShape {
                url,
                detail: "row "@ + decimal((i + 1) as nat) + " has a null state/county code"@,
            },
        )
    } else {
        let geoid = row[cols.state]->0 + row[cols.county]->0;
        match measure(
            row[cols.estimate],
            readings[cols.estimate],
            Field::Estimate,
            "estimate"@,
            geoid,
            v,
        ) {
            Err(e) => Err(e),
            Ok((value, value_annotation)) => match measure(
                row[cols.moe],
                readings[cols.moe],
                Field::Moe,
                "moe"@,
                geoid,
                v,
            ) {
                Err(e) => Err(e),
                Ok((moe, moe_annotation)) => Ok(
                    FactView {
                        entity_id: "geoId/"@ + geoid,
                        indicator_id: request_indicator(v),
                        valid_from: interval_of(year).0,
                        valid_to: interval_of(year).1,
                        vintage: request_vintage(year),
                        published_at,
                        value,
                        moe,
                        value_annotation,
                        moe_annotation,
                        boundary_year: year,
                        source_dataset: DATASET@,
                        source_url: url,
                        retrieved_at,
                    },
                ),
            },
        }
    }
}

/// The facts of the first `n` data rows (rows `1..=n` of the table), or the
/// first error among them.
pub open spec fn data_facts(
    table: Seq<Seq<Option<Seq<char>>>>,
    readings: Seq<Seq<FloatReading>>,
    cols: Columns,
    year: u16,
    v: Seq<char>,
    published_at: Date,
    retrieved_at: Timestamp,
    n: int,
) -> Result<Seq<FactView>, ErrorModel>
    decreases n,
{
    if n <= 0 {
        Ok(Seq::empty())
    } else {
        match data_facts(table, readings, cols, year, v, published_at, retrieved_at, n - 1) {
            Err(e) => Err(e),
            Ok(facts) => match row_fact(
                table[0].len() as int,
                cols,
                table[n],
                readings[n],
                n - 1,
                year,
                v,
                published_at,
                retrieved_at,
            ) {
                Err(e) => Err(e),
                Ok(f) => Ok(facts.push(f)),
            },
        }
    }
}

/// The whole conform pass over a response table.
pub open spec fn conform_spec(
    table: Seq<Seq<Option<Seq<char>>>>,
    readings: Seq<Seq<FloatReading>>,
    year: u16,
    v: Seq<char>,
    retrieved_at: Timestamp,
) -> Result<Seq<FactView>, ErrorModel> {
    let url = request_url(year, v);
    if table.len() == 0 {
        Err(ErrorModel::BadResponseShape { url, detail: "empty response"@ })
    } else {
        match columns(table[0], v, url) {
            Err(e) => Err(e),
            Ok(cols) => match release_date(year as int) {
                None => Err(ErrorModel::UnsupportedVintage { dataset: DATASET@, year }),
                Some(published_at) => checked_facts(
                    data_facts(
                        table,
                        readings,
                        cols,
                        year,
                        v,
                        published_at,
                        retrieved_at,
                        table.len() - 1,
                    ),
                ),
            },
        }
    }
}

/// `readings` has one reading per cell of `rows`.
pub open spec fn readings_match(
    rows: Seq<Vec<Option<String>>>,
    readings: Seq<Vec<FloatReading>>,
) -> bool {
    rows.len() == readings.len() && forall|i: int|
        0 <= i < rows.len() ==> #[trigger] rows[i]@.len() == readings[i]@.len()
}

pub open spec fn readings_view(readings: Seq<Vec<FloatReading>>) -> Seq<Seq<FloatReading>> {
    readings.map_values(|r: Vec<FloatReading>| r@)
}

/// Turn the rows of an API response into facts. Pure: no network, no
/// clock. `readings` holds, cell by cell, what the `f64` parser made of the
/// cell's text; it decides only finiteness and the sentinel floor of text
/// that is already known to be a number.
pub fn conform(
    rows: &Vec<Vec<Option<String>>>,
    readings: &Vec<Vec<FloatReading>>,
    req: &Request,
    retrieved_at: Timestamp,
) -> (r: Result<Vec<Fact>, Error>)
    requires
        readings_match(rows@, readings@),
    ensures
        match conform_spec(
            table_view(rows@),
            readings_view(readings@),
            req.vintage_year,
            req.variable@,
            retrieved_at,
        ) {
            Ok(facts) => r matches Ok(fs) && facts_view(fs@) == facts,
            Err(em) => r matches Err(e) && e@ == em,
        },
{
    let ghost table = table_view(rows@);
    let ghost rv = readings_view(readings@);
    let url = req.url();
    if rows.len() == 0 {
        return Err(Error::BadResponseShape { url, detail: string_of("empty response") });
    }
    let header = &rows[0];
    proof {
        assert(table[0] == header@.map_values(|c: Option<String>| opt_text(c)));
    }
    let mut estimate_name = string_of(req.variable.as_str());
    push_str(&mut estimate_name, "E");
    let mut moe_name = string_of(req.variable.as_str());
    push_str(&mut moe_name, "M");
    let estimate_col = match find_column(header, estimate_name.as_str(), &url) {
        Ok(c) => c,
        Err(e) => {
            return Err(e);
        },
    };
    let moe_col = match find_column(header, moe_name.as_str(), &url) {
        Ok(c) => c,
        Err(e) => {
            return Err(e);
        },
    };
    let state_col = match find_column(header, "state", &url) {
        Ok(c) => c,
        Err(e) => {
            return Err(e);
        },
    };
    let county_col = match find_column(header, "county", &url) {
        Ok(c) => c,
        Err(e) => {
            return Err(e);
        },
    };
    let ghost cols = Columns {
        estimate: estimate_col as int,
        moe: moe_col as int,
        state: state_col as int,
        county: county_col as int,
    };
    proof {
        assert(columns(table[0], req.variable@, url@) == Ok::<_, ErrorModel>(cols));
    }
    let published_at = match req.published_at() {
        Ok(d) => d,
        Err(e) => {
            return Err(e);
        },
    };
    let (valid_from, valid_to) = req.valid_interval();
    let mut facts: Vec<Fact> = Vec::new();
    proof {
        assert(facts_view(facts@) =~= Seq::<FactView>::empty());
    }
    let mut i: usize = 1;
    while i < rows.len()
        invariant
            1 <= i <= rows.len(),
            table == table_view(rows@),
            rv == readings_view(readings@),
            readings_match(rows@, readings@),
            header == &rows@[0],
            url@ == request_url(req.vintage_year, req.variable@),
            estimate_col < header@.len(),
            moe_col < header@.len(),
            state_col < header@.len(),
            county_col < header@.len(),
            cols.estimate == estimate_col,
            cols.moe == moe_col,
            cols.state == state_col,
            cols.county == county_col,
            release_date(req.vintage_year as int) == Some(published_at),
            columns(table[0], req.variable@, url@) == Ok::<_, ErrorModel>(cols),
            table.len() == rows@.len(),
            (valid_from, valid_to) == interval_of(req.vintage_year),
            data_facts(
                table,
                rv,
                cols,
                req.vintage_year,
                req.variable@,
                published_at,
                retrieved_at,
                (i - 1) as int,
            ) == Ok::<_, ErrorModel>(facts_view(facts@)),
        decreases rows.len() - i,
    {
        let row = &rows[i];
        let rd = &readings[i];
        proof {
            assert(table[i as int] == row@.map_values(|c: Option<String>| opt_text(c)));
            assert(rv[i as int] == rd@);
            assert(table[0].len() == header@.len());
        }
        match row_to_fact(
            row,
            rd,
            header.len(),
            estimate_col,
            moe_col,
            state_col,
            county_col,
            i - 1,
            req,
            &url,
            published_at,
            valid_from,
            valid_to,
            retrieved_at,
            Ghost(cols),
        ) {
            Ok(f) => {
                proof {
                    assert(facts_view(facts@.push(f)) =~= facts_view(facts@).push(f@));
                }
                facts.push(f);
            },
            Err(e) => {
                proof {
                    assert(data_facts(
                        table,
                        rv,
                        cols,
                        req.vintage_year,
                        req.variable@,
                        published_at,
                        retrieved_at,
                        i as int,
                    ) == Err::<Seq<FactView>, _>(e@));
                    lemma_data_facts_stop(
                        table,
                        rv,
                        cols,
                        req.vintage_year,
                        req.variable@,
                        published_at,
                        retrieved_at,
                        i as int,
                        (rows.len() - 1) as int,
                    );
                }
                return Err(e);
            },
        }
        i = i + 1;
    }
    match ensure_unique_keys(facts.as_slice()) {
        Err(e) => Err(e),
        Ok(()) => Ok(facts),
    }
}

// ---------------------------------------------------------------------------
// The entity registry
// ---------------------------------------------------------------------------
/// The registry row of one data row: the county it names, called what the
/// `NAME` cell says, when the row has a name and both codes.
pub open spec fn row_entity(
    row: Seq<Option<Seq<char>>>,
    name: int,
    state: int,
    county: int,
    year: u16,
) -> Option<EntityView> {
    if name < row.len() && state < row.len() && county < row.len() && row[name] is Some
        && row[state] is Some && row[county] is Some {
        Some(
            EntityView {
                entity_id: "geoId/"@ + (row[state]->0 + row[county]->0),
                name: row[name]->0,
                level: Level::County,
                boundary_year: year,
                vintage: request_vintage(year),
                source_dataset: DATASET@,
                position: PositionView::Unknown,
            },
        )
    } else {
        None
    }
}

/// The registry rows of the first `n` data rows, in order.
pub open spec fn registry_rows(
    table: Seq<Seq<Option<Seq<char>>>>,
    name: int,
    state: int,
    county: int,
    year: u16,
    n: int,
) -> Seq<EntityView>
    decreases n,
{
    if n <= 0 {
        Seq::empty()
    } else {
        let prev = registry_rows(table, name, state, county, year, n - 1);
        match row_entity(table[n], name, state, county, year) {
            Some(e) => prev.push(e),
            None => prev,
        }
    }
}

/// The registry rows of a response: one per data row that names its
/// county, none when the header lacks `NAME`, `state` or `county`. Names
/// are decoration, so a missing one never fails the pass.
pub open spec fn registry_spec(table: Seq<Seq<Option<Seq<char>>>>, year: u16, v: Seq<char>) -> Seq<
    EntityView,
> {
    let url = request_url(year, v);
    if table.len() == 0 {
        Seq::empty()
    } else {
        match column(table[0], "NAME"@, url) {
            Ok(name) => match column(table[0], "state"@, url) {
                Ok(state) => match column(table[0], "county"@, url) {
                    Ok(county) => registry_rows(
                        table,
                        name,
                        state,
                        county,
                        year,
                        table.len() - 1,
                    ),
                    Err(_) => Seq::empty(),
                },
                Err(_) => Seq::empty(),
            },
            Err(_) => Seq::empty(),
        }
    }
}

/// The text of cell `c` of a row, when there is one.
fn cell_of(row: &Vec<Option<String>>, c: usize) -> (r: Option<String>)
    ensures
        match r {
            Some(t) => c < row@.len() && opt_text(row@[c as int]) == Some(t@),
            None => c >= row@.len() || opt_text(row@[c as int]) is None,
        },
{
    if c < row.len() {
        match &row[c] {
            Some(t) => Some(string_of(t.as_str())),
            None => None,
        }
    } else {
        None
    }
}

/// The entity registry rows of a response: what the ACS calls each
/// county, in this vintage.
pub fn registry(rows: &Vec<Vec<Option<String>>>, req: &Request) -> (r: Vec<Entity>)
    ensures
        entities_view(r@) == registry_spec(table_view(rows@), req.vintage_year, req.variable@),
{
    let ghost table = table_view(rows@);
    let mut out: Vec<Entity> = Vec::new();
    if rows.len() == 0 {
        proof {
            assert(entities_view(out@) =~= Seq::<EntityView>::empty());
        }
        return out;
    }
    let url = req.url();
    let header = &rows[0];
    proof {
        assert(table[0] == header@.map_values(|c: Option<String>| opt_text(c)));
    }
    let name_col = match find_column(header, "NAME", &url) {
        Ok(c) => c,
        Err(_) => {
            proof {
                assert(entities_view(out@) =~= Seq::<EntityView>::empty());
            }
            return out;
        },
    };
    let state_col = match find_column(header, "state", &url) {
        Ok(c) => c,
        Err(_) => {
            proof {
                assert(entities_view(out@) =~= Seq::<EntityView>::empty());
            }
            return out;
        },
    };
    let county_col = match find_column(header, "county", &url) {
        Ok(c) => c,
        Err(_) => {
            proof {
                assert(entities_view(out@) =~= Seq::<EntityView>::empty());
            }
            return out;
        },
    };
    let vintage = req.vintage();
    let mut i: usize = 1;
    proof {
        assert(entities_view(out@) =~= Seq::<EntityView>::empty());
    }
    while i < rows.len()
        invariant
            1 <= i <= rows.len(),
            table == table_view(rows@),
            vintage@ == request_vintage(req.vintage_year),
            registry_spec(table, req.vintage_year, req.variable@) == registry_rows(
                table,
                name_col as int,
                state_col as int,
                county_col as int,
                req.vintage_year,
                table.len() - 1,
            ),
            entities_view(out@) == registry_rows(
                table,
                name_col as int,
                state_col as int,
                county_col as int,
                req.vintage_year,
                (i - 1) as int,
            ),
        decreases rows.len() - i,
    {
        let row = &rows[i];
        proof {
            assert(table[i as int] == row@.map_values(|c: Option<String>| opt_text(c)));
        }
        let name = cell_of(row, name_col);
        let state = cell_of(row, state_col);
        let county = cell_of(row, county_col);
        proof {
            let t = table[i as int];
            assert(t.len() == row@.len());
            if name_col < row@.len() {
                assert(t[name_col as int] == opt_text(row@[name_col as int]));
            }
            if state_col < row@.len() {
                assert(t[state_col as int] == opt_text(row@[state_col as int]));
            }
            if county_col < row@.len() {
                assert(t[county_col as int] == opt_text(row@[county_col as int]));
            }
        }
        match (name, state, county) {
            (Some(n), Some(s), Some(c)) => {
                let mut id = string_of("geoId/");
                push_str(&mut id, s.as_str());
                push_str(&mut id, c.as_str());
                let e = Entity {
                    entity_id: id,
                    name: n,
                    level: Level::County,
                    boundary_year: req.vintage_year,
                    vintage: string_of(vintage.as_str()),
                    source_dataset: string_of(DATASET),
                    position: Position::Unknown,
                };
                proof {
                    assert(e@.entity_id =~= "geoId/"@ + (s@ + c@));
                    assert(row_entity(
                        table[i as int],
                        name_col as int,
                        state_col as int,
                        county_col as int,
                        req.vintage_year,
                    ) == Some(e@));
                    assert(entities_view(out@.push(e)) =~= entities_view(out@).push(e@));
                }
                out.push(e);
            },
            _ => {},
        }
        i = i + 1;
    }
    out
}

/// Once a row fails, the pass fails with that row's error.
proof fn lemma_data_facts_stop(
    table: Seq<Seq<Option<Seq<char>>>>,
    readings: Seq<Seq<FloatReading>>,
    cols: Columns,
    year: u16,
    v: Seq<char>,
    published_at: Date,
    retrieved_at: Timestamp,
    i: int,
    n: int,
)
    requires
        data_facts(table, readings, cols, year, v, published_at, retrieved_at, i) is Err,
        i <= n,
    ensures
        data_facts(table, readings, cols, year, v, published_at, retrieved_at, n) == data_facts(
            table,
            readings,
            cols,
            year,
            v,
            published_at,
            retrieved_at,
            i,
        ),
    decreases n - i,
{
    if i < n {
        lemma_data_facts_stop(table, readings, cols, year, v, published_at, retrieved_at, i, n - 1);
    }
}

/// `row_fact` for one row, computed.
fn row_to_fact(
    row: &Vec<Option<String>>,
    readings: &Vec<FloatReading>,
    header_len: usize,
    estimate_col: usize,
    moe_col: usize,
    state_col: usize,
    county_col: usize,
    i: usize,
    req: &Request,
    url: &String,
    published_at: Date,
    valid_from: Date,
    valid_to: Date,
    retrieved_at: Timestamp,
    Ghost(cols): Ghost<Columns>,
) -> (r: Result<Fact, Error>)
    requires
        row@.len() == readings@.len(),
        estimate_col < header_len,
        moe_col < header_len,
        state_col < header_len,
        county_col < header_len,
        i < usize::MAX,
        cols.estimate == estimate_col,
        cols.moe == moe_col,
        cols.state == state_col,
        cols.county == county_col,
        url@ == request_url(req.vintage_year, req.variable@),
        (valid_from, valid_to) == interval_of(req.vintage_year),
    ensures
        match row_fact(
            header_len as int,
            cols,
            row@.map_values(|c: Option<String>| opt_text(c)),
            readings@,
            i as int,
            req.vintage_year,
            req.variable@,
            published_at,
            retrieved_at,
        ) {
            Ok(f) => r matches Ok(x) && x@ == f,
            Err(em) => r matches Err(e) && e@ == em,
        },
{
    let ghost cells = row@.map_values(|c: Option<String>| opt_text(c));
    if row.len() != header_len {
        let mut d = string_of("row ");
        push_decimal(&mut d, (i + 1) as u64);
        push_str(&mut d, " has ");
        push_decimal(&mut d, row.len() as u64);
        push_str(&mut d, " cells, header has ");
        push_decimal(&mut d, header_len as u64);
        return Err(Error::BadResponseShape { url: string_of(url.as_str()), detail: d });
    }
    proof {
        assert(cells[state_col as int] == opt_text(row@[state_col as int]));
        assert(cells[county_col as int] == opt_text(row@[county_col as int]));
        assert(cells[estimate_col as int] == opt_text(row@[estimate_col as int]));
        assert(cells[moe_col as int] == opt_text(row@[moe_col as int]));
    }
    let (state, county) = match (&row[state_col], &row[county_col]) {
        (Some(s), Some(c)) => (s, c),
        _ => {
            let mut d = string_of("row ");
            push_decimal(&mut d, (i + 1) as u64);
            push_str(&mut d, " has a null state/county code");
            return Err(Error::BadResponseShape { url: string_of(url.as_str()), detail: d });
        },
    };
    let mut geoid = string_of(state.as_str());
    push_str(&mut geoid, county.as_str());
    let (value, value_annotation) = match parse_measure(
        &row[estimate_col],
        readings[estimate_col],
        Field::Estimate,
        "estimate",
        geoid.as_str(),
        req,
    ) {
        Ok(m) => m,
        Err(e) => {
            return Err(e);
        },
    };
    let (moe, moe_annotation) = match parse_measure(
        &row[moe_col],
        readings[moe_col],
        Field::Moe,
        "moe",
        geoid.as_str(),
        req,
    ) {
        Ok(m) => m,
        Err(e) => {
            return Err(e);
        },
    };
    let mut entity_id = string_of("geoId/");
    push_str(&mut entity_id, geoid.as_str());
    Ok(
        Fact {
            entity_id,
            indicator_id: req.indicator_id(),
            valid_from,
            valid_to,
            vintage: req.vintage(),
            published_at,
            value,
            moe,
            value_annotation,
            moe_annotation,
            boundary_year: req.vintage_year,
            source_dataset: string_of(DATASET),
            source_url: string_of(url.as_str()),
            retrieved_at,
        },
    )
}

/// One cell → either a number or an annotation, never both, never neither.
fn parse_measure(
    text: &Option<String>,
    reading: FloatReading,
    field: Field,
    field_name: &str,
    geoid: &str,
    req: &Request,
) -> (r: Result<(Option<String>, Option<Annotation>), Error>)
    ensures
        match measure(opt_text(*text), reading, field, field_name@, geoid@, req.variable@) {
            Ok((v, a)) => r matches Ok(x) && opt_text(x.0) == v && x.1 == a,
            Err(em) => r matches Err(e) && e@ == em,
        },
{
    let t = match text {
        None => {
            return Ok((None, Some(Annotation::Missing)));
        },
        Some(t) => t,
    };
    let cs = chars_of(t.as_str());
    if let Some(code) = parse_i64(cs.as_slice(), 0, cs.len()) {
        proof {
            assert(cs@.subrange(0, cs@.len() as int) =~= t@);
        }
        if let Some((annotation, defined_for)) = sentinel_of(code) {
            if defined_for == Field::Either || defined_for == field {
                return Ok((None, Some(annotation)));
            } else {
                return Err(
                    Error::SentinelOnWrongField {
                        code,
                        field: string_of(field_name),
                        geoid: string_of(geoid),
                        variable: string_of(req.variable.as_str()),
                    },
                );
            }
        }
    }
    proof {
        assert(cs@.subrange(0, cs@.len() as int) =~= t@);
    }
    if !float_text(cs.as_slice(), 0, cs.len()) || !reading.finite {
        return Err(
            Error::BadNumber {
                text: string_of(t.as_str()),
                field: string_of(field_name),
                geoid: string_of(geoid),
                variable: string_of(req.variable.as_str()),
            },
        );
    }
    if reading.at_or_below_floor {
        return Err(
            Error::UnknownSentinel {
                code: reading.truncated,
                field: string_of(field_name),
                geoid: string_of(geoid),
                variable: string_of(req.variable.as_str()),
            },
        );
    }
    Ok((Some(string_of(t.as_str())), None))
}

/// `column` over an exec header row.
fn find_column(header: &Vec<Option<String>>, name: &str, url: &String) -> (r: Result<usize, Error>)
    ensures
        match column(header@.map_values(|c: Option<String>| opt_text(c)), name@, url@) {
            Ok(p) => r matches Ok(x) && x == p,
            Err(em) => r matches Err(e) && e@ == em,
        },
{
    let ghost h = header@.map_values(|c: Option<String>| opt_text(c));
    let key = chars_of(name);
    let mut i: usize = 0;
    while i < header.len()
        invariant
            i <= header@.len(),
            h == header@.map_values(|c: Option<String>| opt_text(c)),
            key@ == name@,
            column_position(h, name@, 0) == column_position(h, name@, i as int),
        decreases header.len() - i,
    {
        proof {
            assert(h[i as int] == opt_text(header@[i as int]));
        }
        match &header[i] {
            Some(cell) => {
                let cc = chars_of(cell.as_str());
                if chars_equal(cc.as_slice(), key.as_slice()) {
                    return Ok(i);
                }
            },
            None => {},
        }
        i = i + 1;
    }
    let mut d = string_of("no column ");
    let q = debug_text(name);
    push_str(&mut d, q.as_str());
    push_str(&mut d, " in header ");
    push_header_debug(&mut d, header);
    proof {
        assert(d@ =~= "no column "@ + str_debug(name@) + " in header "@ + header_debug(h));
    }
    Err(Error::BadResponseShape { url: string_of(url.as_str()), detail: d })
}

/// Appends `header_debug` of the header row.
fn push_header_debug(s: &mut String, header: &Vec<Option<String>>)
    ensures
        final(s)@ == old(s)@ + header_debug(
            header@.map_values(|c: Option<String>| opt_text(c)),
        ),
{
    let ghost h = header@.map_values(|c: Option<String>| opt_text(c));
    push_str(s, "[");
    let ghost start = s@;
    let mut i: usize = 0;
    while i < header.len()
        invariant
            i <= header@.len(),
            h == header@.map_values(|c: Option<String>| opt_text(c)),
            s@ == start + cells_debug(h.take(i as int)),
        decreases header.len() - i,
    {
        let ghost before = s@;
        if i > 0 {
            push_str(s, ", ");
        }
        match &header[i] {
            None => {
                push_str(s, "None");
            },
            Some(cell) => {
                push_str(s, "Some(");
                let q = debug_text(cell.as_str());
                push_str(s, q.as_str());
                push_str(s, ")");
            },
        }
        proof {
            assert(h[i as int] == opt_text(header@[i as int]));
            assert(h.take(i + 1).drop_last() =~= h.take(i as int));
            assert(h.take(i + 1).last() == h[i as int]);
            if i == 0 {
                assert(h.take(1)[0] == h[0]);
                assert(s@ =~= start + cells_debug(h.take(1)));
            } else {
                assert(s@ =~= start + cells_debug(h.take(i + 1)));
            }
        }
        i = i + 1;
    }
    push_str(s, "]");
    proof {
        assert(h.take(header@.len() as int) =~= h);
        assert(s@ =~= old(s)@ + header_debug(h));
    }
}


// ---------------------------------------------------------------------------
// Laws
// ---------------------------------------------------------------------------
/// One cell becomes either a number or an annotation, never both, never
/// neither.
pub proof fn lemma_measure_one_of(
    text: Option<Seq<char>>,
    reading: FloatReading,
    field: Field,
    field_name: Seq<char>,
    geoid: Seq<char>,
    variable: Seq<char>,
)
    ensures
        measure(text, reading, field, field_name, geoid, variable) matches Ok((v, a)) ==> (v is Some)
            != (a is Some),
{
}

proof fn lemma_data_facts_observed(
    table: Seq<Seq<Option<Seq<char>>>>,
    readings: Seq<Seq<FloatReading>>,
    cols: Columns,
    year: u16,
    v: Seq<char>,
    published_at: Date,
    retrieved_at: Timestamp,
    n: int,
)
    requires
        n >= 0,
    ensures
        data_facts(table, readings, cols, year, v, published_at, retrieved_at, n) matches Ok(fs)
            ==> fs.len() == n && forall|k: int| 0 <= k < fs.len() ==> #[trigger] fact_observed(fs[k]),
    decreases n,
{
    if n > 0 {
        lemma_data_facts_observed(table, readings, cols, year, v, published_at, retrieved_at, n - 1);
        match data_facts(table, readings, cols, year, v, published_at, retrieved_at, n - 1) {
            Ok(fs) => match row_fact(
                table[0].len() as int,
                cols,
                table[n],
                readings[n],
                n - 1,
                year,
                v,
                published_at,
                retrieved_at,
            ) {
                Ok(f) => {
                    let fs2 = fs.push(f);
                    assert forall|k: int| 0 <= k < fs2.len() implies #[trigger] fact_observed(fs2[k]) by {
                        if k < fs.len() {
                            assert(fs2[k] == fs[k]);
                        }
                    }
                },
                Err(_) => {},
            },
            Err(_) => {},
        }
    }
}

/// A successful ACS pass: one fact per data row; every fact carries, for
/// its estimate and for its margin of error, a value or an annotation but
/// never both; and no fact key repeats.
pub proof fn lemma_conform_facts(
    table: Seq<Seq<Option<Seq<char>>>>,
    readings: Seq<Seq<FloatReading>>,
    year: u16,
    v: Seq<char>,
    retrieved_at: Timestamp,
)
    ensures
        conform_spec(table, readings, year, v, retrieved_at) matches Ok(fs) ==> fs.len() == table.len()
            - 1 && keys_unique(fact_keys(fs)) && forall|k: int|
            0 <= k < fs.len() ==> #[trigger] fact_observed(fs[k]),
{
    if table.len() > 0 {
        let url = request_url(year, v);
        match columns(table[0], v, url) {
            Ok(cols) => match release_date(year as int) {
                Some(published_at) => {
                    lemma_data_facts_observed(
                        table,
                        readings,
                        cols,
                        year,
                        v,
                        published_at,
                        retrieved_at,
                        table.len() - 1,
                    );
                },
                None => {},
            },
            Err(_) => {},
        }
    }
}


/// The request URL holds no `key=` unless the variable itself does: the
/// key never goes into provenance. A variable name never holds one.
pub proof fn lemma_request_url_has_no_key(year: u16, v: Seq<char>)
    ensures
        is_variable_name(v) ==> !occurs_in(v, "key="@),
        !occurs_in(v, "key="@) ==> !occurs_in(request_url(year, v), "key="@),
{
    reveal_strlit("https://api.census.gov/data/");
    reveal_strlit("/acs/acs5?get=NAME,");
    reveal_strlit("E,");
    reveal_strlit("M&for=county:*");
    reveal_strlit("key=");
    reveal_with_fuel(lacks_char, 30);
    if is_variable_name(v) {
        assert forall|p: int| !#[trigger] occurs_at(v, "key="@, p) by {
            if occurs_at(v, "key="@, p) {
                assert(v[p + 3] == v.subrange(p, p + 4)[3]);
            }
        }
    }
    if !occurs_in(v, "key="@) {
        let a = "https://api.census.gov/data/"@;
        let d = decimal(year as nat);
        let b = "/acs/acs5?get=NAME,"@;
        let e = "E,"@;
        let m = "M&for=county:*"@;
        assert(lacks_char(a, 'k'));
        assert(lacks_char(b, 'k'));
        assert(lacks_char(m, 'k'));
        lemma_lacks_char(a, 'k');
        lemma_lacks_char(b, 'k');
        lemma_lacks_char(m, 'k');
        lemma_decimal_digits(year as nat);
        let url = request_url(year, v);
        let od = a.len() as int;
        let ob = od + d.len();
        let ov1 = ob + b.len();
        let oe = ov1 + v.len();
        let ov2 = oe + e.len();
        let om = ov2 + v.len();
        assert(url.len() == om + m.len());
        assert forall|p: int| !#[trigger] occurs_at(url, "key="@, p) by {
            if occurs_at(url, "key="@, p) {
                let w = url.subrange(p, p + 4);
                assert(url[p] == w[0]);
                assert(url[p + 1] == w[1]);
                assert(url[p + 3] == w[3]);
                assert(url[p] == 'k');
                assert(url[p + 1] == 'e');
                assert(url[p + 3] == '=');
                let q = p + 3;
                if p < od {
                    assert(url[p] == a[p]);
                } else if p < ob {
                    assert(url[p] == d[p - od]);
                } else if p < ov1 {
                    assert(url[p] == b[p - ob]);
                } else if p < oe {
                    if q < oe {
                        assert(v.subrange(p - ov1, p - ov1 + 4) =~= w);
                        assert(occurs_at(v, "key="@, p - ov1));
                    } else if p + 1 == oe {
                        assert(url[p + 1] == e[0]);
                    } else {
                        assert(q < ov2);
                        assert(url[q] == e[q - oe]);
                    }
                } else if p < ov2 {
                    assert(url[p] == e[p - oe]);
                } else if p < om {
                    if q < om {
                        assert(v.subrange(p - ov2, p - ov2 + 4) =~= w);
                        assert(occurs_at(v, "key="@, p - ov2));
                    } else {
                        assert(url[q] == m[q - om]);
                    }
                } else {
                    assert(url[p] == m[p - om]);
                }
            }
        }
    }
}

/// What every fact of row `row` says of where it comes from: the county's
/// `geoId`, the indicator, the vintage and its boundaries, the valid
/// interval, and the request it came from.
pub open spec fn fact_of_row(
    f: FactView,
    row: Seq<Option<Seq<char>>>,
    cols: Columns,
    year: u16,
    v: Seq<char>,
) -> bool {
    &&& f.entity_id == "geoId/"@ + (row[cols.state]->0 + row[cols.county]->0)
    &&& f.indicator_id == request_indicator(v)
    &&& f.vintage == request_vintage(year)
    &&& f.boundary_year == year
    &&& f.valid_from == interval_of(year).0
    &&& f.valid_to == interval_of(year).1
    &&& f.source_url == request_url(year, v)
    &&& f.source_dataset == DATASET@
}

proof fn lemma_data_facts_fields(
    table: Seq<Seq<Option<Seq<char>>>>,
    readings: Seq<Seq<FloatReading>>,
    cols: Columns,
    year: u16,
    v: Seq<char>,
    published_at: Date,
    retrieved_at: Timestamp,
    n: int,
)
    requires
        n >= 0,
    ensures
        data_facts(table, readings, cols, year, v, published_at, retrieved_at, n) matches Ok(fs)
            ==> fs.len() == n && forall|k: int|
            0 <= k < fs.len() ==> #[trigger] fact_of_row(fs[k], table[k + 1], cols, year, v)
                && fs[k].published_at == published_at,
    decreases n,
{
    if n > 0 {
        lemma_data_facts_fields(table, readings, cols, year, v, published_at, retrieved_at, n - 1);
        match data_facts(table, readings, cols, year, v, published_at, retrieved_at, n - 1) {
            Ok(fs) => match row_fact(
                table[0].len() as int,
                cols,
                table[n],
                readings[n],
                n - 1,
                year,
                v,
                published_at,
                retrieved_at,
            ) {
                Ok(f) => {
                    let fs2 = fs.push(f);
                    assert(fact_of_row(f, table[n], cols, year, v));
                    assert(f.published_at == published_at);
                    assert(data_facts(table, readings, cols, year, v, published_at, retrieved_at, n)
                        == Ok::<_, ErrorModel>(fs2));
                    assert forall|k: int| 0 <= k < fs2.len() implies #[trigger] fact_of_row(
                        fs2[k],
                        table[k + 1],
                        cols,
                        year,
                        v,
                    ) && fs2[k].published_at == published_at by {
                        if k < fs.len() {
                            assert(fs2[k] == fs[k]);
                            assert(fact_of_row(fs[k], table[k + 1], cols, year, v));
                        } else {
                            assert(fs2[k] == f);
                        }
                    }
                },
                Err(_) => {},
            },
            Err(_) => {},
        }
    }
}

/// A successful ACS pass: the fact of data row `k` names the county of
/// that row (`geoId/` then its state and county codes), carries the
/// request's indicator, vintage, boundary year, valid interval and source
/// URL, and holds a value or an annotation (but not both) for its estimate
/// and for its margin of error. The source URL holds no `key=` unless the
/// variable itself does.
pub proof fn lemma_conform_fact_fields(
    table: Seq<Seq<Option<Seq<char>>>>,
    readings: Seq<Seq<FloatReading>>,
    year: u16,
    v: Seq<char>,
    retrieved_at: Timestamp,
)
    ensures
        conform_spec(table, readings, year, v, retrieved_at) matches Ok(fs) ==> fs.len()
            == table.len() - 1 && forall|k: int|
            0 <= k < fs.len() ==> #[trigger] fact_of_row(
                fs[k],
                table[k + 1],
                columns(table[0], v, request_url(year, v))->Ok_0,
                year,
                v,
            ),
        conform_spec(table, readings, year, v, retrieved_at) matches Ok(fs) ==> forall|k: int|
            0 <= k < fs.len() ==> #[trigger] fact_observed(fs[k]),
        conform_spec(table, readings, year, v, retrieved_at) matches Ok(fs) ==> forall|k: int|
            0 <= k < fs.len() ==> (!occurs_in(v, "key="@) ==> !occurs_in(
                #[trigger] fs[k].source_url,
                "key="@,
            )),
        !occurs_in(v, "key="@) ==> !occurs_in(request_url(year, v), "key="@),
        conform_spec(table, readings, year, v, retrieved_at) matches Ok(fs) ==> 2021 <= year <= 2024
            && forall|k: int|
            0 <= k < fs.len() ==> (#[trigger] fs[k]).published_at == release_date(year as int)->0,
{
    lemma_request_url_has_no_key(year, v);
    lemma_conform_facts(table, readings, year, v, retrieved_at);
    if table.len() > 0 {
        let url = request_url(year, v);
        match columns(table[0], v, url) {
            Ok(cols) => match release_date(year as int) {
                Some(published_at) => {
                    lemma_data_facts_fields(
                        table,
                        readings,
                        cols,
                        year,
                        v,
                        published_at,
                        retrieved_at,
                        table.len() - 1,
                    );
                    if conform_spec(table, readings, year, v, retrieved_at) is Ok {
                        let fs = conform_spec(table, readings, year, v, retrieved_at)->Ok_0;
                        assert forall|k: int| 0 <= k < fs.len() implies (
                        #[trigger] fs[k]).published_at == release_date(year as int)->0 by {
                            assert(fact_of_row(fs[k], table[k + 1], cols, year, v));
                        }
                        if !occurs_in(v, "key="@) {
                            assert forall|k: int| 0 <= k < fs.len() implies !occurs_in(
                                #[trigger] fs[k].source_url,
                                "key="@,
                            ) by {
                                assert(fact_of_row(fs[k], table[k + 1], cols, year, v));
                            }
                        }
                    }
                },
                None => {},
            },
            Err(_) => {},
        }
    }
}

/// Every data row from 1 to `n` has a `NAME` cell with text.
pub open spec fn names_present(table: Seq<Seq<Option<Seq<char>>>>, name: int, n: int) -> bool {
    forall|k: int| 1 <= k <= n ==> name < (#[trigger] table[k]).len() && table[k][name] is Some
}

proof fn lemma_registry_rows_match(
    table: Seq<Seq<Option<Seq<char>>>>,
    readings: Seq<Seq<FloatReading>>,
    cols: Columns,
    name: int,
    year: u16,
    v: Seq<char>,
    published_at: Date,
    retrieved_at: Timestamp,
    n: int,
)
    requires
        0 <= n < table.len(),
        0 <= cols.state < table[0].len(),
        0 <= cols.county < table[0].len(),
        0 <= name,
        names_present(table, name, n),
    ensures
        data_facts(table, readings, cols, year, v, published_at, retrieved_at, n) matches Ok(fs)
            ==> registry_rows(table, name, cols.state, cols.county, year, n).len() == fs.len()
            && forall|k: int|
            0 <= k < fs.len() ==> {
                let e = #[trigger] registry_rows(table, name, cols.state, cols.county, year, n)[k];
                &&& e.entity_id == fs[k].entity_id
                &&& e.name == table[k + 1][name]->0
                &&& e.level == Level::County
                &&& e.boundary_year == year
                &&& e.vintage == request_vintage(year)
            },
    decreases n,
{
    if n > 0 {
        lemma_registry_rows_match(
            table,
            readings,
            cols,
            name,
            year,
            v,
            published_at,
            retrieved_at,
            n - 1,
        );
        let row = table[n];
        assert(name < table[n].len() && table[n][name] is Some);
        match data_facts(table, readings, cols, year, v, published_at, retrieved_at, n - 1) {
            Ok(prev) => match row_fact(
                table[0].len() as int,
                cols,
                row,
                readings[n],
                n - 1,
                year,
                v,
                published_at,
                retrieved_at,
            ) {
                Ok(f) => {
                    let before = registry_rows(table, name, cols.state, cols.county, year, n - 1);
                    let e = row_entity(row, name, cols.state, cols.county, year)->0;
                    assert(row_entity(row, name, cols.state, cols.county, year) is Some);
                    let now = registry_rows(table, name, cols.state, cols.county, year, n);
                    assert(now == before.push(e));
                    let fs = prev.push(f);
                    lemma_data_facts_fields(
                        table,
                        readings,
                        cols,
                        year,
                        v,
                        published_at,
                        retrieved_at,
                        n - 1,
                    );
                    assert(prev.len() == n - 1);
                    assert(now[n - 1] == e);
                    assert(fs[n - 1] == f);
                    assert(e.entity_id == f.entity_id);
                    assert forall|k: int| 0 <= k < fs.len() implies {
                        let x = #[trigger] now[k];
                        &&& x.entity_id == fs[k].entity_id
                        &&& x.name == table[k + 1][name]->0
                        &&& x.level == Level::County
                        &&& x.boundary_year == year
                        &&& x.vintage == request_vintage(year)
                    } by {
                        if k < prev.len() {
                            assert(now[k] == before[k]);
                            assert(fs[k] == prev[k]);
                        }
                    }
                },
                Err(_) => {},
            },
            Err(_) => {},
        }
    }
}

/// A successful ACS pass whose response names every county has one
/// registry row per fact, in the same order: the same county, called what
/// its row's `NAME` cell says, at county level, in the request's vintage.
pub proof fn lemma_registry_per_fact(
    table: Seq<Seq<Option<Seq<char>>>>,
    readings: Seq<Seq<FloatReading>>,
    year: u16,
    v: Seq<char>,
    retrieved_at: Timestamp,
)
    requires
        table.len() > 0,
        column(table[0], "NAME"@, request_url(year, v)) is Ok,
        names_present(
            table,
            column(table[0], "NAME"@, request_url(year, v))->Ok_0,
            table.len() - 1,
        ),
    ensures
        conform_spec(table, readings, year, v, retrieved_at) matches Ok(fs) ==> {
            let es = registry_spec(table, year, v);
            &&& es.len() == fs.len()
            &&& forall|k: int|
                0 <= k < fs.len() ==> {
                    &&& (#[trigger] es[k]).entity_id == fs[k].entity_id
                    &&& es[k].name == table[k + 1][column(
                        table[0],
                        "NAME"@,
                        request_url(year, v),
                    )->Ok_0]->0
                    &&& es[k].level == Level::County
                    &&& es[k].boundary_year == year
                    &&& es[k].vintage == request_vintage(year)
                }
        },
{
    let url = request_url(year, v);
    let name = column(table[0], "NAME"@, url)->Ok_0;
    match columns(table[0], v, url) {
        Ok(cols) => match release_date(year as int) {
            Some(published_at) => {
                lemma_registry_rows_match(
                    table,
                    readings,
                    cols,
                    name,
                    year,
                    v,
                    published_at,
                    retrieved_at,
                    table.len() - 1,
                );
            },
            None => {},
        },
        Err(_) => {},
    }
}

/// The ACS 5-year releases: exactly the vintages 2021 to 2024 have a
/// release date, each after the vintage's five-year period has ended, a
/// later vintage released later, on the dates the Census Bureau announced
/// (2021: 2022-12-08, 2022: 2023-12-07, 2023: 2024-12-12, 2024: 2026-01-29).
pub proof fn lemma_release_dates(a: int, b: int)
    ensures
        release_date(a) is Some <==> 2021 <= a <= 2024,
        release_date(a) matches Some(d) ==> date_before(
            Date { year: (a + 1) as i32, month: 1, day: 1 },
            d,
        ) && d.is_valid(),
        release_date(a) matches Some(da) ==> (release_date(b) matches Some(db) ==> (a < b
            ==> date_before(da, db))),
        release_date(2021) == Some(Date { year: 2022, month: 12, day: 8 }),
        release_date(2022) == Some(Date { year: 2023, month: 12, day: 7 }),
        release_date(2023) == Some(Date { year: 2024, month: 12, day: 12 }),
        release_date(2024) == Some(Date { year: 2026, month: 1, day: 29 }),
{
}

/// The Census Bureau's annotation codes: exactly six codes, each a
/// nine-digit negative number of one repeated digit; distinct codes carry
/// distinct annotations; the margin-of-error annotations are defined for
/// the margin of error only, "insufficient sample" for the estimate only,
/// and "not displayable" and "not applicable" for either. The table:
/// -666666666 insufficient sample, -999999999 not displayable, -888888888
/// not applicable, -222222222 MOE insufficient sample, -333333333 MOE
/// open-ended median, -555555555 controlled.
pub proof fn lemma_sentinel_codes(code: int, other: int)
    ensures
        sentinel(code) is Some <==> (code == -666_666_666 || code == -999_999_999 || code
            == -888_888_888 || code == -222_222_222 || code == -333_333_333 || code
            == -555_555_555),
        sentinel(code) is Some ==> -999_999_999 <= code <= -111_111_111 && code % 111_111_111 == 0,
        sentinel(code) matches Some((a, f)) ==> (sentinel(other) matches Some((b, g)) ==> (a == b
            ==> code == other)),
        sentinel(code) matches Some((a, f)) ==> (f == Field::Moe <==> (a
            == Annotation::MoeInsufficientSample || a == Annotation::MoeOpenEndedMedian || a
            == Annotation::Controlled)),
        sentinel(code) matches Some((a, f)) ==> (f == Field::Estimate <==> a
            == Annotation::InsufficientSample),
        sentinel(code) matches Some((a, f)) ==> (f == Field::Either <==> (a
            == Annotation::NotDisplayable || a == Annotation::NotApplicable)),
        sentinel(-666_666_666) == Some((Annotation::InsufficientSample, Field::Estimate)),
        sentinel(-999_999_999) == Some((Annotation::NotDisplayable, Field::Either)),
        sentinel(-888_888_888) == Some((Annotation::NotApplicable, Field::Either)),
        sentinel(-222_222_222) == Some((Annotation::MoeInsufficientSample, Field::Moe)),
        sentinel(-333_333_333) == Some((Annotation::MoeOpenEndedMedian, Field::Moe)),
        sentinel(-555_555_555) == Some((Annotation::Controlled, Field::Moe)),
{
}

/// A measure cell: a null is "missing"; a listed annotation code defined
/// for the cell's field becomes that annotation and no value, a code
/// defined only for the other field is refused; a value is the cell's text
/// unchanged, and only a finite number above the sentinel floor that is no
/// listed code is one.
pub proof fn lemma_measure_cases(
    text: Option<Seq<char>>,
    reading: FloatReading,
    field: Field,
    field_name: Seq<char>,
    geoid: Seq<char>,
    variable: Seq<char>,
)
    ensures
        text is None ==> measure(text, reading, field, field_name, geoid, variable) == Ok::<
            (Option<Seq<char>>, Option<Annotation>),
            ErrorModel,
        >((None, Some(Annotation::Missing))),
        measure(text, reading, field, field_name, geoid, variable) matches Ok((Some(v), a)) ==> {
            &&& text == Some(v)
            &&& a is None
            &&& is_float_text(v)
            &&& reading.finite
            &&& !reading.at_or_below_floor
            &&& !(parse_i64_spec(v) is Some && sentinel(parse_i64_spec(v)->0 as int) is Some)
        },
        text matches Some(t) ==> (parse_i64_spec(t) matches Some(c) ==> (sentinel(c as int) matches Some(
            (a, f),
        ) ==> {
            &&& (f == Field::Either || f == field) ==> measure(
                text,
                reading,
                field,
                field_name,
                geoid,
                variable,
            ) == Ok::<(Option<Seq<char>>, Option<Annotation>), ErrorModel>((None, Some(a)))
            &&& !(f == Field::Either || f == field) ==> measure(
                text,
                reading,
                field,
                field_name,
                geoid,
                variable,
            ) == Err::<(Option<Seq<char>>, Option<Annotation>), ErrorModel>(
                ErrorModel::SentinelOnWrongField { code: c, field: field_name, geoid, variable },
            )
        })),
{
}

/// An ACS 5-year vintage covers the five calendar years ending in the
/// vintage year: its interval runs from a New Year's Day to the New Year's
/// Day five years later, the one right after the vintage year.
pub proof fn lemma_interval_five_years(year: u16)
    requires
        year >= 4,
    ensures
        interval_of(year).0.month == 1 && interval_of(year).0.day == 1,
        interval_of(year).1.month == 1 && interval_of(year).1.day == 1,
        interval_of(year).1.year == year + 1,
        interval_of(year).1.year - interval_of(year).0.year == 5,
        interval_of(year).0.is_valid() && interval_of(year).1.is_valid(),
{
}
} // verus!
