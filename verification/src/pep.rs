//! Census Population Estimates Program (PEP): vintage county-totals files.
//!
//! PEP vintages 2022+ ship as static CSV files. Each vintage restates the
//! July 1 estimate for every year back to 2020, so the same
//! `(entity, indicator, valid_time)` carries a different value per vintage:
//! true revisions, the second time axis in action.
//!
//! File shape: a header row (`SUMLEV,...,STATE,COUNTY,...,ESTIMATESBASE2020,
//! POPESTIMATE2020,...`) and one row per state (SUMLEV 040) or
//! county-equivalent (SUMLEV 050). The estimate columns grow by one per
//! vintage, so they are discovered from the header, never hard-coded.

use vstd::prelude::*;
use vstd::utf8::{decode_utf8, valid_utf8};

use crate::error::{Error, ErrorModel};
use crate::fact::{
    Annotation, Entity, EntityView, Level, Position, PositionView, entities_view, Fact, FactView, checked_facts, ensure_unique_keys, fact_keys, fact_observed,
    facts_view, keys_unique,
};
use crate::number::{parse_i64, parse_i64_spec, parse_u16, parse_u16_spec};
use crate::text::{
    chars_of, chars_equal, decimal, debug_text, push_char, push_decimal,
    push_str, range_equals, str_debug, string_of, trim, trim_bounds,
};
use crate::time::{Date, Timestamp, date_before};

verus! {

/// Publication dates of PEP vintage county totals, from Census Bureau press
/// releases (the files don't say).
pub open spec fn release_date(year: int) -> Option<Date> {
    if year == 2022 {
        Some(Date { year: 2023, month: 3, day: 30 })
    } else if year == 2023 {
        Some(Date { year: 2024, month: 3, day: 14 })
    } else if year == 2024 {
        Some(Date { year: 2025, month: 3, day: 13 })
    } else if year == 2025 {
        Some(Date { year: 2026, month: 3, day: 26 })
    } else {
        None
    }
}

#[derive(Debug, Clone)]
pub struct Request {
    pub vintage_year: u16,
}

pub open spec fn request_url(year: u16) -> Seq<char> {
    "https://www2.census.gov/programs-surveys/popest/datasets/2020-"@ + decimal(year as nat)
        + "/counties/totals/co-est"@ + decimal(year as nat) + "-alldata.csv"@
}

pub open spec fn request_vintage(year: u16) -> Seq<char> {
    "pep-"@ + decimal(year as nat)
}

pub open spec fn request_dataset(year: u16) -> Seq<char> {
    "pep/co-est"@ + decimal(year as nat) + "-alldata"@
}

impl Request {
    pub fn new(vintage_year: u16) -> (r: Self)
        ensures
            r.vintage_year == vintage_year,
    {
        Request { vintage_year }
    }

    pub fn published_at(&self) -> (r: Result<Date, Error>)
        ensures
            match release_date(self.vintage_year as int) {
                Some(d) => r matches Ok(x) && x == d,
                None => r matches Err(e) && e@ == ErrorModel::UnsupportedVintage {
                    dataset: "pep county totals"@,
                    year: self.vintage_year,
                },
            },
    {
        let y = self.vintage_year;
        if y == 2022 {
            Ok(Date::new(2023, 3, 30))
        } else if y == 2023 {
            Ok(Date::new(2024, 3, 14))
        } else if y == 2024 {
            Ok(Date::new(2025, 3, 13))
        } else if y == 2025 {
            Ok(Date::new(2026, 3, 26))
        } else {
            Err(Error::UnsupportedVintage { dataset: string_of("pep county totals"), year: y })
        }
    }

    pub fn url(&self) -> (r: String)
        ensures
            r@ == request_url(self.vintage_year),
    {
        let mut s = string_of("https://www2.census.gov/programs-surveys/popest/datasets/2020-");
        push_decimal(&mut s, self.vintage_year as u64);
        push_str(&mut s, "/counties/totals/co-est");
        push_decimal(&mut s, self.vintage_year as u64);
        push_str(&mut s, "-alldata.csv");
        proof {
            assert(s@ =~= request_url(self.vintage_year));
        }
        s
    }

    pub fn vintage(&self) -> (r: String)
        ensures
            r@ == request_vintage(self.vintage_year),
    {
        let mut s = string_of("pep-");
        push_decimal(&mut s, self.vintage_year as u64);
        s
    }

    pub fn source_dataset(&self) -> (r: String)
        ensures
            r@ == request_dataset(self.vintage_year),
    {
        let mut s = string_of("pep/co-est");
        push_decimal(&mut s, self.vintage_year as u64);
        push_str(&mut s, "-alldata");
        proof {
            assert(s@ =~= request_dataset(self.vintage_year));
        }
        s
    }
}

// ---------------------------------------------------------------------------
// Decoding
// ---------------------------------------------------------------------------
/// Each byte as the character with that code point (Latin-1).
pub open spec fn latin1(bytes: Seq<u8>) -> Seq<char> {
    bytes.map_values(|b: u8| b as char)
}

/// `std::str::from_utf8`: the bytes as text when they are UTF-8, `None`
/// when they are not.
#[verifier::external_body]
fn utf8_text<'a>(bytes: &'a [u8]) -> (r: Option<&'a str>)
    ensures
        match r {
            Some(s) => valid_utf8(bytes@) && s@ == decode_utf8(bytes@),
            None => !valid_utf8(bytes@),
        },
{
    std::str::from_utf8(bytes).ok()
}

/// Decode a vintage file. Some vintages are UTF-8, others Latin-1. UTF-8 is
/// tried first because its multi-byte structure makes validity a strong
/// signal; on failure, Latin-1, where every byte is its own code point.
pub fn decode(bytes: Vec<u8>) -> (r: String)
    ensures
        valid_utf8(bytes@) ==> r@ == decode_utf8(bytes@),
        !valid_utf8(bytes@) ==> r@ == latin1(bytes@),
{
    match utf8_text(bytes.as_slice()) {
        Some(text) => text.to_owned(),
        None => {
            let mut s = String::new();
            let mut i: usize = 0;
            while i < bytes.len()
                invariant
                    i <= bytes@.len(),
                    s@ == latin1(bytes@.take(i as int)),
                decreases bytes.len() - i,
            {
                let b = bytes[i];
                push_char(&mut s, b as char);
                proof {
                    assert(latin1(bytes@.take(i + 1)) =~= latin1(bytes@.take(i as int)).push(
                        b as char,
                    ));
                }
                i = i + 1;
            }
            proof {
                assert(bytes@.take(bytes@.len() as int) =~= bytes@);
            }
            s
        },
    }
}

// ---------------------------------------------------------------------------
// Reading the CSV
// ---------------------------------------------------------------------------
/// What the csv crate's default reader makes of `text`: the header record
/// (or the error message reading it) and every following record (each, or
/// the error message reading it), fields as text.
pub uninterp spec fn csv_records(text: Seq<char>) -> (
    Result<Seq<Seq<char>>, Seq<char>>,
    Seq<Result<Seq<Seq<char>>, Seq<char>>>,
);

pub open spec fn fields_view(r: Vec<String>) -> Seq<Seq<char>> {
    r@.map_values(|f: String| f@)
}

pub open spec fn record_view(r: Result<Vec<String>, String>) -> Result<Seq<Seq<char>>, Seq<char>> {
    match r {
        Ok(f) => Ok(fields_view(f)),
        Err(m) => Err(m@),
    }
}

/// `csv::ReaderBuilder::new().from_reader(text.as_bytes())`: `headers()`,
/// then `records()` to the end, errors as their `Display` messages. The
/// contract names the result `csv_records(text)`; the framing rules (quotes,
/// line ends, equal record lengths) are the crate's. When the header fails,
/// no record is read.
#[verifier::external_body]
fn read_csv(text: &str) -> (r: (Result<Vec<String>, String>, Vec<Result<Vec<String>, String>>))
    ensures
        record_view(r.0) == csv_records(text@).0,
        r.0 is Ok ==> r.1@.map_values(|x: Result<Vec<String>, String>| record_view(x))
            == csv_records(text@).1,
{
    let mut reader = csv::ReaderBuilder::new().from_reader(text.as_bytes());
    let headers = match reader.headers() {
        Ok(h) => h.iter().map(str::to_owned).collect::<Vec<String>>(),
        Err(e) => return (Err(e.to_string()), Vec::new()),
    };
    let records = reader.records().map(
        |r| r.map(|rec| rec.iter().map(str::to_owned).collect::<Vec<String>>()).map_err(
            |e| e.to_string(),
        ),
    ).collect();
    (Ok(headers), records)
}

// ---------------------------------------------------------------------------
// Conforming
// ---------------------------------------------------------------------------
/// Position of the first header equal to `name`, or the header count.
pub open spec fn header_position(h: Seq<Seq<char>>, name: Seq<char>, from: int) -> int
    decreases h.len() - from,
{
    if from >= h.len() {
        h.len() as int
    } else if h[from] == name {
        from
    } else {
        header_position(h, name, from + 1)
    }
}

pub open spec fn header_column(h: Seq<Seq<char>>, name: Seq<char>, url: Seq<char>) -> Result<
    int,
    ErrorModel,
> {
    let p = header_position(h, name, 0);
    if 0 <= p < h.len() {
        Ok(p)
    } else {
        Err(
            ErrorModel::BadResponseShape {
                url,
                detail: "no column "@ + str_debug(name) + " in header"@,
            },
        )
    }
}

/// The year a `POPESTIMATE<year>` header names.
pub open spec fn estimate_year(h: Seq<char>) -> Option<u16> {
    let p = "POPESTIMATE"@;
    if h.len() >= p.len() && h.take(p.len() as int) == p {
        parse_u16_spec(h.skip(p.len() as int))
    } else {
        None
    }
}

/// `(year, column)` of the estimate columns among the first `n` headers, in
/// header order.
pub open spec fn year_columns(h: Seq<Seq<char>>, n: int) -> Seq<(u16, usize)>
    decreases n,
{
    if n <= 0 {
        Seq::empty()
    } else {
        let rest = year_columns(h, n - 1);
        match estimate_year(h[n - 1]) {
            Some(y) => rest.push((y, (n - 1) as usize)),
            None => rest,
        }
    }
}

pub open spec fn pair_le(a: (u16, usize), b: (u16, usize)) -> bool {
    a.0 < b.0 || (a.0 == b.0 && a.1 <= b.1)
}

/// `x` inserted into `s` before the first element it does not exceed.
pub open spec fn insert_sorted(x: (u16, usize), s: Seq<(u16, usize)>) -> Seq<(u16, usize)>
    decreases s.len(),
{
    if s.len() == 0 {
        seq![x]
    } else if pair_le(x, s[0]) {
        seq![x] + s
    } else {
        seq![s[0]] + insert_sorted(x, s.drop_first())
    }
}

/// `s` in ascending order.
pub open spec fn sorted(s: Seq<(u16, usize)>) -> Seq<(u16, usize)>
    decreases s.len(),
{
    if s.len() == 0 {
        Seq::empty()
    } else {
        insert_sorted(s.last(), sorted(s.drop_last()))
    }
}

/// 2020 ..= year.
pub open spec fn expected_years(year: u16) -> Seq<u16> {
    Seq::new(if year >= 2020 {
        (year - 2019) as nat
    } else {
        0
    }, |i: int| (2020 + i) as u16)
}

/// `{:?}` of a list of years, as the items separated by `, `.
pub open spec fn years_items(ys: Seq<u16>) -> Seq<char>
    decreases ys.len(),
{
    if ys.len() == 0 {
        Seq::empty()
    } else if ys.len() == 1 {
        decimal(ys[0] as nat)
    } else {
        years_items(ys.drop_last()) + ", "@ + decimal(ys.last() as nat)
    }
}

pub open spec fn years_debug(ys: Seq<u16>) -> Seq<char> {
    "["@ + years_items(ys) + "]"@
}

/// `entity_id` with every leading `geoId/` removed (`trim_start_matches`).
pub open spec fn strip_geo_prefix(s: Seq<char>) -> Seq<char>
    decreases s.len(),
{
    let p = "geoId/"@;
    if p.len() > 0 && s.len() >= p.len() && s.take(p.len() as int) == p {
        strip_geo_prefix(s.skip(p.len() as int))
    } else {
        s
    }
}

/// A population count: a non-negative integer, nothing else; its value as
/// decimal text.
pub open spec fn count_of(
    text: Seq<char>,
    field: Seq<char>,
    entity_id: Seq<char>,
    year: u16,
) -> Result<Seq<char>, ErrorModel> {
    match parse_i64_spec(trim(text)) {
        Some(v) => if v >= 0 {
            Ok(decimal(v as nat))
        } else {
            Err(count_error(text, field, entity_id, year))
        },
        None => Err(count_error(text, field, entity_id, year)),
    }
}

pub open spec fn count_error(text: Seq<char>, field: Seq<char>, entity_id: Seq<char>, year: u16) -> ErrorModel {
    ErrorModel::BadNumber {
        text,
        field,
        geoid: strip_geo_prefix(entity_id),
        variable: "co-est"@ + decimal(year as nat) + "-alldata"@,
    }
}

/// Field `col` of a record, or the empty text.
pub open spec fn cell(r: Seq<Seq<char>>, col: int) -> Seq<char> {
    if 0 <= col < r.len() {
        r[col]
    } else {
        Seq::empty()
    }
}

/// The fact of one value of one entity.
pub open spec fn fact_of(
    entity_id: Seq<char>,
    indicator: Seq<char>,
    valid_from: Date,
    valid_to: Date,
    value: Seq<char>,
    year: u16,
    published_at: Date,
    retrieved_at: Timestamp,
) -> FactView {
    FactView {
        entity_id,
        indicator_id: indicator,
        valid_from,
        valid_to,
        vintage: request_vintage(year),
        published_at,
        value: Some(value),
        moe: None,
        value_annotation: None,
        moe_annotation: Some(Annotation::NotApplicable),
        boundary_year: year,
        source_dataset: request_dataset(year),
        source_url: request_url(year),
        retrieved_at,
    }
}

/// The columns a conform pass reads.
pub struct Layout {
    pub sumlev: int,
    pub state: int,
    pub county: int,
    pub base: int,
    pub years: Seq<(u16, usize)>,
}

/// The entity a record is about, from its summary level.
pub open spec fn record_entity(r: Seq<Seq<char>>, lay: Layout, i: int, year: u16) -> Result<
    Seq<char>,
    ErrorModel,
> {
    let sumlev = cell(r, lay.sumlev);
    if sumlev == "040"@ {
        Ok("geoId/"@ + cell(r, lay.state))
    } else if sumlev == "050"@ {
        Ok("geoId/"@ + cell(r, lay.state) + cell(r, lay.county))
    } else {
        Err(
            ErrorModel::BadResponseShape {
                url: request_url(year),
                detail: "row "@ + decimal((i + 2) as nat) + ": unexpected SUMLEV "@ + str_debug(
                    sumlev,
                ),
            },
        )
    }
}

/// The estimate facts of the first `k` estimate columns of a record.
pub open spec fn estimate_facts(
    r: Seq<Seq<char>>,
    lay: Layout,
    entity_id: Seq<char>,
    year: u16,
    published_at: Date,
    retrieved_at: Timestamp,
    k: int,
) -> Result<Seq<FactView>, ErrorModel>
    decreases k,
{
    if k <= 0 {
        Ok(Seq::empty())
    } else {
        match estimate_facts(r, lay, entity_id, year, published_at, retrieved_at, k - 1) {
            Err(e) => Err(e),
            Ok(fs) => {
                let (y, col) = lay.years[k - 1];
                match count_of(cell(r, col as int), "POPESTIMATE"@, entity_id, year) {
                    Err(e) => Err(e),
                    Ok(v) => Ok(
                        fs.push(
                            fact_of(
                                entity_id,
                                "pep:POPESTIMATE"@,
                                Date { year: y as i32, month: 7, day: 1 },
                                Date { year: y as i32, month: 7, day: 2 },
                                v,
                                year,
                                published_at,
                                retrieved_at,
                            ),
                        ),
                    ),
                }
            },
        }
    }
}

/// The facts of one record: the estimates base (census day, April 1 2020),
/// then each July 1 estimate, in year order.
pub open spec fn record_facts(
    r: Seq<Seq<char>>,
    lay: Layout,
    i: int,
    year: u16,
    published_at: Date,
    retrieved_at: Timestamp,
) -> Result<Seq<FactView>, ErrorModel> {
    match record_entity(r, lay, i, year) {
        Err(e) => Err(e),
        Ok(entity_id) => match count_of(
            cell(r, lay.base),
            "ESTIMATESBASE2020"@,
            entity_id,
            year,
        ) {
            Err(e) => Err(e),
            Ok(base) => match estimate_facts(
                r,
                lay,
                entity_id,
                year,
                published_at,
                retrieved_at,
                lay.years.len() as int,
            ) {
                Err(e) => Err(e),
                Ok(fs) => Ok(
                    seq![
                        fact_of(
                            entity_id,
                            "pep:ESTIMATESBASE"@,
                            Date { year: 2020, month: 4, day: 1 },
                            Date { year: 2020, month: 4, day: 2 },
                            base,
                            year,
                            published_at,
                            retrieved_at,
                        ),
                    ] + fs,
                ),
            },
        },
    }
}

/// The facts of the first `n` records.
pub open spec fn records_facts(
    records: Seq<Result<Seq<Seq<char>>, Seq<char>>>,
    lay: Layout,
    year: u16,
    published_at: Date,
    retrieved_at: Timestamp,
    n: int,
) -> Result<Seq<FactView>, ErrorModel>
    decreases n,
{
    if n <= 0 {
        Ok(Seq::empty())
    } else {
        match records_facts(records, lay, year, published_at, retrieved_at, n - 1) {
            Err(e) => Err(e),
            Ok(fs) => match records[n - 1] {
                Err(msg) => Err(ErrorModel::Csv { url: request_url(year), detail: msg }),
                Ok(r) => match record_facts(r, lay, n - 1, year, published_at, retrieved_at) {
                    Err(e) => Err(e),
                    Ok(more) => Ok(fs + more),
                },
            },
        }
    }
}

/// The conform pass over what the CSV reader made of a vintage file: its
/// header record and its records.
pub open spec fn records_conform_spec(
    headers: Result<Seq<Seq<char>>, Seq<char>>,
    records: Seq<Result<Seq<Seq<char>>, Seq<char>>>,
    year: u16,
    retrieved_at: Timestamp,
) -> Result<Seq<FactView>, ErrorModel> {
    let url = request_url(year);
    match headers {
        Err(msg) => Err(ErrorModel::Csv { url, detail: msg }),
        Ok(h) => match header_column(h, "SUMLEV"@, url) {
            Err(e) => Err(e),
            Ok(sumlev) => match header_column(h, "STATE"@, url) {
                Err(e) => Err(e),
                Ok(state) => match header_column(h, "COUNTY"@, url) {
                    Err(e) => Err(e),
                    Ok(county) => match header_column(h, "ESTIMATESBASE2020"@, url) {
                        Err(e) => Err(e),
                        Ok(base) => {
                            let years = sorted(year_columns(h, h.len() as int));
                            let found = years.map_values(|p: (u16, usize)| p.0);
                            if found != expected_years(year) {
                                Err(
                                    ErrorModel::BadResponseShape {
                                        url,
                                        detail: "POPESTIMATE years "@ + years_debug(found)
                                            + ", expected "@ + years_debug(expected_years(year)),
                                    },
                                )
                            } else {
                                match release_date(year as int) {
                                    None => Err(
                                        ErrorModel::UnsupportedVintage {
                                            dataset: "pep county totals"@,
                                            year,
                                        },
                                    ),
                                    Some(published_at) => checked_facts(
                                        records_facts(
                                            records,
                                            Layout { sumlev, state, county, base, years },
                                            year,
                                            published_at,
                                            retrieved_at,
                                            records.len() as int,
                                        ),
                                    ),
                                }
                            }
                        },
                    },
                },
            },
        },
    }
}

// ---------------------------------------------------------------------------
// The conform pass, computed
// ---------------------------------------------------------------------------
/// The whole conform pass over a decoded vintage file.
pub open spec fn conform_spec(text: Seq<char>, year: u16, retrieved_at: Timestamp) -> Result<
    Seq<FactView>,
    ErrorModel,
> {
    records_conform_spec(csv_records(text).0, csv_records(text).1, year, retrieved_at)
}

/// Turn a decoded vintage file into facts. Pure: no network, no clock.
pub fn conform(text: &str, req: &Request, retrieved_at: Timestamp) -> (r: Result<Vec<Fact>, Error>)
    ensures
        match conform_spec(text@, req.vintage_year, retrieved_at) {
            Ok(facts) => r matches Ok(fs) && facts_view(fs@) == facts,
            Err(em) => r matches Err(e) && e@ == em,
        },
{
    let (headers, records) = read_csv(text);
    conform_records(&headers, &records, req, retrieved_at)
}

/// Turn the records the CSV reader made of a vintage file into facts.
pub fn conform_records(
    headers: &Result<Vec<String>, String>,
    records: &Vec<Result<Vec<String>, String>>,
    req: &Request,
    retrieved_at: Timestamp,
) -> (r: Result<Vec<Fact>, Error>)
    ensures
        match records_conform_spec(
            record_view(*headers),
            records@.map_values(|x: Result<Vec<String>, String>| record_view(x)),
            req.vintage_year,
            retrieved_at,
        ) {
            Ok(facts) => r matches Ok(fs) && facts_view(fs@) == facts,
            Err(em) => r matches Err(e) && e@ == em,
        },
{
    let year = req.vintage_year;
    let url = req.url();
    let ghost records_model = records@.map_values(|x: Result<Vec<String>, String>| record_view(x));
    let ghost headers_model = record_view(*headers);
    let header_fields = match headers {
        Ok(h) => h,
        Err(msg) => {
            return Err(Error::Csv { url, detail: string_of(msg.as_str()) });
        },
    };
    let ghost h = fields_view(*header_fields);
    let sumlev_col = match find_header(header_fields, "SUMLEV", &url) {
        Ok(c) => c,
        Err(e) => {
            return Err(e);
        },
    };
    let state_col = match find_header(header_fields, "STATE", &url) {
        Ok(c) => c,
        Err(e) => {
            return Err(e);
        },
    };
    let county_col = match find_header(header_fields, "COUNTY", &url) {
        Ok(c) => c,
        Err(e) => {
            return Err(e);
        },
    };
    let base_col = match find_header(header_fields, "ESTIMATESBASE2020", &url) {
        Ok(c) => c,
        Err(e) => {
            return Err(e);
        },
    };
    let discovered = estimate_columns(header_fields);
    let years = sort_pairs(&discovered);
    let mut found: Vec<u16> = Vec::new();
    let mut k: usize = 0;
    while k < years.len()
        invariant
            k <= years@.len(),
            found@ == years@.take(k as int).map_values(|p: (u16, usize)| p.0),
        decreases years.len() - k,
    {
        found.push(years[k].0);
        proof {
            assert(years@.take(k + 1).map_values(|p: (u16, usize)| p.0) =~= years@.take(
                k as int,
            ).map_values(|p: (u16, usize)| p.0).push(years@[k as int].0));
        }
        k = k + 1;
    }
    proof {
        assert(years@.take(years@.len() as int) =~= years@);
    }
    let expected = expected_list(year);
    if !same_years(&found, &expected) {
        let mut d = string_of("POPESTIMATE years ");
        push_years_debug(&mut d, &found);
        push_str(&mut d, ", expected ");
        push_years_debug(&mut d, &expected);
        proof {
            assert(d@ =~= "POPESTIMATE years "@ + years_debug(found@) + ", expected "@
                + years_debug(expected@));
        }
        return Err(Error::BadResponseShape { url, detail: d });
    }
    let published_at = match req.published_at() {
        Ok(d) => d,
        Err(e) => {
            return Err(e);
        },
    };
    let ghost lay = Layout {
        sumlev: sumlev_col as int,
        state: state_col as int,
        county: county_col as int,
        base: base_col as int,
        years: years@,
    };
    let mut facts: Vec<Fact> = Vec::new();
    proof {
        assert(facts_view(facts@) =~= Seq::<FactView>::empty());
        assert(h.len() == header_fields@.len());
        assert(found@ == expected_years(year));
        assert(records_conform_spec(headers_model, records_model, year, retrieved_at) == checked_facts(
            records_facts(records_model, lay, year, published_at, retrieved_at, records_model.len() as int),
        ));
    }
    let mut i: usize = 0;
    while i < records.len()
        invariant
            i <= records@.len(),
            records@.len() == records_model.len(),
            headers_model == record_view(*headers),
            records_conform_spec(headers_model, records_model, req.vintage_year, retrieved_at)
                == checked_facts(
                records_facts(records_model, lay, year, published_at, retrieved_at, records_model.len() as int),
            ),
            records@.map_values(|x: Result<Vec<String>, String>| record_view(x))
                == records_model,
            lay.sumlev == sumlev_col,
            lay.state == state_col,
            lay.county == county_col,
            lay.base == base_col,
            lay.years == years@,
            url@ == request_url(year),
            year == req.vintage_year,
            records_facts(records_model, lay, year, published_at, retrieved_at, i as int) == Ok::<
                _,
                ErrorModel,
            >(facts_view(facts@)),
        decreases records.len() - i,
    {
        proof {
            assert(records_model[i as int] == record_view(records@[i as int]));
        }
        match &records[i] {
            Err(msg) => {
                proof {
                    assert(records_facts(
                        records_model,
                        lay,
                        year,
                        published_at,
                        retrieved_at,
                        (i + 1) as int,
                    ) == Err::<Seq<FactView>, _>(ErrorModel::Csv { url: url@, detail: msg@ }));
                    lemma_records_facts_stop(
                        records_model,
                        lay,
                        year,
                        published_at,
                        retrieved_at,
                        (i + 1) as int,
                        records_model.len() as int,
                    );
                }
                return Err(Error::Csv { url, detail: string_of(msg.as_str()) });
            },
            Ok(record) => {
                match record_to_facts(
                    record,
                    sumlev_col,
                    state_col,
                    county_col,
                    base_col,
                    &years,
                    i,
                    req,
                    &url,
                    published_at,
                    retrieved_at,
                    Ghost(lay),
                ) {
                    Err(e) => {
                        proof {
                            assert(records_facts(
                                records_model,
                                lay,
                                year,
                                published_at,
                                retrieved_at,
                                (i + 1) as int,
                            ) == Err::<Seq<FactView>, _>(e@));
                            lemma_records_facts_stop(
                                records_model,
                                lay,
                                year,
                                published_at,
                                retrieved_at,
                                (i + 1) as int,
                                records_model.len() as int,
                            );
                        }
                        return Err(e);
                    },
                    Ok(more) => {
                        let ghost before = facts_view(facts@);
                        let ghost added = facts_view(more@);
                        let mut more = more;
                        facts.append(&mut more);
                        proof {
                            assert(facts_view(facts@) =~= before + added);
                        }
                    },
                }
            },
        }
        i = i + 1;
    }
    match ensure_unique_keys(facts.as_slice()) {
        Err(e) => Err(e),
        Ok(()) => Ok(facts),
    }
}

/// Once a record fails, the pass fails with that record's error.
proof fn lemma_records_facts_stop(
    records: Seq<Result<Seq<Seq<char>>, Seq<char>>>,
    lay: Layout,
    year: u16,
    published_at: Date,
    retrieved_at: Timestamp,
    i: int,
    n: int,
)
    requires
        records_facts(records, lay, year, published_at, retrieved_at, i) is Err,
        i <= n,
    ensures
        records_facts(records, lay, year, published_at, retrieved_at, n) == records_facts(
            records,
            lay,
            year,
            published_at,
            retrieved_at,
            i,
        ),
    decreases n - i,
{
    if i < n {
        lemma_records_facts_stop(records, lay, year, published_at, retrieved_at, i, n - 1);
    }
}

/// `header_column` over the exec header.
fn find_header(headers: &Vec<String>, name: &str, url: &String) -> (r: Result<usize, Error>)
    ensures
        match header_column(fields_view(*headers), name@, url@) {
            Ok(p) => r matches Ok(x) && x == p,
            Err(em) => r matches Err(e) && e@ == em,
        },
{
    let ghost h = fields_view(*headers);
    let mut i: usize = 0;
    while i < headers.len()
        invariant
            i <= headers@.len(),
            h == fields_view(*headers),
            header_position(h, name@, 0) == header_position(h, name@, i as int),
        decreases headers.len() - i,
    {
        proof {
            assert(h[i as int] == headers@[i as int]@);
        }
        if crate::text::same_text(headers[i].as_str(), name) {
            return Ok(i);
        }
        i = i + 1;
    }
    let mut d = string_of("no column ");
    let q = debug_text(name);
    push_str(&mut d, q.as_str());
    push_str(&mut d, " in header");
    proof {
        assert(d@ =~= "no column "@ + str_debug(name@) + " in header"@);
    }
    Err(Error::BadResponseShape { url: string_of(url.as_str()), detail: d })
}

// ---------------------------------------------------------------------------
// The entity registry
// ---------------------------------------------------------------------------
/// Where the header names column `name`, if it does.
pub open spec fn opt_column(h: Seq<Seq<char>>, name: Seq<char>) -> Option<int> {
    let p = header_position(h, name, 0);
    if 0 <= p < h.len() {
        Some(p)
    } else {
        None
    }
}

/// The columns the registry reads: summary level, state and county codes,
/// and the state and county names where the file has them.
pub struct NameLayout {
    pub sumlev: int,
    pub state: int,
    pub county: int,
    pub stname: Option<int>,
    pub ctyname: Option<int>,
}

/// The registry row of one record: a state row (`SUMLEV` 040) called what
/// its `STNAME` cell says, a county row (050) called what its `CTYNAME` cell
/// says; none for another level or a file without the name column.
pub open spec fn record_registry_entity(r: Seq<Seq<char>>, lay: NameLayout, year: u16) -> Option<
    EntityView,
> {
    let sumlev = cell(r, lay.sumlev);
    if sumlev == "040"@ {
        match lay.stname {
            Some(c) => Some(
                EntityView {
                    entity_id: "geoId/"@ + cell(r, lay.state),
                    name: cell(r, c),
                    level: Level::State,
                    boundary_year: year,
                    vintage: request_vintage(year),
                    source_dataset: request_dataset(year),
                    position: PositionView::Unknown,
                },
            ),
            None => None,
        }
    } else if sumlev == "050"@ {
        match lay.ctyname {
            Some(c) => Some(
                EntityView {
                    entity_id: "geoId/"@ + cell(r, lay.state) + cell(r, lay.county),
                    name: cell(r, c),
                    level: Level::County,
                    boundary_year: year,
                    vintage: request_vintage(year),
                    source_dataset: request_dataset(year),
                    position: PositionView::Unknown,
                },
            ),
            None => None,
        }
    } else {
        None
    }
}

/// The registry rows of the first `n` records, in order; a record the
/// reader refused has none.
pub open spec fn registry_rows(
    records: Seq<Result<Seq<Seq<char>>, Seq<char>>>,
    lay: NameLayout,
    year: u16,
    n: int,
) -> Seq<EntityView>
    decreases n,
{
    if n <= 0 {
        Seq::empty()
    } else {
        let prev = registry_rows(records, lay, year, n - 1);
        match records[n - 1] {
            Ok(r) => match record_registry_entity(r, lay, year) {
                Some(e) => prev.push(e),
                None => prev,
            },
            Err(_) => prev,
        }
    }
}

/// The registry rows of what the CSV reader made of a vintage file: none
/// when the header is unreadable or lacks `SUMLEV`, `STATE` or `COUNTY`.
/// Names are decoration, so a missing one never fails the pass.
pub open spec fn records_registry_spec(
    headers: Result<Seq<Seq<char>>, Seq<char>>,
    records: Seq<Result<Seq<Seq<char>>, Seq<char>>>,
    year: u16,
) -> Seq<EntityView> {
    match headers {
        Err(_) => Seq::empty(),
        Ok(h) => match (
            opt_column(h, "SUMLEV"@),
            opt_column(h, "STATE"@),
            opt_column(h, "COUNTY"@),
        ) {
            (Some(sumlev), Some(state), Some(county)) => registry_rows(
                records,
                NameLayout {
                    sumlev,
                    state,
                    county,
                    stname: opt_column(h, "STNAME"@),
                    ctyname: opt_column(h, "CTYNAME"@),
                },
                year,
                records.len() as int,
            ),
            _ => Seq::empty(),
        },
    }
}

/// The registry rows of a decoded vintage file.
pub open spec fn registry_spec(text: Seq<char>, year: u16) -> Seq<EntityView> {
    records_registry_spec(csv_records(text).0, csv_records(text).1, year)
}

/// `opt_column`, computed.
fn find_opt_header(headers: &Vec<String>, name: &str, url: &String) -> (r: Option<usize>)
    ensures
        opt_column(fields_view(*headers), name@) == match r {
            Some(c) => Some(c as int),
            None => None::<int>,
        },
{
    match find_header(headers, name, url) {
        Ok(c) => Some(c),
        Err(_) => None,
    }
}

/// The entity registry rows of a decoded vintage file: what the PEP calls
/// each state and county, in this vintage.
pub fn registry(text: &str, req: &Request) -> (r: Vec<Entity>)
    ensures
        entities_view(r@) == registry_spec(text@, req.vintage_year),
{
    let (headers, records) = read_csv(text);
    registry_records(&headers, &records, req)
}

/// The entity registry rows of the records the CSV reader made of a
/// vintage file.
pub fn registry_records(
    headers: &Result<Vec<String>, String>,
    records: &Vec<Result<Vec<String>, String>>,
    req: &Request,
) -> (r: Vec<Entity>)
    ensures
        entities_view(r@) == records_registry_spec(
            record_view(*headers),
            records@.map_values(|x: Result<Vec<String>, String>| record_view(x)),
            req.vintage_year,
        ),
{
    let year = req.vintage_year;
    let ghost records_model = records@.map_values(|x: Result<Vec<String>, String>| record_view(x));
    let mut out: Vec<Entity> = Vec::new();
    proof {
        assert(entities_view(out@) =~= Seq::<EntityView>::empty());
    }
    let header_fields = match headers {
        Ok(h) => h,
        Err(_) => {
            return out;
        },
    };
    let ghost h = fields_view(*header_fields);
    proof {
        assert(record_view(*headers) == Ok::<_, Seq<char>>(h));
    }
    let url = req.url();
    let sumlev_col = match find_opt_header(header_fields, "SUMLEV", &url) {
        Some(c) => c,
        None => {
            return out;
        },
    };
    let state_col = match find_opt_header(header_fields, "STATE", &url) {
        Some(c) => c,
        None => {
            return out;
        },
    };
    let county_col = match find_opt_header(header_fields, "COUNTY", &url) {
        Some(c) => c,
        None => {
            return out;
        },
    };
    let stname_col = find_opt_header(header_fields, "STNAME", &url);
    let ctyname_col = find_opt_header(header_fields, "CTYNAME", &url);
    let ghost lay = NameLayout {
        sumlev: sumlev_col as int,
        state: state_col as int,
        county: county_col as int,
        stname: opt_column(h, "STNAME"@),
        ctyname: opt_column(h, "CTYNAME"@),
    };
    let vintage = req.vintage();
    let dataset = req.source_dataset();
    let c040 = chars_of("040");
    let c050 = chars_of("050");
    let mut i: usize = 0;
    while i < records.len()
        invariant
            i <= records@.len(),
            records_model == records@.map_values(
                |x: Result<Vec<String>, String>| record_view(x),
            ),
            records_registry_spec(record_view(*headers), records_model, year) == registry_rows(
                records_model,
                lay,
                year,
                records_model.len() as int,
            ),
            lay.sumlev == sumlev_col,
            lay.state == state_col,
            lay.county == county_col,
            lay.stname == match stname_col {
                Some(c) => Some(c as int),
                None => None::<int>,
            },
            lay.ctyname == match ctyname_col {
                Some(c) => Some(c as int),
                None => None::<int>,
            },
            vintage@ == request_vintage(year),
            dataset@ == request_dataset(year),
            c040@ == "040"@,
            c050@ == "050"@,
            year == req.vintage_year,
            entities_view(out@) == registry_rows(records_model, lay, year, i as int),
        decreases records.len() - i,
    {
        proof {
            assert(records_model[i as int] == record_view(records@[i as int]));
        }
        match &records[i] {
            Ok(record) => {
                let ghost rv = fields_view(*record);
                let sumlev = cell_text(record, sumlev_col);
                let sc = chars_of(sumlev.as_str());
                let state = cell_text(record, state_col);
                let mut found: Option<Entity> = None;
                if chars_equal(sc.as_slice(), c040.as_slice()) {
                    match stname_col {
                        Some(c) => {
                            let mut id = string_of("geoId/");
                            push_str(&mut id, state.as_str());
                            found = Some(
                                Entity {
                                    entity_id: id,
                                    name: cell_text(record, c),
                                    level: Level::State,
                                    boundary_year: year,
                                    vintage: string_of(vintage.as_str()),
                                    source_dataset: string_of(dataset.as_str()),
                                    position: Position::Unknown,
                                },
                            );
                        },
                        None => {},
                    }
                } else if chars_equal(sc.as_slice(), c050.as_slice()) {
                    match ctyname_col {
                        Some(c) => {
                            let county = cell_text(record, county_col);
                            let mut id = string_of("geoId/");
                            push_str(&mut id, state.as_str());
                            push_str(&mut id, county.as_str());
                            found = Some(
                                Entity {
                                    entity_id: id,
                                    name: cell_text(record, c),
                                    level: Level::County,
                                    boundary_year: year,
                                    vintage: string_of(vintage.as_str()),
                                    source_dataset: string_of(dataset.as_str()),
                                    position: Position::Unknown,
                                },
                            );
                        },
                        None => {},
                    }
                }
                proof {
                    assert(sc@ == cell(rv, lay.sumlev));
                    assert(state@ == cell(rv, lay.state));
                }
                match found {
                    Some(e) => {
                        proof {
                            if sc@ == "040"@ {
                                assert(e@.entity_id =~= "geoId/"@ + cell(rv, lay.state));
                            } else {
                                assert(e@.entity_id =~= "geoId/"@ + cell(rv, lay.state) + cell(
                                    rv,
                                    lay.county,
                                ));
                            }
                            assert(record_registry_entity(rv, lay, year) == Some(e@));
                            assert(entities_view(out@.push(e)) =~= entities_view(out@).push(e@));
                        }
                        out.push(e);
                    },
                    None => {
                        proof {
                            assert(record_registry_entity(rv, lay, year) is None);
                        }
                    },
                }
            },
            Err(_) => {},
        }
        i = i + 1;
    }
    proof {
        assert(i == records_model.len());
    }
    out
}

/// `estimate_year` of one header.
fn estimate_year_of(h: &String) -> (r: Option<u16>)
    ensures
        r == estimate_year(h@),
{
    let cs = chars_of(h.as_str());
    let p = chars_of("POPESTIMATE");
    if cs.len() < p.len() {
        return None;
    }
    if !range_equals(cs.as_slice(), 0, p.len(), p.as_slice()) {
        proof {
            assert(cs@.subrange(0, p@.len() as int) =~= cs@.take(p@.len() as int));
        }
        return None;
    }
    proof {
        assert(cs@.subrange(0, p@.len() as int) =~= cs@.take(p@.len() as int));
        assert(cs@.subrange(p@.len() as int, cs@.len() as int) =~= cs@.skip(p@.len() as int));
    }
    parse_u16(cs.as_slice(), p.len(), cs.len())
}

/// `year_columns` of all headers.
fn estimate_columns(headers: &Vec<String>) -> (r: Vec<(u16, usize)>)
    ensures
        r@ == year_columns(fields_view(*headers), headers@.len() as int),
{
    let ghost h = fields_view(*headers);
    let mut out: Vec<(u16, usize)> = Vec::new();
    let mut i: usize = 0;
    while i < headers.len()
        invariant
            i <= headers@.len(),
            h == fields_view(*headers),
            out@ == year_columns(h, i as int),
        decreases headers.len() - i,
    {
        proof {
            assert(h[i as int] == headers@[i as int]@);
        }
        match estimate_year_of(&headers[i]) {
            Some(y) => {
                out.push((y, i));
            },
            None => {},
        }
        i = i + 1;
    }
    out
}

/// `insert_sorted(x, s)` is `s` with `x` inserted at the first position
/// whose element `x` does not exceed.
proof fn lemma_insert_at(x: (u16, usize), s: Seq<(u16, usize)>, p: int)
    requires
        0 <= p <= s.len(),
        forall|j: int| 0 <= j < p ==> !pair_le(x, s[j]),
        p < s.len() ==> pair_le(x, s[p]),
    ensures
        insert_sorted(x, s) == s.insert(p, x),
    decreases s.len(),
{
    if s.len() == 0 {
        assert(s.insert(p, x) =~= seq![x]);
    } else if p == 0 {
        assert(s.insert(p, x) =~= seq![x] + s);
    } else {
        lemma_insert_at(x, s.drop_first(), p - 1);
        assert(s.insert(p, x) =~= seq![s[0]] + s.drop_first().insert(p - 1, x));
    }
}

/// `sorted` of a list of pairs (insertion sort).
fn sort_pairs(v: &Vec<(u16, usize)>) -> (r: Vec<(u16, usize)>)
    ensures
        r@ == sorted(v@),
{
    let mut out: Vec<(u16, usize)> = Vec::new();
    let mut i: usize = 0;
    while i < v.len()
        invariant
            i <= v@.len(),
            out@ == sorted(v@.take(i as int)),
        decreases v.len() - i,
    {
        let x = v[i];
        let mut p: usize = 0;
        while p < out.len() && !(x.0 < out[p].0 || (x.0 == out[p].0 && x.1 <= out[p].1))
            invariant
                p <= out@.len(),
                forall|j: int| 0 <= j < p ==> !pair_le(x, out@[j]),
            decreases out.len() - p,
        {
            p = p + 1;
        }
        proof {
            lemma_insert_at(x, out@, p as int);
            assert(v@.take(i + 1).drop_last() =~= v@.take(i as int));
            assert(v@.take(i + 1).last() == x);
        }
        out.insert(p, x);
        i = i + 1;
    }
    proof {
        assert(v@.take(v@.len() as int) =~= v@);
    }
    out
}

/// `expected_years(year)`.
fn expected_list(year: u16) -> (r: Vec<u16>)
    ensures
        r@ == expected_years(year),
{
    let mut out: Vec<u16> = Vec::new();
    if year < 2020 {
        proof {
            assert(out@ =~= expected_years(year));
        }
        return out;
    }
    let mut y: u16 = 2020;
    while y <= year
        invariant
            2020 <= y,
            y <= year + 1,
            out@ =~= Seq::new((y - 2020) as nat, |i: int| (2020 + i) as u16),
        decreases year + 1 - y,
    {
        out.push(y);
        if y == u16::MAX {
            proof {
                assert(out@ =~= expected_years(year));
            }
            return out;
        }
        y = y + 1;
    }
    proof {
        assert(out@ =~= expected_years(year));
    }
    out
}

fn same_years(a: &Vec<u16>, b: &Vec<u16>) -> (r: bool)
    ensures
        r == (a@ == b@),
{
    if a.len() != b.len() {
        return false;
    }
    let mut i: usize = 0;
    while i < a.len()
        invariant
            a@.len() == b@.len(),
            i <= a@.len(),
            forall|j: int| 0 <= j < i ==> a@[j] == b@[j],
        decreases a.len() - i,
    {
        if a[i] != b[i] {
            return false;
        }
        i = i + 1;
    }
    assert(a@ =~= b@);
    true
}

/// Appends `years_debug(ys)`.
fn push_years_debug(s: &mut String, ys: &Vec<u16>)
    ensures
        final(s)@ == old(s)@ + years_debug(ys@),
{
    push_str(s, "[");
    let ghost start = s@;
    let mut i: usize = 0;
    while i < ys.len()
        invariant
            i <= ys@.len(),
            s@ == start + years_items(ys@.take(i as int)),
        decreases ys.len() - i,
    {
        if i > 0 {
            push_str(s, ", ");
        }
        push_decimal(s, ys[i] as u64);
        proof {
            assert(ys@.take(i + 1).drop_last() =~= ys@.take(i as int));
            assert(ys@.take(i + 1).last() == ys@[i as int]);
            if i == 0 {
                assert(ys@.take(1)[0] == ys@[0]);
            }
            assert(s@ =~= start + years_items(ys@.take(i + 1)));
        }
        i = i + 1;
    }
    push_str(s, "]");
    proof {
        assert(ys@.take(ys@.len() as int) =~= ys@);
        assert(s@ =~= old(s)@ + years_debug(ys@));
    }
}

/// `cell` of an exec record.
fn cell_text(r: &Vec<String>, col: usize) -> (t: String)
    ensures
        t@ == cell(fields_view(*r), col as int),
{
    if col < r.len() {
        proof {
            assert(fields_view(*r)[col as int] == r@[col as int]@);
        }
        string_of(r[col].as_str())
    } else {
        String::new()
    }
}

/// `strip_geo_prefix`.
fn strip_geo(entity_id: &String) -> (r: String)
    ensures
        r@ == strip_geo_prefix(entity_id@),
{
    let cs = chars_of(entity_id.as_str());
    let p = chars_of("geoId/");
    let mut start: usize = 0;
    proof {
        assert(cs@.skip(0) =~= cs@);
    }
    while p.len() > 0 && cs.len() - start >= p.len() && range_equals(
        cs.as_slice(),
        start,
        start + p.len(),
        p.as_slice(),
    )
        invariant
            start <= cs@.len(),
            p@ == "geoId/"@,
            strip_geo_prefix(entity_id@) == strip_geo_prefix(cs@.skip(start as int)),
            cs@ == entity_id@,
        decreases cs.len() - start,
    {
        proof {
            let rest = cs@.skip(start as int);
            assert(rest.take(p@.len() as int) =~= cs@.subrange(start as int, start + p@.len()));
            assert(rest.skip(p@.len() as int) =~= cs@.skip(start + p@.len()));
        }
        start = start + p.len();
    }
    proof {
        let rest = cs@.skip(start as int);
        if p@.len() > 0 && rest.len() >= p@.len() {
            assert(rest.take(p@.len() as int) =~= cs@.subrange(start as int, start + p@.len()));
        }
        assert(cs@.skip(0) =~= cs@);
        assert(cs@.subrange(start as int, cs@.len() as int) =~= rest);
    }
    crate::text::string_from_range(cs.as_slice(), start, cs.len())
}

/// `count_of` computed.
fn parse_count(text: &String, field: &str, entity_id: &String, year: u16) -> (r: Result<
    String,
    Error,
>)
    ensures
        match count_of(text@, field@, entity_id@, year) {
            Ok(v) => r matches Ok(x) && x@ == v,
            Err(em) => r matches Err(e) && e@ == em,
        },
{
    let cs = chars_of(text.as_str());
    let (lo, hi) = trim_bounds(cs.as_slice(), 0, cs.len());
    proof {
        assert(cs@.subrange(0, cs@.len() as int) =~= text@);
    }
    match parse_i64(cs.as_slice(), lo, hi) {
        Some(v) => {
            if v >= 0 {
                let mut out = String::new();
                push_decimal(&mut out, v as u64);
                return Ok(out);
            }
        },
        None => {},
    }
    let mut variable = string_of("co-est");
    push_decimal(&mut variable, year as u64);
    push_str(&mut variable, "-alldata");
    proof {
        assert(variable@ =~= "co-est"@ + decimal(year as nat) + "-alldata"@);
    }
    Err(
        Error::BadNumber {
            text: string_of(text.as_str()),
            field: string_of(field),
            geoid: strip_geo(entity_id),
            variable,
        },
    )
}

/// `record_facts` computed.
fn record_to_facts(
    record: &Vec<String>,
    sumlev_col: usize,
    state_col: usize,
    county_col: usize,
    base_col: usize,
    years: &Vec<(u16, usize)>,
    i: usize,
    req: &Request,
    url: &String,
    published_at: Date,
    retrieved_at: Timestamp,
    Ghost(lay): Ghost<Layout>,
) -> (r: Result<Vec<Fact>, Error>)
    requires
        lay.sumlev == sumlev_col,
        lay.state == state_col,
        lay.county == county_col,
        lay.base == base_col,
        lay.years == years@,
        url@ == request_url(req.vintage_year),
    ensures
        match record_facts(
            fields_view(*record),
            lay,
            i as int,
            req.vintage_year,
            published_at,
            retrieved_at,
        ) {
            Ok(fs) => r matches Ok(x) && facts_view(x@) == fs,
            Err(em) => r matches Err(e) && e@ == em,
        },
{
    let ghost rv = fields_view(*record);
    let year = req.vintage_year;
    let sumlev = cell_text(record, sumlev_col);
    let state = cell_text(record, state_col);
    let sc = chars_of(sumlev.as_str());
    let c040 = chars_of("040");
    let c050 = chars_of("050");
    let mut entity_id = string_of("geoId/");
    if chars_equal(sc.as_slice(), c040.as_slice()) {
        push_str(&mut entity_id, state.as_str());
    } else if chars_equal(sc.as_slice(), c050.as_slice()) {
        push_str(&mut entity_id, state.as_str());
        let county = cell_text(record, county_col);
        push_str(&mut entity_id, county.as_str());
        proof {
            assert(entity_id@ =~= "geoId/"@ + cell(rv, lay.state) + cell(rv, lay.county));
        }
    } else {
        let mut d = string_of("row ");
        crate::text::push_decimal_u128(&mut d, i as u128 + 2);
        push_str(&mut d, ": unexpected SUMLEV ");
        let q = debug_text(sumlev.as_str());
        push_str(&mut d, q.as_str());
        proof {
            assert(d@ =~= "row "@ + decimal((i + 2) as nat) + ": unexpected SUMLEV "@ + str_debug(
                sumlev@,
            ));
        }
        return Err(Error::BadResponseShape { url: string_of(url.as_str()), detail: d });
    }
    let ghost eid = entity_id@;
    assert(record_entity(rv, lay, i as int, year) == Ok::<_, ErrorModel>(eid));
    let base_text = cell_text(record, base_col);
    let base = match parse_count(&base_text, "ESTIMATESBASE2020", &entity_id, year) {
        Ok(v) => v,
        Err(e) => {
            return Err(e);
        },
    };
    let ghost bv = base@;
    let vintage = req.vintage();
    let dataset = req.source_dataset();
    let mut facts: Vec<Fact> = Vec::new();
    facts.push(
        pep_fact(
            &entity_id,
            "pep:ESTIMATESBASE",
            Date::new(2020, 4, 1),
            Date::new(2020, 4, 2),
            base,
            &vintage,
            &dataset,
            url,
            year,
            published_at,
            retrieved_at,
        ),
    );
    let ghost first = facts_view(facts@);
    proof {
        assert(facts_view(facts@).skip(1) =~= Seq::<FactView>::empty());
    }
    let mut k: usize = 0;
    while k < years.len()
        invariant
            k <= years@.len(),
            rv == fields_view(*record),
            record_entity(rv, lay, i as int, year) == Ok::<_, ErrorModel>(eid),
            count_of(cell(rv, lay.base), "ESTIMATESBASE2020"@, eid, year) == Ok::<_, ErrorModel>(bv),
            first == seq![
                fact_of(
                    eid,
                    "pep:ESTIMATESBASE"@,
                    Date { year: 2020, month: 4, day: 1 },
                    Date { year: 2020, month: 4, day: 2 },
                    bv,
                    year,
                    published_at,
                    retrieved_at,
                ),
            ],
            lay.years == years@,
            entity_id@ == eid,
            vintage@ == request_vintage(year),
            dataset@ == request_dataset(year),
            url@ == request_url(year),
            year == req.vintage_year,
            facts@.len() >= 1,
            first.len() == 1,
            facts_view(facts@).take(1) == first,
            estimate_facts(rv, lay, eid, year, published_at, retrieved_at, k as int) == Ok::<
                _,
                ErrorModel,
            >(facts_view(facts@).skip(1)),
        decreases years.len() - k,
    {
        let (y, col) = years[k];
        let t = cell_text(record, col);
        let v = match parse_count(&t, "POPESTIMATE", &entity_id, year) {
            Ok(v) => v,
            Err(e) => {
                proof {
                    assert(estimate_facts(rv, lay, eid, year, published_at, retrieved_at, k + 1)
                        == Err::<Seq<FactView>, _>(e@));
                    lemma_estimate_facts_stop(
                        rv,
                        lay,
                        eid,
                        year,
                        published_at,
                        retrieved_at,
                        (k + 1) as int,
                        years@.len() as int,
                    );
                }
                return Err(e);
            },
        };
        let ghost before = facts_view(facts@);
        let f = pep_fact(
            &entity_id,
            "pep:POPESTIMATE",
            Date::new(y as i32, 7, 1),
            Date::new(y as i32, 7, 2),
            v,
            &vintage,
            &dataset,
            url,
            year,
            published_at,
            retrieved_at,
        );
        facts.push(f);
        proof {
            assert(facts_view(facts@) =~= before.push(f@));
            assert(facts_view(facts@).skip(1) =~= before.skip(1).push(f@));
            assert(facts_view(facts@).take(1) =~= before.take(1));
        }
        k = k + 1;
    }
    proof {
        assert(facts_view(facts@) =~= first + facts_view(facts@).skip(1));
    }
    Ok(facts)
}

/// Once an estimate fails, the record fails with that error.
proof fn lemma_estimate_facts_stop(
    r: Seq<Seq<char>>,
    lay: Layout,
    entity_id: Seq<char>,
    year: u16,
    published_at: Date,
    retrieved_at: Timestamp,
    i: int,
    n: int,
)
    requires
        estimate_facts(r, lay, entity_id, year, published_at, retrieved_at, i) is Err,
        i <= n,
    ensures
        estimate_facts(r, lay, entity_id, year, published_at, retrieved_at, n) == estimate_facts(
            r,
            lay,
            entity_id,
            year,
            published_at,
            retrieved_at,
            i,
        ),
    decreases n - i,
{
    if i < n {
        lemma_estimate_facts_stop(r, lay, entity_id, year, published_at, retrieved_at, i, n - 1);
    }
}

/// `fact_of`, computed.
fn pep_fact(
    entity_id: &String,
    indicator: &str,
    valid_from: Date,
    valid_to: Date,
    value: String,
    vintage: &String,
    dataset: &String,
    url: &String,
    year: u16,
    published_at: Date,
    retrieved_at: Timestamp,
) -> (f: Fact)
    requires
        vintage@ == request_vintage(year),
        dataset@ == request_dataset(year),
        url@ == request_url(year),
    ensures
        f@ == fact_of(
            entity_id@,
            indicator@,
            valid_from,
            valid_to,
            value@,
            year,
            published_at,
            retrieved_at,
        ),
{
    Fact {
        entity_id: string_of(entity_id.as_str()),
        indicator_id: string_of(indicator),
        valid_from,
        valid_to,
        vintage: string_of(vintage.as_str()),
        published_at,
        value: Some(value),
        moe: None,
        value_annotation: None,
        moe_annotation: Some(Annotation::NotApplicable),
        boundary_year: year,
        source_dataset: string_of(dataset.as_str()),
        source_url: string_of(url.as_str()),
        retrieved_at,
    }
}


// ---------------------------------------------------------------------------
// Laws
// ---------------------------------------------------------------------------
/// Every fact is a count: a value, no annotation, the margin of error
/// annotated not applicable.
pub open spec fn all_counts(fs: Seq<FactView>) -> bool {
    forall|j: int| 0 <= j < fs.len() ==> #[trigger] fact_observed(fs[j]) && fs[j].value is Some
}

/// Every fact was published on `d`.
pub open spec fn all_published(fs: Seq<FactView>, d: Date) -> bool {
    forall|j: int| 0 <= j < fs.len() ==> (#[trigger] fs[j]).published_at == d
}

proof fn lemma_estimate_facts_observed(
    r: Seq<Seq<char>>,
    lay: Layout,
    entity_id: Seq<char>,
    year: u16,
    published_at: Date,
    retrieved_at: Timestamp,
    k: int,
)
    ensures
        estimate_facts(r, lay, entity_id, year, published_at, retrieved_at, k) matches Ok(fs)
            ==> all_counts(fs) && all_published(fs, published_at),
    decreases k,
{
    if k > 0 {
        lemma_estimate_facts_observed(r, lay, entity_id, year, published_at, retrieved_at, k - 1);
        match estimate_facts(r, lay, entity_id, year, published_at, retrieved_at, k - 1) {
            Ok(fs) => {
                let (y, col) = lay.years[k - 1];
                match count_of(cell(r, col as int), "POPESTIMATE"@, entity_id, year) {
                    Ok(v) => {
                        let x = fact_of(
                            entity_id,
                            "pep:POPESTIMATE"@,
                            Date { year: y as i32, month: 7, day: 1 },
                            Date { year: y as i32, month: 7, day: 2 },
                            v,
                            year,
                            published_at,
                            retrieved_at,
                        );
                        let fs2 = fs.push(x);
                        assert(estimate_facts(r, lay, entity_id, year, published_at, retrieved_at, k)
                            == Ok::<_, ErrorModel>(fs2));
                        assert forall|j: int| 0 <= j < fs2.len() implies #[trigger] fact_observed(fs2[j])
                            && fs2[j].value is Some by {
                            if j < fs.len() {
                                assert(fs2[j] == fs[j]);
                                assert(fact_observed(fs[j]));
                            }
                        }
                        assert forall|j: int| 0 <= j < fs2.len() implies (#[trigger] fs2[j]).published_at
                            == published_at by {
                            if j < fs.len() {
                                assert(fs2[j] == fs[j]);
                            }
                        }
                    },
                    Err(_) => {},
                }
            },
            Err(_) => {},
        }
    }
}

proof fn lemma_record_facts_observed(
    r: Seq<Seq<char>>,
    lay: Layout,
    i: int,
    year: u16,
    published_at: Date,
    retrieved_at: Timestamp,
)
    ensures
        record_facts(r, lay, i, year, published_at, retrieved_at) matches Ok(fs) ==> all_counts(fs)
            && all_published(fs, published_at),
{
    match record_entity(r, lay, i, year) {
        Ok(entity_id) => {
            lemma_estimate_facts_observed(
                r,
                lay,
                entity_id,
                year,
                published_at,
                retrieved_at,
                lay.years.len() as int,
            );
            match estimate_facts(r, lay, entity_id, year, published_at, retrieved_at, lay.years.len() as int) {
                Ok(efs) => {
                    match record_facts(r, lay, i, year, published_at, retrieved_at) {
                        Ok(fs) => {
                            assert forall|j: int| 0 <= j < fs.len() implies #[trigger] fact_observed(fs[j])
                                && fs[j].value is Some by {
                                if j > 0 {
                                    assert(fs[j] == efs[j - 1]);
                                    assert(fact_observed(efs[j - 1]));
                                }
                            }
                            assert forall|j: int| 0 <= j < fs.len() implies (#[trigger] fs[j]).published_at
                                == published_at by {
                                if j > 0 {
                                    assert(fs[j] == efs[j - 1]);
                                }
                            }
                        },
                        Err(_) => {},
                    }
                },
                Err(_) => {},
            }
        },
        Err(_) => {},
    }
}

proof fn lemma_records_facts_observed(
    records: Seq<Result<Seq<Seq<char>>, Seq<char>>>,
    lay: Layout,
    year: u16,
    published_at: Date,
    retrieved_at: Timestamp,
    n: int,
)
    ensures
        records_facts(records, lay, year, published_at, retrieved_at, n) matches Ok(fs)
            ==> all_counts(fs) && all_published(fs, published_at),
    decreases n,
{
    if n > 0 {
        lemma_records_facts_observed(records, lay, year, published_at, retrieved_at, n - 1);
        match records_facts(records, lay, year, published_at, retrieved_at, n - 1) {
            Ok(fs) => match records[n - 1] {
                Ok(r) => {
                    lemma_record_facts_observed(r, lay, n - 1, year, published_at, retrieved_at);
                    match record_facts(r, lay, n - 1, year, published_at, retrieved_at) {
                        Ok(more) => {
                            let all = fs + more;
                            assert(records_facts(records, lay, year, published_at, retrieved_at, n)
                                == Ok::<_, ErrorModel>(all));
                            assert forall|j: int| 0 <= j < all.len() implies #[trigger] fact_observed(all[j])
                                && all[j].value is Some by {
                                if j < fs.len() {
                                    assert(all[j] == fs[j]);
                                    assert(fact_observed(fs[j]));
                                } else {
                                    assert(all[j] == more[j - fs.len()]);
                                    assert(fact_observed(more[j - fs.len()]));
                                }
                            }
                            assert forall|j: int| 0 <= j < all.len() implies (#[trigger] all[j]).published_at
                                == published_at by {
                                if j < fs.len() {
                                    assert(all[j] == fs[j]);
                                } else {
                                    assert(all[j] == more[j - fs.len()]);
                                }
                            }
                        },
                        Err(_) => {},
                    }
                },
                Err(_) => {},
            },
            Err(_) => {},
        }
    }
}

/// A successful PEP pass: every fact is a count (a value, no annotation;
/// the margin of error annotated not applicable), no fact key repeats, the
/// vintage is one with a release (2022 to 2025), and every fact was
/// published on that release's date.
pub proof fn lemma_conform_facts(text: Seq<char>, year: u16, retrieved_at: Timestamp)
    ensures
        conform_spec(text, year, retrieved_at) matches Ok(fs) ==> keys_unique(fact_keys(fs))
            && all_counts(fs),
        conform_spec(text, year, retrieved_at) matches Ok(fs) ==> 2022 <= year <= 2025
            && all_published(fs, release_date(year as int)->0),
{
    let (headers, records) = csv_records(text);
    match headers {
        Ok(h) => {
            let url = request_url(year);
            match (
                header_column(h, "SUMLEV"@, url),
                header_column(h, "STATE"@, url),
                header_column(h, "COUNTY"@, url),
                header_column(h, "ESTIMATESBASE2020"@, url),
                release_date(year as int),
            ) {
                (Ok(sumlev), Ok(state), Ok(county), Ok(base), Some(published_at)) => {
                    let years = sorted(year_columns(h, h.len() as int));
                    lemma_records_facts_observed(
                        records,
                        Layout { sumlev, state, county, base, years },
                        year,
                        published_at,
                        retrieved_at,
                        records.len() as int,
                    );
                },
                _ => {},
            }
        },
        Err(_) => {},
    }
}


proof fn lemma_estimate_facts_len(
    r: Seq<Seq<char>>,
    lay: Layout,
    entity_id: Seq<char>,
    year: u16,
    published_at: Date,
    retrieved_at: Timestamp,
    k: int,
)
    requires
        k >= 0,
    ensures
        estimate_facts(r, lay, entity_id, year, published_at, retrieved_at, k) matches Ok(fs)
            ==> fs.len() == k,
    decreases k,
{
    if k > 0 {
        lemma_estimate_facts_len(r, lay, entity_id, year, published_at, retrieved_at, k - 1);
    }
}

proof fn lemma_records_facts_len(
    records: Seq<Result<Seq<Seq<char>>, Seq<char>>>,
    lay: Layout,
    year: u16,
    published_at: Date,
    retrieved_at: Timestamp,
    n: int,
)
    requires
        n >= 0,
    ensures
        records_facts(records, lay, year, published_at, retrieved_at, n) matches Ok(fs) ==> fs.len()
            == n * (1 + lay.years.len()),
    decreases n,
{
    if n > 0 {
        lemma_records_facts_len(records, lay, year, published_at, retrieved_at, n - 1);
        match records[n - 1] {
            Ok(r) => match record_entity(r, lay, n - 1, year) {
                Ok(entity_id) => {
                    lemma_estimate_facts_len(
                        r,
                        lay,
                        entity_id,
                        year,
                        published_at,
                        retrieved_at,
                        lay.years.len() as int,
                    );
                },
                Err(_) => {},
            },
            Err(_) => {},
        }
        let c = 1 + lay.years.len();
        assert((n - 1) * c + c == n * c) by (nonlinear_arith);
        match records_facts(records, lay, year, published_at, retrieved_at, n - 1) {
            Ok(fs) => match records[n - 1] {
                Ok(r) => match record_facts(r, lay, n - 1, year, published_at, retrieved_at) {
                    Ok(more) => {
                        assert(more.len() == c);
                        assert(fs.len() == (n - 1) * c);
                        assert((fs + more).len() == n * c);
                        assert(records_facts(records, lay, year, published_at, retrieved_at, n)
                            == Ok::<_, ErrorModel>(fs + more));
                    },
                    Err(_) => {},
                },
                Err(_) => {},
            },
            Err(_) => {},
        }
    } else {
        assert(n * (1 + lay.years.len()) == 0) by (nonlinear_arith)
            requires
                n == 0,
        ;
    }
}

/// A successful PEP pass yields, for every record of the file, the
/// estimates base and one July 1 estimate per year from 2020 to the
/// vintage year.
pub proof fn lemma_conform_count(text: Seq<char>, year: u16, retrieved_at: Timestamp)
    ensures
        conform_spec(text, year, retrieved_at) matches Ok(fs) ==> fs.len() == csv_records(text).1.len()
            * (year - 2018),
{
    let (headers, records) = csv_records(text);
    match headers {
        Ok(h) => {
            let url = request_url(year);
            match (
                header_column(h, "SUMLEV"@, url),
                header_column(h, "STATE"@, url),
                header_column(h, "COUNTY"@, url),
                header_column(h, "ESTIMATESBASE2020"@, url),
                release_date(year as int),
            ) {
                (Ok(sumlev), Ok(state), Ok(county), Ok(base), Some(published_at)) => {
                    let years = sorted(year_columns(h, h.len() as int));
                    let lay = Layout { sumlev, state, county, base, years };
                    lemma_records_facts_len(
                        records,
                        lay,
                        year,
                        published_at,
                        retrieved_at,
                        records.len() as int,
                    );
                    let found = years.map_values(|p: (u16, usize)| p.0);
                    if found == expected_years(year) {
                        assert(years.len() == found.len());
                        assert(year >= 2020);
                    }
                },
                _ => {},
            }
        },
        Err(_) => {},
    }
}


proof fn lemma_registry_rows_match(
    records: Seq<Result<Seq<Seq<char>>, Seq<char>>>,
    lay: Layout,
    names: NameLayout,
    year: u16,
    published_at: Date,
    retrieved_at: Timestamp,
    n: int,
)
    requires
        0 <= n <= records.len(),
        names.sumlev == lay.sumlev,
        names.state == lay.state,
        names.county == lay.county,
        names.stname is Some,
        names.ctyname is Some,
    ensures
        records_facts(records, lay, year, published_at, retrieved_at, n) matches Ok(fs) ==> {
            let es = registry_rows(records, names, year, n);
            &&& es.len() == n
            &&& forall|k: int|
                0 <= k < n ==> (#[trigger] es[k]).entity_id == fs[k * (1 + lay.years.len())].entity_id
        },
    decreases n,
{
    if n > 0 {
        lemma_registry_rows_match(records, lay, names, year, published_at, retrieved_at, n - 1);
        lemma_records_facts_len(records, lay, year, published_at, retrieved_at, n - 1);
        let c = 1 + lay.years.len();
        match records_facts(records, lay, year, published_at, retrieved_at, n - 1) {
            Ok(fs) => match records[n - 1] {
                Ok(r) => match record_facts(r, lay, n - 1, year, published_at, retrieved_at) {
                    Ok(more) => {
                        let entity_id = record_entity(r, lay, n - 1, year)->Ok_0;
                        assert(record_entity(r, lay, n - 1, year) is Ok);
                        assert(more[0].entity_id == entity_id);
                        let e = record_registry_entity(r, names, year)->0;
                        assert(record_registry_entity(r, names, year) is Some);
                        assert(e.entity_id == entity_id);
                        let before = registry_rows(records, names, year, n - 1);
                        let es = registry_rows(records, names, year, n);
                        assert(es == before.push(e));
                        let all = fs + more;
                        assert(fs.len() == (n - 1) * c);
                        assert(all[(n - 1) * c] == more[0]);
                        assert forall|k: int| 0 <= k < n implies (#[trigger] es[k]).entity_id
                            == all[k * c].entity_id by {
                            if k < n - 1 {
                                assert(k * c < (n - 1) * c) by (nonlinear_arith)
                                    requires
                                        0 <= k < n - 1,
                                        c >= 1,
                                ;
                                assert(k * c >= 0) by (nonlinear_arith)
                                    requires
                                        0 <= k,
                                        c >= 1,
                                ;
                                assert(es[k] == before[k]);
                                assert(all[k * c] == fs[k * c]);
                            }
                        }
                    },
                    Err(_) => {},
                },
                Err(_) => {},
            },
            Err(_) => {},
        }
    }
}

/// A successful PEP pass over a file that names its states (`STNAME`) and
/// counties (`CTYNAME`) has one registry row per record, in the same order:
/// row `k` is about the entity of record `k`'s facts, which begin at fact
/// `k * (year - 2018)`.
pub proof fn lemma_registry_per_record(text: Seq<char>, year: u16, retrieved_at: Timestamp)
    ensures
        csv_records(text).0 matches Ok(h) ==> (opt_column(h, "STNAME"@) is Some && opt_column(
            h,
            "CTYNAME"@,
        ) is Some ==> (conform_spec(text, year, retrieved_at) matches Ok(fs) ==> {
            let es = registry_spec(text, year);
            &&& es.len() == csv_records(text).1.len()
            &&& forall|k: int|
                0 <= k < es.len() ==> (#[trigger] es[k]).entity_id == fs[k * (year - 2018)].entity_id
        })),
{
    let (headers, records) = csv_records(text);
    if !(headers is Ok) {
        return;
    }
    let h = headers->Ok_0;
    if !(opt_column(h, "STNAME"@) is Some && opt_column(h, "CTYNAME"@) is Some) {
        return;
    }
    let url = request_url(year);
    match (
        header_column(h, "SUMLEV"@, url),
        header_column(h, "STATE"@, url),
        header_column(h, "COUNTY"@, url),
        header_column(h, "ESTIMATESBASE2020"@, url),
        release_date(year as int),
    ) {
        (Ok(sumlev), Ok(state), Ok(county), Ok(base), Some(published_at)) => {
            let years = sorted(year_columns(h, h.len() as int));
            let lay = Layout { sumlev, state, county, base, years };
            let names = NameLayout {
                sumlev,
                state,
                county,
                stname: opt_column(h, "STNAME"@),
                ctyname: opt_column(h, "CTYNAME"@),
            };
            lemma_registry_rows_match(
                records,
                lay,
                names,
                year,
                published_at,
                retrieved_at,
                records.len() as int,
            );
            let found = years.map_values(|p: (u16, usize)| p.0);
            if found == expected_years(year) {
                assert(years.len() == found.len());
                assert(year >= 2020);
                assert(1 + years.len() == year - 2018);
            }
        },
        _ => {},
    }
}

/// The PEP county-total releases: exactly the vintages 2022 to 2025 have a
/// release date, each in the March after the vintage year, a later vintage
/// released later, on the dates the Census Bureau announced (2022:
/// 2023-03-30, 2023: 2024-03-14, 2024: 2025-03-13, 2025: 2026-03-26).
pub proof fn lemma_release_dates(a: int, b: int)
    ensures
        release_date(a) is Some <==> 2022 <= a <= 2025,
        release_date(a) matches Some(d) ==> d.year == a + 1 && d.month == 3 && d.is_valid(),
        release_date(a) matches Some(da) ==> (release_date(b) matches Some(db) ==> (a < b
            ==> date_before(da, db))),
        release_date(2022) == Some(Date { year: 2023, month: 3, day: 30 }),
        release_date(2023) == Some(Date { year: 2024, month: 3, day: 14 }),
        release_date(2024) == Some(Date { year: 2025, month: 3, day: 13 }),
        release_date(2025) == Some(Date { year: 2026, month: 3, day: 26 }),
{
}
} // verus!
