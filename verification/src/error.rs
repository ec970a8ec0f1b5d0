//! The crate's single error type.
//!
//! Every failure carries the context a person needs to act on it (which URL,
//! which row, which code): fail loudly, never plausibly. `Error::message`
//! renders it for people; `ErrorModel` is what the contracts speak of.

use vstd::prelude::*;

use crate::text::{debug_text, push_decimal, push_int, push_str, str_debug, decimal, int_text};
use crate::time::{iso_date, push_date, Date};

verus! {

#[derive(Debug)]
pub enum Error {
    /// `CENSUS_API_KEY` is neither in the environment nor in `./.env`.
    MissingApiKey,
    /// The request itself failed (DNS, TLS, timeout, ...); `detail` is the
    /// HTTP client's own account of it.
    Http { url: String, detail: String },
    /// The API answered with its key-rejection redirect (`X-DataWebAPI-KeyError`).
    ApiKeyRejected { url: String },
    /// Any status other than 200. `body_head` is the first characters of the body.
    UnexpectedStatus { url: String, status: u16, body_head: String },
    /// A 200 whose body isn't the JSON we expect; `detail` is the JSON
    /// parser's account of why.
    NotJson { url: String, detail: String, body_head: String },
    /// Valid JSON, wrong shape (missing header row, missing column, ragged row).
    BadResponseShape { url: String, detail: String },
    /// A negative "annotation" number we don't have in our table.
    UnknownSentinel { code: i64, field: String, geoid: String, variable: String },
    /// A known annotation code on a field it isn't defined for.
    SentinelOnWrongField { code: i64, field: String, geoid: String, variable: String },
    /// Neither a number nor a known annotation.
    BadNumber { text: String, field: String, geoid: String, variable: String },
    /// CSV framing could not be maintained (ragged rows, ...); `detail` is
    /// the CSV reader's account of it.
    Csv { url: String, detail: String },
    /// No release metadata (publication date) for this vintage of this dataset.
    UnsupportedVintage { dataset: String, year: u16 },
    /// Two facts of one batch share the fact key.
    DuplicateFactKey { entity_id: String, indicator_id: String, valid_from: Date, vintage: String },
    /// Two claims of one batch share the claim key.
    DuplicateClaimKey {
        entity_id: String,
        attribute_id: String,
        valid_from: Date,
        vintage: String,
        source_record: String,
    },
    /// File-system failure, with the path involved.
    Io { path: String, detail: String },
    /// Bad command-line usage.
    Usage(String),
}

/// An `Error` with its text fields as character sequences and the causes
/// as their messages.
pub enum ErrorModel {
    MissingApiKey,
    Http { url: Seq<char>, detail: Seq<char> },
    ApiKeyRejected { url: Seq<char> },
    UnexpectedStatus { url: Seq<char>, status: u16, body_head: Seq<char> },
    NotJson { url: Seq<char>, detail: Seq<char>, body_head: Seq<char> },
    BadResponseShape { url: Seq<char>, detail: Seq<char> },
    UnknownSentinel { code: i64, field: Seq<char>, geoid: Seq<char>, variable: Seq<char> },
    SentinelOnWrongField { code: i64, field: Seq<char>, geoid: Seq<char>, variable: Seq<char> },
    BadNumber { text: Seq<char>, field: Seq<char>, geoid: Seq<char>, variable: Seq<char> },
    Csv { url: Seq<char>, detail: Seq<char> },
    UnsupportedVintage { dataset: Seq<char>, year: u16 },
    DuplicateFactKey {
        entity_id: Seq<char>,
        indicator_id: Seq<char>,
        valid_from: Date,
        vintage: Seq<char>,
    },
    DuplicateClaimKey {
        entity_id: Seq<char>,
        attribute_id: Seq<char>,
        valid_from: Date,
        vintage: Seq<char>,
        source_record: Seq<char>,
    },
    Io { path: Seq<char>, detail: Seq<char> },
    Usage(Seq<char>),
}

impl View for Error {
    type V = ErrorModel;

    open spec fn view(&self) -> ErrorModel {
        match self {
            Error::MissingApiKey => ErrorModel::MissingApiKey,
            Error::Http { url, detail } => ErrorModel::Http { url: url@, detail: detail@ },
            Error::ApiKeyRejected { url } => ErrorModel::ApiKeyRejected { url: url@ },
            Error::UnexpectedStatus { url, status, body_head } => ErrorModel::UnexpectedStatus {
                url: url@,
                status: *status,
                body_head: body_head@,
            },
            Error::NotJson { url, detail, body_head } => ErrorModel::NotJson {
                url: url@,
                detail: detail@,
                body_head: body_head@,
            },
            Error::BadResponseShape { url, detail } => ErrorModel::BadResponseShape {
                url: url@,
                detail: detail@,
            },
            Error::UnknownSentinel { code, field, geoid, variable } =>
                ErrorModel::UnknownSentinel {
                code: *code,
                field: field@,
                geoid: geoid@,
                variable: variable@,
            },
            Error::SentinelOnWrongField { code, field, geoid, variable } =>
                ErrorModel::SentinelOnWrongField {
                code: *code,
                field: field@,
                geoid: geoid@,
                variable: variable@,
            },
            Error::BadNumber { text, field, geoid, variable } => ErrorModel::BadNumber {
                text: text@,
                field: field@,
                geoid: geoid@,
                variable: variable@,
            },
            Error::Csv { url, detail } => ErrorModel::Csv { url: url@, detail: detail@ },
            Error::UnsupportedVintage { dataset, year } => ErrorModel::UnsupportedVintage {
                dataset: dataset@,
                year: *year,
            },
            Error::DuplicateFactKey { entity_id, indicator_id, valid_from, vintage } =>
                ErrorModel::DuplicateFactKey {
                entity_id: entity_id@,
                indicator_id: indicator_id@,
                valid_from: *valid_from,
                vintage: vintage@,
            },
            Error::DuplicateClaimKey {
                entity_id,
                attribute_id,
                valid_from,
                vintage,
                source_record,
            } => ErrorModel::DuplicateClaimKey {
                entity_id: entity_id@,
                attribute_id: attribute_id@,
                valid_from: *valid_from,
                vintage: vintage@,
                source_record: source_record@,
            },
            Error::Io { path, detail } => ErrorModel::Io { path: path@, detail: detail@ },
            Error::Usage(msg) => ErrorModel::Usage(msg@),
        }
    }
}

/// The text `Error::message` renders for an error.
pub open spec fn message_text(e: ErrorModel) -> Seq<char> {
    match e {
        ErrorModel::MissingApiKey =>
            "no Census API key: set CENSUS_API_KEY in the environment or in ./.env (free key: https://api.census.gov/data/key_signup.html)"@,
        ErrorModel::Http { url, .. } => "request to "@ + url + " failed"@,
        ErrorModel::ApiKeyRejected { url } => "the Census API rejected the key for "@ + url
            + " (X-DataWebAPI-KeyError); is the key activated? (check the activation link in the signup email)"@,
        ErrorModel::UnexpectedStatus { url, status, body_head } => url + " returned HTTP "@
            + decimal(status as nat) + "; body starts: "@ + str_debug(body_head),
        ErrorModel::NotJson { url, body_head, .. } => url
            + " returned HTTP 200 but not JSON; body starts: "@ + str_debug(body_head),
        ErrorModel::BadResponseShape { url, detail } => url + ": unexpected response shape: "@
            + detail,
        ErrorModel::UnknownSentinel { code, field, geoid, variable } =>
            "unknown annotation code "@ + int_text(code as int) + " in "@ + field + " of "@
            + variable + " for GEOID "@ + geoid
            + "; add it to acs::SENTINELS only after checking the Census annotation table"@,
        ErrorModel::SentinelOnWrongField { code, field, geoid, variable } => "annotation code "@
            + int_text(code as int) + " appeared in "@ + field + " of "@ + variable
            + " for GEOID "@ + geoid
            + ", but the Census table does not define it for that field"@,
        ErrorModel::BadNumber { text, field, geoid, variable } => field + " of "@ + variable
            + " for GEOID "@ + geoid + " is not a number: "@ + str_debug(text),
        ErrorModel::Csv { url, .. } => "malformed CSV from "@ + url,
        ErrorModel::UnsupportedVintage { dataset, year } => "no release metadata for "@ + dataset
            + " vintage "@ + decimal(year as nat)
            + "; add its publication date to that source's RELEASES table"@,
        ErrorModel::DuplicateFactKey { entity_id, indicator_id, valid_from, vintage } =>
            "duplicate fact key: entity "@ + entity_id + ", indicator "@ + indicator_id
            + ", valid from "@ + iso_date(valid_from) + ", vintage "@ + vintage,
        ErrorModel::DuplicateClaimKey {
            entity_id,
            attribute_id,
            valid_from,
            vintage,
            source_record,
        } => "duplicate claim key: entity "@ + entity_id + ", attribute "@ + attribute_id
            + ", valid from "@ + iso_date(valid_from) + ", vintage "@ + vintage + ", record "@
            + source_record,
        ErrorModel::Io { path, .. } => "I/O error at "@ + path,
        ErrorModel::Usage(msg) => msg,
    }
}

impl Error {
    /// The message for a person: what failed and where.
    pub fn message(&self) -> (r: String)
        ensures
            r@ == message_text(self@),
    {
        let mut s = String::new();
        match self {
            Error::MissingApiKey => {
                push_str(
                    &mut s,
                    "no Census API key: set CENSUS_API_KEY in the environment or in ./.env (free key: https://api.census.gov/data/key_signup.html)",
                );
            },
            Error::Http { url, .. } => {
                push_str(&mut s, "request to ");
                push_str(&mut s, url.as_str());
                push_str(&mut s, " failed");
            },
            Error::ApiKeyRejected { url } => {
                push_str(&mut s, "the Census API rejected the key for ");
                push_str(&mut s, url.as_str());
                push_str(
                    &mut s,
                    " (X-DataWebAPI-KeyError); is the key activated? (check the activation link in the signup email)",
                );
            },
            Error::UnexpectedStatus { url, status, body_head } => {
                push_str(&mut s, url.as_str());
                push_str(&mut s, " returned HTTP ");
                push_decimal(&mut s, *status as u64);
                push_str(&mut s, "; body starts: ");
                let q = debug_text(body_head.as_str());
                push_str(&mut s, q.as_str());
            },
            Error::NotJson { url, body_head, .. } => {
                push_str(&mut s, url.as_str());
                push_str(&mut s, " returned HTTP 200 but not JSON; body starts: ");
                let q = debug_text(body_head.as_str());
                push_str(&mut s, q.as_str());
            },
            Error::BadResponseShape { url, detail } => {
                push_str(&mut s, url.as_str());
                push_str(&mut s, ": unexpected response shape: ");
                push_str(&mut s, detail.as_str());
            },
            Error::UnknownSentinel { code, field, geoid, variable } => {
                push_str(&mut s, "unknown annotation code ");
                push_int(&mut s, *code);
                push_str(&mut s, " in ");
                push_str(&mut s, field.as_str());
                push_str(&mut s, " of ");
                push_str(&mut s, variable.as_str());
                push_str(&mut s, " for GEOID ");
                push_str(&mut s, geoid.as_str());
                push_str(
                    &mut s,
                    "; add it to acs::SENTINELS only after checking the Census annotation table",
                );
            },
            Error::SentinelOnWrongField { code, field, geoid, variable } => {
                push_str(&mut s, "annotation code ");
                push_int(&mut s, *code);
                push_str(&mut s, " appeared in ");
                push_str(&mut s, field.as_str());
                push_str(&mut s, " of ");
                push_str(&mut s, variable.as_str());
                push_str(&mut s, " for GEOID ");
                push_str(&mut s, geoid.as_str());
                push_str(&mut s, ", but the Census table does not define it for that field");
            },
            Error::BadNumber { text, field, geoid, variable } => {
                push_str(&mut s, field.as_str());
                push_str(&mut s, " of ");
                push_str(&mut s, variable.as_str());
                push_str(&mut s, " for GEOID ");
                push_str(&mut s, geoid.as_str());
                push_str(&mut s, " is not a number: ");
                let q = debug_text(text.as_str());
                push_str(&mut s, q.as_str());
            },
            Error::Csv { url, .. } => {
                push_str(&mut s, "malformed CSV from ");
                push_str(&mut s, url.as_str());
            },
            Error::UnsupportedVintage { dataset, year } => {
                push_str(&mut s, "no release metadata for ");
                push_str(&mut s, dataset.as_str());
                push_str(&mut s, " vintage ");
                push_decimal(&mut s, *year as u64);
                push_str(&mut s, "; add its publication date to that source's RELEASES table");
            },
            Error::DuplicateFactKey { entity_id, indicator_id, valid_from, vintage } => {
                push_str(&mut s, "duplicate fact key: entity ");
                push_str(&mut s, entity_id.as_str());
                push_str(&mut s, ", indicator ");
                push_str(&mut s, indicator_id.as_str());
                push_str(&mut s, ", valid from ");
                push_date(&mut s, valid_from);
                push_str(&mut s, ", vintage ");
                push_str(&mut s, vintage.as_str());
            },
            Error::DuplicateClaimKey {
                entity_id,
                attribute_id,
                valid_from,
                vintage,
                source_record,
            } => {
                push_str(&mut s, "duplicate claim key: entity ");
                push_str(&mut s, entity_id.as_str());
                push_str(&mut s, ", attribute ");
                push_str(&mut s, attribute_id.as_str());
                push_str(&mut s, ", valid from ");
                push_date(&mut s, valid_from);
                push_str(&mut s, ", vintage ");
                push_str(&mut s, vintage.as_str());
                push_str(&mut s, ", record ");
                push_str(&mut s, source_record.as_str());
            },
            Error::Io { path, .. } => {
                push_str(&mut s, "I/O error at ");
                push_str(&mut s, path.as_str());
            },
            Error::Usage(msg) => {
                push_str(&mut s, msg.as_str());
            },
        }
        proof {
            assert(s@ =~= message_text(self@));
        }
        s
    }
}

} // verus!
