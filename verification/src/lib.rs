//! Blue Dot ingestion and conformance engine.
//!
//! Module map (one job each):
//! - `acs`, `pep`, `echo`, `pwc` — one source each: its request, and the
//!   pure conform pass from what was read to facts or to entities and claims,
//!   and for the statistical sources the entity registry rows
//! - `fact`, `claim` — the fact and claim schemas, and the key-uniqueness
//!   checks every pass ends with
//! - `time`, `calendar` — `Date`/`Timestamp` and the civil-calendar
//!   arithmetic behind them
//! - `json`, `number`, `text` — parsed JSON values, number grammars, and
//!   text building
//! - `config` — where the Census API key comes from
//! - `cli` — the command line
//! - `http` — what a response read in full amounts to
//! - `error` — the crate's single error type
use vstd::prelude::*;

pub mod acs;
pub mod calendar;
pub mod claim;
pub mod cli;
pub mod config;
pub mod echo;
pub mod error;
pub mod fact;
pub mod http;
pub mod json;
pub mod number;
pub mod pep;
pub mod pwc;
pub mod text;
pub mod time;

pub use error::Error;

verus! {

} // verus!
