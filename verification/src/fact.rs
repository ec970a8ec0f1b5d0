//! Fact schema v0: one observed value of one indicator for one entity over
//! one valid-time interval, as published in one vintage, with its provenance.
//!
//! Numbers are carried as their decimal text (the source's own digits); the
//! application renders them as JSON numbers when it writes the store.

use vstd::prelude::*;

use crate::error::{Error, ErrorModel};
use crate::text::{same_text, string_of};
use crate::time::{Date, Timestamp};

verus! {

/// Why a value is absent. Names follow the Census Bureau's "Notes on ACS
/// Estimate and Annotation Values".
#[derive(Debug, Clone, Copy, PartialEq, Eq, Structural)]
pub enum Annotation {
    /// Estimate could not be computed: insufficient sample observations (`-`).
    InsufficientSample,
    /// Cannot be displayed: insufficient sample cases in this geography (`N`).
    NotDisplayable,
    /// Not applicable or not available (`(X)`).
    NotApplicable,
    /// MOE could not be computed: insufficient sample observations (`**`).
    MoeInsufficientSample,
    /// MOE could not be computed: median falls in an open-ended interval (`***`).
    MoeOpenEndedMedian,
    /// MOE not appropriate: the estimate is controlled (`*****`).
    Controlled,
    /// The API returned JSON `null` — no official annotation code accompanies it.
    Missing,
}

/// Field order here is the column order in the JSON Lines output.
#[derive(Debug)]
pub struct Fact {
    /// Data Commons-style identifier, e.g. `geoId/06037`.
    pub entity_id: String,
    /// Source-prefixed indicator, e.g. `acs:B01003_001`.
    pub indicator_id: String,
    /// Valid time as a half-open interval `[valid_from, valid_to)`.
    pub valid_from: Date,
    pub valid_to: Date,
    /// The release this value comes from, e.g. `acs5-2023`.
    pub vintage: String,
    /// When the vintage was published.
    pub published_at: Date,
    /// The estimate, as decimal text. `None` exactly when `value_annotation` is `Some`.
    pub value: Option<String>,
    /// The published 90% margin of error, as decimal text.
    pub moe: Option<String>,
    pub value_annotation: Option<Annotation>,
    pub moe_annotation: Option<Annotation>,
    /// The year of the boundary definitions this release used.
    pub boundary_year: u16,
    pub source_dataset: String,
    /// The request that produced this row, with the API key removed.
    pub source_url: String,
    pub retrieved_at: Timestamp,
}

/// A `Fact` with its text as character sequences.
pub struct FactView {
    pub entity_id: Seq<char>,
    pub indicator_id: Seq<char>,
    pub valid_from: Date,
    pub valid_to: Date,
    pub vintage: Seq<char>,
    pub published_at: Date,
    pub value: Option<Seq<char>>,
    pub moe: Option<Seq<char>>,
    pub value_annotation: Option<Annotation>,
    pub moe_annotation: Option<Annotation>,
    pub boundary_year: u16,
    pub source_dataset: Seq<char>,
    pub source_url: Seq<char>,
    pub retrieved_at: Timestamp,
}

/// The characters of an optional string.
pub open spec fn opt_text(o: Option<String>) -> Option<Seq<char>> {
    match o {
        Some(s) => Some(s@),
        None => None,
    }
}

impl View for Fact {
    type V = FactView;

    open spec fn view(&self) -> FactView {
        FactView {
            entity_id: self.entity_id@,
            indicator_id: self.indicator_id@,
            valid_from: self.valid_from,
            valid_to: self.valid_to,
            vintage: self.vintage@,
            published_at: self.published_at,
            value: opt_text(self.value),
            moe: opt_text(self.moe),
            value_annotation: self.value_annotation,
            moe_annotation: self.moe_annotation,
            boundary_year: self.boundary_year,
            source_dataset: self.source_dataset@,
            source_url: self.source_url@,
            retrieved_at: self.retrieved_at,
        }
    }
}

/// The views of a list of facts.
pub open spec fn facts_view(facts: Seq<Fact>) -> Seq<FactView> {
    facts.map_values(|f: Fact| f@)
}

/// The fact key: entity × indicator × valid time × vintage.
pub open spec fn fact_key(f: FactView) -> (Seq<char>, Seq<char>, Date, Date, Seq<char>) {
    (f.entity_id, f.indicator_id, f.valid_from, f.valid_to, f.vintage)
}

/// Position `j` of `keys` repeats a key seen at an earlier position.
pub open spec fn repeats_earlier<K>(keys: Seq<K>, j: int) -> bool {
    exists|i: int| 0 <= i < j && keys[i] == keys[j]
}

/// `j` is the first position of `keys` that repeats an earlier key.
pub open spec fn is_first_repeat<K>(keys: Seq<K>, j: int) -> bool {
    &&& 0 <= j < keys.len()
    &&& repeats_earlier(keys, j)
    &&& forall|k: int| 0 <= k < j ==> !repeats_earlier(keys, k)
}

/// No key occurs twice.
pub open spec fn keys_unique<K>(keys: Seq<K>) -> bool {
    forall|j: int| 0 <= j < keys.len() ==> !repeats_earlier(keys, j)
}

/// The error reporting fact `f` as a repeated key.
pub open spec fn duplicate_fact_error(f: FactView) -> ErrorModel {
    ErrorModel::DuplicateFactKey {
        entity_id: f.entity_id,
        indicator_id: f.indicator_id,
        valid_from: f.valid_from,
        vintage: f.vintage,
    }
}

/// The keys of a list of facts.
pub open spec fn fact_keys(facts: Seq<FactView>) -> Seq<(Seq<char>, Seq<char>, Date, Date, Seq<char>)> {
    facts.map_values(|f: FactView| fact_key(f))
}

/// The outcome of the uniqueness check on a list of facts: `None` when no
/// key repeats, else the error naming the first fact whose key was already
/// seen.
pub open spec fn unique_facts_outcome(facts: Seq<FactView>) -> Option<ErrorModel> {
    if keys_unique(fact_keys(facts)) {
        None
    } else {
        let j = choose|j: int| is_first_repeat(fact_keys(facts), j);
        Some(duplicate_fact_error(facts[j]))
    }
}

/// A value or the annotation saying why it is absent, never both, never
/// neither — for the estimate and for the margin of error.
pub open spec fn fact_observed(f: FactView) -> bool {
    &&& (f.value is Some) != (f.value_annotation is Some)
    &&& (f.moe is Some) != (f.moe_annotation is Some)
}

/// A pass's facts, refused when a key repeats.
pub open spec fn checked_facts(r: Result<Seq<FactView>, ErrorModel>) -> Result<Seq<FactView>, ErrorModel> {
    match r {
        Err(e) => Err(e),
        Ok(fs) => match unique_facts_outcome(fs) {
            Some(e) => Err(e),
            None => Ok(fs),
        },
    }
}

fn same_fact_key(a: &Fact, b: &Fact) -> (r: bool)
    ensures
        r == (fact_key(a@) == fact_key(b@)),
{
    a.valid_from == b.valid_from && a.valid_to == b.valid_to && same_text(
        a.entity_id.as_str(),
        b.entity_id.as_str(),
    ) && same_text(a.indicator_id.as_str(), b.indicator_id.as_str()) && same_text(
        a.vintage.as_str(),
        b.vintage.as_str(),
    )
}

/// Refuse a batch whose fact key is not unique — a source that repeats a
/// row is a source we don't understand. The error names the first fact
/// whose key was already seen.
pub fn ensure_unique_keys(facts: &[Fact]) -> (r: Result<(), Error>)
    ensures
        r is Ok <==> unique_facts_outcome(facts_view(facts@)) is None,
        r matches Err(e) ==> unique_facts_outcome(facts_view(facts@)) == Some(e@),
{
    let ghost keys = fact_keys(facts_view(facts@));
    let mut j: usize = 0;
    while j < facts.len()
        invariant
            j <= facts.len(),
            keys == fact_keys(facts_view(facts@)),
            forall|k: int| 0 <= k < j ==> !repeats_earlier(keys, k),
        decreases facts.len() - j,
    {
        let mut i: usize = 0;
        while i < j
            invariant
                i <= j < facts.len(),
                keys == fact_keys(facts_view(facts@)),
                forall|k: int| 0 <= k < i ==> keys[k] != keys[j as int],
                forall|k: int| 0 <= k < j ==> !repeats_earlier(keys, k),
            decreases j - i,
        {
            proof {
                assert(keys[i as int] == fact_key(facts@[i as int]@));
                assert(keys[j as int] == fact_key(facts@[j as int]@));
            }
            if same_fact_key(&facts[i], &facts[j]) {
                let f = &facts[j];
                let e = Error::DuplicateFactKey {
                    entity_id: string_of(f.entity_id.as_str()),
                    indicator_id: string_of(f.indicator_id.as_str()),
                    valid_from: f.valid_from,
                    vintage: string_of(f.vintage.as_str()),
                };
                proof {
                    assert(keys[i as int] == keys[j as int]);
                    assert(repeats_earlier(keys, j as int));
                    assert(is_first_repeat(keys, j as int));
                    crate::claim::lemma_first_repeat_unique(keys, j as int);
                }
                return Err(e);
            }
            i = i + 1;
        }
        j = j + 1;
    }
    Ok(())
}

/// Geographic level.
#[derive(Debug, Clone, Copy, PartialEq, Eq, Structural)]
pub enum Level {
    State,
    County,
    /// A physical site (e.g. a data center building), not an administrative area.
    Facility,
    /// A multi-building development (e.g. a data center campus).
    Campus,
}

/// Where an entity is, as far as the source says.
#[derive(Debug)]
pub enum Position {
    /// The source gives no location.
    Unknown,
    /// A point, latitude and longitude as decimal text.
    Point { lat: String, lon: String },
    /// The label point of the entity's captured polygon: the mean of the
    /// outer ring's vertices, a closed ring's repeated last vertex counted
    /// once (computed where the coordinates become floating point).
    OuterRingMean,
}

pub enum PositionView {
    Unknown,
    Point { lat: Seq<char>, lon: Seq<char> },
    OuterRingMean,
}

impl View for Position {
    type V = PositionView;

    open spec fn view(&self) -> PositionView {
        match self {
            Position::Unknown => PositionView::Unknown,
            Position::Point { lat, lon } => PositionView::Point { lat: lat@, lon: lon@ },
            Position::OuterRingMean => PositionView::OuterRingMean,
        }
    }
}

/// One row of the entity registry v0: what one source called a place, in
/// one vintage.
#[derive(Debug)]
pub struct Entity {
    pub entity_id: String,
    pub name: String,
    pub level: Level,
    pub boundary_year: u16,
    pub vintage: String,
    pub source_dataset: String,
    pub position: Position,
}

pub struct EntityView {
    pub entity_id: Seq<char>,
    pub name: Seq<char>,
    pub level: Level,
    pub boundary_year: u16,
    pub vintage: Seq<char>,
    pub source_dataset: Seq<char>,
    pub position: PositionView,
}

impl View for Entity {
    type V = EntityView;

    open spec fn view(&self) -> EntityView {
        EntityView {
            entity_id: self.entity_id@,
            name: self.name@,
            level: self.level,
            boundary_year: self.boundary_year,
            vintage: self.vintage@,
            source_dataset: self.source_dataset@,
            position: self.position@,
        }
    }
}

pub open spec fn entities_view(es: Seq<Entity>) -> Seq<EntityView> {
    es.map_values(|e: Entity| e@)
}

/// What one conform pass produces: the facts, and the entities they
/// mention.
#[derive(Debug)]
pub struct Conformed {
    pub facts: Vec<Fact>,
    pub entities: Vec<Entity>,
}

/// Captured source geometry for one entity in one vintage: rings of
/// (longitude, latitude) vertices as decimal text, outer ring first, holes
/// after, exactly as the source publishes them.
#[derive(Debug)]
pub struct Geometry {
    pub entity_id: String,
    pub vintage: String,
    pub source_dataset: String,
    pub rings: Vec<Vec<(String, String)>>,
    pub retrieved_at: Timestamp,
}

pub struct GeometryView {
    pub entity_id: Seq<char>,
    pub vintage: Seq<char>,
    pub source_dataset: Seq<char>,
    pub rings: Seq<Seq<(Seq<char>, Seq<char>)>>,
    pub retrieved_at: Timestamp,
}

pub open spec fn ring_view(ring: Vec<(String, String)>) -> Seq<(Seq<char>, Seq<char>)> {
    ring@.map_values(|v: (String, String)| (v.0@, v.1@))
}

impl View for Geometry {
    type V = GeometryView;

    open spec fn view(&self) -> GeometryView {
        GeometryView {
            entity_id: self.entity_id@,
            vintage: self.vintage@,
            source_dataset: self.source_dataset@,
            rings: self.rings@.map_values(|r: Vec<(String, String)>| ring_view(r)),
            retrieved_at: self.retrieved_at,
        }
    }
}

pub open spec fn geometries_view(gs: Seq<Geometry>) -> Seq<GeometryView> {
    gs.map_values(|g: Geometry| g@)
}

} // verus!
