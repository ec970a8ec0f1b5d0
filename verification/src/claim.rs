//! The claim: someone asserts something about an entity — a lifecycle
//! stage, a capacity figure, a role. Same bitemporal spine (valid time ×
//! vintage) and provenance discipline as facts, extended with who said it
//! and how sure we are. Claims are never merged, averaged, or reconciled at
//! ingest; competing claims coexist and carry their sources.

use vstd::prelude::*;

use crate::error::{Error, ErrorModel};
use crate::fact::{is_first_repeat, keys_unique, opt_text, repeats_earlier};
use crate::text::{same_text, string_of};
use crate::time::{Date, Timestamp};

verus! {

/// How the claim is backed. The tier is part of the claim and renders with it.
#[derive(Debug, Clone, Copy, PartialEq, Eq, Structural)]
pub enum Confidence {
    /// Backed by an official record (permit, docket, filing).
    ConfirmedByRecord,
    /// Reported (press, company statement) but not record-backed.
    Reported,
    /// Circulating without an identifiable record or on-record statement.
    Rumored,
}

/// Field order is the column order of the JSON Lines output.
#[derive(Debug)]
pub struct Claim {
    pub entity_id: String,
    /// Namespaced attribute, e.g. `dc:stage`.
    pub attribute_id: String,
    /// Valid time as a half-open interval.
    pub valid_from: Date,
    pub valid_to: Date,
    /// The snapshot/release this claim was learned from, e.g. `echo-2026-09-02`.
    pub vintage: String,
    /// The specific record inside the source that asserts this.
    pub source_record: String,
    /// Exactly one of `value_text` / `value_num` is set; `value_num` is
    /// decimal text.
    pub value_text: Option<String>,
    pub value_num: Option<String>,
    pub unit: Option<String>,
    /// Who asserts it, as stated, not resolved.
    pub stated_by: String,
    pub confidence: Confidence,
    pub published_at: Date,
    pub source_dataset: String,
    pub source_url: String,
    pub retrieved_at: Timestamp,
}

pub struct ClaimView {
    pub entity_id: Seq<char>,
    pub attribute_id: Seq<char>,
    pub valid_from: Date,
    pub valid_to: Date,
    pub vintage: Seq<char>,
    pub source_record: Seq<char>,
    pub value_text: Option<Seq<char>>,
    pub value_num: Option<Seq<char>>,
    pub unit: Option<Seq<char>>,
    pub stated_by: Seq<char>,
    pub confidence: Confidence,
    pub published_at: Date,
    pub source_dataset: Seq<char>,
    pub source_url: Seq<char>,
    pub retrieved_at: Timestamp,
}

impl View for Claim {
    type V = ClaimView;

    open spec fn view(&self) -> ClaimView {
        ClaimView {
            entity_id: self.entity_id@,
            attribute_id: self.attribute_id@,
            valid_from: self.valid_from,
            valid_to: self.valid_to,
            vintage: self.vintage@,
            source_record: self.source_record@,
            value_text: opt_text(self.value_text),
            value_num: opt_text(self.value_num),
            unit: opt_text(self.unit),
            stated_by: self.stated_by@,
            confidence: self.confidence,
            published_at: self.published_at,
            source_dataset: self.source_dataset@,
            source_url: self.source_url@,
            retrieved_at: self.retrieved_at,
        }
    }
}

pub open spec fn claims_view(cs: Seq<Claim>) -> Seq<ClaimView> {
    cs.map_values(|c: Claim| c@)
}

/// A claim carries exactly one of `value_text` and `value_num`.
pub open spec fn one_value(c: ClaimView) -> bool {
    (c.value_text is Some) != (c.value_num is Some)
}

/// Every claim of `cs` carries exactly one value.
pub open spec fn all_one_value(cs: Seq<ClaimView>) -> bool {
    forall|k: int| 0 <= k < cs.len() ==> #[trigger] one_value(cs[k])
}

/// Joining two lists of claims that each carry one value.
pub broadcast proof fn lemma_all_one_value_concat(a: Seq<ClaimView>, b: Seq<ClaimView>)
    requires
        all_one_value(a),
        all_one_value(b),
    ensures
        #[trigger] all_one_value(a + b),
{
    assert forall|k: int| 0 <= k < (a + b).len() implies #[trigger] one_value((a + b)[k]) by {
        if k < a.len() {
            assert(one_value(a[k]));
        } else {
            assert(one_value(b[k - a.len()]));
        }
    }
}

/// The claim key: entity × attribute × valid time × vintage × source record.
pub open spec fn claim_key(c: ClaimView) -> (
    Seq<char>,
    Seq<char>,
    Date,
    Date,
    Seq<char>,
    Seq<char>,
) {
    (c.entity_id, c.attribute_id, c.valid_from, c.valid_to, c.vintage, c.source_record)
}

pub open spec fn claim_keys(cs: Seq<ClaimView>) -> Seq<
    (Seq<char>, Seq<char>, Date, Date, Seq<char>, Seq<char>),
> {
    cs.map_values(|c: ClaimView| claim_key(c))
}

/// The error reporting claim `c` as a repeated key.
pub open spec fn duplicate_claim_error(c: ClaimView) -> ErrorModel {
    ErrorModel::DuplicateClaimKey {
        entity_id: c.entity_id,
        attribute_id: c.attribute_id,
        valid_from: c.valid_from,
        vintage: c.vintage,
        source_record: c.source_record,
    }
}

/// The outcome of the uniqueness check on a list of claims.
pub open spec fn unique_claims_outcome(cs: Seq<ClaimView>) -> Option<ErrorModel> {
    if keys_unique(claim_keys(cs)) {
        None
    } else {
        let j = choose|j: int| is_first_repeat(claim_keys(cs), j);
        Some(duplicate_claim_error(cs[j]))
    }
}

fn same_claim_key(a: &Claim, b: &Claim) -> (r: bool)
    ensures
        r == (claim_key(a@) == claim_key(b@)),
{
    a.valid_from == b.valid_from && a.valid_to == b.valid_to && same_text(
        a.entity_id.as_str(),
        b.entity_id.as_str(),
    ) && same_text(a.attribute_id.as_str(), b.attribute_id.as_str()) && same_text(
        a.vintage.as_str(),
        b.vintage.as_str(),
    ) && same_text(a.source_record.as_str(), b.source_record.as_str())
}

/// Refuse a batch whose claim key is not unique: `ingest` succeeding must
/// itself be the guarantee. The error names the first claim whose key was
/// already seen.
pub fn ensure_unique_claim_keys(claims: &[Claim]) -> (r: Result<(), Error>)
    ensures
        r is Ok <==> unique_claims_outcome(claims_view(claims@)) is None,
        r matches Err(e) ==> unique_claims_outcome(claims_view(claims@)) == Some(e@),
{
    let ghost cv = claims_view(claims@);
    let ghost keys = claim_keys(cv);
    let mut j: usize = 0;
    while j < claims.len()
        invariant
            j <= claims.len(),
            cv == claims_view(claims@),
            keys == claim_keys(cv),
            forall|k: int| 0 <= k < j ==> !repeats_earlier(keys, k),
        decreases claims.len() - j,
    {
        let mut i: usize = 0;
        while i < j
            invariant
                i <= j < claims.len(),
                cv == claims_view(claims@),
                keys == claim_keys(cv),
                forall|k: int| 0 <= k < i ==> keys[k] != keys[j as int],
                forall|k: int| 0 <= k < j ==> !repeats_earlier(keys, k),
            decreases j - i,
        {
            proof {
                assert(keys[i as int] == claim_key(claims@[i as int]@));
                assert(keys[j as int] == claim_key(claims@[j as int]@));
            }
            if same_claim_key(&claims[i], &claims[j]) {
                let c = &claims[j];
                let e = Error::DuplicateClaimKey {
                    entity_id: string_of(c.entity_id.as_str()),
                    attribute_id: string_of(c.attribute_id.as_str()),
                    valid_from: c.valid_from,
                    vintage: string_of(c.vintage.as_str()),
                    source_record: string_of(c.source_record.as_str()),
                };
                proof {
                    assert(keys[i as int] == keys[j as int]);
                    assert(repeats_earlier(keys, j as int));
                    assert(is_first_repeat(keys, j as int));
                    lemma_first_repeat_unique(keys, j as int);
                }
                return Err(e);
            }
            i = i + 1;
        }
        j = j + 1;
    }
    Ok(())
}

/// There is only one first repeated position.
pub proof fn lemma_first_repeat_unique<K>(keys: Seq<K>, j: int)
    requires
        is_first_repeat(keys, j),
    ensures
        !keys_unique(keys),
        forall|k: int| is_first_repeat(keys, k) ==> k == j,
        (choose|k: int| is_first_repeat(keys, k)) == j,
{
    assert forall|k: int| is_first_repeat(keys, k) implies k == j by {
        if k < j {
            assert(!repeats_earlier(keys, k));
        } else if j < k {
            assert(!repeats_earlier(keys, j));
        }
    }
}

} // verus!
