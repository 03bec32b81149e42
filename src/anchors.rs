//! Anchor metrics: choosing between live and stored counters, computing the
//! rates and status of each anchor, and assembling the listing.
use vstd::prelude::*;
use crate::metrics::{percent_of, rate_spec, status_for_score, status_spec, Status, FULL_PERCENT};

verus! {

/// Query of the anchor listing.
pub struct ListAnchorsQuery {
    pub limit: i64,
    pub offset: i64,
}

/// The page size used when a listing query names none.
pub fn default_limit() -> (r: i64)
    ensures
        r == 50,
{
    50
}

impl ListAnchorsQuery {
    /// A query for the first page at the default page size.
    pub fn first_page() -> (r: ListAnchorsQuery)
        ensures
            r.limit == 50,
            r.offset == 0,
    {
        ListAnchorsQuery { limit: default_limit(), offset: 0 }
    }
}

/// An anchor as the metadata store holds it, with its stored counters and its
/// stored reliability score (thousandths of a percent).
pub struct Anchor {
    pub id: String,
    pub name: String,
    pub stellar_account: String,
    pub total_transactions: u64,
    pub successful_transactions: u64,
    pub failed_transactions: u64,
    pub reliability_score: u128,
}

/// Which counters an anchor's metrics were computed from.
#[derive(PartialEq, Eq, Structural, Clone, Copy, Debug)]
pub enum CounterSource {
    /// Counted from the payments that the live source returned.
    Live,
    /// The stored counters, because the live source failed or returned nothing.
    Fallback,
}

/// The transaction counters that the metrics are computed from.
#[derive(PartialEq, Eq, Structural, Clone, Copy, Debug)]
pub struct Counters {
    pub total: u64,
    pub successful: u64,
    pub failed: u64,
    pub source: CounterSource,
}

/// Live payments all settled: a non-empty live result counts every payment as
/// a success; otherwise the stored counters are used as they are.
pub open spec fn counters_spec(anchor: Anchor, live: Option<u64>) -> Counters {
    match live {
        Some(n) if n > 0 => Counters { total: n, successful: n, failed: 0, source: CounterSource::Live },
        _ => Counters {
            total: anchor.total_transactions,
            successful: anchor.successful_transactions,
            failed: anchor.failed_transactions,
            source: CounterSource::Fallback,
        },
    }
}

/// Chooses the counters of an anchor. `live` is the number of payments that
/// the live source returned, or `None` when the fetch failed.
pub fn select_counters(anchor: &Anchor, live: Option<u64>) -> (r: Counters)
    ensures
        r == counters_spec(*anchor, live),
{
    match live {
        Some(n) if n > 0 => Counters { total: n, successful: n, failed: 0, source: CounterSource::Live },
        _ => Counters {
            total: anchor.total_transactions,
            successful: anchor.successful_transactions,
            failed: anchor.failed_transactions,
            source: CounterSource::Fallback,
        },
    }
}

/// Failure rate in thousandths of a percent; zero without transactions.
pub open spec fn failure_rate_spec(c: Counters) -> nat {
    if c.total > 0 { rate_spec(c.failed as nat, c.total as nat) } else { 0 }
}

/// Reliability in thousandths of a percent; the stored score without
/// transactions.
pub open spec fn reliability_spec(c: Counters, stored: u128) -> nat {
    if c.total > 0 { rate_spec(c.successful as nat, c.total as nat) } else { stored as nat }
}

/// The metrics of one anchor, as the listing reports them.
pub struct AnchorMetricsResponse {
    pub id: String,
    pub name: String,
    pub stellar_account: String,
    pub reliability_score: u128,
    pub asset_coverage: usize,
    pub failure_rate: u128,
    pub total_transactions: u64,
    pub successful_transactions: u64,
    pub failed_transactions: u64,
    pub status: String,
    pub source: CounterSource,
}

/// `r` holds the metrics of `anchor` with `coverage` assets and live result `live`.
pub open spec fn metrics_of(r: AnchorMetricsResponse, anchor: Anchor, coverage: usize, live: Option<u64>) -> bool {
    let c = counters_spec(anchor, live);
    &&& r.id@ == anchor.id@
    &&& r.name@ == anchor.name@
    &&& r.stellar_account@ == anchor.stellar_account@
    &&& r.asset_coverage == coverage
    &&& r.total_transactions == c.total
    &&& r.successful_transactions == c.successful
    &&& r.failed_transactions == c.failed
    &&& r.source == c.source
    &&& r.failure_rate == failure_rate_spec(c)
    &&& r.reliability_score == reliability_spec(c, anchor.reliability_score)
    &&& r.status@ == status_spec(r.reliability_score as int).name_spec()
}

/// Computes the metrics of one anchor from its record, its asset count and
/// what the live source returned for it.
pub fn anchor_metrics(anchor: &Anchor, asset_coverage: usize, live: Option<u64>) -> (r: AnchorMetricsResponse)
    ensures
        metrics_of(r, *anchor, asset_coverage, live),
{
    let c = select_counters(anchor, live);
    let failure_rate: u128 = if c.total > 0 { percent_of(c.failed, c.total) } else { 0 };
    let reliability_score: u128 = if c.total > 0 {
        percent_of(c.successful, c.total)
    } else {
        anchor.reliability_score
    };
    let status = status_for_score(reliability_score);
    AnchorMetricsResponse {
        id: anchor.id.clone(),
        name: anchor.name.clone(),
        stellar_account: anchor.stellar_account.clone(),
        reliability_score,
        asset_coverage,
        failure_rate,
        total_transactions: c.total,
        successful_transactions: c.successful,
        failed_transactions: c.failed,
        status: status.as_string(),
        source: c.source,
    }
}

/// Computed rates stay within 0 to 100 percent whenever the counters they come
/// from are consistent (neither the successes nor the failures exceed the total).
pub proof fn lemma_rates_bounded(c: Counters, stored: u128)
    requires
        c.successful <= c.total,
        c.failed <= c.total,
        c.total > 0 || stored <= FULL_PERCENT,
    ensures
        failure_rate_spec(c) <= FULL_PERCENT,
        reliability_spec(c, stored) <= FULL_PERCENT,
{
    if c.total > 0 {
        lemma_rate_bounded(c.failed as nat, c.total as nat);
        lemma_rate_bounded(c.successful as nat, c.total as nat);
    }
}

proof fn lemma_rate_bounded(part: nat, total: nat)
    requires
        part <= total,
        total > 0,
    ensures
        rate_spec(part, total) <= 100_000,
{
    assert(100_000 * part <= 100_000 * total) by (nonlinear_arith)
        requires part <= total;
    assert((100_000 * total) / total == 100_000) by (nonlinear_arith)
        requires total > 0;
    assert((100_000 * part) / total <= (100_000 * total) / total) by (nonlinear_arith)
        requires 100_000 * part <= 100_000 * total, total > 0;
}

/// What the orchestrator gathered for one anchor: its record, its asset count
/// and the live payment count (`None` when the live fetch failed).
pub struct AnchorInput {
    pub anchor: Anchor,
    pub asset_coverage: usize,
    pub live_payments: Option<u64>,
}

/// The anchor listing.
pub struct AnchorsResponse {
    pub anchors: Vec<AnchorMetricsResponse>,
    pub total: usize,
}

/// Builds the listing: one entry per gathered anchor, in the order given;
/// `total` is the number of entries.
pub fn build_anchors_response(inputs: &Vec<AnchorInput>) -> (r: AnchorsResponse)
    ensures
        r.anchors@.len() == inputs@.len(),
        r.total == inputs@.len(),
        forall|i: int|
            0 <= i < inputs@.len() ==> metrics_of(
                #[trigger] r.anchors@[i],
                inputs@[i].anchor,
                inputs@[i].asset_coverage,
                inputs@[i].live_payments,
            ),
{
    let mut anchors: Vec<AnchorMetricsResponse> = Vec::new();
    let mut i: usize = 0;
    while i < inputs.len()
        invariant
            i <= inputs@.len(),
            anchors@.len() == i,
            forall|j: int|
                0 <= j < i ==> metrics_of(
                    #[trigger] anchors@[j],
                    inputs@[j].anchor,
                    inputs@[j].asset_coverage,
                    inputs@[j].live_payments,
                ),
        decreases inputs@.len() - i,
    {
        let input = &inputs[i];
        let m = anchor_metrics(&input.anchor, input.asset_coverage, input.live_payments);
        anchors.push(m);
        i = i + 1;
    }
    let total = anchors.len();
    AnchorsResponse { anchors, total }
}

/// Relies on uuid::Uuid::parse_str (and Uuid::as_u128): the identifier that a
/// textual UUID denotes, if the text is one; it depends on the text alone.
pub uninterp spec fn parsed_uuid(s: Seq<char>) -> Option<u128>;

/// Relies on uuid::Uuid::parse_str and Uuid::as_u128: parses a UUID in any of
/// its textual forms, as its 128-bit big-endian value.
#[verifier::external_body]
fn parse_uuid(s: &str) -> (r: Option<u128>)
    ensures
        r == parsed_uuid(s@),
{
    uuid::Uuid::parse_str(s).ok().map(|u| u.as_u128())
}

/// The identifier under which an anchor's assets are looked up: its id parsed
/// as a UUID, or the nil UUID (zero) when the id is not one.
pub fn anchor_lookup_id(id: &str) -> (r: u128)
    ensures
        r == match parsed_uuid(id@) {
            Some(v) => v,
            None => 0,
        },
{
    match parse_uuid(id) {
        Some(v) => v,
        None => 0,
    }
}

} // verus!
