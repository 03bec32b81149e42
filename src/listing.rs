//! Turning corridor buckets into scored corridors, filtering them, and the
//! cache key of a corridor listing.
use vstd::prelude::*;
use vstd::string::*;
use crate::corridors::CorridorBucket;
use crate::filter::{passes_filters, passes_spec, ListCorridorsQuery};
use crate::keys::{corridor_list, corridor_list_key, render_u128};
use crate::keys::{int_str, nat_str};
use crate::metrics::{
    calculate_health_score, get_liquidity_trend, health_spec, latencies_spec, synthetic_latencies,
    trend_spec, FULL_PERCENT,
};

verus! {

/// A corridor with its derived figures. Rates are in thousandths of a
/// percent, latencies in microseconds, amounts in units of 10^-7 and the health
/// score in thousandths of a point.
pub struct CorridorResponse {
    pub id: String,
    pub source_asset: String,
    pub destination_asset: String,
    pub success_rate: u64,
    pub total_attempts: u64,
    pub successful_payments: u64,
    pub failed_payments: u64,
    pub average_latency_us: u64,
    pub median_latency_us: u64,
    pub p95_latency_us: u64,
    pub p99_latency_us: u64,
    pub liquidity_depth_usd: u128,
    pub liquidity_volume_24h_usd: u128,
    pub liquidity_trend: String,
    pub health_score: u64,
    pub last_updated: String,
}

/// The natural logarithms, in millionths, of a bucket's volume (in whole
/// units) and of its payment count.
#[derive(PartialEq, Eq, Structural, Clone, Copy, Debug)]
pub struct BucketLogs {
    pub ln_volume_micro: u64,
    pub ln_attempts_micro: u64,
}

/// A part of `code:issuer` that splits back cleanly: no `:` and no `->`.
pub open spec fn plain_part(s: Seq<char>) -> bool {
    forall|i: int|
        0 <= i < s.len() ==> #[trigger] s[i] != ':' && !(s[i] == '-' && i + 1 < s.len() && s[i + 1] == '>')
}

fn is_plain_part(s: &String) -> (r: bool)
    ensures
        r == plain_part(s@),
{
    let n = s.unicode_len();
    let mut i: usize = 0;
    while i < n
        invariant
            n == s@.len(),
            i <= n,
            forall|j: int|
                0 <= j < i ==> #[trigger] s@[j] != ':' && !(s@[j] == '-' && j + 1 < s@.len() && s@[j + 1] == '>'),
        decreases n - i,
    {
        let c = s.get_char(i);
        if c == ':' {
            return false;
        }
        if c == '-' && i + 1 < n {
            let d = s.get_char(i + 1);
            if d == '>' {
                return false;
            }
        }
        i = i + 1;
    }
    true
}

/// The success rate of a bucket: every payment in the feed settled.
pub open spec fn bucket_rate(b: CorridorBucket) -> nat {
    if b.count > 0 { FULL_PERCENT as nat } else { 0 }
}

/// A bucket is listed when its key splits back into two assets and it passes
/// the query's filters.
pub open spec fn kept(b: CorridorBucket, q: ListCorridorsQuery) -> bool {
    &&& plain_part(b.source_code@)
    &&& plain_part(b.source_issuer@)
    &&& passes_spec(bucket_rate(b), b.volume as nat, b.source_code@, "XLM"@, q)
}

/// `c` is the corridor of bucket `b` with logarithms `l`, stamped `ts`.
pub open spec fn corridor_of(c: CorridorResponse, b: CorridorBucket, l: BucketLogs, ts: Seq<char>) -> bool {
    let rate = bucket_rate(b);
    let lat = latencies_spec(rate);
    &&& c.id@ == b.key@
    &&& c.source_asset@ == b.source_code@
    &&& c.destination_asset@ == "XLM"@
    &&& c.success_rate == rate
    &&& c.total_attempts == b.count
    &&& c.successful_payments == b.count
    &&& c.failed_payments == 0
    &&& c.average_latency_us == lat.average
    &&& c.median_latency_us == lat.median
    &&& c.p95_latency_us == lat.p95
    &&& c.p99_latency_us == lat.p99
    &&& c.liquidity_depth_usd == b.volume
    &&& c.liquidity_volume_24h_usd == b.volume / 10
    &&& c.liquidity_trend@ == trend_spec(b.volume as nat)
    &&& c.health_score == health_spec(
        rate,
        b.count as nat,
        b.volume as nat,
        l.ln_volume_micro as nat,
        l.ln_attempts_micro as nat,
    )
    &&& c.last_updated@ == ts
}

/// Scores one bucket as a corridor.
pub fn build_corridor(b: &CorridorBucket, logs: BucketLogs, last_updated: &String) -> (r: CorridorResponse)
    ensures
        corridor_of(r, *b, logs, last_updated@),
{
    let rate: u64 = if b.count > 0 { FULL_PERCENT } else { 0 };
    let lat = synthetic_latencies(rate);
    let health = calculate_health_score(rate, b.count, b.volume, logs.ln_volume_micro, logs.ln_attempts_micro);
    CorridorResponse {
        id: b.key.clone(),
        source_asset: b.source_code.clone(),
        destination_asset: String::from_str("XLM"),
        success_rate: rate,
        total_attempts: b.count,
        successful_payments: b.count,
        failed_payments: 0,
        average_latency_us: lat.average,
        median_latency_us: lat.median,
        p95_latency_us: lat.p95,
        p99_latency_us: lat.p99,
        liquidity_depth_usd: b.volume,
        liquidity_volume_24h_usd: b.volume / 10,
        liquidity_trend: get_liquidity_trend(b.volume),
        health_score: health,
        last_updated: last_updated.clone(),
    }
}

/// Positions of the buckets that are listed, in order.
pub open spec fn kept_indices(bs: Seq<CorridorBucket>, q: ListCorridorsQuery) -> Seq<int>
    decreases bs.len(),
{
    if bs.len() == 0 {
        Seq::empty()
    } else {
        let rest = kept_indices(bs.drop_last(), q);
        if kept(bs.last(), q) { rest.push(bs.len() - 1) } else { rest }
    }
}

/// The listing: the corridor of each bucket that is listed, in bucket order.
pub open spec fn listing_of(
    r: Seq<CorridorResponse>,
    bs: Seq<CorridorBucket>,
    logs: Seq<BucketLogs>,
    q: ListCorridorsQuery,
    ts: Seq<char>,
) -> bool {
    let idx = kept_indices(bs, q);
    &&& r.len() == idx.len()
    &&& forall|k: int| 0 <= k < r.len() ==> corridor_of(#[trigger] r[k], bs[idx[k]], logs[idx[k]], ts)
}

/// Scores the buckets, drops those whose key does not split back into two
/// assets, and keeps those that pass the query's filters.
pub fn assemble_corridors(
    buckets: &Vec<CorridorBucket>,
    logs: &Vec<BucketLogs>,
    last_updated: &String,
    q: &ListCorridorsQuery,
) -> (r: Vec<CorridorResponse>)
    requires
        logs@.len() == buckets@.len(),
    ensures
        listing_of(r@, buckets@, logs@, *q, last_updated@),
{
    let mut out: Vec<CorridorResponse> = Vec::new();
    let mut i: usize = 0;
    let xlm = String::from_str("XLM");
    while i < buckets.len()
        invariant
            i <= buckets@.len(),
            logs@.len() == buckets@.len(),
            xlm@ == "XLM"@,
            listing_of(out@, buckets@.subrange(0, i as int), logs@, *q, last_updated@),
            forall|k: int|
                0 <= k < kept_indices(buckets@.subrange(0, i as int), *q).len() ==> 0 <= #[trigger] kept_indices(
                    buckets@.subrange(0, i as int),
                    *q,
                )[k] < i,
        decreases buckets@.len() - i,
    {
        let b = &buckets[i];
        let ghost prev = buckets@.subrange(0, i as int);
        let ghost next = buckets@.subrange(0, i + 1);
        proof {
            assert(next.drop_last() =~= prev);
            assert(next.last() == buckets@[i as int]);
        }
        let rate: u64 = if b.count > 0 { FULL_PERCENT } else { 0 };
        let keep = is_plain_part(&b.source_code) && is_plain_part(&b.source_issuer) && passes_filters(
            rate,
            b.volume,
            &b.source_code,
            &xlm,
            q,
        );
        if keep {
            let c = build_corridor(b, logs[i], last_updated);
            out.push(c);
        }
        proof {
            let pi = kept_indices(prev, *q);
            let ni = kept_indices(next, *q);
            assert forall|k: int| 0 <= k < pi.len() implies next[pi[k]] == buckets@[pi[k]] && prev[pi[k]]
                == buckets@[pi[k]] by {
                assert(0 <= #[trigger] pi[k] < i);
            }
            assert forall|k: int| 0 <= k < out@.len() implies corridor_of(
                #[trigger] out@[k],
                next[ni[k]],
                logs@[ni[k]],
                last_updated@,
            ) by {
                if k < pi.len() {
                    assert(0 <= #[trigger] pi[k] < i);
                    assert(ni[k] == pi[k]);
                }
            }
        }
        i = i + 1;
    }
    proof {
        assert(buckets@.subrange(0, i as int) =~= buckets@);
    }
    out
}

/// Relies on chrono::Utc::now and DateTime::to_rfc3339: the current time as
/// RFC 3339 text. Nothing is known of the value.
#[verifier::external_body]
fn now_rfc3339() -> (r: String) {
    chrono::Utc::now().to_rfc3339()
}

/// The corridor listing, stamped with the current time: the same listing as
/// `assemble_corridors` for whatever time was read.
pub fn corridor_listing(buckets: &Vec<CorridorBucket>, logs: &Vec<BucketLogs>, q: &ListCorridorsQuery) -> (r: (
    Vec<CorridorResponse>,
    String,
))
    requires
        logs@.len() == buckets@.len(),
    ensures
        listing_of(r.0@, buckets@, logs@, *q, r.1@),
{
    let now = now_rfc3339();
    let list = assemble_corridors(buckets, logs, &now, q);
    (list, now)
}

/// Relies on `<str as Debug>::fmt` (through `format!("{:?}")`): the quoted,
/// escaped rendering of a text, which depends on the text alone.
pub uninterp spec fn debug_of(s: Seq<char>) -> Seq<char>;

/// Relies on `<str as Debug>::fmt`.
#[verifier::external_body]
fn debug_str(s: &str) -> (r: String)
    ensures
        r@ == debug_of(s@),
{
    format!("{:?}", s)
}

/// An optional number with an explicit absent or present marker.
pub open spec fn opt_num_str(v: Option<u128>) -> Seq<char> {
    match v {
        Some(n) => "Some("@ + nat_str(n as nat) + ")"@,
        None => "None"@,
    }
}

/// An optional text with an explicit absent or present marker.
pub open spec fn opt_text_str(v: Option<String>) -> Seq<char> {
    match v {
        Some(s) => "Some("@ + debug_of(s@) + ")"@,
        None => "None"@,
    }
}

pub open spec fn widen(v: Option<u64>) -> Option<u128> {
    match v {
        Some(n) => Some(n as u128),
        None => None,
    }
}

/// The filter fingerprint: the six filters in fixed order, each marked
/// present or absent.
pub open spec fn fingerprint_spec(q: ListCorridorsQuery) -> Seq<char> {
    "sr_min:"@ + opt_num_str(widen(q.success_rate_min)) + "_sr_max:"@ + opt_num_str(widen(q.success_rate_max))
        + "_vol_min:"@ + opt_num_str(q.volume_min) + "_vol_max:"@ + opt_num_str(q.volume_max) + "_asset:"@
        + opt_text_str(q.asset_code) + "_period:"@ + opt_text_str(q.time_period)
}

fn render_opt_num(v: Option<u128>) -> (r: String)
    ensures
        r@ == opt_num_str(v),
{
    match v {
        Some(n) => String::from_str("Some(").concat(render_u128(n).as_str()).concat(")"),
        None => String::from_str("None"),
    }
}

fn render_opt_text(v: &Option<String>) -> (r: String)
    ensures
        r@ == opt_text_str(*v),
{
    match v {
        Some(s) => String::from_str("Some(").concat(debug_str(s.as_str()).as_str()).concat(")"),
        None => String::from_str("None"),
    }
}

fn widen_exec(v: Option<u64>) -> (r: Option<u128>)
    ensures
        r == widen(v),
{
    match v {
        Some(n) => Some(n as u128),
        None => None,
    }
}

/// The filter fingerprint of a query.
pub fn filter_fingerprint(q: &ListCorridorsQuery) -> (r: String)
    ensures
        r@ == fingerprint_spec(*q),
{
    let a = render_opt_num(widen_exec(q.success_rate_min));
    let b = render_opt_num(widen_exec(q.success_rate_max));
    let c = render_opt_num(q.volume_min);
    let d = render_opt_num(q.volume_max);
    let e = render_opt_text(&q.asset_code);
    let f = render_opt_text(&q.time_period);
    String::from_str("sr_min:").concat(a.as_str()).concat("_sr_max:").concat(b.as_str()).concat(
        "_vol_min:",
    ).concat(c.as_str()).concat("_vol_max:").concat(d.as_str()).concat("_asset:").concat(e.as_str()).concat(
        "_period:",
    ).concat(f.as_str())
}

/// The cache key of a corridor listing:
/// `corridor:list:{limit}:{offset}:{fingerprint}`.
pub fn generate_corridor_list_cache_key(params: &ListCorridorsQuery) -> (r: String)
    ensures
        r@ == corridor_list_key(params.limit as int, params.offset as int, fingerprint_spec(*params)),
{
    let f = filter_fingerprint(params);
    corridor_list(params.limit, params.offset, f.as_str())
}

/// The corridor cache key tells an absent asset-code filter from a present
/// one, whatever text the present one holds (the empty text included), when
/// every other parameter is the same.
pub proof fn lemma_fingerprint_marks_presence(q: ListCorridorsQuery, q2: ListCorridorsQuery, code: String)
    requires
        q.asset_code is None,
        q2.asset_code == Some(code),
        q2.limit == q.limit,
        q2.offset == q.offset,
        q2.success_rate_min == q.success_rate_min,
        q2.success_rate_max == q.success_rate_max,
        q2.volume_min == q.volume_min,
        q2.volume_max == q.volume_max,
    ensures
        corridor_list_key(q.limit as int, q.offset as int, fingerprint_spec(q)) != corridor_list_key(
            q2.limit as int,
            q2.offset as int,
            fingerprint_spec(q2),
        ),
{
    reveal_strlit("None");
    reveal_strlit("Some(");
    let head = "sr_min:"@ + opt_num_str(widen(q.success_rate_min)) + "_sr_max:"@ + opt_num_str(
        widen(q.success_rate_max),
    ) + "_vol_min:"@ + opt_num_str(q.volume_min) + "_vol_max:"@ + opt_num_str(q.volume_max) + "_asset:"@;
    let pre = "corridor:list:"@ + int_str(q.limit as int) + ":"@ + int_str(q.offset as int) + ":"@;
    let a1 = opt_text_str(q.asset_code);
    let a2 = opt_text_str(q2.asset_code);
    let tail1 = "_period:"@ + opt_text_str(q.time_period);
    let tail2 = "_period:"@ + opt_text_str(q2.time_period);
    let f1 = fingerprint_spec(q);
    let f2 = fingerprint_spec(q2);
    assert(f1 =~= head + (a1 + tail1));
    assert(f2 =~= head + (a2 + tail2));
    let k1 = corridor_list_key(q.limit as int, q.offset as int, f1);
    let k2 = corridor_list_key(q2.limit as int, q2.offset as int, f2);
    assert(k1 =~= pre + f1);
    assert(k2 =~= pre + f2);
    let n: int = (pre.len() + head.len()) as int;
    assert(a1[0] == 'N');
    assert(a2 =~= "Some("@ + (debug_of(code@) + ")"@));
    assert(a2[0] == 'S');
    assert(k1[n] == (a1 + tail1)[0]);
    assert(k2[n] == (a2 + tail2)[0]);
    assert(k1[n] != k2[n]);
}

} // verus!
