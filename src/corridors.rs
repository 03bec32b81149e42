//! Corridor discovery: grouping live payments into source -> destination
//! buckets, and turning each bucket into a scored corridor.
use vstd::prelude::*;
use crate::amount::{amount_spec, parse_amount};

verus! {

/// One settled payment reported by the live source. A missing code or issuer
/// stands for the native asset.
pub struct Payment {
    pub asset_code: Option<String>,
    pub asset_issuer: Option<String>,
    pub amount: String,
}

pub open spec fn code_of(p: Payment) -> Seq<char> {
    match p.asset_code {
        Some(c) => c@,
        None => "XLM"@,
    }
}

pub open spec fn issuer_of(p: Payment) -> Seq<char> {
    match p.asset_issuer {
        Some(i) => i@,
        None => "native"@,
    }
}

/// `{code}:{issuer}->XLM:native`: every payment is taken to end in the native
/// asset until its actual destination can be looked up.
pub open spec fn corridor_key_spec(code: Seq<char>, issuer: Seq<char>) -> Seq<char> {
    code + ":"@ + issuer + "->XLM:native"@
}

pub open spec fn payment_key(p: Payment) -> Seq<char> {
    corridor_key_spec(code_of(p), issuer_of(p))
}

/// The amount of a payment in units of 10^-7, zero when it is not an amount.
pub open spec fn amount_or_zero(p: Payment) -> nat {
    match amount_spec(p.amount@) {
        Some(v) => v,
        None => 0,
    }
}

/// How many of `ps` fall in the corridor with key `k`.
pub open spec fn count_with_key(ps: Seq<Payment>, k: Seq<char>) -> nat
    decreases ps.len(),
{
    if ps.len() == 0 {
        0
    } else {
        count_with_key(ps.drop_last(), k) + if payment_key(ps.last()) == k { 1nat } else { 0nat }
    }
}

/// The summed amounts of those of `ps` that fall in the corridor with key `k`;
/// amounts that cannot be read add nothing.
pub open spec fn volume_with_key(ps: Seq<Payment>, k: Seq<char>) -> nat
    decreases ps.len(),
{
    if ps.len() == 0 {
        0
    } else {
        volume_with_key(ps.drop_last(), k) + if payment_key(ps.last()) == k {
            amount_or_zero(ps.last())
        } else {
            0nat
        }
    }
}

/// The payments of one corridor, aggregated.
pub struct CorridorBucket {
    pub key: String,
    pub source_code: String,
    pub source_issuer: String,
    pub count: u64,
    pub volume: u128,
}

/// `b` aggregates the payments of `ps` whose key is `b.key`, and takes its
/// source asset from the first of them.
pub open spec fn bucket_of(b: CorridorBucket, ps: Seq<Payment>) -> bool {
    &&& b.count as nat == count_with_key(ps, b.key@)
    &&& b.volume as nat == volume_with_key(ps, b.key@)
    &&& b.count > 0
    &&& sourced_from(b, ps, ps.len() as int)
}

fn asset_part(s: &Option<String>, absent: &str) -> (r: String)
    ensures
        r@ == match s {
            Some(v) => v@,
            None => absent@,
        },
{
    match s {
        Some(v) => v.clone(),
        None => String::from_str(absent),
    }
}

proof fn lemma_count_bound(ps: Seq<Payment>, k: Seq<char>)
    ensures
        count_with_key(ps, k) <= ps.len(),
    decreases ps.len(),
{
    if ps.len() > 0 {
        lemma_count_bound(ps.drop_last(), k);
    }
}

proof fn lemma_step(ps: Seq<Payment>, i: int, k: Seq<char>)
    requires
        0 <= i < ps.len(),
    ensures
        count_with_key(ps.subrange(0, i + 1), k) == count_with_key(ps.subrange(0, i), k) + if payment_key(
            ps[i],
        ) == k {
            1nat
        } else {
            0nat
        },
        volume_with_key(ps.subrange(0, i + 1), k) == volume_with_key(ps.subrange(0, i), k) + if payment_key(
            ps[i],
        ) == k {
            amount_or_zero(ps[i])
        } else {
            0nat
        },
{
    assert(ps.subrange(0, i + 1).drop_last() =~= ps.subrange(0, i));
}

/// Some bucket of `bs` has key `k`.
pub open spec fn has_bucket(bs: Seq<CorridorBucket>, k: Seq<char>) -> bool {
    exists|b: int| 0 <= b < bs.len() && (#[trigger] bs[b]).key@ == k
}

/// `b` takes its key and source asset from one of the first `n` payments.
pub open spec fn sourced_from(b: CorridorBucket, ps: Seq<Payment>, n: int) -> bool {
    exists|j: int|
        0 <= j < n && payment_key(#[trigger] ps[j]) == b.key@ && b.source_code@ == code_of(ps[j])
            && b.source_issuer@ == issuer_of(ps[j])
}

/// Bucket `b` is the aggregate of the first `n` payments with its key.
pub open spec fn bucket_upto(b: CorridorBucket, ps: Seq<Payment>, n: int) -> bool {
    &&& b.count as nat == count_with_key(ps.subrange(0, n), b.key@)
    &&& b.volume as nat == volume_with_key(ps.subrange(0, n), b.key@)
    &&& 0 < b.count <= n
    &&& b.volume <= n * 0xffff_ffff_ffff_ffffu64
    &&& sourced_from(b, ps, n)
}

/// The invariant of the grouping pass after the first `n` payments.
#[verifier::opaque]
pub open spec fn grouped(bs: Seq<CorridorBucket>, ps: Seq<Payment>, n: int) -> bool {
    &&& forall|b: int| 0 <= b < bs.len() ==> bucket_upto(#[trigger] bs[b], ps, n)
    &&& forall|b: int, c: int| 0 <= b < c < bs.len() ==> bs[b].key@ != bs[c].key@
    &&& forall|j: int| 0 <= j < n ==> has_bucket(bs, payment_key(#[trigger] ps[j]))
}

proof fn lemma_absent(ps: Seq<Payment>, k: Seq<char>)
    requires
        forall|j: int| 0 <= j < ps.len() ==> payment_key(#[trigger] ps[j]) != k,
    ensures
        count_with_key(ps, k) == 0,
        volume_with_key(ps, k) == 0,
    decreases ps.len(),
{
    if ps.len() > 0 {
        let t = ps.drop_last();
        assert forall|j: int| 0 <= j < t.len() implies payment_key(#[trigger] t[j]) != k by {
            assert(t[j] == ps[j]);
        }
        lemma_absent(t, k);
        assert(payment_key(ps[ps.len() - 1]) != k);
    }
}

proof fn lemma_grouped_bounds(bs: Seq<CorridorBucket>, ps: Seq<Payment>, n: int, b: int)
    requires
        grouped(bs, ps, n),
        0 <= b < bs.len(),
    ensures
        bs[b].count <= n,
        bs[b].volume <= n * 0xffff_ffff_ffff_ffffu64,
{
    reveal(grouped);
    assert(bucket_upto(bs[b], ps, n));
}

proof fn lemma_grouped_start(ps: Seq<Payment>)
    ensures
        grouped(Seq::empty(), ps, 0),
{
    reveal(grouped);
}

#[verifier::rlimit(40)]
proof fn lemma_grouped_update(
    old_bs: Seq<CorridorBucket>,
    bs: Seq<CorridorBucket>,
    ps: Seq<Payment>,
    i: int,
    b: int,
)
    requires
        grouped(old_bs, ps, i),
        0 <= i < ps.len(),
        0 <= b < old_bs.len(),
        old_bs[b].key@ == payment_key(ps[i]),
        bs.len() == old_bs.len(),
        forall|d: int| 0 <= d < bs.len() && d != b ==> bs[d] == old_bs[d],
        bs[b].key@ == old_bs[b].key@,
        bs[b].source_code@ == old_bs[b].source_code@,
        bs[b].source_issuer@ == old_bs[b].source_issuer@,
        bs[b].count == old_bs[b].count + 1,
        bs[b].volume == old_bs[b].volume + amount_or_zero(ps[i]),
        amount_or_zero(ps[i]) <= 0xffff_ffff_ffff_ffffu64,
    ensures
        grouped(bs, ps, i + 1),
{
    reveal(grouped);
    assert forall|d: int| 0 <= d < bs.len() implies bucket_upto(#[trigger] bs[d], ps, i + 1) by {
        let od = old_bs[d];
        assert(bucket_upto(od, ps, i));
        lemma_step(ps, i, od.key@);
        if d != b {
            assert(od.key@ != old_bs[b].key@);
        }
        let j = choose|j: int|
            0 <= j < i && payment_key(#[trigger] ps[j]) == od.key@ && od.source_code@ == code_of(ps[j])
                && od.source_issuer@ == issuer_of(ps[j]);
        assert(0 <= j < i + 1 && payment_key(ps[j]) == bs[d].key@);
        assert(od.volume + amount_or_zero(ps[i]) <= (i + 1) * 0xffff_ffff_ffff_ffffu64) by (nonlinear_arith)
            requires od.volume <= i * 0xffff_ffff_ffff_ffffu64, amount_or_zero(ps[i]) <= 0xffff_ffff_ffff_ffffu64;
        assert(od.volume <= (i + 1) * 0xffff_ffff_ffff_ffffu64) by (nonlinear_arith)
            requires od.volume <= i * 0xffff_ffff_ffff_ffffu64, i >= 0;
    }
    assert forall|j: int| 0 <= j < i + 1 implies has_bucket(bs, payment_key(#[trigger] ps[j])) by {
        if j == i {
            assert(bs[b].key@ == payment_key(ps[j]));
        } else {
            assert(has_bucket(old_bs, payment_key(ps[j])));
            let d = choose|d: int| 0 <= d < old_bs.len() && (#[trigger] old_bs[d]).key@ == payment_key(ps[j]);
            assert(bs[d].key@ == old_bs[d].key@);
        }
    }
    assert forall|c: int, e: int| 0 <= c < e < bs.len() implies bs[c].key@ != bs[e].key@ by {
        assert(bs[c].key@ == old_bs[c].key@);
        assert(bs[e].key@ == old_bs[e].key@);
    }
}

#[verifier::rlimit(40)]
proof fn lemma_grouped_push(old_bs: Seq<CorridorBucket>, nb: CorridorBucket, ps: Seq<Payment>, i: int)
    requires
        grouped(old_bs, ps, i),
        0 <= i < ps.len(),
        forall|d: int| 0 <= d < old_bs.len() ==> old_bs[d].key@ != payment_key(ps[i]),
        nb.key@ == payment_key(ps[i]),
        nb.source_code@ == code_of(ps[i]),
        nb.source_issuer@ == issuer_of(ps[i]),
        nb.count == 1,
        nb.volume == amount_or_zero(ps[i]),
        amount_or_zero(ps[i]) <= 0xffff_ffff_ffff_ffffu64,
    ensures
        grouped(old_bs.push(nb), ps, i + 1),
{
    reveal(grouped);
    let bs = old_bs.push(nb);
    let n = old_bs.len() as int;
    let prev = ps.subrange(0, i);
    assert forall|j: int| 0 <= j < prev.len() implies payment_key(#[trigger] prev[j]) != nb.key@ by {
        assert(prev[j] == ps[j]);
        assert(has_bucket(old_bs, payment_key(ps[j])));
    }
    lemma_absent(prev, nb.key@);
    assert forall|d: int| 0 <= d < bs.len() implies bucket_upto(#[trigger] bs[d], ps, i + 1) by {
        lemma_step(ps, i, bs[d].key@);
        if d < n {
            let od = old_bs[d];
            assert(bs[d] == od);
            assert(bucket_upto(od, ps, i));
            let j = choose|j: int|
                0 <= j < i && payment_key(#[trigger] ps[j]) == od.key@ && od.source_code@ == code_of(ps[j])
                    && od.source_issuer@ == issuer_of(ps[j]);
            assert(0 <= j < i + 1 && payment_key(ps[j]) == bs[d].key@);
            assert(od.volume <= (i + 1) * 0xffff_ffff_ffff_ffffu64) by (nonlinear_arith)
                requires od.volume <= i * 0xffff_ffff_ffff_ffffu64, i >= 0;
        } else {
            assert(payment_key(ps[i]) == bs[d].key@);
            assert(sourced_from(bs[d], ps, i + 1));
            assert(nb.volume <= (i + 1) * 0xffff_ffff_ffff_ffffu64) by (nonlinear_arith)
                requires nb.volume <= 0xffff_ffff_ffff_ffffu64, i >= 0;
        }
    }
    assert forall|j: int| 0 <= j < i + 1 implies has_bucket(bs, payment_key(#[trigger] ps[j])) by {
        if j == i {
            assert(bs[n].key@ == payment_key(ps[j]));
        } else {
            assert(has_bucket(old_bs, payment_key(ps[j])));
            let d = choose|d: int| 0 <= d < old_bs.len() && (#[trigger] old_bs[d]).key@ == payment_key(ps[j]);
            assert(bs[d] == old_bs[d]);
        }
    }
    assert forall|c: int, e: int| 0 <= c < e < bs.len() implies bs[c].key@ != bs[e].key@ by {
        assert(bs[c] == old_bs[c]);
        if e < n {
            assert(bs[e] == old_bs[e]);
        }
    }
}

proof fn lemma_grouped_done(bs: Seq<CorridorBucket>, ps: Seq<Payment>)
    requires
        grouped(bs, ps, ps.len() as int),
    ensures
        forall|b: int| 0 <= b < bs.len() ==> bucket_of(#[trigger] bs[b], ps),
        forall|b: int, c: int| 0 <= b < c < bs.len() ==> bs[b].key@ != bs[c].key@,
        forall|j: int| 0 <= j < ps.len() ==> has_bucket(bs, payment_key(#[trigger] ps[j])),
{
    reveal(grouped);
    assert(ps.subrange(0, ps.len() as int) =~= ps);
    assert forall|d: int| 0 <= d < bs.len() implies bucket_of(#[trigger] bs[d], ps) by {
        assert(bucket_upto(bs[d], ps, ps.len() as int));
    }
}

/// Groups payments into corridor buckets in one pass, in the order in which
/// each corridor is first seen. Every payment falls in exactly one bucket, and
/// no two buckets share a key.
pub fn group_payments(payments: &Vec<Payment>) -> (r: Vec<CorridorBucket>)
    ensures
        forall|b: int| 0 <= b < r@.len() ==> bucket_of(#[trigger] r@[b], payments@),
        forall|b: int, c: int| 0 <= b < c < r@.len() ==> r@[b].key@ != r@[c].key@,
        forall|j: int| 0 <= j < payments@.len() ==> has_bucket(r@, payment_key(#[trigger] payments@[j])),
{
    let ghost ps = payments@;
    let mut buckets: Vec<CorridorBucket> = Vec::new();
    proof {
        lemma_grouped_start(ps);
    }
    let mut i: usize = 0;
    while i < payments.len()
        invariant
            0 <= i <= ps.len(),
            ps == payments@,
            grouped(buckets@, ps, i as int),
        decreases ps.len() - i,
    {
        let p = &payments[i];
        let code = asset_part(&p.asset_code, "XLM");
        let issuer = asset_part(&p.asset_issuer, "native");
        let key = code.clone().concat(":").concat(issuer.as_str()).concat("->XLM:native");
        let amount: u64 = match parse_amount(&p.amount) {
            Some(v) => v,
            None => 0,
        };
        let ghost old_bs = buckets@;
        proof {
            assert(key@ == payment_key(ps[i as int]));
            assert(amount as nat == amount_or_zero(ps[i as int]));
        }
        // Look the corridor up among those already seen.
        let mut b: usize = 0;
        let mut found = false;
        while b < buckets.len() && !found
            invariant
                b <= buckets@.len(),
                found ==> b < buckets@.len() && buckets@[b as int].key@ == key@,
                !found ==> forall|c: int| 0 <= c < b ==> buckets@[c].key@ != key@,
            decreases buckets@.len() - b + if found { 0int } else { 1int },
        {
            if buckets[b].key == key {
                found = true;
            } else {
                b = b + 1;
            }
        }
        if found {
            proof {
                lemma_grouped_bounds(old_bs, ps, i as int, b as int);
                assert(i < usize::MAX);
                assert((i + 1) * 0xffff_ffff_ffff_ffffu64 <= 0xffff_ffff_ffff_ffff_ffff_ffff_ffff_ffffu128) by (nonlinear_arith)
                    requires i < 0xffff_ffff_ffff_ffffu64;
                assert(old_bs[b as int].volume + amount <= (i + 1) * 0xffff_ffff_ffff_ffffu64) by (nonlinear_arith)
                    requires old_bs[b as int].volume <= i * 0xffff_ffff_ffff_ffffu64, amount <= 0xffff_ffff_ffff_ffffu64;
            }
            let updated = CorridorBucket {
                key: buckets[b].key.clone(),
                source_code: buckets[b].source_code.clone(),
                source_issuer: buckets[b].source_issuer.clone(),
                count: buckets[b].count + 1,
                volume: buckets[b].volume + amount as u128,
            };
            buckets.set(b, updated);
            proof {
                lemma_grouped_update(old_bs, buckets@, ps, i as int, b as int);
            }
        } else {
            let nb = CorridorBucket { key, source_code: code, source_issuer: issuer, count: 1, volume: amount as u128 };
            buckets.push(nb);
            proof {
                lemma_grouped_push(old_bs, nb, ps, i as int);
            }
        }
        i = i + 1;
    }
    proof {
        lemma_grouped_done(buckets@, ps);
    }
    buckets
}

/// The corridor buckets of what the live feed returned. A failed fetch
/// (`None`) yields no corridors rather than an error.
pub fn buckets_from_feed(fetched: &Option<Vec<Payment>>) -> (r: Vec<CorridorBucket>)
    ensures
        fetched is None ==> r@.len() == 0,
        fetched matches Some(ps) ==> {
            &&& forall|b: int| 0 <= b < r@.len() ==> bucket_of(#[trigger] r@[b], ps@)
            &&& forall|b: int, c: int| 0 <= b < c < r@.len() ==> r@[b].key@ != r@[c].key@
            &&& forall|j: int| 0 <= j < ps@.len() ==> has_bucket(r@, payment_key(#[trigger] ps@[j]))
        },
{
    match fetched {
        Some(ps) => group_payments(ps),
        None => Vec::new(),
    }
}

} // verus!
