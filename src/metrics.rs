//! Derived metrics: reliability and failure rates, traffic-light status,
//! corridor health score, liquidity trend and the synthetic latency figures.
//!
//! Percentages are fixed-point in thousandths of a percent (100% is
//! `FULL_PERCENT`), amounts in units of 10^-7 (one unit is `AMOUNT_SCALE`),
//! latencies in microseconds and natural logarithms in millionths.
use vstd::prelude::*;

verus! {

/// One hundred percent, in thousandths of a percent.
pub const FULL_PERCENT: u64 = 100_000;

/// One whole currency unit, in the smallest amount unit (10^-7).
pub const AMOUNT_SCALE: u64 = 10_000_000;

/// `part / total` as a percentage in thousandths of a percent, rounded down.
pub open spec fn rate_spec(part: nat, total: nat) -> nat
    recommends
        total > 0,
{
    (100_000 * part) / total
}

/// `part / total` as a percentage in thousandths of a percent, rounded down.
pub fn percent_of(part: u64, total: u64) -> (r: u128)
    requires
        total > 0,
    ensures
        r == rate_spec(part as nat, total as nat),
        part <= total ==> r <= FULL_PERCENT,
{
    let num: u128 = 100_000u128 * (part as u128);
    let r = num / (total as u128);
    proof {
        if part <= total {
            assert(100_000 * (part as int) <= 100_000 * (total as int)) by (nonlinear_arith)
                requires part <= total;
            assert((100_000 * (total as int)) / (total as int) == 100_000) by (nonlinear_arith)
                requires total > 0;
            assert((100_000 * (part as int)) / (total as int) <= (100_000 * (total as int)) / (total as int))
                by (nonlinear_arith)
                requires 100_000 * (part as int) <= 100_000 * (total as int), total > 0;
        }
    }
    r
}

/// Traffic-light classification of a reliability score.
#[derive(PartialEq, Eq, Structural, Clone, Copy, Debug)]
pub enum Status {
    Green,
    Yellow,
    Red,
}

/// `green` from 99%, `yellow` from 95% up to 99%, `red` below.
pub open spec fn status_spec(score: int) -> Status {
    if score >= 99_000 {
        Status::Green
    } else if score >= 95_000 {
        Status::Yellow
    } else {
        Status::Red
    }
}

impl Status {
    /// The lower-case name of the status.
    pub open spec fn name_spec(self) -> Seq<char> {
        match self {
            Status::Green => "green"@,
            Status::Yellow => "yellow"@,
            Status::Red => "red"@,
        }
    }

    /// The lower-case name of the status.
    pub fn as_string(&self) -> (r: String)
        ensures
            r@ == self.name_spec(),
    {
        match self {
            Status::Green => String::from_str("green"),
            Status::Yellow => String::from_str("yellow"),
            Status::Red => String::from_str("red"),
        }
    }
}

/// Classifies a reliability score given in thousandths of a percent.
pub fn status_for_score(score: u128) -> (r: Status)
    ensures
        r == status_spec(score as int),
{
    if score >= 99_000 {
        Status::Green
    } else if score >= 95_000 {
        Status::Yellow
    } else {
        Status::Red
    }
}

/// The volume component of the health score, in thousandths: zero below one
/// whole unit, else `100 * ln(volume) / 15` capped at 100.
pub open spec fn volume_score_spec(volume: nat, ln_volume_micro: nat) -> nat {
    if volume < AMOUNT_SCALE {
        0
    } else {
        let s = ln_volume_micro / 150;
        if s > 100_000 { 100_000 } else { s }
    }
}

/// The transaction-count component of the health score, in thousandths: zero
/// for no attempts, else `100 * ln(attempts) / 10` capped at 100.
pub open spec fn transaction_score_spec(attempts: nat, ln_attempts_micro: nat) -> nat {
    if attempts == 0 {
        0
    } else {
        let s = ln_attempts_micro / 100;
        if s > 100_000 { 100_000 } else { s }
    }
}

/// `0.6 * success_rate + 0.2 * volume_score + 0.2 * transaction_score`, in
/// thousandths, rounded down.
pub open spec fn health_spec(
    success_rate: nat,
    attempts: nat,
    volume: nat,
    ln_volume_micro: nat,
    ln_attempts_micro: nat,
) -> nat {
    (6 * success_rate + 2 * volume_score_spec(volume, ln_volume_micro) + 2
        * transaction_score_spec(attempts, ln_attempts_micro)) / 10
}

/// Weighted health score of a corridor, in thousandths of a point out of 100.
///
/// `success_rate` is in thousandths of a percent, `volume_usd` in units of
/// 10^-7. `ln_volume_micro` and `ln_attempts_micro` are the natural logarithms
/// of the volume (in whole units) and of the attempt count, in millionths;
/// each is read only when its own guard (a volume of at least one unit, at
/// least one attempt) admits a logarithm that is not negative.
pub fn calculate_health_score(
    success_rate: u64,
    total_transactions: u64,
    volume_usd: u128,
    ln_volume_micro: u64,
    ln_attempts_micro: u64,
) -> (r: u64)
    requires
        success_rate <= FULL_PERCENT,
    ensures
        r == health_spec(
            success_rate as nat,
            total_transactions as nat,
            volume_usd as nat,
            ln_volume_micro as nat,
            ln_attempts_micro as nat,
        ),
        r <= FULL_PERCENT,
{
    let volume_score: u64 = if volume_usd < AMOUNT_SCALE as u128 {
        0
    } else {
        let s = ln_volume_micro / 150;
        if s > 100_000 { 100_000 } else { s }
    };
    let transaction_score: u64 = if total_transactions == 0 {
        0
    } else {
        let s = ln_attempts_micro / 100;
        if s > 100_000 { 100_000 } else { s }
    };
    (6 * success_rate + 2 * volume_score + 2 * transaction_score) / 10
}

/// Direction of liquidity for a corridor.
pub open spec fn trend_spec(volume: nat) -> Seq<char> {
    if volume > 10_000_000 * AMOUNT_SCALE {
        "increasing"@
    } else if volume > 1_000_000 * AMOUNT_SCALE {
        "stable"@
    } else {
        "decreasing"@
    }
}

/// `increasing` above ten million units of volume, `stable` above one million,
/// `decreasing` otherwise; `volume_usd` is in units of 10^-7.
pub fn get_liquidity_trend(volume_usd: u128) -> (r: String)
    ensures
        r@ == trend_spec(volume_usd as nat),
{
    if volume_usd > 10_000_000u128 * (AMOUNT_SCALE as u128) {
        String::from_str("increasing")
    } else if volume_usd > 1_000_000u128 * (AMOUNT_SCALE as u128) {
        String::from_str("stable")
    } else {
        String::from_str("decreasing")
    }
}

/// The synthetic latency figures of a corridor, in microseconds.
#[derive(PartialEq, Eq, Structural, Clone, Copy, Debug)]
pub struct Latencies {
    pub average: u64,
    pub median: u64,
    pub p95: u64,
    pub p99: u64,
}

/// Average `400 ms + 2 ms` per percentage point of success; median three
/// quarters, p95 two and a half times and p99 four times the average.
pub open spec fn latencies_spec(success_rate: nat) -> Latencies {
    let avg = 400_000 + 2 * success_rate;
    Latencies { average: avg as u64, median: (avg * 3 / 4) as u64, p95: (avg * 5 / 2) as u64, p99: (avg * 4) as u64 }
}

/// Synthetic latency figures for a success rate given in thousandths of a
/// percent.
pub fn synthetic_latencies(success_rate: u64) -> (r: Latencies)
    requires
        success_rate <= FULL_PERCENT,
    ensures
        r == latencies_spec(success_rate as nat),
{
    let avg = 400_000 + 2 * success_rate;
    Latencies { average: avg, median: avg * 3 / 4, p95: avg * 5 / 2, p99: avg * 4 }
}

} // verus!
