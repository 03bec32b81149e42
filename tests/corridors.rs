use anchor_metrics::amount::parse_amount;
use anchor_metrics::corridors::{buckets_from_feed, group_payments, CorridorBucket, Payment};
use anchor_metrics::detail::get_corridor_detail;
use anchor_metrics::error::ApiError;
use anchor_metrics::filter::{contains, matches_asset_code, passes_filters, ListCorridorsQuery};
use anchor_metrics::listing::{
    assemble_corridors, build_corridor, corridor_listing, generate_corridor_list_cache_key, BucketLogs,
};
use anchor_metrics::metrics::{calculate_health_score, get_liquidity_trend, synthetic_latencies, AMOUNT_SCALE};

const S: u128 = AMOUNT_SCALE as u128;

fn payment(code: Option<&str>, issuer: Option<&str>, amount: &str) -> Payment {
    Payment {
        asset_code: code.map(|c| c.to_string()),
        asset_issuer: issuer.map(|i| i.to_string()),
        amount: amount.to_string(),
    }
}

fn no_filters() -> ListCorridorsQuery {
    ListCorridorsQuery {
        limit: 50,
        offset: 0,
        success_rate_min: None,
        success_rate_max: None,
        volume_min: None,
        volume_max: None,
        asset_code: None,
        time_period: None,
    }
}

fn bucket(code: &str, issuer: &str, count: u64, volume: u128) -> CorridorBucket {
    CorridorBucket {
        key: format!("{}:{}->XLM:native", code, issuer),
        source_code: code.to_string(),
        source_issuer: issuer.to_string(),
        count,
        volume,
    }
}

const LOGS: BucketLogs = BucketLogs { ln_volume_micro: 5_017_280, ln_attempts_micro: 693_147 };

#[test]
fn test_health_score_calculation() {
    // ln(1_000_000) and ln(1000), in millionths.
    let score = calculate_health_score(95_000, 1000, 1_000_000 * S, 13_815_511, 6_907_755);
    assert!(score > 0 && score <= 100_000);
    assert_eq!(score, 89_236);
}

#[test]
fn health_score_edge_cases() {
    assert_eq!(calculate_health_score(0, 0, 0, 999_999_999, 999_999_999), 0);
    // Below one whole unit of volume the logarithm is not read.
    assert_eq!(calculate_health_score(0, 0, S - 1, 999_999_999, 0), 0);
    assert_eq!(calculate_health_score(100_000, u64::MAX, u128::MAX, u64::MAX, u64::MAX), 100_000);
    assert_eq!(calculate_health_score(100_000, 1, S, 0, 0), 60_000);
}

#[test]
fn test_liquidity_trend() {
    assert_eq!(get_liquidity_trend(15_000_000 * S), "increasing");
    assert_eq!(get_liquidity_trend(5_000_000 * S), "stable");
    assert_eq!(get_liquidity_trend(500_000 * S), "decreasing");
}

#[test]
fn liquidity_trend_boundaries() {
    assert_eq!(get_liquidity_trend(10_000_001 * S), "increasing");
    assert_eq!(get_liquidity_trend(10_000_000 * S), "stable");
    assert_eq!(get_liquidity_trend(1_000_000 * S), "decreasing");
    assert_eq!(get_liquidity_trend(1_000_001 * S), "stable");
}

#[test]
fn latency_multipliers() {
    let l = synthetic_latencies(100_000);
    assert_eq!(l.average, 600_000);
    assert_eq!(l.median, 450_000);
    assert_eq!(l.p95, 1_500_000);
    assert_eq!(l.p99, 2_400_000);
    assert_eq!(synthetic_latencies(0).average, 400_000);
}

#[test]
fn amounts_parse_to_fixed_point() {
    assert_eq!(parse_amount(&"100".to_string()), Some(1_000_000_000));
    assert_eq!(parse_amount(&"50.5".to_string()), Some(505_000_000));
    assert_eq!(parse_amount(&"0.0000001".to_string()), Some(1));
    assert_eq!(parse_amount(&"999999999999.9999999".to_string()), Some(9_999_999_999_999_999_999));
    assert_eq!(parse_amount(&"".to_string()), None);
    assert_eq!(parse_amount(&"abc".to_string()), None);
    assert_eq!(parse_amount(&".5".to_string()), None);
    assert_eq!(parse_amount(&"5.".to_string()), None);
    assert_eq!(parse_amount(&"1.12345678".to_string()), None);
    assert_eq!(parse_amount(&"1.2.3".to_string()), None);
    assert_eq!(parse_amount(&"1000000000000".to_string()), None);
}

#[test]
fn two_payments_form_one_corridor() {
    let ps = vec![
        payment(Some("USD"), Some("issuerX"), "100"),
        payment(Some("USD"), Some("issuerX"), "50.5"),
    ];
    let bs = group_payments(&ps);
    assert_eq!(bs.len(), 1);
    assert_eq!(bs[0].key, "USD:issuerX->XLM:native");
    assert_eq!(bs[0].count, 2);
    assert_eq!(bs[0].volume, 1_505_000_000);
    let cs = assemble_corridors(&bs, &vec![LOGS], &"now".to_string(), &no_filters());
    assert_eq!(cs.len(), 1);
    assert_eq!(cs[0].total_attempts, 2);
    assert_eq!(cs[0].success_rate, 100_000);
    assert_eq!(cs[0].liquidity_depth_usd, 1_505_000_000);
    assert_eq!(cs[0].liquidity_volume_24h_usd, 150_500_000);
    assert_eq!(cs[0].source_asset, "USD");
    assert_eq!(cs[0].destination_asset, "XLM");
    assert_eq!(cs[0].id, "USD:issuerX->XLM:native");
    assert_eq!(cs[0].last_updated, "now");
}

#[test]
fn grouping_keeps_first_seen_order_and_skips_bad_amounts() {
    let ps = vec![
        payment(None, None, "1"),
        payment(Some("EUR"), Some("G1"), "oops"),
        payment(None, None, "2.5"),
    ];
    let bs = group_payments(&ps);
    assert_eq!(bs.len(), 2);
    assert_eq!(bs[0].key, "XLM:native->XLM:native");
    assert_eq!(bs[0].count, 2);
    assert_eq!(bs[0].volume, 35_000_000);
    assert_eq!(bs[1].count, 1);
    assert_eq!(bs[1].volume, 0);
}

#[test]
fn failed_feed_yields_no_corridors() {
    assert_eq!(buckets_from_feed(&None).len(), 0);
    assert_eq!(buckets_from_feed(&Some(vec![payment(None, None, "1")])).len(), 1);
}

#[test]
fn keys_that_do_not_split_are_dropped() {
    let bs = vec![bucket("A:B", "C", 1, S), bucket("USD", "x->y", 1, S), bucket("USD", "x-", 1, S)];
    let logs = vec![LOGS, LOGS, LOGS];
    let cs = assemble_corridors(&bs, &logs, &"t".to_string(), &no_filters());
    assert_eq!(cs.len(), 1);
    assert_eq!(cs[0].id, "USD:x-->XLM:native");
}

#[test]
fn volume_bounds_are_inclusive() {
    let bs = vec![bucket("USD", "G", 2, 150 * S), bucket("EUR", "G", 2, 151 * S)];
    let logs = vec![LOGS, LOGS];
    let mut q = no_filters();
    q.volume_min = Some(150 * S);
    q.volume_max = Some(150 * S);
    let cs = assemble_corridors(&bs, &logs, &"t".to_string(), &q);
    assert_eq!(cs.len(), 1);
    assert_eq!(cs[0].source_asset, "USD");
    assert!(passes_filters(100_000, 150 * S, &"USD".to_string(), &"XLM".to_string(), &q));
    assert!(!passes_filters(100_000, 150 * S - 1, &"USD".to_string(), &"XLM".to_string(), &q));
}

#[test]
fn success_rate_and_asset_filters() {
    let bs = vec![bucket("USD", "G", 2, S), bucket("EURT", "G", 2, S)];
    let logs = vec![LOGS, LOGS];
    let mut q = no_filters();
    q.asset_code = Some("eur".to_string());
    let cs = assemble_corridors(&bs, &logs, &"t".to_string(), &q);
    assert_eq!(cs.len(), 1);
    assert_eq!(cs[0].source_asset, "EURT");
    q.asset_code = Some("xlm".to_string());
    assert_eq!(assemble_corridors(&bs, &logs, &"t".to_string(), &q).len(), 2);
    let mut q2 = no_filters();
    q2.success_rate_max = Some(99_999);
    assert_eq!(assemble_corridors(&bs, &logs, &"t".to_string(), &q2).len(), 0);
    q2.success_rate_max = None;
    q2.success_rate_min = Some(100_000);
    assert_eq!(assemble_corridors(&bs, &logs, &"t".to_string(), &q2).len(), 2);
}

#[test]
fn substring_search() {
    assert!(contains(&"stellar".to_string(), &"ell".to_string()));
    assert!(contains(&"abc".to_string(), &"".to_string()));
    assert!(!contains(&"abc".to_string(), &"abcd".to_string()));
    assert!(matches_asset_code(&"xl".to_string(), &"usd".to_string(), &"xlm".to_string()));
    assert!(!matches_asset_code(&"eu".to_string(), &"usd".to_string(), &"xlm".to_string()));
}

#[test]
fn corridor_scores() {
    let c = build_corridor(&bucket("USD", "G", 2, 150 * S), LOGS, &"t".to_string());
    assert_eq!(c.health_score, 60_000 + (2 * 33_448 + 2 * 6_931) / 10);
    assert_eq!(c.liquidity_trend, "decreasing");
    assert_eq!(c.average_latency_us, 600_000);
    assert_eq!(c.failed_payments, 0);
}

#[test]
fn listing_is_stamped_once() {
    let bs = vec![bucket("USD", "G", 2, S), bucket("EUR", "G", 1, S)];
    let (cs, now) = corridor_listing(&bs, &vec![LOGS, LOGS], &no_filters());
    assert_eq!(cs.len(), 2);
    assert!(!now.is_empty());
    assert_eq!(cs[0].last_updated, now);
    assert_eq!(cs[1].last_updated, now);
}

#[test]
fn corridor_key_marks_absent_and_present_filters() {
    let q = no_filters();
    let none_key = generate_corridor_list_cache_key(&q);
    assert_eq!(
        none_key,
        "corridor:list:50:0:sr_min:None_sr_max:None_vol_min:None_vol_max:None_asset:None_period:None"
    );
    let mut q2 = no_filters();
    q2.asset_code = Some(String::new());
    let empty_key = generate_corridor_list_cache_key(&q2);
    assert_eq!(
        empty_key,
        "corridor:list:50:0:sr_min:None_sr_max:None_vol_min:None_vol_max:None_asset:Some(\"\")_period:None"
    );
    assert_ne!(none_key, empty_key);
    let mut q3 = no_filters();
    q3.asset_code = Some("null".to_string());
    q3.success_rate_min = Some(95_000);
    q3.time_period = Some("24h".to_string());
    assert_eq!(
        generate_corridor_list_cache_key(&q3),
        "corridor:list:50:0:sr_min:Some(95000)_sr_max:None_vol_min:None_vol_max:None_asset:Some(\"null\")_period:Some(\"24h\")"
    );
    // Free text is not case-folded in the key.
    let mut q4 = no_filters();
    q4.asset_code = Some("NULL".to_string());
    assert_ne!(generate_corridor_list_cache_key(&q4), generate_corridor_list_cache_key(&q3));
}

#[test]
fn corridor_detail_is_not_available() {
    match get_corridor_detail(&"USD:G->XLM:native".to_string()) {
        Err(e) => {
            assert_eq!(e.status_code(), 404);
            assert_eq!(e.message(), "Corridor detail endpoint not yet implemented with RPC");
            assert!(matches!(e, ApiError::NotFound(_)));
        }
        Ok(_) => panic!("detail should not be served"),
    }
}
