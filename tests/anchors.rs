use anchor_metrics::anchors::{
    anchor_lookup_id, anchor_metrics, build_anchors_response, default_limit, select_counters, Anchor,
    AnchorInput, AnchorMetricsResponse, CounterSource, ListAnchorsQuery,
};
use anchor_metrics::keys::{anchor_list, render_i64};
use anchor_metrics::metrics::{percent_of, status_for_score, Status};

fn stored_anchor() -> Anchor {
    Anchor {
        id: "67e55044-10b1-426f-9247-bb680e5fe0c8".to_string(),
        name: "Test Anchor".to_string(),
        stellar_account: "GA123".to_string(),
        total_transactions: 100,
        successful_transactions: 90,
        failed_transactions: 10,
        reliability_score: 90_000,
    }
}

#[test]
fn test_cache_key_generation() {
    let key = anchor_list(50, 0);
    assert_eq!(key, "anchor:list:50:0");
}

#[test]
fn anchor_key_is_deterministic_and_signed() {
    assert_eq!(anchor_list(50, 0), anchor_list(50, 0));
    assert_eq!(anchor_list(-3, 1200), "anchor:list:-3:1200");
    assert_eq!(render_i64(i64::MIN), "-9223372036854775808");
}

#[test]
fn test_anchor_metrics_response_creation() {
    let response = AnchorMetricsResponse {
        id: "123".to_string(),
        name: "Test Anchor".to_string(),
        stellar_account: "GA123".to_string(),
        reliability_score: 95_500,
        asset_coverage: 3,
        failure_rate: 5_000,
        total_transactions: 1000,
        successful_transactions: 950,
        failed_transactions: 50,
        status: "green".to_string(),
        source: CounterSource::Live,
    };

    assert_eq!(response.name, "Test Anchor");
    assert_eq!(response.reliability_score, 95_500);
    assert_eq!(response.asset_coverage, 3);
}

#[test]
fn live_payments_replace_stored_counters() {
    let m = anchor_metrics(&stored_anchor(), 4, Some(5));
    assert_eq!(m.total_transactions, 5);
    assert_eq!(m.successful_transactions, 5);
    assert_eq!(m.failed_transactions, 0);
    assert_eq!(m.reliability_score, 100_000);
    assert_eq!(m.failure_rate, 0);
    assert_eq!(m.status, "green");
    assert_eq!(m.source, CounterSource::Live);
    assert_eq!(m.asset_coverage, 4);
    assert_eq!(m.stellar_account, "GA123");
}

#[test]
fn failed_live_fetch_falls_back_to_stored_counters() {
    let m = anchor_metrics(&stored_anchor(), 2, None);
    assert_eq!(m.total_transactions, 100);
    assert_eq!(m.successful_transactions, 90);
    assert_eq!(m.failed_transactions, 10);
    assert_eq!(m.reliability_score, 90_000);
    assert_eq!(m.failure_rate, 10_000);
    assert_eq!(m.status, "red");
    assert_eq!(m.source, CounterSource::Fallback);
}

#[test]
fn empty_live_result_falls_back_too() {
    let c = select_counters(&stored_anchor(), Some(0));
    assert_eq!(c.total, 100);
    assert_eq!(c.source, CounterSource::Fallback);
}

#[test]
fn no_transactions_keeps_stored_reliability() {
    let mut a = stored_anchor();
    a.total_transactions = 0;
    a.successful_transactions = 0;
    a.failed_transactions = 0;
    a.reliability_score = 97_000;
    let m = anchor_metrics(&a, 0, None);
    assert_eq!(m.reliability_score, 97_000);
    assert_eq!(m.failure_rate, 0);
    assert_eq!(m.status, "yellow");
}

#[test]
fn status_boundaries() {
    assert_eq!(status_for_score(99_000), Status::Green);
    assert_eq!(status_for_score(98_999), Status::Yellow);
    assert_eq!(status_for_score(95_000), Status::Yellow);
    assert_eq!(status_for_score(94_999), Status::Red);
    assert_eq!(Status::Yellow.as_string(), "yellow");
}

#[test]
fn rates_stay_within_percent_range() {
    assert_eq!(percent_of(1, 3), 33_333);
    assert_eq!(percent_of(0, 7), 0);
    assert_eq!(percent_of(7, 7), 100_000);
    assert_eq!(percent_of(u64::MAX, u64::MAX), 100_000);
}

#[test]
fn listing_keeps_order_and_counts_entries() {
    let mut second = stored_anchor();
    second.name = "Second".to_string();
    let inputs = vec![
        AnchorInput { anchor: stored_anchor(), asset_coverage: 1, live_payments: Some(3) },
        AnchorInput { anchor: second, asset_coverage: 2, live_payments: None },
    ];
    let r = build_anchors_response(&inputs);
    assert_eq!(r.total, 2);
    assert_eq!(r.anchors[0].total_transactions, 3);
    assert_eq!(r.anchors[1].name, "Second");
    assert_eq!(r.anchors[1].total_transactions, 100);
    let empty = build_anchors_response(&Vec::new());
    assert_eq!(empty.total, 0);
}

#[test]
fn anchor_ids_parse_as_uuids_or_nil() {
    assert_eq!(
        anchor_lookup_id("67e55044-10b1-426f-9247-bb680e5fe0c8"),
        0x67e5504410b1426f9247bb680e5fe0c8
    );
    assert_eq!(anchor_lookup_id("not-a-uuid"), 0);
}

#[test]
fn default_page_size() {
    assert_eq!(default_limit(), 50);
    let q = ListAnchorsQuery::first_page();
    assert_eq!(q.limit, 50);
    assert_eq!(q.offset, 0);
}
