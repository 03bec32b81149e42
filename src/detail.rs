//! The corridor detail view, which the live source cannot serve yet.
use vstd::prelude::*;
use crate::error::ApiError;
use crate::listing::CorridorResponse;

verus! {

/// Success rate (thousandths of a percent) over one time slot.
pub struct SuccessRateDataPoint {
    pub timestamp: String,
    pub success_rate: u64,
    pub attempts: i64,
}

/// Share (thousandths of a percent) of payments in one latency bucket.
pub struct LatencyDataPoint {
    pub latency_bucket_ms: i32,
    pub count: i64,
    pub percentage: u64,
}

/// Liquidity and 24-hour volume (units of 10^-7) at one time.
pub struct LiquidityDataPoint {
    pub timestamp: String,
    pub liquidity_usd: u128,
    pub volume_24h_usd: u128,
}

/// A corridor with its history.
pub struct CorridorDetailResponse {
    pub corridor: CorridorResponse,
    pub historical_success_rate: Vec<SuccessRateDataPoint>,
    pub latency_distribution: Vec<LatencyDataPoint>,
    pub liquidity_trends: Vec<LiquidityDataPoint>,
    pub related_corridors: Option<Vec<CorridorResponse>>,
}

pub open spec fn detail_unavailable_message() -> Seq<char> {
    "Corridor detail endpoint not yet implemented with RPC"@
}

/// The detail of a corridor: always "not found", as no live source for it is
/// wired in yet.
pub fn get_corridor_detail(corridor_key: &String) -> (r: Result<CorridorDetailResponse, ApiError>)
    ensures
        r matches Err(e) && e.status_spec() == 404 && e.message_spec() == detail_unavailable_message(),
{
    Err(ApiError::NotFound(String::from_str("Corridor detail endpoint not yet implemented with RPC")))
}

} // verus!
