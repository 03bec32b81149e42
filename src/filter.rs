//! The corridor listing query and the filter engine that applies it.
use vstd::prelude::*;
use vstd::string::*;

verus! {

/// Query of the corridor listing. Success rates are in thousandths of a
/// percent, volumes in units of 10^-7; every filter is optional.
pub struct ListCorridorsQuery {
    pub limit: i64,
    pub offset: i64,
    pub success_rate_min: Option<u64>,
    pub success_rate_max: Option<u64>,
    pub volume_min: Option<u128>,
    pub volume_max: Option<u128>,
    pub asset_code: Option<String>,
    pub time_period: Option<String>,
}

/// Relies on str::to_lowercase: the lower-case form of a text, which depends
/// on the text alone.
pub uninterp spec fn lower_of(s: Seq<char>) -> Seq<char>;

/// Relies on str::to_lowercase.
#[verifier::external_body]
fn lowercase(s: &str) -> (r: String)
    ensures
        r@ == lower_of(s@),
{
    s.to_lowercase()
}

/// `needle` occurs in `hay` as a contiguous run.
pub open spec fn contains_spec(hay: Seq<char>, needle: Seq<char>) -> bool {
    exists|i: int| 0 <= i <= hay.len() - needle.len() && #[trigger] hay.subrange(i, i + needle.len()) == needle
}

/// Whether `needle` occurs in `hay`.
pub fn contains(hay: &String, needle: &String) -> (r: bool)
    ensures
        r == contains_spec(hay@, needle@),
{
    let h = hay.unicode_len();
    let n = needle.unicode_len();
    if n > h {
        return false;
    }
    if n == 0 {
        assert(hay@.subrange(0int, 0int + needle@.len()) =~= needle@);
        return true;
    }
    let mut i: usize = 0;
    while i <= h - n
        invariant
            h == hay@.len(),
            n == needle@.len(),
            1 <= n <= h,
            i <= h - n + 1,
            forall|j: int| 0 <= j < i ==> #[trigger] hay@.subrange(j, j + n) != needle@,
        decreases h - n + 1 - i,
    {
        let piece = String::from_str(hay.substring_char(i, i + n));
        if piece.eq(needle) {
            return true;
        }
        i = i + 1;
    }
    false
}

/// Case-insensitive match of an asset code filter, given the lower-case forms
/// of the filter and of the corridor's two asset codes.
pub fn matches_asset_code(code_lower: &String, source_lower: &String, destination_lower: &String) -> (r: bool)
    ensures
        r == (contains_spec(source_lower@, code_lower@) || contains_spec(destination_lower@, code_lower@)),
{
    contains(source_lower, code_lower) || contains(destination_lower, code_lower)
}

/// A corridor with these figures passes every filter that the query sets;
/// the bounds are inclusive and an absent filter admits everything.
pub open spec fn passes_spec(
    success_rate: nat,
    volume: nat,
    source: Seq<char>,
    destination: Seq<char>,
    q: ListCorridorsQuery,
) -> bool {
    &&& (q.success_rate_min matches Some(m) ==> success_rate >= m)
    &&& (q.success_rate_max matches Some(m) ==> success_rate <= m)
    &&& (q.volume_min matches Some(m) ==> volume >= m)
    &&& (q.volume_max matches Some(m) ==> volume <= m)
    &&& (q.asset_code matches Some(a) ==> contains_spec(lower_of(source), lower_of(a@)) || contains_spec(
        lower_of(destination),
        lower_of(a@),
    ))
}

/// Applies the query's filters to a corridor's success rate, volume and asset
/// codes.
pub fn passes_filters(
    success_rate: u64,
    volume: u128,
    source: &String,
    destination: &String,
    q: &ListCorridorsQuery,
) -> (r: bool)
    ensures
        r == passes_spec(success_rate as nat, volume as nat, source@, destination@, *q),
{
    if let Some(m) = q.success_rate_min {
        if success_rate < m {
            return false;
        }
    }
    if let Some(m) = q.success_rate_max {
        if success_rate > m {
            return false;
        }
    }
    if let Some(m) = q.volume_min {
        if volume < m {
            return false;
        }
    }
    if let Some(m) = q.volume_max {
        if volume > m {
            return false;
        }
    }
    match &q.asset_code {
        Some(a) => {
            let a_lower = lowercase(a.as_str());
            let s_lower = lowercase(source.as_str());
            let d_lower = lowercase(destination.as_str());
            matches_asset_code(&a_lower, &s_lower, &d_lower)
        },
        None => true,
    }
}

/// The volume bounds are inclusive: a corridor whose volume equals the lower
/// or the upper bound is not filtered out by it.
pub proof fn lemma_volume_bounds_inclusive(
    success_rate: nat,
    volume: nat,
    source: Seq<char>,
    destination: Seq<char>,
    q: ListCorridorsQuery,
)
    requires
        q.volume_min matches Some(m) ==> m == volume,
        q.volume_max matches Some(m) ==> m == volume,
        q.success_rate_min is None,
        q.success_rate_max is None,
        q.asset_code is None,
    ensures
        passes_spec(success_rate, volume, source, destination, q),
{
}

} // verus!
