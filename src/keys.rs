//! Deterministic cache keys for the anchor and corridor listings.
use vstd::prelude::*;

verus! {

/// The character of a decimal digit.
pub open spec fn digit_char(d: nat) -> char {
    if d == 0 { '0' }
    else if d == 1 { '1' }
    else if d == 2 { '2' }
    else if d == 3 { '3' }
    else if d == 4 { '4' }
    else if d == 5 { '5' }
    else if d == 6 { '6' }
    else if d == 7 { '7' }
    else if d == 8 { '8' }
    else { '9' }
}

/// The decimal digits of a natural number, most significant first.
pub open spec fn nat_str(n: nat) -> Seq<char>
    decreases n,
{
    if n < 10 {
        seq![digit_char(n)]
    } else {
        nat_str(n / 10).push(digit_char(n % 10))
    }
}

/// The decimal rendering of an integer, with a leading minus sign when negative.
pub open spec fn int_str(n: int) -> Seq<char> {
    if n < 0 {
        seq!['-'] + nat_str((-n) as nat)
    } else {
        nat_str(n as nat)
    }
}

fn digit_str(d: u64) -> (r: &'static str)
    requires
        d < 10,
    ensures
        r@ == seq![digit_char(d as nat)],
{
    proof {
        reveal_strlit("0");
        reveal_strlit("1");
        reveal_strlit("2");
        reveal_strlit("3");
        reveal_strlit("4");
        reveal_strlit("5");
        reveal_strlit("6");
        reveal_strlit("7");
        reveal_strlit("8");
        reveal_strlit("9");
    }
    if d == 0 { "0" }
    else if d == 1 { "1" }
    else if d == 2 { "2" }
    else if d == 3 { "3" }
    else if d == 4 { "4" }
    else if d == 5 { "5" }
    else if d == 6 { "6" }
    else if d == 7 { "7" }
    else if d == 8 { "8" }
    else { "9" }
}

/// Renders an unsigned integer in decimal.
pub fn render_u128(n: u128) -> (r: String)
    ensures
        r@ == nat_str(n as nat),
    decreases n,
{
    if n < 10 {
        String::from_str(digit_str(n as u64))
    } else {
        let mut s = render_u128(n / 10);
        s.append(digit_str((n % 10) as u64));
        s
    }
}

/// Renders a signed integer in decimal.
pub fn render_i64(n: i64) -> (r: String)
    ensures
        r@ == int_str(n as int),
{
    if n < 0 {
        let magnitude = (-(n as i128)) as u128;
        let digits = render_u128(magnitude);
        proof { reveal_strlit("-"); }
        String::from_str("-").concat(digits.as_str())
    } else {
        render_u128(n as u128)
    }
}

/// The key under which one page of the anchor listing is cached.
pub open spec fn anchor_list_key(limit: int, offset: int) -> Seq<char> {
    "anchor:list:"@ + int_str(limit) + ":"@ + int_str(offset)
}

/// The key under which one page of the corridor listing with a given filter
/// fingerprint is cached.
pub open spec fn corridor_list_key(limit: int, offset: int, filter: Seq<char>) -> Seq<char> {
    "corridor:list:"@ + int_str(limit) + ":"@ + int_str(offset) + ":"@ + filter
}

/// Builds `anchor:list:{limit}:{offset}`.
pub fn anchor_list(limit: i64, offset: i64) -> (r: String)
    ensures
        r@ == anchor_list_key(limit as int, offset as int),
{
    let l = render_i64(limit);
    let o = render_i64(offset);
    String::from_str("anchor:list:").concat(l.as_str()).concat(":").concat(o.as_str())
}

/// Builds `corridor:list:{limit}:{offset}:{filter}`.
pub fn corridor_list(limit: i64, offset: i64, filter: &str) -> (r: String)
    ensures
        r@ == corridor_list_key(limit as int, offset as int, filter@),
{
    let l = render_i64(limit);
    let o = render_i64(offset);
    String::from_str("corridor:list:").concat(l.as_str()).concat(":").concat(o.as_str()).concat(
        ":",
    ).concat(filter)
}

/// The anchor listing key depends on the page alone: two keys built for the
/// same limit and offset are the same text.
pub proof fn lemma_anchor_key_deterministic(limit: int, offset: int, first: Seq<char>, second: Seq<char>)
    requires
        first == anchor_list_key(limit, offset),
        second == anchor_list_key(limit, offset),
    ensures
        first == second,
{
}

} // verus!
