//! Decimal amounts as the live source reports them (`"100"`, `"50.5"`), read
//! as whole numbers of 10^-7 units.
//!
//! An amount is one to twelve digits, optionally followed by a point and one
//! to seven digits. Any other text is not an amount.
use vstd::prelude::*;
use vstd::string::*;

verus! {

pub open spec fn is_digit(c: char) -> bool {
    '0' <= c && c <= '9'
}

pub open spec fn all_digits(s: Seq<char>) -> bool {
    forall|i: int| 0 <= i < s.len() ==> is_digit(#[trigger] s[i])
}

pub open spec fn digit_value(c: char) -> nat {
    ((c as u32) - ('0' as u32)) as nat
}

/// The number that a string of decimal digits denotes.
pub open spec fn digits_value(s: Seq<char>) -> nat
    decreases s.len(),
{
    if s.len() == 0 {
        0
    } else {
        digits_value(s.drop_last()) * 10 + digit_value(s.last())
    }
}

pub open spec fn pow10(n: nat) -> nat
    decreases n,
{
    if n == 0 { 1 } else { 10 * pow10((n - 1) as nat) }
}

/// `s` splits at `p` into an integer part and a fractional part.
pub open spec fn split_at_point(s: Seq<char>, p: int) -> bool {
    &&& 1 <= p <= 12
    &&& p < s.len()
    &&& s[p] == '.'
    &&& all_digits(s.subrange(0, p))
    &&& 1 <= s.len() - p - 1 <= 7
    &&& all_digits(s.subrange(p + 1, s.len() as int))
}

/// The amount that `s` denotes, in units of 10^-7, or `None` when `s` is not
/// an amount.
pub open spec fn amount_spec(s: Seq<char>) -> Option<nat> {
    if all_digits(s) {
        if 1 <= s.len() <= 12 {
            Some(digits_value(s) * 10_000_000)
        } else {
            None
        }
    } else if exists|p: int| split_at_point(s, p) {
        let p = choose|p: int| split_at_point(s, p);
        let frac = s.subrange(p + 1, s.len() as int);
        Some(digits_value(s.subrange(0, p)) * 10_000_000 + digits_value(frac) * pow10(
            (7 - frac.len()) as nat,
        ))
    } else {
        None
    }
}

proof fn lemma_digits_value_bound(s: Seq<char>)
    requires
        all_digits(s),
    ensures
        digits_value(s) < pow10(s.len()),
    decreases s.len(),
{
    if s.len() > 0 {
        let t = s.drop_last();
        assert(all_digits(t)) by {
            assert forall|i: int| 0 <= i < t.len() implies is_digit(#[trigger] t[i]) by {
                assert(t[i] == s[i]);
            }
        }
        lemma_digits_value_bound(t);
        assert(is_digit(s[s.len() - 1]));
        assert(digit_value(s.last()) < 10);
        assert(pow10(s.len()) == 10 * pow10(t.len()));
        assert(digits_value(t) * 10 + digit_value(s.last()) < 10 * pow10(t.len())) by (nonlinear_arith)
            requires digits_value(t) < pow10(t.len()), digit_value(s.last()) < 10;
    }
}

/// Reads the digits of `s` between `from` and `to`, which are all digits.
fn read_digits(s: &String, from: usize, to: usize) -> (r: u64)
    requires
        from <= to <= s@.len(),
        to - from <= 12,
        all_digits(s@.subrange(from as int, to as int)),
    ensures
        r == digits_value(s@.subrange(from as int, to as int)),
{
    let mut v: u64 = 0;
    let mut i: usize = from;
    while i < to
        invariant
            from <= i <= to <= s@.len(),
            to - from <= 12,
            all_digits(s@.subrange(from as int, to as int)),
            v == digits_value(s@.subrange(from as int, i as int)),
        decreases to - i,
    {
        let c = s.get_char(i);
        proof {
            let whole = s@.subrange(from as int, to as int);
            let sub = s@.subrange(from as int, i as int);
            let next = s@.subrange(from as int, i + 1);
            assert(whole[i - from] == c);
            assert(next.drop_last() =~= sub);
            assert(next.last() == c);
            assert(all_digits(sub)) by {
                assert forall|k: int| 0 <= k < sub.len() implies is_digit(#[trigger] sub[k]) by {
                    assert(sub[k] == whole[k]);
                }
            }
            assert(all_digits(next)) by {
                assert forall|k: int| 0 <= k < next.len() implies is_digit(#[trigger] next[k]) by {
                    assert(next[k] == whole[k]);
                }
            }
            lemma_digits_value_bound(next);
            lemma_pow10_12(next.len());
        }
        v = v * 10 + ((c as u32) - ('0' as u32)) as u64;
        i = i + 1;
    }
    v
}

proof fn lemma_pow10_12(n: nat)
    requires
        n <= 12,
    ensures
        pow10(n) <= 1_000_000_000_000,
    decreases n,
{
    if n > 0 {
        lemma_pow10_12((n - 1) as nat);
        if n < 12 {
            lemma_pow10_monotone((n - 1) as nat);
        }
    }
    reveal_with_fuel(pow10, 13);
}

proof fn lemma_pow10_monotone(n: nat)
    requires
        n < 12,
    ensures
        pow10(n) * 10 <= 1_000_000_000_000,
    decreases n,
{
    reveal_with_fuel(pow10, 13);
}

fn char_is_digit(c: char) -> (r: bool)
    ensures
        r == is_digit(c),
{
    '0' <= c && c <= '9'
}

/// Parses an amount into units of 10^-7.
pub fn parse_amount(s: &String) -> (r: Option<u64>)
    ensures
        r matches Some(v) ==> amount_spec(s@) == Some(v as nat),
        r is None ==> amount_spec(s@) is None,
{
    let n = s.unicode_len();
    let mut i: usize = 0;
    while i < n && char_is_digit(s.get_char(i))
        invariant
            n == s@.len(),
            i <= n,
            all_digits(s@.subrange(0, i as int)),
        decreases n - i,
    {
        proof {
            assert forall|k: int| 0 <= k < i + 1 implies is_digit(#[trigger] s@.subrange(0, i + 1)[k]) by {
                if k < i {
                    assert(s@.subrange(0, i + 1)[k] == s@.subrange(0, i as int)[k]);
                }
            }
        }
        i = i + 1;
    }
    // i is the first position that holds no digit, or the end.
    if i == n {
        assert(s@.subrange(0, n as int) =~= s@);
        if 1 <= n && n <= 12 {
            let whole = read_digits(s, 0, n);
            proof {
                lemma_digits_value_bound(s@);
                lemma_pow10_12(n as nat);
            }
            return Some(whole * 10_000_000);
        } else {
            return None;
        }
    }
    let c = s.get_char(i);
    proof {
        assert(!all_digits(s@)) by {
            assert(!is_digit(s@[i as int]));
        }
        assert forall|q: int| split_at_point(s@, q) implies q == i by {
            if q < i {
                assert(s@.subrange(0, i as int)[q] == s@[q]);
            } else if q > i {
                assert(s@.subrange(0, q)[i as int] == s@[i as int]);
            }
        }
    }
    if c == '.' && 1 <= i && i <= 12 && n - i - 1 >= 1 && n - i - 1 <= 7 {
        let mut j: usize = i + 1;
        while j < n
            invariant
                n == s@.len(),
                i < j <= n,
                all_digits(s@.subrange(i + 1, j as int)),
                !all_digits(s@),
                forall|q: int| split_at_point(s@, q) ==> q == i,
            decreases n - j,
        {
            let d = s.get_char(j);
            if !('0' <= d && d <= '9') {
                proof {
                    assert(!split_at_point(s@, i as int)) by {
                        assert(s@.subrange(i + 1, n as int)[j - i - 1] == d);
                    }
                    assert(!(exists|q: int| split_at_point(s@, q)));
                }
                return None;
            }
            proof {
                assert forall|k: int| 0 <= k < j + 1 - (i + 1) implies is_digit(#[trigger] s@.subrange(i + 1, j + 1)[k]) by {
                    if k < j - (i + 1) {
                        assert(s@.subrange(i + 1, j + 1)[k] == s@.subrange(i + 1, j as int)[k]);
                    }
                }
            }
            j = j + 1;
        }
        let int_part = read_digits(s, 0, i);
        let frac_part = read_digits(s, i + 1, n);
        let frac_len = n - i - 1;
        let mut scale: u64 = 1;
        let mut k: usize = frac_len;
        while k < 7
            invariant
                1 <= frac_len <= k <= 7,
                scale as nat == pow10((k - frac_len) as nat),
                scale <= 1_000_000,
            decreases 7 - k,
        {
            proof {
                reveal_with_fuel(pow10, 8);
                assert(pow10((k + 1 - frac_len) as nat) == 10 * pow10((k - frac_len) as nat));
                lemma_pow10_small((k - frac_len) as nat);
            }
            scale = scale * 10;
            k = k + 1;
        }
        proof {
            assert(split_at_point(s@, i as int));
            let frac = s@.subrange(i + 1, n as int);
            lemma_digits_value_bound(s@.subrange(0, i as int));
            lemma_digits_value_bound(frac);
            lemma_pow10_12(i as nat);
            lemma_pow10_split(frac_len as nat);
            assert(frac_part * scale < 10_000_000) by (nonlinear_arith)
                requires frac_part < pow10(frac_len as nat), scale == pow10((7 - frac_len) as nat),
                    pow10(frac_len as nat) * pow10((7 - frac_len) as nat) == 10_000_000;
        }
        Some(int_part * 10_000_000 + frac_part * scale)
    } else {
        proof {
            assert(!(exists|q: int| split_at_point(s@, q)));
        }
        None
    }
}

proof fn lemma_pow10_split(f: nat)
    requires
        1 <= f <= 7,
    ensures
        pow10(f) * pow10((7 - f) as nat) == 10_000_000,
{
    reveal_with_fuel(pow10, 8);
    assert(pow10(0) == 1);
    assert(pow10(1) == 10);
    assert(pow10(2) == 100);
    assert(pow10(3) == 1000);
    assert(pow10(4) == 10000);
    assert(pow10(5) == 100000);
    assert(pow10(6) == 1000000);
    assert(pow10(7) == 10000000);
    if f == 1 {
        assert(pow10((7 - f) as nat) == pow10(6));
    } else if f == 2 {
        assert(pow10((7 - f) as nat) == pow10(5));
    } else if f == 3 {
        assert(pow10((7 - f) as nat) == pow10(4));
    } else if f == 4 {
        assert(pow10((7 - f) as nat) == pow10(3));
    } else if f == 5 {
        assert(pow10((7 - f) as nat) == pow10(2));
    } else if f == 6 {
        assert(pow10((7 - f) as nat) == pow10(1));
    } else {
        assert(pow10((7 - f) as nat) == pow10(0));
    }
}

proof fn lemma_pow10_small(n: nat)
    requires
        n <= 5,
    ensures
        pow10(n) <= 100_000,
{
    reveal_with_fuel(pow10, 7);
    if n == 0 {
    } else if n == 1 {
    } else if n == 2 {
    } else if n == 3 {
    } else if n == 4 {
    } else {
        assert(n == 5);
    }
}

} // verus!
