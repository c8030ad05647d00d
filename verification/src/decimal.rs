//! Exact decimal arithmetic for trade values. Prices and sizes arrive as
//! decimal strings; they are parsed into fixed-point integers in units of
//! 10^-8 dollars, so the notional value (price times size, in units of 10^-16
//! dollars) and the threshold comparison are exact integer computations.
use vstd::prelude::*;

verus! {

/// 10 to the power `e`, as a mathematical natural number.
pub open spec fn ten_pow(e: nat) -> nat
    decreases e,
{
    if e == 0 {
        1nat
    } else {
        10 * ten_pow((e - 1) as nat)
    }
}

/// An ASCII decimal digit.
pub open spec fn is_ascii_digit(c: char) -> bool {
    48 <= c as u32 <= 57
}

/// The numeric value of one digit.
pub open spec fn digit_val(c: char) -> int {
    c as u32 - 48
}

/// Every character of the string is a digit.
pub open spec fn all_digits(s: Seq<char>) -> bool {
    forall|i: int| 0 <= i < s.len() ==> is_ascii_digit(#[trigger] s[i])
}

/// The value of a digit string read most-significant first.
pub open spec fn digits_val(s: Seq<char>) -> int
    decreases s.len(),
{
    if s.len() == 0 {
        0
    } else {
        digits_val(s.drop_last()) * 10 + digit_val(s.last())
    }
}

/// The index of the first decimal point, or the length if there is none.
pub open spec fn dot_index(s: Seq<char>) -> int
    decreases s.len(),
{
    if s.len() == 0 {
        0
    } else if s[0] == '.' {
        0
    } else {
        1 + dot_index(s.drop_first())
    }
}

/// The value of a fraction-digit string in units of 10^-8: the first eight
/// digits count, deeper digits are truncated away.
pub open spec fn frac_val_e8(fp: Seq<char>) -> int {
    if fp.len() <= 8 {
        digits_val(fp) * ten_pow((8 - fp.len()) as nat)
    } else {
        digits_val(fp.take(8))
    }
}

/// The value of a decimal string in units of 10^-8: digits, optionally
/// followed by a decimal point and at least one fraction digit. Strings of any
/// other shape, and integer parts of more than ten digits (values that could
/// not arise as meaningful dollar prices or sizes), parse to nothing.
pub open spec fn spec_parse_decimal_e8(s: Seq<char>) -> Option<int> {
    let d = dot_index(s);
    let ip = s.take(d);
    if d == s.len() {
        if 1 <= ip.len() <= 10 && all_digits(ip) {
            Some(digits_val(ip) * ten_pow(8))
        } else {
            None
        }
    } else {
        let fp = s.skip(d + 1);
        if 1 <= ip.len() <= 10 && all_digits(ip) && 1 <= fp.len() && all_digits(fp) {
            Some(digits_val(ip) * ten_pow(8) + frac_val_e8(fp))
        } else {
            None
        }
    }
}

/// The notional value of a trade in units of 10^-16 dollars: price times
/// size, or nothing if either string is no decimal.
pub open spec fn spec_notional_e16(px: Seq<char>, sz: Seq<char>) -> Option<int> {
    match (spec_parse_decimal_e8(px), spec_parse_decimal_e8(sz)) {
        (Some(p), Some(s)) => Some(p * s),
        _ => None,
    }
}

/// A parseable trade whose notional value reaches the minimum threshold
/// (given in units of 10^-8 dollars).
pub open spec fn spec_meets_threshold(px: Seq<char>, sz: Seq<char>, min_e8: u64) -> bool {
    match spec_notional_e16(px, sz) {
        Some(v) => v >= min_e8 * ten_pow(8),
        None => false,
    }
}

/// The first eleven powers of ten, spelled out.
pub proof fn lemma_ten_pow_values()
    ensures
        ten_pow(0) == 1,
        ten_pow(1) == 10,
        ten_pow(2) == 100,
        ten_pow(3) == 1000,
        ten_pow(4) == 10000,
        ten_pow(5) == 100000,
        ten_pow(6) == 1000000,
        ten_pow(7) == 10000000,
        ten_pow(8) == 100000000,
        ten_pow(9) == 1000000000,
        ten_pow(10) == 10000000000,
{
    assert(ten_pow(0) == 1);
    assert(ten_pow(1) == 10 * ten_pow(0));
    assert(ten_pow(2) == 10 * ten_pow(1));
    assert(ten_pow(3) == 10 * ten_pow(2));
    assert(ten_pow(4) == 10 * ten_pow(3));
    assert(ten_pow(5) == 10 * ten_pow(4));
    assert(ten_pow(6) == 10 * ten_pow(5));
    assert(ten_pow(7) == 10 * ten_pow(6));
    assert(ten_pow(8) == 10 * ten_pow(7));
    assert(ten_pow(9) == 10 * ten_pow(8));
    assert(ten_pow(10) == 10 * ten_pow(9));
}

/// The index of the first decimal point lies in the string (or is its length),
/// carries a point, and nothing before it does.
proof fn lemma_dot_index(s: Seq<char>)
    ensures
        0 <= dot_index(s) <= s.len(),
        dot_index(s) < s.len() ==> s[dot_index(s)] == '.',
        forall|k: int| 0 <= k < dot_index(s) ==> s[k] != '.',
    decreases s.len(),
{
    if s.len() > 0 && s[0] != '.' {
        lemma_dot_index(s.drop_first());
        assert forall|k: int| 0 <= k < dot_index(s) implies s[k] != '.' by {
            if k > 0 {
                assert(s.drop_first()[k - 1] != '.');
            }
        }
    }
}

/// The position of the first decimal point of the string, or its length if
/// there is none.
fn find_dot(s: &str) -> (d: usize)
    ensures
        d == dot_index(s@),
        d <= s@.len(),
{
    let n = s.unicode_len();
    let mut i: usize = 0;
    while i < n
        invariant
            i <= n,
            n == s@.len(),
            forall|k: int| 0 <= k < i ==> s@[k] != '.',
        decreases n - i,
    {
        let c = s.get_char(i);
        if c == '.' {
            proof {
                lemma_dot_index(s@);
            }
            return i;
        }
        i = i + 1;
    }
    proof {
        lemma_dot_index(s@);
    }
    n
}

/// The value of a string of at most ten digits; nothing if the string is
/// empty, longer, or holds a non-digit.
fn parse_digits_u64(s: &str) -> (r: Option<u64>)
    ensures
        match r {
            Some(v) => {
                &&& 1 <= s@.len() <= 10
                &&& all_digits(s@)
                &&& v == digits_val(s@)
                &&& v < ten_pow(10)
            },
            None => s@.len() == 0 || s@.len() > 10 || !all_digits(s@),
        },
{
    let n = s.unicode_len();
    if n == 0 || n > 10 {
        return None;
    }
    proof {
        lemma_ten_pow_values();
    }
    let mut acc: u64 = 0;
    let mut i: usize = 0;
    while i < n
        invariant
            i <= n == s@.len(),
            n <= 10,
            all_digits(s@.take(i as int)),
            acc == digits_val(s@.take(i as int)),
            acc < ten_pow(i as nat),
            ten_pow(10) == 10000000000,
            forall|e: nat| e < 10 ==> #[trigger] ten_pow(e) <= 1000000000,
        decreases n - i,
    {
        let c = s.get_char(i);
        let u = c as u32;
        if u < 48 || u > 57 {
            proof {
                assert(!is_ascii_digit(s@[i as int]));
            }
            return None;
        }
        proof {
            assert(s@.take(i + 1).drop_last() =~= s@.take(i as int));
            assert(s@.take(i + 1).last() == s@[i as int]);
            assert(ten_pow((i + 1) as nat) == 10 * ten_pow(i as nat));
        }
        acc = acc * 10 + ((u - 48) as u64);
        i = i + 1;
    }
    proof {
        assert(s@.take(n as int) =~= s@);
    }
    Some(acc)
}

/// The value of a nonempty fraction-digit string in units of 10^-8; nothing if
/// it is empty or holds a non-digit.
fn parse_frac_e8(s: &str) -> (r: Option<u64>)
    ensures
        match r {
            Some(v) => {
                &&& 1 <= s@.len()
                &&& all_digits(s@)
                &&& v == frac_val_e8(s@)
                &&& v < ten_pow(8)
            },
            None => s@.len() == 0 || !all_digits(s@),
        },
{
    let n = s.unicode_len();
    if n == 0 {
        return None;
    }
    proof {
        lemma_ten_pow_values();
    }
    let mut i: usize = 0;
    while i < n
        invariant
            i <= n == s@.len(),
            all_digits(s@.take(i as int)),
        decreases n - i,
    {
        let c = s.get_char(i);
        let u = c as u32;
        if u < 48 || u > 57 {
            proof {
                assert(!is_ascii_digit(s@[i as int]));
            }
            return None;
        }
        proof {
            assert(forall|k: int| 0 <= k < i + 1 ==> is_ascii_digit(#[trigger] s@.take(i + 1)[k]));
        }
        i = i + 1;
    }
    proof {
        assert(s@.take(n as int) =~= s@);
    }
    let used: usize = if n < 8 {
        n
    } else {
        8
    };
    let mut acc: u64 = 0;
    i = 0;
    while i < used
        invariant
            i <= used <= 8,
            used <= n == s@.len(),
            all_digits(s@),
            acc == digits_val(s@.take(i as int)),
            acc < ten_pow(i as nat),
            forall|e: nat| e <= 8 ==> #[trigger] ten_pow(e) <= 100000000,
        decreases used - i,
    {
        let c = s.get_char(i);
        let u = c as u32;
        proof {
            assert(is_ascii_digit(s@[i as int]));
            assert(s@.take(i + 1).drop_last() =~= s@.take(i as int));
            assert(s@.take(i + 1).last() == s@[i as int]);
            assert(ten_pow((i + 1) as nat) == 10 * ten_pow(i as nat));
        }
        acc = acc * 10 + ((u - 48) as u64);
        i = i + 1;
    }
    let mut k: usize = used;
    proof {
        assert(i == used);
        assert(ten_pow((k - used) as nat) == 1);
        let dv = digits_val(s@.take(used as int));
        assert(dv * 1 == dv) by (nonlinear_arith);
    }
    while k < 8
        invariant
            used <= k <= 8,
            used <= n == s@.len(),
            acc == digits_val(s@.take(used as int)) * ten_pow((k - used) as nat),
            acc < ten_pow(k as nat),
            forall|e: nat| e <= 8 ==> #[trigger] ten_pow(e) <= 100000000,
        decreases 8 - k,
    {
        proof {
            assert(ten_pow((k + 1 - used) as nat) == 10 * ten_pow((k - used) as nat));
            assert(ten_pow((k + 1) as nat) == 10 * ten_pow(k as nat));
            let dv = digits_val(s@.take(used as int));
            let t = ten_pow((k - used) as nat) as int;
            assert(dv * (10 * t) == 10 * (dv * t)) by (nonlinear_arith);
        }
        acc = acc * 10;
        k = k + 1;
    }
    proof {
        lemma_ten_pow_values();
        if n >= 8 {
            assert(s@.take(used as int) =~= s@.take(8));
            assert(acc == digits_val(s@.take(8)) * 1);
        } else {
            assert(s@.take(used as int) =~= s@);
        }
    }
    Some(acc)
}

/// Parses a decimal string into units of 10^-8 dollars.
pub fn parse_decimal_e8(s: &str) -> (r: Option<u64>)
    ensures
        match r {
            Some(v) => spec_parse_decimal_e8(s@) == Some(v as int),
            None => spec_parse_decimal_e8(s@) is None,
        },
{
    proof {
        lemma_ten_pow_values();
    }
    let n = s.unicode_len();
    let dot = find_dot(s);
    if dot == n {
        proof {
            assert(s@.take(dot as int) =~= s@);
        }
        match parse_digits_u64(s) {
            Some(a) => Some(a * 100000000),
            None => None,
        }
    } else {
        let ip = s.substring_char(0, dot);
        let fp = s.substring_char(dot + 1, n);
        proof {
            assert(ip@ =~= s@.take(dot as int));
            assert(fp@ =~= s@.skip(dot + 1));
        }
        match (parse_digits_u64(ip), parse_frac_e8(fp)) {
            (Some(a), Some(f)) => Some(a * 100000000 + f),
            _ => None,
        }
    }
}

/// The notional value of a trade in units of 10^-16 dollars, from its price
/// and size strings.
pub fn notional_e16(px: &str, sz: &str) -> (r: Option<u128>)
    ensures
        match r {
            Some(v) => spec_notional_e16(px@, sz@) == Some(v as int),
            None => spec_notional_e16(px@, sz@) is None,
        },
{
    match (parse_decimal_e8(px), parse_decimal_e8(sz)) {
        (Some(p), Some(s)) => {
            proof {
                assert((p as int) * (s as int) <= 0xffffffffffffffff * 0xffffffffffffffff)
                    by (nonlinear_arith)
                    requires
                        0 <= p <= 0xffffffffffffffff,
                        0 <= s <= 0xffffffffffffffff,
                ;
            }
            Some((p as u128) * (s as u128))
        }
        _ => None,
    }
}

/// Whether a trade's notional value reaches the minimum threshold, given in
/// units of 10^-8 dollars. An unparseable trade never does.
pub fn meets_threshold(px: &str, sz: &str, min_e8: u64) -> (b: bool)
    ensures
        b == spec_meets_threshold(px@, sz@, min_e8),
{
    proof {
        lemma_ten_pow_values();
    }
    match notional_e16(px, sz) {
        Some(v) => v >= (min_e8 as u128) * 100000000,
        None => false,
    }
}

} // verus!
