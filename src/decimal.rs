//! Non-negative decimal numbers read exactly, in units of 10^-8.

use vstd::prelude::*;
use vstd::string::StringSliceAdditionalSpecFns;

verus! {

/// Units in one whole: prices are held as integers of 10^-8.
pub const SCALE: u64 = 100_000_000;

/// The most fractional digits a number may have.
pub const MAX_FRACTION_DIGITS: usize = 8;

pub open spec fn is_digit(b: u8) -> bool {
    48 <= b <= 57
}

pub open spec fn all_digits(b: Seq<u8>) -> bool {
    forall|i: int| 0 <= i < b.len() ==> is_digit(#[trigger] b[i])
}

/// The number that a string of decimal digits denotes.
pub open spec fn digits_value(b: Seq<u8>) -> nat
    decreases b.len(),
{
    if b.len() == 0 {
        0
    } else {
        digits_value(b.drop_last()) * 10 + (b.last() - 48) as nat
    }
}

pub open spec fn pow10(n: nat) -> nat
    decreases n,
{
    if n == 0 {
        1
    } else {
        10 * pow10((n - 1) as nat)
    }
}

/// Whether `p` splits `b` into an integer part and a fraction of one to
/// eight digits around a point.
pub open spec fn point_at(b: Seq<u8>, p: int) -> bool {
    &&& 0 < p < b.len() - 1
    &&& b[p] == 46
    &&& all_digits(b.take(p))
    &&& all_digits(b.skip(p + 1))
    &&& b.len() - p - 1 <= 8
}

/// The value, in units of 10^-8, of `digits` or `digits.fraction` with one to
/// eight fractional digits; `None` for any other text.
pub open spec fn decimal_units(b: Seq<u8>) -> Option<nat> {
    if b.len() > 0 && all_digits(b) {
        Some(digits_value(b) * pow10(8))
    } else if exists|p: int| point_at(b, p) {
        let p = choose|p: int| point_at(b, p);
        Some(digits_value(b.take(p)) * pow10(8) + digits_value(b.skip(p + 1)) * pow10((8 - (b.len() - p - 1)) as nat))
    } else {
        None
    }
}

/// `decimal_units`, where it fits in 64 bits.
pub open spec fn parsed_units(b: Seq<u8>) -> Option<u64> {
    match decimal_units(b) {
        Some(v) => if v <= u64::MAX {
            Some(v as u64)
        } else {
            None
        },
        None => None,
    }
}

proof fn lemma_prefix_le(s: Seq<u8>, k: int)
    requires
        all_digits(s),
        0 <= k <= s.len(),
    ensures
        digits_value(s.take(k)) <= digits_value(s),
    decreases s.len(),
{
    if k < s.len() {
        assert(s.drop_last().take(k) =~= s.take(k));
        assert(all_digits(s.drop_last())) by {
            assert forall|i: int| 0 <= i < s.drop_last().len() implies is_digit(#[trigger] s.drop_last()[i]) by {
                assert(s.drop_last()[i] == s[i]);
            }
        }
        lemma_prefix_le(s.drop_last(), k);
    } else {
        assert(s.take(k) =~= s);
    }
}

/// The value of the digits `b[start..end]`, when they are all digits and it
/// fits in 64 bits.
fn parse_digits(b: &[u8], start: usize, end: usize) -> (r: Option<u64>)
    requires
        start <= end <= b@.len(),
    ensures
        ({
            let s = b@.subrange(start as int, end as int);
            r == if all_digits(s) && digits_value(s) <= u64::MAX {
                Some(digits_value(s) as u64)
            } else {
                None
            }
        }),
{
    let ghost s = b@.subrange(start as int, end as int);
    let mut acc: u64 = 0;
    let mut i: usize = start;
    while i < end
        invariant
            start <= i <= end <= b@.len(),
            s == b@.subrange(start as int, end as int),
            all_digits(s.take(i - start)),
            acc as nat == digits_value(s.take(i - start)),
        decreases end - i,
    {
        let c = b[i];
        assert(s[i - start] == c);
        if c < 48 || c > 57 {
            assert(!all_digits(s));
            return None;
        }
        let ghost next = s.take(i - start + 1);
        assert(next.drop_last() =~= s.take(i - start));
        assert(next.last() == c);
        assert(digits_value(next) == acc * 10 + (c - 48) as nat);
        if acc > 1844674407370955161 || (acc == 1844674407370955161 && c > 53) {
            proof {
                if all_digits(s) {
                    lemma_prefix_le(s, i - start + 1);
                }
            }
            return None;
        }
        acc = acc * 10 + (c - 48) as u64;
        i = i + 1;
        assert(all_digits(s.take(i - start))) by {
            assert forall|j: int| 0 <= j < s.take(i - start).len() implies is_digit(#[trigger] s.take(i - start)[j]) by {
                if j < i - 1 - start {
                    assert(s.take(i - start)[j] == s.take(i - 1 - start)[j]);
                }
            }
        }
    }
    assert(s.take(i - start) =~= s);
    Some(acc)
}

proof fn lemma_digits_bound(s: Seq<u8>)
    requires
        all_digits(s),
    ensures
        digits_value(s) < pow10(s.len()),
    decreases s.len(),
{
    if s.len() > 0 {
        assert(all_digits(s.drop_last())) by {
            assert forall|i: int| 0 <= i < s.drop_last().len() implies is_digit(#[trigger] s.drop_last()[i]) by {
                assert(s.drop_last()[i] == s[i]);
            }
        }
        lemma_digits_bound(s.drop_last());
        assert(is_digit(s[s.len() - 1]));
        let a = digits_value(s.drop_last());
        let m = pow10(s.drop_last().len());
        assert(a * 10 + 9 < m * 10) by (nonlinear_arith)
            requires a < m;
    }
}

proof fn lemma_pow10_add(a: nat, b: nat)
    ensures
        pow10(a) * pow10(b) == pow10(a + b),
    decreases a,
{
    if a > 0 {
        lemma_pow10_add((a - 1) as nat, b);
        assert(pow10(a) * pow10(b) == 10 * (pow10((a - 1) as nat) * pow10(b))) by (nonlinear_arith)
            requires pow10(a) == 10 * pow10((a - 1) as nat);
        assert((a + b - 1) as nat == ((a - 1) as nat + b));
        assert(pow10(a + b) == 10 * pow10((a + b - 1) as nat));
        assert(pow10((a - 1) as nat) * pow10(b) == pow10((a + b - 1) as nat));
    } else {
        assert(pow10(0) == 1);
        assert(1 * pow10(b) == pow10(b));
    }
}

proof fn lemma_pow10_pos(n: nat)
    ensures
        pow10(n) >= 1,
    decreases n,
{
    if n > 0 {
        lemma_pow10_pos((n - 1) as nat);
    }
}

proof fn lemma_pow10_8()
    ensures
        pow10(8) == 100_000_000,
{
    reveal_with_fuel(pow10, 9);
}

/// The power of ten that scales a fraction of `n` digits to units.
fn fraction_scale(n: usize) -> (r: u64)
    requires
        1 <= n <= 8,
    ensures
        r as nat == pow10((8 - n) as nat),
{
    reveal_with_fuel(pow10, 9);
    if n == 1 {
        10_000_000
    } else if n == 2 {
        1_000_000
    } else if n == 3 {
        100_000
    } else if n == 4 {
        10_000
    } else if n == 5 {
        1_000
    } else if n == 6 {
        100
    } else if n == 7 {
        10
    } else {
        1
    }
}

/// Reads a non-negative decimal such as `"100.5"` in units of 10^-8; `None`
/// when the text is not one, has more than eight fractional digits, or the
/// value does not fit in 64 bits.
pub fn parse_units(text: &str) -> (r: Option<u64>)
    ensures
        r == parsed_units(text.spec_bytes()),
{
    let b = text.as_bytes();
    let n = b.len();
    let ghost bs = b@;
    proof { lemma_pow10_8(); }
    let mut p: usize = 0;
    while p < n && b[p] != 46u8
        invariant
            p <= n == bs.len(),
            bs == b@,
            forall|j: int| 0 <= j < p ==> bs[j] != 46,
        decreases n - p,
    {
        p = p + 1;
    }
    if p == n {
        // no point: an integer
        assert(bs.subrange(0, n as int) =~= bs);
        assert(!exists|q: int| point_at(bs, q));
        if n == 0 {
            return None;
        }
        match parse_digits(b, 0, n) {
            None => None,
            Some(v) => {
                if v > 184467440737 {
                    None
                } else {
                    Some(v * SCALE)
                }
            },
        }
    } else {
        assert(bs[p as int] == 46);
        assert(!all_digits(bs));
        if p == 0 || n - p - 1 == 0 || n - p - 1 > MAX_FRACTION_DIGITS {
            assert(!exists|q: int| point_at(bs, q)) by {
                if exists|q: int| point_at(bs, q) {
                    let q = choose|q: int| point_at(bs, q);
                    if q > p {
                        assert(bs.take(q)[p as int] == 46);
                    }
                }
            }
            return None;
        }
        let ip = parse_digits(b, 0, p);
        let fp = parse_digits(b, p + 1, n);
        assert(bs.subrange(0, p as int) =~= bs.take(p as int));
        assert(bs.subrange(p + 1, n as int) =~= bs.skip(p + 1));
        match (ip, fp) {
            (Some(i), Some(f)) => {
                assert(point_at(bs, p as int));
                assert forall|q: int| point_at(bs, q) implies q == p by {
                    if q > p {
                        assert(bs.take(q)[p as int] == 46);
                    }
                    if q < p {
                        assert(bs[q] != 46);
                    }
                }
                let scale = fraction_scale(n - p - 1);
                if i > 184467440737 {
                    return None;
                }
                let whole = i * SCALE;
                proof {
                    let k = (n - p - 1) as nat;
                    lemma_digits_bound(bs.skip(p + 1));
                    lemma_pow10_add(k, (8 - k) as nat);
                    lemma_pow10_pos((8 - k) as nat);
                    assert(k + (8 - k) as nat == 8);
                    let a = pow10(k);
                    let c = pow10((8 - k) as nat);
                    assert(f * scale < 100_000_000) by (nonlinear_arith)
                        requires f < a, scale == c, a * c == 100_000_000, c > 0;
                }
                let part = f * scale;
                if whole > u64::MAX - part {
                    None
                } else {
                    Some(whole + part)
                }
            },
            _ => {
                proof {
                    if exists|q: int| point_at(bs, q) {
                        let q = choose|q: int| point_at(bs, q);
                        if q > p {
                            assert(bs.take(q)[p as int] == 46);
                        }
                        if q < p {
                            assert(bs[q] != 46);
                        }
                        assert(q == p);
                        let k = (n - p - 1) as nat;
                        lemma_digits_bound(bs.skip(p + 1));
                        lemma_pow10_add(k, (8 - k) as nat);
                        lemma_pow10_pos((8 - k) as nat);
                        assert(k + (8 - k) as nat == 8);
                        assert(pow10(k) <= 100_000_000) by (nonlinear_arith)
                            requires pow10(k) * pow10((8 - k) as nat) == 100_000_000, pow10((8 - k) as nat) >= 1;
                        let x = digits_value(bs.take(p as int));
                        let y = digits_value(bs.skip(p + 1)) * pow10((8 - k) as nat);
                        assert(x * 100_000_000 + y >= x) by (nonlinear_arith);
                    }
                }
                None
            },
        }
    }
}

} // verus!

verus! {

/// A non-negative decimal as written and as read.
pub struct Decimal {
    text: String,
    units: u64,
}

impl Decimal {
    pub closed spec fn text_view(&self) -> Seq<char> {
        self.text@
    }

    pub closed spec fn units_view(&self) -> u64 {
        self.units
    }

    /// The text reads as the units.
    pub open spec fn wf(&self) -> bool {
        parsed_units(vstd::utf8::encode_utf8(self.text_view())) == Some(self.units_view())
    }

    /// Reads a decimal; `None` exactly where `parse_units` gives none.
    pub fn parse(text: &str) -> (r: Option<Decimal>)
        ensures
            match parsed_units(text.spec_bytes()) {
                Some(u) => r matches Some(d) && d.wf() && d.text_view() == text@ && d.units_view() == u,
                None => r.is_none(),
            },
    {
        match parse_units(text) {
            None => None,
            Some(u) => Some(Decimal { text: text.to_owned(), units: u }),
        }
    }

    /// The text, as written.
    pub fn text(&self) -> (r: String)
        ensures
            r@ == self.text_view(),
    {
        self.text.clone()
    }

    /// The value in units of 10^-8.
    pub fn units(&self) -> (r: u64)
        ensures
            r == self.units_view(),
    {
        self.units
    }
}

} // verus!
