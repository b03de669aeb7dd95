//! Signing of authentication requests with HMAC-SHA512, hex encoded.

use hmac::Mac;
use crate::decimal::digits_value;
use vstd::prelude::*;
use vstd::string::StringSliceAdditionalSpecFns;

verus! {

/// What HMAC-SHA512 yields for a key and a message.
pub uninterp spec fn hmac_sha512_of(key: Seq<u8>, msg: Seq<u8>) -> Seq<u8>;

/// Lower-case hexadecimal digit for a value below sixteen.
pub open spec fn hex_digit(v: u8) -> char {
    if v < 10 {
        ((v + 48) as u8) as char
    } else {
        ((v - 10 + 97) as u8) as char
    }
}

/// Two lower-case hex digits per byte, high nibble first.
pub open spec fn hex_text(b: Seq<u8>) -> Seq<char>
    decreases b.len(),
{
    if b.len() == 0 {
        Seq::empty()
    } else {
        hex_text(b.drop_last()) + seq![hex_digit(b.last() / 16), hex_digit(b.last() % 16)]
    }
}

/// A lower-case hexadecimal digit.
pub open spec fn is_hex_char(c: char) -> bool {
    ('0' <= c && c <= '9') || ('a' <= c && c <= 'f')
}

proof fn lemma_hex_text(b: Seq<u8>)
    ensures
        hex_text(b).len() == 2 * b.len(),
        forall|i: int| 0 <= i < hex_text(b).len() ==> is_hex_char(#[trigger] hex_text(b)[i]),
    decreases b.len(),
{
    if b.len() > 0 {
        lemma_hex_text(b.drop_last());
        let prev = hex_text(b.drop_last());
        let hi = hex_digit(b.last() / 16);
        let lo = hex_digit(b.last() % 16);
        assert(is_hex_char(hi) && is_hex_char(lo));
        let h = hex_text(b);
        assert(h == prev + seq![hi, lo]);
        assert forall|i: int| 0 <= i < h.len() implies is_hex_char(#[trigger] h[i]) by {
            if i < prev.len() {
                assert(h[i] == prev[i]);
            }
        }
    }
}

/// Decimal digits of a natural number, as ASCII bytes, without leading zeros.
pub open spec fn decimal_bytes(n: nat) -> Seq<u8>
    decreases n,
{
    if n < 10 {
        seq![(n + 48) as u8]
    } else {
        decimal_bytes(n / 10) + seq![((n % 10) + 48) as u8]
    }
}

/// The byte string that is signed: `"api\n" + channel + "\n" + param + "\n" + ts`.
pub open spec fn signing_input(channel: Seq<u8>, param: Seq<u8>, ts: nat) -> Seq<u8> {
    seq![97u8, 112u8, 105u8, 10u8] + channel + seq![10u8] + param + seq![10u8] + decimal_bytes(ts)
}

/// The signature of a logical request under a secret.
pub open spec fn signature_of(channel: Seq<u8>, param: Seq<u8>, ts: nat, secret: Seq<u8>) -> Seq<char> {
    hex_text(hmac_sha512_of(secret, signing_input(channel, param, ts)))
}

/// Relies on hmac's `Hmac<Sha512>`: `new_from_slice` accepts a key of any
/// length (it always returns `Ok`), and `update` then `finalize` give the
/// 64-byte MAC of the message.
#[verifier::external_body]
fn hmac_sha512(key: &[u8], msg: &[u8]) -> (r: Vec<u8>)
    ensures
        r@ == hmac_sha512_of(key@, msg@),
        r@.len() == 64,
{
    let mut mac = hmac::Hmac::<sha2::Sha512>::new_from_slice(key).expect("any key length");
    mac.update(msg);
    mac.finalize().into_bytes().to_vec()
}

/// Relies on hex::encode: two lower-case digits for each byte, in order.
#[verifier::external_body]
fn hex_encode(b: &[u8]) -> (r: String)
    ensures
        r@ == hex_text(b@),
{
    hex::encode(b)
}

/// Appends the decimal digits of `n` to `out`.
pub fn push_decimal(out: &mut Vec<u8>, n: u64)
    ensures
        final(out)@ == old(out)@ + decimal_bytes(n as nat),
{
    let mut digits: Vec<u8> = Vec::new();
    let mut x: u64 = n;
    while x >= 10
        invariant
            decimal_bytes(n as nat) == decimal_bytes(x as nat) + digits@,
        decreases x,
    {
        let d: u8 = (x % 10) as u8 + 48;
        let ghost prev = digits@;
        digits.insert(0, d);
        assert(decimal_bytes(x as nat) == decimal_bytes((x / 10) as nat) + seq![d]);
        assert(digits@ =~= seq![d] + prev);
        assert(decimal_bytes(x as nat) + prev =~= decimal_bytes((x / 10) as nat) + digits@);
        x = x / 10;
        assert(decimal_bytes(n as nat) =~= decimal_bytes(x as nat) + digits@);
    }
    digits.insert(0, (x as u8) + 48);
    assert(decimal_bytes(n as nat) =~= digits@);
    let mut i: usize = 0;
    let ghost start = out@;
    while i < digits.len()
        invariant
            i <= digits@.len(),
            out@ == start + digits@.take(i as int),
        decreases digits@.len() - i,
    {
        out.push(digits[i]);
        i = i + 1;
        assert(out@ =~= start + digits@.take(i as int));
    }
    assert(digits@.take(i as int) =~= digits@);
}

/// Appends the bytes of `s` to `out`.
fn push_bytes(out: &mut Vec<u8>, s: &[u8])
    ensures
        final(out)@ == old(out)@ + s@,
{
    let mut i: usize = 0;
    let ghost start = out@;
    while i < s.len()
        invariant
            i <= s@.len(),
            out@ == start + s@.take(i as int),
        decreases s@.len() - i,
    {
        out.push(s[i]);
        i = i + 1;
        assert(out@ =~= start + s@.take(i as int));
    }
    assert(s@.take(i as int) =~= s@);
}

/// The exact bytes over which a request is signed.
pub fn build_signing_input(channel: &str, request_param: &str, ts: u64) -> (r: Vec<u8>)
    ensures
        r@ == signing_input(channel.spec_bytes(), request_param.spec_bytes(), ts as nat),
{
    let mut out: Vec<u8> = Vec::new();
    out.push(97u8);
    out.push(112u8);
    out.push(105u8);
    out.push(10u8);
    push_bytes(&mut out, channel.as_bytes());
    out.push(10u8);
    push_bytes(&mut out, request_param.as_bytes());
    out.push(10u8);
    push_decimal(&mut out, ts);
    assert(out@ =~= signing_input(channel.spec_bytes(), request_param.spec_bytes(), ts as nat));
    out
}

/// Hex-encoded HMAC-SHA512 of `"api\n{channel}\n{request_param}\n{ts}"` under
/// `secret`.
pub fn sign(channel: &str, request_param: &str, ts: u64, secret: &str) -> (r: String)
    ensures
        r@ == signature_of(channel.spec_bytes(), request_param.spec_bytes(), ts as nat, secret.spec_bytes()),
        r@.len() == 128,
        forall|i: int| 0 <= i < r@.len() ==> is_hex_char(#[trigger] r@[i]),
{
    let input = build_signing_input(channel, request_param, ts);
    let mac = hmac_sha512(secret.as_bytes(), input.as_slice());
    proof { lemma_hex_text(mac@); }
    hex_encode(mac.as_slice())
}

/// Signing is a function of its inputs: equal inputs give equal signatures.
pub proof fn sign_is_deterministic(
    c1: Seq<u8>, p1: Seq<u8>, t1: nat, s1: Seq<u8>,
    c2: Seq<u8>, p2: Seq<u8>, t2: nat, s2: Seq<u8>,
)
    requires
        c1 == c2,
        p1 == p2,
        t1 == t2,
        s1 == s2,
    ensures
        signature_of(c1, p1, t1, s1) == signature_of(c2, p2, t2, s2),
{
}

pub open spec fn has_newline(b: Seq<u8>) -> bool {
    exists|i: int| 0 <= i < b.len() && b[i] == 10
}

proof fn lemma_decimal_digits(n: nat)
    ensures
        digits_value(decimal_bytes(n)) == n,
        !has_newline(decimal_bytes(n)),
    decreases n,
{
    let d = decimal_bytes(n);
    if n < 10 {
        assert(d.drop_last() =~= Seq::<u8>::empty());
        assert(digits_value(d.drop_last()) == 0);
    } else {
        lemma_decimal_digits(n / 10);
        assert(d.drop_last() =~= decimal_bytes(n / 10));
        assert(d.last() == ((n % 10) + 48) as u8);
        assert(n == (n / 10) * 10 + n % 10);
        assert(!has_newline(d)) by {
            if has_newline(d) {
                let i = choose|i: int| 0 <= i < d.len() && d[i] == 10;
                if i < d.len() - 1 {
                    assert(d.drop_last()[i] == d[i]);
                }
            }
        }
    }
}

proof fn lemma_split_at_newline(s1: Seq<u8>, s2: Seq<u8>, a: Seq<u8>, b: Seq<u8>)
    requires
        a + seq![10u8] + s1 == b + seq![10u8] + s2,
        !has_newline(a),
        !has_newline(b),
    ensures
        a == b,
        s1 == s2,
{
    let x = a + seq![10u8] + s1;
    let y = b + seq![10u8] + s2;
    if a.len() < b.len() {
        assert(x[a.len() as int] == 10);
        assert(y[a.len() as int] == b[a.len() as int]);
    } else if b.len() < a.len() {
        assert(y[b.len() as int] == 10);
        assert(x[b.len() as int] == a[b.len() as int]);
    }
    assert(a =~= x.take(a.len() as int));
    assert(b =~= y.take(b.len() as int));
    assert(s1 =~= x.skip(a.len() as int + 1));
    assert(s2 =~= y.skip(b.len() as int + 1));
}

/// Distinct logical requests are signed over distinct bytes: the signed
/// text determines the channel, the parameter and the timestamp, as long as
/// channel and parameter hold no line break.
pub proof fn signing_input_is_injective(c1: Seq<u8>, p1: Seq<u8>, t1: nat, c2: Seq<u8>, p2: Seq<u8>, t2: nat)
    requires
        !has_newline(c1),
        !has_newline(p1),
        !has_newline(c2),
        !has_newline(p2),
        signing_input(c1, p1, t1) == signing_input(c2, p2, t2),
    ensures
        c1 == c2,
        p1 == p2,
        t1 == t2,
{
    let pre = seq![97u8, 112u8, 105u8, 10u8];
    let x = signing_input(c1, p1, t1);
    let y = signing_input(c2, p2, t2);
    let r1 = c1 + seq![10u8] + (p1 + seq![10u8] + decimal_bytes(t1));
    let r2 = c2 + seq![10u8] + (p2 + seq![10u8] + decimal_bytes(t2));
    assert(x =~= pre + r1);
    assert(y =~= pre + r2);
    assert(r1 =~= x.skip(4));
    assert(r2 =~= y.skip(4));
    lemma_split_at_newline(p1 + seq![10u8] + decimal_bytes(t1), p2 + seq![10u8] + decimal_bytes(t2), c1, c2);
    lemma_split_at_newline(decimal_bytes(t1), decimal_bytes(t2), p1, p2);
    lemma_decimal_digits(t1);
    lemma_decimal_digits(t2);
}

} // verus!
