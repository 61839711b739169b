//! Base64: the standard form with padding, and the URL-safe form without.
use crate::words;
use vstd::prelude::*;

verus! {

/// The number of three bytes, the first of them the most significant.
pub open spec fn triple(a: u8, b: u8, c: u8) -> int {
    a * 65536 + b * 256 + c
}

/// Digit `k` of `n` to the base 64, counted from the most significant of four.
pub open spec fn sextet(n: int, k: int) -> int {
    if k == 0 {
        n / 262144
    } else if k == 1 {
        (n / 4096) % 64
    } else if k == 2 {
        (n / 64) % 64
    } else {
        n % 64
    }
}

/// The base64 digits of `s`: four for each three bytes. One or two bytes that
/// are left over are filled up with zeros and give two or three digits.
pub open spec fn sextets(s: Seq<u8>) -> Seq<int>
    decreases s.len(),
{
    if s.len() == 0 {
        Seq::empty()
    } else if s.len() == 1 {
        let n = triple(s[0], 0, 0);
        seq![sextet(n, 0), sextet(n, 1)]
    } else if s.len() == 2 {
        let n = triple(s[0], s[1], 0);
        seq![sextet(n, 0), sextet(n, 1), sextet(n, 2)]
    } else {
        let n = triple(s[0], s[1], s[2]);
        seq![sextet(n, 0), sextet(n, 1), sextet(n, 2), sextet(n, 3)] + sextets(s.skip(3))
    }
}

/// The character that stands for digit `v`, with `c62` and `c63` for the last
/// two digits.
pub open spec fn digit_char(v: int, c62: char, c63: char) -> char {
    if v < 26 {
        (65 + v) as char
    } else if v < 52 {
        (97 + (v - 26)) as char
    } else if v < 62 {
        (48 + (v - 52)) as char
    } else if v == 62 {
        c62
    } else {
        c63
    }
}

/// What fills up the last group of the base64 of `n` bytes.
pub open spec fn padding(n: nat) -> Seq<char> {
    if n % 3 == 1 {
        seq!['=', '=']
    } else if n % 3 == 2 {
        seq!['=']
    } else {
        Seq::empty()
    }
}

/// Standard base64, with padding.
pub open spec fn base64(s: Seq<u8>) -> Seq<char> {
    sextets(s).map_values(|v: int| digit_char(v, '+', '/')) + padding(s.len())
}

/// URL-safe base64, without padding.
pub open spec fn base64url(s: Seq<u8>) -> Seq<char> {
    sextets(s).map_values(|v: int| digit_char(v, '-', '_'))
}

/// The bytes that `t` is the URL-safe base64 of, without padding.
pub open spec fn base64url_decoded(t: Seq<char>) -> Option<Seq<u8>> {
    if exists|b: Seq<u8>| #[trigger] base64url(b) == t {
        Some(choose|b: Seq<u8>| #[trigger] base64url(b) == t)
    } else {
        None
    }
}

fn digit(v: u32) -> (c: char)
    requires
        v < 64,
    ensures
        c == digit_char(v as int, '+', '/'),
{
    if v < 26 {
        (65 + v as u8) as char
    } else if v < 52 {
        (97 + (v as u8 - 26)) as char
    } else if v < 62 {
        (48 + (v as u8 - 52)) as char
    } else if v == 62 {
        '+'
    } else {
        '/'
    }
}

proof fn lemma_base64_group(s: Seq<u8>)
    requires
        s.len() >= 3,
    ensures
        base64(s) == ({
            let n = triple(s[0], s[1], s[2]);
            seq![
                digit_char(sextet(n, 0), '+', '/'),
                digit_char(sextet(n, 1), '+', '/'),
                digit_char(sextet(n, 2), '+', '/'),
                digit_char(sextet(n, 3), '+', '/'),
            ] + base64(s.skip(3))
        }),
{
    let n = triple(s[0], s[1], s[2]);
    assert(s.len() % 3 == s.skip(3).len() % 3);
    assert(base64(s) =~= seq![
        digit_char(sextet(n, 0), '+', '/'),
        digit_char(sextet(n, 1), '+', '/'),
        digit_char(sextet(n, 2), '+', '/'),
        digit_char(sextet(n, 3), '+', '/'),
    ] + base64(s.skip(3)));
}

/// Minimal standard base64 encoder.
pub fn base64_encode(input: &[u8]) -> (r: String)
    ensures
        r@ == base64(input@),
{
    let len: usize = input.len();
    let mut out = String::new();
    let mut i: usize = 0;
    assert(input@.skip(0) =~= input@);
    assert(out@ + base64(input@.skip(0)) =~= base64(input@));
    while i < len
        invariant
            len == input@.len(),
            0 <= i <= len,
            out@ + base64(input@.skip(i as int)) == base64(input@),
        decreases len - i,
    {
        let left: usize = len - i;
        let b0: u32 = input[i] as u32;
        let b1: u32 = if left > 1 {
            input[i + 1] as u32
        } else {
            0
        };
        let b2: u32 = if left > 2 {
            input[i + 2] as u32
        } else {
            0
        };
        let n: u32 = b0 * 65536 + b1 * 256 + b2;
        let ghost before = out@;
        let ghost rest = input@.skip(i as int);
        out.push(digit(n / 262144));
        out.push(digit((n / 4096) % 64));
        out.push(
            if left > 1 {
                digit((n / 64) % 64)
            } else {
                '='
            },
        );
        out.push(
            if left > 2 {
                digit(n % 64)
            } else {
                '='
            },
        );
        if left > 2 {
            proof {
                lemma_base64_group(rest);
                assert(rest.skip(3) =~= input@.skip(i + 3));
                assert(before + base64(rest) =~= out@ + base64(input@.skip(i + 3)));
            }
            i += 3;
        } else {
            proof {
                assert(base64(rest) =~= out@.skip(before.len() as int));
                assert(before + base64(rest) =~= out@);
            }
            i = len;
            assert(input@.skip(i as int) =~= Seq::<u8>::empty());
            assert(out@ + base64(input@.skip(i as int)) =~= out@);
        }
    }
    assert(input@.skip(i as int) =~= Seq::<u8>::empty());
    assert(out@ + base64(input@.skip(i as int)) =~= out@);
    out
}

// ---------------------------------------------------------------------------
// Laws
// ---------------------------------------------------------------------------
/// The digit that a character stands for, of either alphabet.
pub open spec fn char_digit(c: char) -> int {
    let u = c as u32 as int;
    if 65 <= u < 91 {
        u - 65
    } else if 97 <= u < 123 {
        u - 97 + 26
    } else if 48 <= u < 58 {
        u - 48 + 52
    } else if c == '+' || c == '-' {
        62
    } else {
        63
    }
}

/// The bytes that base64 digits stand for.
pub open spec fn digits_bytes(x: Seq<int>) -> Seq<u8>
    decreases x.len(),
{
    if x.len() < 2 {
        Seq::empty()
    } else {
        let high = x[0] * 64 + x[1];
        if x.len() == 2 {
            seq![(high / 16) as u8]
        } else if x.len() == 3 {
            let n = high * 64 + x[2];
            seq![(n / 1024) as u8, ((n / 4) % 256) as u8]
        } else {
            let n = (high * 64 + x[2]) * 64 + x[3];
            seq![(n / 65536) as u8, ((n / 256) % 256) as u8, (n % 256) as u8] + digits_bytes(
                x.skip(4),
            )
        }
    }
}

/// The bytes that a base64 text stands for, of either alphabet: up to the
/// padding, if there is any.
pub open spec fn base64_bytes(t: Seq<char>) -> Seq<u8> {
    digits_bytes(t.take(words::first_index(t, '=')).map_values(|c: char| char_digit(c)))
}

proof fn lemma_char_digit(v: int)
    requires
        0 <= v < 64,
    ensures
        char_digit(digit_char(v, '+', '/')) == v,
        char_digit(digit_char(v, '-', '_')) == v,
        digit_char(v, '+', '/') != '=',
        digit_char(v, '-', '_') != '=',
{
}

proof fn lemma_quotient(n: int, d: int, q: int, r: int)
    requires
        n == q * d + r,
        0 <= r < d,
    ensures
        n / d == q,
        n % d == r,
{
    vstd::arithmetic::div_mod::lemma_fundamental_div_mod_converse(n, d, q, r);
}

proof fn lemma_digits(x0: int, x1: int, x2: int, x3: int, n: int)
    requires
        0 <= x0 < 64,
        0 <= x1 < 64,
        0 <= x2 < 64,
        0 <= x3 < 64,
        n == ((x0 * 64 + x1) * 64 + x2) * 64 + x3,
    ensures
        sextet(n, 0) == x0,
        sextet(n, 1) == x1,
        sextet(n, 2) == x2,
        sextet(n, 3) == x3,
{
    lemma_quotient(n, 64, (x0 * 64 + x1) * 64 + x2, x3);
    lemma_quotient(n, 4096, x0 * 64 + x1, x2 * 64 + x3);
    lemma_quotient(n, 262144, x0, (x1 * 64 + x2) * 64 + x3);
    lemma_quotient((x0 * 64 + x1) * 64 + x2, 64, x0 * 64 + x1, x2);
    lemma_quotient(x0 * 64 + x1, 64, x0, x1);
}

proof fn lemma_triple_digits(a: int, b: int, c: int, n: int)
    requires
        0 <= a < 256,
        0 <= b < 256,
        0 <= c < 256,
        n == a * 65536 + b * 256 + c,
    ensures
        forall|k: int| 0 <= k < 4 ==> 0 <= #[trigger] sextet(n, k) < 64,
        ((sextet(n, 0) * 64 + sextet(n, 1)) * 64 + sextet(n, 2)) * 64 + sextet(n, 3) == n,
        (sextet(n, 0) * 64 + sextet(n, 1)) / 16 == a,
        ((sextet(n, 0) * 64 + sextet(n, 1)) * 64 + sextet(n, 2)) / 1024 == a,
        (((sextet(n, 0) * 64 + sextet(n, 1)) * 64 + sextet(n, 2)) / 4) % 256 == b,
        n / 65536 == a,
        (n / 256) % 256 == b,
        n % 256 == c,
{
    let (a1, a0) = (a / 4, a % 4);
    let (b1, b0) = (b / 16, b % 16);
    let (c1, c0) = (c / 64, c % 64);
    let x0 = a1;
    let x1 = a0 * 16 + b1;
    let x2 = b0 * 4 + c1;
    let x3 = c0;
    assert(a == 4 * a1 + a0 && b == 16 * b1 + b0 && c == 64 * c1 + c0);
    assert(n == ((x0 * 64 + x1) * 64 + x2) * 64 + x3);
    lemma_digits(x0, x1, x2, x3, n);
    assert(x0 * 64 + x1 == a * 16 + b1);
    lemma_quotient(a * 16 + b1, 16, a, b1);
    assert((x0 * 64 + x1) * 64 + x2 == a * 1024 + b * 4 + c1);
    lemma_quotient(a * 1024 + b * 4 + c1, 1024, a, b * 4 + c1);
    lemma_quotient(a * 1024 + b * 4 + c1, 4, a * 256 + b, c1);
    lemma_quotient(a * 256 + b, 256, a, b);
    lemma_quotient(n, 65536, a, b * 256 + c);
    lemma_quotient(n, 256, a * 256 + b, c);
}

proof fn lemma_sextets(s: Seq<u8>)
    ensures
        digits_bytes(sextets(s)) == s,
        forall|i: int| 0 <= i < sextets(s).len() ==> 0 <= #[trigger] sextets(s)[i] < 64,
    decreases s.len(),
{
    let x = sextets(s);
    if s.len() == 0 {
        assert(digits_bytes(x) =~= s);
    } else if s.len() == 1 {
        lemma_triple_digits(s[0] as int, 0, 0, triple(s[0], 0, 0));
        assert(digits_bytes(x) =~= s);
    } else if s.len() == 2 {
        lemma_triple_digits(s[0] as int, s[1] as int, 0, triple(s[0], s[1], 0));
        assert(digits_bytes(x) =~= s);
    } else {
        let rest = s.skip(3);
        let n = triple(s[0], s[1], s[2]);
        lemma_triple_digits(s[0] as int, s[1] as int, s[2] as int, n);
        lemma_sextets(rest);
        assert(x.skip(4) =~= sextets(rest));
        assert forall|i: int| 0 <= i < x.len() implies 0 <= #[trigger] x[i] < 64 by {
            if i >= 4 {
                assert(x[i] == sextets(rest)[i - 4]);
            }
        }
        assert(digits_bytes(x) =~= s);
    }
}

/// Decoding gives back what was encoded.
pub proof fn base64_round_trip(s: Seq<u8>)
    ensures
        base64_bytes(base64(s)) == s,
{
    let x = sextets(s);
    let t = base64(s);
    lemma_sextets(s);
    assert forall|i: int| 0 <= i < x.len() implies #[trigger] t[i] != '=' && char_digit(t[i])
        == x[i] by {
        lemma_char_digit(x[i]);
    }
    words::lemma_first_index_is(t, '=', x.len() as int);
    assert(t.take(x.len() as int).map_values(|c: char| char_digit(c)) =~= x);
}

/// Decoding gives back what was encoded with the URL-safe alphabet.
pub proof fn base64url_round_trip(s: Seq<u8>)
    ensures
        base64_bytes(base64url(s)) == s,
        base64url_decoded(base64url(s)) == Some(s),
{
    lemma_base64url_bytes(s);
    let found = choose|b: Seq<u8>| #[trigger] base64url(b) == base64url(s);
    lemma_base64url_bytes(found);
}

proof fn lemma_base64url_bytes(s: Seq<u8>)
    ensures
        base64_bytes(base64url(s)) == s,
{
    let x = sextets(s);
    let t = base64url(s);
    lemma_sextets(s);
    assert forall|i: int| 0 <= i < x.len() implies #[trigger] t[i] != '=' && char_digit(t[i])
        == x[i] by {
        lemma_char_digit(x[i]);
    }
    words::lemma_first_index_is(t, '=', x.len() as int);
    assert(t.take(x.len() as int).map_values(|c: char| char_digit(c)) =~= x);
}

/// Four characters for each three bytes, the last group filled up.
pub proof fn base64_length(s: Seq<u8>)
    ensures
        base64(s).len() == (s.len() + 2) / 3 * 4,
{
    lemma_sextets_len(s);
}

proof fn lemma_sextets_len(s: Seq<u8>)
    ensures
        sextets(s).len() + padding(s.len()).len() == (s.len() + 2) / 3 * 4,
    decreases s.len(),
{
    if s.len() > 2 {
        lemma_sextets_len(s.skip(3));
        assert(s.len() % 3 == s.skip(3).len() % 3);
    }
}

/// URL-safe base64 holds only letters, digits, `-` and `_`.
pub proof fn base64url_is_url_safe(s: Seq<u8>, i: int)
    requires
        0 <= i < base64url(s).len(),
    ensures
        ({
            let c = base64url(s)[i];
            let u = c as u32;
            48 <= u <= 57 || 65 <= u <= 90 || 97 <= u <= 122 || c == '-' || c == '_'
        }),
{
    lemma_sextets(s);
    assert(0 <= sextets(s)[i] < 64);
}

} // verus!
