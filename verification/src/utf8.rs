//! Lengths of texts in UTF-8, and cutting a text to such a length.
use crate::decimal;
use crate::text;
use vstd::prelude::*;
use vstd::utf8::*;

verus! {

/// The number of bytes of `s` in UTF-8.
pub open spec fn byte_len(s: Seq<char>) -> nat {
    encode_utf8(s).len()
}

/// The number of bytes of a text in UTF-8.
pub fn len_bytes(s: &str) -> (n: usize)
    ensures
        n == byte_len(s@),
{
    s.as_bytes().len()
}

proof fn lemma_encode_push(s: Seq<char>, c: char)
    ensures
        encode_utf8(s.push(c)) == encode_utf8(s) + encode_scalar(c as u32),
    decreases s.len(),
{
    let t = s.push(c);
    if s.len() == 0 {
        assert(t.drop_first() =~= s);
        assert(encode_utf8(t) =~= encode_utf8(s) + encode_scalar(c as u32));
    } else {
        assert(t.drop_first() =~= s.drop_first().push(c));
        lemma_encode_push(s.drop_first(), c);
        assert(encode_utf8(t) =~= encode_utf8(s) + encode_scalar(c as u32));
    }
}

/// The number of bytes of `c` in UTF-8.
fn char_bytes(c: char) -> (n: usize)
    ensures
        n == encode_scalar(c as u32).len(),
        1 <= n <= 4,
{
    let u: u32 = c as u32;
    proof {
        char_is_scalar(c);
    }
    if u <= 0x7f {
        1
    } else if u <= 0x7ff {
        2
    } else if u <= 0xffff {
        3
    } else {
        4
    }
}

/// How many of the first characters of `s` fit into `max` bytes.
pub open spec fn fitting(s: Seq<char>, max: nat) -> nat
    decreases s.len(),
{
    if byte_len(s) <= max || s.len() == 0 {
        s.len()
    } else {
        fitting(s.drop_last(), max)
    }
}

proof fn lemma_prefix_shorter(s: Seq<char>, k: int)
    requires
        0 <= k <= s.len(),
    ensures
        byte_len(s.take(k)) <= byte_len(s),
    decreases s.len() - k,
{
    if k == s.len() {
        assert(s.take(k) =~= s);
    } else {
        lemma_encode_push(s.drop_last(), s.last());
        assert(s.drop_last().push(s.last()) =~= s);
        lemma_prefix_shorter(s.drop_last(), k);
        assert(s.drop_last().take(k) =~= s.take(k));
    }
}

proof fn lemma_fitting_at(s: Seq<char>, max: nat, k: int)
    requires
        0 <= k <= s.len(),
        byte_len(s.take(k)) <= max,
        k < s.len() ==> byte_len(s.take(k + 1)) > max,
    ensures
        fitting(s, max) == k,
    decreases s.len(),
{
    if k == s.len() {
        assert(s.take(k) =~= s);
    } else {
        lemma_prefix_shorter(s, k + 1);
        let t = s.drop_last();
        assert(t.take(k) =~= s.take(k));
        if k < t.len() {
            assert(t.take(k + 1) =~= s.take(k + 1));
        }
        lemma_fitting_at(t, max, k);
    }
}

/// `s`, or what fits of it into `max` bytes and a note of how many bytes were
/// cut off.
pub open spec fn truncated(s: Seq<char>, max: nat) -> Seq<char> {
    if byte_len(s) <= max {
        s
    } else {
        let kept = s.take(fitting(s, max) as int);
        kept + "…[truncated "@ + decimal::decimal((byte_len(s) - byte_len(kept)) as nat)
            + " bytes]"@
    }
}

/// `s`, or what fits of it into `max` bytes, without cutting a character, and a
/// note of how many bytes were cut off.
pub fn truncate(s: &str, max: usize) -> (r: String)
    ensures
        r@ == truncated(s@, max as nat),
{
    let total: usize = len_bytes(s);
    if total <= max {
        return text::owned(s);
    }
    let v = text::chars_of(s);
    let mut k: usize = 0;
    let mut bytes: usize = 0;
    while k < v.len() && char_bytes(v[k]) <= max - bytes
        invariant
            v@ == s@,
            0 <= k <= v@.len(),
            bytes <= max,
            bytes == byte_len(v@.take(k as int)),
        decreases v@.len() - k,
    {
        proof {
            assert(v@.take(k + 1) =~= v@.take(k as int).push(v@[k as int]));
            lemma_encode_push(v@.take(k as int), v@[k as int]);
        }
        bytes = bytes + char_bytes(v[k]);
        k += 1;
    }
    proof {
        if k < v.len() {
            assert(v@.take(k + 1) =~= v@.take(k as int).push(v@[k as int]));
            lemma_encode_push(v@.take(k as int), v@[k as int]);
        }
        lemma_fitting_at(s@, max as nat, k as int);
        lemma_prefix_shorter(s@, k as int);
    }
    let mut out = text::string_between(&v, 0, k);
    assert(out@ =~= s@.take(k as int));
    out.append("…[truncated ");
    out.append(decimal::size_decimal(total - bytes).as_str());
    out.append(" bytes]");
    out
}

// ---------------------------------------------------------------------------
// Laws
// ---------------------------------------------------------------------------
/// What is kept of a text fits, and one character more would not.
pub proof fn kept_text_is_longest(s: Seq<char>, max: nat)
    ensures
        fitting(s, max) <= s.len(),
        byte_len(s.take(fitting(s, max) as int)) <= max,
        fitting(s, max) < s.len() ==> byte_len(s.take(fitting(s, max) as int + 1)) > max,
    decreases s.len(),
{
    if byte_len(s) <= max || s.len() == 0 {
        assert(s.take(s.len() as int) =~= s);
    } else {
        let t = s.drop_last();
        kept_text_is_longest(t, max);
        let k = fitting(t, max) as int;
        assert(t.take(k) =~= s.take(k));
        if k < t.len() {
            assert(t.take(k + 1) =~= s.take(k + 1));
        } else {
            assert(s.take(k + 1) =~= s);
        }
    }
}

/// A text that fits is kept as it is.
pub proof fn fitting_text_is_kept(s: Seq<char>, max: nat)
    requires
        byte_len(s) <= max,
    ensures
        truncated(s, max) == s,
{
}

/// A text that does not fit is cut where the next character would not fit, with a
/// note of how many bytes are missing.
pub proof fn long_text_is_cut(s: Seq<char>, max: nat, k: int, missing: nat)
    requires
        0 <= k < s.len(),
        byte_len(s.take(k)) <= max,
        byte_len(s.take(k + 1)) > max,
        byte_len(s.take(k)) + missing == byte_len(s),
    ensures
        truncated(s, max) == s.take(k) + "…[truncated "@ + decimal::decimal(missing) + " bytes]"@,
{
    lemma_fitting_at(s, max, k);
    lemma_prefix_shorter(s, k + 1);
}

} // verus!
