//! Text on Unicode scalar values: copying, comparing, trimming and changing case.
//!
//! A `String` or `str` is seen as the sequence of its `char`s.
use vstd::prelude::*;
use vstd::utf8::*;

verus! {

/// `String::push` of std appends the given character to the end of the string.
pub assume_specification[ String::push ](s: &mut String, c: char)
    ensures
        final(s)@ == old(s)@.push(c),
;

/// The lower-case form of a text, by the rules of Unicode.
pub uninterp spec fn lowercase(s: Seq<char>) -> Seq<char>;

/// Whether a text holds nothing but ASCII characters.
pub open spec fn all_ascii(s: Seq<char>) -> bool {
    forall|i: int| 0 <= i < s.len() ==> (#[trigger] s[i] as u32) < 128
}

/// `str::to_lowercase` of std. The contract names the result, and claims that on
/// a text of ASCII characters the letters `A` to `Z` become `a` to `z` and the
/// rest is kept.
pub assume_specification[ str::to_lowercase ](s: &str) -> (r: String)
    ensures
        r@ == lowercase(s@),
        all_ascii(s@) ==> r@ == ascii_lowered(s@),
;

/// The upper-case form of a character, by the rules of Unicode. It may be
/// several characters.
pub uninterp spec fn uppercase(c: char) -> Seq<char>;

/// `char::to_uppercase` of std, its characters collected. The contract names
/// the result.
#[verifier::external_body]
pub(crate) fn upper_text(c: char) -> (r: String)
    ensures
        r@ == uppercase(c),
{
    c.to_uppercase().collect()
}

/// The text of bytes, with invalid UTF-8 replaced.
pub uninterp spec fn lossy(bytes: Seq<u8>) -> Seq<char>;

/// `String::from_utf8_lossy` of std. The contract names the result and claims
/// that valid UTF-8 is decoded as it is.
#[verifier::external_body]
pub(crate) fn lossy_text(bytes: &[u8]) -> (r: String)
    ensures
        r@ == lossy(bytes@),
        valid_utf8(bytes@) ==> r@ == decode_utf8(bytes@),
{
    String::from_utf8_lossy(bytes).into_owned()
}

// ---------------------------------------------------------------------------
// Views of collections of strings
// ---------------------------------------------------------------------------
/// The texts held by a sequence of strings.
pub open spec fn texts(s: Seq<String>) -> Seq<Seq<char>> {
    s.map_values(|t: String| t@)
}

/// The text held by an optional string.
pub open spec fn opt_text(s: Option<String>) -> Option<Seq<char>> {
    match s {
        Some(t) => Some(t@),
        None => None,
    }
}

/// A result of two strings, as texts.
pub open spec fn result_text(r: Result<String, String>) -> Result<Seq<char>, Seq<char>> {
    match r {
        Ok(t) => Ok(t@),
        Err(e) => Err(e@),
    }
}

/// A result that holds nothing or an error message, as texts.
pub open spec fn unit_result_text(r: Result<(), String>) -> Result<(), Seq<char>> {
    match r {
        Ok(_) => Ok(()),
        Err(e) => Err(e@),
    }
}

/// Appending one string appends its text.
pub broadcast proof fn lemma_texts_push(s: Seq<String>, t: String)
    ensures
        #[trigger] texts(s.push(t)) == texts(s).push(t@),
{
    assert(texts(s.push(t)) =~= texts(s).push(t@));
}

// ---------------------------------------------------------------------------
// Characters and strings
// ---------------------------------------------------------------------------
/// The characters of `s`.
pub fn chars_of(s: &str) -> (r: Vec<char>)
    ensures
        r@ == s@,
{
    let mut out: Vec<char> = Vec::new();
    for c in it: s.chars()
        invariant
            it.seq() == s@,
            out@ == s@.take(it.index() as int),
    {
        out.push(c);
    }
    out
}

/// The characters of `v` from `from` up to and without `to`, as a string.
pub fn string_between(v: &Vec<char>, from: usize, to: usize) -> (r: String)
    requires
        from <= to <= v@.len(),
    ensures
        r@ == v@.subrange(from as int, to as int),
{
    let mut out = String::new();
    let mut i: usize = from;
    while i < to
        invariant
            from <= i <= to <= v@.len(),
            out@ == v@.subrange(from as int, i as int),
        decreases to - i,
    {
        out.push(v[i]);
        i += 1;
    }
    out
}

/// A copy of `s`.
pub fn owned(s: &str) -> (r: String)
    ensures
        r@ == s@,
{
    s.to_owned()
}

/// Whether the two texts are the same.
pub fn same(a: &str, b: &str) -> (r: bool)
    ensures
        r == (a@ == b@),
{
    a.to_owned() == b.to_owned()
}

/// `s` without its last character; the empty text stays empty.
pub open spec fn without_last(s: Seq<char>) -> Seq<char> {
    if s.len() == 0 {
        s
    } else {
        s.drop_last()
    }
}

/// `s` without its last character; the empty text stays empty.
pub fn drop_last_char(s: &str) -> (r: String)
    ensures
        r@ == without_last(s@),
{
    let v = chars_of(s);
    if v.len() == 0 {
        String::new()
    } else {
        string_between(&v, 0, v.len() - 1)
    }
}

/// The texts of two strings, one after the other.
pub fn chained(a: &str, b: &str) -> (r: String)
    ensures
        r@ == a@ + b@,
{
    let mut r = a.to_owned();
    r.append(b);
    r
}

// ---------------------------------------------------------------------------
// White space
// ---------------------------------------------------------------------------
/// The characters with the Unicode property `White_Space`.
pub open spec fn is_white(c: char) -> bool {
    let u = c as u32;
    ||| 0x9 <= u <= 0xd
    ||| u == 0x20
    ||| u == 0x85
    ||| u == 0xa0
    ||| u == 0x1680
    ||| 0x2000 <= u <= 0x200a
    ||| 0x2028 <= u <= 0x2029
    ||| u == 0x202f
    ||| u == 0x205f
    ||| u == 0x3000
}

/// Whether `c` is white space.
pub fn white(c: char) -> (r: bool)
    ensures
        r == is_white(c),
{
    let u: u32 = c as u32;
    (0x9 <= u && u <= 0xd) || u == 0x20 || u == 0x85 || u == 0xa0 || u == 0x1680 || (0x2000 <= u
        && u <= 0x200a) || (0x2028 <= u && u <= 0x2029) || u == 0x202f || u == 0x205f || u == 0x3000
}

/// Whether `s` holds nothing but white space.
pub open spec fn is_blank(s: Seq<char>) -> bool {
    forall|i: int| 0 <= i < s.len() ==> is_white(#[trigger] s[i])
}

/// `s` without the white space at its start.
pub open spec fn trim_start(s: Seq<char>) -> Seq<char>
    decreases s.len(),
{
    if s.len() > 0 && is_white(s[0]) {
        trim_start(s.drop_first())
    } else {
        s
    }
}

/// `s` without the white space at its end.
pub open spec fn trim_end(s: Seq<char>) -> Seq<char>
    decreases s.len(),
{
    if s.len() > 0 && is_white(s.last()) {
        trim_end(s.drop_last())
    } else {
        s
    }
}

/// `s` without the white space at its start and at its end.
pub open spec fn trimmed(s: Seq<char>) -> Seq<char> {
    trim_end(trim_start(s))
}

proof fn lemma_trim_start_at(s: Seq<char>, i: int)
    requires
        0 <= i <= s.len(),
        is_blank(s.take(i)),
        i < s.len() ==> !is_white(s[i]),
    ensures
        trim_start(s) == s.skip(i),
    decreases i,
{
    if i == 0 {
        assert(s.skip(0) =~= s);
    } else {
        assert(is_white(s.take(i)[0]));
        let t = s.drop_first();
        assert forall|k: int| 0 <= k < i - 1 implies is_white(#[trigger] t.take(i - 1)[k]) by {
            assert(t.take(i - 1)[k] == s.take(i)[k + 1]);
        }
        lemma_trim_start_at(t, i - 1);
        assert(t.skip(i - 1) =~= s.skip(i));
    }
}

proof fn lemma_trim_end_at(s: Seq<char>, j: int)
    requires
        0 <= j <= s.len(),
        is_blank(s.skip(j)),
        j > 0 ==> !is_white(s[j - 1]),
    ensures
        trim_end(s) == s.take(j),
    decreases s.len() - j,
{
    if j == s.len() {
        assert(s.take(j) =~= s);
    } else {
        assert(is_white(s.skip(j)[s.len() - 1 - j]));
        let t = s.drop_last();
        assert forall|k: int| 0 <= k < t.len() - j implies is_white(#[trigger] t.skip(j)[k]) by {
            assert(t.skip(j)[k] == s.skip(j)[k]);
        }
        lemma_trim_end_at(t, j);
        assert(t.take(j) =~= s.take(j));
    }
}

/// Trimming leaves nothing of a text exactly when the text is blank.
pub proof fn lemma_trimmed_empty(s: Seq<char>)
    ensures
        trimmed(s).len() == 0 <==> is_blank(s),
    decreases s.len(),
{
    if s.len() == 0 {
    } else if is_white(s[0]) {
        lemma_trimmed_empty(s.drop_first());
        assert(is_blank(s) <==> is_blank(s.drop_first())) by {
            if is_blank(s.drop_first()) {
                assert forall|i: int| 0 <= i < s.len() implies is_white(#[trigger] s[i]) by {
                    if i > 0 {
                        assert(s.drop_first()[i - 1] == s[i]);
                    }
                }
            }
        }
    } else {
        lemma_trim_end_keeps_first(s);
    }
}

proof fn lemma_trim_end_keeps_first(s: Seq<char>)
    requires
        s.len() > 0,
        !is_white(s[0]),
    ensures
        trim_end(s).len() > 0,
    decreases s.len(),
{
    if is_white(s.last()) {
        lemma_trim_end_keeps_first(s.drop_last());
    }
}

/// `s` without the white space at its start and at its end.
pub fn trim(s: &str) -> (r: String)
    ensures
        r@ == trimmed(s@),
{
    let v = chars_of(s);
    let n: usize = v.len();
    let mut i: usize = 0;
    while i < n && white(v[i])
        invariant
            n == v@.len(),
            0 <= i <= n,
            is_blank(v@.take(i as int)),
        decreases n - i,
    {
        assert forall|k: int| 0 <= k < i + 1 implies is_white(#[trigger] v@.take(i + 1)[k]) by {
            if k < i {
                assert(v@.take(i + 1)[k] == v@.take(i as int)[k]);
            }
        }
        i += 1;
    }
    proof {
        lemma_trim_start_at(v@, i as int);
    }
    let ghost t = v@.skip(i as int);
    let mut j: usize = n;
    while j > i && white(v[j - 1])
        invariant
            n == v@.len(),
            i <= j <= n,
            t == v@.skip(i as int),
            is_blank(t.skip(j - i)),
        decreases j,
    {
        assert forall|k: int| 0 <= k < t.len() - (j - 1 - i) implies is_white(
            #[trigger] t.skip(j - 1 - i)[k],
        ) by {
            if k > 0 {
                assert(t.skip(j - 1 - i)[k] == t.skip(j - i)[k - 1]);
            }
        }
        j -= 1;
    }
    proof {
        lemma_trim_end_at(t, j - i);
        assert(t.take(j - i) =~= v@.subrange(i as int, j as int));
    }
    string_between(&v, i, j)
}

/// Whether `s` holds nothing but white space.
pub fn blank(s: &str) -> (r: bool)
    ensures
        r == is_blank(s@),
{
    let v = chars_of(s);
    let mut i: usize = 0;
    while i < v.len()
        invariant
            v@ == s@,
            0 <= i <= v@.len(),
            forall|k: int| 0 <= k < i ==> is_white(#[trigger] v@[k]),
        decreases v@.len() - i,
    {
        if !white(v[i]) {
            return false;
        }
        i += 1;
    }
    true
}

// ---------------------------------------------------------------------------
// ASCII case
// ---------------------------------------------------------------------------
/// The lower-case form of an ASCII letter; any other character is kept.
pub open spec fn ascii_lower(c: char) -> char {
    if 'A' <= c <= 'Z' {
        ((c as u32 + 32) as u32) as char
    } else {
        c
    }
}

/// `s` with its ASCII letters in lower case.
pub open spec fn ascii_lowered(s: Seq<char>) -> Seq<char> {
    s.map_values(|c: char| ascii_lower(c))
}

/// A text whose lower-case form is ASCII is ASCII itself.
pub proof fn lemma_lowered_ascii(s: Seq<char>)
    requires
        all_ascii(ascii_lowered(s)),
    ensures
        all_ascii(s),
{
    assert forall|i: int| 0 <= i < s.len() implies (#[trigger] s[i] as u32) < 128 by {
        assert((ascii_lowered(s)[i] as u32) < 128);
    }
}

/// The lower-case form of an ASCII letter; any other character is kept.
pub fn lower_char(c: char) -> (r: char)
    ensures
        r == ascii_lower(c),
{
    if 'A' <= c && c <= 'Z' {
        let b: u8 = c as u8;
        (b + 32) as char
    } else {
        c
    }
}

/// The upper-case form of an ASCII letter; any other character is kept.
pub open spec fn ascii_upper(c: char) -> char {
    if 'a' <= c <= 'z' {
        ((c as u32 - 32) as u32) as char
    } else {
        c
    }
}

/// The upper-case form of an ASCII letter; any other character is kept.
pub fn upper_char(c: char) -> (r: char)
    ensures
        r == ascii_upper(c),
{
    if 'a' <= c && c <= 'z' {
        let b: u8 = c as u8;
        (b - 32) as char
    } else {
        c
    }
}

/// `s` with its ASCII letters in lower case.
pub fn to_ascii_lower(s: &str) -> (r: String)
    ensures
        r@ == ascii_lowered(s@),
{
    let v = chars_of(s);
    let mut out = String::new();
    let mut i: usize = 0;
    while i < v.len()
        invariant
            v@ == s@,
            0 <= i <= v@.len(),
            out@ == ascii_lowered(v@.take(i as int)),
        decreases v@.len() - i,
    {
        out.push(lower_char(v[i]));
        i += 1;
        assert(out@ =~= ascii_lowered(v@.take(i as int)));
    }
    assert(v@.take(i as int) =~= s@);
    out
}

/// Whether the two texts differ at most in the case of ASCII letters.
pub fn same_ignoring_case(a: &str, b: &str) -> (r: bool)
    ensures
        r == (ascii_lowered(a@) == ascii_lowered(b@)),
{
    to_ascii_lower(a) == to_ascii_lower(b)
}

// ---------------------------------------------------------------------------
// Laws
// ---------------------------------------------------------------------------
/// Trimming takes white space away, from both ends, and nothing else.
pub proof fn trimming_takes_the_white_ends(before: Seq<char>, s: Seq<char>, after: Seq<char>)
    requires
        is_blank(before),
        is_blank(after),
        s.len() > 0 ==> !is_white(s[0]) && !is_white(s.last()),
    ensures
        trimmed(before + s + after) == s,
{
    let all = before + s + after;
    let n = before.len() as int;
    let k = s.len() as int;
    if k == 0 {
        assert forall|i: int| 0 <= i < all.len() implies is_white(#[trigger] all[i]) by {
            if i < n {
                assert(all[i] == before[i]);
            } else {
                assert(all[i] == after[i - n]);
            }
        }
        lemma_trimmed_empty(all);
        assert(trimmed(all) =~= s);
    } else {
        assert forall|i: int| 0 <= i < n implies is_white(#[trigger] all.take(n)[i]) by {
            assert(all.take(n)[i] == before[i]);
        }
        assert(all[n] == s[0]);
        lemma_trim_start_at(all, n);
        let t = all.skip(n);
        assert forall|i: int| 0 <= i < t.len() - k implies is_white(#[trigger] t.skip(k)[i]) by {
            assert(t.skip(k)[i] == after[i]);
        }
        assert(t[k - 1] == s.last());
        lemma_trim_end_at(t, k);
        assert(t.take(k) =~= s);
    }
}

/// Lowering the case of a text changes its capital ASCII letters, each to its
/// small letter, and nothing else.
pub proof fn only_capitals_are_lowered(s: Seq<char>, i: int)
    requires
        0 <= i < s.len(),
    ensures
        ascii_lowered(s).len() == s.len(),
        'A' <= s[i] <= 'Z' ==> ascii_lowered(s)[i] as u32 == s[i] as u32 + 32,
        !('A' <= s[i] <= 'Z') ==> ascii_lowered(s)[i] == s[i],
        ascii_lowered(ascii_lowered(s)) == ascii_lowered(s),
{
    let l = ascii_lowered(s);
    assert forall|k: int| 0 <= k < s.len() implies ascii_lowered(l)[k] == #[trigger] l[k] by {
        assert(l[k] == ascii_lower(s[k]));
    }
    assert(ascii_lowered(l) =~= l);
}

/// Rubbing out takes the last character away, and only that.
pub proof fn rubbing_out_takes_the_last(s: Seq<char>, c: char)
    ensures
        without_last(s.push(c)) == s,
        without_last(Seq::<char>::empty()) == Seq::<char>::empty(),
{
    assert(without_last(s.push(c)) =~= s);
}

} // verus!
