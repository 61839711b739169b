//! Searching, splitting and joining texts.
use crate::text;
use vstd::prelude::*;

verus! {

// ---------------------------------------------------------------------------
// Searching
// ---------------------------------------------------------------------------
/// Whether `sub` stands in `s` at position `i`.
pub open spec fn occurs_at(s: Seq<char>, sub: Seq<char>, i: int) -> bool {
    &&& 0 <= i
    &&& i + sub.len() <= s.len()
    &&& s.subrange(i, i + sub.len()) == sub
}

/// Whether `sub` stands somewhere in `s`.
pub open spec fn occurs(s: Seq<char>, sub: Seq<char>) -> bool {
    exists|i: int| occurs_at(s, sub, i)
}

/// Whether `s` begins with `prefix`.
pub open spec fn begins(s: Seq<char>, prefix: Seq<char>) -> bool {
    occurs_at(s, prefix, 0)
}

/// Whether `s` ends with `suffix`.
pub open spec fn ends(s: Seq<char>, suffix: Seq<char>) -> bool {
    occurs_at(s, suffix, s.len() - suffix.len())
}

fn matches_at(s: &Vec<char>, sub: &Vec<char>, i: usize) -> (r: bool)
    requires
        i + sub@.len() <= s@.len(),
    ensures
        r == occurs_at(s@, sub@, i as int),
{
    let n: usize = s.len();
    let mut k: usize = 0;
    while k < sub.len()
        invariant
            n == s@.len(),
            i + sub@.len() <= s@.len(),
            0 <= k <= sub@.len(),
            forall|m: int| 0 <= m < k ==> s@[i + m] == #[trigger] sub@[m],
        decreases sub@.len() - k,
    {
        if s[i + k] != sub[k] {
            assert(s@.subrange(i as int, i + sub@.len())[k as int] != sub@[k as int]);
            return false;
        }
        k += 1;
    }
    assert(s@.subrange(i as int, i + sub@.len()) =~= sub@);
    true
}

/// Whether `sub` stands somewhere in `s`.
pub fn contains(s: &str, sub: &str) -> (r: bool)
    ensures
        r == occurs(s@, sub@),
{
    let v = text::chars_of(s);
    let w = text::chars_of(sub);
    if w.len() > v.len() {
        return false;
    }
    let last: usize = v.len() - w.len();
    let mut i: usize = 0;
    while i <= last
        invariant
            v@ == s@,
            w@ == sub@,
            w@.len() <= v@.len(),
            last == v@.len() - w@.len(),
            0 <= i <= last + 1,
            forall|k: int| 0 <= k < i ==> !occurs_at(s@, sub@, k),
        decreases last + 1 - i,
    {
        if matches_at(&v, &w, i) {
            return true;
        }
        if i == last {
            return false;
        }
        i += 1;
    }
    false
}

/// Whether `s` begins with `prefix`.
pub fn starts_with(s: &str, prefix: &str) -> (r: bool)
    ensures
        r == begins(s@, prefix@),
{
    let v = text::chars_of(s);
    let w = text::chars_of(prefix);
    w.len() <= v.len() && matches_at(&v, &w, 0)
}

/// Whether `s` ends with `suffix`.
pub fn ends_with(s: &str, suffix: &str) -> (r: bool)
    ensures
        r == ends(s@, suffix@),
{
    let v = text::chars_of(s);
    let w = text::chars_of(suffix);
    w.len() <= v.len() && matches_at(&v, &w, v.len() - w.len())
}

/// What follows `prefix` in `s`, if `s` begins with it.
pub open spec fn after_prefix(s: Seq<char>, prefix: Seq<char>) -> Option<Seq<char>> {
    if begins(s, prefix) {
        Some(s.skip(prefix.len() as int))
    } else {
        None
    }
}

/// What follows `prefix` in `s`, if `s` begins with it.
pub fn strip_prefix(s: &str, prefix: &str) -> (r: Option<String>)
    ensures
        text::opt_text(r) == after_prefix(s@, prefix@),
{
    if starts_with(s, prefix) {
        let v = text::chars_of(s);
        let w = text::chars_of(prefix);
        let rest = text::string_between(&v, w.len(), v.len());
        assert(rest@ =~= s@.skip(prefix@.len() as int));
        Some(rest)
    } else {
        None
    }
}

/// The position of the first `c` in `s`, or the length of `s` if there is none.
pub open spec fn first_index(s: Seq<char>, c: char) -> int
    decreases s.len(),
{
    if s.len() == 0 || s[0] == c {
        0
    } else {
        1 + first_index(s.drop_first(), c)
    }
}

/// The position of the last `c` in `s`, or -1 if there is none.
pub open spec fn last_index(s: Seq<char>, c: char) -> int
    decreases s.len(),
{
    if s.len() == 0 || s.last() == c {
        s.len() - 1
    } else {
        last_index(s.drop_last(), c)
    }
}

/// The first `c` of `s` stands where none stands before it.
pub proof fn lemma_first_index_is(s: Seq<char>, c: char, i: int)
    requires
        0 <= i <= s.len(),
        forall|k: int| 0 <= k < i ==> #[trigger] s[k] != c,
        i < s.len() ==> s[i] == c,
    ensures
        first_index(s, c) == i,
    decreases i,
{
    if i > 0 {
        assert(s[0] != c);
        let t = s.drop_first();
        assert forall|k: int| 0 <= k < i - 1 implies #[trigger] t[k] != c by {
            assert(t[k] == s[k + 1]);
        }
        lemma_first_index_is(t, c, i - 1);
    }
}

/// The first `c` of `s` stands at `first_index`, and none before it.
pub proof fn lemma_first_index(s: Seq<char>, c: char)
    ensures
        0 <= first_index(s, c) <= s.len(),
        first_index(s, c) < s.len() ==> s[first_index(s, c)] == c,
        forall|k: int| 0 <= k < first_index(s, c) ==> #[trigger] s[k] != c,
    decreases s.len(),
{
    if s.len() > 0 && s[0] != c {
        let t = s.drop_first();
        lemma_first_index(t, c);
        assert forall|k: int| 0 <= k < first_index(s, c) implies #[trigger] s[k] != c by {
            if k > 0 {
                assert(t[k - 1] == s[k]);
            }
        }
    }
}

/// Where the last `c` stands, if it is known.
pub proof fn lemma_last_index_is(s: Seq<char>, c: char, i: int)
    requires
        -1 <= i < s.len(),
        forall|k: int| i < k < s.len() ==> #[trigger] s[k] != c,
        i >= 0 ==> s[i] == c,
    ensures
        last_index(s, c) == i,
    decreases s.len(),
{
    if i < s.len() - 1 {
        assert(s[s.len() - 1] != c);
        let t = s.drop_last();
        assert forall|k: int| i < k < t.len() implies #[trigger] t[k] != c by {
            assert(t[k] == s[k]);
        }
        lemma_last_index_is(t, c, i);
    }
}

/// The position of the first `c` in `v`, or the length of `v`.
pub fn find_char(v: &Vec<char>, c: char) -> (i: usize)
    ensures
        i as int == first_index(v@, c),
        i <= v@.len(),
        i < v@.len() ==> v@[i as int] == c,
{
    let mut i: usize = 0;
    while i < v.len() && v[i] != c
        invariant
            0 <= i <= v@.len(),
            forall|k: int| 0 <= k < i ==> #[trigger] v@[k] != c,
        decreases v@.len() - i,
    {
        i += 1;
    }
    proof {
        lemma_first_index_is(v@, c, i as int);
    }
    i
}

/// The position of the last `c` in `v`.
pub fn rfind_char(v: &Vec<char>, c: char) -> (r: Option<usize>)
    ensures
        match r {
            Some(i) => i as int == last_index(v@, c) && i < v@.len(),
            None => last_index(v@, c) == -1,
        },
{
    let mut i: usize = v.len();
    while i > 0 && v[i - 1] != c
        invariant
            0 <= i <= v@.len(),
            forall|k: int| i <= k < v@.len() ==> #[trigger] v@[k] != c,
        decreases i,
    {
        i -= 1;
    }
    proof {
        lemma_last_index_is(v@, c, i - 1);
    }
    if i == 0 {
        None
    } else {
        Some(i - 1)
    }
}

// ---------------------------------------------------------------------------
// Splitting
// ---------------------------------------------------------------------------
/// The pieces of `s` between the occurrences of `sep`. There is always at least
/// one piece, and a piece may be empty.
pub open spec fn pieces(s: Seq<char>, sep: char) -> Seq<Seq<char>>
    decreases s.len(),
{
    if s.len() == 0 {
        seq![Seq::<char>::empty()]
    } else {
        let before = pieces(s.drop_last(), sep);
        if s.last() == sep {
            before.push(Seq::<char>::empty())
        } else {
            before.drop_last().push(before.last().push(s.last()))
        }
    }
}

/// There is at least one piece.
pub proof fn lemma_pieces_nonempty(s: Seq<char>, sep: char)
    ensures
        pieces(s, sep).len() > 0,
    decreases s.len(),
{
    if s.len() > 0 {
        lemma_pieces_nonempty(s.drop_last(), sep);
    }
}

/// The pieces of `s` between the occurrences of `sep`.
pub fn split(s: &str, sep: char) -> (r: Vec<String>)
    ensures
        text::texts(r@) == pieces(s@, sep),
        r@.len() > 0,
{
    broadcast use text::lemma_texts_push;

    let v = text::chars_of(s);
    let mut out: Vec<String> = Vec::new();
    let mut cur = String::new();
    let mut i: usize = 0;
    assert(text::texts(out@).push(cur@) =~= pieces(v@.take(0), sep));
    while i < v.len()
        invariant
            v@ == s@,
            0 <= i <= v@.len(),
            text::texts(out@).push(cur@) == pieces(v@.take(i as int), sep),
        decreases v@.len() - i,
    {
        let ghost before = pieces(v@.take(i as int), sep);
        assert(v@.take(i + 1).drop_last() =~= v@.take(i as int));
        assert(before.drop_last() =~= text::texts(out@));
        if v[i] == sep {
            out.push(cur);
            cur = String::new();
            assert(text::texts(out@) == before);
        } else {
            cur.push(v[i]);
        }
        i += 1;
    }
    assert(v@.take(i as int) =~= s@);
    out.push(cur);
    out
}

/// What stands before and after the first `c` of `s`, if `s` holds one.
pub open spec fn around_first(s: Seq<char>, c: char) -> Option<(Seq<char>, Seq<char>)> {
    let i = first_index(s, c);
    if i < s.len() {
        Some((s.take(i), s.skip(i + 1)))
    } else {
        None
    }
}

/// What stands before and after the first `c` of `s`, if `s` holds one.
pub fn split_once(s: &str, c: char) -> (r: Option<(String, String)>)
    ensures
        match r {
            Some((a, b)) => around_first(s@, c) == Some((a@, b@)),
            None => around_first(s@, c) is None,
        },
{
    let v = text::chars_of(s);
    let i: usize = find_char(&v, c);
    if i < v.len() {
        let a = text::string_between(&v, 0, i);
        let b = text::string_between(&v, i + 1, v.len());
        assert(a@ =~= s@.take(i as int));
        assert(b@ =~= s@.skip(i + 1));
        Some((a, b))
    } else {
        None
    }
}

/// The number of characters before the first white space of `s`.
pub open spec fn word_len(s: Seq<char>) -> int
    decreases s.len(),
{
    if s.len() == 0 || text::is_white(s[0]) {
        0
    } else {
        1 + word_len(s.drop_first())
    }
}

/// The second of the words of `s` that white space separates.
pub open spec fn second_word(s: Seq<char>) -> Option<Seq<char>> {
    let from_first = text::trim_start(s);
    let from_second = text::trim_start(from_first.skip(word_len(from_first)));
    if from_second.len() == 0 {
        None
    } else {
        Some(from_second.take(word_len(from_second)))
    }
}

proof fn lemma_word_len_step(s: Seq<char>, i: int)
    requires
        0 <= i < s.len(),
    ensures
        text::is_white(s[i]) ==> word_len(s.skip(i)) == 0,
        !text::is_white(s[i]) ==> word_len(s.skip(i)) == 1 + word_len(s.skip(i + 1)),
{
    assert(s.skip(i)[0] == s[i]);
    assert(s.skip(i).drop_first() =~= s.skip(i + 1));
}

proof fn lemma_trim_start_step(s: Seq<char>, i: int)
    requires
        0 <= i <= s.len(),
    ensures
        i < s.len() && text::is_white(s[i]) ==> text::trim_start(s.skip(i)) == text::trim_start(s.skip(i + 1)),
        i < s.len() && !text::is_white(s[i]) ==> text::trim_start(s.skip(i)) == s.skip(i),
        i == s.len() ==> text::trim_start(s.skip(i)) == s.skip(i),
{
    if i < s.len() {
        assert(s.skip(i)[0] == s[i]);
        assert(s.skip(i).drop_first() =~= s.skip(i + 1));
    }
}

fn skip_white(v: &Vec<char>, from: usize) -> (i: usize)
    requires
        from <= v@.len(),
    ensures
        from <= i <= v@.len(),
        text::trim_start(v@.skip(from as int)) == v@.skip(i as int),
{
    let mut i: usize = from;
    while i < v.len() && text::white(v[i])
        invariant
            from <= i <= v@.len(),
            text::trim_start(v@.skip(from as int)) == text::trim_start(v@.skip(i as int)),
        decreases v@.len() - i,
    {
        proof {
            lemma_trim_start_step(v@, i as int);
        }
        i += 1;
    }
    proof {
        lemma_trim_start_step(v@, i as int);
    }
    i
}

fn skip_word(v: &Vec<char>, from: usize) -> (i: usize)
    requires
        from <= v@.len(),
    ensures
        from <= i <= v@.len(),
        word_len(v@.skip(from as int)) == i - from,
{
    let mut i: usize = from;
    while i < v.len() && !text::white(v[i])
        invariant
            from <= i <= v@.len(),
            word_len(v@.skip(from as int)) == i - from + word_len(v@.skip(i as int)),
        decreases v@.len() - i,
    {
        proof {
            lemma_word_len_step(v@, i as int);
        }
        i += 1;
    }
    proof {
        if i < v.len() {
            lemma_word_len_step(v@, i as int);
        }
    }
    i
}

/// The second of the words of `s` that white space separates.
pub fn word_two(s: &str) -> (r: Option<String>)
    ensures
        text::opt_text(r) == second_word(s@),
{
    let v = text::chars_of(s);
    assert(v@.skip(0) =~= s@);
    let a: usize = skip_white(&v, 0);
    let b: usize = skip_word(&v, a);
    assert(v@.skip(a as int).skip(b - a) =~= v@.skip(b as int));
    let c: usize = skip_white(&v, b);
    if c == v.len() {
        return None;
    }
    let d: usize = skip_word(&v, c);
    let word = text::string_between(&v, c, d);
    assert(word@ =~= v@.skip(c as int).take(d - c));
    Some(word)
}

// ---------------------------------------------------------------------------
// Joining
// ---------------------------------------------------------------------------
/// The texts of `parts` one after the other, with `sep` between two of them.
pub open spec fn joined(parts: Seq<Seq<char>>, sep: Seq<char>) -> Seq<char>
    decreases parts.len(),
{
    if parts.len() <= 1 {
        if parts.len() == 1 {
            parts.first()
        } else {
            Seq::empty()
        }
    } else {
        joined(parts.drop_last(), sep) + (sep + parts.last())
    }
}

/// The texts of `parts` one after the other, with `sep` between two of them.
pub fn join(parts: &Vec<String>, sep: &str) -> (r: String)
    ensures
        r@ == joined(text::texts(parts@), sep@),
{
    let mut out = String::new();
    let mut i: usize = 0;
    while i < parts.len()
        invariant
            0 <= i <= parts@.len(),
            out@ == joined(text::texts(parts@).take(i as int), sep@),
        decreases parts@.len() - i,
    {
        if i > 0 {
            out.append(sep);
        }
        out.append(parts[i].as_str());
        proof {
            let all = text::texts(parts@);
            assert(all.take(i + 1).drop_last() =~= all.take(i as int));
            assert(all.take(i + 1).last() == parts@[i as int]@);
            assert(out@ =~= joined(all.take(i + 1), sep@));
        }
        i += 1;
    }
    assert(text::texts(parts@).take(i as int) =~= text::texts(parts@));
    out
}

// ---------------------------------------------------------------------------
// Words and pieces that are known
// ---------------------------------------------------------------------------
/// The first word ends where the first white space stands.
pub proof fn lemma_word_len_is(s: Seq<char>, n: int)
    requires
        0 <= n <= s.len(),
        forall|k: int| 0 <= k < n ==> !text::is_white(#[trigger] s[k]),
        n < s.len() ==> text::is_white(s[n]),
    ensures
        word_len(s) == n,
    decreases n,
{
    if n > 0 {
        assert(!text::is_white(s[0]));
        let t = s.drop_first();
        assert forall|k: int| 0 <= k < n - 1 implies !text::is_white(#[trigger] t[k]) by {
            assert(t[k] == s[k + 1]);
        }
        lemma_word_len_is(t, n - 1);
    }
}

/// A text without a separator is one piece.
pub proof fn lemma_one_piece(s: Seq<char>, sep: char)
    requires
        !s.contains(sep),
    ensures
        pieces(s, sep) == seq![s],
    decreases s.len(),
{
    if s.len() == 0 {
        assert(s =~= Seq::<char>::empty());
    } else {
        let t = s.drop_last();
        assert forall|k: int| 0 <= k < t.len() implies #[trigger] t[k] != sep by {
            assert(t[k] == s[k]);
        }
        assert(s[s.len() - 1] != sep);
        lemma_one_piece(t, sep);
        assert(t.push(s.last()) =~= s);
        assert(pieces(s, sep) =~= seq![s]);
    }
}

/// A separator and a text without one add one piece.
pub proof fn lemma_piece_added(a: Seq<char>, b: Seq<char>, sep: char)
    requires
        !b.contains(sep),
    ensures
        pieces(a + seq![sep] + b, sep) == pieces(a, sep).push(b),
    decreases b.len(),
{
    let s = a + seq![sep] + b;
    if b.len() == 0 {
        assert(s.drop_last() =~= a);
        assert(b =~= Seq::<char>::empty());
    } else {
        let c = b.drop_last();
        assert forall|k: int| 0 <= k < c.len() implies #[trigger] c[k] != sep by {
            assert(c[k] == b[k]);
        }
        assert(b[b.len() - 1] != sep);
        lemma_piece_added(a, c, sep);
        assert(s.drop_last() =~= a + seq![sep] + c);
        assert(c.push(b.last()) =~= b);
        assert(pieces(s, sep) =~= pieces(a, sep).push(b));
    }
}

// ---------------------------------------------------------------------------
// Laws
// ---------------------------------------------------------------------------
/// The pieces of a text hold no separator, and joined by it make up the text
/// again.
pub proof fn pieces_join_again(s: Seq<char>, sep: char)
    ensures
        joined(pieces(s, sep), seq![sep]) == s,
        forall|i: int| 0 <= i < pieces(s, sep).len() ==> !(#[trigger] pieces(s, sep)[i]).contains(sep),
    decreases s.len(),
{
    let parts = pieces(s, sep);
    if s.len() == 0 {
        assert(joined(parts, seq![sep]) =~= s);
    } else {
        let t = s.drop_last();
        let before = pieces(t, sep);
        pieces_join_again(t, sep);
        lemma_pieces_nonempty(t, sep);
        assert(s =~= t.push(s.last()));
        if s.last() == sep {
            assert(parts.drop_last() =~= before);
            assert(joined(parts, seq![sep]) =~= t + (seq![sep] + Seq::<char>::empty()));
            assert(joined(parts, seq![sep]) =~= s);
            assert forall|i: int| 0 <= i < parts.len() implies !(#[trigger] parts[i]).contains(
                sep,
            ) by {
                if i < before.len() {
                    assert(parts[i] == before[i]);
                }
            }
        } else {
            assert(parts.drop_last() =~= before.drop_last());
            assert forall|i: int| 0 <= i < parts.len() implies !(#[trigger] parts[i]).contains(
                sep,
            ) by {
                assert(!before[i].contains(sep));
                if i == parts.len() - 1 {
                    assert(parts[i] == before[i].push(s.last()));
                    if parts[i].contains(sep) {
                        let k = choose|k: int| 0 <= k < parts[i].len() && parts[i][k] == sep;
                        assert(before[i][k] == sep);
                    }
                } else {
                    assert(parts[i] == before[i]);
                }
            }
            if before.len() == 1 {
                assert(joined(parts, seq![sep]) =~= s);
            } else {
                assert(joined(parts, seq![sep]) =~= joined(before.drop_last(), seq![sep]) + (
                seq![sep] + before.last().push(s.last())));
                assert(joined(parts, seq![sep]) =~= joined(before, seq![sep]).push(s.last()));
            }
        }
    }
}

/// A text is cut at the first of the characters: what stands before it holds none.
pub proof fn a_text_is_cut_at_the_first(before: Seq<char>, c: char, after: Seq<char>)
    requires
        !before.contains(c),
    ensures
        around_first(before + seq![c] + after, c) == Some((before, after)),
        around_first(before, c) is None,
{
    let s = before + seq![c] + after;
    assert forall|k: int| 0 <= k < before.len() implies #[trigger] s[k] != c by {
        assert(s[k] == before[k]);
    }
    lemma_first_index_is(s, c, before.len() as int);
    assert(s.take(before.len() as int) =~= before);
    assert(s.skip(before.len() as int + 1) =~= after);
    assert forall|k: int| 0 <= k < before.len() implies #[trigger] before[k] != c by {
        assert(before.contains(before[k]));
    }
    lemma_first_index_is(before, c, before.len() as int);
}

/// What is joined holds each of its parts.
pub proof fn joined_texts_hold_their_parts(parts: Seq<Seq<char>>, sep: Seq<char>, i: int)
    requires
        0 <= i < parts.len(),
    ensures
        occurs(joined(parts, sep), parts[i]),
    decreases parts.len(),
{
    let all = joined(parts, sep);
    if parts.len() == 1 {
        assert(occurs_at(all, parts[i], 0)) by {
            assert(all.subrange(0, all.len() as int) =~= parts[0]);
        }
    } else {
        let before = parts.drop_last();
        let start = joined(before, sep);
        if i < before.len() {
            joined_texts_hold_their_parts(before, sep, i);
            let k = choose|k: int| occurs_at(start, before[i], k);
            assert(all.subrange(k, k + parts[i].len()) =~= start.subrange(
                k,
                k + parts[i].len(),
            ));
            assert(occurs_at(all, parts[i], k));
        } else {
            let k = (start.len() + sep.len()) as int;
            assert(all.subrange(k, k + parts[i].len()) =~= parts[i]);
            assert(occurs_at(all, parts[i], k));
        }
    }
}

/// Two parts are joined by the separator alone.
pub proof fn parts_are_joined_by_the_separator(parts: Seq<Seq<char>>, last: Seq<char>, sep: Seq<char>)
    ensures
        joined(seq![last], sep) == last,
        parts.len() > 0 ==> joined(parts.push(last), sep) == joined(parts, sep) + sep + last,
{
    if parts.len() > 0 {
        assert(parts.push(last).drop_last() =~= parts);
        assert(joined(parts.push(last), sep) =~= joined(parts, sep) + sep + last);
    }
}

/// A text occurs where something stands before and behind it, begins what it
/// stands first in, and ends what it stands last in.
pub proof fn texts_are_found_where_they_stand(before: Seq<char>, s: Seq<char>, after: Seq<char>)
    ensures
        occurs(before + s + after, s),
        begins(s + after, s),
        ends(before + s, s),
        after_prefix(s + after, s) == Some(after),
{
    let all = before + s + after;
    assert(all.subrange(before.len() as int, (before.len() + s.len()) as int) =~= s);
    assert(occurs_at(all, s, before.len() as int));
    assert((s + after).subrange(0, s.len() as int) =~= s);
    assert((before + s).subrange(before.len() as int, (before + s).len() as int) =~= s);
    assert((s + after).skip(s.len() as int) =~= after);
}

} // verus!
