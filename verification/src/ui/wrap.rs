//! Greedy word wrapping.
use crate::text;
use crate::words;
use vstd::prelude::*;

verus! {

/// Lines that are finished, and the line that is being filled.
#[verifier::ext_equal]
pub struct Lines {
    /// The lines that nothing more is put on.
    pub done: Seq<Seq<char>>,
    /// The line that the next word may go on.
    pub open: Seq<char>,
}

/// A word cut into pieces of `width` characters, the last of which may be
/// shorter.
pub open spec fn chunks(word: Seq<char>, width: nat) -> Seq<Seq<char>>
    decreases word.len(),
{
    if width == 0 || word.len() <= width {
        seq![word]
    } else {
        seq![word.take(width as int)] + chunks(word.skip(width as int), width)
    }
}

/// The lines after `word` was put behind what is there: on the open line, after
/// a space, if it fits; else on a line of its own. A word longer than a line is
/// cut.
pub open spec fn place(l: Lines, word: Seq<char>, width: nat) -> Lines {
    if word.len() > width {
        let parts = chunks(word, width);
        let before = if l.open.len() > 0 {
            l.done.push(l.open)
        } else {
            l.done
        };
        Lines { done: before + parts.drop_last(), open: parts.last() }
    } else if l.open.len() == 0 {
        Lines { done: l.done, open: word }
    } else if l.open.len() + 1 + word.len() > width {
        Lines { done: l.done.push(l.open), open: word }
    } else {
        Lines { done: l.done, open: l.open.push(' ') + word }
    }
}

/// The lines after all of `all` were placed in turn.
pub open spec fn placed(all: Seq<Seq<char>>, width: nat) -> Lines
    decreases all.len(),
{
    if all.len() == 0 {
        Lines { done: Seq::empty(), open: Seq::empty() }
    } else {
        place(placed(all.drop_last(), width), all.last(), width)
    }
}

/// `s` wrapped to `width` columns at its spaces.
pub open spec fn wrapped(s: Seq<char>, width: nat) -> Seq<Seq<char>> {
    if width == 0 {
        seq![s]
    } else {
        let l = placed(words::pieces(s, ' '), width);
        if l.open.len() > 0 || l.done.len() == 0 {
            l.done.push(l.open)
        } else {
            l.done
        }
    }
}

proof fn lemma_chunks_nonempty(word: Seq<char>, width: nat)
    ensures
        chunks(word, width).len() > 0,
    decreases word.len(),
{
    if width != 0 && word.len() > width {
        lemma_chunks_nonempty(word.skip(width as int), width);
    }
}

/// Cuts a word that is longer than a line: pushes the full pieces to `lines`
/// and returns the last piece.
fn cut_word(lines: &mut Vec<String>, word: &Vec<char>, width: usize) -> (last: String)
    requires
        width > 0,
    ensures
        text::texts(final(lines)@) == text::texts(old(lines)@) + chunks(
            word@,
            width as nat,
        ).drop_last(),
        last@ == chunks(word@, width as nat).last(),
{
    broadcast use text::lemma_texts_push;

    let n: usize = word.len();
    let mut from: usize = 0;
    let ghost all = chunks(word@, width as nat);
    let ghost base = text::texts(lines@);
    assert(word@.skip(0) =~= word@);
    assert(text::texts(lines@) + chunks(word@.skip(0), width as nat) =~= base + all);
    while n - from > width
        invariant
            width > 0,
            n == word@.len(),
            from <= n,
            text::texts(lines@) + chunks(word@.skip(from as int), width as nat) == base + all,
        decreases n - from,
    {
        let piece = text::string_between(word, from, from + width);
        proof {
            let rest = word@.skip(from as int);
            assert(rest.take(width as int) =~= piece@);
            assert(rest.skip(width as int) =~= word@.skip(from + width));
            let tail = chunks(word@.skip(from + width), width as nat);
            assert(chunks(rest, width as nat) == seq![piece@] + tail);
            assert(text::texts(lines@) + (seq![piece@] + tail) =~= text::texts(lines@).push(piece@)
                + tail);
        }
        lines.push(piece);
        from += width;
    }
    let last = text::string_between(word, from, n);
    proof {
        assert(last@ =~= word@.skip(from as int));
        let now = text::texts(lines@);
        assert(now.push(last@) =~= now + seq![last@]);
        lemma_chunks_nonempty(word@, width as nat);
        assert((base + all).last() == all.last());
        assert((base + all).drop_last() =~= base + all.drop_last());
        assert(now.push(last@).last() == last@);
        assert(now.push(last@).drop_last() =~= now);
    }
    last
}

/// Greedy word-wrap to `width` columns, hard-breaking words longer than the
/// width. Always yields at least one (possibly empty) line.
pub fn wrap_line(s: &str, width: usize) -> (r: Vec<String>)
    ensures
        text::texts(r@) == wrapped(s@, width as nat),
{
    broadcast use text::lemma_texts_push;

    let mut lines: Vec<String> = Vec::new();
    if width == 0 {
        lines.push(text::owned(s));
        assert(text::texts(lines@) =~= wrapped(s@, width as nat));
        return lines;
    }
    let parts = words::split(s, ' ');
    let ghost all = words::pieces(s@, ' ');
    let mut open = String::new();
    let mut open_len: usize = 0;
    let mut i: usize = 0;
    assert(text::texts(lines@) =~= Seq::<Seq<char>>::empty());
    while i < parts.len()
        invariant
            width > 0,
            all == text::texts(parts@),
            0 <= i <= parts@.len(),
            open_len == open@.len(),
            open_len <= width,
            placed(all.take(i as int), width as nat) == (Lines {
                done: text::texts(lines@),
                open: open@,
            }),
        decreases parts@.len() - i,
    {
        let word = text::chars_of(parts[i].as_str());
        let len: usize = word.len();
        let ghost before = Lines { done: text::texts(lines@), open: open@ };
        proof {
            assert(all.take(i + 1).drop_last() =~= all.take(i as int));
            assert(all.take(i + 1).last() == word@);
        }
        if len > width {
            if open_len > 0 {
                lines.push(open);
            }
            open = cut_word(&mut lines, &word, width);
            open_len = text::chars_of(open.as_str()).len();
            proof {
                lemma_chunk_bounds(word@, width as nat);
                assert(place(before, word@, width as nat).done =~= text::texts(lines@));
            }
        } else if open_len == 0 {
            open = text::string_between(&word, 0, len);
            open_len = len;
            assert(open@ =~= word@);
        } else if width - open_len <= len {
            lines.push(open);
            open = text::string_between(&word, 0, len);
            open_len = len;
            assert(open@ =~= word@);
        } else {
            open.push(' ');
            open.append(parts[i].as_str());
            open_len = open_len + 1 + len;
        }
        assert(place(before, word@, width as nat) =~= (Lines {
            done: text::texts(lines@),
            open: open@,
        }));
        i += 1;
    }
    assert(all.take(i as int) =~= all);
    if open_len > 0 || lines.len() == 0 {
        lines.push(open);
    }
    lines
}

proof fn lemma_chunk_bounds(word: Seq<char>, width: nat)
    requires
        width > 0,
    ensures
        forall|k: int|
            0 <= k < chunks(word, width).len() ==> (#[trigger] chunks(word, width)[k]).len()
                <= width,
        chunks(word, width).len() > 0,
        word.len() > 0 ==> chunks(word, width).last().len() > 0,
    decreases word.len(),
{
    if word.len() > width {
        let rest = word.skip(width as int);
        lemma_chunk_bounds(rest, width);
        let tail = chunks(rest, width);
        assert forall|k: int| 0 <= k < chunks(word, width).len() implies (#[trigger] chunks(
            word,
            width,
        )[k]).len() <= width by {
            if k > 0 {
                assert(chunks(word, width)[k] == tail[k - 1]);
            }
        }
        assert(chunks(word, width).last() == tail.last());
    }
}

// ---------------------------------------------------------------------------
// Laws
// ---------------------------------------------------------------------------
proof fn lemma_placed_bounds(all: Seq<Seq<char>>, width: nat)
    requires
        width > 0,
    ensures
        placed(all, width).open.len() <= width,
        forall|k: int|
            0 <= k < placed(all, width).done.len() ==> (#[trigger] placed(
                all,
                width,
            ).done[k]).len() <= width,
    decreases all.len(),
{
    if all.len() > 0 {
        lemma_placed_bounds(all.drop_last(), width);
        lemma_chunk_bounds(all.last(), width);
    }
}

/// No line is wider than asked for, and there is always a line.
pub proof fn lines_fit(s: Seq<char>, width: nat)
    requires
        width > 0,
    ensures
        wrapped(s, width).len() > 0,
        forall|k: int|
            0 <= k < wrapped(s, width).len() ==> (#[trigger] wrapped(s, width)[k]).len() <= width,
{
    lemma_placed_bounds(words::pieces(s, ' '), width);
}

/// A text that is no wider than a line, and does not begin with a space, is
/// shown as it is.
pub proof fn short_text_is_kept(s: Seq<char>, width: nat)
    requires
        width > 0,
        s.len() <= width,
        s.len() > 0 ==> s[0] != ' ',
    ensures
        wrapped(s, width) == seq![s],
{
    lemma_short_text_placed(s, width);
    assert(wrapped(s, width) =~= seq![s]);
}

proof fn lemma_short_text_placed(s: Seq<char>, width: nat)
    requires
        width > 0,
        s.len() <= width,
        s.len() > 0 ==> s[0] != ' ',
    ensures
        placed(words::pieces(s, ' '), width) == (Lines { done: Seq::empty(), open: s }),
    decreases s.len(),
{
    let now = words::pieces(s, ' ');
    if s.len() == 0 {
        assert(now.drop_last() =~= Seq::<Seq<char>>::empty());
        assert(now.last() =~= s);
        assert(placed(now.drop_last(), width).done =~= Seq::<Seq<char>>::empty());
    } else {
        let t = s.drop_last();
        let before = words::pieces(t, ' ');
        words::lemma_pieces_nonempty(t, ' ');
        lemma_short_text_placed(t, width);
        if s.last() == ' ' {
            assert(now.drop_last() =~= before);
            assert(now.last() =~= Seq::<char>::empty());
            assert(t.push(' ') + Seq::<char>::empty() =~= s);
            assert(t[0] == s[0]);
        } else {
            let earlier = placed(before.drop_last(), width);
            let w = before.last();
            assert(place(earlier, w, width).open == t);
            assert(now.drop_last() =~= before.drop_last());
            assert(now.last() =~= w.push(s.last()));
            if earlier.open.len() == 0 {
                assert(w.push(s.last()) =~= s);
            } else {
                assert(earlier.open.push(' ') + w.push(s.last()) =~= (earlier.open.push(' ')
                    + w).push(s.last()));
                assert(t.push(s.last()) =~= s);
            }
        }
    }
}

/// The characters of `s` that are not spaces.
pub open spec fn ink(s: Seq<char>) -> Seq<char>
    decreases s.len(),
{
    if s.len() == 0 {
        s
    } else if s.last() == ' ' {
        ink(s.drop_last())
    } else {
        ink(s.drop_last()).push(s.last())
    }
}

/// The characters of the lines `l`, but for spaces.
pub open spec fn ink_of(l: Seq<Seq<char>>) -> Seq<char>
    decreases l.len(),
{
    if l.len() == 0 {
        Seq::empty()
    } else {
        ink_of(l.drop_last()) + ink(l.last())
    }
}

proof fn lemma_ink_add(a: Seq<char>, b: Seq<char>)
    ensures
        ink(a + b) == ink(a) + ink(b),
    decreases b.len(),
{
    if b.len() == 0 {
        assert(a + b =~= a);
        assert(ink(a) + ink(b) =~= ink(a));
    } else {
        lemma_ink_add(a, b.drop_last());
        assert((a + b).drop_last() =~= a + b.drop_last());
        assert((a + b).last() == b.last());
        assert(ink(a + b) =~= ink(a) + ink(b));
    }
}

proof fn lemma_ink_of_add(a: Seq<Seq<char>>, b: Seq<Seq<char>>)
    ensures
        ink_of(a + b) == ink_of(a) + ink_of(b),
    decreases b.len(),
{
    if b.len() == 0 {
        assert(a + b =~= a);
        assert(ink_of(a) + ink_of(b) =~= ink_of(a));
    } else {
        lemma_ink_of_add(a, b.drop_last());
        assert((a + b).drop_last() =~= a + b.drop_last());
        assert(ink_of(a + b) =~= ink_of(a) + ink_of(b));
    }
}

proof fn lemma_ink_of_push(a: Seq<Seq<char>>, s: Seq<char>)
    ensures
        ink_of(a.push(s)) == ink_of(a) + ink(s),
{
    assert(a.push(s).drop_last() =~= a);
}

proof fn lemma_ink_of_chunks(word: Seq<char>, width: nat)
    ensures
        ink_of(chunks(word, width)) == ink(word),
    decreases word.len(),
{
    let c = chunks(word, width);
    if width == 0 || word.len() <= width {
        assert(c =~= Seq::<Seq<char>>::empty().push(word));
        lemma_ink_of_push(Seq::empty(), word);
        assert(Seq::<char>::empty() + ink(word) =~= ink(word));
    } else {
        let head = word.take(width as int);
        let rest = word.skip(width as int);
        lemma_ink_of_chunks(rest, width);
        lemma_ink_of_add(seq![head], chunks(rest, width));
        assert(seq![head] =~= Seq::<Seq<char>>::empty().push(head));
        lemma_ink_of_push(Seq::empty(), head);
        assert(Seq::<char>::empty() + ink(head) =~= ink(head));
        lemma_ink_add(head, rest);
        assert(head + rest =~= word);
    }
}

proof fn lemma_place_ink(l: Lines, word: Seq<char>, width: nat)
    ensures
        ink_of(place(l, word, width).done) + ink(place(l, word, width).open) == ink_of(l.done)
            + ink(l.open) + ink(word),
{
    let p = place(l, word, width);
    if word.len() > width {
        let parts = chunks(word, width);
        lemma_chunks_nonempty(word, width);
        lemma_ink_of_chunks(word, width);
        let before = if l.open.len() > 0 {
            l.done.push(l.open)
        } else {
            l.done
        };
        lemma_ink_of_push(l.done, l.open);
        assert(ink_of(before) =~= ink_of(l.done) + ink(l.open));
        lemma_ink_of_add(before, parts.drop_last());
        assert(ink_of(p.done) + ink(p.open) =~= ink_of(before) + (ink_of(parts.drop_last()) + ink(
            parts.last(),
        )));
        assert(ink_of(parts.drop_last()) + ink(parts.last()) == ink_of(parts));
    } else if l.open.len() == 0 {
        assert(ink_of(l.done) + ink(l.open) =~= ink_of(l.done));
    } else if l.open.len() + 1 + word.len() > width {
        lemma_ink_of_push(l.done, l.open);
    } else {
        lemma_ink_add(l.open.push(' '), word);
        assert(l.open.push(' ').drop_last() =~= l.open);
        assert(ink_of(p.done) + ink(p.open) =~= ink_of(l.done) + ink(l.open) + ink(word));
    }
}

proof fn lemma_placed_ink(all: Seq<Seq<char>>, width: nat)
    ensures
        ink_of(placed(all, width).done) + ink(placed(all, width).open) == ink_of(all),
    decreases all.len(),
{
    if all.len() == 0 {
        assert(Seq::<char>::empty() + Seq::<char>::empty() =~= Seq::<char>::empty());
    } else {
        lemma_placed_ink(all.drop_last(), width);
        lemma_place_ink(placed(all.drop_last(), width), all.last(), width);
    }
}

proof fn lemma_pieces_ink(s: Seq<char>)
    ensures
        ink_of(words::pieces(s, ' ')) == ink(s),
    decreases s.len(),
{
    let now = words::pieces(s, ' ');
    if s.len() == 0 {
        assert(s =~= Seq::<char>::empty());
        assert(now =~= Seq::<Seq<char>>::empty().push(s));
        lemma_ink_of_push(Seq::empty(), s);
        assert(ink_of(now) =~= ink(s));
    } else {
        let before = words::pieces(s.drop_last(), ' ');
        words::lemma_pieces_nonempty(s.drop_last(), ' ');
        lemma_pieces_ink(s.drop_last());
        if s.last() == ' ' {
            lemma_ink_of_push(before, Seq::empty());
            assert(ink_of(now) =~= ink(s));
        } else {
            let w = before.last();
            lemma_ink_of_push(before.drop_last(), w.push(s.last()));
            assert(w.push(s.last()).drop_last() =~= w);
            assert(ink_of(now) =~= ink(s));
        }
    }
}

/// Wrapping loses and adds nothing but spaces: the other characters stay, in
/// their order.
pub proof fn wrapping_keeps_the_ink(s: Seq<char>, width: nat)
    ensures
        ink_of(wrapped(s, width)) == ink(s),
{
    if width == 0 {
        assert(wrapped(s, width) =~= Seq::<Seq<char>>::empty().push(s));
        lemma_ink_of_push(Seq::empty(), s);
        assert(Seq::<char>::empty() + ink(s) =~= ink(s));
    } else {
        let all = words::pieces(s, ' ');
        let l = placed(all, width);
        lemma_pieces_ink(s);
        lemma_placed_ink(all, width);
        lemma_ink_of_push(l.done, l.open);
        if !(l.open.len() > 0 || l.done.len() == 0) {
            assert(ink_of(l.done) + ink(l.open) =~= ink_of(l.done));
        }
    }
}

/// What follows line `i`.
pub open spec fn next_line(l: Lines, i: int) -> Seq<char> {
    if i + 1 < l.done.len() {
        l.done[i + 1]
    } else {
        l.open
    }
}

/// Whether no finished line has room for the first word of the next.
pub open spec fn crowded(l: Lines, width: nat) -> bool {
    forall|i: int|
        0 <= i < l.done.len() ==> (#[trigger] l.done[i]).len() + 1 + words::first_index(
            next_line(l, i),
            ' ',
        ) > width
}

proof fn lemma_full_chunks(word: Seq<char>, width: nat, k: int)
    requires
        width > 0,
        !word.contains(' '),
        0 <= k < chunks(word, width).len(),
    ensures
        k < chunks(word, width).len() - 1 ==> chunks(word, width)[k].len() == width,
        !chunks(word, width)[k].contains(' '),
    decreases word.len(),
{
    if word.len() > width {
        let rest = word.skip(width as int);
        let head = word.take(width as int);
        assert(!head.contains(' ')) by {
            if head.contains(' ') {
                let i = choose|i: int| 0 <= i < head.len() && head[i] == ' ';
                assert(word[i] == ' ');
            }
        }
        assert(!rest.contains(' ')) by {
            if rest.contains(' ') {
                let i = choose|i: int| 0 <= i < rest.len() && rest[i] == ' ';
                assert(word[i + width] == ' ');
            }
        }
        if k > 0 {
            lemma_full_chunks(rest, width, k - 1);
        }
    }
}

proof fn lemma_no_space_index(s: Seq<char>)
    requires
        !s.contains(' '),
    ensures
        words::first_index(s, ' ') == s.len(),
{
    assert forall|k: int| 0 <= k < s.len() implies #[trigger] s[k] != ' ' by {
        assert(s.contains(s[k]));
    }
    words::lemma_first_index_is(s, ' ', s.len() as int);
}

proof fn lemma_place_crowded(l: Lines, word: Seq<char>, width: nat)
    requires
        width > 0,
        crowded(l, width),
        !word.contains(' '),
    ensures
        crowded(place(l, word, width), width),
{
    let after = place(l, word, width);
    words::lemma_first_index(l.open, ' ');
    lemma_no_space_index(word);
    if word.len() > width {
        let parts = chunks(word, width);
        lemma_chunks_nonempty(word.skip(width as int), width);
        let before = if l.open.len() > 0 {
            l.done.push(l.open)
        } else {
            l.done
        };
        lemma_full_chunks(word, width, 0);
        lemma_no_space_index(parts[0]);
        assert forall|i: int| 0 <= i < after.done.len() implies (#[trigger] after.done[i]).len() + 1
            + words::first_index(next_line(after, i), ' ') > width by {
            words::lemma_first_index(next_line(after, i), ' ');
            if i < before.len() - 1 {
                assert(after.done[i] == l.done[i]);
                assert(next_line(after, i) == next_line(l, i));
            } else if i == before.len() - 1 {
                assert(next_line(after, i) == parts[0]);
            } else {
                let k = i - before.len();
                lemma_full_chunks(word, width, k);
                assert(after.done[i] == parts[k]);
            }
        }
    } else if l.open.len() == 0 {
        assert forall|i: int| 0 <= i < after.done.len() implies (#[trigger] after.done[i]).len() + 1
            + words::first_index(next_line(after, i), ' ') > width by {
            assert(after.done[i] == l.done[i]);
            if i + 1 < l.done.len() {
                assert(next_line(after, i) == next_line(l, i));
            } else {
                assert(words::first_index(l.open, ' ') == 0);
            }
        }
    } else if l.open.len() + 1 + word.len() > width {
        assert forall|i: int| 0 <= i < after.done.len() implies (#[trigger] after.done[i]).len() + 1
            + words::first_index(next_line(after, i), ' ') > width by {
            if i < l.done.len() {
                assert(after.done[i] == l.done[i]);
                assert(next_line(after, i) == next_line(l, i));
            }
        }
    } else {
        let k = words::first_index(l.open, ' ');
        assert forall|j: int| 0 <= j < k implies #[trigger] after.open[j] != ' ' by {
            assert(after.open[j] == l.open[j]);
        }
        words::lemma_first_index_is(after.open, ' ', k);
        assert forall|i: int| 0 <= i < after.done.len() implies (#[trigger] after.done[i]).len() + 1
            + words::first_index(next_line(after, i), ' ') > width by {
            assert(after.done[i] == l.done[i]);
            if i + 1 < l.done.len() {
                assert(next_line(after, i) == next_line(l, i));
            }
        }
    }
}

proof fn lemma_placed_crowded(all: Seq<Seq<char>>, width: nat)
    requires
        width > 0,
        forall|i: int| 0 <= i < all.len() ==> !(#[trigger] all[i]).contains(' '),
    ensures
        crowded(placed(all, width), width),
    decreases all.len(),
{
    if all.len() > 0 {
        let before = all.drop_last();
        assert forall|i: int| 0 <= i < before.len() implies !(#[trigger] before[i]).contains(
            ' ',
        ) by {
            assert(before[i] == all[i]);
        }
        lemma_placed_crowded(before, width);
        assert(!all[all.len() - 1].contains(' '));
        lemma_place_crowded(placed(before, width), all.last(), width);
    }
}

/// A line is left only where the next word has no room on it.
pub proof fn lines_are_as_full_as_can_be(s: Seq<char>, width: nat, i: int)
    requires
        width > 0,
        0 <= i < wrapped(s, width).len() - 1,
    ensures
        wrapped(s, width)[i].len() + 1 + words::first_index(wrapped(s, width)[i + 1], ' ') > width,
{
    let all = words::pieces(s, ' ');
    words::pieces_join_again(s, ' ');
    lemma_placed_crowded(all, width);
    let l = placed(all, width);
    assert(l.done[i].len() + 1 + words::first_index(next_line(l, i), ' ') > width);
}

/// Whether a word stands on one of the lines.
pub open spec fn holds_word(l: Lines, word: Seq<char>) -> bool {
    words::occurs(l.open, word) || exists|k: int|
        0 <= k < l.done.len() && words::occurs(#[trigger] l.done[k], word)
}

proof fn lemma_occurs_in_longer(s: Seq<char>, more: Seq<char>, word: Seq<char>)
    requires
        words::occurs(s, word),
    ensures
        words::occurs(s + more, word),
{
    let i = choose|i: int| words::occurs_at(s, word, i);
    assert((s + more).subrange(i, i + word.len()) =~= s.subrange(i, i + word.len()));
    assert(words::occurs_at(s + more, word, i));
}

proof fn lemma_place_keeps_word(l: Lines, word: Seq<char>, width: nat, kept: Seq<char>)
    requires
        holds_word(l, kept),
        kept.len() > 0,
    ensures
        holds_word(place(l, word, width), kept),
{
    let after = place(l, word, width);
    if words::occurs(l.open, kept) {
        let i = choose|i: int| words::occurs_at(l.open, kept, i);
        assert(l.open.len() > 0);
        if word.len() > width || l.open.len() + 1 + word.len() > width {
            assert(after.done[l.done.len() as int] == l.open);
        } else {
            lemma_occurs_in_longer(l.open, seq![' '] + word, kept);
            assert(l.open + (seq![' '] + word) =~= after.open);
        }
    } else {
        let k = choose|k: int| 0 <= k < l.done.len() && words::occurs(#[trigger] l.done[k], kept);
        assert(after.done[k] == l.done[k]);
    }
}

proof fn lemma_place_holds_word(l: Lines, word: Seq<char>, width: nat)
    requires
        word.len() <= width,
    ensures
        holds_word(place(l, word, width), word),
{
    let after = place(l, word, width);
    if l.open.len() == 0 || l.open.len() + 1 + word.len() > width {
        words::texts_are_found_where_they_stand(Seq::empty(), word, Seq::empty());
        assert(Seq::<char>::empty() + word + Seq::<char>::empty() =~= word);
    } else {
        words::texts_are_found_where_they_stand(l.open.push(' '), word, Seq::empty());
        assert(l.open.push(' ') + word + Seq::<char>::empty() =~= after.open);
    }
}

proof fn lemma_placed_holds(all: Seq<Seq<char>>, width: nat, i: int)
    requires
        0 <= i < all.len(),
        0 < all[i].len() <= width,
    ensures
        holds_word(placed(all, width), all[i]),
    decreases all.len(),
{
    let before = all.drop_last();
    if i < before.len() {
        assert(before[i] == all[i]);
        lemma_placed_holds(before, width, i);
        lemma_place_keeps_word(placed(before, width), all.last(), width, all[i]);
    } else {
        lemma_place_holds_word(placed(before, width), all.last(), width);
    }
}

/// A word that fits on a line is not broken: it stands whole on one of the lines.
pub proof fn words_stay_whole(s: Seq<char>, width: nat, i: int)
    requires
        0 <= i < words::pieces(s, ' ').len(),
        0 < words::pieces(s, ' ')[i].len() <= width,
    ensures
        exists|k: int|
            0 <= k < wrapped(s, width).len() && words::occurs(
                #[trigger] wrapped(s, width)[k],
                words::pieces(s, ' ')[i],
            ),
{
    let all = words::pieces(s, ' ');
    let l = placed(all, width);
    lemma_placed_holds(all, width, i);
    if words::occurs(l.open, all[i]) {
        let k = choose|k: int| words::occurs_at(l.open, all[i], k);
        assert(wrapped(s, width)[l.done.len() as int] == l.open);
    } else {
        let k = choose|k: int| 0 <= k < l.done.len() && words::occurs(#[trigger] l.done[k], all[i]);
        assert(wrapped(s, width)[k] == l.done[k]);
    }
}

} // verus!
