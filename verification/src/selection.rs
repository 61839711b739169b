//! In-app text selection for the chat transcript (mouse drag, then copy).
//!
//! An anchor is recorded on mouse-down (nothing is visible yet), dragging
//! activates the highlight, and the release copies the text. Coordinates are
//! absolute content-line indices, so the selection stays put while the chat
//! scrolls.
use crate::text;
use crate::words;
use vstd::prelude::*;

verus! {

/// A content position: `(line index, character column)`.
pub type Pos = (usize, usize);

/// A selection in the making or in effect.
#[derive(Clone, Copy)]
pub struct Selection {
    anchor: Pos,
    cursor: Pos,
    /// Becomes true once the mouse has dragged away from the anchor; a plain
    /// click (down and up with no movement) never activates.
    active: bool,
}

/// What a [`Selection`] stands for.
pub struct SelectionModel {
    /// Where the mouse went down.
    pub anchor: Pos,
    /// Where the mouse was dragged to last.
    pub cursor: Pos,
    /// Whether the mouse was dragged at all.
    pub active: bool,
}

/// Whether `a` stands before `b` in reading order, or is `b`.
pub open spec fn at_or_before(a: Pos, b: Pos) -> bool {
    a.0 < b.0 || (a.0 == b.0 && a.1 <= b.1)
}

impl SelectionModel {
    /// A click at `pos`.
    pub open spec fn click(pos: Pos) -> SelectionModel {
        SelectionModel { anchor: pos, cursor: pos, active: false }
    }

    /// The selection after the mouse was dragged to `pos`.
    pub open spec fn dragged(self, pos: Pos) -> SelectionModel {
        SelectionModel { anchor: self.anchor, cursor: pos, active: true }
    }

    /// The two ends in reading order, once the selection is active.
    pub open spec fn ordered(self) -> Option<(Pos, Pos)> {
        if !self.active {
            None
        } else if at_or_before(self.anchor, self.cursor) {
            Some((self.anchor, self.cursor))
        } else {
            Some((self.cursor, self.anchor))
        }
    }

    /// The selected text of `lines`.
    pub open spec fn text_of(self, lines: Seq<Seq<char>>) -> Seq<char> {
        match self.ordered() {
            None => Seq::empty(),
            Some((start, end)) => selected_text(lines, start, end),
        }
    }
}


/// The columns of line `line`, which has `len` characters, that the selection
/// from `start` to `end` covers, for a line between the two: from the first
/// number up to and without the second. Stream semantics: the first line from
/// its column to the end, whole lines in between, and the last line up to its
/// column.
pub open spec fn covered_columns(start: Pos, end: Pos, line: int, len: int) -> (int, int) {
    let from: int = if line == start.0 {
        start.1 as int
    } else {
        0
    };
    let to: int = if line == end.0 {
        end.1 as int
    } else {
        len
    };
    (
        if from <= len {
            from
        } else {
            len
        },
        if to <= len {
            to
        } else {
            len
        },
    )
}

/// The part of `text`, the line of number `line`, that the selection covers.
pub open spec fn covered_text(text: Seq<char>, start: Pos, end: Pos, line: int) -> Seq<char> {
    let (from, to) = covered_columns(start, end, line, text.len() as int);
    if from < to {
        text.subrange(from, to)
    } else {
        Seq::empty()
    }
}

/// How many of the lines from `start` to `end` there are among `n` lines.
pub open spec fn covered_lines(n: nat, start: Pos, end: Pos) -> nat {
    if end.0 < start.0 || n <= start.0 {
        0
    } else if end.0 < n {
        (end.0 - start.0 + 1) as nat
    } else {
        (n - start.0) as nat
    }
}

/// The selected text: what the selection covers of each of its lines, with a
/// line break between two lines.
pub open spec fn selected_text(lines: Seq<Seq<char>>, start: Pos, end: Pos) -> Seq<char> {
    words::joined(
        Seq::new(
            covered_lines(lines.len(), start, end),
            |j: int| covered_text(lines[start.0 + j], start, end, start.0 + j),
        ),
        seq!['\n'],
    )
}

/// The columns of line `line`, of `len` characters, that the selection covers.
pub fn columns(start: Pos, end: Pos, line: usize, len: usize) -> (r: (usize, usize))
    requires
        start.0 <= line <= end.0,
    ensures
        (r.0 as int, r.1 as int) == covered_columns(start, end, line as int, len as int),
        r.0 <= len,
        r.1 <= len,
{
    let from: usize = if line == start.0 {
        start.1
    } else {
        0
    };
    let to: usize = if line == end.0 {
        end.1
    } else {
        len
    };
    (
        if from <= len {
            from
        } else {
            len
        },
        if to <= len {
            to
        } else {
            len
        },
    )
}

impl View for Selection {
    type V = SelectionModel;

    closed spec fn view(&self) -> SelectionModel {
        SelectionModel { anchor: self.anchor, cursor: self.cursor, active: self.active }
    }
}

impl Selection {
    /// A selection anchored at `pos`, not yet active.
    pub fn new(pos: Pos) -> (r: Self)
        ensures
            r@ == SelectionModel::click(pos),
    {
        Self { anchor: pos, cursor: pos, active: false }
    }

    /// Extends the selection to `pos`, marking it visible and active.
    pub fn drag(&mut self, pos: Pos)
        ensures
            final(self)@ == old(self)@.dragged(pos),
    {
        self.cursor = pos;
        self.active = true;
    }

    /// Whether the mouse was dragged since it went down.
    pub fn is_active(&self) -> (r: bool)
        ensures
            r == self@.active,
    {
        self.active
    }

    /// The ordered `(start, end)` range, or `None` if not yet active.
    pub fn range(&self) -> (r: Option<(Pos, Pos)>)
        ensures
            r == self@.ordered(),
    {
        if !self.active {
            return None;
        }
        if self.anchor.0 < self.cursor.0 || (self.anchor.0 == self.cursor.0 && self.anchor.1
            <= self.cursor.1) {
            Some((self.anchor, self.cursor))
        } else {
            Some((self.cursor, self.anchor))
        }
    }

    /// Extracts the selected text from the rendered `lines`.
    pub fn extract(&self, lines: &[String]) -> (r: String)
        ensures
            r@ == self@.text_of(text::texts(lines@)),
    {
        let (start, end) = match self.range() {
            None => return String::new(),
            Some(ends) => ends,
        };
        let ghost all = text::texts(lines@);
        let ghost parts = Seq::new(
            covered_lines(all.len(), start, end),
            |j: int| covered_text(all[start.0 + j], start, end, start.0 + j),
        );
        let n: usize = lines.len();
        let mut out = String::new();
        let mut line: usize = start.0;
        while line <= end.0 && line < n
            invariant
                n == lines@.len(),
                all == text::texts(lines@),
                start.0 <= line,
                start.0 <= end.0,
                n <= start.0 ==> line == start.0,
                n > start.0 ==> line - start.0 <= covered_lines(n as nat, start, end),
                parts == Seq::new(
                    covered_lines(all.len(), start, end),
                    |j: int| covered_text(all[start.0 + j], start, end, start.0 + j),
                ),
                out@ == words::joined(parts.take(line - start.0), seq!['\n']),
            decreases n - line,
        {
            let chars = text::chars_of(lines[line].as_str());
            let (from, to) = columns(start, end, line, chars.len());
            if line != start.0 {
                out.push('\n');
            }
            if from < to {
                let part = text::string_between(&chars, from, to);
                out.append(part.as_str());
            }
            proof {
                let j = line - start.0;
                assert(all[line as int] == chars@);
                assert(parts.take(j + 1).drop_last() =~= parts.take(j));
                assert(parts.take(j + 1).last() == covered_text(
                    chars@,
                    start,
                    end,
                    line as int,
                ));
                assert(out@ =~= words::joined(parts.take(j + 1), seq!['\n']));
            }
            line += 1;
        }
        assert(parts.take(line - start.0) =~= parts);
        out
    }
}

// ---------------------------------------------------------------------------
// Laws
// ---------------------------------------------------------------------------
/// A click selects nothing, whatever the lines are.
pub proof fn click_selects_nothing(pos: Pos, lines: Seq<Seq<char>>)
    ensures
        SelectionModel::click(pos).ordered() is None,
        SelectionModel::click(pos).text_of(lines) == Seq::<char>::empty(),
{
}

/// The range of a dragged selection runs in reading order between the anchor
/// and the last position.
pub proof fn range_is_ordered(s: SelectionModel, pos: Pos)
    ensures
        s.dragged(pos).ordered() matches Some((start, end)) && at_or_before(start, end) && ((start
            == s.anchor && end == pos) || (start == pos && end == s.anchor)),
{
}

/// A drag selects the same range, and so the same text, in either direction.
pub proof fn direction_does_not_matter(a: Pos, b: Pos, lines: Seq<Seq<char>>)
    ensures
        SelectionModel::click(a).dragged(b).ordered() == SelectionModel::click(b).dragged(
            a,
        ).ordered(),
        SelectionModel::click(a).dragged(b).text_of(lines) == SelectionModel::click(b).dragged(
            a,
        ).text_of(lines),
{
}

/// Only the last of several drags counts.
pub proof fn last_drag_wins(s: SelectionModel, a: Pos, b: Pos)
    ensures
        s.dragged(a).dragged(b) == s.dragged(b),
{
}

/// Dragging from the start of the first line to the end of the last, or to
/// anywhere below it, selects every line in full.
pub proof fn whole_text_is_selected(lines: Seq<Seq<char>>, start: Pos, end: Pos)
    requires
        lines.len() > 0,
        start == (0usize, 0usize),
        end.0 >= lines.len() || (end.0 == lines.len() - 1 && end.1 >= lines.last().len()),
    ensures
        SelectionModel::click(start).dragged(end).text_of(lines) == words::joined(
            lines,
            seq!['\n'],
        ),
{
    let parts = Seq::new(
        covered_lines(lines.len(), start, end),
        |j: int| covered_text(lines[start.0 + j], start, end, start.0 + j),
    );
    assert forall|j: int| 0 <= j < lines.len() implies #[trigger] parts[j] == lines[j] by {
        let t = lines[j];
        assert(t.subrange(0, t.len() as int) =~= t);
        assert(parts[j] =~= t);
    }
    assert(parts =~= lines);
}

/// A drag within a line selects what lies between its two columns.
pub proof fn a_drag_within_a_line_selects_between(
    lines: Seq<Seq<char>>,
    line: usize,
    from: usize,
    to: usize,
)
    requires
        line < lines.len(),
        from <= to <= lines[line as int].len(),
    ensures
        SelectionModel::click((line, from)).dragged((line, to)).text_of(lines)
            == lines[line as int].subrange(from as int, to as int),
{
    let start: Pos = (line, from);
    let end: Pos = (line, to);
    let parts = Seq::new(
        covered_lines(lines.len(), start, end),
        |j: int| covered_text(lines[start.0 + j], start, end, start.0 + j),
    );
    assert(parts.len() == 1);
    assert(parts[0] =~= lines[line as int].subrange(from as int, to as int));
    assert(words::joined(parts, seq!['\n']) == parts[0]);
}

/// A drag over two lines selects the first from its column on and the second up to
/// its column, with a line break between them.
pub proof fn a_drag_over_two_lines_selects_both(
    lines: Seq<Seq<char>>,
    line: usize,
    from: usize,
    to: usize,
)
    requires
        line < lines.len() - 1,
        lines.len() <= usize::MAX,
        from <= lines[line as int].len(),
        to <= lines[line as int + 1].len(),
    ensures
        SelectionModel::click((line, from)).dragged(((line + 1) as usize, to)).text_of(lines)
            == lines[line as int].skip(from as int).push('\n') + lines[line as int + 1].take(
            to as int,
        ),
{
    let start: Pos = (line, from);
    let end: Pos = ((line + 1) as usize, to);
    let first = lines[line as int].skip(from as int);
    let second = lines[line as int + 1].take(to as int);
    let parts = Seq::new(
        covered_lines(lines.len(), start, end),
        |j: int| covered_text(lines[start.0 + j], start, end, start.0 + j),
    );
    assert(parts.len() == 2);
    assert(parts[0] =~= first);
    assert(parts[1] =~= second);
    assert(parts.drop_last() =~= seq![first]);
    words::parts_are_joined_by_the_separator(seq![first], second, seq!['\n']);
    assert(parts =~= seq![first].push(second));
    assert(first + seq!['\n'] + second =~= first.push('\n') + second);
}

/// Of more lines, each one between the first and the last is selected in full.
pub proof fn lines_between_are_selected_in_full(
    lines: Seq<Seq<char>>,
    start: Pos,
    end: Pos,
    line: int,
)
    requires
        start.0 < line < end.0,
        line < lines.len(),
    ensures
        covered_text(lines[line], start, end, line) == lines[line],
{
    assert(lines[line].subrange(0, lines[line].len() as int) =~= lines[line]);
}

} // verus!
