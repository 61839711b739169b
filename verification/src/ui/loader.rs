//! Loading animation: a small black square with a green dot orbiting its border.
use crate::text;
use crate::theme;
use crate::ui::span;
use crate::ui::span::StyledLine;
use vstd::prelude::*;

verus! {

/// How long the dot stays in a cell, in milliseconds.
pub const STEP_MILLIS: u128 = 90;

/// The twelve perimeter cells of a 3-row × 5-column square, clockwise from the
/// top-left corner: along the top edge, down the right one, back along the
/// bottom one and up the left one.
pub open spec fn perimeter(i: int) -> (int, int) {
    if i < 5 {
        (0, i)
    } else if i < 7 {
        (i - 4, 4)
    } else if i < 11 {
        (2, 10 - i)
    } else {
        (1, 0)
    }
}

/// Where the dot is at an orbit step: it advances one cell per step.
pub open spec fn dot(step: int) -> (int, int) {
    perimeter(step % 12)
}

/// The orbit step at a time, in milliseconds since the Unix epoch.
pub fn loader_step(millis: u128) -> (r: usize)
    ensures
        r == (millis / STEP_MILLIS) as usize,
{
    #[verifier::truncate]
    ((millis / STEP_MILLIS) as usize)
}

/// How long the screen may stay as it is where nothing happens, in milliseconds.
/// While the agent works the animation goes on; otherwise nothing changes.
pub fn tick_millis(busy: bool) -> (r: Option<u64>)
    ensures
        r == (if busy {
            Some(90u64)
        } else {
            None
        }),
{
    if busy {
        Some(90)
    } else {
        None
    }
}

/// Where the dot is at an orbit step.
pub fn dot_cell(step: usize) -> (r: (usize, usize))
    ensures
        (r.0 as int, r.1 as int) == dot(step as int),
{
    let i: usize = step % 12;
    if i < 5 {
        (0, i)
    } else if i < 7 {
        (i - 4, 4)
    } else if i < 11 {
        (2, 10 - i)
    } else {
        (1, 0)
    }
}

/// The static border glyph of a cell of the 3×5 square.
pub open spec fn border_glyph(r: int, c: int) -> char {
    if r == 0 && c == 0 {
        '┌'
    } else if r == 0 && c == 4 {
        '┐'
    } else if r == 2 && c == 0 {
        '└'
    } else if r == 2 && c == 4 {
        '┘'
    } else if r == 0 || r == 2 {
        '─'
    } else if c == 0 || c == 4 {
        '│'
    } else {
        ' '
    }
}

/// The static border glyph for cell `(r, c)` of the 3×5 square.
pub fn square_border(r: usize, c: usize) -> (g: char)
    ensures
        g == border_glyph(r as int, c as int),
{
    match (r, c) {
        (0, 0) => '┌',
        (0, 4) => '┐',
        (2, 0) => '└',
        (2, 4) => '┘',
        (0, _) | (2, _) => '─',
        (_, 0) | (_, 4) => '│',
        _ => ' ',
    }
}

/// A cell of the square.
pub open spec fn cell(step: int, r: int, c: int) -> span::SpanModel {
    if dot(step) == (r, c) {
        span::styled("●"@, theme::on_black(theme::Color::Green, true))
    } else {
        span::styled(seq![border_glyph(r, c)], theme::on_black(theme::Color::GreenDim, false))
    }
}

/// A row of the square, with the label behind the middle one.
pub open spec fn square_row(step: int, r: int, label: Seq<char>) -> span::LineOfSpans {
    let cells = Seq::new(5, |c: int| cell(step, r, c));
    if r == 1 && label.len() > 0 {
        cells.push(span::styled("  "@ + label, theme::on_black(theme::Color::Amber, true)))
    } else {
        cells
    }
}

/// The square.
pub open spec fn square(step: int, label: Seq<char>) -> Seq<span::LineOfSpans> {
    Seq::new(3, |r: int| square_row(step, r, label))
}

/// The square as three styled lines with the green dot at the orbit position of
/// `step`. If `label` is non-empty it is shown to the right of the square's
/// middle row.
pub fn loader_lines(label: &str, step: usize) -> (lines: Vec<StyledLine>)
    ensures
        span::line_views(lines@) == square(step as int, label@),
{
    let (dot_r, dot_c) = dot_cell(step);
    let mut lines: Vec<StyledLine> = Vec::new();
    let mut r: usize = 0;
    while r < 3
        invariant
            (dot_r as int, dot_c as int) == dot(step as int),
            0 <= r <= 3,
            lines@.len() == r,
            forall|k: int|
                0 <= k < r ==> (#[trigger] lines@[k])@ == square_row(step as int, k, label@),
        decreases 3 - r,
    {
        let mut line = StyledLine::empty();
        let mut c: usize = 0;
        while c < 5
            invariant
                (dot_r as int, dot_c as int) == dot(step as int),
                0 <= r < 3,
                0 <= c <= 5,
                line@.len() == c,
                forall|k: int| 0 <= k < c ==> #[trigger] line@[k] == cell(step as int, r as int, k),
            decreases 5 - c,
        {
            if r == dot_r && c == dot_c {
                line.add("●", theme::bright());
            } else {
                let mut glyph = String::new();
                glyph.push(square_border(r, c));
                assert(glyph@ =~= seq![border_glyph(r as int, c as int)]);
                line.add(glyph.as_str(), theme::dim());
            }
            c += 1;
        }
        assert(line@ =~= Seq::new(5, |c: int| cell(step as int, r as int, c)));
        if r == 1 && !label.is_empty() {
            line.add(text::chained("  ", label).as_str(), theme::accent());
        }
        assert(line@ == square_row(step as int, r as int, label@));
        lines.push(line);
        r += 1;
    }
    assert(span::line_views(lines@) =~= square(step as int, label@));
    lines
}

// ---------------------------------------------------------------------------
// Laws
// ---------------------------------------------------------------------------
/// The dot is always on the border of the square, and moves to a neighbouring
/// cell with each step.
pub proof fn the_dot_runs_along_the_border(step: int)
    requires
        0 <= step,
    ensures
        ({
            let (r, c) = dot(step);
            let (r2, c2) = dot(step + 1);
            &&& 0 <= r < 3 && 0 <= c < 5
            &&& border_glyph(r, c) != ' '
            &&& (r == r2 && (c2 == c + 1 || c2 == c - 1)) || (c == c2 && (r2 == r + 1 || r2 == r
                - 1))
        }),
{
}

/// After twelve steps the dot is back where it was.
pub proof fn the_dot_comes_round(step: int)
    requires
        0 <= step,
    ensures
        dot(step + 12) == dot(step),
{
}

/// The square shows the dot in one cell, where it is at the step, and its border
/// everywhere else.
pub proof fn the_dot_shows_where_it_is(step: int, label: Seq<char>, r: int, c: int)
    requires
        0 <= r < 3,
        0 <= c < 5,
    ensures
        square(step, label).len() == 3,
        square(step, label)[r][c].text == (if dot(step) == (r, c) {
            "●"@
        } else {
            seq![border_glyph(r, c)]
        }),
{
}

/// The label stands behind the middle row, and only there.
pub proof fn the_label_stands_behind(step: int, label: Seq<char>, r: int)
    requires
        0 <= r < 3,
    ensures
        r == 1 && label.len() > 0 ==> square(step, label)[r].len() == 6 && square(
            step,
            label,
        )[r][5].text == "  "@ + label,
        r != 1 || label.len() == 0 ==> square(step, label)[r].len() == 5,
{
}

} // verus!
