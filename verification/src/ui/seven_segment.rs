//! A tiny seven-segment font. Each glyph is drawn in a 3x3 cell using the
//! classic segment layout:
//!
//! ```text
//!  _        a
//! |_|     f g b
//! |_|     e d c
//! ```
//!
//! [`render`] turns a string into three equally long rows of text that can be
//! dropped straight into the terminal.
use crate::text;
use vstd::prelude::*;

verus! {

/// Segment order: a, b, c, d, e, f, g.
pub type Segs = [bool; 7];

/// The upper-case characters that light segment `a`, the top one.
pub open spec fn lights_a(c: char) -> bool {
    match c {
        '0' | '2' | '3' | '5' | '6' | '7' | '8' | '9' | 'A' | 'C' | 'E' | 'F' | 'G' | 'M'
        | 'O' | 'P' | 'Q' | 'S' | 'Z' => true,
        _ => false,
    }
}

/// The upper-case characters that light segment `b`, the upper right one.
pub open spec fn lights_b(c: char) -> bool {
    match c {
        '0' | '1' | '2' | '3' | '4' | '7' | '8' | '9' | 'A' | 'D' | 'H' | 'I' | 'J' | 'K'
        | 'M' | 'O' | 'P' | 'Q' | 'U' | 'W' | 'X' | 'Y' | 'Z' => true,
        _ => false,
    }
}

/// The upper-case characters that light segment `c`, the lower right one.
pub open spec fn lights_c(c: char) -> bool {
    match c {
        '0' | '1' | '3' | '4' | '5' | '6' | '7' | '8' | '9' | 'A' | 'B' | 'D' | 'G' | 'H'
        | 'I' | 'J' | 'K' | 'M' | 'N' | 'O' | 'Q' | 'S' | 'U' | 'V' | 'W' | 'X' | 'Y' => true,
        _ => false,
    }
}

/// The upper-case characters that light segment `d`, the bottom one.
pub open spec fn lights_d(c: char) -> bool {
    match c {
        '0' | '2' | '3' | '5' | '6' | '8' | '9' | 'B' | 'C' | 'D' | 'E' | 'G' | 'J' | 'L'
        | 'O' | 'S' | 'T' | 'U' | 'V' | 'W' | 'Y' | 'Z' | '_' => true,
        _ => false,
    }
}

/// The upper-case characters that light segment `e`, the lower left one.
pub open spec fn lights_e(c: char) -> bool {
    match c {
        '0' | '2' | '6' | '8' | 'A' | 'B' | 'C' | 'D' | 'E' | 'F' | 'G' | 'H' | 'J' | 'K'
        | 'L' | 'M' | 'N' | 'O' | 'P' | 'R' | 'T' | 'U' | 'V' | 'W' | 'X' | 'Z' => true,
        _ => false,
    }
}

/// The upper-case characters that light segment `f`, the upper left one.
pub open spec fn lights_f(c: char) -> bool {
    match c {
        '0' | '4' | '5' | '6' | '8' | '9' | 'A' | 'B' | 'C' | 'E' | 'F' | 'G' | 'H' | 'K'
        | 'L' | 'M' | 'O' | 'P' | 'Q' | 'S' | 'T' | 'U' | 'W' | 'X' | 'Y' => true,
        _ => false,
    }
}

/// The upper-case characters that light segment `g`, the middle one.
pub open spec fn lights_g(c: char) -> bool {
    match c {
        '2' | '3' | '4' | '5' | '6' | '8' | '9' | 'A' | 'B' | 'D' | 'E' | 'F' | 'H' | 'K'
        | 'N' | 'P' | 'Q' | 'R' | 'S' | 'T' | 'X' | 'Y' | 'Z' | '-' => true,
        _ => false,
    }
}

/// The segments of character `c`, whatever its case.
pub open spec fn shape(c: char) -> Seq<bool> {
    let u = text::ascii_upper(c);
    seq![
        lights_a(u),
        lights_b(u),
        lights_c(u),
        lights_d(u),
        lights_e(u),
        lights_f(u),
        lights_g(u),
    ]
}

/// A segment as a character: `mark` if it is lit, else a space.
pub open spec fn drawn(lit: bool, mark: char) -> char {
    if lit {
        mark
    } else {
        ' '
    }
}

/// Row `k` of the cell of `c`.
pub open spec fn cell(k: int, c: char) -> Seq<char> {
    let s = shape(c);
    if k == 0 {
        seq![' ', drawn(s[0], '_'), ' ']
    } else if k == 1 {
        seq![drawn(s[5], '|'), drawn(s[6], '_'), drawn(s[1], '|')]
    } else {
        seq![drawn(s[4], '|'), drawn(s[3], '_'), drawn(s[2], '|')]
    }
}

/// Row `k` of the display of `s`: the cells with a blank column between two.
pub open spec fn row(k: int, s: Seq<char>) -> Seq<char>
    decreases s.len(),
{
    if s.len() == 0 {
        Seq::empty()
    } else if s.len() == 1 {
        cell(k, s[0])
    } else {
        row(k, s.drop_last()).push(' ') + cell(k, s.last())
    }
}

fn segs(a: bool, b: bool, c: bool, d: bool, e: bool, f: bool, g: bool) -> (r: Segs)
    ensures
        r@ == seq![a, b, c, d, e, f, g],
{
    let r = [a, b, c, d, e, f, g];
    assert(r@ =~= seq![a, b, c, d, e, f, g]);
    r
}

/// The seven-segment shape of an ASCII character. Letters use the conventional
/// pseudo-seven-segment alphabet (some are lowercase-ish approximations, which
/// is exactly how cheap segment displays render them).
pub fn glyph(ch: char) -> (r: Segs)
    ensures
        r@ == shape(ch),
{
    let t = true;
    let f = false;
    match text::upper_char(ch) {
        '0' => segs(t, t, t, t, t, t, f),
        '1' => segs(f, t, t, f, f, f, f),
        '2' => segs(t, t, f, t, t, f, t),
        '3' => segs(t, t, t, t, f, f, t),
        '4' => segs(f, t, t, f, f, t, t),
        '5' => segs(t, f, t, t, f, t, t),
        '6' => segs(t, f, t, t, t, t, t),
        '7' => segs(t, t, t, f, f, f, f),
        '8' => segs(t, t, t, t, t, t, t),
        '9' => segs(t, t, t, t, f, t, t),
        'A' => segs(t, t, t, f, t, t, t),
        'B' => segs(f, f, t, t, t, t, t),
        'C' => segs(t, f, f, t, t, t, f),
        'D' => segs(f, t, t, t, t, f, t),
        'E' => segs(t, f, f, t, t, t, t),
        'F' => segs(t, f, f, f, t, t, t),
        'G' => segs(t, f, t, t, t, t, f),
        'H' => segs(f, t, t, f, t, t, t),
        'I' => segs(f, t, t, f, f, f, f),
        'J' => segs(f, t, t, t, t, f, f),
        'K' => segs(f, t, t, f, t, t, t),
        'L' => segs(f, f, f, t, t, t, f),
        'M' => segs(t, t, t, f, t, t, f),
        'N' => segs(f, f, t, f, t, f, t),
        'O' => segs(t, t, t, t, t, t, f),
        'P' => segs(t, t, f, f, t, t, t),
        'Q' => segs(t, t, t, f, f, t, t),
        'R' => segs(f, f, f, f, t, f, t),
        'S' => segs(t, f, t, t, f, t, t),
        'T' => segs(f, f, f, t, t, t, t),
        'U' => segs(f, t, t, t, t, t, f),
        'V' => segs(f, f, t, t, t, f, f),
        'W' => segs(f, t, t, t, t, t, f),
        'X' => segs(f, t, t, f, t, t, t),
        'Y' => segs(f, t, t, t, f, t, t),
        'Z' => segs(t, t, f, t, t, f, t),
        '-' => segs(f, f, f, f, f, f, t),
        '_' => segs(f, f, f, t, f, f, f),
        _ => segs(f, f, f, f, f, f, f),
    }
}

fn draw(lit: bool, mark: char) -> (c: char)
    ensures
        c == drawn(lit, mark),
{
    if lit {
        mark
    } else {
        ' '
    }
}

/// Adds one row of a cell, behind a blank column unless it is the first cell.
fn add_cell(out: &mut String, first: bool, left: char, middle: char, right: char)
    ensures
        final(out)@ == (if first {
            old(out)@
        } else {
            old(out)@.push(' ')
        }) + seq![left, middle, right],
{
    let ghost before = if first {
        out@
    } else {
        out@.push(' ')
    };
    if !first {
        out.push(' ');
    }
    out.push(left);
    out.push(middle);
    out.push(right);
    assert(out@ =~= before + seq![left, middle, right]);
}

proof fn lemma_row_grows(k: int, s: Seq<char>, i: int)
    requires
        0 <= i < s.len(),
    ensures
        row(k, s.take(i + 1)) == (if i == 0 {
            row(k, s.take(i))
        } else {
            row(k, s.take(i)).push(' ')
        }) + cell(k, s[i]),
{
    let now = s.take(i + 1);
    assert(now.drop_last() =~= s.take(i));
    assert(now.last() == s[i]);
    if i == 0 {
        assert(row(k, s.take(i)) + cell(k, s[i]) =~= cell(k, s[i]));
    }
}

/// Renders `s` into three rows. Every glyph is 3 columns wide with a single
/// blank column between glyphs.
pub fn render(s: &str) -> (r: [String; 3])
    ensures
        r@.len() == 3,
        forall|k: int| 0 <= k < 3 ==> (#[trigger] r@[k])@ == row(k, s@),
{
    let v = text::chars_of(s);
    let mut top = String::new();
    let mut middle = String::new();
    let mut bottom = String::new();
    let mut i: usize = 0;
    while i < v.len()
        invariant
            v@ == s@,
            0 <= i <= v@.len(),
            top@ == row(0, v@.take(i as int)),
            middle@ == row(1, v@.take(i as int)),
            bottom@ == row(2, v@.take(i as int)),
        decreases v@.len() - i,
    {
        let g = glyph(v[i]);
        let first = i == 0;
        add_cell(&mut top, first, ' ', draw(g[0], '_'), ' ');
        add_cell(&mut middle, first, draw(g[5], '|'), draw(g[6], '_'), draw(g[1], '|'));
        add_cell(&mut bottom, first, draw(g[4], '|'), draw(g[3], '_'), draw(g[2], '|'));
        proof {
            lemma_row_grows(0, v@, i as int);
            lemma_row_grows(1, v@, i as int);
            lemma_row_grows(2, v@, i as int);
        }
        i += 1;
    }
    assert(v@.take(i as int) =~= s@);
    [top, middle, bottom]
}

/// The rows are equally long: three columns a glyph and one between two.
pub proof fn rows_have_equal_length(k: int, s: Seq<char>)
    ensures
        row(k, s).len() == if s.len() == 0 {
            0
        } else {
            4 * s.len() - 1
        },
    decreases s.len(),
{
    if s.len() > 1 {
        rows_have_equal_length(k, s.drop_last());
    }
}

/// The case of a letter does not show.
pub proof fn case_does_not_show(k: int, c: char)
    ensures
        cell(k, c) == cell(k, text::ascii_lower(c)),
{
}

/// How a character is drawn: its three rows.
pub open spec fn looks(c: char, top: Seq<char>, middle: Seq<char>, bottom: Seq<char>) -> bool {
    cell(0, c) == top && cell(1, c) == middle && cell(2, c) == bottom
}

/// The digits, as they are drawn.
pub proof fn digits_look_like_themselves()
    ensures
        looks('0', seq![' ', '_', ' '], seq!['|', ' ', '|'], seq!['|', '_', '|']),
        looks('1', seq![' ', ' ', ' '], seq![' ', ' ', '|'], seq![' ', ' ', '|']),
        looks('2', seq![' ', '_', ' '], seq![' ', '_', '|'], seq!['|', '_', ' ']),
        looks('3', seq![' ', '_', ' '], seq![' ', '_', '|'], seq![' ', '_', '|']),
        looks('4', seq![' ', ' ', ' '], seq!['|', '_', '|'], seq![' ', ' ', '|']),
        looks('5', seq![' ', '_', ' '], seq!['|', '_', ' '], seq![' ', '_', '|']),
        looks('6', seq![' ', '_', ' '], seq!['|', '_', ' '], seq!['|', '_', '|']),
        looks('7', seq![' ', '_', ' '], seq![' ', ' ', '|'], seq![' ', ' ', '|']),
        looks('8', seq![' ', '_', ' '], seq!['|', '_', '|'], seq!['|', '_', '|']),
        looks('9', seq![' ', '_', ' '], seq!['|', '_', '|'], seq![' ', '_', '|']),
{
    assert(cell(0, '0') =~= seq![' ', '_', ' ']);
    assert(cell(1, '0') =~= seq!['|', ' ', '|']);
    assert(cell(2, '0') =~= seq!['|', '_', '|']);
    assert(cell(0, '1') =~= seq![' ', ' ', ' ']);
    assert(cell(1, '1') =~= seq![' ', ' ', '|']);
    assert(cell(2, '1') =~= seq![' ', ' ', '|']);
    assert(cell(0, '2') =~= seq![' ', '_', ' ']);
    assert(cell(1, '2') =~= seq![' ', '_', '|']);
    assert(cell(2, '2') =~= seq!['|', '_', ' ']);
    assert(cell(0, '3') =~= seq![' ', '_', ' ']);
    assert(cell(1, '3') =~= seq![' ', '_', '|']);
    assert(cell(2, '3') =~= seq![' ', '_', '|']);
    assert(cell(0, '4') =~= seq![' ', ' ', ' ']);
    assert(cell(1, '4') =~= seq!['|', '_', '|']);
    assert(cell(2, '4') =~= seq![' ', ' ', '|']);
    assert(cell(0, '5') =~= seq![' ', '_', ' ']);
    assert(cell(1, '5') =~= seq!['|', '_', ' ']);
    assert(cell(2, '5') =~= seq![' ', '_', '|']);
    assert(cell(0, '6') =~= seq![' ', '_', ' ']);
    assert(cell(1, '6') =~= seq!['|', '_', ' ']);
    assert(cell(2, '6') =~= seq!['|', '_', '|']);
    assert(cell(0, '7') =~= seq![' ', '_', ' ']);
    assert(cell(1, '7') =~= seq![' ', ' ', '|']);
    assert(cell(2, '7') =~= seq![' ', ' ', '|']);
    assert(cell(0, '8') =~= seq![' ', '_', ' ']);
    assert(cell(1, '8') =~= seq!['|', '_', '|']);
    assert(cell(2, '8') =~= seq!['|', '_', '|']);
    assert(cell(0, '9') =~= seq![' ', '_', ' ']);
    assert(cell(1, '9') =~= seq!['|', '_', '|']);
    assert(cell(2, '9') =~= seq![' ', '_', '|']);
}

/// The letters up to M, as they are drawn.
pub proof fn first_letters_look_like_themselves()
    ensures
        looks('A', seq![' ', '_', ' '], seq!['|', '_', '|'], seq!['|', ' ', '|']),
        looks('B', seq![' ', ' ', ' '], seq!['|', '_', ' '], seq!['|', '_', '|']),
        looks('C', seq![' ', '_', ' '], seq!['|', ' ', ' '], seq!['|', '_', ' ']),
        looks('D', seq![' ', ' ', ' '], seq![' ', '_', '|'], seq!['|', '_', '|']),
        looks('E', seq![' ', '_', ' '], seq!['|', '_', ' '], seq!['|', '_', ' ']),
        looks('F', seq![' ', '_', ' '], seq!['|', '_', ' '], seq!['|', ' ', ' ']),
        looks('G', seq![' ', '_', ' '], seq!['|', ' ', ' '], seq!['|', '_', '|']),
        looks('H', seq![' ', ' ', ' '], seq!['|', '_', '|'], seq!['|', ' ', '|']),
        looks('I', seq![' ', ' ', ' '], seq![' ', ' ', '|'], seq![' ', ' ', '|']),
        looks('J', seq![' ', ' ', ' '], seq![' ', ' ', '|'], seq!['|', '_', '|']),
        looks('K', seq![' ', ' ', ' '], seq!['|', '_', '|'], seq!['|', ' ', '|']),
        looks('L', seq![' ', ' ', ' '], seq!['|', ' ', ' '], seq!['|', '_', ' ']),
        looks('M', seq![' ', '_', ' '], seq!['|', ' ', '|'], seq!['|', ' ', '|']),
{
    assert(cell(0, 'A') =~= seq![' ', '_', ' ']);
    assert(cell(1, 'A') =~= seq!['|', '_', '|']);
    assert(cell(2, 'A') =~= seq!['|', ' ', '|']);
    assert(cell(0, 'B') =~= seq![' ', ' ', ' ']);
    assert(cell(1, 'B') =~= seq!['|', '_', ' ']);
    assert(cell(2, 'B') =~= seq!['|', '_', '|']);
    assert(cell(0, 'C') =~= seq![' ', '_', ' ']);
    assert(cell(1, 'C') =~= seq!['|', ' ', ' ']);
    assert(cell(2, 'C') =~= seq!['|', '_', ' ']);
    assert(cell(0, 'D') =~= seq![' ', ' ', ' ']);
    assert(cell(1, 'D') =~= seq![' ', '_', '|']);
    assert(cell(2, 'D') =~= seq!['|', '_', '|']);
    assert(cell(0, 'E') =~= seq![' ', '_', ' ']);
    assert(cell(1, 'E') =~= seq!['|', '_', ' ']);
    assert(cell(2, 'E') =~= seq!['|', '_', ' ']);
    assert(cell(0, 'F') =~= seq![' ', '_', ' ']);
    assert(cell(1, 'F') =~= seq!['|', '_', ' ']);
    assert(cell(2, 'F') =~= seq!['|', ' ', ' ']);
    assert(cell(0, 'G') =~= seq![' ', '_', ' ']);
    assert(cell(1, 'G') =~= seq!['|', ' ', ' ']);
    assert(cell(2, 'G') =~= seq!['|', '_', '|']);
    assert(cell(0, 'H') =~= seq![' ', ' ', ' ']);
    assert(cell(1, 'H') =~= seq!['|', '_', '|']);
    assert(cell(2, 'H') =~= seq!['|', ' ', '|']);
    assert(cell(0, 'I') =~= seq![' ', ' ', ' ']);
    assert(cell(1, 'I') =~= seq![' ', ' ', '|']);
    assert(cell(2, 'I') =~= seq![' ', ' ', '|']);
    assert(cell(0, 'J') =~= seq![' ', ' ', ' ']);
    assert(cell(1, 'J') =~= seq![' ', ' ', '|']);
    assert(cell(2, 'J') =~= seq!['|', '_', '|']);
    assert(cell(0, 'K') =~= seq![' ', ' ', ' ']);
    assert(cell(1, 'K') =~= seq!['|', '_', '|']);
    assert(cell(2, 'K') =~= seq!['|', ' ', '|']);
    assert(cell(0, 'L') =~= seq![' ', ' ', ' ']);
    assert(cell(1, 'L') =~= seq!['|', ' ', ' ']);
    assert(cell(2, 'L') =~= seq!['|', '_', ' ']);
    assert(cell(0, 'M') =~= seq![' ', '_', ' ']);
    assert(cell(1, 'M') =~= seq!['|', ' ', '|']);
    assert(cell(2, 'M') =~= seq!['|', ' ', '|']);
}

/// The letters from N on, and the dashes, as they are drawn.
pub proof fn last_letters_look_like_themselves()
    ensures
        looks('N', seq![' ', ' ', ' '], seq![' ', '_', ' '], seq!['|', ' ', '|']),
        looks('O', seq![' ', '_', ' '], seq!['|', ' ', '|'], seq!['|', '_', '|']),
        looks('P', seq![' ', '_', ' '], seq!['|', '_', '|'], seq!['|', ' ', ' ']),
        looks('Q', seq![' ', '_', ' '], seq!['|', '_', '|'], seq![' ', ' ', '|']),
        looks('R', seq![' ', ' ', ' '], seq![' ', '_', ' '], seq!['|', ' ', ' ']),
        looks('S', seq![' ', '_', ' '], seq!['|', '_', ' '], seq![' ', '_', '|']),
        looks('T', seq![' ', ' ', ' '], seq!['|', '_', ' '], seq!['|', '_', ' ']),
        looks('U', seq![' ', ' ', ' '], seq!['|', ' ', '|'], seq!['|', '_', '|']),
        looks('V', seq![' ', ' ', ' '], seq![' ', ' ', ' '], seq!['|', '_', '|']),
        looks('W', seq![' ', ' ', ' '], seq!['|', ' ', '|'], seq!['|', '_', '|']),
        looks('X', seq![' ', ' ', ' '], seq!['|', '_', '|'], seq!['|', ' ', '|']),
        looks('Y', seq![' ', ' ', ' '], seq!['|', '_', '|'], seq![' ', '_', '|']),
        looks('Z', seq![' ', '_', ' '], seq![' ', '_', '|'], seq!['|', '_', ' ']),
        looks('-', seq![' ', ' ', ' '], seq![' ', '_', ' '], seq![' ', ' ', ' ']),
        looks('_', seq![' ', ' ', ' '], seq![' ', ' ', ' '], seq![' ', '_', ' ']),
{
    assert(cell(0, 'N') =~= seq![' ', ' ', ' ']);
    assert(cell(1, 'N') =~= seq![' ', '_', ' ']);
    assert(cell(2, 'N') =~= seq!['|', ' ', '|']);
    assert(cell(0, 'O') =~= seq![' ', '_', ' ']);
    assert(cell(1, 'O') =~= seq!['|', ' ', '|']);
    assert(cell(2, 'O') =~= seq!['|', '_', '|']);
    assert(cell(0, 'P') =~= seq![' ', '_', ' ']);
    assert(cell(1, 'P') =~= seq!['|', '_', '|']);
    assert(cell(2, 'P') =~= seq!['|', ' ', ' ']);
    assert(cell(0, 'Q') =~= seq![' ', '_', ' ']);
    assert(cell(1, 'Q') =~= seq!['|', '_', '|']);
    assert(cell(2, 'Q') =~= seq![' ', ' ', '|']);
    assert(cell(0, 'R') =~= seq![' ', ' ', ' ']);
    assert(cell(1, 'R') =~= seq![' ', '_', ' ']);
    assert(cell(2, 'R') =~= seq!['|', ' ', ' ']);
    assert(cell(0, 'S') =~= seq![' ', '_', ' ']);
    assert(cell(1, 'S') =~= seq!['|', '_', ' ']);
    assert(cell(2, 'S') =~= seq![' ', '_', '|']);
    assert(cell(0, 'T') =~= seq![' ', ' ', ' ']);
    assert(cell(1, 'T') =~= seq!['|', '_', ' ']);
    assert(cell(2, 'T') =~= seq!['|', '_', ' ']);
    assert(cell(0, 'U') =~= seq![' ', ' ', ' ']);
    assert(cell(1, 'U') =~= seq!['|', ' ', '|']);
    assert(cell(2, 'U') =~= seq!['|', '_', '|']);
    assert(cell(0, 'V') =~= seq![' ', ' ', ' ']);
    assert(cell(1, 'V') =~= seq![' ', ' ', ' ']);
    assert(cell(2, 'V') =~= seq!['|', '_', '|']);
    assert(cell(0, 'W') =~= seq![' ', ' ', ' ']);
    assert(cell(1, 'W') =~= seq!['|', ' ', '|']);
    assert(cell(2, 'W') =~= seq!['|', '_', '|']);
    assert(cell(0, 'X') =~= seq![' ', ' ', ' ']);
    assert(cell(1, 'X') =~= seq!['|', '_', '|']);
    assert(cell(2, 'X') =~= seq!['|', ' ', '|']);
    assert(cell(0, 'Y') =~= seq![' ', ' ', ' ']);
    assert(cell(1, 'Y') =~= seq!['|', '_', '|']);
    assert(cell(2, 'Y') =~= seq![' ', '_', '|']);
    assert(cell(0, 'Z') =~= seq![' ', '_', ' ']);
    assert(cell(1, 'Z') =~= seq![' ', '_', '|']);
    assert(cell(2, 'Z') =~= seq!['|', '_', ' ']);
    assert(cell(0, '-') =~= seq![' ', ' ', ' ']);
    assert(cell(1, '-') =~= seq![' ', '_', ' ']);
    assert(cell(2, '-') =~= seq![' ', ' ', ' ']);
    assert(cell(0, '_') =~= seq![' ', ' ', ' ']);
    assert(cell(1, '_') =~= seq![' ', ' ', ' ']);
    assert(cell(2, '_') =~= seq![' ', '_', ' ']);
}

/// A text is drawn character by character, with a blank column between two.
pub proof fn texts_are_drawn_side_by_side(k: int, s: Seq<char>, c: char)
    ensures
        row(k, seq![c]) == cell(k, c),
        s.len() > 0 ==> row(k, s.push(c)) == row(k, s).push(' ') + cell(k, c),
{
    assert(s.push(c).drop_last() =~= s);
}

} // verus!
