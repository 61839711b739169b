//! The transcript as it is drawn: wrapped, styled and highlighted.
use crate::app;
use crate::app::{Line, LineKind};
use crate::selection;
use crate::text;
use crate::theme;
use crate::theme::Style;
use crate::ui::span;
use crate::ui::span::StyledLine;
use crate::ui::wrap;
use crate::words;
use vstd::prelude::*;

verus! {

// ---------------------------------------------------------------------------
// The tail
// ---------------------------------------------------------------------------
/// The style of an entry in the activity box.
pub open spec fn tail_style(kind: LineKind) -> Style {
    match kind {
        LineKind::Error => theme::on_black(theme::Color::Red, false),
        LineKind::System => theme::on_black(theme::Color::Green, false),
        _ => theme::on_black(theme::Color::GreenDim, false),
    }
}

/// Lines in one style.
pub open spec fn in_style(lines: Seq<Seq<char>>, style: Style) -> Seq<span::LineOfSpans> {
    lines.map_values(|l: Seq<char>| seq![span::styled(l, style)])
}

/// Entries as styled lines.
pub open spec fn entry_lines(entries: Seq<app::LineModel>) -> Seq<span::LineOfSpans>
    decreases entries.len(),
{
    if entries.len() == 0 {
        Seq::empty()
    } else {
        entry_lines(entries.drop_last()) + in_style(
            words::pieces(entries.last().text, '\n'),
            tail_style(entries.last().kind),
        )
    }
}

/// The last `n` entries, or all if there are fewer.
pub open spec fn last_entries(entries: Seq<app::LineModel>, n: nat) -> Seq<app::LineModel> {
    if entries.len() > n {
        entries.skip(entries.len() - n)
    } else {
        entries
    }
}

/// Puts the lines of an entry at the end.
fn push_entry(out: &mut Vec<StyledLine>, entry: &Line)
    ensures
        span::line_views(final(out)@) == span::line_views(old(out)@) + in_style(
            words::pieces(entry@.text, '\n'),
            tail_style(entry@.kind),
        ),
{
    broadcast use span::lemma_line_views_push;

    let ghost start = span::line_views(out@);
    let style = match entry.kind {
        LineKind::Error => theme::error(),
        LineKind::System => theme::base(),
        _ => theme::dim(),
    };
    let parts = words::split(entry.text.as_str(), '\n');
    let ghost all = in_style(text::texts(parts@), style);
    let mut i: usize = 0;
    assert(start + all.take(0) =~= start);
    while i < parts.len()
        invariant
            all == in_style(text::texts(parts@), style),
            0 <= i <= parts@.len(),
            span::line_views(out@) == start + all.take(i as int),
        decreases parts@.len() - i,
    {
        let line = StyledLine::of(parts[i].as_str(), style);
        assert(all[i as int] == line@);
        assert(start + all.take(i + 1) =~= (start + all.take(i as int)).push(line@));
        out.push(line);
        i += 1;
    }
    assert(all.take(i as int) =~= all);
}

/// The last `n` transcript entries as styled lines (for the resume activity
/// box).
pub fn tail_lines(transcript: &Vec<Line>, n: usize) -> (r: Vec<StyledLine>)
    ensures
        span::line_views(r@) == entry_lines(
            last_entries(app::line_models(transcript@), n as nat),
        ),
{
    let ghost all = app::line_models(transcript@);
    let ghost tail = last_entries(all, n as nat);
    let first: usize = if transcript.len() > n {
        transcript.len() - n
    } else {
        0
    };
    let mut out: Vec<StyledLine> = Vec::new();
    assert(span::line_views(out@) =~= Seq::<span::LineOfSpans>::empty());
    assert(tail =~= all.skip(first as int));
    let mut i: usize = first;
    while i < transcript.len()
        invariant
            all == app::line_models(transcript@),
            tail == all.skip(first as int),
            first <= i <= transcript@.len(),
            span::line_views(out@) == entry_lines(tail.take(i - first)),
        decreases transcript@.len() - i,
    {
        proof {
            let k = i - first;
            assert(tail.take(k + 1).drop_last() =~= tail.take(k));
            assert(tail.take(k + 1).last() == transcript@[i as int]@);
        }
        push_entry(&mut out, &transcript[i]);
        i += 1;
    }
    assert(tail.take(i - first) =~= tail);
    out
}

// ---------------------------------------------------------------------------
// The wrapped transcript
// ---------------------------------------------------------------------------
/// A wrapped line and its style.
pub type Visual = (Seq<char>, Style);

/// What stands before what a speaker says.
pub open spec fn speaker(kind: LineKind) -> Seq<char> {
    match kind {
        LineKind::User => "you › "@,
        LineKind::Assistant => "gpt › "@,
        LineKind::System => "· "@,
        LineKind::Error => "✗ "@,
    }
}

/// The style of what a speaker says.
pub open spec fn speaker_style(kind: LineKind) -> Style {
    match kind {
        LineKind::User => theme::on_black(theme::Color::Green, true),
        LineKind::Assistant => theme::on_black(theme::Color::Green, false),
        LineKind::System => theme::on_black(theme::Color::GreenDim, false),
        LineKind::Error => theme::on_black(theme::Color::Red, false),
    }
}

/// A line of an entry with its speaker: the first is marked, the others are
/// indented.
pub open spec fn marked(kind: LineKind, i: int, raw: Seq<char>) -> Seq<char> {
    if i == 0 {
        speaker(kind) + raw
    } else {
        "  "@ + raw
    }
}

/// Texts, each with a style.
pub open spec fn with_style(lines: Seq<Seq<char>>, style: Style) -> Seq<Visual> {
    lines.map_values(|l: Seq<char>| (l, style))
}

/// The first `n` lines of an entry, wrapped.
pub open spec fn wrapped_parts(
    kind: LineKind,
    parts: Seq<Seq<char>>,
    n: nat,
    width: nat,
) -> Seq<Visual>
    decreases n,
{
    if n == 0 {
        Seq::empty()
    } else {
        wrapped_parts(kind, parts, (n - 1) as nat, width) + with_style(
            wrap::wrapped(marked(kind, n - 1, parts[n - 1]), width),
            speaker_style(kind),
        )
    }
}

/// An entry, wrapped.
pub open spec fn wrapped_entry(entry: app::LineModel, width: nat) -> Seq<Visual> {
    let parts = words::pieces(entry.text, '\n');
    wrapped_parts(entry.kind, parts, parts.len(), width)
}

/// The transcript, wrapped.
pub open spec fn wrapped_entries(entries: Seq<app::LineModel>, width: nat) -> Seq<Visual>
    decreases entries.len(),
{
    if entries.len() == 0 {
        Seq::empty()
    } else {
        wrapped_entries(entries.drop_last(), width) + wrapped_entry(entries.last(), width)
    }
}

/// Wrapped lines, as models.
pub open spec fn visuals(s: Seq<(String, Style)>) -> Seq<Visual> {
    s.map_values(|v: (String, Style)| (v.0@, v.1))
}

/// Puts wrapped lines at the end.
fn push_wrapped(out: &mut Vec<(String, Style)>, logical: &str, style: Style, width: usize)
    ensures
        visuals(final(out)@) == visuals(old(out)@) + with_style(
            wrap::wrapped(logical@, width as nat),
            style,
        ),
{
    let ghost start = visuals(out@);
    let lines = wrap::wrap_line(logical, width);
    let ghost all = with_style(text::texts(lines@), style);
    let mut i: usize = 0;
    assert(start + all.take(0) =~= start);
    while i < lines.len()
        invariant
            all == with_style(text::texts(lines@), style),
            0 <= i <= lines@.len(),
            visuals(out@) == start + all.take(i as int),
        decreases lines@.len() - i,
    {
        let ghost before = out@;
        out.push((lines[i].clone(), style));
        proof {
            assert(all[i as int] == (lines@[i as int]@, style));
            assert(visuals(out@) =~= visuals(before).push((lines@[i as int]@, style)));
            assert(start + all.take(i + 1) =~= (start + all.take(i as int)).push(all[i as int]));
        }
        i += 1;
    }
    assert(all.take(i as int) =~= all);
}

/// Puts an entry at the end.
fn push_wrapped_entry(out: &mut Vec<(String, Style)>, entry: &Line, width: usize)
    ensures
        visuals(final(out)@) == visuals(old(out)@) + wrapped_entry(entry@, width as nat),
{
    let ghost start = visuals(out@);
    let (prefix, style) = match entry.kind {
        LineKind::User => ("you › ", theme::bright()),
        LineKind::Assistant => ("gpt › ", theme::base()),
        LineKind::System => ("· ", theme::dim()),
        LineKind::Error => ("✗ ", theme::error()),
    };
    let parts = words::split(entry.text.as_str(), '\n');
    let ghost all = text::texts(parts@);
    let mut i: usize = 0;
    assert(start + wrapped_parts(entry.kind, all, 0, width as nat) =~= start);
    while i < parts.len()
        invariant
            all == text::texts(parts@),
            prefix@ == speaker(entry.kind),
            style == speaker_style(entry.kind),
            0 <= i <= parts@.len(),
            visuals(out@) == start + wrapped_parts(entry.kind, all, i as nat, width as nat),
        decreases parts@.len() - i,
    {
        assert(all[i as int] == parts@[i as int]@);
        let logical = if i == 0 {
            text::chained(prefix, parts[i].as_str())
        } else {
            text::chained("  ", parts[i].as_str())
        };
        let ghost before = wrapped_parts(entry.kind, all, i as nat, width as nat);
        push_wrapped(out, logical.as_str(), style, width);
        proof {
            let more = with_style(wrap::wrapped(logical@, width as nat), style);
            assert(wrapped_parts(entry.kind, all, (i + 1) as nat, width as nat) == before + more);
            assert((start + before) + more =~= start + (before + more));
        }
        i += 1;
    }
}

/// Flattens the transcript into concrete wrapped visual lines paired with their
/// style. Each speaker prefix is folded into the text so that what you select is
/// exactly what you see (and copy).
pub fn wrap_transcript(transcript: &Vec<Line>, width: usize) -> (r: Vec<(String, Style)>)
    ensures
        visuals(r@) == wrapped_entries(app::line_models(transcript@), width as nat),
{
    let ghost all = app::line_models(transcript@);
    let mut out: Vec<(String, Style)> = Vec::new();
    assert(visuals(out@) =~= Seq::<Visual>::empty());
    let mut i: usize = 0;
    while i < transcript.len()
        invariant
            all == app::line_models(transcript@),
            0 <= i <= transcript@.len(),
            visuals(out@) == wrapped_entries(all.take(i as int), width as nat),
        decreases transcript@.len() - i,
    {
        proof {
            assert(all.take(i + 1).drop_last() =~= all.take(i as int));
            assert(all.take(i + 1).last() == transcript@[i as int]@);
        }
        push_wrapped_entry(&mut out, &transcript[i], width);
        i += 1;
    }
    assert(all.take(i as int) =~= all);
    out
}

// ---------------------------------------------------------------------------
// Highlighting
// ---------------------------------------------------------------------------
/// A style with its colors exchanged.
pub open spec fn reversed(style: Style) -> Style {
    Style { reversed: true, ..style }
}

/// A line cut at `from` and `to`, with what lies between reversed. Empty parts
/// are left out, but one is left where nothing else is.
pub open spec fn cut_line(s: Seq<char>, style: Style, from: int, to: int) -> span::LineOfSpans {
    let before = if from > 0 {
        seq![span::styled(s.subrange(0, from), style)]
    } else {
        Seq::empty()
    };
    let middle = if from < to {
        seq![span::styled(s.subrange(from, to), reversed(style))]
    } else {
        Seq::empty()
    };
    let after = if to < s.len() {
        seq![span::styled(s.subrange(to, s.len() as int), style)]
    } else {
        Seq::empty()
    };
    let all = before + middle + after;
    if all.len() == 0 {
        seq![span::styled(Seq::empty(), style)]
    } else {
        all
    }
}

/// A line as it is rendered under a selection.
pub open spec fn highlighted(
    idx: int,
    s: Seq<char>,
    style: Style,
    range: Option<(selection::Pos, selection::Pos)>,
) -> span::LineOfSpans {
    match range {
        Some((start, end)) => if start.0 <= idx <= end.0 {
            let (from, to) = selection::covered_columns(start, end, idx, s.len() as int);
            cut_line(s, style, from, to)
        } else {
            seq![span::styled(s, style)]
        },
        None => seq![span::styled(s, style)],
    }
}

/// Builds a rendered line, reverse-video highlighting the selected columns.
pub fn highlight_line(
    idx: usize,
    s: &str,
    style: Style,
    range: Option<(selection::Pos, selection::Pos)>,
) -> (r: StyledLine)
    ensures
        r@ == highlighted(idx as int, s@, style, range),
{
    let (start, end) = match range {
        Some((start, end)) => (start, end),
        None => return StyledLine::of(s, style),
    };
    if idx < start.0 || idx > end.0 {
        return StyledLine::of(s, style);
    }
    let chars = text::chars_of(s);
    let len: usize = chars.len();
    let (from, to) = selection::columns(start, end, idx, len);
    let mut line = StyledLine::empty();
    if from > 0 {
        line.add(text::string_between(&chars, 0, from).as_str(), style);
    }
    if from < to {
        let mut inverse = style;
        inverse.reversed = true;
        line.add(text::string_between(&chars, from, to).as_str(), inverse);
    }
    if to < len {
        line.add(text::string_between(&chars, to, len).as_str(), style);
    }
    if line.spans.len() == 0 {
        assert(line@.len() == 0);
        return StyledLine::of(String::new().as_str(), style);
    }
    assert(line@.len() > 0);
    assert(line@ =~= cut_line(s@, style, from as int, to as int));
    line
}

// ---------------------------------------------------------------------------
// The subscription
// ---------------------------------------------------------------------------
/// The friendly label of a plan.
pub open spec fn plan_label(plan: Seq<char>) -> Option<Seq<char>> {
    let plan = text::trimmed(plan);
    if plan.len() == 0 {
        None
    } else {
        Some(
            "ChatGPT "@ + (text::uppercase(plan[0]) + plan.skip(1)) + " subscription"@,
        )
    }
}

/// Turns a raw plan claim ("plus", "pro", …) into a friendly subscription label,
/// e.g. "ChatGPT Plus subscription". Empty plan → no label.
pub fn subscription_label(plan: &str) -> (r: Option<String>)
    ensures
        text::opt_text(r) == plan_label(plan@),
{
    let plan = text::trim(plan);
    let chars = text::chars_of(plan.as_str());
    if chars.len() == 0 {
        return None;
    }
    let mut capitalized = text::upper_text(chars[0]);
    capitalized.append(text::string_between(&chars, 1, chars.len()).as_str());
    assert(plan@.skip(1) =~= chars@.subrange(1, chars@.len() as int));
    let mut r = text::owned("ChatGPT ");
    r.append(capitalized.as_str());
    r.append(" subscription");
    Some(r)
}

// ---------------------------------------------------------------------------
// Laws
// ---------------------------------------------------------------------------
/// The text of a line that is reversed.
pub open spec fn reversed_text(l: span::LineOfSpans) -> Seq<char>
    decreases l.len(),
{
    if l.len() == 0 {
        Seq::empty()
    } else if l.last().style.reversed {
        reversed_text(l.drop_last()) + l.last().text
    } else {
        reversed_text(l.drop_last())
    }
}

proof fn lemma_line_text_add(a: span::LineOfSpans, b: span::LineOfSpans)
    ensures
        span::line_text(a + b) == span::line_text(a) + span::line_text(b),
        reversed_text(a + b) == reversed_text(a) + reversed_text(b),
    decreases b.len(),
{
    if b.len() == 0 {
        assert(a + b =~= a);
    } else {
        lemma_line_text_add(a, b.drop_last());
        assert((a + b).drop_last() =~= a + b.drop_last());
        assert((a + b).last() == b.last());
    }
}

proof fn lemma_one_span(s: span::SpanModel)
    ensures
        span::line_text(seq![s]) == s.text,
        reversed_text(seq![s]) == if s.style.reversed {
            s.text
        } else {
            Seq::empty()
        },
{
    let l = seq![s];
    assert(l.drop_last() =~= Seq::<span::SpanModel>::empty());
    assert(span::line_text(l.drop_last()) == Seq::<char>::empty());
    assert(reversed_text(l.drop_last()) == Seq::<char>::empty());
    assert(l.last() == s);
    assert(span::line_text(l) =~= s.text);
}

proof fn lemma_cut_line(s: Seq<char>, style: Style, from: int, to: int)
    requires
        0 <= from <= to <= s.len(),
        !style.reversed,
    ensures
        span::line_text(cut_line(s, style, from, to)) == s,
        reversed_text(cut_line(s, style, from, to)) == s.subrange(from, to),
{
    let none = Seq::<span::SpanModel>::empty();
    let a = span::styled(s.subrange(0, from), style);
    let b = span::styled(s.subrange(from, to), reversed(style));
    let c = span::styled(s.subrange(to, s.len() as int), style);
    lemma_one_span(a);
    lemma_one_span(b);
    lemma_one_span(c);
    lemma_one_span(span::styled(Seq::empty(), style));
    let before = if from > 0 {
        seq![a]
    } else {
        none
    };
    let middle = if from < to {
        seq![b]
    } else {
        none
    };
    let after = if to < s.len() {
        seq![c]
    } else {
        none
    };
    assert(span::line_text(before) =~= s.subrange(0, from));
    assert(span::line_text(middle) =~= s.subrange(from, to));
    assert(span::line_text(after) =~= s.subrange(to, s.len() as int));
    assert(reversed_text(before) =~= Seq::<char>::empty());
    assert(reversed_text(middle) =~= s.subrange(from, to));
    assert(reversed_text(after) =~= Seq::<char>::empty());
    lemma_line_text_add(before, middle);
    lemma_line_text_add(before + middle, after);
    assert(s.subrange(0, from) + s.subrange(from, to) + s.subrange(to, s.len() as int) =~= s);
    assert(Seq::<char>::empty() + s.subrange(from, to) + Seq::<char>::empty() =~= s.subrange(
        from,
        to,
    ));
}

/// Highlighting a line leaves its text as it is.
pub proof fn highlighting_keeps_the_text(
    idx: int,
    s: Seq<char>,
    style: Style,
    range: Option<(selection::Pos, selection::Pos)>,
)
    requires
        !style.reversed,
        range matches Some((start, end)) ==> selection::at_or_before(start, end),
    ensures
        span::line_text(highlighted(idx, s, style, range)) == s,
{
    lemma_one_span(span::styled(s, style));
    if let Some((start, end)) = range {
        if start.0 <= idx <= end.0 {
            let (from, to) = selection::covered_columns(start, end, idx, s.len() as int);
            lemma_cut_line(s, style, from, to);
        }
    }
}

/// What is reversed on a line is what the selection covers of it.
pub proof fn what_is_reversed_is_selected(
    idx: int,
    s: Seq<char>,
    style: Style,
    start: selection::Pos,
    end: selection::Pos,
)
    requires
        !style.reversed,
        selection::at_or_before(start, end),
        start.0 <= idx <= end.0,
    ensures
        reversed_text(highlighted(idx, s, style, Some((start, end)))) == selection::covered_text(
            s,
            start,
            end,
            idx,
        ),
{
    let (from, to) = selection::covered_columns(start, end, idx, s.len() as int);
    lemma_cut_line(s, style, from, to);
    assert(s.subrange(from, from) =~= Seq::<char>::empty());
}

/// Nothing is reversed on a line that the selection does not reach.
pub proof fn other_lines_are_not_reversed(
    idx: int,
    s: Seq<char>,
    style: Style,
    range: Option<(selection::Pos, selection::Pos)>,
)
    requires
        !style.reversed,
        range matches Some((start, end)) ==> idx < start.0 || idx > end.0,
    ensures
        reversed_text(highlighted(idx, s, style, range)) == Seq::<char>::empty(),
{
    lemma_one_span(span::styled(s, style));
}

/// What is copied is what is highlighted: the reversed text of the selected
/// lines, with a line break between two lines.
pub proof fn what_is_copied_is_what_is_seen(
    lines: Seq<Seq<char>>,
    style: Style,
    start: selection::Pos,
    end: selection::Pos,
)
    requires
        !style.reversed,
        selection::at_or_before(start, end),
    ensures
        selection::selected_text(lines, start, end) == words::joined(
            Seq::new(
                selection::covered_lines(lines.len(), start, end),
                |j: int|
                    reversed_text(
                        highlighted(start.0 + j, lines[start.0 + j], style, Some((start, end))),
                    ),
            ),
            seq!['\n'],
        ),
{
    let n = selection::covered_lines(lines.len(), start, end);
    let seen = Seq::new(
        n,
        |j: int|
            reversed_text(
                highlighted(start.0 + j, lines[start.0 + j], style, Some((start, end))),
            ),
    );
    let copied = Seq::new(
        n,
        |j: int| selection::covered_text(lines[start.0 + j], start, end, start.0 + j),
    );
    assert forall|j: int| 0 <= j < n implies #[trigger] seen[j] == copied[j] by {
        what_is_reversed_is_selected(start.0 + j, lines[start.0 + j], style, start, end);
    }
    assert(seen =~= copied);
}

proof fn lemma_parts_fit(kind: LineKind, parts: Seq<Seq<char>>, n: nat, width: nat)
    requires
        width > 0,
    ensures
        forall|k: int|
            0 <= k < wrapped_parts(kind, parts, n, width).len() ==> (#[trigger] wrapped_parts(
                kind,
                parts,
                n,
                width,
            )[k]).0.len() <= width,
    decreases n,
{
    if n > 0 {
        let before = wrapped_parts(kind, parts, (n - 1) as nat, width);
        let last = wrap::wrapped(marked(kind, n - 1, parts[n - 1]), width);
        let all = wrapped_parts(kind, parts, n, width);
        lemma_parts_fit(kind, parts, (n - 1) as nat, width);
        wrap::lines_fit(marked(kind, n - 1, parts[n - 1]), width);
        assert forall|k: int| 0 <= k < all.len() implies (#[trigger] all[k]).0.len() <= width by {
            if k < before.len() {
                assert(all[k] == before[k]);
            } else {
                assert(all[k].0 == last[k - before.len()]);
            }
        }
    }
}

/// Every line of the wrapped transcript fits the width.
pub proof fn the_transcript_fits(entries: Seq<app::LineModel>, width: nat)
    requires
        width > 0,
    ensures
        forall|k: int|
            0 <= k < wrapped_entries(entries, width).len() ==> (#[trigger] wrapped_entries(
                entries,
                width,
            )[k]).0.len() <= width,
    decreases entries.len(),
{
    if entries.len() > 0 {
        let before = wrapped_entries(entries.drop_last(), width);
        let last = wrapped_entry(entries.last(), width);
        let all = wrapped_entries(entries, width);
        the_transcript_fits(entries.drop_last(), width);
        let parts = words::pieces(entries.last().text, '\n');
        lemma_parts_fit(entries.last().kind, parts, parts.len(), width);
        assert forall|k: int| 0 <= k < all.len() implies (#[trigger] all[k]).0.len() <= width by {
            if k < before.len() {
                assert(all[k] == before[k]);
            } else {
                assert(all[k] == last[k - before.len()]);
            }
        }
    }
}

/// Every entry shows, even one without text.
pub proof fn every_entry_shows(entry: app::LineModel, width: nat)
    requires
        width > 0,
    ensures
        wrapped_entry(entry, width).len() > 0,
{
    let parts = words::pieces(entry.text, '\n');
    words::lemma_pieces_nonempty(entry.text, '\n');
    wrap::lines_fit(marked(entry.kind, parts.len() - 1, parts[parts.len() - 1]), width);
}

/// The transcript shows its entries in their order, each below the one before.
pub proof fn entries_show_in_order(
    entries: Seq<app::LineModel>,
    entry: app::LineModel,
    width: nat,
)
    ensures
        wrapped_entries(entries.push(entry), width) == wrapped_entries(entries, width)
            + wrapped_entry(entry, width),
        wrapped_entries(Seq::empty(), width).len() == 0,
{
    assert(entries.push(entry).drop_last() =~= entries);
}

/// An entry of one line that fits shows as it is, behind the mark of its speaker
/// and in its style.
pub proof fn short_entries_show_as_they_are(said: Seq<char>, width: nat)
    requires
        !said.contains('\n'),
        said.len() + 6 <= width,
    ensures
        wrapped_entry(app::LineModel { kind: LineKind::User, text: said }, width) == seq![
            ("you › "@ + said, theme::on_black(theme::Color::Green, true)),
        ],
        wrapped_entry(app::LineModel { kind: LineKind::Assistant, text: said }, width) == seq![
            ("gpt › "@ + said, theme::on_black(theme::Color::Green, false)),
        ],
        wrapped_entry(app::LineModel { kind: LineKind::System, text: said }, width) == seq![
            ("· "@ + said, theme::on_black(theme::Color::GreenDim, false)),
        ],
        wrapped_entry(app::LineModel { kind: LineKind::Error, text: said }, width) == seq![
            ("✗ "@ + said, theme::on_black(theme::Color::Red, false)),
        ],
{
    reveal_strlit("you › ");
    reveal_strlit("gpt › ");
    reveal_strlit("· ");
    reveal_strlit("✗ ");
    assert forall|k: int| 0 <= k < said.len() implies #[trigger] said[k] != '\n' by {
        assert(said.contains(said[k]));
    }
    words::lemma_one_piece(said, '\n');
    lemma_short_entry(LineKind::User, said, width);
    lemma_short_entry(LineKind::Assistant, said, width);
    lemma_short_entry(LineKind::System, said, width);
    lemma_short_entry(LineKind::Error, said, width);
}

proof fn lemma_short_entry(kind: LineKind, said: Seq<char>, width: nat)
    requires
        words::pieces(said, '\n') == seq![said],
        speaker(kind).len() + said.len() <= width,
        speaker(kind).len() > 0,
        speaker(kind)[0] != ' ',
    ensures
        wrapped_entry(app::LineModel { kind, text: said }, width) == seq![
            (speaker(kind) + said, speaker_style(kind)),
        ],
{
    let entry = app::LineModel { kind, text: said };
    let parts = seq![said];
    let line = speaker(kind) + said;
    wrap::short_text_is_kept(line, width);
    reveal_with_fuel(wrapped_parts, 2);
    assert(wrapped_entry(entry, width) =~= Seq::<Visual>::empty() + with_style(
        seq![line],
        speaker_style(kind),
    ));
    assert(wrapped_entry(entry, width) =~= seq![(line, speaker_style(kind))]);
}

/// The activity box shows the last entries, line by line: errors in red, what
/// klawply says in green, the rest dim.
pub proof fn the_tail_shows_the_last_entries(
    entries: Seq<app::LineModel>,
    entry: app::LineModel,
    n: nat,
)
    ensures
        entries.len() <= n ==> last_entries(entries, n) == entries,
        entries.len() > n ==> last_entries(entries, n).len() == n && last_entries(entries, n)
            == entries.subrange(entries.len() - n, entries.len() as int),
        entry_lines(entries.push(entry)) == entry_lines(entries) + words::pieces(
            entry.text,
            '\n',
        ).map_values(
            |l: Seq<char>|
                seq![
                    span::SpanModel {
                        text: l,
                        style: theme::on_black(
                            if entry.kind == LineKind::Error {
                                theme::Color::Red
                            } else if entry.kind == LineKind::System {
                                theme::Color::Green
                            } else {
                                theme::Color::GreenDim
                            },
                            false,
                        ),
                    },
                ],
        ),
{
    if entries.len() > n {
        assert(last_entries(entries, n) =~= entries.subrange(
            entries.len() - n,
            entries.len() as int,
        ));
    }
    assert(entries.push(entry).drop_last() =~= entries);
    let shown = words::pieces(entry.text, '\n').map_values(
        |l: Seq<char>|
            seq![
                span::SpanModel {
                    text: l,
                    style: theme::on_black(
                        if entry.kind == LineKind::Error {
                            theme::Color::Red
                        } else if entry.kind == LineKind::System {
                            theme::Color::Green
                        } else {
                            theme::Color::GreenDim
                        },
                        false,
                    ),
                },
            ],
    );
    assert(in_style(words::pieces(entry.text, '\n'), tail_style(entry.kind)) =~= shown);
}

/// The label of a plan names it with a capital, between fixed words; a blank plan
/// has none.
pub proof fn the_label_names_the_plan(plan: Seq<char>, first: char, rest: Seq<char>)
    ensures
        text::is_blank(plan) ==> plan_label(plan) is None,
        text::trimmed(plan) == seq![first] + rest ==> plan_label(plan) == Some(
            "ChatGPT "@ + (text::uppercase(first) + rest) + " subscription"@,
        ),
{
    text::lemma_trimmed_empty(plan);
    assert((seq![first] + rest).skip(1) =~= rest);
}

} // verus!
