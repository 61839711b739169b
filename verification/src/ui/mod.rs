//! What the screens show. Green phosphor on black, with a seven-segment title.
//! Three screens: connect, resume, chat.
use crate::app;
use crate::app::{App, Rect, Screen};
use crate::text;
use crate::theme;
use crate::theme::Style;
use crate::ui::layout::Size;
use crate::ui::span::{Border, Content, Panel, Span, StyledLine};
use vstd::prelude::*;

pub mod layout;
pub mod loader;
pub mod seven_segment;
pub mod span;
pub mod transcript;
pub mod wrap;

verus! {

/// Ordinary text.
pub open spec fn base_style() -> Style {
    theme::on_black(theme::Color::Green, false)
}

/// Secondary text.
pub open spec fn dim_style() -> Style {
    theme::on_black(theme::Color::GreenDim, false)
}

/// Text that stands out.
pub open spec fn bright_style() -> Style {
    theme::on_black(theme::Color::Green, true)
}

/// Text that the user must act on.
pub open spec fn accent_style() -> Style {
    theme::on_black(theme::Color::Amber, true)
}

/// A line in one style.
pub open spec fn one(said: Seq<char>, style: Style) -> span::LineOfSpans {
    seq![span::styled(said, style)]
}

/// An empty line.
pub open spec fn gap() -> span::LineOfSpans {
    Seq::empty()
}

fn no_lines() -> (r: Vec<StyledLine>)
    ensures
        span::line_views(r@) == Seq::<span::LineOfSpans>::empty(),
{
    let r: Vec<StyledLine> = Vec::new();
    assert(span::line_views(r@) =~= Seq::<span::LineOfSpans>::empty());
    r
}

fn one_line(line: StyledLine) -> (r: Vec<StyledLine>)
    ensures
        span::line_views(r@) == seq![line@],
{
    let mut r: Vec<StyledLine> = Vec::new();
    r.push(line);
    assert(span::line_views(r@) =~= seq![line@]);
    r
}

fn add_line(out: &mut Vec<StyledLine>, line: StyledLine)
    ensures
        span::line_views(final(out)@) == span::line_views(old(out)@).push(line@),
{
    broadcast use span::lemma_line_views_push;

    out.push(line);
}

fn add_lines(out: &mut Vec<StyledLine>, more: Vec<StyledLine>)
    ensures
        span::line_views(final(out)@) == span::line_views(old(out)@) + span::line_views(more@),
{
    let ghost before = out@;
    let mut rest = more;
    out.append(&mut rest);
    assert(span::line_views(out@) =~= span::line_views(before) + span::line_views(more@));
}

// ---------------------------------------------------------------------------
// Connect screen
// ---------------------------------------------------------------------------
/// A text in the seven-segment font as a centered title.
pub open spec fn title_panel(said: Seq<char>, area: Rect) -> span::PanelModel {
    span::PanelModel {
        centered: true,
        ..span::plain_panel(
            area,
            Seq::new(3, |k: int| one(seven_segment::row(k, said), bright_style())),
        )
    }
}

/// Renders `said` in the seven-segment font as a centered green title.
pub fn seven_segment_title(said: &str, area: Rect) -> (r: Panel)
    ensures
        r@ == title_panel(said@, area),
{
    let rows = seven_segment::render(said);
    let mut lines = no_lines();
    add_line(&mut lines, StyledLine::of(rows[0].as_str(), theme::bright()));
    add_line(&mut lines, StyledLine::of(rows[1].as_str(), theme::bright()));
    add_line(&mut lines, StyledLine::of(rows[2].as_str(), theme::bright()));
    assert(span::line_views(lines@) =~= Seq::new(
        3,
        |k: int| one(seven_segment::row(k, said@), bright_style()),
    ));
    let mut panel = Panel::plain(area, lines);
    panel.centered = true;
    panel
}

/// Who is connected, or how to connect.
pub open spec fn connection_lines(a: app::AppModel) -> Seq<span::LineOfSpans> {
    if a.email.len() > 0 {
        seq![
            one(
                "Connected as "@ + a.email + (match transcript::plan_label(a.plan) {
                    Some(label) => " · "@ + label,
                    None => Seq::empty(),
                }),
                base_style(),
            ),
        ]
    } else {
        match a.connect_url {
            Some(url) => seq![
                one("Your browser was opened to authorize klawply."@, base_style()),
                one(
                    "If it didn't open, copy this link (press c) and log in with your ChatGPT account:"@,
                    base_style(),
                ),
                gap(),
                one(url, accent_style()),
                gap(),
                one("[ press  c  to copy this link to your clipboard ]"@, bright_style()),
            ],
            None => seq![
                one("Log in with your ChatGPT subscription to power klawply."@, base_style()),
            ],
        }
    }
}

/// What the connect screen says.
pub open spec fn connect_lines(a: app::AppModel, step: int) -> Seq<span::LineOfSpans> {
    let top = seq![one("CONNECT CHATGPT SUBSCRIPTION"@, bright_style())].push(gap())
        + connection_lines(a);
    let spun = if a.busy {
        (top.push(gap()) + loader::square(step, Seq::empty())).push(gap())
    } else {
        top.push(gap())
    };
    let told = if a.status.len() > 0 {
        spun.push(one(a.status, dim_style()))
    } else {
        spun
    };
    let footer = if a.connect_url is Some {
        "c: copy link   ·   Enter: retry   ·   q: quit"@
    } else {
        "Enter: connect   ·   q: quit"@
    };
    told.push(gap()).push(one(footer, dim_style()))
}

/// The connect screen: the title, and the rest below it.
pub open spec fn connect_panels(a: app::AppModel, title: Rect, body: Rect, step: int) -> Seq<
    span::PanelModel,
> {
    seq![
        title_panel("KLAWPLY"@, title),
        span::PanelModel {
            centered: true,
            wrap: true,
            ..span::plain_panel(body, connect_lines(a, step))
        },
    ]
}

fn connection_text(app: &App) -> (r: Vec<StyledLine>)
    ensures
        span::line_views(r@) == connection_lines(app@),
{
    let mut lines = no_lines();
    if !app.email.as_str().is_empty() {
        let mut said = text::chained("Connected as ", app.email.as_str());
        let plan = match transcript::subscription_label(app.plan.as_str()) {
            Some(label) => text::chained(" · ", label.as_str()),
            None => String::new(),
        };
        said.append(plan.as_str());
        add_line(&mut lines, StyledLine::of(said.as_str(), theme::base()));
        assert(span::line_views(lines@) =~= connection_lines(app@));
        return lines;
    }
    match &app.connect_url {
        Some(url) => {
            add_line(
                &mut lines,
                StyledLine::of("Your browser was opened to authorize klawply.", theme::base()),
            );
            add_line(
                &mut lines,
                StyledLine::of(
                    "If it didn't open, copy this link (press c) and log in with your ChatGPT account:",
                    theme::base(),
                ),
            );
            add_line(&mut lines, StyledLine::empty());
            add_line(&mut lines, StyledLine::of(url.as_str(), theme::accent()));
            add_line(&mut lines, StyledLine::empty());
            add_line(
                &mut lines,
                StyledLine::of(
                    "[ press  c  to copy this link to your clipboard ]",
                    theme::bright(),
                ),
            );
            assert(span::line_views(lines@) =~= connection_lines(app@));
        },
        None => {
            add_line(
                &mut lines,
                StyledLine::of(
                    "Log in with your ChatGPT subscription to power klawply.",
                    theme::base(),
                ),
            );
            assert(span::line_views(lines@) =~= connection_lines(app@));
        },
    }
    lines
}

/// The connect screen in given areas, at a step of the animation.
pub fn show_connect(app: &App, title: Rect, body: Rect, step: usize) -> (r: Vec<Panel>)
    ensures
        span::panel_views(r@) == connect_panels(app@, title, body, step as int),
{
    proof {
        reveal_strlit("");
        assert(""@ =~= Seq::<char>::empty());
    }
    let mut lines = one_line(StyledLine::of("CONNECT CHATGPT SUBSCRIPTION", theme::bright()));
    add_line(&mut lines, StyledLine::empty());
    add_lines(&mut lines, connection_text(app));
    add_line(&mut lines, StyledLine::empty());
    if app.busy {
        add_lines(&mut lines, loader::loader_lines("", step));
        add_line(&mut lines, StyledLine::empty());
    }
    if !app.status.as_str().is_empty() {
        add_line(&mut lines, StyledLine::of(app.status.as_str(), theme::dim()));
    }
    add_line(&mut lines, StyledLine::empty());
    let footer = if app.connect_url.is_some() {
        "c: copy link   ·   Enter: retry   ·   q: quit"
    } else {
        "Enter: connect   ·   q: quit"
    };
    add_line(&mut lines, StyledLine::of(footer, theme::dim()));
    assert(span::line_views(lines@) == connect_lines(app@, step as int));
    let mut panel = Panel::plain(body, lines);
    panel.centered = true;
    panel.wrap = true;
    let mut r: Vec<Panel> = Vec::new();
    r.push(seven_segment_title("KLAWPLY", title));
    r.push(panel);
    assert(span::panel_views(r@) =~= connect_panels(app@, title, body, step as int));
    r
}

/// The rows of the connect screen.
pub open spec fn connect_rows() -> Seq<Size> {
    seq![Size::Length(6), Size::Min(0)]
}

/// The connect screen in `area`, at a step of the animation.
pub fn draw_connect(app: &App, area: Rect, step: usize) -> (r: Vec<Panel>)
    ensures
        exists|parts: Seq<Rect>, body: Rect|
            layout::splits_into_rows(area, connect_rows(), parts) && layout::rows_across(
                parts,
                area,
                2,
            ) && layout::is_centered(body, parts[1], 80) && span::panel_views(r@)
                == #[trigger] connect_panels(app@, parts[0], body, step as int),
{
    let mut sizes: Vec<Size> = Vec::new();
    sizes.push(Size::Length(6));
    sizes.push(Size::Min(0));
    assert(sizes@ =~= connect_rows());
    let parts = layout::split_rows(area, &sizes);
    let body = layout::centered(parts[1], 80);
    let r = show_connect(app, parts[0], body, step);
    assert(span::panel_views(r@) == connect_panels(app@, parts@[0], body, step as int));
    r
}

// ---------------------------------------------------------------------------
// Resume screen
// ---------------------------------------------------------------------------
/// The border of a box that is locked while the agent works.
pub open spec fn lock_style(busy: bool) -> Style {
    if busy {
        dim_style()
    } else {
        base_style()
    }
}

fn locked(busy: bool) -> (r: Style)
    ensures
        r == lock_style(busy),
{
    if busy {
        theme::dim()
    } else {
        theme::base()
    }
}

/// The resume editor.
pub open spec fn editor_panel(a: app::AppModel, area: Rect) -> span::PanelModel {
    span::PanelModel {
        content: if a.input.len() == 0 {
            span::ContentModel::Lines(
                seq![one("Paste your full resume text here…"@, dim_style())],
            )
        } else {
            span::ContentModel::Plain(a.input.push('\u{2588}'))
        },
        wrap: true,
        border: Some(
            span::BorderModel {
                style: lock_style(a.busy),
                title: Some(span::styled(" resume.txt "@, base_style())),
            },
        ),
        ..span::plain_panel(area, Seq::empty())
    }
}

/// What the activity box says: the tail of the transcript, so that status and
/// errors from the extraction step are visible.
pub open spec fn activity_lines(a: app::AppModel) -> Seq<span::LineOfSpans> {
    let notes = transcript::entry_lines(transcript::last_entries(a.transcript, 4));
    if notes.len() == 0 {
        seq![
            one("Paste your resume above, then press Enter (or Ctrl+D) to save."@, dim_style()),
        ]
    } else {
        notes
    }
}

/// The activity box.
pub open spec fn activity_panel(a: app::AppModel, area: Rect) -> span::PanelModel {
    span::PanelModel {
        wrap: true,
        border: Some(
            span::BorderModel {
                style: dim_style(),
                title: Some(span::styled(" activity "@, dim_style())),
            },
        ),
        ..span::plain_panel(area, activity_lines(a))
    }
}

/// A header, with the loading animation below it while the agent works.
pub open spec fn head_panels(
    a: app::AppModel,
    header: span::LineOfSpans,
    areas: Seq<Rect>,
    step: int,
) -> Seq<span::PanelModel> {
    let top = seq![span::plain_panel(areas[0], seq![header])];
    if a.busy {
        top.push(span::plain_panel(areas[1], loader::square(step, a.status)))
    } else {
        top
    }
}

/// The header of the resume screen.
pub open spec fn resume_header() -> span::LineOfSpans {
    one("KLAWPLY "@, bright_style()).push(span::styled("· paste your resume"@, dim_style()))
}

/// The resume screen: header, animation, editor, activity and footer.
pub open spec fn resume_panels(a: app::AppModel, areas: Seq<Rect>, step: int) -> Seq<
    span::PanelModel,
> {
    head_panels(a, resume_header(), areas, step).push(editor_panel(a, areas[2])).push(
        activity_panel(a, areas[3]),
    ).push(
        span::plain_panel(
            areas[4],
            seq![one("Enter / Ctrl+D: save & continue   ·   Ctrl+C: quit"@, dim_style())],
        ),
    )
}

/// A header, with the loading animation below it while the agent works.
fn show_head(app: &App, header: StyledLine, areas: &Vec<Rect>, step: usize) -> (r: Vec<Panel>)
    requires
        areas@.len() > 1,
    ensures
        span::panel_views(r@) == head_panels(app@, header@, areas@, step as int),
{
    let mut r: Vec<Panel> = Vec::new();
    r.push(Panel::plain(areas[0], one_line(header)));
    assert(span::panel_views(r@) =~= seq![span::plain_panel(areas@[0], seq![header@])]);
    if app.busy {
        let square = loader::loader_lines(app.status.as_str(), step);
        add_panel(&mut r, Panel::plain(areas[1], square));
    }
    r
}

fn add_panel(out: &mut Vec<Panel>, panel: Panel)
    ensures
        span::panel_views(final(out)@) == span::panel_views(old(out)@).push(panel@),
{
    broadcast use span::lemma_panel_views_push;

    out.push(panel);
}

/// The resume screen in given areas, at a step of the animation.
pub fn show_resume(app: &App, areas: &Vec<Rect>, step: usize) -> (r: Vec<Panel>)
    requires
        areas@.len() == 5,
    ensures
        span::panel_views(r@) == resume_panels(app@, areas@, step as int),
{
    let mut header = StyledLine::of("KLAWPLY ", theme::bright());
    header.add("· paste your resume", theme::dim());
    let mut r = show_head(app, header, areas, step);
    let content = if app.input.as_str().is_empty() {
        Content::Lines(
            one_line(StyledLine::of("Paste your full resume text here…", theme::dim())),
        )
    } else {
        let mut said = app.input.clone();
        said.push('\u{2588}');
        Content::Plain(said)
    };
    let mut editor = Panel::plain(areas[2], no_lines());
    editor.content = content;
    editor.wrap = true;
    editor.border =
    Some(
        Border {
            style: locked(app.busy),
            title: Some(Span::styled(" resume.txt ", theme::base())),
        },
    );
    add_panel(&mut r, editor);
    let mut notes = transcript::tail_lines(&app.transcript, 4);
    if notes.len() == 0 {
        assert(span::line_views(notes@).len() == 0);
        notes =
        one_line(
            StyledLine::of(
                "Paste your resume above, then press Enter (or Ctrl+D) to save.",
                theme::dim(),
            ),
        );
    }
    assert(span::line_views(notes@) == activity_lines(app@));
    let mut activity = Panel::plain(areas[3], notes);
    activity.wrap = true;
    activity.border =
    Some(Border { style: theme::dim(), title: Some(Span::styled(" activity ", theme::dim())) });
    add_panel(&mut r, activity);
    add_panel(
        &mut r,
        Panel::plain(
            areas[4],
            one_line(
                StyledLine::of(
                    "Enter / Ctrl+D: save & continue   ·   Ctrl+C: quit",
                    theme::dim(),
                ),
            ),
        ),
    );
    r
}

/// How high the loading animation is.
pub open spec fn loader_height(busy: bool) -> Size {
    if busy {
        Size::Length(3)
    } else {
        Size::Length(0)
    }
}

fn loader_size(busy: bool) -> (r: Size)
    ensures
        r == loader_height(busy),
{
    if busy {
        Size::Length(3)
    } else {
        Size::Length(0)
    }
}

/// The rows of the resume screen.
pub open spec fn resume_rows(busy: bool) -> Seq<Size> {
    seq![
        Size::Length(2),
        loader_height(busy),
        Size::Min(3),
        Size::Length(6),
        Size::Length(1),
    ]
}

/// The resume screen in `area`, at a step of the animation.
pub fn draw_resume(app: &App, area: Rect, step: usize) -> (r: Vec<Panel>)
    ensures
        exists|parts: Seq<Rect>|
            layout::splits_into_rows(area, resume_rows(app@.busy), parts) && layout::rows_across(
                parts,
                area,
                5,
            ) && span::panel_views(r@) == #[trigger] resume_panels(app@, parts, step as int),
{
    let mut sizes: Vec<Size> = Vec::new();
    sizes.push(Size::Length(2));
    sizes.push(loader_size(app.busy));
    sizes.push(Size::Min(3));
    sizes.push(Size::Length(6));
    sizes.push(Size::Length(1));
    assert(sizes@ =~= resume_rows(app@.busy));
    let parts = layout::split_rows(area, &sizes);
    show_resume(app, &parts, step)
}

// ---------------------------------------------------------------------------
// Chat screen
// ---------------------------------------------------------------------------
/// The transcript as it is wrapped in an area.
pub open spec fn wrapped_in(a: app::AppModel, area: Rect) -> Seq<transcript::Visual> {
    transcript::wrapped_entries(
        a.transcript,
        (if area.width == 0 {
            1
        } else {
            area.width as nat
        }),
    )
}

/// How far the transcript can be scrolled up: by as many lines as do not fit.
pub open spec fn max_scroll(a: app::AppModel, area: Rect) -> int {
    let total = wrapped_in(a, area).len();
    if total > area.height {
        total - area.height
    } else {
        0
    }
}

/// How far it is scrolled up.
pub open spec fn actual_scroll(a: app::AppModel, area: Rect) -> int {
    app::smaller(a.scroll as int, max_scroll(a, area))
}

/// The first line that shows.
pub open spec fn first_visible(a: app::AppModel, area: Rect) -> int {
    max_scroll(a, area) - actual_scroll(a, area)
}

/// How many lines show.
pub open spec fn visible_count(a: app::AppModel, area: Rect) -> int {
    app::smaller(area.height as int, wrapped_in(a, area).len() - first_visible(a, area))
}

/// The state after the transcript was drawn in an area: the scroll position is
/// clamped, and the wrapped lines and where they stand are published so that
/// mouse selection can be resolved.
pub open spec fn chat_shown(a: app::AppModel, area: Rect) -> app::AppModel {
    app::AppModel {
        scroll: actual_scroll(a, area) as u16,
        chat_lines: wrapped_in(a, area).map_values(|v: transcript::Visual| v.0),
        chat_area: area,
        chat_top: first_visible(a, area) as usize,
        ..a
    }
}

/// The selected range.
pub open spec fn selected_range(a: app::AppModel) -> Option<
    (crate::selection::Pos, crate::selection::Pos),
> {
    match a.selection {
        Some(s) => s.ordered(),
        None => None,
    }
}

/// The line that shows in row `k` of the transcript.
pub open spec fn visible_line(a: app::AppModel, area: Rect, k: int) -> span::LineOfSpans {
    let idx = first_visible(a, area) + k;
    let (said, style) = wrapped_in(a, area)[idx];
    transcript::highlighted(idx, said, style, selected_range(a))
}

/// The lines that show.
pub open spec fn visible_lines(a: app::AppModel, area: Rect) -> Seq<span::LineOfSpans> {
    Seq::new(visible_count(a, area) as nat, |k: int| visible_line(a, area, k))
}

/// The header of the chat screen: brand and who is signed in.
pub open spec fn chat_header(a: app::AppModel) -> span::LineOfSpans {
    let brand = one("KLAWPLY"@, bright_style());
    let named = if a.email.len() > 0 {
        brand.push(span::styled("   "@ + a.email, dim_style()))
    } else {
        brand
    };
    match transcript::plan_label(a.plan) {
        Some(label) => named.push(span::styled("   "@ + label, dim_style())),
        None => named,
    }
}

/// What the input box says: a placeholder until the user types.
pub open spec fn input_line(a: app::AppModel) -> span::LineOfSpans {
    let prompt = one("› "@, accent_style());
    if a.input.len() == 0 && !a.busy {
        prompt.push(
            span::styled("Paste a job link to apply, or ask a question…"@, dim_style()),
        )
    } else if a.busy {
        prompt.push(span::styled(a.input, bright_style()))
    } else {
        prompt.push(span::styled(a.input.push('\u{2588}'), bright_style()))
    }
}

/// The input box.
pub open spec fn input_panel(a: app::AppModel, area: Rect) -> span::PanelModel {
    span::PanelModel {
        wrap: true,
        border: Some(span::BorderModel { style: lock_style(a.busy), title: None }),
        ..span::plain_panel(area, seq![input_line(a)])
    }
}

/// The chat screen: header, animation, transcript and input.
pub open spec fn chat_panels(a: app::AppModel, areas: Seq<Rect>, step: int) -> Seq<
    span::PanelModel,
> {
    head_panels(a, chat_header(a), areas, step).push(
        span::plain_panel(areas[2], visible_lines(a, areas[2])),
    ).push(input_panel(a, areas[3]))
}

fn header_line(app: &App) -> (r: StyledLine)
    ensures
        r@ == chat_header(app@),
{
    let mut header = StyledLine::of("KLAWPLY", theme::bright());
    if !app.email.as_str().is_empty() {
        header.add(text::chained("   ", app.email.as_str()).as_str(), theme::dim());
    }
    if let Some(label) = transcript::subscription_label(app.plan.as_str()) {
        header.add(text::chained("   ", label.as_str()).as_str(), theme::dim());
    }
    header
}

fn input_box(app: &App, area: Rect) -> (r: Panel)
    ensures
        r@ == input_panel(app@, area),
{
    let mut line = StyledLine::of("› ", theme::accent());
    if app.input.as_str().is_empty() && !app.busy {
        line.add("Paste a job link to apply, or ask a question…", theme::dim());
    } else {
        let mut said = app.input.clone();
        if !app.busy {
            said.push('\u{2588}');
        }
        line.add(said.as_str(), theme::bright());
    }
    let mut panel = Panel::plain(area, one_line(line));
    panel.wrap = true;
    panel.border = Some(Border { style: locked(app.busy), title: None });
    panel
}

/// The texts of wrapped lines.
fn visual_texts(wrapped: &Vec<(String, Style)>) -> (r: Vec<String>)
    ensures
        text::texts(r@) == transcript::visuals(wrapped@).map_values(|v: transcript::Visual| v.0),
{
    broadcast use text::lemma_texts_push;

    let ghost all = transcript::visuals(wrapped@).map_values(|v: transcript::Visual| v.0);
    let mut out: Vec<String> = Vec::new();
    let mut i: usize = 0;
    assert(text::texts(out@) =~= all.take(0));
    while i < wrapped.len()
        invariant
            all == transcript::visuals(wrapped@).map_values(|v: transcript::Visual| v.0),
            0 <= i <= wrapped@.len(),
            text::texts(out@) == all.take(i as int),
        decreases wrapped@.len() - i,
    {
        out.push(wrapped[i].0.clone());
        assert(all.take(i + 1) =~= all.take(i as int).push(wrapped@[i as int].0@));
        i += 1;
    }
    assert(all.take(i as int) =~= all);
    out
}

/// Draws the transcript in an area: clamps the scroll position, publishes the
/// wrapped lines, and returns the lines that show. The transcript is wrapped
/// into concrete visual lines beforehand so that mouse cells map exactly back to
/// text for selection.
pub fn show_transcript(app: &mut App, area: Rect) -> (r: Vec<StyledLine>)
    ensures
        final(app)@ == chat_shown(old(app)@, area),
        span::line_views(r@) == visible_lines(old(app)@, area),
{
    let ghost a = app@;
    let width: usize = if area.width == 0 {
        1
    } else {
        area.width as usize
    };
    let wrapped = transcript::wrap_transcript(&app.transcript, width);
    let ghost all = transcript::visuals(wrapped@);
    assert(all == wrapped_in(a, area));
    let total: usize = wrapped.len();
    let height: usize = area.height as usize;
    let most: usize = if total > height {
        total - height
    } else {
        0
    };
    if app.scroll as usize > most {
        app.scroll = most as u16;
    }
    let top: usize = most - app.scroll as usize;
    app.set_chat_view(visual_texts(&wrapped), area, top);
    let range = app.selection_range();
    let count: usize = if total - top < height {
        total - top
    } else {
        height
    };
    let mut visible = no_lines();
    let mut k: usize = 0;
    while k < count
        invariant
            all == transcript::visuals(wrapped@),
            all == wrapped_in(a, area),
            top == first_visible(a, area),
            count == visible_count(a, area),
            total == wrapped@.len(),
            top + count <= total,
            range == selected_range(a),
            0 <= k <= count,
            span::line_views(visible@) == visible_lines(a, area).take(k as int),
        decreases count - k,
    {
        let idx: usize = top + k;
        assert(all[idx as int] == (wrapped@[idx as int].0@, wrapped@[idx as int].1));
        let line = transcript::highlight_line(
            idx,
            wrapped[idx].0.as_str(),
            wrapped[idx].1,
            range,
        );
        assert(line@ == visible_line(a, area, k as int));
        assert(visible_lines(a, area).take(k + 1) =~= visible_lines(a, area).take(k as int).push(
            line@,
        ));
        add_line(&mut visible, line);
        k += 1;
    }
    assert(visible_lines(a, area).take(k as int) =~= visible_lines(a, area));
    visible
}

/// The chat screen in given areas, at a step of the animation.
pub fn show_chat(app: &mut App, areas: &Vec<Rect>, step: usize) -> (r: Vec<Panel>)
    requires
        areas@.len() == 4,
    ensures
        final(app)@ == chat_shown(old(app)@, areas@[2]),
        span::panel_views(r@) == chat_panels(old(app)@, areas@, step as int),
{
    let mut r = show_head(app, header_line(app), areas, step);
    let ghost a = app@;
    let lines = show_transcript(app, areas[2]);
    add_panel(&mut r, Panel::plain(areas[2], lines));
    add_panel(&mut r, input_box(app, areas[3]));
    assert(input_panel(app@, areas@[3]) == input_panel(a, areas@[3]));
    r
}

/// The rows of the chat screen.
pub open spec fn chat_rows(busy: bool) -> Seq<Size> {
    seq![Size::Length(2), loader_height(busy), Size::Min(0), Size::Length(3)]
}

/// The chat screen in `area`, at a step of the animation.
pub fn draw_chat(app: &mut App, area: Rect, step: usize) -> (r: Vec<Panel>)
    ensures
        exists|parts: Seq<Rect>|
            layout::splits_into_rows(area, chat_rows(old(app)@.busy), parts)
                && layout::rows_across(parts, area, 4) && final(app)@ == chat_shown(
                old(app)@,
                parts[2],
            ) && span::panel_views(r@) == #[trigger] chat_panels(old(app)@, parts, step as int),
{
    let mut sizes: Vec<Size> = Vec::new();
    sizes.push(Size::Length(2));
    sizes.push(loader_size(app.busy));
    sizes.push(Size::Min(0));
    sizes.push(Size::Length(3));
    assert(sizes@ =~= chat_rows(app@.busy));
    let parts = layout::split_rows(area, &sizes);
    show_chat(app, &parts, step)
}

// ---------------------------------------------------------------------------
// Any screen
// ---------------------------------------------------------------------------
/// Whether panels are a screen of `a` in `area`, and `b` is the state after
/// drawing it.
pub open spec fn is_screen(
    a: app::AppModel,
    b: app::AppModel,
    area: Rect,
    step: int,
    panels: Seq<span::PanelModel>,
) -> bool {
    match a.screen {
        Screen::Connect => a == b && exists|parts: Seq<Rect>, body: Rect|
            layout::splits_into_rows(area, connect_rows(), parts) && layout::rows_across(
                parts,
                area,
                2,
            ) && layout::is_centered(body, parts[1], 80) && panels == #[trigger] connect_panels(
                a,
                parts[0],
                body,
                step,
            ),
        Screen::Resume => a == b && exists|parts: Seq<Rect>|
            layout::splits_into_rows(area, resume_rows(a.busy), parts) && layout::rows_across(
                parts,
                area,
                5,
            ) && panels == #[trigger] resume_panels(a, parts, step),
        Screen::Chat => exists|parts: Seq<Rect>|
            layout::splits_into_rows(area, chat_rows(a.busy), parts) && layout::rows_across(
                parts,
                area,
                4,
            ) && b == chat_shown(a, parts[2]) && panels == #[trigger] chat_panels(a, parts, step),
    }
}

/// Draws the current screen in `area` at a time, in milliseconds since the Unix
/// epoch: the panels to render, in order. The first paints the whole background
/// black.
pub fn draw(app: &mut App, area: Rect, millis: u128) -> (r: Vec<Panel>)
    ensures
        span::panel_views(r@).len() > 0,
        span::panel_views(r@)[0] == span::plain_panel(area, Seq::empty()),
        is_screen(
            old(app)@,
            final(app)@,
            area,
            ((millis / loader::STEP_MILLIS) as usize) as int,
            span::panel_views(r@).drop_first(),
        ),
{
    let step = loader::loader_step(millis);
    let mut r: Vec<Panel> = Vec::new();
    r.push(Panel::plain(area, no_lines()));
    let mut panels = match app.screen {
        Screen::Connect => draw_connect(app, area, step),
        Screen::Resume => draw_resume(app, area, step),
        Screen::Chat => draw_chat(app, area, step),
    };
    let ghost shown = panels@;
    r.append(&mut panels);
    assert(span::panel_views(r@).drop_first() =~= span::panel_views(shown));
    r
}

// ---------------------------------------------------------------------------
// Laws
// ---------------------------------------------------------------------------
/// The view is never scrolled past the first or the last line: what shows are
/// lines of the transcript, as many as fit.
pub proof fn the_view_stays_in_the_transcript(a: app::AppModel, area: Rect)
    ensures
        0 <= first_visible(a, area),
        0 <= visible_count(a, area) <= area.height,
        first_visible(a, area) + visible_count(a, area) <= wrapped_in(a, area).len(),
        visible_count(a, area) == app::smaller(
            area.height as int,
            wrapped_in(a, area).len() as int,
        ),
{
}

/// A view that is pinned to the bottom shows the last line.
pub proof fn a_pinned_view_shows_the_end(a: app::AppModel, area: Rect)
    requires
        a.scroll == 0,
    ensures
        first_visible(a, area) + visible_count(a, area) == wrapped_in(a, area).len(),
{
}

/// Scrolling all the way up shows the first line.
pub proof fn a_view_scrolled_up_shows_the_start(a: app::AppModel, area: Rect)
    requires
        a.scroll >= max_scroll(a, area),
    ensures
        first_visible(a, area) == 0,
{
}

/// Drawing again changes nothing.
pub proof fn drawing_again_changes_nothing(a: app::AppModel, area: Rect)
    ensures
        chat_shown(chat_shown(a, area), area) == chat_shown(a, area),
        visible_lines(chat_shown(a, area), area) == visible_lines(a, area),
{
    let b = chat_shown(a, area);
    assert(wrapped_in(b, area) == wrapped_in(a, area));
    assert(b.scroll == actual_scroll(a, area));
    assert(visible_lines(b, area) =~= visible_lines(a, area));
}

/// A click on a row of the drawn transcript lands in the line that shows there,
/// in the column that was clicked, or at the end of the line if it is shorter.
pub proof fn mouse_cells_map_back_to_the_text(a: app::AppModel, area: Rect, col: u16, row: u16)
    requires
        wrapped_in(a, area).len() <= usize::MAX,
        app::lies_in(col, row, area),
        row - area.y < visible_count(a, area),
    ensures
        ({
            let line = first_visible(a, area) + (row - area.y);
            let said = wrapped_in(a, area)[line].0;
            chat_shown(a, area).position(col, row, false) == Some(
                (line as usize, app::smaller(col - area.x, said.len() as int) as usize),
            )
        }),
{
    let b = chat_shown(a, area);
    let line = first_visible(a, area) + (row - area.y);
    assert(b.chat_lines[line] == wrapped_in(a, area)[line].0);
}

/// Every panel of a screen lies in its area.
pub proof fn panels_lie_on_the_screen(
    a: app::AppModel,
    parts: Seq<Rect>,
    body: Rect,
    area: Rect,
    step: int,
)
    ensures
        layout::rows_across(parts, area, 2) && layout::is_centered(body, parts[1], 80)
            ==> forall|i: int|
            0 <= i < connect_panels(a, parts[0], body, step).len() ==> layout::within(
                (#[trigger] connect_panels(a, parts[0], body, step)[i]).area,
                area,
            ),
        layout::rows_across(parts, area, 5) ==> forall|i: int|
            0 <= i < resume_panels(a, parts, step).len() ==> layout::within(
                (#[trigger] resume_panels(a, parts, step)[i]).area,
                area,
            ),
        layout::rows_across(parts, area, 4) ==> forall|i: int|
            0 <= i < chat_panels(a, parts, step).len() ==> layout::within(
                (#[trigger] chat_panels(a, parts, step)[i]).area,
                area,
            ),
{
}

proof fn lemma_two_spans(a: span::SpanModel, b: span::SpanModel)
    ensures
        span::line_text(seq![a].push(b)) == a.text + b.text,
        span::line_text(seq![a]) == a.text,
{
    assert(seq![a].push(b).drop_last() =~= seq![a]);
    assert(seq![a].drop_last() =~= Seq::<span::SpanModel>::empty());
    reveal_with_fuel(span::line_text, 3);
    assert(Seq::<char>::empty() + a.text =~= a.text);
}

/// The input box shows what the user has typed, behind the prompt, with a cursor
/// unless the input is locked.
pub proof fn the_input_is_shown(a: app::AppModel)
    ensures
        a.busy ==> span::line_text(input_line(a)) == "› "@ + a.input,
        !a.busy && a.input.len() > 0 ==> span::line_text(input_line(a)) == "› "@ + a.input.push(
            '\u{2588}',
        ),
        !a.busy && a.input.len() == 0 ==> span::line_text(input_line(a)) == "› "@
            + "Paste a job link to apply, or ask a question…"@,
{
    let prompt = span::styled("› "@, accent_style());
    lemma_two_spans(prompt, span::styled(a.input, bright_style()));
    lemma_two_spans(prompt, span::styled(a.input.push('\u{2588}'), bright_style()));
    lemma_two_spans(
        prompt,
        span::styled("Paste a job link to apply, or ask a question…"@, dim_style()),
    );
}

/// The editor shows the resume as it was pasted, with a cursor.
pub proof fn the_resume_is_shown(a: app::AppModel, area: Rect)
    requires
        a.input.len() > 0,
    ensures
        editor_panel(a, area).content == span::ContentModel::Plain(a.input.push('\u{2588}')),
        editor_panel(a, area).area == area,
{
}

/// The header of the chat names the account and the plan.
pub proof fn the_header_names_the_account(a: app::AppModel, label: Seq<char>)
    requires
        a.email.len() > 0,
        transcript::plan_label(a.plan) == Some(label),
    ensures
        span::line_text(chat_header(a)) == "KLAWPLY"@ + ("   "@ + a.email) + ("   "@ + label),
{
    let brand = span::styled("KLAWPLY"@, bright_style());
    let who = span::styled("   "@ + a.email, dim_style());
    let plan = span::styled("   "@ + label, dim_style());
    lemma_two_spans(brand, who);
    assert(chat_header(a) =~= seq![brand].push(who).push(plan));
    assert(chat_header(a).drop_last() =~= seq![brand].push(who));
}

/// The connect screen names who is connected; else it shows the link to log in.
pub proof fn the_link_is_shown(a: app::AppModel, url: Seq<char>, label: Seq<char>)
    ensures
        a.email.len() == 0 && a.connect_url == Some(url) ==> connection_lines(a).contains(
            seq![span::SpanModel { text: url, style: accent_style() }],
        ),
        a.email.len() > 0 && transcript::plan_label(a.plan) == Some(label) ==> connection_lines(a)
            == seq![
            seq![
                span::SpanModel {
                    text: "Connected as "@ + a.email + (" · "@ + label),
                    style: base_style(),
                },
            ],
        ],
{
    if a.email.len() == 0 && a.connect_url == Some(url) {
        assert(connection_lines(a)[3] == seq![
            span::SpanModel { text: url, style: accent_style() },
        ]);
    }
}

/// While the agent works the animation shows, with the status beside it.
pub proof fn the_work_is_shown(
    a: app::AppModel,
    header: span::LineOfSpans,
    areas: Seq<Rect>,
    step: int,
)
    ensures
        a.busy ==> head_panels(a, header, areas, step).len() == 2 && head_panels(
            a,
            header,
            areas,
            step,
        )[1].content == span::ContentModel::Lines(loader::square(step, a.status)) && head_panels(
            a,
            header,
            areas,
            step,
        )[1].area == areas[1],
        !a.busy ==> head_panels(a, header, areas, step).len() == 1,
        head_panels(a, header, areas, step)[0].content == span::ContentModel::Lines(seq![header]),
{
}

/// Each row of the transcript shows the text of its line, whether or not it is
/// selected.
pub proof fn rows_show_their_lines(a: app::AppModel, area: Rect, k: int)
    requires
        0 <= k < visible_count(a, area),
        !wrapped_in(a, area)[first_visible(a, area) + k].1.reversed,
    ensures
        visible_lines(a, area).len() == visible_count(a, area),
        span::line_text(visible_lines(a, area)[k]) == wrapped_in(a, area)[first_visible(a, area)
            + k].0,
{
    let idx = first_visible(a, area) + k;
    let (said, style) = wrapped_in(a, area)[idx];
    transcript::highlighting_keeps_the_text(idx, said, style, selected_range(a));
}

/// The view is as far above the end as it is scrolled up, unless it is at the top.
pub proof fn the_view_is_as_far_up_as_scrolled(a: app::AppModel, area: Rect)
    requires
        area.height > 0,
        wrapped_in(a, area).len() > area.height,
        a.scroll <= wrapped_in(a, area).len() - area.height,
    ensures
        first_visible(a, area) == wrapped_in(a, area).len() - area.height - a.scroll,
        visible_count(a, area) == area.height,
        chat_shown(a, area).scroll == a.scroll,
        chat_shown(a, area).chat_area == area,
{
}

/// The transcript is wrapped to the width of its area, and its lines are kept for
/// the mouse as they show.
pub proof fn the_shown_lines_are_kept(a: app::AppModel, area: Rect, k: int)
    requires
        area.width > 0,
        0 <= k < transcript::wrapped_entries(a.transcript, area.width as nat).len(),
    ensures
        chat_shown(a, area).chat_lines.len() == transcript::wrapped_entries(
            a.transcript,
            area.width as nat,
        ).len(),
        chat_shown(a, area).chat_lines[k] == transcript::wrapped_entries(
            a.transcript,
            area.width as nat,
        )[k].0,
        chat_shown(a, area).transcript == a.transcript,
        chat_shown(a, area).input == a.input,
{
}

/// The chat screen has the header at the top, then the animation while the agent
/// works, then the transcript, then the input.
pub proof fn the_chat_is_laid_out(a: app::AppModel, areas: Seq<Rect>, step: int)
    ensures
        ({
            let panels = chat_panels(a, areas, step);
            let n = panels.len() as int;
            &&& n == if a.busy {
                4int
            } else {
                3
            }
            &&& panels[0].content == span::ContentModel::Lines(seq![chat_header(a)])
            &&& panels[0].area == areas[0]
            &&& panels[n - 2].content == span::ContentModel::Lines(visible_lines(a, areas[2]))
            &&& panels[n - 2].area == areas[2]
            &&& panels[n - 1].content == span::ContentModel::Lines(seq![input_line(a)])
            &&& panels[n - 1].area == areas[3]
        }),
{
}

/// The resume screen has the editor, the last four entries of the transcript and
/// the footer below the header.
pub proof fn the_resume_screen_is_laid_out(a: app::AppModel, areas: Seq<Rect>, step: int)
    ensures
        ({
            let panels = resume_panels(a, areas, step);
            let n = panels.len() as int;
            &&& n == if a.busy {
                5int
            } else {
                4
            }
            &&& panels[0].area == areas[0]
            &&& panels[n - 3] == editor_panel(a, areas[2])
            &&& panels[n - 2].area == areas[3]
            &&& a.transcript.len() >= 4 && transcript::entry_lines(
                a.transcript.skip(a.transcript.len() - 4),
            ).len() > 0 ==> panels[n - 2].content == span::ContentModel::Lines(
                transcript::entry_lines(a.transcript.skip(a.transcript.len() - 4)),
            )
            &&& panels[n - 1].area == areas[4]
        }),
{
    if a.transcript.len() >= 4 {
        assert(transcript::last_entries(a.transcript, 4) =~= a.transcript.skip(
            a.transcript.len() - 4,
        ));
    }
}

/// The connect screen shows the status, and what the keys do.
pub proof fn the_connect_screen_tells(a: app::AppModel, step: int)
    ensures
        ({
            let lines = connect_lines(a, step);
            &&& a.status.len() > 0 ==> lines.contains(
                seq![span::SpanModel { text: a.status, style: dim_style() }],
            )
            &&& lines.last() == seq![
                span::SpanModel {
                    text: if a.connect_url is Some {
                        "c: copy link   ·   Enter: retry   ·   q: quit"@
                    } else {
                        "Enter: connect   ·   q: quit"@
                    },
                    style: dim_style(),
                },
            ]
        }),
{
    let lines = connect_lines(a, step);
    if a.status.len() > 0 {
        assert(lines[lines.len() - 3] == seq![
            span::SpanModel { text: a.status, style: dim_style() },
        ]);
    }
}

/// How the rows of the screens are asked for: the header, the animation only while
/// the agent works, and fixed rows for what stands at the bottom.
pub proof fn rows_are_asked_for(busy: bool)
    ensures
        connect_rows() == seq![Size::Length(6), Size::Min(0)],
        resume_rows(busy)[0] == Size::Length(2),
        resume_rows(busy)[1] == Size::Length(
            if busy {
                3
            } else {
                0
            },
        ),
        resume_rows(busy)[2] == Size::Min(3),
        resume_rows(busy)[3] == Size::Length(6),
        resume_rows(busy)[4] == Size::Length(1),
        resume_rows(busy).len() == 5,
        chat_rows(busy)[0] == Size::Length(2),
        chat_rows(busy)[1] == resume_rows(busy)[1],
        chat_rows(busy)[2] == Size::Min(0),
        chat_rows(busy)[3] == Size::Length(3),
        chat_rows(busy).len() == 4,
{
}

/// The title is the text in the seven-segment font, row by row.
pub proof fn the_title_is_the_text(said: Seq<char>, area: Rect, k: int)
    requires
        0 <= k < 3,
    ensures
        title_panel(said, area).area == area,
        title_panel(said, area).centered,
        title_panel(said, area).content matches span::ContentModel::Lines(lines) && lines.len() == 3
            && span::line_text(lines[k]) == seven_segment::row(k, said),
{
    let s = span::styled(seven_segment::row(k, said), bright_style());
    lemma_two_spans(s, s);
}

} // verus!
