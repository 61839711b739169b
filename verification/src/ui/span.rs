//! Styled text, and the panels that a screen is made of.
use crate::app::Rect;
use crate::text;
use crate::theme;
use crate::theme::Style;
use vstd::prelude::*;

verus! {

/// Text in one style.
#[derive(Debug)]
pub struct Span {
    /// The text.
    pub text: String,
    /// The style.
    pub style: Style,
}

/// What a [`Span`] stands for.
#[verifier::ext_equal]
pub struct SpanModel {
    /// The text.
    pub text: Seq<char>,
    /// The style.
    pub style: Style,
}

impl View for Span {
    type V = SpanModel;

    open spec fn view(&self) -> SpanModel {
        SpanModel { text: self.text@, style: self.style }
    }
}

/// A line of styled text.
#[derive(Debug)]
pub struct StyledLine {
    /// The parts, from left to right.
    pub spans: Vec<Span>,
}

/// What a [`StyledLine`] stands for: its parts.
pub type LineOfSpans = Seq<SpanModel>;

impl View for StyledLine {
    type V = Seq<SpanModel>;

    open spec fn view(&self) -> Seq<SpanModel> {
        self.spans@.map_values(|s: Span| s@)
    }
}

/// Lines, as models.
pub open spec fn line_views(s: Seq<StyledLine>) -> Seq<LineOfSpans> {
    s.map_values(|l: StyledLine| l@)
}

/// One more line is one more model.
pub broadcast proof fn lemma_line_views_push(s: Seq<StyledLine>, l: StyledLine)
    ensures
        #[trigger] line_views(s.push(l)) == line_views(s).push(l@),
{
    assert(line_views(s.push(l)) =~= line_views(s).push(l@));
}

/// Text in one style.
pub open spec fn styled(said: Seq<char>, style: Style) -> SpanModel {
    SpanModel { text: said, style }
}

/// The text of a line.
pub open spec fn line_text(l: LineOfSpans) -> Seq<char>
    decreases l.len(),
{
    if l.len() == 0 {
        Seq::empty()
    } else {
        line_text(l.drop_last()) + l.last().text
    }
}

impl Span {
    /// Text in one style.
    pub fn styled(said: &str, style: Style) -> (r: Span)
        ensures
            r@ == styled(said@, style),
    {
        Span { text: text::owned(said), style }
    }
}

impl StyledLine {
    /// An empty line.
    pub fn empty() -> (r: StyledLine)
        ensures
            r@ == Seq::<SpanModel>::empty(),
    {
        let r = StyledLine { spans: Vec::new() };
        assert(r@ =~= Seq::<SpanModel>::empty());
        r
    }

    /// A line in one style.
    pub fn of(said: &str, style: Style) -> (r: StyledLine)
        ensures
            r@ == seq![styled(said@, style)],
    {
        let mut r = StyledLine::empty();
        r.add(said, style);
        assert(r@ =~= seq![styled(said@, style)]);
        r
    }

    /// Puts more text at the end of the line.
    pub fn add(&mut self, said: &str, style: Style)
        ensures
            final(self)@ == old(self)@.push(styled(said@, style)),
    {
        let ghost before = self@;
        self.spans.push(Span::styled(said, style));
        assert(self@ =~= before.push(styled(said@, style)));
    }
}

/// A border around a panel.
#[derive(Debug)]
pub struct Border {
    /// Its style.
    pub style: Style,
    /// What is written in it.
    pub title: Option<Span>,
}

/// What a [`Border`] stands for.
pub struct BorderModel {
    /// Its style.
    pub style: Style,
    /// What is written in it.
    pub title: Option<SpanModel>,
}

impl View for Border {
    type V = BorderModel;

    open spec fn view(&self) -> BorderModel {
        BorderModel {
            style: self.style,
            title: match self.title {
                Some(s) => Some(s@),
                None => None,
            },
        }
    }
}

/// What a panel shows.
#[derive(Debug)]
pub enum Content {
    /// These lines.
    Lines(Vec<StyledLine>),
    /// The lines of this text, in the style of the panel.
    Plain(String),
}

/// What a [`Content`] stands for.
pub enum ContentModel {
    /// These lines.
    Lines(Seq<LineOfSpans>),
    /// The lines of this text.
    Plain(Seq<char>),
}

impl View for Content {
    type V = ContentModel;

    open spec fn view(&self) -> ContentModel {
        match self {
            Content::Lines(l) => ContentModel::Lines(line_views(l@)),
            Content::Plain(t) => ContentModel::Plain(t@),
        }
    }
}

/// A part of the screen.
#[derive(Debug)]
pub struct Panel {
    /// Where it is.
    pub area: Rect,
    /// What it shows.
    pub content: Content,
    /// Whether its lines are centered.
    pub centered: bool,
    /// Whether lines that are too long are wrapped.
    pub wrap: bool,
    /// The border around it.
    pub border: Option<Border>,
    /// The style of whatever has none of its own.
    pub style: Style,
}

/// What a [`Panel`] stands for.
pub struct PanelModel {
    /// Where it is.
    pub area: Rect,
    /// What it shows.
    pub content: ContentModel,
    /// Whether its lines are centered.
    pub centered: bool,
    /// Whether lines that are too long are wrapped.
    pub wrap: bool,
    /// The border around it.
    pub border: Option<BorderModel>,
    /// The style of whatever has none of its own.
    pub style: Style,
}

impl View for Panel {
    type V = PanelModel;

    open spec fn view(&self) -> PanelModel {
        PanelModel {
            area: self.area,
            content: self.content@,
            centered: self.centered,
            wrap: self.wrap,
            border: match self.border {
                Some(b) => Some(b@),
                None => None,
            },
            style: self.style,
        }
    }
}

/// Panels, as models.
pub open spec fn panel_views(s: Seq<Panel>) -> Seq<PanelModel> {
    s.map_values(|p: Panel| p@)
}

/// One more panel is one more model.
pub broadcast proof fn lemma_panel_views_push(s: Seq<Panel>, p: Panel)
    ensures
        #[trigger] panel_views(s.push(p)) == panel_views(s).push(p@),
{
    assert(panel_views(s.push(p)) =~= panel_views(s).push(p@));
}

/// Ordinary lines in an area.
pub open spec fn plain_panel(area: Rect, lines: Seq<LineOfSpans>) -> PanelModel {
    PanelModel {
        area,
        content: ContentModel::Lines(lines),
        centered: false,
        wrap: false,
        border: None,
        style: theme::on_black(theme::Color::Green, false),
    }
}

impl Panel {
    /// Ordinary lines in an area.
    pub fn plain(area: Rect, lines: Vec<StyledLine>) -> (r: Panel)
        ensures
            r@ == plain_panel(area, line_views(lines@)),
    {
        Panel {
            area,
            content: Content::Lines(lines),
            centered: false,
            wrap: false,
            border: None,
            style: theme::base(),
        }
    }
}

} // verus!
