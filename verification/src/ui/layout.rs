//! Dividing the screen.
use crate::app::Rect;
use vstd::prelude::*;

verus! {

/// How much of an area a part of it is to take.
#[derive(Debug, Clone, Copy, PartialEq, Eq, Structural)]
pub enum Size {
    /// So many cells.
    Length(u16),
    /// So many cells at least.
    Min(u16),
    /// So many hundredths of it.
    Percentage(u16),
}

/// Whether `r` lies in `area`.
pub open spec fn within(r: Rect, area: Rect) -> bool {
    &&& area.x <= r.x && r.x + r.width <= area.x + area.width
    &&& area.y <= r.y && r.y + r.height <= area.y + area.height
}

/// Whether `parts` are `n` rows across `area`.
pub open spec fn rows_across(parts: Seq<Rect>, area: Rect, n: nat) -> bool {
    &&& parts.len() == n
    &&& forall|i: int|
        0 <= i < parts.len() ==> (#[trigger] parts[i]).x == area.x && parts[i].width == area.width
            && within(parts[i], area)
}

/// Whether `parts` are `n` columns down `area`.
pub open spec fn columns_down(parts: Seq<Rect>, area: Rect, n: nat) -> bool {
    &&& parts.len() == n
    &&& forall|i: int|
        0 <= i < parts.len() ==> (#[trigger] parts[i]).y == area.y && parts[i].height
            == area.height && within(parts[i], area)
}

/// Whether `Layout::vertical` of ratatui, with these constraints, may split
/// `area` into `parts`.
pub uninterp spec fn splits_into_rows(area: Rect, sizes: Seq<Size>, parts: Seq<Rect>) -> bool;

/// Whether `Layout::horizontal` of ratatui, with these constraints, may split
/// `area` into `parts`.
pub uninterp spec fn splits_into_columns(area: Rect, sizes: Seq<Size>, parts: Seq<Rect>) -> bool;

/// `Layout::vertical` of ratatui with these constraints, and its `split`. The
/// contract names what may come of it, and claims that there is one rectangle
/// for each constraint, and that each lies in the area and is as wide as it. How
/// the height is shared out comes from a constraint solver over floating-point
/// numbers that walks hash maps, and is left unsaid.
#[verifier::external_body]
pub(crate) fn split_rows(area: Rect, sizes: &Vec<Size>) -> (r: Vec<Rect>)
    ensures
        splits_into_rows(area, sizes@, r@),
        rows_across(r@, area, sizes@.len()),
{
    let sizes = sizes.iter().map(
        |s|
            match s {
                Size::Length(n) => ratatui::layout::Constraint::Length(*n),
                Size::Min(n) => ratatui::layout::Constraint::Min(*n),
                Size::Percentage(n) => ratatui::layout::Constraint::Percentage(*n),
            },
    );
    let Rect { x, y, width, height } = area;
    let parts = ratatui::layout::Layout::vertical(sizes).split(
        ratatui::layout::Rect { x, y, width, height },
    );
    parts.iter().map(|p| Rect { x: p.x, y: p.y, width: p.width, height: p.height }).collect()
}

/// `Layout::horizontal` of ratatui with these constraints, and its `split`. The
/// contract names what may come of it, and claims that there is one rectangle
/// for each constraint, and that each lies in the area and is as high as it. How
/// the width is shared out comes from a constraint solver over floating-point
/// numbers that walks hash maps, and is left unsaid.
#[verifier::external_body]
pub(crate) fn split_columns(area: Rect, sizes: &Vec<Size>) -> (r: Vec<Rect>)
    ensures
        splits_into_columns(area, sizes@, r@),
        columns_down(r@, area, sizes@.len()),
{
    let sizes = sizes.iter().map(
        |s|
            match s {
                Size::Length(n) => ratatui::layout::Constraint::Length(*n),
                Size::Min(n) => ratatui::layout::Constraint::Min(*n),
                Size::Percentage(n) => ratatui::layout::Constraint::Percentage(*n),
            },
    );
    let Rect { x, y, width, height } = area;
    let parts = ratatui::layout::Layout::horizontal(sizes).split(
        ratatui::layout::Rect { x, y, width, height },
    );
    parts.iter().map(|p| Rect { x: p.x, y: p.y, width: p.width, height: p.height }).collect()
}

/// A column of `percent` hundredths with equal margins.
pub open spec fn centered_columns(percent: u16) -> Seq<Size> {
    let margin = Size::Percentage(((100 - percent) / 2) as u16);
    seq![margin, Size::Percentage(percent), margin]
}

/// Whether `r` is a horizontally centered part of `area`, `percent` wide.
pub open spec fn is_centered(r: Rect, area: Rect, percent: u16) -> bool {
    exists|parts: Seq<Rect>|
        #[trigger] splits_into_columns(area, centered_columns(percent), parts) && columns_down(
            parts,
            area,
            3,
        ) && r == parts[1]
}

/// A horizontally centered sub-rectangle `percent` wide.
pub fn centered(area: Rect, percent: u16) -> (r: Rect)
    requires
        percent <= 100,
    ensures
        is_centered(r, area, percent),
{
    let mut sizes: Vec<Size> = Vec::new();
    sizes.push(Size::Percentage((100 - percent) / 2));
    sizes.push(Size::Percentage(percent));
    sizes.push(Size::Percentage((100 - percent) / 2));
    assert(sizes@ =~= centered_columns(percent));
    let parts = split_columns(area, &sizes);
    parts[1]
}

} // verus!
