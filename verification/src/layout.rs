//! Rectangles of the terminal, and how ratatui's layout cuts them.

use ratatui::layout::{Constraint, Layout, Rect};
use vstd::prelude::*;

verus! {

/// A rectangle of the terminal, in cells.
#[derive(Clone, Copy, Debug, PartialEq, Eq, Default)]
pub struct Area {
    pub x: u16,
    pub y: u16,
    pub width: u16,
    pub height: u16,
}

/// The direction in which an area is cut.
#[derive(Clone, Copy, Debug, PartialEq, Eq, Structural)]
pub enum Axis {
    /// Top to bottom.
    Vertical,
    /// Left to right.
    Horizontal,
}

/// How one part of a cut area takes its extent.
#[derive(Clone, Copy, Debug, PartialEq, Eq, Structural)]
pub enum ColumnWidth {
    /// Exactly this many cells.
    Length(u16),
    /// At least this many cells.
    Min(u16),
    /// A share of the space left, in proportion to this weight.
    Fill(u16),
    /// This percentage of the whole.
    Percentage(u16),
}

/// Where ratatui's layout places the parts `widths` when it cuts `area`
/// along `axis`.
pub uninterp spec fn layout_split(area: Area, axis: Axis, widths: Seq<ColumnWidth>) -> Seq<Area>;

/// `Layout::split` of ratatui: `area` cut along `axis` into one area per
/// entry of `widths`, in order, as the layout's solver places them (what it
/// places where is not stated).
#[verifier::external_body]
pub(crate) fn split_area(area: Area, axis: Axis, widths: &[ColumnWidth]) -> (r: Vec<Area>)
    ensures
        r@ == layout_split(area, axis, widths@),
        r.len() == widths.len(),
{
    let cs: Vec<Constraint> = widths.iter().map(|w| match *w {
        ColumnWidth::Length(n) => Constraint::Length(n),
        ColumnWidth::Min(n) => Constraint::Min(n),
        ColumnWidth::Fill(n) => Constraint::Fill(n),
        ColumnWidth::Percentage(n) => Constraint::Percentage(n),
    }).collect();
    let rect = Rect { x: area.x, y: area.y, width: area.width, height: area.height };
    let layout = match axis {
        Axis::Vertical => Layout::vertical(cs),
        Axis::Horizontal => Layout::horizontal(cs),
    };
    layout.split(rect).iter().map(
        |r| Area { x: r.x, y: r.y, width: r.width, height: r.height },
    ).collect()
}

/// The three parts of a centred cut: a margin, `percent` of the whole, a
/// margin.
pub open spec fn centred(percent: u16) -> Seq<ColumnWidth> {
    seq![
        ColumnWidth::Percentage(((100 - percent) / 2) as u16),
        ColumnWidth::Percentage(percent),
        ColumnWidth::Percentage(((100 - percent) / 2) as u16)
    ]
}

fn centred_widths(percent: u16) -> (r: Vec<ColumnWidth>)
    requires
        percent <= 100,
    ensures
        r@ == centred(percent),
{
    let margin = (100 - percent) / 2;
    let mut v: Vec<ColumnWidth> = Vec::new();
    v.push(ColumnWidth::Percentage(margin));
    v.push(ColumnWidth::Percentage(percent));
    v.push(ColumnWidth::Percentage(margin));
    assert(v@ =~= centred(percent));
    v
}

/// The area of a popup that takes `percent_x` of the width and `percent_y`
/// of the height of `area`, in its middle.
pub open spec fn popup(area: Area, percent_x: u16, percent_y: u16) -> Area {
    let band = layout_split(area, Axis::Vertical, centred(percent_y))[1];
    layout_split(band, Axis::Horizontal, centred(percent_x))[1]
}

/// The area of a popup that takes `percent_x` of the width and `percent_y`
/// of the height of `area`, in its middle (see [`popup`]).
pub fn popup_area(area: Area, percent_x: u16, percent_y: u16) -> (r: Area)
    requires
        percent_x <= 100,
        percent_y <= 100,
    ensures
        r == popup(area, percent_x, percent_y),
{
    let rows = split_area(area, Axis::Vertical, centred_widths(percent_y).as_slice());
    let cols = split_area(rows[1], Axis::Horizontal, centred_widths(percent_x).as_slice());
    cols[1]
}

/// The first cell of each of `areas`, along the row.
pub open spec fn starts_of(areas: Seq<Area>) -> Seq<u16> {
    areas.map_values(|a: Area| a.x)
}

/// The first cell of each of `areas`, along the row (see [`starts_of`]).
pub fn starts(areas: &Vec<Area>) -> (r: Vec<u16>)
    ensures
        r@ == starts_of(areas@),
{
    let mut r: Vec<u16> = Vec::new();
    let mut i: usize = 0;
    while i < areas.len()
        invariant
            i <= areas.len(),
            r@ == starts_of(areas@.take(i as int)),
        decreases areas.len() - i,
    {
        r.push(areas[i].x);
        assert(starts_of(areas@.take(i as int + 1)) =~= starts_of(areas@.take(i as int)).push(areas@[i as int].x));
        i += 1;
    }
    assert(areas@.take(areas.len() as int) =~= areas@);
    r
}

} // verus!
