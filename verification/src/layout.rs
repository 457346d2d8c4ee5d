//! Where things stand on the screen.

use ratatui::layout::{Constraint, Layout, Rect};
use vstd::prelude::*;

verus! {

/// A rectangle of screen cells.
#[derive(Debug, Clone, Copy, PartialEq, Eq, Structural)]
pub struct Area {
    pub x: u16,
    pub y: u16,
    pub width: u16,
    pub height: u16,
}

/// The direction in which an area is split.
#[derive(Debug, Clone, Copy, PartialEq, Eq, Structural)]
pub enum Direction {
    Horizontal,
    Vertical,
}

/// How large a part of a split area is to be.
#[derive(Debug, Clone, Copy, PartialEq, Eq, Structural)]
pub enum Size {
    Length(u16),
    Min(u16),
    Percentage(u16),
}

/// The areas into which `ratatui::layout::Layout::split` may split an area for a
/// direction and a list of sizes. It solves the sizes as constraints, and where
/// they leave room for more than one solution it does not say which one it picks.
pub uninterp spec fn may_split(
    direction: Direction,
    sizes: Seq<Size>,
    area: Area,
    parts: Seq<Area>,
) -> bool;

/// `ratatui::layout::Layout::split` on a layout without margin: one part for each
/// size, each as high (or, split vertically, as wide) as the area and level with
/// it. Where along the direction a part begins and ends is what its solver finds.
#[verifier::external_body]
fn split(direction: Direction, sizes: &Vec<Size>, area: Area) -> (r: Vec<Area>)
    ensures
        may_split(direction, sizes@, area, r@),
        r@.len() == sizes@.len(),
        forall|i: int|
            0 <= i < r@.len() ==> match direction {
                Direction::Horizontal => (#[trigger] r@[i]).y == area.y && r@[i].height
                    == area.height,
                Direction::Vertical => r@[i].x == area.x && r@[i].width == area.width,
            },
{
    let direction = match direction {
        Direction::Horizontal => ratatui::layout::Direction::Horizontal,
        Direction::Vertical => ratatui::layout::Direction::Vertical,
    };
    let sizes = sizes.iter().map(|s| match s {
        Size::Length(n) => Constraint::Length(*n),
        Size::Min(n) => Constraint::Min(*n),
        Size::Percentage(n) => Constraint::Percentage(*n),
    });
    let area = Rect { x: area.x, y: area.y, width: area.width, height: area.height };
    let parts = Layout::default().direction(direction).constraints(sizes).split(area);
    parts.iter().map(|p| Area { x: p.x, y: p.y, width: p.width, height: p.height }).collect()
}

/// The sizes around a middle part that takes `percent` of the whole.
pub open spec fn middle(percent: u16) -> Seq<Size> {
    let side = ((100 - percent) / 2) as u16;
    seq![Size::Percentage(side), Size::Percentage(percent), Size::Percentage(side)]
}

fn middle_sizes(percent: u16) -> (r: Vec<Size>)
    requires
        percent <= 100,
    ensures
        r@ == middle(percent),
{
    let side: u16 = (100 - percent) / 2;
    let r = vec![Size::Percentage(side), Size::Percentage(percent), Size::Percentage(side)];
    assert(r@ =~= middle(percent));
    r
}

/// The middle part of the middle part.
pub open spec fn centered(percent_x: u16, percent_y: u16, area: Area, r: Area) -> bool {
    exists|rows: Seq<Area>, columns: Seq<Area>| #[trigger]
        may_split(Direction::Vertical, middle(percent_y), area, rows) && #[trigger] may_split(
            Direction::Horizontal,
            middle(percent_x),
            rows[1],
            columns,
        ) && r == columns[1]
}

/// The area that takes so many percent of the middle of another.
pub fn centered_rect(percent_x: u16, percent_y: u16, area: Area) -> (r: Area)
    requires
        percent_x <= 100,
        percent_y <= 100,
    ensures
        centered(percent_x, percent_y, area, r),
{
    let rows = split(Direction::Vertical, &middle_sizes(percent_y), area);
    let columns = split(Direction::Horizontal, &middle_sizes(percent_x), rows[1]);
    columns[1]
}

/// The parts of the screen.
#[derive(Debug, Clone, Copy, PartialEq, Eq, Structural)]
pub struct Screen {
    pub title: Area,
    pub config: Area,
    pub body: Area,
    pub profiles: Area,
    pub tunnels: Area,
    pub detail: Area,
    pub toast: Area,
    pub keys: Area,
}

/// A line for the title, a line each for the toast and the keys, and the body
/// between them.
pub open spec fn screen_rows() -> Seq<Size> {
    seq![Size::Length(1), Size::Min(0), Size::Length(1), Size::Length(1)]
}

/// The title, and beside it the path of the config file.
pub open spec fn title_columns() -> Seq<Size> {
    seq![Size::Min(0), Size::Length(40)]
}

/// A part of so many percent, and the rest.
pub open spec fn share(percent: u16) -> Seq<Size> {
    seq![Size::Percentage(percent), Size::Min(0)]
}

/// How the screen is divided: the profiles to the left, and to the right the
/// tunnels above the detail.
pub open spec fn divides(area: Area, s: Screen) -> bool {
    exists|rows: Seq<Area>, title: Seq<Area>, body: Seq<Area>, right: Seq<Area>|
        {
            &&& #[trigger] may_split(Direction::Vertical, screen_rows(), area, rows)
            &&& #[trigger] may_split(Direction::Horizontal, title_columns(), rows[0], title)
            &&& #[trigger] may_split(Direction::Horizontal, share(34), rows[1], body)
            &&& #[trigger] may_split(Direction::Vertical, share(58), body[1], right)
            &&& s == (Screen {
                title: title[0],
                config: title[1],
                body: rows[1],
                profiles: body[0],
                tunnels: right[0],
                detail: right[1],
                toast: rows[2],
                keys: rows[3],
            })
        }
}

/// Divides the screen.
pub fn divide_screen(area: Area) -> (r: Screen)
    ensures
        divides(area, r),
        r.toast.x == area.x && r.toast.width == area.width,
        r.keys.x == area.x && r.keys.width == area.width,
        r.profiles.y == r.body.y && r.profiles.height == r.body.height,
        r.tunnels.x == r.detail.x && r.tunnels.width == r.detail.width,
{
    let rows_wanted = vec![Size::Length(1), Size::Min(0), Size::Length(1), Size::Length(1)];
    assert(rows_wanted@ =~= screen_rows());
    let rows = split(Direction::Vertical, &rows_wanted, area);
    let title_wanted = vec![Size::Min(0), Size::Length(40)];
    assert(title_wanted@ =~= title_columns());
    let title = split(Direction::Horizontal, &title_wanted, rows[0]);
    let body_wanted = vec![Size::Percentage(34), Size::Min(0)];
    assert(body_wanted@ =~= share(34));
    let body = split(Direction::Horizontal, &body_wanted, rows[1]);
    let right_wanted = vec![Size::Percentage(58), Size::Min(0)];
    assert(right_wanted@ =~= share(58));
    let right = split(Direction::Vertical, &right_wanted, body[1]);
    Screen {
        title: title[0],
        config: title[1],
        body: rows[1],
        profiles: body[0],
        tunnels: right[0],
        detail: right[1],
        toast: rows[2],
        keys: rows[3],
    }
}

} // verus!
