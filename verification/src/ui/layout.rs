//! Layout modes, the view that is in focus, the division of the screen
//! into panel areas, and which panel each area shows.

use ratatui::layout::{Constraint, Direction, Layout, Rect};
use vstd::prelude::*;

verus! {

/// How the panels are arranged on screen.
#[derive(Debug, Clone, Copy, PartialEq, Eq, Structural)]
pub enum LayoutMode {
    /// All panels visible with balanced sizing.
    Detailed,
    /// Reduced panel sizes, more data density.
    Compact,
    /// Single panel fullscreen.
    Focus,
    /// Only the process list.
    ProcessOnly,
}

/// The layout that follows `m` when the layout key is pressed.
pub open spec fn layout_after(m: LayoutMode) -> LayoutMode {
    match m {
        LayoutMode::Detailed => LayoutMode::Compact,
        LayoutMode::Compact => LayoutMode::ProcessOnly,
        LayoutMode::ProcessOnly => LayoutMode::Focus,
        LayoutMode::Focus => LayoutMode::Detailed,
    }
}

/// The name shown for layout `m`.
pub open spec fn layout_label(m: LayoutMode) -> Seq<char> {
    match m {
        LayoutMode::Detailed => "Detailed"@,
        LayoutMode::Compact => "Compact"@,
        LayoutMode::Focus => "Focus"@,
        LayoutMode::ProcessOnly => "Process"@,
    }
}

/// The layout a configuration names: `"compact"` or, for anything else,
/// the detailed layout.
pub open spec fn layout_from_config(s: Seq<char>) -> LayoutMode {
    if s == "compact"@ {
        LayoutMode::Compact
    } else {
        LayoutMode::Detailed
    }
}

impl LayoutMode {
    /// The next layout in the cycle Detailed → Compact → Process → Focus.
    pub fn next(self) -> (r: Self)
        ensures
            r == layout_after(self),
    {
        match self {
            Self::Detailed => Self::Compact,
            Self::Compact => Self::ProcessOnly,
            Self::ProcessOnly => Self::Focus,
            Self::Focus => Self::Detailed,
        }
    }

    /// The layout's display name.
    pub fn label(self) -> (r: &'static str)
        ensures
            r@ == layout_label(self),
    {
        match self {
            Self::Detailed => "Detailed",
            Self::Compact => "Compact",
            Self::Focus => "Focus",
            Self::ProcessOnly => "Process",
        }
    }

    /// The layout that the configuration's `layout_mode` setting selects.
    pub fn from_config(s: &str) -> (r: Self)
        ensures
            r == layout_from_config(s@),
    {
        if crate::text::str_eq(s, "compact") {
            Self::Compact
        } else {
            Self::Detailed
        }
    }
}

/// Pressing the layout key four times returns to the layout one started
/// from, after visiting each of the four layouts once.
pub proof fn layout_cycle(m: LayoutMode)
    ensures
        layout_after(layout_after(layout_after(layout_after(m)))) == m,
        layout_after(m) != m,
        layout_after(layout_after(m)) != m,
        layout_after(layout_after(layout_after(m))) != m,
{
}

/// Which panel or inspector is in focus.
#[derive(Debug, Clone, Copy, PartialEq, Eq, Structural)]
pub enum ActiveView {
    Overview,
    Network,
    Disk,
    Gpu,
    History,
    Remote,
    /// 2-D heat map of per-core CPU utilisation over time.
    Heatmap,
    /// Ring-buffered log of system anomaly events.
    Alerts,
    /// Docker/Podman container monitor.
    Containers,
    /// System fan speeds and control status.
    Fans,
}

/// The name shown for view `v`.
pub open spec fn view_label(v: ActiveView) -> Seq<char> {
    match v {
        ActiveView::Overview => "Overview"@,
        ActiveView::Network => "Network"@,
        ActiveView::Disk => "Disk"@,
        ActiveView::Gpu => "GPU"@,
        ActiveView::History => "History"@,
        ActiveView::Remote => "Remote"@,
        ActiveView::Heatmap => "Heatmap"@,
        ActiveView::Alerts => "Alerts"@,
        ActiveView::Containers => "Containers"@,
        ActiveView::Fans => "Fans"@,
    }
}

impl ActiveView {
    /// The view's display name.
    pub fn label(self) -> (r: &'static str)
        ensures
            r@ == view_label(self),
    {
        match self {
            Self::Overview => "Overview",
            Self::Network => "Network",
            Self::Disk => "Disk",
            Self::Gpu => "GPU",
            Self::History => "History",
            Self::Remote => "Remote",
            Self::Heatmap => "Heatmap",
            Self::Alerts => "Alerts",
            Self::Containers => "Containers",
            Self::Fans => "Fans",
        }
    }
}

// ── Screen areas ────────────────────────────────────────────────────────────

/// A rectangle of terminal cells.
#[derive(Clone, Copy, Debug, PartialEq, Eq, Structural)]
pub struct Area {
    pub x: u16,
    pub y: u16,
    pub width: u16,
    pub height: u16,
}

impl Area {
    /// The empty area at the origin.
    pub fn empty() -> (r: Area)
        ensures
            r == (Area { x: 0, y: 0, width: 0, height: 0 }),
    {
        Area { x: 0, y: 0, width: 0, height: 0 }
    }
}

/// How much of a split an area asks for.
#[derive(Clone, Copy, Debug, PartialEq, Eq, Structural)]
pub enum Extent {
    /// Exactly this many cells.
    Length(u16),
    /// At least this many cells.
    Min(u16),
    /// This share of the split area, in percent.
    Percentage(u16),
}

/// The direction along which an area is split.
#[derive(Clone, Copy, Debug, PartialEq, Eq, Structural)]
pub enum Axis {
    /// Into rows, top to bottom.
    Vertical,
    /// Into columns, left to right.
    Horizontal,
}

/// The last cell boundary a split of `area` along `axis` can reach: the
/// area's far edge, capped at the largest coordinate.
pub open spec fn axis_limit(axis: Axis, area: Area) -> int {
    let end = match axis {
        Axis::Vertical => area.y + area.height,
        Axis::Horizontal => area.x + area.width,
    };
    if end > 65535 {
        65535
    } else {
        end
    }
}

/// What holds of every split of `area` along `axis` by `constraints`: one
/// part per constraint, each spanning the whole area across the axis and
/// lying inside it along the axis.
pub open spec fn split_fits(axis: Axis, area: Area, constraints: Seq<Extent>, parts: Seq<Area>) -> bool {
    &&& parts.len() == constraints.len()
    &&& forall|i: int|
        0 <= i < parts.len() ==> match axis {
            Axis::Vertical => (#[trigger] parts[i]).x == area.x && parts[i].width == area.width
                && parts[i].y >= area.y && parts[i].y + parts[i].height <= axis_limit(axis, area),
            Axis::Horizontal => parts[i].y == area.y && parts[i].height == area.height
                && parts[i].x >= area.x && parts[i].x + parts[i].width <= axis_limit(axis, area),
        }
}

/// Whether `parts` is one of the results `ratatui::layout::Layout::split`
/// can give when it splits `area` along `axis` by `constraints`: the set of
/// its possible results on these arguments, whichever one the solver's
/// hash maps lead it to.
pub uninterp spec fn split_result(axis: Axis, area: Area, constraints: Seq<Extent>, parts: Seq<Area>) -> bool;

/// A split of `area` along `axis` by `constraints` into `parts`: one of
/// the results the layout solver can give, with what holds of all of them.
pub open spec fn split_by(axis: Axis, area: Area, constraints: Seq<Extent>, parts: Seq<Area>) -> bool {
    split_result(axis, area, constraints, parts) && split_fits(axis, area, constraints, parts)
}

/// Whether `part` lies inside `area`.
pub open spec fn within(part: Area, area: Area) -> bool {
    &&& part.x >= area.x
    &&& part.x + part.width <= area.x + area.width
    &&& part.y >= area.y
    &&& part.y + part.height <= area.y + area.height
}

/// Calls `ratatui::layout::Layout::split` on `area` with the constraints
/// given. The contract claims what its source shows for a layout without
/// margin: one area per constraint, every area with the split area's
/// column and width (vertical split) or row and height (horizontal split),
/// and every area inside the split area along the axis (the solver's
/// required constraints keep every edge between the area's ends, and
/// rounding keeps them there). The areas are named as one of the results
/// the call can give on its arguments (`split_result`), which ties each
/// split to its own constraints. Neither the sizes nor the order of the
/// areas along the axis is stated: the gaps between areas are held at
/// zero only at the strength that also holds `Min` sizes, so when the
/// sizes asked for do not fit, the solver may let areas overlap, choosing
/// among equally good solutions by walking hash maps that each process
/// seeds anew.
#[verifier::external_body]
fn split_area(axis: Axis, area: Area, constraints: &[Extent]) -> (r: Vec<Area>)
    ensures
        split_result(axis, area, constraints@, r@),
        split_fits(axis, area, constraints@, r@),
{
    let cs: Vec<Constraint> = constraints.iter().map(|e| match *e {
        Extent::Length(n) => Constraint::Length(n),
        Extent::Min(n) => Constraint::Min(n),
        Extent::Percentage(n) => Constraint::Percentage(n),
    }).collect();
    let dir = match axis {
        Axis::Vertical => Direction::Vertical,
        Axis::Horizontal => Direction::Horizontal,
    };
    let rect = Rect { x: area.x, y: area.y, width: area.width, height: area.height };
    let parts = Layout::default().direction(dir).constraints(cs).split(rect);
    parts.iter().map(|r| Area { x: r.x, y: r.y, width: r.width, height: r.height }).collect()
}

/// The areas of the screen's panels.
#[derive(Clone, Copy, Debug, PartialEq, Eq, Structural)]
pub struct PanelAreas {
    pub header: Area,
    pub top_left: Area,
    pub top_right: Area,
    pub bottom_left: Area,
    pub bottom_right: Area,
    pub footer: Area,
}

/// The panel areas of a layout with two rows of two panels: the rows of the
/// screen are header, top, bottom and footer.
pub open spec fn four_panels(rows: Seq<Area>, top: Seq<Area>, bottom: Seq<Area>) -> PanelAreas {
    PanelAreas {
        header: rows[0],
        top_left: top[0],
        top_right: top[1],
        bottom_left: bottom[0],
        bottom_right: bottom[1],
        footer: rows[3],
    }
}

/// The rows of the detailed layout: header, two panel rows, footer.
pub open spec fn detailed_rows() -> Seq<Extent> {
    seq![Extent::Length(3), Extent::Min(12), Extent::Min(10), Extent::Length(1)]
}

/// The rows of the compact layout: a smaller header, two panel rows, footer.
pub open spec fn compact_rows() -> Seq<Extent> {
    seq![Extent::Length(2), Extent::Min(8), Extent::Min(8), Extent::Length(1)]
}

/// The rows of the single-panel layouts: header, panel, footer.
pub open spec fn single_rows() -> Seq<Extent> {
    seq![Extent::Length(3), Extent::Min(10), Extent::Length(1)]
}

/// Two columns with the given shares in percent.
pub open spec fn columns(left: u16, right: u16) -> Seq<Extent> {
    seq![Extent::Percentage(left), Extent::Percentage(right)]
}

impl PanelAreas {
    /// The panel areas of a single-panel layout from the rows of the
    /// screen: the panel goes to `top_left` in focus mode, else to
    /// `bottom_right`.
    pub fn from_rows(rows: &[Area], focus: bool) -> (r: PanelAreas)
        requires
            rows@.len() >= 3,
        ensures
            r == single_panel(rows@, focus),
    {
        let none = Area::empty();
        PanelAreas {
            header: rows[0],
            top_left: if focus {
                rows[1]
            } else {
                none
            },
            top_right: none,
            bottom_left: none,
            bottom_right: if focus {
                none
            } else {
                rows[1]
            },
            footer: rows[2],
        }
    }

    /// The panel areas of a two-by-two layout from the rows of the screen
    /// and the columns of its two middle rows.
    pub fn from_splits(rows: &[Area], top: &[Area], bottom: &[Area]) -> (r: PanelAreas)
        requires
            rows@.len() >= 4,
            top@.len() >= 2,
            bottom@.len() >= 2,
        ensures
            r == four_panels(rows@, top@, bottom@),
    {
        PanelAreas {
            header: rows[0],
            top_left: top[0],
            top_right: top[1],
            bottom_left: bottom[0],
            bottom_right: bottom[1],
            footer: rows[3],
        }
    }
}

fn two_by_two(area: Area, rows_spec: &[Extent], top_cols: &[Extent], bottom_cols: &[Extent]) -> (r:
    PanelAreas)
    requires
        rows_spec@.len() == 4,
        top_cols@.len() == 2,
        bottom_cols@.len() == 2,
    ensures
        exists|rows: Seq<Area>, top: Seq<Area>, bottom: Seq<Area>|
            split_by(Axis::Vertical, area, rows_spec@, rows) && split_by(
                Axis::Horizontal,
                rows[1],
                top_cols@,
                top,
            ) && split_by(Axis::Horizontal, rows[2], bottom_cols@, bottom) && r == four_panels(
                rows,
                top,
                bottom,
            ),        within(r.header, area) && within(r.top_left, area) && within(r.top_right, area),
        within(r.bottom_left, area) && within(r.bottom_right, area) && within(r.footer, area),
{
    let rows = split_area(Axis::Vertical, area, rows_spec);
    let top = split_area(Axis::Horizontal, rows[1], top_cols);
    let bottom = split_area(Axis::Horizontal, rows[2], bottom_cols);
    PanelAreas::from_splits(rows.as_slice(), top.as_slice(), bottom.as_slice())
}

/// Compute panel areas for the Detailed layout: a header of 3 rows, a top
/// row split 60/40, a bottom row split 35/65, and a footer of 1 row.
pub fn compute_detailed(area: Area) -> (r: PanelAreas)
    ensures
        exists|rows: Seq<Area>, top: Seq<Area>, bottom: Seq<Area>|
            split_by(Axis::Vertical, area, detailed_rows(), rows) && split_by(
                Axis::Horizontal,
                rows[1],
                columns(60, 40),
                top,
            ) && split_by(Axis::Horizontal, rows[2], columns(35, 65), bottom) && r
                == four_panels(rows, top, bottom),        within(r.header, area) && within(r.top_left, area) && within(r.top_right, area),
        within(r.bottom_left, area) && within(r.bottom_right, area) && within(r.footer, area),
{
    let rows = [Extent::Length(3), Extent::Min(12), Extent::Min(10), Extent::Length(1)];
    let top = [Extent::Percentage(60), Extent::Percentage(40)];
    let bottom = [Extent::Percentage(35), Extent::Percentage(65)];
    assert(rows@ =~= detailed_rows());
    assert(top@ =~= columns(60, 40));
    assert(bottom@ =~= columns(35, 65));
    two_by_two(area, &rows, &top, &bottom)
}

/// Compute panel areas for the Compact layout: a header of 2 rows, a top
/// row split 50/50, a bottom row split 30/70, and a footer of 1 row.
pub fn compute_compact(area: Area) -> (r: PanelAreas)
    ensures
        exists|rows: Seq<Area>, top: Seq<Area>, bottom: Seq<Area>|
            split_by(Axis::Vertical, area, compact_rows(), rows) && split_by(
                Axis::Horizontal,
                rows[1],
                columns(50, 50),
                top,
            ) && split_by(Axis::Horizontal, rows[2], columns(30, 70), bottom) && r
                == four_panels(rows, top, bottom),        within(r.header, area) && within(r.top_left, area) && within(r.top_right, area),
        within(r.bottom_left, area) && within(r.bottom_right, area) && within(r.footer, area),
{
    let rows = [Extent::Length(2), Extent::Min(8), Extent::Min(8), Extent::Length(1)];
    let top = [Extent::Percentage(50), Extent::Percentage(50)];
    let bottom = [Extent::Percentage(30), Extent::Percentage(70)];
    assert(rows@ =~= compact_rows());
    assert(top@ =~= columns(50, 50));
    assert(bottom@ =~= columns(30, 70));
    two_by_two(area, &rows, &top, &bottom)
}

/// The panel areas of a single-panel layout: the panel in `bottom_right`
/// (process-only) or `top_left` (focus), the other panels empty.
pub open spec fn single_panel(rows: Seq<Area>, focus: bool) -> PanelAreas {
    let none = Area { x: 0, y: 0, width: 0, height: 0 };
    PanelAreas {
        header: rows[0],
        top_left: if focus {
            rows[1]
        } else {
            none
        },
        top_right: none,
        bottom_left: none,
        bottom_right: if focus {
            none
        } else {
            rows[1]
        },
        footer: rows[2],
    }
}

fn single(area: Area, focus: bool) -> (r: PanelAreas)
    ensures
        exists|rows: Seq<Area>|
            split_by(Axis::Vertical, area, single_rows(), rows) && r == single_panel(rows, focus),
        within(r.header, area) && within(r.footer, area),
        within(if focus { r.top_left } else { r.bottom_right }, area),
{
    let spec_rows = [Extent::Length(3), Extent::Min(10), Extent::Length(1)];
    assert(spec_rows@ =~= single_rows());
    let rows = split_area(Axis::Vertical, area, &spec_rows);
    PanelAreas::from_rows(rows.as_slice(), focus)
}

/// For ProcessOnly mode, a single fullscreen area with header and footer.
pub fn compute_process_only(area: Area) -> (r: PanelAreas)
    ensures
        exists|rows: Seq<Area>|
            split_by(Axis::Vertical, area, single_rows(), rows) && r == single_panel(rows, false),
        within(r.header, area) && within(r.bottom_right, area) && within(r.footer, area),
{
    single(area, false)
}

/// For Focus mode, a single panel takes the entire center area.
pub fn compute_focus(area: Area) -> (r: PanelAreas)
    ensures
        exists|rows: Seq<Area>|
            split_by(Axis::Vertical, area, single_rows(), rows) && r == single_panel(rows, true),
        within(r.header, area) && within(r.top_left, area) && within(r.footer, area),
{
    single(area, true)
}

// ── Panel placement ─────────────────────────────────────────────────────────

/// The panels the screen can show.
#[derive(Clone, Copy, Debug, PartialEq, Eq, Structural)]
pub enum PanelKind {
    Cpu,
    MemoryDisk,
    Network,
    NetworkDetail,
    DiskDetail,
    Gpu,
    History,
    Remote,
    Heatmap,
    Alerts,
    Containers,
    Fans,
    Processes,
}

/// Which panel each area of the layout shows; `None` where the layout has
/// no such area.
#[derive(Clone, Copy, Debug, PartialEq, Eq, Structural)]
pub struct PanelPlan {
    pub top_left: Option<PanelKind>,
    pub top_right: Option<PanelKind>,
    pub bottom_left: Option<PanelKind>,
    pub bottom_right: Option<PanelKind>,
}

/// The inspector panel of view `v`; the overview's is the CPU panel.
pub open spec fn view_panel(v: ActiveView) -> PanelKind {
    match v {
        ActiveView::Overview => PanelKind::Cpu,
        ActiveView::Network => PanelKind::NetworkDetail,
        ActiveView::Disk => PanelKind::DiskDetail,
        ActiveView::Gpu => PanelKind::Gpu,
        ActiveView::History => PanelKind::History,
        ActiveView::Remote => PanelKind::Remote,
        ActiveView::Heatmap => PanelKind::Heatmap,
        ActiveView::Alerts => PanelKind::Alerts,
        ActiveView::Containers => PanelKind::Containers,
        ActiveView::Fans => PanelKind::Fans,
    }
}

/// The panels of layout `m` with view `v` in front. The detailed layout
/// shows the CPU, memory, network and process panels, the view's
/// inspector taking the place of one of them: the network inspector the
/// network panel's, the disk and GPU inspectors the memory panel's, and
/// the other inspectors the CPU panel's. The compact layout always shows
/// the four overview panels, the process-only layout the process table,
/// and the focus layout the view's inspector alone.
pub open spec fn panel_plan_of(m: LayoutMode, v: ActiveView) -> PanelPlan {
    match m {
        LayoutMode::Detailed => {
            let p = view_panel(v);
            PanelPlan {
                top_left: Some(
                    if v == ActiveView::Network || v == ActiveView::Disk || v == ActiveView::Gpu {
                        PanelKind::Cpu
                    } else {
                        p
                    },
                ),
                top_right: Some(
                    if v == ActiveView::Disk || v == ActiveView::Gpu {
                        p
                    } else {
                        PanelKind::MemoryDisk
                    },
                ),
                bottom_left: Some(
                    if v == ActiveView::Network {
                        p
                    } else {
                        PanelKind::Network
                    },
                ),
                bottom_right: Some(PanelKind::Processes),
            }
        },
        LayoutMode::Compact => PanelPlan {
            top_left: Some(PanelKind::Cpu),
            top_right: Some(PanelKind::MemoryDisk),
            bottom_left: Some(PanelKind::Network),
            bottom_right: Some(PanelKind::Processes),
        },
        LayoutMode::ProcessOnly => PanelPlan {
            top_left: None,
            top_right: None,
            bottom_left: None,
            bottom_right: Some(PanelKind::Processes),
        },
        LayoutMode::Focus => PanelPlan {
            top_left: Some(view_panel(v)),
            top_right: None,
            bottom_left: None,
            bottom_right: None,
        },
    }
}

/// The inspector panel of a view.
pub fn view_panel_of(v: ActiveView) -> (r: PanelKind)
    ensures
        r == view_panel(v),
{
    match v {
        ActiveView::Overview => PanelKind::Cpu,
        ActiveView::Network => PanelKind::NetworkDetail,
        ActiveView::Disk => PanelKind::DiskDetail,
        ActiveView::Gpu => PanelKind::Gpu,
        ActiveView::History => PanelKind::History,
        ActiveView::Remote => PanelKind::Remote,
        ActiveView::Heatmap => PanelKind::Heatmap,
        ActiveView::Alerts => PanelKind::Alerts,
        ActiveView::Containers => PanelKind::Containers,
        ActiveView::Fans => PanelKind::Fans,
    }
}

/// Which panel each area of layout `m` shows with view `v` in front.
pub fn panel_plan(m: LayoutMode, v: ActiveView) -> (r: PanelPlan)
    ensures
        r == panel_plan_of(m, v),
{
    match m {
        LayoutMode::Detailed => {
            let p = view_panel_of(v);
            let inspector_top_right = v == ActiveView::Disk || v == ActiveView::Gpu;
            let cpu_kept = inspector_top_right || v == ActiveView::Network;
            PanelPlan {
                top_left: Some(
                    if cpu_kept {
                        PanelKind::Cpu
                    } else {
                        p
                    },
                ),
                top_right: Some(
                    if inspector_top_right {
                        p
                    } else {
                        PanelKind::MemoryDisk
                    },
                ),
                bottom_left: Some(
                    if v == ActiveView::Network {
                        p
                    } else {
                        PanelKind::Network
                    },
                ),
                bottom_right: Some(PanelKind::Processes),
            }
        },
        LayoutMode::Compact => PanelPlan {
            top_left: Some(PanelKind::Cpu),
            top_right: Some(PanelKind::MemoryDisk),
            bottom_left: Some(PanelKind::Network),
            bottom_right: Some(PanelKind::Processes),
        },
        LayoutMode::ProcessOnly => PanelPlan {
            top_left: None,
            top_right: None,
            bottom_left: None,
            bottom_right: Some(PanelKind::Processes),
        },
        LayoutMode::Focus => PanelPlan {
            top_left: Some(view_panel_of(v)),
            top_right: None,
            bottom_left: None,
            bottom_right: None,
        },
    }
}

/// Every layout but the focus layout keeps the process table in the
/// bottom-right area, and the view in front is always on screen.
pub proof fn plan_shows_view(m: LayoutMode, v: ActiveView)
    ensures
        m != LayoutMode::Focus ==> panel_plan_of(m, v).bottom_right == Some(PanelKind::Processes),
        m == LayoutMode::Detailed || m == LayoutMode::Focus ==> {
            let p = panel_plan_of(m, v);
            p.top_left == Some(view_panel(v)) || p.top_right == Some(view_panel(v))
                || p.bottom_left == Some(view_panel(v))
        },
{
}

} // verus!
