use pulse::ui::layout::{
    compute_compact, compute_detailed, compute_focus, compute_process_only, panel_plan, ActiveView, Area,
    LayoutMode, PanelKind,
};

const SCREEN: Area = Area { x: 0, y: 0, width: 120, height: 40 };

#[test]
fn detailed_layout_rows_and_columns() {
    let a = compute_detailed(SCREEN);
    assert_eq!(a.header, Area { x: 0, y: 0, width: 120, height: 3 });
    assert_eq!(a.footer, Area { x: 0, y: 39, width: 120, height: 1 });
    assert_eq!(a.top_left.y, a.top_right.y);
    assert_eq!(a.top_left.height, a.top_right.height);
    assert_eq!(a.bottom_left.y, a.bottom_right.y);
    assert_eq!(a.top_left.width, 72);
    assert_eq!(a.top_right.width, 48);
    assert_eq!(a.bottom_left.width + a.bottom_right.width, 120);
    assert_eq!(a.top_left.height + a.bottom_left.height, 36);
}

#[test]
fn compact_layout_has_a_smaller_header() {
    let a = compute_compact(SCREEN);
    assert_eq!(a.header.height, 2);
    assert_eq!(a.footer.height, 1);
    assert_eq!(a.top_left.width, 60);
    assert_eq!(a.bottom_left.width, 36);
}

#[test]
fn single_panel_layouts() {
    let p = compute_process_only(SCREEN);
    assert_eq!(p.bottom_right, Area { x: 0, y: 3, width: 120, height: 36 });
    assert_eq!(p.top_left, Area { x: 0, y: 0, width: 0, height: 0 });
    let f = compute_focus(SCREEN);
    assert_eq!(f.top_left, Area { x: 0, y: 3, width: 120, height: 36 });
    assert_eq!(f.bottom_right, Area { x: 0, y: 0, width: 0, height: 0 });
    assert_eq!(f.header.height, 3);
}

#[test]
fn layouts_of_a_large_screen_keep_their_width() {
    let big = Area { x: 5, y: 7, width: 400, height: 300 };
    let a = compute_detailed(big);
    assert_eq!((a.header.x, a.header.width), (5, 400));
    assert_eq!((a.footer.x, a.footer.width), (5, 400));
}

#[test]
fn panels_per_view_in_the_detailed_layout() {
    let p = panel_plan(LayoutMode::Detailed, ActiveView::Overview);
    assert_eq!(p.top_left, Some(PanelKind::Cpu));
    assert_eq!(p.top_right, Some(PanelKind::MemoryDisk));
    assert_eq!(p.bottom_left, Some(PanelKind::Network));
    assert_eq!(p.bottom_right, Some(PanelKind::Processes));
    let p = panel_plan(LayoutMode::Detailed, ActiveView::Network);
    assert_eq!(p.bottom_left, Some(PanelKind::NetworkDetail));
    assert_eq!(p.top_left, Some(PanelKind::Cpu));
    let p = panel_plan(LayoutMode::Detailed, ActiveView::Disk);
    assert_eq!(p.top_right, Some(PanelKind::DiskDetail));
    let p = panel_plan(LayoutMode::Detailed, ActiveView::Gpu);
    assert_eq!(p.top_right, Some(PanelKind::Gpu));
    let p = panel_plan(LayoutMode::Detailed, ActiveView::Fans);
    assert_eq!(p.top_left, Some(PanelKind::Fans));
    assert_eq!(p.top_right, Some(PanelKind::MemoryDisk));
}

#[test]
fn panels_in_the_other_layouts() {
    let p = panel_plan(LayoutMode::Compact, ActiveView::Alerts);
    assert_eq!(p.top_left, Some(PanelKind::Cpu));
    let p = panel_plan(LayoutMode::ProcessOnly, ActiveView::Gpu);
    assert_eq!(p.top_left, None);
    assert_eq!(p.bottom_right, Some(PanelKind::Processes));
    let p = panel_plan(LayoutMode::Focus, ActiveView::Heatmap);
    assert_eq!(p.top_left, Some(PanelKind::Heatmap));
    assert_eq!(p.bottom_right, None);
    let p = panel_plan(LayoutMode::Focus, ActiveView::Overview);
    assert_eq!(p.top_left, Some(PanelKind::Cpu));
}

#[test]
fn panel_areas_from_given_splits() {
    use_splits();
}

fn use_splits() {
    let r = |x: u16, y: u16, w: u16, h: u16| Area { x, y, width: w, height: h };
    let rows = [r(0, 0, 10, 3), r(0, 3, 10, 5), r(0, 8, 10, 4), r(0, 12, 10, 1)];
    let top = [r(0, 3, 6, 5), r(6, 3, 4, 5)];
    let bottom = [r(0, 8, 3, 4), r(3, 8, 7, 4)];
    let a = pulse::ui::layout::PanelAreas::from_splits(&rows, &top, &bottom);
    assert_eq!(a.header, rows[0]);
    assert_eq!(a.top_right, top[1]);
    assert_eq!(a.bottom_left, bottom[0]);
    assert_eq!(a.footer, rows[3]);
    let single = [r(0, 0, 10, 3), r(0, 3, 10, 9), r(0, 12, 10, 1)];
    let f = pulse::ui::layout::PanelAreas::from_rows(&single, true);
    assert_eq!(f.top_left, single[1]);
    assert_eq!(f.bottom_right, r(0, 0, 0, 0));
    let p = pulse::ui::layout::PanelAreas::from_rows(&single, false);
    assert_eq!(p.bottom_right, single[1]);
    assert_eq!(p.footer, single[2]);
}

fn inside(p: Area, a: Area) -> bool {
    p.x >= a.x
        && p.x as u32 + p.width as u32 <= a.x as u32 + a.width as u32
        && p.y >= a.y
        && p.y as u32 + p.height as u32 <= a.y as u32 + a.height as u32
}

#[test]
fn panels_stay_inside_a_small_offset_screen() {
    let screen = Area { x: 5, y: 2, width: 30, height: 12 };
    for a in [compute_detailed(screen), compute_compact(screen)] {
        for p in [a.header, a.top_left, a.top_right, a.bottom_left, a.bottom_right, a.footer] {
            assert!(inside(p, screen));
        }
    }
    let p = compute_process_only(screen);
    assert!(inside(p.header, screen) && inside(p.bottom_right, screen) && inside(p.footer, screen));
    let f = compute_focus(screen);
    assert!(inside(f.header, screen) && inside(f.top_left, screen) && inside(f.footer, screen));
}
