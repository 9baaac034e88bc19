use pulse::config::{GeneralConfig, PanelConfig, RemoteConfig};
use pulse::event::EventLoop;
use pulse::ui::animation::{matrix_column, scrolling_pattern};
use pulse::ui::layout::{ActiveView, LayoutMode};
use pulse::ui::theme::ThemeId;

#[test]
fn layout_cycle_and_labels() {
    assert_eq!(LayoutMode::Detailed.next(), LayoutMode::Compact);
    assert_eq!(LayoutMode::Compact.next(), LayoutMode::ProcessOnly);
    assert_eq!(LayoutMode::ProcessOnly.next(), LayoutMode::Focus);
    assert_eq!(LayoutMode::Focus.next(), LayoutMode::Detailed);
    assert_eq!(LayoutMode::ProcessOnly.label(), "Process");
    assert_eq!(LayoutMode::from_config("compact"), LayoutMode::Compact);
    assert_eq!(LayoutMode::from_config("focus"), LayoutMode::Detailed);
    assert_eq!(ActiveView::Gpu.label(), "GPU");
    assert_eq!(ActiveView::Fans.label(), "Fans");
}

#[test]
fn theme_names_are_case_insensitive() {
    assert_eq!(ThemeId::from_str("Dracula"), ThemeId::Dracula);
    assert_eq!(ThemeId::from_str("ROSE_PINE"), ThemeId::RosePine);
    assert_eq!(ThemeId::from_str("mocha"), ThemeId::CatppuccinMocha);
    assert_eq!(ThemeId::from_str("one_dark"), ThemeId::OneDark);
    assert_eq!(ThemeId::from_str("unknown"), ThemeId::TokyoNight);
    assert_eq!(ThemeId::from_lowercase("nord"), ThemeId::Nord);
    assert_eq!(ThemeId::from_lowercase("NORD"), ThemeId::TokyoNight);
}

#[test]
fn theme_cycle_visits_all_ten() {
    let mut t = ThemeId::TokyoNight;
    let mut seen = Vec::new();
    for _ in 0..10 {
        seen.push(t.label());
        t = t.next();
    }
    assert_eq!(t, ThemeId::TokyoNight);
    let mut unique = seen.clone();
    unique.sort();
    unique.dedup();
    assert_eq!(unique.len(), 10);
    assert_eq!(seen[1], "Catppuccin");
}

#[test]
fn scrolling_pattern_shifts_by_tick() {
    assert_eq!(scrolling_pattern(0, 9), "░▒▓█▓▒░░▒");
    assert_eq!(scrolling_pattern(1, 3), "▒▓█");
    assert_eq!(scrolling_pattern(7, 3), scrolling_pattern(0, 3));
    assert_eq!(scrolling_pattern(3, 0), "");
    let a: Vec<char> = scrolling_pattern(5, 10).chars().collect();
    let b: Vec<char> = scrolling_pattern(6, 9).chars().collect();
    assert_eq!(&a[1..], &b[..]);
}

#[test]
fn matrix_column_picks_by_seed() {
    let glyphs: Vec<char> = "ｱｲｳｴｵｶｷｸｹｺ01".chars().collect();
    let col = matrix_column(5, 3, 2);
    assert_eq!(col.len(), 5);
    for (row, c) in col.iter().enumerate() {
        let seed = 3usize * 7 + 2 * 13 + row * 31;
        assert_eq!(*c, glyphs[seed % 12]);
    }
    assert_eq!(matrix_column(0, 1, 1), Vec::<char>::new());
    let big = matrix_column(2, u64::MAX, 0);
    let seed0 = (u64::MAX as usize).wrapping_mul(7);
    assert_eq!(big[0], glyphs[seed0 % 12]);
    assert_eq!(big[1], glyphs[seed0.wrapping_add(31) % 12]);
}

#[test]
fn config_defaults() {
    let g = GeneralConfig::default();
    assert_eq!(g.refresh_rate_ms, 500);
    assert_eq!(g.frame_rate, 60);
    assert_eq!(g.default_sort, "cpu");
    assert!(g.adaptive_refresh);
    assert_eq!(g.frame_tick_ms(), 16);
    let p = PanelConfig::default();
    assert!(p.cpu && p.memory && p.disk && p.network && p.processes && !p.gpu);
    let r = RemoteConfig::default();
    assert!(r.hosts.is_empty());
    assert_eq!(r.remote_binary, "pulse");
    assert_eq!(r.connect_timeout_secs, 10);
}

#[test]
fn frame_tick_from_rate() {
    let mut g = GeneralConfig::default();
    g.frame_rate = 0;
    assert_eq!(g.frame_tick_ms(), 16);
    g.frame_rate = 30;
    assert_eq!(g.frame_tick_ms(), 33);
    g.frame_rate = 2000;
    assert_eq!(g.frame_tick_ms(), 0);
}

#[test]
fn event_loop_keeps_its_tick() {
    assert_eq!(EventLoop::new(250).tick_rate_ms(), 250);
}


#[test]
fn matrix_rain_fades_behind_the_head() {
    use_rain();
}

fn use_rain() {
    // Column 0 falls at speed 4 (3 % 4 + 1); at tick 30 the head is at row
    // 30 * 4 / 3 % 20 = 0 on a 10-row screen.
    assert_eq!(pulse::ui::animation::rain_cell(30, 0, 0, 10), Some(200));
    assert_eq!(pulse::ui::animation::rain_cell(30, 0, 1, 10), None);
    // At tick 6 the head of column 0 is at row 8.
    assert_eq!(pulse::ui::animation::rain_cell(6, 0, 8, 10), Some(200));
    assert_eq!(pulse::ui::animation::rain_cell(6, 0, 7, 10), Some(86));
    assert_eq!(pulse::ui::animation::rain_cell(6, 0, 3, 10), Some(30));
    assert_eq!(pulse::ui::animation::rain_cell(6, 0, 2, 10), Some(32));
    assert_eq!(pulse::ui::animation::rain_cell(6, 0, 9, 10), None);
    // Far behind the head the level bottoms out at 4.
    assert_eq!(pulse::ui::animation::rain_cell(12, 0, 0, 20), Some(4));
}
