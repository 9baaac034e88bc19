use pulse::app::{
    AlertSeverity, App, InputMode, KeyAction, KeyCode, KeyPress, SortMode, MAX_ALERTS,
    SPLASH_TICKS,
};
use pulse::config::{GeneralConfig, PanelConfig};
use pulse::history::HistoryWindow;
use pulse::system::process::Signal;
use pulse::ui::layout::{ActiveView, LayoutMode};
use pulse::ui::theme::ThemeId;

fn key(c: char) -> KeyPress {
    KeyPress { code: KeyCode::Char(c), ctrl: false }
}

fn code(code: KeyCode) -> KeyPress {
    KeyPress { code, ctrl: false }
}

/// A fresh app whose splash screen has been dismissed.
fn ready_app() -> App<f64> {
    let mut app: App<f64> = App::new(
        &GeneralConfig::default(),
        &PanelConfig::default(),
        "tokyonight",
        "detailed",
        false,
        false,
        4,
        0.0,
        0,
    );
    assert_eq!(app.on_key(code(KeyCode::Other), 10, false, 0), KeyAction::Continue);
    app
}

#[test]
fn new_app_takes_its_settings_from_the_configuration() {
    let mut general = GeneralConfig::default();
    general.default_sort = "memory".to_string();
    let app: App<f64> = App::new(&general, &PanelConfig::default(), "NORD", "compact", true, true, 2, 0.0, 5);
    assert_eq!(app.sort_mode, SortMode::Memory);
    assert_eq!(app.theme_id, ThemeId::Nord);
    assert_eq!(app.layout_mode, LayoutMode::Compact);
    assert_eq!(app.active_view, ActiveView::Overview);
    assert!(app.crt_enabled);
    assert!(app.security_enabled);
    assert_eq!(app.splash_remaining, SPLASH_TICKS);
    assert_eq!(app.history.cpu_per_core.len(), 2);
    assert_eq!(app.history.window, HistoryWindow::FiveMin);
    assert!(app.alerts.is_empty());
    assert_eq!(app.input_mode, InputMode::Normal);
}

#[test]
fn first_key_only_dismisses_the_splash() {
    let mut app: App<f64> = App::new(
        &GeneralConfig::default(),
        &PanelConfig::default(),
        "dracula",
        "detailed",
        false,
        false,
        1,
        0.0,
        0,
    );
    assert_eq!(app.on_key(key('q'), 10, false, 0), KeyAction::Continue);
    assert_eq!(app.splash_remaining, 0);
    assert_eq!(app.on_key(key('q'), 10, false, 0), KeyAction::Quit);
}

#[test]
fn quit_keys() {
    let mut app = ready_app();
    assert_eq!(app.on_key(key('q'), 10, false, 0), KeyAction::Quit);
    assert_eq!(app.on_key(key('Q'), 10, false, 0), KeyAction::Quit);
    assert_eq!(app.on_key(KeyPress { code: KeyCode::Char('c'), ctrl: true }, 10, false, 0), KeyAction::Quit);
}

#[test]
fn sort_key_cycles_and_reports() {
    let mut app = ready_app();
    assert_eq!(app.on_key(key('s'), 10, false, 100), KeyAction::Resort);
    assert_eq!(app.sort_mode, SortMode::Memory);
    assert_eq!(app.status_message.as_deref(), Some("Sort: MEM"));
    app.on_key(key('s'), 10, false, 100);
    app.on_key(key('s'), 10, false, 100);
    app.on_key(key('S'), 10, false, 100);
    assert_eq!(app.sort_mode, SortMode::Cpu);
    assert_eq!(app.status_message.as_deref(), Some("Sort: CPU%"));
}

#[test]
fn layout_theme_and_views() {
    let mut app = ready_app();
    app.on_key(key('m'), 10, false, 0);
    assert_eq!(app.layout_mode, LayoutMode::Compact);
    assert_eq!(app.status_message.as_deref(), Some("Layout: Compact"));
    app.on_key(key('t'), 10, false, 0);
    assert_eq!(app.theme_id, ThemeId::CatppuccinMocha);
    assert_eq!(app.status_message.as_deref(), Some("Theme: Catppuccin"));
    app.on_key(key('g'), 10, false, 0);
    assert_eq!(app.active_view, ActiveView::Gpu);
    app.on_key(key('n'), 10, false, 0);
    assert_eq!(app.active_view, ActiveView::Network);
    assert_eq!(app.status_message.as_deref(), Some("Network Inspector"));
    app.on_key(key('d'), 10, false, 0);
    assert_eq!(app.active_view, ActiveView::Disk);
    app.on_key(key('x'), 10, false, 0);
    assert_eq!(app.active_view, ActiveView::Heatmap);
    app.on_key(key('a'), 10, false, 0);
    assert_eq!(app.active_view, ActiveView::Alerts);
    app.on_key(key('o'), 10, false, 0);
    assert_eq!(app.active_view, ActiveView::Overview);
}

#[test]
fn history_key_opens_then_cycles_windows() {
    let mut app = ready_app();
    app.on_key(key('h'), 10, false, 0);
    assert_eq!(app.active_view, ActiveView::History);
    assert_eq!(app.status_message.as_deref(), Some("History View"));
    assert_eq!(app.history.window, HistoryWindow::FiveMin);
    app.on_key(key('h'), 10, false, 0);
    assert_eq!(app.history.window, HistoryWindow::FifteenMin);
    assert_eq!(app.status_message.as_deref(), Some("History: 15m"));
    app.on_key(key('H'), 10, false, 0);
    assert_eq!(app.history.window, HistoryWindow::OneHour);
    app.on_key(key('h'), 10, false, 0);
    assert_eq!(app.history.window, HistoryWindow::FiveMin);
}

#[test]
fn remote_key_needs_hosts() {
    let mut app = ready_app();
    app.on_key(key('R'), 10, false, 0);
    assert_eq!(app.active_view, ActiveView::Overview);
    assert_eq!(app.status_message.as_deref(), Some("No remote hosts configured"));
    app.on_key(key('R'), 10, true, 0);
    assert_eq!(app.active_view, ActiveView::Remote);
    assert_eq!(app.status_message.as_deref(), Some("Remote Hosts"));
}

#[test]
fn toggles_undo_themselves() {
    let mut app = ready_app();
    app.on_key(key('!'), 10, false, 0);
    assert!(app.security_enabled);
    assert_eq!(app.status_message.as_deref(), Some("Security Mode: ON"));
    app.on_key(key('!'), 10, false, 0);
    assert!(!app.security_enabled);
    assert_eq!(app.status_message.as_deref(), Some("Security Mode: OFF"));
    app.on_key(key('c'), 10, false, 0);
    assert!(app.crt_enabled);
    app.on_key(key('C'), 10, false, 0);
    assert!(!app.crt_enabled);
    app.on_key(key('i'), 10, false, 0);
    assert!(app.show_process_detail);
    app.on_key(key('I'), 10, false, 0);
    assert!(!app.show_process_detail);
}

#[test]
fn escape_closes_the_detail_overlay() {
    let mut app = ready_app();
    app.on_key(key('i'), 10, false, 0);
    assert!(app.show_process_detail);
    app.on_key(code(KeyCode::Esc), 10, false, 0);
    assert!(!app.show_process_detail);
}

#[test]
fn enter_toggles_focus_layout() {
    let mut app = ready_app();
    app.on_key(code(KeyCode::Enter), 10, false, 0);
    assert_eq!(app.layout_mode, LayoutMode::Focus);
    app.on_key(code(KeyCode::Enter), 10, false, 0);
    assert_eq!(app.layout_mode, LayoutMode::Detailed);
}

#[test]
fn selection_moves_within_the_list() {
    let mut app = ready_app();
    app.on_key(code(KeyCode::Down), 3, false, 0);
    app.on_key(key('j'), 3, false, 0);
    assert_eq!(app.process_scroll, 2);
    app.on_key(code(KeyCode::Down), 3, false, 0);
    assert_eq!(app.process_scroll, 2);
    app.on_key(code(KeyCode::Up), 3, false, 0);
    assert_eq!(app.process_scroll, 1);
    app.on_key(key('J'), 3, false, 0);
    app.on_key(key('J'), 3, false, 0);
    assert_eq!(app.process_scroll, 0);
    app.on_key(code(KeyCode::PageDown), 50, false, 0);
    assert_eq!(app.process_scroll, 20);
    app.on_key(code(KeyCode::PageDown), 30, false, 0);
    assert_eq!(app.process_scroll, 29);
    app.on_key(code(KeyCode::PageUp), 30, false, 0);
    assert_eq!(app.process_scroll, 9);
    app.on_key(code(KeyCode::PageUp), 30, false, 0);
    assert_eq!(app.process_scroll, 0);
    app.on_key(code(KeyCode::End), 30, false, 0);
    assert_eq!(app.process_scroll, 29);
    app.on_key(code(KeyCode::Home), 30, false, 0);
    assert_eq!(app.process_scroll, 0);
    app.on_key(code(KeyCode::End), 0, false, 0);
    assert_eq!(app.process_scroll, 0);
}

#[test]
fn kill_and_signal_keys_name_the_selected_row() {
    let mut app = ready_app();
    app.on_key(code(KeyCode::Down), 5, false, 0);
    assert_eq!(app.on_key(key('k'), 5, false, 0), KeyAction::Kill { index: 1, force: false });
    assert_eq!(app.on_key(key('K'), 5, false, 0), KeyAction::Kill { index: 1, force: true });
    assert_eq!(app.on_key(key('z'), 5, false, 0), KeyAction::Signal { index: 1, signal: Signal::Stop });
    assert_eq!(app.on_key(key('r'), 5, false, 0), KeyAction::Signal { index: 1, signal: Signal::Cont });
    assert_eq!(app.on_key(key('k'), 1, false, 0), KeyAction::Continue);
    assert_eq!(app.on_key(key('e'), 5, false, 0), KeyAction::Export);
}

#[test]
fn kill_reports() {
    let mut app = ready_app();
    app.report_kill(false, "firefox", 1234, Ok(()), 0);
    assert_eq!(app.status_message.as_deref(), Some("Sent SIGTERM to firefox (1234)"));
    app.report_kill(true, "firefox", 1234, Ok(()), 0);
    assert_eq!(app.status_message.as_deref(), Some("Sent SIGKILL to firefox (1234)"));
    app.report_kill(true, "x", 1, Err("EPERM: Operation not permitted".to_string()), 0);
    assert_eq!(app.status_message.as_deref(), Some("Kill failed: EPERM: Operation not permitted"));
}

#[test]
fn signal_reports() {
    let mut app = ready_app();
    app.report_signal(Signal::Stop, "vim", 42, Ok(()), 0);
    assert_eq!(app.status_message.as_deref(), Some("Sent SIGSTOP to vim (42)"));
    app.report_signal(Signal::Cont, "vim", 42, Ok(()), 0);
    assert_eq!(app.status_message.as_deref(), Some("Sent SIGCONT to vim (42)"));
    app.report_signal(Signal::Custom(-3), "vim", 42, Ok(()), 0);
    assert_eq!(app.status_message.as_deref(), Some("Sent signal -3 to vim (42)"));
    app.report_signal(Signal::Term, "vim", 42, Err("ESRCH".to_string()), 0);
    assert_eq!(app.status_message.as_deref(), Some("Signal failed: ESRCH"));
}

#[test]
fn typing_a_filter_and_backspace() {
    let mut app = ready_app();
    app.on_key(key('f'), 10, false, 0);
    assert_eq!(app.input_mode, InputMode::FilterInput);
    assert!(app.filter_active);
    for c in "fox".chars() {
        app.on_key(key(c), 10, false, 0);
    }
    assert_eq!(app.filter_text, "fox");
    // 'q' is text while typing, not a quit.
    assert_eq!(app.on_key(key('q'), 10, false, 0), KeyAction::Continue);
    assert_eq!(app.filter_text, "foxq");
    app.on_key(code(KeyCode::Backspace), 10, false, 0);
    assert_eq!(app.filter_text, "fox");
    app.on_key(code(KeyCode::Enter), 10, false, 0);
    assert_eq!(app.input_mode, InputMode::Normal);
    assert!(app.filter_active);
}

#[test]
fn escape_clears_the_filter() {
    let mut app = ready_app();
    app.on_key(key('f'), 10, false, 0);
    app.on_key(key('a'), 10, false, 0);
    app.on_key(code(KeyCode::Esc), 10, false, 0);
    assert_eq!(app.input_mode, InputMode::Normal);
    assert!(!app.filter_active);
    assert_eq!(app.filter_text, "");
    assert_eq!(app.process_scroll, 0);
}

#[test]
fn empty_filter_is_dropped_on_enter() {
    let mut app = ready_app();
    app.on_key(key('f'), 10, false, 0);
    app.on_key(code(KeyCode::Enter), 10, false, 0);
    assert!(!app.filter_active);
}

#[test]
fn substring_filter_matches_name_or_user_ignoring_case() {
    let mut app = ready_app();
    let names = vec!["Firefox".to_string(), "bash".to_string(), "sshd".to_string()];
    let users = vec!["alice".to_string(), "ROOT".to_string(), "root".to_string()];
    assert_eq!(app.filtered_processes(&names, &users), vec![0, 1, 2]);
    app.on_key(key('f'), 10, false, 0);
    for c in "(root".chars() {
        app.on_key(key(c), 10, false, 0);
    }
    app.on_key(code(KeyCode::Enter), 10, false, 0);
    // "(root" is no valid regex, so the text is matched as a substring.
    assert_eq!(app.filtered_processes(&names, &users), Vec::<usize>::new());
    app.on_key(key('f'), 10, false, 0);
    for c in "FIRE".chars() {
        app.on_key(key(c), 10, false, 0);
    }
    app.on_key(code(KeyCode::Enter), 10, false, 0);
    // A valid regex is matched case-sensitively.
    assert_eq!(app.filtered_processes(&names, &users), Vec::<usize>::new());
}

#[test]
fn regex_filter_matches_name_or_user() {
    let mut app = ready_app();
    let names = vec!["Firefox".to_string(), "bash".to_string(), "sshd".to_string()];
    let users = vec!["alice".to_string(), "ROOT".to_string(), "root".to_string()];
    app.on_key(key('f'), 10, false, 0);
    for c in "^(ba|ss)".chars() {
        app.on_key(key(c), 10, false, 0);
    }
    app.on_key(code(KeyCode::Enter), 10, false, 0);
    assert_eq!(app.filtered_processes(&names, &users), vec![1, 2]);
}

#[test]
fn tick_counts_down_the_splash_and_plans_refreshes() {
    let mut app: App<f64> = App::new(
        &GeneralConfig::default(),
        &PanelConfig { gpu: true, ..PanelConfig::default() },
        "nord",
        "detailed",
        false,
        true,
        1,
        0.0,
        1000,
    );
    let plan = app.on_tick(1200);
    assert!(!plan.refresh);
    assert_eq!(app.tick_count, 1);
    assert_eq!(app.splash_remaining, SPLASH_TICKS - 1);
    let plan = app.on_tick(1500);
    assert!(plan.refresh);
    assert!(plan.detect_anomalies);
    assert!(!plan.collect_tcp);
    assert!(!plan.collect_gpu);
    let _ = app.on_tick(2000);
    let plan = app.on_tick(2100);
    assert!(!plan.refresh);
    let plan = app.on_tick(2000 + 500);
    assert!(plan.refresh);
    assert_eq!(app.tick_count, 5);
}

#[test]
fn gpu_is_queried_every_fourth_tick() {
    let mut app: App<f64> = App::new(
        &GeneralConfig::default(),
        &PanelConfig { gpu: true, ..PanelConfig::default() },
        "nord",
        "detailed",
        false,
        false,
        1,
        0.0,
        0,
    );
    let mut gpu_ticks = Vec::new();
    for t in 1..=8u64 {
        let plan = app.on_tick(t * 1000);
        assert!(plan.refresh);
        if plan.collect_gpu {
            gpu_ticks.push(t);
        }
    }
    assert_eq!(gpu_ticks, vec![4, 8]);
}

#[test]
fn status_message_expires_after_three_seconds() {
    let mut app = ready_app();
    app.show_status("hello".to_string(), 10_000);
    app.on_tick(12_999);
    assert_eq!(app.status_message.as_deref(), Some("hello"));
    app.on_tick(13_000);
    assert_eq!(app.status_message, None);
}

#[test]
fn alerts_are_throttled_per_process() {
    let mut app = ready_app();
    for _ in 0..600 {
        app.on_tick(0);
    }
    app.record_alerts(&[(7, "pid 7 hot".to_string()), (8, "pid 8 hot".to_string())]);
    assert_eq!(app.alerts.len(), 2);
    assert_eq!(app.alerts[0].message, "pid 7 hot");
    assert_eq!(app.alerts[0].severity, AlertSeverity::Warning);
    assert_eq!(app.alerts[0].tick, 600);
    app.on_tick(0);
    app.record_alerts(&[(7, "again".to_string())]);
    assert_eq!(app.alerts.len(), 2);
    for _ in 0..599 {
        app.on_tick(0);
    }
    app.record_alerts(&[(7, "again".to_string())]);
    assert_eq!(app.alerts.len(), 3);
    assert_eq!(app.alerts[2].tick, 1200);
}

#[test]
fn a_process_never_alerted_alerts_at_once() {
    let mut app = ready_app();
    app.on_tick(0);
    app.record_alerts(&[(1, "early".to_string())]);
    assert_eq!(app.alerts.len(), 1);
    assert_eq!(app.alerts[0].tick, 1);
    app.on_tick(0);
    app.record_alerts(&[(1, "again".to_string()), (2, "other".to_string())]);
    assert_eq!(app.alerts.len(), 2);
    assert_eq!(app.alerts[1].message, "other");
}

#[test]
fn alert_log_is_bounded() {
    let mut app = ready_app();
    let mut tick = 0u64;
    for round in 0..(MAX_ALERTS as u32 + 10) {
        for _ in 0..600 {
            app.on_tick(0);
            tick += 1;
        }
        app.record_alerts(&[(round, format!("alert {}", round))]);
        assert!(app.alerts.len() <= MAX_ALERTS);
    }
    assert_eq!(app.alerts.len(), MAX_ALERTS);
    assert_eq!(app.alerts[0].message, "alert 10");
    assert_eq!(app.alerts[MAX_ALERTS - 1].tick, tick);
}

#[test]
fn sort_mode_labels_and_cycle() {
    assert_eq!(SortMode::Cpu.label(), "CPU%");
    assert_eq!(SortMode::Memory.label(), "MEM");
    assert_eq!(SortMode::Pid.label(), "PID");
    assert_eq!(SortMode::Name.label(), "NAME");
    let mut m = SortMode::Pid;
    for _ in 0..4 {
        m = m.next();
    }
    assert_eq!(m, SortMode::Pid);
    assert_eq!(SortMode::from_config("mem"), SortMode::Memory);
    assert_eq!(SortMode::from_config("name"), SortMode::Name);
    assert_eq!(SortMode::from_config("CPU"), SortMode::Cpu);
}

#[test]
fn regex_filter_keeps_pattern_of_last_enter() {
    let mut app = ready_app();
    let names = vec!["Firefox".to_string(), "bash".to_string(), "sshd".to_string()];
    let users = vec!["alice".to_string(), "ROOT".to_string(), "root".to_string()];
    app.on_key(key('f'), 10, false, 0);
    for c in "fox$".chars() {
        app.on_key(key(c), 10, false, 0);
    }
    app.on_key(code(KeyCode::Enter), 10, false, 0);
    assert_eq!(app.filtered_processes(&names, &users), vec![0]);
    // Reopening the prompt drops the compiled regex: typed text is matched
    // as a substring until Enter compiles it again.
    app.on_key(key('f'), 10, false, 0);
    for c in "ROOT".chars() {
        app.on_key(key(c), 10, false, 0);
    }
    assert_eq!(app.filtered_processes(&names, &users), vec![1, 2]);
    app.on_key(code(KeyCode::Enter), 10, false, 0);
    assert_eq!(app.filtered_processes(&names, &users), vec![1]);
}
