//! Application state and its decisions: what each key does, when data is
//! refreshed, which processes the filter shows, and the alert log.
//! The program around it collects data, renders, and carries out the
//! actions these decisions return.

use std::collections::{HashMap, VecDeque};

use vstd::prelude::*;

use crate::config::{GeneralConfig, PanelConfig};
use crate::history::{HistoryWindow, MetricsHistory, ring_push, window_after, window_label};
use crate::number::{decimal, push_decimal, push_signed_decimal, signed_decimal};
use crate::system::process::Signal;
use crate::text::{
    chars_of, contains_chars, contains_seq, lowercase, push_str, to_lowercase,
};
use crate::ui::layout::{ActiveView, LayoutMode, layout_after, layout_from_config, layout_label};
use crate::ui::theme::{ThemeId, theme_after, theme_label, theme_named};

verus! {

broadcast use {vstd::std_specs::hash::group_hash_axioms, vstd::std_specs::vecdeque::group_vec_dequeue_axioms};

// ── Regular expressions (outside crate) ─────────────────────────────────────

/// `regex::Regex`, a compiled regular expression, carried as an opaque
/// value: nothing of what is inside it is visible here.
#[verifier::external_type_specification]
#[verifier::external_body]
pub struct ExRegex(regex::Regex);

/// Whether `regex::Regex::new` accepts the pattern: it does unless the
/// pattern is not valid syntax or exceeds the default size limits, which
/// depends on the pattern alone.
pub uninterp spec fn regex_compiles(pattern: Seq<char>) -> bool;

/// Whether the regex compiled from `pattern` finds a match anywhere in
/// `haystack`, as `regex::Regex::is_match` answers: a function of the two
/// texts alone.
pub uninterp spec fn regex_matches(pattern: Seq<char>, haystack: Seq<char>) -> bool;

/// Calls `regex::Regex::new`; the result is present exactly when the
/// pattern compiles (`regex_compiles`).
#[verifier::external_body]
fn compile_regex(pattern: &str) -> (r: Option<regex::Regex>)
    ensures
        r is Some <==> regex_compiles(pattern@),
{
    regex::Regex::new(pattern).ok()
}

/// A compiled filter regex together with the pattern it was compiled from.
/// Its fields are private and `FilterRegex::compile` is the only place that
/// builds one, so `re` is always the compilation of `pattern`.
pub struct FilterRegex {
    pattern: String,
    re: regex::Regex,
}

impl FilterRegex {
    /// The pattern the regex was compiled from.
    pub closed spec fn source(&self) -> Seq<char> {
        self.pattern@
    }

    /// Compiles `pattern`; present exactly when it compiles.
    pub fn compile(pattern: &str) -> (r: Option<FilterRegex>)
        ensures
            r is Some <==> regex_compiles(pattern@),
            r matches Some(f) ==> f.source() == pattern@,
    {
        match compile_regex(pattern) {
            Some(re) => Some(FilterRegex { pattern: pattern.to_owned(), re }),
            None => None,
        }
    }
}

/// Calls `regex::Regex::is_match` on the filter's regex. The contract claims
/// that the answer is `regex_matches` of the pattern the regex was compiled
/// from and the haystack, which holds because `FilterRegex::compile` pairs
/// each regex with its own pattern.
#[verifier::external_body]
fn regex_is_match(filter: &FilterRegex, haystack: &str) -> (r: bool)
    ensures
        r == regex_matches(filter.source(), haystack@),
{
    filter.re.is_match(haystack)
}

// ── Alert log ───────────────────────────────────────────────────────────────

/// How serious an alert is.
#[derive(Clone, Copy, Debug, PartialEq, Eq, Structural)]
pub enum AlertSeverity {
    Info,
    Warning,
    Critical,
}

/// One entry of the alert log.
pub struct AlertEvent {
    /// UI tick at which the alert was generated.
    pub tick: u64,
    pub severity: AlertSeverity,
    pub message: String,
}

/// The alert log keeps at most this many entries.
pub const MAX_ALERTS: usize = 200;

/// A process is alerted on at most once per this many ticks.
pub const ALERT_THROTTLE_TICKS: u64 = 600;

/// A status message stays this long, in milliseconds.
pub const STATUS_MS: u64 = 3000;

/// Splash screen length in ticks (about three seconds at 60 fps).
pub const SPLASH_TICKS: u64 = 180;

// ── Sort mode ───────────────────────────────────────────────────────────────

/// The order of the process table.
#[derive(Clone, Copy, Debug, PartialEq, Eq, Structural)]
pub enum SortMode {
    Cpu,
    Memory,
    Pid,
    Name,
}

/// The sort mode that follows `s`: CPU → MEM → PID → NAME → CPU.
pub open spec fn sort_after(s: SortMode) -> SortMode {
    match s {
        SortMode::Cpu => SortMode::Memory,
        SortMode::Memory => SortMode::Pid,
        SortMode::Pid => SortMode::Name,
        SortMode::Name => SortMode::Cpu,
    }
}

/// The column title of sort mode `s`.
pub open spec fn sort_label(s: SortMode) -> Seq<char> {
    match s {
        SortMode::Cpu => "CPU%"@,
        SortMode::Memory => "MEM"@,
        SortMode::Pid => "PID"@,
        SortMode::Name => "NAME"@,
    }
}

/// The sort mode a configuration's `default_sort` names; anything unknown
/// sorts by CPU.
pub open spec fn sort_from_config(s: Seq<char>) -> SortMode {
    if s == "memory"@ || s == "mem"@ {
        SortMode::Memory
    } else if s == "pid"@ {
        SortMode::Pid
    } else if s == "name"@ {
        SortMode::Name
    } else {
        SortMode::Cpu
    }
}

impl SortMode {
    /// The next sort mode in the cycle.
    pub fn next(self) -> (r: Self)
        ensures
            r == sort_after(self),
    {
        match self {
            Self::Cpu => Self::Memory,
            Self::Memory => Self::Pid,
            Self::Pid => Self::Name,
            Self::Name => Self::Cpu,
        }
    }

    /// The sort mode's column title.
    pub fn label(self) -> (r: &'static str)
        ensures
            r@ == sort_label(self),
    {
        match self {
            Self::Cpu => "CPU%",
            Self::Memory => "MEM",
            Self::Pid => "PID",
            Self::Name => "NAME",
        }
    }

    /// The sort mode the configuration's `default_sort` setting selects.
    pub fn from_config(s: &str) -> (r: Self)
        ensures
            r == sort_from_config(s@),
    {
        let c = chars_of(s);
        let c = c.as_slice();
        if crate::text::chars_eq_str(c, "memory") || crate::text::chars_eq_str(c, "mem") {
            Self::Memory
        } else if crate::text::chars_eq_str(c, "pid") {
            Self::Pid
        } else if crate::text::chars_eq_str(c, "name") {
            Self::Name
        } else {
            Self::Cpu
        }
    }
}

/// The sort key visits the four orders before coming back.
pub proof fn sort_cycle(s: SortMode)
    ensures
        sort_after(sort_after(sort_after(sort_after(s)))) == s,
        sort_after(s) != s,
        sort_after(sort_after(s)) != s,
        sort_after(sort_after(sort_after(s))) != s,
{
}

// ── Input ───────────────────────────────────────────────────────────────────

/// Whether keys go to the commands or to the filter being typed.
#[derive(Clone, Copy, Debug, PartialEq, Eq, Structural)]
pub enum InputMode {
    Normal,
    FilterInput,
}

/// The key that was pressed.
#[derive(Clone, Copy, Debug, PartialEq, Eq, Structural)]
pub enum KeyCode {
    Char(char),
    Esc,
    Enter,
    Backspace,
    Up,
    Down,
    PageUp,
    PageDown,
    Home,
    End,
    /// Any key the monitor does not react to.
    Other,
}

/// A key press and whether the control modifier was held.
#[derive(Clone, Copy, Debug, PartialEq, Eq, Structural)]
pub struct KeyPress {
    pub code: KeyCode,
    pub ctrl: bool,
}

/// What the program has to do after a key press.
#[derive(Clone, Copy, Debug, PartialEq, Eq, Structural)]
pub enum KeyAction {
    /// Nothing beyond the state change.
    Continue,
    /// Leave the program.
    Quit,
    /// The sort mode changed: sort the process table again.
    Resort,
    /// Send SIGKILL (`force`) or SIGTERM to entry `index` of the filtered
    /// process list, then report with `App::report_kill`.
    Kill { index: usize, force: bool },
    /// Send `signal` to entry `index` of the filtered process list, then
    /// report with `App::report_signal`.
    Signal { index: usize, signal: Signal },
    /// Export the history as JSON and report with `App::show_status`.
    Export,
}

/// What the program has to do on a tick.
#[derive(Clone, Copy, Debug, PartialEq, Eq, Structural)]
pub struct TickPlan {
    /// Collect fresh system data, record history and sort.
    pub refresh: bool,
    /// Query the GPUs as part of the refresh.
    pub collect_gpu: bool,
    /// Read the TCP connection tables as part of the refresh.
    pub collect_tcp: bool,
    /// Flag anomalous processes and hand them to `App::record_alerts`.
    pub detect_anomalies: bool,
}

// ── Model ───────────────────────────────────────────────────────────────────

/// The part of the state that keys change, as plain values.
pub struct AppModel {
    pub sort_mode: SortMode,
    pub process_scroll: usize,
    pub layout_mode: LayoutMode,
    pub active_view: ActiveView,
    pub theme_id: ThemeId,
    pub window: HistoryWindow,
    pub security_enabled: bool,
    pub crt_enabled: bool,
    pub filter_active: bool,
    pub filter_text: Seq<char>,
    pub input_mode: InputMode,
    /// The pattern of the compiled filter regex, when one is present.
    pub regex_source: Option<Seq<char>>,
    pub status: Option<Seq<char>>,
    /// When the status message was set, in milliseconds.
    pub status_since: Option<u64>,
    pub show_process_detail: bool,
    pub splash_remaining: u64,
}

/// `m` showing status message `msg` from time `now`.
pub open spec fn with_status(m: AppModel, msg: Seq<char>, now: u64) -> AppModel {
    AppModel { status: Some(msg), status_since: Some(now), ..m }
}

/// "ON" or "OFF".
pub open spec fn on_off(b: bool) -> Seq<char> {
    if b {
        "ON"@
    } else {
        "OFF"@
    }
}

/// `n - 1`, or zero for zero.
pub open spec fn minus_one(n: usize) -> usize {
    if n > 0 {
        (n - 1) as usize
    } else {
        0
    }
}

/// The action of a kill key: the selected entry, when there is one.
pub open spec fn kill_action(m: AppModel, force: bool, visible: usize) -> KeyAction {
    if m.process_scroll < visible {
        KeyAction::Kill { index: m.process_scroll, force }
    } else {
        KeyAction::Continue
    }
}

/// The action of a signal key: the selected entry, when there is one.
pub open spec fn signal_action(m: AppModel, signal: Signal, visible: usize) -> KeyAction {
    if m.process_scroll < visible {
        KeyAction::Signal { index: m.process_scroll, signal }
    } else {
        KeyAction::Continue
    }
}

/// Moving the selection one row down, within the `visible` rows.
pub open spec fn scroll_down(m: AppModel, visible: usize) -> AppModel {
    if m.process_scroll < minus_one(visible) {
        AppModel { process_scroll: (m.process_scroll + 1) as usize, ..m }
    } else {
        m
    }
}

/// Moving the selection one row up.
pub open spec fn scroll_up(m: AppModel) -> AppModel {
    AppModel { process_scroll: minus_one(m.process_scroll), ..m }
}

/// A character key in normal mode.
#[verifier::opaque]
pub open spec fn char_step(
    m: AppModel,
    c: char,
    ctrl: bool,
    visible: usize,
    remote: bool,
    now: u64,
) -> (AppModel, KeyAction) {
    if c == 'q' || c == 'Q' {
        (m, KeyAction::Quit)
    } else if c == 'c' && ctrl {
        (m, KeyAction::Quit)
    } else if c == 's' || c == 'S' {
        let s = sort_after(m.sort_mode);
        (
            with_status(AppModel { sort_mode: s, ..m }, "Sort: "@ + sort_label(s), now),
            KeyAction::Resort,
        )
    } else if c == 'f' || c == 'F' {
        (
            AppModel {
                input_mode: InputMode::FilterInput,
                filter_active: true,
                filter_text: Seq::empty(),
                regex_source: None,
                ..m
            },
            KeyAction::Continue,
        )
    } else if c == 'k' {
        (m, kill_action(m, false, visible))
    } else if c == 'K' {
        (m, kill_action(m, true, visible))
    } else if c == 'm' || c == 'M' {
        let l = layout_after(m.layout_mode);
        (
            with_status(AppModel { layout_mode: l, ..m }, "Layout: "@ + layout_label(l), now),
            KeyAction::Continue,
        )
    } else if c == 't' || c == 'T' {
        let t = theme_after(m.theme_id);
        (
            with_status(AppModel { theme_id: t, ..m }, "Theme: "@ + theme_label(t), now),
            KeyAction::Continue,
        )
    } else if c == 'g' || c == 'G' {
        (
            with_status(AppModel { active_view: ActiveView::Gpu, ..m }, "GPU View"@, now),
            KeyAction::Continue,
        )
    } else if c == 'n' || c == 'N' {
        (
            with_status(
                AppModel { active_view: ActiveView::Network, ..m },
                "Network Inspector"@,
                now,
            ),
            KeyAction::Continue,
        )
    } else if c == 'd' || c == 'D' {
        (
            with_status(
                AppModel { active_view: ActiveView::Disk, ..m },
                "Disk & IO Monitor"@,
                now,
            ),
            KeyAction::Continue,
        )
    } else if c == 'h' || c == 'H' {
        if m.active_view == ActiveView::History {
            let w = window_after(m.window);
            (
                with_status(AppModel { window: w, ..m }, "History: "@ + window_label(w), now),
                KeyAction::Continue,
            )
        } else {
            (
                with_status(
                    AppModel { active_view: ActiveView::History, ..m },
                    "History View"@,
                    now,
                ),
                KeyAction::Continue,
            )
        }
    } else if c == 'o' || c == 'O' {
        (
            with_status(AppModel { active_view: ActiveView::Overview, ..m }, "Overview"@, now),
            KeyAction::Continue,
        )
    } else if c == 'e' || c == 'E' {
        (m, KeyAction::Export)
    } else if c == '!' {
        let on = !m.security_enabled;
        (
            with_status(
                AppModel { security_enabled: on, ..m },
                "Security Mode: "@ + on_off(on),
                now,
            ),
            KeyAction::Continue,
        )
    } else if c == 'c' || c == 'C' {
        let on = !m.crt_enabled;
        (
            with_status(AppModel { crt_enabled: on, ..m }, "CRT Effects: "@ + on_off(on), now),
            KeyAction::Continue,
        )
    } else if c == 'R' {
        if remote {
            (
                with_status(
                    AppModel { active_view: ActiveView::Remote, ..m },
                    "Remote Hosts"@,
                    now,
                ),
                KeyAction::Continue,
            )
        } else {
            (with_status(m, "No remote hosts configured"@, now), KeyAction::Continue)
        }
    } else if c == 'x' || c == 'X' {
        (
            with_status(
                AppModel { active_view: ActiveView::Heatmap, ..m },
                "CPU Core Heatmap"@,
                now,
            ),
            KeyAction::Continue,
        )
    } else if c == 'a' || c == 'A' {
        (
            with_status(AppModel { active_view: ActiveView::Alerts, ..m }, "System Alerts"@, now),
            KeyAction::Continue,
        )
    } else if c == 'i' || c == 'I' {
        (AppModel { show_process_detail: !m.show_process_detail, ..m }, KeyAction::Continue)
    } else if c == 'z' {
        (m, signal_action(m, Signal::Stop, visible))
    } else if c == 'r' {
        (m, signal_action(m, Signal::Cont, visible))
    } else if c == 'j' {
        (scroll_down(m, visible), KeyAction::Continue)
    } else if c == 'J' {
        (scroll_up(m), KeyAction::Continue)
    } else {
        (m, KeyAction::Continue)
    }
}

/// A key in normal mode.
pub open spec fn normal_step(
    m: AppModel,
    key: KeyPress,
    visible: usize,
    remote: bool,
    now: u64,
) -> (AppModel, KeyAction) {
    if key.code == KeyCode::Esc && m.show_process_detail {
        (AppModel { show_process_detail: false, ..m }, KeyAction::Continue)
    } else {
        match key.code {
            KeyCode::Char(c) => char_step(m, c, key.ctrl, visible, remote, now),
            KeyCode::Enter => (
                AppModel {
                    layout_mode: if m.layout_mode == LayoutMode::Focus {
                        LayoutMode::Detailed
                    } else {
                        LayoutMode::Focus
                    },
                    ..m
                },
                KeyAction::Continue,
            ),
            KeyCode::Down => (scroll_down(m, visible), KeyAction::Continue),
            KeyCode::Up => (scroll_up(m), KeyAction::Continue),
            KeyCode::PageDown => {
                let target = m.process_scroll + 20;
                let max = minus_one(visible);
                (
                    AppModel {
                        process_scroll: if target < max {
                            target as usize
                        } else {
                            max
                        },
                        ..m
                    },
                    KeyAction::Continue,
                )
            },
            KeyCode::PageUp => (
                AppModel {
                    process_scroll: if m.process_scroll >= 20 {
                        (m.process_scroll - 20) as usize
                    } else {
                        0
                    },
                    ..m
                },
                KeyAction::Continue,
            ),
            KeyCode::Home => (AppModel { process_scroll: 0, ..m }, KeyAction::Continue),
            KeyCode::End => (AppModel { process_scroll: minus_one(visible), ..m }, KeyAction::Continue),
            _ => (m, KeyAction::Continue),
        }
    }
}

/// A key while the filter is being typed.
pub open spec fn filter_step(m: AppModel, key: KeyPress) -> (AppModel, KeyAction) {
    match key.code {
        KeyCode::Esc => (
            AppModel {
                input_mode: InputMode::Normal,
                filter_active: false,
                filter_text: Seq::empty(),
                regex_source: None,
                process_scroll: 0,
                ..m
            },
            KeyAction::Continue,
        ),
        KeyCode::Enter => (
            AppModel {
                input_mode: InputMode::Normal,
                regex_source: if regex_compiles(m.filter_text) {
                    Some(m.filter_text)
                } else {
                    None
                },
                filter_active: if m.filter_text.len() == 0 {
                    false
                } else {
                    m.filter_active
                },
                process_scroll: 0,
                ..m
            },
            KeyAction::Continue,
        ),
        KeyCode::Backspace => (
            AppModel {
                filter_text: if m.filter_text.len() > 0 {
                    m.filter_text.drop_last()
                } else {
                    m.filter_text
                },
                ..m
            },
            KeyAction::Continue,
        ),
        KeyCode::Char(c) => (AppModel { filter_text: m.filter_text.push(c), ..m }, KeyAction::Continue),
        _ => (m, KeyAction::Continue),
    }
}

/// The effect of a key press: the new state and the action for the program.
/// `visible` is the length of the filtered process list, `remote` whether
/// any remote host is known, `now` the time in milliseconds.
pub open spec fn key_step(
    m: AppModel,
    key: KeyPress,
    visible: usize,
    remote: bool,
    now: u64,
) -> (AppModel, KeyAction) {
    if m.splash_remaining > 0 {
        (AppModel { splash_remaining: 0, ..m }, KeyAction::Continue)
    } else {
        match m.input_mode {
            InputMode::FilterInput => filter_step(m, key),
            InputMode::Normal => normal_step(m, key, visible, remote, now),
        }
    }
}

/// A key press for which `key_step` adds 20 to the selected row.
pub open spec fn pages_down(m: AppModel, key: KeyPress) -> bool {
    &&& m.splash_remaining == 0
    &&& m.input_mode == InputMode::Normal
    &&& key.code == KeyCode::PageDown
}

/// The indices `i < n` for which `pick(i)` holds, in increasing order.
pub open spec fn indices_where(n: nat, pick: spec_fn(int) -> bool) -> Seq<usize>
    decreases n,
{
    if n == 0 {
        seq![]
    } else {
        let rest = indices_where((n - 1) as nat, pick);
        if pick(n - 1) {
            rest.push((n - 1) as usize)
        } else {
            rest
        }
    }
}

/// The alert log after `e` is appended: the oldest entry makes room when
/// the log is full.
pub open spec fn alert_log_push(log: Seq<AlertEvent>, e: AlertEvent) -> Seq<AlertEvent> {
    ring_push(log, MAX_ALERTS as nat, e)
}

/// Whether process `pid` may raise an alert at `tick`, given the ticks of
/// the last alert per process: a process never alerted is always due, one
/// alerted before once `ALERT_THROTTLE_TICKS` ticks have passed.
pub open spec fn alert_due(throttle: Map<u32, u64>, pid: u32, tick: u64) -> bool {
    !throttle.contains_key(pid) || (tick >= throttle[pid] && tick - throttle[pid]
        >= ALERT_THROTTLE_TICKS)
}

/// The candidates among `cands` that are due at `tick`, in order, judged
/// against the throttle as it was before any of them was logged.
pub open spec fn due_alerts(throttle: Map<u32, u64>, cands: Seq<(u32, String)>, tick: u64) -> Seq<
    (u32, String),
>
    decreases cands.len(),
{
    if cands.len() == 0 {
        seq![]
    } else {
        let rest = due_alerts(throttle, cands.drop_last(), tick);
        if alert_due(throttle, cands.last().0, tick) {
            rest.push(cands.last())
        } else {
            rest
        }
    }
}

/// The alert log after the due candidates are logged in order as warnings.
pub open spec fn log_alerts(log: Seq<AlertEvent>, due: Seq<(u32, String)>, tick: u64) -> Seq<
    AlertEvent,
>
    decreases due.len(),
{
    if due.len() == 0 {
        log
    } else {
        alert_log_push(
            log_alerts(log, due.drop_last(), tick),
            AlertEvent { tick, severity: AlertSeverity::Warning, message: due.last().1 },
        )
    }
}

/// The throttle after every due candidate is stamped with `tick`.
pub open spec fn stamp_alerts(throttle: Map<u32, u64>, due: Seq<(u32, String)>, tick: u64) -> Map<
    u32,
    u64,
>
    decreases due.len(),
{
    if due.len() == 0 {
        throttle
    } else {
        stamp_alerts(throttle, due.drop_last(), tick).insert(due.last().0, tick)
    }
}

/// Whether the substring filter `text` shows a process with this name and
/// user: either contains the text, compared in lowercase.
pub open spec fn text_filter_hit(name: Seq<char>, user: Seq<char>, text: Seq<char>) -> bool {
    contains_seq(lowercase(name), lowercase(text)) || contains_seq(lowercase(user), lowercase(text))
}

/// Whether the regex filter compiled from `pattern` shows a process with
/// this name and user: the regex matches either of them.
pub open spec fn regex_filter_hit(name: Seq<char>, user: Seq<char>, pattern: Seq<char>) -> bool {
    regex_matches(pattern, name) || regex_matches(pattern, user)
}

/// The substring filter ignores case on the name and on the user alike:
/// names (or users) with the same lowercase form are shown or hidden
/// together, and a process whose name or user equals the filter text up to
/// case is shown.
pub proof fn text_filter_ignores_case(
    name: Seq<char>,
    name2: Seq<char>,
    user: Seq<char>,
    user2: Seq<char>,
    text: Seq<char>,
)
    ensures
        lowercase(name) == lowercase(name2) ==> text_filter_hit(name, user, text)
            == text_filter_hit(name2, user, text),
        lowercase(user) == lowercase(user2) ==> text_filter_hit(name, user, text)
            == text_filter_hit(name, user2, text),
        lowercase(name) == lowercase(text) ==> text_filter_hit(name, user, text),
        lowercase(user) == lowercase(text) ==> text_filter_hit(name, user, text),
{
    let t = lowercase(text);
    assert(t.subrange(0int, 0int + t.len()) =~= t);
    assert(contains_seq(t, t));
}

/// Whether a status message set at `since` has expired at `now`.
pub open spec fn status_expired(since: u64, now: u64) -> bool {
    now >= since + STATUS_MS
}

/// The name of a signal other than a custom one.
pub open spec fn signal_name(s: Signal) -> Seq<char> {
    match s {
        Signal::Term => "SIGTERM"@,
        Signal::Kill => "SIGKILL"@,
        Signal::Stop => "SIGSTOP"@,
        Signal::Cont => "SIGCONT"@,
        Signal::Custom(_) => "signal"@,
    }
}

/// The status line after a kill key was carried out.
pub open spec fn kill_report(force: bool, name: Seq<char>, pid: u32, result: Result<(), Seq<char>>) -> Seq<char> {
    match result {
        Ok(()) => "Sent "@ + (if force {
            "SIGKILL"@
        } else {
            "SIGTERM"@
        }) + " to "@ + name + " ("@ + decimal(pid as nat) + ")"@,
        Err(e) => "Kill failed: "@ + e,
    }
}

/// The status line after a signal key was carried out.
pub open spec fn signal_report(signal: Signal, name: Seq<char>, pid: u32, result: Result<(), Seq<char>>) -> Seq<char> {
    match result {
        Ok(()) => match signal {
            Signal::Custom(n) => "Sent signal "@ + signed_decimal(n as int) + " to "@ + name + " ("@
                + decimal(pid as nat) + ")"@,
            _ => "Sent "@ + signal_name(signal) + " to "@ + name + " ("@ + decimal(pid as nat) + ")"@,
        },
        Err(e) => "Signal failed: "@ + e,
    }
}

/// The view of a result whose error is a string.
pub open spec fn result_view(r: Result<(), String>) -> Result<(), Seq<char>> {
    match r {
        Ok(()) => Ok(()),
        Err(e) => Err(e@),
    }
}

// ── Application state ───────────────────────────────────────────────────────

/// The state of the monitor apart from the collected system data.
/// `T` is the type of the history samples.
pub struct App<T> {
    /// History engine.
    pub history: MetricsHistory<T>,
    pub sort_mode: SortMode,
    pub process_scroll: usize,
    pub tick_count: u64,
    pub layout_mode: LayoutMode,
    pub active_view: ActiveView,
    pub theme_id: ThemeId,
    /// System data refresh interval in milliseconds.
    pub refresh_rate_ms: u64,
    /// Whether the GPU panel is enabled.
    pub gpu_panel: bool,
    pub security_enabled: bool,
    pub crt_enabled: bool,
    pub filter_active: bool,
    pub filter_text: String,
    pub input_mode: InputMode,
    filter_regex: Option<FilterRegex>,
    pub status_message: Option<String>,
    status_since_ms: Option<u64>,
    /// System alerts log, oldest first.
    pub alerts: VecDeque<AlertEvent>,
    /// PID → last tick an alert was fired for that PID.
    alert_throttle: HashMap<u32, u64>,
    last_data_refresh_ms: u64,
    /// Process detail overlay.
    pub show_process_detail: bool,
    /// Startup splash screen ticks left.
    pub splash_remaining: u64,
}

impl<T> App<T> {
    /// The key-driven part of the state.
    pub closed spec fn model(&self) -> AppModel {
        AppModel {
            sort_mode: self.sort_mode,
            process_scroll: self.process_scroll,
            layout_mode: self.layout_mode,
            active_view: self.active_view,
            theme_id: self.theme_id,
            window: self.history.window,
            security_enabled: self.security_enabled,
            crt_enabled: self.crt_enabled,
            filter_active: self.filter_active,
            filter_text: self.filter_text@,
            input_mode: self.input_mode,
            regex_source: match self.filter_regex {
                Some(f) => Some(f.source()),
                None => None,
            },
            status: match self.status_message {
                Some(s) => Some(s@),
                None => None,
            },
            status_since: self.status_since_ms,
            show_process_detail: self.show_process_detail,
            splash_remaining: self.splash_remaining,
        }
    }

    /// The ticks of the last alert per process.
    pub closed spec fn throttle(&self) -> Map<u32, u64> {
        self.alert_throttle@
    }

    /// The time of the last data refresh, in milliseconds.
    pub closed spec fn last_refresh(&self) -> u64 {
        self.last_data_refresh_ms
    }

    /// The alert log, oldest first.
    pub closed spec fn alert_log(&self) -> Seq<AlertEvent> {
        self.alerts@
    }

    /// The tick counter.
    pub closed spec fn ticks(&self) -> u64 {
        self.tick_count
    }

    /// The history engine.
    pub closed spec fn spec_history(&self) -> MetricsHistory<T> {
        self.history
    }

    /// Whether `self` and `other` agree on everything keys do not change.
    pub open spec fn same_data(&self, other: &Self) -> bool {
        &&& self.ticks() == other.ticks()
        &&& self.alert_log() == other.alert_log()
        &&& self.throttle() == other.throttle()
        &&& self.last_refresh() == other.last_refresh()
        &&& self.spec_history().same_samples(&other.spec_history())
        &&& self.spec_config() == other.spec_config()
    }

    /// The refresh interval and whether the GPU panel is on.
    pub closed spec fn spec_config(&self) -> (u64, bool) {
        (self.refresh_rate_ms, self.gpu_panel)
    }
}

impl<T: Copy> App<T> {
    /// The state at start-up: settings taken from the configuration, the
    /// overview in front, the splash screen showing, and empty histories
    /// for `num_cores` cores filled with `zero`.
    pub fn new(
        general: &GeneralConfig,
        panels: &PanelConfig,
        theme_name: &str,
        layout_name: &str,
        crt_effects: bool,
        security_enabled: bool,
        num_cores: usize,
        zero: T,
        now_ms: u64,
    ) -> (r: Self)
        ensures
            r.model() == (AppModel {
                sort_mode: sort_from_config(general.default_sort@),
                process_scroll: 0,
                layout_mode: layout_from_config(layout_name@),
                active_view: ActiveView::Overview,
                theme_id: theme_named(lowercase(theme_name@)),
                window: HistoryWindow::FiveMin,
                security_enabled,
                crt_enabled: crt_effects,
                filter_active: false,
                filter_text: Seq::empty(),
                input_mode: InputMode::Normal,
                regex_source: None,
                status: None,
                status_since: None,
                show_process_detail: false,
                splash_remaining: SPLASH_TICKS,
            }),
            r.ticks() == 0,
            r.alert_log().len() == 0,
            r.throttle() == Map::<u32, u64>::empty(),
            r.last_refresh() == now_ms,
            r.spec_config() == (general.refresh_rate_ms, panels.gpu),
            r.spec_history().cpu_per_core@.len() == num_cores,
            r.spec_history().zero == zero,
    {
        let history = MetricsHistory::new(num_cores, zero);
        App {
            history,
            sort_mode: SortMode::from_config(general.default_sort.as_str()),
            process_scroll: 0,
            tick_count: 0,
            layout_mode: LayoutMode::from_config(layout_name),
            active_view: ActiveView::Overview,
            theme_id: ThemeId::from_str(theme_name),
            refresh_rate_ms: general.refresh_rate_ms,
            gpu_panel: panels.gpu,
            security_enabled,
            crt_enabled: crt_effects,
            filter_active: false,
            filter_text: String::new(),
            input_mode: InputMode::Normal,
            filter_regex: None,
            status_message: None,
            status_since_ms: None,
            alerts: VecDeque::new(),
            alert_throttle: HashMap::new(),
            last_data_refresh_ms: now_ms,
            show_process_detail: false,
            splash_remaining: SPLASH_TICKS,
        }
    }

    /// Shows `msg` in the status line from time `now_ms` on.
    pub fn show_status(&mut self, msg: String, now_ms: u64)
        ensures
            final(self).model() == with_status(old(self).model(), msg@, now_ms),
            final(self).same_data(old(self)),
    {
        self.status_message = Some(msg);
        self.status_since_ms = Some(now_ms);
    }

    /// Shows `msg`.
    fn show_status_str(&mut self, msg: &str, now_ms: u64)
        ensures
            final(self).model() == with_status(old(self).model(), msg@, now_ms),
            final(self).same_data(old(self)),
    {
        self.show_status(msg.to_owned(), now_ms);
    }

    /// Shows `prefix` followed by `label`.
    fn show_status2(&mut self, prefix: &str, label: &str, now_ms: u64)
        ensures
            final(self).model() == with_status(old(self).model(), prefix@ + label@, now_ms),
            final(self).same_data(old(self)),
    {
        let mut msg = String::new();
        push_str(&mut msg, prefix);
        push_str(&mut msg, label);
        assert(msg@ =~= prefix@ + label@);
        self.show_status(msg, now_ms);
    }

    /// Handles a key press and tells the program what to do next.
    /// `visible` is the length of the filtered process list and `remote`
    /// whether any remote host is known.
    pub fn on_key(&mut self, key: KeyPress, visible: usize, remote: bool, now_ms: u64) -> (r:
        KeyAction)
        requires
            pages_down(old(self).model(), key) ==> old(self).model().process_scroll + 20 <= usize::MAX,
        ensures
            (final(self).model(), r) == key_step(old(self).model(), key, visible, remote, now_ms),
            final(self).same_data(old(self)),
    {
        if self.splash_remaining > 0 {
            self.splash_remaining = 0;
            return KeyAction::Continue;
        }
        match self.input_mode {
            InputMode::FilterInput => self.handle_filter_input(key),
            InputMode::Normal => self.handle_normal_input(key, visible, remote, now_ms),
        }
    }

    fn handle_filter_input(&mut self, key: KeyPress) -> (r: KeyAction)
        requires
            old(self).splash_remaining == 0,
            old(self).input_mode == InputMode::FilterInput,
        ensures
            (final(self).model(), r) == filter_step(old(self).model(), key),
            final(self).same_data(old(self)),
    {
        match key.code {
            KeyCode::Esc => {
                self.input_mode = InputMode::Normal;
                self.filter_active = false;
                self.filter_text = String::new();
                self.filter_regex = None;
                self.process_scroll = 0;
            },
            KeyCode::Enter => {
                self.input_mode = InputMode::Normal;
                self.filter_regex = FilterRegex::compile(self.filter_text.as_str());
                if self.filter_text.as_str().is_empty() {
                    self.filter_active = false;
                }
                self.process_scroll = 0;
            },
            KeyCode::Backspace => {
                self.filter_text.pop();
            },
            KeyCode::Char(c) => {
                self.filter_text.push(c);
            },
            _ => {},
        }
        KeyAction::Continue
    }

    fn handle_normal_input(&mut self, key: KeyPress, visible: usize, remote: bool, now_ms: u64) -> (r:
        KeyAction)
        requires
            old(self).splash_remaining == 0,
            old(self).input_mode == InputMode::Normal,
            key.code == KeyCode::PageDown ==> old(self).process_scroll + 20 <= usize::MAX,
        ensures
            (final(self).model(), r) == normal_step(old(self).model(), key, visible, remote, now_ms),
            final(self).same_data(old(self)),
    {
        if key.code == KeyCode::Esc && self.show_process_detail {
            self.show_process_detail = false;
            return KeyAction::Continue;
        }
        match key.code {
            KeyCode::Char(c) => {
                if c == 'q' || c == 'Q' || c == 'c' || c == 'C' || c == 's' || c == 'S' || c == 'f'
                    || c == 'F' || c == 'k' || c == 'K' || c == 'e' || c == 'E' || c == '!' {
                    self.handle_command_char(c, key.ctrl, visible, now_ms)
                } else if c == 'm' || c == 'M' || c == 't' || c == 'T' || c == 'g' || c == 'G' || c
                    == 'n' || c == 'N' || c == 'd' || c == 'D' || c == 'h' || c == 'H' || c == 'o'
                    || c == 'O' || c == 'R' || c == 'x' || c == 'X' || c == 'a' || c == 'A' {
                    self.handle_view_char(c, key.ctrl, visible, remote, now_ms)
                } else {
                    self.handle_process_char(c, key.ctrl, visible, remote, now_ms)
                }
            },
            _ => self.handle_navigation(key, visible, remote, now_ms),
        }
    }

    fn handle_navigation(&mut self, key: KeyPress, visible: usize, remote: bool, now_ms: u64) -> (r:
        KeyAction)
        requires
            old(self).splash_remaining == 0,
            old(self).input_mode == InputMode::Normal,
            key.code == KeyCode::PageDown ==> old(self).process_scroll + 20 <= usize::MAX,
            !(key.code is Char),
            !(key.code == KeyCode::Esc && old(self).show_process_detail),
        ensures
            (final(self).model(), r) == normal_step(old(self).model(), key, visible, remote, now_ms),
            final(self).same_data(old(self)),
    {
        match key.code {
            KeyCode::Enter => self.toggle_focus(),
            KeyCode::Down => self.scroll_rows_down(visible),
            KeyCode::Up => self.scroll_rows_up(),
            KeyCode::PageDown => self.page_rows_down(visible),
            KeyCode::PageUp => self.page_rows_up(),
            KeyCode::Home => self.select_row(0),
            KeyCode::End => self.select_row(if visible > 0 {
                visible - 1
            } else {
                0
            }),
            _ => {},
        }
        KeyAction::Continue
    }

    fn toggle_focus(&mut self)
        ensures
            final(self).model() == (AppModel {
                layout_mode: if old(self).model().layout_mode == LayoutMode::Focus {
                    LayoutMode::Detailed
                } else {
                    LayoutMode::Focus
                },
                ..old(self).model()
            }),
            final(self).same_data(old(self)),
    {
        if self.layout_mode == LayoutMode::Focus {
            self.layout_mode = LayoutMode::Detailed;
        } else {
            self.layout_mode = LayoutMode::Focus;
        }
    }

    fn scroll_rows_down(&mut self, visible: usize)
        ensures
            final(self).model() == scroll_down(old(self).model(), visible),
            final(self).same_data(old(self)),
    {
        let max = if visible > 0 {
            visible - 1
        } else {
            0
        };
        if self.process_scroll < max {
            self.process_scroll = self.process_scroll + 1;
        }
    }

    fn scroll_rows_up(&mut self)
        ensures
            final(self).model() == scroll_up(old(self).model()),
            final(self).same_data(old(self)),
    {
        self.process_scroll = self.process_scroll.saturating_sub(1);
    }

    fn page_rows_down(&mut self, visible: usize)
        requires
            old(self).process_scroll + 20 <= usize::MAX,
        ensures
            final(self).model() == (AppModel {
                process_scroll: if old(self).model().process_scroll + 20 < minus_one(visible) {
                    (old(self).model().process_scroll + 20) as usize
                } else {
                    minus_one(visible)
                },
                ..old(self).model()
            }),
            final(self).same_data(old(self)),
    {
        let max = if visible > 0 {
            visible - 1
        } else {
            0
        };
        let target = self.process_scroll + 20;
        self.process_scroll = if target < max {
            target
        } else {
            max
        };
    }

    fn page_rows_up(&mut self)
        ensures
            final(self).model() == (AppModel {
                process_scroll: if old(self).model().process_scroll >= 20 {
                    (old(self).model().process_scroll - 20) as usize
                } else {
                    0
                },
                ..old(self).model()
            }),
            final(self).same_data(old(self)),
    {
        self.process_scroll = self.process_scroll.saturating_sub(20);
    }

    fn select_row(&mut self, row: usize)
        ensures
            final(self).model() == (AppModel { process_scroll: row, ..old(self).model() }),
            final(self).same_data(old(self)),
    {
        self.process_scroll = row;
    }

    /// Quitting, sorting, filtering, killing, exporting and the toggles.
    fn handle_command_char(&mut self, c: char, ctrl: bool, visible: usize, now_ms: u64) -> (r:
        KeyAction)
        requires
            old(self).splash_remaining == 0,
            old(self).input_mode == InputMode::Normal,
            c == 'q' || c == 'Q' || c == 'c' || c == 'C' || c == 's' || c == 'S' || c == 'f' || c
                == 'F' || c == 'k' || c == 'K' || c == 'e' || c == 'E' || c == '!',
        ensures
            forall|remote: bool|
                (final(self).model(), r) == #[trigger] char_step(
                    old(self).model(),
                    c,
                    ctrl,
                    visible,
                    remote,
                    now_ms,
                ),
            final(self).same_data(old(self)),
    {
        reveal(char_step);
        if c == 'q' || c == 'Q' {
            KeyAction::Quit
        } else if c == 'c' && ctrl {
            KeyAction::Quit
        } else if c == 's' || c == 'S' {
            self.sort_mode = self.sort_mode.next();
            let label = self.sort_mode.label();
            self.show_status2("Sort: ", label, now_ms);
            KeyAction::Resort
        } else if c == 'f' || c == 'F' {
            self.input_mode = InputMode::FilterInput;
            self.filter_active = true;
            self.filter_text = String::new();
            self.filter_regex = None;
            KeyAction::Continue
        } else if c == 'k' || c == 'K' {
            if self.process_scroll < visible {
                KeyAction::Kill { index: self.process_scroll, force: c == 'K' }
            } else {
                KeyAction::Continue
            }
        } else if c == 'e' || c == 'E' {
            KeyAction::Export
        } else if c == '!' {
            self.security_enabled = !self.security_enabled;
            let state = if self.security_enabled {
                "ON"
            } else {
                "OFF"
            };
            self.show_status2("Security Mode: ", state, now_ms);
            KeyAction::Continue
        } else {
            self.crt_enabled = !self.crt_enabled;
            let state = if self.crt_enabled {
                "ON"
            } else {
                "OFF"
            };
            self.show_status2("CRT Effects: ", state, now_ms);
            KeyAction::Continue
        }
    }

    /// Layout, theme, view and history-window keys.
    fn handle_view_char(&mut self, c: char, ctrl: bool, visible: usize, remote: bool, now_ms: u64) -> (r:
        KeyAction)
        requires
            old(self).splash_remaining == 0,
            old(self).input_mode == InputMode::Normal,
            c == 'm' || c == 'M' || c == 't' || c == 'T' || c == 'g' || c == 'G' || c == 'n' || c
                == 'N' || c == 'd' || c == 'D' || c == 'h' || c == 'H' || c == 'o' || c == 'O' || c
                == 'R' || c == 'x' || c == 'X' || c == 'a' || c == 'A',
        ensures
            (final(self).model(), r) == char_step(old(self).model(), c, ctrl, visible, remote, now_ms),
            final(self).same_data(old(self)),
    {
        reveal(char_step);
        if c == 'm' || c == 'M' {
            self.layout_mode = self.layout_mode.next();
            let label = self.layout_mode.label();
            self.show_status2("Layout: ", label, now_ms);
        } else if c == 't' || c == 'T' {
            self.theme_id = self.theme_id.next();
            let label = self.theme_id.label();
            self.show_status2("Theme: ", label, now_ms);
        } else if c == 'g' || c == 'G' {
            self.active_view = ActiveView::Gpu;
            self.show_status_str("GPU View", now_ms);
        } else if c == 'n' || c == 'N' {
            self.active_view = ActiveView::Network;
            self.show_status_str("Network Inspector", now_ms);
        } else if c == 'd' || c == 'D' {
            self.active_view = ActiveView::Disk;
            self.show_status_str("Disk & IO Monitor", now_ms);
        } else if c == 'h' || c == 'H' {
            if self.active_view == ActiveView::History {
                self.history.window = self.history.window.next();
                let label = self.history.window.label();
                self.show_status2("History: ", label, now_ms);
            } else {
                self.active_view = ActiveView::History;
                self.show_status_str("History View", now_ms);
            }
        } else if c == 'o' || c == 'O' {
            self.active_view = ActiveView::Overview;
            self.show_status_str("Overview", now_ms);
        } else if c == 'R' {
            if remote {
                self.active_view = ActiveView::Remote;
                self.show_status_str("Remote Hosts", now_ms);
            } else {
                self.show_status_str("No remote hosts configured", now_ms);
            }
        } else if c == 'x' || c == 'X' {
            self.active_view = ActiveView::Heatmap;
            self.show_status_str("CPU Core Heatmap", now_ms);
        } else {
            self.active_view = ActiveView::Alerts;
            self.show_status_str("System Alerts", now_ms);
        }
        KeyAction::Continue
    }

    /// The detail overlay, stop/continue signals and row movement.
    fn handle_process_char(&mut self, c: char, ctrl: bool, visible: usize, remote: bool, now_ms: u64) -> (r:
        KeyAction)
        requires
            old(self).splash_remaining == 0,
            old(self).input_mode == InputMode::Normal,
            !(c == 'q' || c == 'Q' || c == 'c' || c == 'C' || c == 's' || c == 'S' || c == 'f' || c
                == 'F' || c == 'k' || c == 'K' || c == 'e' || c == 'E' || c == '!'),
            !(c == 'm' || c == 'M' || c == 't' || c == 'T' || c == 'g' || c == 'G' || c == 'n' || c
                == 'N' || c == 'd' || c == 'D' || c == 'h' || c == 'H' || c == 'o' || c == 'O' || c
                == 'R' || c == 'x' || c == 'X' || c == 'a' || c == 'A'),
        ensures
            (final(self).model(), r) == char_step(old(self).model(), c, ctrl, visible, remote, now_ms),
            final(self).same_data(old(self)),
    {
        reveal(char_step);
        if c == 'i' || c == 'I' {
            self.show_process_detail = !self.show_process_detail;
            KeyAction::Continue
        } else if c == 'z' || c == 'r' {
            if self.process_scroll < visible {
                KeyAction::Signal {
                    index: self.process_scroll,
                    signal: if c == 'z' {
                        Signal::Stop
                    } else {
                        Signal::Cont
                    },
                }
            } else {
                KeyAction::Continue
            }
        } else if c == 'j' {
            self.scroll_rows_down(visible);
            KeyAction::Continue
        } else if c == 'J' {
            self.scroll_rows_up();
            KeyAction::Continue
        } else {
            KeyAction::Continue
        }
    }
}


impl<T: Copy> App<T> {
    /// Advances one UI tick at time `now_ms`: counts the tick, counts the
    /// splash screen down, expires the status message after three seconds,
    /// and decides whether system data is due for a refresh.
    pub fn on_tick(&mut self, now_ms: u64) -> (plan: TickPlan)
        requires
            old(self).ticks() < u64::MAX,
        ensures
            final(self).ticks() == old(self).ticks() + 1,
            final(self).model() == (AppModel {
                splash_remaining: if old(self).model().splash_remaining > 0 {
                    (old(self).model().splash_remaining - 1) as u64
                } else {
                    0
                },
                status: match old(self).model().status_since {
                    Some(since) => if status_expired(since, now_ms) {
                        None
                    } else {
                        old(self).model().status
                    },
                    None => old(self).model().status,
                },
                status_since: match old(self).model().status_since {
                    Some(since) => if status_expired(since, now_ms) {
                        None
                    } else {
                        Some(since)
                    },
                    None => None,
                },
                ..old(self).model()
            }),
            plan.refresh == (now_ms >= old(self).last_refresh() && now_ms - old(self).last_refresh()
                >= old(self).spec_config().0),
            final(self).last_refresh() == if plan.refresh {
                now_ms
            } else {
                old(self).last_refresh()
            },
            plan.collect_gpu == (plan.refresh && (old(self).ticks() + 1) % 4 == 0
                && old(self).spec_config().1),
            plan.collect_tcp == (plan.refresh && old(self).model().active_view
                == ActiveView::Network),
            plan.detect_anomalies == (plan.refresh && old(self).model().security_enabled),
            final(self).alert_log() == old(self).alert_log(),
            final(self).throttle() == old(self).throttle(),
            final(self).spec_history() == old(self).spec_history(),
            final(self).spec_config() == old(self).spec_config(),
    {
        self.tick_count = self.tick_count + 1;
        self.splash_remaining = self.splash_remaining.saturating_sub(1);
        match self.status_since_ms {
            Some(since) => {
                if now_ms >= since && now_ms - since >= STATUS_MS {
                    self.status_message = None;
                    self.status_since_ms = None;
                }
            },
            None => {},
        }
        let elapsed = now_ms.saturating_sub(self.last_data_refresh_ms);
        let refresh = now_ms >= self.last_data_refresh_ms && elapsed >= self.refresh_rate_ms;
        if refresh {
            self.last_data_refresh_ms = now_ms;
        }
        TickPlan {
            refresh,
            collect_gpu: refresh && self.tick_count % 4 == 0 && self.gpu_panel,
            collect_tcp: refresh && self.active_view == ActiveView::Network,
            detect_anomalies: refresh && self.security_enabled,
        }
    }

    /// Appends an entry to the alert log, dropping the oldest when the log
    /// holds `MAX_ALERTS` entries.
    fn push_alert(&mut self, severity: AlertSeverity, message: String)
        ensures
            final(self).alerts@ == alert_log_push(
                old(self).alerts@,
                AlertEvent { tick: old(self).tick_count, severity, message },
            ),
            final(self).model() == old(self).model(),
            final(self).ticks() == old(self).ticks(),
            final(self).throttle() == old(self).throttle(),
            final(self).last_refresh() == old(self).last_refresh(),
            final(self).spec_history() == old(self).spec_history(),
            final(self).spec_config() == old(self).spec_config(),
    {
        if self.alerts.len() >= MAX_ALERTS {
            self.alerts.pop_front();
        }
        self.alerts.push_back(AlertEvent { tick: self.tick_count, severity, message });
        assert(self.alerts@ =~= alert_log_push(
            old(self).alerts@,
            AlertEvent { tick: old(self).tick_count, severity, message },
        ));
    }

    /// Logs a warning for every candidate `(pid, message)` whose process
    /// has not been alerted on in the last `ALERT_THROTTLE_TICKS` ticks, and
    /// stamps those processes with the current tick.
    pub fn record_alerts(&mut self, candidates: &[(u32, String)])
        ensures
            final(self).alert_log() == log_alerts(
                old(self).alert_log(),
                due_alerts(old(self).throttle(), candidates@, old(self).ticks()),
                old(self).ticks(),
            ),
            final(self).throttle() == stamp_alerts(
                old(self).throttle(),
                due_alerts(old(self).throttle(), candidates@, old(self).ticks()),
                old(self).ticks(),
            ),
            old(self).alert_log().len() <= MAX_ALERTS ==> final(self).alert_log().len()
                <= MAX_ALERTS,
            final(self).model() == old(self).model(),
            final(self).ticks() == old(self).ticks(),
            final(self).last_refresh() == old(self).last_refresh(),
            final(self).spec_history() == old(self).spec_history(),
            final(self).spec_config() == old(self).spec_config(),
    {
        let tick = self.tick_count;
        let ghost th = self.alert_throttle@;
        let mut pending: Vec<(u32, String)> = Vec::new();
        let mut i: usize = 0;
        while i < candidates.len()
            invariant
                i <= candidates@.len(),
                self.alert_throttle@ == th,
                tick == self.tick_count,
                pending@ == due_alerts(th, candidates@.take(i as int), tick),
            decreases candidates@.len() - i,
        {
            assert(candidates@.take(i as int + 1).drop_last() =~= candidates@.take(i as int));
            let pid = candidates[i].0;
            let due = match self.alert_throttle.get(&pid) {
                Some(t) => {
                    let last: u64 = *t;
                    tick >= last && tick - last >= ALERT_THROTTLE_TICKS
                },
                None => true,
            };
            if due {
                let msg = candidates[i].1.clone();
                pending.push((pid, msg));
            }
            i += 1;
        }
        assert(candidates@.take(candidates@.len() as int) =~= candidates@);
        let ghost due = pending@;
        let ghost log0 = self.alerts@;
        let mut j: usize = 0;
        while j < pending.len()
            invariant
                j <= pending@.len(),
                pending@ == due,
                tick == self.tick_count,
                tick == old(self).tick_count,
                self.alerts@ == log_alerts(log0, due.take(j as int), tick),
                self.alert_throttle@ == stamp_alerts(th, due.take(j as int), tick),
                log0.len() <= MAX_ALERTS ==> self.alerts@.len() <= MAX_ALERTS,
                self.model() == old(self).model(),
                self.ticks() == old(self).ticks(),
                self.last_refresh() == old(self).last_refresh(),
                self.spec_history() == old(self).spec_history(),
                self.spec_config() == old(self).spec_config(),
            decreases pending@.len() - j,
        {
            assert(due.take(j as int + 1).drop_last() =~= due.take(j as int));
            let pid = pending[j].0;
            let msg = pending[j].1.clone();
            self.alert_throttle.insert(pid, tick);
            self.push_alert(AlertSeverity::Warning, msg);
            j += 1;
        }
        assert(due.take(due.len() as int) =~= due);
    }

    /// Shows the outcome of a kill key carried out on process `pid` named
    /// `name`.
    pub fn report_kill(
        &mut self,
        force: bool,
        name: &str,
        pid: u32,
        result: Result<(), String>,
        now_ms: u64,
    )
        ensures
            final(self).model() == with_status(
                old(self).model(),
                kill_report(force, name@, pid, result_view(result)),
                now_ms,
            ),
            final(self).same_data(old(self)),
    {
        let mut msg = String::new();
        match result {
            Ok(()) => {
                push_str(&mut msg, "Sent ");
                push_str(
                    &mut msg,
                    if force {
                        "SIGKILL"
                    } else {
                        "SIGTERM"
                    },
                );
                push_str(&mut msg, " to ");
                push_str(&mut msg, name);
                push_str(&mut msg, " (");
                push_decimal(&mut msg, pid as u64);
                push_str(&mut msg, ")");
            },
            Err(e) => {
                push_str(&mut msg, "Kill failed: ");
                push_str(&mut msg, e.as_str());
            },
        }
        assert(msg@ =~= kill_report(force, name@, pid, result_view(result)));
        self.show_status(msg, now_ms);
    }

    /// Shows the outcome of a signal key carried out on process `pid` named
    /// `name`.
    pub fn report_signal(
        &mut self,
        signal: Signal,
        name: &str,
        pid: u32,
        result: Result<(), String>,
        now_ms: u64,
    )
        ensures
            final(self).model() == with_status(
                old(self).model(),
                signal_report(signal, name@, pid, result_view(result)),
                now_ms,
            ),
            final(self).same_data(old(self)),
    {
        let mut msg = String::new();
        match result {
            Ok(()) => {
                match signal {
                    Signal::Custom(n) => {
                        push_str(&mut msg, "Sent signal ");
                        push_signed_decimal(&mut msg, n);
                    },
                    Signal::Term => {
                        push_str(&mut msg, "Sent SIGTERM");
                    },
                    Signal::Kill => {
                        push_str(&mut msg, "Sent SIGKILL");
                    },
                    Signal::Stop => {
                        push_str(&mut msg, "Sent SIGSTOP");
                    },
                    Signal::Cont => {
                        push_str(&mut msg, "Sent SIGCONT");
                    },
                }
                push_str(&mut msg, " to ");
                push_str(&mut msg, name);
                push_str(&mut msg, " (");
                push_decimal(&mut msg, pid as u64);
                push_str(&mut msg, ")");
            },
            Err(e) => {
                push_str(&mut msg, "Signal failed: ");
                push_str(&mut msg, e.as_str());
            },
        }
        proof {
            reveal_strlit("Sent SIGTERM");
            reveal_strlit("Sent SIGKILL");
            reveal_strlit("Sent SIGSTOP");
            reveal_strlit("Sent SIGCONT");
            reveal_strlit("Sent ");
            reveal_strlit("SIGTERM");
            reveal_strlit("SIGKILL");
            reveal_strlit("SIGSTOP");
            reveal_strlit("SIGCONT");
        }
        assert(msg@ =~= signal_report(signal, name@, pid, result_view(result)));
        self.show_status(msg, now_ms);
    }

    /// The positions in the process list that the filter shows, given the
    /// process names and users in list order.
    pub fn filtered_processes(&self, names: &[String], users: &[String]) -> (r: Vec<usize>)
        requires
            names@.len() == users@.len(),
        ensures
            !self.model().filter_active || self.model().filter_text.len() == 0 ==> r@
                == indices_where(names@.len(), |i: int| true),
            self.model().filter_active && self.model().filter_text.len() > 0
                && self.model().regex_source is None ==> r@ == indices_where(
                names@.len(),
                |i: int| text_filter_hit(names@[i]@, users@[i]@, self.model().filter_text),
            ),
            self.model().filter_active && self.model().filter_text.len() > 0
                && self.model().regex_source is Some ==> r@ == indices_where(
                names@.len(),
                |i: int| regex_filter_hit(names@[i]@, users@[i]@, self.model().regex_source->0),
            ),
    {
        let n = names.len();
        let mut flags: Vec<bool> = Vec::new();
        if !self.filter_active || self.filter_text.as_str().is_empty() {
            let mut i: usize = 0;
            while i < n
                invariant
                    i <= n,
                    flags@ == Seq::new(i as nat, |k: int| true),
                decreases n - i,
            {
                flags.push(true);
                i += 1;
                assert(flags@ =~= Seq::new(i as nat, |k: int| true));
            }
            let r = select_flagged(&flags);
            assert(r@ == indices_where(n as nat, |k: int| true)) by {
                lemma_indices_where_ext(n as nat, |k: int| flags@[k], |k: int| true);
            }
            return r;
        }
        match &self.filter_regex {
            Some(re) => {
                let ghost pattern = re.source();
                let mut i: usize = 0;
                while i < n
                    invariant
                        i <= n,
                        n == names@.len(),
                        n == users@.len(),
                        flags@.len() == i,
                        pattern == re.source(),
                        forall|k: int|
                            0 <= k < i ==> flags@[k] == regex_filter_hit(
                                names@[k]@,
                                users@[k]@,
                                pattern,
                            ),
                    decreases n - i,
                {
                    let hit = regex_is_match(re, names[i].as_str()) || regex_is_match(
                        re,
                        users[i].as_str(),
                    );
                    flags.push(hit);
                    i += 1;
                }
                let r = select_flagged(&flags);
                proof {
                    lemma_indices_where_ext(
                        n as nat,
                        |k: int| flags@[k],
                        |k: int| regex_filter_hit(names@[k]@, users@[k]@, pattern),
                    );
                }
                r
            },
            None => {
                let lower = to_lowercase(self.filter_text.as_str());
                let needle = chars_of(lower.as_str());
                let mut i: usize = 0;
                while i < n
                    invariant
                        i <= n,
                        n == names@.len(),
                        n == users@.len(),
                        flags@.len() == i,
                        needle@ == lowercase(self.filter_text@),
                        forall|k: int|
                            0 <= k < i ==> flags@[k] == text_filter_hit(
                                names@[k]@,
                                users@[k]@,
                                self.filter_text@,
                            ),
                    decreases n - i,
                {
                    let name_l = to_lowercase(names[i].as_str());
                    let user_l = to_lowercase(users[i].as_str());
                    let a = chars_of(name_l.as_str());
                    let b = chars_of(user_l.as_str());
                    let hit = contains_chars(a.as_slice(), needle.as_slice()) || contains_chars(
                        b.as_slice(),
                        needle.as_slice(),
                    );
                    flags.push(hit);
                    i += 1;
                }
                let r = select_flagged(&flags);
                proof {
                    lemma_indices_where_ext(
                        n as nat,
                        |k: int| flags@[k],
                        |k: int| text_filter_hit(names@[k]@, users@[k]@, self.filter_text@),
                    );
                }
                r
            },
        }
    }
}

/// `indices_where` depends only on the values of the predicate below `n`.
pub proof fn lemma_indices_where_ext(n: nat, p: spec_fn(int) -> bool, q: spec_fn(int) -> bool)
    requires
        forall|k: int| 0 <= k < n ==> #[trigger] p(k) == q(k),
    ensures
        indices_where(n, p) == indices_where(n, q),
    decreases n,
{
    if n > 0 {
        lemma_indices_where_ext((n - 1) as nat, p, q);
    }
}

/// The positions of the `true` entries of `flags`, in increasing order.
pub fn select_flagged(flags: &[bool]) -> (r: Vec<usize>)
    ensures
        r@ == indices_where(flags@.len(), |k: int| flags@[k]),
{
    let mut out: Vec<usize> = Vec::new();
    let mut i: usize = 0;
    while i < flags.len()
        invariant
            i <= flags@.len(),
            out@ == indices_where(i as nat, |k: int| flags@[k]),
        decreases flags@.len() - i,
    {
        if flags[i] {
            out.push(i);
        }
        i += 1;
    }
    out
}


// ── Laws ────────────────────────────────────────────────────────────────────

/// The alert log never holds more than `MAX_ALERTS` entries.
pub proof fn alert_log_bounded(log: Seq<AlertEvent>, due: Seq<(u32, String)>, tick: u64)
    requires
        log.len() <= MAX_ALERTS,
    ensures
        log_alerts(log, due, tick).len() <= MAX_ALERTS,
    decreases due.len(),
{
    if due.len() > 0 {
        alert_log_bounded(log, due.drop_last(), tick);
    }
}

/// Every process that was alerted on at `tick` is stamped with `tick`, so
/// it cannot be alerted on again before `ALERT_THROTTLE_TICKS` more ticks.
pub proof fn alerts_throttled(
    throttle: Map<u32, u64>,
    due: Seq<(u32, String)>,
    tick: u64,
    j: int,
    later: u64,
)
    requires
        0 <= j < due.len(),
        tick <= later < tick + ALERT_THROTTLE_TICKS,
    ensures
        stamp_alerts(throttle, due, tick).contains_key(due[j].0),
        stamp_alerts(throttle, due, tick)[due[j].0] == tick,
        !alert_due(stamp_alerts(throttle, due, tick), due[j].0, later),
    decreases due.len(),
{
    if j < due.len() - 1 {
        alerts_throttled(throttle, due.drop_last(), tick, j, later);
    }
}

/// Any key pressed while the splash screen shows only dismisses it.
pub proof fn splash_takes_first_key(m: AppModel, key: KeyPress, visible: usize, remote: bool, now: u64)
    requires
        m.splash_remaining > 0,
    ensures
        key_step(m, key, visible, remote, now) == (
            AppModel { splash_remaining: 0, ..m },
            KeyAction::Continue,
        ),
{
}

/// Once the splash screen is gone, `q`, `Q` and Ctrl-C quit from the
/// command keys, while in the filter prompt they are typed into the filter.
pub proof fn quit_keys(m: AppModel, c: char, ctrl: bool, visible: usize, remote: bool, now: u64)
    requires
        m.splash_remaining == 0,
        c == 'q' || c == 'Q' || (c == 'c' && ctrl),
    ensures
        m.input_mode == InputMode::Normal ==> key_step(
            m,
            KeyPress { code: KeyCode::Char(c), ctrl },
            visible,
            remote,
            now,
        ).1 == KeyAction::Quit,
        m.input_mode == InputMode::FilterInput ==> key_step(
            m,
            KeyPress { code: KeyCode::Char(c), ctrl },
            visible,
            remote,
            now,
        ) == (AppModel { filter_text: m.filter_text.push(c), ..m }, KeyAction::Continue),
{
    reveal(char_step);
}

/// The selected row stays within the process list: when it starts on a
/// row of the `visible` rows (or at 0 for an empty list), no key moves it
/// off.
pub proof fn selection_stays_in_list(
    m: AppModel,
    key: KeyPress,
    visible: usize,
    remote: bool,
    now: u64,
)
    requires
        m.process_scroll <= minus_one(visible),
    ensures
        key_step(m, key, visible, remote, now).0.process_scroll <= minus_one(visible),
{
    reveal(char_step);
}

/// In the filter prompt, a backspace undoes the character just typed.
pub proof fn backspace_undoes_typing(m: AppModel, c: char, ctrl: bool, ctrl2: bool)
    requires
        m.input_mode == InputMode::FilterInput,
    ensures
        filter_step(
            filter_step(m, KeyPress { code: KeyCode::Char(c), ctrl }).0,
            KeyPress { code: KeyCode::Backspace, ctrl: ctrl2 },
        ).0 == m,
{
    assert(m.filter_text.push(c).drop_last() =~= m.filter_text);
}

/// On the command keys Enter switches between the focus and the detailed
/// layout, so pressing it twice gives back a focus or detailed layout.
pub proof fn enter_twice_restores_layout(
    m: AppModel,
    ctrl: bool,
    ctrl2: bool,
    visible: usize,
    remote: bool,
    now: u64,
    now2: u64,
)
    requires
        m.splash_remaining == 0,
        m.input_mode == InputMode::Normal,
        m.layout_mode == LayoutMode::Focus || m.layout_mode == LayoutMode::Detailed,
    ensures
        ({
            let once = key_step(m, KeyPress { code: KeyCode::Enter, ctrl }, visible, remote, now);
            let twice = key_step(once.0, KeyPress { code: KeyCode::Enter, ctrl: ctrl2 }, visible, remote, now2);
            &&& once.1 == KeyAction::Continue
            &&& once.0 == AppModel {
                layout_mode: if m.layout_mode == LayoutMode::Focus {
                    LayoutMode::Detailed
                } else {
                    LayoutMode::Focus
                },
                ..m
            }
            &&& twice.1 == KeyAction::Continue
            &&& twice.0 == m
        }),
{
}

/// In the filter prompt a typed character is appended to the filter text,
/// leaving the rest of the state alone, and a backspace after it gives back
/// the state before it.
pub proof fn typing_then_backspace_restores(
    m: AppModel,
    c: char,
    ctrl: bool,
    ctrl2: bool,
    visible: usize,
    remote: bool,
    now: u64,
    now2: u64,
)
    requires
        m.splash_remaining == 0,
        m.input_mode == InputMode::FilterInput,
    ensures
        ({
            let typed = key_step(m, KeyPress { code: KeyCode::Char(c), ctrl }, visible, remote, now);
            let erased = key_step(typed.0, KeyPress { code: KeyCode::Backspace, ctrl: ctrl2 }, visible, remote, now2);
            &&& typed.1 == KeyAction::Continue
            &&& typed.0 == AppModel { filter_text: m.filter_text.push(c), ..m }
            &&& erased.1 == KeyAction::Continue
            &&& erased.0 == m
        }),
{
    assert(m.filter_text.push(c).drop_last() =~= m.filter_text);
}

/// Appending an alert to a log of at most `MAX_ALERTS` entries puts it last
/// and drops the oldest entry only when the log was full, so the log never
/// exceeds `MAX_ALERTS` entries.
pub proof fn alert_push_bounded(log: Seq<AlertEvent>, e: AlertEvent)
    requires
        log.len() <= MAX_ALERTS,
    ensures
        alert_log_push(log, e).len() == if log.len() == MAX_ALERTS {
            MAX_ALERTS as int
        } else {
            log.len() + 1int
        },
        alert_log_push(log, e).last() == e,
        alert_log_push(log, e).drop_last() == if log.len() == MAX_ALERTS {
            log.drop_first()
        } else {
            log
        },
{
    assert(log.drop_first().push(e).drop_last() =~= log.drop_first());
    assert(log.push(e).drop_last() =~= log);
}

/// Opening the filter prompt and leaving it with Esc clears the filter and
/// returns to the command keys with the first row selected.
pub proof fn filter_escape_clears(m: AppModel, ctrl: bool, ctrl2: bool, visible: usize, remote: bool, now: u64)
    requires
        m.splash_remaining == 0,
        m.input_mode == InputMode::Normal,
    ensures
        ({
            let opened = key_step(m, KeyPress { code: KeyCode::Char('f'), ctrl }, visible, remote, now).0;
            let closed = key_step(opened, KeyPress { code: KeyCode::Esc, ctrl: ctrl2 }, visible, remote, now).0;
            &&& opened.input_mode == InputMode::FilterInput
            &&& closed.input_mode == InputMode::Normal
            &&& !closed.filter_active
            &&& closed.filter_text.len() == 0
            &&& closed.regex_source is None
            &&& closed.process_scroll == 0
        }),
{
    reveal(char_step);
}

/// The toggle keys `!`, `c` and `i` undo themselves when pressed twice
/// (without Ctrl for `c`, which would quit).
pub proof fn toggles_undo_themselves(m: AppModel, c: char, visible: usize, remote: bool, now: u64, now2: u64)
    requires
        m.splash_remaining == 0,
        m.input_mode == InputMode::Normal,
        c == '!' || c == 'c' || c == 'C' || c == 'i' || c == 'I',
    ensures
        ({
            let key = KeyPress { code: KeyCode::Char(c), ctrl: false };
            let once = key_step(m, key, visible, remote, now).0;
            let twice = key_step(once, key, visible, remote, now2).0;
            &&& twice.security_enabled == m.security_enabled
            &&& twice.crt_enabled == m.crt_enabled
            &&& twice.show_process_detail == m.show_process_detail
        }),
{
    reveal(char_step);
}

/// With the process detail overlay open, Esc closes it and changes nothing
/// else.
pub proof fn escape_closes_detail(m: AppModel, ctrl: bool, visible: usize, remote: bool, now: u64)
    requires
        m.splash_remaining == 0,
        m.input_mode == InputMode::Normal,
        m.show_process_detail,
    ensures
        key_step(m, KeyPress { code: KeyCode::Esc, ctrl }, visible, remote, now) == (
            AppModel { show_process_detail: false, ..m },
            KeyAction::Continue,
        ),
{
}

} // verus!
