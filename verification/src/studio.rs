//! Decision logic of the desktop dashboard: text helpers for versions, feed
//! timestamps and sizes, toast and layout labels, window bookkeeping,
//! navigation, subscriptions, keyboard shortcuts and storage selection.

use vstd::prelude::*;
use vstd::string::*;
use vstd::std_specs::iter::IteratorSpec;
use std::collections::BTreeMap;
use crate::text::{
    trim, trim_range,
    chars_of, same_text, decimal, find_char, find_from, rfind, rfind_char, parse_unsigned, parse_unsigned_range, push_char,
    push_chars, push_decimal, range_text, ranges_match, split_char, split_on, string_of, sub_chars,
    lemma_split_char_nonempty, lemma_split_char_pieces, lemma_split_char_extend, lemma_split_char_sep,
};
use crate::units::{fixed_point, nearest_double, nearest_double_exec, push_fixed_point, unit_suffix};

verus! {

/// Human-readable size: bytes below 1 KB, then KB and MB with one decimal,
/// GB with two.
pub open spec fn spec_format_size(b: nat) -> Seq<char> {
    if b < 1024 {
        decimal(b) + seq![' ', 'B']
    } else if b < 1048576 {
        fixed_point(b, 1024, 1) + unit_suffix('K')
    } else if b < 1073741824 {
        fixed_point(b, 1048576, 1) + unit_suffix('M')
    } else {
        fixed_point(nearest_double(b), 1073741824, 2) + unit_suffix('G')
    }
}

/// Formats a byte count for the storage and version views ("1.50 GB").
pub fn format_bytes(bytes: u64) -> (s: String)
    ensures
        s@ == spec_format_size(bytes as nat),
{
    let mut s = String::new();
    if bytes < 1024 {
        push_decimal(&mut s, bytes as u128);
        push_char(&mut s, ' ');
    } else if bytes < 1048576 {
        push_fixed_point(&mut s, bytes as u128, 1024, 1);
        push_char(&mut s, ' ');
        push_char(&mut s, 'K');
    } else if bytes < 1073741824 {
        push_fixed_point(&mut s, bytes as u128, 1048576, 1);
        push_char(&mut s, ' ');
        push_char(&mut s, 'M');
    } else {
        let v = nearest_double_exec(bytes);
        push_fixed_point(&mut s, v, 1073741824, 2);
        push_char(&mut s, ' ');
        push_char(&mut s, 'G');
    }
    push_char(&mut s, 'B');
    assert(s@ =~= spec_format_size(bytes as nat));
    s
}

/// Major and minor numbers of a dotted version string, when its first two
/// dot-separated parts parse as `u32`.
pub open spec fn major_minor(v: Seq<char>) -> Option<(nat, nat)> {
    let parts = split_char(v, '.');
    if parts.len() >= 2 {
        match (parse_unsigned(parts[0], u32::MAX as nat), parse_unsigned(parts[1], u32::MAX as nat)) {
            (Some(major), Some(minor)) => Some((major, minor)),
            _ => None,
        }
    } else {
        None
    }
}

/// A version (or era such as "2.4.x") is supported from 2.1 on.
pub open spec fn spec_is_supported(v: Seq<char>) -> bool {
    match major_minor(v) {
        Some((major, minor)) => major > 2 || (major == 2 && minor >= 1),
        None => false,
    }
}

fn supported(s: &str) -> (b: bool)
    ensures
        b == spec_is_supported(s@),
{
    let cs = chars_of(s);
    let parts = split_on(cs.as_slice(), '.');
    if parts.len() < 2 {
        return false;
    }
    let p0 = parts[0];
    let p1 = parts[1];
    proof {
        assert(range_text(cs@, parts@[0]) == split_char(cs@, '.')[0]);
        assert(range_text(cs@, parts@[1]) == split_char(cs@, '.')[1]);
    }
    let major = parse_unsigned_range(cs.as_slice(), p0.0, p0.1, u32::MAX as u64);
    let minor = parse_unsigned_range(cs.as_slice(), p1.0, p1.1, u32::MAX as u64);
    match (major, minor) {
        (Some(a), Some(b)) => a > 2 || (a == 2 && b >= 1),
        _ => false,
    }
}

/// Whether a version string ("2.4.27") is in the supported range (2.1 and
/// newer).
pub fn is_supported_version(version: &str) -> (b: bool)
    ensures
        b == spec_is_supported(version@),
{
    supported(version)
}

/// Whether an era ("2.4.x") is supported (2.1 and newer).
pub fn is_supported_era(era: &str) -> (b: bool)
    ensures
        b == spec_is_supported(era@),
{
    supported(era)
}

/// The era of a version: its first two dot-separated parts followed by
/// ".x" ("2.4.27" gives "2.4.x"); a version without a dot is its own era.
pub open spec fn spec_version_era(v: Seq<char>) -> Seq<char> {
    let parts = split_char(v, '.');
    if parts.len() >= 2 { parts[0] + seq!['.'] + parts[1] + seq!['.', 'x'] } else { v }
}

/// When a version has two dot-separated parts, its era splits into those
/// two parts and `x`.
proof fn lemma_era_pieces(v: Seq<char>)
    ensures
        split_char(v, '.').len() >= 2 ==> split_char(spec_version_era(v), '.')
            == seq![split_char(v, '.')[0], split_char(v, '.')[1], seq!['x']],
{
    let parts = split_char(v, '.');
    if parts.len() >= 2 {
        lemma_split_char_pieces(v, '.');
        let p0 = parts[0];
        let p1 = parts[1];
        let e = Seq::<char>::empty();
        assert(split_char(e, '.') =~= seq![e]);
        lemma_split_char_extend(e, p0, '.');
        assert(e + p0 =~= p0);
        assert(split_char(p0, '.') =~= seq![p0]);
        lemma_split_char_sep(p0, '.');
        lemma_split_char_extend(p0.push('.'), p1, '.');
        let a = p0.push('.') + p1;
        assert(split_char(a, '.') =~= seq![p0, p1]);
        lemma_split_char_sep(a, '.');
        assert(!seq!['x'].contains('.')) by {
            assert(seq!['x'][0] == 'x');
        }
        lemma_split_char_extend(a.push('.'), seq!['x'], '.');
        assert(split_char(a.push('.') + seq!['x'], '.') =~= seq![p0, p1, seq!['x']]);
        assert(spec_version_era(v) =~= a.push('.') + seq!['x']);
    }
}

/// An era is supported exactly when its version is: `is_supported_era` of
/// `get_version_era(v)` agrees with `is_supported_version(v)`.
pub proof fn lemma_era_supported(v: Seq<char>)
    ensures
        spec_is_supported(spec_version_era(v)) == spec_is_supported(v),
{
    lemma_era_pieces(v);
}

/// Taking the era of an era gives the same era.
pub proof fn lemma_era_idempotent(v: Seq<char>)
    ensures
        spec_version_era(spec_version_era(v)) == spec_version_era(v),
{
    lemma_era_pieces(v);
    let parts = split_char(v, '.');
    if parts.len() >= 2 {
        let era = spec_version_era(v);
        assert(split_char(era, '.')[0] == parts[0]);
        assert(split_char(era, '.')[1] == parts[1]);
    }
}

/// The era string of a version.
pub fn get_version_era(version: &str) -> (s: String)
    ensures
        s@ == spec_version_era(version@),
{
    let cs = chars_of(version);
    let parts = split_on(cs.as_slice(), '.');
    if parts.len() < 2 {
        return string_of(cs.as_slice());
    }
    let p0 = parts[0];
    let p1 = parts[1];
    proof {
        assert(range_text(cs@, parts@[0]) == split_char(cs@, '.')[0]);
        assert(range_text(cs@, parts@[1]) == split_char(cs@, '.')[1]);
    }
    let a = sub_chars(cs.as_slice(), p0.0, p0.1);
    let b = sub_chars(cs.as_slice(), p1.0, p1.1);
    let mut s = string_of(a.as_slice());
    push_char(&mut s, '.');
    push_chars(&mut s, b.as_slice());
    push_char(&mut s, '.');
    push_char(&mut s, 'x');
    assert(s@ =~= spec_version_era(version@));
    s
}

/// The time portion of an ISO 8601 timestamp: what follows the `T`, up to a
/// `.` (fractional seconds) or else a `Z`; the whole text when there is no
/// `T`.
pub open spec fn spec_feed_time(ts: Seq<char>) -> Seq<char> {
    match find_char(ts, 'T') {
        Some(t) => {
            let rest = ts.skip(t + 1);
            match find_char(rest, '.') {
                Some(d) => rest.take(d),
                None => match find_char(rest, 'Z') {
                    Some(z) => rest.take(z),
                    None => rest,
                },
            }
        },
        None => ts,
    }
}

/// Shortens a feed timestamp to its time of day.
pub fn format_feed_timestamp(ts: &str) -> (s: String)
    ensures
        s@ == spec_feed_time(ts@),
{
    let cs = chars_of(ts);
    assert(cs@.skip(0) =~= cs@);
    match find_from(cs.as_slice(), 0, 'T') {
        None => string_of(cs.as_slice()),
        Some(t) => {
            let n = cs.len();
            assert(t < n);
            let start = t + 1;
            let ghost rest = cs@.skip(start as int);
            let end = match find_from(cs.as_slice(), start, '.') {
                Some(d) => d,
                None => match find_from(cs.as_slice(), start, 'Z') {
                    Some(z) => z,
                    None => cs.len(),
                },
            };
            let part = sub_chars(cs.as_slice(), start, end);
            proof {
                assert(part@ =~= rest.take(end - start));
                if find_char(rest, '.') is None && find_char(rest, 'Z') is None {
                    assert(rest.take(end - start) =~= rest);
                }
            }
            string_of(part.as_slice())
        },
    }
}

/// Severity of a toast notification.
#[derive(Clone, Copy, Debug, PartialEq, Eq, Structural)]
pub enum ToastLevel {
    Success,
    Info,
    Warning,
    Error,
}

impl ToastLevel {
    /// The symbol shown in front of the toast.
    pub fn icon(&self) -> (s: &'static str)
        ensures
            *self == ToastLevel::Success ==> s@ == "\u{2713}"@,
            *self == ToastLevel::Info ==> s@ == "\u{2139}"@,
            *self == ToastLevel::Warning ==> s@ == "\u{26A0}"@,
            *self == ToastLevel::Error ==> s@ == "\u{2715}"@,
    {
        match self {
            ToastLevel::Success => "\u{2713}",
            ToastLevel::Info => "\u{2139}",
            ToastLevel::Warning => "\u{26A0}",
            ToastLevel::Error => "\u{2715}",
        }
    }
}

/// Layout modes for the task queue window.
#[derive(Clone, Copy, Debug, PartialEq, Eq, Structural)]
pub enum TaskQueueLayout {
    /// Single panel view (default)
    Single,
    /// Two panels side by side
    SideBySide,
    /// Two panels stacked
    Stacked,
    /// All three panels in a row
    ThreeColumn,
}

impl TaskQueueLayout {
    /// The layout's name.
    pub fn label(&self) -> (s: &'static str)
        ensures
            *self == TaskQueueLayout::Single ==> s@ == "Single"@,
            *self == TaskQueueLayout::SideBySide ==> s@ == "Side-by-Side"@,
            *self == TaskQueueLayout::Stacked ==> s@ == "Stacked"@,
            *self == TaskQueueLayout::ThreeColumn ==> s@ == "Three Column"@,
    {
        match self {
            TaskQueueLayout::Single => "Single",
            TaskQueueLayout::SideBySide => "Side-by-Side",
            TaskQueueLayout::Stacked => "Stacked",
            TaskQueueLayout::ThreeColumn => "Three Column",
        }
    }

    /// The layout's symbol.
    pub fn icon(&self) -> (s: &'static str)
        ensures
            *self == TaskQueueLayout::Single ==> s@ == "\u{25A3}"@,
            *self == TaskQueueLayout::SideBySide ==> s@ == "\u{25EB}"@,
            *self == TaskQueueLayout::Stacked ==> s@ == "\u{2B13}"@,
            *self == TaskQueueLayout::ThreeColumn ==> s@ == "\u{2630}"@,
    {
        match self {
            TaskQueueLayout::Single => "\u{25A3}",
            TaskQueueLayout::SideBySide => "\u{25EB}",
            TaskQueueLayout::Stacked => "\u{2B13}",
            TaskQueueLayout::ThreeColumn => "\u{2630}",
        }
    }
}


/// Available views in the application.
#[derive(Clone, Copy, Debug, PartialEq, Eq, Structural)]
pub enum MainView {
    Dashboard,
    Cursor,
    ChatPipeline,
    Services,
    Storage,
    Settings,
    Logs,
}

/// Sub-tabs within the Cursor view.
#[derive(Clone, Copy, Debug, PartialEq, Eq, Structural)]
pub enum CursorTab {
    Sessions,
    SubAgents,
    CLIAgents,
    Orchestrator,
    ParkedAgents,
    AgentActivity,
    Auth,
    Versions,
    Workspaces,
}

/// Data to fetch after a navigation step.
#[derive(Clone, Copy, Debug, PartialEq, Eq, Structural)]
pub enum NavFollowUp {
    Nothing,
    /// Refresh all chat pipeline data
    RefreshChatPipeline,
    /// Refresh the sub-agent monitor
    RefreshSubagents,
    /// Refresh the parked agents list
    RefreshParkedAgents,
    /// Load the CLI agent presets and workspace overrides
    LoadCliPresets,
}

/// The visible view and Cursor sub-tab.
#[derive(Clone, Copy, Debug)]
pub struct Navigation {
    pub current_view: MainView,
    pub cursor_tab: CursorTab,
}

impl Navigation {
    /// The dashboard, with the sessions tab selected.
    pub fn new() -> (n: Self)
        ensures
            n.current_view == MainView::Dashboard,
            n.cursor_tab == CursorTab::Sessions,
    {
        Navigation { current_view: MainView::Dashboard, cursor_tab: CursorTab::Sessions }
    }

    /// Shows `view`; entering the chat pipeline before its statistics were
    /// loaded asks for a refresh.
    pub fn navigate_to(&mut self, view: MainView, chat_stats_loaded: bool) -> (f: NavFollowUp)
        ensures
            final(self).current_view == view,
            final(self).cursor_tab == old(self).cursor_tab,
            f == if view == MainView::ChatPipeline && !chat_stats_loaded { NavFollowUp::RefreshChatPipeline } else { NavFollowUp::Nothing },
    {
        self.current_view = view;
        if view == MainView::ChatPipeline && !chat_stats_loaded {
            return NavFollowUp::RefreshChatPipeline;
        }
        NavFollowUp::Nothing
    }

    /// Selects a Cursor sub-tab: the sub-agent and parked-agent tabs are
    /// refreshed on entry, the CLI agents tab loads its presets when none
    /// are loaded yet.
    pub fn change_tab(&mut self, tab: CursorTab, presets_loaded: bool) -> (f: NavFollowUp)
        ensures
            final(self).cursor_tab == tab,
            final(self).current_view == old(self).current_view,
            f == if tab == CursorTab::SubAgents {
                NavFollowUp::RefreshSubagents
            } else if tab == CursorTab::ParkedAgents {
                NavFollowUp::RefreshParkedAgents
            } else if tab == CursorTab::CLIAgents && !presets_loaded {
                NavFollowUp::LoadCliPresets
            } else {
                NavFollowUp::Nothing
            },
    {
        self.cursor_tab = tab;
        if tab == CursorTab::SubAgents {
            return NavFollowUp::RefreshSubagents;
        }
        if tab == CursorTab::ParkedAgents {
            return NavFollowUp::RefreshParkedAgents;
        }
        if tab == CursorTab::CLIAgents && !presets_loaded {
            return NavFollowUp::LoadCliPresets;
        }
        NavFollowUp::Nothing
    }

    /// Whether the Cursor view shows `tab`.
    pub open spec fn spec_on_tab(&self, tab: CursorTab) -> bool {
        self.current_view == MainView::Cursor && self.cursor_tab == tab
    }

    /// Whether the Cursor view shows `tab`.
    pub fn on_tab(&self, tab: CursorTab) -> (b: bool)
        ensures
            b == self.spec_on_tab(tab),
    {
        self.current_view == MainView::Cursor && self.cursor_tab == tab
    }
}

/// The conditional background subscriptions; the core connection, task
/// queue, dialog daemon, keyboard, window-close and memory-statistics
/// subscriptions run at all times.
#[derive(Clone, Copy, Debug)]
pub struct SubscriptionPlan {
    pub subagent_poll: bool,
    pub activity_feed: bool,
    pub activity_stream: bool,
    pub coordinator_poll: bool,
    pub cli_agents: bool,
    pub orchestrator_ws: bool,
    pub dialog_polling: bool,
    pub triage_timeouts: bool,
    pub toast_timeout: bool,
}

/// Which conditional subscriptions run: each only while the view that shows
/// its data is visible (triage timeouts also only while the triage queue is
/// not empty, the toast timer only while a toast is shown).
pub fn subscription_plan(nav: &Navigation, triage_pending: bool, toast_shown: bool) -> (p: SubscriptionPlan)
    ensures
        p.subagent_poll == nav.spec_on_tab(CursorTab::SubAgents),
        p.activity_feed == nav.spec_on_tab(CursorTab::AgentActivity),
        p.activity_stream == nav.spec_on_tab(CursorTab::AgentActivity),
        p.coordinator_poll == (nav.current_view == MainView::Dashboard),
        p.cli_agents == nav.spec_on_tab(CursorTab::CLIAgents),
        p.orchestrator_ws == nav.spec_on_tab(CursorTab::Orchestrator),
        p.dialog_polling == (nav.spec_on_tab(CursorTab::CLIAgents) || nav.spec_on_tab(CursorTab::Orchestrator)),
        p.triage_timeouts == (nav.spec_on_tab(CursorTab::Orchestrator) && triage_pending),
        p.toast_timeout == toast_shown,
{
    let on_activity = nav.on_tab(CursorTab::AgentActivity);
    let on_cli = nav.on_tab(CursorTab::CLIAgents);
    let on_orch = nav.on_tab(CursorTab::Orchestrator);
    SubscriptionPlan {
        subagent_poll: nav.on_tab(CursorTab::SubAgents),
        activity_feed: on_activity,
        activity_stream: on_activity,
        coordinator_poll: nav.current_view == MainView::Dashboard,
        cli_agents: on_cli,
        orchestrator_ws: on_orch,
        dialog_polling: on_cli || on_orch,
        triage_timeouts: on_orch && triage_pending,
        toast_timeout: toast_shown,
    }
}

/// How long a toast stays up, in nanoseconds.
pub const TOAST_NANOS: u128 = 3_000_000_000;

/// When a shown toast is dismissed: at once once it has been up for three
/// seconds, otherwise after the time that remains.
#[derive(Clone, Copy, Debug, PartialEq, Eq, Structural)]
pub enum ToastTimer {
    DismissNow,
    DismissAfter(u128),
}

/// The dismissal of a toast shown `elapsed_nanos` ago.
pub fn toast_timer(elapsed_nanos: u128) -> (t: ToastTimer)
    ensures
        elapsed_nanos >= TOAST_NANOS ==> t == ToastTimer::DismissNow,
        elapsed_nanos < TOAST_NANOS ==> t == ToastTimer::DismissAfter((TOAST_NANOS - elapsed_nanos) as u128),
{
    if elapsed_nanos >= TOAST_NANOS {
        ToastTimer::DismissNow
    } else {
        ToastTimer::DismissAfter(TOAST_NANOS - elapsed_nanos)
    }
}

/// Keyboard shortcuts for quick orchestrator actions.
#[derive(Clone, Copy, Debug, PartialEq, Eq, Structural)]
pub enum KeyboardShortcut {
    SetModeUserActive,
    SetModeUserDelegate,
    SetModeSpectator,
    SetModeAutonomous,
    ToggleHistory,
    UndoDecision,
    RefreshView,
}

/// The shortcut of a key press: Ctrl with 1-4 sets the orchestrator mode,
/// Ctrl+H toggles history, Ctrl+R refreshes, Ctrl+Z undoes a decision.
pub open spec fn spec_shortcut(ctrl: bool, key: Seq<char>) -> Option<KeyboardShortcut> {
    if !ctrl || key.len() != 1 {
        None
    } else if key[0] == '1' {
        Some(KeyboardShortcut::SetModeUserActive)
    } else if key[0] == '2' {
        Some(KeyboardShortcut::SetModeUserDelegate)
    } else if key[0] == '3' {
        Some(KeyboardShortcut::SetModeSpectator)
    } else if key[0] == '4' {
        Some(KeyboardShortcut::SetModeAutonomous)
    } else if key[0] == 'h' {
        Some(KeyboardShortcut::ToggleHistory)
    } else if key[0] == 'r' {
        Some(KeyboardShortcut::RefreshView)
    } else if key[0] == 'z' {
        Some(KeyboardShortcut::UndoDecision)
    } else {
        None
    }
}

/// Maps a key press (with the Ctrl state and the key's text) to a shortcut.
pub fn shortcut_for_key(ctrl: bool, key: &str) -> (r: Option<KeyboardShortcut>)
    ensures
        r == spec_shortcut(ctrl, key@),
{
    let cs = chars_of(key);
    if !ctrl || cs.len() != 1 {
        return None;
    }
    let c = cs[0];
    if c == '1' {
        Some(KeyboardShortcut::SetModeUserActive)
    } else if c == '2' {
        Some(KeyboardShortcut::SetModeUserDelegate)
    } else if c == '3' {
        Some(KeyboardShortcut::SetModeSpectator)
    } else if c == '4' {
        Some(KeyboardShortcut::SetModeAutonomous)
    } else if c == 'h' {
        Some(KeyboardShortcut::ToggleHistory)
    } else if c == 'r' {
        Some(KeyboardShortcut::RefreshView)
    } else if c == 'z' {
        Some(KeyboardShortcut::UndoDecision)
    } else {
        None
    }
}

/// The shortcut table: each shortcut is Ctrl with exactly one key (1, 2,
/// 3, 4, H, R, Z in turn), and no key gives a shortcut without Ctrl.
pub proof fn lemma_shortcut_keys(ctrl: bool, key: Seq<char>)
    ensures
        (spec_shortcut(ctrl, key) == Some(KeyboardShortcut::SetModeUserActive)) <==> (ctrl && key == seq!['1']),
        (spec_shortcut(ctrl, key) == Some(KeyboardShortcut::SetModeUserDelegate)) <==> (ctrl && key == seq!['2']),
        (spec_shortcut(ctrl, key) == Some(KeyboardShortcut::SetModeSpectator)) <==> (ctrl && key == seq!['3']),
        (spec_shortcut(ctrl, key) == Some(KeyboardShortcut::SetModeAutonomous)) <==> (ctrl && key == seq!['4']),
        (spec_shortcut(ctrl, key) == Some(KeyboardShortcut::ToggleHistory)) <==> (ctrl && key == seq!['h']),
        (spec_shortcut(ctrl, key) == Some(KeyboardShortcut::RefreshView)) <==> (ctrl && key == seq!['r']),
        (spec_shortcut(ctrl, key) == Some(KeyboardShortcut::UndoDecision)) <==> (ctrl && key == seq!['z']),
        !ctrl ==> spec_shortcut(ctrl, key) is None,
{
    if key.len() == 1 {
        assert(key =~= seq![key[0]]);
    }
}

/// Orchestrator operating modes.
#[derive(Clone, Copy, Debug, PartialEq, Eq, Structural)]
pub enum OrchestratorMode {
    UserActive,
    UserDelegate,
    Spectator,
    Autonomous,
}

/// Orchestrator panel commands that shortcuts issue.
#[derive(Clone, Copy, Debug, PartialEq, Eq, Structural)]
pub enum OrchestratorCommand {
    /// Switch mode directly
    SetMode(OrchestratorMode),
    /// Ask for a mode change that needs confirmation
    RequestModeChange(OrchestratorMode),
    ToggleHistory,
    UndoLastDecision,
    RefreshMode,
}

/// The orchestrator command of a shortcut: shortcuts act only while the
/// orchestrator tab is shown; the user modes are set at once, spectator and
/// autonomous modes are requested.
pub open spec fn spec_shortcut_command(shortcut: KeyboardShortcut, on_orchestrator_tab: bool) -> Option<OrchestratorCommand> {
    if !on_orchestrator_tab {
        None
    } else {
        Some(match shortcut {
            KeyboardShortcut::SetModeUserActive => OrchestratorCommand::SetMode(OrchestratorMode::UserActive),
            KeyboardShortcut::SetModeUserDelegate => OrchestratorCommand::SetMode(OrchestratorMode::UserDelegate),
            KeyboardShortcut::SetModeSpectator => OrchestratorCommand::RequestModeChange(OrchestratorMode::Spectator),
            KeyboardShortcut::SetModeAutonomous => OrchestratorCommand::RequestModeChange(OrchestratorMode::Autonomous),
            KeyboardShortcut::ToggleHistory => OrchestratorCommand::ToggleHistory,
            KeyboardShortcut::UndoDecision => OrchestratorCommand::UndoLastDecision,
            KeyboardShortcut::RefreshView => OrchestratorCommand::RefreshMode,
        })
    }
}

/// Shortcuts act only on the orchestrator tab: there the user modes are
/// set at once, spectator and autonomous modes are only requested, and
/// history, undo and refresh map to their commands; elsewhere nothing is
/// issued.
pub proof fn lemma_shortcut_commands(s: KeyboardShortcut, on_tab: bool)
    ensures
        !on_tab ==> spec_shortcut_command(s, on_tab) is None,
        on_tab && s == KeyboardShortcut::SetModeUserActive
            ==> spec_shortcut_command(s, on_tab) == Some(OrchestratorCommand::SetMode(OrchestratorMode::UserActive)),
        on_tab && s == KeyboardShortcut::SetModeUserDelegate
            ==> spec_shortcut_command(s, on_tab) == Some(OrchestratorCommand::SetMode(OrchestratorMode::UserDelegate)),
        on_tab && s == KeyboardShortcut::SetModeSpectator
            ==> spec_shortcut_command(s, on_tab) == Some(OrchestratorCommand::RequestModeChange(OrchestratorMode::Spectator)),
        on_tab && s == KeyboardShortcut::SetModeAutonomous
            ==> spec_shortcut_command(s, on_tab) == Some(OrchestratorCommand::RequestModeChange(OrchestratorMode::Autonomous)),
        on_tab && s == KeyboardShortcut::ToggleHistory
            ==> spec_shortcut_command(s, on_tab) == Some(OrchestratorCommand::ToggleHistory),
        on_tab && s == KeyboardShortcut::UndoDecision
            ==> spec_shortcut_command(s, on_tab) == Some(OrchestratorCommand::UndoLastDecision),
        on_tab && s == KeyboardShortcut::RefreshView
            ==> spec_shortcut_command(s, on_tab) == Some(OrchestratorCommand::RefreshMode),
{
}

/// Routes a keyboard shortcut to the orchestrator panel.
pub fn shortcut_command(nav: &Navigation, shortcut: KeyboardShortcut) -> (c: Option<OrchestratorCommand>)
    ensures
        c == spec_shortcut_command(shortcut, nav.spec_on_tab(CursorTab::Orchestrator)),
{
    if !nav.on_tab(CursorTab::Orchestrator) {
        return None;
    }
    Some(match shortcut {
        KeyboardShortcut::SetModeUserActive => OrchestratorCommand::SetMode(OrchestratorMode::UserActive),
        KeyboardShortcut::SetModeUserDelegate => OrchestratorCommand::SetMode(OrchestratorMode::UserDelegate),
        KeyboardShortcut::SetModeSpectator => OrchestratorCommand::RequestModeChange(OrchestratorMode::Spectator),
        KeyboardShortcut::SetModeAutonomous => OrchestratorCommand::RequestModeChange(OrchestratorMode::Autonomous),
        KeyboardShortcut::ToggleHistory => OrchestratorCommand::ToggleHistory,
        KeyboardShortcut::UndoDecision => OrchestratorCommand::UndoLastDecision,
        KeyboardShortcut::RefreshView => OrchestratorCommand::RefreshMode,
    })
}


/// Types of windows in the application.
#[derive(Clone, Copy, Debug, PartialEq, Eq, Structural)]
pub enum WindowType {
    /// Main application window
    Main,
    /// Detached task queue panel
    TaskQueue,
    /// Dialog panel
    DialogPanel,
    /// Combined task queue and dialog
    TiledPanel,
}

/// Size in logical pixels (width, height) of a newly opened window.
pub fn default_window_size(window_type: WindowType) -> (r: (u32, u32))
    ensures
        window_type == WindowType::Main ==> r == (1280u32, 800u32),
        window_type == WindowType::TaskQueue ==> r == (400u32, 600u32),
        window_type == WindowType::DialogPanel ==> r == (500u32, 400u32),
        window_type == WindowType::TiledPanel ==> r == (800u32, 600u32),
{
    match window_type {
        WindowType::Main => (1280, 800),
        WindowType::TaskQueue => (400, 600),
        WindowType::DialogPanel => (500, 400),
        WindowType::TiledPanel => (800, 600),
    }
}

/// State of one window. `R` is the type of the split ratio.
#[derive(Clone, Copy, Debug)]
pub struct WindowState<R> {
    pub window_type: WindowType,
    /// For tiled panels: split orientation (true = vertical)
    pub vertical_split: bool,
    /// For tiled panels: share of the first panel
    pub split_ratio: R,
}

/// Open windows by ID, and which one is the main window.
pub struct WindowRegistry<R> {
    windows: BTreeMap<u64, WindowState<R>>,
    main_window_id: Option<u64>,
}

/// Window IDs are ordered as integers, as the map of windows needs.
proof fn lemma_window_ids_ordered()
    ensures
        vstd::laws_cmp::obeys_cmp::<u64>(),
        vstd::std_specs::btree::key_obeys_cmp_spec::<u64>(),
{
    broadcast use vstd::laws_cmp::group_laws_cmp;
    broadcast use vstd::std_specs::btree::group_btree_axioms;
}

/// Whether a window of this type is closed when panels merge.
pub open spec fn merges(t: WindowType) -> bool {
    t == WindowType::TaskQueue || t == WindowType::DialogPanel
}

/// Title of a window of the given type.
pub open spec fn spec_title(t: WindowType) -> Seq<char> {
    match t {
        WindowType::Main => "Continuum Studio"@,
        WindowType::TaskQueue => "Task Queue"@,
        WindowType::DialogPanel => "Dialog Panel"@,
        WindowType::TiledPanel => "Task Queue + Dialog"@,
    }
}

impl<R: Copy> WindowRegistry<R> {
    /// The open windows.
    pub closed spec fn windows(&self) -> Map<u64, WindowState<R>> {
        self.windows@
    }

    /// The main window's ID, once known.
    pub closed spec fn main_id(&self) -> Option<u64> {
        self.main_window_id
    }

    /// No windows yet.
    pub fn new() -> (r: Self)
        ensures
            r.windows() == Map::<u64, WindowState<R>>::empty(),
            r.main_id() is None,
    {
        WindowRegistry { windows: BTreeMap::new(), main_window_id: None }
    }

    /// The state of an open window.
    fn state_of(&self, id: u64) -> (r: Option<WindowState<R>>)
        ensures
            r matches Some(st) ==> self.windows().contains_key(id) && st == self.windows()[id],
            r is None ==> !self.windows().contains_key(id),
    {
        proof {
            lemma_window_ids_ordered();
        }
        broadcast use vstd::std_specs::btree::group_btree_axioms;
        match self.windows.get(&id) {
            Some(st) => Some(*st),
            None => None,
        }
    }

    /// Records an opened window (vertical split, the given ratio); the
    /// first main window becomes the main window.
    pub fn window_opened(&mut self, id: u64, window_type: WindowType, ratio: R)
        ensures
            final(self).windows() == old(self).windows().insert(id,
                WindowState { window_type, vertical_split: true, split_ratio: ratio }),
            final(self).main_id() == if old(self).main_id() is None && window_type == WindowType::Main {
                Some(id)
            } else {
                old(self).main_id()
            },
    {
        proof {
            lemma_window_ids_ordered();
        }
        self.windows.insert(id, WindowState { window_type, vertical_split: true, split_ratio: ratio });
        if self.main_window_id.is_none() && window_type == WindowType::Main {
            self.main_window_id = Some(id);
        }
    }

    /// Forgets a closed window; true when it was the main window, which
    /// ends the application.
    pub fn window_closed(&mut self, id: u64) -> (exit: bool)
        ensures
            final(self).windows() == old(self).windows().remove(id),
            final(self).main_id() == old(self).main_id(),
            exit == (old(self).main_id() == Some(id)),
    {
        proof {
            lemma_window_ids_ordered();
        }
        broadcast use vstd::std_specs::btree::group_btree_axioms;
        self.windows.remove(&id);
        self.main_window_id == Some(id)
    }

    /// Flips the split orientation of a window, if it is open.
    pub fn toggle_split_orientation(&mut self, id: u64)
        ensures
            final(self).main_id() == old(self).main_id(),
            final(self).windows() == if old(self).windows().contains_key(id) {
                old(self).windows().insert(id, WindowState {
                    vertical_split: !old(self).windows()[id].vertical_split,
                    ..old(self).windows()[id]
                })
            } else {
                old(self).windows()
            },
    {
        proof {
            lemma_window_ids_ordered();
        }
        match self.state_of(id) {
            Some(cur) => {
                self.windows.insert(id, WindowState { vertical_split: !cur.vertical_split, ..cur });
            },
            None => {},
        }
    }

    /// Sets the split ratio of a window, if it is open.
    pub fn set_split_ratio(&mut self, id: u64, ratio: R)
        ensures
            final(self).main_id() == old(self).main_id(),
            final(self).windows() == if old(self).windows().contains_key(id) {
                old(self).windows().insert(id, WindowState { split_ratio: ratio, ..old(self).windows()[id] })
            } else {
                old(self).windows()
            },
    {
        proof {
            lemma_window_ids_ordered();
        }
        match self.state_of(id) {
            Some(cur) => {
                self.windows.insert(id, WindowState { split_ratio: ratio, ..cur });
            },
            None => {},
        }
    }

    /// Title of a window: by its type, "Continuum Studio" when unknown.
    pub fn window_title(&self, id: u64) -> (s: String)
        ensures
            s@ == if self.windows().contains_key(id) { spec_title(self.windows()[id].window_type) } else { spec_title(WindowType::Main) },
    {
        let t = match self.state_of(id) {
            Some(st) => st.window_type,
            None => WindowType::Main,
        };
        match t {
            WindowType::Main => String::from_str("Continuum Studio"),
            WindowType::TaskQueue => String::from_str("Task Queue"),
            WindowType::DialogPanel => String::from_str("Dialog Panel"),
            WindowType::TiledPanel => String::from_str("Task Queue + Dialog"),
        }
    }

    /// The windows to close when merging panels: every task queue and
    /// dialog panel window.
    pub fn windows_to_merge(&self) -> (ids: Vec<u64>)
        ensures
            forall|id: u64| ids@.contains(id) <==> (self.windows().contains_key(id)
                && (self.windows()[id].window_type == WindowType::TaskQueue
                    || self.windows()[id].window_type == WindowType::DialogPanel)),
    {
        proof {
            lemma_window_ids_ordered();
        }
        broadcast use vstd::std_specs::btree::group_btree_axioms;
        let mut ids: Vec<u64> = Vec::new();
        let ghost all = IteratorSpec::remaining(&vstd::std_specs::btree::spec_btree_map_iter(&self.windows));
        for kv in it: self.windows.iter()
            invariant
                it.seq() == all,
                forall|id: u64| ids@.contains(id) <==> exists|j: int| 0 <= j < it.index() && *it.seq()[j].0 == id
                    && merges(it.seq()[j].1.window_type),
        {
            let ghost before = ids@;
            if kv.1.window_type == WindowType::TaskQueue || kv.1.window_type == WindowType::DialogPanel {
                ids.push(*kv.0);
            }
            proof {
                assert(it.seq()[it.index() as int] == kv);
                assert forall|id: u64| ids@.contains(id) <==> exists|j: int| 0 <= j < it.index() + 1 && *it.seq()[j].0 == id
                    && merges(it.seq()[j].1.window_type) by {
                    if ids@.contains(id) && !before.contains(id) {
                        let k = choose|k: int| 0 <= k < ids@.len() && ids@[k] == id;
                        if k < before.len() {
                            assert(before[k] == id);
                        }
                    }
                    if before.contains(id) {
                        let k = choose|k: int| 0 <= k < before.len() && before[k] == id;
                        assert(ids@[k] == id);
                    }
                    if exists|j: int| 0 <= j < it.index() + 1 && *it.seq()[j].0 == id && merges(it.seq()[j].1.window_type) {
                        let j = choose|j: int| 0 <= j < it.index() + 1 && *it.seq()[j].0 == id && merges(it.seq()[j].1.window_type);
                        if j == it.index() {
                            assert(ids@[ids@.len() - 1] == id);
                        }
                    }
                }
            }
        }
        proof {
            let m = self.windows@;
            assert forall|id: u64| ids@.contains(id) <==> (m.contains_key(id) && merges(m[id].window_type)) by {
                if m.contains_key(id) {
                    assert(all.contains((&id, &m[id])));
                    let j = choose|j: int| 0 <= j < all.len() && all[j] == (&id, &m[id]);
                    assert(*all[j].0 == id);
                }
            }
        }
        ids
    }

    /// The lowest ID among the open windows of a type.
    pub fn first_of_type(&self, window_type: WindowType) -> (r: Option<u64>)
        ensures
            r matches Some(id) ==> self.windows().contains_key(id) && self.windows()[id].window_type == window_type
                && forall|k: u64| #[trigger] self.windows().contains_key(k) && self.windows()[k].window_type == window_type ==> id <= k,
            r is None ==> forall|k: u64| #[trigger] self.windows().contains_key(k) ==> self.windows()[k].window_type != window_type,
    {
        proof {
            lemma_window_ids_ordered();
        }
        broadcast use vstd::std_specs::btree::group_btree_axioms;
        let mut best: Option<u64> = None;
        let ghost all = IteratorSpec::remaining(&vstd::std_specs::btree::spec_btree_map_iter(&self.windows));
        for kv in it: self.windows.iter()
            invariant
                it.seq() == all,
                all.len() == self.windows@.dom().len(),
                forall|j: int| 0 <= j < all.len() ==> self.windows@.contains_key(*all[j].0) && self.windows@[*all[j].0] == *all[j].1,
                best matches Some(b) ==> self.windows@.contains_key(b) && self.windows@[b].window_type == window_type,
                forall|j: int| 0 <= j < it.index() && #[trigger] all[j].1.window_type == window_type
                    ==> (best matches Some(b) && b <= *all[j].0),
        {
            proof {
                assert(it.seq()[it.index() as int] == kv);
            }
            if kv.1.window_type == window_type {
                match best {
                    Some(b) => {
                        if *kv.0 < b {
                            best = Some(*kv.0);
                        }
                    },
                    None => {
                        best = Some(*kv.0);
                    },
                }
            }
        }
        proof {
            let m = self.windows@;
            assert forall|k: u64| #[trigger] m.contains_key(k) && m[k].window_type == window_type
                implies (best matches Some(b) && b <= k) by {
                assert(all.contains((&k, &m[k])));
                let j = choose|j: int| 0 <= j < all.len() && all[j] == (&k, &m[k]);
                assert(all[j].1.window_type == window_type);
            }
        }
        best
    }

    /// The main window's ID.
    pub fn main_window_id(&self) -> (r: Option<u64>)
        ensures
            r == self.main_id(),
    {
        self.main_window_id
    }
}


/// Cleanup mode for version removal.
#[derive(Clone, Copy, Debug, PartialEq, Eq, Structural)]
pub enum CleanupMode {
    /// Remove the AppImage only
    AppImageOnly,
    /// Remove the AppImage and the data directory
    AppImageAndData,
    /// Remove the AppImage and data, preserving the auth profile first
    KeepAuth,
}

/// The (remove data, keep auth) flags of a cleanup request.
pub fn cleanup_flags(mode: CleanupMode) -> (r: (bool, bool))
    ensures
        mode == CleanupMode::AppImageOnly ==> r == (false, false),
        mode == CleanupMode::AppImageAndData ==> r == (true, false),
        mode == CleanupMode::KeepAuth ==> r == (true, true),
{
    match mode {
        CleanupMode::AppImageOnly => (false, false),
        CleanupMode::AppImageAndData => (true, false),
        CleanupMode::KeepAuth => (true, true),
    }
}

/// Disk usage of one installed version.
#[derive(Debug)]
pub struct VersionDiskUsage {
    pub version: String,
    pub appimage_size: u64,
    /// Size of the data directory without its extensions
    pub data_dir_size: u64,
    pub extensions_size: u64,
    pub total_size: u64,
    pub has_data_dir: bool,
    pub has_extensions: bool,
    pub last_used: Option<String>,
    pub is_running: bool,
}

impl VersionDiskUsage {
    /// Usage record from the measured sizes: the data directory is counted
    /// without its extensions (never below zero), and the total is the
    /// AppImage plus the whole data directory.
    pub fn measure(
        version: String,
        appimage_size: u64,
        data_dir_size: u64,
        extensions_size: u64,
        has_data_dir: bool,
        has_extensions: bool,
        last_used: Option<String>,
        is_running: bool,
    ) -> (u: Self)
        requires
            appimage_size + data_dir_size <= u64::MAX,
        ensures
            u.version == version,
            u.appimage_size == appimage_size,
            u.data_dir_size == if data_dir_size >= extensions_size { (data_dir_size - extensions_size) as u64 } else { 0 },
            u.extensions_size == extensions_size,
            u.total_size == appimage_size + data_dir_size,
            u.has_data_dir == has_data_dir,
            u.has_extensions == has_extensions,
            u.last_used == last_used,
            u.is_running == is_running,
    {
        VersionDiskUsage {
            version,
            appimage_size,
            data_dir_size: data_dir_size.saturating_sub(extensions_size),
            extensions_size,
            total_size: appimage_size + data_dir_size,
            has_data_dir,
            has_extensions,
            last_used,
            is_running,
        }
    }
}

/// The file name of a version's downloaded AppImage.
pub fn appimage_file_name(version: &str) -> (s: String)
    ensures
        s@ == "Cursor-"@ + version@ + "-x86_64.AppImage"@,
{
    let mut s = String::from_str("Cursor-");
    s.append(version);
    s.append("-x86_64.AppImage");
    s
}

/// The size that `du -sb` printed: the number before the first tab, once
/// trimmed; 0 when it does not read as a `u64`.
pub open spec fn spec_du_size(t: Seq<char>) -> nat {
    let f = match find_char(t, '\t') {
        Some(i) => t.take(i),
        None => t,
    };
    match parse_unsigned(trim(f), u64::MAX as nat) {
        Some(v) => v,
        None => 0,
    }
}

/// Reads the size from the output of `du -sb`.
pub fn du_size(stdout: &str) -> (n: u64)
    ensures
        n as nat == spec_du_size(stdout@),
{
    let cs = chars_of(stdout);
    assert(cs@.skip(0) =~= cs@);
    let end = match find_from(cs.as_slice(), 0, '\t') {
        Some(i) => i,
        None => cs.len(),
    };
    let first = sub_chars(cs.as_slice(), 0, end);
    proof {
        if find_char(cs@, '\t') is None {
            assert(first@ =~= cs@);
        } else {
            assert(first@ =~= cs@.take(find_char(cs@, '\t').unwrap()));
        }
    }
    let (a, b) = trim_range(first.as_slice());
    match parse_unsigned_range(first.as_slice(), a, b, u64::MAX) {
        Some(v) => v,
        None => 0,
    }
}

/// Number of leading records of `s` whose total is at least `key`.
pub open spec fn count_at_least(s: Seq<VersionDiskUsage>, key: u64) -> nat
    decreases s.len(),
{
    if s.len() > 0 && s[0].total_size >= key { 1 + count_at_least(s.drop_first(), key) } else { 0 }
}

/// `x` placed into `s` after every leading record with a total at least as
/// large.
pub open spec fn insert_by_total(s: Seq<VersionDiskUsage>, x: VersionDiskUsage) -> Seq<VersionDiskUsage> {
    let p = count_at_least(s, x.total_size) as int;
    s.take(p).push(x) + s.skip(p)
}

/// The records ordered by total size, largest first; records with equal
/// totals keep their order (a stable sort).
pub open spec fn sort_by_total_desc(s: Seq<VersionDiskUsage>) -> Seq<VersionDiskUsage>
    decreases s.len(),
{
    if s.len() == 0 { s } else { insert_by_total(sort_by_total_desc(s.drop_last()), s.last()) }
}

pub open spec fn descending(s: Seq<VersionDiskUsage>) -> bool {
    forall|i: int, j: int| 0 <= i <= j < s.len() ==> s[i].total_size >= s[j].total_size
}

proof fn lemma_count_at_least(s: Seq<VersionDiskUsage>, key: u64, p: int)
    requires
        0 <= p <= s.len(),
        forall|k: int| 0 <= k < p ==> #[trigger] s[k].total_size >= key,
        p == s.len() || s[p].total_size < key,
    ensures
        count_at_least(s, key) == p,
    decreases p,
{
    if p > 0 {
        lemma_count_at_least(s.drop_first(), key, p - 1);
    }
}

proof fn lemma_count_props(s: Seq<VersionDiskUsage>, key: u64)
    ensures
        count_at_least(s, key) <= s.len(),
        forall|k: int| 0 <= k < count_at_least(s, key) ==> #[trigger] s[k].total_size >= key,
        count_at_least(s, key) == s.len() || s[count_at_least(s, key) as int].total_size < key,
    decreases s.len(),
{
    if s.len() > 0 && s[0].total_size >= key {
        let t = s.drop_first();
        lemma_count_props(t, key);
        assert forall|k: int| 0 <= k < count_at_least(s, key) implies #[trigger] s[k].total_size >= key by {
            if k > 0 {
                assert(s[k] == t[k - 1]);
            }
        }
    }
}

proof fn lemma_insert_descending(s: Seq<VersionDiskUsage>, x: VersionDiskUsage)
    requires
        descending(s),
    ensures
        descending(insert_by_total(s, x)),
        insert_by_total(s, x).to_multiset() == s.to_multiset().insert(x),
        insert_by_total(s, x).len() == s.len() + 1,
{
    lemma_count_props(s, x.total_size);
    let p = count_at_least(s, x.total_size) as int;
    let r = insert_by_total(s, x);
    assert forall|i: int, j: int| 0 <= i <= j < r.len() implies r[i].total_size >= r[j].total_size by {
        if i < p && j < p {
            assert(r[i] == s[i] && r[j] == s[j]);
        } else if i < p && j == p {
            assert(r[i] == s[i]);
        } else if i < p {
            assert(r[i] == s[i] && r[j] == s[j - 1]);
        } else if i == p && j > p {
            assert(r[j] == s[j - 1]);
        } else if i > p {
            assert(r[i] == s[i - 1] && r[j] == s[j - 1]);
        }
    }
    broadcast use vstd::seq_lib::group_to_multiset_ensures;
    assert(s =~= s.take(p) + s.skip(p));
    vstd::seq_lib::lemma_multiset_commutative(s.take(p).push(x), s.skip(p));
    vstd::seq_lib::lemma_multiset_commutative(s.take(p), s.skip(p));
}

/// The ordering is descending by total and a permutation of its input.
pub proof fn lemma_sort_by_total(s: Seq<VersionDiskUsage>)
    ensures
        descending(sort_by_total_desc(s)),
        sort_by_total_desc(s).to_multiset() == s.to_multiset(),
        sort_by_total_desc(s).len() == s.len(),
    decreases s.len(),
{
    broadcast use vstd::seq_lib::group_to_multiset_ensures;
    if s.len() > 0 {
        lemma_sort_by_total(s.drop_last());
        lemma_insert_descending(sort_by_total_desc(s.drop_last()), s.last());
        assert(s =~= s.drop_last().push(s.last()));
    }
}

/// Orders usage records by total size, largest first, keeping the order of
/// records with equal totals.
pub fn sort_usage_by_total(records: Vec<VersionDiskUsage>) -> (r: Vec<VersionDiskUsage>)
    ensures
        r@ == sort_by_total_desc(records@),
{
    let mut input = records;
    let ghost all = input@;
    let mut out: Vec<VersionDiskUsage> = Vec::new();
    let mut taken: usize = 0;
    let n = input.len();
    // Take records from the front of the input, one by one.
    let mut rest: Vec<VersionDiskUsage> = Vec::new();
    // Reverse the input so that popping yields records in their order.
    while input.len() > 0
        invariant
            rest@.len() + input@.len() == all.len(),
            forall|k: int| 0 <= k < rest@.len() ==> rest@[k] == all[all.len() - 1 - k],
            input@ == all.take(input@.len() as int),
        decreases input@.len(),
    {
        let x = input.pop().unwrap();
        rest.push(x);
    }
    while rest.len() > 0
        invariant
            taken + rest@.len() == n,
            n == all.len(),
            forall|k: int| 0 <= k < rest@.len() ==> rest@[k] == all[all.len() - 1 - k],
            out@ == sort_by_total_desc(all.take(taken as int)),
        decreases rest@.len(),
    {
        let x = rest.pop().unwrap();
        let ghost done = all.take(taken as int);
        proof {
            assert(x == all[taken as int]);
            assert(all.take(taken + 1).drop_last() =~= done);
            lemma_sort_by_total(done);
        }
        let mut p: usize = 0;
        while p < out.len() && out[p].total_size >= x.total_size
            invariant
                p <= out@.len(),
                forall|k: int| 0 <= k < p ==> #[trigger] out@[k].total_size >= x.total_size,
            decreases out@.len() - p,
        {
            p = p + 1;
        }
        proof {
            lemma_count_at_least(out@, x.total_size, p as int);
        }
        let ghost before = out@;
        out.insert(p, x);
        taken = taken + 1;
        proof {
            assert(out@ =~= before.take(p as int).push(x) + before.skip(p as int));
        }
    }
    assert(all.take(n as int) =~= all);
    out
}

/// Versions chosen for batch cleanup, each once, in the order chosen.
pub struct StorageSelection {
    selected: Vec<String>,
}

pub open spec fn texts(v: Seq<String>) -> Seq<Seq<char>> {
    v.map_values(|s: String| s@)
}

/// Sum of the total sizes of the versions.
pub open spec fn total_of_sizes(us: Seq<VersionDiskUsage>) -> nat
    decreases us.len(),
{
    if us.len() == 0 { 0 } else { total_of_sizes(us.drop_last()) + us.last().total_size as nat }
}

/// Sum of the total sizes of the versions that are chosen.
pub open spec fn chosen_size(us: Seq<VersionDiskUsage>, chosen: Seq<Seq<char>>) -> nat
    decreases us.len(),
{
    if us.len() == 0 {
        0
    } else {
        chosen_size(us.drop_last(), chosen) + if chosen.contains(us.last().version@) { us.last().total_size as nat } else { 0 }
    }
}

proof fn lemma_sizes_prefix(us: Seq<VersionDiskUsage>, chosen: Seq<Seq<char>>, i: int)
    requires
        0 <= i <= us.len(),
    ensures
        total_of_sizes(us.take(i)) <= total_of_sizes(us),
        chosen_size(us.take(i), chosen) <= chosen_size(us, chosen),
    decreases us.len() - i,
{
    if i < us.len() {
        lemma_sizes_prefix(us, chosen, i + 1);
        assert(us.take(i + 1).drop_last() =~= us.take(i));
    } else {
        assert(us.take(i) =~= us);
    }
}

/// The total size adds up the versions' total sizes: one version counts
/// its total size, and the total of two lists is the sum of their totals.
pub proof fn lemma_total_of_sizes(a: Seq<VersionDiskUsage>, b: Seq<VersionDiskUsage>, u: VersionDiskUsage)
    ensures
        total_of_sizes(Seq::<VersionDiskUsage>::empty()) == 0,
        total_of_sizes(seq![u]) == u.total_size,
        total_of_sizes(a + b) == total_of_sizes(a) + total_of_sizes(b),
    decreases b.len(),
{
    assert(seq![u].drop_last() =~= Seq::<VersionDiskUsage>::empty());
    if b.len() == 0 {
        assert(a + b =~= a);
    } else {
        lemma_total_of_sizes(a, b.drop_last(), u);
        assert((a + b).drop_last() =~= a + b.drop_last());
    }
}

/// The selected size adds up the total sizes of the selected versions: a
/// selected version counts its total size, an unselected one nothing; the
/// selected size of two lists is the sum of theirs; it never exceeds the
/// total, and equals it when every version is selected.
pub proof fn lemma_chosen_size(a: Seq<VersionDiskUsage>, b: Seq<VersionDiskUsage>, u: VersionDiskUsage, chosen: Seq<Seq<char>>)
    ensures
        chosen_size(seq![u], chosen) == if chosen.contains(u.version@) { u.total_size as nat } else { 0 },
        chosen_size(a + b, chosen) == chosen_size(a, chosen) + chosen_size(b, chosen),
        chosen_size(a, chosen) <= total_of_sizes(a),
        (forall|k: int| 0 <= k < a.len() ==> chosen.contains(#[trigger] a[k].version@))
            ==> chosen_size(a, chosen) == total_of_sizes(a),
        (forall|k: int| 0 <= k < a.len() ==> !chosen.contains(#[trigger] a[k].version@))
            ==> chosen_size(a, chosen) == 0,
    decreases a.len() + b.len(),
{
    assert(seq![u].drop_last() =~= Seq::<VersionDiskUsage>::empty());
    assert(seq![u].last() == u);
    assert(chosen_size(Seq::<VersionDiskUsage>::empty(), chosen) == 0);
    if b.len() > 0 {
        lemma_chosen_size(a, b.drop_last(), u, chosen);
        assert((a + b).drop_last() =~= a + b.drop_last());
    } else {
        assert(a + b =~= a);
        if a.len() > 0 {
            let init = a.drop_last();
            lemma_chosen_size(init, b, u, chosen);
            assert forall|k: int| 0 <= k < init.len() implies init[k] == a[k] by {}
            if forall|k: int| 0 <= k < a.len() ==> chosen.contains(#[trigger] a[k].version@) {
                assert(chosen.contains(a[a.len() - 1].version@));
                assert forall|k: int| 0 <= k < init.len() implies chosen.contains(#[trigger] init[k].version@) by {
                    assert(init[k] == a[k]);
                }
            }
            if forall|k: int| 0 <= k < a.len() ==> !chosen.contains(#[trigger] a[k].version@) {
                assert(!chosen.contains(a[a.len() - 1].version@));
                assert forall|k: int| 0 <= k < init.len() implies !chosen.contains(#[trigger] init[k].version@) by {
                    assert(init[k] == a[k]);
                }
            }
        }
    }
}

/// Disk space used by all versions together.
pub fn total_disk_usage(usages: &[VersionDiskUsage]) -> (t: u64)
    requires
        total_of_sizes(usages@) <= u64::MAX,
    ensures
        t == total_of_sizes(usages@),
{
    let mut t: u64 = 0;
    let mut i: usize = 0;
    while i < usages.len()
        invariant
            i <= usages@.len(),
            t == total_of_sizes(usages@.take(i as int)),
            total_of_sizes(usages@) <= u64::MAX,
        decreases usages@.len() - i,
    {
        proof {
            assert(usages@.take(i + 1).drop_last() =~= usages@.take(i as int));
            lemma_sizes_prefix(usages@, Seq::empty(), i + 1);
        }
        t = t + usages[i].total_size;
        i = i + 1;
    }
    assert(usages@.take(i as int) =~= usages@);
    t
}

/// The selection after toggling `v`: removed where it was chosen, added
/// last where it was not.
pub open spec fn toggled(chosen: Seq<Seq<char>>, v: Seq<char>) -> Seq<Seq<char>> {
    if chosen.contains(v) { chosen.remove(chosen.index_of(v)) } else { chosen.push(v) }
}

/// Toggling a version twice selects the same versions as before, and a
/// selection without repeats stays without repeats.
pub proof fn lemma_toggle_twice(chosen: Seq<Seq<char>>, v: Seq<char>)
    requires
        chosen.no_duplicates(),
    ensures
        toggled(chosen, v).no_duplicates(),
        forall|x: Seq<char>| #[trigger] toggled(toggled(chosen, v), v).contains(x) == chosen.contains(x),
{
    let once = toggled(chosen, v);
    if chosen.contains(v) {
        let i = chosen.index_of(v);
        assert forall|a: int, b: int| 0 <= a < once.len() && 0 <= b < once.len() && a != b implies once[a] != once[b] by {
            let a0 = if a < i { a } else { a + 1 };
            let b0 = if b < i { b } else { b + 1 };
            assert(once[a] == chosen[a0] && once[b] == chosen[b0]);
        }
        assert(!once.contains(v)) by {
            if once.contains(v) {
                let k = choose|k: int| 0 <= k < once.len() && once[k] == v;
                let k0 = if k < i { k } else { k + 1 };
                assert(chosen[k0] == v);
            }
        }
        let twice = once.push(v);
        assert forall|x: Seq<char>| #[trigger] twice.contains(x) == chosen.contains(x) by {
            if chosen.contains(x) && x != v {
                let k0 = choose|k: int| 0 <= k < chosen.len() && chosen[k] == x;
                let k = if k0 < i { k0 } else { k0 - 1 };
                assert(once[k] == x);
                assert(twice[k] == x);
            }
            if twice.contains(x) && x != v {
                let k = choose|k: int| 0 <= k < twice.len() && twice[k] == x;
                assert(k < once.len());
                let k0 = if k < i { k } else { k + 1 };
                assert(chosen[k0] == x);
            }
            if x == v {
                assert(twice[twice.len() - 1] == v);
            }
        }
    } else {
        assert(once[once.len() - 1] == v);
        assert(once.contains(v));
        let i = once.index_of(v);
        assert(i == once.len() - 1) by {
            if i < once.len() - 1 {
                assert(chosen[i] == v);
            }
        }
        let twice = once.remove(i);
        assert(twice =~= chosen);
    }
}

/// Position of `version` in `v`, if it is there.
fn position_of_version(v: &Vec<String>, version: &str) -> (r: Option<usize>)
    ensures
        r matches Some(i) ==> i < v@.len() && texts(v@)[i as int] == version@,
        r is None ==> !texts(v@).contains(version@),
{
    let mut i: usize = 0;
    while i < v.len()
        invariant
            i <= v@.len(),
            forall|k: int| 0 <= k < i ==> texts(v@)[k] != version@,
        decreases v@.len() - i,
    {
        if same_text(v[i].as_str(), version) {
            return Some(i);
        }
        i = i + 1;
    }
    None
}

impl StorageSelection {
    /// The selected versions.
    pub closed spec fn chosen(&self) -> Seq<Seq<char>> {
        texts(self.selected@)
    }

    /// No version is chosen twice.
    #[verifier::type_invariant]
    spec fn no_version_twice(&self) -> bool {
        self.chosen().no_duplicates()
    }

    /// Nothing selected.
    pub fn new() -> (s: Self)
        ensures
            s.chosen() == Seq::<Seq<char>>::empty(),
    {
        let s = StorageSelection { selected: Vec::new() };
        assert(s.chosen() =~= Seq::<Seq<char>>::empty());
        s
    }

    /// Whether a version is selected.
    pub fn contains(&self, version: &str) -> (b: bool)
        ensures
            b == self.chosen().contains(version@),
    {
        position_of_version(&self.selected, version).is_some()
    }

    /// Selects a version that is not selected, deselects one that is; every
    /// other version keeps its place.
    pub fn toggle(&mut self, version: String)
        ensures
            final(self).chosen().no_duplicates(),
            forall|v: Seq<char>| #[trigger] final(self).chosen().contains(v)
                == if v == version@ { !old(self).chosen().contains(v) } else { old(self).chosen().contains(v) },
            final(self).chosen() == toggled(old(self).chosen(), version@),
    {
        proof {
            use_type_invariant(&*self);
        }
        let ghost before = self.chosen();
        let mut sel: Vec<String> = Vec::new();
        std::mem::swap(&mut sel, &mut self.selected);
        assert(texts(sel@) == before);
        match position_of_version(&sel, version.as_str()) {
            Some(i) => {
                sel.remove(i);
                proof {
                    let c = texts(sel@);
                    assert(c =~= before.remove(i as int));
                    assert(before.index_of(version@) == i as int) by {
                        assert(before.contains(version@));
                        let j = before.index_of(version@);
                        assert(before[j] == version@);
                    }
                    assert forall|a: int, b: int| 0 <= a < c.len() && 0 <= b < c.len() && a != b implies c[a] != c[b] by {
                        let a0 = if a < i { a } else { a + 1 };
                        let b0 = if b < i { b } else { b + 1 };
                        assert(c[a] == before[a0] && c[b] == before[b0]);
                    }
                    assert forall|v: Seq<char>| #[trigger] c.contains(v)
                        == if v == version@ { !before.contains(v) } else { before.contains(v) } by {
                        if c.contains(v) {
                            let k = choose|k: int| 0 <= k < c.len() && c[k] == v;
                            let k0 = if k < i { k } else { k + 1 };
                            assert(before[k0] == v);
                            assert(k0 != i);
                        }
                        if before.contains(v) && v != version@ {
                            let k0 = choose|k: int| 0 <= k < before.len() && before[k] == v;
                            assert(k0 != i);
                            let k = if k0 < i { k0 } else { k0 - 1 };
                            assert(c[k] == v);
                        }
                    }
                }
            },
            None => {
                sel.push(version);
                proof {
                    let c = texts(sel@);
                    assert(c =~= before.push(version@));
                    assert(c[c.len() - 1] == version@);
                    assert forall|v: Seq<char>| #[trigger] c.contains(v)
                        == if v == version@ { !before.contains(v) } else { before.contains(v) } by {
                        if c.contains(v) && v != version@ {
                            let k = choose|k: int| 0 <= k < c.len() && c[k] == v;
                            assert(before[k] == v);
                        }
                        if before.contains(v) {
                            let k = choose|k: int| 0 <= k < before.len() && before[k] == v;
                            assert(c[k] == v);
                        }
                    }
                }
            },
        }
        self.selected = sel;
    }

    /// Selects every version that is not running (keeping those already
    /// selected).
    pub fn select_all(&mut self, usages: &[VersionDiskUsage])
        ensures
            final(self).chosen().no_duplicates(),
            forall|v: Seq<char>| #[trigger] final(self).chosen().contains(v) <==> (old(self).chosen().contains(v)
                || exists|k: int| 0 <= k < usages@.len() && !usages@[k].is_running && usages@[k].version@ == v),
    {
        proof {
            use_type_invariant(&*self);
        }
        let ghost start = self.chosen();
        let mut sel: Vec<String> = Vec::new();
        std::mem::swap(&mut sel, &mut self.selected);
        let mut i: usize = 0;
        while i < usages.len()
            invariant
                i <= usages@.len(),
                texts(sel@).no_duplicates(),
                forall|v: Seq<char>| #[trigger] texts(sel@).contains(v) <==> (start.contains(v)
                    || exists|k: int| 0 <= k < i && !usages@[k].is_running && usages@[k].version@ == v),
            decreases usages@.len() - i,
        {
            let u = &usages[i];
            let ghost before = texts(sel@);
            if !u.is_running && position_of_version(&sel, u.version.as_str()).is_none() {
                sel.push(u.version.clone());
                proof {
                    assert(texts(sel@) =~= before.push(u.version@));
                }
            }
            proof {
                let c = texts(sel@);
                assert forall|v: Seq<char>| #[trigger] c.contains(v) <==> (start.contains(v)
                    || exists|k: int| 0 <= k < i + 1 && !usages@[k].is_running && usages@[k].version@ == v) by {
                    if c.contains(v) && !before.contains(v) {
                        assert(v == u.version@) by {
                            let j = choose|j: int| 0 <= j < c.len() && c[j] == v;
                            if j < before.len() {
                                assert(before[j] == v);
                            }
                        }
                    }
                    if before.contains(v) {
                        let j = choose|j: int| 0 <= j < before.len() && before[j] == v;
                        assert(c[j] == v);
                    }
                    if !u.is_running && v == u.version@ {
                        if !before.contains(v) {
                            assert(c[c.len() - 1] == v);
                        }
                    }
                }
            }
            i = i + 1;
        }
        self.selected = sel;
    }

    /// Disk space used by the selected versions together.
    pub fn selected_size(&self, usages: &[VersionDiskUsage]) -> (t: u64)
        requires
            chosen_size(usages@, self.chosen()) <= u64::MAX,
        ensures
            t == chosen_size(usages@, self.chosen()),
    {
        let mut t: u64 = 0;
        let mut i: usize = 0;
        while i < usages.len()
            invariant
                i <= usages@.len(),
                t == chosen_size(usages@.take(i as int), self.chosen()),
                chosen_size(usages@, self.chosen()) <= u64::MAX,
            decreases usages@.len() - i,
        {
            proof {
                assert(usages@.take(i + 1).drop_last() =~= usages@.take(i as int));
                lemma_sizes_prefix(usages@, self.chosen(), i + 1);
            }
            if self.contains(usages[i].version.as_str()) {
                t = t + usages[i].total_size;
            }
            i = i + 1;
        }
        assert(usages@.take(i as int) =~= usages@);
        t
    }

    /// Deselects everything.
    pub fn deselect_all(&mut self)
        ensures
            final(self).chosen() == Seq::<Seq<char>>::empty(),
    {
        self.selected = Vec::new();
        assert(self.chosen() =~= Seq::<Seq<char>>::empty());
    }

    /// The versions to clean up, or nothing when none is selected.
    pub fn cleanup_request(&self) -> (r: Option<Vec<String>>)
        ensures
            r matches Some(v) ==> texts(v@) == self.chosen() && v@.len() > 0,
            r is None ==> self.chosen().len() == 0,
    {
        if self.selected.len() == 0 {
            return None;
        }
        let mut v: Vec<String> = Vec::new();
        let mut i: usize = 0;
        while i < self.selected.len()
            invariant
                i <= self.selected@.len(),
                v@ == self.selected@.take(i as int),
            decreases self.selected@.len() - i,
        {
            v.push(self.selected[i].clone());
            i = i + 1;
            assert(v@ =~= self.selected@.take(i as int));
        }
        assert(self.selected@.take(i as int) =~= self.selected@);
        Some(v)
    }
}


/// `str::replace` of the two-character pattern `a b` by `r`: occurrences
/// are replaced from left to right without overlapping.
pub open spec fn replace_pair(s: Seq<char>, a: char, b: char, r: char) -> Seq<char>
    decreases s.len(),
{
    if s.len() == 0 {
        s
    } else if s.len() >= 2 && s[0] == a && s[1] == b {
        seq![r] + replace_pair(s.skip(2), a, b, r)
    } else {
        seq![s[0]] + replace_pair(s.drop_first(), a, b, r)
    }
}

/// Replaces the pattern `a b` by `r` in `s`, from left to right.
pub fn replace_pair_exec(s: &[char], a: char, b: char, r: char) -> (out: Vec<char>)
    ensures
        out@ == replace_pair(s@, a, b, r),
{
    let mut out: Vec<char> = Vec::new();
    let mut i: usize = 0;
    let n = s.len();
    assert(s@.skip(0) =~= s@);
    assert(out@ + replace_pair(s@, a, b, r) =~= replace_pair(s@, a, b, r));
    while i < n
        invariant
            n == s@.len(),
            i <= n,
            out@ + replace_pair(s@.skip(i as int), a, b, r) == replace_pair(s@, a, b, r),
        decreases n - i,
    {
        let ghost t = s@.skip(i as int);
        if i + 1 < n && s[i] == a && s[i + 1] == b {
            proof {
                assert(t[0] == a && t[1] == b);
                assert(t.skip(2) =~= s@.skip(i + 2));
                assert(out@.push(r) + replace_pair(s@.skip(i + 2), a, b, r)
                    =~= out@ + (seq![r] + replace_pair(t.skip(2), a, b, r)));
            }
            out.push(r);
            i = i + 2;
        } else {
            let c = s[i];
            proof {
                assert(t[0] == c);
                assert(!(t.len() >= 2 && t[0] == a && t[1] == b));
                assert(t.drop_first() =~= s@.skip(i + 1));
                assert(out@.push(c) + replace_pair(s@.skip(i + 1), a, b, r)
                    =~= out@ + (seq![c] + replace_pair(t.drop_first(), a, b, r)));
            }
            out.push(c);
            i = i + 1;
        }
    }
    proof {
        assert(s@.skip(i as int) =~= Seq::<char>::empty());
        assert(out@ + Seq::<char>::empty() =~= out@);
    }
    out
}

/// The quoted payload of a `busctl` reply (`s "..."`) with its escaping
/// undone: first every `\"` becomes `"`, then every `\\` becomes `\`.
pub open spec fn unescape_busctl(t: Seq<char>) -> Seq<char> {
    replace_pair(replace_pair(t, '\\', '"', '"'), '\\', '\\', '\\')
}

/// What a `busctl` reply holds between its first and last double quote.
#[derive(Debug)]
pub enum BusctlPayload {
    /// The reply has no double quote
    NoQuotes,
    /// The first and last double quote are the same one
    Empty,
    /// The unescaped text between the first and last double quote
    Json(String),
}

/// Extracts the JSON text of a `busctl` reply.
pub fn busctl_payload(stdout: &str) -> (r: BusctlPayload)
    ensures
        r is NoQuotes <==> !stdout@.contains('"'),
        r is Empty <==> (stdout@.contains('"')
            && find_char(stdout@, '"').unwrap() >= rfind_char(stdout@, '"').unwrap()),
        r matches BusctlPayload::Json(t) ==> t@ == unescape_busctl(
            stdout@.subrange(find_char(stdout@, '"').unwrap() + 1, rfind_char(stdout@, '"').unwrap())),
{
    let cs = chars_of(stdout);
    assert(cs@.skip(0) =~= cs@);
    let first = find_from(cs.as_slice(), 0, '"');
    let last = rfind(cs.as_slice(), '"');
    match (first, last) {
        (Some(a), Some(b)) => {
            proof {
                assert(cs@.contains('"'));
            }
            if a >= b {
                return BusctlPayload::Empty;
            }
            let inner = sub_chars(cs.as_slice(), a + 1, b);
            let once = replace_pair_exec(inner.as_slice(), '\\', '"', '"');
            let twice = replace_pair_exec(once.as_slice(), '\\', '\\', '\\');
            BusctlPayload::Json(string_of(twice.as_slice()))
        },
        _ => {
            proof {
                if cs@.contains('"') {
                    let k = choose|k: int| 0 <= k < cs@.len() && cs@[k] == '"';
                    assert(!(find_char(cs@, '"') is None));
                    assert(!(rfind_char(cs@, '"') is None));
                }
            }
            BusctlPayload::NoQuotes
        },
    }
}


/// What `str::to_lowercase` gives for a text.
pub uninterp spec fn lowercase(s: Seq<char>) -> Seq<char>;

/// `str::to_lowercase`: the text in lower case (Unicode case mapping). Its
/// result is claimed to depend on the text alone.
#[verifier::external_body]
fn to_lowercase(s: &str) -> (r: String)
    ensures
        r@ == lowercase(s@),
{
    s.to_lowercase()
}

/// `p` occurs in `s`.
pub open spec fn has_sub(s: Seq<char>, p: Seq<char>) -> bool {
    exists|i: int| 0 <= i && i + p.len() <= s.len() && #[trigger] s.subrange(i, i + p.len()) == p
}

/// Whether `p` occurs in `s`.
pub fn contains_text(s: &[char], p: &[char]) -> (b: bool)
    ensures
        b == has_sub(s@, p@),
{
    if p.len() > s.len() {
        return false;
    }
    if p.len() == 0 {
        assert(s@.subrange(0int, 0int + p@.len()) =~= p@);
        return true;
    }
    let mut i: usize = 0;
    let n = s.len();
    let last = s.len() - p.len();
    while i <= last
        invariant
            last == s@.len() - p@.len(),
            n == s@.len(),
            p@.len() <= s@.len(),
            p@.len() > 0,
            i <= s@.len(),
            forall|k: int| 0 <= k < i ==> #[trigger] s@.subrange(k, k + p@.len()) != p@,
        decreases s@.len() - i,
    {
        let mut j: usize = 0;
        let mut same = true;
        while j < p.len()
            invariant
                j <= p@.len(),
                i <= last,
                last == s@.len() - p@.len(),
                n == s@.len(),
                p@.len() <= s@.len(),
                same == (forall|k: int| 0 <= k < j ==> s@[i + k] == p@[k]),
            decreases p@.len() - j,
        {
            if s[i + j] != p[j] {
                same = false;
            }
            j = j + 1;
        }
        if same {
            assert(s@.subrange(i as int, i + p@.len()) =~= p@);
            return true;
        }
        proof {
            let k = choose|k: int| 0 <= k < p@.len() && s@[i + k] != p@[k];
            assert(s@.subrange(i as int, i + p@.len())[k] != p@[k]);
        }
        i = i + 1;
    }
    proof {
        assert forall|k: int| 0 <= k && k + p@.len() <= s@.len() implies #[trigger] s@.subrange(k, k + p@.len()) != p@ by {
            assert(k < i);
        }
    }
    false
}

/// A lower-cased option value that reads as declining: it contains
/// "cancel", "decline", "no" or "stop".
pub open spec fn decline_words(lowered: Seq<char>) -> bool {
    has_sub(lowered, "cancel"@) || has_sub(lowered, "decline"@) || has_sub(lowered, "no"@)
        || has_sub(lowered, "stop"@)
}

/// Whether a lower-cased option value reads as declining.
pub fn is_decline_text(lowered: &str) -> (b: bool)
    ensures
        b == decline_words(lowered@),
{
    let l = chars_of(lowered);
    let w1 = chars_of("cancel");
    let w2 = chars_of("decline");
    let w3 = chars_of("no");
    let w4 = chars_of("stop");
    contains_text(l.as_slice(), w1.as_slice()) || contains_text(l.as_slice(), w2.as_slice())
        || contains_text(l.as_slice(), w3.as_slice()) || contains_text(l.as_slice(), w4.as_slice())
}

/// The first option whose lower-cased value reads as declining.
pub open spec fn pick_decline(opts: Seq<Seq<char>>) -> Option<Seq<char>>
    decreases opts.len(),
{
    if opts.len() == 0 {
        None
    } else if decline_words(lowercase(opts[0])) {
        Some(opts[0])
    } else {
        pick_decline(opts.drop_first())
    }
}

/// The response sent when a dialog is declined on timeout: the first
/// declining option, or "cancelled".
pub open spec fn spec_decline_response(opts: Option<Seq<Seq<char>>>) -> Seq<char> {
    match opts {
        Some(o) => match pick_decline(o) {
            Some(v) => v,
            None => "cancelled"@,
        },
        None => "cancelled"@,
    }
}

proof fn lemma_pick_decline_skip(opts: Seq<Seq<char>>, i: int)
    requires
        0 <= i < opts.len(),
        !decline_words(lowercase(opts[i])),
    ensures
        pick_decline(opts.skip(i)) == pick_decline(opts.skip(i + 1)),
{
    assert(opts.skip(i).drop_first() =~= opts.skip(i + 1));
}

/// An option reads as declining exactly when its lower-cased value
/// contains one of the words "cancel", "decline", "no" or "stop".
pub proof fn lemma_declining_words(lowered: Seq<char>)
    ensures
        decline_words(lowered) <==> (has_sub(lowered, "cancel"@) || has_sub(lowered, "decline"@)
            || has_sub(lowered, "no"@) || has_sub(lowered, "stop"@)),
{
}

/// Declining answers with the first option whose lower-cased value holds
/// "cancel", "decline", "no" or "stop", whatever follows it.
pub proof fn lemma_decline_response_first(opts: Seq<Seq<char>>, i: int)
    requires
        0 <= i < opts.len(),
        has_sub(lowercase(opts[i]), "cancel"@) || has_sub(lowercase(opts[i]), "decline"@)
            || has_sub(lowercase(opts[i]), "no"@) || has_sub(lowercase(opts[i]), "stop"@),
        forall|j: int| 0 <= j < i ==> !(#[trigger] has_sub(lowercase(opts[j]), "cancel"@))
            && !has_sub(lowercase(opts[j]), "decline"@) && !has_sub(lowercase(opts[j]), "no"@)
            && !has_sub(lowercase(opts[j]), "stop"@),
    ensures
        spec_decline_response(Some(opts)) == opts[i],
    decreases i,
{
    if i > 0 {
        assert(!has_sub(lowercase(opts[0]), "cancel"@));
        let rest = opts.drop_first();
        assert forall|j: int| 0 <= j < i - 1 implies !(#[trigger] has_sub(lowercase(rest[j]), "cancel"@))
            && !has_sub(lowercase(rest[j]), "decline"@) && !has_sub(lowercase(rest[j]), "no"@)
            && !has_sub(lowercase(rest[j]), "stop"@) by {
            assert(rest[j] == opts[j + 1]);
            assert(!has_sub(lowercase(opts[j + 1]), "cancel"@));
        }
        lemma_decline_response_first(rest, i - 1);
    }
}

/// With no option that reads as declining (or no options at all), the
/// answer is "cancelled".
pub proof fn lemma_decline_response_cancelled(opts: Seq<Seq<char>>)
    requires
        forall|j: int| 0 <= j < opts.len() ==> !(#[trigger] has_sub(lowercase(opts[j]), "cancel"@))
            && !has_sub(lowercase(opts[j]), "decline"@) && !has_sub(lowercase(opts[j]), "no"@)
            && !has_sub(lowercase(opts[j]), "stop"@),
    ensures
        spec_decline_response(Some(opts)) == "cancelled"@,
        spec_decline_response(None) == "cancelled"@,
    decreases opts.len(),
{
    if opts.len() > 0 {
        assert(!has_sub(lowercase(opts[0]), "cancel"@));
        let rest = opts.drop_first();
        assert forall|j: int| 0 <= j < rest.len() implies !(#[trigger] has_sub(lowercase(rest[j]), "cancel"@))
            && !has_sub(lowercase(rest[j]), "decline"@) && !has_sub(lowercase(rest[j]), "no"@)
            && !has_sub(lowercase(rest[j]), "stop"@) by {
            assert(rest[j] == opts[j + 1]);
            assert(!has_sub(lowercase(opts[j + 1]), "cancel"@));
        }
        lemma_decline_response_cancelled(rest);
    }
}

/// Chooses the option value to answer with when declining a dialog.
pub fn decline_response(options: Option<&[String]>) -> (r: String)
    ensures
        r@ == spec_decline_response(match options { Some(o) => Some(texts(o@)), None => None }),
{
    match options {
        Some(opts) => {
            let ghost o = texts(opts@);
            let mut i: usize = 0;
            assert(o.skip(0) =~= o);
            while i < opts.len()
                invariant
                    i <= opts@.len(),
                    options == Some(opts),
                    o == texts(opts@),
                    pick_decline(o.skip(i as int)) == pick_decline(o),
                decreases opts@.len() - i,
            {
                let lowered = to_lowercase(opts[i].as_str());
                if is_decline_text(lowered.as_str()) {
                    proof {
                        assert(o.skip(i as int)[0] == opts@[i as int]@);
                        assert(o.skip(i as int).len() > 0);
                        assert(pick_decline(o.skip(i as int)) == Some(opts@[i as int]@));
                    }
                    let chosen = opts[i].clone();
                    return chosen;
                }
                proof {
                    lemma_pick_decline_skip(o, i as int);
                }
                i = i + 1;
            }
            proof {
                assert(o.skip(i as int) =~= Seq::<Seq<char>>::empty());
            }
            String::from_str("cancelled")
        },
        None => String::from_str("cancelled"),
    }
}

} // verus!
