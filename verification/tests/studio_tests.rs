use continuum_studio_iced::studio::{
    appimage_file_name, du_size, busctl_payload, cleanup_flags, decline_response, default_window_size, format_bytes,
    format_feed_timestamp, get_version_era, is_decline_text, is_supported_era,
    is_supported_version, shortcut_command, shortcut_for_key, sort_usage_by_total,
    subscription_plan, toast_timer, total_disk_usage, BusctlPayload, CleanupMode, CursorTab, KeyboardShortcut,
    MainView, NavFollowUp, Navigation, OrchestratorCommand, OrchestratorMode, StorageSelection,
    TaskQueueLayout, ToastLevel, ToastTimer, VersionDiskUsage, WindowRegistry, WindowType,
};

fn float_size(bytes: u64) -> String {
    if bytes < 1024 {
        format!("{} B", bytes)
    } else if bytes < 1024 * 1024 {
        format!("{:.1} KB", bytes as f64 / 1024.0)
    } else if bytes < 1024 * 1024 * 1024 {
        format!("{:.1} MB", bytes as f64 / (1024.0 * 1024.0))
    } else {
        format!("{:.2} GB", bytes as f64 / (1024.0 * 1024.0 * 1024.0))
    }
}

#[test]
fn size_formatting() {
    assert_eq!(format_bytes(0), "0 B");
    assert_eq!(format_bytes(1023), "1023 B");
    assert_eq!(format_bytes(1536), "1.5 KB");
    assert_eq!(format_bytes(1610612736), "1.50 GB");
    assert_eq!(format_bytes(5 * 1024 * 1024), "5.0 MB");
}

#[test]
fn size_formatting_matches_floats() {
    let mut samples: Vec<u64> = vec![u64::MAX, (1 << 53) + 1, 1 << 62, 1073741824 + 5368709, 1288490189];
    for k in 0..4000u64 {
        samples.push(k * 37);
        samples.push(1048576 + k * 7919);
        samples.push(1073741824 + k * 10737419);
        samples.push(k * 268435455);
    }
    for b in samples {
        assert_eq!(format_bytes(b), float_size(b), "bytes = {}", b);
    }
}

#[test]
fn versions_and_eras() {
    assert!(is_supported_version("2.1.0"));
    assert!(is_supported_version("2.4.27"));
    assert!(is_supported_version("3.0"));
    assert!(!is_supported_version("2.0.77"));
    assert!(!is_supported_version("1.9"));
    assert!(!is_supported_version("garbage"));
    assert!(!is_supported_version("2"));
    assert!(is_supported_era("2.4.x"));
    assert!(!is_supported_era("0.50.x"));
    assert!(is_supported_version("+2.+1"));
    assert_eq!(get_version_era("2.4.27"), "2.4.x");
    assert_eq!(get_version_era("2.4"), "2.4.x");
    assert_eq!(get_version_era("nightly"), "nightly");
    assert_eq!(get_version_era("a.b.c.d"), "a.b.x");
}

#[test]
fn feed_timestamps() {
    assert_eq!(format_feed_timestamp("2024-01-15T10:30:45.123Z"), "10:30:45");
    assert_eq!(format_feed_timestamp("2024-01-15T10:30:45Z"), "10:30:45");
    assert_eq!(format_feed_timestamp("2024-01-15T10:30:45"), "10:30:45");
    assert_eq!(format_feed_timestamp("10:30"), "10:30");
}

#[test]
fn labels_and_icons() {
    assert_eq!(ToastLevel::Success.icon(), "\u{2713}");
    assert_eq!(ToastLevel::Error.icon(), "\u{2715}");
    assert_eq!(TaskQueueLayout::SideBySide.label(), "Side-by-Side");
    assert_eq!(TaskQueueLayout::ThreeColumn.label(), "Three Column");
    assert_eq!(TaskQueueLayout::Stacked.icon(), "\u{2B13}");
}

#[test]
fn navigation_follow_ups() {
    let mut n = Navigation::new();
    assert_eq!(n.current_view, MainView::Dashboard);
    assert_eq!(n.navigate_to(MainView::ChatPipeline, false), NavFollowUp::RefreshChatPipeline);
    assert_eq!(n.navigate_to(MainView::ChatPipeline, true), NavFollowUp::Nothing);
    assert_eq!(n.navigate_to(MainView::Cursor, false), NavFollowUp::Nothing);
    assert_eq!(n.change_tab(CursorTab::SubAgents, false), NavFollowUp::RefreshSubagents);
    assert_eq!(n.change_tab(CursorTab::ParkedAgents, true), NavFollowUp::RefreshParkedAgents);
    assert_eq!(n.change_tab(CursorTab::CLIAgents, false), NavFollowUp::LoadCliPresets);
    assert_eq!(n.change_tab(CursorTab::CLIAgents, true), NavFollowUp::Nothing);
    assert!(n.on_tab(CursorTab::CLIAgents));
    let p = subscription_plan(&n, true, false);
    assert!(p.cli_agents && p.dialog_polling);
    assert!(!p.orchestrator_ws && !p.triage_timeouts && !p.coordinator_poll && !p.toast_timeout);
}

#[test]
fn shortcuts() {
    assert_eq!(shortcut_for_key(true, "1"), Some(KeyboardShortcut::SetModeUserActive));
    assert_eq!(shortcut_for_key(true, "z"), Some(KeyboardShortcut::UndoDecision));
    assert_eq!(shortcut_for_key(false, "1"), None);
    assert_eq!(shortcut_for_key(true, "12"), None);
    let mut n = Navigation::new();
    assert_eq!(shortcut_command(&n, KeyboardShortcut::ToggleHistory), None);
    n.navigate_to(MainView::Cursor, true);
    n.change_tab(CursorTab::Orchestrator, true);
    assert_eq!(
        shortcut_command(&n, KeyboardShortcut::SetModeSpectator),
        Some(OrchestratorCommand::RequestModeChange(OrchestratorMode::Spectator))
    );
    assert_eq!(
        shortcut_command(&n, KeyboardShortcut::SetModeUserActive),
        Some(OrchestratorCommand::SetMode(OrchestratorMode::UserActive))
    );
    let p = subscription_plan(&n, true, true);
    assert!(p.orchestrator_ws && p.triage_timeouts && p.dialog_polling && p.toast_timeout);
}

#[test]
fn toast_timers() {
    assert_eq!(toast_timer(0), ToastTimer::DismissAfter(3_000_000_000));
    assert_eq!(toast_timer(2_999_999_999), ToastTimer::DismissAfter(1));
    assert_eq!(toast_timer(3_000_000_000), ToastTimer::DismissNow);
}

#[test]
fn window_registry() {
    assert_eq!(default_window_size(WindowType::TaskQueue), (400, 600));
    let mut r: WindowRegistry<f32> = WindowRegistry::new();
    r.window_opened(10, WindowType::TaskQueue, 0.5);
    r.window_opened(3, WindowType::Main, 0.5);
    r.window_opened(7, WindowType::Main, 0.5);
    r.window_opened(5, WindowType::TaskQueue, 0.5);
    assert_eq!(r.main_window_id(), Some(3));
    assert_eq!(r.first_of_type(WindowType::TaskQueue), Some(5));
    assert_eq!(r.first_of_type(WindowType::DialogPanel), None);
    assert_eq!(r.window_title(10), "Task Queue");
    assert_eq!(r.window_title(3), "Continuum Studio");
    r.toggle_split_orientation(10);
    r.set_split_ratio(10, 0.25);
    assert!(!r.window_closed(10));
    assert_eq!(r.first_of_type(WindowType::TaskQueue), Some(5));
    assert!(r.window_closed(3));
}

fn usage(v: &str, total: u64, running: bool) -> VersionDiskUsage {
    VersionDiskUsage::measure(v.to_string(), total, 0, 0, false, false, None, running)
}

#[test]
fn storage_usage_and_sorting() {
    let u = VersionDiskUsage::measure("2.4.1".to_string(), 100, 50, 80, true, true, None, false);
    assert_eq!(u.data_dir_size, 0);
    assert_eq!(u.total_size, 150);
    let u = VersionDiskUsage::measure("2.4.1".to_string(), 100, 80, 50, true, true, None, false);
    assert_eq!(u.data_dir_size, 30);
    let sorted = sort_usage_by_total(vec![
        usage("a", 5, false),
        usage("b", 9, false),
        usage("c", 5, false),
        usage("d", 1, false),
        usage("e", 9, false),
    ]);
    let names: Vec<&str> = sorted.iter().map(|u| u.version.as_str()).collect();
    assert_eq!(names, vec!["b", "e", "a", "c", "d"]);
    assert_eq!(cleanup_flags(CleanupMode::AppImageOnly), (false, false));
    assert_eq!(cleanup_flags(CleanupMode::AppImageAndData), (true, false));
    assert_eq!(cleanup_flags(CleanupMode::KeepAuth), (true, true));
}

#[test]
fn storage_selection() {
    let mut s = StorageSelection::new();
    assert_eq!(s.cleanup_request(), None);
    s.toggle("2.1".to_string());
    s.toggle("2.2".to_string());
    assert!(s.contains("2.1"));
    s.toggle("2.1".to_string());
    assert!(!s.contains("2.1"));
    s.select_all(&[usage("2.2", 1, false), usage("2.3", 1, true), usage("2.4", 1, false)]);
    assert!(s.contains("2.2") && s.contains("2.4") && !s.contains("2.3"));
    let req = s.cleanup_request().unwrap();
    assert_eq!(req.len(), 2);
    s.deselect_all();
    assert_eq!(s.cleanup_request(), None);
}

#[test]
fn busctl_replies() {
    match busctl_payload("s \"{\\\"a\\\":1}\"") {
        BusctlPayload::Json(t) => assert_eq!(t, "{\"a\":1}"),
        other => panic!("unexpected {:?}", other),
    }
    match busctl_payload("s \"a\\\\\\\\b\"") {
        BusctlPayload::Json(t) => assert_eq!(t, "a\\\\b"),
        other => panic!("unexpected {:?}", other),
    }
    assert!(matches!(busctl_payload("no quotes"), BusctlPayload::NoQuotes));
    assert!(matches!(busctl_payload("one \" quote"), BusctlPayload::Empty));
}

#[test]
fn decline_choice() {
    assert!(is_decline_text("no thanks"));
    assert!(!is_decline_text("yes"));
    let opts = vec!["Approve".to_string(), "Cancel it".to_string(), "No".to_string()];
    assert_eq!(decline_response(Some(&opts)), "Cancel it");
    let opts = vec!["Approve".to_string(), "NO".to_string()];
    assert_eq!(decline_response(Some(&opts)), "NO");
    let opts = vec!["Approve".to_string()];
    assert_eq!(decline_response(Some(&opts)), "cancelled");
    assert_eq!(decline_response(None), "cancelled");
}

#[test]
fn du_output_and_file_names() {
    assert_eq!(du_size("123456\t/home/u/.cursor-2.4.1\n"), 123456);
    assert_eq!(du_size(" 42 \t/x"), 42);
    assert_eq!(du_size("+7\tx"), 7);
    assert_eq!(du_size("du: cannot access"), 0);
    assert_eq!(du_size(""), 0);
    assert_eq!(du_size("99999999999999999999\tx"), 0);
    assert_eq!(du_size("17"), 17);
    assert_eq!(appimage_file_name("2.4.1"), "Cursor-2.4.1-x86_64.AppImage");
}

#[test]
fn toggling_twice_restores_the_selection() {
    let mut s = StorageSelection::new();
    s.toggle("2.1".to_string());
    s.toggle("2.3".to_string());
    let before = s.cleanup_request();
    s.toggle("2.2".to_string());
    assert!(s.contains("2.2"));
    s.toggle("2.2".to_string());
    assert!(!s.contains("2.2"));
    assert_eq!(s.cleanup_request(), before);
    s.toggle("2.1".to_string());
    assert!(!s.contains("2.1") && s.contains("2.3"));
    s.toggle("2.1".to_string());
    assert!(s.contains("2.1") && s.contains("2.3"));
}

#[test]
fn era_laws_on_examples() {
    for v in ["2.4.27", "2.0.9", "3.1", "2", "", "abc.def.ghi", "2.1.x", "10.0.1.5"] {
        let era = get_version_era(v);
        assert_eq!(is_supported_era(&era), is_supported_version(v));
        assert_eq!(get_version_era(&era), era);
    }
    assert_eq!(get_version_era("2.4.27"), "2.4.x");
    assert!(is_supported_era("2.4.x"));
    assert!(!is_supported_era("2.0.x"));
}

#[test]
fn storage_totals() {
    let us = vec![usage("2.1", 100, false), usage("2.2", 250, false), usage("2.3", 7, true)];
    assert_eq!(total_disk_usage(&us), 357);
    assert_eq!(total_disk_usage(&[]), 0);
    let mut s = StorageSelection::new();
    assert_eq!(s.selected_size(&us), 0);
    s.toggle("2.2".to_string());
    s.toggle("2.3".to_string());
    s.toggle("9.9".to_string());
    assert_eq!(s.selected_size(&us), 257);
}
