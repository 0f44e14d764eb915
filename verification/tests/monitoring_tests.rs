use continuum_studio_iced::monitoring::{
    assess_health, cpu_text_ok, format_bytes, parse_cpu_total, stat_text_ok, statm_text_ok, sums_fit, parse_proc_stat, parse_proc_statm, CpuLevel,
    HealthStatus, ProcStat, SessionCounts, SessionHistory, SessionMetrics, SessionMonitor,
    MAX_HISTORY_POINTS,
};

#[test]
fn test_format_bytes() {
    assert_eq!(format_bytes(500), "500 B");
    assert_eq!(format_bytes(1024), "1.0 KB");
    assert_eq!(format_bytes(1024 * 1024), "1.0 MB");
    assert_eq!(format_bytes(1024 * 1024 * 1024), "1.0 GB");
    assert_eq!(format_bytes(1536 * 1024 * 1024), "1.5 GB");
}

#[test]
fn test_health_assessment() {
    // CPU readings of 10, 60 and 95 percent fall in these levels.
    assert_eq!(assess_health(CpuLevel::Normal, 500 * 1024 * 1024, 20, 100), HealthStatus::Healthy);
    assert_eq!(assess_health(CpuLevel::Elevated, 500 * 1024 * 1024, 20, 100), HealthStatus::Warning);
    assert_eq!(assess_health(CpuLevel::Saturated, 500 * 1024 * 1024, 20, 100), HealthStatus::Critical);
}

fn float_format(bytes: u64) -> String {
    const KB: u64 = 1024;
    const MB: u64 = KB * 1024;
    const GB: u64 = MB * 1024;
    if bytes >= GB {
        format!("{:.1} GB", bytes as f64 / GB as f64)
    } else if bytes >= MB {
        format!("{:.1} MB", bytes as f64 / MB as f64)
    } else if bytes >= KB {
        format!("{:.1} KB", bytes as f64 / KB as f64)
    } else {
        format!("{} B", bytes)
    }
}

#[test]
fn format_bytes_matches_float_formatting() {
    let mut samples: Vec<u64> = vec![
        0, 1, 1023, 1024, 1075, 1076, 1127, 1280, 1331, 1536, 10239, 10240, 1048575, 1048576,
        1310720, 1101004, 1153433, 1073741823, 1073741824, 1127428915, 1181116006,
        1288490188, 1342177280, 5368709120, u64::MAX, u64::MAX - 1, 1 << 53, (1 << 53) + 1,
        (1 << 60) + 12345,
    ];
    for k in 0..4000u64 {
        samples.push(k * 53);
        samples.push(1048576 + k * 10487);
        samples.push(1073741824 + k * 53687091);
    }
    for b in samples {
        assert_eq!(format_bytes(b), float_format(b), "bytes = {}", b);
    }
}

#[test]
fn format_bytes_ties_round_to_even() {
    // 1280 bytes are exactly 1.25 KB.
    assert_eq!(format_bytes(1280), "1.2 KB");
    assert_eq!(format_bytes(1280), format!("{:.1} KB", 1.25f64));
    // 3.75 KB
    assert_eq!(format_bytes(3840), "3.8 KB");
}

#[test]
fn health_thresholds() {
    let gb: u64 = 1024 * 1024 * 1024;
    assert_eq!(assess_health(CpuLevel::Normal, 8 * gb, 100, 5000), HealthStatus::Warning);
    assert_eq!(assess_health(CpuLevel::Normal, 4 * gb, 100, 5000), HealthStatus::Healthy);
    assert_eq!(assess_health(CpuLevel::Normal, 8 * gb + 1, 0, 0), HealthStatus::Critical);
    assert_eq!(assess_health(CpuLevel::Normal, 0, 101, 0), HealthStatus::Warning);
    assert_eq!(assess_health(CpuLevel::Normal, 0, 0, 5001), HealthStatus::Warning);
    assert_eq!(assess_health(CpuLevel::Normal, 0, 0, 10001), HealthStatus::Critical);
    assert_eq!(HealthStatus::Critical.as_str(), "Critical");
    assert_eq!(HealthStatus::Unknown.as_str(), "Unknown");
}

#[test]
fn parses_proc_stat() {
    let text = "1234 (cursor (main)) S 1 1234 1234 0 -1 4194560 100 0 0 0 250 75 0 0 20 0 42 0 100 0 0";
    let st = parse_proc_stat(text).unwrap();
    assert_eq!(st.state, 'S');
    assert_eq!(st.utime, 250);
    assert_eq!(st.stime, 75);
    assert_eq!(st.num_threads, 42);
    assert!(parse_proc_stat("no parentheses here").is_none());
    assert!(parse_proc_stat("1 (x) S 1 2 3").is_none());
    let bad = "1 (x) R 1 2 3 4 5 6 7 8 9 10 abc 12 13 14 15 16 xyz 18 19";
    let st = parse_proc_stat(bad).unwrap();
    assert_eq!(st.state, 'R');
    assert_eq!(st.utime, 0);
    assert_eq!(st.stime, 12);
    assert_eq!(st.num_threads, 0);
}

#[test]
fn parses_proc_statm() {
    assert_eq!(parse_proc_statm("100 25 5 1 0 20 0\n"), Some((409600, 102400)));
    assert_eq!(parse_proc_statm("100"), None);
    assert_eq!(parse_proc_statm("x 25"), None);
    assert_eq!(parse_proc_statm("10 y"), None);
}

#[test]
fn parses_cpu_total() {
    let text = "cpu  10 20 30 40 50 60 70 80 90\ncpu0 1 2 3 4 5 6 7\n";
    assert_eq!(parse_cpu_total(text), Some(280));
    assert_eq!(parse_cpu_total("intr 1 2 3 4 5 6 7 8"), None);
    assert_eq!(parse_cpu_total("cpu 1 2 3"), None);
    assert_eq!(parse_cpu_total(""), None);
}

fn reading(pid: u32, t: u64, cpu: f32, level: CpuLevel, threads: u32, rss: u64) -> SessionMetrics<f32> {
    let stat = ProcStat { state: 'S', utime: 0, stime: 0, num_threads: threads };
    SessionMetrics::from_readings(pid, t, cpu, level, stat, rss * 2, rss, 10)
}

#[test]
fn metrics_from_readings() {
    let m = reading(7, 100, 12.5, CpuLevel::Normal, 30, 1536 * 1024 * 1024);
    assert_eq!(m.memory_human, "1.5 GB");
    assert_eq!(m.memory_bytes, 1536 * 1024 * 1024);
    assert_eq!(m.vsize_bytes, 2 * 1536 * 1024 * 1024);
    assert_eq!(m.health, HealthStatus::Healthy);
    assert_eq!(m.thread_count, 30);
    let m = reading(7, 100, 70.0, CpuLevel::Elevated, 30, 1024);
    assert_eq!(m.health, HealthStatus::Warning);
}

#[test]
fn history_keeps_last_readings() {
    let mut h: SessionHistory<f32> = SessionHistory::new(3);
    for i in 0..(MAX_HISTORY_POINTS as u64 + 5) {
        h.add_metrics(reading(3, i, i as f32, CpuLevel::Normal, 1, i));
    }
    assert_eq!(h.cpu_history.len(), MAX_HISTORY_POINTS);
    assert_eq!(h.timestamps.len(), MAX_HISTORY_POINTS);
    assert_eq!(h.memory_history.len(), MAX_HISTORY_POINTS);
    assert_eq!(*h.timestamps.front().unwrap(), 5);
    assert_eq!(*h.timestamps.back().unwrap(), MAX_HISTORY_POINTS as u64 + 4);
    assert_eq!(h.latest.as_ref().unwrap().timestamp, MAX_HISTORY_POINTS as u64 + 4);
}

#[test]
fn monitor_tick_deltas() {
    let mut m: SessionMonitor<f32> = SessionMonitor::new();
    m.update_system_ticks("cpu 100 0 0 0 0 0 0\n");
    assert_eq!(m.cpu_tick_delta(5, 10), None);
    m.update_system_ticks("cpu 300 0 0 0 0 0 0\n");
    assert_eq!(m.cpu_tick_delta(5, 60), Some((50, 200)));
    // no system progress
    assert_eq!(m.cpu_tick_delta(5, 70), None);
    // process ticks going backwards count as zero
    m.update_system_ticks("cpu 400 0 0 0 0 0 0\n");
    assert_eq!(m.cpu_tick_delta(5, 20), Some((0, 100)));
    // an unreadable text leaves the count unchanged
    m.update_system_ticks("garbage");
    assert_eq!(m.cpu_tick_delta(5, 30), None);
}

#[test]
fn monitor_records_and_cleans_up() {
    let mut m: SessionMonitor<f32> = SessionMonitor::new();
    m.record_metrics(reading(1, 1, 1.0, CpuLevel::Normal, 1, 1));
    m.record_metrics(reading(2, 1, 1.0, CpuLevel::Normal, 1, 1));
    m.record_metrics(reading(1, 2, 1.0, CpuLevel::Normal, 1, 1));
    assert_eq!(m.get_history(1).unwrap().cpu_history.len(), 2);
    assert_eq!(m.get_history(2).unwrap().cpu_history.len(), 1);
    assert_eq!(m.get_all_histories().len(), 2);
    m.cleanup_stale(&[2, 9]);
    assert!(m.get_history(1).is_none());
    assert!(m.get_history(2).is_some());
    assert_eq!(m.get_all_histories().len(), 1);
}

#[test]
fn session_counts() {
    let gb: u64 = 1024 * 1024 * 1024;
    let ms = vec![
        reading(1, 1, 1.0, CpuLevel::Normal, 10, 1),
        reading(2, 1, 1.0, CpuLevel::Elevated, 20, 1),
        reading(3, 1, 1.0, CpuLevel::Normal, 30, 9 * gb),
        reading(4, 1, 1.0, CpuLevel::Normal, 40, 1),
    ];
    let c = SessionCounts::from_metrics(&ms);
    assert_eq!(c.total_sessions, 4);
    assert_eq!(c.healthy_count, 2);
    assert_eq!(c.warning_count, 1);
    assert_eq!(c.critical_count, 1);
    assert_eq!(c.total_threads, 100);
    assert_eq!(c.total_fds, 40);
}

#[test]
fn session_counts_ignore_order() {
    let gb: u64 = 1024 * 1024 * 1024;
    let ms = vec![
        reading(1, 1, 1.0, CpuLevel::Normal, 10, 1),
        reading(2, 1, 1.0, CpuLevel::Elevated, 20, 1),
        reading(3, 1, 1.0, CpuLevel::Normal, 30, 9 * gb),
    ];
    let reordered = vec![
        reading(3, 1, 1.0, CpuLevel::Normal, 30, 9 * gb),
        reading(1, 1, 1.0, CpuLevel::Normal, 10, 1),
        reading(2, 1, 1.0, CpuLevel::Elevated, 20, 1),
    ];
    let a = SessionCounts::from_metrics(&ms);
    let b = SessionCounts::from_metrics(&reordered);
    assert_eq!(a.total_sessions, b.total_sessions);
    assert_eq!(a.healthy_count, b.healthy_count);
    assert_eq!(a.warning_count, b.warning_count);
    assert_eq!(a.critical_count, b.critical_count);
    assert_eq!(a.total_threads, b.total_threads);
    assert_eq!(a.total_fds, b.total_fds);
    assert_eq!(b.total_threads, 60);
}

#[test]
fn default_monitor_is_empty() {
    let m: SessionMonitor<f32> = SessionMonitor::default();
    assert!(m.get_history(1).is_none());
}

#[test]
fn proc_text_checks() {
    assert!(stat_text_ok("12 (bash) S 1 2 3"));
    assert!(stat_text_ok("no parentheses"));
    assert!(!stat_text_ok("12 (bash)"));
    assert!(!stat_text_ok("12 (bash)\u{e9}x"));
    assert!(statm_text_ok("10 20 0"));
    assert!(statm_text_ok("x y"));
    assert!(statm_text_ok("5"));
    assert!(!statm_text_ok("18446744073709551615 1"));
    assert!(!statm_text_ok("1 4503599627370496"));
    assert!(statm_text_ok("4503599627370495 1"));
    assert!(cpu_text_ok("cpu 1 2 3 4 5 6 7 8\n"));
    assert!(cpu_text_ok(""));
    assert!(cpu_text_ok("intr 1 2"));
    assert!(!cpu_text_ok("cpu 18446744073709551615 1 0 0 0 0 0 0\n"));
    assert!(cpu_text_ok("cpu 18446744073709551615 0 0 0 0 0 0 0\n"));
}

#[test]
fn sums_fit_checks_the_totals() {
    let ms = vec![
        reading(1, 1, 1.0, CpuLevel::Normal, 10, 1),
        reading(2, 1, 1.0, CpuLevel::Normal, 20, 1),
    ];
    assert!(sums_fit(&ms));
    let big = vec![
        reading(1, 1, 1.0, CpuLevel::Normal, u32::MAX, 1),
        reading(2, 1, 1.0, CpuLevel::Normal, 1, 1),
    ];
    assert!(!sums_fit(&big));
    let empty: Vec<SessionMetrics<f32>> = Vec::new();
    assert!(sums_fit(&empty));
}

#[test]
fn health_summary_text() {
    let gb: u64 = 1024 * 1024 * 1024;
    let none = SessionCounts::from_metrics(&[reading(1, 1, 1.0, CpuLevel::Normal, 10, 1)]);
    assert_eq!(none.health_summary(), "");
    let warn = SessionCounts::from_metrics(&[reading(1, 1, 1.0, CpuLevel::Elevated, 10, 1)]);
    assert_eq!(warn.health_summary(), "1 warning");
    let crit = SessionCounts::from_metrics(&[reading(1, 1, 1.0, CpuLevel::Normal, 10, 9 * gb)]);
    assert_eq!(crit.health_summary(), "1 critical");
    let both = SessionCounts::from_metrics(&[
        reading(1, 1, 1.0, CpuLevel::Elevated, 10, 1),
        reading(2, 1, 1.0, CpuLevel::Elevated, 10, 1),
        reading(3, 1, 1.0, CpuLevel::Normal, 10, 9 * gb),
    ]);
    assert_eq!(both.health_summary(), "2 warn, 1 crit");
}

#[test]
fn empty_counts_are_zero() {
    let c = SessionCounts::from_metrics::<f32>(&[]);
    assert_eq!(c.total_sessions, 0);
    assert_eq!(c.healthy_count + c.warning_count + c.critical_count, 0);
    assert_eq!(c.total_threads, 0);
    assert_eq!(c.total_fds, 0);
}
