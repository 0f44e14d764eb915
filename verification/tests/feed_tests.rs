use continuum_studio_iced::feed::{
    hold_toggle_result, shown_entries, ActivityFeed, Coordinator, CoordinatorMsg, CoordinatorRequest,
    DialogDaemon, DialogMsg, FeedMsg, FeedRequest, MAX_FEED_ENTRIES, MAX_SHOWN_ENTRIES,
};

type Feed = ActivityFeed<u32, u32, String>;

#[test]
fn feed_keeps_newest_first_and_bounded() {
    let mut f: Feed = ActivityFeed::new(0);
    for i in 0..250u32 {
        f.handle(FeedMsg::EntryAdded(i));
    }
    assert_eq!(f.entries.len(), MAX_FEED_ENTRIES);
    assert_eq!(f.entries[0], 249);
    assert_eq!(f.entries[199], 50);
    f.handle(FeedMsg::InitialState { entries: (0..300).collect(), stats: 9 });
    assert_eq!(f.entries.len(), 300);
    f.handle(FeedMsg::EntryAdded(1000));
    assert_eq!(f.entries.len(), MAX_FEED_ENTRIES);
    assert_eq!(f.entries[0], 1000);
    assert_eq!(f.entries[1], 0);
}

#[test]
fn feed_messages() {
    let mut f: Feed = ActivityFeed::new(1);
    f.handle(FeedMsg::Connected);
    assert!(f.connected);
    f.handle(FeedMsg::ToggleEntry("e1".to_string()));
    assert_eq!(f.expanded.as_deref(), Some("e1"));
    f.handle(FeedMsg::ToggleEntry("e1".to_string()));
    assert!(f.expanded.is_none());
    f.handle(FeedMsg::SetSourceFilter(Some("git".to_string())));
    assert_eq!(f.source_filter.as_deref(), Some("git"));
    assert_eq!(f.handle(FeedMsg::TriggerGitPoll), Some(FeedRequest::GitPoll));
    assert_eq!(f.handle(FeedMsg::RefreshStats), Some(FeedRequest::FetchStats));
    f.handle(FeedMsg::StatsRefreshed(Err("x".to_string())));
    assert_eq!(f.stats, 1);
    f.handle(FeedMsg::StatsRefreshed(Ok(5)));
    assert_eq!(f.stats, 5);
    f.handle(FeedMsg::Disconnected);
    assert!(!f.connected);
}

#[test]
fn coordinator_messages() {
    let mut c: Coordinator<String, String> = Coordinator::new();
    c.handle(CoordinatorMsg::AgentsLoaded(Ok(vec!["a".to_string()])));
    c.handle(CoordinatorMsg::AgentsLoaded(Err("down".to_string())));
    assert_eq!(c.agents.len(), 1);
    c.handle(CoordinatorMsg::SelectAgent("a".to_string()));
    assert_eq!(c.selected.as_deref(), Some("a"));
    c.handle(CoordinatorMsg::DeselectAgent);
    assert!(c.selected.is_none());
    let r = c.handle(CoordinatorMsg::Refresh);
    assert!(matches!(r.as_slice(), [CoordinatorRequest::ListAgents, CoordinatorRequest::GetConflicts]));
    match c.handle(CoordinatorMsg::ResolveConflict("k".to_string())).as_slice() {
        [CoordinatorRequest::ResolveConflict { conflict_id, resolution }] => {
            assert_eq!(conflict_id, "k");
            assert_eq!(resolution, "Resolved via UI");
        },
        other => panic!("unexpected {:?}", other),
    }
    let r = c.handle(CoordinatorMsg::ConflictResolved(Err("lost".to_string())));
    assert!(matches!(r.as_slice(),
        [CoordinatorRequest::ReportError(e), CoordinatorRequest::ListAgents, CoordinatorRequest::GetConflicts] if e == "lost"));
    let r = c.handle(CoordinatorMsg::ConflictResolved(Ok(())));
    assert_eq!(r.len(), 2);
}

#[test]
fn dialog_daemon() {
    let mut d = DialogDaemon::new();
    assert!(!d.handle(DialogMsg::DaemonConnected(true)));
    assert!(d.connected);
    assert!(d.handle(DialogMsg::ToggleHoldMode));
    assert!(!d.hold_mode);
    let m = hold_toggle_result(Some(true));
    d.handle(m);
    assert!(d.hold_mode);
    assert!(matches!(hold_toggle_result(None), DialogMsg::Error(e) if e == "Failed to toggle hold mode"));
}

#[test]
fn feed_source_filter() {
    let sources = vec![1u32, 2, 1, 3, 1];
    assert_eq!(shown_entries(&sources, None), vec![0, 1, 2, 3, 4]);
    assert_eq!(shown_entries(&sources, Some(1)), vec![0, 2, 4]);
    assert_eq!(shown_entries(&sources, Some(3)), vec![3]);
    assert!(shown_entries(&sources, Some(9)).is_empty());
    let many: Vec<u32> = (0..250).map(|i| i % 2).collect();
    let all = shown_entries(&many, None);
    assert_eq!(all.len(), MAX_SHOWN_ENTRIES);
    assert_eq!(all[99], 99);
    let odd = shown_entries(&many, Some(1));
    assert_eq!(odd.len(), 100);
    assert_eq!(odd[0], 1);
    assert_eq!(odd[99], 199);
}
