use continuum_studio_iced::chat_pipeline::{
    export_save_path, health_ok, ingest_summary, ChatData, ChatPipeline, ChatPipelineMsg, ChatRequest, ChatSubView,
    Conversation, ExportMode, TrainingExportDone,
};

#[derive(Debug)]
struct Data;

impl ChatData for Data {
    type Stats = u32;
    type Conversation = String;
    type Detail = String;
    type Topic = String;
    type SearchResult = String;
    type Locations = Vec<String>;
    type Export = String;
    type Watcher = bool;
    type ExportFormat = u8;
    type TrainingFormat = u8;
    type Sanitization = (bool, bool);
    type Augmentation = u16;
    type Quality = f64;
    type TrainingStats = u32;
    type TrainingSample = String;
    type TrainingExport = String;
}

type Msg = ChatPipelineMsg<Data>;

fn pipeline() -> ChatPipeline<Data> {
    ChatPipeline::new(0, 0, (true, false), 3)
}

fn conv(id: &str) -> Conversation<String> {
    Conversation { id: id.to_string(), data: format!("about {}", id) }
}

#[test]
fn sub_views_load_what_they_show() {
    let mut p = pipeline();
    let r = p.handle(Msg::SwitchSubView(ChatSubView::Scanner));
    assert!(matches!(r.as_slice(), [ChatRequest::FetchLocations]));
    assert!(p.loading);
    p.handle(Msg::LocationsLoaded(Ok(vec!["/home".to_string()])));
    assert!(!p.loading);
    assert!(p.handle(Msg::SwitchSubView(ChatSubView::Scanner)).is_empty());
    assert!(!p.loading);
    let r = p.handle(Msg::SwitchSubView(ChatSubView::Conversations));
    assert!(matches!(r.as_slice(), [ChatRequest::FetchConversations { limit: 100 }]));
    assert!(p.handle(Msg::SwitchSubView(ChatSubView::Dashboard)).is_empty());
    assert_eq!(p.sub_view, ChatSubView::Dashboard);
}

#[test]
fn load_failures_are_reported() {
    let mut p = pipeline();
    p.handle(Msg::RefreshAll);
    assert!(p.loading);
    p.handle(Msg::StatsLoaded(Err("timeout".to_string())));
    assert_eq!(p.error.as_deref(), Some("Failed to load stats: timeout"));
    assert!(!p.loading);
    p.handle(Msg::HealthChecked(Err("refused".to_string())));
    assert_eq!(p.error.as_deref(), Some("API unavailable: refused"));
    assert!(!p.api_available);
    p.handle(Msg::ClearError);
    assert!(p.error.is_none());
    p.handle(Msg::StatsLoaded(Ok(7)));
    assert_eq!(p.stats, Some(7));
    assert!(p.api_available);
    p.handle(Msg::SearchCompleted(Err("bad".to_string())));
    assert_eq!(p.error.as_deref(), Some("Search failed: bad"));
}

#[test]
fn refresh_all_requests() {
    let mut p = pipeline();
    p.error = Some("old".to_string());
    let r = p.handle(Msg::RefreshAll);
    assert!(matches!(r.as_slice(),
        [ChatRequest::FetchStats, ChatRequest::FetchHealth, ChatRequest::FetchConversations { limit: 100 }]));
    assert!(p.error.is_none());
}

#[test]
fn search_needs_a_query() {
    let mut p = pipeline();
    assert!(p.handle(Msg::DoSearch).is_empty());
    p.handle(Msg::SearchQueryChanged(" ".to_string()));
    let r = p.handle(Msg::DoSearch);
    match r.as_slice() {
        [ChatRequest::Search { query, mode }] => {
            assert_eq!(query, " ");
            assert_eq!(mode, "hybrid");
        },
        other => panic!("unexpected {:?}", other),
    }
}

#[test]
fn conversations_and_expansion() {
    let mut p = pipeline();
    p.handle(Msg::ToggleMessageExpand(3));
    p.handle(Msg::ToggleMessageExpand(5));
    p.handle(Msg::ToggleMessageExpand(3));
    assert_eq!(p.expanded_messages, vec![5]);
    let r = p.handle(Msg::SelectConversation("c1".to_string()));
    assert!(matches!(r.as_slice(), [ChatRequest::FetchConversation { id }] if id == "c1"));
    assert!(p.expanded_messages.is_empty());
    p.handle(Msg::ConversationLoaded(Ok("detail".to_string())));
    p.handle(Msg::ToggleShowFull);
    assert!(p.show_full_conversation);
    p.handle(Msg::ToggleMessageExpand(1));
    p.handle(Msg::ToggleShowFull);
    assert!(!p.show_full_conversation);
    assert!(p.expanded_messages.is_empty());
    p.handle(Msg::BackToList);
    assert!(p.selected_conversation.is_none());
}

#[test]
fn actions_report_and_refresh() {
    let mut p = pipeline();
    p.last_action_result = Some("x".to_string());
    let r = p.handle(Msg::DoBatchIngest);
    assert!(matches!(r.as_slice(), [ChatRequest::BatchIngest]));
    assert!(p.last_action_result.is_none());
    let r = p.handle(Msg::BatchIngestDone(Ok(ingest_summary(3, 2, 1))));
    assert!(matches!(r.as_slice(), [ChatRequest::FetchStats]));
    assert_eq!(p.last_action_result.as_deref(), Some("Batch ingest: Imported: 3, Summarized: 2, Topics: 1"));
    let r = p.handle(Msg::BatchIngestDone(Err("disk".to_string())));
    assert!(matches!(r.as_slice(), [ChatRequest::FetchStats]));
    assert_eq!(p.error.as_deref(), Some("Batch ingest failed: disk"));
    let r = p.handle(Msg::ClusterDone(Ok("5".to_string())));
    assert!(matches!(r.as_slice(), [ChatRequest::FetchStats, ChatRequest::FetchTopics]));
    assert_eq!(p.last_action_result.as_deref(), Some("5"));
    p.handle(Msg::SummarizeDone(Err("nope".to_string())));
    assert_eq!(p.error.as_deref(), Some("nope"));
    let r = p.handle(Msg::WatcherScanDone(Ok("Scan triggered".to_string())));
    assert!(matches!(r.as_slice(), [ChatRequest::FetchWatcherStatus]));
    let r = p.handle(Msg::PipelineProcessDone(Ok("Processing started".to_string())));
    assert!(matches!(r.as_slice(), [ChatRequest::FetchWatcherStatus, ChatRequest::FetchStats]));
    let r = p.handle(Msg::PipelineProcessDone(Err("x".to_string())));
    assert!(r.is_empty());
    assert_eq!(p.error.as_deref(), Some("Processing failed: x"));
}

#[test]
fn export_flow() {
    let mut p = pipeline();
    p.handle(Msg::ConversationsLoaded(Ok(vec![conv("a"), conv("b"), conv("a")])));
    assert!(p.handle(Msg::ExportSelected).is_empty());
    p.handle(Msg::ToggleExportSelect("b".to_string()));
    p.handle(Msg::SelectAllForExport);
    assert_eq!(p.export_selected.len(), 2);
    p.handle(Msg::SetExportFormat(4));
    let r = p.handle(Msg::ExportSelected);
    assert!(matches!(r.as_slice(), [ChatRequest::ExportConversation { id, format: 4 }] if id == "b"));
    assert!(p.exporting);
    assert!(p.handle(Msg::SaveExportToFile).is_empty());
    p.handle(Msg::ExportCompleted(Ok("content".to_string())));
    assert!(!p.exporting);
    assert_eq!(p.last_action_result.as_deref(), Some("Export completed"));
    assert!(matches!(p.handle(Msg::SaveExportToFile).as_slice(), [ChatRequest::SaveExport]));
    p.handle(Msg::ExportSaved(Ok("/tmp/x.md".to_string())));
    assert_eq!(p.last_action_result.as_deref(), Some("Saved to /tmp/x.md"));
    p.handle(Msg::ExportSaved(Err("denied".to_string())));
    assert_eq!(p.error.as_deref(), Some("Save failed: denied"));
    assert!(matches!(p.handle(Msg::CopyExportToClipboard).as_slice(), [ChatRequest::CopyExport]));
    assert_eq!(p.last_action_result.as_deref(), Some("Copied to clipboard"));
    p.handle(Msg::ClearExportResult);
    assert!(p.handle(Msg::CopyExportToClipboard).is_empty());
    p.handle(Msg::ToggleExportSelect("b".to_string()));
    assert_eq!(p.export_selected, vec!["a".to_string()]);
    p.handle(Msg::DeselectAllForExport);
    assert!(p.export_selected.is_empty());
    p.handle(Msg::ExportCompleted(Err("bad".to_string())));
    assert_eq!(p.error.as_deref(), Some("Export failed: bad"));
}

#[test]
fn training_export() {
    let mut p = pipeline();
    p.handle(Msg::SwitchExportMode(ExportMode::Training));
    p.handle(Msg::ToggleTrainingHasCode);
    p.handle(Msg::SetTrainingMinTurns(4));
    p.handle(Msg::SetTrainingMinQuality(0.5));
    let r = p.handle(Msg::FetchTrainingStats);
    match r.as_slice() {
        [ChatRequest::FetchTrainingStats { filters }] => {
            assert!(filters.has_code && !filters.agentic_only);
            assert_eq!(filters.min_turns, Some(4));
            assert_eq!(filters.min_quality_score, Some(0.5));
        },
        other => panic!("unexpected {:?}", other),
    }
    assert!(p.training.loading_preview);
    p.handle(Msg::TrainingStatsLoaded(Ok(12)));
    assert_eq!(p.training.preview_stats, Some(12));
    let r = p.handle(Msg::FetchTrainingSamples);
    assert!(matches!(r.as_slice(), [ChatRequest::FetchTrainingSamples { count: 5, .. }]));
    p.handle(Msg::TrainingSamplesLoaded(Err("x".to_string())));
    assert_eq!(p.error.as_deref(), Some("Failed to load samples: x"));
    p.handle(Msg::SetTrainingFormat(2));
    match p.handle(Msg::RunTrainingExport).as_slice() {
        [ChatRequest::RunTrainingExport { format, filters, sanitization, augmentation, system_prompt }] => {
            assert_eq!(*format, 2);
            assert_eq!(filters.min_quality_score, Some(0.5));
            assert_eq!(*sanitization, (true, false));
            assert_eq!(*augmentation, 3);
            assert!(system_prompt.is_none());
        },
        other => panic!("unexpected {:?}", other),
    }
    p.training.system_prompt = "Be brief".to_string();
    assert!(matches!(p.handle(Msg::RunTrainingExport).as_slice(),
        [ChatRequest::RunTrainingExport { system_prompt: Some(s), .. }] if s == "Be brief"));
    p.handle(Msg::TrainingExportComplete(Ok(TrainingExportDone {
        response: "done".to_string(),
        train_file: Some("train.jsonl".to_string()),
        val_file: None,
    })));
    assert!(!p.training.exporting);
    assert_eq!(p.last_action_result.as_deref(), Some("Export complete! Train: train.jsonl, Val: "));
    assert_eq!(p.training.last_export.as_deref(), Some("done"));
}

#[test]
fn helpers() {
    assert!(health_ok("ok"));
    assert!(!health_ok("degraded"));
    assert_eq!(ingest_summary(0, 10, 200), "Imported: 0, Summarized: 10, Topics: 200");
}

#[test]
fn export_save_paths() {
    assert_eq!(export_save_path(Some("/home/ana"), "chat.md"), "/home/ana/Downloads/chat.md");
    assert_eq!(export_save_path(None, "chat.md"), "./Downloads/chat.md");
}
