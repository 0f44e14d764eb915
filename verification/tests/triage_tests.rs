use continuum_studio_iced::studio::OrchestratorMode;
use continuum_studio_iced::triage::{
    approve_selection, counts_after_undo, mode_fetch_result, process_triage_timeouts,
    timeout_reply, triage_reasoning, undo_prompt, undo_title, ExpiredDialog, HandledCounts, ModeAction, ModeMsg,
    ModePanel, PendingDialog, TriageState,
};

fn expired(id: &str, state: TriageState, response: &str, options: Option<Vec<&str>>) -> ExpiredDialog<u8> {
    ExpiredDialog {
        dialog_id: id.to_string(),
        state,
        response: response.to_string(),
        options: options.map(|o| o.into_iter().map(|s| s.to_string()).collect()),
        data: 0,
    }
}

fn pending(id: &str) -> PendingDialog<()> {
    PendingDialog { id: id.to_string(), data: () }
}

#[test]
fn timeout_replies() {
    let r = timeout_reply(&expired("d1", TriageState::AutoApprove, "yes", None), 4).unwrap();
    assert_eq!(r.index, 4);
    assert_eq!(r.response, "yes");
    assert_eq!(r.reasoning, "Auto-approved on triage timeout");
    assert_eq!(r.comment, "Auto-approved on timeout");
    let r = timeout_reply(&expired("d2", TriageState::AutoDecline, "yes", Some(vec!["Run", "Stop now"])), 0).unwrap();
    assert_eq!(r.response, "Stop now");
    assert_eq!(r.reasoning, "Auto-declined on triage timeout");
    assert_eq!(r.comment, "Auto-declined on timeout");
    let r = timeout_reply(&expired("d3", TriageState::AutoDecline, "yes", Some(vec!["Run"])), 0).unwrap();
    assert_eq!(r.response, "cancelled");
    assert!(timeout_reply(&expired("d4", TriageState::Manual, "yes", None), 0).is_none());
    assert!(timeout_reply(&expired("d5", TriageState::Paused, "yes", None), 0).is_none());
}

#[test]
fn processing_timeouts() {
    let list = vec![
        expired("a", TriageState::AutoApprove, "ok", None),
        expired("b", TriageState::Manual, "ok", None),
        expired("c", TriageState::AutoDecline, "ok", None),
    ];
    let mut p = vec![pending("a"), pending("b"), pending("c"), pending("a"), pending("z")];
    let mut handled: u64 = 10;
    let replies = process_triage_timeouts(&list, &mut p, &mut handled);
    assert_eq!(replies.len(), 2);
    assert_eq!(replies[0].index, 0);
    assert_eq!(replies[0].dialog_id, "a");
    assert_eq!(replies[1].index, 2);
    assert_eq!(replies[1].response, "cancelled");
    assert_eq!(handled, 12);
    let ids: Vec<&str> = p.iter().map(|d| d.id.as_str()).collect();
    assert_eq!(ids, vec!["b", "z"]);
    let none: Vec<ExpiredDialog<u8>> = Vec::new();
    assert!(process_triage_timeouts(&none, &mut p, &mut handled).is_empty());
    assert_eq!(handled, 12);
}

#[test]
fn approvals_and_undo() {
    let opts = vec!["first".to_string(), "second".to_string()];
    assert_eq!(approve_selection(Some("suggested"), Some(&opts)), "suggested");
    assert_eq!(approve_selection(None, Some(&opts)), "first");
    assert_eq!(approve_selection(None, Some(&[])), "continue");
    assert_eq!(approve_selection(None, None), "continue");
    assert_eq!(undo_title("d7"), "[UNDO] d7");
    assert_eq!(undo_prompt("yes", "looked safe"), "Previous response 'yes' was undone.\nOriginal reasoning: looked safe");
    let c = HandledCounts { auto_handled: 0, user_handled: 1 };
    assert_eq!(counts_after_undo(c, true), HandledCounts { auto_handled: 0, user_handled: 2 });
    let c = HandledCounts { auto_handled: 3, user_handled: 1 };
    assert_eq!(counts_after_undo(c, true), HandledCounts { auto_handled: 2, user_handled: 2 });
    assert_eq!(counts_after_undo(c, false), HandledCounts { auto_handled: 3, user_handled: 2 });
}

#[test]
fn mode_panel() {
    let mut m: ModePanel<u32> = ModePanel {
        mode: OrchestratorMode::UserActive,
        daemon_connected: false,
        show_history: false,
        pending_mode_change: None,
        selected_decision: None,
    };
    assert_eq!(m.handle(ModeMsg::SetMode(OrchestratorMode::Spectator)), ModeAction::SetOnDaemon(OrchestratorMode::Spectator));
    assert_eq!(m.mode, OrchestratorMode::UserActive);
    assert_eq!(m.handle(ModeMsg::ConfirmModeChange), ModeAction::Nothing);
    m.handle(ModeMsg::RequestModeChange(OrchestratorMode::Autonomous));
    assert_eq!(m.handle(ModeMsg::ConfirmModeChange), ModeAction::SetOnDaemon(OrchestratorMode::Autonomous));
    assert!(m.pending_mode_change.is_none());
    m.handle(ModeMsg::RequestModeChange(OrchestratorMode::Autonomous));
    m.handle(ModeMsg::CancelModeChange);
    assert!(m.pending_mode_change.is_none());
    assert_eq!(m.handle(ModeMsg::ModeSetResult(Ok(OrchestratorMode::Autonomous))), ModeAction::Applied(OrchestratorMode::Autonomous));
    assert!(m.daemon_connected);
    assert_eq!(m.handle(ModeMsg::ModeSetResult(Err("x".to_string()))), ModeAction::Nothing);
    assert_eq!(m.handle(mode_fetch_result(None)), ModeAction::Nothing);
    assert!(!m.daemon_connected);
    assert_eq!(m.handle(mode_fetch_result(Some(OrchestratorMode::UserDelegate))), ModeAction::Applied(OrchestratorMode::UserDelegate));
    m.handle(ModeMsg::ToggleHistory);
    assert!(m.show_history);
    m.handle(ModeMsg::SelectDecision(Some(3)));
    assert_eq!(m.selected_decision, Some(3));
    assert_eq!(m.handle(ModeMsg::RefreshMode), ModeAction::FetchFromDaemon);
}

#[test]
fn reasoning_for_loaded_dialogs() {
    assert_eq!(triage_reasoning("Cursor", Some("/home/u/app")), "Dialog from Cursor agent in /home/u/app");
    assert_eq!(triage_reasoning("Terminal", None), "Dialog from Terminal agent in unknown");
}
