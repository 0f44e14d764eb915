use continuum_studio_iced::studio::TaskQueueLayout;
use continuum_studio_iced::task_board::{
    count_tasks, progress_text, subtask_progress, Priority, TaskBoard, TaskCommand, TaskCounts, TaskEntry, TaskQueueMsg,
    TaskQueuePanel, TaskStatus,
};

fn entry(id: &str, status: TaskStatus, content: &str) -> TaskEntry<String> {
    TaskEntry { id: id.to_string(), status, parent_id: None, data: content.to_string() }
}

fn zero() -> TaskCounts {
    TaskCounts { total: 0, pending: 0, in_progress: 0, completed: 0 }
}

fn board() -> TaskBoard<String> {
    TaskBoard::new(zero())
}

#[test]
fn counts_by_status() {
    let tasks = vec![
        entry("a", TaskStatus::Pending, ""),
        entry("b", TaskStatus::Claimed, ""),
        entry("c", TaskStatus::InProgress, ""),
        entry("d", TaskStatus::Completed, ""),
        entry("e", TaskStatus::Cancelled, ""),
    ];
    assert_eq!(count_tasks(&tasks), TaskCounts { total: 5, pending: 2, in_progress: 1, completed: 1 });
}

#[test]
fn task_events_keep_counts_in_step() {
    let mut b = board();
    b.handle(TaskQueueMsg::Connected);
    assert!(b.connected);
    b.handle(TaskQueueMsg::TaskAdded(entry("a", TaskStatus::Pending, "one")));
    b.handle(TaskQueueMsg::TaskAdded(entry("b", TaskStatus::Pending, "two")));
    assert_eq!(b.stats, TaskCounts { total: 2, pending: 2, in_progress: 0, completed: 0 });
    b.handle(TaskQueueMsg::TaskStarted(entry("a", TaskStatus::InProgress, "one")));
    assert_eq!(b.current.as_ref().unwrap().id, "a");
    assert_eq!(b.stats, TaskCounts { total: 2, pending: 1, in_progress: 1, completed: 0 });
    b.handle(TaskQueueMsg::TaskUpdated(entry("a", TaskStatus::InProgress, "one, edited")));
    assert_eq!(b.current.as_ref().unwrap().data, "one, edited");
    assert_eq!(b.tasks[0].data, "one, edited");
    b.handle(TaskQueueMsg::TaskUpdated(entry("zz", TaskStatus::Pending, "ghost")));
    assert_eq!(b.tasks.len(), 2);
    b.handle(TaskQueueMsg::TaskCompleted(entry("a", TaskStatus::Completed, "one")));
    assert!(b.current.is_none());
    assert_eq!(b.stats, TaskCounts { total: 2, pending: 1, in_progress: 0, completed: 1 });
    b.handle(TaskQueueMsg::TaskRemoved("b".to_string()));
    assert_eq!(b.tasks.len(), 1);
    assert_eq!(b.stats.total, 1);
    b.handle(TaskQueueMsg::TaskDeleted("a".to_string()));
    assert!(b.tasks.is_empty());
    assert_eq!(b.stats, zero());
}

#[test]
fn initial_state_is_taken_as_given() {
    let mut b = board();
    let given = TaskCounts { total: 9, pending: 9, in_progress: 0, completed: 0 };
    b.handle(TaskQueueMsg::InitialState {
        tasks: vec![entry("x", TaskStatus::Pending, "")],
        stats: given,
        current_task: Some(entry("x", TaskStatus::Pending, "")),
    });
    assert_eq!(b.stats, given);
    assert_eq!(b.tasks.len(), 1);
    assert!(b.current.is_some());
}

#[test]
fn api_results() {
    let mut b = board();
    b.handle(TaskQueueMsg::ApiResult(Ok(entry("n", TaskStatus::Pending, "new"))));
    assert_eq!(b.tasks.len(), 1);
    b.handle(TaskQueueMsg::ApiResult(Ok(entry("n", TaskStatus::InProgress, "new"))));
    assert_eq!(b.tasks.len(), 1);
    assert_eq!(b.current.as_ref().unwrap().id, "n");
    b.handle(TaskQueueMsg::ApiResult(Ok(entry("n", TaskStatus::Completed, "new"))));
    assert!(b.current.is_none());
    assert_eq!(b.stats.completed, 1);
    let before = b.tasks.len();
    assert!(b.handle(TaskQueueMsg::ApiResult(Err("boom".to_string()))).is_none());
    assert_eq!(b.tasks.len(), before);
}

#[test]
fn quick_add() {
    let mut b = board();
    b.handle(TaskQueueMsg::QuickAddChanged("   ".to_string()));
    assert!(b.handle(TaskQueueMsg::QuickAddSubmit).is_none());
    assert_eq!(b.quick_add_input, "   ");
    b.handle(TaskQueueMsg::QuickAddChanged("  write docs ".to_string()));
    match b.handle(TaskQueueMsg::QuickAddSubmit) {
        Some(TaskCommand::AddTask { content, priority }) => {
            assert_eq!(content, "  write docs ");
            assert_eq!(priority, Priority::Medium);
        },
        other => panic!("unexpected {:?}", other),
    }
    assert_eq!(b.quick_add_input, "");
}

#[test]
fn requests_for_the_service() {
    let mut b = board();
    match b.handle(TaskQueueMsg::StartTask("t1".to_string())) {
        Some(TaskCommand::StartTask { task_id, agent_id }) => {
            assert_eq!(task_id, "t1");
            assert_eq!(agent_id, "continuum-studio");
        },
        other => panic!("unexpected {:?}", other),
    }
    assert!(b.handle(TaskQueueMsg::CompleteCurrentTask).is_none());
    b.handle(TaskQueueMsg::TaskStarted(entry("t1", TaskStatus::InProgress, "")));
    assert!(matches!(b.handle(TaskQueueMsg::CompleteCurrentTask),
        Some(TaskCommand::CompleteTask { task_id }) if task_id == "t1"));
    assert!(matches!(b.handle(TaskQueueMsg::ChangePriority("t1".to_string(), Priority::High)),
        Some(TaskCommand::ChangePriority { task_id, priority: Priority::High }) if task_id == "t1"));
    assert!(matches!(b.handle(TaskQueueMsg::DeleteTask("t1".to_string())),
        Some(TaskCommand::DeleteTask { task_id }) if task_id == "t1"));
    match b.handle(TaskQueueMsg::CancelTask("t1".to_string())) {
        Some(TaskCommand::CancelTask { task_id, reason }) => {
            assert_eq!(task_id, "t1");
            assert_eq!(reason, "Cancelled from UI");
        },
        other => panic!("unexpected {:?}", other),
    }
}

#[test]
fn detail_and_edit_toggles() {
    let mut b = board();
    b.handle(TaskQueueMsg::ToggleEditMode("a".to_string()));
    b.handle(TaskQueueMsg::SubtaskInputChanged("sub".to_string()));
    b.handle(TaskQueueMsg::ToggleTaskDetail("a".to_string()));
    assert_eq!(b.selected.as_deref(), Some("a"));
    assert!(b.editing.is_none());
    assert_eq!(b.subtask_input, "");
    b.handle(TaskQueueMsg::ToggleTaskDetail("b".to_string()));
    assert_eq!(b.selected.as_deref(), Some("b"));
    b.handle(TaskQueueMsg::ToggleTaskDetail("b".to_string()));
    assert!(b.selected.is_none());
    b.handle(TaskQueueMsg::ToggleEditMode("a".to_string()));
    assert_eq!(b.editing.as_deref(), Some("a"));
    b.handle(TaskQueueMsg::ToggleEditMode("a".to_string()));
    assert!(b.editing.is_none());
}

#[test]
fn subtask_submission() {
    let mut b = board();
    assert!(b.handle(TaskQueueMsg::SubmitSubtask("p".to_string())).is_none());
    b.handle(TaskQueueMsg::SubtaskInputChanged(" step ".to_string()));
    match b.handle(TaskQueueMsg::SubmitSubtask("p".to_string())) {
        Some(TaskCommand::AddSubtask { parent_id, content, priority }) => {
            assert_eq!(parent_id, "p");
            assert_eq!(content, " step ");
            assert_eq!(priority, Priority::Medium);
        },
        other => panic!("unexpected {:?}", other),
    }
    assert_eq!(b.subtask_input, "");
}

#[test]
fn new_task_form() {
    let mut b = board();
    b.handle(TaskQueueMsg::SwitchPanel(TaskQueuePanel::NewTask));
    b.handle(TaskQueueMsg::NewTaskContentChanged("  Ship it  ".to_string()));
    b.handle(TaskQueueMsg::NewTaskPriorityChanged(Priority::Critical));
    b.handle(TaskQueueMsg::NewTaskProjectChanged(" core ".to_string()));
    b.handle(TaskQueueMsg::NewTaskNotesChanged("  ".to_string()));
    b.handle(TaskQueueMsg::NewTaskSubtaskInputChanged("  first ".to_string()));
    b.handle(TaskQueueMsg::NewTaskAddSubtask);
    assert_eq!(b.new_task_subtasks, vec!["first".to_string()]);
    assert_eq!(b.new_task_subtask_input, "");
    b.handle(TaskQueueMsg::NewTaskSubtaskInputChanged("   ".to_string()));
    b.handle(TaskQueueMsg::NewTaskAddSubtask);
    assert_eq!(b.new_task_subtasks.len(), 1);
    assert_eq!(b.new_task_subtask_input, "   ");
    b.handle(TaskQueueMsg::NewTaskSubtaskInputChanged("second".to_string()));
    b.handle(TaskQueueMsg::NewTaskAddSubtask);
    b.handle(TaskQueueMsg::NewTaskRemoveSubtask(7));
    assert_eq!(b.new_task_subtasks.len(), 2);
    b.handle(TaskQueueMsg::NewTaskRemoveSubtask(0));
    assert_eq!(b.new_task_subtasks, vec!["second".to_string()]);
    b.handle(TaskQueueMsg::NewTaskTogglePrereq("x".to_string()));
    b.handle(TaskQueueMsg::NewTaskTogglePrereq("y".to_string()));
    b.handle(TaskQueueMsg::NewTaskTogglePrereq("x".to_string()));
    assert_eq!(b.new_task_prereqs, vec!["y".to_string()]);
    match b.handle(TaskQueueMsg::SubmitNewTask) {
        Some(TaskCommand::CreateTask { content, priority, project, notes, subtasks, prereqs }) => {
            assert_eq!(content, "Ship it");
            assert_eq!(priority, Priority::Critical);
            assert_eq!(project.as_deref(), Some(" core "));
            assert!(notes.is_none());
            assert_eq!(subtasks, vec!["second".to_string()]);
            assert_eq!(prereqs, vec!["y".to_string()]);
        },
        other => panic!("unexpected {:?}", other),
    }
    assert_eq!(b.panel, TaskQueuePanel::Tasks);
    assert_eq!(b.new_task_content, "");
    assert_eq!(b.new_task_priority, Priority::Medium);
    assert!(b.new_task_subtasks.is_empty() && b.new_task_prereqs.is_empty());
    assert_eq!(b.new_task_project, "");
}

#[test]
fn blank_new_task_is_not_sent() {
    let mut b = board();
    b.handle(TaskQueueMsg::NewTaskContentChanged(" \t ".to_string()));
    b.handle(TaskQueueMsg::NewTaskNotesChanged("keep".to_string()));
    assert!(b.handle(TaskQueueMsg::SubmitNewTask).is_none());
    assert_eq!(b.new_task_notes, "keep");
    b.handle(TaskQueueMsg::NewTaskContentChanged("Task".to_string()));
    match b.handle(TaskQueueMsg::SubmitNewTask) {
        Some(TaskCommand::CreateTask { notes, project, .. }) => {
            assert_eq!(notes.as_deref(), Some("keep"));
            assert!(project.is_none());
        },
        other => panic!("unexpected {:?}", other),
    }
}

#[test]
fn layout_and_panels() {
    let mut b = board();
    assert_eq!(b.layout, TaskQueueLayout::Single);
    b.handle(TaskQueueMsg::SetLayout(TaskQueueLayout::ThreeColumn));
    b.handle(TaskQueueMsg::SetSecondaryPanel(TaskQueuePanel::Feed));
    b.handle(TaskQueueMsg::SwitchPanel(TaskQueuePanel::History));
    assert_eq!(b.layout, TaskQueueLayout::ThreeColumn);
    assert_eq!(b.secondary_panel, TaskQueuePanel::Feed);
    assert_eq!(b.panel, TaskQueuePanel::History);
    b.handle(TaskQueueMsg::Disconnected);
    assert!(!b.connected);
}

fn child(id: &str, parent: &str, status: TaskStatus) -> TaskEntry<String> {
    TaskEntry { id: id.to_string(), status, parent_id: Some(parent.to_string()), data: String::new() }
}

#[test]
fn subtask_progress_of_a_task() {
    let tasks = vec![
        entry("p", TaskStatus::InProgress, "parent"),
        child("c1", "p", TaskStatus::Completed),
        child("c2", "p", TaskStatus::Pending),
        child("c3", "other", TaskStatus::Completed),
        child("c4", "p", TaskStatus::Completed),
    ];
    assert_eq!(subtask_progress(&tasks, "p"), (2, 3));
    assert_eq!(subtask_progress(&tasks, "c1"), (0, 0));
    assert_eq!(progress_text(2, 3), "2/3 subtasks");
    let mut b = board();
    b.handle(TaskQueueMsg::TaskStarted(child("c2", "p", TaskStatus::InProgress)));
    assert_eq!(b.current.as_ref().unwrap().parent_id.as_deref(), Some("p"));
}
