//! Local state of the task queue panel: the task list as the queue service
//! reports it, the task being worked on, selection and edit state, and the
//! new-task form. Each panel message changes this state and may produce one
//! request for the queue service.
//!
//! Tasks are held as entries: the ID and status that the panel decides on,
//! with the rest of the task carried through as `T`.

use vstd::prelude::*;
use vstd::string::*;
use crate::studio::TaskQueueLayout;
use crate::text::{decimal, is_blank, push_decimal, same_text, trim, trimmed};

verus! {

/// Status of a task in the queue.
#[derive(Clone, Copy, Debug, PartialEq, Eq, Structural)]
pub enum TaskStatus {
    Pending,
    Claimed,
    InProgress,
    Completed,
    Cancelled,
}

/// Priority of a task.
#[derive(Clone, Copy, Debug, PartialEq, Eq, Structural)]
pub enum Priority {
    Backlog,
    Low,
    Medium,
    High,
    Critical,
}

/// Active panel in the task queue window.
#[derive(Clone, Copy, Debug, PartialEq, Eq, Structural)]
pub enum TaskQueuePanel {
    Tasks,
    Agents,
    History,
    NewTask,
    Feed,
    Coordination,
}

/// A task: its ID and status, the task it is a subtask of (if any), and
/// the rest of it.
#[derive(Debug)]
pub struct TaskEntry<T> {
    pub id: String,
    pub status: TaskStatus,
    pub parent_id: Option<String>,
    pub data: T,
}

impl<T: Clone> TaskEntry<T> {
    /// A copy of the entry (the data is cloned).
    pub fn duplicate(&self) -> (r: Self)
        ensures
            r.id == self.id,
            r.status == self.status,
            r.parent_id == self.parent_id,
            cloned(self.data, r.data),
    {
        let parent_id = match &self.parent_id {
            Some(p) => Some(p.clone()),
            None => None,
        };
        TaskEntry { id: self.id.clone(), status: self.status, parent_id, data: self.data.clone() }
    }
}

/// Counts of the tasks by status.
#[derive(Clone, Copy, Debug, PartialEq, Eq, Structural)]
pub struct TaskCounts {
    pub total: usize,
    /// Pending or claimed tasks
    pub pending: usize,
    pub in_progress: usize,
    pub completed: usize,
}

/// Number of entries whose status satisfies `p`.
pub open spec fn count_where<T>(s: Seq<TaskEntry<T>>, p: spec_fn(TaskStatus) -> bool) -> nat
    decreases s.len(),
{
    if s.len() == 0 { 0 } else { count_where(s.drop_last(), p) + if p(s.last().status) { 1nat } else { 0nat } }
}

pub open spec fn is_waiting(s: TaskStatus) -> bool {
    s == TaskStatus::Pending || s == TaskStatus::Claimed
}

pub open spec fn is_running(s: TaskStatus) -> bool {
    s == TaskStatus::InProgress
}

pub open spec fn is_done(s: TaskStatus) -> bool {
    s == TaskStatus::Completed
}

/// The counts that a task list amounts to.
pub open spec fn spec_counts<T>(s: Seq<TaskEntry<T>>) -> TaskCounts {
    TaskCounts {
        total: s.len() as usize,
        pending: count_where(s, |x: TaskStatus| is_waiting(x)) as usize,
        in_progress: count_where(s, |x: TaskStatus| is_running(x)) as usize,
        completed: count_where(s, |x: TaskStatus| is_done(x)) as usize,
    }
}

proof fn lemma_count_le<T>(s: Seq<TaskEntry<T>>, p: spec_fn(TaskStatus) -> bool)
    ensures
        count_where(s, p) <= s.len(),
    decreases s.len(),
{
    if s.len() > 0 {
        lemma_count_le(s.drop_last(), p);
    }
}

/// Counts the tasks by status.
pub fn count_tasks<T>(tasks: &Vec<TaskEntry<T>>) -> (c: TaskCounts)
    ensures
        c == spec_counts(tasks@),
{
    let mut pending: usize = 0;
    let mut running: usize = 0;
    let mut done: usize = 0;
    let mut i: usize = 0;
    while i < tasks.len()
        invariant
            i <= tasks@.len(),
            pending == count_where(tasks@.take(i as int), |x: TaskStatus| is_waiting(x)),
            running == count_where(tasks@.take(i as int), |x: TaskStatus| is_running(x)),
            done == count_where(tasks@.take(i as int), |x: TaskStatus| is_done(x)),
        decreases tasks@.len() - i,
    {
        proof {
            assert(tasks@.take(i + 1).drop_last() =~= tasks@.take(i as int));
            lemma_count_le(tasks@.take(i as int), |x: TaskStatus| is_waiting(x));
            lemma_count_le(tasks@.take(i as int), |x: TaskStatus| is_running(x));
            lemma_count_le(tasks@.take(i as int), |x: TaskStatus| is_done(x));
        }
        let st = tasks[i].status;
        if st == TaskStatus::Pending || st == TaskStatus::Claimed {
            pending = pending + 1;
        }
        if st == TaskStatus::InProgress {
            running = running + 1;
        }
        if st == TaskStatus::Completed {
            done = done + 1;
        }
        i = i + 1;
    }
    assert(tasks@.take(i as int) =~= tasks@);
    TaskCounts { total: tasks.len(), pending, in_progress: running, completed: done }
}

/// Whether `e` is a subtask of the task with ID `id`.
pub open spec fn is_child<T>(e: TaskEntry<T>, id: Seq<char>) -> bool {
    e.parent_id matches Some(p) && p@ == id
}

/// Number of subtasks of `id` in `s` (the completed ones only, when
/// `completed_only`).
pub open spec fn count_children<T>(s: Seq<TaskEntry<T>>, id: Seq<char>, completed_only: bool) -> nat
    decreases s.len(),
{
    if s.len() == 0 {
        0
    } else {
        count_children(s.drop_last(), id, completed_only)
            + if is_child(s.last(), id) && (!completed_only || s.last().status == TaskStatus::Completed) { 1nat } else { 0nat }
    }
}

proof fn lemma_children_le<T>(s: Seq<TaskEntry<T>>, id: Seq<char>, completed_only: bool)
    ensures
        count_children(s, id, completed_only) <= s.len(),
    decreases s.len(),
{
    if s.len() > 0 {
        lemma_children_le(s.drop_last(), id, completed_only);
    }
}

/// Progress of a task's subtasks: how many are completed, and how many
/// there are.
pub fn subtask_progress<T>(tasks: &Vec<TaskEntry<T>>, id: &str) -> (r: (usize, usize))
    ensures
        r.0 == count_children(tasks@, id@, true),
        r.1 == count_children(tasks@, id@, false),
{
    let mut done: usize = 0;
    let mut total: usize = 0;
    let mut i: usize = 0;
    while i < tasks.len()
        invariant
            i <= tasks@.len(),
            done == count_children(tasks@.take(i as int), id@, true),
            total == count_children(tasks@.take(i as int), id@, false),
        decreases tasks@.len() - i,
    {
        proof {
            assert(tasks@.take(i + 1).drop_last() =~= tasks@.take(i as int));
            lemma_children_le(tasks@.take(i as int), id@, true);
            lemma_children_le(tasks@.take(i as int), id@, false);
        }
        let child = match &tasks[i].parent_id {
            Some(p) => same_text(p.as_str(), id),
            None => false,
        };
        if child {
            total = total + 1;
            if tasks[i].status == TaskStatus::Completed {
                done = done + 1;
            }
        }
        i = i + 1;
    }
    assert(tasks@.take(i as int) =~= tasks@);
    (done, total)
}

/// The progress line of the current task: "<completed>/<total> subtasks".
pub fn progress_text(completed: usize, total: usize) -> (s: String)
    ensures
        s@ == decimal(completed as nat) + "/"@ + decimal(total as nat) + " subtasks"@,
{
    let mut s = String::new();
    push_decimal(&mut s, completed as u128);
    s.append("/");
    push_decimal(&mut s, total as u128);
    s.append(" subtasks");
    assert(s@ =~= decimal(completed as nat) + "/"@ + decimal(total as nat) + " subtasks"@);
    s
}

/// Position of the first entry with ID `id`.
pub open spec fn first_index<T>(s: Seq<TaskEntry<T>>, id: Seq<char>, i: int) -> bool {
    0 <= i < s.len() && s[i].id@ == id && forall|j: int| 0 <= j < i ==> s[j].id@ != id
}

/// `s` with the first entry of `e`'s ID replaced by `e` (unchanged when no
/// entry has that ID).
pub open spec fn replace_by_id<T>(s: Seq<TaskEntry<T>>, e: TaskEntry<T>) -> Seq<TaskEntry<T>> {
    if exists|i: int| first_index(s, e.id@, i) {
        s.update(choose|i: int| first_index(s, e.id@, i), e)
    } else {
        s
    }
}

/// `s` without the entries with ID `id`.
pub open spec fn drop_id<T>(s: Seq<TaskEntry<T>>, id: Seq<char>) -> Seq<TaskEntry<T>>
    decreases s.len(),
{
    if s.len() == 0 {
        s
    } else {
        let rest = drop_id(s.drop_last(), id);
        if s.last().id@ == id { rest } else { rest.push(s.last()) }
    }
}

/// Position of the first entry with ID `id`, if any.
fn find_task<T>(tasks: &Vec<TaskEntry<T>>, id: &str) -> (r: Option<usize>)
    ensures
        r matches Some(i) ==> first_index(tasks@, id@, i as int),
        r is None ==> !exists|i: int| first_index(tasks@, id@, i),
        r is None ==> forall|i: int| 0 <= i < tasks@.len() ==> tasks@[i].id@ != id@,
{
    let mut i: usize = 0;
    while i < tasks.len()
        invariant
            i <= tasks@.len(),
            forall|j: int| 0 <= j < i ==> tasks@[j].id@ != id@,
        decreases tasks@.len() - i,
    {
        if same_text(tasks[i].id.as_str(), id) {
            return Some(i);
        }
        i = i + 1;
    }
    None
}

proof fn lemma_first_unique<T>(s: Seq<TaskEntry<T>>, id: Seq<char>, i: int)
    requires
        first_index(s, id, i),
    ensures
        (choose|j: int| first_index(s, id, j)) == i,
{
    let j = choose|j: int| first_index(s, id, j);
    assert(first_index(s, id, j));
}

/// Replaces the first entry with `e`'s ID by `e`; gives `e` back when there
/// is none.
fn replace_entry<T>(tasks: &mut Vec<TaskEntry<T>>, e: TaskEntry<T>) -> (rest: Option<TaskEntry<T>>)
    ensures
        final(tasks)@ == replace_by_id(old(tasks)@, e),
        rest is None <==> exists|i: int| first_index(old(tasks)@, e.id@, i),
        rest matches Some(x) ==> x == e,
{
    match find_task(tasks, e.id.as_str()) {
        Some(i) => {
            proof {
                lemma_first_unique(tasks@, e.id@, i as int);
            }
            tasks.set(i, e);
            None
        },
        None => Some(e),
    }
}

/// Removes every entry with ID `id`.
fn remove_entries<T>(tasks: &mut Vec<TaskEntry<T>>, id: &str)
    ensures
        final(tasks)@ == drop_id(old(tasks)@, id@),
{
    let ghost s0 = tasks@;
    let n = tasks.len();
    let mut kept: Vec<TaskEntry<T>> = Vec::new();
    let mut rest: Vec<TaskEntry<T>> = Vec::new();
    while tasks.len() > 0
        invariant
            rest@.len() + tasks@.len() == s0.len(),
            tasks@ == s0.take(tasks@.len() as int),
            forall|k: int| 0 <= k < rest@.len() ==> rest@[k] == s0[s0.len() - 1 - k],
        decreases tasks@.len(),
    {
        let x = tasks.pop().unwrap();
        rest.push(x);
    }
    let mut taken: usize = 0;
    while rest.len() > 0
        invariant
            taken + rest@.len() == s0.len(),
            n == s0.len(),
            forall|k: int| 0 <= k < rest@.len() ==> rest@[k] == s0[s0.len() - 1 - k],
            kept@ == drop_id(s0.take(taken as int), id@),
        decreases rest@.len(),
    {
        let x = rest.pop().unwrap();
        proof {
            assert(x == s0[taken as int]);
            assert(s0.take(taken + 1).drop_last() =~= s0.take(taken as int));
        }
        if !same_text(x.id.as_str(), id) {
            kept.push(x);
        }
        taken = taken + 1;
    }
    assert(s0.take(taken as int) =~= s0);
    *tasks = kept;
}


/// A request for the task queue service.
#[derive(Debug)]
pub enum TaskCommand {
    AddTask { content: String, priority: Priority },
    StartTask { task_id: String, agent_id: String },
    CompleteTask { task_id: String },
    ChangePriority { task_id: String, priority: Priority },
    DeleteTask { task_id: String },
    CancelTask { task_id: String, reason: String },
    AddSubtask { parent_id: String, content: String, priority: Priority },
    /// Create a task, then set its notes (when given), add its subtasks
    /// and its prerequisites
    CreateTask {
        content: String,
        priority: Priority,
        project: Option<String>,
        notes: Option<String>,
        subtasks: Vec<String>,
        prereqs: Vec<String>,
    },
}

/// Messages of the task queue panel.
#[derive(Debug)]
pub enum TaskQueueMsg<T> {
    Connected,
    Disconnected,
    InitialState { tasks: Vec<TaskEntry<T>>, stats: TaskCounts, current_task: Option<TaskEntry<T>> },
    TaskAdded(TaskEntry<T>),
    TaskUpdated(TaskEntry<T>),
    TaskStarted(TaskEntry<T>),
    TaskCompleted(TaskEntry<T>),
    TaskRemoved(String),
    Error(String),
    QuickAddChanged(String),
    QuickAddSubmit,
    StartTask(String),
    CompleteCurrentTask,
    ChangePriority(String, Priority),
    DeleteTask(String),
    CancelTask(String),
    ToggleTaskDetail(String),
    ToggleEditMode(String),
    SubtaskInputChanged(String),
    SubmitSubtask(String),
    SubtaskAdded(Result<TaskEntry<T>, String>),
    NewTaskContentChanged(String),
    NewTaskPriorityChanged(Priority),
    NewTaskProjectChanged(String),
    NewTaskNotesChanged(String),
    NewTaskSubtaskInputChanged(String),
    NewTaskAddSubtask,
    NewTaskRemoveSubtask(usize),
    NewTaskTogglePrereq(String),
    SubmitNewTask,
    NewTaskCreated(Result<TaskEntry<T>, String>),
    TaskDeleted(String),
    ApiResult(Result<TaskEntry<T>, String>),
    SwitchPanel(TaskQueuePanel),
    SetLayout(TaskQueueLayout),
    SetSecondaryPanel(TaskQueuePanel),
}

/// State of the task queue panel.
pub struct TaskBoard<T> {
    pub connected: bool,
    pub tasks: Vec<TaskEntry<T>>,
    pub stats: TaskCounts,
    pub current: Option<TaskEntry<T>>,
    pub quick_add_input: String,
    pub selected: Option<String>,
    pub editing: Option<String>,
    pub subtask_input: String,
    pub new_task_content: String,
    pub new_task_priority: Priority,
    pub new_task_project: String,
    pub new_task_notes: String,
    pub new_task_subtasks: Vec<String>,
    pub new_task_subtask_input: String,
    pub new_task_prereqs: Vec<String>,
    pub panel: TaskQueuePanel,
    pub layout: TaskQueueLayout,
    pub secondary_panel: TaskQueuePanel,
}

/// `c` is a copy of `e`: same ID and status, cloned data.
pub open spec fn copy_of<T: Clone>(e: TaskEntry<T>, c: TaskEntry<T>) -> bool {
    c.id@ == e.id@ && c.status == e.status && c.parent_id == e.parent_id && cloned(e.data, c.data)
}

/// Whether the current task has ID `id`.
pub open spec fn current_is<T>(cur: Option<TaskEntry<T>>, id: Seq<char>) -> bool {
    cur matches Some(c) && c.id@ == id
}

/// The text after trimming is empty.
pub open spec fn blank(s: Seq<char>) -> bool {
    trim(s).len() == 0
}

pub open spec fn strs(v: Seq<String>) -> Seq<Seq<char>> {
    v.map_values(|s: String| s@)
}

/// The position of `id` among `v`, if present.
pub open spec fn first_str(v: Seq<String>, id: Seq<char>, i: int) -> bool {
    0 <= i < v.len() && v[i]@ == id && forall|j: int| 0 <= j < i ==> v[j]@ != id
}

/// `v` with `id` removed when present (its first occurrence), appended
/// otherwise.
pub open spec fn toggled(v: Seq<Seq<char>>, id: Seq<char>) -> Seq<Seq<char>> {
    if v.contains(id) {
        v.remove(choose|i: int| 0 <= i < v.len() && v[i] == id && forall|j: int| 0 <= j < i ==> v[j] != id)
    } else {
        v.push(id)
    }
}

/// `Some(id)` unless it already was, in which case `None`.
pub open spec fn toggle_opt(cur: Option<String>, id: String) -> Option<Seq<char>> {
    if cur matches Some(c) && c@ == id@ { None } else { Some(id@) }
}

pub open spec fn opt_text(o: Option<String>) -> Option<Seq<char>> {
    match o {
        Some(s) => Some(s@),
        None => None,
    }
}

/// `a` is `b` with at most the task list, the counts and the current task
/// changed.
pub open spec fn only_tasks_changed<T>(b: TaskBoard<T>, a: TaskBoard<T>) -> bool {
    a == (TaskBoard { tasks: a.tasks, stats: a.stats, current: a.current, ..b })
}

/// After a task was reported added: it is appended.
pub open spec fn after_added<T>(b: TaskBoard<T>, a: TaskBoard<T>, task: TaskEntry<T>) -> bool {
    &&& a.tasks@ == b.tasks@.push(task)
    &&& a.stats == spec_counts(a.tasks@)
    &&& a.current == b.current
    &&& only_tasks_changed(b, a)
}

/// After a task was reported updated: its entry is replaced (an unknown
/// task is ignored), and so is the current task when it is that one.
pub open spec fn after_updated<T: Clone>(b: TaskBoard<T>, a: TaskBoard<T>, task: TaskEntry<T>) -> bool {
    &&& a.tasks@ == replace_by_id(b.tasks@, task)
    &&& a.stats == spec_counts(a.tasks@)
    &&& current_is(b.current, task.id@) ==> (a.current matches Some(c) && copy_of(task, c))
    &&& !current_is(b.current, task.id@) ==> a.current == b.current
    &&& only_tasks_changed(b, a)
}

/// After a task was reported started: its entry is replaced and it is the
/// current task.
pub open spec fn after_started<T: Clone>(b: TaskBoard<T>, a: TaskBoard<T>, task: TaskEntry<T>) -> bool {
    &&& a.tasks@ == replace_by_id(b.tasks@, task)
    &&& a.stats == spec_counts(a.tasks@)
    &&& a.current matches Some(c) && copy_of(task, c)
    &&& only_tasks_changed(b, a)
}

/// After a task was reported completed: its entry is replaced and it is no
/// longer the current task.
pub open spec fn after_completed<T>(b: TaskBoard<T>, a: TaskBoard<T>, task: TaskEntry<T>) -> bool {
    &&& a.tasks@ == replace_by_id(b.tasks@, task)
    &&& a.stats == spec_counts(a.tasks@)
    &&& current_is(b.current, task.id@) ==> a.current is None
    &&& !current_is(b.current, task.id@) ==> a.current == b.current
    &&& only_tasks_changed(b, a)
}

/// After a task was removed or deleted: every entry with its ID is gone and
/// it is no longer the current task.
pub open spec fn after_removed<T>(b: TaskBoard<T>, a: TaskBoard<T>, id: Seq<char>) -> bool {
    &&& a.tasks@ == drop_id(b.tasks@, id)
    &&& a.stats == spec_counts(a.tasks@)
    &&& current_is(b.current, id) ==> a.current is None
    &&& !current_is(b.current, id) ==> a.current == b.current
    &&& only_tasks_changed(b, a)
}

/// After the service returned a task: its entry is replaced, or it is
/// appended when unknown; an in-progress task becomes the current one, any
/// other is no longer current.
pub open spec fn after_api_result<T: Clone>(b: TaskBoard<T>, a: TaskBoard<T>, task: TaskEntry<T>) -> bool {
    &&& (exists|i: int| first_index(b.tasks@, task.id@, i)) ==> a.tasks@ == replace_by_id(b.tasks@, task)
    &&& !(exists|i: int| first_index(b.tasks@, task.id@, i)) ==> a.tasks@ == b.tasks@.push(task)
    &&& a.stats == spec_counts(a.tasks@)
    &&& task.status == TaskStatus::InProgress ==> (a.current matches Some(c) && copy_of(task, c))
    &&& task.status != TaskStatus::InProgress && current_is(b.current, task.id@) ==> a.current is None
    &&& task.status != TaskStatus::InProgress && !current_is(b.current, task.id@) ==> a.current == b.current
    &&& only_tasks_changed(b, a)
}

/// After the quick-add field was submitted: nothing happens when it is
/// blank; otherwise its text, untrimmed, is requested as a new task of
/// medium priority and the field is cleared.
pub open spec fn after_quick_add<T>(b: TaskBoard<T>, a: TaskBoard<T>, cmd: Option<TaskCommand>) -> bool {
    if blank(b.quick_add_input@) {
        cmd is None && a == b
    } else {
        &&& cmd matches Some(TaskCommand::AddTask { content, priority })
            && content@ == b.quick_add_input@ && priority == Priority::Medium
        &&& a.quick_add_input@.len() == 0
        &&& a == (TaskBoard { quick_add_input: a.quick_add_input, ..b })
    }
}

/// After a subtask of `parent` was submitted: nothing happens when the
/// subtask field is blank; otherwise its text is requested as a subtask of
/// medium priority and the field is cleared.
pub open spec fn after_submit_subtask<T>(b: TaskBoard<T>, a: TaskBoard<T>, parent: Seq<char>, cmd: Option<TaskCommand>) -> bool {
    if blank(b.subtask_input@) {
        cmd is None && a == b
    } else {
        &&& cmd matches Some(TaskCommand::AddSubtask { parent_id, content, priority })
            && parent_id@ == parent && content@ == b.subtask_input@ && priority == Priority::Medium
        &&& a.subtask_input@.len() == 0
        &&& a == (TaskBoard { subtask_input: a.subtask_input, ..b })
    }
}

/// After the detail view of `id` was toggled: it is selected unless it
/// was, editing stops and the subtask field is cleared.
pub open spec fn after_toggle_detail<T>(b: TaskBoard<T>, a: TaskBoard<T>, id: String) -> bool {
    &&& opt_text(a.selected) == toggle_opt(b.selected, id)
    &&& a.subtask_input@.len() == 0
    &&& a == (TaskBoard { selected: a.selected, editing: None, subtask_input: a.subtask_input, ..b })
}

/// After edit mode of `id` was toggled.
pub open spec fn after_toggle_edit<T>(b: TaskBoard<T>, a: TaskBoard<T>, id: String) -> bool {
    &&& opt_text(a.editing) == toggle_opt(b.editing, id)
    &&& a == (TaskBoard { editing: a.editing, ..b })
}

/// After a subtask was added to the form: the trimmed subtask field is
/// appended and the field cleared, unless it is blank.
pub open spec fn after_form_add_subtask<T>(b: TaskBoard<T>, a: TaskBoard<T>) -> bool {
    if blank(b.new_task_subtask_input@) {
        a == b
    } else {
        &&& strs(a.new_task_subtasks@) == strs(b.new_task_subtasks@).push(trim(b.new_task_subtask_input@))
        &&& a.new_task_subtask_input@.len() == 0
        &&& a == (TaskBoard { new_task_subtasks: a.new_task_subtasks, new_task_subtask_input: a.new_task_subtask_input, ..b })
    }
}

/// After subtask `index` was removed from the form (an index out of range
/// changes nothing).
pub open spec fn after_form_remove_subtask<T>(b: TaskBoard<T>, a: TaskBoard<T>, index: usize) -> bool {
    &&& index < b.new_task_subtasks@.len() ==> a.new_task_subtasks@ == b.new_task_subtasks@.remove(index as int)
    &&& index >= b.new_task_subtasks@.len() ==> a == b
    &&& a == (TaskBoard { new_task_subtasks: a.new_task_subtasks, ..b })
}

/// After prerequisite `id` was toggled in the form.
pub open spec fn after_form_toggle_prereq<T>(b: TaskBoard<T>, a: TaskBoard<T>, id: Seq<char>) -> bool {
    &&& strs(a.new_task_prereqs@) == toggled(strs(b.new_task_prereqs@), id)
    &&& a == (TaskBoard { new_task_prereqs: a.new_task_prereqs, ..b })
}

/// The form is empty, with medium priority.
pub open spec fn form_cleared<T>(a: TaskBoard<T>) -> bool {
    &&& a.new_task_content@.len() == 0
    &&& a.new_task_priority == Priority::Medium
    &&& a.new_task_project@.len() == 0
    &&& a.new_task_notes@.len() == 0
    &&& a.new_task_subtasks@.len() == 0
    &&& a.new_task_subtask_input@.len() == 0
    &&& a.new_task_prereqs@.len() == 0
}

/// After the new-task form was submitted: nothing happens when its content
/// is blank; otherwise the task is requested (content trimmed; the project
/// unless blank; the notes unless blank; the subtasks and prerequisites),
/// the form is cleared and the task list is shown.
pub open spec fn after_submit_form<T>(b: TaskBoard<T>, a: TaskBoard<T>, cmd: Option<TaskCommand>) -> bool {
    if blank(b.new_task_content@) {
        cmd is None && a == b
    } else {
        &&& cmd matches Some(TaskCommand::CreateTask { content, priority, project, notes, subtasks, prereqs })
            && content@ == trim(b.new_task_content@)
            && priority == b.new_task_priority
            && opt_text(project) == (if blank(b.new_task_project@) { None } else { Some(b.new_task_project@) })
            && opt_text(notes) == (if blank(b.new_task_notes@) { None } else { Some(b.new_task_notes@) })
            && subtasks@ == b.new_task_subtasks@
            && prereqs@ == b.new_task_prereqs@
        &&& form_cleared(a)
        &&& a == (TaskBoard {
            new_task_content: a.new_task_content,
            new_task_priority: Priority::Medium,
            new_task_project: a.new_task_project,
            new_task_notes: a.new_task_notes,
            new_task_subtasks: a.new_task_subtasks,
            new_task_subtask_input: a.new_task_subtask_input,
            new_task_prereqs: a.new_task_prereqs,
            panel: TaskQueuePanel::Tasks,
            ..b
        })
    }
}

/// The waiting, running and completed tasks together are no more than all
/// the tasks.
pub proof fn lemma_counts_within_total<T>(s: Seq<TaskEntry<T>>)
    ensures
        count_where(s, |x: TaskStatus| is_waiting(x)) + count_where(s, |x: TaskStatus| is_running(x))
            + count_where(s, |x: TaskStatus| is_done(x)) <= s.len(),
    decreases s.len(),
{
    if s.len() > 0 {
        lemma_counts_within_total(s.drop_last());
    }
}

/// Toggling a prerequisite that is not in the list twice gives the list
/// back.
pub proof fn lemma_toggle_prereq_twice(v: Seq<Seq<char>>, id: Seq<char>)
    requires
        !v.contains(id),
    ensures
        toggled(toggled(v, id), id) == v,
{
    let w = v.push(id);
    assert(w[v.len() as int] == id);
    assert(w.contains(id));
    let k = choose|i: int| 0 <= i < w.len() && w[i] == id && forall|j: int| 0 <= j < i ==> w[j] != id;
    assert(0 <= k < w.len() && w[k] == id && forall|j: int| 0 <= j < k ==> w[j] != id);
    if k < v.len() {
        assert(v[k] == id);
    }
    assert(k == v.len());
    assert(w.remove(k) =~= v);
}

/// Toggling the details of the same task twice, starting with no task or
/// that task selected, gives the selection back.
pub proof fn lemma_toggle_detail_twice(cur: Option<String>, id: String, next: Option<String>)
    requires
        cur is None || (cur matches Some(c) && c@ == id@),
        opt_text(next) == toggle_opt(cur, id),
    ensures
        toggle_opt(next, id) == opt_text(cur),
{
}

/// Position of the first string of `v` equal to `id`, if any.
fn find_str(v: &Vec<String>, id: &str) -> (r: Option<usize>)
    ensures
        r matches Some(i) ==> first_str(v@, id@, i as int),
        r is None ==> !strs(v@).contains(id@),
{
    let mut i: usize = 0;
    while i < v.len()
        invariant
            i <= v@.len(),
            forall|j: int| 0 <= j < i ==> v@[j]@ != id@,
        decreases v@.len() - i,
    {
        if same_text(v[i].as_str(), id) {
            return Some(i);
        }
        i = i + 1;
    }
    proof {
        if strs(v@).contains(id@) {
            let k = choose|k: int| 0 <= k < strs(v@).len() && strs(v@)[k] == id@;
            assert(v@[k]@ == id@);
        }
    }
    None
}

impl<T: Clone> TaskBoard<T> {
    /// An empty, disconnected board showing the task list.
    pub fn new(stats: TaskCounts) -> (b: Self)
        ensures
            !b.connected,
            b.tasks@.len() == 0,
            b.stats == stats,
            b.current is None,
            b.quick_add_input@.len() == 0,
            b.selected is None,
            b.editing is None,
            b.subtask_input@.len() == 0,
            form_cleared(b),
            b.panel == TaskQueuePanel::Tasks,
            b.layout == TaskQueueLayout::Single,
            b.secondary_panel == TaskQueuePanel::Agents,
    {
        TaskBoard {
            connected: false,
            tasks: Vec::new(),
            stats,
            current: None,
            quick_add_input: String::new(),
            selected: None,
            editing: None,
            subtask_input: String::new(),
            new_task_content: String::new(),
            new_task_priority: Priority::Medium,
            new_task_project: String::new(),
            new_task_notes: String::new(),
            new_task_subtasks: Vec::new(),
            new_task_subtask_input: String::new(),
            new_task_prereqs: Vec::new(),
            panel: TaskQueuePanel::Tasks,
            layout: TaskQueueLayout::Single,
            secondary_panel: TaskQueuePanel::Agents,
        }
    }

    fn recount(&mut self)
        ensures
            *final(self) == (TaskBoard { stats: spec_counts(old(self).tasks@), ..*old(self) }),
    {
        self.stats = count_tasks(&self.tasks);
    }

    /// The service connection came up.
    pub fn connected(&mut self)
        ensures
            *final(self) == (TaskBoard { connected: true, ..*old(self) }),
    {
        self.connected = true;
    }

    /// The service connection went down.
    pub fn disconnected(&mut self)
        ensures
            *final(self) == (TaskBoard { connected: false, ..*old(self) }),
    {
        self.connected = false;
    }

    /// The initial state sent by the service: list, counts and current
    /// task, taken as given.
    pub fn initial_state(&mut self, tasks: Vec<TaskEntry<T>>, stats: TaskCounts, current: Option<TaskEntry<T>>)
        ensures
            *final(self) == (TaskBoard { tasks, stats, current, ..*old(self) }),
    {
        self.tasks = tasks;
        self.stats = stats;
        self.current = current;
    }

    /// A task reported as added.
    pub fn task_added(&mut self, task: TaskEntry<T>)
        ensures
            after_added(*old(self), *final(self), task),
    {
        self.tasks.push(task);
        self.recount();
    }

    /// A task reported as updated.
    pub fn task_updated(&mut self, task: TaskEntry<T>)
        ensures
            after_updated(*old(self), *final(self), task),
    {
        let copy = task.duplicate();
        let is_current = match &self.current {
            Some(c) => same_text(c.id.as_str(), task.id.as_str()),
            None => false,
        };
        replace_entry(&mut self.tasks, task);
        if is_current {
            self.current = Some(copy);
        }
        self.recount();
    }

    /// A task reported as started.
    pub fn task_started(&mut self, task: TaskEntry<T>)
        ensures
            after_started(*old(self), *final(self), task),
    {
        let copy = task.duplicate();
        replace_entry(&mut self.tasks, task);
        self.current = Some(copy);
        self.recount();
    }

    /// A task reported as completed.
    pub fn task_completed(&mut self, task: TaskEntry<T>)
        ensures
            after_completed(*old(self), *final(self), task),
    {
        let is_current = match &self.current {
            Some(c) => same_text(c.id.as_str(), task.id.as_str()),
            None => false,
        };
        replace_entry(&mut self.tasks, task);
        if is_current {
            self.current = None;
        }
        self.recount();
    }

    /// A task reported as removed, or deleted on request.
    pub fn task_removed(&mut self, id: &str)
        ensures
            after_removed(*old(self), *final(self), id@),
    {
        remove_entries(&mut self.tasks, id);
        let is_current = match &self.current {
            Some(c) => same_text(c.id.as_str(), id),
            None => false,
        };
        if is_current {
            self.current = None;
        }
        self.recount();
    }

    /// A task returned by the service after a request.
    pub fn api_result(&mut self, task: TaskEntry<T>)
        ensures
            after_api_result(*old(self), *final(self), task),
    {
        let copy = task.duplicate();
        let is_current = match &self.current {
            Some(c) => same_text(c.id.as_str(), task.id.as_str()),
            None => false,
        };
        let in_progress = task.status == TaskStatus::InProgress;
        match replace_entry(&mut self.tasks, task) {
            Some(t) => {
                self.tasks.push(t);
            },
            None => {},
        }
        if in_progress {
            self.current = Some(copy);
        } else if is_current {
            self.current = None;
        }
        self.recount();
    }

    /// New text in the quick-add field.
    pub fn quick_add_changed(&mut self, text: String)
        ensures
            *final(self) == (TaskBoard { quick_add_input: text, ..*old(self) }),
    {
        self.quick_add_input = text;
    }

    /// The quick-add field was submitted.
    pub fn quick_add_submit(&mut self) -> (cmd: Option<TaskCommand>)
        ensures
            after_quick_add(*old(self), *final(self), cmd),
    {
        if is_blank(self.quick_add_input.as_str()) {
            return None;
        }
        let mut content = String::new();
        core::mem::swap(&mut content, &mut self.quick_add_input);
        Some(TaskCommand::AddTask { content, priority: Priority::Medium })
    }

    /// Start a task: it is requested for this application's agent.
    pub fn start_task(&self, task_id: String) -> (cmd: TaskCommand)
        ensures
            cmd matches TaskCommand::StartTask { task_id: t, agent_id } && t == task_id
                && agent_id@ == "continuum-studio"@,
    {
        TaskCommand::StartTask { task_id, agent_id: String::from_str("continuum-studio") }
    }

    /// Complete the current task, when there is one.
    pub fn complete_current_task(&self) -> (cmd: Option<TaskCommand>)
        ensures
            self.current is None ==> cmd is None,
            self.current matches Some(c) ==> (cmd matches Some(TaskCommand::CompleteTask { task_id }) && task_id@ == c.id@),
    {
        match &self.current {
            Some(c) => Some(TaskCommand::CompleteTask { task_id: c.id.clone() }),
            None => None,
        }
    }

    /// Change the priority of a task.
    pub fn change_priority(&self, task_id: String, priority: Priority) -> (cmd: TaskCommand)
        ensures
            cmd == (TaskCommand::ChangePriority { task_id, priority }),
    {
        TaskCommand::ChangePriority { task_id, priority }
    }

    /// Delete a task.
    pub fn delete_task(&self, task_id: String) -> (cmd: TaskCommand)
        ensures
            cmd == (TaskCommand::DeleteTask { task_id }),
    {
        TaskCommand::DeleteTask { task_id }
    }

    /// Cancel a task, with the reason that the user cancelled it.
    pub fn cancel_task(&self, task_id: String) -> (cmd: TaskCommand)
        ensures
            cmd matches TaskCommand::CancelTask { task_id: t, reason } && t == task_id
                && reason@ == "Cancelled from UI"@,
    {
        TaskCommand::CancelTask { task_id, reason: String::from_str("Cancelled from UI") }
    }

    /// Show or hide the details of a task.
    pub fn toggle_task_detail(&mut self, task_id: String)
        ensures
            after_toggle_detail(*old(self), *final(self), task_id),
    {
        let same = match &self.selected {
            Some(s) => same_text(s.as_str(), task_id.as_str()),
            None => false,
        };
        if same {
            self.selected = None;
        } else {
            self.selected = Some(task_id);
        }
        self.editing = None;
        self.subtask_input = String::new();
    }

    /// Enter or leave edit mode for a task.
    pub fn toggle_edit_mode(&mut self, task_id: String)
        ensures
            after_toggle_edit(*old(self), *final(self), task_id),
    {
        let same = match &self.editing {
            Some(s) => same_text(s.as_str(), task_id.as_str()),
            None => false,
        };
        if same {
            self.editing = None;
        } else {
            self.editing = Some(task_id);
        }
    }

    /// New text in the subtask field.
    pub fn subtask_input_changed(&mut self, text: String)
        ensures
            *final(self) == (TaskBoard { subtask_input: text, ..*old(self) }),
    {
        self.subtask_input = text;
    }

    /// The subtask field was submitted for the task `parent_id`.
    pub fn submit_subtask(&mut self, parent_id: String) -> (cmd: Option<TaskCommand>)
        ensures
            after_submit_subtask(*old(self), *final(self), parent_id@, cmd),
    {
        if is_blank(self.subtask_input.as_str()) {
            return None;
        }
        let mut content = String::new();
        core::mem::swap(&mut content, &mut self.subtask_input);
        Some(TaskCommand::AddSubtask { parent_id, content, priority: Priority::Medium })
    }

    /// New content in the new-task form.
    pub fn new_task_content_changed(&mut self, text: String)
        ensures
            *final(self) == (TaskBoard { new_task_content: text, ..*old(self) }),
    {
        self.new_task_content = text;
    }

    /// New priority in the new-task form.
    pub fn new_task_priority_changed(&mut self, priority: Priority)
        ensures
            *final(self) == (TaskBoard { new_task_priority: priority, ..*old(self) }),
    {
        self.new_task_priority = priority;
    }

    /// New project in the new-task form.
    pub fn new_task_project_changed(&mut self, text: String)
        ensures
            *final(self) == (TaskBoard { new_task_project: text, ..*old(self) }),
    {
        self.new_task_project = text;
    }

    /// New notes in the new-task form.
    pub fn new_task_notes_changed(&mut self, text: String)
        ensures
            *final(self) == (TaskBoard { new_task_notes: text, ..*old(self) }),
    {
        self.new_task_notes = text;
    }

    /// New text in the form's subtask field.
    pub fn new_task_subtask_input_changed(&mut self, text: String)
        ensures
            *final(self) == (TaskBoard { new_task_subtask_input: text, ..*old(self) }),
    {
        self.new_task_subtask_input = text;
    }

    /// Add the form's subtask field, trimmed, to the form's subtasks.
    pub fn new_task_add_subtask(&mut self)
        ensures
            after_form_add_subtask(*old(self), *final(self)),
    {
        let text = trimmed(self.new_task_subtask_input.as_str());
        if text.unicode_len() > 0 {
            let ghost before = self.new_task_subtasks@;
            self.new_task_subtasks.push(text);
            assert(strs(self.new_task_subtasks@) =~= strs(before).push(text@));
            self.new_task_subtask_input = String::new();
        }
    }

    /// Remove the form's subtask at `index`.
    pub fn new_task_remove_subtask(&mut self, index: usize)
        ensures
            after_form_remove_subtask(*old(self), *final(self), index),
    {
        if index < self.new_task_subtasks.len() {
            self.new_task_subtasks.remove(index);
        }
    }

    /// Add `task_id` to the form's prerequisites, or remove it when present.
    pub fn new_task_toggle_prereq(&mut self, task_id: String)
        ensures
            after_form_toggle_prereq(*old(self), *final(self), task_id@),
    {
        let ghost before = strs(self.new_task_prereqs@);
        match find_str(&self.new_task_prereqs, task_id.as_str()) {
            Some(pos) => {
                proof {
                    assert(before[pos as int] == task_id@);
                    let k = choose|i: int| 0 <= i < before.len() && before[i] == task_id@
                        && forall|j: int| 0 <= j < i ==> before[j] != task_id@;
                    assert(0 <= k < before.len() && before[k] == task_id@
                        && forall|j: int| 0 <= j < k ==> before[j] != task_id@);
                    if k < pos {
                        assert(self.new_task_prereqs@[k]@ == before[k]);
                    }
                    if pos < k {
                        assert(before[pos as int] != task_id@);
                    }
                }
                self.new_task_prereqs.remove(pos);
                assert(strs(self.new_task_prereqs@) =~= before.remove(pos as int));
            },
            None => {
                self.new_task_prereqs.push(task_id);
                assert(strs(self.new_task_prereqs@) =~= before.push(task_id@));
            },
        }
    }

    /// The new-task form was submitted.
    pub fn submit_new_task(&mut self) -> (cmd: Option<TaskCommand>)
        ensures
            after_submit_form(*old(self), *final(self), cmd),
    {
        let content = trimmed(self.new_task_content.as_str());
        if content.unicode_len() == 0 {
            return None;
        }
        let priority = self.new_task_priority;
        let project_blank = is_blank(self.new_task_project.as_str());
        let notes_blank = is_blank(self.new_task_notes.as_str());
        let mut project = String::new();
        core::mem::swap(&mut project, &mut self.new_task_project);
        let mut notes = String::new();
        core::mem::swap(&mut notes, &mut self.new_task_notes);
        let mut subtasks: Vec<String> = Vec::new();
        core::mem::swap(&mut subtasks, &mut self.new_task_subtasks);
        let mut prereqs: Vec<String> = Vec::new();
        core::mem::swap(&mut prereqs, &mut self.new_task_prereqs);
        self.new_task_content = String::new();
        self.new_task_priority = Priority::Medium;
        self.new_task_subtask_input = String::new();
        self.panel = TaskQueuePanel::Tasks;
        Some(TaskCommand::CreateTask {
            content,
            priority,
            project: if project_blank { None } else { Some(project) },
            notes: if notes_blank { None } else { Some(notes) },
            subtasks,
            prereqs,
        })
    }

    /// Show another panel.
    pub fn switch_panel(&mut self, panel: TaskQueuePanel)
        ensures
            *final(self) == (TaskBoard { panel, ..*old(self) }),
    {
        self.panel = panel;
    }

    /// Use another layout.
    pub fn set_layout(&mut self, layout: TaskQueueLayout)
        ensures
            *final(self) == (TaskBoard { layout, ..*old(self) }),
    {
        self.layout = layout;
    }

    /// Show another panel beside the first.
    pub fn set_secondary_panel(&mut self, panel: TaskQueuePanel)
        ensures
            *final(self) == (TaskBoard { secondary_panel: panel, ..*old(self) }),
    {
        self.secondary_panel = panel;
    }
    /// Handles one panel message; gives the request for the queue service
    /// that it makes, if any.
    pub fn handle(&mut self, msg: TaskQueueMsg<T>) -> (cmd: Option<TaskCommand>)
        ensures
            msg is Connected ==> cmd is None && *final(self) == (TaskBoard { connected: true, ..*old(self) }),
            msg is Disconnected ==> cmd is None && *final(self) == (TaskBoard { connected: false, ..*old(self) }),
            msg matches TaskQueueMsg::InitialState { tasks, stats, current_task } ==> cmd is None
                && *final(self) == (TaskBoard { tasks, stats, current: current_task, ..*old(self) }),
            msg matches TaskQueueMsg::TaskAdded(t) ==> cmd is None && after_added(*old(self), *final(self), t),
            msg matches TaskQueueMsg::TaskUpdated(t) ==> cmd is None && after_updated(*old(self), *final(self), t),
            msg matches TaskQueueMsg::TaskStarted(t) ==> cmd is None && after_started(*old(self), *final(self), t),
            msg matches TaskQueueMsg::TaskCompleted(t) ==> cmd is None && after_completed(*old(self), *final(self), t),
            msg matches TaskQueueMsg::TaskRemoved(id) ==> cmd is None && after_removed(*old(self), *final(self), id@),
            msg matches TaskQueueMsg::TaskDeleted(id) ==> cmd is None && after_removed(*old(self), *final(self), id@),
            msg matches TaskQueueMsg::ApiResult(Ok(t)) ==> cmd is None && after_api_result(*old(self), *final(self), t),
            (msg is Error || msg is SubtaskAdded || msg is NewTaskCreated || (msg matches TaskQueueMsg::ApiResult(Err(_))))
                ==> cmd is None && *final(self) == *old(self),
            msg matches TaskQueueMsg::QuickAddChanged(text) ==> cmd is None
                && *final(self) == (TaskBoard { quick_add_input: text, ..*old(self) }),
            msg is QuickAddSubmit ==> after_quick_add(*old(self), *final(self), cmd),
            msg matches TaskQueueMsg::StartTask(id) ==> *final(self) == *old(self)
                && (cmd matches Some(TaskCommand::StartTask { task_id, agent_id }) && task_id == id
                && agent_id@ == "continuum-studio"@),
            msg is CompleteCurrentTask ==> *final(self) == *old(self)
                && (old(self).current is None ==> cmd is None)
                && (old(self).current matches Some(c) ==> (cmd matches Some(TaskCommand::CompleteTask { task_id }) && task_id@ == c.id@)),
            msg matches TaskQueueMsg::ChangePriority(id, p) ==> *final(self) == *old(self)
                && cmd == Some(TaskCommand::ChangePriority { task_id: id, priority: p }),
            msg matches TaskQueueMsg::DeleteTask(id) ==> *final(self) == *old(self)
                && cmd == Some(TaskCommand::DeleteTask { task_id: id }),
            msg matches TaskQueueMsg::CancelTask(id) ==> *final(self) == *old(self)
                && (cmd matches Some(TaskCommand::CancelTask { task_id, reason }) && task_id == id
                && reason@ == "Cancelled from UI"@),
            msg matches TaskQueueMsg::ToggleTaskDetail(id) ==> cmd is None && after_toggle_detail(*old(self), *final(self), id),
            msg matches TaskQueueMsg::ToggleEditMode(id) ==> cmd is None && after_toggle_edit(*old(self), *final(self), id),
            msg matches TaskQueueMsg::SubtaskInputChanged(text) ==> cmd is None
                && *final(self) == (TaskBoard { subtask_input: text, ..*old(self) }),
            msg matches TaskQueueMsg::SubmitSubtask(parent) ==> after_submit_subtask(*old(self), *final(self), parent@, cmd),
            msg matches TaskQueueMsg::NewTaskContentChanged(text) ==> cmd is None
                && *final(self) == (TaskBoard { new_task_content: text, ..*old(self) }),
            msg matches TaskQueueMsg::NewTaskPriorityChanged(p) ==> cmd is None
                && *final(self) == (TaskBoard { new_task_priority: p, ..*old(self) }),
            msg matches TaskQueueMsg::NewTaskProjectChanged(text) ==> cmd is None
                && *final(self) == (TaskBoard { new_task_project: text, ..*old(self) }),
            msg matches TaskQueueMsg::NewTaskNotesChanged(text) ==> cmd is None
                && *final(self) == (TaskBoard { new_task_notes: text, ..*old(self) }),
            msg matches TaskQueueMsg::NewTaskSubtaskInputChanged(text) ==> cmd is None
                && *final(self) == (TaskBoard { new_task_subtask_input: text, ..*old(self) }),
            msg is NewTaskAddSubtask ==> cmd is None && after_form_add_subtask(*old(self), *final(self)),
            msg matches TaskQueueMsg::NewTaskRemoveSubtask(i) ==> cmd is None && after_form_remove_subtask(*old(self), *final(self), i),
            msg matches TaskQueueMsg::NewTaskTogglePrereq(id) ==> cmd is None && after_form_toggle_prereq(*old(self), *final(self), id@),
            msg is SubmitNewTask ==> after_submit_form(*old(self), *final(self), cmd),
            msg matches TaskQueueMsg::SwitchPanel(p) ==> cmd is None && *final(self) == (TaskBoard { panel: p, ..*old(self) }),
            msg matches TaskQueueMsg::SetLayout(l) ==> cmd is None && *final(self) == (TaskBoard { layout: l, ..*old(self) }),
            msg matches TaskQueueMsg::SetSecondaryPanel(p) ==> cmd is None
                && *final(self) == (TaskBoard { secondary_panel: p, ..*old(self) }),
    {
        match msg {
            TaskQueueMsg::Connected => {
                self.connected();
                None
            },
            TaskQueueMsg::Disconnected => {
                self.disconnected();
                None
            },
            TaskQueueMsg::InitialState { tasks, stats, current_task } => {
                self.initial_state(tasks, stats, current_task);
                None
            },
            TaskQueueMsg::TaskAdded(t) => {
                self.task_added(t);
                None
            },
            TaskQueueMsg::TaskUpdated(t) => {
                self.task_updated(t);
                None
            },
            TaskQueueMsg::TaskStarted(t) => {
                self.task_started(t);
                None
            },
            TaskQueueMsg::TaskCompleted(t) => {
                self.task_completed(t);
                None
            },
            TaskQueueMsg::TaskRemoved(id) => {
                self.task_removed(id.as_str());
                None
            },
            TaskQueueMsg::TaskDeleted(id) => {
                self.task_removed(id.as_str());
                None
            },
            TaskQueueMsg::ApiResult(Ok(t)) => {
                self.api_result(t);
                None
            },
            TaskQueueMsg::ApiResult(Err(_)) => None,
            TaskQueueMsg::Error(_) => None,
            TaskQueueMsg::SubtaskAdded(_) => None,
            TaskQueueMsg::NewTaskCreated(_) => None,
            TaskQueueMsg::QuickAddChanged(text) => {
                self.quick_add_changed(text);
                None
            },
            TaskQueueMsg::QuickAddSubmit => self.quick_add_submit(),
            TaskQueueMsg::StartTask(id) => Some(self.start_task(id)),
            TaskQueueMsg::CompleteCurrentTask => self.complete_current_task(),
            TaskQueueMsg::ChangePriority(id, p) => Some(self.change_priority(id, p)),
            TaskQueueMsg::DeleteTask(id) => Some(self.delete_task(id)),
            TaskQueueMsg::CancelTask(id) => Some(self.cancel_task(id)),
            TaskQueueMsg::ToggleTaskDetail(id) => {
                self.toggle_task_detail(id);
                None
            },
            TaskQueueMsg::ToggleEditMode(id) => {
                self.toggle_edit_mode(id);
                None
            },
            TaskQueueMsg::SubtaskInputChanged(text) => {
                self.subtask_input_changed(text);
                None
            },
            TaskQueueMsg::SubmitSubtask(parent) => self.submit_subtask(parent),
            TaskQueueMsg::NewTaskContentChanged(text) => {
                self.new_task_content_changed(text);
                None
            },
            TaskQueueMsg::NewTaskPriorityChanged(p) => {
                self.new_task_priority_changed(p);
                None
            },
            TaskQueueMsg::NewTaskProjectChanged(text) => {
                self.new_task_project_changed(text);
                None
            },
            TaskQueueMsg::NewTaskNotesChanged(text) => {
                self.new_task_notes_changed(text);
                None
            },
            TaskQueueMsg::NewTaskSubtaskInputChanged(text) => {
                self.new_task_subtask_input_changed(text);
                None
            },
            TaskQueueMsg::NewTaskAddSubtask => {
                self.new_task_add_subtask();
                None
            },
            TaskQueueMsg::NewTaskRemoveSubtask(i) => {
                self.new_task_remove_subtask(i);
                None
            },
            TaskQueueMsg::NewTaskTogglePrereq(id) => {
                self.new_task_toggle_prereq(id);
                None
            },
            TaskQueueMsg::SubmitNewTask => self.submit_new_task(),
            TaskQueueMsg::SwitchPanel(p) => {
                self.switch_panel(p);
                None
            },
            TaskQueueMsg::SetLayout(l) => {
                self.set_layout(l);
                None
            },
            TaskQueueMsg::SetSecondaryPanel(p) => {
                self.set_secondary_panel(p);
                None
            },
        }
    }
}

} // verus!
