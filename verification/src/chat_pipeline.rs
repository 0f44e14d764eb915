//! State of the chat pipeline view: what was loaded from the chat archive
//! service, what is being searched, selected and exported, and the
//! training-data export settings. Each message changes this state and gives
//! the requests for the service that it makes, in order.
//!
//! What the service returns is carried through as the types of a
//! [`ChatData`] family.

use vstd::prelude::*;
use vstd::string::*;
use crate::text::push_decimal;
use crate::text::decimal;

verus! {

/// The types of what the chat archive service returns.
pub trait ChatData {
    /// Archive statistics
    type Stats;
    /// A conversation in a list
    type Conversation;
    /// A conversation with its messages
    type Detail;
    type Topic;
    type SearchResult;
    /// Where chats were found on disk
    type Locations;
    /// An exported conversation
    type Export;
    /// Status of the file watcher
    type Watcher;
    /// Format of a single-conversation export
    type ExportFormat: Copy;
    /// Format of a training-data export
    type TrainingFormat: Copy;
    /// How a training export sanitizes conversations
    type Sanitization: Copy;
    /// How a training export augments conversations
    type Augmentation: Copy;
    /// A minimum quality score
    type Quality: Copy;
    /// Preview statistics of a training export
    type TrainingStats;
    /// A sample of training data
    type TrainingSample;
    /// What a finished training export reports
    type TrainingExport;
}

/// Sub-view of the chat pipeline.
#[derive(Clone, Copy, Debug, PartialEq, Eq, Structural)]
pub enum ChatSubView {
    Dashboard,
    Scanner,
    Conversations,
    Topics,
    Search,
    Export,
    Watcher,
}

/// Export of one conversation, or of training data.
#[derive(Clone, Copy, Debug, PartialEq, Eq, Structural)]
pub enum ExportMode {
    Single,
    Training,
}

/// A conversation in a list: its ID and the rest of it.
#[derive(Debug)]
pub struct Conversation<C> {
    pub id: String,
    pub data: C,
}

/// Filters of a training-data export.
#[derive(Clone, Copy, Debug)]
pub struct TrainingFilters<Q> {
    pub has_code: bool,
    pub agentic_only: bool,
    pub min_turns: Option<u32>,
    pub min_quality_score: Option<Q>,
}

/// A finished training export with the files it wrote.
#[derive(Debug)]
pub struct TrainingExportDone<X> {
    pub response: X,
    pub train_file: Option<String>,
    pub val_file: Option<String>,
}

/// Settings and results of the training-data export.
pub struct TrainingExportState<P: ChatData> {
    pub mode: ExportMode,
    pub format: P::TrainingFormat,
    pub filters: TrainingFilters<P::Quality>,
    pub sanitization: P::Sanitization,
    pub augmentation: P::Augmentation,
    pub loading_preview: bool,
    pub preview_stats: Option<P::TrainingStats>,
    pub samples: Vec<P::TrainingSample>,
    pub exporting: bool,
    pub last_export: Option<P::TrainingExport>,
    pub system_prompt: String,
}

/// State of the chat pipeline view.
pub struct ChatPipeline<P: ChatData> {
    pub sub_view: ChatSubView,
    pub loading: bool,
    pub error: Option<String>,
    pub api_available: bool,
    pub stats: Option<P::Stats>,
    pub conversations: Vec<Conversation<P::Conversation>>,
    pub selected_conversation: Option<P::Detail>,
    pub topics: Vec<P::Topic>,
    pub search_results: Vec<P::SearchResult>,
    pub locations: Option<P::Locations>,
    pub search_query: String,
    /// Messages shown in full in the open conversation
    pub expanded_messages: Vec<usize>,
    pub show_full_conversation: bool,
    pub last_action_result: Option<String>,
    pub export_format: P::ExportFormat,
    /// IDs of the conversations selected for export
    pub export_selected: Vec<String>,
    pub exporting: bool,
    pub export_result: Option<P::Export>,
    pub watcher_status: Option<P::Watcher>,
    pub training: TrainingExportState<P>,
}

/// A request for the chat archive service (or, for the export, for the
/// desktop).
#[derive(Debug)]
#[allow(inconsistent_fields)]
pub enum ChatRequest<P: ChatData> {
    FetchLocations,
    FetchTopics,
    FetchConversations { limit: u32 },
    FetchWatcherStatus,
    FetchStats,
    FetchHealth,
    Search { query: String, mode: String },
    FetchConversation { id: String },
    BatchIngest,
    SummarizePending,
    ClusterTopics,
    ImportOrphaned,
    ExportConversation { id: String, format: P::ExportFormat },
    /// Write the current export to the downloads directory
    SaveExport,
    /// Put the current export on the clipboard
    CopyExport,
    TriggerWatcherScan,
    TriggerPipelineProcessAll,
    FetchTrainingStats { filters: TrainingFilters<P::Quality> },
    FetchTrainingSamples { count: u32, filters: TrainingFilters<P::Quality> },
    /// Run a training export with the current training settings
    RunTrainingExport {
        format: P::TrainingFormat,
        filters: TrainingFilters<P::Quality>,
        sanitization: P::Sanitization,
        augmentation: P::Augmentation,
        system_prompt: Option<String>,
    },
}

/// Messages of the chat pipeline view.
#[derive(Debug)]
pub enum ChatPipelineMsg<P: ChatData> {
    SwitchSubView(ChatSubView),
    HealthChecked(Result<bool, String>),
    StatsLoaded(Result<P::Stats, String>),
    ConversationsLoaded(Result<Vec<Conversation<P::Conversation>>, String>),
    ConversationLoaded(Result<P::Detail, String>),
    TopicsLoaded(Result<Vec<P::Topic>, String>),
    SearchCompleted(Result<Vec<P::SearchResult>, String>),
    LocationsLoaded(Result<P::Locations, String>),
    SearchQueryChanged(String),
    DoSearch,
    SelectConversation(String),
    BackToList,
    BatchIngestDone(Result<String, String>),
    SummarizeDone(Result<String, String>),
    ClusterDone(Result<String, String>),
    ImportOrphanedDone(Result<String, String>),
    DoBatchIngest,
    DoSummarizePending,
    DoClusterTopics,
    DoImportOrphaned,
    RefreshAll,
    ClearError,
    ClearActionResult,
    ToggleMessageExpand(usize),
    ToggleShowFull,
    SetExportFormat(P::ExportFormat),
    ToggleExportSelect(String),
    SelectAllForExport,
    DeselectAllForExport,
    ExportConversation(String),
    ExportSelected,
    ExportCompleted(Result<P::Export, String>),
    ClearExportResult,
    SaveExportToFile,
    /// The export was written to the given path, or failed
    ExportSaved(Result<String, String>),
    CopyExportToClipboard,
    SwitchExportMode(ExportMode),
    WatcherStatusLoaded(Result<P::Watcher, String>),
    TriggerWatcherScan,
    TriggerPipelineProcessAll,
    WatcherScanDone(Result<String, String>),
    PipelineProcessDone(Result<String, String>),
    SetTrainingFormat(P::TrainingFormat),
    ToggleTrainingHasCode,
    ToggleTrainingAgenticOnly,
    SetTrainingMinTurns(u32),
    SetTrainingMinQuality(P::Quality),
    FetchTrainingStats,
    TrainingStatsLoaded(Result<P::TrainingStats, String>),
    FetchTrainingSamples,
    TrainingSamplesLoaded(Result<Vec<P::TrainingSample>, String>),
    RunTrainingExport,
    TrainingExportComplete(Result<TrainingExportDone<P::TrainingExport>, String>),
}

/// `o` holds the text `t`.
pub open spec fn holds_text(o: Option<String>, t: Seq<char>) -> bool {
    o matches Some(m) && m@ == t
}

/// `id` is among the strings of `v`.
pub open spec fn has_id(v: Seq<String>, id: Seq<char>) -> bool {
    exists|k: int| 0 <= k < v.len() && v[k]@ == id
}

/// `prefix` followed by `rest`.
fn prefixed(prefix: &str, rest: &str) -> (s: String)
    ensures
        s@ == prefix@ + rest@,
{
    let mut s = String::from_str(prefix);
    s.append(rest);
    s
}

/// The summary shown after a batch ingest.
pub open spec fn spec_ingest_summary(imported: nat, queued: nat, topics: nat) -> Seq<char> {
    "Imported: "@ + decimal(imported) + ", Summarized: "@ + decimal(queued) + ", Topics: "@ + decimal(topics)
}

/// Summary of a batch ingest: how many chats were imported, queued for
/// summaries, and how many topics were created.
pub fn ingest_summary(imported: u64, queued: u64, topics: u64) -> (s: String)
    ensures
        s@ == spec_ingest_summary(imported as nat, queued as nat, topics as nat),
{
    let mut s = String::from_str("Imported: ");
    push_decimal(&mut s, imported as u128);
    s.append(", Summarized: ");
    push_decimal(&mut s, queued as u128);
    s.append(", Topics: ");
    push_decimal(&mut s, topics as u128);
    assert(s@ =~= spec_ingest_summary(imported as nat, queued as nat, topics as nat));
    s
}

/// Whether a health reply reports the service as up.
pub fn health_ok(status: &str) -> (b: bool)
    ensures
        b == (status@ == "ok"@),
{
    crate::text::same_text(status, "ok")
}

/// `a` is `b` after a load finished: loading stops, and a failure is
/// reported as `prefix` followed by the error. `loaded` says what a
/// success changed.
pub open spec fn after_load<P: ChatData, T>(
    b: ChatPipeline<P>,
    a: ChatPipeline<P>,
    r: Result<T, String>,
    prefix: Seq<char>,
    loaded: spec_fn(T) -> ChatPipeline<P>,
) -> bool {
    match r {
        Ok(x) => a == loaded(x),
        Err(e) => holds_text(a.error, prefix + e@) && a == (ChatPipeline { loading: false, error: a.error, ..b }),
    }
}

/// `a` is `b` after an action finished: loading stops; a success is
/// reported as `ok_prefix` followed by its message, a failure as
/// `err_prefix` followed by the error.
pub open spec fn after_action<P: ChatData>(
    b: ChatPipeline<P>,
    a: ChatPipeline<P>,
    r: Result<String, String>,
    ok_prefix: Seq<char>,
    err_prefix: Seq<char>,
) -> bool {
    match r {
        Ok(m) => holds_text(a.last_action_result, ok_prefix + m@)
            && a == (ChatPipeline { loading: false, last_action_result: a.last_action_result, ..b }),
        Err(e) => holds_text(a.error, err_prefix + e@) && a == (ChatPipeline { loading: false, error: a.error, ..b }),
    }
}

/// The requests made when a sub-view is opened: the scanner loads the
/// locations unless they were loaded; topics, conversations and the
/// watcher load theirs; the other views load nothing.
pub open spec fn sub_view_requests<P: ChatData>(b: ChatPipeline<P>, sub: ChatSubView, reqs: Seq<ChatRequest<P>>) -> bool {
    match sub {
        ChatSubView::Scanner => if b.locations is None {
            reqs.len() == 1 && reqs[0] is FetchLocations
        } else {
            reqs.len() == 0
        },
        ChatSubView::Topics => reqs.len() == 1 && reqs[0] is FetchTopics,
        ChatSubView::Conversations => reqs.len() == 1 && reqs[0] == (ChatRequest::<P>::FetchConversations { limit: 100 }),
        ChatSubView::Watcher => reqs.len() == 1 && reqs[0] is FetchWatcherStatus,
        _ => reqs.len() == 0,
    }
}

/// Whether opening the sub-view starts a load.
pub open spec fn sub_view_loads<P: ChatData>(b: ChatPipeline<P>, sub: ChatSubView) -> bool {
    (sub == ChatSubView::Scanner && b.locations is None) || sub == ChatSubView::Topics
        || sub == ChatSubView::Conversations || sub == ChatSubView::Watcher
}

/// The file line of a training export report.
pub open spec fn file_or_empty(f: Option<String>) -> Seq<char> {
    match f {
        Some(s) => s@,
        None => Seq::empty(),
    }
}

/// The report of a finished training export.
pub open spec fn spec_export_report(train: Option<String>, val: Option<String>) -> Seq<char> {
    "Export complete! Train: "@ + file_or_empty(train) + ", Val: "@ + file_or_empty(val)
}

impl<P: ChatData> ChatPipeline<P> {
    /// Messages of the open conversation shown in full.
    pub open spec fn expanded(&self, i: usize) -> bool {
        self.expanded_messages@.contains(i)
    }

    /// Whether a conversation is selected for export.
    pub open spec fn export_chosen(&self, id: Seq<char>) -> bool {
        has_id(self.export_selected@, id)
    }
}

/// After message `i` was expanded or collapsed: it is shown in full
/// unless it was; nothing else changes.
pub open spec fn after_toggle_expand<P: ChatData>(b: ChatPipeline<P>, a: ChatPipeline<P>, i: usize) -> bool {
    &&& a == (ChatPipeline { expanded_messages: a.expanded_messages, ..b })
    &&& b.expanded(i) ==> forall|y: usize| #[trigger] a.expanded(y) <==> (b.expanded(y) && y != i)
    &&& !b.expanded(i) ==> forall|y: usize| #[trigger] a.expanded(y) <==> (b.expanded(y) || y == i)
}

/// After conversation `id` was selected or deselected for export: it is
/// selected unless it was; nothing else changes.
pub open spec fn after_toggle_export<P: ChatData>(b: ChatPipeline<P>, a: ChatPipeline<P>, id: Seq<char>) -> bool {
    &&& a == (ChatPipeline { export_selected: a.export_selected, ..b })
    &&& b.export_chosen(id) ==> forall|s: Seq<char>| #[trigger] a.export_chosen(s) <==> (b.export_chosen(s) && s != id)
    &&& !b.export_chosen(id) ==> forall|s: Seq<char>| #[trigger] a.export_chosen(s) <==> (b.export_chosen(s) || s == id)
}

/// Expanding or collapsing the same message twice shows the same messages
/// in full as before.
pub proof fn lemma_toggle_expand_twice<P: ChatData>(a0: ChatPipeline<P>, a1: ChatPipeline<P>, a2: ChatPipeline<P>, i: usize)
    requires
        after_toggle_expand(a0, a1, i),
        after_toggle_expand(a1, a2, i),
    ensures
        forall|y: usize| #[trigger] a2.expanded(y) == a0.expanded(y),
        a2 == (ChatPipeline { expanded_messages: a2.expanded_messages, ..a0 }),
{
    assert(a1.expanded(i) != a0.expanded(i));
    assert forall|y: usize| #[trigger] a2.expanded(y) == a0.expanded(y) by {
        assert(a1.expanded(y) == (a0.expanded(y) != (y == i)));
    }
}

/// Selecting or deselecting the same conversation twice leaves the same
/// selection as before.
pub proof fn lemma_toggle_export_twice<P: ChatData>(a0: ChatPipeline<P>, a1: ChatPipeline<P>, a2: ChatPipeline<P>, id: Seq<char>)
    requires
        after_toggle_export(a0, a1, id),
        after_toggle_export(a1, a2, id),
    ensures
        forall|s: Seq<char>| #[trigger] a2.export_chosen(s) == a0.export_chosen(s),
        a2 == (ChatPipeline { export_selected: a2.export_selected, ..a0 }),
{
    assert(a1.export_chosen(id) != a0.export_chosen(id));
    assert forall|s: Seq<char>| #[trigger] a2.export_chosen(s) == a0.export_chosen(s) by {
        assert(a1.export_chosen(s) == (a0.export_chosen(s) != (s == id)));
    }
}

/// Removes every occurrence of `x`.
fn remove_index_all(v: &mut Vec<usize>, x: usize)
    ensures
        forall|y: usize| #[trigger] final(v)@.contains(y) <==> (old(v)@.contains(y) && y != x),
{
    let ghost v0 = v@;
    let mut kept: Vec<usize> = Vec::new();
    let mut i: usize = 0;
    while i < v.len()
        invariant
            v@ == v0,
            i <= v0.len(),
            forall|y: usize| #[trigger] kept@.contains(y) <==> (v0.take(i as int).contains(y) && y != x),
        decreases v0.len() - i,
    {
        let ghost pre = kept@;
        let y = v[i];
        if y != x {
            kept.push(y);
        }
        proof {
            assert(v0.take(i + 1) =~= v0.take(i as int).push(y));
            let t1 = v0.take(i + 1);
            let t0 = v0.take(i as int);
            assert forall|z: usize| #[trigger] kept@.contains(z) <==> (t1.contains(z) && z != x) by {
                if kept@.contains(z) && !pre.contains(z) {
                    let k = choose|k: int| 0 <= k < kept@.len() && kept@[k] == z;
                    if k < pre.len() {
                        assert(pre[k] == z);
                    }
                    assert(t1[i as int] == y);
                }
                if t1.contains(z) && z != x {
                    let k = choose|k: int| 0 <= k < t1.len() && t1[k] == z;
                    if k < i {
                        assert(t0[k] == z);
                    } else {
                        assert(kept@[kept@.len() - 1] == z);
                    }
                }
                if pre.contains(z) {
                    let k = choose|k: int| 0 <= k < pre.len() && pre[k] == z;
                    assert(kept@[k] == z);
                }
                if t0.contains(z) {
                    let k = choose|k: int| 0 <= k < t0.len() && t0[k] == z;
                    assert(t1[k] == z);
                }
            }
        }
        i = i + 1;
    }
    assert(v0.take(i as int) =~= v0);
    *v = kept;
}

/// Position of `x` in `v`, if present.
fn index_in(v: &Vec<usize>, x: usize) -> (r: bool)
    ensures
        r == v@.contains(x),
{
    let mut i: usize = 0;
    while i < v.len()
        invariant
            i <= v@.len(),
            forall|k: int| 0 <= k < i ==> v@[k] != x,
        decreases v@.len() - i,
    {
        if v[i] == x {
            return true;
        }
        i = i + 1;
    }
    false
}

/// Whether `id` is among `v`.
fn holds_id(v: &Vec<String>, id: &str) -> (r: bool)
    ensures
        r == has_id(v@, id@),
{
    let mut i: usize = 0;
    while i < v.len()
        invariant
            i <= v@.len(),
            forall|k: int| 0 <= k < i ==> v@[k]@ != id@,
        decreases v@.len() - i,
    {
        if crate::text::same_text(v[i].as_str(), id) {
            return true;
        }
        i = i + 1;
    }
    false
}

/// Removes every occurrence of `id`.
fn remove_id_all(v: &mut Vec<String>, id: &str)
    ensures
        forall|s: Seq<char>| #[trigger] has_id(final(v)@, s) <==> (has_id(old(v)@, s) && s != id@),
{
    let ghost v0 = v@;
    let mut kept: Vec<String> = Vec::new();
    let mut rest: Vec<String> = Vec::new();
    let n = v.len();
    while v.len() > 0
        invariant
            rest@.len() + v@.len() == v0.len(),
            v@ == v0.take(v@.len() as int),
            forall|k: int| 0 <= k < rest@.len() ==> rest@[k] == v0[v0.len() - 1 - k],
        decreases v@.len(),
    {
        let x = v.pop().unwrap();
        rest.push(x);
    }
    let mut taken: usize = 0;
    while rest.len() > 0
        invariant
            taken + rest@.len() == v0.len(),
            n == v0.len(),
            forall|k: int| 0 <= k < rest@.len() ==> rest@[k] == v0[v0.len() - 1 - k],
            forall|s: Seq<char>| #[trigger] has_id(kept@, s) <==> (has_id(v0.take(taken as int), s) && s != id@),
        decreases rest@.len(),
    {
        let ghost pre = kept@;
        let x = rest.pop().unwrap();
        proof {
            assert(x == v0[taken as int]);
            assert(v0.take(taken + 1) =~= v0.take(taken as int).push(x));
        }
        if !crate::text::same_text(x.as_str(), id) {
            kept.push(x);
        }
        proof {
            let t1 = v0.take(taken + 1);
            let t0 = v0.take(taken as int);
            assert forall|s: Seq<char>| #[trigger] has_id(kept@, s) <==> (has_id(t1, s) && s != id@) by {
                if has_id(kept@, s) && !has_id(pre, s) {
                    let k = choose|k: int| 0 <= k < kept@.len() && kept@[k]@ == s;
                    if k < pre.len() {
                        assert(pre[k]@ == s);
                    }
                    assert(t1[taken as int]@ == s);
                }
                if has_id(t1, s) && s != id@ {
                    let k = choose|k: int| 0 <= k < t1.len() && t1[k]@ == s;
                    if k < taken {
                        assert(t0[k]@ == s);
                    } else {
                        assert(kept@[kept@.len() - 1]@ == s);
                    }
                }
                if has_id(pre, s) {
                    let k = choose|k: int| 0 <= k < pre.len() && pre[k]@ == s;
                    assert(kept@[k]@ == s);
                }
                if has_id(t0, s) {
                    let k = choose|k: int| 0 <= k < t0.len() && t0[k]@ == s;
                    assert(t1[k]@ == s);
                }
            }
        }
        taken = taken + 1;
    }
    assert(v0.take(taken as int) =~= v0);
    *v = kept;
}

impl<P: ChatData> ChatPipeline<P> {
    /// A view on the dashboard with nothing loaded, selected or exported,
    /// and training filters that filter nothing.
    pub fn new(
        export_format: P::ExportFormat,
        training_format: P::TrainingFormat,
        sanitization: P::Sanitization,
        augmentation: P::Augmentation,
    ) -> (c: Self)
        ensures
            c.sub_view == ChatSubView::Dashboard,
            !c.loading && !c.api_available && !c.exporting && !c.show_full_conversation,
            c.error is None && c.last_action_result is None,
            c.stats is None && c.selected_conversation is None && c.locations is None,
            c.export_result is None && c.watcher_status is None,
            c.conversations@.len() == 0 && c.topics@.len() == 0 && c.search_results@.len() == 0,
            c.search_query@.len() == 0,
            c.expanded_messages@.len() == 0 && c.export_selected@.len() == 0,
            c.export_format == export_format,
            c.training.mode == ExportMode::Single,
            c.training.format == training_format,
            c.training.sanitization == sanitization,
            c.training.augmentation == augmentation,
            c.training.filters == (TrainingFilters::<P::Quality> {
                has_code: false, agentic_only: false, min_turns: None, min_quality_score: None,
            }),
            !c.training.loading_preview && !c.training.exporting,
            c.training.preview_stats is None && c.training.last_export is None,
            c.training.samples@.len() == 0 && c.training.system_prompt@.len() == 0,
    {
        ChatPipeline {
            sub_view: ChatSubView::Dashboard,
            loading: false,
            error: None,
            api_available: false,
            stats: None,
            conversations: Vec::new(),
            selected_conversation: None,
            topics: Vec::new(),
            search_results: Vec::new(),
            locations: None,
            search_query: String::new(),
            expanded_messages: Vec::new(),
            show_full_conversation: false,
            last_action_result: None,
            export_format,
            export_selected: Vec::new(),
            exporting: false,
            export_result: None,
            watcher_status: None,
            training: TrainingExportState {
                mode: ExportMode::Single,
                format: training_format,
                filters: TrainingFilters { has_code: false, agentic_only: false, min_turns: None, min_quality_score: None },
                sanitization,
                augmentation,
                loading_preview: false,
                preview_stats: None,
                samples: Vec::new(),
                exporting: false,
                last_export: None,
                system_prompt: String::new(),
            },
        }
    }
}

/// Whether the message is one of those of `on_loaded`.
fn is_loaded_msg<P: ChatData>(msg: &ChatPipelineMsg<P>) -> (b: bool)
    ensures
        b == (msg is SwitchSubView || msg is HealthChecked || msg is StatsLoaded || msg is ConversationsLoaded || msg is ConversationLoaded || msg is TopicsLoaded || msg is SearchCompleted || msg is LocationsLoaded || msg is WatcherStatusLoaded || msg is SearchQueryChanged),
{
    match msg {
        ChatPipelineMsg::SwitchSubView(..) => true,
        ChatPipelineMsg::HealthChecked(..) => true,
        ChatPipelineMsg::StatsLoaded(..) => true,
        ChatPipelineMsg::ConversationsLoaded(..) => true,
        ChatPipelineMsg::ConversationLoaded(..) => true,
        ChatPipelineMsg::TopicsLoaded(..) => true,
        ChatPipelineMsg::SearchCompleted(..) => true,
        ChatPipelineMsg::LocationsLoaded(..) => true,
        ChatPipelineMsg::WatcherStatusLoaded(..) => true,
        ChatPipelineMsg::SearchQueryChanged(..) => true,
        _ => false,
    }
}

/// Whether the message is one of those of `on_action`.
fn is_action_msg<P: ChatData>(msg: &ChatPipelineMsg<P>) -> (b: bool)
    ensures
        b == (msg is DoSearch || msg is SelectConversation || msg is BackToList || msg is BatchIngestDone || msg is SummarizeDone || msg is ImportOrphanedDone || msg is ClusterDone || msg is DoBatchIngest || msg is DoSummarizePending || msg is DoClusterTopics || msg is DoImportOrphaned || msg is RefreshAll || msg is ClearError || msg is ClearActionResult || msg is ToggleMessageExpand || msg is ToggleShowFull || msg is TriggerWatcherScan || msg is TriggerPipelineProcessAll || msg is WatcherScanDone || msg is PipelineProcessDone),
{
    match msg {
        ChatPipelineMsg::DoSearch => true,
        ChatPipelineMsg::SelectConversation(..) => true,
        ChatPipelineMsg::BackToList => true,
        ChatPipelineMsg::BatchIngestDone(..) => true,
        ChatPipelineMsg::SummarizeDone(..) => true,
        ChatPipelineMsg::ImportOrphanedDone(..) => true,
        ChatPipelineMsg::ClusterDone(..) => true,
        ChatPipelineMsg::DoBatchIngest => true,
        ChatPipelineMsg::DoSummarizePending => true,
        ChatPipelineMsg::DoClusterTopics => true,
        ChatPipelineMsg::DoImportOrphaned => true,
        ChatPipelineMsg::RefreshAll => true,
        ChatPipelineMsg::ClearError => true,
        ChatPipelineMsg::ClearActionResult => true,
        ChatPipelineMsg::ToggleMessageExpand(..) => true,
        ChatPipelineMsg::ToggleShowFull => true,
        ChatPipelineMsg::TriggerWatcherScan => true,
        ChatPipelineMsg::TriggerPipelineProcessAll => true,
        ChatPipelineMsg::WatcherScanDone(..) => true,
        ChatPipelineMsg::PipelineProcessDone(..) => true,
        _ => false,
    }
}

/// Whether the message is one of those of `on_export`.
fn is_export_msg<P: ChatData>(msg: &ChatPipelineMsg<P>) -> (b: bool)
    ensures
        b == (msg is SetExportFormat || msg is ToggleExportSelect || msg is SelectAllForExport || msg is DeselectAllForExport || msg is ExportConversation || msg is ExportSelected || msg is ExportCompleted || msg is ClearExportResult || msg is SaveExportToFile || msg is ExportSaved || msg is CopyExportToClipboard || msg is SwitchExportMode),
{
    match msg {
        ChatPipelineMsg::SetExportFormat(..) => true,
        ChatPipelineMsg::ToggleExportSelect(..) => true,
        ChatPipelineMsg::SelectAllForExport => true,
        ChatPipelineMsg::DeselectAllForExport => true,
        ChatPipelineMsg::ExportConversation(..) => true,
        ChatPipelineMsg::ExportSelected => true,
        ChatPipelineMsg::ExportCompleted(..) => true,
        ChatPipelineMsg::ClearExportResult => true,
        ChatPipelineMsg::SaveExportToFile => true,
        ChatPipelineMsg::ExportSaved(..) => true,
        ChatPipelineMsg::CopyExportToClipboard => true,
        ChatPipelineMsg::SwitchExportMode(..) => true,
        _ => false,
    }
}

/// Messages that open a sub-view or bring what the service loaded: how the view changes and what it requests.
pub open spec fn loaded_step<P: ChatData>(before: ChatPipeline<P>, after: ChatPipeline<P>, msg: ChatPipelineMsg<P>, reqs: Seq<ChatRequest<P>>) -> bool {
    &&& (msg matches ChatPipelineMsg::SwitchSubView(sub) ==> sub_view_requests(before, sub, reqs)
            && after == (ChatPipeline {
                sub_view: sub,
                loading: if sub_view_loads(before, sub) { true } else { before.loading },
                ..before
            }))
    &&& (msg matches ChatPipelineMsg::HealthChecked(res) ==> reqs.len() == 0 && (match res {
            Ok(ok) => after == (ChatPipeline { api_available: ok, loading: false, ..before }),
            Err(e) => holds_text(after.error, "API unavailable: "@ + e@)
                && after == (ChatPipeline { api_available: false, loading: false, error: after.error, ..before }),
        }))
    &&& (msg matches ChatPipelineMsg::StatsLoaded(res) ==> reqs.len() == 0 && after_load(before, after, res,
            "Failed to load stats: "@,
            |x: P::Stats| ChatPipeline { loading: false, api_available: true, stats: Some(x), ..before }))
    &&& (msg matches ChatPipelineMsg::ConversationsLoaded(res) ==> reqs.len() == 0 && after_load(before, after, res,
            "Failed to load conversations: "@,
            |x: Vec<Conversation<P::Conversation>>| ChatPipeline { loading: false, conversations: x, ..before }))
    &&& (msg matches ChatPipelineMsg::ConversationLoaded(res) ==> reqs.len() == 0 && after_load(before, after, res,
            "Failed to load conversation: "@,
            |x: P::Detail| ChatPipeline { loading: false, selected_conversation: Some(x), ..before }))
    &&& (msg matches ChatPipelineMsg::TopicsLoaded(res) ==> reqs.len() == 0 && after_load(before, after, res,
            "Failed to load topics: "@,
            |x: Vec<P::Topic>| ChatPipeline { loading: false, topics: x, ..before }))
    &&& (msg matches ChatPipelineMsg::SearchCompleted(res) ==> reqs.len() == 0 && after_load(before, after, res,
            "Search failed: "@,
            |x: Vec<P::SearchResult>| ChatPipeline { loading: false, search_results: x, ..before }))
    &&& (msg matches ChatPipelineMsg::LocationsLoaded(res) ==> reqs.len() == 0 && after_load(before, after, res,
            "Failed to scan locations: "@,
            |x: P::Locations| ChatPipeline { loading: false, locations: Some(x), ..before }))
    &&& (msg matches ChatPipelineMsg::WatcherStatusLoaded(res) ==> reqs.len() == 0 && after_load(before, after, res,
            "Failed to load watcher status: "@,
            |x: P::Watcher| ChatPipeline { loading: false, watcher_status: Some(x), ..before }))
    &&& (msg matches ChatPipelineMsg::SearchQueryChanged(q) ==> reqs.len() == 0
            && after == (ChatPipeline { search_query: q, ..before }))
}

/// Messages that search, open conversations and run service actions: how the view changes and what it requests.
pub open spec fn action_step<P: ChatData>(before: ChatPipeline<P>, after: ChatPipeline<P>, msg: ChatPipelineMsg<P>, reqs: Seq<ChatRequest<P>>) -> bool {
    &&& (msg is DoSearch ==> if before.search_query@.len() == 0 {
            after == before && reqs.len() == 0
        } else {
            after == (ChatPipeline { loading: true, ..before }) && reqs.len() == 1
                && (reqs[0] matches ChatRequest::Search { query, mode } && query@ == before.search_query@
                && mode@ == "hybrid"@)
        })
    &&& (msg matches ChatPipelineMsg::SelectConversation(id) ==> after.expanded_messages@.len() == 0
            && after == (ChatPipeline {
                loading: true,
                expanded_messages: after.expanded_messages,
                show_full_conversation: false,
                ..before
            })
            && reqs.len() == 1 && reqs[0] == (ChatRequest::<P>::FetchConversation { id }))
    &&& (msg is BackToList ==> reqs.len() == 0 && after.expanded_messages@.len() == 0
            && after == (ChatPipeline {
                selected_conversation: None,
                expanded_messages: after.expanded_messages,
                show_full_conversation: false,
                ..before
            }))
    &&& (msg matches ChatPipelineMsg::BatchIngestDone(res) ==> after_action(before, after, res,
            "Batch ingest: "@, "Batch ingest failed: "@) && reqs.len() == 1 && reqs[0] is FetchStats)
    &&& (msg matches ChatPipelineMsg::SummarizeDone(res) ==> after_action(before, after, res,
            Seq::empty(), Seq::empty()) && reqs.len() == 1 && reqs[0] is FetchStats)
    &&& (msg matches ChatPipelineMsg::ImportOrphanedDone(res) ==> after_action(before, after, res,
            Seq::empty(), Seq::empty()) && reqs.len() == 1 && reqs[0] is FetchStats)
    &&& (msg matches ChatPipelineMsg::ClusterDone(res) ==> after_action(before, after, res,
            Seq::empty(), Seq::empty()) && reqs.len() == 2 && reqs[0] is FetchStats && reqs[1] is FetchTopics)
    &&& (msg is DoBatchIngest ==> after == (ChatPipeline { loading: true, last_action_result: None, ..before })
            && reqs.len() == 1 && reqs[0] is BatchIngest)
    &&& (msg is DoSummarizePending ==> after == (ChatPipeline { loading: true, ..before })
            && reqs.len() == 1 && reqs[0] is SummarizePending)
    &&& (msg is DoClusterTopics ==> after == (ChatPipeline { loading: true, ..before })
            && reqs.len() == 1 && reqs[0] is ClusterTopics)
    &&& (msg is DoImportOrphaned ==> after == (ChatPipeline { loading: true, ..before })
            && reqs.len() == 1 && reqs[0] is ImportOrphaned)
    &&& (msg is RefreshAll ==> after == (ChatPipeline { loading: true, error: None, ..before })
            && reqs.len() == 3 && reqs[0] is FetchStats && reqs[1] is FetchHealth
            && reqs[2] == (ChatRequest::<P>::FetchConversations { limit: 100 }))
    &&& (msg is ClearError ==> reqs.len() == 0 && after == (ChatPipeline { error: None, ..before }))
    &&& (msg is ClearActionResult ==> reqs.len() == 0
            && after == (ChatPipeline { last_action_result: None, ..before }))
    &&& (msg matches ChatPipelineMsg::ToggleMessageExpand(i) ==> reqs.len() == 0
            && after_toggle_expand(before, after, i))
    &&& (msg is ToggleShowFull ==> reqs.len() == 0 && (if before.show_full_conversation {
            after.expanded_messages@.len() == 0 && after == (ChatPipeline {
                show_full_conversation: false,
                expanded_messages: after.expanded_messages,
                ..before
            })
        } else {
            after == (ChatPipeline { show_full_conversation: true, ..before })
        }))
    &&& (msg is TriggerWatcherScan ==> after == (ChatPipeline { loading: true, ..before })
            && reqs.len() == 1 && reqs[0] is TriggerWatcherScan)
    &&& (msg is TriggerPipelineProcessAll ==> after == (ChatPipeline { loading: true, ..before })
            && reqs.len() == 1 && reqs[0] is TriggerPipelineProcessAll)
    &&& (msg matches ChatPipelineMsg::WatcherScanDone(res) ==> after_action(before, after, res,
            Seq::empty(), "Scan failed: "@)
            && (res is Ok ==> reqs.len() == 1 && reqs[0] is FetchWatcherStatus)
            && (res is Err ==> reqs.len() == 0))
    &&& (msg matches ChatPipelineMsg::PipelineProcessDone(res) ==> after_action(before, after, res,
            Seq::empty(), "Processing failed: "@)
            && (res is Ok ==> reqs.len() == 2 && reqs[0] is FetchWatcherStatus && reqs[1] is FetchStats)
            && (res is Err ==> reqs.len() == 0))
}

/// Export messages: how the view changes and what it requests.
pub open spec fn export_step<P: ChatData>(before: ChatPipeline<P>, after: ChatPipeline<P>, msg: ChatPipelineMsg<P>, reqs: Seq<ChatRequest<P>>) -> bool {
    &&& (msg matches ChatPipelineMsg::SetExportFormat(f) ==> reqs.len() == 0
            && after == (ChatPipeline { export_format: f, ..before }))
    &&& (msg matches ChatPipelineMsg::ToggleExportSelect(id) ==> reqs.len() == 0
            && after_toggle_export(before, after, id@))
    &&& (msg is SelectAllForExport ==> reqs.len() == 0
            && after == (ChatPipeline { export_selected: after.export_selected, ..before })
            && forall|s: Seq<char>| #[trigger] after.export_chosen(s) <==> (before.export_chosen(s)
                || exists|k: int| 0 <= k < before.conversations@.len() && before.conversations@[k].id@ == s))
    &&& (msg is DeselectAllForExport ==> reqs.len() == 0 && after.export_selected@.len() == 0
            && after == (ChatPipeline { export_selected: after.export_selected, ..before }))
    &&& (msg matches ChatPipelineMsg::ExportConversation(id) ==> after == (ChatPipeline {
                exporting: true,
                export_result: None,
                ..before
            })
            && reqs.len() == 1 && reqs[0] == (ChatRequest::<P>::ExportConversation { id, format: before.export_format }))
    &&& (msg is ExportSelected ==> if before.export_selected@.len() == 0 {
            after == before && reqs.len() == 0
        } else {
            after == (ChatPipeline { exporting: true, export_result: None, ..before }) && reqs.len() == 1
                && (reqs[0] matches ChatRequest::ExportConversation { id, format }
                && id@ == before.export_selected@[0]@ && format == before.export_format)
        })
    &&& (msg matches ChatPipelineMsg::ExportCompleted(res) ==> reqs.len() == 0 && (match res {
            Ok(x) => holds_text(after.last_action_result, "Export completed"@)
                && after == (ChatPipeline {
                    exporting: false,
                    export_result: Some(x),
                    last_action_result: after.last_action_result,
                    ..before
                }),
            Err(e) => holds_text(after.error, "Export failed: "@ + e@)
                && after == (ChatPipeline { exporting: false, error: after.error, ..before }),
        }))
    &&& (msg is ClearExportResult ==> reqs.len() == 0
            && after == (ChatPipeline { export_result: None, ..before }))
    &&& (msg is SaveExportToFile ==> after == before
            && (before.export_result is Some ==> reqs.len() == 1 && reqs[0] is SaveExport)
            && (before.export_result is None ==> reqs.len() == 0))
    &&& (msg matches ChatPipelineMsg::ExportSaved(res) ==> reqs.len() == 0 && (match res {
            Ok(path) => holds_text(after.last_action_result, "Saved to "@ + path@)
                && after == (ChatPipeline { last_action_result: after.last_action_result, ..before }),
            Err(e) => holds_text(after.error, "Save failed: "@ + e@)
                && after == (ChatPipeline { error: after.error, ..before }),
        }))
    &&& (msg is CopyExportToClipboard ==> if before.export_result is Some {
            holds_text(after.last_action_result, "Copied to clipboard"@)
                && after == (ChatPipeline { last_action_result: after.last_action_result, ..before })
                && reqs.len() == 1 && reqs[0] is CopyExport
        } else {
            after == before && reqs.len() == 0
        })
    &&& (msg matches ChatPipelineMsg::SwitchExportMode(m) ==> reqs.len() == 0
            && after == (ChatPipeline { training: TrainingExportState { mode: m, ..before.training }, ..before }))
}

/// Training-export messages: how the view changes and what it requests.
pub open spec fn training_step<P: ChatData>(before: ChatPipeline<P>, after: ChatPipeline<P>, msg: ChatPipelineMsg<P>, reqs: Seq<ChatRequest<P>>) -> bool {
    &&& (msg matches ChatPipelineMsg::SetTrainingFormat(f) ==> reqs.len() == 0
            && after == (ChatPipeline { training: TrainingExportState { format: f, ..before.training }, ..before }))
    &&& (msg is ToggleTrainingHasCode ==> reqs.len() == 0 && after == (ChatPipeline {
            training: TrainingExportState {
                filters: TrainingFilters { has_code: !before.training.filters.has_code, ..before.training.filters },
                ..before.training
            },
            ..before
        }))
    &&& (msg is ToggleTrainingAgenticOnly ==> reqs.len() == 0 && after == (ChatPipeline {
            training: TrainingExportState {
                filters: TrainingFilters { agentic_only: !before.training.filters.agentic_only, ..before.training.filters },
                ..before.training
            },
            ..before
        }))
    &&& (msg matches ChatPipelineMsg::SetTrainingMinTurns(t) ==> reqs.len() == 0 && after == (ChatPipeline {
            training: TrainingExportState {
                filters: TrainingFilters { min_turns: Some(t), ..before.training.filters },
                ..before.training
            },
            ..before
        }))
    &&& (msg matches ChatPipelineMsg::SetTrainingMinQuality(q) ==> reqs.len() == 0 && after == (ChatPipeline {
            training: TrainingExportState {
                filters: TrainingFilters { min_quality_score: Some(q), ..before.training.filters },
                ..before.training
            },
            ..before
        }))
    &&& (msg is FetchTrainingStats ==> after == (ChatPipeline {
                training: TrainingExportState { loading_preview: true, ..before.training },
                ..before
            })
            && reqs.len() == 1 && reqs[0] == (ChatRequest::<P>::FetchTrainingStats { filters: before.training.filters }))
    &&& (msg matches ChatPipelineMsg::TrainingStatsLoaded(res) ==> reqs.len() == 0 && (match res {
            Ok(x) => after == (ChatPipeline {
                training: TrainingExportState { loading_preview: false, preview_stats: Some(x), ..before.training },
                ..before
            }),
            Err(e) => holds_text(after.error, "Failed to load training stats: "@ + e@)
                && after == (ChatPipeline {
                    training: TrainingExportState { loading_preview: false, ..before.training },
                    error: after.error,
                    ..before
                }),
        }))
    &&& (msg is FetchTrainingSamples ==> after == (ChatPipeline {
                training: TrainingExportState { loading_preview: true, ..before.training },
                ..before
            })
            && reqs.len() == 1
            && reqs[0] == (ChatRequest::<P>::FetchTrainingSamples { count: 5, filters: before.training.filters }))
    &&& (msg matches ChatPipelineMsg::TrainingSamplesLoaded(res) ==> reqs.len() == 0 && (match res {
            Ok(x) => after == (ChatPipeline {
                training: TrainingExportState { loading_preview: false, samples: x, ..before.training },
                ..before
            }),
            Err(e) => holds_text(after.error, "Failed to load samples: "@ + e@)
                && after == (ChatPipeline {
                    training: TrainingExportState { loading_preview: false, ..before.training },
                    error: after.error,
                    ..before
                }),
        }))
    &&& (msg is RunTrainingExport ==> after == (ChatPipeline {
                training: TrainingExportState { exporting: true, ..before.training },
                ..before
            })
            && reqs.len() == 1 && (reqs[0] matches ChatRequest::RunTrainingExport { format, filters, sanitization, augmentation, system_prompt }
            && format == before.training.format && filters == before.training.filters
            && sanitization == before.training.sanitization && augmentation == before.training.augmentation
            && (before.training.system_prompt@.len() == 0 ==> system_prompt is None)
            && (before.training.system_prompt@.len() > 0 ==> holds_text(system_prompt, before.training.system_prompt@))))
    &&& (msg matches ChatPipelineMsg::TrainingExportComplete(res) ==> reqs.len() == 0 && (match res {
            Ok(d) => holds_text(after.last_action_result, spec_export_report(d.train_file, d.val_file))
                && after == (ChatPipeline {
                    training: TrainingExportState { exporting: false, last_export: Some(d.response), ..before.training },
                    last_action_result: after.last_action_result,
                    ..before
                }),
            Err(e) => holds_text(after.error, "Export failed: "@ + e@)
                && after == (ChatPipeline {
                    training: TrainingExportState { exporting: false, ..before.training },
                    error: after.error,
                    ..before
                }),
        }))
}

/// Where an export is saved: the `Downloads` directory under the home
/// directory (under `.` when the home directory is not known).
pub open spec fn spec_save_path(home: Option<Seq<char>>, filename: Seq<char>) -> Seq<char> {
    (match home { Some(h) => h, None => "."@ }) + "/Downloads/"@ + filename
}

/// The path an export named `filename` is saved to, given the home
/// directory when it is known.
pub fn export_save_path(home: Option<&str>, filename: &str) -> (p: String)
    ensures
        p@ == spec_save_path(match home { Some(h) => Some(h@), None => None }, filename@),
{
    let mut p = match home {
        Some(h) => String::from_str(h),
        None => String::from_str("."),
    };
    p.append("/Downloads/");
    p.append(filename);
    p
}

/// Opening a sub-view shows it and loads what it needs: the topics, the
/// first 100 conversations, the watcher status, or the chat locations when
/// they are not known yet, each with one request and the loading flag set;
/// the other sub-views, and the scanner once locations are known, request
/// nothing and leave the loading flag as it was. Nothing else changes.
pub proof fn lemma_switch_sub_view<P: ChatData>(before: ChatPipeline<P>, after: ChatPipeline<P>, sub: ChatSubView, reqs: Seq<ChatRequest<P>>)
    requires
        loaded_step(before, after, ChatPipelineMsg::SwitchSubView(sub), reqs),
    ensures
        after.sub_view == sub,
        after == (ChatPipeline { sub_view: sub, loading: after.loading, ..before }),
        sub == ChatSubView::Topics ==> reqs.len() == 1 && reqs[0] is FetchTopics && after.loading,
        sub == ChatSubView::Conversations ==> reqs.len() == 1
            && reqs[0] == (ChatRequest::<P>::FetchConversations { limit: 100 }) && after.loading,
        sub == ChatSubView::Watcher ==> reqs.len() == 1 && reqs[0] is FetchWatcherStatus && after.loading,
        sub == ChatSubView::Scanner && before.locations is None ==> reqs.len() == 1 && reqs[0] is FetchLocations && after.loading,
        sub == ChatSubView::Scanner && before.locations is Some ==> reqs.len() == 0 && after.loading == before.loading,
        (sub == ChatSubView::Dashboard || sub == ChatSubView::Search || sub == ChatSubView::Export)
            ==> reqs.len() == 0 && after.loading == before.loading,
{
}

/// The training settings messages: toggling "has code" or "agentic only"
/// flips that filter alone; setting the minimum turns, the minimum quality
/// or the format sets that alone; none of them makes a request.
pub proof fn lemma_training_settings<P: ChatData>(before: ChatPipeline<P>, after: ChatPipeline<P>, msg: ChatPipelineMsg<P>, reqs: Seq<ChatRequest<P>>)
    requires
        training_step(before, after, msg, reqs),
    ensures
        msg is ToggleTrainingHasCode ==> reqs.len() == 0
            && after.training.filters.has_code == !before.training.filters.has_code
            && after.training.filters.agentic_only == before.training.filters.agentic_only
            && after.training.filters.min_turns == before.training.filters.min_turns
            && after.training.filters.min_quality_score == before.training.filters.min_quality_score
            && after.training.format == before.training.format,
        msg is ToggleTrainingAgenticOnly ==> reqs.len() == 0
            && after.training.filters.agentic_only == !before.training.filters.agentic_only
            && after.training.filters.has_code == before.training.filters.has_code
            && after.training.filters.min_turns == before.training.filters.min_turns
            && after.training.filters.min_quality_score == before.training.filters.min_quality_score
            && after.training.format == before.training.format,
        msg matches ChatPipelineMsg::SetTrainingMinTurns(t) ==> reqs.len() == 0
            && after.training.filters.min_turns == Some(t)
            && after.training.filters.has_code == before.training.filters.has_code
            && after.training.filters.agentic_only == before.training.filters.agentic_only
            && after.training.filters.min_quality_score == before.training.filters.min_quality_score,
        msg matches ChatPipelineMsg::SetTrainingMinQuality(q) ==> reqs.len() == 0
            && after.training.filters.min_quality_score == Some(q)
            && after.training.filters.has_code == before.training.filters.has_code
            && after.training.filters.agentic_only == before.training.filters.agentic_only
            && after.training.filters.min_turns == before.training.filters.min_turns,
        msg matches ChatPipelineMsg::SetTrainingFormat(f) ==> reqs.len() == 0
            && after.training.format == f && after.training.filters == before.training.filters,
{
}

/// Toggling the same training filter twice gives back the filters there
/// were.
pub proof fn lemma_training_toggle_twice<P: ChatData>(
    a: ChatPipeline<P>, b: ChatPipeline<P>, c: ChatPipeline<P>,
    msg: ChatPipelineMsg<P>, msg2: ChatPipelineMsg<P>, r1: Seq<ChatRequest<P>>, r2: Seq<ChatRequest<P>>,
)
    requires
        (msg is ToggleTrainingHasCode && msg2 is ToggleTrainingHasCode)
            || (msg is ToggleTrainingAgenticOnly && msg2 is ToggleTrainingAgenticOnly),
        training_step(a, b, msg, r1),
        training_step(b, c, msg2, r2),
    ensures
        c.training.filters == a.training.filters,
{
    lemma_training_settings(a, b, msg, r1);
    lemma_training_settings(b, c, msg2, r2);
}

impl<P: ChatData> ChatPipeline<P> {
    /// Handles one message of the view; gives the requests that it makes,
    /// in order.
    pub fn handle(&mut self, msg: ChatPipelineMsg<P>) -> (reqs: Vec<ChatRequest<P>>)
        ensures
            loaded_step(*old(self), *final(self), msg, reqs@),
            action_step(*old(self), *final(self), msg, reqs@),
            export_step(*old(self), *final(self), msg, reqs@),
            training_step(*old(self), *final(self), msg, reqs@),
    {
        if is_loaded_msg(&msg) {
            self.on_loaded(msg)
        } else if is_action_msg(&msg) {
            self.on_action(msg)
        } else if is_export_msg(&msg) {
            self.on_export(msg)
        } else {
            self.on_training(msg)
        }
    }

    /// Messages that open a sub-view or bring what the service loaded.
    fn on_loaded(&mut self, msg: ChatPipelineMsg<P>) -> (reqs: Vec<ChatRequest<P>>)
        requires
            msg is SwitchSubView || msg is HealthChecked || msg is StatsLoaded || msg is ConversationsLoaded || msg is ConversationLoaded || msg is TopicsLoaded || msg is SearchCompleted || msg is LocationsLoaded || msg is WatcherStatusLoaded || msg is SearchQueryChanged,
        ensures
            loaded_step(*old(self), *final(self), msg, reqs@),
    {
        let mut reqs: Vec<ChatRequest<P>> = Vec::new();
        match msg {
            ChatPipelineMsg::SwitchSubView(sub) => {
                self.sub_view = sub;
                match sub {
                    ChatSubView::Scanner => {
                        if self.locations.is_none() {
                            self.loading = true;
                            reqs.push(ChatRequest::FetchLocations);
                        }
                    },
                    ChatSubView::Topics => {
                        self.loading = true;
                        reqs.push(ChatRequest::FetchTopics);
                    },
                    ChatSubView::Conversations => {
                        self.loading = true;
                        reqs.push(ChatRequest::FetchConversations { limit: 100 });
                    },
                    ChatSubView::Watcher => {
                        self.loading = true;
                        reqs.push(ChatRequest::FetchWatcherStatus);
                    },
                    _ => {},
                }
            },
            ChatPipelineMsg::HealthChecked(res) => match res {
                Ok(ok) => {
                    self.api_available = ok;
                    self.loading = false;
                },
                Err(e) => {
                    self.api_available = false;
                    self.error = Some(prefixed("API unavailable: ", e.as_str()));
                    self.loading = false;
                },
            },
            ChatPipelineMsg::StatsLoaded(res) => {
                self.loading = false;
                match res {
                    Ok(x) => {
                        self.api_available = true;
                        self.stats = Some(x);
                    },
                    Err(e) => {
                        self.error = Some(prefixed("Failed to load stats: ", e.as_str()));
                    },
                }
            },
            ChatPipelineMsg::ConversationsLoaded(res) => {
                self.loading = false;
                match res {
                    Ok(x) => {
                        self.conversations = x;
                    },
                    Err(e) => {
                        self.error = Some(prefixed("Failed to load conversations: ", e.as_str()));
                    },
                }
            },
            ChatPipelineMsg::ConversationLoaded(res) => {
                self.loading = false;
                match res {
                    Ok(x) => {
                        self.selected_conversation = Some(x);
                    },
                    Err(e) => {
                        self.error = Some(prefixed("Failed to load conversation: ", e.as_str()));
                    },
                }
            },
            ChatPipelineMsg::TopicsLoaded(res) => {
                self.loading = false;
                match res {
                    Ok(x) => {
                        self.topics = x;
                    },
                    Err(e) => {
                        self.error = Some(prefixed("Failed to load topics: ", e.as_str()));
                    },
                }
            },
            ChatPipelineMsg::SearchCompleted(res) => {
                self.loading = false;
                match res {
                    Ok(x) => {
                        self.search_results = x;
                    },
                    Err(e) => {
                        self.error = Some(prefixed("Search failed: ", e.as_str()));
                    },
                }
            },
            ChatPipelineMsg::LocationsLoaded(res) => {
                self.loading = false;
                match res {
                    Ok(x) => {
                        self.locations = Some(x);
                    },
                    Err(e) => {
                        self.error = Some(prefixed("Failed to scan locations: ", e.as_str()));
                    },
                }
            },
            ChatPipelineMsg::WatcherStatusLoaded(res) => {
                self.loading = false;
                match res {
                    Ok(x) => {
                        self.watcher_status = Some(x);
                    },
                    Err(e) => {
                        self.error = Some(prefixed("Failed to load watcher status: ", e.as_str()));
                    },
                }
            },
            ChatPipelineMsg::SearchQueryChanged(q) => {
                self.search_query = q;
            },
            _ => {},
        }
        reqs
    }

    /// Messages that search, open conversations and run service actions.
    fn on_action(&mut self, msg: ChatPipelineMsg<P>) -> (reqs: Vec<ChatRequest<P>>)
        requires
            msg is DoSearch || msg is SelectConversation || msg is BackToList || msg is BatchIngestDone || msg is SummarizeDone || msg is ImportOrphanedDone || msg is ClusterDone || msg is DoBatchIngest || msg is DoSummarizePending || msg is DoClusterTopics || msg is DoImportOrphaned || msg is RefreshAll || msg is ClearError || msg is ClearActionResult || msg is ToggleMessageExpand || msg is ToggleShowFull || msg is TriggerWatcherScan || msg is TriggerPipelineProcessAll || msg is WatcherScanDone || msg is PipelineProcessDone,
        ensures
            action_step(*old(self), *final(self), msg, reqs@),
    {
        let mut reqs: Vec<ChatRequest<P>> = Vec::new();
        match msg {
            ChatPipelineMsg::DoSearch => {
                if self.search_query.unicode_len() > 0 {
                    self.loading = true;
                    reqs.push(ChatRequest::Search {
                        query: self.search_query.clone(),
                        mode: String::from_str("hybrid"),
                    });
                }
            },
            ChatPipelineMsg::SelectConversation(id) => {
                self.loading = true;
                self.expanded_messages = Vec::new();
                self.show_full_conversation = false;
                reqs.push(ChatRequest::FetchConversation { id });
            },
            ChatPipelineMsg::BackToList => {
                self.selected_conversation = None;
                self.expanded_messages = Vec::new();
                self.show_full_conversation = false;
            },
            ChatPipelineMsg::BatchIngestDone(res) => {
                self.loading = false;
                match res {
                    Ok(m) => {
                        self.last_action_result = Some(prefixed("Batch ingest: ", m.as_str()));
                    },
                    Err(e) => {
                        self.error = Some(prefixed("Batch ingest failed: ", e.as_str()));
                    },
                }
                reqs.push(ChatRequest::FetchStats);
            },
            ChatPipelineMsg::SummarizeDone(res) => {
                self.action_done(res);
                reqs.push(ChatRequest::FetchStats);
            },
            ChatPipelineMsg::ImportOrphanedDone(res) => {
                self.action_done(res);
                reqs.push(ChatRequest::FetchStats);
            },
            ChatPipelineMsg::ClusterDone(res) => {
                self.action_done(res);
                reqs.push(ChatRequest::FetchStats);
                reqs.push(ChatRequest::FetchTopics);
            },
            ChatPipelineMsg::DoBatchIngest => {
                self.loading = true;
                self.last_action_result = None;
                reqs.push(ChatRequest::BatchIngest);
            },
            ChatPipelineMsg::DoSummarizePending => {
                self.loading = true;
                reqs.push(ChatRequest::SummarizePending);
            },
            ChatPipelineMsg::DoClusterTopics => {
                self.loading = true;
                reqs.push(ChatRequest::ClusterTopics);
            },
            ChatPipelineMsg::DoImportOrphaned => {
                self.loading = true;
                reqs.push(ChatRequest::ImportOrphaned);
            },
            ChatPipelineMsg::RefreshAll => {
                self.loading = true;
                self.error = None;
                reqs.push(ChatRequest::FetchStats);
                reqs.push(ChatRequest::FetchHealth);
                reqs.push(ChatRequest::FetchConversations { limit: 100 });
            },
            ChatPipelineMsg::ClearError => {
                self.error = None;
            },
            ChatPipelineMsg::ClearActionResult => {
                self.last_action_result = None;
            },
            ChatPipelineMsg::ToggleMessageExpand(i) => {
                if index_in(&self.expanded_messages, i) {
                    remove_index_all(&mut self.expanded_messages, i);
                } else {
                    self.expanded_messages.push(i);
                    proof {
                        assert forall|y: usize| #[trigger] self.expanded_messages@.contains(y)
                            <==> (old(self).expanded_messages@.contains(y) || y == i) by {
                            let v = self.expanded_messages@;
                            let v0 = old(self).expanded_messages@;
                            if v.contains(y) {
                                let k = choose|k: int| 0 <= k < v.len() && v[k] == y;
                                if k < v0.len() {
                                    assert(v0[k] == y);
                                }
                            }
                            if v0.contains(y) {
                                let k = choose|k: int| 0 <= k < v0.len() && v0[k] == y;
                                assert(v[k] == y);
                            }
                            if y == i {
                                assert(v[v.len() - 1] == y);
                            }
                        }
                    }
                }
            },
            ChatPipelineMsg::ToggleShowFull => {
                self.show_full_conversation = !self.show_full_conversation;
                if !self.show_full_conversation {
                    self.expanded_messages = Vec::new();
                }
            },
            ChatPipelineMsg::TriggerWatcherScan => {
                self.loading = true;
                reqs.push(ChatRequest::TriggerWatcherScan);
            },
            ChatPipelineMsg::TriggerPipelineProcessAll => {
                self.loading = true;
                reqs.push(ChatRequest::TriggerPipelineProcessAll);
            },
            ChatPipelineMsg::WatcherScanDone(res) => {
                self.loading = false;
                match res {
                    Ok(m) => {
                        self.last_action_result = Some(m);
                        reqs.push(ChatRequest::FetchWatcherStatus);
                    },
                    Err(e) => {
                        self.error = Some(prefixed("Scan failed: ", e.as_str()));
                    },
                }
            },
            ChatPipelineMsg::PipelineProcessDone(res) => {
                self.loading = false;
                match res {
                    Ok(m) => {
                        self.last_action_result = Some(m);
                        reqs.push(ChatRequest::FetchWatcherStatus);
                        reqs.push(ChatRequest::FetchStats);
                    },
                    Err(e) => {
                        self.error = Some(prefixed("Processing failed: ", e.as_str()));
                    },
                }
            },
            _ => {},
        }
        reqs
    }

    /// Messages of the single-conversation export.
    fn on_export(&mut self, msg: ChatPipelineMsg<P>) -> (reqs: Vec<ChatRequest<P>>)
        requires
            msg is SetExportFormat || msg is ToggleExportSelect || msg is SelectAllForExport || msg is DeselectAllForExport || msg is ExportConversation || msg is ExportSelected || msg is ExportCompleted || msg is ClearExportResult || msg is SaveExportToFile || msg is ExportSaved || msg is CopyExportToClipboard || msg is SwitchExportMode,
        ensures
            export_step(*old(self), *final(self), msg, reqs@),
    {
        let mut reqs: Vec<ChatRequest<P>> = Vec::new();
        match msg {
            ChatPipelineMsg::SetExportFormat(f) => {
                self.export_format = f;
            },
            ChatPipelineMsg::ToggleExportSelect(id) => {
                if holds_id(&self.export_selected, id.as_str()) {
                    remove_id_all(&mut self.export_selected, id.as_str());
                } else {
                    let ghost v0 = self.export_selected@;
                    self.export_selected.push(id);
                    proof {
                        let v = self.export_selected@;
                        assert forall|s: Seq<char>| #[trigger] has_id(v, s) <==> (has_id(v0, s) || s == v[v.len() - 1]@) by {
                            if has_id(v, s) {
                                let k = choose|k: int| 0 <= k < v.len() && v[k]@ == s;
                                if k < v0.len() {
                                    assert(v0[k]@ == s);
                                }
                            }
                            if has_id(v0, s) {
                                let k = choose|k: int| 0 <= k < v0.len() && v0[k]@ == s;
                                assert(v[k]@ == s);
                            }
                        }
                    }
                }
            },
            ChatPipelineMsg::SelectAllForExport => {
                self.select_all_for_export();
            },
            ChatPipelineMsg::DeselectAllForExport => {
                self.export_selected = Vec::new();
            },
            ChatPipelineMsg::ExportConversation(id) => {
                self.exporting = true;
                self.export_result = None;
                reqs.push(ChatRequest::ExportConversation { id, format: self.export_format });
            },
            ChatPipelineMsg::ExportSelected => {
                if self.export_selected.len() > 0 {
                    let first = self.export_selected[0].clone();
                    self.exporting = true;
                    self.export_result = None;
                    reqs.push(ChatRequest::ExportConversation { id: first, format: self.export_format });
                }
            },
            ChatPipelineMsg::ExportCompleted(res) => {
                self.exporting = false;
                match res {
                    Ok(x) => {
                        self.export_result = Some(x);
                        self.last_action_result = Some(String::from_str("Export completed"));
                    },
                    Err(e) => {
                        self.error = Some(prefixed("Export failed: ", e.as_str()));
                    },
                }
            },
            ChatPipelineMsg::ClearExportResult => {
                self.export_result = None;
            },
            ChatPipelineMsg::SaveExportToFile => {
                if self.export_result.is_some() {
                    reqs.push(ChatRequest::SaveExport);
                }
            },
            ChatPipelineMsg::ExportSaved(res) => match res {
                Ok(path) => {
                    self.last_action_result = Some(prefixed("Saved to ", path.as_str()));
                },
                Err(e) => {
                    self.error = Some(prefixed("Save failed: ", e.as_str()));
                },
            },
            ChatPipelineMsg::CopyExportToClipboard => {
                if self.export_result.is_some() {
                    self.last_action_result = Some(String::from_str("Copied to clipboard"));
                    reqs.push(ChatRequest::CopyExport);
                }
            },
            ChatPipelineMsg::SwitchExportMode(m) => {
                self.training.mode = m;
            },
            _ => {},
        }
        reqs
    }

    /// Messages of the training-data export.
    fn on_training(&mut self, msg: ChatPipelineMsg<P>) -> (reqs: Vec<ChatRequest<P>>)
        requires
            msg is SetTrainingFormat || msg is ToggleTrainingHasCode || msg is ToggleTrainingAgenticOnly || msg is SetTrainingMinTurns || msg is SetTrainingMinQuality || msg is FetchTrainingStats || msg is TrainingStatsLoaded || msg is FetchTrainingSamples || msg is TrainingSamplesLoaded || msg is RunTrainingExport || msg is TrainingExportComplete,
        ensures
            training_step(*old(self), *final(self), msg, reqs@),
    {
        let mut reqs: Vec<ChatRequest<P>> = Vec::new();
        match msg {
            ChatPipelineMsg::SetTrainingFormat(f) => {
                self.training.format = f;
            },
            ChatPipelineMsg::ToggleTrainingHasCode => {
                self.training.filters.has_code = !self.training.filters.has_code;
            },
            ChatPipelineMsg::ToggleTrainingAgenticOnly => {
                self.training.filters.agentic_only = !self.training.filters.agentic_only;
            },
            ChatPipelineMsg::SetTrainingMinTurns(t) => {
                self.training.filters.min_turns = Some(t);
            },
            ChatPipelineMsg::SetTrainingMinQuality(q) => {
                self.training.filters.min_quality_score = Some(q);
            },
            ChatPipelineMsg::FetchTrainingStats => {
                self.training.loading_preview = true;
                reqs.push(ChatRequest::FetchTrainingStats { filters: self.training.filters });
            },
            ChatPipelineMsg::TrainingStatsLoaded(res) => {
                self.training.loading_preview = false;
                match res {
                    Ok(x) => {
                        self.training.preview_stats = Some(x);
                    },
                    Err(e) => {
                        self.error = Some(prefixed("Failed to load training stats: ", e.as_str()));
                    },
                }
            },
            ChatPipelineMsg::FetchTrainingSamples => {
                self.training.loading_preview = true;
                reqs.push(ChatRequest::FetchTrainingSamples { count: 5, filters: self.training.filters });
            },
            ChatPipelineMsg::TrainingSamplesLoaded(res) => {
                self.training.loading_preview = false;
                match res {
                    Ok(x) => {
                        self.training.samples = x;
                    },
                    Err(e) => {
                        self.error = Some(prefixed("Failed to load samples: ", e.as_str()));
                    },
                }
            },
            ChatPipelineMsg::RunTrainingExport => {
                self.training.exporting = true;
                let prompt = if self.training.system_prompt.unicode_len() == 0 {
                    None
                } else {
                    Some(self.training.system_prompt.clone())
                };
                reqs.push(ChatRequest::RunTrainingExport {
                    format: self.training.format,
                    filters: self.training.filters,
                    sanitization: self.training.sanitization,
                    augmentation: self.training.augmentation,
                    system_prompt: prompt,
                });
            },
            ChatPipelineMsg::TrainingExportComplete(res) => {
                self.training.exporting = false;
                match res {
                    Ok(d) => {
                        let report = export_report(&d.train_file, &d.val_file);
                        self.training.last_export = Some(d.response);
                        self.last_action_result = Some(report);
                    },
                    Err(e) => {
                        self.error = Some(prefixed("Export failed: ", e.as_str()));
                    },
                }
            },
            _ => {},
        }
        reqs
    }


    /// A service action finished: loading stops, and its message or error
    /// is shown as is.
    fn action_done(&mut self, res: Result<String, String>)
        ensures
            after_action(*old(self), *final(self), res, Seq::empty(), Seq::empty()),
    {
        self.loading = false;
        match res {
            Ok(m) => {
                self.last_action_result = Some(m);
                assert(Seq::<char>::empty() + m@ =~= m@);
            },
            Err(e) => {
                self.error = Some(e);
                assert(Seq::<char>::empty() + e@ =~= e@);
            },
        }
    }

    /// Adds every listed conversation to the export selection.
    fn select_all_for_export(&mut self)
        ensures
            *final(self) == (ChatPipeline { export_selected: final(self).export_selected, ..*old(self) }),
            forall|s: Seq<char>| #[trigger] final(self).export_chosen(s) <==> (old(self).export_chosen(s)
                || exists|k: int| 0 <= k < old(self).conversations@.len() && old(self).conversations@[k].id@ == s),
    {
        let mut i: usize = 0;
        while i < self.conversations.len()
            invariant
                i <= self.conversations@.len(),
                *self == (ChatPipeline { export_selected: self.export_selected, ..*old(self) }),
                forall|s: Seq<char>| #[trigger] self.export_chosen(s) <==> (old(self).export_chosen(s)
                    || exists|k: int| 0 <= k < i && old(self).conversations@[k].id@ == s),
            decreases self.conversations@.len() - i,
        {
            let id = self.conversations[i].id.clone();
            let ghost pre = self.export_selected@;
            let ghost idv = id@;
            proof {
                assert forall|s: Seq<char>| #[trigger] has_id(pre, s) <==> (old(self).export_chosen(s)
                    || exists|k: int| 0 <= k < i && old(self).conversations@[k].id@ == s) by {
                    assert(self.export_chosen(s) == has_id(pre, s));
                }
            }
            if !holds_id(&self.export_selected, id.as_str()) {
                self.export_selected.push(id);
                proof {
                    let v = self.export_selected@;
                    assert(v[v.len() - 1]@ == idv);
                    assert forall|s: Seq<char>| #[trigger] has_id(v, s) <==> (has_id(pre, s) || s == idv) by {
                        if has_id(v, s) {
                            let k = choose|k: int| 0 <= k < v.len() && v[k]@ == s;
                            if k < pre.len() {
                                assert(pre[k]@ == s);
                            }
                        }
                        if has_id(pre, s) {
                            let k = choose|k: int| 0 <= k < pre.len() && pre[k]@ == s;
                            assert(v[k]@ == s);
                        }
                    }
                }
            }
            proof {
                let c = old(self).conversations@;
                assert(c[i as int].id@ == idv);
                assert(has_id(self.export_selected@, idv));
                assert forall|s: Seq<char>| #[trigger] self.export_chosen(s) <==> (old(self).export_chosen(s)
                    || exists|k: int| 0 <= k < i + 1 && c[k].id@ == s) by {
                    assert(has_id(self.export_selected@, s) <==> (has_id(pre, s) || s == idv));
                    if exists|k: int| 0 <= k < i + 1 && c[k].id@ == s {
                        let k = choose|k: int| 0 <= k < i + 1 && c[k].id@ == s;
                        if k < i {
                            assert(exists|k2: int| 0 <= k2 < i && c[k2].id@ == s);
                        }
                    }
                    if exists|k: int| 0 <= k < i && c[k].id@ == s {
                        let k = choose|k: int| 0 <= k < i && c[k].id@ == s;
                        assert(0 <= k < i + 1 && c[k].id@ == s);
                    }
                    if s == idv {
                        assert(0 <= i < i + 1 && c[i as int].id@ == s);
                    }
                }
            }
            i = i + 1;
        }
    }
}

/// The report of a finished training export.
fn export_report(train: &Option<String>, val: &Option<String>) -> (s: String)
    ensures
        s@ == spec_export_report(*train, *val),
{
    let mut s = String::from_str("Export complete! Train: ");
    match train {
        Some(t) => s.append(t.as_str()),
        None => {},
    }
    s.append(", Val: ");
    match val {
        Some(v) => s.append(v.as_str()),
        None => {},
    }
    assert(s@ =~= spec_export_report(*train, *val));
    s
}

} // verus!
