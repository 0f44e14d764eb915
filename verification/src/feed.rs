//! Small panels that follow a service: the activity feed (newest entry
//! first, a bounded number kept), the agent coordinator, and the dialog
//! daemon's connection and hold mode. Each message changes the panel's state
//! and gives the requests that it makes.

use vstd::prelude::*;
use vstd::string::*;
use crate::text::same_text;

verus! {

/// Most feed entries kept when entries arrive one by one.
pub const MAX_FEED_ENTRIES: usize = 200;

/// State of the activity feed; `E` is an entry, `S` the feed statistics and
/// `F` a source to filter by.
pub struct ActivityFeed<E, S, F> {
    pub connected: bool,
    /// Newest first
    pub entries: Vec<E>,
    pub stats: S,
    /// ID of the entry shown in full
    pub expanded: Option<String>,
    pub source_filter: Option<F>,
}

/// Messages of the activity feed.
#[derive(Debug)]
pub enum FeedMsg<E, S, F> {
    Connected,
    Disconnected,
    InitialState { entries: Vec<E>, stats: S },
    EntryAdded(E),
    Error(String),
    ToggleEntry(String),
    SetSourceFilter(Option<F>),
    TriggerGitPoll,
    GitPollDone(Result<(), String>),
    RefreshStats,
    StatsRefreshed(Result<S, String>),
}

/// Requests of the activity feed.
#[derive(Clone, Copy, Debug, PartialEq, Eq, Structural)]
pub enum FeedRequest {
    /// Poll the git repositories for new activity
    GitPoll,
    FetchStats,
}

/// Most feed entries shown at once.
pub const MAX_SHOWN_ENTRIES: usize = 100;

/// Whether an entry from `source` passes the source filter (every entry
/// does when there is none). Sources are given by numbers that stand for
/// them.
pub open spec fn passes(source: u32, filter: Option<u32>) -> bool {
    match filter {
        None => true,
        Some(f) => source == f,
    }
}

/// Positions of the entries whose source passes the filter, in order.
pub open spec fn passing(sources: Seq<u32>, filter: Option<u32>) -> Seq<usize>
    decreases sources.len(),
{
    if sources.len() == 0 {
        Seq::empty()
    } else {
        let rest = passing(sources.drop_last(), filter);
        if passes(sources.last(), filter) { rest.push((sources.len() - 1) as usize) } else { rest }
    }
}

/// Positions of the entries shown: those that pass the filter, the first
/// `MAX_SHOWN_ENTRIES` of them.
pub open spec fn shown_positions(sources: Seq<u32>, filter: Option<u32>) -> Seq<usize> {
    let p = passing(sources, filter);
    if p.len() > MAX_SHOWN_ENTRIES { p.take(MAX_SHOWN_ENTRIES as int) } else { p }
}

/// What passes among the first `i` entries is a prefix of what passes
/// among all of them.
proof fn lemma_passing_prefix(sources: Seq<u32>, filter: Option<u32>, i: int)
    requires
        0 <= i <= sources.len(),
    ensures
        passing(sources.take(i), filter).len() <= passing(sources, filter).len(),
        passing(sources, filter).take(passing(sources.take(i), filter).len() as int) == passing(sources.take(i), filter),
    decreases sources.len() - i,
{
    if i == sources.len() {
        assert(sources.take(i) =~= sources);
        assert(passing(sources, filter).take(passing(sources, filter).len() as int) =~= passing(sources, filter));
    } else {
        lemma_passing_prefix(sources, filter, i + 1);
        let small = passing(sources.take(i), filter);
        let next = passing(sources.take(i + 1), filter);
        let all = passing(sources, filter);
        assert(sources.take(i + 1).drop_last() =~= sources.take(i));
        assert(next.take(small.len() as int) =~= small);
        assert(all.take(small.len() as int) =~= next.take(small.len() as int));
    }
}

/// Every entry shown is one from the filtered source, at most
/// `MAX_SHOWN_ENTRIES` are shown, and they keep the feed's order.
pub proof fn lemma_shown_entries_pass(sources: Seq<u32>, filter: Option<u32>)
    requires
        sources.len() <= usize::MAX,
    ensures
        shown_positions(sources, filter).len() <= MAX_SHOWN_ENTRIES,
        forall|k: int| 0 <= k < shown_positions(sources, filter).len() ==> {
            let p = #[trigger] shown_positions(sources, filter)[k];
            p < sources.len() && passes(sources[p as int], filter)
        },
        forall|j: int, k: int| 0 <= j < k < shown_positions(sources, filter).len()
            ==> shown_positions(sources, filter)[j] < shown_positions(sources, filter)[k],
{
    lemma_passing_in_order(sources, filter);
}

proof fn lemma_passing_in_order(sources: Seq<u32>, filter: Option<u32>)
    requires
        sources.len() <= usize::MAX,
    ensures
        forall|k: int| 0 <= k < passing(sources, filter).len() ==> {
            let p = #[trigger] passing(sources, filter)[k];
            p < sources.len() && passes(sources[p as int], filter)
        },
        forall|j: int, k: int| 0 <= j < k < passing(sources, filter).len()
            ==> passing(sources, filter)[j] < passing(sources, filter)[k],
    decreases sources.len(),
{
    if sources.len() > 0 {
        let init = sources.drop_last();
        lemma_passing_in_order(init, filter);
        let rest = passing(init, filter);
        let all = passing(sources, filter);
        let n = sources.len() - 1;
        if passes(sources.last(), filter) {
            assert(all == rest.push(n as usize));
        } else {
            assert(all == rest);
        }
        assert forall|k: int| 0 <= k < all.len() implies {
            let p = #[trigger] all[k];
            p < sources.len() && passes(sources[p as int], filter)
        } by {
            if k < rest.len() {
                assert(all[k] == rest[k]);
                assert(sources[rest[k] as int] == init[rest[k] as int]);
            } else {
                assert(all[k] == n as usize);
            }
        }
        assert forall|j: int, k: int| 0 <= j < k < all.len() implies all[j] < all[k] by {
            assert(all[j] == rest[j]);
            if k < rest.len() {
                assert(all[k] == rest[k]);
            } else {
                assert(all[k] == n as usize);
                assert(rest[j] < init.len());
            }
        }
    }
}

/// The positions of the feed entries to show, given the source of each
/// entry (newest first) and the source filter: those that pass, at most
/// `MAX_SHOWN_ENTRIES`, in order.
pub fn shown_entries(sources: &[u32], filter: Option<u32>) -> (r: Vec<usize>)
    ensures
        r@ == shown_positions(sources@, filter),
{
    let mut out: Vec<usize> = Vec::new();
    let mut i: usize = 0;
    while i < sources.len() && out.len() < MAX_SHOWN_ENTRIES
        invariant
            i <= sources@.len(),
            out@ == passing(sources@.take(i as int), filter),
            out@.len() <= MAX_SHOWN_ENTRIES,
        decreases sources@.len() - i,
    {
        proof {
            assert(sources@.take(i + 1).drop_last() =~= sources@.take(i as int));
            assert(sources@.take(i + 1).last() == sources@[i as int]);
        }
        let ok = match filter {
            None => true,
            Some(f) => sources[i] == f,
        };
        if ok {
            out.push(i);
        }
        i = i + 1;
    }
    proof {
        let all = passing(sources@, filter);
        if i == sources.len() {
            assert(sources@.take(i as int) =~= sources@);
        } else {
            lemma_passing_prefix(sources@, filter, i as int);
            assert(out@.len() == MAX_SHOWN_ENTRIES);
            assert(all.take(MAX_SHOWN_ENTRIES as int) =~= out@);
            if all.len() == MAX_SHOWN_ENTRIES {
                assert(all =~= out@);
            }
        }
    }
    out
}

/// The entries after `e` arrives: it comes first, and only the newest
/// entries up to the maximum stay.
pub open spec fn with_entry<E>(s: Seq<E>, e: E) -> Seq<E> {
    let t = seq![e] + s;
    if t.len() > MAX_FEED_ENTRIES { t.take(MAX_FEED_ENTRIES as int) } else { t }
}

/// `Some(id)` unless that entry was already shown in full.
pub open spec fn toggle_entry(cur: Option<String>, id: String) -> Option<Seq<char>> {
    if cur matches Some(c) && c@ == id@ { None } else { Some(id@) }
}

pub open spec fn opt_view(o: Option<String>) -> Option<Seq<char>> {
    match o {
        Some(s) => Some(s@),
        None => None,
    }
}

impl<E, S, F> ActivityFeed<E, S, F> {
    /// A disconnected feed with no entries.
    pub fn new(stats: S) -> (f: Self)
        ensures
            !f.connected,
            f.entries@.len() == 0,
            f.stats == stats,
            f.expanded is None,
            f.source_filter is None,
    {
        ActivityFeed { connected: false, entries: Vec::new(), stats, expanded: None, source_filter: None }
    }

    /// Handles one message of the feed; gives the request that it makes.
    pub fn handle(&mut self, msg: FeedMsg<E, S, F>) -> (req: Option<FeedRequest>)
        ensures
            msg is Connected ==> req is None && *final(self) == (ActivityFeed { connected: true, ..*old(self) }),
            msg is Disconnected ==> req is None && *final(self) == (ActivityFeed { connected: false, ..*old(self) }),
            msg matches FeedMsg::InitialState { entries, stats } ==> req is None
                && *final(self) == (ActivityFeed { entries, stats, ..*old(self) }),
            msg matches FeedMsg::EntryAdded(e) ==> req is None
                && final(self).entries@ == with_entry(old(self).entries@, e)
                && *final(self) == (ActivityFeed { entries: final(self).entries, ..*old(self) }),
            (msg is Error || msg is GitPollDone || (msg matches FeedMsg::StatsRefreshed(Err(_))))
                ==> req is None && *final(self) == *old(self),
            msg matches FeedMsg::ToggleEntry(id) ==> req is None
                && opt_view(final(self).expanded) == toggle_entry(old(self).expanded, id)
                && *final(self) == (ActivityFeed { expanded: final(self).expanded, ..*old(self) }),
            msg matches FeedMsg::SetSourceFilter(f) ==> req is None
                && *final(self) == (ActivityFeed { source_filter: f, ..*old(self) }),
            msg is TriggerGitPoll ==> req == Some(FeedRequest::GitPoll) && *final(self) == *old(self),
            msg is RefreshStats ==> req == Some(FeedRequest::FetchStats) && *final(self) == *old(self),
            msg matches FeedMsg::StatsRefreshed(Ok(s)) ==> req is None
                && *final(self) == (ActivityFeed { stats: s, ..*old(self) }),
    {
        match msg {
            FeedMsg::Connected => {
                self.connected = true;
                None
            },
            FeedMsg::Disconnected => {
                self.connected = false;
                None
            },
            FeedMsg::InitialState { entries, stats } => {
                self.entries = entries;
                self.stats = stats;
                None
            },
            FeedMsg::EntryAdded(e) => {
                let ghost before = self.entries@;
                self.entries.insert(0, e);
                assert(self.entries@ =~= seq![e] + before);
                if self.entries.len() > MAX_FEED_ENTRIES {
                    self.entries.truncate(MAX_FEED_ENTRIES);
                }
                None
            },
            FeedMsg::Error(_) => None,
            FeedMsg::ToggleEntry(id) => {
                let same = match &self.expanded {
                    Some(c) => same_text(c.as_str(), id.as_str()),
                    None => false,
                };
                if same {
                    self.expanded = None;
                } else {
                    self.expanded = Some(id);
                }
                None
            },
            FeedMsg::SetSourceFilter(f) => {
                self.source_filter = f;
                None
            },
            FeedMsg::TriggerGitPoll => Some(FeedRequest::GitPoll),
            FeedMsg::GitPollDone(_) => None,
            FeedMsg::RefreshStats => Some(FeedRequest::FetchStats),
            FeedMsg::StatsRefreshed(r) => {
                match r {
                    Ok(s) => {
                        self.stats = s;
                    },
                    Err(_) => {},
                }
                None
            },
        }
    }
}

/// An entry that arrives is the newest shown, the entries shown before it
/// follow in order, and no more than the maximum are kept once it arrived.
pub proof fn lemma_entry_newest_first<E>(s: Seq<E>, e: E)
    ensures
        with_entry(s, e)[0] == e,
        with_entry(s, e).len() == if s.len() + 1 > MAX_FEED_ENTRIES { MAX_FEED_ENTRIES as nat } else { s.len() + 1 },
        forall|i: int| 0 < i < with_entry(s, e).len() ==> #[trigger] with_entry(s, e)[i] == s[i - 1],
{
}

/// State of the agent coordinator panel; `A` is an agent, `C` a conflict.
pub struct Coordinator<A, C> {
    pub agents: Vec<A>,
    pub conflicts: Vec<C>,
    /// ID of the agent shown in detail
    pub selected: Option<String>,
}

/// Messages of the agent coordinator panel.
#[derive(Debug)]
pub enum CoordinatorMsg<A, C> {
    AgentsLoaded(Result<Vec<A>, String>),
    ConflictsLoaded(Result<Vec<C>, String>),
    SelectAgent(String),
    DeselectAgent,
    Refresh,
    ResolveConflict(String),
    ConflictResolved(Result<(), String>),
    Error(String),
}

/// Requests of the agent coordinator panel.
#[derive(Debug)]
pub enum CoordinatorRequest {
    ListAgents,
    GetConflicts,
    ResolveConflict { conflict_id: String, resolution: String },
    /// Report an error of the panel
    ReportError(String),
}

/// The requests of a refresh: the agents, then the conflicts.
pub open spec fn is_refresh(r: Seq<CoordinatorRequest>) -> bool {
    r.len() == 2 && r[0] is ListAgents && r[1] is GetConflicts
}

impl<A, C> Coordinator<A, C> {
    /// A panel with nothing loaded or selected.
    pub fn new() -> (c: Self)
        ensures
            c.agents@.len() == 0,
            c.conflicts@.len() == 0,
            c.selected is None,
    {
        Coordinator { agents: Vec::new(), conflicts: Vec::new(), selected: None }
    }

    fn refresh() -> (r: Vec<CoordinatorRequest>)
        ensures
            is_refresh(r@),
    {
        let mut r: Vec<CoordinatorRequest> = Vec::new();
        r.push(CoordinatorRequest::ListAgents);
        r.push(CoordinatorRequest::GetConflicts);
        r
    }

    /// Handles one message of the panel; gives the requests that it makes,
    /// in order. A failed poll is ignored (the coordinator may not run).
    pub fn handle(&mut self, msg: CoordinatorMsg<A, C>) -> (reqs: Vec<CoordinatorRequest>)
        ensures
            msg matches CoordinatorMsg::AgentsLoaded(Ok(a)) ==> reqs@.len() == 0
                && *final(self) == (Coordinator { agents: a, ..*old(self) }),
            msg matches CoordinatorMsg::ConflictsLoaded(Ok(c)) ==> reqs@.len() == 0
                && *final(self) == (Coordinator { conflicts: c, ..*old(self) }),
            ((msg matches CoordinatorMsg::AgentsLoaded(Err(_))) || (msg matches CoordinatorMsg::ConflictsLoaded(Err(_)))
                || msg is Error) ==> reqs@.len() == 0 && *final(self) == *old(self),
            msg matches CoordinatorMsg::SelectAgent(id) ==> reqs@.len() == 0
                && *final(self) == (Coordinator { selected: Some(id), ..*old(self) }),
            msg is DeselectAgent ==> reqs@.len() == 0 && *final(self) == (Coordinator { selected: None, ..*old(self) }),
            msg is Refresh ==> is_refresh(reqs@) && *final(self) == *old(self),
            msg matches CoordinatorMsg::ResolveConflict(id) ==> *final(self) == *old(self) && reqs@.len() == 1
                && (reqs@[0] matches CoordinatorRequest::ResolveConflict { conflict_id, resolution }
                && conflict_id == id && resolution@ == "Resolved via UI"@),
            msg matches CoordinatorMsg::ConflictResolved(Ok(())) ==> is_refresh(reqs@) && *final(self) == *old(self),
            msg matches CoordinatorMsg::ConflictResolved(Err(e)) ==> *final(self) == *old(self)
                && reqs@.len() == 3 && reqs@[0] == CoordinatorRequest::ReportError(e)
                && is_refresh(reqs@.subrange(1, 3)),
    {
        match msg {
            CoordinatorMsg::AgentsLoaded(r) => {
                match r {
                    Ok(a) => {
                        self.agents = a;
                    },
                    Err(_) => {},
                }
                Vec::new()
            },
            CoordinatorMsg::ConflictsLoaded(r) => {
                match r {
                    Ok(c) => {
                        self.conflicts = c;
                    },
                    Err(_) => {},
                }
                Vec::new()
            },
            CoordinatorMsg::SelectAgent(id) => {
                self.selected = Some(id);
                Vec::new()
            },
            CoordinatorMsg::DeselectAgent => {
                self.selected = None;
                Vec::new()
            },
            CoordinatorMsg::Refresh => Self::refresh(),
            CoordinatorMsg::ResolveConflict(id) => {
                let mut r: Vec<CoordinatorRequest> = Vec::new();
                r.push(CoordinatorRequest::ResolveConflict {
                    conflict_id: id,
                    resolution: String::from_str("Resolved via UI"),
                });
                r
            },
            CoordinatorMsg::ConflictResolved(r) => match r {
                Ok(()) => Self::refresh(),
                Err(e) => {
                    let mut out: Vec<CoordinatorRequest> = Vec::new();
                    out.push(CoordinatorRequest::ReportError(e));
                    out.push(CoordinatorRequest::ListAgents);
                    out.push(CoordinatorRequest::GetConflicts);
                    assert(out@.subrange(1, 3) =~= seq![CoordinatorRequest::ListAgents, CoordinatorRequest::GetConflicts]);
                    out
                },
            },
            CoordinatorMsg::Error(_) => Vec::new(),
        }
    }
}

/// Connection and hold mode of the dialog daemon.
#[derive(Clone, Copy, Debug)]
pub struct DialogDaemon {
    pub connected: bool,
    /// Whether dialogs are held back from the user
    pub hold_mode: bool,
}

/// Messages about the dialog daemon.
#[derive(Debug)]
pub enum DialogMsg {
    DaemonConnected(bool),
    HoldModeChanged(bool),
    ToggleHoldMode,
    Error(String),
}

impl DialogDaemon {
    /// Not connected, not holding.
    pub fn new() -> (d: Self)
        ensures
            !d.connected,
            !d.hold_mode,
    {
        DialogDaemon { connected: false, hold_mode: false }
    }

    /// Handles one message; gives whether the hold mode is to be toggled on
    /// the daemon.
    pub fn handle(&mut self, msg: DialogMsg) -> (toggle: bool)
        ensures
            msg matches DialogMsg::DaemonConnected(c) ==> !toggle
                && *final(self) == (DialogDaemon { connected: c, ..*old(self) }),
            msg matches DialogMsg::HoldModeChanged(h) ==> !toggle
                && *final(self) == (DialogDaemon { hold_mode: h, ..*old(self) }),
            msg is ToggleHoldMode ==> toggle && *final(self) == *old(self),
            msg is Error ==> !toggle && *final(self) == *old(self),
    {
        match msg {
            DialogMsg::DaemonConnected(c) => {
                self.connected = c;
                false
            },
            DialogMsg::HoldModeChanged(h) => {
                self.hold_mode = h;
                false
            },
            DialogMsg::ToggleHoldMode => true,
            DialogMsg::Error(_) => false,
        }
    }
}

/// The message that the result of toggling the hold mode amounts to: the
/// new mode, or an error when the daemon could not be reached or refused.
pub fn hold_toggle_result(result: Option<bool>) -> (m: DialogMsg)
    ensures
        result matches Some(h) ==> m == DialogMsg::HoldModeChanged(h),
        result is None ==> (m matches DialogMsg::Error(e) && e@ == "Failed to toggle hold mode"@),
{
    match result {
        Some(h) => DialogMsg::HoldModeChanged(h),
        None => DialogMsg::Error(String::from_str("Failed to toggle hold mode")),
    }
}

} // verus!
