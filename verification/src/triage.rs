//! What happens to dialogs whose triage time ran out: those set to be
//! approved or declined automatically get their reply, are counted as
//! handled and leave the pending list; the others are left alone.

use vstd::prelude::*;
use vstd::string::*;
use crate::studio::{decline_response, spec_decline_response, texts, OrchestratorMode};
use crate::text::same_text;

verus! {

/// How the orchestrator handles a dialog in triage.
#[derive(Clone, Copy, Debug, PartialEq, Eq, Structural)]
pub enum TriageState {
    /// Waits for a human
    Manual,
    /// Approved with the suggested response when its time runs out
    AutoApprove,
    /// Declined when its time runs out
    AutoDecline,
    /// Held
    Paused,
}

/// A dialog whose triage time ran out, with the rest of it carried as `D`.
#[derive(Debug)]
pub struct ExpiredDialog<D> {
    pub dialog_id: String,
    pub state: TriageState,
    /// The response suggested for it
    pub response: String,
    /// The values of its options, when it has any
    pub options: Option<Vec<String>>,
    pub data: D,
}

/// A dialog waiting for an answer.
#[derive(Debug)]
pub struct PendingDialog<D> {
    pub id: String,
    pub data: D,
}

/// The answer sent for an expired dialog, and the decision recorded for it.
#[derive(Debug)]
pub struct TimeoutReply {
    /// Position of the dialog among the expired ones
    pub index: usize,
    pub dialog_id: String,
    pub response: String,
    /// Reasoning of the recorded decision
    pub reasoning: String,
    /// Comment sent with the response
    pub comment: String,
}

/// Whether the dialog is handled automatically when its time runs out.
pub open spec fn is_auto(s: TriageState) -> bool {
    s == TriageState::AutoApprove || s == TriageState::AutoDecline
}

pub open spec fn option_texts(o: Option<Vec<String>>) -> Option<Seq<Seq<char>>> {
    match o {
        Some(v) => Some(texts(v@)),
        None => None,
    }
}

/// The reply for the expired dialog at `index`: an approved one answers
/// with its suggested response, a declined one with its first declining
/// option (or "cancelled"); the others get none.
pub open spec fn reply_for<D>(d: ExpiredDialog<D>, index: int, r: TimeoutReply) -> bool {
    &&& r.index == index
    &&& r.dialog_id@ == d.dialog_id@
    &&& d.state == TriageState::AutoApprove ==> {
        &&& r.response@ == d.response@
        &&& r.reasoning@ == "Auto-approved on triage timeout"@
        &&& r.comment@ == "Auto-approved on timeout"@
    }
    &&& d.state == TriageState::AutoDecline ==> {
        &&& r.response@ == spec_decline_response(option_texts(d.options))
        &&& r.reasoning@ == "Auto-declined on triage timeout"@
        &&& r.comment@ == "Auto-declined on timeout"@
    }
}

/// The positions of the automatically handled dialogs among `e`, in order.
pub open spec fn auto_positions<D>(e: Seq<ExpiredDialog<D>>) -> Seq<int>
    decreases e.len(),
{
    if e.len() == 0 {
        Seq::empty()
    } else if is_auto(e.last().state) {
        auto_positions(e.drop_last()).push(e.len() - 1)
    } else {
        auto_positions(e.drop_last())
    }
}

/// `p` without the dialogs with ID `id`.
pub open spec fn without_dialog<D>(p: Seq<PendingDialog<D>>, id: Seq<char>) -> Seq<PendingDialog<D>>
    decreases p.len(),
{
    if p.len() == 0 {
        p
    } else {
        let rest = without_dialog(p.drop_last(), id);
        if p.last().id@ == id { rest } else { rest.push(p.last()) }
    }
}

/// `p` after every automatically handled dialog of `e` left it.
pub open spec fn after_timeouts<D, E>(p: Seq<PendingDialog<D>>, e: Seq<ExpiredDialog<E>>) -> Seq<PendingDialog<D>>
    decreases e.len(),
{
    if e.len() == 0 {
        p
    } else {
        let rest = after_timeouts(p, e.drop_last());
        if is_auto(e.last().state) { without_dialog(rest, e.last().dialog_id@) } else { rest }
    }
}

/// The reply for the expired dialog at `index`, when it is handled
/// automatically.
pub fn timeout_reply<D>(d: &ExpiredDialog<D>, index: usize) -> (r: Option<TimeoutReply>)
    ensures
        r is Some <==> is_auto(d.state),
        r matches Some(x) ==> reply_for(*d, index as int, x),
{
    match d.state {
        TriageState::AutoApprove => Some(TimeoutReply {
            index,
            dialog_id: d.dialog_id.clone(),
            response: d.response.clone(),
            reasoning: String::from_str("Auto-approved on triage timeout"),
            comment: String::from_str("Auto-approved on timeout"),
        }),
        TriageState::AutoDecline => {
            let response = match &d.options {
                Some(o) => decline_response(Some(o.as_slice())),
                None => decline_response(None),
            };
            Some(TimeoutReply {
                index,
                dialog_id: d.dialog_id.clone(),
                response,
                reasoning: String::from_str("Auto-declined on triage timeout"),
                comment: String::from_str("Auto-declined on timeout"),
            })
        },
        _ => None,
    }
}

/// Removes the dialogs with ID `id`.
fn remove_dialog<D>(pending: &mut Vec<PendingDialog<D>>, id: &str)
    ensures
        final(pending)@ == without_dialog(old(pending)@, id@),
{
    let ghost p0 = pending@;
    let n = pending.len();
    let mut rest: Vec<PendingDialog<D>> = Vec::new();
    while pending.len() > 0
        invariant
            rest@.len() + pending@.len() == p0.len(),
            pending@ == p0.take(pending@.len() as int),
            forall|k: int| 0 <= k < rest@.len() ==> rest@[k] == p0[p0.len() - 1 - k],
        decreases pending@.len(),
    {
        let x = pending.pop().unwrap();
        rest.push(x);
    }
    let mut kept: Vec<PendingDialog<D>> = Vec::new();
    let mut taken: usize = 0;
    while rest.len() > 0
        invariant
            taken + rest@.len() == p0.len(),
            n == p0.len(),
            forall|k: int| 0 <= k < rest@.len() ==> rest@[k] == p0[p0.len() - 1 - k],
            kept@ == without_dialog(p0.take(taken as int), id@),
        decreases rest@.len(),
    {
        let x = rest.pop().unwrap();
        proof {
            assert(x == p0[taken as int]);
            assert(p0.take(taken + 1).drop_last() =~= p0.take(taken as int));
        }
        if !same_text(x.id.as_str(), id) {
            kept.push(x);
        }
        taken = taken + 1;
    }
    assert(p0.take(taken as int) =~= p0);
    *pending = kept;
}

proof fn lemma_auto_positions_bound<D>(e: Seq<ExpiredDialog<D>>)
    ensures
        auto_positions(e).len() <= e.len(),
        forall|k: int| 0 <= k < auto_positions(e).len() ==> 0 <= #[trigger] auto_positions(e)[k] < e.len(),
    decreases e.len(),
{
    if e.len() > 0 {
        lemma_auto_positions_bound(e.drop_last());
    }
}

proof fn lemma_without_dialog<D>(p: Seq<PendingDialog<D>>, id: Seq<char>)
    ensures
        forall|j: int| 0 <= j < without_dialog(p, id).len() ==> #[trigger] without_dialog(p, id)[j].id@ != id,
        forall|x: PendingDialog<D>| #[trigger] without_dialog(p, id).contains(x) <==> (p.contains(x) && x.id@ != id),
    decreases p.len(),
{
    if p.len() > 0 {
        let q = p.drop_last();
        lemma_without_dialog(q, id);
        let rest = without_dialog(q, id);
        let w = without_dialog(p, id);
        assert forall|x: PendingDialog<D>| #[trigger] w.contains(x) <==> (p.contains(x) && x.id@ != id) by {
            if p.contains(x) && x.id@ != id {
                let k = choose|k: int| 0 <= k < p.len() && p[k] == x;
                if k < q.len() {
                    assert(q[k] == x);
                    assert(q.contains(x));
                    assert(rest.contains(x));
                    let m = choose|m: int| 0 <= m < rest.len() && rest[m] == x;
                    assert(w[m] == x);
                } else {
                    assert(p.last() == x);
                    assert(w == rest.push(p.last()));
                    assert(w[rest.len() as int] == x);
                }
            }
            if w.contains(x) {
                let k = choose|k: int| 0 <= k < w.len() && w[k] == x;
                if p.last().id@ != id && k == rest.len() {
                    assert(p[p.len() - 1] == x);
                } else {
                    assert(rest[k] == x);
                    assert(rest.contains(x));
                    let m = choose|m: int| 0 <= m < q.len() && q[m] == x;
                    assert(p[m] == x);
                }
            }
        }
    }
}

/// After the timeouts are handled, no dialog that was handled
/// automatically is pending any more, and the dialogs still pending are
/// exactly those that were pending before and were not handled.
pub proof fn lemma_handled_dialogs_leave<D, E>(p: Seq<PendingDialog<D>>, e: Seq<ExpiredDialog<E>>)
    ensures
        forall|x: PendingDialog<D>| #[trigger] after_timeouts(p, e).contains(x) <==> (p.contains(x)
            && !exists|i: int| 0 <= i < e.len() && is_auto(e[i].state) && e[i].dialog_id@ == x.id@),
    decreases e.len(),
{
    if e.len() > 0 {
        let f = e.drop_last();
        lemma_handled_dialogs_leave(p, f);
        let rest = after_timeouts(p, f);
        lemma_without_dialog(rest, e.last().dialog_id@);
        assert forall|x: PendingDialog<D>| #[trigger] after_timeouts(p, e).contains(x) <==> (p.contains(x)
            && !exists|i: int| 0 <= i < e.len() && is_auto(e[i].state) && e[i].dialog_id@ == x.id@) by {
            if exists|i: int| 0 <= i < f.len() && is_auto(f[i].state) && f[i].dialog_id@ == x.id@ {
                let i = choose|i: int| 0 <= i < f.len() && is_auto(f[i].state) && f[i].dialog_id@ == x.id@;
                assert(e[i] == f[i]);
            }
            if exists|i: int| 0 <= i < e.len() && is_auto(e[i].state) && e[i].dialog_id@ == x.id@ {
                let i = choose|i: int| 0 <= i < e.len() && is_auto(e[i].state) && e[i].dialog_id@ == x.id@;
                if i < f.len() {
                    assert(f[i] == e[i]);
                }
            }
        }
    }
}

/// Handles the dialogs whose triage time ran out, in order: each one set
/// to be handled automatically gets its reply, adds one to the count of
/// dialogs handled today and leaves the pending list.
pub fn process_triage_timeouts<D, E>(
    expired: &Vec<ExpiredDialog<E>>,
    pending: &mut Vec<PendingDialog<D>>,
    handled_today: &mut u64,
) -> (replies: Vec<TimeoutReply>)
    requires
        *old(handled_today) + auto_positions(expired@).len() <= u64::MAX,
    ensures
        replies@.len() == auto_positions(expired@).len(),
        forall|k: int| 0 <= k < replies@.len() ==> {
            let i = #[trigger] auto_positions(expired@)[k];
            reply_for(expired@[i], i, replies@[k])
        },
        *final(handled_today) == *old(handled_today) + auto_positions(expired@).len(),
        final(pending)@ == after_timeouts(old(pending)@, expired@),
{
    let mut replies: Vec<TimeoutReply> = Vec::new();
    let mut i: usize = 0;
    while i < expired.len()
        invariant
            i <= expired@.len(),
            replies@.len() == auto_positions(expired@.take(i as int)).len(),
            forall|k: int| 0 <= k < replies@.len() ==> {
                let j = #[trigger] auto_positions(expired@.take(i as int))[k];
                reply_for(expired@[j], j, replies@[k])
            },
            *handled_today == *old(handled_today) + auto_positions(expired@.take(i as int)).len(),
            *old(handled_today) + auto_positions(expired@).len() <= u64::MAX,
            pending@ == after_timeouts(old(pending)@, expired@.take(i as int)),
        decreases expired@.len() - i,
    {
        let ghost pre = expired@.take(i as int);
        let ghost post = expired@.take(i + 1);
        proof {
            assert(post.drop_last() =~= pre);
            assert(post.last() == expired@[i as int]);
            lemma_auto_positions_bound(pre);
            lemma_auto_prefix(expired@, i + 1);
        }
        let d = &expired[i];
        match timeout_reply(d, i) {
            Some(r) => {
                *handled_today = *handled_today + 1;
                remove_dialog(pending, d.dialog_id.as_str());
                replies.push(r);
                proof {
                    assert forall|k: int| 0 <= k < replies@.len() implies {
                        let j = #[trigger] auto_positions(post)[k];
                        reply_for(expired@[j], j, replies@[k])
                    } by {
                        if k < replies@.len() - 1 {
                            assert(auto_positions(post)[k] == auto_positions(pre)[k]);
                        }
                    }
                }
            },
            None => {
                proof {
                    assert(auto_positions(post) == auto_positions(pre));
                }
            },
        }
        i = i + 1;
    }
    assert(expired@.take(i as int) =~= expired@);
    replies
}

proof fn lemma_auto_prefix<D>(e: Seq<ExpiredDialog<D>>, n: int)
    requires
        0 <= n <= e.len(),
    ensures
        auto_positions(e.take(n)).len() <= auto_positions(e).len(),
    decreases e.len() - n,
{
    if n < e.len() {
        lemma_auto_prefix(e, n + 1);
        assert(e.take(n + 1).drop_last() =~= e.take(n));
    } else {
        assert(e.take(n) =~= e);
    }
}

/// The reasoning recorded when a loaded dialog joins the triage queue: the
/// kind of agent it came from and its workspace ("unknown" when it has
/// none).
pub fn triage_reasoning(source: &str, workspace: Option<&str>) -> (s: String)
    ensures
        s@ == "Dialog from "@ + source@ + " agent in "@ + (match workspace {
            Some(w) => w@,
            None => "unknown"@,
        }),
{
    let mut s = String::from_str("Dialog from ");
    s.append(source);
    s.append(" agent in ");
    match workspace {
        Some(w) => s.append(w),
        None => s.append("unknown"),
    }
    s
}

/// The response sent when a triage item is approved: its suggested
/// response, else its first option, else "continue".
pub open spec fn spec_approve_selection(suggested: Option<Seq<char>>, options: Option<Seq<Seq<char>>>) -> Seq<char> {
    match suggested {
        Some(s) => s,
        None => match options {
            Some(o) => if o.len() > 0 { o[0] } else { "continue"@ },
            None => "continue"@,
        },
    }
}

/// Chooses the response for an approved triage item.
pub fn approve_selection(suggested: Option<&str>, options: Option<&[String]>) -> (r: String)
    ensures
        r@ == spec_approve_selection(
            match suggested { Some(s) => Some(s@), None => None },
            match options { Some(o) => Some(texts(o@)), None => None },
        ),
{
    match suggested {
        Some(s) => String::from_str(s),
        None => match options {
            Some(o) => if o.len() > 0 {
                o[0].clone()
            } else {
                String::from_str("continue")
            },
            None => String::from_str("continue"),
        },
    }
}

/// The title of a dialog handed back to the user after its decision was
/// undone.
pub fn undo_title(dialog_id: &str) -> (s: String)
    ensures
        s@ == "[UNDO] "@ + dialog_id@,
{
    let mut s = String::from_str("[UNDO] ");
    s.append(dialog_id);
    s
}

/// The prompt of a dialog handed back to the user after its decision was
/// undone: the response that was undone and the reasoning behind it.
pub fn undo_prompt(response: &str, reasoning: &str) -> (s: String)
    ensures
        s@ == "Previous response '"@ + response@ + "' was undone.\nOriginal reasoning: "@ + reasoning@,
{
    let mut s = String::from_str("Previous response '");
    s.append(response);
    s.append("' was undone.\nOriginal reasoning: ");
    s.append(reasoning);
    s
}

/// Counts of the decisions handled today.
#[derive(Clone, Copy, Debug, PartialEq, Eq, Structural)]
pub struct HandledCounts {
    pub auto_handled: u64,
    pub user_handled: u64,
}

/// The counts after a decision was undone: an automatic one is no longer
/// counted as automatic (the count stays at zero), and the dialog goes to
/// the user, who now handles it.
pub fn counts_after_undo(c: HandledCounts, was_auto: bool) -> (r: HandledCounts)
    requires
        c.user_handled < u64::MAX,
    ensures
        r.auto_handled == if was_auto && c.auto_handled > 0 { (c.auto_handled - 1) as u64 } else { c.auto_handled },
        r.user_handled == c.user_handled + 1,
{
    let auto = if was_auto && c.auto_handled > 0 { c.auto_handled - 1 } else { c.auto_handled };
    HandledCounts { auto_handled: auto, user_handled: c.user_handled + 1 }
}

/// The orchestrator's mode as the panel knows it; `D` identifies a recorded
/// decision.
pub struct ModePanel<D> {
    pub mode: OrchestratorMode,
    pub daemon_connected: bool,
    pub show_history: bool,
    /// A mode change waiting for confirmation
    pub pending_mode_change: Option<OrchestratorMode>,
    pub selected_decision: Option<D>,
}

/// Messages about the orchestrator's mode.
#[derive(Debug)]
pub enum ModeMsg<D> {
    SetMode(OrchestratorMode),
    ModeRefreshed(OrchestratorMode),
    ModeSetResult(Result<OrchestratorMode, String>),
    DaemonConnectionChanged(bool),
    ToggleHistory,
    RequestModeChange(OrchestratorMode),
    ConfirmModeChange,
    CancelModeChange,
    SelectDecision(Option<D>),
    RefreshMode,
}

/// What a mode message asks of the caller.
#[derive(Clone, Copy, Debug, PartialEq, Eq, Structural)]
pub enum ModeAction {
    Nothing,
    /// Ask the daemon to switch to this mode
    SetOnDaemon(OrchestratorMode),
    /// Ask the daemon for its mode
    FetchFromDaemon,
    /// The daemon is in this mode now: restart the mode's clock and tell
    /// the decision engine
    Applied(OrchestratorMode),
}

impl<D> ModePanel<D> {
    /// Handles one mode message.
    pub fn handle(&mut self, msg: ModeMsg<D>) -> (act: ModeAction)
        ensures
            msg matches ModeMsg::SetMode(m) ==> act == ModeAction::SetOnDaemon(m) && *final(self) == *old(self),
            msg matches ModeMsg::ModeRefreshed(m) ==> act == ModeAction::Applied(m)
                && *final(self) == (ModePanel { mode: m, daemon_connected: true, ..*old(self) }),
            msg matches ModeMsg::ModeSetResult(Ok(m)) ==> act == ModeAction::Applied(m)
                && *final(self) == (ModePanel { mode: m, daemon_connected: true, ..*old(self) }),
            msg matches ModeMsg::ModeSetResult(Err(_)) ==> act == ModeAction::Nothing && *final(self) == *old(self),
            msg matches ModeMsg::DaemonConnectionChanged(c) ==> act == ModeAction::Nothing
                && *final(self) == (ModePanel { daemon_connected: c, ..*old(self) }),
            msg is ToggleHistory ==> act == ModeAction::Nothing
                && *final(self) == (ModePanel { show_history: !old(self).show_history, ..*old(self) }),
            msg matches ModeMsg::RequestModeChange(m) ==> act == ModeAction::Nothing
                && *final(self) == (ModePanel { pending_mode_change: Some(m), ..*old(self) }),
            msg is ConfirmModeChange ==> *final(self) == (ModePanel { pending_mode_change: None, ..*old(self) })
                && act == (match old(self).pending_mode_change {
                    Some(m) => ModeAction::SetOnDaemon(m),
                    None => ModeAction::Nothing,
                }),
            msg is CancelModeChange ==> act == ModeAction::Nothing
                && *final(self) == (ModePanel { pending_mode_change: None, ..*old(self) }),
            msg matches ModeMsg::SelectDecision(d) ==> act == ModeAction::Nothing
                && *final(self) == (ModePanel { selected_decision: d, ..*old(self) }),
            msg is RefreshMode ==> act == ModeAction::FetchFromDaemon && *final(self) == *old(self),
    {
        match msg {
            ModeMsg::SetMode(m) => ModeAction::SetOnDaemon(m),
            ModeMsg::ModeRefreshed(m) => {
                self.mode = m;
                self.daemon_connected = true;
                ModeAction::Applied(m)
            },
            ModeMsg::ModeSetResult(r) => match r {
                Ok(m) => {
                    self.mode = m;
                    self.daemon_connected = true;
                    ModeAction::Applied(m)
                },
                Err(_) => ModeAction::Nothing,
            },
            ModeMsg::DaemonConnectionChanged(c) => {
                self.daemon_connected = c;
                ModeAction::Nothing
            },
            ModeMsg::ToggleHistory => {
                self.show_history = !self.show_history;
                ModeAction::Nothing
            },
            ModeMsg::RequestModeChange(m) => {
                self.pending_mode_change = Some(m);
                ModeAction::Nothing
            },
            ModeMsg::ConfirmModeChange => match self.pending_mode_change.take() {
                Some(m) => ModeAction::SetOnDaemon(m),
                None => ModeAction::Nothing,
            },
            ModeMsg::CancelModeChange => {
                self.pending_mode_change = None;
                ModeAction::Nothing
            },
            ModeMsg::SelectDecision(d) => {
                self.selected_decision = d;
                ModeAction::Nothing
            },
            ModeMsg::RefreshMode => ModeAction::FetchFromDaemon,
        }
    }
}

/// The message that asking the daemon for its mode amounts to: the mode
/// it reported, or that it is not connected.
pub fn mode_fetch_result<D>(mode: Option<OrchestratorMode>) -> (m: ModeMsg<D>)
    ensures
        mode matches Some(x) ==> m == ModeMsg::<D>::ModeRefreshed(x),
        mode is None ==> m == ModeMsg::<D>::DaemonConnectionChanged(false),
{
    match mode {
        Some(x) => ModeMsg::ModeRefreshed(x),
        None => ModeMsg::DaemonConnectionChanged(false),
    }
}

} // verus!
