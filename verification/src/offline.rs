//! Offline mode support: connection tracking across backends, and the queue
//! of operations performed while a backend was unreachable.

use vstd::prelude::*;
use vstd::string::*;
use std::collections::VecDeque;
use std::time::{Duration, SystemTime, SystemTimeError};
use crate::text::{decimal, push_char, push_decimal, same_text};

verus! {

/// Offline mode state.
#[derive(Clone, Copy, Debug, PartialEq, Eq, Structural)]
pub enum OfflineState {
    /// Connected to all backends
    Online,
    /// Some backends unavailable
    PartiallyOffline,
    /// All backends unavailable
    FullyOffline,
}

/// Connection status tracker for the three backends.
#[derive(Clone, Copy, Debug)]
pub struct ConnectionTracker {
    /// Core backend connection
    pub core_connected: bool,
    /// Dialog daemon connection
    pub dialog_connected: bool,
    /// Task queue connection
    pub task_queue_connected: bool,
}

/// The offline state that a set of connection flags amounts to.
pub open spec fn spec_offline_state(core: bool, dialog: bool, task_queue: bool) -> OfflineState {
    if core && dialog && task_queue {
        OfflineState::Online
    } else if !core && !dialog && !task_queue {
        OfflineState::FullyOffline
    } else {
        OfflineState::PartiallyOffline
    }
}

/// The parts of `parts` separated by `sep`.
pub open spec fn join(parts: Seq<Seq<char>>, sep: Seq<char>) -> Seq<char>
    decreases parts.len(),
{
    if parts.len() == 0 {
        Seq::empty()
    } else if parts.len() == 1 {
        parts[0]
    } else {
        join(parts.drop_last(), sep) + sep + parts.last()
    }
}

pub proof fn lemma_join_push(parts: Seq<Seq<char>>, sep: Seq<char>, x: Seq<char>)
    ensures
        join(parts.push(x), sep) == if parts.len() == 0 { x } else { join(parts, sep) + sep + x },
{
    assert(parts.push(x).drop_last() =~= parts);
    if parts.len() == 0 {
        assert(parts.push(x)[0] == x);
    }
}

/// Names of the disconnected backends, in the order Core, Dialog, Task Queue.
pub open spec fn disconnected_names(core: bool, dialog: bool, task_queue: bool) -> Seq<Seq<char>> {
    (if !core { seq!["Core"@] } else { Seq::empty() })
        + (if !dialog { seq!["Dialog"@] } else { Seq::empty() })
        + (if !task_queue { seq!["Task Queue"@] } else { Seq::empty() })
}

/// The status line shown for a set of connection flags.
pub open spec fn spec_status_text(core: bool, dialog: bool, task_queue: bool) -> Seq<char> {
    match spec_offline_state(core, dialog, task_queue) {
        OfflineState::Online => "All services connected"@,
        OfflineState::FullyOffline => "Offline - operations will be queued"@,
        OfflineState::PartiallyOffline => "Partial - "@
            + join(disconnected_names(core, dialog, task_queue), ", "@) + " disconnected"@,
    }
}

impl Default for ConnectionTracker {
    /// No backend connected.
    fn default() -> (t: Self)
        ensures
            !t.core_connected,
            !t.dialog_connected,
            !t.task_queue_connected,
    {
        ConnectionTracker::new()
    }
}

impl ConnectionTracker {
    /// A tracker in which no backend is connected yet.
    pub fn new() -> (t: Self)
        ensures
            !t.core_connected,
            !t.dialog_connected,
            !t.task_queue_connected,
    {
        ConnectionTracker { core_connected: false, dialog_connected: false, task_queue_connected: false }
    }

    /// Overall offline state: online when every backend is connected, fully
    /// offline when none is, partially offline otherwise.
    pub fn offline_state(&self) -> (s: OfflineState)
        ensures
            s == spec_offline_state(self.core_connected, self.dialog_connected, self.task_queue_connected),
    {
        if self.core_connected && self.dialog_connected && self.task_queue_connected {
            OfflineState::Online
        } else if !self.core_connected && !self.dialog_connected && !self.task_queue_connected {
            OfflineState::FullyOffline
        } else {
            OfflineState::PartiallyOffline
        }
    }

    /// Human-readable status: all connected, offline with operations being
    /// queued, or which backends are disconnected.
    pub fn status_text(&self) -> (s: String)
        ensures
            s@ == spec_status_text(self.core_connected, self.dialog_connected, self.task_queue_connected),
    {
        match self.offline_state() {
            OfflineState::Online => String::from_str("All services connected"),
            OfflineState::FullyOffline => String::from_str("Offline - operations will be queued"),
            OfflineState::PartiallyOffline => {
                let ghost names = disconnected_names(self.core_connected, self.dialog_connected, self.task_queue_connected);
                let mut joined = String::new();
                let mut count: usize = 0;
                let ghost mut taken: Seq<Seq<char>> = Seq::empty();
                if !self.core_connected {
                    joined.append("Core");
                    count = count + 1;
                    proof {
                        lemma_join_push(taken, ", "@, "Core"@);
                        taken = taken.push("Core"@);
                    }
                }
                assert(joined@ =~= join(taken, ", "@));
                assert(count == taken.len());
                if !self.dialog_connected {
                    if count > 0 {
                        joined.append(", ");
                    }
                    joined.append("Dialog");
                    count = count + 1;
                    proof {
                        lemma_join_push(taken, ", "@, "Dialog"@);
                        taken = taken.push("Dialog"@);
                    }
                }
                assert(joined@ =~= join(taken, ", "@));
                assert(count == taken.len());
                if !self.task_queue_connected {
                    if count > 0 {
                        joined.append(", ");
                    }
                    joined.append("Task Queue");
                    proof {
                        lemma_join_push(taken, ", "@, "Task Queue"@);
                        taken = taken.push("Task Queue"@);
                    }
                }
                assert(joined@ =~= join(taken, ", "@));
                assert(taken =~= names);
                let mut s = String::from_str("Partial - ");
                s.append(joined.as_str());
                s.append(" disconnected");
                assert(s@ =~= "Partial - "@ + join(names, ", "@) + " disconnected"@);
                s
            },
        }
    }
}


/// Declares `std::time::SystemTime`, carried as the time of queued
/// operations and of the last sync.
#[verifier::external_type_specification]
#[verifier::external_body]
pub struct ExSystemTime(SystemTime);

/// Declares `serde_json::Value`, carried as the payload of some operations.
#[verifier::external_type_specification]
#[verifier::external_body]
pub struct ExJsonValue(serde_json::Value);

/// Declares `std::time::SystemTimeError`, the error of a time before the
/// epoch.
#[verifier::external_type_specification]
#[verifier::external_body]
pub struct ExSystemTimeError(SystemTimeError);

/// `SystemTime::now`: the wall-clock time. Nothing is claimed of it.
#[verifier::external_body]
pub(crate) fn system_now() -> SystemTime {
    SystemTime::now()
}

/// `SystemTime::duration_since(UNIX_EPOCH)`: the time elapsed since the
/// epoch, or an error for a time before it. Nothing is claimed of it.
#[verifier::external_body]
fn since_epoch(t: &SystemTime) -> Result<Duration, SystemTimeError> {
    t.duration_since(SystemTime::UNIX_EPOCH)
}

/// `Duration::as_nanos`: the whole duration in nanoseconds. Nothing is
/// claimed of it.
#[verifier::external_body]
fn duration_nanos(d: &Duration) -> u128 {
    d.as_nanos()
}

/// Maximum queued operations before the oldest are dropped.
pub const MAX_QUEUE_SIZE: usize = 1000;

/// Types of operations that can be queued.
#[derive(Debug)]
pub enum OperationType {
    /// Task queue item addition
    TaskAdd { title: String, description: Option<String>, priority: String },
    /// Task status update
    TaskUpdate { task_id: String, status: String },
    /// Dialog response (cached for later sync)
    DialogResponse { dialog_id: String, selection: serde_json::Value, comment: Option<String> },
    /// Settings sync request
    SettingsSync { settings_json: String },
    /// Session action (start, stop, etc.)
    SessionAction { session_id: String, action: String },
    /// Custom operation (for extensibility)
    Custom { name: String, payload: serde_json::Value },
}

/// An operation that was performed while offline.
#[derive(Debug)]
pub struct QueuedOperation {
    /// Operation ID
    pub id: String,
    /// When the operation was created, in nanoseconds since the Unix epoch
    /// (0 for a clock before the epoch)
    pub timestamp: u128,
    /// Type of operation
    pub operation: OperationType,
    /// Number of retry attempts
    pub retry_count: u32,
    /// Last error message (if any)
    pub last_error: Option<String>,
}

/// Offline operation queue manager.
#[derive(Debug)]
pub struct OfflineQueue {
    /// Queued operations, oldest first
    operations: VecDeque<QueuedOperation>,
    /// Current offline state
    state: OfflineState,
    /// Last sync time
    last_sync: Option<SystemTime>,
    /// Sync in progress
    sync_in_progress: bool,
}

/// The ID given to an operation queued at `millis` milliseconds after the
/// epoch when `len` operations were pending: `op-<millis>-<len>`.
pub open spec fn op_id(millis: nat, len: nat) -> Seq<char> {
    seq!['o', 'p', '-'] + decimal(millis) + seq!['-'] + decimal(len)
}

/// The milliseconds of a timestamp given in nanoseconds.
pub open spec fn millis_of(nanos: u128) -> nat {
    (nanos / 1_000_000) as nat
}

/// Number of leading operations of `s` created no later than `t`.
pub open spec fn count_not_later(s: Seq<QueuedOperation>, t: u128) -> nat
    decreases s.len(),
{
    if s.len() > 0 && s[0].timestamp <= t { 1 + count_not_later(s.drop_first(), t) } else { 0 }
}

/// `x` placed into `s` after every leading operation created no later.
pub open spec fn insert_by_time(s: Seq<QueuedOperation>, x: QueuedOperation) -> Seq<QueuedOperation> {
    let p = count_not_later(s, x.timestamp) as int;
    s.take(p).push(x) + s.skip(p)
}

/// The operations ordered by timestamp, oldest first; operations with the
/// same timestamp keep their queue order (a stable sort).
pub open spec fn by_time(s: Seq<QueuedOperation>) -> Seq<QueuedOperation>
    decreases s.len(),
{
    if s.len() == 0 { s } else { insert_by_time(by_time(s.drop_last()), s.last()) }
}

/// Whether `s` is ordered by timestamp, oldest first.
pub open spec fn oldest_first(s: Seq<QueuedOperation>) -> bool {
    forall|i: int, j: int| 0 <= i <= j < s.len() ==> s[i].timestamp <= s[j].timestamp
}

/// The pending operations after `op` joins `ops`: the oldest one leaves
/// first when the queue is full.
pub open spec fn enqueue(ops: Seq<QueuedOperation>, op: QueuedOperation) -> Seq<QueuedOperation> {
    if ops.len() >= MAX_QUEUE_SIZE { ops.drop_first().push(op) } else { ops.push(op) }
}

/// `ops` without the operations whose ID is `id`, in order.
pub open spec fn without_id(ops: Seq<QueuedOperation>, id: Seq<char>) -> Seq<QueuedOperation>
    decreases ops.len(),
{
    if ops.len() == 0 {
        ops
    } else {
        let rest = without_id(ops.drop_last(), id);
        if ops.last().id@ == id { rest } else { rest.push(ops.last()) }
    }
}

/// `ops` without the operations retried `max_retries` times or more.
pub open spec fn below_retries(ops: Seq<QueuedOperation>, max_retries: u32) -> Seq<QueuedOperation>
    decreases ops.len(),
{
    if ops.len() == 0 {
        ops
    } else {
        let rest = below_retries(ops.drop_last(), max_retries);
        if ops.last().retry_count < max_retries { rest.push(ops.last()) } else { rest }
    }
}

/// Position of the first operation with ID `id`.
pub open spec fn first_with_id(ops: Seq<QueuedOperation>, id: Seq<char>, i: int) -> bool {
    0 <= i < ops.len() && ops[i].id@ == id && forall|j: int| 0 <= j < i ==> ops[j].id@ != id
}

/// `ops` after a failure of the first operation with ID `id`: its retry
/// count goes up by one and the error is recorded; with no such operation
/// nothing changes.
pub open spec fn failed(ops: Seq<QueuedOperation>, id: Seq<char>, error: String) -> Seq<QueuedOperation> {
    if exists|i: int| first_with_id(ops, id, i) {
        let i = choose|i: int| first_with_id(ops, id, i);
        ops.update(i, QueuedOperation {
            retry_count: (ops[i].retry_count + 1) as u32,
            last_error: Some(error),
            ..ops[i]
        })
    } else {
        ops
    }
}

/// The text of `op_id(millis, n)`.
fn op_id_text(millis: u128, n: u128) -> (s: String)
    ensures
        s@ == op_id(millis as nat, n as nat),
{
    let mut s = String::new();
    push_char(&mut s, 'o');
    push_char(&mut s, 'p');
    push_char(&mut s, '-');
    push_decimal(&mut s, millis);
    push_char(&mut s, '-');
    push_decimal(&mut s, n);
    assert(s@ =~= op_id(millis as nat, n as nat));
    s
}

proof fn lemma_count_not_later(s: Seq<QueuedOperation>, t: u128, p: int)
    requires
        0 <= p <= s.len(),
        forall|k: int| 0 <= k < p ==> #[trigger] s[k].timestamp <= t,
        p == s.len() || s[p].timestamp > t,
    ensures
        count_not_later(s, t) == p,
    decreases p,
{
    if p > 0 {
        assert forall|k: int| 0 <= k < p - 1 implies #[trigger] s.drop_first()[k].timestamp <= t by {
            assert(s.drop_first()[k] == s[k + 1]);
        }
        lemma_count_not_later(s.drop_first(), t, p - 1);
    }
}

proof fn lemma_count_not_later_props(s: Seq<QueuedOperation>, t: u128)
    ensures
        count_not_later(s, t) <= s.len(),
        forall|k: int| 0 <= k < count_not_later(s, t) ==> #[trigger] s[k].timestamp <= t,
        count_not_later(s, t) == s.len() || s[count_not_later(s, t) as int].timestamp > t,
    decreases s.len(),
{
    if s.len() > 0 && s[0].timestamp <= t {
        let rest = s.drop_first();
        lemma_count_not_later_props(rest, t);
        assert forall|k: int| 0 <= k < count_not_later(s, t) implies #[trigger] s[k].timestamp <= t by {
            if k > 0 {
                assert(s[k] == rest[k - 1]);
            }
        }
    }
}

proof fn lemma_insert_by_time(s: Seq<QueuedOperation>, x: QueuedOperation)
    requires
        oldest_first(s),
    ensures
        oldest_first(insert_by_time(s, x)),
        insert_by_time(s, x).to_multiset() == s.to_multiset().insert(x),
        insert_by_time(s, x).len() == s.len() + 1,
{
    lemma_count_not_later_props(s, x.timestamp);
    let p = count_not_later(s, x.timestamp) as int;
    let r = insert_by_time(s, x);
    assert forall|i: int, j: int| 0 <= i <= j < r.len() implies r[i].timestamp <= r[j].timestamp by {
        if i < p && j < p {
            assert(r[i] == s[i] && r[j] == s[j]);
        } else if i < p && j == p {
            assert(r[i] == s[i]);
        } else if i < p {
            assert(r[i] == s[i] && r[j] == s[j - 1]);
        } else if i == p && j > p {
            assert(r[j] == s[j - 1]);
            assert(s[p].timestamp <= s[j - 1].timestamp);
        } else if i > p {
            assert(r[i] == s[i - 1] && r[j] == s[j - 1]);
        }
    }
    broadcast use vstd::seq_lib::group_to_multiset_ensures;
    assert(s =~= s.take(p) + s.skip(p));
    vstd::seq_lib::lemma_multiset_commutative(s.take(p).push(x), s.skip(p));
    vstd::seq_lib::lemma_multiset_commutative(s.take(p), s.skip(p));
}

impl Default for OfflineQueue {
    /// An empty queue in the online state.
    fn default() -> (q: Self)
        ensures
            q.ops() == Seq::<QueuedOperation>::empty(),
            q.spec_state() == OfflineState::Online,
            q.spec_last_sync() is None,
            !q.spec_syncing(),
    {
        OfflineQueue::new()
    }
}

impl OfflineQueue {
    /// The pending operations, oldest first.
    pub closed spec fn ops(&self) -> Seq<QueuedOperation> {
        self.operations@
    }

    /// The current offline state.
    pub closed spec fn spec_state(&self) -> OfflineState {
        self.state
    }

    /// The time of the last completed sync.
    pub closed spec fn spec_last_sync(&self) -> Option<SystemTime> {
        self.last_sync
    }

    /// Whether a sync is in progress.
    pub closed spec fn spec_syncing(&self) -> bool {
        self.sync_in_progress
    }

    /// An empty queue in the online state.
    pub fn new() -> (q: Self)
        ensures
            q.ops() == Seq::<QueuedOperation>::empty(),
            q.spec_state() == OfflineState::Online,
            q.spec_last_sync() is None,
            !q.spec_syncing(),
    {
        OfflineQueue { operations: VecDeque::new(), state: OfflineState::Online, last_sync: None, sync_in_progress: false }
    }

    /// A queue holding the given parts (as restored from storage).
    pub fn from_parts(operations: VecDeque<QueuedOperation>, state: OfflineState, last_sync: Option<SystemTime>, sync_in_progress: bool) -> (q: Self)
        ensures
            q.ops() == operations@,
            q.spec_state() == state,
            q.spec_last_sync() == last_sync,
            q.spec_syncing() == sync_in_progress,
    {
        OfflineQueue { operations, state, last_sync, sync_in_progress }
    }

    /// The parts of the queue (for storage).
    pub fn into_parts(self) -> (r: (VecDeque<QueuedOperation>, OfflineState, Option<SystemTime>, bool))
        ensures
            r.0@ == self.ops(),
            r.1 == self.spec_state(),
            r.2 == self.spec_last_sync(),
            r.3 == self.spec_syncing(),
    {
        (self.operations, self.state, self.last_sync, self.sync_in_progress)
    }

    /// Queues an operation created at `timestamp` (nanoseconds since the
    /// epoch); returns its ID, `op-<millis>-<n>` with `n` the number of
    /// pending operations.
    pub fn queue_at(&mut self, operation: OperationType, timestamp: u128) -> (id: String)
        ensures
            id@ == op_id(millis_of(timestamp), old(self).ops().len()),
            final(self).ops() == enqueue(old(self).ops(), QueuedOperation {
                id, timestamp, operation, retry_count: 0, last_error: None,
            }),
            final(self).spec_state() == old(self).spec_state(),
            final(self).spec_last_sync() == old(self).spec_last_sync(),
            final(self).spec_syncing() == old(self).spec_syncing(),
    {
        let millis: u128 = timestamp / 1_000_000;
        let id = op_id_text(millis, self.operations.len() as u128);
        let queued = QueuedOperation {
            id: id.clone(),
            timestamp,
            operation,
            retry_count: 0,
            last_error: None,
        };
        if self.operations.len() >= MAX_QUEUE_SIZE {
            self.operations.pop_front();
        }
        self.operations.push_back(queued);
        proof {
            assert(self.operations@ =~= enqueue(old(self).ops(), QueuedOperation {
                id, timestamp, operation, retry_count: 0, last_error: None,
            }));
        }
        id
    }

    /// Queues an operation for later sync, stamped with the current time;
    /// returns its ID.
    pub fn queue(&mut self, operation: OperationType) -> (id: String)
        ensures
            exists|t: u128| {
                &&& id@ == op_id(millis_of(t), old(self).ops().len())
                &&& final(self).ops() == enqueue(old(self).ops(), QueuedOperation {
                    id, timestamp: t, operation, retry_count: 0, last_error: None,
                })
            },
            final(self).spec_state() == old(self).spec_state(),
            final(self).spec_last_sync() == old(self).spec_last_sync(),
            final(self).spec_syncing() == old(self).spec_syncing(),
    {
        let now = system_now();
        let nanos: u128 = match since_epoch(&now) {
            Ok(d) => duration_nanos(&d),
            Err(_) => 0,
        };
        self.queue_at(operation, nanos)
    }

    /// Number of pending operations.
    pub fn pending_count(&self) -> (n: usize)
        ensures
            n == self.ops().len(),
    {
        self.operations.len()
    }

    /// Whether no operation is pending.
    pub fn is_empty(&self) -> (b: bool)
        ensures
            b == (self.ops().len() == 0),
    {
        self.operations.len() == 0
    }

    /// Current offline state.
    pub fn state(&self) -> (s: OfflineState)
        ensures
            s == self.spec_state(),
    {
        self.state
    }

    /// Updates the offline state.
    pub fn set_state(&mut self, state: OfflineState)
        ensures
            final(self).spec_state() == state,
            final(self).ops() == old(self).ops(),
            final(self).spec_last_sync() == old(self).spec_last_sync(),
            final(self).spec_syncing() == old(self).spec_syncing(),
    {
        if self.state != state {
            self.state = state;
        }
    }

    /// All pending operations, in queue order.
    pub fn pending_operations(&self) -> (r: Vec<&QueuedOperation>)
        ensures
            r@.len() == self.ops().len(),
            forall|i: int| 0 <= i < r@.len() ==> *r@[i] == self.ops()[i],
    {
        let mut r: Vec<&QueuedOperation> = Vec::new();
        let n = self.operations.len();
        let mut i: usize = 0;
        while i < n
            invariant
                n == self.operations@.len(),
                i <= n,
                r@.len() == i,
                forall|k: int| 0 <= k < i ==> *r@[k] == self.operations@[k],
            decreases n - i,
        {
            r.push(&self.operations[i]);
            i = i + 1;
        }
        r
    }

    /// The operations ready for sync: the `limit` oldest by timestamp (all
    /// of them if there are fewer), oldest first; operations with the same
    /// timestamp come in queue order.
    pub fn get_sync_batch(&self, limit: usize) -> (r: Vec<&QueuedOperation>)
        ensures
            r@.len() == if limit <= self.ops().len() { limit as nat } else { self.ops().len() },
            forall|i: int| 0 <= i < r@.len() ==> *r@[i] == by_time(self.ops())[i],
    {
        let ghost all = self.operations@;
        let n = self.operations.len();
        let mut out: Vec<&QueuedOperation> = Vec::new();
        let mut i: usize = 0;
        while i < n
            invariant
                n == all.len(),
                all == self.operations@,
                i <= n,
                out@.len() == i,
                by_time(all.take(i as int)).len() == i,
                forall|k: int| 0 <= k < i ==> *out@[k] == by_time(all.take(i as int))[k],
            decreases n - i,
        {
            let x = &self.operations[i];
            proof {
                assert(all.take(i + 1).drop_last() =~= all.take(i as int));
                lemma_by_time(all.take(i as int));
            }
            let ghost before = by_time(all.take(i as int));
            let mut p: usize = 0;
            while p < out.len() && out[p].timestamp <= x.timestamp
                invariant
                    p <= out@.len(),
                    out@.len() == before.len(),
                    forall|k: int| 0 <= k < out@.len() ==> *out@[k] == before[k],
                    forall|k: int| 0 <= k < p ==> #[trigger] before[k].timestamp <= x.timestamp,
                decreases out@.len() - p,
            {
                p = p + 1;
            }
            proof {
                lemma_count_not_later(before, x.timestamp, p as int);
            }
            let ghost out0 = out@;
            out.insert(p, x);
            i = i + 1;
            proof {
                let after = by_time(all.take(i as int));
                assert(after == before.take(p as int).push(*x) + before.skip(p as int));
                assert forall|k: int| 0 <= k < i implies *out@[k] == after[k] by {
                    if k < p {
                        assert(out@[k] == out0[k]);
                    } else if k > p {
                        assert(out@[k] == out0[k - 1]);
                    }
                }
            }
        }
        assert(all.take(n as int) =~= all);
        out.truncate(limit);
        out
    }

    /// Removes every pending operation with ID `id`, and records the
    /// current time as the last sync.
    pub fn complete(&mut self, id: &str)
        ensures
            final(self).ops() == without_id(old(self).ops(), id@),
            final(self).spec_last_sync() is Some,
            final(self).spec_state() == old(self).spec_state(),
            final(self).spec_syncing() == old(self).spec_syncing(),
    {
        let ghost ops0 = self.operations@;
        let mut kept: VecDeque<QueuedOperation> = VecDeque::new();
        let mut i: usize = 0;
        let n = self.operations.len();
        while i < n
            invariant
                n == ops0.len(),
                i <= n,
                self.operations@ == ops0.skip(i as int),
                kept@ == without_id(ops0.take(i as int), id@),
                self.state == old(self).state,
                self.sync_in_progress == old(self).sync_in_progress,
            decreases n - i,
        {
            let op = self.operations.pop_front().unwrap();
            proof {
                assert(ops0.take(i + 1).drop_last() =~= ops0.take(i as int));
                assert(ops0.take(i + 1).last() == op);
            }
            if !same_text(op.id.as_str(), id) {
                kept.push_back(op);
            }
            i = i + 1;
            assert(self.operations@ =~= ops0.skip(i as int));
        }
        assert(ops0.take(n as int) =~= ops0);
        self.operations = kept;
        self.last_sync = Some(system_now());
    }

    /// Records a failed attempt of the first pending operation with ID `id`:
    /// its retry count goes up by one and `error` becomes its last error.
    pub fn mark_failed(&mut self, id: &str, error: String)
        requires
            forall|i: int| first_with_id(old(self).ops(), id@, i) ==> old(self).ops()[i].retry_count < u32::MAX,
        ensures
            final(self).ops() == failed(old(self).ops(), id@, error),
            final(self).spec_state() == old(self).spec_state(),
            final(self).spec_last_sync() == old(self).spec_last_sync(),
            final(self).spec_syncing() == old(self).spec_syncing(),
    {
        let ghost ops0 = self.operations@;
        assert(ops0 == old(self).ops());
        let mut out: VecDeque<QueuedOperation> = VecDeque::new();
        let mut err: Option<String> = Some(error);
        let mut found: bool = false;
        let ghost mut at: int = -1;
        let mut i: usize = 0;
        let n = self.operations.len();
        while i < n
            invariant
                n == ops0.len(),
                i <= n,
                self.operations@ == ops0.skip(i as int),
                forall|k: int| 0 <= k < i ==> ops0[k].id@ != id@ || (found && k >= at),
                found ==> first_with_id(ops0, id@, at) && at < i && err is None,
                !found ==> err == Some(error),
                out@.len() == i,
                forall|k: int| 0 <= k < i && !(found && k == at) ==> out@[k] == ops0[k],
                found ==> out@[at] == (QueuedOperation {
                    retry_count: (ops0[at].retry_count + 1) as u32,
                    last_error: Some(error),
                    ..ops0[at]
                }),
                forall|k: int| first_with_id(ops0, id@, k) ==> ops0[k].retry_count < u32::MAX,
                self.state == old(self).state,
                self.last_sync == old(self).last_sync,
                self.sync_in_progress == old(self).sync_in_progress,
            decreases n - i,
        {
            let mut op = self.operations.pop_front().unwrap();
            assert(op == ops0[i as int]);
            if !found && same_text(op.id.as_str(), id) {
                proof {
                    assert(first_with_id(ops0, id@, i as int));
                    at = i as int;
                }
                op.retry_count = op.retry_count + 1;
                op.last_error = err.take();
                found = true;
            }
            out.push_back(op);
            i = i + 1;
            assert(self.operations@ =~= ops0.skip(i as int));
        }
        proof {
            if found {
                assert(exists|j: int| first_with_id(ops0, id@, j));
                let j = choose|j: int| first_with_id(ops0, id@, j);
                assert(j == at);
                assert(out@ =~= failed(ops0, id@, error));
            } else {
                assert(!exists|j: int| first_with_id(ops0, id@, j));
                assert(out@ =~= ops0);
            }
        }
        self.operations = out;
    }

    /// Removes the operations retried `max_retries` times or more.
    pub fn prune_failed(&mut self, max_retries: u32)
        ensures
            final(self).ops() == below_retries(old(self).ops(), max_retries),
            final(self).spec_state() == old(self).spec_state(),
            final(self).spec_last_sync() == old(self).spec_last_sync(),
            final(self).spec_syncing() == old(self).spec_syncing(),
    {
        let ghost ops0 = self.operations@;
        let mut kept: VecDeque<QueuedOperation> = VecDeque::new();
        let mut i: usize = 0;
        let n = self.operations.len();
        while i < n
            invariant
                n == ops0.len(),
                i <= n,
                self.operations@ == ops0.skip(i as int),
                kept@ == below_retries(ops0.take(i as int), max_retries),
                self.state == old(self).state,
                self.last_sync == old(self).last_sync,
                self.sync_in_progress == old(self).sync_in_progress,
            decreases n - i,
        {
            let op = self.operations.pop_front().unwrap();
            proof {
                assert(ops0.take(i + 1).drop_last() =~= ops0.take(i as int));
                assert(ops0.take(i + 1).last() == op);
            }
            if op.retry_count < max_retries {
                kept.push_back(op);
            }
            i = i + 1;
            assert(self.operations@ =~= ops0.skip(i as int));
        }
        assert(ops0.take(n as int) =~= ops0);
        self.operations = kept;
    }

    /// Drops every pending operation.
    pub fn clear(&mut self)
        ensures
            final(self).ops() == Seq::<QueuedOperation>::empty(),
            final(self).spec_state() == old(self).spec_state(),
            final(self).spec_last_sync() == old(self).spec_last_sync(),
            final(self).spec_syncing() == old(self).spec_syncing(),
    {
        self.operations.clear();
    }

    /// Time of the last completed sync.
    pub fn last_sync(&self) -> (t: Option<SystemTime>)
        ensures
            t == self.spec_last_sync(),
    {
        self.last_sync
    }

    /// Whether a sync is in progress.
    pub fn is_syncing(&self) -> (b: bool)
        ensures
            b == self.spec_syncing(),
    {
        self.sync_in_progress
    }

    /// Sets the sync-in-progress flag.
    pub fn set_syncing(&mut self, syncing: bool)
        ensures
            final(self).spec_syncing() == syncing,
            final(self).ops() == old(self).ops(),
            final(self).spec_state() == old(self).spec_state(),
            final(self).spec_last_sync() == old(self).spec_last_sync(),
    {
        self.sync_in_progress = syncing;
    }
}


/// The overall state is online exactly when every backend is connected, and
/// fully offline exactly when none is.
pub proof fn lemma_offline_state_cases(core: bool, dialog: bool, task_queue: bool)
    ensures
        (spec_offline_state(core, dialog, task_queue) == OfflineState::Online) <==> (core && dialog && task_queue),
        (spec_offline_state(core, dialog, task_queue) == OfflineState::FullyOffline) <==> (!core && !dialog && !task_queue),
{
}

/// A queue never grows beyond its maximum: queuing into a queue within the
/// bound leaves one more operation, or the same number when it was full;
/// the new operation is the newest one.
pub proof fn lemma_enqueue_bounded(ops: Seq<QueuedOperation>, op: QueuedOperation)
    requires
        ops.len() <= MAX_QUEUE_SIZE,
    ensures
        enqueue(ops, op).len() == if ops.len() == MAX_QUEUE_SIZE { ops.len() } else { ops.len() + 1 },
        enqueue(ops, op).len() <= MAX_QUEUE_SIZE,
        enqueue(ops, op).last() == op,
{
}

/// Completing an ID leaves no operation with that ID, keeps every other
/// operation, and changes nothing when no operation has that ID.
pub proof fn lemma_complete_removes_only(ops: Seq<QueuedOperation>, id: Seq<char>)
    ensures
        forall|k: int| 0 <= k < without_id(ops, id).len() ==> (#[trigger] without_id(ops, id)[k]).id@ != id,
        forall|k: int| 0 <= k < ops.len() && (#[trigger] ops[k]).id@ != id ==> without_id(ops, id).contains(ops[k]),
        (forall|k: int| 0 <= k < ops.len() ==> (#[trigger] ops[k]).id@ != id) ==> without_id(ops, id) == ops,
    decreases ops.len(),
{
    if ops.len() > 0 {
        let init = ops.drop_last();
        lemma_complete_removes_only(init, id);
        let rest = without_id(init, id);
        assert forall|k: int| 0 <= k < ops.len() && (#[trigger] ops[k]).id@ != id implies without_id(ops, id).contains(ops[k]) by {
            if k < ops.len() - 1 {
                assert(init[k] == ops[k]);
                let j = choose|j: int| 0 <= j < rest.len() && rest[j] == init[k];
                if ops.last().id@ != id {
                    assert(rest.push(ops.last())[j] == ops[k]);
                }
            } else {
                assert(rest.push(ops.last())[rest.len() as int] == ops[k]);
            }
        }
        if forall|k: int| 0 <= k < ops.len() ==> (#[trigger] ops[k]).id@ != id {
            assert forall|k: int| 0 <= k < init.len() implies (#[trigger] init[k]).id@ != id by {
                assert(init[k] == ops[k]);
            }
            assert(ops[ops.len() - 1].id@ != id);
            assert(rest.push(ops.last()) =~= ops);
        }
    }
}

/// Completing the ID of the operation just queued takes it out again: the
/// pending operations are those there were before, less any that shared
/// the ID.
pub proof fn lemma_queue_then_complete(ops: Seq<QueuedOperation>, op: QueuedOperation)
    ensures
        without_id(ops.push(op), op.id@) == without_id(ops, op.id@),
{
    assert(ops.push(op).drop_last() =~= ops);
}

/// After pruning, every remaining operation is below the retry limit, and
/// every operation below the limit remains.
pub proof fn lemma_prune_keeps_below(ops: Seq<QueuedOperation>, max_retries: u32)
    ensures
        forall|k: int| 0 <= k < below_retries(ops, max_retries).len()
            ==> (#[trigger] below_retries(ops, max_retries)[k]).retry_count < max_retries,
        forall|k: int| 0 <= k < ops.len() && (#[trigger] ops[k]).retry_count < max_retries
            ==> below_retries(ops, max_retries).contains(ops[k]),
    decreases ops.len(),
{
    if ops.len() > 0 {
        let init = ops.drop_last();
        lemma_prune_keeps_below(init, max_retries);
        let rest = below_retries(init, max_retries);
        assert forall|k: int| 0 <= k < ops.len() && (#[trigger] ops[k]).retry_count < max_retries
            implies below_retries(ops, max_retries).contains(ops[k]) by {
            if k < ops.len() - 1 {
                assert(init[k] == ops[k]);
                let j = choose|j: int| 0 <= j < rest.len() && rest[j] == init[k];
                if ops.last().retry_count < max_retries {
                    assert(rest.push(ops.last())[j] == ops[k]);
                }
            } else {
                assert(rest.push(ops.last())[rest.len() as int] == ops[k]);
            }
        }
    }
}

/// A failure is recorded on the first operation with the ID only: its
/// retry count goes up by one and the error is kept; every other operation
/// and the length are unchanged.
pub proof fn lemma_failed_records_once(ops: Seq<QueuedOperation>, id: Seq<char>, error: String, i: int)
    requires
        first_with_id(ops, id, i),
    ensures
        failed(ops, id, error).len() == ops.len(),
        failed(ops, id, error)[i].retry_count == ops[i].retry_count + 1 || ops[i].retry_count == u32::MAX,
        failed(ops, id, error)[i].last_error == Some(error),
        failed(ops, id, error)[i].id == ops[i].id,
        forall|k: int| 0 <= k < ops.len() && k != i ==> #[trigger] failed(ops, id, error)[k] == ops[k],
{
    let j = choose|j: int| first_with_id(ops, id, j);
    assert(j == i);
}

/// Ordering by timestamp gives the same operations, oldest first.
pub proof fn lemma_by_time(s: Seq<QueuedOperation>)
    ensures
        oldest_first(by_time(s)),
        by_time(s).to_multiset() == s.to_multiset(),
        by_time(s).len() == s.len(),
    decreases s.len(),
{
    broadcast use vstd::seq_lib::group_to_multiset_ensures;
    if s.len() > 0 {
        lemma_by_time(s.drop_last());
        lemma_insert_by_time(by_time(s.drop_last()), s.last());
        assert(s =~= s.drop_last().push(s.last()));
    }
}

} // verus!
