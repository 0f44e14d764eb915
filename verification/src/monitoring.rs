//! Session monitoring for running Cursor instances: health assessment,
//! per-session metric histories, CPU tick accounting and the parsers of the
//! `/proc` files that the metrics are read from.
//!
//! CPU readings are percentages that the caller computes in floating point;
//! this module carries them through as an opaque type parameter `C`.

use vstd::prelude::*;
use std::collections::VecDeque;
use std::time::Instant;
use std::collections::HashMap;
use crate::text::{
    chars_of, sub_chars, decimal, find_char, find_from, parse_unsigned, parse_unsigned_range, push_char,
    push_decimal, rfind, rfind_char, is_ws, lemma_ws_fields_nonempty, split_ws, ws_fields, range_text, is_first_index,
};
use crate::units::{fixed_point, nearest_double, nearest_double_exec, push_fixed_point, unit_suffix};

verus! {

/// Health status indicators.
#[derive(Clone, Copy, Debug, PartialEq, Eq, Structural)]
pub enum HealthStatus {
    /// Everything is normal
    Healthy,
    /// Some metrics are elevated but acceptable
    Warning,
    /// Metrics indicate potential issues
    Critical,
    /// Unable to determine health
    Unknown,
}

impl HealthStatus {
    /// The status name.
    pub fn as_str(&self) -> (s: &'static str)
        ensures
            *self == HealthStatus::Healthy ==> s@ == "Healthy"@,
            *self == HealthStatus::Warning ==> s@ == "Warning"@,
            *self == HealthStatus::Critical ==> s@ == "Critical"@,
            *self == HealthStatus::Unknown ==> s@ == "Unknown"@,
    {
        match self {
            HealthStatus::Healthy => "Healthy",
            HealthStatus::Warning => "Warning",
            HealthStatus::Critical => "Critical",
            HealthStatus::Unknown => "Unknown",
        }
    }
}

/// Where a CPU reading stands against the health thresholds.
#[derive(Clone, Copy, Debug, PartialEq, Eq, Structural)]
pub enum CpuLevel {
    /// At most 50 percent
    Normal,
    /// Above 50 percent, at most 90 percent
    Elevated,
    /// Above 90 percent
    Saturated,
}

pub const GIB: u64 = 1073741824;

/// Health of a process: critical when CPU is above 90 percent, memory above
/// 8 GB or more than 10000 file descriptors are open; warning when CPU is
/// above 50 percent, memory above 4 GB, more than 100 threads run or more
/// than 5000 descriptors are open; healthy otherwise.
pub open spec fn spec_assess_health(cpu: CpuLevel, memory: nat, threads: nat, fds: nat) -> HealthStatus {
    if cpu == CpuLevel::Saturated || memory > 8 * GIB || fds > 10000 {
        HealthStatus::Critical
    } else if cpu == CpuLevel::Elevated || memory > 4 * GIB || threads > 100 || fds > 5000 {
        HealthStatus::Warning
    } else {
        HealthStatus::Healthy
    }
}

/// Derives the health status from a process's metrics.
pub fn assess_health(cpu: CpuLevel, memory: u64, threads: u32, fds: u32) -> (h: HealthStatus)
    ensures
        h == spec_assess_health(cpu, memory as nat, threads as nat, fds as nat),
{
    if cpu == CpuLevel::Saturated || memory > 8 * GIB || fds > 10000 {
        return HealthStatus::Critical;
    }
    if cpu == CpuLevel::Elevated || memory > 4 * GIB || threads > 100 || fds > 5000 {
        return HealthStatus::Warning;
    }
    HealthStatus::Healthy
}

/// Human-readable size with one decimal in the largest unit reached.
pub open spec fn spec_format_bytes(b: nat) -> Seq<char> {
    if b >= 1073741824 {
        fixed_point(nearest_double(b), 1073741824, 1) + unit_suffix('G')
    } else if b >= 1048576 {
        fixed_point(b, 1048576, 1) + unit_suffix('M')
    } else if b >= 1024 {
        fixed_point(b, 1024, 1) + unit_suffix('K')
    } else {
        decimal(b) + seq![' ', 'B']
    }
}

/// Formats a byte count into a human-readable string ("1.5 GB", "500 B").
pub fn format_bytes(bytes: u64) -> (s: String)
    ensures
        s@ == spec_format_bytes(bytes as nat),
{
    let mut s = String::new();
    if bytes >= GIB {
        let v = nearest_double_exec(bytes);
        push_fixed_point(&mut s, v, 1073741824, 1);
        push_char(&mut s, ' ');
        push_char(&mut s, 'G');
    } else if bytes >= 1048576 {
        push_fixed_point(&mut s, bytes as u128, 1048576, 1);
        push_char(&mut s, ' ');
        push_char(&mut s, 'M');
    } else if bytes >= 1024 {
        push_fixed_point(&mut s, bytes as u128, 1024, 1);
        push_char(&mut s, ' ');
        push_char(&mut s, 'K');
    } else {
        push_decimal(&mut s, bytes as u128);
    }
    if bytes < 1024 {
        push_char(&mut s, ' ');
    }
    push_char(&mut s, 'B');
    proof {
        assert(s@ =~= spec_format_bytes(bytes as nat));
    }
    s
}


/// Declares `std::time::Instant` so that a history can record when it was
/// last updated.
#[verifier::external_type_specification]
#[verifier::external_body]
pub struct ExInstant(Instant);

/// `Instant::now`: the current monotonic time. Nothing is claimed of the
/// value it returns.
#[verifier::external_body]
fn instant_now() -> Instant {
    Instant::now()
}

/// Maximum number of historical data points kept for each session.
pub const MAX_HISTORY_POINTS: usize = 60;

/// Metrics for a single session at a point in time. `C` is the type of the
/// CPU usage reading (a percentage between 0 and 100).
#[derive(Debug)]
pub struct SessionMetrics<C> {
    /// Process ID
    pub pid: u32,
    /// Timestamp when metrics were collected (seconds since the epoch)
    pub timestamp: u64,
    /// CPU usage percentage (0-100)
    pub cpu_percent: C,
    /// Memory usage in bytes
    pub memory_bytes: u64,
    /// Memory usage in human-readable format
    pub memory_human: String,
    /// Resident set size (actual physical memory)
    pub rss_bytes: u64,
    /// Virtual memory size
    pub vsize_bytes: u64,
    /// Number of threads
    pub thread_count: u32,
    /// Number of open file descriptors
    pub fd_count: u32,
    /// Process state (R=running, S=sleeping, etc.)
    pub state: char,
    /// Health status derived from metrics
    pub health: HealthStatus,
}

/// Historical metrics for a session, as parallel histories of the last
/// readings, oldest first.
#[derive(Debug)]
pub struct SessionHistory<C> {
    /// Process ID
    pub pid: u32,
    /// CPU usage history
    pub cpu_history: VecDeque<C>,
    /// Memory usage history, in bytes
    pub memory_history: VecDeque<u64>,
    /// Thread count history
    pub thread_history: VecDeque<u32>,
    /// File descriptor count history
    pub fd_history: VecDeque<u32>,
    /// Timestamps for each data point
    pub timestamps: VecDeque<u64>,
    /// Latest full metrics
    pub latest: Option<SessionMetrics<C>>,
    /// Last update time
    pub last_update: Instant,
}

/// How many of the oldest readings make room for a new one when the CPU
/// history holds `len` readings: enough to leave 59.
pub open spec fn readings_dropped(len: nat) -> nat {
    if len >= MAX_HISTORY_POINTS { (len - (MAX_HISTORY_POINTS - 1)) as nat } else { 0 }
}

/// `s` without its first `k` elements (all of them if there are fewer),
/// followed by `x`.
pub open spec fn shift_in<T>(s: Seq<T>, k: nat, x: T) -> Seq<T> {
    s.skip(if k <= s.len() { k as int } else { s.len() as int }).push(x)
}

/// The last `n` elements of `s` (all of them if there are fewer).
pub open spec fn keep_last<T>(s: Seq<T>, n: nat) -> Seq<T> {
    if s.len() > n { s.skip(s.len() - n) } else { s }
}

impl<C> SessionHistory<C> {
    /// All five histories have the same length, at most the maximum.
    pub open spec fn well_formed(&self) -> bool {
        &&& self.cpu_history@.len() <= MAX_HISTORY_POINTS
        &&& self.memory_history@.len() == self.cpu_history@.len()
        &&& self.thread_history@.len() == self.cpu_history@.len()
        &&& self.fd_history@.len() == self.cpu_history@.len()
        &&& self.timestamps@.len() == self.cpu_history@.len()
    }

    /// An empty history for a process.
    pub fn new(pid: u32) -> (h: Self)
        ensures
            h.pid == pid,
            h.cpu_history@.len() == 0,
            h.memory_history@.len() == 0,
            h.thread_history@.len() == 0,
            h.fd_history@.len() == 0,
            h.timestamps@.len() == 0,
            h.latest is None,
            h.well_formed(),
    {
        SessionHistory {
            pid,
            cpu_history: VecDeque::with_capacity(MAX_HISTORY_POINTS),
            memory_history: VecDeque::with_capacity(MAX_HISTORY_POINTS),
            thread_history: VecDeque::with_capacity(MAX_HISTORY_POINTS),
            fd_history: VecDeque::with_capacity(MAX_HISTORY_POINTS),
            timestamps: VecDeque::with_capacity(MAX_HISTORY_POINTS),
            latest: None,
            last_update: instant_now(),
        }
    }

}

impl<C: Copy> SessionHistory<C> {
    /// Adds a reading: while the CPU history is full, the oldest entry of
    /// every history is dropped; then the reading's values are appended and
    /// the reading becomes the latest.
    pub fn add_metrics(&mut self, metrics: SessionMetrics<C>)
        ensures
            final(self).pid == old(self).pid,
            final(self).cpu_history@ == shift_in(old(self).cpu_history@,
                readings_dropped(old(self).cpu_history@.len()), metrics.cpu_percent),
            final(self).memory_history@ == shift_in(old(self).memory_history@,
                readings_dropped(old(self).cpu_history@.len()), metrics.memory_bytes),
            final(self).thread_history@ == shift_in(old(self).thread_history@,
                readings_dropped(old(self).cpu_history@.len()), metrics.thread_count),
            final(self).fd_history@ == shift_in(old(self).fd_history@,
                readings_dropped(old(self).cpu_history@.len()), metrics.fd_count),
            final(self).timestamps@ == shift_in(old(self).timestamps@,
                readings_dropped(old(self).cpu_history@.len()), metrics.timestamp),
            final(self).latest == Some(metrics),
    {
        let ghost cpu0 = self.cpu_history@;
        let ghost mem0 = self.memory_history@;
        let ghost thr0 = self.thread_history@;
        let ghost fd0 = self.fd_history@;
        let ghost ts0 = self.timestamps@;
        let ghost k = readings_dropped(cpu0.len());
        let ghost pid0 = self.pid;
        let ghost mut j: nat = 0;
        while self.cpu_history.len() >= MAX_HISTORY_POINTS
            invariant
                j <= k,
                self.pid == pid0,
                k == readings_dropped(cpu0.len()),
                j <= cpu0.len(),
                self.cpu_history@ == cpu0.skip(j as int),
                self.memory_history@ == mem0.skip(if j <= mem0.len() { j as int } else { mem0.len() as int }),
                self.thread_history@ == thr0.skip(if j <= thr0.len() { j as int } else { thr0.len() as int }),
                self.fd_history@ == fd0.skip(if j <= fd0.len() { j as int } else { fd0.len() as int }),
                self.timestamps@ == ts0.skip(if j <= ts0.len() { j as int } else { ts0.len() as int }),
                self.cpu_history@.len() >= MAX_HISTORY_POINTS ==> j < k,
                self.cpu_history@.len() < MAX_HISTORY_POINTS ==> j == k,
            decreases self.cpu_history@.len(),
        {
            self.cpu_history.pop_front();
            self.memory_history.pop_front();
            self.thread_history.pop_front();
            self.fd_history.pop_front();
            self.timestamps.pop_front();
            proof {
                j = j + 1;
                assert(self.cpu_history@ =~= cpu0.skip(j as int));
                assert(self.memory_history@ =~= mem0.skip(if j <= mem0.len() { j as int } else { mem0.len() as int }));
                assert(self.thread_history@ =~= thr0.skip(if j <= thr0.len() { j as int } else { thr0.len() as int }));
                assert(self.fd_history@ =~= fd0.skip(if j <= fd0.len() { j as int } else { fd0.len() as int }));
                assert(self.timestamps@ =~= ts0.skip(if j <= ts0.len() { j as int } else { ts0.len() as int }));
            }
        }
        self.cpu_history.push_back(metrics.cpu_percent);
        self.memory_history.push_back(metrics.memory_bytes);
        self.thread_history.push_back(metrics.thread_count);
        self.fd_history.push_back(metrics.fd_count);
        self.timestamps.push_back(metrics.timestamp);
        self.latest = Some(metrics);
        self.last_update = instant_now();
    }
}

/// A history that receives a reading keeps exactly the last readings, up to
/// the maximum, in order, and stays well formed.
pub proof fn lemma_history_keeps_last<T>(s: Seq<T>, x: T)
    requires
        s.len() <= MAX_HISTORY_POINTS,
    ensures
        shift_in(s, readings_dropped(s.len()), x) == keep_last(s.push(x), MAX_HISTORY_POINTS as nat),
        shift_in(s, readings_dropped(s.len()), x).len() <= MAX_HISTORY_POINTS,
{
    assert(shift_in(s, readings_dropped(s.len()), x) =~= keep_last(s.push(x), MAX_HISTORY_POINTS as nat));
}


/// The fields of `/proc/[pid]/stat` that the monitor reads.
#[derive(Clone, Copy, Debug)]
pub struct ProcStat {
    /// Process state character
    pub state: char,
    /// User time, in ticks
    pub utime: u64,
    /// System time, in ticks
    pub stime: u64,
    /// Number of threads
    pub num_threads: u32,
}

/// The value `str::parse` gives, or 0 when it fails.
pub open spec fn parse_or_zero(s: Seq<char>, max: nat) -> nat {
    match parse_unsigned(s, max) {
        Some(v) => v,
        None => 0,
    }
}

/// The whitespace-separated fields after the process name of a stat line:
/// the text two characters past the last `)`.
pub open spec fn stat_fields(c: Seq<char>) -> Seq<Seq<char>> {
    ws_fields(c.skip(rfind_char(c, ')').unwrap() + 2))
}

/// The stat text can be sliced after the process name: when it holds both
/// parentheses, the last `)` is followed by a single-byte character.
pub open spec fn stat_sliceable(c: Seq<char>) -> bool {
    (c.contains('(') && c.contains(')')) ==> {
        let i = rfind_char(c, ')').unwrap();
        i + 1 < c.len() && (c[i + 1] as u32) < 128
    }
}

/// What `/proc/[pid]/stat` holds for the monitor: nothing unless the text
/// has a `(` and a `)` and at least 20 fields follow the process name; the
/// state is the first character of the first field, user and system time
/// are fields 11 and 12, the thread count is field 17 (each 0 when it does
/// not parse).
pub open spec fn spec_parse_proc_stat(c: Seq<char>) -> Option<ProcStat> {
    if !c.contains('(') || !c.contains(')') {
        None
    } else {
        let f = stat_fields(c);
        if f.len() < 20 {
            None
        } else {
            Some(ProcStat {
                state: f[0][0],
                utime: parse_or_zero(f[11], u64::MAX as nat) as u64,
                stime: parse_or_zero(f[12], u64::MAX as nat) as u64,
                num_threads: parse_or_zero(f[17], u32::MAX as nat) as u32,
            })
        }
    }
}

proof fn lemma_fields_nonempty(s: Seq<char>)
    ensures
        forall|k: int| 0 <= k < ws_fields(s).len() ==> #[trigger] ws_fields(s)[k].len() > 0,
    decreases s.len(),
{
    if s.len() > 0 {
        let prev = ws_fields(s.drop_last());
        lemma_fields_nonempty(s.drop_last());
        let f = ws_fields(s);
        let c = s.last();
        if is_ws(c) {
            assert(f == prev);
        } else if s.len() >= 2 && !is_ws(s[s.len() - 2]) {
            assert(s.drop_last().last() == s[s.len() - 2]);
            lemma_ws_fields_nonempty(s.drop_last());
            let g = prev.update(prev.len() - 1, prev.last().push(c));
            assert(f == g);
            assert forall|k: int| 0 <= k < g.len() implies #[trigger] g[k].len() > 0 by {
                if k != prev.len() - 1 {
                    assert(g[k] == prev[k]);
                }
            }
        } else {
            let g = prev.push(seq![c]);
            assert(f == g);
            assert forall|k: int| 0 <= k < g.len() implies #[trigger] g[k].len() > 0 by {
                if k < prev.len() {
                    assert(g[k] == prev[k]);
                }
            }
        }
    }
}

/// Parses the text of `/proc/[pid]/stat`.
pub fn parse_proc_stat(content: &str) -> (r: Option<ProcStat>)
    requires
        stat_sliceable(content@),
    ensures
        r == spec_parse_proc_stat(content@),
{
    let cs = chars_of(content);
    let open = find_from(cs.as_slice(), 0, '(');
    assert(cs@.skip(0) =~= cs@);
    let close = rfind(cs.as_slice(), ')');
    if open.is_none() || close.is_none() {
        proof {
            if cs@.contains('(') {
                let k = choose|k: int| 0 <= k < cs@.len() && cs@[k] == '(';
                assert(!(find_char(cs@, '(') is None));
            }
        }
        return None;
    }
    let end = close.unwrap();
    proof {
        assert(cs@.contains('('));
        assert(cs@.contains(')'));
        assert(rfind_char(cs@, ')') == Some(end as int));
        assert(end + 1 < cs@.len());
    }
    let after_v = sub_chars(cs.as_slice(), end + 2, cs.len());
    let after = after_v.as_slice();
    let ghost a = cs@.skip(end as int + 2);
    assert(after@ =~= a);
    let fields = split_ws(after);
    if fields.len() < 20 {
        return None;
    }
    proof {
        lemma_fields_nonempty(a);
        assert(range_text(a, fields@[0]) == ws_fields(a)[0]);
    }
    let f0 = fields[0];
    let state = after[f0.0];
    assert(state == ws_fields(a)[0][0]);
    let f11 = fields[11];
    let f12 = fields[12];
    let f17 = fields[17];
    let utime = match parse_unsigned_range(after, f11.0, f11.1, u64::MAX) {
        Some(v) => v,
        None => 0,
    };
    let stime = match parse_unsigned_range(after, f12.0, f12.1, u64::MAX) {
        Some(v) => v,
        None => 0,
    };
    let threads = match parse_unsigned_range(after, f17.0, f17.1, u32::MAX as u64) {
        Some(v) => v as u32,
        None => 0,
    };
    proof {
        assert(range_text(a, fields@[11]) == ws_fields(a)[11]);
        assert(range_text(a, fields@[12]) == ws_fields(a)[12]);
        assert(range_text(a, fields@[17]) == ws_fields(a)[17]);
    }
    Some(ProcStat { state, utime, stime, num_threads: threads })
}

/// Page size assumed for `/proc/[pid]/statm`.
pub const PAGE_SIZE: u64 = 4096;

/// The page counts of a statm text fit in bytes: when the text has two
/// fields and the first parses, its byte size fits in `u64`, and likewise
/// the second when it parses too.
pub open spec fn statm_in_range(c: Seq<char>) -> bool {
    let f = ws_fields(c);
    f.len() >= 2 ==> match parse_unsigned(f[0], u64::MAX as nat) {
        None => true,
        Some(v) => v * PAGE_SIZE <= u64::MAX && match parse_unsigned(f[1], u64::MAX as nat) {
            None => true,
            Some(r) => r * PAGE_SIZE <= u64::MAX,
        },
    }
}

/// What `/proc/[pid]/statm` gives: the virtual size and the resident set
/// size in bytes (the first two fields times the page size), or nothing
/// when there are fewer than two fields or one of them does not parse.
pub open spec fn spec_parse_proc_statm(c: Seq<char>) -> Option<(u64, u64)> {
    let f = ws_fields(c);
    if f.len() < 2 {
        None
    } else {
        match parse_unsigned(f[0], u64::MAX as nat) {
            None => None,
            Some(v) => match parse_unsigned(f[1], u64::MAX as nat) {
                None => None,
                Some(r) => Some(((v * PAGE_SIZE) as u64, (r * PAGE_SIZE) as u64)),
            },
        }
    }
}

/// Parses the text of `/proc/[pid]/statm` into (virtual size, resident size).
pub fn parse_proc_statm(content: &str) -> (r: Option<(u64, u64)>)
    requires
        statm_in_range(content@),
    ensures
        r == spec_parse_proc_statm(content@),
{
    let cs = chars_of(content);
    let fields = split_ws(cs.as_slice());
    if fields.len() < 2 {
        return None;
    }
    let f0 = fields[0];
    let f1 = fields[1];
    proof {
        assert(range_text(cs@, fields@[0]) == ws_fields(cs@)[0]);
        assert(range_text(cs@, fields@[1]) == ws_fields(cs@)[1]);
    }
    let v = match parse_unsigned_range(cs.as_slice(), f0.0, f0.1, u64::MAX) {
        Some(v) => v,
        None => { return None; }
    };
    let vsize = v * PAGE_SIZE;
    let r = match parse_unsigned_range(cs.as_slice(), f1.0, f1.1, u64::MAX) {
        Some(r) => r,
        None => { return None; }
    };
    let rss = r * PAGE_SIZE;
    Some((vsize, rss))
}

/// `str::lines().next()`: the text up to the first newline (without a
/// carriage return that precedes it), the whole text when it has no
/// newline, nothing for the empty text.
pub open spec fn first_line(c: Seq<char>) -> Option<Seq<char>> {
    if c.len() == 0 {
        None
    } else if c.contains('\n') {
        let l = c.take(find_char(c, '\n').unwrap());
        Some(if l.len() > 0 && l.last() == '\r' { l.drop_last() } else { l })
    } else {
        Some(c)
    }
}

/// Sum of the values of `fs`, each 0 when it does not parse.
pub open spec fn sum_parsed(fs: Seq<Seq<char>>) -> nat
    decreases fs.len(),
{
    if fs.len() == 0 {
        0
    } else {
        sum_parsed(fs.drop_last()) + parse_or_zero(fs.last(), u64::MAX as nat)
    }
}

/// The seven tick fields after the `cpu` label of the first line of
/// `/proc/stat`, when the line has that label and more than seven fields.
pub open spec fn cpu_tick_fields(c: Seq<char>) -> Option<Seq<Seq<char>>> {
    match first_line(c) {
        None => None,
        Some(l) => {
            let f = ws_fields(l);
            if f.len() > 7 && f[0] == seq!['c', 'p', 'u'] { Some(f.subrange(1, 8)) } else { None }
        },
    }
}

/// Total CPU ticks of the system from the text of `/proc/stat`: the sum of
/// the seven fields after `cpu` that parse.
pub open spec fn spec_cpu_total(c: Seq<char>) -> Option<nat> {
    match cpu_tick_fields(c) {
        None => None,
        Some(fs) => Some(sum_parsed(fs)),
    }
}

/// The total of the CPU tick fields fits in `u64`.
pub open spec fn cpu_total_in_range(c: Seq<char>) -> bool {
    spec_cpu_total(c) matches Some(t) ==> t <= u64::MAX
}

proof fn lemma_sum_parsed_mono(fs: Seq<Seq<char>>, i: int)
    requires
        0 <= i <= fs.len(),
    ensures
        sum_parsed(fs.take(i)) <= sum_parsed(fs),
    decreases fs.len() - i,
{
    if i < fs.len() {
        lemma_sum_parsed_mono(fs, i + 1);
        assert(fs.take(i + 1).drop_last() =~= fs.take(i));
    } else {
        assert(fs.take(i) =~= fs);
    }
}

/// The first line of a non-empty text, as a copy.
fn first_line_of(cs: &Vec<char>) -> (line: Vec<char>)
    requires
        cs@.len() > 0,
    ensures
        first_line(cs@) == Some(line@),
{
    let nl = find_from(cs.as_slice(), 0, '\n');
    assert(cs@.skip(0) =~= cs@);
    let mut end = match nl {
        Some(i) => i,
        None => cs.len(),
    };
    proof {
        if nl is None && cs@.contains('\n') {
            let k = choose|k: int| 0 <= k < cs@.len() && cs@[k] == '\n';
            assert(!(find_char(cs@, '\n') is None));
        }
    }
    if nl.is_some() && end > 0 && cs[end - 1] == '\r' {
        end = end - 1;
    }
    let line = sub_chars(cs.as_slice(), 0, end);
    proof {
        if nl is Some {
            assert(cs@.contains('\n'));
            let t = cs@.take(find_char(cs@, '\n').unwrap());
            assert(line@ =~= (if t.len() > 0 && t.last() == '\r' { t.drop_last() } else { t }));
        } else {
            assert(line@ =~= cs@);
        }
    }
    line
}

/// Whether the first field is the `cpu` label.
fn is_cpu_label(line: &[char], fields: &Vec<(usize, usize)>) -> (b: bool)
    requires
        fields@.len() > 0,
        ranges_ok(line@, fields@),
    ensures
        b == (ws_fields(line@)[0] == seq!['c', 'p', 'u']),
{
    let f0 = fields[0];
    assert(range_text(line@, fields@[0]) == ws_fields(line@)[0]);
    let b = f0.1 - f0.0 == 3 && line[f0.0] == 'c' && line[f0.0 + 1] == 'p' && line[f0.0 + 2] == 'u';
    proof {
        let w = ws_fields(line@)[0];
        if b {
            assert(w =~= seq!['c', 'p', 'u']);
        } else if w == seq!['c', 'p', 'u'] {
            assert(w.len() == 3);
            assert(w[0] == line@[f0.0 as int]);
            assert(w[1] == line@[f0.0 + 1]);
            assert(w[2] == line@[f0.0 + 2]);
        }
    }
    b
}

/// Sum of the seven tick fields after the label.
fn sum_tick_fields(line: &[char], fields: &Vec<(usize, usize)>) -> (total: u64)
    requires
        fields@.len() > 7,
        ranges_ok(line@, fields@),
        sum_parsed(ws_fields(line@).subrange(1, 8)) <= u64::MAX,
    ensures
        total as nat == sum_parsed(ws_fields(line@).subrange(1, 8)),
{
    let ghost fs = ws_fields(line@).subrange(1, 8);
    let mut total: u64 = 0;
    let mut k: usize = 1;
    while k <= 7
        invariant
            1 <= k <= 8,
            fields@.len() > 7,
            ranges_ok(line@, fields@),
            fs == ws_fields(line@).subrange(1, 8),
            total as nat == sum_parsed(fs.take(k - 1)),
            sum_parsed(fs) <= u64::MAX,
        decreases 8 - k,
    {
        let fk = fields[k];
        proof {
            assert(range_text(line@, fields@[k as int]) == ws_fields(line@)[k as int]);
            assert(fs.take(k as int).drop_last() =~= fs.take(k - 1));
            assert(fs.take(k as int).last() == ws_fields(line@)[k as int]);
            lemma_sum_parsed_mono(fs, k as int);
        }
        match parse_unsigned_range(line, fk.0, fk.1, u64::MAX) {
            Some(v) => {
                total = total + v;
            },
            None => {},
        }
        k = k + 1;
    }
    assert(fs.take(7) =~= fs);
    total
}

/// Parses the total CPU ticks from the text of `/proc/stat`.
pub fn parse_cpu_total(content: &str) -> (r: Option<u64>)
    requires
        cpu_total_in_range(content@),
    ensures
        r matches Some(t) ==> spec_cpu_total(content@) == Some(t as nat),
        r is None ==> spec_cpu_total(content@) is None,
{
    let cs = chars_of(content);
    if cs.len() == 0 {
        return None;
    }
    let line = first_line_of(&cs);
    let fields = split_ws(line.as_slice());
    if fields.len() <= 7 {
        return None;
    }
    if !is_cpu_label(line.as_slice(), &fields) {
        return None;
    }
    Some(sum_tick_fields(line.as_slice(), &fields))
}

/// Sum of the seven tick fields after the label, however large.
fn sum_tick_fields_wide(line: &[char], fields: &Vec<(usize, usize)>) -> (total: u128)
    requires
        fields@.len() > 7,
        ranges_ok(line@, fields@),
    ensures
        total as nat == sum_parsed(ws_fields(line@).subrange(1, 8)),
{
    let ghost fs = ws_fields(line@).subrange(1, 8);
    let mut total: u128 = 0;
    let mut k: usize = 1;
    while k <= 7
        invariant
            1 <= k <= 8,
            fields@.len() > 7,
            ranges_ok(line@, fields@),
            fs == ws_fields(line@).subrange(1, 8),
            total as nat == sum_parsed(fs.take(k - 1)),
            total <= (k - 1) * 0xFFFF_FFFF_FFFF_FFFF,
        decreases 8 - k,
    {
        let fk = fields[k];
        proof {
            assert(range_text(line@, fields@[k as int]) == ws_fields(line@)[k as int]);
            assert(fs.take(k as int).drop_last() =~= fs.take(k - 1));
            assert(fs.take(k as int).last() == ws_fields(line@)[k as int]);
        }
        match parse_unsigned_range(line, fk.0, fk.1, u64::MAX) {
            Some(v) => {
                total = total + v as u128;
            },
            None => {},
        }
        k = k + 1;
    }
    assert(fs.take(7) =~= fs);
    total
}

/// Whether the total CPU ticks in the text of `/proc/stat` fit in a `u64`,
/// as `parse_cpu_total` needs (a text without a `cpu` line passes).
pub fn cpu_text_ok(content: &str) -> (b: bool)
    ensures
        b == cpu_total_in_range(content@),
{
    let cs = chars_of(content);
    if cs.len() == 0 {
        return true;
    }
    let line = first_line_of(&cs);
    let fields = split_ws(line.as_slice());
    if fields.len() <= 7 {
        return true;
    }
    if !is_cpu_label(line.as_slice(), &fields) {
        return true;
    }
    let total = sum_tick_fields_wide(line.as_slice(), &fields);
    total <= 0xFFFF_FFFF_FFFF_FFFF
}

/// Whether the text of `/proc/[pid]/stat` can be read past the process
/// name, as `parse_proc_stat` needs.
pub fn stat_text_ok(content: &str) -> (b: bool)
    ensures
        b == stat_sliceable(content@),
{
    let cs = chars_of(content);
    let open = find_from(cs.as_slice(), 0, '(');
    assert(cs@.skip(0) =~= cs@);
    let close = rfind(cs.as_slice(), ')');
    proof {
        if cs@.contains('(') {
            let k = choose|k: int| 0 <= k < cs@.len() && cs@[k] == '(';
            assert(!(find_char(cs@, '(') is None));
        }
        if cs@.contains(')') {
            let k = choose|k: int| 0 <= k < cs@.len() && cs@[k] == ')';
            assert(!(rfind_char(cs@, ')') is None));
        }
    }
    match (open, close) {
        (Some(_), Some(end)) => {
            assert(cs@.contains('(') && cs@.contains(')'));
            if end < cs.len() - 1 {
                let c = cs[end + 1];
                (c as u32) < 128
            } else {
                false
            }
        },
        _ => true,
    }
}

/// Whether the page counts in the text of `/proc/[pid]/statm` fit in bytes,
/// as `parse_proc_statm` needs.
pub fn statm_text_ok(content: &str) -> (b: bool)
    ensures
        b == statm_in_range(content@),
{
    let cs = chars_of(content);
    let fields = split_ws(cs.as_slice());
    if fields.len() < 2 {
        return true;
    }
    let f0 = fields[0];
    let f1 = fields[1];
    proof {
        assert(range_text(cs@, fields@[0]) == ws_fields(cs@)[0]);
        assert(range_text(cs@, fields@[1]) == ws_fields(cs@)[1]);
    }
    match parse_unsigned_range(cs.as_slice(), f0.0, f0.1, u64::MAX) {
        None => true,
        Some(v) => {
            if v.checked_mul(PAGE_SIZE).is_none() {
                false
            } else {
                match parse_unsigned_range(cs.as_slice(), f1.0, f1.1, u64::MAX) {
                    None => true,
                    Some(r) => r.checked_mul(PAGE_SIZE).is_some(),
                }
            }
        },
    }
}

pub open spec fn ranges_ok(s: Seq<char>, rs: Seq<(usize, usize)>) -> bool {
    &&& rs.len() == ws_fields(s).len()
    &&& forall|k: int| 0 <= k < rs.len() ==> #[trigger] rs[k].0 <= rs[k].1 <= s.len()
    &&& forall|k: int| 0 <= k < rs.len() ==> range_text(s, #[trigger] rs[k]) == ws_fields(s)[k]
}


/// Session monitor state: the history of each session and the CPU tick
/// readings that CPU usage is computed from, by process ID.
pub struct SessionMonitor<C> {
    /// Historical data per session
    histories: HashMap<u32, SessionHistory<C>>,
    /// Previous (process ticks, system ticks) reading per session
    prev_cpu_ticks: HashMap<u32, (u64, u64)>,
    /// System total CPU ticks at the last update
    system_total_ticks: u64,
}

/// What a history looks like after a reading was added to `before`
/// (a fresh empty history when there was none).
pub open spec fn history_after<C>(before: Option<SessionHistory<C>>, pid: u32, m: SessionMetrics<C>, after: SessionHistory<C>) -> bool {
    let (cpu, mem, thr, fd, ts) = match before {
        Some(h) => (h.cpu_history@, h.memory_history@, h.thread_history@, h.fd_history@, h.timestamps@),
        None => (Seq::empty(), Seq::empty(), Seq::empty(), Seq::empty(), Seq::empty()),
    };
    let k = readings_dropped(cpu.len());
    &&& after.pid == (match before { Some(h) => h.pid, None => pid })
    &&& after.cpu_history@ == shift_in(cpu, k, m.cpu_percent)
    &&& after.memory_history@ == shift_in(mem, k, m.memory_bytes)
    &&& after.thread_history@ == shift_in(thr, k, m.thread_count)
    &&& after.fd_history@ == shift_in(fd, k, m.fd_count)
    &&& after.timestamps@ == shift_in(ts, k, m.timestamp)
    &&& after.latest == Some(m)
}

/// The (process ticks, system ticks) deltas since the previous reading,
/// when there was one and the system ticks advanced.
pub open spec fn spec_tick_delta(prev: Option<(u64, u64)>, ticks: u64, total: u64) -> Option<(u64, u64)> {
    match prev {
        Some((p, t)) => if total > t {
            Some((if ticks >= p { (ticks - p) as u64 } else { 0 }, (total - t) as u64))
        } else {
            None
        },
        None => None,
    }
}

impl<C> Default for SessionMonitor<C> {
    /// A monitor with no sessions.
    fn default() -> (m: Self)
        ensures
            m.history_map() == Map::<u32, SessionHistory<C>>::empty(),
            m.tick_map() == Map::<u32, (u64, u64)>::empty(),
            m.system_ticks() == 0,
    {
        SessionMonitor::new()
    }
}

impl<C> SessionMonitor<C> {
    /// The history of each monitored session.
    pub closed spec fn history_map(&self) -> Map<u32, SessionHistory<C>> {
        self.histories@
    }

    /// The last CPU tick reading of each session.
    pub closed spec fn tick_map(&self) -> Map<u32, (u64, u64)> {
        self.prev_cpu_ticks@
    }

    /// System-wide CPU ticks at the last update.
    pub closed spec fn system_ticks(&self) -> u64 {
        self.system_total_ticks
    }

    /// A monitor with no sessions.
    pub fn new() -> (m: Self)
        ensures
            m.history_map() == Map::<u32, SessionHistory<C>>::empty(),
            m.tick_map() == Map::<u32, (u64, u64)>::empty(),
            m.system_ticks() == 0,
    {
        SessionMonitor { histories: HashMap::new(), prev_cpu_ticks: HashMap::new(), system_total_ticks: 0 }
    }

    /// History of a session, if it is monitored.
    pub fn get_history(&self, pid: u32) -> (r: Option<&SessionHistory<C>>)
        ensures
            r matches Some(h) ==> self.history_map().contains_key(pid) && *h == self.history_map()[pid],
            r is None ==> !self.history_map().contains_key(pid),
    {
        broadcast use vstd::std_specs::hash::group_hash_axioms;
        self.histories.get(&pid)
    }

    /// All histories, by process ID.
    pub fn get_all_histories(&self) -> (r: &HashMap<u32, SessionHistory<C>>)
        ensures
            r@ == self.history_map(),
    {
        &self.histories
    }

    /// Updates the system-wide tick count from the text of `/proc/stat`,
    /// when it holds a `cpu` line; otherwise the count is left as it was.
    pub fn update_system_ticks(&mut self, content: &str)
        requires
            cpu_total_in_range(content@),
        ensures
            final(self).history_map() == old(self).history_map(),
            final(self).tick_map() == old(self).tick_map(),
            final(self).system_ticks() as nat == (match spec_cpu_total(content@) {
                Some(t) => t,
                None => old(self).system_ticks() as nat,
            }),
    {
        match parse_cpu_total(content) {
            Some(t) => {
                self.system_total_ticks = t;
            },
            None => {},
        }
    }

    /// Records a process's current tick count against the system ticks and
    /// gives the deltas since its previous reading, when there was one and
    /// the system ticks advanced (the caller turns them into a percentage;
    /// without deltas the usage is 0). The reading is stored either way.
    pub fn cpu_tick_delta(&mut self, pid: u32, current_ticks: u64) -> (r: Option<(u64, u64)>)
        ensures
            final(self).history_map() == old(self).history_map(),
            final(self).system_ticks() == old(self).system_ticks(),
            final(self).tick_map() == old(self).tick_map().insert(pid, (current_ticks, old(self).system_ticks())),
            r == spec_tick_delta(
                if old(self).tick_map().contains_key(pid) { Some(old(self).tick_map()[pid]) } else { None },
                current_ticks,
                old(self).system_ticks(),
            ),
    {
        broadcast use vstd::std_specs::hash::group_hash_axioms;
        let current_total = self.system_total_ticks;
        let mut result: Option<(u64, u64)> = None;
        match self.prev_cpu_ticks.get(&pid) {
            Some(prev) => {
                let prev_proc = prev.0;
                let prev_total = prev.1;
                let proc_delta = current_ticks.saturating_sub(prev_proc);
                let total_delta = current_total.saturating_sub(prev_total);
                if total_delta > 0 {
                    result = Some((proc_delta, total_delta));
                }
            },
            None => {},
        }
        self.prev_cpu_ticks.insert(pid, (current_ticks, current_total));
        result
    }

    /// Adds a reading to its session's history, creating the history when
    /// the session is new.
    pub fn record_metrics(&mut self, metrics: SessionMetrics<C>)
        where C: Copy,
        ensures
            final(self).tick_map() == old(self).tick_map(),
            final(self).system_ticks() == old(self).system_ticks(),
            final(self).history_map().dom() == old(self).history_map().dom().insert(metrics.pid),
            forall|p: u32| p != metrics.pid && #[trigger] old(self).history_map().contains_key(p)
                ==> final(self).history_map()[p] == old(self).history_map()[p],
            history_after(
                if old(self).history_map().contains_key(metrics.pid) { Some(old(self).history_map()[metrics.pid]) } else { None },
                metrics.pid, metrics, final(self).history_map()[metrics.pid]),
    {
        broadcast use vstd::std_specs::hash::group_hash_axioms;
        let pid = metrics.pid;
        let ghost before = if self.histories@.contains_key(pid) { Some(self.histories@[pid]) } else { None };
        let mut h = match self.histories.remove(&pid) {
            Some(h) => h,
            None => SessionHistory::new(pid),
        };
        proof {
            if before is None {
                assert(h.cpu_history@ =~= Seq::<C>::empty());
                assert(h.memory_history@ =~= Seq::<u64>::empty());
                assert(h.thread_history@ =~= Seq::<u32>::empty());
                assert(h.fd_history@ =~= Seq::<u32>::empty());
                assert(h.timestamps@ =~= Seq::<u64>::empty());
            } else {
                assert(h == before.unwrap());
            }
        }
        h.add_metrics(metrics);
        self.histories.insert(pid, h);
        proof {
            assert(self.histories@.dom() =~= old(self).histories@.dom().insert(pid));
        }
    }

    /// Drops the histories and tick readings of sessions that are not in
    /// `active_pids`.
    pub fn cleanup_stale(&mut self, active_pids: &[u32])
        ensures
            final(self).history_map() == old(self).history_map().restrict(active_pids@.to_set()),
            final(self).tick_map() == old(self).tick_map().restrict(active_pids@.to_set()),
            final(self).system_ticks() == old(self).system_ticks(),
    {
        broadcast use vstd::std_specs::hash::group_hash_axioms;
        let ghost h0 = self.histories@;
        let ghost t0 = self.prev_cpu_ticks@;
        let mut kept_h: HashMap<u32, SessionHistory<C>> = HashMap::new();
        let mut kept_t: HashMap<u32, (u64, u64)> = HashMap::new();
        let mut i: usize = 0;
        while i < active_pids.len()
            invariant
                i <= active_pids@.len(),
                kept_h@ == h0.restrict(active_pids@.take(i as int).to_set()),
                kept_t@ == t0.restrict(active_pids@.take(i as int).to_set()),
                self.histories@ == h0.remove_keys(active_pids@.take(i as int).to_set()),
                self.prev_cpu_ticks@ == t0.remove_keys(active_pids@.take(i as int).to_set()),
                self.system_total_ticks == old(self).system_total_ticks,
            decreases active_pids@.len() - i,
        {
            let pid = active_pids[i];
            let ghost before = active_pids@.take(i as int).to_set();
            let ghost after = active_pids@.take(i as int + 1).to_set();
            assert(active_pids@.take(i as int + 1) =~= active_pids@.take(i as int).push(pid));
            assert(after =~= before.insert(pid)) by {
                broadcast use vstd::seq_lib::group_seq_properties;
                assert(active_pids@.take(i as int).push(pid).to_set() =~= before.insert(pid));
            }
            match self.histories.remove(&pid) {
                Some(h) => {
                    kept_h.insert(pid, h);
                },
                None => {},
            }
            match self.prev_cpu_ticks.remove(&pid) {
                Some(t) => {
                    kept_t.insert(pid, t);
                },
                None => {},
            }
            i = i + 1;
            proof {
                assert(kept_h@ =~= h0.restrict(after));
                assert(kept_t@ =~= t0.restrict(after));
                assert(self.histories@ =~= h0.remove_keys(after));
                assert(self.prev_cpu_ticks@ =~= t0.remove_keys(after));
            }
        }
        assert(active_pids@.take(active_pids@.len() as int) =~= active_pids@);
        self.histories = kept_h;
        self.prev_cpu_ticks = kept_t;
    }
}


impl<C> SessionMetrics<C> {
    /// The metrics of one reading: memory is the resident set size (also
    /// shown human-readable), and the health follows from the CPU level,
    /// the memory, the threads and the open descriptors.
    pub fn from_readings(
        pid: u32,
        timestamp: u64,
        cpu_percent: C,
        cpu_level: CpuLevel,
        stat: ProcStat,
        vsize: u64,
        rss: u64,
        fd_count: u32,
    ) -> (m: Self)
        ensures
            m.pid == pid,
            m.timestamp == timestamp,
            m.cpu_percent == cpu_percent,
            m.memory_bytes == rss,
            m.memory_human@ == spec_format_bytes(rss as nat),
            m.rss_bytes == rss,
            m.vsize_bytes == vsize,
            m.thread_count == stat.num_threads,
            m.fd_count == fd_count,
            m.state == stat.state,
            m.health == spec_assess_health(cpu_level, rss as nat, stat.num_threads as nat, fd_count as nat),
    {
        let health = assess_health(cpu_level, rss, stat.num_threads, fd_count);
        SessionMetrics {
            pid,
            timestamp,
            cpu_percent,
            memory_bytes: rss,
            memory_human: format_bytes(rss),
            rss_bytes: rss,
            vsize_bytes: vsize,
            thread_count: stat.num_threads,
            fd_count,
            state: stat.state,
            health,
        }
    }
}

/// Number of readings in `s` with health `h`.
pub open spec fn count_health<C>(s: Seq<SessionMetrics<C>>, h: HealthStatus) -> nat
    decreases s.len(),
{
    if s.len() == 0 {
        0
    } else {
        count_health(s.drop_last(), h) + if s.last().health == h { 1nat } else { 0nat }
    }
}

/// Sum of the thread counts of `s`.
pub open spec fn sum_threads<C>(s: Seq<SessionMetrics<C>>) -> nat
    decreases s.len(),
{
    if s.len() == 0 { 0 } else { sum_threads(s.drop_last()) + s.last().thread_count as nat }
}

/// Sum of the open descriptor counts of `s`.
pub open spec fn sum_fds<C>(s: Seq<SessionMetrics<C>>) -> nat
    decreases s.len(),
{
    if s.len() == 0 { 0 } else { sum_fds(s.drop_last()) + s.last().fd_count as nat }
}

/// Aggregate counts over a set of session readings.
#[derive(Clone, Copy, Debug)]
pub struct SessionCounts {
    /// Total sessions being monitored
    pub total_sessions: usize,
    /// Sessions by health status
    pub healthy_count: usize,
    pub warning_count: usize,
    pub critical_count: usize,
    /// Sum of thread counts
    pub total_threads: u32,
    /// Sum of open descriptor counts
    pub total_fds: u32,
}

proof fn lemma_sums_prefix<C>(s: Seq<SessionMetrics<C>>, i: int)
    requires
        0 <= i <= s.len(),
    ensures
        sum_threads(s.take(i)) <= sum_threads(s),
        sum_fds(s.take(i)) <= sum_fds(s),
        count_health(s.take(i), HealthStatus::Healthy) <= i,
        count_health(s.take(i), HealthStatus::Warning) <= i,
        count_health(s.take(i), HealthStatus::Critical) <= i,
    decreases s.len() - i,
{
    lemma_count_le(s.take(i), HealthStatus::Healthy);
    lemma_count_le(s.take(i), HealthStatus::Warning);
    lemma_count_le(s.take(i), HealthStatus::Critical);
    if i < s.len() {
        lemma_sums_prefix(s, i + 1);
        assert(s.take(i + 1).drop_last() =~= s.take(i));
    } else {
        assert(s.take(i) =~= s);
    }
}

proof fn lemma_count_le<C>(s: Seq<SessionMetrics<C>>, h: HealthStatus)
    ensures
        count_health(s, h) <= s.len(),
    decreases s.len(),
{
    if s.len() > 0 {
        lemma_count_le(s.drop_last(), h);
    }
}

/// The line under the healthy count on the sessions dashboard: how many
/// sessions warn and how many are critical, the nonzero ones only.
pub open spec fn spec_health_summary(warning: nat, critical: nat) -> Seq<char> {
    if warning > 0 && critical > 0 {
        decimal(warning) + " warn, "@ + decimal(critical) + " crit"@
    } else if warning > 0 {
        decimal(warning) + " warning"@
    } else if critical > 0 {
        decimal(critical) + " critical"@
    } else {
        Seq::empty()
    }
}

impl SessionCounts {
    /// The warning and critical summary shown under the healthy count.
    pub fn health_summary(&self) -> (s: String)
        ensures
            s@ == spec_health_summary(self.warning_count as nat, self.critical_count as nat),
    {
        let mut s = String::new();
        if self.warning_count > 0 && self.critical_count > 0 {
            push_decimal(&mut s, self.warning_count as u128);
            s.append(" warn, ");
            push_decimal(&mut s, self.critical_count as u128);
            s.append(" crit");
        } else if self.warning_count > 0 {
            push_decimal(&mut s, self.warning_count as u128);
            s.append(" warning");
        } else if self.critical_count > 0 {
            push_decimal(&mut s, self.critical_count as u128);
            s.append(" critical");
        }
        assert(s@ =~= spec_health_summary(self.warning_count as nat, self.critical_count as nat));
        s
    }

    /// Counts the readings by health and sums their threads and
    /// descriptors.
    pub fn from_metrics<C>(metrics: &[SessionMetrics<C>]) -> (d: Self)
        requires
            sum_threads(metrics@) <= u32::MAX,
            sum_fds(metrics@) <= u32::MAX,
        ensures
            d.total_sessions == metrics@.len(),
            d.healthy_count == count_health(metrics@, HealthStatus::Healthy),
            d.warning_count == count_health(metrics@, HealthStatus::Warning),
            d.critical_count == count_health(metrics@, HealthStatus::Critical),
            d.total_threads == sum_threads(metrics@),
            d.total_fds == sum_fds(metrics@),
    {
        let mut healthy: usize = 0;
        let mut warning: usize = 0;
        let mut critical: usize = 0;
        let mut threads: u32 = 0;
        let mut fds: u32 = 0;
        let mut i: usize = 0;
        while i < metrics.len()
            invariant
                i <= metrics@.len(),
                healthy == count_health(metrics@.take(i as int), HealthStatus::Healthy),
                warning == count_health(metrics@.take(i as int), HealthStatus::Warning),
                critical == count_health(metrics@.take(i as int), HealthStatus::Critical),
                threads == sum_threads(metrics@.take(i as int)),
                fds == sum_fds(metrics@.take(i as int)),
                sum_threads(metrics@) <= u32::MAX,
                sum_fds(metrics@) <= u32::MAX,
            decreases metrics@.len() - i,
        {
            let m = &metrics[i];
            proof {
                assert(metrics@.take(i + 1).drop_last() =~= metrics@.take(i as int));
                lemma_sums_prefix(metrics@, i + 1);
            }
            if m.health == HealthStatus::Healthy {
                healthy = healthy + 1;
            } else if m.health == HealthStatus::Warning {
                warning = warning + 1;
            } else if m.health == HealthStatus::Critical {
                critical = critical + 1;
            }
            threads = threads + m.thread_count;
            fds = fds + m.fd_count;
            i = i + 1;
        }
        assert(metrics@.take(i as int) =~= metrics@);
        SessionCounts {
            total_sessions: metrics.len(),
            healthy_count: healthy,
            warning_count: warning,
            critical_count: critical,
            total_threads: threads,
            total_fds: fds,
        }
    }
}

/// Whether the thread and descriptor totals of the readings fit in `u32`,
/// as `SessionCounts::from_metrics` needs.
pub fn sums_fit<C>(metrics: &[SessionMetrics<C>]) -> (b: bool)
    ensures
        b == (sum_threads(metrics@) <= u32::MAX && sum_fds(metrics@) <= u32::MAX),
{
    let mut threads: u64 = 0;
    let mut fds: u64 = 0;
    let mut i: usize = 0;
    while i < metrics.len()
        invariant
            i <= metrics@.len(),
            threads == sum_threads(metrics@.take(i as int)),
            fds == sum_fds(metrics@.take(i as int)),
            threads <= u32::MAX,
            fds <= u32::MAX,
        decreases metrics@.len() - i,
    {
        let m = &metrics[i];
        proof {
            assert(metrics@.take(i + 1).drop_last() =~= metrics@.take(i as int));
        }
        threads = threads + m.thread_count as u64;
        fds = fds + m.fd_count as u64;
        i = i + 1;
        if threads > 0xFFFF_FFFF || fds > 0xFFFF_FFFF {
            proof {
                lemma_sums_prefix(metrics@, i as int);
            }
            return false;
        }
    }
    assert(metrics@.take(i as int) =~= metrics@);
    true
}

/// The health counts of a set of readings never exceed the number of
/// readings, and each reading is counted under at most one status.
pub proof fn lemma_health_counts_bounded<C>(s: Seq<SessionMetrics<C>>)
    ensures
        count_health(s, HealthStatus::Healthy) + count_health(s, HealthStatus::Warning)
            + count_health(s, HealthStatus::Critical) + count_health(s, HealthStatus::Unknown) == s.len(),
    decreases s.len(),
{
    if s.len() > 0 {
        lemma_health_counts_bounded(s.drop_last());
    }
}

/// Sum of `f` over the readings of `s`.
spec fn total_of<C>(s: Seq<SessionMetrics<C>>, f: spec_fn(SessionMetrics<C>) -> nat) -> nat
    decreases s.len(),
{
    if s.len() == 0 { 0 } else { total_of(s.drop_last(), f) + f(s.last()) }
}

proof fn lemma_total_of_remove<C>(s: Seq<SessionMetrics<C>>, f: spec_fn(SessionMetrics<C>) -> nat, i: int)
    requires
        0 <= i < s.len(),
    ensures
        total_of(s, f) == total_of(s.remove(i), f) + f(s[i]),
    decreases s.len(),
{
    if i == s.len() - 1 {
        assert(s.remove(i) =~= s.drop_last());
    } else {
        lemma_total_of_remove(s.drop_last(), f, i);
        assert(s.remove(i).drop_last() =~= s.drop_last().remove(i));
        assert(s.remove(i).last() == s.last());
    }
}

proof fn lemma_total_of_reordered<C>(a: Seq<SessionMetrics<C>>, b: Seq<SessionMetrics<C>>, f: spec_fn(SessionMetrics<C>) -> nat)
    requires
        a.to_multiset() == b.to_multiset(),
    ensures
        total_of(a, f) == total_of(b, f),
    decreases a.len(),
{
    broadcast use vstd::seq_lib::group_to_multiset_ensures;
    if a.len() > 0 {
        let x = a.last();
        let rest = a.drop_last();
        assert(a =~= rest.push(x));
        assert(b.to_multiset().count(x) > 0);
        assert(b.contains(x));
        let i = b.index_of(x);
        assert(b.remove(i).to_multiset() == b.to_multiset().remove(x));
        assert(rest.to_multiset() =~= a.to_multiset().remove(x));
        lemma_total_of_reordered(rest, b.remove(i), f);
        lemma_total_of_remove(b, f, i);
    } else {
        assert(a.to_multiset().len() == a.len());
        assert(b.to_multiset().len() == b.len());
    }
}

proof fn lemma_count_health_total<C>(s: Seq<SessionMetrics<C>>, h: HealthStatus, f: spec_fn(SessionMetrics<C>) -> nat)
    requires
        forall|m: SessionMetrics<C>| #[trigger] f(m) == if m.health == h { 1nat } else { 0nat },
    ensures
        count_health(s, h) == total_of(s, f),
    decreases s.len(),
{
    if s.len() > 0 {
        lemma_count_health_total(s.drop_last(), h, f);
    }
}

proof fn lemma_sum_threads_total<C>(s: Seq<SessionMetrics<C>>, f: spec_fn(SessionMetrics<C>) -> nat)
    requires
        forall|m: SessionMetrics<C>| #[trigger] f(m) == m.thread_count as nat,
    ensures
        sum_threads(s) == total_of(s, f),
    decreases s.len(),
{
    if s.len() > 0 {
        lemma_sum_threads_total(s.drop_last(), f);
    }
}

proof fn lemma_sum_fds_total<C>(s: Seq<SessionMetrics<C>>, f: spec_fn(SessionMetrics<C>) -> nat)
    requires
        forall|m: SessionMetrics<C>| #[trigger] f(m) == m.fd_count as nat,
    ensures
        sum_fds(s) == total_of(s, f),
    decreases s.len(),
{
    if s.len() > 0 {
        lemma_sum_fds_total(s.drop_last(), f);
    }
}

/// Reordering the readings changes none of the session counts or totals:
/// the number of sessions, the count of each health status, and the sums
/// of threads and open descriptors.
pub proof fn lemma_counts_ignore_order<C>(a: Seq<SessionMetrics<C>>, b: Seq<SessionMetrics<C>>)
    requires
        a.to_multiset() == b.to_multiset(),
    ensures
        a.len() == b.len(),
        forall|h: HealthStatus| #[trigger] count_health(a, h) == count_health(b, h),
        sum_threads(a) == sum_threads(b),
        sum_fds(a) == sum_fds(b),
{
    broadcast use vstd::seq_lib::group_to_multiset_ensures;
    assert(a.to_multiset().len() == a.len());
    assert(b.to_multiset().len() == b.len());
    assert forall|h: HealthStatus| #[trigger] count_health(a, h) == count_health(b, h) by {
        let f = |m: SessionMetrics<C>| if m.health == h { 1nat } else { 0nat };
        lemma_count_health_total(a, h, f);
        lemma_count_health_total(b, h, f);
        lemma_total_of_reordered(a, b, f);
    }
    let ft = |m: SessionMetrics<C>| m.thread_count as nat;
    lemma_sum_threads_total(a, ft);
    lemma_sum_threads_total(b, ft);
    lemma_total_of_reordered(a, b, ft);
    let ff = |m: SessionMetrics<C>| m.fd_count as nat;
    lemma_sum_fds_total(a, ff);
    lemma_sum_fds_total(b, ff);
    lemma_total_of_reordered(a, b, ff);
}

/// What `SessionCounts::from_metrics` counts, as a whole: every reading
/// falls under exactly one health status, so the four status counts add up
/// to the number of sessions; reordering the readings changes no count or
/// total; and no readings give zero everywhere.
pub proof fn lemma_session_counts<C>(a: Seq<SessionMetrics<C>>, b: Seq<SessionMetrics<C>>)
    requires
        a.to_multiset() == b.to_multiset(),
    ensures
        count_health(a, HealthStatus::Healthy) + count_health(a, HealthStatus::Warning)
            + count_health(a, HealthStatus::Critical) + count_health(a, HealthStatus::Unknown) == a.len(),
        a.len() == b.len(),
        forall|h: HealthStatus| #[trigger] count_health(a, h) == count_health(b, h),
        sum_threads(a) == sum_threads(b),
        sum_fds(a) == sum_fds(b),
        forall|h: HealthStatus| #[trigger] count_health(Seq::<SessionMetrics<C>>::empty(), h) == 0,
        sum_threads(Seq::<SessionMetrics<C>>::empty()) == 0,
        sum_fds(Seq::<SessionMetrics<C>>::empty()) == 0,
{
    lemma_health_counts_bounded(a);
    lemma_counts_ignore_order(a, b);
}

} // verus!
