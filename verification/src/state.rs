//! Log entries, the bounded buffer of recent logs, the log filter, and the plain
//! response bodies the service sends.

use std::collections::VecDeque;
use vstd::prelude::*;
use crate::text::{chars_of, contains, contains_chars, has_prefix, owned};
use crate::torrc_parser::opt_view;

verus! {

/// One log line shown to the user.
#[derive(Debug, Clone)]
pub struct LogEntry {
    /// Milliseconds since the Unix epoch.
    pub timestamp: i64,
    pub level: String,
    pub message: String,
    /// Where the line came from, such as `stdout` or `stderr`.
    pub source: String,
    /// `client`, `relay` or `both`, or none for system-wide lines.
    pub mode: Option<String>,
}

/// What a `LogEntry` holds.
pub struct LogEntryView {
    pub timestamp: i64,
    pub level: Seq<char>,
    pub message: Seq<char>,
    pub source: Seq<char>,
    pub mode: Option<Seq<char>>,
}

impl View for LogEntry {
    type V = LogEntryView;

    open spec fn view(&self) -> LogEntryView {
        LogEntryView {
            timestamp: self.timestamp,
            level: self.level@,
            message: self.message@,
            source: self.source@,
            mode: opt_view(self.mode),
        }
    }
}

/// The views of a list of log entries.
pub open spec fn entry_views(v: Seq<LogEntry>) -> Seq<LogEntryView> {
    v.map_values(|e: LogEntry| e@)
}

/// How many recent log entries are kept.
pub const RECENT_LOG_CAPACITY: usize = 100;

/// The entries kept after adding `e` to `kept`: the oldest one leaves when the buffer
/// is full.
pub open spec fn after_add(kept: Seq<LogEntryView>, e: LogEntryView) -> Seq<LogEntryView> {
    if kept.len() >= 100 {
        kept.drop_first().push(e)
    } else {
        kept.push(e)
    }
}

/// The most recent log entries, oldest first, at most 100 of them.
pub struct LogBuffer {
    entries: VecDeque<LogEntry>,
}

impl LogBuffer {
    /// The entries held, oldest first.
    pub closed spec fn entries(&self) -> Seq<LogEntryView> {
        entry_views(self.entries@)
    }

    /// The buffer holds at most 100 entries.
    pub closed spec fn wf(&self) -> bool {
        self.entries@.len() <= 100
    }

    /// An empty buffer.
    pub fn new() -> (r: LogBuffer)
        ensures
            r.wf(),
            r.entries() == Seq::<LogEntryView>::empty(),
    {
        let b = LogBuffer { entries: VecDeque::with_capacity(RECENT_LOG_CAPACITY) };
        assert(entry_views(b.entries@) =~= Seq::<LogEntryView>::empty());
        b
    }

    /// Adds an entry, dropping the oldest one when 100 are already held.
    pub fn add_log(&mut self, entry: LogEntry)
        requires
            old(self).wf(),
        ensures
            final(self).wf(),
            final(self).entries() == after_add(old(self).entries(), entry@),
    {
        broadcast use vstd::std_specs::vecdeque::group_vec_dequeue_axioms;
        let ghost before = self.entries@;
        if self.entries.len() >= RECENT_LOG_CAPACITY {
            self.entries.pop_front();
            assert(entry_views(self.entries@) =~= entry_views(before).drop_first());
        }
        let ghost mid = self.entries@;
        self.entries.push_back(entry);
        assert(entry_views(self.entries@) =~= entry_views(mid).push(entry@));
    }

    /// The entries held, oldest first.
    pub fn get_recent_logs(&self) -> (r: Vec<LogEntry>)
        ensures
            entry_views(r@) == self.entries(),
    {
        broadcast use vstd::std_specs::vecdeque::group_vec_dequeue_axioms;
        let mut out: Vec<LogEntry> = Vec::new();
        let mut i: usize = 0;
        while i < self.entries.len()
            invariant
                i <= self.entries@.len(),
                entry_views(out@) == entry_views(self.entries@).take(i as int),
            decreases self.entries@.len() - i,
        {
            let e = self.entries[i].clone_entry();
            assert(e@ == self.entries@[i as int]@);
            let ghost before = out@;
            out.push(e);
            assert(entry_views(out@) =~= entry_views(before).push(e@));
            i = i + 1;
            assert(entry_views(out@) =~= entry_views(self.entries@).take(i as int));
        }
        assert(entry_views(self.entries@).take(self.entries@.len() as int) =~= entry_views(self.entries@));
        out
    }

    /// How many entries are held.
    pub fn len(&self) -> (r: usize)
        ensures
            r == self.entries().len(),
    {
        self.entries.len()
    }
}

impl LogEntry {
    /// A copy of the entry.
    pub fn clone_entry(&self) -> (r: LogEntry)
        ensures
            r@ == self@,
    {
        LogEntry {
            timestamp: self.timestamp,
            level: self.level.clone(),
            message: self.message.clone(),
            source: self.source.clone(),
            mode: match &self.mode {
                Some(m) => Some(m.clone()),
                None => None,
            },
        }
    }
}

/// The last `n` items of `s` (all of them when there are fewer).
pub open spec fn last_n<A>(s: Seq<A>, n: nat) -> Seq<A> {
    if s.len() <= n {
        s
    } else {
        s.skip(s.len() - n)
    }
}

/// Law: the buffer always holds the last (at most 100) entries added, in the order they
/// were added. Starting from `kept`, adding the entries of `added` one by one leaves the
/// last 100 of `kept` followed by `added`.
pub proof fn law_log_buffer_keeps_latest(kept: Seq<LogEntryView>, added: Seq<LogEntryView>)
    requires
        kept.len() <= 100,
    ensures
        added.fold_left(kept, |acc: Seq<LogEntryView>, e: LogEntryView| after_add(acc, e)) == last_n(
            kept + added,
            100,
        ),
    decreases added.len(),
{
    let f = |acc: Seq<LogEntryView>, e: LogEntryView| after_add(acc, e);
    if added.len() == 0 {
        assert(kept + added =~= kept);
    } else {
        let init = added.drop_last();
        law_log_buffer_keeps_latest(kept, init);
        let mid = init.fold_left(kept, f);
        assert(added.fold_left(kept, f) == f(init.fold_left(kept, f), added.last()));
        let all = kept + added;
        assert(kept + init =~= all.drop_last());
        let prev = last_n(all.drop_last(), 100);
        assert(mid == prev);
        if all.drop_last().len() <= 100 {
            if prev.len() >= 100 {
                assert(all.len() == 101);
                assert(prev.drop_first().push(added.last()) =~= all.skip(1));
            } else {
                assert(prev.push(added.last()) =~= all);
            }
        } else {
            assert(prev.len() == 100);
            assert(prev.drop_first().push(added.last()) =~= all.skip(all.len() - 100));
        }
    }
}

/// The mode a log line refers to, judged from its message and its target.
pub open spec fn log_mode_spec(message: Seq<char>, source: Seq<char>) -> Option<Seq<char>> {
    if contains(message, "both mode"@) || contains(message, "mode both"@) {
        Some("both"@)
    } else if contains(message, "relay mode"@) || contains(message, "mode relay"@) {
        Some("relay"@)
    } else if contains(message, "client mode"@) || contains(message, "mode client"@) {
        Some("client"@)
    } else if contains(message, "relay"@) || contains(message, "Relay"@) {
        Some("relay"@)
    } else if contains(source, "relay"@) {
        Some("relay"@)
    } else if "eltor"@.is_prefix_of(source) {
        if contains(message, "Starting eltor both"@) || contains(message, "eltor both"@) {
            Some("both"@)
        } else if contains(message, "Starting eltor relay"@) || contains(message, "eltor relay"@) {
            Some("relay"@)
        } else if contains(message, "Starting eltor client"@) || contains(message, "eltor client"@) {
            Some("client"@)
        } else {
            None
        }
    } else {
        None
    }
}

/// Whether `s` contains the text `p`.
fn has_text(s: &[char], p: &str) -> (r: bool)
    ensures
        r == contains(s@, p@),
{
    let pc = chars_of(p);
    contains_chars(s, pc.as_slice())
}

/// The mode a log line refers to, judged from its message and its target.
pub fn determine_log_mode(message: &str, source: &str) -> (r: Option<String>)
    ensures
        opt_view(r) == log_mode_spec(message@, source@),
{
    let m = chars_of(message);
    let s = chars_of(source);
    let m = m.as_slice();
    if has_text(m, "both mode") || has_text(m, "mode both") {
        return Some(owned("both"));
    }
    if has_text(m, "relay mode") || has_text(m, "mode relay") {
        return Some(owned("relay"));
    }
    if has_text(m, "client mode") || has_text(m, "mode client") {
        return Some(owned("client"));
    }
    if has_text(m, "relay") || has_text(m, "Relay") {
        return Some(owned("relay"));
    }
    if has_text(s.as_slice(), "relay") {
        return Some(owned("relay"));
    }
    let eltor = chars_of("eltor");
    if has_prefix(s.as_slice(), eltor.as_slice()) {
        if has_text(m, "Starting eltor both") || has_text(m, "eltor both") {
            return Some(owned("both"));
        }
        if has_text(m, "Starting eltor relay") || has_text(m, "eltor relay") {
            return Some(owned("relay"));
        }
        if has_text(m, "Starting eltor client") || has_text(m, "eltor client") {
            return Some(owned("client"));
        }
    }
    None
}

/// Whether a log line is left out of the user's log: the process's raw output, which is
/// shown elsewhere, and long messages from the `eltor::` internals.
pub open spec fn skip_log_spec(message: Seq<char>, source: Seq<char>) -> bool {
    ||| "[ELTORD-STDOUT]"@.is_prefix_of(message)
    ||| "[ELTORD-STDERR]"@.is_prefix_of(message)
    ||| "[ELTORD-TRACE]"@.is_prefix_of(message)
    ||| "[eltord-"@.is_prefix_of(message)
    ||| contains(message, "eltord-stdout"@)
    ||| contains(message, "eltord-stderr"@)
    ||| ("eltor::"@.is_prefix_of(source) && message.len() > 500)
}

/// Whether `s` starts with the text `p`.
fn starts_with_text(s: &[char], p: &str) -> (r: bool)
    ensures
        r == p@.is_prefix_of(s@),
{
    let pc = chars_of(p);
    has_prefix(s, pc.as_slice())
}

/// Whether a log line is left out of the user's log.
pub fn should_skip_log(message: &str, source: &str) -> (r: bool)
    ensures
        r == skip_log_spec(message@, source@),
{
    let m = chars_of(message);
    let s = chars_of(source);
    let m = m.as_slice();
    starts_with_text(m, "[ELTORD-STDOUT]") || starts_with_text(m, "[ELTORD-STDERR]")
        || starts_with_text(m, "[ELTORD-TRACE]") || starts_with_text(m, "[eltord-") || has_text(
        m,
        "eltord-stdout",
    ) || has_text(m, "eltord-stderr") || (starts_with_text(s.as_slice(), "eltor::") && m.len() > 500)
}

/// The tunnel's status as reported to the user.
#[derive(Debug, Clone)]
pub struct StatusResponse {
    pub connected: bool,
    pub circuit: Option<String>,
}

/// Whether eltord runs, with its process id and recent logs.
#[derive(Debug, Clone)]
pub struct EltordStatusResponse {
    pub running: bool,
    pub pid: Option<u32>,
    pub recent_logs: Vec<LogEntry>,
}

/// A plain message.
#[derive(Debug, Clone)]
pub struct MessageResponse {
    pub message: String,
}

/// An error message.
#[derive(Debug, Clone)]
pub struct ErrorResponse {
    pub error: String,
}

} // verus!
