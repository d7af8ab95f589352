//! Durable, idempotent, append-only recording of pool events.
//!
//! The store owns the dedup state and the record lines; the file itself is
//! written by the caller, who appends each line the store hands out and never
//! writes one the store withheld. A signature is recorded at most once: a
//! second append for the same signature is a no-op. On restart the dedup
//! state is rebuilt from the persisted log's lines, skipping anything
//! malformed (a crash may truncate the final record). The store also tracks
//! cumulative size and raises a rotation signal when a configured threshold
//! is exceeded, rather than ever truncating data itself.

use vstd::prelude::*;
use crate::codec::encode_event;
use crate::codec::lemma_record_round_trip;
use crate::codec::parse_sig;
use crate::codec::parse_signature_line;
use crate::codec::record_line;
use crate::detect::vec_contains_str;
use crate::model::PoolEvent;
use crate::model::PoolEventView;

verus! {

/// Mathematical state of the store: the signatures it knows (from this run
/// and from the log it was rebuilt from), the record lines appended in this
/// run, the cumulative size accounted so far, and the rotation threshold.
pub struct StoreView {
    pub seen: Seq<Seq<char>>,
    pub lines: Seq<Seq<char>>,
    pub size: u64,
    pub threshold: u64,
}

/// Every appended line is a well-formed record whose signature the store
/// knows, and no two appended lines carry the same signature.
pub open spec fn store_inv(s: StoreView) -> bool {
    &&& forall|i: int|
        0 <= i < s.lines.len() ==> (#[trigger] parse_sig(s.lines[i])) is Some && s.seen.contains(
            parse_sig(s.lines[i])->0,
        )
    &&& forall|i: int, j: int|
        0 <= i < j < s.lines.len() ==> parse_sig(#[trigger] s.lines[i])->0 != parse_sig(
            #[trigger] s.lines[j],
        )->0
}

/// Size one record line adds to the log: its characters plus the newline the
/// writer puts after it, capped at the counter's range.
pub open spec fn size_after(size: u64, line: Seq<char>) -> u64 {
    if size + line.len() + 1 > u64::MAX {
        u64::MAX
    } else {
        (size + line.len() + 1) as u64
    }
}

/// State transform of one append: a known signature changes nothing; a new
/// one records its line, its signature, and the added size.
pub open spec fn spec_append(s: StoreView, e: PoolEventView) -> StoreView {
    if s.seen.contains(e.signature) {
        s
    } else {
        StoreView {
            seen: s.seen.push(e.signature),
            lines: s.lines.push(record_line(e)),
            size: size_after(s.size, record_line(e)),
            threshold: s.threshold,
        }
    }
}

/// The dedup keys rebuilt from a persisted log: each line's signature, in
/// first-appearance order, lines that parse to no signature skipped.
pub open spec fn restored_seen(lines: Seq<Seq<char>>) -> Seq<Seq<char>>
    decreases lines.len(),
{
    if lines.len() == 0 {
        Seq::<Seq<char>>::empty()
    } else {
        let r = restored_seen(lines.drop_last());
        match parse_sig(lines.last()) {
            Option::Some(sig) => if r.contains(sig) {
                r
            } else {
                r.push(sig)
            },
            Option::None => r,
        }
    }
}

/// What one append hands back to the caller.
pub struct AppendOutcome {
    /// The record line to append to the log, or `None` for a signature the
    /// store already holds (nothing is to be written).
    pub line: Option<String>,
    /// The cumulative size now exceeds the configured threshold; the caller
    /// should rotate/archive the log. Never raised by a no-op append.
    pub rotation_needed: bool,
}

/// Append-only event store state: dedup keys, size accounting, and (as
/// ghost history) the record lines handed out in this run.
pub struct EventStore {
    seen: Vec<String>,
    size: u64,
    threshold: u64,
    lines: Ghost<Seq<Seq<char>>>,
}

impl View for EventStore {
    type V = StoreView;

    closed spec fn view(&self) -> StoreView {
        StoreView {
            seen: self.seen.deep_view(),
            lines: self.lines@,
            size: self.size,
            threshold: self.threshold,
        }
    }
}

impl EventStore {
    /// An empty store with the given rotation threshold.
    pub fn new(threshold: u64) -> (s: EventStore)
        ensures
            s@.seen == Seq::<Seq<char>>::empty(),
            s@.lines == Seq::<Seq<char>>::empty(),
            s@.size == 0,
            s@.threshold == threshold,
            store_inv(s@),
    {
        let s = EventStore { seen: Vec::new(), size: 0, threshold, lines: Ghost(Seq::empty()) };
        proof {
            assert(s@.seen =~= Seq::<Seq<char>>::empty());
        }
        s
    }

    /// A store whose dedup keys are rebuilt from the lines of a persisted
    /// log, so that a signature already on disk is never appended again.
    /// `size` is the persisted log's current size as the caller measured it.
    /// A line that parses to no signature (a truncated final record, say) is
    /// skipped, not an error.
    pub fn from_log_lines(log_lines: &Vec<String>, threshold: u64, size: u64) -> (s: EventStore)
        ensures
            s@.seen == restored_seen(log_lines.deep_view()),
            s@.lines == Seq::<Seq<char>>::empty(),
            s@.size == size,
            s@.threshold == threshold,
            store_inv(s@),
    {
        proof {
            assert(forall|j: int|
                0 <= j < log_lines@.len() ==> #[trigger] log_lines.deep_view()[j]
                    == log_lines@[j]@);
        }
        let ghost lv = log_lines.deep_view();
        let n = log_lines.len();
        let mut seen: Vec<String> = Vec::new();
        let mut i: usize = 0;
        proof {
            assert(lv.take(0int) =~= Seq::<Seq<char>>::empty());
            assert(seen.deep_view() =~= restored_seen(lv.take(0int)));
        }
        while i < n
            invariant
                n == log_lines@.len(),
                i <= n,
                lv == log_lines.deep_view(),
                forall|j: int|
                    0 <= j < log_lines@.len() ==> #[trigger] log_lines.deep_view()[j]
                        == log_lines@[j]@,
                seen.deep_view() == restored_seen(lv.take(i as int)),
            decreases n - i,
        {
            let ghost pre = seen.deep_view();
            proof {
                assert(lv.take(i + 1int).drop_last() =~= lv.take(i as int));
                assert(lv.take(i + 1int).last() == lv[i as int]);
            }
            match parse_signature_line(log_lines[i].as_str()) {
                Option::Some(sig) => {
                    let dup = vec_contains_str(&seen, &sig);
                    if !dup {
                        seen.push(sig);
                        proof {
                            assert(seen.deep_view() =~= pre.push(parse_sig(lv[i as int])->0));
                        }
                    }
                },
                Option::None => {},
            }
            proof {
                assert(seen.deep_view() =~= restored_seen(lv.take(i + 1int)));
            }
            i = i + 1;
        }
        proof {
            assert(lv.take(n as int) =~= lv);
        }
        let s = EventStore { seen, size, threshold, lines: Ghost(Seq::empty()) };
        s
    }

    /// Does the store already hold a record for this signature?
    pub fn contains(&self, signature: &String) -> (r: bool)
        ensures
            r == self@.seen.contains(signature@),
    {
        vec_contains_str(&self.seen, signature)
    }

    /// How far the accounted size has grown.
    pub fn size(&self) -> (r: u64)
        ensures
            r == self@.size,
    {
        self.size
    }

    /// Record one pool event. For a signature the store already holds this
    /// is a no-op and hands back no line; otherwise it hands back the
    /// event's record line for the caller to append, accounts its size, and
    /// raises the rotation signal when the accounted size now exceeds the
    /// threshold.
    pub fn append(&mut self, e: &PoolEvent) -> (r: AppendOutcome)
        requires
            store_inv(old(self)@),
        ensures
            store_inv(final(self)@),
            final(self)@ == spec_append(old(self)@, e@),
            old(self)@.seen.contains(e@.signature) ==> r.line is None && !r.rotation_needed,
            !old(self)@.seen.contains(e@.signature) ==> r.line is Some && r.line->0@ == record_line(
                e@,
            ) && r.rotation_needed == (final(self)@.size > final(self)@.threshold),
    {
        if self.contains(&e.signature) {
            return AppendOutcome { line: Option::None, rotation_needed: false };
        }
        let ghost pre = self@;
        let line = encode_event(e);
        let chars = line.as_str().unicode_len();
        let add = chars as u64;
        let new_size = if self.size > u64::MAX - 1 || self.size + 1 > u64::MAX - add {
            u64::MAX
        } else {
            self.size + add + 1
        };
        self.size = new_size;
        self.seen.push(e.signature.clone());
        proof {
            self.lines@ = self.lines@.push(line@);
        }
        proof {
            lemma_record_round_trip(e@);
            assert(self@.seen =~= pre.seen.push(e@.signature));
            assert(self@.lines =~= pre.lines.push(record_line(e@)));
            assert(self@ == spec_append(pre, e@));
            assert forall|i: int| 0 <= i < self@.lines.len() implies (#[trigger] parse_sig(
                self@.lines[i],
            )) is Some && self@.seen.contains(parse_sig(self@.lines[i])->0) by {
                if i < pre.lines.len() {
                    assert(parse_sig(pre.lines[i]) is Some);
                    let sig = parse_sig(pre.lines[i])->0;
                    assert(pre.seen.contains(sig));
                    let k = choose|k: int| 0 <= k < pre.seen.len() && pre.seen[k] == sig;
                    assert(self@.seen[k] == sig);
                } else {
                    assert(self@.lines[i] == record_line(e@));
                    assert(self@.seen[self@.seen.len() - 1] == e@.signature);
                }
            }
            assert forall|i: int, j: int| 0 <= i < j < self@.lines.len() implies parse_sig(
                #[trigger] self@.lines[i],
            )->0 != parse_sig(#[trigger] self@.lines[j])->0 by {
                if j == self@.lines.len() - 1 {
                    let sig = parse_sig(pre.lines[i])->0;
                    assert(pre.seen.contains(sig));
                    assert(!pre.seen.contains(e@.signature));
                }
            }
        }
        AppendOutcome { line: Option::Some(line), rotation_needed: new_size > self.threshold }
    }
}

/// No signature ever has two records: under the store's invariant, at most
/// one appended line parses to any given signature.
pub proof fn lemma_store_dedup(s: StoreView, sig: Seq<char>)
    requires
        store_inv(s),
    ensures
        count_records(s.lines, sig) <= 1,
{
    lemma_count_from_distinct(s.lines, sig, s.lines.len() as int);
    assert(s.lines.take(s.lines.len() as int) =~= s.lines);
}

/// How many of the lines carry this signature.
pub open spec fn count_records(lines: Seq<Seq<char>>, sig: Seq<char>) -> nat
    decreases lines.len(),
{
    if lines.len() == 0 {
        0
    } else {
        count_records(lines.drop_last(), sig) + (if parse_sig(lines.last()) == Option::Some(sig) {
            1nat
        } else {
            0nat
        })
    }
}

/// Among the first `k` lines of a log with pairwise-distinct signatures, a
/// signature has at most one record.
proof fn lemma_count_from_distinct(lines: Seq<Seq<char>>, sig: Seq<char>, k: int)
    requires
        0 <= k <= lines.len(),
        forall|i: int, j: int|
            0 <= i < j < lines.len() ==> parse_sig(#[trigger] lines[i])->0 != parse_sig(
                #[trigger] lines[j],
            )->0,
    ensures
        count_records(lines.take(k), sig) <= 1,
        count_records(lines.take(k), sig) == 1 ==> exists|i: int|
            0 <= i < k && parse_sig(#[trigger] lines[i]) == Option::Some(sig),
    decreases k,
{
    if k == 0 {
        assert(lines.take(0int) =~= Seq::<Seq<char>>::empty());
    } else {
        lemma_count_from_distinct(lines, sig, k - 1);
        assert(lines.take(k).drop_last() =~= lines.take(k - 1));
        assert(lines.take(k).last() == lines[k - 1]);
        if parse_sig(lines[k - 1]) == Option::Some(sig) {
            if count_records(lines.take(k - 1), sig) == 1 {
                let i = choose|i: int|
                    0 <= i < k - 1 && parse_sig(#[trigger] lines[i]) == Option::Some(sig);
                assert(parse_sig(lines[i])->0 == parse_sig(lines[k - 1])->0);
                assert(false);
            }
        }
    }
}

/// Counting over a full log is counting over all its lines.
pub proof fn lemma_count_records_all(lines: Seq<Seq<char>>, sig: Seq<char>)
    ensures
        count_records(lines.take(lines.len() as int), sig) == count_records(lines, sig),
{
    assert(lines.take(lines.len() as int) =~= lines);
}

/// Appending the same signature twice records it exactly once: the first
/// append writes its record, the second is a no-op, whatever lies between.
pub proof fn lemma_append_twice_records_once(s0: StoreView, e1: PoolEventView, e2: PoolEventView)
    requires
        store_inv(s0),
        e1.signature == e2.signature,
        !s0.seen.contains(e1.signature),
    ensures
        count_records(spec_append(spec_append(s0, e1), e2).lines, e1.signature) == 1,
{
    let s1 = spec_append(s0, e1);
    lemma_no_record_when_unseen(s0, e1.signature);
    assert(s1.lines.drop_last() =~= s0.lines);
    assert(s1.seen[s1.seen.len() - 1] == e1.signature);
    assert(s1.seen.contains(e1.signature));
    lemma_record_round_trip(e1);
    assert(s1.lines.last() == record_line(e1));
    assert(count_records(s1.lines, e1.signature) == 1);
    assert(spec_append(s1, e2) == s1);
}

/// Appending an event with a different signature never touches another
/// signature's record count: between the two appends of a duplicated
/// signature, any number of other events may be recorded.
pub proof fn lemma_append_other_preserves_count(s: StoreView, e: PoolEventView, sig: Seq<char>)
    requires
        e.signature != sig,
    ensures
        count_records(spec_append(s, e).lines, sig) == count_records(s.lines, sig),
{
    if !s.seen.contains(e.signature) {
        let pushed = s.lines.push(record_line(e));
        assert(pushed.drop_last() =~= s.lines);
        lemma_record_round_trip(e);
        assert(parse_sig(pushed.last()) == Option::Some(e.signature));
    }
}

/// A signature the store has never seen has no record among its lines.
proof fn lemma_no_record_when_unseen(s: StoreView, sig: Seq<char>)
    requires
        store_inv(s),
        !s.seen.contains(sig),
    ensures
        count_records(s.lines, sig) == 0,
{
    lemma_unseen_count(s, sig, s.lines.len() as int);
    assert(s.lines.take(s.lines.len() as int) =~= s.lines);
}

proof fn lemma_unseen_count(s: StoreView, sig: Seq<char>, k: int)
    requires
        store_inv(s),
        !s.seen.contains(sig),
        0 <= k <= s.lines.len(),
    ensures
        count_records(s.lines.take(k), sig) == 0,
    decreases k,
{
    if k == 0 {
        assert(s.lines.take(0int) =~= Seq::<Seq<char>>::empty());
    } else {
        lemma_unseen_count(s, sig, k - 1);
        assert(s.lines.take(k).drop_last() =~= s.lines.take(k - 1));
        assert(s.lines.take(k).last() == s.lines[k - 1]);
        assert(parse_sig(s.lines[k - 1]) is Some && s.seen.contains(parse_sig(s.lines[k - 1])->0));
    }
}

/// A signature present anywhere in a persisted log is among the rebuilt
/// dedup keys.
pub proof fn lemma_restored_seen_contains(lines: Seq<Seq<char>>, sig: Seq<char>)
    requires
        exists|i: int| 0 <= i < lines.len() && parse_sig(#[trigger] lines[i]) == Option::Some(sig),
    ensures
        restored_seen(lines).contains(sig),
    decreases lines.len(),
{
    let i = choose|i: int| 0 <= i < lines.len() && parse_sig(#[trigger] lines[i]) == Option::Some(
        sig,
    );
    if i == lines.len() - 1 {
        if !restored_seen(lines.drop_last()).contains(sig) {
            assert(restored_seen(lines) == restored_seen(lines.drop_last()).push(sig));
            assert(restored_seen(lines).last() == sig);
        }
    } else {
        assert(lines.drop_last()[i] == lines[i]);
        lemma_restored_seen_contains(lines.drop_last(), sig);
        let r = restored_seen(lines.drop_last());
        let j = choose|j: int| 0 <= j < r.len() && r[j] == sig;
        match parse_sig(lines.last()) {
            Option::Some(s2) => {
                if !r.contains(s2) {
                    assert(restored_seen(lines)[j] == sig);
                }
            },
            Option::None => {},
        }
    }
}

/// Restarting over a pre-populated log is idempotent: an event whose
/// signature that log already holds is not appended again — the rebuilt
/// store is left exactly as it was, and no line is handed out.
pub proof fn lemma_idempotent_restart(
    log_lines: Seq<Seq<char>>,
    threshold: u64,
    size: u64,
    e: PoolEventView,
)
    requires
        exists|i: int|
            0 <= i < log_lines.len() && parse_sig(#[trigger] log_lines[i]) == Option::Some(
                e.signature,
            ),
    ensures
        ({
            let s = StoreView {
                seen: restored_seen(log_lines),
                lines: Seq::<Seq<char>>::empty(),
                size,
                threshold,
            };
            spec_append(s, e) == s
        }),
{
    lemma_restored_seen_contains(log_lines, e.signature);
}

/// One entry of the failure log: its timestamp, then the free-text message.
pub open spec fn failure_line(timestamp: Seq<char>, message: Seq<char>) -> Seq<char> {
    timestamp + " "@ + message
}

/// Format one failure-log entry from a timestamp and a free-text message.
pub fn format_failure_line(timestamp: &str, message: &str) -> (r: String)
    ensures
        r@ == failure_line(timestamp@, message@),
{
    let mut out = String::new();
    out.append(timestamp);
    out.append(" ");
    out.append(message);
    proof {
        assert(out@ =~= failure_line(timestamp@, message@));
    }
    out
}

} // verus!
