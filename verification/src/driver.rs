//! The pipeline's per-candidate decision and its failure-isolation policy.
//!
//! For each candidate the driver decides one of four things: skip a
//! signature the store already holds, skip noise that is no event, store a
//! decoded pool event, or record a failure-log entry and carry on. Every
//! outcome continues the loop — the result type has no halting variant, so a
//! single bad candidate can never stop processing. Source-level breakdowns
//! (a closed subscription, repeated snapshot failures) go through a bounded
//! exponential backoff with a reconnect budget; only exhausting that budget
//! gives the source up.

use vstd::prelude::*;
use crate::extract::extract_event;
use crate::extract::extraction_ok;
use crate::extract::has_side;
use crate::extract::ExtractionError;
use crate::model::ExtractConfig;
use crate::model::PoolEvent;
use crate::model::TransactionRecord;
use crate::model::TransactionRecordView;
use crate::store::failure_line;
use crate::store::format_failure_line;
use crate::codec::record_line;
use crate::store::spec_append;
use crate::store::store_inv;
use crate::store::EventStore;

verus! {

/// What the gateway's transaction fetch came back with, brought to plain
/// values by the caller that performed it.
pub enum FetchOutcome {
    /// The transaction, decoded.
    Transaction(TransactionRecord),
    /// The signature is not found or not confirmed yet.
    NotFound,
    /// The gateway could not be asked: a transient transport failure, with
    /// its description.
    TransportError(String),
}

/// Mathematical value of a [`FetchOutcome`].
pub enum FetchOutcomeView {
    Transaction(TransactionRecordView),
    NotFound,
    TransportError(Seq<char>),
}

impl View for FetchOutcome {
    type V = FetchOutcomeView;

    open spec fn view(&self) -> FetchOutcomeView {
        match self {
            FetchOutcome::Transaction(t) => FetchOutcomeView::Transaction(t@),
            FetchOutcome::NotFound => FetchOutcomeView::NotFound,
            FetchOutcome::TransportError(m) => FetchOutcomeView::TransportError(m@),
        }
    }
}

/// What the driver decided for one candidate. There is no halting variant:
/// every case continues with the next candidate.
pub enum StepResult {
    /// A new pool event was recorded: append `line` to the event log, emit
    /// the new-pool side effect, surface the warnings, and rotate the log
    /// if asked to.
    Stored { event: PoolEvent, line: String, rotation_needed: bool, warnings: Vec<String> },
    /// The store already holds this signature; nothing to do.
    SkippedDuplicate,
    /// Expected noise (failed on chain, not found, or no two-sided pool
    /// creation shape was asked about): skip silently.
    NotAnEvent,
    /// A per-candidate failure: append `log_line` to the failure log and
    /// carry on.
    Failure { log_line: String },
}

/// Failure-log text for a transport error.
pub open spec fn transport_failure_text(msg: Seq<char>) -> Seq<char> {
    "transport error: "@ + msg
}

/// Failure-log text for an extraction error.
pub open spec fn extraction_failure_text(e: ExtractionError) -> Seq<char> {
    match e {
        ExtractionError::IncompleteBalances => "extraction failed: incomplete balance records"@,
        ExtractionError::NoSigner => "extraction failed: no signer"@,
    }
}

/// Process one candidate: dedup check, extraction, storage, failure
/// isolation. The store is changed exactly when a new pool event is
/// recorded; every other outcome leaves it as it was.
pub fn process_candidate(
    store: &mut EventStore,
    signature: &String,
    timestamp: &String,
    fetch: &FetchOutcome,
    cfg: &ExtractConfig,
) -> (r: StepResult)
    requires
        store_inv(old(store)@),
    ensures
        store_inv(final(store)@),
        old(store)@.seen.contains(signature@) ==> r is SkippedDuplicate && final(store)@ == old(
            store,
        )@,
        !old(store)@.seen.contains(signature@) ==> match fetch@ {
            FetchOutcomeView::NotFound => r is NotAnEvent && final(store)@ == old(store)@,
            FetchOutcomeView::TransportError(msg) => r is Failure && r->Failure_log_line@
                == failure_line(timestamp@, transport_failure_text(msg)) && final(store)@ == old(
                store,
            )@,
            FetchOutcomeView::Transaction(txv) => {
                let pairing = has_side(txv.balances, cfg@, true) && has_side(
                    txv.balances,
                    cfg@,
                    false,
                );
                &&& (!txv.success ==> r is NotAnEvent && final(store)@ == old(store)@)
                &&& (txv.success && !pairing ==> r is Failure && r->Failure_log_line@
                    == failure_line(
                    timestamp@,
                    extraction_failure_text(ExtractionError::IncompleteBalances),
                ) && final(store)@ == old(store)@)
                &&& (txv.success && pairing && txv.account_keys.len() == 0 ==> r is Failure
                    && r->Failure_log_line@ == failure_line(
                    timestamp@,
                    extraction_failure_text(ExtractionError::NoSigner),
                ) && final(store)@ == old(store)@)
                &&& (txv.success && pairing && txv.account_keys.len() > 0 ==> r is Stored && {
                    let ev = r->Stored_event;
                    &&& extraction_ok(
                        ev@,
                        r->Stored_warnings.deep_view(),
                        signature@,
                        timestamp@,
                        txv,
                        cfg@,
                    )
                    &&& final(store)@ == spec_append(old(store)@, ev@)
                    &&& r->Stored_line@ == record_line(ev@)
                    &&& r->Stored_rotation_needed == (final(store)@.size > final(store)@.threshold)
                })
            },
        },
{
    if store.contains(signature) {
        return StepResult::SkippedDuplicate;
    }
    match fetch {
        FetchOutcome::NotFound => StepResult::NotAnEvent,
        FetchOutcome::TransportError(msg) => {
            let mut text = String::new();
            text.append("transport error: ");
            text.append(msg.as_str());
            proof {
                assert(text@ =~= transport_failure_text(msg@));
            }
            StepResult::Failure {
                log_line: format_failure_line(timestamp.as_str(), text.as_str()),
            }
        },
        FetchOutcome::Transaction(tx) => match extract_event(signature, timestamp, tx, cfg) {
            Result::Ok(Option::None) => StepResult::NotAnEvent,
            Result::Ok(Option::Some(ext)) => {
                let out = store.append(&ext.event);
                match out.line {
                    Option::Some(line) => StepResult::Stored {
                        event: ext.event,
                        line,
                        rotation_needed: out.rotation_needed,
                        warnings: ext.warnings,
                    },
                    Option::None => {
                        proof {
                            assert(false);
                        }
                        StepResult::NotAnEvent
                    },
                }
            },
            Result::Err(e) => {
                let text = match e {
                    ExtractionError::IncompleteBalances => "extraction failed: incomplete balance records",
                    ExtractionError::NoSigner => "extraction failed: no signer",
                };
                StepResult::Failure {
                    log_line: format_failure_line(timestamp.as_str(), text),
                }
            },
        },
    }
}

/// How the driver backs off and when it gives a source up.
pub struct BackoffPolicy {
    /// Consecutive failures tolerated before giving up the source.
    pub budget: u32,
    /// Delay after the first failure, in milliseconds.
    pub initial_delay_ms: u64,
    /// Cap on the backoff delay, in milliseconds.
    pub max_delay_ms: u64,
}

/// The driver's view of a source's recent health.
pub struct BackoffState {
    /// Consecutive failures seen since the source last yielded.
    pub consecutive_failures: u32,
    /// The delay that was applied after the last failure, in milliseconds;
    /// zero while the source is healthy.
    pub delay_ms: u64,
}

/// What to do about a broken source: wait and re-establish it, or give it
/// up once the reconnect budget is exhausted.
pub enum SourceDecision {
    Retry { delay_ms: u64 },
    GiveUp,
}

/// The next backoff delay: double the last one, starting from the policy's
/// initial delay, capped at its maximum.
pub open spec fn next_delay(current: u64, p: BackoffPolicy) -> u64 {
    if current == 0 {
        if p.initial_delay_ms <= p.max_delay_ms {
            p.initial_delay_ms
        } else {
            p.max_delay_ms
        }
    } else if current > p.max_delay_ms / 2 {
        p.max_delay_ms
    } else {
        (2 * current) as u64
    }
}

impl BackoffState {
    /// A healthy source: no failures, no delay.
    pub fn new() -> (s: BackoffState)
        ensures
            s.consecutive_failures == 0,
            s.delay_ms == 0,
    {
        BackoffState { consecutive_failures: 0, delay_ms: 0 }
    }

    /// The source yielded: forget its failures.
    pub fn on_success(&mut self)
        ensures
            final(self).consecutive_failures == 0,
            final(self).delay_ms == 0,
    {
        self.consecutive_failures = 0;
        self.delay_ms = 0;
    }

    /// The source broke (subscription closed, snapshot failed): count the
    /// failure and decide. Within the budget the decision is to retry after
    /// a bounded exponentially growing delay; beyond it, to give up. Only
    /// giving up ends the pipeline's use of this source.
    pub fn on_failure(&mut self, p: &BackoffPolicy) -> (d: SourceDecision)
        requires
            old(self).consecutive_failures <= p.budget,
        ensures
            old(self).consecutive_failures < p.budget ==> {
                &&& final(self).consecutive_failures == old(self).consecutive_failures + 1
                &&& final(self).delay_ms == next_delay(old(self).delay_ms, *p)
                &&& d == (SourceDecision::Retry { delay_ms: final(self).delay_ms })
            },
            old(self).consecutive_failures == p.budget ==> d == SourceDecision::GiveUp
                && *final(self) == *old(self),
    {
        if self.consecutive_failures == p.budget {
            return SourceDecision::GiveUp;
        }
        self.consecutive_failures = self.consecutive_failures + 1;
        let next = if self.delay_ms == 0 {
            if p.initial_delay_ms <= p.max_delay_ms {
                p.initial_delay_ms
            } else {
                p.max_delay_ms
            }
        } else if self.delay_ms > p.max_delay_ms / 2 {
            p.max_delay_ms
        } else {
            2 * self.delay_ms
        };
        self.delay_ms = next;
        SourceDecision::Retry { delay_ms: next }
    }
}

/// The backoff delay never exceeds the policy's cap, however many failures
/// accumulate, as long as the initial delay respects the cap.
pub proof fn lemma_backoff_capped(current: u64, p: BackoffPolicy)
    requires
        current <= p.max_delay_ms,
    ensures
        next_delay(current, p) <= p.max_delay_ms,
{
}

} // verus!
