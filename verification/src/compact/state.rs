//! The auto-compact state of a session.

use crate::clock::{elapsed_seconds, utc_now, Timestamp};
use crate::compact::threshold::KEEP_RECENT_MESSAGES;
use crate::types::Message;
use std::time::Instant;
use vstd::prelude::*;

verus! {

/// Max consecutive auto-compact failures before disabling.
pub const MAX_CONSECUTIVE_FAILURES: u32 = 3;

/// Reasons for compaction.
#[derive(Debug, Clone, Copy, PartialEq, Eq, Structural)]
pub enum CompactionReason {
    /// Automatic compaction at threshold.
    AutoCompactThreshold,
    /// Context window would be exceeded.
    ContextWindowExceeded,
    /// Reactive compaction after error.
    ReactiveCompact,
    /// User explicitly requested compaction.
    UserRequested,
    /// Time-based micro-compact (idle gap).
    TimeBased,
    /// API-native cache edits.
    CacheEdits,
}

impl CompactionReason {
    /// The reason in words.
    pub fn describe(&self) -> (r: &'static str)
        ensures
            r@ == (match *self {
                CompactionReason::AutoCompactThreshold => "auto-compact threshold"@,
                CompactionReason::ContextWindowExceeded => "context window exceeded"@,
                CompactionReason::ReactiveCompact => "reactive compact"@,
                CompactionReason::UserRequested => "user requested"@,
                CompactionReason::TimeBased => "time-based"@,
                CompactionReason::CacheEdits => "cache edits"@,
            }),
    {
        match self {
            CompactionReason::AutoCompactThreshold => "auto-compact threshold",
            CompactionReason::ContextWindowExceeded => "context window exceeded",
            CompactionReason::ReactiveCompact => "reactive compact",
            CompactionReason::UserRequested => "user requested",
            CompactionReason::TimeBased => "time-based",
            CompactionReason::CacheEdits => "cache edits",
        }
    }
}

/// Tracks auto-compact state across the session.
#[derive(Debug, Clone, Copy)]
pub struct AutoCompactState {
    /// Total compactions performed this session.
    pub compaction_count: u32,
    /// Consecutive failures (reset on success).
    pub consecutive_failures: u32,
    /// Whether the circuit breaker is open.
    pub disabled: bool,
    /// Last compaction timestamp.
    pub last_compaction_at: Option<Timestamp>,
    /// Last compaction reason.
    pub last_reason: Option<CompactionReason>,
}

/// The model of the state: all of it, but of the last compaction's time only
/// whether there is one.
pub struct CompactStateModel {
    pub compaction_count: nat,
    pub consecutive_failures: nat,
    pub disabled: bool,
    pub stamped: bool,
    pub last_reason: Option<CompactionReason>,
}

impl View for AutoCompactState {
    type V = CompactStateModel;

    open spec fn view(&self) -> CompactStateModel {
        CompactStateModel {
            compaction_count: self.compaction_count as nat,
            consecutive_failures: self.consecutive_failures as nat,
            disabled: self.disabled,
            stamped: self.last_compaction_at is Some,
            last_reason: self.last_reason,
        }
    }
}

impl CompactStateModel {
    /// The state of a new session.
    pub open spec fn fresh() -> CompactStateModel {
        CompactStateModel {
            compaction_count: 0,
            consecutive_failures: 0,
            disabled: false,
            stamped: false,
            last_reason: None,
        }
    }

    /// The state after a compaction.
    pub open spec fn after_success(self, reason: CompactionReason) -> CompactStateModel {
        CompactStateModel {
            compaction_count: self.compaction_count + 1,
            consecutive_failures: 0,
            disabled: self.disabled,
            stamped: true,
            last_reason: Some(reason),
        }
    }

    /// The state after a compaction that failed.
    pub open spec fn after_failure(self) -> CompactStateModel {
        CompactStateModel {
            consecutive_failures: self.consecutive_failures + 1,
            disabled: self.disabled || self.consecutive_failures + 1 >= MAX_CONSECUTIVE_FAILURES,
            ..self
        }
    }

    /// Whether the breaker is open where it has to be.
    pub open spec fn well_formed(self) -> bool {
        self.consecutive_failures >= MAX_CONSECUTIVE_FAILURES ==> self.disabled
    }
}

impl Default for AutoCompactState {
    fn default() -> (r: Self)
        ensures
            r@ == CompactStateModel::fresh(),
    {
        AutoCompactState {
            compaction_count: 0,
            consecutive_failures: 0,
            disabled: false,
            last_compaction_at: None,
            last_reason: None,
        }
    }
}

impl AutoCompactState {
    /// Creates a new auto-compact state.
    pub fn new() -> (r: AutoCompactState)
        ensures
            r@ == CompactStateModel::fresh(),
            r@.well_formed(),
    {
        AutoCompactState::default()
    }

    /// Records a successful compaction at a given time.
    pub fn on_success_at(&mut self, reason: CompactionReason, now: Timestamp)
        requires
            old(self).compaction_count < u32::MAX,
        ensures
            final(self)@ == old(self)@.after_success(reason),
            final(self).last_compaction_at == Some(now),
    {
        self.compaction_count = self.compaction_count + 1;
        self.consecutive_failures = 0;
        self.last_compaction_at = Some(now);
        self.last_reason = Some(reason);
    }

    /// Records a successful compaction, now.
    pub fn on_success(&mut self, reason: CompactionReason)
        requires
            old(self).compaction_count < u32::MAX,
        ensures
            final(self)@ == old(self)@.after_success(reason),
            final(self).last_compaction_at matches Some(at) && at.in_calendar(),
    {
        self.on_success_at(reason, utc_now());
    }

    /// Records a failed compaction.
    pub fn on_failure(&mut self)
        requires
            old(self).consecutive_failures < u32::MAX,
        ensures
            final(self)@ == old(self)@.after_failure(),
            final(self).last_compaction_at == old(self).last_compaction_at,
    {
        self.consecutive_failures = self.consecutive_failures + 1;
        if self.consecutive_failures >= MAX_CONSECUTIVE_FAILURES {
            self.disabled = true;
        }
    }

    /// Checks if auto-compact is currently enabled.
    pub fn is_enabled(&self) -> (r: bool)
        ensures
            r == !self@.disabled,
    {
        !self.disabled
    }

    /// The nanoseconds from the last compaction to a given time.
    pub fn time_since(&self, now: Timestamp) -> (r: Option<i128>)
        ensures
            match self.last_compaction_at {
                Some(last) => r matches Some(n) && n == now.unix_nanos() - last.unix_nanos(),
                None => r is None,
            },
    {
        match self.last_compaction_at {
            Some(last) => Some(now.nanos_since(&last)),
            None => None,
        }
    }

    /// The nanoseconds since the last compaction. How many there are depends
    /// on the clock.
    pub fn time_since_last(&self) -> (r: Option<i128>)
        ensures
            r is Some <==> self.last_compaction_at is Some,
            self.last_compaction_at matches Some(last) ==> exists|now: Timestamp|
                now.in_calendar() && r == Some(
                    (#[trigger] now.unix_nanos() - last.unix_nanos()) as i128,
                ),
    {
        let now = utc_now();
        self.time_since(now)
    }
}

/// What a compaction attempt came to.
pub enum Attempt {
    Succeeded(CompactionReason),
    Failed,
}

/// The state after attempts, one after the other.
pub open spec fn after_attempts(state: CompactStateModel, attempts: Seq<Attempt>) ->
    CompactStateModel
    decreases attempts.len(),
{
    if attempts.len() == 0 {
        state
    } else {
        let before = after_attempts(state, attempts.drop_last());
        match attempts.last() {
            Attempt::Succeeded(reason) => before.after_success(reason),
            Attempt::Failed => before.after_failure(),
        }
    }
}

/// Whether attempt `i` ends a run of failures long enough to open the breaker.
pub open spec fn failure_run_ends(attempts: Seq<Attempt>, i: int) -> bool {
    &&& MAX_CONSECUTIVE_FAILURES - 1 <= i < attempts.len()
    &&& forall|k: int|
        i - MAX_CONSECUTIVE_FAILURES < k <= i ==> (#[trigger] attempts[k]) is Failed
}

/// How many attempts at the end of the sequence failed.
pub open spec fn trailing_failures(attempts: Seq<Attempt>) -> nat
    decreases attempts.len(),
{
    if attempts.len() == 0 || !(attempts.last() is Failed) {
        0
    } else {
        trailing_failures(attempts.drop_last()) + 1
    }
}

/// The breaker invariant holds after any attempts, the failures in a row are
/// counted, and the breaker of a new session is open exactly where that many
/// attempts in a row have failed; later successes do not close it.
pub proof fn lemma_circuit_breaker(attempts: Seq<Attempt>)
    ensures
        after_attempts(CompactStateModel::fresh(), attempts).well_formed(),
        after_attempts(CompactStateModel::fresh(), attempts).consecutive_failures
            == trailing_failures(attempts),
        after_attempts(CompactStateModel::fresh(), attempts).disabled <==> exists|i: int|
            #[trigger] failure_run_ends(attempts, i),
    decreases attempts.len(),
{
    if attempts.len() > 0 {
        let init = attempts.drop_last();
        let last = attempts.len() - 1;
        lemma_circuit_breaker(init);
        lemma_trailing_failures(attempts);
        assert forall|i: int| i < last implies failure_run_ends(init, i) == failure_run_ends(
            attempts,
            i,
        ) by {
            if failure_run_ends(init, i) {
                assert forall|k: int| i - MAX_CONSECUTIVE_FAILURES < k <= i implies (
                #[trigger] attempts[k]) is Failed by {
                    assert(init[k] is Failed);
                }
            }
            if failure_run_ends(attempts, i) {
                assert forall|k: int| i - MAX_CONSECUTIVE_FAILURES < k <= i implies (
                #[trigger] init[k]) is Failed by {
                    assert(attempts[k] is Failed);
                }
            }
        }
        let state = after_attempts(CompactStateModel::fresh(), attempts);
        if state.disabled {
            if after_attempts(CompactStateModel::fresh(), init).disabled {
                let i = choose|i: int| #[trigger] failure_run_ends(init, i);
                assert(failure_run_ends(attempts, i));
            } else {
                assert(failure_run_ends(attempts, last));
            }
        }
        if exists|i: int| #[trigger] failure_run_ends(attempts, i) {
            let i = choose|i: int| #[trigger] failure_run_ends(attempts, i);
            if i < last {
                assert(failure_run_ends(init, i));
            } else {
                lemma_trailing_run(attempts, MAX_CONSECUTIVE_FAILURES as nat);
            }
        }
    } else {
        assert forall|i: int| !#[trigger] failure_run_ends(attempts, i) by {}
    }
}

/// The attempts at the end failed, as many as are counted.
proof fn lemma_trailing_failures(attempts: Seq<Attempt>)
    ensures
        trailing_failures(attempts) <= attempts.len(),
        forall|k: int|
            attempts.len() - trailing_failures(attempts) <= k < attempts.len() ==> (
            #[trigger] attempts[k]) is Failed,
    decreases attempts.len(),
{
    if attempts.len() > 0 && attempts.last() is Failed {
        let init = attempts.drop_last();
        lemma_trailing_failures(init);
        assert forall|k: int|
            attempts.len() - trailing_failures(attempts) <= k < attempts.len() implies (
        #[trigger] attempts[k]) is Failed by {
            if k < attempts.len() - 1 {
                assert(init[k] is Failed);
            }
        }
    }
}

/// A run of failures at the end is counted in full.
proof fn lemma_trailing_run(attempts: Seq<Attempt>, n: nat)
    requires
        n <= attempts.len(),
        forall|k: int|
            attempts.len() - n <= k < attempts.len() ==> (#[trigger] attempts[k]) is Failed,
    ensures
        n <= trailing_failures(attempts),
    decreases attempts.len(),
{
    if n > 0 {
        let init = attempts.drop_last();
        assert(attempts[attempts.len() - 1] is Failed);
        assert forall|k: int| init.len() - (n - 1) <= k < init.len() implies (
        #[trigger] init[k]) is Failed by {
            assert(attempts[k] is Failed);
        }
        lemma_trailing_run(init, (n - 1) as nat);
    }
}

/// Whether so much time has passed that old tool results should go: at least
/// so many whole minutes, with more messages than are kept.
pub open spec fn idle_gap_reached(messages: nat, elapsed_seconds: nat, gap_minutes: nat) -> bool {
    elapsed_seconds / 60 >= gap_minutes && messages > KEEP_RECENT_MESSAGES
}

/// Decides on a time-based micro-compact from the seconds that have passed.
pub fn time_based_trigger_due(
    message_count: usize,
    elapsed_seconds: u64,
    gap_threshold_minutes: u64,
) -> (r: bool)
    ensures
        r == idle_gap_reached(
            message_count as nat,
            elapsed_seconds as nat,
            gap_threshold_minutes as nat,
        ),
{
    elapsed_seconds / 60 >= gap_threshold_minutes && message_count > KEEP_RECENT_MESSAGES
}

/// Evaluates if time-based micro-compact should trigger. Where there was
/// activity and there are enough messages, the clock decides, unless the gap
/// is zero.
pub fn evaluate_time_based_trigger(
    messages: &[Message],
    last_activity: Option<Instant>,
    gap_threshold_minutes: u64,
) -> (r: bool)
    ensures
        last_activity is None ==> !r,
        messages@.len() <= KEEP_RECENT_MESSAGES ==> !r,
        last_activity is Some && messages@.len() > KEEP_RECENT_MESSAGES && gap_threshold_minutes
            == 0 ==> r,
        last_activity is Some ==> exists|seconds: u64|
            r == #[trigger] idle_gap_reached(
                messages@.len(),
                seconds as nat,
                gap_threshold_minutes as nat,
            ),
{
    match last_activity {
        Some(last) => {
            let seconds: u64 = elapsed_seconds(&last);
            time_based_trigger_due(messages.len(), seconds, gap_threshold_minutes)
        },
        None => false,
    }
}

} // verus!
