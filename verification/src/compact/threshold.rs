//! When to compact: shares of the context window.

use crate::fraction::{share_exceeded, share_reached, Fraction};
use vstd::prelude::*;

verus! {

/// Target buffer to keep free after compaction.
pub const AUTOCOMPACT_BUFFER_TOKENS: u64 = 13_000;

/// Percentage of the context window at which auto-compact triggers.
pub const AUTOCOMPACT_TRIGGER_PERCENT: u64 = 90;

/// Percentage for proactive micro-compact.
pub const MICROCOMPACT_TRIGGER_PERCENT: u64 = 75;

/// Warning threshold in percent: from here on there is a warning.
pub const WARNING_THRESHOLD_PERCENT: u64 = 80;

/// Critical threshold in percent.
pub const CRITICAL_THRESHOLD_PERCENT: u64 = 95;

/// Percentage at which context collapse triggers.
pub const COLLAPSE_TRIGGER_PERCENT: u64 = 97;

/// How many recent messages to preserve during compaction.
pub const KEEP_RECENT_MESSAGES: usize = 10;

/// Default summary target tokens.
pub const DEFAULT_SUMMARY_TARGET_TOKENS: usize = 2048;

/// Configuration for micro-compaction.
#[derive(Debug, Clone, Copy)]
pub struct MicroCompactConfig {
    /// Trigger threshold.
    pub trigger_threshold: Fraction,
    /// Keep this many recent messages.
    pub keep_recent_messages: usize,
    /// Target token count for summary.
    pub summary_target_tokens: usize,
}

impl Default for MicroCompactConfig {
    fn default() -> (r: Self)
        ensures
            r.trigger_threshold.num() == MICROCOMPACT_TRIGGER_PERCENT,
            r.trigger_threshold.den() == 100,
            r.keep_recent_messages == KEEP_RECENT_MESSAGES,
            r.summary_target_tokens == DEFAULT_SUMMARY_TARGET_TOKENS,
    {
        MicroCompactConfig {
            trigger_threshold: Fraction::percent(MICROCOMPACT_TRIGGER_PERCENT),
            keep_recent_messages: KEEP_RECENT_MESSAGES,
            summary_target_tokens: DEFAULT_SUMMARY_TARGET_TOKENS,
        }
    }
}

/// Configuration for full compaction.
#[derive(Debug, Clone, Copy)]
pub struct CompactConfig {
    /// Trigger threshold.
    pub trigger_threshold: Fraction,
    /// Keep this many recent messages.
    pub keep_recent_messages: usize,
    /// Target buffer after compaction.
    pub target_buffer_tokens: u64,
}

/// The usual configuration for full compaction.
pub open spec fn default_compact_config() -> CompactConfig {
    CompactConfig {
        trigger_threshold: Fraction::of(AUTOCOMPACT_TRIGGER_PERCENT, 100),
        keep_recent_messages: KEEP_RECENT_MESSAGES,
        target_buffer_tokens: AUTOCOMPACT_BUFFER_TOKENS,
    }
}

impl Default for CompactConfig {
    fn default() -> (r: Self)
        ensures
            r == default_compact_config(),
            r.trigger_threshold.num() == AUTOCOMPACT_TRIGGER_PERCENT,
            r.trigger_threshold.den() == 100,
    {
        CompactConfig {
            trigger_threshold: Fraction::percent(AUTOCOMPACT_TRIGGER_PERCENT),
            keep_recent_messages: KEEP_RECENT_MESSAGES,
            target_buffer_tokens: AUTOCOMPACT_BUFFER_TOKENS,
        }
    }
}

/// Context collapse configuration.
#[derive(Debug, Clone, Copy)]
pub struct ContextCollapseConfig {
    /// Trigger threshold.
    pub trigger_fraction: Fraction,
    /// Aggressive mode - collapse more.
    pub aggressive: bool,
}

impl Default for ContextCollapseConfig {
    fn default() -> (r: Self)
        ensures
            r.trigger_fraction.num() == COLLAPSE_TRIGGER_PERCENT,
            r.trigger_fraction.den() == 100,
            !r.aggressive,
    {
        ContextCollapseConfig {
            trigger_fraction: Fraction::percent(COLLAPSE_TRIGGER_PERCENT),
            aggressive: false,
        }
    }
}

/// Token warning state.
#[derive(Debug, Clone, Copy, PartialEq, Eq, Structural)]
pub enum TokenWarningState {
    /// Below 80% - no warning.
    Normal,
    /// 80-95%, both included - yellow warning.
    Warning,
    /// Above 95% - red critical.
    Critical,
}

impl TokenWarningState {
    /// Whether compaction is strongly recommended.
    pub fn should_compact(&self) -> (r: bool)
        ensures
            r == (*self == TokenWarningState::Critical),
    {
        matches!(self, TokenWarningState::Critical)
    }

    /// Display color hint.
    pub fn color_hint(&self) -> (r: &'static str)
        ensures
            r@ == (match *self {
                TokenWarningState::Normal => "green"@,
                TokenWarningState::Warning => "yellow"@,
                TokenWarningState::Critical => "red"@,
            }),
    {
        match self {
            TokenWarningState::Normal => "green",
            TokenWarningState::Warning => "yellow",
            TokenWarningState::Critical => "red",
        }
    }
}

/// Compaction strategies.
#[derive(Debug, Clone, Copy, PartialEq, Eq, Structural)]
pub enum CompactionStrategy {
    /// No compaction needed.
    Nothing,
    /// Micro-compact (tool results only).
    MicroCompact,
    /// Partial compaction (keep recent).
    Partial { keep_recent: usize },
    /// Tool results only.
    ToolResultsOnly,
    /// Full compaction (summarize all but the recent messages).
    Full,
}

/// Triggers for compaction.
#[derive(Debug, Clone, Copy)]
pub struct CompactTrigger {
    /// Whether compaction should trigger.
    pub should_compact: bool,
    /// Share of the context window in use.
    pub fraction_used: Fraction,
    /// Estimated tokens.
    pub estimated_tokens: u64,
    /// Context window size.
    pub context_window: u64,
    /// Recommended strategy.
    pub recommended_strategy: CompactionStrategy,
}

/// Whether the tokens reach so many percent of the context window. A window
/// of zero is never reached.
pub open spec fn percent_reached(tokens: nat, window: nat, percent: nat) -> bool {
    window > 0 && share_reached(tokens, window, percent, 100)
}

/// Whether the tokens are more than so many percent of the context window. A
/// window of zero is never exceeded.
pub open spec fn percent_exceeded(tokens: nat, window: nat, percent: nat) -> bool {
    window > 0 && share_exceeded(tokens, window, percent, 100)
}

/// The warning state for so many tokens.
pub open spec fn warning_state(tokens: nat, window: nat) -> TokenWarningState {
    if percent_exceeded(tokens, window, CRITICAL_THRESHOLD_PERCENT as nat) {
        TokenWarningState::Critical
    } else if percent_reached(tokens, window, WARNING_THRESHOLD_PERCENT as nat) {
        TokenWarningState::Warning
    } else {
        TokenWarningState::Normal
    }
}

/// The strategy for so many tokens.
pub open spec fn recommended_strategy(tokens: nat, window: nat) -> CompactionStrategy {
    if percent_reached(tokens, window, AUTOCOMPACT_TRIGGER_PERCENT as nat) {
        CompactionStrategy::Partial { keep_recent: KEEP_RECENT_MESSAGES }
    } else if percent_reached(tokens, window, MICROCOMPACT_TRIGGER_PERCENT as nat) {
        CompactionStrategy::MicroCompact
    } else {
        CompactionStrategy::Nothing
    }
}

/// Whether the tokens reach a share of the window, where a window of zero is
/// reached by any token.
pub open spec fn threshold_reached(tokens: nat, window: nat, threshold: Fraction) -> bool {
    if window == 0 {
        tokens > 0
    } else {
        share_reached(tokens, window, threshold.num(), threshold.den())
    }
}

fn is_percent_reached(tokens: u64, window: u64, percent: u64) -> (r: bool)
    ensures
        r == percent_reached(tokens as nat, window as nat, percent as nat),
{
    window > 0 && Fraction::share(tokens, window).at_least(&Fraction::percent(percent))
}

fn is_percent_exceeded(tokens: u64, window: u64, percent: u64) -> (r: bool)
    ensures
        r == percent_exceeded(tokens as nat, window as nat, percent as nat),
{
    window > 0 && Fraction::share(tokens, window).exceeds(&Fraction::percent(percent))
}

/// Checks if auto-compact should trigger.
pub fn should_auto_compact(
    estimated_tokens: u64,
    context_window: u64,
    config: &CompactConfig,
) -> (r: bool)
    ensures
        r == threshold_reached(
            estimated_tokens as nat,
            context_window as nat,
            config.trigger_threshold,
        ),
{
    if context_window == 0 {
        estimated_tokens > 0
    } else {
        Fraction::share(estimated_tokens, context_window).at_least(&config.trigger_threshold)
    }
}

/// Checks if compaction is recommended based on token usage.
pub fn should_compact(estimated_tokens: u64, context_window: u64) -> (r: CompactTrigger)
    ensures
        r.should_compact == percent_reached(
            estimated_tokens as nat,
            context_window as nat,
            AUTOCOMPACT_TRIGGER_PERCENT as nat,
        ),
        context_window > 0 ==> r.fraction_used.num() == estimated_tokens && r.fraction_used.den()
            == context_window,
        context_window == 0 ==> r.fraction_used.num() == 0 && r.fraction_used.den() == 1,
        r.estimated_tokens == estimated_tokens,
        r.context_window == context_window,
        r.recommended_strategy == recommended_strategy(
            estimated_tokens as nat,
            context_window as nat,
        ),
{
    let auto: bool = is_percent_reached(
        estimated_tokens,
        context_window,
        AUTOCOMPACT_TRIGGER_PERCENT,
    );
    let strategy = if auto {
        CompactionStrategy::Partial { keep_recent: KEEP_RECENT_MESSAGES }
    } else if is_percent_reached(estimated_tokens, context_window, MICROCOMPACT_TRIGGER_PERCENT) {
        CompactionStrategy::MicroCompact
    } else {
        CompactionStrategy::Nothing
    };
    CompactTrigger {
        should_compact: auto,
        fraction_used: Fraction::share(estimated_tokens, context_window),
        estimated_tokens,
        context_window,
        recommended_strategy: strategy,
    }
}

/// Calculates the token warning state.
pub fn calculate_token_warning_state(estimated_tokens: u64, context_window: u64) -> (r:
    TokenWarningState)
    ensures
        r == warning_state(estimated_tokens as nat, context_window as nat),
{
    if is_percent_exceeded(estimated_tokens, context_window, CRITICAL_THRESHOLD_PERCENT) {
        TokenWarningState::Critical
    } else if is_percent_reached(estimated_tokens, context_window, WARNING_THRESHOLD_PERCENT) {
        TokenWarningState::Warning
    } else {
        TokenWarningState::Normal
    }
}

/// Checks if context collapse should trigger.
pub fn should_context_collapse(estimated_tokens: u64, context_window: u64) -> (r: bool)
    ensures
        context_window > 0 ==> r == percent_reached(
            estimated_tokens as nat,
            context_window as nat,
            COLLAPSE_TRIGGER_PERCENT as nat,
        ),
        context_window == 0 ==> r == (estimated_tokens > 0),
{
    if context_window == 0 {
        estimated_tokens > 0
    } else {
        is_percent_reached(estimated_tokens, context_window, COLLAPSE_TRIGGER_PERCENT)
    }
}

/// A higher threshold is reached only where the lower ones are.
pub proof fn lemma_percent_reached_monotone(tokens: nat, window: nat, low: nat, high: nat)
    requires
        low <= high,
        percent_reached(tokens, window, high),
    ensures
        percent_reached(tokens, window, low),
{
    assert(low * window <= high * window) by (nonlinear_arith)
        requires
            low <= high,
    ;
}

/// The measures escalate in order: collapse only where the state is critical,
/// critical only where compaction is due, compaction only where a warning is
/// shown, and a warning only where micro-compact is recommended at least.
pub proof fn lemma_measures_escalate(tokens: nat, window: nat)
    ensures
        percent_reached(tokens, window, COLLAPSE_TRIGGER_PERCENT as nat) ==> warning_state(
            tokens,
            window,
        ) == TokenWarningState::Critical,
        warning_state(tokens, window) == TokenWarningState::Critical ==> recommended_strategy(
            tokens,
            window,
        ) is Partial,
        recommended_strategy(tokens, window) is Partial ==> warning_state(tokens, window)
            != TokenWarningState::Normal,
        warning_state(tokens, window) != TokenWarningState::Normal ==> recommended_strategy(
            tokens,
            window,
        ) != CompactionStrategy::Nothing,
{
    if percent_reached(tokens, window, 95) {
        lemma_percent_reached_monotone(tokens, window, 90, 95);
    }
    if percent_reached(tokens, window, 90) {
        lemma_percent_reached_monotone(tokens, window, 80, 90);
    }
    if percent_reached(tokens, window, 80) {
        lemma_percent_reached_monotone(tokens, window, 75, 80);
    }
}

/// More tokens never lower the warning state.
pub proof fn lemma_warning_grows(fewer: nat, more: nat, window: nat)
    requires
        fewer <= more,
    ensures
        warning_state(fewer, window) == TokenWarningState::Critical ==> warning_state(more, window)
            == TokenWarningState::Critical,
        warning_state(fewer, window) == TokenWarningState::Warning ==> warning_state(more, window)
            != TokenWarningState::Normal,
{
}

} // verus!
