//! How full the context window is.

use crate::compact::threshold::{
    AUTOCOMPACT_TRIGGER_PERCENT, CRITICAL_THRESHOLD_PERCENT, WARNING_THRESHOLD_PERCENT,
};
use crate::fraction::{share_reached, Fraction};
use vstd::prelude::*;

verus! {

/// How urgently the context window fills up.
#[derive(Debug, Clone, Copy, PartialEq, Eq, Structural)]
pub enum TokenWarningLevel {
    /// No warning.
    Normal,
    /// The window is filling up.
    Warning,
    /// The window is nearly full.
    Critical,
}

/// The state of the context window.
#[derive(Debug, Clone, Copy)]
pub struct TokenBudget {
    /// Tokens in use.
    pub tokens_used: u64,
    /// Context window size.
    pub context_window: u64,
    /// Tokens left.
    pub tokens_remaining: u64,
    /// Share of the window in use; nothing where there is no window.
    pub fill_fraction: Fraction,
}

/// The state of a window with so many tokens in use.
pub open spec fn budget_of(tokens_used: u64, context_window: u64) -> TokenBudget {
    TokenBudget {
        tokens_used,
        context_window,
        tokens_remaining: if tokens_used <= context_window {
            (context_window - tokens_used) as u64
        } else {
            0
        },
        fill_fraction: Fraction::share_of(tokens_used, context_window),
    }
}

impl TokenBudget {
    /// Whether the window is full to so many percent.
    pub open spec fn filled_to(self, percent: nat) -> bool {
        share_reached(self.fill_fraction.num(), self.fill_fraction.den(), percent, 100)
    }

    /// The warning level of the window: each level begins at its threshold.
    pub open spec fn level(self) -> TokenWarningLevel {
        if self.filled_to(CRITICAL_THRESHOLD_PERCENT as nat) {
            TokenWarningLevel::Critical
        } else if self.filled_to(WARNING_THRESHOLD_PERCENT as nat) {
            TokenWarningLevel::Warning
        } else {
            TokenWarningLevel::Normal
        }
    }

    /// The state of a window with so many tokens in use.
    pub fn new(tokens_used: u64, context_window: u64) -> (r: TokenBudget)
        ensures
            r == budget_of(tokens_used, context_window),
    {
        TokenBudget {
            tokens_used,
            context_window,
            tokens_remaining: context_window.saturating_sub(tokens_used),
            fill_fraction: Fraction::share(tokens_used, context_window),
        }
    }

    /// The warning level of the window.
    pub fn warning_level(&self) -> (r: TokenWarningLevel)
        ensures
            r == self.level(),
    {
        if self.fill_fraction.at_least(&Fraction::percent(CRITICAL_THRESHOLD_PERCENT)) {
            TokenWarningLevel::Critical
        } else if self.fill_fraction.at_least(&Fraction::percent(WARNING_THRESHOLD_PERCENT)) {
            TokenWarningLevel::Warning
        } else {
            TokenWarningLevel::Normal
        }
    }

    /// Whether the window is so full that the conversation should be
    /// compacted.
    pub fn compaction_due(&self) -> (r: bool)
        ensures
            r == self.filled_to(AUTOCOMPACT_TRIGGER_PERCENT as nat),
    {
        self.fill_fraction.at_least(&Fraction::percent(AUTOCOMPACT_TRIGGER_PERCENT))
    }
}

} // verus!
