//! The state of a connection, and when to connect again.

use crate::transport::error::{TransportError, TransportErrorModel};
use vstd::arithmetic::power2::pow2;
use vstd::prelude::*;

verus! {

/// The delay before the first reconnection.
pub const BASE_RECONNECT_DELAY_MS: u64 = 1000;

/// The longest delay before a reconnection.
pub const MAX_RECONNECT_DELAY_MS: u64 = 30_000;

/// After how long connecting is given up.
pub const RECONNECT_GIVE_UP_MS: u64 = 600_000;

/// A delay above this counts as the machine having slept.
pub const SLEEP_DETECTION_THRESHOLD_MS: u64 = 60_000;

/// After so many doublings the delay grows no more.
pub const MAX_DOUBLINGS: u32 = 5;

/// Close codes that are permanent (no retry).
pub const PERMANENT_CLOSE_CODES: [u16; 3] = [1002, 4001, 4003];

/// The close code for a session that does not exist.
pub const CLOSE_SESSION_NOT_FOUND: u16 = 4001;

/// The close code for failed authentication.
pub const CLOSE_AUTH_FAILED: u16 = 4003;

/// Where a transport stands.
#[derive(Debug, Clone, Copy, PartialEq, Eq, Structural)]
pub enum TransportState {
    Idle,
    Connected,
    Reconnecting,
    Closing,
    Closed,
}

impl TransportState {
    /// The state in a word.
    pub fn label(&self) -> (r: &'static str)
        ensures
            r@ == (match *self {
                TransportState::Idle => "idle"@,
                TransportState::Connected => "connected"@,
                TransportState::Reconnecting => "reconnecting"@,
                TransportState::Closing => "closing"@,
                TransportState::Closed => "closed"@,
            }),
    {
        match self {
            TransportState::Idle => "idle",
            TransportState::Connected => "connected",
            TransportState::Reconnecting => "reconnecting",
            TransportState::Closing => "closing",
            TransportState::Closed => "closed",
        }
    }
}

/// The state of a connection.
#[derive(Debug, Clone, Copy, PartialEq, Eq, Structural)]
pub struct Connection {
    pub connected: bool,
    pub state: TransportState,
    pub reconnect_attempts: u32,
    pub last_sequence_num: u64,
}

/// What to do before connecting.
#[derive(Debug, Clone, Copy, PartialEq, Eq, Structural)]
pub enum LoopStart {
    /// Stop: the loop was cancelled.
    Stop,
    /// Report the close code and stop: it took too long.
    GiveUp { code: u16 },
    /// Connect.
    Connect,
}

/// What to do after a connection has ended.
#[derive(Debug, Clone, Copy, PartialEq, Eq, Structural)]
pub enum LoopVerdict {
    /// Stop.
    Stop,
    /// Report the close code and stop.
    Close { code: u16 },
    /// Connect again after the delay.
    Retry { delay_ms: u64 },
}

/// The delay before the reconnection of so many attempts: it doubles from
/// attempt to attempt, up to a limit.
pub open spec fn backoff_ms(attempts: nat) -> nat {
    let doublings = if attempts == 0 {
        0
    } else if attempts - 1 < MAX_DOUBLINGS {
        (attempts - 1) as nat
    } else {
        MAX_DOUBLINGS as nat
    };
    let delay = BASE_RECONNECT_DELAY_MS as nat * pow2(doublings);
    if delay < MAX_RECONNECT_DELAY_MS {
        delay
    } else {
        MAX_RECONNECT_DELAY_MS as nat
    }
}

/// The powers of two that the delay goes through.
pub proof fn lemma_small_powers()
    ensures
        pow2(0) == 1,
        pow2(1) == 2,
        pow2(2) == 4,
        pow2(3) == 8,
        pow2(4) == 16,
        pow2(5) == 32,
{
    vstd::arithmetic::power2::lemma2_to64();
}

/// The delay lies between the first and the longest one, does not shrink from
/// attempt to attempt, and never counts as sleep.
pub proof fn lemma_backoff_bounds(fewer: nat, more: nat)
    requires
        fewer <= more,
    ensures
        BASE_RECONNECT_DELAY_MS <= backoff_ms(fewer) <= backoff_ms(more) <= MAX_RECONNECT_DELAY_MS,
        backoff_ms(more) <= SLEEP_DETECTION_THRESHOLD_MS,
{
    lemma_small_powers();
    assert(fewer == 0 || fewer == 1 || fewer == 2 || fewer == 3 || fewer == 4 || fewer == 5
        || fewer >= 6);
    assert(more == 0 || more == 1 || more == 2 || more == 3 || more == 4 || more == 5 || more >= 6);
}

fn calculate_backoff_ms(attempts: u32) -> (r: u64)
    ensures
        r == backoff_ms(attempts as nat),
{
    let before: u32 = if attempts == 0 {
        0
    } else {
        attempts - 1
    };
    let doublings: u32 = if before < MAX_DOUBLINGS {
        before
    } else {
        MAX_DOUBLINGS
    };
    proof {
        lemma_small_powers();
    }
    let mut delay: u64 = BASE_RECONNECT_DELAY_MS;
    let mut i: u32 = 0;
    while i < doublings
        invariant
            i <= doublings <= MAX_DOUBLINGS,
            delay == BASE_RECONNECT_DELAY_MS * pow2(i as nat),
            delay <= 32_000,
            pow2(0) == 1,
            pow2(1) == 2,
            pow2(2) == 4,
            pow2(3) == 8,
            pow2(4) == 16,
            pow2(5) == 32,
        decreases doublings - i,
    {
        proof {
            assert(i == 0 || i == 1 || i == 2 || i == 3 || i == 4);
        }
        delay = delay * 2;
        i += 1;
    }
    if delay < MAX_RECONNECT_DELAY_MS {
        delay
    } else {
        MAX_RECONNECT_DELAY_MS
    }
}

/// The close code of a WebSocket error that ends all attempts; none where the
/// error is worth another one.
pub open spec fn ws_final_code(e: TransportErrorModel) -> Option<u16> {
    match e {
        TransportErrorModel::Closed { code, reason } => if PERMANENT_CLOSE_CODES@.contains(code) {
            Some(code)
        } else {
            None
        },
        TransportErrorModel::AuthFailed => Some(CLOSE_AUTH_FAILED),
        _ => None,
    }
}

/// The close code of an event stream error that ends all attempts; none where
/// the error is worth another one.
pub open spec fn sse_final_code(e: TransportErrorModel) -> Option<u16> {
    match e {
        TransportErrorModel::Http { status } => if status == 401 || status == 403 {
            Some(CLOSE_AUTH_FAILED)
        } else if status == 404 {
            Some(CLOSE_SESSION_NOT_FOUND)
        } else {
            None
        },
        _ => None,
    }
}

fn is_permanent(code: u16) -> (r: bool)
    ensures
        r == PERMANENT_CLOSE_CODES@.contains(code),
{
    let codes = PERMANENT_CLOSE_CODES;
    let mut i: usize = 0;
    while i < 3
        invariant
            i <= 3,
            codes@ == PERMANENT_CLOSE_CODES@,
            codes@.len() == 3,
            forall|k: int| 0 <= k < i ==> #[trigger] codes@[k] != code,
        decreases 3 - i,
    {
        if codes[i] == code {
            assert(PERMANENT_CLOSE_CODES@[i as int] == code);
            return true;
        }
        i += 1;
    }
    false
}

/// Finds the close code of a WebSocket error that ends all attempts.
pub fn find_ws_final_code(e: &TransportError) -> (r: Option<u16>)
    ensures
        r == ws_final_code(e@),
{
    match e {
        TransportError::Closed { code, reason } => if is_permanent(*code) {
            Some(*code)
        } else {
            None
        },
        TransportError::AuthFailed => Some(CLOSE_AUTH_FAILED),
        _ => None,
    }
}

/// Finds the close code of an event stream error that ends all attempts.
pub fn find_sse_final_code(e: &TransportError) -> (r: Option<u16>)
    ensures
        r == sse_final_code(e@),
{
    match e {
        TransportError::Http { status } => if *status == 401 || *status == 403 {
            Some(CLOSE_AUTH_FAILED)
        } else if *status == 404 {
            Some(CLOSE_SESSION_NOT_FOUND)
        } else {
            None
        },
        _ => None,
    }
}

impl Connection {
    /// The connection after its loss, when it is to be made again.
    pub open spec fn reconnecting(self) -> Connection {
        Connection {
            state: TransportState::Reconnecting,
            reconnect_attempts: (self.reconnect_attempts + 1) as u32,
            ..self
        }
    }

    /// A connection that was never made.
    pub fn new() -> (r: Connection)
        ensures
            r == (Connection {
                connected: false,
                state: TransportState::Idle,
                reconnect_attempts: 0,
                last_sequence_num: 0,
            }),
    {
        Connection {
            connected: false,
            state: TransportState::Idle,
            reconnect_attempts: 0,
            last_sequence_num: 0,
        }
    }

    /// Starts over. The last sequence number stays, so that the stream can be
    /// resumed.
    pub fn reset_state(&mut self)
        ensures
            *final(self) == (Connection {
                connected: false,
                state: TransportState::Idle,
                reconnect_attempts: 0,
                ..*old(self)
            }),
    {
        self.connected = false;
        self.state = TransportState::Idle;
        self.reconnect_attempts = 0;
    }

    /// Records that the connection is made.
    pub fn on_connected(&mut self)
        ensures
            *final(self) == (Connection {
                connected: true,
                state: TransportState::Connected,
                reconnect_attempts: 0,
                ..*old(self)
            }),
    {
        self.connected = true;
        self.state = TransportState::Connected;
        self.reconnect_attempts = 0;
    }

    /// Records that the connection is to be closed.
    pub fn close(&mut self)
        ensures
            *final(self) == (Connection { state: TransportState::Closing, ..*old(self) }),
    {
        self.state = TransportState::Closing;
    }

    /// Records that the connection is closed for good.
    pub fn trigger_close(&mut self)
        ensures
            *final(self) == (Connection { connected: false, ..*old(self) }),
    {
        self.connected = false;
    }

    /// Decides whether to connect, so long after the loop began.
    pub fn before_run(&mut self, cancelled: bool, elapsed_nanos: u128) -> (r: LoopStart)
        ensures
            r == (if cancelled {
                LoopStart::Stop
            } else if elapsed_nanos > RECONNECT_GIVE_UP_MS * 1_000_000 {
                LoopStart::GiveUp { code: 0 }
            } else {
                LoopStart::Connect
            }),
            *final(self) == (if r is GiveUp {
                Connection { connected: false, ..*old(self) }
            } else {
                *old(self)
            }),
    {
        if cancelled {
            LoopStart::Stop
        } else if elapsed_nanos > RECONNECT_GIVE_UP_MS as u128 * 1_000_000 {
            self.trigger_close();
            LoopStart::GiveUp { code: 0 }
        } else {
            LoopStart::Connect
        }
    }

    /// What follows the end of a connection, by the close code that ends all
    /// attempts, where there is one: `None` for a normal end, `Some(None)` for
    /// an error that is worth another attempt.
    pub open spec fn verdict(self, failure: Option<Option<u16>>) -> LoopVerdict {
        match failure {
            None => LoopVerdict::Stop,
            Some(Some(code)) => LoopVerdict::Close { code },
            Some(None) => LoopVerdict::Retry {
                delay_ms: backoff_ms((self.reconnect_attempts + 1) as nat) as u64,
            },
        }
    }

    /// The connection after its end.
    pub open spec fn after_end(self, failure: Option<Option<u16>>) -> Connection {
        match failure {
            None => self,
            Some(Some(code)) => Connection { connected: false, ..self },
            Some(None) => self.reconnecting(),
        }
    }

    /// Decides what follows the end of a connection.
    pub fn after_run(&mut self, failure: Option<Option<u16>>) -> (r: LoopVerdict)
        requires
            failure == Some(None::<u16>) ==> old(self).reconnect_attempts < u32::MAX,
        ensures
            r == old(self).verdict(failure),
            *final(self) == old(self).after_end(failure),
    {
        match failure {
            None => LoopVerdict::Stop,
            Some(Some(code)) => {
                self.trigger_close();
                LoopVerdict::Close { code }
            },
            Some(None) => {
                self.reconnect_attempts = self.reconnect_attempts + 1;
                self.state = TransportState::Reconnecting;
                let delay_ms: u64 = calculate_backoff_ms(self.reconnect_attempts);
                proof {
                    lemma_backoff_bounds(
                        self.reconnect_attempts as nat,
                        self.reconnect_attempts as nat,
                    );
                }
                if delay_ms > SLEEP_DETECTION_THRESHOLD_MS {
                    self.reconnect_attempts = 0;
                }
                LoopVerdict::Retry { delay_ms }
            },
        }
    }
}

/// Only a permanent close code or failed authentication ends the attempts of
/// a WebSocket; any other error is retried after a bounded delay.
pub proof fn lemma_ws_gives_up_only_for_good(connection: Connection, e: TransportErrorModel)
    ensures
        match connection.verdict(Some(ws_final_code(e))) {
            LoopVerdict::Close { code } => match e {
                TransportErrorModel::Closed { code: c, reason } => code == c && (c == 1002 || c
                    == 4001 || c == 4003),
                TransportErrorModel::AuthFailed => code == 4003,
                _ => false,
            },
            LoopVerdict::Retry { delay_ms } => BASE_RECONNECT_DELAY_MS <= delay_ms
                <= MAX_RECONNECT_DELAY_MS && !(e is AuthFailed) && !(e matches
                TransportErrorModel::Closed { code: c, reason } && (c == 1002 || c == 4001 || c
                == 4003)),
            LoopVerdict::Stop => false,
        },
{
    let attempts = (connection.reconnect_attempts + 1) as nat;
    lemma_backoff_bounds(attempts, attempts);
    let codes = PERMANENT_CLOSE_CODES@;
    assert(codes[0] == 1002 && codes[1] == 4001 && codes[2] == 4003);
    assert(codes.len() == 3);
}

/// Only an answer that denies access or does not find the session ends the
/// attempts of an event stream; any other error is retried after a bounded
/// delay.
pub proof fn lemma_sse_gives_up_only_for_good(connection: Connection, e: TransportErrorModel)
    ensures
        match connection.verdict(Some(sse_final_code(e))) {
            LoopVerdict::Close { code } => match e {
                TransportErrorModel::Http { status } => (code == 4003 && (status == 401 || status
                    == 403)) || (code == 4001 && status == 404),
                _ => false,
            },
            LoopVerdict::Retry { delay_ms } => BASE_RECONNECT_DELAY_MS <= delay_ms
                <= MAX_RECONNECT_DELAY_MS && !(e matches TransportErrorModel::Http { status } && (
            status == 401 || status == 403 || status == 404)),
            LoopVerdict::Stop => false,
        },
{
    let attempts = (connection.reconnect_attempts + 1) as nat;
    lemma_backoff_bounds(attempts, attempts);
}

/// However a connection ends, the last sequence number stays, so that the
/// next one resumes there.
pub proof fn lemma_sequence_survives(connection: Connection, failure: Option<Option<u16>>)
    ensures
        connection.after_end(failure).last_sequence_num == connection.last_sequence_num,
{
}

} // verus!
