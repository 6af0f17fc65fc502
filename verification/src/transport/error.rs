//! Transport errors.

use crate::text::{decimal, push_decimal};
use vstd::prelude::*;
use vstd::string::StringExecFns;

verus! {

/// What can go wrong with a connection.
#[derive(Debug)]
pub enum TransportError {
    WebSocket(String),
    Closed { code: u16, reason: String },
    AuthFailed,
    SessionExpired,
    MaxReconnectsExceeded,
    GiveUp(u64),
    Http { status: u16 },
    Timeout,
    Other(String),
}

/// The model of a transport error.
pub enum TransportErrorModel {
    WebSocket(Seq<char>),
    Closed { code: u16, reason: Seq<char> },
    AuthFailed,
    SessionExpired,
    MaxReconnectsExceeded,
    GiveUp(u64),
    Http { status: u16 },
    Timeout,
    Other(Seq<char>),
}

impl View for TransportError {
    type V = TransportErrorModel;

    open spec fn view(&self) -> TransportErrorModel {
        match self {
            TransportError::WebSocket(text) => TransportErrorModel::WebSocket(text@),
            TransportError::Closed { code, reason } => TransportErrorModel::Closed {
                code: *code,
                reason: reason@,
            },
            TransportError::AuthFailed => TransportErrorModel::AuthFailed,
            TransportError::SessionExpired => TransportErrorModel::SessionExpired,
            TransportError::MaxReconnectsExceeded => TransportErrorModel::MaxReconnectsExceeded,
            TransportError::GiveUp(ms) => TransportErrorModel::GiveUp(*ms),
            TransportError::Http { status } => TransportErrorModel::Http { status: *status },
            TransportError::Timeout => TransportErrorModel::Timeout,
            TransportError::Other(text) => TransportErrorModel::Other(text@),
        }
    }
}

/// An error in words.
pub open spec fn error_text(e: TransportErrorModel) -> Seq<char> {
    match e {
        TransportErrorModel::WebSocket(text) => "WebSocket error: "@ + text,
        TransportErrorModel::Closed { code, reason } => "Connection closed (code: "@ + decimal(
            code as nat,
        ) + ", reason: "@ + reason + ")"@,
        TransportErrorModel::AuthFailed => "Authentication failed"@,
        TransportErrorModel::SessionExpired => "Session expired or not found"@,
        TransportErrorModel::MaxReconnectsExceeded => "Max reconnection attempts exceeded"@,
        TransportErrorModel::GiveUp(ms) => "Give up after "@ + decimal(ms as nat) + "ms"@,
        TransportErrorModel::Http { status } => "HTTP error: "@ + decimal(status as nat),
        TransportErrorModel::Timeout => "Timeout"@,
        TransportErrorModel::Other(text) => text,
    }
}

impl TransportError {
    /// The error in words.
    pub fn describe(&self) -> (r: String)
        ensures
            r@ == error_text(self@),
    {
        match self {
            TransportError::WebSocket(text) => {
                let mut out = "WebSocket error: ".to_owned();
                out.append(text.as_str());
                out
            },
            TransportError::Closed { code, reason } => {
                let mut out = "Connection closed (code: ".to_owned();
                push_decimal(&mut out, *code as u64);
                out.append(", reason: ");
                out.append(reason.as_str());
                out.append(")");
                out
            },
            TransportError::AuthFailed => "Authentication failed".to_owned(),
            TransportError::SessionExpired => "Session expired or not found".to_owned(),
            TransportError::MaxReconnectsExceeded => {
                "Max reconnection attempts exceeded".to_owned()
            },
            TransportError::GiveUp(ms) => {
                let mut out = "Give up after ".to_owned();
                push_decimal(&mut out, *ms);
                out.append("ms");
                out
            },
            TransportError::Http { status } => {
                let mut out = "HTTP error: ".to_owned();
                push_decimal(&mut out, *status as u64);
                out
            },
            TransportError::Timeout => "Timeout".to_owned(),
            TransportError::Other(text) => text.clone(),
        }
    }
}

} // verus!
