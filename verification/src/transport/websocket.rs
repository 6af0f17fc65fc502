//! The WebSocket transport.

use crate::text::utf8_text;
use crate::transport::connection::{
    find_ws_final_code, ws_final_code, Connection, LoopVerdict, TransportState,
};
use crate::transport::error::{TransportError, TransportErrorModel};
use crate::transport::ndjson::{ndjson, to_ndjson};
use crate::transport::url::{
    describe_url_error, find_headers_fault, headers_fault, parse_url, parsed_url, url_error_text,
    HeaderFault,
};
use vstd::prelude::*;
use vstd::utf8::{decode_utf8, valid_utf8};

verus! {

/// The frame that keeps a connection alive.
pub const KEEP_ALIVE_FRAME: &'static str = "{\"type\":\"keep_alive\"}";

/// Time between pings.
pub const PING_INTERVAL_MS: u64 = 10_000;

/// Time between keepalive frames.
pub const KEEPALIVE_INTERVAL_MS: u64 = 300_000;

/// The close code where the other end names none.
pub const CLOSE_NORMAL: u16 = 1000;

/// The close code where the stream just ends.
pub const CLOSE_GOING_AWAY: u16 = 1001;

/// The WebSocket transport's own state.
#[derive(Debug)]
pub struct WebSocketTransport {
    pub url: String,
    pub headers: Vec<(String, String)>,
    pub connection: Connection,
}

/// What happens on an open WebSocket.
#[derive(Debug)]
pub enum WsEvent {
    /// A text arrived.
    Text(String),
    /// Bytes arrived.
    Binary(Vec<u8>),
    /// The other end closed the connection, perhaps with a code and a reason.
    Close(Option<(u16, String)>),
    /// A raw frame, a ping or a pong arrived.
    Control,
    /// Reading failed.
    ReadFailed(String),
    /// The stream ended.
    Ended,
    /// A message is to be sent; it is this JSON text.
    Outgoing(String),
    /// A message is to be sent, but there is no JSON text for it.
    Unserializable,
    /// It is time for a keepalive frame.
    KeepAliveDue,
    /// It is time for a ping.
    PingDue,
    /// Sending failed.
    SendFailed(String),
}

/// What to do about it.
#[derive(Debug)]
pub enum WsReaction {
    /// Nothing.
    Wait,
    /// Hand the text over as a message.
    Deliver(String),
    /// Send the text.
    Send(String),
    /// Send a ping.
    SendPing,
    /// Leave the connection with an error.
    Leave(TransportError),
}

/// The model of what to do.
pub enum WsReactionModel {
    Wait,
    Deliver(Seq<char>),
    Send(Seq<char>),
    SendPing,
    Leave(TransportErrorModel),
}

impl View for WsReaction {
    type V = WsReactionModel;

    open spec fn view(&self) -> WsReactionModel {
        match self {
            WsReaction::Wait => WsReactionModel::Wait,
            WsReaction::Deliver(text) => WsReactionModel::Deliver(text@),
            WsReaction::Send(text) => WsReactionModel::Send(text@),
            WsReaction::SendPing => WsReactionModel::SendPing,
            WsReaction::Leave(e) => WsReactionModel::Leave(e@),
        }
    }
}

/// What to do about an event on an open WebSocket.
pub open spec fn ws_reaction(event: WsEvent) -> WsReactionModel {
    match event {
        WsEvent::Text(text) => WsReactionModel::Deliver(text@),
        WsEvent::Binary(bytes) => if valid_utf8(bytes@) {
            WsReactionModel::Deliver(decode_utf8(bytes@))
        } else {
            WsReactionModel::Wait
        },
        WsEvent::Close(Some((code, reason))) => WsReactionModel::Leave(
            TransportErrorModel::Closed { code, reason: reason@ },
        ),
        WsEvent::Close(None) => WsReactionModel::Leave(
            TransportErrorModel::Closed { code: CLOSE_NORMAL, reason: Seq::empty() },
        ),
        WsEvent::Control => WsReactionModel::Wait,
        WsEvent::ReadFailed(text) => WsReactionModel::Leave(
            TransportErrorModel::WebSocket(text@),
        ),
        WsEvent::Ended => WsReactionModel::Leave(
            TransportErrorModel::Closed { code: CLOSE_GOING_AWAY, reason: "Stream ended"@ },
        ),
        WsEvent::Outgoing(json) => WsReactionModel::Send(ndjson(json@)),
        WsEvent::Unserializable => WsReactionModel::Wait,
        WsEvent::KeepAliveDue => WsReactionModel::Send(KEEP_ALIVE_FRAME@),
        WsEvent::PingDue => WsReactionModel::SendPing,
        WsEvent::SendFailed(text) => WsReactionModel::Leave(
            TransportErrorModel::WebSocket(text@),
        ),
    }
}

/// Decides what to do about an event on an open WebSocket.
pub fn react(event: WsEvent) -> (r: WsReaction)
    ensures
        r@ == ws_reaction(event),
{
    match event {
        WsEvent::Text(text) => WsReaction::Deliver(text),
        WsEvent::Binary(bytes) => match utf8_text(bytes) {
            Some(text) => WsReaction::Deliver(text),
            None => WsReaction::Wait,
        },
        WsEvent::Close(frame) => match frame {
            Some((code, reason)) => WsReaction::Leave(TransportError::Closed { code, reason }),
            None => WsReaction::Leave(
                TransportError::Closed { code: CLOSE_NORMAL, reason: String::new() },
            ),
        },
        WsEvent::Control => WsReaction::Wait,
        WsEvent::ReadFailed(text) => WsReaction::Leave(TransportError::WebSocket(text)),
        WsEvent::Ended => WsReaction::Leave(
            TransportError::Closed { code: CLOSE_GOING_AWAY, reason: "Stream ended".to_owned() },
        ),
        WsEvent::Outgoing(json) => WsReaction::Send(to_ndjson(json.as_str())),
        WsEvent::Unserializable => WsReaction::Wait,
        WsEvent::KeepAliveDue => WsReaction::Send(KEEP_ALIVE_FRAME.to_owned()),
        WsEvent::PingDue => WsReaction::SendPing,
        WsEvent::SendFailed(text) => WsReaction::Leave(TransportError::WebSocket(text)),
    }
}

/// The end of a connection as the loop sees it: nothing for a normal end, else
/// the close code that ends all attempts, where the error has one.
pub open spec fn ws_failure(outcome: Result<(), TransportError>) -> Option<Option<u16>> {
    match outcome {
        Ok(_) => None,
        Err(e) => Some(ws_final_code(e@)),
    }
}

/// The headers to send with the request that opens a connection, in the order
/// they are set. It fails where one is faulty.
pub fn checked_headers(headers: &Vec<(String, String)>) -> (r: Result<
    Vec<(String, String)>,
    TransportError,
>)
    ensures
        match headers_fault(headers@) {
            None => r matches Ok(sent) && sent@.len() == headers@.len() && forall|i: int|
                0 <= i < headers@.len() ==> (#[trigger] sent@[i]).0@ == headers@[i].0@
                    && sent@[i].1@ == headers@[i].1@,
            Some(HeaderFault::Name) => r matches Err(e) && e@ == TransportErrorModel::WebSocket(
                "Invalid header name"@,
            ),
            Some(HeaderFault::Value) => r matches Err(e) && e@ == TransportErrorModel::WebSocket(
                "Invalid header value"@,
            ),
        },
{
    match find_headers_fault(headers) {
        Some(HeaderFault::Name) => Err(
            TransportError::WebSocket("Invalid header name".to_owned()),
        ),
        Some(HeaderFault::Value) => Err(
            TransportError::WebSocket("Invalid header value".to_owned()),
        ),
        None => Ok(copy_headers(headers)),
    }
}

fn copy_headers(headers: &Vec<(String, String)>) -> (r: Vec<(String, String)>)
    ensures
        r@.len() == headers@.len(),
        forall|i: int|
            0 <= i < headers@.len() ==> (#[trigger] r@[i]).0@ == headers@[i].0@ && r@[i].1@
                == headers@[i].1@,
{
    let mut r: Vec<(String, String)> = Vec::new();
    let mut i: usize = 0;
    while i < headers.len()
        invariant
            i <= headers.len(),
            r@.len() == i,
            forall|k: int|
                0 <= k < i ==> (#[trigger] r@[k]).0@ == headers@[k].0@ && r@[k].1@
                    == headers@[k].1@,
        decreases headers.len() - i,
    {
        r.push((headers[i].0.clone(), headers[i].1.clone()));
        i += 1;
    }
    r
}

impl WebSocketTransport {
    /// A transport that was never connected.
    pub fn new(url: String, headers: Vec<(String, String)>) -> (r: WebSocketTransport)
        ensures
            r.url == url,
            r.headers == headers,
            r.connection == (Connection {
                connected: false,
                state: TransportState::Idle,
                reconnect_attempts: 0,
                last_sequence_num: 0,
            }),
    {
        WebSocketTransport { url, headers, connection: Connection::new() }
    }

    /// The URL to connect to, normalized. It fails where the URL is none, with
    /// the URL's error in words.
    pub fn connect_url(&self) -> (r: Result<String, TransportError>)
        ensures
            match parsed_url(self.url@) {
                None => r matches Err(e) && url_error_text(self.url@) matches Some(text) && e@
                    == TransportErrorModel::Other(text),
                Some(url) => r matches Ok(href) && href@ == url.href,
            },
    {
        match parse_url(self.url.as_str()) {
            Ok(parts) => Ok(parts.href),
            Err(_) => Err(TransportError::Other(describe_url_error(self.url.as_str()).unwrap())),
        }
    }

    /// Decides what follows the end of a connection.
    pub fn after_run(&mut self, outcome: &Result<(), TransportError>) -> (r: LoopVerdict)
        requires
            ws_failure(*outcome) == Some(None::<u16>) ==> old(self).connection.reconnect_attempts
                < u32::MAX,
        ensures
            r == old(self).connection.verdict(ws_failure(*outcome)),
            *final(self) == (WebSocketTransport {
                connection: old(self).connection.after_end(ws_failure(*outcome)),
                ..*old(self)
            }),
    {
        let failure = match outcome {
            Ok(_) => None,
            Err(e) => Some(find_ws_final_code(e)),
        };
        self.connection.after_run(failure)
    }
}

} // verus!
