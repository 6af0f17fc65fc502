//! The hybrid transport, and the choice between transports.

use crate::text::{occurs_at, starts_with};
use crate::transport::stream::SseTransport;
use crate::transport::url::{parse_url, parsed_url, post_url, post_url_of, UrlError};
use crate::transport::websocket::WebSocketTransport;
use vstd::prelude::*;
use vstd::string::StringExecFns;

verus! {

/// Hybrid transport: WebSocket for reads, HTTP POST for writes.
#[derive(Debug)]
pub struct HybridTransport {
    pub ws_transport: WebSocketTransport,
    pub session_url: String,
    pub auth_token: String,
    /// How many posts failed.
    pub dropped_count: usize,
}

impl HybridTransport {
    /// A transport that was never connected.
    pub fn new(
        ws_url: String,
        session_url: String,
        auth_token: String,
        headers: Vec<(String, String)>,
    ) -> (r: HybridTransport)
        ensures
            r.ws_transport.url == ws_url,
            r.ws_transport.headers == headers,
            !r.ws_transport.connection.connected,
            r.ws_transport.connection.state is Idle,
            r.ws_transport.connection.reconnect_attempts == 0,
            r.ws_transport.connection.last_sequence_num == 0,
            r.session_url == session_url,
            r.auth_token == auth_token,
            r.dropped_count == 0,
    {
        HybridTransport {
            ws_transport: WebSocketTransport::new(ws_url, headers),
            session_url,
            auth_token,
            dropped_count: 0,
        }
    }

    /// The URL to post to, for a connection's URL.
    pub fn ws_url_to_post_url(ws_url: &str) -> (r: Result<String, UrlError>)
        ensures
            match parsed_url(ws_url@) {
                None => r matches Err(UrlError::Invalid(_)),
                Some(url) => match url.host {
                    None => r matches Err(UrlError::MissingHost),
                    Some(host) => r matches Ok(text) && text@ == post_url(url, host),
                },
            },
    {
        match parse_url(ws_url) {
            Ok(parts) => match post_url_of(&parts) {
                Some(text) => Ok(text),
                None => Err(UrlError::MissingHost),
            },
            Err(e) => Err(UrlError::Invalid(e)),
        }
    }

    /// The URL that this transport posts to: that for the events of its
    /// session.
    pub fn message_post_url(&self) -> (r: Result<String, UrlError>)
        ensures
            match parsed_url(self.session_url@ + "/events"@) {
                None => r matches Err(UrlError::Invalid(_)),
                Some(url) => match url.host {
                    None => r matches Err(UrlError::MissingHost),
                    Some(host) => r matches Ok(text) && text@ == post_url(url, host),
                },
            },
    {
        let mut url = self.session_url.clone();
        url.append("/events");
        HybridTransport::ws_url_to_post_url(url.as_str())
    }

    /// Records how a post went: failed ones are counted, from the start again
    /// after the largest number.
    pub fn record_post(&mut self, sent: bool)
        ensures
            *final(self) == (HybridTransport {
                dropped_count: if sent {
                    old(self).dropped_count
                } else if old(self).dropped_count == usize::MAX {
                    0
                } else {
                    (old(self).dropped_count + 1) as usize
                },
                ..*old(self)
            }),
    {
        if !sent {
            self.dropped_count = if self.dropped_count == usize::MAX {
                0
            } else {
                self.dropped_count + 1
            };
        }
    }
}

/// Transport type selection.
#[derive(Debug, Clone, Copy, PartialEq, Eq, Structural)]
pub enum TransportType {
    /// Pure WebSocket.
    WebSocket,
    /// Server-Sent Events (V2).
    Sse,
    /// Hybrid WebSocket reads + HTTP POST writes.
    Hybrid,
}

/// A transport of any type.
#[derive(Debug)]
pub enum AnyTransport {
    WebSocket(WebSocketTransport),
    Sse(SseTransport),
    Hybrid(HybridTransport),
}

/// Creates a transport. A hybrid one derives its session's URL from the same
/// URL that it connects to.
pub fn create_transport(
    transport_type: TransportType,
    url: String,
    auth_token: String,
    headers: Vec<(String, String)>,
) -> (r: AnyTransport)
    ensures
        match transport_type {
            TransportType::WebSocket => r matches AnyTransport::WebSocket(ws) && ws.url == url
                && ws.headers == headers && !ws.connection.connected && ws.connection.state is Idle
                && ws.connection.reconnect_attempts == 0 && ws.connection.last_sequence_num == 0,
            TransportType::Sse => r matches AnyTransport::Sse(sse) && sse.session_url == url
                && sse.auth_token == auth_token && !sse.connection.connected
                && sse.connection.state is Idle && sse.connection.reconnect_attempts == 0
                && sse.connection.last_sequence_num == 0,
            TransportType::Hybrid => r matches AnyTransport::Hybrid(hybrid)
                && hybrid.ws_transport.url@ == url@ && hybrid.ws_transport.headers == headers
                && !hybrid.ws_transport.connection.connected
                && hybrid.ws_transport.connection.state is Idle
                && hybrid.ws_transport.connection.reconnect_attempts == 0
                && hybrid.ws_transport.connection.last_sequence_num == 0 && hybrid.session_url
                == url && hybrid.auth_token == auth_token && hybrid.dropped_count == 0,
        },
{
    match transport_type {
        TransportType::WebSocket => AnyTransport::WebSocket(WebSocketTransport::new(url, headers)),
        TransportType::Sse => AnyTransport::Sse(SseTransport::new(url, auth_token)),
        TransportType::Hybrid => AnyTransport::Hybrid(
            HybridTransport::new(url.clone(), url, auth_token, headers),
        ),
    }
}

/// The transport type for a URL, and for two settings: one that asks for the
/// event stream, and one that asks for posts beside a WebSocket.
pub open spec fn transport_type_for(
    url: Seq<char>,
    use_event_stream: bool,
    post_beside_socket: bool,
) -> TransportType {
    if use_event_stream {
        TransportType::Sse
    } else if post_beside_socket && occurs_at(url, 0, "ws"@) {
        TransportType::Hybrid
    } else if !(occurs_at(url, 0, "ws://"@) || occurs_at(url, 0, "wss://"@)) && (occurs_at(
        url,
        0,
        "http://"@,
    ) || occurs_at(url, 0, "https://"@)) {
        TransportType::Sse
    } else {
        TransportType::WebSocket
    }
}

/// Selects the transport type for a URL and the two settings.
pub fn select_transport_type(url: &str, use_event_stream: bool, post_beside_socket: bool) -> (r:
    TransportType)
    ensures
        r == transport_type_for(url@, use_event_stream, post_beside_socket),
{
    if use_event_stream {
        return TransportType::Sse;
    }
    if post_beside_socket && starts_with(url, "ws") {
        return TransportType::Hybrid;
    }
    if starts_with(url, "ws://") || starts_with(url, "wss://") {
        TransportType::WebSocket
    } else if starts_with(url, "http://") || starts_with(url, "https://") {
        TransportType::Sse
    } else {
        TransportType::WebSocket
    }
}

} // verus!
