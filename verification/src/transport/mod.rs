//! Transports between a session and its remote end.

pub mod connection;
pub mod error;
pub mod factory;
pub mod laws;
pub mod ndjson;
pub mod sse;
pub mod sse_laws;
pub mod stream;
pub mod url;
pub mod websocket;

pub use connection::{
    find_sse_final_code, find_ws_final_code, Connection, LoopStart, LoopVerdict, TransportState, PERMANENT_CLOSE_CODES,
};
pub use error::TransportError;
pub use factory::{
    create_transport, select_transport_type, AnyTransport, HybridTransport, TransportType,
};
pub use ndjson::{
    document_line, event_body, event_envelope, message_body, message_line, to_ndjson,
};
pub use sse::{parse_sse_frames, SseFrame};
pub use stream::{check_status, SseEvent, SseReaction, SseTransport, StreamRequest, LIVENESS_TIMEOUT_MS};
pub use url::{post_url_of, UrlError, UrlParts};
pub use websocket::{
    checked_headers, react, WebSocketTransport, WsEvent, WsReaction, KEEPALIVE_INTERVAL_MS,
    KEEP_ALIVE_FRAME, PING_INTERVAL_MS,
};
