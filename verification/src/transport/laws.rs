//! What holds of the transports.

use crate::json::{json_member, JsonText};
use crate::seqs::lemma_joined_add;
use crate::text::{decimal, number_in, occurs_at, replaced_from, signed_decimal};
use crate::text_laws::lemma_joined_one;
use crate::transport::connection::{
    backoff_ms, lemma_backoff_bounds, lemma_small_powers, Connection, LoopVerdict, TransportState,
    PERMANENT_CLOSE_CODES, RECONNECT_GIVE_UP_MS,
};
use crate::transport::error::{error_text, TransportError, TransportErrorModel};
use crate::transport::factory::{transport_type_for, TransportType};
use crate::transport::ndjson::{envelope, escaped_char, escaped_chars, ndjson};
use crate::transport::sse::{
    frames_view, open_line, read_lines, sse_frames, FrameModel, SseFrame,
};
use crate::transport::sse_laws::lemma_frames_concat;
use crate::transport::stream::{
    chunk_text, documents_view, payload_in, payloads, sequence_after, sequence_after_all,
    sse_failure, sse_reaction, SseEvent, SseReactionModel, LIVENESS_TIMEOUT_MS,
};
use crate::transport::url::{
    header_fault, header_name, header_value, headers_fault, post_url, token_char, HeaderFault,
    UrlModel,
};
use crate::transport::websocket::{
    ws_failure, ws_reaction, WsEvent, WsReactionModel, KEEPALIVE_INTERVAL_MS, PING_INTERVAL_MS,
};
use vstd::prelude::*;
use vstd::utf8::{decode_utf8, valid_utf8};

verus! {

/// Every frame whose data has a payload is delivered, in order: the payloads
/// of two runs of frames are those of the first and then those of the second,
/// and one frame gives its own payload or none.
pub proof fn lemma_payloads_add(a: Seq<FrameModel>, b: Seq<FrameModel>, f: FrameModel)
    ensures
        payloads(a + b) == payloads(a) + payloads(b),
        match f.data {
            Some(text) => match json_member(text, "payload"@) {
                Some(payload) => payloads(seq![f]) == seq![payload],
                None => payloads(seq![f]).len() == 0,
            },
            None => payloads(seq![f]).len() == 0,
        },
        payloads(Seq::empty()).len() == 0,
    decreases b.len(),
{
    if b.len() == 0 {
        assert(a + b =~= a);
        assert(payloads(a) + payloads(b) =~= payloads(a));
    } else {
        lemma_payloads_add(a, b.drop_last(), f);
        assert((a + b).drop_last() =~= a + b.drop_last());
        assert(payloads(a + b) =~= payloads(a) + payloads(b));
    }
    reveal_with_fuel(payloads, 2);
    assert(seq![f].drop_last() =~= Seq::<FrameModel>::empty());
    assert(payload_in(f.data) is Some ==> payloads(seq![f]) =~= seq![payload_in(f.data)->0]);
}

/// The sequence number after two runs of frames is that after the second, from
/// where the first left it; one frame sets it where its id is a number.
pub proof fn lemma_sequence_adds(last: u64, a: Seq<FrameModel>, b: Seq<FrameModel>, f: FrameModel)
    ensures
        sequence_after_all(last, a + b) == sequence_after_all(sequence_after_all(last, a), b),
        sequence_after_all(last, Seq::empty()) == last,
        match f.id {
            Some(id) => match number_in(id) {
                Some(n) => sequence_after_all(last, seq![f]) == n,
                None => sequence_after_all(last, seq![f]) == last,
            },
            None => sequence_after_all(last, seq![f]) == last,
        },
    decreases b.len(),
{
    if b.len() == 0 {
        assert(a + b =~= a);
    } else {
        lemma_sequence_adds(last, a, b.drop_last(), f);
        assert((a + b).drop_last() =~= a + b.drop_last());
    }
    reveal_with_fuel(sequence_after_all, 2);
    assert(seq![f].drop_last() =~= Seq::<FrameModel>::empty());
    assert(sequence_after_all(last, seq![f]) == sequence_after(last, f.id));
}

/// A stream that arrives in two chunks, cut where a frame ends, delivers what
/// it delivers in one, and leaves the same number to resume from.
pub proof fn lemma_chunks_add(last: u64, a: Seq<char>, b: Seq<char>)
    requires
        open_line(a).len() == 0,
        !read_lines(a).current.has_field(),
    ensures
        payloads(sse_frames(a + b)) == payloads(sse_frames(a)) + payloads(sse_frames(b)),
        sequence_after_all(last, sse_frames(a + b)) == sequence_after_all(
            sequence_after_all(last, sse_frames(a)),
            sse_frames(b),
        ),
        open_line(a + b) == open_line(b),
{
    lemma_frames_concat(a, b);
    let f = FrameModel { event: None, id: None, data: None };
    lemma_payloads_add(sse_frames(a), sse_frames(b), f);
    lemma_sequence_adds(last, sse_frames(a), sse_frames(b), f);
}

/// What an event on a stream leads to: text delivers the payloads of the
/// frames that are complete with it, bytes that are no text deliver nothing,
/// an end or a failure leaves the connection, and silence does so after 45
/// seconds.
pub proof fn lemma_stream_reactions(buffer: Seq<char>, event: SseEvent)
    ensures
        match event {
            SseEvent::Chunk(bytes) => if valid_utf8(bytes@) {
                sse_reaction(buffer, event) == SseReactionModel::Deliver(
                    payloads(sse_frames(buffer + decode_utf8(bytes@))),
                )
            } else {
                sse_reaction(buffer, event) == SseReactionModel::Deliver(Seq::empty())
            },
            SseEvent::ReadFailed(text) => sse_reaction(buffer, event) == SseReactionModel::Leave(
                TransportErrorModel::Other(text@),
            ),
            SseEvent::Ended => sse_reaction(buffer, event) == SseReactionModel::Leave(
                TransportErrorModel::Closed { code: 1001, reason: "Stream ended"@ },
            ),
            SseEvent::LivenessDue { silent_nanos } => {
                &&& silent_nanos > 45_000_000_000 ==> sse_reaction(buffer, event)
                    == SseReactionModel::Leave(TransportErrorModel::Timeout)
                &&& silent_nanos <= 45_000_000_000 ==> sse_reaction(buffer, event)
                    == SseReactionModel::Deliver(Seq::empty())
            },
        },
{
}

/// What an event on a WebSocket leads to.
pub proof fn lemma_socket_reactions(event: WsEvent)
    ensures
        match event {
            WsEvent::Text(text) => ws_reaction(event) == WsReactionModel::Deliver(text@),
            WsEvent::Binary(bytes) => {
                &&& valid_utf8(bytes@) ==> ws_reaction(event) == WsReactionModel::Deliver(
                    decode_utf8(bytes@),
                )
                &&& !valid_utf8(bytes@) ==> ws_reaction(event) is Wait
            },
            WsEvent::Close(Some(frame)) => ws_reaction(event) == WsReactionModel::Leave(
                TransportErrorModel::Closed { code: frame.0, reason: frame.1@ },
            ),
            WsEvent::Close(None) => ws_reaction(event) == WsReactionModel::Leave(
                TransportErrorModel::Closed { code: 1000, reason: Seq::empty() },
            ),
            WsEvent::Control => ws_reaction(event) is Wait,
            WsEvent::ReadFailed(text) => ws_reaction(event) == WsReactionModel::Leave(
                TransportErrorModel::WebSocket(text@),
            ),
            WsEvent::Ended => ws_reaction(event) == WsReactionModel::Leave(
                TransportErrorModel::Closed { code: 1001, reason: "Stream ended"@ },
            ),
            WsEvent::Outgoing(json) => ws_reaction(event) == WsReactionModel::Send(ndjson(json@)),
            WsEvent::Unserializable => ws_reaction(event) is Wait,
            WsEvent::KeepAliveDue => ws_reaction(event) == WsReactionModel::Send(
                "{\"type\":\"keep_alive\"}"@,
            ),
            WsEvent::PingDue => ws_reaction(event) is SendPing,
            WsEvent::SendFailed(text) => ws_reaction(event) == WsReactionModel::Leave(
                TransportErrorModel::WebSocket(text@),
            ),
        },
{
}

/// The delay begins with one second, doubles with each further attempt, and
/// stays at half a minute once it got there.
pub proof fn lemma_backoff_doubles(attempts: nat)
    requires
        attempts > 0,
    ensures
        backoff_ms(1) == 1000,
        backoff_ms(0) == 1000,
        backoff_ms(attempts + 1) == (if 2 * backoff_ms(attempts) < 30_000 {
            2 * backoff_ms(attempts)
        } else {
            30_000
        }),
{
    lemma_small_powers();
    assert(attempts == 1 || attempts == 2 || attempts == 3 || attempts == 4 || attempts == 5
        || attempts >= 6);
}

/// What follows the end of a connection: nothing after a normal end, the code
/// of a final error, and else one more attempt after its delay.
pub proof fn lemma_connection_ends(c: Connection, code: u16)
    requires
        c.reconnect_attempts < u32::MAX,
    ensures
        c.verdict(None) == LoopVerdict::Stop,
        c.after_end(None) == c,
        c.verdict(Some(Some(code))) == (LoopVerdict::Close { code }),
        c.after_end(Some(Some(code))) == (Connection { connected: false, ..c }),
        c.verdict(Some(None)) matches LoopVerdict::Retry { delay_ms } && delay_ms == backoff_ms(
            (c.reconnect_attempts + 1) as nat,
        ),
        c.after_end(Some(None)).reconnect_attempts == c.reconnect_attempts + 1,
        c.after_end(Some(None)).state == TransportState::Reconnecting,
        c.after_end(Some(None)).connected == c.connected,
        c.after_end(Some(None)).last_sequence_num == c.last_sequence_num,
{
    let attempts = (c.reconnect_attempts + 1) as nat;
    lemma_backoff_bounds(attempts, attempts);
}

/// Escaping goes character by character: a separator becomes its escape, and
/// any other character stays.
pub proof fn lemma_ndjson_by_character(a: Seq<char>, b: Seq<char>, c: char)
    ensures
        ndjson(a + b) == ndjson(a) + ndjson(b),
        c != '\u{2028}' && c != '\u{2029}' ==> ndjson(seq![c]) == seq![c],
        ndjson(seq!['\u{2028}']) == "\\u2028"@,
        ndjson(seq!['\u{2029}']) == "\\u2029"@,
        ndjson(Seq::empty()).len() == 0,
{
    assert(escaped_chars(a + b) =~= escaped_chars(a) + escaped_chars(b));
    lemma_joined_add(escaped_chars(a), escaped_chars(b));
    assert(escaped_chars(seq![c]) =~= seq![escaped_char(c)]);
    lemma_joined_one(escaped_char(c));
    assert(escaped_chars(seq!['\u{2028}']) =~= seq![escaped_char('\u{2028}')]);
    lemma_joined_one(escaped_char('\u{2028}'));
    assert(escaped_chars(seq!['\u{2029}']) =~= seq![escaped_char('\u{2029}')]);
    lemma_joined_one(escaped_char('\u{2029}'));
    assert(escaped_chars(Seq::<char>::empty()) =~= Seq::<Seq<char>>::empty());
}

/// An envelope holds the event as it is, and the time behind it.
pub proof fn lemma_envelope(document: Seq<char>, millis: int)
    ensures
        envelope(document, millis) == "{\"event\":"@ + document + ",\"ts\":"@ + signed_decimal(
            millis,
        ) + "}"@,
{
}

/// A setting for the event stream decides alone; one for posts decides where
/// the URL is that of a WebSocket; else the URL's scheme decides, and an
/// unknown one means a WebSocket.
pub proof fn lemma_transport_choice(url: Seq<char>, post: bool)
    ensures
        transport_type_for(url, true, post) == TransportType::Sse,
        occurs_at(url, 0, "ws"@) ==> transport_type_for(url, false, true) == TransportType::Hybrid,
        !occurs_at(url, 0, "ws"@) ==> transport_type_for(url, false, true) == transport_type_for(
            url,
            false,
            false,
        ),
        occurs_at(url, 0, "ws://"@) || occurs_at(url, 0, "wss://"@) ==> transport_type_for(
            url,
            false,
            false,
        ) == TransportType::WebSocket,
        occurs_at(url, 0, "http://"@) || occurs_at(url, 0, "https://"@) ==> transport_type_for(
            url,
            false,
            false,
        ) == TransportType::Sse,
        !occurs_at(url, 0, "http://"@) && !occurs_at(url, 0, "https://"@) ==> transport_type_for(
            url,
            false,
            false,
        ) == TransportType::WebSocket,
{
    reveal_strlit("ws://");
    reveal_strlit("wss://");
    reveal_strlit("http://");
    reveal_strlit("https://");
    if occurs_at(url, 0, "http://"@) {
        assert(url.subrange(0, 7)[0] == 'h');
    }
    if occurs_at(url, 0, "https://"@) {
        assert(url.subrange(0, 8)[0] == 'h');
    }
    if occurs_at(url, 0, "ws://"@) {
        assert(url.subrange(0, 5)[0] == 'w');
    }
    if occurs_at(url, 0, "wss://"@) {
        assert(url.subrange(0, 6)[0] == 'w');
    }
}

/// Posts go to the same host and port, securely exactly where the connection
/// is, with the events in place of the socket in the path.
pub proof fn lemma_post_url(url: UrlModel, host: Seq<char>)
    ensures
        ({
            let scheme = if url.scheme == "wss"@ {
                "https://"@
            } else {
                "http://"@
            };
            let path = replaced_from(url.path, 0, "/ws/"@, "/events/"@);
            match url.port {
                Some(port) => post_url(url, host) == scheme + host + ":"@ + decimal(port as nat)
                    + path,
                None => post_url(url, host) == scheme + host + path,
            }
        }),
{
    reveal_strlit("https://");
    reveal_strlit("http://");
    reveal_strlit("https");
    reveal_strlit("http");
    reveal_strlit("://");
    assert("https"@ + "://"@ =~= "https://"@);
    assert("http"@ + "://"@ =~= "http://"@);
    let scheme = if url.scheme == "wss"@ {
        "https://"@
    } else {
        "http://"@
    };
    let path = replaced_from(url.path, 0, "/ws/"@, "/events/"@);
    match url.port {
        Some(port) => {
            assert(post_url(url, host) =~= scheme + host + ":"@ + decimal(port as nat) + path);
        },
        None => {
            assert(post_url(url, host) =~= scheme + host + path);
        },
    }
}

/// The fault of headers is that of the first faulty one, and there is none
/// only where no header has one.
pub proof fn lemma_first_header_fault(headers: Seq<(String, String)>)
    ensures
        match headers_fault(headers) {
            Some(fault) => exists|i: int|
                0 <= i < headers.len() && header_fault(
                    (#[trigger] headers[i]).0@,
                    headers[i].1@,
                ) == Some(fault) && forall|k: int|
                    0 <= k < i ==> header_fault((#[trigger] headers[k]).0@, headers[k].1@) is None,
            None => forall|k: int|
                0 <= k < headers.len() ==> header_fault(
                    (#[trigger] headers[k]).0@,
                    headers[k].1@,
                ) is None,
        },
    decreases headers.len(),
{
    if headers.len() > 0 {
        let init = headers.drop_last();
        lemma_first_header_fault(init);
        match headers_fault(init) {
            Some(fault) => {
                let i = choose|i: int|
                    0 <= i < init.len() && header_fault((#[trigger] init[i]).0@, init[i].1@)
                        == Some(fault) && forall|k: int|
                        0 <= k < i ==> header_fault((#[trigger] init[k]).0@, init[k].1@) is None;
                assert(headers[i] == init[i]);
                assert forall|k: int| 0 <= k < i implies header_fault(
                    (#[trigger] headers[k]).0@,
                    headers[k].1@,
                ) is None by {
                    assert(headers[k] == init[k]);
                }
            },
            None => {
                assert forall|k: int| 0 <= k < init.len() implies header_fault(
                    (#[trigger] headers[k]).0@,
                    headers[k].1@,
                ) is None by {
                    assert(headers[k] == init[k]);
                }
                assert(headers[headers.len() - 1] == headers.last());
            },
        }
    }
}

/// A header's name is looked at before its value.
pub proof fn lemma_header_fault(name: Seq<char>, value: Seq<char>)
    ensures
        header_fault(name, value) == Some(HeaderFault::Name)
            <==> !header_name(name),
        header_fault(name, value) == Some(HeaderFault::Value)
            <==> header_name(name) && !header_value(
            value,
        ),
{
}

/// Errors in words.
pub proof fn lemma_error_words(text: Seq<char>, code: u16, ms: u64)
    ensures
        error_text(TransportErrorModel::WebSocket(text)) == "WebSocket error: "@ + text,
        error_text((TransportErrorModel::Closed { code, reason: text }))
            == "Connection closed (code: "@ + decimal(code as nat) + ", reason: "@ + text + ")"@,
        error_text(TransportErrorModel::AuthFailed) == "Authentication failed"@,
        error_text(TransportErrorModel::SessionExpired) == "Session expired or not found"@,
        error_text(TransportErrorModel::MaxReconnectsExceeded)
            == "Max reconnection attempts exceeded"@,
        error_text(TransportErrorModel::GiveUp(ms)) == "Give up after "@ + decimal(ms as nat)
            + "ms"@,
        error_text((TransportErrorModel::Http { status: code })) == "HTTP error: "@ + decimal(
            code as nat,
        ),
        error_text(TransportErrorModel::Timeout) == "Timeout"@,
        error_text(TransportErrorModel::Other(text)) == text,
{
}

/// The text of a chunk is that of its bytes, where they are text; no other
/// event has any.
pub proof fn lemma_chunk_text(event: SseEvent)
    ensures
        match event {
            SseEvent::Chunk(bytes) => if valid_utf8(bytes@) {
                chunk_text(event) == Some(decode_utf8(bytes@))
            } else {
                chunk_text(event) is None
            },
            _ => chunk_text(event) is None,
        },
{
}

/// The end of a connection is a failure exactly where there is an error, and
/// final for a WebSocket on a permanent close code or failed authentication,
/// and for a stream on an answer that denies access or does not find the
/// session.
pub proof fn lemma_failures(outcome: Result<(), TransportError>)
    ensures
        outcome is Ok ==> ws_failure(outcome) is None && sse_failure(outcome) is None,
        outcome matches Err(e) ==> ws_failure(outcome) == Some(
            match e@ {
                TransportErrorModel::Closed { code, reason } => if code == 1002 || code == 4001
                    || code == 4003 {
                    Some(code)
                } else {
                    None
                },
                TransportErrorModel::AuthFailed => Some(4003u16),
                _ => None,
            },
        ),
        outcome matches Err(e) ==> sse_failure(outcome) == Some(
            match e@ {
                TransportErrorModel::Http { status } => if status == 401 || status == 403 {
                    Some(4003u16)
                } else if status == 404 {
                    Some(4001u16)
                } else {
                    None
                },
                _ => None,
            },
        ),
{
    let codes = PERMANENT_CLOSE_CODES@;
    assert(codes[0] == 1002 && codes[1] == 4001 && codes[2] == 4003);
    assert(codes.len() == 3);
}

/// The times of the transports.
pub proof fn lemma_times()
    ensures
        RECONNECT_GIVE_UP_MS == 600_000,
        LIVENESS_TIMEOUT_MS == 45_000,
        PING_INTERVAL_MS == 10_000,
        KEEPALIVE_INTERVAL_MS == 300_000,
{
}

/// A header's name is made of its parts, character by character, and is not
/// empty.
pub proof fn lemma_header_name_parts(a: Seq<char>, b: Seq<char>, c: char)
    requires
        0 < a.len(),
        0 < b.len(),
        a.len() + b.len() <= 65_535,
    ensures
        header_name(a + b) <==> header_name(a) && header_name(b),
        !header_name(Seq::empty()),
        'a' <= c <= 'z' || 'A' <= c <= 'Z' || '0' <= c <= '9' || c == '-' || c == '_'
            ==> header_name(seq![c]),
        c == ' ' || c == ':' || c == '\t' || c == '\r' || c == '\n' || c as u32 > 126
            ==> !header_name(seq![c]),
{
    if header_name(a + b) {
        assert forall|i: int| 0 <= i < a.len() implies token_char(#[trigger] a[i]) by {
            assert((a + b)[i] == a[i]);
        }
        assert forall|i: int| 0 <= i < b.len() implies token_char(#[trigger] b[i]) by {
            assert((a + b)[a.len() + i] == b[i]);
        }
    }
    assert(seq![c][0] == c);
}

/// A header's value is made of its parts, character by character; it may hold
/// a tab and no other control character.
pub proof fn lemma_header_value_parts(a: Seq<char>, b: Seq<char>, c: char)
    ensures
        header_value(a + b) <==> header_value(a) && header_value(b),
        header_value(Seq::empty()),
        header_value(seq![c]) <==> c == '\t' || (c as u32 >= 32 && c as u32 != 127),
{
    if header_value(a + b) {
        assert forall|i: int| 0 <= i < a.len() implies {
            let c = #[trigger] a[i];
            c == '\t' || (c as u32 >= 32 && c as u32 != 127)
        } by {
            assert((a + b)[i] == a[i]);
        }
        assert forall|i: int| 0 <= i < b.len() implies {
            let c = #[trigger] b[i];
            c == '\t' || (c as u32 >= 32 && c as u32 != 127)
        } by {
            assert((a + b)[a.len() + i] == b[i]);
        }
    }
    assert(seq![c][0] == c);
}

/// Frames and documents are seen one by one, in order.
pub proof fn lemma_transport_views(frames: Seq<SseFrame>, documents: Seq<JsonText>)
    ensures
        frames_view(frames).len() == frames.len(),
        forall|i: int| 0 <= i < frames.len() ==> #[trigger] frames_view(frames)[i] == frames[i]@,
        documents_view(documents).len() == documents.len(),
        forall|i: int|
            0 <= i < documents.len() ==> #[trigger] documents_view(documents)[i] == documents[i]@,
{
}

} // verus!
