//! The event stream transport.

use crate::json::{json_member, JsonText};
use crate::text::{decimal, number_in, opt_text, parse_u64, push_decimal, utf8_text};
use crate::transport::connection::{
    find_sse_final_code, sse_final_code, Connection, LoopVerdict, TransportState,
};
use crate::transport::error::{TransportError, TransportErrorModel};
use crate::transport::sse::{
    frames_view, open_line, parse_sse_frames, sse_frames, FrameModel, SseFrame,
};
use vstd::prelude::*;
use vstd::string::StringExecFns;
use vstd::utf8::{decode_utf8, valid_utf8};

verus! {

/// How long a stream may be silent.
pub const LIVENESS_TIMEOUT_MS: u64 = 45_000;

/// The event stream transport's own state.
#[derive(Debug)]
pub struct SseTransport {
    pub session_url: String,
    pub auth_token: String,
    pub connection: Connection,
}

/// The payload of a frame's data: that member of the JSON document, where the
/// data is one and has it.
pub open spec fn payload_in(data: Option<Seq<char>>) -> Option<Seq<char>> {
    match data {
        Some(text) => json_member(text, "payload"@),
        None => None,
    }
}

/// The last sequence number after a frame: the frame's id, where it is a
/// number.
pub open spec fn sequence_after(last: u64, id: Option<Seq<char>>) -> u64 {
    match id {
        Some(text) => match number_in(text) {
            Some(n) => n,
            None => last,
        },
        None => last,
    }
}

/// The last sequence number after frames.
pub open spec fn sequence_after_all(last: u64, frames: Seq<FrameModel>) -> u64
    decreases frames.len(),
{
    if frames.len() == 0 {
        last
    } else {
        sequence_after(sequence_after_all(last, frames.drop_last()), frames.last().id)
    }
}

/// The payloads of frames, in order.
pub open spec fn payloads(frames: Seq<FrameModel>) -> Seq<Seq<char>>
    decreases frames.len(),
{
    if frames.len() == 0 {
        Seq::empty()
    } else {
        let before = payloads(frames.drop_last());
        match payload_in(frames.last().data) {
            Some(payload) => before.push(payload),
            None => before,
        }
    }
}

/// The texts of documents.
pub open spec fn documents_view(documents: Seq<JsonText>) -> Seq<Seq<char>> {
    Seq::new(documents.len(), |i: int| documents[i]@)
}

fn read_payload(data: &Option<String>) -> (r: Option<JsonText>)
    ensures
        match r {
            Some(payload) => payload_in(opt_text(*data)) == Some(payload@),
            None => payload_in(opt_text(*data)) is None,
        },
{
    match data {
        Some(text) => JsonText::parse_member(text.as_str(), "payload"),
        None => None,
    }
}

/// What happens on an open event stream.
#[derive(Debug)]
pub enum SseEvent {
    /// Bytes arrived.
    Chunk(Vec<u8>),
    /// Reading failed.
    ReadFailed(String),
    /// The stream ended.
    Ended,
    /// It is time to see whether the stream is alive; it was silent so long.
    LivenessDue { silent_nanos: u128 },
}

/// What to do about it.
#[derive(Debug)]
pub enum SseReaction {
    /// Hand the payloads over as messages, in order; there may be none.
    Deliver(Vec<JsonText>),
    /// Leave the connection with an error.
    Leave(TransportError),
}

/// The model of what to do.
pub enum SseReactionModel {
    Deliver(Seq<Seq<char>>),
    Leave(TransportErrorModel),
}

impl View for SseReaction {
    type V = SseReactionModel;

    open spec fn view(&self) -> SseReactionModel {
        match self {
            SseReaction::Deliver(list) => SseReactionModel::Deliver(documents_view(list@)),
            SseReaction::Leave(e) => SseReactionModel::Leave(e@),
        }
    }
}

/// The text that an event adds to the buffer; none where it is no chunk, or
/// one that is no text.
pub open spec fn chunk_text(event: SseEvent) -> Option<Seq<char>> {
    match event {
        SseEvent::Chunk(bytes) => if valid_utf8(bytes@) {
            Some(decode_utf8(bytes@))
        } else {
            None
        },
        _ => None,
    }
}

/// What to do about an event on an open stream, with the buffer before it.
pub open spec fn sse_reaction(buffer: Seq<char>, event: SseEvent) -> SseReactionModel {
    match event {
        SseEvent::Chunk(_) => match chunk_text(event) {
            Some(text) => SseReactionModel::Deliver(payloads(sse_frames(buffer + text))),
            None => SseReactionModel::Deliver(Seq::empty()),
        },
        SseEvent::ReadFailed(text) => SseReactionModel::Leave(TransportErrorModel::Other(text@)),
        SseEvent::Ended => SseReactionModel::Leave(
            TransportErrorModel::Closed { code: 1001, reason: "Stream ended"@ },
        ),
        SseEvent::LivenessDue { silent_nanos } => if silent_nanos > LIVENESS_TIMEOUT_MS
            * 1_000_000 {
            SseReactionModel::Leave(TransportErrorModel::Timeout)
        } else {
            SseReactionModel::Deliver(Seq::empty())
        },
    }
}

/// The end of a connection as the loop sees it: nothing for a normal end, else
/// the close code that ends all attempts, where the error has one.
pub open spec fn sse_failure(outcome: Result<(), TransportError>) -> Option<Option<u16>> {
    match outcome {
        Ok(_) => None,
        Err(e) => Some(sse_final_code(e@)),
    }
}

/// The request that opens a stream.
#[derive(Debug)]
pub struct StreamRequest {
    pub url: String,
    /// The sequence number to resume from, in decimal.
    pub from_sequence_num: Option<String>,
}

/// Checks the status of an answer: success is from 200 to 299.
pub fn check_status(status: u16) -> (r: Result<(), TransportError>)
    ensures
        200 <= status < 300 ==> r is Ok,
        !(200 <= status < 300) ==> (r matches Err(e) && e@ == (TransportErrorModel::Http {
            status,
        })),
{
    if 200 <= status && status < 300 {
        Ok(())
    } else {
        Err(TransportError::Http { status })
    }
}

impl SseTransport {
    /// A transport that was never connected.
    pub fn new(session_url: String, auth_token: String) -> (r: SseTransport)
        ensures
            r.session_url == session_url,
            r.auth_token == auth_token,
            r.connection == (Connection {
                connected: false,
                state: TransportState::Idle,
                reconnect_attempts: 0,
                last_sequence_num: 0,
            }),
    {
        SseTransport { session_url, auth_token, connection: Connection::new() }
    }

    /// Replaces the token.
    pub fn update_auth_token(&mut self, token: String)
        ensures
            *final(self) == (SseTransport { auth_token: token, ..*old(self) }),
    {
        self.auth_token = token;
    }

    /// The request that opens the stream: from the start, or from the last
    /// sequence number where there is one.
    pub fn stream_request(&self) -> (r: StreamRequest)
        ensures
            r.url@ == self.session_url@ + "/worker/events/stream"@,
            opt_text(r.from_sequence_num) == (if self.connection.last_sequence_num > 0 {
                Some(decimal(self.connection.last_sequence_num as nat))
            } else {
                None
            }),
    {
        let mut url = self.session_url.clone();
        url.append("/worker/events/stream");
        let from_sequence_num = if self.connection.last_sequence_num > 0 {
            let mut number = String::new();
            push_decimal(&mut number, self.connection.last_sequence_num);
            assert(number@ =~= decimal(self.connection.last_sequence_num as nat));
            Some(number)
        } else {
            None
        };
        StreamRequest { url, from_sequence_num }
    }

    /// The URL that events are posted to.
    pub fn events_url(&self) -> (r: String)
        ensures
            r@ == self.session_url@ + "/worker/events"@,
    {
        let mut url = self.session_url.clone();
        url.append("/worker/events");
        url
    }

    /// Takes in a frame with its payload: keeps the sequence number and puts
    /// the payload with those to deliver.
    pub fn take_frame(
        &mut self,
        frame: &SseFrame,
        payload: Option<JsonText>,
        deliver: &mut Vec<JsonText>,
    )
        ensures
            *final(self) == (SseTransport {
                connection: Connection {
                    last_sequence_num: sequence_after(
                        old(self).connection.last_sequence_num,
                        frame@.id,
                    ),
                    ..old(self).connection
                },
                ..*old(self)
            }),
            documents_view(final(deliver)@) == (match payload {
                Some(document) => documents_view(old(deliver)@).push(document@),
                None => documents_view(old(deliver)@),
            }),
    {
        if let Some(id) = &frame.id {
            if let Some(n) = parse_u64(id.as_str()) {
                self.connection.last_sequence_num = n;
            }
        }
        if let Some(document) = payload {
            let ghost before = deliver@;
            let ghost text = document@;
            deliver.push(document);
            assert(documents_view(deliver@) =~= documents_view(before).push(text));
        }
    }

    /// Takes in the frames of a buffer, leaves there the line that is not
    /// complete, and gives back the payloads to deliver.
    pub fn process_sse_buffer(&mut self, buffer: &mut String) -> (r: Vec<JsonText>)
        ensures
            final(buffer)@ == open_line(old(buffer)@),
            *final(self) == (SseTransport {
                connection: Connection {
                    last_sequence_num: sequence_after_all(
                        old(self).connection.last_sequence_num,
                        sse_frames(old(buffer)@),
                    ),
                    ..old(self).connection
                },
                ..*old(self)
            }),
            documents_view(r@) == payloads(sse_frames(old(buffer)@)),
    {
        let ghost before = *self;
        let ghost model = sse_frames(buffer@);
        let (frames, remaining) = parse_sse_frames(buffer.as_str());
        *buffer = remaining;
        let mut deliver: Vec<JsonText> = Vec::new();
        let mut i: usize = 0;
        assert(documents_view(deliver@) =~= payloads(model.take(0)));
        while i < frames.len()
            invariant
                i <= frames.len(),
                frames_view(frames@) == model,
                *self == (SseTransport {
                    connection: Connection {
                        last_sequence_num: sequence_after_all(
                            before.connection.last_sequence_num,
                            model.take(i as int),
                        ),
                        ..before.connection
                    },
                    ..before
                }),
                documents_view(deliver@) == payloads(model.take(i as int)),
            decreases frames.len() - i,
        {
            proof {
                assert(model.take(i + 1).drop_last() =~= model.take(i as int));
                assert(model.take(i + 1).last() == frames@[i as int]@);
            }
            let payload = read_payload(&frames[i].data);
            self.take_frame(&frames[i], payload, &mut deliver);
            i += 1;
        }
        assert(model.take(i as int) =~= model);
        deliver
    }

    /// Decides what to do about an event on an open stream.
    pub fn react(&mut self, buffer: &mut String, event: SseEvent) -> (r: SseReaction)
        ensures
            r@ == sse_reaction(old(buffer)@, event),
            match chunk_text(event) {
                Some(text) => {
                    &&& final(buffer)@ == open_line(old(buffer)@ + text)
                    &&& *final(self) == (SseTransport {
                        connection: Connection {
                            last_sequence_num: sequence_after_all(
                                old(self).connection.last_sequence_num,
                                sse_frames(old(buffer)@ + text),
                            ),
                            ..old(self).connection
                        },
                        ..*old(self)
                    })
                },
                None => {
                    &&& final(buffer)@ == old(buffer)@
                    &&& *final(self) == *old(self)
                },
            },
    {
        let none: Vec<JsonText> = Vec::new();
        assert(documents_view(none@) =~= Seq::<Seq<char>>::empty());
        match event {
            SseEvent::Chunk(bytes) => match utf8_text(bytes) {
                Some(text) => {
                    buffer.append(text.as_str());
                    SseReaction::Deliver(self.process_sse_buffer(buffer))
                },
                None => SseReaction::Deliver(none),
            },
            SseEvent::ReadFailed(text) => SseReaction::Leave(TransportError::Other(text)),
            SseEvent::Ended => SseReaction::Leave(
                TransportError::Closed { code: 1001, reason: "Stream ended".to_owned() },
            ),
            SseEvent::LivenessDue { silent_nanos } => {
                if silent_nanos > LIVENESS_TIMEOUT_MS as u128 * 1_000_000 {
                    SseReaction::Leave(TransportError::Timeout)
                } else {
                    SseReaction::Deliver(none)
                }
            },
        }
    }

    /// Decides what follows the end of a connection.
    pub fn after_run(&mut self, outcome: &Result<(), TransportError>) -> (r: LoopVerdict)
        requires
            sse_failure(*outcome) == Some(None::<u16>) ==> old(self).connection.reconnect_attempts
                < u32::MAX,
        ensures
            r == old(self).connection.verdict(sse_failure(*outcome)),
            *final(self) == (SseTransport {
                connection: old(self).connection.after_end(sse_failure(*outcome)),
                ..*old(self)
            }),
    {
        let failure = match outcome {
            Ok(_) => None,
            Err(e) => Some(find_sse_final_code(e)),
        };
        self.connection.after_run(failure)
    }
}

} // verus!
