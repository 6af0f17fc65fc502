//! Server-sent events.

use crate::text::{from_chars, opt_text, to_chars};
use vstd::prelude::*;
use vstd::string::StringExecFns;

verus! {

/// A frame of the event stream.
#[derive(Debug, PartialEq, Eq)]
pub struct SseFrame {
    pub event: Option<String>,
    pub id: Option<String>,
    pub data: Option<String>,
}

/// The model of a frame.
pub struct FrameModel {
    pub event: Option<Seq<char>>,
    pub id: Option<Seq<char>>,
    pub data: Option<Seq<char>>,
}

impl View for SseFrame {
    type V = FrameModel;

    open spec fn view(&self) -> FrameModel {
        FrameModel {
            event: opt_text(self.event),
            id: opt_text(self.id),
            data: opt_text(self.data),
        }
    }
}

/// The models of frames.
pub open spec fn frames_view(frames: Seq<SseFrame>) -> Seq<FrameModel> {
    Seq::new(frames.len(), |i: int| frames[i]@)
}

impl FrameModel {
    /// A frame without fields.
    pub open spec fn blank() -> FrameModel {
        FrameModel { event: None, id: None, data: None }
    }

    /// Whether the frame has a field.
    pub open spec fn has_field(self) -> bool {
        self.event is Some || self.id is Some || self.data is Some
    }

    /// The frame after a field. A later event or id takes the place of an
    /// earlier one; data lines are joined by line breaks; other fields are
    /// ignored.
    pub open spec fn with_field(self, key: Seq<char>, value: Seq<char>) -> FrameModel {
        if key == "event"@ {
            FrameModel { event: Some(value), ..self }
        } else if key == "id"@ {
            FrameModel { id: Some(value), ..self }
        } else if key == "data"@ {
            FrameModel {
                data: match self.data {
                    Some(data) => Some(data.push('\n') + value),
                    None => Some(value),
                },
                ..self
            }
        } else {
            self
        }
    }
}

/// What follows the last line break: the line that is not complete.
pub open spec fn open_line(s: Seq<char>) -> Seq<char>
    decreases s.len(),
{
    if s.len() == 0 || s.last() == '\n' {
        Seq::empty()
    } else {
        open_line(s.drop_last()).push(s.last())
    }
}

/// A line without the carriage return before its line break.
pub open spec fn without_cr(line: Seq<char>) -> Seq<char> {
    if line.len() > 0 && line.last() == '\r' {
        line.drop_last()
    } else {
        line
    }
}

/// The complete lines, each without its line break.
pub open spec fn closed_lines(s: Seq<char>) -> Seq<Seq<char>>
    decreases s.len(),
{
    if s.len() == 0 {
        Seq::empty()
    } else if s.last() == '\n' {
        closed_lines(s.drop_last()).push(without_cr(open_line(s.drop_last())))
    } else {
        closed_lines(s.drop_last())
    }
}

/// The frames read so far, and the one that is being read.
pub struct ReaderModel {
    pub frames: Seq<FrameModel>,
    pub current: FrameModel,
}

/// The value of a field: what follows the colon, without one leading space.
pub open spec fn field_value(rest: Seq<char>) -> Seq<char> {
    if rest.len() > 0 && rest[0] == ' ' {
        rest.skip(1)
    } else {
        rest
    }
}

/// Where the first colon stands at `n` or after it; the length where there is
/// none.
pub open spec fn colon_index(line: Seq<char>, n: int) -> int
    decreases line.len() - n,
{
    if 0 <= n < line.len() && line[n] != ':' {
        colon_index(line, n + 1)
    } else {
        n
    }
}

impl ReaderModel {
    /// Nothing read.
    pub open spec fn start() -> ReaderModel {
        ReaderModel { frames: Seq::empty(), current: FrameModel::blank() }
    }

    /// The frame that is being read is put with the others, where it has a
    /// field.
    pub open spec fn flushed(self) -> ReaderModel {
        if self.current.has_field() {
            ReaderModel { frames: self.frames.push(self.current), current: FrameModel::blank() }
        } else {
            self
        }
    }

    /// After a line: an empty line ends the frame; a line that starts with a
    /// colon is a comment; a line with a colon is a field; others are ignored.
    pub open spec fn after_line(self, line: Seq<char>) -> ReaderModel {
        let colon = colon_index(line, 0);
        if line.len() == 0 {
            self.flushed()
        } else if colon == 0 || colon >= line.len() {
            self
        } else {
            ReaderModel {
                current: self.current.with_field(
                    line.take(colon),
                    field_value(line.skip(colon + 1)),
                ),
                ..self
            }
        }
    }

    /// After lines.
    pub open spec fn after_lines(self, lines: Seq<Seq<char>>) -> ReaderModel
        decreases lines.len(),
    {
        if lines.len() == 0 {
            self
        } else {
            self.after_lines(lines.drop_last()).after_line(lines.last())
        }
    }
}

/// The reader after the complete lines of a text.
pub open spec fn read_lines(s: Seq<char>) -> ReaderModel {
    ReaderModel::start().after_lines(closed_lines(s))
}

/// The frames in the complete lines of a text, the last one included though
/// no empty line ends it.
pub open spec fn sse_frames(s: Seq<char>) -> Seq<FrameModel> {
    read_lines(s).flushed().frames
}

fn find_colon(line: &[char]) -> (r: usize)
    ensures
        r == colon_index(line@, 0),
        r <= line@.len(),
{
    let mut i: usize = 0;
    while i < line.len() && line[i] != ':'
        invariant
            i <= line@.len(),
            colon_index(line@, 0) == colon_index(line@, i as int),
        decreases line@.len() - i,
    {
        i += 1;
    }
    i
}

struct Reader {
    frames: Vec<SseFrame>,
    current: SseFrame,
}

impl View for Reader {
    type V = ReaderModel;

    closed spec fn view(&self) -> ReaderModel {
        ReaderModel { frames: frames_view(self.frames@), current: self.current@ }
    }
}

fn blank_frame() -> (r: SseFrame)
    ensures
        r@ == FrameModel::blank(),
{
    SseFrame { event: None, id: None, data: None }
}

impl Reader {
    fn flush(&mut self)
        ensures
            final(self)@ == old(self)@.flushed(),
    {
        let ghost before = self.frames@;
        if self.current.event.is_some() || self.current.id.is_some() || self.current.data.is_some() {
            let mut frame = blank_frame();
            std::mem::swap(&mut frame, &mut self.current);
            let ghost done = frame@;
            self.frames.push(frame);
            assert(frames_view(self.frames@) =~= frames_view(before).push(done));
        }
    }

    fn read_field(&mut self, key: &str, value: String)
        ensures
            final(self)@ == (ReaderModel {
                current: old(self)@.current.with_field(key@, value@),
                ..old(self)@
            }),
    {
        let key = key.to_owned();
        if key == "event".to_owned() {
            self.current.event = Some(value);
        } else if key == "id".to_owned() {
            self.current.id = Some(value);
        } else if key == "data".to_owned() {
            match &mut self.current.data {
                Some(data) => {
                    let ghost before = data@;
                    data.push('\n');
                    data.append(value.as_str());
                    assert(data@ =~= before.push('\n') + value@);
                },
                None => {
                    self.current.data = Some(value);
                },
            }
        }
    }

    fn read_line(&mut self, line: &[char])
        ensures
            final(self)@ == old(self)@.after_line(line@),
    {
        if line.len() == 0 {
            self.flush();
            return;
        }
        let colon: usize = find_colon(line);
        if colon == 0 || colon >= line.len() {
            return;
        }
        let key = from_chars(line, 0, colon);
        let ghost rest = line@.skip(colon + 1);
        let from: usize = if colon + 1 < line.len() && line[colon + 1] == ' ' {
            colon + 2
        } else {
            colon + 1
        };
        let value = from_chars(line, from, line.len());
        proof {
            assert(key@ =~= line@.take(colon as int));
            assert(value@ =~= field_value(rest));
        }
        self.read_field(key.as_str(), value);
    }
}

/// Parses the frames in a buffer, and gives back the line at its end that is
/// not complete.
pub fn parse_sse_frames(buffer: &str) -> (r: (Vec<SseFrame>, String))
    ensures
        frames_view(r.0@) == sse_frames(buffer@),
        r.1@ == open_line(buffer@),
{
    let chars = to_chars(buffer);
    let ghost all = buffer@;
    let mut reader = Reader { frames: Vec::new(), current: blank_frame() };
    let mut line: Vec<char> = Vec::new();
    let mut i: usize = 0;
    assert(reader@.frames =~= Seq::<FrameModel>::empty());
    while i < chars.len()
        invariant
            i <= chars.len(),
            chars@ == all,
            line@ == open_line(all.take(i as int)),
            reader@ == read_lines(all.take(i as int)),
        decreases chars.len() - i,
    {
        let c = chars[i];
        let ghost next = all.take(i + 1);
        let ghost full = line@;
        proof {
            assert(next.drop_last() =~= all.take(i as int));
            assert(next.last() == c);
        }
        if c == '\n' {
            if line.len() > 0 && line[line.len() - 1] == '\r' {
                line.pop();
            }
            proof {
                assert(line@ =~= without_cr(full));
                let lines = closed_lines(next);
                assert(lines.drop_last() =~= closed_lines(all.take(i as int)));
            }
            reader.read_line(line.as_slice());
            line = Vec::new();
        } else {
            line.push(c);
        }
        i += 1;
    }
    reader.flush();
    proof {
        assert(all.take(i as int) =~= all);
    }
    let remaining = from_chars(line.as_slice(), 0, line.len());
    assert(remaining@ =~= line@);
    (reader.frames, remaining)
}

} // verus!
