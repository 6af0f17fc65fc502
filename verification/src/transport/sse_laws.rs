//! What holds of reading event streams as a whole.

use crate::seqs::joined;
use crate::transport::sse::{
    closed_lines, colon_index, field_value, open_line, read_lines, sse_frames,
    FrameModel, ReaderModel,
};
use vstd::prelude::*;

verus! {

/// Whether a text can be one line: it has no line break and no carriage
/// return at its end.
pub open spec fn one_line(s: Seq<char>) -> bool {
    &&& forall|i: int| 0 <= i < s.len() ==> #[trigger] s[i] != '\n'
    &&& s.len() > 0 ==> s.last() != '\r'
}

/// The line that is not complete ends the buffer, holds no line break, and
/// begins where the buffer does or after a line break.
pub proof fn lemma_open_line(s: Seq<char>)
    ensures
        open_line(s).len() <= s.len(),
        open_line(s) == s.skip(s.len() - open_line(s).len()),
        forall|i: int| 0 <= i < open_line(s).len() ==> #[trigger] open_line(s)[i] != '\n',
        open_line(s).len() < s.len() ==> s[s.len() - open_line(s).len() - 1] == '\n',
    decreases s.len(),
{
    if s.len() > 0 && s.last() != '\n' {
        lemma_open_line(s.drop_last());
    }
    assert(open_line(s) =~= s.skip(s.len() - open_line(s).len()));
}

/// Lines that follow a complete line are read as they are by themselves.
proof fn lemma_lines_concat(a: Seq<char>, b: Seq<char>)
    requires
        open_line(a).len() == 0,
    ensures
        closed_lines(a + b) == closed_lines(a) + closed_lines(b),
        open_line(a + b) == open_line(b),
    decreases b.len(),
{
    if b.len() == 0 {
        assert(a + b =~= a);
        assert(closed_lines(a) + closed_lines(b) =~= closed_lines(a));
        assert(open_line(a) =~= open_line(b));
    } else {
        lemma_lines_concat(a, b.drop_last());
        assert((a + b).drop_last() =~= a + b.drop_last());
        assert((a + b).last() == b.last());
        assert(closed_lines(a + b) =~= closed_lines(a) + closed_lines(b));
    }
}

/// Reading lines in two parts.
proof fn lemma_after_lines_add(r: ReaderModel, a: Seq<Seq<char>>, b: Seq<Seq<char>>)
    ensures
        r.after_lines(a + b) == r.after_lines(a).after_lines(b),
    decreases b.len(),
{
    if b.len() == 0 {
        assert(a + b =~= a);
    } else {
        lemma_after_lines_add(r, a, b.drop_last());
        assert((a + b).drop_last() =~= a + b.drop_last());
        assert((a + b).last() == b.last());
    }
}

/// Frames that are read already do not bear on what is read.
proof fn lemma_after_lines_frames(frames: Seq<FrameModel>, r: ReaderModel, lines: Seq<Seq<char>>)
    ensures
        ({
            let from = ReaderModel { frames: frames + r.frames, current: r.current };
            let end = r.after_lines(lines);
            from.after_lines(lines) == (ReaderModel {
                frames: frames + end.frames,
                current: end.current,
            })
        }),
    decreases lines.len(),
{
    if lines.len() > 0 {
        lemma_after_lines_frames(frames, r, lines.drop_last());
        let end = r.after_lines(lines.drop_last());
        assert(frames + end.frames.push(end.current) =~= (frames + end.frames).push(end.current));
    }
}

/// A stream that is cut where a frame ends gives the same frames as the whole
/// stream, and the same line that is not complete.
pub proof fn lemma_frames_concat(a: Seq<char>, b: Seq<char>)
    requires
        open_line(a).len() == 0,
        !read_lines(a).current.has_field(),
    ensures
        sse_frames(a + b) == sse_frames(a) + sse_frames(b),
        open_line(a + b) == open_line(b),
{
    lemma_lines_concat(a, b);
    let start = ReaderModel::start();
    let mid = read_lines(a);
    lemma_after_lines_add(start, closed_lines(a), closed_lines(b));
    lemma_after_lines_frames(mid.frames, start, closed_lines(b));
    assert(mid.frames + start.frames =~= mid.frames);
    assert(mid.current == FrameModel::blank());
    let end = read_lines(b);
    assert(read_lines(a + b) == (ReaderModel {
        frames: mid.frames + end.frames,
        current: end.current,
    }));
    assert(sse_frames(a + b) =~= sse_frames(a) + sse_frames(b));
}

/// The lines of one line.
proof fn lemma_single_line(line: Seq<char>)
    requires
        one_line(line),
    ensures
        closed_lines(line.push('\n')) == seq![line],
        open_line(line.push('\n')).len() == 0,
{
    lemma_no_break(line);
    assert(line.push('\n').drop_last() =~= line);
    assert(closed_lines(line.push('\n')) =~= seq![line]);
}

proof fn lemma_no_break(line: Seq<char>)
    requires
        forall|i: int| 0 <= i < line.len() ==> #[trigger] line[i] != '\n',
    ensures
        closed_lines(line).len() == 0,
        open_line(line) == line,
    decreases line.len(),
{
    if line.len() > 0 {
        let init = line.drop_last();
        assert forall|i: int| 0 <= i < init.len() implies #[trigger] init[i] != '\n' by {
            assert(line[i] != '\n');
        }
        lemma_no_break(init);
        assert(line[line.len() - 1] != '\n');
        assert(open_line(line) =~= line);
    } else {
        assert(open_line(line) =~= line);
    }
}

/// A comment changes nothing: the frames are those of the rest.
pub proof fn lemma_comment_ignored(comment: Seq<char>, rest: Seq<char>)
    requires
        one_line(comment),
        comment.len() > 0,
        comment[0] == ':',
    ensures
        sse_frames(comment.push('\n') + rest) == sse_frames(rest),
        open_line(comment.push('\n') + rest) == open_line(rest),
{
    let a = comment.push('\n');
    lemma_single_line(comment);
    assert(seq![comment].drop_last() =~= Seq::<Seq<char>>::empty());
    assert(colon_index(comment, 0) == 0);
    assert(read_lines(a) == ReaderModel::start()) by {
        reveal_with_fuel(ReaderModel::after_lines, 2);
    }
    lemma_frames_concat(a, rest);
    assert(sse_frames(a) + sse_frames(rest) =~= sse_frames(rest));
}

/// A field as a line of the stream.
pub open spec fn field_text(key: Seq<char>, value: Seq<char>) -> Seq<char> {
    (key + seq![':', ' '] + value).push('\n')
}

/// Data lines as lines of the stream.
pub open spec fn data_text(lines: Seq<Seq<char>>) -> Seq<char> {
    joined(lines.map_values(|line: Seq<char>| field_text("data"@, line)))
}

/// The data that data lines make.
pub open spec fn data_of(lines: Seq<Seq<char>>) -> Seq<char>
    decreases lines.len(),
{
    if lines.len() == 0 {
        Seq::empty()
    } else if lines.len() == 1 {
        lines[0]
    } else {
        data_of(lines.drop_last()).push('\n') + lines.last()
    }
}

/// A field that is one line is read as that field.
proof fn lemma_field_read(r: ReaderModel, key: Seq<char>, value: Seq<char>)
    requires
        key.len() > 0,
        forall|i: int| 0 <= i < key.len() ==> #[trigger] key[i] != ':' && key[i] != '\n',
        one_line(value),
    ensures
        closed_lines(field_text(key, value)).len() == 1,
        open_line(field_text(key, value)).len() == 0,
        r.after_lines(closed_lines(field_text(key, value))) == (ReaderModel {
            current: r.current.with_field(key, value),
            ..r
        }),
{
    let line = key + seq![':', ' '] + value;
    assert(one_line(line)) by {
        assert forall|i: int| 0 <= i < line.len() implies #[trigger] line[i] != '\n' by {
            if i < key.len() {
                assert(line[i] == key[i]);
            } else if i >= key.len() + 2 {
                assert(line[i] == value[i - key.len() - 2]);
            }
        }
        if value.len() > 0 {
            assert(line.last() == value.last());
        }
    }
    lemma_single_line(line);
    lemma_colon_after_key(line, key, 0);
    assert(line.take(key.len() as int) =~= key);
    assert(field_value(line.skip(key.len() as int + 1)) =~= value);
    assert(seq![line].drop_last() =~= Seq::<Seq<char>>::empty());
    reveal_with_fuel(ReaderModel::after_lines, 2);
}

proof fn lemma_colon_after_key(line: Seq<char>, key: Seq<char>, n: int)
    requires
        0 <= n <= key.len() < line.len(),
        forall|i: int| 0 <= i < key.len() ==> #[trigger] key[i] != ':' && line[i] == key[i],
        line[key.len() as int] == ':',
    ensures
        colon_index(line, n) == key.len(),
    decreases key.len() - n,
{
    if n < key.len() {
        assert(key[n] != ':');
        lemma_colon_after_key(line, key, n + 1);
    }
}

/// Data lines are read as the data they make.
proof fn lemma_data_read(r: ReaderModel, lines: Seq<Seq<char>>)
    requires
        r.current.data is None,
        lines.len() > 0,
        forall|i: int| 0 <= i < lines.len() ==> one_line(#[trigger] lines[i]),
    ensures
        open_line(data_text(lines)).len() == 0,
        r.after_lines(closed_lines(data_text(lines))) == (ReaderModel {
            current: FrameModel { data: Some(data_of(lines)), ..r.current },
            ..r
        }),
    decreases lines.len(),
{
    reveal_strlit("event");
    reveal_strlit("id");
    reveal_strlit("data");
    let last = lines.last();
    let texts = lines.map_values(|line: Seq<char>| field_text("data"@, line));
    let init = lines.drop_last();
    let init_texts = init.map_values(|line: Seq<char>| field_text("data"@, line));
    assert(texts.drop_last() =~= init_texts);
    assert(lines[lines.len() - 1] == last);
    assert("data"@.len() != "event"@.len());
    assert("data"@.len() != "id"@.len());
    if lines.len() == 1 {
        assert(joined(init_texts) =~= Seq::<char>::empty());
        assert(data_text(lines) =~= field_text("data"@, last));
        lemma_field_read(r, "data"@, last);
    } else {
        assert forall|i: int| 0 <= i < init.len() implies one_line(#[trigger] init[i]) by {
            assert(one_line(lines[i]));
        }
        lemma_data_read(r, init);
        let mid = r.after_lines(closed_lines(data_text(init)));
        lemma_field_read(mid, "data"@, last);
        lemma_lines_concat(data_text(init), field_text("data"@, last));
        lemma_after_lines_add(
            r,
            closed_lines(data_text(init)),
            closed_lines(field_text("data"@, last)),
        );
        assert(data_text(lines) == data_text(init) + field_text("data"@, last));
    }
}

/// The text of a frame: its event, its id, its data lines, and an empty line.
pub open spec fn frame_text(event: Seq<char>, id: Seq<char>, data: Seq<Seq<char>>) -> Seq<char> {
    field_text("event"@, event) + field_text("id"@, id) + data_text(data) + seq!['\n']
}

/// A frame written with an event, an id and data lines is read back: the
/// event and the id as they are, the data lines joined by line breaks. What
/// follows it is read as it is by itself.
pub proof fn lemma_frame_read_back(
    event: Seq<char>,
    id: Seq<char>,
    data: Seq<Seq<char>>,
    rest: Seq<char>,
)
    requires
        one_line(event),
        one_line(id),
        data.len() > 0,
        forall|i: int| 0 <= i < data.len() ==> one_line(#[trigger] data[i]),
    ensures
        sse_frames(frame_text(event, id, data) + rest) == seq![
            FrameModel { event: Some(event), id: Some(id), data: Some(data_of(data)) },
        ] + sse_frames(rest),
        open_line(frame_text(event, id, data) + rest) == open_line(rest),
{
    reveal_strlit("event");
    reveal_strlit("id");
    reveal_strlit("data");
    let r0 = ReaderModel::start();
    let t1 = field_text("event"@, event);
    let t2 = field_text("id"@, id);
    let t3 = data_text(data);
    let t4: Seq<char> = seq!['\n'];
    assert("id"@.len() != "event"@.len());
    lemma_field_read(r0, "event"@, event);
    let r1 = r0.after_lines(closed_lines(t1));
    lemma_field_read(r1, "id"@, id);
    let r2 = r1.after_lines(closed_lines(t2));
    lemma_data_read(r2, data);
    let r3 = r2.after_lines(closed_lines(t3));
    let nothing: Seq<char> = Seq::empty();
    lemma_single_line(nothing);
    assert(t4 =~= nothing.push('\n'));
    lemma_lines_concat(t1, t2);
    lemma_lines_concat(t1 + t2, t3);
    lemma_lines_concat(t1 + t2 + t3, t4);
    lemma_after_lines_add(r0, closed_lines(t1), closed_lines(t2));
    lemma_after_lines_add(r0, closed_lines(t1 + t2), closed_lines(t3));
    lemma_after_lines_add(r0, closed_lines(t1 + t2 + t3), closed_lines(t4));
    let frame = FrameModel { event: Some(event), id: Some(id), data: Some(data_of(data)) };
    assert(r3.current == frame);
    assert(r3.after_lines(closed_lines(t4)) == r3.flushed()) by {
        reveal_with_fuel(ReaderModel::after_lines, 2);
        assert(seq![nothing].drop_last() =~= Seq::<Seq<char>>::empty());
    }
    assert(r3.frames =~= Seq::<FrameModel>::empty());
    let text = frame_text(event, id, data);
    assert(read_lines(text) == r3.flushed());
    assert(sse_frames(text) =~= seq![frame]);
    lemma_frames_concat(text, rest);
}

/// A complete line is read behind what was read before it, with or without a
/// carriage return at its end; what no line break ends is not read yet.
pub proof fn lemma_reads_line_by_line(a: Seq<char>, line: Seq<char>)
    requires
        open_line(a).len() == 0,
        one_line(line),
    ensures
        read_lines(a + line.push('\n')) == read_lines(a).after_line(line),
        read_lines(a + line.push('\r').push('\n')) == read_lines(a).after_line(line),
        read_lines(a + line) == read_lines(a),
        open_line(a + line) == line,
        open_line(a + line.push('\n')).len() == 0,
        open_line(a + line.push('\r').push('\n')).len() == 0,
        read_lines(Seq::empty()).frames.len() == 0,
        !read_lines(Seq::empty()).current.has_field(),
{
    let start = ReaderModel::start();
    lemma_single_line(line);
    lemma_no_break(line);
    lemma_lines_concat(a, line.push('\n'));
    lemma_lines_concat(a, line);
    assert(closed_lines(line) =~= Seq::<Seq<char>>::empty());
    assert(closed_lines(a) + closed_lines(line) =~= closed_lines(a));
    assert((closed_lines(a) + seq![line]).drop_last() =~= closed_lines(a));
    assert((closed_lines(a) + seq![line]).last() == line);
    let cr = line.push('\r');
    assert forall|i: int| 0 <= i < cr.len() implies #[trigger] cr[i] != '\n' by {
        if i < line.len() {
            assert(line[i] != '\n');
        }
    }
    lemma_no_break(cr);
    assert(cr.push('\n').drop_last() =~= cr);
    assert(cr.drop_last() =~= line);
    assert(closed_lines(cr.push('\n')) =~= seq![line]);
    lemma_lines_concat(a, cr.push('\n'));
    assert(closed_lines(Seq::<char>::empty()) =~= Seq::<Seq<char>>::empty());
}

/// The frames of a text are those that were ended, and the one that is being
/// read where it has a field.
pub proof fn lemma_frames_of_reader(s: Seq<char>)
    ensures
        read_lines(s).current.has_field() ==> sse_frames(s) == read_lines(s).frames.push(
            read_lines(s).current,
        ),
        !read_lines(s).current.has_field() ==> sse_frames(s) == read_lines(s).frames,
{
}

/// What a line does: an empty one ends the frame that has a field, one without
/// a colon or with a colon in front does nothing, and any other sets a field,
/// without one space behind the colon.
pub proof fn lemma_line_kinds(r: ReaderModel, key: Seq<char>, value: Seq<char>)
    requires
        key.len() > 0,
        forall|i: int| 0 <= i < key.len() ==> #[trigger] key[i] != ':',
    ensures
        r.current.has_field() ==> r.after_line(Seq::empty()) == (ReaderModel {
            frames: r.frames.push(r.current),
            current: (FrameModel { event: None, id: None, data: None }),
        }),
        !r.current.has_field() ==> r.after_line(Seq::empty()) == r,
        r.after_line(key) == r,
        r.after_line(seq![':'] + value) == r,
        r.after_line(key + seq![':', ' '] + value) == (ReaderModel {
            frames: r.frames,
            current: r.current.with_field(key, value),
        }),
        value.len() == 0 || value[0] != ' ' ==> r.after_line(key + seq![':'] + value) == (
        ReaderModel { frames: r.frames, current: r.current.with_field(key, value) }),
        r.current.has_field() <==> r.current.event is Some || r.current.id is Some
            || r.current.data is Some,
{
    lemma_no_colon(key, 0);
    assert(colon_index(seq![':'] + value, 0) == 0);
    let spaced = key + seq![':', ' '] + value;
    lemma_colon_after_key(spaced, key, 0);
    assert(spaced.take(key.len() as int) =~= key);
    assert(field_value(spaced.skip(key.len() as int + 1)) =~= value);
    let plain = key + seq![':'] + value;
    lemma_colon_after_key(plain, key, 0);
    assert(plain.take(key.len() as int) =~= key);
    assert(plain.skip(key.len() as int + 1) =~= value);
}

proof fn lemma_no_colon(line: Seq<char>, n: int)
    requires
        0 <= n <= line.len(),
        forall|i: int| 0 <= i < line.len() ==> #[trigger] line[i] != ':',
    ensures
        colon_index(line, n) == line.len(),
    decreases line.len() - n,
{
    if n < line.len() {
        assert(line[n] != ':');
        lemma_no_colon(line, n + 1);
    }
}

/// What a field does: an event or an id takes the place of an earlier one, data
/// goes behind earlier data on a line of its own, and other fields do nothing.
pub proof fn lemma_field_kinds(f: FrameModel, key: Seq<char>, value: Seq<char>)
    ensures
        f.with_field("event"@, value) == (FrameModel { event: Some(value), ..f }),
        f.with_field("id"@, value) == (FrameModel { id: Some(value), ..f }),
        f.data is None ==> f.with_field("data"@, value) == (FrameModel { data: Some(value), ..f }),
        f.data matches Some(data) ==> f.with_field("data"@, value) == (FrameModel {
            data: Some(data + seq!['\n'] + value),
            ..f
        }),
        key != "event"@ && key != "id"@ && key != "data"@ ==> f.with_field(key, value) == f,
{
    reveal_strlit("event");
    reveal_strlit("id");
    reveal_strlit("data");
    assert("data"@.len() != "event"@.len());
    assert("data"@.len() != "id"@.len());
    assert("event"@.len() != "id"@.len());
    if let Some(data) = f.data {
        assert(data.push('\n') + value =~= data + seq!['\n'] + value);
    }
}

} // verus!
