//! Server-sent events: cutting a byte buffer into `event:`/`data:` frames.
use vstd::prelude::*;
use vstd::utf8::encode_utf8;
use crate::common::message::StreamEvent;
use crate::text::{
    chars_of, first_occurrence, find_chars, occurs_at, owned, split_char, starts_with, str_skip,
    str_split_char, str_starts_with, string_of_range, lemma_first_occurrence,
};

verus! {

/// A provider's parser of SSE frames into stream events.
pub trait SseEventParser {
    /// Stream events for one frame.
    fn parse(&mut self, event: &str, data: &str) -> Vec<StreamEvent>;

    /// Whether the provider signalled the end of the stream.
    fn is_done(&self) -> bool;
}

/// What `String::from_utf8_lossy` makes of the bytes: invalid sequences
/// become U+FFFD.
pub uninterp spec fn spec_utf8_lossy(bytes: Seq<u8>) -> Seq<char>;

/// Calls `String::from_utf8_lossy` on the bytes; the text is named, and,
/// as std documents, bytes that are valid UTF-8 come back as the text they
/// encode.
#[verifier::external_body]
fn utf8_lossy(bytes: &[u8]) -> (r: String)
    ensures
        r@ == spec_utf8_lossy(bytes@),
        forall|t: Seq<char>| #[trigger] encode_utf8(t) == bytes@ ==> r@ == t,
{
    String::from_utf8_lossy(bytes).into_owned()
}

/// A line of a frame without its carriage return.
pub open spec fn strip_cr(line: Seq<char>) -> Seq<char> {
    if line.len() > 0 && line.last() == '\r' { line.drop_last() } else { line }
}

/// The `event:` and `data:` values of the frame's lines; a later line of the
/// same kind wins, a missing one is empty.
pub open spec fn frame_fields(lines: Seq<Seq<char>>) -> (Seq<char>, Seq<char>)
    decreases lines.len(),
{
    if lines.len() == 0 {
        (Seq::empty(), Seq::empty())
    } else {
        let prev = frame_fields(lines.drop_last());
        let l = strip_cr(lines.last());
        if starts_with(l, "event: "@) {
            (l.skip(7), prev.1)
        } else if starts_with(l, "data: "@) {
            (prev.0, l.skip(6))
        } else {
            prev
        }
    }
}

/// Where the first frame of a text ends, in bytes, if a blank line ends one.
pub open spec fn text_frame_end(text: Seq<char>) -> Option<nat> {
    match first_occurrence(text, seq!['\n', '\n']) {
        Some(p) => Some(encode_utf8(text.take(p)).len()),
        None => None,
    }
}

/// The first frame's fields in a text, when a blank line ends one and it
/// carries data.
pub open spec fn text_frame(text: Seq<char>) -> Option<(Seq<char>, Seq<char>)> {
    match first_occurrence(text, seq!['\n', '\n']) {
        Some(p) => {
            let (e, d) = frame_fields(split_char(text.take(p), '\n'));
            if d.len() == 0 { None } else { Some((e, d)) }
        },
        None => None,
    }
}

/// Where the first frame of the buffer ends, in bytes of its text, if a
/// blank line ends one.
pub open spec fn frame_end(buffer: Seq<u8>) -> Option<nat> {
    text_frame_end(spec_utf8_lossy(buffer))
}

/// Whether cutting the buffer after the first frame stays inside it.
pub open spec fn frame_fits(buffer: Seq<u8>) -> bool {
    match frame_end(buffer) {
        Some(b) => b + 2 <= buffer.len(),
        None => true,
    }
}

/// The first frame's fields, when a blank line ends one and it carries data.
pub open spec fn spec_frame(buffer: Seq<u8>) -> Option<(Seq<char>, Seq<char>)> {
    text_frame(spec_utf8_lossy(buffer))
}

fn line_fields(lines: &[String]) -> (r: (String, String))
    ensures
        r.0@ == frame_fields(crate::text::views(lines@)).0,
        r.1@ == frame_fields(crate::text::views(lines@)).1,
{
    proof {
        reveal_strlit("event: ");
        reveal_strlit("data: ");
    }
    let mut event = String::new();
    let mut data = String::new();
    let mut i: usize = 0;
    while i < lines.len()
        invariant
            i <= lines@.len(),
            event@ == frame_fields(crate::text::views(lines@.take(i as int))).0,
            data@ == frame_fields(crate::text::views(lines@.take(i as int))).1,
        decreases lines@.len() - i,
    {
        proof {
            reveal_strlit("event: ");
            reveal_strlit("data: ");
        }
        assert(crate::text::views(lines@.take(i + 1)).drop_last() =~= crate::text::views(lines@.take(i as int)));
        let v = chars_of(lines[i].as_str());
        let n = v.len();
        let line = if n > 0 && v[n - 1] == '\r' {
            let l = string_of_range(v.as_slice(), 0, n - 1);
            assert(v@.subrange(0, n - 1) =~= v@.drop_last());
            l
        } else {
            owned(lines[i].as_str())
        };
        assert(line@ == strip_cr(lines@[i as int]@));
        assert(crate::text::views(lines@.take(i + 1)).last() == lines@[i as int]@);
        assert(crate::text::views(lines@.take(i + 1)).len() > 0);
        if str_starts_with(line.as_str(), "event: ") {
            event = str_skip(line.as_str(), 7);
        } else if str_starts_with(line.as_str(), "data: ") {
            data = str_skip(line.as_str(), 6);
        }
        i = i + 1;
    }
    assert(lines@.take(lines@.len() as int) =~= lines@);
    (event, data)
}

/// The first frame of decoded stream text: where it ends, in bytes, and
/// its `event:`/`data:` fields when it carries data; `None` while no blank
/// line ends a frame.
pub fn split_frame(text: &str) -> (r: Option<(usize, Option<(String, String)>)>)
    ensures
        match text_frame_end(text@) {
            None => r is None,
            Some(b) => r matches Some((n, f)) && n == b && match text_frame(text@) {
                Some((e, d)) => f matches Some((x, y)) && x@ == e && y@ == d,
                None => f is None,
            },
        },
{
    broadcast use vstd::utf8::encode_utf8_valid_utf8, vstd::utf8::encode_utf8_decode_utf8;
    let tv = chars_of(text);
    let nl: Vec<char> = vec!['\n', '\n'];
    assert(nl@ =~= seq!['\n', '\n']);
    let p = match find_chars(tv.as_slice(), nl.as_slice()) {
        Some(p) => p,
        None => {
            return None;
        },
    };
    let frame = string_of_range(tv.as_slice(), 0, p);
    assert(tv@.subrange(0, p as int) =~= tv@.take(p as int));
    let boundary = frame.as_str().as_bytes().len();
    assert(boundary == encode_utf8(frame@).len());
    let lines = str_split_char(frame.as_str(), '\n');
    let (event, data) = line_fields(lines.as_slice());
    if data.as_str().is_empty() {
        return Some((boundary, None));
    }
    Some((boundary, Some((event, data))))
}

fn drop_front(buffer: &mut Vec<u8>, start: usize)
    requires
        start <= old(buffer)@.len(),
    ensures
        final(buffer)@ == old(buffer)@.skip(start as int),
{
    let mut rest: Vec<u8> = Vec::new();
    let mut i: usize = start;
    while i < buffer.len()
        invariant
            start <= i <= buffer@.len(),
            rest@ == buffer@.subrange(start as int, i as int),
        decreases buffer@.len() - i,
    {
        rest.push(buffer[i]);
        i = i + 1;
        assert(rest@ =~= buffer@.subrange(start as int, i as int));
    }
    assert(buffer@.subrange(start as int, buffer@.len() as int) =~= buffer@.skip(start as int));
    *buffer = rest;
}

/// Take the first complete frame off the buffer. The buffer loses the frame
/// and its blank line whenever one is complete; the frame's fields come back
/// when it carries data.
pub fn extract_frame(buffer: &mut Vec<u8>) -> (r: Option<(String, String)>)
    requires
        frame_fits(old(buffer)@),
    ensures
        match frame_end(old(buffer)@) {
            Some(b) => final(buffer)@ == old(buffer)@.skip(b as int + 2),
            None => final(buffer)@ == old(buffer)@,
        },
        match spec_frame(old(buffer)@) {
            Some((e, d)) => r matches Some((x, y)) && x@ == e && y@ == d,
            None => r is None,
        },
{
    let ghost b0 = buffer@;
    let text = utf8_lossy(buffer.as_slice());
    let ghost t0 = text@;
    assert(frame_end(b0) == text_frame_end(t0));
    assert(spec_frame(b0) == text_frame(t0));
    let sf = split_frame(text.as_str());
    if sf.is_none() {
        return None;
    }
    let (boundary, fields) = sf.unwrap();
    assert(frame_end(b0) == Some(boundary as nat));
    let total = buffer.len();
    assert(boundary + 2 <= total);
    drop_front(buffer, boundary + 2);
    fields
}

/// Take the first complete frame off the buffer, if cutting it is possible:
/// `None` (buffer unchanged) when the frame's end, measured in the lossily
/// decoded text, lies past the buffer's end.
pub fn try_extract_frame(buffer: &mut Vec<u8>) -> (r: Option<Option<(String, String)>>)
    ensures
        !frame_fits(old(buffer)@) ==> r is None && final(buffer)@ == old(buffer)@,
        frame_fits(old(buffer)@) ==> r is Some && match frame_end(old(buffer)@) {
            Some(b) => final(buffer)@ == old(buffer)@.skip(b as int + 2),
            None => final(buffer)@ == old(buffer)@,
        } && match spec_frame(old(buffer)@) {
            Some((e, d)) => r matches Some(Some((x, y))) && x@ == e && y@ == d,
            None => r matches Some(None),
        },
{
    let text = utf8_lossy(buffer.as_slice());
    if let Some((boundary, _)) = split_frame(text.as_str()) {
        if boundary > buffer.len() || buffer.len() - boundary < 2 {
            return None;
        }
    }
    Some(extract_frame(buffer))
}

}
