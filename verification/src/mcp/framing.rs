//! How messages are parted on a stream of bytes: by a header with the length of the body,
//! or by line ends.

use vstd::prelude::*;

use crate::error;
use crate::error::Error;
use crate::json;
use crate::json::{Json, JsonView};
use crate::text;

verus! {

/// How messages are parted.
#[derive(Debug, Clone, Copy, PartialEq, Eq, Structural)]
pub enum FramingMode {
    /// A header gives the length of the body.
    ContentLength,
    /// A message is a line.
    NewlineDelimited,
}

/// The text that `String::from_utf8_lossy` makes of bytes that are no valid UTF-8.
pub uninterp spec fn lossy_text(bytes: Seq<u8>) -> Seq<char>;

/// `String::from_utf8_lossy`: bytes that are valid UTF-8 are decoded. What becomes of
/// others is not spelled out.
#[verifier::external_body]
fn decode_lossy(bytes: &Vec<u8>) -> (r: String)
    ensures
        r@ == if vstd::utf8::valid_utf8(bytes@) {
            vstd::utf8::decode_utf8(bytes@)
        } else {
            lossy_text(bytes@)
        },
{
    String::from_utf8_lossy(bytes).into_owned()
}

/// The text that bytes are read as.
pub open spec fn read_as(bytes: Seq<u8>) -> Seq<char> {
    if vstd::utf8::valid_utf8(bytes) {
        vstd::utf8::decode_utf8(bytes)
    } else {
        lossy_text(bytes)
    }
}

// ---------------------------------------------------------------------------
// Detection
// ---------------------------------------------------------------------------

/// White space between messages.
pub open spec fn blank_byte(b: u8) -> bool {
    b == 10 || b == 13 || b == 32 || b == 9
}

/// What the beginning of a stream tells of its framing.
pub enum Detection {
    /// Nothing yet.
    Wait,
    /// The stream ended.
    End,
    /// The framing, and the number of blank bytes before the first message.
    Found {
        /// The framing.
        mode: FramingMode,
        /// Blank bytes to skip.
        skip: usize,
    },
}

/// The framing that the first byte of a message shows: a header begins with its name,
/// anything else is a line.
pub open spec fn framing_of(b: u8) -> FramingMode {
    if b == 67 || b == 99 {
        FramingMode::ContentLength
    } else {
        FramingMode::NewlineDelimited
    }
}

/// The framing that a stream shows from a position on.
pub open spec fn detected(s: Seq<u8>, from: int, at_end: bool) -> Detection
    decreases s.len() - from,
{
    if from < 0 || from >= s.len() {
        if at_end {
            Detection::End
        } else {
            Detection::Wait
        }
    } else if blank_byte(s[from]) {
        detected(s, from + 1, at_end)
    } else {
        Detection::Found { mode: framing_of(s[from]), skip: from as usize }
    }
}

/// The framing that the beginning of a stream shows.
pub fn detect_framing(buffer: &Vec<u8>, at_end: bool) -> (r: Detection)
    ensures
        r == detected(buffer@, 0, at_end),
        r matches Detection::Found { skip, .. } ==> skip < buffer@.len(),
{
    let mut i: usize = 0;
    while i < buffer.len()
        invariant
            i <= buffer@.len(),
            detected(buffer@, 0, at_end) == detected(buffer@, i as int, at_end),
        decreases buffer@.len() - i,
    {
        let b: u8 = buffer[i];
        if !(b == 10 || b == 13 || b == 32 || b == 9) {
            let mode = if b == 67 || b == 99 {
                FramingMode::ContentLength
            } else {
                FramingMode::NewlineDelimited
            };
            return Detection::Found { mode, skip: i };
        }
        i += 1;
    }
    if at_end {
        Detection::End
    } else {
        Detection::Wait
    }
}

// ---------------------------------------------------------------------------
// Reading
// ---------------------------------------------------------------------------

/// The next message on a stream.
#[derive(Debug)]
pub enum Frame {
    /// It is not complete yet.
    Wait,
    /// There is none.
    End,
    /// The body of a message, and the number of bytes that it takes with its header.
    Body {
        /// The body.
        bytes: Vec<u8>,
        /// Bytes that are done with.
        used: usize,
    },
    /// A message on a line, and the number of bytes up to the end of the line.
    Line {
        /// The message.
        text: String,
        /// Bytes that are done with.
        used: usize,
    },
    /// The stream is not as it should be.
    Failed(Error),
}

/// The view of a [`Frame`].
#[verifier::ext_equal]
pub enum FrameView {
    Wait,
    End,
    Body { bytes: Seq<u8>, used: int },
    Line { text: Seq<char>, used: int },
    Failed(Seq<char>),
}

impl DeepView for Frame {
    type V = FrameView;

    open spec fn deep_view(&self) -> FrameView {
        match self {
            Frame::Wait => FrameView::Wait,
            Frame::End => FrameView::End,
            Frame::Body { bytes, used } => FrameView::Body { bytes: bytes@, used: *used as int },
            Frame::Line { text, used } => FrameView::Line { text: text@, used: *used as int },
            Frame::Failed(e) => FrameView::Failed(e.deep_view()),
        }
    }
}

/// The position after the first line end from a position on.
pub open spec fn line_end(s: Seq<u8>, from: int) -> Option<int>
    decreases s.len() - from,
{
    if from < 0 || from >= s.len() {
        None
    } else if s[from] == 10 {
        Some(from + 1)
    } else {
        line_end(s, from + 1)
    }
}

pub proof fn lemma_line_end(s: Seq<u8>, from: int)
    ensures
        line_end(s, from) matches Some(end) ==> from < end <= s.len(),
    decreases s.len() - from,
{
    if 0 <= from < s.len() && s[from] != 10 {
        lemma_line_end(s, from + 1);
    }
}

fn find_line_end(s: &Vec<u8>, from: usize) -> (r: Option<usize>)
    requires
        from <= s@.len(),
    ensures
        match r {
            Some(end) => line_end(s@, from as int) == Some(end as int) && from < end <= s@.len(),
            None => line_end(s@, from as int) is None,
        },
{
    let mut i: usize = from;
    while i < s.len()
        invariant
            from <= i <= s@.len(),
            line_end(s@, from as int) == line_end(s@, i as int),
        decreases s@.len() - i,
    {
        if s[i] == 10 {
            return Some(i + 1);
        }
        i += 1;
    }
    None
}

/// The bytes from a position up to another.
fn bytes_between(s: &Vec<u8>, from: usize, to: usize) -> (r: Vec<u8>)
    requires
        from <= to <= s@.len(),
    ensures
        r@ == s@.subrange(from as int, to as int),
{
    let mut out: Vec<u8> = Vec::new();
    let mut i: usize = from;
    while i < to
        invariant
            from <= i <= to <= s@.len(),
            out@ == s@.subrange(from as int, i as int),
        decreases to - i,
    {
        out.push(s[i]);
        assert(out@ =~= s@.subrange(from as int, i + 1));
        i += 1;
    }
    out
}

/// A line that ends the header.
pub open spec fn blank_line(line: Seq<u8>) -> bool {
    line == seq![13u8, 10u8] || line == seq![10u8]
}

/// The length that the header gives, after one more line of it. The last one counts.
pub open spec fn length_after(length: Option<Seq<char>>, line: Seq<char>) -> Option<Seq<char>> {
    match text::cut(line, ':') {
        Some((name, value)) if text::lowered(text::trimmed(name)) == "content-length"@ => Some(
            text::trimmed(value),
        ),
        _ => length,
    }
}

/// What the header of a message comes to.
pub enum Header {
    /// It is not complete yet.
    Wait,
    /// The stream ends before it does.
    End,
    /// It gives a length and ends at a position.
    Done { length: Option<Seq<char>>, end: int },
}

/// What the header of a message comes to, from a position on.
pub open spec fn header_from(s: Seq<u8>, from: int, length: Option<Seq<char>>, at_end: bool) -> Header
    decreases s.len() - from,
{
    proof {
        lemma_line_end(s, from);
    }
    match line_end(s, from) {
        Some(end) => {
            let line = s.subrange(from, end);
            if blank_line(line) {
                Header::Done { length, end }
            } else {
                header_from(s, end, length_after(length, read_as(line)), at_end)
            }
        },
        None => if at_end {
            Header::End
        } else {
            Header::Wait
        },
    }
}

/// The body after a header.
pub open spec fn body_after(s: Seq<u8>, length: Option<Seq<char>>, end: int, at_end: bool) -> FrameView {
    match length {
        Some(t) => match text::unsigned_up_to(t, usize::MAX as nat) {
            Some(n) => if n <= s.len() - end {
                FrameView::Body { bytes: s.subrange(end, end + n), used: end + n }
            } else if at_end {
                FrameView::Failed("early eof"@)
            } else {
                FrameView::Wait
            },
            None => FrameView::Failed("invalid Content-Length header"@),
        },
        None => FrameView::Failed("missing Content-Length header"@),
    }
}

/// The first message on a stream, by the length of its body.
pub open spec fn body_frame(s: Seq<u8>, at_end: bool) -> FrameView {
    match header_from(s, 0, None, at_end) {
        Header::Wait => FrameView::Wait,
        Header::End => FrameView::End,
        Header::Done { length, end } => body_after(s, length, end, at_end),
    }
}

/// The first message on a stream from a position on, by line ends. Blank lines are passed
/// over, and at the end of the stream a line needs no end.
pub open spec fn line_frame(s: Seq<u8>, from: int, at_end: bool) -> FrameView
    decreases s.len() - from,
{
    proof {
        lemma_line_end(s, from);
    }
    match line_end(s, from) {
        Some(end) => {
            let t = text::trimmed(read_as(s.subrange(from, end)));
            if t.len() == 0 {
                line_frame(s, end, at_end)
            } else {
                FrameView::Line { text: t, used: end }
            }
        },
        None => if !at_end {
            FrameView::Wait
        } else {
            let t = text::trimmed(read_as(s.subrange(from, s.len() as int)));
            if from >= s.len() || t.len() == 0 {
                FrameView::End
            } else {
                FrameView::Line { text: t, used: s.len() as int }
            }
        },
    }
}

/// The first message on a stream, as it is written.
pub open spec fn first_frame(s: Seq<u8>, mode: FramingMode, at_end: bool) -> FrameView {
    match mode {
        FramingMode::ContentLength => body_frame(s, at_end),
        FramingMode::NewlineDelimited => line_frame(s, 0, at_end),
    }
}

fn is_blank_line(line: &Vec<u8>) -> (r: bool)
    ensures
        r == blank_line(line@),
{
    let r = (line.len() == 2 && line[0] == 13 && line[1] == 10) || (line.len() == 1 && line[0]
        == 10);
    assert(line@.len() == 2 && line@[0] == 13 && line@[1] == 10 ==> line@ =~= seq![13u8, 10u8]);
    assert(line@.len() == 1 && line@[0] == 10 ==> line@ =~= seq![10u8]);
    r
}

fn read_length(length: Option<String>, line: &str) -> (r: Option<String>)
    ensures
        r.deep_view() == length_after(length.deep_view(), line@),
{
    match text::split_once(line, ':') {
        Some((name, value)) => {
            let trimmed = text::trim(name.as_str());
            let lower = text::to_lower(trimmed.as_str());
            if text::same(lower.as_str(), "content-length") {
                Some(text::trim(value.as_str()))
            } else {
                length
            }
        },
        None => length,
    }
}

fn read_body(s: &Vec<u8>, length: Option<String>, end: usize, at_end: bool) -> (r: Frame)
    requires
        end <= s@.len(),
    ensures
        r.deep_view() == body_after(s@, length.deep_view(), end as int, at_end),
        r matches Frame::Body { used, .. } ==> used <= s@.len(),
        !(r is Line),
{
    match length {
        Some(t) => match text::parse_unsigned(t.as_str(), usize::MAX as u64) {
            Some(n) => {
                let n: usize = n as usize;
                if n <= s.len() - end {
                    Frame::Body { bytes: bytes_between(s, end, end + n), used: end + n }
                } else if at_end {
                    Frame::Failed(error::failure("early eof".to_owned()))
                } else {
                    Frame::Wait
                }
            },
            None => Frame::Failed(error::failure("invalid Content-Length header".to_owned())),
        },
        None => Frame::Failed(error::failure("missing Content-Length header".to_owned())),
    }
}

/// The first message on a stream, by the length of its body.
pub fn read_content_length_message(s: &Vec<u8>, at_end: bool) -> (r: Frame)
    ensures
        r.deep_view() == body_frame(s@, at_end),
        r matches Frame::Body { used, .. } ==> used <= s@.len(),
        !(r is Line),
{
    let mut from: usize = 0;
    let mut length: Option<String> = None;
    loop
        invariant
            from <= s@.len(),
            header_from(s@, 0, None, at_end) == header_from(
                s@,
                from as int,
                length.deep_view(),
                at_end,
            ),
        decreases s@.len() - from,
    {
        match find_line_end(s, from) {
            Some(end) => {
                let line = bytes_between(s, from, end);
                if is_blank_line(&line) {
                    return read_body(s, length, end, at_end);
                }
                let decoded = decode_lossy(&line);
                length = read_length(length, decoded.as_str());
                from = end;
            },
            None => {
                return if at_end {
                    Frame::End
                } else {
                    Frame::Wait
                };
            },
        }
    }
}

/// The first message on a stream, by line ends.
pub fn read_newline_message(s: &Vec<u8>, at_end: bool) -> (r: Frame)
    ensures
        r.deep_view() == line_frame(s@, 0, at_end),
        r matches Frame::Line { used, .. } ==> used <= s@.len(),
        !(r is Body),
{
    let mut from: usize = 0;
    loop
        invariant
            from <= s@.len(),
            line_frame(s@, 0, at_end) == line_frame(s@, from as int, at_end),
        decreases s@.len() - from,
    {
        match find_line_end(s, from) {
            Some(end) => {
                let line = bytes_between(s, from, end);
                let decoded = decode_lossy(&line);
                let t = text::trim(decoded.as_str());
                if !t.as_str().is_empty() {
                    return Frame::Line { text: t, used: end };
                }
                from = end;
            },
            None => {
                if !at_end {
                    return Frame::Wait;
                }
                if from >= s.len() {
                    return Frame::End;
                }
                let n: usize = s.len();
                let line = bytes_between(s, from, n);
                let decoded = decode_lossy(&line);
                let t = text::trim(decoded.as_str());
                return if t.as_str().is_empty() {
                    Frame::End
                } else {
                    Frame::Line { text: t, used: n }
                };
            },
        }
    }
}

/// The first message on a stream, as it is written.
pub fn read_frame(s: &Vec<u8>, mode: FramingMode, at_end: bool) -> (r: Frame)
    ensures
        r.deep_view() == first_frame(s@, mode, at_end),
        r matches Frame::Body { used, .. } ==> used <= s@.len(),
        r matches Frame::Line { used, .. } ==> used <= s@.len(),
{
    match mode {
        FramingMode::ContentLength => read_content_length_message(s, at_end),
        FramingMode::NewlineDelimited => read_newline_message(s, at_end),
    }
}

/// What the beginning of a stream says.
#[derive(Debug)]
pub enum Message {
    /// Nothing complete yet.
    Wait,
    /// Nothing.
    End,
    /// A value, and the number of bytes that it takes.
    Value {
        /// The value.
        value: Json,
        /// Bytes that are done with.
        used: usize,
    },
    /// The stream is not as it should be.
    Failed(Error),
}

/// The view of a [`Message`].
#[verifier::ext_equal]
pub enum MessageView {
    Wait,
    End,
    Value { value: JsonView, used: int },
    Failed(Seq<char>),
}

impl DeepView for Message {
    type V = MessageView;

    open spec fn deep_view(&self) -> MessageView {
        match self {
            Message::Wait => MessageView::Wait,
            Message::End => MessageView::End,
            Message::Value { value, used } => MessageView::Value {
                value: value.deep_view(),
                used: *used as int,
            },
            Message::Failed(e) => MessageView::Failed(e.deep_view()),
        }
    }
}

/// What a message is, given what its text denotes.
pub open spec fn understood(meaning: Result<JsonView, Seq<char>>, used: int) -> MessageView {
    match meaning {
        Ok(value) => MessageView::Value { value, used },
        Err(message) => MessageView::Failed(message),
    }
}

/// What a message says.
pub open spec fn message_in(frame: FrameView) -> MessageView {
    match frame {
        FrameView::Wait => MessageView::Wait,
        FrameView::End => MessageView::End,
        FrameView::Body { bytes, used } => understood(json::bytes_meaning(bytes), used),
        FrameView::Line { text, used } => understood(json::text_meaning(text), used),
        FrameView::Failed(message) => MessageView::Failed(message),
    }
}

fn understand(meaning: Result<Json, Error>, used: usize) -> (r: Message)
    ensures
        r.deep_view() == understood(error::outcome(meaning), used as int),
        r matches Message::Value { used: n, .. } ==> n == used,
{
    match meaning {
        Ok(value) => Message::Value { value, used },
        Err(e) => Message::Failed(e),
    }
}

/// The first message on a stream.
pub fn read_message(s: &Vec<u8>, mode: FramingMode, at_end: bool) -> (r: Message)
    ensures
        r.deep_view() == message_in(first_frame(s@, mode, at_end)),
        r matches Message::Value { used, .. } ==> used <= s@.len(),
{
    match read_frame(s, mode, at_end) {
        Frame::Wait => Message::Wait,
        Frame::End => Message::End,
        Frame::Body { bytes, used } => understand(Json::parse_bytes(bytes.as_slice()), used),
        Frame::Line { text, used } => understand(Json::parse(text.as_str()), used),
        Frame::Failed(e) => Message::Failed(e),
    }
}

/// The number of bytes that a message takes.
pub open spec fn taken(message: MessageView) -> int {
    match message {
        MessageView::Value { used, .. } => used,
        _ => 0,
    }
}

/// The next message on a stream, with the framing that holds from then on and the number
/// of bytes that are done with. Framing that is known is kept; otherwise the stream shows
/// it, and the blank bytes before the first message are done with too.
pub open spec fn next_in(s: Seq<u8>, framing: Option<FramingMode>, at_end: bool) -> (
    Option<FramingMode>,
    int,
    MessageView,
) {
    match framing {
        Some(mode) => {
            let message = message_in(first_frame(s, mode, at_end));
            (framing, taken(message), message)
        },
        None => match detected(s, 0, at_end) {
            Detection::Wait => (None, 0, MessageView::Wait),
            Detection::End => (None, 0, MessageView::End),
            Detection::Found { mode, skip } => {
                let message = message_in(first_frame(s.skip(skip as int), mode, at_end));
                (Some(mode), skip + taken(message), message)
            },
        },
    }
}

/// The next message on a stream, with the framing that holds from then on and the number
/// of bytes that are done with.
pub fn next_message(buffer: &Vec<u8>, framing: Option<FramingMode>, at_end: bool) -> (r: (
    Option<FramingMode>,
    usize,
    Message,
))
    ensures
        (r.0, r.1 as int, r.2.deep_view()) == next_in(buffer@, framing, at_end),
        r.1 <= buffer@.len(),
{
    match framing {
        Some(mode) => {
            let message = read_message(buffer, mode, at_end);
            let used: usize = match &message {
                Message::Value { used, .. } => *used,
                _ => 0,
            };
            (framing, used, message)
        },
        None => match detect_framing(buffer, at_end) {
            Detection::Wait => (None, 0, Message::Wait),
            Detection::End => (None, 0, Message::End),
            Detection::Found { mode, skip } => {
                let n: usize = buffer.len();
                let rest = bytes_between(buffer, skip, n);
                assert(rest@ =~= buffer@.skip(skip as int));
                let message = read_message(&rest, mode, at_end);
                let used: usize = match &message {
                    Message::Value { used, .. } => *used,
                    _ => 0,
                };
                (Some(mode), skip + used, message)
            },
        },
    }
}

// ---------------------------------------------------------------------------
// Writing
// ---------------------------------------------------------------------------

/// The header for a body of a length.
pub open spec fn header_text(length: nat) -> Seq<char> {
    "Content-Length: "@ + text::decimal(length) + "\r\n\r\n"@
}

/// A message on a stream.
pub open spec fn framed(body: Seq<u8>, mode: FramingMode) -> Seq<u8> {
    match mode {
        FramingMode::ContentLength => vstd::utf8::encode_utf8(header_text(body.len())) + body,
        FramingMode::NewlineDelimited => body + seq![10u8],
    }
}

/// A message of given bytes as it goes on a stream.
pub fn write_frame(body: &Vec<u8>, mode: FramingMode) -> (r: Vec<u8>)
    ensures
        r@ == framed(body@, mode),
{
    let n: usize = body.len();
    let mut out: Vec<u8> = Vec::new();
    match mode {
        FramingMode::ContentLength => {
            let mut header = "Content-Length: ".to_owned();
            let number = text::write_decimal(n as u64);
            header.append(number.as_str());
            header.append("\r\n\r\n");
            out = header.as_str().as_bytes_vec();
        },
        FramingMode::NewlineDelimited => {},
    }
    let ghost head = out@;
    let mut i: usize = 0;
    assert(head + body@.take(0) =~= head);
    while i < n
        invariant
            n == body@.len(),
            i <= n,
            out@ == head + body@.take(i as int),
        decreases n - i,
    {
        out.push(body[i]);
        assert(out@ =~= head + body@.take(i + 1));
        i += 1;
    }
    assert(body@.take(i as int) =~= body@);
    match mode {
        FramingMode::ContentLength => {},
        FramingMode::NewlineDelimited => {
            out.push(10);
            assert(out@ =~= body@ + seq![10u8]);
        },
    }
    out
}

/// A value as it goes on a stream. It is the next message there, whatever follows it and
/// whether or not the framing is known, and takes all the bytes that were written. That
/// needs an object on a line, numbers that are integers, and not too many lists and objects
/// within each other.
pub fn write_message(value: &Json, mode: FramingMode) -> (r: Vec<u8>)
    ensures
        r@ == framed(
            vstd::utf8::encode_utf8(json::compact_text(json::canonical(value.deep_view()))),
            mode,
        ),
        json::plain(value.deep_view(), json::MAX_DEPTH as nat) && (value.deep_view() is Object
            || mode == FramingMode::ContentLength) ==> forall|
            framing: Option<FramingMode>,
            rest: Seq<u8>,
            at_end: bool,
        |
            framing is None || framing == Some(mode) ==> #[trigger] next_in(
                r@ + rest,
                framing,
                at_end,
            ) == (
                Some(mode),
                r@.len() as int,
                MessageView::Value {
                    value: json::canonical(value.deep_view()),
                    used: r@.len() as int,
                },
            ),
{
    let body = value.write_compact();
    let r = write_frame(&body, mode);
    assert(body.len() <= usize::MAX);
    proof {
        let view = json::canonical(value.deep_view());
        let t = json::compact_text(view);
        if json::plain(value.deep_view(), json::MAX_DEPTH as nat) && (value.deep_view() is Object
            || mode == FramingMode::ContentLength) {
            assert forall|framing: Option<FramingMode>, rest: Seq<u8>, at_end: bool|
                framing is None || framing == Some(mode) implies #[trigger] next_in(
                r@ + rest,
                framing,
                at_end,
            ) == (
                Some(mode),
                r@.len() as int,
                (MessageView::Value { value: view, used: r@.len() as int }),
            ) by {
                lemma_text_comes_back(t, view, mode, framing, rest, at_end);
            }
        }
    }
    r
}

// ---------------------------------------------------------------------------
// What is written can be read
// ---------------------------------------------------------------------------

proof fn lemma_first_index(s: Seq<char>, c: char, i: int)
    requires
        0 <= i < s.len(),
        s[i] == c,
        forall|j: int| 0 <= j < i ==> s[j] != c,
    ensures
        text::first_index(s, c) == Some(i),
    decreases s.len(),
{
    let t = s.drop_last();
    if i < t.len() {
        lemma_first_index(t, c, i);
    } else {
        lemma_no_index(t, c);
    }
}

proof fn lemma_no_index(s: Seq<char>, c: char)
    requires
        forall|j: int| 0 <= j < s.len() ==> s[j] != c,
    ensures
        text::first_index(s, c) is None,
    decreases s.len(),
{
    if s.len() > 0 {
        lemma_no_index(s.drop_last(), c);
    }
}

proof fn lemma_line_end_at(s: Seq<u8>, from: int, k: int)
    requires
        0 <= from <= k < s.len(),
        s[k] == 10,
        forall|j: int| from <= j < k ==> s[j] != 10,
    ensures
        line_end(s, from) == Some(k + 1),
    decreases k - from,
{
    if from < k {
        lemma_line_end_at(s, from + 1, k);
    }
}

proof fn lemma_header_line(dec: Seq<char>)
    requires
        dec.len() > 0,
        text::all_digits(dec),
    ensures
        length_after(None, "Content-Length: "@ + dec + seq!['\r', '\n']) == Some(dec),
{
    reveal_strlit("Content-Length: ");
    reveal_strlit("content-length");
    let line = "Content-Length: "@ + dec + seq!['\r', '\n'];
    lemma_first_index(line, ':', 14);
    let name = line.take(14);
    let value = line.skip(15);
    assert(name.first() == 'C');
    assert(name.last() == 'h');
    assert(text::trimmed(name) =~= name);
    assert(text::lowered(name) =~= "content-length"@);
    assert(value =~= seq![' '] + dec + seq!['\r', '\n']);
    let a = value.drop_first();
    assert(a =~= dec + seq!['\r', '\n']);
    assert(text::is_digit(dec[0]));
    assert(a.first() == dec[0]);
    assert(text::trimmed_start(a) == a);
    assert(text::trimmed_start(value) == a);
    let b = a.drop_last();
    assert(b =~= dec + seq!['\r']);
    let c = b.drop_last();
    assert(c =~= dec);
    assert(text::is_digit(dec[dec.len() - 1]));
    assert(text::trimmed_end(c) == c);
    assert(text::trimmed_end(b) == c);
    assert(text::trimmed_end(a) == c);
}

proof fn lemma_ascii_bytes(chars: Seq<char>)
    requires
        vstd::utf8::is_ascii_chars(chars),
    ensures
        vstd::utf8::encode_utf8(chars).len() == chars.len(),
        forall|i: int|
            0 <= i < chars.len() ==> #[trigger] vstd::utf8::encode_utf8(chars)[i] == chars[i] as u8,
        read_as(vstd::utf8::encode_utf8(chars)) == chars,
{
    vstd::utf8::is_ascii_chars_encode_utf8(chars);
    vstd::utf8::encode_utf8_valid_utf8(chars);
    vstd::utf8::encode_utf8_decode_utf8(chars);
}

/// A body that is written with its length is read back whole, whatever follows it.
pub proof fn law_body_comes_back(body: Seq<u8>, rest: Seq<u8>, at_end: bool)
    requires
        body.len() <= usize::MAX,
    ensures
        first_frame(
            framed(body, FramingMode::ContentLength) + rest,
            FramingMode::ContentLength,
            at_end,
        ) == (FrameView::Body {
            bytes: body,
            used: framed(body, FramingMode::ContentLength).len() as int,
        }),
{
    let dec = text::decimal(body.len());
    let d = dec.len() as int;
    text::law_decimal_is_read_back(body.len());
    reveal_strlit("Content-Length: ");
    reveal_strlit("\r\n\r\n");
    let whole = header_text(body.len());
    let line = "Content-Length: "@ + dec + seq!['\r', '\n'];
    assert forall|i: int| 0 <= i < whole.len() implies '\0' <= #[trigger] whole[i] <= '\u{7f}' by {
        if 16 <= i < 16 + d {
            assert(whole[i] == dec[i - 16]);
            assert(text::is_digit(dec[i - 16]));
        }
    }
    lemma_ascii_bytes(whole);
    assert forall|i: int| 0 <= i < line.len() implies '\0' <= #[trigger] line[i] <= '\u{7f}' by {
        assert(line[i] == whole[i]);
    }
    lemma_ascii_bytes(line);
    let h = vstd::utf8::encode_utf8(whole);
    let s = framed(body, FramingMode::ContentLength) + rest;
    assert forall|j: int| 0 <= j < 17 + d implies s[j] != 10 by {
        assert(s[j] == h[j]);
        if 16 <= j < 16 + d {
            assert(whole[j] == dec[j - 16]);
            assert(text::is_digit(dec[j - 16]));
        }
    }
    assert(s[16 + d] == 13 && s[17 + d] == 10 && s[18 + d] == 13 && s[19 + d] == 10) by {
        assert(s[16 + d] == h[16 + d]);
        assert(s[17 + d] == h[17 + d]);
        assert(s[18 + d] == h[18 + d]);
        assert(s[19 + d] == h[19 + d]);
    }
    lemma_line_end_at(s, 0, 17 + d);
    let first = s.subrange(0, 18 + d);
    assert(first =~= vstd::utf8::encode_utf8(line)) by {
        assert forall|j: int| 0 <= j < 18 + d implies first[j] == vstd::utf8::encode_utf8(line)[j] by {
            assert(first[j] == h[j]);
            assert(line[j] == whole[j]);
        }
    }
    lemma_header_line(dec);
    assert(first.len() > 2);
    lemma_line_end_at(s, 18 + d, 19 + d);
    assert(s.subrange(18 + d, 20 + d) =~= seq![13u8, 10u8]);
    assert(header_from(s, 18 + d, Some(dec), at_end) == (Header::Done {
        length: Some(dec),
        end: 20 + d,
    }));
    assert(header_from(s, 0, None, at_end) == header_from(s, 18 + d, Some(dec), at_end));
    assert(text::is_digit(dec[0]));
    assert(text::unsigned_up_to(dec, usize::MAX as nat) == Some(body.len()));
    assert(s.subrange(20 + d, 20 + d + body.len()) =~= body);
}

proof fn lemma_no_newline_byte(chars: Seq<char>)
    requires
        forall|i: int| 0 <= i < chars.len() ==> chars[i] != '\n',
    ensures
        forall|j: int|
            0 <= j < vstd::utf8::encode_utf8(chars).len() ==> vstd::utf8::encode_utf8(chars)[j]
                != 10,
    decreases chars.len(),
{
    if chars.len() > 0 {
        let c = chars[0] as u32;
        lemma_no_newline_byte(chars.drop_first());
        let head = vstd::utf8::encode_scalar(c);
        let tail = vstd::utf8::encode_utf8(chars.drop_first());
        vstd::utf8::char_u32_cast(chars[0], c);
        assert(chars[0] as int != 10);
        assert(c != 10);
        assert(c <= 0x7f ==> (c & 0x7f) as u8 == c as u8) by (bit_vector);
        assert(c <= 0x7f && c != 10 ==> (c & 0x7f) as u8 != 10) by (bit_vector);
        assert((0xC0u8 | ((c >> 6) & 0x1F) as u8) >= 0x80) by (bit_vector);
        assert((0xE0u8 | ((c >> 12) & 0x0F) as u8) >= 0x80) by (bit_vector);
        assert((0xF0u8 | ((c >> 18) & 0x7) as u8) >= 0x80) by (bit_vector);
        assert((0x80u8 | (c & 0x3F) as u8) >= 0x80) by (bit_vector);
        assert((0x80u8 | ((c >> 6) & 0x3F) as u8) >= 0x80) by (bit_vector);
        assert((0x80u8 | ((c >> 12) & 0x3F) as u8) >= 0x80) by (bit_vector);
        assert forall|j: int| 0 <= j < head.len() implies head[j] != 10 by {}
        assert forall|j: int| 0 <= j < vstd::utf8::encode_utf8(chars).len() implies
            vstd::utf8::encode_utf8(chars)[j] != 10 by {
            if j < head.len() {
                assert(vstd::utf8::encode_utf8(chars)[j] == head[j]);
            } else {
                assert(vstd::utf8::encode_utf8(chars)[j] == tail[j - head.len()]);
            }
        }
    }
}

proof fn lemma_encode_push(chars: Seq<char>, c: char)
    ensures
        vstd::utf8::encode_utf8(chars.push(c)) == vstd::utf8::encode_utf8(chars)
            + vstd::utf8::encode_scalar(c as u32),
    decreases chars.len(),
{
    let longer = chars.push(c);
    if chars.len() == 0 {
        assert(longer.drop_first() =~= Seq::empty());
        assert(vstd::utf8::encode_utf8(longer.drop_first()) =~= Seq::empty());
        assert(vstd::utf8::encode_utf8(longer) =~= vstd::utf8::encode_utf8(chars)
            + vstd::utf8::encode_scalar(c as u32));
    } else {
        assert(longer.drop_first() =~= chars.drop_first().push(c));
        lemma_encode_push(chars.drop_first(), c);
        assert(vstd::utf8::encode_utf8(longer) =~= vstd::utf8::encode_utf8(chars)
            + vstd::utf8::encode_scalar(c as u32));
    }
}

proof fn lemma_line_comes_back(message: Seq<char>, rest: Seq<u8>, at_end: bool)
    requires
        message.len() > 0,
        text::trimmed(message) == message,
        forall|j: int|
            0 <= j < vstd::utf8::encode_utf8(message).len() ==> vstd::utf8::encode_utf8(message)[j]
                != 10,
    ensures
        first_frame(
            framed(vstd::utf8::encode_utf8(message), FramingMode::NewlineDelimited) + rest,
            FramingMode::NewlineDelimited,
            at_end,
        ) == (FrameView::Line {
            text: message,
            used: vstd::utf8::encode_utf8(message).len() as int + 1,
        }),
{
    let bytes = vstd::utf8::encode_utf8(message);
    let k = bytes.len() as int;
    let s = framed(bytes, FramingMode::NewlineDelimited) + rest;
    assert forall|j: int| 0 <= j < k implies s[j] != 10 by {
        assert(s[j] == bytes[j]);
    }
    assert(s[k] == 10);
    lemma_line_end_at(s, 0, k);
    let line = message.push('\n');
    lemma_encode_push(message, '\n');
    let ten: u32 = 10;
    assert((ten & 0x7f) as u8 == 10) by (bit_vector)
        requires
            ten == 10,
    ;
    assert(vstd::utf8::encode_scalar('\n' as u32) =~= seq![10u8]);
    assert(s.subrange(0, k + 1) =~= vstd::utf8::encode_utf8(line));
    vstd::utf8::encode_utf8_valid_utf8(line);
    vstd::utf8::encode_utf8_decode_utf8(line);
    assert(read_as(s.subrange(0, k + 1)) == line);
    lemma_trimmed_push(message);
}

/// A message that is written on a line is read back whole, whatever follows it. The
/// message must not hold a line end, nor be blank or begin or end with white space.
pub proof fn law_line_comes_back(message: Seq<char>, rest: Seq<u8>, at_end: bool)
    requires
        message.len() > 0,
        text::trimmed(message) == message,
        forall|i: int| 0 <= i < message.len() ==> message[i] != '\n',
    ensures
        first_frame(
            framed(vstd::utf8::encode_utf8(message), FramingMode::NewlineDelimited) + rest,
            FramingMode::NewlineDelimited,
            at_end,
        ) == (FrameView::Line {
            text: message,
            used: vstd::utf8::encode_utf8(message).len() as int + 1,
        }),
{
    lemma_no_newline_byte(message);
    lemma_line_comes_back(message, rest, at_end);
}

proof fn lemma_scalar_ends(c: char)
    ensures
        vstd::utf8::encode_scalar(c as u32).len() > 0,
        vstd::utf8::encode_scalar(c as u32).first() == 123 ==> c == '{',
        vstd::utf8::encode_scalar(c as u32).last() == 125 ==> c == '}',
{
    let n = c as u32;
    vstd::utf8::char_u32_cast(c, n);
    assert(n <= 0x7f ==> (n & 0x7f) as u8 == n) by (bit_vector);
    assert((0xC0u8 | ((n >> 6) & 0x1F) as u8) >= 0x80) by (bit_vector);
    assert((0xE0u8 | ((n >> 12) & 0x0F) as u8) >= 0x80) by (bit_vector);
    assert((0xF0u8 | ((n >> 18) & 0x7) as u8) >= 0x80) by (bit_vector);
    assert((0x80u8 | (n & 0x3F) as u8) >= 0x80) by (bit_vector);
}

proof fn lemma_braced(t: Seq<char>)
    requires
        vstd::utf8::encode_utf8(t).len() > 0,
        vstd::utf8::encode_utf8(t).first() == 123,
        vstd::utf8::encode_utf8(t).last() == 125,
    ensures
        t.len() > 0,
        text::trimmed(t) == t,
{
    if t.len() == 0 {
        assert(vstd::utf8::encode_utf8(t) =~= Seq::empty());
    } else {
        lemma_scalar_ends(t.first());
        assert(vstd::utf8::encode_utf8(t).first() == vstd::utf8::encode_scalar(
            t.first() as u32,
        ).first());
        let before = t.drop_last();
        assert(before.push(t.last()) =~= t);
        lemma_encode_push(before, t.last());
        lemma_scalar_ends(t.last());
        assert(vstd::utf8::encode_utf8(t).last() == vstd::utf8::encode_scalar(
            t.last() as u32,
        ).last());
    }
}

proof fn lemma_text_comes_back(
    t: Seq<char>,
    value: JsonView,
    mode: FramingMode,
    framing: Option<FramingMode>,
    rest: Seq<u8>,
    at_end: bool,
)
    requires
        framing is None || framing == Some(mode),
        vstd::utf8::encode_utf8(t).len() <= usize::MAX,
        json::bytes_meaning(vstd::utf8::encode_utf8(t)) == Ok::<JsonView, Seq<char>>(value),
        json::text_meaning(t) == Ok::<JsonView, Seq<char>>(value),
        forall|i: int|
            0 <= i < vstd::utf8::encode_utf8(t).len() ==> #[trigger] vstd::utf8::encode_utf8(t)[i]
                >= 32,
        mode == FramingMode::NewlineDelimited ==> {
            &&& vstd::utf8::encode_utf8(t).len() > 0
            &&& vstd::utf8::encode_utf8(t).first() == 123
            &&& vstd::utf8::encode_utf8(t).last() == 125
        },
    ensures
        ({
            let s = framed(vstd::utf8::encode_utf8(t), mode);
            next_in(s + rest, framing, at_end) == (
                Some(mode),
                s.len() as int,
                MessageView::Value { value, used: s.len() as int },
            )
        }),
{
    let body = vstd::utf8::encode_utf8(t);
    let s = framed(body, mode) + rest;
    match mode {
        FramingMode::ContentLength => {
            law_body_comes_back(body, rest, at_end);
        },
        FramingMode::NewlineDelimited => {
            lemma_braced(t);
            lemma_line_comes_back(t, rest, at_end);
        },
    }
    law_framing_is_detected(body, rest, mode, at_end);
    assert(s.skip(0) =~= s);
}

/// Framing that is known never changes.
pub proof fn law_framing_is_kept(s: Seq<u8>, mode: FramingMode, at_end: bool)
    ensures
        next_in(s, Some(mode), at_end).0 == Some(mode),
{
}

/// After the last message of a stream there is none, whether or not the framing is known.
pub proof fn law_stream_ends(framing: Option<FramingMode>)
    ensures
        next_in(Seq::empty(), framing, true) == (framing, 0int, MessageView::End),
{
    let s = Seq::<u8>::empty();
    assert(line_end(s, 0) is None);
    assert(detected(s, 0, true) == Detection::End);
}

proof fn lemma_trimmed_ends(s: Seq<char>)
    requires
        s.len() > 0,
        text::trimmed(s) == s,
    ensures
        !text::is_white(s.first()),
        !text::is_white(s.last()),
{
    lemma_trimmed_start_len(s);
    lemma_trimmed_end_len(text::trimmed_start(s));
    if text::is_white(s.first()) {
        lemma_trimmed_start_len(s.drop_first());
    } else if text::is_white(s.last()) {
        lemma_trimmed_end_len(s.drop_last());
    }
}

proof fn lemma_trimmed_start_len(s: Seq<char>)
    ensures
        text::trimmed_start(s).len() <= s.len(),
    decreases s.len(),
{
    if s.len() > 0 && text::is_white(s.first()) {
        lemma_trimmed_start_len(s.drop_first());
    }
}

proof fn lemma_trimmed_end_len(s: Seq<char>)
    ensures
        text::trimmed_end(s).len() <= s.len(),
    decreases s.len(),
{
    if s.len() > 0 && text::is_white(s.last()) {
        lemma_trimmed_end_len(s.drop_last());
    }
}

proof fn lemma_trimmed_push(s: Seq<char>)
    requires
        s.len() > 0,
        text::trimmed(s) == s,
    ensures
        text::trimmed(s.push('\n')) == s,
{
    lemma_trimmed_ends(s);
    let t = s.push('\n');
    assert(t.first() == s.first());
    assert(text::trimmed_start(t) == t);
    assert(t.drop_last() =~= s);
    assert(text::trimmed_end(t) == text::trimmed_end(s));
}

/// A stream that begins with a message of this server shows its framing: a header always,
/// and a line that begins with a brace.
pub proof fn law_framing_is_detected(body: Seq<u8>, rest: Seq<u8>, mode: FramingMode, at_end: bool)
    requires
        mode == FramingMode::NewlineDelimited ==> body.len() > 0 && body[0] == 123,
    ensures
        detected(framed(body, mode) + rest, 0, at_end) == (Detection::Found { mode, skip: 0 }),
{
    let s = framed(body, mode) + rest;
    match mode {
        FramingMode::ContentLength => {
            let dec = text::decimal(body.len());
            text::law_decimal_is_read_back(body.len());
            reveal_strlit("Content-Length: ");
            reveal_strlit("\r\n\r\n");
            let whole = header_text(body.len());
            assert forall|i: int| 0 <= i < whole.len() implies '\0' <= #[trigger] whole[i]
                <= '\u{7f}' by {
                if 16 <= i < 16 + dec.len() {
                    assert(whole[i] == dec[i - 16]);
                    assert(text::is_digit(dec[i - 16]));
                }
            }
            lemma_ascii_bytes(whole);
            assert(whole[0] == 'C');
            assert(s[0] == vstd::utf8::encode_utf8(whole)[0]);
            assert(s[0] == 67);
        },
        FramingMode::NewlineDelimited => {
            assert(s[0] == body[0]);
        },
    }
}

// ---------------------------------------------------------------------------
// What a stream says
// ---------------------------------------------------------------------------

/// The first byte that is no white space shows the framing: the letter that a header begins
/// with, in either case, or anything else. Before it, the stream shows nothing.
pub proof fn law_first_byte_shows_the_framing(s: Seq<u8>, from: int, k: int, at_end: bool)
    requires
        0 <= from <= k <= s.len(),
        s.len() <= usize::MAX,
        forall|j: int|
            from <= j < k ==> #[trigger] s[j] == 32 || s[j] == 9 || s[j] == 10 || s[j] == 13,
        k < s.len() ==> s[k] != 32 && s[k] != 9 && s[k] != 10 && s[k] != 13,
    ensures
        k < s.len() && (s[k] == 67 || s[k] == 99) ==> detected(s, from, at_end) == (
        Detection::Found { mode: FramingMode::ContentLength, skip: k as usize }),
        k < s.len() && s[k] != 67 && s[k] != 99 ==> detected(s, from, at_end) == (
        Detection::Found { mode: FramingMode::NewlineDelimited, skip: k as usize }),
        k == s.len() && at_end ==> detected(s, from, at_end) == Detection::End,
        k == s.len() && !at_end ==> detected(s, from, at_end) == Detection::Wait,
    decreases k - from,
{
    if from < k {
        assert(blank_byte(s[from]));
        law_first_byte_shows_the_framing(s, from + 1, k, at_end);
    }
}

/// A line ends with the first line end.
pub proof fn law_line_ends_at_the_first(s: Seq<u8>, from: int, k: int)
    requires
        0 <= from <= k <= s.len(),
        forall|j: int| from <= j < k ==> #[trigger] s[j] != 10,
        k < s.len() ==> s[k] == 10,
    ensures
        k < s.len() ==> line_end(s, from) == Some(k + 1),
        k == s.len() ==> line_end(s, from) is None,
    decreases k - from,
{
    if from < k {
        assert(s[from] != 10);
        law_line_ends_at_the_first(s, from + 1, k);
    }
}

/// A header line of the length gives it, whatever the case of its name and the white space
/// around name and value, and in the stead of an earlier one; other lines give none.
pub proof fn law_header_lines_give_the_length(
    length: Option<Seq<char>>,
    name: Seq<char>,
    value: Seq<char>,
    line: Seq<char>,
)
    requires
        !name.contains(':'),
        !line.contains(':'),
    ensures
        ({
            let told = length_after(length, name + seq![':'] + value);
            &&& text::lowered(text::trimmed(name)) == "content-length"@ ==> told == Some(
                text::trimmed(value),
            )
            &&& text::lowered(text::trimmed(name)) != "content-length"@ ==> told == length
            &&& length_after(length, line) == length
        }),
{
    let whole = name + seq![':'] + value;
    let n = name.len() as int;
    text::law_cut_is_at_the_first(whole, ':');
    text::law_cut_is_at_the_first(line, ':');
    assert(whole[n] == ':');
    match text::cut(whole, ':') {
        Some((before, after)) => {
            let k = before.len() as int;
            assert(whole[k] == ':');
            if k < n {
                assert(name[k] == ':');
            } else if k > n {
                assert(before[n] == ':');
            }
            assert(before =~= whole.take(n));
            assert(name =~= whole.take(n));
            assert(after =~= whole.skip(n + 1));
            assert(value =~= whole.skip(n + 1));
        },
        None => {
            assert(whole.contains(':'));
        },
    }
    match text::cut(line, ':') {
        Some((before, after)) => {
            assert(line[before.len() as int] == ':');
        },
        None => {},
    }
}

/// A header goes on line by line until a blank line, and where a line does not end, the
/// stream must go on or is at its end.
pub proof fn law_header_goes_on(
    s: Seq<u8>,
    from: int,
    k: int,
    length: Option<Seq<char>>,
    at_end: bool,
)
    requires
        0 <= from <= k <= s.len(),
        forall|j: int| from <= j < k ==> #[trigger] s[j] != 10,
        k < s.len() ==> s[k] == 10,
    ensures
        k == s.len() ==> header_from(s, from, length, at_end) == if at_end {
            Header::End
        } else {
            Header::Wait
        },
        k < s.len() && (k == from || (k == from + 1 && s[from] == 13)) ==> header_from(
            s,
            from,
            length,
            at_end,
        ) == (Header::Done { length, end: k + 1 }),
        k < s.len() && k > from && !(k == from + 1 && s[from] == 13) ==> header_from(
            s,
            from,
            length,
            at_end,
        ) == header_from(s, k + 1, length_after(length, read_as(s.subrange(from, k + 1))), at_end),
{
    law_line_ends_at_the_first(s, from, k);
    if k < s.len() {
        let line = s.subrange(from, k + 1);
        if k == from {
            assert(line =~= seq![10u8]);
        } else if k == from + 1 && s[from] == 13 {
            assert(line =~= seq![13u8, 10u8]);
        } else {
            assert(line[0] == s[from]);
            assert(line.len() == k + 1 - from);
            assert(seq![10u8].len() == 1 && seq![13u8, 10u8].len() == 2);
            assert(seq![13u8, 10u8][0] == 13);
        }
    }
}

/// The body is as many bytes after the header as it tells. Where there are fewer, the stream
/// must go on, and at its end that is a failure, as is a length that is missing or no number.
pub proof fn law_body_is_as_long_as_told(
    s: Seq<u8>,
    t: Seq<char>,
    n: nat,
    end: int,
    at_end: bool,
)
    requires
        0 <= end <= s.len(),
        n <= usize::MAX,
    ensures
        text::unsigned_up_to(t, usize::MAX as nat) == Some(n) && end + n <= s.len() ==> body_after(
            s,
            Some(t),
            end,
            at_end,
        ) == (FrameView::Body { bytes: s.subrange(end, end + n), used: end + n }),
        text::unsigned_up_to(t, usize::MAX as nat) == Some(n) && end + n > s.len() ==> body_after(
            s,
            Some(t),
            end,
            false,
        ) == FrameView::Wait,
        text::unsigned_up_to(t, usize::MAX as nat) == Some(n) && end + n > s.len() ==> body_after(
            s,
            Some(t),
            end,
            true,
        ) == FrameView::Failed("early eof"@),
        text::unsigned_up_to(t, usize::MAX as nat) is None ==> body_after(s, Some(t), end, at_end)
            == FrameView::Failed("invalid Content-Length header"@),
        body_after(s, None, end, at_end) == FrameView::Failed("missing Content-Length header"@),
{
}

/// A line is a message without the white space around it; blank lines are passed over. A line
/// without an end is one at the end of the stream only.
pub proof fn law_lines_are_messages(s: Seq<u8>, from: int, k: int, at_end: bool)
    requires
        0 <= from <= k <= s.len(),
        forall|j: int| from <= j < k ==> #[trigger] s[j] != 10,
        k < s.len() ==> s[k] == 10,
    ensures
        ({
            let line = if k < s.len() {
                s.subrange(from, k + 1)
            } else {
                s.subrange(from, k)
            };
            let t = text::trimmed(read_as(line));
            let frame = line_frame(s, from, at_end);
            &&& k < s.len() && t.len() > 0 ==> frame == (FrameView::Line { text: t, used: k + 1 })
            &&& k < s.len() && t.len() == 0 ==> frame == line_frame(s, k + 1, at_end)
            &&& k == s.len() && !at_end ==> frame == FrameView::Wait
            &&& k == s.len() && at_end && from < k && t.len() > 0 ==> frame == (FrameView::Line {
                text: t,
                used: s.len() as int,
            })
            &&& k == s.len() && at_end && from < k && t.len() == 0 ==> frame == FrameView::End
        }),
{
    law_line_ends_at_the_first(s, from, k);
}

/// A message with a meaning is a value and takes its bytes; without one it is a failure with
/// its message and takes none, as does anything else.
pub proof fn law_messages_are_values(value: JsonView, message: Seq<char>, used: int)
    ensures
        understood(Ok(value), used) == (MessageView::Value { value, used }),
        understood(Err(message), used) == MessageView::Failed(message),
        taken(MessageView::Value { value, used }) == used,
        taken(MessageView::Failed(message)) == 0,
        taken(MessageView::Wait) == 0,
        taken(MessageView::End) == 0,
        message_in(FrameView::Wait) == MessageView::Wait,
        message_in(FrameView::End) == MessageView::End,
        message_in(FrameView::Failed(message)) == MessageView::Failed(message),
{
}

/// Before the framing is known, the blank bytes before the first message are done with, and
/// what is read is as if the stream began behind them with known framing.
pub proof fn law_unknown_framing_is_found(s: Seq<u8>, k: int, mode: FramingMode, at_end: bool)
    requires
        s.len() <= usize::MAX,
        detected(s, 0, at_end) == (Detection::Found { mode, skip: k as usize }),
        0 <= k <= s.len(),
    ensures
        ({
            let (found, done, message) = next_in(s, None, at_end);
            let (_, done_after, message_after) = next_in(s.skip(k), Some(mode), at_end);
            found == Some(mode) && message == message_after && done == k + done_after
        }),
{
}

} // verus!
