use swiss_transport_mcp::mcp::framing::{
    detect_framing, next_message, read_frame, read_message, write_frame, write_message, Detection,
    Frame, FramingMode, Message,
};
use swiss_transport_mcp::json::Json;

fn bytes(s: &str) -> Vec<u8> {
    s.as_bytes().to_vec()
}

fn describe(frame: Frame) -> String {
    match frame {
        Frame::Wait => "wait".to_string(),
        Frame::End => "end".to_string(),
        Frame::Body { bytes, used } => {
            format!("body {} {}", String::from_utf8(bytes).expect("a text"), used)
        }
        Frame::Line { text, used } => format!("line {} {}", text, used),
        Frame::Failed(e) => format!("failed {}", e.message),
    }
}

fn with_length(s: &str, at_end: bool) -> String {
    describe(read_frame(&bytes(s), FramingMode::ContentLength, at_end))
}

fn with_lines(s: &str, at_end: bool) -> String {
    describe(read_frame(&bytes(s), FramingMode::NewlineDelimited, at_end))
}

#[test]
fn first_byte_shows_the_framing() {
    let shown = |s: &str, at_end| match detect_framing(&bytes(s), at_end) {
        Detection::Wait => "wait".to_string(),
        Detection::End => "end".to_string(),
        Detection::Found { mode: FramingMode::ContentLength, skip } => format!("length {skip}"),
        Detection::Found { mode: FramingMode::NewlineDelimited, skip } => format!("lines {skip}"),
    };
    assert_eq!(shown("", false), "wait");
    assert_eq!(shown(" \r\n\t", false), "wait");
    assert_eq!(shown(" \n", true), "end");
    assert_eq!(shown("Content-Length: 2", false), "length 0");
    assert_eq!(shown("\ncontent-length: 2", false), "length 1");
    assert_eq!(shown("  {\"a\":1}", false), "lines 2");
    assert_eq!(shown("[1]", false), "lines 0");
}

#[test]
fn written_body_is_read_back() {
    let body = bytes("{\"text\":\"Zürich\"}");
    let mut stream = write_frame(&body, FramingMode::ContentLength);
    assert_eq!(stream, bytes("Content-Length: 18\r\n\r\n{\"text\":\"Zürich\"}"));
    let length = stream.len();
    stream.extend_from_slice(b"Content-Length: 3");
    match read_frame(&stream, FramingMode::ContentLength, false) {
        Frame::Body { bytes, used } => {
            assert_eq!(bytes, body);
            assert_eq!(used, length);
        }
        other => panic!("{:?}", other),
    }
}

#[test]
fn written_line_is_read_back() {
    let stream = write_frame(&bytes("{\"text\":\"Zürich\"}"), FramingMode::NewlineDelimited);
    assert_eq!(stream, bytes("{\"text\":\"Zürich\"}\n"));
    match read_frame(&stream, FramingMode::NewlineDelimited, false) {
        Frame::Line { text, used } => {
            assert_eq!(text, "{\"text\":\"Zürich\"}");
            assert_eq!(used, stream.len());
        }
        other => panic!("{:?}", other),
    }
}

#[test]
fn header_is_read_line_by_line() {
    assert_eq!(with_length("Content-Length: 2\r\n\r\n{}rest", false), "body {} 23");
    assert_eq!(with_length("X: y\nCONTENT-LENGTH : 9\ncontent-length: +2\n\n{}", false), "body {} 46");
    assert_eq!(with_length("no colon\r\nContent-Length: 0\r\n\r\n", false), "body  31");
    assert_eq!(with_length("Content-Length: 2\r\n", false), "wait");
    assert_eq!(with_length("Content-Length: 2\r\n", true), "end");
    assert_eq!(with_length("", true), "end");
    assert_eq!(with_length("Content-Length: 2\r\n\r\n{", false), "wait");
    assert_eq!(with_length("Content-Length: 2\r\n\r\n{", true), "failed early eof");
}

#[test]
fn faults_of_the_header_are_reported() {
    assert_eq!(with_length("\r\n", false), "failed missing Content-Length header");
    assert_eq!(
        with_length("Content-Length: two\r\n\r\n", false),
        "failed invalid Content-Length header"
    );
    assert_eq!(
        with_length("Content-Length: 99999999999999999999\r\n\r\n", false),
        "failed invalid Content-Length header"
    );
}

#[test]
fn blank_lines_are_passed_over() {
    assert_eq!(with_lines("\n  \r\n {} \nrest", false), "line {} 10");
    assert_eq!(with_lines("{}", false), "wait");
    assert_eq!(with_lines("{}", true), "line {} 2");
    assert_eq!(with_lines("\n \n", false), "wait");
    assert_eq!(with_lines("\n \n", true), "end");
    assert_eq!(with_lines("\n  ", true), "end");
}

#[test]
fn invalid_bytes_are_replaced() {
    let stream = vec![b'a', 0xff, b'b', b'\n'];
    match read_frame(&stream, FramingMode::NewlineDelimited, false) {
        Frame::Line { text, .. } => assert_eq!(text, "a\u{fffd}b"),
        other => panic!("{:?}", other),
    }
}

#[test]
fn messages_are_understood() {
    let stream = write_frame(&bytes("{\"b\":[1.50,null,true],\"a\":\"\\u00fc\"}"), FramingMode::ContentLength);
    match read_message(&stream, FramingMode::ContentLength, false) {
        Message::Value { value, used } => {
            assert_eq!(used, stream.len());
            assert_eq!(value.get("a").and_then(|v| v.as_str()), Some("ü"));
            let list = value.get("b").and_then(|v| v.as_array()).expect("a list");
            assert!(matches!(&list[0], Json::Number(n) if n == "1.5"));
            assert!(matches!(list[1], Json::Null));
            assert!(matches!(list[2], Json::Bool(true)));
            let keys: Vec<&str> =
                value.as_object().expect("an object").iter().map(|(k, _)| k.as_str()).collect();
            assert_eq!(keys, vec!["a", "b"]);
        }
        other => panic!("{:?}", other),
    }
    match read_message(&bytes("[]\n"), FramingMode::NewlineDelimited, false) {
        Message::Value { value, used } => {
            assert_eq!(used, 3);
            assert_eq!(value.as_array().map(|items| items.len()), Some(0));
        }
        other => panic!("{:?}", other),
    }
    let failed = |s: &str, mode| match read_message(&bytes(s), mode, false) {
        Message::Failed(e) => e.message,
        other => panic!("{:?}", other),
    };
    assert_eq!(failed("{\n", FramingMode::NewlineDelimited), "EOF while parsing an object at line 1 column 1");
    assert_eq!(
        failed("Content-Length: 1\n\n{", FramingMode::ContentLength),
        "EOF while parsing an object at line 1 column 1"
    );
    assert!(matches!(read_message(&bytes(""), FramingMode::ContentLength, true), Message::End));
    assert!(matches!(read_message(&bytes(""), FramingMode::ContentLength, false), Message::Wait));
}

fn number(n: &str) -> Json {
    Json::Number(n.to_string())
}

fn sample() -> Json {
    Json::object(vec![
        ("b".to_string(), Json::text("Zürich \"\n\t\u{1}")),
        ("a".to_string(), Json::array(vec![number("-9223372036854775808"), number("18446744073709551615"), Json::Null])),
        ("c".to_string(), Json::Bool(true)),
        ("b".to_string(), Json::text("Bern\n")),
    ])
}

#[test]
fn values_are_written_in_the_order_of_their_keys() {
    let text = "{\"a\":[-9223372036854775808,18446744073709551615,null],\"b\":\"Bern\\n\",\"c\":true}";
    assert_eq!(String::from_utf8(sample().write_compact()).expect("a text"), text);
    assert_eq!(write_message(&sample(), FramingMode::NewlineDelimited), bytes(&format!("{text}\n")));
    assert_eq!(
        write_message(&sample(), FramingMode::ContentLength),
        bytes(&format!("Content-Length: {}\r\n\r\n{}", text.len(), text))
    );
    assert_eq!(
        Json::array(vec![Json::object(vec![("x".to_string(), number("1"))])]).write_pretty(),
        "[\n  {\n    \"x\": 1\n  }\n]"
    );
    assert_eq!(Json::object(vec![]).write_pretty(), "{}");
}

#[test]
fn numbers_are_written_as_they_are_understood() {
    let written = |n: &str| String::from_utf8(number(n).write_compact()).expect("a text");
    assert_eq!(written("0"), "0");
    assert_eq!(written("-7"), "-7");
    assert_eq!(written("1.50"), "1.5");
    assert_eq!(written("18446744073709551616"), "1.8446744073709552e+19");
    assert_eq!(written("seven"), "null");
}

#[test]
fn written_messages_are_the_next_ones() {
    for mode in [FramingMode::ContentLength, FramingMode::NewlineDelimited] {
        for framing in [None, Some(mode)] {
            let written = write_message(&sample(), mode);
            let mut stream = written.clone();
            stream.extend_from_slice(b"\n more");
            let (shown, done, message) = next_message(&stream, framing, false);
            assert_eq!(shown, Some(mode));
            assert_eq!(done, written.len());
            match message {
                Message::Value { value, used } => {
                    assert_eq!(used, written.len());
                    assert_eq!(write_message(&value, mode), written);
                    let keys: Vec<&str> =
                        value.as_object().expect("an object").iter().map(|(k, _)| k.as_str()).collect();
                    assert_eq!(keys, vec!["a", "b", "c"]);
                    assert_eq!(value.get("b").and_then(|v| v.as_str()), Some("Bern\n"));
                    let list = value.get("a").and_then(|v| v.as_array()).expect("a list");
                    assert!(matches!(&list[0], Json::Number(n) if n == "-9223372036854775808"));
                    assert!(matches!(&list[1], Json::Number(n) if n == "18446744073709551615"));
                }
                other => panic!("{:?}", other),
            }
            let (kept, done, message) = next_message(&vec![], shown, true);
            assert_eq!(kept, Some(mode));
            assert_eq!(done, 0);
            assert!(matches!(message, Message::End));
        }
    }
}

#[test]
fn nesting_is_read_back_up_to_its_limit() {
    let nested = |depth: usize| {
        let mut value = Json::array(vec![]);
        for _ in 1..depth {
            value = Json::array(vec![value]);
        }
        value
    };
    let read = |depth: usize| {
        let stream = write_message(&nested(depth), FramingMode::ContentLength);
        next_message(&stream, None, false).2
    };
    assert!(matches!(read(127), Message::Value { .. }));
    match read(128) {
        Message::Failed(e) => {
            assert_eq!(e.message, "recursion limit exceeded at line 1 column 128")
        }
        other => panic!("{:?}", other),
    }
}

#[test]
fn known_framing_is_kept() {
    let lines = Some(FramingMode::NewlineDelimited);
    let (kept, done, message) = next_message(&bytes("Content-Length: 2\r\n\r\n{}"), lines, false);
    assert_eq!(kept, lines);
    assert_eq!(done, 0);
    assert!(matches!(message, Message::Failed(_)));
    let (shown, done, message) = next_message(&bytes(" \r\n{\"a\":1}\n[]"), None, false);
    assert_eq!(shown, lines);
    assert_eq!(done, 11);
    assert!(matches!(message, Message::Value { used: 8, .. }));
    let (shown, done, message) = next_message(&bytes("\n{\"a\""), None, false);
    assert_eq!(shown, lines);
    assert_eq!(done, 1);
    assert!(matches!(message, Message::Wait));
    let (shown, done, message) = next_message(&bytes(" \n"), None, false);
    assert_eq!(shown, None);
    assert_eq!(done, 0);
    assert!(matches!(message, Message::Wait));
    assert!(matches!(next_message(&bytes(" \n"), None, true), (None, 0, Message::End)));
}
