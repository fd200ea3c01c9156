use vim_compose_host::error::{ErrorKind, HostError, PidParseError};
use vim_compose_host::frame::{
    disconnect, endianness_of_probe, frame, frame_length, message_length, native_endianness,
    read_native, Endianness,
};
use vim_compose_host::message::{message_to_json, write_message, HostMessage};

fn replace_all(content: &str) -> HostMessage {
    HostMessage::ReplaceAll { content: content.to_string() }
}

#[test]
fn lengths_are_read_in_both_orders() {
    let header = [0x01u8, 0x02, 0x03, 0x04];
    assert_eq!(message_length(Endianness::Little, &header), 0x0403_0201);
    assert_eq!(message_length(Endianness::Big, &header), 0x0102_0304);
    assert_eq!(message_length(Endianness::Little, &[0xff; 4]), u32::MAX);
}

#[test]
fn frames_are_exact_in_both_orders() {
    assert_eq!(frame(Endianness::Little, b"abc"), Ok(vec![3, 0, 0, 0, b'a', b'b', b'c']));
    assert_eq!(frame(Endianness::Big, b"abc"), Ok(vec![0, 0, 0, 3, b'a', b'b', b'c']));
    let long = vec![7u8; 0x1_0203];
    let little = frame(Endianness::Little, &long).unwrap();
    assert_eq!(&little[..4], &[0x03, 0x02, 0x01, 0x00]);
    let big = frame(Endianness::Big, &long).unwrap();
    assert_eq!(&big[..4], &[0x00, 0x01, 0x02, 0x03]);
    assert_eq!(&big[4..], &long[..]);
}

#[test]
fn frames_are_read_back() {
    for order in [Endianness::Little, Endianness::Big] {
        for payload in [&b""[..], &b"x"[..], &[0u8; 300][..]] {
            let bytes = frame(order, payload).unwrap();
            let header = [bytes[0], bytes[1], bytes[2], bytes[3]];
            assert_eq!(message_length(order, &header) as usize, payload.len());
            assert_eq!(&bytes[4..], payload);
        }
    }
}

#[test]
fn native_order_is_that_of_the_machine() {
    let order = native_endianness();
    let bytes = 0x0102_0304u32.to_ne_bytes();
    assert_eq!(message_length(order, &bytes), 0x0102_0304);
    assert_eq!(read_native(&bytes), 0x0102_0304);
    assert_eq!(endianness_of_probe(read_native(&[1, 0, 0, 0])), order);
    assert_eq!(frame(order, b"ab").unwrap()[..4], 2u32.to_ne_bytes());
}

#[test]
fn probe_tells_the_order() {
    assert_eq!(endianness_of_probe(1), Endianness::Little);
    assert_eq!(endianness_of_probe(0x0100_0000), Endianness::Big);
}

#[test]
fn disconnect_is_an_empty_frame() {
    assert_eq!(disconnect(Endianness::Little), vec![0, 0, 0, 0]);
    assert_eq!(disconnect(Endianness::Big), vec![0, 0, 0, 0]);
    assert_eq!(frame(Endianness::Big, b""), Ok(disconnect(Endianness::Big)));
}

#[test]
fn messages_are_json_objects() {
    assert_eq!(
        message_to_json(&replace_all("hi")),
        "{\"kind\":\"replaceAll\",\"content\":\"hi\"}"
    );
    assert_eq!(
        message_to_json(&replace_all("")),
        "{\"kind\":\"replaceAll\",\"content\":\"\"}"
    );
}

#[test]
fn json_escapes_are_exact() {
    assert_eq!(
        message_to_json(&replace_all("\"\\/\u{8}\t\n\u{c}\r\u{0}\u{1f}\u{b}\u{7f}\u{e9}\u{2028}\u{1f600}")),
        "{\"kind\":\"replaceAll\",\"content\":\"\\\"\\\\/\\b\\t\\n\\f\\r\\u0000\\u001f\\u000b\u{7f}\u{e9}\u{2028}\u{1f600}\"}"
    );
}

#[test]
fn every_small_character_is_escaped_as_stated() {
    let hex = b"0123456789abcdef";
    for n in 0u8..0x80 {
        let c = n as char;
        let expected = match c {
            '"' => "\\\"".to_string(),
            '\\' => "\\\\".to_string(),
            '\u{8}' => "\\b".to_string(),
            '\t' => "\\t".to_string(),
            '\n' => "\\n".to_string(),
            '\u{c}' => "\\f".to_string(),
            '\r' => "\\r".to_string(),
            _ if n < 0x20 => format!(
                "\\u00{}{}",
                hex[(n / 16) as usize] as char,
                hex[(n % 16) as usize] as char
            ),
            _ => c.to_string(),
        };
        assert_eq!(
            message_to_json(&replace_all(&c.to_string())),
            format!("{{\"kind\":\"replaceAll\",\"content\":\"{}\"}}", expected)
        );
    }
}

#[test]
fn messages_are_read_back_by_a_json_parser() {
    let content = "a \"quoted\"\n\tline \\ \u{1f600}\u{3}";
    let value: serde_json::Value =
        serde_json::from_str(&message_to_json(&replace_all(content))).unwrap();
    assert_eq!(value["kind"], "replaceAll");
    assert_eq!(value["content"], content);
    assert_eq!(value.as_object().unwrap().len(), 2);
}

#[test]
fn messages_are_framed() {
    let json = "{\"kind\":\"replaceAll\",\"content\":\"\u{e9}\"}";
    let bytes = write_message(Endianness::Little, &replace_all("\u{e9}")).unwrap();
    assert_eq!(&bytes[..4], &[json.len() as u8, 0, 0, 0]);
    assert_eq!(&bytes[4..], json.as_bytes());
}

#[test]
fn sessions_are_read_back() {
    let contents = ["first", "", "third \"one\""];
    let order = Endianness::Big;
    let mut stream: Vec<u8> = Vec::new();
    for content in contents {
        stream.extend(write_message(order, &replace_all(content)).unwrap());
    }
    stream.extend(disconnect(order));

    let mut seen: Vec<String> = Vec::new();
    let mut at = 0;
    loop {
        let header = [stream[at], stream[at + 1], stream[at + 2], stream[at + 3]];
        let n = message_length(order, &header) as usize;
        at += 4;
        if n == 0 {
            break;
        }
        let value: serde_json::Value = serde_json::from_slice(&stream[at..at + n]).unwrap();
        seen.push(value["content"].as_str().unwrap().to_string());
        at += n;
    }
    assert_eq!(at, stream.len());
    assert_eq!(seen, contents);
}

#[test]
fn errors_have_kinds_and_words() {
    let cases = [
        (
            HostError::MessageTooLong,
            ErrorKind::InvalidInput,
            "Tried sending message of more than 2^32 bytes",
        ),
        (HostError::BeginTwice, ErrorKind::InvalidData, "Received \"begin\" message twice"),
        (
            HostError::PidTimeout,
            ErrorKind::TimedOut,
            "Timeout waiting for iTerm2 to write PID file",
        ),
        (
            HostError::PidInvalid(PidParseError::InvalidDigit),
            ErrorKind::InvalidData,
            "Failed to parse PID: invalid digit found in string",
        ),
    ];
    for (error, kind, words) in cases {
        assert_eq!(error.kind(), kind);
        assert_eq!(error.message(), words);
    }
}

#[test]
fn a_payload_that_is_too_long_is_refused() {
    assert_eq!(frame_length(0), Ok(0));
    assert_eq!(frame_length(u32::MAX as usize), Ok(u32::MAX));
    assert_eq!(frame_length(u32::MAX as usize + 1), Err(HostError::MessageTooLong));
    assert_eq!(frame_length(usize::MAX), Err(HostError::MessageTooLong));
}

#[test]
fn a_length_determines_its_bytes() {
    let header = [0x03u8, 0x01, 0x00, 0x00];
    let n = message_length(Endianness::Little, &header) as usize;
    assert_eq!(&frame(Endianness::Little, &vec![0u8; n]).unwrap()[..4], &header);
}
