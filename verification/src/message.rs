//! The messages that the host and the browser extension exchange.

use crate::error::HostError;
use crate::frame::{frame, Endianness};
use vstd::prelude::*;

verus! {

/// What kind of text is composed.
#[derive(Clone, Copy, Debug, PartialEq, Eq, Structural)]
pub enum ContentType {
    /// Plain text, edited as it is.
    Plain,
    /// HTML, edited as Markdown.
    Html,
}

/// A message from the extension.
#[derive(Debug)]
pub enum ClientMessage {
    /// Starts the editor on a first content.
    Begin { initial_content: String, content_type: ContentType },
}

/// A message to the extension.
#[derive(Debug)]
pub enum HostMessage {
    /// Replaces the whole content.
    ReplaceAll { content: String },
}

impl HostMessage {
    /// The content that the message carries.
    pub open spec fn content_text(self) -> Seq<char> {
        match self {
            HostMessage::ReplaceAll { content } => content@,
        }
    }
}

/// The hexadecimal digit for a number below sixteen.
pub open spec fn hex_digit(n: int) -> char {
    if n < 10 {
        (n + 0x30) as char
    } else {
        (n - 10 + 0x61) as char
    }
}

/// A character as it stands inside a JSON string.
pub open spec fn json_char(c: char) -> Seq<char> {
    if c == '"' {
        seq!['\\', '"']
    } else if c == '\\' {
        seq!['\\', '\\']
    } else if c == '\x08' {
        seq!['\\', 'b']
    } else if c == '\t' {
        seq!['\\', 't']
    } else if c == '\n' {
        seq!['\\', 'n']
    } else if c == '\x0c' {
        seq!['\\', 'f']
    } else if c == '\r' {
        seq!['\\', 'r']
    } else if (c as int) < 0x20 {
        seq!['\\', 'u', '0', '0', hex_digit(c as int / 16), hex_digit(c as int % 16)]
    } else {
        seq![c]
    }
}

/// The characters of a text, each as it stands inside a JSON string.
pub open spec fn json_chars(text: Seq<char>) -> Seq<char>
    decreases text.len(),
{
    if text.len() == 0 {
        Seq::empty()
    } else {
        json_char(text[0]) + json_chars(text.drop_first())
    }
}

/// A text as a JSON string.
pub open spec fn json_string(text: Seq<char>) -> Seq<char> {
    seq!['"'] + json_chars(text) + seq!['"']
}

/// A message to the extension as a JSON object.
pub open spec fn message_json(content: Seq<char>) -> Seq<char> {
    "{\"kind\":\"replaceAll\",\"content\":"@ + json_string(content) + "}"@
}

/// The payload of the frame that carries a message to the extension.
pub open spec fn message_payload(content: Seq<char>) -> Seq<u8> {
    vstd::utf8::encode_utf8(message_json(content))
}

/// The error type of serde_json.
#[verifier::external_type_specification]
#[verifier::external_body]
pub struct ExJsonError(serde_json::Error);

/// `serde_json::to_string` on a `str`: the text as a JSON string. A string is
/// always serialised: only other types, or a writer that fails, give an error.
#[verifier::external_body]
fn json_of_str(text: &str) -> (r: Result<String, serde_json::Error>)
    ensures
        r is Ok,
        r->Ok_0@ == json_string(text@),
{
    serde_json::to_string(text)
}

/// A message to the extension as a JSON object.
pub fn message_to_json(message: &HostMessage) -> (json: String)
    ensures
        json@ == message_json(message.content_text()),
        match *message {
            HostMessage::ReplaceAll { content } => json@ == message_json(content@),
        },
{
    match message {
        HostMessage::ReplaceAll { content } => {
            let mut json = "{\"kind\":\"replaceAll\",\"content\":".to_owned();
            json.append(json_of_str(content.as_str()).unwrap().as_str());
            json.append("}");
            json
        },
    }
}

/// The bytes that send a message to the extension: a frame with the message as JSON.
pub fn write_message(order: Endianness, message: &HostMessage) -> (r: Result<Vec<u8>, HostError>)
    ensures
        ({
            let payload = message_payload(message.content_text());
            match r {
                Ok(bytes) => crate::frame::fits_frame(payload) && bytes@ == crate::frame::framed(
                    order,
                    payload,
                ),
                Err(e) => !crate::frame::fits_frame(payload) && e == HostError::MessageTooLong,
            }
        }),
{
    let json = message_to_json(message);
    frame(order, json.as_str().as_bytes())
}

proof fn lemma_json_char_is_prefix_free(c1: char, rest1: Seq<char>, c2: char, rest2: Seq<char>)
    requires
        json_char(c1) + rest1 == json_char(c2) + rest2,
    ensures
        c1 == c2,
        rest1 == rest2,
{
    let whole1 = json_char(c1) + rest1;
    let whole2 = json_char(c2) + rest2;
    assert(whole1[0] == json_char(c1)[0] && whole2[0] == json_char(c2)[0]);
    if json_char(c1)[0] == '\\' {
        assert(whole1[1] == json_char(c1)[1] && whole2[1] == json_char(c2)[1]);
        if json_char(c1)[1] == 'u' {
            assert(whole1[4] == json_char(c1)[4] && whole2[4] == json_char(c2)[4]);
            assert(whole1[5] == json_char(c1)[5] && whole2[5] == json_char(c2)[5]);
            assert(c1 as int / 16 == c2 as int / 16);
            assert(c1 as int % 16 == c2 as int % 16);
        }
    }
    assert(c1 == c2);
    let n = json_char(c1).len() as int;
    assert(rest1 =~= whole1.skip(n));
    assert(rest2 =~= whole2.skip(n));
}

proof fn lemma_json_chars_injective(text1: Seq<char>, text2: Seq<char>)
    requires
        json_chars(text1) == json_chars(text2),
    ensures
        text1 == text2,
    decreases text1.len(),
{
    if text1.len() > 0 && text2.len() > 0 {
        lemma_json_char_is_prefix_free(
            text1[0],
            json_chars(text1.drop_first()),
            text2[0],
            json_chars(text2.drop_first()),
        );
        lemma_json_chars_injective(text1.drop_first(), text2.drop_first());
        assert(text1 =~= seq![text1[0]] + text1.drop_first());
        assert(text2 =~= seq![text2[0]] + text2.drop_first());
    } else if text1.len() > 0 {
        assert(json_chars(text1).len() > 0);
    } else if text2.len() > 0 {
        assert(json_chars(text2).len() > 0);
    } else {
        assert(text1 =~= text2);
    }
}

/// Law: a payload determines the content that it carries, so no two contents are
/// sent as the same bytes.
pub proof fn law_payload_determines_content(content1: Seq<char>, content2: Seq<char>)
    requires
        message_payload(content1) == message_payload(content2),
    ensures
        content1 == content2,
{
    vstd::utf8::encode_utf8_decode_utf8(message_json(content1));
    vstd::utf8::encode_utf8_decode_utf8(message_json(content2));
    let json1 = message_json(content1);
    let json2 = message_json(content2);
    assert(json1 == json2);
    let start = "{\"kind\":\"replaceAll\",\"content\":"@.len() as int + 1;
    let end = json1.len() - "}"@.len() - 1;
    assert(json_chars(content1) =~= json1.subrange(start, end));
    assert(json_chars(content2) =~= json2.subrange(start, end));
    lemma_json_chars_injective(content1, content2);
}

/// Law: a message never travels in an empty frame, which is the one that ends a
/// session.
pub proof fn law_payload_is_not_empty(content: Seq<char>)
    ensures
        message_payload(content).len() > 0,
{
    let json = message_json(content);
    assert(json.len() > 0);
    if message_payload(content).len() == 0 {
        vstd::utf8::encode_utf8_decode_utf8(json);
        assert(message_payload(content) =~= Seq::<u8>::empty());
        assert(vstd::utf8::decode_utf8(Seq::<u8>::empty()).len() == 0);
    }
}

/// The number that a hexadecimal digit stands for.
pub open spec fn hex_value(c: char) -> Option<int> {
    if '0' <= c <= '9' {
        Some(c as int - '0' as int)
    } else if 'a' <= c <= 'f' {
        Some(c as int - 'a' as int + 10)
    } else if 'A' <= c <= 'F' {
        Some(c as int - 'A' as int + 10)
    } else {
        None
    }
}

/// The character that a backslash and one more character stand for in a JSON string.
pub open spec fn short_escape(c: char) -> Option<char> {
    match c {
        '"' => Some('"'),
        '\\' => Some('\\'),
        '/' => Some('/'),
        'b' => Some('\x08'),
        'f' => Some('\x0c'),
        'n' => Some('\n'),
        'r' => Some('\r'),
        't' => Some('\t'),
        _ => None,
    }
}

/// The character that a JSON string starts with, inside its quotes, and how many
/// characters it takes there; `None` where a reader of JSON refuses the string. Pairs of
/// surrogates are left out.
pub open spec fn json_first(text: Seq<char>) -> Option<(char, int)> {
    if text[0] != '\\' {
        if text[0] == '"' || (text[0] as int) < 0x20 {
            None
        } else {
            Some((text[0], 1))
        }
    } else if text.len() < 2 {
        None
    } else if text[1] != 'u' {
        match short_escape(text[1]) {
            Some(c) => Some((c, 2)),
            None => None,
        }
    } else if text.len() < 6 {
        None
    } else {
        match (hex_value(text[2]), hex_value(text[3]), hex_value(text[4]), hex_value(text[5])) {
            (Some(a), Some(b), Some(c), Some(d)) => {
                let n = 4096 * a + 256 * b + 16 * c + d;
                if 0xd800 <= n <= 0xdfff {
                    None
                } else {
                    Some((n as char, 6))
                }
            },
            _ => None,
        }
    }
}

/// The text that a JSON string stands for, inside its quotes, as a reader of JSON reads
/// it: from the front, one character at a time.
pub open spec fn json_read(text: Seq<char>) -> Option<Seq<char>>
    decreases text.len(),
{
    if text.len() == 0 {
        Some(Seq::empty())
    } else {
        match json_first(text) {
            Some((c, n)) => if 0 < n <= text.len() {
                match json_read(text.skip(n)) {
                    Some(rest) => Some(seq![c] + rest),
                    None => None,
                }
            } else {
                None
            },
            None => None,
        }
    }
}

proof fn lemma_hex_value_undoes_hex_digit(n: int)
    requires
        0 <= n < 16,
    ensures
        hex_value(hex_digit(n)) == Some(n),
{
    let c = hex_digit(n);
    if n < 10 {
        assert(c as int == n + 0x30);
    } else {
        assert(c as int == n - 10 + 0x61);
    }
}

proof fn lemma_control_character_in_hex(c: char)
    requires
        (c as int) < 0x20,
    ensures
        hex_value(hex_digit(c as int / 16)) == Some(c as int / 16),
        hex_value(hex_digit(c as int % 16)) == Some(c as int % 16),
        16 * (c as int / 16) + c as int % 16 == c as int,
{
    lemma_hex_value_undoes_hex_digit(c as int / 16);
    lemma_hex_value_undoes_hex_digit(c as int % 16);
}

proof fn lemma_json_read_undoes_json_chars(text: Seq<char>)
    ensures
        json_read(json_chars(text)) == Some(text),
    decreases text.len(),
{
    if text.len() > 0 {
        let c = text[0];
        let rest = json_chars(text.drop_first());
        let whole = json_chars(text);
        lemma_json_read_undoes_json_chars(text.drop_first());
        let n = json_char(c).len() as int;
        assert(forall|i: int| 0 <= i < n ==> whole[i] == #[trigger] json_char(c)[i]);
        assert(whole[0] == json_char(c)[0]);
        if n > 1 {
            assert(whole[1] == json_char(c)[1]);
        }
        if n == 6 {
            assert(whole[2] == json_char(c)[2]);
            assert(whole[3] == json_char(c)[3]);
            assert(whole[4] == json_char(c)[4]);
            assert(whole[5] == json_char(c)[5]);
            assert((c as int) < 0x20);
            lemma_control_character_in_hex(c);
        }
        assert(json_first(whole) == Some((c, n)));
        assert(whole.skip(n) =~= rest);
        assert(seq![c] + text.drop_first() =~= text);
    } else {
        assert(json_read(json_chars(text)) == Some(Seq::<char>::empty()));
        assert(text =~= Seq::<char>::empty());
    }
}

/// Law: the text of a JSON string, quotes and all, is read back as it was.
pub proof fn law_json_string_is_read_back(text: Seq<char>)
    ensures
        json_string(text).len() >= 2,
        json_string(text)[0] == '"',
        json_string(text).last() == '"',
        json_read(json_string(text).subrange(1, json_string(text).len() - 1)) == Some(text),
{
    lemma_json_read_undoes_json_chars(text);
    assert(json_string(text).subrange(1, json_string(text).len() - 1) =~= json_chars(text));
}

/// Law: inside a JSON string, a text is written piece by piece. A character that needs no
/// escape is written as it is, some have an escape of their own, and what is left is
/// written by its number.
pub proof fn law_json_is_written_piece_by_piece(a: Seq<char>, b: Seq<char>, c: char)
    ensures
        json_chars(a + b) == json_chars(a) + json_chars(b),
        c != '"' && c != '\\' && c as int >= 0x20 ==> json_chars(seq![c]) == seq![c],
        c == '"' ==> json_chars(seq![c]) == seq!['\\', '"'],
        c == '\\' ==> json_chars(seq![c]) == seq!['\\', '\\'],
        c == '\x08' ==> json_chars(seq![c]) == seq!['\\', 'b'],
        c == '\t' ==> json_chars(seq![c]) == seq!['\\', 't'],
        c == '\n' ==> json_chars(seq![c]) == seq!['\\', 'n'],
        c == '\x0c' ==> json_chars(seq![c]) == seq!['\\', 'f'],
        c == '\r' ==> json_chars(seq![c]) == seq!['\\', 'r'],
        (c as int) < 0x20 && c != '\x08' && c != '\t' && c != '\n' && c != '\x0c' && c != '\r' ==> {
            let written = json_chars(seq![c]);
            &&& written.len() == 6
            &&& written.take(4) == seq!['\\', 'u', '0', '0']
            &&& written[4] == (if (c as int) < 0x10 {
                '0'
            } else {
                '1'
            })
            &&& hex_value(written[5]) == Some(c as int % 16)
            &&& !('A' <= written[5] <= 'F')
        },
{
    lemma_json_chars_join(a, b);
    reveal_with_fuel(json_chars, 2);
    assert(seq![c].drop_first() =~= Seq::<char>::empty());
    let written = json_chars(seq![c]);
    assert(written =~= json_char(c));
    if written.len() == 6 {
        assert(written.take(4) =~= seq!['\\', 'u', '0', '0']);
        lemma_hex_value_undoes_hex_digit(c as int % 16);
        let digit = hex_digit(c as int % 16);
        assert(written[5] == digit);
        if c as int % 16 < 10 {
            assert(digit as int == c as int % 16 + 0x30);
        } else {
            assert(digit as int == c as int % 16 - 10 + 0x61);
        }
        assert(c as int / 16 == 0 || c as int / 16 == 1);
    }
}

proof fn lemma_json_chars_join(a: Seq<char>, b: Seq<char>)
    ensures
        json_chars(a + b) == json_chars(a) + json_chars(b),
    decreases a.len(),
{
    if a.len() == 0 {
        assert(a + b =~= b);
        assert(json_chars(a) + json_chars(b) =~= json_chars(b));
    } else {
        lemma_json_chars_join(a.drop_first(), b);
        assert((a + b).drop_first() =~= a.drop_first() + b);
        assert(json_chars(a + b) =~= json_chars(a) + json_chars(b));
    }
}

/// Law: the extension reads exactly the content that is sent. The message is one JSON
/// object, of the kind "replaceAll", and its content is the JSON string that a reader of
/// JSON reads as the content.
pub proof fn law_message_is_read_back(content: String, json: String)
    requires
        call_ensures(message_to_json, (&HostMessage::ReplaceAll { content },), json),
    ensures
        ({
            let start = "{\"kind\":\"replaceAll\",\"content\":\""@;
            let end = "\"}"@;
            let n = json@.len() - end.len();
            &&& start.len() <= n
            &&& json@.take(start.len() as int) == start
            &&& json@.skip(n) == end
            &&& json_read(json@.subrange(start.len() as int, n)) == Some(content@)
            &&& json@ == start + json_chars(content@) + end
        }),
{
    lemma_message_text(content@);
    lemma_json_read_undoes_json_chars(content@);
    let start = "{\"kind\":\"replaceAll\",\"content\":\""@;
    let end = "\"}"@;
    let n = json@.len() - end.len();
    assert(json@.take(start.len() as int) =~= start);
    assert(json@.skip(n) =~= end);
    assert(json@.subrange(start.len() as int, n) =~= json_chars(content@));
}

proof fn lemma_message_text(content: Seq<char>)
    ensures
        message_json(content) == "{\"kind\":\"replaceAll\",\"content\":\""@ + json_chars(content)
            + "\"}"@,
{
    reveal_strlit("{\"kind\":\"replaceAll\",\"content\":\"");
    reveal_strlit("{\"kind\":\"replaceAll\",\"content\":");
    reveal_strlit("\"}");
    reveal_strlit("}");
    assert("{\"kind\":\"replaceAll\",\"content\":\""@ =~= "{\"kind\":\"replaceAll\",\"content\":"@
        + seq!['"']);
    assert("\"}"@ =~= seq!['"'] + "}"@);
    assert(message_json(content) =~= "{\"kind\":\"replaceAll\",\"content\":\""@ + json_chars(content)
        + "\"}"@);
}

/// Law: a message is sent as a frame whose payload, read as UTF-8, is the message as JSON.
/// It is refused if and only if that payload is longer than 32 bits can say.
pub proof fn law_message_travels_in_a_frame(
    order: Endianness,
    content: String,
    r: Result<Vec<u8>, HostError>,
)
    requires
        call_ensures(write_message, (order, &HostMessage::ReplaceAll { content }), r),
    ensures
        ({
            let json = "{\"kind\":\"replaceAll\",\"content\":\""@ + json_chars(content@) + "\"}"@;
            let len = vstd::utf8::encode_utf8(json).len();
            &&& json_read(json_chars(content@)) == Some(content@)
            &&& r is Ok <==> len <= 0xffff_ffff
            &&& r matches Err(e) ==> e == HostError::MessageTooLong
            &&& r matches Ok(bytes) ==> {
                &&& bytes@.len() == 4 + len
                &&& vstd::utf8::valid_utf8(bytes@.skip(4))
                &&& vstd::utf8::decode_utf8(bytes@.skip(4)) == json
                &&& order == Endianness::Little ==> len == bytes@[0] + 256 * bytes@[1] + 65536
                    * bytes@[2] + 16777216 * bytes@[3]
                &&& order == Endianness::Big ==> len == 16777216 * bytes@[0] + 65536 * bytes@[1]
                    + 256 * bytes@[2] + bytes@[3]
            }
        }),
{
    lemma_message_text(content@);
    lemma_json_read_undoes_json_chars(content@);
    let json = message_json(content@);
    let payload = message_payload(content@);
    vstd::utf8::encode_utf8_valid_utf8(json);
    vstd::utf8::encode_utf8_decode_utf8(json);
    if let Ok(bytes) = r {
        crate::frame::law_frame_is_read_back(order, payload);
        let head = bytes@.take(4);
        assert(head[0] == bytes@[0] && head[1] == bytes@[1] && head[2] == bytes@[2] && head[3]
            == bytes@[3]);
    }
}

} // verus!
