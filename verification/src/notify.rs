//! The notifier's side of the library: the message that announces a record,
//! and the address that delivers it.

use vstd::prelude::*;
use vstd::string::*;
use vstd::utf8::encode_utf8;
use crate::record::{Record, RecordView};

verus! {

/// Whether a byte stands for itself in a form-encoded text: an ASCII letter
/// or digit, or one of `*`, `-`, `.` and `_`.
pub open spec fn is_kept(byte: u8) -> bool {
    ||| byte == 0x2A
    ||| byte == 0x2D
    ||| byte == 0x2E
    ||| 0x30 <= byte <= 0x39
    ||| 0x41 <= byte <= 0x5A
    ||| byte == 0x5F
    ||| 0x61 <= byte <= 0x7A
}

/// The digit that writes `value`, below sixteen, in base sixteen, with
/// capital letters.
pub open spec fn hex_digit(value: int) -> char {
    if value < 10 {
        ((0x30 + value) as u8) as char
    } else {
        ((0x41 + value - 10) as u8) as char
    }
}

/// What one byte becomes in a form-encoded text: itself where it is kept, a
/// plus sign where it is a space, and else a percent sign and its two
/// digits in base sixteen.
pub open spec fn encoded_byte(byte: u8) -> Seq<char> {
    if is_kept(byte) {
        seq![byte as char]
    } else if byte == 0x20 {
        seq!['+']
    } else {
        seq!['%', hex_digit(byte as int / 16), hex_digit(byte as int % 16)]
    }
}

/// What the bytes `bytes` become in a form-encoded text, one after the
/// other.
pub open spec fn encoded_bytes(bytes: Seq<u8>) -> Seq<char>
    decreases bytes.len(),
{
    if bytes.len() == 0 {
        Seq::empty()
    } else {
        encoded_byte(bytes[0]) + encoded_bytes(bytes.drop_first())
    }
}

/// The form-encoding of `text`, as a name or as a value: that of the bytes
/// that write `text` in UTF-8.
pub open spec fn form_encoded(text: Seq<char>) -> Seq<char> {
    encoded_bytes(encode_utf8(text))
}

/// The query `query` with the pair `name=value` appended to it: after an
/// ampersand where `query` is not empty, and both sides encoded.
pub open spec fn with_pair(query: Seq<char>, name: Seq<char>, value: Seq<char>) -> Seq<char> {
    let begun = if query.len() > 0 {
        query + seq!['&']
    } else {
        query
    };
    begun + form_encoded(name) + seq!['='] + form_encoded(value)
}

/// The message that announces `record`.
pub open spec fn message_of(record: RecordView) -> Seq<char> {
    "name: "@ + record.name + "\nbreed: "@ + record.category + "\nage: "@ + record.age + "\n"@
        + record.url
}

/// The query that delivers `message` to the chat `chat_id`.
pub open spec fn query_of(chat_id: Seq<char>, message: Seq<char>) -> Seq<char> {
    with_pair(
        with_pair(with_pair(Seq::empty(), "chat_id"@, chat_id), "parse_mode"@, "Markdown"@),
        "text"@,
        message,
    )
}

/// The address that delivers the announcement of `record` to the chat
/// `chat_id`, on behalf of the bot with the token `token`.
pub open spec fn delivery_of(token: Seq<char>, chat_id: Seq<char>, record: RecordView) -> Seq<
    char,
> {
    "https://api.telegram.org/bot"@ + token + "/sendMessage?"@ + query_of(
        chat_id,
        message_of(record),
    )
}

/// Calls `form_urlencoded`: `Serializer::new` on `query`, `append_pair` with
/// `name` and `value`, and `finish`. The serializer puts an ampersand after
/// a query that is not empty, then the name, an equals sign and the value,
/// both through its byte serializer: a byte is kept, written as a plus
/// sign, or written as a percent sign and two digits.
#[verifier::external_body]
fn append_pair(query: String, name: &str, value: &str) -> (extended: String)
    ensures
        extended@ == with_pair(query@, name@, value@),
{
    form_urlencoded::Serializer::new(query).append_pair(name, value).finish()
}

/// The message that announces `record`: its name, category and age, each
/// on a line of its own after its label, and its detail link on the last.
pub fn message(record: &Record) -> (text: String)
    ensures
        text@ == message_of(record@),
{
    let mut text = "name: ".to_owned();
    text.append(record.name());
    text.append("\nbreed: ");
    text.append(record.category());
    text.append("\nage: ");
    text.append(record.age());
    text.append("\n");
    text.append(record.url());
    text
}

/// The address to post to, so that the announcement of `record` reaches the
/// chat `chat_id` on behalf of the bot with the token `token`.
pub fn delivery_url(token: &str, chat_id: &str, record: &Record) -> (url: String)
    ensures
        url@ == delivery_of(token@, chat_id@, record@),
{
    let text = message(record);
    let query = append_pair(String::new(), "chat_id", chat_id);
    let query = append_pair(query, "parse_mode", "Markdown");
    let query = append_pair(query, "text", text.as_str());
    let mut url = "https://api.telegram.org/bot".to_owned();
    url.append(token);
    url.append("/sendMessage?");
    url.append(query.as_str());
    assert(url@ =~= delivery_of(token@, chat_id@, record@));
    url
}

} // verus!
