//! What the client sends, and what the server answers.
use bytes::Bytes;
use vstd::prelude::*;
use vstd::string::StringExecFns;

use crate::buffer;

verus! {

/// What the server puts before a message that it echoes: `Echo: `, in ASCII.
pub open spec fn echo_prefix() -> Seq<u8> {
    seq![0x45, 0x63, 0x68, 0x6f, 0x3a, 0x20]
}

/// What the client sends for a line of input: the line and a line break.
pub open spec fn line_text(text: Seq<char>) -> Seq<char> {
    text.push('\n')
}

proof fn encode_prefix()
    ensures
        vstd::utf8::encode_utf8("Echo: "@) == echo_prefix(),
{
    reveal_strlit("Echo: ");
    vstd::utf8::is_ascii_chars_encode_utf8("Echo: "@);
    assert(vstd::utf8::encode_utf8("Echo: "@) =~= echo_prefix());
}

proof fn encode_concat(a: Seq<char>, b: Seq<char>)
    ensures
        vstd::utf8::encode_utf8(a + b) == vstd::utf8::encode_utf8(a) + vstd::utf8::encode_utf8(b),
    decreases a.len(),
{
    if a.len() == 0 {
        assert(a + b =~= b);
        assert(vstd::utf8::encode_utf8(a) =~= seq![]);
    } else {
        encode_concat(a.drop_first(), b);
        assert((a + b).drop_first() =~= a.drop_first() + b);
    }
    assert(vstd::utf8::encode_utf8(a + b) =~= vstd::utf8::encode_utf8(a)
        + vstd::utf8::encode_utf8(b));
}

/// The server echoes each line back to the client with `Echo: ` prepended: what it answers to the
/// message for a line is the text of the line, after that.
pub proof fn line_is_echoed(text: Seq<char>)
    ensures
        echo_prefix() + vstd::utf8::encode_utf8(line_text(text)) == vstd::utf8::encode_utf8(
            "Echo: "@ + line_text(text),
        ),
{
    encode_prefix();
    encode_concat("Echo: "@, line_text(text));
}

/// The echo of a message: the prefix and the message.
pub fn echo(message: &[u8]) -> (r: Bytes)
    requires
        echo_prefix().len() + message@.len() <= isize::MAX,
    ensures
        buffer::content(r) == echo_prefix() + message@,
{
    let prefix: &[u8] = "Echo: ".as_bytes();
    proof {
        encode_prefix();
    }
    let mut echo = buffer::with_capacity(prefix.len() + message.len());
    buffer::extend_from_slice(&mut echo, prefix);
    buffer::extend_from_slice(&mut echo, message);
    assert(buffer::buffer_content(echo) =~= echo_prefix() + message@);
    buffer::freeze(echo)
}

/// The message for a line of input, whose line break was taken off.
pub fn line_message(text: String) -> (r: Bytes)
    ensures
        buffer::content(r) == vstd::utf8::encode_utf8(line_text(text@)),
{
    let mut line = text;
    line.append("\n");
    proof {
        reveal_strlit("\n");
        assert(line@ =~= line_text(text@));
    }
    buffer::of_string(line)
}

proof fn encode_line_break()
    ensures
        vstd::utf8::encode_utf8("\n"@) == seq![0x0au8],
        "\n"@ == seq!['\n'],
{
    reveal_strlit("\n");
    vstd::utf8::is_ascii_chars_encode_utf8("\n"@);
    assert(vstd::utf8::encode_utf8("\n"@) =~= seq![0x0au8]);
    assert("\n"@ =~= seq!['\n']);
}

/// The message for a line is all of its text, in UTF-8, and then a single line feed, whatever the
/// text.
pub proof fn message_is_line_and_line_feed(text: String, r: Bytes)
    requires
        call_ensures(line_message, (text,), r),
    ensures
        buffer::content(r) == vstd::utf8::encode_utf8(text@) + seq![0x0au8],
{
    encode_line_break();
    encode_concat(text@, "\n"@);
    assert(text@ + "\n"@ =~= text@.push('\n'));
}

/// The echo of a message is the six bytes of `Echo: ` and then all of the message, whatever it is.
pub proof fn echo_is_prefix_and_message(message: &[u8], r: Bytes)
    requires
        call_ensures(echo, (message,), r),
    ensures
        buffer::content(r).len() == 6 + message@.len(),
        buffer::content(r).take(6) == vstd::utf8::encode_utf8("Echo: "@),
        buffer::content(r).skip(6) == message@,
{
    encode_prefix();
    assert(buffer::content(r).take(6) =~= echo_prefix());
    assert(buffer::content(r).skip(6) =~= message@);
}

/// A line that goes to the server comes back with `Echo: ` before it and its line break after it.
pub proof fn line_comes_back(text: String, message: Bytes, received: &[u8], r: Bytes)
    requires
        call_ensures(line_message, (text,), message),
        received@ == buffer::content(message),
        call_ensures(echo, (received,), r),
    ensures
        buffer::content(r) == vstd::utf8::encode_utf8("Echo: "@ + text@ + "\n"@),
{
    message_is_line_and_line_feed(text, message);
    echo_is_prefix_and_message(received, r);
    encode_line_break();
    encode_concat("Echo: "@ + text@, "\n"@);
    encode_concat("Echo: "@, text@);
    assert(buffer::content(r) =~= buffer::content(r).take(6) + buffer::content(r).skip(6));
    assert(buffer::content(r) =~= vstd::utf8::encode_utf8("Echo: "@) + vstd::utf8::encode_utf8(
        text@,
    ) + vstd::utf8::encode_utf8("\n"@));
}

/// Different messages have different echoes.
pub proof fn echoes_tell_messages_apart(a: &[u8], b: &[u8], r: Bytes, s: Bytes)
    requires
        call_ensures(echo, (a,), r),
        call_ensures(echo, (b,), s),
        buffer::content(r) == buffer::content(s),
    ensures
        a@ == b@,
{
    echo_is_prefix_and_message(a, r);
    echo_is_prefix_and_message(b, s);
}

} // verus!
