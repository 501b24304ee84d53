//! The conversions of the I/O bridge: a chunk read from one of the child's
//! output pipes becomes the text of one message, and a message from the
//! client becomes one terminated line for the child's input.

use vstd::prelude::*;
use vstd::string::*;
use vstd::utf8::*;

verus! {

/// The output pipes of the child.
#[derive(Clone, Copy, Debug, PartialEq, Eq, Structural)]
pub enum Pipe {
    Stdout,
    Stderr,
}

/// Most bytes taken from a pipe in one read, and so in one message of the
/// duplex transport.
pub const CHUNK_SIZE: usize = 1024;

/// The text that stands for `bytes` on the wire: their decoding as UTF-8,
/// with each malformed part replaced by U+FFFD.
pub uninterp spec fn lossy_text(bytes: Seq<u8>) -> Seq<char>;

/// Calls `String::from_utf8_lossy` and takes the result as an owned string.
/// The contract names the result, which the bytes alone determine, and claims
/// of it only that bytes that are UTF-8 come out as the text they encode.
#[verifier::external_body]
pub(crate) fn decode_lossy(bytes: &[u8]) -> (text: String)
    ensures
        text@ == lossy_text(bytes@),
        valid_utf8(bytes@) ==> text@ == decode_utf8(bytes@),
{
    String::from_utf8_lossy(bytes).into_owned()
}

/// `text` as a line: with a line terminator appended unless it ends in one.
pub open spec fn terminated(text: Seq<char>) -> Seq<char> {
    if text.len() > 0 && text.last() == '\n' {
        text
    } else {
        text.push('\n')
    }
}

/// Turns a message from the client into the line written to the child's
/// input.
pub fn terminate_line(text: String) -> (line: String)
    ensures
        line@ == terminated(text@),
{
    let len = text.as_str().unicode_len();
    if len > 0 && text.as_str().get_char(len - 1) == '\n' {
        text
    } else {
        let mut line = text;
        line.append("\n");
        proof {
            reveal_strlit("\n");
            assert(line@ =~= text@.push('\n'));
        }
        line
    }
}

/// A terminated line ends in a line terminator, begins with the text it was
/// made from and is at most one character longer; terminating it again
/// changes nothing.
pub proof fn law_termination(text: Seq<char>)
    ensures
        terminated(text).len() > 0,
        terminated(text).last() == '\n',
        terminated(text).subrange(0, text.len() as int) == text,
        terminated(text).len() <= text.len() + 1,
        terminated(terminated(text)) == terminated(text),
{
    assert(terminated(text).subrange(0, text.len() as int) =~= text);
}

/// What the duplex transport delivered from the client.
#[derive(Clone, Debug, PartialEq, Eq)]
pub enum Inbound {
    /// A text message.
    Text(String),
    /// The client asks to close the channel.
    Close,
    /// A message of a kind that carries no input: binary, ping or pong.
    Other,
}

} // verus!
