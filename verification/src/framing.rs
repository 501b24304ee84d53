//! Line framing of a child's output for the event-stream transport.
//!
//! Bytes arrive in chunks of arbitrary size; the client is sent one event per
//! line. A line ends at a line feed; one carriage return before the line feed
//! is dropped; the line must be UTF-8. The splitting itself is done by
//! `tokio_util::codec::LinesCodec`; this module states what it does on the
//! pending bytes and proves the framer's results from that.

use tokio_util::bytes::BytesMut;
use tokio_util::codec::Decoder;
use tokio_util::codec::LinesCodec;
use tokio_util::codec::LinesCodecError;
use vstd::prelude::*;
use vstd::utf8::*;

verus! {

/// The line feed, which ends a line.
pub const LINE_FEED: u8 = 10;

/// The carriage return, dropped when it directly precedes the line feed.
pub const CARRIAGE_RETURN: u8 = 13;

/// Number of bytes before the first line feed of `bytes`, or the length of
/// `bytes` if it holds none.
pub open spec fn line_break(bytes: Seq<u8>) -> int
    decreases bytes.len(),
{
    if bytes.len() == 0 || bytes[0] == LINE_FEED {
        0
    } else {
        1 + line_break(bytes.drop_first())
    }
}

/// Whether `bytes` holds a complete line, that is, a line feed.
pub open spec fn has_line(bytes: Seq<u8>) -> bool {
    line_break(bytes) < bytes.len()
}

/// `line` without one trailing carriage return.
pub open spec fn without_carriage_return(line: Seq<u8>) -> Seq<u8> {
    if line.len() > 0 && line.last() == CARRIAGE_RETURN {
        line.drop_last()
    } else {
        line
    }
}

/// The first line of `bytes`, without its terminator.
pub open spec fn head_line(bytes: Seq<u8>) -> Seq<u8> {
    without_carriage_return(bytes.subrange(0, line_break(bytes)))
}

/// What follows the first line of `bytes` and its line feed.
pub open spec fn after_line(bytes: Seq<u8>) -> Seq<u8>
    recommends
        has_line(bytes),
{
    bytes.subrange(line_break(bytes) + 1, bytes.len() as int)
}

/// Whether the end of input leaves an unterminated last line in `bytes`.
/// Nothing, or a lone carriage return, is no line.
pub open spec fn has_last_line(bytes: Seq<u8>) -> bool {
    bytes.len() > 0 && bytes != seq![CARRIAGE_RETURN]
}

/// Characterises `line_break`: no line feed lies before it, and one lies at
/// it unless it is the length.
pub proof fn lemma_line_break(bytes: Seq<u8>)
    ensures
        0 <= line_break(bytes) <= bytes.len(),
        forall|k: int| 0 <= k < line_break(bytes) ==> bytes[k] != LINE_FEED,
        has_line(bytes) ==> bytes[line_break(bytes)] == LINE_FEED,
    decreases bytes.len(),
{
    if bytes.len() == 0 || bytes[0] == LINE_FEED {
    } else {
        let rest = bytes.drop_first();
        lemma_line_break(rest);
        assert forall|k: int| 0 <= k < line_break(bytes) implies bytes[k] != LINE_FEED by {
            if k > 0 {
                assert(bytes[k] == rest[k - 1]);
            }
        }
        if has_line(bytes) {
            assert(bytes[line_break(bytes)] == rest[line_break(rest)]);
        }
    }
}

/// `tokio_util::codec::LinesCodecError`, the error of the codec, carried as
/// an opaque value: nothing is read from it.
#[verifier::external_type_specification]
#[verifier::external_body]
pub struct ExLinesCodecError(LinesCodecError);

/// What the codec answers when it has taken the line `line` off the pending
/// bytes: the line as text if it is UTF-8, an error if it is not.
pub open spec fn answers_line(
    decoded: Result<Option<String>, LinesCodecError>,
    line: Seq<u8>,
) -> bool {
    if valid_utf8(line) {
        decoded matches Ok(Some(text)) && text@ == decode_utf8(line)
    } else {
        decoded is Err
    }
}

/// What the codec answers when it finds no line: `Ok(None)`.
pub open spec fn answers_nothing(decoded: Result<Option<String>, LinesCodecError>) -> bool {
    decoded matches Ok(None)
}

/// Runs `LinesCodec::decode` of a codec just made by `LinesCodec::new` on the
/// pending bytes. The contract claims what that method does from this state:
/// without a line feed it returns `Ok(None)` and touches nothing; with one it
/// takes the first line and its line feed off the front, drops one trailing
/// carriage return, and returns the line as text if it is UTF-8, an error if
/// it is not.
#[verifier::external_body]
fn decode_line(pending: &mut Vec<u8>) -> (decoded: Result<Option<String>, LinesCodecError>)
    ensures
        if has_line(old(pending)@) {
            final(pending)@ == after_line(old(pending)@) && answers_line(
                decoded,
                head_line(old(pending)@),
            )
        } else {
            final(pending)@ == old(pending)@ && answers_nothing(decoded)
        },
{
    let mut buffer = BytesMut::from(&pending[..]);
    let decoded = LinesCodec::new().decode(&mut buffer);
    *pending = buffer.to_vec();
    decoded
}

/// Runs `LinesCodec::decode_eof` of a codec just made by `LinesCodec::new` on
/// the pending bytes. With a line feed present it does what `decode` does.
/// Without one it returns `Ok(None)` and touches nothing if the bytes are
/// empty or a lone carriage return; otherwise it takes all of them, drops one
/// trailing carriage return, and returns the line as text if it is UTF-8, an
/// error if it is not.
#[verifier::external_body]
fn decode_last_line(pending: &mut Vec<u8>) -> (decoded: Result<Option<String>, LinesCodecError>)
    ensures
        if has_line(old(pending)@) {
            final(pending)@ == after_line(old(pending)@) && answers_line(
                decoded,
                head_line(old(pending)@),
            )
        } else if has_last_line(old(pending)@) {
            final(pending)@ == Seq::<u8>::empty() && answers_line(
                decoded,
                without_carriage_return(old(pending)@),
            )
        } else {
            final(pending)@ == old(pending)@ && answers_nothing(decoded)
        },
{
    let mut buffer = BytesMut::from(&pending[..]);
    let decoded = LinesCodec::new().decode_eof(&mut buffer);
    *pending = buffer.to_vec();
    decoded
}

/// The outcome of framing a run of bytes.
pub ghost struct Framing {
    /// The lines taken off the front, decoded, in order.
    pub lines: Seq<Seq<char>>,
    /// The bytes left pending.
    pub rest: Seq<u8>,
    /// Whether framing stopped at a line that is not UTF-8.
    pub broken: bool,
}

/// Frames `bytes`: takes complete lines off the front for as long as they are
/// UTF-8. It stops before an unterminated line, which stays pending, or after
/// a line that is not UTF-8, which is dropped.
pub open spec fn framing(bytes: Seq<u8>) -> Framing
    decreases bytes.len(),
    via framing_decreases
{
    if !has_line(bytes) {
        Framing { lines: Seq::empty(), rest: bytes, broken: false }
    } else if !valid_utf8(head_line(bytes)) {
        Framing { lines: Seq::empty(), rest: after_line(bytes), broken: true }
    } else {
        let later = framing(after_line(bytes));
        Framing {
            lines: seq![decode_utf8(head_line(bytes))] + later.lines,
            rest: later.rest,
            broken: later.broken,
        }
    }
}

#[via_fn]
proof fn framing_decreases(bytes: Seq<u8>) {
    lemma_line_break(bytes);
}

/// Frames `bytes` as the whole remaining output of a source: as `framing`
/// does, and then an unterminated last line counts as a line.
pub open spec fn closing(bytes: Seq<u8>) -> Framing {
    let framed = framing(bytes);
    if framed.broken || !has_last_line(framed.rest) {
        framed
    } else if valid_utf8(without_carriage_return(framed.rest)) {
        Framing {
            lines: framed.lines.push(decode_utf8(without_carriage_return(framed.rest))),
            rest: Seq::empty(),
            broken: false,
        }
    } else {
        Framing { lines: framed.lines, rest: Seq::empty(), broken: true }
    }
}

/// What a framer hands out for one run of bytes.
#[derive(Clone, Debug, PartialEq, Eq)]
pub struct Drained {
    /// The lines that became complete, in order.
    pub lines: Vec<String>,
    /// Whether framing stopped at a line that is not UTF-8.
    pub broken: bool,
}

impl Drained {
    /// Whether this is what comes out of a framing with the outcome `framed`.
    pub open spec fn reports(&self, framed: Framing) -> bool {
        &&& self.lines.deep_view() == framed.lines
        &&& self.broken == framed.broken
    }
}

/// Splits the output of one source into lines, across chunk boundaries.
#[derive(Debug)]
pub struct LineFramer {
    pending: Vec<u8>,
}

impl LineFramer {
    /// The bytes received and not yet handed out as a line.
    pub closed spec fn pending(&self) -> Seq<u8> {
        self.pending@
    }

    /// A framer with nothing pending.
    pub fn new() -> (framer: LineFramer)
        ensures
            framer.pending() == Seq::<u8>::empty(),
    {
        LineFramer { pending: Vec::new() }
    }

    /// Number of bytes pending.
    pub fn pending_len(&self) -> (len: usize)
        ensures
            len == self.pending().len(),
    {
        self.pending.len()
    }

    /// Takes in a chunk and hands out the lines it completes.
    pub fn accept(&mut self, chunk: &[u8]) -> (out: Drained)
        ensures
            out.reports(framing(old(self).pending() + chunk@)),
            final(self).pending() == framing(old(self).pending() + chunk@).rest,
    {
        self.pending.extend_from_slice(chunk);
        let ghost start = self.pending@;
        let mut lines: Vec<String> = Vec::new();
        loop
            invariant
                start == old(self).pending() + chunk@,
                framing(start).lines == lines.deep_view() + framing(self.pending@).lines,
                framing(start).rest == framing(self.pending@).rest,
                framing(start).broken == framing(self.pending@).broken,
            decreases self.pending@.len(),
        {
            proof {
                lemma_line_break(self.pending@);
            }
            let ghost before = lines.deep_view();
            match decode_line(&mut self.pending) {
                Ok(None) => {
                    assert(lines.deep_view() + Seq::<Seq<char>>::empty() =~= lines.deep_view());
                    return Drained { lines, broken: false };
                },
                Ok(Some(text)) => {
                    lines.push(text);
                    assert(lines.deep_view() =~= before.push(text@));
                    assert(before + (seq![text@] + framing(self.pending@).lines) =~= before.push(
                        text@,
                    ) + framing(self.pending@).lines);
                },
                Err(_) => {
                    assert(lines.deep_view() + Seq::<Seq<char>>::empty() =~= lines.deep_view());
                    return Drained { lines, broken: true };
                },
            }
        }
    }

    /// Hands out what the end of the source's output completes: the lines
    /// still pending and, after them, an unterminated last line.
    pub fn finish(&mut self) -> (out: Drained)
        ensures
            out.reports(closing(old(self).pending())),
            final(self).pending() == closing(old(self).pending()).rest,
    {
        let ghost start = self.pending@;
        let mut lines: Vec<String> = Vec::new();
        loop
            invariant
                start == old(self).pending(),
                closing(start).lines == lines.deep_view() + closing(self.pending@).lines,
                closing(start).rest == closing(self.pending@).rest,
                closing(start).broken == closing(self.pending@).broken,
            decreases self.pending@.len(),
        {
            proof {
                lemma_line_break(self.pending@);
                lemma_closing_unfolds(self.pending@);
            }
            let ghost before = lines.deep_view();
            let ghost rest = closing(self.pending@).lines;
            match decode_last_line(&mut self.pending) {
                Ok(None) => {
                    assert(lines.deep_view() + Seq::<Seq<char>>::empty() =~= lines.deep_view());
                    return Drained { lines, broken: false };
                },
                Ok(Some(text)) => {
                    lines.push(text);
                    assert(lines.deep_view() =~= before.push(text@));
                    assert(before + (seq![text@] + closing(self.pending@).lines) =~= before.push(
                        text@,
                    ) + closing(self.pending@).lines);
                },
                Err(_) => {
                    assert(lines.deep_view() + Seq::<Seq<char>>::empty() =~= lines.deep_view());
                    return Drained { lines, broken: true };
                },
            }
        }
    }
}

/// How `closing` proceeds line by line: it takes a complete line as `framing`
/// does, and at the end of the bytes the unterminated line.
proof fn lemma_closing_unfolds(bytes: Seq<u8>)
    ensures
        has_line(bytes) && valid_utf8(head_line(bytes)) ==> closing(bytes) == (Framing {
            lines: seq![decode_utf8(head_line(bytes))] + closing(after_line(bytes)).lines,
            rest: closing(after_line(bytes)).rest,
            broken: closing(after_line(bytes)).broken,
        }),
        has_line(bytes) && !valid_utf8(head_line(bytes)) ==> closing(bytes) == (Framing {
            lines: Seq::empty(),
            rest: after_line(bytes),
            broken: true,
        }),
        !has_line(bytes) && has_last_line(bytes) && valid_utf8(without_carriage_return(bytes))
            ==> closing(bytes) == (Framing {
            lines: seq![decode_utf8(without_carriage_return(bytes))],
            rest: Seq::empty(),
            broken: false,
        }),
        !has_line(bytes) && has_last_line(bytes) && !valid_utf8(without_carriage_return(bytes))
            ==> closing(bytes) == (Framing { lines: Seq::empty(), rest: Seq::empty(), broken: true }),
        !has_line(bytes) && !has_last_line(bytes) ==> closing(bytes) == (Framing {
            lines: Seq::empty(),
            rest: bytes,
            broken: false,
        }),
        closing(Seq::<u8>::empty()) == (Framing {
            lines: Seq::empty(),
            rest: Seq::empty(),
            broken: false,
        }),
{
    lemma_line_break(bytes);
    if has_line(bytes) && valid_utf8(head_line(bytes)) {
        let head = decode_utf8(head_line(bytes));
        let later = framing(after_line(bytes));
        if !later.broken && has_last_line(later.rest) && valid_utf8(
            without_carriage_return(later.rest),
        ) {
            let last = decode_utf8(without_carriage_return(later.rest));
            assert((seq![head] + later.lines).push(last) =~= seq![head] + later.lines.push(last));
        }
    }
    if !has_line(bytes) && has_last_line(bytes) && valid_utf8(without_carriage_return(bytes)) {
        assert(Seq::<Seq<char>>::empty().push(decode_utf8(without_carriage_return(bytes)))
            =~= seq![decode_utf8(without_carriage_return(bytes))]);
    }
    assert(line_break(Seq::<u8>::empty()) == 0);
}

/// A complete first line is found at the same place whatever follows it.
proof fn lemma_line_survives_append(first: Seq<u8>, second: Seq<u8>)
    requires
        has_line(first),
    ensures
        has_line(first + second),
        line_break(first + second) == line_break(first),
        head_line(first + second) == head_line(first),
        after_line(first + second) == after_line(first) + second,
    decreases first.len(),
{
    let whole = first + second;
    lemma_line_break(first);
    assert(whole[0] == first[0]);
    if first[0] != LINE_FEED {
        assert(whole.drop_first() =~= first.drop_first() + second);
        lemma_line_survives_append(first.drop_first(), second);
    }
    assert(whole.subrange(0, line_break(first)) =~= first.subrange(0, line_break(first)));
    assert(whole.subrange(line_break(first) + 1, whole.len() as int) =~= first.subrange(
        line_break(first) + 1,
        first.len() as int,
    ) + second);
}

/// Framing does not depend on where the output was cut into chunks: framing
/// `first`, and then what that left pending followed by `second`, hands out
/// in the same order the lines that framing both at once hands out, and
/// leaves the same bytes pending. If framing `first` stops at a line that is
/// not UTF-8, framing both at once stops at that same line.
pub proof fn law_framing_ignores_chunking(first: Seq<u8>, second: Seq<u8>)
    ensures
        !framing(first).broken ==> framing(first + second) == (Framing {
            lines: framing(first).lines + framing(framing(first).rest + second).lines,
            rest: framing(framing(first).rest + second).rest,
            broken: framing(framing(first).rest + second).broken,
        }),
        framing(first).broken ==> framing(first + second) == (Framing {
            lines: framing(first).lines,
            rest: framing(first).rest + second,
            broken: true,
        }),
    decreases first.len(),
{
    lemma_line_break(first);
    if !has_line(first) {
        assert(Seq::<Seq<char>>::empty() + framing(first + second).lines =~= framing(
            first + second,
        ).lines);
    } else {
        lemma_line_survives_append(first, second);
        if valid_utf8(head_line(first)) {
            let head = seq![decode_utf8(head_line(first))];
            let later = after_line(first);
            law_framing_ignores_chunking(later, second);
            if !framing(later).broken {
                assert(head + (framing(later).lines + framing(
                    framing(later).rest + second,
                ).lines) =~= (head + framing(later).lines) + framing(
                    framing(later).rest + second,
                ).lines);
            }
        }
    }
}

/// The end of the output does not depend on the chunking either: framing
/// `first` and then closing over what that left pending followed by `second`
/// hands out what closing over both at once hands out.
pub proof fn law_closing_ignores_chunking(first: Seq<u8>, second: Seq<u8>)
    requires
        !framing(first).broken,
    ensures
        closing(first + second) == (Framing {
            lines: framing(first).lines + closing(framing(first).rest + second).lines,
            rest: closing(framing(first).rest + second).rest,
            broken: closing(framing(first).rest + second).broken,
        }),
{
    law_framing_ignores_chunking(first, second);
    let tail = framing(framing(first).rest + second);
    if !tail.broken && has_last_line(tail.rest) && valid_utf8(without_carriage_return(tail.rest)) {
        let last = decode_utf8(without_carriage_return(tail.rest));
        assert((framing(first).lines + tail.lines).push(last) =~= framing(first).lines
            + tail.lines.push(last));
    }
}

} // verus!
