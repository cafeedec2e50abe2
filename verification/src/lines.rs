//! The line source: from the bytes of a stream to its lines of text.
//!
//! A line ends at a line feed, or at the end of the stream. The line feed and
//! a carriage return just before it are not part of the line. Each line is
//! decoded as UTF-8 on its own.

use crate::error::Failure;
use crate::error::XcoprError;
use vstd::prelude::*;
use vstd::slice::slice_subrange;
use vstd::slice::slice_to_vec;
use vstd::string::*;
use vstd::utf8::decode_utf8;
use vstd::utf8::valid_utf8;

verus! {

/// The byte that ends a line.
pub const LINE_FEED: u8 = 10;

/// The byte that may stand before a line feed without being part of the line.
pub const CARRIAGE_RETURN: u8 = 13;

/// The number of bytes before the first line feed of `bytes`, or the length
/// of `bytes` where it holds none.
pub open spec fn line_end(bytes: Seq<u8>) -> int
    decreases bytes.len(),
{
    if bytes.len() == 0 || bytes[0] == LINE_FEED {
        0
    } else {
        1 + line_end(bytes.drop_first())
    }
}

/// A line without the carriage return that stood before its line feed.
pub open spec fn without_return(line: Seq<u8>) -> Seq<u8> {
    if line.len() > 0 && line.last() == CARRIAGE_RETURN {
        line.drop_last()
    } else {
        line
    }
}

/// The lines of a stream, as bytes.
pub open spec fn framed(bytes: Seq<u8>) -> Seq<Seq<u8>>
    decreases bytes.len(),
    via framed_decreases
{
    if bytes.len() == 0 {
        Seq::empty()
    } else if line_end(bytes) == bytes.len() {
        seq![bytes]
    } else {
        seq![without_return(bytes.take(line_end(bytes)))] + framed(bytes.skip(line_end(bytes) + 1))
    }
}

#[via_fn]
proof fn framed_decreases(bytes: Seq<u8>) {
    lemma_line_end_in_range(bytes);
}

/// The first `limit` lines of a stream, or all of them where it has fewer.
pub open spec fn first_lines(bytes: Seq<u8>, limit: nat) -> Seq<Seq<u8>> {
    if limit < framed(bytes).len() {
        framed(bytes).take(limit as int)
    } else {
        framed(bytes)
    }
}

/// Whether every line is valid UTF-8.
pub open spec fn all_utf8(lines: Seq<Seq<u8>>) -> bool {
    forall|i: int| 0 <= i < lines.len() ==> valid_utf8(#[trigger] lines[i])
}

/// The text of each line.
pub open spec fn decoded(lines: Seq<Seq<u8>>) -> Seq<Seq<char>> {
    lines.map_values(|line: Seq<u8>| decode_utf8(line))
}

/// The detail given where a stream is not UTF-8.
pub open spec fn not_utf8() -> Seq<char> {
    "stream did not contain valid UTF-8"@
}

proof fn lemma_line_end_in_range(bytes: Seq<u8>)
    ensures
        0 <= line_end(bytes) <= bytes.len(),
    decreases bytes.len(),
{
    if bytes.len() != 0 && bytes[0] != LINE_FEED {
        lemma_line_end_in_range(bytes.drop_first());
    }
}

/// A stream has no more lines than bytes.
pub proof fn lemma_framed_length(bytes: Seq<u8>)
    ensures
        framed(bytes).len() <= bytes.len(),
    decreases bytes.len(),
{
    lemma_line_end_in_range(bytes);
    if bytes.len() != 0 && line_end(bytes) != bytes.len() {
        lemma_framed_length(bytes.skip(line_end(bytes) + 1));
    }
}

/// A line ends at the first line feed, or at the end of the bytes.
proof fn lemma_line_end_at(bytes: Seq<u8>, at: int)
    requires
        0 <= at <= bytes.len(),
        forall|j: int| 0 <= j < at ==> bytes[j] != LINE_FEED,
        at == bytes.len() || bytes[at] == LINE_FEED,
    ensures
        line_end(bytes) == at,
    decreases at,
{
    if at > 0 {
        let rest = bytes.drop_first();
        assert forall|j: int| 0 <= j < at - 1 implies rest[j] != LINE_FEED by {
            assert(rest[j] == bytes[j + 1]);
        }
        lemma_line_end_at(rest, at - 1);
    }
}

/// The stream that holds `lines`, each followed by a line feed.
pub open spec fn terminated(lines: Seq<Seq<u8>>) -> Seq<u8>
    decreases lines.len(),
{
    if lines.len() == 0 {
        Seq::empty()
    } else {
        lines[0] + seq![LINE_FEED] + terminated(lines.drop_first())
    }
}

/// Whether `line` can stand in a stream as one line: it holds no line feed
/// and does not end in a carriage return.
pub open spec fn is_line(line: Seq<u8>) -> bool {
    &&& forall|i: int| 0 <= i < line.len() ==> line[i] != LINE_FEED
    &&& !(line.len() > 0 && line.last() == CARRIAGE_RETURN)
}

/// No line is lost, cut or moved: a stream of lines, each followed by a line
/// feed, is read back as those lines.
pub proof fn lemma_lines_read_back(lines: Seq<Seq<u8>>)
    requires
        forall|i: int| 0 <= i < lines.len() ==> is_line(#[trigger] lines[i]),
    ensures
        framed(terminated(lines)) == lines,
    decreases lines.len(),
{
    if lines.len() > 0 {
        let line = lines[0];
        let rest = lines.drop_first();
        let bytes = terminated(lines);
        assert(is_line(lines[0]));
        assert forall|i: int| 0 <= i < rest.len() implies is_line(#[trigger] rest[i]) by {
            assert(rest[i] == lines[i + 1]);
        }
        lemma_lines_read_back(rest);
        lemma_line_end_at(bytes, line.len() as int);
        assert(bytes.take(line.len() as int) == line);
        assert(bytes.skip(line.len() as int + 1) == terminated(rest));
        assert(seq![line] + rest == lines);
    }
}

/// Decodes bytes as UTF-8.
///
/// Calls `String::from_utf8` of the standard library, which hands back the
/// text that the bytes encode where they are valid UTF-8, and an error where
/// they are not.
#[verifier::external_body]
fn decode(bytes: Vec<u8>) -> (text: Option<String>)
    ensures
        text is Some <==> valid_utf8(bytes@),
        text matches Some(t) ==> t@ == decode_utf8(bytes@),
{
    String::from_utf8(bytes).ok()
}

/// The first `limit` lines of a stream, or all of them where it has fewer.
///
/// The stream is refused where one of those lines is not valid UTF-8. What
/// follows them is not looked at.
pub fn decode_lines(bytes: &[u8], limit: usize) -> (lines: Result<Vec<String>, XcoprError>)
    ensures
        lines is Ok <==> all_utf8(first_lines(bytes@, limit as nat)),
        lines matches Ok(found) ==> found.deep_view() == decoded(
            first_lines(bytes@, limit as nat),
        ),
        lines matches Err(e) ==> e@ == Failure::InvalidUtf8(not_utf8()),
{
    let mut found: Vec<String> = Vec::new();
    let ghost mut lines: Seq<Seq<u8>> = Seq::empty();
    let mut start: usize = 0;
    let mut i: usize = 0;
    proof {
        assert(bytes@.skip(0) == bytes@);
        assert(lines + framed(bytes@) == framed(bytes@));
    }
    while i < bytes.len() && found.len() < limit
        invariant
            start <= i <= bytes.len(),
            forall|j: int| start <= j < i ==> bytes@[j] != LINE_FEED,
            found.len() <= limit,
            found.len() == lines.len(),
            lines + framed(bytes@.skip(start as int)) == framed(bytes@),
            all_utf8(lines),
            found.deep_view() == decoded(lines),
        decreases bytes.len() - i,
    {
        if bytes[i] == LINE_FEED {
            let ghost rest = bytes@.skip(start as int);
            let ghost raw = rest.take(i - start);
            let end = if i > start && bytes[i - 1] == CARRIAGE_RETURN {
                i - 1
            } else {
                i
            };
            let line = slice_subrange(bytes, start, end);
            proof {
                lemma_line_end_at(rest, i - start);
                assert(raw == bytes@.subrange(start as int, i as int));
                assert(line@ == without_return(raw));
                assert(rest.skip(i - start + 1) == bytes@.skip(i + 1));
                assert(lines + (seq![line@] + framed(bytes@.skip(i + 1))) == lines.push(line@)
                    + framed(bytes@.skip(i + 1)));
            }
            match decode(slice_to_vec(line)) {
                Some(text) => {
                    proof {
                        lemma_decoded_push(found.deep_view(), lines, text@, line@);
                    }
                    found.push(text);
                    proof {
                        lines = lines.push(line@);
                    }
                },
                None => {
                    proof {
                        lemma_line_of_prefix(framed(bytes@), lines, line@, limit as nat);
                    }
                    return Err(
                        XcoprError::InvalidUtf8(
                            String::from_str("stream did not contain valid UTF-8"),
                        ),
                    );
                },
            }
            start = i + 1;
        }
        i = i + 1;
    }
    if start < bytes.len() && found.len() < limit {
        let ghost rest = bytes@.skip(start as int);
        let line = slice_subrange(bytes, start, bytes.len());
        proof {
            lemma_line_end_at(rest, rest.len() as int);
            assert(line@ == rest);
            assert(lines + seq![line@] == lines.push(line@));
        }
        match decode(slice_to_vec(line)) {
            Some(text) => {
                proof {
                    lemma_decoded_push(found.deep_view(), lines, text@, line@);
                }
                found.push(text);
                proof {
                    lines = lines.push(line@);
                }
            },
            None => {
                proof {
                    lemma_line_of_prefix(framed(bytes@), lines, line@, limit as nat);
                }
                return Err(
                    XcoprError::InvalidUtf8(String::from_str("stream did not contain valid UTF-8")),
                );
            },
        }
        proof {
            assert(first_lines(bytes@, limit as nat) == lines);
        }
    } else {
        proof {
            if start >= bytes.len() {
                assert(bytes@.skip(start as int).len() == 0);
                assert(lines + Seq::<Seq<u8>>::empty() == lines);
            } else {
                assert(framed(bytes@).take(limit as int) == lines);
            }
            assert(first_lines(bytes@, limit as nat) == lines);
        }
    }
    Ok(found)
}

/// Decoding one more line adds its text to the texts.
proof fn lemma_decoded_push(
    texts: Seq<Seq<char>>,
    lines: Seq<Seq<u8>>,
    text: Seq<char>,
    line: Seq<u8>,
)
    requires
        texts == decoded(lines),
        text == decode_utf8(line),
    ensures
        texts.push(text) == decoded(lines.push(line)),
{
    assert(texts.push(text) =~= decoded(lines.push(line)));
}

/// A line that follows fewer than `limit` lines is among the first `limit`.
proof fn lemma_line_of_prefix(all: Seq<Seq<u8>>, lines: Seq<Seq<u8>>, line: Seq<u8>, limit: nat)
    requires
        lines.len() < limit,
        lines.push(line).is_prefix_of(all),
        !valid_utf8(line),
    ensures
        !all_utf8(
            if limit < all.len() {
                all.take(limit as int)
            } else {
                all
            },
        ),
{
    let kept = if limit < all.len() {
        all.take(limit as int)
    } else {
        all
    };
    let at = lines.len() as int;
    assert(all.subrange(0, at + 1)[at] == line);
    assert(kept[at] == line);
}

} // verus!
