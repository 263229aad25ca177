//! Reading the output of a command line by line.

use vstd::prelude::*;
use vstd::slice::slice_subrange;
use vstd::slice::slice_to_vec;
use vstd::utf8::decode_utf8;
use vstd::utf8::decode_utf8_encode_utf8;
use vstd::utf8::encode_utf8;
use vstd::utf8::encode_utf8_decode_utf8;
use vstd::utf8::encode_utf8_valid_utf8;
use vstd::utf8::valid_utf8;

verus! {

/// The byte that ends a line.
pub const NEWLINE: u8 = 10;

/// The byte that belongs to the line ending where it stands just before one.
pub const CARRIAGE_RETURN: u8 = 13;

/// The number of bytes before the first line ending, or of all bytes.
pub open spec fn line_length(bytes: Seq<u8>) -> nat
    decreases bytes.len(),
{
    if bytes.len() == 0 || bytes.first() == NEWLINE {
        0
    } else {
        1 + line_length(bytes.drop_first())
    }
}

/// A line without the carriage return that belongs to its ending.
pub open spec fn chomped(line: Seq<u8>) -> Seq<u8> {
    if line.len() > 0 && line.last() == CARRIAGE_RETURN {
        line.drop_last()
    } else {
        line
    }
}

/// The lines of an output, without their endings. The last one need not have
/// an ending, and keeps a trailing carriage return then.
pub open spec fn split_lines(bytes: Seq<u8>) -> Seq<Seq<u8>>
    decreases bytes.len(),
{
    let n = line_length(bytes);
    if bytes.len() == 0 {
        Seq::empty()
    } else if n >= bytes.len() {
        seq![bytes]
    } else {
        seq![chomped(bytes.take(n as int))] + split_lines(bytes.skip(n as int + 1))
    }
}

/// The text of a line, if it is UTF-8.
pub open spec fn text_of(line: Seq<u8>) -> Option<Seq<char>> {
    if valid_utf8(line) {
        Some(decode_utf8(line))
    } else {
        None
    }
}

/// The text of each line of an output, `None` where a line is not UTF-8.
pub open spec fn texts(bytes: Seq<u8>) -> Seq<Option<Seq<char>>> {
    split_lines(bytes).map_values(|line: Seq<u8>| text_of(line))
}

/// The contents of an optional string.
pub open spec fn optional(text: Option<String>) -> Option<Seq<char>> {
    match text {
        Some(s) => Some(s@),
        None => None,
    }
}

/// `String::from_utf8`: succeeds exactly on valid UTF-8, with the characters
/// that the bytes encode.
#[verifier::external_body]
fn string_from_utf8(bytes: Vec<u8>) -> (r: Option<String>)
    ensures
        optional(r) == text_of(bytes@),
{
    String::from_utf8(bytes).ok()
}

/// Splits the output of a command into lines. A line that is not UTF-8 is
/// `None`.
pub fn read_lines(bytes: &[u8]) -> (r: Vec<Option<String>>)
    ensures
        r@.map_values(|line: Option<String>| optional(line)) == texts(bytes@),
{
    let mut r: Vec<Option<String>> = Vec::new();
    let mut start: usize = 0;
    assert(bytes@.skip(0) =~= bytes@);
    assert(r@.map_values(|line: Option<String>| optional(line)) + texts(bytes@) =~= texts(bytes@));
    while start < bytes.len()
        invariant
            start <= bytes.len(),
            texts(bytes@) == r@.map_values(|line: Option<String>| optional(line)) + texts(
                bytes@.skip(start as int),
            ),
        decreases bytes.len() - start,
    {
        let ghost rest = bytes@.skip(start as int);
        let mut end: usize = start;
        assert(bytes@.skip(end as int) =~= rest);
        while end < bytes.len() && bytes[end] != NEWLINE
            invariant
                start <= end <= bytes.len(),
                line_length(rest) == end - start + line_length(bytes@.skip(end as int)),
            decreases bytes.len() - end,
        {
            assert(bytes@.skip(end as int).drop_first() =~= bytes@.skip(end + 1));
            end += 1;
        }
        assert(line_length(rest) == end - start);
        let ended = end < bytes.len();
        let mut stop: usize = end;
        if ended && start < end && bytes[end - 1] == CARRIAGE_RETURN {
            stop = end - 1;
        }
        let line = string_from_utf8(slice_to_vec(slice_subrange(bytes, start, stop)));
        let ghost before = r@.map_values(|line: Option<String>| optional(line));
        r.push(line);
        let next: usize = if ended {
            end + 1
        } else {
            end
        };
        proof {
            let head = text_of(bytes@.subrange(start as int, stop as int));
            assert(r@.map_values(|line: Option<String>| optional(line)) =~= before.push(head));
            if ended {
                assert(chomped(rest.take(end - start)) =~= bytes@.subrange(
                    start as int,
                    stop as int,
                ));
                assert(rest.skip(end - start + 1) =~= bytes@.skip(next as int));
            } else {
                assert(rest =~= bytes@.subrange(start as int, stop as int));
                assert(split_lines(bytes@.skip(next as int)) =~= Seq::empty());
            }
            assert(texts(rest) =~= seq![head] + texts(bytes@.skip(next as int)));
            assert(before + (seq![head] + texts(bytes@.skip(next as int))) =~= before.push(head)
                + texts(bytes@.skip(next as int)));
        }
        start = next;
    }
    assert(texts(bytes@.skip(start as int)) =~= Seq::empty());
    assert(r@.map_values(|line: Option<String>| optional(line)) =~= texts(bytes@));
    r
}

proof fn lemma_line_length(line: Seq<u8>, rest: Seq<u8>)
    requires
        !line.contains(10u8),
        rest.len() == 0 || rest.first() == 10u8,
    ensures
        line_length(line + rest) == line.len(),
    decreases line.len(),
{
    if line.len() > 0 {
        assert(line.contains(line[0]));
        assert((line + rest).first() == line[0]);
        assert((line + rest).drop_first() =~= line.drop_first() + rest);
        assert(!line.drop_first().contains(10u8)) by {
            if line.drop_first().contains(10u8) {
                let i = choose|i: int|
                    0 <= i < line.drop_first().len() && line.drop_first()[i] == 10u8;
                assert(line[i + 1] == 10u8);
            }
        }
        lemma_line_length(line.drop_first(), rest);
    } else {
        assert(line + rest =~= rest);
    }
}

/// A line ends at a newline, or at a carriage return and a newline, which do not
/// belong to it. The next line begins right behind. Without a newline, all that
/// is left is the last line.
pub proof fn lines_end_at_newlines(line: Seq<u8>, rest: Seq<u8>)
    requires
        !line.contains(10u8),
    ensures
        texts(Seq::empty()).len() == 0,
        line.len() > 0 ==> texts(line) == seq![text_of(line)],
        texts(line + seq![13u8, 10u8] + rest) == seq![text_of(line)] + texts(rest),
        line.len() == 0 || line.last() != 13u8 ==> texts(line + seq![10u8] + rest) == seq![
            text_of(line),
        ] + texts(rest),
{
    let unix = line + seq![10u8] + rest;
    let dos = line + seq![13u8, 10u8] + rest;
    let returned = line.push(13u8);
    assert(unix =~= line + (seq![10u8] + rest));
    assert(dos =~= returned + (seq![10u8] + rest));
    assert(!returned.contains(10u8)) by {
        if returned.contains(10u8) {
            let i = choose|i: int| 0 <= i < returned.len() && returned[i] == 10u8;
            assert(line[i] == 10u8);
        }
    }
    lemma_line_length(line, seq![10u8] + rest);
    lemma_line_length(returned, seq![10u8] + rest);
    lemma_line_length(line, Seq::empty());
    assert(line + Seq::empty() =~= line);
    let n = line.len() as int;
    assert(unix.take(n) =~= line);
    assert(unix.skip(n + 1) =~= rest);
    assert(dos.take(n + 1) =~= returned);
    assert(dos.skip(n + 2) =~= rest);
    assert(returned.drop_last() =~= line);
    if line.len() > 0 {
        assert(texts(line) =~= seq![text_of(line)]);
    }
    assert(split_lines(dos) == seq![line] + split_lines(rest));
    assert(texts(dos) =~= seq![text_of(line)] + texts(rest));
    if line.len() == 0 || line.last() != 13u8 {
        assert(split_lines(unix) == seq![line] + split_lines(rest));
        assert(texts(unix) =~= seq![text_of(line)] + texts(rest));
    }
}

/// A line has a text exactly if it is the UTF-8 form of that text.
pub proof fn lines_are_utf8(line: Seq<u8>, text: Seq<char>)
    ensures
        text_of(line) == Some(text) <==> line == encode_utf8(text),
{
    if valid_utf8(line) {
        decode_utf8_encode_utf8(line);
    }
    encode_utf8_valid_utf8(text);
    encode_utf8_decode_utf8(text);
}

} // verus!
