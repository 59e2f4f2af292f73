//! Reading the lines of a text file from its bytes, and writing them.
//!
//! A line ends at a newline or at the end of the file. One carriage return
//! before the newline is not part of the line. A line that is blank, or whose
//! bytes are not valid UTF-8, is skipped.
//!
//! The other way round, a file is written as its lines with a newline after
//! each, and what was written is read back as it was.

use crate::encoding::{
    lemma_encode_char, lemma_encode_concat, lemma_encode_covers, lemma_encode_holds,
    lemma_same_number,
};
use vstd::prelude::*;
use vstd::slice::slice_subrange;
use vstd::utf8::{
    decode_utf8, encode_utf8, encode_utf8_decode_utf8, encode_utf8_valid_utf8, valid_utf8,
};

verus! {

/// The byte that ends a line.
pub const NEWLINE: u8 = 0x0A;

/// The byte that may stand before the newline.
pub const CARRIAGE_RETURN: u8 = 0x0D;

/// The space.
pub const SPACE: u8 = 0x20;

/// The horizontal tab.
pub const TAB: u8 = 0x09;

/// True when `end` is where the first line of `bytes` ends: at the first
/// newline, or at the end of `bytes` where there is none.
pub open spec fn is_line_end(bytes: Seq<u8>, end: int) -> bool {
    &&& 0 <= end <= bytes.len()
    &&& forall|i: int| 0 <= i < end ==> bytes[i] != NEWLINE
    &&& end < bytes.len() ==> bytes[end] == NEWLINE
}

/// The position at which the first line of `bytes` ends.
pub open spec fn line_end(bytes: Seq<u8>) -> int
    decreases bytes.len(),
{
    if bytes.len() == 0 || bytes[0] == NEWLINE {
        0
    } else {
        1 + line_end(bytes.drop_first())
    }
}

/// A line without the carriage return at its end, if it has one.
pub open spec fn strip_cr(line: Seq<u8>) -> Seq<u8> {
    if line.len() > 0 && line.last() == CARRIAGE_RETURN {
        line.drop_last()
    } else {
        line
    }
}

/// True when a line holds nothing but spaces and tabs. The empty line is
/// blank.
pub open spec fn is_blank(line: Seq<u8>) -> bool {
    forall|i: int| 0 <= i < line.len() ==> line[i] == SPACE || line[i] == TAB
}

/// The text of the line whose bytes, up to its end, are `raw`: `None` where
/// the line is skipped. `terminated` says whether a newline ends the line;
/// the last line of a file may end without one, and then keeps a carriage
/// return at its end.
pub open spec fn line_text(raw: Seq<u8>, terminated: bool) -> Option<Seq<char>> {
    let line = if terminated {
        strip_cr(raw)
    } else {
        raw
    };
    if !is_blank(line) && valid_utf8(line) {
        Some(decode_utf8(line))
    } else {
        None
    }
}

/// The lines of a file with these bytes, in their order, without those that
/// are skipped.
pub open spec fn lines_of(bytes: Seq<u8>) -> Seq<Seq<char>>
    decreases bytes.len(),
{
    if bytes.len() == 0 {
        seq![]
    } else {
        let end = line_end(bytes);
        let terminated = 0 <= end < bytes.len();
        let rest = if terminated {
            lines_of(bytes.skip(end + 1))
        } else {
            seq![]
        };
        match line_text(bytes.take(end), terminated) {
            Some(text) => seq![text] + rest,
            None => rest,
        }
    }
}

/// `line_end` gives a place where the first line ends.
proof fn lemma_line_end_found(bytes: Seq<u8>)
    ensures
        is_line_end(bytes, line_end(bytes)),
    decreases bytes.len(),
{
    if bytes.len() == 0 || bytes[0] == NEWLINE {
    } else {
        let rest = bytes.drop_first();
        lemma_line_end_found(rest);
        assert forall|i: int| 0 <= i < line_end(bytes) implies bytes[i] != NEWLINE by {
            if i > 0 {
                assert(bytes[i] == rest[i - 1]);
            }
        }
    }
}

/// The first line ends at one place only.
proof fn lemma_line_end_unique(bytes: Seq<u8>, end: int)
    requires
        is_line_end(bytes, end),
    ensures
        line_end(bytes) == end,
    decreases end,
{
    if end > 0 {
        let rest = bytes.drop_first();
        assert forall|i: int| 0 <= i < end - 1 implies rest[i] != NEWLINE by {
        }
        lemma_line_end_unique(rest, end - 1);
    }
}

/// The first line ends at `line_end`, and nowhere else.
pub proof fn lemma_line_end(bytes: Seq<u8>, end: int)
    ensures
        is_line_end(bytes, end) <==> line_end(bytes) == end,
{
    lemma_line_end_found(bytes);
    if is_line_end(bytes, end) {
        lemma_line_end_unique(bytes, end);
    }
}

/// Calls `std::str::from_utf8`, which accepts the byte sequences that are
/// valid UTF-8 and no others, and gives the string that is made of the very
/// bytes it was handed.
#[verifier::external_body]
fn decode<'a>(bytes: &'a [u8]) -> (text: Option<&'a str>)
    ensures
        text is Some <==> valid_utf8(bytes@),
        text matches Some(s) ==> encode_utf8(s@) == bytes@,
{
    match std::str::from_utf8(bytes) {
        Ok(s) => Some(s),
        Err(_) => None,
    }
}

/// Says whether a line holds nothing but spaces and tabs.
pub fn blank(line: &[u8]) -> (b: bool)
    ensures
        b == is_blank(line@),
{
    let mut i: usize = 0;
    while i < line.len()
        invariant
            i <= line.len(),
            forall|j: int| 0 <= j < i ==> line@[j] == SPACE || line@[j] == TAB,
        decreases line.len() - i,
    {
        if line[i] != SPACE && line[i] != TAB {
            return false;
        }
        i += 1;
    }
    true
}

/// Reads the text of one line from its bytes up to its end: `None` where the
/// line is blank or not valid UTF-8. `terminated` says whether a newline
/// ends the line.
pub fn read_line(raw: &[u8], terminated: bool) -> (text: Option<String>)
    ensures
        text is Some <==> line_text(raw@, terminated) is Some,
        text matches Some(s) ==> Some(s@) == line_text(raw@, terminated),
{
    let n: usize = raw.len();
    let stop: usize = if terminated && n > 0 && raw[n - 1] == CARRIAGE_RETURN {
        n - 1
    } else {
        n
    };
    let line = slice_subrange(raw, 0, stop);
    assert(line@ =~= if terminated {
        strip_cr(raw@)
    } else {
        raw@
    });
    if blank(line) {
        None
    } else {
        match decode(line) {
            Some(s) => {
                proof {
                    encode_utf8_decode_utf8(s@);
                }
                Some(s.to_owned())
            },
            None => None,
        }
    }
}

/// Reads the lines of a file from its bytes. The lines come in the order of
/// the file; blank lines and lines that are not valid UTF-8 are left out.
pub fn read_lines(bytes: &[u8]) -> (lines: Vec<String>)
    ensures
        lines.deep_view() == lines_of(bytes@),
{
    let mut lines: Vec<String> = Vec::new();
    let mut start: usize = 0;
    assert(bytes@.skip(0) =~= bytes@);
    while start < bytes.len()
        invariant
            start <= bytes.len(),
            lines_of(bytes@) == lines.deep_view() + lines_of(bytes@.skip(start as int)),
        decreases bytes.len() - start,
    {
        let mut end: usize = start;
        while end < bytes.len() && bytes[end] != NEWLINE
            invariant
                start <= end <= bytes.len(),
                forall|j: int| start <= j < end ==> bytes@[j] != NEWLINE,
            decreases bytes.len() - end,
        {
            end += 1;
        }
        let ghost tail = bytes@.skip(start as int);
        proof {
            lemma_line_end(tail, end - start);
            assert(tail.take(end - start) =~= bytes@.subrange(start as int, end as int));
            if end < bytes.len() {
                assert(tail.skip(end - start + 1) =~= bytes@.skip(end + 1));
            }
        }
        let raw = slice_subrange(bytes, start, end);
        if let Some(text) = read_line(raw, end < bytes.len()) {
            lines.push(text);
        }
        if end < bytes.len() {
            start = end + 1;
        } else {
            start = end;
        }
    }
    lines
}

/// The text of a file that holds these lines: each line, in its order,
/// followed by a newline.
pub open spec fn file_text(lines: Seq<Seq<char>>) -> Seq<char>
    decreases lines.len(),
{
    if lines.len() == 0 {
        seq![]
    } else {
        lines[0] + seq!['\n'] + file_text(lines.drop_first())
    }
}

/// True when a line of text comes back as it is from a file that it was
/// written to: it holds no newline, it does not end in a carriage return, and
/// it holds more than spaces and tabs.
pub open spec fn keeps_its_line(line: Seq<char>) -> bool {
    &&& forall|i: int| 0 <= i < line.len() ==> line[i] != '\n'
    &&& line.len() > 0 ==> line.last() != '\r'
    &&& exists|i: int| 0 <= i < line.len() && line[i] != ' ' && line[i] != '\t'
}

/// Writing one more line adds it and a newline at the end of the text.
pub proof fn lemma_file_text_push(lines: Seq<Seq<char>>, line: Seq<char>)
    ensures
        file_text(lines.push(line)) == file_text(lines) + line + seq!['\n'],
    decreases lines.len(),
{
    if lines.len() == 0 {
        assert(lines.push(line).drop_first() =~= lines);
    } else {
        assert(lines.push(line).drop_first() =~= lines.drop_first().push(line));
        lemma_file_text_push(lines.drop_first(), line);
    }
}

/// Writes the text of a file that holds these lines, a newline after each.
pub fn write_lines(lines: &Vec<String>) -> (text: String)
    ensures
        text@ == file_text(lines.deep_view()),
{
    let mut text = String::new();
    let mut i: usize = 0;
    while i < lines.len()
        invariant
            i <= lines.len(),
            text@ == file_text(lines.deep_view().take(i as int)),
        decreases lines.len() - i,
    {
        proof {
            reveal_strlit("\n");
            let done = lines.deep_view().take(i as int);
            lemma_file_text_push(done, lines[i as int]@);
            assert(done.push(lines[i as int]@) =~= lines.deep_view().take(i + 1));
        }
        text.append(lines[i].as_str());
        text.append("\n");
        i += 1;
    }
    assert(lines.deep_view().take(i as int) =~= lines.deep_view());
    text
}

/// A line that keeps its line is read back from its encoding as it is.
pub proof fn lemma_line_text_of_encoding(line: Seq<char>)
    requires
        keeps_its_line(line),
    ensures
        line_text(encode_utf8(line), true) == Some(line),
        forall|at: int| 0 <= at < encode_utf8(line).len() ==> encode_utf8(line)[at] != NEWLINE,
{
    let bytes = encode_utf8(line);
    assert forall|at: int| 0 <= at < bytes.len() implies bytes[at] != NEWLINE by {
        let i = lemma_encode_covers(line, at);
        if bytes[at] == NEWLINE {
            lemma_same_number(line[i], '\n');
        }
    }
    let seen = choose|i: int| 0 <= i < line.len() && line[i] != ' ' && line[i] != '\t';
    let at = lemma_encode_holds(line, seen);
    assert(bytes[at] != SPACE && bytes[at] != TAB) by {
        if (line[seen] as u32) < 0x80 {
            if bytes[at] == SPACE {
                lemma_same_number(line[seen], ' ');
            }
            if bytes[at] == TAB {
                lemma_same_number(line[seen], '\t');
            }
        }
    }
    assert(bytes.last() != CARRIAGE_RETURN) by {
        let i = lemma_encode_covers(line, bytes.len() - 1);
        if bytes.last() == CARRIAGE_RETURN {
            lemma_same_number(line[i], '\r');
        }
    }
    encode_utf8_valid_utf8(line);
    encode_utf8_decode_utf8(line);
}

/// Lines that keep their line are read back from the bytes of the file that
/// they were written to: the same lines in the same order.
pub proof fn lemma_lines_round_trip(lines: Seq<Seq<char>>)
    requires
        forall|i: int| 0 <= i < lines.len() ==> keeps_its_line(#[trigger] lines[i]),
    ensures
        lines_of(encode_utf8(file_text(lines))) == lines,
    decreases lines.len(),
{
    if lines.len() > 0 {
        let first = lines[0];
        let rest = lines.drop_first();
        let bytes = encode_utf8(file_text(lines));
        let head = encode_utf8(first);
        let tail = encode_utf8(file_text(rest));
        assert(bytes == head + seq![NEWLINE] + tail) by {
            lemma_encode_concat(first + seq!['\n'], file_text(rest));
            lemma_encode_concat(first, seq!['\n']);
            lemma_encode_char('\n');
            assert(seq!['\n'].drop_first() =~= Seq::<char>::empty());
            assert(encode_utf8(Seq::<char>::empty()) =~= Seq::<u8>::empty());
        }
        lemma_line_text_of_encoding(first);
        lemma_line_end(bytes, head.len() as int);
        assert(bytes.take(head.len() as int) =~= head);
        assert(bytes.skip(head.len() as int + 1) =~= tail);
        lemma_lines_round_trip(rest);
    }
}

} // verus!
