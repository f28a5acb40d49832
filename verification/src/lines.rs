//! Line lookup inside raw file contents: which line a byte position falls
//! on, and where that line starts and ends.

use vstd::prelude::*;

verus! {

/// The newline byte.
pub open spec fn is_newline(b: u8) -> bool {
    b == 10
}

/// How many newline bytes lie before `end`.
pub open spec fn count_newlines(s: Seq<u8>, end: int) -> int
    decreases end,
{
    if end <= 0 || end > s.len() {
        0
    } else {
        count_newlines(s, end - 1) + if is_newline(s[end - 1]) {
            1int
        } else {
            0int
        }
    }
}

/// The start of the line containing `pos`: one past the last newline
/// before `pos`, or the start of the text.
pub open spec fn line_start_at(s: Seq<u8>, pos: int) -> int
    decreases pos,
{
    if pos <= 0 || pos > s.len() {
        0
    } else if is_newline(s[pos - 1]) {
        pos
    } else {
        line_start_at(s, pos - 1)
    }
}

/// The end of the line containing `pos`: the first newline at or after
/// `pos`, or the end of the text.
pub open spec fn line_end_at(s: Seq<u8>, pos: int) -> int
    decreases s.len() - pos,
{
    if pos < 0 || pos >= s.len() {
        s.len() as int
    } else if is_newline(s[pos]) {
        pos
    } else {
        line_end_at(s, pos + 1)
    }
}

proof fn lemma_count_newlines_bound(s: Seq<u8>, end: int)
    requires
        0 <= end <= s.len(),
    ensures
        0 <= count_newlines(s, end) <= end,
    decreases end,
{
    if end > 0 {
        lemma_count_newlines_bound(s, end - 1);
    }
}

/// The 1-indexed line number and the byte range of the line containing
/// the given byte position.
pub fn get_line_range(contents: &[u8], byte_pos: usize) -> (r: (usize, usize, usize))
    requires
        byte_pos <= contents@.len(),
        contents@.len() < usize::MAX,
    ensures
        r.0 == count_newlines(contents@, byte_pos as int) + 1,
        r.1 == line_start_at(contents@, byte_pos as int),
        r.2 == line_end_at(contents@, byte_pos as int),
{
    let mut count: usize = 0;
    let mut i: usize = 0;
    while i < byte_pos
        invariant
            i <= byte_pos <= contents@.len() < usize::MAX,
            count == count_newlines(contents@, i as int),
            count <= i,
        decreases byte_pos - i,
    {
        if contents[i] == 10 {
            count = count + 1;
        }
        i = i + 1;
    }
    let line_num = count + 1;
    let mut start: usize = byte_pos;
    while start > 0 && contents[start - 1] != 10
        invariant
            start <= byte_pos <= contents@.len(),
            line_start_at(contents@, byte_pos as int) == line_start_at(contents@, start as int),
        decreases start,
    {
        start = start - 1;
    }
    let mut line_end: usize = byte_pos;
    while line_end < contents.len() && contents[line_end] != 10
        invariant
            byte_pos <= line_end <= contents@.len(),
            line_end_at(contents@, byte_pos as int) == line_end_at(contents@, line_end as int),
        decreases contents@.len() - line_end,
    {
        line_end = line_end + 1;
    }
    proof {
        lemma_count_newlines_bound(contents@, byte_pos as int);
    }
    (line_num, start, line_end)
}

} // verus!
