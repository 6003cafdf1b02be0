//! Splitting text into lines, byte by byte.
use vstd::prelude::*;

verus! {

pub const NEWLINE: u8 = 10;

pub const CARRIAGE_RETURN: u8 = 13;

/// The position of the first newline at or after `k`, or the length if there is none.
pub open spec fn next_newline(b: Seq<u8>, k: int) -> int
    decreases b.len() - k,
{
    if k >= b.len() || b[k] == NEWLINE {
        k
    } else {
        next_newline(b, k + 1)
    }
}

/// The line that starts at `start` and ends at `end`: a carriage return right before a
/// newline belongs to the line ending, not to the line.
pub open spec fn line_between(b: Seq<u8>, start: int, end: int) -> Seq<u8> {
    let raw = b.subrange(start, end);
    if end < b.len() && raw.len() > 0 && raw.last() == CARRIAGE_RETURN {
        raw.drop_last()
    } else {
        raw
    }
}

/// The lines of `b` from position `start` on. Lines end at a newline (optionally preceded
/// by a carriage return); a final line ending adds no empty line.
pub open spec fn lines_from(b: Seq<u8>, start: int) -> Seq<Seq<u8>>
    decreases b.len() + 1 - start,
{
    if start < 0 || start >= b.len() || next_newline(b, start) < start || next_newline(b, start)
        > b.len() {
        Seq::empty()
    } else {
        seq![line_between(b, start, next_newline(b, start))] + lines_from(
            b,
            next_newline(b, start) + 1,
        )
    }
}

pub open spec fn lines_of(b: Seq<u8>) -> Seq<Seq<u8>> {
    lines_from(b, 0)
}

/// The contents of a sequence of byte vectors.
pub open spec fn views(v: Seq<Vec<u8>>) -> Seq<Seq<u8>> {
    v.map_values(|x: Vec<u8>| x@)
}

proof fn lemma_next_newline(b: Seq<u8>, k: int)
    requires
        0 <= k <= b.len(),
    ensures
        k <= next_newline(b, k) <= b.len(),
        next_newline(b, k) < b.len() ==> b[next_newline(b, k)] == NEWLINE,
    decreases b.len() - k,
{
    if k < b.len() && b[k] != NEWLINE {
        lemma_next_newline(b, k + 1);
    }
}

/// The bytes of `b` from `start` up to `end`.
pub fn copy_range(b: &[u8], start: usize, end: usize) -> (r: Vec<u8>)
    requires
        start <= end <= b@.len(),
    ensures
        r@ == b@.subrange(start as int, end as int),
{
    let mut out: Vec<u8> = Vec::new();
    let mut k: usize = start;
    while k < end
        invariant
            start <= k <= end,
            end <= b@.len(),
            out@ == b@.subrange(start as int, k as int),
        decreases end - k,
    {
        out.push(b[k]);
        k = k + 1;
        assert(out@ =~= b@.subrange(start as int, k as int));
    }
    out
}

/// A copy of the bytes of `b`.
pub fn copy_bytes(b: &[u8]) -> (r: Vec<u8>)
    ensures
        r@ == b@,
{
    let r = copy_range(b, 0, b.len());
    assert(r@ =~= b@);
    r
}

/// Splits `b` into its lines.
pub fn split_lines(b: &[u8]) -> (r: Vec<Vec<u8>>)
    ensures
        views(r@) == lines_of(b@),
{
    let mut out: Vec<Vec<u8>> = Vec::new();
    let mut pos: usize = 0;
    while pos < b.len()
        invariant
            pos <= b@.len(),
            views(out@) + lines_from(b@, pos as int) == lines_of(b@),
        decreases b@.len() - pos,
    {
        let mut end: usize = pos;
        while end < b.len() && b[end] != NEWLINE
            invariant
                pos <= end <= b@.len(),
                next_newline(b@, pos as int) == next_newline(b@, end as int),
            decreases b@.len() - end,
        {
            end = end + 1;
        }
        let mut line = copy_range(b, pos, end);
        if end < b.len() && line.len() > 0 && line[line.len() - 1] == CARRIAGE_RETURN {
            line.pop();
        }
        proof {
            lemma_next_newline(b@, pos as int);
            assert(line@ == line_between(b@, pos as int, end as int));
            assert(views(out@.push(line)) =~= views(out@).push(line@));
            assert(views(out@) + lines_from(b@, pos as int) =~= views(out@).push(line@)
                + lines_from(b@, end as int + 1));
        }
        out.push(line);
        pos = if end < b.len() {
            end + 1
        } else {
            end
        };
    }
    assert(views(out@) + lines_from(b@, pos as int) =~= views(out@));
    out
}

} // verus!
