//! Word-at-cursor detection: the half-open character span of the identifier
//! containing, or immediately adjacent to, a cursor column.

use vstd::prelude::*;
use crate::text::is_ident_char;

verus! {

/// Start of the identifier span at column `c`: one past the nearest
/// non-identifier character strictly before `c`, or `0` if none exists.
pub open spec fn span_start(line: Seq<char>, c: int) -> int
    decreases c,
{
    if c <= 0 {
        0
    } else if !is_ident_char(line[c - 1]) {
        c
    } else {
        span_start(line, c - 1)
    }
}

/// End of the identifier span at column `c`: the index of the nearest
/// non-identifier character at or after `c`, or the line length if every
/// character from `c` on is an identifier character.
pub open spec fn span_end(line: Seq<char>, c: int) -> int
    decreases line.len() - c,
{
    if c >= line.len() {
        line.len() as int
    } else if !is_ident_char(line[c]) {
        c
    } else {
        span_end(line, c + 1)
    }
}

/// A column beyond the line is treated as if it indexed the one-past-the-end
/// sentinel: the effective cursor column.
pub open spec fn clamped_col(line: Seq<char>, col: int) -> int {
    if col <= line.len() {
        col
    } else {
        line.len() as int
    }
}

/// The identifier span the tokenizer yields for a cursor column.
pub open spec fn spec_word_span(line: Seq<char>, col: int) -> (int, int) {
    (span_start(line, clamped_col(line, col)), span_end(line, clamped_col(line, col)))
}

/// The start of the span lies between 0 and the cursor column, every
/// character between it and the column is an identifier character, and the
/// character just before it (if any) is not.
pub proof fn lemma_span_start(line: Seq<char>, c: int)
    requires
        0 <= c <= line.len(),
    ensures
        0 <= span_start(line, c) <= c,
        forall|i: int| span_start(line, c) <= i < c ==> is_ident_char(line[i]),
        span_start(line, c) > 0 ==> !is_ident_char(line[span_start(line, c) - 1]),
    decreases c,
{
    if c <= 0 {
    } else if !is_ident_char(line[c - 1]) {
    } else {
        lemma_span_start(line, c - 1);
    }
}

/// The end of the span lies between the cursor column and the line length,
/// every character between the column and it is an identifier character, and
/// the character at it (if any) is not.
pub proof fn lemma_span_end(line: Seq<char>, c: int)
    requires
        0 <= c <= line.len(),
    ensures
        c <= span_end(line, c) <= line.len(),
        forall|i: int| c <= i < span_end(line, c) ==> is_ident_char(line[i]),
        span_end(line, c) < line.len() ==> !is_ident_char(line[span_end(line, c)]),
    decreases line.len() - c,
{
    if c >= line.len() {
    } else if !is_ident_char(line[c]) {
    } else {
        lemma_span_end(line, c + 1);
    }
}

/// For a column within bounds the span is a maximal contiguous run of
/// identifier characters containing or immediately following the column:
/// everything inside the span is an identifier character and both
/// neighbouring characters, where they exist, are not.
pub proof fn lemma_word_span_maximal(line: Seq<char>, col: int)
    requires
        0 <= col <= line.len(),
    ensures
        ({
            let (s, e) = spec_word_span(line, col);
            &&& 0 <= s <= col <= e <= line.len()
            &&& forall|i: int| s <= i < e ==> is_ident_char(line[i])
            &&& s > 0 ==> !is_ident_char(line[s - 1])
            &&& e < line.len() ==> !is_ident_char(line[e])
        }),
{
    lemma_span_start(line, col);
    lemma_span_end(line, col);
}

/// Any column, even one at or past the line's length, yields a valid
/// possibly-empty span within the line.
pub proof fn lemma_word_span_valid(line: Seq<char>, col: int)
    requires
        col >= 0,
    ensures
        ({
            let (s, e) = spec_word_span(line, col);
            0 <= s <= e <= line.len()
        }),
{
    lemma_word_span_maximal(line, clamped_col(line, col));
}

/// Character span of the identifier at or next to column `col` of `line`.
///
/// The function never fails: a column beyond the line's length is treated
/// as if it indexed a non-identifier sentinel appended to the line, so the
/// result is a valid (possibly empty) span instead of an error.
pub fn find_word_at_pos(line: &str, col: usize) -> (r: (usize, usize))
    ensures
        (r.0 as int, r.1 as int) == spec_word_span(line@, col as int),
        r.0 <= r.1 <= line@.len(),
{
    let n: usize = line.unicode_len();
    let c: usize = if col <= n {
        col
    } else {
        n
    };

    let mut start: usize = c;
    loop
        invariant
            0 <= start <= c <= n,
            n == line@.len(),
            span_start(line@, c as int) == span_start(line@, start as int),
        ensures
            start == span_start(line@, c as int),
        decreases start,
    {
        if start == 0 {
            break;
        }
        let ch = line.get_char(start - 1);
        if !crate::text::ident_char(ch) {
            break;
        }
        start = start - 1;
    }

    let mut end: usize = c;
    loop
        invariant
            c <= end <= n,
            n == line@.len(),
            span_end(line@, c as int) == span_end(line@, end as int),
        ensures
            end == span_end(line@, c as int),
        decreases n - end,
    {
        if end == n {
            break;
        }
        let ch = line.get_char(end);
        if !crate::text::ident_char(ch) {
            break;
        }
        end = end + 1;
    }

    proof {
        lemma_span_start(line@, c as int);
        lemma_span_end(line@, c as int);
    }
    (start, end)
}

} // verus!
