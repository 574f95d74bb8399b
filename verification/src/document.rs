//! A source document: its URI and its text as an ordered sequence of lines.

use vstd::prelude::*;

verus! {

/// The text of each line, as a sequence of character sequences.
pub open spec fn line_views(lines: Seq<String>) -> Seq<Seq<char>> {
    lines.map_values(|l: String| l@)
}

/// Index of the first line feed at or after `i`, or the text length.
pub open spec fn find_nl(s: Seq<char>, i: int) -> int
    decreases s.len() - i,
{
    if i >= s.len() {
        s.len() as int
    } else if s[i] == '\n' {
        i
    } else {
        find_nl(s, i + 1)
    }
}

/// A line with a carriage return left by a CR LF line ending, stripped.
pub open spec fn strip_cr(t: Seq<char>) -> Seq<char> {
    if t.len() > 0 && t.last() == '\r' {
        t.drop_last()
    } else {
        t
    }
}

/// The lines of the text from position `pos` on: split at line feeds, a
/// carriage return directly before a line feed stripped, the final line
/// ending optional.
pub open spec fn lines_from(s: Seq<char>, pos: int) -> Seq<Seq<char>>
    decreases s.len() - pos,
    via lines_from_decreases
{
    if pos < 0 || pos >= s.len() {
        Seq::empty()
    } else {
        let j = find_nl(s, pos);
        if j == s.len() {
            seq![s.subrange(pos, j)]
        } else {
            seq![strip_cr(s.subrange(pos, j))] + lines_from(s, j + 1)
        }
    }
}

#[via_fn]
proof fn lines_from_decreases(s: Seq<char>, pos: int) {
    if 0 <= pos < s.len() {
        lemma_find_nl(s, pos);
    }
}

/// The lines of a whole text.
pub open spec fn spec_lines(s: Seq<char>) -> Seq<Seq<char>> {
    lines_from(s, 0)
}

/// The first line feed at or after `i` lies between `i` and the text length,
/// and no line feed lies before it.
proof fn lemma_find_nl(s: Seq<char>, i: int)
    requires
        0 <= i <= s.len(),
    ensures
        i <= find_nl(s, i) <= s.len(),
        find_nl(s, i) < s.len() ==> s[find_nl(s, i)] == '\n',
    decreases s.len() - i,
{
    if i < s.len() && s[i] != '\n' {
        lemma_find_nl(s, i + 1);
    }
}

/// Split a text into its lines: lines end at a line feed or at a carriage
/// return followed by a line feed; the final line ending is optional.
pub fn split_lines(text: &str) -> (r: Vec<String>)
    ensures
        line_views(r@) == spec_lines(text@),
{
    let n: usize = text.unicode_len();
    let mut out: Vec<String> = Vec::new();
    let mut pos: usize = 0;

    proof {
        assert(line_views(out@) =~= Seq::<Seq<char>>::empty());
        assert(line_views(out@) + lines_from(text@, 0) =~= spec_lines(text@));
    }
    while pos < n
        invariant
            0 <= pos <= n,
            n == text@.len(),
            line_views(out@) + lines_from(text@, pos as int) == spec_lines(text@),
        decreases n - pos,
    {
        let ghost pre_out = out@;
        // find the next line feed
        let mut j: usize = pos;
        loop
            invariant
                pos <= j <= n,
                n == text@.len(),
                find_nl(text@, pos as int) == find_nl(text@, j as int),
            ensures
                pos <= j <= n,
                j == find_nl(text@, pos as int),
            decreases n - j,
        {
            if j == n {
                break;
            }
            if text.get_char(j) == '\n' {
                break;
            }
            j = j + 1;
        }

        if j == n {
            let line = text.substring_char(pos, n);
            out.push(line.to_owned());
            proof {
                assert(lines_from(text@, pos as int) =~= seq![text@.subrange(pos as int, n as int)]);
                assert(line_views(out@) =~= line_views(pre_out).push(text@.subrange(pos as int, n as int)));
                assert(line_views(out@) =~= line_views(pre_out) + lines_from(text@, pos as int));
                assert(line_views(out@) + lines_from(text@, n as int) =~= line_views(out@));
            }
            pos = n;
        } else {
            let end: usize = if j > pos && text.get_char(j - 1) == '\r' {
                j - 1
            } else {
                j
            };
            let line = text.substring_char(pos, end);
            out.push(line.to_owned());
            proof {
                assert(strip_cr(text@.subrange(pos as int, j as int)) =~= text@.subrange(
                    pos as int,
                    end as int,
                ));
                assert(line_views(out@) =~= line_views(pre_out).push(
                    strip_cr(text@.subrange(pos as int, j as int)),
                ));
                assert(line_views(out@) + lines_from(text@, j + 1) =~= line_views(pre_out)
                    + lines_from(text@, pos as int));
            }
            pos = j + 1;
        }
    }
    proof {
        assert(line_views(out@) + lines_from(text@, pos as int) =~= line_views(out@));
    }
    out
}

/// A document snapshot: a URI and the ordered lines of its text.
pub struct SourceDocument {
    pub uri: String,
    pub lines: Vec<String>,
}

impl SourceDocument {
    /// Wrap a URI and a full text, splitting the text into its lines.
    pub fn new(uri: String, text: &str) -> (d: SourceDocument)
        ensures
            d.uri@ == uri@,
            line_views(d.lines@) == spec_lines(text@),
    {
        let lines = split_lines(text);
        SourceDocument { uri, lines }
    }
}

} // verus!
