//! Hover documentation: find the token under the cursor, fold it to
//! uppercase, query the instruction catalog, and format the matching
//! records — or a fixed message when the token is no known mnemonic.

use vstd::prelude::*;
use crate::catalog::{InstructionCatalog, InstructionRecord, lookup_mnemonic};
use crate::document::{SourceDocument, line_views};
use crate::location::Position;
use crate::text::upper_of;
use crate::definition::spec_token_at;

verus! {

/// `parts` joined with `sep` between consecutive parts.
pub open spec fn join_sep(parts: Seq<Seq<char>>, sep: Seq<char>) -> Seq<char>
    decreases parts.len(),
{
    if parts.len() == 0 {
        Seq::empty()
    } else if parts.len() == 1 {
        parts[0]
    } else {
        join_sep(parts.drop_last(), sep) + sep + parts.last()
    }
}

/// The displayable text of one instruction record: its operation lines,
/// summary lines and symbol-usage lines, each block joined by single line
/// breaks, the blocks separated — and the whole terminated — by blank lines.
pub open spec fn record_text(r: InstructionRecord) -> Seq<char> {
    join_sep(line_views(r.operation@), "\n"@) + "\n\n"@ + join_sep(line_views(r.summary@), "\n"@)
        + "\n\n"@ + join_sep(line_views(r.symbols@), "\n"@) + "\n\n"@
}

/// The fixed text shown when a token has no catalog documentation.
pub open spec fn not_found_text() -> Seq<char> {
    "Not an instruction\nor\nNo information available"@
}

/// The hover text for a query token: the texts of all records filed under
/// the token's uppercase folding, joined by blank lines; or the fixed
/// not-found message when the catalog holds none.
pub open spec fn spec_hover_text(cat: InstructionCatalog, token: Seq<char>) -> Seq<char> {
    match cat.spec_lookup(upper_of(token)) {
        Some(records) => join_sep(
            records.map_values(|r: InstructionRecord| record_text(r)),
            "\n\n"@,
        ),
        None => not_found_text(),
    }
}

/// The hover text for a cursor position: the text for the token its line
/// carries at that column.
pub open spec fn spec_hover_at(
    cat: InstructionCatalog,
    lines: Seq<Seq<char>>,
    pos: Position,
) -> Seq<char> {
    spec_hover_text(cat, spec_token_at(lines, pos))
}

/// Join the given lines with `sep` between consecutive lines.
pub fn join_lines(parts: &Vec<String>, sep: &str) -> (r: String)
    ensures
        r@ == join_sep(line_views(parts@), sep@),
{
    let ghost views = line_views(parts@);
    if parts.len() == 0 {
        let r = String::new();
        proof {
            assert(r@ =~= join_sep(views, sep@));
        }
        return r;
    }
    let mut r: String = parts[0].clone();
    let mut k: usize = 1;
    proof {
        assert(views.take(1) =~= seq![parts@[0]@]);
        assert(r@ == join_sep(views.take(1), sep@));
    }
    while k < parts.len()
        invariant
            1 <= k <= parts@.len(),
            views == line_views(parts@),
            r@ == join_sep(views.take(k as int), sep@),
        decreases parts@.len() - k,
    {
        r.append(sep);
        r.append(parts[k].as_str());
        proof {
            assert(views.take(k + 1).drop_last() =~= views.take(k as int));
            assert(views.take(k + 1).last() == parts@[k as int]@);
            assert(views.take(k + 1).len() >= 2);
        }
        k = k + 1;
    }
    proof {
        assert(views.take(parts@.len() as int) =~= views);
    }
    r
}

/// Format one record for display.
pub fn format_record(rec: &InstructionRecord) -> (r: String)
    ensures
        r@ == record_text(*rec),
{
    let mut r = join_lines(&rec.operation, "\n");
    r.append("\n\n");
    let summary = join_lines(&rec.summary, "\n");
    r.append(summary.as_str());
    r.append("\n\n");
    let symbols = join_lines(&rec.symbols, "\n");
    r.append(symbols.as_str());
    r.append("\n\n");
    r
}

/// The hover documentation for a raw query token: case-insensitive catalog
/// lookup, then the records' texts joined by blank lines, or the fixed
/// not-found message. Absence of documentation is data, never an error.
pub fn hover_documentation(cat: &InstructionCatalog, token: &str) -> (r: String)
    ensures
        r@ == spec_hover_text(*cat, token@),
{
    match lookup_mnemonic(cat, token) {
        Some(records) => {
            let ghost parts = records@.map_values(|r: InstructionRecord| record_text(r));
            let mut r: String = String::new();
            if records.len() == 0 {
                proof {
                    assert(r@ =~= join_sep(parts, "\n\n"@));
                }
                return r;
            }
            r = format_record(&records[0]);
            let mut k: usize = 1;
            proof {
                assert(parts.take(1) =~= seq![record_text(records@[0])]);
            }
            while k < records.len()
                invariant
                    1 <= k <= records@.len(),
                    parts == records@.map_values(|r: InstructionRecord| record_text(r)),
                    r@ == join_sep(parts.take(k as int), "\n\n"@),
                decreases records@.len() - k,
            {
                r.append("\n\n");
                let text = format_record(&records[k]);
                r.append(text.as_str());
                proof {
                    assert(parts.take(k + 1).drop_last() =~= parts.take(k as int));
                    assert(parts.take(k + 1).last() == record_text(records@[k as int]));
                    assert(parts.take(k + 1).len() >= 2);
                }
                k = k + 1;
            }
            proof {
                assert(parts.take(records@.len() as int) =~= parts);
            }
            r
        },
        None => String::from_str("Not an instruction\nor\nNo information available"),
    }
}

/// The hover text for a cursor position in a document: tokenize the
/// position's line, then ask [`hover_documentation`].
pub fn resolve_hover(cat: &InstructionCatalog, doc: &SourceDocument, position: Position) -> (r:
    String)
    requires
        position.line < doc.lines@.len(),
    ensures
        r@ == spec_hover_at(*cat, line_views(doc.lines@), position),
{
    let line = &doc.lines[position.line as usize];
    let (s, e) = crate::tokenizer::find_word_at_pos(line.as_str(), position.character as usize);
    let token = line.as_str().substring_char(s, e);
    proof {
        assert(token@ == spec_token_at(line_views(doc.lines@), position));
    }
    hover_documentation(cat, token)
}

} // verus!
