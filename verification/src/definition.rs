//! Go-to-definition: find the token under the cursor, normalize it to the
//! label convention, and look it up in a symbol table built fresh from the
//! document; an undefined token falls back to the query position itself.

use vstd::prelude::*;
use crate::document::{SourceDocument, line_views};
use crate::location::{Location, Position, Range, spec_line_prefix_range, spec_empty_range};
use crate::symbols::{SymbolTable, symbols_model, model_lookup, table_matches,
    lemma_lookup_matches_model};
use crate::tokenizer::{find_word_at_pos, spec_word_span};

verus! {

/// A reference token normalized to the label convention of definition
/// sites: a token already ending in the label separator is kept, any other
/// token gets the separator appended.
pub open spec fn normalize_label(tok: Seq<char>) -> Seq<char> {
    if tok.len() > 0 && tok.last() == ':' {
        tok
    } else {
        tok.push(':')
    }
}

/// The token the cursor position selects on its line.
pub open spec fn spec_token_at(lines: Seq<Seq<char>>, pos: Position) -> Seq<char> {
    let line = lines[pos.line as int];
    let (s, e) = spec_word_span(line, pos.character as int);
    line.subrange(s, e)
}

/// The range a definition query answers with: the span of the defining
/// line's first token for a known label, the empty range at the query
/// position for an unknown one.
pub open spec fn spec_definition_range(lines: Seq<Seq<char>>, pos: Position) -> Range {
    let key = normalize_label(spec_token_at(lines, pos));
    match model_lookup(symbols_model(lines), key) {
        Some(m) => spec_line_prefix_range(m.line as u32, m.len as u32),
        None => spec_empty_range(pos),
    }
}

/// Documents a symbol table can be built for: line and token lengths fit
/// the wire format's 32-bit coordinates.
pub open spec fn document_fits(doc: SourceDocument) -> bool {
    &&& doc.lines@.len() <= u32::MAX
    &&& forall|i: int| 0 <= i < doc.lines@.len() ==> (#[trigger] doc.lines@[i])@.len() <= u32::MAX
}

/// Resolve a definition query: tokenize the cursor's line, append the label
/// separator unless the token already carries one, and return the location
/// of the last line defining that label, or the query position itself when
/// no line does. The resolver never fails for an unknown token.
pub fn resolve_definition(doc: &SourceDocument, position: Position) -> (r: Location)
    requires
        position.line < doc.lines@.len(),
        document_fits(*doc),
    ensures
        r.uri@ == doc.uri@,
        r.range == spec_definition_range(line_views(doc.lines@), position),
{
    let ghost lines = line_views(doc.lines@);
    let line = &doc.lines[position.line as usize];
    let (s, e) = find_word_at_pos(line.as_str(), position.character as usize);
    let token = line.as_str().substring_char(s, e);
    proof {
        assert(token@ == spec_token_at(lines, position));
    }

    let n: usize = token.unicode_len();
    let mut key: String = token.to_owned();
    if n == 0 || token.get_char(n - 1) != ':' {
        key.append(":");
        proof {
            reveal_strlit(":");
            assert((":")@ =~= seq![':']);
            assert(key@ =~= normalize_label(token@));
        }
    }
    proof {
        assert(key@ == normalize_label(token@));
    }

    let table = SymbolTable::build(doc);
    proof {
        lemma_lookup_matches_model(table.symbols@, symbols_model(lines), doc.uri@, key@);
    }
    match table.lookup(key.as_str()) {
        Some(loc) => Location { uri: loc.uri.clone(), range: loc.range },
        None => Location {
            uri: doc.uri.clone(),
            range: Range { start: position, end: position },
        },
    }
}

} // verus!
