//! The per-request symbol table: the first whitespace-delimited token of
//! each line, mapped to a defining location on that line. A repeated name
//! keeps its last definition.

use vstd::prelude::*;
use crate::document::{SourceDocument, line_views};
use crate::location::{Location, Position, Range, spec_line_prefix_range};
use crate::text::is_space_char;

verus! {

/// A named definition site within a document.
pub struct Symbol {
    pub name: String,
    pub location: Location,
}

/// All symbols of one document snapshot, in line order.
pub struct SymbolTable {
    pub symbols: Vec<Symbol>,
}

/// Ghost description of one symbol: its name, the index of the line
/// defining it, and the character length of its name.
pub struct SymbolInfo {
    pub name: Seq<char>,
    pub line: int,
    pub len: int,
}

/// Index of the first non-whitespace character at or after `i`, or the
/// line length.
pub open spec fn skip_space(line: Seq<char>, i: int) -> int
    decreases line.len() - i,
{
    if i < 0 || i >= line.len() {
        line.len() as int
    } else if !is_space_char(line[i]) {
        i
    } else {
        skip_space(line, i + 1)
    }
}

/// Index of the first whitespace character at or after `i`, or the line
/// length.
pub open spec fn token_end(line: Seq<char>, i: int) -> int
    decreases line.len() - i,
{
    if i < 0 || i >= line.len() {
        line.len() as int
    } else if is_space_char(line[i]) {
        i
    } else {
        token_end(line, i + 1)
    }
}

/// The first whitespace-delimited token of a line, if the line has one.
pub open spec fn first_token(line: Seq<char>) -> Option<Seq<char>> {
    let s = skip_space(line, 0);
    if s == line.len() {
        None
    } else {
        Some(line.subrange(s, token_end(line, s)))
    }
}

/// The symbols contributed by a sequence of lines, in line order: each
/// line with a first token contributes that token, located on that line.
pub open spec fn symbols_model(lines: Seq<Seq<char>>) -> Seq<SymbolInfo>
    decreases lines.len(),
{
    if lines.len() == 0 {
        Seq::empty()
    } else {
        let m = symbols_model(lines.drop_last());
        match first_token(lines.last()) {
            None => m,
            Some(tok) => m.push(
                SymbolInfo { name: tok, line: lines.len() - 1, len: tok.len() as int },
            ),
        }
    }
}

/// Last definition of `name` among the modelled symbols, if any.
pub open spec fn model_lookup(syms: Seq<SymbolInfo>, name: Seq<char>) -> Option<SymbolInfo>
    decreases syms.len(),
{
    if syms.len() == 0 {
        None
    } else if syms.last().name == name {
        Some(syms.last())
    } else {
        model_lookup(syms.drop_last(), name)
    }
}

/// Index of the last stored symbol carrying `name`, if any.
pub open spec fn last_match(syms: Seq<Symbol>, name: Seq<char>) -> Option<int>
    decreases syms.len(),
{
    if syms.len() == 0 {
        None
    } else if syms.last().name@ == name {
        Some(syms.len() - 1)
    } else {
        last_match(syms.drop_last(), name)
    }
}

/// A stored symbol realizes a modelled one under a given URI.
pub open spec fn symbol_matches(s: Symbol, m: SymbolInfo, uri: Seq<char>) -> bool {
    &&& s.name@ == m.name
    &&& s.location.uri@ == uri
    &&& 0 <= m.line <= u32::MAX
    &&& 0 <= m.len <= u32::MAX
    &&& s.location.range == spec_line_prefix_range(m.line as u32, m.len as u32)
}

/// The stored table realizes the model of the given lines, symbol by symbol.
pub open spec fn table_matches(syms: Seq<Symbol>, uri: Seq<char>, lines: Seq<Seq<char>>) -> bool {
    let model = symbols_model(lines);
    &&& syms.len() == model.len()
    &&& forall|j: int| 0 <= j < model.len() ==> symbol_matches(syms[j], #[trigger] model[j], uri)
}

/// The first non-whitespace index lies between `i` and the line length,
/// only whitespace lies before it, and it carries none.
proof fn lemma_skip_space(line: Seq<char>, i: int)
    requires
        0 <= i <= line.len(),
    ensures
        i <= skip_space(line, i) <= line.len(),
        skip_space(line, i) < line.len() ==> !is_space_char(line[skip_space(line, i)]),
        forall|j: int| i <= j < skip_space(line, i) ==> is_space_char(line[j]),
    decreases line.len() - i,
{
    if i < line.len() && is_space_char(line[i]) {
        lemma_skip_space(line, i + 1);
    }
}

/// The first whitespace index after a token start lies between it and the
/// line length, and only non-whitespace lies before it.
proof fn lemma_token_end(line: Seq<char>, i: int)
    requires
        0 <= i <= line.len(),
    ensures
        i <= token_end(line, i) <= line.len(),
        token_end(line, i) < line.len() ==> is_space_char(line[token_end(line, i)]),
        forall|j: int| i <= j < token_end(line, i) ==> !is_space_char(line[j]),
    decreases line.len() - i,
{
    if i < line.len() && !is_space_char(line[i]) {
        lemma_token_end(line, i + 1);
    }
}

/// The first token's span on a line: start and end of the line's first
/// maximal non-whitespace run, if the line has one.
pub fn first_token_span(line: &str) -> (r: Option<(usize, usize)>)
    ensures
        match r {
            None => skip_space(line@, 0) == line@.len(),
            Some((s, e)) => {
                &&& s as int == skip_space(line@, 0)
                &&& s < line@.len()
                &&& e as int == token_end(line@, s as int)
                &&& s <= e <= line@.len()
            },
        },
{
    let n: usize = line.unicode_len();
    let mut s: usize = 0;
    loop
        invariant
            0 <= s <= n,
            n == line@.len(),
            skip_space(line@, 0) == skip_space(line@, s as int),
        ensures
            s as int == skip_space(line@, 0),
            s <= n,
        decreases n - s,
    {
        if s == n {
            break;
        }
        if !crate::text::space_char(line.get_char(s)) {
            break;
        }
        s = s + 1;
    }
    if s == n {
        return None;
    }
    let mut e: usize = s;
    loop
        invariant
            s <= e <= n,
            n == line@.len(),
            token_end(line@, s as int) == token_end(line@, e as int),
        ensures
            e as int == token_end(line@, s as int),
            s <= e <= n,
        decreases n - e,
    {
        if e == n {
            break;
        }
        if crate::text::space_char(line.get_char(e)) {
            break;
        }
        e = e + 1;
    }
    Some((s, e))
}

impl SymbolTable {
    /// Scan every line of the document and register its first token, if
    /// any, located at characters `[0, token length)` of that line.
    pub fn build(doc: &SourceDocument) -> (t: SymbolTable)
        requires
            doc.lines@.len() <= u32::MAX,
            forall|i: int| 0 <= i < doc.lines@.len() ==> (#[trigger] doc.lines@[i])@.len()
                <= u32::MAX,
        ensures
            table_matches(t.symbols@, doc.uri@, line_views(doc.lines@)),
    {
        let ghost lines = line_views(doc.lines@);
        let mut symbols: Vec<Symbol> = Vec::new();
        let mut i: usize = 0;
        proof {
            assert(lines.take(0) =~= Seq::<Seq<char>>::empty());
        }
        while i < doc.lines.len()
            invariant
                0 <= i <= doc.lines@.len(),
                doc.lines@.len() <= u32::MAX,
                forall|k: int| 0 <= k < doc.lines@.len() ==> (#[trigger] doc.lines@[k])@.len()
                    <= u32::MAX,
                lines == line_views(doc.lines@),
                table_matches(symbols@, doc.uri@, lines.take(i as int)),
            decreases doc.lines@.len() - i,
        {
            let ghost pre = symbols@;
            let line = &doc.lines[i];
            proof {
                assert(lines.take(i + 1).drop_last() =~= lines.take(i as int));
                assert(lines.take(i + 1).last() == line@);
            }
            match first_token_span(line.as_str()) {
                Some((s, e)) => {
                    proof {
                        lemma_skip_space(line@, 0);
                        lemma_token_end(line@, s as int);
                    }
                    let name = line.as_str().substring_char(s, e);
                    let sym = Symbol {
                        name: name.to_owned(),
                        location: Location {
                            uri: doc.uri.clone(),
                            range: Range {
                                start: Position { line: i as u32, character: 0 },
                                end: Position { line: i as u32, character: (e - s) as u32 },
                            },
                        },
                    };
                    symbols.push(sym);
                    proof {
                        let model = symbols_model(lines.take(i + 1));
                        assert(first_token(lines.take(i + 1).last()) == Some(
                            line@.subrange(s as int, e as int),
                        ));
                        assert(model == symbols_model(lines.take(i as int)).push(
                            SymbolInfo {
                                name: line@.subrange(s as int, e as int),
                                line: i as int,
                                len: e - s,
                            },
                        ));
                        assert(symbol_matches(
                            symbols@[pre.len() as int],
                            model.last(),
                            doc.uri@,
                        ));
                    }
                },
                None => {
                    proof {
                        assert(first_token(lines.take(i + 1).last()) is None);
                        assert(symbols_model(lines.take(i + 1)) == symbols_model(
                            lines.take(i as int),
                        ));
                    }
                },
            }
            i = i + 1;
        }
        proof {
            assert(lines.take(doc.lines@.len() as int) =~= lines);
        }
        SymbolTable { symbols }
    }

    /// The location of the last definition of `name`, if one is recorded.
    pub fn lookup(&self, name: &str) -> (r: Option<&Location>)
        ensures
            match last_match(self.symbols@, name@) {
                None => r is None,
                Some(j) => r matches Some(loc) && *loc == self.symbols@[j].location,
            },
    {
        let mut i: usize = self.symbols.len();
        proof {
            assert(self.symbols@.take(i as int) =~= self.symbols@);
        }
        loop
            invariant
                0 <= i <= self.symbols@.len(),
                last_match(self.symbols@, name@) == last_match(
                    self.symbols@.take(i as int),
                    name@,
                ),
            ensures
                ({
                    let cur = last_match(self.symbols@, name@);
                    (i == 0 && cur is None) || (i >= 1 && cur == Some(i - 1)
                        && self.symbols@[i - 1].name@ == name@)
                }),
            decreases i,
        {
            if i == 0 {
                break;
            }
            proof {
                assert(self.symbols@.take(i as int).last() == self.symbols@[i - 1]);
                assert(self.symbols@.take(i as int).drop_last() =~= self.symbols@.take(i - 1));
            }
            if crate::text::eq_str(self.symbols[i - 1].name.as_str(), name) {
                proof {
                    assert(last_match(self.symbols@.take(i as int), name@) == Some(i - 1));
                }
                break;
            }
            i = i - 1;
        }
        if i == 0 {
            None
        } else {
            Some(&self.symbols[i - 1].location)
        }
    }
}

/// In a table realizing a model, the last stored match realizes the last
/// modelled match.
pub proof fn lemma_lookup_matches_model(
    syms: Seq<Symbol>,
    model: Seq<SymbolInfo>,
    uri: Seq<char>,
    name: Seq<char>,
)
    requires
        syms.len() == model.len(),
        forall|j: int| 0 <= j < model.len() ==> symbol_matches(syms[j], #[trigger] model[j], uri),
    ensures
        match model_lookup(model, name) {
            None => last_match(syms, name) is None,
            Some(m) => last_match(syms, name) matches Some(j) && 0 <= j < syms.len()
                && symbol_matches(syms[j], m, uri) && syms[j].name@ == name,
        },
    decreases syms.len(),
{
    if syms.len() > 0 {
        assert(symbol_matches(syms.last(), model.last(), uri));
        if model.last().name == name {
        } else {
            assert(syms.last().name@ != name);
            lemma_lookup_matches_model(syms.drop_last(), model.drop_last(), uri, name);
        }
    }
}

} // verus!
