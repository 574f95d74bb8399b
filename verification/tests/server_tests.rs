use asm_lsp::catalog::{get_instructions, lookup_mnemonic, InstructionCatalog, InstructionRecord};
use asm_lsp::definition::resolve_definition;
use asm_lsp::dispatch::{run_session, Dispatcher, Inbound, Outbound, ServerState};
use asm_lsp::document::{split_lines, SourceDocument};
use asm_lsp::hover::{hover_documentation, resolve_hover};
use asm_lsp::location::{Position, Range};
use asm_lsp::symbols::SymbolTable;
use asm_lsp::text::eq_str;
use asm_lsp::tokenizer::find_word_at_pos;

fn record(id: &str, name: &str, op: &[&str], sum: &[&str], sym: &[&str]) -> InstructionRecord {
    InstructionRecord {
        id: id.to_string(),
        names: vec![name.to_string()],
        operation: op.iter().map(|s| s.to_string()).collect(),
        symbols: sym.iter().map(|s| s.to_string()).collect(),
        summary: sum.iter().map(|s| s.to_string()).collect(),
    }
}

fn sample_catalog() -> InstructionCatalog {
    InstructionCatalog::build(vec![
        record(
            "mov_rr",
            "mov",
            &["op: reg to reg"],
            &["moves a register"],
            &["uses no symbols"],
        ),
        record(
            "bnz_l",
            "bnz",
            &["op: branch if not zero"],
            &["conditional branch"],
            &["branches to a label"],
        ),
        record(
            "mov_ir",
            "mov",
            &["op: imm to reg"],
            &["moves an immediate"],
            &["uses no symbols"],
        ),
    ])
}

const SOURCE: &str = "L0: mov ax, 1\n    mov bx, 2\n    bnz L0\n";
const URI: &str = "file:///work/test.asm";

// Tokenizer: a column inside a token yields the token's maximal span.
#[test]
fn tokenizer_span_inside_token() {
    // columns 4..7 hold "mov"
    assert_eq!(find_word_at_pos("L0: mov ax, 1", 5), (4, 7));
    assert_eq!(find_word_at_pos("L0: mov ax, 1", 4), (4, 7));
    // column 0 sits in "L0"; ':' is no identifier character
    assert_eq!(find_word_at_pos("L0: mov ax, 1", 1), (0, 2));
}

// Tokenizer: a column on a separator yields the span ending there.
#[test]
fn tokenizer_span_on_separator() {
    // column 2 is the ':' right after "L0"
    assert_eq!(find_word_at_pos("L0: mov ax, 1", 2), (0, 2));
    // column 3 is the blank after ':'
    assert_eq!(find_word_at_pos("L0: mov ax, 1", 3), (3, 3));
}

// Tokenizer: a column at or past the line length never fails.
#[test]
fn tokenizer_column_past_end() {
    // the whole line is one identifier run
    assert_eq!(find_word_at_pos("abc", 3), (0, 3));
    assert_eq!(find_word_at_pos("abc", 100), (0, 3));
    // trailing blank: the span collapses to an empty one at the end
    assert_eq!(find_word_at_pos("ab ", 7), (3, 3));
    assert_eq!(find_word_at_pos("", 0), (0, 0));
    assert_eq!(find_word_at_pos("", 9), (0, 0));
}

// Catalog lookup is case-insensitive through the normalizing query.
#[test]
fn catalog_lookup_case_insensitive() {
    let cat = sample_catalog();
    let a = lookup_mnemonic(&cat, "mov").expect("mov");
    let b = lookup_mnemonic(&cat, "MOV").expect("MOV");
    let c = lookup_mnemonic(&cat, "Mov").expect("Mov");
    assert_eq!(a.len(), 2);
    assert_eq!(b.len(), 2);
    assert_eq!(c.len(), 2);
    for (x, y) in a.iter().zip(b.iter()) {
        assert_eq!(x.id, y.id);
    }
    for (x, y) in a.iter().zip(c.iter()) {
        assert_eq!(x.id, y.id);
    }
}

// Aliases differing only in case are filed under one normalized key.
#[test]
fn catalog_build_normalizes_keys() {
    let cat = InstructionCatalog::build(vec![
        record("jmp_near", "jmp", &["near jump"], &["jumps"], &["label"]),
        record("jmp_far", "JMP", &["far jump"], &["jumps far"], &["label"]),
    ]);
    let hits = lookup_mnemonic(&cat, "Jmp").expect("both forms filed together");
    assert_eq!(hits.len(), 2);
    assert_eq!(hits[0].id, "jmp_near");
    assert_eq!(hits[1].id, "jmp_far");
}

// The exact-match query expects the caller to normalize.
#[test]
fn catalog_exact_match_query() {
    let cat = sample_catalog();
    let hit = get_instructions(&cat, "MOV").expect("normalized query hits");
    assert_eq!(hit.len(), 2);
    assert_eq!(hit[0].id, "mov_rr");
    assert_eq!(hit[1].id, "mov_ir");
    assert!(get_instructions(&cat, "mov").is_none());
    assert!(get_instructions(&cat, "NOP").is_none());
}

// A mnemonic with two operand-form records returns both, in input order,
// concatenated in hover output with blank-line separation.
#[test]
fn hover_concatenates_operand_forms() {
    let cat = sample_catalog();
    let text = hover_documentation(&cat, "mov");
    let expected = "op: reg to reg\n\nmoves a register\n\nuses no symbols\n\n\n\nop: imm to reg\n\nmoves an immediate\n\nuses no symbols\n\n";
    assert_eq!(text, expected);
}

// Multi-line blocks are joined with single line breaks inside a record.
#[test]
fn hover_joins_block_lines() {
    let cat = InstructionCatalog::build(vec![record(
        "add",
        "add",
        &["line one", "line two"],
        &["sums things"],
        &["none"],
    )]);
    let text = hover_documentation(&cat, "ADD");
    assert_eq!(text, "line one\nline two\n\nsums things\n\nnone\n\n");
}

// An unrecognized token yields exactly the fixed not-found message.
#[test]
fn hover_unknown_token_fixed_message() {
    let cat = sample_catalog();
    assert_eq!(
        hover_documentation(&cat, "zzz"),
        "Not an instruction\nor\nNo information available"
    );
    assert_eq!(
        hover_documentation(&cat, ""),
        "Not an instruction\nor\nNo information available"
    );
}

// Hover at a document position tokenizes the line under the cursor.
#[test]
fn hover_at_position() {
    let cat = sample_catalog();
    let doc = SourceDocument::new(URI.to_string(), SOURCE);
    let text = resolve_hover(&cat, &doc, Position { line: 1, character: 5 });
    assert_eq!(text, "op: reg to reg\n\nmoves a register\n\nuses no symbols\n\n\n\nop: imm to reg\n\nmoves an immediate\n\nuses no symbols\n\n");
}

// Line splitting: line feeds split, CR LF is stripped, final ending optional.
#[test]
fn split_lines_endings() {
    assert_eq!(split_lines("a\r\nb\nc"), vec!["a", "b", "c"]);
    assert_eq!(split_lines("x\n"), vec!["x"]);
    assert_eq!(split_lines(""), Vec::<String>::new());
    assert_eq!(split_lines("\n\n"), vec!["", ""]);
}

// Symbol indexer: every line's first token registers, located at
// characters [0, token length) of its line.
#[test]
fn symbol_indexer_registers_first_tokens() {
    let doc = SourceDocument::new(URI.to_string(), SOURCE);
    let table = SymbolTable::build(&doc);
    assert_eq!(table.symbols.len(), 3);

    let l0 = table.lookup("L0:").expect("L0: defined");
    assert_eq!(l0.uri, URI);
    assert_eq!(
        l0.range,
        Range {
            start: Position { line: 0, character: 0 },
            end: Position { line: 0, character: 3 },
        }
    );

    // mnemonics also register: the indexer does not tell labels from opcodes
    let mov = table.lookup("mov").expect("mov registered");
    assert_eq!(mov.range.start.line, 1);
    let bnz = table.lookup("bnz").expect("bnz registered");
    assert_eq!(bnz.range.start.line, 2);

    assert!(table.lookup("ax,").is_none());
    assert!(table.lookup("L0").is_none());
}

// A repeated name keeps its last definition.
#[test]
fn symbol_indexer_last_definition_wins() {
    let doc = SourceDocument::new(URI.to_string(), "dup: a\nother: b\ndup: c\n");
    let table = SymbolTable::build(&doc);
    let dup = table.lookup("dup:").expect("dup: defined");
    assert_eq!(dup.range.start.line, 2);
}

// Definition of "L0" used inside "    bnz L0" resolves to the "L0:" line.
#[test]
fn definition_resolves_label_reference() {
    let doc = SourceDocument::new(URI.to_string(), SOURCE);
    // line 2 is "    bnz L0"; column 8 sits on "L0"
    let loc = resolve_definition(&doc, Position { line: 2, character: 8 });
    assert_eq!(loc.uri, URI);
    assert_eq!(
        loc.range,
        Range {
            start: Position { line: 0, character: 0 },
            end: Position { line: 0, character: 3 },
        }
    );
}

// A token already carrying the separator is used unchanged.
#[test]
fn definition_accepts_separator_token() {
    let doc = SourceDocument::new(URI.to_string(), SOURCE);
    // line 0, column 1 sits on "L0"; the token is "L0" and "L0:" is defined
    let loc = resolve_definition(&doc, Position { line: 0, character: 1 });
    assert_eq!(loc.range.start.line, 0);
    assert_eq!(loc.range.end.character, 3);
}

// An undefined symbol falls back to the query position, not an error.
#[test]
fn definition_undefined_falls_back_to_query() {
    let doc = SourceDocument::new(URI.to_string(), SOURCE);
    // line 0, column 8 sits on "ax"; "ax:" is defined nowhere
    let pos = Position { line: 0, character: 8 };
    let loc = resolve_definition(&doc, pos);
    assert_eq!(loc.uri, URI);
    assert_eq!(loc.range, Range { start: pos, end: pos });
}

// The handshake advertises hover and go-to-definition, then serves.
#[test]
fn dispatcher_handshake() {
    let mut d = Dispatcher::new();
    assert!(matches!(d.state, ServerState::Initializing));
    let caps = d.initialize();
    assert!(caps.hover_provider);
    assert!(caps.definition_provider);
    assert!(matches!(d.state, ServerState::Serving));
}

// Messages are answered in strict arrival order; a shutdown halts further
// processing without answering later messages.
#[test]
fn dispatcher_orders_and_halts_on_shutdown() {
    let cat = sample_catalog();
    let events = vec![
        Inbound::HoverRequest {
            id: 1,
            uri: URI.to_string(),
            text: SOURCE.to_string(),
            position: Position { line: 1, character: 5 },
        },
        Inbound::Notification,
        Inbound::DefinitionRequest {
            id: 2,
            uri: URI.to_string(),
            text: SOURCE.to_string(),
            position: Position { line: 2, character: 8 },
        },
        Inbound::UnknownRequest { id: 3 },
        Inbound::PeerResponse,
        Inbound::Shutdown { id: 4 },
        Inbound::HoverRequest {
            id: 5,
            uri: URI.to_string(),
            text: SOURCE.to_string(),
            position: Position { line: 0, character: 5 },
        },
    ];
    let outputs = run_session(&cat, events);
    assert_eq!(outputs.len(), 3);
    match &outputs[0] {
        Outbound::HoverResponse { id, text } => {
            assert_eq!(*id, 1);
            assert!(text.starts_with("op: reg to reg"));
        }
        other => panic!("expected a hover response, got {other:?}"),
    }
    match &outputs[1] {
        Outbound::DefinitionResponse { id, location } => {
            assert_eq!(*id, 2);
            assert_eq!(location.range.start.line, 0);
        }
        other => panic!("expected a definition response, got {other:?}"),
    }
    match &outputs[2] {
        Outbound::ShutdownAck { id } => assert_eq!(*id, 4),
        other => panic!("expected the shutdown acknowledgement, got {other:?}"),
    }
}

// Unknown request methods, notifications and peer responses get no answer.
#[test]
fn dispatcher_silent_messages() {
    let cat = sample_catalog();
    let outputs = run_session(
        &cat,
        vec![
            Inbound::UnknownRequest { id: 9 },
            Inbound::Notification,
            Inbound::PeerResponse,
        ],
    );
    assert!(outputs.is_empty());
}

// Character helpers: text equality.
#[test]
fn text_helpers() {
    assert!(eq_str("abc", "abc"));
    assert!(!eq_str("abc", "abd"));
    assert!(!eq_str("abc", "ab"));
    assert!(eq_str("", ""));
}

// Identifier characters follow the Unicode alphanumeric class.
#[test]
fn tokenizer_unicode_letters() {
    // a single non-ASCII letter is one identifier run
    assert_eq!(find_word_at_pos("\u{e9}", 0), (0, 1));
    // the run extends across non-ASCII letters
    assert_eq!(find_word_at_pos("\u{e9}a ?", 2), (0, 2));
    assert_eq!(find_word_at_pos("caf\u{e9} x", 1), (0, 4));
}

// Uppercase folding of catalog keys follows the Unicode mapping.
#[test]
fn catalog_unicode_case_folding() {
    let cat = InstructionCatalog::build(vec![record(
        "gr",
        "stra\u{df}e",
        &["op"],
        &["sum"],
        &["sym"],
    )]);
    // 'ß' folds to "SS", so both spellings meet at the same key
    let hits = lookup_mnemonic(&cat, "strasse").expect("folded query hits");
    assert_eq!(hits.len(), 1);
    assert_eq!(hits[0].id, "gr");
    assert!(get_instructions(&cat, "STRASSE").is_some());
}

// Token splitting recognizes Unicode whitespace.
#[test]
fn symbol_indexer_unicode_whitespace() {
    // a no-break space delimits the first token
    let doc = SourceDocument::new(URI.to_string(), "lbl:\u{a0}rest\n\u{2003}ind\n");
    let table = SymbolTable::build(&doc);
    let lbl = table.lookup("lbl:").expect("token ends at the no-break space");
    assert_eq!(lbl.range.end.character, 4);
    // an em space counts as leading whitespace
    let ind = table.lookup("ind").expect("token after em space");
    assert_eq!(ind.range.start.line, 1);
    assert_eq!(ind.range.end.character, 3);
}
