use cairo_impls::diagnostics::Severity;
use cairo_impls::parser::{
    get_syntax_file_and_diagnostics, get_syntax_root_and_diagnostics,
    get_syntax_root_and_diagnostics_from_file, new_module_file,
    primitive_token_stream_content_and_offset, FileKind, FileLongId, FilePath,
    FormattedDiagnosticEntry, ParseInput, ParseOutcome, ParseQuestion, ParserDiagnostics,
    PrimitiveToken, SimpleParserDatabase, SyntaxNode, TextOffset, TokenSpan,
};

fn token(content: &str, start: Option<usize>) -> PrimitiveToken {
    let span = start.map(|start| TokenSpan { start, end: start + content.len() });
    PrimitiveToken { content: content.to_string(), span }
}

fn tokens() -> Vec<PrimitiveToken> {
    vec![token("let ", Some(12)), token("x", None), token(" = 1;", Some(40))]
}

fn outcome(root: u64, errors: &[&str]) -> ParseOutcome {
    let entries = errors
        .iter()
        .map(|text| FormattedDiagnosticEntry {
            severity: Severity::Error,
            text: text.to_string(),
        })
        .collect();
    ParseOutcome { root: SyntaxNode(root), diagnostics: ParserDiagnostics::new(entries) }
}

fn with_virtual(content: &str, outcome: ParseOutcome) -> SimpleParserDatabase {
    let mut db = SimpleParserDatabase::default();
    db.parses.insert(
        ParseQuestion {
            file: new_module_file("parser_input", content.to_string()),
            input: ParseInput::File(content.to_string()),
        },
        outcome,
    );
    db
}

#[test]
fn stream_content_is_concatenated() {
    let (content, offset) = primitive_token_stream_content_and_offset(&tokens());
    assert_eq!(content, "let x = 1;");
    assert_eq!(offset, Some(TextOffset(12)));
}

#[test]
fn stream_content_of_two_streams_is_concatenated() {
    let (first, _) = primitive_token_stream_content_and_offset(&vec![token("a", None)]);
    let (second, _) =
        primitive_token_stream_content_and_offset(&vec![token("b", None), token("c", None)]);
    let (both, _) = primitive_token_stream_content_and_offset(&vec![
        token("a", None),
        token("b", None),
        token("c", None),
    ]);
    assert_eq!(both, first + &second);
}

#[test]
fn empty_streams_have_no_offset() {
    let (content, offset) = primitive_token_stream_content_and_offset(&vec![]);
    assert_eq!(content, "");
    assert_eq!(offset, None);
}

#[test]
fn first_tokens_without_span_have_no_offset() {
    let stream = vec![token("a", None), token("b", Some(3))];
    let (content, offset) = primitive_token_stream_content_and_offset(&stream);
    assert_eq!(content, "ab");
    assert_eq!(offset, None);
}

#[test]
fn virtual_files_without_errors_are_parsed() {
    let mut db = with_virtual("fn f() {}", outcome(5, &[]));
    match db.parse_virtual("fn f() {}".to_string()) {
        Ok(node) => assert_eq!(node, SyntaxNode(5)),
        Err(_) => panic!("errors were found"),
    }
    match db.files.long(0) {
        FileLongId::Virtual(file) => {
            assert_eq!(file.name, "parser_input");
            assert_eq!(file.content, "fn f() {}");
            assert_eq!(file.kind, FileKind::Module);
        }
        FileLongId::OnDisk(_) => panic!("a file on disk"),
    }
}

#[test]
fn virtual_files_with_errors_give_diagnostics() {
    let mut db = with_virtual("fn", outcome(6, &["error: incomplete"]));
    match db.parse_virtual("fn".to_string()) {
        Ok(_) => panic!("no errors were found"),
        Err(diagnostics) => {
            assert!(diagnostics.check_error_free().is_err());
            let entries = diagnostics.format_with_severity();
            assert_eq!(entries.len(), 1);
            assert_eq!(entries[0].text, "error: incomplete");
        }
    }
    let (node, diagnostics) = db.parse_virtual_with_diagnostics("fn".to_string());
    assert_eq!(node, SyntaxNode(6));
    assert_eq!(diagnostics.format_with_severity().len(), 1);
}

#[test]
fn token_streams_are_parsed_as_files() {
    let mut db = SimpleParserDatabase::default();
    db.parses.insert(
        ParseQuestion {
            file: new_module_file("token_stream_file_parser_input", "let x = 1;".to_string()),
            input: ParseInput::TokenStream(tokens()),
        },
        outcome(7, &[]),
    );
    let (node, diagnostics) = db.parse_token_stream(&tokens());
    assert_eq!(node, SyntaxNode(7));
    assert!(diagnostics.check_error_free().is_ok());
}

#[test]
fn token_streams_are_parsed_as_expressions() {
    let mut db = SimpleParserDatabase::default();
    db.parses.insert(
        ParseQuestion {
            file: new_module_file("token_stream_expr_parser_input", "let x = 1;".to_string()),
            input: ParseInput::TokenStreamExpr("let x = 1;".to_string(), Some(TextOffset(12))),
        },
        outcome(8, &["error: not an expression"]),
    );
    let (node, diagnostics) = db.parse_token_stream_expr(&tokens());
    assert_eq!(node, SyntaxNode(8));
    assert!(diagnostics.check_error_free().is_err());
}

#[test]
fn files_are_read_from_disk() {
    let mut db = SimpleParserDatabase::default();
    db.disk.insert(FilePath("lib.cairo".to_string()), "mod a;".to_string());
    db.parses.insert(
        ParseQuestion {
            file: FileLongId::OnDisk("lib.cairo".to_string()),
            input: ParseInput::File("mod a;".to_string()),
        },
        outcome(9, &[]),
    );
    let (node, _) = get_syntax_root_and_diagnostics_from_file(&mut db, "lib.cairo".to_string());
    assert_eq!(node, SyntaxNode(9));
    let id = db.intern_file(FileLongId::OnDisk("lib.cairo".to_string()));
    assert_eq!(db.file_content(id), Some("mod a;".to_string()));
    let (root, _) = get_syntax_root_and_diagnostics(&db, id, "mod a;");
    let (file, _) = get_syntax_file_and_diagnostics(&db, id, "mod a;");
    assert_eq!(root, file.as_syntax_node());
}

#[test]
fn missing_files_have_no_content() {
    let mut db = SimpleParserDatabase::default();
    let id = db.intern_file(FileLongId::OnDisk("gone.cairo".to_string()));
    assert_eq!(db.file_content(id), None);
}

#[test]
fn equal_files_are_interned_once() {
    let mut db = SimpleParserDatabase::default();
    let a = db.intern_file(new_module_file("a", "x".to_string()));
    let b = db.intern_file(new_module_file("a", "y".to_string()));
    let c = db.intern_file(new_module_file("a", "x".to_string()));
    assert_eq!(a, c);
    assert_ne!(a, b);
}

#[test]
fn parses_are_recorded_for_their_file() {
    let mut db = SimpleParserDatabase::default();
    let id = db.intern_file(new_module_file("a", "x".to_string()));
    db.record_parse(id, ParseInput::File("x".to_string()), outcome(11, &["error: x"]));
    let (root, diagnostics) = get_syntax_root_and_diagnostics(&db, id, "x");
    assert_eq!(root, SyntaxNode(11));
    assert!(diagnostics.check_error_free().is_err());
}
