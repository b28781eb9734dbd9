use cairo_impls::collections::OrderedHashMap;
use cairo_impls::formatter::{
    colored_debug_text, compare_texts, file_diff_debug_text, format_input, string_to_file_id,
    CairoFormatter, FileDiff, FormatOutcome, FormatQuestion, FormatterConfig, FormatterDatabase,
    FormattingError, InPlace, ParsingError, StdinFmt,
};
use cairo_impls::diagnostics::Severity;
use cairo_impls::parser::{
    new_module_file, FileId, FileLongId, FilePath, FormattedDiagnosticEntry, ParseInput,
    ParseOutcome, ParseQuestion, ParserDiagnostics, SimpleParserDatabase, SyntaxNode,
};

const CONFIG: FormatterConfig = FormatterConfig(7);

fn entry(severity: Severity, text: &str) -> FormattedDiagnosticEntry {
    FormattedDiagnosticEntry { severity, text: text.to_string() }
}

/// A database in which the text of a file to format was parsed and formatted.
fn database(
    text: &str,
    diagnostics: Vec<FormattedDiagnosticEntry>,
    formatted: &str,
) -> (FormatterDatabase, FileId) {
    let mut parser = SimpleParserDatabase::default();
    parser.parses.insert(
        ParseQuestion {
            file: new_module_file("string_to_format", text.to_string()),
            input: ParseInput::File(text.to_string()),
        },
        ParseOutcome { root: SyntaxNode(3), diagnostics: ParserDiagnostics::new(diagnostics) },
    );
    let file_id = string_to_file_id(&mut parser, &text.to_string());
    let mut texts = OrderedHashMap::new();
    texts.insert(FormatQuestion { root: SyntaxNode(3), config: CONFIG }, formatted.to_string());
    (FormatterDatabase { parser, formatted: texts }, file_id)
}

fn error_of(res: Result<FormatOutcome, FormattingError>) -> String {
    match res {
        Ok(_) => panic!("formatting succeeded"),
        Err(e) => e.display(),
    }
}

#[test]
fn formatted_text_is_identical() {
    let (db, file_id) = database("fn main() {}\n", vec![], "fn main() {}\n");
    let res = format_input(&db, Ok(file_id), &CONFIG);
    match res {
        Ok(FormatOutcome::Identical(text)) => assert_eq!(text, "fn main() {}\n"),
        _ => panic!("a difference was found"),
    }
}

#[test]
fn unformatted_text_gives_a_difference() {
    let (db, file_id) = database("fn main(){}", vec![], "fn main() {}\n");
    let formatter = CairoFormatter::new(CONFIG);
    match formatter.format_to_string(&db, Ok(file_id)) {
        Ok(FormatOutcome::DiffFound(diff)) => {
            assert_eq!(diff.original, "fn main(){}");
            assert_eq!(diff.formatted, "fn main() {}\n");
        }
        _ => panic!("no difference was found"),
    }
}

#[test]
fn warnings_do_not_stop_formatting() {
    let (db, file_id) = database("a", vec![entry(Severity::Warning, "warning: odd")], "b");
    let res = format_input(&db, Ok(file_id), &CONFIG);
    assert!(matches!(res, Ok(FormatOutcome::DiffFound(_))));
}

#[test]
fn errors_stop_formatting() {
    let diagnostics =
        vec![entry(Severity::Warning, "warning: odd"), entry(Severity::Error, "error: bad")];
    let (db, file_id) = database("a", diagnostics, "b");
    match format_input(&db, Ok(file_id), &CONFIG) {
        Err(FormattingError::ParsingError(e)) => {
            let texts: Vec<&str> = e.iter().iter().map(|d| d.text.as_str()).collect();
            assert_eq!(texts, vec!["warning: odd", "error: bad"]);
            assert_eq!(e.display(), "warning: odd\nerror: bad\n");
        }
        _ => panic!("no parsing error"),
    }
}

#[test]
fn missing_inputs_are_errors() {
    let (mut db, _) = database("a", vec![], "b");
    let no_file = format_input(&db, Err("no such pipe".to_string()), &CONFIG);
    assert_eq!(error_of(no_file), "Unable to create virtual file.");
    let gone = db.parser.intern_file(FileLongId::OnDisk("gone.cairo".to_string()));
    let unreadable = format_input(&db, Ok(gone), &CONFIG);
    assert_eq!(error_of(unreadable), "Unable to read from input.");
}

#[test]
fn files_on_disk_are_formatted() {
    let mut parser = SimpleParserDatabase::default();
    parser.disk.insert(FilePath("a.cairo".to_string()), "x".to_string());
    parser.parses.insert(
        ParseQuestion {
            file: FileLongId::OnDisk("a.cairo".to_string()),
            input: ParseInput::File("x".to_string()),
        },
        ParseOutcome { root: SyntaxNode(1), diagnostics: ParserDiagnostics::new(vec![]) },
    );
    let file_id = parser.intern_file(FileLongId::OnDisk("a.cairo".to_string()));
    let mut formatted = OrderedHashMap::new();
    formatted
        .insert(FormatQuestion { root: SyntaxNode(1), config: CONFIG }, "x\n".to_string());
    let db = FormatterDatabase { parser, formatted };
    let outcome = match format_input(&db, Ok(file_id), &CONFIG) {
        Ok(outcome) => outcome,
        Err(e) => panic!("{}", e.display()),
    };
    assert_eq!(outcome.into_output_text(), "x\n");
}

#[test]
fn output_text_is_the_formatted_text() {
    assert_eq!(compare_texts("a".to_string(), "b".to_string()).into_output_text(), "b");
    assert_eq!(compare_texts("a".to_string(), "a".to_string()).into_output_text(), "a");
}

#[test]
fn formatting_in_place_writes_differences_only() {
    let formatter = CairoFormatter::new(CONFIG);
    let (db, file_id) = database("a", vec![], "a");
    assert!(matches!(
        formatter.format_in_place(&db, Ok(file_id)),
        InPlace::Done(Ok(FormatOutcome::Identical(_)))
    ));
    let (db, file_id) = database("a", vec![], "b");
    let diff = match formatter.format_in_place(&db, Ok(file_id)) {
        InPlace::Overwrite(diff) => diff,
        InPlace::Done(_) => panic!("nothing to write"),
    };
    assert_eq!(diff.formatted, "b");
    match formatter.finish_in_place(diff, Ok(())) {
        Ok(FormatOutcome::DiffFound(diff)) => assert_eq!(diff.formatted, "b"),
        _ => panic!("no difference"),
    }
    let (db, file_id) = database("a", vec![], "b");
    if let InPlace::Overwrite(diff) = formatter.format_in_place(&db, Ok(file_id)) {
        let res = formatter.finish_in_place(diff, Err("disk full".to_string()));
        assert_eq!(error_of(res), "disk full");
    } else {
        panic!("nothing to write");
    }
    let failed = formatter.format_in_place(&db, Err("x".to_string()));
    assert!(matches!(failed, InPlace::Done(Err(FormattingError::Error(_)))));
}

#[test]
fn stdin_is_a_virtual_file() {
    let mut db = SimpleParserDatabase::default();
    let id = StdinFmt.to_file_id(&mut db, "fn f() {}".to_string());
    match db.files.long(id.0) {
        FileLongId::Virtual(file) => {
            assert_eq!(file.name, "<stdin>");
            assert_eq!(file.content, "fn f() {}");
            assert!(file.parent.is_none());
            assert!(file.code_mappings.is_empty());
            assert!(!file.original_item_removed);
        }
        FileLongId::OnDisk(_) => panic!("a file on disk"),
    }
    assert_eq!(StdinFmt.to_file_id(&mut db, "fn f() {}".to_string()), id);
}

#[test]
fn differences_are_printed_as_patches() {
    let diff = FileDiff { original: "a\nb\n".to_string(), formatted: "a\nc\n".to_string() };
    let patch = "--- original\n+++ modified\n@@ -1,2 +1,2 @@\n a\n-b\n+c\n";
    assert_eq!(diff.display(), patch);
    assert_eq!(diff.debug(), format!("FileDiff({patch})\n"));
}

#[test]
fn colored_differences_are_printed_with_escapes() {
    let diff = FileDiff { original: "a\nb\n".to_string(), formatted: "a\nc\n".to_string() };
    let colored = diff.display_colored().display();
    assert!(colored.contains("\u{1b}[31m-b\n\u{1b}[0m"));
    assert!(colored.contains("\u{1b}[32m+c\n\u{1b}[0m"));
    assert!(!diff.display().contains('\u{1b}'));
    let debug = diff.display_colored().debug();
    assert_eq!(debug, format!("FileDiffColoredDisplay(FileDiff({})\n)\n", diff.display()));
}

/// Takes the color escape sequences out of a text.
fn strip(text: &str) -> String {
    let mut inside = false;
    let mut res = String::new();
    for c in text.chars() {
        if inside {
            inside = c != 'm';
        } else if c == '\u{1b}' {
            inside = true;
        } else {
            res.push(c);
        }
    }
    res
}

#[test]
fn colored_differences_are_plain_ones_in_color() {
    let texts = ["", "a\n", "a\nb\n\nc", "mmm\nb\n\nc\nd", "1\n2\n3\n4\n5\n6\n7\n8\n9\nb\n"];
    for original in texts {
        for formatted in texts {
            let diff =
                FileDiff { original: original.to_string(), formatted: formatted.to_string() };
            let colored = diff.display_colored().display();
            assert_ne!(colored, diff.display());
            assert_eq!(strip(&colored), diff.display());
        }
    }
}

#[test]
fn debug_texts_wrap_their_content() {
    assert_eq!(file_diff_debug_text(&"x".to_string()), "FileDiff(x)\n");
    assert_eq!(colored_debug_text(&"x".to_string()), "FileDiffColoredDisplay(x)\n");
}

#[test]
fn parsing_errors_round_trip() {
    let error = ParsingError::from(vec![entry(Severity::Error, "e1"), entry(Severity::Error, "e2")]);
    assert_eq!(error.display(), "e1\ne2\n");
    let entries: Vec<FormattedDiagnosticEntry> = Vec::from(error);
    assert_eq!(entries.len(), 2);
    assert_eq!(entries[1].text, "e2");
    assert_eq!(ParsingError::from(vec![]).display(), "");
}

#[test]
fn walks_are_restricted_to_cairo_files() {
    let config = CairoFormatter::new(CONFIG).walk();
    assert_eq!(config.ignore_filename, ".cairofmtignore");
    assert_eq!(config.file_type, "cairo");
    assert_eq!(config.file_glob, "*.cairo");
    assert!(!config.follow_links);
    assert!(config.skip_stdout);
}
