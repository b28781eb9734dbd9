//! The files that are parsed, and what is handed to the parser.

use vstd::prelude::*;
use vstd::string::{StrSliceExecFns, StringExecFns};

use crate::collections::{
    assoc_insert, copy_ids, lookup, same_ids, Id, Key, OrderedHashMap,
};
use crate::diagnostics::{DiagnosticAdded, Maybe, Severity};
use crate::interner::{interned_with, Interner};

verus! {

// --- Files ---

/// A file, by its position among the interned files.
#[derive(Clone, Copy, PartialEq, Eq, Structural, Debug)]
pub struct FileId(pub u64);

/// What a file holds.
#[derive(Clone, Copy, PartialEq, Eq, Structural, Debug)]
pub enum FileKind {
    Module,
    Expr,
    StatementList,
}

/// A mapping of generated code to the code that it comes from.
#[derive(Clone, Copy, PartialEq, Eq, Structural, Debug)]
pub struct CodeMapping(pub u64);

impl Id for CodeMapping {
    fn equals(self, other: Self) -> (res: bool) {
        self == other
    }
}

/// A file that exists in memory only.
#[verifier::ext_equal]
pub struct VirtualFile<T = String, M = Vec<CodeMapping>> {
    pub parent: Option<FileId>,
    pub name: T,
    pub content: T,
    pub code_mappings: M,
    pub kind: FileKind,
    /// Whether this file makes up for an item that was removed.
    pub original_item_removed: bool,
}

/// The texts of a [VirtualFile].
pub type VirtualFileView = VirtualFile<Seq<char>, Seq<CodeMapping>>;

impl View for VirtualFile {
    type V = VirtualFileView;

    open spec fn view(&self) -> VirtualFileView {
        VirtualFile {
            parent: self.parent,
            name: self.name@,
            content: self.content@,
            code_mappings: self.code_mappings@,
            kind: self.kind,
            original_item_removed: self.original_item_removed,
        }
    }
}

/// Where a file is.
#[verifier::ext_equal]
pub enum FileLongId<P = String, F = VirtualFile> {
    OnDisk(P),
    Virtual(F),
}

/// The texts of a [FileLongId].
pub type FileView = FileLongId<Seq<char>, VirtualFileView>;

impl View for FileLongId {
    type V = FileView;

    open spec fn view(&self) -> FileView {
        match self {
            FileLongId::OnDisk(path) => FileLongId::OnDisk(path@),
            FileLongId::Virtual(file) => FileLongId::Virtual(file@),
        }
    }
}

/// Whether two files have the same parent.
fn same_parent(a: Option<FileId>, b: Option<FileId>) -> (res: bool)
    ensures
        res == (a == b),
{
    match (a, b) {
        (Some(a), Some(b)) => a == b,
        (None, None) => true,
        _ => false,
    }
}

impl Key for VirtualFile {
    fn same(&self, other: &Self) -> (res: bool) {
        let res = same_parent(self.parent, other.parent) && self.name == other.name && self.content
            == other.content && self.kind == other.kind && self.original_item_removed
            == other.original_item_removed && same_ids(&self.code_mappings, &other.code_mappings);
        assert(res == (self@ =~= other@));
        res
    }

    fn dup(&self) -> (res: Self) {
        VirtualFile {
            parent: self.parent,
            name: self.name.clone(),
            content: self.content.clone(),
            code_mappings: copy_ids(&self.code_mappings),
            kind: self.kind,
            original_item_removed: self.original_item_removed,
        }
    }
}

impl Key for FileLongId {
    fn same(&self, other: &Self) -> (res: bool) {
        match (self, other) {
            (FileLongId::OnDisk(a), FileLongId::OnDisk(b)) => *a == *b,
            (FileLongId::Virtual(a), FileLongId::Virtual(b)) => a.same(b),
            _ => false,
        }
    }

    fn dup(&self) -> (res: Self) {
        match self {
            FileLongId::OnDisk(path) => FileLongId::OnDisk(path.clone()),
            FileLongId::Virtual(file) => FileLongId::Virtual(file.dup()),
        }
    }
}

/// The path of a file on disk, as a key.
pub struct FilePath(pub String);

impl View for FilePath {
    type V = Seq<char>;

    open spec fn view(&self) -> Seq<char> {
        self.0@
    }
}

impl Key for FilePath {
    fn same(&self, other: &Self) -> (res: bool) {
        self.0 == other.0
    }

    fn dup(&self) -> (res: Self) {
        FilePath(self.0.clone())
    }
}

// --- Diagnostics ---

/// A diagnostic as it is printed.
#[verifier::ext_equal]
pub struct FormattedDiagnosticEntry<T = String> {
    pub severity: Severity,
    pub text: T,
}

impl View for FormattedDiagnosticEntry {
    type V = FormattedDiagnosticEntry<Seq<char>>;

    open spec fn view(&self) -> FormattedDiagnosticEntry<Seq<char>> {
        FormattedDiagnosticEntry { severity: self.severity, text: self.text@ }
    }
}

/// The diagnostics of a list of entries.
pub open spec fn diagnostic_views(entries: Seq<FormattedDiagnosticEntry>) -> Seq<
    FormattedDiagnosticEntry<Seq<char>>,
> {
    Seq::new(entries.len(), |i: int| entries[i]@)
}

/// Whether no diagnostic is an error.
pub open spec fn error_free(diagnostics: Seq<FormattedDiagnosticEntry<Seq<char>>>) -> bool {
    forall|i: int|
        0 <= i < diagnostics.len() ==> (#[trigger] diagnostics[i]).severity != Severity::Error
}

/// The diagnostics of a parse.
pub struct ParserDiagnostics {
    entries: Vec<FormattedDiagnosticEntry>,
}

impl View for ParserDiagnostics {
    type V = Seq<FormattedDiagnosticEntry<Seq<char>>>;

    closed spec fn view(&self) -> Seq<FormattedDiagnosticEntry<Seq<char>>> {
        diagnostic_views(self.entries@)
    }
}

impl ParserDiagnostics {
    pub fn new(entries: Vec<FormattedDiagnosticEntry>) -> (res: Self)
        ensures
            res@ == diagnostic_views(entries@),
    {
        ParserDiagnostics { entries }
    }

    /// Succeeds exactly if no diagnostic is an error.
    pub fn check_error_free(&self) -> (res: Maybe<()>)
        ensures
            res == if error_free(self@) {
                Ok::<(), DiagnosticAdded>(())
            } else {
                Err::<(), DiagnosticAdded>(DiagnosticAdded)
            },
    {
        let mut i: usize = 0;
        while i < self.entries.len()
            invariant
                i <= self.entries.len(),
                self@.len() == self.entries@.len(),
                forall|j: int| 0 <= j < i ==> (#[trigger] self@[j]).severity != Severity::Error,
            decreases self.entries.len() - i,
        {
            assert(self@[i as int] == self.entries@[i as int]@);
            if self.entries[i].severity == Severity::Error {
                return Err(DiagnosticAdded);
            }
            i += 1;
        }
        Ok(())
    }

    /// The diagnostics as they are printed.
    pub fn format_with_severity(self) -> (res: Vec<FormattedDiagnosticEntry>)
        ensures
            diagnostic_views(res@) == self@,
    {
        self.entries
    }

    /// The same diagnostics once more.
    pub fn copy(&self) -> (res: Self)
        ensures
            res@ == self@,
    {
        let mut entries: Vec<FormattedDiagnosticEntry> = Vec::new();
        let mut i: usize = 0;
        while i < self.entries.len()
            invariant
                i <= self.entries.len(),
                entries@.len() == i,
                forall|j: int| 0 <= j < i ==> (#[trigger] entries@[j])@ == self.entries@[j]@,
            decreases self.entries.len() - i,
        {
            let entry = &self.entries[i];
            entries.push(
                FormattedDiagnosticEntry { severity: entry.severity, text: entry.text.clone() },
            );
            i += 1;
        }
        assert(diagnostic_views(entries@) =~= self@);
        ParserDiagnostics { entries }
    }
}

// --- Token streams ---

/// A position in a text.
#[derive(Clone, Copy, PartialEq, Eq, Structural, Debug)]
pub struct TextOffset(pub u32);

/// The place that a token comes from.
#[derive(Clone, Copy, PartialEq, Eq, Structural, Debug)]
pub struct TokenSpan {
    pub start: usize,
    pub end: usize,
}

/// A token.
#[verifier::ext_equal]
pub struct PrimitiveToken<T = String> {
    pub content: T,
    pub span: Option<TokenSpan>,
}

/// The text of a [PrimitiveToken].
pub type TokenView = PrimitiveToken<Seq<char>>;

impl View for PrimitiveToken {
    type V = TokenView;

    open spec fn view(&self) -> TokenView {
        PrimitiveToken { content: self.content@, span: self.span }
    }
}

/// The tokens of a list.
pub open spec fn token_views(tokens: Seq<PrimitiveToken>) -> Seq<TokenView> {
    Seq::new(tokens.len(), |i: int| tokens[i]@)
}

/// The texts of tokens, one behind the other.
pub open spec fn stream_content(tokens: Seq<TokenView>) -> Seq<char>
    decreases tokens.len(),
{
    if tokens.len() == 0 {
        seq![]
    } else {
        stream_content(tokens.drop_last()) + tokens.last().content
    }
}

/// The position that the first token starts at, where it has one.
pub open spec fn stream_offset(tokens: Seq<TokenView>) -> Option<TextOffset> {
    if tokens.len() == 0 {
        None
    } else {
        match tokens[0].span {
            Some(span) => Some(TextOffset(span.start as u32)),
            None => None,
        }
    }
}

/// The content of two streams is that of the first and then that of the second.
pub proof fn law_stream_content_concatenates(a: Seq<TokenView>, b: Seq<TokenView>)
    ensures
        stream_content(a + b) == stream_content(a) + stream_content(b),
    decreases b.len(),
{
    if b.len() == 0 {
        assert(a + b =~= a);
    } else {
        law_stream_content_concatenates(a, b.drop_last());
        assert((a + b).drop_last() =~= a + b.drop_last());
        assert((a + b).last() == b.last());
    }
}

/// Collect content string and start offset from a token stream. This basically means
/// concatenation of all tokens supplied.
pub fn primitive_token_stream_content_and_offset(token_stream: &Vec<PrimitiveToken>) -> (res: (
    String,
    Option<TextOffset>,
))
    ensures
        res.0@ == stream_content(token_views(token_stream@)),
        res.1 == stream_offset(token_views(token_stream@)),
{
    let ghost tokens = token_views(token_stream@);
    if token_stream.len() == 0 {
        return (String::new(), None);
    }
    let start_offset = match token_stream[0].span {
        Some(span) => Some(TextOffset(
            #[verifier::truncate]
            (span.start as u32),
        )),
        None => None,
    };
    let mut content = String::new();
    let mut i: usize = 0;
    while i < token_stream.len()
        invariant
            i <= token_stream.len(),
            tokens == token_views(token_stream@),
            content@ == stream_content(tokens.take(i as int)),
        decreases token_stream.len() - i,
    {
        content.append(token_stream[i].content.as_str());
        proof {
            let next = tokens.take(i + 1);
            assert(next.drop_last() =~= tokens.take(i as int));
            assert(next.last() == token_stream@[i as int]@);
        }
        i += 1;
    }
    assert(tokens.take(i as int) =~= tokens);
    (content, start_offset)
}

/// Whether two lists hold the same tokens.
fn same_tokens(a: &Vec<PrimitiveToken>, b: &Vec<PrimitiveToken>) -> (res: bool)
    ensures
        res == (token_views(a@) == token_views(b@)),
{
    let ghost v = token_views(a@);
    let ghost w = token_views(b@);
    if a.len() != b.len() {
        assert(v.len() != w.len());
        return false;
    }
    let mut i: usize = 0;
    while i < a.len()
        invariant
            i <= a.len(),
            a@.len() == b@.len(),
            v == token_views(a@),
            w == token_views(b@),
            forall|j: int| 0 <= j < i ==> #[trigger] v[j] == w[j],
        decreases a.len() - i,
    {
        if !a[i].same(&b[i]) {
            assert(v[i as int] != w[i as int]);
            return false;
        }
        i += 1;
    }
    assert(v =~= w);
    true
}

/// The same tokens once more.
fn copy_tokens(a: &Vec<PrimitiveToken>) -> (res: Vec<PrimitiveToken>)
    ensures
        token_views(res@) == token_views(a@),
{
    let mut res: Vec<PrimitiveToken> = Vec::new();
    let mut i: usize = 0;
    while i < a.len()
        invariant
            i <= a.len(),
            res@.len() == i,
            forall|j: int| 0 <= j < i ==> (#[trigger] res@[j])@ == a@[j]@,
        decreases a.len() - i,
    {
        res.push(a[i].dup());
        i += 1;
    }
    assert(token_views(res@) =~= token_views(a@));
    res
}

impl Key for PrimitiveToken {
    fn same(&self, other: &Self) -> (res: bool) {
        let same_span = match (self.span, other.span) {
            (Some(a), Some(b)) => a == b,
            (None, None) => true,
            _ => false,
        };
        let res = same_span && self.content == other.content;
        assert(res == (self@ =~= other@));
        res
    }

    fn dup(&self) -> (res: Self) {
        PrimitiveToken { content: self.content.clone(), span: self.span }
    }
}

// --- The parser ---

/// A node of a syntax tree.
#[derive(Clone, Copy, PartialEq, Eq, Structural, Debug)]
pub struct SyntaxNode(pub u64);

/// The syntax of a whole file.
#[derive(Clone, Copy, PartialEq, Eq, Structural, Debug)]
pub struct SyntaxFile(pub SyntaxNode);

impl SyntaxFile {
    /// The root of the syntax tree.
    pub fn as_syntax_node(&self) -> (res: SyntaxNode)
        ensures
            res == self.0,
    {
        self.0
    }
}

/// What the parser is asked to parse.
#[verifier::ext_equal]
pub enum ParseInput<T = String, S = Vec<PrimitiveToken>> {
    /// The text of a file.
    File(T),
    /// The tokens of a file.
    TokenStream(S),
    /// The text of an expression, and the position that it starts at.
    TokenStreamExpr(T, Option<TextOffset>),
}

/// The texts of a [ParseInput].
pub type ParseInputView = ParseInput<Seq<char>, Seq<TokenView>>;

impl View for ParseInput {
    type V = ParseInputView;

    open spec fn view(&self) -> ParseInputView {
        match self {
            ParseInput::File(text) => ParseInput::File(text@),
            ParseInput::TokenStream(tokens) => ParseInput::TokenStream(token_views(tokens@)),
            ParseInput::TokenStreamExpr(text, offset) => ParseInput::TokenStreamExpr(
                text@,
                *offset,
            ),
        }
    }
}

impl Key for ParseInput {
    fn same(&self, other: &Self) -> (res: bool) {
        match (self, other) {
            (ParseInput::File(a), ParseInput::File(b)) => *a == *b,
            (ParseInput::TokenStream(a), ParseInput::TokenStream(b)) => same_tokens(a, b),
            (ParseInput::TokenStreamExpr(a, m), ParseInput::TokenStreamExpr(b, n)) => {
                let same_offset = match (*m, *n) {
                    (Some(m), Some(n)) => m == n,
                    (None, None) => true,
                    _ => false,
                };
                same_offset && *a == *b
            },
            _ => false,
        }
    }

    fn dup(&self) -> (res: Self) {
        match self {
            ParseInput::File(text) => ParseInput::File(text.clone()),
            ParseInput::TokenStream(tokens) => ParseInput::TokenStream(copy_tokens(tokens)),
            ParseInput::TokenStreamExpr(text, offset) => ParseInput::TokenStreamExpr(
                text.clone(),
                *offset,
            ),
        }
    }
}

/// A file and what of it is parsed.
pub struct ParseQuestion {
    pub file: FileLongId,
    pub input: ParseInput,
}

impl View for ParseQuestion {
    type V = (FileView, ParseInputView);

    open spec fn view(&self) -> (FileView, ParseInputView) {
        (self.file@, self.input@)
    }
}

impl Key for ParseQuestion {
    fn same(&self, other: &Self) -> (res: bool) {
        self.file.same(&other.file) && self.input.same(&other.input)
    }

    fn dup(&self) -> (res: Self) {
        ParseQuestion { file: self.file.dup(), input: self.input.dup() }
    }
}

/// What the parser makes of a file.
pub struct ParseOutcome {
    pub root: SyntaxNode,
    pub diagnostics: ParserDiagnostics,
}

/// A database for parsing only: the interned files, the texts on disk, and what the parser makes
/// of them.
pub struct SimpleParserDatabase {
    pub files: Interner<FileLongId>,
    /// The texts of the files on disk that can be read.
    pub disk: OrderedHashMap<FilePath, String>,
    pub parses: OrderedHashMap<ParseQuestion, ParseOutcome>,
}

/// A virtual file with a module, as a file that has no parent.
pub open spec fn module_file(name: Seq<char>, content: Seq<char>) -> FileView {
    FileLongId::Virtual(
        VirtualFile {
            parent: None,
            name,
            content,
            code_mappings: seq![],
            kind: FileKind::Module,
            original_item_removed: false,
        },
    )
}

/// Makes a virtual file with a module.
pub fn new_module_file(name: &str, content: String) -> (res: FileLongId)
    ensures
        res@ == module_file(name@, content@),
{
    let file = VirtualFile {
        parent: None,
        name: String::from_str(name),
        content,
        code_mappings: Vec::new(),
        kind: FileKind::Module,
        original_item_removed: false,
    };
    assert(file@ =~= module_file(name@, content@)->Virtual_0);
    FileLongId::Virtual(file)
}

impl Default for SimpleParserDatabase {
    /// A database without files.
    fn default() -> (res: Self)
        ensures
            res.files@.len() == 0,
            res.disk@.len() == 0,
            res.parses@.len() == 0,
    {
        SimpleParserDatabase {
            files: Interner::new(),
            disk: OrderedHashMap::new(),
            parses: OrderedHashMap::new(),
        }
    }
}

impl SimpleParserDatabase {
    pub open spec fn has_file(self, file_id: FileId) -> bool {
        file_id.0 < self.files@.len()
    }

    pub open spec fn spec_file_long(self, file_id: FileId) -> FileView {
        self.files@[file_id.0 as int]
    }

    /// The text of a file.
    pub open spec fn spec_file_content(self, file: FileView) -> Option<Seq<char>> {
        match file {
            FileLongId::OnDisk(path) => match lookup(self.disk@, path) {
                Some(text) => Some(text@),
                None => None,
            },
            FileLongId::Virtual(file) => Some(file.content),
        }
    }

    /// Whether the parser was run.
    pub open spec fn has_parse(self, file: FileView, input: ParseInputView) -> bool {
        lookup(self.parses@, (file, input)) is Some
    }

    /// The root that the parser gives.
    pub open spec fn spec_root(self, file: FileView, input: ParseInputView) -> SyntaxNode {
        lookup(self.parses@, (file, input))->0.root
    }

    /// The diagnostics that the parser gives.
    pub open spec fn spec_diagnostics(self, file: FileView, input: ParseInputView) -> Seq<
        FormattedDiagnosticEntry<Seq<char>>,
    > {
        lookup(self.parses@, (file, input))->0.diagnostics@
    }

    /// Whether only a file was interned.
    pub open spec fn with_file(self, after: SimpleParserDatabase, file: FileView) -> bool {
        &&& after.files@ == interned_with(self.files@, file)
        &&& after.disk == self.disk
        &&& after.parses == self.parses
    }

    /// The id of a file.
    pub fn intern_file(&mut self, file: FileLongId) -> (id: FileId)
        ensures
            old(self).with_file(*final(self), file@),
            final(self).has_file(id),
            final(self).spec_file_long(id) == file@,
    {
        FileId(self.files.intern(file))
    }

    /// The text of a file: that of a virtual file is its own, that of a file on disk is there if
    /// the file can be read.
    pub fn file_content(&self, file_id: FileId) -> (res: Option<String>)
        requires
            self.has_file(file_id),
        ensures
            match res {
                Some(text) => self.spec_file_content(self.spec_file_long(file_id)) == Some(text@),
                None => self.spec_file_content(self.spec_file_long(file_id)) is None,
            },
    {
        match self.files.long(file_id.0) {
            FileLongId::OnDisk(path) => match self.disk.get(&FilePath(path.clone())) {
                Some(text) => Some(text.clone()),
                None => None,
            },
            FileLongId::Virtual(file) => Some(file.content.clone()),
        }
    }

    /// Records what the parser makes of a file.
    pub fn record_parse(&mut self, file_id: FileId, input: ParseInput, outcome: ParseOutcome)
        requires
            old(self).has_file(file_id),
        ensures
            final(self).files == old(self).files,
            final(self).disk == old(self).disk,
            final(self).parses@ == assoc_insert(
                old(self).parses@,
                (old(self).spec_file_long(file_id), input@),
                outcome,
            ),
            final(self).has_parse(final(self).spec_file_long(file_id), input@),
            final(self).spec_root(final(self).spec_file_long(file_id), input@) == outcome.root,
            final(self).spec_diagnostics(final(self).spec_file_long(file_id), input@)
                == outcome.diagnostics@,
    {
        let question = ParseQuestion { file: self.files.long(file_id.0).dup(), input };
        self.parses.insert(question, outcome);
    }

    /// What the parser makes of a file.
    fn parse(&self, file_id: FileId, input: ParseInput) -> (res: (SyntaxNode, ParserDiagnostics))
        requires
            self.has_file(file_id),
            self.has_parse(self.spec_file_long(file_id), input@),
        ensures
            res.0 == self.spec_root(self.spec_file_long(file_id), input@),
            res.1@ == self.spec_diagnostics(self.spec_file_long(file_id), input@),
    {
        let question = ParseQuestion { file: self.files.long(file_id.0).dup(), input };
        match self.parses.get(&question) {
            Some(outcome) => (outcome.root, outcome.diagnostics.copy()),
            None => {
                assert(false);
                vstd::pervasive::unreached()
            },
        }
    }

    /// Parses new file and returns its syntax root.
    ///
    /// This is similar to [Self::parse_virtual_with_diagnostics], but is more ergonomic in cases
    /// when exact diagnostics do not matter at the usage place. If the parser has emitted error
    /// diagnostics, this function will return an error. If no error diagnostics has been
    /// emitted, the syntax root will be returned.
    pub fn parse_virtual(&mut self, content: String) -> (res: Result<SyntaxNode, ParserDiagnostics>)
        requires
            old(self).has_parse(
                module_file("parser_input"@, content@),
                ParseInput::File(content@),
            ),
        ensures
            ({
                let file = module_file("parser_input"@, content@);
                let input = ParseInput::File(content@);
                &&& old(self).with_file(*final(self), file)
                &&& match res {
                    Ok(node) => error_free(old(self).spec_diagnostics(file, input)) && node
                        == old(self).spec_root(file, input),
                    Err(diagnostics) => {
                        &&& !error_free(diagnostics@)
                        &&& diagnostics@ == old(self).spec_diagnostics(file, input)
                    },
                }
            }),
    {
        let (node, diagnostics) = self.parse_virtual_with_diagnostics(content);
        if diagnostics.check_error_free().is_ok() {
            Ok(node)
        } else {
            Err(diagnostics)
        }
    }

    /// Parses new file and return its syntax root with diagnostics.
    ///
    /// This function creates new virtual file with the given content and parses it.
    /// Diagnostics gathered by the parser are returned alongside the result.
    pub fn parse_virtual_with_diagnostics(&mut self, content: String) -> (res: (
        SyntaxNode,
        ParserDiagnostics,
    ))
        requires
            old(self).has_parse(
                module_file("parser_input"@, content@),
                ParseInput::File(content@),
            ),
        ensures
            ({
                let file = module_file("parser_input"@, content@);
                let input = ParseInput::File(content@);
                &&& old(self).with_file(*final(self), file)
                &&& res.0 == old(self).spec_root(file, input)
                &&& res.1@ == old(self).spec_diagnostics(file, input)
            }),
    {
        let file = self.intern_file(new_module_file("parser_input", content.clone()));
        get_syntax_root_and_diagnostics(self, file, content.as_str())
    }

    /// Parses a token stream (based on whole file) and returns its syntax root.
    /// It's very similar to [Self::parse_virtual_with_diagnostics], but instead of taking a content
    /// as a string, it takes the tokens.
    pub fn parse_token_stream(&mut self, token_stream: &Vec<PrimitiveToken>) -> (res: (
        SyntaxNode,
        ParserDiagnostics,
    ))
        requires
            ({
                let tokens = token_views(token_stream@);
                old(self).has_parse(
                    module_file("token_stream_file_parser_input"@, stream_content(tokens)),
                    ParseInput::TokenStream(tokens),
                )
            }),
        ensures
            ({
                let tokens = token_views(token_stream@);
                let file = module_file(
                    "token_stream_file_parser_input"@,
                    stream_content(tokens),
                );
                let input = ParseInput::TokenStream(tokens);
                &&& old(self).with_file(*final(self), file)
                &&& res.0 == old(self).spec_root(file, input)
                &&& res.1@ == old(self).spec_diagnostics(file, input)
            }),
    {
        let (content, _offset) = primitive_token_stream_content_and_offset(token_stream);
        let file_id = self.intern_file(
            new_module_file("token_stream_file_parser_input", content),
        );
        self.parse(file_id, ParseInput::TokenStream(copy_tokens(token_stream)))
    }

    /// Parses a token stream (based on a single expression).
    /// It's very similar to the [Self::parse_token_stream].
    pub fn parse_token_stream_expr(&mut self, token_stream: &Vec<PrimitiveToken>) -> (res: (
        SyntaxNode,
        ParserDiagnostics,
    ))
        requires
            ({
                let tokens = token_views(token_stream@);
                old(self).has_parse(
                    module_file("token_stream_expr_parser_input"@, stream_content(tokens)),
                    ParseInput::TokenStreamExpr(stream_content(tokens), stream_offset(tokens)),
                )
            }),
        ensures
            ({
                let tokens = token_views(token_stream@);
                let file = module_file(
                    "token_stream_expr_parser_input"@,
                    stream_content(tokens),
                );
                let input = ParseInput::TokenStreamExpr(
                    stream_content(tokens),
                    stream_offset(tokens),
                );
                &&& old(self).with_file(*final(self), file)
                &&& res.0 == old(self).spec_root(file, input)
                &&& res.1@ == old(self).spec_diagnostics(file, input)
            }),
    {
        let (content, offset) = primitive_token_stream_content_and_offset(token_stream);
        let file_id = self.intern_file(
            new_module_file("token_stream_expr_parser_input", content.clone()),
        );
        self.parse(file_id, ParseInput::TokenStreamExpr(content, offset))
    }
}

/// Reads a cairo file to the db and return the syntax_root and diagnostic of its parsing.
pub fn get_syntax_root_and_diagnostics_from_file(
    db: &mut SimpleParserDatabase,
    cairo_filepath: String,
) -> (res: (SyntaxNode, ParserDiagnostics))
    requires
        ({
            let file = FileLongId::OnDisk(cairo_filepath@);
            old(db).spec_file_content(file) matches Some(text) && old(db).has_parse(
                file,
                ParseInput::File(text),
            )
        }),
    ensures
        ({
            let file = FileLongId::OnDisk(cairo_filepath@);
            let input = ParseInput::File(old(db).spec_file_content(file)->0);
            &&& old(db).with_file(*final(db), file)
            &&& res.0 == old(db).spec_root(file, input)
            &&& res.1@ == old(db).spec_diagnostics(file, input)
        }),
{
    let file_id = db.intern_file(FileLongId::OnDisk(cairo_filepath));
    match db.file_content(file_id) {
        Some(contents) => get_syntax_root_and_diagnostics(db, file_id, contents.as_str()),
        None => {
            assert(false);
            vstd::pervasive::unreached()
        },
    }
}

/// Returns the syntax_root and diagnostic of a file in the db.
pub fn get_syntax_root_and_diagnostics(
    db: &SimpleParserDatabase,
    file_id: FileId,
    contents: &str,
) -> (res: (SyntaxNode, ParserDiagnostics))
    requires
        db.has_file(file_id),
        db.has_parse(db.spec_file_long(file_id), ParseInput::File(contents@)),
    ensures
        res.0 == db.spec_root(db.spec_file_long(file_id), ParseInput::File(contents@)),
        res.1@ == db.spec_diagnostics(db.spec_file_long(file_id), ParseInput::File(contents@)),
{
    let (syntax_file, diagnostics) = get_syntax_file_and_diagnostics(db, file_id, contents);
    (syntax_file.as_syntax_node(), diagnostics)
}

/// Returns the syntax_file and diagnostic of a file in the db.
pub fn get_syntax_file_and_diagnostics(
    db: &SimpleParserDatabase,
    file_id: FileId,
    contents: &str,
) -> (res: (SyntaxFile, ParserDiagnostics))
    requires
        db.has_file(file_id),
        db.has_parse(db.spec_file_long(file_id), ParseInput::File(contents@)),
    ensures
        (res.0).0 == db.spec_root(db.spec_file_long(file_id), ParseInput::File(contents@)),
        res.1@ == db.spec_diagnostics(db.spec_file_long(file_id), ParseInput::File(contents@)),
{
    let (root, diagnostics) = db.parse(file_id, ParseInput::File(String::from_str(contents)));
    (SyntaxFile(root), diagnostics)
}

// --- Laws ---

/// Diagnostics are free of errors exactly if each of them is a warning.
pub proof fn law_warnings_are_no_errors(
    a: Seq<FormattedDiagnosticEntry<Seq<char>>>,
    entry: FormattedDiagnosticEntry<Seq<char>>,
)
    ensures
        error_free(seq![]),
        error_free(a.push(entry)) <==> error_free(a) && entry.severity == Severity::Warning,
{
    let all = a.push(entry);
    if error_free(all) {
        assert(all[a.len() as int] == entry);
        assert forall|i: int| 0 <= i < a.len() implies (#[trigger] a[i]).severity
            != Severity::Error by {
            assert(all[i] == a[i]);
        }
    }
}

/// A stream starts where its first token does, and nowhere where it has none or that token has no
/// place.
pub proof fn law_streams_start_with_their_first_token(token: TokenView, rest: Seq<TokenView>)
    ensures
        stream_offset(seq![]) is None,
        match token.span {
            Some(span) => stream_offset(seq![token] + rest) matches Some(offset) && offset.0
                == span.start as u32,
            None => stream_offset(seq![token] + rest) is None,
        },
        stream_content(seq![token] + rest) == token.content + stream_content(rest),
{
    assert((seq![token] + rest)[0] == token);
    law_stream_content_concatenates(seq![token], rest);
    reveal_with_fuel(stream_content, 2);
    assert(seq![token].drop_last() =~= seq![]);
    assert(stream_content(seq![token]) =~= token.content);
}

} // verus!
