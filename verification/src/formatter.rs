//! Formatting of cairo files: what comes out, and how it is printed.

use vstd::prelude::*;
use vstd::string::{StrSliceExecFns, StringExecFns};

use crate::collections::{lookup, Key, OrderedHashMap};
use crate::diagnostics::Severity;
use crate::parser::{
    diagnostic_views, error_free, get_syntax_root_and_diagnostics, module_file, new_module_file,
    FileId, FileLongId, FormattedDiagnosticEntry, ParseInput, ParseOutcome, SimpleParserDatabase,
    SyntaxNode,
};

verus! {

// --- Differences ---

/// The changes between two texts, as `diffy` prints them.
pub uninterp spec fn patch(original: Seq<char>, modified: Seq<char>) -> Seq<char>;

/// The changes between two texts, as `diffy` prints them in color.
pub uninterp spec fn colored_patch(original: Seq<char>, modified: Seq<char>) -> Seq<char>;

/// Whether a text has no escape character, with which the escape sequences of a terminal begin.
pub open spec fn escape_free(text: Seq<char>) -> bool {
    !text.contains('\u{1b}')
}

/// A text without its color escape sequences. Such a sequence goes from an escape character to
/// the next `m`; `inside` tells whether the text begins within one.
pub open spec fn without_colors(text: Seq<char>, inside: bool) -> Seq<char>
    decreases text.len(),
{
    if text.len() == 0 {
        seq![]
    } else if inside {
        without_colors(text.drop_first(), text[0] != 'm')
    } else if text[0] == '\u{1b}' {
        without_colors(text.drop_first(), true)
    } else {
        seq![text[0]] + without_colors(text.drop_first(), false)
    }
}

/// Prints what `diffy::create_patch` makes of two texts: a unified diff, with `Display`. It
/// depends on the two texts alone; which of the shortest differences is chosen is left to `diffy`.
#[verifier::external_body]
fn patch_text(original: &str, modified: &str) -> (res: String)
    ensures
        res@ == patch(original@, modified@),
{
    diffy::create_patch(original, modified).to_string()
}

/// Prints what `diffy::create_patch` makes of two texts with `diffy::PatchFormatter::fmt_patch`,
/// with color switched on. It depends on the two texts alone. The formatter prints the same patch
/// as `Display` does, with color escape sequences around its parts, so without these it is the
/// patch in plain, where the texts bring in no escape character. The choice of the difference and
/// the colors are left to `diffy`.
#[verifier::external_body]
fn colored_patch_text(original: &str, modified: &str) -> (res: String)
    ensures
        res@ == colored_patch(original@, modified@),
        escape_free(original@) && escape_free(modified@) ==> without_colors(res@, false) == patch(
            original@,
            modified@,
        ),
{
    let patch = diffy::create_patch(original, modified);
    let text = diffy::PatchFormatter::new().with_color().fmt_patch(&patch).to_string();
    text
}

/// A struct encapsulating the changes made by the formatter in a single file.
///
/// Its texts show differences between the original and modified file content.
pub struct FileDiff {
    pub original: String,
    pub formatted: String,
}

/// A difference as it is printed for debugging, given as it is displayed.
pub open spec fn file_diff_debug(text: Seq<char>) -> Seq<char> {
    "FileDiff("@ + text + ")\n"@
}

/// Prints a difference for debugging, given as it is displayed.
pub fn file_diff_debug_text(text: &String) -> (res: String)
    ensures
        res@ == file_diff_debug(text@),
{
    let mut res = String::from_str("FileDiff(");
    res.append(text.as_str());
    res.append(")\n");
    res
}

/// A colored difference as it is printed for debugging, given as the difference is.
pub open spec fn colored_debug(text: Seq<char>) -> Seq<char> {
    "FileDiffColoredDisplay("@ + text + ")\n"@
}

/// Prints a colored difference for debugging, given as the difference is.
pub fn colored_debug_text(text: &String) -> (res: String)
    ensures
        res@ == colored_debug(text@),
{
    let mut res = String::from_str("FileDiffColoredDisplay(");
    res.append(text.as_str());
    res.append(")\n");
    res
}

impl FileDiff {
    pub fn display_colored(&self) -> (res: FileDiffColoredDisplay<'_>)
        ensures
            res@ == *self,
    {
        FileDiffColoredDisplay { diff: self }
    }

    /// The difference as it is displayed.
    pub fn display(&self) -> (res: String)
        ensures
            res@ == patch(self.original@, self.formatted@),
    {
        patch_text(self.original.as_str(), self.formatted.as_str())
    }

    /// The difference as it is printed for debugging.
    pub fn debug(&self) -> (res: String)
        ensures
            res@ == file_diff_debug(patch(self.original@, self.formatted@)),
    {
        file_diff_debug_text(&self.display())
    }
}

/// A helper struct for displaying a file diff with colored output.
///
/// If you prefer output without colors, use [`FileDiff`] instead.
pub struct FileDiffColoredDisplay<'a> {
    diff: &'a FileDiff,
}

impl<'a> View for FileDiffColoredDisplay<'a> {
    type V = FileDiff;

    closed spec fn view(&self) -> FileDiff {
        *self.diff
    }
}

impl<'a> FileDiffColoredDisplay<'a> {
    /// The difference as it is displayed.
    pub fn display(&self) -> (res: String)
        ensures
            res@ == colored_patch(self@.original@, self@.formatted@),
            escape_free(self@.original@) && escape_free(self@.formatted@) ==> without_colors(
                res@,
                false,
            ) == patch(self@.original@, self@.formatted@),
    {
        colored_patch_text(self.diff.original.as_str(), self.diff.formatted.as_str())
    }

    /// The difference as it is printed for debugging, without colors.
    pub fn debug(&self) -> (res: String)
        ensures
            res@ == colored_debug(file_diff_debug(patch(self@.original@, self@.formatted@))),
    {
        colored_debug_text(&self.diff.debug())
    }
}

// --- Outcomes ---

/// An output from file formatting.
///
/// Differentiates between already formatted files and files that differ after formatting.
/// Contains the original file content and the formatted file content.
pub enum FormatOutcome {
    Identical(String),
    DiffFound(FileDiff),
}

impl FormatOutcome {
    /// The text after formatting.
    pub open spec fn output_text(self) -> Seq<char> {
        match self {
            FormatOutcome::Identical(original) => original@,
            FormatOutcome::DiffFound(diff) => diff.formatted@,
        }
    }

    pub fn into_output_text(self) -> (res: String)
        ensures
            res@ == self.output_text(),
    {
        match self {
            FormatOutcome::Identical(original) => original,
            FormatOutcome::DiffFound(diff) => diff.formatted,
        }
    }
}

/// An error thrown while trying to format Cairo code.
pub enum FormattingError {
    /// A parsing error has occurred. See diagnostics for context.
    ParsingError(ParsingError),
    /// All other errors, as they are displayed.
    Error(String),
}

/// Parsing error representation with diagnostic entries.
pub struct ParsingError(Vec<FormattedDiagnosticEntry>);

impl View for ParsingError {
    type V = Seq<FormattedDiagnosticEntry>;

    closed spec fn view(&self) -> Seq<FormattedDiagnosticEntry> {
        self.0@
    }
}

/// The texts of diagnostics, each on a line of its own.
pub open spec fn diagnostic_lines(entries: Seq<FormattedDiagnosticEntry<Seq<char>>>) -> Seq<char>
    decreases entries.len(),
{
    if entries.len() == 0 {
        seq![]
    } else {
        diagnostic_lines(entries.drop_last()) + entries.last().text + "\n"@
    }
}

impl ParsingError {
    /// The diagnostics of the error.
    pub fn iter(&self) -> (res: &Vec<FormattedDiagnosticEntry>)
        ensures
            res@ == self@,
    {
        &self.0
    }

    /// The error as it is displayed.
    pub fn display(&self) -> (res: String)
        ensures
            res@ == diagnostic_lines(diagnostic_views(self@)),
    {
        let ghost views = diagnostic_views(self@);
        let mut res = String::new();
        let mut i: usize = 0;
        while i < self.0.len()
            invariant
                i <= self.0.len(),
                views == diagnostic_views(self.0@),
                res@ == diagnostic_lines(views.take(i as int)),
            decreases self.0.len() - i,
        {
            res.append(self.0[i].text.as_str());
            res.append("\n");
            proof {
                let next = views.take(i + 1);
                assert(next.drop_last() =~= views.take(i as int));
                assert(next.last() == self.0@[i as int]@);
            }
            i += 1;
        }
        assert(views.take(i as int) =~= views);
        res
    }

    pub closed spec fn of(entries: Vec<FormattedDiagnosticEntry>) -> ParsingError {
        ParsingError(entries)
    }

    pub closed spec fn entries(self) -> Vec<FormattedDiagnosticEntry> {
        self.0
    }
}

impl From<ParsingError> for Vec<FormattedDiagnosticEntry> {
    fn from(error: ParsingError) -> (res: Self)
        ensures
            res@ == error@,
    {
        error.0
    }
}

impl vstd::std_specs::convert::FromSpecImpl<ParsingError> for Vec<FormattedDiagnosticEntry> {
    open spec fn obeys_from_spec() -> bool {
        true
    }

    open spec fn from_spec(error: ParsingError) -> Self {
        error.entries()
    }
}

impl From<Vec<FormattedDiagnosticEntry>> for ParsingError {
    fn from(diagnostics: Vec<FormattedDiagnosticEntry>) -> (res: Self)
        ensures
            res@ == diagnostics@,
    {
        ParsingError(diagnostics)
    }
}

impl vstd::std_specs::convert::FromSpecImpl<Vec<FormattedDiagnosticEntry>> for ParsingError {
    open spec fn obeys_from_spec() -> bool {
        true
    }

    open spec fn from_spec(diagnostics: Vec<FormattedDiagnosticEntry>) -> Self {
        ParsingError::of(diagnostics)
    }
}

/// An error that is turned into its diagnostics and back is the same error.
pub proof fn law_parsing_error_round_trip(
    error: ParsingError,
    entries: Vec<FormattedDiagnosticEntry>,
)
    ensures
        ParsingError::of(error.entries()) == error,
        ParsingError::of(entries).entries() == entries,
        ParsingError::of(entries)@ == entries@,
{
}

/// An error as it is displayed.
pub open spec fn error_text(error: FormattingError) -> Seq<char> {
    match error {
        FormattingError::ParsingError(e) => diagnostic_lines(diagnostic_views(e@)),
        FormattingError::Error(text) => text@,
    }
}

impl FormattingError {
    /// The error as it is displayed.
    pub fn display(&self) -> (res: String)
        ensures
            res@ == error_text(*self),
    {
        match self {
            FormattingError::ParsingError(e) => e.display(),
            FormattingError::Error(text) => text.clone(),
        }
    }
}

// --- Inputs ---

/// A struct used to indicate that the formatter input should be read from stdin.
pub struct StdinFmt;

impl StdinFmt {
    /// The file of what was read from stdin.
    pub fn to_file_id(&self, db: &mut SimpleParserDatabase, buffer: String) -> (res: FileId)
        ensures
            old(db).with_file(*final(db), module_file("<stdin>"@, buffer@)),
            final(db).has_file(res),
            final(db).spec_file_long(res) == module_file("<stdin>"@, buffer@),
    {
        db.intern_file(new_module_file("<stdin>", buffer))
    }
}

/// The file of a text that is formatted.
pub fn string_to_file_id(db: &mut SimpleParserDatabase, content: &String) -> (res: FileId)
    ensures
        old(db).with_file(*final(db), module_file("string_to_format"@, content@)),
        final(db).has_file(res),
        final(db).spec_file_long(res) == module_file("string_to_format"@, content@),
{
    db.intern_file(new_module_file("string_to_format", content.clone()))
}

// --- Formatting ---

/// How files are formatted.
#[derive(Clone, Copy, PartialEq, Eq, Structural, Debug)]
pub struct FormatterConfig(pub u64);

/// A syntax tree, and how it is formatted.
#[derive(Clone, Copy, PartialEq, Eq, Structural, Debug)]
pub struct FormatQuestion {
    pub root: SyntaxNode,
    pub config: FormatterConfig,
}

impl View for FormatQuestion {
    type V = FormatQuestion;

    open spec fn view(&self) -> FormatQuestion {
        *self
    }
}

impl Key for FormatQuestion {
    fn same(&self, other: &Self) -> (res: bool) {
        *self == *other
    }

    fn dup(&self) -> (res: Self) {
        *self
    }
}

/// A database for formatting: the parsed files, and their formatted texts.
pub struct FormatterDatabase {
    pub parser: SimpleParserDatabase,
    pub formatted: OrderedHashMap<FormatQuestion, String>,
}

/// What comes of formatting a file.
#[verifier::ext_equal]
pub ghost enum Verdict {
    /// The file cannot be made.
    NoFile,
    /// The file cannot be read.
    Unreadable,
    /// The file cannot be parsed.
    Unparsable(Seq<FormattedDiagnosticEntry<Seq<char>>>),
    /// The file has a formatted text.
    Formatted { original: Seq<char>, formatted: Seq<char> },
}

impl FormatterDatabase {
    /// What comes of formatting a file.
    pub open spec fn verdict(
        self,
        file_id: Result<FileId, String>,
        config: FormatterConfig,
    ) -> Verdict {
        match file_id {
            Err(_) => Verdict::NoFile,
            Ok(id) => {
                let file = self.parser.spec_file_long(id);
                match self.parser.spec_file_content(file) {
                    None => Verdict::Unreadable,
                    Some(original) => {
                        let input = ParseInput::File(original);
                        let diagnostics = self.parser.spec_diagnostics(file, input);
                        if error_free(diagnostics) {
                            let root = self.parser.spec_root(file, input);
                            Verdict::Formatted {
                                original,
                                formatted: lookup(
                                    self.formatted@,
                                    FormatQuestion { root, config },
                                )->0@,
                            }
                        } else {
                            Verdict::Unparsable(diagnostics)
                        }
                    },
                }
            },
        }
    }

    /// Whether a file was parsed, and formatted where it has no errors.
    pub open spec fn can_format(
        self,
        file_id: Result<FileId, String>,
        config: FormatterConfig,
    ) -> bool {
        file_id matches Ok(id) ==> {
            let file = self.parser.spec_file_long(id);
            &&& self.parser.has_file(id)
            &&& self.parser.spec_file_content(file) matches Some(original) ==> {
                let input = ParseInput::File(original);
                let root = self.parser.spec_root(file, input);
                &&& self.parser.has_parse(file, input)
                &&& error_free(self.parser.spec_diagnostics(file, input)) ==> lookup(
                    self.formatted@,
                    FormatQuestion { root, config },
                ) is Some
            }
        }
    }
}

/// Whether a result is that of a verdict.
pub open spec fn is_verdict(
    res: Result<FormatOutcome, FormattingError>,
    verdict: Verdict,
) -> bool {
    match verdict {
        Verdict::NoFile => res matches Err(FormattingError::Error(text)) && text@
            == "Unable to create virtual file."@,
        Verdict::Unreadable => res matches Err(FormattingError::Error(text)) && text@
            == "Unable to read from input."@,
        Verdict::Unparsable(diagnostics) => res matches Err(FormattingError::ParsingError(e))
            && diagnostic_views(e@) == diagnostics,
        Verdict::Formatted { original, formatted } => if formatted == original {
            res matches Ok(FormatOutcome::Identical(text)) && text@ == original
        } else {
            res matches Ok(FormatOutcome::DiffFound(diff)) && diff.original@ == original
                && diff.formatted@ == formatted
        },
    }
}

/// The outcome of formatting a text: the text itself, where it is formatted already.
pub fn compare_texts(original_text: String, formatted_text: String) -> (res: FormatOutcome)
    ensures
        is_verdict(
            Ok(res),
            Verdict::Formatted { original: original_text@, formatted: formatted_text@ },
        ),
{
    if formatted_text == original_text {
        FormatOutcome::Identical(original_text)
    } else {
        FormatOutcome::DiffFound(FileDiff { original: original_text, formatted: formatted_text })
    }
}

/// Formats a file. A file that could not be made is handed on as the reason.
pub fn format_input(
    db: &FormatterDatabase,
    file_id: Result<FileId, String>,
    config: &FormatterConfig,
) -> (res: Result<FormatOutcome, FormattingError>)
    requires
        db.can_format(file_id, *config),
    ensures
        is_verdict(res, db.verdict(file_id, *config)),
{
    let file_id = match file_id {
        Ok(id) => id,
        Err(_) => return Err(
            FormattingError::Error(String::from_str("Unable to create virtual file.")),
        ),
    };
    let original_text = match db.parser.file_content(file_id) {
        Some(text) => text,
        None => return Err(
            FormattingError::Error(String::from_str("Unable to read from input.")),
        ),
    };
    let (syntax_root, diagnostics) = get_syntax_root_and_diagnostics(
        &db.parser,
        file_id,
        original_text.as_str(),
    );
    if diagnostics.check_error_free().is_err() {
        return Err(
            FormattingError::ParsingError(ParsingError::from(diagnostics.format_with_severity())),
        );
    }
    let question = FormatQuestion { root: syntax_root, config: *config };
    let formatted_text = match db.formatted.get(&question) {
        Some(text) => text.clone(),
        None => {
            assert(false);
            vstd::pervasive::unreached()
        },
    };
    Ok(compare_texts(original_text, formatted_text))
}

/// How far formatting in place has come.
pub enum InPlace {
    /// There is nothing to write.
    Done(Result<FormatOutcome, FormattingError>),
    /// The formatted text is to be written.
    Overwrite(FileDiff),
}

/// How a directory is walked: which files are formatted.
#[verifier::ext_equal]
pub struct WalkConfig<T = String> {
    /// The name of the files that list what is left out.
    pub ignore_filename: T,
    pub follow_links: bool,
    pub skip_stdout: bool,
    /// The type of the files that are kept, and the glob that they match.
    pub file_type: T,
    pub file_glob: T,
}

impl View for WalkConfig {
    type V = WalkConfig<Seq<char>>;

    open spec fn view(&self) -> WalkConfig<Seq<char>> {
        WalkConfig {
            ignore_filename: self.ignore_filename@,
            follow_links: self.follow_links,
            skip_stdout: self.skip_stdout,
            file_type: self.file_type@,
            file_glob: self.file_glob@,
        }
    }
}

/// A struct for formatting cairo files.
///
/// Allows formatting in place, and for formatting to a string.
pub struct CairoFormatter {
    formatter_config: FormatterConfig,
}

impl CairoFormatter {
    pub closed spec fn config(self) -> FormatterConfig {
        self.formatter_config
    }

    pub fn new(formatter_config: FormatterConfig) -> (res: Self)
        ensures
            res.config() == formatter_config,
    {
        Self { formatter_config }
    }

    /// How a directory is walked that is formatted recursively: cairo files only, without those
    /// that the files named `.cairofmtignore` list.
    pub fn walk(&self) -> (res: WalkConfig)
        ensures
            res@ == (WalkConfig {
                ignore_filename: ".cairofmtignore"@,
                follow_links: false,
                skip_stdout: true,
                file_type: "cairo"@,
                file_glob: "*."@ + "cairo"@,
            }),
    {
        let file_type = String::from_str("cairo");
        let mut file_glob = String::from_str("*.");
        file_glob.append(file_type.as_str());
        WalkConfig {
            ignore_filename: String::from_str(".cairofmtignore"),
            follow_links: false,
            skip_stdout: true,
            file_type,
            file_glob,
        }
    }

    /// Formats the file in place: says what is to be written, where the text changes.
    pub fn format_in_place(&self, db: &FormatterDatabase, file_id: Result<FileId, String>) -> (res:
        InPlace)
        requires
            db.can_format(file_id, self.config()),
        ensures
            match db.verdict(file_id, self.config()) {
                Verdict::Formatted { original, formatted } if original != formatted => res matches
                    InPlace::Overwrite(diff) && diff.original@ == original && diff.formatted@
                    == formatted,
                verdict => res matches InPlace::Done(result) && is_verdict(result, verdict),
            },
    {
        match format_input(db, file_id, &self.formatter_config) {
            Ok(FormatOutcome::DiffFound(diff)) => InPlace::Overwrite(diff),
            Ok(FormatOutcome::Identical(original)) => InPlace::Done(
                Ok(FormatOutcome::Identical(original)),
            ),
            Err(e) => InPlace::Done(Err(e)),
        }
    }

    /// Ends formatting in place, after the formatted text was written or could not be.
    pub fn finish_in_place(&self, diff: FileDiff, written: Result<(), String>) -> (res: Result<
        FormatOutcome,
        FormattingError,
    >)
        ensures
            match written {
                Ok(_) => res == Ok::<_, FormattingError>(FormatOutcome::DiffFound(diff)),
                Err(text) => res == Err::<FormatOutcome, _>(FormattingError::Error(text)),
            },
    {
        match written {
            Ok(_) => Ok(FormatOutcome::DiffFound(diff)),
            Err(text) => Err(FormattingError::Error(text)),
        }
    }

    /// Formats the file and returns the formatted string.
    /// No changes are persisted. The original file is not modified.
    pub fn format_to_string(&self, db: &FormatterDatabase, file_id: Result<FileId, String>) -> (res:
        Result<FormatOutcome, FormattingError>)
        requires
            db.can_format(file_id, self.config()),
        ensures
            is_verdict(res, db.verdict(file_id, self.config())),
    {
        format_input(db, file_id, &self.formatter_config)
    }
}

/// Where a file has a formatted text, formatting succeeds, and the text after it is that text.
pub proof fn law_output_is_the_formatted_text(
    res: Result<FormatOutcome, FormattingError>,
    original: Seq<char>,
    formatted: Seq<char>,
)
    requires
        is_verdict(res, Verdict::Formatted { original, formatted }),
    ensures
        res matches Ok(outcome) && outcome.output_text() == formatted,
        (res matches Ok(FormatOutcome::Identical(_))) == (original == formatted),
{
}

/// Formatting in place comes to what formatting to a string does, once the text is written.
pub proof fn law_in_place_agrees_with_to_string(
    diff: FileDiff,
    res: Result<FormatOutcome, FormattingError>,
    original: Seq<char>,
    formatted: Seq<char>,
)
    requires
        original != formatted,
        is_verdict(res, Verdict::Formatted { original, formatted }),
        diff.original@ == original,
        diff.formatted@ == formatted,
    ensures
        is_verdict(
            Ok(FormatOutcome::DiffFound(diff)),
            Verdict::Formatted { original, formatted },
        ),
        res matches Ok(FormatOutcome::DiffFound(d)) && d.original@ == diff.original@
            && d.formatted@ == diff.formatted@,
{
}

// --- Laws ---

/// A file that can be read is formatted exactly if it is parsed without errors, and comes to the
/// text that is recorded for its syntax tree. Where it is parsed with errors, these are all handed
/// back.
pub proof fn law_files_are_formatted_by_their_tree(
    db: FormatterDatabase,
    id: FileId,
    config: FormatterConfig,
    res: Result<FormatOutcome, FormattingError>,
    original: Seq<char>,
    parse: ParseOutcome,
)
    requires
        db.can_format(Ok(id), config),
        is_verdict(res, db.verdict(Ok(id), config)),
        match db.parser.files@[id.0 as int] {
            FileLongId::OnDisk(path) => lookup(db.parser.disk@, path) matches Some(text) && text@
                == original,
            FileLongId::Virtual(file) => file.content == original,
        },
        lookup(
            db.parser.parses@,
            (db.parser.files@[id.0 as int], ParseInput::File(original)),
        ) == Some(parse),
    ensures
        (exists|i: int|
            0 <= i < parse.diagnostics@.len() && (#[trigger] parse.diagnostics@[i]).severity
                == Severity::Error) ==> (res matches Err(FormattingError::ParsingError(e))
            && diagnostic_views(e@) == parse.diagnostics@),
        (forall|i: int|
            0 <= i < parse.diagnostics@.len() ==> (#[trigger] parse.diagnostics@[i]).severity
                == Severity::Warning) ==> (lookup(
            db.formatted@,
            FormatQuestion { root: parse.root, config },
        ) matches Some(formatted) && match res {
            Ok(FormatOutcome::Identical(text)) => text@ == original && original == formatted@,
            Ok(FormatOutcome::DiffFound(diff)) => diff.original@ == original && diff.formatted@
                == formatted@ && original != formatted@,
            Err(_) => false,
        }),
{
    if exists|i: int|
        0 <= i < parse.diagnostics@.len() && (#[trigger] parse.diagnostics@[i]).severity
            == Severity::Error {
        assert(!error_free(parse.diagnostics@));
    }
    if forall|i: int|
        0 <= i < parse.diagnostics@.len() ==> (#[trigger] parse.diagnostics@[i]).severity
            == Severity::Warning {
        assert(error_free(parse.diagnostics@));
    }
}

/// A file that could not be made, or that cannot be read, is not formatted; the two are told apart.
pub proof fn law_missing_files_are_not_formatted(
    db: FormatterDatabase,
    file_id: Result<FileId, String>,
    config: FormatterConfig,
    res: Result<FormatOutcome, FormattingError>,
)
    requires
        is_verdict(res, db.verdict(file_id, config)),
    ensures
        file_id is Err ==> (res matches Err(FormattingError::Error(text)) && text@
            == "Unable to create virtual file."@),
        file_id matches Ok(id) ==> (db.parser.files@[id.0 as int] matches FileLongId::OnDisk(path)
            ==> (lookup(db.parser.disk@, path) is None ==> (res matches Err(
            FormattingError::Error(text),
        ) && text@ == "Unable to read from input."@))),
{
}

/// The diagnostics of an error are displayed one by one, each on a line of its own.
pub proof fn law_diagnostics_are_displayed_line_by_line(
    entries: Seq<FormattedDiagnosticEntry<Seq<char>>>,
    entry: FormattedDiagnosticEntry<Seq<char>>,
)
    ensures
        diagnostic_lines(seq![]) == Seq::<char>::empty(),
        diagnostic_lines(entries.push(entry)) == diagnostic_lines(entries) + entry.text + seq!['\n'],
{
    reveal_strlit("\n");
    assert("\n"@ =~= seq!['\n']);
    assert(entries.push(entry).drop_last() =~= entries);
}

} // verus!
