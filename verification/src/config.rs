//! The per-test configuration embedded in a function's documentation
//! comment, and the remapping of a parse failure back to the original file
//! position.
//!
//! The comment extractor yields the configuration document together with a
//! position map (`ConfigLine`). The document itself is parsed outside the
//! crate; the caller hands back either the parsed configuration or the
//! parser's message and byte span, and `config_from_outcome` turns a failure
//! into a source-located alert.

use vstd::prelude::*;
use vstd::string::StringExecFns;
use crate::comments::ConfigLine;
use crate::bytes::lines_in;
use crate::bytes::last_line_col;
use crate::bytes::count_nl;
use crate::bytes::last_line_len;
use crate::bytes::lemma_count_nl_le;
use crate::comments::contents_of;
use crate::comments::joined;
use crate::error::Alert;
use crate::error::AlertCode;
use crate::error::AlertCodeFix;
use crate::error::AlertExample;
use crate::error::AlertInfo;
use crate::text::spec_cleaned;
use crate::text::spec_decimal;
use crate::text::clean_message;
use crate::text::append_str;
use crate::text::append_decimal;

verus! {

/// Switches a test can set in its comment.
#[derive(Debug)]
pub struct Settings {
    /// Run the test at all. On by default.
    pub run: bool,
    /// Show the test's standard output while it runs.
    pub stdout: bool,
    /// Allow input on standard input while it runs.
    pub stdin: bool,
}

/// Flags and libraries appended to the compiler invocation.
#[derive(Debug)]
pub struct CompilerAppend {
    pub flags: Vec<String>,
    pub libraries: Vec<String>,
}

/// One replacement of an existing flag or library.
#[derive(Debug)]
pub struct CompilerReplaceItem {
    /// What to look for.
    pub old: String,
    /// What to put in its place.
    pub new: String,
}

/// Replacements applied to the flag and library lists.
#[derive(Debug)]
pub struct CompilerReplace {
    pub flag: Vec<CompilerReplaceItem>,
    pub library: Vec<CompilerReplaceItem>,
}

/// Compiler overrides a test can set in its comment.
#[derive(Debug)]
pub struct Compiler {
    pub name: Option<String>,
    pub flags: Vec<String>,
    pub libraries: Vec<String>,
    pub append: Option<CompilerAppend>,
    pub replace: Option<CompilerReplace>,
}

/// Everything a test's embedded configuration can say.
#[derive(Debug)]
pub struct Config {
    pub settings: Settings,
    pub compiler: Compiler,
    /// Shell commands to run before the test.
    pub commands: Vec<String>,
}

/// The default for each plain settings flag when the comment leaves it
/// unset.
pub fn settings_bool_init() -> (r: bool)
    ensures
        r == false,
{
    false
}

impl Default for Settings {
    /// Unset settings run the test, and keep its input and output closed.
    fn default() -> (r: Settings)
        ensures
            r.run == true,
            r.stdout == false,
            r.stdin == false,
    {
        Settings { run: true, stdout: false, stdin: false }
    }
}

impl Default for CompilerAppend {
    fn default() -> (r: CompilerAppend)
        ensures
            r.flags@ == Seq::<String>::empty(),
            r.libraries@ == Seq::<String>::empty(),
    {
        CompilerAppend { flags: Vec::new(), libraries: Vec::new() }
    }
}

impl Default for CompilerReplace {
    fn default() -> (r: CompilerReplace)
        ensures
            r.flag@ == Seq::<CompilerReplaceItem>::empty(),
            r.library@ == Seq::<CompilerReplaceItem>::empty(),
    {
        CompilerReplace { flag: Vec::new(), library: Vec::new() }
    }
}

impl Default for Compiler {
    /// An unset compiler override: no name, nothing added or replaced.
    fn default() -> (r: Compiler)
        ensures
            r.name is None,
            r.flags@ == Seq::<String>::empty(),
            r.libraries@ == Seq::<String>::empty(),
            r.append is None,
            r.replace is None,
    {
        Compiler { name: None, flags: Vec::new(), libraries: Vec::new(), append: None, replace: None }
    }
}

/// The configuration of a test whose comment says nothing: run it, keep its
/// input and output closed, override nothing.
pub open spec fn is_default_config(c: Config) -> bool {
    &&& c.settings.run == true
    &&& c.settings.stdout == false
    &&& c.settings.stdin == false
    &&& c.compiler.name is None
    &&& c.compiler.flags@ == Seq::<String>::empty()
    &&& c.compiler.libraries@ == Seq::<String>::empty()
    &&& c.compiler.append is None
    &&& c.compiler.replace is None
    &&& c.commands@ == Seq::<String>::empty()
}

impl Default for Config {
    /// The configuration of a test whose comment says nothing.
    fn default() -> (r: Config)
        ensures
            is_default_config(r),
    {
        Config { settings: Settings::default(), compiler: Compiler::default(), commands: Vec::new() }
    }
}

/// What the configuration parser reported for one document.
#[derive(Debug)]
pub enum DocumentOutcome {
    /// The document parsed; here is the configuration.
    Parsed(Config),
    /// The document was rejected with a message, and, when the parser could
    /// recover one, the byte offset into the document where the error
    /// starts.
    ParseError { message: String, span_start: Option<usize> },
}

/// Scan `s[0..upto]` and report how many lines it holds and the length of
/// its last line, the way the original file position of a parse error is
/// recovered from its byte offset.
fn prefix_position(s: &Vec<u8>, upto: usize) -> (r: (usize, usize))
    requires
        upto <= s@.len(),
    ensures
        r.0 == lines_in(s@.take(upto as int)),
        r.1 == last_line_col(s@.take(upto as int)),
{
    let mut cnt: usize = 0;
    let mut cur: usize = 0;
    let mut prev: usize = 0;
    let mut i: usize = 0;
    proof {
        assert(s@.take(0) =~= Seq::<u8>::empty());
    }
    while i < upto
        invariant
            i <= upto <= s@.len(),
            cnt == count_nl(s@.take(i as int)),
            cur == last_line_len(s@.take(i as int)),
            i > 0 ==> prev == last_line_len(s@.take(i - 1)),
            cnt <= i,
            cur <= i,
        decreases upto - i,
    {
        proof {
            assert(s@.take(i + 1).drop_last() =~= s@.take(i as int));
            assert(s@.take(i + 1).last() == s@[i as int]);
        }
        prev = cur;
        if s[i] == 10 {
            cnt = cnt + 1;
            cur = 0;
        } else {
            cur = cur + 1;
        }
        i = i + 1;
    }
    proof {
        assert(s@.take(upto as int).len() == upto as int);
        if upto > 0 {
            assert(s@.take(upto as int).last() == s@[upto - 1]);
            assert(s@.take(upto as int).drop_last() =~= s@.take(upto - 1));
        }
    }
    if upto == 0 {
        (0, 0)
    } else if s[upto - 1] == 10 {
        (cnt, prev)
    } else {
        proof {
            let pre = s@.take(upto as int);
            assert(count_nl(pre) == count_nl(pre.drop_last()));
            lemma_count_nl_le(pre.drop_last());
        }
        (cnt + 1, cur)
    }
}

/// Addition held at the machine's ceiling, for column sums that could not
/// occur in any real file.
pub open spec fn spec_sat_add(a: int, b: int) -> int {
    if a + b <= usize::MAX {
        a + b
    } else {
        usize::MAX as int
    }
}

fn sat_add(a: usize, b: usize) -> (r: usize)
    ensures
        r == spec_sat_add(a as int, b as int),
{
    if a <= usize::MAX - b {
        a + b
    } else {
        usize::MAX
    }
}

/// The caret comment of a remapped parse error: the cleaned parser message
/// followed by the original file position.
pub open spec fn positioned_message(msg: Seq<char>, line: nat, col: nat) -> Seq<char> {
    spec_cleaned(msg) + " on line "@ + spec_decimal(line) + ", column "@ + spec_decimal(col)
        + "."@
}

/// Where a recovered span start lands in the line list: the index of the
/// content line holding the offset, and the column inside that line.
pub open spec fn span_line_index(lines: Seq<ConfigLine>, start: int) -> int {
    lines_in(joined(contents_of(lines)).take(start)) - 1
}

pub open spec fn span_column(lines: Seq<ConfigLine>, start: int) -> int {
    last_line_col(joined(contents_of(lines)).take(start))
}

/// Turn the parser's verdict on a comment's configuration document into the
/// per-test configuration, or into an error pointing at the original file.
///
/// A parse failure with a recoverable span is remapped: the span's byte
/// offset into the joined document gives a content line index and column,
/// the line index leads back to the original file line, and the evidence
/// block shows the raw source line with a caret at the recovered column. A
/// failure without a span (or one at the very start of the document) keeps
/// the parser's message as a plain note.
pub fn config_from_outcome(
    lines: &Vec<ConfigLine>,
    path: String,
    outcome: DocumentOutcome,
) -> (r: Result<Config, Alert>)
    ensures
        match outcome {
            DocumentOutcome::Parsed(c) => r matches Ok(rc) && rc == c,
            DocumentOutcome::ParseError { message, span_start } => r matches Err(e)
                && outcome_error_alert(e, lines@, message@, span_start, path@),
        },
{
    match outcome {
        DocumentOutcome::Parsed(c) => Ok(c),
        DocumentOutcome::ParseError { message, span_start } => {
            match span_start {
                Some(start) => {
                    let jd = crate::comments::join_contents(lines);
                    if start > jd.len() {
                        return Err(no_span_error(&message));
                    }
                    let (nlines, col) = prefix_position(&jd, start);
                    if nlines == 0 || nlines > lines.len() {
                        Err(no_span_error(&message))
                    } else {
                        let li = nlines - 1;
                        let file_line = lines[li].line;
                        let total_col = sat_add(col, lines[li].column);
                        let mut comment = clean_message(message.as_str());
                        append_str(&mut comment, " on line ");
                        append_decimal(&mut comment, file_line);
                        append_str(&mut comment, ", column ");
                        append_decimal(&mut comment, total_col);
                        append_str(&mut comment, ".");
                        let code = crate::bytes::copy_range(
                            lines[li].original.as_slice(),
                            0,
                            lines[li].original.len(),
                        );
                        proof {
                            assert(code@ =~= lines@[li as int].original@);
                            assert(comment@ =~= positioned_message(
                                message@,
                                file_line as nat,
                                total_col as nat,
                            ));
                        }
                        let mut fix: Vec<AlertCodeFix> = Vec::new();
                        fix.push(AlertCodeFix { relative_line: 0, column: total_col, comment });
                        Err(
                            Alert::Error(
                                AlertInfo {
                                    description: String::from_str(
                                        "failed to parse TOML from comment into a Config type.",
                                    ),
                                    note: Vec::new(),
                                    example: Some(
                                        AlertExample::Code(
                                            AlertCode { line: file_line, code, file: path, fix },
                                        ),
                                    ),
                                    debug: Vec::new(),
                                },
                            ),
                        )
                    }
                },
                None => Err(no_span_error(&message)),
            }
        },
    }
}

/// The alert that a rejected configuration document yields: remapped onto
/// the original file when the span allows it, a plain note otherwise.
pub open spec fn outcome_error_alert(
    a: Alert,
    lines: Seq<ConfigLine>,
    msg: Seq<char>,
    span_start: Option<usize>,
    path: Seq<char>,
) -> bool {
    &&& a.is_error()
    &&& a.spec_info().description@ == "failed to parse TOML from comment into a Config type."@
    &&& a.spec_info().debug@ == Seq::<crate::error::AlertDebug>::empty()
    &&& if span_remaps(lines, span_start) {
        remapped_alert(a, lines, msg, span_start->0 as int, path)
    } else {
        no_span_alert(a, msg)
    }
}

/// Whether a reported span start can be remapped onto the line list: it must
/// exist, lie inside the joined document, and land on a content line.
pub open spec fn span_remaps(lines: Seq<ConfigLine>, span_start: Option<usize>) -> bool {
    &&& span_start is Some
    &&& span_start->0 <= joined(contents_of(lines)).len()
    &&& 1 <= lines_in(joined(contents_of(lines)).take(span_start->0 as int)) <= lines.len()
}

/// What an alert looks like when the parser recovered no usable span: the
/// cleaned message stays in a plain note.
pub open spec fn no_span_alert(a: Alert, msg: Seq<char>) -> bool {
    &&& a.spec_info().example is None
    &&& a.spec_info().note@.len() == 2
    &&& a.spec_info().note@[0]@ == "no error span was recovered, here is the error message:"@
    &&& a.spec_info().note@[1]@ == spec_cleaned(msg)
}

/// What a remapped alert looks like: evidence shows the raw source line of
/// the offending content line, with one caret at the recovered column and
/// the positioned message.
pub open spec fn remapped_alert(
    a: Alert,
    lines: Seq<ConfigLine>,
    msg: Seq<char>,
    start: int,
    path: Seq<char>,
) -> bool {
    let li = span_line_index(lines, start);
    let col = span_column(lines, start);
    &&& a.spec_info().note@.len() == 0
    &&& a.spec_info().example matches Some(AlertExample::Code(_))
    &&& {
        let c = a.spec_info().example->Some_0->Code_0;
        &&& c.line == lines[li].line
        &&& c.file@ == path
        &&& c.code@ == lines[li].original@
        &&& c.fix@.len() == 1
        &&& c.fix@[0].relative_line == 0
        &&& c.fix@[0].column == spec_sat_add(col, lines[li].column as int)
        &&& c.fix@[0].comment@ == positioned_message(
            msg,
            lines[li].line as nat,
            spec_sat_add(col, lines[li].column as int) as nat,
        )
    }
}

/// The alert used when no span can be remapped.
fn no_span_error(message: &String) -> (r: Alert)
    ensures
        r.is_error(),
        r.spec_info().description@ == "failed to parse TOML from comment into a Config type."@,
        r.spec_info().debug@ == Seq::<crate::error::AlertDebug>::empty(),
        no_span_alert(r, message@),
{
    let mut note: Vec<String> = Vec::new();
    note.push(String::from_str("no error span was recovered, here is the error message:"));
    note.push(clean_message(message.as_str()));
    Alert::Error(
        AlertInfo {
            description: String::from_str("failed to parse TOML from comment into a Config type."),
            note,
            example: None,
            debug: Vec::new(),
        },
    )
}


/// What the alert of a rejected configuration file looks like when its span
/// was remapped: the whole file is the evidence, the caret sits at the line
/// and column counted up to the span's start, and the comment repeats the
/// cleaned message with that position.
pub open spec fn file_error_alert(
    a: Alert,
    text: Seq<u8>,
    description: Seq<char>,
    msg: Seq<char>,
    start: int,
    path: Seq<char>,
) -> bool {
    let line = lines_in(text.take(start));
    let col = last_line_col(text.take(start));
    &&& a.is_error()
    &&& a.spec_info().description@ == description
    &&& a.spec_info().note@.len() == 0
    &&& a.spec_info().example matches Some(AlertExample::Code(_))
    &&& {
        let c = a.spec_info().example->Some_0->Code_0;
        &&& c.line == line
        &&& c.file@ == path
        &&& c.code@ == text
        &&& c.fix@.len() == 1
        &&& c.fix@[0].relative_line == line - 1
        &&& c.fix@[0].column == col
        &&& c.fix@[0].comment@ == positioned_message(msg, line as nat, col as nat)
    }
}

/// What the fallback alert of a rejected configuration file looks like: the
/// cleaned message stays in a plain note.
pub open spec fn file_error_note_alert(a: Alert, description: Seq<char>, msg: Seq<char>) -> bool {
    &&& a.is_error()
    &&& a.spec_info().description@ == description
    &&& a.spec_info().example is None
    &&& a.spec_info().note@.len() == 2
    &&& a.spec_info().note@[0]@ == "no error span was recovered, here is the error message:"@
    &&& a.spec_info().note@[1]@ == spec_cleaned(msg)
}

impl Alert {
    /// The error for a configuration file its parser rejected with a byte
    /// span: the span start is counted into a line and column of the file and
    /// the whole file becomes the evidence. A span that is missing, lies past
    /// the text, or sits before any line falls back to a plain note.
    pub fn from_document_span(
        text: &Vec<u8>,
        path: String,
        description: &str,
        message: &String,
        span_start: Option<usize>,
    ) -> (r: Alert)
        ensures
            ({
                let remaps = {
                    &&& span_start is Some
                    &&& span_start->0 <= text@.len()
                    &&& lines_in(text@.take(span_start->0 as int)) >= 1
                };
                if remaps {
                    file_error_alert(
                        r,
                        text@,
                        description@,
                        message@,
                        span_start->0 as int,
                        path@,
                    )
                } else {
                    file_error_note_alert(r, description@, message@)
                }
            }),
    {
        let start = match span_start {
            Some(start) if start <= text.len() => start,
            _ => {
                return Alert::file_note_error(description, message);
            },
        };
        let (line, col) = prefix_position(text, start);
        if line == 0 {
            return Alert::file_note_error(description, message);
        }
        let mut comment = clean_message(message.as_str());
        append_str(&mut comment, " on line ");
        append_decimal(&mut comment, line);
        append_str(&mut comment, ", column ");
        append_decimal(&mut comment, col);
        append_str(&mut comment, ".");
        proof {
            assert(comment@ =~= positioned_message(message@, line as nat, col as nat));
        }
        let code = crate::bytes::copy_range(text.as_slice(), 0, text.len());
        proof {
            assert(code@ =~= text@);
        }
        let mut fix: Vec<AlertCodeFix> = Vec::new();
        fix.push(AlertCodeFix { relative_line: line - 1, column: col, comment });
        Alert::Error(
            AlertInfo {
                description: String::from_str(description),
                note: Vec::new(),
                example: Some(AlertExample::Code(AlertCode { line, code, file: path, fix })),
                debug: Vec::new(),
            },
        )
    }

    /// The error for a configuration file its parser rejected at a line and
    /// column it names itself: the whole file becomes the evidence and the
    /// parser's message stays unchanged in the caret comment.
    pub fn from_located_message(
        text: &Vec<u8>,
        path: String,
        description: &str,
        message: String,
        line: usize,
        column: usize,
    ) -> (r: Alert)
        requires
            line >= 1,
        ensures
            r.is_error(),
            r.spec_info().description@ == description@,
            r.spec_info().note@.len() == 0,
            r.spec_info().example matches Some(AlertExample::Code(c)) && c.line == line && c.file@
                == path@ && c.code@ == text@ && c.fix@.len() == 1 && c.fix@[0].relative_line == line
                - 1 && c.fix@[0].column == column && c.fix@[0].comment@ == message@,
    {
        let code = crate::bytes::copy_range(text.as_slice(), 0, text.len());
        proof {
            assert(code@ =~= text@);
        }
        let mut fix: Vec<AlertCodeFix> = Vec::new();
        fix.push(AlertCodeFix { relative_line: line - 1, column, comment: message });
        Alert::Error(
            AlertInfo {
                description: String::from_str(description),
                note: Vec::new(),
                example: Some(AlertExample::Code(AlertCode { line, code, file: path, fix })),
                debug: Vec::new(),
            },
        )
    }

    /// The fallback when no span can be placed in the file.
    fn file_note_error(description: &str, message: &String) -> (r: Alert)
        ensures
            file_error_note_alert(r, description@, message@),
    {
        let mut note: Vec<String> = Vec::new();
        note.push(String::from_str("no error span was recovered, here is the error message:"));
        note.push(clean_message(message.as_str()));
        Alert::Error(
            AlertInfo {
                description: String::from_str(description),
                note,
                example: None,
                debug: Vec::new(),
            },
        )
    }
}

} // verus!
