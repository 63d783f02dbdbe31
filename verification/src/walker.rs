//! The per-function step of test discovery, and the assembly of a file's
//! result.
//!
//! A caller walks the translation unit's syntax tree outside the crate and
//! hands in one `FunctionFacts` value per function body it meets, in file
//! order, together with the function's parsed configuration document. The
//! step classifies the function's name, records a byte-range modification
//! and a test record for a qualifying function, warns about a bare-prefix
//! name, and rejects a second entry point naming both positions.

use vstd::prelude::*;
use vstd::string::StringExecFns;
use vstd::string::StrSliceExecFns;
use crate::comments::ConfigLine;
use crate::comments::nth_line_of;
use crate::config::Config;
use crate::config::DocumentOutcome;
use crate::config::config_from_outcome;
use crate::config::outcome_error_alert;
use crate::config::is_default_config;
use crate::config::spec_sat_add;
use crate::environment::CleanRange;
use crate::environment::Environment;
use crate::environment::ranges_wf;
use crate::environment::removed;
use crate::environment::apply_back;
use crate::error::Alert;
use crate::error::AlertCode;
use crate::error::AlertCodeFix;
use crate::error::AlertExample;
use crate::error::AlertInfo;
use crate::extract::Function;
use crate::extract::ParsedFile;
use crate::extract::ParsedTest;
use crate::extract::Range;
use crate::text::spec_decimal;
use crate::text::append_str;
use crate::text::append_decimal;
use crate::text::str_eq;
use crate::text::substring_from;

verus! {

/// How a function's name classifies it.
#[derive(Clone, Copy, PartialEq, Eq, Structural, Debug)]
pub enum NameClass {
    /// Literally `main`.
    EntryPoint,
    /// The test prefix with a non-empty suffix.
    Test,
    /// The bare test prefix: warned about and skipped.
    PrefixOnly,
    /// Anything else: skipped silently.
    Other,
}

/// Whether the name is the entry point's.
pub open spec fn spec_is_entry(n: Seq<char>) -> bool {
    n == "main"@
}

/// Whether the name begins with the reserved test prefix.
pub open spec fn spec_has_prefix(n: Seq<char>) -> bool {
    n.len() >= 6 && n.take(6) == "cesty_"@
}

/// The classification a name receives.
pub open spec fn spec_name_class(n: Seq<char>) -> NameClass {
    if spec_is_entry(n) {
        NameClass::EntryPoint
    } else if spec_has_prefix(n) && n.len() == 6 {
        NameClass::PrefixOnly
    } else if spec_has_prefix(n) {
        NameClass::Test
    } else {
        NameClass::Other
    }
}

/// Classify a function name: the entry point, a test name with or without a
/// suffix after the reserved prefix, or something to skip.
pub fn name_class(name: &str) -> (r: NameClass)
    ensures
        r == spec_name_class(name@),
{
    proof {
        reveal_strlit("main");
        reveal_strlit("cesty_");
    }
    if str_eq(name, "main") {
        return NameClass::EntryPoint;
    }
    let n = name.unicode_len();
    if n < 6 {
        proof {
            assert(!spec_has_prefix(name@));
        }
        return NameClass::Other;
    }
    let prefix = "cesty_";
    let mut i: usize = 0;
    while i < 6
        invariant
            i <= 6 <= name@.len(),
            !spec_is_entry(name@),
            prefix@ == "cesty_"@,
            prefix@.len() == 6,
            forall|j: int| 0 <= j < i ==> name@[j] == prefix@[j],
        decreases 6 - i,
    {
        if name.get_char(i) != prefix.get_char(i) {
            proof {
                assert(name@.take(6)[i as int] == name@[i as int]);
            }
            return NameClass::Other;
        }
        i = i + 1;
    }
    proof {
        assert(name@.take(6) =~= "cesty_"@);
    }
    if n == 6 {
        NameClass::PrefixOnly
    } else {
        NameClass::Test
    }
}

/// The plain facts about one function with a body, as the syntax tree shows
/// them: name and signature spellings, the byte ranges of its template and
/// body, and the position of its declaration.
#[derive(Debug)]
pub struct FunctionFacts {
    pub name: String,
    pub returns: String,
    pub args: Vec<String>,
    /// Byte offset where the function (template) starts.
    pub template_start: usize,
    /// Byte offset where the body's opening brace starts.
    pub body_start: usize,
    /// Byte offset one past the body's closing brace.
    pub body_end: usize,
    /// 1-based line of the declaration.
    pub line: usize,
    /// Column of the declaration.
    pub column: usize,
}

/// The accumulator of one file's walk. One instance belongs to one file;
/// concurrent walks use independent instances.
#[derive(Debug)]
pub struct WalkState {
    /// The file under analysis, for diagnostics.
    pub path: String,
    /// Its full text.
    pub text: Vec<u8>,
    /// Tests discovered so far, in file order.
    pub tests: Vec<ParsedTest>,
    /// The entry point, once one is met.
    pub main: Option<ParsedTest>,
    /// Line of the recorded entry point.
    pub main_line: usize,
    /// Column of the recorded entry point.
    pub main_column: usize,
    /// Byte ranges to edit out during synthesis, in ascending order.
    pub clean: Vec<CleanRange>,
    /// Warnings accumulated so far.
    pub warnings: Vec<Alert>,
}

/// A walk state is well formed when its recorded ranges fit the text in
/// ascending disjoint order and the entry point's range fits the text.
pub open spec fn walk_wf(st: WalkState) -> bool {
    &&& ranges_wf(st.clean@, st.text@.len() as int)
    &&& (st.main matches Some(t) ==> t.range.template.0 <= t.range.body.1 <= st.text@.len())
}

impl WalkState {
    /// A fresh accumulator for one file.
    pub fn new(path: String, text: Vec<u8>) -> (r: WalkState)
        ensures
            r.path == path,
            r.text == text,
            r.tests@ == Seq::<ParsedTest>::empty(),
            r.main is None,
            r.clean@ == Seq::<CleanRange>::empty(),
            r.warnings@ == Seq::<Alert>::empty(),
            walk_wf(r),
    {
        WalkState {
            path,
            text,
            tests: Vec::new(),
            main: None,
            main_line: 0,
            main_column: 0,
            clean: Vec::new(),
            warnings: Vec::new(),
        }
    }
}

/// The warning for a function named by the bare prefix: it cannot be
/// addressed as a test and is skipped.
pub open spec fn prefix_warning(a: Alert, path: Seq<char>, text: Seq<u8>, facts: FunctionFacts) -> bool {
    &&& !a.is_error()
    &&& a.spec_info().description@ == "function only contains prefix part aka. `cesty_`"@
    &&& a.spec_info().note@.len() == 1
    &&& a.spec_info().note@[0]@ == "due to having no name the test will be ignored"@
    &&& a.spec_info().example matches Some(AlertExample::Code(_))
    &&& {
        let c = a.spec_info().example->Some_0->Code_0;
        &&& c.line == facts.line
        &&& c.file@ == path
        &&& c.code@ == text
        &&& c.fix@.len() == 1
        &&& c.fix@[0].relative_line == facts.line - 1
        &&& c.fix@[0].column == spec_sat_add(facts.column as int, 6)
        &&& c.fix@[0].comment@ == "add a name for the test like `sum_test` or anything you like`"@
    }
}

/// The caret comment of a duplicate entry point: where the first one was.
pub open spec fn dup_comment(line: nat, column: nat) -> Seq<char> {
    "already encountered a main() on line "@ + spec_decimal(line) + ", column "@ + spec_decimal(
        column,
    )
}

/// The error for a second entry point: evidence shows the second `main`'s
/// source line, and the caret comment names the first one's position.
pub open spec fn duplicate_main_alert(
    a: Alert,
    path: Seq<char>,
    text: Seq<u8>,
    prev_line: nat,
    prev_column: nat,
    facts: FunctionFacts,
) -> bool {
    &&& a.is_error()
    &&& a.spec_info().description@ == "file contains multiple main() functions"@
    &&& a.spec_info().note@.len() == 0
    &&& a.spec_info().example matches Some(AlertExample::Code(_))
    &&& {
        let c = a.spec_info().example->Some_0->Code_0;
        &&& c.line == facts.line
        &&& c.file@ == path
        &&& c.code@ == nth_line_of(text, facts.line - 1)
        &&& c.fix@.len() == 1
        &&& c.fix@[0].relative_line == 0
        &&& c.fix@[0].column == facts.column
        &&& c.fix@[0].comment@ == dup_comment(prev_line, prev_column)
    }
}

/// What a recorded test says about the function it came from: the name is
/// kept whole, `slice` is the part after the prefix, and the ranges are the
/// body itself and the template from the function's start to just before the
/// body.
pub open spec fn test_from(t: ParsedTest, facts: FunctionFacts, slice: Seq<char>) -> bool {
    &&& t.function.returns == facts.returns
    &&& t.function.name == facts.name
    &&& t.function.name_slice@ == slice
    &&& t.function.args == facts.args
    &&& t.range.template == (facts.template_start, (facts.body_start - 1) as usize)
    &&& t.range.body == (facts.body_start, facts.body_end)
}

/// How the configuration document's outcome lands in a test's configuration:
/// no comment means the default; a parsed document is taken as is.
pub open spec fn doc_config_spec(doc: Option<(Vec<ConfigLine>, DocumentOutcome)>, out: Config) -> bool {
    match doc {
        None => is_default_config(out),
        Some(d) => match d.1 {
            DocumentOutcome::Parsed(c) => out == c,
            DocumentOutcome::ParseError { .. } => false,
        },
    }
}

/// Whether the configuration document was rejected by its parser.
pub open spec fn doc_fails(doc: Option<(Vec<ConfigLine>, DocumentOutcome)>) -> bool {
    match doc {
        Some(d) => d.1 is ParseError,
        None => false,
    }
}

pub open spec fn doc_lines(doc: Option<(Vec<ConfigLine>, DocumentOutcome)>) -> Seq<ConfigLine> {
    match doc {
        Some(d) => d.0@,
        None => Seq::<ConfigLine>::empty(),
    }
}

pub open spec fn doc_message(doc: Option<(Vec<ConfigLine>, DocumentOutcome)>) -> Seq<char> {
    match doc {
        Some(d) => match d.1 {
            DocumentOutcome::ParseError { message, .. } => message@,
            _ => Seq::<char>::empty(),
        },
        None => Seq::<char>::empty(),
    }
}

pub open spec fn doc_span(doc: Option<(Vec<ConfigLine>, DocumentOutcome)>) -> Option<usize> {
    match doc {
        Some(d) => match d.1 {
            DocumentOutcome::ParseError { span_start, .. } => span_start,
            _ => None,
        },
        None => None,
    }
}

/// Process one function with a body. `doc` is the function's configuration
/// document, already recovered from its comment and parsed: the extracted
/// lines paired with the parser's verdict, or `None` when the function has
/// no documentation comment.
///
/// A name that is neither the entry point nor prefixed is skipped. The bare
/// prefix is warned about and skipped. A rejected document aborts the file.
/// The entry point records the removal of its whole template and body, and a
/// second entry point is an error naming both positions. A test function
/// records the neutralization of its body and one test record.
#[verifier::rlimit(30)]
pub fn step(
    state: &mut WalkState,
    facts: FunctionFacts,
    doc: Option<(Vec<ConfigLine>, DocumentOutcome)>,
) -> (r: Result<(), Alert>)
    requires
        walk_wf(*old(state)),
        1 <= facts.line,
        1 <= facts.body_start,
        facts.template_start <= facts.body_start - 1,
        facts.body_start <= facts.body_end <= old(state).text@.len(),
        old(state).clean@.len() > 0 ==> old(state).clean@.last().end <= facts.template_start,
    ensures
        final(state).path == old(state).path,
        final(state).text == old(state).text,
        r is Ok ==> walk_wf(*final(state)) && (final(state).clean@.len() > 0
            ==> final(state).clean@.last().end <= facts.body_end),
        r is Err ==> *final(state) == *old(state),
        ({
            let n = facts.name@;
            let cls = spec_name_class(n);
            if cls == NameClass::Other {
                r is Ok && *final(state) == *old(state)
            } else if cls == NameClass::PrefixOnly {
                &&& r is Ok
                &&& final(state).tests == old(state).tests
                &&& final(state).main == old(state).main
                &&& final(state).main_line == old(state).main_line
                &&& final(state).main_column == old(state).main_column
                &&& final(state).clean == old(state).clean
                &&& final(state).warnings@.len() == old(state).warnings@.len() + 1
                &&& final(state).warnings@.subrange(0, old(state).warnings@.len() as int)
                    == old(state).warnings@
                &&& prefix_warning(
                    final(state).warnings@.last(),
                    old(state).path@,
                    old(state).text@,
                    facts,
                )
            } else if doc_fails(doc) {
                r matches Err(a) && outcome_error_alert(
                    a,
                    doc_lines(doc),
                    doc_message(doc),
                    doc_span(doc),
                    old(state).path@,
                )
            } else if cls == NameClass::EntryPoint {
                if old(state).main is Some {
                    r matches Err(a) && duplicate_main_alert(
                        a,
                        old(state).path@,
                        old(state).text@,
                        old(state).main_line as nat,
                        old(state).main_column as nat,
                        facts,
                    )
                } else {
                    &&& r is Ok
                    &&& final(state).tests == old(state).tests
                    &&& final(state).warnings == old(state).warnings
                    &&& final(state).main matches Some(t) && test_from(t, facts, Seq::<char>::empty())
                        && doc_config_spec(doc, t.config)
                    &&& final(state).main_line == facts.line
                    &&& final(state).main_column == facts.column
                    &&& final(state).clean@ == old(state).clean@.push(
                        CleanRange {
                            start: facts.template_start,
                            end: facts.body_end,
                            is_entry: true,
                        },
                    )
                }
            } else {
                &&& r is Ok
                &&& final(state).main == old(state).main
                &&& final(state).main_line == old(state).main_line
                &&& final(state).main_column == old(state).main_column
                &&& final(state).warnings == old(state).warnings
                &&& final(state).tests@.len() == old(state).tests@.len() + 1
                &&& final(state).tests@.subrange(0, old(state).tests@.len() as int)
                    == old(state).tests@
                &&& test_from(final(state).tests@.last(), facts, n.skip(6))
                    && doc_config_spec(doc, final(state).tests@.last().config)
                &&& final(state).clean@ == old(state).clean@.push(
                    CleanRange {
                        start: facts.body_start,
                        end: facts.body_end,
                        is_entry: false,
                    },
                )
            }
        }),
{
    let cls = name_class(facts.name.as_str());
    match cls {
        NameClass::Other => Ok(()),
        NameClass::PrefixOnly => {
            let code = crate::bytes::copy_range(state.text.as_slice(), 0, state.text.len());
            proof {
                assert(code@ =~= state.text@);
            }
            let column: usize = if facts.column <= usize::MAX - 6 {
                facts.column + 6
            } else {
                usize::MAX
            };
            let mut fix: Vec<AlertCodeFix> = Vec::new();
            fix.push(
                AlertCodeFix {
                    relative_line: facts.line - 1,
                    column,
                    comment: String::from_str(
                        "add a name for the test like `sum_test` or anything you like`",
                    ),
                },
            );
            let mut note: Vec<String> = Vec::new();
            note.push(String::from_str("due to having no name the test will be ignored"));
            let warning = Alert::Warning(
                AlertInfo {
                    description: String::from_str(
                        "function only contains prefix part aka. `cesty_`",
                    ),
                    note,
                    example: Some(
                        AlertExample::Code(
                            AlertCode {
                                line: facts.line,
                                code,
                                file: state.path.clone(),
                                fix,
                            },
                        ),
                    ),
                    debug: Vec::new(),
                },
            );
            state.warnings.push(warning);
            proof {
                assert(state.warnings@.subrange(0, old(state).warnings@.len() as int)
                    =~= old(state).warnings@);
            }
            Ok(())
        },
        NameClass::EntryPoint | NameClass::Test => {
            let config = match doc {
                None => Config::default(),
                Some((lines, outcome)) => {
                    match config_from_outcome(&lines, state.path.clone(), outcome) {
                        Ok(c) => c,
                        Err(a) => {
                            return Err(a);
                        },
                    }
                },
            };
            let name_slice: String = match cls {
                NameClass::EntryPoint => String::new(),
                _ => substring_from(facts.name.as_str(), 6),
            };
            let test = ParsedTest {
                config,
                function: Function {
                    returns: facts.returns,
                    name: facts.name,
                    name_slice,
                    args: facts.args,
                },
                range: Range {
                    template: (facts.template_start, facts.body_start - 1),
                    body: (facts.body_start, facts.body_end),
                },
            };
            match cls {
                NameClass::EntryPoint => {
                    if state.main.is_some() {
                        let code = crate::comments::nth_line(
                            state.text.as_slice(),
                            facts.line - 1,
                        );
                        let mut comment = String::from_str(
                            "already encountered a main() on line ",
                        );
                        append_decimal(&mut comment, state.main_line);
                        append_str(&mut comment, ", column ");
                        append_decimal(&mut comment, state.main_column);
                        proof {
                            assert(comment@ =~= dup_comment(
                                old(state).main_line as nat,
                                old(state).main_column as nat,
                            ));
                        }
                        let mut fix: Vec<AlertCodeFix> = Vec::new();
                        fix.push(
                            AlertCodeFix { relative_line: 0, column: facts.column, comment },
                        );
                        return Err(
                            Alert::Error(
                                AlertInfo {
                                    description: String::from_str(
                                        "file contains multiple main() functions",
                                    ),
                                    note: Vec::new(),
                                    example: Some(
                                        AlertExample::Code(
                                            AlertCode {
                                                line: facts.line,
                                                code,
                                                file: state.path.clone(),
                                                fix,
                                            },
                                        ),
                                    ),
                                    debug: Vec::new(),
                                },
                            ),
                        );
                    }
                    state.main = Some(test);
                    state.main_line = facts.line;
                    state.main_column = facts.column;
                    state.clean.push(
                        CleanRange {
                            start: facts.template_start,
                            end: facts.body_end,
                            is_entry: true,
                        },
                    );
                    proof {
                        let n0 = old(state).clean@.len() as int;
                        assert forall|i: int, j: int|
                            0 <= i < j < state.clean@.len() implies (#[trigger] state.clean@[i]).end
                            <= (#[trigger] state.clean@[j]).start by {
                            if j < n0 {
                                assert(old(state).clean@[i].end <= old(state).clean@[j].start);
                            } else if i < n0 - 1 {
                                assert(old(state).clean@[i].end <= old(state).clean@[n0 - 1].start);
                                assert(old(state).clean@[n0 - 1].start <= old(
                                    state,
                                ).clean@[n0 - 1].end);
                            }
                        }
                    }
                    Ok(())
                },
                _ => {
                    state.tests.push(test);
                    state.clean.push(
                        CleanRange {
                            start: facts.body_start,
                            end: facts.body_end,
                            is_entry: false,
                        },
                    );
                    proof {
                        assert(state.tests@.subrange(0, old(state).tests@.len() as int)
                            =~= old(state).tests@);
                        let n0 = old(state).clean@.len() as int;
                        assert forall|i: int, j: int|
                            0 <= i < j < state.clean@.len() implies (#[trigger] state.clean@[i]).end
                            <= (#[trigger] state.clean@[j]).start by {
                            if j < n0 {
                                assert(old(state).clean@[i].end <= old(state).clean@[j].start);
                            } else if i < n0 - 1 {
                                assert(old(state).clean@[i].end <= old(state).clean@[n0 - 1].start);
                                assert(old(state).clean@[n0 - 1].start <= old(
                                    state,
                                ).clean@[n0 - 1].end);
                            }
                        }
                    }
                    Ok(())
                },
            }
        },
    }
}

/// The entry point's overall range, template start to body end, when one was
/// recorded.
pub open spec fn spec_main_range(main: Option<ParsedTest>) -> Option<(usize, usize)> {
    match main {
        Some(t) => Some((t.range.template.0, t.range.body.1)),
        None => None,
    }
}

/// Assemble the file's result once every function was stepped through.
///
/// A file without tests yields an empty test list, no entry point even when
/// one was met, and all three views equal to the untouched text. Otherwise
/// the recorded ranges are applied: the templated view neutralizes every
/// recorded body and removes the entry point, the mainless view removes only
/// the entry point. A missing file stem is an error.
pub fn assemble(state: WalkState, stem: Option<String>) -> (r: Result<
    (ParsedFile, Vec<Alert>),
    Alert,
>)
    requires
        walk_wf(state),
    ensures
        match stem {
            None => r matches Err(a) && a.is_error() && a.spec_info().description@
                == "failed to extract file stem from path"@ && a.spec_info().example is None
                && a.spec_info().note@.len() == 1 && a.spec_info().note@[0]@
                == "path.file_stem() returned `None`"@,
            Some(st) => {
                &&& r matches Ok(p)
                &&& {
                    let (pf, warnings) = r->Ok_0;
                    &&& warnings == state.warnings
                    &&& pf.path == state.path
                    &&& pf.stem == st
                    &&& pf.environment.full@ == state.text@
                    &&& if state.tests@.len() == 0 {
                        &&& pf.test@ == Seq::<ParsedTest>::empty()
                        &&& pf.main is None
                        &&& pf.environment.mainless@ == state.text@
                        &&& pf.environment.templated@ == state.text@
                    } else {
                        &&& pf.test == state.tests
                        &&& pf.main == state.main
                        &&& pf.environment.mainless@ == removed(
                            state.text@,
                            spec_main_range(state.main),
                        )
                        &&& pf.environment.templated@ == apply_back(state.text@, state.clean@)
                    }
                }
            },
        },
{
    let stem = match stem {
        None => {
            let mut note: Vec<String> = Vec::new();
            note.push(String::from_str("path.file_stem() returned `None`"));
            return Err(
                Alert::Error(
                    AlertInfo {
                        description: String::from_str("failed to extract file stem from path"),
                        note,
                        example: None,
                        debug: Vec::new(),
                    },
                ),
            );
        },
        Some(st) => st,
    };
    if state.tests.len() == 0 {
        let full = crate::bytes::copy_range(state.text.as_slice(), 0, state.text.len());
        let mainless = crate::bytes::copy_range(state.text.as_slice(), 0, state.text.len());
        let templated = crate::bytes::copy_range(state.text.as_slice(), 0, state.text.len());
        proof {
            assert(full@ =~= state.text@);
            assert(mainless@ =~= state.text@);
            assert(templated@ =~= state.text@);
        }
        let pf = ParsedFile {
            path: state.path,
            stem,
            test: Vec::new(),
            environment: Environment { full, mainless, templated },
            main: None,
        };
        return Ok((pf, state.warnings));
    }
    let main_range: Option<(usize, usize)> = match &state.main {
        Some(t) => Some((t.range.template.0, t.range.body.1)),
        None => None,
    };
    let environment = crate::environment::synthesize(&state.text, &state.clean, main_range);
    let pf = ParsedFile {
        path: state.path,
        stem,
        test: state.tests,
        environment,
        main: state.main,
    };
    Ok((pf, state.warnings))
}

/// Law: a second entry point is rejected with evidence citing both
/// positions. The evidence line is the second `main`'s declaration line, and
/// the caret comment spells out the first one's line and column where the
/// renderings of both numbers can be read back.
pub proof fn lemma_duplicate_entry_cites_both(
    a: Alert,
    path: Seq<char>,
    text: Seq<u8>,
    prev_line: nat,
    prev_column: nat,
    facts: FunctionFacts,
)
    requires
        duplicate_main_alert(a, path, text, prev_line, prev_column, facts),
    ensures
        a.is_error(),
        a.spec_info().example->Some_0->Code_0.line == facts.line,
        ({
            let comment = a.spec_info().example->Some_0->Code_0.fix@[0].comment@;
            let intro = "already encountered a main() on line "@;
            let mid = ", column "@;
            &&& comment.subrange(
                intro.len() as int,
                intro.len() + spec_decimal(prev_line).len() as int,
            ) == spec_decimal(prev_line)
            &&& comment.skip(
                intro.len() + spec_decimal(prev_line).len() + mid.len() as int,
            ) == spec_decimal(prev_column)
        }),
{
    let comment = a.spec_info().example->Some_0->Code_0.fix@[0].comment@;
    let intro = "already encountered a main() on line "@;
    let mid = ", column "@;
    assert(comment == intro + spec_decimal(prev_line) + mid + spec_decimal(prev_column));
    assert(comment.subrange(intro.len() as int, intro.len() + spec_decimal(prev_line).len() as int)
        =~= spec_decimal(prev_line));
    assert(comment.skip(intro.len() + spec_decimal(prev_line).len() + mid.len() as int)
        =~= spec_decimal(prev_column));
}

} // verus!

