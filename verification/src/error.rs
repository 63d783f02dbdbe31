//! The diagnostic model: a warning or error with an optional source-snippet
//! evidence block, and the pure rendering helpers it uses.

use vstd::prelude::*;
use vstd::string::StringSliceAdditionalSpecFns;
use vstd::utf8::encode_utf8;

verus! {

/// One caret annotation inside an evidence block: points at `column` of the
/// snippet line `relative_line` and carries an explanatory comment.
#[derive(Debug)]
pub struct AlertCodeFix {
    pub relative_line: usize,
    pub column: usize,
    pub comment: String,
}

/// An evidence block: raw source text, the 1-based file line it belongs to,
/// the file it came from, and the caret annotations to print under it.
#[derive(Debug)]
pub struct AlertCode {
    pub line: usize,
    pub code: Vec<u8>,
    pub file: String,
    pub fix: Vec<AlertCodeFix>,
}

/// The kinds of evidence an alert can carry.
#[derive(Debug)]
pub enum AlertExample {
    Code(AlertCode),
}

/// One frame of the propagation trace attached to an alert.
#[derive(Debug)]
pub struct AlertDebug {
    pub line: usize,
    pub column: usize,
    pub file: String,
    pub function: String,
}

/// Everything an alert says: a one-line description, free-text notes,
/// optional evidence, and the propagation trace.
#[derive(Debug)]
pub struct AlertInfo {
    pub description: String,
    pub note: Vec<String>,
    pub example: Option<AlertExample>,
    pub debug: Vec<AlertDebug>,
}

/// A diagnostic. A warning is reported and processing continues; the first
/// error aborts the file it belongs to.
#[derive(Debug)]
pub enum Alert {
    Warning(AlertInfo),
    Error(AlertInfo),
}

impl AlertCodeFix {
    /// An empty annotation, as a derived default would build it.
    pub fn new_default() -> (r: AlertCodeFix)
        ensures
            r.relative_line == 0,
            r.column == 0,
            r.comment@ == Seq::<char>::empty(),
    {
        AlertCodeFix { relative_line: 0, column: 0, comment: String::new() }
    }
}

impl AlertCode {
    /// An empty evidence block.
    pub fn new_default() -> (r: AlertCode)
        ensures
            r.line == 0,
            r.code@ == Seq::<u8>::empty(),
            r.file@ == Seq::<char>::empty(),
            r.fix@ == Seq::<AlertCodeFix>::empty(),
    {
        AlertCode { line: 0, code: Vec::new(), file: String::new(), fix: Vec::new() }
    }
}

impl AlertInfo {
    /// An alert body with nothing filled in.
    pub fn new_default() -> (r: AlertInfo)
        ensures
            r.description@ == Seq::<char>::empty(),
            r.note@ == Seq::<String>::empty(),
            r.example is None,
            r.debug@ == Seq::<AlertDebug>::empty(),
    {
        AlertInfo { description: String::new(), note: Vec::new(), example: None, debug: Vec::new() }
    }
}

impl Default for AlertExample {
    /// Evidence defaults to an empty code block.
    fn default() -> (r: AlertExample)
        ensures
            r matches AlertExample::Code(c) && c.line == 0 && c.code@
                == Seq::<u8>::empty() && c.file@ == Seq::<char>::empty() && c.fix@
                == Seq::<AlertCodeFix>::empty(),
    {
        AlertExample::Code(AlertCode::new_default())
    }
}

impl Default for Alert {
    /// An alert defaults to an error with nothing filled in.
    fn default() -> (r: Alert)
        ensures
            r matches Alert::Error(info) && info.description@ == Seq::<char>::empty()
                && info.note@ == Seq::<String>::empty() && info.example is None
                && info.debug@ == Seq::<AlertDebug>::empty(),
    {
        Alert::Error(AlertInfo::new_default())
    }
}

impl Alert {
    /// The body of the alert, whichever kind it is.
    pub open spec fn spec_info(&self) -> AlertInfo {
        match self {
            Alert::Warning(info) => *info,
            Alert::Error(info) => *info,
        }
    }

    /// True for the error kind, which aborts the file under analysis.
    pub open spec fn is_error(&self) -> bool {
        self matches Alert::Error(_)
    }

    /// Append one frame to the propagation trace and hand the alert back.
    pub fn push_debug(self, debug: AlertDebug) -> (r: Self)
        ensures
            r.is_error() == self.is_error(),
            r.spec_info().description == self.spec_info().description,
            r.spec_info().note == self.spec_info().note,
            r.spec_info().example == self.spec_info().example,
            r.spec_info().debug@ == self.spec_info().debug@.push(debug),
    {
        match self {
            Alert::Error(mut info) => {
                info.debug.push(debug);
                Alert::Error(info)
            },
            Alert::Warning(mut info) => {
                info.debug.push(debug);
                Alert::Warning(info)
            },
        }
    }
}

/// Number of decimal digits in `n`.
pub open spec fn digit_count(n: nat) -> nat
    decreases n,
{
    if n < 10 {
        1
    } else {
        1 + digit_count(n / 10)
    }
}

/// Powers of ten, to bound digit counts.
pub open spec fn pow10(k: nat) -> nat
    decreases k,
{
    if k == 0 {
        1nat
    } else {
        10 * pow10((k - 1) as nat)
    }
}

pub proof fn lemma_digit_count_below(n: nat, k: nat)
    requires
        1 <= k,
        n < pow10(k),
    ensures
        digit_count(n) <= k,
    decreases k,
{
    if n >= 10 {
        assert(pow10(k) == 10 * pow10((k - 1) as nat));
        lemma_digit_count_below(n / 10, (k - 1) as nat);
    }
}

pub proof fn lemma_digit_count_usize(n: usize)
    ensures
        digit_count(n as nat) <= 20,
{
    reveal_with_fuel(pow10, 21);
    assert(pow10(20) == 0x56bc75e2d63100000);
    lemma_digit_count_below(n as nat, 20);
}

/// Number of decimal digits of `n`, as the length of its formatting.
pub fn decimal_width(n: usize) -> (r: usize)
    ensures
        r == digit_count(n as nat),
{
    proof {
        lemma_digit_count_usize(n);
    }
    let mut x: usize = n;
    let mut count: usize = 1;
    while x >= 10
        invariant
            digit_count(n as nat) == count - 1 + digit_count(x as nat),
            1 <= count <= digit_count(n as nat),
            digit_count(n as nat) <= 20,
        decreases x,
    {
        proof {
            assert(digit_count(x as nat) == 1 + digit_count(x as nat / 10));
            assert(digit_count(x as nat / 10) >= 1);
        }
        x = x / 10;
        count = count + 1;
    }
    count
}

/// Indentation width for evidence blocks: at least three columns, wider when
/// the largest printed line number needs it.
pub fn get_spacing(line: usize) -> (r: usize)
    ensures
        r == if digit_count(line as nat) > 1 {
            2 + digit_count(line as nat)
        } else {
            3
        },
{
    proof {
        lemma_digit_count_usize(line);
    }
    let number_size = decimal_width(line);
    if 3 / 2 < number_size {
        3 - 3 / 2 + number_size
    } else {
        3
    }
}

/// `n` spaces in a row.
pub fn spacing_to_string(n: usize) -> (r: Vec<u8>)
    ensures
        r@.len() == n,
        forall|i: int| 0 <= i < n ==> r@[i] == 32,
{
    let mut s: Vec<u8> = Vec::new();
    let mut i: usize = 0;
    while i < n
        invariant
            i <= n,
            s@.len() == i,
            forall|j: int| 0 <= j < i ==> s@[j] == 32,
        decreases n - i,
    {
        s.push(32);
        i = i + 1;
    }
    s
}

/// The padding that follows a string for `spacing - 1` columns: a tab where
/// the string has a tab, a space everywhere else, cut short at the string's
/// end.
pub open spec fn spec_spacing_from(spacing: int, s: Seq<u8>) -> Seq<u8> {
    let n = if spacing - 1 < 0 {
        0
    } else if spacing - 1 <= s.len() {
        spacing - 1
    } else {
        s.len() as int
    };
    Seq::new(n as nat, |i: int| if s[i] == 9 { 9u8 } else { 32u8 })
}

/// Spaces (and tabs, mirroring the string) that bring a caret under the
/// column `spacing` of `s`.
pub fn spacing_from_string(spacing: usize, s: &Vec<u8>) -> (r: Vec<u8>)
    ensures
        r@ == spec_spacing_from(spacing as int, s@),
{
    let mut spaces: Vec<u8> = Vec::new();
    if spacing == 0 {
        proof {
            assert(spaces@ =~= spec_spacing_from(spacing as int, s@));
        }
        return spaces;
    }
    let n: usize = if spacing - 1 <= s.len() {
        spacing - 1
    } else {
        s.len()
    };
    let mut i: usize = 0;
    while i < n
        invariant
            i <= n <= s@.len(),
            spaces@.len() == i,
            forall|j: int|
                0 <= j < i ==> spaces@[j] == (if s@[j] == 9 {
                    9u8
                } else {
                    32u8
                }),
        decreases n - i,
    {
        if s[i] == 9 {
            spaces.push(9);
        } else {
            spaces.push(32);
        }
        i = i + 1;
    }
    proof {
        assert(spaces@ =~= spec_spacing_from(spacing as int, s@));
    }
    spaces
}


/// `n` spaces, none for a non-positive width.
pub open spec fn spec_spaces(n: int) -> Seq<u8> {
    Seq::new(
        if n < 0 {
            0
        } else {
            n as nat
        },
        |i: int| 32u8,
    )
}

/// Append `n` spaces.
pub fn push_spaces(out: &mut Vec<u8>, n: usize)
    ensures
        final(out)@ == old(out)@ + spec_spaces(n as int),
{
    let mut i: usize = 0;
    while i < n
        invariant
            i <= n,
            out@ == old(out)@ + spec_spaces(i as int),
        decreases n - i,
    {
        out.push(32);
        proof {
            assert(out@ =~= old(out)@ + spec_spaces(i + 1));
        }
        i = i + 1;
    }
}

/// The decimal rendering of `n` as ASCII bytes.
pub open spec fn dec_bytes(n: nat) -> Seq<u8>
    decreases n,
{
    if n < 10 {
        seq![(48 + n) as u8]
    } else {
        dec_bytes(n / 10).push((48 + n % 10) as u8)
    }
}

/// Append the decimal rendering of `n`.
pub fn push_decimal(out: &mut Vec<u8>, n: usize)
    ensures
        final(out)@ == old(out)@ + dec_bytes(n as nat),
    decreases n,
{
    if n < 10 {
        out.push(48 + (n as u8));
        proof {
            assert(out@ =~= old(out)@ + dec_bytes(n as nat));
        }
    } else {
        push_decimal(out, n / 10);
        out.push(48 + ((n % 10) as u8));
        proof {
            assert(out@ =~= old(out)@ + dec_bytes(n as nat));
        }
    }
}

/// Append the UTF-8 bytes of a string.
pub fn push_str_bytes(out: &mut Vec<u8>, s: &str)
    ensures
        final(out)@ == old(out)@ + encode_utf8(s@),
{
    let b = s.as_bytes();
    crate::bytes::append_range(out, b, 0, b.len());
    proof {
        assert(b@.subrange(0, b@.len() as int) =~= b@);
    }
}

/// Append the bytes of another buffer.
pub fn push_bytes(out: &mut Vec<u8>, s: &Vec<u8>)
    ensures
        final(out)@ == old(out)@ + s@,
{
    crate::bytes::append_range(out, s.as_slice(), 0, s.len());
    proof {
        assert(s@.subrange(0, s@.len() as int) =~= s@);
    }
}

/// One rendered frame of the propagation trace: two spaces, the file name
/// right-aligned to sixteen columns, the function, and its position.
pub open spec fn render_trace_entry(d: AlertDebug) -> Seq<u8> {
    "  ".spec_bytes() + spec_spaces(16 - d.file@.len()) + encode_utf8(d.file@)
        + " => ".spec_bytes() + encode_utf8(d.function@) + "[".spec_bytes() + dec_bytes(
        d.line as nat,
    ) + ":".spec_bytes() + dec_bytes(d.column as nat) + "].".spec_bytes() + seq![10u8]
}

/// The rendered propagation trace, oldest frame first.
pub open spec fn render_trace(ds: Seq<AlertDebug>) -> Seq<u8>
    decreases ds.len(),
{
    if ds.len() == 0 {
        Seq::<u8>::empty()
    } else {
        render_trace(ds.drop_last()) + render_trace_entry(ds.last())
    }
}

/// The snippet shown for one annotation: the addressed line of the evidence
/// text, or a placeholder when the line index runs past it.
pub open spec fn spec_snippet(code: Seq<u8>, rel: int) -> Seq<u8> {
    if 0 <= rel < crate::bytes::lines_in(code) {
        crate::comments::nth_line_of(code, rel)
    } else {
        "{out of bounds}".spec_bytes()
    }
}

/// One rendered annotation: the numbered snippet line, and under it a caret
/// at the annotation's column followed by its comment.
pub open spec fn render_fix(line: nat, spacing: int, code: Seq<u8>, fix: AlertCodeFix) -> Seq<u8> {
    let snippet = spec_snippet(code, fix.relative_line as int);
    spec_spaces(spacing - 1 - digit_count(line)) + dec_bytes(line) + " |".spec_bytes()
        + "    ".spec_bytes() + snippet + seq![10u8] + spec_spaces(spacing) + "|".spec_bytes()
        + "    ".spec_bytes() + spec_spacing_from(fix.column as int, snippet) + "^ ".spec_bytes()
        + encode_utf8(fix.comment@) + seq![10u8]
}

/// The rendered annotations, separated by ellipsis lines.
pub open spec fn render_fixes(line: nat, spacing: int, code: Seq<u8>, fixes: Seq<AlertCodeFix>) -> Seq<u8>
    decreases fixes.len(),
{
    if fixes.len() == 0 {
        Seq::<u8>::empty()
    } else {
        render_fix(line, spacing, code, fixes[0]) + (if fixes.len() > 1 {
            "...\n".spec_bytes()
        } else {
            Seq::<u8>::empty()
        }) + render_fixes(line, spacing, code, fixes.skip(1))
    }
}

/// The rendered evidence block: the file-and-line arrow, an empty gutter
/// line, and every annotation.
pub open spec fn render_code(c: AlertCode, spacing: int) -> Seq<u8> {
    spec_spaces(spacing - 1) + "--> ".spec_bytes() + "`".spec_bytes() + encode_utf8(c.file@)
        + "`:".spec_bytes() + dec_bytes(c.line as nat) + seq![10u8] + spec_spaces(spacing)
        + "|".spec_bytes() + seq![10u8] + render_fixes(c.line as nat, spacing, c.code@, c.fix@)
}

/// The rendered notes, one per line.
pub open spec fn render_notes(notes: Seq<String>, spacing: int) -> Seq<u8>
    decreases notes.len(),
{
    if notes.len() == 0 {
        Seq::<u8>::empty()
    } else {
        render_notes(notes.drop_last(), spacing) + spec_spaces(spacing) + "= ".spec_bytes()
            + "note: ".spec_bytes() + encode_utf8(notes.last()@) + seq![10u8]
    }
}

/// The largest snippet line index any annotation addresses.
pub open spec fn max_relative(fixes: Seq<AlertCodeFix>) -> int
    decreases fixes.len(),
{
    if fixes.len() == 0 {
        0
    } else if fixes.last().relative_line > max_relative(fixes.drop_last()) {
        fixes.last().relative_line as int
    } else {
        max_relative(fixes.drop_last())
    }
}

/// The line-number magnitude that decides the gutter width: one without
/// evidence, else the evidence line plus the largest relative line.
pub open spec fn spec_size(info: AlertInfo) -> int {
    match info.example {
        Some(AlertExample::Code(c)) => crate::config::spec_sat_add(
            c.line as int,
            max_relative(c.fix@),
        ),
        None => 1,
    }
}

/// The gutter width of a rendered alert.
pub open spec fn spec_spacing(info: AlertInfo) -> int {
    if digit_count(spec_size(info) as nat) > 1 {
        2 + digit_count(spec_size(info) as nat) as int
    } else {
        3
    }
}

/// The full rendering of an alert: the propagation trace when one is
/// attached, the label and description, the evidence block or a bare `?`
/// gutter, and the notes.
pub open spec fn render_alert(a: Alert) -> Seq<u8> {
    let info = a.spec_info();
    let spacing = spec_spacing(info);
    (if info.debug@.len() > 0 {
        "Call stack trace:\n".spec_bytes() + render_trace(info.debug@)
    } else {
        Seq::<u8>::empty()
    }) + (if a.is_error() {
        "error: ".spec_bytes()
    } else {
        "warning: ".spec_bytes()
    }) + encode_utf8(info.description@) + seq![10u8] + (match info.example {
        Some(AlertExample::Code(c)) => render_code(c, spacing) + spec_spaces(spacing)
            + "|".spec_bytes() + seq![10u8],
        None => spec_spaces(spacing) + "?".spec_bytes() + seq![10u8],
    }) + render_notes(info.note@, spacing)
}

impl AlertCode {
    /// Render this evidence block into `out`: the file-and-line arrow, the
    /// gutter, and each annotation's snippet and caret line, with ellipsis
    /// lines between annotations.
    #[verifier::rlimit(100)]
    fn render_into(&self, out: &mut Vec<u8>, spacing: usize)
        ensures
            final(out)@ == old(out)@ + render_code(*self, spacing as int),
    {
        push_spaces(out, if spacing >= 1 {
            spacing - 1
        } else {
            0
        });
        proof {
            assert(spec_spaces(spacing as int - 1) =~= spec_spaces(
                if spacing >= 1 {
                    spacing - 1
                } else {
                    0
                } as int,
            ));
        }
        push_str_bytes(out, "--> ");
        push_str_bytes(out, "`");
        push_str_bytes(out, self.file.as_str());
        push_str_bytes(out, "`:");
        push_decimal(out, self.line);
        out.push(10);
        push_spaces(out, spacing);
        push_str_bytes(out, "|");
        out.push(10);
        let ghost header_done = out@;
        proof {
            assert(header_done =~= old(out)@ + (spec_spaces(spacing as int - 1)
                + "--> ".spec_bytes() + "`".spec_bytes() + encode_utf8(self.file@)
                + "`:".spec_bytes() + dec_bytes(self.line as nat) + seq![10u8] + spec_spaces(
                spacing as int,
            ) + "|".spec_bytes() + seq![10u8]));
        }
        let line_digits = decimal_width(self.line);
        let total_lines = crate::bytes::lines_count(self.code.as_slice(), 0, self.code.len());
        proof {
            assert(self.code@.subrange(0, self.code@.len() as int) =~= self.code@);
            assert(self.fix@.skip(0) =~= self.fix@);
        }
        let mut i: usize = 0;
        while i < self.fix.len()
            invariant
                i <= self.fix@.len(),
                line_digits == digit_count(self.line as nat),
                total_lines == crate::bytes::lines_in(self.code@),
                out@ + render_fixes(
                    self.line as nat,
                    spacing as int,
                    self.code@,
                    self.fix@.skip(i as int),
                ) == header_done + render_fixes(
                    self.line as nat,
                    spacing as int,
                    self.code@,
                    self.fix@,
                ),
            decreases self.fix@.len() - i,
        {
            proof {
                assert(self.fix@.skip(i as int)[0] == self.fix@[i as int]);
                assert(self.fix@.skip(i as int).skip(1) =~= self.fix@.skip(i + 1));
            }
            let ghost before = out@;
            let fx_rel = self.fix[i].relative_line;
            let fx_col = self.fix[i].column;
            let snippet: Vec<u8> = if fx_rel < total_lines {
                crate::comments::nth_line(self.code.as_slice(), fx_rel)
            } else {
                let mut sv: Vec<u8> = Vec::new();
                push_str_bytes(&mut sv, "{out of bounds}");
                proof {
                    assert(sv@ =~= "{out of bounds}".spec_bytes());
                }
                sv
            };
            proof {
                assert(snippet@ == spec_snippet(self.code@, fx_rel as int));
            }
            let w: usize = if spacing > line_digits {
                (spacing - 1) - line_digits
            } else {
                0
            };
            proof {
                lemma_digit_count_usize(self.line);
                assert(spec_spaces(spacing as int - 1 - digit_count(self.line as nat))
                    =~= spec_spaces(w as int));
            }
            push_spaces(out, w);
            push_decimal(out, self.line);
            push_str_bytes(out, " |");
            push_str_bytes(out, "    ");
            push_bytes(out, &snippet);
            out.push(10);
            push_spaces(out, spacing);
            push_str_bytes(out, "|");
            push_str_bytes(out, "    ");
            let pad = spacing_from_string(fx_col, &snippet);
            push_bytes(out, &pad);
            push_str_bytes(out, "^ ");
            push_str_bytes(out, self.fix[i].comment.as_str());
            out.push(10);
            proof {
                assert(out@ =~= before + render_fix(
                    self.line as nat,
                    spacing as int,
                    self.code@,
                    self.fix@[i as int],
                ));
            }
            if i + 1 < self.fix.len() {
                push_str_bytes(out, "...\n");
                proof {
                    assert(out@ =~= before + (render_fix(
                        self.line as nat,
                        spacing as int,
                        self.code@,
                        self.fix@[i as int],
                    ) + "...\n".spec_bytes()));
                }
            }
            proof {
                let l = self.line as nat;
                let sp = spacing as int;
                let rest = self.fix@.skip(i + 1);
                let sep: Seq<u8> = if self.fix@.skip(i as int).len() > 1 {
                    "...\n".spec_bytes()
                } else {
                    Seq::<u8>::empty()
                };
                assert(render_fixes(l, sp, self.code@, self.fix@.skip(i as int)) == render_fix(
                    l,
                    sp,
                    self.code@,
                    self.fix@[i as int],
                ) + sep + render_fixes(l, sp, self.code@, rest));
                assert(out@ + render_fixes(l, sp, self.code@, rest) =~= before + (render_fix(
                    l,
                    sp,
                    self.code@,
                    self.fix@[i as int],
                ) + sep + render_fixes(l, sp, self.code@, rest)));
                assert(before + (render_fix(l, sp, self.code@, self.fix@[i as int]) + sep
                    + render_fixes(l, sp, self.code@, rest)) =~= before + render_fixes(
                    l,
                    sp,
                    self.code@,
                    self.fix@.skip(i as int),
                ));
            }
            i = i + 1;
        }
        proof {
            assert(self.fix@.skip(self.fix@.len() as int) =~= Seq::<AlertCodeFix>::empty());
            assert(out@ + Seq::<u8>::empty() =~= out@);
            assert(out@ =~= old(out)@ + render_code(*self, spacing as int));
        }
    }
}

impl Alert {
    /// Render this alert as the bytes that would be reported: the trace when
    /// one is attached, the label and description, the evidence block or a
    /// bare placeholder gutter, and every note.
    #[verifier::rlimit(100)]
    pub fn render(&self) -> (r: Vec<u8>)
        ensures
            r@ == render_alert(*self),
    {
        let info = match self {
            Alert::Error(info) => info,
            Alert::Warning(info) => info,
        };
        let mut out: Vec<u8> = Vec::new();
        if info.debug.len() > 0 {
            push_str_bytes(&mut out, "Call stack trace:\n");
            let ghost trace_start = out@;
            let mut i: usize = 0;
            proof {
                assert(render_trace(info.debug@.take(0)) =~= Seq::<u8>::empty());
                assert(out@ =~= trace_start + render_trace(info.debug@.take(0)));
            }
            while i < info.debug.len()
                invariant
                    i <= info.debug@.len(),
                    out@ == trace_start + render_trace(info.debug@.take(i as int)),
                decreases info.debug@.len() - i,
            {
                let ghost before = out@;
                push_str_bytes(&mut out, "  ");
                let flen = info.debug[i].file.as_str().unicode_len();
                let w: usize = if flen < 16 {
                    16 - flen
                } else {
                    0
                };
                proof {
                    assert(spec_spaces(16 - info.debug@[i as int].file@.len()) =~= spec_spaces(
                        w as int,
                    ));
                }
                push_spaces(&mut out, w);
                push_str_bytes(&mut out, info.debug[i].file.as_str());
                push_str_bytes(&mut out, " => ");
                push_str_bytes(&mut out, info.debug[i].function.as_str());
                push_str_bytes(&mut out, "[");
                push_decimal(&mut out, info.debug[i].line);
                push_str_bytes(&mut out, ":");
                push_decimal(&mut out, info.debug[i].column);
                push_str_bytes(&mut out, "].");
                out.push(10);
                proof {
                    assert(out@ =~= before + render_trace_entry(info.debug@[i as int]));
                    assert(info.debug@.take(i + 1).drop_last() =~= info.debug@.take(i as int));
                    assert(info.debug@.take(i + 1).last() == info.debug@[i as int]);
                }
                i = i + 1;
            }
            proof {
                assert(info.debug@.take(info.debug@.len() as int) =~= info.debug@);
            }
        }
        match self {
            Alert::Error(_) => push_str_bytes(&mut out, "error: "),
            Alert::Warning(_) => push_str_bytes(&mut out, "warning: "),
        }
        push_str_bytes(&mut out, info.description.as_str());
        out.push(10);
        let size: usize = match &info.example {
            Some(AlertExample::Code(c)) => {
                let mut largest: usize = 0;
                let mut i: usize = 0;
                proof {
                    assert(max_relative(c.fix@.take(0)) == 0);
                }
                while i < c.fix.len()
                    invariant
                        i <= c.fix@.len(),
                        largest == max_relative(c.fix@.take(i as int)),
                    decreases c.fix@.len() - i,
                {
                    proof {
                        assert(c.fix@.take(i + 1).drop_last() =~= c.fix@.take(i as int));
                        assert(c.fix@.take(i + 1).last() == c.fix@[i as int]);
                    }
                    if c.fix[i].relative_line > largest {
                        largest = c.fix[i].relative_line;
                    }
                    i = i + 1;
                }
                proof {
                    assert(c.fix@.take(c.fix@.len() as int) =~= c.fix@);
                }
                if c.line <= usize::MAX - largest {
                    c.line + largest
                } else {
                    usize::MAX
                }
            },
            None => 1,
        };
        proof {
            assert(size as int == spec_size(*info));
        }
        let spacing = get_spacing(size);
        match &info.example {
            Some(AlertExample::Code(c)) => {
                c.render_into(&mut out, spacing);
                push_spaces(&mut out, spacing);
                push_str_bytes(&mut out, "|");
                out.push(10);
            },
            None => {
                push_spaces(&mut out, spacing);
                push_str_bytes(&mut out, "?");
                out.push(10);
            },
        }
        let ghost notes_start = out@;
        let mut i: usize = 0;
        proof {
            assert(render_notes(info.note@.take(0), spacing as int) =~= Seq::<u8>::empty());
        }
        while i < info.note.len()
            invariant
                i <= info.note@.len(),
                out@ == notes_start + render_notes(info.note@.take(i as int), spacing as int),
            decreases info.note@.len() - i,
        {
            let ghost before = out@;
            push_spaces(&mut out, spacing);
            push_str_bytes(&mut out, "= ");
            push_str_bytes(&mut out, "note: ");
            push_str_bytes(&mut out, info.note[i].as_str());
            out.push(10);
            proof {
                assert(info.note@.take(i + 1).drop_last() =~= info.note@.take(i as int));
                assert(info.note@.take(i + 1).last() == info.note@[i as int]);
                assert(out@ =~= before + (spec_spaces(spacing as int) + "= ".spec_bytes()
                    + "note: ".spec_bytes() + encode_utf8(info.note@[i as int]@) + seq![10u8]));
            }
            i = i + 1;
        }
        proof {
            assert(info.note@.take(info.note@.len() as int) =~= info.note@);
            assert(out@ =~= render_alert(*self));
        }
        out
    }
}

} // verus!
