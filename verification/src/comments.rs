//! Recovery of the logical configuration text from a function's
//! documentation comment.
//!
//! A raw comment can interleave two variants: runs of `//` lines and `/*`
//! ... `*/` blocks. The extractor first cuts the raw text into slices of one
//! variant each, then strips every slice line down to its content, recording
//! for each content line the original file line and the column where the
//! content starts. A later parse error inside the joined content can then be
//! reported against the original file.

use vstd::prelude::*;
use vstd::string::StringExecFns;
use crate::bytes::is_ws;
use crate::bytes::is_blank;
use crate::bytes::ws_end;
use crate::bytes::line_len;
use crate::bytes::starts_with;
use crate::bytes::trimmed;
use crate::bytes::trim_end_idx;
use crate::bytes::lines_in;
use crate::error::Alert;
use crate::error::AlertCode;
use crate::error::AlertCodeFix;
use crate::error::AlertExample;
use crate::error::AlertInfo;

verus! {

/// The two documentation-comment syntaxes.
#[derive(Clone, Copy, PartialEq, Eq, Structural, Debug)]
pub enum CommentVariant {
    /// A run of consecutive `//` lines.
    Singleline,
    /// One `/*` ... `*/` block.
    Multiline,
}

/// One lexical comment unit cut out of the raw comment text.
#[derive(Debug)]
pub struct CommentSlice {
    pub text: Vec<u8>,
    pub variant: CommentVariant,
}

/// One line of the logical configuration text: the stripped content, the
/// raw line it came from, the 1-based original file line, and the column
/// at which the content starts inside the raw line.
#[derive(Debug)]
pub struct ConfigLine {
    pub content: Vec<u8>,
    pub original: Vec<u8>,
    pub line: usize,
    pub column: usize,
}

/// The content sequences of a line list.
pub open spec fn contents_of(lines: Seq<ConfigLine>) -> Seq<Seq<u8>> {
    lines.map_values(|l: ConfigLine| l.content@)
}

/// Content sequences joined with single line feeds.
pub open spec fn joined(cs: Seq<Seq<u8>>) -> Seq<u8>
    decreases cs.len(),
{
    if cs.len() == 0 {
        Seq::<u8>::empty()
    } else if cs.len() == 1 {
        cs[0]
    } else {
        joined(cs.drop_last()) + seq![10u8] + cs.last()
    }
}

/// Join the content of every line with line feeds: the document handed to
/// the configuration parser.
pub fn join_contents(lines: &Vec<ConfigLine>) -> (r: Vec<u8>)
    ensures
        r@ == joined(contents_of(lines@)),
{
    let mut out: Vec<u8> = Vec::new();
    let mut i: usize = 0;
    while i < lines.len()
        invariant
            i <= lines@.len(),
            out@ == joined(contents_of(lines@).take(i as int)),
        decreases lines@.len() - i,
    {
        if i > 0 {
            out.push(10);
        }
        let c = &lines[i].content;
        crate::bytes::append_range(&mut out, c.as_slice(), 0, c.len());
        proof {
            let cs = contents_of(lines@);
            assert(c@.subrange(0, c@.len() as int) =~= c@);
            assert(cs.take(i + 1).last() == cs[i as int]);
            assert(cs.take(i + 1).drop_last() =~= cs.take(i as int));
            if i == 0 {
                assert(out@ =~= cs.take(1)[0]);
            }
        }
        i = i + 1;
    }
    proof {
        assert(contents_of(lines@).take(lines@.len() as int) =~= contents_of(lines@));
    }
    out
}


/// The marker that opens a single-line comment.
pub open spec fn sl_mark() -> Seq<u8> {
    seq![47u8, 47u8]
}

/// The delimiters of a block comment.
pub open spec fn ml_open() -> Seq<u8> {
    seq![47u8, 42u8]
}

pub open spec fn ml_close() -> Seq<u8> {
    seq![42u8, 47u8]
}

/// Whether the remaining text, after leading whitespace, starts another
/// single-line comment.
pub open spec fn sl_starts(s: Seq<u8>) -> bool {
    starts_with(s.skip(ws_end(s, 0)), sl_mark())
}

/// How many bytes the single-line accumulation consumes from `s`: whole
/// lines, as long as each (ignoring leading whitespace) starts with the
/// marker; a consumed line that is all whitespace ends the run.
pub open spec fn sl_run_len(s: Seq<u8>) -> int
    decreases s.len() via sl_run_len_dec
{
    if !sl_starts(s) {
        0
    } else {
        let l = line_len(s);
        if is_blank(s.take(l)) {
            l
        } else {
            l + sl_run_len(s.skip(l))
        }
    }
}

#[via_fn]
proof fn sl_run_len_dec(s: Seq<u8>) {
    crate::bytes::lemma_line_len(s);
    if sl_starts(s) {
        crate::bytes::lemma_ws_end(s, 0);
    }
}

pub proof fn lemma_sl_run_len(s: Seq<u8>)
    ensures
        0 <= sl_run_len(s) <= s.len(),
        sl_starts(s) ==> 1 <= sl_run_len(s),
    decreases s.len(),
{
    crate::bytes::lemma_line_len(s);
    if sl_starts(s) {
        crate::bytes::lemma_ws_end(s, 0);
        let l = line_len(s);
        if !is_blank(s.take(l)) {
            lemma_sl_run_len(s.skip(l));
        }
    }
}

/// Index of the first `*/` at or after `from`, or -1 when there is none.
pub open spec fn find_close(s: Seq<u8>, from: int) -> int
    decreases s.len() - from,
{
    if from < 0 || from + 2 > s.len() {
        -1
    } else if s[from] == 42 && s[from + 1] == 47 {
        from
    } else {
        find_close(s, from + 1)
    }
}

pub proof fn lemma_find_close(s: Seq<u8>, from: int)
    requires
        0 <= from,
    ensures
        find_close(s, from) == -1 || (from <= find_close(s, from) && find_close(s, from) + 2
            <= s.len()),
        find_close(s, from) >= 0 ==> s[find_close(s, from)] == 42 && s[find_close(s, from) + 1]
            == 47,
        forall|i: int|
            from <= i < find_close(s, from) ==> !((#[trigger] s[i]) == 42 && s[i + 1] == 47),
        find_close(s, from) == -1 ==> forall|i: int|
            from <= i && i + 2 <= s.len() ==> !((#[trigger] s[i]) == 42 && s[i + 1] == 47),
    decreases s.len() - from,
{
    if from + 2 <= s.len() && !(s[from] == 42 && s[from + 1] == 47) {
        lemma_find_close(s, from + 1);
    }
}

/// Cut the raw comment text into slices of one variant each, or fail:
/// `None` either because a block comment never closes or because text that
/// is not blank matches no variant. `slices_missing_close` tells the two
/// failures apart.
pub open spec fn slices_of(s: Seq<u8>) -> Option<Seq<(Seq<u8>, CommentVariant)>>
    decreases s.len() via slices_of_dec
{
    if is_blank(s) {
        Some(Seq::<(Seq<u8>, CommentVariant)>::empty())
    } else if starts_with(s, sl_mark()) {
        let l = sl_run_len(s);
        match slices_of(s.skip(l)) {
            Some(tail) => Some(seq![(s.take(l), CommentVariant::Singleline)] + tail),
            None => None,
        }
    } else if starts_with(s, ml_open()) {
        let p = find_close(s, 0);
        if p < 0 {
            None
        } else {
            match slices_of(trimmed(s.skip(p + 2))) {
                Some(tail) => Some(seq![(s.take(p + 2), CommentVariant::Multiline)] + tail),
                None => None,
            }
        }
    } else {
        None
    }
}

#[via_fn]
proof fn slices_of_dec(s: Seq<u8>) {
    if !is_blank(s) {
        if starts_with(s, sl_mark()) {
            lemma_sl_run_len(s);
            assert(sl_starts(s)) by {
                crate::bytes::lemma_ws_end(s, 0);
                if ws_end(s, 0) != 0 {
                    assert(is_ws(s[0]));
                    assert(s.take(2)[0] == s[0]);
                }
                assert(s.skip(0) =~= s);
            }
        } else if starts_with(s, ml_open()) {
            let p = find_close(s, 0);
            if p >= 0 {
                lemma_find_close(s, 0);
                crate::bytes::lemma_trimmed_len(s.skip(p + 2));
            }
        }
    }
}

/// Whether a failed slicing failed on a block comment that never closes.
pub open spec fn slices_missing_close(s: Seq<u8>) -> bool
    decreases s.len() via slices_missing_close_dec
{
    if is_blank(s) {
        false
    } else if starts_with(s, sl_mark()) {
        slices_missing_close(s.skip(sl_run_len(s)))
    } else if starts_with(s, ml_open()) {
        let p = find_close(s, 0);
        if p < 0 {
            true
        } else {
            slices_missing_close(trimmed(s.skip(p + 2)))
        }
    } else {
        false
    }
}

#[via_fn]
proof fn slices_missing_close_dec(s: Seq<u8>) {
    if !is_blank(s) {
        if starts_with(s, sl_mark()) {
            lemma_sl_run_len(s);
            assert(sl_starts(s)) by {
                crate::bytes::lemma_ws_end(s, 0);
                if ws_end(s, 0) != 0 {
                    assert(is_ws(s[0]));
                    assert(s.take(2)[0] == s[0]);
                }
                assert(s.skip(0) =~= s);
            }
        } else if starts_with(s, ml_open()) {
            let p = find_close(s, 0);
            if p >= 0 {
                lemma_find_close(s, 0);
                crate::bytes::lemma_trimmed_len(s.skip(p + 2));
            }
        }
    }
}


/// The evidence a caller supplies for error reporting: where the function
/// under analysis sits and the text of its file.
#[derive(Debug)]
pub struct SourceContext {
    /// The file under analysis.
    pub filename: String,
    /// Its full text, shown as the snippet of comment-shape errors.
    pub file_text: Vec<u8>,
    /// 1-based line of the function declaration.
    pub line: usize,
    /// Column of the function declaration.
    pub column: usize,
}

/// The pairs (text, variant) that a slice list stands for.
pub open spec fn slice_models(v: Seq<CommentSlice>) -> Seq<(Seq<u8>, CommentVariant)> {
    v.map_values(|cs: CommentSlice| (cs.text@, cs.variant))
}

/// The alert reported for a block comment that never closes: evidence is the
/// whole file with a caret at the function the comment belongs to.
pub open spec fn missing_close_alert(a: Alert, ctx: SourceContext) -> bool {
    &&& a.is_error()
    &&& a.spec_info().description@
        == "multiline comment is missing closing delimiter `*/`"@
    &&& a.spec_info().note@.len() == 0
    &&& a.spec_info().example matches Some(AlertExample::Code(_))
    &&& {
        let c = a.spec_info().example->Some_0->Code_0;
        &&& c.line == ctx.line
        &&& c.file@ == ctx.filename@
        &&& c.code@ == ctx.file_text@
        &&& c.fix@.len() == 1
        &&& c.fix@[0].relative_line == ctx.line - 1
        &&& c.fix@[0].column == ctx.column
        &&& c.fix@[0].comment@
            == "this function has a multiline comment above it that doesn't have a closing `*/` delimiter"@
    }
}

/// The alert reported for comment text that matches no known variant; its
/// notes list the supported variants.
pub open spec fn unrecognized_alert(a: Alert, ctx: SourceContext) -> bool {
    &&& a.is_error()
    &&& a.spec_info().description@ == "parsing multiple comment variants failed"@
    &&& a.spec_info().note@.len() == 3
    &&& a.spec_info().note@[0]@ == "supported comment variants are:"@
    &&& a.spec_info().note@[1]@ == "CommentVariant::Singleline with mark `//`"@
    &&& a.spec_info().note@[2]@
        == "CommentVariant::Multiline with opening delimiter `/*` and closing delimiter `*/`"@
    &&& a.spec_info().example matches Some(AlertExample::Code(_))
    &&& {
        let c = a.spec_info().example->Some_0->Code_0;
        &&& c.line == ctx.line
        &&& c.file@ == ctx.filename@
        &&& c.code@ == ctx.file_text@
        &&& c.fix@.len() == 1
        &&& c.fix@[0].relative_line == ctx.line - 1
        &&& c.fix@[0].column == ctx.column
        &&& c.fix@[0].comment@
            == "this function has a unknown comment variant that was not detected."@
    }
}

/// One caret annotation at the function's position, over the whole file.
fn ctx_fix(ctx: &SourceContext, comment: &str) -> (r: Vec<AlertCodeFix>)
    requires
        ctx.line >= 1,
    ensures
        r@.len() == 1,
        r@[0].relative_line == ctx.line - 1,
        r@[0].column == ctx.column,
        r@[0].comment@ == comment@,
{
    let mut fix: Vec<AlertCodeFix> = Vec::new();
    fix.push(
        AlertCodeFix {
            relative_line: ctx.line - 1,
            column: ctx.column,
            comment: String::from_str(comment),
        },
    );
    fix
}

/// The evidence block of a comment-shape error: the whole file, annotated at
/// the function's declaration.
fn ctx_code(ctx: &SourceContext, comment: &str) -> (r: AlertCode)
    requires
        ctx.line >= 1,
    ensures
        r.line == ctx.line,
        r.file@ == ctx.filename@,
        r.code@ == ctx.file_text@,
        r.fix@.len() == 1,
        r.fix@[0].relative_line == ctx.line - 1,
        r.fix@[0].column == ctx.column,
        r.fix@[0].comment@ == comment@,
{
    let code = crate::bytes::copy_range(ctx.file_text.as_slice(), 0, ctx.file_text.len());
    proof {
        assert(code@ =~= ctx.file_text@);
    }
    AlertCode {
        line: ctx.line,
        code,
        file: ctx.filename.clone(),
        fix: ctx_fix(ctx, comment),
    }
}

/// First `*/` inside `s[lo..hi]`, relative to `lo`.
fn find_close_at(s: &[u8], lo: usize, hi: usize) -> (r: Option<usize>)
    requires
        lo <= hi <= s@.len(),
    ensures
        ({
            let sub = s@.subrange(lo as int, hi as int);
            match r {
                Some(p) => lo + p + 2 <= hi && p == find_close(sub, 0),
                None => find_close(sub, 0) == -1,
            }
        }),
{
    let ghost sub = s@.subrange(lo as int, hi as int);
    if hi - lo < 2 {
        return None;
    }
    let mut i: usize = lo;
    while i < hi - 1 && !(s[i] == 42 && s[i + 1] == 47)
        invariant
            lo <= i,
            i <= hi <= s@.len(),
            hi - lo >= 2,
            sub == s@.subrange(lo as int, hi as int),
            find_close(sub, 0) == find_close(sub, i - lo),
        decreases hi - i,
    {
        proof {
            assert(sub[i - lo] == s@[i as int]);
            assert(sub[i + 1 - lo] == s@[i + 1]);
        }
        i = i + 1;
    }
    if i < hi - 1 {
        proof {
            assert(sub[i - lo] == s@[i as int]);
            assert(sub[i + 1 - lo] == s@[i + 1]);
        }
        Some(i - lo)
    } else {
        None
    }
}

/// How far the single-line run reaches from `lo`: the number of bytes its
/// accumulation loop consumes.
fn sl_run(s: &[u8], lo: usize, hi: usize) -> (r: usize)
    requires
        lo <= hi <= s@.len(),
    ensures
        lo + r <= hi,
        r == sl_run_len(s@.subrange(lo as int, hi as int)),
{
    let mut pos: usize = lo;
    let ghost w0 = s@.subrange(lo as int, hi as int);
    proof {
        lemma_sl_run_len(w0);
    }
    loop
        invariant
            lo <= pos <= hi <= s@.len(),
            w0 == s@.subrange(lo as int, hi as int),
            sl_run_len(w0) == pos - lo + sl_run_len(s@.subrange(pos as int, hi as int)),
            sl_run_len(s@.subrange(pos as int, hi as int)) >= 0,
        decreases hi - pos,
    {
        let ghost cur = s@.subrange(pos as int, hi as int);
        proof {
            lemma_sl_run_len(cur);
        }
        let w = crate::bytes::first_non_ws(s, pos, hi);
        proof {
            crate::bytes::lemma_ws_end(cur, 0);
            let we = ws_end(cur, 0);
            assert(forall|j: int| 0 <= j < cur.len() ==> cur[j] == s@[j + pos]);
            assert(we == w - pos) by {
                if we < w - pos {
                    assert(!is_ws(cur[we]));
                    assert(is_ws(s@[we + pos]));
                } else if we > w - pos {
                    assert(w < hi ==> !is_ws(s@[w as int]));
                    if w < hi {
                        assert(is_ws(cur[w - pos]));
                    } else {
                        assert(we <= cur.len());
                    }
                }
            }
        }
        let st = crate::bytes::starts_with_at(s, w, hi, &[47u8, 47u8]);
        proof {
            let we = ws_end(cur, 0);
            let sk = cur.skip(we);
            assert(sk =~= s@.subrange(w as int, hi as int));
            assert([47u8, 47u8]@ =~= sl_mark());
            assert(sl_starts(cur) == starts_with(s@.subrange(w as int, hi as int), sl_mark()));
        }
        if !st {
            proof {
                assert(sl_run_len(s@.subrange(pos as int, hi as int)) == 0);
            }
            return pos - lo;
        }
        let le = crate::bytes::line_end(s, pos, hi);
        proof {
            crate::bytes::lemma_line_len(cur);
            assert(line_len(cur) == le - pos);
        }
        let bl = crate::bytes::blank_range(s, pos, le);
        proof {
            assert(s@.subrange(pos as int, le as int) =~= cur.take(le - pos));
        }
        if bl {
            proof {
                assert(sl_run_len(cur) == le - pos);
            }
            return le - lo;
        }
        proof {
            assert(cur.skip(le - pos) =~= s@.subrange(le as int, hi as int));
            assert(sl_run_len(cur) == (le - pos) + sl_run_len(
                s@.subrange(le as int, hi as int),
            ));
            lemma_sl_run_len(s@.subrange(le as int, hi as int));
            assert(le > pos);
        }
        pos = le;
    }
}

/// Cut the raw documentation comment into slices of one variant each.
///
/// The text is trimmed, then repeatedly matched against the variants'
/// opening markers: a run of `//` lines becomes one slice; a `/*` block up
/// to its `*/` becomes one slice, with following whitespace dropped. A block
/// that never closes, or remaining text that matches no variant, is an
/// error pointing at the function the comment belongs to.
pub fn comment_slices(comment: &Vec<u8>, ctx: &SourceContext) -> (r: Result<
    Vec<CommentSlice>,
    Alert,
>)
    requires
        ctx.line >= 1,
    ensures
        ({
            let t = trimmed(comment@);
            match slices_of(t) {
                Some(sl) => r matches Ok(v) && slice_models(v@) == sl,
                None => r matches Err(a) && (if slices_missing_close(t) {
                    missing_close_alert(a, *ctx)
                } else {
                    unrecognized_alert(a, *ctx)
                }),
            }
        }),
{
    let n = comment.len();
    let mut lo = crate::bytes::first_non_ws(comment.as_slice(), 0, n);
    let hi = crate::bytes::last_non_ws(comment.as_slice(), lo, n);
    let ghost t = trimmed(comment@);
    proof {
        crate::bytes::lemma_ws_end(comment@, 0);
        let we = ws_end(comment@, 0);
        assert(we == lo) by {
            if we < lo {
                assert(!is_ws(comment@[we]));
            } else if we > lo {
                assert(is_ws(comment@[lo as int]));
            }
        }
        let sub = comment@.skip(we);
        crate::bytes::lemma_trim_end_idx(sub);
        let e = trim_end_idx(sub);
        assert(forall|j: int| 0 <= j < sub.len() ==> sub[j] == comment@[j + lo]);
        assert(e == hi - lo) by {
            if e < hi - lo {
                assert(!is_ws(sub[hi - lo - 1]));
                assert(is_ws(comment@[hi - 1]));
            } else if e > hi - lo {
                assert(is_ws(sub[e - 1]));
                assert(!is_ws(comment@[lo + e - 1]));
            }
        }
        assert(t =~= comment@.subrange(lo as int, hi as int));
    }
    let mut out: Vec<CommentSlice> = Vec::new();
    let mut hi = hi;
    proof {
        assert(slice_models(out@) =~= Seq::<(Seq<u8>, CommentVariant)>::empty());
    }
    loop
        invariant
            lo <= hi <= comment@.len(),
            ctx.line >= 1,
            t == trimmed(comment@),
            ({
                let cur = comment@.subrange(lo as int, hi as int);
                &&& slices_of(t) == match slices_of(cur) {
                    Some(tail) => Some(slice_models(out@) + tail),
                    None => None::<Seq<(Seq<u8>, CommentVariant)>>,
                }
                &&& slices_missing_close(t) == slices_missing_close(cur)
            }),
        decreases hi - lo,
    {
        let ghost cur = comment@.subrange(lo as int, hi as int);
        if crate::bytes::blank_range(comment.as_slice(), lo, hi) {
            proof {
                assert(slices_of(cur) == Some(Seq::<(Seq<u8>, CommentVariant)>::empty()));
                assert(slice_models(out@) + Seq::<(Seq<u8>, CommentVariant)>::empty()
                    =~= slice_models(out@));
            }
            return Ok(out);
        }
        if crate::bytes::starts_with_at(comment.as_slice(), lo, hi, &[47u8, 47u8]) {
            proof {
                assert([47u8, 47u8]@ =~= sl_mark());
            }
            let run = sl_run(comment.as_slice(), lo, hi);
            let text = crate::bytes::copy_range(comment.as_slice(), lo, lo + run);
            let slice = CommentSlice { text, variant: CommentVariant::Singleline };
            proof {
                let l = sl_run_len(cur);
                assert(cur.take(l) =~= comment@.subrange(lo as int, lo + run));
                assert(cur.skip(l) =~= comment@.subrange(lo + run, hi as int));
                assert(slice_models(out@.push(slice)) =~= slice_models(out@).push(
                    (slice.text@, CommentVariant::Singleline),
                ));
                assert(seq![(cur.take(l), CommentVariant::Singleline)]
                    =~= Seq::<(Seq<u8>, CommentVariant)>::empty().push(
                    (cur.take(l), CommentVariant::Singleline),
                ));
                match slices_of(cur.skip(l)) {
                    Some(tail) => {
                        assert(slice_models(out@) + (seq![
                            (cur.take(l), CommentVariant::Singleline),
                        ] + tail) =~= slice_models(out@.push(slice)) + tail);
                    },
                    None => {},
                }
                lemma_sl_run_len(cur);
                assert(sl_starts(cur)) by {
                    crate::bytes::lemma_ws_end(cur, 0);
                    if ws_end(cur, 0) != 0 {
                        assert(is_ws(cur[0]));
                        assert(cur.take(2)[0] == cur[0]);
                    }
                    assert(cur.skip(0) =~= cur);
                }
            }
            out.push(slice);
            lo = lo + run;
            continue;
        }
        if crate::bytes::starts_with_at(comment.as_slice(), lo, hi, &[47u8, 42u8]) {
            proof {
                assert([47u8, 42u8]@ =~= ml_open());
            }
            match find_close_at(comment.as_slice(), lo, hi) {
                Some(p) => {
                    proof {
                        assert([47u8, 47u8]@ =~= sl_mark());
                        assert([47u8, 42u8]@ =~= ml_open());
                    }
                    let cut = lo + p + 2;
                    let text = crate::bytes::copy_range(comment.as_slice(), lo, cut);
                    let slice = CommentSlice { text, variant: CommentVariant::Multiline };
                    let new_lo = crate::bytes::first_non_ws(comment.as_slice(), cut, hi);
                    let new_hi = crate::bytes::last_non_ws(comment.as_slice(), new_lo, hi);
                    proof {
                        let pp = find_close(cur, 0);
                        lemma_find_close(cur, 0);
                        assert(cur.take(pp + 2) =~= comment@.subrange(lo as int, cut as int));
                        let rest = cur.skip(pp + 2);
                        assert(rest =~= comment@.subrange(cut as int, hi as int));
                        crate::bytes::lemma_ws_end(rest, 0);
                        let we = ws_end(rest, 0);
                        assert(forall|j: int| 0 <= j < rest.len() ==> rest[j] == comment@[j + cut]);
                        assert(we == new_lo - cut) by {
                            if we < new_lo - cut {
                                assert(!is_ws(rest[we]));
                            } else if we > new_lo - cut {
                                assert(is_ws(rest[new_lo - cut]));
                            }
                        }
                        let sub2 = rest.skip(we);
                        crate::bytes::lemma_trim_end_idx(sub2);
                        let e2 = trim_end_idx(sub2);
                        assert(forall|j: int| 0 <= j < sub2.len() ==> sub2[j] == comment@[j + new_lo]);
                        assert(e2 == new_hi - new_lo) by {
                            if e2 < new_hi - new_lo {
                                assert(!is_ws(sub2[new_hi - new_lo - 1]));
                                assert(is_ws(comment@[new_hi - 1]));
                            } else if e2 > new_hi - new_lo {
                                assert(is_ws(sub2[e2 - 1]));
                                assert(!is_ws(comment@[new_lo + e2 - 1]));
                            }
                        }
                        assert(trimmed(rest) =~= comment@.subrange(new_lo as int, new_hi as int));
                        assert(slice_models(out@.push(slice)) =~= slice_models(out@).push(
                            (slice.text@, CommentVariant::Multiline),
                        ));
                        match slices_of(trimmed(rest)) {
                            Some(tail) => {
                                assert(slice_models(out@) + (seq![
                                    (cur.take(pp + 2), CommentVariant::Multiline),
                                ] + tail) =~= slice_models(out@.push(slice)) + tail);
                            },
                            None => {},
                        }
                        crate::bytes::lemma_trimmed_len(rest);
                    }
                    out.push(slice);
                    lo = new_lo;
                    hi = new_hi;
                    continue;
                },
                None => {
                    proof {
                        assert([47u8, 47u8]@ =~= sl_mark());
                        assert([47u8, 42u8]@ =~= ml_open());
                        assert(slices_of(cur) is None);
                        assert(slices_missing_close(cur));
                    }
                    let alert = Alert::Error(
                        AlertInfo {
                            description: String::from_str(
                                "multiline comment is missing closing delimiter `*/`",
                            ),
                            note: Vec::new(),
                            example: Some(
                                AlertExample::Code(
                                    ctx_code(
                                        ctx,
                                        "this function has a multiline comment above it that doesn't have a closing `*/` delimiter",
                                    ),
                                ),
                            ),
                            debug: Vec::new(),
                        },
                    );
                    return Err(alert);
                },
            }
        } else {
            proof {
                assert([47u8, 47u8]@ =~= sl_mark());
                assert([47u8, 42u8]@ =~= ml_open());
                assert(slices_of(cur) is None);
                assert(!slices_missing_close(cur));
            }
            let mut note: Vec<String> = Vec::new();
            note.push(String::from_str("supported comment variants are:"));
            note.push(String::from_str("CommentVariant::Singleline with mark `//`"));
            note.push(
                String::from_str(
                    "CommentVariant::Multiline with opening delimiter `/*` and closing delimiter `*/`",
                ),
            );
            let alert = Alert::Error(
                AlertInfo {
                    description: String::from_str("parsing multiple comment variants failed"),
                    note,
                    example: Some(
                        AlertExample::Code(
                            ctx_code(
                                ctx,
                                "this function has a unknown comment variant that was not detected.",
                            ),
                        ),
                    ),
                    debug: Vec::new(),
                },
            );
            return Err(alert);
        }
    }
}


/// The ghost model of one extracted configuration line.
pub struct CLine {
    pub content: Seq<u8>,
    pub original: Seq<u8>,
    pub line: int,
    pub column: int,
}

/// What stripping a slice list yields: the extracted lines, or the first
/// single-line comment line that does not start with its marker.
pub enum LinesOutcome {
    Good(Seq<CLine>),
    Invalid { raw: Seq<u8>, at: int },
}

/// The first line of `s` without its line feed, and without a carriage
/// return before that: what `str::lines` yields for it.
pub open spec fn line_body(s: Seq<u8>) -> Seq<u8> {
    let l = line_len(s);
    let t = if l > 0 && s[l - 1] == 10 {
        l - 1
    } else {
        l
    };
    let t2 = if t > 0 && s[t - 1] == 13 {
        t - 1
    } else {
        t
    };
    s.take(t2)
}

/// Strip the lines of one single-line slice, beginning at file line `fl`.
/// Every line must, after leading whitespace, start with the `//` marker.
/// Content starts at the first byte that is neither a marker character nor
/// whitespace; a line with no such byte is a separator and yields nothing.
pub open spec fn sl_lines(s: Seq<u8>, fl: int) -> LinesOutcome
    decreases s.len() via sl_lines_dec
{
    if s.len() == 0 {
        LinesOutcome::Good(Seq::<CLine>::empty())
    } else {
        let l = line_len(s);
        let body = line_body(s);
        if !starts_with(body.skip(ws_end(body, 0)), sl_mark()) {
            LinesOutcome::Invalid { raw: body, at: fl }
        } else {
            let p = crate::bytes::filler_end(body, 47, 0);
            let rest = sl_lines(s.skip(l), fl + 1);
            if p == body.len() {
                rest
            } else {
                match rest {
                    LinesOutcome::Good(ls) => LinesOutcome::Good(
                        seq![
                            CLine {
                                content: body.skip(p),
                                original: body,
                                line: fl,
                                column: p,
                            },
                        ] + ls,
                    ),
                    inv => inv,
                }
            }
        }
    }
}

#[via_fn]
proof fn sl_lines_dec(s: Seq<u8>, fl: int) {
    crate::bytes::lemma_line_len(s);
}

/// Strip the lines of one block-comment body, beginning at file line `fl`.
/// Content starts at the first byte that is neither the `*` filler nor
/// whitespace; all-filler lines yield nothing. No line shape is an error.
pub open spec fn ml_lines(s: Seq<u8>, fl: int) -> Seq<CLine>
    decreases s.len() via ml_lines_dec
{
    if s.len() == 0 {
        Seq::<CLine>::empty()
    } else {
        let l = line_len(s);
        let body = line_body(s);
        let p = crate::bytes::filler_end(body, 42, 0);
        let rest = ml_lines(s.skip(l), fl + 1);
        if p == body.len() {
            rest
        } else {
            seq![CLine { content: body.skip(p), original: body, line: fl, column: p }] + rest
        }
    }
}

#[via_fn]
proof fn ml_lines_dec(s: Seq<u8>, fl: int) {
    crate::bytes::lemma_line_len(s);
}

/// The text between a block slice's delimiters; empty when the delimiters
/// overlap.
pub open spec fn ml_content(text: Seq<u8>) -> Seq<u8> {
    if text.len() >= 4 {
        text.subrange(2, text.len() - 2)
    } else {
        Seq::<u8>::empty()
    }
}

/// Strip every slice in order. File lines advance by each slice's own line
/// count, so that positions keep pointing at the original file across
/// slices.
pub open spec fn all_lines(sl: Seq<(Seq<u8>, CommentVariant)>, fl: int) -> LinesOutcome
    decreases sl.len(),
{
    if sl.len() == 0 {
        LinesOutcome::Good(Seq::<CLine>::empty())
    } else {
        let here = match sl[0].1 {
            CommentVariant::Singleline => sl_lines(sl[0].0, fl),
            CommentVariant::Multiline => LinesOutcome::Good(ml_lines(ml_content(sl[0].0), fl)),
        };
        match here {
            LinesOutcome::Good(a) => match all_lines(sl.skip(1), fl + lines_in(sl[0].0)) {
                LinesOutcome::Good(b) => LinesOutcome::Good(a + b),
                inv => inv,
            },
            inv => inv,
        }
    }
}

/// Total line count of a slice list, as the slices' own texts have it.
pub open spec fn sum_lines(sl: Seq<(Seq<u8>, CommentVariant)>) -> int
    decreases sl.len(),
{
    if sl.len() == 0 {
        0
    } else {
        lines_in(sl[0].0) + sum_lines(sl.skip(1))
    }
}

/// The file line of the first comment line: the declaration's line, less the
/// comment's total line count, floored at zero.
pub open spec fn start_line_of(sl: Seq<(Seq<u8>, CommentVariant)>, decl_line: int) -> int {
    if sum_lines(sl) <= decl_line {
        decl_line - sum_lines(sl)
    } else {
        0
    }
}

pub proof fn lemma_sum_lines_bound(s: Seq<u8>)
    requires
        slices_of(s) is Some,
    ensures
        0 <= sum_lines(slices_of(s)->Some_0) <= 2 * s.len(),
    decreases s.len(),
{
    let sl = slices_of(s)->Some_0;
    if is_blank(s) {
    } else if starts_with(s, sl_mark()) {
        let l = sl_run_len(s);
        lemma_sl_run_len(s);
        assert(sl_starts(s)) by {
            crate::bytes::lemma_ws_end(s, 0);
            if ws_end(s, 0) != 0 {
                assert(is_ws(s[0]));
                assert(s.take(2)[0] == s[0]);
            }
            assert(s.skip(0) =~= s);
        }
        lemma_sum_lines_bound(s.skip(l));
        let tail = slices_of(s.skip(l))->Some_0;
        let head = (s.take(l), CommentVariant::Singleline);
        assert((seq![head] + tail).skip(1) =~= tail);
        assert((seq![head] + tail)[0] == head);
        crate::bytes::lemma_lines_in_le(s.take(l));
    } else if starts_with(s, ml_open()) {
        let p = find_close(s, 0);
        lemma_find_close(s, 0);
        crate::bytes::lemma_trimmed_len(s.skip(p + 2));
        lemma_sum_lines_bound(trimmed(s.skip(p + 2)));
        let tail = slices_of(trimmed(s.skip(p + 2)))->Some_0;
        let head = (s.take(p + 2), CommentVariant::Multiline);
        assert((seq![head] + tail).skip(1) =~= tail);
        assert((seq![head] + tail)[0] == head);
        crate::bytes::lemma_lines_in_le(s.take(p + 2));
    }
}


/// The ghost models of the extracted lines.
pub open spec fn line_models(v: Seq<ConfigLine>) -> Seq<CLine> {
    v.map_values(
        |l: ConfigLine| CLine {
            content: l.content@,
            original: l.original@,
            line: l.line as int,
            column: l.column as int,
        },
    )
}

/// The alert reported for a line of a single-line run that does not start
/// with the marker: the raw line is the evidence, with a caret at its first
/// non-whitespace byte.
pub open spec fn invalid_comment_alert(a: Alert, raw: Seq<u8>, at: int, ctx: SourceContext) -> bool {
    &&& a.is_error()
    &&& a.spec_info().description@ == "invalid comment"@
    &&& a.spec_info().note@.len() == 1
    &&& a.spec_info().note@[0]@
        == "Expected a line to start with // for CommentVariant::Singleline"@
    &&& a.spec_info().example matches Some(AlertExample::Code(_))
    &&& {
        let c = a.spec_info().example->Some_0->Code_0;
        &&& c.line == at
        &&& c.file@ == ctx.filename@
        &&& c.code@ == raw
        &&& c.fix@.len() == 1
        &&& c.fix@[0].relative_line == 0
        &&& c.fix@[0].column == (if ws_end(raw, 0) < raw.len() {
            ws_end(raw, 0)
        } else {
            0
        })
        &&& c.fix@[0].comment@ == "expected a `//` at the start"@
    }
}

/// Bounds of the first line's body within `s[pos..hi]`: the line feed and a
/// carriage return before it are left out.
pub(crate) fn body_end(s: &[u8], pos: usize, hi: usize) -> (r: (usize, usize))
    requires
        pos <= hi <= s@.len(),
    ensures
        pos <= r.1 <= r.0 <= hi,
        r.0 - pos == line_len(s@.subrange(pos as int, hi as int)),
        s@.subrange(pos as int, r.1 as int) == line_body(s@.subrange(pos as int, hi as int)),
{
    let le = crate::bytes::line_end(s, pos, hi);
    let b1: usize = if le > pos && s[le - 1] == 10 {
        le - 1
    } else {
        le
    };
    let b2: usize = if b1 > pos && s[b1 - 1] == 13 {
        b1 - 1
    } else {
        b1
    };
    proof {
        let cur = s@.subrange(pos as int, hi as int);
        assert(forall|j: int| 0 <= j < cur.len() ==> cur[j] == s@[j + pos]);
        assert(s@.subrange(pos as int, b2 as int) =~= line_body(cur));
    }
    (le, b2)
}

/// Strip the lines of one single-line slice into configuration lines.
fn strip_sl_slice(text: &[u8], fl: usize, ctx: &SourceContext) -> (r: Result<
    Vec<ConfigLine>,
    Alert,
>)
    requires
        fl + text@.len() + 1 < usize::MAX,
    ensures
        match sl_lines(text@, fl as int) {
            LinesOutcome::Good(ls) => r matches Ok(v) && line_models(v@) == ls,
            LinesOutcome::Invalid { raw, at } => r matches Err(a) && invalid_comment_alert(
                a,
                raw,
                at,
                *ctx,
            ),
        },
{
    let n = text.len();
    let mut acc: Vec<ConfigLine> = Vec::new();
    let mut pos: usize = 0;
    let mut flc: usize = fl;
    proof {
        assert(text@.subrange(0, n as int) =~= text@);
        assert(line_models(acc@) =~= Seq::<CLine>::empty());
    }
    while pos < n
        invariant
            pos <= n == text@.len(),
            fl <= flc <= fl + pos,
            fl + text@.len() + 1 < usize::MAX,
            sl_lines(text@, fl as int) == (match sl_lines(
                text@.subrange(pos as int, n as int),
                flc as int,
            ) {
                LinesOutcome::Good(t) => LinesOutcome::Good(line_models(acc@) + t),
                inv => inv,
            }),
        decreases n - pos,
    {
        let ghost cur = text@.subrange(pos as int, n as int);
        let (le, b2) = body_end(text, pos, n);
        let ghost body = line_body(cur);
        proof {
            crate::bytes::lemma_line_len(cur);
            assert(body == text@.subrange(pos as int, b2 as int));
            assert(forall|j: int| 0 <= j < body.len() ==> body[j] == text@[j + pos]);
        }
        let w = crate::bytes::first_non_ws(text, pos, b2);
        proof {
            crate::bytes::lemma_ws_end_at(body, w - pos);
            assert(body.skip(w - pos) =~= text@.subrange(w as int, b2 as int));
        }
        let st = crate::bytes::starts_with_at(text, w, b2, &[47u8, 47u8]);
        proof {
            assert([47u8, 47u8]@ =~= sl_mark());
        }
        if !st {
            let raw = crate::bytes::copy_range(text, pos, b2);
            let caret: usize = if w < b2 {
                w - pos
            } else {
                0
            };
            let mut note: Vec<String> = Vec::new();
            note.push(
                String::from_str("Expected a line to start with // for CommentVariant::Singleline"),
            );
            let mut fix: Vec<AlertCodeFix> = Vec::new();
            fix.push(
                AlertCodeFix {
                    relative_line: 0,
                    column: caret,
                    comment: String::from_str("expected a `//` at the start"),
                },
            );
            let alert = Alert::Error(
                AlertInfo {
                    description: String::from_str("invalid comment"),
                    note,
                    example: Some(
                        AlertExample::Code(
                            AlertCode {
                                line: flc,
                                code: raw,
                                file: ctx.filename.clone(),
                                fix,
                            },
                        ),
                    ),
                    debug: Vec::new(),
                },
            );
            proof {
                crate::bytes::lemma_ws_end(body, 0);
            }
            return Err(alert);
        }
        let pfill = crate::bytes::filler_scan(text, pos, b2, 47);
        proof {
            assert(crate::bytes::filler_end(body, 47, 0) == pfill - pos);
        }
        if pfill < b2 {
            let content = crate::bytes::copy_range(text, pfill, b2);
            let original = crate::bytes::copy_range(text, pos, b2);
            let cl = ConfigLine { content, original, line: flc, column: pfill - pos };
            proof {
                assert(cl.content@ =~= body.skip(pfill - pos));
                let m = CLine {
                    content: body.skip(pfill - pos),
                    original: body,
                    line: flc as int,
                    column: pfill - pos,
                };
                assert(line_models(acc@.push(cl)) =~= line_models(acc@).push(m));
                assert(cur.skip(le - pos) =~= text@.subrange(le as int, n as int));
                match sl_lines(text@.subrange(le as int, n as int), flc + 1) {
                    LinesOutcome::Good(t) => {
                        assert(line_models(acc@) + (seq![m] + t) =~= line_models(acc@.push(cl))
                            + t);
                    },
                    LinesOutcome::Invalid { .. } => {},
                }
            }
            acc.push(cl);
        } else {
            proof {
                assert(crate::bytes::filler_end(body, 47, 0) == body.len());
                assert(cur.skip(le - pos) =~= text@.subrange(le as int, n as int));
            }
        }
        pos = le;
        flc = flc + 1;
    }
    proof {
        assert(text@.subrange(pos as int, n as int).len() == 0);
        assert(line_models(acc@) + Seq::<CLine>::empty() =~= line_models(acc@));
    }
    Ok(acc)
}

/// Strip the lines of one block slice's body into configuration lines.
fn strip_ml_slice(text: &[u8], fl: usize) -> (r: Vec<ConfigLine>)
    requires
        fl + text@.len() + 1 < usize::MAX,
    ensures
        line_models(r@) == ml_lines(ml_content(text@), fl as int),
{
    let n = text.len();
    let (lo0, hi0): (usize, usize) = if n >= 4 {
        (2, n - 2)
    } else {
        (0, 0)
    };
    proof {
        if n >= 4 {
            assert(ml_content(text@) =~= text@.subrange(2, n - 2));
        } else {
            assert(ml_content(text@) =~= text@.subrange(0, 0));
        }
    }
    let ghost w0 = ml_content(text@);
    let mut acc: Vec<ConfigLine> = Vec::new();
    let mut pos: usize = lo0;
    let mut flc: usize = fl;
    proof {
        assert(w0 =~= text@.subrange(lo0 as int, hi0 as int));
        assert(line_models(acc@) =~= Seq::<CLine>::empty());
    }
    while pos < hi0
        invariant
            lo0 <= pos <= hi0 <= text@.len(),
            fl <= flc <= fl + pos,
            fl + text@.len() + 1 < usize::MAX,
            w0 == ml_content(text@),
            ml_lines(w0, fl as int) == line_models(acc@) + ml_lines(
                text@.subrange(pos as int, hi0 as int),
                flc as int,
            ),
        decreases hi0 - pos,
    {
        let ghost cur = text@.subrange(pos as int, hi0 as int);
        let (le, b2) = body_end(text, pos, hi0);
        let ghost body = line_body(cur);
        proof {
            crate::bytes::lemma_line_len(cur);
            assert(body == text@.subrange(pos as int, b2 as int));
        }
        let pfill = crate::bytes::filler_scan(text, pos, b2, 42);
        proof {
            assert(crate::bytes::filler_end(body, 42, 0) == pfill - pos);
            assert(cur.skip(le - pos) =~= text@.subrange(le as int, hi0 as int));
        }
        if pfill < b2 {
            let content = crate::bytes::copy_range(text, pfill, b2);
            let original = crate::bytes::copy_range(text, pos, b2);
            let cl = ConfigLine { content, original, line: flc, column: pfill - pos };
            proof {
                assert(cl.content@ =~= body.skip(pfill - pos));
                let m = CLine {
                    content: body.skip(pfill - pos),
                    original: body,
                    line: flc as int,
                    column: pfill - pos,
                };
                assert(line_models(acc@.push(cl)) =~= line_models(acc@).push(m));
                assert(line_models(acc@) + (seq![m] + ml_lines(
                    text@.subrange(le as int, hi0 as int),
                    flc + 1,
                )) =~= line_models(acc@.push(cl)) + ml_lines(
                    text@.subrange(le as int, hi0 as int),
                    flc + 1,
                ));
            }
            acc.push(cl);
        } else {
            proof {
                assert(crate::bytes::filler_end(body, 42, 0) == body.len());
            }
        }
        pos = le;
        flc = flc + 1;
    }
    proof {
        assert(text@.subrange(pos as int, hi0 as int).len() == 0);
        assert(line_models(acc@) + Seq::<CLine>::empty() =~= line_models(acc@));
    }
    acc
}


pub proof fn lemma_sum_lines_nonneg(sl: Seq<(Seq<u8>, CommentVariant)>)
    ensures
        sum_lines(sl) >= 0,
    decreases sl.len(),
{
    if sl.len() > 0 {
        crate::bytes::lemma_lines_in_le(sl[0].0);
        lemma_sum_lines_nonneg(sl.skip(1));
    }
}

/// Every slice's text is no longer than the text it was cut from.
pub proof fn lemma_slices_text_len(s: Seq<u8>)
    requires
        slices_of(s) is Some,
    ensures
        forall|i: int|
            0 <= i < slices_of(s)->Some_0.len() ==> (#[trigger] slices_of(s)->Some_0[i]).0.len()
                <= s.len(),
    decreases s.len(),
{
    let sl = slices_of(s)->Some_0;
    if is_blank(s) {
    } else if starts_with(s, sl_mark()) {
        let l = sl_run_len(s);
        lemma_sl_run_len(s);
        assert(sl_starts(s)) by {
            crate::bytes::lemma_ws_end(s, 0);
            if ws_end(s, 0) != 0 {
                assert(is_ws(s[0]));
                assert(s.take(2)[0] == s[0]);
            }
            assert(s.skip(0) =~= s);
        }
        lemma_slices_text_len(s.skip(l));
        let tail = slices_of(s.skip(l))->Some_0;
        let head = (s.take(l), CommentVariant::Singleline);
        assert forall|i: int| 0 <= i < sl.len() implies (#[trigger] sl[i]).0.len() <= s.len() by {
            if i >= 1 {
                assert(sl[i] == tail[i - 1]);
            }
        }
    } else if starts_with(s, ml_open()) {
        let p = find_close(s, 0);
        lemma_find_close(s, 0);
        crate::bytes::lemma_trimmed_len(s.skip(p + 2));
        lemma_slices_text_len(trimmed(s.skip(p + 2)));
        let tail = slices_of(trimmed(s.skip(p + 2)))->Some_0;
        assert forall|i: int| 0 <= i < sl.len() implies (#[trigger] sl[i]).0.len() <= s.len() by {
            if i >= 1 {
                assert(sl[i] == tail[i - 1]);
            }
        }
    }
}

/// Recover the logical configuration text of one raw documentation comment,
/// line by line, each line mapped back to its original file position.
///
/// The comment is cut into variant slices, each slice is stripped to its
/// content lines, and file lines are assigned upward from the declaration
/// line minus the comment's total line count. Comment-shape failures are the
/// errors of `comment_slices`; a single-line run whose line loses its marker
/// is the invalid-comment error.
#[verifier::rlimit(50)]
pub fn config_lines(comment: &Vec<u8>, ctx: &SourceContext) -> (r: Result<Vec<ConfigLine>, Alert>)
    requires
        1 <= ctx.line < 0x4000_0000,
        comment@.len() < 0x1000_0000,
    ensures
        ({
            let t = trimmed(comment@);
            match slices_of(t) {
                None => r matches Err(a) && (if slices_missing_close(t) {
                    missing_close_alert(a, *ctx)
                } else {
                    unrecognized_alert(a, *ctx)
                }),
                Some(sl) => match all_lines(sl, start_line_of(sl, ctx.line as int)) {
                    LinesOutcome::Good(ls) => r matches Ok(v) && line_models(v@) == ls,
                    LinesOutcome::Invalid { raw, at } => r matches Err(a) && invalid_comment_alert(
                        a,
                        raw,
                        at,
                        *ctx,
                    ),
                },
            }
        }),
{
    let slices = match comment_slices(comment, ctx) {
        Ok(v) => v,
        Err(a) => {
            return Err(a);
        },
    };
    let ghost t = trimmed(comment@);
    let ghost models = slice_models(slices@);
    proof {
        lemma_sum_lines_bound(t);
        lemma_slices_text_len(t);
        crate::bytes::lemma_trimmed_len(comment@);
        assert(models.skip(0) =~= models);
    }
    let mut total: usize = 0;
    let mut i: usize = 0;
    while i < slices.len()
        invariant
            i <= slices@.len(),
            models == slice_models(slices@),
            slices_of(t) == Some(models),
            t == trimmed(comment@),
            t.len() <= comment@.len(),
            sum_lines(models) == total + sum_lines(models.skip(i as int)),
            0 <= sum_lines(models) <= 2 * t.len(),
            comment@.len() < 0x1000_0000,
            total >= 0,
        decreases slices@.len() - i,
    {
        proof {
            assert(models.skip(i as int)[0] == models[i as int]);
            assert(models.skip(i as int).skip(1) =~= models.skip(i + 1));
            assert(models[i as int] == (slices@[i as int].text@, slices@[i as int].variant));
            lemma_sum_lines_nonneg(models.skip(i + 1));
            crate::bytes::lemma_lines_in_le(models[i as int].0);
        }
        let text = &slices[i].text;
        let c = crate::bytes::lines_count(text.as_slice(), 0, text.len());
        proof {
            assert(text@.subrange(0, text@.len() as int) =~= text@);
        }
        total = total + c;
        i = i + 1;
    }
    proof {
        assert(models.skip(slices@.len() as int) =~= Seq::<(Seq<u8>, CommentVariant)>::empty());
        assert(total == sum_lines(models));
    }
    let start: usize = if total <= ctx.line {
        ctx.line - total
    } else {
        0
    };
    proof {
        assert(start == start_line_of(models, ctx.line as int));
    }
    let mut out: Vec<ConfigLine> = Vec::new();
    let mut flc: usize = start;
    let mut j: usize = 0;
    proof {
        assert(line_models(out@) =~= Seq::<CLine>::empty());
        assert(models.skip(0) =~= models);
    }
    while j < slices.len()
        invariant
            j <= slices@.len(),
            models == slice_models(slices@),
            slices_of(t) == Some(models),
            t == trimmed(comment@),
            t.len() <= comment@.len(),
            comment@.len() < 0x1000_0000,
            ctx.line < 0x4000_0000,
            1 <= ctx.line,
            forall|k: int| 0 <= k < models.len() ==> (#[trigger] models[k]).0.len() <= t.len(),
            0 <= sum_lines(models) <= 2 * t.len(),
            start == start_line_of(models, ctx.line as int),
            start <= ctx.line,
            flc + sum_lines(models.skip(j as int)) == start + sum_lines(models),
            start <= flc,
            all_lines(models, start as int) == (match all_lines(
                models.skip(j as int),
                flc as int,
            ) {
                LinesOutcome::Good(tl) => LinesOutcome::Good(line_models(out@) + tl),
                inv => inv,
            }),
        decreases slices@.len() - j,
    {
        proof {
            assert(models.skip(j as int)[0] == models[j as int]);
            assert(models.skip(j as int).skip(1) =~= models.skip(j + 1));
            assert(models[j as int] == (slices@[j as int].text@, slices@[j as int].variant));
            lemma_sum_lines_nonneg(models.skip(j + 1));
            lemma_sum_lines_nonneg(models.skip(j as int));
            crate::bytes::lemma_lines_in_le(models[j as int].0);
        }
        let ghost rest = models.skip(j as int);
        let ghost here = match models[j as int].1 {
            CommentVariant::Singleline => sl_lines(models[j as int].0, flc as int),
            CommentVariant::Multiline => LinesOutcome::Good(
                ml_lines(ml_content(models[j as int].0), flc as int),
            ),
        };
        proof {
            assert(all_lines(rest, flc as int) == (match here {
                LinesOutcome::Good(a) => match all_lines(
                    models.skip(j + 1),
                    flc + lines_in(models[j as int].0),
                ) {
                    LinesOutcome::Good(b) => LinesOutcome::Good(a + b),
                    inv => inv,
                },
                inv => inv,
            }));
        }
        let text = &slices[j].text;
        let v = slices[j].variant;
        let mut part: Vec<ConfigLine> = match v {
            CommentVariant::Singleline => {
                match strip_sl_slice(text.as_slice(), flc, ctx) {
                    Ok(p) => p,
                    Err(a) => {
                        proof {
                            assert(here matches LinesOutcome::Invalid { .. });
                            assert(all_lines(models, start as int) == here);
                        }
                        return Err(a);
                    },
                }
            },
            CommentVariant::Multiline => strip_ml_slice(text.as_slice(), flc),
        };
        proof {
            assert(here == LinesOutcome::Good(line_models(part@)));
        }
        let cnt = crate::bytes::lines_count(text.as_slice(), 0, text.len());
        proof {
            assert(text@.subrange(0, text@.len() as int) =~= text@);
            assert(cnt == lines_in(models[j as int].0));
            assert(line_models(out@ + part@) =~= line_models(out@) + line_models(part@));
            match all_lines(models.skip(j + 1), flc + lines_in(models[j as int].0)) {
                LinesOutcome::Good(b) => {
                    assert(line_models(out@) + (line_models(part@) + b) =~= (line_models(out@)
                        + line_models(part@)) + b);
                },
                LinesOutcome::Invalid { .. } => {},
            }
        }
        out.append(&mut part);
        flc = flc + cnt;
        j = j + 1;
    }
    proof {
        assert(models.skip(slices@.len() as int) =~= Seq::<(Seq<u8>, CommentVariant)>::empty());
        assert(line_models(out@) + Seq::<CLine>::empty() =~= line_models(out@));
    }
    Ok(out)
}


/// The body of line `k` (0-based) of `s`; empty past the last line.
pub open spec fn nth_line_of(s: Seq<u8>, k: int) -> Seq<u8>
    decreases s.len() via nth_line_of_dec
{
    if s.len() == 0 {
        Seq::<u8>::empty()
    } else if k <= 0 {
        line_body(s)
    } else {
        nth_line_of(s.skip(line_len(s)), k - 1)
    }
}

#[via_fn]
proof fn nth_line_of_dec(s: Seq<u8>, k: int) {
    crate::bytes::lemma_line_len(s);
}

/// Copy of line `k` (0-based) of `text`; empty past the last line.
pub fn nth_line(text: &[u8], k: usize) -> (r: Vec<u8>)
    ensures
        r@ == nth_line_of(text@, k as int),
{
    let n = text.len();
    let mut pos: usize = 0;
    let mut cnt: usize = k;
    proof {
        assert(text@.subrange(0, n as int) =~= text@);
    }
    while cnt > 0 && pos < n
        invariant
            pos <= n == text@.len(),
            cnt <= k,
            nth_line_of(text@, k as int) == nth_line_of(
                text@.subrange(pos as int, n as int),
                cnt as int,
            ),
        decreases cnt,
    {
        let ghost cur = text@.subrange(pos as int, n as int);
        let le = crate::bytes::line_end(text, pos, n);
        proof {
            crate::bytes::lemma_line_len(cur);
            assert(cur.skip(line_len(cur)) =~= text@.subrange(le as int, n as int));
        }
        pos = le;
        cnt = cnt - 1;
    }
    if pos >= n {
        proof {
            assert(text@.subrange(pos as int, n as int).len() == 0);
        }
        Vec::new()
    } else {
        let (_, b2) = body_end(text, pos, n);
        crate::bytes::copy_range(text, pos, b2)
    }
}


/// Law: single-line stripping round-trips. A line whose content was
/// extracted at column `p` can be rebuilt as the marker, one space, and the
/// content; stripping that rebuilt line succeeds at column three and yields
/// the same content, so the trimmed content of the rebuilt line equals the
/// trimmed content extracted from the original.
pub proof fn lemma_sl_round_trip(body: Seq<u8>)
    requires
        crate::bytes::filler_end(body, 47, 0) < body.len(),
    ensures
        ({
            let p = crate::bytes::filler_end(body, 47, 0);
            let content = body.skip(p);
            let rebuilt = sl_mark() + seq![32u8] + content;
            &&& crate::bytes::filler_end(rebuilt, 47, 0) == 3
            &&& rebuilt.skip(crate::bytes::filler_end(rebuilt, 47, 0)) == content
            &&& trimmed(rebuilt.skip(crate::bytes::filler_end(rebuilt, 47, 0))) == trimmed(
                body.skip(p),
            )
        }),
{
    let p = crate::bytes::filler_end(body, 47, 0);
    crate::bytes::lemma_filler_end(body, 47, 0);
    let content = body.skip(p);
    let rebuilt = sl_mark() + seq![32u8] + content;
    assert(rebuilt.len() == content.len() + 3);
    assert(rebuilt[0] == 47 && rebuilt[1] == 47 && rebuilt[2] == 32);
    assert(rebuilt[3] == body[p]);
    assert(!(rebuilt[3] == 47 || is_ws(rebuilt[3])));
    crate::bytes::lemma_filler_end(rebuilt, 47, 0);
    let fe = crate::bytes::filler_end(rebuilt, 47, 0);
    assert(fe == 3) by {
        if fe < 3 {
            assert(!(rebuilt[fe] == 47 || is_ws(rebuilt[fe])));
        } else if fe > 3 {
            assert(rebuilt[3] == 47 || is_ws(rebuilt[3]));
        }
    }
    assert(rebuilt.skip(3) =~= content);
}

} // verus!
