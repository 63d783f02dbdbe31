//! Byte-level text primitives.
//!
//! The file under analysis is handled as a byte sequence, since every range
//! that the walker records is a byte offset. The helpers here classify
//! whitespace the way `char::is_whitespace` does on ASCII, locate line ends,
//! and copy or splice ranges of a buffer.

use vstd::prelude::*;

verus! {

/// ASCII whitespace: space, tab, line feed, vertical tab, form feed,
/// carriage return.
pub open spec fn is_ws(b: u8) -> bool {
    b == 32 || (9 <= b && b <= 13)
}

/// True when every byte of `s` is whitespace.
pub open spec fn is_blank(s: Seq<u8>) -> bool {
    forall|i: int| 0 <= i < s.len() ==> is_ws(#[trigger] s[i])
}

/// First index at or after `from` holding a byte that is not whitespace,
/// or `s.len()` when only whitespace follows.
pub open spec fn ws_end(s: Seq<u8>, from: int) -> int
    decreases s.len() - from,
{
    if from < 0 {
        0
    } else if from >= s.len() {
        s.len() as int
    } else if !is_ws(s[from]) {
        from
    } else {
        ws_end(s, from + 1)
    }
}

pub proof fn lemma_ws_end(s: Seq<u8>, from: int)
    requires
        0 <= from <= s.len(),
    ensures
        from <= ws_end(s, from) <= s.len(),
        forall|i: int| from <= i < ws_end(s, from) ==> is_ws(#[trigger] s[i]),
        ws_end(s, from) < s.len() ==> !is_ws(s[ws_end(s, from)]),
    decreases s.len() - from,
{
    if from < s.len() && is_ws(s[from]) {
        lemma_ws_end(s, from + 1);
    }
}

/// Last bound of `s` with trailing whitespace removed: the least `e` such
/// that everything from `e` on is whitespace.
pub open spec fn trim_end_idx(s: Seq<u8>) -> int
    decreases s.len(),
{
    if s.len() == 0 {
        0
    } else if is_ws(s[s.len() - 1]) {
        trim_end_idx(s.drop_last())
    } else {
        s.len() as int
    }
}

pub proof fn lemma_trim_end_idx(s: Seq<u8>)
    ensures
        0 <= trim_end_idx(s) <= s.len(),
        forall|i: int| trim_end_idx(s) <= i < s.len() ==> is_ws(#[trigger] s[i]),
        trim_end_idx(s) > 0 ==> !is_ws(s[trim_end_idx(s) - 1]),
    decreases s.len(),
{
    if s.len() > 0 && is_ws(s[s.len() - 1]) {
        lemma_trim_end_idx(s.drop_last());
        assert(forall|i: int|
            0 <= i < s.len() - 1 ==> s.drop_last()[i] == #[trigger] s[i]);
    }
}

/// The view of `s` with whitespace removed from both ends.
pub open spec fn trimmed(s: Seq<u8>) -> Seq<u8> {
    let lo = ws_end(s, 0);
    let sub = s.skip(lo);
    sub.take(trim_end_idx(sub))
}

pub proof fn lemma_trimmed_len(s: Seq<u8>)
    ensures
        trimmed(s).len() <= s.len(),
        is_blank(s) ==> trimmed(s).len() == 0,
{
    lemma_ws_end(s, 0);
    lemma_trim_end_idx(s.skip(ws_end(s, 0)));
    if is_blank(s) {
        let lo = ws_end(s, 0);
        if lo < s.len() {
            assert(is_ws(s[lo]));
        }
    }
}

/// Length of the first line of `s`, including its terminating line feed;
/// the whole of `s` when no line feed occurs.
pub open spec fn line_len(s: Seq<u8>) -> int
    decreases s.len(),
{
    if s.len() == 0 {
        0
    } else if s[0] == 10 {
        1
    } else {
        1 + line_len(s.skip(1))
    }
}

pub proof fn lemma_line_len(s: Seq<u8>)
    ensures
        0 <= line_len(s) <= s.len(),
        s.len() > 0 ==> 1 <= line_len(s),
        forall|i: int| 0 <= i < line_len(s) - 1 ==> s[i] != 10,
        line_len(s) > 0 && s[line_len(s) - 1] != 10 ==> line_len(s) == s.len(),
        line_len(s) < s.len() ==> s[line_len(s) - 1] == 10,
    decreases s.len(),
{
    if s.len() > 0 && s[0] != 10 {
        lemma_line_len(s.skip(1));
        assert forall|i: int| 0 <= i < line_len(s) - 1 implies s[i] != 10 by {
            if i >= 1 {
                assert(s.skip(1)[i - 1] == s[i]);
            }
        }
    }
}

/// True when `p` occurs at the front of `s`.
pub open spec fn starts_with(s: Seq<u8>, p: Seq<u8>) -> bool {
    p.len() <= s.len() && s.take(p.len() as int) == p
}

/// Whether one byte is ASCII whitespace.
pub fn ws_byte(b: u8) -> (r: bool)
    ensures
        r == is_ws(b),
{
    b == 32 || (9 <= b && b <= 13)
}

/// First non-whitespace position at or after `from`, up to `hi`.
pub fn first_non_ws(s: &[u8], from: usize, hi: usize) -> (r: usize)
    requires
        from <= hi <= s@.len(),
    ensures
        from <= r <= hi,
        forall|i: int| from <= i < r ==> is_ws(#[trigger] s@[i]),
        r < hi ==> !is_ws(s@[r as int]),
{
    let mut i: usize = from;
    while i < hi && ws_byte(s[i])
        invariant
            from <= i <= hi <= s@.len(),
            forall|j: int| from <= j < i ==> is_ws(#[trigger] s@[j]),
        decreases hi - i,
    {
        i = i + 1;
    }
    i
}

/// Last bound of `s[from..hi]` with trailing whitespace removed.
pub fn last_non_ws(s: &[u8], from: usize, hi: usize) -> (r: usize)
    requires
        from <= hi <= s@.len(),
    ensures
        from <= r <= hi,
        forall|i: int| r <= i < hi ==> is_ws(#[trigger] s@[i]),
        r > from ==> !is_ws(s@[r - 1]),
{
    let mut i: usize = hi;
    while i > from && ws_byte(s[i - 1])
        invariant
            from <= i <= hi <= s@.len(),
            forall|j: int| i <= j < hi ==> is_ws(#[trigger] s@[j]),
        decreases i,
    {
        i = i - 1;
    }
    i
}

/// True when every byte of `s[from..hi]` is whitespace.
pub fn blank_range(s: &[u8], from: usize, hi: usize) -> (r: bool)
    requires
        from <= hi <= s@.len(),
    ensures
        r == is_blank(s@.subrange(from as int, hi as int)),
{
    let e = first_non_ws(s, from, hi);
    proof {
        let sub = s@.subrange(from as int, hi as int);
        if e == hi {
            assert(forall|i: int|
                0 <= i < sub.len() ==> is_ws(#[trigger] sub[i]) == is_ws(
                    s@[i + from],
                ));
        } else {
            assert(!is_ws(sub[e - from]));
        }
    }
    e == hi
}

/// Position one past the first line feed at or after `from`, or `hi` when
/// no line feed occurs before `hi`.
pub fn line_end(s: &[u8], from: usize, hi: usize) -> (r: usize)
    requires
        from <= hi <= s@.len(),
    ensures
        from <= r <= hi,
        r - from == line_len(s@.subrange(from as int, hi as int)),
{
    let mut i: usize = from;
    while i < hi && s[i] != 10
        invariant
            from <= i <= hi <= s@.len(),
            forall|j: int| from <= j < i ==> s@[j] != 10,
        decreases hi - i,
    {
        i = i + 1;
    }
    let r: usize = if i < hi { i + 1 } else { i };
    proof {
        let sub = s@.subrange(from as int, hi as int);
        lemma_line_len(sub);
        assert(forall|j: int| 0 <= j < sub.len() ==> sub[j] == s@[j + from]);
        if i < hi {
            assert(sub[i - from] == 10);
            if line_len(sub) < r - from {
                assert(s@[line_len(sub) - 1 + from] == 10);
            }
        } else {
            if line_len(sub) < sub.len() {
                assert(s@[line_len(sub) - 1 + from] == 10);
            }
        }
    }
    r
}

/// Whether `p` occurs at position `at` of `s`, wholly before `hi`.
pub fn starts_with_at(s: &[u8], at: usize, hi: usize, p: &[u8]) -> (r: bool)
    requires
        at <= hi <= s@.len(),
    ensures
        r == starts_with(s@.subrange(at as int, hi as int), p@),
{
    let n = p.len();
    if hi - at < n {
        return false;
    }
    let mut i: usize = 0;
    while i < n && s[at + i] == p[i]
        invariant
            i <= n == p@.len(),
            at + n <= hi <= s@.len(),
            forall|j: int| 0 <= j < i ==> s@[at + j] == p@[j],
        decreases n - i,
    {
        i = i + 1;
    }
    proof {
        let sub = s@.subrange(at as int, hi as int);
        if i == n {
            assert(sub.take(n as int) =~= p@);
        } else {
            assert(sub.take(n as int)[i as int] == s@[at + i]);
        }
    }
    i == n
}

/// Copy of `s[from..hi]` as a fresh vector.
pub fn copy_range(s: &[u8], from: usize, hi: usize) -> (r: Vec<u8>)
    requires
        from <= hi <= s@.len(),
    ensures
        r@ == s@.subrange(from as int, hi as int),
{
    let mut out: Vec<u8> = Vec::new();
    let mut i: usize = from;
    while i < hi
        invariant
            from <= i <= hi <= s@.len(),
            out@ =~= s@.subrange(from as int, i as int),
        decreases hi - i,
    {
        let b = s[i];
        out.push(b);
        proof {
            assert(out@ =~= s@.subrange(from as int, i + 1 as int));
        }
        i = i + 1;
    }
    out
}

/// Append `s[from..hi]` to `out`.
pub fn append_range(out: &mut Vec<u8>, s: &[u8], from: usize, hi: usize)
    requires
        from <= hi <= s@.len(),
    ensures
        final(out)@ == old(out)@ + s@.subrange(from as int, hi as int),
{
    let mut i: usize = from;
    while i < hi
        invariant
            from <= i <= hi <= s@.len(),
            out@ =~= old(out)@ + s@.subrange(from as int, i as int),
        decreases hi - i,
    {
        let b = s[i];
        out.push(b);
        proof {
            assert(out@ =~= old(out)@ + s@.subrange(from as int, i + 1 as int));
        }
        i = i + 1;
    }
    proof {
        assert(out@ =~= old(out)@ + s@.subrange(from as int, hi as int));
    }
}

/// The byte sequence that one range replacement leaves behind: everything
/// before `from`, then `rep`, then everything from `hi` on.
pub open spec fn spliced(s: Seq<u8>, from: int, hi: int, rep: Seq<u8>) -> Seq<u8> {
    s.take(from) + rep + s.skip(hi)
}

/// Replace `v[from..hi]` with `rep`, as `String::replace_range` does.
pub fn splice(v: &Vec<u8>, from: usize, hi: usize, rep: &[u8]) -> (r: Vec<u8>)
    requires
        from <= hi <= v@.len(),
    ensures
        r@ == spliced(v@, from as int, hi as int, rep@),
{
    let mut out: Vec<u8> = Vec::new();
    append_range(&mut out, v.as_slice(), 0, from);
    append_range(&mut out, rep, 0, rep.len());
    append_range(&mut out, v.as_slice(), hi, v.len());
    proof {
        assert(rep@.subrange(0, rep@.len() as int) =~= rep@);
        assert(out@ =~= spliced(v@, from as int, hi as int, rep@));
    }
    out
}

/// Line feeds in `s`.
pub open spec fn count_nl(s: Seq<u8>) -> int
    decreases s.len(),
{
    if s.len() == 0 {
        0
    } else {
        count_nl(s.drop_last()) + if s.last() == 10 {
            1int
        } else {
            0int
        }
    }
}

/// Length of the last line of `s` (everything after the last line feed).
pub open spec fn last_line_len(s: Seq<u8>) -> int
    decreases s.len(),
{
    if s.len() == 0 {
        0
    } else if s.last() == 10 {
        0
    } else {
        1 + last_line_len(s.drop_last())
    }
}

/// How many lines `str::lines` sees in `s`: a trailing line feed opens no
/// further line.
pub open spec fn lines_in(s: Seq<u8>) -> int {
    if s.len() == 0 {
        0
    } else if s.last() == 10 {
        count_nl(s)
    } else {
        count_nl(s) + 1
    }
}

/// Length of the last line `str::lines` sees in `s`.
pub open spec fn last_line_col(s: Seq<u8>) -> int {
    if s.len() > 0 && s.last() == 10 {
        last_line_len(s.drop_last())
    } else {
        last_line_len(s)
    }
}

pub proof fn lemma_count_nl_le(s: Seq<u8>)
    ensures
        0 <= count_nl(s) <= s.len(),
    decreases s.len(),
{
    if s.len() > 0 {
        lemma_count_nl_le(s.drop_last());
    }
}


/// How many lines `str::lines` sees never exceeds the byte count plus one.
pub proof fn lemma_lines_in_le(s: Seq<u8>)
    ensures
        0 <= lines_in(s) <= s.len() + 1,
{
    lemma_count_nl_le(s);
}

/// First index at or after `from` whose byte is neither the filler byte `m`
/// nor whitespace, or `s.len()` when no such byte follows.
pub open spec fn filler_end(s: Seq<u8>, m: u8, from: int) -> int
    decreases s.len() - from,
{
    if from < 0 {
        0
    } else if from >= s.len() {
        s.len() as int
    } else if !(s[from] == m || is_ws(s[from])) {
        from
    } else {
        filler_end(s, m, from + 1)
    }
}

pub proof fn lemma_filler_end(s: Seq<u8>, m: u8, from: int)
    requires
        0 <= from <= s.len(),
    ensures
        from <= filler_end(s, m, from) <= s.len(),
        forall|i: int|
            from <= i < filler_end(s, m, from) ==> ((#[trigger] s[i]) == m || is_ws(s[i])),
        filler_end(s, m, from) < s.len() ==> !(s[filler_end(s, m, from)] == m || is_ws(
            s[filler_end(s, m, from)],
        )),
    decreases s.len() - from,
{
    if from < s.len() && (s[from] == m || is_ws(s[from])) {
        lemma_filler_end(s, m, from + 1);
    }
}

/// First position in `s[from..hi]` holding a byte that is neither `m` nor
/// whitespace, or `hi` when only filler follows.
pub fn filler_scan(s: &[u8], from: usize, hi: usize, m: u8) -> (r: usize)
    requires
        from <= hi <= s@.len(),
    ensures
        r - from == filler_end(s@.subrange(from as int, hi as int), m, 0),
        from <= r <= hi,
{
    let ghost sub = s@.subrange(from as int, hi as int);
    let mut i: usize = from;
    while i < hi && (s[i] == m || ws_byte(s[i]))
        invariant
            from <= i <= hi <= s@.len(),
            sub == s@.subrange(from as int, hi as int),
            forall|j: int| 0 <= j < i - from ==> ((#[trigger] sub[j]) == m || is_ws(sub[j])),
        decreases hi - i,
    {
        proof {
            assert(sub[i - from] == s@[i as int]);
        }
        i = i + 1;
    }
    proof {
        lemma_filler_end(sub, m, 0);
        let fe = filler_end(sub, m, 0);
        if i < hi {
            assert(sub[i - from] == s@[i as int]);
        }
        assert(fe == i - from) by {
            if fe < i - from {
                assert(!(sub[fe] == m || is_ws(sub[fe])));
            } else if fe > i - from {
                assert(sub[i - from] == m || is_ws(sub[i - from]));
            }
        }
    }
    i
}

/// How many lines `str::lines` sees in `s[from..hi]`.
pub fn lines_count(s: &[u8], from: usize, hi: usize) -> (r: usize)
    requires
        from <= hi <= s@.len(),
    ensures
        r == lines_in(s@.subrange(from as int, hi as int)),
{
    let ghost sub = s@.subrange(from as int, hi as int);
    let mut cnt: usize = 0;
    let mut i: usize = from;
    proof {
        assert(sub.take(0) =~= Seq::<u8>::empty());
    }
    while i < hi
        invariant
            from <= i <= hi <= s@.len(),
            sub == s@.subrange(from as int, hi as int),
            cnt == count_nl(sub.take(i - from)),
            cnt <= i - from,
        decreases hi - i,
    {
        proof {
            assert(sub.take(i - from + 1).drop_last() =~= sub.take(i - from));
            assert(sub.take(i - from + 1).last() == s@[i as int]);
        }
        if s[i] == 10 {
            cnt = cnt + 1;
        }
        i = i + 1;
    }
    proof {
        assert(sub.take(hi - from) =~= sub);
        if hi > from {
            assert(sub.last() == s@[hi - 1]);
        }
        lemma_count_nl_le(sub);
    }
    if from == hi {
        0
    } else if s[hi - 1] == 10 {
        cnt
    } else {
        proof {
            assert(count_nl(sub) == count_nl(sub.drop_last()));
            lemma_count_nl_le(sub.drop_last());
        }
        cnt + 1
    }
}


/// `ws_end(s, 0)` is the one bound with only whitespace before it and a
/// non-whitespace byte (or the end) at it.
pub proof fn lemma_ws_end_at(s: Seq<u8>, r: int)
    requires
        0 <= r <= s.len(),
        forall|i: int| 0 <= i < r ==> is_ws(#[trigger] s[i]),
        r < s.len() ==> !is_ws(s[r]),
    ensures
        ws_end(s, 0) == r,
{
    lemma_ws_end(s, 0);
    if ws_end(s, 0) < r {
        assert(is_ws(s[ws_end(s, 0)]));
    } else if ws_end(s, 0) > r {
        assert(is_ws(s[r]));
    }
}

} // verus!
