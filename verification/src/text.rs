//! Character-level helpers for building diagnostic messages.
//!
//! Alert descriptions, notes and caret comments are `String`s assembled from
//! literals, decimal numbers and cleaned-up parser messages.

use vstd::prelude::*;
use vstd::string::StringExecFns;
use vstd::string::StrSliceExecFns;

verus! {

/// Relies on `String::push`: appends exactly the one character.
#[verifier::external_body]
pub fn push_char(s: &mut String, c: char)
    ensures
        final(s)@ == old(s)@.push(c),
{
    s.push(c);
}

/// ASCII whitespace as characters: space, tab, line feed, vertical tab,
/// form feed, carriage return.
pub open spec fn is_ws_char(c: char) -> bool {
    c == ' ' || c == '\t' || c == '\n' || c == '\u{b}' || c == '\u{c}' || c == '\r'
}

/// First index at or after `from` holding a character that is not
/// whitespace, or the length when only whitespace follows.
pub open spec fn char_ws_end(s: Seq<char>, from: int) -> int
    decreases s.len() - from,
{
    if from < 0 {
        0
    } else if from >= s.len() {
        s.len() as int
    } else if !is_ws_char(s[from]) {
        from
    } else {
        char_ws_end(s, from + 1)
    }
}

/// Last bound of `s` with trailing whitespace removed.
pub open spec fn char_trim_end_idx(s: Seq<char>) -> int
    decreases s.len(),
{
    if s.len() == 0 {
        0
    } else if is_ws_char(s[s.len() - 1]) {
        char_trim_end_idx(s.drop_last())
    } else {
        s.len() as int
    }
}

/// `s` with whitespace removed from both ends.
pub open spec fn char_trimmed(s: Seq<char>) -> Seq<char> {
    let lo = char_ws_end(s, 0);
    let sub = s.skip(lo);
    sub.take(char_trim_end_idx(sub))
}

/// A parser message made one-line: every line feed replaced by a space, then
/// whitespace trimmed from both ends.
pub open spec fn spec_cleaned(s: Seq<char>) -> Seq<char> {
    char_trimmed(s.map_values(|c: char| if c == '\n' { ' ' } else { c }))
}

proof fn lemma_char_ws_end(s: Seq<char>, from: int)
    requires
        0 <= from <= s.len(),
    ensures
        from <= char_ws_end(s, from) <= s.len(),
        forall|i: int| from <= i < char_ws_end(s, from) ==> is_ws_char(#[trigger] s[i]),
        char_ws_end(s, from) < s.len() ==> !is_ws_char(s[char_ws_end(s, from)]),
    decreases s.len() - from,
{
    if from < s.len() && is_ws_char(s[from]) {
        lemma_char_ws_end(s, from + 1);
    }
}

proof fn lemma_char_trim_end_idx(s: Seq<char>)
    ensures
        0 <= char_trim_end_idx(s) <= s.len(),
        forall|i: int| char_trim_end_idx(s) <= i < s.len() ==> is_ws_char(#[trigger] s[i]),
        char_trim_end_idx(s) > 0 ==> !is_ws_char(s[char_trim_end_idx(s) - 1]),
    decreases s.len(),
{
    if s.len() > 0 && is_ws_char(s[s.len() - 1]) {
        lemma_char_trim_end_idx(s.drop_last());
        assert(forall|i: int|
            0 <= i < s.len() - 1 ==> s.drop_last()[i] == #[trigger] s[i]);
    }
}

/// Whether one character is ASCII whitespace.
fn ws_char(c: char) -> (r: bool)
    ensures
        r == is_ws_char(c),
{
    c == ' ' || c == '\t' || c == '\n' || c == '\u{b}' || c == '\u{c}' || c == '\r'
}

/// Make a parser message one-line: replace line feeds by spaces and trim
/// whitespace from both ends.
pub fn clean_message(msg: &str) -> (r: String)
    ensures
        r@ == spec_cleaned(msg@),
{
    let ghost mapped: Seq<char> = msg@.map_values(
        |c: char| if c == '\n' {
            ' '
        } else {
            c
        },
    );
    let n = msg.unicode_len();
    let mut lo: usize = 0;
    while lo < n && ws_char(msg.get_char(lo))
        invariant
            lo <= n == msg@.len(),
            mapped == msg@.map_values(
                |c: char| if c == '\n' {
                    ' '
                } else {
                    c
                },
            ),
            forall|j: int| 0 <= j < lo ==> is_ws_char(#[trigger] mapped[j]),
        decreases n - lo,
    {
        proof {
            assert(mapped[lo as int] == (if msg@[lo as int] == '\n' {
                ' '
            } else {
                msg@[lo as int]
            }));
        }
        lo = lo + 1;
    }
    let mut hi: usize = n;
    while hi > lo && ws_char(msg.get_char(hi - 1))
        invariant
            lo <= hi <= n == msg@.len(),
            mapped == msg@.map_values(
                |c: char| if c == '\n' {
                    ' '
                } else {
                    c
                },
            ),
            forall|j: int| hi <= j < n ==> is_ws_char(#[trigger] mapped[j]),
        decreases hi,
    {
        proof {
            assert(mapped[hi - 1] == (if msg@[hi - 1] == '\n' {
                ' '
            } else {
                msg@[hi - 1]
            }));
        }
        hi = hi - 1;
    }
    proof {
        if lo < n {
            assert(mapped[lo as int] == (if msg@[lo as int] == '\n' {
                ' '
            } else {
                msg@[lo as int]
            }));
        }
        if hi > lo {
            assert(mapped[hi - 1] == (if msg@[hi - 1] == '\n' {
                ' '
            } else {
                msg@[hi - 1]
            }));
        }
    }
    let mut out = String::new();
    let mut i: usize = lo;
    while i < hi
        invariant
            lo <= i <= hi <= msg@.len(),
            mapped == msg@.map_values(
                |c: char| if c == '\n' {
                    ' '
                } else {
                    c
                },
            ),
            out@ == mapped.subrange(lo as int, i as int),
        decreases hi - i,
    {
        let c = msg.get_char(i);
        if c == '\n' {
            push_char(&mut out, ' ');
        } else {
            push_char(&mut out, c);
        }
        proof {
            assert(out@ =~= mapped.subrange(lo as int, i + 1 as int));
        }
        i = i + 1;
    }
    proof {
        lemma_char_ws_end(mapped, 0);
        lemma_char_trim_end_idx(mapped.skip(lo as int));
        let lo_s = char_ws_end(mapped, 0);
        assert(lo_s == lo) by {
            if lo_s < lo {
                assert(is_ws_char(mapped[lo_s]));
            }
            if lo < lo_s {
                assert(is_ws_char(mapped[lo as int]));
            }
        }
        let sub = mapped.skip(lo as int);
        let e = char_trim_end_idx(sub);
        assert(e == hi - lo) by {
            if e < hi - lo {
                assert(is_ws_char(sub[(hi - lo - 1) as int]));
                assert(sub[(hi - lo - 1) as int] == mapped[hi - 1]);
            }
            if hi - lo < e {
                assert(is_ws_char(mapped[lo + e - 1]));
                assert(sub[e - 1] == mapped[lo + e - 1]);
            }
        }
        assert(out@ =~= char_trimmed(mapped));
    }
    out
}

/// The decimal digit character for a value below ten.
pub open spec fn spec_digit(d: int) -> char {
    if d == 0 {
        '0'
    } else if d == 1 {
        '1'
    } else if d == 2 {
        '2'
    } else if d == 3 {
        '3'
    } else if d == 4 {
        '4'
    } else if d == 5 {
        '5'
    } else if d == 6 {
        '6'
    } else if d == 7 {
        '7'
    } else if d == 8 {
        '8'
    } else {
        '9'
    }
}

/// The decimal rendering of `n`, most significant digit first.
pub open spec fn spec_decimal(n: nat) -> Seq<char>
    decreases n,
{
    if n < 10 {
        seq![spec_digit(n as int)]
    } else {
        spec_decimal(n / 10).push(spec_digit((n % 10) as int))
    }
}

fn digit_char(d: usize) -> (r: char)
    requires
        d < 10,
    ensures
        r == spec_digit(d as int),
{
    if d == 0 {
        '0'
    } else if d == 1 {
        '1'
    } else if d == 2 {
        '2'
    } else if d == 3 {
        '3'
    } else if d == 4 {
        '4'
    } else if d == 5 {
        '5'
    } else if d == 6 {
        '6'
    } else if d == 7 {
        '7'
    } else if d == 8 {
        '8'
    } else {
        '9'
    }
}

/// Append the decimal rendering of `n` to `s`.
pub fn append_decimal(s: &mut String, n: usize)
    ensures
        final(s)@ == old(s)@ + spec_decimal(n as nat),
    decreases n,
{
    if n < 10 {
        push_char(s, digit_char(n));
        proof {
            assert(s@ =~= old(s)@ + spec_decimal(n as nat));
        }
    } else {
        append_decimal(s, n / 10);
        push_char(s, digit_char(n % 10));
        proof {
            assert(s@ =~= old(s)@ + spec_decimal(n as nat));
        }
    }
}

/// Append a borrowed string to `s`.
pub fn append_str(s: &mut String, t: &str)
    ensures
        final(s)@ == old(s)@ + t@,
{
    s.append(t);
}


/// Whether two borrowed strings hold the same characters.
pub fn str_eq(a: &str, b: &str) -> (r: bool)
    ensures
        r == (a@ == b@),
{
    let n = a.unicode_len();
    let m = b.unicode_len();
    if n != m {
        proof {
            assert(a@ != b@);
        }
        return false;
    }
    let mut i: usize = 0;
    while i < n
        invariant
            i <= n == a@.len(),
            n == b@.len(),
            forall|j: int| 0 <= j < i ==> a@[j] == b@[j],
        decreases n - i,
    {
        if a.get_char(i) != b.get_char(i) {
            return false;
        }
        i = i + 1;
    }
    proof {
        assert(a@ =~= b@);
    }
    true
}

/// The characters of `s` from `from` on, as a fresh string.
pub fn substring_from(s: &str, from: usize) -> (r: String)
    requires
        from <= s@.len(),
    ensures
        r@ == s@.skip(from as int),
{
    let n = s.unicode_len();
    let mut out = String::new();
    let mut i: usize = from;
    while i < n
        invariant
            from <= i <= n == s@.len(),
            out@ == s@.subrange(from as int, i as int),
        decreases n - i,
    {
        push_char(&mut out, s.get_char(i));
        proof {
            assert(out@ =~= s@.subrange(from as int, i + 1 as int));
        }
        i = i + 1;
    }
    proof {
        assert(out@ =~= s@.skip(from as int));
    }
    out
}

} // verus!
