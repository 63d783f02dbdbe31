//! Synthesis of the three textual views of a file from recorded byte-range
//! modifications.
//!
//! The walker records one range per qualifying function: the body of an
//! ordinary test function, to be neutralized by a single statement
//! terminator, or the whole template and body of the entry point, to be
//! removed. Ranges are applied back to front — highest start offset first —
//! so an applied edit can never shift a range that is still waiting.

use vstd::prelude::*;
use crate::bytes::spliced;
use crate::bytes::splice;

verus! {

/// One pending edit: the half-open byte range `[start, end)` and whether it
/// belongs to the entry point (removed outright) or to an ordinary test
/// function (replaced by `;`).
#[derive(Clone, Copy, PartialEq, Eq, Structural, Debug)]
pub struct CleanRange {
    pub start: usize,
    pub end: usize,
    pub is_entry: bool,
}

/// The three textual views of one file.
#[derive(Debug)]
pub struct Environment {
    /// The untouched text.
    pub full: Vec<u8>,
    /// The text with the entry point's template and body removed.
    pub mainless: Vec<u8>,
    /// The text with every recorded range edited out.
    pub templated: Vec<u8>,
}

/// What a range is replaced with: nothing for the entry point, a statement
/// terminator for a test function's body.
pub open spec fn replacement_of(r: CleanRange) -> Seq<u8> {
    if r.is_entry {
        Seq::<u8>::empty()
    } else {
        seq![59u8]
    }
}

/// Ranges fit the text, come in ascending start order, and never overlap.
pub open spec fn ranges_wf(rs: Seq<CleanRange>, len: int) -> bool {
    &&& forall|i: int|
        0 <= i < rs.len() ==> (#[trigger] rs[i]).start <= rs[i].end <= len
    &&& forall|i: int, j: int|
        0 <= i < j < rs.len() ==> (#[trigger] rs[i]).end <= (#[trigger] rs[j]).start
}

/// The text after all ranges are applied back to front: the edit with the
/// highest start offset is applied to the raw text, each earlier edit to the
/// outcome of the later ones.
pub open spec fn apply_back(text: Seq<u8>, rs: Seq<CleanRange>) -> Seq<u8>
    decreases rs.len(),
{
    if rs.len() == 0 {
        text
    } else {
        apply_back(
            spliced(text, rs.last().start as int, rs.last().end as int, replacement_of(rs.last())),
            rs.drop_last(),
        )
    }
}

/// The text with one range removed outright, as the mainless view removes
/// the entry point.
pub open spec fn removed(text: Seq<u8>, range: Option<(usize, usize)>) -> Seq<u8> {
    match range {
        Some((start, end)) => spliced(text, start as int, end as int, Seq::<u8>::empty()),
        None => text,
    }
}

/// Apply every recorded range to `text`, back to front.
pub fn apply_ranges(text: &Vec<u8>, rs: &Vec<CleanRange>) -> (r: Vec<u8>)
    requires
        ranges_wf(rs@, text@.len() as int),
    ensures
        r@ == apply_back(text@, rs@),
{
    let mut cur: Vec<u8> = crate::bytes::copy_range(text.as_slice(), 0, text.len());
    proof {
        assert(cur@ =~= text@);
        assert(rs@.take(rs@.len() as int) =~= rs@);
    }
    let mut idx: usize = rs.len();
    while idx > 0
        invariant
            idx <= rs@.len(),
            ranges_wf(rs@, text@.len() as int),
            apply_back(text@, rs@) == apply_back(cur@, rs@.take(idx as int)),
            if idx == rs@.len() {
                text@.len() <= cur@.len()
            } else {
                rs@[idx as int].start as int <= cur@.len()
            },
        decreases idx,
    {
        let j = idx - 1;
        let range = rs[j];
        proof {
            if idx < rs@.len() {
                assert(rs@[j as int].end <= rs@[idx as int].start);
            } else {
                assert(rs@[j as int].end <= text@.len());
            }
        }
        let rep: Vec<u8> = if range.is_entry {
            Vec::new()
        } else {
            let mut v: Vec<u8> = Vec::new();
            v.push(59);
            v
        };
        proof {
            assert(rep@ =~= replacement_of(rs@[j as int]));
        }
        let next = splice(&cur, range.start, range.end, rep.as_slice());
        proof {
            assert(rs@.take(idx as int).last() == rs@[j as int]);
            assert(rs@.take(idx as int).drop_last() =~= rs@.take(j as int));
            assert(apply_back(cur@, rs@.take(idx as int)) == apply_back(
                next@,
                rs@.take(j as int),
            ));
        }
        cur = next;
        idx = j;
    }
    proof {
        assert(rs@.take(0) =~= Seq::<CleanRange>::empty());
        assert(apply_back(cur@, rs@.take(0)) == cur@);
    }
    cur
}

/// Build the three views of `text` from the recorded ranges and the entry
/// point's overall range. Reads nothing but its arguments; the same inputs
/// always give the same three views.
pub fn synthesize(
    text: &Vec<u8>,
    clean: &Vec<CleanRange>,
    main_range: Option<(usize, usize)>,
) -> (r: Environment)
    requires
        ranges_wf(clean@, text@.len() as int),
        main_range matches Some((start, end)) ==> start <= end <= text@.len(),
    ensures
        r.full@ == text@,
        r.mainless@ == removed(text@, main_range),
        r.templated@ == apply_back(text@, clean@),
{
    let full = crate::bytes::copy_range(text.as_slice(), 0, text.len());
    let mainless = match main_range {
        Some((start, end)) => {
            let empty: Vec<u8> = Vec::new();
            splice(text, start, end, empty.as_slice())
        },
        None => crate::bytes::copy_range(text.as_slice(), 0, text.len()),
    };
    let templated = apply_ranges(text, clean);
    proof {
        assert(full@ =~= text@);
        match main_range {
            Some((start, end)) => {
                assert(mainless@ =~= removed(text@, main_range));
            },
            None => {
                assert(mainless@ =~= removed(text@, main_range));
            },
        }
    }
    Environment { full, mainless, templated }
}

/// Law: synthesis is idempotent. Two runs over the same file text and the
/// same modification set produce byte-identical templated views, since each
/// view is pinned to a single function of the inputs.
pub proof fn lemma_synthesis_deterministic(
    e1: Environment,
    e2: Environment,
    text: Seq<u8>,
    clean: Seq<CleanRange>,
)
    requires
        e1.templated@ == apply_back(text, clean),
        e2.templated@ == apply_back(text, clean),
    ensures
        e1.templated@ == e2.templated@,
{
}

} // verus!
