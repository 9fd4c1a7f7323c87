//! Beat-list rules of the measurement pipeline that do not depend on the
//! signal values themselves.

use vstd::prelude::*;

verus! {

/// The beats kept after edge trimming: the first and last are dropped when
/// more than four were found; shorter lists are kept whole.
pub open spec fn trimmed_beats<T>(beats: Seq<T>) -> Seq<T> {
    if beats.len() > 4 {
        beats.subrange(1, beats.len() - 1)
    } else {
        beats
    }
}

/// Drop the first and last beat to avoid filter-settling and truncation
/// artefacts at the buffer edges (only when more than four beats exist).
pub fn trim_edges<T>(beats: Vec<T>) -> (r: Vec<T>)
    ensures
        r@ == trimmed_beats(beats@),
{
    let mut beats = beats;
    if beats.len() > 4 {
        beats.remove(0);
        beats.pop();
    }
    beats
}

} // verus!
