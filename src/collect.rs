use vstd::prelude::*;
use crate::naming::{contains_marker, has_marker};

verus! {

/// One entry met while walking the directory tree.
pub struct Entry {
    /// The entry's full path, as text.
    pub path: String,
    /// Whether the entry is an ordinary file.
    pub is_file: bool,
}

/// An entry is to be processed when it is an ordinary file whose path contains `@2x`.
pub open spec fn is_candidate(e: Entry) -> bool {
    e.is_file && has_marker(e.path@)
}

/// Whether `e` is to be processed.
pub fn candidate(e: &Entry) -> (r: bool)
    ensures
        r == is_candidate(*e),
{
    e.is_file && contains_marker(e.path.as_str())
}

/// The positions, in walking order, of the entries to be processed: an ordinary file whose
/// path contains `@2x`. Every other entry is left out.
pub fn candidate_indices(entries: &Vec<Entry>) -> (r: Vec<usize>)
    ensures
        forall|k: int| 0 <= k < r@.len() ==> r@[k] < entries@.len(),
        forall|k: int| 0 <= k < r@.len() ==> is_candidate(entries@[r@[k] as int]),
        forall|k: int, l: int| 0 <= k < l < r@.len() ==> r@[k] < r@[l],
        forall|j: int|
            0 <= j < entries@.len() && is_candidate(#[trigger] entries@[j]) ==> r@.contains(
                j as usize,
            ),
{
    let mut r: Vec<usize> = Vec::new();
    let mut i: usize = 0;
    while i < entries.len()
        invariant
            i <= entries@.len(),
            forall|k: int| 0 <= k < r@.len() ==> r@[k] < i,
            forall|k: int| 0 <= k < r@.len() ==> is_candidate(entries@[r@[k] as int]),
            forall|k: int, l: int| 0 <= k < l < r@.len() ==> r@[k] < r@[l],
            forall|j: int|
                0 <= j < i && is_candidate(#[trigger] entries@[j]) ==> r@.contains(j as usize),
        decreases entries@.len() - i,
    {
        let ghost before = r@;
        if candidate(&entries[i]) {
            r.push(i);
        }
        proof {
            assert forall|j: int|
                0 <= j < i + 1 && is_candidate(#[trigger] entries@[j]) implies r@.contains(
                j as usize,
            ) by {
                if j < i {
                    assert(before.contains(j as usize));
                    let w = choose|w: int| 0 <= w < before.len() && before[w] == j as usize;
                    assert(r@[w] == j as usize);
                } else {
                    assert(r@[r@.len() - 1] == j as usize);
                }
            }
        }
        i = i + 1;
    }
    r
}

} // verus!
