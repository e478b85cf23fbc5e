//! The archive filter of a session.
//!
//! A filter lists the archive ids a copytool serves. The id `0` stands for
//! every archive, and so does the empty list.
use vstd::prelude::*;

verus! {

/// The archive id that stands for every archive.
pub const ANY_ARCHIVE: u32 = 0;

/// Whether the filter admits every archive.
pub open spec fn accepts_any(filter: Seq<u32>) -> bool {
    filter.len() == 0 || filter.contains(ANY_ARCHIVE)
}

/// Whether the filter admits batches for the archive `id`.
pub open spec fn filter_accepts(filter: Seq<u32>, id: u32) -> bool {
    accepts_any(filter) || filter.contains(id)
}

/// The filter in normal form: the single wildcard if it admits every
/// archive, else the filter as it is.
pub open spec fn normalized(filter: Seq<u32>) -> Seq<u32> {
    if accepts_any(filter) {
        seq![ANY_ARCHIVE]
    } else {
        filter
    }
}

/// Whether the filter is in normal form.
pub open spec fn is_normal(filter: Seq<u32>) -> bool {
    filter == seq![ANY_ARCHIVE] || (filter.len() > 0 && !filter.contains(ANY_ARCHIVE))
}

/// Whether `id` occurs in `ids`.
pub fn contains_id(ids: &[u32], id: u32) -> (found: bool)
    ensures
        found == ids@.contains(id),
{
    let mut at: usize = 0;
    while at < ids.len()
        invariant
            at <= ids.len(),
            forall|i: int| 0 <= i < at ==> ids@[i] != id,
        decreases ids.len() - at,
    {
        if ids[at] == id {
            return true;
        }
        at = at + 1;
    }
    false
}

/// Whether the filter admits batches for the archive `id`.
pub fn admits(filter: &[u32], id: u32) -> (admitted: bool)
    ensures
        admitted == filter_accepts(filter@, id),
{
    filter.len() == 0 || contains_id(filter, ANY_ARCHIVE) || contains_id(filter, id)
}

/// Brings a filter into normal form: a filter that is empty or holds the
/// wildcard becomes the single wildcard, any other is kept as it is.
pub fn normalize(archives: Vec<u32>) -> (normal: Vec<u32>)
    ensures
        normal@ == normalized(archives@),
        is_normal(normal@),
{
    let mut archives = archives;
    if contains_id(archives.as_slice(), ANY_ARCHIVE) {
        archives.clear();
    }
    if archives.len() == 0 {
        archives.push(ANY_ARCHIVE);
    }
    proof {
    }
    archives
}

} // verus!
