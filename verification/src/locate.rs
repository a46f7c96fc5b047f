//! The project locator: the upward directory search that resolves an
//! arbitrary starting directory to the project root.
//!
//! The caller canonicalizes the starting path and reports, for every
//! directory on the ascending chain, whether it directly contains the marker
//! configuration file `ao.toml`. The chain is given as a vector of booleans
//! indexed by depth: index 0 is the filesystem root, the last index is the
//! starting directory itself. The locator is the walk over that chain; it
//! returns the depth of the first directory, counted from the start upward,
//! that holds the marker.

use vstd::prelude::*;

use crate::errors::AoError;
use crate::errors::ErrorKind;
use crate::errors::root_not_found_msg;

verus! {

/// The depth at which the upward search stops: the greatest index whose
/// directory holds the marker file, or `None` when no directory on the chain
/// does.
pub open spec fn root_depth(markers: Seq<bool>) -> Option<int>
    decreases markers.len(),
{
    if markers.len() == 0 {
        None
    } else if markers.last() {
        Some(markers.len() - 1)
    } else {
        root_depth(markers.drop_last())
    }
}

/// What `root_depth` finds is a marker-bearing directory, and the deepest
/// one: everything strictly below it on the chain is marker-free.
pub proof fn lemma_root_depth_is_deepest_marker(markers: Seq<bool>)
    ensures
        match root_depth(markers) {
            Some(i) => 0 <= i < markers.len() && markers[i] && (forall|j: int|
                i < j < markers.len() ==> !markers[j]),
            None => true,
        },
    decreases markers.len(),
{
    if markers.len() > 0 && !markers.last() {
        lemma_root_depth_is_deepest_marker(markers.drop_last());
        assert(forall|j: int|
            0 <= j < markers.len() - 1 ==> markers.drop_last()[j] == markers[j]);
        match root_depth(markers.drop_last()) {
            Some(i) => {
                assert(markers.drop_last()[i]);
                assert forall|j: int| i < j < markers.len() implies !markers[j] by {
                    if j == markers.len() - 1 {
                        assert(!markers.last());
                    } else {
                        assert(!markers.drop_last()[j]);
                    }
                }
            },
            None => {
            },
        }
    }
}

/// The search comes up empty exactly when no directory on the ascending
/// chain holds the marker file.
pub proof fn lemma_root_not_found_iff_no_marker(markers: Seq<bool>)
    ensures
        root_depth(markers) is None <==> (forall|i: int|
            0 <= i < markers.len() ==> !markers[i]),
    decreases markers.len(),
{
    if markers.len() > 0 {
        lemma_root_not_found_iff_no_marker(markers.drop_last());
        assert(forall|j: int|
            0 <= j < markers.len() - 1 ==> markers.drop_last()[j] == markers[j]);
        if !markers.last() && root_depth(markers) is None {
            assert forall|i: int| 0 <= i < markers.len() implies !markers[i] by {
                if i == markers.len() - 1 {
                    assert(!markers.last());
                } else {
                    assert(!markers.drop_last()[i]);
                }
            }
        }
    }
}

/// Starting the search anywhere inside a project tree finds the same root as
/// starting at the root itself: extending the chain downward with
/// marker-free directories never changes the outcome.
pub proof fn lemma_deeper_start_same_root(base: Seq<bool>, ext: Seq<bool>)
    requires
        forall|j: int| 0 <= j < ext.len() ==> !ext[j],
    ensures
        root_depth(base + ext) == root_depth(base),
    decreases ext.len(),
{
    if ext.len() == 0 {
        assert(base + ext =~= base);
    } else {
        assert((base + ext).last() == ext.last());
        assert((base + ext).drop_last() =~= base + ext.drop_last());
        lemma_deeper_start_same_root(base, ext.drop_last());
    }
}

/// Walks upward from the starting directory and returns the depth of the
/// first directory on the chain that directly contains the marker file.
///
/// `markers[i]` reports whether the ancestor at depth `i` holds the marker;
/// the last entry stands for the starting directory. `start_path` is only
/// quoted in the failure message.
pub fn find_project_root(start_path: &str, markers: &Vec<bool>) -> (r: Result<usize, AoError>)
    ensures
        match r {
            Ok(i) => root_depth(markers@) == Some(i as int),
            Err(e) => {
                &&& root_depth(markers@) is None
                &&& e.kind == ErrorKind::RootNotFound
                &&& e.message@ == root_not_found_msg(start_path@)
            },
        },
{
    let mut i: usize = markers.len();
    assert(markers@.subrange(0, markers@.len() as int) =~= markers@);
    while i > 0
        invariant
            i <= markers@.len(),
            root_depth(markers@) == root_depth(markers@.subrange(0, i as int)),
        decreases i,
    {
        i = i - 1;
        let here = markers[i];
        assert(markers@.subrange(0, i as int + 1).last() == markers@[i as int]);
        assert(markers@.subrange(0, i as int + 1).drop_last() =~= markers@.subrange(0, i as int));
        if here {
            return Ok(i);
        }
    }
    assert(markers@.subrange(0, 0) =~= Seq::<bool>::empty());
    Err(AoError::root_not_found(start_path))
}

} // verus!
