//! Finding the repository root: the nearest ancestor (inclusive) of
//! the starting directory that contains the repository's private
//! metadata directory.

use std::path::PathBuf;
use vstd::prelude::*;

verus! {

/// `std::path::PathBuf`, declared so paths can pass through; values of
/// it stay opaque here.
#[verifier::external_type_specification]
#[verifier::external_body]
pub struct ExPathBuf(PathBuf);

/// The number of components of a path, as `Path::components` yields
/// them; popping to the parent makes it smaller.
pub uninterp spec fn path_depth(p: PathBuf) -> nat;

/// What `PathBuf::pop` leaves behind when it succeeds: the path's
/// parent, a pure function of the path value.
pub uninterp spec fn path_parent(p: PathBuf) -> PathBuf;

/// `p` after `k` pops.
pub open spec fn popped(p: PathBuf, k: nat) -> PathBuf
    decreases k,
{
    if k == 0 {
        p
    } else {
        path_parent(popped(p, (k - 1) as nat))
    }
}

/// Relies on `Path::join`: the path extended with one more component.
#[verifier::external_body]
fn path_join(base: &PathBuf, name: &str) -> (r: PathBuf) {
    base.join(name)
}

/// Relies on `Path::is_dir`: asks the filesystem, so nothing is
/// promised of the result.
#[verifier::external_body]
fn path_is_dir(p: &PathBuf) -> (r: bool) {
    p.is_dir()
}

/// Relies on `PathBuf::pop`: truncates the path to its parent
/// (`Path::parent`) and says whether there was one; the parent has one
/// component fewer, and nothing changes when there was none.
#[verifier::external_body]
fn path_pop(p: &mut PathBuf) -> (r: bool)
    ensures
        r ==> *final(p) == path_parent(*old(p)),
        r ==> path_depth(*final(p)) < path_depth(*old(p)),
        !r ==> *final(p) == *old(p),
{
    p.pop()
}

/// Walk up the directory tree from `start` to the nearest directory
/// that contains a `.jj` metadata directory; `None` when no ancestor
/// contains one. Which ancestor that is the filesystem decides, so the
/// contract promises only what holds whatever it answered: any `Some`
/// is `start` after zero or more pops, no deeper than `start` itself.
pub fn find_jj_root(start: PathBuf) -> (r: Option<PathBuf>)
    ensures
        r matches Some(p) ==> path_depth(p) <= path_depth(start),
        r matches Some(p) ==> exists|k: nat| p == popped(start, k),
{
    let mut current = start;
    proof {
        assert(current == popped(start, 0));
    }
    loop
        invariant
            path_depth(current) <= path_depth(start),
            exists|k: nat| current == popped(start, k),
        decreases path_depth(current),
    {
        if path_is_dir(&path_join(&current, ".jj")) {
            return Some(current);
        }
        let ghost prev = current;
        if !path_pop(&mut current) {
            return None;
        }
        proof {
            let k0 = choose|k: nat| prev == popped(start, k);
            assert(current == popped(start, k0 + 1));
        }
    }
}

} // verus!
