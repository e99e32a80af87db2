//! The decisions of a rename run: the new names, which package a rename
//! entry is about, and which manifests are left alone.
use vstd::prelude::*;

use crate::error::RenameError;
use crate::pattern::occurs_at;

verus! {

/// The part of a manifest path that marks a package fetched from the registry.
pub open spec fn registry_marker() -> Seq<char> {
    seq!['i', 'n', 'd', 'e', 'x', '.', 'c', 'r', 'a', 't', 'e', 's', '.', 'i', 'o']
}

/// The manifest at `path` belongs to a package fetched from the registry.
pub open spec fn is_registry_path(path: Seq<char>) -> bool {
    exists|i: int| occurs_at(path, registry_marker(), i)
}

/// The name that a package gets: its old name followed by the suffix.
pub fn new_package_name(old_name: &str, suffix: &str) -> (r: String)
    ensures
        r@ == old_name@ + suffix@,
{
    String::from_str(old_name).concat(suffix)
}

/// The index of the first package called `old_name`; a rename entry whose
/// package is missing is an error.
pub fn find_package(names: &Vec<String>, old_name: &str) -> (r: Result<usize, RenameError>)
    ensures
        r is Err <==> forall|j: int| 0 <= j < names@.len() ==> names@[j]@ != old_name@,
        r matches Err(e) ==> e == RenameError::PackageNotFound,
        r matches Ok(i) ==> i < names@.len() && names@[i as int]@ == old_name@ && forall|j: int|
            0 <= j < i ==> names@[j]@ != old_name@,
{
    let wanted = String::from_str(old_name);
    let mut i: usize = 0;
    while i < names.len()
        invariant
            i <= names@.len(),
            wanted@ == old_name@,
            forall|j: int| 0 <= j < i ==> names@[j]@ != old_name@,
        decreases names@.len() - i,
    {
        if names[i] == wanted {
            return Ok(i);
        }
        i = i + 1;
    }
    Err(RenameError::PackageNotFound)
}

/// Whether `needle` occurs in `text` at character index `at`.
fn occurs_here(text: &str, n: usize, needle: &str, m: usize, at: usize) -> (r: bool)
    requires
        n == text@.len(),
        m == needle@.len(),
        at + m <= n,
    ensures
        r == occurs_at(text@, needle@, at as int),
{
    let mut k: usize = 0;
    while k < m
        invariant
            n == text@.len(),
            m == needle@.len(),
            at + m <= n,
            k <= m,
            forall|j: int| 0 <= j < k ==> text@[at + j] == needle@[j],
        decreases m - k,
    {
        if text.get_char(at + k) != needle.get_char(k) {
            assert(text@.subrange(at as int, at + m)[k as int] != needle@[k as int]);
            return false;
        }
        k = k + 1;
    }
    assert(text@.subrange(at as int, at + m) =~= needle@);
    true
}

/// Whether the manifest at `path` belongs to a package fetched from the
/// registry rather than to the workspace; such manifests are never edited.
pub fn is_registry_manifest(path: &str) -> (r: bool)
    ensures
        r == is_registry_path(path@),
{
    let marker = "index.crates.io";
    proof {
        reveal_strlit("index.crates.io");
        assert(marker@ =~= registry_marker());
    }
    let n = path.unicode_len();
    let m = marker.unicode_len();
    if n < m {
        assert forall|i: int| !occurs_at(path@, registry_marker(), i) by {}
        return false;
    }
    let mut at: usize = 0;
    while at <= n - m
        invariant
            n == path@.len(),
            m == marker@.len(),
            marker@ == registry_marker(),
            m <= n,
            at <= n - m + 1,
            forall|i: int| 0 <= i < at ==> !occurs_at(path@, registry_marker(), i),
        decreases n - at,
    {
        if occurs_here(path, n, marker, m, at) {
            return true;
        }
        at = at + 1;
    }
    assert forall|i: int| !occurs_at(path@, registry_marker(), i) by {
        if i >= at {
            assert(i + m > n);
        }
    }
    false
}

} // verus!
