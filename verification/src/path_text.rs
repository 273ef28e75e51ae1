//! Path operations of `std::path` on paths held as text.
//!
//! These compute without touching the file system. What they return follows
//! the platform's path rules and is named here; the few facts that the
//! standard library documents are stated with the wrappers.
use vstd::prelude::*;

verus! {

/// The text of `Path::new(base).join(rel)`.
pub uninterp spec fn joined_path(base: Seq<char>, rel: Seq<char>) -> Seq<char>;

/// The text of `Path::new(p).parent()`.
pub uninterp spec fn path_parent(p: Seq<char>) -> Option<Seq<char>>;

/// The text of `Path::new(p).file_stem()`.
pub uninterp spec fn path_file_stem(p: Seq<char>) -> Option<Seq<char>>;

/// Whether `Path::new(a) == Path::new(b)`: the two paths have the same
/// components.
pub uninterp spec fn same_path(a: Seq<char>, b: Seq<char>) -> bool;

/// Compares two paths with `Path`'s `==`, which compares their components.
#[verifier::external_body]
pub fn paths_equal(a: &str, b: &str) -> (r: bool)
    ensures
        r == same_path(a@, b@),
{
    std::path::Path::new(a) == std::path::Path::new(b)
}

/// Calls `Path::join` and gives the result back as text. Joining two
/// UTF-8 paths gives a UTF-8 path, so the conversion back to `str` does not
/// fail.
#[verifier::external_body]
pub fn join_path(base: &str, rel: &str) -> (r: String)
    ensures
        r@ == joined_path(base@, rel@),
{
    std::path::Path::new(base).join(rel).to_str().unwrap().to_string()
}

/// Calls `Path::parent`. The parent of a UTF-8 path is a part of it, so the
/// conversion back to `str` does not fail.
#[verifier::external_body]
pub fn parent_path(p: &str) -> (r: Option<String>)
    ensures
        r matches Some(s) ==> path_parent(p@) == Some(s@),
        r is None ==> path_parent(p@) is None,
{
    std::path::Path::new(p).parent().map(|q| q.to_str().unwrap().to_string())
}

/// Calls `Path::ancestors`. As documented, it yields `p` itself first, then
/// what `parent` gives of the previous item, and it ends where `parent`
/// gives `None`. `parent` drops the final component, so each item has one
/// component fewer than the one before, and no two items are the same path.
#[verifier::external_body]
pub fn ancestor_paths(p: &str) -> (r: Vec<String>)
    ensures
        r@.len() >= 1,
        r@[0]@ == p@,
        forall|i: int| 0 <= i < r@.len() - 1 ==> path_parent(#[trigger] r@[i]@) == Some(r@[i + 1]@),
        path_parent(r@.last()@) is None,
        forall|j: int, k: int|
            0 <= j < r@.len() && 0 <= k < r@.len() && j != k ==> !same_path(#[trigger] r@[j]@, #[trigger] r@[k]@),
{
    std::path::Path::new(p).ancestors().map(|q| q.to_str().unwrap().to_string()).collect()
}

/// Calls `Path::file_stem`. The stem of a UTF-8 path is a part of it, so
/// the conversion back to `str` does not fail.
#[verifier::external_body]
pub fn file_stem_of(p: &str) -> (r: Option<String>)
    ensures
        r matches Some(s) ==> path_file_stem(p@) == Some(s@),
        r is None ==> path_file_stem(p@) is None,
{
    std::path::Path::new(p).file_stem().map(|q| q.to_str().unwrap().to_string())
}

} // verus!
