//! Relative paths, as the `relative_path` crate reads them. Paths are held as
//! text; what `relative_path` computes from them is named here, and the
//! wrappers below make the calls.
use vstd::prelude::*;

verus! {

/// What `RelativePath::parent` gives for a path: the path without its final
/// component, or `None` for the empty path.
pub uninterp spec fn rel_parent(p: Seq<char>) -> Option<Seq<char>>;

/// What `RelativePath::ends_with` decides: whether `child` is a suffix of `p`,
/// component by component.
pub uninterp spec fn rel_ends_with(p: Seq<char>, child: Seq<char>) -> bool;

/// What `RelativePath::file_name` gives: the final normal component, if any.
pub uninterp spec fn rel_file_name(p: Seq<char>) -> Option<Seq<char>>;

/// What `RelativePath::join` gives: `q` adjoined to `p`.
pub uninterp spec fn rel_join(p: Seq<char>, q: Seq<char>) -> Seq<char>;

/// Calls `RelativePath::parent`. Its result is named `rel_parent`; its source
/// returns `None` exactly for the empty path, and that much is claimed too.
#[verifier::external_body]
pub(crate) fn path_parent(p: &str) -> (r: Option<String>)
    ensures
        r matches Some(s) ==> rel_parent(p@) == Some(s@),
        r is None ==> rel_parent(p@) is None,
        r is None <==> p@.len() == 0,
{
    relative_path::RelativePath::new(p).parent().map(|q| q.as_str().to_string())
}

/// Calls `RelativePath::ends_with`; its result is named `rel_ends_with`.
#[verifier::external_body]
pub(crate) fn path_ends_with(p: &str, child: &str) -> (r: bool)
    ensures
        r == rel_ends_with(p@, child@),
{
    relative_path::RelativePath::new(p).ends_with(child)
}

/// Calls `RelativePath::file_name`; its result is named `rel_file_name`.
#[verifier::external_body]
pub(crate) fn path_file_name(p: &str) -> (r: Option<String>)
    ensures
        r matches Some(s) ==> rel_file_name(p@) == Some(s@),
        r is None ==> rel_file_name(p@) is None,
{
    relative_path::RelativePath::new(p).file_name().map(|n| n.to_string())
}

/// Calls `RelativePath::join`; its result is named `rel_join`.
#[verifier::external_body]
pub(crate) fn path_join(p: &str, q: &str) -> (r: String)
    ensures
        r@ == rel_join(p@, q@),
{
    relative_path::RelativePath::new(p).join(q).into_string()
}

/// What `RelativePathBuf`'s `==` decides: the same components.
pub uninterp spec fn rel_eq(a: Seq<char>, b: Seq<char>) -> bool;

/// Compares two paths with `RelativePath`'s `==`, component by component; named
/// `rel_eq`. Claimed too: a path equals itself.
#[verifier::external_body]
pub(crate) fn path_eq(a: &str, b: &str) -> (r: bool)
    ensures
        r == rel_eq(a@, b@),
        a@ == b@ ==> r,
{
    relative_path::RelativePath::new(a) == relative_path::RelativePath::new(b)
}

} // verus!
