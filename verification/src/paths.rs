//! File-system path operations, as std's `Path` performs them on the
//! platform the program is built for.
use crate::project::opt_view;
use crate::text::starts_with;
use vstd::prelude::*;

verus! {

/// The text of `base` joined with `rel` by std's `Path::join`. Where a
/// separator goes, and when `rel` replaces `base` instead, is the build
/// platform's rule.
pub uninterp spec fn joined_path(base: Seq<char>, rel: Seq<char>) -> Seq<char>;

/// The text of the parent of `path` by std's `Path::parent`, or `None` when
/// the path ends in a root or prefix, or is empty.
pub uninterp spec fn parent_path(path: Seq<char>) -> Option<Seq<char>>;

/// Whether `base` is a prefix of `path` by whole components, by std's
/// `Path::starts_with`.
pub uninterp spec fn path_has_prefix(path: Seq<char>, base: Seq<char>) -> bool;

/// The text of the final component of `path` by std's `Path::file_name`, or
/// `None` when the path ends in `..` or is a root or empty.
pub uninterp spec fn final_component(path: Seq<char>) -> Option<Seq<char>>;

/// Whether two paths are equal component by component, by std's `Path`
/// equality.
pub uninterp spec fn same_path(a: Seq<char>, b: Seq<char>) -> bool;

/// std's `Path::join`, from text to text. The contract claims that the
/// result is a function of the two paths, named `joined_path`, and one fact
/// `Path::push` documents: the result is `rel` when that is absolute and
/// otherwise begins with `base`; so onto a `base` that begins with `/` the
/// result never begins with `~/` (a path beginning `~/` is never absolute).
#[verifier::external_body]
pub(crate) fn join_path(base: &str, rel: &str) -> (r: String)
    ensures
        r@ == joined_path(base@, rel@),
        starts_with(base@, seq!['/']) ==> !starts_with(r@, seq!['~', '/']),
{
    std::path::Path::new(base).join(rel).to_string_lossy().into_owned()
}

/// std's `Path::parent`, from text to text. The contract claims only that
/// the result is a function of the path, named `parent_path`.
#[verifier::external_body]
pub(crate) fn parent(path: &str) -> (r: Option<String>)
    ensures
        opt_view(r) == parent_path(path@),
{
    std::path::Path::new(path).parent().map(|p| p.to_string_lossy().into_owned())
}

/// std's `Path::starts_with` on two paths given as text. The contract claims
/// only that the result is a function of the two paths, named
/// `path_has_prefix`.
#[verifier::external_body]
pub(crate) fn path_starts_with(path: &str, base: &str) -> (r: bool)
    ensures
        r == path_has_prefix(path@, base@),
{
    std::path::Path::new(path).starts_with(base)
}

/// std's `Path::file_name`, from text to text. The contract claims that the
/// result is a function of the path, named `final_component`, and that a
/// final component is never empty (`Path` components never are).
#[verifier::external_body]
pub(crate) fn file_name(path: &str) -> (r: Option<String>)
    ensures
        opt_view(r) == final_component(path@),
        r matches Some(n) ==> n@.len() > 0,
{
    std::path::Path::new(path).file_name().map(|n| n.to_string_lossy().into_owned())
}

/// std's `==` on two `Path`s given as text. The contract claims only that
/// the result is a function of the two paths, named `same_path`.
#[verifier::external_body]
pub(crate) fn paths_equal(a: &str, b: &str) -> (r: bool)
    ensures
        r == same_path(a@, b@),
{
    std::path::Path::new(a) == std::path::Path::new(b)
}

} // verus!
