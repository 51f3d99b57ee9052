//! The parts of `std::path` that the library reads, over path text.

use vstd::prelude::*;

verus! {

/// `Path::file_name` of a path given as text: its final component, if any.
/// It follows the path rules of the platform the library is built for
/// (Unix and Windows split paths differently).
pub uninterp spec fn path_file_name_of(p: Seq<char>) -> Option<Seq<char>>;

/// `Path::extension` of a path given as text, under the path rules of the
/// platform the library is built for.
pub uninterp spec fn path_extension_of(p: Seq<char>) -> Option<Seq<char>>;

/// `std::path::Path::file_name` (converted back to text): the final
/// component of the path, if it has one.
#[verifier::external_body]
pub(crate) fn path_file_name(p: &str) -> (r: Option<String>)
    ensures
        match r {
            Some(s) => path_file_name_of(p@) == Some(s@),
            None => path_file_name_of(p@) is None,
        },
{
    std::path::Path::new(p).file_name().map(|n| n.to_string_lossy().into_owned())
}

/// `std::path::Path::extension` (converted back to text): the extension of
/// the final component, if it has one.
#[verifier::external_body]
pub(crate) fn path_extension(p: &str) -> (r: Option<String>)
    ensures
        match r {
            Some(s) => path_extension_of(p@) == Some(s@),
            None => path_extension_of(p@) is None,
        },
{
    std::path::Path::new(p).extension().map(|n| n.to_string_lossy().into_owned())
}

/// `std::path::Path::join` of two path texts.
pub uninterp spec fn path_join_of(base: Seq<char>, rest: Seq<char>) -> Seq<char>;

/// `std::path::Path::join` (converted back to text). How the two paths
/// combine depends on the platform's path rules and is left to the name.
#[verifier::external_body]
pub(crate) fn path_join(base: &str, rest: &str) -> (r: String)
    ensures
        r@ == path_join_of(base@, rest@),
{
    std::path::Path::new(base).join(rest).to_string_lossy().into_owned()
}

} // verus!
