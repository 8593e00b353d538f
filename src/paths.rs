//! Path arithmetic and file URLs, through `pathdiff` and `url`.
use vstd::prelude::*;

verus! {

/// The path of `path` relative to the directory `base`, as `pathdiff` computes it.
pub uninterp spec fn relative_path_of(path: Seq<char>, base: Seq<char>) -> Option<Seq<char>>;

/// The `file:` URL of the absolute path `path`, as `url` writes it.
pub uninterp spec fn file_url_of(path: Seq<char>) -> Option<Seq<char>>;

/// Relies on `pathdiff::diff_paths`: the relative path from `base` to `path`,
/// a function of the two paths, or none when it cannot be formed.
#[verifier::external_body]
pub(crate) fn relative_path(path: &String, base: &String) -> (r: Option<String>)
    ensures
        r matches Some(v) ==> relative_path_of(path@, base@) == Some(v@),
        r is None ==> relative_path_of(path@, base@) is None,
{
    match pathdiff::diff_paths(path.as_str(), base.as_str()) {
        Some(p) => p.to_str().map(String::from),
        None => None,
    }
}

/// Relies on `url::Url::from_file_path`: the `file:` URL of a path, which
/// exists only for an absolute path.
#[verifier::external_body]
pub(crate) fn file_url(path: &String) -> (r: Option<String>)
    ensures
        r matches Some(v) ==> file_url_of(path@) == Some(v@),
        r is None ==> file_url_of(path@) is None,
{
    match url::Url::from_file_path(path.as_str()) {
        Ok(u) => Some(u.to_string()),
        Err(()) => None,
    }
}

} // verus!
