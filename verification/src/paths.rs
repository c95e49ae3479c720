//! Paths, held as texts. What a path's parts are is left to `std::path`.

use vstd::prelude::*;

verus! {

/// The path that `std::path::Path::join` gives for `base` and `path`.
pub uninterp spec fn joined_path(base: Seq<char>, path: Seq<char>) -> Seq<char>;

/// The file stem that `std::path::Path::file_stem` gives for `path`, if it
/// gives one.
pub uninterp spec fn file_stem_of(path: Seq<char>) -> Option<Seq<char>>;

/// The path that `std::path::Path::with_file_name` gives for `path` and
/// `name`.
pub uninterp spec fn sibling_path(path: Seq<char>, name: Seq<char>) -> Seq<char>;

/// `std::path::Path::join`: `path` if it is absolute, else `path` below
/// `base`. The contract gives the result its name and claims no more of it.
/// Both arguments are UTF-8, so the result is, and no character is lost when
/// it is turned into a `String`.
#[verifier::external_body]
pub(crate) fn join_path(base: &str, path: &str) -> (out: String)
    ensures
        out@ == joined_path(base@, path@),
{
    std::path::Path::new(base).join(path).to_string_lossy().into_owned()
}

/// `std::path::Path::file_stem`: the file name without its last extension,
/// or nothing where the path has no file name. The contract gives the result
/// its name and claims no more of it.
#[verifier::external_body]
pub(crate) fn file_stem(path: &str) -> (out: Option<String>)
    ensures
        match out {
            Some(stem) => file_stem_of(path@) == Some(stem@),
            None => file_stem_of(path@) is None,
        },
{
    std::path::Path::new(path).file_stem().map(|stem| stem.to_string_lossy().into_owned())
}

/// `std::path::Path::with_file_name`: `path` with its file name replaced by
/// `name`. The contract gives the result its name and claims no more of it.
#[verifier::external_body]
pub(crate) fn with_file_name(path: &str, name: &str) -> (out: String)
    ensures
        out@ == sibling_path(path@, name@),
{
    std::path::Path::new(path).with_file_name(name).to_string_lossy().into_owned()
}

} // verus!
