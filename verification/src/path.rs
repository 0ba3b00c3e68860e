//! Names of entries.

use vstd::prelude::*;

verus! {

/// The final component of `path`, as `std::path::Path::file_name` gives it on
/// the platform the library is built for: `None` where the path has no such
/// component (it is empty, is a root, or ends in `..`).
pub uninterp spec fn file_name_of(path: Seq<char>) -> Option<Seq<char>>;

/// The name under which an entry is shown: its final path component, or the
/// whole path where it has none.
pub open spec fn display_name_of(path: Seq<char>) -> Seq<char> {
    match file_name_of(path) {
        Some(name) => name,
        None => path,
    }
}

/// Calls `std::path::Path::file_name` on `path`.
///
/// Trusted: the result is the final component that std finds in the path,
/// which [`file_name_of`] stands for; nothing more is claimed of it. The
/// path is valid UTF-8, so the lossy conversion of the component changes
/// nothing.
#[verifier::external_body]
fn file_name(path: &str) -> (name: Option<String>)
    ensures
        match name {
            Some(n) => file_name_of(path@) == Some(n@),
            None => file_name_of(path@) is None,
        },
{
    match std::path::Path::new(path).file_name() {
        Some(name) => Some(name.to_string_lossy().into_owned()),
        None => None,
    }
}

/// The display name of an entry, given the final component that was found in
/// its path, if any.
pub fn name_or_path(file_name: Option<String>, path: &str) -> (name: String)
    ensures
        name@ == match file_name {
            Some(n) => n@,
            None => path@,
        },
{
    match file_name {
        Some(n) => n,
        None => path.to_owned(),
    }
}

/// The display name of the entry at `path`.
pub fn display_name(path: &str) -> (name: String)
    ensures
        name@ == display_name_of(path@),
{
    name_or_path(file_name(path), path)
}

} // verus!
