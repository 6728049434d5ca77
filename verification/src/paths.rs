//! File paths, held as text. The three path computations that the library
//! needs are those of `std::path::Path`, called through the functions below;
//! what they return is named here and stated nowhere else. Path syntax is that
//! of the target the library is built for (on Unix, `/` separates components).

use vstd::prelude::*;

verus! {

/// What `Path::with_extension(path, extension)` returns: `path` with the
/// extension of its last component replaced by `extension` (added when there
/// is none).
pub uninterp spec fn with_extension_of(path: Seq<char>, extension: Seq<char>) -> Seq<char>;

/// What `Path::extension(path)` returns: the part of the last component after
/// its last `.`, if the component has one that is not its first character.
pub uninterp spec fn extension_of(path: Seq<char>) -> Option<Seq<char>>;

/// What `Path::file_name(path)` returns: the last component, unless the path
/// ends in `..` or has no component.
pub uninterp spec fn file_name_of(path: Seq<char>) -> Option<Seq<char>>;

/// A character that separates path components on some target (`/`, and `\`
/// on Windows).
pub open spec fn is_path_separator(c: char) -> bool {
    c == '/' || c == '\\'
}

/// Calls `std::path::Path::with_extension`. Claims that the result, read back
/// as text, is the named `with_extension_of` of the arguments; a path built
/// from two valid texts is valid text, so the conversion loses nothing. The
/// call panics when the extension holds a path separator, so such an
/// extension is not admitted.
#[verifier::external_body]
pub(crate) fn with_extension(path: &str, extension: &str) -> (r: String)
    requires
        forall|i: int| 0 <= i < extension@.len() ==> !is_path_separator(#[trigger] extension@[i]),
    ensures
        r@ == with_extension_of(path@, extension@),
{
    std::path::Path::new(path).with_extension(extension).to_string_lossy().into_owned()
}

/// Calls `std::path::Path::extension`. Claims that the result, read back as
/// text, is the named `extension_of` of the path.
#[verifier::external_body]
pub(crate) fn extension(path: &str) -> (r: Option<String>)
    ensures
        match r {
            Some(e) => extension_of(path@) == Some(e@),
            None => extension_of(path@) is None,
        },
{
    match std::path::Path::new(path).extension() {
        Some(e) => Some(e.to_string_lossy().into_owned()),
        None => None,
    }
}

/// Calls `std::path::Path::file_name`. Claims that the result, read back as
/// text, is the named `file_name_of` of the path.
#[verifier::external_body]
pub(crate) fn file_name(path: &str) -> (r: Option<String>)
    ensures
        match r {
            Some(n) => file_name_of(path@) == Some(n@),
            None => file_name_of(path@) is None,
        },
{
    match std::path::Path::new(path).file_name() {
        Some(n) => Some(n.to_string_lossy().into_owned()),
        None => None,
    }
}

} // verus!
