//! The `std::path` operations and file-system probes the library relies on.
//! Path arithmetic is deterministic and is named; probes of the disk are not.
use vstd::prelude::*;
use std::path::Path;

verus! {

/// `Path::file_stem` of a UTF-8 path, as text.
pub uninterp spec fn path_file_stem(path: Seq<char>) -> Option<Seq<char>>;

/// `Path::file_name` of a UTF-8 path, as text.
pub uninterp spec fn path_file_name(path: Seq<char>) -> Option<Seq<char>>;

/// `Path::with_file_name`, rendered back to text.
pub uninterp spec fn path_with_file_name(path: Seq<char>, name: Seq<char>) -> Seq<char>;

/// `Path::with_extension`, rendered back to text.
pub uninterp spec fn path_with_extension(path: Seq<char>, extension: Seq<char>) -> Seq<char>;

/// `Path::join`, rendered back to text.
pub uninterp spec fn path_join(base: Seq<char>, name: Seq<char>) -> Seq<char>;

/// `Path::parent`, as text.
pub uninterp spec fn path_parent(path: Seq<char>) -> Option<Seq<char>>;

/// `Path::extension`, as text.
pub uninterp spec fn path_extension(path: Seq<char>) -> Option<Seq<char>>;

/// The position of the last `.` of a file name.
pub open spec fn last_dot(name: Seq<char>) -> Option<int>
    decreases name.len(),
{
    if name.len() == 0 {
        None
    } else if name.last() == '.' {
        Some(name.len() - 1)
    } else {
        last_dot(name.drop_last())
    }
}

/// The stem of a file name as `Path::file_stem` documents it: the whole name
/// when it holds no `.` or only a leading one, otherwise the part before the
/// final `.`.
pub open spec fn name_stem(name: Seq<char>) -> Seq<char> {
    match last_dot(name) {
        Some(i) => if i == 0 { name } else { name.subrange(0, i) },
        None => name,
    }
}

/// Free of `/`, `\\` and `:`, the characters that separate or root a path on
/// some platform.
pub open spec fn separator_free(text: Seq<char>) -> bool {
    !text.contains('/') && !text.contains('\\') && !text.contains(':')
}

/// A file name that `Path::join` appends as the last component on every
/// platform: non-empty, not `.` or `..`, and free of separators.
pub open spec fn plain_name(name: Seq<char>) -> bool {
    &&& name.len() > 0
    &&& name != "."@
    &&& name != ".."@
    &&& separator_free(name)
}

/// Calls `std::path::Path::file_stem`; claims the result is `path_file_stem` of the
/// path (the stem of a `&str` path is valid UTF-8, so no text is lost) and, as
/// the method documents, that a stem exists exactly when a file name does and
/// is `name_stem` of it.
#[verifier::external_body]
pub(crate) fn file_stem(path: &str) -> (r: Option<String>)
    ensures
        r matches Some(s) ==> path_file_stem(path@) == Some(s@),
        r is None ==> path_file_stem(path@) is None,
        r matches Some(s) ==> (path_file_name(path@) matches Some(n) && s@ == name_stem(n)),
        r is None ==> path_file_name(path@) is None,
{
    Path::new(path).file_stem().map(|stem| stem.to_string_lossy().into_owned())
}

/// Calls `std::path::Path::file_name`; claims the result is `path_file_name` of the path.
#[verifier::external_body]
pub(crate) fn file_name(path: &str) -> (r: Option<String>)
    ensures
        r matches Some(s) ==> path_file_name(path@) == Some(s@),
        r is None ==> path_file_name(path@) is None,
{
    Path::new(path).file_name().map(|name| name.to_string_lossy().into_owned())
}

/// Calls `std::path::Path::extension`; claims the result is `path_extension` of the path.
#[verifier::external_body]
pub(crate) fn extension(path: &str) -> (r: Option<String>)
    ensures
        r matches Some(s) ==> path_extension(path@) == Some(s@),
        r is None ==> path_extension(path@) is None,
{
    Path::new(path).extension().map(|value| value.to_string_lossy().into_owned())
}

/// Calls `std::path::Path::with_file_name`; claims the result is `path_with_file_name`
/// of the path and the new name.
#[verifier::external_body]
pub(crate) fn with_file_name(path: &str, name: &str) -> (r: String)
    ensures
        r@ == path_with_file_name(path@, name@),
{
    Path::new(path).with_file_name(name).to_string_lossy().into_owned()
}

/// Calls `std::path::Path::with_extension`; claims the result is `path_with_extension`
/// of the path and the extension. The extension holds no path separator, on
/// which `PathBuf::set_extension` panics.
#[verifier::external_body]
pub(crate) fn with_extension(path: &str, extension: &str) -> (r: String)
    requires
        !extension@.contains('/'),
        !extension@.contains('\\'),
    ensures
        r@ == path_with_extension(path@, extension@),
{
    Path::new(path).with_extension(extension).to_string_lossy().into_owned()
}

/// Calls `std::path::Path::join`; claims the result is `path_join` of both parts
/// and that a plain name (see `plain_name`) becomes the joined path's file name.
#[verifier::external_body]
pub(crate) fn join(base: &str, name: &str) -> (r: String)
    ensures
        r@ == path_join(base@, name@),
        plain_name(name@) ==> path_file_name(r@) == Some(name@),
{
    Path::new(base).join(name).to_string_lossy().into_owned()
}

/// Calls `std::path::Path::parent`; claims the result is `path_parent` of the path.
#[verifier::external_body]
pub(crate) fn parent(path: &str) -> (r: Option<String>)
    ensures
        r matches Some(s) ==> path_parent(path@) == Some(s@),
        r is None ==> path_parent(path@) is None,
{
    Path::new(path).parent().map(|value| value.to_string_lossy().into_owned())
}

/// Calls `std::path::Path::is_file`; the answer depends on the disk at the time of the call.
#[verifier::external_body]
pub(crate) fn is_file(path: &str) -> (r: bool) {
    Path::new(path).is_file()
}

/// Calls `std::path::Path::is_dir`; the answer depends on the disk at the time of the call.
#[verifier::external_body]
pub(crate) fn is_dir(path: &str) -> (r: bool) {
    Path::new(path).is_dir()
}

/// Calls `std::path::Path::exists`; the answer depends on the disk at the time of the call.
#[verifier::external_body]
pub(crate) fn path_exists(path: &str) -> (r: bool) {
    Path::new(path).exists()
}

/// Calls `std::path::Path::canonicalize`, falling back to the path itself
/// when it cannot be resolved; the answer depends on the disk.
#[verifier::external_body]
pub(crate) fn canonical_display(path: &str) -> (r: String) {
    match Path::new(path).canonicalize() {
        Ok(resolved) => resolved.to_string_lossy().into_owned(),
        Err(_) => path.to_string(),
    }
}

} // verus!
