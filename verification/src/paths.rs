//! File-system paths. A path itself is opaque to the library; what the
//! library reads of it (its text, file name, stem, parent and extension) is
//! named here after the `std::path` function that gives it.

use vstd::prelude::*;

verus! {

#[verifier::external_type_specification]
#[verifier::external_body]
pub struct ExPath(std::path::Path);

#[verifier::external_type_specification]
#[verifier::external_body]
pub struct ExPathBuf(std::path::PathBuf);

/// The views of an optional string.
pub open spec fn opt_view(o: Option<String>) -> Option<Seq<char>> {
    match o {
        Some(s) => Some(s@),
        None => None,
    }
}

/// The text, or `d` when there is none.
pub open spec fn text_or(o: Option<Seq<char>>, d: Seq<char>) -> Seq<char> {
    match o {
        Some(t) => t,
        None => d,
    }
}

/// What `Path::display` prints for a path.
pub uninterp spec fn path_display_text(p: &std::path::Path) -> Seq<char>;

/// `Path::file_name` of a path, as text (`None` also when it is not valid Unicode).
pub uninterp spec fn path_file_name_text(p: &std::path::Path) -> Option<Seq<char>>;

/// `Path::file_stem` of a path, as text (`None` also when it is not valid Unicode).
pub uninterp spec fn path_file_stem_text(p: &std::path::Path) -> Option<Seq<char>>;

/// `Path::parent` of a path, as text (`None` also when it is not valid Unicode).
pub uninterp spec fn path_parent_text(p: &std::path::Path) -> Option<Seq<char>>;

/// `Path::extension` of a path, as text (`None` also when it is not valid Unicode).
pub uninterp spec fn path_extension_text(p: &std::path::Path) -> Option<Seq<char>>;

/// The path that `PathBuf::as_path` gives of an owned path.
pub uninterp spec fn buf_path(p: &std::path::PathBuf) -> &std::path::Path;

/// `PathBuf::clone` gives a copy of the path: the same value.
pub assume_specification[ <std::path::PathBuf as Clone>::clone ](p: &std::path::PathBuf) -> (r: std::path::PathBuf)
    ensures
        r == *p,
;

/// `AsRef::as_ref` to a path. Nothing is stated of it: which path a value
/// stands for is up to its own `AsRef` impl.
#[verifier::external_body]
pub(crate) fn as_path<P: AsRef<std::path::Path> + ?Sized>(p: &P) -> &std::path::Path {
    p.as_ref()
}

/// `PathBuf::as_path`: the path an owned path holds, named `buf_path`.
#[verifier::external_body]
pub(crate) fn buf_as_path(p: &std::path::PathBuf) -> (r: &std::path::Path)
    ensures
        r == buf_path(p),
{
    p.as_path()
}

/// `Path::to_path_buf`: an owned copy, which holds the same path.
#[verifier::external_body]
pub(crate) fn to_path_buf(path: &std::path::Path) -> (r: std::path::PathBuf)
    ensures
        buf_path(&r) == path,
{
    path.to_path_buf()
}

/// `Path::display`, as text; named `path_display_text`.
#[verifier::external_body]
pub(crate) fn display_string(path: &std::path::Path) -> (r: String)
    ensures
        r@ == path_display_text(path),
{
    path.display().to_string()
}

/// `Path::file_name`, as text; named `path_file_name_text`.
#[verifier::external_body]
pub(crate) fn path_file_name(path: &std::path::Path) -> (r: Option<String>)
    ensures
        opt_view(r) == path_file_name_text(path),
{
    path.file_name().and_then(|n| n.to_str()).map(|n| n.to_string())
}

/// `Path::file_stem`, as text; named `path_file_stem_text`.
#[verifier::external_body]
pub(crate) fn path_file_stem(path: &std::path::Path) -> (r: Option<String>)
    ensures
        opt_view(r) == path_file_stem_text(path),
{
    path.file_stem().and_then(|n| n.to_str()).map(|n| n.to_string())
}

/// `Path::parent`, as text; named `path_parent_text`.
#[verifier::external_body]
pub(crate) fn path_parent(path: &std::path::Path) -> (r: Option<String>)
    ensures
        opt_view(r) == path_parent_text(path),
{
    path.parent().and_then(|n| n.to_str()).map(|n| n.to_string())
}

/// `Path::extension`, as text; named `path_extension_text`.
#[verifier::external_body]
pub(crate) fn path_extension(path: &std::path::Path) -> (r: Option<String>)
    ensures
        opt_view(r) == path_extension_text(path),
{
    path.extension().and_then(|e| e.to_str()).map(|e| e.to_string())
}

} // verus!
