//! File system paths. Their contents belong to the operating system: the library
//! carries them and asks the standard library what it has to know of them.

use crate::text::opt_text;
use std::path::PathBuf;
use vstd::prelude::*;

verus! {

/// A path of the file system, opaque here.
#[verifier::external_type_specification]
#[verifier::external_body]
pub struct ExPathBuf(PathBuf);

/// `PathBuf::clone` gives an equal path.
pub assume_specification[ <PathBuf as Clone>::clone ](p: &PathBuf) -> (r: PathBuf)
    ensures
        r == *p,
;

/// The path that a text stands for, as `PathBuf::from` makes it.
pub uninterp spec fn path_from(text: Seq<char>) -> PathBuf;

/// `PathBuf::from` keeps the text as the path, unchanged.
#[verifier::external_body]
pub(crate) fn path_of_text(text: &str) -> (r: PathBuf)
    ensures
        r == path_from(text@),
{
    PathBuf::from(text)
}

/// Whether the path is absolute on a platform, as `Path::is_absolute` says there.
/// Platforms are told apart by a number.
pub uninterp spec fn absolute_on(platform: int, path: PathBuf) -> bool;

/// `Path::is_absolute`. What counts as absolute differs from one platform to
/// another, and which platform this is stays open: the answer is the one that some
/// platform gives for this path.
#[verifier::external_body]
pub(crate) fn is_absolute(path: &PathBuf) -> (r: bool)
    ensures
        exists|platform: int| r == #[trigger] absolute_on(platform, *path),
{
    path.is_absolute()
}

/// Whether two paths have the same components on a platform, as `PathBuf::eq` says
/// there.
pub uninterp spec fn same_on(platform: int, a: PathBuf, b: PathBuf) -> bool;

/// `PathBuf::eq` compares two paths by their components. How a path falls into
/// components differs from one platform to another, and which platform this is stays
/// open; on each of them a path equals itself.
#[verifier::external_body]
pub(crate) fn same_path(a: &PathBuf, b: &PathBuf) -> (r: bool)
    ensures
        *a == *b ==> r,
        exists|platform: int| r == #[trigger] same_on(platform, *a, *b),
{
    a == b
}

/// The last component of the path on a platform, as `Path::file_name` gives it there,
/// if there is one and it is valid Unicode.
pub uninterp spec fn file_name_on(platform: int, path: PathBuf) -> Option<Seq<char>>;

/// `Path::file_name`, as text: the last component of the path. `None` if there is
/// no such component or it is no valid Unicode. Where a component begins differs
/// from one platform to another, and which platform this is stays open.
#[verifier::external_body]
pub(crate) fn file_name(path: &PathBuf) -> (r: Option<String>)
    ensures
        exists|platform: int| opt_text(r) == #[trigger] file_name_on(platform, *path),
{
    path.file_name().and_then(|n| n.to_str()).map(String::from)
}

/// The whole path in a form fit to be shown, as `Path::display` writes it on a
/// platform.
pub uninterp spec fn shown_on(platform: int, path: PathBuf) -> Seq<char>;

/// `Path::display`, as text: the whole path in a form fit to be shown. How paths
/// are encoded differs from one platform to another, and which platform this is stays
/// open.
#[verifier::external_body]
pub(crate) fn display(path: &PathBuf) -> (r: String)
    ensures
        exists|platform: int| r@ == #[trigger] shown_on(platform, *path),
{
    path.display().to_string()
}

/// The name that a folder is listed under: its last component, or the whole path
/// where that is no text.
pub open spec fn label_of(file_name: Option<Seq<char>>, whole: Seq<char>) -> Seq<char> {
    match file_name {
        Some(name) => name,
        None => whole,
    }
}

/// Whether `name` is what the folder `path` is listed under, on whatever platform.
pub open spec fn listed_as(path: PathBuf, name: Seq<char>) -> bool {
    exists|p: int, q: int|
        name == label_of(#[trigger] file_name_on(p, path), #[trigger] shown_on(q, path))
}

/// The name that a folder is listed under: its last component, or the whole path
/// where that is no text.
pub fn folder_label(file_name: Option<String>, whole: String) -> (r: String)
    ensures
        r@ == label_of(opt_text(file_name), whole@),
{
    match file_name {
        Some(name) => name,
        None => whole,
    }
}

/// The name that the folder `path` is listed under.
pub(crate) fn folder_name(path: &PathBuf) -> (r: String)
    ensures
        listed_as(*path, r@),
{
    folder_label(file_name(path), display(path))
}

} // verus!
