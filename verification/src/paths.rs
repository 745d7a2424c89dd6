//! Paths of files, as the machine's own rules read them.
use vstd::prelude::*;

use crate::text::{begins, occurs, opt_text};

verus! {

/// Whether a character separates the components of paths on some machine.
pub open spec fn is_mark(c: char) -> bool {
    c == '/' || c == '\\'
}

/// Whether a path has no drive and no name of a server in front on any machine.
pub open spec fn is_plain(path: Seq<char>) -> bool {
    !path.contains(':') && !(path.len() >= 2 && is_mark(path[0]) && is_mark(path[1]))
}

/// Whether every machine takes what stands behind position `i` of a path for the
/// name of a file, and what stands before it for its directory: there is a slash,
/// and the last one, and neither side is one that is passed over.
pub open spec fn ends_directory(path: Seq<char>, i: int) -> bool {
    &&& is_plain(path)
    &&& !path.contains('\\')
    &&& 0 < i < path.len() - 1
    &&& path[i] == '/'
    &&& !path.skip(i + 1).contains('/')
    &&& path.skip(i + 1) != "."@
    &&& path[i - 1] != '/'
    &&& !(i >= 2 && path[i - 1] == '.' && path[i - 2] == '/')
}

/// Whether a path is a name alone on every machine.
pub open spec fn is_bare_name(path: Seq<char>) -> bool {
    path.len() > 0 && !path.contains(':') && !path.contains('/') && !path.contains('\\')
}

/// Whether a directory can be the one of a file: what stands before its name where
/// all machines agree on that, and a shorter beginning of the path in any case.
pub open spec fn is_directory_of(directory: Option<Seq<char>>, path: Seq<char>) -> bool {
    &&& path.len() == 0 ==> directory is None
    &&& path == "/"@ ==> directory is None
    &&& directory matches Some(d) ==> begins(path, d) && d.len() < path.len()
    &&& is_bare_name(path) ==> directory == Some(Seq::<char>::empty())
    &&& forall|i: int| #[trigger] ends_directory(path, i) ==> directory == Some(path.take(i))
}

/// Whether every machine takes what stands behind position `i` of a path for an
/// extension: there is the last dot of what stands behind the last separator, not
/// in first place, and that is not the name of the directory above.
pub open spec fn begins_extension(path: Seq<char>, i: int) -> bool {
    &&& is_plain(path)
    &&& 0 < i < path.len()
    &&& path[i] == '.'
    &&& forall|j: int| i < j < path.len() ==> path[j] != '.' && !is_mark(#[trigger] path[j])
    &&& !is_mark(path[i - 1])
    &&& !(i == path.len() - 1 && path[i - 1] == '.' && (i == 1 || is_mark(path[i - 2])))
}

/// Whether what stands behind the last slash of a path, from position `i` on, has
/// no extension on any machine: there is no dot in it but in first place, and
/// something else is.
pub open spec fn lacks_extension(path: Seq<char>, i: int) -> bool {
    &&& is_plain(path)
    &&& !path.contains('\\')
    &&& 0 <= i < path.len()
    &&& i > 0 ==> path[i - 1] == '/'
    &&& forall|j: int| i < j < path.len() ==> path[j] != '.' && #[trigger] path[j] != '/'
    &&& path[i] != '/'
    &&& path.skip(i) != "."@
}

/// Whether an extension can be that of a file: what all machines take for it where
/// they agree, and in any case something behind a dot that holds none.
pub open spec fn is_extension_of(extension: Option<Seq<char>>, path: Seq<char>) -> bool {
    &&& extension matches Some(e) ==> occurs("."@ + e, path) && !e.contains('.')
    &&& forall|i: int|
        #[trigger] begins_extension(path, i) ==> extension == Some(path.skip(i + 1))
    &&& forall|i: int| #[trigger] lacks_extension(path, i) ==> extension is None
}

/// Calls `std::path::Path::parent`: the path without its final component, none
/// of the empty path and of the root. What separates components depends on the
/// machine. The result is stated where that makes no difference: of a path with
/// slashes alone, it is what stands before the last, and of a name alone it is
/// empty. Elsewhere it is a shorter beginning of the path, if there is one.
#[verifier::external_body]
pub(crate) fn parent_directory(path: &str) -> (parent: Option<String>)
    ensures
        is_directory_of(opt_text(parent), path@),
{
    std::path::Path::new(path).parent().map(|p| p.to_string_lossy().into_owned())
}

/// Calls `std::path::Path::extension`: what stands in the file name behind its
/// final dot, unless that is its first character. What the file name is depends on
/// the machine. The result is stated where that makes no difference. Elsewhere it
/// stands in the path behind a dot and holds none, if there is one.
#[verifier::external_body]
pub(crate) fn file_extension(path: &str) -> (extension: Option<String>)
    ensures
        is_extension_of(opt_text(extension), path@),
{
    std::path::Path::new(path).extension().map(|e| e.to_string_lossy().into_owned())
}

/// Calls `std::path::is_separator` on the backslash: whether it separates the
/// components of paths on this machine. Nothing is claimed of the machine.
#[verifier::external_body]
pub(crate) fn backslash_separates() -> (r: bool)
{
    std::path::is_separator('\\')
}

} // verus!
