//! The parts of a path, as the standard library tells them apart.
//!
//! A part of a path depends on the path alone, so each part has a name here.
//! Which text a part is depends on the platform that the crate is built for:
//! a backslash parts components on some and is a character like any other on
//! others, and there are platforms on which a slash parts none. So only that
//! is claimed of a part which holds on every platform. What is done with the
//! parts is decided by functions that take them as arguments.

use vstd::prelude::*;

verus! {

/// Whether a character may stand behind the last component of a path: it
/// parts components on some platform, or it is a dot.
pub open spec fn trails(c: char) -> bool {
    c == '/' || c == '\\' || c == '.'
}

/// Whether a text stands in a path from a place on.
pub open spec fn stands_at(path: Seq<char>, text: Seq<char>, at: int) -> bool {
    0 <= at && at + text.len() <= path.len() && path.subrange(at, at + text.len()) == text
}

/// Whether nothing stands in a path from a place on but what may stand
/// behind its last component.
pub open spec fn trails_from(path: Seq<char>, from: int) -> bool {
    forall|j: int| from <= j < path.len() ==> trails(#[trigger] path[j])
}

/// Whether a text stands in a path directly behind a dot, with nothing
/// behind it but what may stand behind the last component.
pub open spec fn closes_behind_dot(path: Seq<char>, text: Seq<char>) -> bool {
    exists|at: int|
        0 <= at < path.len() && #[trigger] path[at] == '.' && stands_at(path, text, at + 1)
            && trails_from(path, at + 1 + text.len())
}

/// What holds of the extension of a path on every platform. A path without
/// a dot has no extension. An extension is what follows the last dot of the
/// path's last component: it holds no dot itself, it stands in the path
/// directly behind a dot, and nothing follows it there but what may stand
/// behind the last component. Where that component begins is left open.
pub open spec fn reads_as_extension(path: Seq<char>, extension: Option<Seq<char>>) -> bool {
    &&& !path.contains('.') ==> extension is None
    &&& extension matches Some(e) ==> !e.contains('.') && closes_behind_dot(path, e)
}

/// What holds of the name of a path's last component on every platform: it
/// is not empty, it stands in the path, and nothing follows it there but
/// what may stand behind the last component.
pub open spec fn reads_as_file_name(path: Seq<char>, name: Option<Seq<char>>) -> bool {
    name matches Some(n) ==> n.len() > 0 && exists|at: int| #[trigger]
        stands_at(path, n, at) && trails_from(path, at + n.len())
}

/// What holds of the stem of a path's file name on every platform: it is not
/// empty, it stands in the path, and what follows it there, if anything,
/// begins with a dot or with a character that parts components.
pub open spec fn reads_as_stem(path: Seq<char>, stem: Option<Seq<char>>) -> bool {
    stem matches Some(s) ==> s.len() > 0 && exists|at: int| #[trigger]
        stands_at(path, s, at) && (at + s.len() < path.len() ==> trails(path[at + s.len()]))
}

/// What holds of the parent of a path on every platform: it is the path
/// without its last component, so the path begins with it and is longer.
pub open spec fn reads_as_parent(path: Seq<char>, parent: Option<Seq<char>>) -> bool {
    parent matches Some(p) ==> p.len() < path.len() && p.is_prefix_of(path)
}

/// What holds, on every platform, of the name of the folder that holds the
/// file of a path: it is the name of the last component of a parent of the
/// path.
pub open spec fn reads_as_parent_folder(path: Seq<char>, folder: Option<Seq<char>>) -> bool {
    folder matches Some(n) ==> exists|parent: Seq<char>| #[trigger]
        reads_as_parent(path, Some(parent)) && reads_as_file_name(parent, Some(n))
}

/// The extension of a path, without its dot, as the platform reads it off the
/// path; `None` where the path has none.
pub uninterp spec fn path_extension_text(path: Seq<char>) -> Option<Seq<char>>;

/// The name of a path's file without its extension, as the platform reads it
/// off the path; `None` where the path has no file name.
pub uninterp spec fn path_stem_text(path: Seq<char>) -> Option<Seq<char>>;

/// A path without its last component, as the platform reads it off the
/// path; `None` where the path has no component to leave out.
pub uninterp spec fn path_parent_text(path: Seq<char>) -> Option<Seq<char>>;

/// The last component of a path, as the platform reads it off the path;
/// `None` where the path does not end in the name of a file or folder.
pub uninterp spec fn path_file_name_text(path: Seq<char>) -> Option<Seq<char>>;

/// The name of the folder that holds the file of a path: the last component
/// of the path's parent.
pub open spec fn parent_folder_text(path: Seq<char>) -> Option<Seq<char>> {
    match path_parent_text(path) {
        Some(parent) => path_file_name_text(parent),
        None => None,
    }
}

/// The view of a text that may be missing.
pub open spec fn text_of(text: Option<String>) -> Option<Seq<char>> {
    match text {
        Some(t) => Some(t@),
        None => None,
    }
}

/// The extension of a path, without its dot, by `std::path::Path::extension`.
/// Trusted: the result depends on the path alone. There is no extension
/// where the path holds no dot; an extension
/// is the part of the last component behind its last dot, so it holds no
/// dot, stands in the path directly behind one, and is followed there by
/// nothing but characters that part components on some platform, and dots.
#[verifier::external_body]
pub(crate) fn path_extension(path: &str) -> (extension: Option<String>)
    ensures
        text_of(extension) == path_extension_text(path@),
        reads_as_extension(path@, text_of(extension)),
{
    match std::path::Path::new(path).extension() {
        Some(part) => Some(part.to_string_lossy().into_owned()),
        None => None,
    }
}

/// The name of a path's file without its extension, by
/// `std::path::Path::file_stem`. Trusted: the result depends on the path
/// alone. A stem is not empty, being the
/// file name or the part of it before its last dot; it stands in the path;
/// and what follows it there begins with that dot or with a character that
/// parts components on some platform.
#[verifier::external_body]
pub(crate) fn path_file_stem(path: &str) -> (stem: Option<String>)
    ensures
        text_of(stem) == path_stem_text(path@),
        reads_as_stem(path@, text_of(stem)),
{
    match std::path::Path::new(path).file_stem() {
        Some(part) => Some(part.to_string_lossy().into_owned()),
        None => None,
    }
}

/// The path without its last component, by `std::path::Path::parent`.
/// Trusted: the result depends on the path alone. The path begins with its
/// parent and is longer.
#[verifier::external_body]
pub(crate) fn path_parent(path: &str) -> (parent: Option<String>)
    ensures
        text_of(parent) == path_parent_text(path@),
        reads_as_parent(path@, text_of(parent)),
{
    match std::path::Path::new(path).parent() {
        Some(part) => Some(part.to_string_lossy().into_owned()),
        None => None,
    }
}

/// The last component of a path, by `std::path::Path::file_name`. Trusted:
/// the result depends on the path alone. The name is not empty, stands in the path, and is followed there by
/// nothing but characters that part components on some platform, and dots.
#[verifier::external_body]
pub(crate) fn path_file_name(path: &str) -> (name: Option<String>)
    ensures
        text_of(name) == path_file_name_text(path@),
        reads_as_file_name(path@, text_of(name)),
{
    match std::path::Path::new(path).file_name() {
        Some(part) => Some(part.to_string_lossy().into_owned()),
        None => None,
    }
}

} // verus!
