//! Paths built as std builds them: a base, extended part by part, with an
//! extension set at the end.

use std::path::PathBuf;
use vstd::prelude::*;

verus! {

/// The path that `PathBuf::join` of std makes of a path and a part
/// adjoined to it. A part that is an absolute path takes the place of the
/// path; how the two are put together else is std's to say for the system
/// that the library is built for.
pub uninterp spec fn path_joined(path: Seq<char>, part: Seq<char>) -> Seq<char>;

/// The path that `PathBuf::set_extension` of std leaves when it sets the
/// extension of a path: the extension that the file name had is taken
/// off, and the new one is put on unless it is empty. A path without a
/// file name stays as it is.
pub uninterp spec fn extension_set(path: Seq<char>, extension: Seq<char>) -> Seq<char>;

/// A character that separates the parts of a path in one of the systems
/// that std knows.
pub open spec fn is_separator(c: char) -> bool {
    c == '/' || c == '\\'
}

/// No character of the text separates parts of a path.
pub open spec fn separator_free(text: Seq<char>) -> bool {
    forall|i: int| 0 <= i < text.len() ==> !is_separator(#[trigger] text[i])
}

/// `PathBuf::join` of std on a path and a part that are texts: the path
/// with the part adjoined, which is a text again and depends on the two
/// alone.
#[verifier::external_body]
fn join_path(path: &str, part: &str) -> (joined: String)
    ensures
        joined@ == path_joined(path@, part@),
{
    PathBuf::from(path).join(part).to_string_lossy().into_owned()
}

/// `PathBuf::set_extension` of std on a path and an extension that are
/// texts: the path with the extension set, which is a text again and
/// depends on the two alone. std panics on an extension that holds a
/// separator, so none is handed to it.
#[verifier::external_body]
fn set_extension(path: &str, extension: &str) -> (set: String)
    requires
        separator_free(extension@),
    ensures
        set@ == extension_set(path@, extension@),
{
    let mut buf = PathBuf::from(path);
    buf.set_extension(extension);
    buf.to_string_lossy().into_owned()
}

/// The views of the texts of a list.
pub open spec fn text_views(parts: Seq<&str>) -> Seq<Seq<char>> {
    parts.map_values(|part: &str| part@)
}

/// The view of an extension that may be missing.
pub open spec fn extension_view(extension: Option<&str>) -> Option<Seq<char>> {
    match extension {
        Some(ext) => Some(ext@),
        None => None,
    }
}

/// `base` with each part adjoined in turn.
pub open spec fn joined(base: Seq<char>, parts: Seq<Seq<char>>) -> Seq<char>
    decreases parts.len(),
{
    if parts.len() == 0 {
        base
    } else {
        path_joined(joined(base, parts.drop_last()), parts.last())
    }
}

/// `path` with the extension set, where there is one to set.
pub open spec fn with_extension(path: Seq<char>, extension: Option<Seq<char>>) -> Seq<char> {
    match extension {
        Some(ext) => extension_set(path, ext),
        None => path,
    }
}

/// The path that `build_path` makes of its arguments: the base with each
/// part adjoined in turn, and then the extension set.
pub open spec fn built_path(
    base: Seq<char>,
    parts: Seq<Seq<char>>,
    extension: Option<Seq<char>>,
) -> Seq<char> {
    with_extension(joined(base, parts), extension)
}

/// Without parts and without an extension the path is the base; each
/// further part is adjoined to the path of the parts before it.
pub proof fn lemma_built_path(
    base: Seq<char>,
    parts: Seq<Seq<char>>,
    part: Seq<char>,
    extension: Seq<char>,
)
    ensures
        built_path(base, Seq::empty(), None) == base,
        built_path(base, Seq::empty(), Some(extension)) == extension_set(base, extension),
        built_path(base, parts.push(part), None) == path_joined(
            built_path(base, parts, None),
            part,
        ),
        built_path(base, parts, Some(extension)) == extension_set(
            built_path(base, parts, None),
            extension,
        ),
{
    assert(parts.push(part).drop_last() =~= parts);
}

/// Extends `path` by each of `parts` in turn, as std joins paths, and
/// then sets `extension`, where one is given, as std sets the extension
/// of a path. Without parts and without an extension the path comes back
/// as it is.
///
/// An extension may hold no separator of paths: std refuses such an
/// extension.
pub fn build_path(path: String, parts: &[&str], extension: Option<&str>) -> (built: String)
    requires
        extension matches Some(ext) ==> separator_free(ext@),
    ensures
        built@ == built_path(path@, text_views(parts@), extension_view(extension)),
{
    let mut built = path;
    let mut done: usize = 0;
    while done < parts.len()
        invariant
            done <= parts.len(),
            built@ == joined(path@, text_views(parts@).take(done as int)),
        decreases parts.len() - done,
    {
        proof {
            let before = text_views(parts@).take(done as int);
            let after = text_views(parts@).take(done as int + 1);
            assert(after.drop_last() =~= before);
            assert(after.last() == parts@[done as int]@);
        }
        built = join_path(built.as_str(), parts[done]);
        done += 1;
    }
    assert(text_views(parts@).take(done as int) =~= text_views(parts@));
    match extension {
        Some(ext) => set_extension(built.as_str(), ext),
        None => built,
    }
}

} // verus!
