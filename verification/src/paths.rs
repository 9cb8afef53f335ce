//! File-system paths handled as UTF-8 text, with Unix rules. The component
//! rules of `std::path` are called, not restated: each call below names its
//! result, and states it where the documentation settles it in a few lines.

use std::path::Path;

use vstd::prelude::*;

use crate::text::chars_of;

verus! {

/// What `Path::parent` gives for the path.
pub uninterp spec fn path_parent(path: Seq<char>) -> Option<Seq<char>>;

/// What `Path::file_name` gives for the path.
pub uninterp spec fn path_file_name(path: Seq<char>) -> Option<Seq<char>>;


/// What `Path::strip_prefix` gives for the path and the base.
pub uninterp spec fn path_strip_prefix(path: Seq<char>, base: Seq<char>) -> Option<Seq<char>>;



/// Whether a path is absolute: on Unix, whether it starts at the root `/`.
pub open spec fn is_absolute_spec(path: Seq<char>) -> bool {
    path.len() > 0 && path[0] == '/'
}

/// `Path::join` on Unix: an absolute tail replaces the base; otherwise the
/// tail is appended, after a `/` unless the base is empty or already ends
/// with one.
pub open spec fn path_join(base: Seq<char>, tail: Seq<char>) -> Seq<char> {
    if is_absolute_spec(tail) {
        tail
    } else if base.len() == 0 || base.last() == '/' {
        base + tail
    } else {
        base + seq!['/'] + tail
    }
}

/// The position of the last `.` in a file name, or -1 when it has none.
pub open spec fn last_dot(name: Seq<char>) -> int
    decreases name.len(),
{
    if name.len() == 0 {
        -1
    } else if name.last() == '.' {
        name.len() - 1
    } else {
        last_dot(name.drop_last())
    }
}

/// A file name without its extension: all of it when it has no `.` or
/// only a leading one, otherwise the part before the last `.`.
pub open spec fn stem_of(name: Seq<char>) -> Seq<char> {
    if last_dot(name) <= 0 {
        name
    } else {
        name.take(last_dot(name))
    }
}

/// `Path::file_stem`: the stem of the file name, when there is one.
pub open spec fn path_file_stem(path: Seq<char>) -> Option<Seq<char>> {
    match path_file_name(path) {
        Some(name) => Some(stem_of(name)),
        None => None,
    }
}

/// `Path::with_file_name`: the name pushed onto the parent when the path
/// has a file name (and so a parent), otherwise onto the path itself.
pub open spec fn path_with_file_name(path: Seq<char>, name: Seq<char>) -> Seq<char> {
    match (path_file_name(path), path_parent(path)) {
        (Some(_), Some(parent)) => path_join(parent, name),
        _ => path_join(path, name),
    }
}

/// The text after the last `/` of a path, all of it when it has none.
pub open spec fn final_segment(path: Seq<char>) -> Seq<char>
    decreases path.len(),
{
    if path.len() == 0 || path.last() == '/' {
        Seq::empty()
    } else {
        final_segment(path.drop_last()).push(path.last())
    }
}

/// A final segment that is a normal file name: not empty, `.` or `..`.
pub open spec fn is_plain_segment(segment: Seq<char>) -> bool {
    segment.len() > 0 && segment != seq!['.'] && segment != seq!['.', '.']
}

/// An absolute path written in its plain form: it starts at the root, has
/// no empty segment (`//`), no trailing `/` (unless it is the root) and no
/// `.` segment.
pub open spec fn is_clean_absolute(path: Seq<char>) -> bool {
    &&& path.len() > 0 && path[0] == '/'
    &&& path.len() > 1 ==> path.last() != '/'
    &&& forall|i: int| 0 <= i < path.len() - 1 && #[trigger] path[i] == '/' ==> path[i + 1] != '/'
    &&& forall|i: int|
        1 <= i < path.len() && #[trigger] path[i] == '.' && path[i - 1] == '/' ==> i + 1 < path.len()
            && path[i + 1] != '/'
}

/// Whether `path` lies strictly inside the directory `base`: it continues
/// `base` with a `/` and at least one more character.
pub open spec fn strictly_below(path: Seq<char>, base: Seq<char>) -> bool {
    if base == seq!['/'] {
        path.len() > 1 && path[0] == '/'
    } else {
        path.len() > base.len() + 1 && path.take(base.len() as int) == base && path[base.len() as int]
            == '/'
    }
}

/// The part of `path` after the directory `base` and its separator.
pub open spec fn tail_below(path: Seq<char>, base: Seq<char>) -> Seq<char> {
    if base == seq!['/'] {
        path.skip(1)
    } else {
        path.skip(base.len() as int + 1)
    }
}

/// The parent of an absolute path in plain form: nothing for the root,
/// the root for a path directly under it, otherwise the text before the
/// last `/`.
pub open spec fn plain_parent(path: Seq<char>) -> Option<Seq<char>> {
    if path.len() <= 1 {
        None
    } else {
        let cut = path.len() - final_segment(path).len() - 1;
        if cut <= 0 {
            Some(seq!['/'])
        } else {
            Some(path.take(cut))
        }
    }
}

/// `Path::parent`: the path without its final component, if it has one.
/// The contract names the result, and states it for an absolute path in
/// plain form (see [`is_clean_absolute`]), as the documentation gives it:
/// nothing for the root, otherwise [`plain_parent`]. Other paths are left
/// to the name.
#[verifier::external_body]
pub(crate) fn parent_of(path: &str) -> (parent: Option<String>)
    ensures
        match parent {
            Some(p) => path_parent(path@) == Some(p@),
            None => path_parent(path@) is None,
        },
        is_clean_absolute(path@) ==> (if path@.len() <= 1 {
            parent is None
        } else {
            parent is Some && parent->0@ == plain_parent(path@)->0
        }),
{
    match Path::new(path).parent() {
        Some(parent) => Some(parent.to_string_lossy().into_owned()),
        None => None,
    }
}

/// `Path::file_name`: the final component, if it is a normal one. The
/// contract names the result, and states the one case the documentation
/// settles directly: when the text after the last `/` is a normal file name
/// (not empty, `.` or `..`), that text is the file name. Other paths (a
/// trailing `/`, `/.`, `..`) are left to the name.
#[verifier::external_body]
pub(crate) fn file_name_of(path: &str) -> (name: Option<String>)
    ensures
        match name {
            Some(n) => path_file_name(path@) == Some(n@),
            None => path_file_name(path@) is None,
        },
        is_plain_segment(final_segment(path@)) ==> name is Some && name->0@ == final_segment(path@),
{
    match Path::new(path).file_name() {
        Some(name) => Some(name.to_string_lossy().into_owned()),
        None => None,
    }
}

/// `Path::file_stem`: the file name without its last extension, as the
/// documentation describes it relative to the file name (see
/// [`path_file_stem`]).
#[verifier::external_body]
pub(crate) fn file_stem_of(path: &str) -> (stem: Option<String>)
    ensures
        match stem {
            Some(s) => path_file_stem(path@) == Some(s@),
            None => path_file_stem(path@) is None,
        },
{
    match Path::new(path).file_stem() {
        Some(stem) => Some(stem.to_string_lossy().into_owned()),
        None => None,
    }
}

/// `Path::strip_prefix`: the rest of `path` after the components of `base`,
/// or nothing when `base` is not a prefix of it. The contract names the
/// result; for two absolute paths in plain form (no `//`, no trailing `/`,
/// no `.` segment), where components and text agree, it states the result:
/// the empty path when they are equal, the text after `base/` when `path`
/// lies inside `base`, and nothing otherwise. Paths in other forms, which
/// `std` compares by components rather than by text, are left to the name.
#[verifier::external_body]
pub(crate) fn strip_prefix_of(path: &str, base: &str) -> (rest: Option<String>)
    ensures
        match rest {
            Some(r) => path_strip_prefix(path@, base@) == Some(r@),
            None => path_strip_prefix(path@, base@) is None,
        },
        is_clean_absolute(path@) && is_clean_absolute(base@) ==> match rest {
            Some(r) => (path@ == base@ && r@.len() == 0) || (strictly_below(path@, base@) && r@
                == tail_below(path@, base@)),
            None => path@ != base@ && !strictly_below(path@, base@),
        },
{
    match Path::new(path).strip_prefix(base) {
        Ok(rest) => Some(rest.to_string_lossy().into_owned()),
        Err(_) => None,
    }
}

/// `Path::join`: the tail appended to the base as a further component, or
/// the tail alone when it is absolute, as `PathBuf::push` documents; the
/// contract states that text exactly (see [`path_join`]).
#[verifier::external_body]
pub(crate) fn join_paths(base: &str, tail: &str) -> (joined: String)
    ensures
        joined@ == path_join(base@, tail@),
{
    Path::new(base).join(tail).to_string_lossy().into_owned()
}

/// `Path::with_file_name`: as `PathBuf::set_file_name` documents, the path
/// cut back to its parent when it has a file name, then the new name pushed
/// (see [`path_with_file_name`]); for an absolute path in plain form with a
/// normal file name, that is the name pushed onto [`plain_parent`].
#[verifier::external_body]
pub(crate) fn with_file_name_of(path: &str, name: &str) -> (renamed: String)
    ensures
        renamed@ == path_with_file_name(path@, name@),
        is_clean_absolute(path@) && is_plain_segment(final_segment(path@)) ==> renamed@ == path_join(
            plain_parent(path@)->0,
            name@,
        ),
{
    Path::new(path).with_file_name(name).to_string_lossy().into_owned()
}

/// Whether the path is absolute (`Path::is_absolute`), which on Unix holds
/// exactly when it starts at the root.
pub fn is_absolute_path(path: &str) -> (absolute: bool)
    ensures
        absolute == is_absolute_spec(path@),
{
    let chars = chars_of(path);
    chars.len() > 0 && chars[0] == '/'
}

} // verus!
