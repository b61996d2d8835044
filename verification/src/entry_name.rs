//! The name of a requested entry, and the file it stands for.
//!
//! An entry is asked for by the name of its file. A name is only ever looked
//! up inside the entries directory: one that would lead out of it, through a
//! `..` segment or by being an absolute path, is refused before any file is
//! touched.

use vstd::prelude::*;
use vstd::string::StringExecFns;
use crate::error::BlogError;
use crate::text::chars_of;

verus! {

/// The directory, relative to the working directory, that holds the entries.
pub const ENTRIES_DIR: &'static str = "entries";

/// What every entry's path starts with: the entries directory and a slash.
pub const ENTRIES_PREFIX: &'static str = "entries/";

/// Whether `c` separates the segments of a path, on any platform.
pub open spec fn is_separator(c: char) -> bool {
    c == '/' || c == '\\'
}

/// Whether the two characters of `name` from `i` on are a whole segment `..`.
pub open spec fn is_parent_segment_at(name: Seq<char>, i: int) -> bool {
    &&& 0 <= i
    &&& i + 2 <= name.len()
    &&& name[i] == '.'
    &&& name[i + 1] == '.'
    &&& (i == 0 || is_separator(name[i - 1]))
    &&& (i + 2 == name.len() || is_separator(name[i + 2]))
}

/// Whether some segment of `name` is `..`, the parent directory.
pub open spec fn has_parent_segment(name: Seq<char>) -> bool {
    exists|i: int| is_parent_segment_at(name, i)
}

/// Whether `c` is one of the letters `a` to `z` or `A` to `Z`.
pub open spec fn is_drive_letter(c: char) -> bool {
    ('a' <= c && c <= 'z') || ('A' <= c && c <= 'Z')
}

/// Whether `name` is an absolute path: one that starts at a root (with a
/// separator) or at a drive (a letter and a colon).
pub open spec fn is_absolute(name: Seq<char>) -> bool {
    ||| name.len() >= 1 && is_separator(name[0])
    ||| name.len() >= 2 && is_drive_letter(name[0]) && name[1] == ':'
}

/// Whether looking `name` up could reach a file outside the entries directory.
pub open spec fn leaves_entries_dir(name: Seq<char>) -> bool {
    has_parent_segment(name) || is_absolute(name)
}

/// The path of the file that holds the entry called `name`.
pub open spec fn entry_path_of(name: Seq<char>) -> Seq<char> {
    ENTRIES_PREFIX@ + name
}

fn is_separator_char(c: char) -> (b: bool)
    ensures
        b == is_separator(c),
{
    c == '/' || c == '\\'
}

/// Tells whether looking `name` up could reach a file outside the entries
/// directory.
pub fn name_leaves_entries_dir(name: &str) -> (leaves: bool)
    ensures
        leaves == leaves_entries_dir(name@),
{
    let chars = chars_of(name);
    let n: usize = chars.len();
    if n >= 1 && is_separator_char(chars[0]) {
        return true;
    }
    if n >= 2 && chars[1] == ':' {
        let c: char = chars[0];
        if ('a' <= c && c <= 'z') || ('A' <= c && c <= 'Z') {
            return true;
        }
    }
    let mut i: usize = 0;
    while i < n
        invariant
            n == chars@.len(),
            chars@ == name@,
            i <= n,
            forall|j: int| 0 <= j < i ==> !is_parent_segment_at(name@, j),
        decreases n - i,
    {
        if chars[i] == '.' && n - i >= 2 && chars[i + 1] == '.' && (i == 0 || is_separator_char(
            chars[i - 1],
        )) && (n - i == 2 || is_separator_char(chars[i + 2])) {
            assert(is_parent_segment_at(name@, i as int));
            return true;
        }
        i += 1;
    }
    false
}

/// Answers a request for the entry called `name` with the path of the file
/// to read, `entries/` followed by the name, or refuses the name.
///
/// A name is refused exactly when it has a `..` segment or is an absolute
/// path. Nothing is read here, so a refused name never reaches the file
/// system.
pub fn entry_file_path(name: &str) -> (path: Result<String, BlogError>)
    ensures
        path is Err <==> leaves_entries_dir(name@),
        path matches Err(e) ==> e == BlogError::PathTraversal,
        path matches Ok(p) ==> p@ == entry_path_of(name@),
{
    if name_leaves_entries_dir(name) {
        return Err(BlogError::PathTraversal);
    }
    let mut path = String::from_str(ENTRIES_PREFIX);
    path.append(name);
    Ok(path)
}

} // verus!
