//! Paths as strings, and the one operation the search needs on them: putting
//! a name behind a directory.

use vstd::prelude::*;
use crate::platform::Platform;

verus! {

/// Whether `c` ends a part of a path. The Windows family reads both slashes
/// so; every other target only the forward one.
pub open spec fn is_separator(platform: Platform, c: char) -> bool {
    c == '/' || (platform is Windows && c == '\\')
}

/// A drive letter and a colon, and nothing else: `C:`.
pub open spec fn is_bare_drive(path: Seq<char>) -> bool {
    &&& path.len() == 2
    &&& path[1] == ':'
    &&& ('a' <= path[0] <= 'z' || 'A' <= path[0] <= 'Z')
}

/// Whether a separator has to be written between `base` and a name that
/// follows it. None is written behind an empty path, behind a path that
/// already ends in a separator, and, in the Windows family, behind a bare
/// drive, which names the current directory of that drive.
pub open spec fn takes_separator(platform: Platform, base: Seq<char>) -> bool {
    &&& base.len() > 0
    &&& !is_separator(platform, base.last())
    &&& !(platform is Windows && is_bare_drive(base))
}

/// The path of the entry `name` in the directory `base`.
pub open spec fn spec_join(platform: Platform, base: Seq<char>, name: Seq<char>) -> Seq<char> {
    if takes_separator(platform, base) {
        base.push(platform.spec_separator()) + name
    } else {
        base + name
    }
}

fn ends_in_separator(platform: Platform, base: &str, len: usize) -> (ends: bool)
    requires
        len == base@.len(),
        len > 0,
    ensures
        ends == is_separator(platform, base@.last()),
{
    let last: char = base.get_char(len - 1);
    match platform {
        Platform::Windows => last == '/' || last == '\\',
        Platform::Other => last == '/',
    }
}

fn bare_drive(base: &str, len: usize) -> (bare: bool)
    requires
        len == base@.len(),
    ensures
        bare == is_bare_drive(base@),
{
    if len != 2 {
        return false;
    }
    let letter: char = base.get_char(0);
    let colon: char = base.get_char(1);
    colon == ':' && (('a' <= letter && letter <= 'z') || ('A' <= letter && letter <= 'Z'))
}

/// Decides whether [`join`] writes a separator behind `base`.
pub fn needs_separator(platform: Platform, base: &str) -> (needed: bool)
    ensures
        needed == takes_separator(platform, base@),
{
    let len: usize = base.unicode_len();
    if len == 0 {
        return false;
    }
    if ends_in_separator(platform, base, len) {
        return false;
    }
    match platform {
        Platform::Windows => !bare_drive(base, len),
        Platform::Other => true,
    }
}

/// Puts `name` behind `base`, with the platform's separator between them
/// where one is needed. `name` is written as it stands: it is meant to be the
/// plain name of an entry.
pub fn join(platform: Platform, base: &str, name: &str) -> (joined: String)
    ensures
        joined@ == spec_join(platform, base@, name@),
{
    let mut joined = base.to_owned();
    if needs_separator(platform, base) {
        joined.append(platform.separator());
    }
    joined.append(name);
    joined
}

} // verus!
