//! Paths with slashes, as texts.

use crate::text::{chars_of, stands_at, string_of};
use vstd::prelude::*;

verus! {

/// A name inside a directory. An absolute name stands for itself.
pub open spec fn joined(dir: Seq<char>, name: Seq<char>) -> Seq<char> {
    if dir.len() == 0 || (name.len() > 0 && name[0] == '/') {
        name
    } else if dir.last() == '/' {
        dir + name
    } else {
        dir + "/"@ + name
    }
}

/// A name inside a directory.
pub fn join_path(dir: &str, name: &str) -> (r: String)
    ensures
        r@ == joined(dir@, name@),
{
    let d = chars_of(dir);
    let n = chars_of(name);
    if d.len() == 0 || (n.len() > 0 && n[0] == '/') {
        name.to_owned()
    } else if d[d.len() - 1] == '/' {
        dir.to_owned().concat(name)
    } else {
        let mut s = dir.to_owned();
        s.append("/");
        s.append(name);
        s
    }
}

/// Where the last dot of a text stands, among its first `n` characters.
pub open spec fn last_dot(s: Seq<char>, n: int) -> Option<int>
    decreases n,
{
    if n <= 0 {
        None
    } else if s[n - 1] == '.' {
        Some(n - 1)
    } else {
        last_dot(s, n - 1)
    }
}

/// A file name split at its last dot; a dot in front does not count.
pub open spec fn stem_and_extension(name: Seq<char>) -> Option<(Seq<char>, Seq<char>)> {
    match last_dot(name, name.len() as int) {
        Some(k) => if k > 0 && name != ".."@ {
            Some((name.take(k), name.skip(k + 1)))
        } else {
            None
        },
        None => None,
    }
}

/// A file name split at its last dot; a dot in front does not count.
pub fn split_extension(name: &str) -> (r: Option<(String, String)>)
    ensures
        stem_and_extension(name@) == (match r {
            Some((stem, extension)) => Some((stem@, extension@)),
            None => None,
        }),
{
    let chars = chars_of(name);
    let mut n: usize = chars.len();
    while n > 0 && chars[n - 1] != '.'
        invariant
            n <= chars.len(),
            chars@ == name@,
            last_dot(name@, name@.len() as int) == last_dot(name@, n as int),
        decreases n,
    {
        n -= 1;
    }
    if n <= 1 || crate::text::str_eq(name, "..") {
        return None;
    }
    let stem = string_of(vstd::slice::slice_subrange(chars.as_slice(), 0, n - 1));
    let extension = string_of(
        vstd::slice::slice_subrange(chars.as_slice(), n, chars.len()),
    );
    assert(stem@ =~= name@.take(n - 1));
    assert(extension@ =~= name@.skip(n as int));
    Some((stem, extension))
}

/// A path ends with the name, and begins with the directory unless the name is absolute;
/// one slash stands between them.
pub proof fn law_path_holds_directory_and_name(dir: Seq<char>, name: Seq<char>)
    ensures
        ({
            let path = joined(dir, name);
            &&& stands_at(path, name, path.len() - name.len())
            &&& dir.len() > 0 && !(name.len() > 0 && name[0] == '/') ==> {
                &&& stands_at(path, dir, 0)
                &&& path[path.len() - name.len() - 1] == '/'
                &&& path.len() == dir.len() + name.len() + (if dir.last() == '/' {
                    0int
                } else {
                    1int
                })
            }
            &&& dir.len() == 0 || (name.len() > 0 && name[0] == '/') ==> path == name
        }),
{
    reveal_strlit("/");
}

} // verus!
