//! Paths as text, with `/` between their components.
//!
//! A path is read the way a file system with `/` as its only separator reads
//! it: a leading `/` is the root, repeated and trailing separators count for
//! nothing, and a component `.` counts only at the very start of a path
//! without a root. The part behind the root, or behind such a leading `.`, is
//! the path's body.

use crate::text::{chars_of, opt_text};
use vstd::prelude::*;

verus! {

/// Whether the path starts at the root.
pub open spec fn is_rooted(s: Seq<char>) -> bool {
    s.len() > 0 && s[0] == '/'
}

/// Whether the path starts with a component `.`.
pub open spec fn starts_with_cur_dir(s: Seq<char>) -> bool {
    s.len() > 0 && s[0] == '.' && (s.len() == 1 || s[1] == '/')
}

/// Where the body of the path starts.
pub open spec fn body_start(s: Seq<char>) -> int {
    if is_rooted(s) || starts_with_cur_dir(s) {
        1
    } else {
        0
    }
}

/// Where the last component of `s[from..to]` starts: behind the last
/// separator in that range, or at `from` when it holds none.
pub open spec fn segment_start(s: Seq<char>, from: int, to: int) -> int
    decreases to - from,
{
    if to <= from {
        from
    } else if s[to - 1] == '/' {
        to
    } else {
        segment_start(s, from, to - 1)
    }
}

/// The length that is left of `s[..to]` once the separators and the
/// components `.` at the end of its body, which starts at `from`, are dropped.
pub open spec fn trimmed_len(s: Seq<char>, from: int, to: int) -> int
    decreases to - from,
{
    if to <= from {
        from
    } else if s[to - 1] == '/' {
        trimmed_len(s, from, to - 1)
    } else if s[to - 1] == '.' && (to - 1 == from || s[to - 2] == '/') {
        trimmed_len(s, from, to - 1)
    } else {
        to
    }
}

/// Where the path ends once its last component is cut off, together with the
/// separator in front of it; `end` is where that component ends.
pub open spec fn cut_before_last(s: Seq<char>, end: int) -> int {
    let from = body_start(s);
    let start = segment_start(s, from, end);
    if start > from {
        start - 1
    } else {
        from
    }
}

/// The path of the entry `name` of the directory `dir`: `dir`, a separator
/// and `name`. The separator is left out where `dir` is empty, which stands
/// for the directory one is in, or ends in a separator already.
pub open spec fn within(dir: Seq<char>, name: Seq<char>) -> Seq<char> {
    if dir.len() > 0 && dir.last() != '/' {
        dir + seq!['/'] + name
    } else {
        dir + name
    }
}

/// The path without its last component. A path of one component that is not
/// rooted has the empty parent; the root and the empty path have none.
pub open spec fn parent_of(s: Seq<char>) -> Option<Seq<char>> {
    let from = body_start(s);
    let end = trimmed_len(s, from, s.len() as int);
    if end > from {
        Some(s.take(trimmed_len(s, from, cut_before_last(s, end))))
    } else if starts_with_cur_dir(s) {
        Some(Seq::empty())
    } else {
        None
    }
}

/// The last component of the path, unless the path ends in the root, in a
/// leading `.` or in `..`.
pub open spec fn file_name_of(s: Seq<char>) -> Option<Seq<char>> {
    let from = body_start(s);
    let end = trimmed_len(s, from, s.len() as int);
    if end > from {
        let name = s.subrange(segment_start(s, from, end), end);
        if name == seq!['.', '.'] {
            None
        } else {
            Some(name)
        }
    } else {
        None
    }
}

fn body_start_in(v: &Vec<char>) -> (from: usize)
    ensures
        from == body_start(v@),
        from <= v.len(),
{
    let n = v.len();
    if n > 0 && (v[0] == '/' || (v[0] == '.' && (n == 1 || v[1] == '/'))) {
        1
    } else {
        0
    }
}

fn segment_start_in(v: &Vec<char>, from: usize, to: usize) -> (start: usize)
    requires
        from <= to <= v.len(),
    ensures
        start == segment_start(v@, from as int, to as int),
        from <= start <= to,
{
    let mut at = to;
    while at > from && v[at - 1] != '/'
        invariant
            from <= at <= to <= v.len(),
            segment_start(v@, from as int, to as int) == segment_start(v@, from as int, at as int),
        decreases at,
    {
        at -= 1;
    }
    at
}

fn trimmed_len_in(v: &Vec<char>, from: usize, to: usize) -> (end: usize)
    requires
        from <= to <= v.len(),
    ensures
        end == trimmed_len(v@, from as int, to as int),
        from <= end <= to,
{
    let mut at = to;
    while at > from && (v[at - 1] == '/' || (v[at - 1] == '.' && (at - 1 == from || v[at - 2]
        == '/')))
        invariant
            from <= at <= to <= v.len(),
            trimmed_len(v@, from as int, to as int) == trimmed_len(v@, from as int, at as int),
        decreases at,
    {
        at -= 1;
    }
    at
}

/// Where the last component of the path starts and ends, once the separators
/// and the components `.` behind it are dropped; `None` where the body holds
/// no component.
fn last_component_in(v: &Vec<char>) -> (r: Option<(usize, usize)>)
    ensures
        match r {
            Some((start, end)) => {
                &&& end == trimmed_len(v@, body_start(v@), v@.len() as int)
                &&& start == segment_start(v@, body_start(v@), end as int)
                &&& body_start(v@) <= start <= end <= v.len()
                &&& end > body_start(v@)
            },
            None => trimmed_len(v@, body_start(v@), v@.len() as int) <= body_start(v@),
        },
{
    let from = body_start_in(v);
    let end = trimmed_len_in(v, from, v.len());
    if end > from {
        Some((segment_start_in(v, from, end), end))
    } else {
        None
    }
}

/// The path of the entry `name` of the directory `dir`.
pub fn path_within(dir: &str, name: &str) -> (path: String)
    ensures
        path@ == within(dir@, name@),
{
    let dir_len = dir.unicode_len();
    let mut path = String::from_str(dir);
    if dir_len > 0 && dir.get_char(dir_len - 1) != '/' {
        proof {
            reveal_strlit("/");
        }
        assert("/"@ =~= seq!['/']);
        path.append("/");
    }
    path.append(name);
    path
}

/// The path without its last component, if it has one to lose.
pub fn parent(path: &str) -> (r: Option<String>)
    ensures
        opt_text(r) == parent_of(path@),
{
    let v = chars_of(path);
    match last_component_in(&v) {
        Some((start, _end)) => {
            let from = body_start_in(&v);
            let cut = if start > from {
                start - 1
            } else {
                from
            };
            let keep = trimmed_len_in(&v, from, cut);
            assert(path@.subrange(0, keep as int) =~= path@.take(keep as int));
            Some(String::from_str(path.substring_char(0, keep)))
        },
        None => {
            if v.len() > 0 && v[0] == '.' && (v.len() == 1 || v[1] == '/') {
                Some(String::new())
            } else {
                None
            }
        },
    }
}

/// The last component of the path, if the path ends in a name.
pub fn file_name(path: &str) -> (r: Option<String>)
    ensures
        opt_text(r) == file_name_of(path@),
{
    let v = chars_of(path);
    match last_component_in(&v) {
        Some((start, end)) => {
            if end - start == 2 && v[start] == '.' && v[start + 1] == '.' {
                assert(path@.subrange(start as int, end as int) =~= seq!['.', '.']);
                None
            } else {
                assert(path@.subrange(start as int, end as int) != seq!['.', '.']) by {
                    let name = path@.subrange(start as int, end as int);
                    if name == seq!['.', '.'] {
                        assert(name.len() == 2);
                        assert(name[0] == '.' && name[1] == '.');
                    }
                }
                Some(String::from_str(path.substring_char(start, end)))
            }
        },
        None => None,
    }
}

} // verus!
