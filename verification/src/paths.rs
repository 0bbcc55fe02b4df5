//! File-system paths held as character strings.
//!
//! A path is separated by `/` and, where the platform separator is `\`, by
//! `\` as well. The platform separator is what `join` inserts.

use vstd::prelude::*;
use crate::text::{chars_of, push_char, push_str, string_of, string_of_range};

verus! {

/// Whether `c` separates path components under platform separator `sep`.
pub open spec fn is_sep(c: char, sep: char) -> bool {
    c == '/' || c == sep
}

/// Exec form of [`is_sep`].
pub fn is_separator(c: char, sep: char) -> (r: bool)
    ensures
        r == is_sep(c, sep),
{
    c == '/' || c == sep
}

/// Whether `p` is an absolute path: rooted on `/`-platforms; drive-rooted
/// (`X:\`) or doubly rooted (`\\server`) where the separator is `\`.
pub open spec fn is_absolute(p: Seq<char>, sep: char) -> bool {
    if sep == '/' {
        p.len() > 0 && p[0] == '/'
    } else {
        (p.len() >= 3 && p[1] == ':' && is_sep(p[2], sep)) || (p.len() >= 2 && is_sep(p[0], sep)
            && is_sep(p[1], sep))
    }
}

/// Exec form of [`is_absolute`].
pub fn path_is_absolute(p: &Vec<char>, sep: char) -> (r: bool)
    ensures
        r == is_absolute(p@, sep),
{
    if sep == '/' {
        p.len() > 0 && p[0] == '/'
    } else {
        (p.len() >= 3 && p[1] == ':' && is_separator(p[2], sep)) || (p.len() >= 2 && is_separator(
            p[0],
            sep,
        ) && is_separator(p[1], sep))
    }
}

/// `base` joined with `seg` (`Path::join`): an absolute `seg` replaces
/// `base`, and one separator is inserted unless `base` is empty or already
/// ends with one.
pub open spec fn join(base: Seq<char>, seg: Seq<char>, sep: char) -> Seq<char> {
    if is_absolute(seg, sep) {
        seg
    } else if base.len() == 0 {
        seg
    } else if is_sep(base.last(), sep) {
        base + seg
    } else {
        base.push(sep) + seg
    }
}

/// Joins a path segment onto a base path.
pub fn path_join(base: &str, seg: &str, sep: char) -> (r: String)
    ensures
        r@ == join(base@, seg@, sep),
{
    let b = chars_of(base);
    let s = chars_of(seg);
    if path_is_absolute(&s, sep) {
        return string_of(&s);
    }
    if b.len() == 0 {
        return string_of(&s);
    }
    let mut out = string_of(&b);
    if !is_separator(b[b.len() - 1], sep) {
        push_char(&mut out, sep);
    }
    push_str(&mut out, seg);
    out
}

/// `p` without trailing separators, keeping a lone root separator.
pub open spec fn strip_trailing_seps(p: Seq<char>, sep: char) -> Seq<char>
    decreases p.len(),
{
    if p.len() > 1 && is_sep(p.last(), sep) {
        strip_trailing_seps(p.drop_last(), sep)
    } else {
        p
    }
}

/// Index of the last separator of `p`, or -1.
pub open spec fn last_sep(p: Seq<char>, sep: char) -> int
    decreases p.len(),
{
    if p.len() == 0 {
        -1
    } else if is_sep(p.last(), sep) {
        p.len() - 1
    } else {
        last_sep(p.drop_last(), sep)
    }
}

proof fn lemma_last_sep_bounds(p: Seq<char>, sep: char)
    ensures
        -1 <= last_sep(p, sep) < p.len(),
        last_sep(p, sep) >= 0 ==> is_sep(p[last_sep(p, sep)], sep),
        forall|k: int| last_sep(p, sep) < k < p.len() ==> !is_sep(#[trigger] p[k], sep),
    decreases p.len(),
{
    if p.len() > 0 && !is_sep(p.last(), sep) {
        lemma_last_sep_bounds(p.drop_last(), sep);
        assert forall|k: int| last_sep(p, sep) < k < p.len() implies !is_sep(#[trigger] p[k], sep) by {
            if k < p.len() - 1 {
                assert(p[k] == p.drop_last()[k]);
            }
        }
    }
}

fn strip_trailing_len(p: &Vec<char>, len: usize, sep: char) -> (r: usize)
    requires
        len <= p.len(),
    ensures
        r <= len,
        p@.subrange(0, r as int) == strip_trailing_seps(p@.subrange(0, len as int), sep),
    decreases len,
{
    if len > 1 && is_separator(p[len - 1], sep) {
        let r = strip_trailing_len(p, len - 1, sep);
        assert(p@.subrange(0, len as int).drop_last() == p@.subrange(0, len - 1));
        r
    } else {
        len
    }
}

fn last_sep_index(p: &Vec<char>, len: usize, sep: char) -> (r: Option<usize>)
    requires
        len <= p.len(),
    ensures
        match r {
            Some(i) => last_sep(p@.subrange(0, len as int), sep) == i as int,
            None => last_sep(p@.subrange(0, len as int), sep) == -1,
        },
    decreases len,
{
    if len == 0 {
        None
    } else if is_separator(p[len - 1], sep) {
        Some(len - 1)
    } else {
        let r = last_sep_index(p, len - 1, sep);
        assert(p@.subrange(0, len as int).drop_last() == p@.subrange(0, len - 1));
        r
    }
}

/// The parent of `p` (`Path::parent`), if it has one.
pub open spec fn parent(p: Seq<char>, sep: char) -> Option<Seq<char>> {
    let q = strip_trailing_seps(p, sep);
    let i = last_sep(q, sep);
    if q.len() == 0 {
        None
    } else if i < 0 {
        Some(Seq::<char>::empty())
    } else if q.len() == 1 {
        None
    } else {
        Some(strip_trailing_seps(q.subrange(0, i + 1), sep))
    }
}

/// The parent directory of a path.
pub fn path_parent(p: &str, sep: char) -> (r: Option<String>)
    ensures
        match r {
            Some(s) => parent(p@, sep) == Some(s@),
            None => parent(p@, sep) is None,
        },
{
    let v = chars_of(p);
    let qlen = strip_trailing_len(&v, v.len(), sep);
    assert(v@.subrange(0, v.len() as int) == v@);
    let ghost q = v@.subrange(0, qlen as int);
    if qlen == 0 {
        return None;
    }
    match last_sep_index(&v, qlen, sep) {
        None => Some(String::new()),
        Some(i) => {
            if qlen == 1 {
                return None;
            }
            proof {
                lemma_last_sep_bounds(q, sep);
            }
            let plen = strip_trailing_len(&v, i + 1, sep);
            assert(q.subrange(0, i + 1) == v@.subrange(0, i + 1));
            Some(string_of_range(&v, 0, plen))
        },
    }
}

/// The last component of `p` (`Path::file_name`): none for an empty path,
/// a root, or a path ending in `..`.
pub open spec fn file_name(p: Seq<char>, sep: char) -> Option<Seq<char>> {
    let q = strip_trailing_seps(p, sep);
    let name = q.subrange(last_sep(q, sep) + 1, q.len() as int);
    if name.len() == 0 || name == ".."@ {
        None
    } else {
        Some(name)
    }
}

/// The last component of a path.
pub fn path_file_name(p: &str, sep: char) -> (r: Option<String>)
    ensures
        match r {
            Some(s) => file_name(p@, sep) == Some(s@),
            None => file_name(p@, sep) is None,
        },
{
    proof {
        reveal_strlit("..");
    }
    let v = chars_of(p);
    let qlen = strip_trailing_len(&v, v.len(), sep);
    assert(v@.subrange(0, v.len() as int) == v@);
    let ghost q = v@.subrange(0, qlen as int);
    proof {
        lemma_last_sep_bounds(q, sep);
    }
    let start = match last_sep_index(&v, qlen, sep) {
        None => 0,
        Some(i) => i + 1,
    };
    assert(q.subrange(start as int, q.len() as int) == v@.subrange(start as int, qlen as int));
    if start == qlen {
        return None;
    }
    if qlen - start == 2 && v[start] == '.' && v[start + 1] == '.' {
        assert(v@.subrange(start as int, qlen as int) == ".."@);
        return None;
    }
    proof {
        let name = v@.subrange(start as int, qlen as int);
        if name == ".."@ {
            assert(name[0] == '.' && name[1] == '.');
        }
    }
    Some(string_of_range(&v, start, qlen))
}

/// Index of the last `.` of `s`, or -1.
pub open spec fn last_dot(s: Seq<char>) -> int
    decreases s.len(),
{
    if s.len() == 0 {
        -1
    } else if s.last() == '.' {
        s.len() - 1
    } else {
        last_dot(s.drop_last())
    }
}

proof fn lemma_last_dot_bounds(s: Seq<char>)
    ensures
        -1 <= last_dot(s) < s.len(),
        last_dot(s) >= 0 ==> s[last_dot(s)] == '.',
    decreases s.len(),
{
    if s.len() > 0 && s.last() != '.' {
        lemma_last_dot_bounds(s.drop_last());
    }
}

/// The extension of a file name (`Path::extension`): the part after the
/// last `.`, unless there is none or the only one leads the name.
pub open spec fn name_extension(name: Seq<char>) -> Option<Seq<char>> {
    if name == ".."@ || last_dot(name) <= 0 {
        None
    } else {
        Some(name.subrange(last_dot(name) + 1, name.len() as int))
    }
}

/// The part of a file name before its extension (`Path::file_stem`).
pub open spec fn name_stem(name: Seq<char>) -> Seq<char> {
    if name == ".."@ || last_dot(name) <= 0 {
        name
    } else {
        name.subrange(0, last_dot(name))
    }
}

/// The extension of a path's last component.
pub open spec fn extension(p: Seq<char>, sep: char) -> Option<Seq<char>> {
    match file_name(p, sep) {
        Some(name) => name_extension(name),
        None => None,
    }
}

/// The stem of a path's last component.
pub open spec fn file_stem(p: Seq<char>, sep: char) -> Option<Seq<char>> {
    match file_name(p, sep) {
        Some(name) => Some(name_stem(name)),
        None => None,
    }
}

fn last_dot_index(v: &Vec<char>, len: usize) -> (r: Option<usize>)
    requires
        len <= v.len(),
    ensures
        match r {
            Some(i) => last_dot(v@.subrange(0, len as int)) == i as int,
            None => last_dot(v@.subrange(0, len as int)) == -1,
        },
    decreases len,
{
    if len == 0 {
        None
    } else if v[len - 1] == '.' {
        Some(len - 1)
    } else {
        let r = last_dot_index(v, len - 1);
        assert(v@.subrange(0, len as int).drop_last() == v@.subrange(0, len - 1));
        r
    }
}

/// Splits a file name into stem and extension.
pub fn split_name(name: &str) -> (r: (String, Option<String>))
    ensures
        r.0@ == name_stem(name@),
        match r.1 {
            Some(e) => name_extension(name@) == Some(e@),
            None => name_extension(name@) is None,
        },
{
    proof {
        reveal_strlit("..");
    }
    let v = chars_of(name);
    assert(v@.subrange(0, v.len() as int) == v@);
    let is_dotdot = v.len() == 2 && v[0] == '.' && v[1] == '.';
    proof {
        if v@ == ".."@ {
            assert(v@[0] == '.' && v@[1] == '.');
        }
        if is_dotdot {
            assert(v@ == ".."@);
        }
    }
    match last_dot_index(&v, v.len()) {
        Some(i) => {
            if i == 0 || is_dotdot {
                (string_of(&v), None)
            } else {
                proof {
                    lemma_last_dot_bounds(v@);
                }
                (string_of_range(&v, 0, i), Some(string_of_range(&v, i + 1, v.len())))
            }
        },
        None => (string_of(&v), None),
    }
}

/// The extension of a path, if it has one.
pub fn path_extension(p: &str, sep: char) -> (r: Option<String>)
    ensures
        match r {
            Some(e) => extension(p@, sep) == Some(e@),
            None => extension(p@, sep) is None,
        },
{
    match path_file_name(p, sep) {
        Some(name) => split_name(name.as_str()).1,
        None => None,
    }
}

/// The stem of a path, if it has a file name.
pub fn path_file_stem(p: &str, sep: char) -> (r: Option<String>)
    ensures
        match r {
            Some(e) => file_stem(p@, sep) == Some(e@),
            None => file_stem(p@, sep) is None,
        },
{
    match path_file_name(p, sep) {
        Some(name) => Some(split_name(name.as_str()).0),
        None => None,
    }
}

/// The platform's path separator (`std::path::MAIN_SEPARATOR`).
#[verifier::external_body]
pub(crate) fn main_separator() -> (c: char)
    ensures
        c == '/' || c == '\\',
{
    std::path::MAIN_SEPARATOR
}

} // verus!
