//! Paths as text: joining them, and taking names apart. A path is a list of
//! names separated by slashes.

use vstd::prelude::*;
use vstd::string::*;

use crate::text::strings::{
    chars_of, last_index_of, opt_view, position_of_last, str_eq, string_of_range,
};

verus! {

/// `rel` taken relative to `base`: where it begins with a slash it stands
/// alone; otherwise one slash separates the two, unless `base` is empty or ends
/// with one.
pub open spec fn join_path(base: Seq<char>, rel: Seq<char>) -> Seq<char> {
    if rel.len() > 0 && rel[0] == '/' {
        rel
    } else if base.len() == 0 || base.last() == '/' {
        base + rel
    } else {
        base.push('/') + rel
    }
}

/// Joins a path to another.
pub fn path_join(base: &str, rel: &str) -> (r: String)
    ensures
        r@ == join_path(base@, rel@),
{
    let b = chars_of(base);
    let c = chars_of(rel);
    if c.len() > 0 && c[0] == '/' {
        rel.to_owned()
    } else {
        let mut r = base.to_owned();
        if b.len() > 0 && b[b.len() - 1] != '/' {
            r.push('/');
        }
        r.append(rel);
        r
    }
}

/// The last name of a path that is neither empty nor a single dot.
pub open spec fn last_name(s: Seq<char>) -> Option<Seq<char>>
    decreases s.len(),
{
    match last_index_of(s, '/') {
        Some(i) => {
            let name = s.skip(i + 1);
            if name.len() > 0 && name != seq!['.'] {
                Some(name)
            } else if 0 <= i < s.len() {
                last_name(s.take(i))
            } else {
                None
            }
        },
        None => if s.len() > 0 && s != seq!['.'] {
            Some(s)
        } else {
            None
        },
    }
}

/// The file name of a path: its last name, unless that is two dots.
pub open spec fn file_name(s: Seq<char>) -> Option<Seq<char>> {
    match last_name(s) {
        Some(name) if name != seq!['.', '.'] => Some(name),
        _ => None,
    }
}

/// A file name without its extension. A dot at the very beginning begins no
/// extension.
pub open spec fn stem(name: Seq<char>) -> Seq<char> {
    match last_index_of(name, '.') {
        Some(i) if i > 0 => name.take(i),
        _ => name,
    }
}

/// What follows the last dot of a file name, where a name stands before it.
pub open spec fn name_extension(name: Seq<char>) -> Option<Seq<char>> {
    match last_index_of(name, '.') {
        Some(i) if i > 0 => Some(name.skip(i + 1)),
        _ => None,
    }
}

/// The file name of a path without its extension.
pub open spec fn file_stem(s: Seq<char>) -> Option<Seq<char>> {
    match file_name(s) {
        Some(name) => Some(stem(name)),
        None => None,
    }
}

/// The extension of a path's file name.
pub open spec fn extension(s: Seq<char>) -> Option<Seq<char>> {
    match file_name(s) {
        Some(name) => name_extension(name),
        None => None,
    }
}

fn last_name_of(path: &str) -> (r: Option<String>)
    ensures
        opt_view(r) == last_name(path@),
{
    let chars = chars_of(path);
    let mut end: usize = chars.len();
    assert(chars@.take(end as int) == chars@);
    loop
        invariant
            chars@ == path@,
            end <= chars@.len(),
            last_name(path@) == last_name(chars@.take(end as int)),
        decreases end,
    {
        let head = string_of_range(&chars, 0, end);
        assert(head@ == chars@.take(end as int));
        match position_of_last(head.as_str(), '/') {
            None => {
                let dot = str_eq(head.as_str(), ".");
                proof {
                    reveal_strlit(".");
                    assert("."@ =~= seq!['.']);
                }
                return if end > 0 && !dot { Some(head) } else { None };
            },
            Some(i) => {
                let name = string_of_range(&chars, i + 1, end);
                assert(name@ == head@.skip(i + 1));
                let dot = str_eq(name.as_str(), ".");
                proof {
                    reveal_strlit(".");
                    assert("."@ =~= seq!['.']);
                }
                if i + 1 < end && !dot {
                    return Some(name);
                }
                assert(head@.take(i as int) == chars@.take(i as int));
                end = i;
            },
        }
    }
}

/// The file name of a path.
pub fn path_file_name(path: &str) -> (r: Option<String>)
    ensures
        opt_view(r) == file_name(path@),
{
    match last_name_of(path) {
        Some(name) => {
            let dots = str_eq(name.as_str(), "..");
            proof {
                reveal_strlit("..");
                assert(".."@ =~= seq!['.', '.']);
            }
            if dots {
                None
            } else {
                Some(name)
            }
        },
        None => None,
    }
}

/// The file name of a path without its extension.
pub fn path_file_stem(path: &str) -> (r: Option<String>)
    ensures
        opt_view(r) == file_stem(path@),
{
    match path_file_name(path) {
        Some(name) => match position_of_last(name.as_str(), '.') {
            Some(i) if i > 0 => {
                let chars = chars_of(name.as_str());
                let t = string_of_range(&chars, 0, i);
                assert(t@ == name@.take(i as int));
                Some(t)
            },
            _ => Some(name),
        },
        None => None,
    }
}

/// The extension of a path's file name.
pub fn path_extension(path: &str) -> (r: Option<String>)
    ensures
        opt_view(r) == extension(path@),
{
    match path_file_name(path) {
        Some(name) => match position_of_last(name.as_str(), '.') {
            Some(i) if i > 0 => {
                let chars = chars_of(name.as_str());
                let t = string_of_range(&chars, i + 1, chars.len());
                assert(t@ == name@.skip(i + 1));
                Some(t)
            },
            _ => None,
        },
        None => None,
    }
}

/// Different relative paths lead to different places.
pub proof fn law_relative_paths_keep_apart(base: Seq<char>, a: Seq<char>, b: Seq<char>)
    requires
        a.len() > 0 ==> a[0] != '/',
        b.len() > 0 ==> b[0] != '/',
        a != b,
    ensures
        join_path(base, a) != join_path(base, b),
{
    let front = if base.len() == 0 || base.last() == '/' {
        base
    } else {
        base.push('/')
    };
    assert((front + a).skip(front.len() as int) =~= a);
    assert((front + b).skip(front.len() as int) =~= b);
}

/// A relative path is taken below its base, and below it only: the joined path
/// begins with the base and ends with the path, with one slash more at most. An
/// absolute path stands alone.
pub proof fn law_join_path(base: Seq<char>, rel: Seq<char>)
    ensures
        rel.len() > 0 && rel[0] == '/' ==> join_path(base, rel) == rel,
        !(rel.len() > 0 && rel[0] == '/') ==> ({
            let all = join_path(base, rel);
            &&& all.take(base.len() as int) == base
            &&& all.skip(all.len() - rel.len()) == rel
            &&& base.len() > 0 && base.last() != '/' ==> all.len() == base.len() + 1 + rel.len()
                && all[base.len() as int] == '/'
            &&& base.len() == 0 || base.last() == '/' ==> all.len() == base.len() + rel.len()
        }),
{
    let all = join_path(base, rel);
    if !(rel.len() > 0 && rel[0] == '/') {
        assert(all.take(base.len() as int) =~= base);
        assert(all.skip(all.len() - rel.len()) =~= rel);
    }
}

} // verus!
