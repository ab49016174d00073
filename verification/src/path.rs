//! Paths as texts, with `/` between the parts.
use vstd::prelude::*;

use crate::text::{characters, slice_text};

verus! {

/// `part` below `base`: an absolute `part` stands for itself, and a slash comes between the two
/// where `base` needs one.
pub open spec fn path_below(base: Seq<char>, part: Seq<char>) -> Seq<char> {
    if part.len() > 0 && part[0] == '/' {
        part
    } else if base.len() == 0 || base.last() == '/' {
        base + part
    } else {
        base + seq!['/'] + part
    }
}

/// The place behind the last slash of `path`, or 0 where it has none.
pub open spec fn name_start(path: Seq<char>) -> int
    decreases path.len(),
{
    if path.len() == 0 || path.last() == '/' {
        path.len() as int
    } else {
        name_start(path.drop_last())
    }
}

/// The part of `path` behind its last slash.
pub open spec fn file_part(path: Seq<char>) -> Seq<char> {
    path.skip(name_start(path))
}

/// The directory that holds `path`: what stands before its last slash. The directory of a name
/// directly below the root is the root, and that of a bare name is the empty path.
pub open spec fn directory_part(path: Seq<char>) -> Seq<char> {
    let n = name_start(path);
    if n <= 1 {
        path.take(n)
    } else {
        path.take(n - 1)
    }
}

pub proof fn name_start_bounds(path: Seq<char>)
    ensures
        0 <= name_start(path) <= path.len(),
        name_start(path) > 0 ==> path[name_start(path) - 1] == '/',
        forall|i: int| name_start(path) <= i < path.len() ==> path[i] != '/',
    decreases path.len(),
{
    if path.len() > 0 && path.last() != '/' {
        let shorter = path.drop_last();
        name_start_bounds(shorter);
        assert forall|i: int| name_start(path) <= i < path.len() implies path[i] != '/' by {
            if i < shorter.len() {
                assert(path[i] == shorter[i]);
            }
        }
    }
}

/// The last slash is found from what stands behind it.
proof fn name_start_is(path: Seq<char>, n: int)
    requires
        0 <= n <= path.len(),
        n > 0 ==> path[n - 1] == '/',
        forall|i: int| n <= i < path.len() ==> path[i] != '/',
    ensures
        name_start(path) == n,
{
    name_start_bounds(path);
    let m = name_start(path);
    if m < n {
        assert(path[n - 1] != '/');
    } else if n < m {
        assert(path[m - 1] != '/');
    }
}

/// A name put below a directory can be told apart again: the directory part is the directory
/// and the file part is the name.
pub proof fn path_below_splits(base: Seq<char>, name: Seq<char>)
    requires
        base.len() > 0,
        base.last() != '/',
        name.len() > 0,
        !name.contains('/'),
    ensures
        directory_part(path_below(base, name)) == base,
        file_part(path_below(base, name)) == name,
{
    let path = base + seq!['/'] + name;
    assert(name[0] != '/');
    assert(path_below(base, name) == path);
    let n = base.len() as int + 1;
    assert forall|i: int| n <= i < path.len() implies path[i] != '/' by {
        assert(path[i] == name[i - n]);
    }
    name_start_is(path, n);
    assert(path.skip(n) =~= name);
    assert(path.take(n - 1) =~= base);
}

/// `part` below `base`.
pub fn join_path(base: &str, part: &str) -> (r: String)
    ensures
        r@ == path_below(base@, part@),
{
    let b = characters(base);
    let p = characters(part);
    if p.len() > 0 && p[0] == '/' {
        part.to_string()
    } else {
        let mut r = base.to_string();
        if b.len() > 0 && b[b.len() - 1] != '/' {
            r.push('/');
            proof {
                assert(r@ =~= base@ + seq!['/']);
            }
        }
        r.append(part);
        r
    }
}

/// The directory part and the file part of `path`.
pub fn split_path(path: &str) -> (r: (String, String))
    ensures
        r.0@ == directory_part(path@),
        r.1@ == file_part(path@),
{
    let x = characters(path);
    let mut n: usize = x.len();
    while n > 0 && x[n - 1] != '/'
        invariant
            n <= x@.len(),
            x@ == path@,
            forall|i: int| n <= i < x@.len() ==> x@[i] != '/',
        decreases n,
    {
        n -= 1;
    }
    proof {
        name_start_is(path@, n as int);
        assert(x@.subrange(n as int, x@.len() as int) =~= file_part(path@));
        if n <= 1 {
            assert(x@.subrange(0, n as int) =~= path@.take(n as int));
        } else {
            assert(x@.subrange(0, n - 1) =~= path@.take(n - 1));
        }
    }
    let name = slice_text(&x, n, x.len());
    let end: usize = if n <= 1 {
        n
    } else {
        n - 1
    };
    (slice_text(&x, 0, end), name)
}

/// A path below another begins with it and ends with what is added, with one slash in between where
/// none stands there yet; a path from the root is taken as it is.
pub proof fn paths_are_joined_by_one_slash(base: Seq<char>, part: Seq<char>)
    ensures
        part.len() > 0 && part[0] == '/' ==> path_below(base, part) == part,
        part.len() == 0 || part[0] != '/' ==> {
            let path = path_below(base, part);
            &&& path.len() >= base.len() + part.len()
            &&& path.take(base.len() as int) == base
            &&& path.skip(path.len() - part.len()) == part
            &&& base.len() == 0 ==> path == part
            &&& base.len() > 0 && base.last() == '/' ==> path.len() == base.len() + part.len()
            &&& base.len() > 0 && base.last() != '/' ==> path.len() == base.len() + 1 + part.len()
                && path[base.len() as int] == '/'
        },
{
    if part.len() == 0 || part[0] != '/' {
        let path = path_below(base, part);
        assert(path.take(base.len() as int) =~= base);
        assert(path.skip(path.len() - part.len()) =~= part);
        if base.len() == 0 {
            assert(path =~= part);
        }
    }
}

/// The name of a file is what stands behind the last slash of its path, and its directory what
/// stands before that slash; a path without a slash is a name in no directory, and a file at the
/// root lies in the root.
pub proof fn names_stand_behind_the_last_slash(dir: Seq<char>, name: Seq<char>)
    requires
        !name.contains('/'),
    ensures
        file_part(name) == name,
        directory_part(name).len() == 0,
        file_part(dir + seq!['/'] + name) == name,
        dir.len() > 0 ==> directory_part(dir + seq!['/'] + name) == dir,
        dir.len() == 0 ==> directory_part(dir + seq!['/'] + name) == seq!['/'],
{
    let path = dir + seq!['/'] + name;
    name_start_bounds(name);
    name_start_bounds(path);
    let n = name_start(name);
    if n > 0 {
        assert(name[n - 1] == '/');
        assert(name.contains('/'));
    }
    assert(name.skip(0) =~= name);
    assert(name.take(0) =~= seq![]);
    let m = name_start(path);
    let d = dir.len() as int;
    assert(path[d] == '/');
    if m <= d {
        assert(path[d] != '/');
    }
    if m > d + 1 {
        assert(path[m - 1] == name[m - d - 2]);
        assert(name.contains('/'));
    }
    assert(path.skip(m) =~= name);
    if d > 0 {
        assert(path.take(m - 1) =~= dir);
    } else {
        assert(path.take(m) =~= seq!['/']);
    }
}

} // verus!
