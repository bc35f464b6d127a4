//! Paths as text: joining a path to a root, and telling whether the result
//! stays below the root.

use vstd::prelude::*;
use vstd::string::*;
use crate::text::{
    chars_of, lemma_split_shift, matches_at, slice_of, split, split_from, split_on, starts_with,
    views,
};

verus! {

/// The path `rel` taken from `base`: `rel` itself where it starts at the
/// root of the file system, else `base`, a slash unless `base` is empty or
/// ends in one, and `rel`.
pub open spec fn joined(base: Seq<char>, rel: Seq<char>) -> Seq<char> {
    if rel.len() > 0 && rel[0] == '/' {
        rel
    } else if base.len() == 0 || base.last() == '/' {
        base + rel
    } else {
        base.push('/') + rel
    }
}

/// The pieces one after the other.
pub open spec fn concat(pieces: Seq<Seq<char>>) -> Seq<char>
    decreases pieces.len(),
{
    if pieces.len() == 0 {
        Seq::empty()
    } else {
        concat(pieces.drop_last()) + pieces.last()
    }
}

/// The text without the occurrences of `pat`, taken out from left to right.
pub open spec fn removed_all(s: Seq<char>, pat: Seq<char>) -> Seq<char> {
    if pat.len() == 0 {
        s
    } else {
        concat(split(s, pat))
    }
}

/// How deep below the start one stands after the component `c`, having
/// stood at `depth`: `..` leads up, an empty component and `.` lead
/// nowhere, any other leads down.
pub open spec fn depth_after(c: Seq<char>, depth: int) -> int {
    if c == ".."@ {
        depth - 1
    } else if c.len() == 0 || c == "."@ {
        depth
    } else {
        depth + 1
    }
}

/// Whether walking the components from `depth` never leads above the start.
pub open spec fn stays_below(comps: Seq<Seq<char>>, depth: int) -> bool
    decreases comps.len(),
{
    if comps.len() == 0 {
        true
    } else {
        depth_after(comps[0], depth) >= 0 && stays_below(
            comps.drop_first(),
            depth_after(comps[0], depth),
        )
    }
}

/// Whether the path `full` lies below `root`: it begins with `root`, what
/// follows begins a new component, and no `..` in it leads out of `root`.
pub open spec fn within_root(root: Seq<char>, full: Seq<char>) -> bool {
    &&& root.is_prefix_of(full)
    &&& {
        let rest = full.subrange(root.len() as int, full.len() as int);
        &&& (root.len() == 0 || rest.len() == 0 || root.last() == '/' || rest[0] == '/')
        &&& stays_below(split(rest, "/"@), 0)
    }
}

/// The extension of a path: what follows the last dot of its last
/// component, unless that dot begins the component.
pub open spec fn extension(path: Seq<char>) -> Option<Seq<char>> {
    let dot = last_dot(path, path.len() as int);
    if dot > 0 && path[dot - 1] != '/' {
        Some(path.subrange(dot + 1, path.len() as int))
    } else {
        None
    }
}

/// The index of the last dot before `k` in the last component, or -1.
pub open spec fn last_dot(path: Seq<char>, k: int) -> int
    decreases k,
{
    if k <= 0 || k > path.len() {
        -1
    } else if path[k - 1] == '/' {
        -1
    } else if path[k - 1] == '.' {
        k - 1
    } else {
        last_dot(path, k - 1)
    }
}

/// Whether the relative path `rel` leads above the place it starts from.
pub open spec fn escapes(rel: Seq<char>) -> bool {
    !stays_below(split(rel, "/"@), 0)
}

/// A relative path that leads above its start is never within the root it
/// is joined to: `..` does not lead out of the root.
pub proof fn lemma_traversal_rejected(root: Seq<char>, rel: Seq<char>)
    requires
        rel.len() == 0 || rel[0] != '/',
        escapes(rel),
    ensures
        !within_root(root, joined(root, rel)),
{
    reveal_strlit("/");
    let full = joined(root, rel);
    let rest = full.subrange(root.len() as int, full.len() as int);
    if root.len() == 0 || root.last() == '/' {
        assert(rest =~= rel);
    } else {
        let slash = seq!['/'];
        assert("/"@ =~= slash);
        assert(rest =~= slash + rel);
        lemma_split_shift(slash, rel, slash, 0);
        assert(matches_at(rest, slash, 0)) by {
            assert(rest.subrange(0, 0 + slash.len() as int) =~= slash);
        }
        let pieces = split(rest, slash);
        assert(pieces == seq![rest.subrange(0, 0)] + split_from(rest, slash, 1));
        assert(pieces.drop_first() =~= split(rel, slash));
        assert(pieces[0].len() == 0);
        assert(depth_after(pieces[0], 0) == 0) by {
            reveal_strlit("..");
        }
    }
}

/// The path `rel` taken from `base`.
pub fn join(base: &Vec<char>, rel: &Vec<char>) -> (out: Vec<char>)
    ensures
        out@ == joined(base@, rel@),
{
    let mut out: Vec<char> = Vec::new();
    if rel.len() > 0 && rel[0] == '/' {
        out.extend_from_slice(rel.as_slice());
        assert(out@ =~= rel@);
        return out;
    }
    out.extend_from_slice(base.as_slice());
    if base.len() > 0 && base[base.len() - 1] != '/' {
        out.push('/');
    }
    out.extend_from_slice(rel.as_slice());
    assert(out@ =~= joined(base@, rel@));
    out
}

/// The text without the occurrences of `pat`.
pub fn remove_all(s: &Vec<char>, pat: &Vec<char>) -> (out: Vec<char>)
    ensures
        out@ == removed_all(s@, pat@),
{
    let mut out: Vec<char> = Vec::new();
    if pat.len() == 0 {
        out.extend_from_slice(s.as_slice());
        assert(out@ =~= s@);
        return out;
    }
    let pieces = split_on(s, pat);
    let mut i: usize = 0;
    while i < pieces.len()
        invariant
            i <= pieces@.len(),
            out@ == concat(views(pieces@).subrange(0, i as int)),
        decreases pieces@.len() - i,
    {
        let ghost upto = views(pieces@).subrange(0, i + 1);
        assert(upto.drop_last() =~= views(pieces@).subrange(0, i as int));
        assert(upto.last() == pieces@[i as int]@);
        out.extend_from_slice(pieces[i].as_slice());
        i = i + 1;
    }
    assert(views(pieces@).subrange(0, i as int) =~= views(pieces@));
    out
}

/// Whether `c` is the text `lit`.
fn is_chars(c: &Vec<char>, lit: &str) -> (b: bool)
    ensures
        b == (c@ == lit@),
{
    let l = chars_of(lit);
    if c.len() != l.len() {
        return false;
    }
    let mut i: usize = 0;
    while i < c.len()
        invariant
            i <= c@.len() == l@.len(),
            l@ == lit@,
            forall|j: int| 0 <= j < i ==> c@[j] == l@[j],
        decreases c@.len() - i,
    {
        if c[i] != l[i] {
            return false;
        }
        i = i + 1;
    }
    assert(c@ =~= l@);
    true
}

/// Whether the path `full` lies below `root`.
pub fn is_within_root(root: &Vec<char>, full: &Vec<char>) -> (b: bool)
    ensures
        b == within_root(root@, full@),
{
    proof {
        reveal_strlit("/");
        reveal_strlit("..");
        reveal_strlit(".");
    }
    if !starts_with(full, root) {
        return false;
    }
    let rest = slice_of(full, root.len(), full.len());
    if !(root.len() == 0 || rest.len() == 0 || root[root.len() - 1] == '/' || rest[0] == '/') {
        return false;
    }
    let slash = chars_of("/");
    let comps = split_on(&rest, &slash);
    let ghost all = views(comps@);
    assert(all.subrange(0, all.len() as int) =~= all);
    let mut depth: usize = 0;
    let mut i: usize = 0;
    while i < comps.len()
        invariant
            i <= comps@.len(),
            all == views(comps@),
            depth <= i,
            within_root(root@, full@) == stays_below(
                all.subrange(i as int, all.len() as int),
                depth as int,
            ),
        decreases comps@.len() - i,
    {
        let ghost tail = all.subrange(i as int, all.len() as int);
        assert(tail[0] == comps@[i as int]@);
        assert(tail.drop_first() =~= all.subrange(i + 1, all.len() as int));
        if is_chars(&comps[i], "..") {
            if depth == 0 {
                return false;
            }
            depth = depth - 1;
        } else if comps[i].len() == 0 || is_chars(&comps[i], ".") {
        } else {
            depth = depth + 1;
        }
        i = i + 1;
    }
    true
}

/// The extension of a path.
pub fn extension_of(path: &Vec<char>) -> (r: Option<Vec<char>>)
    ensures
        match r {
            Some(e) => extension(path@) == Some(e@),
            None => extension(path@) is None,
        },
{
    let n: usize = path.len();
    let mut k: usize = n;
    while k > 0
        invariant
            k <= n == path@.len(),
            last_dot(path@, n as int) == last_dot(path@, k as int),
        decreases k,
    {
        if path[k - 1] == '/' {
            return None;
        }
        if path[k - 1] == '.' {
            if k - 1 > 0 && path[k - 2] != '/' {
                return Some(slice_of(path, k, n));
            }
            return None;
        }
        k = k - 1;
    }
    None
}

} // verus!
