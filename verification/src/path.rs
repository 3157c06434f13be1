//! Paths as the coordinator reads them: byte strings whose components are
//! separated by `/`.
//!
//! Repeated separators and a trailing separator are ignored, and a `.`
//! component counts only at the very beginning of a relative path. One path
//! starts with another when the components of the second are the first
//! components of the first.

use crate::bytes::{append, copy_range, rows, same_bytes};
use vstd::prelude::*;

verus! {

/// The byte `/` between two components.
pub const SEPARATOR: u8 = 47;

/// The byte `.`, which names the current directory and introduces an extension.
pub const DOT: u8 = 46;

/// The end of the run of bytes other than `/` that holds position `i`.
pub open spec fn segment_end(p: Seq<u8>, i: int) -> int
    decreases p.len() - i,
{
    if 0 <= i < p.len() && p[i] != SEPARATOR {
        segment_end(p, i + 1)
    } else {
        i
    }
}

pub proof fn lemma_segment_end(p: Seq<u8>, i: int)
    requires
        0 <= i <= p.len(),
    ensures
        i <= segment_end(p, i) <= p.len(),
        forall|k: int| i <= k < segment_end(p, i) ==> p[k] != SEPARATOR,
        segment_end(p, i) < p.len() ==> p[segment_end(p, i)] == SEPARATOR,
    decreases p.len() - i,
{
    if i < p.len() && p[i] != SEPARATOR {
        lemma_segment_end(p, i + 1);
    }
}

/// The components of `p` that begin at position `i` or later.
pub open spec fn segments_from(p: Seq<u8>, i: int) -> Seq<Seq<u8>>
    decreases p.len() - i,
    via segments_from_terminates
{
    if i < 0 || i >= p.len() {
        Seq::empty()
    } else if p[i] == SEPARATOR {
        segments_from(p, i + 1)
    } else {
        let j = segment_end(p, i + 1);
        let rest = segments_from(p, j);
        if j == i + 1 && p[i] == DOT && i != 0 {
            rest
        } else {
            seq![p.subrange(i, j)] + rest
        }
    }
}

#[via_fn]
proof fn segments_from_terminates(p: Seq<u8>, i: int) {
    if 0 <= i < p.len() {
        lemma_segment_end(p, i + 1);
    }
}

/// Whether `p` begins at the root.
pub open spec fn is_absolute(p: Seq<u8>) -> bool {
    p.len() > 0 && p[0] == SEPARATOR
}

/// The components of `p`. The root, where `p` begins with it, is the first
/// component and is written `/`.
pub open spec fn components(p: Seq<u8>) -> Seq<Seq<u8>> {
    if is_absolute(p) {
        seq![seq![SEPARATOR]] + segments_from(p, 0)
    } else {
        segments_from(p, 0)
    }
}

/// Whether `p` lies at or below `base`: the components of `base` open those of `p`.
pub open spec fn starts_with(p: Seq<u8>, base: Seq<u8>) -> bool {
    components(base).is_prefix_of(components(p))
}

/// Whether a component names something: it is neither the root, nor `.`, nor `..`.
pub open spec fn is_name(c: Seq<u8>) -> bool {
    c != seq![SEPARATOR] && c != seq![DOT] && c != seq![DOT, DOT]
}

/// The file name of `p`: its last component, if that is a name.
pub open spec fn file_name(p: Seq<u8>) -> Option<Seq<u8>> {
    let c = components(p);
    if c.len() > 0 && is_name(c.last()) {
        Some(c.last())
    } else {
        None
    }
}

/// The position of the last `.` in `s`, or -1 where it holds none.
pub open spec fn last_dot(s: Seq<u8>) -> int
    decreases s.len(),
{
    if s.len() == 0 {
        -1
    } else if s.last() == DOT {
        s.len() - 1
    } else {
        last_dot(s.drop_last())
    }
}

pub proof fn lemma_last_dot(s: Seq<u8>, k: int)
    requires
        -1 <= k < s.len(),
        k >= 0 ==> s[k] == DOT,
        forall|j: int| k < j < s.len() ==> s[j] != DOT,
    ensures
        last_dot(s) == k,
    decreases s.len(),
{
    if s.len() > 0 && s.last() != DOT {
        lemma_last_dot(s.drop_last(), k);
    }
}

/// The extension of a file name: what follows its last `.`, unless that `.`
/// is its first byte or it has none.
pub open spec fn name_extension(name: Seq<u8>) -> Option<Seq<u8>> {
    let k = last_dot(name);
    if k > 0 {
        Some(name.subrange(k + 1, name.len() as int))
    } else {
        None
    }
}

/// The extension of `p`: that of its file name.
pub open spec fn extension(p: Seq<u8>) -> Option<Seq<u8>> {
    match file_name(p) {
        Some(name) => name_extension(name),
        None => None,
    }
}

/// `rel` resolved against `root`: an absolute `rel` stands by itself, any
/// other is appended to `root` behind one separator.
pub open spec fn joined(root: Seq<u8>, rel: Seq<u8>) -> Seq<u8> {
    if is_absolute(rel) {
        rel
    } else if root.len() == 0 || root.last() == SEPARATOR {
        root + rel
    } else {
        root + seq![SEPARATOR] + rel
    }
}

/// Resolves `rel` against `root`.
pub fn join_paths(root: &[u8], rel: &[u8]) -> (out: Vec<u8>)
    ensures
        out@ == joined(root@, rel@),
{
    let mut out: Vec<u8> = Vec::new();
    if rel.len() > 0 && rel[0] == SEPARATOR {
        append(&mut out, rel);
    } else {
        append(&mut out, root);
        if root.len() > 0 && root[root.len() - 1] != SEPARATOR {
            out.push(SEPARATOR);
        }
        append(&mut out, rel);
    }
    out
}

/// Splits a path into its components.
pub fn split_components(p: &[u8]) -> (out: Vec<Vec<u8>>)
    ensures
        rows(out@) == components(p@),
{
    let n: usize = p.len();
    let mut out: Vec<Vec<u8>> = Vec::new();
    if n > 0 && p[0] == SEPARATOR {
        let mut root: Vec<u8> = Vec::new();
        root.push(SEPARATOR);
        out.push(root);
    }
    let mut i: usize = 0;
    while i < n
        invariant
            n == p@.len(),
            i <= n,
            rows(out@) + segments_from(p@, i as int) == components(p@),
        decreases n - i,
    {
        if p[i] == SEPARATOR {
            i = i + 1;
        } else {
            let start: usize = i;
            let mut j: usize = i + 1;
            while j < n && p[j] != SEPARATOR
                invariant
                    n == p@.len(),
                    start < j <= n,
                    segment_end(p@, j as int) == segment_end(p@, start + 1),
                decreases n - j,
            {
                j = j + 1;
            }
            if !(j == start + 1 && p[start] == DOT && start != 0) {
                out.push(copy_range(p, start, j));
            }
            i = j;
        }
    }
    out
}

/// Whether `path` lies at or below `base`.
pub fn has_prefix(path: &[u8], base: &[u8]) -> (r: bool)
    ensures
        r == starts_with(path@, base@),
{
    let whole = split_components(path);
    let front = split_components(base);
    if front.len() > whole.len() {
        return false;
    }
    let mut k: usize = 0;
    while k < front.len()
        invariant
            k <= front@.len() <= whole@.len(),
            rows(whole@) == components(path@),
            rows(front@) == components(base@),
            forall|m: int| 0 <= m < k ==> rows(front@)[m] == rows(whole@)[m],
        decreases front@.len() - k,
    {
        if !same_bytes(whole[k].as_slice(), front[k].as_slice()) {
            assert(rows(front@)[k as int] != rows(whole@).subrange(0, front@.len() as int)[k as
                int]);
            return false;
        }
        k = k + 1;
    }
    true
}

/// The extension of a path, if it has one.
pub fn extension_of(path: &[u8]) -> (r: Option<Vec<u8>>)
    ensures
        match r {
            Some(e) => extension(path@) == Some(e@),
            None => extension(path@) is None,
        },
{
    let parts = split_components(path);
    if parts.len() == 0 {
        return None;
    }
    let name: &Vec<u8> = &parts[parts.len() - 1];
    let n: usize = name.len();
    if n == 1 && (name[0] == SEPARATOR || name[0] == DOT) {
        assert(name@ =~= seq![name@[0]]);
        return None;
    }
    if n == 2 && name[0] == DOT && name[1] == DOT {
        assert(name@ =~= seq![DOT, DOT]);
        return None;
    }
    let mut i: usize = n;
    while i > 0 && name[i - 1] != DOT
        invariant
            i <= n == name@.len(),
            forall|j: int| i <= j < n ==> name@[j] != DOT,
        decreases i,
    {
        i = i - 1;
    }
    proof {
        lemma_last_dot(name@, i as int - 1);
    }
    if i <= 1 {
        None
    } else {
        Some(copy_range(name.as_slice(), i, n))
    }
}

} // verus!
