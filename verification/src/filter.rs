//! The path filter: which changed paths are worth a look.

use crate::bytes::{rows, same_bytes, texts};
use crate::path::{extension, extension_of, has_prefix, join_paths, joined, starts_with};
use crate::rules::{ignored, IgnoreRules, RulesView};
use vstd::prelude::*;
use vstd::utf8::encode_utf8;

verus! {

/// Decides relevance from the watched and the excluded subpaths, the
/// eligible extensions and the ignore rules.
pub struct PathFilter {
    watched: Vec<Vec<u8>>,
    excluded: Vec<Vec<u8>>,
    extensions: Vec<Vec<u8>>,
    rules: IgnoreRules,
}

/// The mathematical content of a filter.
pub struct FilterView {
    pub watched: Seq<Seq<u8>>,
    pub excluded: Seq<Seq<u8>>,
    pub extensions: Seq<Seq<u8>>,
    pub rules: RulesView,
}

impl View for PathFilter {
    type V = FilterView;

    closed spec fn view(&self) -> FilterView {
        FilterView {
            watched: rows(self.watched@),
            excluded: rows(self.excluded@),
            extensions: rows(self.extensions@),
            rules: self.rules@,
        }
    }
}

/// The extensions that are eligible unless others are configured:
/// `rs`, `toml`, `css`, `html` and `js`.
pub open spec fn default_extensions() -> Seq<Seq<u8>> {
    seq![
        seq!['r' as u8, 's' as u8],
        seq!['t' as u8, 'o' as u8, 'm' as u8, 'l' as u8],
        seq!['c' as u8, 's' as u8, 's' as u8],
        seq!['h' as u8, 't' as u8, 'm' as u8, 'l' as u8],
        seq!['j' as u8, 's' as u8],
    ]
}

/// Each of `subpaths` resolved against `root`.
pub open spec fn resolved(root: Seq<char>, subpaths: Seq<&str>) -> Seq<Seq<u8>> {
    Seq::new(subpaths.len(), |i: int| joined(encode_utf8(root), encode_utf8(subpaths[i]@)))
}

/// Whether `p` lies at or below one of `bases`.
pub open spec fn under_any(bases: Seq<Seq<u8>>, p: Seq<u8>) -> bool {
    exists|i: int| 0 <= i < bases.len() && starts_with(p, #[trigger] bases[i])
}

/// Whether the extension of `p` is one of `extensions`.
pub open spec fn eligible(extensions: Seq<Seq<u8>>, p: Seq<u8>) -> bool {
    match extension(p) {
        Some(e) => extensions.contains(e),
        None => false,
    }
}

/// Whether a changed path is relevant, given whether the ignore rules
/// match it: its extension is eligible, it lies under no excluded subpath,
/// and it is not ignored.
pub open spec fn relevant_if(f: FilterView, path: Seq<char>, is_ignored: bool) -> bool {
    &&& eligible(f.extensions, encode_utf8(path))
    &&& !under_any(f.excluded, encode_utf8(path))
    &&& !is_ignored
}

/// A changed path is relevant when its extension is eligible, it lies
/// under no excluded subpath, and the ignore rules do not match it.
pub open spec fn relevant(f: FilterView, path: Seq<char>) -> bool {
    relevant_if(f, path, ignored(f.rules, path))
}

/// A change is taken up when it lies under a watched subpath and is relevant.
pub open spec fn accepts(f: FilterView, path: Seq<char>) -> bool {
    under_any(f.watched, encode_utf8(path)) && relevant(f, path)
}

/// Those of `paths` that the filter takes up, in their order.
pub open spec fn accepted(f: FilterView, paths: Seq<Seq<char>>) -> Seq<Seq<char>> {
    paths.filter(|p: Seq<char>| accepts(f, p))
}

pub proof fn lemma_accepted_push(f: FilterView, paths: Seq<Seq<char>>, p: Seq<char>)
    ensures
        accepted(f, paths.push(p)) == if accepts(f, p) {
            accepted(f, paths).push(p)
        } else {
            accepted(f, paths)
        },
{
    reveal(Seq::filter);
    assert(paths.push(p).drop_last() =~= paths);
}

pub proof fn lemma_accepted_members(f: FilterView, paths: Seq<Seq<char>>)
    ensures
        forall|i: int|
            0 <= i < accepted(f, paths).len() ==> accepts(f, #[trigger] accepted(f, paths)[i])
                && paths.contains(accepted(f, paths)[i]),
        forall|i: int|
            0 <= i < paths.len() && accepts(f, #[trigger] paths[i]) ==> accepted(f, paths).contains(
                paths[i],
            ),
    decreases paths.len(),
{
    if paths.len() > 0 {
        lemma_accepted_members(f, paths.drop_last());
        assert(paths =~= paths.drop_last().push(paths.last()));
        lemma_accepted_push(f, paths.drop_last(), paths.last());
    }
}

fn within(bases: &Vec<Vec<u8>>, p: &[u8]) -> (r: bool)
    ensures
        r == under_any(rows(bases@), p@),
{
    let mut i: usize = 0;
    while i < bases.len()
        invariant
            i <= bases@.len(),
            forall|k: int| 0 <= k < i ==> !starts_with(p@, #[trigger] rows(bases@)[k]),
        decreases bases@.len() - i,
    {
        if has_prefix(p, bases[i].as_slice()) {
            assert(starts_with(p@, rows(bases@)[i as int]));
            return true;
        }
        i = i + 1;
    }
    false
}

fn listed(extensions: &Vec<Vec<u8>>, e: &[u8]) -> (r: bool)
    ensures
        r == rows(extensions@).contains(e@),
{
    let mut i: usize = 0;
    while i < extensions.len()
        invariant
            i <= extensions@.len(),
            forall|k: int| 0 <= k < i ==> rows(extensions@)[k] != e@,
        decreases extensions@.len() - i,
    {
        if same_bytes(extensions[i].as_slice(), e) {
            assert(rows(extensions@)[i as int] == e@);
            return true;
        }
        i = i + 1;
    }
    false
}

fn resolve_all(root: &str, subpaths: &[&str]) -> (out: Vec<Vec<u8>>)
    ensures
        rows(out@) == resolved(root@, subpaths@),
{
    let mut out: Vec<Vec<u8>> = Vec::new();
    let mut i: usize = 0;
    while i < subpaths.len()
        invariant
            i <= subpaths@.len(),
            out@.len() == i,
            forall|k: int|
                0 <= k < i ==> (#[trigger] out@[k])@ == joined(
                    encode_utf8(root@),
                    encode_utf8(subpaths@[k]@),
                ),
        decreases subpaths@.len() - i,
    {
        out.push(join_paths(root.as_bytes(), subpaths[i].as_bytes()));
        i = i + 1;
    }
    out
}

fn default_extension_list() -> (out: Vec<Vec<u8>>)
    ensures
        rows(out@) == default_extensions(),
{
    let out = vec![
        vec!['r' as u8, 's' as u8],
        vec!['t' as u8, 'o' as u8, 'm' as u8, 'l' as u8],
        vec!['c' as u8, 's' as u8, 's' as u8],
        vec!['h' as u8, 't' as u8, 'm' as u8, 'l' as u8],
        vec!['j' as u8, 's' as u8],
    ];
    out
}

impl PathFilter {
    /// The filter of a project at `root` that watches and excludes the
    /// given subpaths, each resolved against `root`, with the default
    /// extensions.
    pub fn new(root: &str, watched: &[&str], excluded: &[&str], rules: IgnoreRules) -> (f:
        PathFilter)
        ensures
            f@ == (FilterView {
                watched: resolved(root@, watched@),
                excluded: resolved(root@, excluded@),
                extensions: default_extensions(),
                rules: rules@,
            }),
    {
        PathFilter {
            watched: resolve_all(root, watched),
            excluded: resolve_all(root, excluded),
            extensions: default_extension_list(),
            rules,
        }
    }

    /// The same filter with another set of eligible extensions.
    pub fn with_extensions(self, extensions: Vec<Vec<u8>>) -> (f: PathFilter)
        ensures
            f@ == (FilterView { extensions: rows(extensions@), ..self@ }),
    {
        PathFilter {
            watched: self.watched,
            excluded: self.excluded,
            extensions,
            rules: self.rules,
        }
    }

    /// Whether a changed path is relevant, given whether the ignore
    /// rules match it.
    pub fn is_relevant_if(&self, path: &str, is_ignored: bool) -> (r: bool)
        ensures
            r == relevant_if(self@, path@, is_ignored),
    {
        let p = path.as_bytes();
        match extension_of(p) {
            None => false,
            Some(e) => listed(&self.extensions, e.as_slice()) && !within(&self.excluded, p)
                && !is_ignored,
        }
    }

    /// Whether a changed path is relevant.
    pub fn is_relevant(&self, path: &str) -> (r: bool)
        ensures
            r == relevant(self@, path@),
    {
        self.is_relevant_if(path, self.rules.ignores(path))
    }

    /// Whether `path` lies at or below a watched subpath.
    pub fn is_watched(&self, path: &str) -> (r: bool)
        ensures
            r == under_any(self@.watched, encode_utf8(path@)),
    {
        within(&self.watched, path.as_bytes())
    }

    /// Whether a change to `path` is taken up.
    pub fn accepts(&self, path: &str) -> (r: bool)
        ensures
            r == accepts(self@, path@),
    {
        within(&self.watched, path.as_bytes()) && self.is_relevant(path)
    }

    /// Those of `paths` that are taken up, in their order.
    pub fn select(&self, paths: &Vec<String>) -> (out: Vec<String>)
        ensures
            texts(out@) == accepted(self@, texts(paths@)),
    {
        let mut out: Vec<String> = Vec::new();
        let mut i: usize = 0;
        while i < paths.len()
            invariant
                i <= paths@.len(),
                texts(out@) == accepted(self@, texts(paths@.take(i as int))),
            decreases paths@.len() - i,
        {
            let ghost seen = texts(paths@.take(i as int));
            proof {
                lemma_accepted_push(self@, seen, paths@[i as int]@);
                assert(texts(paths@.take(i + 1)) =~= seen.push(paths@[i as int]@));
            }
            if self.accepts(paths[i].as_str()) {
                out.push(paths[i].clone());
            }
            i = i + 1;
        }
        assert(paths@.take(paths@.len() as int) =~= paths@);
        out
    }
}

} // verus!
