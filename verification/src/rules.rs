//! The project's ignore rules: the lines of its ignore file, applied
//! relative to the project root.
//!
//! Matching a path against the rules is the work of the `ignore` crate. The
//! rules themselves are plain text here, so that what a path is matched
//! against is part of every contract.

use crate::bytes::texts;
use crate::path::{DOT, SEPARATOR};
use vstd::prelude::*;
use vstd::string::StringSliceAdditionalSpecFns;
use vstd::utf8::encode_utf8;

verus! {

/// What the `ignore` crate finds for `path` under the ignore-file `lines`
/// of the directory `root`: `Some(true)` where the path or one of its
/// parent directories below `root` is ignored, `Some(false)` where it is
/// not, `None` where no matcher can be built from the lines.
pub uninterp spec fn gitignore_outcome(
    root: Seq<char>,
    lines: Seq<Seq<char>>,
    path: Seq<char>,
) -> Option<bool>;

/// Whether `p` begins with `./`.
pub open spec fn has_dot_slash(p: Seq<u8>) -> bool {
    p.len() >= 2 && p[0] == DOT && p[1] == SEPARATOR
}

/// Where in `path` the part below `root` begins, given that `root` opens `path`.
pub open spec fn below_start(root: Seq<u8>, path: Seq<u8>) -> int {
    if path.len() > root.len() && path[root.len() as int] == SEPARATOR {
        root.len() as int + 1
    } else {
        root.len() as int
    }
}

/// Whether `path` is written as `root`, a separator, and a relative rest.
/// Only such a path has a place among the rules of `root`.
pub open spec fn lies_below(root: Seq<u8>, path: Seq<u8>) -> bool {
    &&& root.len() > 0
    &&& !has_dot_slash(root)
    &&& !has_dot_slash(path)
    &&& root.len() <= path.len()
    &&& path.subrange(0, root.len() as int) == root
    &&& root.last() == SEPARATOR || below_start(root, path) == root.len() + 1
    &&& below_start(root, path) < path.len()
    &&& path[below_start(root, path)] != SEPARATOR
}

/// The ignore rules of a project.
pub struct IgnoreRules {
    root: String,
    lines: Vec<String>,
}

/// The mathematical content of the rules.
pub struct RulesView {
    pub root: Seq<char>,
    pub lines: Seq<Seq<char>>,
}

impl View for IgnoreRules {
    type V = RulesView;

    closed spec fn view(&self) -> RulesView {
        RulesView { root: self.root@, lines: texts(self.lines@) }
    }
}

/// Whether the rules ignore `path`: there are rules, the path lies below
/// their root, and the matcher built from their lines ignores it.
pub open spec fn ignored(rules: RulesView, path: Seq<char>) -> bool {
    &&& rules.lines.len() > 0
    &&& lies_below(encode_utf8(rules.root), encode_utf8(path))
    &&& gitignore_outcome(rules.root, rules.lines, path) == Some(true)
}

/// Calls the `ignore` crate: `GitignoreBuilder::new` for the directory
/// `root`, `GitignoreBuilder::add_line` for each of `lines` in turn,
/// `GitignoreBuilder::build`, and on the matcher
/// `Gitignore::matched_path_or_any_parents` for the file `path`, whose
/// answer `Match::is_ignore` turns into a `bool`. A line that `add_line`
/// cannot parse is skipped, as the crate does when it reads an ignore
/// file; where `build` fails the result is `None`.
///
/// The contract names the result and claims nothing else of it: built from
/// the same root and lines, the matcher gives the same answer for the same
/// path. `matched_path_or_any_parents` panics on a path that still begins
/// with a separator once the prefix `root` and one separator are taken
/// off; `lies_below` leaves those paths out.
#[verifier::external_body]
fn gitignore_verdict(root: &str, lines: &Vec<String>, path: &str) -> (r: Option<bool>)
    requires
        lies_below(root.spec_bytes(), path.spec_bytes()),
    ensures
        r == gitignore_outcome(root@, texts(lines@), path@),
{
    let mut builder = ignore::gitignore::GitignoreBuilder::new(root);
    for line in lines.iter() {
        let _ = builder.add_line(None, line);
    }
    let matcher = builder.build().ok()?;
    Some(matcher.matched_path_or_any_parents(path, false).is_ignore())
}

/// Whether `path` is written as `root`, a separator, and a relative rest.
pub fn is_below(root: &[u8], path: &[u8]) -> (r: bool)
    ensures
        r == lies_below(root@, path@),
{
    let n: usize = root.len();
    if n == 0 || n > path.len() {
        return false;
    }
    if n >= 2 && root[0] == DOT && root[1] == SEPARATOR {
        return false;
    }
    if path.len() >= 2 && path[0] == DOT && path[1] == SEPARATOR {
        return false;
    }
    if !crate::bytes::occurs_at(path, 0, root) {
        return false;
    }
    let parted: bool = path.len() > n && path[n] == SEPARATOR;
    let start: usize = if parted {
        n + 1
    } else {
        n
    };
    (root[n - 1] == SEPARATOR || parted) && start < path.len() && path[start] != SEPARATOR
}

impl IgnoreRules {
    /// The rules that the given lines of an ignore file state for the
    /// project at `root`.
    pub fn new(root: String, lines: Vec<String>) -> (rules: IgnoreRules)
        ensures
            rules@ == (RulesView { root: root@, lines: texts(lines@) }),
    {
        IgnoreRules { root, lines }
    }

    /// Rules that ignore nothing.
    pub fn none(root: String) -> (rules: IgnoreRules)
        ensures
            rules@ == (RulesView { root: root@, lines: Seq::empty() }),
    {
        let rules = IgnoreRules { root, lines: Vec::new() };
        assert(texts(rules.lines@) =~= Seq::<Seq<char>>::empty());
        rules
    }

    pub fn root(&self) -> (r: &String)
        ensures
            r@ == self@.root,
    {
        &self.root
    }

    pub fn lines(&self) -> (r: &Vec<String>)
        ensures
            texts(r@) == self@.lines,
    {
        &self.lines
    }

    /// Whether the rules ignore `path`. The matcher is built for the
    /// question and dropped after it.
    pub fn ignores(&self, path: &str) -> (r: bool)
        ensures
            r == ignored(self@, path@),
    {
        if self.lines.len() == 0 {
            false
        } else if is_below(self.root.as_str().as_bytes(), path.as_bytes()) {
            match gitignore_verdict(self.root.as_str(), &self.lines, path) {
                Some(verdict) => verdict,
                None => false,
            }
        } else {
            false
        }
    }
}

} // verus!
