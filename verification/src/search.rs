//! Marker-file search between the working directory and the repository
//! root, in either direction.

use vstd::prelude::*;
use crate::paths::{components_eq, DirPath};
use crate::views::FsView;

verus! {

/// Which way a marker file is looked for: from the working directory up to
/// the repository root, or from the root down to the working directory.
#[derive(Debug, Clone, Copy)]
pub enum Direction {
    Backwards,
    Forwards,
}

/// The lowest prefix length of `cwd` that a backwards search still probes:
/// the root's depth when the root is an ancestor of `cwd`, otherwise zero
/// (the ascent is then stopped only by running out of parents).
pub open spec fn back_floor(cwd: Seq<Seq<char>>, root: Seq<Seq<char>>) -> int {
    if root.is_prefix_of(cwd) {
        root.len() as int
    } else {
        0
    }
}

/// A backwards search succeeds when some directory on the ascent from `cwd`
/// (stopping at `root`, or at the filesystem root if `root` is not an
/// ancestor) holds `file`.
pub open spec fn spec_back_search(
    cwd: Seq<Seq<char>>,
    root: Seq<Seq<char>>,
    file: Seq<char>,
    fs: FsView,
) -> bool {
    exists|k: int|
        back_floor(cwd, root) <= k <= cwd.len() && fs.contains(cwd.take(k), file)
}

/// A forwards search succeeds only when `cwd` is reachable from `root` by
/// descending through subdirectories, and some directory on that descent
/// (both ends included) holds `file`.
pub open spec fn spec_forward_search(
    cwd: Seq<Seq<char>>,
    root: Seq<Seq<char>>,
    file: Seq<char>,
    fs: FsView,
) -> bool {
    root.is_prefix_of(cwd) && exists|k: int|
        root.len() <= k <= cwd.len() && fs.contains(cwd.take(k), file)
}

/// The search chosen by `direction`.
pub open spec fn spec_path_search(
    cwd: Seq<Seq<char>>,
    root: Seq<Seq<char>>,
    direction: Direction,
    file: Seq<char>,
    fs: FsView,
) -> bool {
    match direction {
        Direction::Backwards => spec_back_search(cwd, root, file, fs),
        Direction::Forwards => spec_forward_search(cwd, root, file, fs),
    }
}

/// Search from `cwd` backwards (upwards) to `repo_root`.
pub fn back_search(cwd: &DirPath, repo_root: &DirPath, file: &String, fs: &FsView) -> (r: bool)
    ensures
        r == spec_back_search(cwd@, repo_root@, file@, *fs),
{
    let mut cur: Vec<String> = cwd.components.clone();
    proof {
        assert(cur.deep_view() =~= cwd@);
        assert(cwd@.take(cwd@.len() as int) =~= cwd@);
    }
    loop
        invariant
            cur@.len() <= cwd@.len(),
            cur.deep_view() == cwd@.take(cur@.len() as int),
            repo_root@.is_prefix_of(cwd@) ==> repo_root@.len() <= cur@.len(),
            forall|k: int|
                cur@.len() < k <= cwd@.len() ==> !fs.contains(cwd@.take(k), file@),
        decreases cur@.len(),
    {
        if fs.contains_file(&cur, file) {
            assert(fs.contains(cwd@.take(cur@.len() as int), file@));
            return true;
        }
        if components_eq(&cur, &repo_root.components) {
            assert(repo_root@ == cwd@.take(cur@.len() as int));
            assert(repo_root@.is_prefix_of(cwd@));
            assert(back_floor(cwd@, repo_root@) == cur@.len());
            return false;
        }
        if cur.len() == 0 {
            assert(!repo_root@.is_prefix_of(cwd@)) by {
                if repo_root@.is_prefix_of(cwd@) {
                    assert(repo_root@.len() <= 0);
                    assert(repo_root@ =~= cwd@.take(0));
                }
            }
            return false;
        }
        let ghost m = cur@.len() as int;
        cur.pop();
        proof {
            assert(cur.deep_view() =~= cwd@.take(m - 1));
            assert(repo_root@.is_prefix_of(cwd@) ==> repo_root@.len() <= cur@.len()) by {
                if repo_root@.is_prefix_of(cwd@) && repo_root@.len() == m {
                    assert(repo_root@ =~= cwd@.take(m));
                }
            }
        }
    }
}

/// Search from `repo_root` forwards (downwards) to `cwd`.
pub fn forward_search(cwd: &DirPath, repo_root: &DirPath, file: &String, fs: &FsView) -> (r: bool)
    ensures
        r == spec_forward_search(cwd@, repo_root@, file@, *fs),
{
    if !repo_root.is_prefix_of(cwd) {
        return false;
    }
    let mut cur: Vec<String> = repo_root.components.clone();
    proof {
        assert(cur.deep_view() =~= repo_root@);
        assert(repo_root@ =~= cwd@.take(repo_root@.len() as int));
    }
    loop
        invariant
            repo_root@.is_prefix_of(cwd@),
            repo_root@.len() <= cur@.len() <= cwd@.len(),
            cur.deep_view() == cwd@.take(cur@.len() as int),
            cwd.components@.len() == cwd@.len(),
            forall|k: int|
                repo_root@.len() <= k < cur@.len() ==> !fs.contains(cwd@.take(k), file@),
        decreases cwd@.len() - cur@.len(),
    {
        if fs.contains_file(&cur, file) {
            assert(fs.contains(cwd@.take(cur@.len() as int), file@));
            return true;
        }
        if cur.len() == cwd.components.len() {
            return false;
        }
        let ghost m = cur@.len() as int;
        let next = cwd.components[cur.len()].clone();
        assert(next@ == cwd@[m]);
        cur.push(next);
        proof {
            assert(cur.deep_view() =~= cwd@.take(m + 1));
        }
    }
}

/// Search in the direction the file requirement declares.
pub fn path_search(
    cwd: &DirPath,
    repo_root: &DirPath,
    direction: &Direction,
    file: &String,
    fs: &FsView,
) -> (r: bool)
    ensures
        r == spec_path_search(cwd@, repo_root@, *direction, file@, *fs),
{
    match direction {
        Direction::Backwards => back_search(cwd, repo_root, file, fs),
        Direction::Forwards => forward_search(cwd, repo_root, file, fs),
    }
}

/// The directories a search between `repo_root` and `cwd` probes, from the
/// shallowest to `cwd` itself. Callers that observe the real filesystem
/// record, for each of these, which marker files it holds.
pub fn search_dirs(cwd: &DirPath, repo_root: &DirPath) -> (r: Vec<DirPath>)
    ensures
        r@.len() == cwd@.len() - back_floor(cwd@, repo_root@) + 1,
        forall|i: int|
            0 <= i < r@.len() ==> r@[i]@ == cwd@.take(back_floor(cwd@, repo_root@) + i),
{
    let floor: usize = if repo_root.is_prefix_of(cwd) {
        assert(repo_root@.len() <= cwd@.len());
        repo_root.components.len()
    } else {
        0
    };
    let ghost fl = back_floor(cwd@, repo_root@);
    assert(fl == floor as int);
    let mut cur: Vec<String> = cwd.components.clone();
    proof {
        assert(cur.deep_view() =~= cwd@);
    }
    cur.truncate(floor);
    proof {
        assert(cur.deep_view() =~= cwd@.take(fl));
    }
    let mut out: Vec<DirPath> = Vec::new();
    loop
        invariant
            fl == back_floor(cwd@, repo_root@),
            0 <= fl <= cur@.len() <= cwd@.len(),
            cur.deep_view() == cwd@.take(cur@.len() as int),
            cwd.components@.len() == cwd@.len(),
            out@.len() == cur@.len() - fl,
            forall|i: int| 0 <= i < out@.len() ==> out@[i]@ == cwd@.take(fl + i),
        decreases cwd@.len() - cur@.len(),
    {
        let ghost m = cur@.len() as int;
        let snapshot = cur.clone();
        proof {
            assert(snapshot.deep_view() =~= cur.deep_view());
        }
        out.push(DirPath::new(snapshot));
        if cur.len() == cwd.components.len() {
            return out;
        }
        let next = cwd.components[cur.len()].clone();
        assert(next@ == cwd@[m]);
        cur.push(next);
        proof {
            assert(cur.deep_view() =~= cwd@.take(m + 1));
        }
    }
}

/// A marker file placed anywhere on the direct path between the repository
/// root and the working directory (both included) is found by the search,
/// in either direction.
pub proof fn lemma_marker_on_path(
    cwd: Seq<Seq<char>>,
    root: Seq<Seq<char>>,
    d: Seq<Seq<char>>,
    file: Seq<char>,
    fs: FsView,
)
    requires
        root.is_prefix_of(d),
        d.is_prefix_of(cwd),
        fs.contains(d, file),
    ensures
        spec_back_search(cwd, root, file, fs),
        spec_forward_search(cwd, root, file, fs),
{
    assert(d =~= cwd.take(d.len() as int));
    assert(root =~= cwd.take(root.len() as int));
    assert(root.is_prefix_of(cwd));
    let k = d.len() as int;
    assert(back_floor(cwd, root) <= k <= cwd.len());
    assert(fs.contains(cwd.take(k), file));
}

/// A forwards search fails whenever the working directory is not reachable
/// from the repository root by descending through subdirectories.
pub proof fn lemma_forward_search_outside(
    cwd: Seq<Seq<char>>,
    root: Seq<Seq<char>>,
    file: Seq<char>,
    fs: FsView,
)
    requires
        !root.is_prefix_of(cwd),
    ensures
        !spec_forward_search(cwd, root, file, fs),
{
}

} // verus!
