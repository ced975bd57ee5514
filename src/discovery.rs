//! Finding git repositories below a directory: a depth-first walk that records
//! each directory holding a `.git` entry and does not descend into it.
//!
//! The walk runs over a snapshot of the directory tree, which the caller reads
//! from disk, using `is_git_dir` to know where to stop reading.

use vstd::prelude::*;
use vstd::string::*;

verus! {

/// One directory as read from disk: its path, the names of all its entries, and
/// the subdirectories that were read in turn. An unreadable directory has no entries.
pub struct DirTree {
    pub path: String,
    pub entries: Vec<String>,
    pub subdirs: Vec<DirTree>,
}

/// The name of a repository's metadata entry.
pub open spec fn git_marker() -> Seq<char> {
    seq!['.', 'g', 'i', 't']
}

/// A directory is a repository root when one of its entries is named `.git`.
pub open spec fn is_repo_root(t: DirTree) -> bool {
    exists|i: int| 0 <= i < t.entries@.len() && #[trigger] t.entries@[i]@ == git_marker()
}

/// The views of some strings.
pub open spec fn texts(v: Seq<String>) -> Seq<Seq<char>> {
    v.map_values(|s: String| s@)
}

/// The repository roots found below `t`, in walk order.
pub open spec fn repo_roots(t: DirTree) -> Seq<Seq<char>>
    decreases t, 0nat,
{
    if is_repo_root(t) {
        seq![t.path@]
    } else {
        repo_roots_in(t.subdirs@, t.subdirs@.len())
    }
}

/// The repository roots found below the first `n` trees of `ts`, in order.
pub open spec fn repo_roots_in(ts: Seq<DirTree>, n: nat) -> Seq<Seq<char>>
    decreases ts, n,
{
    if n == 0 || n > ts.len() {
        Seq::empty()
    } else {
        repo_roots_in(ts, (n - 1) as nat) + repo_roots(ts[n - 1])
    }
}

impl DirTree {
    pub fn new(path: String, entries: Vec<String>, subdirs: Vec<DirTree>) -> (r: DirTree)
        ensures
            r.path == path,
            r.entries == entries,
            r.subdirs == subdirs,
    {
        DirTree { path, entries, subdirs }
    }
}

/// Whether `name` is `.git`.
pub fn is_git_marker(name: &str) -> (r: bool)
    ensures
        r == (name@ == git_marker()),
{
    if name.unicode_len() != 4 {
        return false;
    }
    let r = name.get_char(0) == '.' && name.get_char(1) == 'g' && name.get_char(2) == 'i'
        && name.get_char(3) == 't';
    proof {
        if r {
            assert(name@ =~= git_marker());
        }
    }
    r
}

/// Whether a directory with these entries is a repository root: one of them is named `.git`.
pub fn is_git_dir(entries: &Vec<String>) -> (r: bool)
    ensures
        r == exists|i: int| 0 <= i < entries@.len() && #[trigger] entries@[i]@ == git_marker(),
{
    let mut i: usize = 0;
    while i < entries.len()
        invariant
            i <= entries@.len(),
            forall|j: int| 0 <= j < i ==> #[trigger] entries@[j]@ != git_marker(),
        decreases entries.len() - i,
    {
        if is_git_marker(entries[i].as_str()) {
            return true;
        }
        i = i + 1;
    }
    false
}

/// The paths of the repository roots in `tree`: the tree itself when it is one,
/// otherwise those found in each subdirectory in turn.
pub fn list_git_dirs(tree: &DirTree) -> (r: Vec<String>)
    ensures
        texts(r@) == repo_roots(*tree),
        is_repo_root(*tree) ==> r@.len() == 1 && r@[0]@ == tree.path@,
    decreases tree,
{
    let mut r: Vec<String> = Vec::new();
    if is_git_dir(&tree.entries) {
        r.push(tree.path.clone());
        proof {
            assert(texts(r@) =~= seq![tree.path@]);
        }
        return r;
    }
    let mut i: usize = 0;
    proof {
        assert(texts(r@) =~= repo_roots_in(tree.subdirs@, 0));
    }
    while i < tree.subdirs.len()
        invariant
            i <= tree.subdirs@.len(),
            !is_repo_root(*tree),
            texts(r@) == repo_roots_in(tree.subdirs@, i as nat),
        decreases tree.subdirs.len() - i,
    {
        let mut found = list_git_dirs(&tree.subdirs[i]);
        let ghost before = r@;
        r.append(&mut found);
        proof {
            assert(texts(r@) =~= texts(before) + repo_roots(tree.subdirs@[i as int]));
        }
        i = i + 1;
    }
    r
}


/// The directory that the walk reaches from `t` by entering the subdirectories
/// numbered `pos[0]`, `pos[1]`, ... in turn; none when a number is out of range or
/// the walk would have to enter a repository root.
pub open spec fn walk_to(t: DirTree, pos: Seq<int>) -> Option<DirTree>
    decreases pos.len(),
{
    if pos.len() == 0 {
        Some(t)
    } else if is_repo_root(t) || !(0 <= pos[0] < t.subdirs@.len()) {
        None
    } else {
        walk_to(t.subdirs@[pos[0]], pos.drop_first())
    }
}

/// The walk reaches a repository root at `pos`.
pub open spec fn is_root_position(t: DirTree, pos: Seq<int>) -> bool {
    walk_to(t, pos) is Some && is_repo_root(walk_to(t, pos)->0)
}

/// The positions of the repository roots in `t`, in walk order.
pub open spec fn root_positions(t: DirTree) -> Seq<Seq<int>>
    decreases t, 0nat,
{
    if is_repo_root(t) {
        seq![Seq::<int>::empty()]
    } else {
        root_positions_in(t.subdirs@, t.subdirs@.len())
    }
}

/// The positions of the repository roots in the first `n` trees of `ts`, each
/// headed by the number of its tree.
pub open spec fn root_positions_in(ts: Seq<DirTree>, n: nat) -> Seq<Seq<int>>
    decreases ts, n,
{
    if n == 0 || n > ts.len() {
        Seq::empty()
    } else {
        root_positions_in(ts, (n - 1) as nat) + root_positions(ts[n - 1]).map_values(
            |p: Seq<int>| seq![(n - 1) as int] + p,
        )
    }
}

proof fn lemma_walk_into_subdir(t: DirTree, i: int, p: Seq<int>)
    requires
        !is_repo_root(t),
        0 <= i < t.subdirs@.len(),
    ensures
        walk_to(t, seq![i] + p) == walk_to(t.subdirs@[i], p),
{
    assert((seq![i] + p).drop_first() =~= p);
}

proof fn lemma_walk_stops_at_root(t: DirTree, pos: Seq<int>, q: Seq<int>)
    requires
        is_root_position(t, pos),
        q.len() > 0,
    ensures
        walk_to(t, pos + q) is None,
    decreases pos.len(),
{
    if pos.len() > 0 {
        assert((pos + q)[0] == pos[0]);
        assert((pos + q).drop_first() =~= pos.drop_first() + q);
        lemma_walk_stops_at_root(t.subdirs@[pos[0]], pos.drop_first(), q);
    } else {
        assert(pos + q =~= q);
    }
}

proof fn lemma_roots_in(t: DirTree, n: nat)
    requires
        !is_repo_root(t),
        n <= t.subdirs@.len(),
    ensures
        ({
            let rs = repo_roots_in(t.subdirs@, n);
            let ps = root_positions_in(t.subdirs@, n);
            &&& rs.len() == ps.len()
            &&& forall|i: int|
                0 <= i < ps.len() ==> {
                    &&& #[trigger] is_root_position(t, ps[i])
                    &&& rs[i] == walk_to(t, ps[i])->0.path@
                    &&& ps[i].len() > 0
                    &&& ps[i][0] < n
                }
            &&& ps.no_duplicates()
            &&& forall|pos: Seq<int>|
                is_root_position(t, pos) && pos.len() > 0 && pos[0] < n ==> #[trigger] ps.contains(
                    pos,
                )
        }),
    decreases t, n,
{
    let ts = t.subdirs@;
    if n > 0 {
        lemma_roots_in(t, (n - 1) as nat);
        let sub = ts[n - 1];
        lemma_roots(sub);
        let k = (n - 1) as int;
        let prev_r = repo_roots_in(ts, (n - 1) as nat);
        let prev_p = root_positions_in(ts, (n - 1) as nat);
        let sub_p = root_positions(sub);
        let q = sub_p.map_values(|p: Seq<int>| seq![k] + p);
        let ps = root_positions_in(ts, n);
        let rs = repo_roots_in(ts, n);
        assert(ps == prev_p + q);
        assert(rs == prev_r + repo_roots(sub));
        assert forall|i: int| 0 <= i < ps.len() implies {
            &&& #[trigger] is_root_position(t, ps[i])
            &&& rs[i] == walk_to(t, ps[i])->0.path@
            &&& ps[i].len() > 0
            &&& ps[i][0] < n
        } by {
            if i >= prev_p.len() {
                let j = i - prev_p.len();
                assert(ps[i] == seq![k] + sub_p[j]);
                lemma_walk_into_subdir(t, k, sub_p[j]);
                assert(is_root_position(sub, sub_p[j]));
                assert(rs[i] == repo_roots(sub)[j]);
            } else {
                assert(ps[i] == prev_p[i]);
                assert(rs[i] == prev_r[i]);
            }
        }
        assert forall|a: int, b: int| 0 <= a < b < ps.len() implies ps[a] != ps[b] by {
            if b >= prev_p.len() && a >= prev_p.len() {
                let ja = a - prev_p.len();
                let jb = b - prev_p.len();
                assert(ps[a] == seq![k] + sub_p[ja]);
                assert(ps[b] == seq![k] + sub_p[jb]);
                if ps[a] == ps[b] {
                    assert(sub_p[ja] =~= ps[a].drop_first());
                    assert(sub_p[jb] =~= ps[b].drop_first());
                }
            } else if b >= prev_p.len() {
                assert(ps[a] == prev_p[a]);
                assert(is_root_position(t, prev_p[a]));
                assert(prev_p[a][0] < k);
                assert(ps[b][0] == k);
            } else {
                assert(ps[a] == prev_p[a] && ps[b] == prev_p[b]);
            }
        }
        assert forall|pos: Seq<int>|
            is_root_position(t, pos) && pos.len() > 0 && pos[0] < n implies #[trigger] ps.contains(
            pos,
        ) by {
            if pos[0] == k {
                let rest = pos.drop_first();
                assert(pos =~= seq![k] + rest);
                lemma_walk_into_subdir(t, k, rest);
                assert(sub_p.contains(rest));
                let j = choose|j: int| 0 <= j < sub_p.len() && sub_p[j] == rest;
                assert(ps[prev_p.len() + j] == pos);
            } else {
                assert(prev_p.contains(pos));
                let j = choose|j: int| 0 <= j < prev_p.len() && prev_p[j] == pos;
                assert(ps[j] == pos);
            }
        }
    }
}

proof fn lemma_roots(t: DirTree)
    ensures
        repo_roots(t).len() == root_positions(t).len(),
        forall|i: int|
            0 <= i < root_positions(t).len() ==> {
                &&& #[trigger] is_root_position(t, root_positions(t)[i])
                &&& repo_roots(t)[i] == walk_to(t, root_positions(t)[i])->0.path@
            },
        root_positions(t).no_duplicates(),
        forall|pos: Seq<int>| is_root_position(t, pos) ==> #[trigger] root_positions(t).contains(pos),
    decreases t, t.subdirs@.len() + 1,
{
    if is_repo_root(t) {
        assert forall|pos: Seq<int>| is_root_position(t, pos) implies #[trigger] root_positions(
            t,
        ).contains(pos) by {
            assert(pos.len() == 0);
            assert(pos =~= Seq::<int>::empty());
            assert(root_positions(t)[0] == pos);
        }
    } else {
        lemma_roots_in(t, t.subdirs@.len());
        assert forall|pos: Seq<int>| is_root_position(t, pos) implies #[trigger] root_positions(
            t,
        ).contains(pos) by {
            assert(pos.len() > 0);
        }
    }
}

proof fn lemma_roots_as_set(t: DirTree)
    ensures
        forall|p: Seq<char>|
            #[trigger] repo_roots(t).contains(p) <==> exists|pos: Seq<int>|
                #[trigger] is_root_position(t, pos) && walk_to(t, pos)->0.path@ == p,
{
    lemma_roots(t);
    assert forall|p: Seq<char>| #[trigger] repo_roots(t).contains(p) implies exists|pos: Seq<int>|
        #[trigger] is_root_position(t, pos) && walk_to(t, pos)->0.path@ == p by {
        let i = choose|i: int| 0 <= i < repo_roots(t).len() && repo_roots(t)[i] == p;
        assert(is_root_position(t, root_positions(t)[i]));
    }
    assert forall|p: Seq<char>| (exists|pos: Seq<int>|
        #[trigger] is_root_position(t, pos) && walk_to(t, pos)->0.path@ == p) implies #[trigger] repo_roots(t).contains(p) by {
        let pos = choose|pos: Seq<int>| #[trigger] is_root_position(t, pos) && walk_to(t, pos)->0.path@ == p;
        assert(root_positions(t).contains(pos));
        let i = choose|i: int| 0 <= i < root_positions(t).len() && root_positions(t)[i] == pos;
        assert(is_root_position(t, root_positions(t)[i]));
        assert(repo_roots(t)[i] == p);
    }
}

/// For every directory tree, the walk returns one path for each repository root
/// that it reaches, in walk order: the result lines up with the positions of those
/// roots, no position occurs twice, every root that the walk reaches is among them,
/// and nothing inside a repository root is reached, so no result lies inside another.
/// As a set, the result is the paths of the repository roots that the walk reaches.
pub proof fn lemma_walk_finds_each_root_once(t: DirTree)
    ensures
        repo_roots(t).len() == root_positions(t).len(),
        forall|i: int|
            0 <= i < root_positions(t).len() ==> {
                &&& #[trigger] is_root_position(t, root_positions(t)[i])
                &&& repo_roots(t)[i] == walk_to(t, root_positions(t)[i])->0.path@
            },
        root_positions(t).no_duplicates(),
        forall|pos: Seq<int>| is_root_position(t, pos) ==> #[trigger] root_positions(t).contains(pos),
        forall|pos: Seq<int>, q: Seq<int>|
            is_root_position(t, pos) && q.len() > 0 ==> #[trigger] walk_to(t, pos + q) is None,
        forall|p: Seq<char>|
            #[trigger] repo_roots(t).contains(p) <==> exists|pos: Seq<int>|
                #[trigger] is_root_position(t, pos) && walk_to(t, pos)->0.path@ == p,
{
    lemma_roots(t);
    lemma_roots_as_set(t);
    assert forall|pos: Seq<int>, q: Seq<int>|
        is_root_position(t, pos) && q.len() > 0 implies #[trigger] walk_to(t, pos + q) is None by {
        lemma_walk_stops_at_root(t, pos, q);
    }
}

} // verus!
