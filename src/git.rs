//! Repositories and worktrees as the rest of the library sees them: plain
//! values that identify each by its path.

use vstd::prelude::*;
use vstd::string::*;

use crate::list::ListKey;
use crate::strings::{join_path, path_join};

verus! {

/// The suffix that git gives the path of a repository's metadata directory.
pub open spec fn git_dir_suffix() -> Seq<char> {
    seq!['/', '.', 'g', 'i', 't', '/']
}

/// `p` without a trailing `/.git/`.
pub open spec fn strip_git_suffix(p: Seq<char>) -> Seq<char> {
    if p.len() >= 6 && p.subrange(p.len() - 6, p.len() as int) == git_dir_suffix() {
        p.subrange(0, p.len() - 6)
    } else {
        p
    }
}

/// The characters of `p` after its last `/` (all of `p` when it has none).
pub open spec fn last_segment(p: Seq<char>) -> Seq<char>
    decreases p.len(),
{
    if p.len() == 0 {
        p
    } else if p.last() == '/' {
        Seq::empty()
    } else {
        last_segment(p.drop_last()).push(p.last())
    }
}

/// The display name of the repository whose metadata lives at `git_path`: the
/// last path segment once a trailing `/.git/` is stripped.
pub open spec fn repository_name(git_path: Seq<char>) -> Seq<char> {
    last_segment(strip_git_suffix(git_path))
}

/// The position just after the last `/` among the first `n` characters of `p`.
spec fn segment_start(p: Seq<char>, n: int) -> int
    decreases n,
{
    if n <= 0 {
        0
    } else if p[n - 1] == '/' {
        n
    } else {
        segment_start(p, n - 1)
    }
}

proof fn lemma_last_segment(p: Seq<char>, n: int)
    requires
        0 <= n <= p.len(),
    ensures
        0 <= segment_start(p, n) <= n,
        last_segment(p.take(n)) == p.subrange(segment_start(p, n), n),
    decreases n,
{
    if n > 0 {
        lemma_last_segment(p, n - 1);
        assert(p.take(n).drop_last() =~= p.take(n - 1));
        if p[n - 1] != '/' {
            assert(p.subrange(segment_start(p, n - 1), n - 1).push(p[n - 1]) =~= p.subrange(
                segment_start(p, n - 1),
                n,
            ));
        } else {
            assert(p.subrange(n, n) =~= Seq::<char>::empty());
        }
    } else {
        assert(p.take(0) =~= Seq::<char>::empty());
        assert(p.subrange(0, 0) =~= Seq::<char>::empty());
    }
}

/// The name of the repository whose metadata lives at `git_path`.
pub fn name_from_git_path(git_path: &str) -> (r: String)
    ensures
        r@ == repository_name(git_path@),
{
    let n = git_path.unicode_len();
    let mut end = n;
    if n >= 6 {
        let tail = git_path.substring_char(n - 6, n);
        if tail.unicode_len() == 6 && tail.get_char(0) == '/' && tail.get_char(1) == '.'
            && tail.get_char(2) == 'g' && tail.get_char(3) == 'i' && tail.get_char(4) == 't'
            && tail.get_char(5) == '/' {
            proof {
                assert(tail@ =~= git_dir_suffix());
            }
            end = n - 6;
        } else {
            proof {
                if git_path@.subrange(n - 6, n as int) == git_dir_suffix() {
                    assert(tail@[0] == '/' && tail@[1] == '.' && tail@[2] == 'g');
                    assert(tail@[3] == 'i' && tail@[4] == 't' && tail@[5] == '/');
                }
            }
        }
    }
    let ghost p = git_path@;
    proof {
        assert(strip_git_suffix(p) =~= p.take(end as int));
    }
    let mut start = end;
    while start > 0 && git_path.get_char(start - 1) != '/'
        invariant
            start <= end <= n,
            n == p.len(),
            p == git_path@,
            segment_start(p, end as int) == segment_start(p, start as int),
        decreases start,
    {
        start = start - 1;
    }
    proof {
        lemma_last_segment(p, end as int);
        assert(segment_start(p, start as int) == start as int);
    }
    String::from_str(git_path.substring_char(start, end))
}

/// A repository: the path of its metadata directory, which identifies it, and its
/// display name, which need not be unique.
pub struct Repository {
    path: String,
    name: String,
}

impl Repository {
    #[verifier::type_invariant]
    spec fn name_matches_path(self) -> bool {
        self.name@ == repository_name(self.path@)
    }

    /// The path of the repository's metadata directory.
    pub closed spec fn path_view(&self) -> Seq<char> {
        self.path@
    }

    /// The repository whose metadata directory is at `git_path`.
    pub fn from_path(git_path: String) -> (r: Repository)
        ensures
            r.path_view() == git_path@,
    {
        let name = name_from_git_path(git_path.as_str());
        Repository { path: git_path, name }
    }

    /// The path of the repository's metadata directory.
    pub fn path(&self) -> (r: &str)
        ensures
            r@ == self.path_view(),
    {
        self.path.as_str()
    }

    /// The display name: the last segment of the path, without `/.git/`.
    pub fn name(&self) -> (r: String)
        ensures
            r@ == repository_name(self.path_view()),
    {
        proof {
            use_type_invariant(self);
        }
        self.name.clone()
    }

    /// The directory that holds this repository's worktrees under `worktrees_dir`.
    pub fn worktrees_dir(&self, worktrees_dir: &str) -> (r: String)
        ensures
            r@ == path_join(worktrees_dir@, repository_name(self.path_view())),
    {
        proof {
            use_type_invariant(self);
        }
        join_path(worktrees_dir, self.name.as_str())
    }

    /// Where a new worktree named `worktree_name` is checked out:
    /// `worktrees_dir/<repository name>/<worktree_name>`.
    pub fn new_worktree_path(&self, worktree_name: &str, worktrees_dir: &str) -> (r: String)
        ensures
            r@ == path_join(
                path_join(worktrees_dir@, repository_name(self.path_view())),
                worktree_name@,
            ),
    {
        let dir = self.worktrees_dir(worktrees_dir);
        join_path(dir.as_str(), worktree_name)
    }
}

impl ListKey for Repository {
    open spec fn key_view(&self) -> Seq<char> {
        repository_name(self.path_view())
    }

    fn key(&self) -> (r: &str) {
        proof {
            use_type_invariant(self);
        }
        self.name.as_str()
    }
}

/// A worktree: the path of its checkout, which identifies it, the name git gives
/// it, and whether its branch has an upstream.
pub struct Worktree {
    pub path: String,
    pub name: String,
    pub has_remote_branch: bool,
}

impl Worktree {
    pub fn new(path: String, name: String, has_remote_branch: bool) -> (r: Worktree)
        ensures
            r.path == path,
            r.name == name,
            r.has_remote_branch == has_remote_branch,
    {
        Worktree { path, name, has_remote_branch }
    }

    /// The path of the checkout.
    pub fn path(&self) -> (r: &str)
        ensures
            r@ == self.path@,
    {
        self.path.as_str()
    }

    /// The worktree's name.
    pub fn name(&self) -> (r: &str)
        ensures
            r@ == self.name@,
    {
        self.name.as_str()
    }
}

impl ListKey for Worktree {
    open spec fn key_view(&self) -> Seq<char> {
        self.path@
    }

    fn key(&self) -> (r: &str) {
        self.path.as_str()
    }
}

/// The worktrees of several repositories, one list after the other.
pub open spec fn all_worktrees(lists: Seq<Vec<Worktree>>) -> Seq<Worktree> {
    lists.map_values(|l: Vec<Worktree>| l@).flatten()
}

/// Joins the worktree lists of the repositories, in order, into one list.
pub fn worktrees_of_repositories(lists: Vec<Vec<Worktree>>) -> (r: Vec<Worktree>)
    ensures
        r@ == all_worktrees(lists@),
{
    let mut lists = lists;
    let ghost all = lists@;
    let mut r: Vec<Worktree> = Vec::new();
    let mut i: usize = 0;
    proof {
        assert(all.take(0).map_values(|l: Vec<Worktree>| l@) =~= Seq::<Seq<Worktree>>::empty());
    }
    while i < lists.len()
        invariant
            i <= lists@.len(),
            lists@.len() == all.len(),
            forall|j: int| i <= j < all.len() ==> lists@[j] == all[j],
            r@ == all.take(i as int).map_values(|l: Vec<Worktree>| l@).flatten(),
        decreases lists.len() - i,
    {
        let mut part: Vec<Worktree> = Vec::new();
        std::mem::swap(&mut part, &mut lists[i]);
        let ghost before = r@;
        r.append(&mut part);
        proof {
            let m = all.take(i as int).map_values(|l: Vec<Worktree>| l@);
            assert(all.take(i + 1).map_values(|l: Vec<Worktree>| l@) =~= m.push(all[i as int]@));
            m.lemma_flatten_push(all[i as int]@);
        }
        i = i + 1;
    }
    proof {
        assert(all.take(all.len() as int) =~= all);
    }
    r
}

} // verus!
