//! What the transaction relies on: a model of a repository and of the git commands
//! that the transaction asks for, each as it works where it succeeds.
//!
//! The laws at the end hold of every repository that behaves as the model says.

use vstd::prelude::*;
use crate::property::PropertyWriteView;
use crate::source::{Coordinator, RequestView, StepView};

verus! {

/// The files of a commit: the content of each path.
pub type Tree = Map<Seq<char>, Seq<char>>;

/// Changes of the working tree that are not committed: for each changed path its new
/// content, or `None` where the file is gone. A clean working tree has none.
pub type Edits = Map<Seq<char>, Option<Seq<char>>>;

/// A commit: its parents, first the one that the branch pointed to, and its files.
pub struct CommitNode {
    pub parents: Seq<Seq<char>>,
    pub tree: Tree,
}

/// A repository with a working tree.
pub struct Repo {
    /// The commits by their hashes.
    pub commits: Map<Seq<char>, CommitNode>,
    /// The hash of the commit that the branch points to.
    pub head: Seq<char>,
    /// The changes of the working tree.
    pub changes: Edits,
    /// The stashed changes, the latest last.
    pub stash: Seq<Edits>,
}

impl Repo {
    /// Whether the working tree has no changes.
    pub open spec fn clean(self) -> bool {
        self.changes == Map::<Seq<char>, Option<Seq<char>>>::empty()
    }

    /// Whether the branch points to a commit of the repository.
    pub open spec fn wf(self) -> bool {
        self.commits.dom().contains(self.head)
    }

    /// Stashing sets all changes aside and leaves the working tree clean.
    pub open spec fn stashed(self) -> Repo {
        Repo { changes: Map::empty(), stash: self.stash.push(self.changes), ..self }
    }

    /// Popping brings the latest stash back into the clean working tree.
    pub open spec fn popped(self) -> Repo {
        Repo { changes: self.stash.last(), stash: self.stash.drop_last(), ..self }
    }

    /// A hard reset moves the branch to `sha` and drops the changes of the working
    /// tree. No commit is made or lost.
    pub open spec fn reset_to(self, sha: Seq<char>) -> Repo {
        Repo { head: sha, changes: Map::empty(), ..self }
    }

    /// Whether each commit of `path` but the last has the next as its first parent.
    pub open spec fn chain(self, path: Seq<Seq<char>>) -> bool {
        forall|i: int|
            0 <= i < path.len() - 1 ==> self.commits.dom().contains(#[trigger] path[i])
                && self.commits[path[i]].parents.len() > 0 && self.commits[path[i]].parents[0]
                == path[i + 1]
    }

    /// Whether `sha` is `from` or was committed on top of it: whether first parents
    /// lead from `sha` to `from`.
    pub open spec fn descends(self, sha: Seq<char>, from: Seq<char>) -> bool {
        exists|path: Seq<Seq<char>>|
            path.len() > 0 && path[0] == sha && path.last() == from && #[trigger] self.chain(path)
    }

    /// A merge of `sha` that is no fast-forward makes one commit, `made`, whose
    /// parents are the head and `sha`. Where `sha` was committed on top of the head,
    /// the files of the new commit are those of `sha`; of other merges the model
    /// says nothing.
    pub open spec fn merged(self, sha: Seq<char>, made: Seq<char>) -> Repo {
        Repo {
            commits: self.commits.insert(
                made,
                CommitNode {
                    parents: seq![self.head, sha],
                    tree: if self.descends(sha, self.head) && sha != self.head {
                        self.commits[sha].tree
                    } else {
                        arbitrary()
                    },
                },
            ),
            head: made,
            ..self
        }
    }

    /// Carrying out a write makes one commit, `made`, on top of the head, with the
    /// file of the write changed.
    pub open spec fn written(self, write: PropertyWriteView, made: Seq<char>) -> Repo {
        let tree = self.commits[self.head].tree;
        Repo {
            commits: self.commits.insert(
                made,
                CommitNode {
                    parents: seq![self.head],
                    tree: match write.content {
                        Some(content) => tree.insert(write.path, content),
                        None => tree.remove(write.path),
                    },
                },
            ),
            head: made,
            ..self
        }
    }

    /// Carrying out writes one after the other, the commit of each getting its
    /// hash from `made`.
    pub open spec fn carried_out(self, writes: Seq<PropertyWriteView>, made: Seq<Seq<char>>) -> Repo
        decreases writes.len(),
    {
        if writes.len() == 0 {
            self
        } else {
            self.carried_out(writes.drop_last(), made.drop_last()).written(
                writes.last(),
                made.last(),
            )
        }
    }

    /// The repository after `request`, a commit that it makes getting the hash `made`.
    pub open spec fn run(self, request: RequestView, made: Seq<char>) -> Repo {
        match request {
            RequestView::Stash { .. } => self.stashed(),
            RequestView::ResetHard { sha } => self.reset_to(sha),
            RequestView::Merge { sha, .. } => self.merged(sha, made),
            RequestView::StashPop => self.popped(),
        }
    }

    /// Whether `later` is this repository after further commits on a clean working
    /// tree: it has the commits of this one, its head was committed on top of the
    /// head of this one, and it has the same stash and no changes.
    pub open spec fn grown_to(self, later: Repo) -> bool {
        &&& self.commits.submap_of(later.commits)
        &&& later.wf()
        &&& later.descends(later.head, self.head)
        &&& later.clean()
        &&& later.stash == self.stash
    }
}

/// An operation and the repository once every command that the operation asks for
/// has been run with success; `steps` bounds their number.
pub open spec fn settled(
    coordinator: Coordinator,
    step: StepView,
    repo: Repo,
    made: Seq<char>,
    steps: nat,
) -> (Coordinator, StepView, Repo)
    decreases steps,
{
    match step {
        StepView::Run(request) => if steps > 0 {
            let next = coordinator.resume(Ok(()));
            settled(next.0, next.1, repo.run(request, made), made, (steps - 1) as nat)
        } else {
            (coordinator, step, repo)
        },
        StepView::Done(_) => (coordinator, step, repo),
    }
}

/// Starting a transaction on `repo`.
pub open spec fn started(coordinator: Coordinator, repo: Repo) -> (Coordinator, StepView, Repo) {
    let first = coordinator.start(Some(repo.head), repo.clean());
    settled(first.0, first.1, repo, Seq::empty(), 1)
}

/// Finishing the open transaction on `repo` under `message`, the merge commit
/// getting the hash `made`.
pub open spec fn finished(coordinator: Coordinator, repo: Repo, message: Seq<char>, made: Seq<char>) -> (
    Coordinator,
    StepView,
    Repo,
) {
    let first = coordinator.finish(message, repo.head);
    settled(first.0, first.1, repo, made, 3)
}

/// Rolling the open transaction back on `repo`.
pub open spec fn rolled_back(coordinator: Coordinator, repo: Repo) -> (Coordinator, StepView, Repo) {
    let first = coordinator.rollback();
    settled(first.0, first.1, repo, Seq::empty(), 2)
}

/// Starting a transaction opens it on a clean working tree, with the branch where
/// it was: changes of the working tree are on the stash, and nowhere else.
pub proof fn law_start(coordinator: Coordinator, repo: Repo)
    requires
        coordinator.idle(),
    ensures
        ({
            let (opened, step, ready) = started(coordinator, repo);
            &&& step == StepView::Done(Ok(()))
            &&& opened.open()
            &&& opened.transaction->0.start_sha == repo.head
            &&& opened.transaction->0.stash_before == !repo.clean()
            &&& ready.clean()
            &&& ready.head == repo.head
            &&& ready.commits == repo.commits
            &&& ready.stash == if repo.clean() {
                repo.stash
            } else {
                repo.stash.push(repo.changes)
            }
        }),
{
    reveal_with_fuel(settled, 2);
}

/// A finished transaction moves the branch by exactly one commit: whatever was
/// committed since the start, and something was, the branch then points to one new
/// commit whose first parent is the commit that the branch pointed to at the start,
/// whose second parent is the last commit of the transaction, and whose files are
/// the files of that last commit. The commits of the transaction are kept, and the
/// working tree has the changes again that it had at the start, and no others.
pub proof fn law_finish(
    coordinator: Coordinator,
    repo: Repo,
    later: Repo,
    message: Seq<char>,
    made: Seq<char>,
)
    requires
        coordinator.idle(),
        repo.wf(),
        started(coordinator, repo).2.grown_to(later),
        later.head != repo.head,
        !later.commits.dom().contains(made),
    ensures
        ({
            let (ended, step, end) = finished(started(coordinator, repo).0, later, message, made);
            &&& step == StepView::Done(Ok(()))
            &&& ended.idle()
            &&& end.head == made
            &&& end.commits[made].parents == seq![repo.head, later.head]
            &&& end.commits[made].tree == later.commits[later.head].tree
            &&& later.commits.submap_of(end.commits)
            &&& end.changes == repo.changes
            &&& end.stash == repo.stash
        }),
{
    reveal_with_fuel(settled, 4);
    let opened = started(coordinator, repo);
    let ready = opened.2;
    if !repo.clean() {
        assert(ready.stash.last() == repo.changes);
        assert(ready.stash.drop_last() =~= repo.stash);
    }
    // the reset moves the branch and makes no commit, so the head of the
    // transaction still descends from where the branch then stands
    let back = later.reset_to(repo.head);
    let path = choose|path: Seq<Seq<char>>|
        path.len() > 0 && path[0] == later.head && path.last() == ready.head
            && #[trigger] later.chain(path);
    assert(back.chain(path));
    assert(back.descends(later.head, back.head));
    let end = finished(opened.0, later, message, made).2;
    assert(later.commits.submap_of(end.commits));
}

/// A transaction that is rolled back leaves the branch where it was at the start,
/// and the working tree with the changes that it had at the start, and no others.
pub proof fn law_rollback(coordinator: Coordinator, repo: Repo, later: Repo)
    requires
        coordinator.idle(),
        repo.wf(),
        started(coordinator, repo).2.grown_to(later),
    ensures
        ({
            let (ended, step, end) = rolled_back(started(coordinator, repo).0, later);
            &&& step == StepView::Done(Ok(()))
            &&& ended.idle()
            &&& end.head == repo.head
            &&& end.changes == repo.changes
            &&& end.stash == repo.stash
        }),
{
    reveal_with_fuel(settled, 3);
    let ready = started(coordinator, repo).2;
    if !repo.clean() {
        assert(ready.stash.last() == repo.changes);
        assert(ready.stash.drop_last() =~= repo.stash);
    }
}

/// Growth adds up: what has grown from a repository that has itself grown from
/// another has grown from that other.
pub proof fn law_grown_transitive(first: Repo, second: Repo, third: Repo)
    requires
        first.grown_to(second),
        second.grown_to(third),
    ensures
        first.grown_to(third),
{
    assert forall|sha: Seq<char>| #[trigger]
        first.commits.dom().contains(sha) implies third.commits.dom().contains(sha)
        && first.commits[sha] == third.commits[sha] by {
        assert(second.commits.dom().contains(sha));
    }
    let upper = choose|path: Seq<Seq<char>>|
        path.len() > 0 && path[0] == third.head && path.last() == second.head
            && #[trigger] third.chain(path);
    let lower = choose|path: Seq<Seq<char>>|
        path.len() > 0 && path[0] == second.head && path.last() == first.head
            && #[trigger] second.chain(path);
    let path = upper.drop_last() + lower;
    assert forall|i: int| 0 <= i < path.len() - 1 implies third.commits.dom().contains(
        #[trigger] path[i],
    ) && third.commits[path[i]].parents.len() > 0 && third.commits[path[i]].parents[0] == path[i
        + 1] by {
        if i < upper.len() - 1 {
            assert(path[i] == upper[i]);
            if i + 1 < upper.len() - 1 {
                assert(path[i + 1] == upper[i + 1]);
            } else {
                assert(path[i + 1] == lower[0]);
            }
        } else {
            let k = i - (upper.len() - 1);
            assert(path[i] == lower[k]);
            assert(path[i + 1] == lower[k + 1]);
            assert(second.commits.dom().contains(lower[k]));
        }
    }
    assert(third.chain(path));
    assert(path[0] == third.head) by {
        if upper.len() == 1 {
            assert(path[0] == lower[0]);
        } else {
            assert(path[0] == upper[0]);
        }
    }
    assert(path.last() == lower.last());
}

/// A write that is carried out on a clean working tree grows the repository: it
/// makes one commit on top of the head, and nothing else changes.
pub proof fn law_write_grows(repo: Repo, write: PropertyWriteView, made: Seq<char>)
    requires
        repo.wf(),
        repo.clean(),
        !repo.commits.dom().contains(made),
    ensures
        repo.grown_to(repo.written(write, made)),
        repo.written(write, made).head == made,
        repo.written(write, made).head != repo.head,
        repo.written(write, made).commits[made].parents == seq![repo.head],
{
    let after = repo.written(write, made);
    let path = seq![made, repo.head];
    assert(after.chain(path));
    assert(path[0] == after.head && path.last() == repo.head);
}

/// Writes that are carried out one after the other on a clean working tree, each
/// under a hash that is new, grow the repository: the branch then points to the
/// commit of the last write, and the commits are those that were there and those of
/// the writes.
pub proof fn law_writes_grow(repo: Repo, writes: Seq<PropertyWriteView>, made: Seq<Seq<char>>)
    requires
        repo.wf(),
        repo.clean(),
        made.len() == writes.len(),
        made.no_duplicates(),
        forall|i: int| 0 <= i < made.len() ==> !repo.commits.dom().contains(#[trigger] made[i]),
    ensures
        repo.grown_to(repo.carried_out(writes, made)),
        writes.len() > 0 ==> repo.carried_out(writes, made).head == made.last()
            && repo.carried_out(writes, made).head != repo.head,
        forall|sha: Seq<char>|
            repo.carried_out(writes, made).commits.dom().contains(sha) <==> (
            repo.commits.dom().contains(sha) || made.contains(sha)),
    decreases writes.len(),
{
    if writes.len() == 0 {
        assert(repo.chain(seq![repo.head]));
        assert(made =~= Seq::<Seq<char>>::empty());
    } else {
        let earlier = made.drop_last();
        let before = repo.carried_out(writes.drop_last(), earlier);
        law_writes_grow(repo, writes.drop_last(), earlier);
        assert(!before.commits.dom().contains(made.last())) by {
            if earlier.contains(made.last()) {
                let k = choose|k: int| 0 <= k < earlier.len() && earlier[k] == made.last();
                assert(made[k] == made[made.len() - 1]);
            }
        }
        law_write_grows(before, writes.last(), made.last());
        let after = before.written(writes.last(), made.last());
        law_grown_transitive(repo, before, after);
        assert forall|sha: Seq<char>| after.commits.dom().contains(sha) <==> (
        repo.commits.dom().contains(sha) || made.contains(sha)) by {
            if earlier.contains(sha) {
                let k = choose|k: int| 0 <= k < earlier.len() && earlier[k] == sha;
                assert(made[k] == sha);
            }
            if made.contains(sha) {
                let k = choose|k: int| 0 <= k < made.len() && made[k] == sha;
                if k < made.len() - 1 {
                    assert(earlier[k] == sha);
                }
            }
        }
    }
}

} // verus!
