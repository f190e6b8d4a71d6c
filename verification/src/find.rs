//! Finding the issue that a needle names: a full identifier or the beginning of one.
//!
//! The search runs on a listing of the directory `issues`: its shard directories,
//! each with the directories inside it.

use vstd::prelude::*;
use crate::errors::{FindError, FindErrorView, InitError};
use crate::id::Id;
use crate::issues::{Issue, IssueView, unread};
use crate::source::DataSource;
use crate::text::{starts_with, str_eq};

verus! {

/// A shard directory and the directories inside it, one for each issue.
#[derive(Debug)]
pub struct Shard {
    pub name: String,
    pub leaves: Vec<String>,
}

/// A `Shard` with its names as sequences of characters.
pub struct ShardView {
    pub name: Seq<char>,
    pub leaves: Seq<Seq<char>>,
}

impl View for Shard {
    type V = ShardView;

    open spec fn view(&self) -> ShardView {
        ShardView { name: self.name@, leaves: self.leaves.deep_view() }
    }
}

impl DeepView for Shard {
    type V = ShardView;

    open spec fn deep_view(&self) -> ShardView {
        self@
    }
}

/// The identifiers of the issues in `shard`, in the order of its listing.
pub open spec fn ids_in(shard: ShardView) -> Seq<Seq<char>> {
    Seq::new(shard.leaves.len(), |i: int| shard.name + shard.leaves[i])
}

/// The identifiers of the issues in `shards`, shard after shard.
pub open spec fn all_ids(shards: Seq<ShardView>) -> Seq<Seq<char>>
    decreases shards.len(),
{
    if shards.len() == 0 {
        Seq::empty()
    } else {
        all_ids(shards.drop_last()) + ids_in(shards.last())
    }
}

/// The first shard of `shards` with the name `name`.
pub open spec fn shard_named(shards: Seq<ShardView>, name: Seq<char>) -> Option<ShardView>
    decreases shards.len(),
{
    if shards.len() == 0 {
        None
    } else if shards[0].name == name {
        Some(shards[0])
    } else {
        shard_named(shards.drop_first(), name)
    }
}

/// The one of `candidates`: with none the needle is not found, with several it is
/// ambiguous between them.
pub open spec fn one_of(needle: Seq<char>, candidates: Seq<Seq<char>>) -> Result<
    Seq<char>,
    FindErrorView,
> {
    if candidates.len() == 0 {
        Err(FindErrorView::NotFound(needle))
    } else if candidates.len() == 1 {
        Ok(candidates[0])
    } else {
        Err(FindErrorView::MultipleFound(needle, candidates))
    }
}

/// The identifiers in the shard that the first two characters of `needle` name.
pub open spec fn ids_of_shard(shards: Seq<ShardView>, needle: Seq<char>) -> Seq<Seq<char>> {
    match shard_named(shards, needle.subrange(0, 2)) {
        Some(shard) => ids_in(shard),
        None => Seq::empty(),
    }
}

/// The test that an identifier begins with `needle`.
pub open spec fn begins_with(needle: Seq<char>) -> spec_fn(Seq<char>) -> bool {
    |id: Seq<char>| needle.is_prefix_of(id)
}

/// The issue that `needle` names among `shards`.
///
/// - A needle of one character: with exactly one shard, the one issue of that
///   shard, the shard's name standing for the needle; else every issue is a
///   candidate: the needle is ambiguous between them, and not found where there
///   is none.
/// - A needle of two characters names a shard: the one issue inside it.
/// - A longer needle is taken as the full identifier where `exact` says that its
///   directory exists. Else it names the one issue of its shard whose identifier
///   begins with it.
pub open spec fn resolve(needle: Seq<char>, shards: Seq<ShardView>, exact: bool) -> Result<
    Seq<char>,
    FindErrorView,
> {
    if needle.len() == 1 {
        if shards.len() == 1 {
            one_of(shards[0].name, ids_in(shards[0]))
        } else if all_ids(shards).len() == 0 {
            Err(FindErrorView::NotFound(needle))
        } else {
            Err(FindErrorView::MultipleFound(needle, all_ids(shards)))
        }
    } else if needle.len() == 2 {
        match shard_named(shards, needle) {
            Some(shard) => one_of(needle, ids_in(shard)),
            None => Err(FindErrorView::NotFound(needle)),
        }
    } else if exact {
        Ok(needle)
    } else {
        one_of(needle, ids_of_shard(shards, needle).filter(begins_with(needle)))
    }
}

/// The issue of an identifier, none of its fields read.
pub open spec fn unread_issue() -> spec_fn(Seq<char>) -> IssueView {
    |id: Seq<char>| unread(id)
}

/// The result of a search with its texts as sequences of characters.
pub open spec fn found(r: Result<Id, FindError>) -> Result<Seq<char>, FindErrorView> {
    match r {
        Ok(id) => Ok(id@),
        Err(e) => Err(e@),
    }
}

/// The identifiers of the issues in `shard`.
pub fn shard_ids(shard: &Shard) -> (r: Vec<Id>)
    ensures
        r.deep_view() == ids_in(shard@),
{
    let mut out: Vec<Id> = Vec::new();
    let mut i: usize = 0;
    while i < shard.leaves.len()
        invariant
            i <= shard.leaves.len(),
            out@.len() == i,
            forall|k: int| 0 <= k < i ==> (#[trigger] out@[k])@ == shard.name@ + shard.leaves@[k]@,
        decreases shard.leaves.len() - i,
    {
        out.push(Id::from_dir(shard.name.as_str(), shard.leaves[i].as_str()));
        i += 1;
    }
    assert(out.deep_view() =~= ids_in(shard@));
    out
}

/// The shard of `shards` with the name `name`, the first where several have it.
fn find_shard<'a>(shards: &'a Vec<Shard>, name: &str) -> (r: Option<&'a Shard>)
    ensures
        match r {
            Some(shard) => shard_named(shards.deep_view(), name@) == Some(shard@),
            None => shard_named(shards.deep_view(), name@) is None,
        },
{
    let mut i: usize = 0;
    assert(shards.deep_view().skip(0) =~= shards.deep_view());
    while i < shards.len()
        invariant
            i <= shards.len(),
            shard_named(shards.deep_view(), name@) == shard_named(
                shards.deep_view().skip(i as int),
                name@,
            ),
        decreases shards.len() - i,
    {
        let ghost rest = shards.deep_view().skip(i as int);
        assert(rest[0] == shards@[i as int]@);
        if str_eq(shards[i].name.as_str(), name) {
            return Some(&shards[i]);
        }
        assert(rest.drop_first() =~= shards.deep_view().skip(i + 1));
        i += 1;
    }
    None
}

/// The one of `candidates`.
fn pick(needle: &str, candidates: Vec<Id>) -> (r: Result<Id, FindError>)
    ensures
        found(r) == one_of(needle@, candidates.deep_view()),
{
    if candidates.len() == 0 {
        Err(FindError::NotFound(needle.to_owned()))
    } else if candidates.len() == 1 {
        assert(candidates.deep_view()[0] == candidates@[0]@);
        Ok(candidates[0].clone())
    } else {
        Err(FindError::MultipleFound(needle.to_owned(), candidates))
    }
}

impl DataSource {
    /// The identifiers of all issues, shard after shard.
    pub fn all_ids(shards: &Vec<Shard>) -> (r: Vec<Id>)
        ensures
            r.deep_view() == all_ids(shards.deep_view()),
    {
        let mut out: Vec<Id> = Vec::new();
        let mut i: usize = 0;
        assert(shards.deep_view().take(0) =~= Seq::<ShardView>::empty());
        assert(out.deep_view() =~= Seq::<Seq<char>>::empty());
        while i < shards.len()
            invariant
                i <= shards.len(),
                out.deep_view() == all_ids(shards.deep_view().take(i as int)),
            decreases shards.len() - i,
        {
            let ghost before = out.deep_view();
            let ghost next = shards.deep_view().take(i + 1);
            assert(next.drop_last() =~= shards.deep_view().take(i as int));
            assert(next.last() == shards@[i as int]@);
            let mut ids = shard_ids(&shards[i]);
            let ghost more = ids.deep_view();
            out.append(&mut ids);
            assert(out.deep_view() =~= before + more);
            i += 1;
        }
        assert(shards.deep_view().take(shards.len() as int) =~= shards.deep_view());
        out
    }

    /// All issues, shard after shard, none of their fields read.
    pub fn all(shards: &Vec<Shard>) -> (r: Vec<Issue>)
        ensures
            r.deep_view() == all_ids(shards.deep_view()).map_values(unread_issue()),
    {
        let ghost fresh = unread_issue();
        let ids = Self::all_ids(shards);
        let ghost all = ids.deep_view();
        let mut out: Vec<Issue> = Vec::new();
        assert(out.deep_view() =~= all.take(0).map_values(fresh));
        for id in it: ids
            invariant
                fresh == unread_issue(),
                it.seq().len() == all.len(),
                forall|i: int| 0 <= i < all.len() ==> (#[trigger] it.seq()[i])@ == all[i],
                out.deep_view() == all.take(it.index() as int).map_values(fresh),
        {
            let ghost before = out.deep_view();
            let issue = Issue::new(id);
            out.push(issue);
            assert(out.deep_view() =~= before.push(unread(id@)));
            assert(all.take(it.index() + 1).map_values(fresh) =~= before.push(unread(id@)));
        }
        assert(all.take(all.len() as int) =~= all);
        out
    }

    /// The handle on the tracker whose directory `.issues` was looked for from the
    /// working directory upwards and, where found, is `issues_dir`; `repository`
    /// says whether a git repository was found around it.
    pub fn try_new(issues_dir: Option<String>, repository: bool) -> (r: Result<
        DataSource,
        InitError,
    >)
        ensures
            match issues_dir {
                None => r matches Err(InitError::IssuesRepoNotFound),
                Some(dir) => if repository {
                    r matches Ok(data) && data.dir() == dir@ && data@.idle()
                } else {
                    r matches Err(InitError::GitRepoNotFound)
                },
            },
    {
        match issues_dir {
            None => Err(InitError::IssuesRepoNotFound),
            Some(dir) => if repository {
                Ok(DataSource::new(dir))
            } else {
                Err(InitError::GitRepoNotFound)
            },
        }
    }

    /// The issue that `needle` names. `shards` lists the shard directories with the
    /// directories inside them; `exact` says whether the directory exists that
    /// `needle` would have as a full identifier, and counts only for a needle of
    /// more than two characters.
    pub fn find_issue(needle: &str, shards: &Vec<Shard>, exact: bool) -> (r: Result<Id, FindError>)
        requires
            needle@.len() >= 1,
        ensures
            found(r) == resolve(needle@, shards.deep_view(), exact),
    {
        let n = needle.unicode_len();
        if n == 1 {
            if shards.len() == 1 {
                assert(shards.deep_view()[0] == shards@[0]@);
                pick(shards[0].name.as_str(), shard_ids(&shards[0]))
            } else {
                let candidates = Self::all_ids(shards);
                if candidates.len() == 0 {
                    Err(FindError::NotFound(needle.to_owned()))
                } else {
                    Err(FindError::MultipleFound(needle.to_owned(), candidates))
                }
            }
        } else if n == 2 {
            match find_shard(shards, needle) {
                Some(shard) => pick(needle, shard_ids(shard)),
                None => Err(FindError::NotFound(needle.to_owned())),
            }
        } else if exact {
            Ok(Id::new(needle.to_owned()))
        } else {
            let ids: Vec<Id> = match find_shard(shards, needle.substring_char(0, 2)) {
                Some(shard) => shard_ids(shard),
                None => Vec::new(),
            };
            assert(ids.deep_view() =~= ids_of_shard(shards.deep_view(), needle@));
            pick(needle, beginning_with(ids, needle))
        }
    }
}

/// Those of `ids` that begin with `needle`, in their order.
fn beginning_with(ids: Vec<Id>, needle: &str) -> (r: Vec<Id>)
    ensures
        r.deep_view() == ids.deep_view().filter(begins_with(needle@)),
{
    let ghost keep = begins_with(needle@);
    let mut out: Vec<Id> = Vec::new();
    let mut i: usize = 0;
    assert(ids.deep_view().take(0) =~= Seq::<Seq<char>>::empty());
    assert(out.deep_view() =~= Seq::<Seq<char>>::empty());
    while i < ids.len()
        invariant
            i <= ids.len(),
            keep == begins_with(needle@),
            out.deep_view() == ids.deep_view().take(i as int).filter(keep),
        decreases ids.len() - i,
    {
        let ghost before = out.deep_view();
        let ghost done = ids.deep_view().take(i as int);
        assert(ids.deep_view().take(i + 1) =~= done.push(ids@[i as int]@));
        proof {
            done.lemma_filter_push(ids@[i as int]@, keep);
        }
        if starts_with(ids[i].id().as_str(), needle) {
            out.push(ids[i].clone());
            assert(out.deep_view() =~= before.push(ids@[i as int]@));
        }
        i += 1;
    }
    assert(ids.deep_view().take(ids.len() as int) =~= ids.deep_view());
    out
}

/// A needle of one character is ambiguous between all issues where there is an
/// issue and not exactly one shard; in particular where it matches issues in
/// several shards.
pub proof fn law_one_character(needle: Seq<char>, shards: Seq<ShardView>, exact: bool)
    requires
        needle.len() == 1,
        shards.len() != 1,
        all_ids(shards).len() > 0,
    ensures
        resolve(needle, shards, exact) == Err::<Seq<char>, FindErrorView>(
            FindErrorView::MultipleFound(needle, all_ids(shards)),
        ),
{
}

/// A needle of one or of two characters is not found in a tracker without an
/// issue, whatever shards there are.
pub proof fn law_no_issue(needle: Seq<char>, shards: Seq<ShardView>, exact: bool)
    requires
        1 <= needle.len() <= 2,
        all_ids(shards).len() == 0,
    ensures
        resolve(needle, shards, exact) matches Err(FindErrorView::NotFound(_)),
        shards.len() != 1 || needle.len() == 2 ==> resolve(needle, shards, exact) == Err::<
            Seq<char>,
            FindErrorView,
        >(FindErrorView::NotFound(needle)),
{
    lemma_no_issue(shards);
    if needle.len() == 2 {
        lemma_shard_named(shards, needle);
    } else if shards.len() == 1 {
        assert(shards[0] == shards.last());
    }
}

/// Where there is no issue at all, no shard holds one.
proof fn lemma_no_issue(shards: Seq<ShardView>)
    requires
        all_ids(shards).len() == 0,
    ensures
        forall|i: int| 0 <= i < shards.len() ==> ids_in(#[trigger] shards[i]).len() == 0,
    decreases shards.len(),
{
    if shards.len() > 0 {
        lemma_no_issue(shards.drop_last());
        assert forall|i: int| 0 <= i < shards.len() implies ids_in(#[trigger] shards[i]).len()
            == 0 by {
            if i < shards.len() - 1 {
                assert(shards.drop_last()[i] == shards[i]);
            }
        }
    }
}

/// The shard of a name is one of the shards.
proof fn lemma_shard_named(shards: Seq<ShardView>, name: Seq<char>)
    ensures
        shard_named(shards, name) matches Some(shard) ==> shards.contains(shard),
    decreases shards.len(),
{
    if shards.len() > 0 {
        if shards[0].name != name {
            lemma_shard_named(shards.drop_first(), name);
            if let Some(shard) = shard_named(shards.drop_first(), name) {
                let k = choose|k: int|
                    0 <= k < shards.drop_first().len() && shards.drop_first()[k] == shard;
                assert(shards[k + 1] == shard);
            }
        }
    }
}

/// A needle of two characters that names no shard, or a shard without an issue, is
/// not found.
pub proof fn law_two_characters_none(needle: Seq<char>, shards: Seq<ShardView>, exact: bool)
    requires
        needle.len() == 2,
        match shard_named(shards, needle) {
            Some(shard) => shard.leaves.len() == 0,
            None => true,
        },
    ensures
        resolve(needle, shards, exact) == Err::<Seq<char>, FindErrorView>(
            FindErrorView::NotFound(needle),
        ),
{
}

/// A needle whose first two characters name a shard with exactly one issue finds
/// an issue, however long it is: the issue of the shard, or, for a needle of more
/// than two characters that is the path of a directory, that path. For a longer
/// needle that is no such path this holds where the identifier of the issue begins
/// with the needle; else the needle is not found.
pub proof fn law_single_leaf(needle: Seq<char>, shards: Seq<ShardView>, exact: bool)
    requires
        needle.len() >= 2,
        shard_named(shards, needle.subrange(0, 2)) is Some,
        shard_named(shards, needle.subrange(0, 2))->0.leaves.len() == 1,
        needle.len() > 2 && !exact ==> needle.is_prefix_of(
            ids_in(shard_named(shards, needle.subrange(0, 2))->0)[0],
        ),
    ensures
        resolve(needle, shards, exact) == Ok::<Seq<char>, FindErrorView>(
            if needle.len() > 2 && exact {
                needle
            } else {
                ids_in(shard_named(shards, needle.subrange(0, 2))->0)[0]
            },
        ),
{
    let shard = shard_named(shards, needle.subrange(0, 2))->0;
    let ids = ids_in(shard);
    if needle.len() == 2 {
        assert(needle.subrange(0, 2) =~= needle);
    } else if !exact {
        assert(ids =~= seq![ids[0]]);
        let kept = ids.filter(begins_with(needle));
        assert(kept =~= seq![ids[0]]) by {
            reveal_with_fuel(Seq::filter, 2);
            assert(ids.drop_last() =~= Seq::<Seq<char>>::empty());
        }
    }
}

/// A needle of more than two characters that is the path of a directory is taken as
/// the identifier, whatever else begins with it.
pub proof fn law_exact(needle: Seq<char>, shards: Seq<ShardView>)
    requires
        needle.len() > 2,
    ensures
        resolve(needle, shards, true) == Ok::<Seq<char>, FindErrorView>(needle),
{
}

} // verus!
