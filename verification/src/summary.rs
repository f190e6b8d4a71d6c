//! The summary of milestones: how many issues each milestone has, open and closed.

use vstd::prelude::*;
use crate::issues::{Issue, IssueView};
use crate::order::{
    ascending, chars_precede, lemma_precedes_irreflexive, lemma_precedes_total,
    lemma_precedes_transitive, precedes,
};
use crate::text::{chars_of, str_eq};

verus! {

/// Whether `issue` has the milestone `milestone`, `None` standing for no
/// milestone, and is closed or open as `closed` says.
pub open spec fn is_counted(issue: IssueView, milestone: Option<Seq<char>>, closed: bool) -> bool {
    issue.milestone->0 == milestone && issue.tags->0.contains("closed"@) == closed
}

/// The number of `issues` with the milestone `milestone` that are closed or open as
/// `closed` says.
pub open spec fn count(issues: Seq<IssueView>, milestone: Option<Seq<char>>, closed: bool) -> nat
    decreases issues.len(),
{
    if issues.len() == 0 {
        0
    } else {
        count(issues.drop_last(), milestone, closed) + if is_counted(
            issues.last(),
            milestone,
            closed,
        ) {
            1nat
        } else {
            0nat
        }
    }
}

/// A milestone with the numbers of its open and of its closed issues.
#[derive(Debug)]
pub struct MilestoneCount {
    pub name: String,
    pub open: usize,
    pub closed: usize,
}

/// A `MilestoneCount` with its name as a sequence of characters.
pub struct MilestoneCountView {
    pub name: Seq<char>,
    pub open: nat,
    pub closed: nat,
}

impl View for MilestoneCount {
    type V = MilestoneCountView;

    open spec fn view(&self) -> MilestoneCountView {
        MilestoneCountView { name: self.name@, open: self.open as nat, closed: self.closed as nat }
    }
}

impl DeepView for MilestoneCount {
    type V = MilestoneCountView;

    open spec fn deep_view(&self) -> MilestoneCountView {
        self@
    }
}

/// The milestones of a tracker with the numbers of their issues, and the numbers of
/// the issues without a milestone.
#[derive(Debug)]
pub struct Summary {
    pub milestones: Vec<MilestoneCount>,
    pub no_milestone_open: usize,
    pub no_milestone_closed: usize,
}

/// The names of `entries`, in their order.
pub open spec fn names(entries: Seq<MilestoneCountView>) -> Seq<Seq<char>> {
    Seq::new(entries.len(), |i: int| entries[i].name)
}

/// Whether the milestone `name` is listed: it has an issue, and an open one unless
/// `all` milestones are asked for.
pub open spec fn listed(issues: Seq<IssueView>, name: Seq<char>, all: bool) -> bool {
    &&& count(issues, Some(name), false) + count(issues, Some(name), true) > 0
    &&& all || count(issues, Some(name), false) > 0
}

/// Whether `entries` are the milestones of `issues` that are listed, each once, in
/// the order of their names, each with the numbers of its issues.
pub open spec fn summarizes(entries: Seq<MilestoneCountView>, issues: Seq<IssueView>, all: bool) -> bool {
    &&& ascending(names(entries))
    &&& forall|i: int|
        0 <= i < entries.len() ==> (#[trigger] entries[i]).open == count(
            issues,
            Some(entries[i].name),
            false,
        ) && entries[i].closed == count(issues, Some(entries[i].name), true)
    &&& forall|name: Seq<char>| #[trigger]
        names(entries).contains(name) <==> listed(issues, name, all)
}

/// No more issues are counted than there are.
pub proof fn lemma_count_bound(issues: Seq<IssueView>, milestone: Option<Seq<char>>, closed: bool)
    ensures
        count(issues, milestone, closed) <= issues.len(),
    decreases issues.len(),
{
    if issues.len() > 0 {
        lemma_count_bound(issues.drop_last(), milestone, closed);
    }
}

/// The name of the entry at `i` is the `i`th name.
proof fn lemma_names(entries: Seq<MilestoneCountView>)
    ensures
        names(entries).len() == entries.len(),
        forall|i: int| 0 <= i < entries.len() ==> names(entries)[i] == (#[trigger] entries[i]).name,
{
}

/// The milestones of `issues` in the order of their names, each with the numbers
/// of its open and of its closed issues, and the numbers of the issues without a
/// milestone. Unless `all` are asked for, a milestone without an open issue is
/// left out. An issue is closed where it has the tag `closed`. The issues have
/// read their milestones and their tags.
pub fn summarize(issues: &Vec<Issue>, all: bool) -> (r: Summary)
    requires
        forall|i: int|
            0 <= i < issues.len() ==> (#[trigger] issues@[i])@.milestone is Some
                && issues@[i]@.tags is Some,
    ensures
        summarizes(r.milestones.deep_view(), issues.deep_view(), all),
        r.no_milestone_open == count(issues.deep_view(), None, false),
        r.no_milestone_closed == count(issues.deep_view(), None, true),
{
    let ghost given = issues.deep_view();
    let mut entries: Vec<MilestoneCount> = Vec::new();
    let mut none_open: usize = 0;
    let mut none_closed: usize = 0;
    let mut i: usize = 0;
    assert(given.take(0) =~= Seq::<IssueView>::empty());
    assert(entries.deep_view() =~= Seq::<MilestoneCountView>::empty());
    assert(names(entries.deep_view()) =~= Seq::<Seq<char>>::empty());
    while i < issues.len()
        invariant
            i <= issues.len(),
            given == issues.deep_view(),
            forall|k: int|
                0 <= k < issues.len() ==> (#[trigger] issues@[k])@.milestone is Some
                    && issues@[k]@.tags is Some,
            summarizes(entries.deep_view(), given.take(i as int), true),
            none_open == count(given.take(i as int), None, false),
            none_closed == count(given.take(i as int), None, true),
        decreases issues.len() - i,
    {
        let ghost done = given.take(i as int);
        let ghost next = given.take(i + 1);
        let ghost before = entries.deep_view();
        let issue = &issues[i];
        assert(next.drop_last() =~= done);
        assert(next.last() == issue@);
        proof {
            lemma_count_bound(done, None, false);
            lemma_count_bound(done, None, true);
            lemma_names(before);
        }
        let closed = issue.is_closed();
        match issue.milestone() {
            None => {
                if closed {
                    none_closed += 1;
                } else {
                    none_open += 1;
                }
                assert forall|name: Seq<char>| #[trigger]
                    names(before).contains(name) <==> listed(next, name, true) by {}
            },
            Some(name) => {
                let key = chars_of(name.as_str());
                let mut at: usize = 0;
                let mut searching = true;
                while searching && at < entries.len()
                    invariant
                        at <= entries.len(),
                        entries.deep_view() == before,
                        key@ == name@,
                        forall|k: int| 0 <= k < at ==> precedes((#[trigger] before[k]).name, name@),
                        !searching ==> at < entries.len() && !precedes(
                            before[at as int].name,
                            name@,
                        ),
                    decreases entries.len() - at + if searching {
                        1nat
                    } else {
                        0nat
                    },
                {
                    assert(before[at as int] == entries@[at as int]@);
                    let here = chars_of(entries[at].name.as_str());
                    if chars_precede(&here, &key) {
                        at += 1;
                    } else {
                        searching = false;
                    }
                }
                let mut known = false;
                if at < entries.len() {
                    assert(before[at as int] == entries@[at as int]@);
                    known = str_eq(entries[at].name.as_str(), name.as_str());
                }
                if known {
                    proof {
                        lemma_count_bound(done, Some(name@), false);
                        lemma_count_bound(done, Some(name@), true);
                    }
                    let old_entry = entries.remove(at);
                    let entry = MilestoneCount {
                        name: old_entry.name,
                        open: if closed {
                            old_entry.open
                        } else {
                            old_entry.open + 1
                        },
                        closed: if closed {
                            old_entry.closed + 1
                        } else {
                            old_entry.closed
                        },
                    };
                    entries.insert(at, entry);
                    proof {
                        let now = entries.deep_view();
                        assert(now =~= before.update(at as int, entry@));
                        assert(names(now) =~= names(before));
                        assert forall|k: int| 0 <= k < now.len() implies (#[trigger] now[k]).open
                            == count(next, Some(now[k].name), false) && now[k].closed == count(
                            next,
                            Some(now[k].name),
                            true,
                        ) by {
                            if k != at {
                                assert(now[k] == before[k]);
                                lemma_precedes_irreflexive(name@);
                                if k < at {
                                    assert(precedes(names(before)[k], names(before)[at as int]));
                                } else {
                                    assert(precedes(names(before)[at as int], names(before)[k]));
                                }
                            }
                        }
                        assert forall|other: Seq<char>| #[trigger]
                            names(now).contains(other) <==> listed(next, other, true) by {
                            if other == name@ {
                                assert(names(before)[at as int] == other);
                            }
                        }
                    }
                } else {
                    proof {
                        if at < before.len() {
                            lemma_precedes_total(name@, before[at as int].name);
                        }
                        assert(!names(before).contains(name@)) by {
                            if names(before).contains(name@) {
                                let k = choose|k: int|
                                    0 <= k < names(before).len() && names(before)[k] == name@;
                                lemma_precedes_irreflexive(name@);
                                if k < at {
                                    assert(precedes(before[k].name, name@));
                                } else if k > at {
                                    assert(precedes(names(before)[at as int], names(before)[k]));
                                    lemma_precedes_transitive(name@, before[at as int].name, name@);
                                }
                            }
                        }
                        assert(!listed(done, name@, true));
                    }
                    let entry = MilestoneCount {
                        name: name.clone(),
                        open: if closed {
                            0
                        } else {
                            1
                        },
                        closed: if closed {
                            1
                        } else {
                            0
                        },
                    };
                    entries.insert(at, entry);
                    proof {
                        let now = entries.deep_view();
                        assert(now =~= before.insert(at as int, entry@));
                        assert(names(now) =~= names(before).insert(at as int, name@));
                        assert forall|a: int, b: int| 0 <= a < b < names(now).len() implies precedes(
                            #[trigger] names(now)[a],
                            #[trigger] names(now)[b],
                        ) by {
                            if b < at {
                                assert(precedes(names(before)[a], names(before)[b]));
                            } else if b == at {
                                assert(precedes(before[a].name, name@));
                            } else if a < at {
                                assert(precedes(names(before)[a], names(before)[b - 1]));
                            } else if a == at {
                                if b - 1 > at {
                                    assert(precedes(
                                        names(before)[at as int],
                                        names(before)[b - 1],
                                    ));
                                    lemma_precedes_transitive(
                                        name@,
                                        before[at as int].name,
                                        before[b - 1].name,
                                    );
                                }
                            } else {
                                assert(precedes(names(before)[a - 1], names(before)[b - 1]));
                            }
                        }
                        assert forall|k: int| 0 <= k < now.len() implies (#[trigger] now[k]).open
                            == count(next, Some(now[k].name), false) && now[k].closed == count(
                            next,
                            Some(now[k].name),
                            true,
                        ) by {
                            if k < at {
                                assert(now[k] == before[k]);
                                assert(names(before)[k] == before[k].name);
                                assert(names(before).contains(before[k].name));
                            } else if k > at {
                                assert(now[k] == before[k - 1]);
                                assert(names(before)[k - 1] == before[k - 1].name);
                                assert(names(before).contains(before[k - 1].name));
                            }
                        }
                        assert forall|other: Seq<char>| #[trigger]
                            names(now).contains(other) <==> listed(next, other, true) by {
                            if names(now).contains(other) {
                                let k = choose|k: int|
                                    0 <= k < names(now).len() && names(now)[k] == other;
                                if k < at {
                                    assert(names(before)[k] == other);
                                } else if k > at {
                                    assert(names(before)[k - 1] == other);
                                }
                            }
                            if names(before).contains(other) {
                                let k = choose|k: int|
                                    0 <= k < names(before).len() && names(before)[k] == other;
                                if k < at {
                                    assert(names(now)[k] == other);
                                } else {
                                    assert(names(now)[k + 1] == other);
                                }
                            }
                            if other == name@ {
                                assert(names(now)[at as int] == other);
                            }
                        }
                    }
                }
            },
        }
        i += 1;
    }
    assert(given.take(issues.len() as int) =~= given);
    if all {
        return Summary {
            milestones: entries,
            no_milestone_open: none_open,
            no_milestone_closed: none_closed,
        };
    }
    let ghost full = entries.deep_view();
    let mut kept: Vec<MilestoneCount> = Vec::new();
    let mut source = entries;
    let ghost mut taken: int = 0;
    assert(kept.deep_view() =~= Seq::<MilestoneCountView>::empty());
    proof {
        lemma_names(full);
    }
    while source.len() > 0
        invariant
            0 <= taken <= full.len(),
            source.deep_view() == full.subrange(taken, full.len() as int),
            summarizes(full, given, true),
            ascending(names(kept.deep_view())),
            forall|k: int|
                0 <= k < kept.len() ==> full.subrange(0, taken).contains(
                    #[trigger] kept.deep_view()[k],
                ) && kept.deep_view()[k].open > 0,
            forall|k: int|
                0 <= k < taken && full[k].open > 0 ==> kept.deep_view().contains(#[trigger] full[k]),
        decreases source.len(),
    {
        let ghost rest = source.deep_view();
        let ghost so_far = kept.deep_view();
        let entry = source.remove(0);
        assert(source.deep_view() =~= rest.remove(0));
        assert(rest[0] == entry@);
        assert(entry@ == full[taken]);
        proof {
            lemma_names(so_far);
            assert forall|k: int| 0 <= k < so_far.len() implies precedes(
                (#[trigger] so_far[k]).name,
                entry@.name,
            ) by {
                let m = choose|m: int| 0 <= m < taken && full.subrange(0, taken)[m] == so_far[k];
                assert(full[m] == so_far[k]);
                assert(precedes(names(full)[m], names(full)[taken]));
            }
        }
        if entry.open != 0 {
            kept.push(entry);
            proof {
                let now = kept.deep_view();
                lemma_names(now);
                assert(now =~= so_far.push(entry@));
                assert forall|a: int, b: int| 0 <= a < b < names(now).len() implies precedes(
                    #[trigger] names(now)[a],
                    #[trigger] names(now)[b],
                ) by {
                    if b < so_far.len() {
                        assert(precedes(names(so_far)[a], names(so_far)[b]));
                    } else {
                        assert(precedes(so_far[a].name, entry@.name));
                    }
                }
                assert forall|k: int| 0 <= k < now.len() implies full.subrange(
                    0,
                    taken + 1,
                ).contains(#[trigger] now[k]) && now[k].open > 0 by {
                    if k < so_far.len() {
                        let m = choose|m: int|
                            0 <= m < taken && full.subrange(0, taken)[m] == so_far[k];
                        assert(full.subrange(0, taken + 1)[m] == now[k]);
                    } else {
                        assert(full.subrange(0, taken + 1)[taken] == now[k]);
                    }
                }
                assert forall|k: int| 0 <= k < taken + 1 && full[k].open > 0 implies now.contains(
                    #[trigger] full[k],
                ) by {
                    if k < taken {
                        let m = choose|m: int| 0 <= m < so_far.len() && so_far[m] == full[k];
                        assert(now[m] == full[k]);
                    } else {
                        assert(now[so_far.len() as int] == full[k]);
                    }
                }
            }
        } else {
            proof {
                assert forall|k: int| 0 <= k < so_far.len() implies full.subrange(
                    0,
                    taken + 1,
                ).contains(#[trigger] so_far[k]) by {
                    let m = choose|m: int|
                        0 <= m < taken && full.subrange(0, taken)[m] == so_far[k];
                    assert(full.subrange(0, taken + 1)[m] == so_far[k]);
                }
            }
        }
        proof {
            taken = taken + 1;
            assert(source.deep_view() =~= full.subrange(taken, full.len() as int));
        }
    }
    proof {
        let now = kept.deep_view();
        lemma_names(now);
        assert forall|k: int| 0 <= k < now.len() implies (#[trigger] now[k]).open == count(
            given,
            Some(now[k].name),
            false,
        ) && now[k].closed == count(given, Some(now[k].name), true) by {
            let m = choose|m: int| 0 <= m < taken && full.subrange(0, taken)[m] == now[k];
            assert(full[m] == now[k]);
        }
        assert forall|name: Seq<char>| #[trigger]
            names(now).contains(name) <==> listed(given, name, false) by {
            if names(now).contains(name) {
                let k = choose|k: int| 0 <= k < names(now).len() && names(now)[k] == name;
                let m = choose|m: int| 0 <= m < taken && full.subrange(0, taken)[m] == now[k];
                assert(full[m] == now[k]);
                assert(names(full)[m] == name);
                assert(names(full).contains(name));
            }
            if listed(given, name, false) {
                assert(listed(given, name, true));
                assert(names(full).contains(name));
                let m = choose|m: int| 0 <= m < names(full).len() && names(full)[m] == name;
                assert(full[m].open > 0);
                assert(now.contains(full[m]));
                let k = choose|k: int| 0 <= k < now.len() && now[k] == full[m];
                assert(names(now)[k] == name);
            }
        }
    }
    Summary { milestones: kept, no_milestone_open: none_open, no_milestone_closed: none_closed }
}

} // verus!
