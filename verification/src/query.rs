//! Selecting and arranging issues: the filter on tags and milestone, and the order
//! by a field.

use vstd::prelude::*;
use crate::date::TimestampView;
use crate::issues::{Fields, FormatString, Issue, IssueView, PlaceHolderView};
use crate::order::{
    contains, lemma_precedes_irreflexive, lemma_precedes_total, lemma_precedes_transitive, precedes,
    str_precedes,
};
use crate::text::str_eq;

verus! {

/// What a filter asks of the milestone of an issue.
#[derive(Debug)]
pub enum MilestoneFilter {
    /// The issue has no milestone.
    Without,
    /// Nothing is asked.
    Any,
    /// The issue has this milestone.
    Value(String),
}

/// A `MilestoneFilter` with its text as a sequence of characters.
pub enum MilestoneFilterView {
    Without,
    Any,
    Value(Seq<char>),
}

impl View for MilestoneFilter {
    type V = MilestoneFilterView;

    open spec fn view(&self) -> MilestoneFilterView {
        match *self {
            MilestoneFilter::Without => MilestoneFilterView::Without,
            MilestoneFilter::Any => MilestoneFilterView::Any,
            MilestoneFilter::Value(milestone) => MilestoneFilterView::Value(milestone@),
        }
    }
}

impl PartialEq for MilestoneFilter {
    fn eq(&self, other: &Self) -> (r: bool) {
        match (self, other) {
            (MilestoneFilter::Value(a), MilestoneFilter::Value(b)) => str_eq(
                a.as_str(),
                b.as_str(),
            ),
            (MilestoneFilter::Any, MilestoneFilter::Any) => true,
            (MilestoneFilter::Without, MilestoneFilter::Without) => true,
            (_, _) => false,
        }
    }
}

impl vstd::std_specs::cmp::PartialEqSpecImpl for MilestoneFilter {
    open spec fn obeys_eq_spec() -> bool {
        true
    }

    open spec fn eq_spec(&self, other: &Self) -> bool {
        self@ == other@
    }
}

/// A filter on issues: the tags that an issue must have, those of which it may
/// have none, and what is asked of its milestone.
#[derive(Debug)]
pub struct Filter {
    pub with_tags: Vec<String>,
    pub without_tags: Vec<String>,
    pub milestone: MilestoneFilter,
}

/// A `Filter` with its texts as sequences of characters.
pub struct FilterView {
    pub with_tags: Seq<Seq<char>>,
    pub without_tags: Seq<Seq<char>>,
    pub milestone: MilestoneFilterView,
}

impl View for Filter {
    type V = FilterView;

    open spec fn view(&self) -> FilterView {
        FilterView {
            with_tags: self.with_tags.deep_view(),
            without_tags: self.without_tags.deep_view(),
            milestone: self.milestone@,
        }
    }
}

impl FilterView {
    /// Whether the filter reads the milestone of an issue.
    pub open spec fn reads_milestone(self) -> bool {
        !(self.milestone is Any)
    }

    /// Whether the filter reads the tags of an issue.
    pub open spec fn reads_tags(self) -> bool {
        self.with_tags.len() > 0 || self.without_tags.len() > 0
    }

    /// Whether the issue has read what the filter reads.
    pub open spec fn ready(self, issue: IssueView) -> bool {
        &&& self.reads_milestone() ==> issue.milestone is Some
        &&& self.reads_tags() ==> issue.tags is Some
    }

    /// Whether the milestone of the issue is as the filter asks.
    pub open spec fn milestone_fits(self, issue: IssueView) -> bool {
        match self.milestone {
            MilestoneFilterView::Any => true,
            MilestoneFilterView::Without => issue.milestone->0 is None,
            MilestoneFilterView::Value(expected) => issue.milestone->0 == Some(expected),
        }
    }

    /// Whether the issue passes the filter: its milestone is as asked, it has none
    /// of the tags that it may not have, and all that it must have.
    pub open spec fn passes(self, issue: IssueView) -> bool {
        &&& self.milestone_fits(issue)
        &&& forall|i: int|
            0 <= i < self.without_tags.len() ==> !issue.tags->0.contains(
                #[trigger] self.without_tags[i],
            )
        &&& forall|i: int|
            0 <= i < self.with_tags.len() ==> issue.tags->0.contains(#[trigger] self.with_tags[i])
    }
}

/// The test that an issue passes `filter`.
pub open spec fn passing(filter: FilterView) -> spec_fn(IssueView) -> bool {
    |issue: IssueView| filter.passes(issue)
}

impl Filter {
    /// The filter that a command asks for. Unless `all` issues are asked for, an
    /// issue must have the tag `open`. `without_milestone` comes before
    /// `with_milestone`.
    pub fn from(
        all: bool,
        with_tags: Vec<String>,
        without_tags: Vec<String>,
        with_milestone: Option<String>,
        without_milestone: bool,
    ) -> (r: Filter)
        ensures
            r@.with_tags == if all {
                with_tags.deep_view()
            } else {
                with_tags.deep_view().push("open"@)
            },
            r@.without_tags == without_tags.deep_view(),
            r@.milestone == if without_milestone {
                MilestoneFilterView::Without
            } else {
                match with_milestone {
                    Some(m) => MilestoneFilterView::Value(m@),
                    None => MilestoneFilterView::Any,
                }
            },
    {
        let milestone = if without_milestone {
            MilestoneFilter::Without
        } else {
            match with_milestone {
                Some(m) => MilestoneFilter::Value(m),
                None => MilestoneFilter::Any,
            }
        };
        let mut with_tags = with_tags;
        if !all {
            let ghost before = with_tags.deep_view();
            with_tags.push(String::from_str("open"));
            assert(with_tags.deep_view() =~= before.push("open"@));
        }
        Filter { with_tags, without_tags, milestone }
    }

    /// The fields of an issue that the filter reads.
    pub fn needs(&self) -> (r: Fields)
        ensures
            r.milestone == self@.reads_milestone(),
            r.tags == self@.reads_tags(),
            !r.cdate && !r.ddate && !r.desc,
    {
        let milestone = match self.milestone {
            MilestoneFilter::Any => false,
            _ => true,
        };
        Fields {
            cdate: false,
            ddate: false,
            desc: false,
            milestone,
            tags: self.with_tags.len() > 0 || self.without_tags.len() > 0,
        }
    }

    /// Whether the issue passes the filter.
    pub fn passes(&self, issue: &Issue) -> (r: bool)
        requires
            self@.ready(issue@),
        ensures
            r == self@.passes(issue@),
    {
        let fits = match &self.milestone {
            MilestoneFilter::Any => true,
            MilestoneFilter::Without => issue.milestone().is_none(),
            MilestoneFilter::Value(expected) => match issue.milestone() {
                None => false,
                Some(actual) => str_eq(actual.as_str(), expected.as_str()),
            },
        };
        if !fits {
            return false;
        }
        let mut i: usize = 0;
        while i < self.without_tags.len()
            invariant
                i <= self.without_tags.len(),
                self@.ready(issue@),
                forall|k: int|
                    0 <= k < i ==> !issue@.tags->0.contains(#[trigger] self@.without_tags[k]),
            decreases self.without_tags.len() - i,
        {
            assert(self@.without_tags[i as int] == self.without_tags@[i as int]@);
            if contains(issue.tags(), self.without_tags[i].as_str()) {
                return false;
            }
            i += 1;
        }
        let mut j: usize = 0;
        while j < self.with_tags.len()
            invariant
                j <= self.with_tags.len(),
                self@.ready(issue@),
                forall|k: int| 0 <= k < j ==> issue@.tags->0.contains(#[trigger] self@.with_tags[k]),
            decreases self.with_tags.len() - j,
        {
            assert(self@.with_tags[j as int] == self.with_tags@[j as int]@);
            if !contains(issue.tags(), self.with_tags[j].as_str()) {
                return false;
            }
            j += 1;
        }
        true
    }

    /// Those of `issues` that pass the filter, in their order.
    pub fn apply(&self, issues: Vec<Issue>) -> (r: Vec<Issue>)
        requires
            forall|i: int| 0 <= i < issues.len() ==> self@.ready(#[trigger] issues@[i]@),
        ensures
            r.deep_view() == issues.deep_view().filter(passing(self@)),
    {
        let ghost keep = passing(self@);
        let ghost all = issues.deep_view();
        let mut out: Vec<Issue> = Vec::new();
        assert(out.deep_view() =~= Seq::<IssueView>::empty());
        assert(all.take(0) =~= Seq::<IssueView>::empty());
        for issue in it: issues
            invariant
                keep == passing(self@),
                it.seq().len() == all.len(),
                forall|i: int| 0 <= i < all.len() ==> (#[trigger] it.seq()[i])@ == all[i],
                forall|i: int| 0 <= i < all.len() ==> self@.ready(#[trigger] all[i]),
                out.deep_view() == all.take(it.index() as int).filter(keep),
        {
            let ghost before = out.deep_view();
            let ghost done = all.take(it.index() as int);
            assert(all.take(it.index() + 1) =~= done.push(issue@));
            proof {
                done.lemma_filter_push(issue@, keep);
            }
            assert(self@.ready(all[it.index() as int]));
            if self.passes(&issue) {
                out.push(issue);
                assert(out.deep_view() =~= before.push(issue@));
            }
        }
        assert(all.take(all.len() as int) =~= all);
        out
    }
}

/// A field to order issues by.
#[derive(Debug, Clone, Copy, PartialEq, Eq, Structural)]
pub enum SortKey {
    CreationDate,
    DueDate,
    Description,
    Milestone,
}

impl SortKey {
    /// The field of an issue that is read to order by this key.
    pub fn needs(self) -> (r: Fields)
        ensures
            r.cdate == (self == SortKey::CreationDate),
            r.ddate == (self == SortKey::DueDate),
            r.desc == (self == SortKey::Description),
            r.milestone == (self == SortKey::Milestone),
            !r.tags,
    {
        Fields {
            cdate: matches!(self, SortKey::CreationDate),
            ddate: matches!(self, SortKey::DueDate),
            desc: matches!(self, SortKey::Description),
            milestone: matches!(self, SortKey::Milestone),
            tags: false,
        }
    }
}

/// Whether the issue has read the field `key`.
pub open spec fn has_key(issue: IssueView, key: SortKey) -> bool {
    match key {
        SortKey::CreationDate => issue.cdate is Some,
        SortKey::DueDate => issue.ddate is Some,
        SortKey::Description => issue.desc is Some,
        SortKey::Milestone => issue.milestone is Some,
    }
}

/// Whether the text `a` comes before `b`, no text coming before every text.
pub open spec fn text_before(a: Option<Seq<char>>, b: Option<Seq<char>>) -> bool {
    match (a, b) {
        (None, Some(_)) => true,
        (Some(x), Some(y)) => precedes(x, y),
        _ => false,
    }
}

/// Whether the date `a` is earlier than `b`, no date being earlier than every date.
pub open spec fn date_before(a: Option<TimestampView>, b: Option<TimestampView>) -> bool {
    match (a, b) {
        (None, Some(_)) => true,
        (Some(x), Some(y)) => x.unix_nanos < y.unix_nanos,
        _ => false,
    }
}

/// Whether the issue `a` comes strictly before `b` by the field `key`.
pub open spec fn comes_before(a: IssueView, b: IssueView, key: SortKey) -> bool {
    match key {
        SortKey::CreationDate => date_before(a.cdate, b.cdate),
        SortKey::DueDate => date_before(a.ddate->0, b.ddate->0),
        SortKey::Description => text_before(a.desc, b.desc),
        SortKey::Milestone => text_before(a.milestone->0, b.milestone->0),
    }
}

/// Whether no issue of `issues` comes before one that stands earlier.
pub open spec fn in_order(issues: Seq<IssueView>, key: SortKey) -> bool {
    forall|i: int, j: int|
        0 <= i < j < issues.len() ==> !comes_before(#[trigger] issues[j], #[trigger] issues[i], key)
}

/// Where `b` does not come before `a` and `c` does not come before `b`, `c` does
/// not come before `a`.
pub proof fn lemma_order_transitive(a: IssueView, b: IssueView, c: IssueView, key: SortKey)
    requires
        !comes_before(b, a, key),
        !comes_before(c, b, key),
    ensures
        !comes_before(c, a, key),
{
    let (x, y, z): (Option<Seq<char>>, Option<Seq<char>>, Option<Seq<char>>) = match key {
        SortKey::Description => (a.desc, b.desc, c.desc),
        _ => (a.milestone->0, b.milestone->0, c.milestone->0),
    };
    if (key == SortKey::Description || key == SortKey::Milestone) && text_before(z, x) {
        if let (Some(p), Some(q)) = (x, y) {
            if let Some(r) = z {
                // r < p, not q < p, not r < q
                lemma_precedes_total(q, r);
                if q == r {
                } else if precedes(q, r) {
                    lemma_precedes_transitive(q, r, p);
                }
            }
        }
    }
}

impl Issue {
    /// Whether this issue comes strictly before `other` by the field `key`, which
    /// both have read.
    pub fn comes_before(&self, other: &Issue, key: SortKey) -> (r: bool)
        requires
            has_key(self@, key),
            has_key(other@, key),
        ensures
            r == comes_before(self@, other@, key),
    {
        match key {
            SortKey::CreationDate => self.cdate().before(other.cdate()),
            SortKey::DueDate => match (self.ddate(), other.ddate()) {
                (None, Some(_)) => true,
                (Some(x), Some(y)) => x.before(y),
                _ => false,
            },
            SortKey::Description => str_precedes(self.desc().as_str(), other.desc().as_str()),
            SortKey::Milestone => match (self.milestone(), other.milestone()) {
                (None, Some(_)) => true,
                (Some(x), Some(y)) => str_precedes(x.as_str(), y.as_str()),
                _ => false,
            },
        }
    }
}

/// The issues in the order of the field `key`, which all have read.
pub fn sort(issues: Vec<Issue>, key: SortKey) -> (r: Vec<Issue>)
    requires
        forall|i: int| 0 <= i < issues.len() ==> has_key(#[trigger] issues@[i]@, key),
    ensures
        in_order(r.deep_view(), key),
        r.deep_view().to_multiset() == issues.deep_view().to_multiset(),
{
    let mut list = issues;
    let ghost all = list.deep_view();
    let mut out: Vec<Issue> = Vec::new();
    assert(out.deep_view() =~= Seq::<IssueView>::empty());
    assert(out.deep_view().to_multiset().add(all.to_multiset()) =~= all.to_multiset()) by {
        out.deep_view().to_multiset_ensures();
    }
    while list.len() > 0
        invariant
            in_order(out.deep_view(), key),
            forall|i: int| 0 <= i < list.len() ==> has_key(#[trigger] list@[i]@, key),
            forall|i: int| 0 <= i < out.len() ==> has_key(#[trigger] out@[i]@, key),
            out.deep_view().to_multiset().add(list.deep_view().to_multiset()) == all.to_multiset(),
        decreases list.len(),
    {
        let ghost rest = list.deep_view();
        let ghost rest_items = list@;
        let ghost sorted = out.deep_view();
        let ghost sorted_items = out@;
        assert(has_key(list@[0]@, key));
        let next = list.remove(0);
        assert(list.deep_view() =~= rest.remove(0));
        assert(rest[0] == next@);
        assert forall|i: int| 0 <= i < list.len() implies has_key(#[trigger] list@[i]@, key) by {
            assert(list@[i] == rest_items[i + 1]);
        }
        let mut at: usize = out.len();
        while at > 0 && next.comes_before(&out[at - 1], key)
            invariant
                at <= out.len(),
                out@ == sorted_items,
                out.deep_view() == sorted,
                has_key(next@, key),
                forall|i: int| 0 <= i < out.len() ==> has_key(#[trigger] out@[i]@, key),
                forall|k: int| at <= k < sorted.len() ==> comes_before(next@, #[trigger] sorted[k], key),
            decreases at,
        {
            assert(sorted[at - 1] == out@[at - 1]@);
            at -= 1;
        }
        if at > 0 {
            assert(sorted[at - 1] == out@[at - 1]@);
        }
        out.insert(at, next);
        assert(out.deep_view() =~= sorted.insert(at as int, next@));
        assert forall|i: int| 0 <= i < out.len() implies has_key(#[trigger] out@[i]@, key) by {
            if i < at {
                assert(out@[i] == sorted_items[i]);
            } else if i > at {
                assert(out@[i] == sorted_items[i - 1]);
            }
        }
        proof {
            vstd::seq_lib::to_multiset_insert(sorted, at as int, next@);
            vstd::seq_lib::to_multiset_remove(rest, 0);
            assert(rest.to_multiset() =~= rest.remove(0).to_multiset().insert(next@)) by {
                broadcast use vstd::multiset::group_multiset_axioms;

                rest.to_multiset_ensures();
                assert(rest.contains(rest[0]));
            }
            assert(out.deep_view().to_multiset().add(list.deep_view().to_multiset())
                =~= sorted.to_multiset().add(rest.to_multiset()));
            let now = out.deep_view();
            assert forall|i: int, j: int| 0 <= i < j < now.len() implies !comes_before(
                #[trigger] now[j],
                #[trigger] now[i],
                key,
            ) by {
                if j < at {
                    assert(now[i] == sorted[i] && now[j] == sorted[j]);
                } else if j == at {
                    assert(now[i] == sorted[i]);
                    assert(!comes_before(next@, sorted[at - 1], key));
                    if i < at - 1 {
                        assert(!comes_before(sorted[at - 1], sorted[i], key));
                        lemma_order_transitive(sorted[i], sorted[at - 1], next@, key);
                    }
                } else if i < at {
                    assert(now[i] == sorted[i] && now[j] == sorted[j - 1]);
                } else if i == at {
                    assert(now[j] == sorted[j - 1]);
                    assert(comes_before(next@, sorted[j - 1], key));
                    lemma_asymmetric(next@, sorted[j - 1], key);
                } else {
                    assert(now[i] == sorted[i - 1] && now[j] == sorted[j - 1]);
                }
            }
        }
    }
    assert(list.deep_view() =~= Seq::<IssueView>::empty());
    assert(out.deep_view().to_multiset().add(Seq::<IssueView>::empty().to_multiset())
        =~= out.deep_view().to_multiset());
    out
}

/// Of two issues not both come before the other.
pub proof fn lemma_asymmetric(a: IssueView, b: IssueView, key: SortKey)
    requires
        comes_before(a, b, key),
    ensures
        !comes_before(b, a, key),
{
    let (x, y): (Option<Seq<char>>, Option<Seq<char>>) = match key {
        SortKey::Description => (a.desc, b.desc),
        _ => (a.milestone->0, b.milestone->0),
    };
    if key == SortKey::Description || key == SortKey::Milestone {
        if let (Some(p), Some(q)) = (x, y) {
            if precedes(q, p) {
                lemma_precedes_transitive(p, q, p);
                lemma_precedes_irreflexive(p);
            }
        }
    }
}

/// The issues in the opposite order.
pub fn reverse(issues: Vec<Issue>) -> (r: Vec<Issue>)
    ensures
        r.deep_view() == issues.deep_view().reverse(),
{
    let mut list = issues;
    let ghost all = list.deep_view();
    let mut out: Vec<Issue> = Vec::new();
    assert(out.deep_view() =~= Seq::<IssueView>::empty());
    while list.len() > 0
        invariant
            list.deep_view().is_prefix_of(all),
            out.deep_view() == all.subrange(list.len() as int, all.len() as int).reverse(),
        decreases list.len(),
    {
        let ghost before = list.deep_view();
        let ghost done = out.deep_view();
        if let Some(issue) = list.pop() {
            assert(list.deep_view() =~= before.drop_last());
            assert(before.last() == issue@);
            out.push(issue);
            assert(out.deep_view() =~= done.push(issue@));
            assert(out.deep_view() =~= all.subrange(list.len() as int, all.len() as int).reverse());
        }
    }
    assert(all.subrange(0, all.len() as int) =~= all);
    out
}

/// A listing of issues: which are selected, how each is written out, and in which
/// order they stand.
#[derive(Debug)]
pub struct Query {
    pub selection: Filter,
    pub projection: FormatString,
    pub order: Option<SortKey>,
    pub reverse: bool,
}

/// Whether `r` holds `selected` as the query arranges them: in the order of the
/// field where one is given, and the other way round where that is asked for.
pub open spec fn arranged(
    r: Seq<IssueView>,
    selected: Seq<IssueView>,
    order: Option<SortKey>,
    reverse: bool,
) -> bool {
    let forward = if reverse {
        r.reverse()
    } else {
        r
    };
    match order {
        Some(key) => in_order(forward, key) && forward.to_multiset() == selected.to_multiset(),
        None => forward == selected,
    }
}

impl Query {
    /// The fields of an issue that the query as a whole reads.
    pub fn needs(&self) -> (r: Fields)
        ensures
            r.cdate == (self.projection@.contains(PlaceHolderView::CreationDate) || self.order
                == Some(SortKey::CreationDate)),
            r.ddate == (self.projection@.contains(PlaceHolderView::DueDate) || self.order == Some(
                SortKey::DueDate,
            )),
            r.desc == (self.projection@.contains(PlaceHolderView::Description) || self.order
                == Some(SortKey::Description)),
            r.milestone == (self.projection@.contains(PlaceHolderView::Milestone) || self.order
                == Some(SortKey::Milestone) || self.selection@.reads_milestone()),
            r.tags == (self.projection@.contains(PlaceHolderView::Tags)
                || self.selection@.reads_tags()),
    {
        let shown = self.projection.needs();
        let read = self.selection.needs();
        Fields {
            cdate: shown.cdate || matches!(self.order, Some(SortKey::CreationDate)),
            ddate: shown.ddate || matches!(self.order, Some(SortKey::DueDate)),
            desc: shown.desc || matches!(self.order, Some(SortKey::Description)),
            milestone: shown.milestone || matches!(self.order, Some(SortKey::Milestone))
                || read.milestone,
            tags: shown.tags || read.tags,
        }
    }

    /// The issues `selected` as the query arranges them: in the order of its field,
    /// which all have read, and the other way round where it asks for that.
    pub fn arrange(&self, selected: Vec<Issue>) -> (r: Vec<Issue>)
        requires
            self.order matches Some(key) ==> forall|i: int|
                0 <= i < selected.len() ==> has_key(#[trigger] selected@[i]@, key),
        ensures
            arranged(r.deep_view(), selected.deep_view(), self.order, self.reverse),
    {
        let sorted = match self.order {
            Some(key) => sort(selected, key),
            None => selected,
        };
        if self.reverse {
            let ghost forward = sorted.deep_view();
            let r = reverse(sorted);
            assert(r.deep_view().reverse() =~= forward);
            r
        } else {
            sorted
        }
    }

    /// The issues that the query selects, as it arranges them.
    pub fn execute(&self, issues: Vec<Issue>) -> (r: Vec<Issue>)
        requires
            forall|i: int| 0 <= i < issues.len() ==> self.selection@.ready(#[trigger] issues@[i]@),
            self.order matches Some(key) ==> forall|i: int|
                0 <= i < issues.len() ==> has_key(#[trigger] issues@[i]@, key),
        ensures
            arranged(
                r.deep_view(),
                issues.deep_view().filter(passing(self.selection@)),
                self.order,
                self.reverse,
            ),
    {
        let ghost given = issues.deep_view();
        let ghost keep = passing(self.selection@);
        let selected = self.selection.apply(issues);
        let ghost chosen = selected.deep_view();
        if let Some(key) = self.order {
            assert forall|i: int| 0 <= i < selected.len() implies has_key(
                #[trigger] selected@[i]@,
                key,
            ) by {
                assert(chosen[i] == selected@[i]@);
                assert(chosen.contains(chosen[i]));
                given.lemma_filter_contains_rev(keep, chosen[i]);
                let k = choose|k: int| 0 <= k < given.len() && given[k] == chosen[i];
                assert(given[k] == issues@[k]@);
            }
        }
        self.arrange(selected)
    }
}

} // verus!
