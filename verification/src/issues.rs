//! Issues with their fields, read once and kept, and the patterns that an issue is
//! written out by.

use vstd::prelude::*;
use crate::caching::{Cache, CacheError};
use crate::date::{Timestamp, TimestampView, rfc3339};
use crate::errors::IoError;
use crate::id::{CommentId, Id};
use crate::lines::{first_line, first_line_of, strip_final_feed, without_final_feed};
use crate::order::contains;
use crate::source::DataSource;
use crate::store::tags_of;
use crate::text::{chars_of, join, joined, push_char, str_eq, trim, trimmed};

verus! {

/// A comment on an issue.
#[derive(Debug, Eq)]
pub struct Comment {
    id: CommentId,
    author: String,
    cdate: Timestamp,
    body: String,
}

/// A `Comment` with its texts as sequences of characters.
pub struct CommentView {
    pub id: Seq<char>,
    pub author: Seq<char>,
    pub cdate: TimestampView,
    pub body: Seq<char>,
}

impl View for Comment {
    type V = CommentView;

    closed spec fn view(&self) -> CommentView {
        CommentView { id: self.id@, author: self.author@, cdate: self.cdate@, body: self.body@ }
    }
}

impl DeepView for Comment {
    type V = CommentView;

    open spec fn deep_view(&self) -> CommentView {
        self@
    }
}

/// Two comments are the same where they have the same identifier.
impl PartialEq for Comment {
    fn eq(&self, other: &Self) -> (r: bool) {
        str_eq(self.id.id().as_str(), other.id.id().as_str())
    }
}

impl vstd::std_specs::cmp::PartialEqSpecImpl for Comment {
    open spec fn obeys_eq_spec() -> bool {
        true
    }

    open spec fn eq_spec(&self, other: &Self) -> bool {
        self@.id == other@.id
    }
}

impl Comment {
    /// The comment `id` that `author` wrote at `cdate`, saying `body`.
    pub fn new(id: CommentId, author: String, cdate: Timestamp, body: String) -> (r: Self)
        ensures
            r@ == (CommentView { id: id@, author: author@, cdate: cdate@, body: body@ }),
    {
        Comment { id, author, cdate, body }
    }

    /// The identifier.
    pub fn id(&self) -> (r: &str)
        ensures
            r@ == self@.id,
    {
        self.id.id().as_str()
    }

    /// The text.
    pub fn body(&self) -> (r: &str)
        ensures
            r@ == self@.body,
    {
        self.body.as_str()
    }

    /// The author.
    pub fn author(&self) -> (r: &str)
        ensures
            r@ == self@.author,
    {
        self.author.as_str()
    }

    /// The time of creation.
    pub fn cdate(&self) -> (r: &Timestamp)
        ensures
            r@ == self@.cdate,
    {
        &self.cdate
    }

    /// Whether this comment was created before `other`.
    pub fn before(&self, other: &Comment) -> (r: bool)
        ensures
            r == (self@.cdate.unix_nanos < other@.cdate.unix_nanos),
    {
        self.cdate.before(&other.cdate)
    }
}

/// Whether `comments` are in the order of their creation, the earliest first.
pub open spec fn by_creation(comments: Seq<CommentView>) -> bool {
    forall|i: int, j: int|
        0 <= i < j < comments.len() ==> comments[i].cdate.unix_nanos
            <= comments[j].cdate.unix_nanos
}

impl DataSource {
    /// The comments in the order of their creation, the earliest first.
    pub fn comments(list: Vec<Comment>) -> (r: Vec<Comment>)
        ensures
            by_creation(r.deep_view()),
            r.deep_view().to_multiset() == list.deep_view().to_multiset(),
    {
        let mut list = list;
        let ghost all = list.deep_view();
        let mut out: Vec<Comment> = Vec::new();
        assert(out.deep_view() =~= Seq::<CommentView>::empty());
        assert(out.deep_view().to_multiset().add(all.to_multiset()) =~= all.to_multiset()) by {
            out.deep_view().to_multiset_ensures();
        }
        while list.len() > 0
            invariant
                by_creation(out.deep_view()),
                out.deep_view().to_multiset().add(list.deep_view().to_multiset())
                    == all.to_multiset(),
            decreases list.len(),
        {
            let ghost rest = list.deep_view();
            let ghost sorted = out.deep_view();
            let next = list.remove(0);
            assert(list.deep_view() =~= rest.remove(0));
            assert(rest[0] == next@);
            let mut at: usize = out.len();
            while at > 0 && next.before(&out[at - 1])
                invariant
                    at <= out.len(),
                    out.deep_view() == sorted,
                    forall|k: int|
                        at <= k < sorted.len() ==> next@.cdate.unix_nanos
                            < sorted[k].cdate.unix_nanos,
                decreases at,
            {
                assert(sorted[at - 1] == out@[at - 1]@);
                at -= 1;
            }
            if at > 0 {
                assert(sorted[at - 1] == out@[at - 1]@);
            }
            out.insert(at, next);
            assert(out.deep_view() =~= sorted.insert(at as int, next@));
            proof {
                vstd::seq_lib::to_multiset_insert(sorted, at as int, next@);
                vstd::seq_lib::to_multiset_remove(rest, 0);
                assert(rest.to_multiset() =~= rest.remove(0).to_multiset().insert(next@)) by {
                    broadcast use vstd::multiset::group_multiset_axioms;

                    rest.to_multiset_ensures();
                    assert(rest.contains(rest[0]));
                }
                assert(out.deep_view().to_multiset().add(list.deep_view().to_multiset())
                    =~= sorted.to_multiset().add(rest.to_multiset()));
                let now = out.deep_view();
                assert forall|i: int, j: int| 0 <= i < j < now.len() implies now[i].cdate.unix_nanos
                    <= now[j].cdate.unix_nanos by {
                    if j < at {
                        assert(now[i] == sorted[i] && now[j] == sorted[j]);
                    } else if j == at {
                        assert(now[i] == sorted[i]);
                        if i < at - 1 {
                            assert(sorted[i].cdate.unix_nanos <= sorted[at - 1].cdate.unix_nanos);
                        }
                    } else if i < at {
                        assert(now[i] == sorted[i] && now[j] == sorted[j - 1]);
                    } else if i == at {
                        assert(now[j] == sorted[j - 1]);
                    } else {
                        assert(now[i] == sorted[i - 1] && now[j] == sorted[j - 1]);
                    }
                }
            }
        }
        assert(list.deep_view() =~= Seq::<CommentView>::empty());
        assert(out.deep_view().to_multiset().add(Seq::<CommentView>::empty().to_multiset())
            =~= out.deep_view().to_multiset());
        out
    }
}

/// A part of a pattern: a field of the issue, or text that stands for itself.
#[derive(Debug)]
pub enum PlaceHolders {
    CreationDate,
    DueDate,
    Description,
    Id,
    Milestone,
    Tags,
    ShortId,
    Text(String),
}

/// A `PlaceHolders` with its text as a sequence of characters.
pub enum PlaceHolderView {
    CreationDate,
    DueDate,
    Description,
    Id,
    Milestone,
    Tags,
    ShortId,
    Text(Seq<char>),
}

impl View for PlaceHolders {
    type V = PlaceHolderView;

    open spec fn view(&self) -> PlaceHolderView {
        match *self {
            PlaceHolders::CreationDate => PlaceHolderView::CreationDate,
            PlaceHolders::DueDate => PlaceHolderView::DueDate,
            PlaceHolders::Description => PlaceHolderView::Description,
            PlaceHolders::Id => PlaceHolderView::Id,
            PlaceHolders::Milestone => PlaceHolderView::Milestone,
            PlaceHolders::Tags => PlaceHolderView::Tags,
            PlaceHolders::ShortId => PlaceHolderView::ShortId,
            PlaceHolders::Text(text) => PlaceHolderView::Text(text@),
        }
    }
}

impl DeepView for PlaceHolders {
    type V = PlaceHolderView;

    open spec fn deep_view(&self) -> PlaceHolderView {
        self@
    }
}

/// The pattern that `value` stands for: the patterns named `simple`, `oneline` and
/// `short`, and else `value` itself.
pub open spec fn pattern_of(value: Seq<char>) -> Seq<char> {
    if value == "simple"@ {
        "%i %D"@
    } else if value == "oneline"@ {
        "ID: %i  Date: %c  Tags: %T  Desc: %D"@
    } else if value == "short"@ {
        "ID: %i%nDate: %c%nDue Date: %d%nTags: %T%nDescription: %D"@
    } else {
        value
    }
}

/// The field that the letter `c` names behind a percent sign.
pub open spec fn placeholder_of(c: char) -> Option<PlaceHolderView> {
    if c == 'i' {
        Some(PlaceHolderView::ShortId)
    } else if c == 'I' {
        Some(PlaceHolderView::Id)
    } else if c == 'D' {
        Some(PlaceHolderView::Description)
    } else if c == 'M' {
        Some(PlaceHolderView::Milestone)
    } else if c == 'c' {
        Some(PlaceHolderView::CreationDate)
    } else if c == 'd' {
        Some(PlaceHolderView::DueDate)
    } else if c == 'T' {
        Some(PlaceHolderView::Tags)
    } else {
        None
    }
}

/// The parts `out`, followed by the text `cur` where it is not empty.
pub open spec fn flushed(out: Seq<PlaceHolderView>, cur: Seq<char>) -> Seq<PlaceHolderView> {
    if cur.len() > 0 {
        out.push(PlaceHolderView::Text(cur))
    } else {
        out
    }
}

/// What is said of a percent sign followed by the letter `c`, which names no field.
pub open spec fn unexpected(c: char) -> Seq<char> {
    "Unexpected formatstring place holder '%"@.push(c).push('\'')
}

/// What is said of a percent sign at the end of a pattern.
pub open spec fn premature() -> Seq<char> {
    "Premature end of string. Expected placeholder"@
}

/// The parts of the pattern `s`, read after the parts `out` and the text `cur`.
/// A percent sign with the letter of a field is that field; `%%` is a percent sign
/// and `%n` a line feed, both as text; every other character is text. A percent
/// sign with another letter, or at the end, makes the pattern wrong.
pub open spec fn scanned(s: Seq<char>, cur: Seq<char>, out: Seq<PlaceHolderView>) -> Result<
    Seq<PlaceHolderView>,
    Seq<char>,
>
    decreases s.len(),
{
    if s.len() == 0 {
        Ok(flushed(out, cur))
    } else if s[0] != '%' {
        scanned(s.drop_first(), cur.push(s[0]), out)
    } else if s.len() == 1 {
        Err(premature())
    } else {
        let rest = s.subrange(2, s.len() as int);
        if s[1] == '%' {
            scanned(rest, cur.push('%'), out)
        } else if s[1] == 'n' {
            scanned(rest, cur.push('\n'), out)
        } else {
            match placeholder_of(s[1]) {
                Some(field) => scanned(rest, Seq::empty(), flushed(out, cur).push(field)),
                None => Err(unexpected(s[1])),
            }
        }
    }
}

/// The parts of the pattern that `value` stands for.
pub open spec fn parts_of(value: Seq<char>) -> Result<Seq<PlaceHolderView>, Seq<char>> {
    scanned(pattern_of(value), Seq::empty(), Seq::empty())
}

/// A pattern by which an issue is written out.
#[derive(Debug)]
pub struct FormatString(pub Vec<PlaceHolders>);

impl View for FormatString {
    type V = Seq<PlaceHolderView>;

    open spec fn view(&self) -> Seq<PlaceHolderView> {
        self.0.deep_view()
    }
}

/// The result of reading a pattern with its texts as sequences of characters.
pub open spec fn read_pattern(r: Result<FormatString, String>) -> Result<
    Seq<PlaceHolderView>,
    Seq<char>,
> {
    match r {
        Ok(pattern) => Ok(pattern@),
        Err(message) => Err(message@),
    }
}

/// The field that the letter `c` names.
fn placeholder(c: char) -> (r: Option<PlaceHolders>)
    ensures
        r.deep_view() == placeholder_of(c),
{
    if c == 'i' {
        Some(PlaceHolders::ShortId)
    } else if c == 'I' {
        Some(PlaceHolders::Id)
    } else if c == 'D' {
        Some(PlaceHolders::Description)
    } else if c == 'M' {
        Some(PlaceHolders::Milestone)
    } else if c == 'c' {
        Some(PlaceHolders::CreationDate)
    } else if c == 'd' {
        Some(PlaceHolders::DueDate)
    } else if c == 'T' {
        Some(PlaceHolders::Tags)
    } else {
        None
    }
}

/// Ends the text `cur`: it becomes a part of `out` where it is not empty.
fn flush(out: &mut Vec<PlaceHolders>, cur: String)
    ensures
        final(out).deep_view() == flushed(old(out).deep_view(), cur@),
{
    if cur.as_str().unicode_len() > 0 {
        let ghost before = out.deep_view();
        out.push(PlaceHolders::Text(cur));
        assert(out.deep_view() =~= before.push(PlaceHolderView::Text(cur@)));
    }
}

impl FormatString {
    /// Reads a pattern, or says what is wrong with it.
    pub fn try_from(value: &str) -> (r: Result<FormatString, String>)
        ensures
            read_pattern(r) == parts_of(value@),
    {
        let pattern: &str = if str_eq(value, "simple") {
            "%i %D"
        } else if str_eq(value, "oneline") {
            "ID: %i  Date: %c  Tags: %T  Desc: %D"
        } else if str_eq(value, "short") {
            "ID: %i%nDate: %c%nDue Date: %d%nTags: %T%nDescription: %D"
        } else {
            value
        };
        let chars = chars_of(pattern);
        let n: usize = chars.len();
        let mut out: Vec<PlaceHolders> = Vec::new();
        let mut cur = String::new();
        let mut i: usize = 0;
        assert(chars@.subrange(0, n as int) =~= chars@);
        assert(out.deep_view() =~= Seq::<PlaceHolderView>::empty());
        while i < n
            invariant
                i <= n,
                n == chars.len(),
                chars@ == pattern_of(value@),
                parts_of(value@) == scanned(
                    chars@.subrange(i as int, n as int),
                    cur@,
                    out.deep_view(),
                ),
            decreases n - i,
        {
            let ghost rest = chars@.subrange(i as int, n as int);
            assert(rest[0] == chars@[i as int]);
            let c = chars[i];
            if c != '%' {
                push_char(&mut cur, c);
                assert(rest.drop_first() =~= chars@.subrange(i + 1, n as int));
                i += 1;
            } else if i + 1 == n {
                return Err(String::from_str("Premature end of string. Expected placeholder"));
            } else {
                assert(rest[1] == chars@[i + 1]);
                assert(rest.subrange(2, rest.len() as int) =~= chars@.subrange(i + 2, n as int));
                let letter = chars[i + 1];
                if letter == '%' {
                    push_char(&mut cur, '%');
                } else if letter == 'n' {
                    push_char(&mut cur, '\n');
                } else {
                    match placeholder(letter) {
                        Some(field) => {
                            flush(&mut out, cur);
                            let ghost before = out.deep_view();
                            out.push(field);
                            assert(out.deep_view() =~= before.push(field@));
                            cur = String::new();
                        },
                        None => {
                            let mut message = String::from_str(
                                "Unexpected formatstring place holder '%",
                            );
                            push_char(&mut message, letter);
                            push_char(&mut message, '\'');
                            return Err(message);
                        },
                    }
                }
                i += 2;
            }
        }
        flush(&mut out, cur);
        Ok(FormatString(out))
    }
}

/// An issue and those of its fields that have been read. A field is read once,
/// by the `cache_` function of its name, and is there to be asked for from then on.
#[derive(Debug)]
pub struct Issue {
    id: Id,
    inner_cdate: Cache<Timestamp>,
    inner_comments: Cache<Vec<Comment>>,
    inner_ddate: Cache<Option<Timestamp>>,
    inner_desc: Cache<String>,
    inner_milestone: Cache<Option<String>>,
    inner_tags: Cache<Vec<String>>,
}

/// An `Issue` with its texts as sequences of characters. A field that has not been
/// read is `None`.
pub struct IssueView {
    pub id: Seq<char>,
    pub cdate: Option<TimestampView>,
    pub comments: Option<Seq<CommentView>>,
    pub ddate: Option<Option<TimestampView>>,
    pub desc: Option<Seq<char>>,
    pub milestone: Option<Option<Seq<char>>>,
    pub tags: Option<Seq<Seq<char>>>,
}

impl View for Issue {
    type V = IssueView;

    closed spec fn view(&self) -> IssueView {
        IssueView {
            id: self.id@,
            cdate: self.inner_cdate.deep_view(),
            comments: self.inner_comments.deep_view(),
            ddate: self.inner_ddate.deep_view(),
            desc: self.inner_desc.deep_view(),
            milestone: self.inner_milestone.deep_view(),
            tags: self.inner_tags.deep_view(),
        }
    }
}

impl DeepView for Issue {
    type V = IssueView;

    open spec fn deep_view(&self) -> IssueView {
        self@
    }
}

/// The issue `id` with none of its fields read.
pub open spec fn unread(id: Seq<char>) -> IssueView {
    IssueView {
        id,
        cdate: None,
        comments: None,
        ddate: None,
        desc: None,
        milestone: None,
        tags: None,
    }
}

/// Those of `list` that were read, in their order.
pub open spec fn successes(list: Seq<Result<Comment, IoError>>) -> Seq<CommentView>
    decreases list.len(),
{
    if list.len() == 0 {
        Seq::empty()
    } else {
        match list.last() {
            Ok(comment) => successes(list.drop_last()).push(comment@),
            Err(_) => successes(list.drop_last()),
        }
    }
}

/// The failures of `list`, in their order, each as a failure to cache.
pub open spec fn failures(list: Seq<Result<Comment, IoError>>) -> Seq<Result<(), CacheError>>
    decreases list.len(),
{
    if list.len() == 0 {
        Seq::empty()
    } else {
        match list.last() {
            Ok(_) => failures(list.drop_last()),
            Err(e) => failures(list.drop_last()).push(Err(CacheError::Io(e))),
        }
    }
}

impl Issue {
    /// The issue `id`, with none of its fields read.
    pub fn new(id: Id) -> (r: Issue)
        ensures
            r@ == unread(id@),
    {
        Issue {
            id,
            inner_cdate: None,
            inner_comments: None,
            inner_ddate: None,
            inner_desc: None,
            inner_milestone: None,
            inner_tags: None,
        }
    }

    /// The identifier.
    pub fn id(&self) -> (r: &Id)
        ensures
            r@ == self@.id,
    {
        &self.id
    }

    /// Whether the issue is closed: whether it has the tag `closed`.
    pub fn is_closed(&self) -> (r: bool)
        requires
            self@.tags is Some,
        ensures
            r == self@.tags->0.contains("closed"@),
    {
        contains(self.tags(), "closed")
    }

    /// Whether the creation date has been read.
    pub fn has_cdate(&self) -> (r: bool)
        ensures
            r == self@.cdate is Some,
    {
        self.inner_cdate.is_some()
    }

    /// Whether the comments have been read.
    pub fn has_comments(&self) -> (r: bool)
        ensures
            r == self@.comments is Some,
    {
        self.inner_comments.is_some()
    }

    /// Whether the due date has been read.
    pub fn has_ddate(&self) -> (r: bool)
        ensures
            r == self@.ddate is Some,
    {
        self.inner_ddate.is_some()
    }

    /// Whether the description has been read.
    pub fn has_desc(&self) -> (r: bool)
        ensures
            r == self@.desc is Some,
    {
        self.inner_desc.is_some()
    }

    /// Whether the milestone has been read.
    pub fn has_milestone(&self) -> (r: bool)
        ensures
            r == self@.milestone is Some,
    {
        self.inner_milestone.is_some()
    }

    /// Whether the tags have been read.
    pub fn has_tags(&self) -> (r: bool)
        ensures
            r == self@.tags is Some,
    {
        self.inner_tags.is_some()
    }

    /// Keeps the creation date, unless it is kept already. `shown` is what git
    /// shows as the author date of the commit that the identifier names, or the
    /// failure to ask it.
    pub fn cache_cdate(&mut self, shown: Result<String, IoError>) -> (r: Result<(), CacheError>)
        requires
            old(self)@.cdate is None ==> (shown matches Ok(text) ==> rfc3339(trimmed(text@))
                is Some),
        ensures
            match (old(self)@.cdate, shown) {
                (Some(_), _) => r is Ok && final(self)@ == old(self)@,
                (None, Ok(text)) => r is Ok && final(self)@ == (IssueView {
                    cdate: rfc3339(trimmed(text@)),
                    ..old(self)@
                }),
                (None, Err(e)) => r == Err::<(), CacheError>(CacheError::Io(e)) && final(self)@
                    == old(self)@,
            },
    {
        if self.inner_cdate.is_none() {
            match shown {
                Ok(text) => {
                    self.inner_cdate = Some(Timestamp::read(trim(text.as_str())));
                },
                Err(e) => {
                    return Err(CacheError::Io(e));
                },
            }
        }
        Ok(())
    }

    /// Keeps the creation date as `cache_cdate` does, where what git shows is a
    /// date. Where it is none, nothing is kept and the result is `None`.
    pub fn try_cache_cdate(&mut self, shown: Result<String, IoError>) -> (r: Option<
        Result<(), CacheError>,
    >)
        ensures
            match (old(self)@.cdate, shown) {
                (Some(_), _) => r matches Some(Ok(_)) && final(self)@ == old(self)@,
                (None, Ok(text)) => match rfc3339(trimmed(text@)) {
                    Some(date) => r matches Some(Ok(_)) && final(self)@ == (IssueView {
                        cdate: Some(date),
                        ..old(self)@
                    }),
                    None => r is None && final(self)@ == old(self)@,
                },
                (None, Err(e)) => r == Some(Err::<(), CacheError>(CacheError::Io(e)))
                    && final(self)@ == old(self)@,
            },
    {
        if self.inner_cdate.is_none() {
            if let Ok(text) = &shown {
                if Timestamp::try_read(trim(text.as_str())).is_none() {
                    return None;
                }
            }
        }
        Some(self.cache_cdate(shown))
    }

    /// Keeps the comments, unless they are kept already: those of `read` that were
    /// read. Returns the failures of `read`, or one success where the comments were
    /// kept already.
    pub fn cache_comments(&mut self, read: Vec<Result<Comment, IoError>>) -> (r: Vec<
        Result<(), CacheError>,
    >)
        ensures
            match old(self)@.comments {
                Some(_) => r@ == seq![Ok::<(), CacheError>(())] && final(self)@ == old(self)@,
                None => r@ == failures(read@) && final(self)@ == (IssueView {
                    comments: Some(successes(read@)),
                    ..old(self)@
                }),
            },
    {
        if self.inner_comments.is_none() {
            let ghost all = read@;
            let mut read = read;
            let mut comments: Vec<Comment> = Vec::new();
            let mut failed: Vec<Result<(), CacheError>> = Vec::new();
            assert(comments.deep_view() =~= Seq::<CommentView>::empty());
            // taken from the end, put back in order below
            let mut back_comments: Vec<Comment> = Vec::new();
            let mut back_failed: Vec<Result<(), CacheError>> = Vec::new();
            assert(back_comments.deep_view() =~= Seq::<CommentView>::empty());
            while read.len() > 0
                invariant
                    read@.is_prefix_of(all),
                    successes(all) == successes(read@) + back_comments.deep_view().reverse(),
                    failures(all) == failures(read@) + back_failed@.reverse(),
                decreases read.len(),
            {
                let ghost before = read@;
                let ghost taken_c = back_comments.deep_view();
                let ghost taken_f = back_failed@;
                let item = read.pop();
                assert(read@ =~= before.drop_last());
                match item {
                    Some(Ok(comment)) => {
                        assert(before.last() == Ok::<Comment, IoError>(comment));
                        back_comments.push(comment);
                        assert(back_comments.deep_view() =~= taken_c.push(comment@));
                        assert(successes(before.drop_last()).push(comment@) + taken_c.reverse()
                            =~= successes(before.drop_last()) + taken_c.push(comment@).reverse());
                    },
                    Some(Err(e)) => {
                        assert(before.last() == Err::<Comment, IoError>(e));
                        back_failed.push(Err(CacheError::Io(e)));
                        assert(failures(before.drop_last()).push(Err(CacheError::Io(e)))
                            + taken_f.reverse() =~= failures(before.drop_last()) + taken_f.push(
                            Err(CacheError::Io(e)),
                        ).reverse());
                    },
                    None => {},
                }
            }
            assert(successes(read@) =~= Seq::<CommentView>::empty());
            assert(failures(read@) =~= Seq::<Result<(), CacheError>>::empty());
            let ghost rc = back_comments.deep_view();
            let ghost rf = back_failed@;
            while back_comments.len() > 0
                invariant
                    comments.deep_view() + back_comments.deep_view().reverse() == rc.reverse(),
                decreases back_comments.len(),
            {
                let ghost b = back_comments.deep_view();
                let ghost c = comments.deep_view();
                if let Some(comment) = back_comments.pop() {
                    assert(back_comments.deep_view() =~= b.drop_last());
                    assert(b.last() == comment@);
                    comments.push(comment);
                    assert(comments.deep_view() =~= c.push(comment@));
                    assert(c.push(comment@) + b.drop_last().reverse() =~= c + b.reverse());
                }
            }
            assert(back_comments.deep_view().reverse() =~= Seq::<CommentView>::empty());
            while back_failed.len() > 0
                invariant
                    failed@ + back_failed@.reverse() == rf.reverse(),
                decreases back_failed.len(),
            {
                let ghost b = back_failed@;
                let ghost c = failed@;
                if let Some(failure) = back_failed.pop() {
                    failed.push(failure);
                    assert(c.push(failure) + b.drop_last().reverse() =~= c + b.reverse());
                }
            }
            assert(back_failed@.reverse() =~= Seq::<Result<(), CacheError>>::empty());
            assert(comments.deep_view() =~= successes(all));
            assert(failed@ =~= failures(all));
            self.inner_comments = Some(comments);
            failed
        } else {
            let mut r: Vec<Result<(), CacheError>> = Vec::new();
            r.push(Ok(()));
            r
        }
    }

    /// Keeps the due date, unless it is kept already: the date that the file of the
    /// due date holds, none where the file could not be read.
    pub fn cache_ddate(&mut self, raw: Result<String, IoError>) -> (r: Result<(), CacheError>)
        requires
            old(self)@.ddate is None ==> (raw matches Ok(text) ==> rfc3339(without_final_feed(text@))
                is Some),
        ensures
            r is Ok,
            match (old(self)@.ddate, raw) {
                (Some(_), _) => final(self)@ == old(self)@,
                (None, Ok(text)) => final(self)@ == (IssueView {
                    ddate: Some(rfc3339(without_final_feed(text@))),
                    ..old(self)@
                }),
                (None, Err(_)) => final(self)@ == (IssueView { ddate: Some(None), ..old(self)@ }),
            },
    {
        if self.inner_ddate.is_none() {
            let date = match raw {
                Ok(text) => Some(Timestamp::read(strip_final_feed(text.as_str()))),
                Err(_) => None,
            };
            self.inner_ddate = Some(date);
        }
        Ok(())
    }

    /// Keeps the due date as `cache_ddate` does, where the file holds a date or
    /// could not be read. Where it holds something else, nothing is kept and the
    /// result is `None`.
    pub fn try_cache_ddate(&mut self, raw: Result<String, IoError>) -> (r: Option<
        Result<(), CacheError>,
    >)
        ensures
            match (old(self)@.ddate, raw) {
                (Some(_), _) => r matches Some(Ok(_)) && final(self)@ == old(self)@,
                (None, Ok(text)) => match rfc3339(without_final_feed(text@)) {
                    Some(date) => r matches Some(Ok(_)) && final(self)@ == (IssueView {
                        ddate: Some(Some(date)),
                        ..old(self)@
                    }),
                    None => r is None && final(self)@ == old(self)@,
                },
                (None, Err(_)) => r matches Some(Ok(_)) && final(self)@ == (IssueView {
                    ddate: Some(None),
                    ..old(self)@
                }),
            },
    {
        if self.inner_ddate.is_none() {
            if let Ok(text) = &raw {
                if Timestamp::try_read(strip_final_feed(text.as_str())).is_none() {
                    return None;
                }
            }
        }
        Some(self.cache_ddate(raw))
    }

    /// Keeps the description, unless it is kept already: what the description file
    /// holds. Fails where the file could not be read.
    pub fn cache_desc(&mut self, raw: Result<String, IoError>) -> (r: Result<(), CacheError>)
        ensures
            match (old(self)@.desc, raw) {
                (Some(_), _) => r is Ok && final(self)@ == old(self)@,
                (None, Ok(text)) => r is Ok && final(self)@ == (IssueView {
                    desc: Some(without_final_feed(text@)),
                    ..old(self)@
                }),
                (None, Err(e)) => r == Err::<(), CacheError>(CacheError::Io(e)) && final(self)@
                    == old(self)@,
            },
    {
        if self.inner_desc.is_none() {
            match raw {
                Ok(text) => {
                    self.inner_desc = Some(DataSource::read(text.as_str()));
                },
                Err(e) => {
                    return Err(CacheError::Io(e));
                },
            }
        }
        Ok(())
    }

    /// Keeps the milestone, unless it is kept already: what the milestone file
    /// holds, none where the file could not be read.
    pub fn cache_milestone(&mut self, raw: Result<String, IoError>) -> (r: Result<(), CacheError>)
        ensures
            r is Ok,
            match (old(self)@.milestone, raw) {
                (Some(_), _) => final(self)@ == old(self)@,
                (None, Ok(text)) => final(self)@ == (IssueView {
                    milestone: Some(Some(without_final_feed(text@))),
                    ..old(self)@
                }),
                (None, Err(_)) => final(self)@ == (IssueView {
                    milestone: Some(None),
                    ..old(self)@
                }),
            },
    {
        if self.inner_milestone.is_none() {
            let milestone = match raw {
                Ok(text) => Some(DataSource::read(text.as_str())),
                Err(_) => None,
            };
            self.inner_milestone = Some(milestone);
        }
        Ok(())
    }

    /// Keeps the tags, unless they are kept already: those that the tags file
    /// names. Fails where the file could not be read.
    pub fn cache_tags(&mut self, raw: Result<String, IoError>) -> (r: Result<(), CacheError>)
        ensures
            match (old(self)@.tags, raw) {
                (Some(_), _) => r is Ok && final(self)@ == old(self)@,
                (None, Ok(text)) => r is Ok && final(self)@ == (IssueView {
                    tags: Some(tags_of(Some(text@))),
                    ..old(self)@
                }),
                (None, Err(e)) => r == Err::<(), CacheError>(CacheError::Io(e)) && final(self)@
                    == old(self)@,
            },
    {
        if self.inner_tags.is_none() {
            match raw {
                Ok(text) => {
                    self.inner_tags = Some(DataSource::tags(&Some(text)));
                },
                Err(e) => {
                    return Err(CacheError::Io(e));
                },
            }
        }
        Ok(())
    }

    /// The creation date, which has been read.
    pub fn cdate(&self) -> (r: &Timestamp)
        requires
            self@.cdate is Some,
        ensures
            r@ == self@.cdate->0,
    {
        self.inner_cdate.as_ref().unwrap()
    }

    /// The comments, which have been read.
    pub fn comments(&self) -> (r: &Vec<Comment>)
        requires
            self@.comments is Some,
        ensures
            r.deep_view() == self@.comments->0,
    {
        self.inner_comments.as_ref().unwrap()
    }

    /// The due date, which has been read.
    pub fn ddate(&self) -> (r: &Option<Timestamp>)
        requires
            self@.ddate is Some,
        ensures
            r.deep_view() == self@.ddate->0,
    {
        self.inner_ddate.as_ref().unwrap()
    }

    /// The description, which has been read.
    pub fn desc(&self) -> (r: &String)
        requires
            self@.desc is Some,
        ensures
            r@ == self@.desc->0,
    {
        self.inner_desc.as_ref().unwrap()
    }

    /// The milestone, which has been read.
    pub fn milestone(&self) -> (r: &Option<String>)
        requires
            self@.milestone is Some,
        ensures
            r.deep_view() == self@.milestone->0,
    {
        self.inner_milestone.as_ref().unwrap()
    }

    /// The tags, which have been read.
    pub fn tags(&self) -> (r: &Vec<String>)
        requires
            self@.tags is Some,
        ensures
            r.deep_view() == self@.tags->0,
    {
        self.inner_tags.as_ref().unwrap()
    }

    /// The title: the first line of the description, which has been read.
    pub fn title(&self) -> (r: String)
        requires
            self@.desc is Some,
        ensures
            r@ == first_line_of(self@.desc->0),
    {
        first_line(self.desc().as_str())
    }
}

/// What the part `part` shows of `issue`. A field that has not been read, or is
/// not set, shows as nothing; the description shows as its first line alone, the
/// tags with a space between each two.
pub open spec fn shown(part: PlaceHolderView, issue: IssueView) -> Seq<char> {
    match part {
        PlaceHolderView::CreationDate => match issue.cdate {
            Some(date) => date.text,
            None => Seq::empty(),
        },
        PlaceHolderView::DueDate => match issue.ddate {
            Some(Some(date)) => date.text,
            _ => Seq::empty(),
        },
        PlaceHolderView::Description => match issue.desc {
            Some(desc) => first_line_of(desc),
            None => Seq::empty(),
        },
        PlaceHolderView::Id => issue.id,
        PlaceHolderView::ShortId => issue.id.subrange(0, 8),
        PlaceHolderView::Milestone => match issue.milestone {
            Some(Some(milestone)) => milestone,
            _ => Seq::empty(),
        },
        PlaceHolderView::Tags => match issue.tags {
            Some(tags) => joined(tags, " "@),
            None => Seq::empty(),
        },
        PlaceHolderView::Text(text) => text,
    }
}

/// What the parts show of `issue`, one after the other.
pub open spec fn formatted(parts: Seq<PlaceHolderView>, issue: IssueView) -> Seq<char>
    decreases parts.len(),
{
    if parts.len() == 0 {
        Seq::empty()
    } else {
        formatted(parts.drop_last(), issue) + shown(parts.last(), issue)
    }
}

/// The fields of an issue that are read from its files or from git.
#[derive(Debug, Clone, Copy, PartialEq, Eq, Structural)]
pub struct Fields {
    pub cdate: bool,
    pub ddate: bool,
    pub desc: bool,
    pub milestone: bool,
    pub tags: bool,
}

impl Issue {
    /// What `part` shows of the issue.
    fn show(&self, part: &PlaceHolders) -> (r: String)
        requires
            part is ShortId ==> self@.id.len() >= 8,
        ensures
            r@ == shown(part@, self@),
    {
        match part {
            PlaceHolders::CreationDate => match &self.inner_cdate {
                Some(date) => date.to_text(),
                None => String::new(),
            },
            PlaceHolders::DueDate => match &self.inner_ddate {
                Some(Some(date)) => date.to_text(),
                _ => String::new(),
            },
            PlaceHolders::Description => match &self.inner_desc {
                Some(_) => self.title(),
                None => String::new(),
            },
            PlaceHolders::Id => self.id.id().clone(),
            PlaceHolders::ShortId => self.id.short_id().to_owned(),
            PlaceHolders::Milestone => match &self.inner_milestone {
                Some(Some(milestone)) => milestone.clone(),
                _ => String::new(),
            },
            PlaceHolders::Tags => match &self.inner_tags {
                Some(tags) => join(tags, " "),
                None => String::new(),
            },
            PlaceHolders::Text(text) => text.clone(),
        }
    }
}

impl FormatString {
    /// The issue written out by the pattern. A field shows as nothing where it has
    /// not been read: read the fields that `needs` names before.
    pub fn format(&self, issue: &Issue) -> (r: String)
        requires
            self@.contains(PlaceHolderView::ShortId) ==> issue@.id.len() >= 8,
        ensures
            r@ == formatted(self@, issue@),
    {
        let mut r = String::new();
        let mut i: usize = 0;
        assert(self@.take(0) =~= Seq::<PlaceHolderView>::empty());
        while i < self.0.len()
            invariant
                i <= self.0.len(),
                self@.contains(PlaceHolderView::ShortId) ==> issue@.id.len() >= 8,
                r@ == formatted(self@.take(i as int), issue@),
            decreases self.0.len() - i,
        {
            let ghost next = self@.take(i + 1);
            assert(next.drop_last() =~= self@.take(i as int));
            assert(next.last() == self.0@[i as int]@);
            assert(self@[i as int] == self.0@[i as int]@);
            let text = issue.show(&self.0[i]);
            r.append(text.as_str());
            i += 1;
        }
        assert(self@.take(self.0.len() as int) =~= self@);
        r
    }

    /// The fields that the pattern shows.
    pub fn needs(&self) -> (r: Fields)
        ensures
            r.cdate == self@.contains(PlaceHolderView::CreationDate),
            r.ddate == self@.contains(PlaceHolderView::DueDate),
            r.desc == self@.contains(PlaceHolderView::Description),
            r.milestone == self@.contains(PlaceHolderView::Milestone),
            r.tags == self@.contains(PlaceHolderView::Tags),
    {
        let mut r = Fields { cdate: false, ddate: false, desc: false, milestone: false, tags: false };
        let mut i: usize = 0;
        while i < self.0.len()
            invariant
                i <= self.0.len(),
                r.cdate == self@.take(i as int).contains(PlaceHolderView::CreationDate),
                r.ddate == self@.take(i as int).contains(PlaceHolderView::DueDate),
                r.desc == self@.take(i as int).contains(PlaceHolderView::Description),
                r.milestone == self@.take(i as int).contains(PlaceHolderView::Milestone),
                r.tags == self@.take(i as int).contains(PlaceHolderView::Tags),
            decreases self.0.len() - i,
        {
            let ghost done = self@.take(i as int);
            let ghost next = self@.take(i + 1);
            assert(next =~= done.push(self.0@[i as int]@));
            assert forall|p: PlaceHolderView| next.contains(p) <==> (done.contains(p) || p
                == self.0@[i as int]@) by {
                if next.contains(p) {
                    let k = choose|k: int| 0 <= k < next.len() && next[k] == p;
                    if k < i {
                        assert(done[k] == p);
                    }
                }
                if done.contains(p) {
                    let k = choose|k: int| 0 <= k < done.len() && done[k] == p;
                    assert(next[k] == p);
                }
                if p == self.0@[i as int]@ {
                    assert(next[i as int] == p);
                }
            }
            match &self.0[i] {
                PlaceHolders::CreationDate => {
                    r.cdate = true;
                },
                PlaceHolders::DueDate => {
                    r.ddate = true;
                },
                PlaceHolders::Description => {
                    r.desc = true;
                },
                PlaceHolders::Milestone => {
                    r.milestone = true;
                },
                PlaceHolders::Tags => {
                    r.tags = true;
                },
                _ => {},
            }
            i += 1;
        }
        assert(self@.take(self.0.len() as int) =~= self@);
        r
    }
}

} // verus!
