//! The property store: what the files of an issue say, and what a change to an
//! issue writes.
//!
//! A read takes the text of the property's file as it was read, `None` where the
//! file could not be read. A change takes what it has to know of the issue and
//! returns the writes to carry out, in order, each with its commit.

use vstd::prelude::*;
use crate::date::{Timestamp, rfc3339};
use crate::errors::IoError;
use crate::id::{Id, issue_dir};
use crate::lines::{
    all_plain_or_empty, first_line, first_line_of, is_line, is_plain, lemma_lines_hold_no_feed,
    lemma_lines_of_trimmed, lemma_lines_of_written, lemma_trimmed_without_final_feed,
    lemma_without_empty_head, lemma_without_final_feed, lines, lines_of, strip_final_feed,
    without_empty_head, without_final_feed,
};
use crate::order::{
    ascending, ascending_of, contains, differs_from, lemma_ascending_exists,
    lemma_ascending_no_duplicates,
};
use crate::property::{
    Action, ChangeAction, Commit, CommitProperty, CommitPropertyView, CommitView, PropertyWrite,
    PropertyWriteView, WriteResult, changed_lines, description_content, lines_or_none, tags_content,
};
use crate::source::DataSource;
use crate::text::{str_eq, trim, trimmed, trimmed_end};

verus! {

/// The tags that a tags file names: its lines, whitespace around the whole text
/// aside; none where there is no file.
pub open spec fn tags_of(raw: Option<Seq<char>>) -> Seq<Seq<char>> {
    match raw {
        Some(text) => lines_of(trimmed(text)),
        None => Seq::empty(),
    }
}

/// The milestone that a milestone file names: its text without the line feed at
/// its end; none where there is no file.
pub open spec fn milestone_of(raw: Option<Seq<char>>) -> Option<Seq<char>> {
    match raw {
        Some(text) => Some(without_final_feed(text)),
        None => None,
    }
}

/// The title that a description file names: the first line of its text.
pub open spec fn title_of(description: Seq<char>) -> Seq<char> {
    first_line_of(without_final_feed(description))
}

/// The path of the file `file` of the issue `id` in the tracker at `dir`.
pub open spec fn file_path(dir: Seq<char>, id: Seq<char>, file: Seq<char>) -> Seq<char> {
    issue_dir(dir, id) + "/"@ + file
}

/// The write that carries out `change` on the issue `target`, whose property file
/// holds `existing` before: the file's new content and a commit with the change's
/// message, which is never empty and bypasses the hooks.
pub open spec fn write_of(
    dir: Seq<char>,
    target: Seq<char>,
    change: CommitPropertyView,
    existing: Option<Seq<char>>,
) -> PropertyWriteView {
    PropertyWriteView {
        path: file_path(dir, target, change.filename()),
        content: change.content(existing),
        commit: CommitView {
            message: change.message(target),
            allow_empty: false,
            bypass_hooks: true,
        },
    }
}

/// What a requested change comes to: whether it changes anything, and the writes
/// that make the change.
pub type Plan = (WriteResult, Seq<PropertyWriteView>);

/// The plan that changes nothing.
pub open spec fn no_changes() -> Plan {
    (WriteResult::NoChanges, Seq::empty())
}

/// The plan of the one write `change`.
pub open spec fn applied(
    dir: Seq<char>,
    id: Seq<char>,
    change: CommitPropertyView,
    existing: Option<Seq<char>>,
) -> Plan {
    (WriteResult::Applied, seq![write_of(dir, id, change, existing)])
}

/// Adding `tag` to an issue whose tags file holds `raw`.
pub open spec fn add_tag_plan(
    dir: Seq<char>,
    id: Seq<char>,
    tag: Seq<char>,
    raw: Option<Seq<char>>,
) -> Plan {
    if tags_of(raw).contains(tag) {
        no_changes()
    } else {
        applied(dir, id, CommitPropertyView::Tag { action: Action::Add, tag }, raw)
    }
}

/// Removing `tag` from an issue whose tags file holds `raw`.
pub open spec fn remove_tag_plan(
    dir: Seq<char>,
    id: Seq<char>,
    tag: Seq<char>,
    raw: Option<Seq<char>>,
) -> Plan {
    if tags_of(raw).contains(tag) {
        applied(dir, id, CommitPropertyView::Tag { action: Action::Remove, tag }, raw)
    } else {
        no_changes()
    }
}

/// Setting the milestone of an issue whose milestone file holds `raw`.
pub open spec fn add_milestone_plan(
    dir: Seq<char>,
    id: Seq<char>,
    milestone: Seq<char>,
    raw: Option<Seq<char>>,
) -> Plan {
    if milestone_of(raw) == Some(milestone) {
        no_changes()
    } else {
        applied(dir, id, CommitPropertyView::Milestone { action: Action::Add, milestone }, raw)
    }
}

/// Taking the milestone from an issue whose milestone file holds `raw`.
pub open spec fn remove_milestone_plan(dir: Seq<char>, id: Seq<char>, raw: Option<Seq<char>>) -> Plan {
    match milestone_of(raw) {
        Some(milestone) => applied(
            dir,
            id,
            CommitPropertyView::Milestone { action: Action::Remove, milestone },
            raw,
        ),
        None => no_changes(),
    }
}

/// What a property file holds once `plan` is carried out, the file holding `raw`
/// before and `plan` being about that file alone.
pub open spec fn after(plan: Plan, raw: Option<Seq<char>>) -> Option<Seq<char>> {
    if plan.1.len() > 0 {
        plan.1.last().content
    } else {
        raw
    }
}

/// Closing an issue whose tags file holds `raw`: the tag `open` goes, then the tag
/// `closed` comes.
pub open spec fn close_plan(dir: Seq<char>, id: Seq<char>, raw: Option<Seq<char>>) -> Plan {
    let gone = remove_tag_plan(dir, id, "open"@, raw);
    let come = add_tag_plan(dir, id, "closed"@, after(gone, raw));
    (
        if gone.0 == WriteResult::Applied || come.0 == WriteResult::Applied {
            WriteResult::Applied
        } else {
            WriteResult::NoChanges
        },
        gone.1 + come.1,
    )
}

/// The writes that give a new issue its first description and open it.
pub open spec fn new_description_writes(
    dir: Seq<char>,
    id: Seq<char>,
    text: Seq<char>,
    raw_tags: Option<Seq<char>>,
) -> Seq<PropertyWriteView> {
    seq![
        write_of(
            dir,
            id,
            CommitPropertyView::Description { action: ChangeAction::New, id, description: text },
            None,
        ),
        write_of(
            dir,
            id,
            CommitPropertyView::Tag { action: Action::Add, tag: "open"@ },
            raw_tags,
        ),
    ]
}

/// Adding `tag` to an issue, or removing it, as `action` says.
pub open spec fn tag_plan(
    dir: Seq<char>,
    id: Seq<char>,
    action: Action,
    tag: Seq<char>,
    raw: Option<Seq<char>>,
) -> Plan {
    match action {
        Action::Add => add_tag_plan(dir, id, tag, raw),
        Action::Remove => remove_tag_plan(dir, id, tag, raw),
    }
}

/// The writes that add `tags` one after the other to an issue whose tags file
/// holds `raw`, or remove them, as `action` says.
pub open spec fn tag_writes(
    dir: Seq<char>,
    id: Seq<char>,
    action: Action,
    tags: Seq<Seq<char>>,
    raw: Option<Seq<char>>,
) -> Seq<PropertyWriteView>
    decreases tags.len(),
{
    if tags.len() == 0 {
        Seq::empty()
    } else {
        let first = tag_plan(dir, id, action, tags[0], raw);
        first.1 + tag_writes(dir, id, action, tags.drop_first(), after(first, raw))
    }
}

/// Those of `tags` whose adding or removing changes the issue, in their order.
pub open spec fn tags_applied(
    dir: Seq<char>,
    id: Seq<char>,
    action: Action,
    tags: Seq<Seq<char>>,
    raw: Option<Seq<char>>,
) -> Seq<Seq<char>>
    decreases tags.len(),
{
    if tags.len() == 0 {
        Seq::empty()
    } else {
        let first = tag_plan(dir, id, action, tags[0], raw);
        (if first.0 == WriteResult::Applied {
            seq![tags[0]]
        } else {
            Seq::empty()
        }) + tags_applied(dir, id, action, tags.drop_first(), after(first, raw))
    }
}

/// The writes that create the issue `id`, which has no file yet: the description
/// and the tag `open`, then each of `tags` that the issue has not got by then,
/// then the milestone where one is given.
pub open spec fn creation_writes(
    dir: Seq<char>,
    id: Seq<char>,
    description: Seq<char>,
    tags: Seq<Seq<char>>,
    milestone: Option<Seq<char>>,
) -> Seq<PropertyWriteView> {
    let first = new_description_writes(dir, id, description, None);
    first + tag_writes(dir, id, Action::Add, tags, first[1].content) + match milestone {
        Some(m) => add_milestone_plan(dir, id, m, None).1,
        None => Seq::empty(),
    }
}

/// The commit that marks the creation of an issue. It changes no file; its hash
/// becomes the identifier of the issue.
pub open spec fn marker() -> CommitView {
    CommitView { message: "gi: Add issue\n\ngi new mark"@, allow_empty: true, bypass_hooks: true }
}

/// A change as it is planned: whether it changes anything, and the writes to carry
/// out, in order.
#[derive(Debug)]
pub struct Changes {
    pub result: WriteResult,
    pub writes: Vec<PropertyWrite>,
}

impl Changes {
    /// Whether the change changes anything, and its writes.
    pub open spec fn plan(self) -> Plan {
        (self.result, self.writes.deep_view())
    }

    /// The change that changes nothing.
    fn none() -> (r: Changes)
        ensures
            r.plan() == no_changes(),
    {
        let writes: Vec<PropertyWrite> = Vec::new();
        assert(writes.deep_view() =~= Seq::<PropertyWriteView>::empty());
        Changes { result: WriteResult::NoChanges, writes }
    }

    /// The change of one write.
    fn one(write: PropertyWrite) -> (r: Changes)
        ensures
            r.plan() == (WriteResult::Applied, seq![write@]),
    {
        let mut writes: Vec<PropertyWrite> = Vec::new();
        writes.push(write);
        assert(writes.deep_view() =~= seq![write@]);
        Changes { result: WriteResult::Applied, writes }
    }

    /// What the property file of the plan holds once the plan is carried out, the
    /// file holding `raw` before.
    fn file_after(&self, raw: &Option<String>) -> (r: Option<String>)
        ensures
            r.deep_view() == after(self.plan(), raw.deep_view()),
    {
        let n = self.writes.len();
        if n > 0 {
            assert(self.writes.deep_view().last() == self.writes@[n - 1]@);
            self.writes[n - 1].content.clone()
        } else {
            raw.clone()
        }
    }
}

impl DataSource {
    /// The text of a property as its file holds it: the file's text without the one
    /// line feed at its end. A file that ends in none is read as it is.
    pub fn read(raw: &str) -> (r: String)
        ensures
            r@ == without_final_feed(raw@),
    {
        strip_final_feed(raw).to_owned()
    }

    /// The tags of an issue, from its tags file; none where the file could not be
    /// read.
    pub fn tags(raw: &Option<String>) -> (r: Vec<String>)
        ensures
            r.deep_view() == tags_of(raw.deep_view()),
    {
        match raw {
            Some(text) => {
                proof {
                    lemma_trimmed_without_final_feed(text@);
                }
                lines(trim(Self::read(text.as_str()).as_str()))
            },
            None => {
                let v: Vec<String> = Vec::new();
                assert(v.deep_view() =~= Seq::<Seq<char>>::empty());
                v
            },
        }
    }

    /// The milestone of an issue, from its milestone file; none where the file
    /// could not be read.
    pub fn milestone(raw: &Option<String>) -> (r: Option<String>)
        ensures
            r.deep_view() == milestone_of(raw.deep_view()),
    {
        match raw {
            Some(text) => Some(Self::read(text.as_str())),
            None => None,
        }
    }

    /// The title of an issue, from its description file: the first line, or the
    /// failure to read the file.
    pub fn title(raw: Result<String, IoError>) -> (r: Result<String, IoError>)
        ensures
            match raw {
                Ok(text) => r matches Ok(title) && title@ == title_of(text@),
                Err(e) => r == Err::<String, IoError>(e),
            },
    {
        match raw {
            Ok(text) => Ok(first_line(strip_final_feed(text.as_str()))),
            Err(e) => Err(e),
        }
    }

    /// The due date of an issue, from the file of its due date: none where there
    /// is no such file, and the failure to read the file where it failed otherwise.
    pub fn duedate(raw: Result<String, IoError>) -> (r: Result<Option<Timestamp>, IoError>)
        requires
            raw matches Ok(text) ==> rfc3339(without_final_feed(text@)) is Some,
        ensures
            match raw {
                Ok(text) => r matches Ok(Some(date)) && Some(date@) == rfc3339(
                    without_final_feed(text@),
                ),
                Err(e) => if e.not_found {
                    r == Ok::<Option<Timestamp>, IoError>(None)
                } else {
                    r == Err::<Option<Timestamp>, IoError>(e)
                },
            },
    {
        match raw {
            Ok(text) => Ok(Some(Timestamp::read(strip_final_feed(text.as_str())))),
            Err(e) => if e.not_found {
                Ok(None)
            } else {
                Err(e)
            },
        }
    }

    /// The due date as `duedate` gives it, where the file holds a date or could
    /// not be read; `None` where it holds something else.
    pub fn try_duedate(raw: Result<String, IoError>) -> (r: Option<
        Result<Option<Timestamp>, IoError>,
    >)
        ensures
            match raw {
                Ok(text) => match rfc3339(without_final_feed(text@)) {
                    Some(date) => r matches Some(Ok(Some(found))) && found@ == date,
                    None => r is None,
                },
                Err(e) => if e.not_found {
                    r == Some(Ok::<Option<Timestamp>, IoError>(None))
                } else {
                    r == Some(Err::<Option<Timestamp>, IoError>(e))
                },
            },
    {
        if let Ok(text) = &raw {
            if Timestamp::try_read(strip_final_feed(text.as_str())).is_none() {
                return None;
            }
        }
        Some(Self::duedate(raw))
    }

    /// The creation date of an issue: the date that `shown` holds, which is what
    /// git shows as the author date of the commit that the identifier names.
    pub fn creation_date(shown: &str) -> (r: Timestamp)
        requires
            rfc3339(trimmed(shown@)) is Some,
        ensures
            Some(r@) == rfc3339(trimmed(shown@)),
    {
        Timestamp::read(trim(shown))
    }

    /// The creation date as `creation_date` gives it, `None` where `shown` holds no
    /// date.
    pub fn try_creation_date(shown: &str) -> (r: Option<Timestamp>)
        ensures
            r.deep_view() == rfc3339(trimmed(shown@)),
    {
        match Timestamp::try_read(trim(shown)) {
            Some(_) => Some(Self::creation_date(shown)),
            None => None,
        }
    }

    /// The path of the file `file` of the issue `id`.
    pub fn property_path(&self, id: &Id, file: &str) -> (r: String)
        requires
            id@.len() >= 2,
        ensures
            r@ == file_path(self.dir(), id@, file@),
    {
        let mut r = id.path(self.issues_dir().as_str());
        r.append("/");
        r.append(file);
        r
    }

    /// The write that carries out `change` on the issue `target`, whose property
    /// file holds `existing` before.
    pub fn write(&self, target: &Id, change: &CommitProperty, existing: &Option<String>) -> (r:
        PropertyWrite)
        requires
            target@.len() >= 2,
            change@.names_issue() ==> target@.len() >= 8,
        ensures
            r@ == write_of(self.dir(), target@, change@, existing.deep_view()),
    {
        PropertyWrite {
            path: self.property_path(target, change.filename().as_str()),
            content: change.content(existing),
            commit: Commit {
                message: change.message(target),
                allow_empty: false,
                bypass_hooks: true,
            },
        }
    }

    /// The commit that marks the creation of an issue. Once it is made, the head of
    /// the branch names the new issue.
    pub fn marker_commit() -> (r: Commit)
        ensures
            r@ == marker(),
    {
        Commit {
            message: String::from_str("gi: Add issue\n\ngi new mark"),
            allow_empty: true,
            bypass_hooks: true,
        }
    }

    /// The writes that give the issue `id` its first description, `text`, and the
    /// tag `open`. `raw_tags` is the issue's tags file.
    pub fn new_description(&self, id: &Id, text: &str, raw_tags: &Option<String>) -> (r: Vec<
        PropertyWrite,
    >)
        requires
            id@.len() >= 8,
        ensures
            r.deep_view() == new_description_writes(self.dir(), id@, text@, raw_tags.deep_view()),
    {
        let description = CommitProperty::Description {
            action: ChangeAction::New,
            id: id.id().clone(),
            description: text.to_owned(),
        };
        let tag = CommitProperty::Tag { action: Action::Add, tag: String::from_str("open") };
        let mut writes: Vec<PropertyWrite> = Vec::new();
        let first = self.write(id, &description, &None);
        let second = self.write(id, &tag, raw_tags);
        let ghost views = seq![first@, second@];
        writes.push(first);
        writes.push(second);
        assert(writes.deep_view() =~= views);
        writes
    }

    /// The write that replaces the description of the issue `id` by `text`.
    pub fn edit_description(&self, id: &Id, text: &str) -> (r: PropertyWrite)
        requires
            id@.len() >= 2,
        ensures
            r@ == write_of(
                self.dir(),
                id@,
                CommitPropertyView::Description {
                    action: ChangeAction::Edit,
                    id: id@,
                    description: text@,
                },
                None,
            ),
    {
        let change = CommitProperty::Description {
            action: ChangeAction::Edit,
            id: id.id().clone(),
            description: text.to_owned(),
        };
        self.write(id, &change, &None)
    }

    /// Adds `tag` to the issue `id`, whose tags file is `raw_tags`. An issue that
    /// has the tag stays as it is: no change, no write, no commit.
    pub fn add_tag(&self, id: &Id, tag: &str, raw_tags: &Option<String>) -> (r: Changes)
        requires
            id@.len() >= 8,
        ensures
            r.plan() == add_tag_plan(self.dir(), id@, tag@, raw_tags.deep_view()),
    {
        if contains(&Self::tags(raw_tags), tag) {
            Changes::none()
        } else {
            let change = CommitProperty::Tag { action: Action::Add, tag: tag.to_owned() };
            Changes::one(self.write(id, &change, raw_tags))
        }
    }

    /// Removes `tag` from the issue `id`, whose tags file is `raw_tags`. An issue
    /// without the tag stays as it is: no change, no write, no commit.
    pub fn remove_tag(&self, id: &Id, tag: &str, raw_tags: &Option<String>) -> (r: Changes)
        requires
            id@.len() >= 8,
        ensures
            r.plan() == remove_tag_plan(self.dir(), id@, tag@, raw_tags.deep_view()),
    {
        if contains(&Self::tags(raw_tags), tag) {
            let change = CommitProperty::Tag { action: Action::Remove, tag: tag.to_owned() };
            Changes::one(self.write(id, &change, raw_tags))
        } else {
            Changes::none()
        }
    }

    /// Makes `milestone` the milestone of the issue `id`, whose milestone file is
    /// `raw_milestone`. An issue that has this milestone stays as it is.
    pub fn add_milestone(&self, id: &Id, milestone: &str, raw_milestone: &Option<String>) -> (r:
        Changes)
        requires
            id@.len() >= 8,
        ensures
            r.plan() == add_milestone_plan(
                self.dir(),
                id@,
                milestone@,
                raw_milestone.deep_view(),
            ),
    {
        if let Some(current) = Self::milestone(raw_milestone) {
            if str_eq(current.as_str(), milestone) {
                return Changes::none();
            }
        }
        let change = CommitProperty::Milestone {
            action: Action::Add,
            milestone: milestone.to_owned(),
        };
        Changes::one(self.write(id, &change, raw_milestone))
    }

    /// Takes the milestone from the issue `id`, whose milestone file is
    /// `raw_milestone`. An issue without a milestone stays as it is.
    pub fn remove_milestone(&self, id: &Id, raw_milestone: &Option<String>) -> (r: Changes)
        requires
            id@.len() >= 8,
        ensures
            r.plan() == remove_milestone_plan(self.dir(), id@, raw_milestone.deep_view()),
    {
        match Self::milestone(raw_milestone) {
            Some(milestone) => {
                let change = CommitProperty::Milestone { action: Action::Remove, milestone };
                Changes::one(self.write(id, &change, raw_milestone))
            },
            None => Changes::none(),
        }
    }

    /// Adds each of `tags` to the issue `id`, or removes each, as `action` says, one
    /// after the other. `raw_tags` is the tags file before the first. Returns the
    /// tags that changed the issue, and the writes.
    pub fn change_tags(&self, id: &Id, action: Action, tags: &Vec<String>, raw_tags: &Option<String>) -> (r:
        (Vec<String>, Vec<PropertyWrite>))
        requires
            id@.len() >= 8,
        ensures
            r.0.deep_view() == tags_applied(
                self.dir(),
                id@,
                action,
                tags.deep_view(),
                raw_tags.deep_view(),
            ),
            r.1.deep_view() == tag_writes(
                self.dir(),
                id@,
                action,
                tags.deep_view(),
                raw_tags.deep_view(),
            ),
    {
        let mut applied: Vec<String> = Vec::new();
        let mut writes: Vec<PropertyWrite> = Vec::new();
        let mut raw: Option<String> = raw_tags.clone();
        let mut i: usize = 0;
        assert(tags.deep_view().skip(0) =~= tags.deep_view());
        assert(applied.deep_view() =~= Seq::<Seq<char>>::empty());
        assert(writes.deep_view() =~= Seq::<PropertyWriteView>::empty());
        while i < tags.len()
            invariant
                i <= tags.len(),
                id@.len() >= 8,
                tag_writes(self.dir(), id@, action, tags.deep_view(), raw_tags.deep_view())
                    == writes.deep_view() + tag_writes(
                    self.dir(),
                    id@,
                    action,
                    tags.deep_view().skip(i as int),
                    raw.deep_view(),
                ),
                tags_applied(self.dir(), id@, action, tags.deep_view(), raw_tags.deep_view())
                    == applied.deep_view() + tags_applied(
                    self.dir(),
                    id@,
                    action,
                    tags.deep_view().skip(i as int),
                    raw.deep_view(),
                ),
            decreases tags.len() - i,
        {
            let ghost rest = tags.deep_view().skip(i as int);
            let ghost before = writes.deep_view();
            let ghost named = applied.deep_view();
            let changed = match action {
                Action::Add => self.add_tag(id, tags[i].as_str(), &raw),
                Action::Remove => self.remove_tag(id, tags[i].as_str(), &raw),
            };
            assert(rest[0] == tags@[i as int]@);
            assert(rest.drop_first() =~= tags.deep_view().skip(i + 1));
            raw = changed.file_after(&raw);
            if changed.result == WriteResult::Applied {
                applied.push(tags[i].clone());
                assert(applied.deep_view() =~= named + seq![tags@[i as int]@]);
            } else {
                assert(applied.deep_view() =~= named + Seq::<Seq<char>>::empty());
            }
            let mut more = changed.writes;
            let ghost more_view = more.deep_view();
            writes.append(&mut more);
            assert(writes.deep_view() =~= before + more_view);
            i += 1;
        }
        assert(tags.deep_view().skip(tags.len() as int) =~= Seq::<Seq<char>>::empty());
        (applied, writes)
    }

    /// Adds each of `tags` to the issue `id`, one after the other: the tags that
    /// the issue had not got, and the writes.
    pub fn add_tags(&self, id: &Id, tags: &Vec<String>, raw_tags: &Option<String>) -> (r: (
        Vec<String>,
        Vec<PropertyWrite>,
    ))
        requires
            id@.len() >= 8,
        ensures
            r.0.deep_view() == tags_applied(
                self.dir(),
                id@,
                Action::Add,
                tags.deep_view(),
                raw_tags.deep_view(),
            ),
            r.1.deep_view() == tag_writes(
                self.dir(),
                id@,
                Action::Add,
                tags.deep_view(),
                raw_tags.deep_view(),
            ),
    {
        self.change_tags(id, Action::Add, tags, raw_tags)
    }

    /// Removes each of `tags` from the issue `id`, one after the other: the tags
    /// that the issue had, and the writes.
    pub fn remove_tags(&self, id: &Id, tags: &Vec<String>, raw_tags: &Option<String>) -> (r: (
        Vec<String>,
        Vec<PropertyWrite>,
    ))
        requires
            id@.len() >= 8,
        ensures
            r.0.deep_view() == tags_applied(
                self.dir(),
                id@,
                Action::Remove,
                tags.deep_view(),
                raw_tags.deep_view(),
            ),
            r.1.deep_view() == tag_writes(
                self.dir(),
                id@,
                Action::Remove,
                tags.deep_view(),
                raw_tags.deep_view(),
            ),
    {
        self.change_tags(id, Action::Remove, tags, raw_tags)
    }

    /// Closes the issue `id`, whose tags file is `raw_tags`: removes the tag `open`,
    /// then adds the tag `closed`. Changes something where either does.
    pub fn close_issue(&self, id: &Id, raw_tags: &Option<String>) -> (r: Changes)
        requires
            id@.len() >= 8,
        ensures
            r.plan() == close_plan(self.dir(), id@, raw_tags.deep_view()),
    {
        let gone = self.remove_tag(id, "open", raw_tags);
        let between = gone.file_after(raw_tags);
        let come = self.add_tag(id, "closed", &between);
        let ghost first = gone.writes.deep_view();
        let ghost second = come.writes.deep_view();
        let mut results: Vec<WriteResult> = Vec::new();
        results.push(gone.result);
        results.push(come.result);
        assert(results@.contains(WriteResult::Applied) <==> (gone.result == WriteResult::Applied
            || come.result == WriteResult::Applied)) by {
            assert(results@[0] == gone.result && results@[1] == come.result);
        }
        let result = WriteResult::from(results);
        let mut writes = gone.writes;
        let mut rest = come.writes;
        writes.append(&mut rest);
        assert(writes.deep_view() =~= first + second);
        Changes { result, writes }
    }

    /// Creates an issue. `head` is the head of the branch after the marker commit
    /// and becomes the identifier. Returns the identifier and the writes that give
    /// the issue, which has no file yet, its description, the tag `open`, each of
    /// `tags` that it has not got by then and, where one is given, its milestone.
    pub fn create_issue(
        &self,
        head: String,
        description: &str,
        tags: Vec<String>,
        milestone: Option<String>,
    ) -> (r: (Id, Vec<PropertyWrite>))
        requires
            head@.len() >= 8,
        ensures
            r.0@ == head@,
            r.1.deep_view() == creation_writes(
                self.dir(),
                head@,
                description@,
                tags.deep_view(),
                milestone.deep_view(),
            ),
    {
        let id = Id::new(head);
        let mut writes = self.new_description(&id, description, &None);
        let ghost first = writes.deep_view();
        assert(first.len() == 2 && writes@.len() == first.len());
        assert(first[1] == writes@[1]@);
        let raw: Option<String> = writes[1].content.clone();
        let (_, mut tagged) = self.change_tags(&id, Action::Add, &tags, &raw);
        let ghost more_view = tagged.deep_view();
        writes.append(&mut tagged);
        assert(writes.deep_view() =~= first + more_view);
        if let Some(m) = milestone {
            let ghost before = writes.deep_view();
            let set = self.add_milestone(&id, m.as_str(), &None);
            let mut more = set.writes;
            let ghost more_view = more.deep_view();
            writes.append(&mut more);
            assert(writes.deep_view() =~= before + more_view);
        } else {
            assert(writes.deep_view() + Seq::<PropertyWriteView>::empty() =~= writes.deep_view());
        }
        (id, writes)
    }
}

/// Asking for what an issue has already changes nothing: adding a tag that the
/// issue has, removing one that it has not, setting the milestone that it has and
/// taking the milestone from an issue without one all plan no write, and so no
/// commit.
pub proof fn law_idempotence(
    dir: Seq<char>,
    id: Seq<char>,
    tag: Seq<char>,
    milestone: Seq<char>,
    raw_tags: Option<Seq<char>>,
    raw_milestone: Option<Seq<char>>,
)
    ensures
        tags_of(raw_tags).contains(tag) ==> add_tag_plan(dir, id, tag, raw_tags) == no_changes(),
        !tags_of(raw_tags).contains(tag) ==> remove_tag_plan(dir, id, tag, raw_tags)
            == no_changes(),
        milestone_of(raw_milestone) == Some(milestone) ==> add_milestone_plan(
            dir,
            id,
            milestone,
            raw_milestone,
        ) == no_changes(),
        milestone_of(raw_milestone) is None ==> remove_milestone_plan(dir, id, raw_milestone)
            == no_changes(),
        no_changes().0 == WriteResult::NoChanges,
        no_changes().1.len() == 0,
{
}

/// A change that is planned is one write with one commit, and a change that is not
/// is none: the result says `Applied` exactly where something is written.
pub proof fn law_applied_iff_written(
    dir: Seq<char>,
    id: Seq<char>,
    tag: Seq<char>,
    raw: Option<Seq<char>>,
)
    ensures
        add_tag_plan(dir, id, tag, raw).0 == WriteResult::Applied <==> add_tag_plan(
            dir,
            id,
            tag,
            raw,
        ).1.len() == 1,
        remove_tag_plan(dir, id, tag, raw).0 == WriteResult::Applied <==> remove_tag_plan(
            dir,
            id,
            tag,
            raw,
        ).1.len() == 1,
        add_milestone_plan(dir, id, tag, raw).0 == WriteResult::Applied <==> add_milestone_plan(
            dir,
            id,
            tag,
            raw,
        ).1.len() == 1,
        remove_milestone_plan(dir, id, raw).0 == WriteResult::Applied <==> remove_milestone_plan(
            dir,
            id,
            raw,
        ).1.len() == 1,
        close_plan(dir, id, raw).0 == WriteResult::Applied <==> close_plan(dir, id, raw).1.len()
            > 0,
{
}

/// The tags file is written in normal form: whatever a tag is added to or removed
/// from, the lines of the new file are sorted ascending and none stands twice.
/// This holds where the tag can stand as a line and no line of the old file ends
/// with a carriage return.
pub proof fn law_tags_file_sorted(existing: Option<Seq<char>>, action: Action, tag: Seq<char>)
    requires
        is_line(tag),
        forall|k: int|
            0 <= k < lines_or_none(existing).len() ==> (#[trigger] lines_or_none(existing)[k]).len()
                > 0 ==> lines_or_none(existing)[k].last() != '\r',
    ensures
        ascending(lines_of(tags_content(existing, action, tag))),
        lines_of(tags_content(existing, action, tag)).no_duplicates(),
{
    let before = lines_or_none(existing);
    let changed = changed_lines(existing, action, tag);
    let sorted = ascending_of(changed);
    lemma_ascending_exists(changed);
    assert forall|k: int| 0 <= k < before.len() implies is_line(#[trigger] before[k]) by {
        assert forall|i: int| 0 <= i < before[k].len() implies before[k][i] != '\n' by {
            lemma_lines_hold_no_feed(existing->0, k, i);
        }
    }
    assert forall|k: int| 0 <= k < sorted.len() implies is_line(#[trigger] sorted[k]) by {
        assert(sorted.contains(sorted[k]));
        assert(changed.contains(sorted[k]));
        let m = choose|m: int| 0 <= m < changed.len() && changed[m] == sorted[k];
        match action {
            Action::Add => {
                if m < before.len() {
                    assert(changed[m] == before[m]);
                }
            },
            Action::Remove => {
                before.lemma_filter_contains_rev(differs_from(tag), sorted[k]);
                let n = choose|n: int| 0 <= n < before.len() && before[n] == sorted[k];
                assert(is_line(before[n]));
            },
        }
    }
    let content = tags_content(existing, action, tag);
    let listed = lines_of(content);
    lemma_lines_of_written(sorted);
    lemma_ascending_no_duplicates(listed);
}

/// A description that is written and read again comes back without its trailing
/// whitespace: reading takes from the file exactly the one line feed that writing
/// put at its end. The title is the first line of what comes back.
pub proof fn law_description_round_trip(text: Seq<char>)
    ensures
        without_final_feed(description_content(text)) == trimmed_end(text),
        description_content(text) == without_final_feed(description_content(text)).push('\n'),
        title_of(description_content(text)) == first_line_of(trimmed_end(text)),
{
    reveal_strlit("\n");
    lemma_without_final_feed(trimmed_end(text));
    assert(description_content(text) =~= trimmed_end(text).push('\n'));
}

/// Reading takes exactly one line feed from the end of a file: a file that holds
/// a text and one line feed is read as that text, whatever the text ends in, and
/// a file that ends in no line feed is read as it is.
pub proof fn law_read_strips_one_feed(text: Seq<char>)
    ensures
        without_final_feed(text.push('\n')) == text,
        text.len() == 0 || text.last() != '\n' ==> without_final_feed(text) == text,
{
    lemma_without_final_feed(text);
}

/// What a file of plain words lists as tags once `tag` was added or removed: the
/// words that it listed before, with `tag` or without it, in ascending order. So a
/// tag that was added is there, and adding it again changes nothing; a tag that was
/// removed is gone, and removing it again changes nothing. The lines of the file
/// are plain words again, but for an empty line that a file may hold for want of
/// tags.
pub proof fn law_tags_round_trip(
    dir: Seq<char>,
    id: Seq<char>,
    existing: Option<Seq<char>>,
    action: Action,
    tag: Seq<char>,
)
    requires
        is_plain(tag),
        all_plain_or_empty(lines_or_none(existing)),
    ensures
        ({
            let written = Some(tags_content(existing, action, tag));
            &&& ascending(tags_of(written))
            &&& forall|t: Seq<char>| #[trigger]
                tags_of(written).contains(t) <==> t.len() > 0 && match action {
                    Action::Add => t == tag || lines_or_none(existing).contains(t),
                    Action::Remove => t != tag && lines_or_none(existing).contains(t),
                }
            &&& all_plain_or_empty(lines_or_none(written))
            &&& forall|t: Seq<char>|
                t.len() > 0 ==> (#[trigger] lines_or_none(written).contains(t) <==> tags_of(
                    written,
                ).contains(t))
            &&& tag_plan(dir, id, action, tag, written) == no_changes()
        }),
{
    let before = lines_or_none(existing);
    let changed = changed_lines(existing, action, tag);
    let sorted = ascending_of(changed);
    let content = tags_content(existing, action, tag);
    let written = Some(content);
    lemma_ascending_exists(changed);
    assert forall|t: Seq<char>| changed.contains(t) <==> match action {
        Action::Add => t == tag || before.contains(t),
        Action::Remove => t != tag && before.contains(t),
    } by {
        match action {
            Action::Add => {
                if changed.contains(t) {
                    let k = choose|k: int| 0 <= k < changed.len() && changed[k] == t;
                    if k < before.len() {
                        assert(before[k] == t);
                    }
                }
                if before.contains(t) {
                    let k = choose|k: int| 0 <= k < before.len() && before[k] == t;
                    assert(changed[k] == t);
                }
                if t == tag {
                    assert(changed[before.len() as int] == t);
                }
            },
            Action::Remove => {
                if changed.contains(t) {
                    before.lemma_filter_contains_rev(differs_from(tag), t);
                    let k = choose|k: int| 0 <= k < changed.len() && changed[k] == t;
                    before.lemma_filter_pred(differs_from(tag), k);
                }
                if t != tag && before.contains(t) {
                    let k = choose|k: int| 0 <= k < before.len() && before[k] == t;
                    before.lemma_filter_contains(differs_from(tag), k);
                }
            },
        }
    }
    assert forall|k: int| 0 <= k < sorted.len() implies (#[trigger] sorted[k]).len() == 0
        || is_plain(sorted[k]) by {
        assert(sorted.contains(sorted[k]));
        assert(changed.contains(sorted[k]));
        if sorted[k] != tag {
            let n = choose|n: int| 0 <= n < before.len() && before[n] == sorted[k];
            assert(before[n].len() == 0 || is_plain(before[n]));
        }
    }
    lemma_lines_of_trimmed(sorted);
    let listed = without_empty_head(sorted);
    assert(tags_of(written) == listed);
    assert forall|t: Seq<char>| #[trigger] listed.contains(t) <==> t.len() > 0 && match action {
        Action::Add => t == tag || before.contains(t),
        Action::Remove => t != tag && before.contains(t),
    } by {
        lemma_without_empty_head(sorted, t);
    }
    lemma_without_empty_head(sorted, tag);
    // the lines of the file that was written
    assert forall|k: int| 0 <= k < sorted.len() implies is_line(#[trigger] sorted[k]) by {}
    lemma_lines_of_written(sorted);
    assert forall|t: Seq<char>| t.len() > 0 implies (#[trigger] lines_or_none(written).contains(t)
        <==> tags_of(written).contains(t)) by {
        lemma_without_empty_head(sorted, t);
        if lines_or_none(written).contains(t) && sorted.len() == 0 {
            let k = choose|k: int|
                0 <= k < lines_or_none(written).len() && lines_or_none(written)[k] == t;
        }
    }
}

/// The tags file once `tags` were added one after the other, or removed, as
/// `action` says, the file holding `raw` before.
pub open spec fn tags_file_after(
    dir: Seq<char>,
    id: Seq<char>,
    action: Action,
    tags: Seq<Seq<char>>,
    raw: Option<Seq<char>>,
) -> Option<Seq<char>>
    decreases tags.len(),
{
    if tags.len() == 0 {
        raw
    } else {
        tags_file_after(
            dir,
            id,
            action,
            tags.drop_first(),
            after(tag_plan(dir, id, action, tags[0], raw), raw),
        )
    }
}

/// Whether a tags file lists plain words in ascending order, each on a line of its
/// own, with at most an empty line beside them.
pub open spec fn in_normal_form(raw: Option<Seq<char>>) -> bool {
    &&& all_plain_or_empty(lines_or_none(raw))
    &&& ascending(tags_of(raw))
    &&& !tags_of(raw).contains(Seq::empty())
    &&& forall|t: Seq<char>|
        t.len() > 0 ==> (#[trigger] lines_or_none(raw).contains(t) <==> tags_of(raw).contains(t))
}

/// Plain words that are added to a tags file in normal form, one after the other,
/// are its tags afterwards, beside those that it had, and the file is in normal
/// form again.
pub proof fn law_tags_added(
    dir: Seq<char>,
    id: Seq<char>,
    tags: Seq<Seq<char>>,
    raw: Option<Seq<char>>,
)
    requires
        forall|i: int| 0 <= i < tags.len() ==> is_plain(#[trigger] tags[i]),
        in_normal_form(raw),
    ensures
        in_normal_form(tags_file_after(dir, id, Action::Add, tags, raw)),
        forall|t: Seq<char>| #[trigger]
            tags_of(tags_file_after(dir, id, Action::Add, tags, raw)).contains(t) <==> (tags_of(
                raw,
            ).contains(t) || tags.contains(t)),
    decreases tags.len(),
{
    if tags.len() > 0 {
        let first = tags[0];
        let rest = tags.drop_first();
        let next = after(tag_plan(dir, id, Action::Add, first, raw), raw);
        assert forall|i: int| 0 <= i < rest.len() implies is_plain(#[trigger] rest[i]) by {
            assert(rest[i] == tags[i + 1]);
        }
        if !tags_of(raw).contains(first) {
            law_tags_round_trip(dir, id, raw, Action::Add, first);
        }
        law_tags_added(dir, id, rest, next);
        let last = tags_file_after(dir, id, Action::Add, tags, raw);
        assert forall|t: Seq<char>| #[trigger] tags_of(last).contains(t) <==> (tags_of(
            raw,
        ).contains(t) || tags.contains(t)) by {
            assert(tags_of(next).contains(t) <==> (tags_of(raw).contains(t) || t == first)) by {
                if !tags_of(raw).contains(first) {
                    assert(tags_of(next).contains(t) <==> t.len() > 0 && (t == first
                        || lines_or_none(raw).contains(t)));
                    if t.len() == 0 {
                        assert(t =~= Seq::<char>::empty());
                    } else {
                        assert(lines_or_none(raw).contains(t) <==> tags_of(raw).contains(t));
                    }
                }
            }
            if rest.contains(t) {
                let k = choose|k: int| 0 <= k < rest.len() && rest[k] == t;
                assert(tags[k + 1] == t);
            }
            if tags.contains(t) {
                let k = choose|k: int| 0 <= k < tags.len() && tags[k] == t;
                if k > 0 {
                    assert(rest[k - 1] == t);
                }
            }
            assert(tags[0] == first);
        }
    }
}

/// A new issue has the tag `open` and the tags that it was created with, and no
/// others, where those tags are plain words.
pub proof fn law_created_tags(
    dir: Seq<char>,
    id: Seq<char>,
    description: Seq<char>,
    tags: Seq<Seq<char>>,
)
    requires
        forall|i: int| 0 <= i < tags.len() ==> is_plain(#[trigger] tags[i]),
    ensures
        ({
            let opened = new_description_writes(dir, id, description, None)[1].content;
            let created = tags_file_after(dir, id, Action::Add, tags, opened);
            &&& tag_writes(dir, id, Action::Add, tags, opened) == creation_writes(
                dir,
                id,
                description,
                tags,
                None,
            ).skip(2)
            &&& ascending(tags_of(created))
            &&& forall|t: Seq<char>| #[trigger]
                tags_of(created).contains(t) <==> (t == "open"@ || tags.contains(t))
        }),
{
    reveal_strlit("open");
    let open = "open"@;
    assert(is_plain(open));
    let opened = new_description_writes(dir, id, description, None)[1].content;
    assert(opened == Some(tags_content(None, Action::Add, open)));
    assert(lines_or_none(None) =~= Seq::<Seq<char>>::empty());
    law_tags_round_trip(dir, id, None, Action::Add, open);
    law_tags_added(dir, id, tags, opened);
    let first = new_description_writes(dir, id, description, None);
    let all = creation_writes(dir, id, description, tags, None);
    assert(all.skip(2) =~= tag_writes(dir, id, Action::Add, tags, opened));
}

/// A closed issue has the tag `closed` and has lost the tag `open`; its other tags
/// are those that it had. This holds of a tags file in normal form.
pub proof fn law_closed(dir: Seq<char>, id: Seq<char>, raw: Option<Seq<char>>)
    requires
        in_normal_form(raw),
    ensures
        in_normal_form(after(close_plan(dir, id, raw), raw)),
        forall|t: Seq<char>| #[trigger]
            tags_of(after(close_plan(dir, id, raw), raw)).contains(t) <==> (t == "closed"@ || (t
                != "open"@ && tags_of(raw).contains(t))),
        close_plan(dir, id, after(close_plan(dir, id, raw), raw)) == no_changes(),
{
    reveal_strlit("open");
    reveal_strlit("closed");
    let open = "open"@;
    let closed = "closed"@;
    assert(is_plain(open) && is_plain(closed));
    assert(open != closed) by {
        assert(open.len() != closed.len());
    }
    let gone = remove_tag_plan(dir, id, open, raw);
    let between = after(gone, raw);
    assert(in_normal_form(between) && forall|t: Seq<char>| #[trigger]
        tags_of(between).contains(t) <==> (t != open && tags_of(raw).contains(t))) by {
        if tags_of(raw).contains(open) {
            law_tags_round_trip(dir, id, raw, Action::Remove, open);
            assert forall|t: Seq<char>| #[trigger]
                tags_of(between).contains(t) <==> (t != open && tags_of(raw).contains(t)) by {
                assert(tags_of(between).contains(t) <==> t.len() > 0 && t != open
                    && lines_or_none(raw).contains(t));
                if t.len() == 0 {
                    assert(t =~= Seq::<char>::empty());
                } else {
                    assert(lines_or_none(raw).contains(t) <==> tags_of(raw).contains(t));
                }
            }
        }
    }
    let come = add_tag_plan(dir, id, closed, between);
    let ended = after(come, between);
    assert(ended == after(close_plan(dir, id, raw), raw)) by {
        let all = gone.1 + come.1;
        if come.1.len() > 0 {
            assert(all.last() == come.1.last());
        } else {
            assert(all =~= gone.1);
        }
    }
    if !tags_of(between).contains(closed) {
        law_tags_round_trip(dir, id, between, Action::Add, closed);
        assert forall|t: Seq<char>| #[trigger]
            tags_of(ended).contains(t) <==> (t == closed || tags_of(between).contains(t)) by {
            assert(tags_of(ended).contains(t) <==> t.len() > 0 && (t == closed
                || lines_or_none(between).contains(t)));
            if t.len() == 0 {
                assert(t =~= Seq::<char>::empty());
            } else {
                assert(lines_or_none(between).contains(t) <==> tags_of(between).contains(t));
            }
        }
    }
    assert(!tags_of(ended).contains(open));
    assert(tags_of(ended).contains(closed));
}

/// A milestone that is set is the milestone afterwards, and setting it again
/// changes nothing; a milestone that is taken away is gone, and taking it away
/// again changes nothing.
pub proof fn law_milestone_round_trip(
    dir: Seq<char>,
    id: Seq<char>,
    milestone: Seq<char>,
    raw: Option<Seq<char>>,
)
    ensures
        milestone_of(after(add_milestone_plan(dir, id, milestone, raw), raw)) == Some(milestone),
        add_milestone_plan(
            dir,
            id,
            milestone,
            after(add_milestone_plan(dir, id, milestone, raw), raw),
        ) == no_changes(),
        milestone_of(after(remove_milestone_plan(dir, id, raw), raw)) is None,
        remove_milestone_plan(dir, id, after(remove_milestone_plan(dir, id, raw), raw))
            == no_changes(),
{
    lemma_without_final_feed(milestone);
}

} // verus!
