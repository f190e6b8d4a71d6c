//! The properties of an issue, the file each is kept in, and what a change to one
//! writes: the new content of the file and the message of the commit that records it.

use vstd::prelude::*;
use crate::id::Id;
use crate::lines::{lines, lines_of};
use crate::order::{ascending_of, differs_from, sorted_unique, without};
use crate::text::{join, joined, trim_end, trimmed_end};

verus! {

/// A property of an issue that is kept in a file of its own.
#[derive(Debug, Clone, Copy, PartialEq, Eq, Structural)]
pub enum Property {
    Description,
    DueDate,
    Tags,
    Milestone,
}

impl Property {
    /// The name of the property's file.
    pub open spec fn filename_text(self) -> Seq<char> {
        match self {
            Property::DueDate => "duedate"@,
            Property::Description => "description"@,
            Property::Tags => "tags"@,
            Property::Milestone => "milestone"@,
        }
    }

    /// The name of the property's file inside the directory of an issue.
    pub fn filename(&self) -> (r: String)
        ensures
            r@ == self.filename_text(),
    {
        match self {
            Property::DueDate => String::from_str("duedate"),
            Property::Description => String::from_str("description"),
            Property::Tags => String::from_str("tags"),
            Property::Milestone => String::from_str("milestone"),
        }
    }
}

/// Whether a description is the first of its issue or replaces an earlier one.
#[derive(Debug, Clone, Copy, PartialEq, Eq, Structural)]
pub enum ChangeAction {
    New,
    Edit,
}

/// Whether a value is given to an issue or taken from it.
#[derive(Debug, Clone, Copy, PartialEq, Eq, Structural)]
pub enum Action {
    Add,
    Remove,
}

/// Whether a requested change changed anything.
#[derive(Debug, Clone, Copy, PartialEq, Eq, Structural)]
pub enum WriteResult {
    /// The change was made, and committed.
    Applied,
    /// The issue was already as requested: nothing was written, nothing committed.
    NoChanges,
}

impl From<Vec<WriteResult>> for WriteResult {
    fn from(list: Vec<WriteResult>) -> (r: Self) {
        let mut i: usize = 0;
        while i < list.len()
            invariant
                i <= list.len(),
                forall|k: int| 0 <= k < i ==> list@[k] != WriteResult::Applied,
            decreases list.len() - i,
        {
            if list[i] == WriteResult::Applied {
                return WriteResult::Applied;
            }
            i += 1;
        }
        WriteResult::NoChanges
    }
}

impl vstd::std_specs::convert::FromSpecImpl<Vec<WriteResult>> for WriteResult {
    open spec fn obeys_from_spec() -> bool {
        true
    }

    /// Several changes together changed something where one of them did.
    open spec fn from_spec(list: Vec<WriteResult>) -> Self {
        if list@.contains(WriteResult::Applied) {
            WriteResult::Applied
        } else {
            WriteResult::NoChanges
        }
    }
}

/// The lines of a file, none where there is no file.
pub open spec fn lines_or_none(raw: Option<Seq<char>>) -> Seq<Seq<char>> {
    match raw {
        Some(text) => lines_of(text),
        None => Seq::empty(),
    }
}

/// The lines of the tags file with `tag` added at the end, or with each line that
/// equals `tag` removed.
pub open spec fn changed_lines(existing: Option<Seq<char>>, action: Action, tag: Seq<char>) -> Seq<
    Seq<char>,
> {
    match action {
        Action::Add => lines_or_none(existing).push(tag),
        Action::Remove => lines_or_none(existing).filter(differs_from(tag)),
    }
}

/// The content of the tags file after `action` on `tag`, the file holding `existing`
/// before: its lines with `tag` added or each equal line removed, sorted, each once,
/// every line ended by a line feed.
pub open spec fn tags_content(existing: Option<Seq<char>>, action: Action, tag: Seq<char>) -> Seq<
    char,
> {
    joined(ascending_of(changed_lines(existing, action, tag)), "\n"@) + "\n"@
}

/// The content of the description file for `text`: the text without trailing
/// whitespace, ended by one line feed.
pub open spec fn description_content(text: Seq<char>) -> Seq<char> {
    trimmed_end(text) + "\n"@
}

/// A change to one property of an issue that is recorded in a commit of its own.
#[derive(Debug)]
#[allow(inconsistent_fields)]
pub enum CommitProperty {
    /// The description becomes `description`; `id` is the identifier of the issue.
    Description { action: ChangeAction, id: String, description: String },
    /// `tag` is added to the tags or removed from them.
    Tag { action: Action, tag: String },
    /// `milestone` becomes the milestone, or the issue loses it.
    Milestone { action: Action, milestone: String },
}

/// A `CommitProperty` with its texts as sequences of characters.
#[allow(inconsistent_fields)]
pub enum CommitPropertyView {
    Description { action: ChangeAction, id: Seq<char>, description: Seq<char> },
    Tag { action: Action, tag: Seq<char> },
    Milestone { action: Action, milestone: Seq<char> },
}

impl View for CommitProperty {
    type V = CommitPropertyView;

    open spec fn view(&self) -> CommitPropertyView {
        match *self {
            CommitProperty::Description { action, id, description } =>
                CommitPropertyView::Description { action, id: id@, description: description@ },
            CommitProperty::Tag { action, tag } => CommitPropertyView::Tag { action, tag: tag@ },
            CommitProperty::Milestone { action, milestone } => CommitPropertyView::Milestone {
                action,
                milestone: milestone@,
            },
        }
    }
}

impl CommitPropertyView {
    /// The name of the file that the change writes.
    pub open spec fn filename(self) -> Seq<char> {
        match self {
            CommitPropertyView::Description { .. } => "description"@,
            CommitPropertyView::Tag { .. } => "tags"@,
            CommitPropertyView::Milestone { .. } => "milestone"@,
        }
    }

    /// The content that the property's file has after the change; `None` where the
    /// change removes the file. `existing` is what the file holds before.
    pub open spec fn content(self, existing: Option<Seq<char>>) -> Option<Seq<char>> {
        match self {
            CommitPropertyView::Description { description, .. } => Some(
                description_content(description),
            ),
            CommitPropertyView::Tag { action, tag } => Some(tags_content(existing, action, tag)),
            CommitPropertyView::Milestone { action: Action::Add, milestone } => Some(
                milestone + "\n"@,
            ),
            CommitPropertyView::Milestone { action: Action::Remove, .. } => None,
        }
    }

    /// Whether the message of the change names the issue by its short identifier.
    pub open spec fn names_issue(self) -> bool {
        !(self is Description)
    }

    /// The message of the commit that records the change to the issue `target`.
    pub open spec fn message(self, target: Seq<char>) -> Seq<char> {
        let short = target.subrange(0, 8);
        match self {
            CommitPropertyView::Description { action: ChangeAction::New, id, .. } =>
                "gi: Add issue description\n\ngi new description "@ + id,
            CommitPropertyView::Description { action: ChangeAction::Edit, id, .. } =>
                "gi: Edit issue description\n\ngit edit description "@ + id,
            CommitPropertyView::Tag { action: Action::Add, tag } => "gi("@ + short
                + "): Add tag "@ + tag + "\n\ngi tag add "@ + tag,
            CommitPropertyView::Tag { action: Action::Remove, tag } => "gi("@ + short
                + "): Remove tag "@ + tag + "\n\ngi tag remove "@ + tag,
            CommitPropertyView::Milestone { action: Action::Add, milestone } => "gi("@ + short
                + "): Add milestone "@ + milestone + "\n\ngi milestone add "@ + milestone,
            CommitPropertyView::Milestone { action: Action::Remove, milestone } => "gi("@ + short
                + "): Remove milestone "@ + milestone + "\n\ngi milestone remove "@ + milestone,
        }
    }
}

impl CommitProperty {
    /// The name of the file that the change writes, inside the directory of the issue.
    pub fn filename(&self) -> (r: String)
        ensures
            r@ == self@.filename(),
    {
        match self {
            CommitProperty::Description { .. } => String::from_str("description"),
            CommitProperty::Tag { .. } => String::from_str("tags"),
            CommitProperty::Milestone { .. } => String::from_str("milestone"),
        }
    }

    /// The content to write to the property's file, or `None` to remove the file.
    /// `existing` is the file as it was read before the change, `None` where it
    /// could not be read: such a file counts as one without lines.
    pub fn content(&self, existing: &Option<String>) -> (r: Option<String>)
        ensures
            r.deep_view() == self@.content(existing.deep_view()),
    {
        match self {
            CommitProperty::Description { description, .. } => {
                let mut r = trim_end(description.as_str()).to_owned();
                r.append("\n");
                Some(r)
            },
            CommitProperty::Tag { action, tag } => {
                let before: Vec<String> = match existing {
                    Some(text) => lines(text.as_str()),
                    None => Vec::new(),
                };
                assert(before.deep_view() =~= lines_or_none(existing.deep_view()));
                let changed: Vec<String> = match action {
                    Action::Add => {
                        let mut v = before;
                        let ghost old_view = v.deep_view();
                        v.push(tag.clone());
                        assert(v.deep_view() =~= old_view.push(tag@));
                        v
                    },
                    Action::Remove => without(&before, tag.as_str()),
                };
                let sorted = sorted_unique(&changed);
                let mut r = join(&sorted, "\n");
                r.append("\n");
                Some(r)
            },
            CommitProperty::Milestone { action: Action::Add, milestone } => {
                let mut r = milestone.clone();
                r.append("\n");
                Some(r)
            },
            CommitProperty::Milestone { action: Action::Remove, .. } => None,
        }
    }

    /// The message of the commit that records the change to the issue `target`.
    pub fn message(&self, target: &Id) -> (r: String)
        requires
            self@.names_issue() ==> target@.len() >= 8,
        ensures
            r@ == self@.message(target@),
    {
        match self {
            CommitProperty::Description { action: ChangeAction::New, id, .. } => {
                let mut r = String::from_str("gi: Add issue description\n\ngi new description ");
                r.append(id.as_str());
                r
            },
            CommitProperty::Description { action: ChangeAction::Edit, id, .. } => {
                let mut r = String::from_str(
                    "gi: Edit issue description\n\ngit edit description ",
                );
                r.append(id.as_str());
                r
            },
            CommitProperty::Tag { action: Action::Add, tag } => change_message(
                target,
                "): Add tag ",
                "\n\ngi tag add ",
                tag.as_str(),
            ),
            CommitProperty::Tag { action: Action::Remove, tag } => change_message(
                target,
                "): Remove tag ",
                "\n\ngi tag remove ",
                tag.as_str(),
            ),
            CommitProperty::Milestone { action: Action::Add, milestone } => change_message(
                target,
                "): Add milestone ",
                "\n\ngi milestone add ",
                milestone.as_str(),
            ),
            CommitProperty::Milestone { action: Action::Remove, milestone } => change_message(
                target,
                "): Remove milestone ",
                "\n\ngi milestone remove ",
                milestone.as_str(),
            ),
        }
    }
}

/// A message of two lines that names the issue `target` and a value: `gi(`, the
/// short identifier, `what`, the value, `how`, the value again.
fn change_message(target: &Id, what: &str, how: &str, value: &str) -> (r: String)
    requires
        target@.len() >= 8,
    ensures
        r@ == "gi("@ + target@.subrange(0, 8) + what@ + value@ + how@ + value@,
{
    let mut r = String::from_str("gi(");
    r.append(target.short_id());
    r.append(what);
    r.append(value);
    r.append(how);
    r.append(value);
    r
}

/// A commit of what is staged.
#[derive(Debug)]
pub struct Commit {
    pub message: String,
    /// Whether the commit is made even where nothing is staged.
    pub allow_empty: bool,
    /// Whether the repository's commit hooks are bypassed.
    pub bypass_hooks: bool,
}

/// A `Commit` with its message as a sequence of characters.
pub struct CommitView {
    pub message: Seq<char>,
    pub allow_empty: bool,
    pub bypass_hooks: bool,
}

impl View for Commit {
    type V = CommitView;

    open spec fn view(&self) -> CommitView {
        CommitView {
            message: self.message@,
            allow_empty: self.allow_empty,
            bypass_hooks: self.bypass_hooks,
        }
    }
}

/// One change to an issue, ready to be carried out: the directory of the issue is
/// made where it is missing, the file at `path` is written with `content` or, where
/// there is none, removed, the path is staged, and `commit` is made.
#[derive(Debug)]
pub struct PropertyWrite {
    pub path: String,
    pub content: Option<String>,
    pub commit: Commit,
}

/// A `PropertyWrite` with its texts as sequences of characters.
pub struct PropertyWriteView {
    pub path: Seq<char>,
    pub content: Option<Seq<char>>,
    pub commit: CommitView,
}

impl View for PropertyWrite {
    type V = PropertyWriteView;

    open spec fn view(&self) -> PropertyWriteView {
        PropertyWriteView {
            path: self.path@,
            content: match self.content {
                Some(text) => Some(text@),
                None => None,
            },
            commit: self.commit@,
        }
    }
}

impl DeepView for PropertyWrite {
    type V = PropertyWriteView;

    open spec fn deep_view(&self) -> PropertyWriteView {
        self@
    }
}

} // verus!
