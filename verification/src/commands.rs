//! What the commands of the tracker say and decide: the messages under which their
//! transactions are finished, the files of a new tracker, and what becomes of a
//! text that went through an editor.

use vstd::prelude::*;
use crate::codes::{e_editor_killed, eexist};
use crate::errors::{ExitError, IoError};
use crate::id::Id;
use crate::lines::{first_line, first_line_of, lines, lines_of};
use crate::property::{Commit, CommitView, WriteResult};
use crate::text::{chars_of, join, joined, starts_with};

verus! {

/// The description file's template in a new tracker.
pub const DESCRIPTION: &'static str = "

# Start with a one-line summary of the issue.  Leave a blank line and
# continue with the issue's detailed description.
#
# Remember:
# - Be precise
# - Be clear: explain how to reproduce the problem, step by step,
#   so others can reproduce the issue
# - Include only one problem per issue report
#
# Lines starting with '#' will be ignored, and an empty message aborts
# the issue addition.
";

/// The comment file's template in a new tracker.
pub const COMMENT: &'static str = "

# Please write here a comment regarding the issue.
# Keep the conversation constructive and polite.
# Lines starting with '#' will be ignored, and an empty message aborts
# the issue addition.
";

/// The file `README.md` of a new tracker.
pub const README: &'static str = "This is an distributed issue tracking repository based on Git.
Visit [git-issue](https://github.com/dspinellis/git-issue) for more information.
";

/// A file of a new tracker: its path below the directory `.issues`, and its content.
#[derive(Debug)]
pub struct InitFile {
    pub path: String,
    pub content: String,
}

/// An `InitFile` with its texts as sequences of characters.
pub struct InitFileView {
    pub path: Seq<char>,
    pub content: Seq<char>,
}

impl View for InitFile {
    type V = InitFileView;

    open spec fn view(&self) -> InitFileView {
        InitFileView { path: self.path@, content: self.content@ }
    }
}

impl DeepView for InitFile {
    type V = InitFileView;

    open spec fn deep_view(&self) -> InitFileView {
        self@
    }
}

/// The files of a new tracker, in the order in which they are written and staged.
pub open spec fn init_files() -> Seq<InitFileView> {
    seq![
        InitFileView { path: "config"@, content: Seq::empty() },
        InitFileView { path: "templates/description"@, content: DESCRIPTION@ },
        InitFileView { path: "templates/comment"@, content: COMMENT@ },
        InitFileView { path: "README.md"@, content: README@ },
    ]
}

/// The commit that records a new tracker. It runs the hooks, and needs something
/// staged.
pub open spec fn init_commit() -> CommitView {
    CommitView {
        message: "gi: Initialize issues repository\n\ngi init"@,
        allow_empty: false,
        bypass_hooks: false,
    }
}

/// What makes a new tracker: the files to write and stage, and the commit that
/// records them. `exists` says whether there is a directory `.issues` already;
/// then nothing is made, and the failure is `EEXIST`.
pub fn create(exists: bool) -> (r: Result<(Vec<InitFile>, Commit), ExitError>)
    ensures
        exists ==> (r matches Err(e) && e.code == 17 && e.message@
            == "An .issues directory is already present"@),
        !exists ==> (r matches Ok(plan) && plan.0.deep_view() == init_files() && plan.1@
            == init_commit()),
{
    if exists {
        return Err(
            ExitError {
                code: eexist(),
                message: String::from_str("An .issues directory is already present"),
            },
        );
    }
    let mut files: Vec<InitFile> = Vec::new();
    files.push(InitFile { path: String::from_str("config"), content: String::new() });
    files.push(
        InitFile {
            path: String::from_str("templates/description"),
            content: String::from_str(DESCRIPTION),
        },
    );
    files.push(
        InitFile { path: String::from_str("templates/comment"), content: String::from_str(COMMENT) },
    );
    files.push(InitFile { path: String::from_str("README.md"), content: String::from_str(README) });
    assert(files.deep_view() =~= init_files());
    Ok(
        (
            files,
            Commit {
                message: String::from_str("gi: Initialize issues repository\n\ngi init"),
                allow_empty: false,
                bypass_hooks: false,
            },
        ),
    )
}

/// The test that a line is no comment: that it does not begin with `#`.
pub open spec fn no_comment() -> spec_fn(Seq<char>) -> bool {
    |line: Seq<char>| !"#"@.is_prefix_of(line)
}

/// The text without its comment lines, a line feed between each two of the lines
/// that stay.
pub open spec fn without_comments(text: Seq<char>) -> Seq<char> {
    joined(lines_of(text).filter(no_comment()), "\n"@)
}

/// The text without the lines that begin with `#`.
pub fn strip_comments(text: &str) -> (r: String)
    ensures
        r@ == without_comments(text@),
{
    let all = lines(text);
    let ghost keep = no_comment();
    let mut kept: Vec<String> = Vec::new();
    let mut i: usize = 0;
    assert(all.deep_view().take(0) =~= Seq::<Seq<char>>::empty());
    assert(kept.deep_view() =~= Seq::<Seq<char>>::empty());
    while i < all.len()
        invariant
            i <= all.len(),
            keep == no_comment(),
            kept.deep_view() == all.deep_view().take(i as int).filter(keep),
        decreases all.len() - i,
    {
        let ghost before = kept.deep_view();
        let ghost done = all.deep_view().take(i as int);
        assert(all.deep_view().take(i + 1) =~= done.push(all@[i as int]@));
        proof {
            done.lemma_filter_push(all@[i as int]@, keep);
        }
        if !starts_with(all[i].as_str(), "#") {
            kept.push(all[i].clone());
            assert(kept.deep_view() =~= before.push(all@[i as int]@));
        }
        i += 1;
    }
    assert(all.deep_view().take(all.len() as int) =~= all.deep_view());
    join(&kept, "\n")
}

/// What an editor left: `code` is the code it exited with, `None` where a signal
/// ended it, and `text` the edited file as it was read afterwards. An editor that
/// exited with 0 gives the text without its comment lines; one that was killed,
/// that gave up with 1 or that failed with another code gives that failure.
pub fn edit(code: Option<i32>, text: Result<String, IoError>) -> (r: Result<String, ExitError>)
    ensures
        match code {
            None => r matches Err(e) && e.code == 4 && e.message@
                == "Process terminated by signal"@,
            Some(0) => match text {
                Ok(edited) => r matches Ok(kept) && kept@ == without_comments(edited@),
                Err(failure) => r matches Err(e) && e.code == failure.code && e.message
                    == failure.message,
            },
            Some(1) => r matches Err(e) && e.code == 1 && e.message@ == "Editor aborted"@,
            Some(other) => r matches Err(e) && e.code == other && e.message@
                == "Editor exited with error"@,
        },
{
    match code {
        None => Err(
            ExitError {
                code: e_editor_killed(),
                message: String::from_str("Process terminated by signal"),
            },
        ),
        Some(0) => match text {
            Ok(edited) => Ok(strip_comments(edited.as_str())),
            Err(failure) => Err(ExitError { code: failure.code, message: failure.message }),
        },
        Some(1) => Err(ExitError { code: 1, message: String::from_str("Editor aborted") }),
        Some(other) => Err(
            ExitError { code: other, message: String::from_str("Editor exited with error") },
        ),
    }
}

/// The text that an editor is opened on for a new issue: the summary, where one is
/// given, an empty line, and the template, where there is one.
pub fn new_issue_template(summary: &Option<String>, template: &Option<String>) -> (r: String)
    ensures
        r@ == (match *summary {
            Some(text) => text@,
            None => Seq::empty(),
        }) + "\n\n"@ + (match *template {
            Some(text) => text@,
            None => Seq::empty(),
        }),
{
    let mut r = match summary {
        Some(text) => text.clone(),
        None => String::new(),
    };
    r.append("\n\n");
    if let Some(text) = template {
        r.append(text.as_str());
    }
    r
}

/// The short identifiers of `ids`, in their order.
pub open spec fn short_ids(ids: Seq<Seq<char>>) -> Seq<Seq<char>> {
    Seq::new(ids.len(), |i: int| ids[i].subrange(0, 8))
}

/// The message under which a new issue is recorded: its short identifier and its
/// title, the first line of its description.
pub fn new_issue_message(id: &Id, description: &str) -> (r: String)
    requires
        id@.len() >= 8,
    ensures
        r@ == "gi("@ + id@.subrange(0, 8) + "): "@ + first_line_of(description@),
{
    let mut r = String::from_str("gi(");
    r.append(id.short_id());
    r.append("): ");
    r.append(first_line(description).as_str());
    r
}

/// The message under which the closing of issues is recorded: for one issue its
/// short identifier and its title, for several their short identifiers.
pub fn close_message(ids: &Vec<Id>, title: &str) -> (r: String)
    requires
        forall|i: int| 0 <= i < ids.len() ==> (#[trigger] ids@[i])@.len() >= 8,
    ensures
        r@ == if ids.len() == 1 {
            "DONE("@ + ids@[0]@.subrange(0, 8) + "): "@ + title@
        } else {
            "gi: Closed "@ + joined(short_ids(ids.deep_view()), ", "@)
        },
{
    if ids.len() == 1 {
        let mut r = String::from_str("DONE(");
        r.append(ids[0].short_id());
        r.append("): ");
        r.append(title);
        r
    } else {
        let mut shorts: Vec<String> = Vec::new();
        let mut i: usize = 0;
        while i < ids.len()
            invariant
                i <= ids.len(),
                forall|k: int| 0 <= k < ids.len() ==> (#[trigger] ids@[k])@.len() >= 8,
                shorts@.len() == i,
                forall|k: int| 0 <= k < i ==> (#[trigger] shorts@[k])@ == ids@[k]@.subrange(0, 8),
            decreases ids.len() - i,
        {
            shorts.push(ids[i].short_id().to_owned());
            i += 1;
        }
        assert(shorts.deep_view() =~= short_ids(ids.deep_view()));
        let mut r = String::from_str("gi: Closed ");
        r.append(join(&shorts, ", ").as_str());
        r
    }
}

/// The message under which a change of tags is recorded: the short identifier of
/// the issue, whether tags were added or removed, and the tags that were.
pub fn tag_message(id: &Id, remove: bool, applied: &Vec<String>) -> (r: String)
    requires
        id@.len() >= 8,
    ensures
        r@ == "gi("@ + id@.subrange(0, 8) + (if remove {
            "): Remove "@
        } else {
            "): Add "@
        }) + (if applied.len() > 1 {
            "tags"@
        } else {
            "tag"@
        }) + ": "@ + joined(applied.deep_view(), ", "@),
{
    let mut r = String::from_str("gi(");
    r.append(id.short_id());
    r.append(if remove {
        "): Remove "
    } else {
        "): Add "
    });
    r.append(if applied.len() > 1 {
        "tags"
    } else {
        "tag"
    });
    r.append(": ");
    r.append(join(applied, ", ").as_str());
    r
}

/// How a command ends its transaction.
#[derive(Debug, Clone, Copy, PartialEq, Eq, Structural)]
pub enum Ending {
    /// The commits of the transaction become one entry of the history.
    Finish,
    /// The one commit of the transaction is the entry of the history.
    FinishWithoutMerge,
    /// The commits of the transaction are dropped.
    Rollback,
}

/// The ending of a transaction whose writes came to `outcome`, `None` where one of
/// them failed. A transaction that changed something is finished, with a merge
/// where `merge` asks for one; every other is rolled back.
pub fn ending(outcome: Option<WriteResult>, merge: bool) -> (r: Ending)
    ensures
        r == match outcome {
            Some(WriteResult::Applied) => if merge {
                Ending::Finish
            } else {
                Ending::FinishWithoutMerge
            },
            _ => Ending::Rollback,
        },
{
    match outcome {
        Some(WriteResult::Applied) => if merge {
            Ending::Finish
        } else {
            Ending::FinishWithoutMerge
        },
        _ => Ending::Rollback,
    }
}

/// The text of a file with a line feed at its end: `None` where it has one
/// already, else the text with one added.
pub fn newline_fix(text: &str) -> (r: Option<String>)
    ensures
        r.deep_view() == if text@.len() > 0 && text@.last() == '\n' {
            None
        } else {
            Some(text@ + "\n"@)
        },
{
    let chars = chars_of(text);
    if chars.len() > 0 && chars[chars.len() - 1] == '\n' {
        None
    } else {
        let mut fixed = String::from_str(text);
        fixed.append("\n");
        Some(fixed)
    }
}

} // verus!
