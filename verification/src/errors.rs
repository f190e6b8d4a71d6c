//! What can go wrong, the message of each failure and the code a command exits with.

use vstd::prelude::*;
use crate::codes::{
    e_issues_dir_exist, e_repo_bare, e_repo_exist, e_stash_error, edoofus, enoent, enotexec,
};
use crate::id::Id;
use crate::text::{debug_list, debug_quote, debug_quote_list, debug_quoted};

verus! {

/// A failure as a command reports it: the code to exit with and a message.
#[derive(Debug)]
pub struct ExitError {
    pub code: i32,
    pub message: String,
}

/// No single issue answers to a needle.
#[derive(Debug)]
pub enum FindError {
    /// The needle matches no issue.
    NotFound(String),
    /// The needle matches the listed issues, and is not one of them in full.
    MultipleFound(String, Vec<Id>),
}

impl FindError {
    /// The message for the user.
    pub open spec fn message_text(self) -> Seq<char> {
        match self {
            FindError::NotFound(needle) => "Not found issue with prefix "@ + needle@,
            FindError::MultipleFound(needle, ids) => "Issue prefix "@ + needle@
                + " matched multiple issues: "@ + debug_list(ids.deep_view()) + " "@,
        }
    }

    /// The message for the user.
    pub fn message(&self) -> (r: String)
        ensures
            r@ == self.message_text(),
    {
        match self {
            FindError::NotFound(needle) => {
                let mut r = String::from_str("Not found issue with prefix ");
                r.append(needle.as_str());
                r
            },
            FindError::MultipleFound(needle, ids) => {
                let mut r = String::from_str("Issue prefix ");
                r.append(needle.as_str());
                r.append(" matched multiple issues: ");
                let texts = Id::texts(ids);
                r.append(debug_quote_list(&texts).as_str());
                r.append(" ");
                r
            },
        }
    }

    /// No such issue: `ENOENT` with the message.
    pub fn exit_error(&self) -> (r: ExitError)
        ensures
            r.code == 2,
            r.message@ == self.message_text(),
    {
        ExitError { code: enoent(), message: self.message() }
    }
}

/// The tracker could not be opened.
#[derive(Debug)]
pub enum InitError {
    /// No git repository was found.
    GitRepoNotFound,
    /// No directory `.issues` was found here or above.
    IssuesRepoNotFound,
}

impl InitError {
    /// The message for the user.
    pub open spec fn message_text(self) -> Seq<char> {
        match self {
            InitError::GitRepoNotFound => "Git repository not found"@,
            InitError::IssuesRepoNotFound =>
                "Not an issues repository (or any of the parent directories)"@,
        }
    }

    /// The message for the user.
    pub fn message(&self) -> (r: String)
        ensures
            r@ == self.message_text(),
    {
        match self {
            InitError::GitRepoNotFound => String::from_str("Git repository not found"),
            InitError::IssuesRepoNotFound => String::from_str(
                "Not an issues repository (or any of the parent directories)",
            ),
        }
    }

    /// The code and the message to exit with.
    pub fn exit_error(&self) -> (r: ExitError)
        ensures
            r.code == match *self {
                InitError::GitRepoNotFound => 145i32,
                InitError::IssuesRepoNotFound => 161i32,
            },
            r.message@ == self.message_text(),
    {
        let code = match self {
            InitError::GitRepoNotFound => e_repo_exist(),
            InitError::IssuesRepoNotFound => e_issues_dir_exist(),
        };
        ExitError { code, message: self.message() }
    }
}

/// A failed read or write of a file, as the operating system reported it.
#[derive(Debug)]
pub struct IoError {
    /// Whether the file was not there.
    pub not_found: bool,
    /// The POSIX code of the failure.
    pub code: i32,
    /// The system's message.
    pub message: String,
}

/// A file could not be put into the index.
#[derive(Debug)]
pub enum StagingError {
    /// The repository has no working tree.
    BareRepository,
    /// The file at this path is missing or outside the tracked tree.
    FileDoesNotExist(String),
    /// Anything else: what git wrote and the code it exited with.
    Failure(String, i32),
}

impl StagingError {
    /// The message for the user.
    pub open spec fn message_text(self) -> Seq<char> {
        match self {
            StagingError::BareRepository => "Bare repository"@,
            StagingError::FileDoesNotExist(path) => "File does not exist: `"@ + path@ + "`"@,
            StagingError::Failure(message, _) => "`"@ + message@ + "`"@,
        }
    }

    /// The message for the user.
    pub fn message(&self) -> (r: String)
        ensures
            r@ == self.message_text(),
    {
        match self {
            StagingError::BareRepository => String::from_str("Bare repository"),
            StagingError::FileDoesNotExist(path) => {
                let mut r = String::from_str("File does not exist: `");
                r.append(path.as_str());
                r.append("`");
                r
            },
            StagingError::Failure(message, _) => {
                let mut r = String::from_str("`");
                r.append(message.as_str());
                r.append("`");
                r
            },
        }
    }
}

/// The index could not be committed.
#[derive(Debug)]
pub enum CommitError {
    /// What git wrote and the code it exited with.
    Failure(String, i32),
    /// The repository has no working tree.
    BareRepository,
}

impl CommitError {
    /// The message for the user.
    pub open spec fn message_text(self) -> Seq<char> {
        match self {
            CommitError::Failure(message, _) => "`"@ + message@ + "`"@,
            CommitError::BareRepository => "Bare repository"@,
        }
    }

    /// The message for the user.
    pub fn message(&self) -> (r: String)
        ensures
            r@ == self.message_text(),
    {
        match self {
            CommitError::Failure(message, _) => {
                let mut r = String::from_str("`");
                r.append(message.as_str());
                r.append("`");
                r
            },
            CommitError::BareRepository => String::from_str("Bare repository"),
        }
    }
}

/// A property of an issue could not be written.
#[derive(Debug)]
pub enum WritePropertyError {
    /// The written file could not be staged.
    StagingError(StagingError),
    /// The file could not be written.
    IoError(IoError),
}

impl WritePropertyError {
    /// The message for the user.
    pub open spec fn message_text(self) -> Seq<char> {
        match self {
            WritePropertyError::StagingError(e) => e.message_text(),
            WritePropertyError::IoError(e) => e.message@,
        }
    }

    /// The code to exit with.
    pub open spec fn exit_code(self) -> int {
        match self {
            WritePropertyError::IoError(e) => e.code as int,
            WritePropertyError::StagingError(StagingError::BareRepository) => 169,
            WritePropertyError::StagingError(StagingError::FileDoesNotExist(_)) => 88,
            WritePropertyError::StagingError(StagingError::Failure(_, code)) => code as int,
        }
    }

    /// The message to exit with.
    pub open spec fn exit_text(self) -> Seq<char> {
        match self {
            WritePropertyError::IoError(e) => e.message@,
            WritePropertyError::StagingError(StagingError::BareRepository) =>
                "Can not use bare git repository"@,
            WritePropertyError::StagingError(StagingError::FileDoesNotExist(path)) =>
                "Unstaged file "@ + debug_quoted(path@) + " Bug?"@,
            WritePropertyError::StagingError(StagingError::Failure(message, _)) => message@,
        }
    }

    /// The message for the user.
    pub fn message(&self) -> (r: String)
        ensures
            r@ == self.message_text(),
    {
        match self {
            WritePropertyError::StagingError(e) => e.message(),
            WritePropertyError::IoError(e) => e.message.clone(),
        }
    }

    /// The code and the message to exit with.
    pub fn exit_error(&self) -> (r: ExitError)
        ensures
            r.code == self.exit_code(),
            r.message@ == self.exit_text(),
    {
        match self {
            WritePropertyError::IoError(e) => ExitError {
                code: e.code,
                message: e.message.clone(),
            },
            WritePropertyError::StagingError(StagingError::BareRepository) => ExitError {
                code: e_repo_bare(),
                message: String::from_str("Can not use bare git repository"),
            },
            WritePropertyError::StagingError(StagingError::FileDoesNotExist(path)) => {
                let mut message = String::from_str("Unstaged file ");
                message.append(debug_quote(path.as_str()).as_str());
                message.append(" Bug?");
                ExitError { code: edoofus(), message }
            },
            WritePropertyError::StagingError(StagingError::Failure(message, code)) => ExitError {
                code: *code,
                message: message.clone(),
            },
        }
    }
}

/// A change to an issue could not be written and committed.
#[derive(Debug)]
pub enum WriteError {
    /// The property file could not be written or staged.
    PropertyError(WritePropertyError),
    /// The commit failed.
    CommitError(CommitError),
}

impl WriteError {
    /// The message for the user.
    pub open spec fn message_text(self) -> Seq<char> {
        match self {
            WriteError::PropertyError(e) => e.message_text(),
            WriteError::CommitError(e) => e.message_text(),
        }
    }

    /// The code to exit with.
    pub open spec fn exit_code(self) -> int {
        match self {
            WriteError::PropertyError(e) => e.exit_code(),
            WriteError::CommitError(CommitError::Failure(_, code)) => code as int,
            WriteError::CommitError(CommitError::BareRepository) => 169,
        }
    }

    /// The message to exit with.
    pub open spec fn exit_text(self) -> Seq<char> {
        match self {
            WriteError::PropertyError(e) => e.exit_text(),
            WriteError::CommitError(CommitError::Failure(message, _)) => message@,
            WriteError::CommitError(CommitError::BareRepository) => "Bare repository"@,
        }
    }

    /// The message for the user.
    pub fn message(&self) -> (r: String)
        ensures
            r@ == self.message_text(),
    {
        match self {
            WriteError::PropertyError(e) => e.message(),
            WriteError::CommitError(e) => e.message(),
        }
    }

    /// The code and the message to exit with.
    pub fn exit_error(&self) -> (r: ExitError)
        ensures
            r.code == self.exit_code(),
            r.message@ == self.exit_text(),
    {
        match self {
            WriteError::PropertyError(e) => e.exit_error(),
            WriteError::CommitError(CommitError::Failure(message, code)) => ExitError {
                code: *code,
                message: message.clone(),
            },
            WriteError::CommitError(CommitError::BareRepository) => ExitError {
                code: e_repo_bare(),
                message: String::from_str("Bare repository"),
            },
        }
    }
}

/// The command that resets the branch to the commit `sha`.
pub open spec fn reset_command(sha: Seq<char>) -> Seq<char> {
    "git reset --hard "@ + sha
}

/// The command that pops the stash.
pub open spec fn pop_command() -> Seq<char> {
    "git stash pop"@
}

/// The commands that reset the branch to the commit `sha` and then pop the stash.
pub open spec fn reset_and_pop_command(sha: Seq<char>) -> Seq<char> {
    reset_command(sha) + " && "@ + pop_command()
}

fn reset_text(sha: &str) -> (r: String)
    ensures
        r@ == reset_command(sha@),
{
    let mut r = String::from_str("git reset --hard ");
    r.append(sha);
    r
}

fn reset_and_pop_text(sha: &str) -> (r: String)
    ensures
        r@ == reset_and_pop_command(sha@),
{
    let mut r = reset_text(sha);
    r.append(" && ");
    r.append("git stash pop");
    r
}

/// The message that begins with `lead`, names the commands `recovery` and ends with
/// `tail`.
fn recovery_message(lead: String, recovery: &str, tail: &str) -> (r: String)
    ensures
        r@ == lead@ + recovery@ + tail@,
{
    let mut r = lead;
    r.append(recovery);
    r.append(tail);
    r
}

/// What is said of the commit `sha` before the commands that restore: `what`, the
/// hash, and `how`.
fn lead_text(what: &str, sha: &str, how: &str) -> (r: String)
    ensures
        r@ == what@ + sha@ + how@,
{
    let mut r = String::from_str(what);
    r.append(sha);
    r.append(how);
    r
}

/// A transaction could not be rolled back. The repository is left as it was when
/// the step failed, and the message names the commands that restore it.
#[derive(Debug)]
pub enum RollbackError {
    /// The stash could not be popped; holds what the failed command reported.
    Unstash(String),
    /// The reset to the commit with this hash failed; nothing was stashed.
    Reset(String),
    /// The reset to the commit with this hash failed, and a stash waits to be popped.
    ResetUnstash(String),
}

impl RollbackError {
    /// The text that the failure holds: the hash of the start, or for a stash that
    /// could not be popped what the failed command reported.
    pub open spec fn text(self) -> Seq<char> {
        match self {
            RollbackError::Unstash(report) => report@,
            RollbackError::Reset(sha) => sha@,
            RollbackError::ResetUnstash(sha) => sha@,
        }
    }

    /// What the message says before it names the commands that restore.
    pub open spec fn lead(self) -> Seq<char> {
        match self {
            RollbackError::Unstash(report) => report@ + "\nFailed to unstash changes.\nUse "@,
            RollbackError::Reset(sha) => "Failed to reset back to commit "@ + sha@ + ".\nUse "@,
            RollbackError::ResetUnstash(sha) => "Failed to reset back to commit "@ + sha@
                + ".\nTo restore your data use:\n "@,
        }
    }

    /// The commands that restore the repository after the failure.
    pub open spec fn recovery(self) -> Seq<char> {
        match self {
            RollbackError::Unstash(_) => pop_command(),
            RollbackError::Reset(sha) => reset_command(sha@),
            RollbackError::ResetUnstash(sha) => reset_and_pop_command(sha@),
        }
    }

    /// What the message says after the commands.
    pub open spec fn tail(self) -> Seq<char> {
        match self {
            RollbackError::Unstash(_) => " to do it manually."@,
            RollbackError::Reset(_) => "."@,
            RollbackError::ResetUnstash(_) => ""@,
        }
    }

    /// The message for the user.
    pub open spec fn message_text(self) -> Seq<char> {
        self.lead() + self.recovery() + self.tail()
    }

    /// The message for the user.
    pub fn message(&self) -> (r: String)
        ensures
            r@ == self.message_text(),
    {
        match self {
            RollbackError::Unstash(report) => {
                let mut lead = report.clone();
                lead.append("\nFailed to unstash changes.\nUse ");
                recovery_message(lead, "git stash pop", " to do it manually.")
            },
            RollbackError::Reset(sha) => recovery_message(
                lead_text("Failed to reset back to commit ", sha.as_str(), ".\nUse "),
                reset_text(sha.as_str()).as_str(),
                ".",
            ),
            RollbackError::ResetUnstash(sha) => recovery_message(
                lead_text(
                    "Failed to reset back to commit ",
                    sha.as_str(),
                    ".\nTo restore your data use:\n ",
                ),
                reset_and_pop_text(sha.as_str()).as_str(),
                "",
            ),
        }
    }
}

/// A transaction could not be finished. The repository is left as it was when the
/// step failed, and the message names the commands that restore it.
#[derive(Debug)]
pub enum FinishError {
    /// The stash could not be popped; holds what the failed command reported.
    Unstash(String),
    /// The reset to the commit with this hash failed; nothing was stashed.
    Reset(String),
    /// The reset to the commit with this hash failed, and a stash waits to be popped.
    ResetUnstash(String),
    /// The merge onto the commit with this hash failed, and a stash waits to be popped.
    MergeUnstash(String),
    /// The merge onto the commit with this hash failed; nothing was stashed.
    Merge(String),
}

impl FinishError {
    /// The text that the failure holds: the hash of the start, or for a stash that
    /// could not be popped what the failed command reported.
    pub open spec fn text(self) -> Seq<char> {
        match self {
            FinishError::Unstash(report) => report@,
            FinishError::Reset(sha) => sha@,
            FinishError::ResetUnstash(sha) => sha@,
            FinishError::MergeUnstash(sha) => sha@,
            FinishError::Merge(sha) => sha@,
        }
    }

    /// What the message says before it names the commands that restore.
    pub open spec fn lead(self) -> Seq<char> {
        match self {
            FinishError::Unstash(report) => report@ + "\nFailed to unstash changes.\nUse "@,
            FinishError::Reset(sha) => "Failed to reset back to commit "@ + sha@
                + ".\nTo restore your repo to previous state, use:\n "@,
            FinishError::ResetUnstash(sha) => "Failed to reset back to commit "@ + sha@
                + ".\nTo restore your repo state, use:\n "@,
            FinishError::MergeUnstash(sha) => "Failed to merge issue changes with commit "@ + sha@
                + ".\nTo restore your repo to previous state, use:\n "@,
            FinishError::Merge(sha) => "Failed to merge issue changes with commit "@ + sha@
                + ".\nTo restore your repo to previous state, use:\n "@,
        }
    }

    /// The commands that restore the repository after the failure.
    pub open spec fn recovery(self) -> Seq<char> {
        match self {
            FinishError::Unstash(_) => pop_command(),
            FinishError::Reset(sha) => reset_command(sha@),
            FinishError::ResetUnstash(sha) => reset_and_pop_command(sha@),
            FinishError::MergeUnstash(sha) => reset_and_pop_command(sha@),
            FinishError::Merge(sha) => reset_command(sha@),
        }
    }

    /// What the message says after the commands.
    pub open spec fn tail(self) -> Seq<char> {
        match self {
            FinishError::Unstash(_) => " to do it manually."@,
            _ => ""@,
        }
    }

    /// The message for the user.
    pub open spec fn message_text(self) -> Seq<char> {
        self.lead() + self.recovery() + self.tail()
    }

    /// The message for the user.
    pub fn message(&self) -> (r: String)
        ensures
            r@ == self.message_text(),
    {
        match self {
            FinishError::Unstash(report) => {
                let mut lead = report.clone();
                lead.append("\nFailed to unstash changes.\nUse ");
                recovery_message(lead, "git stash pop", " to do it manually.")
            },
            FinishError::Reset(sha) => recovery_message(
                lead_text(
                    "Failed to reset back to commit ",
                    sha.as_str(),
                    ".\nTo restore your repo to previous state, use:\n ",
                ),
                reset_text(sha.as_str()).as_str(),
                "",
            ),
            FinishError::ResetUnstash(sha) => recovery_message(
                lead_text(
                    "Failed to reset back to commit ",
                    sha.as_str(),
                    ".\nTo restore your repo state, use:\n ",
                ),
                reset_and_pop_text(sha.as_str()).as_str(),
                "",
            ),
            FinishError::MergeUnstash(sha) => recovery_message(
                lead_text(
                    "Failed to merge issue changes with commit ",
                    sha.as_str(),
                    ".\nTo restore your repo to previous state, use:\n ",
                ),
                reset_and_pop_text(sha.as_str()).as_str(),
                "",
            ),
            FinishError::Merge(sha) => recovery_message(
                lead_text(
                    "Failed to merge issue changes with commit ",
                    sha.as_str(),
                    ".\nTo restore your repo to previous state, use:\n ",
                ),
                reset_text(sha.as_str()).as_str(),
                "",
            ),
        }
    }
}

/// Changes could not be stashed: what the failed command reported.
#[derive(Debug)]
pub struct StashingError {
    pub message: String,
}

/// A transaction could not be started, finished or rolled back.
#[derive(Debug)]
pub enum TransactionError {
    /// The repository has no head to start from.
    BareRepository,
    /// The transaction could not be finished.
    FinishError(FinishError),
    /// There is no open transaction.
    NotStarted,
    /// The transaction could not be rolled back.
    RollBackFailed(RollbackError),
    /// The changes in the working tree could not be stashed.
    StashingError(StashingError),
}

impl TransactionError {
    /// The message for the user.
    pub open spec fn message_text(self) -> Seq<char> {
        match self {
            TransactionError::BareRepository => "Can not use bare git repository"@,
            TransactionError::FinishError(e) => e.message_text(),
            TransactionError::NotStarted => "Bug! Transaction not started!"@,
            TransactionError::RollBackFailed(e) => e.message_text(),
            TransactionError::StashingError(e) => e.message@,
        }
    }

    /// The code to exit with.
    pub open spec fn exit_code(self) -> int {
        match self {
            TransactionError::BareRepository => 169,
            TransactionError::NotStarted => 88,
            TransactionError::RollBackFailed(_) => 126,
            TransactionError::FinishError(_) => 126,
            TransactionError::StashingError(_) => 165,
        }
    }

    /// The message for the user.
    pub fn message(&self) -> (r: String)
        ensures
            r@ == self.message_text(),
    {
        match self {
            TransactionError::BareRepository => String::from_str(
                "Can not use bare git repository",
            ),
            TransactionError::FinishError(e) => e.message(),
            TransactionError::NotStarted => String::from_str("Bug! Transaction not started!"),
            TransactionError::RollBackFailed(e) => e.message(),
            TransactionError::StashingError(e) => e.message.clone(),
        }
    }

    /// The code and the message to exit with.
    pub fn exit_error(&self) -> (r: ExitError)
        ensures
            r.code == self.exit_code(),
            r.message@ == self.message_text(),
    {
        let code = match self {
            TransactionError::BareRepository => e_repo_bare(),
            TransactionError::NotStarted => edoofus(),
            TransactionError::RollBackFailed(_) => enotexec(),
            TransactionError::FinishError(_) => enotexec(),
            TransactionError::StashingError(_) => e_stash_error(),
        };
        ExitError { code, message: self.message() }
    }
}

/// A `FindError` with its texts as sequences of characters.
pub enum FindErrorView {
    NotFound(Seq<char>),
    MultipleFound(Seq<char>, Seq<Seq<char>>),
}

impl View for FindError {
    type V = FindErrorView;

    open spec fn view(&self) -> FindErrorView {
        match *self {
            FindError::NotFound(needle) => FindErrorView::NotFound(needle@),
            FindError::MultipleFound(needle, ids) => FindErrorView::MultipleFound(
                needle@,
                ids.deep_view(),
            ),
        }
    }
}

/// A `RollbackError` with its texts as sequences of characters.
pub enum RollbackErrorView {
    Unstash(Seq<char>),
    Reset(Seq<char>),
    ResetUnstash(Seq<char>),
}

impl View for RollbackError {
    type V = RollbackErrorView;

    open spec fn view(&self) -> RollbackErrorView {
        match *self {
            RollbackError::Unstash(report) => RollbackErrorView::Unstash(report@),
            RollbackError::Reset(sha) => RollbackErrorView::Reset(sha@),
            RollbackError::ResetUnstash(sha) => RollbackErrorView::ResetUnstash(sha@),
        }
    }
}

/// A `FinishError` with its texts as sequences of characters.
pub enum FinishErrorView {
    Unstash(Seq<char>),
    Reset(Seq<char>),
    ResetUnstash(Seq<char>),
    MergeUnstash(Seq<char>),
    Merge(Seq<char>),
}

impl View for FinishError {
    type V = FinishErrorView;

    open spec fn view(&self) -> FinishErrorView {
        match *self {
            FinishError::Unstash(report) => FinishErrorView::Unstash(report@),
            FinishError::Reset(sha) => FinishErrorView::Reset(sha@),
            FinishError::ResetUnstash(sha) => FinishErrorView::ResetUnstash(sha@),
            FinishError::MergeUnstash(sha) => FinishErrorView::MergeUnstash(sha@),
            FinishError::Merge(sha) => FinishErrorView::Merge(sha@),
        }
    }
}

/// A `TransactionError` with its texts as sequences of characters.
pub enum TransactionErrorView {
    BareRepository,
    FinishError(FinishErrorView),
    NotStarted,
    RollBackFailed(RollbackErrorView),
    StashingError(Seq<char>),
}

impl View for TransactionError {
    type V = TransactionErrorView;

    open spec fn view(&self) -> TransactionErrorView {
        match *self {
            TransactionError::BareRepository => TransactionErrorView::BareRepository,
            TransactionError::FinishError(e) => TransactionErrorView::FinishError(e@),
            TransactionError::NotStarted => TransactionErrorView::NotStarted,
            TransactionError::RollBackFailed(e) => TransactionErrorView::RollBackFailed(e@),
            TransactionError::StashingError(e) => TransactionErrorView::StashingError(e.message@),
        }
    }
}

/// Whether `part` stands somewhere in `text`.
pub open spec fn holds(text: Seq<char>, part: Seq<char>) -> bool {
    exists|i: int|
        0 <= i && i + part.len() <= text.len() && #[trigger] text.subrange(i, i + part.len())
            == part
}

/// What stands between two texts stands in the whole.
pub proof fn lemma_holds(before: Seq<char>, part: Seq<char>, after: Seq<char>)
    ensures
        holds(before + part + after, part),
{
    let text = before + part + after;
    let at = before.len() as int;
    assert(text.subrange(at, at + part.len()) =~= part);
}

/// The message of a rollback that failed holds, letter for letter, the commands
/// that restore the repository: the reset to the start where the reset failed,
/// and the pop of the stash where a stash waits.
pub proof fn law_rollback_names_recovery(e: RollbackError)
    ensures
        holds(e.message_text(), e.recovery()),
        e is Reset || e is ResetUnstash ==> reset_command(e.text()).is_prefix_of(e.recovery()),
        e is Unstash || e is ResetUnstash ==> pop_command().is_suffix_of(e.recovery()),
{
    lemma_holds(e.lead(), e.recovery(), e.tail());
    lemma_commands();
}

/// The message of a finish that failed holds, letter for letter, the commands that
/// restore the repository: the reset to the start where the reset or the merge
/// failed, and the pop of the stash where a stash waits.
pub proof fn law_finish_names_recovery(e: FinishError)
    ensures
        holds(e.message_text(), e.recovery()),
        !(e is Unstash) ==> reset_command(e.text()).is_prefix_of(e.recovery()),
        e is Unstash || e is ResetUnstash || e is MergeUnstash ==> pop_command().is_suffix_of(
            e.recovery(),
        ),
{
    lemma_holds(e.lead(), e.recovery(), e.tail());
    lemma_commands();
}

/// The two commands in a row begin with the one and end with the other.
proof fn lemma_commands()
    ensures
        forall|sha: Seq<char>| #[trigger]
            reset_command(sha).is_prefix_of(reset_and_pop_command(sha)),
        forall|sha: Seq<char>| pop_command().is_suffix_of(#[trigger] reset_and_pop_command(sha)),
        forall|sha: Seq<char>| #[trigger] reset_command(sha).is_prefix_of(reset_command(sha)),
        pop_command().is_suffix_of(pop_command()),
{
    assert forall|sha: Seq<char>| #[trigger]
        reset_command(sha).is_prefix_of(reset_and_pop_command(sha)) by {
        let all = reset_and_pop_command(sha);
        assert(all.subrange(0, reset_command(sha).len() as int) =~= reset_command(sha));
    }
    assert forall|sha: Seq<char>| pop_command().is_suffix_of(
        #[trigger] reset_and_pop_command(sha),
    ) by {
        let all = reset_and_pop_command(sha);
        assert(all.subrange(all.len() - pop_command().len(), all.len() as int)
            =~= pop_command());
    }
    assert forall|sha: Seq<char>| #[trigger]
        reset_command(sha).is_prefix_of(reset_command(sha)) by {
        assert(reset_command(sha).subrange(0, reset_command(sha).len() as int)
            =~= reset_command(sha));
    }
    assert(pop_command().subrange(0, pop_command().len() as int) =~= pop_command());
}

} // verus!
