//! The data source: the handle on one tracker, and the transaction that makes the
//! commits of several changes one entry of the history.
//!
//! Nothing here runs git. An operation on the transaction asks for one git command
//! at a time, and `DataSource::resume` is told how the command went: the operation
//! goes on, or ends with the failure that names the command.

use vstd::prelude::*;
use crate::errors::{
    FinishError, FinishErrorView, RollbackError, RollbackErrorView, StashingError, TransactionError,
    TransactionErrorView,
};

verus! {

/// An open transaction: where the branch stood when it began, and whether changes
/// in the working tree were stashed to begin it.
#[derive(Debug)]
pub struct Transaction {
    pub start_sha: String,
    pub stash_before: bool,
}

/// A `Transaction` with its hash as a sequence of characters.
pub struct TransactionView {
    pub start_sha: Seq<char>,
    pub stash_before: bool,
}

impl View for Transaction {
    type V = TransactionView;

    open spec fn view(&self) -> TransactionView {
        TransactionView { start_sha: self.start_sha@, stash_before: self.stash_before }
    }
}

/// A git command that the transaction asks for.
#[derive(Debug)]
pub enum Request {
    /// Stash all changes of the working tree, untracked files too, under `message`.
    Stash { message: String },
    /// Reset the branch and the working tree to the commit `sha`.
    ResetHard { sha: String },
    /// Merge the commit `sha` into the branch with a merge commit of its own, never
    /// by fast-forward, under `message`.
    Merge { sha: String, message: String },
    /// Pop the latest stash.
    StashPop,
}

/// A `Request` with its texts as sequences of characters.
pub enum RequestView {
    Stash { message: Seq<char> },
    ResetHard { sha: Seq<char> },
    Merge { sha: Seq<char>, message: Seq<char> },
    StashPop,
}

impl View for Request {
    type V = RequestView;

    open spec fn view(&self) -> RequestView {
        match *self {
            Request::Stash { message } => RequestView::Stash { message: message@ },
            Request::ResetHard { sha } => RequestView::ResetHard { sha: sha@ },
            Request::Merge { sha, message } => RequestView::Merge {
                sha: sha@,
                message: message@,
            },
            Request::StashPop => RequestView::StashPop,
        }
    }
}

/// Where an operation on the transaction stands: it asks for a command, whose
/// outcome `DataSource::resume` takes, or it has ended.
#[derive(Debug)]
pub enum Step {
    Run(Request),
    Done(Result<(), TransactionError>),
}

/// A `Step` with its texts as sequences of characters.
pub enum StepView {
    Run(RequestView),
    Done(Result<(), TransactionErrorView>),
}

impl View for Step {
    type V = StepView;

    open spec fn view(&self) -> StepView {
        match *self {
            Step::Run(request) => StepView::Run(request@),
            Step::Done(Ok(())) => StepView::Done(Ok(())),
            Step::Done(Err(e)) => StepView::Done(Err(e@)),
        }
    }
}

/// The command whose outcome an operation waits for.
#[derive(Debug)]
pub enum Pending {
    Nothing,
    /// Starting: the stash of the working tree's changes.
    Stash { start_sha: String },
    /// Finishing: the reset to the start, `end_sha` being the head it left.
    FinishReset { end_sha: String, message: String },
    /// Finishing: the merge of what the transaction committed.
    FinishMerge,
    /// Finishing: the pop of the stash.
    FinishUnstash,
    /// Rolling back: the reset to the start.
    RollbackReset,
    /// Rolling back: the pop of the stash.
    RollbackUnstash,
}

/// A `Pending` with its texts as sequences of characters.
pub enum PendingView {
    Nothing,
    Stash { start_sha: Seq<char> },
    FinishReset { end_sha: Seq<char>, message: Seq<char> },
    FinishMerge,
    FinishUnstash,
    RollbackReset,
    RollbackUnstash,
}

impl View for Pending {
    type V = PendingView;

    open spec fn view(&self) -> PendingView {
        match *self {
            Pending::Nothing => PendingView::Nothing,
            Pending::Stash { start_sha } => PendingView::Stash { start_sha: start_sha@ },
            Pending::FinishReset { end_sha, message } => PendingView::FinishReset {
                end_sha: end_sha@,
                message: message@,
            },
            Pending::FinishMerge => PendingView::FinishMerge,
            Pending::FinishUnstash => PendingView::FinishUnstash,
            Pending::RollbackReset => PendingView::RollbackReset,
            Pending::RollbackUnstash => PendingView::RollbackUnstash,
        }
    }
}

/// The state of the transaction coordinator: the open transaction, where there is
/// one, and the command it waits for.
pub struct Coordinator {
    pub transaction: Option<TransactionView>,
    pub pending: PendingView,
}

/// The message under which the working tree's changes are stashed.
pub open spec fn stash_message() -> Seq<char> {
    "git-issue: Start Transaction"@
}

impl Coordinator {
    /// No transaction is open and nothing is waited for.
    pub open spec fn idle(self) -> bool {
        self.transaction is None && self.pending is Nothing
    }

    /// A transaction is open and nothing is waited for.
    pub open spec fn open(self) -> bool {
        self.transaction is Some && self.pending is Nothing
    }

    /// The state is one that the operations lead to: a command of finishing or of
    /// rolling back is waited for only while a transaction is open, the stash that
    /// starts one only while none is.
    pub open spec fn wf(self) -> bool {
        match self.pending {
            PendingView::Nothing => true,
            PendingView::Stash { .. } => self.transaction is None,
            _ => self.transaction is Some,
        }
    }

    /// The reset that failed, named by the commit that it should have reached.
    pub open spec fn reset_failure(t: TransactionView) -> FinishErrorView {
        if t.stash_before {
            FinishErrorView::ResetUnstash(t.start_sha)
        } else {
            FinishErrorView::Reset(t.start_sha)
        }
    }

    /// The merge that failed, named by the commit that it should have built on.
    pub open spec fn merge_failure(t: TransactionView) -> FinishErrorView {
        if t.stash_before {
            FinishErrorView::MergeUnstash(t.start_sha)
        } else {
            FinishErrorView::Merge(t.start_sha)
        }
    }

    /// The reset of a rollback that failed.
    pub open spec fn rollback_failure(t: TransactionView) -> RollbackErrorView {
        if t.stash_before {
            RollbackErrorView::ResetUnstash(t.start_sha)
        } else {
            RollbackErrorView::Reset(t.start_sha)
        }
    }

    /// Starting a transaction on a branch whose head is `head`, `None` where the
    /// repository has none, in a working tree that is `clean` or not.
    pub open spec fn start(self, head: Option<Seq<char>>, clean: bool) -> (Coordinator, StepView) {
        match head {
            None => (self, StepView::Done(Err(TransactionErrorView::BareRepository))),
            Some(sha) => if clean {
                (
                    Coordinator {
                        transaction: Some(
                            TransactionView { start_sha: sha, stash_before: false },
                        ),
                        pending: PendingView::Nothing,
                    },
                    StepView::Done(Ok(())),
                )
            } else {
                (
                    Coordinator {
                        transaction: None,
                        pending: PendingView::Stash { start_sha: sha },
                    },
                    StepView::Run(RequestView::Stash { message: stash_message() }),
                )
            },
        }
    }

    /// Finishing the open transaction under `message`, the head of the branch being
    /// `head` now.
    pub open spec fn finish(self, message: Seq<char>, head: Seq<char>) -> (Coordinator, StepView) {
        (
            Coordinator {
                transaction: self.transaction,
                pending: PendingView::FinishReset { end_sha: head, message },
            },
            StepView::Run(RequestView::ResetHard { sha: self.transaction->0.start_sha }),
        )
    }

    /// What follows the last command of an operation that went well: the pop of
    /// the stash where there is one, else the end.
    pub open spec fn unstash_or_end(self, pop: PendingView) -> (Coordinator, StepView) {
        if self.transaction->0.stash_before {
            (
                Coordinator { transaction: self.transaction, pending: pop },
                StepView::Run(RequestView::StashPop),
            )
        } else {
            (
                Coordinator { transaction: None, pending: PendingView::Nothing },
                StepView::Done(Ok(())),
            )
        }
    }

    /// Finishing the open transaction without a merge.
    pub open spec fn finish_without_merge(self) -> (Coordinator, StepView) {
        self.unstash_or_end(PendingView::FinishUnstash)
    }

    /// Rolling back.
    pub open spec fn rollback(self) -> (Coordinator, StepView) {
        match self.transaction {
            None => (self, StepView::Done(Err(TransactionErrorView::NotStarted))),
            Some(t) => (
                Coordinator { transaction: self.transaction, pending: PendingView::RollbackReset },
                StepView::Run(RequestView::ResetHard { sha: t.start_sha }),
            ),
        }
    }

    /// The operation that waits goes on, its command having ended with `outcome`:
    /// `Ok`, or what the failed command reported.
    pub open spec fn resume(self, outcome: Result<(), Seq<char>>) -> (Coordinator, StepView) {
        let stay = Coordinator { transaction: self.transaction, pending: PendingView::Nothing };
        let closed = Coordinator { transaction: None, pending: PendingView::Nothing };
        match (self.pending, outcome) {
            (PendingView::Nothing, _) => (self, StepView::Done(Ok(()))),
            (PendingView::Stash { start_sha }, Ok(_)) => (
                Coordinator {
                    transaction: Some(TransactionView { start_sha, stash_before: true }),
                    pending: PendingView::Nothing,
                },
                StepView::Done(Ok(())),
            ),
            (PendingView::Stash { .. }, Err(report)) => (
                closed,
                StepView::Done(Err(TransactionErrorView::StashingError(report))),
            ),
            (PendingView::FinishReset { end_sha, message }, Ok(_)) => (
                Coordinator { transaction: self.transaction, pending: PendingView::FinishMerge },
                StepView::Run(RequestView::Merge { sha: end_sha, message }),
            ),
            (PendingView::FinishReset { .. }, Err(_)) => (
                stay,
                StepView::Done(
                    Err(
                        TransactionErrorView::FinishError(
                            Self::reset_failure(self.transaction->0),
                        ),
                    ),
                ),
            ),
            (PendingView::FinishMerge, Ok(_)) => stay.unstash_or_end(PendingView::FinishUnstash),
            (PendingView::FinishMerge, Err(_)) => (
                stay,
                StepView::Done(
                    Err(
                        TransactionErrorView::FinishError(
                            Self::merge_failure(self.transaction->0),
                        ),
                    ),
                ),
            ),
            (PendingView::FinishUnstash, Ok(_)) => (closed, StepView::Done(Ok(()))),
            (PendingView::FinishUnstash, Err(report)) => (
                stay,
                StepView::Done(
                    Err(TransactionErrorView::FinishError(FinishErrorView::Unstash(report))),
                ),
            ),
            (PendingView::RollbackReset, Ok(_)) => stay.unstash_or_end(
                PendingView::RollbackUnstash,
            ),
            (PendingView::RollbackReset, Err(_)) => (
                stay,
                StepView::Done(
                    Err(
                        TransactionErrorView::RollBackFailed(
                            Self::rollback_failure(self.transaction->0),
                        ),
                    ),
                ),
            ),
            (PendingView::RollbackUnstash, Ok(_)) => (closed, StepView::Done(Ok(()))),
            (PendingView::RollbackUnstash, Err(report)) => (
                stay,
                StepView::Done(
                    Err(TransactionErrorView::RollBackFailed(RollbackErrorView::Unstash(report))),
                ),
            ),
        }
    }
}

/// The handle on one tracker: the directory `.issues` and the transaction.
#[derive(Debug)]
pub struct DataSource {
    issues_dir: String,
    transaction: Option<Transaction>,
    pending: Pending,
}

impl View for DataSource {
    type V = Coordinator;

    closed spec fn view(&self) -> Coordinator {
        Coordinator {
            transaction: match self.transaction {
                Some(t) => Some(t@),
                None => None,
            },
            pending: self.pending@,
        }
    }
}

impl DataSource {
    /// States between operations are well formed.
    #[verifier::type_invariant]
    closed spec fn inv(&self) -> bool {
        self@.wf()
    }

    /// The path of the directory `.issues`.
    pub closed spec fn dir(&self) -> Seq<char> {
        self.issues_dir@
    }

    /// The handle on the tracker in the directory `issues_dir`, with no transaction.
    pub fn new(issues_dir: String) -> (r: Self)
        ensures
            r.dir() == issues_dir@,
            r@.idle(),
    {
        DataSource { issues_dir, transaction: None, pending: Pending::Nothing }
    }

    /// The path of the directory `.issues`.
    pub fn issues_dir(&self) -> (r: &String)
        ensures
            r@ == self.dir(),
    {
        &self.issues_dir
    }

    /// The open transaction, where there is one.
    pub fn transaction(&self) -> (r: &Option<Transaction>)
        ensures
            r.is_some() == self@.transaction is Some,
            r matches Some(t) ==> t@ == self@.transaction->0,
    {
        &self.transaction
    }

    /// Whether an operation waits for the outcome of a command.
    pub fn is_waiting(&self) -> (r: bool)
        ensures
            r == !(self@.pending is Nothing),
    {
        match self.pending {
            Pending::Nothing => false,
            _ => true,
        }
    }

    /// Starts a transaction. `head` is the commit that the branch points to, `None`
    /// where none can be resolved; `clean` says whether the working tree is free of
    /// changes. Fails with `BareRepository` where there is no head. In a clean tree
    /// the transaction is open at once; else the changes are to be stashed first,
    /// and the transaction is open when `resume` hears that they were.
    pub fn start_transaction(&mut self, head: Option<String>, clean: bool) -> (r: Step)
        requires
            old(self)@.idle(),
        ensures
            (final(self)@, r@) == old(self)@.start(head.deep_view(), clean),
            final(self).dir() == old(self).dir(),
    {
        match head {
            None => Step::Done(Err(TransactionError::BareRepository)),
            Some(start_sha) => {
                if clean {
                    self.transaction = Some(Transaction { start_sha, stash_before: false });
                    Step::Done(Ok(()))
                } else {
                    self.pending = Pending::Stash { start_sha };
                    Step::Run(
                        Request::Stash { message: String::from_str("git-issue: Start Transaction") },
                    )
                }
            },
        }
    }

    /// Finishes the open transaction: the commits made since its start become one
    /// entry of the branch's history, a merge commit under `message` whose parents
    /// are the start and `head`, the commit that the branch points to now. The
    /// branch is reset to the start, then `head` is merged, then the stash, where
    /// there is one, is popped. A command that fails ends the operation with the
    /// error that names it; the transaction stays open then.
    pub fn finish_transaction(&mut self, message: &str, head: String) -> (r: Step)
        requires
            old(self)@.open(),
        ensures
            (final(self)@, r@) == old(self)@.finish(message@, head@),
            final(self).dir() == old(self).dir(),
    {
        let sha = match &self.transaction {
            Some(t) => t.start_sha.clone(),
            None => String::new(),
        };
        self.pending = Pending::FinishReset { end_sha: head, message: message.to_owned() };
        Step::Run(Request::ResetHard { sha })
    }

    /// Finishes the open transaction without a merge, for a change whose one commit
    /// is itself the entry of the history: only the stash, where there is one, is
    /// popped.
    pub fn finish_transaction_without_merge(&mut self) -> (r: Step)
        requires
            old(self)@.open(),
        ensures
            (final(self)@, r@) == old(self)@.finish_without_merge(),
            final(self).dir() == old(self).dir(),
    {
        self.unstash_or_end(Pending::FinishUnstash)
    }

    /// Rolls the open transaction back: the branch is reset to the start, which
    /// drops the commits made since, then the stash, where there is one, is popped.
    /// Fails with `NotStarted` where no transaction is open.
    pub fn rollback_transaction(&mut self) -> (r: Step)
        requires
            old(self)@.pending is Nothing,
        ensures
            (final(self)@, r@) == old(self)@.rollback(),
            final(self).dir() == old(self).dir(),
    {
        let sha = match &self.transaction {
            Some(t) => t.start_sha.clone(),
            None => {
                return Step::Done(Err(TransactionError::NotStarted));
            },
        };
        self.pending = Pending::RollbackReset;
        Step::Run(Request::ResetHard { sha })
    }

    /// Goes on with the operation that waits, its command having ended with
    /// `outcome`: `Ok`, or what the failed command reported.
    pub fn resume(&mut self, outcome: Result<(), String>) -> (r: Step)
        requires
            !(old(self)@.pending is Nothing),
        ensures
            (final(self)@, r@) == old(self)@.resume(report_of(outcome)),
            final(self).dir() == old(self).dir(),
    {
        proof {
            use_type_invariant(&*self);
        }
        match &self.pending {
            Pending::Nothing => Step::Done(Ok(())),
            Pending::Stash { start_sha } => {
                let start_sha = start_sha.clone();
                self.pending = Pending::Nothing;
                match outcome {
                    Ok(_) => {
                        self.transaction = Some(Transaction { start_sha, stash_before: true });
                        Step::Done(Ok(()))
                    },
                    Err(message) => Step::Done(
                        Err(TransactionError::StashingError(StashingError { message })),
                    ),
                }
            },
            Pending::FinishReset { end_sha, message } => {
                let sha = end_sha.clone();
                let message = message.clone();
                match outcome {
                    Ok(_) => {
                        self.pending = Pending::FinishMerge;
                        Step::Run(Request::Merge { sha, message })
                    },
                    Err(_) => {
                        self.pending = Pending::Nothing;
                        let (start_sha, stashed) = self.started();
                        Step::Done(
                            Err(
                                TransactionError::FinishError(
                                    if stashed {
                                        FinishError::ResetUnstash(start_sha)
                                    } else {
                                        FinishError::Reset(start_sha)
                                    },
                                ),
                            ),
                        )
                    },
                }
            },
            Pending::FinishMerge => {
                self.pending = Pending::Nothing;
                match outcome {
                    Ok(_) => self.unstash_or_end(Pending::FinishUnstash),
                    Err(_) => {
                        let (start_sha, stashed) = self.started();
                        Step::Done(
                            Err(
                                TransactionError::FinishError(
                                    if stashed {
                                        FinishError::MergeUnstash(start_sha)
                                    } else {
                                        FinishError::Merge(start_sha)
                                    },
                                ),
                            ),
                        )
                    },
                }
            },
            Pending::FinishUnstash => {
                self.pending = Pending::Nothing;
                match outcome {
                    Ok(_) => {
                        self.transaction = None;
                        Step::Done(Ok(()))
                    },
                    Err(report) => Step::Done(
                        Err(TransactionError::FinishError(FinishError::Unstash(report))),
                    ),
                }
            },
            Pending::RollbackReset => {
                self.pending = Pending::Nothing;
                match outcome {
                    Ok(_) => self.unstash_or_end(Pending::RollbackUnstash),
                    Err(_) => {
                        let (start_sha, stashed) = self.started();
                        Step::Done(
                            Err(
                                TransactionError::RollBackFailed(
                                    if stashed {
                                        RollbackError::ResetUnstash(start_sha)
                                    } else {
                                        RollbackError::Reset(start_sha)
                                    },
                                ),
                            ),
                        )
                    },
                }
            },
            Pending::RollbackUnstash => {
                self.pending = Pending::Nothing;
                match outcome {
                    Ok(_) => {
                        self.transaction = None;
                        Step::Done(Ok(()))
                    },
                    Err(report) => Step::Done(
                        Err(TransactionError::RollBackFailed(RollbackError::Unstash(report))),
                    ),
                }
            },
        }
    }

    /// The start of the open transaction and whether it stashed.
    fn started(&self) -> (r: (String, bool))
        requires
            self@.transaction is Some,
        ensures
            r.0@ == self@.transaction->0.start_sha,
            r.1 == self@.transaction->0.stash_before,
    {
        match &self.transaction {
            Some(t) => (t.start_sha.clone(), t.stash_before),
            None => (String::new(), false),
        }
    }

    /// Asks for the pop of the stash, where there is one, and else closes the
    /// transaction.
    fn unstash_or_end(&mut self, pop: Pending) -> (r: Step)
        requires
            old(self)@.open(),
            pop is FinishUnstash || pop is RollbackUnstash,
        ensures
            (final(self)@, r@) == old(self)@.unstash_or_end(pop@),
            final(self).dir() == old(self).dir(),
    {
        let (_, stashed) = self.started();
        if stashed {
            self.pending = pop;
            Step::Run(Request::StashPop)
        } else {
            self.transaction = None;
            Step::Done(Ok(()))
        }
    }
}

/// The outcome of a command with its report as a sequence of characters.
pub open spec fn report_of(outcome: Result<(), String>) -> Result<(), Seq<char>> {
    match outcome {
        Ok(_) => Ok(()),
        Err(report) => Err(report@),
    }
}

} // verus!
