use git_issue::{
    DataSource, FinishError, Request, RollbackError, Step, TransactionError,
};

const START: &str = "1111111111111111111111111111111111111111";
const END: &str = "2222222222222222222222222222222222222222";

fn data() -> DataSource {
    DataSource::new("/r/.issues".to_owned())
}

fn opened(stash: bool) -> DataSource {
    let mut data = data();
    match data.start_transaction(Some(START.to_owned()), !stash) {
        Step::Done(Ok(())) => assert!(!stash),
        Step::Run(Request::Stash { .. }) => {
            assert!(stash);
            assert!(matches!(data.resume(Ok(())), Step::Done(Ok(()))));
        }
        other => panic!("unexpected {:?}", other),
    }
    data
}

fn failed(step: Step) -> TransactionError {
    match step {
        Step::Done(Err(e)) => e,
        other => panic!("expected a failure, got {:?}", other),
    }
}

fn reset(step: Step) -> String {
    match step {
        Step::Run(Request::ResetHard { sha }) => sha,
        other => panic!("expected a reset, got {:?}", other),
    }
}

#[test]
fn start_without_a_head_fails() {
    let mut data = data();
    let e = failed(data.start_transaction(None, true));
    assert!(matches!(e, TransactionError::BareRepository));
    assert!(data.transaction().is_none());
    assert!(!data.is_waiting());
}

#[test]
fn start_on_a_clean_tree_opens_at_once() {
    let mut data = data();
    assert!(matches!(data.start_transaction(Some(START.to_owned()), true), Step::Done(Ok(()))));
    let transaction = data.transaction().as_ref().expect("an open transaction");
    assert_eq!(transaction.start_sha, START);
    assert!(!transaction.stash_before);
}

#[test]
fn start_on_a_dirty_tree_stashes_first() {
    let mut data = data();
    match data.start_transaction(Some(START.to_owned()), false) {
        Step::Run(Request::Stash { message }) => {
            assert_eq!(message, "git-issue: Start Transaction")
        }
        other => panic!("expected a stash, got {:?}", other),
    }
    assert!(data.is_waiting());
    assert!(data.transaction().is_none());
    assert!(matches!(data.resume(Ok(())), Step::Done(Ok(()))));
    let transaction = data.transaction().as_ref().expect("an open transaction");
    assert_eq!(transaction.start_sha, START);
    assert!(transaction.stash_before);
}

#[test]
fn a_failed_stash_opens_nothing() {
    let mut data = data();
    data.start_transaction(Some(START.to_owned()), false);
    let e = failed(data.resume(Err("Failed to stash changes in GIT_WORK_TREE".to_owned())));
    match e {
        TransactionError::StashingError(s) => {
            assert_eq!(s.message, "Failed to stash changes in GIT_WORK_TREE")
        }
        other => panic!("unexpected {:?}", other),
    }
    assert!(data.transaction().is_none());
    assert!(!data.is_waiting());
}

#[test]
fn finish_resets_merges_and_pops() {
    let mut data = opened(true);
    assert_eq!(reset(data.finish_transaction("gi: done", END.to_owned())), START);
    match data.resume(Ok(())) {
        Step::Run(Request::Merge { sha, message }) => {
            assert_eq!(sha, END);
            assert_eq!(message, "gi: done");
        }
        other => panic!("expected a merge, got {:?}", other),
    }
    assert!(matches!(data.resume(Ok(())), Step::Run(Request::StashPop)));
    assert!(matches!(data.resume(Ok(())), Step::Done(Ok(()))));
    assert!(data.transaction().is_none());
    assert!(!data.is_waiting());
}

#[test]
fn finish_without_a_stash_pops_nothing() {
    let mut data = opened(false);
    assert_eq!(reset(data.finish_transaction("gi: done", END.to_owned())), START);
    assert!(matches!(data.resume(Ok(())), Step::Run(Request::Merge { .. })));
    assert!(matches!(data.resume(Ok(())), Step::Done(Ok(()))));
    assert!(data.transaction().is_none());
}

#[test]
fn finish_failures_name_the_start() {
    for stash in [false, true] {
        let mut data = opened(stash);
        data.finish_transaction("m", END.to_owned());
        match failed(data.resume(Err("fatal".to_owned()))) {
            TransactionError::FinishError(FinishError::Reset(sha)) => {
                assert!(!stash);
                assert_eq!(sha, START);
            }
            TransactionError::FinishError(FinishError::ResetUnstash(sha)) => {
                assert!(stash);
                assert_eq!(sha, START);
            }
            other => panic!("unexpected {:?}", other),
        }
        assert!(data.transaction().is_some(), "the transaction stays open");
        assert!(!data.is_waiting());

        let mut data = opened(stash);
        data.finish_transaction("m", END.to_owned());
        data.resume(Ok(()));
        match failed(data.resume(Err("conflict".to_owned()))) {
            TransactionError::FinishError(FinishError::Merge(sha)) => {
                assert!(!stash);
                assert_eq!(sha, START);
            }
            TransactionError::FinishError(FinishError::MergeUnstash(sha)) => {
                assert!(stash);
                assert_eq!(sha, START);
            }
            other => panic!("unexpected {:?}", other),
        }
        assert!(data.transaction().is_some());
    }
}

#[test]
fn a_failed_pop_reports_what_git_said() {
    let mut data = opened(true);
    data.finish_transaction("m", END.to_owned());
    data.resume(Ok(()));
    data.resume(Ok(()));
    match failed(data.resume(Err("Failed to pop stashed changes in GIT_WORK_TREE".to_owned()))) {
        TransactionError::FinishError(FinishError::Unstash(report)) => {
            assert_eq!(report, "Failed to pop stashed changes in GIT_WORK_TREE")
        }
        other => panic!("unexpected {:?}", other),
    }
    assert!(data.transaction().is_some());
}

#[test]
fn finish_without_merge_only_pops() {
    let mut data = opened(true);
    assert!(matches!(data.finish_transaction_without_merge(), Step::Run(Request::StashPop)));
    assert!(matches!(data.resume(Ok(())), Step::Done(Ok(()))));
    assert!(data.transaction().is_none());

    let mut data = opened(false);
    assert!(matches!(data.finish_transaction_without_merge(), Step::Done(Ok(()))));
    assert!(data.transaction().is_none());

    let mut data = opened(true);
    data.finish_transaction_without_merge();
    match failed(data.resume(Err("conflict".to_owned()))) {
        TransactionError::FinishError(FinishError::Unstash(report)) => {
            assert_eq!(report, "conflict")
        }
        other => panic!("unexpected {:?}", other),
    }
}

#[test]
fn rollback_resets_and_pops() {
    let mut data = opened(true);
    assert_eq!(reset(data.rollback_transaction()), START);
    assert!(matches!(data.resume(Ok(())), Step::Run(Request::StashPop)));
    assert!(matches!(data.resume(Ok(())), Step::Done(Ok(()))));
    assert!(data.transaction().is_none());

    let mut data = opened(false);
    assert_eq!(reset(data.rollback_transaction()), START);
    assert!(matches!(data.resume(Ok(())), Step::Done(Ok(()))));
    assert!(data.transaction().is_none());
}

#[test]
fn rollback_without_a_transaction_fails() {
    let mut data = data();
    assert!(matches!(failed(data.rollback_transaction()), TransactionError::NotStarted));
}

#[test]
fn rollback_failures_name_the_start() {
    for stash in [false, true] {
        let mut data = opened(stash);
        data.rollback_transaction();
        match failed(data.resume(Err("fatal".to_owned()))) {
            TransactionError::RollBackFailed(RollbackError::Reset(sha)) => {
                assert!(!stash);
                assert_eq!(sha, START);
            }
            TransactionError::RollBackFailed(RollbackError::ResetUnstash(sha)) => {
                assert!(stash);
                assert_eq!(sha, START);
            }
            other => panic!("unexpected {:?}", other),
        }
    }
    let mut data = opened(true);
    data.rollback_transaction();
    data.resume(Ok(()));
    match failed(data.resume(Err("conflict".to_owned()))) {
        TransactionError::RollBackFailed(RollbackError::Unstash(report)) => {
            assert_eq!(report, "conflict")
        }
        other => panic!("unexpected {:?}", other),
    }
}

#[test]
fn a_new_transaction_can_follow() {
    let mut data = opened(false);
    data.rollback_transaction();
    data.resume(Ok(()));
    assert!(matches!(data.start_transaction(Some(END.to_owned()), true), Step::Done(Ok(()))));
    assert_eq!(data.transaction().as_ref().unwrap().start_sha, END);
}
