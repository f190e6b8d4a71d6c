use git_issue::codes::{
    e_editor_killed, e_issues_dir_exist, e_repo_bare, e_repo_exist, e_stash_error,
};
use git_issue::{
    CacheError, CommitError, FindError, FinishError, Id, InitError, IoError, RollbackError,
    StagingError, StashingError, TransactionError, WriteError, WritePropertyError,
};

#[test]
fn exit_codes_of_the_tracker() {
    assert_eq!(e_editor_killed(), 4);
    assert_eq!(e_repo_exist(), 145);
    assert_eq!(e_repo_bare(), 169);
    assert_eq!(e_issues_dir_exist(), 161);
    assert_eq!(e_stash_error(), 165);
}

#[test]
fn exit_codes_are_built_on_the_posix_codes() {
    assert_eq!(e_editor_killed(), posix_errors::EINTR);
    assert_eq!(e_repo_exist(), 128 + posix_errors::EEXIST);
    assert_eq!(e_repo_bare(), 128 + posix_errors::EPROTOTYPE);
    assert_eq!(e_issues_dir_exist(), 128 + 16 + posix_errors::EEXIST);
    assert_eq!(e_stash_error(), 128 + 16 + 16 + posix_errors::EIO);
}

#[test]
fn find_error_not_found() {
    let e = FindError::NotFound("123eaf".to_owned());
    assert_eq!(e.message(), "Not found issue with prefix 123eaf");
    let exit = e.exit_error();
    assert_eq!(exit.code, 2);
    assert_eq!(exit.message, "Not found issue with prefix 123eaf");
}

#[test]
fn find_error_multiple_found_lists_the_candidates() {
    let e = FindError::MultipleFound(
        "1f".to_owned(),
        vec![Id::new("1f0c4a".to_owned()), Id::new("1f9b\"1".to_owned())],
    );
    assert_eq!(
        e.message(),
        "Issue prefix 1f matched multiple issues: [\"1f0c4a\", \"1f9b\\\"1\"] "
    );
    let one = FindError::MultipleFound("1".to_owned(), vec![Id::new("1f0c4a".to_owned())]);
    assert_eq!(one.message(), "Issue prefix 1 matched multiple issues: [\"1f0c4a\"] ");
    assert_eq!(one.exit_error().code, posix_errors::ENOENT);
}

#[test]
fn init_errors() {
    assert_eq!(InitError::GitRepoNotFound.message(), "Git repository not found");
    assert_eq!(
        InitError::IssuesRepoNotFound.message(),
        "Not an issues repository (or any of the parent directories)"
    );
    assert_eq!(InitError::GitRepoNotFound.exit_error().code, 145);
    assert_eq!(InitError::IssuesRepoNotFound.exit_error().code, 161);
}

#[test]
fn write_errors() {
    let io = WritePropertyError::IoError(IoError {
        not_found: false,
        code: 13,
        message: "Permission denied".to_owned(),
    });
    assert_eq!(io.message(), "Permission denied");
    assert_eq!(io.exit_error().code, 13);

    let bare = WriteError::PropertyError(WritePropertyError::StagingError(
        StagingError::BareRepository,
    ));
    assert_eq!(bare.exit_error().code, 169);
    assert_eq!(bare.exit_error().message, "Can not use bare git repository");

    let missing = WritePropertyError::StagingError(StagingError::FileDoesNotExist(
        "issues/ab/cd/tags".to_owned(),
    ));
    assert_eq!(missing.message(), "File does not exist: `issues/ab/cd/tags`");
    assert_eq!(missing.exit_error().code, posix_errors::EDOOFUS);
    assert_eq!(missing.exit_error().message, "Unstaged file \"issues/ab/cd/tags\" Bug?");

    let failed =
        WritePropertyError::StagingError(StagingError::Failure("fatal: nope".to_owned(), 3));
    assert_eq!(failed.message(), "`fatal: nope`");
    assert_eq!(failed.exit_error().code, 3);
    assert_eq!(failed.exit_error().message, "fatal: nope");

    let commit = WriteError::CommitError(CommitError::Failure("nothing to commit".to_owned(), 1));
    assert_eq!(commit.message(), "`nothing to commit`");
    assert_eq!(commit.exit_error().code, 1);
    assert_eq!(commit.exit_error().message, "nothing to commit");

    let bare_commit = WriteError::CommitError(CommitError::BareRepository);
    assert_eq!(bare_commit.exit_error().code, 169);
    assert_eq!(bare_commit.exit_error().message, "Bare repository");
}

#[test]
fn rollback_errors_name_the_commands_that_restore() {
    assert_eq!(
        RollbackError::Unstash("conflict".to_owned()).message(),
        "conflict\nFailed to unstash changes.\nUse git stash pop to do it manually."
    );
    assert_eq!(
        RollbackError::Reset("abc123".to_owned()).message(),
        "Failed to reset back to commit abc123.\nUse git reset --hard abc123."
    );
    assert_eq!(
        RollbackError::ResetUnstash("abc123".to_owned()).message(),
        "Failed to reset back to commit abc123.\nTo restore your data use:\n git reset --hard abc123 && git stash pop"
    );
}

#[test]
fn finish_errors_name_the_commands_that_restore() {
    assert_eq!(
        FinishError::Unstash("conflict".to_owned()).message(),
        "conflict\nFailed to unstash changes.\nUse git stash pop to do it manually."
    );
    assert_eq!(
        FinishError::Reset("abc123".to_owned()).message(),
        "Failed to reset back to commit abc123.\nTo restore your repo to previous state, use:\n git reset --hard abc123"
    );
    assert_eq!(
        FinishError::ResetUnstash("abc123".to_owned()).message(),
        "Failed to reset back to commit abc123.\nTo restore your repo state, use:\n git reset --hard abc123 && git stash pop"
    );
    assert_eq!(
        FinishError::Merge("abc123".to_owned()).message(),
        "Failed to merge issue changes with commit abc123.\nTo restore your repo to previous state, use:\n git reset --hard abc123"
    );
    assert_eq!(
        FinishError::MergeUnstash("abc123".to_owned()).message(),
        "Failed to merge issue changes with commit abc123.\nTo restore your repo to previous state, use:\n git reset --hard abc123 && git stash pop"
    );
    for stashed in [
        FinishError::Unstash("x".to_owned()),
        FinishError::ResetUnstash("x".to_owned()),
        FinishError::MergeUnstash("x".to_owned()),
    ] {
        assert!(stashed.message().contains("git stash pop"));
    }
}

#[test]
fn transaction_errors() {
    let bare = TransactionError::BareRepository;
    assert_eq!(bare.message(), "Can not use bare git repository");
    assert_eq!(bare.exit_error().code, 169);

    let bug = TransactionError::NotStarted;
    assert_eq!(bug.message(), "Bug! Transaction not started!");
    assert_eq!(bug.exit_error().code, posix_errors::EDOOFUS);

    let rollback = TransactionError::RollBackFailed(RollbackError::Reset("abc".to_owned()));
    assert_eq!(rollback.exit_error().code, posix_errors::ENOTEXEC);
    assert_eq!(rollback.exit_error().message, rollback.message());

    let finish = TransactionError::FinishError(FinishError::Merge("abc".to_owned()));
    assert_eq!(finish.exit_error().code, 126);

    let stash = TransactionError::StashingError(StashingError {
        message: "Failed to stash changes in GIT_WORK_TREE".to_owned(),
    });
    assert_eq!(stash.message(), "Failed to stash changes in GIT_WORK_TREE");
    assert_eq!(stash.exit_error().code, 165);
}

#[test]
fn cache_errors() {
    let parse = CacheError::ParseError("no date".to_owned());
    assert_eq!(parse.exit_error().code, posix_errors::EINVAL);
    assert_eq!(parse.message(), "no date");
    let io = CacheError::Io(IoError { not_found: true, code: 2, message: "gone".to_owned() });
    assert_eq!(io.exit_error().code, 2);
    assert_eq!(io.exit_error().message, "gone");
}
