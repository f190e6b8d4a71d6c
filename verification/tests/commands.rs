use git_issue::commands::{
    close_message, create, edit, ending, new_issue_message, new_issue_template, newline_fix,
    strip_comments, tag_message, Ending, COMMENT, DESCRIPTION, README,
};
use git_issue::{Id, IoError, WriteResult};

fn id(text: &str) -> Id {
    Id::new(text.to_owned())
}

#[test]
fn files_of_a_new_tracker() {
    let (files, commit) = create(false).unwrap();
    let paths: Vec<&str> = files.iter().map(|f| f.path.as_str()).collect();
    assert_eq!(paths, ["config", "templates/description", "templates/comment", "README.md"]);
    assert_eq!(files[0].content, "");
    assert_eq!(files[1].content, DESCRIPTION);
    assert_eq!(files[2].content, COMMENT);
    assert_eq!(files[3].content, README);
    assert!(DESCRIPTION.starts_with("\n\n# Start with a one-line summary of the issue."));
    assert_eq!(commit.message, "gi: Initialize issues repository\n\ngi init");
    assert!(!commit.allow_empty);
    assert!(!commit.bypass_hooks);
}

#[test]
fn a_tracker_is_made_once() {
    let e = create(true).unwrap_err();
    assert_eq!(e.code, posix_errors::EEXIST);
    assert_eq!(e.message, "An .issues directory is already present");
}

#[test]
fn comment_lines_are_dropped() {
    assert_eq!(strip_comments("Foo Bar\n\n# a comment\nText\n#\n"), "Foo Bar\n\nText");
    assert_eq!(strip_comments(DESCRIPTION), "\n");
    assert_eq!(strip_comments("# only\n"), "");
    assert_eq!(strip_comments(" # kept"), " # kept");
    assert_eq!(strip_comments(""), "");
}

#[test]
fn what_an_editor_left() {
    assert_eq!(edit(Some(0), Ok("Foo\n# x\n".to_owned())).unwrap(), "Foo");
    let killed = edit(None, Ok("Foo".to_owned())).unwrap_err();
    assert_eq!((killed.code, killed.message.as_str()), (4, "Process terminated by signal"));
    let aborted = edit(Some(1), Ok("Foo".to_owned())).unwrap_err();
    assert_eq!((aborted.code, aborted.message.as_str()), (1, "Editor aborted"));
    let failed = edit(Some(7), Ok("Foo".to_owned())).unwrap_err();
    assert_eq!((failed.code, failed.message.as_str()), (7, "Editor exited with error"));
    let unread = edit(
        Some(0),
        Err(IoError { not_found: true, code: 2, message: "gone".to_owned() }),
    )
    .unwrap_err();
    assert_eq!((unread.code, unread.message.as_str()), (2, "gone"));
}

#[test]
fn template_of_a_new_issue() {
    assert_eq!(
        new_issue_template(&Some("Foo".to_owned()), &Some("# help\n".to_owned())),
        "Foo\n\n# help\n"
    );
    assert_eq!(new_issue_template(&None, &None), "\n\n");
}

#[test]
fn messages_of_the_commands() {
    let a = id("2d9deaf1b8b146d7e3c4c92133532b314da3e350");
    let b = id("1f0c4a4fd4a58aafc3a8a4391b2be9d2a8d3e7f1");
    assert_eq!(new_issue_message(&a, "Foo Bar\n\nText"), "gi(2d9deaf1): Foo Bar");
    assert_eq!(close_message(&vec![a.clone()], "Foo Bar"), "DONE(2d9deaf1): Foo Bar");
    assert_eq!(
        close_message(&vec![a.clone(), b.clone()], "Foo Bar"),
        "gi: Closed 2d9deaf1, 1f0c4a4f"
    );
    assert_eq!(close_message(&vec![], "x"), "gi: Closed ");
    assert_eq!(tag_message(&a, false, &vec!["foo".to_owned()]), "gi(2d9deaf1): Add tag: foo");
    assert_eq!(
        tag_message(&a, false, &vec!["foo".to_owned(), "bar".to_owned()]),
        "gi(2d9deaf1): Add tags: foo, bar"
    );
    assert_eq!(tag_message(&b, true, &vec!["foo".to_owned()]), "gi(1f0c4a4f): Remove tag: foo");
}

#[test]
fn a_file_ends_with_a_line_feed() {
    assert_eq!(newline_fix("open\n"), None);
    assert_eq!(newline_fix("open"), Some("open\n".to_owned()));
    assert_eq!(newline_fix(""), Some("\n".to_owned()));
    assert_eq!(newline_fix("a\nb\r"), Some("a\nb\r\n".to_owned()));
}

#[test]
fn how_a_transaction_ends() {
    assert_eq!(ending(Some(WriteResult::Applied), true), Ending::Finish);
    assert_eq!(ending(Some(WriteResult::Applied), false), Ending::FinishWithoutMerge);
    assert_eq!(ending(Some(WriteResult::NoChanges), true), Ending::Rollback);
    assert_eq!(ending(Some(WriteResult::NoChanges), false), Ending::Rollback);
    assert_eq!(ending(None, true), Ending::Rollback);
}
