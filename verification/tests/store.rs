use git_issue::{
    Action, ChangeAction, CommitProperty, DataSource, Id, IoError, Property, WriteResult,
};

const ID: &str = "2d9deaf1b8b146d7e3c4c92133532b314da3e350";

fn data() -> DataSource {
    DataSource::new("/r/.issues".to_owned())
}

fn id() -> Id {
    Id::new(ID.to_owned())
}

fn some(text: &str) -> Option<String> {
    Some(text.to_owned())
}

fn gone() -> IoError {
    IoError { not_found: true, code: 2, message: "No such file or directory".to_owned() }
}

#[test]
fn file_names() {
    assert_eq!(Property::Description.filename(), "description");
    assert_eq!(Property::DueDate.filename(), "duedate");
    assert_eq!(Property::Tags.filename(), "tags");
    assert_eq!(Property::Milestone.filename(), "milestone");
    let tag = CommitProperty::Tag { action: Action::Add, tag: "x".to_owned() };
    assert_eq!(tag.filename(), "tags");
    let milestone = CommitProperty::Milestone { action: Action::Remove, milestone: "x".to_owned() };
    assert_eq!(milestone.filename(), "milestone");
    let description = CommitProperty::Description {
        action: ChangeAction::New,
        id: ID.to_owned(),
        description: "x".to_owned(),
    };
    assert_eq!(description.filename(), "description");
}

#[test]
fn read_strips_one_trailing_line_feed() {
    assert_eq!(DataSource::read("Foo Bar\n"), "Foo Bar");
    assert_eq!(DataSource::read("Foo\n\n"), "Foo\n");
    assert_eq!(DataSource::read("Foo\n\nBar  \n\n"), "Foo\n\nBar  \n");
    assert_eq!(DataSource::read("Q1 \n"), "Q1 ");
    assert_eq!(DataSource::read("Foo\r\n"), "Foo\r");
    assert_eq!(DataSource::read("Foo Bar"), "Foo Bar");
    assert_eq!(DataSource::read("Foo "), "Foo ");
    assert_eq!(DataSource::read("\n"), "");
    assert_eq!(DataSource::read(""), "");
}

#[test]
fn tags_of_a_file() {
    assert_eq!(DataSource::tags(&some("foo\nopen\n")), ["foo", "open"]);
    assert_eq!(DataSource::tags(&some("\nclosed\n")), ["closed"]);
    assert_eq!(DataSource::tags(&some("\n")), Vec::<String>::new());
    assert_eq!(DataSource::tags(&some("  a\n\nb  ")), ["a", "", "b"]);
    assert_eq!(DataSource::tags(&None), Vec::<String>::new());
}

#[test]
fn milestone_of_a_file() {
    assert_eq!(DataSource::milestone(&some("Q1\n")), some("Q1"));
    assert_eq!(DataSource::milestone(&some("World Domination!\n")), some("World Domination!"));
    assert_eq!(DataSource::milestone(&some("Q1 \n")), some("Q1 "));
    assert_eq!(DataSource::milestone(&some("Q1\n\n")), some("Q1\n"));
    assert_eq!(DataSource::milestone(&some("")), some(""));
    assert_eq!(DataSource::milestone(&None), None);
}

#[test]
fn a_milestone_with_a_blank_at_its_end_is_set_once() {
    let first = data().add_milestone(&id(), "Q1 ", &None);
    assert_eq!(first.result, WriteResult::Applied);
    let file = first.writes[0].content.clone();
    assert_eq!(file, some("Q1 \n"));
    let again = data().add_milestone(&id(), "Q1 ", &file);
    assert_eq!(again.result, WriteResult::NoChanges);
    assert!(again.writes.is_empty());
    assert_eq!(data().add_milestone(&id(), "Q1", &file).result, WriteResult::Applied);
}

#[test]
fn title_is_the_first_line() {
    assert_eq!(DataSource::title(Ok("Foo Bar\n\nLong text\n".to_owned())).unwrap(), "Foo Bar");
    assert_eq!(DataSource::title(Ok("Foo Bar\r\nMore".to_owned())).unwrap(), "Foo Bar");
    assert_eq!(DataSource::title(Ok("\n".to_owned())).unwrap(), "");
    assert_eq!(DataSource::title(Ok("Foo Bar  \n".to_owned())).unwrap(), "Foo Bar  ");
    assert_eq!(DataSource::title(Err(gone())).unwrap_err().code, 2);
}

#[test]
fn content_of_a_description() {
    let change = |text: &str| CommitProperty::Description {
        action: ChangeAction::New,
        id: ID.to_owned(),
        description: text.to_owned(),
    };
    assert_eq!(change("Foo Bar").content(&None), some("Foo Bar\n"));
    assert_eq!(change("Foo Bar\n\n  ").content(&some("old")), some("Foo Bar\n"));
    assert_eq!(change("").content(&None), some("\n"));
    // written and read again, a description comes back without trailing whitespace
    for text in ["Foo Bar", "Foo\nBar\n", " x \t", ""] {
        let written = change(text).content(&None).unwrap();
        assert_eq!(DataSource::read(&written), text.trim_end());
        assert_eq!(written, format!("{}\n", DataSource::read(&written)));
    }
}

#[test]
fn content_of_the_tags() {
    let add = |tag: &str| CommitProperty::Tag { action: Action::Add, tag: tag.to_owned() };
    let remove = |tag: &str| CommitProperty::Tag { action: Action::Remove, tag: tag.to_owned() };
    assert_eq!(add("open").content(&None), some("open\n"));
    assert_eq!(add("foo").content(&some("open\n")), some("foo\nopen\n"));
    assert_eq!(add("open").content(&some("open\n")), some("open\n"));
    assert_eq!(add("b").content(&some("c\na\nc\n")), some("a\nb\nc\n"));
    assert_eq!(remove("foo").content(&some("foo\nopen\n")), some("open\n"));
    assert_eq!(remove("x").content(&some("b\na\na\n")), some("a\nb\n"));
    assert_eq!(remove("open").content(&some("open\n")), some("\n"));
    assert_eq!(remove("open").content(&None), some("\n"));
    assert_eq!(add("closed").content(&some("\n")), some("\nclosed\n"));
}

#[test]
fn content_of_the_milestone() {
    let add = CommitProperty::Milestone { action: Action::Add, milestone: "Q1".to_owned() };
    let remove = CommitProperty::Milestone { action: Action::Remove, milestone: "Q1".to_owned() };
    assert_eq!(add.content(&some("Q0\n")), some("Q1\n"));
    assert_eq!(add.content(&None), some("Q1\n"));
    assert_eq!(remove.content(&some("Q1\n")), None);
}

#[test]
fn commit_messages() {
    let target = id();
    let new = CommitProperty::Description {
        action: ChangeAction::New,
        id: ID.to_owned(),
        description: "x".to_owned(),
    };
    assert_eq!(
        new.message(&target),
        format!("gi: Add issue description\n\ngi new description {}", ID)
    );
    let edit = CommitProperty::Description {
        action: ChangeAction::Edit,
        id: ID.to_owned(),
        description: "x".to_owned(),
    };
    assert_eq!(
        edit.message(&target),
        format!("gi: Edit issue description\n\ngit edit description {}", ID)
    );
    let tag = |action| CommitProperty::Tag { action, tag: "foo".to_owned() };
    assert_eq!(tag(Action::Add).message(&target), "gi(2d9deaf1): Add tag foo\n\ngi tag add foo");
    assert_eq!(
        tag(Action::Remove).message(&target),
        "gi(2d9deaf1): Remove tag foo\n\ngi tag remove foo"
    );
    let milestone = |action| CommitProperty::Milestone { action, milestone: "Q1".to_owned() };
    assert_eq!(
        milestone(Action::Add).message(&target),
        "gi(2d9deaf1): Add milestone Q1\n\ngi milestone add Q1"
    );
    assert_eq!(
        milestone(Action::Remove).message(&target),
        "gi(2d9deaf1): Remove milestone Q1\n\ngi milestone remove Q1"
    );
}

#[test]
fn a_write_is_committed_past_the_hooks() {
    let change = CommitProperty::Tag { action: Action::Add, tag: "foo".to_owned() };
    let write = data().write(&id(), &change, &some("open\n"));
    assert_eq!(
        write.path,
        "/r/.issues/issues/2d/9deaf1b8b146d7e3c4c92133532b314da3e350/tags"
    );
    assert_eq!(write.content, some("foo\nopen\n"));
    assert_eq!(write.commit.message, "gi(2d9deaf1): Add tag foo\n\ngi tag add foo");
    assert!(!write.commit.allow_empty);
    assert!(write.commit.bypass_hooks);
}

#[test]
fn the_marker_commit_may_be_empty() {
    let marker = DataSource::marker_commit();
    assert_eq!(marker.message, "gi: Add issue\n\ngi new mark");
    assert!(marker.allow_empty);
    assert!(marker.bypass_hooks);
}

#[test]
fn adding_a_tag() {
    let changes = data().add_tag(&id(), "foo", &some("open\n"));
    assert_eq!(changes.result, WriteResult::Applied);
    assert_eq!(changes.writes.len(), 1);
    assert_eq!(changes.writes[0].content, some("foo\nopen\n"));

    let again = data().add_tag(&id(), "foo", &some("foo\nopen\n"));
    assert_eq!(again.result, WriteResult::NoChanges);
    assert!(again.writes.is_empty());
}

#[test]
fn removing_a_tag() {
    let changes = data().remove_tag(&id(), "foo", &some("foo\nopen\n"));
    assert_eq!(changes.result, WriteResult::Applied);
    assert_eq!(changes.writes[0].content, some("open\n"));
    assert_eq!(
        changes.writes[0].commit.message,
        "gi(2d9deaf1): Remove tag foo\n\ngi tag remove foo"
    );

    let absent = data().remove_tag(&id(), "foo", &some("open\n"));
    assert_eq!(absent.result, WriteResult::NoChanges);
    assert!(absent.writes.is_empty());
    assert!(data().remove_tag(&id(), "foo", &None).writes.is_empty());
}

#[test]
fn setting_and_removing_the_milestone() {
    let set = data().add_milestone(&id(), "Q1", &None);
    assert_eq!(set.result, WriteResult::Applied);
    assert_eq!(set.writes[0].content, some("Q1\n"));
    assert_eq!(
        set.writes[0].path,
        "/r/.issues/issues/2d/9deaf1b8b146d7e3c4c92133532b314da3e350/milestone"
    );

    let same = data().add_milestone(&id(), "Q1", &some("Q1\n"));
    assert_eq!(same.result, WriteResult::NoChanges);
    assert!(same.writes.is_empty());

    let other = data().add_milestone(&id(), "Q2", &some("Q1\n"));
    assert_eq!(other.result, WriteResult::Applied);

    let removed = data().remove_milestone(&id(), &some("Q1\n"));
    assert_eq!(removed.result, WriteResult::Applied);
    assert_eq!(removed.writes[0].content, None);
    assert_eq!(
        removed.writes[0].commit.message,
        "gi(2d9deaf1): Remove milestone Q1\n\ngi milestone remove Q1"
    );

    let none = data().remove_milestone(&id(), &None);
    assert_eq!(none.result, WriteResult::NoChanges);
    assert!(none.writes.is_empty());
}

#[test]
fn closing_an_issue() {
    let closed = data().close_issue(&id(), &some("foo\nopen\n"));
    assert_eq!(closed.result, WriteResult::Applied);
    assert_eq!(closed.writes.len(), 2);
    assert_eq!(closed.writes[0].content, some("foo\n"));
    assert_eq!(closed.writes[1].content, some("closed\nfoo\n"));

    let only_tagged = data().close_issue(&id(), &some("foo\n"));
    assert_eq!(only_tagged.result, WriteResult::Applied);
    assert_eq!(only_tagged.writes.len(), 1);
    assert_eq!(only_tagged.writes[0].content, some("closed\nfoo\n"));

    let only_opened = data().close_issue(&id(), &some("closed\nopen\n"));
    assert_eq!(only_opened.result, WriteResult::Applied);
    assert_eq!(only_opened.writes.len(), 1);
    assert_eq!(only_opened.writes[0].content, some("closed\n"));

    let already = data().close_issue(&id(), &some("closed\n"));
    assert_eq!(already.result, WriteResult::NoChanges);
    assert!(already.writes.is_empty());
}

#[test]
fn several_results_are_applied_where_one_is() {
    let (applied, unchanged) = (WriteResult::Applied, WriteResult::NoChanges);
    assert_eq!(WriteResult::from(vec![]), unchanged);
    assert_eq!(WriteResult::from(vec![unchanged, unchanged]), unchanged);
    assert_eq!(WriteResult::from(vec![unchanged, applied]), applied);
    assert_eq!(WriteResult::from(vec![applied, unchanged]), applied);
}

#[test]
fn creating_an_issue() {
    let (made, writes) = data().create_issue(
        ID.to_owned(),
        "Foo Bar\n",
        vec!["foo".to_owned(), "open".to_owned(), "foo".to_owned(), "bar".to_owned()],
        Some("Q1".to_owned()),
    );
    assert_eq!(made.id(), ID);
    let contents: Vec<Option<String>> = writes.iter().map(|w| w.content.clone()).collect();
    assert_eq!(
        contents,
        [some("Foo Bar\n"), some("open\n"), some("foo\nopen\n"), some("bar\nfoo\nopen\n"), some("Q1\n")]
    );
    let messages: Vec<String> = writes.iter().map(|w| w.commit.message.clone()).collect();
    assert_eq!(
        messages,
        [
            format!("gi: Add issue description\n\ngi new description {}", ID),
            "gi(2d9deaf1): Add tag open\n\ngi tag add open".to_owned(),
            "gi(2d9deaf1): Add tag foo\n\ngi tag add foo".to_owned(),
            "gi(2d9deaf1): Add tag bar\n\ngi tag add bar".to_owned(),
            "gi(2d9deaf1): Add milestone Q1\n\ngi milestone add Q1".to_owned(),
        ]
    );
}

#[test]
fn editing_the_description() {
    let write = data().edit_description(&id(), "Better\n\n");
    assert_eq!(write.content, some("Better\n"));
    assert_eq!(
        write.commit.message,
        format!("gi: Edit issue description\n\ngit edit description {}", ID)
    );
    assert!(write.path.ends_with("/description"));
}

#[test]
fn changing_several_tags() {
    let tags = vec!["b".to_owned(), "open".to_owned(), "a".to_owned(), "b".to_owned()];
    let (applied, writes) = data().add_tags(&id(), &tags, &some("open\n"));
    assert_eq!(applied, ["b", "a"]);
    assert_eq!(writes.len(), 2);
    assert_eq!(writes[1].content, some("a\nb\nopen\n"));

    let (removed, writes) = data().remove_tags(&id(), &tags, &some("a\nopen\n"));
    assert_eq!(removed, ["open", "a"]);
    assert_eq!(writes[1].content, some("\n"));
}

#[test]
fn tags_file_stays_sorted_and_unique() {
    let mut raw: Option<String> = None;
    let steps: [(bool, &str); 9] = [
        (true, "open"),
        (true, "zeta"),
        (true, "alpha"),
        (true, "zeta"),
        (false, "open"),
        (true, "mid"),
        (false, "nothing"),
        (true, "Alpha"),
        (false, "zeta"),
    ];
    for (add, tag) in steps {
        let changes = if add {
            data().add_tag(&id(), tag, &raw)
        } else {
            data().remove_tag(&id(), tag, &raw)
        };
        if let Some(write) = changes.writes.last() {
            raw = write.content.clone();
        }
        let text = raw.clone().unwrap();
        assert!(text.ends_with('\n'));
        let listed: Vec<&str> = text.lines().collect();
        let mut sorted = listed.clone();
        sorted.sort_unstable();
        sorted.dedup();
        assert_eq!(listed, sorted, "after {} {}", if add { "adding" } else { "removing" }, tag);
    }
    assert_eq!(raw.unwrap(), "Alpha\nalpha\nmid\n");
}
