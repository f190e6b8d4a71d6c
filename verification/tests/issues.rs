use git_issue::issues::Fields;
use git_issue::{
    CacheError, Comment, CommentId, DataSource, FormatString, Id, IoError, Issue, PlaceHolders,
    Timestamp,
};

const ID: &str = "2d9deaf1b8b146d7e3c4c92133532b314da3e350";

fn issue() -> Issue {
    Issue::new(Id::new(ID.to_owned()))
}

fn gone() -> IoError {
    IoError { not_found: true, code: 2, message: "No such file or directory".to_owned() }
}

fn comment(id: &str, nanos: i128) -> Comment {
    Comment::new(
        CommentId::from(id.to_owned()),
        "Max".to_owned(),
        Timestamp::new(nanos, format!("t{}", nanos)),
        format!("body of {}", id),
    )
}

fn parts(pattern: &str) -> Vec<PlaceHolders> {
    FormatString::try_from(pattern).expect("a pattern").0
}

#[test]
fn reading_a_date() {
    let date = Timestamp::try_read("2022-01-02T03:04:05+01:00").expect("a date");
    assert_eq!(date.unix_nanos, 1_641_089_045_000_000_000);
    assert_eq!(date.to_text(), "2022-01-02 3:04:05.0 +01:00:00");
    let utc = Timestamp::try_read("1970-01-01T00:00:00Z").expect("the epoch");
    assert_eq!(utc.unix_nanos, 0);
    assert_eq!(utc.text, "1970-01-01 0:00:00.0 +00:00:00");
    assert!(Timestamp::try_read("yesterday").is_none());
    assert!(Timestamp::try_read("").is_none());
    assert!(Timestamp::try_read("2022-01-02").is_none());
}

#[test]
fn dates_are_ordered_by_their_instant() {
    let early = Timestamp::read("2022-01-02T03:04:05+01:00");
    let late = Timestamp::read("2022-01-02T03:04:05Z");
    let same = Timestamp::read("2022-01-02T02:04:05Z");
    assert!(early.before(&late));
    assert!(!late.before(&early));
    assert!(!early.before(&same) && !same.before(&early));
    assert!(early == same && early != late);
}

#[test]
fn due_date_of_an_issue() {
    let date = DataSource::duedate(Ok("2022-01-02T03:04:05+01:00\n".to_owned())).unwrap().unwrap();
    assert_eq!(date.unix_nanos, 1_641_089_045_000_000_000);
    assert!(DataSource::duedate(Err(gone())).unwrap().is_none());
    let denied = IoError { not_found: false, code: 13, message: "Permission denied".to_owned() };
    assert_eq!(DataSource::duedate(Err(denied)).unwrap_err().code, 13);
    assert!(DataSource::try_duedate(Ok("soon\n".to_owned())).is_none());
    assert!(DataSource::try_duedate(Ok("2022-01-02T03:04:05Z\n".to_owned())).unwrap().unwrap().is_some());
    assert!(DataSource::try_duedate(Err(gone())).unwrap().unwrap().is_none());
}

#[test]
fn creation_date_of_an_issue() {
    let date = DataSource::creation_date("2022-01-02T03:04:05+01:00\n");
    assert_eq!(date.text, "2022-01-02 3:04:05.0 +01:00:00");
    assert!(DataSource::try_creation_date("").is_none());
    assert!(DataSource::try_creation_date(" 2022-01-02T03:04:05+01:00 \n").is_some());
}

#[test]
fn fields_are_read_once() {
    let mut issue = issue();
    assert!(!issue.has_desc());
    issue.cache_desc(Ok("Foo Bar\n\nText\n".to_owned())).unwrap();
    assert!(issue.has_desc());
    assert_eq!(issue.desc(), "Foo Bar\n\nText");
    assert_eq!(issue.title(), "Foo Bar");
    issue.cache_desc(Ok("Other\n".to_owned())).unwrap();
    assert_eq!(issue.desc(), "Foo Bar\n\nText");
    issue.cache_desc(Err(gone())).unwrap();
    assert_eq!(issue.title(), "Foo Bar");

    let mut blank = Issue::new(Id::new(ID.to_owned()));
    blank.cache_desc(Ok("Foo\n\n".to_owned())).unwrap();
    assert_eq!(blank.desc(), "Foo\n");
    blank.cache_milestone(Ok("Q1 \n".to_owned())).unwrap();
    assert_eq!(blank.milestone(), &Some("Q1 ".to_owned()));
}

#[test]
fn a_missing_description_fails() {
    let mut issue = issue();
    match issue.cache_desc(Err(gone())) {
        Err(CacheError::Io(e)) => assert!(e.not_found),
        other => panic!("unexpected {:?}", other),
    }
    assert!(!issue.has_desc());
}

#[test]
fn caching_tags_and_milestone() {
    let mut issue = issue();
    issue.cache_tags(Ok("closed\nfoo\n".to_owned())).unwrap();
    assert_eq!(issue.tags(), &["closed", "foo"]);
    assert!(issue.is_closed());
    issue.cache_milestone(Ok("Q1\n".to_owned())).unwrap();
    assert_eq!(issue.milestone(), &Some("Q1".to_owned()));

    let mut open = Issue::new(Id::new(ID.to_owned()));
    assert!(open.cache_tags(Err(gone())).is_err());
    assert!(!open.has_tags());
    open.cache_tags(Ok("open\n".to_owned())).unwrap();
    assert!(!open.is_closed());
    open.cache_milestone(Err(gone())).unwrap();
    assert!(open.has_milestone());
    assert_eq!(open.milestone(), &None);
}

#[test]
fn caching_dates() {
    let mut issue = issue();
    issue.cache_cdate(Ok("2022-01-02T03:04:05+01:00\n".to_owned())).unwrap();
    assert_eq!(issue.cdate().unix_nanos, 1_641_089_045_000_000_000);
    issue.cache_ddate(Err(gone())).unwrap();
    assert!(issue.ddate().is_none());

    let mut other = Issue::new(Id::new(ID.to_owned()));
    assert!(other.try_cache_cdate(Ok("never".to_owned())).is_none());
    assert!(!other.has_cdate());
    assert!(matches!(other.try_cache_cdate(Err(gone())), Some(Err(CacheError::Io(_)))));
    assert!(matches!(other.try_cache_cdate(Ok("2022-01-02T03:04:05Z".to_owned())), Some(Ok(()))));
    assert!(other.has_cdate());
    assert!(other.try_cache_ddate(Ok("never".to_owned())).is_none());
    assert!(!other.has_ddate());
    other.cache_ddate(Ok("2023-05-06T07:08:09Z\n".to_owned())).unwrap();
    assert_eq!(other.ddate().as_ref().unwrap().text, "2023-05-06 7:08:09.0 +00:00:00");
}

#[test]
fn caching_comments() {
    let mut issue = issue();
    let failures = issue.cache_comments(vec![
        Ok(comment("aaaaaaaa1", 3)),
        Err(gone()),
        Ok(comment("bbbbbbbb2", 1)),
        Err(IoError { not_found: false, code: 13, message: "denied".to_owned() }),
    ]);
    assert_eq!(failures.len(), 2);
    assert!(matches!(&failures[0], Err(CacheError::Io(e)) if e.code == 2));
    assert!(matches!(&failures[1], Err(CacheError::Io(e)) if e.code == 13));
    let ids: Vec<&str> = issue.comments().iter().map(|c| c.id()).collect();
    assert_eq!(ids, ["aaaaaaaa1", "bbbbbbbb2"]);
    let again = issue.cache_comments(vec![Ok(comment("cccccccc3", 2))]);
    assert_eq!(again.len(), 1);
    assert!(again[0].is_ok());
    assert_eq!(issue.comments().len(), 2);
}

#[test]
fn comments_in_the_order_of_their_creation() {
    let sorted = DataSource::comments(vec![
        comment("c", 30),
        comment("a", 10),
        comment("b2", 20),
        comment("b1", 21),
        comment("z", 5),
    ]);
    let ids: Vec<&str> = sorted.iter().map(|c| c.id()).collect();
    assert_eq!(ids, ["z", "a", "b2", "b1", "c"]);
    assert_eq!(sorted[1].author(), "Max");
    assert_eq!(sorted[1].body(), "body of a");
    assert_eq!(sorted[1].cdate().unix_nanos, 10);
    assert!(sorted[0].before(&sorted[1]));
    assert!(sorted[2] == comment("b2", 99));
    assert!(sorted[2] != sorted[3]);
}

#[test]
fn named_patterns() {
    assert_eq!(format!("{:?}", parts("simple")), format!("{:?}", parts("%i %D")));
    assert_eq!(
        format!("{:?}", parts("oneline")),
        format!("{:?}", parts("ID: %i  Date: %c  Tags: %T  Desc: %D"))
    );
    assert_eq!(
        format!("{:?}", parts("short")),
        format!("{:?}", parts("ID: %i%nDate: %c%nDue Date: %d%nTags: %T%nDescription: %D"))
    );
}

#[test]
fn parts_of_a_pattern() {
    let simple = parts("%i %D");
    assert_eq!(simple.len(), 3);
    assert!(matches!(simple[0], PlaceHolders::ShortId));
    assert!(matches!(&simple[1], PlaceHolders::Text(t) if t == " "));
    assert!(matches!(simple[2], PlaceHolders::Description));

    let all = parts("%I%M%c%d%T");
    assert!(matches!(
        all[..],
        [
            PlaceHolders::Id,
            PlaceHolders::Milestone,
            PlaceHolders::CreationDate,
            PlaceHolders::DueDate,
            PlaceHolders::Tags
        ]
    ));

    let text = parts("100%% of %i%ndone");
    assert!(matches!(&text[0], PlaceHolders::Text(t) if t == "100% of "));
    assert!(matches!(text[1], PlaceHolders::ShortId));
    assert!(matches!(&text[2], PlaceHolders::Text(t) if t == "\ndone"));
    assert!(parts("").is_empty());
}

#[test]
fn wrong_patterns() {
    assert_eq!(
        FormatString::try_from("%i %").unwrap_err(),
        "Premature end of string. Expected placeholder"
    );
    assert_eq!(
        FormatString::try_from("x %q y").unwrap_err(),
        "Unexpected formatstring place holder '%q'"
    );
    assert_eq!(
        FormatString::try_from("%é").unwrap_err(),
        "Unexpected formatstring place holder '%é'"
    );
}

#[test]
fn writing_an_issue_out() {
    let mut issue = issue();
    issue.cache_desc(Ok("Foo Bar\n\nText\n".to_owned())).unwrap();
    issue.cache_tags(Ok("foo\nopen\n".to_owned())).unwrap();
    issue.cache_milestone(Ok("Q1\n".to_owned())).unwrap();
    issue.cache_cdate(Ok("2022-01-02T03:04:05+01:00\n".to_owned())).unwrap();
    issue.cache_ddate(Ok("2023-05-06T07:08:09Z\n".to_owned())).unwrap();

    let simple = FormatString::try_from("simple").unwrap();
    assert_eq!(simple.format(&issue), "2d9deaf1 Foo Bar");
    let oneline = FormatString::try_from("oneline").unwrap();
    assert_eq!(
        oneline.format(&issue),
        "ID: 2d9deaf1  Date: 2022-01-02 3:04:05.0 +01:00:00  Tags: foo open  Desc: Foo Bar"
    );
    let short = FormatString::try_from("short").unwrap();
    assert_eq!(
        short.format(&issue),
        "ID: 2d9deaf1\nDate: 2022-01-02 3:04:05.0 +01:00:00\nDue Date: 2023-05-06 7:08:09.0 +00:00:00\nTags: foo open\nDescription: Foo Bar"
    );
    let own = FormatString::try_from("%I [%M] 100%%").unwrap();
    assert_eq!(own.format(&issue), format!("{} [Q1] 100%", ID));
}

#[test]
fn fields_that_were_not_read_show_as_nothing() {
    let issue = issue();
    let short = FormatString::try_from("%i|%D|%T|%M|%c|%d|").unwrap();
    assert_eq!(short.format(&issue), "2d9deaf1||||||");
}

#[test]
fn fields_that_a_pattern_shows() {
    let simple = FormatString::try_from("simple").unwrap();
    assert_eq!(
        simple.needs(),
        Fields { cdate: false, ddate: false, desc: true, milestone: false, tags: false }
    );
    let short = FormatString::try_from("short").unwrap();
    assert_eq!(
        short.needs(),
        Fields { cdate: true, ddate: true, desc: true, milestone: false, tags: true }
    );
    let milestone = FormatString::try_from("%I %M").unwrap();
    assert_eq!(
        milestone.needs(),
        Fields { cdate: false, ddate: false, desc: false, milestone: true, tags: false }
    );
}
