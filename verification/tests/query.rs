use git_issue::issues::Fields;
use git_issue::query::{reverse, sort, Query, SortKey};
use git_issue::summary::summarize;
use git_issue::{Filter, FormatString, Id, IoError, Issue, MilestoneFilter};

fn gone() -> IoError {
    IoError { not_found: true, code: 2, message: "No such file or directory".to_owned() }
}

fn issue(id: &str, tags: &str, milestone: Option<&str>) -> Issue {
    let mut issue = Issue::new(Id::new(format!("{:0<40}", id)));
    issue.cache_tags(Ok(tags.to_owned())).unwrap();
    issue.cache_milestone(milestone.map(|m| format!("{}\n", m)).ok_or_else(gone)).unwrap();
    issue.cache_desc(Ok(format!("About {}\n", id))).unwrap();
    issue
}

fn issues() -> Vec<Issue> {
    vec![
        issue("a1", "bug\nopen\n", Some("Q2")),
        issue("b2", "closed\n", Some("Q1")),
        issue("c3", "open\n", None),
        issue("d4", "bug\nclosed\n", None),
        issue("e5", "open\nurgent\n", Some("Q1")),
        issue("f6", "closed\n", Some("Q3")),
    ]
}

fn strings(items: &[&str]) -> Vec<String> {
    items.iter().map(|s| (*s).to_owned()).collect()
}

fn names(issues: &[Issue]) -> Vec<String> {
    issues.iter().map(|i| i.id().id()[..2].to_owned()).collect()
}

#[test]
fn filter_from_arguments() {
    let open = Filter::from(false, strings(&["bug"]), strings(&["wip"]), None, false);
    assert_eq!(open.with_tags, ["bug", "open"]);
    assert_eq!(open.without_tags, ["wip"]);
    assert_eq!(open.milestone, MilestoneFilter::Any);

    let all = Filter::from(true, vec![], vec![], Some("Q1".to_owned()), false);
    assert!(all.with_tags.is_empty());
    assert_eq!(all.milestone, MilestoneFilter::Value("Q1".to_owned()));
    assert_ne!(all.milestone, MilestoneFilter::Value("Q2".to_owned()));

    let without = Filter::from(true, vec![], vec![], Some("Q1".to_owned()), true);
    assert_eq!(without.milestone, MilestoneFilter::Without);
}

#[test]
fn what_a_filter_reads() {
    let nothing = Filter::from(true, vec![], vec![], None, false);
    assert_eq!(
        nothing.needs(),
        Fields { cdate: false, ddate: false, desc: false, milestone: false, tags: false }
    );
    let open = Filter::from(false, vec![], vec![], None, true);
    assert!(open.needs().tags && open.needs().milestone);
}

#[test]
fn open_issues_pass_by_default() {
    let filter = Filter::from(false, vec![], vec![], None, false);
    assert_eq!(names(&filter.apply(issues())), ["a1", "c3", "e5"]);
}

#[test]
fn tags_that_must_and_must_not_be_there() {
    let bugs = Filter::from(true, strings(&["bug"]), vec![], None, false);
    assert_eq!(names(&bugs.apply(issues())), ["a1", "d4"]);
    let open_bugs = Filter::from(false, strings(&["bug"]), vec![], None, false);
    assert_eq!(names(&open_bugs.apply(issues())), ["a1"]);
    let calm = Filter::from(true, vec![], strings(&["urgent", "bug"]), None, false);
    assert_eq!(names(&calm.apply(issues())), ["b2", "c3", "f6"]);
    let nothing = Filter::from(true, strings(&["bug"]), strings(&["bug"]), None, false);
    assert!(nothing.apply(issues()).is_empty());
}

#[test]
fn milestone_of_a_filter() {
    let q1 = Filter::from(true, vec![], vec![], Some("Q1".to_owned()), false);
    assert_eq!(names(&q1.apply(issues())), ["b2", "e5"]);
    let none = Filter::from(true, vec![], vec![], None, true);
    assert_eq!(names(&none.apply(issues())), ["c3", "d4"]);
    let any = Filter::from(true, vec![], vec![], None, false);
    assert_eq!(any.apply(issues()).len(), 6);
    assert!(q1.passes(&issues()[1]));
    assert!(!q1.passes(&issues()[0]));
}

#[test]
fn order_by_milestone_and_description() {
    assert_eq!(
        names(&sort(issues(), SortKey::Milestone)),
        ["c3", "d4", "b2", "e5", "a1", "f6"]
    );
    let mut shuffled = issues();
    shuffled.swap(0, 5);
    shuffled.swap(1, 3);
    assert_eq!(
        names(&sort(shuffled, SortKey::Description)),
        ["a1", "b2", "c3", "d4", "e5", "f6"]
    );
    assert_eq!(names(&reverse(issues())), ["f6", "e5", "d4", "c3", "b2", "a1"]);
    assert!(sort(vec![], SortKey::Milestone).is_empty());
}

#[test]
fn order_by_dates() {
    let dated = |id: &str, created: &str, due: Option<&str>| {
        let mut issue = Issue::new(Id::new(format!("{:0<40}", id)));
        issue.cache_cdate(Ok(created.to_owned())).unwrap();
        issue.cache_ddate(due.map(|d| d.to_owned()).ok_or_else(gone)).unwrap();
        issue
    };
    let list = || {
        vec![
            dated("a1", "2022-03-01T00:00:00Z", Some("2022-12-01T00:00:00Z")),
            dated("b2", "2022-01-01T00:00:00Z", None),
            dated("c3", "2022-02-01T00:00:00+05:00", Some("2022-06-01T00:00:00Z")),
        ]
    };
    assert_eq!(names(&sort(list(), SortKey::CreationDate)), ["b2", "c3", "a1"]);
    assert_eq!(names(&sort(list(), SortKey::DueDate)), ["b2", "c3", "a1"]);
    assert!(list()[1].comes_before(&list()[0], SortKey::DueDate));
    assert!(!list()[0].comes_before(&list()[0], SortKey::CreationDate));
}

#[test]
fn a_query_selects_and_arranges() {
    let query = Query {
        selection: Filter::from(false, vec![], vec![], None, false),
        projection: FormatString::try_from("simple").unwrap(),
        order: Some(SortKey::Milestone),
        reverse: true,
    };
    assert_eq!(
        query.needs(),
        Fields { cdate: false, ddate: false, desc: true, milestone: true, tags: true }
    );
    let found = query.execute(issues());
    assert_eq!(names(&found), ["a1", "e5", "c3"]);
    let shown: Vec<String> = found.iter().map(|i| query.projection.format(i)).collect();
    assert_eq!(shown, ["a1000000 About a1", "e5000000 About e5", "c3000000 About c3"]);

    let plain = Query {
        selection: Filter::from(true, vec![], vec![], None, false),
        projection: FormatString::try_from("%I").unwrap(),
        order: None,
        reverse: false,
    };
    assert_eq!(names(&plain.execute(issues())), ["a1", "b2", "c3", "d4", "e5", "f6"]);
    assert_eq!(names(&query.arrange(issues())), ["f6", "a1", "e5", "b2", "d4", "c3"]);
    assert_eq!(
        SortKey::Milestone.needs(),
        Fields { cdate: false, ddate: false, desc: false, milestone: true, tags: false }
    );
    assert!(SortKey::CreationDate.needs().cdate && !SortKey::CreationDate.needs().milestone);
}

#[test]
fn milestones_with_open_issues() {
    let summary = summarize(&issues(), false);
    let lines: Vec<(String, usize, usize)> =
        summary.milestones.iter().map(|m| (m.name.clone(), m.open, m.closed)).collect();
    assert_eq!(lines, [("Q1".to_owned(), 1, 1), ("Q2".to_owned(), 1, 0)]);
    assert_eq!(summary.no_milestone_open, 1);
    assert_eq!(summary.no_milestone_closed, 1);
}

#[test]
fn all_milestones() {
    let mut list = issues();
    list.push(issue("g7", "open\n", Some("Q1")));
    list.push(issue("h8", "closed\n", Some("A0")));
    let summary = summarize(&list, true);
    let lines: Vec<(String, usize, usize)> =
        summary.milestones.iter().map(|m| (m.name.clone(), m.open, m.closed)).collect();
    assert_eq!(
        lines,
        [
            ("A0".to_owned(), 0, 1),
            ("Q1".to_owned(), 2, 1),
            ("Q2".to_owned(), 1, 0),
            ("Q3".to_owned(), 0, 1)
        ]
    );
    let none = summarize(&vec![], true);
    assert!(none.milestones.is_empty());
    assert_eq!((none.no_milestone_open, none.no_milestone_closed), (0, 0));
}
