use git_issue::{DataSource, FindError, Id, Shard};

fn shard(name: &str, leaves: &[&str]) -> Shard {
    Shard { name: name.to_owned(), leaves: leaves.iter().map(|l| (*l).to_owned()).collect() }
}

fn ids(items: &[&str]) -> Vec<Id> {
    items.iter().map(|i| Id::new((*i).to_owned())).collect()
}

fn multiple(r: Result<Id, FindError>) -> (String, Vec<Id>) {
    match r {
        Err(FindError::MultipleFound(needle, candidates)) => (needle, candidates),
        other => panic!("expected several candidates, got {:?}", other),
    }
}

fn missing(r: Result<Id, FindError>) -> String {
    match r {
        Err(FindError::NotFound(needle)) => needle,
        other => panic!("expected nothing found, got {:?}", other),
    }
}

#[test]
fn one_character_with_several_shards_is_ambiguous() {
    let shards = vec![shard("ab", &["cdef", "c000"]), shard("a1", &["2345"])];
    let (needle, candidates) = multiple(DataSource::find_issue("a", &shards, false));
    assert_eq!(needle, "a");
    assert_eq!(candidates, ids(&["abcdef", "abc000", "a12345"]));
    // the needle is not even compared with the shards
    let (_, candidates) = multiple(DataSource::find_issue("x", &shards, false));
    assert_eq!(candidates.len(), 3);
}

#[test]
fn one_character_without_issues_is_not_found() {
    assert_eq!(missing(DataSource::find_issue("a", &vec![], false)), "a");
    assert_eq!(missing(DataSource::find_issue("1", &vec![], false)), "1");
    let empty = vec![shard("ab", &[]), shard("cd", &[])];
    assert_eq!(missing(DataSource::find_issue("a", &empty, false)), "a");
}

#[test]
fn one_character_with_several_shards_and_one_issue_names_the_candidate() {
    let shards = vec![shard("ab", &[]), shard("cd", &["ef01"])];
    let (needle, candidates) = multiple(DataSource::find_issue("c", &shards, false));
    assert_eq!(needle, "c");
    assert_eq!(candidates, ids(&["cdef01"]));
}

#[test]
fn one_character_with_one_shard_goes_into_it() {
    let one = vec![shard("ab", &["cdef"])];
    assert_eq!(DataSource::find_issue("a", &one, false).unwrap(), Id::new("abcdef".to_owned()));
    assert_eq!(DataSource::find_issue("z", &one, false).unwrap(), Id::new("abcdef".to_owned()));

    let two = vec![shard("ab", &["cdef", "c000"])];
    let (needle, candidates) = multiple(DataSource::find_issue("a", &two, false));
    assert_eq!(needle, "ab", "the shard stands for the needle");
    assert_eq!(candidates, ids(&["abcdef", "abc000"]));

    let none = vec![shard("ab", &[])];
    assert_eq!(missing(DataSource::find_issue("a", &none, false)), "ab");
}

#[test]
fn two_characters_name_a_shard() {
    let shards = vec![shard("ab", &["cdef"]), shard("cd", &["1", "2"]), shard("ef", &[])];
    assert_eq!(DataSource::find_issue("ab", &shards, false).unwrap().id(), "abcdef");
    let (needle, candidates) = multiple(DataSource::find_issue("cd", &shards, false));
    assert_eq!(needle, "cd");
    assert_eq!(candidates, ids(&["cd1", "cd2"]));
    assert_eq!(missing(DataSource::find_issue("ef", &shards, false)), "ef");
    assert_eq!(missing(DataSource::find_issue("zz", &shards, false)), "zz");
    // what exists as a path does not count for two characters
    assert_eq!(missing(DataSource::find_issue("zz", &shards, true)), "zz");
}

#[test]
fn longer_needles_search_their_shard() {
    let shards = vec![shard("ab", &["cdef", "cd00", "ff"]), shard("cd", &["cdef"])];
    assert_eq!(DataSource::find_issue("abcde", &shards, false).unwrap().id(), "abcdef");
    assert_eq!(DataSource::find_issue("abf", &shards, false).unwrap().id(), "abff");
    let (needle, candidates) = multiple(DataSource::find_issue("abc", &shards, false));
    assert_eq!(needle, "abc");
    assert_eq!(candidates, ids(&["abcdef", "abcd00"]));
    assert_eq!(missing(DataSource::find_issue("abx", &shards, false)), "abx");
    assert_eq!(missing(DataSource::find_issue("zzz", &shards, false)), "zzz");
    assert_eq!(missing(DataSource::find_issue("abcdefg", &shards, false)), "abcdefg");
}

#[test]
fn a_single_leaf_is_found_only_where_it_begins_with_the_needle() {
    let shards = vec![shard("ab", &["cdef"])];
    assert_eq!(DataSource::find_issue("abcd", &shards, false).unwrap().id(), "abcdef");
    assert_eq!(missing(DataSource::find_issue("abzzz", &shards, false)), "abzzz");
}

#[test]
fn an_existing_path_is_taken_as_the_identifier() {
    let shards = vec![shard("ab", &["cdef", "cd00"])];
    assert_eq!(DataSource::find_issue("abcd", &shards, true).unwrap().id(), "abcd");
    assert_eq!(DataSource::find_issue("abcdef", &shards, true).unwrap().id(), "abcdef");
}

#[test]
fn all_issues_of_a_listing() {
    let shards = vec![shard("ab", &["cdef", "cd00"]), shard("cd", &[]), shard("ef", &["01"])];
    assert_eq!(DataSource::all_ids(&shards), ids(&["abcdef", "abcd00", "ef01"]));
    let issues = DataSource::all(&shards);
    assert_eq!(issues.len(), 3);
    assert_eq!(issues[2].id().id(), "ef01");
    assert!(!issues[0].has_tags() && !issues[0].has_desc() && !issues[0].has_milestone());
    assert!(!issues[0].has_cdate() && !issues[0].has_ddate() && !issues[0].has_comments());
}

#[test]
fn opening_a_tracker() {
    assert!(matches!(
        DataSource::try_new(None, true),
        Err(git_issue::InitError::IssuesRepoNotFound)
    ));
    assert!(matches!(
        DataSource::try_new(Some("/r/.issues".to_owned()), false),
        Err(git_issue::InitError::GitRepoNotFound)
    ));
    let data = DataSource::try_new(Some("/r/.issues".to_owned()), true).unwrap();
    assert_eq!(data.issues_dir(), "/r/.issues");
    assert!(data.transaction().is_none());
    assert!(!data.is_waiting());
}
