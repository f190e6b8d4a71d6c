use git_issue::{CommentId, Id};

#[test]
fn path_of_full_id() {
    let id = Id::new("2d9deaf1b8b146d7e3c4c92133532b314da3e350".to_owned());
    assert_eq!(
        id.path("/tmp/.issues"),
        "/tmp/.issues/issues/2d/9deaf1b8b146d7e3c4c92133532b314da3e350"
    );
}

#[test]
fn path_of_the_shortest_id() {
    assert_eq!(Id::new("ab".to_owned()).path("r"), "r/issues/ab/");
    assert_eq!(Id::new("abc".to_owned()).path(""), "/issues/ab/c");
}

#[test]
fn short_id_is_first_eight() {
    let id = Id::new("2d9deaf1b8b146d7e3c4c92133532b314da3e350".to_owned());
    assert_eq!(id.short_id(), "2d9deaf1");
    assert_eq!(Id::new("12345678".to_owned()).short_id(), "12345678");
}

#[test]
fn id_from_its_directory() {
    let id = Id::from_dir("2d", "9deaf1b8b146d7e3c4c92133532b314da3e350");
    assert_eq!(id.id(), "2d9deaf1b8b146d7e3c4c92133532b314da3e350");
    assert_eq!(id, Id::new("2d9deaf1b8b146d7e3c4c92133532b314da3e350".to_owned()));
    assert_ne!(id, Id::new("2d".to_owned()));
    assert_eq!(id.clone(), id);
}

#[test]
fn comment_id() {
    let id = CommentId::from("0123456789abcdef".to_owned());
    assert_eq!(id.id(), "0123456789abcdef");
    assert_eq!(id.short_id(), "01234567");
    assert_eq!(id, CommentId::from("0123456789abcdef".to_owned()));
}
