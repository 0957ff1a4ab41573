use rsground::access::AccessLevel;
use rsground::auth::RgUserData;
use rsground::http_errors::HttpErrors;
use rsground::project::Project;

fn user(id: &str) -> RgUserData {
    RgUserData { id: id.to_owned(), name: id.to_owned(), is_guest: true, exp: 0 }
}

#[test]
fn new_project_is_public_and_empty() {
    let p = Project::new("owner".to_owned(), "demo".to_owned());
    assert_eq!(p.name(), "demo");
    assert_eq!(p.owner(), "owner");
    assert!(p.is_public());
    assert_eq!(p.password(), None);
    assert!(p.allowed_users().is_empty());
}

#[test]
fn members_keep_their_level() {
    let mut p = Project::new("owner".to_owned(), "demo".to_owned());
    p.permit_access("owner".to_owned(), AccessLevel::Editor);
    assert!(matches!(p.join_project("owner".to_owned(), None), Ok(AccessLevel::Editor)));
    assert_eq!(p.access_of(&"owner".to_owned()), Some(AccessLevel::Editor));
}

#[test]
fn public_project_admits_readers_once() {
    let mut p = Project::new("owner".to_owned(), "demo".to_owned());
    assert!(matches!(p.join_project("guest".to_owned(), None), Ok(AccessLevel::ReadOnly)));
    assert_eq!(p.access_of(&"guest".to_owned()), Some(AccessLevel::ReadOnly));
    assert_eq!(p.allowed_users().len(), 1);
    // joining again changes nothing
    assert!(matches!(p.join_project("guest".to_owned(), Some("x".to_owned())), Ok(AccessLevel::ReadOnly)));
    assert_eq!(p.allowed_users().len(), 1);
}

#[test]
fn private_project_queues() {
    let mut p = Project::new("owner".to_owned(), "demo".to_owned());
    p.set_public(false);
    assert!(matches!(p.join_project("guest".to_owned(), None), Ok(AccessLevel::Queue)));
    assert_eq!(p.access_of(&"guest".to_owned()), None);
}

#[test]
fn password_is_checked() {
    let mut p = Project::new("owner".to_owned(), "demo".to_owned());
    p.set_password(Some("secret".to_owned()));
    assert!(matches!(p.join_project("a".to_owned(), None), Err(HttpErrors::InvalidPassword)));
    assert!(matches!(
        p.join_project("a".to_owned(), Some("wrong".to_owned())),
        Err(HttpErrors::InvalidPassword)
    ));
    assert_eq!(p.access_of(&"a".to_owned()), None);
    assert!(matches!(p.join_project("a".to_owned(), Some("secret".to_owned())), Ok(AccessLevel::ReadOnly)));
    assert!(matches!(p.join_project("a".to_owned(), None), Ok(AccessLevel::ReadOnly)));
}

#[test]
fn permit_access_replaces_level() {
    let mut p = Project::new("owner".to_owned(), "demo".to_owned());
    p.permit_access("u".to_owned(), AccessLevel::ReadOnly);
    p.permit_access("u".to_owned(), AccessLevel::Editor);
    assert_eq!(p.allowed_users().len(), 1);
    assert_eq!(p.access_of(&"u".to_owned()), Some(AccessLevel::Editor));
}

#[test]
fn requests_are_announced_once() {
    let mut p = Project::new("owner".to_owned(), "demo".to_owned());
    assert!(p.add_request(&user("u1")));
    assert!(!p.add_request(&user("u1")));
    assert!(p.add_request(&user("u2")));
}

#[test]
fn fork_marks_name_once() {
    let mut p = Project::new("owner".to_owned(), "demo".to_owned());
    p.set_public(false);
    p.set_password(Some("pw".to_owned()));
    p.permit_access("owner".to_owned(), AccessLevel::Editor);
    let f = p.fork("other".to_owned());
    assert_eq!(f.name(), "demo (fork)");
    assert_eq!(f.owner(), "other");
    assert!(!f.is_public());
    assert_eq!(f.password(), None);
    assert!(f.allowed_users().is_empty());
    assert_ne!(f.id(), p.id());
    let ff = f.fork("third".to_owned());
    assert_eq!(ff.name(), "demo (fork)");
}
