use rsground::access::ServerMessageError;
use rsground::project::Project;
use rsground::access::AccessLevel;
use rsground::auth::RgUserData;
use rsground::http_errors::HttpErrors;
use rsground::project_manager::{password_from_query, ProjectManager};

#[test]
fn added_project_is_found_by_its_id() {
    let mut manager = ProjectManager::new();
    let project = Project::new("owner".to_owned(), "demo".to_owned());
    let id = *project.id();
    let added = manager.add_project(project);
    assert_eq!(added.name(), "demo");
    let found = manager.get_project(id).ok().expect("project was added");
    assert_eq!(found.name(), "demo");
    assert_eq!(*found.id(), id);
}

#[test]
fn unknown_id_is_not_found() {
    let mut manager = ProjectManager::new();
    let known = Project::new("owner".to_owned(), "demo".to_owned());
    let other = Project::new("owner".to_owned(), "other".to_owned());
    let other_id = *other.id();
    manager.add_project(known);
    match manager.get_project(other_id) {
        Err(ServerMessageError::ProjectNotFound(id)) => assert_eq!(id, other_id),
        _ => panic!("an id never added must not be found"),
    }
}

#[test]
fn projects_keep_their_own_ids() {
    let mut manager = ProjectManager::new();
    let a = Project::new("alice".to_owned(), "a".to_owned());
    let b = Project::new("bob".to_owned(), "b".to_owned());
    let (id_a, id_b) = (*a.id(), *b.id());
    manager.add_project(a);
    manager.add_project(b);
    assert_eq!(manager.get_project(id_a).ok().map(|p| p.owner().clone()), Some("alice".to_owned()));
    assert_eq!(manager.get_project(id_b).ok().map(|p| p.owner().clone()), Some("bob".to_owned()));
}

fn user(id: &str) -> RgUserData {
    RgUserData { id: id.to_owned(), name: id.to_owned(), is_guest: true, exp: 0 }
}

#[test]
fn query_password_follows_p_equals() {
    assert_eq!(password_from_query("p=secret"), Some("secret".to_owned()));
    assert_eq!(password_from_query("p="), None);
    assert_eq!(password_from_query(""), None);
    assert_eq!(password_from_query("q=secret"), None);
    assert_eq!(password_from_query("p=a=b"), Some("a=b".to_owned()));
}

#[test]
fn created_project_is_edited_by_its_owner() {
    let mut manager = ProjectManager::new();
    let id = manager.create_project(&user("alice"), "demo".to_owned());
    let project = manager.get_project(id).ok().expect("created");
    assert_eq!(project.name(), "demo");
    assert_eq!(project.owner(), "alice");
    assert_eq!(project.access_of(&"alice".to_owned()), Some(AccessLevel::Editor));
    assert!(project.is_public());
}

#[test]
fn opening_a_public_project_admits_a_reader() {
    let mut manager = ProjectManager::new();
    let id = manager.create_project(&user("alice"), "demo".to_owned());
    assert!(matches!(manager.open_project(id, &user("bob"), None), Ok((AccessLevel::ReadOnly, _))));
    assert!(matches!(manager.open_project(id, &user("alice"), None), Ok((AccessLevel::Editor, _))));
    let project = manager.get_project(id).ok().expect("created");
    assert_eq!(project.access_of(&"bob".to_owned()), Some(AccessLevel::ReadOnly));
}

#[test]
fn opening_an_unknown_project_fails() {
    let mut manager = ProjectManager::new();
    let id = manager.create_project(&user("alice"), "demo".to_owned());
    let missing = Project::new("x".to_owned(), "y".to_owned());
    assert!(matches!(manager.open_project(*missing.id(), &user("bob"), None), Err(HttpErrors::ProjectDoesNotExist)));
    assert!(manager.get_project(id).is_ok());
}

#[test]
fn password_protected_project_refuses_a_wrong_password() {
    let mut manager = ProjectManager::new();
    let mut project = Project::new("alice".to_owned(), "demo".to_owned());
    project.set_password(Some("pw".to_owned()));
    let id = *project.id();
    manager.add_project(project);
    assert!(matches!(manager.open_project(id, &user("bob"), None), Err(HttpErrors::InvalidPassword)));
    assert!(matches!(manager.open_project(id, &user("bob"), Some("no".to_owned())), Err(HttpErrors::InvalidPassword)));
    assert_eq!(manager.get_project(id).ok().and_then(|p| p.access_of(&"bob".to_owned())), None);
    assert!(matches!(manager.open_project(id, &user("bob"), Some("pw".to_owned())), Ok((AccessLevel::ReadOnly, _))));
    assert!(matches!(manager.open_project(id, &user("bob"), None), Ok((AccessLevel::ReadOnly, _))));
}

#[test]
fn private_project_queues_newcomers() {
    let mut manager = ProjectManager::new();
    let mut project = Project::new("alice".to_owned(), "demo".to_owned());
    project.set_public(false);
    let id = *project.id();
    manager.add_project(project);
    assert!(matches!(manager.open_project(id, &user("bob"), None), Ok((AccessLevel::Queue, true))));
    assert!(matches!(manager.open_project(id, &user("bob"), None), Ok((AccessLevel::Queue, false))));
    assert_eq!(manager.get_project(id).ok().and_then(|p| p.access_of(&"bob".to_owned())), None);
}

#[test]
fn only_members_fork() {
    let mut manager = ProjectManager::new();
    let id = manager.create_project(&user("alice"), "demo".to_owned());
    assert!(matches!(manager.fork_project(id, "bob".to_owned()), Err(HttpErrors::NotAccessible)));
    let fork = manager.fork_project(id, "alice".to_owned()).ok().expect("member forks");
    assert_ne!(fork, id);
    let forked = manager.get_project(fork).ok().expect("fork registered");
    assert_eq!(forked.name(), "demo (fork)");
    assert_eq!(forked.owner(), "alice");
    assert_eq!(forked.access_of(&"alice".to_owned()), Some(AccessLevel::Editor));
    let missing = Project::new("x".to_owned(), "y".to_owned());
    assert!(matches!(manager.fork_project(*missing.id(), "alice".to_owned()), Err(HttpErrors::ProjectDoesNotExist)));
}

#[test]
fn new_projects_start_with_main_rs() {
    let mut manager = ProjectManager::new();
    let id = manager.new_project(&user("alice"), "demo".to_owned());
    let project = manager.get_project(id).ok().expect("created");
    let main = project.get_file("main.rs").expect("main.rs");
    assert!(main.text().starts_with("fn main() {"));
    assert!(main.text().contains("\\x1b[31mHello"));
    assert_eq!(main.revision(), 0);
    assert_eq!(project.access_of(&"alice".to_owned()), None);
    let created = manager.create_project(&user("bob"), "other".to_owned());
    let project = manager.get_project(created).ok().expect("created");
    assert_eq!(project.access_of(&"bob".to_owned()), Some(AccessLevel::Editor));
    assert_eq!(project.get_files().len(), 1);
}

#[test]
fn forks_keep_the_files_without_their_edits() {
    let mut manager = ProjectManager::new();
    let id = manager.create_project(&user("alice"), "demo".to_owned());
    let fork = manager.fork_project(id, "alice".to_owned()).ok().expect("member forks");
    let forked = manager.get_project(fork).ok().expect("fork registered");
    let files = forked.get_files();
    assert_eq!(files.len(), 1);
    assert_eq!(files[0].0, "main.rs");
    assert_eq!(files[0].1.revision, 0);
    assert!(files[0].1.text.starts_with("fn main()"));
}
