use rsground::access::{AccessLevel, ServerMessageError};
use rsground::project_access::{AccessLevel as MemberLevel, ProjectAccess};

#[test]
fn access_levels_and_requirements() {
    assert!(!AccessLevel::Queue.can_read());
    assert!(AccessLevel::ReadOnly.can_read());
    assert!(AccessLevel::Editor.can_read());
    assert!(AccessLevel::ReadOnly.is_readonly());
    assert!(!AccessLevel::Editor.is_readonly());
    assert!(AccessLevel::Editor.is_editor());
    assert!(!AccessLevel::Queue.is_editor());
    assert_eq!(AccessLevel::default(), AccessLevel::Queue);
}

#[test]
fn need_read_errors() {
    assert_eq!(AccessLevel::Queue.need_read(), Err(ServerMessageError::NotAccessible));
    assert_eq!(AccessLevel::ReadOnly.need_read(), Ok(()));
    assert_eq!(AccessLevel::Editor.need_read(), Ok(()));
}

#[test]
fn need_editor_errors() {
    assert_eq!(AccessLevel::Queue.need_editor(), Err(ServerMessageError::NotAccessible));
    assert_eq!(AccessLevel::ReadOnly.need_editor(), Err(ServerMessageError::ReadonlyPermission));
    assert_eq!(AccessLevel::Editor.need_editor(), Ok(()));
}

#[test]
fn project_access_queries() {
    let id = uuid::Uuid::new_v4();
    let none = ProjectAccess::NoProject;
    let reader = ProjectAccess::ReadOnly(id);
    let editor = ProjectAccess::Editor(id);

    assert_eq!(none.get_project_id(), None);
    assert_eq!(reader.get_project_id(), Some(&id));
    assert_eq!(editor.get_project_id(), Some(&id));

    assert_eq!(none.to_level(), None);
    assert_eq!(reader.to_level(), Some(MemberLevel::ReadOnly));
    assert_eq!(editor.to_level(), Some(MemberLevel::Editor));

    assert!(!none.is_reader() && reader.is_reader() && editor.is_reader());
    assert!(reader.is_readonly() && !editor.is_readonly());
    assert!(editor.is_editor() && !reader.is_editor());

    assert_eq!(none.need_editor(), Err(ServerMessageError::NotInProject));
    assert_eq!(reader.need_editor(), Err(ServerMessageError::ReadonlyPermission));
    assert_eq!(editor.need_editor(), Ok(&id));
}
