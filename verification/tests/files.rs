use rsground::collab::{Document, OtOp};
use rsground::files::{file_uri, is_rust_file, uri_is_valid, ProjectFiles};
use rsground::project::Project;

#[test]
fn rust_files_are_recognised_by_their_ending() {
    assert!(is_rust_file("main.rs"));
    assert!(is_rust_file("src/lib.rs"));
    assert!(is_rust_file("rs"));
    assert!(!is_rust_file("Cargo.toml"));
    assert_eq!(file_uri("src/main.rs"), "file:///home/src/main.rs");
}

#[test]
fn files_are_added_replaced_and_removed() {
    let mut files = ProjectFiles::new();
    files.add_file("a.rs".to_owned(), Document::new_with("one".to_owned()));
    files.add_file("b.txt".to_owned(), Document::new_with("two".to_owned()));
    files.add_file("a.rs".to_owned(), Document::new_with("three".to_owned()));
    assert_eq!(files.get_files().len(), 2);
    assert_eq!(files.get_file("a.rs").map(|d| d.text()), Some("three".to_owned()));
    let removed = files.rm_file("b.txt").expect("present");
    assert_eq!(removed.text(), "two");
    assert!(files.rm_file("b.txt").is_none());
    assert!(files.get_file("b.txt").is_none());
    assert_eq!(files.get_files().len(), 1);
}

#[test]
fn file_versions_follow_the_revision() {
    let mut files = ProjectFiles::new();
    let mut doc = Document::new_with("ab".to_owned());
    doc.compose("u".to_owned(), 0, vec![OtOp::Retain(2), OtOp::Insert("c".to_owned())]).unwrap();
    files.add_file("main.rs".to_owned(), doc);
    assert_eq!(files.file_version("main.rs"), 1);
    assert_eq!(files.file_version("other.rs"), 0);
    let fork = files.fork();
    assert_eq!(fork.file_version("main.rs"), 0);
    assert_eq!(fork.get_file("main.rs").map(|d| d.text()), Some("abc".to_owned()));
}

#[test]
fn projects_tell_which_files_the_language_server_opens() {
    let mut project = Project::new("owner".to_owned(), "demo".to_owned());
    let (stored, notice) = project.add_file("main.rs".to_owned(), Document::new_with("fn main() {}".to_owned()));
    assert_eq!(stored.text(), "fn main() {}");
    let notice = notice.expect("a rust file is opened");
    assert_eq!(notice.uri, "file:///home/main.rs");
    assert_eq!(notice.version, 0);
    assert_eq!(notice.text, "fn main() {}");
    assert!(project.add_file("README.md".to_owned(), Document::new()).1.is_none());
    assert_eq!(project.get_files().len(), 2);
    assert!(project.rm_file("README.md").is_some());
    assert_eq!(project.get_files().len(), 1);
}

#[test]
fn the_language_server_is_started_once_with_every_file() {
    let mut project = Project::new("owner".to_owned(), "demo".to_owned());
    let mut doc = Document::new_with("fn main() {}".to_owned());
    doc.compose("u".to_owned(), 0, vec![OtOp::Retain(12), OtOp::Insert("\n".to_owned())]).unwrap();
    project.add_file("main.rs".to_owned(), doc);
    project.add_file("lib.rs".to_owned(), Document::new_with("".to_owned()));
    let mut opened = project.start_lsp().expect("first start");
    opened.sort_by(|a, b| a.path.cmp(&b.path));
    assert_eq!(opened.len(), 2);
    assert_eq!(opened[0].path, "lib.rs");
    assert_eq!(opened[0].uri, "file:///home/lib.rs");
    assert_eq!(opened[0].version, 0);
    assert_eq!(opened[1].uri, "file:///home/main.rs");
    assert_eq!(opened[1].version, 1);
    assert_eq!(opened[1].text, "fn main() {}\n");
    assert!(project.start_lsp().is_none());
}

#[test]
fn edits_tell_the_revision_and_the_new_text() {
    let mut project = Project::new("owner".to_owned(), "demo".to_owned());
    project.add_file("main.rs".to_owned(), Document::new_with("a".to_owned()));
    let notice = project.file_edit("main.rs".to_owned(), "b".to_owned()).expect("the URI parses");
    assert_eq!(notice.uri, "file:///home/main.rs");
    assert_eq!(notice.version, 0);
    assert_eq!(notice.text, "b");
    let other = project.file_edit("new.rs".to_owned(), "c".to_owned()).expect("the URI parses");
    assert_eq!(other.version, 0);
    assert_eq!(other.path, "new.rs");
}

#[test]
fn forking_a_fork_keeps_the_same_files() {
    let mut files = ProjectFiles::new();
    let mut doc = Document::new_with("x".to_owned());
    doc.compose("u".to_owned(), 0, vec![OtOp::Retain(1), OtOp::Insert("y".to_owned())]).unwrap();
    files.add_file("main.rs".to_owned(), doc);
    let once = files.fork();
    let twice = once.fork();
    assert_eq!(once.get_files().len(), twice.get_files().len());
    assert_eq!(twice.get_file("main.rs").map(|d| (d.text(), d.revision())), Some(("xy".to_owned(), 0)));
}

#[test]
fn only_paths_that_make_a_uri_are_told_to_the_language_server() {
    assert!(uri_is_valid("file:///home/main.rs"));
    assert!(!uri_is_valid("file:///home/a b.rs"));
    let mut project = Project::new("owner".to_owned(), "demo".to_owned());
    let (_, notice) = project.add_file("a b.rs".to_owned(), Document::new_with("x".to_owned()));
    assert!(notice.is_none());
    assert!(project.file_edit("a b.rs".to_owned(), "y".to_owned()).is_none());
    project.add_file("ok.rs".to_owned(), Document::new());
    let opened = project.start_lsp().expect("first start");
    assert_eq!(opened.len(), 1);
    assert_eq!(opened[0].path, "ok.rs");
}
