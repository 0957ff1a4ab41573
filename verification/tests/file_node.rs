use std::collections::HashMap;

use rsground::file_node::FileNode;

#[test]
fn a_directory_is_changed_in_place() {
    let mut root = FileNode::Directory(HashMap::new());
    root.as_directory_mut().expect("a directory").insert("main.rs".to_owned(), FileNode::File);
    match &root {
        FileNode::Directory(entries) => {
            assert_eq!(entries.len(), 1);
            assert!(matches!(entries.get("main.rs"), Some(FileNode::File)));
        }
        FileNode::File => panic!("still a directory"),
    }
}

#[test]
fn a_file_has_no_entries() {
    let mut file = FileNode::File;
    assert!(file.as_directory_mut().is_none());
    assert!(matches!(file, FileNode::File));
}
