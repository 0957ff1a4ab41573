use rsground::collab::{apply_edits, edit_lens_fit, move_cursor, Document, OtOp};

fn ins(s: &str) -> OtOp {
    OtOp::Insert(s.to_owned())
}

#[test]
fn edits_apply_step_by_step() {
    let ops = vec![OtOp::Retain(1), OtOp::Delete(1), ins("XY"), OtOp::Retain(1)];
    assert!(edit_lens_fit(&ops));
    assert_eq!(apply_edits(&ops, "abc"), Some("aXYc".to_owned()));
    assert_eq!(apply_edits(&ops, "ab"), None);
    assert_eq!(apply_edits(&vec![ins("é")], ""), Some("é".to_owned()));
    assert_eq!(apply_edits(&vec![OtOp::Retain(2)], "ñé"), Some("ñé".to_owned()));
}

#[test]
fn lengths_beyond_usize_are_reported() {
    let ops = vec![OtOp::Retain(u64::MAX), OtOp::Retain(u64::MAX)];
    assert!(!edit_lens_fit(&ops));
    assert!(!edit_lens_fit(&vec![OtOp::Insert("x".to_owned()), OtOp::Retain(u64::MAX), OtOp::Retain(u64::MAX)]));
    assert_eq!(apply_edits(&ops, "abc"), None);
}

#[test]
fn an_up_to_date_edit_is_applied() {
    let mut doc = Document::new_with("abc".to_owned());
    assert_eq!(doc.revision(), 0);
    assert_eq!(doc.compose("u1".to_owned(), 0, vec![OtOp::Retain(3), ins("d")]), Ok(()));
    assert_eq!(doc.text(), "abcd");
    assert_eq!(doc.revision(), 1);
    let info = doc.info();
    assert_eq!(info.text, "abcd");
    assert_eq!(info.revision, 1);
}

#[test]
fn a_future_revision_is_refused() {
    let mut doc = Document::new_with("abc".to_owned());
    assert_eq!(
        doc.compose("u1".to_owned(), 2, vec![OtOp::Retain(3)]),
        Err("got revision 2, but current is 0".to_owned())
    );
    assert_eq!(doc.text(), "abc");
    assert_eq!(doc.revision(), 0);
}

#[test]
fn concurrent_edits_are_rebased() {
    let mut doc = Document::new_with("abc".to_owned());
    assert_eq!(doc.compose("a".to_owned(), 0, vec![OtOp::Retain(3), ins("X")]), Ok(()));
    assert_eq!(doc.compose("b".to_owned(), 0, vec![ins("Y"), OtOp::Retain(3)]), Ok(()));
    assert_eq!(doc.text(), "YabcX");
    assert_eq!(doc.revision(), 2);
    assert_eq!(doc.compose("c".to_owned(), 1, vec![OtOp::Delete(1), OtOp::Retain(3)]), Ok(()));
    assert_eq!(doc.text(), "YbcX");
}

#[test]
fn an_edit_of_another_length_is_refused() {
    let mut doc = Document::new_with("abc".to_owned());
    assert_eq!(doc.compose("u".to_owned(), 0, vec![OtOp::Retain(2)]), Err("incompatible lengths".to_owned()));
    assert_eq!(doc.compose("u".to_owned(), 0, vec![OtOp::Retain(3)]), Ok(()));
    assert_eq!(doc.compose("u".to_owned(), 0, vec![OtOp::Retain(4)]), Err("incompatible lengths".to_owned()));
    assert_eq!(doc.revision(), 1);
    assert_eq!(doc.text(), "abc");
}

#[test]
fn too_long_a_result_is_refused() {
    let mut doc = Document::new();
    let big = "x".repeat(262_145);
    assert_eq!(
        doc.compose("u".to_owned(), 0, vec![OtOp::Insert(big)]),
        Err("target length 262145 is greater than 256 KiB maximum".to_owned())
    );
    let fits = "x".repeat(262_144);
    assert_eq!(doc.compose("u".to_owned(), 0, vec![OtOp::Insert(fits)]), Ok(()));
    assert_eq!(doc.text().len(), 262_144);
}

#[test]
fn a_fork_keeps_the_text_only() {
    let mut doc = Document::new_with("abc".to_owned());
    doc.compose("u".to_owned(), 0, vec![OtOp::Retain(3), ins("!")]).unwrap();
    let fork = doc.fork();
    assert_eq!(fork.text(), "abc!");
    assert_eq!(fork.revision(), 0);
}

#[test]
fn cursors_move_through_an_edit() {
    let ops = vec![OtOp::Retain(2), ins("XY"), OtOp::Delete(1), OtOp::Retain(2)];
    assert_eq!(move_cursor(&ops, 0), 0);
    assert_eq!(move_cursor(&ops, 1), 1);
    assert_eq!(move_cursor(&ops, 2), 4);
    assert_eq!(move_cursor(&ops, 3), 4);
    assert_eq!(move_cursor(&ops, 5), 6);
    assert_eq!(move_cursor(&vec![OtOp::Delete(3)], 2), 0);
}

#[test]
fn compose_moves_every_cursor() {
    let mut doc = Document::new_with("abcde".to_owned());
    doc.set_cursors("u1".to_owned(), vec![(1, 3)]);
    doc.set_cursors("u2".to_owned(), vec![(5, 5)]);
    doc.set_cursors("u1".to_owned(), vec![(0, 2)]);
    assert_eq!(doc.cursors().len(), 2);
    doc.compose("u3".to_owned(), 0, vec![ins("zz"), OtOp::Retain(5)]).unwrap();
    assert_eq!(doc.cursors()[0], ("u1".to_owned(), vec![(2, 4)]));
    assert_eq!(doc.cursors()[1], ("u2".to_owned(), vec![(7, 7)]));
    assert!(doc.compose("u3".to_owned(), 0, vec![OtOp::Retain(1)]).is_err());
    assert_eq!(doc.cursors()[1], ("u2".to_owned(), vec![(7, 7)]));
}


#[test]
fn an_edit_is_normalised_before_cursors_move() {
    let mut doc = Document::new_with("a".to_owned());
    doc.set_cursors("u1".to_owned(), vec![(0, 0)]);
    assert_eq!(doc.compose("u2".to_owned(), 0, vec![OtOp::Delete(1), ins("x")]), Ok(()));
    assert_eq!(doc.text(), "x".to_owned());
    assert_eq!(doc.cursors()[0], ("u1".to_owned(), vec![(1, 1)]));
}
