use rsground::ot::{apply_actions, transform_actions, transform_index, Action};

#[test]
fn simple_transformations() {
    let owner = "owner_a".to_owned();

    // "ac" -> "abc"
    let history = &[Action::Insertion {
        from: 1,
        text: "b".to_owned(),
        owner: owner.clone(),
    }];

    let owner = "owner_b".to_owned();
    let text = "abc";

    // "ac" -> "acde"
    let actions = &mut [Action::Insertion {
        from: 2,
        text: "de".to_owned(),
        owner: owner.clone(),
    }];

    transform_actions(actions, history);

    let output = apply_actions(text, actions);
    let expected = "abcde";

    println!("{:?}", history);
    println!("{:?}", actions);
    assert_eq!(output, expected);
}

#[test]
fn complex_transformations() {
    let owner = "owner_a".to_owned();

    // "cd" -> "ac"
    let history = &[
        Action::Insertion {
            from: 0,
            text: "a".to_owned(),
            owner: owner.clone(),
        },
        Action::Deletion {
            from: 1,
            to: 2,
            owner: owner.clone(),
        },
    ];

    let owner = "owner_b".to_owned();
    let text = "ad";

    // "cd" -> "bcde"
    let actions = &mut [
        Action::Insertion {
            from: 0,
            text: "b".to_owned(),
            owner: owner.clone(),
        },
        Action::Insertion {
            from: 3,
            text: "e".to_owned(),
            owner: owner.clone(),
        },
    ];

    transform_actions(actions, history);

    let output = apply_actions(text, actions);
    let expected = "abde";

    println!("{:?}", history);
    println!("{:?}", actions);
    assert_eq!(output, expected);
}

#[test]
fn simple_apply_actions() {
    let owner = "owner".to_owned();
    let text = "abd";
    let actions = &[
        Action::Deletion {
            from: 2,
            to: 3,
            owner: owner.clone(),
        },
        Action::Insertion {
            from: 2,
            text: "c".to_owned(),
            owner: owner.clone(),
        },
    ];

    let output = apply_actions(text, actions);
    let expected = "abc";

    assert_eq!(output, expected);
}

#[test]
fn complex_apply_actions() {
    let owner = "owner".to_owned();
    let text = "abc";
    let actions = &[
        Action::Insertion {
            from: 3,
            text: "D".to_owned(),
            owner: owner.clone(),
        },
        Action::Deletion {
            from: 1,
            to: 4,
            owner: owner.clone(),
        },
        Action::Insertion {
            from: 1,
            text: "BC".to_owned(),
            owner: owner.clone(),
        },
        Action::Deletion {
            from: 0,
            to: 1,
            owner: owner.clone(),
        },
        Action::Insertion {
            from: 0,
            text: "A".to_owned(),
            owner: owner.clone(),
        },
    ];

    let output = apply_actions(text, actions);
    let expected = "ABC";

    assert_eq!(output, expected);
}

fn ins(from: usize, text: &str, owner: &str) -> Action {
    Action::Insertion { from, text: text.to_owned(), owner: owner.to_owned() }
}

fn del(from: usize, to: usize, owner: &str) -> Action {
    Action::Deletion { from, to, owner: owner.to_owned() }
}

#[test]
fn own_history_does_not_move_positions() {
    let history = [ins(0, "xyz", "me"), del(0, 2, "me")];
    assert_eq!(transform_index(5, &"me".to_owned(), &history), 5);
}

#[test]
fn transform_over_concatenated_histories() {
    let h1 = [ins(0, "ab", "a")];
    let h2 = [del(0, 1, "b"), ins(10, "zz", "b")];
    let both = [ins(0, "ab", "a"), del(0, 1, "b"), ins(10, "zz", "b")];
    let owner = "me".to_owned();
    let step = transform_index(transform_index(4, &owner, &h1), &owner, &h2);
    assert_eq!(transform_index(4, &owner, &both), step);
    assert_eq!(step, 5);
}

#[test]
fn edits_after_a_position_are_ignored() {
    let history = [ins(7, "hello", "x"), del(3, 9, "y")];
    assert_eq!(transform_index(3, &"me".to_owned(), &history), 3);
}

#[test]
fn insertion_length_counts_bytes() {
    // "é" is two bytes long.
    let history = [ins(0, "é", "x")];
    assert_eq!(transform_index(1, &"me".to_owned(), &history), 3);
}

#[test]
fn transform_keeps_deletion_length() {
    let history = [ins(0, "1234", "x")];
    let mut actions = [del(2, 5, "me")];
    transform_actions(&mut actions, &history);
    match &actions[0] {
        Action::Deletion { from, to, owner } => {
            assert_eq!((*from, *to), (6, 9));
            assert_eq!(owner, "me");
        }
        _ => panic!("deletion expected"),
    }
}

#[test]
fn apply_nothing_keeps_text() {
    assert_eq!(apply_actions("héllo", &[]), "héllo");
}

#[test]
fn delete_undoes_insert() {
    let actions = [ins(2, "XYZ", "a"), del(2, 5, "b")];
    assert_eq!(apply_actions("abcdef", &actions), "abcdef");
}

#[test]
fn apply_over_concatenation() {
    let a = [ins(1, "Z", "o")];
    let b = [del(0, 1, "o"), ins(9, "!", "o")];
    let both = [ins(1, "Z", "o"), del(0, 1, "o"), ins(9, "!", "o")];
    let step = apply_actions(&apply_actions("abc", &a), &b);
    assert_eq!(apply_actions("abc", &both), step);
    assert_eq!(step, "Zbc!");
}

#[test]
fn deletion_past_the_end_trims_the_tail() {
    assert_eq!(apply_actions("abcdef", &[del(4, 10, "o")]), "");
    assert_eq!(apply_actions("abcdef", &[del(5, 7, "o")]), "abcd");
}

#[test]
fn insertion_on_char_boundary_of_multibyte_text() {
    assert_eq!(apply_actions("añb", &[ins(3, "-", "o")]), "añ-b");
}
