use rsground::docker::{ContainerCommandOutput, ContainerRetrivalError};
use rsground::docker_session::{
    removed_runners, runner_delete_query, runner_expiry, runner_image_present, stop_error, take_chunk, OutputChunk, SessionSetup, SetupAction,
    SetupEvent, SetupStep,
};

fn tags(list: &[&[&str]]) -> Vec<Vec<String>> {
    list.iter().map(|t| t.iter().map(|s| s.to_string()).collect()).collect()
}

fn run(action: SetupAction) -> SetupStep {
    match action {
        SetupAction::Run(step) => step,
        other => panic!("unexpected {other:?}"),
    }
}

#[test]
fn the_runner_image_is_found_by_its_tag() {
    assert!(runner_image_present(&tags(&[&["ubuntu:22.04"], &["rust:1.80", "rust:latest"]])));
    assert!(!runner_image_present(&tags(&[&["ubuntu:22.04"], &[]])));
    assert!(!runner_image_present(&tags(&[])));
}

#[test]
fn a_complete_setup_ends_with_the_hash() {
    let (mut setup, first) = SessionSetup::new(1000);
    assert_eq!(run(first), SetupStep::ListImages);
    assert_eq!(run(setup.on_event(SetupEvent::Images(tags(&[&["rust:latest"]])))), SetupStep::CreateDirectory);
    assert_eq!(run(setup.on_event(SetupEvent::Done)), SetupStep::CreateContainer);
    assert_eq!(run(setup.on_event(SetupEvent::Done)), SetupStep::StartContainer);
    assert_eq!(run(setup.on_event(SetupEvent::Done)), SetupStep::InitProject);
    let hash = setup.hash().clone();
    assert_eq!(hash.len(), 16);
    assert!(hash.chars().all(|c| c.is_ascii_alphanumeric()));
    match setup.on_event(SetupEvent::Done) {
        SetupAction::Store { hash: h, expires_at } => {
            assert_eq!(h, hash);
            assert_eq!(expires_at, 1060);
        }
        other => panic!("unexpected {other:?}"),
    }
    assert!(matches!(setup.on_event(SetupEvent::Done), SetupAction::Finish(Ok(h)) if h == hash));
}

#[test]
fn a_missing_image_is_pulled() {
    let (mut setup, _) = SessionSetup::new(1000);
    assert_eq!(run(setup.on_event(SetupEvent::Images(tags(&[&["ubuntu"]])))), SetupStep::PullImage);
    assert!(matches!(setup.on_event(SetupEvent::Failed("no network".to_owned())), SetupAction::Finish(Err(m)) if m == "no network"));
    let (mut setup, _) = SessionSetup::new(1000);
    assert_eq!(run(setup.on_event(SetupEvent::Failed("cannot list".to_owned()))), SetupStep::PullImage);
    assert_eq!(run(setup.on_event(SetupEvent::Done)), SetupStep::CreateDirectory);
}

#[test]
fn failures_end_the_setup_with_their_message() {
    let (mut setup, _) = SessionSetup::new(1000);
    setup.on_event(SetupEvent::Images(tags(&[&["rust:latest"]])));
    setup.on_event(SetupEvent::Done);
    setup.on_event(SetupEvent::Done);
    setup.on_event(SetupEvent::Done);
    assert!(matches!(setup.on_event(SetupEvent::Failed("exec".to_owned())), SetupAction::Finish(Err(m)) if m == "Couldn't create a new cargo project."));
}

#[test]
fn an_unstored_record_removes_the_container() {
    let (mut setup, _) = SessionSetup::new(1000);
    setup.on_event(SetupEvent::Images(tags(&[&["rust:latest"]])));
    for _ in 0..4 {
        setup.on_event(SetupEvent::Done);
    }
    assert_eq!(run(setup.on_event(SetupEvent::Failed("db".to_owned()))), SetupStep::RemoveContainer);
    assert!(matches!(setup.on_event(SetupEvent::Done), SetupAction::Finish(Err(m)) if m == "Couldn't insert runner data."));
}

#[test]
fn docker_errors_are_read() {
    assert_eq!(stop_error(Some(404)), ContainerRetrivalError::NotFound);
    assert_eq!(stop_error(Some(500)), ContainerRetrivalError::Error);
    assert_eq!(stop_error(None), ContainerRetrivalError::Error);
    assert_eq!(runner_expiry(1000), 1060);
}

#[test]
fn output_chunks_are_collected_until_a_failure() {
    let mut output = Vec::new();
    assert!(take_chunk(&mut output, OutputChunk::StdOut(b"a".to_vec())).is_ok());
    assert!(take_chunk(&mut output, OutputChunk::StdErr(b"b".to_vec())).is_ok());
    assert_eq!(take_chunk(&mut output, OutputChunk::Fault(404)), Err(ContainerRetrivalError::NotFound));
    assert_eq!(take_chunk(&mut output, OutputChunk::Fault(409)), Err(ContainerRetrivalError::Error));
    assert_eq!(take_chunk(&mut output, OutputChunk::Broken), Err(ContainerRetrivalError::Error));
    assert_eq!(output.len(), 2);
    assert!(matches!(&output[0], ContainerCommandOutput::StdOut(d) if d == b"a"));
    assert!(matches!(&output[1], ContainerCommandOutput::StdErr(d) if d == b"b"));
}

#[test]
fn the_delete_statement_has_one_placeholder_per_runner() {
    assert_eq!(runner_delete_query(0), "DELETE FROM runners WHERE hash in ()");
    assert_eq!(runner_delete_query(1), "DELETE FROM runners WHERE hash in (?)");
    assert_eq!(runner_delete_query(3), "DELETE FROM runners WHERE hash in (?, ?, ?)");
}

#[test]
fn runners_that_could_not_be_removed_keep_their_record() {
    let hashes = vec!["a".to_owned(), "b".to_owned(), "c".to_owned()];
    let outcomes = vec![Ok(()), Err(ContainerRetrivalError::Error), Err(ContainerRetrivalError::NotFound)];
    assert_eq!(removed_runners(&hashes, &outcomes), vec!["a".to_owned(), "c".to_owned()]);
}
