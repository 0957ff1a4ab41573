use rsground::producer::{JobOutcome, OutputChannel, Producer, ProducerJob, SyncMessage};

fn exited(success: bool, code: i32) -> JobOutcome {
    JobOutcome::Exited { success, code, stdout: vec![], stderr: vec![] }
}

fn ends(messages: &[SyncMessage]) -> Vec<u8> {
    messages
        .iter()
        .filter_map(|m| match m {
            SyncMessage::SyncOutputEnd { exit_code } => Some(*exit_code),
            _ => None,
        })
        .collect()
}

#[test]
fn a_successful_run_goes_through_every_job() {
    let mut p = Producer::new();
    let start = p.execute();
    assert!(matches!(start.messages.as_slice(), [SyncMessage::SyncOutputStart]));
    assert_eq!(start.next, Some(ProducerJob::Compile));
    p.job_started();
    assert!(p.is_busy());
    let after_build = p.job_finished(ProducerJob::Compile, exited(true, 0));
    assert!(after_build.messages.is_empty());
    assert_eq!(after_build.next, Some(ProducerJob::Patch));
    p.job_started();
    let after_patch = p.job_finished(ProducerJob::Patch, exited(true, 0));
    assert_eq!(after_patch.next, Some(ProducerJob::Run));
    p.job_started();
    let after_run = p.job_finished(ProducerJob::Run, exited(true, 0));
    assert_eq!(ends(&after_run.messages), vec![0]);
    assert_eq!(after_run.next, None);
    assert!(!p.is_busy());
}

#[test]
fn a_busy_producer_ignores_execute() {
    let mut p = Producer::new();
    p.job_started();
    let step = p.execute();
    assert!(step.messages.is_empty());
    assert_eq!(step.next, None);
}

#[test]
fn a_failed_build_ends_with_its_code() {
    let mut p = Producer::new();
    p.job_started();
    let step = p.job_finished(ProducerJob::Compile, exited(false, 101));
    assert_eq!(ends(&step.messages), vec![101]);
    assert_eq!(step.next, None);
    assert!(!p.is_busy());
}

#[test]
fn exit_codes_are_truncated_to_a_byte() {
    let mut p = Producer::new();
    p.job_started();
    let step = p.job_finished(ProducerJob::Run, exited(false, 257));
    assert_eq!(ends(&step.messages), vec![1]);
    let step = p.job_finished(ProducerJob::Run, exited(false, -1));
    assert_eq!(ends(&step.messages), vec![255]);
}

#[test]
fn a_failed_patch_shows_its_output() {
    let mut p = Producer::new();
    p.job_started();
    let step = p.job_finished(
        ProducerJob::Patch,
        JobOutcome::Exited { success: false, code: 1, stdout: b"out".to_vec(), stderr: b"err".to_vec() },
    );
    match step.messages.as_slice() {
        [SyncMessage::SyncOutput { channel: OutputChannel::Stdout, buf: o }, SyncMessage::SyncOutput { channel: OutputChannel::Stderr, buf: e }, SyncMessage::SyncOutputEnd { exit_code: 126 }] => {
            assert_eq!(o, b"out");
            assert_eq!(e, b"err");
        }
        other => panic!("unexpected {other:?}"),
    }
    assert_eq!(step.next, None);
}

#[test]
fn a_job_that_cannot_start_reports_why() {
    let mut p = Producer::new();
    p.job_started();
    let step = p.job_finished(ProducerJob::Compile, JobOutcome::SpawnFailed("no cargo".to_owned()));
    match step.messages.as_slice() {
        [SyncMessage::SyncOutput { channel: OutputChannel::Stderr, buf }, SyncMessage::SyncOutputEnd { exit_code: 126 }] => {
            assert_eq!(buf, b"no cargo");
        }
        other => panic!("unexpected {other:?}"),
    }
    assert!(!p.is_busy());
}

#[test]
fn abort_stops_a_busy_producer_only() {
    let mut p = Producer::new();
    assert!(!p.abort());
    p.job_started();
    assert!(p.abort());
    assert!(!p.is_busy());
}
