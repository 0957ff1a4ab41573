//! The decisions of a project's producer, which builds, prepares and runs
//! the project's program one job after the other and streams what happens
//! to the project's clients.
//!
//! The caller runs the jobs (the build, the patch of the binary, the run)
//! and hands their outcome to these functions, which answer what to
//! broadcast and which job comes next.
use vstd::prelude::*;

use crate::text::{bytes_of, utf8};

verus! {

/// The stream an output chunk comes from.
#[derive(Debug, Clone, Copy, PartialEq, Eq, Structural)]
pub enum OutputChannel {
    Stdout,
    Stderr,
}

/// What the producer tells the project's clients.
#[derive(Debug, Clone)]
pub enum SyncMessage {
    /// A run starts.
    SyncOutputStart,
    /// A chunk of output.
    SyncOutput { channel: OutputChannel, buf: Vec<u8> },
    /// The run is over, with this exit code.
    SyncOutputEnd { exit_code: u8 },
}

/// A message as the contracts see it.
pub ghost enum SyncView {
    Start,
    Output(OutputChannel, Seq<u8>),
    End(u8),
}

impl View for SyncMessage {
    type V = SyncView;

    open spec fn view(&self) -> SyncView {
        match self {
            SyncMessage::SyncOutputStart => SyncView::Start,
            SyncMessage::SyncOutput { channel, buf } => SyncView::Output(*channel, buf@),
            SyncMessage::SyncOutputEnd { exit_code } => SyncView::End(*exit_code),
        }
    }
}

/// The messages as the contracts see them.
pub open spec fn messages_view(m: Seq<SyncMessage>) -> Seq<SyncView> {
    m.map_values(|s: SyncMessage| s@)
}

/// The jobs of a run, in their order.
#[derive(Debug, Clone, Copy, PartialEq, Eq, Structural)]
pub enum ProducerJob {
    Compile,
    Patch,
    Run,
}

/// How a job ended: it could not be started (with the error's message), or
/// its process exited with a code, successfully or not, and the output it
/// collected (the patch job collects it; the others stream it as it comes).
pub enum JobOutcome {
    SpawnFailed(String),
    Exited { success: bool, code: i32, stdout: Vec<u8>, stderr: Vec<u8> },
}

/// The exit code sent to clients where a job could not be carried out.
pub const FAILED_EXIT_CODE: u8 = 126;

/// What follows a job: the messages to broadcast, and the next job, if the
/// run goes on.
pub struct ProducerStep {
    pub messages: Vec<SyncMessage>,
    pub next: Option<ProducerJob>,
}

/// The messages for a job that could not be started: its error on the
/// error stream, then the end of the run.
pub open spec fn spawn_failure(error: Seq<char>) -> Seq<SyncView> {
    seq![SyncView::Output(OutputChannel::Stderr, utf8(error)), SyncView::End(FAILED_EXIT_CODE)]
}

/// What follows the end of `job` with `outcome`: the messages and the next
/// job. A build that fails ends the run with its exit code; a patch that
/// fails shows what it printed and ends the run with 126; a run ends with
/// its exit code; a job that could not start shows why and ends with 126.
pub open spec fn step_spec(job: ProducerJob, outcome: JobOutcome) -> (Seq<SyncView>, Option<ProducerJob>) {
    match outcome {
        JobOutcome::SpawnFailed(e) => (spawn_failure(e@), None),
        JobOutcome::Exited { success, code, stdout, stderr } => match job {
            ProducerJob::Compile => if success {
                (Seq::empty(), Some(ProducerJob::Patch))
            } else {
                (seq![SyncView::End(code as u8)], None)
            },
            ProducerJob::Patch => if success {
                (Seq::empty(), Some(ProducerJob::Run))
            } else {
                (
                    seq![
                        SyncView::Output(OutputChannel::Stdout, stdout@),
                        SyncView::Output(OutputChannel::Stderr, stderr@),
                        SyncView::End(FAILED_EXIT_CODE),
                    ],
                    None,
                )
            },
            ProducerJob::Run => (seq![SyncView::End(code as u8)], None),
        },
    }
}

/// The producer: whether a run is under way.
pub struct Producer {
    busy: bool,
}

impl Producer {
    pub closed spec fn spec_busy(&self) -> bool {
        self.busy
    }

    /// An idle producer.
    pub fn new() -> (r: Self)
        ensures
            !r.spec_busy(),
    {
        Producer { busy: false }
    }

    pub fn is_busy(&self) -> (r: bool)
        ensures
            r == self.spec_busy(),
    {
        self.busy
    }

    /// A client asks for a run: an idle producer announces it and starts
    /// with the build; a busy one ignores the request.
    pub fn execute(&self) -> (r: ProducerStep)
        ensures
            !self.spec_busy() ==> messages_view(r.messages@) == seq![SyncView::Start] && r.next
                == Some(ProducerJob::Compile),
            self.spec_busy() ==> r.messages@.len() == 0 && r.next is None,
    {
        let mut messages: Vec<SyncMessage> = Vec::new();
        if self.busy {
            assert(messages@.len() == 0);
            ProducerStep { messages, next: None }
        } else {
            messages.push(SyncMessage::SyncOutputStart);
            assert(messages_view(messages@) =~= seq![SyncView::Start]);
            ProducerStep { messages, next: Some(ProducerJob::Compile) }
        }
    }

    /// A job has started: the producer is busy until the run ends or is
    /// aborted.
    pub fn job_started(&mut self)
        ensures
            final(self).spec_busy(),
    {
        self.busy = true;
    }

    /// A client asks to stop: answers whether a job is to be aborted; the
    /// producer is idle afterwards.
    pub fn abort(&mut self) -> (r: bool)
        ensures
            r == old(self).spec_busy(),
            !final(self).spec_busy(),
    {
        let r = self.busy;
        self.busy = false;
        r
    }

    /// The job `job` ended with `outcome`: the messages to broadcast and the
    /// next job, as [`step_spec`] says. Where the run ends, the producer is
    /// idle again.
    pub fn job_finished(&mut self, job: ProducerJob, outcome: JobOutcome) -> (r: ProducerStep)
        ensures
            (messages_view(r.messages@), r.next) == step_spec(job, outcome),
            final(self).spec_busy() == (old(self).spec_busy() && r.next is Some),
    {
        let ghost o = outcome;
        let mut messages: Vec<SyncMessage> = Vec::new();
        let next = match outcome {
            JobOutcome::SpawnFailed(e) => {
                messages.push(SyncMessage::SyncOutput { channel: OutputChannel::Stderr, buf: bytes_of(e.as_str()) });
                messages.push(SyncMessage::SyncOutputEnd { exit_code: FAILED_EXIT_CODE });
                None
            },
            JobOutcome::Exited { success, code, stdout, stderr } => match job {
                ProducerJob::Compile => if success {
                    Some(ProducerJob::Patch)
                } else {
                    messages.push(SyncMessage::SyncOutputEnd { exit_code: code as u8 });
                    None
                },
                ProducerJob::Patch => if success {
                    Some(ProducerJob::Run)
                } else {
                    messages.push(SyncMessage::SyncOutput { channel: OutputChannel::Stdout, buf: stdout });
                    messages.push(SyncMessage::SyncOutput { channel: OutputChannel::Stderr, buf: stderr });
                    messages.push(SyncMessage::SyncOutputEnd { exit_code: FAILED_EXIT_CODE });
                    None
                },
                ProducerJob::Run => {
                    messages.push(SyncMessage::SyncOutputEnd { exit_code: code as u8 });
                    None
                },
            },
        };
        assert(messages_view(messages@) =~= step_spec(job, o).0);
        if next.is_none() {
            self.busy = false;
        }
        ProducerStep { messages, next }
    }
}

/// A run either goes on with the next job, in the order build, patch, run,
/// or ends, and then its last message is the end of the run; the run job
/// always ends it.
pub proof fn law_runs_end_with_an_end(job: ProducerJob, outcome: JobOutcome)
    ensures
        ({
            let (msgs, next) = step_spec(job, outcome);
            &&& next is None ==> msgs.len() > 0 && msgs.last() is End
            &&& next is Some ==> msgs.len() == 0
            &&& next == Some(ProducerJob::Patch) ==> job == ProducerJob::Compile
            &&& next == Some(ProducerJob::Run) ==> job == ProducerJob::Patch
            &&& next != Some(ProducerJob::Compile)
            &&& job == ProducerJob::Run ==> next is None
        }),
{
}

/// The number of end messages in `m`.
pub open spec fn count_ends(m: Seq<SyncView>) -> nat
    decreases m.len(),
{
    if m.len() == 0 {
        0
    } else {
        count_ends(m.drop_last()) + if m.last() is End {
            1nat
        } else {
            0nat
        }
    }
}

/// Everything a run broadcasts when it is started and its jobs end with
/// `build`, `patch` and `run` in turn (a job that is not reached does not
/// count).
pub open spec fn run_messages(build: JobOutcome, patch: JobOutcome, run: JobOutcome) -> Seq<SyncView> {
    let (m1, n1) = step_spec(ProducerJob::Compile, build);
    let (m2, n2) = step_spec(ProducerJob::Patch, patch);
    let (m3, _) = step_spec(ProducerJob::Run, run);
    seq![SyncView::Start] + m1 + if n1 is Some {
        m2 + if n2 is Some {
            m3
        } else {
            Seq::empty()
        }
    } else {
        Seq::empty()
    }
}

proof fn lemma_count_ends_concat(a: Seq<SyncView>, b: Seq<SyncView>)
    ensures
        count_ends(a + b) == count_ends(a) + count_ends(b),
    decreases b.len(),
{
    if b.len() == 0 {
        assert(a + b =~= a);
    } else {
        lemma_count_ends_concat(a, b.drop_last());
        assert((a + b).drop_last() =~= a + b.drop_last());
        assert((a + b).last() == b.last());
    }
}

/// A run started on an idle producer goes through its jobs in the order
/// build, patch, run, a failed job starting no later one, and broadcasts
/// its start first and exactly one end message, as its last message.
pub proof fn law_a_run_ends_exactly_once(build: JobOutcome, patch: JobOutcome, run: JobOutcome)
    ensures
        run_messages(build, patch, run)[0] is Start,
        count_ends(run_messages(build, patch, run)) == 1,
        run_messages(build, patch, run).last() is End,
{
    let (m1, n1) = step_spec(ProducerJob::Compile, build);
    let (m2, n2) = step_spec(ProducerJob::Patch, patch);
    let (m3, n3) = step_spec(ProducerJob::Run, run);
    reveal_with_fuel(count_ends, 4);
    let tail = if n1 is Some {
        m2 + if n2 is Some {
            m3
        } else {
            Seq::<SyncView>::empty()
        }
    } else {
        Seq::<SyncView>::empty()
    };
    let all = seq![SyncView::Start] + m1 + tail;
    assert(all == run_messages(build, patch, run));
    lemma_count_ends_concat(seq![SyncView::Start], m1);
    lemma_count_ends_concat(seq![SyncView::Start] + m1, tail);
    assert(count_ends(seq![SyncView::Start]) == 0) by {
        assert(seq![SyncView::Start].drop_last() =~= Seq::<SyncView>::empty());
    }
    if n1 is Some {
        lemma_count_ends_concat(m2, if n2 is Some { m3 } else { Seq::<SyncView>::empty() });
        assert(m1.len() == 0);
        if n2 is Some {
            assert(m2.len() == 0);
            assert(m2 + m3 =~= m3);
        }
    } else {
        assert(tail.len() == 0);
        assert(all =~= seq![SyncView::Start] + m1);
    }
}


/// A job that could not be started, whichever job it was, ends the run:
/// its error goes out on the error stream, then the end of the run with
/// code 126, and no job follows.
pub proof fn law_unstarted_job_ends_the_run(job: ProducerJob, error: String)
    ensures
        step_spec(job, JobOutcome::SpawnFailed(error)) == (
            seq![
                SyncView::Output(OutputChannel::Stderr, utf8(error@)),
                SyncView::End(126u8),
            ],
            None::<ProducerJob>,
        ),
{
}

/// A job whose process exited: a successful build is followed by the patch
/// and a successful patch by the run, silently; a failed build and any run
/// end the run with the process's exit code; a failed patch shows what it
/// printed and ends the run with code 126.
pub proof fn law_exited_jobs(
    job: ProducerJob,
    success: bool,
    code: i32,
    stdout: Vec<u8>,
    stderr: Vec<u8>,
)
    ensures
        ({
            let (msgs, next) = step_spec(job, JobOutcome::Exited { success, code, stdout, stderr });
            &&& job == ProducerJob::Compile && success ==> msgs.len() == 0 && next == Some(
                ProducerJob::Patch,
            )
            &&& job == ProducerJob::Patch && success ==> msgs.len() == 0 && next == Some(
                ProducerJob::Run,
            )
            &&& (job == ProducerJob::Run || (job == ProducerJob::Compile && !success)) ==> msgs
                == seq![SyncView::End(code as u8)] && next is None
            &&& job == ProducerJob::Patch && !success ==> next is None && msgs == seq![
                SyncView::Output(OutputChannel::Stdout, stdout@),
                SyncView::Output(OutputChannel::Stderr, stderr@),
                SyncView::End(126u8),
            ]
        }),
{
}

} // verus!
