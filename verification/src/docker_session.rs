//! The decisions of setting up and tearing down a runner container: which
//! Docker step comes next, what a failed step answers, and how Docker's
//! errors and output chunks are read.
//!
//! The caller performs each step against Docker and hands back how it went.
use vstd::prelude::*;

use crate::docker::{ContainerCommandOutput, ContainerRetrivalError};
use crate::runner::{is_alphanumeric_char, random_hash};
use crate::strs::{matches_text, owned};

verus! {

/// The image runner containers are made from.
pub open spec fn runner_image() -> Seq<char> {
    "rust:latest"@
}

/// The memory a runner container may use: 256 MiB.
pub const RUNNER_MEMORY: u64 = 268435456;

/// How long a runner is kept before it is cleared away, in seconds.
pub const RUNNER_LIFETIME_SECS: i64 = 60;

/// The steps of setting up a runner, in their order.
#[derive(Debug, Clone, Copy, PartialEq, Eq, Structural)]
pub enum SetupStep {
    /// List the local images.
    ListImages,
    /// Pull the runner image.
    PullImage,
    /// Create the runner's directory.
    CreateDirectory,
    /// Create the container.
    CreateContainer,
    /// Start the container.
    StartContainer,
    /// Create the cargo project inside it.
    InitProject,
    /// Store the runner's record with its expiry.
    StoreRecord,
    /// Remove the container again, after its record could not be stored.
    RemoveContainer,
}

/// How a step went.
pub enum SetupEvent {
    /// The local images, each by its repository tags.
    Images(Vec<Vec<String>>),
    Done,
    /// The step failed, with the error's message.
    Failed(String),
}

/// What the caller does next: a step, or the end with the runner's hash or
/// the message of what failed.
#[derive(Debug)]
pub enum SetupAction {
    Run(SetupStep),
    /// Store the runner's record: its hash and when it expires.
    Store { hash: String, expires_at: i64 },
    Finish(Result<String, String>),
}

/// The tags of an image list as the contracts see them.
pub open spec fn tags_view(images: Seq<Vec<String>>) -> Seq<Seq<Seq<char>>> {
    images.map_values(|tags: Vec<String>| tags@.map_values(|t: String| t@))
}

/// Some image carries the runner image's tag.
pub open spec fn has_runner_image(images: Seq<Seq<Seq<char>>>) -> bool {
    exists|i: int, j: int|
        0 <= i < images.len() && 0 <= j < images[i].len() && #[trigger] images[i][j] == runner_image()
}

/// The message for a project that could not be created in the container.
pub open spec fn init_failure() -> Seq<char> {
    "Couldn't create a new cargo project."@
}

/// The message for a record that could not be stored.
pub open spec fn record_failure() -> Seq<char> {
    "Couldn't insert runner data."@
}

/// What the caller does next, as the contracts see it.
pub enum ActionView {
    Run(SetupStep),
    Store(Seq<char>, i64),
    Succeed(Seq<char>),
    Fail(Seq<char>),
}

/// The next action after `step` went as `event`, for the runner `hash`
/// whose record expires at `expires_at`: each step leads to the next, the
/// record carrying the hash and the expiry; listing the images (even when
/// it fails) leads to pulling the image unless it is there; a failed step
/// ends the setup with its message (a failed project creation with its
/// own); a record that cannot be stored has the container removed first.
pub open spec fn next_action(step: SetupStep, event: SetupEvent, hash: Seq<char>, expires_at: i64) -> ActionView {
    match step {
        SetupStep::ListImages => match event {
            SetupEvent::Images(images) => if has_runner_image(tags_view(images@)) {
                ActionView::Run(SetupStep::CreateDirectory)
            } else {
                ActionView::Run(SetupStep::PullImage)
            },
            _ => ActionView::Run(SetupStep::PullImage),
        },
        _ => match event {
            SetupEvent::Failed(m) => match step {
                SetupStep::InitProject => ActionView::Fail(init_failure()),
                SetupStep::StoreRecord => ActionView::Run(SetupStep::RemoveContainer),
                _ => ActionView::Fail(m@),
            },
            _ => match step {
                SetupStep::PullImage => ActionView::Run(SetupStep::CreateDirectory),
                SetupStep::CreateDirectory => ActionView::Run(SetupStep::CreateContainer),
                SetupStep::CreateContainer => ActionView::Run(SetupStep::StartContainer),
                SetupStep::StartContainer => ActionView::Run(SetupStep::InitProject),
                SetupStep::InitProject => ActionView::Store(hash, expires_at),
                SetupStep::StoreRecord => ActionView::Succeed(hash),
                _ => ActionView::Fail(record_failure()),
            },
        },
    }
}

impl SetupAction {
    pub open spec fn view_of(&self) -> ActionView {
        match self {
            SetupAction::Run(s) => ActionView::Run(*s),
            SetupAction::Store { hash, expires_at } => ActionView::Store(hash@, *expires_at),
            SetupAction::Finish(Ok(h)) => ActionView::Succeed(h@),
            SetupAction::Finish(Err(m)) => ActionView::Fail(m@),
        }
    }
}

/// Whether some image carries the runner image's tag.
pub fn runner_image_present(images: &Vec<Vec<String>>) -> (r: bool)
    ensures
        r == has_runner_image(tags_view(images@)),
{
    proof {
        reveal_strlit("rust:latest");
    }
    let mut i: usize = 0;
    while i < images.len()
        invariant
            i <= images@.len(),
            forall|a: int, b: int|
                0 <= a < i && 0 <= b < images@[a]@.len() ==> #[trigger] images@[a]@[b]@
                    != runner_image(),
        decreases images@.len() - i,
    {
        let tags = &images[i];
        let mut j: usize = 0;
        while j < tags.len()
            invariant
                i < images@.len(),
                *tags == images@[i as int],
                j <= tags@.len(),
                forall|b: int| 0 <= b < j ==> #[trigger] tags@[b]@ != runner_image(),
            decreases tags@.len() - j,
        {
            if matches_text(tags[j].as_str(), "rust:latest") {
                proof {
                    let v = tags_view(images@);
                    assert(v[i as int][j as int] == runner_image());
                }
                return true;
            }
            j = j + 1;
        }
        i = i + 1;
    }
    proof {
        let v = tags_view(images@);
        assert forall|a: int, b: int|
            0 <= a < v.len() && 0 <= b < v[a].len() implies #[trigger] v[a][b] != runner_image() by {
            assert(v[a][b] == images@[a]@[b]@);
        }
    }
    false
}

/// A random session hash: sixteen ASCII letters and digits.
pub fn session_hash() -> (r: String)
    ensures
        r@.len() == 16,
        forall|i: int| 0 <= i < 16 ==> is_alphanumeric_char(#[trigger] r@[i]),
{
    random_hash(16)
}

/// The setup of the runner `hash`, whose record expires at `expires_at`,
/// at the step under way.
pub struct SessionSetup {
    hash: String,
    expires_at: i64,
    step: SetupStep,
}

impl SessionSetup {
    pub closed spec fn spec_hash(&self) -> Seq<char> {
        self.hash@
    }

    pub closed spec fn spec_expiry(&self) -> i64 {
        self.expires_at
    }

    pub closed spec fn spec_step(&self) -> SetupStep {
        self.step
    }

    /// The setup of a new runner at `now` (seconds since the epoch): a
    /// random hash of sixteen ASCII letters and digits, a record that
    /// expires [`RUNNER_LIFETIME_SECS`] later, and the images are listed
    /// first.
    pub fn new(now: i64) -> (r: (Self, SetupAction))
        requires
            now <= i64::MAX - RUNNER_LIFETIME_SECS,
        ensures
            r.0.spec_hash().len() == 16,
            forall|i: int| 0 <= i < 16 ==> is_alphanumeric_char(#[trigger] r.0.spec_hash()[i]),
            r.0.spec_expiry() == now + RUNNER_LIFETIME_SECS,
            r.0.spec_step() == SetupStep::ListImages,
            r.1.view_of() == ActionView::Run(SetupStep::ListImages),
    {
        let hash = session_hash();
        let expires_at = runner_expiry(now);
        (SessionSetup { hash, expires_at, step: SetupStep::ListImages }, SetupAction::Run(SetupStep::ListImages))
    }

    /// The runner's hash (its container is `runner_<hash>`).
    pub fn hash(&self) -> (r: &String)
        ensures
            r@ == self.spec_hash(),
    {
        &self.hash
    }

    /// The step under way went as `event`: the next action, as
    /// [`next_action`] says; the setup moves on to the step it names.
    pub fn on_event(&mut self, event: SetupEvent) -> (r: SetupAction)
        ensures
            r.view_of() == next_action(
                old(self).spec_step(),
                event,
                old(self).spec_hash(),
                old(self).spec_expiry(),
            ),
            final(self).spec_hash() == old(self).spec_hash(),
            final(self).spec_expiry() == old(self).spec_expiry(),
            r matches SetupAction::Run(s) ==> final(self).spec_step() == s,
            r is Store ==> final(self).spec_step() == SetupStep::StoreRecord,
            r is Finish ==> final(self).spec_step() == old(self).spec_step(),
    {
        proof {
            reveal_strlit("Couldn't create a new cargo project.");
            reveal_strlit("Couldn't insert runner data.");
        }
        let ghost e = event;
        let r = match self.step {
            SetupStep::ListImages => match event {
                SetupEvent::Images(images) => if runner_image_present(&images) {
                    SetupAction::Run(SetupStep::CreateDirectory)
                } else {
                    SetupAction::Run(SetupStep::PullImage)
                },
                _ => SetupAction::Run(SetupStep::PullImage),
            },
            step => match event {
                SetupEvent::Failed(m) => match step {
                    SetupStep::InitProject => SetupAction::Finish(
                        Err(owned("Couldn't create a new cargo project.")),
                    ),
                    SetupStep::StoreRecord => SetupAction::Run(SetupStep::RemoveContainer),
                    _ => SetupAction::Finish(Err(m)),
                },
                _ => match step {
                    SetupStep::PullImage => SetupAction::Run(SetupStep::CreateDirectory),
                    SetupStep::CreateDirectory => SetupAction::Run(SetupStep::CreateContainer),
                    SetupStep::CreateContainer => SetupAction::Run(SetupStep::StartContainer),
                    SetupStep::StartContainer => SetupAction::Run(SetupStep::InitProject),
                    SetupStep::InitProject => SetupAction::Store {
                        hash: self.hash.clone(),
                        expires_at: self.expires_at,
                    },
                    SetupStep::StoreRecord => SetupAction::Finish(Ok(self.hash.clone())),
                    _ => SetupAction::Finish(Err(owned("Couldn't insert runner data."))),
                },
            },
        };
        match &r {
            SetupAction::Run(s) => self.step = *s,
            SetupAction::Store { .. } => self.step = SetupStep::StoreRecord,
            SetupAction::Finish(_) => {},
        }
        r
    }
}

/// The setup succeeds only by storing the runner's record, which carries
/// the runner's hash and expiry and comes only once the project exists;
/// a record that could not be stored always has the container removed
/// before the setup ends; a removal never leads to success.
pub proof fn law_setup_leaves_no_unrecorded_container(
    step: SetupStep,
    event: SetupEvent,
    hash: Seq<char>,
    expires_at: i64,
)
    ensures
        next_action(step, event, hash, expires_at) is Succeed ==> step == SetupStep::StoreRecord
            && next_action(step, event, hash, expires_at) == ActionView::Succeed(hash),
        next_action(step, event, hash, expires_at) is Store ==> step == SetupStep::InitProject
            && next_action(step, event, hash, expires_at) == ActionView::Store(hash, expires_at),
        step == SetupStep::StoreRecord && event is Failed ==> next_action(step, event, hash, expires_at)
            == ActionView::Run(SetupStep::RemoveContainer),
        step == SetupStep::RemoveContainer ==> next_action(step, event, hash, expires_at) is Fail,
{
}

/// The expiry of a runner set up at `now`.
pub fn runner_expiry(now: i64) -> (r: i64)
    requires
        now <= i64::MAX - RUNNER_LIFETIME_SECS,
    ensures
        r == now + RUNNER_LIFETIME_SECS,
{
    now + RUNNER_LIFETIME_SECS
}

/// Reads Docker's answer to stopping a container: a missing container
/// (status 404) is `NotFound`, any other fault an `Error`.
pub fn stop_error(status: Option<u16>) -> (r: ContainerRetrivalError)
    ensures
        status == Some(404u16) ==> r == ContainerRetrivalError::NotFound,
        status != Some(404u16) ==> r == ContainerRetrivalError::Error,
{
    match status {
        Some(404) => ContainerRetrivalError::NotFound,
        _ => ContainerRetrivalError::Error,
    }
}

/// A chunk of a command's output stream, as Docker delivers it.
pub enum OutputChunk {
    StdOut(Vec<u8>),
    StdErr(Vec<u8>),
    /// A fault with its HTTP status.
    Fault(u16),
    /// Any other failure.
    Broken,
}

/// Takes in one chunk of a command's output: data is appended; a fault of
/// status 404 means the container is missing; any other failure is an
/// error. Output taken before a failure stays as it was.
pub fn take_chunk(output: &mut Vec<ContainerCommandOutput>, chunk: OutputChunk) -> (r: Result<
    (),
    ContainerRetrivalError,
>)
    ensures
        match chunk {
            OutputChunk::StdOut(d) => r is Ok && final(output)@ == old(output)@.push(
                ContainerCommandOutput::StdOut(d),
            ),
            OutputChunk::StdErr(d) => r is Ok && final(output)@ == old(output)@.push(
                ContainerCommandOutput::StdErr(d),
            ),
            OutputChunk::Fault(code) => final(output)@ == old(output)@ && (if code == 404 {
                r == Err::<(), ContainerRetrivalError>(ContainerRetrivalError::NotFound)
            } else {
                r == Err::<(), ContainerRetrivalError>(ContainerRetrivalError::Error)
            }),
            OutputChunk::Broken => final(output)@ == old(output)@ && r == Err::<
                (),
                ContainerRetrivalError,
            >(ContainerRetrivalError::Error),
        },
{
    match chunk {
        OutputChunk::StdOut(d) => {
            output.push(ContainerCommandOutput::StdOut(d));
            Ok(())
        },
        OutputChunk::StdErr(d) => {
            output.push(ContainerCommandOutput::StdErr(d));
            Ok(())
        },
        OutputChunk::Fault(code) => if code == 404 {
            Err(ContainerRetrivalError::NotFound)
        } else {
            Err(ContainerRetrivalError::Error)
        },
        OutputChunk::Broken => Err(ContainerRetrivalError::Error),
    }
}

// ---------------------------------------------------------------------------
// Clearing expired runners
// ---------------------------------------------------------------------------

/// `n` placeholders `?` separated by `, `.
pub open spec fn placeholders(n: nat) -> Seq<char>
    decreases n,
{
    if n == 0 {
        Seq::empty()
    } else if n == 1 {
        "?"@
    } else {
        placeholders((n - 1) as nat) + ", ?"@
    }
}

/// The statement that deletes the records of `n` runners by hash.
pub open spec fn delete_query_spec(n: nat) -> Seq<char> {
    "DELETE FROM runners WHERE hash in ("@ + placeholders(n) + ")"@
}

/// The statement that deletes the records of `n` runners, one placeholder
/// for each hash.
pub fn runner_delete_query(n: usize) -> (r: String)
    ensures
        r@ == delete_query_spec(n as nat),
{
    proof {
        reveal_strlit("?");
        reveal_strlit(", ?");
    }
    let mut list = String::new();
    let mut i: usize = 0;
    while i < n
        invariant
            i <= n,
            list@ == placeholders(i as nat),
        decreases n - i,
    {
        if i == 0 {
            crate::strs::push_str(&mut list, "?");
        } else {
            crate::strs::push_str(&mut list, ", ?");
        }
        i = i + 1;
    }
    let mut r = owned("DELETE FROM runners WHERE hash in (");
    crate::strs::push_str(&mut r, list.as_str());
    crate::strs::push_str(&mut r, ")");
    r
}

/// A runner whose container is gone (removed now, or missing already) has
/// its record deleted; one whose removal failed otherwise keeps it.
pub open spec fn counts_as_removed(outcome: Result<(), ContainerRetrivalError>) -> bool {
    outcome != Err::<(), ContainerRetrivalError>(ContainerRetrivalError::Error)
}

/// The hashes of the expired runners whose records are to be deleted, in
/// their order, given how the removal of each container went.
pub fn removed_runners(hashes: &Vec<String>, outcomes: &Vec<Result<(), ContainerRetrivalError>>) -> (r:
    Vec<String>)
    requires
        hashes@.len() == outcomes@.len(),
    ensures
        strings_view(r@) == filter_removed(strings_view(hashes@), outcomes@),
{
    let mut r: Vec<String> = Vec::new();
    let mut i: usize = 0;
    let ghost hs = strings_view(hashes@);
    while i < outcomes.len()
        invariant
            i <= outcomes@.len(),
            hashes@.len() == outcomes@.len(),
            hs == strings_view(hashes@),
            strings_view(r@) == filter_removed(hs.take(i as int), outcomes@.take(i as int)),
        decreases outcomes@.len() - i,
    {
        let keep = match &outcomes[i] {
            Err(ContainerRetrivalError::Error) => false,
            _ => true,
        };
        assert(hs.take(i + 1).drop_last() =~= hs.take(i as int));
        assert(outcomes@.take(i + 1).drop_last() =~= outcomes@.take(i as int));
        if keep {
            let h = hashes[i].clone();
            let ghost before = r@;
            r.push(h);
            assert(strings_view(r@) =~= strings_view(before).push(h@));
        }
        i = i + 1;
    }
    assert(hs.take(hs.len() as int) =~= hs);
    assert(outcomes@.take(outcomes@.len() as int) =~= outcomes@);
    r
}

/// Strings as the contracts see them.
pub open spec fn strings_view(s: Seq<String>) -> Seq<Seq<char>> {
    s.map_values(|t: String| t@)
}

/// The hashes whose removal `counts_as_removed`, in order.
pub open spec fn filter_removed(
    hashes: Seq<Seq<char>>,
    outcomes: Seq<Result<(), ContainerRetrivalError>>,
) -> Seq<Seq<char>>
    decreases hashes.len(),
{
    if hashes.len() == 0 {
        Seq::empty()
    } else {
        let rest = filter_removed(hashes.drop_last(), outcomes.drop_last());
        if counts_as_removed(outcomes.last()) {
            rest.push(hashes.last())
        } else {
            rest
        }
    }
}


/// Every failed step but listing the images, creating the project and
/// storing the record ends the setup with the failure's own message;
/// a failed project creation ends it with its fixed message.
pub proof fn law_failed_steps_end_the_setup(step: SetupStep, m: String, hash: Seq<char>, expires_at: i64)
    ensures
        step != SetupStep::ListImages && step != SetupStep::InitProject && step
            != SetupStep::StoreRecord ==> next_action(step, SetupEvent::Failed(m), hash, expires_at)
            == ActionView::Fail(m@),
        step == SetupStep::InitProject ==> next_action(step, SetupEvent::Failed(m), hash, expires_at)
            == ActionView::Fail(init_failure()),
        step == SetupStep::ListImages ==> next_action(step, SetupEvent::Failed(m), hash, expires_at)
            == ActionView::Run(SetupStep::PullImage),
{
}

/// A step that went through leads to the one after it, in the order pull,
/// directory, container, start, project, record; the project leads to
/// storing the record with the runner's hash and expiry, and the record to
/// success with the hash.
pub proof fn law_done_steps_go_on(step: SetupStep, hash: Seq<char>, expires_at: i64)
    ensures
        ({
            let n = next_action(step, SetupEvent::Done, hash, expires_at);
            &&& step == SetupStep::PullImage ==> n == ActionView::Run(SetupStep::CreateDirectory)
            &&& step == SetupStep::CreateDirectory ==> n == ActionView::Run(SetupStep::CreateContainer)
            &&& step == SetupStep::CreateContainer ==> n == ActionView::Run(SetupStep::StartContainer)
            &&& step == SetupStep::StartContainer ==> n == ActionView::Run(SetupStep::InitProject)
            &&& step == SetupStep::InitProject ==> n == ActionView::Store(hash, expires_at)
            &&& step == SetupStep::StoreRecord ==> n == ActionView::Succeed(hash)
            &&& step == SetupStep::RemoveContainer ==> n == ActionView::Fail(record_failure())
        }),
{
}


/// A container removed now or found missing has its runner's record
/// deleted; one whose removal failed otherwise keeps it. The hashes kept
/// for deletion are exactly those, each in its place: a hash is kept when
/// its removal counts, and every hash kept is one of those.
pub proof fn law_removed_runners(hashes: Seq<Seq<char>>, outcomes: Seq<Result<(), ContainerRetrivalError>>)
    requires
        hashes.len() == outcomes.len(),
    ensures
        counts_as_removed(Ok(())),
        counts_as_removed(Err(ContainerRetrivalError::NotFound)),
        !counts_as_removed(Err(ContainerRetrivalError::Error)),
        forall|i: int|
            0 <= i < hashes.len() && counts_as_removed(#[trigger] outcomes[i]) ==> filter_removed(
                hashes,
                outcomes,
            ).contains(hashes[i]),
        forall|x: Seq<char>|
            #[trigger] filter_removed(hashes, outcomes).contains(x) ==> exists|i: int|
                0 <= i < hashes.len() && hashes[i] == x && counts_as_removed(#[trigger] outcomes[i]),
        filter_removed(hashes, outcomes).len() <= hashes.len(),
    decreases hashes.len(),
{
    if hashes.len() > 0 {
        let hs = hashes.drop_last();
        let os = outcomes.drop_last();
        law_removed_runners(hs, os);
        let rest = filter_removed(hs, os);
        let n = hashes.len() - 1;
        assert forall|i: int|
            0 <= i < hashes.len() && counts_as_removed(#[trigger] outcomes[i]) implies filter_removed(
            hashes,
            outcomes,
        ).contains(hashes[i]) by {
            if i < n {
                assert(os[i] == outcomes[i]);
                assert(rest.contains(hs[i]));
                let k = choose|k: int| 0 <= k < rest.len() && rest[k] == hs[i];
                if counts_as_removed(outcomes.last()) {
                    assert(rest.push(hashes.last())[k] == hs[i]);
                }
            } else {
                assert(filter_removed(hashes, outcomes).last() == hashes.last());
            }
        }
        assert forall|x: Seq<char>| #[trigger] filter_removed(hashes, outcomes).contains(x) implies exists|i: int|
            0 <= i < hashes.len() && hashes[i] == x && counts_as_removed(#[trigger] outcomes[i]) by {
            let f = filter_removed(hashes, outcomes);
            let k = choose|k: int| 0 <= k < f.len() && f[k] == x;
            if k < rest.len() {
                assert(f[k] == rest[k]);
                assert(rest.contains(x));
                let i = choose|i: int| 0 <= i < hs.len() && hs[i] == x && counts_as_removed(#[trigger] os[i]);
                assert(hashes[i] == x && outcomes[i] == os[i]);
            } else {
                assert(hashes[n] == x && counts_as_removed(outcomes[n]));
            }
        }
    }
}


/// Listing the images leads to creating the runner's directory straight
/// away when some image carries the runner image's tag, and to pulling
/// the image first otherwise (also when the listing failed).
pub proof fn law_images_decide_the_pull(images: Vec<Vec<String>>, other: SetupEvent, hash: Seq<char>, expires_at: i64)
    requires
        !(other is Images),
    ensures
        has_runner_image(tags_view(images@)) ==> next_action(SetupStep::ListImages, SetupEvent::Images(images), hash, expires_at)
            == ActionView::Run(SetupStep::CreateDirectory),
        !has_runner_image(tags_view(images@)) ==> next_action(SetupStep::ListImages, SetupEvent::Images(images), hash, expires_at)
            == ActionView::Run(SetupStep::PullImage),
        next_action(SetupStep::ListImages, other, hash, expires_at) == ActionView::Run(SetupStep::PullImage),
{
}

} // verus!
