//! The decisions of a project's language-server session: what is written to
//! the server's standard input and when, what a client's message turns into
//! before it reaches the server, and to whom a message of the server goes.
//!
//! The session itself (the process, its pipes, the broadcast channel) is run
//! by the caller, which hands each event to these functions and performs
//! what they answer.
use vstd::prelude::*;

use crate::lsp::{
    client_prefix, framed, frame_message, id_separator, split_client_id, tag_client_id,
    LspId, LspOutput, LspRequest, LspResponse,
};
use crate::strs::{contains, first_occurrence_from, has_prefix, matches_text};

verus! {

/// The id of the `initialize` request that the session itself sends.
pub open spec fn initialization_id() -> Seq<char> {
    "rsground::initialize"@
}

/// The method of the request that opens a session.
pub open spec fn initialize_method() -> Seq<char> {
    "initialize"@
}

/// The method of the notification that confirms a session.
pub open spec fn initialized_method() -> Seq<char> {
    "initialized"@
}

// ---------------------------------------------------------------------------
// The server's standard input
// ---------------------------------------------------------------------------

/// What the session knows of the server: whether it runs, whether it has
/// answered `initialize`, and the messages held back until it has.
pub struct StdinView {
    pub running: bool,
    pub ready: bool,
    pub queue: Seq<Seq<char>>,
}

/// The frames of `msgs`, in order.
pub open spec fn frames(msgs: Seq<Seq<char>>) -> Seq<Seq<char>> {
    msgs.map_values(|m: Seq<char>| framed(m))
}

/// The state after a message is handed to the standard input: a message
/// that may wait (`queued`) waits while the server is not ready.
pub open spec fn after_stdin(v: StdinView, msg: Seq<char>, queued: bool) -> StdinView {
    if !queued || v.ready {
        v
    } else {
        StdinView { queue: v.queue.push(msg), ..v }
    }
}

/// What is written for a message handed to the standard input: its frame,
/// where it need not wait and the server runs.
pub open spec fn stdin_output(v: StdinView, msg: Seq<char>, queued: bool) -> Option<Seq<char>> {
    if (!queued || v.ready) && v.running {
        Some(framed(msg))
    } else {
        None
    }
}

/// The state once the server has answered `initialize`.
pub open spec fn after_initialized(v: StdinView) -> StdinView {
    StdinView { ready: true, queue: Seq::empty(), ..v }
}

/// What is written once the server has answered `initialize`: the
/// `initialized` notification, then every held message in the order it came.
pub open spec fn initialized_output(v: StdinView, notification: Seq<char>) -> Seq<Seq<char>> {
    if v.running {
        seq![framed(notification)] + frames(v.queue)
    } else {
        Seq::empty()
    }
}

/// The state after each of `msgs` is handed to the standard input in turn,
/// every one of them allowed to wait.
pub open spec fn after_queued(v: StdinView, msgs: Seq<Seq<char>>) -> StdinView
    decreases msgs.len(),
{
    if msgs.len() == 0 {
        v
    } else {
        after_queued(after_stdin(v, msgs[0], true), msgs.drop_first())
    }
}

/// The standard input of a project's language server, as the session sees it.
pub struct LspStdin {
    running: bool,
    ready: bool,
    queue: Vec<String>,
}

impl View for LspStdin {
    type V = StdinView;

    closed spec fn view(&self) -> StdinView {
        StdinView { running: self.running, ready: self.ready, queue: self.queue@.map_values(|s: String| s@) }
    }
}

impl LspStdin {
    /// No server yet, nothing held.
    pub fn new() -> (r: Self)
        ensures
            r@ == (StdinView { running: false, ready: false, queue: Seq::empty() }),
    {
        let r = LspStdin { running: false, ready: false, queue: Vec::new() };
        assert(r@.queue =~= Seq::<Seq<char>>::empty());
        r
    }

    /// Whether a request to start the server is to be carried out: not while
    /// one runs.
    pub fn should_start(&self) -> (r: bool)
        ensures
            r == !self@.running,
    {
        !self.running
    }

    /// The server has been started.
    pub fn started(&mut self)
        ensures
            final(self)@ == (StdinView { running: true, ..old(self)@ }),
    {
        self.running = true;
    }

    /// The server has exited.
    pub fn exited(&mut self)
        ensures
            final(self)@ == (StdinView { running: false, ..old(self)@ }),
    {
        self.running = false;
    }

    /// The server is to be stopped, as after a failed `initialize`: it is no
    /// longer ready and no longer runs.
    pub fn kill(&mut self)
        ensures
            final(self)@ == (StdinView { running: false, ready: false, ..old(self)@ }),
    {
        self.ready = false;
        self.running = false;
    }

    /// Hands `msg` to the standard input and answers the frame to write, if
    /// any. A message that may wait (`queued`) is held while the server is
    /// not ready; a message written while no server runs is dropped.
    pub fn stdin(&mut self, msg: String, queued: bool) -> (r: Option<String>)
        ensures
            final(self)@ == after_stdin(old(self)@, msg@, queued),
            r matches Some(s) ==> stdin_output(old(self)@, msg@, queued) == Some(s@),
            r is None ==> stdin_output(old(self)@, msg@, queued) is None,
    {
        if !queued || self.ready {
            if self.running {
                Some(frame_message(msg.as_str()))
            } else {
                None
            }
        } else {
            let ghost q = self.queue@;
            self.queue.push(msg);
            assert(self.queue@.map_values(|s: String| s@) =~= q.map_values(|s: String| s@).push(msg@));
            None
        }
    }

    /// The server has answered `initialize`: it is ready, and the frames to
    /// write are the `initialized` notification and then every held message,
    /// in the order they came (none while no server runs).
    pub fn initialized(&mut self, notification: String) -> (r: Vec<String>)
        ensures
            final(self)@ == after_initialized(old(self)@),
            r@.map_values(|s: String| s@) == initialized_output(old(self)@, notification@),
    {
        self.ready = true;
        let mut held: Vec<String> = Vec::new();
        std::mem::swap(&mut held, &mut self.queue);
        let ghost hv = held@.map_values(|s: String| s@);
        let mut out: Vec<String> = Vec::new();
        if self.running {
            out.push(frame_message(notification.as_str()));
            let mut i: usize = 0;
            while i < held.len()
                invariant
                    i <= held@.len(),
                    hv == held@.map_values(|s: String| s@),
                    out@.map_values(|s: String| s@) == seq![framed(notification@)] + frames(
                        hv.take(i as int),
                    ),
                decreases held@.len() - i,
            {
                let f = frame_message(held[i].as_str());
                let ghost before = out@.map_values(|s: String| s@);
                out.push(f);
                assert(hv.take(i + 1) =~= hv.take(i as int).push(hv[i as int]));
                assert(frames(hv.take(i + 1)) =~= frames(hv.take(i as int)).push(
                    framed(hv[i as int]),
                ));
                assert(out@.map_values(|s: String| s@) =~= before.push(f@));
                i = i + 1;
            }
            assert(hv.take(held@.len() as int) =~= hv);
        } else {
            assert(out@.map_values(|s: String| s@) =~= Seq::<Seq<char>>::empty());
        }
        assert(self.queue@.map_values(|s: String| s@) =~= Seq::<Seq<char>>::empty());
        out
    }
}

/// Messages handed to a running server before it is ready are all written,
/// in the order they were handed over, right after the `initialized`
/// notification; none of them is written earlier.
pub proof fn law_held_messages_keep_their_order(
    v: StdinView,
    msgs: Seq<Seq<char>>,
    notification: Seq<char>,
)
    requires
        v.running,
        !v.ready,
    ensures
        after_queued(v, msgs) == (StdinView { queue: v.queue + msgs, ..v }),
        forall|i: int|
            0 <= i < msgs.len() ==> stdin_output(
                #[trigger] after_queued(v, msgs.take(i)),
                msgs[i],
                true,
            ) is None,
        initialized_output(after_queued(v, msgs), notification) == seq![framed(notification)]
            + frames(v.queue) + frames(msgs),
    decreases msgs.len(),
{
    if msgs.len() == 0 {
        assert(v.queue + msgs =~= v.queue);
    } else {
        let w = after_stdin(v, msgs[0], true);
        law_held_messages_keep_their_order(w, msgs.drop_first(), notification);
        assert(v.queue.push(msgs[0]) + msgs.drop_first() =~= v.queue + msgs);
        assert forall|i: int| 0 <= i < msgs.len() implies stdin_output(
            #[trigger] after_queued(v, msgs.take(i)),
            msgs[i],
            true,
        ) is None by {
            if i > 0 {
                assert(msgs.take(i).drop_first() =~= msgs.drop_first().take(i - 1));
                assert(after_queued(v, msgs.take(i)) == after_queued(w, msgs.drop_first().take(i - 1)));
                assert(msgs.drop_first()[i - 1] == msgs[i]);
            }
        }
        assert(frames(v.queue + msgs) =~= frames(v.queue) + frames(msgs));
    }
}

// ---------------------------------------------------------------------------
// Messages of a client
// ---------------------------------------------------------------------------

/// What becomes of a client's message.
#[derive(Debug, Clone, Copy, PartialEq, Eq, Structural)]
pub enum ClientAction {
    /// An `initialize` request: the session answers it itself.
    AnswerInitialize,
    /// The `initialized` notification: the server has had its own.
    Ignore,
    /// Anything else goes to the server.
    Forward,
}

/// What becomes of the client's message `msg`.
pub open spec fn client_action_spec(msg: LspOutput) -> ClientAction {
    match msg {
        LspOutput::Request(req) => if req.method@ == initialize_method() {
            ClientAction::AnswerInitialize
        } else {
            ClientAction::Forward
        },
        LspOutput::Notify(n) => if n.method@ == initialized_method() {
            ClientAction::Ignore
        } else {
            ClientAction::Forward
        },
        LspOutput::Response(_) => ClientAction::Forward,
    }
}

pub fn client_action(msg: &LspOutput) -> (r: ClientAction)
    ensures
        r == client_action_spec(*msg),
{
    proof {
        reveal_strlit("initialize");
        reveal_strlit("initialized");
    }
    match msg {
        LspOutput::Request(req) => if matches_text(req.method.as_str(), "initialize") {
            ClientAction::AnswerInitialize
        } else {
            ClientAction::Forward
        },
        LspOutput::Notify(n) => if matches_text(n.method.as_str(), "initialized") {
            ClientAction::Ignore
        } else {
            ClientAction::Forward
        },
        LspOutput::Response(_) => ClientAction::Forward,
    }
}

/// `msg` with its id replaced by `id`; a notification has none and stays.
pub open spec fn with_id(msg: LspOutput, id: LspId) -> LspOutput {
    match msg {
        LspOutput::Response(LspResponse::Success { jsonrpc, result, .. }) => LspOutput::Response(
            LspResponse::Success { jsonrpc, id, result },
        ),
        LspOutput::Response(LspResponse::Failure { jsonrpc, error, .. }) => LspOutput::Response(
            LspResponse::Failure { jsonrpc, id, error },
        ),
        LspOutput::Request(req) => LspOutput::Request(LspRequest { id, ..req }),
        LspOutput::Notify(n) => LspOutput::Notify(n),
    }
}

/// A client's message as it is sent on to the server: a response or request
/// carries the id `client_id::<client>::<id>`, where `id_json` is its own id
/// written as JSON, so that the answer can be routed back.
pub fn forward_client_message(msg: LspOutput, client_id: &str, id_json: &str) -> (r: LspOutput)
    ensures
        exists|s: String|
            s@ == crate::lsp::tagged_id(client_id@, id_json@) && r == with_id(
                msg,
                LspId::String(s),
            ),
        msg is Response ==> (r matches LspOutput::Response(res) && (res.spec_id() matches LspId::String(
            s,
        ) && s@ == crate::lsp::tagged_id(client_id@, id_json@))),
        msg is Request ==> (r matches LspOutput::Request(req) && (req.id matches LspId::String(s) && s@
            == crate::lsp::tagged_id(client_id@, id_json@))),
        msg is Notify ==> r == msg,
{
    let s = tag_client_id(client_id, id_json);
    let ghost gs = s;
    let r = match msg {
        LspOutput::Response(LspResponse::Success { jsonrpc, result, .. }) => LspOutput::Response(
            LspResponse::Success { jsonrpc, id: LspId::String(s), result },
        ),
        LspOutput::Response(LspResponse::Failure { jsonrpc, error, .. }) => LspOutput::Response(
            LspResponse::Failure { jsonrpc, id: LspId::String(s), error },
        ),
        LspOutput::Request(req) => LspOutput::Request(
            LspRequest { jsonrpc: req.jsonrpc, id: LspId::String(s), method: req.method, params: req.params },
        ),
        LspOutput::Notify(n) => LspOutput::Notify(n),
    };
    assert(r == with_id(msg, LspId::String(gs)));
    r
}

// ---------------------------------------------------------------------------
// Messages of the server
// ---------------------------------------------------------------------------

/// `id` names a forwarded request: it starts with `client_id::` and the rest
/// holds a `::`.
pub open spec fn is_client_tagged(id: Seq<char>) -> bool {
    has_prefix(id, client_prefix()) && contains(id.skip(client_prefix().len() as int), id_separator())
}

/// `client` and `own` are the parts of the forwarded id `id`: the text
/// after `client_id::` cut at its first `::`.
pub open spec fn client_parts(id: Seq<char>, client: Seq<char>, own: Seq<char>) -> bool {
    let rest = id.skip(client_prefix().len() as int);
    &&& has_prefix(id, client_prefix())
    &&& exists|i: int|
        first_occurrence_from(rest, id_separator(), 0, i) && client == rest.take(i) && own
            == rest.skip(i + 2)
}

/// Where a message of the server goes.
#[derive(Debug)]
pub enum ServerRoute {
    /// The answer to the session's own `initialize`, a success.
    InitializeSucceeded,
    /// The answer to the session's own `initialize`, an error.
    InitializeFailed,
    /// An answer to the client `client_id`, whose own id was `id_json`.
    ToClient { client_id: String, id_json: String },
    /// Everything else goes to every client.
    ToAll,
}

/// The response is the answer to the session's own `initialize`.
pub open spec fn answers_initialization(res: LspResponse) -> bool {
    res.spec_id() matches LspId::String(s) && s@ == initialization_id()
}

/// Where the server's message `msg` goes.
pub fn route_server_message(msg: &LspOutput) -> (r: ServerRoute)
    ensures
        match *msg {
            LspOutput::Response(res) => if answers_initialization(res) {
                if res is Success {
                    r is InitializeSucceeded
                } else {
                    r is InitializeFailed
                }
            } else {
                match res.spec_id() {
                    LspId::String(s) => if is_client_tagged(s@) {
                        r matches ServerRoute::ToClient { client_id, id_json } && client_parts(
                            s@,
                            client_id@,
                            id_json@,
                        )
                    } else {
                        r is ToAll
                    },
                    LspId::Number(_) => r is ToAll,
                }
            },
            _ => r is ToAll,
        },
{
    proof {
        reveal_strlit("rsground::initialize");
        reveal_strlit("client_id::");
        reveal_strlit("::");
    }
    match msg {
        LspOutput::Response(res) => {
            let is_init = match res.id() {
                LspId::String(s) => matches_text(s.as_str(), "rsground::initialize"),
                LspId::Number(_) => false,
            };
            if is_init {
                if res.is_ok() {
                    ServerRoute::InitializeSucceeded
                } else {
                    ServerRoute::InitializeFailed
                }
            } else {
                match res.id() {
                    LspId::String(s) => match split_client_id(s.as_str()) {
                        Some((client_id, id_json)) => ServerRoute::ToClient { client_id, id_json },
                        None => ServerRoute::ToAll,
                    },
                    LspId::Number(_) => ServerRoute::ToAll,
                }
            }
        },
        _ => ServerRoute::ToAll,
    }
}

/// A response of the server with the id its client gave it restored.
pub fn restore_response_id(res: LspResponse, id: LspId) -> (r: LspResponse)
    ensures
        r == (match res {
            LspResponse::Success { jsonrpc, result, .. } => LspResponse::Success { jsonrpc, id, result },
            LspResponse::Failure { jsonrpc, error, .. } => LspResponse::Failure { jsonrpc, id, error },
        }),
{
    match res {
        LspResponse::Success { jsonrpc, result, .. } => LspResponse::Success { jsonrpc, id, result },
        LspResponse::Failure { jsonrpc, error, .. } => LspResponse::Failure { jsonrpc, id, error },
    }
}


/// A message forwarded with the id `id`: a response, success or failure,
/// or a request carries `id` and keeps everything else; a notification,
/// which has no id, goes on unchanged.
pub proof fn law_forwarded_messages_carry_the_id(msg: LspOutput, id: LspId)
    ensures
        msg matches LspOutput::Response(LspResponse::Success { jsonrpc, result, .. }) ==> with_id(msg, id)
            == LspOutput::Response(LspResponse::Success { jsonrpc, id, result }),
        msg matches LspOutput::Response(LspResponse::Failure { jsonrpc, error, .. }) ==> with_id(msg, id)
            == LspOutput::Response(LspResponse::Failure { jsonrpc, id, error }),
        msg matches LspOutput::Request(req) ==> with_id(msg, id) == LspOutput::Request(
            LspRequest { jsonrpc: req.jsonrpc, id, method: req.method, params: req.params },
        ),
        msg is Notify ==> with_id(msg, id) == msg,
{
}


/// A message that need not wait, or any message once the server is ready,
/// is never held: it is written at once, as its frame, while the server
/// runs, and dropped while none runs.
pub proof fn law_messages_that_need_not_wait_are_written_at_once(
    v: StdinView,
    msg: Seq<char>,
    queued: bool,
)
    requires
        !queued || v.ready,
    ensures
        after_stdin(v, msg, queued) == v,
        v.running ==> stdin_output(v, msg, queued) == Some(framed(msg)),
        !v.running ==> stdin_output(v, msg, queued) is None,
{
}

/// A message that may wait is held, at the end of the queue, while the
/// server is not ready, and nothing is written for it yet.
pub proof fn law_waiting_messages_are_held(v: StdinView, msg: Seq<char>)
    requires
        !v.ready,
    ensures
        after_stdin(v, msg, true) == (StdinView { queue: v.queue.push(msg), ..v }),
        stdin_output(v, msg, true) is None,
{
}

/// Only a client's `initialize` request is answered by the session and
/// only its `initialized` notification is dropped; every response and
/// every other request or notification goes to the server.
pub proof fn law_what_clients_send_goes_to_the_server(msg: LspOutput)
    ensures
        client_action_spec(msg) is AnswerInitialize <==> (msg matches LspOutput::Request(req)
            && req.method@ == initialize_method()),
        client_action_spec(msg) is Ignore <==> (msg matches LspOutput::Notify(n) && n.method@
            == initialized_method()),
        msg is Response ==> client_action_spec(msg) is Forward,
{
}

} // verus!
