//! The request/response protocol between clients and a code runner.
use vstd::prelude::*;

verus! {

/// Why acting on a request failed.
#[derive(Debug, Clone, Copy, PartialEq, Eq, Structural)]
pub enum ActError {
    /// Undisclosed error while acting on behalf of the request.
    InternalServerError,
    /// The submitted TOML goes beyond restrictions.
    InvalidToml,
    /// The request requires content.
    MissingContent,
}

impl ActError {
    /// The message shown for the error.
    pub fn message(&self) -> (r: &'static str)
        ensures
            *self == ActError::InternalServerError ==> r@
                == "Undisclosed error while acting on behalf this request"@,
            *self == ActError::InvalidToml ==> r@ == "The submited TOML goes beyond restrictions"@,
            *self == ActError::MissingContent ==> r@ == "This request requires content"@,
    {
        match self {
            ActError::InternalServerError => "Undisclosed error while acting on behalf this request",
            ActError::InvalidToml => "The submited TOML goes beyond restrictions",
            ActError::MissingContent => "This request requires content",
        }
    }
}

/// What a client asks a runner to do.
#[derive(Debug, Clone, Copy, PartialEq, Eq, Structural)]
pub enum RunnerRequestOp {
    RunCode,
    UploadCode,
    UpdateCargo,
}

impl RunnerRequestOp {
    /// The wire code of the operation: a distinct bit for each.
    pub open spec fn spec_code(self) -> u8 {
        match self {
            RunnerRequestOp::RunCode => 1,
            RunnerRequestOp::UploadCode => 2,
            RunnerRequestOp::UpdateCargo => 4,
        }
    }

    pub fn code(&self) -> (r: u8)
        ensures
            r == self.spec_code(),
    {
        match self {
            RunnerRequestOp::RunCode => 1,
            RunnerRequestOp::UploadCode => 2,
            RunnerRequestOp::UpdateCargo => 4,
        }
    }

    /// The operation with the wire code `code`, if any.
    pub fn from_code(code: u8) -> (r: Option<RunnerRequestOp>)
        ensures
            r matches Some(op) ==> op.spec_code() == code,
            r is None ==> code != 1 && code != 2 && code != 4,
    {
        if code == 1 {
            Some(RunnerRequestOp::RunCode)
        } else if code == 2 {
            Some(RunnerRequestOp::UploadCode)
        } else if code == 4 {
            Some(RunnerRequestOp::UpdateCargo)
        } else {
            None
        }
    }
}

/// What a runner answers.
#[derive(Debug, Clone, Copy, PartialEq, Eq, Structural)]
pub enum RunnerResponseOp {
    Aknowledge,
    InternalServerError,
    ParseError,
    RustAnalyzer,
    InvalidToml,
    MissingContent,
}

impl RunnerResponseOp {
    /// The wire code of the answer: a distinct bit for each.
    pub open spec fn spec_code(self) -> u8 {
        match self {
            RunnerResponseOp::Aknowledge => 1,
            RunnerResponseOp::InternalServerError => 2,
            RunnerResponseOp::ParseError => 4,
            RunnerResponseOp::RustAnalyzer => 8,
            RunnerResponseOp::InvalidToml => 16,
            RunnerResponseOp::MissingContent => 32,
        }
    }

    pub fn code(&self) -> (r: u8)
        ensures
            r == self.spec_code(),
    {
        match self {
            RunnerResponseOp::Aknowledge => 1,
            RunnerResponseOp::InternalServerError => 2,
            RunnerResponseOp::ParseError => 4,
            RunnerResponseOp::RustAnalyzer => 8,
            RunnerResponseOp::InvalidToml => 16,
            RunnerResponseOp::MissingContent => 32,
        }
    }
}

/// Something that can carry out a runner request.
pub trait RequestActor {
    type ContentType;

    fn act(&self, op: &RunnerRequestOp, content: &Option<Self::ContentType>) -> Result<
        (),
        ActError,
    >;
}

/// A request: an operation and its optional content.
pub struct RunnerRequest<TMessage> {
    op: RunnerRequestOp,
    content: Option<TMessage>,
}

/// A response: an answer and its optional content.
pub struct RunnerResponse<TMessage> {
    op: RunnerResponseOp,
    content: Option<TMessage>,
}

impl<TMessage> RunnerRequest<TMessage> {
    pub closed spec fn spec_op(&self) -> RunnerRequestOp {
        self.op
    }

    pub closed spec fn spec_content(&self) -> Option<TMessage> {
        self.content
    }

    pub fn new(op: RunnerRequestOp, content: Option<TMessage>) -> (r: Self)
        ensures
            r.spec_op() == op,
            r.spec_content() == content,
    {
        RunnerRequest { op, content }
    }

    pub fn op_code(&self) -> (r: &RunnerRequestOp)
        ensures
            *r == self.spec_op(),
    {
        &self.op
    }

    pub fn content(&self) -> (r: &Option<TMessage>)
        ensures
            *r == self.spec_content(),
    {
        &self.content
    }

    /// Lets `actor` carry out the request, with this request's operation
    /// and content, and answers with the outcome it returned, as
    /// [`RunnerResponse::from_act_result`] describes.
    pub fn act<A: RequestActor<ContentType = TMessage>>(&self, actor: &A) -> (r: RunnerResponse<
        ActError,
    >)
        ensures
            exists|res: Result<(), ActError>|
                call_ensures(A::act, (actor, &self.spec_op(), &self.spec_content()), res)
                    && #[trigger] response_for(res) == r@,
    {
        let res = actor.act(self.op_code(), self.content());
        RunnerResponse::from_act_result(res)
    }
}

/// The answer to the outcome of acting on a request: an acknowledgement
/// without content, or the error under its own answer code.
pub open spec fn response_for(res: Result<(), ActError>) -> (RunnerResponseOp, Option<ActError>) {
    match res {
        Ok(_) => (RunnerResponseOp::Aknowledge, None),
        Err(ActError::InternalServerError) => (
            RunnerResponseOp::InternalServerError,
            Some(ActError::InternalServerError),
        ),
        Err(ActError::InvalidToml) => (RunnerResponseOp::InvalidToml, Some(ActError::InvalidToml)),
        Err(ActError::MissingContent) => (
            RunnerResponseOp::MissingContent,
            Some(ActError::MissingContent),
        ),
    }
}

impl<TMessage> View for RunnerResponse<TMessage> {
    type V = (RunnerResponseOp, Option<TMessage>);

    closed spec fn view(&self) -> (RunnerResponseOp, Option<TMessage>) {
        (self.op, self.content)
    }
}

impl<TMessage> RunnerResponse<TMessage> {
    pub fn new(op: RunnerResponseOp, content: Option<TMessage>) -> (r: Self)
        ensures
            r@ == (op, content),
    {
        Self { op, content }
    }

    pub fn op(&self) -> (r: RunnerResponseOp)
        ensures
            r == self@.0,
    {
        self.op
    }

    pub fn content(&self) -> (r: &Option<TMessage>)
        ensures
            *r == self@.1,
    {
        &self.content
    }

    pub fn aknowledge() -> (r: Self)
        ensures
            r@ == (RunnerResponseOp::Aknowledge, None::<TMessage>),
    {
        Self::new(RunnerResponseOp::Aknowledge, None)
    }

    pub fn internal_server_error(error: TMessage) -> (r: Self)
        ensures
            r@ == (RunnerResponseOp::InternalServerError, Some(error)),
    {
        Self::new(RunnerResponseOp::InternalServerError, Some(error))
    }

    pub fn parse_error() -> (r: Self)
        ensures
            r@ == (RunnerResponseOp::ParseError, None::<TMessage>),
    {
        Self::new(RunnerResponseOp::ParseError, None)
    }

    pub fn invalid_toml(error: TMessage) -> (r: Self)
        ensures
            r@ == (RunnerResponseOp::InvalidToml, Some(error)),
    {
        Self::new(RunnerResponseOp::InvalidToml, Some(error))
    }

    pub fn missing_content(error: TMessage) -> (r: Self)
        ensures
            r@ == (RunnerResponseOp::MissingContent, Some(error)),
    {
        Self::new(RunnerResponseOp::MissingContent, Some(error))
    }
}

impl RunnerResponse<ActError> {
    /// The answer to an error: the error under its own answer code.
    pub fn from_act_error(value: ActError) -> (r: Self)
        ensures
            r@ == response_for(Err(value)),
    {
        match value {
            ActError::InternalServerError => Self::internal_server_error(value),
            ActError::InvalidToml => Self::invalid_toml(value),
            ActError::MissingContent => Self::missing_content(value),
        }
    }

    /// The answer to the outcome of acting on a request.
    pub fn from_act_result(res: Result<(), ActError>) -> (r: Self)
        ensures
            r@ == response_for(res),
    {
        match res {
            Ok(_) => Self::aknowledge(),
            Err(err) => Self::from_act_error(err),
        }
    }
}

/// Every failed request is answered with its own error, under a code that
/// is never the acknowledgement.
pub proof fn law_errors_are_never_acknowledged(e: ActError)
    ensures
        response_for(Err(e)).0 != RunnerResponseOp::Aknowledge,
        response_for(Err(e)).1 == Some(e),
{
}


/// Each operation and each answer has a wire code of its own, a single
/// bit, so that a code names one operation (or one answer) only.
pub proof fn law_wire_codes_are_distinct_bits(
    a: RunnerRequestOp,
    b: RunnerRequestOp,
    x: RunnerResponseOp,
    y: RunnerResponseOp,
)
    ensures
        a.spec_code() == b.spec_code() ==> a == b,
        x.spec_code() == y.spec_code() ==> x == y,
        a.spec_code() & (a.spec_code() - 1) as u8 == 0 && a.spec_code() != 0,
        x.spec_code() & (x.spec_code() - 1) as u8 == 0 && x.spec_code() != 0,
{
    assert(1u8 & 0u8 == 0 && 2u8 & 1u8 == 0 && 4u8 & 3u8 == 0 && 8u8 & 7u8 == 0 && 16u8 & 15u8 == 0
        && 32u8 & 31u8 == 0) by (bit_vector);
}

/// A request that went through is acknowledged, without content; a failed
/// one is answered under the code of its own error, carrying it.
pub proof fn law_every_outcome_is_answered(e: ActError)
    ensures
        response_for(Ok(())) == (RunnerResponseOp::Aknowledge, None::<ActError>),
        e == ActError::InternalServerError ==> response_for(Err(e)).0
            == RunnerResponseOp::InternalServerError,
        e == ActError::InvalidToml ==> response_for(Err(e)).0 == RunnerResponseOp::InvalidToml,
        e == ActError::MissingContent ==> response_for(Err(e)).0 == RunnerResponseOp::MissingContent,
        response_for(Err(e)).1 == Some(e),
{
}

} // verus!
