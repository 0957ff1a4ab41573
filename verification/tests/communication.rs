use rsground::communication::{ActError, RequestActor, RunnerRequest, RunnerRequestOp, RunnerResponse, RunnerResponseOp};

struct Fixed(Result<(), ActError>);

impl RequestActor for Fixed {
    type ContentType = String;
    fn act(&self, _op: &RunnerRequestOp, _content: &Option<String>) -> Result<(), ActError> {
        self.0
    }
}

#[test]
fn op_codes() {
    assert_eq!(RunnerRequestOp::RunCode.code(), 1);
    assert_eq!(RunnerRequestOp::UploadCode.code(), 2);
    assert_eq!(RunnerRequestOp::UpdateCargo.code(), 4);
    assert_eq!(RunnerRequestOp::from_code(4), Some(RunnerRequestOp::UpdateCargo));
    assert_eq!(RunnerRequestOp::from_code(3), None);
    assert_eq!(RunnerResponseOp::Aknowledge.code(), 1);
    assert_eq!(RunnerResponseOp::MissingContent.code(), 32);
    assert_eq!(RunnerResponseOp::RustAnalyzer.code(), 8);
}

#[test]
fn responses_follow_outcomes() {
    let ack = RunnerResponse::from_act_result(Ok(()));
    assert_eq!(ack.op(), RunnerResponseOp::Aknowledge);
    assert_eq!(ack.content(), &None);
    let e = RunnerResponse::from_act_error(ActError::InvalidToml);
    assert_eq!(e.op(), RunnerResponseOp::InvalidToml);
    assert_eq!(e.content(), &Some(ActError::InvalidToml));
    let m = RunnerResponse::from_act_error(ActError::MissingContent);
    assert_eq!(m.op(), RunnerResponseOp::MissingContent);
    let i = RunnerResponse::from_act_error(ActError::InternalServerError);
    assert_eq!(i.op(), RunnerResponseOp::InternalServerError);
    let p: RunnerResponse<()> = RunnerResponse::parse_error();
    assert_eq!(p.op(), RunnerResponseOp::ParseError);
}

#[test]
fn requests_are_acted_upon() {
    let req = RunnerRequest::new(RunnerRequestOp::UploadCode, Some("fn main() {}".to_owned()));
    assert_eq!(req.op_code(), &RunnerRequestOp::UploadCode);
    assert_eq!(req.content(), &Some("fn main() {}".to_owned()));
    assert_eq!(req.act(&Fixed(Ok(()))).op(), RunnerResponseOp::Aknowledge);
    let r = req.act(&Fixed(Err(ActError::MissingContent)));
    assert_eq!(r.op(), RunnerResponseOp::MissingContent);
    assert_eq!(r.content(), &Some(ActError::MissingContent));
}

#[test]
fn error_messages() {
    assert_eq!(ActError::InvalidToml.message(), "The submited TOML goes beyond restrictions");
    assert_eq!(ActError::MissingContent.message(), "This request requires content");
}

struct Recording(std::cell::RefCell<Vec<(RunnerRequestOp, Option<String>)>>);

impl RequestActor for Recording {
    type ContentType = String;

    fn act(&self, op: &RunnerRequestOp, content: &Option<String>) -> Result<(), ActError> {
        self.0.borrow_mut().push((*op, content.clone()));
        if content.is_none() {
            Err(ActError::MissingContent)
        } else {
            Ok(())
        }
    }
}

#[test]
fn the_actor_gets_the_request_once_and_its_answer_is_sent() {
    let actor = Recording(std::cell::RefCell::new(Vec::new()));
    let request = RunnerRequest::new(RunnerRequestOp::UpdateCargo, Some("rand = \"0.8\"".to_owned()));
    let response = request.act(&actor);
    assert_eq!(response.op(), RunnerResponseOp::Aknowledge);
    assert_eq!(*actor.0.borrow(), vec![(RunnerRequestOp::UpdateCargo, Some("rand = \"0.8\"".to_owned()))]);
    let missing = RunnerRequest::<String>::new(RunnerRequestOp::UploadCode, None);
    let response = missing.act(&actor);
    assert_eq!(response.op(), RunnerResponseOp::MissingContent);
    assert_eq!(response.content(), &Some(ActError::MissingContent));
    assert_eq!(actor.0.borrow().len(), 2);
}
