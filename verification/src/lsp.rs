//! Language-server messages: ids, responses, requests, notifications, the
//! `Content-Length` framing, and the ids under which requests of a client
//! are forwarded.
use vstd::prelude::*;

use crate::strs::{
    contains, decimal, decimal_digits, first_occurrence_from, has_prefix, occurs_at, push_str,
    split_once, strip_prefix,
};
use crate::text::utf8;

verus! {

/// A JSON value, carried through unread.
#[verifier::external_type_specification]
#[verifier::external_body]
pub struct ExJsonValue(serde_json::Value);

/// The id of a request: a string or a number.
#[derive(Clone, Debug)]
pub enum LspId {
    String(String),
    Number(u32),
}

impl LspId {
    pub fn as_string(&self) -> (r: Option<&String>)
        ensures
            match *self {
                LspId::String(s) => r == Some(&s),
                LspId::Number(_) => r is None,
            },
    {
        match self {
            LspId::String(v) => Some(v),
            LspId::Number(_) => None,
        }
    }

    /// Equality with a number: only a numeric id can be equal.
    pub fn eq_number(&self, other: u32) -> (r: bool)
        ensures
            r == (*self == LspId::Number(other)),
    {
        match self {
            LspId::String(_) => false,
            LspId::Number(this) => *this == other,
        }
    }

    /// Equality with a text: only a string id can be equal.
    pub fn eq_str(&self, other: &str) -> (r: bool)
        ensures
            r == (*self matches LspId::String(s) && s@ == other@),
    {
        match self {
            LspId::String(this) => crate::strs::matches_text(this.as_str(), other),
            LspId::Number(_) => false,
        }
    }

    /// The id as text: the string itself, or the number in decimal.
    pub fn display(&self) -> (r: String)
        ensures
            match *self {
                LspId::String(s) => r@ == s@,
                LspId::Number(n) => r@ == decimal_digits(n as nat),
            },
    {
        match self {
            LspId::String(s) => s.clone(),
            LspId::Number(n) => decimal(*n as usize),
        }
    }
}

/// The JSON-RPC version marker: always `"2.0"`.
#[derive(Clone, Copy, Debug)]
pub struct JsonRpcVersion;

impl JsonRpcVersion {
    /// The version as it is written: `2.0`.
    pub fn as_str(&self) -> (r: &'static str)
        ensures
            r@ == "2.0"@,
    {
        "2.0"
    }

    /// Reads a version: only `2.0` is supported.
    pub fn from_text(v: &str) -> (r: Option<JsonRpcVersion>)
        ensures
            r is Some <==> v@ == "2.0"@,
    {
        if crate::strs::matches_text(v, "2.0") {
            Some(JsonRpcVersion)
        } else {
            None
        }
    }
}

/// A response of the language server.
#[derive(Debug)]
pub enum LspResponse {
    /// A result (`Ok` in the protocol's terms).
    Success { jsonrpc: JsonRpcVersion, id: LspId, result: serde_json::Value },
    /// An error (`Err` in the protocol's terms).
    Failure { jsonrpc: JsonRpcVersion, id: LspId, error: serde_json::Value },
}

impl LspResponse {
    pub open spec fn spec_id(&self) -> LspId {
        match self {
            LspResponse::Success { id, .. } => *id,
            LspResponse::Failure { id, .. } => *id,
        }
    }

    pub fn id(&self) -> (r: &LspId)
        ensures
            *r == self.spec_id(),
    {
        match self {
            LspResponse::Success { id, .. } => id,
            LspResponse::Failure { id, .. } => id,
        }
    }

    pub fn is_ok(&self) -> (r: bool)
        ensures
            r == (*self is Success),
    {
        match self {
            LspResponse::Success { .. } => true,
            LspResponse::Failure { .. } => false,
        }
    }

    pub fn is_err(&self) -> (r: bool)
        ensures
            r == (*self is Failure),
    {
        match self {
            LspResponse::Success { .. } => false,
            LspResponse::Failure { .. } => true,
        }
    }
}

/// A notification: a method and its parameters, without id.
#[derive(Debug)]
pub struct LspNotify {
    pub jsonrpc: JsonRpcVersion,
    pub method: String,
    pub params: serde_json::Value,
}

/// A request: an id, a method and its parameters.
#[derive(Debug)]
pub struct LspRequest {
    pub jsonrpc: JsonRpcVersion,
    pub id: LspId,
    pub method: String,
    pub params: serde_json::Value,
}

/// Any message of the language server.
#[derive(Debug)]
pub enum LspOutput {
    Response(LspResponse),
    Request(LspRequest),
    Notify(LspNotify),
}

impl LspOutput {
    /// The id of a response or request; notifications have none.
    pub fn id(&self) -> (r: Option<&LspId>)
        ensures
            match *self {
                LspOutput::Response(res) => r == Some(&res.spec_id()),
                LspOutput::Request(req) => r == Some(&req.id),
                LspOutput::Notify(_) => r is None,
            },
    {
        match self {
            LspOutput::Response(res) => Some(res.id()),
            LspOutput::Request(req) => Some(&req.id),
            LspOutput::Notify(_) => None,
        }
    }

    /// The method of a request or notification; responses have none.
    pub fn method(&self) -> (r: Option<&String>)
        ensures
            match *self {
                LspOutput::Response(_) => r is None,
                LspOutput::Request(req) => r == Some(&req.method),
                LspOutput::Notify(n) => r == Some(&n.method),
            },
    {
        match self {
            LspOutput::Response(_) => None,
            LspOutput::Request(req) => Some(&req.method),
            LspOutput::Notify(n) => Some(&n.method),
        }
    }

    /// The parameters of a request or notification; responses have none.
    pub fn params(&self) -> (r: Option<&serde_json::Value>)
        ensures
            match *self {
                LspOutput::Response(_) => r is None,
                LspOutput::Request(req) => r == Some(&req.params),
                LspOutput::Notify(n) => r == Some(&n.params),
            },
    {
        match self {
            LspOutput::Response(_) => None,
            LspOutput::Request(req) => Some(&req.params),
            LspOutput::Notify(n) => Some(&n.params),
        }
    }

    pub fn is_request(&self) -> (r: bool)
        ensures
            r == (*self is Request),
    {
        match self {
            LspOutput::Request(_) => true,
            _ => false,
        }
    }

    pub fn as_request(&self) -> (r: Option<&LspRequest>)
        ensures
            match *self {
                LspOutput::Request(req) => r == Some(&req),
                _ => r is None,
            },
    {
        match self {
            LspOutput::Request(v) => Some(v),
            _ => None,
        }
    }

    pub fn is_notify(&self) -> (r: bool)
        ensures
            r == (*self is Notify),
    {
        match self {
            LspOutput::Notify(_) => true,
            _ => false,
        }
    }

    pub fn as_notify(&self) -> (r: Option<&LspNotify>)
        ensures
            match *self {
                LspOutput::Notify(n) => r == Some(&n),
                _ => r is None,
            },
    {
        match self {
            LspOutput::Notify(v) => Some(v),
            _ => None,
        }
    }

    pub fn is_response(&self) -> (r: bool)
        ensures
            r == (*self is Response),
    {
        match self {
            LspOutput::Response(_) => true,
            _ => false,
        }
    }

    pub fn as_response(&self) -> (r: Option<&LspResponse>)
        ensures
            match *self {
                LspOutput::Response(res) => r == Some(&res),
                _ => r is None,
            },
    {
        match self {
            LspOutput::Response(v) => Some(v),
            _ => None,
        }
    }
}

// ---------------------------------------------------------------------------
// Framing
// ---------------------------------------------------------------------------

/// A message as written to the server's standard input: a
/// `Content-Length` header with the byte length of the body, an empty line,
/// and the body.
pub open spec fn framed(msg: Seq<char>) -> Seq<char> {
    "Content-Length: "@ + decimal_digits(utf8(msg).len()) + "\r\n\r\n"@ + msg
}

/// Frames `msg` for the server's standard input.
pub fn frame_message(msg: &str) -> (r: String)
    ensures
        r@ == framed(msg@),
{
    let len = msg.as_bytes().len();
    let mut r = String::new();
    push_str(&mut r, "Content-Length: ");
    let d = decimal(len);
    push_str(&mut r, d.as_str());
    push_str(&mut r, "\r\n\r\n");
    push_str(&mut r, msg);
    r
}

// ---------------------------------------------------------------------------
// Ids of forwarded client requests
// ---------------------------------------------------------------------------

/// The prefix of the id under which a client's request is forwarded.
pub open spec fn client_prefix() -> Seq<char> {
    "client_id::"@
}

/// The separator between the client id and the id the client gave.
pub open spec fn id_separator() -> Seq<char> {
    "::"@
}

/// The id under which the request `id_json` (the id the client gave, as JSON) of
/// the client `client_id` is forwarded: `client_id::<client>::<id>`.
pub open spec fn tagged_id(client_id: Seq<char>, id_json: Seq<char>) -> Seq<char> {
    client_prefix() + client_id + id_separator() + id_json
}

/// Builds the forwarded id of a client's request.
pub fn tag_client_id(client_id: &str, id_json: &str) -> (r: String)
    ensures
        r@ == tagged_id(client_id@, id_json@),
{
    let mut r = String::new();
    push_str(&mut r, "client_id::");
    push_str(&mut r, client_id);
    push_str(&mut r, "::");
    push_str(&mut r, id_json);
    r
}

/// Splits a forwarded id back into the client id and the id the client gave
/// (as JSON): the text after `client_id::` is cut at its first `::`.
/// `None` for an id without that prefix or without a second `::`.
pub fn split_client_id(id: &str) -> (r: Option<(String, String)>)
    ensures
        !has_prefix(id@, client_prefix()) ==> r is None,
        has_prefix(id@, client_prefix()) ==> ({
            let rest = id@.skip(client_prefix().len() as int);
            &&& !contains(rest, id_separator()) ==> r is None
            &&& r matches Some((c, o)) ==> exists|i: int|
                first_occurrence_from(rest, id_separator(), 0, i) && c@ == rest.take(i) && o@
                    == rest.skip(i + 2)
            &&& contains(rest, id_separator()) ==> r is Some
        }),
{
    proof {
        reveal_strlit("client_id::");
        reveal_strlit("::");
    }
    match strip_prefix(id, "client_id::") {
        Some(rest) => split_once(rest.as_str(), "::"),
        None => None,
    }
}

/// A forwarded id leads back to the client and the id it gave, whenever
/// the client id holds no `::` and does not end with `:`.
pub proof fn law_client_id_round_trip(client_id: Seq<char>, id_json: Seq<char>, i: int)
    requires
        !contains(client_id, id_separator()),
        client_id.len() == 0 || client_id.last() != ':',
        first_occurrence_from(
            tagged_id(client_id, id_json).skip(client_prefix().len() as int),
            id_separator(),
            0,
            i,
        ),
    ensures
        has_prefix(tagged_id(client_id, id_json), client_prefix()),
        tagged_id(client_id, id_json).skip(client_prefix().len() as int).take(i) == client_id,
        tagged_id(client_id, id_json).skip(client_prefix().len() as int).skip(i + 2) == id_json,
{
    reveal_strlit("client_id::");
    reveal_strlit("::");
    let t = tagged_id(client_id, id_json);
    let rest = t.skip(11);
    assert(t.subrange(0, 11) =~= client_prefix());
    assert(rest =~= client_id + id_separator() + id_json);
    let k = client_id.len() as int;
    assert(rest.subrange(k, k + 2) =~= id_separator());
    assert(occurs_at(rest, id_separator(), k));
    if i < k {
        if i + 2 <= k {
            assert(rest.subrange(i, i + 2) =~= client_id.subrange(i, i + 2));
            assert(occurs_at(client_id, id_separator(), i));
        } else {
            assert(rest.subrange(i, i + 2)[0] == ':');
            assert(rest[i] == client_id[k - 1]);
        }
    }
    assert(i == k);
    assert(rest.take(i) =~= client_id);
    assert(rest.skip(i + 2) =~= id_json);
}

} // verus!
