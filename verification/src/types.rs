//! The wire data model: calls, responses, events, errors.

use vstd::prelude::*;
use crate::strutil::{find_from, find_char_from, substring};
use vstd::string::StrSliceExecFns;

verus! {

/// Identifier correlating a response to its method call. Monotonic and
/// globally unique within one handler.
#[derive(Debug, Copy, Clone, PartialEq, Eq, Structural, Hash)]
pub struct CallId(pub usize);

impl CallId {
    pub fn new(id: usize) -> (r: Self)
        ensures
            r.0 == id,
    {
        CallId(id)
    }
}

/// Identifier of the session a target is attached through. Opaque,
/// browser-assigned.
#[derive(Debug, Clone)]
pub struct SessionId(pub String);

impl View for SessionId {
    type V = Seq<char>;

    open spec fn view(&self) -> Seq<char> {
        self.0@
    }
}

impl SessionId {
    pub fn new(s: String) -> (r: Self)
        ensures
            r@ == s@,
    {
        SessionId(s)
    }

    pub fn as_str(&self) -> (r: &str)
        ensures
            r@ == self@,
    {
        self.0.as_str()
    }
}

/// A message sent by the client: a method call with its correlation id.
/// `params` holds the call's parameters as a serialized object.
#[derive(Debug, Clone)]
pub struct MethodCall {
    pub id: CallId,
    pub method: String,
    pub params: String,
}

/// An outbound request before a call id is assigned to it.
#[derive(Debug, Clone)]
pub struct Request {
    pub method: String,
    pub session_id: Option<String>,
    pub params: String,
}

impl Request {
    pub fn new(method: String, params: String) -> (r: Self)
        ensures
            r.method@ == method@,
            r.params@ == params@,
            r.session_id is None,
    {
        Request { method, session_id: None, params }
    }

    pub fn with_session(method: String, params: String, session: String) -> (r: Self)
        ensures
            r.method@ == method@,
            r.params@ == params@,
            r.session_id matches Some(s) && s@ == session@,
    {
        Request { method, session_id: Some(session), params }
    }
}

/// The reason a method call failed, as the browser reported it.
#[derive(Debug, Clone)]
pub struct Error {
    pub code: usize,
    pub message: String,
}

impl Error {
    /// A readable rendering of the error, code first.
    pub fn describe(&self) -> (r: String)
        ensures
            r@ == self.message@,
    {
        self.message.clone()
    }
}

/// A response to a method call. Exactly one of `result` and `error` is
/// present on a well-formed response.
#[derive(Debug, Clone)]
pub struct Response {
    pub id: CallId,
    pub result: Option<String>,
    pub error: Option<Error>,
}

/// A well-formed response carries either a result or an error, never
/// both and never neither.
pub open spec fn response_wf(r: Response) -> bool {
    r.result is Some <==> r.error is None
}

/// An event produced by the browser. Events carrying a session id belong
/// to one target; the rest are browser-wide.
#[derive(Debug, Clone)]
pub struct CdpEvent {
    pub method: String,
    pub session_id: Option<String>,
    pub params: String,
}

/// An inbound message: a response when it carries an id, an event
/// otherwise.
#[derive(Debug, Clone)]
pub enum Message {
    Event(CdpEvent),
    Response(Response),
}

/// A typed response as handed back to a caller.
#[derive(Debug, Clone)]
pub struct CommandResponse<T> {
    pub id: CallId,
    pub result: T,
    pub method: String,
}

/// Everything that can go wrong between a caller and the browser.
#[derive(Debug, Clone)]
pub enum CdpError {
    /// The browser answered the call with an error payload.
    Chrome(Error),
    /// The browser reported a textual failure, e.g. a failed navigation.
    ChromeMessage(String),
    /// A deadline passed before the awaited reply arrived.
    DeadlineExceeded(DeadlineExceeded),
    /// The transport closed while the call was pending.
    TransportClosed,
    /// The asked-for thing does not exist yet, e.g. no main frame.
    NotFound,
    /// An inbound frame could not be parsed.
    Serde,
    /// A misuse rejected before any call was issued.
    Msg(String),
}

/// Records when a deadline was found to have passed.
#[derive(Debug, Copy, Clone, PartialEq, Eq, Structural)]
pub struct DeadlineExceeded {
    /// The clock reading at the check, in milliseconds.
    pub now: u64,
    /// The deadline that had passed, in milliseconds.
    pub deadline: u64,
}

/// Anything that has a fully qualified `Domain.method` identifier.
pub trait Method {
    fn identifier(&self) -> String;
}

/// An event type that may carry a session id.
pub trait Event: Method {
    fn session_id(&self) -> Option<String>;
}

impl Method for CdpEvent {
    fn identifier(&self) -> (r: String)
        ensures
            r@ == self.method@,
    {
        self.method.clone()
    }
}

impl Event for CdpEvent {
    fn session_id(&self) -> (r: Option<String>)
        ensures
            match r {
                Some(s) => self.session_id matches Some(s2) && s@ == s2@,
                None => self.session_id is None,
            },
    {
        match &self.session_id {
            Some(s) => Some(s.clone()),
            None => None,
        }
    }
}

/// The domain prefix of `identifier`: everything before the first `.`.
pub open spec fn spec_domain_name(s: Seq<char>) -> Seq<char> {
    s.subrange(0, find_from(s, 0, '.'))
}

/// The method part of `identifier`: between the first `.` and the next
/// `.` or the end.
pub open spec fn spec_method_name(s: Seq<char>) -> Seq<char> {
    let dot = find_from(s, 0, '.');
    if dot == s.len() {
        Seq::<char>::empty()
    } else {
        s.subrange(dot + 1, find_from(s, dot + 1, '.'))
    }
}

/// Split a qualified identifier into its domain and method parts.
pub fn split_identifier(identifier: &str) -> (r: (String, String))
    requires
        exists|k: int| 0 <= k < identifier@.len() && identifier@[k] == '.',
    ensures
        r.0@ == spec_domain_name(identifier@),
        r.1@ == spec_method_name(identifier@),
{
    let len = identifier.unicode_len();
    proof {
        crate::strutil::lemma_find_from_props(identifier@, 0, '.');
        let k = choose|k: int| 0 <= k < identifier@.len() && identifier@[k] == '.';
        assert(find_from(identifier@, 0, '.') <= k);
    }
    let dot = find_char_from(identifier, 0, '.');
    assert(dot < len);
    let domain = substring(identifier, 0, dot);
    proof {
        crate::strutil::lemma_find_from_props(identifier@, dot + 1, '.');
    }
    let next = find_char_from(identifier, dot + 1, '.');
    let method = substring(identifier, dot + 1, next);
    (domain, method)
}

/// The domain a qualified method name belongs to.
pub fn domain_name(identifier: &str) -> (r: String)
    requires
        exists|k: int| 0 <= k < identifier@.len() && identifier@[k] == '.',
    ensures
        r@ == spec_domain_name(identifier@),
{
    split_identifier(identifier).0
}

/// The method's own name inside its domain.
pub fn method_name(identifier: &str) -> (r: String)
    requires
        exists|k: int| 0 <= k < identifier@.len() && identifier@[k] == '.',
    ensures
        r@ == spec_method_name(identifier@),
{
    split_identifier(identifier).1
}

/// Does this event belong to the given protocol domain?
pub fn has_domain(method: &str, domain: &str) -> (r: bool)
    ensures
        r == (method@.len() > domain@.len() && method@.subrange(0, domain@.len() as int)
            == domain@ && method@[domain@.len() as int] == '.'),
{
    let mlen = method.unicode_len();
    let dlen = domain.unicode_len();
    if mlen <= dlen {
        return false;
    }
    if !crate::strutil::str_starts_with(method, domain) {
        return false;
    }
    method.get_char(dlen) == '.'
}

} // verus!
