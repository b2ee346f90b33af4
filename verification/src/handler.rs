//! The connection handler: the job that a worker runs for one connection.
//!
//! A handler reads once, answers once, and ends. Reading from the stream
//! and writing to it are the caller's part; what is decided in between is
//! here. The caller makes one read attempt into a buffer of
//! [`BUFFER_SIZE`] bytes and hands over what it brought. Nothing is read
//! again: a request that is longer than the buffer, or that arrives in
//! pieces, is answered as what the one read brought.

use crate::request::{
    get_request_body, last_segment, route, route_of, Route, SEPARATOR,
};
use vstd::prelude::*;
use vstd::string::{StrSliceExecFns, StringExecFns};
use vstd::utf8::encode_utf8;

verus! {

/// The size of the buffer that the one read attempt fills at most.
pub const BUFFER_SIZE: usize = 1024;

/// The status line, with its headers, of a successful response.
pub const OK_RESPONSE: &'static str =
    "HTTP/1.1 200 OK\r\nContent-Type: application/json\r\nAccess-Control-Allow-Origin: *\r\nAccess-Control-Allow-Methods: GET, POST, PUT, DELETE\r\nAccess-Control-Allow-Headers: Content-Type\r\n\r\n";

/// The status line of the response to a request that no route matches.
pub const NOT_FOUND: &'static str = "HTTP/1.1 404 NOT FOUND\r\n\r\n";

/// The body of the API's greeting.
pub const WELCOME: &'static str = "Welcome to the R3 Rust API";

/// The body of the response to a request that no route matches.
pub const NOT_FOUND_BODY: &'static str = "404 NOT FOUND";

/// A response: what is written back, status line first.
#[derive(Debug, PartialEq, Eq)]
pub struct Response {
    /// The status line, with the headers and the blank line that ends them.
    pub status_line: String,
    /// What follows the status line.
    pub content: String,
}

/// A response as two texts.
pub struct ResponseView {
    pub status_line: Seq<char>,
    pub content: Seq<char>,
}

impl View for Response {
    type V = ResponseView;

    open spec fn view(&self) -> ResponseView {
        ResponseView { status_line: self.status_line@, content: self.content@ }
    }
}

impl Response {
    /// The bytes to write to the stream, all of them: the status line and
    /// then the content, as UTF-8.
    pub fn to_bytes(&self) -> (bytes: Vec<u8>)
        ensures
            bytes@ == encode_utf8(self@.status_line + self@.content),
    {
        let mut text = String::from_str(self.status_line.as_str());
        text.append(self.content.as_str());
        text.as_str().as_bytes_vec()
    }
}

/// What the handler asks of its caller once the read attempt is over.
#[derive(Debug, PartialEq, Eq)]
pub enum Reaction {
    /// Write the response and end.
    Respond(Response),
    /// The request is a login. Have `body` parsed as the login's payload,
    /// and hand `request` and the verdict to [`handle_github_login`].
    Login { request: String, body: String },
    /// End without writing anything.
    Close,
}

/// A reaction as texts.
pub enum ReactionView {
    Respond(ResponseView),
    Login { request: Seq<char>, body: Seq<char> },
    Close,
}

impl View for Reaction {
    type V = ReactionView;

    open spec fn view(&self) -> ReactionView {
        match self {
            Reaction::Respond(response) => ReactionView::Respond(response@),
            Reaction::Login { request, body } => ReactionView::Login {
                request: request@,
                body: body@,
            },
            Reaction::Close => ReactionView::Close,
        }
    }
}

/// The reaction to a request, by its route.
pub open spec fn reaction_to(request: Seq<char>) -> ReactionView {
    match route_of(request) {
        Route::Api => ReactionView::Respond(
            ResponseView { status_line: OK_RESPONSE@, content: WELCOME@ },
        ),
        Route::GithubLogin => ReactionView::Login {
            request,
            body: last_segment(request, SEPARATOR@),
        },
        Route::NotFound => ReactionView::Respond(
            ResponseView { status_line: NOT_FOUND@, content: NOT_FOUND_BODY@ },
        ),
    }
}

/// Decides what to do about a request that was read and decoded.
pub fn respond(request: &str) -> (reaction: Reaction)
    ensures
        reaction@ == reaction_to(request@),
{
    match route(request) {
        Route::Api => Reaction::Respond(
            Response {
                status_line: String::from_str(OK_RESPONSE),
                content: String::from_str(WELCOME),
            },
        ),
        Route::GithubLogin => Reaction::Login {
            request: String::from_str(request),
            body: String::from_str(get_request_body(request)),
        },
        Route::NotFound => Reaction::Respond(
            Response {
                status_line: String::from_str(NOT_FOUND),
                content: String::from_str(NOT_FOUND_BODY),
            },
        ),
    }
}

/// The text that `String::from_utf8_lossy` makes of the bytes.
pub uninterp spec fn lossy_text(bytes: Seq<u8>) -> Seq<char>;

/// `String::from_utf8_lossy`: the bytes as text, each invalid UTF-8 sequence
/// replaced by U+FFFD. The result depends on the bytes alone; the contract
/// gives it a name and says nothing of what it holds.
#[verifier::external_body]
fn decode_lossy(bytes: &[u8]) -> (text: String)
    ensures
        text@ == lossy_text(bytes@),
{
    String::from_utf8_lossy(bytes).into_owned()
}

/// Handles one connection, given what its one read attempt brought: the
/// bytes read, or `None` if the read failed.
///
/// A failed read ends the connection with nothing written. Bytes are
/// taken as text, invalid UTF-8 replaced and never refused, and answered
/// by their route.
pub fn handle_connection(read: Option<&[u8]>) -> (reaction: Reaction)
    ensures
        reaction@ == match read {
            Some(bytes) => reaction_to(lossy_text(bytes@)),
            None => ReactionView::Close,
        },
{
    match read {
        Some(bytes) => {
            let request = decode_lossy(bytes);
            respond(request.as_str())
        },
        None => Reaction::Close,
    }
}

/// Why a handler ends in a fault.
#[derive(Clone, Copy, Debug, PartialEq, Eq, Structural)]
pub enum Fault {
    /// The body of a login request is not a login's payload.
    LoginRejected,
}

/// Answers a login request once its body was put to the parser: the
/// success status line followed by the request itself if the body was
/// accepted (`parsed`), a fault if it was not.
pub fn handle_github_login(req: &str, parsed: bool) -> (result: Result<Response, Fault>)
    ensures
        match result {
            Ok(response) => parsed && response@ == (ResponseView {
                status_line: OK_RESPONSE@,
                content: req@,
            }),
            Err(fault) => !parsed && fault == Fault::LoginRejected,
        },
{
    if parsed {
        Ok(Response { status_line: String::from_str(OK_RESPONSE), content: String::from_str(req) })
    } else {
        Err(Fault::LoginRejected)
    }
}

} // verus!
