//! The answer to a request and the text that goes on the wire.

use crate::text::{decimal, to_decimal};
use vstd::prelude::*;
use vstd::utf8::encode_utf8;

verus! {

/// The status of an answer.
#[derive(Clone, Copy, Debug, PartialEq, Eq, Structural)]
pub enum Status {
    Success,
    ServerError,
    NotFound,
}

impl Status {
    /// The status line, without its line break.
    pub open spec fn line(self) -> Seq<char> {
        match self {
            Status::Success => "HTTP/1.1 200 OK"@,
            Status::ServerError => "HTTP/1.1 501 ERROR"@,
            Status::NotFound => "HTTP/1.1 404 NOT FOUND"@,
        }
    }

    /// The status line as text.
    pub fn line_text(&self) -> (text: &'static str)
        ensures
            text@ == self.line(),
    {
        match self {
            Status::Success => "HTTP/1.1 200 OK",
            Status::ServerError => "HTTP/1.1 501 ERROR",
            Status::NotFound => "HTTP/1.1 404 NOT FOUND",
        }
    }
}

/// How the work for a request ended.
pub enum Outcome {
    /// The greeting was asked for.
    Hello,
    /// The note was found; this is its JSON text.
    NoteFound(String),
    /// The store holds no note under the key.
    NoteMissing,
    /// The store failed while looking for the note.
    StoreFailed,
    /// The note was stored.
    NoteInserted,
    /// The note was replaced.
    NoteUpdated,
    /// The note was removed.
    NoteDeleted,
    /// The request named no service.
    NoRoute,
}

/// The mathematical content of an answer.
pub struct ResponseView {
    pub status: Status,
    pub body: Seq<char>,
}

/// The answer to give for an outcome.
pub open spec fn response_of(outcome: Outcome) -> ResponseView {
    match outcome {
        Outcome::Hello => ResponseView { status: Status::Success, body: "Hello, world!"@ },
        Outcome::NoteFound(json) => ResponseView { status: Status::Success, body: json@ },
        Outcome::NoteMissing => ResponseView { status: Status::Success, body: "Note not found"@ },
        Outcome::StoreFailed => ResponseView { status: Status::ServerError, body: "Server Error"@ },
        Outcome::NoteInserted => ResponseView { status: Status::Success, body: "Note inserted"@ },
        Outcome::NoteUpdated => ResponseView { status: Status::Success, body: "Note updated"@ },
        Outcome::NoteDeleted => ResponseView { status: Status::Success, body: "Note deleted"@ },
        Outcome::NoRoute => ResponseView { status: Status::NotFound, body: "Not found"@ },
    }
}

/// The text of an answer on the wire: the status line, the length of the body
/// in bytes, an empty line, the body.
pub open spec fn encoded(r: ResponseView) -> Seq<char> {
    r.status.line() + "\r\nContent-Length: "@ + decimal(encode_utf8(r.body).len()) + "\r\n\r\n"@
        + r.body
}

/// An answer: a status and a body.
pub struct Response {
    status: Status,
    body: String,
}

impl View for Response {
    type V = ResponseView;

    closed spec fn view(&self) -> ResponseView {
        ResponseView { status: self.status, body: self.body@ }
    }
}

impl Response {
    /// The answer with the given status and body.
    pub fn new(status: Status, body: String) -> (r: Response)
        ensures
            r@ == (ResponseView { status, body: body@ }),
    {
        Response { status, body }
    }

    /// The answer to give for an outcome.
    pub fn of(outcome: Outcome) -> (r: Response)
        ensures
            r@ == response_of(outcome),
    {
        match outcome {
            Outcome::Hello => Response { status: Status::Success, body: String::from_str("Hello, world!") },
            Outcome::NoteFound(json) => Response { status: Status::Success, body: json },
            Outcome::NoteMissing => Response {
                status: Status::Success,
                body: String::from_str("Note not found"),
            },
            Outcome::StoreFailed => Response {
                status: Status::ServerError,
                body: String::from_str("Server Error"),
            },
            Outcome::NoteInserted => Response {
                status: Status::Success,
                body: String::from_str("Note inserted"),
            },
            Outcome::NoteUpdated => Response {
                status: Status::Success,
                body: String::from_str("Note updated"),
            },
            Outcome::NoteDeleted => Response {
                status: Status::Success,
                body: String::from_str("Note deleted"),
            },
            Outcome::NoRoute => Response {
                status: Status::NotFound,
                body: String::from_str("Not found"),
            },
        }
    }

    /// The status of the answer.
    pub fn status(&self) -> (status: Status)
        ensures
            status == self@.status,
    {
        self.status
    }

    /// The body of the answer.
    pub fn body(&self) -> (body: &str)
        ensures
            body@ == self@.body,
    {
        self.body.as_str()
    }

    /// Writes the answer as it goes on the wire.
    pub fn encode(&self) -> (wire: String)
        ensures
            wire@ == encoded(self@),
    {
        let length: usize = self.body.as_str().as_bytes().len();
        let mut wire = String::from_str(self.status.line_text());
        wire.append("\r\nContent-Length: ");
        wire.append(to_decimal(length).as_str());
        wire.append("\r\n\r\n");
        wire.append(self.body.as_str());
        wire
    }
}

} // verus!
