//! Which service a request asks for.

use crate::text::text_eq;
use vstd::prelude::*;

verus! {

/// The services of the notes server.
#[derive(Clone, Copy, Debug, PartialEq, Eq, Structural)]
pub enum Route {
    /// `GET /`: a greeting.
    Hello,
    /// `GET /notes`: show the note that the query names.
    ReadNote,
    /// `POST /notes`: store the note in the body.
    CreateNote,
    /// `PUT /notes`: replace the note that the query names by the one in the
    /// body.
    UpdateNote,
    /// `DELETE /notes`: remove the note that the query names.
    DeleteNote,
    /// Anything else.
    Unknown,
}

/// The service that a method and a path name. Both are compared letter for
/// letter.
pub open spec fn route_of(method: Seq<char>, path: Seq<char>) -> Route {
    if method == "GET"@ && path == "/"@ {
        Route::Hello
    } else if path != "/notes"@ {
        Route::Unknown
    } else if method == "GET"@ {
        Route::ReadNote
    } else if method == "POST"@ {
        Route::CreateNote
    } else if method == "PUT"@ {
        Route::UpdateNote
    } else if method == "DELETE"@ {
        Route::DeleteNote
    } else {
        Route::Unknown
    }
}

impl Route {
    /// Finds the service for a method and a path.
    pub fn of(method: &str, path: &str) -> (route: Route)
        ensures
            route == route_of(method@, path@),
    {
        if text_eq(method, "GET") && text_eq(path, "/") {
            Route::Hello
        } else if !text_eq(path, "/notes") {
            Route::Unknown
        } else if text_eq(method, "GET") {
            Route::ReadNote
        } else if text_eq(method, "POST") {
            Route::CreateNote
        } else if text_eq(method, "PUT") {
            Route::UpdateNote
        } else if text_eq(method, "DELETE") {
            Route::DeleteNote
        } else {
            Route::Unknown
        }
    }

    /// Whether the service reads a note from the body of the request.
    pub fn takes_body(&self) -> (b: bool)
        ensures
            b == (*self == Route::CreateNote || *self == Route::UpdateNote),
    {
        match self {
            Route::CreateNote | Route::UpdateNote => true,
            _ => false,
        }
    }
}

} // verus!
