use webserver::response::{Outcome, Response, Status};
use webserver::route::Route;

#[test]
fn route_of_each_service() {
    assert_eq!(Route::of("GET", "/"), Route::Hello);
    assert_eq!(Route::of("GET", "/notes"), Route::ReadNote);
    assert_eq!(Route::of("POST", "/notes"), Route::CreateNote);
    assert_eq!(Route::of("PUT", "/notes"), Route::UpdateNote);
    assert_eq!(Route::of("DELETE", "/notes"), Route::DeleteNote);
}

#[test]
fn route_unknown_for_anything_else() {
    assert_eq!(Route::of("POST", "/"), Route::Unknown);
    assert_eq!(Route::of("get", "/"), Route::Unknown);
    assert_eq!(Route::of("GET", ""), Route::Unknown);
    assert_eq!(Route::of("GET", "/notes/"), Route::Unknown);
    assert_eq!(Route::of("GET", "/Notes"), Route::Unknown);
    assert_eq!(Route::of("PATCH", "/notes"), Route::Unknown);
    assert_eq!(Route::of("", "/notes"), Route::Unknown);
    assert_eq!(Route::of("GET", "/sleep"), Route::Unknown);
}

#[test]
fn route_that_takes_a_body() {
    assert!(Route::CreateNote.takes_body());
    assert!(Route::UpdateNote.takes_body());
    assert!(!Route::Hello.takes_body());
    assert!(!Route::ReadNote.takes_body());
    assert!(!Route::DeleteNote.takes_body());
    assert!(!Route::Unknown.takes_body());
}

#[test]
fn status_lines() {
    assert_eq!(Status::Success.line_text(), "HTTP/1.1 200 OK");
    assert_eq!(Status::ServerError.line_text(), "HTTP/1.1 501 ERROR");
    assert_eq!(Status::NotFound.line_text(), "HTTP/1.1 404 NOT FOUND");
}

fn answer(outcome: Outcome) -> (Status, String) {
    let response = Response::of(outcome);
    (response.status(), response.body().to_string())
}

#[test]
fn response_for_each_outcome() {
    assert_eq!(answer(Outcome::Hello), (Status::Success, "Hello, world!".to_string()));
    assert_eq!(
        answer(Outcome::NoteFound("{\"id\":1}".to_string())),
        (Status::Success, "{\"id\":1}".to_string())
    );
    assert_eq!(answer(Outcome::NoteMissing), (Status::Success, "Note not found".to_string()));
    assert_eq!(answer(Outcome::StoreFailed), (Status::ServerError, "Server Error".to_string()));
    assert_eq!(answer(Outcome::NoteInserted), (Status::Success, "Note inserted".to_string()));
    assert_eq!(answer(Outcome::NoteUpdated), (Status::Success, "Note updated".to_string()));
    assert_eq!(answer(Outcome::NoteDeleted), (Status::Success, "Note deleted".to_string()));
    assert_eq!(answer(Outcome::NoRoute), (Status::NotFound, "Not found".to_string()));
}

#[test]
fn response_on_the_wire() {
    assert_eq!(
        Response::of(Outcome::Hello).encode(),
        "HTTP/1.1 200 OK\r\nContent-Length: 13\r\n\r\nHello, world!"
    );
    assert_eq!(
        Response::of(Outcome::NoRoute).encode(),
        "HTTP/1.1 404 NOT FOUND\r\nContent-Length: 9\r\n\r\nNot found"
    );
    assert_eq!(
        Response::of(Outcome::StoreFailed).encode(),
        "HTTP/1.1 501 ERROR\r\nContent-Length: 12\r\n\r\nServer Error"
    );
    assert_eq!(
        Response::new(Status::Success, String::new()).encode(),
        "HTTP/1.1 200 OK\r\nContent-Length: 0\r\n\r\n"
    );
}

#[test]
fn response_length_counts_bytes() {
    let body = "{\"id\":2,\"title\":\"café\",\"content\":\"日本\"}".to_string();
    assert_eq!(body.chars().count(), 38);
    assert_eq!(body.len(), 43);
    assert_eq!(
        Response::of(Outcome::NoteFound(body.clone())).encode(),
        format!("HTTP/1.1 200 OK\r\nContent-Length: 43\r\n\r\n{}", body)
    );
}
