use backend::error::{Error, WebError};

#[test]
fn status_codes() {
    assert_eq!(Error::SqlError { not_found: true, message: String::from("Record not found") }.status_code(), 404);
    assert_eq!(Error::SqlError { not_found: false, message: String::from("x") }.status_code(), 500);
    assert_eq!(Error::BunnyError { not_found: true, message: String::from("x") }.status_code(), 404);
    assert_eq!(Error::BunnyError { not_found: false, message: String::from("x") }.status_code(), 500);
    assert_eq!(Error::BadRequest(String::from("x")).status_code(), 400);
    assert_eq!(Error::Unauthorized(String::from("x")).status_code(), 401);
    assert_eq!(Error::Forbidden(String::from("x")).status_code(), 403);
    assert_eq!(Error::TooManyRequests(String::from("x")).status_code(), 429);
    assert_eq!(Error::InternalServerError(String::from("x")).status_code(), 500);
    assert_eq!(Error::PasswordHashError(String::from("x")).status_code(), 500);
    assert_eq!(Error::RedisError(String::from("x")).status_code(), 500);
    assert_eq!(Error::UrlParseError(String::from("x")).status_code(), 500);
}

#[test]
fn response_carries_the_message() {
    let (code, body) = Error::Forbidden(String::from("Not allowed")).into_response();
    assert_eq!(code, 403);
    assert_eq!(body.message, "Not allowed");
    let (code, body) = Error::IoError(String::from("disk full")).into_response();
    assert_eq!(code, 500);
    assert_eq!(body.message, "disk full");
}

#[test]
fn web_error_holds_its_message() {
    assert_eq!(WebError::new(String::from("m")).message, "m");
    assert_eq!(Error::JsonError(String::from("bad json")).message(), "bad json");
}
