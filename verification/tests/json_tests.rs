use grokdb::api::backup::BackupResponse;
use grokdb::api::{ErrorResponse, RawErrorResponse, Status};
use grokdb::json::{frame_backup, frame_error, push_decimal};

fn numeral(value: u16) -> String {
    let mut out = Vec::new();
    push_decimal(&mut out, value);
    out.into_iter().collect()
}

#[test]
fn decimal_numerals() {
    assert_eq!(numeral(0), "0");
    assert_eq!(numeral(7), "7");
    assert_eq!(numeral(10), "10");
    assert_eq!(numeral(400), "400");
    assert_eq!(numeral(500), "500");
    assert_eq!(numeral(65535), "65535");
}

#[test]
fn push_decimal_keeps_what_was_there() {
    let mut out = vec!['#'];
    push_decimal(&mut out, 42);
    assert_eq!(out, vec!['#', '4', '2']);
}

#[test]
fn frames_a_backup_object() {
    assert_eq!(frame_backup("\"/tmp/x.db\""), "{\"dest_file\":\"/tmp/x.db\"}");
}

#[test]
fn frames_an_error_object() {
    assert_eq!(
        frame_error(400, "\"dev\"", "\"user\""),
        "{\"status\":400,\"developerMessage\":\"dev\",\"userMessage\":\"user\"}"
    );
}

#[test]
fn status_codes() {
    assert_eq!(Status::Success.to_u16(), 200);
    assert_eq!(Status::BadRequest.to_u16(), 400);
    assert_eq!(Status::InternalServerError.to_u16(), 500);
}

#[test]
fn backup_response_to_json() {
    let response = BackupResponse { dest_file: "/tmp/mybackup.db".to_string() };
    assert_eq!(response.to_json(), "{\"dest_file\":\"/tmp/mybackup.db\"}");
}

#[test]
fn backup_response_to_json_escapes() {
    let response = BackupResponse { dest_file: "a\"b\\c\nd\u{1}\u{e9}".to_string() };
    assert_eq!(response.to_json(), "{\"dest_file\":\"a\\\"b\\\\c\\nd\\u0001\u{e9}\"}");
}

#[test]
fn error_response_get_raw() {
    let failure = ErrorResponse {
        status: Status::BadRequest,
        developer_message: "expected value at line 1",
        user_message: "bad body",
    };
    let raw = failure.get_raw();
    assert_eq!(raw.status, 400);
    assert_eq!(raw.developer_message, "expected value at line 1");
    assert_eq!(raw.user_message, "bad body");
}

#[test]
fn error_response_to_json() {
    let failure = ErrorResponse {
        status: Status::InternalServerError,
        developer_message: "SqliteFailure(\"disk full\")",
        user_message: "unable to back up the database",
    };
    assert_eq!(
        failure.to_json(),
        "{\"status\":500,\"developerMessage\":\"SqliteFailure(\\\"disk full\\\")\",\"userMessage\":\"unable to back up the database\"}"
    );
}

#[test]
fn both_error_forms_encode_alike() {
    let failure = ErrorResponse {
        status: Status::BadRequest,
        developer_message: "tab\there",
        user_message: "",
    };
    assert_eq!(failure.to_json(), failure.get_raw().to_json());
    let raw = RawErrorResponse {
        status: 400,
        developer_message: "tab\there".to_string(),
        user_message: String::new(),
    };
    assert_eq!(
        raw.to_json(),
        "{\"status\":400,\"developerMessage\":\"tab\\there\",\"userMessage\":\"\"}"
    );
    assert_eq!(failure.to_json(), raw.to_json());
}
