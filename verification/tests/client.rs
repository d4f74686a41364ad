use bypass::api::client::{
    error_message, is_success, reissue, ApiRequest, Method, ShortcutClient, BASE_URL,
    RETRY_AFTER_HEADER, TOKEN_HEADER,
};
use bypass::error::BypassError;

fn api_error(r: Result<String, BypassError>) -> (u16, String) {
    match r {
        Err(BypassError::Api { status, message }) => (status, message),
        other => panic!("expected an API error, got {:?}", other),
    }
}

#[test]
fn success_is_200_to_299() {
    assert!(!is_success(199));
    assert!(is_success(200));
    assert!(is_success(201));
    assert!(is_success(299));
    assert!(!is_success(300));
    assert!(!is_success(404));
    assert!(!is_success(0));
    assert!(!is_success(u16::MAX));
}

#[test]
fn successful_response_gives_its_body() {
    let body = "{\"id\": 5, \"message\": \"not an error\"}".to_string();
    assert_eq!(ShortcutClient::handle_response(200, body.clone()).unwrap(), body);
    assert_eq!(ShortcutClient::handle_response(201, String::new()).unwrap(), "");
}

#[test]
fn failed_response_takes_the_message_of_its_body() {
    let body = "{\"message\": \"Name is required\", \"code\": 7}".to_string();
    assert_eq!(
        api_error(ShortcutClient::handle_response(422, body)),
        (422, "Name is required".to_string())
    );
}

#[test]
fn failed_response_without_message_keeps_its_body() {
    for body in [
        "Bad Gateway",
        "",
        "{\"error\": \"nope\"}",
        "{\"message\": 17}",
        "{\"message\": null}",
        "{\"message\": {\"text\": \"nested\"}}",
        "[\"message\"]",
        "\"message\"",
        "{\"message\": \"cut off",
    ] {
        assert_eq!(
            api_error(ShortcutClient::handle_response(502, body.to_string())),
            (502, body.to_string())
        );
    }
}

#[test]
fn message_may_be_empty_or_escaped() {
    assert_eq!(
        api_error(ShortcutClient::handle_response(400, "{\"message\": \"\"}".to_string())),
        (400, String::new())
    );
    assert_eq!(
        api_error(ShortcutClient::handle_response(
            400,
            "{\"message\": \"a \\\"b\\\"\\n\\u00e9\"}".to_string()
        )),
        (400, "a \"b\"\né".to_string())
    );
}

#[test]
fn error_message_prefers_the_member() {
    assert_eq!(error_message("raw".to_string(), Some("told".to_string())), "told");
    assert_eq!(error_message("raw".to_string(), None), "raw");
    assert_eq!(error_message("raw".to_string(), Some(String::new())), "");
}

#[test]
fn api_error_text() {
    let e = BypassError::Api { status: 404, message: "Resource not found.".to_string() };
    assert_eq!(e.message(), "Shortcut API error (HTTP 404): Resource not found.");
    let e = BypassError::Api { status: 0, message: String::new() };
    assert_eq!(e.message(), "Shortcut API error (HTTP 0): ");
    let e = BypassError::Api { status: 65535, message: "x".to_string() };
    assert_eq!(e.message(), "Shortcut API error (HTTP 65535): x");
}

#[test]
fn other_error_texts() {
    let e = BypassError::NameNotFound { resource_type: "team".to_string(), name: "Ops".to_string() };
    assert_eq!(e.message(), "Name not found – no team named 'Ops' in this workspace");
    assert_eq!(BypassError::InvalidInput("no name".to_string()).message(), "Invalid input: no name");
    assert_eq!(
        BypassError::UnsupportedFormat("txt".to_string()).message(),
        "Unsupported file format 'txt': use .yaml, .csv, or .xlsx"
    );
    assert_eq!(BypassError::Transport("connection reset".to_string()).message(), "connection reset");
    match BypassError::not_found("user", " bob ") {
        BypassError::NameNotFound { resource_type, name } => {
            assert_eq!(resource_type, "user");
            assert_eq!(name, " bob ");
        }
        _ => panic!("expected NameNotFound"),
    }
}

fn assert_request(r: ApiRequest, method: Method, path: &str, body: Option<&str>) {
    assert_eq!(r.method, method);
    assert_eq!(r.url, format!("https://api.app.shortcut.com/api/v3{}", path));
    assert_eq!(r.token, "SECRET-REDACTED");
    assert_eq!(r.body.as_deref(), body);
}

#[test]
fn read_requests() {
    let c = ShortcutClient::new("SECRET-REDACTED".to_string());
    assert_request(c.list_members(), Method::Get, "/members", None);
    assert_request(c.list_groups(), Method::Get, "/groups", None);
    assert_request(c.list_workflows(), Method::Get, "/workflows", None);
}

#[test]
fn create_requests() {
    let c = ShortcutClient::new("SECRET-REDACTED".to_string());
    assert_request(
        c.create_objective("{\"name\":\"o\"}".to_string()),
        Method::Post,
        "/objectives",
        Some("{\"name\":\"o\"}"),
    );
    assert_request(c.create_epic("{}".to_string()), Method::Post, "/epics", Some("{}"));
    assert_request(c.create_story(String::new()), Method::Post, "/stories", Some(""));
}

#[test]
fn constants_of_the_api() {
    assert_eq!(BASE_URL, "https://api.app.shortcut.com/api/v3");
    assert_eq!(TOKEN_HEADER, "Shortcut-Token");
    assert_eq!(RETRY_AFTER_HEADER, "Retry-After");
}

#[test]
fn request_that_cannot_be_copied_is_not_sent() {
    assert_eq!(reissue(Some(5u8)).unwrap(), 5);
    match reissue::<u8>(None) {
        Err(BypassError::Transport(detail)) => assert_eq!(detail, "request body is not cloneable"),
        _ => panic!("expected a transport error"),
    }
}
