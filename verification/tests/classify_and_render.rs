use check_websites::classify::classify_response;
use check_websites::render::render_message;
use check_websites::tracker::{EventKind, RawStatus};

#[test]
fn ok_status_line_is_up() {
    let headers = vec!["HTTP/1.1 200 OK".to_string(), "Server: x".to_string()];
    assert_eq!(classify_response(&headers), RawStatus::Up);
}

#[test]
fn redirect_status_line_is_up() {
    let headers = vec!["HTTP/1.1 301 Moved Permanently".to_string()];
    assert_eq!(classify_response(&headers), RawStatus::Up);
}

#[test]
fn client_error_status_line_is_down() {
    let headers = vec!["HTTP/1.1 404 Not Found".to_string()];
    assert_eq!(classify_response(&headers), RawStatus::Down);
}

#[test]
fn server_error_status_line_is_down() {
    let headers = vec!["HTTP/1.1 500 Internal Server Error".to_string()];
    assert_eq!(classify_response(&headers), RawStatus::Down);
}

#[test]
fn unrecognized_protocol_line_is_down() {
    let headers = vec!["HTTP/1.0 200 OK".to_string()];
    assert_eq!(classify_response(&headers), RawStatus::Down);
}

#[test]
fn short_or_garbled_line_is_down() {
    assert_eq!(classify_response(&vec!["HTTP/1.1".to_string()]), RawStatus::Down);
    assert_eq!(classify_response(&vec!["garbage".to_string()]), RawStatus::Down);
    assert_eq!(classify_response(&vec!["".to_string()]), RawStatus::Down);
}

#[test]
fn no_response_line_is_down_like_an_error_status() {
    // A transport failure yields no header lines at all; at the tracker
    // level it is indistinguishable from an application-classified Down.
    let transport_failure: Vec<String> = Vec::new();
    let error_status = vec!["HTTP/1.1 503 Service Unavailable".to_string()];
    assert_eq!(classify_response(&transport_failure), RawStatus::Down);
    assert_eq!(
        classify_response(&transport_failure),
        classify_response(&error_status)
    );
}

#[test]
fn down_message_text() {
    let text = render_message(EventKind::DownAlert, "prod-monitor", "https://example.com");
    assert_eq!(text, "prod-monitor: *https://example.com* is DOWN :sob:");
}

#[test]
fn up_again_message_text() {
    let text = render_message(EventKind::UpAgainAlert, "prod-monitor", "https://example.com");
    assert_eq!(
        text,
        "prod-monitor: Yey! :tada: :tada: :tada: *https://example.com* is UP Again!"
    );
}
