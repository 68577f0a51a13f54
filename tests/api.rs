use candlekeep::api::{
    bearer, classify_status, endpoint_url, failure_detail, failure_message, is_success,
    transfer_failure_message, ApiFailure, TocEntry,
};
use candlekeep::commands::{
    enrich_has_changes, has_content, is_confirmation, validate_toc, TocError,
};
use candlekeep::output::{format_status, status_style, StatusStyle};

#[test]
fn statuses_are_classified() {
    assert!(is_success(200));
    assert!(is_success(204));
    assert!(!is_success(301));
    assert!(!is_success(404));
    assert_eq!(classify_status(401), ApiFailure::Unauthenticated);
    assert_eq!(classify_status(403), ApiFailure::Forbidden);
    assert_eq!(classify_status(404), ApiFailure::NotFound);
    assert_eq!(classify_status(400), ApiFailure::BadRequest);
    assert_eq!(classify_status(500), ApiFailure::Other);
}

#[test]
fn failure_messages_name_the_kind() {
    assert_eq!(failure_message(401, "401 Unauthorized", "bad key"), "Authentication failed: bad key");
    assert_eq!(failure_message(403, "403 Forbidden", "no"), "Access denied: no");
    assert_eq!(failure_message(404, "404 Not Found", "x"), "Not found: x");
    assert_eq!(failure_message(400, "400 Bad Request", "y"), "Bad request: y");
    assert_eq!(
        failure_message(502, "502 Bad Gateway", "HTTP 502 Bad Gateway"),
        "API error (502 Bad Gateway): HTTP 502 Bad Gateway"
    );
    assert_eq!(failure_detail(Some("oops".to_string()), "500"), "oops");
    assert_eq!(failure_detail(None, "500 Internal Server Error"), "HTTP 500 Internal Server Error");
    assert_eq!(transfer_failure_message("403 Forbidden", "denied"), "Upload failed (403 Forbidden): denied");
}

#[test]
fn endpoints_and_headers() {
    assert_eq!(endpoint_url("https://h", "/items/batch"), "https://h/api/v1/items/batch");
    assert_eq!(bearer("ck_1"), "Bearer ck_1");
}

fn entry(title: &str, page: i32, level: Option<i32>) -> TocEntry {
    TocEntry { title: title.to_string(), page, level }
}

#[test]
fn tables_of_contents_are_checked() {
    assert!(validate_toc(&vec![]).is_ok());
    assert!(validate_toc(&vec![entry("One", 1, Some(1)), entry("Two", 5, None)]).is_ok());
    assert_eq!(validate_toc(&vec![entry("One", 1, None), entry("  ", 2, None)]), Err(TocError::EmptyTitle));
    assert_eq!(validate_toc(&vec![entry("One", 0, None)]), Err(TocError::PageBelowOne));
    assert_eq!(validate_toc(&vec![entry("One", 3, Some(0))]), Err(TocError::LevelBelowOne));
    assert_eq!(
        validate_toc(&vec![entry("A", 0, None), entry("", 1, None)]),
        Err(TocError::PageBelowOne)
    );
    assert_eq!(TocError::PageBelowOne.message(), "TOC entry page must be >= 1");
}

#[test]
fn enrichment_needs_a_change() {
    assert!(!enrich_has_changes(false, false, false, false));
    assert!(enrich_has_changes(false, true, false, false));
}

#[test]
fn confirmations_in_any_case() {
    assert!(is_confirmation("y"));
    assert!(is_confirmation(" YES\n"));
    assert!(is_confirmation("Y"));
    assert!(!is_confirmation("no"));
    assert!(!is_confirmation(""));
    assert!(!is_confirmation("yess"));
}

#[test]
fn content_must_not_be_blank() {
    assert!(!has_content(" \n\t"));
    assert!(has_content(" x "));
}

#[test]
fn statuses_are_coloured_by_meaning() {
    assert_eq!(status_style("READY"), StatusStyle::Green);
    assert_eq!(status_style("ready"), StatusStyle::Plain);
    assert_eq!(status_style("FAILED"), StatusStyle::Red);
    colored::control::set_override(true);
    assert_eq!(format_status("ready"), "\u{1b}[32mready\u{1b}[0m");
    assert_eq!(format_status("Draft"), "\u{1b}[33mDraft\u{1b}[0m");
    assert_eq!(format_status("processing"), "\u{1b}[36mprocessing\u{1b}[0m");
    assert_eq!(format_status("FAILED"), "\u{1b}[31mFAILED\u{1b}[0m");
    assert_eq!(format_status("archived"), "archived");
    colored::control::set_override(false);
    assert_eq!(format_status("ready"), "ready");
}
