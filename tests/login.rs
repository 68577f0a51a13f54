use candlekeep::login::{
    callback_url, decimal_string, extract_callback_key, login_step, manual_key, start_login,
    LoginAction, LoginError, LoginEvent, LoginState,
};

#[test]
fn callback_key_from_request_line() {
    assert_eq!(
        extract_callback_key("GET /callback?key=ck_abc123 HTTP/1.1\r\n"),
        Some("ck_abc123".to_string())
    );
    assert_eq!(extract_callback_key("  GET   /callback?key=k  "), Some("k".to_string()));
    assert_eq!(extract_callback_key("GET /callback?key= HTTP/1.1"), Some(String::new()));
}

#[test]
fn malformed_callbacks_give_nothing() {
    assert_eq!(extract_callback_key("GET /other?key=x HTTP/1.1"), None);
    assert_eq!(extract_callback_key("GET"), None);
    assert_eq!(extract_callback_key(""), None);
    assert_eq!(extract_callback_key("GET /callback HTTP/1.1"), None);
}

#[test]
fn callback_url_names_the_port() {
    assert_eq!(
        callback_url("https://www.getcandlekeep.com", 54321),
        "https://www.getcandlekeep.com/cli-auth?port=54321"
    );
    assert_eq!(decimal_string(0), "0");
    assert_eq!(decimal_string(9), "9");
    assert_eq!(decimal_string(10), "10");
    assert_eq!(decimal_string(65535), "65535");
}

#[test]
fn manual_key_is_trimmed() {
    assert_eq!(manual_key("  ck_1 \n"), Some("ck_1".to_string()));
    assert_eq!(manual_key(" \n"), None);
    assert_eq!(manual_key(""), None);
}

#[test]
fn already_authenticated_does_nothing() {
    let state = start_login("https://x".to_string());
    let (state, action) = login_step(state, LoginEvent::Begin { authenticated: true });
    assert!(matches!(action, LoginAction::AlreadyLoggedIn));
    assert!(matches!(state, LoginState::Done));
    let (_, action) = login_step(state, LoginEvent::Bound { port: 1 });
    assert!(matches!(action, LoginAction::Ignore));
}

#[test]
fn browser_login_validates_then_persists() {
    let state = start_login("https://x".to_string());
    let (state, action) = login_step(state, LoginEvent::Begin { authenticated: false });
    assert!(matches!(action, LoginAction::Bind));
    let (state, action) = login_step(state, LoginEvent::Bound { port: 4000 });
    match action {
        LoginAction::AwaitCallback { url } => assert_eq!(url, "https://x/cli-auth?port=4000"),
        _ => panic!("expected to await the callback"),
    }
    let line = "GET /callback?key=ck_browser HTTP/1.1".to_string();
    let (state, action) = login_step(state, LoginEvent::CallbackLine(line));
    match action {
        LoginAction::RespondAndValidate { key } => assert_eq!(key, "ck_browser"),
        _ => panic!("expected to validate"),
    }
    // A second connection is never taken up.
    let second = "GET /callback?key=ck_other HTTP/1.1".to_string();
    let (state, action) = login_step(state, LoginEvent::CallbackLine(second));
    assert!(matches!(action, LoginAction::Ignore));
    let (state, action) = login_step(state, LoginEvent::Validated);
    match action {
        LoginAction::Persist { key } => assert_eq!(key, "ck_browser"),
        _ => panic!("expected to persist"),
    }
    assert!(matches!(state, LoginState::Done));
}

#[test]
fn malformed_callback_falls_back_to_manual() {
    let state = start_login("https://x".to_string());
    let (state, _) = login_step(state, LoginEvent::Begin { authenticated: false });
    let (state, _) = login_step(state, LoginEvent::Bound { port: 4000 });
    let (state, action) = login_step(state, LoginEvent::CallbackLine("garbage".to_string()));
    match action {
        LoginAction::PromptManual { api_url } => assert_eq!(api_url, "https://x"),
        _ => panic!("expected the manual prompt"),
    }
    let (state, action) = login_step(state, LoginEvent::ManualInput(" ck_browser \n".to_string()));
    match action {
        LoginAction::Validate { key } => assert_eq!(key, "ck_browser"),
        _ => panic!("expected to validate"),
    }
    let (_, action) = login_step(state, LoginEvent::Validated);
    match action {
        LoginAction::Persist { key } => assert_eq!(key, "ck_browser"),
        _ => panic!("expected to persist"),
    }
}

#[test]
fn bind_failure_falls_back_to_manual() {
    let state = start_login("https://x".to_string());
    let (state, _) = login_step(state, LoginEvent::Begin { authenticated: false });
    let (state, action) = login_step(state, LoginEvent::BindFailed);
    assert!(matches!(action, LoginAction::PromptManual { .. }));
    let (state, action) = login_step(state, LoginEvent::ManualInput("   ".to_string()));
    assert!(matches!(action, LoginAction::Fail(LoginError::NoKeyProvided)));
    assert!(matches!(state, LoginState::Failed));
}

#[test]
fn rejected_credential_is_not_persisted() {
    let state = start_login("https://x".to_string());
    let (state, _) = login_step(state, LoginEvent::Begin { authenticated: false });
    let (state, _) = login_step(state, LoginEvent::Bound { port: 1 });
    let (state, _) = login_step(state, LoginEvent::CallbackFailed);
    let (state, _) = login_step(state, LoginEvent::ManualInput("ck_bad".to_string()));
    let (state, action) = login_step(state, LoginEvent::Rejected);
    assert!(matches!(action, LoginAction::Fail(LoginError::CredentialInvalid)));
    let (_, action) = login_step(state, LoginEvent::Validated);
    assert!(matches!(action, LoginAction::Ignore));
}
