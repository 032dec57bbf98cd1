use steamfetch::error::SteamApiError;
use steamfetch::retry::HttpEvent;
use steamfetch::retry::RetryEngine;
use steamfetch::retry::RetryStep;

#[test]
fn retryable_run_makes_three_attempts_with_two_sleeps() {
    let mut engine = RetryEngine::new();
    assert!(engine.can_attempt());

    let step1 = engine.on_event(HttpEvent::TimedOut);
    assert!(matches!(step1, RetryStep::RetryAfter(500)));
    assert!(engine.can_attempt());

    let step2 = engine.on_event(HttpEvent::TimedOut);
    assert!(matches!(step2, RetryStep::RetryAfter(1000)));
    assert!(engine.can_attempt());

    let step3 = engine.on_event(HttpEvent::TimedOut);
    assert!(matches!(step3, RetryStep::Fail(SteamApiError::Timeout)));
    assert!(!engine.can_attempt());
    assert_eq!(engine.attempts_made, 3);
}

#[test]
fn forbidden_fails_on_first_attempt() {
    let mut engine = RetryEngine::new();
    let step = engine.on_event(HttpEvent::Response {
        status: 403,
        body: "whatever".to_string(),
    });
    assert!(matches!(step, RetryStep::Fail(SteamApiError::InvalidApiKey)));
    assert_eq!(engine.attempts_made, 1);
}

#[test]
fn rate_limit_consumes_a_retry() {
    let mut engine = RetryEngine::new();
    let step = engine.on_event(HttpEvent::Response {
        status: 429,
        body: String::new(),
    });
    assert!(matches!(step, RetryStep::RetryAfter(500)));
    let step = engine.on_event(HttpEvent::Response {
        status: 429,
        body: String::new(),
    });
    assert!(matches!(step, RetryStep::RetryAfter(1000)));
    let step = engine.on_event(HttpEvent::Response {
        status: 429,
        body: String::new(),
    });
    assert!(matches!(step, RetryStep::Fail(SteamApiError::RateLimited)));
}

#[test]
fn server_error_is_classified_with_status_and_body() {
    let mut engine = RetryEngine::new();
    let step = engine.on_event(HttpEvent::Response {
        status: 503,
        body: "overloaded".to_string(),
    });
    assert!(matches!(step, RetryStep::RetryAfter(500)));
    let step = engine.on_event(HttpEvent::TimedOut);
    assert!(matches!(step, RetryStep::RetryAfter(1000)));
    let step = engine.on_event(HttpEvent::Response {
        status: 500,
        body: "boom".to_string(),
    });
    match step {
        RetryStep::Fail(SteamApiError::ApiError { status, message }) => {
            assert_eq!(status, 500);
            assert_eq!(message, "boom");
        }
        other => panic!("expected a server error, got {:?}", other),
    }
}

#[test]
fn success_returns_body_as_is() {
    let mut engine = RetryEngine::new();
    let step = engine.on_event(HttpEvent::Response {
        status: 200,
        body: "{\"ok\":true}".to_string(),
    });
    match step {
        RetryStep::Success(body) => assert_eq!(body, "{\"ok\":true}"),
        other => panic!("expected success, got {:?}", other),
    }
    assert_eq!(engine.attempts_made, 1);
}

#[test]
fn success_after_one_retry() {
    let mut engine = RetryEngine::new();
    let step = engine.on_event(HttpEvent::Failed("connection reset".to_string()));
    assert!(matches!(step, RetryStep::RetryAfter(500)));
    let step = engine.on_event(HttpEvent::Response {
        status: 200,
        body: "fine".to_string(),
    });
    assert!(matches!(step, RetryStep::Success(_)));
    assert_eq!(engine.attempts_made, 2);
}

#[test]
fn transport_failure_keeps_its_message() {
    let mut engine = RetryEngine::new();
    engine.on_event(HttpEvent::Failed("dns failure".to_string()));
    engine.on_event(HttpEvent::TimedOut);
    let step = engine.on_event(HttpEvent::Failed("dns failure again".to_string()));
    match step {
        RetryStep::Fail(SteamApiError::NetworkError(msg)) => {
            assert_eq!(msg, "dns failure again");
        }
        other => panic!("expected a network error, got {:?}", other),
    }
}

#[test]
fn retryability_follows_the_taxonomy() {
    assert!(SteamApiError::RateLimited.is_retryable());
    assert!(SteamApiError::Timeout.is_retryable());
    assert!(SteamApiError::NetworkError("x".to_string()).is_retryable());
    assert!(SteamApiError::ApiError { status: 503, message: String::new() }.is_retryable());
    assert!(!SteamApiError::ApiError { status: 404, message: String::new() }.is_retryable());
    assert!(!SteamApiError::PrivateProfile.is_retryable());
    assert!(!SteamApiError::InvalidApiKey.is_retryable());
    assert!(!SteamApiError::PlayerNotFound.is_retryable());
}
