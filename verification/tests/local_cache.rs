use onemorebeer_ui::config::Config;
use onemorebeer_ui::header::{header_value_to_str, is_success};
use onemorebeer_ui::middleware::{
    HandleAction, HandleEvent, HandleState, LocalCacheMiddleware, MiddlewareError,
};

fn config() -> Config {
    Config { listen_on: 1, cache_dir: "cache".to_string() }
}

#[test]
fn header_text() {
    assert_eq!(header_value_to_str(b"beer-1"), Some("beer-1".to_string()));
    assert_eq!(header_value_to_str(b"a\tb"), Some("a\tb".to_string()));
    assert_eq!(header_value_to_str(b""), Some(String::new()));
    assert_eq!(header_value_to_str(&[0x61, 0x7f]), None);
    assert_eq!(header_value_to_str(&[0x61, 0x0a]), None);
    assert_eq!(header_value_to_str("ż".as_bytes()), None);
}

#[test]
fn success_class() {
    assert!(is_success(200));
    assert!(is_success(299));
    assert!(!is_success(199));
    assert!(!is_success(300));
    assert!(!is_success(429));
}

#[test]
fn request_without_key_fails() {
    let m = LocalCacheMiddleware::new("untappd");
    let (s, a) = m.step(&config(), HandleState::Start, HandleEvent::Received { cache_key_header: None });
    assert!(matches!(s, HandleState::Finished));
    assert!(matches!(a, HandleAction::Fail { error: MiddlewareError::NoCacheKey }));
    let (_, a) = m.step(
        &config(),
        HandleState::Start,
        HandleEvent::Received { cache_key_header: Some(vec![0xc5, 0xbc]) },
    );
    assert!(matches!(a, HandleAction::Fail { error: MiddlewareError::NonUtf8CacheKey }));
}

#[test]
fn cache_hit_is_served_without_upstream() {
    let m = LocalCacheMiddleware::new("onemorebeer");
    let (s, a) = m.step(
        &config(),
        HandleState::Start,
        HandleEvent::Received { cache_key_header: Some(b"beer-2".to_vec()) },
    );
    match &a {
        HandleAction::ReadCache { path } => assert_eq!(path, "cache/onemorebeer/beer-2"),
        other => panic!("unexpected {:?}", other),
    }
    let (s, a) = m.step(&config(), s, HandleEvent::CacheRead { contents: Some("{}".to_string()) });
    assert!(matches!(s, HandleState::Finished));
    match a {
        HandleAction::ReplyFromCache { body } => assert_eq!(body, "{}"),
        other => panic!("unexpected {:?}", other),
    }
}

#[test]
fn successful_answer_is_stored_where_it_was_looked_up() {
    let m = LocalCacheMiddleware::new("untappd");
    let (s, a) = m.step(
        &config(),
        HandleState::Start,
        HandleEvent::Received { cache_key_header: Some(b"porter".to_vec()) },
    );
    let read_path = match a {
        HandleAction::ReadCache { path } => path,
        other => panic!("unexpected {:?}", other),
    };
    let (s, a) = m.step(&config(), s, HandleEvent::CacheRead { contents: None });
    assert!(matches!(a, HandleAction::Forward));
    let (s, a) = m.step(&config(), s, HandleEvent::UpstreamReplied { status: 200 });
    assert!(matches!(s, HandleState::Finished));
    match a {
        HandleAction::StoreAndReply { dir, path } => {
            assert_eq!(dir, "cache/untappd");
            assert_eq!(path, read_path);
        }
        other => panic!("unexpected {:?}", other),
    }
}

#[test]
fn failed_answer_is_not_stored() {
    let m = LocalCacheMiddleware::new("untappd");
    let state = HandleState::Forwarded { cache_key: "porter".to_string() };
    let (_, a) = m.step(&config(), state, HandleEvent::UpstreamReplied { status: 429 });
    assert!(matches!(a, HandleAction::Reply));
}

#[test]
fn events_out_of_order_fail() {
    let m = LocalCacheMiddleware::new("untappd");
    let (s, a) = m.step(&config(), HandleState::Start, HandleEvent::UpstreamReplied { status: 200 });
    assert!(matches!(s, HandleState::Finished));
    assert!(matches!(a, HandleAction::Fail { error: MiddlewareError::OutOfOrder }));
    let (_, a) = m.step(&config(), HandleState::Finished, HandleEvent::CacheRead { contents: None });
    assert!(matches!(a, HandleAction::Fail { error: MiddlewareError::OutOfOrder }));
}
