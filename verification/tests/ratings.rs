use onemorebeer_ui::beer::{Beer, PackedAs};
use onemorebeer_ui::untappd::{
    cache_key, Client, LoadAction, LoadEvent, RatingPattern, Repository, UntappdError,
    ValueOrRetryAfter,
};
use onemorebeer_ui::untappd::ValueOrRetryAfter::{RetryAfter, Value};

fn beer(url: &str) -> Beer {
    Beer {
        name: "Porter".to_string(),
        style: "Porter".to_string(),
        abv: None,
        url: url.to_string(),
        manufacturer: "Browar".to_string(),
        packed_as: PackedAs::Bottle,
        untappd_score: None,
    }
}

#[test]
fn search_cache_key() {
    assert_eq!(cache_key(&beer("/porter-baltycki")), "porter-baltycki");
    assert_eq!(cache_key(&beer("/")), "");
}

#[test]
fn rate_limit_decisions() {
    assert!(matches!(Client::rate_limit(200, None), Ok(ValueOrRetryAfter::Value(()))));
    assert!(matches!(Client::rate_limit(404, Some(b"x".to_vec())), Ok(ValueOrRetryAfter::Value(()))));
    assert!(matches!(Client::rate_limit(429, Some(b"30".to_vec())), Ok(ValueOrRetryAfter::RetryAfter(30))));
    assert!(matches!(Client::rate_limit(429, Some(b"+5".to_vec())), Ok(ValueOrRetryAfter::RetryAfter(5))));
    assert!(matches!(Client::rate_limit(429, None), Err(UntappdError::NoRetryAfter)));
    assert!(matches!(
        Client::rate_limit(429, Some(vec![0x33, 0x80])),
        Err(UntappdError::NonUtf8RetryAfter)
    ));
    assert!(matches!(
        Client::rate_limit(429, Some(b"soon".to_vec())),
        Err(UntappdError::NonNumericRetryAfter)
    ));
    assert!(matches!(
        Client::rate_limit(429, Some(b"\t30".to_vec())),
        Err(UntappdError::NonNumericRetryAfter)
    ));
}

#[test]
fn rating_is_read_from_page() {
    let p = RatingPattern::new().unwrap();
    assert_eq!(p.rating(r#"<div class="caps" data-rating="3.85"></div>"#).as_deref(), Some("3.85"));
    assert_eq!(p.rating("<div>no rating</div>"), None);
    assert_eq!(
        p.rating("<a data-rating=\"3.1\">\n<b data-rating=\"4.2\">").as_deref(),
        Some("3.1")
    );
    assert_eq!(
        p.rating(r#"<span data-rating="3.5" title="x">"#).as_deref(),
        Some(r#"3.5" title="x"#)
    );
}

#[test]
fn search_outcome_applies_to_beer() {
    let p = RatingPattern::new().unwrap();
    let mut b = beer("/x");
    let r = Repository::apply_search(&mut b, ValueOrRetryAfter::RetryAfter(12), &p);
    assert!(matches!(r, ValueOrRetryAfter::RetryAfter(12)));
    assert_eq!(b.untappd_score, None);
    let page = r#"<div data-rating="4.01"></div>"#.to_string();
    let r = Repository::apply_search(&mut b, ValueOrRetryAfter::Value(page), &p);
    assert!(matches!(r, ValueOrRetryAfter::Value(())));
    assert_eq!(b.untappd_score.as_deref(), Some("4.01"));
    assert_eq!(b.name, "Porter");
    let r = Repository::apply_search(&mut b, ValueOrRetryAfter::Value("nothing".to_string()), &p);
    assert!(matches!(r, ValueOrRetryAfter::Value(())));
    assert_eq!(b.untappd_score, None);
}

#[test]
fn batch_waits_for_longest_retry() {
    assert!(matches!(Repository::combine(&vec![]), Value(())));
    assert!(matches!(Repository::combine(&vec![Value(()), Value(())]), Value(())));
    assert!(matches!(
        Repository::combine(&vec![Value(()), RetryAfter(5), RetryAfter(30), RetryAfter(7)]),
        RetryAfter(30)
    ));
    assert!(matches!(Repository::combine(&vec![RetryAfter(0)]), RetryAfter(0)));
}

#[test]
fn sleep_is_one_second_longer() {
    assert_eq!(Repository::sleep_seconds(0), 1);
    assert_eq!(Repository::sleep_seconds(59), 60);
}

#[test]
fn batches_are_loaded_in_order_with_retries() {
    assert_eq!(Repository::load_step(0, 0, LoadEvent::Started), (0, LoadAction::Done));
    assert_eq!(Repository::load_step(3, 0, LoadEvent::Started), (0, LoadAction::Search(0)));
    assert_eq!(
        Repository::load_step(3, 0, LoadEvent::BatchDone(Value(()))),
        (1, LoadAction::Search(1))
    );
    assert_eq!(
        Repository::load_step(3, 1, LoadEvent::BatchDone(RetryAfter(29))),
        (1, LoadAction::SleepThenSearch(30, 1))
    );
    assert_eq!(
        Repository::load_step(3, 2, LoadEvent::BatchDone(Value(()))),
        (3, LoadAction::Done)
    );
}
