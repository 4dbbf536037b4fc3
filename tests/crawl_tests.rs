use msrs::cache::ResponseCache;
use msrs::fetch::{FetchSession, FetchStep, MAX_ATTEMPTS, RETRY_DELAY_MS};
use msrs::models::ProductInfo;
use msrs::pipeline::{Pipeline, Stage, MAX_IN_FLIGHT};

fn s(x: &str) -> String {
    x.to_string()
}

#[test]
fn cache_records_and_overwrites() {
    let mut cache = ResponseCache::new();
    assert_eq!(cache.len(), 0);
    assert_eq!(cache.get("u"), None);
    cache.put(s("u"), None);
    assert_eq!(cache.get("u"), Some(None));
    cache.put(s("u"), Some(s("body")));
    assert_eq!(cache.get("u"), Some(Some(s("body"))));
    cache.put(s("v"), Some(s("other")));
    assert_eq!(cache.len(), 2);
    assert_eq!(cache.get("u"), Some(Some(s("body"))));
}

#[test]
fn second_fetch_is_served_from_cache() {
    let mut cache = ResponseCache::new();
    let (mut session, step) = FetchSession::start(s("https://x/a"), &cache);
    assert_eq!(step, FetchStep::Request);
    let step = session.on_attempt(&mut cache, Some(s("<html>a</html>")));
    assert_eq!(step, FetchStep::Ready(s("<html>a</html>")));
    let (_, again) = FetchSession::start(s("https://x/a"), &cache);
    assert_eq!(again, FetchStep::Ready(s("<html>a</html>")));
    let (_, other) = FetchSession::start(s("https://x/b"), &cache);
    assert_eq!(other, FetchStep::Request);
}

#[test]
fn retries_then_gives_up() {
    let mut cache = ResponseCache::new();
    let (mut session, _) = FetchSession::start(s("u"), &cache);
    assert_eq!(MAX_ATTEMPTS, 3);
    assert_eq!(session.on_attempt(&mut cache, None), FetchStep::Wait(RETRY_DELAY_MS));
    assert_eq!(session.on_attempt(&mut cache, None), FetchStep::Wait(2000));
    assert_eq!(session.on_attempt(&mut cache, None), FetchStep::GiveUp);
    assert_eq!(session.attempts, 3);
    assert_eq!(cache.get("u"), Some(None));
    let (_, step) = FetchSession::start(s("u"), &cache);
    assert_eq!(step, FetchStep::Request);
}

#[test]
fn success_after_failure_is_kept() {
    let mut cache = ResponseCache::new();
    let (mut first, _) = FetchSession::start(s("u"), &cache);
    let (mut racing, _) = FetchSession::start(s("u"), &cache);
    assert_eq!(first.on_attempt(&mut cache, None), FetchStep::Wait(2000));
    assert_eq!(racing.on_attempt(&mut cache, Some(s("b"))), FetchStep::Ready(s("b")));
    assert_eq!(first.on_attempt(&mut cache, None), FetchStep::Ready(s("b")));
    assert_eq!(cache.get("u"), Some(Some(s("b"))));
}

fn record(id: &str) -> ProductInfo {
    ProductInfo {
        sku: s("S"),
        id: s(id),
        qualifier_a: String::new(),
        qualifier_b: String::new(),
        qualifier_c: String::new(),
        description: String::new(),
        requires_length: false,
        requires_width: false,
    }
}

#[test]
fn in_flight_never_exceeds_limit() {
    let mut p = Pipeline::with_limit(s("root"), 2);
    assert_eq!(p.next_task(), Some(s("root")));
    p.complete_links(Some(vec![s("a"), s("b"), s("c")]));
    assert!(p.stage_finished());
    p.advance();
    assert_eq!(p.stage(), Stage::Shapes);
    assert_eq!(p.next_task(), Some(s("a")));
    assert_eq!(p.next_task(), Some(s("b")));
    assert_eq!(p.in_flight(), 2);
    assert_eq!(p.next_task(), None);
    p.complete_links(None);
    assert_eq!(p.next_task(), Some(s("c")));
    assert_eq!(p.next_task(), None);
    assert!(!p.stage_finished());
    assert_eq!(Pipeline::new(s("r")).in_flight(), 0);
    assert_eq!(MAX_IN_FLIGHT, 50);
}

#[test]
fn frontier_has_no_repeats() {
    let mut p = Pipeline::new(s("root"));
    p.next_task();
    p.complete_links(Some(vec![s("x"), s("y"), s("x")]));
    p.advance();
    p.next_task();
    p.next_task();
    p.complete_links(Some(vec![s("m"), s("n")]));
    p.complete_links(Some(vec![s("n"), s("m"), s("o")]));
    p.advance();
    assert_eq!(p.stage(), Stage::Products);
    let mut f = p.frontier().clone();
    f.sort();
    assert_eq!(f, vec![s("m"), s("n"), s("o")]);
}

#[test]
fn stage_of_failures_gives_empty_frontier() {
    let mut p = Pipeline::new(s("root"));
    p.next_task();
    p.complete_links(Some(vec![s("a"), s("b")]));
    p.advance();
    p.next_task();
    p.next_task();
    p.complete_links(None);
    p.complete_links(None);
    assert!(p.stage_finished());
    p.advance();
    assert_eq!(p.stage(), Stage::Products);
    assert!(p.frontier().is_empty());
    assert!(p.stage_finished());
    p.advance();
    p.advance();
    assert!(p.is_done());
    assert!(p.products().is_empty());
}

#[test]
fn records_are_concatenated() {
    let mut p = Pipeline::new(s("root"));
    p.next_task();
    p.complete_links(Some(vec![s("m")]));
    p.advance();
    p.next_task();
    p.complete_links(Some(vec![s("sh")]));
    p.advance();
    p.next_task();
    p.complete_links(Some(vec![s("p1"), s("p2")]));
    p.advance();
    assert_eq!(p.stage(), Stage::Skus);
    assert_eq!(p.next_task(), Some(s("p1")));
    assert_eq!(p.next_task(), Some(s("p2")));
    p.complete_records(Some(vec![record("1"), record("2")]));
    p.complete_records(Some(vec![record("1")]));
    p.advance();
    assert!(p.is_done());
    assert!(p.frontier().is_empty());
    let ids: Vec<String> = p.products().iter().map(|r| r.id.clone()).collect();
    assert_eq!(ids, vec![s("1"), s("2"), s("1")]);
}
