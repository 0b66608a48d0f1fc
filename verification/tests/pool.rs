use site_crawler::crawler::perform;
use site_crawler::frontier::Frontier;
use site_crawler::page::{FetchError, PageResult};
use site_crawler::pool::Pool;
use site_crawler::results::ResultAggregator;
use site_crawler::visited::VisitedSet;
use site_crawler::worker::{Action, Event, StepError};

#[test]
fn a_url_is_claimed_once() {
    let mut visited = VisitedSet::new(10);
    assert!(visited.try_claim("https://x/a"));
    assert!(!visited.try_claim("https://x/a"));
    assert!(!visited.try_claim("https://x/a"));
    assert!(visited.try_claim("https://x/b"));
    assert!(!visited.try_claim("https://x/a"));
    assert!(!visited.try_claim("https://x/b"));
    assert_eq!(visited.len(), 2);
    assert!(visited.contains("https://x/a"));
    assert!(!visited.contains("https://x/c"));
}

#[test]
fn a_full_set_refuses_new_urls() {
    let mut visited = VisitedSet::new(2);
    assert!(!visited.is_full());
    assert!(visited.try_claim("a"));
    assert!(visited.try_claim("b"));
    assert!(visited.is_full());
    assert!(!visited.try_claim("c"));
    assert!(!visited.try_claim("a"));
    assert_eq!(visited.len(), 2);
    assert!(!visited.contains("c"));
}

#[test]
fn a_set_without_budget_claims_nothing() {
    let mut visited = VisitedSet::new(0);
    assert!(visited.is_full());
    assert!(!visited.try_claim("a"));
    assert_eq!(visited.len(), 0);
}

#[test]
fn urls_are_told_apart_by_their_exact_text() {
    let mut visited = VisitedSet::new(10);
    assert!(visited.try_claim("https://x/a"));
    assert!(visited.try_claim("https://x/a/"));
    assert!(visited.try_claim("HTTPS://x/a"));
    assert_eq!(visited.len(), 3);
}

#[test]
fn the_frontier_is_first_in_first_out_and_keeps_duplicates() {
    let mut frontier = Frontier::new();
    assert!(frontier.is_empty());
    assert_eq!(frontier.pop(), None);
    frontier.push("a".to_string());
    frontier.push("b".to_string());
    frontier.push("a".to_string());
    frontier.extend(&vec!["c".to_string(), "d".to_string()]);
    assert_eq!(frontier.len(), 5);
    assert_eq!(frontier.pop(), Some("a".to_string()));
    assert_eq!(frontier.pop(), Some("b".to_string()));
    assert_eq!(frontier.pop(), Some("a".to_string()));
    assert_eq!(frontier.pop(), Some("c".to_string()));
    assert_eq!(frontier.pop(), Some("d".to_string()));
    assert_eq!(frontier.pop(), None);
    assert!(frontier.is_empty());
}

#[test]
fn results_are_kept_in_the_order_of_recording() {
    let mut results = ResultAggregator::new();
    assert_eq!(results.len(), 0);
    results.record(PageResult::fetched("a".to_string(), 3));
    results.record(PageResult::failed("b".to_string()));
    let pages = results.snapshot();
    assert_eq!(results.len(), 2);
    assert_eq!(pages.len(), 2);
    assert_eq!(pages[0].url, "a");
    assert_eq!(pages[0].links_found, 3);
    assert!(pages[0].success);
    assert_eq!(pages[1].url, "b");
    assert_eq!(pages[1].links_found, 0);
    assert!(!pages[1].success);
}

fn fetch_url(action: Action) -> String {
    match action {
        Action::Fetch { url } => url,
        other => panic!("expected a fetch, got {:?}", other),
    }
}

#[test]
fn a_worker_waits_while_another_is_in_flight() {
    let mut pool = Pool::new("https://x/a".to_string(), 10, 2);
    assert_eq!(pool.worker_count(), 2);
    let url = fetch_url(pool.step(0, Event::Wake).unwrap());
    assert_eq!(url, "https://x/a");
    assert_eq!(pool.pages_crawled(), 1);
    // The frontier is empty, but worker 0 may still add to it.
    assert!(matches!(pool.step(1, Event::Wake), Ok(Action::Backoff)));
    assert!(!pool.is_stopped(1));
    match pool.step(0, Event::Fetched(Ok("<a>".to_string()))).unwrap() {
        Action::Extract { content, scope } => {
            assert_eq!(content, "<a>");
            assert_eq!(scope, "https://x/a");
        }
        other => panic!("expected an extraction, got {:?}", other),
    }
    assert!(matches!(pool.step(1, Event::Wake), Ok(Action::Backoff)));
    assert!(matches!(
        pool.step(0, Event::Extracted(vec!["https://x/b".to_string()])),
        Ok(Action::Continue)
    ));
    // Worker 1 finds what worker 0 added.
    assert_eq!(fetch_url(pool.step(1, Event::Wake).unwrap()), "https://x/b");
    assert!(pool.report().is_none());
    assert!(matches!(pool.step(0, Event::Wake), Ok(Action::Continue)));
    // Worker 0 polls an empty frontier while worker 1 is in flight.
    assert!(matches!(pool.step(0, Event::Wake), Ok(Action::Backoff)));
    let failure = Err(FetchError { message: "timeout".to_string() });
    assert!(matches!(pool.step(1, Event::Fetched(failure)), Ok(Action::Continue)));
    assert!(matches!(pool.step(0, Event::Wake), Ok(Action::Backoff)));
    assert!(matches!(pool.step(1, Event::Wake), Ok(Action::Continue)));
    assert!(!pool.all_stopped());
    assert!(matches!(pool.step(0, Event::Wake), Ok(Action::Stop)));
    assert!(pool.is_stopped(0));
    assert!(pool.report().is_none());
    assert!(matches!(pool.step(1, Event::Wake), Ok(Action::Stop)));
    assert!(pool.all_stopped());
    let report = pool.report().unwrap();
    assert_eq!(report.pages_crawled, 2);
    assert_eq!(report.results.len(), 2);
    assert_eq!(report.results[0].url, "https://x/a");
    assert!(report.results[0].success);
    assert_eq!(report.results[0].links_found, 1);
    assert_eq!(report.results[1].url, "https://x/b");
    assert!(!report.results[1].success);
    assert_eq!(report.results[1].links_found, 0);
}

#[test]
fn a_stopped_worker_stays_stopped() {
    let mut pool = Pool::new("a".to_string(), 1, 1);
    fetch_url(pool.step(0, Event::Wake).unwrap());
    pool.step(0, Event::Fetched(Ok("page".to_string()))).unwrap();
    pool.step(0, Event::Extracted(vec!["b".to_string(), "c".to_string()])).unwrap();
    pool.step(0, Event::Wake).unwrap();
    // The budget is used up although the frontier is not empty.
    assert!(matches!(pool.step(0, Event::Wake), Ok(Action::Stop)));
    assert!(matches!(pool.step(0, Event::Wake), Ok(Action::Stop)));
    assert!(pool.is_stopped(0));
    assert_eq!(pool.pages_crawled(), 1);
    let report = pool.report().unwrap();
    assert_eq!(report.pages_crawled, 1);
    assert_eq!(report.results[0].links_found, 2);
}

#[test]
fn a_worker_stops_on_a_used_up_budget_while_others_are_in_flight() {
    let mut pool = Pool::new("a".to_string(), 1, 2);
    fetch_url(pool.step(0, Event::Wake).unwrap());
    assert!(matches!(pool.step(1, Event::Wake), Ok(Action::Stop)));
    assert!(pool.is_stopped(1));
    assert!(!pool.all_stopped());
    assert!(pool.report().is_none());
    pool.step(0, Event::Fetched(Ok("page".to_string()))).unwrap();
    pool.step(0, Event::Extracted(Vec::new())).unwrap();
    pool.step(0, Event::Wake).unwrap();
    assert!(matches!(pool.step(0, Event::Wake), Ok(Action::Stop)));
    let report = pool.report().unwrap();
    assert_eq!(report.pages_crawled, 1);
    assert_eq!(report.results.len(), 1);
}

#[test]
fn a_duplicate_is_discarded_without_a_result() {
    let mut pool = Pool::new("a".to_string(), 5, 1);
    fetch_url(pool.step(0, Event::Wake).unwrap());
    pool.step(0, Event::Fetched(Ok("page".to_string()))).unwrap();
    pool.step(0, Event::Extracted(vec!["a".to_string(), "b".to_string()])).unwrap();
    pool.step(0, Event::Wake).unwrap();
    assert!(matches!(pool.step(0, Event::Wake), Ok(Action::Continue)));
    assert_eq!(pool.pages_crawled(), 1);
    assert_eq!(fetch_url(pool.step(0, Event::Wake).unwrap()), "b");
    assert_eq!(pool.pages_crawled(), 2);
}

#[test]
fn a_step_out_of_turn_is_refused_and_changes_nothing() {
    let mut pool = Pool::new("a".to_string(), 5, 1);
    assert!(matches!(pool.step(1, Event::Wake), Err(StepError::UnknownWorker)));
    assert!(matches!(
        pool.step(0, Event::Extracted(Vec::new())),
        Err(StepError::UnexpectedEvent)
    ));
    assert!(matches!(
        pool.step(0, Event::Fetched(Ok("page".to_string()))),
        Err(StepError::UnexpectedEvent)
    ));
    assert_eq!(pool.pages_crawled(), 0);
    assert_eq!(fetch_url(pool.step(0, Event::Wake).unwrap()), "a");
    assert!(matches!(pool.step(0, Event::Wake), Err(StepError::UnexpectedEvent)));
    assert!(matches!(
        pool.step(0, Event::Extracted(Vec::new())),
        Err(StepError::UnexpectedEvent)
    ));
    assert_eq!(pool.pages_crawled(), 1);
    assert!(matches!(
        pool.step(0, Event::Fetched(Ok("page".to_string()))),
        Ok(Action::Extract { .. })
    ));
    assert!(matches!(pool.step(0, Event::Wake), Err(StepError::UnexpectedEvent)));
}

#[test]
fn a_pool_without_budget_stops_at_once() {
    let mut pool = Pool::new("a".to_string(), 0, 1);
    assert!(matches!(pool.step(0, Event::Wake), Ok(Action::Stop)));
    let report = pool.report().unwrap();
    assert_eq!(report.pages_crawled, 0);
    assert!(report.results.is_empty());
}

#[test]
fn a_pool_without_workers_has_an_empty_report() {
    let pool = Pool::new("a".to_string(), 3, 0);
    assert!(pool.all_stopped());
    assert!(!pool.is_stopped(0));
    let report = pool.report().unwrap();
    assert_eq!(report.pages_crawled, 0);
    assert!(report.results.is_empty());
}

#[test]
fn an_action_is_performed_by_the_fetcher_or_the_extractor() {
    let fetch = |url: &str| -> Result<String, FetchError> { Ok(format!("page of {}", url)) };
    let extract = |content: &str, scope: &str| vec![format!("{}|{}", content, scope)];
    match perform(Action::Fetch { url: "a".to_string() }, &fetch, &extract) {
        Event::Fetched(Ok(content)) => assert_eq!(content, "page of a"),
        other => panic!("unexpected {:?}", other),
    }
    let action = Action::Extract { content: "c".to_string(), scope: "s".to_string() };
    match perform(action, &fetch, &extract) {
        Event::Extracted(links) => assert_eq!(links, vec!["c|s".to_string()]),
        other => panic!("unexpected {:?}", other),
    }
    assert!(matches!(perform(Action::Continue, &fetch, &extract), Event::Wake));
    assert!(matches!(perform(Action::Backoff, &fetch, &extract), Event::Wake));
    assert!(matches!(perform(Action::Stop, &fetch, &extract), Event::Wake));
}
