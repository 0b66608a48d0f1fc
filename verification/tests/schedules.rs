use site_crawler::crawler::{perform, Crawler};
use site_crawler::page::{CrawlReport, FetchError};
use site_crawler::worker::{Action, Event};

fn page_of(url: &str) -> Result<String, FetchError> {
    if url.ends_with("/c") {
        Err(FetchError { message: "gone".to_string() })
    } else {
        Ok(url.to_string())
    }
}

fn links_of_site(content: &str, _scope: &str) -> Vec<String> {
    match content {
        "https://x/a" => vec!["https://x/b".to_string(), "https://x/c".to_string()],
        "https://x/b" => vec!["https://x/a".to_string(), "https://x/d".to_string()],
        _ => Vec::new(),
    }
}

fn hundred_new_links(content: &str, _scope: &str) -> Vec<String> {
    let mut links = Vec::new();
    for i in 0..100 {
        links.push(format!("{}/{}", content, i));
    }
    links
}

/// Runs the workers of `crawler` in the order that `seed` gives: at each
/// moment one worker that has not stopped is picked to take its next step.
fn run_in_some_order(
    crawler: &Crawler,
    seed: u64,
    extract: fn(&str, &str) -> Vec<String>,
    budget: usize,
) -> CrawlReport {
    let mut pool = crawler.pool().unwrap();
    let workers = pool.worker_count();
    let mut inbox: Vec<Option<Event>> = (0..workers).map(|_| Some(Event::Wake)).collect();
    let mut state = seed;
    let mut steps = 0u64;
    while !pool.all_stopped() {
        state = state.wrapping_mul(6364136223846793005).wrapping_add(1442695040888963407);
        let id = ((state >> 33) as usize) % workers;
        if pool.is_stopped(id) {
            continue;
        }
        let event = inbox[id].take().unwrap();
        let answer = pool.step(id, event).unwrap();
        if let Action::Stop = answer {
            assert!(pool.is_stopped(id));
        }
        inbox[id] = Some(perform(answer, &page_of, &extract));
        assert!(pool.pages_crawled() <= budget);
        steps += 1;
        assert!(steps < 1_000_000);
    }
    pool.report().unwrap()
}

#[test]
fn every_order_of_steps_crawls_the_four_pages() {
    for seed in 0..200u64 {
        for workers in 1..=5usize {
            let crawler = Crawler::new("https://x/a".to_string(), 10, workers);
            let report = run_in_some_order(&crawler, seed, links_of_site, 10);
            assert_eq!(report.pages_crawled, 4);
            assert_eq!(report.results.len(), 4);
            let mut urls: Vec<String> =
                report.results.iter().map(|page| page.url.clone()).collect();
            urls.sort();
            assert_eq!(urls, vec!["https://x/a", "https://x/b", "https://x/c", "https://x/d"]);
            for page in &report.results {
                assert_eq!(page.success, page.url != "https://x/c");
                if page.url == "https://x/c" {
                    assert_eq!(page.links_found, 0);
                }
            }
        }
    }
}

#[test]
fn every_order_of_steps_meets_the_budget_exactly() {
    for seed in 0..100u64 {
        let crawler = Crawler::new("https://x".to_string(), 5, 8);
        let report = run_in_some_order(&crawler, seed, hundred_new_links, 5);
        assert_eq!(report.pages_crawled, 5);
        assert_eq!(report.results.len(), 5);
        let mut urls: Vec<String> = report.results.iter().map(|page| page.url.clone()).collect();
        urls.sort();
        urls.dedup();
        assert_eq!(urls.len(), 5);
    }
}

#[test]
fn every_order_of_steps_ends_after_one_page_without_links() {
    fn no_links(_content: &str, _scope: &str) -> Vec<String> {
        Vec::new()
    }
    for seed in 0..100u64 {
        for workers in 1..=6usize {
            let crawler = Crawler::new("https://x/a".to_string(), 7, workers);
            let report = run_in_some_order(&crawler, seed, no_links, 7);
            assert_eq!(report.pages_crawled, 1);
            assert_eq!(report.results.len(), 1);
        }
    }
}
