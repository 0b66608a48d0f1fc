//! The crawl itself: a pool of workers run to completion against a fetcher
//! and a link extractor.

use crate::frontier::string_views;
use crate::laws::{
    lemma_all_stopped_complete, lemma_outcomes_are_reached, lemma_step_progress,
    lemma_tally_zero, lemma_without_links_one_page,
};
use crate::page::{page_urls, page_views, ConfigError, CrawlReport, FetchError, PageView};
use crate::pool::{answer_view, Pool};
use crate::protocol::{flight_weight, is_reached, less_work, links_to, PoolView};
use crate::worker::{Action, ActionView, Event, StepError, WorkerView};
use vstd::prelude::*;

verus! {

/// `fetch` may answer `outcome` when it is asked for `url`.
pub open spec fn fetch_gave<F: Fn(&str) -> Result<String, FetchError>>(
    fetch: F,
    url: Seq<char>,
    outcome: Result<String, FetchError>,
) -> bool {
    exists|asked: &str| #[trigger] call_ensures(fetch, (asked,), outcome) && asked@ == url
}

/// `fetch` may fail when it is asked for `url`.
pub open spec fn fetch_fails<F: Fn(&str) -> Result<String, FetchError>>(
    fetch: F,
    url: Seq<char>,
) -> bool {
    exists|outcome: Result<String, FetchError>| #[trigger]
        fetch_gave(fetch, url, outcome) && outcome is Err
}

/// `extract` may return `links` when it is given `content` and `scope`.
pub open spec fn extract_gave<X: Fn(&str, &str) -> Vec<String>>(
    extract: X,
    content: Seq<char>,
    scope: Seq<char>,
    links: Vec<String>,
) -> bool {
    exists|text: &str, within: &str| #[trigger]
        call_ensures(extract, (text, within), links) && text@ == content && within@ == scope
}

/// `fetch` may deliver for `url` a page of which `extract`, given `scope`,
/// may return `links`.
pub open spec fn page_yields<
    F: Fn(&str) -> Result<String, FetchError>,
    X: Fn(&str, &str) -> Vec<String>,
>(fetch: F, extract: X, scope: Seq<char>, url: Seq<char>, links: Seq<Seq<char>>) -> bool {
    exists|content: String, returned: Vec<String>| #[trigger]
        extract_gave(extract, content@, scope, returned) && fetch_gave(
            fetch,
            url,
            Ok::<String, FetchError>(content),
        ) && string_views(returned@) == links
}

/// `extract` never returns a link.
pub open spec fn finds_nothing<X: Fn(&str, &str) -> Vec<String>>(extract: X) -> bool {
    forall|content: &str, scope: &str, links: Vec<String>|
        call_ensures(extract, (content, scope), links) ==> links@.len() == 0
}

/// The URLs that a crawl from `base_url` came to know, where `found` holds
/// what the link extractor returned for each page: the base URL and every link.
pub open spec fn discovered_urls(base_url: Seq<char>, found: Map<Seq<char>, Seq<Seq<char>>>) -> Set<
    Seq<char>,
> {
    Set::new(|url: Seq<char>| url == base_url || links_to(found, url))
}

/// `results` are the outcomes of a complete crawl from `base_url` under
/// `budget`, where `found` holds what the link extractor returned for each
/// page that was fetched:
/// - an outcome is a success exactly for a page that `fetch` delivered and of
///   which `extract` returned the links in `found`, and it counts them; any
///   other outcome is of a page on which `fetch` failed, and counts none;
/// - every crawled URL is reached from the base URL by links of pages in
///   `found`;
/// - every crawled URL was discovered, and the number of crawled URLs is the
///   budget or the number of discovered URLs, whichever is smaller: short of
///   the budget, every discovered URL was crawled.
pub open spec fn is_complete_crawl<
    F: Fn(&str) -> Result<String, FetchError>,
    X: Fn(&str, &str) -> Vec<String>,
>(
    results: Seq<PageView>,
    found: Map<Seq<char>, Seq<Seq<char>>>,
    fetch: F,
    extract: X,
    base_url: Seq<char>,
    budget: nat,
) -> bool {
    &&& forall|i: int| 0 <= i < results.len() ==> (#[trigger] results[i]).agrees_with(found)
    &&& forall|i: int|
        0 <= i < results.len() && !(#[trigger] results[i]).success ==> fetch_fails(
            fetch,
            results[i].url,
        )
    &&& forall|url: Seq<char>| #[trigger]
        found.dom().contains(url) ==> page_urls(results).contains(url) && page_yields(
            fetch,
            extract,
            base_url,
            url,
            found[url],
        )
    &&& forall|i: int|
        0 <= i < results.len() ==> is_reached(base_url, found, (#[trigger] results[i]).url)
    &&& discovered_urls(base_url, found).finite()
    &&& page_urls(results).to_set().subset_of(discovered_urls(base_url, found))
    &&& results.len() == vstd::math::min(
        budget as int,
        discovered_urls(base_url, found).len() as int,
    )
}

/// The event in a worker's inbox answers what the worker in `state` was last
/// asked to do, and is what `fetch` or `extract` gave.
pub open spec fn reply_is_sound<
    F: Fn(&str) -> Result<String, FetchError>,
    X: Fn(&str, &str) -> Vec<String>,
>(fetch: F, extract: X, scope: Seq<char>, state: WorkerView, event: Event) -> bool {
    match state {
        WorkerView::Fetching { url } => event matches Event::Fetched(outcome) && fetch_gave(
            fetch,
            url,
            outcome,
        ),
        WorkerView::Extracting { url } => event matches Event::Extracted(links) && page_yields(
            fetch,
            extract,
            scope,
            url,
            string_views(links@),
        ),
        WorkerView::Recording { result } => event is Wake && (!result.success ==> fetch_fails(
            fetch,
            result.url,
        )),
        _ => event is Wake,
    }
}

/// Does what `action` asks for, with `fetch` as the fetcher and `extract` as
/// the link extractor, and returns the event to answer with. An action that
/// asks for neither is answered with `Event::Wake`; to wait on
/// `Action::Backoff` is left to the caller.
pub fn perform<F, X>(action: Action, fetch: &F, extract: &X) -> (event: Event) where
    F: Fn(&str) -> Result<String, FetchError>,
    X: Fn(&str, &str) -> Vec<String>,

    requires
        forall|url: &str| call_requires(*fetch, (url,)),
        forall|content: &str, scope: &str| call_requires(*extract, (content, scope)),
    ensures
        match action {
            Action::Fetch { url } => event matches Event::Fetched(outcome) && fetch_gave(
                *fetch,
                url@,
                outcome,
            ),
            Action::Extract { content, scope } => event matches Event::Extracted(links)
                && extract_gave(*extract, content@, scope@, links),
            _ => event is Wake,
        },
{
    match action {
        Action::Fetch { url } => {
            let asked = url.as_str();
            let outcome = fetch(asked);
            assert(call_ensures(*fetch, (asked,), outcome));
            Event::Fetched(outcome)
        },
        Action::Extract { content, scope } => {
            let text = content.as_str();
            let within = scope.as_str();
            let links = extract(text, within);
            assert(call_ensures(*extract, (text, within), links));
            Event::Extracted(links)
        },
        _ => Event::Wake,
    }
}

/// A crawl that is set up and not yet run.
pub struct Crawler {
    base_url: String,
    max_pages: usize,
    max_threads: usize,
}

impl Crawler {
    /// The URL the crawl starts from.
    pub closed spec fn base_url(&self) -> Seq<char> {
        self.base_url@
    }

    /// The cap on the number of pages.
    pub closed spec fn budget(&self) -> nat {
        self.max_pages as nat
    }

    /// The number of workers.
    pub closed spec fn worker_count(&self) -> nat {
        self.max_threads as nat
    }

    /// The error with which a crawl without a budget or without workers is
    /// refused; a missing budget is reported first.
    pub open spec fn refusal(&self) -> ConfigError {
        if self.budget() == 0 {
            ConfigError::ZeroBudget
        } else {
            ConfigError::NoWorkers
        }
    }

    /// A crawl from `base_url` of at most `max_pages` pages by `max_threads` workers.
    pub fn new(base_url: String, max_pages: usize, max_threads: usize) -> (crawler: Self)
        ensures
            crawler.base_url() == base_url@,
            crawler.budget() == max_pages,
            crawler.worker_count() == max_threads,
    {
        Crawler { base_url, max_pages, max_threads }
    }

    /// The pool in which the crawl begins, for a host that runs the workers
    /// itself. A zero budget or worker count is refused.
    pub fn pool(&self) -> (outcome: Result<Pool, ConfigError>)
        ensures
            outcome is Ok <==> self.budget() > 0 && self.worker_count() > 0,
            match outcome {
                Ok(pool) => pool.wf() && pool@ == PoolView::start(
                    self.base_url(),
                    self.budget(),
                    self.worker_count(),
                ),
                Err(error) => error == self.refusal(),
            },
    {
        if self.max_pages == 0 {
            Err(ConfigError::ZeroBudget)
        } else if self.max_threads == 0 {
            Err(ConfigError::NoWorkers)
        } else {
            Ok(Pool::new(self.base_url.clone(), self.max_pages, self.max_threads))
        }
    }

    /// Runs the crawl to completion. The workers take their steps in turn,
    /// one step each per round; `fetch` and `extract` are called between the
    /// steps. A zero budget or worker count is refused before any step.
    #[verifier::rlimit(50)]
    pub fn crawl<F, X>(&self, fetch: F, extract: X) -> (outcome: Result<
        CrawlReport,
        ConfigError,
    >) where F: Fn(&str) -> Result<String, FetchError>, X: Fn(&str, &str) -> Vec<String>
        requires
            forall|url: &str| call_requires(fetch, (url,)),
            forall|content: &str, scope: &str| call_requires(extract, (content, scope)),
        ensures
            outcome is Ok <==> self.budget() > 0 && self.worker_count() > 0,
            match outcome {
                Ok(report) => {
                    &&& 1 <= report.pages_crawled <= self.budget()
                    &&& report.results@.len() == report.pages_crawled
                    &&& page_urls(page_views(report.results@)).no_duplicates()
                    &&& page_urls(page_views(report.results@)).contains(self.base_url())
                    &&& finds_nothing(extract) ==> report.pages_crawled == 1
                    &&& exists|found: Map<Seq<char>, Seq<Seq<char>>>|
                        is_complete_crawl(
                            page_views(report.results@),
                            found,
                            fetch,
                            extract,
                            self.base_url(),
                            self.budget(),
                        )
                },
                Err(error) => error == self.refusal(),
            },
    {
        let mut pool = match self.pool() {
            Ok(pool) => pool,
            Err(error) => {
                return Err(error);
            },
        };
        let workers = pool.worker_count();
        let mut inbox: Vec<Event> = Vec::new();
        let mut k: usize = 0;
        while k < workers
            invariant
                k <= workers,
                inbox.len() == k,
                forall|j: int| 0 <= j < k ==> (#[trigger] inbox[j]) is Wake,
            decreases workers - k,
        {
            inbox.push(Event::Wake);
            k += 1;
        }
        proof {
            pool.lemma_wf_inv();
        }
        while !pool.all_stopped()
            invariant
                forall|url: &str| call_requires(fetch, (url,)),
                forall|content: &str, scope: &str| call_requires(extract, (content, scope)),
                pool.wf(),
                pool@.inv(),
                pool@.budget == self.budget(),
                pool@.base_url == self.base_url(),
                pool@.workers.len() == workers,
                inbox.len() == workers,
                workers > 0,
                self.budget() > 0,
                forall|j: int|
                    0 <= j < workers ==> reply_is_sound(
                        fetch,
                        extract,
                        self.base_url(),
                        #[trigger] pool@.workers[j],
                        inbox[j],
                    ),
                forall|i: int|
                    0 <= i < pool@.results.len() && !(#[trigger] pool@.results[i]).success
                        ==> fetch_fails(fetch, pool@.results[i].url),
                forall|url: Seq<char>| #[trigger]
                    pool@.found.dom().contains(url) ==> page_yields(
                        fetch,
                        extract,
                        self.base_url(),
                        url,
                        pool@.found[url],
                    ),
            decreases
                    pool@.work_left().0,
                    pool@.work_left().1,
                    pool@.work_left().2,
                    pool@.work_left().3,
        {
            let ghost round_start = pool@;
            let ghost mut progressed = false;
            let mut i: usize = 0;
            while i < workers
                invariant
                    forall|url: &str| call_requires(fetch, (url,)),
                    forall|content: &str, scope: &str| call_requires(extract, (content, scope)),
                    i <= workers,
                    pool.wf(),
                    pool@.inv(),
                    round_start.inv(),
                    pool@.budget == self.budget(),
                    pool@.base_url == self.base_url(),
                    pool@.workers.len() == workers,
                    round_start.workers.len() == workers,
                    inbox.len() == workers,
                    forall|j: int|
                        0 <= j < workers ==> reply_is_sound(
                            fetch,
                            extract,
                            self.base_url(),
                            #[trigger] pool@.workers[j],
                            inbox[j],
                        ),
                    forall|i: int|
                        0 <= i < pool@.results.len() && !(#[trigger] pool@.results[i]).success
                            ==> fetch_fails(fetch, pool@.results[i].url),
                    forall|url: Seq<char>| #[trigger]
                        pool@.found.dom().contains(url) ==> page_yields(
                            fetch,
                            extract,
                            self.base_url(),
                            url,
                            pool@.found[url],
                        ),
                        progressed ==> less_work(pool@.work_left(), round_start.work_left()),
                    !progressed ==> pool@ == round_start,
                    !progressed ==> forall|j: int|
                        0 <= j < i ==> (#[trigger] round_start.workers[j]) is Stopped
                            || (round_start.workers[j] is Polling && round_start.in_flight_count()
                            > 0),
                decreases workers - i,
            {
                let ghost before = pool@;
                let ghost inbox_before = inbox@;
                let mut event = Event::Wake;
                inbox.set_and_swap(i, &mut event);
                proof {
                    assert(event == inbox_before[i as int]);
                    assert(reply_is_sound(
                        fetch,
                        extract,
                        self.base_url(),
                        before.workers[i as int],
                        event,
                    ));
                    lemma_step_progress(before, i as int, event@);
                }
                let ghost delivered = event;
                let answer = pool.step(i, event);
                proof {
                    pool.lemma_wf_inv();
                    assert(answer is Ok);
                    assert(pool@.workers =~= before.workers.update(
                        i as int,
                        pool@.workers[i as int],
                    ));
                }
                let ghost answered = answer_view(answer);
                let reply = match answer {
                    Ok(action) => perform(action, &fetch, &extract),
                    Err(_) => Event::Wake,
                };
                inbox.set(i, reply);
                proof {
                    if !(before.workers[i as int] is Stopped) && answered != Ok::<
                        ActionView,
                        StepError,
                    >(ActionView::Backoff) {
                        progressed = true;
                    }
                    assert forall|j: int| 0 <= j < workers implies reply_is_sound(
                        fetch,
                        extract,
                        self.base_url(),
                        #[trigger] pool@.workers[j],
                        inbox[j],
                    ) by {
                        if j != i {
                            assert(pool@.workers[j] == before.workers[j]);
                            assert(inbox[j] == inbox_before[j]);
                        }
                    }
                }
                i += 1;
            }
            proof {
                if !progressed {
                    assert forall|j: int|
                        0 <= j < round_start.workers.len() implies flight_weight()(
                        #[trigger] round_start.workers[j],
                    ) == 0 by {}
                    lemma_tally_zero(round_start.workers, flight_weight());
                    assert(round_start.all_stopped());
                }
            }
        }
        proof {
            lemma_all_stopped_complete(pool@);
            lemma_outcomes_are_reached(pool@);
        }
        let report = pool.finished_report();
        proof {
            let results = page_views(report.results@);
            let urls = page_urls(results);
            assert(urls.to_set().contains(self.base_url()));
            assert(urls.contains(self.base_url()));
            assert(report.pages_crawled >= 1) by {
                if pool@.visited.len() == 0 {
                    pool@.visited.lemma_len0_is_empty();
                }
            }
            assert(discovered_urls(self.base_url(), pool@.found) =~= pool@.discovered);
            if finds_nothing(extract) {
                assert forall|url: Seq<char>| #[trigger]
                    pool@.found.dom().contains(url) implies pool@.found[url].len() == 0 by {
                    assert(page_yields(fetch, extract, self.base_url(), url, pool@.found[url]));
                    let (content, returned) = choose|content: String, returned: Vec<String>|
                        #[trigger] extract_gave(extract, content@, self.base_url(), returned)
                            && fetch_gave(fetch, url, Ok::<String, FetchError>(content))
                            && string_views(returned@) == pool@.found[url];
                    assert(returned@.len() == 0);
                }
                lemma_without_links_one_page(pool@);
            }
            assert(is_complete_crawl(
                results,
                pool@.found,
                fetch,
                extract,
                self.base_url(),
                self.budget(),
            ));
        }
        Ok(report)
    }
}

} // verus!
