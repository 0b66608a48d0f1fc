//! What holds of every crawl, proved of every step of the transition system.

use crate::page::page_urls;
use crate::protocol::{
    distance_weight, flight_weight, is_reached, less_work, links_to, reached_within,
    running_weight, tally, PoolView,
};
use crate::worker::{ActionView, EventView, StepError, WorkerView};
use vstd::prelude::*;

verus! {

/// Replacing one worker changes a tally by the difference of the two weights.
pub proof fn lemma_tally_update(
    ws: Seq<WorkerView>,
    weight: spec_fn(WorkerView) -> nat,
    i: int,
    w: WorkerView,
)
    requires
        0 <= i < ws.len(),
    ensures
        tally(ws.update(i, w), weight) + weight(ws[i]) == tally(ws, weight) + weight(w),
    decreases ws.len(),
{
    if i == ws.len() - 1 {
        assert(ws.update(i, w).drop_last() =~= ws.drop_last());
    } else {
        lemma_tally_update(ws.drop_last(), weight, i, w);
        assert(ws.update(i, w).drop_last() =~= ws.drop_last().update(i, w));
    }
}

/// A tally is at least the weight of each worker.
pub proof fn lemma_tally_bounds(ws: Seq<WorkerView>, weight: spec_fn(WorkerView) -> nat, i: int)
    requires
        0 <= i < ws.len(),
    ensures
        weight(ws[i]) <= tally(ws, weight),
    decreases ws.len(),
{
    if i < ws.len() - 1 {
        lemma_tally_bounds(ws.drop_last(), weight, i);
    }
}

/// A tally of weights that are all zero is zero.
pub proof fn lemma_tally_zero(ws: Seq<WorkerView>, weight: spec_fn(WorkerView) -> nat)
    requires
        forall|i: int| 0 <= i < ws.len() ==> weight(#[trigger] ws[i]) == 0,
    ensures
        tally(ws, weight) == 0,
    decreases ws.len(),
{
    if ws.len() > 0 {
        assert(forall|i: int| 0 <= i < ws.drop_last().len() ==> ws.drop_last()[i] == ws[i]);
        lemma_tally_zero(ws.drop_last(), weight);
    }
}

/// The state in which a crawl begins satisfies the invariant.
pub proof fn lemma_start_inv(base_url: Seq<char>, budget: nat, worker_count: nat)
    ensures
        PoolView::start(base_url, budget, worker_count).inv(),
        PoolView::start(base_url, budget, worker_count).in_flight_count() == 0,
        PoolView::start(base_url, budget, worker_count).steps_owed() == 0,
{
    reveal(PoolView::inv);
    let start = PoolView::start(base_url, budget, worker_count);
    lemma_tally_zero(start.workers, flight_weight());
    lemma_tally_zero(start.workers, distance_weight());
    assert(start.frontier[0] == base_url);
    assert(start.discoveries_are_kept());
    assert(reached_within(base_url, start.found, base_url, 0));
    assert(start.owners_have_claimed());
    assert(start.owners_are_distinct());
    assert(start.extractions_are_counted());
    assert(start.discoveries_are_reached());
}

/// Every run keeps the invariant, the budget, the base URL and the number
/// of workers.
pub proof fn lemma_run_inv(pool: PoolView, steps: Seq<(int, EventView)>)
    requires
        pool.inv(),
    ensures
        pool.after(steps).inv(),
        pool.after(steps).budget == pool.budget,
        pool.after(steps).base_url == pool.base_url,
        pool.after(steps).workers.len() == pool.workers.len(),
    decreases steps.len(),
{
    if steps.len() > 0 {
        lemma_run_inv(pool, steps.drop_last());
        lemma_next_inv(pool.after(steps.drop_last()), steps.last().0, steps.last().1);
    }
}

/// In every run of a crawl, whatever the order of the workers' steps and
/// whatever the fetcher and the link extractor answer, the number of claimed
/// URLs stays within the budget and no URL has more than one outcome; and
/// once every worker has stopped, the number of outcomes is the number of
/// claimed URLs.
pub proof fn lemma_every_run(
    base_url: Seq<char>,
    budget: nat,
    worker_count: nat,
    steps: Seq<(int, EventView)>,
)
    ensures
        ({
            let end = PoolView::start(base_url, budget, worker_count).after(steps);
            &&& end.visited.finite()
            &&& end.visited.len() <= budget
            &&& end.results.len() + end.in_flight_count() == end.visited.len()
            &&& page_urls(end.results).no_duplicates()
            &&& end.all_stopped() ==> end.results.len() == end.visited.len()
                && page_urls(end.results).to_set() == end.visited
        }),
{
    reveal(PoolView::inv);
    let end = PoolView::start(base_url, budget, worker_count).after(steps);
    lemma_start_inv(base_url, budget, worker_count);
    lemma_run_inv(PoolView::start(base_url, budget, worker_count), steps);
    lemma_outcomes_are_distinct(end);
    if end.all_stopped() {
        lemma_all_stopped_complete(end);
    }
}

/// No URL has more than one outcome.
pub proof fn lemma_outcomes_are_distinct(pool: PoolView)
    requires
        pool.owners_are_distinct(),
    ensures
        page_urls(pool.results).no_duplicates(),
{
    let urls = page_urls(pool.results);
    assert forall|i: int, j: int|
        0 <= i < urls.len() && 0 <= j < urls.len() && i != j implies urls[i] != urls[j] by {
        if i < j {
            assert(pool.results[i].url != pool.results[j].url);
        } else {
            assert(pool.results[j].url != pool.results[i].url);
        }
    }
}

/// Every page with an outcome is reached from the base URL by links of
/// pages that were fetched.
pub proof fn lemma_outcomes_are_reached(pool: PoolView)
    requires
        pool.inv(),
    ensures
        forall|i: int|
            0 <= i < pool.results.len() ==> is_reached(
                pool.base_url,
                pool.found,
                (#[trigger] pool.results[i]).url,
            ),
{
    reveal(PoolView::inv);
    assert forall|i: int| 0 <= i < pool.results.len() implies is_reached(
        pool.base_url,
        pool.found,
        (#[trigger] pool.results[i]).url,
    ) by {
        let url = pool.results[i].url;
        assert(pool.visited.contains(url));
        assert(pool.discovered.contains(url));
    }
}

/// When every worker has stopped, the outcomes are complete: there is exactly
/// one for each claimed URL and none for any other, the number of claimed
/// URLs is within the budget, and a crawl with a budget and a worker has
/// claimed the base URL.
pub proof fn lemma_all_stopped_complete(pool: PoolView)
    requires
        pool.inv(),
        pool.all_stopped(),
    ensures
        pool.in_flight_count() == 0,
        pool.results.len() == pool.visited.len(),
        pool.visited.len() <= pool.budget,
        page_urls(pool.results).no_duplicates(),
        page_urls(pool.results).to_set() == pool.visited,
        pool.budget > 0 && pool.workers.len() > 0 ==> pool.visited.contains(pool.base_url),
        pool.workers.len() > 0 ==> pool.visited.len() == vstd::math::min(
            pool.budget as int,
            pool.discovered.len() as int,
        ),
        pool.workers.len() > 0 && !pool.is_full() ==> pool.visited == pool.discovered,
        pool.discovered.finite(),
        pool.visited.subset_of(pool.discovered),
        forall|url: Seq<char>| #[trigger]
            pool.discovered.contains(url) <==> url == pool.base_url || links_to(pool.found, url),
        forall|i: int|
            0 <= i < pool.results.len() ==> (#[trigger] pool.results[i]).agrees_with(pool.found),
        forall|url: Seq<char>| #[trigger]
            pool.found.dom().contains(url) ==> page_urls(pool.results).contains(url),
{
    reveal(PoolView::inv);
    lemma_tally_zero(pool.workers, flight_weight());
    let urls = page_urls(pool.results);
    lemma_outcomes_are_distinct(pool);
    urls.unique_seq_to_set();
    assert(urls.to_set().subset_of(pool.visited)) by {
        assert forall|u: Seq<char>| urls.to_set().contains(u) implies pool.visited.contains(u) by {
            let i = choose|i: int| 0 <= i < urls.len() && urls[i] == u;
            assert(pool.results[i].url == u);
        }
    }
    vstd::set_lib::lemma_set_subset_finite(pool.visited, urls.to_set());
    vstd::set_lib::lemma_subset_equality(urls.to_set(), pool.visited);
    assert forall|url: Seq<char>| #[trigger] pool.found.dom().contains(url) implies urls.contains(
        url,
    ) by {
        assert(pool.visited.contains(url));
        assert(urls.to_set().contains(url));
    }
    if pool.workers.len() > 0 {
        assert(pool.workers[0] is Stopped);
        vstd::set_lib::lemma_len_subset(pool.visited, pool.discovered);
        if !pool.is_full() {
            assert(pool.visited =~= pool.discovered) by {
                assert forall|d: Seq<char>| pool.discovered.contains(d) implies pool.visited.contains(
                    d,
                ) by {
                    assert(!pool.frontier.contains(d));
                }
            }
        }
    }
}

/// Stopping is sound: once the crawl is finished, which it is as soon as one
/// worker has stopped, no step claims a URL any more, and the crawl stays
/// finished. A worker that stopped on an empty frontier has missed nothing.
pub proof fn lemma_finished_is_final(pre: PoolView, id: int, event: EventView)
    requires
        pre.inv(),
        pre.is_finished(),
    ensures
        pre.next(id, event).0.is_finished(),
        pre.next(id, event).0.visited == pre.visited,
        pre.is_quiescent() ==> pre.next(id, event).0.frontier == pre.frontier
            && pre.next(id, event).0.results == pre.results,
{
    reveal(PoolView::inv);
    let (post, answer) = pre.next(id, event);
    if answer is Ok {
        let new_state = post.workers[id];
        assert(post.workers =~= pre.workers.update(id, new_state));
        lemma_tally_update(pre.workers, flight_weight(), id, new_state);
        lemma_tally_bounds(pre.workers, flight_weight(), id);
    }
}

/// Every accepted step of a worker that has not stopped does some of the
/// work that is left, except the step that is answered by `Backoff`, which
/// changes nothing and is only taken while another worker is in flight.
pub proof fn lemma_step_progress(pre: PoolView, id: int, event: EventView)
    requires
        pre.inv(),
    ensures
        ({
            let (post, answer) = pre.next(id, event);
            &&& answer is Err ==> post == pre
            &&& answer == Ok::<ActionView, StepError>(ActionView::Backoff) ==> post == pre
                && pre.in_flight_count() > 0 && pre.workers[id] is Polling
            &&& answer is Ok && pre.workers[id] is Stopped ==> post == pre
            &&& answer is Ok && answer != Ok::<ActionView, StepError>(ActionView::Backoff)
                && !(pre.workers[id] is Stopped) ==> less_work(post.work_left(), pre.work_left())
        }),
{
    reveal(PoolView::inv);
    let (post, answer) = pre.next(id, event);
    if answer is Ok {
        let new_state = post.workers[id];
        assert(post.workers =~= pre.workers.update(id, new_state));
        lemma_tally_update(pre.workers, flight_weight(), id, new_state);
        lemma_tally_update(pre.workers, distance_weight(), id, new_state);
        lemma_tally_update(pre.workers, running_weight(), id, new_state);
        lemma_tally_bounds(pre.workers, running_weight(), id);
    }
}

/// A finished crawl in which the link extractor never returned a link has
/// crawled the base URL and nothing else.
pub proof fn lemma_without_links_one_page(pool: PoolView)
    requires
        pool.inv(),
        pool.all_stopped(),
        pool.workers.len() > 0,
        pool.budget > 0,
        forall|url: Seq<char>| #[trigger]
            pool.found.dom().contains(url) ==> pool.found[url].len() == 0,
    ensures
        pool.visited == Set::<Seq<char>>::empty().insert(pool.base_url),
        pool.results.len() == 1,
{
    reveal(PoolView::inv);
    lemma_all_stopped_complete(pool);
    assert(pool.visited =~= Set::<Seq<char>>::empty().insert(pool.base_url)) by {
        assert forall|url: Seq<char>| pool.visited.contains(url) implies url
            == pool.base_url by {
            assert(pool.discovered.contains(url));
            if links_to(pool.found, url) {
                let page = choose|page: Seq<char>| #[trigger]
                    pool.found.dom().contains(page) && pool.found[page].contains(url);
                assert(pool.found[page].len() == 0);
            }
        }
    }
}

/// What is reached stays reached when the links of one more page are found.
pub proof fn lemma_reached_grows(
    base_url: Seq<char>,
    found: Map<Seq<char>, Seq<Seq<char>>>,
    page: Seq<char>,
    links: Seq<Seq<char>>,
    url: Seq<char>,
    hops: nat,
)
    requires
        !found.dom().contains(page),
        reached_within(base_url, found, url, hops),
    ensures
        reached_within(base_url, found.insert(page, links), url, hops),
    decreases hops,
{
    if url != base_url {
        let via = choose|via: Seq<char>| #[trigger]
            found.dom().contains(via) && found[via].contains(url) && reached_within(
                base_url,
                found,
                via,
                (hops - 1) as nat,
            );
        lemma_reached_grows(base_url, found, page, links, via, (hops - 1) as nat);
        let grown = found.insert(page, links);
        assert(grown.dom().contains(via) && grown[via].contains(url) && reached_within(
            base_url,
            grown,
            via,
            (hops - 1) as nat,
        ));
    }
}

/// Every step keeps the invariant, whoever takes it and whatever the event:
/// the invariant holds of every interleaving of the workers.
pub proof fn lemma_next_inv(pre: PoolView, id: int, event: EventView)
    requires
        pre.inv(),
    ensures
        pre.next(id, event).0.inv(),
{
    reveal(PoolView::inv);
    let (post, answer) = pre.next(id, event);
    if answer is Err {
        return ;
    }
    let old_state = pre.workers[id];
    let new_state = post.workers[id];
    assert(post.workers =~= pre.workers.update(id, new_state));
    lemma_tally_update(pre.workers, flight_weight(), id, new_state);
    lemma_tally_bounds(pre.workers, flight_weight(), id);
    assert(forall|w: int|
        0 <= w < pre.workers.len() && w != id ==> #[trigger] post.workers[w] == pre.workers[w]);
    match (old_state, event) {
        (WorkerView::Polling, EventView::Wake) => {
            lemma_poll_inv(pre, id);
        },
        (WorkerView::Fetching { url }, EventView::Fetched { content }) => {
            lemma_in_flight_step_inv(pre, id, event);
        },
        (WorkerView::Fetching { url }, EventView::FetchFailed) => {
            lemma_in_flight_step_inv(pre, id, event);
        },
        (WorkerView::Extracting { url }, EventView::Extracted { links }) => {
            lemma_in_flight_step_inv(pre, id, event);
        },
        (WorkerView::Recording { result }, EventView::Wake) => {
            lemma_record_inv(pre, id);
        },
        _ => {},
    }
}

/// A polling worker's step keeps the invariant.
#[verifier::rlimit(50)]
proof fn lemma_poll_inv(pre: PoolView, id: int)
    requires
        pre.inv(),
        0 <= id < pre.workers.len(),
        pre.workers[id] is Polling,
    ensures
        pre.poll(id).0.inv(),
{
    reveal(PoolView::inv);
    let (post, action) = pre.poll(id);
    let new_state = post.workers[id];
    assert(post.workers =~= pre.workers.update(id, new_state));
    lemma_tally_update(pre.workers, flight_weight(), id, new_state);
    assert(forall|w: int|
        0 <= w < pre.workers.len() && w != id ==> #[trigger] post.workers[w] == pre.workers[w]);
    assert(post.discoveries_are_kept()) by {
        if pre.frontier.len() > 0 {
            let url = pre.frontier[0];
            assert(pre.discovered.contains(url));
            assert(forall|i: int|
                0 <= i < post.frontier.len() ==> #[trigger] post.frontier[i] == pre.frontier[i
                    + 1]);
            if !post.is_full() {
                assert forall|d: Seq<char>| #[trigger] post.discovered.contains(d) implies (
                post.visited.contains(d) || post.frontier.contains(d)) by {
                    if !pre.visited.contains(d) {
                        let k = choose|k: int| 0 <= k < pre.frontier.len() && pre.frontier[k] == d;
                        if k > 0 {
                            assert(post.frontier[k - 1] == d);
                        }
                    }
                }
            }
        }
    }
    if pre.frontier.len() > 0 {
        let url = pre.frontier[0];
        if !pre.is_full() && !pre.visited.contains(url) {
            assert(post.visited == pre.visited.insert(url));
            assert(post.owners_have_claimed());
            assert(post.owners_are_distinct());
            assert(!(exists|w: int|
                0 <= w < pre.workers.len() && #[trigger] pre.workers[w] is Stopped)) by {
                if pre.is_quiescent() {
                }
            }
            assert(!(exists|w: int|
                0 <= w < post.workers.len() && #[trigger] post.workers[w] is Stopped));
        } else if pre.is_full() {
            assert(post.is_full());
        } else {
            assert(post.workers =~= pre.workers);
            if exists|w: int| 0 <= w < post.workers.len() && #[trigger] post.workers[w] is Stopped {
                assert(pre.is_finished());
                assert(pre.is_full());
            }
        }
    } else {
        if pre.is_finished() {
            assert(post.is_finished());
        } else {
            assert(post == pre);
        }
    }
    assert(post.owners_have_claimed());
    assert(post.owners_are_distinct());
    assert(post.discoveries_are_kept());
    assert(post.extractions_are_counted());
    assert(post.discoveries_are_reached());
}

/// The step of a worker that hears from the fetcher or the link extractor
/// keeps the invariant.
#[verifier::rlimit(50)]
proof fn lemma_in_flight_step_inv(pre: PoolView, id: int, event: EventView)
    requires
        pre.inv(),
        0 <= id < pre.workers.len(),
        pre.workers[id] is Fetching && (event is Fetched || event is FetchFailed)
            || pre.workers[id] is Extracting && event is Extracted,
    ensures
        pre.next(id, event).0.inv(),
{
    reveal(PoolView::inv);
    let post = pre.next(id, event).0;
    lemma_in_flight_step_owners(pre, id, event);
    if event is Extracted {
        lemma_extracted_keeps(pre, id, event->links);
        lemma_extracted_counts(pre, id, event->links);
        lemma_extracted_reached(pre, id, event->links);
    } else {
        lemma_fetched_counts(pre, id, event);
    }
    assert(post.owners_have_claimed());
    assert(post.owners_are_distinct());
    assert(post.discoveries_are_kept());
    assert(post.extractions_are_counted());
    assert(post.discoveries_are_reached());
}

/// A worker in flight stays in flight with the URL it owns when it hears
/// from the fetcher or the link extractor, and no worker stops by it.
proof fn lemma_in_flight_step_owners(pre: PoolView, id: int, event: EventView)
    requires
        0 <= id < pre.workers.len(),
        pre.workers[id] is Fetching && (event is Fetched || event is FetchFailed)
            || pre.workers[id] is Extracting && event is Extracted,
        pre.owners_have_claimed(),
        pre.owners_are_distinct(),
        (exists|w: int| 0 <= w < pre.workers.len() && #[trigger] pre.workers[w] is Stopped)
            ==> pre.is_finished(),
    ensures
        ({
            let post = pre.next(id, event).0;
            &&& post.owners_have_claimed()
            &&& post.owners_are_distinct()
            &&& post.in_flight_count() == pre.in_flight_count()
            &&& post.visited == pre.visited
            &&& post.budget == pre.budget
            &&& post.base_url == pre.base_url
            &&& post.results == pre.results
            &&& post.frontier.len() >= pre.frontier.len()
            &&& pre.frontier.len() > 0 ==> post.frontier[0] == pre.frontier[0]
            &&& (exists|w: int| 0 <= w < post.workers.len() && #[trigger] post.workers[w] is Stopped)
                ==> post.is_finished()
        }),
{
    let post = pre.next(id, event).0;
    let new_state = post.workers[id];
    assert(post.workers =~= pre.workers.update(id, new_state));
    lemma_tally_update(pre.workers, flight_weight(), id, new_state);
    lemma_tally_bounds(pre.workers, flight_weight(), id);
    assert(forall|w: int|
        0 <= w < pre.workers.len() && w != id ==> #[trigger] post.workers[w] == pre.workers[w]);
    assert(new_state.in_flight() && new_state.claimed_url() == pre.workers[id].claimed_url());
    assert(post.owners_have_claimed());
    assert(post.owners_are_distinct());
    if exists|w: int| 0 <= w < post.workers.len() && #[trigger] post.workers[w] is Stopped {
        let w = choose|w: int| 0 <= w < post.workers.len() && #[trigger] post.workers[w] is Stopped;
        assert(pre.workers[w] is Stopped);
        assert(pre.is_finished());
        assert(!pre.is_quiescent());
        assert(post.is_full());
    }
}

/// A page whose fetch was answered is not yet among those that the link
/// extractor was asked about; if the fetch failed, its outcome counts no links.
proof fn lemma_fetched_counts(pre: PoolView, id: int, event: EventView)
    requires
        0 <= id < pre.workers.len(),
        pre.workers[id] is Fetching,
        event is Fetched || event is FetchFailed,
        pre.discoveries_are_kept(),
        pre.extractions_are_counted(),
        pre.discoveries_are_reached(),
    ensures
        pre.next(id, event).0.discoveries_are_kept(),
        pre.next(id, event).0.extractions_are_counted(),
        pre.next(id, event).0.discoveries_are_reached(),
{
    let post = pre.next(id, event).0;
    assert(post.workers =~= pre.workers.update(id, post.workers[id]));
    assert forall|w: int| 0 <= w < post.workers.len() implies match #[trigger] post.workers[w] {
        WorkerView::Recording { result } => result.agrees_with(post.found),
        WorkerView::Fetching { url } => !post.found.dom().contains(url),
        WorkerView::Extracting { url } => !post.found.dom().contains(url),
        _ => true,
    } by {
        if w != id {
            assert(post.workers[w] == pre.workers[w]);
        }
    }
}

/// The links that a worker hears of are put into the frontier, and none
/// that was discovered before is lost.
proof fn lemma_extracted_keeps(pre: PoolView, id: int, links: Seq<Seq<char>>)
    requires
        0 <= id < pre.workers.len(),
        pre.workers[id] is Extracting,
        pre.discoveries_are_kept(),
    ensures
        pre.next(id, EventView::Extracted { links }).0.discoveries_are_kept(),
{
    let post = pre.next(id, EventView::Extracted { links }).0;
    vstd::seq_lib::seq_to_set_is_finite(links);
    assert forall|i: int| 0 <= i < post.frontier.len() implies post.discovered.contains(
        #[trigger] post.frontier[i],
    ) by {
        if i >= pre.frontier.len() {
            assert(links.to_set().contains(links[i - pre.frontier.len()]));
        } else {
            assert(post.frontier[i] == pre.frontier[i]);
        }
    }
    if !post.is_full() {
        assert forall|d: Seq<char>| #[trigger] post.discovered.contains(d) implies (
        post.visited.contains(d) || post.frontier.contains(d)) by {
            if pre.discovered.contains(d) {
                if !pre.visited.contains(d) {
                    let k = choose|k: int| 0 <= k < pre.frontier.len() && pre.frontier[k] == d;
                    assert(post.frontier[k] == d);
                }
            } else {
                let k = choose|k: int| 0 <= k < links.len() && links[k] == d;
                assert(post.frontier[pre.frontier.len() + k] == d);
            }
        }
    }
}

/// The links that a worker hears of are counted in the outcome that it is
/// about to record, and in no other.
#[verifier::rlimit(50)]
proof fn lemma_extracted_counts(pre: PoolView, id: int, links: Seq<Seq<char>>)
    requires
        0 <= id < pre.workers.len(),
        pre.workers[id] is Extracting,
        pre.owners_have_claimed(),
        pre.owners_are_distinct(),
        pre.extractions_are_counted(),
    ensures
        pre.next(id, EventView::Extracted { links }).0.extractions_are_counted(),
{
    let post = pre.next(id, EventView::Extracted { links }).0;
    let url = pre.workers[id]->Extracting_url;
    assert(pre.workers[id].in_flight() && pre.workers[id].claimed_url() == url);
    assert(!pre.found.dom().contains(url));
    assert(post.workers =~= pre.workers.update(id, post.workers[id]));
    assert forall|i: int| 0 <= i < post.results.len() implies (
    #[trigger] post.results[i]).agrees_with(post.found) by {
        assert(pre.results[i].agrees_with(pre.found));
        assert(pre.results[i].url != pre.workers[id].claimed_url());
    }
    assert forall|w: int| 0 <= w < post.workers.len() implies match #[trigger] post.workers[w] {
        WorkerView::Recording { result } => result.agrees_with(post.found),
        WorkerView::Fetching { url } => !post.found.dom().contains(url),
        WorkerView::Extracting { url } => !post.found.dom().contains(url),
        _ => true,
    } by {
        if w != id {
            assert(post.workers[w] == pre.workers[w]);
            if pre.workers[w].in_flight() {
                if w < id {
                    assert(pre.workers[w].claimed_url() != pre.workers[id].claimed_url());
                } else {
                    assert(pre.workers[id].claimed_url() != pre.workers[w].claimed_url());
                }
            }
        }
    }
    assert forall|d: Seq<char>| #[trigger]
        post.discovered.contains(d) <==> d == post.base_url || links_to(post.found, d) by {
        if post.discovered.contains(d) && d != post.base_url {
            if pre.discovered.contains(d) {
                assert(links_to(pre.found, d));
                let page = choose|page: Seq<char>| #[trigger]
                    pre.found.dom().contains(page) && pre.found[page].contains(d);
                assert(post.found.dom().contains(page) && post.found[page].contains(d));
            } else {
                assert(links.contains(d));
                assert(post.found.dom().contains(url) && post.found[url].contains(d));
            }
        }
        if links_to(post.found, d) {
            let page = choose|page: Seq<char>| #[trigger]
                post.found.dom().contains(page) && post.found[page].contains(d);
            if page == url {
                assert(links.to_set().contains(d));
            } else {
                assert(pre.found.dom().contains(page) && pre.found[page].contains(d));
            }
        }
    }
}

/// The links that a worker hears of are reached, by one link more than the
/// page that holds them.
proof fn lemma_extracted_reached(pre: PoolView, id: int, links: Seq<Seq<char>>)
    requires
        0 <= id < pre.workers.len(),
        pre.workers[id] is Extracting,
        pre.owners_have_claimed(),
        pre.discoveries_are_kept(),
        pre.extractions_are_counted(),
        pre.discoveries_are_reached(),
    ensures
        pre.next(id, EventView::Extracted { links }).0.discoveries_are_reached(),
{
    let post = pre.next(id, EventView::Extracted { links }).0;
    let url = pre.workers[id]->Extracting_url;
    assert(pre.workers[id].in_flight() && pre.workers[id].claimed_url() == url);
    assert(!pre.found.dom().contains(url));
    assert(pre.visited.contains(url));
    assert(pre.discovered.contains(url));
    assert(is_reached(pre.base_url, pre.found, url));
    let far = choose|hops: nat| reached_within(pre.base_url, pre.found, url, hops);
    lemma_reached_grows(pre.base_url, pre.found, url, links, url, far);
    assert forall|d: Seq<char>| #[trigger] post.discovered.contains(d) implies is_reached(
        post.base_url,
        post.found,
        d,
    ) by {
        if pre.discovered.contains(d) {
            assert(is_reached(pre.base_url, pre.found, d));
            let hops = choose|hops: nat| reached_within(pre.base_url, pre.found, d, hops);
            lemma_reached_grows(pre.base_url, pre.found, url, links, d, hops);
        } else {
            assert(links.contains(d));
            assert(post.found.dom().contains(url) && post.found[url].contains(d)
                && reached_within(post.base_url, post.found, url, far));
            assert(reached_within(post.base_url, post.found, d, far + 1));
        }
    }
}

/// The step of a worker that records its outcome keeps the invariant.
#[verifier::rlimit(50)]
proof fn lemma_record_inv(pre: PoolView, id: int)
    requires
        pre.inv(),
        0 <= id < pre.workers.len(),
        pre.workers[id] is Recording,
    ensures
        pre.next(id, EventView::Wake).0.inv(),
{
    reveal(PoolView::inv);
    let (post, answer) = pre.next(id, EventView::Wake);
    let result = pre.workers[id]->result;
    assert(post.workers =~= pre.workers.update(id, WorkerView::Polling));
    lemma_tally_update(pre.workers, flight_weight(), id, WorkerView::Polling);
    lemma_tally_bounds(pre.workers, flight_weight(), id);
    assert(forall|w: int|
        0 <= w < pre.workers.len() && w != id ==> #[trigger] post.workers[w] == pre.workers[w]);
    assert(forall|i: int| 0 <= i < pre.results.len() ==> #[trigger] post.results[i] == pre.results[i]);
    assert(post.results[pre.results.len() as int] == result);
    assert(pre.workers[id].in_flight() && pre.workers[id].claimed_url() == result.url);
    assert(post.owners_have_claimed());
    assert(post.owners_are_distinct());
    if exists|w: int| 0 <= w < post.workers.len() && #[trigger] post.workers[w] is Stopped {
        let w = choose|w: int| 0 <= w < post.workers.len() && #[trigger] post.workers[w] is Stopped;
        assert(pre.workers[w] is Stopped);
        assert(pre.is_finished());
        assert(!pre.is_quiescent());
        assert(post.is_full());
    }
    assert(post.owners_have_claimed());
    assert(post.owners_are_distinct());
    assert(post.discoveries_are_kept());
    assert(post.extractions_are_counted());
    assert(post.discoveries_are_reached());
}

} // verus!
