//! The crawl as a transition system over mathematical values: the shared
//! state of a pool, the effect of one atomic step of one worker, and the
//! invariant that every step keeps.

use crate::page::PageView;
use crate::worker::{ActionView, EventView, StepError, WorkerView};
use vstd::prelude::*;

verus! {

/// The sum of `weight` over the workers `ws`.
pub open spec fn tally(ws: Seq<WorkerView>, weight: spec_fn(WorkerView) -> nat) -> nat
    decreases ws.len(),
{
    if ws.len() == 0 {
        0
    } else {
        tally(ws.drop_last(), weight) + weight(ws.last())
    }
}

/// One for a worker in flight, zero for any other.
pub open spec fn flight_weight() -> spec_fn(WorkerView) -> nat {
    |w: WorkerView|
        if w.in_flight() {
            1nat
        } else {
            0nat
        }
}

/// One for a worker that has not stopped, zero for one that has.
pub open spec fn running_weight() -> spec_fn(WorkerView) -> nat {
    |w: WorkerView|
        if w is Stopped {
            0nat
        } else {
            1nat
        }
}

/// The distance of a worker in flight from its next poll, zero for any other.
pub open spec fn distance_weight() -> spec_fn(WorkerView) -> nat {
    |w: WorkerView| w.steps_to_poll()
}

/// Some page in `found` links to `url`.
pub open spec fn links_to(found: Map<Seq<char>, Seq<Seq<char>>>, url: Seq<char>) -> bool {
    exists|page: Seq<char>| #[trigger] found.dom().contains(page) && found[page].contains(url)
}

/// `url` is reached from `base_url` by at most `hops` links, each a link of a
/// page in `found` that is itself reached.
pub open spec fn reached_within(
    base_url: Seq<char>,
    found: Map<Seq<char>, Seq<Seq<char>>>,
    url: Seq<char>,
    hops: nat,
) -> bool
    decreases hops,
{
    url == base_url || (hops > 0 && exists|page: Seq<char>| #[trigger]
        found.dom().contains(page) && found[page].contains(url) && reached_within(
            base_url,
            found,
            page,
            (hops - 1) as nat,
        ))
}

/// `url` is reached from `base_url` by links, each a link of a page in
/// `found` that is itself reached.
pub open spec fn is_reached(
    base_url: Seq<char>,
    found: Map<Seq<char>, Seq<Seq<char>>>,
    url: Seq<char>,
) -> bool {
    exists|hops: nat| reached_within(base_url, found, url, hops)
}

/// The shared state of a crawl together with the states of its workers.
pub struct PoolView {
    /// The cap on the number of claimed URLs.
    pub budget: nat,
    /// The URL the crawl started from; it is also the scope handed to the link extractor.
    pub base_url: Seq<char>,
    /// What the link extractor returned for each page that it was asked about.
    pub found: Map<Seq<char>, Seq<Seq<char>>>,
    /// Every URL that was ever put into the frontier.
    pub discovered: Set<Seq<char>>,
    /// The URLs claimed so far.
    pub visited: Set<Seq<char>>,
    /// The URLs that await a claim, front first.
    pub frontier: Seq<Seq<char>>,
    /// The outcomes recorded so far, oldest first.
    pub results: Seq<PageView>,
    /// The state of each worker, by its number.
    pub workers: Seq<WorkerView>,
}

impl PoolView {
    /// The state in which a crawl begins: the frontier holds the base URL,
    /// which is not yet claimed, and every worker is polling.
    pub open spec fn start(base_url: Seq<char>, budget: nat, worker_count: nat) -> PoolView {
        PoolView {
            budget,
            base_url,
            found: Map::empty(),
            discovered: Set::empty().insert(base_url),
            visited: Set::empty(),
            frontier: seq![base_url],
            results: Seq::empty(),
            workers: Seq::new(worker_count, |i: int| WorkerView::Polling),
        }
    }

    /// The budget is used up: no claim can succeed any more.
    pub open spec fn is_full(self) -> bool {
        self.visited.len() >= self.budget
    }

    /// The number of workers that own a URL whose outcome is not yet recorded.
    pub open spec fn in_flight_count(self) -> nat {
        tally(self.workers, flight_weight())
    }

    /// The number of workers that have not stopped.
    pub open spec fn running_count(self) -> nat {
        tally(self.workers, running_weight())
    }

    /// The number of steps that the workers in flight still owe before they poll again.
    pub open spec fn steps_owed(self) -> nat {
        tally(self.workers, distance_weight())
    }

    /// Nothing waits and nobody could still add to the frontier.
    pub open spec fn is_quiescent(self) -> bool {
        self.frontier.len() == 0 && self.in_flight_count() == 0
    }

    /// The condition under which a worker may stop: no claim can ever succeed again.
    pub open spec fn is_finished(self) -> bool {
        self.is_full() || self.is_quiescent()
    }

    /// Every worker has stopped.
    pub open spec fn all_stopped(self) -> bool {
        forall|w: int| 0 <= w < self.workers.len() ==> #[trigger] self.workers[w] is Stopped
    }

    /// The same pool with worker `id` in state `state`.
    pub open spec fn with_worker(self, id: int, state: WorkerView) -> PoolView {
        PoolView { workers: self.workers.update(id, state), ..self }
    }

    /// The step of a polling worker: it takes the front of the frontier and
    /// tries to claim it. An empty frontier makes it stop if the crawl is
    /// finished and wait otherwise; a failed claim makes it stop if the
    /// budget is used up and poll again otherwise.
    pub open spec fn poll(self, id: int) -> (PoolView, ActionView) {
        if self.frontier.len() == 0 {
            if self.is_finished() {
                (self.with_worker(id, WorkerView::Stopped), ActionView::Stop)
            } else {
                (self, ActionView::Backoff)
            }
        } else {
            let url = self.frontier[0];
            let popped = PoolView { frontier: self.frontier.drop_first(), ..self };
            if self.is_full() {
                (popped.with_worker(id, WorkerView::Stopped), ActionView::Stop)
            } else if self.visited.contains(url) {
                (popped, ActionView::Continue)
            } else {
                let claimed = PoolView { visited: self.visited.insert(url), ..popped };
                (
                    claimed.with_worker(id, WorkerView::Fetching { url }),
                    ActionView::Fetch { url },
                )
            }
        }
    }

    /// One atomic step of worker `id` on `event`: the pool afterwards and the
    /// answer to the worker. A refused step leaves the pool as it was.
    pub open spec fn next(self, id: int, event: EventView) -> (
        PoolView,
        Result<ActionView, StepError>,
    ) {
        if !(0 <= id < self.workers.len()) {
            (self, Err(StepError::UnknownWorker))
        } else {
            match (self.workers[id], event) {
                (WorkerView::Polling, EventView::Wake) => {
                    let (pool, action) = self.poll(id);
                    (pool, Ok(action))
                },
                (WorkerView::Fetching { url }, EventView::Fetched { content }) => (
                    self.with_worker(id, WorkerView::Extracting { url }),
                    Ok(ActionView::Extract { content, scope: self.base_url }),
                ),
                (WorkerView::Fetching { url }, EventView::FetchFailed) => (
                    self.with_worker(
                        id,
                        WorkerView::Recording {
                            result: PageView { url, links_found: 0, success: false },
                        },
                    ),
                    Ok(ActionView::Continue),
                ),
                (WorkerView::Extracting { url }, EventView::Extracted { links }) => (
                    PoolView {
                        frontier: self.frontier + links,
                        found: self.found.insert(url, links),
                        discovered: self.discovered.union(links.to_set()),
                        ..self
                    }.with_worker(
                        id,
                        WorkerView::Recording {
                            result: PageView { url, links_found: links.len(), success: true },
                        },
                    ),
                    Ok(ActionView::Continue),
                ),
                (WorkerView::Recording { result }, EventView::Wake) => (
                    PoolView { results: self.results.push(result), ..self }.with_worker(
                        id,
                        WorkerView::Polling,
                    ),
                    Ok(ActionView::Continue),
                ),
                (WorkerView::Stopped, EventView::Wake) => (self, Ok(ActionView::Stop)),
                _ => (self, Err(StepError::UnexpectedEvent)),
            }
        }
    }

    /// The pool after the steps `steps`, each the number of a worker and the
    /// event it is told, taken one after the other in any order of workers:
    /// a run of the crawl.
    pub open spec fn after(self, steps: Seq<(int, EventView)>) -> PoolView
        decreases steps.len(),
    {
        if steps.len() == 0 {
            self
        } else {
            self.after(steps.drop_last()).next(steps.last().0, steps.last().1).0
        }
    }

    /// Every claimed URL has exactly one owner: either its outcome is
    /// recorded, once, or one worker is in flight with it.
    pub open spec fn owners_are_distinct(self) -> bool {
        &&& forall|i: int, j: int|
            0 <= i < j < self.results.len() ==> (#[trigger] self.results[i]).url != (
            #[trigger] self.results[j]).url
        &&& forall|v: int, w: int|
            0 <= v < w < self.workers.len() && (#[trigger] self.workers[v]).in_flight() && (
            #[trigger] self.workers[w]).in_flight() ==> self.workers[v].claimed_url()
                != self.workers[w].claimed_url()
        &&& forall|i: int, w: int|
            0 <= i < self.results.len() && 0 <= w < self.workers.len() && (
            #[trigger] self.workers[w]).in_flight() ==> (#[trigger] self.results[i]).url
                != self.workers[w].claimed_url()
    }

    /// Whatever is owned has been claimed.
    pub open spec fn owners_have_claimed(self) -> bool {
        &&& forall|i: int|
            0 <= i < self.results.len() ==> self.visited.contains(
                (#[trigger] self.results[i]).url,
            )
        &&& forall|w: int|
            0 <= w < self.workers.len() && (#[trigger] self.workers[w]).in_flight()
                ==> self.visited.contains(self.workers[w].claimed_url())
    }

    /// The frontier and the claimed URLs hold discovered URLs only, and
    /// until the budget is used up no discovered URL is lost: each is claimed
    /// or still waits in the frontier.
    pub open spec fn discoveries_are_kept(self) -> bool {
        &&& self.discovered.finite()
        &&& self.visited.subset_of(self.discovered)
        &&& forall|i: int|
            0 <= i < self.frontier.len() ==> self.discovered.contains(#[trigger] self.frontier[i])
        &&& !self.is_full() ==> forall|url: Seq<char>| #[trigger]
            self.discovered.contains(url) ==> self.visited.contains(url)
                || self.frontier.contains(url)
    }

    /// The outcomes agree with what the link extractor returned: a page is a
    /// success exactly when the extractor was asked about it, and then its
    /// number of links is the number that the extractor returned; and the
    /// discovered URLs are the base URL and what the extractor returned.
    pub open spec fn extractions_are_counted(self) -> bool {
        &&& self.found.dom().subset_of(self.visited)
        &&& forall|i: int|
            0 <= i < self.results.len() ==> (#[trigger] self.results[i]).agrees_with(self.found)
        &&& forall|w: int|
            0 <= w < self.workers.len() ==> match #[trigger] self.workers[w] {
                WorkerView::Recording { result } => result.agrees_with(self.found),
                WorkerView::Fetching { url } => !self.found.dom().contains(url),
                WorkerView::Extracting { url } => !self.found.dom().contains(url),
                _ => true,
            }
        &&& forall|url: Seq<char>| #[trigger]
            self.discovered.contains(url) <==> url == self.base_url || links_to(self.found, url)
    }

    /// Every discovered URL is reached from the base URL by links of pages
    /// that were fetched.
    pub open spec fn discoveries_are_reached(self) -> bool {
        forall|url: Seq<char>| #[trigger]
            self.discovered.contains(url) ==> is_reached(self.base_url, self.found, url)
    }

    /// The lexicographic measure of the work that is left: the claims that
    /// the budget still allows, the steps that the workers in flight owe,
    /// the URLs that wait, and the workers that run.
    pub open spec fn work_left(self) -> (nat, nat, nat, nat) {
        (
            (self.budget - self.visited.len()) as nat,
            self.steps_owed(),
            self.frontier.len(),
            self.running_count(),
        )
    }

    /// What holds of a pool at every moment of a crawl.
    #[verifier::opaque]
    pub open spec fn inv(self) -> bool {
        &&& self.visited.finite()
        &&& self.visited.len() <= self.budget
        &&& self.results.len() + self.in_flight_count() == self.visited.len()
        &&& self.owners_have_claimed()
        &&& self.owners_are_distinct()
        &&& self.discoveries_are_kept()
        &&& self.extractions_are_counted()
        &&& self.discoveries_are_reached()
        &&& (exists|w: int| 0 <= w < self.workers.len() && #[trigger] self.workers[w] is Stopped)
            ==> self.is_finished()
        &&& self.budget > 0 ==> self.visited.contains(self.base_url) || (self.visited.len() == 0
            && self.frontier.len() > 0 && self.frontier[0] == self.base_url)
    }
}

/// The lexicographic order on measures of work.
pub open spec fn less_work(a: (nat, nat, nat, nat), b: (nat, nat, nat, nat)) -> bool {
    a.0 < b.0 || (a.0 == b.0 && (a.1 < b.1 || (a.1 == b.1 && (a.2 < b.2 || (a.2 == b.2 && a.3
        < b.3)))))
}

} // verus!
